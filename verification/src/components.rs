//! The component payloads, their type bits, and the record that a storage
//! array holds for each attached component.

use vstd::prelude::*;

verus! {

/// Identifier of an entity. Ids are handed out in sequence, starting at 0.
pub type Entity = u32;

/// The kinds of component that an entity can carry.
#[derive(Clone, Copy, Debug, PartialEq, Eq, Structural)]
pub enum ComponentType {
    TransformComponent,
    MeshComponent,
    VelocityComponent,
    MaterialComponent,
    PBRMaterialComponent,
}

impl ComponentType {
    /// The single bit that stands for this component type in a mask.
    pub open spec fn spec_mask(self) -> u32 {
        match self {
            ComponentType::TransformComponent => 0x01,
            ComponentType::MeshComponent => 0x02,
            ComponentType::VelocityComponent => 0x04,
            ComponentType::MaterialComponent => 0x08,
            ComponentType::PBRMaterialComponent => 0x10,
        }
    }

    #[verifier::when_used_as_spec(spec_mask)]
    pub fn mask(self) -> (m: u32)
        ensures
            m == self.spec_mask(),
    {
        match self {
            ComponentType::TransformComponent => 0x01,
            ComponentType::MeshComponent => 0x02,
            ComponentType::VelocityComponent => 0x04,
            ComponentType::MaterialComponent => 0x08,
            ComponentType::PBRMaterialComponent => 0x10,
        }
    }
}

/// Whether `storage_type` has every bit of `query` set: the entity carries at
/// least the requested component types.
pub open spec fn mask_contains(storage_type: u32, query: u32) -> bool {
    storage_type & query == query
}

/// Three single-precision numbers, each kept as its IEEE 754 bit pattern.
#[derive(Clone, Copy, Debug, PartialEq, Eq, Structural)]
pub struct Vector3 {
    pub x: u32,
    pub y: u32,
    pub z: u32,
}

/// Where an object stands, how it is turned and how large it is.
#[derive(Clone, Copy, Debug, PartialEq, Eq, Structural)]
pub struct Transform {
    pub position: Vector3,
    pub rotation: Vector3,
    pub scale: Vector3,
}

/// A vertex buffer of the render layer: raw handles and the layout of its
/// contents. The store keeps the handles and never frees them.
#[derive(Clone, Copy, Debug, PartialEq, Eq, Structural)]
pub struct VertexBuffer {
    pub buffer: u64,
    pub memory: u64,
    pub count: u64,
    pub stride: u64,
}

/// An index buffer of the render layer, kept like a `VertexBuffer`.
#[derive(Clone, Copy, Debug, PartialEq, Eq, Structural)]
pub struct IndexBuffer {
    pub buffer: u64,
    pub memory: u64,
    pub count: u64,
    pub stride: u64,
}

/// The geometry of an object.
#[derive(Clone, Copy, Debug, PartialEq, Eq, Structural)]
pub struct Mesh {
    pub vertex_buffer: VertexBuffer,
    pub index_buffer: IndexBuffer,
}

/// How fast an object moves and turns, per axis.
#[derive(Clone, Copy, Debug, PartialEq, Eq, Structural)]
pub struct Velocity {
    pub translation_speed: Vector3,
    pub rotation_speed: Vector3,
}

/// How one colour attachment blends, as the render layer describes it.
#[derive(Clone, Copy, Debug, PartialEq, Eq, Structural)]
pub struct ColorBlendAttachmentState {
    pub blend_enable: u32,
    pub src_color_blend_factor: i32,
    pub dst_color_blend_factor: i32,
    pub color_blend_op: i32,
    pub src_alpha_blend_factor: i32,
    pub dst_alpha_blend_factor: i32,
    pub alpha_blend_op: i32,
    pub color_write_mask: u32,
}

/// The pipeline objects an object is drawn with, as raw handles.
#[derive(Clone, Debug, PartialEq, Eq)]
pub struct Material {
    pub vertex_shader: u64,
    pub fragment_shader: u64,
    pub pso: u64,
    pub render_pass: u64,
    pub pipeline_layout: u64,
    pub color_blend_attachment_states: Vec<ColorBlendAttachmentState>,
}

#[derive(Clone, Copy, Debug, PartialEq, Eq, Structural)]
pub enum PBRMaterialType {
    /// Either a pure dielectric or a pure metal.
    Pure,
    /// A metal under a dielectric coat.
    Coated,
    /// A surface that only emits light.
    PureEmissive,
}

/// Parameters of physically based shading; the numbers are IEEE 754 bit
/// patterns.
#[derive(Clone, Copy, Debug, PartialEq, Eq, Structural)]
pub struct PBRMaterial {
    pub albedo: Vector3,
    pub f0_reflectance: Vector3,
    pub roughness: u32,
    pub metalness: u32,
    pub material_type: PBRMaterialType,
    pub emissive_color: Vector3,
}

/// One component, of one of the five kinds.
#[derive(Clone, Debug, PartialEq, Eq)]
pub enum Component {
    TransformComponent(Transform),
    MeshComponent(Mesh),
    VelocityComponent(Velocity),
    MaterialComponent(Material),
    PBRMaterialComponent(PBRMaterial),
}

impl Component {
    /// The kind of this component.
    pub open spec fn kind(self) -> ComponentType {
        match self {
            Component::TransformComponent(_) => ComponentType::TransformComponent,
            Component::MeshComponent(_) => ComponentType::MeshComponent,
            Component::VelocityComponent(_) => ComponentType::VelocityComponent,
            Component::MaterialComponent(_) => ComponentType::MaterialComponent,
            Component::PBRMaterialComponent(_) => ComponentType::PBRMaterialComponent,
        }
    }

    /// The payload, where this is a transform.
    pub open spec fn transform(self) -> Option<Transform> {
        match self {
            Component::TransformComponent(transform) => Some(transform),
            _ => None,
        }
    }

    /// The payload, where this is a mesh.
    pub open spec fn mesh(self) -> Option<Mesh> {
        match self {
            Component::MeshComponent(mesh) => Some(mesh),
            _ => None,
        }
    }

    /// The payload, where this is a velocity.
    pub open spec fn velocity(self) -> Option<Velocity> {
        match self {
            Component::VelocityComponent(velocity) => Some(velocity),
            _ => None,
        }
    }

    /// The payload, where this is a material.
    pub open spec fn material(self) -> Option<Material> {
        match self {
            Component::MaterialComponent(material) => Some(material),
            _ => None,
        }
    }

    /// The payload, where this is a set of shading parameters.
    pub open spec fn pbr_material(self) -> Option<PBRMaterial> {
        match self {
            Component::PBRMaterialComponent(pbr_material) => Some(pbr_material),
            _ => None,
        }
    }

    /// The kind of this component.
    pub fn component_type(&self) -> (t: ComponentType)
        ensures
            t == self.kind(),
    {
        match self {
            Component::TransformComponent(_) => ComponentType::TransformComponent,
            Component::MeshComponent(_) => ComponentType::MeshComponent,
            Component::VelocityComponent(_) => ComponentType::VelocityComponent,
            Component::MaterialComponent(_) => ComponentType::MaterialComponent,
            Component::PBRMaterialComponent(_) => ComponentType::PBRMaterialComponent,
        }
    }
}

/// What a storage array holds for one attached component: the mask of the
/// whole entity, the entity, and the component itself.
#[derive(Clone, Debug, PartialEq, Eq)]
pub struct StorageEntry<T> {
    pub storage_type: u32,
    pub entity: Entity,
    pub component: T,
}

pub type TransformStorageEntry = StorageEntry<Transform>;

pub type MeshStorageEntry = StorageEntry<Mesh>;

pub type VelocityStorageEntry = StorageEntry<Velocity>;

pub type MaterialStorageEntry = StorageEntry<Material>;

pub type PBRMaterialStorageEntry = StorageEntry<PBRMaterial>;

/// The part of a storage entry that queries read: the entity and its mask.
#[derive(Clone, Copy, Debug, PartialEq, Eq, Structural)]
pub struct EntryTag {
    pub storage_type: u32,
    pub entity: Entity,
}

impl EntryTag {
    /// Whether the entity carries every component type of `query`.
    pub open spec fn matches(self, query: u32) -> bool {
        mask_contains(self.storage_type, query)
    }
}

impl<T> StorageEntry<T> {
    pub open spec fn spec_tag(&self) -> EntryTag {
        EntryTag { storage_type: self.storage_type, entity: self.entity }
    }

    /// The entity and mask of this entry.
    #[verifier::when_used_as_spec(spec_tag)]
    pub fn tag(&self) -> (tag: EntryTag)
        ensures
            tag == self.spec_tag(),
    {
        EntryTag { storage_type: self.storage_type, entity: self.entity }
    }

    pub open spec fn spec_matches(&self, query: u32) -> bool {
        self.spec_tag().matches(query)
    }

    /// Whether the entity of this entry carries every component type of
    /// `query`. It may carry more.
    #[verifier::when_used_as_spec(spec_matches)]
    pub fn matches(&self, query: u32) -> (b: bool)
        ensures
            b == self.spec_matches(query),
    {
        self.storage_type & query == query
    }
}

} // verus!
