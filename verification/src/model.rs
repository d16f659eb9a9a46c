//! The mathematical model of the store: its state as sequences, the three
//! steps of the builder protocol as functions on that state, and the
//! invariant that every step keeps.

use vstd::prelude::*;
use crate::components::{
    Component, ComponentType, Entity, EntryTag, MaterialStorageEntry, Mesh, MeshStorageEntry,
    Material, PBRMaterial, PBRMaterialStorageEntry, StorageEntry, Transform,
    TransformStorageEntry, Velocity, VelocityStorageEntry,
};
use crate::storage::tags_of;

verus! {

/// The mask of an entity that carries the given components: the bits of
/// their kinds, or-ed together.
pub open spec fn mask_of(components: Seq<Component>) -> u32
    decreases components.len(),
{
    if components.len() == 0 {
        0
    } else {
        mask_of(components.drop_last()) | components.last().kind().spec_mask()
    }
}

/// How many of the components are of kind `t`.
pub open spec fn count_kind(components: Seq<Component>, t: ComponentType) -> nat
    decreases components.len(),
{
    if components.len() == 0 {
        0
    } else {
        count_kind(components.drop_last(), t) + if components.last().kind() == t {
            1nat
        } else {
            0nat
        }
    }
}

/// The entries that one storage array receives when the pending components
/// are committed. `pick` selects the components of the array's type. The
/// component attached last comes first.
pub open spec fn drained<T>(
    pending: Seq<Component>,
    pick: spec_fn(Component) -> Option<T>,
    mask: u32,
    entity: Entity,
) -> Seq<StorageEntry<T>>
    decreases pending.len(),
{
    if pending.len() == 0 {
        Seq::empty()
    } else {
        let earlier = drained(pending.drop_last(), pick, mask, entity);
        match pick(pending.last()) {
            Some(component) => seq![StorageEntry { storage_type: mask, entity, component }]
                + earlier,
            None => earlier,
        }
    }
}

pub open spec fn pick_transform() -> spec_fn(Component) -> Option<Transform> {
    |c: Component| c.transform()
}

pub open spec fn pick_mesh() -> spec_fn(Component) -> Option<Mesh> {
    |c: Component| c.mesh()
}

pub open spec fn pick_velocity() -> spec_fn(Component) -> Option<Velocity> {
    |c: Component| c.velocity()
}

pub open spec fn pick_material() -> spec_fn(Component) -> Option<Material> {
    |c: Component| c.material()
}

pub open spec fn pick_pbr_material() -> spec_fn(Component) -> Option<PBRMaterial> {
    |c: Component| c.pbr_material()
}

/// `n` copies of one tag.
pub open spec fn repeated(tag: EntryTag, n: nat) -> Seq<EntryTag> {
    Seq::new(n, |i: int| tag)
}

/// Whether the entity of `tag` carries a component of kind `t`.
pub open spec fn carries(tag: EntryTag, t: ComponentType) -> bool {
    tag.matches(t.spec_mask())
}

/// The state of a store.
pub struct WorldModel {
    /// `Some` while an entity is being assembled.
    pub pending_mask: Option<u32>,
    /// The components attached to the entity that is being assembled.
    pub pending: Seq<Component>,
    /// The entity that was committed last.
    pub last_built: Option<Entity>,
    pub transforms: Seq<TransformStorageEntry>,
    pub meshes: Seq<MeshStorageEntry>,
    pub velocities: Seq<VelocityStorageEntry>,
    pub materials: Seq<MaterialStorageEntry>,
    pub pbr_materials: Seq<PBRMaterialStorageEntry>,
}

impl WorldModel {
    /// The store that holds nothing.
    pub open spec fn empty() -> WorldModel {
        WorldModel {
            pending_mask: None,
            pending: Seq::empty(),
            last_built: None,
            transforms: Seq::empty(),
            meshes: Seq::empty(),
            velocities: Seq::empty(),
            materials: Seq::empty(),
            pbr_materials: Seq::empty(),
        }
    }

    /// The tags of the storage array of kind `t`, in storage order.
    pub open spec fn tags(self, t: ComponentType) -> Seq<EntryTag> {
        match t {
            ComponentType::TransformComponent => tags_of(self.transforms),
            ComponentType::MeshComponent => tags_of(self.meshes),
            ComponentType::VelocityComponent => tags_of(self.velocities),
            ComponentType::MaterialComponent => tags_of(self.materials),
            ComponentType::PBRMaterialComponent => tags_of(self.pbr_materials),
        }
    }

    /// The id that the next committed entity gets; also the number of
    /// entities committed so far.
    pub open spec fn next_entity(self) -> int {
        match self.last_built {
            None => 0,
            Some(entity) => entity + 1,
        }
    }

    /// Whether the storage array of kind `t` holds an entry of `entity`.
    pub open spec fn has_entry(self, t: ComponentType, entity: Entity) -> bool {
        exists|j: int| 0 <= j < self.tags(t).len() && (#[trigger] self.tags(t)[j]).entity == entity
    }

    /// No entity has two entries in the storage array of kind `t`.
    pub open spec fn distinct(self, t: ComponentType) -> bool {
        forall|i: int, j: int|
            0 <= i < j < self.tags(t).len() ==> (#[trigger] self.tags(t)[i]).entity != (
            #[trigger] self.tags(t)[j]).entity
    }

    /// The pending mask is the mask of the pending components, and nothing
    /// is pending outside the assembly of an entity.
    pub open spec fn pending_wf(self) -> bool {
        match self.pending_mask {
            None => self.pending.len() == 0,
            Some(mask) => mask == mask_of(self.pending),
        }
    }

    /// Each array fits the index type.
    pub open spec fn sized(self) -> bool {
        forall|t: ComponentType| (#[trigger] self.tags(t)).len() <= usize::MAX
    }

    /// Every entry of an array carries the bit of the array's type.
    pub open spec fn partitioned(self) -> bool {
        forall|t: ComponentType, i: int|
            0 <= i < self.tags(t).len() ==> carries(#[trigger] self.tags(t)[i], t)
    }

    /// Every entry belongs to an entity that was committed.
    pub open spec fn bounded(self) -> bool {
        forall|t: ComponentType, i: int|
            0 <= i < self.tags(t).len() ==> (#[trigger] self.tags(t)[i]).entity
                < self.next_entity()
    }

    /// Each array holds its entries in the order in which their entities
    /// were committed.
    pub open spec fn ordered(self) -> bool {
        forall|t: ComponentType, i: int, j: int|
            0 <= i < j < self.tags(t).len() ==> (#[trigger] self.tags(t)[i]).entity <= (
            #[trigger] self.tags(t)[j]).entity
    }

    /// All entries of one entity, in whatever array, carry the same mask.
    pub open spec fn coherent(self) -> bool {
        forall|t: ComponentType, i: int, u: ComponentType, j: int|
            0 <= i < self.tags(t).len() && 0 <= j < self.tags(u).len() && (
            #[trigger] self.tags(t)[i]).entity == (#[trigger] self.tags(u)[j]).entity
                ==> self.tags(t)[i].storage_type == self.tags(u)[j].storage_type
    }

    /// Where a mask names a component type, the array of that type holds an
    /// entry of the entity.
    pub open spec fn complete(self) -> bool {
        forall|t: ComponentType, i: int, u: ComponentType|
            0 <= i < self.tags(t).len() && #[trigger] carries(self.tags(t)[i], u)
                ==> self.has_entry(u, self.tags(t)[i].entity)
    }

    /// The invariant of the store.
    pub open spec fn wf(self) -> bool {
        &&& self.pending_wf()
        &&& self.sized()
        &&& self.partitioned()
        &&& self.bounded()
        &&& self.ordered()
        &&& self.coherent()
        &&& self.complete()
    }

    /// Whether the assembly of a new entity may begin: nothing is pending.
    pub open spec fn can_create(self) -> bool {
        self.pending.len() == 0
    }

    /// The state after the assembly of a new entity has begun.
    pub open spec fn create_entity(self) -> WorldModel {
        WorldModel { pending_mask: Some(0), ..self }
    }

    /// Whether a component may be attached: an entity is being assembled.
    pub open spec fn can_attach(self) -> bool {
        self.pending_mask is Some
    }

    /// The state after `component` has been attached to the pending entity.
    pub open spec fn with_component(self, component: Component) -> WorldModel {
        WorldModel {
            pending_mask: Some(self.pending_mask.unwrap() | component.kind().spec_mask()),
            pending: self.pending.push(component),
            ..self
        }
    }

    /// Whether the pending entity may be committed: it is being assembled,
    /// it has a component, and an id is left for it.
    pub open spec fn can_build(self) -> bool {
        &&& self.pending_mask is Some
        &&& self.pending.len() > 0
        &&& self.next_entity() <= u32::MAX
    }

    /// The state after the pending entity has been committed: each of its
    /// components stands at the end of the array of its type, tagged with
    /// the entity's id and mask.
    pub open spec fn build(self) -> WorldModel {
        let mask = self.pending_mask.unwrap();
        let entity = self.next_entity() as Entity;
        WorldModel {
            pending_mask: None,
            pending: Seq::empty(),
            last_built: Some(entity),
            transforms: self.transforms + drained(self.pending, pick_transform(), mask, entity),
            meshes: self.meshes + drained(self.pending, pick_mesh(), mask, entity),
            velocities: self.velocities + drained(self.pending, pick_velocity(), mask, entity),
            materials: self.materials + drained(self.pending, pick_material(), mask, entity),
            pbr_materials: self.pbr_materials + drained(
                self.pending,
                pick_pbr_material(),
                mask,
                entity,
            ),
        }
    }
    /// The state in which a new entity has been begun and the given
    /// components have been attached to it, in order.
    pub open spec fn assembled(self, components: Seq<Component>) -> WorldModel
        decreases components.len(),
    {
        if components.len() == 0 {
            self.create_entity()
        } else {
            self.assembled(components.drop_last()).with_component(components.last())
        }
    }

    /// The state after one more entity, with the given components, has been
    /// assembled and committed.
    pub open spec fn spawned(self, components: Seq<Component>) -> WorldModel {
        self.assembled(components).build()
    }

    /// The store in which one entity has been assembled and committed for
    /// each element of `plans`, in order, starting from the empty store.
    pub open spec fn replay(plans: Seq<Seq<Component>>) -> WorldModel
        decreases plans.len(),
    {
        if plans.len() == 0 {
            WorldModel::empty()
        } else {
            WorldModel::replay(plans.drop_last()).spawned(plans.last())
        }
    }
}

/// Whether each plan names at least one component and an id exists for
/// each planned entity.
pub open spec fn plans_valid(plans: Seq<Seq<Component>>) -> bool {
    &&& plans.len() <= u32::MAX + 1
    &&& forall|k: int| 0 <= k < plans.len() ==> (#[trigger] plans[k]).len() > 0
}

} // verus!
