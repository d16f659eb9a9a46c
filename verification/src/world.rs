//! The store itself: the builder protocol that assembles and commits an
//! entity, access to the storage arrays, and the queries over them.

use vstd::prelude::*;
use crate::components::{
    Component, ComponentType, Entity, EntryTag, Material, MaterialStorageEntry, Mesh,
    MeshStorageEntry, PBRMaterial, PBRMaterialStorageEntry, StorageEntry, Transform,
    TransformStorageEntry, Velocity, VelocityStorageEntry,
};
use crate::model::{
    WorldModel, carries, count_kind, drained, pick_material, pick_mesh, pick_pbr_material,
    pick_transform, pick_velocity,
};
use crate::reload::{lemma_reloaded_tags, referring, reload_materials, reloaded_all};
use crate::steps::{
    lemma_build_wf, lemma_create_entity_wf, lemma_distinct_ascends, lemma_mask_of_names,
    lemma_same_tags_wf, lemma_with_component_wf,
};
use crate::storage::{
    ascends_strictly, filter_storage, find_entity, join_tags, joined, lemma_matching_all,
    lemma_replaced_tags, matching, replace_component, replaced, storage_tags, zip_indices, zipped,
};

verus! {

/// An entity-component store with one flat, append-only array per component
/// type.
pub struct World {
    pending_mask: Option<u32>,
    pending_components: Vec<Component>,
    last_build_entity: Option<Entity>,
    transform_storage: Vec<TransformStorageEntry>,
    mesh_storage: Vec<MeshStorageEntry>,
    velocity_storage: Vec<VelocityStorageEntry>,
    material_storage: Vec<MaterialStorageEntry>,
    pbr_material_storage: Vec<PBRMaterialStorageEntry>,
}

/// A call that the builder protocol does not allow in the state in which
/// it was made.
#[derive(Clone, Copy, Debug, PartialEq, Eq, Structural)]
pub enum BuilderMisuse {
    /// An entity was begun while components of another were pending.
    ComponentsPending,
    /// A component was attached, or an entity committed, while none was
    /// being assembled.
    NotAssembling,
    /// An entity without a component was to be committed.
    NothingPending,
    /// Every entity id has been given out.
    IdsExhausted,
}

impl View for World {
    type V = WorldModel;

    closed spec fn view(&self) -> WorldModel {
        WorldModel {
            pending_mask: self.pending_mask,
            pending: self.pending_components@,
            last_built: self.last_build_entity,
            transforms: self.transform_storage@,
            meshes: self.mesh_storage@,
            velocities: self.velocity_storage@,
            materials: self.material_storage@,
            pbr_materials: self.pbr_material_storage@,
        }
    }
}

impl World {
    /// A store that holds nothing.
    pub fn new() -> (world: World)
        ensures
            world@ == WorldModel::empty(),
            world@.wf(),
    {
        let world = World {
            pending_mask: None,
            pending_components: Vec::new(),
            last_build_entity: None,
            transform_storage: Vec::new(),
            mesh_storage: Vec::new(),
            velocity_storage: Vec::new(),
            material_storage: Vec::new(),
            pbr_material_storage: Vec::new(),
        };
        proof {
            assert forall|t: ComponentType| (#[trigger] world@.tags(t)).len() == 0 by {}
        }
        world
    }

    /// Begins the assembly of a new entity. Nothing may be pending from an
    /// earlier assembly.
    pub fn create_entity(&mut self) -> (world: &mut World)
        requires
            old(self)@.wf(),
            old(self)@.can_create(),
        ensures
            world@ == old(self)@.create_entity(),
            world@.wf(),
            *final(self) == *final(world),
    {
        proof {
            lemma_create_entity_wf(self@);
        }
        self.pending_mask = Some(0);
        self
    }

    /// Attaches `component` to the entity that is being assembled and adds
    /// the bit of its type to the entity's mask.
    pub fn with_component(&mut self, component: Component) -> (world: &mut World)
        requires
            old(self)@.wf(),
            old(self)@.can_attach(),
        ensures
            world@ == old(self)@.with_component(component),
            world@.wf(),
            *final(self) == *final(world),
    {
        proof {
            lemma_with_component_wf(self@, component);
        }
        let mask: u32 = match self.pending_mask {
            Some(mask) => mask,
            None => 0,
        };
        self.pending_mask = Some(mask | component.component_type().mask());
        self.pending_components.push(component);
        self
    }

    /// Commits the entity that is being assembled: gives it the next id,
    /// moves each pending component to the end of the array of its type,
    /// tagged with the id and the entity's mask, and ends the assembly. The
    /// component attached last is moved first. Returns the id.
    pub fn build(&mut self) -> (entity: Entity)
        requires
            old(self)@.wf(),
            old(self)@.can_build(),
        ensures
            entity == old(self)@.next_entity(),
            final(self)@ == old(self)@.build(),
            final(self)@.wf(),
    {
        let storage_type: u32 = match self.pending_mask {
            Some(mask) => mask,
            None => 0,
        };
        let entity: Entity = match self.last_build_entity {
            None => 0,
            Some(last) => last + 1,
        };
        while self.pending_components.len() > 0
            invariant
                self.pending_mask == old(self).pending_mask,
                self.last_build_entity == old(self).last_build_entity,
                self.transform_storage@ + drained(
                    self.pending_components@,
                    pick_transform(),
                    storage_type,
                    entity,
                ) == old(self).transform_storage@ + drained(
                    old(self).pending_components@,
                    pick_transform(),
                    storage_type,
                    entity,
                ),
                self.mesh_storage@ + drained(
                    self.pending_components@,
                    pick_mesh(),
                    storage_type,
                    entity,
                ) == old(self).mesh_storage@ + drained(
                    old(self).pending_components@,
                    pick_mesh(),
                    storage_type,
                    entity,
                ),
                self.velocity_storage@ + drained(
                    self.pending_components@,
                    pick_velocity(),
                    storage_type,
                    entity,
                ) == old(self).velocity_storage@ + drained(
                    old(self).pending_components@,
                    pick_velocity(),
                    storage_type,
                    entity,
                ),
                self.material_storage@ + drained(
                    self.pending_components@,
                    pick_material(),
                    storage_type,
                    entity,
                ) == old(self).material_storage@ + drained(
                    old(self).pending_components@,
                    pick_material(),
                    storage_type,
                    entity,
                ),
                self.pbr_material_storage@ + drained(
                    self.pending_components@,
                    pick_pbr_material(),
                    storage_type,
                    entity,
                ) == old(self).pbr_material_storage@ + drained(
                    old(self).pending_components@,
                    pick_pbr_material(),
                    storage_type,
                    entity,
                ),
            decreases self.pending_components.len(),
        {
            let ghost before = self.pending_components@;
            let ghost transforms = self.transform_storage@;
            let ghost meshes = self.mesh_storage@;
            let ghost velocities = self.velocity_storage@;
            let ghost materials = self.material_storage@;
            let ghost pbr_materials = self.pbr_material_storage@;
            match self.pending_components.pop() {
                Some(Component::TransformComponent(component)) => {
                    let entry = StorageEntry { storage_type, entity, component };
                    self.transform_storage.push(entry);
                    assert(transforms.push(entry) + drained(
                        before.drop_last(),
                        pick_transform(),
                        storage_type,
                        entity,
                    ) =~= transforms + drained(before, pick_transform(), storage_type, entity));
                },
                Some(Component::MeshComponent(component)) => {
                    let entry = StorageEntry { storage_type, entity, component };
                    self.mesh_storage.push(entry);
                    assert(meshes.push(entry) + drained(
                        before.drop_last(),
                        pick_mesh(),
                        storage_type,
                        entity,
                    ) =~= meshes + drained(before, pick_mesh(), storage_type, entity));
                },
                Some(Component::VelocityComponent(component)) => {
                    let entry = StorageEntry { storage_type, entity, component };
                    self.velocity_storage.push(entry);
                    assert(velocities.push(entry) + drained(
                        before.drop_last(),
                        pick_velocity(),
                        storage_type,
                        entity,
                    ) =~= velocities + drained(before, pick_velocity(), storage_type, entity));
                },
                Some(Component::MaterialComponent(component)) => {
                    let entry = StorageEntry { storage_type, entity, component };
                    self.material_storage.push(entry);
                    assert(materials.push(entry) + drained(
                        before.drop_last(),
                        pick_material(),
                        storage_type,
                        entity,
                    ) =~= materials + drained(before, pick_material(), storage_type, entity));
                },
                Some(Component::PBRMaterialComponent(component)) => {
                    let entry = StorageEntry { storage_type, entity, component };
                    self.pbr_material_storage.push(entry);
                    assert(pbr_materials.push(entry) + drained(
                        before.drop_last(),
                        pick_pbr_material(),
                        storage_type,
                        entity,
                    ) =~= pbr_materials + drained(
                        before,
                        pick_pbr_material(),
                        storage_type,
                        entity,
                    ));
                },
                None => {},
            }
        }
        self.pending_mask = None;
        self.pending_components.clear();
        self.last_build_entity = Some(entity);
        proof {
            let after = old(self)@.build();
            assert(self@.transforms =~= after.transforms);
            assert(self@.meshes =~= after.meshes);
            assert(self@.velocities =~= after.velocities);
            assert(self@.materials =~= after.materials);
            assert(self@.pbr_materials =~= after.pbr_materials);
            assert(self@.pending =~= after.pending);
            assert(self@ == after);
            assert forall|t: ComponentType| (#[trigger] self@.tags(t)).len() <= usize::MAX by {
                assert(self.transform_storage.len() == self@.transforms.len());
                assert(self.mesh_storage.len() == self@.meshes.len());
                assert(self.velocity_storage.len() == self@.velocities.len());
                assert(self.material_storage.len() == self@.materials.len());
                assert(self.pbr_material_storage.len() == self@.pbr_materials.len());
            }
            lemma_build_wf(old(self)@);
        }
        entity
    }
    /// Begins the assembly of a new entity, unless components of another
    /// are pending; then the store stays as it is.
    pub fn try_create_entity(&mut self) -> (outcome: Result<(), BuilderMisuse>)
        requires
            old(self)@.wf(),
        ensures
            final(self)@.wf(),
            outcome is Ok <==> old(self)@.can_create(),
            outcome is Ok ==> final(self)@ == old(self)@.create_entity(),
            outcome is Err ==> outcome == Err::<(), BuilderMisuse>(BuilderMisuse::ComponentsPending)
                && *final(self) == *old(self),
    {
        if !self.can_create() {
            return Err(BuilderMisuse::ComponentsPending);
        }
        self.create_entity();
        Ok(())
    }

    /// Attaches `component` to the entity that is being assembled, unless
    /// none is; then the store stays as it is.
    pub fn try_with_component(&mut self, component: Component) -> (outcome: Result<
        (),
        BuilderMisuse,
    >)
        requires
            old(self)@.wf(),
        ensures
            final(self)@.wf(),
            outcome is Ok <==> old(self)@.can_attach(),
            outcome is Ok ==> final(self)@ == old(self)@.with_component(component),
            outcome is Err ==> outcome == Err::<(), BuilderMisuse>(BuilderMisuse::NotAssembling)
                && *final(self) == *old(self),
    {
        if !self.can_attach() {
            return Err(BuilderMisuse::NotAssembling);
        }
        self.with_component(component);
        Ok(())
    }

    /// Commits the entity that is being assembled and returns its id, unless
    /// the protocol forbids it; then the store stays as it is. The error
    /// names the first of these that holds: no entity is being assembled;
    /// it has no component; no id is left.
    pub fn try_build(&mut self) -> (outcome: Result<Entity, BuilderMisuse>)
        requires
            old(self)@.wf(),
        ensures
            final(self)@.wf(),
            outcome is Ok <==> old(self)@.can_build(),
            outcome is Ok ==> outcome == Ok::<Entity, BuilderMisuse>(
                old(self)@.next_entity() as Entity,
            ) && final(self)@ == old(self)@.build(),
            outcome is Err ==> *final(self) == *old(self),
            outcome is Err ==> outcome == Err::<Entity, BuilderMisuse>(
                if old(self)@.pending_mask is None {
                    BuilderMisuse::NotAssembling
                } else if old(self)@.pending.len() == 0 {
                    BuilderMisuse::NothingPending
                } else {
                    BuilderMisuse::IdsExhausted
                },
            ),
    {
        if !self.can_attach() {
            return Err(BuilderMisuse::NotAssembling);
        }
        if self.can_create() {
            return Err(BuilderMisuse::NothingPending);
        }
        if !self.can_build() {
            return Err(BuilderMisuse::IdsExhausted);
        }
        Ok(self.build())
    }

    /// Whether `create_entity` may be called: nothing is pending.
    pub fn can_create(&self) -> (b: bool)
        ensures
            b == self@.can_create(),
    {
        self.pending_components.len() == 0
    }

    /// Whether `with_component` may be called: an entity is being assembled.
    pub fn can_attach(&self) -> (b: bool)
        ensures
            b == self@.can_attach(),
    {
        self.pending_mask.is_some()
    }

    /// Whether `build` may be called: an entity is being assembled, it has
    /// at least one component, and an id is left for it.
    pub fn can_build(&self) -> (b: bool)
        ensures
            b == self@.can_build(),
    {
        let id_left: bool = match self.last_build_entity {
            None => true,
            Some(last) => last < u32::MAX,
        };
        self.pending_mask.is_some() && self.pending_components.len() > 0 && id_left
    }

    /// Whether a component of kind `t` is pending.
    pub fn is_pending(&self, t: ComponentType) -> (b: bool)
        requires
            self@.wf(),
        ensures
            b == (count_kind(self@.pending, t) > 0),
    {
        proof {
            lemma_mask_of_names(self@.pending, t);
            assert(count_kind(Seq::<Component>::empty(), t) == 0);
        }
        match self.pending_mask {
            Some(mask) => mask & t.mask() == t.mask(),
            None => false,
        }
    }

    /// Whether no entity has two entries in the array of kind `t`: the
    /// condition under which a join by position pairs the entries of one
    /// entity.
    pub fn has_single_entries(&self, t: ComponentType) -> (b: bool)
        requires
            self@.wf(),
        ensures
            b == self@.distinct(t),
    {
        let b = match t {
            ComponentType::TransformComponent => ascends_strictly(&self.transform_storage),
            ComponentType::MeshComponent => ascends_strictly(&self.mesh_storage),
            ComponentType::VelocityComponent => ascends_strictly(&self.velocity_storage),
            ComponentType::MaterialComponent => ascends_strictly(&self.material_storage),
            ComponentType::PBRMaterialComponent => ascends_strictly(&self.pbr_material_storage),
        };
        proof {
            lemma_distinct_ascends(self@, t);
        }
        b
    }

    /// The mask assembled so far, while an entity is being assembled.
    pub fn pending_mask(&self) -> (mask: Option<u32>)
        ensures
            mask == self@.pending_mask,
    {
        self.pending_mask
    }

    /// The entity that was committed last.
    pub fn last_built_entity(&self) -> (entity: Option<Entity>)
        ensures
            entity == self@.last_built,
    {
        self.last_build_entity
    }

    pub fn transform_storage(&self) -> (storage: &Vec<TransformStorageEntry>)
        ensures
            storage@ == self@.transforms,
    {
        &self.transform_storage
    }

    pub fn mesh_storage(&self) -> (storage: &Vec<MeshStorageEntry>)
        ensures
            storage@ == self@.meshes,
    {
        &self.mesh_storage
    }

    pub fn velocity_storage(&self) -> (storage: &Vec<VelocityStorageEntry>)
        ensures
            storage@ == self@.velocities,
    {
        &self.velocity_storage
    }

    pub fn material_storage(&self) -> (storage: &Vec<MaterialStorageEntry>)
        ensures
            storage@ == self@.materials,
    {
        &self.material_storage
    }

    pub fn pbr_material_storage(&self) -> (storage: &Vec<PBRMaterialStorageEntry>)
        ensures
            storage@ == self@.pbr_materials,
    {
        &self.pbr_material_storage
    }

    /// The entity and mask of every entry of the array of kind `t`, in
    /// storage order.
    pub fn get_storage(&self, t: ComponentType) -> (tags: Vec<EntryTag>)
        ensures
            tags@ == self@.tags(t),
    {
        match t {
            ComponentType::TransformComponent => storage_tags(&self.transform_storage),
            ComponentType::MeshComponent => storage_tags(&self.mesh_storage),
            ComponentType::VelocityComponent => storage_tags(&self.velocity_storage),
            ComponentType::MaterialComponent => storage_tags(&self.material_storage),
            ComponentType::PBRMaterialComponent => storage_tags(&self.pbr_material_storage),
        }
    }

    /// The indices, in the array of kind `t`, of the entries whose mask
    /// contains `query`, in storage order.
    pub fn query_mask(&self, t: ComponentType, query: u32) -> (found: Vec<usize>)
        ensures
            found@ == matching(self@.tags(t), query),
            forall|k: int|
                0 <= k < found@.len() ==> (#[trigger] found@[k]) < self@.tags(t).len()
                    && self@.tags(t)[found@[k] as int].matches(query),
    {
        match t {
            ComponentType::TransformComponent => filter_storage(&self.transform_storage, query),
            ComponentType::MeshComponent => filter_storage(&self.mesh_storage, query),
            ComponentType::VelocityComponent => filter_storage(&self.velocity_storage, query),
            ComponentType::MaterialComponent => filter_storage(&self.material_storage, query),
            ComponentType::PBRMaterialComponent => filter_storage(
                &self.pbr_material_storage,
                query,
            ),
        }
    }

    /// The entries of the entities that carry a component of kind `t0`, as
    /// indices into the array of that kind: all of its entries.
    pub fn query_1(&self, t0: ComponentType) -> (found: Vec<usize>)
        requires
            self@.wf(),
        ensures
            found@ == matching(self@.tags(t0), t0.spec_mask()),
            found@ == Seq::new(self@.tags(t0).len(), |i: int| i as usize),
    {
        proof {
            assert forall|i: int| 0 <= i < self@.tags(t0).len() implies (
            #[trigger] self@.tags(t0)[i]).matches(t0.spec_mask()) by {
                assert(carries(self@.tags(t0)[i], t0));
            }
            lemma_matching_all(self@.tags(t0), t0.spec_mask());
        }
        self.query_mask(t0, t0.mask())
    }

    /// Selects, in the arrays of kinds `t0` and `t1`, the entries whose mask
    /// contains `query`, and pairs the two selections by position. Each pair
    /// holds an index into the first array and one into the second.
    pub fn join_mask(&self, t0: ComponentType, t1: ComponentType, query: u32) -> (pairs: Vec<
        (usize, usize),
    >)
        ensures
            pairs@ == zipped(matching(self@.tags(t0), query), matching(self@.tags(t1), query)),
            forall|k: int|
                0 <= k < pairs@.len() ==> (#[trigger] pairs@[k]).0 < self@.tags(t0).len()
                    && pairs@[k].1 < self@.tags(t1).len(),
    {
        let left = self.query_mask(t0, query);
        let right = self.query_mask(t1, query);
        zip_indices(&left, &right)
    }

    /// The entries of the entities that carry components of both kinds,
    /// paired by position: `join_mask` with the bits of `t0` and `t1`.
    pub fn query_2(&self, t0: ComponentType, t1: ComponentType) -> (pairs: Vec<(usize, usize)>)
        ensures
            pairs@ == zipped(
                matching(self@.tags(t0), t0.spec_mask() | t1.spec_mask()),
                matching(self@.tags(t1), t0.spec_mask() | t1.spec_mask()),
            ),
            forall|k: int|
                0 <= k < pairs@.len() ==> (#[trigger] pairs@[k]).0 < self@.tags(t0).len()
                    && pairs@[k].1 < self@.tags(t1).len(),
    {
        self.join_mask(t0, t1, t0.mask() | t1.mask())
    }

    /// Joins the arrays of kinds `t0` and `t1` by entity: pairs each entry
    /// of the first array whose mask contains `query` with the first entry
    /// of the same entity in the second array. Entries whose entity has no
    /// entry in the second array give no pair.
    pub fn join_entities(&self, t0: ComponentType, t1: ComponentType, query: u32) -> (pairs: Vec<
        (usize, usize),
    >)
        ensures
            pairs@ == joined(self@.tags(t0), self@.tags(t1), query),
            forall|k: int|
                0 <= k < pairs@.len() ==> {
                    &&& (#[trigger] pairs@[k]).0 < self@.tags(t0).len()
                    &&& pairs@[k].1 < self@.tags(t1).len()
                    &&& self@.tags(t0)[pairs@[k].0 as int].matches(query)
                    &&& self@.tags(t0)[pairs@[k].0 as int].entity
                        == self@.tags(t1)[pairs@[k].1 as int].entity
                },
    {
        let left = self.get_storage(t0);
        let right = self.get_storage(t1);
        join_tags(&left, &right, query)
    }

    /// The index of the first entry of `entity` in the array of kind `t`.
    pub fn find(&self, t: ComponentType, entity: Entity) -> (found: Option<usize>)
        ensures
            match found {
                Some(i) => {
                    &&& i < self@.tags(t).len()
                    &&& self@.tags(t)[i as int].entity == entity
                    &&& forall|j: int| 0 <= j < i ==> self@.tags(t)[j].entity != entity
                },
                None => !self@.has_entry(t, entity),
            },
    {
        match t {
            ComponentType::TransformComponent => find_entity(&self.transform_storage, entity),
            ComponentType::MeshComponent => find_entity(&self.mesh_storage, entity),
            ComponentType::VelocityComponent => find_entity(&self.velocity_storage, entity),
            ComponentType::MaterialComponent => find_entity(&self.material_storage, entity),
            ComponentType::PBRMaterialComponent => find_entity(
                &self.pbr_material_storage,
                entity,
            ),
        }
    }
    /// Puts `component` in the place of the transform at `index`. The entry
    /// keeps its entity and its mask; nothing else changes.
    pub fn set_transform(&mut self, index: usize, component: Transform)
        requires
            old(self)@.wf(),
            index < old(self)@.transforms.len(),
        ensures
            final(self)@ == (WorldModel {
                transforms: replaced(old(self)@.transforms, index as int, component),
                ..old(self)@
            }),
            final(self)@.wf(),
    {
        replace_component(&mut self.transform_storage, index, component);
        proof {
            lemma_replaced_tags(old(self)@.transforms, index as int, component);
            lemma_same_tags_wf(old(self)@, self@);
        }
    }

    /// Puts `component` in the place of the mesh at `index`. The entry
    /// keeps its entity and its mask; nothing else changes.
    pub fn set_mesh(&mut self, index: usize, component: Mesh)
        requires
            old(self)@.wf(),
            index < old(self)@.meshes.len(),
        ensures
            final(self)@ == (WorldModel {
                meshes: replaced(old(self)@.meshes, index as int, component),
                ..old(self)@
            }),
            final(self)@.wf(),
    {
        replace_component(&mut self.mesh_storage, index, component);
        proof {
            lemma_replaced_tags(old(self)@.meshes, index as int, component);
            lemma_same_tags_wf(old(self)@, self@);
        }
    }

    /// Puts `component` in the place of the velocity at `index`. The entry
    /// keeps its entity and its mask; nothing else changes.
    pub fn set_velocity(&mut self, index: usize, component: Velocity)
        requires
            old(self)@.wf(),
            index < old(self)@.velocities.len(),
        ensures
            final(self)@ == (WorldModel {
                velocities: replaced(old(self)@.velocities, index as int, component),
                ..old(self)@
            }),
            final(self)@.wf(),
    {
        replace_component(&mut self.velocity_storage, index, component);
        proof {
            lemma_replaced_tags(old(self)@.velocities, index as int, component);
            lemma_same_tags_wf(old(self)@, self@);
        }
    }

    /// Puts `component` in the place of the material at `index`. The entry
    /// keeps its entity and its mask; nothing else changes.
    pub fn set_material(&mut self, index: usize, component: Material)
        requires
            old(self)@.wf(),
            index < old(self)@.materials.len(),
        ensures
            final(self)@ == (WorldModel {
                materials: replaced(old(self)@.materials, index as int, component),
                ..old(self)@
            }),
            final(self)@.wf(),
    {
        replace_component(&mut self.material_storage, index, component);
        proof {
            lemma_replaced_tags(old(self)@.materials, index as int, component);
            lemma_same_tags_wf(old(self)@, self@);
        }
    }

    /// Puts `component` in the place of the shading parameters at `index`. The entry
    /// keeps its entity and its mask; nothing else changes.
    pub fn set_pbr_material(&mut self, index: usize, component: PBRMaterial)
        requires
            old(self)@.wf(),
            index < old(self)@.pbr_materials.len(),
        ensures
            final(self)@ == (WorldModel {
                pbr_materials: replaced(old(self)@.pbr_materials, index as int, component),
                ..old(self)@
            }),
            final(self)@.wf(),
    {
        replace_component(&mut self.pbr_material_storage, index, component);
        proof {
            lemma_replaced_tags(old(self)@.pbr_materials, index as int, component);
            lemma_same_tags_wf(old(self)@, self@);
        }
    }

    /// Puts the shader module `new_module` in the place of `old_module` in
    /// every material that refers to it, and returns the indices of those
    /// materials in the material array.
    pub fn reload_shader_module(&mut self, old_module: u64, new_module: u64) -> (changed: Vec<
        usize,
    >)
        requires
            old(self)@.wf(),
        ensures
            final(self)@ == (WorldModel {
                materials: reloaded_all(old(self)@.materials, old_module, new_module),
                ..old(self)@
            }),
            final(self)@.wf(),
            changed@ == referring(old(self)@.materials, old_module),
    {
        let changed = reload_materials(&mut self.material_storage, old_module, new_module);
        proof {
            lemma_reloaded_tags(old(self)@.materials, old_module, new_module);
            lemma_same_tags_wf(old(self)@, self@);
        }
        changed
    }
}

} // verus!
