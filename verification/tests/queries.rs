use copper::components::{
    Component, ComponentType, EntryTag, IndexBuffer, Material, Mesh, PBRMaterial,
    PBRMaterialType, StorageEntry, Transform, Vector3, Velocity, VertexBuffer,
};
use copper::storage::{
    ascends_strictly, filter_storage, find_entity, find_tag, join_tags, replace_component,
    storage_tags, zip_indices,
};
use copper::world::World;

const T: ComponentType = ComponentType::TransformComponent;
const M: ComponentType = ComponentType::MeshComponent;
const V: ComponentType = ComponentType::VelocityComponent;
const A: ComponentType = ComponentType::MaterialComponent;
const P: ComponentType = ComponentType::PBRMaterialComponent;

fn bits(x: f32, y: f32, z: f32) -> Vector3 {
    Vector3 { x: x.to_bits(), y: y.to_bits(), z: z.to_bits() }
}

fn a_transform(x: f32) -> Component {
    Component::TransformComponent(Transform {
        position: bits(x, 0.0, 0.0),
        rotation: bits(0.0, 0.0, 0.0),
        scale: bits(1.0, 1.0, 1.0),
    })
}

fn a_mesh(buffer: u64) -> Component {
    Component::MeshComponent(Mesh {
        vertex_buffer: VertexBuffer { buffer, memory: 0, count: 0, stride: 0 },
        index_buffer: IndexBuffer { buffer, memory: 0, count: 0, stride: 0 },
    })
}

fn a_velocity() -> Component {
    Component::VelocityComponent(Velocity {
        translation_speed: bits(1.0, 1.0, 1.0),
        rotation_speed: bits(1.5, 1.5, 1.5),
    })
}

fn a_material(pso: u64) -> Component {
    Component::MaterialComponent(Material {
        vertex_shader: 1,
        fragment_shader: 2,
        pso,
        render_pass: 3,
        pipeline_layout: 4,
        color_blend_attachment_states: vec![],
    })
}

fn a_shading() -> Component {
    Component::PBRMaterialComponent(PBRMaterial {
        albedo: bits(1.0, 1.0, 1.0),
        f0_reflectance: bits(0.04, 0.04, 0.04),
        roughness: 0.5f32.to_bits(),
        metalness: 0.0f32.to_bits(),
        material_type: PBRMaterialType::Coated,
        emissive_color: bits(0.0, 0.0, 0.0),
    })
}

fn spawn(world: &mut World, components: Vec<Component>) -> u32 {
    world.create_entity();
    for component in components {
        world.with_component(component);
    }
    world.build()
}

fn entry(storage_type: u32, entity: u32) -> StorageEntry<u8> {
    StorageEntry { storage_type, entity, component: 0 }
}

fn entities(world: &World, t: ComponentType, indices: &[usize]) -> Vec<u32> {
    let tags = world.get_storage(t);
    indices.iter().map(|&i| tags[i].entity).collect()
}

#[test]
fn entry_matches_a_query_that_its_mask_contains() {
    let e = entry(0b0_1011, 0);
    assert!(e.matches(0b0_0001));
    assert!(e.matches(0b0_1010));
    assert!(e.matches(0b0_1011));
    assert!(e.matches(0));
    assert!(!e.matches(0b0_0100));
    assert!(!e.matches(0b0_1111));
    assert_eq!(e.tag(), EntryTag { storage_type: 0b0_1011, entity: 0 });
}

#[test]
fn filter_storage_keeps_supersets_in_order() {
    let storage = vec![entry(1, 0), entry(3, 1), entry(7, 2), entry(2, 3), entry(3, 4)];
    assert_eq!(filter_storage(&storage, 3), vec![1, 2, 4]);
    assert_eq!(filter_storage(&storage, 1), vec![0, 1, 2, 4]);
    assert_eq!(filter_storage(&storage, 0), vec![0, 1, 2, 3, 4]);
    assert_eq!(filter_storage(&storage, 8), Vec::<usize>::new());
    assert_eq!(filter_storage(&Vec::<StorageEntry<u8>>::new(), 1), Vec::<usize>::new());
}

#[test]
fn zip_indices_stops_with_the_shorter_list() {
    assert_eq!(zip_indices(&vec![4, 5, 6], &vec![1, 2]), vec![(4, 1), (5, 2)]);
    assert_eq!(zip_indices(&vec![4], &vec![1, 2]), vec![(4, 1)]);
    assert_eq!(zip_indices(&vec![], &vec![1, 2]), vec![]);
    assert_eq!(zip_indices(&vec![7, 8], &vec![9, 3]), vec![(7, 9), (8, 3)]);
}

#[test]
fn find_entity_returns_the_first_entry() {
    let storage = vec![entry(1, 0), entry(1, 2), entry(1, 2), entry(1, 5)];
    assert_eq!(find_entity(&storage, 0), Some(0));
    assert_eq!(find_entity(&storage, 2), Some(1));
    assert_eq!(find_entity(&storage, 5), Some(3));
    assert_eq!(find_entity(&storage, 1), None);
    assert_eq!(find_entity(&Vec::<StorageEntry<u8>>::new(), 0), None);
}

#[test]
fn storage_tags_copies_entity_and_mask() {
    let storage = vec![entry(1, 0), entry(3, 1)];
    assert_eq!(
        storage_tags(&storage),
        vec![
            EntryTag { storage_type: 1, entity: 0 },
            EntryTag { storage_type: 3, entity: 1 }
        ]
    );
}

#[test]
fn replace_component_keeps_the_tag() {
    let mut storage = vec![entry(1, 0), entry(3, 1)];
    replace_component(&mut storage, 1, 9);
    assert_eq!(storage[1], StorageEntry { storage_type: 3, entity: 1, component: 9 });
    assert_eq!(storage[0], entry(1, 0));
}

#[test]
fn query_for_one_type_finds_the_entry() {
    let mut world = World::new();
    let plain = spawn(&mut world, vec![a_transform(0.0)]);
    let both = spawn(&mut world, vec![a_transform(1.0), a_mesh(1)]);
    let found = world.query_mask(T, T.mask());
    assert_eq!(entities(&world, T, &found), vec![plain, both]);
    assert_eq!(world.query_1(T), found);
    assert_eq!(entities(&world, M, &world.query_1(M)), vec![both]);
}

#[test]
fn query_for_a_missing_type_skips_the_entity() {
    let mut world = World::new();
    let without = spawn(&mut world, vec![a_transform(0.0), a_mesh(1)]);
    let with = spawn(&mut world, vec![a_transform(1.0), a_mesh(2), a_velocity()]);
    let query = T.mask() | V.mask();
    let found = world.query_mask(T, query);
    assert_eq!(entities(&world, T, &found), vec![with]);
    assert!(!entities(&world, T, &found).contains(&without));
    let found = world.query_mask(M, query);
    assert_eq!(entities(&world, M, &found), vec![with]);
    assert_eq!(world.query_mask(T, T.mask() | A.mask()), Vec::<usize>::new());
}

#[test]
fn every_entry_carries_the_bit_of_its_array() {
    let mut world = World::new();
    spawn(&mut world, vec![a_transform(0.0)]);
    spawn(&mut world, vec![a_mesh(1), a_material(1)]);
    spawn(&mut world, vec![a_shading(), a_velocity(), a_transform(1.0)]);
    spawn(&mut world, vec![a_material(2), a_material(3), a_shading()]);
    spawn(&mut world, vec![a_velocity(), a_mesh(2), a_transform(2.0), a_material(4), a_shading()]);
    for t in [T, M, V, A, P] {
        let tags = world.get_storage(t);
        assert!(!tags.is_empty());
        for tag in tags {
            assert_eq!(tag.storage_type & t.mask(), t.mask());
        }
    }
    assert_eq!(world.transform_storage().len(), 3);
    assert_eq!(world.mesh_storage().len(), 2);
    assert_eq!(world.velocity_storage().len(), 2);
    assert_eq!(world.material_storage().len(), 4);
    assert_eq!(world.pbr_material_storage().len(), 3);
}

#[test]
fn entries_of_one_entity_share_one_mask() {
    let mut world = World::new();
    spawn(&mut world, vec![a_transform(0.0), a_velocity()]);
    let entity = spawn(&mut world, vec![a_mesh(1), a_transform(1.0), a_shading()]);
    let expected = T.mask() | M.mask() | P.mask();
    assert_eq!(expected, 0b1_0011);
    for t in [T, M, P] {
        let index = world.find(t, entity).unwrap();
        assert_eq!(world.get_storage(t)[index], EntryTag { storage_type: expected, entity });
    }
    assert_eq!(world.find(V, entity), None);
    assert_eq!(world.find(A, entity), None);
}

#[test]
fn join_pairs_share_the_entity_with_a_fixed_component_set() {
    let mut world = World::new();
    for i in 0..6 {
        spawn(&mut world, vec![a_transform(i as f32), a_mesh(i), a_velocity(), a_material(i)]);
    }
    for (t0, t1) in [(T, M), (M, A), (V, T), (A, V), (T, A)] {
        let pairs = world.query_2(t0, t1);
        assert_eq!(pairs.len(), 6);
        let left = world.get_storage(t0);
        let right = world.get_storage(t1);
        for (k, (i, j)) in pairs.iter().enumerate() {
            assert_eq!(left[*i].entity, right[*j].entity);
            assert_eq!(left[*i].entity, k as u32);
        }
    }
    assert_eq!(world.query_2(T, P), vec![]);
}

#[test]
fn join_pairs_share_the_entity_with_mixed_component_sets() {
    let mut world = World::new();
    spawn(&mut world, vec![a_transform(0.0)]);
    let first = spawn(&mut world, vec![a_velocity(), a_transform(1.0)]);
    spawn(&mut world, vec![a_velocity()]);
    spawn(&mut world, vec![a_mesh(1), a_transform(2.0)]);
    let second = spawn(&mut world, vec![a_transform(3.0), a_mesh(2), a_velocity()]);
    let pairs = world.query_2(V, T);
    assert_eq!(pairs, vec![(0, 1), (2, 3)]);
    let velocities = world.get_storage(V);
    let transforms = world.get_storage(T);
    let joined: Vec<(u32, u32)> =
        pairs.iter().map(|&(i, j)| (velocities[i].entity, transforms[j].entity)).collect();
    assert_eq!(joined, vec![(first, first), (second, second)]);
}

#[test]
fn join_by_position_goes_wrong_with_two_components_of_one_type() {
    let mut world = World::new();
    let doubled = spawn(&mut world, vec![a_transform(0.0), a_transform(1.0), a_mesh(1)]);
    let single = spawn(&mut world, vec![a_transform(2.0), a_mesh(2)]);
    let pairs = world.query_2(T, M);
    assert_eq!(pairs, vec![(0, 0), (1, 1)]);
    let transforms = world.get_storage(T);
    let meshes = world.get_storage(M);
    assert_eq!((transforms[0].entity, meshes[0].entity), (doubled, doubled));
    assert_eq!((transforms[1].entity, meshes[1].entity), (doubled, single));
}

#[test]
fn join_mask_filters_both_arrays_by_the_whole_query() {
    let mut world = World::new();
    spawn(&mut world, vec![a_transform(0.0), a_mesh(1)]);
    let full = spawn(&mut world, vec![a_transform(1.0), a_mesh(2), a_shading()]);
    let query = T.mask() | M.mask() | P.mask();
    let pairs = world.join_mask(T, M, query);
    assert_eq!(pairs, vec![(1, 1)]);
    assert_eq!(world.get_storage(T)[1].entity, full);
    assert_eq!(world.join_mask(T, M, T.mask() | M.mask()), vec![(0, 0), (1, 1)]);
}

#[test]
fn find_locates_an_entity_in_an_array() {
    let mut world = World::new();
    spawn(&mut world, vec![a_mesh(1)]);
    let ground = spawn(&mut world, vec![a_transform(0.0), a_mesh(2)]);
    let light = spawn(&mut world, vec![a_transform(1.0)]);
    assert_eq!(world.find(T, ground), Some(0));
    assert_eq!(world.find(T, light), Some(1));
    assert_eq!(world.find(M, ground), Some(1));
    assert_eq!(world.find(M, light), None);
    assert_eq!(world.find(T, 0), None);
    assert_eq!(world.find(T, 99), None);
}

#[test]
fn ascends_strictly_looks_at_neighbours() {
    assert!(ascends_strictly(&Vec::<StorageEntry<u8>>::new()));
    assert!(ascends_strictly(&vec![entry(1, 4)]));
    assert!(ascends_strictly(&vec![entry(1, 0), entry(1, 2), entry(1, 3)]));
    assert!(!ascends_strictly(&vec![entry(1, 0), entry(1, 2), entry(1, 2)]));
    assert!(!ascends_strictly(&vec![entry(1, 1), entry(1, 0)]));
}

#[test]
fn single_entries_are_told_from_double_ones() {
    let mut world = World::new();
    assert!(world.has_single_entries(T));
    spawn(&mut world, vec![a_transform(0.0), a_mesh(1)]);
    spawn(&mut world, vec![a_transform(1.0), a_mesh(2), a_mesh(3)]);
    spawn(&mut world, vec![a_transform(2.0)]);
    assert!(world.has_single_entries(T));
    assert!(!world.has_single_entries(M));
    assert!(world.has_single_entries(V));
}

#[test]
fn pending_kinds_are_reported() {
    let mut world = World::new();
    assert!(!world.is_pending(T));
    world.create_entity();
    assert!(!world.is_pending(T));
    world.with_component(a_velocity());
    world.with_component(a_shading());
    assert!(world.is_pending(V));
    assert!(world.is_pending(P));
    assert!(!world.is_pending(T));
    assert!(!world.is_pending(M));
    assert!(!world.is_pending(A));
    world.build();
    assert!(!world.is_pending(V));
}

fn tag(storage_type: u32, entity: u32) -> EntryTag {
    EntryTag { storage_type, entity }
}

#[test]
fn find_tag_returns_the_first_tag_of_the_entity() {
    let tags = vec![tag(1, 0), tag(1, 3), tag(1, 3), tag(1, 7)];
    assert_eq!(find_tag(&tags, 0), Some(0));
    assert_eq!(find_tag(&tags, 3), Some(1));
    assert_eq!(find_tag(&tags, 7), Some(3));
    assert_eq!(find_tag(&tags, 5), None);
    assert_eq!(find_tag(&vec![], 0), None);
}

#[test]
fn join_tags_pairs_by_entity() {
    let left = vec![tag(3, 0), tag(1, 1), tag(3, 2), tag(3, 2), tag(3, 5)];
    let right = vec![tag(3, 0), tag(3, 2), tag(3, 4)];
    // Entity 1 does not match, entity 5 has no partner.
    assert_eq!(join_tags(&left, &right, 3), vec![(0, 0), (2, 1), (3, 1)]);
    assert_eq!(join_tags(&left, &right, 1), vec![(0, 0), (2, 1), (3, 1)]);
    assert_eq!(join_tags(&right, &left, 3), vec![(0, 0), (1, 2)]);
    assert_eq!(join_tags(&left, &right, 4), vec![]);
    assert_eq!(join_tags(&vec![], &right, 0), vec![]);
    assert_eq!(join_tags(&left, &vec![], 0), vec![]);
}

#[test]
fn join_by_entity_agrees_with_join_by_position_on_single_entries() {
    let mut world = World::new();
    spawn(&mut world, vec![a_transform(0.0)]);
    spawn(&mut world, vec![a_velocity(), a_transform(1.0)]);
    spawn(&mut world, vec![a_velocity()]);
    spawn(&mut world, vec![a_mesh(1), a_transform(2.0)]);
    spawn(&mut world, vec![a_transform(3.0), a_mesh(2), a_velocity()]);
    for (t0, t1) in [(V, T), (T, V), (T, M), (M, T), (M, V), (T, T), (A, T)] {
        assert!(world.has_single_entries(t0) && world.has_single_entries(t1));
        let query = t0.mask() | t1.mask();
        assert_eq!(world.join_entities(t0, t1, query), world.join_mask(t0, t1, query));
        assert_eq!(world.join_entities(t0, t1, query), world.query_2(t0, t1));
    }
    assert_eq!(world.join_entities(V, T, V.mask() | T.mask()), vec![(0, 1), (2, 3)]);
}

#[test]
fn join_by_entity_keeps_entities_together_with_two_components_of_one_type() {
    let mut world = World::new();
    let doubled = spawn(&mut world, vec![a_transform(0.0), a_transform(1.0), a_mesh(1)]);
    let single = spawn(&mut world, vec![a_transform(2.0), a_mesh(2)]);
    let pairs = world.join_entities(T, M, T.mask() | M.mask());
    assert_eq!(pairs, vec![(0, 0), (1, 0), (2, 1)]);
    let transforms = world.get_storage(T);
    let meshes = world.get_storage(M);
    let joined: Vec<(u32, u32)> =
        pairs.iter().map(|&(i, j)| (transforms[i].entity, meshes[j].entity)).collect();
    assert_eq!(joined, vec![(doubled, doubled), (doubled, doubled), (single, single)]);
}

#[test]
fn join_by_entity_with_a_query_that_names_only_the_first_type() {
    let mut world = World::new();
    spawn(&mut world, vec![a_transform(0.0)]);
    let both = spawn(&mut world, vec![a_transform(1.0), a_mesh(1)]);
    // Every transform is selected; only the second entity has a mesh.
    let pairs = world.join_entities(T, M, T.mask());
    assert_eq!(pairs, vec![(1, 0)]);
    assert_eq!(world.get_storage(M)[0].entity, both);
}
