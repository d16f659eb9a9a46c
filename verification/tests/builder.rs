use copper::components::{
    Component, ComponentType, IndexBuffer, Material, Mesh, PBRMaterial, PBRMaterialType,
    Transform, Vector3, Velocity, VertexBuffer,
};
use copper::world::{BuilderMisuse, World};

fn vector(x: f32, y: f32, z: f32) -> Vector3 {
    Vector3 { x: x.to_bits(), y: y.to_bits(), z: z.to_bits() }
}

fn transform_at(x: f32) -> Transform {
    Transform {
        position: vector(x, 0.0, 0.0),
        rotation: vector(0.0, 0.0, 0.0),
        scale: vector(1.0, 1.0, 1.0),
    }
}

fn mesh(buffer: u64) -> Mesh {
    Mesh {
        vertex_buffer: VertexBuffer { buffer, memory: buffer + 1, count: 3, stride: 32 },
        index_buffer: IndexBuffer { buffer: buffer + 2, memory: buffer + 3, count: 3, stride: 4 },
    }
}

fn velocity(speed: f32) -> Velocity {
    Velocity {
        translation_speed: vector(speed, speed, speed),
        rotation_speed: vector(1.5, 1.5, 1.5),
    }
}

fn material(vertex_shader: u64, fragment_shader: u64) -> Material {
    Material {
        vertex_shader,
        fragment_shader,
        pso: 7,
        render_pass: 8,
        pipeline_layout: 9,
        color_blend_attachment_states: vec![],
    }
}

fn gold() -> PBRMaterial {
    PBRMaterial {
        albedo: vector(0.0, 0.0, 0.0),
        f0_reflectance: vector(1.0, 0.898, 0.619),
        roughness: 0.1f32.to_bits(),
        metalness: 1.0f32.to_bits(),
        material_type: PBRMaterialType::Pure,
        emissive_color: vector(0.0, 0.0, 0.0),
    }
}

#[test]
fn type_bits_are_the_first_five_bits() {
    assert_eq!(ComponentType::TransformComponent.mask(), 0b0_0001);
    assert_eq!(ComponentType::MeshComponent.mask(), 0b0_0010);
    assert_eq!(ComponentType::VelocityComponent.mask(), 0b0_0100);
    assert_eq!(ComponentType::MaterialComponent.mask(), 0b0_1000);
    assert_eq!(ComponentType::PBRMaterialComponent.mask(), 0b1_0000);
}

#[test]
fn component_type_follows_the_variant() {
    assert_eq!(
        Component::TransformComponent(transform_at(0.0)).component_type(),
        ComponentType::TransformComponent
    );
    assert_eq!(Component::MeshComponent(mesh(1)).component_type(), ComponentType::MeshComponent);
    assert_eq!(
        Component::VelocityComponent(velocity(1.0)).component_type(),
        ComponentType::VelocityComponent
    );
    assert_eq!(
        Component::MaterialComponent(material(1, 2)).component_type(),
        ComponentType::MaterialComponent
    );
    assert_eq!(
        Component::PBRMaterialComponent(gold()).component_type(),
        ComponentType::PBRMaterialComponent
    );
}

#[test]
fn new_world_is_empty() {
    let world = World::new();
    assert_eq!(world.pending_mask(), None);
    assert_eq!(world.last_built_entity(), None);
    assert!(world.transform_storage().is_empty());
    assert!(world.mesh_storage().is_empty());
    assert!(world.velocity_storage().is_empty());
    assert!(world.material_storage().is_empty());
    assert!(world.pbr_material_storage().is_empty());
    assert!(world.can_create());
    assert!(!world.can_attach());
    assert!(!world.can_build());
}

#[test]
fn two_entities_with_transform_and_mesh() {
    let mut world = World::new();
    let first = world
        .create_entity()
        .with_component(Component::TransformComponent(transform_at(0.0)))
        .with_component(Component::MeshComponent(mesh(10)))
        .build();
    assert_eq!(first, 0);
    let second = world
        .create_entity()
        .with_component(Component::TransformComponent(transform_at(0.0)))
        .with_component(Component::MeshComponent(mesh(10)))
        .build();
    assert_eq!(second, 1);

    let found = world.query_1(ComponentType::MeshComponent);
    assert_eq!(found, vec![0, 1]);
    let entities: Vec<u32> = found.iter().map(|&i| world.mesh_storage()[i].entity).collect();
    assert_eq!(entities, vec![0, 1]);
    assert_eq!(world.mesh_storage()[0].component, mesh(10));
}

#[test]
fn ids_count_up_from_zero() {
    let mut world = World::new();
    for expected in 0..25u32 {
        let entity = world
            .create_entity()
            .with_component(Component::TransformComponent(transform_at(expected as f32)))
            .build();
        assert_eq!(entity, expected);
        assert_eq!(world.last_built_entity(), Some(expected));
    }
    assert_eq!(world.transform_storage().len(), 25);
}

#[test]
fn pending_mask_collects_the_bits() {
    let mut world = World::new();
    world.create_entity();
    assert_eq!(world.pending_mask(), Some(0));
    world.with_component(Component::VelocityComponent(velocity(1.0)));
    assert_eq!(world.pending_mask(), Some(0b0_0100));
    world.with_component(Component::PBRMaterialComponent(gold()));
    assert_eq!(world.pending_mask(), Some(0b1_0100));
    world.with_component(Component::VelocityComponent(velocity(2.0)));
    assert_eq!(world.pending_mask(), Some(0b1_0100));
    world.build();
    assert_eq!(world.pending_mask(), None);
}

#[test]
fn stored_mask_is_the_or_of_the_attached_types() {
    let mut world = World::new();
    let entity = world
        .create_entity()
        .with_component(Component::TransformComponent(transform_at(1.0)))
        .with_component(Component::MaterialComponent(material(3, 4)))
        .build();
    let expected =
        ComponentType::TransformComponent.mask() | ComponentType::MaterialComponent.mask();
    assert_eq!(expected, 0b0_1001);
    assert_eq!(world.transform_storage().len(), 1);
    assert_eq!(world.transform_storage()[0].storage_type, expected);
    assert_eq!(world.transform_storage()[0].entity, entity);
    assert_eq!(world.material_storage().len(), 1);
    assert_eq!(world.material_storage()[0].storage_type, expected);
    assert_eq!(world.material_storage()[0].entity, entity);
}

#[test]
fn build_with_only_a_transform_leaves_the_other_arrays() {
    let mut world = World::new();
    world
        .create_entity()
        .with_component(Component::MeshComponent(mesh(1)))
        .with_component(Component::VelocityComponent(velocity(1.0)))
        .with_component(Component::MaterialComponent(material(1, 2)))
        .with_component(Component::PBRMaterialComponent(gold()))
        .build();
    let meshes = world.mesh_storage().clone();
    let velocities = world.velocity_storage().clone();
    let materials = world.material_storage().clone();
    let shading = world.pbr_material_storage().clone();
    assert!(world.transform_storage().is_empty());

    world.create_entity().with_component(Component::TransformComponent(transform_at(2.0))).build();

    assert_eq!(world.transform_storage().len(), 1);
    assert_eq!(world.mesh_storage(), &meshes);
    assert_eq!(world.velocity_storage(), &velocities);
    assert_eq!(world.material_storage(), &materials);
    assert_eq!(world.pbr_material_storage(), &shading);
}

#[test]
fn first_build_with_only_a_transform_fills_one_array() {
    let mut world = World::new();
    world.create_entity().with_component(Component::TransformComponent(transform_at(2.0))).build();
    assert_eq!(world.transform_storage().len(), 1);
    assert_eq!(world.mesh_storage().len(), 0);
    assert_eq!(world.velocity_storage().len(), 0);
    assert_eq!(world.material_storage().len(), 0);
    assert_eq!(world.pbr_material_storage().len(), 0);
}

#[test]
fn component_attached_last_is_stored_first() {
    let mut world = World::new();
    let entity = world
        .create_entity()
        .with_component(Component::TransformComponent(transform_at(1.0)))
        .with_component(Component::TransformComponent(transform_at(2.0)))
        .with_component(Component::TransformComponent(transform_at(3.0)))
        .build();
    let stored: Vec<Transform> =
        world.transform_storage().iter().map(|entry| entry.component).collect();
    assert_eq!(stored, vec![transform_at(3.0), transform_at(2.0), transform_at(1.0)]);
    for entry in world.transform_storage() {
        assert_eq!(entry.entity, entity);
        assert_eq!(entry.storage_type, 0b0_0001);
    }
}

#[test]
fn protocol_conditions_are_reported() {
    let mut world = World::new();
    // Nothing has been begun: no component may be attached, nothing built.
    assert!(!world.can_attach());
    assert!(!world.can_build());

    world.create_entity();
    // Begun, but no component yet: attaching is in order, building is not.
    assert!(world.can_create());
    assert!(world.can_attach());
    assert!(!world.can_build());

    world.with_component(Component::TransformComponent(transform_at(0.0)));
    // A component is pending: no other entity may be begun.
    assert!(!world.can_create());
    assert!(world.can_attach());
    assert!(world.can_build());

    world.build();
    assert!(world.can_create());
    assert!(!world.can_attach());
    assert!(!world.can_build());
}

#[test]
fn create_entity_twice_keeps_an_empty_assembly() {
    let mut world = World::new();
    world.create_entity();
    world.create_entity();
    assert_eq!(world.pending_mask(), Some(0));
    let entity = world.with_component(Component::MeshComponent(mesh(5))).build();
    assert_eq!(entity, 0);
    assert_eq!(world.mesh_storage()[0].storage_type, 0b0_0010);
}

#[test]
fn attaching_without_a_begun_entity_is_refused() {
    let mut world = World::new();
    let outcome = world.try_with_component(Component::TransformComponent(transform_at(0.0)));
    assert_eq!(outcome, Err(BuilderMisuse::NotAssembling));
    // Nothing was taken in.
    assert_eq!(world.pending_mask(), None);
    assert!(world.can_create());
    assert!(!world.can_build());
    assert!(world.transform_storage().is_empty());
}

#[test]
fn building_without_a_component_is_refused() {
    let mut world = World::new();
    assert_eq!(world.try_build(), Err(BuilderMisuse::NotAssembling));
    assert_eq!(world.try_create_entity(), Ok(()));
    assert_eq!(world.try_build(), Err(BuilderMisuse::NothingPending));
    assert_eq!(world.pending_mask(), Some(0));
    assert_eq!(world.last_built_entity(), None);
    // The assembly can still be completed.
    assert_eq!(world.try_with_component(Component::MeshComponent(mesh(1))), Ok(()));
    assert_eq!(world.try_build(), Ok(0));
    assert_eq!(world.mesh_storage().len(), 1);
    assert_eq!(world.try_build(), Err(BuilderMisuse::NotAssembling));
}

#[test]
fn beginning_an_entity_over_pending_components_is_refused() {
    let mut world = World::new();
    world.create_entity().with_component(Component::VelocityComponent(velocity(1.0)));
    assert_eq!(world.try_create_entity(), Err(BuilderMisuse::ComponentsPending));
    assert_eq!(world.pending_mask(), Some(0b0_0100));
    assert_eq!(world.try_build(), Ok(0));
    assert_eq!(world.velocity_storage()[0].storage_type, 0b0_0100);
    assert_eq!(world.try_create_entity(), Ok(()));
}

#[test]
fn checked_calls_do_what_the_plain_ones_do() {
    let mut checked = World::new();
    let mut plain = World::new();
    for i in 0..3u64 {
        assert_eq!(checked.try_create_entity(), Ok(()));
        assert_eq!(checked.try_with_component(Component::MeshComponent(mesh(i))), Ok(()));
        assert_eq!(
            checked.try_with_component(Component::MaterialComponent(material(i, i + 1))),
            Ok(())
        );
        let entity = plain
            .create_entity()
            .with_component(Component::MeshComponent(mesh(i)))
            .with_component(Component::MaterialComponent(material(i, i + 1)))
            .build();
        assert_eq!(checked.try_build(), Ok(entity));
    }
    assert_eq!(checked.mesh_storage(), plain.mesh_storage());
    assert_eq!(checked.material_storage(), plain.material_storage());
    assert_eq!(checked.last_built_entity(), Some(2));
}
