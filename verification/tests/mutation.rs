use copper::components::{
    ColorBlendAttachmentState, Component, ComponentType, IndexBuffer, Material, Mesh,
    PBRMaterial, PBRMaterialType, StorageEntry, Transform, Vector3, Velocity, VertexBuffer,
};
use copper::reload::reload_materials;
use copper::world::World;

fn numbers(x: f32, y: f32, z: f32) -> Vector3 {
    Vector3 { x: x.to_bits(), y: y.to_bits(), z: z.to_bits() }
}

fn placed(x: f32) -> Transform {
    Transform {
        position: numbers(x, 0.0, 0.0),
        rotation: numbers(0.0, 0.0, 0.0),
        scale: numbers(1.0, 1.0, 1.0),
    }
}

fn shaded(vertex_shader: u64, fragment_shader: u64, pso: u64) -> Material {
    Material {
        vertex_shader,
        fragment_shader,
        pso,
        render_pass: 20,
        pipeline_layout: 21,
        color_blend_attachment_states: vec![ColorBlendAttachmentState {
            blend_enable: 0,
            src_color_blend_factor: 6,
            dst_color_blend_factor: 7,
            color_blend_op: 0,
            src_alpha_blend_factor: 0,
            dst_alpha_blend_factor: 0,
            alpha_blend_op: 0,
            color_write_mask: 0xf,
        }],
    }
}

fn stored(entity: u32, component: Material) -> StorageEntry<Material> {
    StorageEntry { storage_type: 0b0_1000, entity, component }
}

#[test]
fn refers_to_looks_at_both_stages() {
    let material = shaded(1, 2, 3);
    assert!(material.refers_to(1));
    assert!(material.refers_to(2));
    assert!(!material.refers_to(3));
}

#[test]
fn reload_exchanges_the_vertex_stage() {
    let mut storage = vec![stored(0, shaded(1, 2, 3))];
    let changed = reload_materials(&mut storage, 1, 9);
    assert_eq!(changed, vec![0]);
    assert_eq!(storage, vec![stored(0, shaded(9, 2, 3))]);
}

#[test]
fn reload_exchanges_the_fragment_stage() {
    let mut storage = vec![stored(0, shaded(1, 2, 3))];
    let changed = reload_materials(&mut storage, 2, 9);
    assert_eq!(changed, vec![0]);
    assert_eq!(storage, vec![stored(0, shaded(1, 9, 3))]);
}

#[test]
fn reload_exchanges_only_the_vertex_stage_when_both_refer() {
    let mut storage = vec![stored(0, shaded(5, 5, 3))];
    let changed = reload_materials(&mut storage, 5, 9);
    assert_eq!(changed, vec![0]);
    assert_eq!(storage, vec![stored(0, shaded(9, 5, 3))]);
}

#[test]
fn reload_leaves_other_materials_and_lists_the_changed() {
    let mut storage = vec![
        stored(0, shaded(1, 2, 3)),
        stored(1, shaded(4, 5, 6)),
        stored(2, shaded(7, 1, 8)),
        stored(3, shaded(2, 2, 2)),
    ];
    let changed = reload_materials(&mut storage, 1, 9);
    assert_eq!(changed, vec![0, 2]);
    assert_eq!(
        storage,
        vec![
            stored(0, shaded(9, 2, 3)),
            stored(1, shaded(4, 5, 6)),
            stored(2, shaded(7, 9, 8)),
            stored(3, shaded(2, 2, 2)),
        ]
    );
    let changed = reload_materials(&mut storage, 100, 9);
    assert_eq!(changed, Vec::<usize>::new());
}

#[test]
fn world_reload_reaches_the_material_array() {
    let mut world = World::new();
    world.create_entity().with_component(Component::MaterialComponent(shaded(1, 2, 3))).build();
    world
        .create_entity()
        .with_component(Component::TransformComponent(placed(0.0)))
        .with_component(Component::MaterialComponent(shaded(4, 1, 5)))
        .build();
    let changed = world.reload_shader_module(1, 11);
    assert_eq!(changed, vec![0, 1]);
    assert_eq!(world.material_storage()[0].component, shaded(11, 2, 3));
    assert_eq!(world.material_storage()[1].component, shaded(4, 11, 5));
    assert_eq!(world.material_storage()[1].storage_type, 0b0_1001);
    assert_eq!(world.material_storage()[1].entity, 1);
    assert_eq!(world.transform_storage()[0].component, placed(0.0));
}

#[test]
fn setters_replace_the_component_and_keep_the_tag() {
    let mut world = World::new();
    let mesh = Mesh {
        vertex_buffer: VertexBuffer { buffer: 1, memory: 2, count: 3, stride: 4 },
        index_buffer: IndexBuffer { buffer: 5, memory: 6, count: 7, stride: 8 },
    };
    let velocity = Velocity {
        translation_speed: numbers(1.0, 1.0, 1.0),
        rotation_speed: numbers(1.5, 1.5, 1.5),
    };
    let shading = PBRMaterial {
        albedo: numbers(0.0, 0.0, 0.0),
        f0_reflectance: numbers(0.77, 0.77, 0.784),
        roughness: 0.8f32.to_bits(),
        metalness: 1.0f32.to_bits(),
        material_type: PBRMaterialType::PureEmissive,
        emissive_color: numbers(1.0, 1.0, 1.0),
    };
    world.create_entity().with_component(Component::TransformComponent(placed(0.0))).build();
    let entity = world
        .create_entity()
        .with_component(Component::TransformComponent(placed(1.0)))
        .with_component(Component::MeshComponent(mesh))
        .with_component(Component::VelocityComponent(velocity))
        .with_component(Component::MaterialComponent(shaded(1, 2, 3)))
        .with_component(Component::PBRMaterialComponent(shading))
        .build();
    let mask = 0b1_1111;

    let turned = Transform { rotation: numbers(0.5, 0.25, 0.125), ..placed(1.0) };
    world.set_transform(1, turned);
    assert_eq!(
        world.transform_storage()[1],
        StorageEntry { storage_type: mask, entity, component: turned }
    );
    assert_eq!(world.transform_storage()[0].component, placed(0.0));

    let other_mesh = Mesh { vertex_buffer: VertexBuffer { buffer: 9, ..mesh.vertex_buffer }, ..mesh };
    world.set_mesh(0, other_mesh);
    assert_eq!(
        world.mesh_storage()[0],
        StorageEntry { storage_type: mask, entity, component: other_mesh }
    );

    let still = Velocity { rotation_speed: numbers(0.0, 0.0, 0.0), ..velocity };
    world.set_velocity(0, still);
    assert_eq!(
        world.velocity_storage()[0],
        StorageEntry { storage_type: mask, entity, component: still }
    );

    world.set_material(0, shaded(1, 2, 30));
    assert_eq!(
        world.material_storage()[0],
        StorageEntry { storage_type: mask, entity, component: shaded(1, 2, 30) }
    );

    let rough = PBRMaterial { roughness: 1.0f32.to_bits(), ..shading };
    world.set_pbr_material(0, rough);
    assert_eq!(
        world.pbr_material_storage()[0],
        StorageEntry { storage_type: mask, entity, component: rough }
    );

    assert_eq!(world.query_2(ComponentType::TransformComponent, ComponentType::MeshComponent), vec![(1, 0)]);
    assert_eq!(world.last_built_entity(), Some(entity));
}
