//! What holds of every store that meets the invariant: the laws of masks,
//! of the partition into arrays, and of queries and joins.

use vstd::prelude::*;
use crate::components::{Component, ComponentType, Entity, EntryTag, mask_contains};
use crate::model::{
    WorldModel, carries, count_kind, drained, mask_of, pick_material, pick_mesh,
    pick_pbr_material, pick_transform, pick_velocity, plans_valid,
};
use crate::steps::{
    lemma_assembled, lemma_build_distinct, lemma_build_grows, lemma_build_tags,
    lemma_drained_tags, lemma_replay,
};
use crate::storage::{
    entities_at, first_index_of, joined, lemma_first_index_of, lemma_joined,
    lemma_joined_follows_matching, lemma_matching, matching, tags_of, zipped,
};

verus! {

/// A mask that contains a query contains each part of the query.
pub proof fn lemma_contains_part(storage_type: u32, query: u32, part: u32)
    requires
        mask_contains(storage_type, query),
        mask_contains(query, part),
    ensures
        mask_contains(storage_type, part),
{
    assert(storage_type & part == part) by (bit_vector)
        requires
            storage_type & query == query,
            query & part == part,
    ;
}

/// The combined mask of two component types contains the bit of each.
pub proof fn lemma_pair_mask(t0: ComponentType, t1: ComponentType)
    ensures
        mask_contains(t0.spec_mask() | t1.spec_mask(), t0.spec_mask()),
        mask_contains(t0.spec_mask() | t1.spec_mask(), t1.spec_mask()),
{
    let a = t0.spec_mask();
    let b = t1.spec_mask();
    assert((a | b) & a == a && (a | b) & b == b) by (bit_vector);
}

/// Two strictly ascending sequences that hold the same elements are equal.
pub proof fn lemma_ascending_same_elements(a: Seq<Entity>, b: Seq<Entity>)
    requires
        forall|i: int, j: int| 0 <= i < j < a.len() ==> a[i] < a[j],
        forall|i: int, j: int| 0 <= i < j < b.len() ==> b[i] < b[j],
        forall|x: Entity| a.contains(x) <==> b.contains(x),
    ensures
        a == b,
    decreases a.len(),
{
    if a.len() == 0 {
        if b.len() > 0 {
            assert(b.contains(b[0]));
        }
        assert(a =~= b);
    } else {
        assert(a.contains(a.last()));
        if b.len() == 0 {
            assert(b.contains(a.last()));
        }
        assert(b.contains(b.last()));
        assert(a.contains(b.last()));
        assert(a.last() == b.last());
        let shorter_a = a.drop_last();
        let shorter_b = b.drop_last();
        assert forall|x: Entity| shorter_a.contains(x) <==> shorter_b.contains(x) by {
            if shorter_a.contains(x) {
                let i = choose|i: int| 0 <= i < shorter_a.len() && shorter_a[i] == x;
                assert(a[i] == x);
                assert(a.contains(x));
                let p = choose|p: int| 0 <= p < b.len() && b[p] == x;
                assert(shorter_b[p] == x);
            }
            if shorter_b.contains(x) {
                let i = choose|i: int| 0 <= i < shorter_b.len() && shorter_b[i] == x;
                assert(b[i] == x);
                assert(b.contains(x));
                let p = choose|p: int| 0 <= p < a.len() && a[p] == x;
                assert(shorter_a[p] == x);
            }
        }
        lemma_ascending_same_elements(shorter_a, shorter_b);
        assert(a =~= shorter_a.push(a.last()));
        assert(b =~= shorter_b.push(b.last()));
    }
}

/// In an array that holds no entity twice, the entries that a query selects
/// belong to strictly ascending entities.
pub proof fn lemma_selected_ascend(world: WorldModel, t: ComponentType, query: u32)
    requires
        world.wf(),
        world.distinct(t),
    ensures
        forall|i: int, j: int|
            0 <= i < j < matching(world.tags(t), query).len() ==> entities_at(
                world.tags(t),
                matching(world.tags(t), query),
            )[i] < entities_at(world.tags(t), matching(world.tags(t), query))[j],
{
    let tags = world.tags(t);
    let found = matching(tags, query);
    lemma_matching(tags, query);
    assert forall|i: int, j: int| 0 <= i < j < found.len() implies entities_at(tags, found)[i]
        < entities_at(tags, found)[j] by {
        assert(found[i] < found[j]);
        assert(tags[found[i] as int].entity <= tags[found[j] as int].entity);
        assert(tags[found[i] as int].entity != tags[found[j] as int].entity);
    }
}

/// An entity that a query selects in one array is selected in every array
/// whose type the query names.
pub proof fn lemma_selected_elsewhere(
    world: WorldModel,
    t: ComponentType,
    u: ComponentType,
    query: u32,
    entity: Entity,
)
    requires
        world.wf(),
        mask_contains(query, u.spec_mask()),
        entities_at(world.tags(t), matching(world.tags(t), query)).contains(entity),
    ensures
        entities_at(world.tags(u), matching(world.tags(u), query)).contains(entity),
{
    let here = world.tags(t);
    let there = world.tags(u);
    lemma_matching(here, query);
    lemma_matching(there, query);
    let k = choose|k: int|
        0 <= k < matching(here, query).len() && entities_at(here, matching(here, query))[k]
            == entity;
    let i = matching(here, query)[k] as int;
    assert(here[i].matches(query));
    lemma_contains_part(here[i].storage_type, query, u.spec_mask());
    assert(carries(here[i], u));
    assert(world.has_entry(u, entity));
    let j = choose|j: int| 0 <= j < there.len() && (#[trigger] there[j]).entity == entity;
    assert(there[j].storage_type == here[i].storage_type);
    assert(there[j].matches(query));
    assert(matching(there, query).contains(j as usize));
    let m = choose|m: int|
        0 <= m < matching(there, query).len() && matching(there, query)[m] == j as usize;
    assert(entities_at(there, matching(there, query))[m] == entity);
}

/// Where no entity has two components of one type, a query that names two
/// component types selects the same entities, in the same order, in the
/// arrays of both.
pub proof fn law_selections_agree(
    world: WorldModel,
    t0: ComponentType,
    t1: ComponentType,
    query: u32,
)
    requires
        world.wf(),
        world.distinct(t0),
        world.distinct(t1),
        mask_contains(query, t0.spec_mask()),
        mask_contains(query, t1.spec_mask()),
    ensures
        entities_at(world.tags(t0), matching(world.tags(t0), query)) == entities_at(
            world.tags(t1),
            matching(world.tags(t1), query),
        ),
{
    let left = entities_at(world.tags(t0), matching(world.tags(t0), query));
    let right = entities_at(world.tags(t1), matching(world.tags(t1), query));
    lemma_selected_ascend(world, t0, query);
    lemma_selected_ascend(world, t1, query);
    assert forall|x: Entity| left.contains(x) <==> right.contains(x) by {
        if left.contains(x) {
            lemma_selected_elsewhere(world, t0, t1, query, x);
        }
        if right.contains(x) {
            lemma_selected_elsewhere(world, t1, t0, query, x);
        }
    }
    lemma_ascending_same_elements(left, right);
}

/// Where no entity has two components of one type, every pair of a join
/// holds two entries of one entity, and the join leaves out no entry that
/// either selection holds.
pub proof fn law_join_pairs_share_entity(
    world: WorldModel,
    t0: ComponentType,
    t1: ComponentType,
    query: u32,
)
    requires
        world.wf(),
        world.distinct(t0),
        world.distinct(t1),
        mask_contains(query, t0.spec_mask()),
        mask_contains(query, t1.spec_mask()),
    ensures
        matching(world.tags(t0), query).len() == matching(world.tags(t1), query).len(),
        zipped(matching(world.tags(t0), query), matching(world.tags(t1), query)).len()
            == matching(world.tags(t0), query).len(),
        forall|k: int|
            0 <= k < zipped(
                matching(world.tags(t0), query),
                matching(world.tags(t1), query),
            ).len() ==> world.tags(t0)[(#[trigger] zipped(
                matching(world.tags(t0), query),
                matching(world.tags(t1), query),
            )[k]).0 as int].entity == world.tags(t1)[zipped(
                matching(world.tags(t0), query),
                matching(world.tags(t1), query),
            )[k].1 as int].entity,
{
    let left = matching(world.tags(t0), query);
    let right = matching(world.tags(t1), query);
    law_selections_agree(world, t0, t1, query);
    assert(entities_at(world.tags(t0), left).len() == left.len());
    assert(entities_at(world.tags(t1), right).len() == right.len());
    assert forall|k: int| 0 <= k < zipped(left, right).len() implies world.tags(t0)[(
    #[trigger] zipped(left, right)[k]).0 as int].entity == world.tags(t1)[zipped(
        left,
        right,
    )[k].1 as int].entity by {
        assert(entities_at(world.tags(t0), left)[k] == entities_at(world.tags(t1), right)[k]);
    }
}

/// The pairs that `query_2` returns for two component types hold two
/// entries of one entity each, where no entity has two components of one
/// of the two types.
pub proof fn law_query_2_pairs_share_entity(world: WorldModel, t0: ComponentType, t1: ComponentType)
    requires
        world.wf(),
        world.distinct(t0),
        world.distinct(t1),
    ensures
        forall|k: int|
            0 <= k < zipped(
                matching(world.tags(t0), t0.spec_mask() | t1.spec_mask()),
                matching(world.tags(t1), t0.spec_mask() | t1.spec_mask()),
            ).len() ==> world.tags(t0)[(#[trigger] zipped(
                matching(world.tags(t0), t0.spec_mask() | t1.spec_mask()),
                matching(world.tags(t1), t0.spec_mask() | t1.spec_mask()),
            )[k]).0 as int].entity == world.tags(t1)[zipped(
                matching(world.tags(t0), t0.spec_mask() | t1.spec_mask()),
                matching(world.tags(t1), t0.spec_mask() | t1.spec_mask()),
            )[k].1 as int].entity,
{
    lemma_pair_mask(t0, t1);
    law_join_pairs_share_entity(world, t0, t1, t0.spec_mask() | t1.spec_mask());
}

/// Every entry of the array of a component type carries the bit of that
/// type in its mask.
pub proof fn law_partition(world: WorldModel, t: ComponentType, i: int)
    requires
        world.wf(),
        0 <= i < world.tags(t).len(),
    ensures
        mask_contains(world.tags(t)[i].storage_type, t.spec_mask()),
{
    assert(carries(world.tags(t)[i], t));
}

/// All entries of one entity carry one and the same mask, in whatever
/// arrays they stand.
pub proof fn law_entity_has_one_mask(
    world: WorldModel,
    t: ComponentType,
    i: int,
    u: ComponentType,
    j: int,
)
    requires
        world.wf(),
        0 <= i < world.tags(t).len(),
        0 <= j < world.tags(u).len(),
        world.tags(t)[i].entity == world.tags(u)[j].entity,
    ensures
        world.tags(t)[i].storage_type == world.tags(u)[j].storage_type,
{
}

/// Each array holds its entries in the order in which their entities were
/// committed, and only entries of committed entities.
pub proof fn law_storage_order(world: WorldModel, t: ComponentType, i: int, j: int)
    requires
        world.wf(),
        0 <= i <= j < world.tags(t).len(),
    ensures
        world.tags(t)[i].entity <= world.tags(t)[j].entity < world.next_entity(),
{
}

/// The mask of an entity with two components is the bit of the one or-ed
/// with the bit of the other.
pub proof fn law_mask_of_pair(a: Component, b: Component)
    ensures
        mask_of(seq![a, b]) == a.kind().spec_mask() | b.kind().spec_mask(),
{
    let both = seq![a, b];
    assert(both.drop_last() =~= seq![a]);
    assert(seq![a].drop_last() =~= Seq::<Component>::empty());
    assert(mask_of(Seq::<Component>::empty()) == 0);
    assert(seq![a].last() == a);
    assert(mask_of(seq![a]) == 0u32 | a.kind().spec_mask());
    let x = a.kind().spec_mask();
    assert(0u32 | x == x) by (bit_vector);
}

/// A commit tags every entry that it adds with the id of the new entity
/// and with the mask of the components that were pending, and leaves the
/// entries that were there as they were.
pub proof fn law_build_tags_new_entries(world: WorldModel, t: ComponentType)
    requires
        world.wf(),
        world.can_build(),
    ensures
        world.build().tags(t).len() == world.tags(t).len() + count_kind(world.pending, t),
        forall|i: int|
            0 <= i < world.tags(t).len() ==> (#[trigger] world.build().tags(t)[i])
                == world.tags(t)[i],
        forall|i: int|
            world.tags(t).len() <= i < world.build().tags(t).len() ==> (
            #[trigger] world.build().tags(t)[i]) == (EntryTag {
                storage_type: mask_of(world.pending),
                entity: world.next_entity() as Entity,
            }),
{
    lemma_build_tags(world, t);
}

/// A query for a component type alone selects every entry of the array of
/// that type.
pub proof fn law_query_finds_own_entries(world: WorldModel, t: ComponentType, i: int)
    requires
        world.wf(),
        0 <= i < world.tags(t).len(),
    ensures
        matching(world.tags(t), t.spec_mask()).contains(i as usize),
{
    assert(carries(world.tags(t)[i], t));
    lemma_matching(world.tags(t), t.spec_mask());
}

/// A query that names a component type which an entity lacks selects no
/// entry of that entity, in whatever array.
pub proof fn law_query_skips_entity_without(
    world: WorldModel,
    t: ComponentType,
    missing: ComponentType,
    query: u32,
    entity: Entity,
)
    requires
        world.wf(),
        mask_contains(query, missing.spec_mask()),
        !world.has_entry(missing, entity),
    ensures
        !entities_at(world.tags(t), matching(world.tags(t), query)).contains(entity),
{
    if entities_at(world.tags(t), matching(world.tags(t), query)).contains(entity) {
        let found = matching(world.tags(t), query);
        lemma_matching(world.tags(t), query);
        let k = choose|k: int|
            0 <= k < found.len() && entities_at(world.tags(t), found)[k] == entity;
        let i = found[k] as int;
        assert(world.tags(t)[i].matches(query));
        lemma_contains_part(world.tags(t)[i].storage_type, query, missing.spec_mask());
        assert(carries(world.tags(t)[i], missing));
    }
}

/// A commit leaves alone every array of whose type no component is
/// pending.
pub proof fn law_build_leaves_other_arrays(world: WorldModel)
    requires
        world.can_build(),
    ensures
        count_kind(world.pending, ComponentType::TransformComponent) == 0
            ==> world.build().transforms == world.transforms,
        count_kind(world.pending, ComponentType::MeshComponent) == 0 ==> world.build().meshes
            == world.meshes,
        count_kind(world.pending, ComponentType::VelocityComponent) == 0
            ==> world.build().velocities == world.velocities,
        count_kind(world.pending, ComponentType::MaterialComponent) == 0
            ==> world.build().materials == world.materials,
        count_kind(world.pending, ComponentType::PBRMaterialComponent) == 0
            ==> world.build().pbr_materials == world.pbr_materials,
{
    let mask = world.pending_mask.unwrap();
    let entity = world.next_entity() as Entity;
    let after = world.build();
    lemma_drained_tags(
        world.pending,
        pick_transform(),
        ComponentType::TransformComponent,
        mask,
        entity,
    );
    lemma_drained_tags(world.pending, pick_mesh(), ComponentType::MeshComponent, mask, entity);
    lemma_drained_tags(
        world.pending,
        pick_velocity(),
        ComponentType::VelocityComponent,
        mask,
        entity,
    );
    lemma_drained_tags(
        world.pending,
        pick_material(),
        ComponentType::MaterialComponent,
        mask,
        entity,
    );
    lemma_drained_tags(
        world.pending,
        pick_pbr_material(),
        ComponentType::PBRMaterialComponent,
        mask,
        entity,
    );
    if count_kind(world.pending, ComponentType::TransformComponent) == 0 {
        assert(tags_of(drained(world.pending, pick_transform(), mask, entity)).len() == 0);
        assert(after.transforms =~= world.transforms);
    }
    if count_kind(world.pending, ComponentType::MeshComponent) == 0 {
        assert(tags_of(drained(world.pending, pick_mesh(), mask, entity)).len() == 0);
        assert(after.meshes =~= world.meshes);
    }
    if count_kind(world.pending, ComponentType::VelocityComponent) == 0 {
        assert(tags_of(drained(world.pending, pick_velocity(), mask, entity)).len() == 0);
        assert(after.velocities =~= world.velocities);
    }
    if count_kind(world.pending, ComponentType::MaterialComponent) == 0 {
        assert(tags_of(drained(world.pending, pick_material(), mask, entity)).len() == 0);
        assert(after.materials =~= world.materials);
    }
    if count_kind(world.pending, ComponentType::PBRMaterialComponent) == 0 {
        assert(tags_of(drained(world.pending, pick_pbr_material(), mask, entity)).len() == 0);
        assert(after.pbr_materials =~= world.pbr_materials);
    }
}

/// The arrays of an earlier state of a replay fit the index type if those
/// of the last state do.
pub proof fn lemma_replay_prefix_sized(plans: Seq<Seq<Component>>, k: int)
    requires
        0 <= k <= plans.len(),
        WorldModel::replay(plans).sized(),
    ensures
        WorldModel::replay(plans.take(k)).sized(),
    decreases plans.len(),
{
    if k == plans.len() {
        assert(plans.take(k) =~= plans);
    } else {
        let earlier = plans.drop_last();
        let before = WorldModel::replay(earlier);
        let ready = before.assembled(plans.last());
        lemma_assembled(before, plans.last());
        assert forall|t: ComponentType| (#[trigger] before.tags(t)).len() <= usize::MAX by {
            assert(ready.tags(t) == before.tags(t));
            lemma_build_grows(ready, t);
            assert(WorldModel::replay(plans).tags(t).len() <= usize::MAX);
        }
        lemma_replay_prefix_sized(earlier, k);
        assert(earlier.take(k) =~= plans.take(k));
    }
}

/// Entity ids count up from 0: when entities are assembled and committed
/// one after the other, the commit of the entity planned at position `k`
/// may take place and returns `k`.
pub proof fn law_ids_count_up(plans: Seq<Seq<Component>>, k: int)
    requires
        plans_valid(plans),
        WorldModel::replay(plans).sized(),
        0 <= k < plans.len(),
    ensures
        WorldModel::replay(plans.take(k)).wf(),
        WorldModel::replay(plans.take(k)).can_create(),
        WorldModel::replay(plans.take(k)).assembled(plans[k]).wf(),
        WorldModel::replay(plans.take(k)).assembled(plans[k]).can_build(),
        WorldModel::replay(plans.take(k)).assembled(plans[k]).next_entity() == k,
        WorldModel::replay(plans.take(k)).spawned(plans[k]) == WorldModel::replay(
            plans.take(k + 1),
        ),
{
    let earlier = plans.take(k);
    assert forall|j: int| 0 <= j < earlier.len() implies (#[trigger] earlier[j]).len() > 0 by {
        assert(earlier[j] == plans[j]);
    }
    lemma_replay_prefix_sized(plans, k);
    lemma_replay(earlier);
    lemma_assembled(WorldModel::replay(earlier), plans[k]);
    assert(plans.take(k + 1).drop_last() =~= earlier);
    assert(plans.take(k + 1).last() == plans[k]);
}

/// No array of kind `t` holds an entity twice where each entity was planned
/// with at most one component of that kind.
pub proof fn lemma_replay_distinct(plans: Seq<Seq<Component>>, t: ComponentType)
    requires
        plans_valid(plans),
        WorldModel::replay(plans).sized(),
        forall|k: int| 0 <= k < plans.len() ==> count_kind(#[trigger] plans[k], t) <= 1,
    ensures
        WorldModel::replay(plans).distinct(t),
    decreases plans.len(),
{
    if plans.len() > 0 {
        let earlier = plans.drop_last();
        let k = plans.len() - 1;
        assert(earlier =~= plans.take(k));
        assert forall|j: int| 0 <= j < earlier.len() implies count_kind(
            #[trigger] earlier[j],
            t,
        ) <= 1 by {
            assert(earlier[j] == plans[j]);
        }
        law_ids_count_up(plans, k);
        lemma_replay_prefix_sized(plans, k);
        lemma_replay_distinct(earlier, t);
        lemma_assembled(WorldModel::replay(earlier), plans[k]);
        let ready = WorldModel::replay(earlier).assembled(plans[k]);
        assert(ready.tags(t) == WorldModel::replay(earlier).tags(t));
        lemma_build_distinct(ready, t);
    }
}

/// Where every entity is built with at most one component of each of two
/// types, as when all are built with one fixed set of components, the pairs
/// of a two-type query hold two entries of one entity each.
pub proof fn law_join_after_uniform_builds(
    plans: Seq<Seq<Component>>,
    t0: ComponentType,
    t1: ComponentType,
)
    requires
        plans_valid(plans),
        WorldModel::replay(plans).sized(),
        forall|k: int| 0 <= k < plans.len() ==> count_kind(#[trigger] plans[k], t0) <= 1,
        forall|k: int| 0 <= k < plans.len() ==> count_kind(#[trigger] plans[k], t1) <= 1,
    ensures
        forall|k: int|
            0 <= k < zipped(
                matching(WorldModel::replay(plans).tags(t0), t0.spec_mask() | t1.spec_mask()),
                matching(WorldModel::replay(plans).tags(t1), t0.spec_mask() | t1.spec_mask()),
            ).len() ==> WorldModel::replay(plans).tags(t0)[(#[trigger] zipped(
                matching(WorldModel::replay(plans).tags(t0), t0.spec_mask() | t1.spec_mask()),
                matching(WorldModel::replay(plans).tags(t1), t0.spec_mask() | t1.spec_mask()),
            )[k]).0 as int].entity == WorldModel::replay(plans).tags(t1)[zipped(
                matching(WorldModel::replay(plans).tags(t0), t0.spec_mask() | t1.spec_mask()),
                matching(WorldModel::replay(plans).tags(t1), t0.spec_mask() | t1.spec_mask()),
            )[k].1 as int].entity,
{
    lemma_replay(plans);
    lemma_replay_distinct(plans, t0);
    lemma_replay_distinct(plans, t1);
    law_query_2_pairs_share_entity(WorldModel::replay(plans), t0, t1);
}

/// A join by entity pairs entries of one entity, whatever the store holds:
/// each pair holds an entry of the first array that matches the query and
/// the first entry of the same entity in the second array.
pub proof fn law_join_by_entity(world: WorldModel, t0: ComponentType, t1: ComponentType, query: u32)
    requires
        world.wf(),
    ensures
        forall|k: int|
            0 <= k < joined(world.tags(t0), world.tags(t1), query).len() ==> {
                &&& (#[trigger] joined(world.tags(t0), world.tags(t1), query)[k]).0
                    < world.tags(t0).len()
                &&& joined(world.tags(t0), world.tags(t1), query)[k].1 < world.tags(t1).len()
                &&& world.tags(t0)[joined(world.tags(t0), world.tags(t1), query)[k].0 as int].entity
                    == world.tags(t1)[joined(
                    world.tags(t0),
                    world.tags(t1),
                    query,
                )[k].1 as int].entity
            },
{
    lemma_joined(world.tags(t0), world.tags(t1), query);
}

/// Where no entity has two components of one type, the join by position
/// and the join by entity give the same pairs for a query that names both
/// component types.
pub proof fn law_joins_agree(world: WorldModel, t0: ComponentType, t1: ComponentType, query: u32)
    requires
        world.wf(),
        world.distinct(t0),
        world.distinct(t1),
        mask_contains(query, t0.spec_mask()),
        mask_contains(query, t1.spec_mask()),
    ensures
        joined(world.tags(t0), world.tags(t1), query) == zipped(
            matching(world.tags(t0), query),
            matching(world.tags(t1), query),
        ),
{
    let left = world.tags(t0);
    let right = world.tags(t1);
    let found_left = matching(left, query);
    let found_right = matching(right, query);
    lemma_matching(left, query);
    lemma_matching(right, query);
    law_join_pairs_share_entity(world, t0, t1, query);
    law_selections_agree(world, t0, t1, query);
    assert forall|i: int|
        0 <= i < left.len() && (#[trigger] left[i]).matches(query) implies first_index_of(
        right,
        left[i].entity,
    ) is Some by {
        lemma_contains_part(left[i].storage_type, query, t1.spec_mask());
        assert(carries(left[i], t1));
        assert(world.has_entry(t1, left[i].entity));
        lemma_first_index_of(right, left[i].entity);
    }
    lemma_joined_follows_matching(left, right, query);
    let by_entity = joined(left, right, query);
    let by_position = zipped(found_left, found_right);
    assert forall|k: int| 0 <= k < by_entity.len() implies by_entity[k] == by_position[k] by {
        let entity = left[found_left[k] as int].entity;
        assert(entities_at(left, found_left)[k] == entities_at(right, found_right)[k]);
        assert(right[found_right[k] as int].entity == entity);
        lemma_first_index_of(right, entity);
        // The entity stands only once on the right.
        let first = first_index_of(right, entity).unwrap();
        if first as int != found_right[k] as int {
            assert(right[first as int].entity == right[found_right[k] as int].entity);
        }
    }
    assert(by_entity =~= by_position);
}

} // verus!
