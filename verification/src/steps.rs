//! Proofs that each step of the builder protocol keeps the invariant of the
//! store, and what a commit does to the tags of each storage array.

use vstd::prelude::*;
use crate::components::{Component, ComponentType, Entity, EntryTag, StorageEntry, mask_contains};
use crate::model::{
    WorldModel, carries, count_kind, drained, mask_of, pick_material, pick_mesh,
    pick_pbr_material, pick_transform, pick_velocity, plans_valid, repeated,
};
use crate::storage::{strictly_ascending, tags_of};

verus! {

/// Or-ing the bit of one component type into a mask adds that type to the
/// types the mask names, and no other.
pub proof fn lemma_or_bit(mask: u32, added: ComponentType, t: ComponentType)
    ensures
        mask_contains(mask | added.spec_mask(), t.spec_mask()) <==> (mask_contains(
            mask,
            t.spec_mask(),
        ) || added == t),
{
    let a = added.spec_mask();
    let b = t.spec_mask();
    assert(((mask | a) & b == b) <==> ((mask & b == b) || a == b)) by (bit_vector)
        requires
            a == 1 || a == 2 || a == 4 || a == 8 || a == 16,
            b == 1 || b == 2 || b == 4 || b == 8 || b == 16,
    ;
}

/// The mask of a set of components names a type exactly if one of the
/// components is of that type.
pub proof fn lemma_mask_of_names(components: Seq<Component>, t: ComponentType)
    ensures
        mask_contains(mask_of(components), t.spec_mask()) <==> count_kind(components, t) > 0,
    decreases components.len(),
{
    if components.len() == 0 {
        let b = t.spec_mask();
        assert(0u32 & b != b) by (bit_vector)
            requires
                b == 1 || b == 2 || b == 4 || b == 8 || b == 16,
        ;
    } else {
        lemma_mask_of_names(components.drop_last(), t);
        lemma_or_bit(mask_of(components.drop_last()), components.last().kind(), t);
    }
}

/// A commit gives the array of kind `t` one entry for each pending component
/// of that kind, each tagged with the entity and its mask.
pub proof fn lemma_drained_tags<T>(
    pending: Seq<Component>,
    pick: spec_fn(Component) -> Option<T>,
    t: ComponentType,
    mask: u32,
    entity: Entity,
)
    requires
        forall|c: Component| (#[trigger] pick(c)) is Some <==> c.kind() == t,
    ensures
        tags_of(drained(pending, pick, mask, entity)) == repeated(
            EntryTag { storage_type: mask, entity },
            count_kind(pending, t),
        ),
    decreases pending.len(),
{
    let tag = EntryTag { storage_type: mask, entity };
    if pending.len() > 0 {
        lemma_drained_tags(pending.drop_last(), pick, t, mask, entity);
        let earlier = drained(pending.drop_last(), pick, mask, entity);
        match pick(pending.last()) {
            Some(component) => {
                let first = seq![StorageEntry { storage_type: mask, entity, component }];
                assert(pending.last().kind() == t);
                assert(tags_of(earlier).len() == count_kind(pending.drop_last(), t));
                assert forall|i: int| 0 <= i < (first + earlier).len() implies tags_of(
                    first + earlier,
                )[i] == tag by {
                    if i > 0 {
                        assert(tags_of(earlier)[i - 1] == tag);
                    }
                }
                assert(tags_of(first + earlier) =~= repeated(tag, count_kind(pending, t)));
            },
            None => {},
        }
    } else {
        assert(tags_of(drained(pending, pick, mask, entity)) =~= repeated(tag, 0));
    }
}

/// What a commit does to the tags of the array of kind `t`.
pub proof fn lemma_build_tags(world: WorldModel, t: ComponentType)
    ensures
        world.build().tags(t) == world.tags(t) + repeated(
            EntryTag {
                storage_type: world.pending_mask.unwrap(),
                entity: world.next_entity() as Entity,
            },
            count_kind(world.pending, t),
        ),
{
    let mask = world.pending_mask.unwrap();
    let entity = world.next_entity() as Entity;
    let tag = EntryTag { storage_type: mask, entity };
    let n = count_kind(world.pending, t);
    match t {
        ComponentType::TransformComponent => {
            lemma_drained_tags(world.pending, pick_transform(), t, mask, entity);
            let fresh = drained(world.pending, pick_transform(), mask, entity);
            assert(tags_of(world.transforms + fresh) =~= tags_of(world.transforms) + tags_of(
                fresh,
            ));
        },
        ComponentType::MeshComponent => {
            lemma_drained_tags(world.pending, pick_mesh(), t, mask, entity);
            let fresh = drained(world.pending, pick_mesh(), mask, entity);
            assert(tags_of(world.meshes + fresh) =~= tags_of(world.meshes) + tags_of(fresh));
        },
        ComponentType::VelocityComponent => {
            lemma_drained_tags(world.pending, pick_velocity(), t, mask, entity);
            let fresh = drained(world.pending, pick_velocity(), mask, entity);
            assert(tags_of(world.velocities + fresh) =~= tags_of(world.velocities) + tags_of(
                fresh,
            ));
        },
        ComponentType::MaterialComponent => {
            lemma_drained_tags(world.pending, pick_material(), t, mask, entity);
            let fresh = drained(world.pending, pick_material(), mask, entity);
            assert(tags_of(world.materials + fresh) =~= tags_of(world.materials) + tags_of(
                fresh,
            ));
        },
        ComponentType::PBRMaterialComponent => {
            lemma_drained_tags(world.pending, pick_pbr_material(), t, mask, entity);
            let fresh = drained(world.pending, pick_pbr_material(), mask, entity);
            assert(tags_of(world.pbr_materials + fresh) =~= tags_of(world.pbr_materials)
                + tags_of(fresh));
        },
    }
}

/// The invariant speaks of the tags and of the builder state alone: a state
/// that agrees in both with a state that meets it meets it too.
pub proof fn lemma_same_tags_wf(before: WorldModel, after: WorldModel)
    requires
        before.wf(),
        after.pending_wf(),
        after.last_built == before.last_built,
        forall|t: ComponentType| #![trigger after.tags(t)] after.tags(t) == before.tags(t),
    ensures
        after.wf(),
{
    assert forall|t: ComponentType, i: int, u: ComponentType|
        0 <= i < after.tags(t).len() && #[trigger] carries(
            after.tags(t)[i],
            u,
        ) implies after.has_entry(u, after.tags(t)[i].entity) by {
        assert(carries(before.tags(t)[i], u));
        let j = choose|j: int|
            0 <= j < before.tags(u).len() && (#[trigger] before.tags(u)[j]).entity
                == before.tags(t)[i].entity;
        assert(after.tags(u)[j] == before.tags(u)[j]);
    }
}

/// Beginning the assembly of an entity keeps the invariant.
pub proof fn lemma_create_entity_wf(world: WorldModel)
    requires
        world.wf(),
        world.can_create(),
    ensures
        world.create_entity().wf(),
{
    lemma_same_tags_wf(world, world.create_entity());
}

/// Attaching a component keeps the invariant: the pending mask stays the
/// mask of the pending components.
pub proof fn lemma_with_component_wf(world: WorldModel, component: Component)
    requires
        world.wf(),
        world.can_attach(),
    ensures
        world.with_component(component).wf(),
{
    assert(world.pending.push(component).drop_last() == world.pending);
    lemma_same_tags_wf(world, world.with_component(component));
}

/// Committing the pending entity keeps the invariant, as long as the arrays
/// still fit the index type.
pub proof fn lemma_build_wf(world: WorldModel)
    requires
        world.wf(),
        world.can_build(),
        world.build().sized(),
    ensures
        world.build().wf(),
{
    let after = world.build();
    let mask = world.pending_mask.unwrap();
    let entity = world.next_entity() as Entity;
    let tag = EntryTag { storage_type: mask, entity };
    assert forall|t: ComponentType| #[trigger]
        after.tags(t) == world.tags(t) + repeated(tag, count_kind(world.pending, t)) by {
        lemma_build_tags(world, t);
    }
    assert forall|t: ComponentType| #[trigger]
        carries(tag, t) <==> count_kind(world.pending, t) > 0 by {
        lemma_mask_of_names(world.pending, t);
    }
    assert(after.partitioned()) by {
        assert forall|t: ComponentType, i: int| 0 <= i < after.tags(t).len() implies carries(
            #[trigger] after.tags(t)[i],
            t,
        ) by {
            if i < world.tags(t).len() {
                assert(after.tags(t)[i] == world.tags(t)[i]);
            } else {
                assert(after.tags(t)[i] == tag);
            }
        }
    }
    assert(after.bounded()) by {
        assert forall|t: ComponentType, i: int| 0 <= i < after.tags(t).len() implies (
        #[trigger] after.tags(t)[i]).entity < after.next_entity() by {
            if i < world.tags(t).len() {
                assert(after.tags(t)[i] == world.tags(t)[i]);
            } else {
                assert(after.tags(t)[i] == tag);
            }
        }
    }
    assert(after.ordered()) by {
        assert forall|t: ComponentType, i: int, j: int|
            0 <= i < j < after.tags(t).len() implies (#[trigger] after.tags(t)[i]).entity <= (
        #[trigger] after.tags(t)[j]).entity by {
            if j < world.tags(t).len() {
                assert(after.tags(t)[i] == world.tags(t)[i]);
                assert(after.tags(t)[j] == world.tags(t)[j]);
            } else {
                assert(after.tags(t)[j] == tag);
                if i < world.tags(t).len() {
                    assert(after.tags(t)[i] == world.tags(t)[i]);
                } else {
                    assert(after.tags(t)[i] == tag);
                }
            }
        }
    }
    assert(after.coherent()) by {
        assert forall|t: ComponentType, i: int, u: ComponentType, j: int|
            0 <= i < after.tags(t).len() && 0 <= j < after.tags(u).len() && (
            #[trigger] after.tags(t)[i]).entity == (
            #[trigger] after.tags(u)[j]).entity implies after.tags(t)[i].storage_type
            == after.tags(u)[j].storage_type by {
            if i < world.tags(t).len() {
                assert(after.tags(t)[i] == world.tags(t)[i]);
            } else {
                assert(after.tags(t)[i] == tag);
            }
            if j < world.tags(u).len() {
                assert(after.tags(u)[j] == world.tags(u)[j]);
            } else {
                assert(after.tags(u)[j] == tag);
            }
        }
    }
    assert(after.complete()) by {
        assert forall|t: ComponentType, i: int, u: ComponentType|
            0 <= i < after.tags(t).len() && #[trigger] carries(
                after.tags(t)[i],
                u,
            ) implies after.has_entry(u, after.tags(t)[i].entity) by {
            if i < world.tags(t).len() {
                assert(after.tags(t)[i] == world.tags(t)[i]);
                assert(world.has_entry(u, world.tags(t)[i].entity));
                let j = choose|j: int|
                    0 <= j < world.tags(u).len() && (#[trigger] world.tags(u)[j]).entity
                        == world.tags(t)[i].entity;
                assert(after.tags(u)[j] == world.tags(u)[j]);
            } else {
                assert(after.tags(t)[i] == tag);
                assert(count_kind(world.pending, u) > 0);
                let j = world.tags(u).len() as int;
                assert(after.tags(u)[j] == tag);
            }
        }
    }
}

/// A commit leaves an array free of double entries if it was so before and
/// the pending entity has at most one component of the array's type.
pub proof fn lemma_build_distinct(world: WorldModel, t: ComponentType)
    requires
        world.wf(),
        world.can_build(),
        world.distinct(t),
        count_kind(world.pending, t) <= 1,
    ensures
        world.build().distinct(t),
{
    let after = world.build();
    lemma_build_tags(world, t);
    assert forall|i: int, j: int| 0 <= i < j < after.tags(t).len() implies (
    #[trigger] after.tags(t)[i]).entity != (#[trigger] after.tags(t)[j]).entity by {
        assert(after.tags(t)[i] == world.tags(t)[i]);
        if j < world.tags(t).len() {
            assert(after.tags(t)[j] == world.tags(t)[j]);
        }
    }
}

/// Assembling an entity leaves the arrays alone; afterwards the given
/// components are pending under their mask.
pub proof fn lemma_assembled(world: WorldModel, components: Seq<Component>)
    requires
        world.can_create(),
    ensures
        world.assembled(components) == (WorldModel {
            pending_mask: Some(mask_of(components)),
            pending: components,
            ..world
        }),
        world.wf() ==> world.assembled(components).wf(),
    decreases components.len(),
{
    if components.len() == 0 {
        assert(world.pending =~= components);
    } else {
        lemma_assembled(world, components.drop_last());
        assert(components.drop_last().push(components.last()) =~= components);
    }
    if world.wf() {
        lemma_same_tags_wf(world, world.assembled(components));
    }
}

/// A commit only appends: no array gets shorter.
pub proof fn lemma_build_grows(world: WorldModel, t: ComponentType)
    ensures
        world.tags(t).len() <= world.build().tags(t).len(),
{
    lemma_build_tags(world, t);
}

/// Every state of a replay meets the invariant, and as many entities have
/// been committed as there were plans.
pub proof fn lemma_replay(plans: Seq<Seq<Component>>)
    requires
        plans_valid(plans),
        WorldModel::replay(plans).sized(),
    ensures
        WorldModel::replay(plans).wf(),
        WorldModel::replay(plans).can_create(),
        WorldModel::replay(plans).next_entity() == plans.len(),
    decreases plans.len(),
{
    if plans.len() == 0 {
        assert forall|t: ComponentType| (#[trigger] WorldModel::empty().tags(t)).len() == 0 by {}
    } else {
        let earlier = plans.drop_last();
        let before = WorldModel::replay(earlier);
        let ready = before.assembled(plans.last());
        assert forall|k: int| 0 <= k < earlier.len() implies (#[trigger] earlier[k]).len()
            > 0 by {
            assert(earlier[k] == plans[k]);
        }
        assert(before.can_create());
        lemma_assembled(before, plans.last());
        assert forall|t: ComponentType| (#[trigger] before.tags(t)).len() <= usize::MAX by {
            assert(ready.tags(t) == before.tags(t));
            lemma_build_grows(ready, t);
            assert(WorldModel::replay(plans).tags(t).len() <= usize::MAX);
        }
        lemma_replay(earlier);
        lemma_build_wf(ready);
    }
}

/// In a store that meets the invariant, an array holds no entity twice
/// exactly if the entities ascend strictly from each entry to the next.
pub proof fn lemma_distinct_ascends(world: WorldModel, t: ComponentType)
    requires
        world.wf(),
    ensures
        world.distinct(t) <==> strictly_ascending(world.tags(t)),
{
    let tags = world.tags(t);
    if world.distinct(t) {
        assert forall|i: int| 0 <= i < tags.len() - 1 implies (#[trigger] tags[i]).entity < tags[i
            + 1].entity by {
            assert(tags[i].entity <= tags[i + 1].entity);
            assert(tags[i].entity != tags[i + 1].entity);
        }
    }
    if strictly_ascending(tags) {
        assert forall|j: int|
            #![trigger tags[j]]
            0 <= j < tags.len() implies forall|i: int|
            0 <= i < j ==> (#[trigger] tags[i]).entity < tags[j].entity by {
            lemma_ascends_from(tags, j);
        }
    }
}

/// Where the entities ascend strictly from each tag to the next, every tag
/// before another has the lesser entity.
pub proof fn lemma_ascends_from(tags: Seq<EntryTag>, j: int)
    requires
        strictly_ascending(tags),
        0 <= j < tags.len(),
    ensures
        forall|i: int| 0 <= i < j ==> (#[trigger] tags[i]).entity < tags[j].entity,
    decreases j,
{
    if j > 0 {
        lemma_ascends_from(tags, j - 1);
        assert(tags[j - 1].entity < tags[j].entity);
    }
}

} // verus!
