//! Queries over one storage array: selecting the entries whose mask contains
//! a requested mask, pairing two selections by position, and finding the
//! entry of an entity.

use vstd::prelude::*;
use crate::components::{Entity, EntryTag, StorageEntry};

verus! {

/// The tags of the entries of a storage array, in storage order.
pub open spec fn tags_of<T>(storage: Seq<StorageEntry<T>>) -> Seq<EntryTag> {
    storage.map_values(|entry: StorageEntry<T>| entry.spec_tag())
}

/// The indices of the tags that match `query`, in ascending order.
pub open spec fn matching(tags: Seq<EntryTag>, query: u32) -> Seq<usize>
    decreases tags.len(),
{
    if tags.len() == 0 {
        Seq::empty()
    } else {
        let before = matching(tags.drop_last(), query);
        if tags.last().matches(query) {
            before.push((tags.len() - 1) as usize)
        } else {
            before
        }
    }
}

/// The entities found at the given indices.
pub open spec fn entities_at(tags: Seq<EntryTag>, indices: Seq<usize>) -> Seq<Entity> {
    Seq::new(indices.len(), |k: int| tags[indices[k] as int].entity)
}

/// Two index sequences paired by position, as long as the shorter one.
pub open spec fn zipped(left: Seq<usize>, right: Seq<usize>) -> Seq<(usize, usize)> {
    Seq::new(
        if left.len() <= right.len() { left.len() } else { right.len() },
        |k: int| (left[k], right[k]),
    )
}

/// `matching` lists exactly the indices of the matching tags, each once and
/// in ascending order.
pub proof fn lemma_matching(tags: Seq<EntryTag>, query: u32)
    requires
        tags.len() <= usize::MAX,
    ensures
        matching(tags, query).len() <= tags.len(),
        forall|k: int|
            0 <= k < matching(tags, query).len() ==> {
                &&& (#[trigger] matching(tags, query)[k]) < tags.len()
                &&& tags[matching(tags, query)[k] as int].matches(query)
            },
        forall|j: int, k: int|
            0 <= j < k < matching(tags, query).len() ==> (#[trigger] matching(tags, query)[j])
                < (#[trigger] matching(tags, query)[k]),
        forall|i: int|
            0 <= i < tags.len() && (#[trigger] tags[i]).matches(query) ==> matching(
                tags,
                query,
            ).contains(i as usize),
    decreases tags.len(),
{
    if tags.len() > 0 {
        let shorter = tags.drop_last();
        lemma_matching(shorter, query);
        let before = matching(shorter, query);
        let all = matching(tags, query);
        assert forall|i: int|
            0 <= i < tags.len() && (#[trigger] tags[i]).matches(query) implies all.contains(
            i as usize,
        ) by {
            if i < tags.len() - 1 {
                assert(shorter[i] == tags[i]);
                let k = choose|k: int| 0 <= k < before.len() && before[k] == i as usize;
                assert(all[k] == i as usize);
            } else {
                assert(all[all.len() - 1] == i as usize);
            }
        }
        assert forall|k: int| 0 <= k < all.len() implies (#[trigger] all[k]) < tags.len()
            && tags[all[k] as int].matches(query) by {
            if k < before.len() {
                assert(before[k] == all[k]);
                assert(shorter[before[k] as int] == tags[before[k] as int]);
            }
        }
        assert forall|j: int, k: int| 0 <= j < k < all.len() implies (#[trigger] all[j]) < (
        #[trigger] all[k]) by {
            assert(before[j] == all[j]);
            if k < before.len() {
                assert(before[k] == all[k]);
            }
        }
    }
}

/// Selects the entries of `storage` whose mask contains `query` and returns
/// their indices in storage order.
pub fn filter_storage<T>(storage: &Vec<StorageEntry<T>>, query: u32) -> (found: Vec<usize>)
    ensures
        found@ == matching(tags_of(storage@), query),
        found@.len() <= storage@.len(),
        forall|k: int|
            0 <= k < found@.len() ==> (#[trigger] found@[k]) < storage@.len()
                && storage@[found@[k] as int].spec_matches(query),
        forall|j: int, k: int| 0 <= j < k < found@.len() ==> found@[j] < found@[k],
{
    let mut found: Vec<usize> = Vec::new();
    let mut i: usize = 0;
    while i < storage.len()
        invariant
            i <= storage.len(),
            found@ == matching(tags_of(storage@).take(i as int), query),
        decreases storage.len() - i,
    {
        proof {
            let longer = tags_of(storage@).take(i + 1);
            assert(longer.drop_last() == tags_of(storage@).take(i as int));
            assert(longer.last() == storage@[i as int].spec_tag());
        }
        if storage[i].matches(query) {
            found.push(i);
        }
        i += 1;
    }
    proof {
        assert(tags_of(storage@).take(i as int) == tags_of(storage@));
        lemma_matching(tags_of(storage@), query);
    }
    found
}

/// Pairs two index lists by position; what the longer one holds beyond the
/// length of the shorter is left out.
pub fn zip_indices(left: &Vec<usize>, right: &Vec<usize>) -> (pairs: Vec<(usize, usize)>)
    ensures
        pairs@ == zipped(left@, right@),
        pairs@.len() == if left@.len() <= right@.len() {
            left@.len()
        } else {
            right@.len()
        },
{
    let n: usize = if left.len() <= right.len() { left.len() } else { right.len() };
    let mut pairs: Vec<(usize, usize)> = Vec::new();
    let mut k: usize = 0;
    while k < n
        invariant
            k <= n,
            n <= left.len(),
            n <= right.len(),
            pairs@.len() == k,
            forall|j: int| 0 <= j < k ==> pairs@[j] == (left@[j], right@[j]),
        decreases n - k,
    {
        pairs.push((left[k], right[k]));
        k += 1;
    }
    assert(pairs@ =~= zipped(left@, right@));
    pairs
}

/// Finds the first entry of `target` in `storage`, by a scan from the front.
pub fn find_entity<T>(storage: &Vec<StorageEntry<T>>, target: Entity) -> (found: Option<usize>)
    ensures
        match found {
            Some(i) => {
                &&& i < storage.len()
                &&& storage[i as int].entity == target
                &&& forall|j: int| 0 <= j < i ==> storage[j].entity != target
            },
            None => forall|j: int| 0 <= j < storage.len() ==> storage[j].entity != target,
        },
{
    let mut i: usize = 0;
    while i < storage.len()
        invariant
            i <= storage.len(),
            forall|j: int| 0 <= j < i ==> storage[j].entity != target,
        decreases storage.len() - i,
    {
        if storage[i].entity == target {
            return Some(i);
        }
        i += 1;
    }
    None
}

/// Where every tag matches, `matching` lists every index.
pub proof fn lemma_matching_all(tags: Seq<EntryTag>, query: u32)
    requires
        tags.len() <= usize::MAX,
        forall|i: int| 0 <= i < tags.len() ==> (#[trigger] tags[i]).matches(query),
    ensures
        matching(tags, query) == Seq::new(tags.len(), |i: int| i as usize),
    decreases tags.len(),
{
    if tags.len() > 0 {
        let shorter = tags.drop_last();
        assert forall|i: int| 0 <= i < shorter.len() implies (#[trigger] shorter[i]).matches(
            query,
        ) by {
            assert(shorter[i] == tags[i]);
        }
        lemma_matching_all(shorter, query);
    }
    assert(matching(tags, query) =~= Seq::new(tags.len(), |i: int| i as usize));
}

/// Copies the tags of a storage array, in storage order.
pub fn storage_tags<T>(storage: &Vec<StorageEntry<T>>) -> (tags: Vec<EntryTag>)
    ensures
        tags@ == tags_of(storage@),
{
    let mut tags: Vec<EntryTag> = Vec::new();
    let mut i: usize = 0;
    while i < storage.len()
        invariant
            i <= storage.len(),
            tags@ == tags_of(storage@).take(i as int),
        decreases storage.len() - i,
    {
        tags.push(storage[i].tag());
        assert(tags@ =~= tags_of(storage@).take(i + 1));
        i += 1;
    }
    assert(tags_of(storage@).take(i as int) =~= tags_of(storage@));
    tags
}

/// The storage array in which the entry at `index` holds `component` and
/// everything else is as before.
pub open spec fn replaced<T>(storage: Seq<StorageEntry<T>>, index: int, component: T) -> Seq<
    StorageEntry<T>,
> {
    storage.update(
        index,
        StorageEntry {
            storage_type: storage[index].storage_type,
            entity: storage[index].entity,
            component,
        },
    )
}

/// Replacing a component leaves the tags alone.
pub proof fn lemma_replaced_tags<T>(storage: Seq<StorageEntry<T>>, index: int, component: T)
    requires
        0 <= index < storage.len(),
    ensures
        tags_of(replaced(storage, index, component)) == tags_of(storage),
{
    assert(tags_of(replaced(storage, index, component)) =~= tags_of(storage));
}

/// Puts `component` in the place of the component of the entry at `index`.
/// The entry keeps its entity and its mask.
pub fn replace_component<T>(storage: &mut Vec<StorageEntry<T>>, index: usize, component: T)
    requires
        index < old(storage).len(),
    ensures
        final(storage)@ == replaced(old(storage)@, index as int, component),
{
    let entry = &mut storage[index];
    entry.component = component;
    assert(storage@ =~= replaced(old(storage)@, index as int, component));
}

/// Whether the entities ascend strictly from each tag to the next.
pub open spec fn strictly_ascending(tags: Seq<EntryTag>) -> bool {
    forall|i: int| 0 <= i < tags.len() - 1 ==> (#[trigger] tags[i]).entity < tags[i + 1].entity
}

/// Tells whether the entities of the entries ascend strictly from each
/// entry to the next.
pub fn ascends_strictly<T>(storage: &Vec<StorageEntry<T>>) -> (b: bool)
    ensures
        b == strictly_ascending(tags_of(storage@)),
{
    if storage.len() < 2 {
        return true;
    }
    let mut i: usize = 0;
    while i < storage.len() - 1
        invariant
            2 <= storage.len(),
            i <= storage.len() - 1,
            forall|j: int|
                0 <= j < i ==> (#[trigger] tags_of(storage@)[j]).entity < tags_of(storage@)[j
                    + 1].entity,
        decreases storage.len() - i,
    {
        if storage[i].entity >= storage[i + 1].entity {
            assert(!(tags_of(storage@)[i as int].entity < tags_of(storage@)[i + 1].entity));
            return false;
        }
        i += 1;
    }
    true
}

/// The index of the first tag of `entity`.
pub open spec fn first_index_of(tags: Seq<EntryTag>, entity: Entity) -> Option<usize>
    decreases tags.len(),
{
    if tags.len() == 0 {
        None
    } else {
        match first_index_of(tags.drop_last(), entity) {
            Some(i) => Some(i),
            None => if tags.last().entity == entity {
                Some((tags.len() - 1) as usize)
            } else {
                None
            },
        }
    }
}

/// The join of two arrays by entity: for each tag on the left that matches
/// `query`, in order, its index paired with the index of the first tag of
/// the same entity on the right. A tag whose entity has no tag on the right
/// gives no pair.
pub open spec fn joined(left: Seq<EntryTag>, right: Seq<EntryTag>, query: u32) -> Seq<
    (usize, usize),
>
    decreases left.len(),
{
    if left.len() == 0 {
        Seq::empty()
    } else {
        let before = joined(left.drop_last(), right, query);
        match first_index_of(right, left.last().entity) {
            Some(j) => if left.last().matches(query) {
                before.push(((left.len() - 1) as usize, j))
            } else {
                before
            },
            None => before,
        }
    }
}

/// `first_index_of` finds a tag of the entity, and the first one, if there
/// is any.
pub proof fn lemma_first_index_of(tags: Seq<EntryTag>, entity: Entity)
    requires
        tags.len() <= usize::MAX,
    ensures
        match first_index_of(tags, entity) {
            Some(i) => {
                &&& i < tags.len()
                &&& tags[i as int].entity == entity
                &&& forall|j: int| 0 <= j < i ==> (#[trigger] tags[j]).entity != entity
            },
            None => forall|j: int| 0 <= j < tags.len() ==> (#[trigger] tags[j]).entity != entity,
        },
    decreases tags.len(),
{
    if tags.len() > 0 {
        let shorter = tags.drop_last();
        lemma_first_index_of(shorter, entity);
        match first_index_of(shorter, entity) {
            Some(i) => {
                assert(shorter[i as int] == tags[i as int]);
                assert forall|j: int| 0 <= j < i implies (#[trigger] tags[j]).entity != entity by {
                    assert(shorter[j] == tags[j]);
                }
            },
            None => {
                assert forall|j: int| 0 <= j < tags.len() - 1 implies (#[trigger] tags[j]).entity
                    != entity by {
                    assert(shorter[j] == tags[j]);
                }
            },
        }
    }
}

/// Every pair of a join by entity holds the indices of two tags of one
/// entity, of which the left one matches the query.
pub proof fn lemma_joined(left: Seq<EntryTag>, right: Seq<EntryTag>, query: u32)
    requires
        left.len() <= usize::MAX,
        right.len() <= usize::MAX,
    ensures
        joined(left, right, query).len() <= left.len(),
        forall|k: int|
            0 <= k < joined(left, right, query).len() ==> {
                &&& (#[trigger] joined(left, right, query)[k]).0 < left.len()
                &&& joined(left, right, query)[k].1 < right.len()
                &&& left[joined(left, right, query)[k].0 as int].matches(query)
                &&& left[joined(left, right, query)[k].0 as int].entity
                    == right[joined(left, right, query)[k].1 as int].entity
            },
    decreases left.len(),
{
    if left.len() > 0 {
        let shorter = left.drop_last();
        lemma_joined(shorter, right, query);
        lemma_first_index_of(right, left.last().entity);
        let before = joined(shorter, right, query);
        let all = joined(left, right, query);
        assert forall|k: int| 0 <= k < all.len() implies {
            &&& (#[trigger] all[k]).0 < left.len()
            &&& all[k].1 < right.len()
            &&& left[all[k].0 as int].matches(query)
            &&& left[all[k].0 as int].entity == right[all[k].1 as int].entity
        } by {
            if k < before.len() {
                assert(all[k] == before[k]);
                assert(shorter[before[k].0 as int] == left[before[k].0 as int]);
            }
        }
    }
}

/// Finds the first tag of `entity`.
pub fn find_tag(tags: &Vec<EntryTag>, entity: Entity) -> (found: Option<usize>)
    ensures
        found == first_index_of(tags@, entity),
{
    let mut i: usize = 0;
    while i < tags.len()
        invariant
            i <= tags.len(),
            first_index_of(tags@.take(i as int), entity) is None,
        decreases tags.len() - i,
    {
        proof {
            let longer = tags@.take(i + 1);
            assert(longer.drop_last() == tags@.take(i as int));
            assert(longer.last() == tags@[i as int]);
        }
        if tags[i].entity == entity {
            proof {
                lemma_first_index_from_prefix(tags@, entity, i + 1);
            }
            return Some(i);
        }
        i += 1;
    }
    assert(tags@.take(i as int) == tags@);
    None
}

/// What is found in the first tags is found in all of them.
pub proof fn lemma_first_index_from_prefix(tags: Seq<EntryTag>, entity: Entity, n: int)
    requires
        0 <= n <= tags.len(),
        first_index_of(tags.take(n), entity) is Some,
    ensures
        first_index_of(tags, entity) == first_index_of(tags.take(n), entity),
    decreases tags.len() - n,
{
    if n < tags.len() {
        let shorter = tags.drop_last();
        assert(shorter.take(n) == tags.take(n));
        lemma_first_index_from_prefix(shorter, entity, n);
    } else {
        assert(tags.take(n) == tags);
    }
}

/// Joins two arrays by entity: pairs the index of each tag on the left that
/// matches `query` with the index of the first tag of the same entity on
/// the right.
pub fn join_tags(left: &Vec<EntryTag>, right: &Vec<EntryTag>, query: u32) -> (pairs: Vec<
    (usize, usize),
>)
    ensures
        pairs@ == joined(left@, right@, query),
        forall|k: int|
            0 <= k < pairs@.len() ==> {
                &&& (#[trigger] pairs@[k]).0 < left@.len()
                &&& pairs@[k].1 < right@.len()
                &&& left@[pairs@[k].0 as int].matches(query)
                &&& left@[pairs@[k].0 as int].entity == right@[pairs@[k].1 as int].entity
            },
{
    let mut pairs: Vec<(usize, usize)> = Vec::new();
    let mut i: usize = 0;
    while i < left.len()
        invariant
            i <= left.len(),
            pairs@ == joined(left@.take(i as int), right@, query),
        decreases left.len() - i,
    {
        proof {
            let longer = left@.take(i + 1);
            assert(longer.drop_last() == left@.take(i as int));
            assert(longer.last() == left@[i as int]);
        }
        if left[i].storage_type & query == query {
            match find_tag(right, left[i].entity) {
                Some(j) => {
                    pairs.push((i, j));
                },
                None => {},
            }
        }
        i += 1;
    }
    proof {
        assert(left@.take(i as int) == left@);
        assert(right.len() == right@.len());
        lemma_joined(left@, right@, query);
    }
    pairs
}

/// Where every matching tag on the left has a partner on the right, the
/// join by entity follows the selection on the left, tag by tag.
pub proof fn lemma_joined_follows_matching(left: Seq<EntryTag>, right: Seq<EntryTag>, query: u32)
    requires
        left.len() <= usize::MAX,
        forall|i: int|
            0 <= i < left.len() && (#[trigger] left[i]).matches(query) ==> first_index_of(
                right,
                left[i].entity,
            ) is Some,
    ensures
        joined(left, right, query).len() == matching(left, query).len(),
        forall|k: int|
            0 <= k < joined(left, right, query).len() ==> (#[trigger] joined(
                left,
                right,
                query,
            )[k]) == (
                matching(left, query)[k],
                first_index_of(right, left[matching(left, query)[k] as int].entity).unwrap(),
            ),
    decreases left.len(),
{
    if left.len() > 0 {
        let shorter = left.drop_last();
        assert forall|i: int|
            0 <= i < shorter.len() && (#[trigger] shorter[i]).matches(
                query,
            ) implies first_index_of(right, shorter[i].entity) is Some by {
            assert(shorter[i] == left[i]);
        }
        lemma_joined_follows_matching(shorter, right, query);
        lemma_matching(shorter, query);
        let before = joined(shorter, right, query);
        let all = joined(left, right, query);
        let found = matching(left, query);
        assert forall|k: int| 0 <= k < all.len() implies (#[trigger] all[k]) == (
            found[k],
            first_index_of(right, left[found[k] as int].entity).unwrap(),
        ) by {
            if k < before.len() {
                assert(all[k] == before[k]);
                assert(found[k] == matching(shorter, query)[k]);
                assert(shorter[found[k] as int] == left[found[k] as int]);
            }
        }
    }
}

} // verus!
