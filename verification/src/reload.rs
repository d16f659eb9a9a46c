//! Exchanging a shader module in the stored materials, as is done when a
//! shader has been built anew while the program runs.

use vstd::prelude::*;
use crate::components::{Material, MaterialStorageEntry, StorageEntry};
use crate::storage::tags_of;

verus! {

impl Material {
    /// Whether one of the two shader stages of this material is `module`.
    pub open spec fn spec_refers_to(&self, module: u64) -> bool {
        self.vertex_shader == module || self.fragment_shader == module
    }

    #[verifier::when_used_as_spec(spec_refers_to)]
    pub fn refers_to(&self, module: u64) -> (b: bool)
        ensures
            b == self.spec_refers_to(module),
    {
        self.vertex_shader == module || self.fragment_shader == module
    }

    /// This material with `new_module` in the place of `old_module`: in the
    /// vertex stage if that stage holds the old module, otherwise in the
    /// fragment stage if that one holds it. Only one stage changes.
    pub open spec fn reloaded(self, old_module: u64, new_module: u64) -> Material {
        if self.vertex_shader == old_module {
            Material { vertex_shader: new_module, ..self }
        } else if self.fragment_shader == old_module {
            Material { fragment_shader: new_module, ..self }
        } else {
            self
        }
    }
}

/// The materials with the module exchanged in each.
pub open spec fn reloaded_all(
    materials: Seq<MaterialStorageEntry>,
    old_module: u64,
    new_module: u64,
) -> Seq<MaterialStorageEntry> {
    Seq::new(
        materials.len(),
        |i: int|
            StorageEntry {
                storage_type: materials[i].storage_type,
                entity: materials[i].entity,
                component: materials[i].component.reloaded(old_module, new_module),
            },
    )
}

/// The indices of the materials that refer to `module`, in ascending order.
pub open spec fn referring(materials: Seq<MaterialStorageEntry>, module: u64) -> Seq<usize>
    decreases materials.len(),
{
    if materials.len() == 0 {
        Seq::empty()
    } else {
        let before = referring(materials.drop_last(), module);
        if materials.last().component.spec_refers_to(module) {
            before.push((materials.len() - 1) as usize)
        } else {
            before
        }
    }
}

/// Exchanging a module leaves the tags alone.
pub proof fn lemma_reloaded_tags(
    materials: Seq<MaterialStorageEntry>,
    old_module: u64,
    new_module: u64,
)
    ensures
        tags_of(reloaded_all(materials, old_module, new_module)) == tags_of(materials),
{
    assert(tags_of(reloaded_all(materials, old_module, new_module)) =~= tags_of(materials));
}

/// Puts `new_module` in the place of `old_module` in every material that
/// refers to it, and returns the indices of those materials, whose
/// pipelines are then out of date.
pub fn reload_materials(
    storage: &mut Vec<MaterialStorageEntry>,
    old_module: u64,
    new_module: u64,
) -> (changed: Vec<usize>)
    ensures
        final(storage)@ == reloaded_all(old(storage)@, old_module, new_module),
        changed@ == referring(old(storage)@, old_module),
{
    let mut changed: Vec<usize> = Vec::new();
    let mut i: usize = 0;
    while i < storage.len()
        invariant
            i <= storage.len(),
            storage.len() == old(storage).len(),
            forall|j: int|
                0 <= j < i ==> storage@[j] == reloaded_all(
                    old(storage)@,
                    old_module,
                    new_module,
                )[j],
            forall|j: int| i <= j < storage.len() ==> storage@[j] == old(storage)@[j],
            changed@ == referring(old(storage)@.take(i as int), old_module),
        decreases storage.len() - i,
    {
        proof {
            let longer = old(storage)@.take(i + 1);
            assert(longer.drop_last() == old(storage)@.take(i as int));
            assert(longer.last() == old(storage)@[i as int]);
        }
        if storage[i].component.refers_to(old_module) {
            let entry = &mut storage[i];
            if entry.component.vertex_shader == old_module {
                entry.component.vertex_shader = new_module;
            } else {
                entry.component.fragment_shader = new_module;
            }
            changed.push(i);
        }
        i += 1;
    }
    proof {
        assert(old(storage)@.take(i as int) == old(storage)@);
        assert(storage@ =~= reloaded_all(old(storage)@, old_module, new_module));
    }
    changed
}

} // verus!
