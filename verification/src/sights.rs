//! What is reported once, however often it happens.

use vstd::prelude::*;

use crate::clears::ClearDrop;

verus! {

broadcast use {vstd::std_specs::btree::group_btree_axioms, vstd::laws_cmp::group_laws_cmp};

/// Which things have been reported, each once.
#[derive(Debug)]
pub struct FirstSights {
    clears: std::collections::BTreeSet<u64>,
    opcodes: std::collections::BTreeSet<u32>,
    unindexed: std::collections::BTreeSet<u32>,
    targets: Vec<(u32, u32, Option<(u32, u32)>)>,
}

impl FirstSights {
    /// The clears that have been reported.
    pub closed spec fn clears_seen(self) -> Set<u64> {
        self.clears@
    }

    /// The opcodes that nothing executes and that have been reported.
    pub closed spec fn opcodes_seen(self) -> Set<u32> {
        self.opcodes@
    }

    /// The opcodes of indexed draws that have been reported for naming no index
    /// buffer.
    pub closed spec fn unindexed_seen(self) -> Set<u32> {
        self.unindexed@
    }

    /// The targets of passes that have been named: the task, the mapping and
    /// its size, where that is known.
    pub closed spec fn targets_seen(self) -> Set<(u32, u32, Option<(u32, u32)>)> {
        self.targets@.to_set()
    }

    /// Nothing reported yet.
    pub fn new() -> (sights: FirstSights)
        ensures
            sights.clears_seen() == Set::<u64>::empty(),
            sights.opcodes_seen() == Set::<u32>::empty(),
            sights.unindexed_seen() == Set::<u32>::empty(),
            sights.targets_seen() == Set::<(u32, u32, Option<(u32, u32)>)>::empty(),
    {
        let sights = FirstSights {
            clears: std::collections::BTreeSet::new(),
            opcodes: std::collections::BTreeSet::new(),
            unindexed: std::collections::BTreeSet::new(),
            targets: Vec::new(),
        };
        assert(sights.targets_seen() =~= Set::empty());
        sights
    }

    /// Whether a dropped clear is to be reported: once for each reason and
    /// texture.
    pub fn note_clear_dropped(&mut self, reason: ClearDrop, texture_ref: u32) -> (first: bool)
        ensures
            first == !old(self).clears_seen().contains(reason.key_of(texture_ref) as u64),
            final(self).clears_seen() == old(self).clears_seen().insert(
                reason.key_of(texture_ref) as u64,
            ),
            final(self).opcodes_seen() == old(self).opcodes_seen(),
            final(self).unindexed_seen() == old(self).unindexed_seen(),
            final(self).targets_seen() == old(self).targets_seen(),
    {
        let base: u64 = match reason {
            ClearDrop::TargetUnresolved => 0,
            ClearDrop::MultisampleSource => 0x1_0000_0000,
            ClearDrop::Unrepresentable => 0x2_0000_0000,
        };
        self.clears.insert(base + texture_ref as u64)
    }

    /// Whether an opcode that nothing executes is to be reported: once for
    /// each.
    pub fn note_unimplemented_render_opcode(&mut self, opcode: u32) -> (first: bool)
        ensures
            first == !old(self).opcodes_seen().contains(opcode),
            final(self).opcodes_seen() == old(self).opcodes_seen().insert(opcode),
            final(self).clears_seen() == old(self).clears_seen(),
            final(self).unindexed_seen() == old(self).unindexed_seen(),
            final(self).targets_seen() == old(self).targets_seen(),
    {
        self.opcodes.insert(opcode)
    }

    /// Forgets which opcodes that nothing executes have been reported.
    pub fn reset_unimplemented_opcodes(&mut self)
        ensures
            final(self).opcodes_seen() == Set::<u32>::empty(),
            final(self).clears_seen() == old(self).clears_seen(),
            final(self).unindexed_seen() == old(self).unindexed_seen(),
            final(self).targets_seen() == old(self).targets_seen(),
    {
        self.opcodes = std::collections::BTreeSet::new();
    }

    /// Whether an indexed draw that names no index buffer is to be reported:
    /// once for each opcode. The opcode is what tells the forms of a draw
    /// apart.
    pub fn note_indexed_draw_without_buffer(&mut self, opcode: u32) -> (first: bool)
        ensures
            first == !old(self).unindexed_seen().contains(opcode),
            final(self).unindexed_seen() == old(self).unindexed_seen().insert(opcode),
            final(self).clears_seen() == old(self).clears_seen(),
            final(self).opcodes_seen() == old(self).opcodes_seen(),
            final(self).targets_seen() == old(self).targets_seen(),
    {
        self.unindexed.insert(opcode)
    }

    /// Whether the target of a pass is to be named: once for each task, mapping
    /// and size. A size that is not known is a size of its own.
    pub fn note_pass_target(
        &mut self,
        task_id: u32,
        mapping_id: u32,
        geometry: Option<(u32, u32)>,
    ) -> (first: bool)
        ensures
            first == !old(self).targets_seen().contains((task_id, mapping_id, geometry)),
            final(self).targets_seen() == old(self).targets_seen().insert(
                (task_id, mapping_id, geometry),
            ),
            final(self).clears_seen() == old(self).clears_seen(),
            final(self).opcodes_seen() == old(self).opcodes_seen(),
            final(self).unindexed_seen() == old(self).unindexed_seen(),
    {
        let mut i: usize = 0;
        while i < self.targets.len()
            invariant
                i <= self.targets@.len(),
                *self == *old(self),
                forall|j: int|
                    0 <= j < i ==> #[trigger] self.targets@[j] != (task_id, mapping_id, geometry),
            decreases self.targets.len() - i,
        {
            let (task, mapping, size) = self.targets[i];
            if task == task_id && mapping == mapping_id && same_size(size, geometry) {
                assert(self.targets@[i as int] == (task_id, mapping_id, geometry));
                assert(self.targets_seen().insert((task_id, mapping_id, geometry))
                    =~= self.targets_seen());
                return false;
            }
            i += 1;
        }
        let ghost before = self.targets@;
        self.targets.push((task_id, mapping_id, geometry));
        proof {
            let target = (task_id, mapping_id, geometry);
            let after = before.push(target);
            assert forall|t: (u32, u32, Option<(u32, u32)>)|
                after.contains(t) == (before.contains(t) || t == target) by {
                if before.contains(t) {
                    let j = choose|j: int| 0 <= j < before.len() && before[j] == t;
                    assert(after[j] == t);
                }
                assert(after[before.len() as int] == target);
            }
            assert(self.targets_seen() =~= old(self).targets_seen().insert(target));
        }
        true
    }
}

fn same_size(one: Option<(u32, u32)>, other: Option<(u32, u32)>) -> (same: bool)
    ensures
        same == (one == other),
{
    match (one, other) {
        (None, None) => true,
        (Some(one), Some(other)) => one.0 == other.0 && one.1 == other.1,
        _ => false,
    }
}

} // verus!
