//! Bind lists: the occupied slots of an argument table, each at most once.
//!
//! A list keeps the order in which slots were first occupied. Binding an
//! occupied slot replaces its occupant in place, and clearing a slot removes
//! it.

use vstd::prelude::*;

verus! {

/// A bind that knows the argument-table slot it sits in.
pub trait Slotted: Copy {
    /// The slot.
    spec fn slot(self) -> u32;

    /// The slot.
    fn slot_index(&self) -> (index: u32)
        ensures
            index == self.slot(),
    ;
}

/// No slot occurs twice.
pub open spec fn distinct_slots<B: Slotted>(list: Seq<B>) -> bool {
    forall|i: int, j: int|
        0 <= i < j < list.len() ==> (#[trigger] list[i]).slot() != (#[trigger] list[j]).slot()
}

/// Where in the list a slot's occupant is.
pub open spec fn position_of<B: Slotted>(list: Seq<B>, index: u32) -> Option<int>
    decreases list.len(),
{
    if list.len() == 0 {
        None
    } else {
        match position_of(list.drop_last(), index) {
            Some(position) => Some(position),
            None => if list.last().slot() == index {
                Some(list.len() - 1)
            } else {
                None
            },
        }
    }
}

/// What a slot holds.
pub open spec fn occupant<B: Slotted>(list: Seq<B>, index: u32) -> Option<B> {
    match position_of(list, index) {
        Some(position) => Some(list[position]),
        None => None,
    }
}

/// The list with a slot emptied.
pub open spec fn without_slot<B: Slotted>(list: Seq<B>, index: u32) -> Seq<B>
    decreases list.len(),
{
    if list.len() == 0 {
        list
    } else if list.last().slot() == index {
        without_slot(list.drop_last(), index)
    } else {
        without_slot(list.drop_last(), index).push(list.last())
    }
}

/// The list with a bind in its slot.
pub open spec fn with_bind<B: Slotted>(list: Seq<B>, bind: B) -> Seq<B> {
    match position_of(list, bind.slot()) {
        Some(position) => list.update(position, bind),
        None => list.push(bind),
    }
}

/// The list after one entry of a bind record: `None` empties the slot.
pub open spec fn with_entry<B: Slotted>(list: Seq<B>, index: u32, entry: Option<B>) -> Seq<B> {
    match entry {
        Some(bind) => with_bind(list, bind),
        None => without_slot(list, index),
    }
}

/// The list after the entries of a bind record, in slot order from `first`.
pub open spec fn with_entries<B: Slotted>(list: Seq<B>, first: int, entries: Seq<Option<B>>) -> Seq<
    B,
>
    decreases entries.len(),
{
    if entries.len() == 0 {
        list
    } else {
        with_entry(
            with_entries(list, first, entries.drop_last()),
            (first + entries.len() - 1) as u32,
            entries.last(),
        )
    }
}

pub proof fn lemma_position_of<B: Slotted>(list: Seq<B>, index: u32)
    ensures
        match position_of(list, index) {
            Some(p) => {
                &&& 0 <= p < list.len()
                &&& list[p].slot() == index
                &&& forall|j: int| 0 <= j < p ==> (#[trigger] list[j]).slot() != index
            },
            None => forall|j: int| 0 <= j < list.len() ==> (#[trigger] list[j]).slot() != index,
        },
    decreases list.len(),
{
    if list.len() > 0 {
        lemma_position_of(list.drop_last(), index);
        assert forall|j: int| 0 <= j < list.len() - 1 implies list.drop_last()[j] == #[trigger] list[j] by {}
    }
}

/// The position that first holds a slot is the position found.
proof fn lemma_position_is<B: Slotted>(list: Seq<B>, index: u32, p: int)
    requires
        0 <= p < list.len(),
        list[p].slot() == index,
        forall|j: int| 0 <= j < p ==> (#[trigger] list[j]).slot() != index,
    ensures
        position_of(list, index) == Some(p),
{
    lemma_position_of(list, index);
}

pub proof fn lemma_without_slot<B: Slotted>(list: Seq<B>, index: u32)
    requires
        distinct_slots(list),
    ensures
        distinct_slots(without_slot(list, index)),
        forall|j: int|
            0 <= j < without_slot(list, index).len() ==> (#[trigger] without_slot(list, index)[j]).slot()
                != index && list.contains(without_slot(list, index)[j]),
        forall|j: int|
            0 <= j < list.len() && (#[trigger] list[j]).slot() != index ==> without_slot(
                list,
                index,
            ).contains(list[j]),
    decreases list.len(),
{
    if list.len() > 0 {
        let rest = list.drop_last();
        assert forall|i: int, j: int| 0 <= i < j < rest.len() implies (#[trigger] rest[i]).slot()
            != (#[trigger] rest[j]).slot() by {
            assert(rest[i] == list[i] && rest[j] == list[j]);
        }
        lemma_without_slot(rest, index);
        let kept = without_slot(rest, index);
        let result = without_slot(list, index);
        assert forall|j: int| 0 <= j < kept.len() implies list.contains(#[trigger] kept[j]) by {
            let k = choose|k: int| 0 <= k < rest.len() && rest[k] == kept[j];
            assert(list[k] == kept[j]);
        }
        if list.last().slot() != index {
            assert(list[list.len() - 1] == list.last());
            assert forall|i: int, j: int| 0 <= i < j < result.len() implies (#[trigger] result[i]).slot()
                != (#[trigger] result[j]).slot() by {
                if j == result.len() - 1 {
                    let k = choose|k: int| 0 <= k < rest.len() && rest[k] == kept[i];
                    assert(list[k] == kept[i]);
                } else {
                    assert(kept[i] == result[i] && kept[j] == result[j]);
                }
            }
            assert forall|j: int| 0 <= j < list.len() && (#[trigger] list[j]).slot() != index implies result.contains(
            list[j]) by {
                if j < list.len() - 1 {
                    assert(rest[j] == list[j]);
                    let k = choose|k: int| 0 <= k < kept.len() && kept[k] == rest[j];
                    assert(result[k] == list[j]);
                } else {
                    assert(result[result.len() - 1] == list[j]);
                }
            }
            assert forall|j: int| 0 <= j < result.len() implies (#[trigger] result[j]).slot() != index
                && list.contains(result[j]) by {
                if j < result.len() - 1 {
                    assert(result[j] == kept[j]);
                }
            }
        } else {
            assert forall|j: int| 0 <= j < list.len() && (#[trigger] list[j]).slot() != index implies result.contains(
            list[j]) by {
                assert(rest[j] == list[j]);
            }
        }
    }
}

/// In a list without repeats, the occupant of a slot is the one bind that names
/// it.
proof fn lemma_occupant_is<B: Slotted>(list: Seq<B>, bind: B)
    requires
        distinct_slots(list),
        list.contains(bind),
    ensures
        occupant(list, bind.slot()) == Some(bind),
{
    let k = choose|k: int| 0 <= k < list.len() && list[k] == bind;
    lemma_position_of(list, bind.slot());
    let p = position_of(list, bind.slot())->0;
    if p != k {
        if p < k {
            assert(list[p].slot() != list[k].slot());
        } else {
            assert(list[k].slot() != list[p].slot());
        }
    }
}

/// Emptying a slot empties that slot and no other, and keeps every slot at
/// most once.
pub proof fn lemma_clearing_a_slot<B: Slotted>(list: Seq<B>, index: u32, other: u32)
    requires
        distinct_slots(list),
    ensures
        distinct_slots(without_slot(list, index)),
        occupant(without_slot(list, index), index) is None,
        other != index ==> occupant(without_slot(list, index), other) == occupant(list, other),
{
    lemma_without_slot(list, index);
    let result = without_slot(list, index);
    lemma_position_of(result, index);
    lemma_position_of(list, other);
    lemma_position_of(result, other);
    if other != index {
        match position_of(list, other) {
            Some(p) => {
                assert(result.contains(list[p]));
                lemma_occupant_is(result, list[p]);
            },
            None => {
                if position_of(result, other) is Some {
                    let q = position_of(result, other)->0;
                    assert(list.contains(result[q]));
                }
            },
        }
    }
}

/// A slot reads back the bind last put into it, every other slot is as it was,
/// and no slot occurs twice.
pub proof fn lemma_binding_a_slot<B: Slotted>(list: Seq<B>, bind: B, other: u32)
    requires
        distinct_slots(list),
    ensures
        distinct_slots(with_bind(list, bind)),
        occupant(with_bind(list, bind), bind.slot()) == Some(bind),
        other != bind.slot() ==> occupant(with_bind(list, bind), other) == occupant(list, other),
{
    lemma_position_of(list, bind.slot());
    let result = with_bind(list, bind);
    match position_of(list, bind.slot()) {
        Some(p) => {
            assert forall|i: int, j: int| 0 <= i < j < result.len() implies (#[trigger] result[i]).slot()
                != (#[trigger] result[j]).slot() by {
                assert(list[i].slot() != list[j].slot());
            }
            assert(result[p] == bind);
        },
        None => {
            assert forall|i: int, j: int| 0 <= i < j < result.len() implies (#[trigger] result[i]).slot()
                != (#[trigger] result[j]).slot() by {
                if j < list.len() {
                    assert(list[i].slot() != list[j].slot());
                } else {
                    assert(list[i].slot() != bind.slot());
                }
            }
            assert(result[list.len() as int] == bind);
        },
    }
    assert(result.contains(bind));
    lemma_occupant_is(result, bind);
    if other != bind.slot() {
        lemma_position_of(list, other);
        lemma_position_of(result, other);
        match position_of(list, other) {
            Some(q) => {
                assert(result[q] == list[q]);
                assert(result.contains(list[q]));
                lemma_occupant_is(result, list[q]);
            },
            None => {
                if position_of(result, other) is Some {
                    let q = position_of(result, other)->0;
                    assert(result[q].slot() == other);
                    if q < list.len() {
                        assert(list[q].slot() != other);
                    }
                }
            },
        }
    }
}

/// A bind record's entries keep every slot at most once.
pub proof fn lemma_entries_keep_slots_distinct<B: Slotted>(
    list: Seq<B>,
    first: int,
    entries: Seq<Option<B>>,
)
    requires
        distinct_slots(list),
    ensures
        distinct_slots(with_entries(list, first, entries)),
    decreases entries.len(),
{
    if entries.len() > 0 {
        lemma_entries_keep_slots_distinct(list, first, entries.drop_last());
        let before = with_entries(list, first, entries.drop_last());
        match entries.last() {
            Some(bind) => lemma_binding_a_slot(before, bind, 0),
            None => lemma_clearing_a_slot(
                before,
                (first + entries.len() - 1) as u32,
                0,
            ),
        }
    }
}

/// Finds a slot's place in a list.
pub fn find_slot<B: Slotted>(list: &Vec<B>, index: u32) -> (found: Option<usize>)
    ensures
        match found {
            Some(position) => position_of(list@, index) == Some(position as int),
            None => position_of(list@, index) is None,
        },
{
    let mut i: usize = 0;
    while i < list.len()
        invariant
            i <= list@.len(),
            forall|j: int| 0 <= j < i ==> (#[trigger] list@[j]).slot() != index,
        decreases list.len() - i,
    {
        if list[i].slot_index() == index {
            proof {
                lemma_position_is(list@, index, i as int);
            }
            return Some(i);
        }
        i += 1;
    }
    proof {
        lemma_position_of(list@, index);
    }
    None
}

/// Empties a slot.
pub fn clear_slot<B: Slotted>(list: &mut Vec<B>, index: u32)
    ensures
        final(list)@ == without_slot(old(list)@, index),
{
    let mut kept: Vec<B> = Vec::new();
    let mut i: usize = 0;
    while i < list.len()
        invariant
            list@ == old(list)@,
            i <= list@.len(),
            kept@ == without_slot(list@.take(i as int), index),
        decreases list.len() - i,
    {
        let bind = list[i];
        assert(list@.take(i as int + 1).drop_last() =~= list@.take(i as int));
        if bind.slot_index() != index {
            kept.push(bind);
        }
        i += 1;
    }
    assert(list@.take(i as int) =~= list@);
    *list = kept;
}

/// Puts a bind into its slot.
pub fn put_bind<B: Slotted>(list: &mut Vec<B>, bind: B)
    ensures
        final(list)@ == with_bind(old(list)@, bind),
{
    match find_slot(list, bind.slot_index()) {
        Some(position) => {
            proof {
                lemma_position_of(list@, bind.slot());
            }
            list.set(position, bind);
        },
        None => list.push(bind),
    }
}

/// Applies one entry of a bind record.
pub fn put_entry<B: Slotted>(list: &mut Vec<B>, index: u32, entry: Option<B>)
    ensures
        final(list)@ == with_entry(old(list)@, index, entry),
{
    match entry {
        Some(bind) => put_bind(list, bind),
        None => clear_slot(list, index),
    }
}

/// After a bind record each slot of its run holds the record's own entry for it,
/// or nothing where the entry is empty, and every other slot is as it was.
pub proof fn lemma_entries_occupy_their_slots<B: Slotted>(
    list: Seq<B>,
    first: int,
    entries: Seq<Option<B>>,
    slot: u32,
)
    requires
        distinct_slots(list),
        0 <= first && first + entries.len() <= u32::MAX,
        forall|i: int|
            0 <= i < entries.len() && (#[trigger] entries[i]) is Some ==> entries[i]->0.slot()
                == first + i,
    ensures
        occupant(with_entries(list, first, entries), slot) == if first <= slot < first
            + entries.len() {
            entries[slot - first]
        } else {
            occupant(list, slot)
        },
    decreases entries.len(),
{
    if entries.len() > 0 {
        let earlier = entries.drop_last();
        lemma_entries_keep_slots_distinct(list, first, earlier);
        assert forall|i: int|
            0 <= i < earlier.len() && (#[trigger] earlier[i]) is Some implies earlier[i]->0.slot()
            == first + i by {
            assert(earlier[i] == entries[i]);
        }
        lemma_entries_occupy_their_slots(list, first, earlier, slot);
        let before = with_entries(list, first, earlier);
        let last = (first + entries.len() - 1) as u32;
        assert(entries[entries.len() - 1] == entries.last());
        match entries.last() {
            Some(bind) => lemma_binding_a_slot(before, bind, slot),
            None => lemma_clearing_a_slot(before, last, slot),
        }
    }
}

/// The occupant of a slot is a bind of the list that names the slot, and there
/// is none just where no bind names it.
pub proof fn lemma_an_occupant_is_in_the_list<B: Slotted>(list: Seq<B>, slot: u32)
    ensures
        match occupant(list, slot) {
            Some(bind) => list.contains(bind) && bind.slot() == slot,
            None => forall|i: int| 0 <= i < list.len() ==> (#[trigger] list[i]).slot() != slot,
        },
{
    lemma_position_of(list, slot);
}

} // verus!
