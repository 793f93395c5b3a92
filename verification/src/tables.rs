//! Small keyed tables, and copies of plain vectors.

use vstd::prelude::*;

verus! {

/// A value that a table can be searched by.
pub trait Key: Copy {
    /// Whether two keys are the same key.
    fn same(&self, other: &Self) -> (b: bool)
        ensures
            b == (*self == *other),
    ;
}

impl Key for u32 {
    fn same(&self, other: &Self) -> (b: bool) {
        *self == *other
    }
}

/// The value that the first row under `key` holds.
pub open spec fn answer_of<K, V>(rows: Seq<(K, V)>, key: K) -> Option<V>
    decreases rows.len(),
{
    if rows.len() == 0 {
        None
    } else if rows[0].0 == key {
        Some(rows[0].1)
    } else {
        answer_of(rows.skip(1), key)
    }
}

/// Finds the first row under `key`.
pub fn answer<'a, K: Key, V>(rows: &'a Vec<(K, V)>, key: K) -> (found: Option<&'a V>)
    ensures
        match found {
            Some(value) => answer_of(rows@, key) == Some(*value),
            None => answer_of(rows@, key) is None,
        },
{
    let mut i: usize = 0;
    assert(rows@.skip(0) =~= rows@);
    while i < rows.len()
        invariant
            i <= rows.len(),
            answer_of(rows@, key) == answer_of(rows@.skip(i as int), key),
        decreases rows.len() - i,
    {
        assert(rows@.skip(i as int).skip(1) =~= rows@.skip(i as int + 1));
        if rows[i].0.same(&key) {
            return Some(&rows[i].1);
        }
        i += 1;
    }
    None
}

/// Finds the first row under `key`, and copies it out.
pub fn answer_copied<K: Key, V: Copy>(rows: &Vec<(K, V)>, key: K) -> (found: Option<V>)
    ensures
        found == answer_of(rows@, key),
{
    match answer(rows, key) {
        Some(value) => Some(*value),
        None => None,
    }
}

/// Whether two vectors hold the same elements.
pub fn same_all<T: Key>(one: &Vec<T>, other: &Vec<T>) -> (same: bool)
    ensures
        same == (one@ == other@),
{
    if one.len() != other.len() {
        return false;
    }
    let mut i: usize = 0;
    while i < one.len()
        invariant
            i <= one@.len(),
            one@.len() == other@.len(),
            one@.take(i as int) == other@.take(i as int),
        decreases one.len() - i,
    {
        if !one[i].same(&other[i]) {
            return false;
        }
        assert(one@.take(i as int + 1) =~= one@.take(i as int).push(one@[i as int]));
        assert(other@.take(i as int + 1) =~= other@.take(i as int).push(other@[i as int]));
        i += 1;
    }
    assert(one@.take(i as int) =~= one@);
    assert(other@.take(i as int) =~= other@);
    true
}

/// Appends every element of one vector to another.
pub fn append_all<T: Copy>(to: &mut Vec<T>, from: &Vec<T>)
    ensures
        final(to)@ == old(to)@ + from@,
{
    let mut i: usize = 0;
    while i < from.len()
        invariant
            i <= from@.len(),
            to@ == old(to)@ + from@.take(i as int),
        decreases from.len() - i,
    {
        to.push(from[i]);
        i += 1;
        assert(to@ =~= old(to)@ + from@.take(i as int));
    }
    assert(from@.take(i as int) =~= from@);
}

/// A copy of a vector.
pub fn copy_all<T: Copy>(from: &Vec<T>) -> (to: Vec<T>)
    ensures
        to@ == from@,
{
    let mut to: Vec<T> = Vec::new();
    append_all(&mut to, from);
    to
}

/// A vector's items, the last first.
pub(crate) fn reversed<T>(mut from: Vec<T>) -> (to: Vec<T>)
    ensures
        to@ == from@.reverse(),
{
    let ghost all = from@;
    let mut to: Vec<T> = Vec::new();
    while from.len() > 0
        invariant
            from@.len() <= all.len(),
            from@ == all.take(from@.len() as int),
            to@ == all.skip(from@.len() as int).reverse(),
        decreases from.len(),
    {
        let ghost kept = from@.len() as int;
        if let Some(item) = from.pop() {
            to.push(item);
        }
        assert(from@ =~= all.take(kept - 1));
        assert(to@ =~= all.skip(kept - 1).reverse());
    }
    assert(all.skip(0) =~= all);
    to
}

/// An answer is that of the first row under its question, and there is none just
/// where no row is under it.
pub proof fn lemma_the_first_row_answers<K, V>(rows: Seq<(K, V)>, key: K)
    ensures
        match answer_of(rows, key) {
            Some(value) => exists|i: int|
                0 <= i < rows.len() && (#[trigger] rows[i]).0 == key && rows[i].1 == value
                    && forall|j: int| 0 <= j < i ==> (#[trigger] rows[j]).0 != key,
            None => forall|i: int| 0 <= i < rows.len() ==> (#[trigger] rows[i]).0 != key,
        },
    decreases rows.len(),
{
    if rows.len() > 0 {
        let rest = rows.skip(1);
        assert(rows[0].0 == key || rows[0].0 != key);
        if rows[0].0 != key {
            lemma_the_first_row_answers(rest, key);
            if let Some(value) = answer_of(rest, key) {
                let i = choose|i: int|
                    0 <= i < rest.len() && (#[trigger] rest[i]).0 == key && rest[i].1 == value
                        && forall|j: int| 0 <= j < i ==> (#[trigger] rest[j]).0 != key;
                assert(rows[i + 1] == rest[i]);
                assert forall|j: int| 0 <= j < i + 1 implies (#[trigger] rows[j]).0 != key by {
                    if j > 0 {
                        assert(rest[j - 1] == rows[j]);
                    }
                }
            } else {
                assert forall|i: int| 0 <= i < rows.len() implies (#[trigger] rows[i]).0 != key by {
                    if i > 0 {
                        assert(rest[i - 1] == rows[i]);
                    }
                }
            }
        }
    }
}

} // verus!
