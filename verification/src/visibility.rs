//! Occlusion counts: what the draws of a stream add up to, and where each count
//! is written.

use vstd::prelude::*;

verus! {

/// A sum, at most what a count holds.
pub open spec fn sum(a: u64, b: u64) -> u64 {
    if a + b <= u64::MAX {
        (a + b) as u64
    } else {
        u64::MAX
    }
}

/// Counts after the samples of one more draw: those under one offset add up,
/// and the counts stay in the order of their offsets.
pub open spec fn counts_with(counts: Seq<(u64, u64)>, offset: u64, samples: u64) -> Seq<(u64, u64)>
    decreases counts.len(),
{
    if counts.len() == 0 {
        seq![(offset, samples)]
    } else if counts[0].0 == offset {
        seq![(offset, sum(counts[0].1, samples))] + counts.skip(1)
    } else if counts[0].0 > offset {
        seq![(offset, samples)] + counts
    } else {
        seq![counts[0]] + counts_with(counts.skip(1), offset, samples)
    }
}

/// Whether counts stand in the order of their offsets, one for each.
pub open spec fn ascending(counts: Seq<(u64, u64)>) -> bool {
    forall|i: int, j: int|
        0 <= i < j < counts.len() ==> (#[trigger] counts[i]).0 < (#[trigger] counts[j]).0
}

/// The count under an offset.
pub open spec fn count_at(counts: Seq<(u64, u64)>, offset: u64) -> Option<u64>
    decreases counts.len(),
{
    if counts.len() == 0 {
        None
    } else if counts[0].0 == offset {
        Some(counts[0].1)
    } else {
        count_at(counts.skip(1), offset)
    }
}

proof fn lemma_counts_before(counts: Seq<(u64, u64)>, at: int, offset: u64, samples: u64)
    requires
        0 <= at <= counts.len(),
        forall|j: int| 0 <= j < at ==> (#[trigger] counts[j]).0 < offset,
    ensures
        counts_with(counts, offset, samples) == counts.take(at) + counts_with(
            counts.skip(at),
            offset,
            samples,
        ),
    decreases at,
{
    if at == 0 {
        assert(counts.skip(0) =~= counts);
        assert(counts.take(0) + counts_with(counts, offset, samples) =~= counts_with(
            counts,
            offset,
            samples,
        ));
    } else {
        assert(counts[0].0 < offset);
        let rest = counts.skip(1);
        assert forall|j: int| 0 <= j < at - 1 implies (#[trigger] rest[j]).0 < offset by {
            assert(rest[j] == counts[j + 1]);
        }
        lemma_counts_before(rest, at - 1, offset, samples);
        assert(rest.skip(at - 1) =~= counts.skip(at));
        assert(seq![counts[0]] + rest.take(at - 1) =~= counts.take(at));
        assert(seq![counts[0]] + (rest.take(at - 1) + counts_with(
            counts.skip(at),
            offset,
            samples,
        )) =~= counts.take(at) + counts_with(counts.skip(at), offset, samples));
    }
}

/// Adds the samples of a draw to the count under its offset.
pub fn add_samples(counts: &mut Vec<(u64, u64)>, offset: u64, samples: u64)
    ensures
        final(counts)@ == counts_with(old(counts)@, offset, samples),
{
    let ghost before = counts@;
    let mut i: usize = 0;
    while i < counts.len()
        invariant
            before == old(counts)@,
            counts@ == before,
            i <= counts@.len(),
            forall|j: int| 0 <= j < i ==> (#[trigger] counts@[j]).0 < offset,
        decreases counts.len() - i,
    {
        let (at, held) = counts[i];
        if at == offset {
            proof {
                lemma_counts_before(before, i as int, offset, samples);
                assert(before.skip(i as int)[0] == before[i as int]);
                assert(before.skip(i as int).skip(1) =~= before.skip(i as int + 1));
            }
            counts.set(i, (offset, held.saturating_add(samples)));
            assert(counts@ =~= counts_with(before, offset, samples));
            return;
        }
        if at > offset {
            proof {
                lemma_counts_before(before, i as int, offset, samples);
                assert(before.skip(i as int)[0] == before[i as int]);
            }
            counts.insert(i, (offset, samples));
            assert(counts@ =~= counts_with(before, offset, samples));
            return;
        }
        i += 1;
    }
    proof {
        lemma_counts_before(before, i as int, offset, samples);
        assert(before.skip(i as int) =~= Seq::empty());
    }
    counts.push((offset, samples));
    assert(counts@ =~= counts_with(before, offset, samples));
}

/// The samples of draws add up under their offset, leave every other count as
/// it is, and keep the order.
pub proof fn lemma_samples_add_up(
    counts: Seq<(u64, u64)>,
    offset: u64,
    samples: u64,
    other: u64,
)
    requires
        ascending(counts),
    ensures
        ascending(counts_with(counts, offset, samples)),
        count_at(counts_with(counts, offset, samples), offset) == Some(
            match count_at(counts, offset) {
                Some(held) => sum(held, samples),
                None => samples,
            },
        ),
        other != offset ==> count_at(counts_with(counts, offset, samples), other) == count_at(
            counts,
            other,
        ),
        forall|j: int|
            0 <= j < counts_with(counts, offset, samples).len() ==> ({
                let row = #[trigger] counts_with(counts, offset, samples)[j];
                row.0 == offset || exists|k: int|
                    0 <= k < counts.len() && (#[trigger] counts[k]).0 == row.0
            }),
    decreases counts.len(),
{
    let after = counts_with(counts, offset, samples);
    if counts.len() == 0 {
        assert(after.skip(1) =~= counts);
        assert(after[0] == (offset, samples));
    } else {
        let rest = counts.skip(1);
        assert(ascending(rest)) by {
            assert forall|i: int, j: int| 0 <= i < j < rest.len() implies (#[trigger] rest[i]).0 < (
            #[trigger] rest[j]).0 by {
                assert(rest[i] == counts[i + 1]);
                assert(rest[j] == counts[j + 1]);
            }
        }
        if counts[0].0 == offset {
            assert(after.skip(1) =~= rest);
            assert forall|i: int, j: int| 0 <= i < j < after.len() implies (#[trigger] after[i]).0
                < (#[trigger] after[j]).0 by {
                assert(after[i].0 == counts[i].0);
                assert(after[j].0 == counts[j].0);
            }
            assert forall|j: int| 0 <= j < after.len() implies ({
                let row = #[trigger] after[j];
                row.0 == offset || exists|k: int|
                    0 <= k < counts.len() && (#[trigger] counts[k]).0 == row.0
            }) by {
                assert(after[j].0 == counts[j].0);
            }
        } else if counts[0].0 > offset {
            assert(after.skip(1) =~= counts);
            lemma_absent_below(counts, offset);
            assert forall|i: int, j: int| 0 <= i < j < after.len() implies (#[trigger] after[i]).0
                < (#[trigger] after[j]).0 by {
                assert(after[j] == counts[j - 1]);
                if i > 0 {
                    assert(after[i] == counts[i - 1]);
                } else if j > 1 {
                    assert(counts[0].0 < counts[j - 1].0);
                }
            }
            assert forall|j: int| 0 <= j < after.len() implies ({
                let row = #[trigger] after[j];
                row.0 == offset || exists|k: int|
                    0 <= k < counts.len() && (#[trigger] counts[k]).0 == row.0
            }) by {
                if j > 0 {
                    assert(after[j] == counts[j - 1]);
                }
            }
        } else {
            lemma_samples_add_up(rest, offset, samples, other);
            let later = counts_with(rest, offset, samples);
            assert(after.skip(1) =~= later);
            assert forall|j: int| 0 <= j < later.len() implies counts[0].0 < (
            #[trigger] later[j]).0 by {
                if later[j].0 != offset {
                    let k = choose|k: int|
                        0 <= k < rest.len() && (#[trigger] rest[k]).0 == later[j].0;
                    assert(rest[k] == counts[k + 1]);
                }
            }
            assert forall|i: int, j: int| 0 <= i < j < after.len() implies (#[trigger] after[i]).0
                < (#[trigger] after[j]).0 by {
                assert(after[j] == later[j - 1]);
                if i > 0 {
                    assert(after[i] == later[i - 1]);
                }
            }
            assert forall|j: int| 0 <= j < after.len() implies ({
                let row = #[trigger] after[j];
                row.0 == offset || exists|k: int|
                    0 <= k < counts.len() && (#[trigger] counts[k]).0 == row.0
            }) by {
                if j == 0 {
                    assert(counts[0].0 == after[0].0);
                } else {
                    assert(after[j] == later[j - 1]);
                    if later[j - 1].0 != offset {
                        let k = choose|k: int|
                            0 <= k < rest.len() && (#[trigger] rest[k]).0 == later[j - 1].0;
                        assert(rest[k] == counts[k + 1]);
                    }
                }
            }
        }
    }
}

proof fn lemma_absent_below(counts: Seq<(u64, u64)>, offset: u64)
    requires
        forall|j: int| 0 <= j < counts.len() ==> (#[trigger] counts[j]).0 > offset || counts.len()
            > 0 && counts[0].0 > offset && counts[j].0 >= counts[0].0,
    ensures
        count_at(counts, offset) is None,
    decreases counts.len(),
{
    if counts.len() > 0 {
        assert(counts[0].0 > offset);
        let rest = counts.skip(1);
        assert forall|j: int| 0 <= j < rest.len() implies (#[trigger] rest[j]).0 > offset by {
            assert(rest[j] == counts[j + 1]);
        }
        lemma_absent_below(rest, offset);
    }
}

/// Why the counts of a stream cannot be written at all.
#[derive(Clone, Copy, Debug, PartialEq, Eq, Structural)]
pub enum VisibilityRefusal {
    /// The pass names no buffer for them.
    NoBuffer,
    /// The buffer that the pass names does not resolve, for the reason it
    /// numbers.
    Unresolved(u32),
}

/// One count: where it is written, or that it does not fit.
#[derive(Clone, Copy, Debug, PartialEq, Eq, Structural)]
#[allow(inconsistent_fields)]
pub enum VisibilityWrite {
    Write { address: u64, samples: u64 },
    PastBuffer { offset: u64, samples: u64 },
}

/// What a buffer resolves to.
#[derive(Clone, Copy, Debug, PartialEq, Eq, Structural)]
pub enum BufferSpan {
    Resolved { base: u64, size: u64 },
    Refused(u32),
}

/// The bytes that one count takes.
pub const COUNT_BYTES: u64 = 8;

/// Where a count is written. A count that would reach past its buffer is never
/// written, and never lost in silence.
pub open spec fn count_write(base: u64, size: u64, row: (u64, u64)) -> VisibilityWrite {
    if row.0 + COUNT_BYTES <= size {
        VisibilityWrite::Write { address: sum(base, row.0), samples: row.1 }
    } else {
        VisibilityWrite::PastBuffer { offset: row.0, samples: row.1 }
    }
}

/// Where the counts of a stream are written.
pub open spec fn visibility_writes(counts: Seq<(u64, u64)>, buffer_ref: u32, span: BufferSpan)
    -> Result<Seq<VisibilityWrite>, VisibilityRefusal> {
    if counts.len() == 0 {
        Ok(Seq::empty())
    } else if buffer_ref == 0 {
        Err(VisibilityRefusal::NoBuffer)
    } else {
        match span {
            BufferSpan::Refused(reason) => Err(VisibilityRefusal::Unresolved(reason)),
            BufferSpan::Resolved { base, size } => Ok(
                Seq::new(counts.len(), |i: int| count_write(base, size, counts[i])),
            ),
        }
    }
}

/// Where the counts of a stream are written.
pub fn write_visibility_results(counts: &Vec<(u64, u64)>, buffer_ref: u32, span: BufferSpan) -> (
    result: Result<Vec<VisibilityWrite>, VisibilityRefusal>)
    ensures
        match result {
            Ok(writes) => visibility_writes(counts@, buffer_ref, span) == Ok::<
                Seq<VisibilityWrite>,
                VisibilityRefusal,
            >(writes@),
            Err(refusal) => visibility_writes(counts@, buffer_ref, span) == Err::<
                Seq<VisibilityWrite>,
                VisibilityRefusal,
            >(refusal),
        },
{
    let mut writes: Vec<VisibilityWrite> = Vec::new();
    if counts.len() == 0 {
        assert(writes@ =~= Seq::empty());
        return Ok(writes);
    }
    if buffer_ref == 0 {
        return Err(VisibilityRefusal::NoBuffer);
    }
    let (base, size) = match span {
        BufferSpan::Refused(reason) => {
            return Err(VisibilityRefusal::Unresolved(reason));
        },
        BufferSpan::Resolved { base, size } => (base, size),
    };
    let mut i: usize = 0;
    while i < counts.len()
        invariant
            i <= counts@.len(),
            writes@.len() == i,
            forall|j: int| 0 <= j < i ==> #[trigger] writes@[j] == count_write(base, size, counts@[j]),
        decreases counts.len() - i,
    {
        let (offset, samples) = counts[i];
        let fits = match offset.checked_add(COUNT_BYTES) {
            Some(end) => end <= size,
            None => false,
        };
        if fits {
            writes.push(VisibilityWrite::Write { address: base.saturating_add(offset), samples });
        } else {
            writes.push(VisibilityWrite::PastBuffer { offset, samples });
        }
        i += 1;
    }
    assert(writes@ =~= Seq::new(counts@.len(), |i: int| count_write(base, size, counts@[i])));
    Ok(writes)
}

/// Every count is either written inside its buffer or reported: none is lost in
/// silence.
pub proof fn lemma_no_count_is_lost(counts: Seq<(u64, u64)>, base: u64, size: u64, at: int)
    requires
        0 <= at < counts.len(),
        base + size <= u64::MAX,
    ensures
        match count_write(base, size, counts[at]) {
            VisibilityWrite::Write { address, samples } => {
                &&& samples == counts[at].1
                &&& base <= address
                &&& address + COUNT_BYTES <= base + size
            },
            VisibilityWrite::PastBuffer { offset, samples } => {
                &&& offset == counts[at].0
                &&& samples == counts[at].1
                &&& offset + COUNT_BYTES > size
            },
        },
{
}

/// Each count of a stream is written at its own offset of the buffer, in order;
/// where the buffer ends before it, it is reported instead.
pub proof fn lemma_a_count_is_written_at_its_offset(
    counts: Seq<(u64, u64)>,
    buffer_ref: u32,
    span: BufferSpan,
    i: int,
)
    requires
        0 <= i < counts.len(),
    ensures
        match (visibility_writes(counts, buffer_ref, span), span) {
            (Ok(writes), BufferSpan::Resolved { base, size }) => {
                &&& buffer_ref != 0
                &&& writes.len() == counts.len()
                &&& match writes[i] {
                    VisibilityWrite::Write { address, samples } => {
                        &&& samples == counts[i].1
                        &&& counts[i].0 + 8 <= size
                        &&& base + counts[i].0 <= u64::MAX ==> address == base + counts[i].0
                    },
                    VisibilityWrite::PastBuffer { offset, samples } => {
                        &&& offset == counts[i].0 && samples == counts[i].1
                        &&& counts[i].0 + 8 > size
                    },
                }
            },
            (Ok(_), BufferSpan::Refused(_)) => false,
            (Err(VisibilityRefusal::NoBuffer), _) => buffer_ref == 0,
            (Err(VisibilityRefusal::Unresolved(reason)), span) => buffer_ref != 0 && span
                == BufferSpan::Refused(reason),
        },
{
}

/// Sums are exact as long as a count holds them.
pub proof fn lemma_a_sum_is_exact(a: u64, b: u64)
    ensures
        a + b <= u64::MAX ==> sum(a, b) == a + b,
        a + b > u64::MAX ==> sum(a, b) == u64::MAX,
{
}

} // verus!
