//! Marks on the draws of a submission: where each render encoder begins and
//! ends, and which of its attachments it also reads.

use vstd::prelude::*;

use crate::attachments::ResolvedRenderAttachment;
use crate::bindings::RenderBindingClass;
use crate::draw::{RenderDispatchView, ResolvedRenderDispatch};
use crate::encoder_state::{EncoderBoundary, SegmentKind};
use crate::exec_streams::{ResolvedExecSegment, ResolvedExecStream};
use crate::projection::{operations_view, OperationView, ProjectedReplacementOperation};

verus! {

/// The operations of segments, one segment behind the other.
pub open spec fn segments_operations(
    segments: Seq<ResolvedExecSegment<ProjectedReplacementOperation>>,
) -> Seq<OperationView>
    decreases segments.len(),
{
    if segments.len() == 0 {
        Seq::empty()
    } else {
        segments_operations(segments.drop_last()) + operations_view(segments.last().operations@)
    }
}

/// The operations of a submission, one stream behind the other.
pub open spec fn submission_operations(
    streams: Seq<ResolvedExecStream<ProjectedReplacementOperation>>,
) -> Seq<OperationView>
    decreases streams.len(),
{
    if streams.len() == 0 {
        Seq::empty()
    } else {
        submission_operations(streams.drop_last()) + segments_operations(streams.last().segments@)
    }
}

/// Whether an operation begins a render encoder.
pub open spec fn begins_render(operation: OperationView) -> bool {
    operation == OperationView::EncoderBoundary(EncoderBoundary::Begin(SegmentKind::Render))
}

/// Whether an operation ends a render encoder.
pub open spec fn ends_render(operation: OperationView) -> bool {
    operation == OperationView::EncoderBoundary(EncoderBoundary::End(SegmentKind::Render))
}

/// The last end of a render encoder before `at`.
pub open spec fn end_before(operations: Seq<OperationView>, at: int) -> Option<int>
    decreases at,
{
    if at <= 0 || at > operations.len() {
        None
    } else if begins_render(operations[at - 1]) || ends_render(operations[at - 1]) {
        Some(at - 1)
    } else {
        end_before(operations, at - 1)
    }
}

/// The first end of a render encoder from `at` on.
pub open spec fn end_from(operations: Seq<OperationView>, at: int) -> Option<int>
    decreases operations.len() - at,
{
    if at < 0 || at >= operations.len() {
        None
    } else if begins_render(operations[at]) || ends_render(operations[at]) {
        Some(at)
    } else {
        end_from(operations, at + 1)
    }
}

/// The beginning and the end of the render encoder around an operation, where
/// it has both.
pub open spec fn encoder_around(operations: Seq<OperationView>, at: int) -> Option<(int, int)> {
    match (end_before(operations, at), end_from(operations, at)) {
        (Some(begin), Some(end)) => if begins_render(operations[begin]) && ends_render(
            operations[end],
        ) {
            Some((begin, end))
        } else {
            None
        },
        _ => None,
    }
}

/// Whether a draw lies between two operations.
pub open spec fn draw_between(operations: Seq<OperationView>, from: int, to: int) -> bool {
    exists|i: int| from < i < to && (#[trigger] operations[i]) is Render
}

/// Whether a draw samples a backing.
pub open spec fn samples(draw: RenderDispatchView, backing: u64) -> bool {
    exists|i: int|
        0 <= i < draw.resources.len() && (#[trigger] draw.resources[i]).class
            == RenderBindingClass::SampledImage && draw.resources[i].backing == backing
}

/// Whether a draw reads a backing as a colour input.
pub open spec fn reads_input(draw: RenderDispatchView, backing: u64) -> bool {
    exists|i: int|
        0 <= i < draw.attachments.len() && (#[trigger] draw.attachments[i]).input_attachment
            && draw.attachments[i].target.backing == backing
}

/// Whether a draw between two operations samples a backing.
pub open spec fn sampled_between(
    operations: Seq<OperationView>,
    from: int,
    to: int,
    backing: u64,
) -> bool {
    exists|i: int|
        from < i < to && match #[trigger] operations[i] {
            OperationView::Render(draw) => samples(draw, backing),
            _ => false,
        }
}

/// Whether a draw between two operations reads a backing as a colour input.
pub open spec fn input_between(
    operations: Seq<OperationView>,
    from: int,
    to: int,
    backing: u64,
) -> bool {
    exists|i: int|
        from < i < to && match #[trigger] operations[i] {
            OperationView::Render(draw) => reads_input(draw, backing),
            _ => false,
        }
}

/// The attachments of a draw in an encoder: a read by any draw of the encoder
/// is a read for all of them.
pub open spec fn marked_attachments(
    operations: Seq<OperationView>,
    from: int,
    to: int,
    attachments: Seq<ResolvedRenderAttachment>,
) -> Seq<ResolvedRenderAttachment> {
    Seq::new(
        attachments.len(),
        |i: int|
            ResolvedRenderAttachment {
                feedback_loop: sampled_between(
                    operations,
                    from,
                    to,
                    attachments[i].target.backing,
                ),
                input_attachment: input_between(
                    operations,
                    from,
                    to,
                    attachments[i].target.backing,
                ),
                ..attachments[i]
            },
    )
}

/// What a submission's operation becomes: a draw in an encoder that both
/// begins and ends is marked, and nothing else changes.
pub open spec fn marked(operations: Seq<OperationView>, at: int) -> OperationView {
    match (operations[at], encoder_around(operations, at)) {
        (OperationView::Render(draw), Some((begin, end))) => OperationView::Render(
            RenderDispatchView {
                begins_encoder: !draw_between(operations, begin, at),
                ends_encoder: !draw_between(operations, at, end),
                attachments: marked_attachments(operations, begin, end, draw.attachments),
                ..draw
            },
        ),
        (operation, _) => operation,
    }
}

/// What a submission's operations become.
pub open spec fn all_marked(operations: Seq<OperationView>) -> Seq<OperationView> {
    Seq::new(operations.len(), |i: int| marked(operations, i))
}

/// The draws of one encoder that both begins and ends.
struct EncoderDraws {
    begin: usize,
    end: usize,
    first: usize,
    last: usize,
    sampled: Vec<u64>,
    input_read: Vec<u64>,
}

spec fn describes(encoder: EncoderDraws, operations: Seq<OperationView>) -> bool {
    &&& encoder.begin < encoder.end < operations.len()
    &&& forall|at: int|
        encoder.begin < at < encoder.end && (#[trigger] operations[at]) is Render ==> {
            &&& draw_between(operations, encoder.begin as int, at) <==> encoder.first != at
            &&& draw_between(operations, at, encoder.end as int) <==> encoder.last != at
        }
    &&& forall|backing: u64| #[trigger]
        encoder.sampled@.contains(backing) <==> sampled_between(
            operations,
            encoder.begin as int,
            encoder.end as int,
            backing,
        )
    &&& forall|backing: u64| #[trigger]
        encoder.input_read@.contains(backing) <==> input_between(
            operations,
            encoder.begin as int,
            encoder.end as int,
            backing,
        )
}

spec fn flat_view(flat: Seq<&ProjectedReplacementOperation>) -> Seq<OperationView> {
    Seq::new(flat.len(), |i: int| (*flat[i])@)
}

fn flatten<'a>(streams: &'a Vec<ResolvedExecStream<ProjectedReplacementOperation>>) -> (flat: Vec<
    &'a ProjectedReplacementOperation,
>)
    ensures
        flat_view(flat@) == submission_operations(streams@),
{
    let mut flat: Vec<&'a ProjectedReplacementOperation> = Vec::new();
    assert(flat_view(flat@) =~= submission_operations(streams@.take(0)));
    let mut i: usize = 0;
    while i < streams.len()
        invariant
            i <= streams@.len(),
            flat_view(flat@) == submission_operations(streams@.take(i as int)),
        decreases streams.len() - i,
    {
        let segments = &streams[i].segments;
        let ghost earlier = flat_view(flat@);
        assert(flat_view(flat@) =~= earlier + segments_operations(segments@.take(0)));
        let mut j: usize = 0;
        while j < segments.len()
            invariant
                j <= segments@.len(),
                flat_view(flat@) == earlier + segments_operations(segments@.take(j as int)),
            decreases segments.len() - j,
        {
            let operations = &segments[j].operations;
            let ghost before = flat_view(flat@);
            assert(flat_view(flat@) =~= before + operations_view(operations@).take(0));
            let mut k: usize = 0;
            while k < operations.len()
                invariant
                    k <= operations@.len(),
                    flat_view(flat@) == before + operations_view(operations@).take(k as int),
                decreases operations.len() - k,
            {
                let ghost held = flat@;
                flat.push(&operations[k]);
                assert(flat_view(flat@) =~= flat_view(held).push(operations@[k as int]@));
                assert(operations_view(operations@).take(k as int + 1) =~= operations_view(
                    operations@,
                ).take(k as int).push(operations@[k as int]@));
                assert(flat_view(flat@) =~= before + operations_view(operations@).take(
                    k as int + 1,
                ));
                k += 1;
            }
            assert(operations_view(operations@).take(k as int) =~= operations_view(operations@));
            assert(segments@.take(j as int + 1).drop_last() =~= segments@.take(j as int));
            assert(flat_view(flat@) =~= earlier + segments_operations(
                segments@.take(j as int + 1),
            ));
            j += 1;
        }
        assert(segments@.take(j as int) =~= segments@);
        assert(streams@.take(i as int + 1).drop_last() =~= streams@.take(i as int));
        i += 1;
    }
    assert(streams@.take(i as int) =~= streams@);
    flat
}

fn holds(backings: &Vec<u64>, backing: u64) -> (found: bool)
    ensures
        found == backings@.contains(backing),
{
    let mut i: usize = 0;
    while i < backings.len()
        invariant
            i <= backings@.len(),
            forall|j: int| 0 <= j < i ==> backings@[j] != backing,
        decreases backings.len() - i,
    {
        if backings[i] == backing {
            return true;
        }
        i += 1;
    }
    false
}

fn note(backings: &mut Vec<u64>, backing: u64)
    ensures
        forall|other: u64| #[trigger]
            final(backings)@.contains(other) <==> old(backings)@.contains(other) || other
                == backing,
{
    if !holds(backings, backing) {
        let ghost before = backings@;
        backings.push(backing);
        assert(backings@.last() == backing);
        assert forall|other: u64| #[trigger] backings@.contains(other) <==> before.contains(other)
            || other == backing by {
            if before.contains(other) {
                let at = choose|at: int| 0 <= at < before.len() && before[at] == other;
                assert(backings@[at] == other);
            }
        }
    }
}

fn note_sampled(draw: &ResolvedRenderDispatch, backings: &mut Vec<u64>)
    ensures
        forall|backing: u64| #[trigger]
            final(backings)@.contains(backing) <==> old(backings)@.contains(backing) || samples(
                draw@,
                backing,
            ),
{
    let mut i: usize = 0;
    while i < draw.resources.len()
        invariant
            i <= draw.resources@.len(),
            forall|backing: u64| #[trigger]
                backings@.contains(backing) <==> old(backings)@.contains(backing) || exists|j: int|
                    0 <= j < i && (#[trigger] draw@.resources[j]).class
                        == RenderBindingClass::SampledImage && draw@.resources[j].backing
                        == backing,
        decreases draw.resources.len() - i,
    {
        let resource = draw.resources[i];
        assert(draw@.resources[i as int] == resource);
        if resource.class == RenderBindingClass::SampledImage {
            note(backings, resource.backing);
        }
        i += 1;
    }
}

fn note_inputs(draw: &ResolvedRenderDispatch, backings: &mut Vec<u64>)
    ensures
        forall|backing: u64| #[trigger]
            final(backings)@.contains(backing) <==> old(backings)@.contains(backing)
                || reads_input(draw@, backing),
{
    let mut i: usize = 0;
    while i < draw.attachments.len()
        invariant
            i <= draw.attachments@.len(),
            forall|backing: u64| #[trigger]
                backings@.contains(backing) <==> old(backings)@.contains(backing) || exists|j: int|
                    0 <= j < i && (#[trigger] draw@.attachments[j]).input_attachment
                        && draw@.attachments[j].target.backing == backing,
        decreases draw.attachments.len() - i,
    {
        let attachment = draw.attachments[i];
        assert(draw@.attachments[i as int] == attachment);
        if attachment.input_attachment {
            note(backings, attachment.target.backing);
        }
        i += 1;
    }
}

fn gather(flat: &Vec<&ProjectedReplacementOperation>, begin: usize, end: usize) -> (encoder:
    EncoderDraws)
    requires
        begin < end < flat@.len(),
    ensures
        encoder.begin == begin,
        encoder.end == end,
        describes(encoder, flat_view(flat@)),
{
    let ghost operations = flat_view(flat@);
    let mut first: usize = end;
    let mut last: usize = begin;
    let mut sampled: Vec<u64> = Vec::new();
    let mut input_read: Vec<u64> = Vec::new();
    let mut i: usize = begin + 1;
    while i < end
        invariant
            operations == flat_view(flat@),
            begin < i <= end < flat@.len(),
            begin <= last < i,
            first == end ==> !draw_between(operations, begin as int, i as int),
            first != end ==> begin < first < i && operations[first as int] is Render
                && !draw_between(operations, begin as int, first as int),
            last != begin ==> operations[last as int] is Render,
            !draw_between(operations, last as int, i as int),
            forall|backing: u64| #[trigger]
                sampled@.contains(backing) <==> sampled_between(
                    operations,
                    begin as int,
                    i as int,
                    backing,
                ),
            forall|backing: u64| #[trigger]
                input_read@.contains(backing) <==> input_between(
                    operations,
                    begin as int,
                    i as int,
                    backing,
                ),
        decreases end - i,
    {
        let ghost sampled_before = sampled@;
        let ghost input_before = input_read@;
        assert(operations[i as int] == (*flat@[i as int])@);
        if let ProjectedReplacementOperation::Render(draw) = flat[i] {
            if first == end {
                first = i;
            }
            last = i;
            note_sampled(draw, &mut sampled);
            note_inputs(draw, &mut input_read);
        }
        proof {
            let at = i as int;
            assert forall|backing: u64| #[trigger]
                sampled@.contains(backing) <==> sampled_between(
                    operations,
                    begin as int,
                    at + 1,
                    backing,
                ) by {
                assert(sampled_before.contains(backing) <==> sampled_between(
                    operations,
                    begin as int,
                    at,
                    backing,
                ));
                if sampled_between(operations, begin as int, at, backing) {
                    let j = choose|j: int|
                        begin < j < at && match #[trigger] operations[j] {
                            OperationView::Render(draw) => samples(draw, backing),
                            _ => false,
                        };
                    assert(begin < j < at + 1);
                }
            }
            assert forall|backing: u64| #[trigger]
                input_read@.contains(backing) <==> input_between(
                    operations,
                    begin as int,
                    at + 1,
                    backing,
                ) by {
                assert(input_before.contains(backing) <==> input_between(
                    operations,
                    begin as int,
                    at,
                    backing,
                ));
                if input_between(operations, begin as int, at, backing) {
                    let j = choose|j: int|
                        begin < j < at && match #[trigger] operations[j] {
                            OperationView::Render(draw) => reads_input(draw, backing),
                            _ => false,
                        };
                    assert(begin < j < at + 1);
                }
            }
        }
        i += 1;
    }
    let encoder = EncoderDraws { begin, end, first, last, sampled, input_read };
    assert forall|at: int|
        begin < at < end && (#[trigger] operations[at]) is Render implies {
        &&& draw_between(operations, begin as int, at) <==> first != at
        &&& draw_between(operations, at, end as int) <==> last != at
    } by {
        if first != at {
            assert(begin < first < at);
            assert(operations[first as int] is Render);
        }
        if last != at {
            assert(at < last < end);
            assert(operations[last as int] is Render);
        }
    }
    encoder
}

proof fn lemma_nothing_ends_up_to(operations: Seq<OperationView>, at: int, to: int)
    requires
        0 <= at <= to <= operations.len(),
        match end_from(operations, at) {
            Some(end) => end >= to,
            None => true,
        },
    ensures
        end_before(operations, to) == end_before(operations, at),
    decreases to - at,
{
    if at < to {
        lemma_nothing_ends_up_to(operations, at + 1, to);
    }
}

proof fn lemma_nothing_ends_since(operations: Seq<OperationView>, begin: int, at: int, to: int)
    requires
        0 <= begin < at <= to <= operations.len(),
        end_before(operations, to) == Some(begin),
    ensures
        end_before(operations, at) == Some(begin),
        end_from(operations, at) == end_from(operations, to),
    decreases to - at,
{
    if at < to {
        lemma_nothing_ends_since(operations, begin, at, to - 1);
    }
}

proof fn lemma_end_before_is_earlier(operations: Seq<OperationView>, at: int)
    ensures
        match end_before(operations, at) {
            Some(end) => 0 <= end < at <= operations.len(),
            None => true,
        },
    decreases at,
{
    if 0 < at <= operations.len() {
        lemma_end_before_is_earlier(operations, at - 1);
    }
}

spec fn settled(
    operations: Seq<OperationView>,
    encoders: Seq<EncoderDraws>,
    around: Option<usize>,
    at: int,
    seen: int,
) -> bool {
    match around {
        Some(encoder) => {
            &&& encoder < encoders.len()
            &&& describes(encoders[encoder as int], operations)
            &&& encoder_around(operations, at) == Some(
                (encoders[encoder as int].begin as int, encoders[encoder as int].end as int),
            )
        },
        None => operations[at] is Render ==> match end_from(operations, at) {
            Some(end) => end < seen ==> encoder_around(operations, at) is None,
            None => true,
        },
    }
}

fn find_encoders(flat: &Vec<&ProjectedReplacementOperation>) -> (found: (
    Vec<EncoderDraws>,
    Vec<Option<usize>>,
))
    ensures
        found.1@.len() == flat@.len(),
        forall|at: int|
            0 <= at < flat@.len() ==> settled(
                flat_view(flat@),
                found.0@,
                #[trigger] found.1@[at],
                at,
                flat@.len() as int,
            ),
{
    let ghost operations = flat_view(flat@);
    let mut encoders: Vec<EncoderDraws> = Vec::new();
    let mut around: Vec<Option<usize>> = Vec::new();
    let mut open: Option<usize> = None;
    let mut i: usize = 0;
    while i < flat.len()
        invariant
            operations == flat_view(flat@),
            i <= flat@.len(),
            around@.len() == i,
            match open {
                Some(begin) => begin < i && end_before(operations, i as int) == Some(begin as int)
                    && begins_render(operations[begin as int]),
                None => match end_before(operations, i as int) {
                    Some(begin) => !begins_render(operations[begin]),
                    None => true,
                },
            },
            forall|at: int|
                0 <= at < i ==> settled(
                    operations,
                    encoders@,
                    #[trigger] around@[at],
                    at,
                    i as int,
                ),
        decreases flat.len() - i,
    {
        let ghost around_before = around@;
        let ghost encoders_before = encoders@;
        let ghost open_before = open;
        assert(operations[i as int] == (*flat@[i as int])@);
        let closes = match flat[i] {
            ProjectedReplacementOperation::EncoderBoundary(
                EncoderBoundary::Begin(SegmentKind::Render),
            ) => {
                open = Some(i);
                None
            },
            ProjectedReplacementOperation::EncoderBoundary(
                EncoderBoundary::End(SegmentKind::Render),
            ) => {
                let closed = open;
                open = None;
                closed
            },
            _ => None,
        };
        proof {
            lemma_end_before_is_earlier(operations, i as int);
        }
        if let Some(begin) = closes {
            let encoder: usize = encoders.len();
            encoders.push(gather(flat, begin, i));
            let mut at: usize = begin + 1;
            while at < i
                invariant
                    around@.len() == i,
                    begin < at <= i,
                    forall|k: int|
                        0 <= k < i ==> #[trigger] around@[k] == if begin < k < at {
                            Some(encoder)
                        } else {
                            around_before[k]
                        },
                decreases i - at,
            {
                around.set(at, Some(encoder));
                at += 1;
            }
        }
        around.push(None);
        proof {
            let here = i as int;
            assert forall|at: int| 0 <= at < here + 1 implies settled(
                operations,
                encoders@,
                #[trigger] around@[at],
                at,
                here + 1,
            ) by {
                if at < here {
                    assert(settled(operations, encoders_before, around_before[at], at, here));
                    if let Some(begin) = closes {
                        if begin < at {
                            lemma_nothing_ends_since(operations, begin as int, at, here);
                            assert(end_from(operations, here) == Some(here));
                        }
                    }
                    if around@[at] is None && operations[at] is Render {
                        if end_from(operations, at) == Some(here) {
                            lemma_nothing_ends_up_to(operations, at, here);
                            lemma_end_before_is_earlier(operations, at);
                        }
                    }
                } else {
                    assert(operations[here] is Render ==> end_from(operations, here) == end_from(
                        operations,
                        here + 1,
                    ));
                    lemma_end_from_is_later(operations, here + 1);
                }
            }
        }
        i += 1;
    }
    (encoders, around)
}

proof fn lemma_end_from_is_later(operations: Seq<OperationView>, at: int)
    ensures
        match end_from(operations, at) {
            Some(end) => 0 <= at <= end < operations.len(),
            None => true,
        },
    decreases operations.len() - at,
{
    if 0 <= at < operations.len() {
        lemma_end_from_is_later(operations, at + 1);
    }
}

fn mark_draw(draw: &mut ResolvedRenderDispatch, encoder: &EncoderDraws, at: usize)
    ensures
        final(draw)@ == draw_marked(old(draw)@, *encoder, at as int),
{
    let ghost before = draw.attachments@;
    draw.begins_encoder = encoder.first == at;
    draw.ends_encoder = encoder.last == at;
    let mut i: usize = 0;
    while i < draw.attachments.len()
        invariant
            i <= draw.attachments@.len(),
            draw.attachments@.len() == before.len(),
            draw@ == (RenderDispatchView {
                begins_encoder: encoder.first == at,
                ends_encoder: encoder.last == at,
                attachments: draw.attachments@,
                ..old(draw)@
            }),
            forall|j: int| i <= j < before.len() ==> #[trigger] draw.attachments@[j] == before[j],
            forall|j: int|
                0 <= j < i ==> #[trigger] draw.attachments@[j] == (ResolvedRenderAttachment {
                    feedback_loop: encoder.sampled@.contains(before[j].target.backing),
                    input_attachment: encoder.input_read@.contains(before[j].target.backing),
                    ..before[j]
                }),
        decreases draw.attachments.len() - i,
    {
        let mut attachment = draw.attachments[i];
        attachment.feedback_loop = holds(&encoder.sampled, attachment.target.backing);
        attachment.input_attachment = holds(&encoder.input_read, attachment.target.backing);
        draw.attachments.set(i, attachment);
        i += 1;
    }
    assert(draw.attachments@ =~= Seq::new(
        before.len(),
        |i: int|
            ResolvedRenderAttachment {
                feedback_loop: encoder.sampled@.contains(before[i].target.backing),
                input_attachment: encoder.input_read@.contains(before[i].target.backing),
                ..before[i]
            },
    ));
}

/// What `mark_draw` makes of a draw.
spec fn draw_marked(draw: RenderDispatchView, encoder: EncoderDraws, at: int)
    -> RenderDispatchView {
    RenderDispatchView {
        begins_encoder: encoder.first == at,
        ends_encoder: encoder.last == at,
        attachments: Seq::new(
            draw.attachments.len(),
            |i: int|
                ResolvedRenderAttachment {
                    feedback_loop: encoder.sampled@.contains(draw.attachments[i].target.backing),
                    input_attachment: encoder.input_read@.contains(
                        draw.attachments[i].target.backing,
                    ),
                    ..draw.attachments[i]
                },
        ),
        ..draw
    }
}

proof fn lemma_draw_marked(
    operations: Seq<OperationView>,
    draw: RenderDispatchView,
    encoder: EncoderDraws,
    at: int,
)
    requires
        0 <= at < operations.len(),
        operations[at] == OperationView::Render(draw),
        describes(encoder, operations),
        encoder_around(operations, at) == Some((encoder.begin as int, encoder.end as int)),
    ensures
        marked(operations, at) == OperationView::Render(draw_marked(draw, encoder, at)),
{
    lemma_end_from_is_later(operations, at);
    lemma_end_before_is_earlier(operations, at);
    let begin = encoder.begin as int;
    let end = encoder.end as int;
    assert(operations[at] is Render);
    assert(begin < at < end);
    let attachments = draw_marked(draw, encoder, at).attachments;
    let expected = marked_attachments(operations, begin, end, draw.attachments);
    assert forall|i: int| 0 <= i < expected.len() implies attachments[i] == expected[i] by {
        let backing = draw.attachments[i].target.backing;
        assert(encoder.sampled@.contains(backing) <==> sampled_between(
            operations,
            begin,
            end,
            backing,
        ));
        assert(encoder.input_read@.contains(backing) <==> input_between(
            operations,
            begin,
            end,
            backing,
        ));
    }
    assert(attachments =~= expected);
}

fn mark_in_encoder(
    operation: &mut ProjectedReplacementOperation,
    encoder: &EncoderDraws,
    at: usize,
)
    ensures
        final(operation)@ == match old(operation)@ {
            OperationView::Render(draw) => OperationView::Render(
                draw_marked(draw, *encoder, at as int),
            ),
            other => other,
        },
{
    match operation {
        ProjectedReplacementOperation::Render(draw) => {
            mark_draw(draw, encoder, at);
        },
        _ => {},
    }
}

proof fn lemma_settled_mark(
    operations: Seq<OperationView>,
    encoders: Seq<EncoderDraws>,
    around: Option<usize>,
    at: int,
)
    requires
        0 <= at < operations.len(),
        settled(operations, encoders, around, at, operations.len() as int),
    ensures
        match (operations[at], around) {
            (OperationView::Render(draw), Some(encoder)) => {
                &&& encoder < encoders.len()
                &&& marked(operations, at) == OperationView::Render(
                    draw_marked(draw, encoders[encoder as int], at),
                )
            },
            _ => marked(operations, at) == operations[at],
        },
        match around {
            Some(encoder) => encoder < encoders.len(),
            None => true,
        },
{
    lemma_end_from_is_later(operations, at);
    if let OperationView::Render(draw) = operations[at] {
        if let Some(encoder) = around {
            lemma_draw_marked(operations, draw, encoders[encoder as int], at);
        }
    }
}

/// What the marks make of each operation.
spec fn planned(
    all: Seq<OperationView>,
    encoders: Seq<EncoderDraws>,
    around: Seq<Option<usize>>,
    goal: Seq<OperationView>,
) -> bool {
    &&& around.len() == all.len()
    &&& goal.len() == all.len()
    &&& forall|at: int|
        0 <= at < around.len() ==> match #[trigger] around[at] {
            None => goal[at] == all[at],
            Some(encoder) => {
                &&& encoder < encoders.len()
                &&& goal[at] == match all[at] {
                    OperationView::Render(draw) => OperationView::Render(
                        draw_marked(draw, encoders[encoder as int], at),
                    ),
                    other => other,
                }
            },
        }
}

fn mark_operations(
    operations: &mut Vec<ProjectedReplacementOperation>,
    encoders: &Vec<EncoderDraws>,
    around: &Vec<Option<usize>>,
    start: usize,
    Ghost(all): Ghost<Seq<OperationView>>,
    Ghost(goal): Ghost<Seq<OperationView>>,
) -> (next: usize)
    requires
        planned(all, encoders@, around@, goal),
        start + old(operations)@.len() <= all.len(),
        operations_view(old(operations)@) == all.subrange(
            start as int,
            start + old(operations)@.len(),
        ),
    ensures
        next == start + old(operations)@.len(),
        operations_view(final(operations)@) == goal.subrange(start as int, next as int),
{
    let total: usize = around.len();
    let count: usize = operations.len();
    let ghost before = operations@;
    let mut k: usize = 0;
    while k < count
        invariant
            planned(all, encoders@, around@, goal),
            total == all.len(),
            count == before.len(),
            start + before.len() <= total,
            before.len() == operations@.len(),
            operations_view(before) == all.subrange(start as int, start + before.len()),
            k <= count,
            forall|i: int| k <= i < before.len() ==> #[trigger] operations@[i] == before[i],
            forall|i: int| 0 <= i < k ==> (#[trigger] operations@[i])@ == goal[start + i],
        decreases count - k,
    {
        let at: usize = start + k;
        assert(operations_view(before)[k as int] == all[at as int]);
        let ghost held = operations@;
        if let Some(encoder) = around[at] {
            mark_in_encoder(&mut operations[k], &encoders[encoder], at);
        }
        assert forall|i: int| 0 <= i < k implies (#[trigger] operations@[i])@ == goal[start
            + i] by {
            assert(operations@[i] == held[i]);
        }
        k += 1;
    }
    assert(operations_view(operations@) =~= goal.subrange(start as int, start + count));
    start + count
}

proof fn lemma_longer_behind(
    segments: Seq<ResolvedExecSegment<ProjectedReplacementOperation>>,
    at: int,
)
    requires
        0 <= at <= segments.len(),
    ensures
        segments_operations(segments.take(at)).len() <= segments_operations(segments).len(),
        segments_operations(segments).take(
            segments_operations(segments.take(at)).len() as int,
        ) == segments_operations(segments.take(at)),
    decreases segments.len() - at,
{
    if at == segments.len() {
        assert(segments.take(at) =~= segments);
        assert(segments_operations(segments).take(
            segments_operations(segments).len() as int,
        ) =~= segments_operations(segments));
    } else {
        lemma_longer_behind(segments, at + 1);
        assert(segments.take(at + 1).drop_last() =~= segments.take(at));
        let all = segments_operations(segments);
        let here = segments_operations(segments.take(at));
        let further = segments_operations(segments.take(at + 1));
        assert(all.take(here.len() as int) =~= all.take(further.len() as int).take(
            here.len() as int,
        ));
        assert(further.take(here.len() as int) =~= here);
    }
}

fn mark_segments(
    segments: &mut Vec<ResolvedExecSegment<ProjectedReplacementOperation>>,
    encoders: &Vec<EncoderDraws>,
    around: &Vec<Option<usize>>,
    start: usize,
    Ghost(all): Ghost<Seq<OperationView>>,
    Ghost(goal): Ghost<Seq<OperationView>>,
) -> (next: usize)
    requires
        planned(all, encoders@, around@, goal),
        start + segments_operations(old(segments)@).len() <= all.len(),
        segments_operations(old(segments)@) == all.subrange(
            start as int,
            start + segments_operations(old(segments)@).len(),
        ),
    ensures
        next == start + segments_operations(old(segments)@).len(),
        segments_operations(final(segments)@) == goal.subrange(start as int, next as int),
        same_segments(old(segments)@, final(segments)@),
{
    let ghost before = segments@;
    let ghost here = segments_operations(before);
    let mut next: usize = start;
    let mut j: usize = 0;
    assert(goal.subrange(start as int, start as int) =~= segments_operations(segments@.take(0)));
    assert(segments_operations(before.take(0)).len() == 0);
    while j < segments.len()
        invariant
            planned(all, encoders@, around@, goal),
            here == segments_operations(before),
            start + here.len() <= all.len(),
            here == all.subrange(start as int, start + here.len()),
            segments@.len() == before.len(),
            j <= before.len(),
            next == start + segments_operations(before.take(j as int)).len(),
            segments_operations(segments@.take(j as int)) == goal.subrange(
                start as int,
                next as int,
            ),
            forall|i: int| j <= i < before.len() ==> #[trigger] segments@[i] == before[i],
            forall|i: int|
                0 <= i < j ==> (#[trigger] segments@[i]).boundary == before[i].boundary
                    && segments@[i].operations@.len() == before[i].operations@.len(),
        decreases segments.len() - j,
    {
        let ghost held = segments@;
        proof {
            lemma_longer_behind(before, j as int);
            lemma_longer_behind(before, j as int + 1);
            assert(before.take(j as int + 1).drop_last() =~= before.take(j as int));
            let part = segments_operations(before.take(j as int));
            let longer = segments_operations(before.take(j as int + 1));
            let added = operations_view(before[j as int].operations@);
            assert(longer == part + added);
            assert(added =~= longer.skip(part.len() as int));
            assert(longer == here.take(longer.len() as int));
            assert(added =~= all.subrange(next as int, next + added.len()));
        }
        let ghost from = next as int;
        let segment = &mut segments[j];
        next = mark_operations(
            &mut segment.operations,
            encoders,
            around,
            next,
            Ghost(all),
            Ghost(goal),
        );
        proof {
            assert(segments@.take(j as int + 1).drop_last() =~= segments@.take(j as int));
            assert(segments@.take(j as int) =~= held.take(j as int));
            assert(segments@.take(j as int + 1).last() == segments@[j as int]);
            assert(goal.subrange(start as int, from) + goal.subrange(from, next as int)
                =~= goal.subrange(start as int, next as int));
            assert(operations_view(segments@[j as int].operations@).len()
                == segments@[j as int].operations@.len());
            assert forall|i: int| 0 <= i < j implies (#[trigger] segments@[i]).boundary
                == before[i].boundary && segments@[i].operations@.len()
                == before[i].operations@.len() by {
                assert(segments@[i] == held[i]);
            }
        }
        j += 1;
    }
    assert(segments@.take(j as int) =~= segments@);
    assert(before.take(j as int) =~= before);
    next
}

/// Whether segments have the same places and as many operations.
pub open spec fn same_segments(
    before: Seq<ResolvedExecSegment<ProjectedReplacementOperation>>,
    after: Seq<ResolvedExecSegment<ProjectedReplacementOperation>>,
) -> bool {
    &&& before.len() == after.len()
    &&& forall|i: int|
        0 <= i < before.len() ==> (#[trigger] after[i]).boundary == before[i].boundary
            && after[i].operations@.len() == before[i].operations@.len()
}

/// Whether streams have the same numbers and segments alike in place and size.
pub open spec fn same_streams(
    before: Seq<ResolvedExecStream<ProjectedReplacementOperation>>,
    after: Seq<ResolvedExecStream<ProjectedReplacementOperation>>,
) -> bool {
    &&& before.len() == after.len()
    &&& forall|i: int|
        0 <= i < before.len() ==> (#[trigger] after[i]).stream_index == before[i].stream_index
            && same_segments(before[i].segments@, after[i].segments@)
}

proof fn lemma_longer_across(
    streams: Seq<ResolvedExecStream<ProjectedReplacementOperation>>,
    at: int,
)
    requires
        0 <= at <= streams.len(),
    ensures
        submission_operations(streams.take(at)).len() <= submission_operations(streams).len(),
        submission_operations(streams).take(
            submission_operations(streams.take(at)).len() as int,
        ) == submission_operations(streams.take(at)),
    decreases streams.len() - at,
{
    if at == streams.len() {
        assert(streams.take(at) =~= streams);
        assert(submission_operations(streams).take(
            submission_operations(streams).len() as int,
        ) =~= submission_operations(streams));
    } else {
        lemma_longer_across(streams, at + 1);
        assert(streams.take(at + 1).drop_last() =~= streams.take(at));
        let all = submission_operations(streams);
        let here = submission_operations(streams.take(at));
        let further = submission_operations(streams.take(at + 1));
        assert(all.take(here.len() as int) =~= all.take(further.len() as int).take(
            here.len() as int,
        ));
        assert(further.take(here.len() as int) =~= here);
    }
}

/// Marks every draw of a render encoder that both begins and ends: the first
/// and the last of its draws as such, and on each draw the attachments that any
/// draw of the encoder samples or reads as a colour input. An encoder holds its
/// attachments for its whole life, so one draw's read binds them all.
pub fn mark_render_dispatch_encoder_boundaries(
    streams: &mut Vec<ResolvedExecStream<ProjectedReplacementOperation>>,
)
    ensures
        submission_operations(final(streams)@) == all_marked(
            submission_operations(old(streams)@),
        ),
        same_streams(old(streams)@, final(streams)@),
{
    let ghost before = streams@;
    let ghost all = submission_operations(before);
    let ghost goal = all_marked(all);
    let flat = flatten(streams);
    let (encoders, around) = find_encoders(&flat);
    proof {
        assert(flat_view(flat@) == all);
        assert forall|at: int| 0 <= at < around@.len() implies match #[trigger] around@[at] {
            None => goal[at] == all[at],
            Some(encoder) => {
                &&& encoder < encoders@.len()
                &&& goal[at] == match all[at] {
                    OperationView::Render(draw) => OperationView::Render(
                        draw_marked(draw, encoders@[encoder as int], at),
                    ),
                    other => other,
                }
            },
        } by {
            lemma_settled_mark(all, encoders@, around@[at], at);
        }
        assert(planned(all, encoders@, around@, goal));
        assert(goal.subrange(0, 0) =~= submission_operations(streams@.take(0)));
        assert(submission_operations(before.take(0)).len() == 0);
    }
    let mut next: usize = 0;
    let mut i: usize = 0;
    while i < streams.len()
        invariant
            planned(all, encoders@, around@, goal),
            all == submission_operations(before),
            streams@.len() == before.len(),
            i <= before.len(),
            next == submission_operations(before.take(i as int)).len(),
            submission_operations(streams@.take(i as int)) == goal.take(next as int),
            forall|j: int| i <= j < before.len() ==> #[trigger] streams@[j] == before[j],
            forall|j: int|
                0 <= j < i ==> (#[trigger] streams@[j]).stream_index == before[j].stream_index
                    && same_segments(before[j].segments@, streams@[j].segments@),
        decreases streams.len() - i,
    {
        let ghost held = streams@;
        let ghost from = next as int;
        proof {
            lemma_longer_across(before, i as int);
            lemma_longer_across(before, i as int + 1);
            assert(before.take(i as int + 1).drop_last() =~= before.take(i as int));
            let part = submission_operations(before.take(i as int));
            let longer = submission_operations(before.take(i as int + 1));
            let added = segments_operations(before[i as int].segments@);
            assert(longer == part + added);
            assert(added =~= longer.skip(part.len() as int));
            assert(longer == all.take(longer.len() as int));
            assert(added =~= all.subrange(next as int, next + added.len()));
        }
        let stream = &mut streams[i];
        next = mark_segments(
            &mut stream.segments,
            &encoders,
            &around,
            next,
            Ghost(all),
            Ghost(goal),
        );
        proof {
            assert(streams@.take(i as int + 1).drop_last() =~= streams@.take(i as int));
            assert(streams@.take(i as int) =~= held.take(i as int));
            assert(streams@.take(i as int + 1).last() == streams@[i as int]);
            assert(goal.take(from) + goal.subrange(from, next as int) =~= goal.take(next as int));
            assert forall|j: int| 0 <= j < i implies (#[trigger] streams@[j]).stream_index
                == before[j].stream_index && same_segments(
                before[j].segments@,
                streams@[j].segments@,
            ) by {
                assert(streams@[j] == held[j]);
            }
        }
        i += 1;
    }
    assert(streams@.take(i as int) =~= streams@);
    assert(before.take(i as int) =~= before);
    assert(goal.take(next as int) =~= goal);
}

/// Two draws of one encoder say the same of a backing that both attach: whether
/// the encoder samples it, and whether it reads it as a colour input.
pub proof fn lemma_draws_of_an_encoder_agree(
    operations: Seq<OperationView>,
    one: int,
    other: int,
    slot: int,
    other_slot: int,
)
    requires
        0 <= one < operations.len(),
        0 <= other < operations.len(),
        encoder_around(operations, one) is Some,
        encoder_around(operations, one) == encoder_around(operations, other),
        match (operations[one], operations[other]) {
            (OperationView::Render(first), OperationView::Render(second)) => {
                &&& 0 <= slot < first.attachments.len()
                &&& 0 <= other_slot < second.attachments.len()
                &&& first.attachments[slot].target.backing
                    == second.attachments[other_slot].target.backing
            },
            _ => false,
        },
    ensures
        match (marked(operations, one), marked(operations, other)) {
            (OperationView::Render(first), OperationView::Render(second)) => {
                &&& first.attachments[slot].feedback_loop
                    == second.attachments[other_slot].feedback_loop
                &&& first.attachments[slot].input_attachment
                    == second.attachments[other_slot].input_attachment
            },
            _ => false,
        },
{
}

/// One draw of an encoder is marked as its first, and one as its last: no two
/// are.
pub proof fn lemma_one_draw_begins_an_encoder(
    operations: Seq<OperationView>,
    one: int,
    other: int,
)
    requires
        0 <= one < operations.len(),
        0 <= other < operations.len(),
        operations[one] is Render,
        operations[other] is Render,
        encoder_around(operations, one) is Some,
        encoder_around(operations, one) == encoder_around(operations, other),
        one != other,
    ensures
        match (marked(operations, one), marked(operations, other)) {
            (OperationView::Render(first), OperationView::Render(second)) => {
                &&& !(first.begins_encoder && second.begins_encoder)
                &&& !(first.ends_encoder && second.ends_encoder)
            },
            _ => false,
        },
{
    lemma_end_before_is_earlier(operations, one);
    lemma_end_before_is_earlier(operations, other);
    lemma_end_from_is_later(operations, one);
    lemma_end_from_is_later(operations, other);
}

proof fn lemma_marking_moves_nothing(operations: Seq<OperationView>, at: int)
    requires
        0 <= at <= operations.len(),
    ensures
        end_before(all_marked(operations), at) == end_before(operations, at),
    decreases at,
{
    if at > 0 {
        lemma_marking_moves_nothing(operations, at - 1);
        assert(all_marked(operations)[at - 1] == marked(operations, at - 1));
    }
}

proof fn lemma_marking_moves_nothing_behind(operations: Seq<OperationView>, at: int)
    requires
        0 <= at <= operations.len(),
    ensures
        end_from(all_marked(operations), at) == end_from(operations, at),
    decreases operations.len() - at,
{
    if at < operations.len() {
        lemma_marking_moves_nothing_behind(operations, at + 1);
        assert(all_marked(operations)[at] == marked(operations, at));
    }
}

proof fn lemma_a_marked_encoder_reads_the_same(
    operations: Seq<OperationView>,
    at: int,
    begin: int,
    end: int,
    backing: u64,
)
    requires
        0 <= at < operations.len(),
        operations[at] is Render,
        encoder_around(operations, at) == Some((begin, end)),
    ensures
        sampled_between(all_marked(operations), begin, end, backing) == sampled_between(
            operations,
            begin,
            end,
            backing,
        ),
        input_between(all_marked(operations), begin, end, backing) == input_between(
            operations,
            begin,
            end,
            backing,
        ),
{
    let after = all_marked(operations);
    lemma_end_before_is_earlier(operations, at);
    lemma_end_from_is_later(operations, at);
    lemma_nothing_ends_up_to(operations, at, end);
    assert forall|i: int| begin < i < end implies encoder_around(operations, i) == Some(
        (begin, end),
    ) by {
        lemma_nothing_ends_since(operations, begin, i, end);
    }
    assert forall|i: int| begin < i < end implies match (operations[i], #[trigger] after[i]) {
        (OperationView::Render(draw), OperationView::Render(again)) => {
            &&& samples(again, backing) == samples(draw, backing)
            &&& reads_input(draw, backing) ==> reads_input(again, backing)
            &&& reads_input(again, backing) ==> input_between(operations, begin, end, backing)
        },
        (operation, again) => operation == again && !(operation is Render),
    } by {
        assert(after[i] == marked(operations, i));
        if let OperationView::Render(draw) = operations[i] {
            let again = marked(operations, i)->Render_0;
            assert(again.resources == draw.resources);
            if reads_input(draw, backing) {
                let k = choose|k: int|
                    0 <= k < draw.attachments.len() && (
                    #[trigger] draw.attachments[k]).input_attachment
                        && draw.attachments[k].target.backing == backing;
                assert(operations[i] is Render);
                assert(input_between(operations, begin, end, backing));
                assert(again.attachments[k].input_attachment);
                assert(again.attachments[k].target.backing == backing);
            }
            if reads_input(again, backing) {
                let k = choose|k: int|
                    0 <= k < again.attachments.len() && (
                    #[trigger] again.attachments[k]).input_attachment
                        && again.attachments[k].target.backing == backing;
                assert(draw.attachments[k].target.backing == backing);
            }
        }
    }
    if sampled_between(operations, begin, end, backing) {
        let i = choose|i: int|
            begin < i < end && match #[trigger] operations[i] {
                OperationView::Render(draw) => samples(draw, backing),
                _ => false,
            };
        assert(after[i] is Render);
    }
    if sampled_between(after, begin, end, backing) {
        let i = choose|i: int|
            begin < i < end && match #[trigger] after[i] {
                OperationView::Render(draw) => samples(draw, backing),
                _ => false,
            };
        assert(operations[i] is Render);
    }
    if input_between(operations, begin, end, backing) {
        let i = choose|i: int|
            begin < i < end && match #[trigger] operations[i] {
                OperationView::Render(draw) => reads_input(draw, backing),
                _ => false,
            };
        assert(after[i] is Render);
    }
}

proof fn lemma_a_marked_draw_keeps_its_marks(operations: Seq<OperationView>, at: int)
    requires
        0 <= at < operations.len(),
    ensures
        marked(all_marked(operations), at) == marked(operations, at),
{
    let after = all_marked(operations);
    assert(after[at] == marked(operations, at));
    lemma_marking_moves_nothing(operations, at);
    lemma_marking_moves_nothing_behind(operations, at);
    lemma_end_before_is_earlier(operations, at);
    lemma_end_from_is_later(operations, at);
    if let Some(begin) = end_before(operations, at) {
        assert(after[begin] == marked(operations, begin));
    }
    if let Some(end) = end_from(operations, at) {
        assert(after[end] == marked(operations, end));
    }
    assert(encoder_around(after, at) == encoder_around(operations, at));
    if let (OperationView::Render(draw), Some((begin, end))) = (
        operations[at],
        encoder_around(operations, at),
    ) {
        assert forall|i: int| 0 <= i < operations.len() implies (#[trigger] after[i]) is Render
            == operations[i] is Render by {
            assert(after[i] == marked(operations, i));
        }
        assert(draw_between(after, begin, at) == draw_between(operations, begin, at)) by {
            if draw_between(operations, begin, at) {
                let i = choose|i: int| begin < i < at && (#[trigger] operations[i]) is Render;
                assert(after[i] is Render);
            }
        }
        assert(draw_between(after, at, end) == draw_between(operations, at, end)) by {
            if draw_between(operations, at, end) {
                let i = choose|i: int| at < i < end && (#[trigger] operations[i]) is Render;
                assert(after[i] is Render);
            }
        }
        let once = marked_attachments(operations, begin, end, draw.attachments);
        let twice = marked_attachments(after, begin, end, once);
        assert forall|i: int| 0 <= i < once.len() implies twice[i] == once[i] by {
            lemma_a_marked_encoder_reads_the_same(
                operations,
                at,
                begin,
                end,
                draw.attachments[i].target.backing,
            );
        }
        assert(twice =~= once);
    }
}

/// Marking a submission that is marked changes nothing.
pub proof fn lemma_marking_twice_changes_nothing(operations: Seq<OperationView>)
    ensures
        all_marked(all_marked(operations)) == all_marked(operations),
{
    assert forall|at: int| 0 <= at < operations.len() implies #[trigger] all_marked(
        all_marked(operations),
    )[at] == all_marked(operations)[at] by {
        lemma_a_marked_draw_keeps_its_marks(operations, at);
    }
    assert(all_marked(all_marked(operations)) =~= all_marked(operations));
}

proof fn lemma_nearest_boundaries(operations: Seq<OperationView>, at: int)
    requires
        0 <= at < operations.len(),
    ensures
        match end_before(operations, at) {
            Some(begin) => 0 <= begin < at && forall|i: int|
                begin < i < at ==> !begins_render(#[trigger] operations[i]) && !ends_render(
                    operations[i],
                ),
            None => true,
        },
        match end_from(operations, at) {
            Some(end) => at <= end < operations.len() && forall|i: int|
                at <= i < end ==> !begins_render(#[trigger] operations[i]) && !ends_render(
                    operations[i],
                ),
            None => true,
        },
{
    lemma_nearest_before(operations, at);
    lemma_nearest_from(operations, at);
}

proof fn lemma_nearest_before(operations: Seq<OperationView>, at: int)
    requires
        0 <= at <= operations.len(),
    ensures
        match end_before(operations, at) {
            Some(begin) => 0 <= begin < at && forall|i: int|
                begin < i < at ==> !begins_render(#[trigger] operations[i]) && !ends_render(
                    operations[i],
                ),
            None => true,
        },
    decreases at,
{
    if at > 0 {
        lemma_nearest_before(operations, at - 1);
    }
}

proof fn lemma_nearest_from(operations: Seq<OperationView>, at: int)
    requires
        0 <= at <= operations.len(),
    ensures
        match end_from(operations, at) {
            Some(end) => at <= end < operations.len() && forall|i: int|
                at <= i < end ==> !begins_render(#[trigger] operations[i]) && !ends_render(
                    operations[i],
                ),
            None => true,
        },
    decreases operations.len() - at,
{
    if at < operations.len() {
        lemma_nearest_from(operations, at + 1);
    }
}

/// A draw is marked by the encoder that it lies in, from the boundary before it
/// to the one behind it: it begins the encoder where no draw of the encoder
/// comes before it, ends it where none comes after, and an attachment is sampled
/// or read as an input just where some draw of the encoder does so. All else of
/// the draw, and every other operation, stays as it was.
#[verifier::spinoff_prover]
pub proof fn lemma_a_draw_is_marked_by_its_encoder(operations: Seq<OperationView>, at: int)
    requires
        0 <= at < operations.len(),
    ensures
        !(operations[at] is Render) ==> marked(operations, at) == operations[at],
        match (operations[at], marked(operations, at)) {
            (OperationView::Render(draw), OperationView::Render(after)) => {
                &&& after == (RenderDispatchView {
                    begins_encoder: after.begins_encoder,
                    ends_encoder: after.ends_encoder,
                    attachments: after.attachments,
                    ..draw
                })
                &&& after.attachments.len() == draw.attachments.len()
                &&& forall|k: int|
                    0 <= k < draw.attachments.len() ==> #[trigger] after.attachments[k] == (
                    ResolvedRenderAttachment {
                        feedback_loop: after.attachments[k].feedback_loop,
                        input_attachment: after.attachments[k].input_attachment,
                        ..draw.attachments[k]
                    })
                &&& encoder_around(operations, at) is None ==> after == draw
                &&& encoder_around(operations, at) matches Some((begin, end)) ==> {
                    &&& 0 <= begin < at && at < end < operations.len()
                    &&& operations[begin] == OperationView::EncoderBoundary(
                        EncoderBoundary::Begin(SegmentKind::Render),
                    )
                    &&& operations[end] == OperationView::EncoderBoundary(
                        EncoderBoundary::End(SegmentKind::Render),
                    )
                    &&& forall|i: int|
                        begin < i < end ==> !begins_render(#[trigger] operations[i])
                            && !ends_render(operations[i])
                    &&& after.begins_encoder <==> forall|i: int|
                        begin < i < at ==> !((#[trigger] operations[i]) is Render)
                    &&& after.ends_encoder <==> forall|i: int|
                        at < i < end ==> !((#[trigger] operations[i]) is Render)
                    &&& forall|k: int|
                        0 <= k < draw.attachments.len() ==> {
                            let backing = draw.attachments[k].target.backing;
                            &&& (#[trigger] after.attachments[k]).feedback_loop <==> exists|i: int|
                                begin < i < end && match #[trigger] operations[i] {
                                    OperationView::Render(other) => samples(other, backing),
                                    _ => false,
                                }
                            &&& after.attachments[k].input_attachment <==> exists|i: int|
                                begin < i < end && match #[trigger] operations[i] {
                                    OperationView::Render(other) => reads_input(other, backing),
                                    _ => false,
                                }
                        }
                }
            },
            (OperationView::Render(_), _) => false,
            _ => true,
        },
{
    lemma_nearest_boundaries(operations, at);
}

} // verus!
