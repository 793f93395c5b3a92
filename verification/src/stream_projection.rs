//! Decoded streams, projected into operations under one encoder state.

use vstd::prelude::*;

use crate::command::DecodedReplacementRecord;
use crate::encoder_state::{
    after_boundary, EncoderBoundary, ProjectionStateView, ReplacementRecordProjectionState,
    SegmentKind,
};
use crate::exec_streams::{
    all_boundaries, boundaries, chained, decoded_streams, joined, lead_of, left_open,
    lemma_accepted_streams_are_chained, open_after, segments_view, streams_view, tail_of,
    DecodedReplacementSegment, DecodedReplacementStream, FramedStream, ResolvedExecSegment,
    ResolvedExecStream, SegmentBoundary, SegmentView, StreamView,
};
use crate::projection::{
    operations_view, project_replacement_record, record_step, OperationView,
    ProjectedReplacementOperation, ProjectionRefusalView, ReplacementOperationProjectionError,
};
use crate::session::ReplacementRuntimeSession;

verus! {

/// A segment's operations, as contracts speak of them.
#[verifier::ext_equal]
pub struct ProjectedSegmentView {
    pub boundary: SegmentBoundary,
    pub operations: Seq<OperationView>,
}

/// A stream's operations, as contracts speak of them.
#[verifier::ext_equal]
pub struct ProjectedStreamView {
    pub stream_index: u32,
    pub segments: Seq<ProjectedSegmentView>,
}

/// The contents of a list of segments.
pub open spec fn projected_segments(
    segments: Seq<ResolvedExecSegment<ProjectedReplacementOperation>>,
) -> Seq<ProjectedSegmentView> {
    Seq::new(
        segments.len(),
        |i: int|
            ProjectedSegmentView {
                boundary: segments[i].boundary,
                operations: operations_view(segments[i].operations@),
            },
    )
}

/// The contents of a list of streams.
pub open spec fn projected_streams(
    streams: Seq<ResolvedExecStream<ProjectedReplacementOperation>>,
) -> Seq<ProjectedStreamView> {
    Seq::new(
        streams.len(),
        |i: int|
            ProjectedStreamView {
                stream_index: streams[i].stream_index,
                segments: projected_segments(streams[i].segments@),
            },
    )
}

/// The operations of encoder ends.
pub open spec fn end_operations(ends: Seq<EncoderBoundary>) -> Seq<OperationView> {
    Seq::new(ends.len(), |i: int| OperationView::EncoderBoundary(ends[i]))
}

/// What opens before a segment makes of a projection's state.
pub open spec fn state_opened(s: ProjectionStateView, boundary: SegmentBoundary)
    -> ProjectionStateView {
    if boundary.continues_previous {
        s
    } else {
        after_boundary(s, EncoderBoundary::Begin(boundary.kind))
    }
}

/// What closes behind a segment makes of a projection's state.
pub open spec fn state_closed(s: ProjectionStateView, boundary: SegmentBoundary)
    -> ProjectionStateView {
    if boundary.continues_next {
        s
    } else {
        after_boundary(s, EncoderBoundary::End(boundary.kind))
    }
}

/// Where a projection stops: the refusal of a record, and the state in which
/// the record came.
#[verifier::ext_equal]
pub struct ProjectionStop {
    pub state: ProjectionStateView,
    pub refusal: ProjectionRefusalView,
}

/// A refused projection: why, the state in which the refused record came, and
/// what was to be projected.
#[derive(Debug, PartialEq, Eq)]
pub struct SessionProjectionFailure {
    pub reason: ReplacementOperationProjectionError,
    pub state: ReplacementRecordProjectionState,
    pub streams: Vec<DecodedReplacementStream>,
}

/// What records come to, behind the operations so far.
pub open spec fn records_step(
    session: ReplacementRuntimeSession,
    s: ProjectionStateView,
    done: Seq<OperationView>,
    records: Seq<DecodedReplacementRecord>,
) -> Result<(ProjectionStateView, Seq<OperationView>), ProjectionStop>
    decreases records.len(),
{
    if records.len() == 0 {
        Ok((s, done))
    } else {
        match record_step(session, s, records[0]) {
            Err(refusal) => Err(ProjectionStop { state: s, refusal }),
            Ok((next, operations)) => records_step(
                session,
                next,
                done + operations,
                records.skip(1),
            ),
        }
    }
}

/// What a segment comes to: its encoder's beginning, its records and its
/// encoder's end, as far as its place calls for them.
pub open spec fn segment_step(
    session: ReplacementRuntimeSession,
    s: ProjectionStateView,
    segment: SegmentView,
) -> Result<(ProjectionStateView, ProjectedSegmentView), ProjectionStop> {
    let boundary = segment.boundary;
    match records_step(
        session,
        state_opened(s, boundary),
        end_operations(lead_of(boundary)),
        segment.records,
    ) {
        Err(stop) => Err(stop),
        Ok((next, operations)) => Ok(
            (
                state_closed(next, boundary),
                ProjectedSegmentView {
                    boundary,
                    operations: operations + end_operations(tail_of(boundary)),
                },
            ),
        ),
    }
}

/// What segments come to, behind those so far.
pub open spec fn segments_step(
    session: ReplacementRuntimeSession,
    s: ProjectionStateView,
    done: Seq<ProjectedSegmentView>,
    segments: Seq<SegmentView>,
) -> Result<(ProjectionStateView, Seq<ProjectedSegmentView>), ProjectionStop>
    decreases segments.len(),
{
    if segments.len() == 0 {
        Ok((s, done))
    } else {
        match segment_step(session, s, segments[0]) {
            Err(stop) => Err(stop),
            Ok((next, projected)) => segments_step(
                session,
                next,
                done.push(projected),
                segments.skip(1),
            ),
        }
    }
}

/// What streams come to, behind those so far. An encoder's state is carried
/// from one stream to the next.
pub open spec fn streams_step(
    session: ReplacementRuntimeSession,
    s: ProjectionStateView,
    done: Seq<ProjectedStreamView>,
    streams: Seq<StreamView>,
) -> Result<(ProjectionStateView, Seq<ProjectedStreamView>), ProjectionStop>
    decreases streams.len(),
{
    if streams.len() == 0 {
        Ok((s, done))
    } else {
        match segments_step(session, s, Seq::empty(), streams[0].segments) {
            Err(stop) => Err(stop),
            Ok((next, segments)) => streams_step(
                session,
                next,
                done.push(ProjectedStreamView { stream_index: streams[0].stream_index, segments }),
                streams.skip(1),
            ),
        }
    }
}

/// A projection's state outside of every encoder, before it has stored anything.
pub open spec fn no_encoder() -> ProjectionStateView {
    ProjectionStateView { render: None, compute: None, stores: 0 }
}

fn append_operations(
    to: &mut Vec<ProjectedReplacementOperation>,
    mut from: Vec<ProjectedReplacementOperation>,
)
    ensures
        operations_view(final(to)@) == operations_view(old(to)@) + operations_view(from@),
{
    let ghost before = to@;
    let ghost added = from@;
    to.append(&mut from);
    assert(to@ =~= before + added);
    assert(operations_view(to@) =~= operations_view(before) + operations_view(added));
}

fn push_end(to: &mut Vec<ProjectedReplacementOperation>, end: EncoderBoundary)
    ensures
        operations_view(final(to)@) == operations_view(old(to)@) + end_operations(seq![end]),
{
    let ghost before = to@;
    to.push(ProjectedReplacementOperation::EncoderBoundary(end));
    assert(operations_view(to@) =~= operations_view(before) + end_operations(seq![end]));
}

fn project_session_segment(
    session: &ReplacementRuntimeSession,
    state: &mut ReplacementRecordProjectionState,
    segment: &DecodedReplacementSegment,
) -> (result: Result<
    ResolvedExecSegment<ProjectedReplacementOperation>,
    ReplacementOperationProjectionError,
>)
    requires
        old(state)@.wf(),
    ensures
        final(state)@.wf(),
        match (result, segment_step(*session, old(state)@, segment@)) {
            (Ok(projected), Ok((next, view))) => {
                &&& final(state)@ == next
                &&& projected.boundary == view.boundary
                &&& operations_view(projected.operations@) == view.operations
            },
            (Err(error), Err(stop)) => error@ == stop.refusal && final(state)@ == stop.state,
            _ => false,
        },
{
    let boundary = segment.boundary;
    let mut operations: Vec<ProjectedReplacementOperation> = Vec::new();
    assert(operations_view(operations@) =~= Seq::<OperationView>::empty());
    if !boundary.continues_previous {
        let begin = EncoderBoundary::Begin(boundary.kind);
        state.encoder_boundary(begin);
        push_end(&mut operations, begin);
    }
    assert(operations_view(operations@) =~= end_operations(lead_of(boundary)));
    let ghost opened = state@;
    let ghost lead = operations_view(operations@);
    let mut i: usize = 0;
    assert(segment.records@.skip(0) =~= segment.records@);
    while i < segment.records.len()
        invariant
            boundary == segment.boundary,
            opened == state_opened(old(state)@, boundary),
            lead == end_operations(lead_of(boundary)),
            i <= segment.records@.len(),
            state@.wf(),
            records_step(*session, opened, lead, segment.records@) == records_step(
                *session,
                state@,
                operations_view(operations@),
                segment.records@.skip(i as int),
            ),
        decreases segment.records.len() - i,
    {
        assert(segment.records@.skip(i as int)[0] == segment.records@[i as int]);
        assert(segment.records@.skip(i as int).skip(1) =~= segment.records@.skip(i as int + 1));
        match project_replacement_record(session, state, &segment.records[i]) {
            Err(error) => {
                return Err(error);
            },
            Ok(added) => {
                append_operations(&mut operations, added);
            },
        }
        i += 1;
    }
    let ghost body = operations_view(operations@);
    if !boundary.continues_next {
        let end = EncoderBoundary::End(boundary.kind);
        state.encoder_boundary(end);
        push_end(&mut operations, end);
    }
    assert(operations_view(operations@) =~= body + end_operations(tail_of(boundary)));
    Ok(ResolvedExecSegment { boundary, operations })
}

fn project_session_segments(
    session: &ReplacementRuntimeSession,
    state: &mut ReplacementRecordProjectionState,
    segments: &Vec<DecodedReplacementSegment>,
) -> (result: Result<
    Vec<ResolvedExecSegment<ProjectedReplacementOperation>>,
    ReplacementOperationProjectionError,
>)
    requires
        old(state)@.wf(),
    ensures
        final(state)@.wf(),
        match (
            result,
            segments_step(*session, old(state)@, Seq::empty(), segments_view(segments@)),
        ) {
            (Ok(projected), Ok((next, view))) => {
                &&& final(state)@ == next
                &&& projected_segments(projected@) == view
            },
            (Err(error), Err(stop)) => error@ == stop.refusal && final(state)@ == stop.state,
            _ => false,
        },
{
    let ghost all = segments_view(segments@);
    let mut projected: Vec<ResolvedExecSegment<ProjectedReplacementOperation>> = Vec::new();
    assert(projected_segments(projected@) =~= Seq::<ProjectedSegmentView>::empty());
    assert(all.skip(0) =~= all);
    let mut i: usize = 0;
    while i < segments.len()
        invariant
            all == segments_view(segments@),
            i <= segments@.len(),
            state@.wf(),
            segments_step(*session, old(state)@, Seq::empty(), all) == segments_step(
                *session,
                state@,
                projected_segments(projected@),
                all.skip(i as int),
            ),
        decreases segments.len() - i,
    {
        assert(all.skip(i as int)[0] == segments@[i as int]@);
        assert(all.skip(i as int).skip(1) =~= all.skip(i as int + 1));
        match project_session_segment(session, state, &segments[i]) {
            Err(error) => {
                return Err(error);
            },
            Ok(segment) => {
                let ghost earlier = projected@;
                let ghost view = ProjectedSegmentView {
                    boundary: segment.boundary,
                    operations: operations_view(segment.operations@),
                };
                projected.push(segment);
                assert(projected_segments(projected@) =~= projected_segments(earlier).push(view));
            },
        }
        i += 1;
    }
    Ok(projected)
}

/// Projects a set of decoded streams into operations, resolving every record
/// against one session under the state of its encoder. A refused record hands
/// the whole set back, with the state that it came in: where the session lacked
/// an answer, that is what the question is asked about.
pub fn project_session_streams(
    session: &ReplacementRuntimeSession,
    streams: Vec<DecodedReplacementStream>,
) -> (result: Result<
    Vec<ResolvedExecStream<ProjectedReplacementOperation>>,
    SessionProjectionFailure,
>)
    ensures
        match (
            result,
            streams_step(*session, no_encoder(), Seq::empty(), streams_view(streams@)),
        ) {
            (Ok(projected), Ok((_, view))) => projected_streams(projected@) == view,
            (Err(failure), Err(stop)) => {
                &&& failure.reason@ == stop.refusal
                &&& failure.state@ == stop.state
                &&& failure.streams == streams
            },
            _ => false,
        },
{
    let ghost all = streams_view(streams@);
    let mut state = ReplacementRecordProjectionState::default();
    let mut projected: Vec<ResolvedExecStream<ProjectedReplacementOperation>> = Vec::new();
    assert(projected_streams(projected@) =~= Seq::<ProjectedStreamView>::empty());
    assert(all.skip(0) =~= all);
    let mut i: usize = 0;
    while i < streams.len()
        invariant
            all == streams_view(streams@),
            i <= streams@.len(),
            state@.wf(),
            streams_step(*session, no_encoder(), Seq::empty(), all) == streams_step(
                *session,
                state@,
                projected_streams(projected@),
                all.skip(i as int),
            ),
        decreases streams.len() - i,
    {
        assert(all.skip(i as int)[0] == streams@[i as int]@);
        assert(all.skip(i as int).skip(1) =~= all.skip(i as int + 1));
        match project_session_segments(session, &mut state, &streams[i].segments) {
            Err(reason) => {
                return Err(SessionProjectionFailure { reason, state, streams });
            },
            Ok(segments) => {
                let ghost earlier = projected@;
                let ghost view = ProjectedStreamView {
                    stream_index: streams@[i as int].stream_index,
                    segments: projected_segments(segments@),
                };
                projected.push(
                    ResolvedExecStream { stream_index: streams[i].stream_index, segments },
                );
                assert(projected_streams(projected@) =~= projected_streams(earlier).push(view));
            },
        }
        i += 1;
    }
    Ok(projected)
}

/// Whether a projection's state holds the encoder that is open, and no other.
/// Only render and compute encoders have state.
pub open spec fn holds_encoder(s: ProjectionStateView, open: Option<SegmentKind>) -> bool {
    &&& s.render is Some <==> open == Some(SegmentKind::Render)
    &&& s.compute is Some <==> open == Some(SegmentKind::Compute)
}

proof fn lemma_record_keeps_encoders(
    session: ReplacementRuntimeSession,
    s: ProjectionStateView,
    record: DecodedReplacementRecord,
)
    ensures
        match record_step(session, s, record) {
            Ok((next, _)) => {
                &&& next.render is Some <==> s.render is Some
                &&& next.compute is Some <==> s.compute is Some
            },
            Err(_) => true,
        },
{
    reveal(record_step);
}

proof fn lemma_records_keep_encoders(
    session: ReplacementRuntimeSession,
    s: ProjectionStateView,
    done: Seq<OperationView>,
    records: Seq<DecodedReplacementRecord>,
)
    ensures
        match records_step(session, s, done, records) {
            Ok((next, _)) => {
                &&& next.render is Some <==> s.render is Some
                &&& next.compute is Some <==> s.compute is Some
            },
            Err(_) => true,
        },
    decreases records.len(),
{
    if records.len() > 0 {
        lemma_record_keeps_encoders(session, s, records[0]);
        if let Ok((next, operations)) = record_step(session, s, records[0]) {
            lemma_records_keep_encoders(session, next, done + operations, records.skip(1));
        }
    }
}

/// In a chain of segments, a segment's records are resolved while the state
/// holds its encoder, and behind it the state holds the encoder that stays
/// open.
pub proof fn lemma_a_segment_has_its_encoder(
    session: ReplacementRuntimeSession,
    s: ProjectionStateView,
    open: Option<SegmentKind>,
    segment: SegmentView,
)
    requires
        holds_encoder(s, open),
        joined(open, segment.boundary) is Ok,
    ensures
        holds_encoder(state_opened(s, segment.boundary), Some(segment.boundary.kind)),
        match segment_step(session, s, segment) {
            Ok((next, _)) => holds_encoder(next, left_open(segment.boundary)),
            Err(_) => true,
        },
{
    let boundary = segment.boundary;
    lemma_records_keep_encoders(
        session,
        state_opened(s, boundary),
        end_operations(lead_of(boundary)),
        segment.records,
    );
}

proof fn lemma_segments_hold_encoders(
    session: ReplacementRuntimeSession,
    s: ProjectionStateView,
    before: Seq<SegmentBoundary>,
    done: Seq<ProjectedSegmentView>,
    segments: Seq<SegmentView>,
)
    requires
        holds_encoder(s, open_after(before)),
        chained(before + boundaries(segments)),
    ensures
        match segments_step(session, s, done, segments) {
            Ok((next, _)) => holds_encoder(next, open_after(before + boundaries(segments))),
            Err(_) => true,
        },
    decreases segments.len(),
{
    if segments.len() == 0 {
        assert(before + boundaries(segments) =~= before);
    } else {
        let first = segments[0];
        let rest = segments.skip(1);
        let all = before + boundaries(segments);
        assert(all[before.len() as int] == first.boundary);
        assert(all.take(before.len() as int) =~= before);
        assert(joined(open_after(all.take(before.len() as int)), all[before.len() as int]) is Ok);
        lemma_a_segment_has_its_encoder(session, s, open_after(before), first);
        if let Ok((next, projected)) = segment_step(session, s, first) {
            assert(before.push(first.boundary) + boundaries(rest) =~= all);
            lemma_segments_hold_encoders(
                session,
                next,
                before.push(first.boundary),
                done.push(projected),
                rest,
            );
        }
    }
}

proof fn lemma_boundaries_of_the_first(streams: Seq<StreamView>)
    requires
        streams.len() > 0,
    ensures
        all_boundaries(streams) == boundaries(streams[0].segments) + all_boundaries(
            streams.skip(1),
        ),
    decreases streams.len(),
{
    if streams.len() == 1 {
        assert(streams.drop_last() =~= Seq::empty());
        assert(streams.skip(1) =~= Seq::empty());
        assert(all_boundaries(streams) =~= boundaries(streams[0].segments) + all_boundaries(
            streams.skip(1),
        ));
    } else {
        lemma_boundaries_of_the_first(streams.drop_last());
        assert(streams.drop_last().skip(1) =~= streams.skip(1).drop_last());
        assert(streams.skip(1).last() == streams.last());
        assert(all_boundaries(streams) =~= boundaries(streams[0].segments) + all_boundaries(
            streams.skip(1),
        ));
    }
}

proof fn lemma_chained_prefix(segments: Seq<SegmentBoundary>, count: int)
    requires
        chained(segments),
        0 <= count <= segments.len(),
    ensures
        chained(segments.take(count)),
{
    let prefix = segments.take(count);
    assert forall|i: int| 0 <= i < prefix.len() implies joined(
        open_after(prefix.take(i)),
        #[trigger] prefix[i],
    ) is Ok by {
        assert(prefix.take(i) =~= segments.take(i));
        assert(prefix[i] == segments[i]);
    }
}

proof fn lemma_streams_hold_encoders(
    session: ReplacementRuntimeSession,
    s: ProjectionStateView,
    before: Seq<SegmentBoundary>,
    done: Seq<ProjectedStreamView>,
    streams: Seq<StreamView>,
)
    requires
        holds_encoder(s, open_after(before)),
        chained(before + all_boundaries(streams)),
    ensures
        match streams_step(session, s, done, streams) {
            Ok((next, _)) => holds_encoder(next, open_after(before + all_boundaries(streams))),
            Err(_) => true,
        },
    decreases streams.len(),
{
    if streams.len() == 0 {
        assert(before + all_boundaries(streams) =~= before);
    } else {
        lemma_boundaries_of_the_first(streams);
        let here = boundaries(streams[0].segments);
        let rest = streams.skip(1);
        let all = before + all_boundaries(streams);
        assert(all =~= (before + here) + all_boundaries(rest));
        lemma_chained_prefix(all, (before + here).len() as int);
        assert(all.take((before + here).len() as int) =~= before + here);
        lemma_segments_hold_encoders(session, s, before, Seq::empty(), streams[0].segments);
        if let Ok((next, segments)) = segments_step(
            session,
            s,
            Seq::empty(),
            streams[0].segments,
        ) {
            lemma_streams_hold_encoders(
                session,
                next,
                before + here,
                done.push(ProjectedStreamView { stream_index: streams[0].stream_index, segments }),
                rest,
            );
        }
    }
}

/// Every set of streams that decodes leaves no encoder open when it projects.
pub proof fn lemma_accepted_streams_leave_no_encoder_open(
    session: ReplacementRuntimeSession,
    framed: Seq<FramedStream>,
)
    ensures
        match decoded_streams(None, Seq::empty(), framed) {
            Ok(streams) => match streams_step(session, no_encoder(), Seq::empty(), streams) {
                Ok((next, _)) => next.render is None && next.compute is None,
                Err(_) => true,
            },
            Err(_) => true,
        },
{
    lemma_accepted_streams_are_chained(framed);
    if let Ok(streams) = decoded_streams(None, Seq::empty(), framed) {
        let none = Seq::<SegmentBoundary>::empty();
        assert(none + all_boundaries(streams) =~= all_boundaries(streams));
        lemma_streams_hold_encoders(session, no_encoder(), none, Seq::empty(), streams);
    }
}

/// Records are projected in order: what a list comes to is what its front comes
/// to, followed by its rest in the state that the front leaves.
pub proof fn lemma_records_are_projected_in_order(
    session: ReplacementRuntimeSession,
    s: ProjectionStateView,
    done: Seq<OperationView>,
    records: Seq<DecodedReplacementRecord>,
    n: int,
)
    requires
        0 <= n <= records.len(),
    ensures
        match records_step(session, s, done, records.take(n)) {
            Ok((middle, operations)) => records_step(session, s, done, records) == records_step(
                session,
                middle,
                operations,
                records.skip(n),
            ),
            Err(stop) => records_step(session, s, done, records) == Err::<
                (ProjectionStateView, Seq<OperationView>),
                ProjectionStop,
            >(stop),
        },
    decreases n,
{
    if n == 0 {
        assert(records.skip(0) =~= records);
    } else {
        let front = records.take(n);
        assert(front[0] == records[0]);
        assert(front.skip(1) =~= records.skip(1).take(n - 1));
        assert(records.skip(1).skip(n - 1) =~= records.skip(n));
        if let Ok((next, operations)) = record_step(session, s, records[0]) {
            lemma_records_are_projected_in_order(
                session,
                next,
                done + operations,
                records.skip(1),
                n - 1,
            );
        }
    }
}

/// What the records before have come to stays, in its place, and the last record
/// adds its own operations behind it.
pub proof fn lemma_the_last_record_adds_its_own(
    session: ReplacementRuntimeSession,
    s: ProjectionStateView,
    done: Seq<OperationView>,
    records: Seq<DecodedReplacementRecord>,
)
    requires
        records.len() > 0,
    ensures
        match records_step(session, s, done, records) {
            Ok((next, operations)) => {
                &&& records_step(session, s, done, records.drop_last()) matches Ok((middle, before))
                &&& record_step(session, middle, records.last()) matches Ok((after, own))
                &&& next == after
                &&& operations.len() == before.len() + own.len()
                &&& forall|i: int|
                    0 <= i < before.len() ==> #[trigger] operations[i] == before[i]
                &&& forall|i: int| 0 <= i < own.len() ==> operations[before.len() + i] == #[trigger] own[i]
            },
            Err(_) => true,
        },
{
    let last = records.len() - 1;
    lemma_records_are_projected_in_order(session, s, done, records, last);
    assert(records.take(last) =~= records.drop_last());
    assert(records.skip(last)[0] == records.last());
    assert(records.skip(last).skip(1).len() == 0);
    if let Ok((middle, before)) = records_step(session, s, done, records.drop_last()) {
        let tail = records.skip(last);
        if let Ok((after, own)) = record_step(session, middle, records.last()) {
            assert(records_step(session, middle, before, tail) == records_step(
                session,
                after,
                before + own,
                tail.skip(1),
            ));
            assert(records_step(session, after, before + own, tail.skip(1)) == Ok::<
                (ProjectionStateView, Seq<OperationView>),
                ProjectionStop,
            >((after, before + own)));
        }
    }
}

proof fn lemma_records_keep_what_is_done(
    session: ReplacementRuntimeSession,
    s: ProjectionStateView,
    done: Seq<OperationView>,
    records: Seq<DecodedReplacementRecord>,
)
    ensures
        match records_step(session, s, done, records) {
            Ok((_, operations)) => operations.len() >= done.len() && forall|i: int|
                0 <= i < done.len() ==> #[trigger] operations[i] == done[i],
            Err(_) => true,
        },
    decreases records.len(),
{
    if records.len() > 0 {
        if let Ok((next, added)) = record_step(session, s, records[0]) {
            lemma_records_keep_what_is_done(session, next, done + added, records.skip(1));
            if let Ok((_, operations)) = records_step(session, s, done, records) {
                assert forall|i: int| 0 <= i < done.len() implies #[trigger] operations[i]
                    == done[i] by {
                    assert((done + added)[i] == done[i]);
                }
            }
        }
    }
}

/// A segment comes to its own place, begins its encoder before all else unless it
/// continues one, and ends it behind all else unless it is continued.
pub proof fn lemma_a_segment_begins_and_ends_its_encoder(
    session: ReplacementRuntimeSession,
    s: ProjectionStateView,
    segment: SegmentView,
)
    ensures
        match segment_step(session, s, segment) {
            Ok((_, projected)) => {
                let operations = projected.operations;
                &&& projected.boundary == segment.boundary
                &&& !segment.boundary.continues_previous ==> operations.len() > 0 && operations[0]
                    == OperationView::EncoderBoundary(EncoderBoundary::Begin(segment.boundary.kind))
                &&& !segment.boundary.continues_next ==> operations.len() > 0
                    && operations.last() == OperationView::EncoderBoundary(
                    EncoderBoundary::End(segment.boundary.kind),
                )
            },
            Err(_) => true,
        },
{
    lemma_records_keep_what_is_done(
        session,
        state_opened(s, segment.boundary),
        end_operations(lead_of(segment.boundary)),
        segment.records,
    );
}

proof fn lemma_segments_in_order(
    session: ReplacementRuntimeSession,
    s: ProjectionStateView,
    done: Seq<ProjectedSegmentView>,
    segments: Seq<SegmentView>,
)
    ensures
        match segments_step(session, s, done, segments) {
            Ok((_, projected)) => {
                &&& projected.len() == done.len() + segments.len()
                &&& forall|i: int| 0 <= i < done.len() ==> #[trigger] projected[i] == done[i]
                &&& forall|i: int|
                    0 <= i < segments.len() ==> projected[done.len() + i].boundary == (
                    #[trigger] segments[i]).boundary
            },
            Err(_) => true,
        },
    decreases segments.len(),
{
    if segments.len() > 0 {
        if let Ok((next, first)) = segment_step(session, s, segments[0]) {
            let more = done.push(first);
            let rest = segments.skip(1);
            lemma_segments_in_order(session, next, more, rest);
            if let Ok((_, projected)) = segments_step(session, s, done, segments) {
                assert forall|i: int| 0 <= i < done.len() implies #[trigger] projected[i]
                    == done[i] by {
                    assert(projected[i] == more[i]);
                }
                assert forall|i: int| 0 <= i < segments.len() implies projected[done.len()
                    + i].boundary == (#[trigger] segments[i]).boundary by {
                    if i == 0 {
                        assert(projected[done.len() as int] == more[done.len() as int]);
                    } else {
                        assert(rest[i - 1] == segments[i]);
                        assert(projected[more.len() + (i - 1)].boundary == rest[i - 1].boundary);
                    }
                }
            }
        }
    }
}

/// Every stream is projected under its own index, in order, with a place for
/// each of its segments.
pub proof fn lemma_streams_are_projected_in_order(
    session: ReplacementRuntimeSession,
    s: ProjectionStateView,
    done: Seq<ProjectedStreamView>,
    streams: Seq<StreamView>,
)
    ensures
        match streams_step(session, s, done, streams) {
            Ok((_, projected)) => {
                &&& projected.len() == done.len() + streams.len()
                &&& forall|i: int| 0 <= i < done.len() ==> #[trigger] projected[i] == done[i]
                &&& forall|i: int|
                    0 <= i < streams.len() ==> {
                        let after = projected[done.len() + i];
                        &&& after.stream_index == (#[trigger] streams[i]).stream_index
                        &&& after.segments.len() == streams[i].segments.len()
                        &&& forall|k: int|
                            0 <= k < after.segments.len() ==> (
                            #[trigger] after.segments[k]).boundary
                                == streams[i].segments[k].boundary
                    }
            },
            Err(_) => true,
        },
    decreases streams.len(),
{
    if streams.len() > 0 {
        lemma_segments_in_order(session, s, Seq::empty(), streams[0].segments);
        if let Ok((next, segments)) = segments_step(
            session,
            s,
            Seq::empty(),
            streams[0].segments,
        ) {
            let first = ProjectedStreamView { stream_index: streams[0].stream_index, segments };
            let more = done.push(first);
            let rest = streams.skip(1);
            lemma_streams_are_projected_in_order(session, next, more, rest);
            assert forall|k: int| 0 <= k < segments.len() implies (#[trigger] segments[k]).boundary
                == streams[0].segments[k].boundary by {
                assert(streams[0].segments[k] == streams[0].segments[k]);
                let none = Seq::<ProjectedSegmentView>::empty();
                assert(segments[none.len() + k].boundary == streams[0].segments[k].boundary);
            }
            if let Ok((_, projected)) = streams_step(session, s, done, streams) {
                assert forall|i: int| 0 <= i < done.len() implies #[trigger] projected[i]
                    == done[i] by {
                    assert(projected[i] == more[i]);
                }
                assert forall|i: int| 0 <= i < streams.len() implies {
                    let after = projected[done.len() + i];
                    &&& after.stream_index == (#[trigger] streams[i]).stream_index
                    &&& after.segments.len() == streams[i].segments.len()
                    &&& forall|k: int|
                        0 <= k < after.segments.len() ==> (#[trigger] after.segments[k]).boundary
                            == streams[i].segments[k].boundary
                } by {
                    if i == 0 {
                        assert(projected[done.len() as int] == more[done.len() as int]);
                    } else {
                        assert(rest[i - 1] == streams[i]);
                        assert(projected[more.len() + (i - 1)] == projected[done.len() + i]);
                    }
                }
            }
        }
    }
}

/// What contracts say of projected streams is what they hold.
pub proof fn lemma_projected_streams_are_seen_whole(
    streams: Seq<ResolvedExecStream<ProjectedReplacementOperation>>,
    i: int,
    k: int,
    at: int,
)
    requires
        0 <= i < streams.len(),
        0 <= k < streams[i].segments@.len(),
        0 <= at < streams[i].segments@[k].operations@.len(),
    ensures
        projected_streams(streams).len() == streams.len(),
        projected_streams(streams)[i].stream_index == streams[i].stream_index,
        projected_streams(streams)[i].segments.len() == streams[i].segments@.len(),
        projected_streams(streams)[i].segments[k].boundary == streams[i].segments@[k].boundary,
        projected_streams(streams)[i].segments[k].operations.len()
            == streams[i].segments@[k].operations@.len(),
        projected_streams(streams)[i].segments[k].operations[at]
            == streams[i].segments@[k].operations@[at]@,
{
}

} // verus!
