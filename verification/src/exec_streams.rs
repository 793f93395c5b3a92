//! The child streams of a submission: the chain of encoders that their segments
//! form, and the operations that they project into.

use vstd::prelude::*;

use crate::command::DecodedReplacementRecord;
use crate::encoder_state::{after_boundary, EncoderBoundary, ProjectionStateView, SegmentKind};
use crate::tables::reversed;

verus! {

/// Which segment of a submission this is, and which encoders it continues.
#[derive(Clone, Copy, Debug, PartialEq, Eq, Structural)]
pub struct SegmentBoundary {
    pub stream_index: u32,
    pub index: u32,
    pub kind: SegmentKind,
    pub continues_previous: bool,
    pub continues_next: bool,
}

/// What a segment's type makes of it.
#[derive(Clone, Copy, Debug, PartialEq, Eq, Structural)]
pub enum SegmentDisposition {
    /// Options around the stream, which hold no encoder.
    Envelope,
    Unknown(u8),
    Walk(SegmentKind),
}

/// Where the records of a segment stop.
#[derive(Clone, Copy, Debug, PartialEq, Eq, Structural)]
pub enum RecordsEnd {
    /// At the end of the segment.
    Done,
    /// At a record that is framed but does not decode.
    Refused { opcode: u32, offset: u32, status: u32 },
    /// At bytes that frame no record.
    Broken(u32),
}

/// A framed segment, with the records that decode from it.
#[derive(Debug, PartialEq, Eq)]
pub struct FramedSegment {
    pub index: u32,
    pub disposition: SegmentDisposition,
    pub continues_previous: bool,
    pub continues_next: bool,
    pub records: Vec<DecodedReplacementRecord>,
    pub end: RecordsEnd,
}

/// A framed stream, or the status under which its framing stops.
#[derive(Debug, PartialEq, Eq)]
pub enum FramedStream {
    Segments(Vec<FramedSegment>),
    Broken(u32),
}

/// A segment whose records all decode.
#[derive(Debug, PartialEq, Eq)]
pub struct DecodedReplacementSegment {
    pub boundary: SegmentBoundary,
    pub records: Vec<DecodedReplacementRecord>,
}

/// A stream whose segments all decode.
#[derive(Debug, PartialEq, Eq)]
pub struct DecodedReplacementStream {
    pub stream_index: u32,
    pub segments: Vec<DecodedReplacementSegment>,
}

/// Why a record does not decode: the family that refused it, and its status.
#[derive(Clone, Copy, Debug, PartialEq, Eq, Structural)]
pub enum ReplacementRecordDecodeRefusal {
    Render(u32),
    Compute(u32),
    Blit(u32),
    Event(u32),
    Info(u32),
}

/// Why a set of streams does not decode.
#[derive(Clone, Copy, Debug, PartialEq, Eq, Structural)]
#[allow(inconsistent_fields)]
pub enum ReplacementExecDecodeRefusal {
    Stream { stream_index: u32, reason: u32 },
    UnknownSegment { stream_index: u32, segment_index: u32, type_: u8 },
    ContinuationWithoutPrevious { boundary: SegmentBoundary },
    ContinuationTypeMismatch { boundary: SegmentBoundary, previous_type: SegmentKind },
    RestartBeforeClose { boundary: SegmentBoundary, previous_type: SegmentKind },
    UnclosedEncoder { previous_type: SegmentKind },
    Record {
        boundary: SegmentBoundary,
        opcode: u32,
        offset: u32,
        reason: ReplacementRecordDecodeRefusal,
    },
}

/// A decoded segment, as contracts speak of it.
#[verifier::ext_equal]
pub struct SegmentView {
    pub boundary: SegmentBoundary,
    pub records: Seq<DecodedReplacementRecord>,
}

/// A decoded stream, as contracts speak of it.
#[verifier::ext_equal]
pub struct StreamView {
    pub stream_index: u32,
    pub segments: Seq<SegmentView>,
}

impl View for DecodedReplacementSegment {
    type V = SegmentView;

    open spec fn view(&self) -> SegmentView {
        SegmentView { boundary: self.boundary, records: self.records@ }
    }
}

/// The segments of a stream, as contracts speak of them.
pub open spec fn segments_view(segments: Seq<DecodedReplacementSegment>) -> Seq<SegmentView> {
    Seq::new(segments.len(), |i: int| segments[i]@)
}

impl View for DecodedReplacementStream {
    type V = StreamView;

    open spec fn view(&self) -> StreamView {
        StreamView { stream_index: self.stream_index, segments: segments_view(self.segments@) }
    }
}

/// The streams of a set, as contracts speak of them.
pub open spec fn streams_view(streams: Seq<DecodedReplacementStream>) -> Seq<StreamView> {
    Seq::new(streams.len(), |i: int| streams[i]@)
}

/// The family that a segment's records decode under.
pub open spec fn refusal_of(kind: SegmentKind, status: u32) -> ReplacementRecordDecodeRefusal {
    match kind {
        SegmentKind::Render => ReplacementRecordDecodeRefusal::Render(status),
        SegmentKind::Compute => ReplacementRecordDecodeRefusal::Compute(status),
        SegmentKind::Blit => ReplacementRecordDecodeRefusal::Blit(status),
        SegmentKind::Event => ReplacementRecordDecodeRefusal::Event(status),
        SegmentKind::Info => ReplacementRecordDecodeRefusal::Info(status),
    }
}

/// The place of a segment in a submission.
pub open spec fn boundary_of(
    stream_index: u32,
    segment: FramedSegment,
    kind: SegmentKind,
) -> SegmentBoundary {
    SegmentBoundary {
        stream_index,
        index: segment.index,
        kind,
        continues_previous: segment.continues_previous,
        continues_next: segment.continues_next,
    }
}

/// Whether the place of a segment fits the encoder that is open before it.
pub open spec fn joined(open: Option<SegmentKind>, boundary: SegmentBoundary) -> Result<
    (),
    ReplacementExecDecodeRefusal,
> {
    match (boundary.continues_previous, open) {
        (true, None) => Err(
            ReplacementExecDecodeRefusal::ContinuationWithoutPrevious { boundary },
        ),
        (true, Some(previous_type)) => if previous_type != boundary.kind {
            Err(
                ReplacementExecDecodeRefusal::ContinuationTypeMismatch {
                    boundary,
                    previous_type,
                },
            )
        } else {
            Ok(())
        },
        (false, Some(previous_type)) => Err(
            ReplacementExecDecodeRefusal::RestartBeforeClose { boundary, previous_type },
        ),
        (false, None) => Ok(()),
    }
}

/// What the records of a segment decode to.
pub open spec fn decoded_records(boundary: SegmentBoundary, segment: FramedSegment) -> Result<
    Seq<DecodedReplacementRecord>,
    ReplacementExecDecodeRefusal,
> {
    match segment.end {
        RecordsEnd::Done => Ok(segment.records@),
        RecordsEnd::Refused { opcode, offset, status } => Err(
            ReplacementExecDecodeRefusal::Record {
                boundary,
                opcode,
                offset,
                reason: refusal_of(boundary.kind, status),
            },
        ),
        RecordsEnd::Broken(reason) => Err(
            ReplacementExecDecodeRefusal::Stream { stream_index: boundary.stream_index, reason },
        ),
    }
}

/// The encoder that stays open after a segment.
pub open spec fn left_open(boundary: SegmentBoundary) -> Option<SegmentKind> {
    if boundary.continues_next {
        Some(boundary.kind)
    } else {
        None
    }
}

/// What the segments of a stream decode to behind those already decoded, and
/// the encoder that stays open, given the one that was open before them.
pub open spec fn decoded_segments(
    stream_index: u32,
    open: Option<SegmentKind>,
    done: Seq<SegmentView>,
    segments: Seq<FramedSegment>,
) -> Result<(Option<SegmentKind>, Seq<SegmentView>), ReplacementExecDecodeRefusal>
    decreases segments.len(),
{
    if segments.len() == 0 {
        Ok((open, done))
    } else {
        let segment = segments[0];
        let rest = segments.skip(1);
        match segment.disposition {
            SegmentDisposition::Envelope => decoded_segments(stream_index, open, done, rest),
            SegmentDisposition::Unknown(type_) => Err(
                ReplacementExecDecodeRefusal::UnknownSegment {
                    stream_index,
                    segment_index: segment.index,
                    type_,
                },
            ),
            SegmentDisposition::Walk(kind) => {
                let boundary = boundary_of(stream_index, segment, kind);
                match joined(open, boundary) {
                    Err(error) => Err(error),
                    Ok(_) => match decoded_records(boundary, segment) {
                        Err(error) => Err(error),
                        Ok(records) => decoded_segments(
                            stream_index,
                            left_open(boundary),
                            done.push(SegmentView { boundary, records }),
                            rest,
                        ),
                    },
                }
            },
        }
    }
}

/// What streams decode to behind those already decoded, given the encoder that
/// was open before them. An encoder may stay open across streams, but not past
/// the last of them.
pub open spec fn decoded_streams(
    open: Option<SegmentKind>,
    done: Seq<StreamView>,
    streams: Seq<FramedStream>,
) -> Result<Seq<StreamView>, ReplacementExecDecodeRefusal>
    decreases streams.len(),
{
    if streams.len() == 0 {
        match open {
            Some(previous_type) => Err(
                ReplacementExecDecodeRefusal::UnclosedEncoder { previous_type },
            ),
            None => Ok(done),
        }
    } else {
        let stream_index = done.len() as u32;
        match streams[0] {
            FramedStream::Broken(reason) => Err(
                ReplacementExecDecodeRefusal::Stream { stream_index, reason },
            ),
            FramedStream::Segments(segments) => match decoded_segments(
                stream_index,
                open,
                Seq::empty(),
                segments@,
            ) {
                Err(error) => Err(error),
                Ok((still_open, decoded)) => decoded_streams(
                    still_open,
                    done.push(StreamView { stream_index, segments: decoded }),
                    streams.skip(1),
                ),
            },
        }
    }
}

fn decode_refusal(kind: SegmentKind, status: u32) -> (refusal: ReplacementRecordDecodeRefusal)
    ensures
        refusal == refusal_of(kind, status),
{
    match kind {
        SegmentKind::Render => ReplacementRecordDecodeRefusal::Render(status),
        SegmentKind::Compute => ReplacementRecordDecodeRefusal::Compute(status),
        SegmentKind::Blit => ReplacementRecordDecodeRefusal::Blit(status),
        SegmentKind::Event => ReplacementRecordDecodeRefusal::Event(status),
        SegmentKind::Info => ReplacementRecordDecodeRefusal::Info(status),
    }
}

/// Holds the place of a segment against the encoder that is open before it.
pub fn join_segment(open: Option<SegmentKind>, boundary: SegmentBoundary) -> (result: Result<
    (),
    ReplacementExecDecodeRefusal,
>)
    ensures
        result == joined(open, boundary),
{
    if boundary.continues_previous {
        match open {
            None => Err(ReplacementExecDecodeRefusal::ContinuationWithoutPrevious { boundary }),
            Some(previous_type) => {
                if previous_type != boundary.kind {
                    return Err(
                        ReplacementExecDecodeRefusal::ContinuationTypeMismatch {
                            boundary,
                            previous_type,
                        },
                    );
                }
                Ok(())
            },
        }
    } else {
        match open {
            Some(previous_type) => Err(
                ReplacementExecDecodeRefusal::RestartBeforeClose { boundary, previous_type },
            ),
            None => Ok(()),
        }
    }
}

/// The records of a segment, if all of it decodes.
pub fn decode_segment_records(
    boundary: SegmentBoundary,
    segment: FramedSegment,
) -> (result: Result<Vec<DecodedReplacementRecord>, ReplacementExecDecodeRefusal>)
    ensures
        match result {
            Ok(records) => decoded_records(boundary, segment) == Ok::<
                Seq<DecodedReplacementRecord>,
                ReplacementExecDecodeRefusal,
            >(records@),
            Err(error) => decoded_records(boundary, segment) == Err::<
                Seq<DecodedReplacementRecord>,
                ReplacementExecDecodeRefusal,
            >(error),
        },
{
    match segment.end {
        RecordsEnd::Done => Ok(segment.records),
        RecordsEnd::Refused { opcode, offset, status } => Err(
            ReplacementExecDecodeRefusal::Record {
                boundary,
                opcode,
                offset,
                reason: decode_refusal(boundary.kind, status),
            },
        ),
        RecordsEnd::Broken(reason) => Err(
            ReplacementExecDecodeRefusal::Stream { stream_index: boundary.stream_index, reason },
        ),
    }
}

/// What a stream's segments decode to, and the encoder that stays open.
pub open spec fn segments_result(
    result: Result<
        (Option<SegmentKind>, Vec<DecodedReplacementSegment>),
        ReplacementExecDecodeRefusal,
    >,
) -> Result<(Option<SegmentKind>, Seq<SegmentView>), ReplacementExecDecodeRefusal> {
    match result {
        Ok((open, segments)) => Ok((open, segments_view(segments@))),
        Err(error) => Err(error),
    }
}

fn decode_segments(
    stream_index: u32,
    open_before: Option<SegmentKind>,
    segments: Vec<FramedSegment>,
) -> (result: Result<
    (Option<SegmentKind>, Vec<DecodedReplacementSegment>),
    ReplacementExecDecodeRefusal,
>)
    ensures
        segments_result(result) == decoded_segments(
            stream_index,
            open_before,
            Seq::empty(),
            segments@,
        ),
{
    let ghost all = segments@;
    let mut rest = reversed(segments);
    let mut open = open_before;
    let mut decoded: Vec<DecodedReplacementSegment> = Vec::new();
    assert(segments_view(decoded@) =~= Seq::<SegmentView>::empty());
    assert(all.skip(0) =~= all);
    let ghost mut i: int = 0;
    while rest.len() > 0
        invariant
            all == segments@,
            0 <= i <= all.len(),
            rest@ == all.skip(i).reverse(),
            decoded_segments(stream_index, open_before, Seq::empty(), all) == decoded_segments(
                stream_index,
                open,
                segments_view(decoded@),
                all.skip(i),
            ),
        decreases rest.len(),
    {
        let ghost before = rest@;
        if let Some(segment) = rest.pop() {
            assert(segment == all.skip(i)[0]);
            assert(all.skip(i).skip(1) =~= all.skip(i + 1));
            assert(rest@ =~= all.skip(i + 1).reverse());
            proof {
                i = i + 1;
            }
            let kind = match segment.disposition {
                SegmentDisposition::Envelope => {
                    continue;
                },
                SegmentDisposition::Unknown(type_) => {
                    return Err(
                        ReplacementExecDecodeRefusal::UnknownSegment {
                            stream_index,
                            segment_index: segment.index,
                            type_,
                        },
                    );
                },
                SegmentDisposition::Walk(kind) => kind,
            };
            let boundary = SegmentBoundary {
                stream_index,
                index: segment.index,
                kind,
                continues_previous: segment.continues_previous,
                continues_next: segment.continues_next,
            };
            join_segment(open, boundary)?;
            let records = decode_segment_records(boundary, segment)?;
            open = if boundary.continues_next {
                Some(kind)
            } else {
                None
            };
            let ghost done = decoded@;
            let ghost view = SegmentView { boundary, records: records@ };
            decoded.push(DecodedReplacementSegment { boundary, records });
            assert(segments_view(decoded@) =~= segments_view(done).push(view));
        }
    }
    Ok((open, decoded))
}

/// What a set of streams decodes to, as contracts speak of it.
pub open spec fn streams_result(
    result: Result<Vec<DecodedReplacementStream>, ReplacementExecDecodeRefusal>,
) -> Result<Seq<StreamView>, ReplacementExecDecodeRefusal> {
    match result {
        Ok(streams) => Ok(streams_view(streams@)),
        Err(error) => Err(error),
    }
}

/// Decodes the streams of a submission as one: all of them, or none. Which
/// encoder a segment continues is the submission's state, so an encoder that
/// one stream leaves open may be continued by the next.
pub fn decode_replacement_exec_streams(streams: Vec<FramedStream>) -> (result: Result<
    Vec<DecodedReplacementStream>,
    ReplacementExecDecodeRefusal,
>)
    requires
        streams@.len() < u32::MAX,
    ensures
        streams_result(result) == decoded_streams(None, Seq::empty(), streams@),
{
    let ghost all = streams@;
    let mut rest = reversed(streams);
    let mut open: Option<SegmentKind> = None;
    let mut decoded: Vec<DecodedReplacementStream> = Vec::new();
    assert(streams_view(decoded@) =~= Seq::<StreamView>::empty());
    assert(all.skip(0) =~= all);
    let mut stream_index: u32 = 0;
    while rest.len() > 0
        invariant
            all == streams@,
            all.len() < u32::MAX,
            stream_index <= all.len(),
            decoded@.len() == stream_index,
            rest@ == all.skip(stream_index as int).reverse(),
            decoded_streams(None, Seq::empty(), all) == decoded_streams(
                open,
                streams_view(decoded@),
                all.skip(stream_index as int),
            ),
        decreases rest.len(),
    {
        let ghost i = stream_index as int;
        if let Some(stream) = rest.pop() {
            assert(stream == all.skip(i)[0]);
            assert(all.skip(i).skip(1) =~= all.skip(i + 1));
            assert(rest@ =~= all.skip(i + 1).reverse());
            let segments = match stream {
                FramedStream::Broken(reason) => {
                    return Err(ReplacementExecDecodeRefusal::Stream { stream_index, reason });
                },
                FramedStream::Segments(segments) => segments,
            };
            let (still_open, segments) = decode_segments(stream_index, open, segments)?;
            open = still_open;
            let ghost done = decoded@;
            let ghost view = StreamView { stream_index, segments: segments_view(segments@) };
            decoded.push(DecodedReplacementStream { stream_index, segments });
            assert(streams_view(decoded@) =~= streams_view(done).push(view));
            stream_index += 1;
        }
    }
    if let Some(previous_type) = open {
        return Err(ReplacementExecDecodeRefusal::UnclosedEncoder { previous_type });
    }
    Ok(decoded)
}

/// The places of a stream's segments.
pub open spec fn boundaries(segments: Seq<SegmentView>) -> Seq<SegmentBoundary> {
    Seq::new(segments.len(), |i: int| segments[i].boundary)
}

/// The places of a submission's segments, across its streams.
pub open spec fn all_boundaries(streams: Seq<StreamView>) -> Seq<SegmentBoundary>
    decreases streams.len(),
{
    if streams.len() == 0 {
        Seq::empty()
    } else {
        all_boundaries(streams.drop_last()) + boundaries(streams.last().segments)
    }
}

/// The encoder that stays open after segments.
pub open spec fn open_after(segments: Seq<SegmentBoundary>) -> Option<SegmentKind> {
    if segments.len() == 0 {
        None
    } else {
        left_open(segments.last())
    }
}

/// Whether each segment continues the one before it if and only if that one is
/// continued, and then has its kind.
pub open spec fn chained(segments: Seq<SegmentBoundary>) -> bool {
    forall|i: int|
        0 <= i < segments.len() ==> joined(
            open_after(segments.take(i)),
            #[trigger] segments[i],
        ) is Ok
}

proof fn lemma_chained_push(segments: Seq<SegmentBoundary>, next: SegmentBoundary)
    requires
        chained(segments),
        joined(open_after(segments), next) is Ok,
    ensures
        chained(segments.push(next)),
{
    assert forall|i: int| 0 <= i < segments.push(next).len() implies joined(
        open_after(segments.push(next).take(i)),
        #[trigger] segments.push(next)[i],
    ) is Ok by {
        assert(segments.push(next).take(i) =~= segments.take(i));
        if i == segments.len() {
            assert(segments.take(i) =~= segments);
        } else {
            assert(segments.push(next)[i] == segments[i]);
        }
    }
}

proof fn lemma_decoded_segments_are_chained(
    before: Seq<SegmentBoundary>,
    stream_index: u32,
    open: Option<SegmentKind>,
    done: Seq<SegmentView>,
    segments: Seq<FramedSegment>,
)
    requires
        chained(before + boundaries(done)),
        open == open_after(before + boundaries(done)),
    ensures
        match decoded_segments(stream_index, open, done, segments) {
            Ok((still_open, decoded)) => {
                &&& chained(before + boundaries(decoded))
                &&& still_open == open_after(before + boundaries(decoded))
            },
            Err(_) => true,
        },
    decreases segments.len(),
{
    if segments.len() > 0 {
        let segment = segments[0];
        let rest = segments.skip(1);
        match segment.disposition {
            SegmentDisposition::Envelope => {
                lemma_decoded_segments_are_chained(before, stream_index, open, done, rest);
            },
            SegmentDisposition::Unknown(_) => {},
            SegmentDisposition::Walk(kind) => {
                let boundary = boundary_of(stream_index, segment, kind);
                if joined(open, boundary) is Ok {
                    if let Ok(records) = decoded_records(boundary, segment) {
                        let next = done.push(SegmentView { boundary, records });
                        lemma_chained_push(before + boundaries(done), boundary);
                        assert(before + boundaries(next) =~= (before + boundaries(done)).push(
                            boundary,
                        ));
                        lemma_decoded_segments_are_chained(
                            before,
                            stream_index,
                            left_open(boundary),
                            next,
                            rest,
                        );
                    }
                }
            },
        }
    }
}

proof fn lemma_decoded_streams_are_chained(
    open: Option<SegmentKind>,
    done: Seq<StreamView>,
    streams: Seq<FramedStream>,
)
    requires
        chained(all_boundaries(done)),
        open == open_after(all_boundaries(done)),
    ensures
        match decoded_streams(open, done, streams) {
            Ok(decoded) => {
                &&& chained(all_boundaries(decoded))
                &&& open_after(all_boundaries(decoded)) is None
            },
            Err(_) => true,
        },
    decreases streams.len(),
{
    if streams.len() > 0 {
        let stream_index = done.len() as u32;
        if let FramedStream::Segments(segments) = streams[0] {
            let before = all_boundaries(done);
            assert(before + boundaries(Seq::empty()) =~= before);
            lemma_decoded_segments_are_chained(
                before,
                stream_index,
                open,
                Seq::empty(),
                segments@,
            );
            if let Ok((still_open, decoded)) = decoded_segments(
                stream_index,
                open,
                Seq::empty(),
                segments@,
            ) {
                let stream = StreamView { stream_index, segments: decoded };
                assert(done.push(stream).drop_last() =~= done);
                lemma_decoded_streams_are_chained(still_open, done.push(stream), streams.skip(1));
            }
        }
    }
}

/// In every set of streams that decodes, each segment continues the one before
/// it, in its own stream or in an earlier one, if and only if that one is
/// continued, and then has its kind; and the last segment is not continued.
pub proof fn lemma_accepted_streams_are_chained(streams: Seq<FramedStream>)
    ensures
        match decoded_streams(None, Seq::empty(), streams) {
            Ok(decoded) => {
                &&& chained(all_boundaries(decoded))
                &&& open_after(all_boundaries(decoded)) is None
            },
            Err(_) => true,
        },
{
    lemma_decoded_streams_are_chained(None, Seq::empty(), streams);
}

/// What the segments of a stream hold, one for each that has an encoder.
pub open spec fn walked(stream_index: u32, segments: Seq<FramedSegment>) -> Seq<SegmentView>
    decreases segments.len(),
{
    if segments.len() == 0 {
        Seq::empty()
    } else {
        let rest = walked(stream_index, segments.skip(1));
        match segments[0].disposition {
            SegmentDisposition::Walk(kind) => seq![
                SegmentView {
                    boundary: boundary_of(stream_index, segments[0], kind),
                    records: segments[0].records@,
                },
            ] + rest,
            _ => rest,
        }
    }
}

/// Whether every segment of a stream is known, and all of its records decode.
pub open spec fn complete(segments: Seq<FramedSegment>) -> bool {
    forall|i: int|
        0 <= i < segments.len() ==> match (#[trigger] segments[i]).disposition {
            SegmentDisposition::Envelope => true,
            SegmentDisposition::Unknown(_) => false,
            SegmentDisposition::Walk(_) => segments[i].end == RecordsEnd::Done,
        }
}

proof fn lemma_decoded_segments_are_complete(
    stream_index: u32,
    open: Option<SegmentKind>,
    done: Seq<SegmentView>,
    segments: Seq<FramedSegment>,
)
    ensures
        match decoded_segments(stream_index, open, done, segments) {
            Ok((_, decoded)) => {
                &&& decoded == done + walked(stream_index, segments)
                &&& complete(segments)
            },
            Err(_) => true,
        },
    decreases segments.len(),
{
    if segments.len() == 0 {
        assert(done + walked(stream_index, segments) =~= done);
    } else {
        let segment = segments[0];
        let rest = segments.skip(1);
        match segment.disposition {
            SegmentDisposition::Envelope => {
                lemma_decoded_segments_are_complete(stream_index, open, done, rest);
            },
            SegmentDisposition::Unknown(_) => {},
            SegmentDisposition::Walk(kind) => {
                let boundary = boundary_of(stream_index, segment, kind);
                if joined(open, boundary) is Ok {
                    if let Ok(records) = decoded_records(boundary, segment) {
                        let view = SegmentView { boundary, records };
                        lemma_decoded_segments_are_complete(
                            stream_index,
                            left_open(boundary),
                            done.push(view),
                            rest,
                        );
                        assert(done.push(view) + walked(stream_index, rest) =~= done + walked(
                            stream_index,
                            segments,
                        ));
                    }
                }
            },
        }
        if decoded_segments(stream_index, open, done, segments) is Ok {
            assert(complete(rest));
            assert forall|i: int| 0 <= i < segments.len() implies match (
            #[trigger] segments[i]).disposition {
                SegmentDisposition::Envelope => true,
                SegmentDisposition::Unknown(_) => false,
                SegmentDisposition::Walk(_) => segments[i].end == RecordsEnd::Done,
            } by {
                if i > 0 {
                    assert(rest[i - 1] == segments[i]);
                }
            }
        }
    }
}

proof fn lemma_decoded_streams_are_complete(
    open: Option<SegmentKind>,
    done: Seq<StreamView>,
    streams: Seq<FramedStream>,
)
    requires
        done.len() + streams.len() <= u32::MAX,
    ensures
        match decoded_streams(open, done, streams) {
            Ok(decoded) => {
                &&& decoded.len() == done.len() + streams.len()
                &&& decoded.take(done.len() as int) == done
                &&& forall|i: int|
                    0 <= i < streams.len() ==> match #[trigger] streams[i] {
                        FramedStream::Broken(_) => false,
                        FramedStream::Segments(segments) => {
                            &&& complete(segments@)
                            &&& decoded[done.len() + i] == (StreamView {
                                stream_index: (done.len() + i) as u32,
                                segments: walked((done.len() + i) as u32, segments@),
                            })
                        },
                    }
            },
            Err(_) => true,
        },
    decreases streams.len(),
{
    if streams.len() == 0 {
        assert(done.take(done.len() as int) =~= done);
    } else if let FramedStream::Segments(segments) = streams[0] {
        let stream_index = done.len() as u32;
        lemma_decoded_segments_are_complete(stream_index, open, Seq::empty(), segments@);
        if let Ok((still_open, here)) = decoded_segments(
            stream_index,
            open,
            Seq::empty(),
            segments@,
        ) {
            assert(here =~= walked(stream_index, segments@));
            let next = done.push(StreamView { stream_index, segments: here });
            let rest = streams.skip(1);
            lemma_decoded_streams_are_complete(still_open, next, rest);
            if let Ok(decoded) = decoded_streams(still_open, next, rest) {
                assert(decoded[done.len() as int] == decoded.take(next.len() as int)[
                    done.len() as int]);
                assert(decoded.take(done.len() as int) =~= decoded.take(next.len() as int).take(
                    done.len() as int,
                ));
                assert(next.take(done.len() as int) =~= done);
                assert forall|i: int| 0 <= i < streams.len() implies match #[trigger] streams[i] {
                    FramedStream::Broken(_) => false,
                    FramedStream::Segments(segments) => {
                        &&& complete(segments@)
                        &&& decoded[done.len() + i] == (StreamView {
                            stream_index: (done.len() + i) as u32,
                            segments: walked((done.len() + i) as u32, segments@),
                        })
                    },
                } by {
                    if i > 0 {
                        assert(rest[i - 1] == streams[i]);
                    }
                }
            }
        }
    }
}

/// A set of streams that decodes decodes whole: every stream frames, every
/// segment is known, every record decodes, and each stream holds its encoders'
/// segments with all of their records, in order.
pub proof fn lemma_accepted_streams_are_complete(streams: Seq<FramedStream>)
    requires
        streams.len() <= u32::MAX,
    ensures
        match decoded_streams(None, Seq::empty(), streams) {
            Ok(decoded) => {
                &&& decoded.len() == streams.len()
                &&& forall|i: int|
                    0 <= i < streams.len() ==> match #[trigger] streams[i] {
                        FramedStream::Broken(_) => false,
                        FramedStream::Segments(segments) => {
                            &&& complete(segments@)
                            &&& decoded[i] == (StreamView {
                                stream_index: i as u32,
                                segments: walked(i as u32, segments@),
                            })
                        },
                    }
            },
            Err(_) => true,
        },
{
    lemma_decoded_streams_are_complete(None, Seq::empty(), streams);
}

/// The ends of encoders that segments place: a beginning before a segment that
/// continues none, and an end behind one that is not continued.
pub open spec fn encoder_ends(segments: Seq<SegmentBoundary>) -> Seq<EncoderBoundary>
    decreases segments.len(),
{
    if segments.len() == 0 {
        Seq::empty()
    } else {
        let last = segments.last();
        encoder_ends(segments.drop_last()) + lead_of(last) + tail_of(last)
    }
}

/// What opens before a segment.
pub open spec fn lead_of(boundary: SegmentBoundary) -> Seq<EncoderBoundary> {
    if boundary.continues_previous {
        Seq::empty()
    } else {
        seq![EncoderBoundary::Begin(boundary.kind)]
    }
}

/// What closes behind a segment.
pub open spec fn tail_of(boundary: SegmentBoundary) -> Seq<EncoderBoundary> {
    if boundary.continues_next {
        Seq::empty()
    } else {
        seq![EncoderBoundary::End(boundary.kind)]
    }
}

/// Whether beginnings and ends alternate, each end closing its beginning.
pub open spec fn paired(ends: Seq<EncoderBoundary>) -> bool
    decreases ends.len(),
{
    if ends.len() == 0 {
        true
    } else {
        &&& ends.len() >= 2
        &&& match (ends[ends.len() - 2], ends.last()) {
            (EncoderBoundary::Begin(opened), EncoderBoundary::End(closed)) => opened == closed,
            _ => false,
        }
        &&& paired(ends.take(ends.len() - 2))
    }
}

/// Around segments that are chained, encoders begin and end in turn: one
/// beginning and one end for each encoder, however many segments continue it.
/// One encoder stays begun where the last segment is continued.
pub proof fn lemma_encoders_begin_and_end_in_turn(segments: Seq<SegmentBoundary>)
    requires
        chained(segments),
    ensures
        match open_after(segments) {
            None => paired(encoder_ends(segments)),
            Some(kind) => {
                let ends = encoder_ends(segments);
                &&& ends.len() > 0
                &&& ends.last() == EncoderBoundary::Begin(kind)
                &&& paired(ends.drop_last())
            },
        },
    decreases segments.len(),
{
    if segments.len() > 0 {
        let before = segments.drop_last();
        let last = segments.last();
        assert(chained(before)) by {
            assert forall|i: int| 0 <= i < before.len() implies joined(
                open_after(before.take(i)),
                #[trigger] before[i],
            ) is Ok by {
                assert(before.take(i) =~= segments.take(i));
                assert(before[i] == segments[i]);
            }
        }
        lemma_encoders_begin_and_end_in_turn(before);
        assert(segments.take(segments.len() - 1) =~= before);
        assert(joined(open_after(before), segments[segments.len() - 1]) is Ok);
        let ends = encoder_ends(segments);
        let earlier = encoder_ends(before);
        if last.continues_previous {
            if last.continues_next {
                assert(ends =~= earlier);
            } else {
                assert(ends =~= earlier.push(EncoderBoundary::End(last.kind)));
                assert(ends.take(ends.len() - 2) =~= earlier.drop_last());
            }
        } else {
            if last.continues_next {
                assert(ends =~= earlier.push(EncoderBoundary::Begin(last.kind)));
                assert(ends.drop_last() =~= earlier);
            } else {
                assert(ends =~= earlier.push(EncoderBoundary::Begin(last.kind)).push(
                    EncoderBoundary::End(last.kind),
                ));
                assert(ends.take(ends.len() - 2) =~= earlier);
            }
        }
    }
}

/// A projection's state after the ends of encoders.
pub open spec fn after_ends(s: ProjectionStateView, ends: Seq<EncoderBoundary>) ->
    ProjectionStateView
    decreases ends.len(),
{
    if ends.len() == 0 {
        s
    } else {
        after_boundary(after_ends(s, ends.drop_last()), ends.last())
    }
}

/// Encoders that begin and end in turn leave none open.
pub proof fn lemma_paired_encoders_close(s: ProjectionStateView, ends: Seq<EncoderBoundary>)
    requires
        paired(ends),
        s.render is None,
        s.compute is None,
    ensures
        after_ends(s, ends) == s,
    decreases ends.len(),
{
    if ends.len() > 0 {
        let earlier = ends.take(ends.len() - 2);
        lemma_paired_encoders_close(s, earlier);
        assert(ends.drop_last().drop_last() =~= earlier);
        assert(ends.drop_last().last() == ends[ends.len() - 2]);
        assert(after_ends(s, ends.drop_last()) == after_boundary(
            after_ends(s, earlier),
            ends[ends.len() - 2],
        ));
    }
}

/// A segment's operations, in order.
#[derive(Debug, PartialEq, Eq)]
pub struct ResolvedExecSegment<Operation> {
    pub boundary: SegmentBoundary,
    pub operations: Vec<Operation>,
}

/// A stream's segments, each with its operations.
#[derive(Debug, PartialEq, Eq)]
pub struct ResolvedExecStream<Operation> {
    pub stream_index: u32,
    pub segments: Vec<ResolvedExecSegment<Operation>>,
}

/// Why a set of streams does not project, and the set itself.
#[derive(Debug, PartialEq, Eq)]
pub struct ReplacementExecProjectionFailure<Error> {
    pub reason: Error,
    pub streams: Vec<DecodedReplacementStream>,
}

/// Whether operations stand for the ends of encoders, one for one.
pub open spec fn ends_projected<Operation, Boundary: Fn(EncoderBoundary) -> Operation>(
    boundary_operation: Boundary,
    ends: Seq<EncoderBoundary>,
    operations: Seq<Operation>,
) -> bool {
    &&& operations.len() == ends.len()
    &&& forall|i: int|
        0 <= i < ends.len() ==> call_ensures(
            boundary_operation,
            (ends[i],),
            #[trigger] operations[i],
        )
}

/// Whether operations are those of records, one record behind the other.
pub open spec fn records_projected<
    Operation,
    Error,
    Resolve: Fn(SegmentBoundary, &DecodedReplacementRecord) -> Result<Vec<Operation>, Error>,
>(
    resolve_record: Resolve,
    boundary: SegmentBoundary,
    records: Seq<DecodedReplacementRecord>,
    operations: Seq<Operation>,
) -> bool
    decreases records.len(),
{
    if records.len() == 0 {
        operations.len() == 0
    } else {
        exists|added: Vec<Operation>|
            {
                &&& call_ensures(resolve_record, (boundary, &records.last()), Ok(added))
                &&& added@.len() <= operations.len()
                &&& #[trigger] added@ == operations.skip(operations.len() - added@.len())
                &&& records_projected(
                    resolve_record,
                    boundary,
                    records.drop_last(),
                    operations.take(operations.len() - added@.len()),
                )
            }
    }
}

/// Whether a segment holds the operations of its encoder's beginning, of its
/// records, and of its encoder's end, as far as its place calls for them.
pub open spec fn segment_projected<
    Operation,
    Error,
    Boundary: Fn(EncoderBoundary) -> Operation,
    Resolve: Fn(SegmentBoundary, &DecodedReplacementRecord) -> Result<Vec<Operation>, Error>,
>(
    boundary_operation: Boundary,
    resolve_record: Resolve,
    from: DecodedReplacementSegment,
    to: ResolvedExecSegment<Operation>,
) -> bool {
    let lead = lead_of(from.boundary).len() as int;
    let tail = to.operations@.len() - tail_of(from.boundary).len();
    &&& to.boundary == from.boundary
    &&& 0 <= lead <= tail <= to.operations@.len()
    &&& ends_projected(
        boundary_operation,
        lead_of(from.boundary),
        to.operations@.take(lead),
    )
    &&& records_projected(
        resolve_record,
        from.boundary,
        from.records@,
        to.operations@.subrange(lead, tail),
    )
    &&& ends_projected(
        boundary_operation,
        tail_of(from.boundary),
        to.operations@.skip(tail),
    )
}

/// Whether a stream holds the operations of its segments, one for one.
pub open spec fn stream_projected<
    Operation,
    Error,
    Boundary: Fn(EncoderBoundary) -> Operation,
    Resolve: Fn(SegmentBoundary, &DecodedReplacementRecord) -> Result<Vec<Operation>, Error>,
>(
    boundary_operation: Boundary,
    resolve_record: Resolve,
    from: DecodedReplacementStream,
    to: ResolvedExecStream<Operation>,
) -> bool {
    &&& to.stream_index == from.stream_index
    &&& to.segments@.len() == from.segments@.len()
    &&& forall|i: int|
        0 <= i < from.segments@.len() ==> segment_projected(
            boundary_operation,
            resolve_record,
            from.segments@[i],
            #[trigger] to.segments@[i],
        )
}

/// Whether a segment's records are refused for a reason: one of them is, and
/// those before it resolve.
pub open spec fn segment_refused<
    Operation,
    Error,
    Resolve: Fn(SegmentBoundary, &DecodedReplacementRecord) -> Result<Vec<Operation>, Error>,
>(resolve_record: Resolve, from: DecodedReplacementSegment, reason: Error) -> bool {
    exists|i: int, operations: Seq<Operation>|
        {
            &&& 0 <= i < from.records@.len()
            &&& #[trigger] records_projected(
                resolve_record,
                from.boundary,
                from.records@.take(i),
                operations,
            )
            &&& call_ensures(
                resolve_record,
                (from.boundary, &from.records@[i]),
                Err::<Vec<Operation>, Error>(reason),
            )
        }
}

/// Whether a stream is refused for a reason: one of its segments is, and those
/// before it project.
pub open spec fn stream_refused<
    Operation,
    Error,
    Boundary: Fn(EncoderBoundary) -> Operation,
    Resolve: Fn(SegmentBoundary, &DecodedReplacementRecord) -> Result<Vec<Operation>, Error>,
>(
    boundary_operation: Boundary,
    resolve_record: Resolve,
    from: DecodedReplacementStream,
    reason: Error,
) -> bool {
    exists|earlier: Seq<ResolvedExecSegment<Operation>>|
        {
            &&& (#[trigger] earlier.len()) < from.segments@.len()
            &&& forall|i: int|
                0 <= i < earlier.len() ==> segment_projected(
                    boundary_operation,
                    resolve_record,
                    from.segments@[i],
                    #[trigger] earlier[i],
                )
            &&& segment_refused(
                resolve_record,
                from.segments@[earlier.len() as int],
                reason,
            )
        }
}

/// Whether a set of streams is refused for a reason: one of them is, and those
/// before it project.
pub open spec fn streams_refused<
    Operation,
    Error,
    Boundary: Fn(EncoderBoundary) -> Operation,
    Resolve: Fn(SegmentBoundary, &DecodedReplacementRecord) -> Result<Vec<Operation>, Error>,
>(
    boundary_operation: Boundary,
    resolve_record: Resolve,
    from: Seq<DecodedReplacementStream>,
    reason: Error,
) -> bool {
    exists|earlier: Seq<ResolvedExecStream<Operation>>|
        {
            &&& (#[trigger] earlier.len()) < from.len()
            &&& forall|i: int|
                0 <= i < earlier.len() ==> stream_projected(
                    boundary_operation,
                    resolve_record,
                    from[i],
                    #[trigger] earlier[i],
                )
            &&& stream_refused(
                boundary_operation,
                resolve_record,
                from[earlier.len() as int],
                reason,
            )
        }
}

fn project_segment<
    Operation,
    Error,
    Boundary: Fn(EncoderBoundary) -> Operation,
    Resolve: Fn(SegmentBoundary, &DecodedReplacementRecord) -> Result<Vec<Operation>, Error>,
>(
    segment: &DecodedReplacementSegment,
    boundary_operation: &Boundary,
    resolve_record: &Resolve,
) -> (result: Result<ResolvedExecSegment<Operation>, Error>)
    requires
        forall|end: EncoderBoundary| call_requires(*boundary_operation, (end,)),
        forall|at: SegmentBoundary, record: &DecodedReplacementRecord|
            call_requires(*resolve_record, (at, record)),
    ensures
        match result {
            Ok(to) => segment_projected(*boundary_operation, *resolve_record, *segment, to),
            Err(reason) => segment_refused::<Operation, Error, Resolve>(
                *resolve_record,
                *segment,
                reason,
            ),
        },
{
    let boundary = segment.boundary;
    let mut operations: Vec<Operation> = Vec::new();
    if !boundary.continues_previous {
        operations.push(boundary_operation(EncoderBoundary::Begin(boundary.kind)));
    }
    let ghost lead = operations@;
    assert(operations@.skip(lead.len() as int) =~= Seq::empty());
    let mut i: usize = 0;
    while i < segment.records.len()
        invariant
            i <= segment.records@.len(),
            boundary == segment.boundary,
            forall|at: SegmentBoundary, record: &DecodedReplacementRecord|
                call_requires(*resolve_record, (at, record)),
            lead.len() <= operations@.len(),
            operations@.take(lead.len() as int) == lead,
            records_projected(
                *resolve_record,
                boundary,
                segment.records@.take(i as int),
                operations@.skip(lead.len() as int),
            ),
        decreases segment.records.len() - i,
    {
        let ghost earlier = operations@;
        match resolve_record(boundary, &segment.records[i]) {
            Err(reason) => {
                return Err(reason);
            },
            Ok(mut added) => {
                let ghost chunk = added;
                operations.append(&mut added);
                proof {
                    let from = lead.len() as int;
                    let records = segment.records@.take(i as int + 1);
                    let all = operations@.skip(from);
                    assert(records.drop_last() =~= segment.records@.take(i as int));
                    assert(records.last() == segment.records@[i as int]);
                    assert(operations@ =~= earlier + chunk@);
                    assert(operations@.take(from) =~= earlier.take(from));
                    assert(all.take(all.len() - chunk@.len()) =~= earlier.skip(from));
                    assert(chunk@ =~= all.skip(all.len() - chunk@.len()));
                    assert(records_projected(*resolve_record, boundary, records, all));
                }
            },
        }
        i += 1;
    }
    let ghost body = operations@;
    assert(segment.records@.take(i as int) =~= segment.records@);
    if !boundary.continues_next {
        operations.push(boundary_operation(EncoderBoundary::End(boundary.kind)));
    }
    proof {
        let from = lead.len() as int;
        let to = body.len() as int;
        assert(operations@.take(from) =~= body.take(from));
        assert(operations@.subrange(from, to) =~= body.skip(from));
    }
    Ok(ResolvedExecSegment { boundary, operations })
}

fn project_stream<
    Operation,
    Error,
    Boundary: Fn(EncoderBoundary) -> Operation,
    Resolve: Fn(SegmentBoundary, &DecodedReplacementRecord) -> Result<Vec<Operation>, Error>,
>(
    stream: &DecodedReplacementStream,
    boundary_operation: &Boundary,
    resolve_record: &Resolve,
) -> (result: Result<ResolvedExecStream<Operation>, Error>)
    requires
        forall|end: EncoderBoundary| call_requires(*boundary_operation, (end,)),
        forall|at: SegmentBoundary, record: &DecodedReplacementRecord|
            call_requires(*resolve_record, (at, record)),
    ensures
        match result {
            Ok(to) => stream_projected(*boundary_operation, *resolve_record, *stream, to),
            Err(reason) => stream_refused::<Operation, Error, Boundary, Resolve>(
                *boundary_operation,
                *resolve_record,
                *stream,
                reason,
            ),
        },
{
    let mut segments: Vec<ResolvedExecSegment<Operation>> = Vec::new();
    let mut i: usize = 0;
    while i < stream.segments.len()
        invariant
            i <= stream.segments@.len(),
            segments@.len() == i,
            forall|end: EncoderBoundary| call_requires(*boundary_operation, (end,)),
            forall|at: SegmentBoundary, record: &DecodedReplacementRecord|
                call_requires(*resolve_record, (at, record)),
            forall|j: int|
                0 <= j < i ==> segment_projected(
                    *boundary_operation,
                    *resolve_record,
                    stream.segments@[j],
                    #[trigger] segments@[j],
                ),
        decreases stream.segments.len() - i,
    {
        match project_segment(&stream.segments[i], boundary_operation, resolve_record) {
            Err(reason) => {
                assert(segments@.len() < stream.segments@.len());
                return Err(reason);
            },
            Ok(segment) => {
                segments.push(segment);
            },
        }
        i += 1;
    }
    Ok(ResolvedExecStream { stream_index: stream.stream_index, segments })
}

/// Projects a set of decoded streams into operations. Encoders begin and end
/// where the places of their segments say, and nowhere else: a segment that
/// continues an encoder begins none, and only the one that closes it ends it. A
/// refused record hands the whole set back.
pub fn project_replacement_exec_streams<
    Operation,
    Error,
    Boundary: Fn(EncoderBoundary) -> Operation,
    Resolve: Fn(SegmentBoundary, &DecodedReplacementRecord) -> Result<Vec<Operation>, Error>,
>(
    streams: Vec<DecodedReplacementStream>,
    boundary_operation: Boundary,
    resolve_record: Resolve,
) -> (result: Result<
    Vec<ResolvedExecStream<Operation>>,
    ReplacementExecProjectionFailure<Error>,
>)
    requires
        forall|end: EncoderBoundary| call_requires(boundary_operation, (end,)),
        forall|at: SegmentBoundary, record: &DecodedReplacementRecord|
            call_requires(resolve_record, (at, record)),
    ensures
        match result {
            Ok(projected) => {
                &&& projected@.len() == streams@.len()
                &&& forall|i: int|
                    0 <= i < streams@.len() ==> stream_projected(
                        boundary_operation,
                        resolve_record,
                        streams@[i],
                        #[trigger] projected@[i],
                    )
            },
            Err(failure) => {
                &&& failure.streams == streams
                &&& streams_refused::<Operation, Error, Boundary, Resolve>(
                    boundary_operation,
                    resolve_record,
                    streams@,
                    failure.reason,
                )
            },
        },
{
    let mut projected: Vec<ResolvedExecStream<Operation>> = Vec::new();
    let mut i: usize = 0;
    while i < streams.len()
        invariant
            i <= streams@.len(),
            projected@.len() == i,
            forall|end: EncoderBoundary| call_requires(boundary_operation, (end,)),
            forall|at: SegmentBoundary, record: &DecodedReplacementRecord|
                call_requires(resolve_record, (at, record)),
            forall|j: int|
                0 <= j < i ==> stream_projected(
                    boundary_operation,
                    resolve_record,
                    streams@[j],
                    #[trigger] projected@[j],
                ),
        decreases streams.len() - i,
    {
        match project_stream(&streams[i], &boundary_operation, &resolve_record) {
            Err(reason) => {
                assert(projected@.len() < streams@.len());
                return Err(ReplacementExecProjectionFailure { reason, streams });
            },
            Ok(stream) => {
                projected.push(stream);
            },
        }
        i += 1;
    }
    Ok(projected)
}

/// A segment takes its place as it is framed, and its records as they decode; it
/// continues the encoder before it just where that is of its own kind, begins one
/// just where none is open, and leaves its own open just where it says so.
pub proof fn lemma_a_segment_is_placed_as_framed(
    stream_index: u32,
    segment: FramedSegment,
    kind: SegmentKind,
    open: Option<SegmentKind>,
)
    ensures
        ({
            let boundary = boundary_of(stream_index, segment, kind);
            &&& boundary.stream_index == stream_index
            &&& boundary.index == segment.index
            &&& boundary.kind == kind
            &&& boundary.continues_previous == segment.continues_previous
            &&& boundary.continues_next == segment.continues_next
            &&& joined(open, boundary) is Ok <==> if segment.continues_previous {
                open == Some(kind)
            } else {
                open is None
            }
            &&& match joined(open, boundary) {
                Err(ReplacementExecDecodeRefusal::ContinuationWithoutPrevious { boundary: at }) =>
                at == boundary && segment.continues_previous && open is None,
                Err(
                    ReplacementExecDecodeRefusal::ContinuationTypeMismatch {
                        boundary: at,
                        previous_type,
                    },
                ) => at == boundary && segment.continues_previous && open == Some(previous_type)
                    && previous_type != kind,
                Err(
                    ReplacementExecDecodeRefusal::RestartBeforeClose {
                        boundary: at,
                        previous_type,
                    },
                ) => at == boundary && !segment.continues_previous && open == Some(previous_type),
                Err(_) => false,
                Ok(_) => true,
            }
            &&& segment.continues_next ==> left_open(boundary) == Some(kind)
            &&& !segment.continues_next ==> left_open(boundary) is None
            &&& match (decoded_records(boundary, segment), segment.end) {
                (Ok(records), RecordsEnd::Done) => records == segment.records@,
                (
                    Err(
                        ReplacementExecDecodeRefusal::Record {
                            boundary: at,
                            opcode,
                            offset,
                            reason,
                        },
                    ),
                    RecordsEnd::Refused { opcode: refused, offset: place, status },
                ) => at == boundary && opcode == refused && offset == place && match kind {
                    SegmentKind::Render => reason == ReplacementRecordDecodeRefusal::Render(status),
                    SegmentKind::Compute => reason == ReplacementRecordDecodeRefusal::Compute(
                        status,
                    ),
                    SegmentKind::Blit => reason == ReplacementRecordDecodeRefusal::Blit(status),
                    SegmentKind::Event => reason == ReplacementRecordDecodeRefusal::Event(status),
                    SegmentKind::Info => reason == ReplacementRecordDecodeRefusal::Info(status),
                },
                (
                    Err(ReplacementExecDecodeRefusal::Stream { stream_index: of, reason }),
                    RecordsEnd::Broken(broken),
                ) => of == stream_index && reason == broken,
                _ => false,
            }
        }),
{
}

/// What contracts say of a decoded segment or stream is what it holds.
pub proof fn lemma_a_decoded_stream_is_seen_whole(
    segment: DecodedReplacementSegment,
    stream: DecodedReplacementStream,
)
    ensures
        segment@.boundary == segment.boundary,
        segment@.records == segment.records@,
        stream@.stream_index == stream.stream_index,
        stream@.segments.len() == stream.segments@.len(),
        forall|i: int|
            0 <= i < stream.segments@.len() ==> stream@.segments[i] == (
            #[trigger] stream.segments@[i])@,
{
}

} // verus!
