//! The walk over a stream's segments, and where it stands among the records
//! that were resolved before it.

use vstd::prelude::*;

use crate::census::{chain_route, segment_chain_route, SegmentLifetime};
use crate::draw_request::{load_word, word_at};
use crate::encoder_state::SegmentKind;
use crate::exec_result::{counted, ExecResult, ExecResultView};
use crate::refusals::{fields_view, FieldValue, FieldView};
use crate::render_rail::{OperationClass, OperationHome};

verus! {

/// Where a record stands: the segment, counted over the whole packet, and the
/// record in it.
#[derive(Clone, Copy, Debug, PartialEq, Eq, Structural)]
pub struct StreamPosition {
    pub segment: u32,
    pub record: u32,
}

impl StreamPosition {
    /// Whether a record comes before another.
    pub open spec fn before(self, other: StreamPosition) -> bool {
        self.segment < other.segment || (self.segment == other.segment && self.record
            < other.record)
    }

    fn is_before(self, other: StreamPosition) -> (before: bool)
        ensures
            before == self.before(other),
    {
        self.segment < other.segment || (self.segment == other.segment && self.record
            < other.record)
    }
}

/// A record that was resolved before the walk.
#[derive(Clone, Copy, Debug, PartialEq, Eq, Structural)]
pub struct ResolvedRecord {
    pub at: StreamPosition,
    pub class: OperationClass,
}

/// Whether records stand in the order of their positions, one at each.
pub open spec fn in_order(records: Seq<ResolvedRecord>) -> bool {
    forall|i: int, j: int|
        0 <= i < j < records.len() ==> (#[trigger] records[i]).at.before(
            (#[trigger] records[j]).at,
        )
}

/// Where a walk stands among the records that were resolved before it.
#[derive(Debug, PartialEq, Eq)]
pub struct ResolvedCursor {
    records: Vec<ResolvedRecord>,
    at: StreamPosition,
}

/// What contracts say of a cursor.
#[verifier::ext_equal]
pub struct CursorView {
    pub records: Seq<ResolvedRecord>,
    pub at: StreamPosition,
}

impl View for ResolvedCursor {
    type V = CursorView;

    closed spec fn view(&self) -> CursorView {
        CursorView { records: self.records@, at: self.at }
    }
}

/// The class that a record of a stream is judged by: that of its opcode, where
/// the protocol puts the opcode in a stream.
pub fn stream_class(home: Option<OperationHome>) -> (class: Option<OperationClass>)
    ensures
        class == match home {
            Some(OperationHome::Stream(class)) => Some(class),
            _ => None::<OperationClass>,
        },
{
    match home {
        Some(OperationHome::Stream(class)) => Some(class),
        Some(OperationHome::ObjectLifecycle) | None => None,
    }
}

/// What a walk finds where it stands.
#[derive(Clone, Copy, Debug, PartialEq, Eq, Structural)]
pub enum CursorStep {
    /// No record was resolved for this position.
    NoRecord,
    /// Nothing says which class the record should have.
    Unjudged,
    /// The record has another class.
    ClassDiffers,
    /// The record, by its place among those resolved.
    Aligned(usize),
}

/// Whether a step is what a walk finds at a position.
pub open spec fn step_found(
    records: Seq<ResolvedRecord>,
    at: StreamPosition,
    expected: Option<OperationClass>,
    step: CursorStep,
) -> bool {
    match step {
        CursorStep::NoRecord => forall|i: int|
            0 <= i < records.len() ==> (#[trigger] records[i]).at != at,
        CursorStep::Unjudged => {
            &&& expected is None
            &&& exists|i: int| 0 <= i < records.len() && (#[trigger] records[i]).at == at
        },
        CursorStep::ClassDiffers => exists|i: int|
            {
                &&& 0 <= i < records.len()
                &&& (#[trigger] records[i]).at == at
                &&& expected is Some
                &&& expected != Some(records[i].class)
            },
        CursorStep::Aligned(index) => {
            &&& index < records.len()
            &&& records[index as int].at == at
            &&& expected == Some(records[index as int].class)
        },
    }
}

impl CursorStep {
    pub open spec fn route_of(self) -> Seq<char> {
        match self {
            CursorStep::NoRecord => "resolved_walk_no_record"@,
            CursorStep::Unjudged => "resolved_walk_unjudged"@,
            CursorStep::ClassDiffers => "resolved_walk_class_differs"@,
            CursorStep::Aligned(_) => "resolved_walk_aligned"@,
        }
    }

    /// The name under which the step is counted.
    pub fn route(self) -> (route: &'static str)
        ensures
            route@ == self.route_of(),
    {
        match self {
            CursorStep::NoRecord => "resolved_walk_no_record",
            CursorStep::Unjudged => "resolved_walk_unjudged",
            CursorStep::ClassDiffers => "resolved_walk_class_differs",
            CursorStep::Aligned(_) => "resolved_walk_aligned",
        }
    }
}

impl ResolvedCursor {
    /// A cursor before the first record of a packet.
    pub fn new(records: Vec<ResolvedRecord>) -> (cursor: ResolvedCursor)
        ensures
            cursor@ == (CursorView {
                records: records@,
                at: StreamPosition { segment: 0, record: 0 },
            }),
    {
        ResolvedCursor { records, at: StreamPosition { segment: 0, record: 0 } }
    }

    /// Goes on to the first record of the next segment.
    pub fn end_segment(&mut self)
        requires
            old(self)@.at.segment < u32::MAX,
        ensures
            final(self)@ == (CursorView {
                at: StreamPosition { segment: (old(self)@.at.segment + 1) as u32, record: 0 },
                ..old(self)@
            }),
    {
        self.at.segment = self.at.segment + 1;
        self.at.record = 0;
    }

    fn find(&self) -> (found: Option<usize>)
        requires
            in_order(self@.records),
        ensures
            match found {
                Some(index) => index < self@.records.len() && self@.records[index as int].at
                    == self@.at,
                None => forall|i: int|
                    0 <= i < self@.records.len() ==> (#[trigger] self@.records[i]).at != self@.at,
            },
    {
        let mut low: usize = 0;
        let mut high: usize = self.records.len();
        while low < high
            invariant
                in_order(self.records@),
                low <= high <= self.records@.len(),
                forall|i: int| 0 <= i < low ==> (#[trigger] self.records@[i]).at.before(self.at),
                forall|i: int|
                    high <= i < self.records@.len() ==> self.at.before(
                        (#[trigger] self.records@[i]).at,
                    ),
            decreases high - low,
        {
            let middle: usize = low + (high - low) / 2;
            let at = self.records[middle].at;
            if at == self.at {
                return Some(middle);
            }
            if at.is_before(self.at) {
                assert forall|i: int| 0 <= i <= middle implies (
                #[trigger] self.records@[i]).at.before(self.at) by {
                    if i < middle {
                        assert(self.records@[i].at.before(self.records@[middle as int].at));
                    }
                }
                low = middle + 1;
            } else {
                assert forall|i: int| middle <= i < self.records@.len() implies self.at.before(
                    (#[trigger] self.records@[i]).at,
                ) by {
                    if i > middle {
                        assert(self.records@[middle as int].at.before(self.records@[i].at));
                    }
                }
                high = middle;
            }
        }
        None
    }

    /// What was resolved where the walk stands. The walk goes on whatever the
    /// answer is, so a record that is missing puts no later one out of step.
    pub fn step(&mut self, expected: Option<OperationClass>) -> (step: CursorStep)
        requires
            in_order(old(self)@.records),
            old(self)@.at.record < u32::MAX,
        ensures
            step_found(old(self)@.records, old(self)@.at, expected, step),
            final(self)@ == (CursorView {
                at: StreamPosition {
                    record: (old(self)@.at.record + 1) as u32,
                    ..old(self)@.at
                },
                ..old(self)@
            }),
    {
        let found = self.find();
        self.at.record = self.at.record + 1;
        match found {
            None => CursorStep::NoRecord,
            Some(index) => {
                let record = self.records[index];
                assert(self@.records[index as int].at == old(self)@.at);
                match expected {
                    None => CursorStep::Unjudged,
                    Some(class) => {
                        if record.class != class {
                            CursorStep::ClassDiffers
                        } else {
                            CursorStep::Aligned(index)
                        }
                    },
                }
            },
        }
    }
}

/// What a walk finds at a position does not depend on how it got there: in
/// order, a record and a class have one answer.
pub proof fn lemma_a_position_has_one_answer(
    records: Seq<ResolvedRecord>,
    at: StreamPosition,
    expected: Option<OperationClass>,
    one: CursorStep,
    other: CursorStep,
)
    requires
        in_order(records),
        step_found(records, at, expected, one),
        step_found(records, at, expected, other),
    ensures
        one == other,
{
    assert forall|i: int, j: int|
        0 <= i < records.len() && 0 <= j < records.len() && (#[trigger] records[i]).at == at && (
        #[trigger] records[j]).at == at implies i == j by {
        if i < j {
            assert(records[i].at.before(records[j].at));
        } else if j < i {
            assert(records[j].at.before(records[i].at));
        }
    }
}

/// What a stream's segments leave open: the compute segment, whose records are
/// run together at its end.
#[derive(Clone, Copy, Debug, PartialEq, Eq, Structural)]
pub struct StreamSink {
    pub compute_open: bool,
}

/// What takes a record of a segment.
#[derive(Clone, Copy, Debug, PartialEq, Eq, Structural)]
pub enum RecordRoute {
    Render,
    Blit,
    Compute,
    /// A compute record outside of every compute segment: it is lost.
    ComputeUnopened,
    Event,
    Info,
}

impl StreamSink {
    /// Opens a segment. Whether the compute segment before it was still open,
    /// and is to be run first.
    pub fn begin_segment(&mut self, kind: SegmentKind) -> (run_first: bool)
        ensures
            run_first == old(self).compute_open,
            final(self).compute_open == (kind == SegmentKind::Compute),
    {
        let run_first = self.compute_open;
        self.compute_open = kind == SegmentKind::Compute;
        run_first
    }

    pub open spec fn record_route(self, kind: SegmentKind) -> RecordRoute {
        match kind {
            SegmentKind::Render => RecordRoute::Render,
            SegmentKind::Blit => RecordRoute::Blit,
            SegmentKind::Compute => if self.compute_open {
                RecordRoute::Compute
            } else {
                RecordRoute::ComputeUnopened
            },
            SegmentKind::Event => RecordRoute::Event,
            SegmentKind::Info => RecordRoute::Info,
        }
    }

    /// What takes a record: the kind of its segment says, never its opcode.
    pub fn record(&self, kind: SegmentKind) -> (route: RecordRoute)
        ensures
            route == self.record_route(kind),
    {
        match kind {
            SegmentKind::Render => RecordRoute::Render,
            SegmentKind::Blit => RecordRoute::Blit,
            SegmentKind::Compute => {
                if self.compute_open {
                    RecordRoute::Compute
                } else {
                    RecordRoute::ComputeUnopened
                }
            },
            SegmentKind::Event => RecordRoute::Event,
            SegmentKind::Info => RecordRoute::Info,
        }
    }

    /// Closes the segment. Whether a compute segment is to be run.
    pub fn end_segment(&mut self) -> (run: bool)
        ensures
            run == old(self).compute_open,
            !final(self).compute_open,
    {
        let run = self.compute_open;
        self.compute_open = false;
        run
    }
}

/// The result of a submission once a compute segment has run: it had nothing to
/// run, it ran, or all of its work failed.
pub fn note_session_finished(out: &mut ExecResult, ran: Option<bool>)
    ensures
        final(out)@ == if ran == Some(false) {
            ExecResultView {
                compute_control_fail: counted(old(out)@.compute_control_fail, 1),
                ..old(out)@
            }
        } else {
            old(out)@
        },
{
    if let Some(ran) = ran {
        if !ran {
            out.compute_control_fail = out.compute_control_fail.saturating_add(1);
        }
    }
}

/// A segment, as far as it frames.
#[derive(Clone, Copy, Debug, PartialEq, Eq, Structural)]
pub enum WalkedSegment {
    Encoder { kind: SegmentKind, lifetime: SegmentLifetime },
    /// Options around a segment, which hold no record.
    Envelope,
    /// Bytes that frame no segment.
    Refused,
}

/// A step of the walk over a stream.
#[derive(Clone, Copy, Debug, PartialEq, Eq)]
#[allow(inconsistent_fields)]
pub enum WalkStep {
    /// Opens a segment, counted under a name.
    Open { segment: usize, kind: SegmentKind, route: &'static str },
    /// Closes the segment; whether its compute work is to be run.
    Close { segment: usize, run: bool },
    /// Stops: nothing behind these bytes is walked.
    Stop { segment: usize },
}

/// What contracts say of a step.
#[allow(inconsistent_fields)]
pub enum WalkStepView {
    Open { segment: usize, kind: SegmentKind, route: Seq<char> },
    Close { segment: usize, run: bool },
    Stop { segment: usize },
}

impl View for WalkStep {
    type V = WalkStepView;

    open spec fn view(&self) -> WalkStepView {
        match *self {
            WalkStep::Open { segment, kind, route } => WalkStepView::Open {
                segment,
                kind,
                route: route@,
            },
            WalkStep::Close { segment, run } => WalkStepView::Close { segment, run },
            WalkStep::Stop { segment } => WalkStepView::Stop { segment },
        }
    }
}

/// The contents of a list of steps.
pub open spec fn steps_view(steps: Seq<WalkStep>) -> Seq<WalkStepView> {
    Seq::new(steps.len(), |i: int| steps[i]@)
}

/// The walk over the segments from one on, behind the steps taken so far.
pub open spec fn walk_from(segments: Seq<WalkedSegment>, at: int, taken: Seq<WalkStepView>) -> Seq<
    WalkStepView,
>
    decreases segments.len() - at,
{
    if at < 0 || at >= segments.len() {
        taken
    } else {
        match segments[at] {
            WalkedSegment::Refused => taken.push(WalkStepView::Stop { segment: at as usize }),
            WalkedSegment::Envelope => walk_from(segments, at + 1, taken),
            WalkedSegment::Encoder { kind, lifetime } => walk_from(
                segments,
                at + 1,
                taken.push(
                    WalkStepView::Open { segment: at as usize, kind, route: chain_route(lifetime) },
                ).push(
                    WalkStepView::Close {
                        segment: at as usize,
                        run: kind == SegmentKind::Compute,
                    },
                ),
            ),
        }
    }
}

/// Walks a stream's segments: each opens and closes, an envelope is stepped
/// over, and bytes that frame no segment end the walk.
pub fn walk_stream(segments: &Vec<WalkedSegment>) -> (steps: Vec<WalkStep>)
    ensures
        steps_view(steps@) == walk_from(segments@, 0, Seq::empty()),
{
    let mut steps: Vec<WalkStep> = Vec::new();
    let mut sink = StreamSink { compute_open: false };
    let mut i: usize = 0;
    assert(steps_view(steps@) =~= Seq::empty());
    while i < segments.len()
        invariant
            i <= segments@.len(),
            !sink.compute_open,
            walk_from(segments@, 0, Seq::empty()) == walk_from(
                segments@,
                i as int,
                steps_view(steps@),
            ),
        decreases segments.len() - i,
    {
        let ghost taken = steps@;
        match segments[i] {
            WalkedSegment::Refused => {
                steps.push(WalkStep::Stop { segment: i });
                assert(steps_view(steps@) =~= steps_view(taken).push(
                    WalkStepView::Stop { segment: i },
                ));
                return steps;
            },
            WalkedSegment::Envelope => {},
            WalkedSegment::Encoder { kind, lifetime } => {
                let route = segment_chain_route(lifetime);
                sink.begin_segment(kind);
                steps.push(WalkStep::Open { segment: i, kind, route });
                let run = sink.end_segment();
                steps.push(WalkStep::Close { segment: i, run });
                assert(steps_view(steps@) =~= steps_view(taken).push(
                    WalkStepView::Open { segment: i, kind, route: chain_route(lifetime) },
                ).push(WalkStepView::Close { segment: i, run }));
            },
        }
        i += 1;
    }
    steps
}

/// Whether steps open and close segments in turn, and stop only at their end.
pub open spec fn in_turn(steps: Seq<WalkStepView>) -> bool
    decreases steps.len(),
{
    if steps.len() == 0 {
        true
    } else {
        match steps[0] {
            WalkStepView::Stop { .. } => steps.len() == 1,
            WalkStepView::Close { .. } => false,
            WalkStepView::Open { segment, kind, .. } => {
                &&& steps.len() >= 2
                &&& steps[1] == (WalkStepView::Close {
                    segment,
                    run: kind == SegmentKind::Compute,
                })
                &&& in_turn(steps.skip(2))
            },
        }
    }
}

spec fn pairs(steps: Seq<WalkStepView>) -> bool
    decreases steps.len(),
{
    if steps.len() == 0 {
        true
    } else {
        &&& steps.len() >= 2
        &&& match steps[0] {
            WalkStepView::Open { segment, kind, .. } => steps[1] == (WalkStepView::Close {
                segment,
                run: kind == SegmentKind::Compute,
            }),
            _ => false,
        }
        &&& pairs(steps.skip(2))
    }
}

proof fn lemma_pairs_extend(steps: Seq<WalkStepView>, open: WalkStepView, close: WalkStepView)
    requires
        pairs(steps),
        match open {
            WalkStepView::Open { segment, kind, .. } => close == (WalkStepView::Close {
                segment,
                run: kind == SegmentKind::Compute,
            }),
            _ => false,
        },
    ensures
        pairs(steps.push(open).push(close)),
    decreases steps.len(),
{
    let longer = steps.push(open).push(close);
    if steps.len() == 0 {
        assert(longer.skip(2) =~= Seq::empty());
        assert(pairs(longer.skip(2)));
    } else {
        lemma_pairs_extend(steps.skip(2), open, close);
        assert(longer.skip(2) =~= steps.skip(2).push(open).push(close));
    }
}

proof fn lemma_pairs_in_turn(steps: Seq<WalkStepView>)
    requires
        pairs(steps),
    ensures
        in_turn(steps),
        forall|segment: usize| in_turn(#[trigger] steps.push(WalkStepView::Stop { segment })),
    decreases steps.len(),
{
    if steps.len() > 0 {
        lemma_pairs_in_turn(steps.skip(2));
        assert forall|segment: usize| in_turn(
            #[trigger] steps.push(WalkStepView::Stop { segment }),
        ) by {
            let longer = steps.push(WalkStepView::Stop { segment });
            assert(longer.skip(2) =~= steps.skip(2).push(WalkStepView::Stop { segment }));
            assert(in_turn(longer.skip(2)));
        }
    }
}

proof fn lemma_walk_in_turn(segments: Seq<WalkedSegment>, at: int, taken: Seq<WalkStepView>)
    requires
        pairs(taken),
    ensures
        in_turn(walk_from(segments, at, taken)),
    decreases segments.len() - at,
{
    lemma_pairs_in_turn(taken);
    if 0 <= at < segments.len() {
        match segments[at] {
            WalkedSegment::Refused => {},
            WalkedSegment::Envelope => lemma_walk_in_turn(segments, at + 1, taken),
            WalkedSegment::Encoder { kind, lifetime } => {
                let open = WalkStepView::Open {
                    segment: at as usize,
                    kind,
                    route: chain_route(lifetime),
                };
                let close = WalkStepView::Close {
                    segment: at as usize,
                    run: kind == SegmentKind::Compute,
                };
                lemma_pairs_extend(taken, open, close);
                lemma_walk_in_turn(segments, at + 1, taken.push(open).push(close));
            },
        }
    }
}

/// In every walk each segment that opens closes before the next, compute work
/// is run at the end of its own segment, and nothing follows a stop.
pub proof fn lemma_segments_open_and_close_in_turn(segments: Seq<WalkedSegment>)
    ensures
        in_turn(walk_from(segments, 0, Seq::empty())),
{
    lemma_walk_in_turn(segments, 0, Seq::empty());
}

/// The names for a segment's records: their number, and their time.
pub open spec fn walk_routes(kind: SegmentKind) -> (Seq<char>, Seq<char>) {
    match kind {
        SegmentKind::Render => ("walk_records_render"@, "walk_render_us"@),
        SegmentKind::Blit => ("walk_records_blit"@, "walk_blit_us"@),
        SegmentKind::Compute => ("walk_records_compute"@, "walk_compute_us"@),
        SegmentKind::Event | SegmentKind::Info => ("walk_records_other"@, "walk_other_us"@),
    }
}

/// Names a segment's records.
pub fn note_walked_records(kind: SegmentKind) -> (routes: (&'static str, &'static str))
    ensures
        (routes.0@, routes.1@) == walk_routes(kind),
{
    match kind {
        SegmentKind::Render => ("walk_records_render", "walk_render_us"),
        SegmentKind::Blit => ("walk_records_blit", "walk_blit_us"),
        SegmentKind::Compute => ("walk_records_compute", "walk_compute_us"),
        SegmentKind::Event | SegmentKind::Info => ("walk_records_other", "walk_other_us"),
    }
}

/// Why a segment's records stop framing.
#[derive(Clone, Copy, Debug, PartialEq, Eq, Structural)]
#[allow(inconsistent_fields)]
pub enum RecordFraming {
    ShortHeader { need: u64, have: u64 },
    BadLength { opcode: u32, length: u32, remaining: u64 },
    OutOfRange { offset: u64, len: u64 },
    CountOverflow { count: u64, elem: u64 },
}

impl RecordFraming {
    pub open spec fn refusal_of(self) -> Seq<char> {
        match self {
            RecordFraming::ShortHeader { .. } => "stream_rec_short_header"@,
            RecordFraming::BadLength { .. } => "stream_rec_bad_length"@,
            RecordFraming::OutOfRange { .. } => "stream_rec_view_out_of_range"@,
            RecordFraming::CountOverflow { .. } => "stream_rec_count_overflow"@,
        }
    }

    /// The name of the reason.
    pub fn refusal(&self) -> (slug: &'static str)
        ensures
            slug@ == self.refusal_of(),
    {
        match self {
            RecordFraming::ShortHeader { .. } => "stream_rec_short_header",
            RecordFraming::BadLength { .. } => "stream_rec_bad_length",
            RecordFraming::OutOfRange { .. } => "stream_rec_view_out_of_range",
            RecordFraming::CountOverflow { .. } => "stream_rec_count_overflow",
        }
    }

    pub open spec fn fields_of(self) -> Seq<(Seq<char>, FieldView)> {
        match self {
            RecordFraming::ShortHeader { need, have } => seq![
                ("need"@, FieldView::Decimal(need)),
                ("have"@, FieldView::Decimal(have)),
            ],
            RecordFraming::BadLength { opcode, length, remaining } => seq![
                ("opcode"@, FieldView::Hex(opcode as u64)),
                ("length"@, FieldView::Decimal(length as u64)),
                ("remaining"@, FieldView::Decimal(remaining)),
            ],
            RecordFraming::OutOfRange { offset, len } => seq![
                ("offset"@, FieldView::Decimal(offset)),
                ("len"@, FieldView::Decimal(len)),
            ],
            RecordFraming::CountOverflow { count, elem } => seq![
                ("count"@, FieldView::Decimal(count)),
                ("elem"@, FieldView::Decimal(elem)),
            ],
        }
    }

    /// The values that a report states beside the reason.
    pub fn fields(&self) -> (fields: Vec<(&'static str, FieldValue)>)
        ensures
            fields_view(fields@) == self.fields_of(),
    {
        let fields = match *self {
            RecordFraming::ShortHeader { need, have } => vec![
                ("need", FieldValue::Decimal(need)),
                ("have", FieldValue::Decimal(have)),
            ],
            RecordFraming::BadLength { opcode, length, remaining } => vec![
                ("opcode", FieldValue::Hex(opcode as u64)),
                ("length", FieldValue::Decimal(length as u64)),
                ("remaining", FieldValue::Decimal(remaining)),
            ],
            RecordFraming::OutOfRange { offset, len } => vec![
                ("offset", FieldValue::Decimal(offset)),
                ("len", FieldValue::Decimal(len)),
            ],
            RecordFraming::CountOverflow { count, elem } => vec![
                ("count", FieldValue::Decimal(count)),
                ("elem", FieldValue::Decimal(elem)),
            ],
        };
        assert(fields_view(fields@) =~= self.fields_of());
        fields
    }
}

/// The bytes of a record's header: its opcode, and its whole length.
pub const RECORD_HEADER_BYTES: u64 = 8;

/// A record, by where it stands in its segment's bytes.
#[derive(Clone, Copy, Debug, PartialEq, Eq, Structural)]
pub struct FramedRecord {
    pub opcode: u32,
    pub offset: u64,
    pub length: u32,
}

/// What the bytes from one on frame, behind the records framed so far.
pub open spec fn frames_from(bytes: Seq<u8>, at: int, taken: Seq<FramedRecord>) -> (
    Seq<FramedRecord>,
    Option<RecordFraming>,
)
    decreases bytes.len() - at,
{
    if at < 0 || at >= bytes.len() {
        (taken, None)
    } else if bytes.len() - at < RECORD_HEADER_BYTES {
        (
            taken,
            Some(
                RecordFraming::ShortHeader {
                    need: RECORD_HEADER_BYTES,
                    have: (bytes.len() - at) as u64,
                },
            ),
        )
    } else {
        let opcode = word_at(bytes, at);
        let length = word_at(bytes, at + 4);
        if length < RECORD_HEADER_BYTES || length > bytes.len() - at {
            (
                taken,
                Some(
                    RecordFraming::BadLength {
                        opcode,
                        length,
                        remaining: (bytes.len() - at) as u64,
                    },
                ),
            )
        } else {
            frames_from(
                bytes,
                at + length,
                taken.push(FramedRecord { opcode, offset: at as u64, length }),
            )
        }
    }
}

/// Frames a segment's records, up to the first that does not frame.
pub fn walk_segment_records(bytes: &Vec<u8>) -> (framed: (Vec<FramedRecord>, Option<RecordFraming>))
    ensures
        (framed.0@, framed.1) == frames_from(bytes@, 0, Seq::empty()),
{
    let len: usize = bytes.len();
    let mut records: Vec<FramedRecord> = Vec::new();
    let mut at: usize = 0;
    assert(records@ =~= Seq::empty());
    while at < len
        invariant
            len == bytes@.len(),
            at <= len,
            frames_from(bytes@, 0, Seq::empty()) == frames_from(bytes@, at as int, records@),
        decreases len - at,
    {
        let remaining: u64 = (len - at) as u64;
        if remaining < RECORD_HEADER_BYTES {
            return (
                records,
                Some(RecordFraming::ShortHeader { need: RECORD_HEADER_BYTES, have: remaining }),
            );
        }
        let opcode = load_word(bytes, at);
        let length = load_word(bytes, at + 4);
        if (length as u64) < RECORD_HEADER_BYTES || length as u64 > remaining {
            return (records, Some(RecordFraming::BadLength { opcode, length, remaining }));
        }
        records.push(FramedRecord { opcode, offset: at as u64, length });
        at += length as usize;
    }
    (records, None)
}

/// Whether records stand one behind the other from the first byte up to `end`,
/// each with its header.
pub open spec fn tiled(records: Seq<FramedRecord>, end: int) -> bool
    decreases records.len(),
{
    if records.len() == 0 {
        end == 0
    } else {
        &&& records.last().length >= RECORD_HEADER_BYTES
        &&& records.last().offset + records.last().length == end
        &&& tiled(records.drop_last(), records.last().offset as int)
    }
}

proof fn lemma_frames_tile(bytes: Seq<u8>, at: int, taken: Seq<FramedRecord>)
    requires
        0 <= at <= bytes.len() <= u64::MAX,
        tiled(taken, at),
    ensures
        ({
            let (records, refusal) = frames_from(bytes, at, taken);
            &&& exists|end: int| 0 <= end <= bytes.len() && #[trigger] tiled(records, end)
            &&& refusal is None ==> tiled(records, bytes.len() as int)
        }),
    decreases bytes.len() - at,
{
    let framed = frames_from(bytes, at, taken);
    let opcode = word_at(bytes, at);
    let length = word_at(bytes, at + 4);
    if at < bytes.len() && bytes.len() - at >= RECORD_HEADER_BYTES && length
        >= RECORD_HEADER_BYTES && length <= bytes.len() - at {
        let record = FramedRecord { opcode, offset: at as u64, length };
        assert(taken.push(record).drop_last() =~= taken);
        lemma_frames_tile(bytes, at + length, taken.push(record));
        assert(framed == frames_from(bytes, at + length, taken.push(record)));
    } else {
        assert(framed.0 == taken);
        assert(tiled(framed.0, at));
    }
}

/// The records of a segment stand one behind the other from its first byte on,
/// and where nothing is refused they reach its last.
pub proof fn lemma_records_tile_their_segment(bytes: Seq<u8>)
    requires
        bytes.len() <= u64::MAX,
    ensures
        ({
            let (records, refusal) = frames_from(bytes, 0, Seq::empty());
            &&& exists|end: int| 0 <= end <= bytes.len() && #[trigger] tiled(records, end)
            &&& refusal is None ==> tiled(records, bytes.len() as int)
        }),
{
    lemma_frames_tile(bytes, 0, Seq::empty());
}

proof fn lemma_walk_keeps_what_was_taken(
    segments: Seq<WalkedSegment>,
    at: int,
    taken: Seq<WalkStepView>,
)
    requires
        0 <= at,
    ensures
        walk_from(segments, at, taken).len() >= taken.len(),
        forall|k: int|
            0 <= k < taken.len() ==> #[trigger] walk_from(segments, at, taken)[k] == taken[k],
    decreases segments.len() - at,
{
    if at < segments.len() {
        match segments[at] {
            WalkedSegment::Refused => {},
            WalkedSegment::Envelope => {
                lemma_walk_keeps_what_was_taken(segments, at + 1, taken);
            },
            WalkedSegment::Encoder { kind, lifetime } => {
                let open = WalkStepView::Open {
                    segment: at as usize,
                    kind,
                    route: chain_route(lifetime),
                };
                let close = WalkStepView::Close {
                    segment: at as usize,
                    run: kind == SegmentKind::Compute,
                };
                let more = taken.push(open).push(close);
                lemma_walk_keeps_what_was_taken(segments, at + 1, more);
                assert forall|k: int| 0 <= k < taken.len() implies #[trigger] walk_from(
                    segments,
                    at,
                    taken,
                )[k] == taken[k] by {
                    assert(walk_from(segments, at + 1, more)[k] == more[k]);
                }
            },
        }
    }
}

proof fn lemma_walk_opens(
    segments: Seq<WalkedSegment>,
    from: int,
    taken: Seq<WalkStepView>,
    at: int,
)
    requires
        0 <= from <= at < segments.len(),
        segments.len() <= usize::MAX,
        forall|i: int| from <= i <= at ==> !((#[trigger] segments[i]) is Refused),
        segments[at] is Encoder,
    ensures
        opens_and_closes(walk_from(segments, from, taken), segments, at),
    decreases segments.len() - from,
{
    assert(!(segments[from] is Refused));
    match segments[from] {
        WalkedSegment::Refused => {},
        WalkedSegment::Envelope => {
            lemma_walk_opens(segments, from + 1, taken, at);
        },
        WalkedSegment::Encoder { kind, lifetime } => {
            let open = WalkStepView::Open {
                segment: from as usize,
                kind,
                route: chain_route(lifetime),
            };
            let close = WalkStepView::Close {
                segment: from as usize,
                run: kind == SegmentKind::Compute,
            };
            let more = taken.push(open).push(close);
            if from < at {
                lemma_walk_opens(segments, from + 1, more, at);
            } else {
                lemma_walk_keeps_what_was_taken(segments, from + 1, more);
                let k = taken.len() as int;
                let steps = walk_from(segments, from, taken);
                assert(steps == walk_from(segments, from + 1, more));
                assert(steps[k] == more[k]);
                assert(steps[k + 1] == more[k + 1]);
            }
        },
    }
}

/// Whether steps open a segment as what it is, and close it in the next step,
/// running its work if and only if it is a compute segment.
pub open spec fn opens_and_closes(
    steps: Seq<WalkStepView>,
    segments: Seq<WalkedSegment>,
    at: int,
) -> bool {
    exists|k: int|
        0 <= k < steps.len() - 1 && (#[trigger] steps[k] matches WalkStepView::Open {
            segment,
            kind,
            route,
        } && segment == at && segments[at] == (WalkedSegment::Encoder {
            kind,
            lifetime: segments[at]->Encoder_lifetime,
        }) && route == chain_route(segments[at]->Encoder_lifetime) && (steps[k
            + 1] matches WalkStepView::Close { segment: closed, run } && closed == at && (run
            <==> kind is Compute)))
}

/// Every segment before the first that frames nothing is opened as what it is
/// and closed in the next step.
pub proof fn lemma_every_segment_is_walked(segments: Seq<WalkedSegment>, at: int)
    requires
        0 <= at < segments.len(),
        segments.len() <= usize::MAX,
        forall|i: int| 0 <= i <= at ==> !((#[trigger] segments[i]) is Refused),
        segments[at] is Encoder,
    ensures
        opens_and_closes(walk_from(segments, 0, Seq::empty()), segments, at),
{
    lemma_walk_opens(segments, 0, Seq::empty(), at);
}

proof fn lemma_frames_are_words(bytes: Seq<u8>, at: int, taken: Seq<FramedRecord>)
    requires
        0 <= at <= bytes.len() <= u64::MAX,
        forall|i: int|
            0 <= i < taken.len() ==> (#[trigger] taken[i]).opcode == word_at(
                bytes,
                taken[i].offset as int,
            ) && taken[i].length == word_at(bytes, taken[i].offset + 4),
    ensures
        ({
            let (records, refusal) = frames_from(bytes, at, taken);
            &&& forall|i: int|
                0 <= i < records.len() ==> (#[trigger] records[i]).opcode == word_at(
                    bytes,
                    records[i].offset as int,
                ) && records[i].length == word_at(bytes, records[i].offset + 4)
        }),
    decreases bytes.len() - at,
{
    let opcode = word_at(bytes, at);
    let length = word_at(bytes, at + 4);
    if at < bytes.len() && bytes.len() - at >= RECORD_HEADER_BYTES && length
        >= RECORD_HEADER_BYTES && length <= bytes.len() - at {
        let record = FramedRecord { opcode, offset: at as u64, length };
        let more = taken.push(record);
        lemma_frames_are_words(bytes, at + length, more);
        assert(frames_from(bytes, at, taken) == frames_from(bytes, at + length, more));
    }
}

/// A framed record's opcode is the first word of its bytes and its length the
/// second.
pub proof fn lemma_a_record_is_its_words(bytes: Seq<u8>, i: int)
    requires
        bytes.len() <= u64::MAX,
        0 <= i < frames_from(bytes, 0, Seq::empty()).0.len(),
    ensures
        ({
            let record = frames_from(bytes, 0, Seq::empty()).0[i];
            &&& record.opcode == word_at(bytes, record.offset as int)
            &&& record.length == word_at(bytes, record.offset + 4)
        }),
{
    lemma_frames_are_words(bytes, 0, Seq::empty());
}

/// A record goes to the rail of its segment's kind; a compute record outside of
/// an open compute segment goes nowhere.
pub proof fn lemma_a_record_goes_to_its_rail(sink: StreamSink, kind: SegmentKind)
    ensures
        sink.record_route(kind) is Render <==> kind is Render,
        sink.record_route(kind) is Blit <==> kind is Blit,
        sink.record_route(kind) is Event <==> kind is Event,
        sink.record_route(kind) is Info <==> kind is Info,
        sink.record_route(kind) is Compute <==> kind is Compute && sink.compute_open,
        sink.record_route(kind) is ComputeUnopened <==> kind is Compute && !sink.compute_open,
{
}

} // verus!
