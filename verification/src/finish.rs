//! The end of a render stream: what it asks the device to do, in order, and
//! what each answer leads to.

use vstd::prelude::*;

use crate::command::ColorAttachment;
use crate::draw_request::{
    all_composited, bytes_view, chain_position, chain_source_of, color_slots_loading, colors_view,
    composite_colors, fill_draw_binds_from_pending, filled, multi_draw_chain_source, multi_draw_store_plan,
    render_pass_attachment_template, render_pass_chain_position, retarget_render_pass_draw,
    retargeted, slots_loading, store_plan, template_of, ColorRtView, DrawEncodeRequest,
    MultiDrawChainSource, RequestView,
};
use crate::exec_result::{counted, ExecResult, ExecResultView};
use crate::raster::{
    LOAD_ACTION_LOAD, STORE_ACTION_MULTISAMPLE_RESOLVE, STORE_ACTION_STORE,
    STORE_ACTION_STORE_AND_MULTISAMPLE_RESOLVE,
};
use crate::refusals::{fields_view, FieldValue, FieldView};
use crate::stream_accum::{
    published, publishes_single_sample, AccumView, BindState, BindStateView, DrawArgs, PendingView,
    StreamAccum, VisibilityArming,
};
use crate::tables::copy_all;
use crate::visibility::{add_samples, counts_with};

verus! {

/// What a stream waits for.
#[derive(Clone, Copy, Debug, PartialEq, Eq, Structural)]
pub enum FinishAt {
    /// The clear of an attachment, in a stream that draws nothing.
    Clearing { index: usize },
    /// The request that an execution is encoded from.
    IcbRequesting { index: usize },
    /// The range that an execution's arguments state.
    IcbRanging { index: usize },
    /// The encoding of an execution.
    IcbEncoding { index: usize },
    /// The marks on the targets of an execution that failed.
    IcbMarking { index: usize },
    /// The attachments of the pass.
    Resolving,
    /// The marks on the targets of a pass that has no attachments.
    ResolveMarking,
    /// The encoding of a draw.
    Drawing { index: usize },
    /// The image that the draws before a failure left.
    Landing,
    /// The occlusion counts.
    Writing,
    /// The clear of an attachment, in a stream whose draws all failed.
    Falling { index: usize },
    Done,
}

/// How encoding a draw went.
#[derive(Clone, Copy, Debug, PartialEq, Eq, Structural)]
pub enum EncodeStatus {
    Encoded,
    /// No device to encode for.
    NoMetal,
    Refused,
}

/// Why draws end before the last.
#[derive(Clone, Copy, Debug, PartialEq, Eq, Structural)]
pub enum ChainAbandonCause {
    /// A draw left nothing for the next to start from.
    NoColor0,
    NoMetal,
    TerminalRefusal,
}

/// The draw at which a stream gave up the rest of its draws.
#[derive(Clone, Copy, Debug, PartialEq, Eq, Structural)]
pub struct ChainAbandonDecline {
    /// The place of the draw among those that are encoded.
    pub index: usize,
    /// How many draws there are.
    pub total: usize,
    pub pipeline_ref: u32,
}

impl ChainAbandonDecline {
    /// The name under which a chain is reported that a draw without an image
    /// ended.
    pub fn slug(&self) -> (slug: &'static str)
        ensures
            slug@ == "draw_chain_abandoned_without_color0"@,
    {
        "draw_chain_abandoned_without_color0"
    }

    pub open spec fn fields_of(self) -> Seq<(Seq<char>, FieldView)> {
        seq![
            ("di"@, FieldView::Place(self.index as u64, self.total as u64)),
            ("lost"@, FieldView::Decimal((self.total - self.index - 1) as u64)),
            ("pipe"@, FieldView::Decimal(self.pipeline_ref as u64)),
        ]
    }

    /// The values that the report states: among them how many draws are given
    /// up.
    pub fn fields(&self) -> (fields: Vec<(&'static str, FieldValue)>)
        requires
            self.index < self.total,
        ensures
            fields_view(fields@) == self.fields_of(),
    {
        let lost: usize = self.total - self.index - 1;
        let fields = vec![
            ("di", FieldValue::Place(self.index as u64, self.total as u64)),
            ("lost", FieldValue::Decimal(lost as u64)),
            ("pipe", FieldValue::Decimal(self.pipeline_ref as u64)),
        ];
        assert(fields_view(fields@) =~= self.fields_of());
        fields
    }
}

/// An answer to what a stream asked for.
#[derive(Debug, PartialEq, Eq)]
pub enum FinishEvent {
    ClearApplied(bool),
    IcbRequested(bool),
    RangeRead(Option<(u64, u64)>),
    IcbEncoded(bool),
    TargetsMarked,
    Attached(Option<DrawEncodeRequest>),
    Drawn {
        status: EncodeStatus,
        /// The image that the draw left, where it left one.
        image: Option<Vec<u8>>,
        /// Whether the draw left its target on the device.
        resident_established: bool,
        visibility_samples: Option<u64>,
    },
    ChainLanded,
    VisibilityWritten,
}

/// A fallback to the clears of a stream whose draws all failed.
#[derive(Clone, Copy, Debug, PartialEq, Eq, Structural)]
pub struct ClearFallback {
    pub clears: u32,
    pub draws_fail: u32,
    pub nometal: bool,
}

/// What a stream asks for.
#[derive(Debug, PartialEq, Eq)]
pub enum FinishAction {
    ApplyClear(ColorAttachment),
    RequestIcb {
        pipeline_ref: u32,
        args: DrawArgs,
        slots: Vec<(u32, ColorAttachment)>,
        clears: Vec<ColorAttachment>,
    },
    ReadRange { buffer_ref: u32, offset: u64 },
    EncodeIcb { icb_ref: u32, location: u64, length: u64, state: BindState },
    MarkTargets,
    ResolveAttachments { pipeline_ref: u32, draw: DrawArgs },
    EncodeDraw {
        request: DrawEncodeRequest,
        /// What the draw starts from, after the first.
        source: Option<MultiDrawChainSource>,
        writeback: bool,
        force_full_store: bool,
    },
    LandChain {
        cause: ChainAbandonCause,
        /// Whether the image is still on the device.
        readback: bool,
        image: Option<Vec<u8>>,
        /// Where the draws ended.
        abandoned: ChainAbandonDecline,
    },
    WriteVisibility(Vec<(u64, u64)>),
    Finish { fallback: Option<ClearFallback> },
}

/// What contracts say of what a stream asks for.
#[verifier::ext_equal]
pub enum ActionView {
    ApplyClear(ColorAttachment),
    RequestIcb {
        pipeline_ref: u32,
        args: DrawArgs,
        slots: Seq<(u32, ColorAttachment)>,
        clears: Seq<ColorAttachment>,
    },
    ReadRange { buffer_ref: u32, offset: u64 },
    EncodeIcb { icb_ref: u32, location: u64, length: u64, state: BindStateView },
    MarkTargets,
    ResolveAttachments { pipeline_ref: u32, draw: DrawArgs },
    EncodeDraw {
        request: RequestView,
        source: Option<MultiDrawChainSource>,
        writeback: bool,
        force_full_store: bool,
    },
    LandChain {
        cause: ChainAbandonCause,
        readback: bool,
        image: Option<Seq<u8>>,
        abandoned: ChainAbandonDecline,
    },
    WriteVisibility(Seq<(u64, u64)>),
    Finish { fallback: Option<ClearFallback> },
}

impl View for FinishAction {
    type V = ActionView;

    open spec fn view(&self) -> ActionView {
        match *self {
            FinishAction::ApplyClear(att) => ActionView::ApplyClear(att),
            FinishAction::RequestIcb { pipeline_ref, args, slots, clears } => {
                ActionView::RequestIcb { pipeline_ref, args, slots: slots@, clears: clears@ }
            },
            FinishAction::ReadRange { buffer_ref, offset } => ActionView::ReadRange {
                buffer_ref,
                offset,
            },
            FinishAction::EncodeIcb { icb_ref, location, length, state } => {
                ActionView::EncodeIcb { icb_ref, location, length, state: state@ }
            },
            FinishAction::MarkTargets => ActionView::MarkTargets,
            FinishAction::ResolveAttachments { pipeline_ref, draw } => {
                ActionView::ResolveAttachments { pipeline_ref, draw }
            },
            FinishAction::EncodeDraw { request, source, writeback, force_full_store } => {
                ActionView::EncodeDraw { request: request@, source, writeback, force_full_store }
            },
            FinishAction::LandChain { cause, readback, image, abandoned } => ActionView::LandChain {
                cause,
                readback,
                image: bytes_view(image),
                abandoned,
            },
            FinishAction::WriteVisibility(counts) => ActionView::WriteVisibility(counts@),
            FinishAction::Finish { fallback } => ActionView::Finish { fallback },
        }
    }
}

/// How far the end of a stream has got.
#[derive(Debug, PartialEq, Eq)]
pub struct StreamFinish {
    at: FinishAt,
    /// Whether the stream draws.
    drew: bool,
    entry_ok: u32,
    entry_fail: u32,
    entry_clears: u32,
    /// The clears that may be read back.
    clears: Vec<ColorAttachment>,
    /// The draws that are encoded, by their place among those recorded.
    list: Vec<usize>,
    template: Option<DrawEncodeRequest>,
    chain: Option<Vec<u8>>,
    resident: bool,
    saw_nometal: bool,
    counts: Vec<(u64, u64)>,
    /// Whether the last request's first target is a mapping.
    unified: bool,
    /// The query of the last request.
    arming: Option<VisibilityArming>,
    /// The queries that no draw counted for.
    unanswered: Vec<VisibilityArming>,
}

/// What contracts say of the end of a stream.
#[verifier::ext_equal]
pub struct FinishView {
    pub at: FinishAt,
    pub drew: bool,
    pub entry_ok: u32,
    pub entry_fail: u32,
    pub entry_clears: u32,
    pub clears: Seq<ColorAttachment>,
    pub list: Seq<usize>,
    pub template: Option<RequestView>,
    pub chain: Option<Seq<u8>>,
    pub resident: bool,
    pub saw_nometal: bool,
    pub counts: Seq<(u64, u64)>,
    pub unified: bool,
    pub arming: Option<VisibilityArming>,
    pub unanswered: Seq<VisibilityArming>,
}

/// The contents of a request that may be absent.
pub open spec fn request_view(request: Option<DrawEncodeRequest>) -> Option<RequestView> {
    match request {
        Some(request) => Some(request@),
        None => None,
    }
}

impl View for StreamFinish {
    type V = FinishView;

    closed spec fn view(&self) -> FinishView {
        FinishView {
            at: self.at,
            drew: self.drew,
            entry_ok: self.entry_ok,
            entry_fail: self.entry_fail,
            entry_clears: self.entry_clears,
            clears: self.clears@,
            list: self.list@,
            template: request_view(self.template),
            chain: bytes_view(self.chain),
            resident: self.resident,
            saw_nometal: self.saw_nometal,
            counts: self.counts@,
            unified: self.unified,
            arming: self.arming,
            unanswered: self.unanswered@,
        }
    }
}

/// One step of the end of a stream.
#[verifier::ext_equal]
pub struct FinishStep {
    pub state: FinishView,
    pub out: ExecResultView,
    pub action: ActionView,
}

/// Whether a recorded draw is encoded.
pub open spec fn encodable(draw: PendingView) -> bool {
    draw.pipeline_ref != 0 && draw.draw.vertex_count > 0
}

/// The draws that are encoded, by their place among those recorded.
pub open spec fn encoded_list(draws: Seq<PendingView>) -> Seq<usize>
    decreases draws.len(),
{
    if draws.len() == 0 {
        Seq::empty()
    } else {
        let earlier = encoded_list(draws.drop_last());
        if encodable(draws.last()) {
            earlier.push((draws.len() - 1) as usize)
        } else {
            earlier
        }
    }
}

/// Whether a stream draws.
pub open spec fn will_draw(acc: AccumView) -> bool {
    acc.saw_draw && acc.color_slots.len() > 0 && acc.draws.len() > 0
}

/// How many more there are than at the start.
pub open spec fn more(now: u32, before: u32) -> u32 {
    if now >= before {
        (now - before) as u32
    } else {
        0
    }
}

/// How many of a stream's draws were encoded, and how many failed.
#[derive(Clone, Copy, Debug, PartialEq, Eq, Structural)]
pub struct StreamDrawDelta {
    pub ok: u32,
    pub fail: u32,
}

/// How many of a stream's draws were encoded, and how many failed, given the
/// counts before it.
pub fn stream_draw_delta(out: &ExecResult, at_entry: (u32, u32)) -> (delta: StreamDrawDelta)
    ensures
        delta.ok == more(out.metal_draws_ok, at_entry.0),
        delta.fail == more(out.metal_draws_fail, at_entry.1),
{
    StreamDrawDelta {
        ok: out.metal_draws_ok.saturating_sub(at_entry.0),
        fail: out.metal_draws_fail.saturating_sub(at_entry.1),
    }
}

/// A stream that asks for nothing more.
pub open spec fn finished(acc: AccumView, s: FinishView, out: ExecResultView) -> FinishStep {
    let ok = more(out.metal_draws_ok, s.entry_ok);
    let fail = more(out.metal_draws_fail, s.entry_fail);
    let clears = more(out.clears_applied, s.entry_clears);
    FinishStep {
        state: FinishView { at: FinishAt::Done, ..s },
        out,
        action: ActionView::Finish {
            fallback: if s.drew && ok == 0 && acc.clears.len() > 0 && (clears > 0 || s.saw_nometal
                || fail > 0) {
                Some(ClearFallback { clears, draws_fail: fail, nometal: s.saw_nometal })
            } else {
                None
            },
        },
    }
}

/// A stream that draws, after its draws and counts. Where none was encoded, its
/// clears are what is left to publish.
pub open spec fn falls_back(acc: AccumView, s: FinishView, out: ExecResultView) -> FinishStep {
    if more(out.metal_draws_ok, s.entry_ok) == 0 && s.clears.len() > 0 {
        FinishStep {
            state: FinishView { at: FinishAt::Falling { index: 0 }, ..s },
            out,
            action: ActionView::ApplyClear(s.clears[0]),
        }
    } else {
        finished(acc, s, out)
    }
}

/// A stream that draws, after its draws.
pub open spec fn drawn(acc: AccumView, s: FinishView, out: ExecResultView) -> FinishStep {
    if s.counts.len() > 0 {
        FinishStep {
            state: FinishView { at: FinishAt::Writing, ..s },
            out,
            action: ActionView::WriteVisibility(s.counts),
        }
    } else {
        falls_back(acc, s, out)
    }
}

/// Targets of which the first starts from an image.
pub open spec fn seeded(colors: Seq<ColorRtView>, image: Option<Seq<u8>>) -> Seq<ColorRtView> {
    if colors.len() > 0 {
        colors.update(0, ColorRtView { target_seed_rgba: image, ..colors[0] })
    } else {
        colors
    }
}

/// A stream that has a draw encoded: the first from the request its pass
/// resolved, and every other from the pass's attachments and what the draws
/// before it left.
pub open spec fn draws_at(
    acc: AccumView,
    s: FinishView,
    out: ExecResultView,
    index: usize,
    base: RequestView,
) -> FinishStep {
    let count = s.list.len();
    let draw = acc.draws[s.list[index as int] as int];
    let position = chain_position(index as nat, count);
    let plan = store_plan(count, index as nat);
    let source = chain_source_of(s.resident, s.chain is Some);
    let fill = filled(base, draw);
    let placed = RequestView {
        continues_render_pass: position.0,
        render_pass_continues: position.1,
        colors: if index > 0 {
            all_composited(fill.colors)
        } else {
            fill.colors
        },
        ..fill
    };
    let seeds = index > 0 && source == MultiDrawChainSource::Cpu && placed.colors.len() > 0;
    let request = if index > 0 && source == MultiDrawChainSource::Resident {
        RequestView { chain_from_resident: true, ..placed }
    } else if seeds {
        RequestView { colors: seeded(placed.colors, s.chain), ..placed }
    } else {
        placed
    };
    FinishStep {
        state: FinishView {
            at: FinishAt::Drawing { index },
            chain: if seeds {
                None
            } else {
                s.chain
            },
            unified: placed.colors.len() > 0 && placed.colors[0].mapping_id != 0,
            arming: draw.state.visibility,
            ..s
        },
        out: if plan.0 {
            ExecResultView { render_guest_stores: counted(out.render_guest_stores, 1), ..out }
        } else {
            out
        },
        action: ActionView::EncodeDraw {
            request,
            source: if index > 0 {
                Some(source)
            } else {
                None
            },
            writeback: plan.0,
            force_full_store: plan.1,
        },
    }
}

/// A stream that has its next draw encoded, if there is one.
pub open spec fn draws_next(acc: AccumView, s: FinishView, out: ExecResultView, index: int)
    -> FinishStep {
    match s.template {
        Some(template) => if index < s.list.len() {
            draws_at(
                acc,
                s,
                out,
                index as usize,
                retargeted(template, acc.draws[s.list[index] as int]),
            )
        } else {
            drawn(acc, s, out)
        },
        None => drawn(acc, s, out),
    }
}

/// A stream that gives up its remaining draws.
pub open spec fn lands(
    acc: AccumView,
    s: FinishView,
    out: ExecResultView,
    cause: ChainAbandonCause,
    index: int,
) -> FinishStep {
    FinishStep {
        state: FinishView { at: FinishAt::Landing, chain: None, ..s },
        out,
        action: ActionView::LandChain {
            cause,
            readback: s.resident && s.chain is None,
            image: s.chain,
            abandoned: ChainAbandonDecline {
                index: index as usize,
                total: s.list.len() as usize,
                pipeline_ref: acc.draws[s.list[index] as int].pipeline_ref,
            },
        },
    }
}

/// A stream after its executions.
pub open spec fn begins_draws(acc: AccumView, s: FinishView, out: ExecResultView) -> FinishStep {
    if !s.drew {
        finished(acc, s, out)
    } else if s.list.len() == 0 {
        drawn(acc, s, out)
    } else {
        let first = acc.draws[s.list[0] as int];
        FinishStep {
            state: FinishView { at: FinishAt::Resolving, ..s },
            out: ExecResultView {
                render_attachment_resolves: counted(out.render_attachment_resolves, 1),
                ..out
            },
            action: ActionView::ResolveAttachments {
                pipeline_ref: first.pipeline_ref,
                draw: first.draw,
            },
        }
    }
}

/// The counts that an execution is requested with.
pub open spec fn icb_args(acc: AccumView) -> DrawArgs {
    if acc.pipeline_ref != 0 && acc.draws.len() > 0 {
        acc.draws.last().draw
    } else {
        DrawArgs {
            vertex_count: 1,
            instance_count: 1,
            primitive_type: 3,
            first_vertex: 0,
            base_instance: 0,
        }
    }
}

/// A stream that runs its executions from one of them on. Only the first opens
/// the pass; each later one keeps what the one before it drew. Without a colour
/// target all of them fail.
pub open spec fn executes(acc: AccumView, s: FinishView, out: ExecResultView, index: int)
    -> FinishStep
    decreases acc.execute_icb.len() - index,
{
    if index >= acc.execute_icb.len() {
        begins_draws(acc, s, out)
    } else if acc.color_slots.len() == 0 {
        executes(
            acc,
            s,
            ExecResultView { render_icb_fail: counted(out.render_icb_fail, 1), ..out },
            index + 1,
        )
    } else {
        FinishStep {
            state: FinishView { at: FinishAt::IcbRequesting { index: index as usize }, ..s },
            out,
            action: ActionView::RequestIcb {
                pipeline_ref: if acc.pipeline_ref != 0 {
                    acc.pipeline_ref
                } else {
                    1
                },
                args: icb_args(acc),
                slots: if index == 0 {
                    acc.color_slots
                } else {
                    slots_loading(acc.color_slots)
                },
                clears: if index == 0 {
                    acc.clears
                } else {
                    Seq::empty()
                },
            },
        }
    }
}

/// An execution that failed.
pub open spec fn icb_failed(out: ExecResultView) -> ExecResultView {
    ExecResultView { render_icb_fail: counted(out.render_icb_fail, 1), ..out }
}

/// A stream that has an execution encoded, with the state of its last draw, or
/// its own where it recorded none.
pub open spec fn encodes_icb(
    acc: AccumView,
    s: FinishView,
    out: ExecResultView,
    index: usize,
    location: u64,
    length: u64,
) -> FinishStep {
    FinishStep {
        state: FinishView { at: FinishAt::IcbEncoding { index }, ..s },
        out,
        action: ActionView::EncodeIcb {
            icb_ref: acc.execute_icb[index as int].icb_ref,
            location,
            length,
            state: if acc.draws.len() > 0 {
                acc.draws.last().state
            } else {
                acc.state
            },
        },
    }
}

/// A stream that marks its targets.
pub open spec fn marks(s: FinishView, out: ExecResultView, at: FinishAt) -> FinishStep {
    FinishStep { state: FinishView { at, ..s }, out, action: ActionView::MarkTargets }
}

/// The end of a stream, before it has asked for anything.
pub open spec fn entered(acc: AccumView, out: ExecResultView) -> FinishView {
    FinishView {
        at: FinishAt::Done,
        drew: will_draw(acc),
        entry_ok: out.metal_draws_ok,
        entry_fail: out.metal_draws_fail,
        entry_clears: out.clears_applied,
        clears: published(acc.clears),
        list: encoded_list(acc.draws),
        template: None,
        chain: None,
        resident: false,
        saw_nometal: false,
        counts: Seq::empty(),
        unified: false,
        arming: None,
        unanswered: Seq::empty(),
    }
}

/// The end of a stream, at its beginning.
pub open spec fn finish_begins(acc: AccumView, out: ExecResultView) -> FinishStep {
    let s = entered(acc, out);
    if !s.drew && s.clears.len() > 0 {
        FinishStep {
            state: FinishView { at: FinishAt::Clearing { index: 0 }, ..s },
            out,
            action: ActionView::ApplyClear(s.clears[0]),
        }
    } else {
        executes(acc, s, out, 0)
    }
}

/// Whether an answer is to what a stream asked for.
pub open spec fn answers(at: FinishAt, event: FinishEvent) -> bool {
    match at {
        FinishAt::Clearing { .. } | FinishAt::Falling { .. } => event is ClearApplied,
        FinishAt::IcbRequesting { .. } => event is IcbRequested,
        FinishAt::IcbRanging { .. } => event is RangeRead,
        FinishAt::IcbEncoding { .. } => event is IcbEncoded,
        FinishAt::IcbMarking { .. } | FinishAt::ResolveMarking => event is TargetsMarked,
        FinishAt::Resolving => event is Attached,
        FinishAt::Drawing { .. } => event is Drawn,
        FinishAt::Landing => event is ChainLanded,
        FinishAt::Writing => event is VisibilityWritten,
        FinishAt::Done => false,
    }
}

/// A result with one more clear, if it was applied.
pub open spec fn clear_counted(out: ExecResultView, applied: bool) -> ExecResultView {
    if applied {
        ExecResultView { clears_applied: counted(out.clears_applied, 1), ..out }
    } else {
        out
    }
}

/// A stream with the occlusion count of a draw.
pub open spec fn query_counted(s: FinishView, samples: Option<u64>) -> FinishView {
    match (s.arming, samples) {
        (Some(arming), Some(samples)) => FinishView {
            counts: counts_with(s.counts, arming.offset, samples),
            ..s
        },
        (Some(arming), None) => FinishView { unanswered: s.unanswered.push(arming), ..s },
        (None, _) => s,
    }
}

/// What the encoding of a draw leads to.
pub open spec fn after_draw(
    acc: AccumView,
    before: FinishView,
    out: ExecResultView,
    index: usize,
    status: EncodeStatus,
    image: Option<Seq<u8>>,
    resident_established: bool,
    samples: Option<u64>,
) -> FinishStep {
    let s = query_counted(before, samples);
    let encoded = ExecResultView { metal_draws_ok: counted(out.metal_draws_ok, 1), ..out };
    let failed = ExecResultView { metal_draws_fail: counted(out.metal_draws_fail, 1), ..out };
    match status {
        EncodeStatus::Encoded => match image {
            Some(image) => draws_next(
                acc,
                if s.resident {
                    s
                } else {
                    FinishView { chain: Some(image), ..s }
                },
                encoded,
                index + 1,
            ),
            None => if resident_established {
                draws_next(acc, FinishView { resident: true, ..s }, encoded, index + 1)
            } else if !store_plan(s.list.len(), index as nat).0 && !s.unified {
                lands(acc, s, encoded, ChainAbandonCause::NoColor0, index as int)
            } else {
                draws_next(acc, s, encoded, index + 1)
            },
        },
        EncodeStatus::NoMetal => lands(
            acc,
            FinishView { saw_nometal: true, ..s },
            failed,
            ChainAbandonCause::NoMetal,
            index as int,
        ),
        EncodeStatus::Refused => lands(
            acc,
            s,
            failed,
            ChainAbandonCause::TerminalRefusal,
            index as int,
        ),
    }
}

/// What an answer leads to.
pub open spec fn finish_advances(
    acc: AccumView,
    s: FinishView,
    out: ExecResultView,
    event: FinishEvent,
) -> FinishStep {
    match (s.at, event) {
        (FinishAt::Clearing { index }, FinishEvent::ClearApplied(applied)) => {
            let counted_out = clear_counted(out, applied);
            if index + 1 < s.clears.len() {
                FinishStep {
                    state: FinishView {
                        at: FinishAt::Clearing { index: (index + 1) as usize },
                        ..s
                    },
                    out: counted_out,
                    action: ActionView::ApplyClear(s.clears[index + 1]),
                }
            } else {
                executes(acc, s, counted_out, 0)
            }
        },
        (FinishAt::Falling { index }, FinishEvent::ClearApplied(applied)) => {
            let counted_out = clear_counted(out, applied);
            if index + 1 < s.clears.len() {
                FinishStep {
                    state: FinishView {
                        at: FinishAt::Falling { index: (index + 1) as usize },
                        ..s
                    },
                    out: counted_out,
                    action: ActionView::ApplyClear(s.clears[index + 1]),
                }
            } else {
                finished(acc, s, counted_out)
            }
        },
        (FinishAt::IcbRequesting { index }, FinishEvent::IcbRequested(requested)) => {
            let exec = acc.execute_icb[index as int];
            if acc.unrepresentable is Some || !requested {
                executes(acc, s, icb_failed(out), index + 1)
            } else if exec.is_range {
                encodes_icb(acc, s, out, index, exec.range_location, exec.range_length)
            } else {
                FinishStep {
                    state: FinishView { at: FinishAt::IcbRanging { index }, ..s },
                    out,
                    action: ActionView::ReadRange {
                        buffer_ref: exec.args_buffer_ref,
                        offset: exec.args_buffer_offset,
                    },
                }
            }
        },
        (FinishAt::IcbRanging { index }, FinishEvent::RangeRead(range)) => match range {
            Some((location, length)) => encodes_icb(acc, s, out, index, location, length),
            None => marks(s, icb_failed(out), FinishAt::IcbMarking { index }),
        },
        (FinishAt::IcbEncoding { index }, FinishEvent::IcbEncoded(encoded)) => if encoded {
            executes(
                acc,
                s,
                ExecResultView { render_icb_ok: counted(out.render_icb_ok, 1), ..out },
                index + 1,
            )
        } else {
            marks(s, icb_failed(out), FinishAt::IcbMarking { index })
        },
        (FinishAt::IcbMarking { index }, FinishEvent::TargetsMarked) => executes(
            acc,
            s,
            out,
            index + 1,
        ),
        (FinishAt::Resolving, FinishEvent::Attached(first)) => match first {
            Some(first) => draws_at(
                acc,
                FinishView { template: Some(template_of(first@)), ..s },
                out,
                0,
                first@,
            ),
            None => marks(
                s,
                ExecResultView { metal_draws_fail: counted(out.metal_draws_fail, 1), ..out },
                FinishAt::ResolveMarking,
            ),
        },
        (FinishAt::ResolveMarking, FinishEvent::TargetsMarked) => drawn(acc, s, out),
        (
            FinishAt::Drawing { index },
            FinishEvent::Drawn { status, image, resident_established, visibility_samples },
        ) => after_draw(
            acc,
            s,
            out,
            index,
            status,
            bytes_view(image),
            resident_established,
            visibility_samples,
        ),
        (FinishAt::Landing, FinishEvent::ChainLanded) => drawn(acc, s, out),
        (FinishAt::Writing, FinishEvent::VisibilityWritten) => falls_back(acc, s, out),
        _ => finished(acc, s, out),
    }
}

/// Whether the end of a stream is one of this stream.
pub open spec fn finishes(acc: AccumView, s: FinishView) -> bool {
    &&& s.list == encoded_list(acc.draws)
    &&& s.clears == published(acc.clears)
    &&& acc.draws.len() <= usize::MAX
    &&& match s.at {
        FinishAt::Clearing { index } | FinishAt::Falling { index } => index < s.clears.len(),
        FinishAt::IcbRequesting { index }
        | FinishAt::IcbRanging { index }
        | FinishAt::IcbEncoding { index }
        | FinishAt::IcbMarking { index } => index < acc.execute_icb.len(),
        FinishAt::Drawing { index } => index < s.list.len(),
        FinishAt::Resolving => s.list.len() > 0,
        _ => true,
    }
}

proof fn lemma_encoded_list(draws: Seq<PendingView>)
    requires
        draws.len() <= usize::MAX,
    ensures
        encoded_list(draws).len() <= draws.len(),
        forall|i: int|
            0 <= i < encoded_list(draws).len() ==> (#[trigger] encoded_list(draws)[i])
                < draws.len(),
    decreases draws.len(),
{
    if draws.len() > 0 {
        lemma_encoded_list(draws.drop_last());
    }
}

fn list_encodable(acc: &StreamAccum) -> (list: Vec<usize>)
    ensures
        list@ == encoded_list(acc@.draws),
{
    let mut list: Vec<usize> = Vec::new();
    let mut i: usize = 0;
    assert(acc@.draws.take(0) =~= Seq::empty());
    while i < acc.draws.len()
        invariant
            i <= acc.draws@.len(),
            list@ == encoded_list(acc@.draws.take(i as int)),
        decreases acc.draws.len() - i,
    {
        let draw = &acc.draws[i];
        assert(acc@.draws[i as int] == draw@);
        assert(acc@.draws.take(i as int + 1).drop_last() =~= acc@.draws.take(i as int));
        if draw.pipeline_ref != 0 && draw.draw.vertex_count > 0 {
            list.push(i);
        }
        i += 1;
    }
    assert(acc@.draws.take(i as int) =~= acc@.draws);
    list
}

impl StreamFinish {
    /// Whether the end of a stream is one of this stream.
    pub open spec fn of(&self, acc: &StreamAccum) -> bool {
        finishes(acc@, self@)
    }

    /// What the stream waits for.
    pub fn waits_for(&self) -> (at: FinishAt)
        ensures
            at == self@.at,
    {
        self.at
    }

    /// The queries that no draw counted for.
    pub fn unanswered_queries(&self) -> (queries: &Vec<VisibilityArming>)
        ensures
            queries@ == self@.unanswered,
    {
        &self.unanswered
    }

    fn finish(&mut self, acc: &StreamAccum, out: &ExecResult) -> (action: FinishAction)
        ensures
            (FinishStep { state: final(self)@, out: out@, action: action@ }) == finished(
                acc@,
                old(self)@,
                out@,
            ),
    {
        let delta = stream_draw_delta(out, (self.entry_ok, self.entry_fail));
        let clears = out.clears_applied.saturating_sub(self.entry_clears);
        self.at = FinishAt::Done;
        let fallback = if self.drew && delta.ok == 0 && acc.clears.len() > 0 && (clears > 0
            || self.saw_nometal || delta.fail > 0) {
            Some(ClearFallback { clears, draws_fail: delta.fail, nometal: self.saw_nometal })
        } else {
            None
        };
        FinishAction::Finish { fallback }
    }

    fn fall_back(&mut self, acc: &StreamAccum, out: &ExecResult) -> (action: FinishAction)
        ensures
            (FinishStep { state: final(self)@, out: out@, action: action@ }) == falls_back(
                acc@,
                old(self)@,
                out@,
            ),
            finishes(acc@, old(self)@) ==> finishes(acc@, final(self)@),
    {
        if out.metal_draws_ok.saturating_sub(self.entry_ok) == 0 && self.clears.len() > 0 {
            self.at = FinishAt::Falling { index: 0 };
            return FinishAction::ApplyClear(self.clears[0]);
        }
        self.finish(acc, out)
    }

    fn end_draws(&mut self, acc: &StreamAccum, out: &ExecResult) -> (action: FinishAction)
        ensures
            (FinishStep { state: final(self)@, out: out@, action: action@ }) == drawn(
                acc@,
                old(self)@,
                out@,
            ),
            finishes(acc@, old(self)@) ==> finishes(acc@, final(self)@),
    {
        if self.counts.len() > 0 {
            self.at = FinishAt::Writing;
            return FinishAction::WriteVisibility(copy_all(&self.counts));
        }
        self.fall_back(acc, out)
    }

    fn encode_draw(
        &mut self,
        acc: &StreamAccum,
        out: &mut ExecResult,
        index: usize,
        base: DrawEncodeRequest,
    ) -> (action: FinishAction)
        requires
            finishes(acc@, old(self)@),
            index < old(self)@.list.len(),
        ensures
            (FinishStep { state: final(self)@, out: final(out)@, action: action@ }) == draws_at(
                acc@,
                old(self)@,
                old(out)@,
                index,
                base@,
            ),
            finishes(acc@, final(self)@),
    {
        proof {
            lemma_encoded_list(acc@.draws);
        }
        let count: usize = self.list.len();
        let at: usize = self.list[index];
        let draw = &acc.draws[at];
        assert(acc@.draws[at as int] == draw@);
        let mut request = base;
        fill_draw_binds_from_pending(&mut request, draw);
        let (continues, continued) = render_pass_chain_position(index, count);
        request.continues_render_pass = continues;
        request.render_pass_continues = continued;
        self.unified = if request.colors.len() > 0 {
            request.colors[0].mapping_id != 0
        } else {
            false
        };
        self.arming = draw.state.visibility;
        let mut source: Option<MultiDrawChainSource> = None;
        if index > 0 {
            composite_colors(&mut request.colors);
            let from = multi_draw_chain_source(self.resident, self.chain.is_some());
            source = Some(from);
            match from {
                MultiDrawChainSource::Resident => {
                    request.chain_from_resident = true;
                },
                MultiDrawChainSource::Cpu => {
                    if request.colors.len() > 0 {
                        let ghost colors = request.colors@;
                        let ghost image = bytes_view(self.chain);
                        let seed = self.chain.take();
                        let first = &mut request.colors[0];
                        first.target_seed_rgba = seed;
                        assert(colors_view(request.colors@) =~= seeded(colors_view(colors), image));
                    }
                },
                MultiDrawChainSource::Missing => {},
            }
        }
        let (writeback, force_full_store) = multi_draw_store_plan(count, index);
        if writeback {
            out.render_guest_stores = out.render_guest_stores.saturating_add(1);
        }
        self.at = FinishAt::Drawing { index };
        FinishAction::EncodeDraw { request, source, writeback, force_full_store }
    }

    fn next_draw(&mut self, acc: &StreamAccum, out: &mut ExecResult, index: usize) -> (action:
        FinishAction)
        requires
            finishes(acc@, old(self)@),
        ensures
            (FinishStep { state: final(self)@, out: final(out)@, action: action@ }) == draws_next(
                acc@,
                old(self)@,
                old(out)@,
                index as int,
            ),
            finishes(acc@, final(self)@),
    {
        if index < self.list.len() {
            if let Some(template) = &self.template {
                proof {
                    lemma_encoded_list(acc@.draws);
                }
                let at: usize = self.list[index];
                assert(acc@.draws[at as int] == acc.draws@[at as int]@);
                let request = retarget_render_pass_draw(template, &acc.draws[at]);
                return self.encode_draw(acc, out, index, request);
            }
        }
        self.end_draws(acc, out)
    }

    fn land(
        &mut self,
        acc: &StreamAccum,
        cause: ChainAbandonCause,
        index: usize,
        Ghost(out): Ghost<ExecResultView>,
    ) -> (action: FinishAction)
        requires
            finishes(acc@, old(self)@),
            index < old(self)@.list.len(),
        ensures
            (FinishStep { state: final(self)@, out, action: action@ }) == lands(
                acc@,
                old(self)@,
                out,
                cause,
                index as int,
            ),
    {
        let readback = self.resident && self.chain.is_none();
        proof {
            lemma_encoded_list(acc@.draws);
        }
        let at: usize = self.list[index];
        assert(acc@.draws[at as int] == acc.draws@[at as int]@);
        let abandoned = ChainAbandonDecline {
            index,
            total: self.list.len(),
            pipeline_ref: acc.draws[at].pipeline_ref,
        };
        let image = self.chain.take();
        self.at = FinishAt::Landing;
        FinishAction::LandChain { cause, readback, image, abandoned }
    }

    fn begin_draws(&mut self, acc: &StreamAccum, out: &mut ExecResult) -> (action: FinishAction)
        requires
            finishes(acc@, old(self)@),
        ensures
            (FinishStep { state: final(self)@, out: final(out)@, action: action@ })
                == begins_draws(acc@, old(self)@, old(out)@),
            finishes(acc@, final(self)@),
    {
        if !self.drew {
            return self.finish(acc, out);
        }
        if self.list.len() == 0 {
            return self.end_draws(acc, out);
        }
        proof {
            lemma_encoded_list(acc@.draws);
        }
        let at: usize = self.list[0];
        let first = &acc.draws[at];
        assert(acc@.draws[at as int] == first@);
        out.render_attachment_resolves = out.render_attachment_resolves.saturating_add(1);
        self.at = FinishAt::Resolving;
        FinishAction::ResolveAttachments { pipeline_ref: first.pipeline_ref, draw: first.draw }
    }

    fn execute(&mut self, acc: &StreamAccum, out: &mut ExecResult, from: usize) -> (action:
        FinishAction)
        requires
            finishes(acc@, old(self)@),
        ensures
            (FinishStep { state: final(self)@, out: final(out)@, action: action@ }) == executes(
                acc@,
                old(self)@,
                old(out)@,
                from as int,
            ),
            finishes(acc@, final(self)@),
    {
        let mut index: usize = from;
        while index < acc.execute_icb.len() && acc.color_slots.len() == 0
            invariant
                finishes(acc@, self@),
                self@ == old(self)@,
                executes(acc@, old(self)@, old(out)@, from as int) == executes(
                    acc@,
                    old(self)@,
                    out@,
                    index as int,
                ),
            decreases acc.execute_icb.len() - index,
        {
            out.render_icb_fail = out.render_icb_fail.saturating_add(1);
            index += 1;
        }
        if index >= acc.execute_icb.len() {
            return self.begin_draws(acc, out);
        }
        let mut args = DrawArgs {
            vertex_count: 1,
            instance_count: 1,
            primitive_type: 3,
            first_vertex: 0,
            base_instance: 0,
        };
        let mut pipeline_ref: u32 = 1;
        if acc.pipeline_ref != 0 {
            pipeline_ref = acc.pipeline_ref;
            let recorded: usize = acc.draws.len();
            if recorded > 0 {
                assert(acc@.draws.last() == acc.draws@.last()@);
                args = acc.draws[recorded - 1].draw;
            }
        }
        self.at = FinishAt::IcbRequesting { index };
        if index == 0 {
            return FinishAction::RequestIcb {
                pipeline_ref,
                args,
                slots: copy_all(&acc.color_slots),
                clears: copy_all(&acc.clears),
            };
        }
        let clears: Vec<ColorAttachment> = Vec::new();
        assert(clears@ =~= Seq::empty());
        FinishAction::RequestIcb {
            pipeline_ref,
            args,
            slots: color_slots_loading(&acc.color_slots),
            clears,
        }
    }

    fn encode_icb(
        &mut self,
        acc: &StreamAccum,
        index: usize,
        location: u64,
        length: u64,
        Ghost(out): Ghost<ExecResultView>,
    ) -> (action: FinishAction)
        requires
            finishes(acc@, old(self)@),
            index < acc@.execute_icb.len(),
        ensures
            (FinishStep { state: final(self)@, out, action: action@ }) == encodes_icb(
                acc@,
                old(self)@,
                out,
                index,
                location,
                length,
            ),
            finishes(acc@, final(self)@),
    {
        let recorded: usize = acc.draws.len();
        let state = if recorded > 0 {
            assert(acc@.draws.last() == acc.draws@.last()@);
            acc.draws[recorded - 1].state.copied()
        } else {
            acc.state.copied()
        };
        self.at = FinishAt::IcbEncoding { index };
        FinishAction::EncodeIcb { icb_ref: acc.execute_icb[index].icb_ref, location, length, state }
    }

    fn mark(&mut self, at: FinishAt, Ghost(out): Ghost<ExecResultView>) -> (action: FinishAction)
        ensures
            (FinishStep { state: final(self)@, out, action: action@ }) == marks(
                old(self)@,
                out,
                at,
            ),
    {
        self.at = at;
        FinishAction::MarkTargets
    }

    /// Begins the end of a stream: the clears of one that draws nothing, then
    /// its executions, then its draws.
    pub fn begin(acc: &StreamAccum, out: &mut ExecResult) -> (begun: (StreamFinish, FinishAction))
        ensures
            (FinishStep { state: begun.0@, out: final(out)@, action: begun.1@ })
                == finish_begins(acc@, old(out)@),
            begun.0.of(acc),
    {
        let drew = acc.saw_draw && acc.color_slots.len() > 0 && acc.draws.len() > 0;
        let counts: Vec<(u64, u64)> = Vec::new();
        let unanswered: Vec<VisibilityArming> = Vec::new();
        assert(counts@ =~= Seq::empty());
        assert(unanswered@ =~= Seq::empty());
        let recorded: usize = acc.draws.len();
        assert(acc@.draws.len() == recorded);
        let mut finish = StreamFinish {
            at: FinishAt::Done,
            drew,
            entry_ok: out.metal_draws_ok,
            entry_fail: out.metal_draws_fail,
            entry_clears: out.clears_applied,
            clears: acc.clears_reaching_guest_pages(),
            list: list_encodable(acc),
            template: None,
            chain: None,
            resident: false,
            saw_nometal: false,
            counts,
            unified: false,
            arming: None,
            unanswered,
        };
        if !drew && finish.clears.len() > 0 {
            finish.at = FinishAt::Clearing { index: 0 };
            let first = finish.clears[0];
            return (finish, FinishAction::ApplyClear(first));
        }
        let action = finish.execute(acc, out, 0);
        (finish, action)
    }

    fn count_query(&mut self, visibility_samples: Option<u64>)
        ensures
            final(self)@ == query_counted(old(self)@, visibility_samples),
    {
        match (self.arming, visibility_samples) {
            (Some(arming), Some(samples)) => {
                add_samples(&mut self.counts, arming.offset, samples);
            },
            (Some(arming), None) => {
                self.unanswered.push(arming);
            },
            (None, _) => {},
        }
    }

    fn after_drawn(
        &mut self,
        acc: &StreamAccum,
        out: &mut ExecResult,
        index: usize,
        status: EncodeStatus,
        image: Option<Vec<u8>>,
        resident_established: bool,
        visibility_samples: Option<u64>,
    ) -> (action: FinishAction)
        requires
            finishes(acc@, old(self)@),
            index < old(self)@.list.len(),
        ensures
            (FinishStep { state: final(self)@, out: final(out)@, action: action@ }) == after_draw(
                acc@,
                old(self)@,
                old(out)@,
                index,
                status,
                bytes_view(image),
                resident_established,
                visibility_samples,
            ),
            finishes(acc@, final(self)@),
    {
        self.count_query(visibility_samples);
        let total: usize = self.list.len();
        assert(finishes(acc@, self@));
        match status {
            EncodeStatus::Encoded => {
                out.metal_draws_ok = out.metal_draws_ok.saturating_add(1);
                match image {
                    Some(image) => {
                        if !self.resident {
                            self.chain = Some(image);
                        }
                    },
                    None => {
                        if resident_established {
                            self.resident = true;
                        } else {
                            let (writeback, _) = multi_draw_store_plan(total, index);
                            if !writeback && !self.unified {
                                return self.land(
                                    acc,
                                    ChainAbandonCause::NoColor0,
                                    index,
                                    Ghost(out@),
                                );
                            }
                        }
                    },
                }
                self.next_draw(acc, out, index + 1)
            },
            EncodeStatus::NoMetal => {
                self.saw_nometal = true;
                out.metal_draws_fail = out.metal_draws_fail.saturating_add(1);
                self.land(acc, ChainAbandonCause::NoMetal, index, Ghost(out@))
            },
            EncodeStatus::Refused => {
                out.metal_draws_fail = out.metal_draws_fail.saturating_add(1);
                self.land(acc, ChainAbandonCause::TerminalRefusal, index, Ghost(out@))
            },
        }
    }

    fn clear_applied(&mut self, acc: &StreamAccum, out: &mut ExecResult, applied: bool) -> (action: FinishAction)
        requires
            finishes(acc@, old(self)@),
            answers(old(self)@.at, FinishEvent::ClearApplied(applied)),
        ensures
            (FinishStep { state: final(self)@, out: final(out)@, action: action@ })
                == finish_advances(acc@, old(self)@, old(out)@, FinishEvent::ClearApplied(applied)),
            finishes(acc@, final(self)@),
    {
        let clears: usize = self.clears.len();
        if applied {
            out.clears_applied = out.clears_applied.saturating_add(1);
        }
        match self.at {
            FinishAt::Clearing { index } => {
                if index + 1 < clears {
                    self.at = FinishAt::Clearing { index: index + 1 };
                    return FinishAction::ApplyClear(self.clears[index + 1]);
                }
                self.execute(acc, out, 0)
            },
            FinishAt::Falling { index } => {
                if index + 1 < clears {
                    self.at = FinishAt::Falling { index: index + 1 };
                    return FinishAction::ApplyClear(self.clears[index + 1]);
                }
                self.finish(acc, out)
            },
            _ => self.finish(acc, out),
        }
    }

    fn icb_requested(&mut self, acc: &StreamAccum, out: &mut ExecResult, requested: bool) -> (action: FinishAction)
        requires
            finishes(acc@, old(self)@),
            answers(old(self)@.at, FinishEvent::IcbRequested(requested)),
        ensures
            (FinishStep { state: final(self)@, out: final(out)@, action: action@ })
                == finish_advances(acc@, old(self)@, old(out)@, FinishEvent::IcbRequested(requested)),
            finishes(acc@, final(self)@),
    {
        assert(acc.execute_icb.len() <= usize::MAX);
        match self.at {
            FinishAt::IcbRequesting { index } => {
                if acc.unrepresentable.is_some() || !requested {
                    out.render_icb_fail = out.render_icb_fail.saturating_add(1);
                    return self.execute(acc, out, index + 1);
                }
                let exec = acc.execute_icb[index];
                if exec.is_range {
                    return self.encode_icb(
                        acc,
                        index,
                        exec.range_location,
                        exec.range_length,
                        Ghost(out@),
                    );
                }
                self.at = FinishAt::IcbRanging { index };
                FinishAction::ReadRange {
                    buffer_ref: exec.args_buffer_ref,
                    offset: exec.args_buffer_offset,
                }
            },
            _ => self.finish(acc, out),
        }
    }

    fn range_read(&mut self, acc: &StreamAccum, out: &mut ExecResult, range: Option<(u64, u64)>) -> (action: FinishAction)
        requires
            finishes(acc@, old(self)@),
            answers(old(self)@.at, FinishEvent::RangeRead(range)),
        ensures
            (FinishStep { state: final(self)@, out: final(out)@, action: action@ })
                == finish_advances(acc@, old(self)@, old(out)@, FinishEvent::RangeRead(range)),
            finishes(acc@, final(self)@),
    {
        match self.at {
            FinishAt::IcbRanging { index } => match range {
                Some((location, length)) => self.encode_icb(
                    acc,
                    index,
                    location,
                    length,
                    Ghost(out@),
                ),
                None => {
                    out.render_icb_fail = out.render_icb_fail.saturating_add(1);
                    self.mark(FinishAt::IcbMarking { index }, Ghost(out@))
                },
            },
            _ => self.finish(acc, out),
        }
    }

    fn icb_encoded(&mut self, acc: &StreamAccum, out: &mut ExecResult, encoded: bool) -> (action: FinishAction)
        requires
            finishes(acc@, old(self)@),
            answers(old(self)@.at, FinishEvent::IcbEncoded(encoded)),
        ensures
            (FinishStep { state: final(self)@, out: final(out)@, action: action@ })
                == finish_advances(acc@, old(self)@, old(out)@, FinishEvent::IcbEncoded(encoded)),
            finishes(acc@, final(self)@),
    {
        assert(acc.execute_icb.len() <= usize::MAX);
        match self.at {
            FinishAt::IcbEncoding { index } => {
                if encoded {
                    out.render_icb_ok = out.render_icb_ok.saturating_add(1);
                    return self.execute(acc, out, index + 1);
                }
                out.render_icb_fail = out.render_icb_fail.saturating_add(1);
                self.mark(FinishAt::IcbMarking { index }, Ghost(out@))
            },
            _ => self.finish(acc, out),
        }
    }

    fn targets_marked(&mut self, acc: &StreamAccum, out: &mut ExecResult) -> (action: FinishAction)
        requires
            finishes(acc@, old(self)@),
            answers(old(self)@.at, FinishEvent::TargetsMarked),
        ensures
            (FinishStep { state: final(self)@, out: final(out)@, action: action@ })
                == finish_advances(acc@, old(self)@, old(out)@, FinishEvent::TargetsMarked),
            finishes(acc@, final(self)@),
    {
        assert(acc.execute_icb.len() <= usize::MAX);
        match self.at {
            FinishAt::IcbMarking { index } => self.execute(acc, out, index + 1),
            FinishAt::ResolveMarking => self.end_draws(acc, out),
            _ => self.finish(acc, out),
        }
    }

    fn attached(&mut self, acc: &StreamAccum, out: &mut ExecResult, first: Option<DrawEncodeRequest>) -> (action: FinishAction)
        requires
            finishes(acc@, old(self)@),
            answers(old(self)@.at, FinishEvent::Attached(first)),
        ensures
            (FinishStep { state: final(self)@, out: final(out)@, action: action@ })
                == finish_advances(acc@, old(self)@, old(out)@, FinishEvent::Attached(first)),
            finishes(acc@, final(self)@),
    {
        match self.at {
            FinishAt::Resolving => match first {
                Some(first) => {
                    self.template = Some(render_pass_attachment_template(&first));
                    self.encode_draw(acc, out, 0, first)
                },
                None => {
                    out.metal_draws_fail = out.metal_draws_fail.saturating_add(1);
                    self.mark(FinishAt::ResolveMarking, Ghost(out@))
                },
            },
            _ => self.finish(acc, out),
        }
    }

    /// Takes the answer to what the stream asked for, and says what it asks for
    /// next.
    pub fn advance(&mut self, acc: &StreamAccum, out: &mut ExecResult, event: FinishEvent) -> (
        action: FinishAction)
        requires
            old(self).of(acc),
            answers(old(self)@.at, event),
        ensures
            (FinishStep { state: final(self)@, out: final(out)@, action: action@ })
                == finish_advances(acc@, old(self)@, old(out)@, event),
            final(self).of(acc),
    {
        match event {
            FinishEvent::ClearApplied(applied) => self.clear_applied(acc, out, applied),
            FinishEvent::IcbRequested(requested) => self.icb_requested(acc, out, requested),
            FinishEvent::RangeRead(range) => self.range_read(acc, out, range),
            FinishEvent::IcbEncoded(encoded) => self.icb_encoded(acc, out, encoded),
            FinishEvent::TargetsMarked => self.targets_marked(acc, out),
            FinishEvent::Attached(first) => self.attached(acc, out, first),
            FinishEvent::Drawn { status, image, resident_established, visibility_samples } => {
                match self.at {
                    FinishAt::Drawing { index } => self.after_drawn(
                        acc,
                        out,
                        index,
                        status,
                        image,
                        resident_established,
                        visibility_samples,
                    ),
                    _ => self.finish(acc, out),
                }
            },
            FinishEvent::ChainLanded => self.end_draws(acc, out),
            FinishEvent::VisibilityWritten => self.fall_back(acc, out),
        }
    }
}

/// How much a stream may still ask for.
pub open spec fn remaining(acc: AccumView, s: FinishView) -> int {
    let clears = s.clears.len() as int;
    let draws = s.list.len() as int;
    let executions = acc.execute_icb.len() as int;
    match s.at {
        FinishAt::Done => 0,
        FinishAt::Falling { index } => 1 + (clears - index),
        FinishAt::Writing => clears + 2,
        FinishAt::Landing | FinishAt::ResolveMarking => clears + 3,
        FinishAt::Drawing { index } => clears + 3 + (draws - index),
        FinishAt::Resolving => clears + 4 + draws,
        FinishAt::IcbMarking { index } => clears + 5 + draws + 4 * (executions - index),
        FinishAt::IcbEncoding { index } => clears + 6 + draws + 4 * (executions - index),
        FinishAt::IcbRanging { index } => clears + 7 + draws + 4 * (executions - index),
        FinishAt::IcbRequesting { index } => clears + 8 + draws + 4 * (executions - index),
        FinishAt::Clearing { index } => clears + 9 + draws + 4 * executions + (clears - index),
    }
}

proof fn lemma_executions_remain(acc: AccumView, s: FinishView, out: ExecResultView, index: int)
    requires
        finishes(acc, s),
        0 <= index <= acc.execute_icb.len(),
        acc.execute_icb.len() <= usize::MAX,
    ensures
        remaining(acc, executes(acc, s, out, index).state) <= s.clears.len() + 8 + s.list.len() + 4
            * (acc.execute_icb.len() - index),
        index == acc.execute_icb.len() ==> remaining(acc, executes(acc, s, out, index).state)
            <= s.clears.len() + 4 + s.list.len(),
        remaining(acc, executes(acc, s, out, index).state) >= 0,
    decreases acc.execute_icb.len() - index,
{
    if index < acc.execute_icb.len() && acc.color_slots.len() == 0 {
        lemma_executions_remain(acc, s, icb_failed(out), index + 1);
    }
}

proof fn lemma_draws_remain(acc: AccumView, s: FinishView, out: ExecResultView, index: int)
    requires
        finishes(acc, s),
        0 <= index,
        s.clears.len() <= usize::MAX,
    ensures
        0 <= remaining(acc, draws_next(acc, s, out, index).state),
        remaining(acc, draws_next(acc, s, out, index).state) <= s.clears.len() + 3 + (if index
            < s.list.len() {
            s.list.len() - index
        } else {
            0
        }),
{
    lemma_encoded_list(acc.draws);
}

proof fn lemma_a_draw_leaves_less(
    acc: AccumView,
    before: FinishView,
    out: ExecResultView,
    index: usize,
    status: EncodeStatus,
    image: Option<Seq<u8>>,
    resident_established: bool,
    samples: Option<u64>,
)
    requires
        finishes(acc, before),
        before.at == (FinishAt::Drawing { index }),
        before.clears.len() <= usize::MAX,
    ensures
        0 <= remaining(
            acc,
            after_draw(
                acc,
                before,
                out,
                index,
                status,
                image,
                resident_established,
                samples,
            ).state,
        ) < remaining(acc, before),
{
    let s = query_counted(before, samples);
    let encoded = ExecResultView { metal_draws_ok: counted(out.metal_draws_ok, 1), ..out };
    assert(finishes(acc, s));
    lemma_draws_remain(acc, s, encoded, index + 1);
    lemma_draws_remain(acc, FinishView { resident: true, ..s }, encoded, index + 1);
    if let Some(image) = image {
        lemma_draws_remain(acc, FinishView { chain: Some(image), ..s }, encoded, index + 1);
    }
}

/// The end of a stream comes to its end: every answer leaves less to ask for.
#[verifier::spinoff_prover]
pub proof fn lemma_every_answer_leaves_less(
    acc: AccumView,
    s: FinishView,
    out: ExecResultView,
    event: FinishEvent,
)
    requires
        finishes(acc, s),
        answers(s.at, event),
        acc.execute_icb.len() <= usize::MAX,
        acc.clears.len() <= usize::MAX,
    ensures
        0 <= remaining(acc, finish_advances(acc, s, out, event).state) < remaining(acc, s),
{
    lemma_encoded_list(acc.draws);
    lemma_published_is_no_longer(acc.clears);
    match (s.at, event) {
        (FinishAt::Clearing { index }, FinishEvent::ClearApplied(applied)) => {
            lemma_executions_remain(acc, s, clear_counted(out, applied), 0);
        },
        (FinishAt::IcbRequesting { index }, _) => {
            lemma_executions_remain(acc, s, icb_failed(out), index + 1);
        },
        (FinishAt::IcbEncoding { index }, _) => {
            lemma_executions_remain(
                acc,
                s,
                ExecResultView { render_icb_ok: counted(out.render_icb_ok, 1), ..out },
                index + 1,
            );
        },
        (FinishAt::IcbMarking { index }, _) => {
            lemma_executions_remain(acc, s, out, index + 1);
        },
        (
            FinishAt::Drawing { index },
            FinishEvent::Drawn { status, image, resident_established, visibility_samples },
        ) => {
            lemma_a_draw_leaves_less(
                acc,
                s,
                out,
                index,
                status,
                bytes_view(image),
                resident_established,
                visibility_samples,
            );
        },
        _ => {},
    }
}

proof fn lemma_published_is_no_longer(clears: Seq<ColorAttachment>)
    ensures
        published(clears).len() <= clears.len(),
{
    clears.lemma_filter_len(|att: ColorAttachment| publishes_single_sample(att.store_action));
}

/// Whether the executions that a stream has come to, of those before its
/// beginning, are counted once each.
pub open spec fn executions_counted(
    acc: AccumView,
    s: FinishView,
    out: ExecResultView,
    before: int,
) -> bool {
    let counted_so_far = out.render_icb_ok + out.render_icb_fail - before;
    match s.at {
        FinishAt::Clearing { .. } => counted_so_far == 0,
        FinishAt::IcbRequesting { index }
        | FinishAt::IcbRanging { index }
        | FinishAt::IcbEncoding { index } => counted_so_far == index,
        FinishAt::IcbMarking { index } => counted_so_far == index + 1,
        _ => counted_so_far == acc.execute_icb.len(),
    }
}

proof fn lemma_executes_counts(
    acc: AccumView,
    s: FinishView,
    out: ExecResultView,
    index: int,
    before: int,
)
    requires
        0 <= index <= acc.execute_icb.len(),
        acc.execute_icb.len() <= usize::MAX,
        out.render_icb_ok + out.render_icb_fail - before == index,
        before >= 0,
        before + acc.execute_icb.len() <= u32::MAX,
    ensures
        executions_counted(
            acc,
            executes(acc, s, out, index).state,
            executes(acc, s, out, index).out,
            before,
        ),
    decreases acc.execute_icb.len() - index,
{
    if index < acc.execute_icb.len() && acc.color_slots.len() == 0 {
        lemma_executes_counts(acc, s, icb_failed(out), index + 1, before);
    }
}

/// Every execution of a stream is counted once, as encoded or as failed: so it
/// is at the beginning.
pub proof fn lemma_executions_are_counted_from_the_beginning(acc: AccumView, out: ExecResultView)
    requires
        acc.execute_icb.len() <= usize::MAX,
        out.render_icb_ok + out.render_icb_fail + acc.execute_icb.len() <= u32::MAX,
    ensures
        executions_counted(
            acc,
            finish_begins(acc, out).state,
            finish_begins(acc, out).out,
            out.render_icb_ok + out.render_icb_fail,
        ),
{
    let s = entered(acc, out);
    lemma_executes_counts(acc, s, out, 0, out.render_icb_ok + out.render_icb_fail);
}

/// Every execution of a stream is counted once, as encoded or as failed: every
/// answer keeps it so, and when the stream is done all of them are.
#[verifier::spinoff_prover]
pub proof fn lemma_executions_stay_counted(
    acc: AccumView,
    s: FinishView,
    out: ExecResultView,
    event: FinishEvent,
    before: int,
)
    requires
        finishes(acc, s),
        answers(s.at, event),
        executions_counted(acc, s, out, before),
        acc.execute_icb.len() <= usize::MAX,
        before >= 0,
        before + acc.execute_icb.len() <= u32::MAX,
    ensures
        executions_counted(
            acc,
            finish_advances(acc, s, out, event).state,
            finish_advances(acc, s, out, event).out,
            before,
        ),
{
    match (s.at, event) {
        (FinishAt::Clearing { index }, FinishEvent::ClearApplied(applied)) => {
            lemma_executes_counts(acc, s, clear_counted(out, applied), 0, before);
        },
        (FinishAt::IcbRequesting { index }, _) => {
            lemma_executes_counts(acc, s, icb_failed(out), index + 1, before);
        },
        (FinishAt::IcbEncoding { index }, _) => {
            let encoded = ExecResultView { render_icb_ok: counted(out.render_icb_ok, 1), ..out };
            lemma_executes_counts(acc, s, encoded, index + 1, before);
        },
        (FinishAt::IcbMarking { index }, _) => {
            lemma_executes_counts(acc, s, out, index + 1, before);
        },
        _ => {},
    }
}

/// Whether a stream encodes draws: it draws, and one of its draws can be
/// encoded.
pub open spec fn encodes_draws(s: FinishView) -> bool {
    s.drew && s.list.len() > 0
}

/// Whether a stream has written back at most once, and only with its last draw.
/// A stream that encodes no draw has written nothing back.
pub open spec fn stored_once(s: FinishView, out: ExecResultView, before: int) -> bool {
    let stores = out.render_guest_stores - before;
    &&& 0 <= stores <= 1
    &&& !encodes_draws(s) ==> stores == 0
    &&& match s.at {
        FinishAt::Drawing { index } => encodes_draws(s) && (stores == 1 ==> index + 1
            == s.list.len()),
        FinishAt::Resolving => encodes_draws(s) && stores == 0,
        FinishAt::Landing | FinishAt::Writing | FinishAt::Falling { .. } | FinishAt::Done => true,
        _ => stores == 0,
    }
}

proof fn lemma_executes_stores_nothing(
    acc: AccumView,
    s: FinishView,
    out: ExecResultView,
    index: int,
)
    ensures
        stored_once(
            executes(acc, s, out, index).state,
            executes(acc, s, out, index).out,
            out.render_guest_stores as int,
        ),
    decreases acc.execute_icb.len() - index,
{
    if index < acc.execute_icb.len() && acc.color_slots.len() == 0 {
        lemma_executes_stores_nothing(acc, s, icb_failed(out), index + 1);
    }
}

proof fn lemma_a_draw_stores_once(
    acc: AccumView,
    before: FinishView,
    out: ExecResultView,
    index: usize,
    status: EncodeStatus,
    image: Option<Seq<u8>>,
    resident_established: bool,
    samples: Option<u64>,
    stores_before: int,
)
    requires
        finishes(acc, before),
        before.at == (FinishAt::Drawing { index }),
        stored_once(before, out, stores_before),
        0 <= stores_before < u32::MAX,
    ensures
        ({
            let step = after_draw(
                acc,
                before,
                out,
                index,
                status,
                image,
                resident_established,
                samples,
            );
            stored_once(step.state, step.out, stores_before)
        }),
{
    lemma_encoded_list(acc.draws);
}

/// A stream writes its attachments back at most once, and only with the last of
/// its draws, whatever the answers are. One that encodes no draw writes nothing
/// back.
#[verifier::spinoff_prover]
pub proof fn lemma_a_stream_stores_once(
    acc: AccumView,
    s: FinishView,
    out: ExecResultView,
    event: FinishEvent,
    before: int,
)
    requires
        finishes(acc, s),
        answers(s.at, event),
        stored_once(s, out, before),
        0 <= before < u32::MAX,
    ensures
        stored_once(
            finish_advances(acc, s, out, event).state,
            finish_advances(acc, s, out, event).out,
            before,
        ),
{
    lemma_encoded_list(acc.draws);
    match (s.at, event) {
        (FinishAt::Clearing { index }, FinishEvent::ClearApplied(applied)) => {
            lemma_executes_stores_nothing(acc, s, clear_counted(out, applied), 0);
        },
        (FinishAt::IcbRequesting { index }, _) => {
            lemma_executes_stores_nothing(acc, s, icb_failed(out), index + 1);
        },
        (FinishAt::IcbEncoding { index }, _) => {
            let encoded = ExecResultView { render_icb_ok: counted(out.render_icb_ok, 1), ..out };
            lemma_executes_stores_nothing(acc, s, encoded, index + 1);
        },
        (FinishAt::IcbMarking { index }, _) => {
            lemma_executes_stores_nothing(acc, s, out, index + 1);
        },
        (
            FinishAt::Drawing { index },
            FinishEvent::Drawn { status, image, resident_established, visibility_samples },
        ) => {
            lemma_a_draw_stores_once(
                acc,
                s,
                out,
                index,
                status,
                bytes_view(image),
                resident_established,
                visibility_samples,
                before,
            );
        },
        _ => {},
    }
}

/// Clears stand in for draws only where not one of them was encoded.
pub proof fn lemma_clears_stand_in_only_for_failed_draws(
    acc: AccumView,
    s: FinishView,
    out: ExecResultView,
)
    ensures
        drawn(acc, s, out).state.at is Falling ==> more(out.metal_draws_ok, s.entry_ok) == 0,
        falls_back(acc, s, out).state.at is Falling ==> more(out.metal_draws_ok, s.entry_ok) == 0,
{
}

/// A stream begins without having written anything back.
pub proof fn lemma_a_stream_begins_unstored(acc: AccumView, out: ExecResultView)
    ensures
        stored_once(
            finish_begins(acc, out).state,
            finish_begins(acc, out).out,
            out.render_guest_stores as int,
        ),
{
    let s = entered(acc, out);
    lemma_executes_stores_nothing(acc, s, out, 0);
}

/// Whether a stream has encoded no more draws than it has, has had at most one
/// of them fail, and has resolved its attachments at most once. A stream that
/// encodes no draw has done none of this.
pub open spec fn draws_bounded(s: FinishView, out: ExecResultView, resolves_before: int) -> bool {
    let ok = out.metal_draws_ok - s.entry_ok;
    let fail = out.metal_draws_fail - s.entry_fail;
    let resolves = out.render_attachment_resolves - resolves_before;
    &&& 0 <= ok
    &&& 0 <= fail <= 1
    &&& 0 <= resolves <= 1
    &&& ok + fail <= s.list.len()
    &&& !encodes_draws(s) ==> ok == 0 && fail == 0 && resolves == 0
    &&& match s.at {
        FinishAt::Clearing { .. }
        | FinishAt::IcbRequesting { .. }
        | FinishAt::IcbRanging { .. }
        | FinishAt::IcbEncoding { .. }
        | FinishAt::IcbMarking { .. } => ok == 0 && fail == 0 && resolves == 0,
        FinishAt::Resolving => encodes_draws(s) && ok == 0 && fail == 0,
        FinishAt::Drawing { index } => encodes_draws(s) && ok <= index && fail == 0,
        FinishAt::ResolveMarking | FinishAt::Landing => encodes_draws(s),
        _ => true,
    }
}

proof fn lemma_executes_draws_nothing(
    acc: AccumView,
    s: FinishView,
    out: ExecResultView,
    index: int,
)
    requires
        out.metal_draws_ok == s.entry_ok,
        out.metal_draws_fail == s.entry_fail,
    ensures
        draws_bounded(
            executes(acc, s, out, index).state,
            executes(acc, s, out, index).out,
            out.render_attachment_resolves as int,
        ),
    decreases acc.execute_icb.len() - index,
{
    if index < acc.execute_icb.len() && acc.color_slots.len() == 0 {
        lemma_executes_draws_nothing(acc, s, icb_failed(out), index + 1);
    }
}

proof fn lemma_a_next_draw_stays_bounded(
    acc: AccumView,
    s: FinishView,
    out: ExecResultView,
    index: int,
    resolves_before: int,
)
    requires
        finishes(acc, s),
        encodes_draws(s),
        0 <= index,
        0 <= out.metal_draws_ok - s.entry_ok <= index <= s.list.len(),
        out.metal_draws_fail == s.entry_fail,
        0 <= out.render_attachment_resolves - resolves_before <= 1,
    ensures
        draws_bounded(
            draws_next(acc, s, out, index).state,
            draws_next(acc, s, out, index).out,
            resolves_before,
        ),
{
    lemma_encoded_list(acc.draws);
}

proof fn lemma_a_draw_stays_bounded(
    acc: AccumView,
    before: FinishView,
    out: ExecResultView,
    index: usize,
    status: EncodeStatus,
    image: Option<Seq<u8>>,
    resident_established: bool,
    samples: Option<u64>,
    resolves_before: int,
)
    requires
        finishes(acc, before),
        before.at == (FinishAt::Drawing { index }),
        draws_bounded(before, out, resolves_before),
    ensures
        ({
            let step = after_draw(
                acc,
                before,
                out,
                index,
                status,
                image,
                resident_established,
                samples,
            );
            draws_bounded(step.state, step.out, resolves_before)
        }),
{
    let s = query_counted(before, samples);
    let encoded = ExecResultView { metal_draws_ok: counted(out.metal_draws_ok, 1), ..out };
    lemma_a_next_draw_stays_bounded(acc, s, encoded, index + 1, resolves_before);
    lemma_a_next_draw_stays_bounded(
        acc,
        FinishView { resident: true, ..s },
        encoded,
        index + 1,
        resolves_before,
    );
    if let Some(image) = image {
        lemma_a_next_draw_stays_bounded(
            acc,
            FinishView { chain: Some(image), ..s },
            encoded,
            index + 1,
            resolves_before,
        );
    }
}

/// A stream begins within the bounds on its draws.
pub proof fn lemma_draws_begin_bounded(acc: AccumView, out: ExecResultView)
    ensures
        draws_bounded(
            finish_begins(acc, out).state,
            finish_begins(acc, out).out,
            out.render_attachment_resolves as int,
        ),
{
    lemma_executes_draws_nothing(acc, entered(acc, out), out, 0);
}

/// A stream encodes no more draws than it has, has at most one of them fail,
/// and resolves its attachments at most once: every answer keeps it so.
#[verifier::spinoff_prover]
pub proof fn lemma_draws_stay_bounded(
    acc: AccumView,
    s: FinishView,
    out: ExecResultView,
    event: FinishEvent,
    resolves_before: int,
)
    requires
        finishes(acc, s),
        answers(s.at, event),
        draws_bounded(s, out, resolves_before),
    ensures
        draws_bounded(
            finish_advances(acc, s, out, event).state,
            finish_advances(acc, s, out, event).out,
            resolves_before,
        ),
{
    match (s.at, event) {
        (FinishAt::Clearing { index }, FinishEvent::ClearApplied(applied)) => {
            lemma_executes_draws_nothing(acc, s, clear_counted(out, applied), 0);
        },
        (FinishAt::IcbRequesting { index }, _) => {
            lemma_executes_draws_nothing(acc, s, icb_failed(out), index + 1);
        },
        (FinishAt::IcbEncoding { index }, _) => {
            let encoded = ExecResultView { render_icb_ok: counted(out.render_icb_ok, 1), ..out };
            lemma_executes_draws_nothing(acc, s, encoded, index + 1);
        },
        (FinishAt::IcbMarking { index }, _) => {
            lemma_executes_draws_nothing(acc, s, out, index + 1);
        },
        (
            FinishAt::Drawing { index },
            FinishEvent::Drawn { status, image, resident_established, visibility_samples },
        ) => {
            lemma_a_draw_stays_bounded(
                acc,
                s,
                out,
                index,
                status,
                bytes_view(image),
                resident_established,
                visibility_samples,
                resolves_before,
            );
        },
        _ => {},
    }
}

/// Whether a stream cannot run its executions: it has no colour target, or lost
/// something that they would have read.
pub open spec fn executions_refused(acc: AccumView) -> bool {
    acc.color_slots.len() == 0 || acc.unrepresentable is Some
}

/// Whether the executions that a stream has come to, of those before its
/// beginning, have all failed.
pub open spec fn executions_failed(
    acc: AccumView,
    s: FinishView,
    out: ExecResultView,
    ok_before: u32,
    fail_before: u32,
) -> bool {
    &&& out.render_icb_ok == ok_before
    &&& match s.at {
        FinishAt::Clearing { .. } => out.render_icb_fail == fail_before,
        FinishAt::IcbRequesting { index } => acc.color_slots.len() > 0 && out.render_icb_fail
            == fail_before + index,
        FinishAt::IcbRanging { .. }
        | FinishAt::IcbEncoding { .. }
        | FinishAt::IcbMarking { .. } => false,
        _ => out.render_icb_fail == fail_before + acc.execute_icb.len(),
    }
}

proof fn lemma_executes_fails(
    acc: AccumView,
    s: FinishView,
    out: ExecResultView,
    index: int,
    fail_before: u32,
)
    requires
        executions_refused(acc),
        0 <= index <= acc.execute_icb.len(),
        acc.execute_icb.len() <= usize::MAX,
        fail_before + acc.execute_icb.len() <= u32::MAX,
        out.render_icb_fail == fail_before + index,
    ensures
        executions_failed(
            acc,
            executes(acc, s, out, index).state,
            executes(acc, s, out, index).out,
            out.render_icb_ok,
            fail_before,
        ),
    decreases acc.execute_icb.len() - index,
{
    if index < acc.execute_icb.len() && acc.color_slots.len() == 0 {
        lemma_executes_fails(acc, s, icb_failed(out), index + 1, fail_before);
    }
}

/// Without a colour target, or with something lost that they would have read,
/// the executions of a stream all fail: so it is at the beginning.
pub proof fn lemma_refused_executions_fail_from_the_beginning(acc: AccumView, out: ExecResultView)
    requires
        executions_refused(acc),
        acc.execute_icb.len() <= usize::MAX,
        out.render_icb_fail + acc.execute_icb.len() <= u32::MAX,
    ensures
        executions_failed(
            acc,
            finish_begins(acc, out).state,
            finish_begins(acc, out).out,
            out.render_icb_ok,
            out.render_icb_fail,
        ),
{
    lemma_executes_fails(acc, entered(acc, out), out, 0, out.render_icb_fail);
}

proof fn lemma_a_draw_executes_nothing(
    acc: AccumView,
    before: FinishView,
    out: ExecResultView,
    index: usize,
    status: EncodeStatus,
    image: Option<Seq<u8>>,
    resident_established: bool,
    samples: Option<u64>,
    ok_before: u32,
    fail_before: u32,
)
    requires
        before.at == (FinishAt::Drawing { index }),
        executions_failed(acc, before, out, ok_before, fail_before),
    ensures
        ({
            let step = after_draw(
                acc,
                before,
                out,
                index,
                status,
                image,
                resident_established,
                samples,
            );
            executions_failed(acc, step.state, step.out, ok_before, fail_before)
        }),
{
}

/// Without a colour target, or with something lost that they would have read,
/// the executions of a stream all fail: every answer keeps it so, and when the
/// stream is done all of them have.
#[verifier::spinoff_prover]
pub proof fn lemma_refused_executions_fail(
    acc: AccumView,
    s: FinishView,
    out: ExecResultView,
    event: FinishEvent,
    ok_before: u32,
    fail_before: u32,
)
    requires
        finishes(acc, s),
        answers(s.at, event),
        executions_refused(acc),
        executions_failed(acc, s, out, ok_before, fail_before),
        acc.execute_icb.len() <= usize::MAX,
        fail_before + acc.execute_icb.len() <= u32::MAX,
    ensures
        executions_failed(
            acc,
            finish_advances(acc, s, out, event).state,
            finish_advances(acc, s, out, event).out,
            ok_before,
            fail_before,
        ),
{
    match (s.at, event) {
        (FinishAt::Clearing { index }, FinishEvent::ClearApplied(applied)) => {
            lemma_executes_fails(acc, s, clear_counted(out, applied), 0, fail_before);
        },
        (FinishAt::IcbRequesting { index }, FinishEvent::IcbRequested(requested)) => {
            lemma_executes_fails(acc, s, icb_failed(out), index + 1, fail_before);
        },
        (
            FinishAt::Drawing { index },
            FinishEvent::Drawn { status, image, resident_established, visibility_samples },
        ) => {
            lemma_a_draw_executes_nothing(
                acc,
                s,
                out,
                index,
                status,
                bytes_view(image),
                resident_established,
                visibility_samples,
                ok_before,
                fail_before,
            );
        },
        _ => {},
    }
}

proof fn lemma_encoded_places(draws: Seq<PendingView>)
    requires
        draws.len() <= usize::MAX,
    ensures
        forall|i: int|
            0 <= i < encoded_list(draws).len() ==> {
                let at = #[trigger] encoded_list(draws)[i];
                at < draws.len() && draws[at as int].pipeline_ref != 0
                    && draws[at as int].draw.vertex_count > 0
            },
        forall|i: int, j: int|
            0 <= i < j < encoded_list(draws).len() ==> #[trigger] encoded_list(draws)[i]
                < #[trigger] encoded_list(draws)[j],
        forall|at: int|
            0 <= at < draws.len() && (#[trigger] draws[at]).pipeline_ref != 0
                && draws[at].draw.vertex_count > 0 ==> encoded_list(draws).contains(at as usize),
    decreases draws.len(),
{
    if draws.len() > 0 {
        let earlier = draws.drop_last();
        let before = encoded_list(earlier);
        let after = encoded_list(draws);
        lemma_encoded_places(earlier);
        assert forall|i: int| 0 <= i < after.len() implies {
            let at = #[trigger] after[i];
            at < draws.len() && draws[at as int].pipeline_ref != 0
                && draws[at as int].draw.vertex_count > 0
        } by {
            if i < before.len() {
                assert(after[i] == before[i]);
                assert(earlier[before[i] as int] == draws[before[i] as int]);
            }
        }
        assert forall|i: int, j: int| 0 <= i < j < after.len() implies #[trigger] after[i]
            < #[trigger] after[j] by {
            assert(after[i] == before[i]);
            if j < before.len() {
                assert(after[j] == before[j]);
            }
        }
        assert forall|at: int|
            0 <= at < draws.len() && (#[trigger] draws[at]).pipeline_ref != 0
                && draws[at].draw.vertex_count > 0 implies after.contains(at as usize) by {
            if at < earlier.len() {
                assert(earlier[at] == draws[at]);
                assert(before.contains(at as usize));
                let i = choose|i: int| 0 <= i < before.len() && before[i] == at as usize;
                assert(after[i] == at as usize);
            } else {
                assert(after[after.len() - 1] == at as usize);
            }
        }
    }
}

/// The draws of a stream that are encoded are those with a pipeline and a
/// vertex, each of them once and in the order in which they were recorded.
pub proof fn lemma_every_draw_that_can_be_encoded_is(acc: AccumView, s: FinishView)
    requires
        finishes(acc, s),
    ensures
        forall|i: int|
            0 <= i < s.list.len() ==> {
                let at = #[trigger] s.list[i];
                at < acc.draws.len() && acc.draws[at as int].pipeline_ref != 0
                    && acc.draws[at as int].draw.vertex_count > 0
            },
        forall|i: int, j: int|
            0 <= i < j < s.list.len() ==> #[trigger] s.list[i] < #[trigger] s.list[j],
        forall|at: int|
            0 <= at < acc.draws.len() && (#[trigger] acc.draws[at]).pipeline_ref != 0
                && acc.draws[at].draw.vertex_count > 0 ==> s.list.contains(at as usize),
{
    lemma_encoded_places(acc.draws);
}

/// Every draw of a stream is encoded with the state that it was recorded with,
/// and every draw behind the first with its own pipeline and counts.
#[verifier::spinoff_prover]
#[verifier::rlimit(40)]
pub proof fn lemma_a_draw_is_encoded_as_it_was_recorded(
    acc: AccumView,
    s: FinishView,
    out: ExecResultView,
    event: FinishEvent,
)
    requires
        finishes(acc, s),
        answers(s.at, event),
    ensures
        ({
            let step = finish_advances(acc, s, out, event);
            match (step.state.at, step.action) {
                (FinishAt::Drawing { index }, ActionView::EncodeDraw { request, .. }) => {
                    let recorded = acc.draws[step.state.list[index as int] as int];
                    &&& index < step.state.list.len()
                    &&& request.state.vertex_buffers == recorded.state.vertex_buffers
                    &&& request.state.fragment_buffers == recorded.state.fragment_buffers
                    &&& request.state.vertex_textures == recorded.state.vertex_textures
                    &&& request.state.fragment_textures == recorded.state.fragment_textures
                    &&& request.state.vertex_samplers == recorded.state.vertex_samplers
                    &&& request.state.fragment_samplers == recorded.state.fragment_samplers
                    &&& request.state.viewports == recorded.state.viewports
                    &&& request.state.scissors == recorded.state.scissors
                    &&& request.state.indexed == recorded.state.indexed
                    &&& request.state.blend_color == recorded.state.blend_color
                    &&& request.state.cull_mode == recorded.state.cull_mode
                    &&& request.state.front_facing == recorded.state.front_facing
                    &&& request.state.fill_mode == recorded.state.fill_mode
                    &&& request.state.depth_clip_mode == recorded.state.depth_clip_mode
                    &&& request.state.line_width == recorded.state.line_width
                    &&& request.state.depth_bias == recorded.state.depth_bias
                    &&& request.state.depth_stencil_ref == recorded.state.depth_stencil_ref
                    &&& request.state.stencil_ref == recorded.state.stencil_ref
                    &&& request.state.depth_attach == recorded.state.depth_attach
                    &&& request.state.stencil_attach == recorded.state.stencil_attach
                    &&& request.state.visibility == recorded.state.visibility
                    &&& request.visibility_samples is None
                    &&& step.state.arming == recorded.state.visibility
                    &&& index > 0 ==> request.pipeline_ref == recorded.pipeline_ref && request.draw
                        == recorded.draw
                },
                (_, ActionView::EncodeDraw { .. }) => false,
                _ => true,
            }
        }),
{
    lemma_encoded_list(acc.draws);
    match (s.at, event) {
        (FinishAt::Clearing { index }, FinishEvent::ClearApplied(applied)) => {
            lemma_executes_encodes_nothing(acc, s, clear_counted(out, applied), 0);
        },
        (FinishAt::IcbRequesting { index }, _) => {
            lemma_executes_encodes_nothing(acc, s, icb_failed(out), index + 1);
        },
        (FinishAt::IcbEncoding { index }, _) => {
            let encoded = ExecResultView { render_icb_ok: counted(out.render_icb_ok, 1), ..out };
            lemma_executes_encodes_nothing(acc, s, encoded, index + 1);
        },
        (FinishAt::IcbMarking { index }, _) => {
            lemma_executes_encodes_nothing(acc, s, out, index + 1);
        },
        _ => {},
    }
}

proof fn lemma_executes_encodes_nothing(
    acc: AccumView,
    s: FinishView,
    out: ExecResultView,
    index: int,
)
    ensures
        !(executes(acc, s, out, index).action is EncodeDraw),
        !(executes(acc, s, out, index).action is WriteVisibility) || s.counts.len() > 0,
    decreases acc.execute_icb.len() - index,
{
    if index < acc.execute_icb.len() && acc.color_slots.len() == 0 {
        lemma_executes_encodes_nothing(acc, s, icb_failed(out), index + 1);
    }
}

/// A stream has no draw encoded before its attachments are resolved.
pub proof fn lemma_a_stream_begins_without_a_draw(acc: AccumView, out: ExecResultView)
    ensures
        !(finish_begins(acc, out).action is EncodeDraw),
{
    lemma_executes_encodes_nothing(acc, entered(acc, out), out, 0);
}

/// Where a draw stands in its pass decides how it is encoded: all but the first
/// go on with the pass, all but the last leave it open, only the last writes
/// back, and where draws came before it, all of the target.
#[verifier::spinoff_prover]
#[verifier::rlimit(30)]
pub proof fn lemma_a_draw_is_encoded_in_its_place(
    acc: AccumView,
    s: FinishView,
    out: ExecResultView,
    event: FinishEvent,
)
    requires
        finishes(acc, s),
        answers(s.at, event),
    ensures
        ({
            let step = finish_advances(acc, s, out, event);
            match (step.state.at, step.action) {
                (
                    FinishAt::Drawing { index },
                    ActionView::EncodeDraw { request, source, writeback, force_full_store },
                ) => {
                    &&& request.continues_render_pass <==> index > 0
                    &&& request.render_pass_continues <==> index + 1 < s.list.len()
                    &&& writeback <==> index + 1 == s.list.len()
                    &&& force_full_store <==> index > 0 && index + 1 == s.list.len()
                    &&& source is Some <==> index > 0
                    &&& index > 0 ==> forall|c: int|
                        0 <= c < request.colors.len() ==> (
                        #[trigger] request.colors[c]).load_action == LOAD_ACTION_LOAD
                    &&& match s.at {
                        FinishAt::Resolving => index == 0,
                        FinishAt::Drawing { index: before } => index == before + 1,
                        _ => false,
                    }
                    &&& step.state.list == s.list
                },
                _ => true,
            }
        }),
{
    lemma_encoded_list(acc.draws);
    match (s.at, event) {
        (FinishAt::Clearing { index }, FinishEvent::ClearApplied(applied)) => {
            lemma_executes_encodes_nothing(acc, s, clear_counted(out, applied), 0);
        },
        (FinishAt::IcbRequesting { index }, _) => {
            lemma_executes_encodes_nothing(acc, s, icb_failed(out), index + 1);
        },
        (FinishAt::IcbEncoding { index }, _) => {
            let encoded = ExecResultView { render_icb_ok: counted(out.render_icb_ok, 1), ..out };
            lemma_executes_encodes_nothing(acc, s, encoded, index + 1);
        },
        (FinishAt::IcbMarking { index }, _) => {
            lemma_executes_encodes_nothing(acc, s, out, index + 1);
        },
        _ => {},
    }
}

/// Whether two colour targets are the same attachment of a pass: all but how
/// they are loaded and what they are seeded with.
pub open spec fn same_attachment(one: ColorRtView, other: ColorRtView) -> bool {
    &&& one.slot == other.slot
    &&& one.texture_ref == other.texture_ref
    &&& one.mapping_id == other.mapping_id
    &&& one.target_gva == other.target_gva
    &&& one.row_stride == other.row_stride
    &&& one.width == other.width
    &&& one.height == other.height
    &&& one.format == other.format
    &&& one.sample_count == other.sample_count
    &&& one.store_action == other.store_action
    &&& one.clear_color == other.clear_color
    &&& one.multisample_source_ref == other.multisample_source_ref
}

/// The first draw of a pass is encoded into the attachments that the pass
/// resolved to, as they are, and they are kept for the draws behind it without
/// their seeds.
pub proof fn lemma_the_first_draw_takes_the_resolved_attachments(
    acc: AccumView,
    s: FinishView,
    out: ExecResultView,
    first: DrawEncodeRequest,
)
    requires
        finishes(acc, s),
        s.at is Resolving,
    ensures
        ({
            let step = finish_advances(acc, s, out, FinishEvent::Attached(Some(first)));
            match (step.action, step.state.template) {
                (ActionView::EncodeDraw { request, .. }, Some(template)) => {
                    &&& request.colors == first@.colors
                    &&& request.task_id == first.task_id
                    &&& request.pipeline_ref == first.pipeline_ref
                    &&& request.draw == first.draw
                    &&& request.chain_from_resident == first.chain_from_resident
                    &&& template.task_id == first.task_id
                    &&& template.colors.len() == first@.colors.len()
                    &&& forall|c: int|
                        0 <= c < template.colors.len() ==> same_attachment(
                            #[trigger] template.colors[c],
                            first@.colors[c],
                        ) && template.colors[c].target_seed_rgba is None
                    &&& !template.chain_from_resident
                },
                _ => false,
            }
        }),
{
    let step = finish_advances(acc, s, out, FinishEvent::Attached(Some(first)));
    assert(step.state.template == Some(template_of(first@)));
}

/// A draw behind the first is encoded into the same attachments, and starts from
/// what the draws before it left: the target that is still on the device, or
/// else the image that the draw before it gave.
#[verifier::spinoff_prover]
pub proof fn lemma_a_draw_starts_from_what_was_left(
    acc: AccumView,
    s: FinishView,
    out: ExecResultView,
    index: usize,
    image: Option<Vec<u8>>,
    resident_established: bool,
    visibility_samples: Option<u64>,
    template: RequestView,
)
    requires
        finishes(acc, s),
        s.at == (FinishAt::Drawing { index }),
        index + 1 < s.list.len(),
        s.template == Some(template),
        image is Some || resident_established,
    ensures
        ({
            let step = finish_advances(
                acc,
                s,
                out,
                FinishEvent::Drawn {
                    status: EncodeStatus::Encoded,
                    image,
                    resident_established,
                    visibility_samples,
                },
            );
            let resident = s.resident || image is None;
            match step.action {
                ActionView::EncodeDraw { request, source, .. } => {
                    &&& step.state.at == (FinishAt::Drawing { index: (index + 1) as usize })
                    &&& request.task_id == template.task_id
                    &&& request.colors.len() == template.colors.len()
                    &&& forall|c: int|
                        0 <= c < request.colors.len() ==> same_attachment(
                            #[trigger] request.colors[c],
                            template.colors[c],
                        )
                    &&& resident ==> request.chain_from_resident && source == Some(
                        MultiDrawChainSource::Resident,
                    )
                    &&& !resident ==> source == Some(MultiDrawChainSource::Cpu)
                        && request.chain_from_resident == template.chain_from_resident
                    &&& !resident && request.colors.len() > 0
                        ==> request.colors[0].target_seed_rgba == bytes_view(image)
                    &&& forall|c: int|
                        0 <= c < request.colors.len() && (resident || c > 0) ==> (
                        #[trigger] request.colors[c]).target_seed_rgba
                            == template.colors[c].target_seed_rgba
                },
                _ => false,
            }
        }),
{
    lemma_encoded_list(acc.draws);
}

/// Each answer of the device is counted for what it is, and for nothing else.
#[verifier::spinoff_prover]
pub proof fn lemma_answers_are_counted(
    acc: AccumView,
    s: FinishView,
    out: ExecResultView,
    event: FinishEvent,
)
    requires
        finishes(acc, s),
        answers(s.at, event),
        acc.color_slots.len() > 0,
        out.clears_applied < u32::MAX,
        out.render_icb_ok < u32::MAX,
        out.render_icb_fail < u32::MAX,
        out.metal_draws_ok < u32::MAX,
        out.metal_draws_fail < u32::MAX,
    ensures
        ({
            let after = finish_advances(acc, s, out, event).out;
            &&& after.clears_applied == out.clears_applied + if event matches FinishEvent::ClearApplied(
                true,
            ) {
                1int
            } else {
                0int
            }
            &&& after.render_icb_ok == out.render_icb_ok + if event matches FinishEvent::IcbEncoded(
                true,
            ) {
                1int
            } else {
                0int
            }
            &&& after.render_icb_fail == out.render_icb_fail + match event {
                FinishEvent::IcbEncoded(false) => 1int,
                FinishEvent::RangeRead(None) => 1int,
                FinishEvent::IcbRequested(requested) => if requested
                    && acc.unrepresentable is None {
                    0int
                } else {
                    1int
                },
                _ => 0int,
            }
            &&& after.metal_draws_ok == out.metal_draws_ok + match event {
                FinishEvent::Drawn { status: EncodeStatus::Encoded, .. } => 1int,
                _ => 0int,
            }
            &&& after.metal_draws_fail == out.metal_draws_fail + match event {
                FinishEvent::Drawn { status: EncodeStatus::Encoded, .. } => 0int,
                FinishEvent::Drawn { .. } => 1int,
                FinishEvent::Attached(None) => 1int,
                _ => 0int,
            }
            &&& after.task_id == out.task_id
            &&& after.streams_loaded == out.streams_loaded
            &&& after.texture_refs == out.texture_refs
            &&& after.mapper_ref_texture_mappings == out.mapper_ref_texture_mappings
        }),
{
    match (s.at, event) {
        (
            FinishAt::Drawing { index },
            FinishEvent::Drawn { status, image, resident_established, visibility_samples },
        ) => {},
        _ => {},
    }
}

/// Whether what a stream asks for is what its records ask for: clears that are
/// published, executions with their own buffer, range and state, and the
/// attachments of the first draw.
pub open spec fn asks_for_what_was_recorded(acc: AccumView, step: FinishStep) -> bool {
    match (step.state.at, step.action) {
        (FinishAt::Clearing { index }, ActionView::ApplyClear(attachment))
        | (FinishAt::Falling { index }, ActionView::ApplyClear(attachment)) => {
            &&& acc.clears.contains(attachment)
            &&& attachment.store_action == STORE_ACTION_STORE || attachment.store_action
                == STORE_ACTION_MULTISAMPLE_RESOLVE || attachment.store_action
                == STORE_ACTION_STORE_AND_MULTISAMPLE_RESOLVE
            &&& index < step.state.clears.len()
            &&& attachment == step.state.clears[index as int]
        },
        (
            FinishAt::IcbRequesting { index },
            ActionView::RequestIcb { pipeline_ref, args, slots, clears },
        ) => {
            &&& index < acc.execute_icb.len()
            &&& acc.color_slots.len() > 0
            &&& pipeline_ref != 0
            &&& acc.pipeline_ref != 0 ==> pipeline_ref == acc.pipeline_ref
            &&& acc.pipeline_ref != 0 && acc.draws.len() > 0 ==> args == acc.draws.last().draw
            &&& acc.pipeline_ref == 0 || acc.draws.len() == 0 ==> args.vertex_count == 1
                && args.instance_count == 1 && args.primitive_type == 3 && args.first_vertex == 0
                && args.base_instance == 0
            &&& index == 0 ==> slots == acc.color_slots && clears == acc.clears
            &&& index > 0 ==> clears.len() == 0
            &&& slots.len() == acc.color_slots.len()
            &&& forall|k: int|
                0 <= k < slots.len() ==> (#[trigger] slots[k]).0 == acc.color_slots[k].0
                    && slots[k].1 == (if index == 0 {
                    acc.color_slots[k].1
                } else {
                    ColorAttachment { load_action: LOAD_ACTION_LOAD, ..acc.color_slots[k].1 }
                })
        },
        (FinishAt::IcbRanging { index }, ActionView::ReadRange { buffer_ref, offset }) => {
            &&& index < acc.execute_icb.len()
            &&& !acc.execute_icb[index as int].is_range
            &&& buffer_ref == acc.execute_icb[index as int].args_buffer_ref
            &&& offset == acc.execute_icb[index as int].args_buffer_offset
        },
        (
            FinishAt::IcbEncoding { index },
            ActionView::EncodeIcb { icb_ref, location, length, state },
        ) => {
            let exec = acc.execute_icb[index as int];
            &&& index < acc.execute_icb.len()
            &&& icb_ref == exec.icb_ref
            &&& exec.is_range ==> location == exec.range_location && length == exec.range_length
            &&& acc.draws.len() > 0 ==> state == acc.draws.last().state
            &&& acc.draws.len() == 0 ==> state == acc.state
            &&& acc.unrepresentable is None
        },
        (FinishAt::Resolving, ActionView::ResolveAttachments { pipeline_ref, draw }) => {
            let first = acc.draws[step.state.list[0] as int];
            &&& step.state.list.len() > 0
            &&& pipeline_ref == first.pipeline_ref
            &&& draw == first.draw
            &&& acc.saw_draw && acc.color_slots.len() > 0
        },
        (FinishAt::Drawing { .. }, ActionView::EncodeDraw { .. }) => true,
        (FinishAt::IcbMarking { .. }, ActionView::MarkTargets) => true,
        (FinishAt::ResolveMarking, ActionView::MarkTargets) => true,
        (FinishAt::Landing, ActionView::LandChain { .. }) => true,
        (FinishAt::Writing, ActionView::WriteVisibility(counts)) => {
            counts == step.state.counts && counts.len() > 0
        },
        (FinishAt::Done, ActionView::Finish { .. }) => true,
        _ => false,
    }
}

proof fn lemma_published_places(clears: Seq<ColorAttachment>)
    ensures
        forall|i: int|
            0 <= i < published(clears).len() ==> clears.contains(#[trigger] published(clears)[i])
                && publishes_single_sample(published(clears)[i].store_action),
    decreases clears.len(),
{
    reveal(Seq::filter);
    if clears.len() > 0 {
        let earlier = clears.drop_last();
        lemma_published_places(earlier);
        assert forall|i: int| 0 <= i < published(clears).len() implies clears.contains(
            #[trigger] published(clears)[i],
        ) && publishes_single_sample(published(clears)[i].store_action) by {
            if i < published(earlier).len() {
                assert(published(clears)[i] == published(earlier)[i]);
                let j = choose|j: int|
                    0 <= j < earlier.len() && earlier[j] == published(earlier)[i];
                assert(clears[j] == published(clears)[i]);
            } else {
                assert(clears[clears.len() - 1] == published(clears)[i]);
            }
        }
    }
}

/// Every clear that publishes is among those that a stream may write out, in
/// order, and no other.
pub proof fn lemma_every_published_clear_is_kept(clears: Seq<ColorAttachment>)
    ensures
        published(clears).len() <= clears.len(),
        forall|i: int|
            0 <= i < clears.len() && ((#[trigger] clears[i]).store_action == STORE_ACTION_STORE
                || clears[i].store_action == STORE_ACTION_MULTISAMPLE_RESOLVE
                || clears[i].store_action == STORE_ACTION_STORE_AND_MULTISAMPLE_RESOLVE)
                ==> published(clears).contains(clears[i]),
        forall|i: int|
            0 <= i < published(clears).len() ==> clears.contains(#[trigger] published(clears)[i]),
{
    lemma_published_is_no_longer(clears);
    lemma_published_places(clears);
    let keep = |att: ColorAttachment| publishes_single_sample(att.store_action);
    assert forall|i: int|
        0 <= i < clears.len() && ((#[trigger] clears[i]).store_action == STORE_ACTION_STORE
            || clears[i].store_action == STORE_ACTION_MULTISAMPLE_RESOLVE
            || clears[i].store_action == STORE_ACTION_STORE_AND_MULTISAMPLE_RESOLVE)
            implies published(clears).contains(clears[i]) by {
        clears.lemma_filter_contains(keep, i);
    }
}

proof fn lemma_executes_asks(acc: AccumView, s: FinishView, out: ExecResultView, index: int)
    requires
        finishes(acc, s),
        s.drew == will_draw(acc),
        0 <= index <= acc.execute_icb.len(),
        acc.execute_icb.len() <= usize::MAX,
    ensures
        asks_for_what_was_recorded(acc, executes(acc, s, out, index)),
    decreases acc.execute_icb.len() - index,
{
    lemma_published_places(acc.clears);
    if index < acc.execute_icb.len() && acc.color_slots.len() == 0 {
        lemma_executes_asks(acc, s, icb_failed(out), index + 1);
    }
}

/// A stream begins by asking for what was recorded.
pub proof fn lemma_a_stream_begins_with_what_was_recorded(acc: AccumView, out: ExecResultView)
    requires
        acc.draws.len() <= usize::MAX,
        acc.execute_icb.len() <= usize::MAX,
    ensures
        asks_for_what_was_recorded(acc, finish_begins(acc, out)),
        finish_begins(acc, out).state.drew <==> acc.saw_draw && acc.color_slots.len() > 0
            && acc.draws.len() > 0,
{
    lemma_published_places(acc.clears);
    lemma_executes_asks(acc, entered(acc, out), out, 0);
    lemma_executes_keeps(acc, entered(acc, out), out, 0);
}

proof fn lemma_executes_keeps(acc: AccumView, s: FinishView, out: ExecResultView, index: int)
    ensures
        executes(acc, s, out, index).state == (FinishView {
            at: executes(acc, s, out, index).state.at,
            ..s
        }),
    decreases acc.execute_icb.len() - index,
{
    if index < acc.execute_icb.len() && acc.color_slots.len() == 0 {
        lemma_executes_keeps(acc, s, icb_failed(out), index + 1);
    }
}

/// Whatever the answers are, a stream asks for what was recorded, and a range
/// that was read is the range that is executed.
#[verifier::spinoff_prover]
pub proof fn lemma_a_stream_asks_for_what_was_recorded(
    acc: AccumView,
    s: FinishView,
    out: ExecResultView,
    event: FinishEvent,
)
    requires
        finishes(acc, s),
        answers(s.at, event),
        s.drew == will_draw(acc),
        acc.execute_icb.len() <= usize::MAX,
        acc.clears.len() <= usize::MAX,
        match s.at {
            FinishAt::IcbRanging { index } => acc.unrepresentable is None
                && !acc.execute_icb[index as int].is_range,
            _ => true,
        },
    ensures
        asks_for_what_was_recorded(acc, finish_advances(acc, s, out, event)),
        match (event, finish_advances(acc, s, out, event).action) {
            (
                FinishEvent::RangeRead(Some((location, length))),
                ActionView::EncodeIcb { location: from, length: count, .. },
            ) => from == location && count == length,
            (FinishEvent::RangeRead(Some(_)), _) => false,
            _ => true,
        },
{
    lemma_encoded_list(acc.draws);
    lemma_published_places(acc.clears);
    lemma_published_is_no_longer(acc.clears);
    match (s.at, event) {
        (FinishAt::Clearing { index }, FinishEvent::ClearApplied(applied)) => {
            lemma_executes_asks(acc, s, clear_counted(out, applied), 0);
        },
        (FinishAt::IcbRequesting { index }, _) => {
            lemma_executes_asks(acc, s, icb_failed(out), index + 1);
        },
        (FinishAt::IcbEncoding { index }, _) => {
            let encoded = ExecResultView { render_icb_ok: counted(out.render_icb_ok, 1), ..out };
            lemma_executes_asks(acc, s, encoded, index + 1);
        },
        (FinishAt::IcbMarking { index }, _) => {
            lemma_executes_asks(acc, s, out, index + 1);
        },
        _ => {},
    }
}

/// Draws end before the last exactly where one is not encoded, or leaves nothing
/// for the next and is neither the last nor drawn into a mapping. What the draws
/// before it left is then written out: the image, or else the target that is
/// still on the device.
#[verifier::spinoff_prover]
pub proof fn lemma_a_broken_chain_is_landed(
    acc: AccumView,
    s: FinishView,
    out: ExecResultView,
    index: usize,
    status: EncodeStatus,
    image: Option<Vec<u8>>,
    resident_established: bool,
    visibility_samples: Option<u64>,
)
    requires
        finishes(acc, s),
        s.at == (FinishAt::Drawing { index }),
    ensures
        ({
            let step = finish_advances(
                acc,
                s,
                out,
                FinishEvent::Drawn { status, image, resident_established, visibility_samples },
            );
            let left_nothing = image is None && !resident_established && index + 1 < s.list.len()
                && !s.unified;
            &&& step.action is LandChain <==> status != EncodeStatus::Encoded || left_nothing
            &&& match step.action {
                ActionView::LandChain { cause, readback, image: landed, abandoned } => {
                    &&& landed == s.chain
                    &&& readback <==> s.resident && s.chain is None
                    &&& abandoned.index == index
                    &&& abandoned.total == s.list.len()
                    &&& abandoned.pipeline_ref == acc.draws[s.list[index as int] as int].pipeline_ref
                    &&& cause == match status {
                        EncodeStatus::Encoded => ChainAbandonCause::NoColor0,
                        EncodeStatus::NoMetal => ChainAbandonCause::NoMetal,
                        EncodeStatus::Refused => ChainAbandonCause::TerminalRefusal,
                    }
                    &&& step.state.at is Landing
                },
                _ => true,
            }
            &&& step.state.saw_nometal <==> s.saw_nometal || status == EncodeStatus::NoMetal
        }),
{
    lemma_encoded_list(acc.draws);
}

/// The samples of a draw go under the offset that the draw was recorded with,
/// and a query that was armed and not answered is kept to be reported.
#[verifier::spinoff_prover]
pub proof fn lemma_samples_go_to_the_armed_offset(
    acc: AccumView,
    s: FinishView,
    out: ExecResultView,
    status: EncodeStatus,
    image: Option<Vec<u8>>,
    resident_established: bool,
    visibility_samples: Option<u64>,
)
    requires
        finishes(acc, s),
        s.at is Drawing,
    ensures
        ({
            let after = finish_advances(
                acc,
                s,
                out,
                FinishEvent::Drawn { status, image, resident_established, visibility_samples },
            ).state;
            match (s.arming, visibility_samples) {
                (Some(arming), Some(samples)) => after.counts == counts_with(
                    s.counts,
                    arming.offset,
                    samples,
                ) && after.unanswered == s.unanswered,
                (Some(arming), None) => after.counts == s.counts && after.unanswered
                    == s.unanswered.push(arming),
                (None, _) => after.counts == s.counts && after.unanswered == s.unanswered,
            }
        }),
{
}

/// A stream ends by reporting a fallback exactly where it was to draw, encoded
/// no draw and has clears, and something was cleared or failed.
pub proof fn lemma_a_fallback_is_reported(acc: AccumView, s: FinishView, out: ExecResultView)
    requires
        out.metal_draws_ok >= s.entry_ok,
        out.metal_draws_fail >= s.entry_fail,
        out.clears_applied >= s.entry_clears,
    ensures
        match finished(acc, s, out).action {
            ActionView::Finish { fallback } => {
                &&& fallback is Some <==> s.drew && out.metal_draws_ok == s.entry_ok
                    && acc.clears.len() > 0 && (out.clears_applied > s.entry_clears
                    || s.saw_nometal || out.metal_draws_fail > s.entry_fail)
                &&& fallback matches Some(fallback) ==> {
                    &&& fallback.clears == out.clears_applied - s.entry_clears
                    &&& fallback.draws_fail == out.metal_draws_fail - s.entry_fail
                    &&& fallback.nometal == s.saw_nometal
                }
            },
            _ => false,
        },
        finished(acc, s, out).out == out,
{
}

/// While a draw is encoded, the query that is armed is the one that the draw was
/// recorded with, and it is drawn into a mapping just where its first target is
/// one.
#[verifier::spinoff_prover]
#[verifier::rlimit(30)]
pub proof fn lemma_a_draw_arms_its_own_query(
    acc: AccumView,
    s: FinishView,
    out: ExecResultView,
    event: FinishEvent,
)
    requires
        finishes(acc, s),
        answers(s.at, event),
    ensures
        ({
            let step = finish_advances(acc, s, out, event);
            match (step.state.at, step.action) {
                (FinishAt::Drawing { index }, ActionView::EncodeDraw { request, .. }) => {
                    let recorded = acc.draws[step.state.list[index as int] as int];
                    &&& step.state.arming == recorded.state.visibility
                    &&& step.state.unified <==> request.colors.len() > 0
                        && request.colors[0].mapping_id != 0
                },
                _ => true,
            }
        }),
{
    lemma_encoded_list(acc.draws);
    match (s.at, event) {
        (FinishAt::Clearing { index }, FinishEvent::ClearApplied(applied)) => {
            lemma_executes_encodes_nothing(acc, s, clear_counted(out, applied), 0);
        },
        (FinishAt::IcbRequesting { index }, _) => {
            lemma_executes_encodes_nothing(acc, s, icb_failed(out), index + 1);
        },
        (FinishAt::IcbEncoding { index }, _) => {
            let encoded = ExecResultView { render_icb_ok: counted(out.render_icb_ok, 1), ..out };
            lemma_executes_encodes_nothing(acc, s, encoded, index + 1);
        },
        (FinishAt::IcbMarking { index }, _) => {
            lemma_executes_encodes_nothing(acc, s, out, index + 1);
        },
        _ => {},
    }
}

proof fn lemma_executes_next(acc: AccumView, s: FinishView, out: ExecResultView, index: int)
    requires
        0 <= index <= acc.execute_icb.len() <= usize::MAX,
    ensures
        ({
            let at = executes(acc, s, out, index).state.at;
            &&& index < acc.execute_icb.len() && acc.color_slots.len() > 0 ==> at == (
            FinishAt::IcbRequesting { index: index as usize })
            &&& index == acc.execute_icb.len() || acc.color_slots.len() == 0 ==> {
                &&& s.drew && s.list.len() > 0 ==> at is Resolving
                &&& s.drew && s.list.len() == 0 ==> at is Writing || at is Falling || at is Done
                &&& !s.drew ==> at is Done
            }
        }),
    decreases acc.execute_icb.len() - index,
{
    if index < acc.execute_icb.len() && acc.color_slots.len() == 0 {
        lemma_executes_next(acc, s, icb_failed(out), index + 1);
    }
}

/// Whether a stream has an execution at a place that can be asked for.
pub open spec fn executes_at(acc: AccumView, index: int) -> bool {
    index < acc.execute_icb.len() && acc.color_slots.len() > 0
}

/// A stream goes on in turn: one clear behind the other, then one execution
/// behind the other, then its draws, then its counts, and last, where no draw
/// was encoded, the clears that stand in for them.
#[verifier::spinoff_prover]
pub proof fn lemma_a_stream_goes_on_in_turn(
    acc: AccumView,
    s: FinishView,
    out: ExecResultView,
    event: FinishEvent,
)
    requires
        finishes(acc, s),
        answers(s.at, event),
        acc.execute_icb.len() <= usize::MAX,
        s.clears.len() <= usize::MAX,
        out.metal_draws_ok >= s.entry_ok,
    ensures
        ({
            let at = finish_advances(acc, s, out, event).state.at;
            match (s.at, event) {
                (FinishAt::Clearing { index }, _) => {
                    &&& index + 1 < s.clears.len() ==> at == (FinishAt::Clearing {
                        index: (index + 1) as usize,
                    })
                    &&& index + 1 == s.clears.len() && executes_at(acc, 0) ==> at == (
                    FinishAt::IcbRequesting { index: 0 })
                    &&& index + 1 == s.clears.len() ==> !(at is Clearing)
                },
                (FinishAt::Falling { index }, _) => {
                    &&& index + 1 < s.clears.len() ==> at == (FinishAt::Falling {
                        index: (index + 1) as usize,
                    })
                    &&& index + 1 == s.clears.len() ==> at is Done
                },
                (FinishAt::IcbRequesting { index }, FinishEvent::IcbRequested(requested)) => {
                    &&& requested && acc.unrepresentable is None
                        && acc.execute_icb[index as int].is_range ==> at == (
                    FinishAt::IcbEncoding { index })
                    &&& requested && acc.unrepresentable is None
                        && !acc.execute_icb[index as int].is_range ==> at == (
                    FinishAt::IcbRanging { index })
                    &&& (!requested || acc.unrepresentable is Some) && executes_at(acc, index + 1)
                        ==> at == (FinishAt::IcbRequesting { index: (index + 1) as usize })
                },
                (FinishAt::IcbRanging { index }, FinishEvent::RangeRead(range)) => {
                    &&& range is Some ==> at == (FinishAt::IcbEncoding { index })
                    &&& range is None ==> at == (FinishAt::IcbMarking { index })
                },
                (FinishAt::IcbEncoding { index }, FinishEvent::IcbEncoded(encoded)) => {
                    &&& !encoded ==> at == (FinishAt::IcbMarking { index })
                    &&& encoded && executes_at(acc, index + 1) ==> at == (FinishAt::IcbRequesting {
                        index: (index + 1) as usize,
                    })
                    &&& encoded && index + 1 == acc.execute_icb.len() && s.drew && s.list.len() > 0
                        ==> at is Resolving
                },
                (FinishAt::IcbMarking { index }, _) => {
                    &&& executes_at(acc, index + 1) ==> at == (FinishAt::IcbRequesting {
                        index: (index + 1) as usize,
                    })
                    &&& index + 1 == acc.execute_icb.len() && s.drew && s.list.len() > 0 ==> at
                        is Resolving
                },
                (FinishAt::Resolving, FinishEvent::Attached(first)) => {
                    &&& first is Some ==> at == (FinishAt::Drawing { index: 0 })
                    &&& first is None ==> at is ResolveMarking
                },
                (FinishAt::ResolveMarking, _) | (FinishAt::Landing, _) => {
                    &&& s.counts.len() > 0 ==> at is Writing
                    &&& s.counts.len() == 0 && out.metal_draws_ok == s.entry_ok && s.clears.len()
                        > 0 ==> at == (FinishAt::Falling { index: 0 })
                    &&& s.counts.len() == 0 && (out.metal_draws_ok != s.entry_ok
                        || s.clears.len() == 0) ==> at is Done
                },
                (FinishAt::Writing, _) => {
                    &&& out.metal_draws_ok == s.entry_ok && s.clears.len() > 0 ==> at == (
                    FinishAt::Falling { index: 0 })
                    &&& out.metal_draws_ok != s.entry_ok || s.clears.len() == 0 ==> at is Done
                },
                _ => true,
            }
        }),
{
    match (s.at, event) {
        (FinishAt::Clearing { index }, FinishEvent::ClearApplied(applied)) => {
            lemma_executes_next(acc, s, clear_counted(out, applied), 0);
        },
        (FinishAt::IcbRequesting { index }, _) => {
            lemma_executes_next(acc, s, icb_failed(out), index + 1);
        },
        (FinishAt::IcbEncoding { index }, _) => {
            let encoded = ExecResultView { render_icb_ok: counted(out.render_icb_ok, 1), ..out };
            lemma_executes_next(acc, s, encoded, index + 1);
        },
        (FinishAt::IcbMarking { index }, _) => {
            lemma_executes_next(acc, s, out, index + 1);
        },
        _ => {},
    }
}

/// A stream begins by remembering how far its submission had come, with nothing
/// drawn; only one that draws nothing begins with its clears.
pub proof fn lemma_a_stream_remembers_where_it_began(acc: AccumView, out: ExecResultView)
    requires
        acc.execute_icb.len() <= usize::MAX,
    ensures
        ({
            let s = finish_begins(acc, out).state;
            &&& s.entry_ok == out.metal_draws_ok
            &&& s.entry_fail == out.metal_draws_fail
            &&& s.entry_clears == out.clears_applied
            &&& s.template is None && s.chain is None && !s.resident && !s.saw_nometal
            &&& s.counts.len() == 0 && s.unanswered.len() == 0 && s.arming is None && !s.unified
            &&& !s.drew && s.clears.len() > 0 ==> s.at == (FinishAt::Clearing { index: 0 })
            &&& s.drew || s.clears.len() == 0 ==> !(s.at is Clearing)
        }),
{
    lemma_executes_keeps(acc, entered(acc, out), out, 0);
    lemma_executes_next(acc, entered(acc, out), out, 0);
}

proof fn lemma_executes_leaves_the_beginning(
    acc: AccumView,
    s: FinishView,
    out: ExecResultView,
    index: int,
)
    ensures
        ({
            let after = executes(acc, s, out, index).state;
            &&& after.entry_ok == s.entry_ok && after.entry_fail == s.entry_fail
            &&& after.entry_clears == s.entry_clears && after.drew == s.drew
            &&& after.clears == s.clears && after.list == s.list
        }),
{
    lemma_executes_keeps(acc, s, out, index);
}

/// No answer changes what a stream is to draw and to clear, nor how far its
/// submission had come when it began.
#[verifier::spinoff_prover]
pub proof fn lemma_answers_leave_the_beginning(
    acc: AccumView,
    s: FinishView,
    out: ExecResultView,
    event: FinishEvent,
)
    ensures
        ({
            let after = finish_advances(acc, s, out, event).state;
            &&& after.entry_ok == s.entry_ok && after.entry_fail == s.entry_fail
            &&& after.entry_clears == s.entry_clears && after.drew == s.drew
            &&& after.clears == s.clears && after.list == s.list
        }),
{
    match (s.at, event) {
        (FinishAt::Clearing { index }, FinishEvent::ClearApplied(applied)) => {
            lemma_executes_leaves_the_beginning(acc, s, clear_counted(out, applied), 0);
        },
        (FinishAt::IcbRequesting { index }, _) => {
            lemma_executes_leaves_the_beginning(acc, s, icb_failed(out), index + 1);
        },
        (FinishAt::IcbEncoding { index }, _) => {
            let encoded = ExecResultView { render_icb_ok: counted(out.render_icb_ok, 1), ..out };
            lemma_executes_leaves_the_beginning(acc, s, encoded, index + 1);
        },
        (FinishAt::IcbMarking { index }, _) => {
            lemma_executes_leaves_the_beginning(acc, s, out, index + 1);
        },
        _ => {},
    }
}

} // verus!
