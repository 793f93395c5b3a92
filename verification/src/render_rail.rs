//! The render rail: which group a record belongs to, and what each does to its
//! stream.

use vstd::prelude::*;

use crate::encoder_state::ONE_BITS;
use crate::exec_result::{ExecResult, ExecResultView};
use crate::fence_exec::{
    execute_fence, fence_step, Domain, FenceAction, FenceKey, FenceStatus, FenceTable,
};
use crate::refusals::{PassAspect, StreamDrawDrop, StreamRefusal};
use crate::render_records::{
    draws, handle_render_stream_state, is_render_bind, is_render_draw, is_render_pass_state,
    is_render_stream_state, pipeline_after, sets_stream_state, state_after, writes_argument_table,
    writes_pass, SettledRenderKind, StateOutcome, StateRecord,
};
use crate::residency::{
    names_view, note_residency_declaration, render_residency, ResidencyRecord, ResidencyReport,
};
use crate::stream_accum::{first_refusal, AccumView, RenderIcbExecute, StreamAccum};
use crate::stream_binds::{bind_step, handle_render_binds, BindOutcome, BindRecord};
use crate::stream_draws::{draw_step, handle_render_draw, DrawRecord, DrawReport};
use crate::stream_pass::{
    descriptor_step, handle_render_pass_state, pass_applied, with_colors, with_depth, with_layers,
    with_stencil, PassColor, PassDescriptor, PassOutcome, PassRecord, PassView,
};

verus! {

/// The class that the settled part of the protocol gives a stream record.
#[derive(Clone, Copy, Debug, PartialEq, Eq, Structural)]
pub enum OperationClass {
    Render,
    Compute,
    Blit,
    Event,
    Fence,
    Barrier,
    ResourceState,
    IndirectCommand,
    Query,
}

/// Where a settled record belongs.
#[derive(Clone, Copy, Debug, PartialEq, Eq, Structural)]
pub enum OperationHome {
    Stream(OperationClass),
    ObjectLifecycle,
}

/// What handles a record of the render rail.
#[derive(Clone, Copy, Debug, PartialEq, Eq, Structural)]
pub enum RenderDoor {
    Fence,
    Barrier,
    Residency,
    StreamState,
    Bind,
    PassState,
    Draw,
    Unsettled,
}

/// What handles a record of the render rail: its class first, where that has
/// an owner of its own, and then its group.
pub open spec fn render_door_of(
    home: Option<OperationHome>,
    residency: bool,
    kind: Option<SettledRenderKind>,
) -> RenderDoor {
    if home == Some(OperationHome::Stream(OperationClass::Fence)) {
        RenderDoor::Fence
    } else if home == Some(OperationHome::Stream(OperationClass::Barrier)) {
        RenderDoor::Barrier
    } else if home is None && residency {
        RenderDoor::Residency
    } else {
        match kind {
            None => RenderDoor::Unsettled,
            Some(kind) => if sets_stream_state(kind) {
                RenderDoor::StreamState
            } else if writes_argument_table(kind) {
                RenderDoor::Bind
            } else if writes_pass(kind) {
                RenderDoor::PassState
            } else {
                RenderDoor::Draw
            },
        }
    }
}

/// What handles a record of the render rail.
pub fn render_door(
    home: Option<OperationHome>,
    residency: bool,
    kind: Option<SettledRenderKind>,
) -> (door: RenderDoor)
    ensures
        door == render_door_of(home, residency, kind),
{
    match home {
        Some(OperationHome::Stream(OperationClass::Fence)) => {
            return RenderDoor::Fence;
        },
        Some(OperationHome::Stream(OperationClass::Barrier)) => {
            return RenderDoor::Barrier;
        },
        None => {
            if residency {
                return RenderDoor::Residency;
            }
        },
        _ => {},
    }
    if let Some(kind) = kind {
        if is_render_stream_state(kind) {
            return RenderDoor::StreamState;
        }
        if is_render_bind(kind) {
            return RenderDoor::Bind;
        }
        if is_render_pass_state(kind) {
            return RenderDoor::PassState;
        }
        if is_render_draw(kind) {
            return RenderDoor::Draw;
        }
    }
    RenderDoor::Unsettled
}

/// A draw record that has no class of its own always reaches the draws.
pub proof fn lemma_draws_reach_the_draws(kind: SettledRenderKind, home: Option<OperationHome>)
    requires
        draws(kind),
        home == Some(OperationHome::Stream(OperationClass::Render)),
    ensures
        render_door_of(home, false, Some(kind)) == RenderDoor::Draw,
{
}

/// The tile argument table that a record binds to.
#[derive(Clone, Copy, Debug, PartialEq, Eq, Structural)]
pub enum TileTable {
    Buffer,
    BufferOffset,
    Texture,
    Sampler,
    ThreadgroupMemory,
}

/// A property of a pass that stands beside its descriptor.
#[derive(Clone, Copy, Debug, PartialEq, Eq, Structural)]
pub enum PassProperty {
    DefaultRasterSampleCount(u64),
    RasterizationRateMap,
    SamplePositions,
    ImageblockSampleLength,
    ThreadgroupMemoryLength,
    TileSize,
}

/// A record of the render rail that is not settled.
#[derive(Clone, Copy, Debug, PartialEq, Eq)]
#[allow(inconsistent_fields)]
pub enum UnsettledRender {
    ExecuteCommands(RenderIcbExecute),
    /// Single-precision bits.
    SetTessellationFactorScale { bits: u32 },
    SetVertexAmplificationCount { count: u32, offsets_views: bool },
    SetVertexAmplificationMode { mode: u64, value: u32, offsets_views: bool },
    TileBind(TileTable),
    TileDispatch { threads: (u64, u64, u64) },
    SetStoreActionOptions { aspect: PassAspect, slot: u32, options: u64 },
    DrawPatches { indirect: bool },
    SetTessellationFactorBuffer,
    RenderPassProperty(PassProperty),
    TileDimensionsQuery { buffer_ref: u32, offset: u64 },
}

/// What is reported of an unsettled record.
#[derive(Debug, PartialEq, Eq)]
pub struct UnsettledReport {
    /// The names under which it is counted.
    pub routes: Vec<&'static str>,
    /// What the pass loses by it.
    pub drop: Option<StreamDrawDrop>,
    /// Whether it asks for work that nothing does.
    pub unimplemented: bool,
}

/// What contracts say of such a report.
#[verifier::ext_equal]
pub struct UnsettledView {
    pub routes: Seq<Seq<char>>,
    pub drop: Option<StreamDrawDrop>,
    pub unimplemented: bool,
}

impl View for UnsettledReport {
    type V = UnsettledView;

    open spec fn view(&self) -> UnsettledView {
        UnsettledView {
            routes: names_view(self.routes@),
            drop: self.drop,
            unimplemented: self.unimplemented,
        }
    }
}

/// A record that is not reported.
pub open spec fn unreported() -> UnsettledView {
    UnsettledView { routes: Seq::empty(), drop: None, unimplemented: false }
}

/// A record that is counted.
pub open spec fn counted_as(route: Seq<char>) -> UnsettledView {
    UnsettledView { routes: seq![route], drop: None, unimplemented: false }
}

/// A record that is counted, and asks for work that nothing does.
pub open spec fn undone(route: Seq<char>) -> UnsettledView {
    UnsettledView { routes: seq![route], drop: None, unimplemented: true }
}

/// A record that makes the stream's draws unrepresentable.
pub open spec fn dropping(drop: StreamDrawDrop, route: Seq<char>) -> UnsettledView {
    UnsettledView { routes: seq![route], drop: Some(drop), unimplemented: false }
}

/// What vertex amplification loses: views, and where they go.
pub open spec fn amplification(asked: bool, offsets_views: bool) -> UnsettledView {
    UnsettledView {
        routes: (if asked {
            seq!["render_vertex_amplification_dropped"@]
        } else {
            Seq::empty()
        }) + (if offsets_views {
            seq!["render_vertex_amplification_view_mapping_dropped"@]
        } else {
            Seq::empty()
        }),
        drop: None,
        unimplemented: false,
    }
}

/// What is reported of an unsettled record. One that asks for what happens
/// anyway is not.
pub open spec fn unsettled_report(record: UnsettledRender) -> UnsettledView {
    match record {
        UnsettledRender::ExecuteCommands(exec) => if exec.icb_ref == 0 {
            counted_as("render_icb_execute_unnamed"@)
        } else {
            unreported()
        },
        UnsettledRender::SetTessellationFactorScale { bits } => if bits != ONE_BITS {
            counted_as("render_tessellation_scale_dropped"@)
        } else {
            unreported()
        },
        UnsettledRender::SetVertexAmplificationCount { count, offsets_views } => amplification(
            count > 1,
            offsets_views,
        ),
        UnsettledRender::SetVertexAmplificationMode { mode, value, offsets_views } => {
            amplification(mode != 0 || value != 0, offsets_views)
        },
        UnsettledRender::TileBind(table) => match table {
            TileTable::Buffer | TileTable::BufferOffset => counted_as(
                "render_tile_buffer_bind_dropped"@,
            ),
            TileTable::Texture => counted_as("render_tile_texture_bind_dropped"@),
            TileTable::ThreadgroupMemory => counted_as(
                "render_tile_threadgroup_memory_dropped"@,
            ),
            TileTable::Sampler => counted_as("render_tile_sampler_bind_dropped"@),
        },
        UnsettledRender::TileDispatch { threads } => if threads.0 != 0 && threads.1 != 0
            && threads.2 != 0 {
            undone("render_tile_dispatch_dropped"@)
        } else {
            unreported()
        },
        UnsettledRender::SetStoreActionOptions { aspect, slot, options } => if options == 0 {
            unreported()
        } else {
            dropping(
                StreamDrawDrop::StoreActionOptionsUnsupported { aspect, slot, options },
                "render_store_action_options_dropped"@,
            )
        },
        UnsettledRender::DrawPatches { indirect } => if indirect {
            undone("render_draw_patches_indirect_dropped"@)
        } else {
            undone("render_draw_patches_dropped"@)
        },
        UnsettledRender::SetTessellationFactorBuffer => counted_as(
            "render_tessellation_factor_buffer_dropped"@,
        ),
        UnsettledRender::RenderPassProperty(property) => match property {
            PassProperty::DefaultRasterSampleCount(count) => if count == 1 {
                unreported()
            } else {
                dropping(
                    StreamDrawDrop::PassRasterSampleCountUnsupported { count },
                    "render_pass_raster_sample_count_dropped"@,
                )
            },
            PassProperty::RasterizationRateMap => undone("render_pass_rate_map_dropped"@),
            PassProperty::SamplePositions => undone("render_pass_sample_positions_dropped"@),
            PassProperty::ImageblockSampleLength => undone("render_pass_imageblock_dropped"@),
            PassProperty::ThreadgroupMemoryLength => undone(
                "render_pass_threadgroup_memory_dropped"@,
            ),
            PassProperty::TileSize => undone("render_pass_tile_size_dropped"@),
        },
        UnsettledRender::TileDimensionsQuery { .. } => counted_as(
            "render_tile_dimensions_unanswered"@,
        ),
    }
}

/// A stream after an unsettled record: an execution joins its list, and a loss
/// of the pass makes it unrepresentable.
pub open spec fn unsettled_step(acc: AccumView, record: UnsettledRender) -> AccumView {
    match unsettled_report(record).drop {
        Some(drop) => AccumView {
            unrepresentable: first_refusal(acc.unrepresentable, StreamRefusal::Pass(drop)),
            ..acc
        },
        None => match record {
            UnsettledRender::ExecuteCommands(exec) => if exec.icb_ref == 0 {
                acc
            } else {
                AccumView { execute_icb: acc.execute_icb.push(exec), ..acc }
            },
            _ => acc,
        },
    }
}

fn report_none() -> (report: UnsettledReport)
    ensures
        report@ == unreported(),
{
    let routes: Vec<&'static str> = Vec::new();
    assert(names_view(routes@) =~= Seq::empty());
    UnsettledReport { routes, drop: None, unimplemented: false }
}

fn report_one(route: &'static str, unimplemented: bool) -> (report: UnsettledReport)
    ensures
        report@ == (UnsettledView { routes: seq![route@], drop: None, unimplemented }),
{
    let mut routes: Vec<&'static str> = Vec::new();
    routes.push(route);
    assert(names_view(routes@) =~= seq![route@]);
    UnsettledReport { routes, drop: None, unimplemented }
}

fn report_drop(acc: &mut StreamAccum, drop: StreamDrawDrop, route: &'static str) -> (report:
    UnsettledReport)
    ensures
        report@ == dropping(drop, route@),
        final(acc)@ == (AccumView {
            unrepresentable: first_refusal(old(acc)@.unrepresentable, StreamRefusal::Pass(drop)),
            ..old(acc)@
        }),
{
    acc.refuse(StreamRefusal::Pass(drop));
    let mut routes: Vec<&'static str> = Vec::new();
    routes.push(route);
    assert(names_view(routes@) =~= seq![route@]);
    UnsettledReport { routes, drop: Some(drop), unimplemented: false }
}

fn report_amplification(asked: bool, offsets_views: bool) -> (report: UnsettledReport)
    ensures
        report@ == amplification(asked, offsets_views),
{
    let mut routes: Vec<&'static str> = Vec::new();
    if asked {
        routes.push("render_vertex_amplification_dropped");
    }
    if offsets_views {
        routes.push("render_vertex_amplification_view_mapping_dropped");
    }
    assert(names_view(routes@) =~= amplification(asked, offsets_views).routes);
    UnsettledReport { routes, drop: None, unimplemented: false }
}

/// Applies an unsettled record.
pub fn handle_unsettled_render(acc: &mut StreamAccum, record: &UnsettledRender) -> (report:
    UnsettledReport)
    ensures
        report@ == unsettled_report(*record),
        final(acc)@ == unsettled_step(old(acc)@, *record),
{
    match *record {
        UnsettledRender::ExecuteCommands(exec) => {
            if exec.icb_ref == 0 {
                return report_one("render_icb_execute_unnamed", false);
            }
            acc.execute_icb.push(exec);
            report_none()
        },
        UnsettledRender::SetTessellationFactorScale { bits } => {
            if bits != ONE_BITS {
                return report_one("render_tessellation_scale_dropped", false);
            }
            report_none()
        },
        UnsettledRender::SetVertexAmplificationCount { count, offsets_views } => {
            report_amplification(count > 1, offsets_views)
        },
        UnsettledRender::SetVertexAmplificationMode { mode, value, offsets_views } => {
            report_amplification(mode != 0 || value != 0, offsets_views)
        },
        UnsettledRender::TileBind(table) => match table {
            TileTable::Buffer | TileTable::BufferOffset => report_one(
                "render_tile_buffer_bind_dropped",
                false,
            ),
            TileTable::Texture => report_one("render_tile_texture_bind_dropped", false),
            TileTable::ThreadgroupMemory => report_one(
                "render_tile_threadgroup_memory_dropped",
                false,
            ),
            TileTable::Sampler => report_one("render_tile_sampler_bind_dropped", false),
        },
        UnsettledRender::TileDispatch { threads } => {
            if threads.0 != 0 && threads.1 != 0 && threads.2 != 0 {
                return report_one("render_tile_dispatch_dropped", true);
            }
            report_none()
        },
        UnsettledRender::SetStoreActionOptions { aspect, slot, options } => {
            if options == 0 {
                return report_none();
            }
            report_drop(
                acc,
                StreamDrawDrop::StoreActionOptionsUnsupported { aspect, slot, options },
                "render_store_action_options_dropped",
            )
        },
        UnsettledRender::DrawPatches { indirect } => {
            if indirect {
                report_one("render_draw_patches_indirect_dropped", true)
            } else {
                report_one("render_draw_patches_dropped", true)
            }
        },
        UnsettledRender::SetTessellationFactorBuffer => report_one(
            "render_tessellation_factor_buffer_dropped",
            false,
        ),
        UnsettledRender::RenderPassProperty(property) => match property {
            PassProperty::DefaultRasterSampleCount(count) => {
                if count == 1 {
                    return report_none();
                }
                report_drop(
                    acc,
                    StreamDrawDrop::PassRasterSampleCountUnsupported { count },
                    "render_pass_raster_sample_count_dropped",
                )
            },
            PassProperty::RasterizationRateMap => report_one("render_pass_rate_map_dropped", true),
            PassProperty::SamplePositions => report_one(
                "render_pass_sample_positions_dropped",
                true,
            ),
            PassProperty::ImageblockSampleLength => report_one(
                "render_pass_imageblock_dropped",
                true,
            ),
            PassProperty::ThreadgroupMemoryLength => report_one(
                "render_pass_threadgroup_memory_dropped",
                true,
            ),
            PassProperty::TileSize => report_one("render_pass_tile_size_dropped", true),
        },
        UnsettledRender::TileDimensionsQuery { .. } => report_one(
            "render_tile_dimensions_unanswered",
            false,
        ),
    }
}

/// A record of the render rail.
#[derive(Debug, PartialEq, Eq)]
pub enum RenderRecord {
    Fence { action: FenceAction, fence_ref: u32 },
    Barrier,
    Residency(ResidencyRecord),
    State(StateRecord),
    Bind(BindRecord),
    Pass(PassRecord),
    Draw(DrawRecord),
    Unsettled(UnsettledRender),
}

/// What became of a record of the render rail.
#[derive(Debug, PartialEq, Eq)]
pub enum RenderOutcome {
    Fence(FenceStatus),
    /// Nothing is ordered here that a pass does not order anyway.
    Barrier(&'static str),
    Residency(ResidencyReport),
    State(StateOutcome),
    Bind(BindOutcome),
    Pass(PassOutcome),
    Draw(DrawReport),
    Unsettled(UnsettledReport),
}

/// What a record of the render rail reads and writes.
pub struct RenderRailView {
    pub fences: Map<FenceKey, u64>,
    pub acc: AccumView,
    pub out: ExecResultView,
}

/// Whether a record of the render rail did what it asks for, and nothing else.
pub open spec fn render_applied(
    before: RenderRailView,
    after: RenderRailView,
    task_id: u32,
    record: RenderRecord,
    outcome: RenderOutcome,
) -> bool {
    match (record, outcome) {
        (RenderRecord::Fence { action, fence_ref }, RenderOutcome::Fence(status)) => {
            &&& (after.fences, status@) == fence_step(
                before.fences,
                task_id,
                Domain::RenderFence,
                fence_ref,
                action,
            )
            &&& after.acc == before.acc
            &&& after.out == before.out
        },
        (RenderRecord::Barrier, RenderOutcome::Barrier(route)) => {
            &&& route@ == "render_noop_barrier"@
            &&& after == before
        },
        (RenderRecord::Residency(declared), RenderOutcome::Residency(report)) => {
            &&& report@ == render_residency(declared)
            &&& after == before
        },
        (RenderRecord::State(state), RenderOutcome::State(applied)) => {
            &&& after.acc == (AccumView {
                pipeline_ref: pipeline_after(before.acc.pipeline_ref, state),
                state: state_after(before.acc.state, state).0,
                ..before.acc
            })
            &&& applied == state_after(before.acc.state, state).1
            &&& after.fences == before.fences
            &&& after.out == before.out
        },
        (RenderRecord::Bind(bind), RenderOutcome::Bind(bound)) => {
            &&& (after.acc, after.out, bound) == bind_step(before.acc, before.out, bind)
            &&& after.fences == before.fences
        },
        (RenderRecord::Pass(pass), RenderOutcome::Pass(passed)) => {
            &&& pass_applied(
                (before.acc, before.out),
                (after.acc, after.out),
                task_id,
                pass,
                passed,
            )
            &&& after.fences == before.fences
        },
        (RenderRecord::Draw(draw), RenderOutcome::Draw(report)) => {
            &&& (after.acc, after.out, report) == draw_step(before.acc, before.out, draw)
            &&& after.fences == before.fences
        },
        (RenderRecord::Unsettled(unsettled), RenderOutcome::Unsettled(report)) => {
            &&& report@ == unsettled_report(unsettled)
            &&& after.acc == unsettled_step(before.acc, unsettled)
            &&& after.fences == before.fences
            &&& after.out == before.out
        },
        _ => false,
    }
}

/// Whether the lists of a record are no longer than a record can be.
pub open spec fn record_fits(record: RenderRecord) -> bool {
    match record {
        RenderRecord::Bind(bind) => bind.count() <= u32::MAX,
        RenderRecord::Pass(PassRecord::WriteDescriptor(descriptor)) => descriptor.color@.len()
            <= u32::MAX,
        _ => true,
    }
}

/// Applies a record of the render rail. Fences, barriers and residency
/// declarations leave the stream as it is.
pub fn handle_render_record(
    fences: &mut FenceTable,
    acc: &mut StreamAccum,
    out: &mut ExecResult,
    task_id: u32,
    record: &RenderRecord,
) -> (outcome: RenderOutcome)
    requires
        record_fits(*record),
    ensures
        render_applied(
            RenderRailView { fences: old(fences)@, acc: old(acc)@, out: old(out)@ },
            RenderRailView { fences: final(fences)@, acc: final(acc)@, out: final(out)@ },
            task_id,
            *record,
            outcome,
        ),
{
    match record {
        RenderRecord::Fence { action, fence_ref } => RenderOutcome::Fence(
            execute_fence(fences, task_id, Domain::RenderFence, *fence_ref, *action),
        ),
        RenderRecord::Barrier => RenderOutcome::Barrier("render_noop_barrier"),
        RenderRecord::Residency(declared) => RenderOutcome::Residency(
            note_residency_declaration(*declared),
        ),
        RenderRecord::State(state) => RenderOutcome::State(handle_render_stream_state(acc, state)),
        RenderRecord::Bind(bind) => RenderOutcome::Bind(handle_render_binds(acc, out, bind)),
        RenderRecord::Pass(pass) => RenderOutcome::Pass(
            handle_render_pass_state(acc, out, task_id, pass),
        ),
        RenderRecord::Draw(draw) => RenderOutcome::Draw(handle_render_draw(acc, out, draw)),
        RenderRecord::Unsettled(unsettled) => RenderOutcome::Unsettled(
            handle_unsettled_render(acc, unsettled),
        ),
    }
}

proof fn lemma_colors_keep_draws(
    pass: PassView,
    task_id: u32,
    extent: (u64, u64),
    colors: Seq<PassColor>,
)
    ensures
        with_colors(pass, task_id, extent, colors).acc.draws == pass.acc.draws,
        pass.acc.unrepresentable is Some ==> with_colors(
            pass,
            task_id,
            extent,
            colors,
        ).acc.unrepresentable == pass.acc.unrepresentable,
    decreases colors.len(),
{
    if colors.len() > 0 {
        lemma_colors_keep_draws(pass, task_id, extent, colors.drop_last());
    }
}

proof fn lemma_passes_keep_draws(
    acc: AccumView,
    out: ExecResultView,
    task_id: u32,
    descriptor: PassDescriptor,
)
    ensures
        descriptor_step(acc, out, task_id, descriptor).acc.draws == acc.draws,
        acc.unrepresentable is Some ==> descriptor_step(
            acc,
            out,
            task_id,
            descriptor,
        ).acc.unrepresentable == acc.unrepresentable,
{
    let opened = PassView {
        acc: AccumView {
            visibility_buffer_ref: descriptor.visibility_result_buffer_ref,
            ..acc
        },
        out,
        drops: Seq::empty(),
        target: None,
    };
    let prepared = with_stencil(
        with_depth(
            with_layers(opened, descriptor.render_target_array_length),
            descriptor.depth,
        ),
        descriptor.stencil,
    );
    lemma_colors_keep_draws(
        prepared,
        task_id,
        (descriptor.render_target_width, descriptor.render_target_height),
        descriptor.color@,
    );
}

/// Whatever record follows, a stream keeps the draws that it has recorded.
pub proof fn lemma_recorded_draws_stand(
    before: RenderRailView,
    after: RenderRailView,
    task_id: u32,
    record: RenderRecord,
    outcome: RenderOutcome,
)
    requires
        render_applied(before, after, task_id, record, outcome),
    ensures
        before.acc.draws.len() <= after.acc.draws.len(),
        after.acc.draws.take(before.acc.draws.len() as int) == before.acc.draws,
{
    if let RenderRecord::Pass(PassRecord::WriteDescriptor(descriptor)) = record {
        lemma_passes_keep_draws(before.acc, before.out, task_id, descriptor);
    }
    assert(after.acc.draws.take(before.acc.draws.len() as int) =~= before.acc.draws);
}

/// Whatever record follows, a stream keeps the first thing that it could not
/// carry, and records no further draw.
pub proof fn lemma_a_refused_stream_stays_refused(
    before: RenderRailView,
    after: RenderRailView,
    task_id: u32,
    record: RenderRecord,
    outcome: RenderOutcome,
)
    requires
        render_applied(before, after, task_id, record, outcome),
        before.acc.unrepresentable is Some,
    ensures
        after.acc.unrepresentable == before.acc.unrepresentable,
        after.acc.draws == before.acc.draws,
{
    if let RenderRecord::Pass(PassRecord::WriteDescriptor(descriptor)) = record {
        lemma_passes_keep_draws(before.acc, before.out, task_id, descriptor);
    }
}

/// An unsettled record that names a buffer of commands is listed to be executed,
/// as it stands and behind those before it; one that asks for what a pass cannot
/// do refuses the stream, and any other leaves the stream as it is.
pub proof fn lemma_an_unsettled_record_is_kept_or_reported(acc: AccumView, record: UnsettledRender)
    ensures
        ({
            let after = unsettled_step(acc, record);
            let report = unsettled_report(record);
            &&& match record {
                UnsettledRender::ExecuteCommands(exec) => {
                    &&& exec.icb_ref != 0 ==> {
                        &&& after.execute_icb.len() == acc.execute_icb.len() + 1
                        &&& after.execute_icb.last() == exec
                        &&& after.execute_icb.drop_last() == acc.execute_icb
                        &&& report.routes.len() == 0
                    }
                    &&& exec.icb_ref == 0 ==> after.execute_icb == acc.execute_icb
                        && report.routes.len() == 1
                },
                _ => after.execute_icb == acc.execute_icb,
            }
            &&& match record {
                UnsettledRender::SetStoreActionOptions { aspect, slot, options } => {
                    &&& options != 0 ==> report.drop == Some(
                        StreamDrawDrop::StoreActionOptionsUnsupported { aspect, slot, options },
                    ) && after.unrepresentable is Some
                    &&& options == 0 ==> report.drop is None && after == acc
                },
                UnsettledRender::RenderPassProperty(
                    PassProperty::DefaultRasterSampleCount(count),
                ) => {
                    &&& count != 1 ==> report.drop == Some(
                        StreamDrawDrop::PassRasterSampleCountUnsupported { count },
                    ) && after.unrepresentable is Some
                    &&& count == 1 ==> report.drop is None && after == acc
                },
                _ => report.drop is None && after.unrepresentable == acc.unrepresentable,
            }
            &&& acc.unrepresentable is Some ==> after.unrepresentable == acc.unrepresentable
            &&& after == (AccumView {
                execute_icb: after.execute_icb,
                unrepresentable: after.unrepresentable,
                ..acc
            })
            &&& report.unimplemented <==> match record {
                UnsettledRender::TileDispatch { threads } => threads.0 != 0 && threads.1 != 0
                    && threads.2 != 0,
                UnsettledRender::DrawPatches { .. } => true,
                UnsettledRender::RenderPassProperty(property) => !(
                property is DefaultRasterSampleCount),
                _ => false,
            }
        }),
{
    let after = unsettled_step(acc, record);
    if let UnsettledRender::ExecuteCommands(exec) = record {
        if exec.icb_ref != 0 {
            assert(after.execute_icb.drop_last() =~= acc.execute_icb);
        }
    }
}

} // verus!
