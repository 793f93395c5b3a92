//! Decoded records, projected one by one into operations.

use vstd::prelude::*;

use crate::bindings::ReplacementRenderDrawResolutionError;
use crate::blit::{
    buffer_blit, image_blit, indirect_record, resolve_buffer_blit_record, resolve_image_blit_record,
    resolve_indirect_command_record, resolve_texture_blit, texture_refusal, BlitView,
    ReplacementBufferBlitResolutionError, ReplacementImageBlitResolutionError,
    ReplacementIndirectCommandResolutionError, ReplacementTextureBlitResolutionError, ResolvedBlit,
};
use crate::command::{
    BlitCommand, BlitKind, BlitOpcode, ComputeCommand, ComputeKind, CopyKind,
    DecodedReplacementRecord, RenderCommand, RenderKind, RenderOpcode,
};
use crate::compute::{
    control_flow_refusal, encoder_dispatch, resolve_compute_control_flow,
    resolve_direct_compute_dispatch, ComputeDispatchView,
    ReplacementComputeControlFlowResolutionError, ReplacementComputeDispatchResolutionError,
    ResolvedComputeDispatch,
};
use crate::compute_state::{
    compute_state_step, ComputeAccumView, ReplacementComputeStateResolutionError,
};
use crate::draw::{project_draw, resolve_render_draw, RenderDispatchView, ResolvedRenderDispatch};
use crate::encoder_state::{
    project_compute_state, project_render_state, render_state_step, resolve_compute_state_record,
    resolve_render_state_record, EncoderBoundary, ProjectionStateView, RenderEncoderView,
    ReplacementRecordProjectionState, ReplacementRenderStateResolutionError,
};
use crate::icb::{
    compute_icb_execution, render_icb_execution, resolve_compute_icb_execution,
    resolve_render_icb_execution, with_store, PopulatedComputeView, PopulatedRenderView,
    ReplacementComputeIcbExecutionError, ReplacementPopulatedComputeIcb,
    ReplacementPopulatedRenderIcb, ReplacementRenderIcbExecutionError,
};
use crate::session::{InfoResolutionError, ReplacementRuntimeSession, ResolvedIndirectCommand};
use crate::sync_records::{
    blit_fence, compute_barrier, compute_fence, compute_participation, event_operation,
    render_barrier, render_fence, render_participation, resolve_blit_fence_record,
    resolve_compute_barrier_record, resolve_compute_fence_record,
    resolve_compute_participation_record, resolve_event_record, resolve_render_barrier_record,
    resolve_render_fence_record, resolve_render_participation_record, BarrierOperation, BarrierView,
    EventOperation, FenceOperation, ParticipationOperation, ReplacementBarrierResolutionError,
    ReplacementEventResolutionError, ReplacementFenceResolutionError,
    ReplacementParticipationResolutionError,
};
use crate::tile::{
    resolve_render_tessellation, resolve_render_tile, tessellation_refusal, tile_outcome,
    ReplacementRenderTessellationResolutionError, ReplacementRenderTileResolutionError,
    TileRefusalView,
};

verus! {

/// One operation of a submission.
#[derive(Debug, PartialEq, Eq)]
pub enum ProjectedReplacementOperation {
    EncoderBoundary(EncoderBoundary),
    Event(EventOperation),
    Fence(FenceOperation),
    Participation(ParticipationOperation),
    Barrier(BarrierOperation),
    Render(ResolvedRenderDispatch),
    Compute(ResolvedComputeDispatch),
    Blit(Box<ResolvedBlit>),
    IndirectCommand(ResolvedIndirectCommand),
    ExecuteRenderCommands(ReplacementPopulatedRenderIcb),
    ExecuteComputeCommands(ReplacementPopulatedComputeIcb),
    InfoQuery(u64),
}

/// What contracts say of an operation.
#[verifier::ext_equal]
pub enum OperationView {
    EncoderBoundary(EncoderBoundary),
    Event(EventOperation),
    Fence(FenceOperation),
    Participation(ParticipationOperation),
    Barrier(BarrierView),
    Render(RenderDispatchView),
    Compute(ComputeDispatchView),
    Blit(BlitView),
    IndirectCommand(ResolvedIndirectCommand),
    ExecuteRenderCommands(PopulatedRenderView),
    ExecuteComputeCommands(PopulatedComputeView),
    InfoQuery(u64),
}

impl View for ProjectedReplacementOperation {
    type V = OperationView;

    open spec fn view(&self) -> OperationView {
        match *self {
            ProjectedReplacementOperation::EncoderBoundary(boundary) => {
                OperationView::EncoderBoundary(boundary)
            },
            ProjectedReplacementOperation::Event(event) => OperationView::Event(event),
            ProjectedReplacementOperation::Fence(fence) => OperationView::Fence(fence),
            ProjectedReplacementOperation::Participation(participation) => {
                OperationView::Participation(participation)
            },
            ProjectedReplacementOperation::Barrier(barrier) => OperationView::Barrier(barrier@),
            ProjectedReplacementOperation::Render(dispatch) => OperationView::Render(dispatch@),
            ProjectedReplacementOperation::Compute(dispatch) => OperationView::Compute(dispatch@),
            ProjectedReplacementOperation::Blit(blit) => OperationView::Blit((*blit)@),
            ProjectedReplacementOperation::IndirectCommand(command) => {
                OperationView::IndirectCommand(command)
            },
            ProjectedReplacementOperation::ExecuteRenderCommands(populated) => {
                OperationView::ExecuteRenderCommands(populated@)
            },
            ProjectedReplacementOperation::ExecuteComputeCommands(populated) => {
                OperationView::ExecuteComputeCommands(populated@)
            },
            ProjectedReplacementOperation::InfoQuery(query) => OperationView::InfoQuery(query),
        }
    }
}

/// Why a record does not project.
#[derive(Debug, PartialEq, Eq)]
#[allow(inconsistent_fields)]
pub enum ReplacementOperationProjectionError {
    Event(ReplacementEventResolutionError),
    Fence(ReplacementFenceResolutionError),
    Participation(ReplacementParticipationResolutionError),
    Barrier(ReplacementBarrierResolutionError),
    BufferBlit(ReplacementBufferBlitResolutionError),
    ImageBlit(ReplacementImageBlitResolutionError),
    TextureBlit(Box<ReplacementTextureBlitResolutionError>),
    IndirectCommand(ReplacementIndirectCommandResolutionError),
    ComputeState(ReplacementComputeStateResolutionError),
    RenderState(ReplacementRenderStateResolutionError),
    RenderDraw(ReplacementRenderDrawResolutionError),
    RenderTessellation(Box<ReplacementRenderTessellationResolutionError>),
    RenderTile(Box<ReplacementRenderTileResolutionError>),
    ComputeDispatch(ReplacementComputeDispatchResolutionError),
    ComputeControlFlow(Box<ReplacementComputeControlFlowResolutionError>),
    ComputeIcb(ReplacementComputeIcbExecutionError),
    RenderIcb(ReplacementRenderIcbExecutionError),
    RenderUnresolved { kind: RenderKind, opcode: RenderOpcode },
    ComputeUnresolved { kind: ComputeKind, opcode: u32 },
    BlitUnresolved { kind: BlitKind, opcode: BlitOpcode },
    Info(InfoResolutionError),
}

/// What contracts say of a projection refusal.
#[verifier::ext_equal]
#[allow(inconsistent_fields)]
pub enum ProjectionRefusalView {
    Event(ReplacementEventResolutionError),
    Fence(ReplacementFenceResolutionError),
    Participation(ReplacementParticipationResolutionError),
    Barrier(ReplacementBarrierResolutionError),
    BufferBlit(ReplacementBufferBlitResolutionError),
    ImageBlit(ReplacementImageBlitResolutionError),
    TextureBlit(ReplacementTextureBlitResolutionError),
    IndirectCommand(ReplacementIndirectCommandResolutionError),
    ComputeState(ReplacementComputeStateResolutionError),
    RenderState(ReplacementRenderStateResolutionError),
    RenderDraw(ReplacementRenderDrawResolutionError),
    RenderTessellation(ReplacementRenderTessellationResolutionError),
    RenderTile(TileRefusalView),
    ComputeDispatch(ReplacementComputeDispatchResolutionError),
    ComputeControlFlow(ReplacementComputeControlFlowResolutionError),
    ComputeIcb(ReplacementComputeIcbExecutionError),
    RenderIcb(ReplacementRenderIcbExecutionError),
    RenderUnresolved { kind: RenderKind, opcode: RenderOpcode },
    ComputeUnresolved { kind: ComputeKind, opcode: u32 },
    BlitUnresolved { kind: BlitKind, opcode: BlitOpcode },
    Info(InfoResolutionError),
}

impl View for ReplacementOperationProjectionError {
    type V = ProjectionRefusalView;

    open spec fn view(&self) -> ProjectionRefusalView {
        match *self {
            ReplacementOperationProjectionError::Event(e) => ProjectionRefusalView::Event(e),
            ReplacementOperationProjectionError::Fence(e) => ProjectionRefusalView::Fence(e),
            ReplacementOperationProjectionError::Participation(e) => {
                ProjectionRefusalView::Participation(e)
            },
            ReplacementOperationProjectionError::Barrier(e) => ProjectionRefusalView::Barrier(e),
            ReplacementOperationProjectionError::BufferBlit(e) => {
                ProjectionRefusalView::BufferBlit(e)
            },
            ReplacementOperationProjectionError::ImageBlit(e) => {
                ProjectionRefusalView::ImageBlit(e)
            },
            ReplacementOperationProjectionError::TextureBlit(e) => {
                ProjectionRefusalView::TextureBlit(*e)
            },
            ReplacementOperationProjectionError::IndirectCommand(e) => {
                ProjectionRefusalView::IndirectCommand(e)
            },
            ReplacementOperationProjectionError::ComputeState(e) => {
                ProjectionRefusalView::ComputeState(e)
            },
            ReplacementOperationProjectionError::RenderState(e) => {
                ProjectionRefusalView::RenderState(e)
            },
            ReplacementOperationProjectionError::RenderDraw(e) => {
                ProjectionRefusalView::RenderDraw(e)
            },
            ReplacementOperationProjectionError::RenderTessellation(e) => {
                ProjectionRefusalView::RenderTessellation(*e)
            },
            ReplacementOperationProjectionError::RenderTile(e) => {
                ProjectionRefusalView::RenderTile((*e)@)
            },
            ReplacementOperationProjectionError::ComputeDispatch(e) => {
                ProjectionRefusalView::ComputeDispatch(e)
            },
            ReplacementOperationProjectionError::ComputeControlFlow(e) => {
                ProjectionRefusalView::ComputeControlFlow(*e)
            },
            ReplacementOperationProjectionError::ComputeIcb(e) => {
                ProjectionRefusalView::ComputeIcb(e)
            },
            ReplacementOperationProjectionError::RenderIcb(e) => {
                ProjectionRefusalView::RenderIcb(e)
            },
            ReplacementOperationProjectionError::RenderUnresolved { kind, opcode } => {
                ProjectionRefusalView::RenderUnresolved { kind, opcode }
            },
            ReplacementOperationProjectionError::ComputeUnresolved { kind, opcode } => {
                ProjectionRefusalView::ComputeUnresolved { kind, opcode }
            },
            ReplacementOperationProjectionError::BlitUnresolved { kind, opcode } => {
                ProjectionRefusalView::BlitUnresolved { kind, opcode }
            },
            ReplacementOperationProjectionError::Info(e) => ProjectionRefusalView::Info(e),
        }
    }
}

/// The contents of a vector of operations.
pub open spec fn operations_view(operations: Seq<ProjectedReplacementOperation>) -> Seq<
    OperationView,
> {
    Seq::new(operations.len(), |i: int| operations[i]@)
}

/// Whether a render record only changes the encoder's state.
pub open spec fn is_render_state_kind(kind: RenderKind) -> bool {
    match kind {
        RenderKind::SetPipeline
        | RenderKind::SetBuffer
        | RenderKind::SetBufferOffset
        | RenderKind::SetTexture
        | RenderKind::SetSampler
        | RenderKind::SetViewport
        | RenderKind::SetScissor
        | RenderKind::SetBlendColor
        | RenderKind::SetCullMode
        | RenderKind::SetFrontFacing
        | RenderKind::SetDepthBias
        | RenderKind::SetDepthStencil
        | RenderKind::SetStencilReference
        | RenderKind::SetTessellationFactorBuffer
        | RenderKind::SetRasterState
        | RenderKind::SetFloatState
        | RenderKind::SetVertexAmplification
        | RenderKind::SetStoreAction
        | RenderKind::SetStoreActionOptions
        | RenderKind::SetVisibilityResultMode
        | RenderKind::RenderPassProperty
        | RenderKind::RenderPass => true,
        _ => false,
    }
}

/// Whether a compute record only changes the encoder's state.
pub open spec fn is_compute_state_kind(kind: ComputeKind) -> bool {
    match kind {
        ComputeKind::Pipeline
        | ComputeKind::BufferBind
        | ComputeKind::BufferOffset
        | ComputeKind::TextureBind
        | ComputeKind::SamplerBind
        | ComputeKind::SamplerLod
        | ComputeKind::StageInRegion
        | ComputeKind::StageInRegionIndirect
        | ComputeKind::ThreadgroupMemory
        | ComputeKind::ImageblockDimensions
        | ComputeKind::BufferBindAttributeStride
        | ComputeKind::BufferOffsetAttributeStride
        | ComputeKind::DispatchType
        | ComputeKind::CompressedTextureFlush => true,
        _ => false,
    }
}

/// What a render record comes to.
pub open spec fn render_step(
    session: ReplacementRuntimeSession,
    s: ProjectionStateView,
    c: RenderCommand,
) -> Result<(ProjectionStateView, Seq<OperationView>), ProjectionRefusalView> {
    if is_render_state_kind(c.kind) {
        match project_render_state(s, c) {
            Err(error) => Err(ProjectionRefusalView::RenderState(error)),
            Ok(next) => Ok((next, Seq::empty())),
        }
    } else {
        match c.kind {
            RenderKind::Fence => match render_fence(session, c) {
                Err(error) => Err(ProjectionRefusalView::Fence(error)),
                Ok(None) => Ok((s, Seq::empty())),
                Ok(Some(fence)) => Ok((s, seq![OperationView::Fence(fence)])),
            },
            RenderKind::Draw | RenderKind::DrawIndirect => match project_draw(session, s, c) {
                Err(error) => Err(ProjectionRefusalView::RenderDraw(error)),
                Ok(None) => Ok((s, Seq::empty())),
                Ok(Some(dispatch)) => Ok((s, seq![OperationView::Render(dispatch)])),
            },
            RenderKind::DrawPatches => Err(
                ProjectionRefusalView::RenderTessellation(tessellation_refusal(s, c)),
            ),
            RenderKind::TileBind
            | RenderKind::TileDispatch
            | RenderKind::TileDimensionsQuery => match tile_outcome(s, c) {
                Err(error) => Err(ProjectionRefusalView::RenderTile(error)),
                Ok(_) => Ok((s, Seq::empty())),
            },
            RenderKind::ExecuteCommands => match render_icb_execution(session, s, c) {
                Err(error) => Err(ProjectionRefusalView::RenderIcb(error)),
                Ok(populated) => Ok(
                    (with_store(s), seq![OperationView::ExecuteRenderCommands(populated)]),
                ),
            },
            RenderKind::UseResource | RenderKind::UseHeap => match render_participation(
                session,
                c,
            ) {
                Err(error) => Err(ProjectionRefusalView::Participation(error)),
                Ok(operations) => Ok(
                    (
                        s,
                        Seq::new(
                            operations.len(),
                            |i: int| OperationView::Participation(operations[i]),
                        ),
                    ),
                ),
            },
            RenderKind::BarrierResources
            | RenderKind::BarrierScope
            | RenderKind::TextureBarrier => match render_barrier(session, c) {
                Err(error) => Err(ProjectionRefusalView::Barrier(error)),
                Ok(None) => Ok((s, Seq::empty())),
                Ok(Some(barrier)) => Ok((s, seq![OperationView::Barrier(barrier)])),
            },
            kind => Err(ProjectionRefusalView::RenderUnresolved { kind, opcode: c.opcode }),
        }
    }
}

/// What a compute record comes to.
pub open spec fn compute_step(
    session: ReplacementRuntimeSession,
    s: ProjectionStateView,
    c: ComputeCommand,
) -> Result<(ProjectionStateView, Seq<OperationView>), ProjectionRefusalView> {
    if is_compute_state_kind(c.kind) {
        match project_compute_state(s, c) {
            Err(error) => Err(ProjectionRefusalView::ComputeState(error)),
            Ok(next) => Ok((next, Seq::empty())),
        }
    } else {
        match c.kind {
            ComputeKind::DispatchThreadgroups
            | ComputeKind::DispatchThreads
            | ComputeKind::DispatchThreadgroupsIndirect
            | ComputeKind::DispatchThreadsIndirect => match s.compute {
                None => Err(
                    ProjectionRefusalView::ComputeState(
                        ReplacementComputeStateResolutionError::OutsideEncoder,
                    ),
                ),
                Some(accum) => match encoder_dispatch(session, accum, c) {
                    Err(error) => Err(ProjectionRefusalView::ComputeDispatch(error)),
                    Ok(dispatch) => Ok((s, seq![OperationView::Compute(dispatch)])),
                },
            },
            ComputeKind::ExecuteCommandsInBuffer
            | ComputeKind::ExecuteCommandsInBufferIndirect => match compute_icb_execution(
                session,
                s,
                c,
            ) {
                Err(error) => Err(ProjectionRefusalView::ComputeIcb(error)),
                Ok(populated) => Ok(
                    (with_store(s), seq![OperationView::ExecuteComputeCommands(populated)]),
                ),
            },
            ComputeKind::UpdateFence | ComputeKind::WaitFence => match compute_fence(session, c) {
                Err(error) => Err(ProjectionRefusalView::Fence(error)),
                Ok(None) => Ok((s, Seq::empty())),
                Ok(Some(fence)) => Ok((s, seq![OperationView::Fence(fence)])),
            },
            ComputeKind::UseResources | ComputeKind::UseHeaps => match compute_participation(
                session,
                c,
            ) {
                Err(error) => Err(ProjectionRefusalView::Participation(error)),
                Ok(operations) => Ok(
                    (
                        s,
                        Seq::new(
                            operations.len(),
                            |i: int| OperationView::Participation(operations[i]),
                        ),
                    ),
                ),
            },
            ComputeKind::BarrierResources | ComputeKind::BarrierScope => match compute_barrier(
                session,
                c,
            ) {
                Err(error) => Err(ProjectionRefusalView::Barrier(error)),
                Ok(None) => Ok((s, Seq::empty())),
                Ok(Some(barrier)) => Ok((s, seq![OperationView::Barrier(barrier)])),
            },
            ComputeKind::ControlStartDoWhile
            | ComputeKind::ControlEndDoWhile
            | ComputeKind::ControlStartWhile
            | ComputeKind::ControlEndWhile
            | ComputeKind::ControlStartIf
            | ComputeKind::ControlStartElse
            | ComputeKind::ControlEndIf => Err(
                ProjectionRefusalView::ComputeControlFlow(
                    control_flow_refusal(session, s.compute is Some, c),
                ),
            ),
            kind => Err(ProjectionRefusalView::ComputeUnresolved { kind, opcode: c.opcode }),
        }
    }
}

/// Whether a blit record is a hint that asks for nothing.
pub open spec fn is_blit_hint(c: BlitCommand) -> bool {
    match c.kind {
        BlitKind::Resource => c.opcode is OptimizeForCpu || c.opcode is OptimizeForGpu,
        BlitKind::Image => c.opcode is OptimizeForCpuSliceLevel
            || c.opcode is OptimizeForGpuSliceLevel,
        BlitKind::InvalidateCompressedTexture => true,
        _ => false,
    }
}

/// What a blit record comes to.
pub open spec fn blit_step(session: ReplacementRuntimeSession, c: BlitCommand) -> Result<
    Seq<OperationView>,
    ProjectionRefusalView,
> {
    if is_blit_hint(c) {
        Ok(Seq::empty())
    } else if c.kind is FillBuffer || c.kind is FillBufferPattern4 || (c.kind is Copy
        && c.copy_kind is BufferToBuffer) {
        match buffer_blit(session, c) {
            Err(error) => Err(ProjectionRefusalView::BufferBlit(error)),
            Ok(None) => Ok(Seq::empty()),
            Ok(Some(blit)) => Ok(seq![OperationView::Blit(blit)]),
        }
    } else {
        match c.kind {
            BlitKind::Fence => match blit_fence(session, c) {
                Err(error) => Err(ProjectionRefusalView::Fence(error)),
                Ok(None) => Ok(Seq::empty()),
                Ok(Some(fence)) => Ok(seq![OperationView::Fence(fence)]),
            },
            BlitKind::Copy => match image_blit(session, c) {
                Err(error) => Err(ProjectionRefusalView::ImageBlit(error)),
                Ok(None) => Ok(Seq::empty()),
                Ok(Some(blit)) => Ok(seq![OperationView::Blit(blit)]),
            },
            BlitKind::IcbRange | BlitKind::IcbCopy => match indirect_record(session, c) {
                Err(error) => Err(ProjectionRefusalView::IndirectCommand(error)),
                Ok(command) => Ok(seq![OperationView::IndirectCommand(command)]),
            },
            BlitKind::Resource | BlitKind::Image | BlitKind::FillTexture => Err(
                ProjectionRefusalView::TextureBlit(texture_refusal(c)),
            ),
            kind => Err(ProjectionRefusalView::BlitUnresolved { kind, opcode: c.opcode }),
        }
    }
}

/// What a record comes to under a projection's state.
#[verifier::opaque]
pub open spec fn record_step(
    session: ReplacementRuntimeSession,
    s: ProjectionStateView,
    record: DecodedReplacementRecord,
) -> Result<(ProjectionStateView, Seq<OperationView>), ProjectionRefusalView> {
    match record {
        DecodedReplacementRecord::Event(command) => match event_operation(session, command) {
            Err(error) => Err(ProjectionRefusalView::Event(error)),
            Ok(event) => Ok((s, seq![OperationView::Event(event)])),
        },
        DecodedReplacementRecord::Render(command) => render_step(session, s, *command),
        DecodedReplacementRecord::Compute(command) => compute_step(session, s, *command),
        DecodedReplacementRecord::Blit(command) => match blit_step(session, *command) {
            Err(error) => Err(error),
            Ok(operations) => Ok((s, operations)),
        },
        DecodedReplacementRecord::Info(operation) => match session.info(operation) {
            Err(error) => Err(ProjectionRefusalView::Info(error)),
            Ok(query) => Ok((s, seq![OperationView::InfoQuery(query)])),
        },
    }
}

fn one(operation: ProjectedReplacementOperation) -> (operations: Vec<ProjectedReplacementOperation>)
    ensures
        operations_view(operations@) == seq![operation@],
{
    let ghost added = operation@;
    let mut operations: Vec<ProjectedReplacementOperation> = Vec::new();
    operations.push(operation);
    assert(operations_view(operations@) =~= seq![added]);
    operations
}

fn none() -> (operations: Vec<ProjectedReplacementOperation>)
    ensures
        operations_view(operations@) == Seq::<OperationView>::empty(),
{
    let operations: Vec<ProjectedReplacementOperation> = Vec::new();
    assert(operations_view(operations@) =~= Seq::<OperationView>::empty());
    operations
}

fn participations(from: Vec<ParticipationOperation>) -> (operations: Vec<
    ProjectedReplacementOperation,
>)
    ensures
        operations_view(operations@) == Seq::new(
            from@.len(),
            |i: int| OperationView::Participation(from@[i]),
        ),
{
    let mut operations: Vec<ProjectedReplacementOperation> = Vec::new();
    let mut i: usize = 0;
    while i < from.len()
        invariant
            i <= from@.len(),
            operations@.len() == i,
            forall|j: int|
                0 <= j < i ==> (#[trigger] operations@[j])@ == OperationView::Participation(
                    from@[j],
                ),
        decreases from.len() - i,
    {
        operations.push(ProjectedReplacementOperation::Participation(from[i]));
        i += 1;
    }
    assert(operations_view(operations@) =~= Seq::new(
        from@.len(),
        |i: int| OperationView::Participation(from@[i]),
    ));
    operations
}

/// The view of what a record without state comes to.
pub open spec fn operations_result(
    result: Result<Vec<ProjectedReplacementOperation>, ReplacementOperationProjectionError>,
) -> Result<Seq<OperationView>, ProjectionRefusalView> {
    match result {
        Ok(operations) => Ok(operations_view(operations@)),
        Err(error) => Err(error@),
    }
}

/// Whether a projection did what a step says: the operations it adds and the
/// state after it, or its refusal and no change.
pub open spec fn step_taken(
    result: Result<Vec<ProjectedReplacementOperation>, ReplacementOperationProjectionError>,
    before: ProjectionStateView,
    after: ProjectionStateView,
    step: Result<(ProjectionStateView, Seq<OperationView>), ProjectionRefusalView>,
) -> bool {
    match result {
        Ok(operations) => step == Ok::<
            (ProjectionStateView, Seq<OperationView>),
            ProjectionRefusalView,
        >((after, operations_view(operations@))),
        Err(error) => {
            &&& step == Err::<(ProjectionStateView, Seq<OperationView>), ProjectionRefusalView>(
                error@,
            )
            &&& after == before
        },
    }
}

fn project_render_record(
    session: &ReplacementRuntimeSession,
    state: &mut ReplacementRecordProjectionState,
    command: &RenderCommand,
) -> (result: Result<Vec<ProjectedReplacementOperation>, ReplacementOperationProjectionError>)
    requires
        old(state)@.wf(),
    ensures
        final(state)@.wf(),
        step_taken(
            result,
            old(state)@,
            final(state)@,
            render_step(*session, old(state)@, *command),
        ),
{
    match command.kind {
        RenderKind::SetPipeline
        | RenderKind::SetBuffer
        | RenderKind::SetBufferOffset
        | RenderKind::SetTexture
        | RenderKind::SetSampler
        | RenderKind::SetViewport
        | RenderKind::SetScissor
        | RenderKind::SetBlendColor
        | RenderKind::SetCullMode
        | RenderKind::SetFrontFacing
        | RenderKind::SetDepthBias
        | RenderKind::SetDepthStencil
        | RenderKind::SetStencilReference
        | RenderKind::SetTessellationFactorBuffer
        | RenderKind::SetRasterState
        | RenderKind::SetFloatState
        | RenderKind::SetVertexAmplification
        | RenderKind::SetStoreAction
        | RenderKind::SetStoreActionOptions
        | RenderKind::SetVisibilityResultMode
        | RenderKind::RenderPassProperty
        | RenderKind::RenderPass => match resolve_render_state_record(state, command) {
            Ok(_) => Ok(none()),
            Err(error) => Err(ReplacementOperationProjectionError::RenderState(error)),
        },
        RenderKind::Fence => match resolve_render_fence_record(session, command) {
            Ok(None) => Ok(none()),
            Ok(Some(fence)) => Ok(one(ProjectedReplacementOperation::Fence(fence))),
            Err(error) => Err(ReplacementOperationProjectionError::Fence(error)),
        },
        RenderKind::Draw | RenderKind::DrawIndirect => {
            match resolve_render_draw(session, state, command) {
                Ok(None) => Ok(none()),
                Ok(Some(dispatch)) => Ok(one(ProjectedReplacementOperation::Render(dispatch))),
                Err(error) => Err(ReplacementOperationProjectionError::RenderDraw(error)),
            }
        },
        RenderKind::DrawPatches => Err(
            ReplacementOperationProjectionError::RenderTessellation(
                Box::new(resolve_render_tessellation(state, command)),
            ),
        ),
        RenderKind::TileBind
        | RenderKind::TileDispatch
        | RenderKind::TileDimensionsQuery => match resolve_render_tile(state, command) {
            Ok(_) => Ok(none()),
            Err(error) => Err(
                ReplacementOperationProjectionError::RenderTile(Box::new(error)),
            ),
        },
        RenderKind::ExecuteCommands => {
            match resolve_render_icb_execution(session, state, command) {
                Ok(populated) => Ok(
                    one(ProjectedReplacementOperation::ExecuteRenderCommands(populated)),
                ),
                Err(error) => Err(ReplacementOperationProjectionError::RenderIcb(error)),
            }
        },
        RenderKind::UseResource | RenderKind::UseHeap => {
            match resolve_render_participation_record(session, command) {
                Ok(operations) => Ok(participations(operations)),
                Err(error) => Err(ReplacementOperationProjectionError::Participation(error)),
            }
        },
        RenderKind::BarrierResources
        | RenderKind::BarrierScope
        | RenderKind::TextureBarrier => match resolve_render_barrier_record(session, command) {
            Ok(None) => Ok(none()),
            Ok(Some(barrier)) => Ok(one(ProjectedReplacementOperation::Barrier(barrier))),
            Err(error) => Err(ReplacementOperationProjectionError::Barrier(error)),
        },
        kind => Err(
            ReplacementOperationProjectionError::RenderUnresolved {
                kind,
                opcode: command.opcode,
            },
        ),
    }
}

fn project_compute_record(
    session: &ReplacementRuntimeSession,
    state: &mut ReplacementRecordProjectionState,
    command: &ComputeCommand,
) -> (result: Result<Vec<ProjectedReplacementOperation>, ReplacementOperationProjectionError>)
    requires
        old(state)@.wf(),
    ensures
        final(state)@.wf(),
        step_taken(
            result,
            old(state)@,
            final(state)@,
            compute_step(*session, old(state)@, *command),
        ),
{
    match command.kind {
        ComputeKind::Pipeline
        | ComputeKind::BufferBind
        | ComputeKind::BufferOffset
        | ComputeKind::TextureBind
        | ComputeKind::SamplerBind
        | ComputeKind::SamplerLod
        | ComputeKind::StageInRegion
        | ComputeKind::StageInRegionIndirect
        | ComputeKind::ThreadgroupMemory
        | ComputeKind::ImageblockDimensions
        | ComputeKind::BufferBindAttributeStride
        | ComputeKind::BufferOffsetAttributeStride
        | ComputeKind::DispatchType
        | ComputeKind::CompressedTextureFlush => {
            match resolve_compute_state_record(state, command) {
                Ok(_) => Ok(none()),
                Err(error) => Err(ReplacementOperationProjectionError::ComputeState(error)),
            }
        },
        ComputeKind::DispatchThreadgroups
        | ComputeKind::DispatchThreads
        | ComputeKind::DispatchThreadgroupsIndirect
        | ComputeKind::DispatchThreadsIndirect => match &state.compute {
            None => Err(
                ReplacementOperationProjectionError::ComputeState(
                    ReplacementComputeStateResolutionError::OutsideEncoder,
                ),
            ),
            Some(accum) => match resolve_direct_compute_dispatch(session, accum, command) {
                Ok(dispatch) => Ok(one(ProjectedReplacementOperation::Compute(dispatch))),
                Err(error) => Err(ReplacementOperationProjectionError::ComputeDispatch(error)),
            },
        },
        ComputeKind::ExecuteCommandsInBuffer | ComputeKind::ExecuteCommandsInBufferIndirect => {
            match resolve_compute_icb_execution(session, state, command) {
                Ok(populated) => Ok(
                    one(ProjectedReplacementOperation::ExecuteComputeCommands(populated)),
                ),
                Err(error) => Err(ReplacementOperationProjectionError::ComputeIcb(error)),
            }
        },
        ComputeKind::UpdateFence | ComputeKind::WaitFence => {
            match resolve_compute_fence_record(session, command) {
                Ok(None) => Ok(none()),
                Ok(Some(fence)) => Ok(one(ProjectedReplacementOperation::Fence(fence))),
                Err(error) => Err(ReplacementOperationProjectionError::Fence(error)),
            }
        },
        ComputeKind::UseResources | ComputeKind::UseHeaps => {
            match resolve_compute_participation_record(session, command) {
                Ok(operations) => Ok(participations(operations)),
                Err(error) => Err(ReplacementOperationProjectionError::Participation(error)),
            }
        },
        ComputeKind::BarrierResources | ComputeKind::BarrierScope => {
            match resolve_compute_barrier_record(session, command) {
                Ok(None) => Ok(none()),
                Ok(Some(barrier)) => Ok(one(ProjectedReplacementOperation::Barrier(barrier))),
                Err(error) => Err(ReplacementOperationProjectionError::Barrier(error)),
            }
        },
        ComputeKind::ControlStartDoWhile
        | ComputeKind::ControlEndDoWhile
        | ComputeKind::ControlStartWhile
        | ComputeKind::ControlEndWhile
        | ComputeKind::ControlStartIf
        | ComputeKind::ControlStartElse
        | ComputeKind::ControlEndIf => Err(
            ReplacementOperationProjectionError::ComputeControlFlow(
                Box::new(resolve_compute_control_flow(session, state, command)),
            ),
        ),
        kind => Err(
            ReplacementOperationProjectionError::ComputeUnresolved {
                kind,
                opcode: command.opcode,
            },
        ),
    }
}

fn project_blit_record(session: &ReplacementRuntimeSession, command: &BlitCommand) -> (result:
    Result<Vec<ProjectedReplacementOperation>, ReplacementOperationProjectionError>)
    ensures
        operations_result(result) == blit_step(*session, *command),
{
    match command.kind {
        BlitKind::Fence => match resolve_blit_fence_record(session, command) {
            Ok(None) => Ok(none()),
            Ok(Some(fence)) => Ok(one(ProjectedReplacementOperation::Fence(fence))),
            Err(error) => Err(ReplacementOperationProjectionError::Fence(error)),
        },
        BlitKind::FillBuffer | BlitKind::FillBufferPattern4 => {
            match resolve_buffer_blit_record(session, command) {
                Ok(None) => Ok(none()),
                Ok(Some(blit)) => Ok(one(ProjectedReplacementOperation::Blit(Box::new(blit)))),
                Err(error) => Err(ReplacementOperationProjectionError::BufferBlit(error)),
            }
        },
        BlitKind::Copy => {
            if command.copy_kind == CopyKind::BufferToBuffer {
                match resolve_buffer_blit_record(session, command) {
                    Ok(None) => Ok(none()),
                    Ok(Some(blit)) => Ok(one(ProjectedReplacementOperation::Blit(Box::new(blit)))),
                    Err(error) => Err(ReplacementOperationProjectionError::BufferBlit(error)),
                }
            } else {
                match resolve_image_blit_record(session, command) {
                    Ok(None) => Ok(none()),
                    Ok(Some(blit)) => Ok(one(ProjectedReplacementOperation::Blit(Box::new(blit)))),
                    Err(error) => Err(ReplacementOperationProjectionError::ImageBlit(error)),
                }
            }
        },
        BlitKind::IcbRange | BlitKind::IcbCopy => {
            match resolve_indirect_command_record(session, command) {
                Ok(resolved) => Ok(one(ProjectedReplacementOperation::IndirectCommand(resolved))),
                Err(error) => Err(ReplacementOperationProjectionError::IndirectCommand(error)),
            }
        },
        BlitKind::Resource if command.opcode == BlitOpcode::OptimizeForCpu || command.opcode
            == BlitOpcode::OptimizeForGpu => Ok(none()),
        BlitKind::Image if command.opcode == BlitOpcode::OptimizeForCpuSliceLevel
            || command.opcode == BlitOpcode::OptimizeForGpuSliceLevel => Ok(none()),
        BlitKind::InvalidateCompressedTexture => Ok(none()),
        BlitKind::Resource | BlitKind::Image | BlitKind::FillTexture => Err(
            ReplacementOperationProjectionError::TextureBlit(
                Box::new(resolve_texture_blit(command)),
            ),
        ),
        kind => Err(
            ReplacementOperationProjectionError::BlitUnresolved { kind, opcode: command.opcode },
        ),
    }
}

/// Projects a record: applies it to the open encoder's state, or resolves the
/// operations it stands for. A refused record changes nothing.
pub fn project_replacement_record(
    session: &ReplacementRuntimeSession,
    state: &mut ReplacementRecordProjectionState,
    record: &DecodedReplacementRecord,
) -> (result: Result<Vec<ProjectedReplacementOperation>, ReplacementOperationProjectionError>)
    requires
        old(state)@.wf(),
    ensures
        final(state)@.wf(),
        step_taken(
            result,
            old(state)@,
            final(state)@,
            record_step(*session, old(state)@, *record),
        ),
{
    proof {
        reveal(record_step);
    }
    match record {
        DecodedReplacementRecord::Event(command) => match resolve_event_record(session, command) {
            Ok(event) => Ok(one(ProjectedReplacementOperation::Event(event))),
            Err(error) => Err(ReplacementOperationProjectionError::Event(error)),
        },
        DecodedReplacementRecord::Render(command) => project_render_record(
            session,
            state,
            command,
        ),
        DecodedReplacementRecord::Compute(command) => project_compute_record(
            session,
            state,
            command,
        ),
        DecodedReplacementRecord::Blit(command) => project_blit_record(session, command),
        DecodedReplacementRecord::Info(operation) => {
            match session.resolve_info_operation(*operation) {
                Ok(query) => Ok(one(ProjectedReplacementOperation::InfoQuery(query))),
                Err(error) => Err(ReplacementOperationProjectionError::Info(error)),
            }
        },
    }
}

/// Whether an operation executes indirect commands.
pub open spec fn executes_commands(operation: OperationView) -> bool {
    operation is ExecuteRenderCommands || operation is ExecuteComputeCommands
}

/// How many operations execute indirect commands.
pub open spec fn executions(operations: Seq<OperationView>) -> nat
    decreases operations.len(),
{
    if operations.len() == 0 {
        0
    } else {
        executions(operations.drop_last()) + if executes_commands(operations.last()) {
            1nat
        } else {
            0nat
        }
    }
}

proof fn lemma_without_executions(operations: Seq<OperationView>)
    requires
        forall|i: int|
            0 <= i < operations.len() ==> !executes_commands(#[trigger] operations[i]),
    ensures
        executions(operations) == 0,
    decreases operations.len(),
{
    if operations.len() > 0 {
        lemma_without_executions(operations.drop_last());
    }
}

/// What a record executes has been stored, one batch for each execution, and
/// nothing else has.
pub proof fn lemma_executions_are_stored(
    session: ReplacementRuntimeSession,
    s: ProjectionStateView,
    record: DecodedReplacementRecord,
)
    requires
        s.stores < usize::MAX,
    ensures
        match record_step(session, s, record) {
            Ok((next, operations)) => next.stores == s.stores + executions(operations),
            Err(_) => true,
        },
{
    reveal(record_step);
    reveal_with_fuel(executions, 2);
    if let Ok((next, operations)) = record_step(session, s, record) {
        if operations.len() != 1 {
            lemma_without_executions(operations);
        }
    }
}

/// A render record comes to what it resolves to: a state record to a changed
/// encoder and no operation, any other to its own operation and an unchanged
/// encoder. None that resolves to an operation is lost.
#[verifier::spinoff_prover]
pub proof fn lemma_a_render_record_comes_to_its_operation(
    session: ReplacementRuntimeSession,
    s: ProjectionStateView,
    c: RenderCommand,
)
    ensures
        match render_step(session, s, c) {
            Ok((next, operations)) => {
                &&& next.compute == s.compute
                &&& match c.kind {
                    RenderKind::Draw | RenderKind::DrawIndirect => {
                        &&& next == s
                        &&& project_draw(session, s, c) matches Ok(drawn)
                        &&& drawn is None ==> operations.len() == 0
                        &&& drawn is Some ==> operations.len() == 1 && operations[0]
                            == OperationView::Render(drawn->0)
                    },
                    RenderKind::Fence => {
                        &&& next == s
                        &&& render_fence(session, c) matches Ok(fence)
                        &&& fence is None ==> operations.len() == 0
                        &&& fence is Some ==> operations.len() == 1 && operations[0]
                            == OperationView::Fence(fence->0)
                    },
                    RenderKind::BarrierResources | RenderKind::BarrierScope => {
                        &&& next == s
                        &&& render_barrier(session, c) matches Ok(barrier)
                        &&& barrier is None ==> operations.len() == 0
                        &&& barrier is Some ==> operations.len() == 1 && operations[0]
                            == OperationView::Barrier(barrier->0)
                    },
                    RenderKind::UseResource | RenderKind::UseHeap => {
                        &&& next == s
                        &&& render_participation(session, c) matches Ok(parts)
                        &&& operations.len() == parts.len()
                        &&& forall|i: int|
                            0 <= i < parts.len() ==> #[trigger] operations[i]
                                == OperationView::Participation(parts[i])
                    },
                    RenderKind::ExecuteCommands => {
                        &&& render_icb_execution(session, s, c) matches Ok(populated)
                        &&& operations.len() == 1
                        &&& operations[0] == OperationView::ExecuteRenderCommands(populated)
                        &&& s.stores < usize::MAX ==> next.stores == s.stores + 1
                        &&& next.render == s.render
                    },
                    RenderKind::TileBind
                    | RenderKind::TileDispatch
                    | RenderKind::TileDimensionsQuery => next == s && operations.len() == 0,
                    _ => {
                        &&& operations.len() == 0
                        &&& s.render is Some && next.render is Some
                        &&& render_state_step(s.render->0, c) == Ok::<
                            RenderEncoderView,
                            ReplacementRenderStateResolutionError,
                        >(next.render->0)
                        &&& next.stores == s.stores
                    },
                }
            },
            Err(_) => true,
        },
        (c.kind is Draw || c.kind is DrawIndirect) && project_draw(session, s, c) is Ok
            ==> render_step(session, s, c) is Ok,
        c.kind is Fence && render_fence(session, c) is Ok ==> render_step(session, s, c) is Ok,
        (c.kind is BarrierResources || c.kind is BarrierScope) && render_barrier(session, c) is Ok
            ==> render_step(session, s, c) is Ok,
        (c.kind is UseResource || c.kind is UseHeap) && render_participation(session, c) is Ok
            ==> render_step(session, s, c) is Ok,
        c.kind is ExecuteCommands && render_icb_execution(session, s, c) is Ok ==> render_step(
            session,
            s,
            c,
        ) is Ok,
{
}

/// A compute record comes to what it resolves to, as a render record does.
#[verifier::spinoff_prover]
pub proof fn lemma_a_compute_record_comes_to_its_operation(
    session: ReplacementRuntimeSession,
    s: ProjectionStateView,
    c: ComputeCommand,
)
    ensures
        match compute_step(session, s, c) {
            Ok((next, operations)) => {
                &&& next.render == s.render
                &&& match c.kind {
                    ComputeKind::DispatchThreadgroups
                    | ComputeKind::DispatchThreads
                    | ComputeKind::DispatchThreadgroupsIndirect
                    | ComputeKind::DispatchThreadsIndirect => {
                        &&& next == s
                        &&& s.compute matches Some(accum)
                        &&& encoder_dispatch(session, accum, c) matches Ok(dispatch)
                        &&& operations.len() == 1
                        &&& operations[0] == OperationView::Compute(dispatch)
                    },
                    ComputeKind::UpdateFence | ComputeKind::WaitFence => {
                        &&& next == s
                        &&& compute_fence(session, c) matches Ok(fence)
                        &&& fence is None ==> operations.len() == 0
                        &&& fence is Some ==> operations.len() == 1 && operations[0]
                            == OperationView::Fence(fence->0)
                    },
                    ComputeKind::BarrierResources | ComputeKind::BarrierScope => {
                        &&& next == s
                        &&& compute_barrier(session, c) matches Ok(barrier)
                        &&& barrier is None ==> operations.len() == 0
                        &&& barrier is Some ==> operations.len() == 1 && operations[0]
                            == OperationView::Barrier(barrier->0)
                    },
                    ComputeKind::UseResources | ComputeKind::UseHeaps => {
                        &&& next == s
                        &&& compute_participation(session, c) matches Ok(parts)
                        &&& operations.len() == parts.len()
                        &&& forall|i: int|
                            0 <= i < parts.len() ==> #[trigger] operations[i]
                                == OperationView::Participation(parts[i])
                    },
                    ComputeKind::ExecuteCommandsInBuffer
                    | ComputeKind::ExecuteCommandsInBufferIndirect => {
                        &&& compute_icb_execution(session, s, c) matches Ok(populated)
                        &&& operations.len() == 1
                        &&& operations[0] == OperationView::ExecuteComputeCommands(populated)
                        &&& s.stores < usize::MAX ==> next.stores == s.stores + 1
                        &&& next.compute == s.compute
                    },
                    _ => {
                        &&& operations.len() == 0
                        &&& s.compute is Some && next.compute is Some
                        &&& compute_state_step(s.compute->0, c) == Ok::<
                            ComputeAccumView,
                            ReplacementComputeStateResolutionError,
                        >(next.compute->0)
                        &&& next.stores == s.stores
                    },
                }
            },
            Err(_) => true,
        },
{
}

/// A blit record comes to the one blit, fence or command that it resolves to; only
/// a hint, and a record that states nothing to do, comes to nothing.
#[verifier::spinoff_prover]
pub proof fn lemma_a_blit_record_comes_to_its_operation(
    session: ReplacementRuntimeSession,
    c: BlitCommand,
)
    ensures
        match blit_step(session, c) {
            Ok(operations) => {
                &&& operations.len() <= 1
                &&& c.kind is FillBuffer || c.kind is FillBufferPattern4 || (c.kind is Copy
                    && c.copy_kind is BufferToBuffer) ==> {
                    &&& buffer_blit(session, c) matches Ok(blit)
                    &&& blit is None <==> operations.len() == 0
                    &&& blit is Some ==> operations[0] == OperationView::Blit(blit->0)
                }
                &&& c.kind is Copy && !(c.copy_kind is BufferToBuffer) ==> {
                    &&& image_blit(session, c) matches Ok(blit)
                    &&& blit is None <==> operations.len() == 0
                    &&& blit is Some ==> operations[0] == OperationView::Blit(blit->0)
                }
                &&& c.kind is Fence ==> {
                    &&& blit_fence(session, c) matches Ok(fence)
                    &&& fence is None <==> operations.len() == 0
                    &&& fence is Some ==> operations[0] == OperationView::Fence(fence->0)
                }
                &&& c.kind is IcbRange || c.kind is IcbCopy ==> {
                    &&& indirect_record(session, c) matches Ok(command)
                    &&& operations.len() == 1
                    &&& operations[0] == OperationView::IndirectCommand(command)
                }
                &&& c.kind is FillTexture ==> false
                &&& c.kind is Resource ==> c.opcode is OptimizeForCpu || c.opcode is OptimizeForGpu
                &&& c.kind is Image ==> c.opcode is OptimizeForCpuSliceLevel || c.opcode
                    is OptimizeForGpuSliceLevel
            },
            Err(_) => true,
        },
        (c.kind is Resource && (c.opcode is OptimizeForCpu || c.opcode is OptimizeForGpu)) || (
        c.kind is Image && (c.opcode is OptimizeForCpuSliceLevel || c.opcode
            is OptimizeForGpuSliceLevel)) || c.kind is InvalidateCompressedTexture ==> blit_step(
            session,
            c,
        ) is Ok && blit_step(session, c)->Ok_0.len() == 0,
{
}

/// An event or query record comes to its one operation, and neither it nor a
/// blit record touches the encoders.
pub proof fn lemma_an_event_or_query_comes_to_its_operation(
    session: ReplacementRuntimeSession,
    s: ProjectionStateView,
    record: DecodedReplacementRecord,
)
    ensures
        match (record, record_step(session, s, record)) {
            (DecodedReplacementRecord::Event(c), Ok((next, operations))) => {
                &&& next == s
                &&& operations.len() == 1
                &&& event_operation(session, c) is Ok
                &&& operations[0] == OperationView::Event(event_operation(session, c)->Ok_0)
            },
            (DecodedReplacementRecord::Info(asked), Ok((next, operations))) => {
                &&& next == s
                &&& operations.len() == 1
                &&& session.info(asked) is Ok
                &&& operations[0] == OperationView::InfoQuery(session.info(asked)->Ok_0)
            },
            (DecodedReplacementRecord::Blit(c), Ok((next, operations))) => {
                &&& next == s
                &&& blit_step(session, *c) == Ok::<Seq<OperationView>, ProjectionRefusalView>(
                    operations,
                )
            },
            (DecodedReplacementRecord::Render(c), step) => step == render_step(session, s, *c),
            (DecodedReplacementRecord::Compute(c), step) => step == compute_step(session, s, *c),
            _ => true,
        },
{
    reveal(record_step);
}

/// What contracts say of an operation is what it holds.
pub proof fn lemma_an_operation_is_seen_whole(operation: ProjectedReplacementOperation)
    ensures
        match operation {
            ProjectedReplacementOperation::EncoderBoundary(boundary) => operation@
                == OperationView::EncoderBoundary(boundary),
            ProjectedReplacementOperation::Event(event) => operation@ == OperationView::Event(event),
            ProjectedReplacementOperation::Fence(fence) => operation@ == OperationView::Fence(fence),
            ProjectedReplacementOperation::Participation(part) => operation@
                == OperationView::Participation(part),
            ProjectedReplacementOperation::Barrier(barrier) => operation@ == OperationView::Barrier(
                barrier@,
            ),
            ProjectedReplacementOperation::Render(draw) => operation@ == OperationView::Render(
                draw@,
            ),
            ProjectedReplacementOperation::Compute(launch) => operation@ == OperationView::Compute(
                launch@,
            ),
            ProjectedReplacementOperation::Blit(blit) => operation@ == OperationView::Blit(
                (*blit)@,
            ),
            ProjectedReplacementOperation::IndirectCommand(command) => operation@
                == OperationView::IndirectCommand(command),
            ProjectedReplacementOperation::ExecuteRenderCommands(run) => operation@
                == OperationView::ExecuteRenderCommands(run@),
            ProjectedReplacementOperation::ExecuteComputeCommands(run) => operation@
                == OperationView::ExecuteComputeCommands(run@),
            ProjectedReplacementOperation::InfoQuery(query) => operation@
                == OperationView::InfoQuery(query),
        },
{
}

} // verus!
