//! Indirect command buffers: the commands a run holds, resolved under the
//! encoder that executes it.

use vstd::prelude::*;

use crate::bindings::{RenderBindingClass, ReplacementRenderDrawResolutionError};
use crate::command::{ComputeCommand, ComputeKind, RenderCommand};
use crate::compute::{
    built_arguments, construction_of, resolve_arguments, ConstructionAnswer, ConstructionOf,
    ConstructionView, Extent3,
    ReplacementComputeConstructionError, ReplacementComputeDispatchResolutionError,
};
use crate::compute_state::{ComputeAccum, ComputeAccumView};
use crate::draw::{
    draw_arguments, encoder_draw, fetches_none, fetches_one, index_bytes,
    lemma_a_draw_draws_its_stated_geometry, lemma_a_draw_reads_its_stated_memory, project_draw,
    resolve_encoder_draw, DrawArguments, RenderDispatchView, ResolvedRenderDispatch,
    ResolvedRenderDraw,
};
use crate::encoder_state::{
    empty_table, make_table, ProjectionStateView, RenderEncoderView,
    ReplacementRecordProjectionState, ReplacementRenderBufferBinding,
    ReplacementRenderEncoderState, MAX_BUFFER_BIND_SLOTS,
};
use crate::raster::{index_type_of, primitive_topology_of};
use crate::session::{
    BufferQuery, IndirectCommandExecutionKind, IndirectCommandRange, ReplacementRuntimeSession,
    ResolvedIndirectCommand, TranslationAnswer, TranslationQuery,
};
use crate::tables::{answer_of, copy_all};

verus! {

/// How a command launches a kernel.
#[derive(Clone, Copy, Debug, PartialEq, Eq, Structural)]
pub enum IcbFillDispatch {
    ConcurrentThreadgroups { grid: Extent3, threads_per_threadgroup: Extent3 },
    ConcurrentThreads { grid: Extent3, threads_per_threadgroup: Extent3 },
}

/// A compute command.
#[derive(Clone, Copy, Debug, PartialEq, Eq, Structural)]
pub struct IcbComputeFill {
    pub pipeline_ref: u32,
    pub dispatch: IcbFillDispatch,
    /// Stands for what else the command states, such as its own bindings:
    /// commands that differ there have different details.
    pub detail: u64,
}

/// The stage a command binds a buffer to.
#[derive(Clone, Copy, Debug, PartialEq, Eq, Structural)]
pub enum IcbRenderBindStage {
    Vertex,
    Fragment,
    Object,
    Mesh,
}

/// A buffer that a command binds.
#[derive(Clone, Copy, Debug, PartialEq, Eq, Structural)]
pub struct IcbRenderBuffer {
    pub stage: IcbRenderBindStage,
    pub index: u32,
    pub buffer_ref: u32,
    pub offset: u64,
    pub has_attribute_stride: bool,
    pub attribute_stride: u64,
}

/// What a render command draws.
#[derive(Clone, Copy, Debug, PartialEq, Eq, Structural)]
#[allow(inconsistent_fields)]
pub enum IcbRenderDraw {
    Primitives {
        primitive_type: u16,
        vertex_start: u64,
        vertex_count: u64,
        instance_count: u64,
        base_instance: u64,
    },
    Indexed {
        primitive_type: u16,
        index_type: u16,
        index_buffer_ref: u32,
        index_count: u64,
        index_buffer_offset: u64,
        instance_count: u64,
        base_vertex: i64,
        base_instance: u64,
    },
    Patches,
    IndexedPatches,
    MeshThreads,
    MeshThreadgroups,
}

/// A render command.
#[derive(Debug, PartialEq, Eq)]
pub struct IcbRenderFill {
    pub pipeline_ref: u32,
    pub buffers: Vec<IcbRenderBuffer>,
    pub object_threadgroup_memory: Vec<u64>,
    pub draw: IcbRenderDraw,
}

/// A command of either kind.
#[derive(Debug, PartialEq, Eq)]
pub enum IcbCommandFill {
    Render(IcbRenderFill),
    Compute(IcbComputeFill),
}

/// One slot of a buffer; `None` where nothing was encoded.
#[derive(Debug, PartialEq, Eq)]
pub struct DecodedIcbCommandSlot {
    pub command_index: u64,
    pub command: Option<IcbCommandFill>,
}

/// What a buffer's commands take from the encoder that executes them.
#[derive(Clone, Copy, Debug, PartialEq, Eq, Structural)]
pub struct IndirectCommandBufferDescriptor {
    pub inherit_pipeline_state: bool,
    pub inherit_buffers: bool,
}

/// A run of an indirect command buffer.
#[derive(Clone, Copy, Debug, PartialEq, Eq, Structural)]
pub struct IcbReadQuery {
    pub reference: u32,
    pub range: IndirectCommandRange,
}

/// A run that was read, and the buffer it was read from.
#[derive(Clone, Copy, Debug, PartialEq, Eq, Structural)]
pub struct ReplacementIcbCommandMemoryRead {
    pub identity: u64,
    pub range: IndirectCommandRange,
    pub descriptor: IndirectCommandBufferDescriptor,
}

/// Why a run's bytes could not be had.
#[derive(Clone, Copy, Debug, PartialEq, Eq, Structural)]
pub enum ReplacementIcbCommandMemoryTransportError {
    Unavailable,
    HostLengthOverflow(u64),
    Memory(u32),
}

/// What reading a run came to.
#[derive(Debug, PartialEq, Eq)]
pub enum IcbReadAnswer {
    Read { read: ReplacementIcbCommandMemoryRead, slots: Vec<DecodedIcbCommandSlot> },
    ReadPlan(u32),
    Transport(ReplacementIcbCommandMemoryTransportError),
    Decode(u32),
}

/// What storing a batch in its buffer came to.
#[derive(Clone, Copy, Debug, PartialEq, Eq, Structural)]
pub enum IcbStoreAnswer {
    /// `prior` stands for what the buffer held in these slots before.
    Stored { prior: u64 },
    Refused(u32),
}

/// Why a batch is not stored.
#[derive(Clone, Copy, Debug, PartialEq, Eq, Structural)]
pub enum IcbStoreRefusal {
    /// The session holds no answer to storing this run after so many others.
    Unanswered { stores: usize, icb: u64, range: IndirectCommandRange },
    Refused(u32),
}

/// The state of a projection that has stored one more batch.
pub open spec fn with_store(s: ProjectionStateView) -> ProjectionStateView {
    ProjectionStateView { stores: (s.stores + 1) as usize, ..s }
}

/// Whether slots are those of a run, one each and in order.
pub open spec fn slots_are_the_run(
    range: IndirectCommandRange,
    slots: Seq<DecodedIcbCommandSlot>,
) -> bool {
    &&& range.location + range.length <= u64::MAX
    &&& slots.len() == range.length
    &&& forall|i: int|
        0 <= i < slots.len() ==> (#[trigger] slots[i]).command_index == range.location + i
}

fn are_the_run(range: IndirectCommandRange, slots: &Vec<DecodedIcbCommandSlot>) -> (run: bool)
    ensures
        run == slots_are_the_run(range, slots@),
{
    if range.location.checked_add(range.length).is_none() || slots.len() as u64 != range.length {
        return false;
    }
    let mut i: usize = 0;
    while i < slots.len()
        invariant
            i <= slots@.len(),
            range.location + range.length <= u64::MAX,
            slots@.len() == range.length,
            forall|j: int|
                0 <= j < i ==> (#[trigger] slots@[j]).command_index == range.location + j,
        decreases slots.len() - i,
    {
        if slots[i].command_index != range.location + i as u64 {
            assert(slots@[i as int].command_index != range.location + i);
            return false;
        }
        i += 1;
    }
    true
}

// Compute commands.

/// A compute command, resolved.
#[derive(Clone, Copy, Debug, PartialEq, Eq, Structural)]
pub struct ResolvedIcbDispatch {
    pub pipeline_ref: u32,
    pub translation: u64,
    pub descriptor: IndirectCommandBufferDescriptor,
    pub fill: IcbComputeFill,
    pub arguments: u64,
}

/// Why a run of compute commands does not resolve.
#[derive(Clone, Copy, Debug, PartialEq, Eq, Structural)]
pub enum ReplacementComputeIcbPopulationError {
    OutsideEncoder,
    DecodedRangeMismatch,
    RenderCommandInComputeEncoder { index: u64 },
    Dispatch { index: u64, reason: ReplacementComputeDispatchResolutionError },
    Population(IcbStoreRefusal),
}

/// Why a record that executes compute commands does not resolve.
#[derive(Clone, Copy, Debug, PartialEq, Eq, Structural)]
pub enum ReplacementComputeIcbExecutionError {
    /// The session holds no answer to this read.
    Unanswered(IcbReadQuery),
    ReadPlan(u32),
    Transport(ReplacementIcbCommandMemoryTransportError),
    Decode(u32),
    Population(ReplacementComputeIcbPopulationError),
    IndirectRangeRequiresAsynchronousReadback,
}

impl IcbFillDispatch {
    pub open spec fn group(self) -> Extent3 {
        match self {
            IcbFillDispatch::ConcurrentThreadgroups { threads_per_threadgroup, .. } => {
                threads_per_threadgroup
            },
            IcbFillDispatch::ConcurrentThreads { threads_per_threadgroup, .. } => {
                threads_per_threadgroup
            },
        }
    }

    /// Threads in one threadgroup.
    pub fn local_size(self) -> (size: Extent3)
        ensures
            size == self.group(),
    {
        match self {
            IcbFillDispatch::ConcurrentThreadgroups { threads_per_threadgroup, .. } => {
                threads_per_threadgroup
            },
            IcbFillDispatch::ConcurrentThreads { threads_per_threadgroup, .. } => {
                threads_per_threadgroup
            },
        }
    }
}

/// What a compute command stands for under the encoder that executes it.
pub open spec fn icb_dispatch(
    session: ReplacementRuntimeSession,
    inherited: ComputeAccumView,
    descriptor: IndirectCommandBufferDescriptor,
    fill: IcbComputeFill,
) -> Result<ResolvedIcbDispatch, ReplacementComputeDispatchResolutionError> {
    let pipeline_ref = if descriptor.inherit_pipeline_state {
        inherited.pipeline_ref
    } else {
        fill.pipeline_ref
    };
    let group = fill.dispatch.group();
    if pipeline_ref == 0 {
        Err(
            ReplacementComputeDispatchResolutionError::Construction(
                ReplacementComputeConstructionError::IcbPipelineMissing,
            ),
        )
    } else {
        match session.translation(
            TranslationQuery { pipeline_ref, x: group.x, y: group.y, z: group.z },
        ) {
            Err(reason) => Err(ReplacementComputeDispatchResolutionError::Pipeline(reason)),
            Ok(translation) => match built_arguments(
                session,
                ConstructionView {
                    translation,
                    of: ConstructionOf::Command { descriptor, fill },
                    binds: inherited,
                },
            ) {
                Err(error) => Err(error),
                Ok(arguments) => Ok(
                    ResolvedIcbDispatch { pipeline_ref, translation, descriptor, fill, arguments },
                ),
            },
        }
    }
}

/// Resolves a compute command under the encoder that executes it.
pub fn resolve_compute_icb_dispatch(
    session: &ReplacementRuntimeSession,
    inherited: &ComputeAccum,
    descriptor: IndirectCommandBufferDescriptor,
    fill: IcbComputeFill,
) -> (dispatch: Result<ResolvedIcbDispatch, ReplacementComputeDispatchResolutionError>)
    ensures
        dispatch == icb_dispatch(*session, inherited@, descriptor, fill),
{
    let pipeline_ref: u32 = if descriptor.inherit_pipeline_state {
        inherited.pipeline_ref
    } else {
        fill.pipeline_ref
    };
    if pipeline_ref == 0 {
        return Err(
            ReplacementComputeDispatchResolutionError::Construction(
                ReplacementComputeConstructionError::IcbPipelineMissing,
            ),
        );
    }
    let group = fill.dispatch.local_size();
    let translation = match session.resolve_compute_translation(
        TranslationQuery { pipeline_ref, x: group.x, y: group.y, z: group.z },
    ) {
        Ok(translation) => translation,
        Err(reason) => {
            return Err(ReplacementComputeDispatchResolutionError::Pipeline(reason));
        },
    };
    let of = ConstructionOf::Command { descriptor, fill };
    match resolve_arguments(session, translation, of, inherited) {
        Ok(arguments) => Ok(
            ResolvedIcbDispatch { pipeline_ref, translation, descriptor, fill, arguments },
        ),
        Err(error) => Err(error),
    }
}

/// What one slot of a compute run stands for.
pub open spec fn compute_slot(
    session: ReplacementRuntimeSession,
    inherited: ComputeAccumView,
    descriptor: IndirectCommandBufferDescriptor,
    slot: DecodedIcbCommandSlot,
) -> Result<(u64, Option<ResolvedIcbDispatch>), ReplacementComputeIcbPopulationError> {
    match slot.command {
        None => Ok((slot.command_index, None)),
        Some(IcbCommandFill::Render(_)) => Err(
            ReplacementComputeIcbPopulationError::RenderCommandInComputeEncoder {
                index: slot.command_index,
            },
        ),
        Some(IcbCommandFill::Compute(fill)) => match icb_dispatch(
            session,
            inherited,
            descriptor,
            fill,
        ) {
            Err(reason) => Err(
                ReplacementComputeIcbPopulationError::Dispatch {
                    index: slot.command_index,
                    reason,
                },
            ),
            Ok(dispatch) => Ok((slot.command_index, Some(dispatch))),
        },
    }
}

/// What the slots of a compute run stand for, in order, or the first refusal.
pub open spec fn compute_slots(
    session: ReplacementRuntimeSession,
    inherited: ComputeAccumView,
    descriptor: IndirectCommandBufferDescriptor,
    slots: Seq<DecodedIcbCommandSlot>,
) -> Result<Seq<(u64, Option<ResolvedIcbDispatch>)>, ReplacementComputeIcbPopulationError>
    decreases slots.len(),
{
    if slots.len() == 0 {
        Ok(Seq::empty())
    } else {
        match compute_slots(session, inherited, descriptor, slots.drop_last()) {
            Err(error) => Err(error),
            Ok(done) => match compute_slot(session, inherited, descriptor, slots.last()) {
                Err(error) => Err(error),
                Ok(slot) => Ok(done.push(slot)),
            },
        }
    }
}

/// What a compute run stands for under a projection's state.
pub open spec fn compute_run(
    session: ReplacementRuntimeSession,
    s: ProjectionStateView,
    read: ReplacementIcbCommandMemoryRead,
    slots: Seq<DecodedIcbCommandSlot>,
) -> Result<Seq<(u64, Option<ResolvedIcbDispatch>)>, ReplacementComputeIcbPopulationError> {
    if !slots_are_the_run(read.range, slots) {
        Err(ReplacementComputeIcbPopulationError::DecodedRangeMismatch)
    } else {
        match s.compute {
            None => Err(ReplacementComputeIcbPopulationError::OutsideEncoder),
            Some(inherited) => compute_slots(session, inherited, read.descriptor, slots),
        }
    }
}

proof fn lemma_compute_slot_refusal_of_a_prefix(
    session: ReplacementRuntimeSession,
    inherited: ComputeAccumView,
    descriptor: IndirectCommandBufferDescriptor,
    slots: Seq<DecodedIcbCommandSlot>,
    n: int,
)
    requires
        0 <= n <= slots.len(),
        compute_slots(session, inherited, descriptor, slots.take(n)) is Err,
    ensures
        compute_slots(session, inherited, descriptor, slots) == compute_slots(
            session,
            inherited,
            descriptor,
            slots.take(n),
        ),
    decreases slots.len() - n,
{
    if n == slots.len() {
        assert(slots.take(n) =~= slots);
    } else {
        assert(slots.take(n + 1).drop_last() =~= slots.take(n));
        lemma_compute_slot_refusal_of_a_prefix(session, inherited, descriptor, slots, n + 1);
    }
}

/// A run of compute commands that has been stored in its buffer, to be executed.
#[derive(Debug, PartialEq, Eq)]
pub struct ReplacementPopulatedComputeIcb {
    /// Stands for what the buffer held in these slots before.
    pub prior: u64,
    pub batch: Vec<(u64, Option<ResolvedIcbDispatch>)>,
    /// What the encoder holds when the run is executed.
    pub inherited: ComputeAccum,
    pub execution: ResolvedIndirectCommand,
}

/// What contracts say of a run of compute commands.
#[verifier::ext_equal]
pub struct PopulatedComputeView {
    pub prior: u64,
    pub batch: Seq<(u64, Option<ResolvedIcbDispatch>)>,
    pub inherited: ComputeAccumView,
    pub execution: ResolvedIndirectCommand,
}

impl View for ReplacementPopulatedComputeIcb {
    type V = PopulatedComputeView;

    open spec fn view(&self) -> PopulatedComputeView {
        PopulatedComputeView {
            prior: self.prior,
            batch: self.batch@,
            inherited: self.inherited@,
            execution: self.execution,
        }
    }
}

/// What storing and executing a compute run comes to. It is stored only where
/// all of it resolves.
pub open spec fn compute_population(
    session: ReplacementRuntimeSession,
    s: ProjectionStateView,
    read: ReplacementIcbCommandMemoryRead,
    slots: Seq<DecodedIcbCommandSlot>,
) -> Result<PopulatedComputeView, ReplacementComputeIcbPopulationError> {
    match compute_run(session, s, read, slots) {
        Err(error) => Err(error),
        Ok(batch) => match session.icb_store(s.stores, read.identity, read.range) {
            Err(reason) => Err(ReplacementComputeIcbPopulationError::Population(reason)),
            Ok(prior) => Ok(
                PopulatedComputeView {
                    prior,
                    batch,
                    inherited: s.compute->0,
                    execution: ResolvedIndirectCommand::Execute {
                        icb: read.identity,
                        range: read.range,
                        kind: IndirectCommandExecutionKind::Compute,
                    },
                },
            ),
        },
    }
}

/// Resolves a run of compute commands under the open compute encoder, to be
/// stored.
pub fn resolve_compute_run(
    session: &ReplacementRuntimeSession,
    state: &ReplacementRecordProjectionState,
    read: &ReplacementIcbCommandMemoryRead,
    slots: &Vec<DecodedIcbCommandSlot>,
) -> (batch: Result<
    Vec<(u64, Option<ResolvedIcbDispatch>)>,
    ReplacementComputeIcbPopulationError,
>)
    ensures
        match batch {
            Ok(batch) => compute_run(*session, state@, *read, slots@) == Ok::<
                Seq<(u64, Option<ResolvedIcbDispatch>)>,
                ReplacementComputeIcbPopulationError,
            >(batch@),
            Err(error) => compute_run(*session, state@, *read, slots@) == Err::<
                Seq<(u64, Option<ResolvedIcbDispatch>)>,
                ReplacementComputeIcbPopulationError,
            >(error),
        },
{
    if !are_the_run(read.range, slots) {
        return Err(ReplacementComputeIcbPopulationError::DecodedRangeMismatch);
    }
    let inherited = match &state.compute {
        Some(inherited) => inherited,
        None => {
            return Err(ReplacementComputeIcbPopulationError::OutsideEncoder);
        },
    };
    let mut batch: Vec<(u64, Option<ResolvedIcbDispatch>)> = Vec::new();
    let mut i: usize = 0;
    while i < slots.len()
        invariant
            i <= slots@.len(),
            slots_are_the_run(read.range, slots@),
            state@.compute == Some(inherited@),
            compute_slots(*session, inherited@, read.descriptor, slots@.take(i as int)) == Ok::<
                Seq<(u64, Option<ResolvedIcbDispatch>)>,
                ReplacementComputeIcbPopulationError,
            >(batch@),
        decreases slots.len() - i,
    {
        let index: u64 = slots[i].command_index;
        assert(slots@.take(i as int + 1).drop_last() =~= slots@.take(i as int));
        let refusal = match &slots[i].command {
            None => {
                batch.push((index, None));
                None
            },
            Some(IcbCommandFill::Render(_)) => Some(
                ReplacementComputeIcbPopulationError::RenderCommandInComputeEncoder { index },
            ),
            Some(IcbCommandFill::Compute(fill)) => {
                match resolve_compute_icb_dispatch(session, inherited, read.descriptor, *fill) {
                    Ok(dispatch) => {
                        batch.push((index, Some(dispatch)));
                        None
                    },
                    Err(reason) => Some(
                        ReplacementComputeIcbPopulationError::Dispatch { index, reason },
                    ),
                }
            },
        };
        if let Some(refusal) = refusal {
            proof {
                lemma_compute_slot_refusal_of_a_prefix(
                    *session,
                    inherited@,
                    read.descriptor,
                    slots@,
                    i as int + 1,
                );
            }
            return Err(refusal);
        }
        i += 1;
    }
    assert(slots@.take(i as int) =~= slots@);
    Ok(batch)
}

/// Resolves a run of compute commands under the open compute encoder, and
/// stores it. A refused run stores nothing.
pub fn populate_decoded_compute_icb(
    session: &ReplacementRuntimeSession,
    state: &mut ReplacementRecordProjectionState,
    read: &ReplacementIcbCommandMemoryRead,
    slots: &Vec<DecodedIcbCommandSlot>,
) -> (populated: Result<ReplacementPopulatedComputeIcb, ReplacementComputeIcbPopulationError>)
    ensures
        match populated {
            Ok(populated) => {
                &&& compute_population(*session, old(state)@, *read, slots@) == Ok::<
                    PopulatedComputeView,
                    ReplacementComputeIcbPopulationError,
                >(populated@)
                &&& final(state)@ == with_store(old(state)@)
            },
            Err(error) => {
                &&& compute_population(*session, old(state)@, *read, slots@) == Err::<
                    PopulatedComputeView,
                    ReplacementComputeIcbPopulationError,
                >(error)
                &&& final(state)@ == old(state)@
            },
        },
{
    let batch = match resolve_compute_run(session, state, read, slots) {
        Ok(batch) => batch,
        Err(error) => {
            return Err(error);
        },
    };
    let inherited = match &state.compute {
        Some(inherited) => inherited.copied(),
        None => {
            return Err(ReplacementComputeIcbPopulationError::OutsideEncoder);
        },
    };
    let prior = match session.resolve_icb_store(state.stores, read.identity, read.range) {
        Ok(prior) => prior,
        Err(reason) => {
            return Err(ReplacementComputeIcbPopulationError::Population(reason));
        },
    };
    state.stores = state.stores + 1;
    Ok(
        ReplacementPopulatedComputeIcb {
            prior,
            batch,
            inherited,
            execution: ResolvedIndirectCommand::Execute {
                icb: read.identity,
                range: read.range,
                kind: IndirectCommandExecutionKind::Compute,
            },
        },
    )
}

/// The run that a compute record executes.
pub open spec fn compute_icb_query(c: ComputeCommand) -> IcbReadQuery {
    IcbReadQuery {
        reference: c.indirect_command_buffer_ref,
        range: IndirectCommandRange {
            location: c.indirect_command_range_location,
            length: c.indirect_command_range_length,
        },
    }
}

/// What a record that executes compute commands stands for.
pub open spec fn compute_icb_execution(
    session: ReplacementRuntimeSession,
    s: ProjectionStateView,
    c: ComputeCommand,
) -> Result<PopulatedComputeView, ReplacementComputeIcbExecutionError> {
    if c.kind is ExecuteCommandsInBufferIndirect {
        Err(ReplacementComputeIcbExecutionError::IndirectRangeRequiresAsynchronousReadback)
    } else {
        match answer_of(session.icb_reads@, compute_icb_query(c)) {
            None => Err(ReplacementComputeIcbExecutionError::Unanswered(compute_icb_query(c))),
            Some(IcbReadAnswer::ReadPlan(reason)) => Err(
                ReplacementComputeIcbExecutionError::ReadPlan(reason),
            ),
            Some(IcbReadAnswer::Transport(reason)) => Err(
                ReplacementComputeIcbExecutionError::Transport(reason),
            ),
            Some(IcbReadAnswer::Decode(reason)) => Err(
                ReplacementComputeIcbExecutionError::Decode(reason),
            ),
            Some(IcbReadAnswer::Read { read, slots }) => match compute_population(
                session,
                s,
                read,
                slots@,
            ) {
                Err(error) => Err(ReplacementComputeIcbExecutionError::Population(error)),
                Ok(populated) => Ok(populated),
            },
        }
    }
}

/// Resolves a record that executes compute commands, and stores them. A refused
/// record stores nothing.
pub fn resolve_compute_icb_execution(
    session: &ReplacementRuntimeSession,
    state: &mut ReplacementRecordProjectionState,
    command: &ComputeCommand,
) -> (populated: Result<ReplacementPopulatedComputeIcb, ReplacementComputeIcbExecutionError>)
    ensures
        match populated {
            Ok(populated) => {
                &&& compute_icb_execution(*session, old(state)@, *command) == Ok::<
                    PopulatedComputeView,
                    ReplacementComputeIcbExecutionError,
                >(populated@)
                &&& final(state)@ == with_store(old(state)@)
            },
            Err(error) => {
                &&& compute_icb_execution(*session, old(state)@, *command) == Err::<
                    PopulatedComputeView,
                    ReplacementComputeIcbExecutionError,
                >(error)
                &&& final(state)@ == old(state)@
            },
        },
{
    if command.kind == ComputeKind::ExecuteCommandsInBufferIndirect {
        return Err(ReplacementComputeIcbExecutionError::IndirectRangeRequiresAsynchronousReadback);
    }
    let query = IcbReadQuery {
        reference: command.indirect_command_buffer_ref,
        range: IndirectCommandRange {
            location: command.indirect_command_range_location,
            length: command.indirect_command_range_length,
        },
    };
    match session.resolve_icb_read(query) {
        None => Err(ReplacementComputeIcbExecutionError::Unanswered(query)),
        Some(IcbReadAnswer::ReadPlan(reason)) => Err(
            ReplacementComputeIcbExecutionError::ReadPlan(*reason),
        ),
        Some(IcbReadAnswer::Transport(reason)) => Err(
            ReplacementComputeIcbExecutionError::Transport(*reason),
        ),
        Some(IcbReadAnswer::Decode(reason)) => Err(
            ReplacementComputeIcbExecutionError::Decode(*reason),
        ),
        Some(IcbReadAnswer::Read { read, slots }) => {
            match populate_decoded_compute_icb(session, state, read, slots) {
                Ok(populated) => Ok(populated),
                Err(error) => Err(ReplacementComputeIcbExecutionError::Population(error)),
            }
        },
    }
}

// Render commands.

/// Why a render command does not resolve.
#[derive(Clone, Copy, Debug, PartialEq, Eq, Structural)]
pub enum ReplacementRenderIcbDrawError {
    InheritedPipelineOverride,
    PipelineMissing,
    InheritedBuffersOverride,
    BufferIndexOverflow(u32),
    ObjectOrMeshBuffer,
    ObjectThreadgroupMemory,
    GeometryOutOfRange,
    UnsupportedDraw,
    Draw(ReplacementRenderDrawResolutionError),
}

/// Why a run of render commands does not resolve.
#[derive(Clone, Copy, Debug, PartialEq, Eq, Structural)]
pub enum ReplacementRenderIcbPopulationError {
    OutsideEncoder,
    DecodedRangeMismatch,
    ComputeCommandInRenderEncoder { index: u64 },
    Draw { index: u64, reason: ReplacementRenderIcbDrawError },
    Population(IcbStoreRefusal),
}

/// Why a record that executes render commands does not resolve.
#[derive(Clone, Copy, Debug, PartialEq, Eq, Structural)]
pub enum ReplacementRenderIcbExecutionError {
    /// The session holds no answer to this read.
    Unanswered(IcbReadQuery),
    ReadPlan(u32),
    Transport(ReplacementIcbCommandMemoryTransportError),
    Decode(u32),
    Population(ReplacementRenderIcbPopulationError),
    IndirectRangeRequiresAsynchronousReadback,
}

/// The slot contents that a command's bind asks for.
pub open spec fn icb_buffer_entry(binding: IcbRenderBuffer) -> Option<
    ReplacementRenderBufferBinding,
> {
    if binding.buffer_ref == 0 {
        None
    } else {
        Some(
            ReplacementRenderBufferBinding {
                reference: binding.buffer_ref,
                offset: binding.offset,
                attribute_stride: if binding.has_attribute_stride {
                    Some(binding.attribute_stride)
                } else {
                    None
                },
            },
        )
    }
}

/// The state with one more of a command's binds.
pub open spec fn with_icb_buffer(s: RenderEncoderView, binding: IcbRenderBuffer) -> Result<
    RenderEncoderView,
    ReplacementRenderIcbDrawError,
> {
    if binding.stage is Object || binding.stage is Mesh {
        Err(ReplacementRenderIcbDrawError::ObjectOrMeshBuffer)
    } else if binding.index >= MAX_BUFFER_BIND_SLOTS {
        Err(ReplacementRenderIcbDrawError::BufferIndexOverflow(binding.index))
    } else if binding.stage is Vertex {
        Ok(
            RenderEncoderView {
                vertex_buffers: s.vertex_buffers.update(
                    binding.index as int,
                    icb_buffer_entry(binding),
                ),
                ..s
            },
        )
    } else {
        Ok(
            RenderEncoderView {
                fragment_buffers: s.fragment_buffers.update(
                    binding.index as int,
                    icb_buffer_entry(binding),
                ),
                ..s
            },
        )
    }
}

/// The state with a command's binds, in order, or the first refusal.
pub open spec fn with_icb_buffers(s: RenderEncoderView, bindings: Seq<IcbRenderBuffer>) -> Result<
    RenderEncoderView,
    ReplacementRenderIcbDrawError,
>
    decreases bindings.len(),
{
    if bindings.len() == 0 {
        Ok(s)
    } else {
        match with_icb_buffers(s, bindings.drop_last()) {
            Err(error) => Err(error),
            Ok(done) => with_icb_buffer(done, bindings.last()),
        }
    }
}

/// The state a command draws under: the encoder's, with the pipeline and the
/// buffers that the descriptor says the command brings.
pub open spec fn icb_state(
    inherited: RenderEncoderView,
    descriptor: IndirectCommandBufferDescriptor,
    fill: IcbRenderFill,
) -> Result<RenderEncoderView, ReplacementRenderIcbDrawError> {
    let pipeline_ref = if descriptor.inherit_pipeline_state {
        inherited.pipeline_ref
    } else {
        fill.pipeline_ref
    };
    if fill.object_threadgroup_memory@.len() != 0 {
        Err(ReplacementRenderIcbDrawError::ObjectThreadgroupMemory)
    } else if descriptor.inherit_pipeline_state && fill.pipeline_ref != 0 {
        Err(ReplacementRenderIcbDrawError::InheritedPipelineOverride)
    } else if pipeline_ref == 0 {
        Err(ReplacementRenderIcbDrawError::PipelineMissing)
    } else if descriptor.inherit_buffers {
        if fill.buffers@.len() != 0 {
            Err(ReplacementRenderIcbDrawError::InheritedBuffersOverride)
        } else {
            Ok(RenderEncoderView { pipeline_ref, ..inherited })
        }
    } else {
        with_icb_buffers(
            RenderEncoderView {
                pipeline_ref,
                vertex_buffers: empty_table(MAX_BUFFER_BIND_SLOTS as nat),
                fragment_buffers: empty_table(MAX_BUFFER_BIND_SLOTS as nat),
                ..inherited
            },
            fill.buffers@,
        )
    }
}

/// What a command draws.
pub open spec fn icb_arguments(draw: IcbRenderDraw) -> Result<
    DrawArguments,
    ReplacementRenderIcbDrawError,
> {
    match draw {
        IcbRenderDraw::Primitives {
            primitive_type,
            vertex_start,
            vertex_count,
            instance_count,
            base_instance,
        } => if vertex_start > u32::MAX || vertex_count > u32::MAX || instance_count > u32::MAX
            || base_instance > u32::MAX {
            Err(ReplacementRenderIcbDrawError::GeometryOutOfRange)
        } else {
            Ok(
                DrawArguments {
                    indirect: false,
                    primitive_type: primitive_type as u32,
                    vertex_start: vertex_start as u32,
                    vertex_count: vertex_count as u32,
                    instance_count: instance_count as u32,
                    base_instance: base_instance as u32,
                    base_vertex: 0,
                    index_type: 0,
                    index_count: 0,
                    index_buffer_ref: 0,
                    index_buffer_offset: 0,
                    indirect_buffer_ref: 0,
                    indirect_buffer_offset: 0,
                },
            )
        },
        IcbRenderDraw::Indexed {
            primitive_type,
            index_type,
            index_buffer_ref,
            index_count,
            index_buffer_offset,
            instance_count,
            base_vertex,
            base_instance,
        } => if index_count > u32::MAX || instance_count > u32::MAX || base_instance > u32::MAX {
            Err(ReplacementRenderIcbDrawError::GeometryOutOfRange)
        } else {
            Ok(
                DrawArguments {
                    indirect: false,
                    primitive_type: primitive_type as u32,
                    vertex_start: 0,
                    vertex_count: 0,
                    instance_count: instance_count as u32,
                    base_instance: base_instance as u32,
                    base_vertex,
                    index_type: index_type as u32,
                    index_count: index_count as u32,
                    index_buffer_ref,
                    index_buffer_offset,
                    indirect_buffer_ref: 0,
                    indirect_buffer_offset: 0,
                },
            )
        },
        _ => Err(ReplacementRenderIcbDrawError::UnsupportedDraw),
    }
}

/// What a render command stands for under the encoder that executes it. It
/// neither begins nor ends an encoder.
pub open spec fn icb_draw(
    session: ReplacementRuntimeSession,
    inherited: RenderEncoderView,
    descriptor: IndirectCommandBufferDescriptor,
    fill: IcbRenderFill,
) -> Result<Option<RenderDispatchView>, ReplacementRenderIcbDrawError> {
    match icb_state(inherited, descriptor, fill) {
        Err(error) => Err(error),
        Ok(state) => match icb_arguments(fill.draw) {
            Err(error) => Err(error),
            Ok(arguments) => match encoder_draw(session, state, arguments) {
                Err(error) => Err(ReplacementRenderIcbDrawError::Draw(error)),
                Ok(None) => Ok(None),
                Ok(Some(dispatch)) => Ok(
                    Some(
                        RenderDispatchView {
                            begins_encoder: false,
                            ends_encoder: false,
                            ..dispatch
                        },
                    ),
                ),
            },
        },
    }
}

proof fn lemma_icb_buffer_refusal_of_a_prefix(
    s: RenderEncoderView,
    bindings: Seq<IcbRenderBuffer>,
    n: int,
)
    requires
        0 <= n <= bindings.len(),
        with_icb_buffers(s, bindings.take(n)) is Err,
    ensures
        with_icb_buffers(s, bindings) == with_icb_buffers(s, bindings.take(n)),
    decreases bindings.len() - n,
{
    if n == bindings.len() {
        assert(bindings.take(n) =~= bindings);
    } else {
        assert(bindings.take(n + 1).drop_last() =~= bindings.take(n));
        lemma_icb_buffer_refusal_of_a_prefix(s, bindings, n + 1);
    }
}

/// A copy of an encoder's state.
fn copy_state(from: &ReplacementRenderEncoderState) -> (to: ReplacementRenderEncoderState)
    ensures
        to@ == from@,
{
    ReplacementRenderEncoderState {
        pipeline_ref: from.pipeline_ref,
        vertex_buffers: copy_all(&from.vertex_buffers),
        fragment_buffers: copy_all(&from.fragment_buffers),
        vertex_textures: copy_all(&from.vertex_textures),
        fragment_textures: copy_all(&from.fragment_textures),
        vertex_samplers: copy_all(&from.vertex_samplers),
        fragment_samplers: copy_all(&from.fragment_samplers),
        viewports_bits: copy_all(&from.viewports_bits),
        scissors: copy_all(&from.scissors),
        blend_color_bits: from.blend_color_bits,
        cull_mode: from.cull_mode,
        front_face_ccw: from.front_face_ccw,
        fill_mode: from.fill_mode,
        line_width: from.line_width,
        depth_clip_mode: from.depth_clip_mode,
        depth_bias_bits: from.depth_bias_bits,
        depth_stencil_ref: from.depth_stencil_ref,
        stencil_reference: from.stencil_reference,
        tessellation_factor_buffer: from.tessellation_factor_buffer,
        color_attachments: copy_all(&from.color_attachments),
        depth_attachment: from.depth_attachment,
        stencil_attachment: from.stencil_attachment,
        visibility_result_buffer_ref: from.visibility_result_buffer_ref,
        visibility: from.visibility,
        render_target_array_length: from.render_target_array_length,
        render_target_width: from.render_target_width,
        render_target_height: from.render_target_height,
    }
}

fn bind_icb_buffer(render: &mut ReplacementRenderEncoderState, binding: IcbRenderBuffer) -> (result:
    Result<(), ReplacementRenderIcbDrawError>)
    requires
        old(render)@.wf(),
    ensures
        final(render)@.wf(),
        match result {
            Ok(_) => with_icb_buffer(old(render)@, binding) == Ok::<
                RenderEncoderView,
                ReplacementRenderIcbDrawError,
            >(final(render)@),
            Err(error) => with_icb_buffer(old(render)@, binding) == Err::<
                RenderEncoderView,
                ReplacementRenderIcbDrawError,
            >(error),
        },
{
    let entry = if binding.buffer_ref == 0 {
        None
    } else {
        Some(
            ReplacementRenderBufferBinding {
                reference: binding.buffer_ref,
                offset: binding.offset,
                attribute_stride: if binding.has_attribute_stride {
                    Some(binding.attribute_stride)
                } else {
                    None
                },
            },
        )
    };
    match binding.stage {
        IcbRenderBindStage::Object | IcbRenderBindStage::Mesh => {
            return Err(ReplacementRenderIcbDrawError::ObjectOrMeshBuffer);
        },
        _ => {},
    }
    if binding.index >= MAX_BUFFER_BIND_SLOTS {
        return Err(ReplacementRenderIcbDrawError::BufferIndexOverflow(binding.index));
    }
    if binding.stage == IcbRenderBindStage::Vertex {
        render.vertex_buffers.set(binding.index as usize, entry);
    } else {
        render.fragment_buffers.set(binding.index as usize, entry);
    }
    Ok(())
}

fn resolve_icb_state(
    inherited: &ReplacementRenderEncoderState,
    descriptor: IndirectCommandBufferDescriptor,
    fill: &IcbRenderFill,
) -> (state: Result<ReplacementRenderEncoderState, ReplacementRenderIcbDrawError>)
    requires
        inherited@.wf(),
    ensures
        match state {
            Ok(state) => {
                &&& state@.wf()
                &&& icb_state(inherited@, descriptor, *fill) == Ok::<
                    RenderEncoderView,
                    ReplacementRenderIcbDrawError,
                >(state@)
            },
            Err(error) => icb_state(inherited@, descriptor, *fill) == Err::<
                RenderEncoderView,
                ReplacementRenderIcbDrawError,
            >(error),
        },
{
    if fill.object_threadgroup_memory.len() != 0 {
        return Err(ReplacementRenderIcbDrawError::ObjectThreadgroupMemory);
    }
    let mut render = copy_state(inherited);
    if descriptor.inherit_pipeline_state {
        if fill.pipeline_ref != 0 {
            return Err(ReplacementRenderIcbDrawError::InheritedPipelineOverride);
        }
    } else {
        render.pipeline_ref = fill.pipeline_ref;
    }
    if render.pipeline_ref == 0 {
        return Err(ReplacementRenderIcbDrawError::PipelineMissing);
    }
    if descriptor.inherit_buffers {
        if fill.buffers.len() != 0 {
            return Err(ReplacementRenderIcbDrawError::InheritedBuffersOverride);
        }
        return Ok(render);
    }
    render.vertex_buffers = make_table(MAX_BUFFER_BIND_SLOTS);
    render.fragment_buffers = make_table(MAX_BUFFER_BIND_SLOTS);
    let ghost bare = render@;
    assert(icb_state(inherited@, descriptor, *fill) == with_icb_buffers(bare, fill.buffers@));
    let mut i: usize = 0;
    while i < fill.buffers.len()
        invariant
            i <= fill.buffers@.len(),
            render@.wf(),
            icb_state(inherited@, descriptor, *fill) == with_icb_buffers(bare, fill.buffers@),
            with_icb_buffers(bare, fill.buffers@.take(i as int)) == Ok::<
                RenderEncoderView,
                ReplacementRenderIcbDrawError,
            >(render@),
        decreases fill.buffers.len() - i,
    {
        assert(fill.buffers@.take(i as int + 1).drop_last() =~= fill.buffers@.take(i as int));
        if let Err(error) = bind_icb_buffer(&mut render, fill.buffers[i]) {
            proof {
                lemma_icb_buffer_refusal_of_a_prefix(bare, fill.buffers@, i as int + 1);
            }
            return Err(error);
        }
        i += 1;
    }
    assert(fill.buffers@.take(i as int) =~= fill.buffers@);
    Ok(render)
}

fn resolve_icb_arguments(draw: IcbRenderDraw) -> (arguments: Result<
    DrawArguments,
    ReplacementRenderIcbDrawError,
>)
    ensures
        arguments == icb_arguments(draw),
{
    match draw {
        IcbRenderDraw::Primitives {
            primitive_type,
            vertex_start,
            vertex_count,
            instance_count,
            base_instance,
        } => {
            if vertex_start > u32::MAX as u64 || vertex_count > u32::MAX as u64 || instance_count
                > u32::MAX as u64 || base_instance > u32::MAX as u64 {
                return Err(ReplacementRenderIcbDrawError::GeometryOutOfRange);
            }
            Ok(
                DrawArguments {
                    indirect: false,
                    primitive_type: primitive_type as u32,
                    vertex_start: vertex_start as u32,
                    vertex_count: vertex_count as u32,
                    instance_count: instance_count as u32,
                    base_instance: base_instance as u32,
                    base_vertex: 0,
                    index_type: 0,
                    index_count: 0,
                    index_buffer_ref: 0,
                    index_buffer_offset: 0,
                    indirect_buffer_ref: 0,
                    indirect_buffer_offset: 0,
                },
            )
        },
        IcbRenderDraw::Indexed {
            primitive_type,
            index_type,
            index_buffer_ref,
            index_count,
            index_buffer_offset,
            instance_count,
            base_vertex,
            base_instance,
        } => {
            if index_count > u32::MAX as u64 || instance_count > u32::MAX as u64 || base_instance
                > u32::MAX as u64 {
                return Err(ReplacementRenderIcbDrawError::GeometryOutOfRange);
            }
            Ok(
                DrawArguments {
                    indirect: false,
                    primitive_type: primitive_type as u32,
                    vertex_start: 0,
                    vertex_count: 0,
                    instance_count: instance_count as u32,
                    base_instance: base_instance as u32,
                    base_vertex,
                    index_type: index_type as u32,
                    index_count: index_count as u32,
                    index_buffer_ref,
                    index_buffer_offset,
                    indirect_buffer_ref: 0,
                    indirect_buffer_offset: 0,
                },
            )
        },
        _ => Err(ReplacementRenderIcbDrawError::UnsupportedDraw),
    }
}

/// The view of what a render command resolves to.
pub open spec fn icb_draw_result(
    result: Result<Option<ResolvedRenderDispatch>, ReplacementRenderIcbDrawError>,
) -> Result<Option<RenderDispatchView>, ReplacementRenderIcbDrawError> {
    match result {
        Err(error) => Err(error),
        Ok(None) => Ok(None),
        Ok(Some(dispatch)) => Ok(Some(dispatch@)),
    }
}

/// Resolves a render command under the encoder that executes it.
pub fn resolve_render_icb_draw(
    session: &ReplacementRuntimeSession,
    inherited: &ReplacementRenderEncoderState,
    descriptor: IndirectCommandBufferDescriptor,
    fill: &IcbRenderFill,
) -> (dispatch: Result<Option<ResolvedRenderDispatch>, ReplacementRenderIcbDrawError>)
    requires
        inherited@.wf(),
    ensures
        icb_draw_result(dispatch) == icb_draw(*session, inherited@, descriptor, *fill),
{
    let render = match resolve_icb_state(inherited, descriptor, fill) {
        Ok(render) => render,
        Err(error) => {
            return Err(error);
        },
    };
    let arguments = match resolve_icb_arguments(fill.draw) {
        Ok(arguments) => arguments,
        Err(error) => {
            return Err(error);
        },
    };
    match resolve_encoder_draw(session, &render, &arguments) {
        Err(error) => Err(ReplacementRenderIcbDrawError::Draw(error)),
        Ok(None) => Ok(None),
        Ok(Some(mut dispatch)) => {
            dispatch.begins_encoder = false;
            dispatch.ends_encoder = false;
            Ok(Some(dispatch))
        },
    }
}

/// What one slot of a render run stands for.
pub open spec fn render_slot(
    session: ReplacementRuntimeSession,
    inherited: RenderEncoderView,
    descriptor: IndirectCommandBufferDescriptor,
    slot: DecodedIcbCommandSlot,
) -> Result<(u64, Option<RenderDispatchView>), ReplacementRenderIcbPopulationError> {
    match slot.command {
        None => Ok((slot.command_index, None)),
        Some(IcbCommandFill::Compute(_)) => Err(
            ReplacementRenderIcbPopulationError::ComputeCommandInRenderEncoder {
                index: slot.command_index,
            },
        ),
        Some(IcbCommandFill::Render(fill)) => match icb_draw(
            session,
            inherited,
            descriptor,
            fill,
        ) {
            Err(reason) => Err(
                ReplacementRenderIcbPopulationError::Draw { index: slot.command_index, reason },
            ),
            Ok(dispatch) => Ok((slot.command_index, dispatch)),
        },
    }
}

/// What the slots of a render run stand for, in order, or the first refusal.
pub open spec fn render_slots(
    session: ReplacementRuntimeSession,
    inherited: RenderEncoderView,
    descriptor: IndirectCommandBufferDescriptor,
    slots: Seq<DecodedIcbCommandSlot>,
) -> Result<Seq<(u64, Option<RenderDispatchView>)>, ReplacementRenderIcbPopulationError>
    decreases slots.len(),
{
    if slots.len() == 0 {
        Ok(Seq::empty())
    } else {
        match render_slots(session, inherited, descriptor, slots.drop_last()) {
            Err(error) => Err(error),
            Ok(done) => match render_slot(session, inherited, descriptor, slots.last()) {
                Err(error) => Err(error),
                Ok(slot) => Ok(done.push(slot)),
            },
        }
    }
}

/// What a render run stands for under a projection's state.
pub open spec fn render_run(
    session: ReplacementRuntimeSession,
    s: ProjectionStateView,
    read: ReplacementIcbCommandMemoryRead,
    slots: Seq<DecodedIcbCommandSlot>,
) -> Result<Seq<(u64, Option<RenderDispatchView>)>, ReplacementRenderIcbPopulationError> {
    if !slots_are_the_run(read.range, slots) {
        Err(ReplacementRenderIcbPopulationError::DecodedRangeMismatch)
    } else {
        match s.render {
            None => Err(ReplacementRenderIcbPopulationError::OutsideEncoder),
            Some(inherited) => render_slots(session, inherited, read.descriptor, slots),
        }
    }
}

proof fn lemma_render_slot_refusal_of_a_prefix(
    session: ReplacementRuntimeSession,
    inherited: RenderEncoderView,
    descriptor: IndirectCommandBufferDescriptor,
    slots: Seq<DecodedIcbCommandSlot>,
    n: int,
)
    requires
        0 <= n <= slots.len(),
        render_slots(session, inherited, descriptor, slots.take(n)) is Err,
    ensures
        render_slots(session, inherited, descriptor, slots) == render_slots(
            session,
            inherited,
            descriptor,
            slots.take(n),
        ),
    decreases slots.len() - n,
{
    if n == slots.len() {
        assert(slots.take(n) =~= slots);
    } else {
        assert(slots.take(n + 1).drop_last() =~= slots.take(n));
        lemma_render_slot_refusal_of_a_prefix(session, inherited, descriptor, slots, n + 1);
    }
}

/// The contents of a batch of render commands.
pub open spec fn batch_view(batch: Seq<(u64, Option<ResolvedRenderDispatch>)>) -> Seq<
    (u64, Option<RenderDispatchView>),
> {
    Seq::new(
        batch.len(),
        |i: int| (batch[i].0, slot_view(batch[i].1)),
    )
}

/// The contents of a slot.
pub open spec fn slot_view(slot: Option<ResolvedRenderDispatch>) -> Option<RenderDispatchView> {
    match slot {
        Some(dispatch) => Some(dispatch@),
        None => None,
    }
}

/// A run of render commands that has been stored in its buffer, to be executed.
#[derive(Debug, PartialEq, Eq)]
pub struct ReplacementPopulatedRenderIcb {
    /// Stands for what the buffer held in these slots before.
    pub prior: u64,
    pub batch: Vec<(u64, Option<ResolvedRenderDispatch>)>,
    pub execution: ResolvedIndirectCommand,
}

/// What contracts say of a run of render commands.
#[verifier::ext_equal]
pub struct PopulatedRenderView {
    pub prior: u64,
    pub batch: Seq<(u64, Option<RenderDispatchView>)>,
    pub execution: ResolvedIndirectCommand,
}

impl View for ReplacementPopulatedRenderIcb {
    type V = PopulatedRenderView;

    open spec fn view(&self) -> PopulatedRenderView {
        PopulatedRenderView {
            prior: self.prior,
            batch: batch_view(self.batch@),
            execution: self.execution,
        }
    }
}

/// What storing and executing a render run comes to. It is stored only where
/// all of it resolves.
pub open spec fn render_population(
    session: ReplacementRuntimeSession,
    s: ProjectionStateView,
    read: ReplacementIcbCommandMemoryRead,
    slots: Seq<DecodedIcbCommandSlot>,
) -> Result<PopulatedRenderView, ReplacementRenderIcbPopulationError> {
    match render_run(session, s, read, slots) {
        Err(error) => Err(error),
        Ok(batch) => match session.icb_store(s.stores, read.identity, read.range) {
            Err(reason) => Err(ReplacementRenderIcbPopulationError::Population(reason)),
            Ok(prior) => Ok(
                PopulatedRenderView {
                    prior,
                    batch,
                    execution: ResolvedIndirectCommand::Execute {
                        icb: read.identity,
                        range: read.range,
                        kind: IndirectCommandExecutionKind::Render,
                    },
                },
            ),
        },
    }
}

/// Resolves a run of render commands under the open render encoder, to be
/// stored.
pub fn resolve_render_run(
    session: &ReplacementRuntimeSession,
    state: &ReplacementRecordProjectionState,
    read: &ReplacementIcbCommandMemoryRead,
    slots: &Vec<DecodedIcbCommandSlot>,
) -> (batch: Result<
    Vec<(u64, Option<ResolvedRenderDispatch>)>,
    ReplacementRenderIcbPopulationError,
>)
    requires
        state@.wf(),
    ensures
        match batch {
            Ok(batch) => render_run(*session, state@, *read, slots@) == Ok::<
                Seq<(u64, Option<RenderDispatchView>)>,
                ReplacementRenderIcbPopulationError,
            >(batch_view(batch@)),
            Err(error) => render_run(*session, state@, *read, slots@) == Err::<
                Seq<(u64, Option<RenderDispatchView>)>,
                ReplacementRenderIcbPopulationError,
            >(error),
        },
{
    if !are_the_run(read.range, slots) {
        return Err(ReplacementRenderIcbPopulationError::DecodedRangeMismatch);
    }
    let inherited = match state.render() {
        Some(inherited) => inherited,
        None => {
            return Err(ReplacementRenderIcbPopulationError::OutsideEncoder);
        },
    };
    let mut batch: Vec<(u64, Option<ResolvedRenderDispatch>)> = Vec::new();
    assert(batch_view(batch@) =~= Seq::empty());
    let mut i: usize = 0;
    while i < slots.len()
        invariant
            i <= slots@.len(),
            inherited@.wf(),
            slots_are_the_run(read.range, slots@),
            state@.render == Some(inherited@),
            render_slots(*session, inherited@, read.descriptor, slots@.take(i as int)) == Ok::<
                Seq<(u64, Option<RenderDispatchView>)>,
                ReplacementRenderIcbPopulationError,
            >(batch_view(batch@)),
        decreases slots.len() - i,
    {
        let index: u64 = slots[i].command_index;
        assert(slots@.take(i as int + 1).drop_last() =~= slots@.take(i as int));
        let resolved = match &slots[i].command {
            None => Ok(None),
            Some(IcbCommandFill::Compute(_)) => Err(
                ReplacementRenderIcbPopulationError::ComputeCommandInRenderEncoder { index },
            ),
            Some(IcbCommandFill::Render(fill)) => {
                match resolve_render_icb_draw(session, inherited, read.descriptor, fill) {
                    Ok(dispatch) => Ok(dispatch),
                    Err(reason) => Err(
                        ReplacementRenderIcbPopulationError::Draw { index, reason },
                    ),
                }
            },
        };
        match resolved {
            Ok(dispatch) => {
                let ghost before = batch@;
                let ghost added = (index, slot_view(dispatch));
                batch.push((index, dispatch));
                assert(batch_view(batch@) =~= batch_view(before).push(added));
            },
            Err(error) => {
                proof {
                    lemma_render_slot_refusal_of_a_prefix(
                        *session,
                        inherited@,
                        read.descriptor,
                        slots@,
                        i as int + 1,
                    );
                }
                return Err(error);
            },
        }
        i += 1;
    }
    assert(slots@.take(i as int) =~= slots@);
    Ok(batch)
}

/// Resolves a run of render commands under the open render encoder, and stores
/// it. A refused run stores nothing.
pub fn populate_decoded_render_icb(
    session: &ReplacementRuntimeSession,
    state: &mut ReplacementRecordProjectionState,
    read: &ReplacementIcbCommandMemoryRead,
    slots: &Vec<DecodedIcbCommandSlot>,
) -> (populated: Result<ReplacementPopulatedRenderIcb, ReplacementRenderIcbPopulationError>)
    requires
        old(state)@.wf(),
    ensures
        match populated {
            Ok(populated) => {
                &&& render_population(*session, old(state)@, *read, slots@) == Ok::<
                    PopulatedRenderView,
                    ReplacementRenderIcbPopulationError,
                >(populated@)
                &&& final(state)@ == with_store(old(state)@)
            },
            Err(error) => {
                &&& render_population(*session, old(state)@, *read, slots@) == Err::<
                    PopulatedRenderView,
                    ReplacementRenderIcbPopulationError,
                >(error)
                &&& final(state)@ == old(state)@
            },
        },
{
    let batch = match resolve_render_run(session, state, read, slots) {
        Ok(batch) => batch,
        Err(error) => {
            return Err(error);
        },
    };
    let prior = match session.resolve_icb_store(state.stores, read.identity, read.range) {
        Ok(prior) => prior,
        Err(reason) => {
            return Err(ReplacementRenderIcbPopulationError::Population(reason));
        },
    };
    state.stores = state.stores + 1;
    Ok(
        ReplacementPopulatedRenderIcb {
            prior,
            batch,
            execution: ResolvedIndirectCommand::Execute {
                icb: read.identity,
                range: read.range,
                kind: IndirectCommandExecutionKind::Render,
            },
        },
    )
}

/// The run that a render record executes.
pub open spec fn render_icb_query(c: RenderCommand) -> IcbReadQuery {
    IcbReadQuery {
        reference: c.indirect_command_buffer_ref,
        range: IndirectCommandRange {
            location: c.icb_range_location,
            length: c.icb_range_length,
        },
    }
}

/// What a record that executes render commands stands for.
pub open spec fn render_icb_execution(
    session: ReplacementRuntimeSession,
    s: ProjectionStateView,
    c: RenderCommand,
) -> Result<PopulatedRenderView, ReplacementRenderIcbExecutionError> {
    if !c.icb_is_range {
        Err(ReplacementRenderIcbExecutionError::IndirectRangeRequiresAsynchronousReadback)
    } else {
        match answer_of(session.icb_reads@, render_icb_query(c)) {
            None => Err(ReplacementRenderIcbExecutionError::Unanswered(render_icb_query(c))),
            Some(IcbReadAnswer::ReadPlan(reason)) => Err(
                ReplacementRenderIcbExecutionError::ReadPlan(reason),
            ),
            Some(IcbReadAnswer::Transport(reason)) => Err(
                ReplacementRenderIcbExecutionError::Transport(reason),
            ),
            Some(IcbReadAnswer::Decode(reason)) => Err(
                ReplacementRenderIcbExecutionError::Decode(reason),
            ),
            Some(IcbReadAnswer::Read { read, slots }) => match render_population(
                session,
                s,
                read,
                slots@,
            ) {
                Err(error) => Err(ReplacementRenderIcbExecutionError::Population(error)),
                Ok(populated) => Ok(populated),
            },
        }
    }
}

/// Resolves a record that executes render commands, and stores them. A refused
/// record stores nothing.
pub fn resolve_render_icb_execution(
    session: &ReplacementRuntimeSession,
    state: &mut ReplacementRecordProjectionState,
    command: &RenderCommand,
) -> (populated: Result<ReplacementPopulatedRenderIcb, ReplacementRenderIcbExecutionError>)
    requires
        old(state)@.wf(),
    ensures
        match populated {
            Ok(populated) => {
                &&& render_icb_execution(*session, old(state)@, *command) == Ok::<
                    PopulatedRenderView,
                    ReplacementRenderIcbExecutionError,
                >(populated@)
                &&& final(state)@ == with_store(old(state)@)
            },
            Err(error) => {
                &&& render_icb_execution(*session, old(state)@, *command) == Err::<
                    PopulatedRenderView,
                    ReplacementRenderIcbExecutionError,
                >(error)
                &&& final(state)@ == old(state)@
            },
        },
{
    if !command.icb_is_range {
        return Err(ReplacementRenderIcbExecutionError::IndirectRangeRequiresAsynchronousReadback);
    }
    let query = IcbReadQuery {
        reference: command.indirect_command_buffer_ref,
        range: IndirectCommandRange {
            location: command.icb_range_location,
            length: command.icb_range_length,
        },
    };
    match session.resolve_icb_read(query) {
        None => Err(ReplacementRenderIcbExecutionError::Unanswered(query)),
        Some(IcbReadAnswer::ReadPlan(reason)) => Err(
            ReplacementRenderIcbExecutionError::ReadPlan(*reason),
        ),
        Some(IcbReadAnswer::Transport(reason)) => Err(
            ReplacementRenderIcbExecutionError::Transport(*reason),
        ),
        Some(IcbReadAnswer::Decode(reason)) => Err(
            ReplacementRenderIcbExecutionError::Decode(*reason),
        ),
        Some(IcbReadAnswer::Read { read, slots }) => {
            match populate_decoded_render_icb(session, state, read, slots) {
                Ok(populated) => Ok(populated),
                Err(error) => Err(ReplacementRenderIcbExecutionError::Population(error)),
            }
        },
    }
}

// What a command comes to.

/// Whether a draw record states what a command does.
pub open spec fn states_the_same(c: RenderCommand, draw: IcbRenderDraw) -> bool {
    &&& c.kind is Draw
    &&& match draw {
        IcbRenderDraw::Primitives {
            primitive_type,
            vertex_start,
            vertex_count,
            instance_count,
            base_instance,
        } => {
            &&& c.primitive_type == primitive_type
            &&& c.vertex_start == vertex_start && c.vertex_count == vertex_count
            &&& c.instance_count == instance_count && c.base_instance == base_instance
            &&& c.base_vertex == 0 && c.index_type == 0 && c.index_count == 0
            &&& c.index_buffer_ref == 0 && c.index_buffer_offset == 0
            &&& c.indirect_buffer_ref == 0 && c.indirect_buffer_offset == 0
        },
        IcbRenderDraw::Indexed {
            primitive_type,
            index_type,
            index_buffer_ref,
            index_count,
            index_buffer_offset,
            instance_count,
            base_vertex,
            base_instance,
        } => {
            &&& c.primitive_type == primitive_type
            &&& c.index_type == index_type && c.index_count == index_count
            &&& c.index_buffer_ref == index_buffer_ref
            &&& c.index_buffer_offset == index_buffer_offset
            &&& c.instance_count == instance_count && c.base_instance == base_instance
            &&& c.base_vertex == base_vertex && c.vertex_start == 0 && c.vertex_count == 0
            &&& c.indirect_buffer_ref == 0 && c.indirect_buffer_offset == 0
        },
        _ => false,
    }
}

/// A command that takes all its state from the encoder draws as the draw record
/// that states the same does outside a buffer, save that it neither begins nor
/// ends the encoder; it is refused where that record is.
#[verifier::spinoff_prover]
pub proof fn lemma_a_command_draws_as_its_record(
    session: ReplacementRuntimeSession,
    s: ProjectionStateView,
    descriptor: IndirectCommandBufferDescriptor,
    fill: IcbRenderFill,
    c: RenderCommand,
)
    requires
        s.render is Some,
        s.render->0.pipeline_ref != 0,
        descriptor.inherit_pipeline_state,
        descriptor.inherit_buffers,
        fill.pipeline_ref == 0,
        fill.buffers@.len() == 0,
        fill.object_threadgroup_memory@.len() == 0,
        states_the_same(c, fill.draw),
    ensures
        match (icb_draw(session, s.render->0, descriptor, fill), project_draw(session, s, c)) {
            (Ok(Some(drawn)), Ok(Some(stated))) => {
                &&& drawn.pipeline == stated.pipeline
                &&& drawn.vertex_program == stated.vertex_program
                &&& drawn.fragment_program == stated.fragment_program
                &&& drawn.depth_stencil == stated.depth_stencil
                &&& drawn.render_extent == stated.render_extent
                &&& drawn.raster == stated.raster
                &&& drawn.visibility == stated.visibility
                &&& drawn.draw == stated.draw
                &&& drawn.vertex_buffers == stated.vertex_buffers
                &&& drawn.attachments == stated.attachments
                &&& drawn.resources == stated.resources
                &&& drawn.null_bindings == stated.null_bindings
                &&& drawn.samplers == stated.samplers
                &&& !drawn.begins_encoder && !drawn.ends_encoder
            },
            (Ok(None), Ok(None)) => true,
            (Err(ReplacementRenderIcbDrawError::Draw(refusal)), Err(stated)) => refusal == stated,
            _ => false,
        },
{
    let stated = draw_arguments(c);
    assert(icb_arguments(fill.draw) == Ok::<DrawArguments, ReplacementRenderIcbDrawError>(stated));
    assert(icb_state(s.render->0, descriptor, fill) == Ok::<
        RenderEncoderView,
        ReplacementRenderIcbDrawError,
    >(s.render->0));
}

/// Whether a dispatch draws what a command states: its own primitive, vertices or
/// indices and instances.
pub open spec fn draws_as_stated(
    session: ReplacementRuntimeSession,
    draw: IcbRenderDraw,
    dispatch: RenderDispatchView,
) -> bool {
    match draw {
        IcbRenderDraw::Primitives {
            primitive_type,
            vertex_start,
            vertex_count,
            instance_count,
            base_instance,
        } => {
            &&& dispatch.draw matches ResolvedRenderDraw::Direct {
                topology,
                vertex_count: vertices,
                instance_count: instances,
                first_vertex,
                first_instance,
            }
            &&& primitive_topology_of(primitive_type as u32) == Some(topology)
            &&& first_vertex == vertex_start
            &&& vertices == vertex_count && vertices > 0
            &&& instances == instance_count && instances > 0
            &&& first_instance == base_instance
            &&& fetches_none(dispatch.resources, RenderBindingClass::IndexBuffer)
            &&& fetches_none(dispatch.resources, RenderBindingClass::IndirectBuffer)
        },
        IcbRenderDraw::Indexed {
            primitive_type,
            index_type,
            index_buffer_ref,
            index_count,
            index_buffer_offset,
            instance_count,
            base_vertex,
            base_instance,
        } => {
            &&& dispatch.draw matches ResolvedRenderDraw::Indexed {
                topology,
                index_type: index,
                index_count: indices,
                instance_count: instances,
                first_index,
                vertex_offset,
                first_instance,
            }
            &&& primitive_topology_of(primitive_type as u32) == Some(topology)
            &&& index_type_of(index_type as u32) == Some(index)
            &&& indices == index_count && indices > 0
            &&& instances == instance_count && instances > 0
            &&& first_index == 0
            &&& vertex_offset == base_vertex
            &&& first_instance == base_instance
            &&& fetches_one(
                session,
                dispatch.resources,
                RenderBindingClass::IndexBuffer,
                BufferQuery {
                    reference: index_buffer_ref,
                    offset: index_buffer_offset,
                    length: Some((index_count * index_bytes(index)) as u64),
                },
            )
            &&& fetches_none(dispatch.resources, RenderBindingClass::IndirectBuffer)
        },
        _ => false,
    }
}

proof fn lemma_stated_geometry(
    session: ReplacementRuntimeSession,
    state: RenderEncoderView,
    draw: IcbRenderDraw,
    arguments: DrawArguments,
    dispatch: RenderDispatchView,
)
    requires
        icb_arguments(draw) == Ok::<DrawArguments, ReplacementRenderIcbDrawError>(arguments),
        encoder_draw(session, state, arguments) == Ok::<
            Option<RenderDispatchView>,
            ReplacementRenderDrawResolutionError,
        >(Some(dispatch)),
    ensures
        draws_as_stated(session, draw, dispatch),
{
    lemma_a_draw_draws_its_stated_geometry(session, state, arguments);
    lemma_a_draw_reads_its_stated_memory(session, state, arguments);
}

/// What a command draws is what it states: its own primitive, vertices or
/// indices and instances. A number that a draw cannot hold is refused, and so
/// is any other kind of draw.
#[verifier::spinoff_prover]
pub proof fn lemma_a_command_draws_its_stated_geometry(
    session: ReplacementRuntimeSession,
    inherited: RenderEncoderView,
    descriptor: IndirectCommandBufferDescriptor,
    fill: IcbRenderFill,
)
    ensures
        match icb_draw(session, inherited, descriptor, fill) {
            Ok(Some(dispatch)) => draws_as_stated(session, fill.draw, dispatch),
            Ok(None) => match fill.draw {
                IcbRenderDraw::Primitives { vertex_count, instance_count, .. } => vertex_count == 0
                    || instance_count == 0,
                IcbRenderDraw::Indexed { index_count, instance_count, .. } => index_count == 0
                    || instance_count == 0,
                _ => false,
            },
            Err(ReplacementRenderIcbDrawError::GeometryOutOfRange) => match fill.draw {
                IcbRenderDraw::Primitives {
                    vertex_start,
                    vertex_count,
                    instance_count,
                    base_instance,
                    ..
                } => vertex_start > u32::MAX || vertex_count > u32::MAX || instance_count > u32::MAX
                    || base_instance > u32::MAX,
                IcbRenderDraw::Indexed { index_count, instance_count, base_instance, .. } =>
                index_count > u32::MAX || instance_count > u32::MAX || base_instance > u32::MAX,
                _ => false,
            },
            Err(ReplacementRenderIcbDrawError::UnsupportedDraw) => !(fill.draw is Primitives
                || fill.draw is Indexed),
            Err(_) => true,
        },
{
    lemma_buffer_refusals(
        RenderEncoderView {
            pipeline_ref: if descriptor.inherit_pipeline_state {
                inherited.pipeline_ref
            } else {
                fill.pipeline_ref
            },
            vertex_buffers: empty_table(MAX_BUFFER_BIND_SLOTS as nat),
            fragment_buffers: empty_table(MAX_BUFFER_BIND_SLOTS as nat),
            ..inherited
        },
        fill.buffers@,
    );
    if let Ok(Some(dispatch)) = icb_draw(session, inherited, descriptor, fill) {
        let state = icb_state(inherited, descriptor, fill)->Ok_0;
        let arguments = icb_arguments(fill.draw)->Ok_0;
        let stated = encoder_draw(session, state, arguments)->Ok_0->0;
        lemma_stated_geometry(session, state, fill.draw, arguments, stated);
        assert(draws_as_stated(session, fill.draw, stated));
    }
}

proof fn lemma_buffer_refusals(s: RenderEncoderView, bindings: Seq<IcbRenderBuffer>)
    ensures
        match with_icb_buffers(s, bindings) {
            Ok(_) => forall|i: int|
                0 <= i < bindings.len() ==> (#[trigger] bindings[i]).index < MAX_BUFFER_BIND_SLOTS
                    && (bindings[i].stage is Vertex || bindings[i].stage is Fragment),
            Err(ReplacementRenderIcbDrawError::ObjectOrMeshBuffer) => exists|i: int|
                0 <= i < bindings.len() && ((#[trigger] bindings[i]).stage is Object
                    || bindings[i].stage is Mesh),
            Err(ReplacementRenderIcbDrawError::BufferIndexOverflow(index)) => exists|i: int|
                0 <= i < bindings.len() && (#[trigger] bindings[i]).index == index && index
                    >= MAX_BUFFER_BIND_SLOTS,
            Err(_) => false,
        },
    decreases bindings.len(),
{
    if bindings.len() > 0 {
        let earlier = bindings.drop_last();
        lemma_buffer_refusals(s, earlier);
        assert forall|i: int| 0 <= i < earlier.len() implies #[trigger] earlier[i] == bindings[i] by {}
        assert(bindings[bindings.len() - 1] == bindings.last());
        assert forall|i: int| 0 <= i < bindings.len() && i != bindings.len() - 1 implies
            #[trigger] bindings[i] == earlier[i] by {}
    }
}

/// Whether a table holds what the last of some binds to each slot of a stage
/// states, and nothing in the slots that none of them names.
#[verifier::opaque]
pub open spec fn holds_the_last_binds(
    table: Seq<Option<ReplacementRenderBufferBinding>>,
    stage: IcbRenderBindStage,
    bindings: Seq<IcbRenderBuffer>,
) -> bool {
    &&& table.len() == MAX_BUFFER_BIND_SLOTS
    &&& forall|slot: int|
        0 <= slot < table.len() && (forall|i: int|
            0 <= i < bindings.len() ==> !((#[trigger] bindings[i]).stage == stage
                && bindings[i].index == slot)) ==> (#[trigger] table[slot]) is None
    &&& forall|i: int|
        #![trigger bindings[i]]
        0 <= i < bindings.len() && bindings[i].stage == stage && (forall|j: int|
            i < j < bindings.len() ==> !((#[trigger] bindings[j]).stage == stage
                && bindings[j].index == bindings[i].index)) ==> {
            let held = table[bindings[i].index as int];
            &&& bindings[i].index < table.len()
            &&& bindings[i].buffer_ref == 0 ==> held is None
            &&& bindings[i].buffer_ref != 0 ==> {
                &&& held matches Some(buffer)
                &&& buffer.reference == bindings[i].buffer_ref
                &&& buffer.offset == bindings[i].offset
                &&& bindings[i].has_attribute_stride ==> buffer.attribute_stride == Some(
                    bindings[i].attribute_stride,
                )
                &&& !bindings[i].has_attribute_stride ==> buffer.attribute_stride is None
            }
        }
}

proof fn lemma_binds_leave_the_rest(s: RenderEncoderView, bindings: Seq<IcbRenderBuffer>)
    ensures
        match with_icb_buffers(s, bindings) {
            Ok(state) => state == (RenderEncoderView {
                vertex_buffers: state.vertex_buffers,
                fragment_buffers: state.fragment_buffers,
                ..s
            }),
            Err(_) => true,
        },
    decreases bindings.len(),
{
    if bindings.len() > 0 {
        lemma_binds_leave_the_rest(s, bindings.drop_last());
    }
}

proof fn lemma_last_binds(s: RenderEncoderView, bindings: Seq<IcbRenderBuffer>)
    requires
        s.vertex_buffers == empty_table::<ReplacementRenderBufferBinding>(
            MAX_BUFFER_BIND_SLOTS as nat,
        ),
        s.fragment_buffers == empty_table::<ReplacementRenderBufferBinding>(
            MAX_BUFFER_BIND_SLOTS as nat,
        ),
    ensures
        match with_icb_buffers(s, bindings) {
            Ok(state) => holds_the_last_binds(
                state.vertex_buffers,
                IcbRenderBindStage::Vertex,
                bindings,
            ) && holds_the_last_binds(
                state.fragment_buffers,
                IcbRenderBindStage::Fragment,
                bindings,
            ),
            Err(_) => true,
        },
    decreases bindings.len(),
{
    if bindings.len() == 0 {
        lemma_no_binds(IcbRenderBindStage::Vertex, bindings);
        lemma_no_binds(IcbRenderBindStage::Fragment, bindings);
    } else {
        let earlier = bindings.drop_last();
        let last = bindings.last();
        lemma_last_binds(s, earlier);
        if let (Ok(before), Ok(state)) = (
            with_icb_buffers(s, earlier),
            with_icb_buffers(s, bindings),
        ) {
            assert(with_icb_buffer(before, last) == Ok::<
                RenderEncoderView,
                ReplacementRenderIcbDrawError,
            >(state));
            lemma_one_more_bind(
                before.vertex_buffers,
                state.vertex_buffers,
                IcbRenderBindStage::Vertex,
                bindings,
            );
            lemma_one_more_bind(
                before.fragment_buffers,
                state.fragment_buffers,
                IcbRenderBindStage::Fragment,
                bindings,
            );
        }
    }
}

proof fn lemma_no_binds(stage: IcbRenderBindStage, bindings: Seq<IcbRenderBuffer>)
    requires
        bindings.len() == 0,
    ensures
        holds_the_last_binds(empty_table(MAX_BUFFER_BIND_SLOTS as nat), stage, bindings),
{
    reveal(holds_the_last_binds);
}

proof fn lemma_one_more_bind(
    before: Seq<Option<ReplacementRenderBufferBinding>>,
    after: Seq<Option<ReplacementRenderBufferBinding>>,
    stage: IcbRenderBindStage,
    bindings: Seq<IcbRenderBuffer>,
)
    requires
        bindings.len() > 0,
        bindings.last().index < MAX_BUFFER_BIND_SLOTS,
        holds_the_last_binds(before, stage, bindings.drop_last()),
        bindings.last().stage == stage ==> after == before.update(
            bindings.last().index as int,
            icb_buffer_entry(bindings.last()),
        ),
        bindings.last().stage != stage ==> after == before,
    ensures
        holds_the_last_binds(after, stage, bindings),
{
    reveal(holds_the_last_binds);
    let earlier = bindings.drop_last();
    let last = bindings.len() - 1;
    assert forall|i: int| 0 <= i < earlier.len() implies #[trigger] earlier[i] == bindings[i] by {}
    assert forall|slot: int|
        0 <= slot < after.len() && (forall|i: int|
            0 <= i < bindings.len() ==> !((#[trigger] bindings[i]).stage == stage
                && bindings[i].index == slot)) implies (#[trigger] after[slot]) is None by {
        assert(!(bindings[last].stage == stage && bindings[last].index == slot));
        assert forall|i: int| 0 <= i < earlier.len() implies !((#[trigger] earlier[i]).stage
            == stage && earlier[i].index == slot) by {
            assert(earlier[i] == bindings[i]);
        }
        assert(before[slot] is None);
    }
    assert forall|i: int|
        #![trigger bindings[i]]
        0 <= i < bindings.len() && bindings[i].stage == stage && (forall|j: int|
            i < j < bindings.len() ==> !((#[trigger] bindings[j]).stage == stage
                && bindings[j].index == bindings[i].index)) implies {
        let held = after[bindings[i].index as int];
        &&& bindings[i].index < after.len()
        &&& bindings[i].buffer_ref == 0 ==> held is None
        &&& bindings[i].buffer_ref != 0 ==> {
            &&& held matches Some(buffer)
            &&& buffer.reference == bindings[i].buffer_ref
            &&& buffer.offset == bindings[i].offset
            &&& bindings[i].has_attribute_stride ==> buffer.attribute_stride == Some(
                bindings[i].attribute_stride,
            )
            &&& !bindings[i].has_attribute_stride ==> buffer.attribute_stride is None
        }
    } by {
        if i < last {
            assert(earlier[i] == bindings[i]);
            assert(!(bindings[last].stage == stage && bindings[last].index == bindings[i].index));
            assert forall|j: int| i < j < earlier.len() implies !((#[trigger] earlier[j]).stage
                == stage && earlier[j].index == earlier[i].index) by {
                assert(earlier[j] == bindings[j]);
            }
        }
    }
}

/// A command draws under its encoder's state. Where its buffer says so it brings
/// its own pipeline, and its own buffers: each slot then holds what the last
/// bind to it states, and the slots that it does not name are empty, whatever
/// the encoder holds. All else is the encoder's.
pub proof fn lemma_a_command_draws_under_its_encoders_state(
    inherited: RenderEncoderView,
    descriptor: IndirectCommandBufferDescriptor,
    fill: IcbRenderFill,
)
    ensures
        match icb_state(inherited, descriptor, fill) {
            Ok(state) => {
                &&& state.pipeline_ref != 0
                &&& descriptor.inherit_pipeline_state ==> fill.pipeline_ref == 0
                    && state.pipeline_ref == inherited.pipeline_ref
                &&& !descriptor.inherit_pipeline_state ==> state.pipeline_ref == fill.pipeline_ref
                &&& descriptor.inherit_buffers ==> fill.buffers@.len() == 0 && state.vertex_buffers
                    == inherited.vertex_buffers && state.fragment_buffers
                    == inherited.fragment_buffers
                &&& !descriptor.inherit_buffers ==> holds_the_last_binds(
                    state.vertex_buffers,
                    IcbRenderBindStage::Vertex,
                    fill.buffers@,
                ) && holds_the_last_binds(
                    state.fragment_buffers,
                    IcbRenderBindStage::Fragment,
                    fill.buffers@,
                )
                &&& state == (RenderEncoderView {
                    pipeline_ref: state.pipeline_ref,
                    vertex_buffers: state.vertex_buffers,
                    fragment_buffers: state.fragment_buffers,
                    ..inherited
                })
                &&& fill.object_threadgroup_memory@.len() == 0
            },
            Err(ReplacementRenderIcbDrawError::ObjectThreadgroupMemory) =>
            fill.object_threadgroup_memory@.len() != 0,
            Err(ReplacementRenderIcbDrawError::InheritedPipelineOverride) =>
            descriptor.inherit_pipeline_state && fill.pipeline_ref != 0,
            Err(ReplacementRenderIcbDrawError::PipelineMissing) => fill.pipeline_ref == 0 && (
            descriptor.inherit_pipeline_state ==> inherited.pipeline_ref == 0),
            Err(ReplacementRenderIcbDrawError::InheritedBuffersOverride) =>
            descriptor.inherit_buffers && fill.buffers@.len() != 0,
            Err(ReplacementRenderIcbDrawError::ObjectOrMeshBuffer) => exists|i: int|
                0 <= i < fill.buffers@.len() && ((#[trigger] fill.buffers@[i]).stage is Object
                    || fill.buffers@[i].stage is Mesh),
            Err(ReplacementRenderIcbDrawError::BufferIndexOverflow(index)) => exists|i: int|
                0 <= i < fill.buffers@.len() && (#[trigger] fill.buffers@[i]).index == index
                    && index >= MAX_BUFFER_BIND_SLOTS,
            Err(_) => false,
        },
{
    let empty = RenderEncoderView {
        pipeline_ref: if descriptor.inherit_pipeline_state {
            inherited.pipeline_ref
        } else {
            fill.pipeline_ref
        },
        vertex_buffers: empty_table(MAX_BUFFER_BIND_SLOTS as nat),
        fragment_buffers: empty_table(MAX_BUFFER_BIND_SLOTS as nat),
        ..inherited
    };
    lemma_binds_leave_the_rest(empty, fill.buffers@);
    lemma_last_binds(empty, fill.buffers@);
    lemma_buffer_refusals(empty, fill.buffers@);
}

/// A command is drawn as a draw under its own state is, save that it neither
/// begins nor ends the encoder.
pub proof fn lemma_a_command_is_drawn_under_its_own_state(
    session: ReplacementRuntimeSession,
    inherited: RenderEncoderView,
    descriptor: IndirectCommandBufferDescriptor,
    fill: IcbRenderFill,
)
    ensures
        match icb_draw(session, inherited, descriptor, fill) {
            Ok(Some(drawn)) => {
                &&& icb_state(inherited, descriptor, fill) matches Ok(state)
                &&& icb_arguments(fill.draw) matches Ok(arguments)
                &&& encoder_draw(session, state, arguments) matches Ok(Some(stated))
                &&& !drawn.begins_encoder && !drawn.ends_encoder
                &&& drawn == (RenderDispatchView {
                    begins_encoder: drawn.begins_encoder,
                    ends_encoder: drawn.ends_encoder,
                    ..stated
                })
            },
            _ => true,
        },
{
}

proof fn lemma_render_slots_in_order(
    session: ReplacementRuntimeSession,
    inherited: RenderEncoderView,
    descriptor: IndirectCommandBufferDescriptor,
    slots: Seq<DecodedIcbCommandSlot>,
)
    ensures
        match render_slots(session, inherited, descriptor, slots) {
            Ok(batch) => {
                &&& batch.len() == slots.len()
                &&& forall|i: int|
                    0 <= i < batch.len() ==> {
                        let slot = #[trigger] slots[i];
                        &&& batch[i].0 == slot.command_index
                        &&& match slot.command {
                            None => batch[i].1 is None,
                            Some(IcbCommandFill::Render(fill)) => icb_draw(
                                session,
                                inherited,
                                descriptor,
                                fill,
                            ) == Ok::<Option<RenderDispatchView>, ReplacementRenderIcbDrawError>(
                                batch[i].1,
                            ),
                            Some(IcbCommandFill::Compute(_)) => false,
                        }
                    }
            },
            Err(_) => true,
        },
    decreases slots.len(),
{
    if slots.len() > 0 {
        lemma_render_slots_in_order(session, inherited, descriptor, slots.drop_last());
        if let Ok(batch) = render_slots(session, inherited, descriptor, slots) {
            let earlier = slots.drop_last();
            assert forall|i: int| 0 <= i < earlier.len() implies #[trigger] slots[i]
                == earlier[i] by {}
        }
    }
}

/// A populated run of render commands holds one entry for each slot of the run,
/// in order and under the slot's own number, each drawn as its command states;
/// it executes the run that was read, of the buffer it was read from.
pub proof fn lemma_a_render_run_is_populated_slot_by_slot(
    session: ReplacementRuntimeSession,
    s: ProjectionStateView,
    read: ReplacementIcbCommandMemoryRead,
    slots: Seq<DecodedIcbCommandSlot>,
)
    ensures
        match render_population(session, s, read, slots) {
            Ok(populated) => {
                &&& s.render matches Some(inherited)
                &&& populated.batch.len() == read.range.length
                &&& slots.len() == read.range.length
                &&& forall|i: int|
                    0 <= i < slots.len() ==> {
                        let slot = #[trigger] slots[i];
                        &&& slot.command_index == read.range.location + i
                        &&& populated.batch[i].0 == read.range.location + i
                        &&& match slot.command {
                            None => populated.batch[i].1 is None,
                            Some(IcbCommandFill::Render(fill)) => icb_draw(
                                session,
                                inherited,
                                read.descriptor,
                                fill,
                            ) == Ok::<Option<RenderDispatchView>, ReplacementRenderIcbDrawError>(
                                populated.batch[i].1,
                            ),
                            Some(IcbCommandFill::Compute(_)) => false,
                        }
                    }
                &&& populated.execution matches ResolvedIndirectCommand::Execute {
                    icb,
                    range,
                    kind,
                }
                &&& icb == read.identity && range.location == read.range.location && range.length
                    == read.range.length && kind is Render
                &&& s.stores < session.icb_stores@.len()
                &&& session.icb_stores@[s.stores as int] == (IcbStoreAnswer::Stored {
                    prior: populated.prior,
                })
            },
            Err(ReplacementRenderIcbPopulationError::DecodedRangeMismatch) => !(
            read.range.location + read.range.length <= u64::MAX && slots.len() == read.range.length
                && forall|i: int|
                0 <= i < slots.len() ==> (#[trigger] slots[i]).command_index
                    == read.range.location + i),
            Err(ReplacementRenderIcbPopulationError::OutsideEncoder) => s.render is None,
            Err(ReplacementRenderIcbPopulationError::Population(_)) => s.render is Some && !(
            s.stores < session.icb_stores@.len() && session.icb_stores@[s.stores as int] is Stored),
            Err(_) => s.render is Some,
        },
{
    if s.render is Some {
        lemma_render_slots_in_order(session, s.render->0, read.descriptor, slots);
        lemma_render_slot_refusals(session, s.render->0, read.descriptor, slots);
    }
}

proof fn lemma_render_slot_refusals(
    session: ReplacementRuntimeSession,
    inherited: RenderEncoderView,
    descriptor: IndirectCommandBufferDescriptor,
    slots: Seq<DecodedIcbCommandSlot>,
)
    ensures
        match render_slots(session, inherited, descriptor, slots) {
            Err(ReplacementRenderIcbPopulationError::ComputeCommandInRenderEncoder { index }) =>
            exists|i: int|
                0 <= i < slots.len() && (#[trigger] slots[i]).command_index == index
                    && slots[i].command is Some && slots[i].command->0 is Compute,
            Err(ReplacementRenderIcbPopulationError::Draw { index, reason }) => exists|i: int|
                0 <= i < slots.len() && (#[trigger] slots[i]).command_index == index
                    && slots[i].command is Some && slots[i].command->0 is Render && icb_draw(
                    session,
                    inherited,
                    descriptor,
                    slots[i].command->0->Render_0,
                ) == Err::<Option<RenderDispatchView>, ReplacementRenderIcbDrawError>(reason),
            Err(_) => false,
            Ok(_) => true,
        },
    decreases slots.len(),
{
    if slots.len() > 0 {
        let earlier = slots.drop_last();
        lemma_render_slot_refusals(session, inherited, descriptor, earlier);
        assert(slots[slots.len() - 1] == slots.last());
        if render_slots(session, inherited, descriptor, earlier) is Err {
            assert forall|i: int| 0 <= i < earlier.len() implies #[trigger] earlier[i]
                == slots[i] by {}
        }
    }
}

proof fn lemma_compute_slots_in_order(
    session: ReplacementRuntimeSession,
    inherited: ComputeAccumView,
    descriptor: IndirectCommandBufferDescriptor,
    slots: Seq<DecodedIcbCommandSlot>,
)
    ensures
        match compute_slots(session, inherited, descriptor, slots) {
            Ok(batch) => {
                &&& batch.len() == slots.len()
                &&& forall|i: int|
                    0 <= i < batch.len() ==> {
                        let slot = #[trigger] slots[i];
                        &&& batch[i].0 == slot.command_index
                        &&& match slot.command {
                            None => batch[i].1 is None,
                            Some(IcbCommandFill::Compute(fill)) => batch[i].1 is Some
                                && icb_dispatch(session, inherited, descriptor, fill) == Ok::<
                                ResolvedIcbDispatch,
                                ReplacementComputeDispatchResolutionError,
                            >(batch[i].1->0),
                            Some(IcbCommandFill::Render(_)) => false,
                        }
                    }
            },
            Err(ReplacementComputeIcbPopulationError::RenderCommandInComputeEncoder { index }) =>
            exists|i: int|
                0 <= i < slots.len() && (#[trigger] slots[i]).command_index == index
                    && slots[i].command is Some && slots[i].command->0 is Render,
            Err(ReplacementComputeIcbPopulationError::Dispatch { index, reason }) => exists|i: int|
                0 <= i < slots.len() && (#[trigger] slots[i]).command_index == index
                    && slots[i].command is Some && slots[i].command->0 is Compute && icb_dispatch(
                    session,
                    inherited,
                    descriptor,
                    slots[i].command->0->Compute_0,
                ) == Err::<ResolvedIcbDispatch, ReplacementComputeDispatchResolutionError>(reason),
            Err(_) => false,
        },
    decreases slots.len(),
{
    if slots.len() > 0 {
        let earlier = slots.drop_last();
        lemma_compute_slots_in_order(session, inherited, descriptor, earlier);
        assert(slots[slots.len() - 1] == slots.last());
        if compute_slots(session, inherited, descriptor, earlier) is Err {
            assert forall|i: int| 0 <= i < earlier.len() implies #[trigger] earlier[i]
                == slots[i] by {}
        } else {
            assert forall|i: int| 0 <= i < earlier.len() implies #[trigger] slots[i]
                == earlier[i] by {}
        }
    }
}

/// A populated run of compute commands holds one entry for each slot of the run,
/// in order and under the slot's own number, each launched as its command
/// states; it executes the run that was read, of the buffer it was read from,
/// with what the encoder holds.
pub proof fn lemma_a_compute_run_is_populated_slot_by_slot(
    session: ReplacementRuntimeSession,
    s: ProjectionStateView,
    read: ReplacementIcbCommandMemoryRead,
    slots: Seq<DecodedIcbCommandSlot>,
)
    ensures
        match compute_population(session, s, read, slots) {
            Ok(populated) => {
                &&& s.compute == Some(populated.inherited)
                &&& populated.batch.len() == read.range.length
                &&& slots.len() == read.range.length
                &&& forall|i: int|
                    0 <= i < slots.len() ==> {
                        let slot = #[trigger] slots[i];
                        &&& slot.command_index == read.range.location + i
                        &&& populated.batch[i].0 == read.range.location + i
                        &&& match slot.command {
                            None => populated.batch[i].1 is None,
                            Some(IcbCommandFill::Compute(fill)) => populated.batch[i].1 is Some
                                && icb_dispatch(
                                session,
                                populated.inherited,
                                read.descriptor,
                                fill,
                            ) == Ok::<
                                ResolvedIcbDispatch,
                                ReplacementComputeDispatchResolutionError,
                            >(populated.batch[i].1->0),
                            Some(IcbCommandFill::Render(_)) => false,
                        }
                    }
                &&& populated.execution matches ResolvedIndirectCommand::Execute {
                    icb,
                    range,
                    kind,
                }
                &&& icb == read.identity && range.location == read.range.location && range.length
                    == read.range.length && kind is Compute
                &&& s.stores < session.icb_stores@.len()
                &&& session.icb_stores@[s.stores as int] == (IcbStoreAnswer::Stored {
                    prior: populated.prior,
                })
            },
            Err(ReplacementComputeIcbPopulationError::DecodedRangeMismatch) => !(
            read.range.location + read.range.length <= u64::MAX && slots.len() == read.range.length
                && forall|i: int|
                0 <= i < slots.len() ==> (#[trigger] slots[i]).command_index
                    == read.range.location + i),
            Err(ReplacementComputeIcbPopulationError::OutsideEncoder) => s.compute is None,
            Err(ReplacementComputeIcbPopulationError::Population(_)) => s.compute is Some && !(
            s.stores < session.icb_stores@.len() && session.icb_stores@[s.stores as int] is Stored),
            Err(_) => s.compute is Some,
        },
{
    if s.compute is Some {
        lemma_compute_slots_in_order(session, s.compute->0, read.descriptor, slots);
    }
}

/// A compute command launches the pipeline that its buffer says it brings or
/// takes, translated for its own threadgroup, with the arguments that were built
/// for this very command under what the encoder holds.
pub proof fn lemma_a_compute_command_is_launched_as_stated(
    session: ReplacementRuntimeSession,
    inherited: ComputeAccumView,
    descriptor: IndirectCommandBufferDescriptor,
    fill: IcbComputeFill,
)
    ensures
        match icb_dispatch(session, inherited, descriptor, fill) {
            Ok(launched) => {
                let group = match fill.dispatch {
                    IcbFillDispatch::ConcurrentThreadgroups { threads_per_threadgroup, .. } =>
                    threads_per_threadgroup,
                    IcbFillDispatch::ConcurrentThreads { threads_per_threadgroup, .. } =>
                    threads_per_threadgroup,
                };
                &&& launched.fill == fill
                &&& launched.descriptor == descriptor
                &&& launched.pipeline_ref != 0
                &&& descriptor.inherit_pipeline_state ==> launched.pipeline_ref
                    == inherited.pipeline_ref
                &&& !descriptor.inherit_pipeline_state ==> launched.pipeline_ref
                    == fill.pipeline_ref
                &&& answer_of(
                    session.compute_translations@,
                    TranslationQuery {
                        pipeline_ref: launched.pipeline_ref,
                        x: group.x,
                        y: group.y,
                        z: group.z,
                    },
                ) == Some(TranslationAnswer::Ready(launched.translation))
                &&& construction_of(
                    session.constructions@,
                    ConstructionView {
                        translation: launched.translation,
                        of: ConstructionOf::Command { descriptor, fill },
                        binds: inherited,
                    },
                ) == Some(ConstructionAnswer::Built(launched.arguments))
            },
            Err(_) => true,
        },
{
}

/// A record that executes commands runs just the slots that it names of the
/// buffer that it names, as they were read.
pub proof fn lemma_an_execution_runs_its_stated_slots(
    session: ReplacementRuntimeSession,
    s: ProjectionStateView,
    render: RenderCommand,
    compute: ComputeCommand,
)
    ensures
        match render_icb_execution(session, s, render) {
            Ok(populated) => {
                &&& render.icb_is_range
                &&& answer_of(
                    session.icb_reads@,
                    IcbReadQuery {
                        reference: render.indirect_command_buffer_ref,
                        range: IndirectCommandRange {
                            location: render.icb_range_location,
                            length: render.icb_range_length,
                        },
                    },
                ) matches Some(IcbReadAnswer::Read { read, slots })
                &&& render_population(session, s, read, slots@) == Ok::<
                    PopulatedRenderView,
                    ReplacementRenderIcbPopulationError,
                >(populated)
            },
            Err(ReplacementRenderIcbExecutionError::IndirectRangeRequiresAsynchronousReadback) =>
            !render.icb_is_range,
            Err(ReplacementRenderIcbExecutionError::Unanswered(asked)) => {
                &&& asked.reference == render.indirect_command_buffer_ref
                &&& asked.range.location == render.icb_range_location
                &&& asked.range.length == render.icb_range_length
                &&& answer_of(session.icb_reads@, asked) is None
            },
            Err(_) => render.icb_is_range,
        },
        match compute_icb_execution(session, s, compute) {
            Ok(populated) => {
                &&& !(compute.kind is ExecuteCommandsInBufferIndirect)
                &&& answer_of(
                    session.icb_reads@,
                    IcbReadQuery {
                        reference: compute.indirect_command_buffer_ref,
                        range: IndirectCommandRange {
                            location: compute.indirect_command_range_location,
                            length: compute.indirect_command_range_length,
                        },
                    },
                ) matches Some(IcbReadAnswer::Read { read, slots })
                &&& compute_population(session, s, read, slots@) == Ok::<
                    PopulatedComputeView,
                    ReplacementComputeIcbPopulationError,
                >(populated)
            },
            Err(ReplacementComputeIcbExecutionError::IndirectRangeRequiresAsynchronousReadback) =>
            compute.kind is ExecuteCommandsInBufferIndirect,
            Err(ReplacementComputeIcbExecutionError::Unanswered(asked)) => {
                &&& asked.reference == compute.indirect_command_buffer_ref
                &&& asked.range.location == compute.indirect_command_range_location
                &&& asked.range.length == compute.indirect_command_range_length
                &&& answer_of(session.icb_reads@, asked) is None
            },
            Err(_) => !(compute.kind is ExecuteCommandsInBufferIndirect),
        },
{
}

/// A stored run shows in contracts as it is: what the buffer held before, each
/// entry under its number, and what is executed.
pub proof fn lemma_a_populated_run_is_seen_whole(
    render: ReplacementPopulatedRenderIcb,
    compute: ReplacementPopulatedComputeIcb,
)
    ensures
        render@.prior == render.prior,
        render@.execution == render.execution,
        render@.batch.len() == render.batch@.len(),
        forall|i: int|
            0 <= i < render.batch@.len() ==> {
                let entry = #[trigger] render.batch@[i];
                &&& render@.batch[i].0 == entry.0
                &&& match entry.1 {
                    Some(dispatch) => render@.batch[i].1 == Some(dispatch@),
                    None => render@.batch[i].1 is None,
                }
            },
        compute@.prior == compute.prior,
        compute@.execution == compute.execution,
        compute@.batch == compute.batch@,
        compute@.inherited == compute.inherited@,
{
}

/// Storing a batch counts it, and leaves the open encoders as they are.
pub proof fn lemma_a_store_is_counted(s: ProjectionStateView)
    requires
        s.stores < usize::MAX,
    ensures
        with_store(s).stores == s.stores + 1,
        with_store(s).render == s.render,
        with_store(s).compute == s.compute,
{
}

} // verus!
