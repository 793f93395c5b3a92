//! Events, fences, participation and barriers, resolved.

use vstd::prelude::*;

use crate::command::{
    BlitCommand, BlitKind, BlitOpcode, ComputeCommand, ComputeKind, EventCommand,
    EventCommandKind, RenderCommand, RenderKind, RenderOpcode,
};
use crate::session::{
    declared_only, is_declared, ConditionAnswer, ConditionNamespaceError,
    ReplacementRuntimeSession,
};
use crate::tables::{answer_copied, answer_of};

verus! {

// Events.

/// What an event operation does.
#[derive(Clone, Copy, Debug, PartialEq, Eq, Structural)]
pub enum EventOperationKind {
    Signal,
    Wait,
}

/// An event operation.
#[derive(Clone, Copy, Debug, PartialEq, Eq, Structural)]
pub struct EventOperation {
    pub event: u64,
    pub kind: EventOperationKind,
    pub value: u64,
}

/// Why an event record does not resolve.
#[derive(Clone, Copy, Debug, PartialEq, Eq, Structural)]
pub enum ReplacementEventResolutionError {
    TimeoutUnsupported,
    UnknownKind,
    Namespace(ConditionNamespaceError),
}

/// What an event record stands for.
pub open spec fn event_operation(session: ReplacementRuntimeSession, c: EventCommand) -> Result<
    EventOperation,
    ReplacementEventResolutionError,
> {
    if c.has_timeout {
        Err(ReplacementEventResolutionError::TimeoutUnsupported)
    } else if c.kind is Unknown {
        Err(ReplacementEventResolutionError::UnknownKind)
    } else {
        match session.event(c.event_ref) {
            Err(error) => Err(ReplacementEventResolutionError::Namespace(error)),
            Ok(event) => Ok(
                EventOperation {
                    event,
                    kind: if c.kind is SignalEvent {
                        EventOperationKind::Signal
                    } else {
                        EventOperationKind::Wait
                    },
                    value: c.value,
                },
            ),
        }
    }
}

/// Resolves an event record.
pub fn resolve_event_record(session: &ReplacementRuntimeSession, command: &EventCommand)
    -> (operation: Result<EventOperation, ReplacementEventResolutionError>)
    ensures
        operation == event_operation(*session, *command),
{
    if command.has_timeout {
        return Err(ReplacementEventResolutionError::TimeoutUnsupported);
    }
    let kind = match command.kind {
        EventCommandKind::SignalEvent => EventOperationKind::Signal,
        EventCommandKind::WaitEvent => EventOperationKind::Wait,
        EventCommandKind::Unknown => {
            return Err(ReplacementEventResolutionError::UnknownKind);
        },
    };
    match session.resolve_event(command.event_ref) {
        Ok(event) => Ok(EventOperation { event, kind, value: command.value }),
        Err(error) => Err(ReplacementEventResolutionError::Namespace(error)),
    }
}

// Fences.

/// What a fence operation does.
#[derive(Clone, Copy, Debug, PartialEq, Eq, Structural)]
pub enum FenceOperationKind {
    Update,
    Wait,
}

/// The work a fence operation orders.
#[derive(Clone, Copy, Debug, PartialEq, Eq, Structural)]
pub enum FenceScope {
    Compute,
    Blit,
    Render(u16),
}

/// A fence operation.
#[derive(Clone, Copy, Debug, PartialEq, Eq, Structural)]
pub struct FenceOperation {
    pub fence: u64,
    pub kind: FenceOperationKind,
    pub scope: FenceScope,
}

/// Why a fence record does not resolve.
#[derive(Clone, Copy, Debug, PartialEq, Eq, Structural)]
pub enum ReplacementFenceResolutionError {
    NotFenceRecord,
    UnknownFenceOpcode,
    UnsupportedRenderStages(u32),
    Namespace(ConditionNamespaceError),
}

/// What an operation on a fence reference stands for; a zero reference is no
/// operation.
pub open spec fn fence_operation(
    session: ReplacementRuntimeSession,
    reference: u32,
    kind: FenceOperationKind,
    scope: FenceScope,
) -> Result<Option<FenceOperation>, ReplacementFenceResolutionError> {
    if reference == 0 {
        Ok(None)
    } else {
        match session.fence(reference) {
            Err(error) => Err(ReplacementFenceResolutionError::Namespace(error)),
            Ok(fence) => Ok(Some(FenceOperation { fence, kind, scope })),
        }
    }
}

/// What a compute fence record stands for.
pub open spec fn compute_fence(session: ReplacementRuntimeSession, c: ComputeCommand) -> Result<
    Option<FenceOperation>,
    ReplacementFenceResolutionError,
> {
    match c.kind {
        ComputeKind::UpdateFence => fence_operation(
            session,
            c.fence_ref,
            FenceOperationKind::Update,
            FenceScope::Compute,
        ),
        ComputeKind::WaitFence => fence_operation(
            session,
            c.fence_ref,
            FenceOperationKind::Wait,
            FenceScope::Compute,
        ),
        _ => Err(ReplacementFenceResolutionError::NotFenceRecord),
    }
}

/// What a blit fence record stands for.
pub open spec fn blit_fence(session: ReplacementRuntimeSession, c: BlitCommand) -> Result<
    Option<FenceOperation>,
    ReplacementFenceResolutionError,
> {
    if !(c.kind is Fence) {
        Err(ReplacementFenceResolutionError::NotFenceRecord)
    } else {
        match c.opcode {
            BlitOpcode::UpdateFence => fence_operation(
                session,
                c.fence,
                FenceOperationKind::Update,
                FenceScope::Blit,
            ),
            BlitOpcode::WaitForFence => fence_operation(
                session,
                c.fence,
                FenceOperationKind::Wait,
                FenceScope::Blit,
            ),
            _ => Err(ReplacementFenceResolutionError::UnknownFenceOpcode),
        }
    }
}

/// What a render fence record stands for.
pub open spec fn render_fence(session: ReplacementRuntimeSession, c: RenderCommand) -> Result<
    Option<FenceOperation>,
    ReplacementFenceResolutionError,
> {
    if !(c.kind is Fence) {
        Err(ReplacementFenceResolutionError::NotFenceRecord)
    } else if !(c.opcode is UpdateFence || c.opcode is WaitForFence) {
        Err(ReplacementFenceResolutionError::UnknownFenceOpcode)
    } else if c.fence_ref == 0 {
        Ok(None)
    } else if c.fence_stages > u16::MAX || !declared_only(
        c.fence_stages as u16,
        session.declared.fence_stages,
    ) {
        Err(ReplacementFenceResolutionError::UnsupportedRenderStages(c.fence_stages))
    } else {
        fence_operation(
            session,
            c.fence_ref,
            if c.opcode is UpdateFence {
                FenceOperationKind::Update
            } else {
                FenceOperationKind::Wait
            },
            FenceScope::Render(c.fence_stages as u16),
        )
    }
}

fn resolve_fence(
    session: &ReplacementRuntimeSession,
    reference: u32,
    kind: FenceOperationKind,
    scope: FenceScope,
) -> (operation: Result<Option<FenceOperation>, ReplacementFenceResolutionError>)
    ensures
        operation == fence_operation(*session, reference, kind, scope),
{
    if reference == 0 {
        return Ok(None);
    }
    match session.resolve_fence(reference) {
        Ok(fence) => Ok(Some(FenceOperation { fence, kind, scope })),
        Err(error) => Err(ReplacementFenceResolutionError::Namespace(error)),
    }
}

/// Resolves a compute fence record.
pub fn resolve_compute_fence_record(session: &ReplacementRuntimeSession, command: &ComputeCommand)
    -> (operation: Result<Option<FenceOperation>, ReplacementFenceResolutionError>)
    ensures
        operation == compute_fence(*session, *command),
{
    let kind = match command.kind {
        ComputeKind::UpdateFence => FenceOperationKind::Update,
        ComputeKind::WaitFence => FenceOperationKind::Wait,
        _ => {
            return Err(ReplacementFenceResolutionError::NotFenceRecord);
        },
    };
    resolve_fence(session, command.fence_ref, kind, FenceScope::Compute)
}

/// Resolves a blit fence record.
pub fn resolve_blit_fence_record(session: &ReplacementRuntimeSession, command: &BlitCommand)
    -> (operation: Result<Option<FenceOperation>, ReplacementFenceResolutionError>)
    ensures
        operation == blit_fence(*session, *command),
{
    if command.kind != BlitKind::Fence {
        return Err(ReplacementFenceResolutionError::NotFenceRecord);
    }
    let kind = match command.opcode {
        BlitOpcode::UpdateFence => FenceOperationKind::Update,
        BlitOpcode::WaitForFence => FenceOperationKind::Wait,
        _ => {
            return Err(ReplacementFenceResolutionError::UnknownFenceOpcode);
        },
    };
    resolve_fence(session, command.fence, kind, FenceScope::Blit)
}

/// Resolves a render fence record.
pub fn resolve_render_fence_record(session: &ReplacementRuntimeSession, command: &RenderCommand)
    -> (operation: Result<Option<FenceOperation>, ReplacementFenceResolutionError>)
    ensures
        operation == render_fence(*session, *command),
{
    if command.kind != RenderKind::Fence {
        return Err(ReplacementFenceResolutionError::NotFenceRecord);
    }
    let kind = match command.opcode {
        RenderOpcode::UpdateFence => FenceOperationKind::Update,
        RenderOpcode::WaitForFence => FenceOperationKind::Wait,
        _ => {
            return Err(ReplacementFenceResolutionError::UnknownFenceOpcode);
        },
    };
    if command.fence_ref == 0 {
        return Ok(None);
    }
    if command.fence_stages > u16::MAX as u32 || !is_declared(
        command.fence_stages as u16,
        session.declared.fence_stages,
    ) {
        return Err(
            ReplacementFenceResolutionError::UnsupportedRenderStages(command.fence_stages),
        );
    }
    resolve_fence(
        session,
        command.fence_ref,
        kind,
        FenceScope::Render(command.fence_stages as u16),
    )
}

// Lists of references.

/// A reference that names nothing, and its place in the list.
#[derive(Clone, Copy, Debug, PartialEq, Eq, Structural)]
pub struct Unavailable {
    pub index: usize,
    pub reference: u32,
}

/// What every reference of a list names, or the first that names nothing.
pub open spec fn resolved_all(rows: Seq<(u32, u64)>, references: Seq<u32>) -> Result<
    Seq<u64>,
    Unavailable,
>
    decreases references.len(),
{
    if references.len() == 0 {
        Ok(Seq::empty())
    } else {
        match resolved_all(rows, references.drop_last()) {
            Err(unavailable) => Err(unavailable),
            Ok(done) => match answer_of(rows, references.last()) {
                Some(identity) => Ok(done.push(identity)),
                None => Err(
                    Unavailable {
                        index: (references.len() - 1) as usize,
                        reference: references.last(),
                    },
                ),
            },
        }
    }
}

proof fn lemma_unavailable_in_a_prefix(rows: Seq<(u32, u64)>, references: Seq<u32>, n: int)
    requires
        0 <= n <= references.len(),
        resolved_all(rows, references.take(n)) is Err,
    ensures
        resolved_all(rows, references) == resolved_all(rows, references.take(n)),
    decreases references.len() - n,
{
    if n == references.len() {
        assert(references.take(n) =~= references);
    } else {
        assert(references.take(n + 1).drop_last() =~= references.take(n));
        lemma_unavailable_in_a_prefix(rows, references, n + 1);
    }
}

fn resolve_all(rows: &Vec<(u32, u64)>, references: &Vec<u32>) -> (resolved: Result<
    Vec<u64>,
    Unavailable,
>)
    ensures
        match resolved {
            Ok(resolved) => resolved_all(rows@, references@) == Ok::<Seq<u64>, Unavailable>(
                resolved@,
            ),
            Err(unavailable) => resolved_all(rows@, references@) == Err::<Seq<u64>, Unavailable>(
                unavailable,
            ),
        },
{
    let mut resolved: Vec<u64> = Vec::new();
    let mut index: usize = 0;
    while index < references.len()
        invariant
            index <= references@.len(),
            resolved_all(rows@, references@.take(index as int)) == Ok::<Seq<u64>, Unavailable>(
                resolved@,
            ),
        decreases references.len() - index,
    {
        let reference: u32 = references[index];
        assert(references@.take(index as int + 1).drop_last() =~= references@.take(index as int));
        match answer_copied(rows, reference) {
            Some(identity) => resolved.push(identity),
            None => {
                proof {
                    lemma_unavailable_in_a_prefix(rows@, references@, index as int + 1);
                }
                return Err(Unavailable { index, reference });
            },
        }
        index += 1;
    }
    assert(references@.take(index as int) =~= references@);
    Ok(resolved)
}

/// A list resolves to as many things as it has references, each what its
/// reference names.
pub proof fn lemma_resolved_all_is_pointwise(rows: Seq<(u32, u64)>, references: Seq<u32>)
    ensures
        resolved_all(rows, references) matches Ok(resolved) ==> {
            &&& resolved.len() == references.len()
            &&& forall|i: int|
                0 <= i < references.len() ==> answer_of(rows, #[trigger] references[i]) == Some(
                    resolved[i],
                )
        },
    decreases references.len(),
{
    if references.len() > 0 {
        lemma_resolved_all_is_pointwise(rows, references.drop_last());
        if resolved_all(rows, references) is Ok {
            let resolved = resolved_all(rows, references)->Ok_0;
            assert forall|i: int| 0 <= i < references.len() implies answer_of(
                rows,
                #[trigger] references[i],
            ) == Some(resolved[i]) by {
                if i < references.len() - 1 {
                    assert(references.drop_last()[i] == references[i]);
                }
            }
        }
    }
}

// Participation.

/// The work that a resource takes part in.
#[derive(Clone, Copy, Debug, PartialEq, Eq, Structural)]
pub enum ParticipationScope {
    Render { stages: Option<u32> },
    Compute,
}

/// A declaration that an encoder uses memory it does not bind.
#[derive(Clone, Copy, Debug, PartialEq, Eq, Structural)]
#[allow(inconsistent_fields)]
pub enum ParticipationOperation {
    Resource { resource: u64, usage: u32, scope: ParticipationScope },
    Heap { heap: u64, scope: ParticipationScope },
}

/// Why a participation record does not resolve.
#[derive(Clone, Copy, Debug, PartialEq, Eq, Structural)]
pub enum ReplacementParticipationResolutionError {
    NotParticipationRecord,
    MissingResourceUsage,
    ResourceUnavailable { index: usize, reference: u32 },
    HeapUnavailable { index: usize, reference: u32 },
}

pub open spec fn participating_resources(
    session: ReplacementRuntimeSession,
    references: Seq<u32>,
    usage: u32,
    scope: ParticipationScope,
) -> Result<Seq<ParticipationOperation>, ReplacementParticipationResolutionError> {
    match resolved_all(session.resources@, references) {
        Err(unavailable) => Err(
            ReplacementParticipationResolutionError::ResourceUnavailable {
                index: unavailable.index,
                reference: unavailable.reference,
            },
        ),
        Ok(resources) => Ok(
            Seq::new(
                resources.len(),
                |i: int|
                    ParticipationOperation::Resource { resource: resources[i], usage, scope },
            ),
        ),
    }
}

pub open spec fn participating_heaps(
    session: ReplacementRuntimeSession,
    references: Seq<u32>,
    scope: ParticipationScope,
) -> Result<Seq<ParticipationOperation>, ReplacementParticipationResolutionError> {
    match resolved_all(session.heaps@, references) {
        Err(unavailable) => Err(
            ReplacementParticipationResolutionError::HeapUnavailable {
                index: unavailable.index,
                reference: unavailable.reference,
            },
        ),
        Ok(heaps) => Ok(
            Seq::new(
                heaps.len(),
                |i: int| ParticipationOperation::Heap { heap: heaps[i], scope },
            ),
        ),
    }
}

/// What a render participation record stands for.
pub open spec fn render_participation(session: ReplacementRuntimeSession, c: RenderCommand) -> Result<
    Seq<ParticipationOperation>,
    ReplacementParticipationResolutionError,
> {
    let scope = ParticipationScope::Render { stages: c.participation_stages };
    match c.kind {
        RenderKind::UseResource => match c.participation_usage {
            None => Err(ReplacementParticipationResolutionError::MissingResourceUsage),
            Some(usage) => participating_resources(
                session,
                c.participation_resources@,
                usage,
                scope,
            ),
        },
        RenderKind::UseHeap => participating_heaps(session, c.participation_heaps@, scope),
        _ => Err(ReplacementParticipationResolutionError::NotParticipationRecord),
    }
}

/// What a compute participation record stands for.
pub open spec fn compute_participation(session: ReplacementRuntimeSession, c: ComputeCommand)
    -> Result<Seq<ParticipationOperation>, ReplacementParticipationResolutionError> {
    match c.kind {
        ComputeKind::UseResources => match c.resource_usage {
            None => Err(ReplacementParticipationResolutionError::MissingResourceUsage),
            Some(usage) => participating_resources(
                session,
                c.resources@,
                usage,
                ParticipationScope::Compute,
            ),
        },
        ComputeKind::UseHeaps => participating_heaps(
            session,
            c.heaps@,
            ParticipationScope::Compute,
        ),
        _ => Err(ReplacementParticipationResolutionError::NotParticipationRecord),
    }
}

/// The view of what a participation record resolves to.
pub open spec fn participation_result(
    result: Result<Vec<ParticipationOperation>, ReplacementParticipationResolutionError>,
) -> Result<Seq<ParticipationOperation>, ReplacementParticipationResolutionError> {
    match result {
        Ok(operations) => Ok(operations@),
        Err(error) => Err(error),
    }
}

fn resolve_participating_resources(
    session: &ReplacementRuntimeSession,
    references: &Vec<u32>,
    usage: u32,
    scope: ParticipationScope,
) -> (operations: Result<Vec<ParticipationOperation>, ReplacementParticipationResolutionError>)
    ensures
        participation_result(operations) == participating_resources(
            *session,
            references@,
            usage,
            scope,
        ),
{
    let resources = match resolve_all(&session.resources, references) {
        Ok(resources) => resources,
        Err(unavailable) => {
            return Err(
                ReplacementParticipationResolutionError::ResourceUnavailable {
                    index: unavailable.index,
                    reference: unavailable.reference,
                },
            );
        },
    };
    let mut operations: Vec<ParticipationOperation> = Vec::new();
    let mut i: usize = 0;
    while i < resources.len()
        invariant
            i <= resources@.len(),
            operations@ == Seq::new(
                i as nat,
                |j: int|
                    ParticipationOperation::Resource { resource: resources@[j], usage, scope },
            ),
        decreases resources.len() - i,
    {
        operations.push(
            ParticipationOperation::Resource { resource: resources[i], usage, scope },
        );
        i += 1;
    }
    Ok(operations)
}

fn resolve_participating_heaps(
    session: &ReplacementRuntimeSession,
    references: &Vec<u32>,
    scope: ParticipationScope,
) -> (operations: Result<Vec<ParticipationOperation>, ReplacementParticipationResolutionError>)
    ensures
        participation_result(operations) == participating_heaps(*session, references@, scope),
{
    let heaps = match resolve_all(&session.heaps, references) {
        Ok(heaps) => heaps,
        Err(unavailable) => {
            return Err(
                ReplacementParticipationResolutionError::HeapUnavailable {
                    index: unavailable.index,
                    reference: unavailable.reference,
                },
            );
        },
    };
    let mut operations: Vec<ParticipationOperation> = Vec::new();
    let mut i: usize = 0;
    while i < heaps.len()
        invariant
            i <= heaps@.len(),
            operations@ == Seq::new(
                i as nat,
                |j: int| ParticipationOperation::Heap { heap: heaps@[j], scope },
            ),
        decreases heaps.len() - i,
    {
        operations.push(ParticipationOperation::Heap { heap: heaps[i], scope });
        i += 1;
    }
    Ok(operations)
}

/// Resolves a render participation record.
pub fn resolve_render_participation_record(
    session: &ReplacementRuntimeSession,
    command: &RenderCommand,
) -> (operations: Result<Vec<ParticipationOperation>, ReplacementParticipationResolutionError>)
    ensures
        participation_result(operations) == render_participation(*session, *command),
{
    let scope = ParticipationScope::Render { stages: command.participation_stages };
    match command.kind {
        RenderKind::UseResource => match command.participation_usage {
            None => Err(ReplacementParticipationResolutionError::MissingResourceUsage),
            Some(usage) => resolve_participating_resources(
                session,
                &command.participation_resources,
                usage,
                scope,
            ),
        },
        RenderKind::UseHeap => resolve_participating_heaps(
            session,
            &command.participation_heaps,
            scope,
        ),
        _ => Err(ReplacementParticipationResolutionError::NotParticipationRecord),
    }
}

/// Resolves a compute participation record.
pub fn resolve_compute_participation_record(
    session: &ReplacementRuntimeSession,
    command: &ComputeCommand,
) -> (operations: Result<Vec<ParticipationOperation>, ReplacementParticipationResolutionError>)
    ensures
        participation_result(operations) == compute_participation(*session, *command),
{
    match command.kind {
        ComputeKind::UseResources => match command.resource_usage {
            None => Err(ReplacementParticipationResolutionError::MissingResourceUsage),
            Some(usage) => resolve_participating_resources(
                session,
                &command.resources,
                usage,
                ParticipationScope::Compute,
            ),
        },
        ComputeKind::UseHeaps => resolve_participating_heaps(
            session,
            &command.heaps,
            ParticipationScope::Compute,
        ),
        _ => Err(ReplacementParticipationResolutionError::NotParticipationRecord),
    }
}

// Barriers.

/// The stages on one side of a barrier.
#[derive(Clone, Copy, Debug, PartialEq, Eq, Structural)]
pub enum StageScope {
    Render(u16),
    Compute,
}

/// A barrier.
#[derive(Debug, PartialEq, Eq)]
#[allow(inconsistent_fields)]
pub enum BarrierOperation {
    Resources { resources: Vec<u64>, before: StageScope, after: StageScope },
    Scope { scope: u16, before: StageScope, after: StageScope },
}

/// What contracts say of a barrier.
#[verifier::ext_equal]
#[allow(inconsistent_fields)]
pub enum BarrierView {
    Resources { resources: Seq<u64>, before: StageScope, after: StageScope },
    Scope { scope: u16, before: StageScope, after: StageScope },
}

impl View for BarrierOperation {
    type V = BarrierView;

    open spec fn view(&self) -> BarrierView {
        match *self {
            BarrierOperation::Resources { resources, before, after } => BarrierView::Resources {
                resources: resources@,
                before,
                after,
            },
            BarrierOperation::Scope { scope, before, after } => BarrierView::Scope {
                scope,
                before,
                after,
            },
        }
    }
}

/// Why a barrier record does not resolve.
#[derive(Clone, Copy, Debug, PartialEq, Eq, Structural)]
pub enum ReplacementBarrierResolutionError {
    NotBarrierRecord,
    TextureBarrierContractUnresolved,
    UnsupportedProducerStages(u16),
    UnsupportedConsumerStages(u16),
    UnsupportedScope(u16),
    UnidentifiedRenderField(u8),
    ResourceUnavailable { index: usize, reference: u32 },
}

/// A barrier over a list of resources; over none it is no operation.
pub open spec fn barrier_resources(
    session: ReplacementRuntimeSession,
    references: Seq<u32>,
    before: StageScope,
    after: StageScope,
) -> Result<Option<BarrierView>, ReplacementBarrierResolutionError> {
    match resolved_all(session.resources@, references) {
        Err(unavailable) => Err(
            ReplacementBarrierResolutionError::ResourceUnavailable {
                index: unavailable.index,
                reference: unavailable.reference,
            },
        ),
        Ok(resources) => if resources.len() == 0 {
            Ok(None)
        } else {
            Ok(Some(BarrierView::Resources { resources, before, after }))
        },
    }
}

/// A barrier over kinds of memory; over none it is no operation.
pub open spec fn barrier_scope(
    session: ReplacementRuntimeSession,
    scope: u16,
    before: StageScope,
    after: StageScope,
) -> Result<Option<BarrierView>, ReplacementBarrierResolutionError> {
    if !declared_only(scope, session.declared.barrier_scopes) {
        Err(ReplacementBarrierResolutionError::UnsupportedScope(scope))
    } else if scope == 0 {
        Ok(None)
    } else {
        Ok(Some(BarrierView::Scope { scope, before, after }))
    }
}

/// What a compute barrier record stands for.
pub open spec fn compute_barrier(session: ReplacementRuntimeSession, c: ComputeCommand) -> Result<
    Option<BarrierView>,
    ReplacementBarrierResolutionError,
> {
    match c.kind {
        ComputeKind::BarrierResources => barrier_resources(
            session,
            c.resources@,
            StageScope::Compute,
            StageScope::Compute,
        ),
        ComputeKind::BarrierScope => barrier_scope(
            session,
            c.barrier_scope,
            StageScope::Compute,
            StageScope::Compute,
        ),
        _ => Err(ReplacementBarrierResolutionError::NotBarrierRecord),
    }
}

/// What a render barrier record stands for. The stages that produce come before
/// the barrier and those that consume come after it; without either it orders
/// nothing.
pub open spec fn render_barrier(session: ReplacementRuntimeSession, c: RenderCommand) -> Result<
    Option<BarrierView>,
    ReplacementBarrierResolutionError,
> {
    if c.kind is TextureBarrier {
        Err(ReplacementBarrierResolutionError::TextureBarrierContractUnresolved)
    } else if !(c.kind is BarrierResources || c.kind is BarrierScope) {
        Err(ReplacementBarrierResolutionError::NotBarrierRecord)
    } else if !declared_only(c.barrier_after_stages, session.declared.render_stages) {
        Err(ReplacementBarrierResolutionError::UnsupportedProducerStages(c.barrier_after_stages))
    } else if !declared_only(c.barrier_before_stages, session.declared.render_stages) {
        Err(ReplacementBarrierResolutionError::UnsupportedConsumerStages(c.barrier_before_stages))
    } else if c.barrier_after_stages == 0 || c.barrier_before_stages == 0 {
        Ok(None)
    } else if c.kind is BarrierResources {
        barrier_resources(
            session,
            c.barrier_resources@,
            StageScope::Render(c.barrier_after_stages),
            StageScope::Render(c.barrier_before_stages),
        )
    } else if c.barrier_unidentified_u8 != 0 {
        Err(ReplacementBarrierResolutionError::UnidentifiedRenderField(c.barrier_unidentified_u8))
    } else {
        barrier_scope(
            session,
            c.barrier_scope as u16,
            StageScope::Render(c.barrier_after_stages),
            StageScope::Render(c.barrier_before_stages),
        )
    }
}

/// The view of what a barrier record resolves to.
pub open spec fn barrier_result(
    result: Result<Option<BarrierOperation>, ReplacementBarrierResolutionError>,
) -> Result<Option<BarrierView>, ReplacementBarrierResolutionError> {
    match result {
        Ok(None) => Ok(None),
        Ok(Some(barrier)) => Ok(Some(barrier@)),
        Err(error) => Err(error),
    }
}

fn resolve_barrier_resources(
    session: &ReplacementRuntimeSession,
    references: &Vec<u32>,
    before: StageScope,
    after: StageScope,
) -> (barrier: Result<Option<BarrierOperation>, ReplacementBarrierResolutionError>)
    ensures
        barrier_result(barrier) == barrier_resources(*session, references@, before, after),
{
    match resolve_all(&session.resources, references) {
        Err(unavailable) => Err(
            ReplacementBarrierResolutionError::ResourceUnavailable {
                index: unavailable.index,
                reference: unavailable.reference,
            },
        ),
        Ok(resources) => if resources.len() == 0 {
            Ok(None)
        } else {
            Ok(Some(BarrierOperation::Resources { resources, before, after }))
        },
    }
}

fn resolve_barrier_scope(
    session: &ReplacementRuntimeSession,
    scope: u16,
    before: StageScope,
    after: StageScope,
) -> (barrier: Result<Option<BarrierOperation>, ReplacementBarrierResolutionError>)
    ensures
        barrier_result(barrier) == barrier_scope(*session, scope, before, after),
{
    if !is_declared(scope, session.declared.barrier_scopes) {
        return Err(ReplacementBarrierResolutionError::UnsupportedScope(scope));
    }
    if scope == 0 {
        Ok(None)
    } else {
        Ok(Some(BarrierOperation::Scope { scope, before, after }))
    }
}

/// Resolves a compute barrier record.
pub fn resolve_compute_barrier_record(
    session: &ReplacementRuntimeSession,
    command: &ComputeCommand,
) -> (barrier: Result<Option<BarrierOperation>, ReplacementBarrierResolutionError>)
    ensures
        barrier_result(barrier) == compute_barrier(*session, *command),
{
    match command.kind {
        ComputeKind::BarrierResources => resolve_barrier_resources(
            session,
            &command.resources,
            StageScope::Compute,
            StageScope::Compute,
        ),
        ComputeKind::BarrierScope => resolve_barrier_scope(
            session,
            command.barrier_scope,
            StageScope::Compute,
            StageScope::Compute,
        ),
        _ => Err(ReplacementBarrierResolutionError::NotBarrierRecord),
    }
}

/// Resolves a render barrier record.
pub fn resolve_render_barrier_record(
    session: &ReplacementRuntimeSession,
    command: &RenderCommand,
) -> (barrier: Result<Option<BarrierOperation>, ReplacementBarrierResolutionError>)
    ensures
        barrier_result(barrier) == render_barrier(*session, *command),
{
    if command.kind == RenderKind::TextureBarrier {
        return Err(ReplacementBarrierResolutionError::TextureBarrierContractUnresolved);
    }
    if command.kind != RenderKind::BarrierResources && command.kind != RenderKind::BarrierScope {
        return Err(ReplacementBarrierResolutionError::NotBarrierRecord);
    }
    let producer: u16 = command.barrier_after_stages;
    let consumer: u16 = command.barrier_before_stages;
    if !is_declared(producer, session.declared.render_stages) {
        return Err(ReplacementBarrierResolutionError::UnsupportedProducerStages(producer));
    }
    if !is_declared(consumer, session.declared.render_stages) {
        return Err(ReplacementBarrierResolutionError::UnsupportedConsumerStages(consumer));
    }
    if producer == 0 || consumer == 0 {
        return Ok(None);
    }
    let before = StageScope::Render(producer);
    let after = StageScope::Render(consumer);
    if command.kind == RenderKind::BarrierResources {
        return resolve_barrier_resources(session, &command.barrier_resources, before, after);
    }
    if command.barrier_unidentified_u8 != 0 {
        return Err(
            ReplacementBarrierResolutionError::UnidentifiedRenderField(
                command.barrier_unidentified_u8,
            ),
        );
    }
    resolve_barrier_scope(session, command.barrier_scope as u16, before, after)
}

// What a synchronisation record comes to.

/// An event record does what it states, to the event that it names, with the
/// value that it states.
pub proof fn lemma_an_event_record_does_as_stated(
    session: ReplacementRuntimeSession,
    c: EventCommand,
)
    ensures
        match event_operation(session, c) {
            Ok(done) => {
                &&& !c.has_timeout
                &&& answer_of(session.events@, c.event_ref) == Some(
                    ConditionAnswer::Identity(done.event),
                )
                &&& done.kind is Signal <==> c.kind is SignalEvent
                &&& done.kind is Wait <==> c.kind is WaitEvent
                &&& done.value == c.value
            },
            Err(_) => c.has_timeout || c.kind is Unknown || !(answer_of(
                session.events@,
                c.event_ref,
            ) matches Some(ConditionAnswer::Identity(_))),
        },
{
}

/// A fence record does what it states, to the fence that it names, for the work
/// of its own family; a record without a fence does nothing.
pub proof fn lemma_a_fence_record_does_as_stated(
    session: ReplacementRuntimeSession,
    render: RenderCommand,
    compute: ComputeCommand,
    blit: BlitCommand,
)
    ensures
        match compute_fence(session, compute) {
            Ok(Some(done)) => {
                &&& answer_of(session.fences@, compute.fence_ref) == Some(
                    ConditionAnswer::Identity(done.fence),
                )
                &&& done.kind is Update <==> compute.kind is UpdateFence
                &&& done.kind is Wait <==> compute.kind is WaitFence
                &&& done.scope is Compute
            },
            Ok(None) => compute.fence_ref == 0,
            Err(_) => true,
        },
        match blit_fence(session, blit) {
            Ok(Some(done)) => {
                &&& blit.kind is Fence
                &&& answer_of(session.fences@, blit.fence) == Some(
                    ConditionAnswer::Identity(done.fence),
                )
                &&& done.kind is Update <==> blit.opcode is UpdateFence
                &&& done.kind is Wait <==> blit.opcode is WaitForFence
                &&& done.scope is Blit
            },
            Ok(None) => blit.fence == 0,
            Err(_) => true,
        },
        match render_fence(session, render) {
            Ok(Some(done)) => {
                &&& render.kind is Fence
                &&& answer_of(session.fences@, render.fence_ref) == Some(
                    ConditionAnswer::Identity(done.fence),
                )
                &&& done.kind is Update <==> render.opcode is UpdateFence
                &&& done.kind is Wait <==> render.opcode is WaitForFence
                &&& done.scope matches FenceScope::Render(stages)
                &&& stages == render.fence_stages
                &&& declared_only(stages, session.declared.fence_stages)
            },
            Ok(None) => render.fence_ref == 0,
            Err(ReplacementFenceResolutionError::UnsupportedRenderStages(stages)) => stages
                == render.fence_stages,
            Err(_) => true,
        },
{
}

/// A fence record that names a known fence is owed its operation.
pub proof fn lemma_a_fence_is_owed(
    session: ReplacementRuntimeSession,
    render: RenderCommand,
    compute: ComputeCommand,
    blit: BlitCommand,
)
    ensures
        (compute.kind is UpdateFence || compute.kind is WaitFence) && compute.fence_ref != 0
            && answer_of(session.fences@, compute.fence_ref) is Some && answer_of(
            session.fences@,
            compute.fence_ref,
        )->0 is Identity ==> compute_fence(session, compute) is Ok && compute_fence(
            session,
            compute,
        )->Ok_0 is Some,
        blit.kind is Fence && (blit.opcode is UpdateFence || blit.opcode is WaitForFence)
            && blit.fence != 0 && answer_of(session.fences@, blit.fence) is Some && answer_of(
            session.fences@,
            blit.fence,
        )->0 is Identity ==> blit_fence(session, blit) is Ok && blit_fence(
            session,
            blit,
        )->Ok_0 is Some,
        render.kind is Fence && (render.opcode is UpdateFence || render.opcode is WaitForFence)
            && render.fence_ref != 0 && render.fence_stages <= u16::MAX && declared_only(
            render.fence_stages as u16,
            session.declared.fence_stages,
        ) && answer_of(session.fences@, render.fence_ref) is Some && answer_of(
            session.fences@,
            render.fence_ref,
        )->0 is Identity ==> render_fence(session, render) is Ok && render_fence(
            session,
            render,
        )->Ok_0 is Some,
{
}

/// Whether operations make each resource of a list take part, in order, with a
/// usage and for a scope.
pub open spec fn resources_take_part(
    session: ReplacementRuntimeSession,
    references: Seq<u32>,
    usage: u32,
    scope: ParticipationScope,
    operations: Seq<ParticipationOperation>,
) -> bool {
    &&& operations.len() == references.len()
    &&& forall|i: int|
        0 <= i < references.len() ==> {
            &&& #[trigger] operations[i] matches ParticipationOperation::Resource {
                resource,
                usage: used,
                scope: within,
            }
            &&& answer_of(session.resources@, references[i]) == Some(resource)
            &&& used == usage && within == scope
        }
}

/// Whether operations make each heap of a list take part, in order and for a
/// scope.
pub open spec fn heaps_take_part(
    session: ReplacementRuntimeSession,
    references: Seq<u32>,
    scope: ParticipationScope,
    operations: Seq<ParticipationOperation>,
) -> bool {
    &&& operations.len() == references.len()
    &&& forall|i: int|
        0 <= i < references.len() ==> {
            &&& #[trigger] operations[i] matches ParticipationOperation::Heap {
                heap,
                scope: within,
            }
            &&& answer_of(session.heaps@, references[i]) == Some(heap)
            &&& within == scope
        }
}

/// A participation record makes just what it names take part, in order, with
/// the usage that it states and for its own stages.
pub proof fn lemma_what_is_named_takes_part(
    session: ReplacementRuntimeSession,
    render: RenderCommand,
    compute: ComputeCommand,
)
    ensures
        match render_participation(session, render) {
            Ok(operations) => {
                let scope = ParticipationScope::Render { stages: render.participation_stages };
                &&& render.kind is UseResource ==> render.participation_usage is Some
                    && resources_take_part(
                    session,
                    render.participation_resources@,
                    render.participation_usage->0,
                    scope,
                    operations,
                )
                &&& render.kind is UseHeap ==> heaps_take_part(
                    session,
                    render.participation_heaps@,
                    scope,
                    operations,
                )
                &&& render.kind is UseResource || render.kind is UseHeap
            },
            Err(_) => true,
        },
        match compute_participation(session, compute) {
            Ok(operations) => {
                &&& compute.kind is UseResources ==> compute.resource_usage is Some
                    && resources_take_part(
                    session,
                    compute.resources@,
                    compute.resource_usage->0,
                    ParticipationScope::Compute,
                    operations,
                )
                &&& compute.kind is UseHeaps ==> heaps_take_part(
                    session,
                    compute.heaps@,
                    ParticipationScope::Compute,
                    operations,
                )
                &&& compute.kind is UseResources || compute.kind is UseHeaps
            },
            Err(_) => true,
        },
{
    lemma_resolved_all_is_pointwise(session.resources@, render.participation_resources@);
    lemma_resolved_all_is_pointwise(session.heaps@, render.participation_heaps@);
    lemma_resolved_all_is_pointwise(session.resources@, compute.resources@);
    lemma_resolved_all_is_pointwise(session.heaps@, compute.heaps@);
    let stated = render.participation_resources@;
    let heaps = render.participation_heaps@;
    if let Ok(operations) = render_participation(session, render) {
        assert forall|i: int| 0 <= i < operations.len() implies {
            &&& render.kind is UseResource ==> answer_of(session.resources@, stated[i]) == Some(
                (#[trigger] operations[i])->resource,
            )
            &&& render.kind is UseHeap ==> answer_of(session.heaps@, heaps[i]) == Some(
                operations[i]->heap,
            )
        } by {}
    }
    if let Ok(operations) = compute_participation(session, compute) {
        assert forall|i: int| 0 <= i < operations.len() implies {
            &&& compute.kind is UseResources ==> answer_of(session.resources@, compute.resources@[i])
                == Some((#[trigger] operations[i])->resource)
            &&& compute.kind is UseHeaps ==> answer_of(session.heaps@, compute.heaps@[i]) == Some(
                operations[i]->heap,
            )
        } by {}
    }
}

/// Every list whose references are all known resolves, and the first that is not
/// known is the one that is named.
pub proof fn lemma_the_first_unknown_is_named(rows: Seq<(u32, u64)>, references: Seq<u32>)
    requires
        references.len() <= usize::MAX,
    ensures
        match resolved_all(rows, references) {
            Ok(_) => forall|i: int|
                0 <= i < references.len() ==> answer_of(rows, #[trigger] references[i]) is Some,
            Err(unavailable) => {
                let at = unavailable.index as int;
                &&& 0 <= at < references.len()
                &&& references[at] == unavailable.reference
                &&& answer_of(rows, references[at]) is None
                &&& forall|i: int|
                    0 <= i < at ==> answer_of(rows, #[trigger] references[i]) is Some
            },
        },
    decreases references.len(),
{
    if references.len() > 0 {
        let earlier = references.drop_last();
        lemma_the_first_unknown_is_named(rows, earlier);
        lemma_resolved_all_is_pointwise(rows, earlier);
        assert forall|i: int| 0 <= i < earlier.len() implies #[trigger] references[i]
            == earlier[i] by {}
    }
}

/// A render barrier stands between the stages that produce, which its record
/// states as those to come after, and those that consume, which it states as
/// those to come before; it is over just what the record names.
pub proof fn lemma_a_barrier_orders_what_it_states(
    session: ReplacementRuntimeSession,
    render: RenderCommand,
    compute: ComputeCommand,
)
    ensures
        match render_barrier(session, render) {
            Ok(Some(BarrierView::Resources { resources, before, after })) => {
                &&& render.kind is BarrierResources
                &&& before == StageScope::Render(render.barrier_after_stages)
                &&& after == StageScope::Render(render.barrier_before_stages)
                &&& render.barrier_after_stages != 0 && render.barrier_before_stages != 0
                &&& resources.len() == render.barrier_resources@.len() && resources.len() > 0
                &&& forall|i: int|
                    0 <= i < resources.len() ==> answer_of(
                        session.resources@,
                        render.barrier_resources@[i],
                    ) == Some(#[trigger] resources[i])
            },
            Ok(Some(BarrierView::Scope { scope, before, after })) => {
                &&& render.kind is BarrierScope
                &&& before == StageScope::Render(render.barrier_after_stages)
                &&& after == StageScope::Render(render.barrier_before_stages)
                &&& render.barrier_after_stages != 0 && render.barrier_before_stages != 0
                &&& scope == render.barrier_scope as u16 && scope != 0
                &&& declared_only(scope, session.declared.barrier_scopes)
            },
            Ok(None) => render.barrier_after_stages == 0 || render.barrier_before_stages == 0 || (
            render.kind is BarrierResources && render.barrier_resources@.len() == 0) || (
            render.kind is BarrierScope && render.barrier_scope as u16 == 0),
            Err(_) => true,
        },
        match compute_barrier(session, compute) {
            Ok(Some(BarrierView::Resources { resources, before, after })) => {
                &&& compute.kind is BarrierResources
                &&& before is Compute && after is Compute
                &&& resources.len() == compute.resources@.len() && resources.len() > 0
                &&& forall|i: int|
                    0 <= i < resources.len() ==> answer_of(
                        session.resources@,
                        compute.resources@[i],
                    ) == Some(#[trigger] resources[i])
            },
            Ok(Some(BarrierView::Scope { scope, before, after })) => {
                &&& compute.kind is BarrierScope
                &&& before is Compute && after is Compute
                &&& scope == compute.barrier_scope && scope != 0
                &&& declared_only(scope, session.declared.barrier_scopes)
            },
            Ok(None) => (compute.kind is BarrierResources && compute.resources@.len() == 0) || (
            compute.kind is BarrierScope && compute.barrier_scope == 0),
            Err(_) => true,
        },
{
    lemma_resolved_all_is_pointwise(session.resources@, render.barrier_resources@);
    lemma_resolved_all_is_pointwise(session.resources@, compute.resources@);
}

/// What contracts say of a barrier is what it holds.
pub proof fn lemma_a_barrier_is_seen_whole(barrier: BarrierOperation)
    ensures
        match barrier {
            BarrierOperation::Resources { resources, before, after } => barrier@ == (
            BarrierView::Resources { resources: resources@, before, after }),
            BarrierOperation::Scope { scope, before, after } => barrier@ == (BarrierView::Scope {
                scope,
                before,
                after,
            }),
        },
{
}

} // verus!
