//! The compute rail of a stream: which group a record belongs to, and what is
//! counted for it.

use vstd::prelude::*;

use crate::command::ComputeKind;
use crate::exec_result::{counted, ExecResult, ExecResultView};
use crate::fence_exec::{
    execute_fence, fence_step, Domain, FenceAction, FenceKey, FenceStatus, FenceTable,
};
use crate::render_rail::{OperationClass, OperationHome};
use crate::residency::{
    compute_residency, note_compute_residency, ResidencyRecord, ResidencyReport,
};

verus! {

/// What handles a record of the compute rail.
#[derive(Clone, Copy, Debug, PartialEq, Eq, Structural)]
pub enum ComputeDoor {
    Barrier,
    ContentDirective,
    Residency,
    /// A settled record of the encoder.
    Encoder,
    Unsettled,
}

/// What handles a record of the compute rail.
pub open spec fn compute_door_of(home: Option<OperationHome>, residency: bool) -> ComputeDoor {
    match home {
        Some(OperationHome::Stream(OperationClass::Barrier)) => ComputeDoor::Barrier,
        Some(OperationHome::Stream(OperationClass::ResourceState)) => {
            ComputeDoor::ContentDirective
        },
        Some(OperationHome::Stream(OperationClass::Compute)) => ComputeDoor::Encoder,
        None => if residency {
            ComputeDoor::Residency
        } else {
            ComputeDoor::Unsettled
        },
        _ => ComputeDoor::Unsettled,
    }
}

/// What handles a record of the compute rail.
pub fn compute_door(home: Option<OperationHome>, residency: bool) -> (door: ComputeDoor)
    ensures
        door == compute_door_of(home, residency),
{
    match home {
        Some(OperationHome::Stream(OperationClass::Barrier)) => ComputeDoor::Barrier,
        Some(OperationHome::Stream(OperationClass::ResourceState)) => {
            ComputeDoor::ContentDirective
        },
        Some(OperationHome::Stream(OperationClass::Compute)) => ComputeDoor::Encoder,
        None => {
            if residency {
                ComputeDoor::Residency
            } else {
                ComputeDoor::Unsettled
            }
        },
        _ => ComputeDoor::Unsettled,
    }
}

/// What a guest asks of a resource's representation.
#[derive(Clone, Copy, Debug, PartialEq, Eq, Structural)]
pub enum ContentDirective {
    Synchronize,
    OptimizeForCpu,
    OptimizeForGpu,
    InvalidateCompressed,
    FlushCompressedReinterpretation,
}

/// The name for a directive on the compute rail.
pub open spec fn compute_directive_route(directive: ContentDirective) -> Seq<char> {
    match directive {
        ContentDirective::FlushCompressedReinterpretation => {
            "compute_noop_flush_compressed_reinterpretation"@
        },
        ContentDirective::Synchronize => "compute_noop_synchronize"@,
        ContentDirective::OptimizeForCpu => "compute_noop_optimize_for_cpu"@,
        ContentDirective::OptimizeForGpu => "compute_noop_optimize_for_gpu"@,
        ContentDirective::InvalidateCompressed => "compute_noop_invalidate_compressed"@,
    }
}

/// Names a directive on the compute rail. There is one representation of every
/// resource, so each asks for nothing.
pub fn note_compute_content_directive(directive: ContentDirective) -> (route: &'static str)
    ensures
        route@ == compute_directive_route(directive),
{
    match directive {
        ContentDirective::FlushCompressedReinterpretation => {
            "compute_noop_flush_compressed_reinterpretation"
        },
        ContentDirective::Synchronize => "compute_noop_synchronize",
        ContentDirective::OptimizeForCpu => "compute_noop_optimize_for_cpu",
        ContentDirective::OptimizeForGpu => "compute_noop_optimize_for_gpu",
        ContentDirective::InvalidateCompressed => "compute_noop_invalidate_compressed",
    }
}

/// Why a record does not decode.
#[derive(Clone, Copy, Debug, PartialEq, Eq, Structural)]
pub enum DecodeRefusal {
    /// A value that the field cannot have; whether the field is the dispatch
    /// type of a pass.
    UndefinedOrdinal { dispatch_type: bool, value: u32 },
    Other,
}

/// The key under which a refused record is reported once.
pub open spec fn refusal_key(opcode: u32, refusal: DecodeRefusal) -> u64 {
    match refusal {
        DecodeRefusal::UndefinedOrdinal { value, .. } => opcode as u64 | (value as u64) << 32,
        DecodeRefusal::Other => opcode as u64,
    }
}

/// What is reported of a refused record: the name under which it is counted, if
/// it is, and the key under which it is reported once.
pub fn note_compute_record_refused(opcode: u32, refusal: DecodeRefusal) -> (note: (
    Option<&'static str>,
    u64,
))
    ensures
        note.1 == refusal_key(opcode, refusal),
        match note.0 {
            Some(route) => {
                &&& route@ == "compute_dispatch_type_unknown"@
                &&& refusal matches DecodeRefusal::UndefinedOrdinal { dispatch_type: true, .. }
            },
            None => !(refusal matches DecodeRefusal::UndefinedOrdinal { dispatch_type: true, .. }),
        },
{
    match refusal {
        DecodeRefusal::UndefinedOrdinal { dispatch_type, value } => {
            let route = if dispatch_type {
                Some("compute_dispatch_type_unknown")
            } else {
                None
            };
            (route, opcode as u64 | (value as u64) << 32)
        },
        DecodeRefusal::Other => (None, opcode as u64),
    }
}

/// Refused records that differ in opcode or in value are reported each for
/// itself.
pub proof fn lemma_refused_ordinals_have_their_own_keys(
    opcode: u32,
    value: u32,
    other_opcode: u32,
    other_value: u32,
)
    requires
        opcode != other_opcode || value != other_value,
    ensures
        refusal_key(opcode, DecodeRefusal::UndefinedOrdinal { dispatch_type: true, value })
            != refusal_key(
            other_opcode,
            DecodeRefusal::UndefinedOrdinal { dispatch_type: true, value: other_value },
        ),
{
    let a = opcode as u64;
    let b = value as u64;
    let c = other_opcode as u64;
    let d = other_value as u64;
    assert((a | b << 32) != (c | d << 32)) by (bit_vector)
        requires
            a <= 0xffff_ffff,
            b <= 0xffff_ffff,
            c <= 0xffff_ffff,
            d <= 0xffff_ffff,
            a != c || b != d,
    ;
}

/// What an unsettled record of the compute rail does.
#[derive(Clone, Copy, Debug, PartialEq, Eq, Structural)]
pub enum ComputeSequencing {
    Fence(FenceAction),
    ControlFlow,
    IndirectExecution,
    /// A settled record that came to the wrong place.
    Misrouted,
}

/// What an unsettled record of the compute rail does.
pub open spec fn sequencing_of(kind: ComputeKind) -> ComputeSequencing {
    match kind {
        ComputeKind::UpdateFence => ComputeSequencing::Fence(FenceAction::Update),
        ComputeKind::WaitFence => ComputeSequencing::Fence(FenceAction::Wait),
        ComputeKind::ControlStartDoWhile
        | ComputeKind::ControlEndDoWhile
        | ComputeKind::ControlStartWhile
        | ComputeKind::ControlEndWhile
        | ComputeKind::ControlStartIf
        | ComputeKind::ControlStartElse
        | ComputeKind::ControlEndIf => ComputeSequencing::ControlFlow,
        ComputeKind::ExecuteCommandsInBuffer
        | ComputeKind::ExecuteCommandsInBufferIndirect => ComputeSequencing::IndirectExecution,
        _ => ComputeSequencing::Misrouted,
    }
}

/// What an unsettled record of the compute rail does.
pub fn compute_sequencing(kind: ComputeKind) -> (sequencing: ComputeSequencing)
    ensures
        sequencing == sequencing_of(kind),
{
    match kind {
        ComputeKind::UpdateFence => ComputeSequencing::Fence(FenceAction::Update),
        ComputeKind::WaitFence => ComputeSequencing::Fence(FenceAction::Wait),
        ComputeKind::ControlStartDoWhile
        | ComputeKind::ControlEndDoWhile
        | ComputeKind::ControlStartWhile
        | ComputeKind::ControlEndWhile
        | ComputeKind::ControlStartIf
        | ComputeKind::ControlStartElse
        | ComputeKind::ControlEndIf => ComputeSequencing::ControlFlow,
        ComputeKind::ExecuteCommandsInBuffer
        | ComputeKind::ExecuteCommandsInBufferIndirect => ComputeSequencing::IndirectExecution,
        _ => ComputeSequencing::Misrouted,
    }
}

/// What became of an unsettled record of the compute rail.
#[derive(Clone, Copy, Debug, PartialEq, Eq)]
pub enum SequencingOutcome {
    Fence(FenceStatus),
    /// Counted under this name; whether it failed.
    Sequenced { route: &'static str, failed: bool },
    Misrouted,
}

/// The result of a submission after an unsettled record of the compute rail,
/// given whether running it went well.
pub open spec fn sequenced(out: ExecResultView, kind: ComputeKind, ran: bool) -> ExecResultView {
    match sequencing_of(kind) {
        ComputeSequencing::ControlFlow => if ran {
            out
        } else {
            ExecResultView { compute_control_fail: counted(out.compute_control_fail, 1), ..out }
        },
        ComputeSequencing::IndirectExecution => if ran {
            out
        } else {
            ExecResultView { compute_icb_fail: counted(out.compute_icb_fail, 1), ..out }
        },
        _ => out,
    }
}

/// Whether an unsettled record of the compute rail did what it asks for.
pub open spec fn sequencing_applied(
    fences: Map<FenceKey, u64>,
    after: Map<FenceKey, u64>,
    task_id: u32,
    kind: ComputeKind,
    fence_ref: u32,
    ran: bool,
    outcome: SequencingOutcome,
) -> bool {
    match (sequencing_of(kind), outcome) {
        (ComputeSequencing::Fence(action), SequencingOutcome::Fence(status)) => {
            (after, status@) == fence_step(fences, task_id, Domain::ComputeFence, fence_ref, action)
        },
        (ComputeSequencing::ControlFlow, SequencingOutcome::Sequenced { route, failed }) => {
            route@ == "compute_ctrl_seen"@ && failed == !ran && after == fences
        },
        (ComputeSequencing::IndirectExecution, SequencingOutcome::Sequenced { route, failed }) => {
            route@ == "compute_icb_seen"@ && failed == !ran && after == fences
        },
        (ComputeSequencing::Misrouted, SequencingOutcome::Misrouted) => after == fences,
        _ => false,
    }
}

/// Applies an unsettled record of the compute rail, given whether running it
/// went well: fences are kept here, and failures are counted.
pub fn handle_compute_sequencing(
    fences: &mut FenceTable,
    out: &mut ExecResult,
    task_id: u32,
    kind: ComputeKind,
    fence_ref: u32,
    ran: bool,
) -> (outcome: SequencingOutcome)
    ensures
        final(out)@ == sequenced(old(out)@, kind, ran),
        sequencing_applied(old(fences)@, final(fences)@, task_id, kind, fence_ref, ran, outcome),
{
    match compute_sequencing(kind) {
        ComputeSequencing::Fence(action) => SequencingOutcome::Fence(
            execute_fence(fences, task_id, Domain::ComputeFence, fence_ref, action),
        ),
        ComputeSequencing::ControlFlow => {
            if !ran {
                out.compute_control_fail = out.compute_control_fail.saturating_add(1);
            }
            SequencingOutcome::Sequenced { route: "compute_ctrl_seen", failed: !ran }
        },
        ComputeSequencing::IndirectExecution => {
            if !ran {
                out.compute_icb_fail = out.compute_icb_fail.saturating_add(1);
            }
            SequencingOutcome::Sequenced { route: "compute_icb_seen", failed: !ran }
        },
        ComputeSequencing::Misrouted => SequencingOutcome::Misrouted,
    }
}

/// A record of the compute rail, and what came of running it.
#[derive(Clone, Copy, Debug, PartialEq, Eq, Structural)]
pub enum ComputeRecord {
    Barrier,
    ContentDirective(ContentDirective),
    Residency(ResidencyRecord),
    /// A settled record of the encoder, or why it does not decode.
    Encoder { opcode: u32, refusal: Option<DecodeRefusal> },
    Unsettled { kind: ComputeKind, fence_ref: u32, ran: bool },
}

/// What became of a record of the compute rail.
#[derive(Debug, PartialEq, Eq)]
pub enum ComputeOutcome {
    /// Nothing is ordered here that a dispatch does not order anyway.
    Barrier(&'static str),
    ContentDirective(&'static str),
    Residency(Option<ResidencyReport>),
    /// What is reported of a record that does not decode.
    Encoder(Option<(Option<&'static str>, u64)>),
    Unsettled(SequencingOutcome),
}

/// Whether a record of the compute rail did what it asks for, and nothing else.
pub open spec fn compute_applied(
    fences: Map<FenceKey, u64>,
    after: Map<FenceKey, u64>,
    out: ExecResultView,
    out_after: ExecResultView,
    task_id: u32,
    record: ComputeRecord,
    outcome: ComputeOutcome,
) -> bool {
    match (record, outcome) {
        (ComputeRecord::Barrier, ComputeOutcome::Barrier(route)) => {
            route@ == "compute_noop_barrier"@ && after == fences && out_after == out
        },
        (
            ComputeRecord::ContentDirective(directive),
            ComputeOutcome::ContentDirective(route),
        ) => {
            route@ == compute_directive_route(directive) && after == fences && out_after == out
        },
        (ComputeRecord::Residency(declared), ComputeOutcome::Residency(report)) => {
            &&& match report {
                Some(report) => compute_residency(declared) == Some(report@),
                None => compute_residency(declared) is None,
            }
            &&& after == fences
            &&& out_after == out
        },
        (ComputeRecord::Encoder { opcode, refusal }, ComputeOutcome::Encoder(note)) => {
            &&& match (refusal, note) {
                (None, None) => true,
                (Some(refusal), Some((route, key))) => {
                    &&& key == refusal_key(opcode, refusal)
                    &&& match route {
                        Some(route) => {
                            &&& route@ == "compute_dispatch_type_unknown"@
                            &&& refusal matches DecodeRefusal::UndefinedOrdinal {
                                dispatch_type: true,
                                ..
                            }
                        },
                        None => !(refusal matches DecodeRefusal::UndefinedOrdinal {
                            dispatch_type: true,
                            ..
                        }),
                    }
                },
                _ => false,
            }
            &&& after == fences
            &&& out_after == out
        },
        (
            ComputeRecord::Unsettled { kind, fence_ref, ran },
            ComputeOutcome::Unsettled(outcome),
        ) => {
            &&& out_after == sequenced(out, kind, ran)
            &&& sequencing_applied(fences, after, task_id, kind, fence_ref, ran, outcome)
        },
        _ => false,
    }
}

/// Applies a record of the compute rail.
pub fn handle_compute_record(
    fences: &mut FenceTable,
    out: &mut ExecResult,
    task_id: u32,
    record: &ComputeRecord,
) -> (outcome: ComputeOutcome)
    ensures
        compute_applied(
            old(fences)@,
            final(fences)@,
            old(out)@,
            final(out)@,
            task_id,
            *record,
            outcome,
        ),
{
    match *record {
        ComputeRecord::Barrier => ComputeOutcome::Barrier("compute_noop_barrier"),
        ComputeRecord::ContentDirective(directive) => ComputeOutcome::ContentDirective(
            note_compute_content_directive(directive),
        ),
        ComputeRecord::Residency(declared) => ComputeOutcome::Residency(
            note_compute_residency(declared),
        ),
        ComputeRecord::Encoder { opcode, refusal } => match refusal {
            Some(refusal) => ComputeOutcome::Encoder(
                Some(note_compute_record_refused(opcode, refusal)),
            ),
            None => ComputeOutcome::Encoder(None),
        },
        ComputeRecord::Unsettled { kind, fence_ref, ran } => ComputeOutcome::Unsettled(
            handle_compute_sequencing(fences, out, task_id, kind, fence_ref, ran),
        ),
    }
}

/// A record of control flow, or one that executes commands, is counted as failed
/// just where it did not run, each under its own count; nothing else of the
/// result changes.
pub proof fn lemma_a_failure_is_counted_under_its_own_kind(
    out: ExecResultView,
    kind: ComputeKind,
    ran: bool,
)
    ensures
        ({
            let after = sequenced(out, kind, ran);
            let control = kind is ControlStartDoWhile || kind is ControlEndDoWhile || kind
                is ControlStartWhile || kind is ControlEndWhile || kind is ControlStartIf || kind
                is ControlStartElse || kind is ControlEndIf;
            let executes = kind is ExecuteCommandsInBuffer || kind
                is ExecuteCommandsInBufferIndirect;
            &&& ran ==> after == out
            &&& !control && !executes ==> after == out
            &&& !ran && control && out.compute_control_fail < u32::MAX
                ==> after.compute_control_fail == out.compute_control_fail + 1
            &&& !ran && executes && out.compute_icb_fail < u32::MAX ==> after.compute_icb_fail
                == out.compute_icb_fail + 1
            &&& !control ==> after.compute_control_fail == out.compute_control_fail
            &&& !executes ==> after.compute_icb_fail == out.compute_icb_fail
            &&& after == (ExecResultView {
                compute_control_fail: after.compute_control_fail,
                compute_icb_fail: after.compute_icb_fail,
                ..out
            })
        }),
        sequencing_of(kind) matches ComputeSequencing::Fence(action) ==> {
            &&& action is Update <==> kind is UpdateFence
            &&& action is Wait <==> kind is WaitFence
        },
        (kind is UpdateFence || kind is WaitFence) <==> sequencing_of(kind) is Fence,
{
}

/// A record of the compute rail goes where its class says.
pub proof fn lemma_a_compute_record_has_its_door(home: Option<OperationHome>, residency: bool)
    ensures
        compute_door_of(home, residency) is Barrier <==> home == Some(
            OperationHome::Stream(OperationClass::Barrier),
        ),
        compute_door_of(home, residency) is ContentDirective <==> home == Some(
            OperationHome::Stream(OperationClass::ResourceState),
        ),
        compute_door_of(home, residency) is Encoder <==> home == Some(
            OperationHome::Stream(OperationClass::Compute),
        ),
        compute_door_of(home, residency) is Residency <==> home is None && residency,
{
}

} // verus!
