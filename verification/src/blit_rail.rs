//! The blit rail of a stream: which group a record belongs to, and what is
//! counted for it.

use vstd::prelude::*;

use crate::compute_rail::ContentDirective;
use crate::fence_exec::{
    blit_status_from_fence, execute_fence, fence_step, BlitFenceStatus, Domain, FenceAction,
    FenceStatusView, FenceTable,
};
use crate::refusals::{fields_view, FieldValue, FieldView};
use crate::render_rail::{OperationClass, OperationHome};

verus! {

/// What handles a record of the blit rail.
#[derive(Clone, Copy, Debug, PartialEq, Eq, Structural)]
pub enum BlitDoor {
    ContentDirective,
    Fence,
    IndirectCommand,
    Transfer,
    Unsettled,
    /// A class that the rail does not carry.
    WrongClass,
}

/// What handles a record of the blit rail.
pub open spec fn blit_door_of(home: Option<OperationHome>) -> BlitDoor {
    match home {
        Some(OperationHome::Stream(class)) => match class {
            OperationClass::ResourceState => BlitDoor::ContentDirective,
            OperationClass::Fence => BlitDoor::Fence,
            OperationClass::IndirectCommand => BlitDoor::IndirectCommand,
            OperationClass::Blit => BlitDoor::Transfer,
            _ => BlitDoor::WrongClass,
        },
        _ => BlitDoor::Unsettled,
    }
}

/// What handles a record of the blit rail.
pub fn blit_door(home: Option<OperationHome>) -> (door: BlitDoor)
    ensures
        door == blit_door_of(home),
{
    match home {
        Some(OperationHome::Stream(class)) => match class {
            OperationClass::ResourceState => BlitDoor::ContentDirective,
            OperationClass::Fence => BlitDoor::Fence,
            OperationClass::IndirectCommand => BlitDoor::IndirectCommand,
            OperationClass::Blit => BlitDoor::Transfer,
            _ => BlitDoor::WrongClass,
        },
        _ => BlitDoor::Unsettled,
    }
}

/// The name for a directive on the blit rail.
pub open spec fn blit_directive_route(directive: ContentDirective) -> Seq<char> {
    match directive {
        ContentDirective::Synchronize => "blit_noop_synchronize"@,
        ContentDirective::OptimizeForCpu => "blit_noop_optimize_for_cpu"@,
        ContentDirective::OptimizeForGpu => "blit_noop_optimize_for_gpu"@,
        ContentDirective::InvalidateCompressed => "blit_noop_invalidate_compressed"@,
        ContentDirective::FlushCompressedReinterpretation => {
            "blit_noop_flush_compressed_reinterpretation"@
        },
    }
}

/// Names a directive on the blit rail.
pub fn note_blit_content_directive(directive: ContentDirective) -> (route: &'static str)
    ensures
        route@ == blit_directive_route(directive),
{
    match directive {
        ContentDirective::Synchronize => "blit_noop_synchronize",
        ContentDirective::OptimizeForCpu => "blit_noop_optimize_for_cpu",
        ContentDirective::OptimizeForGpu => "blit_noop_optimize_for_gpu",
        ContentDirective::InvalidateCompressed => "blit_noop_invalidate_compressed",
        ContentDirective::FlushCompressedReinterpretation => {
            "blit_noop_flush_compressed_reinterpretation"
        },
    }
}

/// What a record does with an indirect command buffer.
#[derive(Clone, Copy, Debug, PartialEq, Eq, Structural)]
pub enum IcbMutation {
    Optimize,
    Reset,
    Copy,
    Unclassified,
}

/// The name for an indirect command record, and whether it is a loss: a hint is
/// free to skip, and a change is not.
pub open spec fn icb_note(mutation: IcbMutation) -> (Seq<char>, bool) {
    match mutation {
        IcbMutation::Optimize => ("blit_noop_icb_optimize"@, false),
        IcbMutation::Reset => ("blit_icb_reset_dropped"@, true),
        IcbMutation::Copy => ("blit_icb_copy_dropped"@, true),
        IcbMutation::Unclassified => ("blit_icb_unclassified"@, true),
    }
}

/// Names an indirect command record, and says whether it is a loss.
pub fn note_blit_icb_dropped(mutation: IcbMutation) -> (note: (&'static str, bool))
    ensures
        (note.0@, note.1) == icb_note(mutation),
{
    match mutation {
        IcbMutation::Optimize => ("blit_noop_icb_optimize", false),
        IcbMutation::Reset => ("blit_icb_reset_dropped", true),
        IcbMutation::Copy => ("blit_icb_copy_dropped", true),
        IcbMutation::Unclassified => ("blit_icb_unclassified", true),
    }
}

/// What a texture is filled with.
#[derive(Clone, Copy, Debug, PartialEq, Eq, Structural)]
pub enum TextureFillSource {
    Color,
    Bytes,
}

impl TextureFillSource {
    pub open spec fn name_of(self) -> Seq<char> {
        match self {
            TextureFillSource::Color => "Color"@,
            TextureFillSource::Bytes => "Bytes"@,
        }
    }

    /// The source's name in a report.
    pub fn name(self) -> (name: &'static str)
        ensures
            name@ == self.name_of(),
    {
        match self {
            TextureFillSource::Color => "Color",
            TextureFillSource::Bytes => "Bytes",
        }
    }
}

/// A record of the blit rail that is not settled.
#[derive(Clone, Copy, Debug, PartialEq, Eq, Structural)]
pub enum UnsettledBlit {
    IcbMutation(IcbMutation),
    TextureFill(TextureFillSource),
}

/// The loss that an unsettled record stands for.
pub open spec fn unsettled_blit_slug(record: UnsettledBlit) -> Seq<char> {
    match record {
        UnsettledBlit::IcbMutation(mutation) => match mutation {
            IcbMutation::Reset => "blit_icb_reset_dropped"@,
            IcbMutation::Copy => "blit_icb_copy_dropped"@,
            _ => "blit_icb_unclassified"@,
        },
        UnsettledBlit::TextureFill(source) => match source {
            TextureFillSource::Color => "blit_fill_texture_color_dropped"@,
            TextureFillSource::Bytes => "blit_fill_texture_bytes_dropped"@,
        },
    }
}

/// Names the loss that an unsettled record stands for.
pub fn handle_blit_unsettled_record(record: UnsettledBlit) -> (slug: &'static str)
    ensures
        slug@ == unsettled_blit_slug(record),
{
    match record {
        UnsettledBlit::IcbMutation(mutation) => match mutation {
            IcbMutation::Reset => "blit_icb_reset_dropped",
            IcbMutation::Copy => "blit_icb_copy_dropped",
            _ => "blit_icb_unclassified",
        },
        UnsettledBlit::TextureFill(source) => match source {
            TextureFillSource::Color => "blit_fill_texture_color_dropped",
            TextureFillSource::Bytes => "blit_fill_texture_bytes_dropped",
        },
    }
}

/// The values that a report of an unsettled record states.
pub open spec fn unsettled_blit_fields(record: UnsettledBlit, opcode: u32) -> Seq<
    (Seq<char>, FieldView),
> {
    match record {
        UnsettledBlit::IcbMutation(_) => seq![("opcode"@, FieldView::Hex(opcode as u64))],
        UnsettledBlit::TextureFill(source) => seq![("source"@, FieldView::Name(source.name_of()))],
    }
}

/// The values that a report of an unsettled record states.
pub fn note_unsettled_blit(record: UnsettledBlit, opcode: u32) -> (fields: Vec<
    (&'static str, FieldValue),
>)
    ensures
        fields_view(fields@) == unsettled_blit_fields(record, opcode),
{
    let fields = match record {
        UnsettledBlit::IcbMutation(_) => vec![("opcode", FieldValue::Hex(opcode as u64))],
        UnsettledBlit::TextureFill(source) => vec![("source", FieldValue::Name(source.name()))],
    };
    assert(fields_view(fields@) =~= unsettled_blit_fields(record, opcode));
    fields
}

/// What a transfer moves.
#[derive(Clone, Copy, Debug, PartialEq, Eq, Structural)]
pub enum TransferKind {
    FillBuffer,
    FillBufferPattern4,
    GenerateMipmaps,
    Copy,
}

/// Whether a name is for a number or for a time.
#[derive(Clone, Copy, Debug, PartialEq, Eq, Structural)]
pub enum Measure {
    Count,
    Micros,
}

/// The name for a transfer.
pub open spec fn transfer_route_of(kind: TransferKind, measure: Measure) -> Seq<char> {
    match (kind, measure) {
        (
            TransferKind::FillBuffer | TransferKind::FillBufferPattern4,
            Measure::Micros,
        ) => "blitrec_fill_us"@,
        (
            TransferKind::FillBuffer | TransferKind::FillBufferPattern4,
            Measure::Count,
        ) => "blitrec_fill_n"@,
        (TransferKind::GenerateMipmaps, Measure::Micros) => "blitrec_noop_us"@,
        (TransferKind::GenerateMipmaps, Measure::Count) => "blitrec_noop_n"@,
        (TransferKind::Copy, Measure::Micros) => "blitrec_copy_us"@,
        (TransferKind::Copy, Measure::Count) => "blitrec_copy_n"@,
    }
}

/// Names a transfer.
pub fn transfer_route(kind: TransferKind, measure: Measure) -> (route: &'static str)
    ensures
        route@ == transfer_route_of(kind, measure),
{
    match kind {
        TransferKind::FillBuffer | TransferKind::FillBufferPattern4 => match measure {
            Measure::Micros => "blitrec_fill_us",
            Measure::Count => "blitrec_fill_n",
        },
        TransferKind::GenerateMipmaps => match measure {
            Measure::Micros => "blitrec_noop_us",
            Measure::Count => "blitrec_noop_n",
        },
        TransferKind::Copy => match measure {
            Measure::Micros => "blitrec_copy_us",
            Measure::Count => "blitrec_copy_n",
        },
    }
}

/// What a transfer came to.
#[derive(Clone, Copy, Debug, PartialEq, Eq, Structural)]
pub enum TransferStatus {
    Moved,
    ZeroExtent,
    Failed,
}

/// Whether a transfer is a loss. One of nothing is none.
pub fn handle_blit_transfer_record(kind: TransferKind, status: TransferStatus) -> (note: (
    bool,
    &'static str,
    &'static str,
))
    ensures
        note.0 <==> status == TransferStatus::Failed || (kind == TransferKind::GenerateMipmaps
            && status != TransferStatus::Moved),
        note.1@ == transfer_route_of(kind, Measure::Micros),
        note.2@ == transfer_route_of(kind, Measure::Count),
{
    let lost = match status {
        TransferStatus::Moved => false,
        TransferStatus::ZeroExtent => kind == TransferKind::GenerateMipmaps,
        TransferStatus::Failed => true,
    };
    (lost, transfer_route(kind, Measure::Micros), transfer_route(kind, Measure::Count))
}

/// The names for a record that is no transfer: its time, and its number. A
/// transfer has names of its own.
pub open spec fn blit_record_routes(door: BlitDoor) -> Option<(Seq<char>, Seq<char>)> {
    match door {
        BlitDoor::Transfer => None,
        BlitDoor::Fence => Some(("blitrec_fence_us"@, "blitrec_fence_n"@)),
        BlitDoor::ContentDirective => Some(("blitrec_noop_us"@, "blitrec_noop_n"@)),
        _ => Some(("blitrec_other_us"@, "blitrec_other_n"@)),
    }
}

/// Names a record that is no transfer.
pub fn note_blit_record(door: BlitDoor) -> (routes: Option<(&'static str, &'static str)>)
    ensures
        match routes {
            Some((micros, count)) => blit_record_routes(door) == Some((micros@, count@)),
            None => blit_record_routes(door) is None,
        },
{
    match door {
        BlitDoor::Transfer => None,
        BlitDoor::Fence => Some(("blitrec_fence_us", "blitrec_fence_n")),
        BlitDoor::ContentDirective => Some(("blitrec_noop_us", "blitrec_noop_n")),
        _ => Some(("blitrec_other_us", "blitrec_other_n")),
    }
}

/// Updates a fence of the blit rail, or waits for it.
pub fn execute_blit_fence(
    fences: &mut FenceTable,
    task_id: u32,
    fence_ref: u32,
    action: FenceAction,
) -> (status: BlitFenceStatus)
    ensures
        ({
            let step = fence_step(old(fences)@, task_id, Domain::BlitFence, fence_ref, action);
            &&& final(fences)@ == step.0
            &&& match step.1 {
                FenceStatusView::Passed => status is Passed,
                FenceStatusView::Pending => status is Pending,
                FenceStatusView::Missing => status is Missing,
                FenceStatusView::Unsupported(reason) => status.reason_of() == Some(reason)
                    && status is Unsupported,
            }
        }),
{
    blit_status_from_fence(execute_fence(fences, task_id, Domain::BlitFence, fence_ref, action))
}

/// A record of the blit rail, and what came of moving its bytes.
#[derive(Clone, Copy, Debug, PartialEq, Eq, Structural)]
pub enum BlitRecord {
    ContentDirective(ContentDirective),
    Fence { fence_ref: u32, action: FenceAction },
    IndirectCommand(IcbMutation),
    Transfer { kind: TransferKind, status: TransferStatus },
    Unsettled(UnsettledBlit),
    WrongClass,
}

impl BlitRecord {
    /// What handles the record.
    pub open spec fn door_of(self) -> BlitDoor {
        match self {
            BlitRecord::ContentDirective(_) => BlitDoor::ContentDirective,
            BlitRecord::Fence { .. } => BlitDoor::Fence,
            BlitRecord::IndirectCommand(_) => BlitDoor::IndirectCommand,
            BlitRecord::Transfer { .. } => BlitDoor::Transfer,
            BlitRecord::Unsettled(_) => BlitDoor::Unsettled,
            BlitRecord::WrongClass => BlitDoor::WrongClass,
        }
    }

    fn door(self) -> (door: BlitDoor)
        ensures
            door == self.door_of(),
    {
        match self {
            BlitRecord::ContentDirective(_) => BlitDoor::ContentDirective,
            BlitRecord::Fence { .. } => BlitDoor::Fence,
            BlitRecord::IndirectCommand(_) => BlitDoor::IndirectCommand,
            BlitRecord::Transfer { .. } => BlitDoor::Transfer,
            BlitRecord::Unsettled(_) => BlitDoor::Unsettled,
            BlitRecord::WrongClass => BlitDoor::WrongClass,
        }
    }
}

/// What became of a record of the blit rail.
#[derive(Clone, Copy, Debug, PartialEq, Eq)]
pub struct BlitOutcome {
    /// The name under which the record is counted, if it has one of its own.
    pub route: Option<&'static str>,
    /// Whether the guest loses by it.
    pub lost: bool,
    /// What a fence came to.
    pub fence: Option<BlitFenceStatus>,
    /// The names for its time and its number.
    pub measured: Option<(&'static str, &'static str)>,
}

/// The name under which a record is counted, and whether the guest loses by it.
pub open spec fn blit_note(record: BlitRecord) -> (Option<Seq<char>>, bool) {
    match record {
        BlitRecord::ContentDirective(directive) => (Some(blit_directive_route(directive)), false),
        BlitRecord::IndirectCommand(mutation) => (
            Some(icb_note(mutation).0),
            icb_note(mutation).1,
        ),
        BlitRecord::Transfer { kind, status } => (
            None,
            status == TransferStatus::Failed || (kind == TransferKind::GenerateMipmaps && status
                != TransferStatus::Moved),
        ),
        BlitRecord::Unsettled(unsettled) => (Some(unsettled_blit_slug(unsettled)), true),
        BlitRecord::WrongClass => (None, true),
        BlitRecord::Fence { .. } => (None, false),
    }
}

/// The names for a record's time and its number.
pub open spec fn blit_measured(record: BlitRecord) -> Option<(Seq<char>, Seq<char>)> {
    match record {
        BlitRecord::Transfer { kind, .. } => Some(
            (transfer_route_of(kind, Measure::Micros), transfer_route_of(kind, Measure::Count)),
        ),
        _ => blit_record_routes(record.door_of()),
    }
}

/// Applies a record of the blit rail: fences are kept here, and the rest is
/// counted.
pub fn handle_blit_record(fences: &mut FenceTable, task_id: u32, record: &BlitRecord) -> (outcome:
    BlitOutcome)
    ensures
        match outcome.route {
            Some(route) => blit_note(*record).0 == Some(route@),
            None => blit_note(*record).0 is None,
        },
        outcome.lost == blit_note(*record).1,
        match outcome.measured {
            Some((micros, count)) => blit_measured(*record) == Some((micros@, count@)),
            None => blit_measured(*record) is None,
        },
        match *record {
            BlitRecord::Fence { fence_ref, action } => {
                let step = fence_step(old(fences)@, task_id, Domain::BlitFence, fence_ref, action);
                &&& final(fences)@ == step.0
                &&& match (step.1, outcome.fence) {
                    (FenceStatusView::Passed, Some(BlitFenceStatus::Passed)) => true,
                    (FenceStatusView::Pending, Some(BlitFenceStatus::Pending)) => true,
                    (FenceStatusView::Missing, Some(BlitFenceStatus::Missing)) => true,
                    (
                        FenceStatusView::Unsupported(reason),
                        Some(BlitFenceStatus::Unsupported(kept)),
                    ) => kept@ == reason,
                    _ => false,
                }
            },
            _ => final(fences)@ == old(fences)@ && outcome.fence is None,
        },
{
    let measured = note_blit_record(record.door());
    match *record {
        BlitRecord::ContentDirective(directive) => BlitOutcome {
            route: Some(note_blit_content_directive(directive)),
            lost: false,
            fence: None,
            measured,
        },
        BlitRecord::Fence { fence_ref, action } => BlitOutcome {
            route: None,
            lost: false,
            fence: Some(execute_blit_fence(fences, task_id, fence_ref, action)),
            measured,
        },
        BlitRecord::IndirectCommand(mutation) => {
            let (route, lost) = note_blit_icb_dropped(mutation);
            BlitOutcome { route: Some(route), lost, fence: None, measured }
        },
        BlitRecord::Transfer { kind, status } => {
            let (lost, micros, count) = handle_blit_transfer_record(kind, status);
            BlitOutcome { route: None, lost, fence: None, measured: Some((micros, count)) }
        },
        BlitRecord::Unsettled(unsettled) => BlitOutcome {
            route: Some(handle_blit_unsettled_record(unsettled)),
            lost: true,
            fence: None,
            measured,
        },
        BlitRecord::WrongClass => BlitOutcome { route: None, lost: true, fence: None, measured },
    }
}

/// A record of the blit rail goes where its class says, and is a loss if and
/// only if it asks for what nothing does, or for bytes that were not moved.
pub proof fn lemma_a_blit_record_is_lost_where_nothing_moves(
    home: Option<OperationHome>,
    kind: TransferKind,
    status: TransferStatus,
    unsettled: UnsettledBlit,
    directive: ContentDirective,
)
    ensures
        blit_door_of(home) is Fence <==> home == Some(OperationHome::Stream(OperationClass::Fence)),
        blit_door_of(home) is Transfer <==> home == Some(
            OperationHome::Stream(OperationClass::Blit),
        ),
        blit_door_of(home) is IndirectCommand <==> home == Some(
            OperationHome::Stream(OperationClass::IndirectCommand),
        ),
        blit_door_of(home) is ContentDirective <==> home == Some(
            OperationHome::Stream(OperationClass::ResourceState),
        ),
        blit_note(BlitRecord::Transfer { kind, status }).1 <==> status is Failed || (kind
            is GenerateMipmaps && !(status is Moved)),
        status is Moved ==> !blit_note(BlitRecord::Transfer { kind, status }).1,
        blit_note(BlitRecord::Unsettled(unsettled)).1,
        !blit_note(BlitRecord::ContentDirective(directive)).1,
{
}

} // verus!
