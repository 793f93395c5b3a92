//! The pass of a render stream: its attachments, and their store actions.

use vstd::prelude::*;

use crate::census::{coverage_slug, name_view, note_pass_extent_coverage};
use crate::command::{ColorAttachment, DepthAttachment, StencilAttachment};
use crate::exec_result::{list_once, listed, ExecResult, ExecResultView};
use crate::raster::LOAD_ACTION_CLEAR;
use crate::refusals::{PassAspect, StreamDrawDrop, StreamRefusal};
use crate::stream_accum::{first_refusal, AccumView, BindStateView, StreamAccum};

verus! {

/// A place in a texture that a pass names.
#[derive(Clone, Copy, Debug, PartialEq, Eq, Structural)]
pub struct AttachSubresource {
    pub level: u32,
    pub slice: u32,
    pub depth_plane: u32,
    pub resolve_texture_ref: u32,
}

/// Whether a depth or stencil attachment can be bound: only the base of its
/// texture, and without a resolve.
pub open spec fn base_only(place: AttachSubresource) -> bool {
    place.level == 0 && place.slice == 0 && place.depth_plane == 0 && place.resolve_texture_ref
        == 0
}

/// Whether a colour attachment can be bound: any level, but only the first
/// slice and plane. A resolve is the end of the pass, not a place in it.
pub open spec fn any_level(place: AttachSubresource) -> bool {
    place.slice == 0 && place.depth_plane == 0
}

/// Whether a depth or stencil attachment can be bound.
pub fn attachment_subresource_is_bindable(place: AttachSubresource) -> (bindable: bool)
    ensures
        bindable == base_only(place),
{
    place.level == 0 && place.slice == 0 && place.depth_plane == 0 && place.resolve_texture_ref
        == 0
}

/// Whether a colour attachment can be bound.
pub fn color_attachment_subresource_is_bindable(place: AttachSubresource) -> (bindable: bool)
    ensures
        bindable == any_level(place),
{
    place.slice == 0 && place.depth_plane == 0
}

/// The place that a depth attachment names.
pub open spec fn depth_place(depth: DepthAttachment) -> AttachSubresource {
    AttachSubresource {
        level: depth.level,
        slice: depth.slice,
        depth_plane: depth.depth_plane,
        resolve_texture_ref: depth.resolve_texture_ref,
    }
}

/// The place that a stencil attachment names.
pub open spec fn stencil_place(stencil: StencilAttachment) -> AttachSubresource {
    AttachSubresource {
        level: stencil.level,
        slice: stencil.slice,
        depth_plane: stencil.depth_plane,
        resolve_texture_ref: stencil.resolve_texture_ref,
    }
}

/// The place that a colour attachment names.
pub open spec fn color_place(color: ColorAttachment) -> AttachSubresource {
    AttachSubresource {
        level: color.level,
        slice: color.slice,
        depth_plane: color.depth_plane,
        resolve_texture_ref: color.resolve_texture_ref,
    }
}

/// The loss of a depth or stencil attachment.
pub open spec fn depth_stencil_drop(aspect: PassAspect, place: AttachSubresource) -> StreamDrawDrop {
    StreamDrawDrop::DepthStencilUnsupported {
        aspect,
        level: place.level,
        slice: place.slice,
        depth_plane: place.depth_plane,
        resolve_texture_ref: place.resolve_texture_ref,
    }
}

/// The loss of a depth or stencil attachment.
pub fn note_depth_stencil_unsupported(aspect: PassAspect, place: AttachSubresource) -> (drop:
    StreamDrawDrop)
    ensures
        drop == depth_stencil_drop(aspect, place),
{
    StreamDrawDrop::DepthStencilUnsupported {
        aspect,
        level: place.level,
        slice: place.slice,
        depth_plane: place.depth_plane,
        resolve_texture_ref: place.resolve_texture_ref,
    }
}

/// The loss of a colour attachment.
pub open spec fn color_drop(slot: u32, color: ColorAttachment) -> StreamDrawDrop {
    StreamDrawDrop::ColorSubresourceUnsupported {
        slot,
        level: color.level,
        slice: color.slice,
        depth_plane: color.depth_plane,
        resolve_texture_ref: color.resolve_texture_ref,
    }
}

/// The loss of a colour attachment.
pub fn note_color_subresource_unsupported(slot: u32, color: &ColorAttachment) -> (drop:
    StreamDrawDrop)
    ensures
        drop == color_drop(slot, *color),
{
    StreamDrawDrop::ColorSubresourceUnsupported {
        slot,
        level: color.level,
        slice: color.slice,
        depth_plane: color.depth_plane,
        resolve_texture_ref: color.resolve_texture_ref,
    }
}

/// A colour slot of a pass, with what is known of the texture it publishes.
#[derive(Clone, Copy, Debug, PartialEq, Eq)]
pub struct PassColor {
    pub attachment: ColorAttachment,
    /// The mapping that the published texture names through the mapper.
    pub mapper: Option<u32>,
    /// Whether the published texture is itself a mapping.
    pub backing: bool,
    /// The size of that mapping, where it is known.
    pub geometry: Option<(u32, u32)>,
}

/// The pass of a stream, as its record states it.
#[derive(Debug, PartialEq, Eq)]
pub struct PassDescriptor {
    pub visibility_result_buffer_ref: u32,
    pub render_target_array_length: u64,
    pub render_target_width: u64,
    pub render_target_height: u64,
    pub depth: DepthAttachment,
    pub stencil: StencilAttachment,
    /// The colour slots, from slot 0 on.
    pub color: Vec<PassColor>,
}

/// What is noted of the target in colour slot 0. It is named once for each
/// task, mapping and size.
#[derive(Clone, Copy, Debug, PartialEq, Eq)]
pub struct PassTargetNote {
    pub task_id: u32,
    pub mapping_id: u32,
    /// The size of the mapping, where it is known.
    pub geometry: Option<(u32, u32)>,
    /// The band of the pass's extent.
    pub extent: Option<&'static str>,
}

/// What contracts say of the target in colour slot 0.
pub struct TargetNoteView {
    pub task_id: u32,
    pub mapping_id: u32,
    pub geometry: Option<(u32, u32)>,
    pub extent: Option<Seq<char>>,
}

impl View for PassTargetNote {
    type V = TargetNoteView;

    open spec fn view(&self) -> TargetNoteView {
        TargetNoteView {
            task_id: self.task_id,
            mapping_id: self.mapping_id,
            geometry: self.geometry,
            extent: name_view(self.extent),
        }
    }
}

/// What is noted of a target that may be absent.
pub open spec fn target_view(note: Option<PassTargetNote>) -> Option<TargetNoteView> {
    match note {
        Some(note) => Some(note@),
        None => None,
    }
}

/// What is noted of a colour slot's target: only slot 0 is.
pub open spec fn target_noted(
    task_id: u32,
    slot: u32,
    mapping_id: u32,
    extent: (u64, u64),
    geometry: Option<(u32, u32)>,
) -> Option<TargetNoteView> {
    if slot != 0 {
        None
    } else {
        Some(
            TargetNoteView {
                task_id,
                mapping_id,
                geometry,
                extent: match geometry {
                    Some((width, height)) => coverage_slug(extent.0, extent.1, width, height),
                    None => None,
                },
            },
        )
    }
}

/// Notes a colour slot's target.
pub fn note_pass_extent_for_slot(
    task_id: u32,
    slot: u32,
    mapping_id: u32,
    extent: (u64, u64),
    geometry: Option<(u32, u32)>,
) -> (note: Option<PassTargetNote>)
    ensures
        target_view(note) == target_noted(task_id, slot, mapping_id, extent, geometry),
{
    if slot != 0 {
        return None;
    }
    let slug = match geometry {
        Some((width, height)) => note_pass_extent_coverage(extent.0, extent.1, width, height),
        None => None,
    };
    Some(
        PassTargetNote {
            task_id,
            mapping_id,
            geometry,
            extent: slug,
        },
    )
}

/// The texture that a colour attachment publishes.
pub open spec fn published_ref(color: ColorAttachment) -> u32 {
    if color.resolve_texture_ref != 0 {
        color.resolve_texture_ref
    } else {
        color.texture_ref
    }
}

/// Where in the list a slot's attachment is.
pub open spec fn slot_position(slots: Seq<(u32, ColorAttachment)>, slot: u32) -> Option<int>
    decreases slots.len(),
{
    if slots.len() == 0 {
        None
    } else {
        match slot_position(slots.drop_last(), slot) {
            Some(position) => Some(position),
            None => if slots.last().0 == slot {
                Some(slots.len() - 1)
            } else {
                None
            },
        }
    }
}

/// Whether a texture is attached already.
pub open spec fn attached(slots: Seq<(u32, ColorAttachment)>, texture_ref: u32) -> bool {
    exists|i: int| 0 <= i < slots.len() && (#[trigger] slots[i]).1.texture_ref == texture_ref
}

/// The colour slots after one more attachment: it replaces the one in its slot,
/// and a texture that another slot attaches already is not attached twice.
pub open spec fn slots_with(
    slots: Seq<(u32, ColorAttachment)>,
    slot: u32,
    color: ColorAttachment,
) -> Seq<(u32, ColorAttachment)> {
    match slot_position(slots, slot) {
        Some(at) => slots.update(at, (slots[at].0, color)),
        None => if attached(slots, color.texture_ref) {
            slots
        } else {
            slots.push((slot, color))
        },
    }
}

proof fn lemma_slot_position(slots: Seq<(u32, ColorAttachment)>, slot: u32)
    ensures
        match slot_position(slots, slot) {
            Some(p) => {
                &&& 0 <= p < slots.len()
                &&& slots[p].0 == slot
                &&& forall|j: int| 0 <= j < p ==> (#[trigger] slots[j]).0 != slot
            },
            None => forall|j: int| 0 <= j < slots.len() ==> (#[trigger] slots[j]).0 != slot,
        },
    decreases slots.len(),
{
    if slots.len() > 0 {
        let earlier = slots.drop_last();
        lemma_slot_position(earlier, slot);
        match slot_position(earlier, slot) {
            Some(p) => {
                assert(slots[p] == earlier[p]);
                assert forall|j: int| 0 <= j < p implies (#[trigger] slots[j]).0 != slot by {
                    assert(slots[j] == earlier[j]);
                }
            },
            None => {
                assert forall|j: int| 0 <= j < slots.len() - 1 implies (#[trigger] slots[j]).0
                    != slot by {
                    assert(slots[j] == earlier[j]);
                }
            },
        }
    }
}

fn find_color_slot(slots: &Vec<(u32, ColorAttachment)>, slot: u32) -> (found: Option<usize>)
    ensures
        match found {
            Some(at) => slot_position(slots@, slot) == Some(at as int) && at < slots@.len(),
            None => slot_position(slots@, slot) is None,
        },
{
    proof {
        lemma_slot_position(slots@, slot);
    }
    let mut i: usize = 0;
    while i < slots.len()
        invariant
            i <= slots@.len(),
            forall|j: int| 0 <= j < i ==> (#[trigger] slots@[j]).0 != slot,
            match slot_position(slots@, slot) {
                Some(p) => {
                    &&& 0 <= p < slots@.len()
                    &&& slots@[p].0 == slot
                    &&& forall|j: int| 0 <= j < p ==> (#[trigger] slots@[j]).0 != slot
                },
                None => forall|j: int|
                    0 <= j < slots@.len() ==> (#[trigger] slots@[j]).0 != slot,
            },
        decreases slots.len() - i,
    {
        if slots[i].0 == slot {
            return Some(i);
        }
        i += 1;
    }
    None
}

fn is_attached(slots: &Vec<(u32, ColorAttachment)>, texture_ref: u32) -> (is: bool)
    ensures
        is == attached(slots@, texture_ref),
{
    let mut i: usize = 0;
    while i < slots.len()
        invariant
            i <= slots@.len(),
            forall|j: int| 0 <= j < i ==> (#[trigger] slots@[j]).1.texture_ref != texture_ref,
        decreases slots.len() - i,
    {
        if slots[i].1.texture_ref == texture_ref {
            assert(slots@[i as int].1.texture_ref == texture_ref);
            return true;
        }
        i += 1;
    }
    false
}

fn put_color_slot(slots: &mut Vec<(u32, ColorAttachment)>, slot: u32, color: ColorAttachment)
    ensures
        final(slots)@ == slots_with(old(slots)@, slot, color),
{
    match find_color_slot(slots, slot) {
        Some(at) => {
            let held = slots[at].0;
            slots.set(at, (held, color));
        },
        None => {
            if !is_attached(slots, color.texture_ref) {
                slots.push((slot, color));
            }
        },
    }
}

/// No slot of a pass has two attachments.
pub open spec fn distinct_color_slots(slots: Seq<(u32, ColorAttachment)>) -> bool {
    forall|i: int, j: int|
        0 <= i < j < slots.len() ==> (#[trigger] slots[i]).0 != (#[trigger] slots[j]).0
}

/// Attaching a colour keeps one attachment for each slot.
pub proof fn lemma_color_slots_stay_distinct(
    slots: Seq<(u32, ColorAttachment)>,
    slot: u32,
    color: ColorAttachment,
)
    requires
        distinct_color_slots(slots),
    ensures
        distinct_color_slots(slots_with(slots, slot, color)),
{
    lemma_slot_position(slots, slot);
    let after = slots_with(slots, slot, color);
    assert forall|i: int, j: int| 0 <= i < j < after.len() implies (#[trigger] after[i]).0 != (
    #[trigger] after[j]).0 by {
        if j < slots.len() {
            assert(after[i].0 == slots[i].0);
            assert(after[j].0 == slots[j].0);
        } else {
            assert(after[i].0 == slots[i].0);
        }
    }
}

/// What a pass came to, beside the stream and the result: what it lost, in
/// order, and what is noted of its target.
#[verifier::ext_equal]
pub struct PassView {
    pub acc: AccumView,
    pub out: ExecResultView,
    pub drops: Seq<StreamDrawDrop>,
    pub target: Option<TargetNoteView>,
}

/// A pass that loses one thing more.
pub open spec fn pass_dropped(pass: PassView, drop: StreamDrawDrop) -> PassView {
    PassView {
        acc: AccumView {
            unrepresentable: first_refusal(pass.acc.unrepresentable, StreamRefusal::Pass(drop)),
            ..pass.acc
        },
        drops: pass.drops.push(drop),
        ..pass
    }
}

/// A pass with its depth attachment.
pub open spec fn with_depth(pass: PassView, depth: DepthAttachment) -> PassView {
    if depth.texture_ref == 0 {
        pass
    } else if base_only(depth_place(depth)) {
        PassView {
            acc: AccumView {
                state: BindStateView { depth_attach: Some(depth), ..pass.acc.state },
                ..pass.acc
            },
            ..pass
        }
    } else {
        pass_dropped(pass, depth_stencil_drop(PassAspect::Depth, depth_place(depth)))
    }
}

/// A pass with its stencil attachment.
pub open spec fn with_stencil(pass: PassView, stencil: StencilAttachment) -> PassView {
    if stencil.texture_ref == 0 {
        pass
    } else if base_only(stencil_place(stencil)) {
        PassView {
            acc: AccumView {
                state: BindStateView { stencil_attach: Some(stencil), ..pass.acc.state },
                ..pass.acc
            },
            ..pass
        }
    } else {
        pass_dropped(pass, depth_stencil_drop(PassAspect::Stencil, stencil_place(stencil)))
    }
}

/// The mapping that a colour slot publishes.
pub open spec fn published_mapping(color: PassColor) -> Option<u32> {
    match color.mapper {
        Some(mapping) => Some(mapping),
        None => if color.backing {
            Some(published_ref(color.attachment))
        } else {
            None
        },
    }
}

/// A pass with a colour attachment.
pub open spec fn with_color(
    pass: PassView,
    task_id: u32,
    extent: (u64, u64),
    slot: u32,
    color: PassColor,
) -> PassView {
    let att = color.attachment;
    if att.texture_ref == 0 {
        pass
    } else {
        let held = if any_level(color_place(att)) {
            pass
        } else {
            pass_dropped(pass, color_drop(slot, att))
        };
        let refs = listed(held.out.texture_refs, att.texture_ref);
        PassView {
            acc: AccumView {
                color_slots: slots_with(held.acc.color_slots, slot, att),
                color_targets: listed(held.acc.color_targets, published_ref(att)),
                clears: if att.load_action == LOAD_ACTION_CLEAR {
                    held.acc.clears.push(att)
                } else {
                    held.acc.clears
                },
                ..held.acc
            },
            out: ExecResultView {
                texture_refs: if att.resolve_texture_ref != 0 {
                    listed(refs, att.resolve_texture_ref)
                } else {
                    refs
                },
                mapper_ref_texture_mappings: match published_mapping(color) {
                    Some(mapping) => listed(held.out.mapper_ref_texture_mappings, mapping),
                    None => held.out.mapper_ref_texture_mappings,
                },
                ..held.out
            },
            target: match published_mapping(color) {
                Some(mapping) => match target_noted(
                    task_id,
                    slot,
                    mapping,
                    extent,
                    color.geometry,
                ) {
                    Some(note) => Some(note),
                    None => held.target,
                },
                None => held.target,
            },
            ..held
        }
    }
}

/// A pass with its colour attachments.
pub open spec fn with_colors(
    pass: PassView,
    task_id: u32,
    extent: (u64, u64),
    colors: Seq<PassColor>,
) -> PassView
    decreases colors.len(),
{
    if colors.len() == 0 {
        pass
    } else {
        with_color(
            with_colors(pass, task_id, extent, colors.drop_last()),
            task_id,
            extent,
            (colors.len() - 1) as u32,
            colors.last(),
        )
    }
}

/// A pass of its descriptor's array layers.
pub open spec fn with_layers(pass: PassView, length: u64) -> PassView {
    if length > 1 {
        pass_dropped(pass, StreamDrawDrop::PassArrayLengthUnsupported { length })
    } else {
        pass
    }
}

/// What a pass descriptor makes of a stream and of its submission's result.
pub open spec fn descriptor_step(
    acc: AccumView,
    out: ExecResultView,
    task_id: u32,
    descriptor: PassDescriptor,
) -> PassView {
    let opened = PassView {
        acc: AccumView {
            visibility_buffer_ref: descriptor.visibility_result_buffer_ref,
            ..acc
        },
        out,
        drops: Seq::empty(),
        target: None,
    };
    with_colors(
        with_stencil(
            with_depth(
                with_layers(opened, descriptor.render_target_array_length),
                descriptor.depth,
            ),
            descriptor.stencil,
        ),
        task_id,
        (descriptor.render_target_width, descriptor.render_target_height),
        descriptor.color@,
    )
}

/// What is reported of a pass descriptor.
#[derive(Debug, PartialEq, Eq)]
pub struct PassReport {
    /// What the pass lost, in order.
    pub drops: Vec<StreamDrawDrop>,
    pub target: Option<PassTargetNote>,
    /// Whether the pass states an extent of its own.
    pub extent_stated: bool,
}

fn drop_pass(acc: &mut StreamAccum, drops: &mut Vec<StreamDrawDrop>, drop: StreamDrawDrop)
    ensures
        final(acc)@ == (AccumView {
            unrepresentable: first_refusal(old(acc)@.unrepresentable, StreamRefusal::Pass(drop)),
            ..old(acc)@
        }),
        final(drops)@ == old(drops)@.push(drop),
{
    acc.refuse(StreamRefusal::Pass(drop));
    drops.push(drop);
}

fn attach_color(
    acc: &mut StreamAccum,
    out: &mut ExecResult,
    drops: &mut Vec<StreamDrawDrop>,
    target: &mut Option<PassTargetNote>,
    task_id: u32,
    extent: (u64, u64),
    slot: u32,
    color: &PassColor,
)
    ensures
        (PassView {
            acc: final(acc)@,
            out: final(out)@,
            drops: final(drops)@,
            target: target_view(*final(target)),
        }) == with_color(
            PassView {
                acc: old(acc)@,
                out: old(out)@,
                drops: old(drops)@,
                target: target_view(*old(target)),
            },
            task_id,
            extent,
            slot,
            *color,
        ),
{
    let att = color.attachment;
    if att.texture_ref == 0 {
        return;
    }
    let place = AttachSubresource {
        level: att.level,
        slice: att.slice,
        depth_plane: att.depth_plane,
        resolve_texture_ref: att.resolve_texture_ref,
    };
    if !color_attachment_subresource_is_bindable(place) {
        drop_pass(acc, drops, note_color_subresource_unsupported(slot, &att));
    }
    put_color_slot(&mut acc.color_slots, slot, att);
    let published = if att.resolve_texture_ref != 0 {
        att.resolve_texture_ref
    } else {
        att.texture_ref
    };
    list_once(&mut acc.color_targets, published);
    list_once(&mut out.texture_refs, att.texture_ref);
    if att.resolve_texture_ref != 0 {
        list_once(&mut out.texture_refs, att.resolve_texture_ref);
    }
    let mapping = match color.mapper {
        Some(mapping) => Some(mapping),
        None => {
            if color.backing {
                Some(published)
            } else {
                None
            }
        },
    };
    if let Some(mapping) = mapping {
        if let Some(note) = note_pass_extent_for_slot(
            task_id,
            slot,
            mapping,
            extent,
            color.geometry,
        ) {
            *target = Some(note);
        }
        list_once(&mut out.mapper_ref_texture_mappings, mapping);
    }
    if att.load_action == LOAD_ACTION_CLEAR {
        acc.clears.push(att);
    }
}

/// Applies a pass descriptor. An attachment at a place that cannot be bound
/// makes the stream's draws unrepresentable; it never binds another place.
pub fn write_descriptor(
    acc: &mut StreamAccum,
    out: &mut ExecResult,
    task_id: u32,
    descriptor: &PassDescriptor,
) -> (report: PassReport)
    requires
        descriptor.color@.len() <= u32::MAX,
    ensures
        (PassView {
            acc: final(acc)@,
            out: final(out)@,
            drops: report.drops@,
            target: target_view(report.target),
        }) == descriptor_step(old(acc)@, old(out)@, task_id, *descriptor),
        report.extent_stated == (descriptor.render_target_width != 0
            || descriptor.render_target_height != 0),
{
    let mut drops: Vec<StreamDrawDrop> = Vec::new();
    let mut target: Option<PassTargetNote> = None;
    let extent = (descriptor.render_target_width, descriptor.render_target_height);
    acc.visibility_buffer_ref = descriptor.visibility_result_buffer_ref;
    let length = descriptor.render_target_array_length;
    if length > 1 {
        drop_pass(acc, &mut drops, StreamDrawDrop::PassArrayLengthUnsupported { length });
    }
    let depth = descriptor.depth;
    if depth.texture_ref != 0 {
        let place = AttachSubresource {
            level: depth.level,
            slice: depth.slice,
            depth_plane: depth.depth_plane,
            resolve_texture_ref: depth.resolve_texture_ref,
        };
        if attachment_subresource_is_bindable(place) {
            acc.state.depth_attach = Some(depth);
        } else {
            drop_pass(acc, &mut drops, note_depth_stencil_unsupported(PassAspect::Depth, place));
        }
    }
    let stencil = descriptor.stencil;
    if stencil.texture_ref != 0 {
        let place = AttachSubresource {
            level: stencil.level,
            slice: stencil.slice,
            depth_plane: stencil.depth_plane,
            resolve_texture_ref: stencil.resolve_texture_ref,
        };
        if attachment_subresource_is_bindable(place) {
            acc.state.stencil_attach = Some(stencil);
        } else {
            drop_pass(acc, &mut drops, note_depth_stencil_unsupported(PassAspect::Stencil, place));
        }
    }
    let ghost opened = PassView {
        acc: acc@,
        out: out@,
        drops: drops@,
        target: target_view(target),
    };
    let count: u32 = descriptor.color.len() as u32;
    let mut slot: u32 = 0;
    while slot < count
        invariant
            count == descriptor.color@.len(),
            slot <= count,
            extent == (descriptor.render_target_width, descriptor.render_target_height),
            (PassView { acc: acc@, out: out@, drops: drops@, target: target_view(target) })
                == with_colors(opened, task_id, extent, descriptor.color@.take(slot as int)),
        decreases count - slot,
    {
        assert(descriptor.color@.take(slot as int + 1).drop_last() =~= descriptor.color@.take(
            slot as int,
        ));
        attach_color(
            acc,
            out,
            &mut drops,
            &mut target,
            task_id,
            extent,
            slot,
            &descriptor.color[slot as usize],
        );
        slot += 1;
    }
    assert(descriptor.color@.take(slot as int) =~= descriptor.color@);
    PassReport {
        drops,
        target,
        extent_stated: descriptor.render_target_width != 0 || descriptor.render_target_height
            != 0,
    }
}

/// The attachment whose store action a record overrides.
#[derive(Clone, Copy, Debug, PartialEq, Eq, Structural)]
pub enum StoreActionTarget {
    Color(u32),
    Depth,
    Stencil,
}

/// What became of a store action.
#[derive(Clone, Copy, Debug, PartialEq, Eq, Structural)]
pub enum StoreActionOutcome {
    Applied,
    /// The action is no store action at all.
    OutOfRange,
    /// The pass declares no such colour slot; it declares this many.
    SlotUndeclared { index: u32, declared: usize },
    /// The pass has no depth attachment.
    NoDepthAttachment,
    /// The pass has no stencil attachment.
    NoStencilAttachment,
}

/// What a store action makes of a stream.
pub open spec fn store_action_step(acc: AccumView, target: StoreActionTarget, action: u64) -> (
    AccumView,
    StoreActionOutcome,
) {
    if action > u16::MAX {
        (acc, StoreActionOutcome::OutOfRange)
    } else {
        let store_action = action as u16;
        match target {
            StoreActionTarget::Color(index) => match slot_position(acc.color_slots, index) {
                Some(at) => (
                    AccumView {
                        color_slots: acc.color_slots.update(
                            at,
                            (
                                acc.color_slots[at].0,
                                ColorAttachment { store_action, ..acc.color_slots[at].1 },
                            ),
                        ),
                        ..acc
                    },
                    StoreActionOutcome::Applied,
                ),
                None => (
                    acc,
                    StoreActionOutcome::SlotUndeclared {
                        index,
                        declared: acc.color_slots.len() as usize,
                    },
                ),
            },
            StoreActionTarget::Depth => match acc.state.depth_attach {
                Some(depth) => (
                    AccumView {
                        state: BindStateView {
                            depth_attach: Some(DepthAttachment { store_action, ..depth }),
                            ..acc.state
                        },
                        ..acc
                    },
                    StoreActionOutcome::Applied,
                ),
                None => (acc, StoreActionOutcome::NoDepthAttachment),
            },
            StoreActionTarget::Stencil => match acc.state.stencil_attach {
                Some(stencil) => (
                    AccumView {
                        state: BindStateView {
                            stencil_attach: Some(StencilAttachment { store_action, ..stencil }),
                            ..acc.state
                        },
                        ..acc
                    },
                    StoreActionOutcome::Applied,
                ),
                None => (acc, StoreActionOutcome::NoStencilAttachment),
            },
        }
    }
}

/// Overrides an attachment's store action.
pub fn set_store_action(acc: &mut StreamAccum, target: StoreActionTarget, action: u64) -> (outcome:
    StoreActionOutcome)
    ensures
        (final(acc)@, outcome) == store_action_step(old(acc)@, target, action),
{
    if action > u16::MAX as u64 {
        return StoreActionOutcome::OutOfRange;
    }
    let store_action: u16 = action as u16;
    match target {
        StoreActionTarget::Color(index) => match find_color_slot(&acc.color_slots, index) {
            Some(at) => {
                let (held, mut color) = acc.color_slots[at];
                color.store_action = store_action;
                acc.color_slots.set(at, (held, color));
                StoreActionOutcome::Applied
            },
            None => {
                let declared: usize = acc.color_slots.len();
                StoreActionOutcome::SlotUndeclared { index, declared }
            },
        },
        StoreActionTarget::Depth => match acc.state.depth_attach {
            Some(mut depth) => {
                depth.store_action = store_action;
                acc.state.depth_attach = Some(depth);
                StoreActionOutcome::Applied
            },
            None => StoreActionOutcome::NoDepthAttachment,
        },
        StoreActionTarget::Stencil => match acc.state.stencil_attach {
            Some(mut stencil) => {
                stencil.store_action = store_action;
                acc.state.stencil_attach = Some(stencil);
                StoreActionOutcome::Applied
            },
            None => StoreActionOutcome::NoStencilAttachment,
        },
    }
}

/// A record that writes the pass.
#[derive(Debug, PartialEq, Eq)]
pub enum PassRecord {
    WriteDescriptor(PassDescriptor),
    SetStoreAction { target: StoreActionTarget, action: u64 },
}

/// What became of a record that writes the pass.
#[derive(Debug, PartialEq, Eq)]
pub enum PassOutcome {
    Described(PassReport),
    Stored(StoreActionOutcome),
}

/// Whether a record that writes the pass did what it asks for.
pub open spec fn pass_applied(
    before: (AccumView, ExecResultView),
    after: (AccumView, ExecResultView),
    task_id: u32,
    record: PassRecord,
    outcome: PassOutcome,
) -> bool {
    match (record, outcome) {
        (PassRecord::WriteDescriptor(descriptor), PassOutcome::Described(report)) => {
            &&& (PassView {
                acc: after.0,
                out: after.1,
                drops: report.drops@,
                target: target_view(report.target),
            }) == descriptor_step(before.0, before.1, task_id, descriptor)
            &&& report.extent_stated == (descriptor.render_target_width != 0
                || descriptor.render_target_height != 0)
        },
        (PassRecord::SetStoreAction { target, action }, PassOutcome::Stored(stored)) => {
            &&& (after.0, stored) == store_action_step(before.0, target, action)
            &&& after.1 == before.1
        },
        _ => false,
    }
}

/// Applies a record that writes the pass: its descriptor, or the store action
/// of one of its attachments.
pub fn handle_render_pass_state(
    acc: &mut StreamAccum,
    out: &mut ExecResult,
    task_id: u32,
    record: &PassRecord,
) -> (outcome: PassOutcome)
    requires
        match *record {
            PassRecord::WriteDescriptor(descriptor) => descriptor.color@.len() <= u32::MAX,
            PassRecord::SetStoreAction { .. } => true,
        },
    ensures
        pass_applied(
            (old(acc)@, old(out)@),
            (final(acc)@, final(out)@),
            task_id,
            *record,
            outcome,
        ),
{
    match record {
        PassRecord::WriteDescriptor(descriptor) => PassOutcome::Described(
            write_descriptor(acc, out, task_id, descriptor),
        ),
        PassRecord::SetStoreAction { target, action } => PassOutcome::Stored(
            set_store_action(acc, *target, *action),
        ),
    }
}

/// The name under which a store action is counted that is not applied.
pub open spec fn store_action_route(outcome: StoreActionOutcome) -> Option<Seq<char>> {
    match outcome {
        StoreActionOutcome::Applied => None,
        StoreActionOutcome::OutOfRange => Some("render_store_action_out_of_range"@),
        StoreActionOutcome::SlotUndeclared { .. } => Some("render_store_action_slot_undeclared"@),
        StoreActionOutcome::NoDepthAttachment => Some("render_store_action_no_depth_attachment"@),
        StoreActionOutcome::NoStencilAttachment => {
            Some("render_store_action_no_stencil_attachment"@)
        },
    }
}

/// Names a store action that is not applied.
pub fn note_store_action(outcome: StoreActionOutcome) -> (route: Option<&'static str>)
    ensures
        name_view(route) == store_action_route(outcome),
{
    match outcome {
        StoreActionOutcome::Applied => None,
        StoreActionOutcome::OutOfRange => Some("render_store_action_out_of_range"),
        StoreActionOutcome::SlotUndeclared { .. } => Some("render_store_action_slot_undeclared"),
        StoreActionOutcome::NoDepthAttachment => Some("render_store_action_no_depth_attachment"),
        StoreActionOutcome::NoStencilAttachment => {
            Some("render_store_action_no_stencil_attachment")
        },
    }
}

/// What a slot of a pass attaches.
pub open spec fn attachment_in(slots: Seq<(u32, ColorAttachment)>, slot: u32) -> Option<
    ColorAttachment,
> {
    match slot_position(slots, slot) {
        Some(at) => Some(slots[at].1),
        None => None,
    }
}

proof fn lemma_same_numbers(
    one: Seq<(u32, ColorAttachment)>,
    other: Seq<(u32, ColorAttachment)>,
    slot: u32,
)
    requires
        one.len() == other.len(),
        forall|j: int| 0 <= j < one.len() ==> (#[trigger] one[j]).0 == other[j].0,
    ensures
        slot_position(one, slot) == slot_position(other, slot),
    decreases one.len(),
{
    if one.len() > 0 {
        let shorter = one.drop_last();
        assert forall|j: int| 0 <= j < shorter.len() implies (#[trigger] shorter[j]).0
            == other.drop_last()[j].0 by {
            assert(shorter[j] == one[j]);
        }
        lemma_same_numbers(shorter, other.drop_last(), slot);
        assert(one[one.len() - 1].0 == other[one.len() - 1].0);
    }
}

/// A colour attachment comes to its own slot, and leaves every other slot as it
/// was; only a texture that a new slot would attach twice is left out.
pub proof fn lemma_a_color_comes_to_its_slot(
    slots: Seq<(u32, ColorAttachment)>,
    slot: u32,
    color: ColorAttachment,
    other: u32,
)
    requires
        distinct_color_slots(slots),
    ensures
        ({
            let after = slots_with(slots, slot, color);
            &&& attachment_in(slots, slot) is Some || !attached(slots, color.texture_ref)
                ==> attachment_in(after, slot) == Some(color)
            &&& attachment_in(slots, slot) is None && attached(slots, color.texture_ref) ==> after
                == slots
            &&& other != slot ==> attachment_in(after, other) == attachment_in(slots, other)
        }),
{
    let after = slots_with(slots, slot, color);
    lemma_slot_position(slots, slot);
    lemma_slot_position(slots, other);
    if slot_position(slots, slot) is Some {
        lemma_same_numbers(slots, after, slot);
        lemma_same_numbers(slots, after, other);
    } else if !attached(slots, color.texture_ref) {
        assert(after.drop_last() =~= slots);
    }
}

/// A colour of a pass descriptor is attached as stated, its texture and the one
/// that it resolves into are among the submission's, and it is listed as cleared
/// just where it is to be cleared. What its place cannot carry is lost, and
/// refuses the stream.
pub proof fn lemma_a_color_is_attached_as_stated(
    pass: PassView,
    task_id: u32,
    extent: (u64, u64),
    slot: u32,
    color: PassColor,
)
    ensures
        ({
            let after = with_color(pass, task_id, extent, slot, color);
            let att = color.attachment;
            &&& att.texture_ref == 0 ==> after == pass
            &&& att.texture_ref != 0 ==> {
                &&& after.acc.color_slots == slots_with(pass.acc.color_slots, slot, att)
                &&& after.out.texture_refs.contains(att.texture_ref)
                &&& att.resolve_texture_ref != 0 ==> after.out.texture_refs.contains(
                    att.resolve_texture_ref,
                ) && after.acc.color_targets.contains(att.resolve_texture_ref)
                &&& att.resolve_texture_ref == 0 ==> after.acc.color_targets.contains(
                    att.texture_ref,
                )
                &&& color.mapper is Some ==> after.out.mapper_ref_texture_mappings.contains(
                    color.mapper->0,
                )
                &&& att.load_action == 2 ==> after.acc.clears == pass.acc.clears.push(att)
                &&& att.load_action != 2 ==> after.acc.clears == pass.acc.clears
                &&& att.slice == 0 && att.depth_plane == 0 ==> after.drops == pass.drops
                    && after.acc.unrepresentable == pass.acc.unrepresentable
                &&& att.slice != 0 || att.depth_plane != 0 ==> {
                    &&& after.acc.unrepresentable is Some
                    &&& after.drops.len() == pass.drops.len() + 1
                    &&& after.drops.last() matches StreamDrawDrop::ColorSubresourceUnsupported {
                        slot: lost,
                        level,
                        slice,
                        depth_plane,
                        resolve_texture_ref,
                    }
                    &&& lost == slot && level == att.level && slice == att.slice
                    &&& depth_plane == att.depth_plane
                    &&& resolve_texture_ref == att.resolve_texture_ref
                }
                &&& forall|held: u32|
                    pass.out.texture_refs.contains(held)
                        ==> #[trigger] after.out.texture_refs.contains(held)
                &&& after.acc.state == pass.acc.state
                &&& after.acc.draws == pass.acc.draws
                &&& after.acc.pipeline_ref == pass.acc.pipeline_ref
                &&& after.acc.visibility_buffer_ref == pass.acc.visibility_buffer_ref
                &&& slot != 0 ==> after.target == pass.target
                &&& slot == 0 && color.mapper is Some ==> after.target is Some
                    && after.target->0.task_id == task_id && after.target->0.mapping_id
                    == color.mapper->0 && after.target->0.geometry == color.geometry
            }
        }),
{
    let att = color.attachment;
    let held = if att.slice == 0 && att.depth_plane == 0 {
        pass
    } else {
        pass_dropped(pass, color_drop(slot, att))
    };
    lemma_listed_holds(held.out.texture_refs, att.texture_ref);
    lemma_listed_holds(listed(held.out.texture_refs, att.texture_ref), att.resolve_texture_ref);
    lemma_listed_holds(held.acc.color_targets, att.texture_ref);
    lemma_listed_holds(held.acc.color_targets, att.resolve_texture_ref);
    if color.mapper is Some {
        lemma_listed_holds(held.out.mapper_ref_texture_mappings, color.mapper->0);
    }
}

proof fn lemma_listed_holds(list: Seq<u32>, value: u32)
    ensures
        listed(list, value).contains(value),
        forall|held: u32| list.contains(held) ==> #[trigger] listed(list, value).contains(held),
{
    if !list.contains(value) {
        let longer = list.push(value);
        assert(longer[list.len() as int] == value);
        assert forall|held: u32| list.contains(held) implies #[trigger] longer.contains(held) by {
            let i = choose|i: int| 0 <= i < list.len() && list[i] == held;
            assert(longer[i] == held);
        }
    }
}

/// A depth or stencil attachment is bound as the descriptor states it where only
/// the base of its texture is named, and refuses the stream otherwise.
pub proof fn lemma_depth_and_stencil_are_attached_as_stated(
    pass: PassView,
    depth: DepthAttachment,
    stencil: StencilAttachment,
)
    ensures
        ({
            let after = with_depth(pass, depth);
            let base = depth.level == 0 && depth.slice == 0 && depth.depth_plane == 0
                && depth.resolve_texture_ref == 0;
            &&& depth.texture_ref == 0 ==> after == pass
            &&& depth.texture_ref != 0 && base ==> after.acc.state.depth_attach == Some(depth)
                && after.drops == pass.drops && after.acc.unrepresentable
                == pass.acc.unrepresentable && after.acc.state == (BindStateView {
                depth_attach: after.acc.state.depth_attach,
                ..pass.acc.state
            })
            &&& depth.texture_ref != 0 && !base ==> after.acc.unrepresentable is Some
                && after.acc.state == pass.acc.state && after.drops.len() == pass.drops.len() + 1
        }),
        ({
            let after = with_stencil(pass, stencil);
            let base = stencil.level == 0 && stencil.slice == 0 && stencil.depth_plane == 0
                && stencil.resolve_texture_ref == 0;
            &&& stencil.texture_ref == 0 ==> after == pass
            &&& stencil.texture_ref != 0 && base ==> after.acc.state.stencil_attach == Some(stencil)
                && after.drops == pass.drops && after.acc.unrepresentable
                == pass.acc.unrepresentable && after.acc.state == (BindStateView {
                stencil_attach: after.acc.state.stencil_attach,
                ..pass.acc.state
            })
            &&& stencil.texture_ref != 0 && !base ==> after.acc.unrepresentable is Some
                && after.acc.state == pass.acc.state && after.drops.len() == pass.drops.len() + 1
        }),
{
}

proof fn lemma_colors_leave_the_state(
    pass: PassView,
    task_id: u32,
    extent: (u64, u64),
    colors: Seq<PassColor>,
)
    requires
        colors.len() <= u32::MAX,
    ensures
        ({
            let after = with_colors(pass, task_id, extent, colors);
            &&& after.acc.state == pass.acc.state
            &&& after.acc.draws == pass.acc.draws
            &&& after.acc.pipeline_ref == pass.acc.pipeline_ref
            &&& after.acc.visibility_buffer_ref == pass.acc.visibility_buffer_ref
            &&& pass.acc.unrepresentable is Some ==> after.acc.unrepresentable
                == pass.acc.unrepresentable
            &&& forall|i: int|
                0 <= i < colors.len() && (#[trigger] colors[i]).attachment.texture_ref != 0
                    ==> after.out.texture_refs.contains(colors[i].attachment.texture_ref)
            &&& forall|i: int|
                0 <= i < colors.len() && (#[trigger] colors[i]).attachment.texture_ref != 0
                    && colors[i].attachment.load_action == 2 ==> after.acc.clears.contains(
                    colors[i].attachment,
                )
            &&& forall|i: int|
                0 <= i < colors.len() && (#[trigger] colors[i]).attachment.texture_ref != 0 && (
                colors[i].attachment.slice != 0 || colors[i].attachment.depth_plane != 0)
                    ==> after.acc.unrepresentable is Some
        }),
    decreases colors.len(),
{
    if colors.len() > 0 {
        let earlier = colors.drop_last();
        let before = with_colors(pass, task_id, extent, earlier);
        let slot = (colors.len() - 1) as u32;
        lemma_colors_leave_the_state(pass, task_id, extent, earlier);
        lemma_a_color_is_attached_as_stated(before, task_id, extent, slot, colors.last());
        let after = with_colors(pass, task_id, extent, colors);
        assert forall|i: int| 0 <= i < colors.len() && i != slot implies #[trigger] colors[i]
            == earlier[i] by {}
        if colors.last().attachment.texture_ref != 0 && colors.last().attachment.load_action == 2 {
            let clears = after.acc.clears;
            assert(clears[clears.len() - 1] == colors.last().attachment);
            assert forall|held: ColorAttachment| before.acc.clears.contains(held) implies
                #[trigger] clears.contains(held) by {
                let k = choose|k: int|
                    0 <= k < before.acc.clears.len() && before.acc.clears[k] == held;
                assert(clears[k] == held);
            }
        }
    }
}

/// A pass descriptor is taken as stated: the stream's draws count their samples
/// into the buffer that it names, its depth and stencil are those it states,
/// each of its colours is among the submission's textures and cleared where it
/// says so, and a pass of several layers refuses the stream.
pub proof fn lemma_a_descriptor_is_taken_as_stated(
    acc: AccumView,
    out: ExecResultView,
    task_id: u32,
    descriptor: PassDescriptor,
)
    requires
        descriptor.color@.len() <= u32::MAX,
    ensures
        ({
            let after = descriptor_step(acc, out, task_id, descriptor).acc;
            let result = descriptor_step(acc, out, task_id, descriptor).out;
            let depth = descriptor.depth;
            let stencil = descriptor.stencil;
            &&& after.visibility_buffer_ref == descriptor.visibility_result_buffer_ref
            &&& depth.texture_ref != 0 && depth.level == 0 && depth.slice == 0 && depth.depth_plane
                == 0 && depth.resolve_texture_ref == 0 ==> after.state.depth_attach == Some(depth)
            &&& stencil.texture_ref != 0 && stencil.level == 0 && stencil.slice == 0
                && stencil.depth_plane == 0 && stencil.resolve_texture_ref == 0
                ==> after.state.stencil_attach == Some(stencil)
            &&& depth.texture_ref == 0 ==> after.state.depth_attach == acc.state.depth_attach
            &&& stencil.texture_ref == 0 ==> after.state.stencil_attach == acc.state.stencil_attach
            &&& after.state == (BindStateView {
                depth_attach: after.state.depth_attach,
                stencil_attach: after.state.stencil_attach,
                ..acc.state
            })
            &&& descriptor.render_target_array_length > 1 ==> after.unrepresentable is Some
            &&& after.draws == acc.draws && after.pipeline_ref == acc.pipeline_ref
            &&& forall|i: int|
                0 <= i < descriptor.color@.len() && (
                #[trigger] descriptor.color@[i]).attachment.texture_ref != 0
                    ==> result.texture_refs.contains(descriptor.color@[i].attachment.texture_ref)
            &&& forall|i: int|
                0 <= i < descriptor.color@.len() && (
                #[trigger] descriptor.color@[i]).attachment.texture_ref != 0
                    && descriptor.color@[i].attachment.load_action == 2 ==> after.clears.contains(
                    descriptor.color@[i].attachment,
                )
            &&& forall|i: int|
                0 <= i < descriptor.color@.len() && (
                #[trigger] descriptor.color@[i]).attachment.texture_ref != 0 && (
                descriptor.color@[i].attachment.slice != 0
                    || descriptor.color@[i].attachment.depth_plane != 0)
                    ==> after.unrepresentable is Some
        }),
{
    let opened = PassView {
        acc: AccumView {
            visibility_buffer_ref: descriptor.visibility_result_buffer_ref,
            ..acc
        },
        out,
        drops: Seq::empty(),
        target: None,
    };
    let layered = with_layers(opened, descriptor.render_target_array_length);
    let deep = with_depth(layered, descriptor.depth);
    lemma_depth_and_stencil_are_attached_as_stated(
        layered,
        descriptor.depth,
        descriptor.stencil,
    );
    lemma_depth_and_stencil_are_attached_as_stated(deep, descriptor.depth, descriptor.stencil);
    lemma_colors_leave_the_state(
        with_stencil(deep, descriptor.stencil),
        task_id,
        (descriptor.render_target_width, descriptor.render_target_height),
        descriptor.color@,
    );
}

/// A store action changes the store action of the one attachment that it names,
/// and nothing else; where there is none it changes nothing.
pub proof fn lemma_a_store_action_changes_its_attachment(
    acc: AccumView,
    target: StoreActionTarget,
    action: u64,
    other: u32,
)
    requires
        distinct_color_slots(acc.color_slots),
    ensures
        ({
            let (after, outcome) = store_action_step(acc, target, action);
            &&& action > u16::MAX ==> outcome is OutOfRange
            &&& !(outcome is Applied) ==> after == acc
            &&& outcome is Applied ==> {
                &&& action <= u16::MAX
                &&& match target {
                    StoreActionTarget::Color(slot) => {
                        &&& attachment_in(acc.color_slots, slot) matches Some(before)
                        &&& attachment_in(after.color_slots, slot) == Some(
                            ColorAttachment { store_action: action as u16, ..before },
                        )
                        &&& other != slot ==> attachment_in(after.color_slots, other)
                            == attachment_in(acc.color_slots, other)
                        &&& after == (AccumView { color_slots: after.color_slots, ..acc })
                    },
                    StoreActionTarget::Depth => {
                        &&& acc.state.depth_attach matches Some(before)
                        &&& after == (AccumView {
                            state: (BindStateView {
                                depth_attach: Some(
                                    DepthAttachment { store_action: action as u16, ..before },
                                ),
                                ..acc.state
                            }),
                            ..acc
                        })
                    },
                    StoreActionTarget::Stencil => {
                        &&& acc.state.stencil_attach matches Some(before)
                        &&& after == (AccumView {
                            state: (BindStateView {
                                stencil_attach: Some(
                                    StencilAttachment { store_action: action as u16, ..before },
                                ),
                                ..acc.state
                            }),
                            ..acc
                        })
                    },
                }
            }
            &&& action <= u16::MAX ==> match target {
                StoreActionTarget::Color(slot) => outcome is Applied <==> attachment_in(
                    acc.color_slots,
                    slot,
                ) is Some,
                StoreActionTarget::Depth => outcome is Applied <==> acc.state.depth_attach is Some,
                StoreActionTarget::Stencil => outcome is Applied <==> acc.state.stencil_attach
                    is Some,
            }
        }),
{
    let after = store_action_step(acc, target, action).0;
    lemma_slot_position(acc.color_slots, other);
    if let StoreActionTarget::Color(slot) = target {
        lemma_slot_position(acc.color_slots, slot);
        lemma_same_numbers(acc.color_slots, after.color_slots, slot);
        lemma_same_numbers(acc.color_slots, after.color_slots, other);
    }
}

/// What a pass loses is told with the place that it names.
pub proof fn lemma_a_loss_names_its_place(
    aspect: PassAspect,
    depth: DepthAttachment,
    stencil: StencilAttachment,
    slot: u32,
    color: ColorAttachment,
)
    ensures
        depth_stencil_drop(aspect, depth_place(depth)) == (StreamDrawDrop::DepthStencilUnsupported {
            aspect,
            level: depth.level,
            slice: depth.slice,
            depth_plane: depth.depth_plane,
            resolve_texture_ref: depth.resolve_texture_ref,
        }),
        depth_stencil_drop(aspect, stencil_place(stencil)) == (
        StreamDrawDrop::DepthStencilUnsupported {
            aspect,
            level: stencil.level,
            slice: stencil.slice,
            depth_plane: stencil.depth_plane,
            resolve_texture_ref: stencil.resolve_texture_ref,
        }),
        color_drop(slot, color) == (StreamDrawDrop::ColorSubresourceUnsupported {
            slot,
            level: color.level,
            slice: color.slice,
            depth_plane: color.depth_plane,
            resolve_texture_ref: color.resolve_texture_ref,
        }),
{
}

} // verus!
