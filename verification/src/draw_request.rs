//! The requests that a stream's draws are encoded from. A pass has one set of
//! attachments, so every draw after the first is built on the first one's.

use vstd::prelude::*;

use crate::command::ColorAttachment;
use crate::raster::LOAD_ACTION_LOAD;
use crate::stream_accum::{
    nothing_bound, BindState, BindStateView, DrawArgs, PendingDraw, PendingView,
};
use crate::tables::copy_all;

verus! {

/// A colour target of a draw.
#[derive(Debug, PartialEq, Eq)]
pub struct ColorRtRequest {
    pub slot: u32,
    pub texture_ref: u32,
    /// The mapping that the target is, or 0.
    pub mapping_id: u32,
    pub target_gva: u64,
    pub row_stride: u32,
    pub width: u32,
    pub height: u32,
    pub format: u16,
    pub sample_count: u32,
    pub load_action: u16,
    pub store_action: u16,
    /// Single-precision bits.
    pub clear_color: [u32; 4],
    /// What the target holds before the draw, where it is given.
    pub target_seed_rgba: Option<Vec<u8>>,
    pub multisample_source_ref: u32,
}

/// What contracts say of a colour target.
#[verifier::ext_equal]
pub struct ColorRtView {
    pub slot: u32,
    pub texture_ref: u32,
    pub mapping_id: u32,
    pub target_gva: u64,
    pub row_stride: u32,
    pub width: u32,
    pub height: u32,
    pub format: u16,
    pub sample_count: u32,
    pub load_action: u16,
    pub store_action: u16,
    pub clear_color: [u32; 4],
    pub target_seed_rgba: Option<Seq<u8>>,
    pub multisample_source_ref: u32,
}

/// The contents of bytes that may be absent.
pub open spec fn bytes_view(bytes: Option<Vec<u8>>) -> Option<Seq<u8>> {
    match bytes {
        Some(bytes) => Some(bytes@),
        None => None,
    }
}

impl View for ColorRtRequest {
    type V = ColorRtView;

    open spec fn view(&self) -> ColorRtView {
        ColorRtView {
            slot: self.slot,
            texture_ref: self.texture_ref,
            mapping_id: self.mapping_id,
            target_gva: self.target_gva,
            row_stride: self.row_stride,
            width: self.width,
            height: self.height,
            format: self.format,
            sample_count: self.sample_count,
            load_action: self.load_action,
            store_action: self.store_action,
            clear_color: self.clear_color,
            target_seed_rgba: bytes_view(self.target_seed_rgba),
            multisample_source_ref: self.multisample_source_ref,
        }
    }
}

/// The contents of a list of colour targets.
pub open spec fn colors_view(colors: Seq<ColorRtRequest>) -> Seq<ColorRtView> {
    Seq::new(colors.len(), |i: int| colors[i]@)
}

/// What a draw is encoded from.
#[derive(Debug, PartialEq, Eq)]
pub struct DrawEncodeRequest {
    pub task_id: u32,
    pub pipeline_ref: u32,
    pub draw: DrawArgs,
    pub colors: Vec<ColorRtRequest>,
    pub state: BindState,
    /// Whether the draw goes on with the pass of the one before it.
    pub continues_render_pass: bool,
    /// Whether the draw after it goes on with its pass.
    pub render_pass_continues: bool,
    /// Whether the draw starts from the target that the one before it left.
    pub chain_from_resident: bool,
    /// The samples that the draw counted, where it counted any.
    pub visibility_samples: Option<u64>,
}

/// What contracts say of a request.
#[verifier::ext_equal]
pub struct RequestView {
    pub task_id: u32,
    pub pipeline_ref: u32,
    pub draw: DrawArgs,
    pub colors: Seq<ColorRtView>,
    pub state: BindStateView,
    pub continues_render_pass: bool,
    pub render_pass_continues: bool,
    pub chain_from_resident: bool,
    pub visibility_samples: Option<u64>,
}

impl View for DrawEncodeRequest {
    type V = RequestView;

    open spec fn view(&self) -> RequestView {
        RequestView {
            task_id: self.task_id,
            pipeline_ref: self.pipeline_ref,
            draw: self.draw,
            colors: colors_view(self.colors@),
            state: self.state@,
            continues_render_pass: self.continues_render_pass,
            render_pass_continues: self.render_pass_continues,
            chain_from_resident: self.chain_from_resident,
            visibility_samples: self.visibility_samples,
        }
    }
}

/// A colour target that keeps what it holds, without a seed.
pub open spec fn loading(color: ColorRtView) -> ColorRtView {
    ColorRtView { load_action: LOAD_ACTION_LOAD, target_seed_rgba: None, ..color }
}

/// Colour targets that keep what they hold, without seeds.
pub open spec fn all_loading(colors: Seq<ColorRtView>) -> Seq<ColorRtView> {
    Seq::new(colors.len(), |i: int| loading(colors[i]))
}

/// The attachments of a pass, for its draws after the first.
pub open spec fn template_of(first: RequestView) -> RequestView {
    RequestView {
        task_id: first.task_id,
        pipeline_ref: 0,
        draw: DrawArgs {
            vertex_count: 0,
            instance_count: 0,
            primitive_type: 0,
            first_vertex: 0,
            base_instance: 0,
        },
        colors: all_loading(first.colors),
        state: nothing_bound(),
        continues_render_pass: false,
        render_pass_continues: false,
        chain_from_resident: false,
        visibility_samples: None,
    }
}

fn loading_colors(from: &Vec<ColorRtRequest>) -> (colors: Vec<ColorRtRequest>)
    ensures
        colors_view(colors@) == all_loading(colors_view(from@)),
{
    let mut colors: Vec<ColorRtRequest> = Vec::new();
    let mut i: usize = 0;
    while i < from.len()
        invariant
            i <= from@.len(),
            colors@.len() == i,
            forall|j: int| 0 <= j < i ==> (#[trigger] colors@[j])@ == loading(from@[j]@),
        decreases from.len() - i,
    {
        let c = &from[i];
        colors.push(
            ColorRtRequest {
                slot: c.slot,
                texture_ref: c.texture_ref,
                mapping_id: c.mapping_id,
                target_gva: c.target_gva,
                row_stride: c.row_stride,
                width: c.width,
                height: c.height,
                format: c.format,
                sample_count: c.sample_count,
                load_action: LOAD_ACTION_LOAD,
                store_action: c.store_action,
                clear_color: c.clear_color,
                target_seed_rgba: None,
                multisample_source_ref: c.multisample_source_ref,
            },
        );
        i += 1;
    }
    assert(colors_view(colors@) =~= all_loading(colors_view(from@)));
    colors
}

/// The attachments of a pass, for its draws after the first. The seeds of the
/// first are not copied.
pub fn render_pass_attachment_template(first: &DrawEncodeRequest) -> (template: DrawEncodeRequest)
    ensures
        template@ == template_of(first@),
{
    DrawEncodeRequest {
        task_id: first.task_id,
        pipeline_ref: 0,
        draw: DrawArgs {
            vertex_count: 0,
            instance_count: 0,
            primitive_type: 0,
            first_vertex: 0,
            base_instance: 0,
        },
        colors: loading_colors(&first.colors),
        state: BindState::default(),
        continues_render_pass: false,
        render_pass_continues: false,
        chain_from_resident: false,
        visibility_samples: None,
    }
}

fn copied_colors(from: &Vec<ColorRtRequest>) -> (colors: Vec<ColorRtRequest>)
    ensures
        colors_view(colors@) == colors_view(from@),
{
    let mut colors: Vec<ColorRtRequest> = Vec::new();
    let mut i: usize = 0;
    while i < from.len()
        invariant
            i <= from@.len(),
            colors@.len() == i,
            forall|j: int| 0 <= j < i ==> (#[trigger] colors@[j])@ == from@[j]@,
        decreases from.len() - i,
    {
        let c = &from[i];
        colors.push(
            ColorRtRequest {
                slot: c.slot,
                texture_ref: c.texture_ref,
                mapping_id: c.mapping_id,
                target_gva: c.target_gva,
                row_stride: c.row_stride,
                width: c.width,
                height: c.height,
                format: c.format,
                sample_count: c.sample_count,
                load_action: c.load_action,
                store_action: c.store_action,
                clear_color: c.clear_color,
                target_seed_rgba: match &c.target_seed_rgba {
                    Some(seed) => Some(copy_all(seed)),
                    None => None,
                },
                multisample_source_ref: c.multisample_source_ref,
            },
        );
        i += 1;
    }
    assert(colors_view(colors@) =~= colors_view(from@));
    colors
}

/// A colour target that keeps what it holds.
pub open spec fn composited(color: ColorRtView) -> ColorRtView {
    ColorRtView { load_action: LOAD_ACTION_LOAD, ..color }
}

/// Colour targets that keep what they hold.
pub open spec fn all_composited(colors: Seq<ColorRtView>) -> Seq<ColorRtView> {
    Seq::new(colors.len(), |i: int| composited(colors[i]))
}

/// Makes colour targets keep what they hold.
pub(crate) fn composite_colors(colors: &mut Vec<ColorRtRequest>)
    ensures
        colors_view(final(colors)@) == all_composited(colors_view(old(colors)@)),
{
    let ghost before = colors@;
    let mut i: usize = 0;
    while i < colors.len()
        invariant
            i <= colors@.len(),
            colors@.len() == before.len(),
            forall|j: int| 0 <= j < i ==> (#[trigger] colors@[j])@ == composited(before[j]@),
            forall|j: int| i <= j < before.len() ==> colors@[j] == before[j],
        decreases before.len() - i,
    {
        let color = &mut colors[i];
        color.load_action = LOAD_ACTION_LOAD;
        i += 1;
    }
    assert(colors_view(colors@) =~= all_composited(colors_view(before)));
}

/// A draw into the attachments of its pass.
pub open spec fn retargeted(template: RequestView, draw: PendingView) -> RequestView {
    RequestView {
        pipeline_ref: draw.pipeline_ref,
        draw: draw.draw,
        ..template
    }
}

/// A draw into the attachments of its pass.
pub fn retarget_render_pass_draw(template: &DrawEncodeRequest, draw: &PendingDraw) -> (request:
    DrawEncodeRequest)
    ensures
        request@ == retargeted(template@, draw@),
{
    DrawEncodeRequest {
        task_id: template.task_id,
        pipeline_ref: draw.pipeline_ref,
        draw: draw.draw,
        colors: copied_colors(&template.colors),
        state: template.state.copied(),
        continues_render_pass: template.continues_render_pass,
        render_pass_continues: template.render_pass_continues,
        chain_from_resident: template.chain_from_resident,
        visibility_samples: template.visibility_samples,
    }
}

/// A request with the state that its draw was recorded with. A count that an
/// earlier draw left is not this one's.
pub open spec fn filled(request: RequestView, draw: PendingView) -> RequestView {
    RequestView { state: draw.state, visibility_samples: None, ..request }
}

/// Gives a request the state that its draw was recorded with.
pub fn fill_draw_binds_from_pending(request: &mut DrawEncodeRequest, draw: &PendingDraw)
    ensures
        final(request)@ == filled(old(request)@, draw@),
{
    request.state = draw.state.copied();
    request.visibility_samples = None;
}

/// Where a draw stands in its pass.
pub open spec fn chain_position(index: nat, len: nat) -> (bool, bool) {
    (index > 0, index + 1 < len)
}

/// Where a draw stands in its pass: whether it goes on with the one before it,
/// and whether the next goes on with it.
pub fn render_pass_chain_position(index: usize, len: usize) -> (position: (bool, bool))
    requires
        index < len,
    ensures
        position == chain_position(index as nat, len as nat),
{
    (index > 0, index + 1 < len)
}

/// A pass has one draw that begins it and one that ends it, and neighbours
/// agree on whether the pass goes on between them.
pub proof fn lemma_one_start_and_one_end(len: nat, one: nat, other: nat)
    requires
        one < len,
        other < len,
    ensures
        !chain_position(one, len).0 && !chain_position(other, len).0 ==> one == other,
        !chain_position(one, len).1 && !chain_position(other, len).1 ==> one == other,
        one + 1 < len ==> chain_position(one, len).1 && chain_position(one + 1, len).0,
{
}

/// Whether a draw writes its attachments back, and whether it writes them
/// whole.
pub open spec fn store_plan(draw_count: nat, index: nat) -> (bool, bool) {
    let last = draw_count > 0 && index == draw_count - 1;
    (last, last && draw_count > 1)
}

/// Whether a draw writes its attachments back, and whether it writes them
/// whole. Only the last draw writes back, and where draws came before it, it
/// writes what they left too.
pub fn multi_draw_store_plan(draw_count: usize, index: usize) -> (plan: (bool, bool))
    ensures
        plan == store_plan(draw_count as nat, index as nat),
{
    if draw_count == 0 {
        return (false, false);
    }
    let last: usize = draw_count - 1;
    let writeback = index == last;
    (writeback, writeback && draw_count > 1)
}

/// One draw of a stream writes back, and no other.
pub proof fn lemma_one_draw_writes_back(draw_count: nat, index: nat, other: nat)
    requires
        index < draw_count,
        other < draw_count,
        store_plan(draw_count, index).0,
        store_plan(draw_count, other).0,
    ensures
        index == other,
        store_plan(draw_count, (draw_count - 1) as nat).0,
{
}

/// What a draw starts from.
#[derive(Clone, Copy, Debug, PartialEq, Eq, Structural)]
pub enum MultiDrawChainSource {
    Resident,
    Cpu,
    Missing,
}

/// What a draw starts from: the target that an earlier one left on the device,
/// before an image of it.
pub open spec fn chain_source_of(resident: bool, image: bool) -> MultiDrawChainSource {
    if resident {
        MultiDrawChainSource::Resident
    } else if image {
        MultiDrawChainSource::Cpu
    } else {
        MultiDrawChainSource::Missing
    }
}

/// What a draw starts from.
pub fn multi_draw_chain_source(resident_chain: bool, cpu_chain_ready: bool) -> (source:
    MultiDrawChainSource)
    ensures
        source == chain_source_of(resident_chain, cpu_chain_ready),
{
    if resident_chain {
        MultiDrawChainSource::Resident
    } else if cpu_chain_ready {
        MultiDrawChainSource::Cpu
    } else {
        MultiDrawChainSource::Missing
    }
}

/// Colour slots that keep what they hold. Their clear colours stay.
pub open spec fn slots_loading(slots: Seq<(u32, ColorAttachment)>) -> Seq<(u32, ColorAttachment)> {
    Seq::new(
        slots.len(),
        |i: int|
            (slots[i].0, ColorAttachment { load_action: LOAD_ACTION_LOAD, ..slots[i].1 }),
    )
}

/// Colour slots that keep what they hold.
pub fn color_slots_loading(slots: &Vec<(u32, ColorAttachment)>) -> (loading: Vec<
    (u32, ColorAttachment),
>)
    ensures
        loading@ == slots_loading(slots@),
{
    let mut loading: Vec<(u32, ColorAttachment)> = Vec::new();
    let mut i: usize = 0;
    while i < slots.len()
        invariant
            i <= slots@.len(),
            loading@.len() == i,
            forall|j: int|
                0 <= j < i ==> #[trigger] loading@[j] == (
                    slots@[j].0,
                    ColorAttachment { load_action: LOAD_ACTION_LOAD, ..slots@[j].1 },
                ),
        decreases slots.len() - i,
    {
        let (slot, mut color) = slots[i];
        color.load_action = LOAD_ACTION_LOAD;
        loading.push((slot, color));
        i += 1;
    }
    assert(loading@ =~= slots_loading(slots@));
    loading
}

/// A word of four bytes, the least first.
pub open spec fn word_at(bytes: Seq<u8>, at: int) -> u32 {
    (bytes[at] as u32 | (bytes[at + 1] as u32) << 8 | (bytes[at + 2] as u32) << 16 | (bytes[at
        + 3] as u32) << 24) as u32
}

/// A word of four bytes, the least first.
pub fn load_word(bytes: &Vec<u8>, at: usize) -> (word: u32)
    requires
        at + 4 <= bytes@.len(),
    ensures
        word == word_at(bytes@, at as int),
{
    let len: usize = bytes.len();
    assert(at + 4 <= len);
    bytes[at] as u32 | (bytes[at + 1] as u32) << 8 | (bytes[at + 2] as u32) << 16 | (bytes[at
        + 3] as u32) << 24
}

/// The range that an execution's arguments state: where it starts, and how many
/// commands it runs. None where they could not be read.
pub fn read_icb_exec_range(window: &Option<Vec<u8>>) -> (range: Option<(u64, u64)>)
    requires
        match *window {
            Some(bytes) => bytes@.len() == 8,
            None => true,
        },
    ensures
        range == match *window {
            Some(bytes) => Some((word_at(bytes@, 0) as u64, word_at(bytes@, 4) as u64)),
            None => None,
        },
{
    match window {
        Some(bytes) => Some((load_word(bytes, 0) as u64, load_word(bytes, 4) as u64)),
        None => None,
    }
}

/// What contracts say of a request and of its colour targets is what they hold.
pub proof fn lemma_a_request_is_seen_whole(request: DrawEncodeRequest, color: ColorRtRequest)
    ensures
        request@.task_id == request.task_id,
        request@.pipeline_ref == request.pipeline_ref,
        request@.draw == request.draw,
        request@.state == request.state@,
        request@.continues_render_pass == request.continues_render_pass,
        request@.render_pass_continues == request.render_pass_continues,
        request@.chain_from_resident == request.chain_from_resident,
        request@.visibility_samples == request.visibility_samples,
        request@.colors.len() == request.colors@.len(),
        forall|i: int|
            0 <= i < request.colors@.len() ==> request@.colors[i] == (
            #[trigger] request.colors@[i])@,
        color@.slot == color.slot,
        color@.texture_ref == color.texture_ref,
        color@.mapping_id == color.mapping_id,
        color@.target_gva == color.target_gva,
        color@.row_stride == color.row_stride,
        color@.width == color.width,
        color@.height == color.height,
        color@.format == color.format,
        color@.sample_count == color.sample_count,
        color@.load_action == color.load_action,
        color@.store_action == color.store_action,
        color@.clear_color == color.clear_color,
        color@.multisample_source_ref == color.multisample_source_ref,
        color.target_seed_rgba is None <==> color@.target_seed_rgba is None,
        color.target_seed_rgba is Some ==> color@.target_seed_rgba == Some(
            color.target_seed_rgba->0@,
        ),
{
}

/// A later draw of a pass goes to the targets of the first, which it loads and
/// does not seed, with its own pipeline, counts and state, and with no count of
/// samples that another draw left.
pub proof fn lemma_a_later_draw_is_its_own_draw(first: RequestView, draw: PendingView)
    ensures
        ({
            let later = filled(retargeted(template_of(first), draw), draw);
            &&& later.task_id == first.task_id
            &&& later.pipeline_ref == draw.pipeline_ref
            &&& later.draw == draw.draw
            &&& later.state == draw.state
            &&& later.visibility_samples is None
            &&& !later.chain_from_resident
            &&& !later.continues_render_pass && !later.render_pass_continues
            &&& later.colors.len() == first.colors.len()
            &&& forall|i: int|
                0 <= i < first.colors.len() ==> {
                    let color = #[trigger] later.colors[i];
                    &&& color.load_action == LOAD_ACTION_LOAD
                    &&& color.target_seed_rgba is None
                    &&& color.slot == first.colors[i].slot
                    &&& color.texture_ref == first.colors[i].texture_ref
                    &&& color.mapping_id == first.colors[i].mapping_id
                    &&& color.target_gva == first.colors[i].target_gva
                    &&& color.row_stride == first.colors[i].row_stride
                    &&& color.width == first.colors[i].width
                    &&& color.height == first.colors[i].height
                    &&& color.format == first.colors[i].format
                    &&& color.sample_count == first.colors[i].sample_count
                    &&& color.store_action == first.colors[i].store_action
                    &&& color.clear_color == first.colors[i].clear_color
                    &&& color.multisample_source_ref == first.colors[i].multisample_source_ref
                }
        }),
{
}

/// Two requests for the same draw have the same state, whatever they held.
pub proof fn lemma_a_draw_brings_its_own_state(
    one: RequestView,
    other: RequestView,
    draw: PendingView,
)
    ensures
        filled(one, draw).state == draw.state,
        filled(one, draw).state == filled(other, draw).state,
        filled(one, draw).visibility_samples is None,
        filled(one, draw).colors == one.colors,
        filled(one, draw).draw == one.draw,
        filled(one, draw).pipeline_ref == one.pipeline_ref,
        filled(one, draw).task_id == one.task_id,
        filled(one, draw).chain_from_resident == one.chain_from_resident,
        filled(one, draw).continues_render_pass == one.continues_render_pass,
        filled(one, draw).render_pass_continues == one.render_pass_continues,
{
}

/// A draw goes on with the pass of the one before it unless it is the first, and
/// its pass goes on unless it is the last; only the last draw writes back, and
/// whole where others came before it.
pub proof fn lemma_a_draw_stands_in_its_pass(index: nat, len: nat)
    requires
        index < len,
    ensures
        chain_position(index, len).0 <==> index != 0,
        chain_position(index, len).1 <==> index != len - 1,
        store_plan(len, index).0 <==> index == len - 1,
        store_plan(len, index).1 <==> index == len - 1 && index != 0,
        !store_plan(0, index).0 && !store_plan(0, index).1,
{
}

/// A draw starts from the resident target wherever there is one, from an image
/// of it only otherwise, and from nothing only where there is neither.
pub proof fn lemma_a_resident_target_is_preferred(resident: bool, image: bool)
    ensures
        chain_source_of(resident, image) is Resident <==> resident,
        chain_source_of(resident, image) is Cpu <==> image && !resident,
        chain_source_of(resident, image) is Missing <==> !image && !resident,
{
}

/// A slot that keeps what it holds differs from what it was in its load action
/// alone, and stays in its place.
pub proof fn lemma_loading_slots_keep_the_rest(slots: Seq<(u32, ColorAttachment)>, i: int)
    requires
        0 <= i < slots.len(),
    ensures
        slots_loading(slots).len() == slots.len(),
        slots_loading(slots)[i].0 == slots[i].0,
        slots_loading(slots)[i].1.load_action == LOAD_ACTION_LOAD,
        slots[i].1 == (ColorAttachment {
            load_action: slots[i].1.load_action,
            ..slots_loading(slots)[i].1
        }),
{
}

} // verus!
