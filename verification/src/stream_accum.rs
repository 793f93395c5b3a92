//! What a render stream has bound and recorded so far.

use vstd::prelude::*;

use crate::command::{ColorAttachment, DepthAttachment, ScissorRect, StencilAttachment};
use crate::raster::{
    STORE_ACTION_MULTISAMPLE_RESOLVE, STORE_ACTION_STORE,
    STORE_ACTION_STORE_AND_MULTISAMPLE_RESOLVE,
};
use crate::refusals::StreamRefusal;
use crate::slots::{distinct_slots, Slotted};
use crate::tables::copy_all;

verus! {

/// A buffer in an argument-table slot.
#[derive(Clone, Copy, Debug, PartialEq, Eq, Structural)]
pub struct BufferBind {
    pub index: u32,
    pub buffer_ref: u32,
    pub resource: Option<u64>,
    pub offset: u64,
    pub attribute_stride: Option<u64>,
}

impl Slotted for BufferBind {
    open spec fn slot(self) -> u32 {
        self.index
    }

    fn slot_index(&self) -> (index: u32) {
        self.index
    }
}

/// A texture in an argument-table slot.
#[derive(Clone, Copy, Debug, PartialEq, Eq, Structural)]
pub struct TextureBind {
    pub index: u32,
    pub texture_ref: u32,
    pub resource: Option<u64>,
}

impl Slotted for TextureBind {
    open spec fn slot(self) -> u32 {
        self.index
    }

    fn slot_index(&self) -> (index: u32) {
        self.index
    }
}

/// A sampler in an argument-table slot.
#[derive(Clone, Copy, Debug, PartialEq, Eq)]
pub struct SamplerBind {
    pub index: u32,
    pub sampler_ref: u32,
    /// Single-precision bits of the clamp, where the bind states one.
    pub lod_clamp: Option<(u32, u32)>,
}

impl Slotted for SamplerBind {
    open spec fn slot(self) -> u32 {
        self.index
    }

    fn slot_index(&self) -> (index: u32) {
        self.index
    }
}

/// The counts of a draw.
#[derive(Clone, Copy, Debug, PartialEq, Eq, Structural)]
pub struct DrawArgs {
    pub vertex_count: u32,
    pub instance_count: u32,
    pub primitive_type: u32,
    pub first_vertex: u32,
    pub base_instance: u32,
}

/// The indices of a draw.
#[derive(Clone, Copy, Debug, PartialEq, Eq, Structural)]
pub struct IndexedDrawInfo {
    pub index_type: u32,
    pub index_count: u32,
    pub index_buffer_ref: u32,
    pub index_buffer_offset: u64,
    pub base_vertex: i64,
}

/// An occlusion query that counts the samples of draws.
#[derive(Clone, Copy, Debug, PartialEq, Eq, Structural)]
pub struct VisibilityArming {
    pub mode: u32,
    pub offset: u64,
}

/// An execution of an indirect command buffer.
#[derive(Clone, Copy, Debug, PartialEq, Eq, Structural)]
pub struct RenderIcbExecute {
    pub icb_ref: u32,
    pub is_range: bool,
    pub range_location: u64,
    pub range_length: u64,
    pub args_buffer_ref: u32,
    pub args_buffer_offset: u64,
}

/// The state that a draw is encoded with.
#[derive(Debug, PartialEq, Eq)]
pub struct BindState {
    pub indexed: Option<IndexedDrawInfo>,
    pub vertex_buffers: Vec<BufferBind>,
    pub fragment_buffers: Vec<BufferBind>,
    pub vertex_textures: Vec<TextureBind>,
    pub fragment_textures: Vec<TextureBind>,
    pub vertex_samplers: Vec<SamplerBind>,
    pub fragment_samplers: Vec<SamplerBind>,
    /// Double-precision bits of each viewport; none stands for the whole target.
    pub viewports: Vec<[u64; 6]>,
    pub scissors: Vec<ScissorRect>,
    /// Single-precision bits.
    pub blend_color: Option<[u32; 4]>,
    pub cull_mode: Option<u32>,
    pub front_facing: Option<u32>,
    pub fill_mode: Option<u32>,
    pub depth_clip_mode: Option<u32>,
    /// Single-precision bits.
    pub line_width: Option<u32>,
    /// Single-precision bits.
    pub depth_bias: Option<[u32; 3]>,
    pub depth_stencil_ref: u32,
    pub stencil_ref: Option<(u32, u32)>,
    pub depth_attach: Option<DepthAttachment>,
    pub stencil_attach: Option<StencilAttachment>,
    pub visibility: Option<VisibilityArming>,
}

/// What contracts say of the state that a draw is encoded with.
#[verifier::ext_equal]
pub struct BindStateView {
    pub indexed: Option<IndexedDrawInfo>,
    pub vertex_buffers: Seq<BufferBind>,
    pub fragment_buffers: Seq<BufferBind>,
    pub vertex_textures: Seq<TextureBind>,
    pub fragment_textures: Seq<TextureBind>,
    pub vertex_samplers: Seq<SamplerBind>,
    pub fragment_samplers: Seq<SamplerBind>,
    pub viewports: Seq<[u64; 6]>,
    pub scissors: Seq<ScissorRect>,
    pub blend_color: Option<[u32; 4]>,
    pub cull_mode: Option<u32>,
    pub front_facing: Option<u32>,
    pub fill_mode: Option<u32>,
    pub depth_clip_mode: Option<u32>,
    pub line_width: Option<u32>,
    pub depth_bias: Option<[u32; 3]>,
    pub depth_stencil_ref: u32,
    pub stencil_ref: Option<(u32, u32)>,
    pub depth_attach: Option<DepthAttachment>,
    pub stencil_attach: Option<StencilAttachment>,
    pub visibility: Option<VisibilityArming>,
}

impl View for BindState {
    type V = BindStateView;

    open spec fn view(&self) -> BindStateView {
        BindStateView {
            indexed: self.indexed,
            vertex_buffers: self.vertex_buffers@,
            fragment_buffers: self.fragment_buffers@,
            vertex_textures: self.vertex_textures@,
            fragment_textures: self.fragment_textures@,
            vertex_samplers: self.vertex_samplers@,
            fragment_samplers: self.fragment_samplers@,
            viewports: self.viewports@,
            scissors: self.scissors@,
            blend_color: self.blend_color,
            cull_mode: self.cull_mode,
            front_facing: self.front_facing,
            fill_mode: self.fill_mode,
            depth_clip_mode: self.depth_clip_mode,
            line_width: self.line_width,
            depth_bias: self.depth_bias,
            depth_stencil_ref: self.depth_stencil_ref,
            stencil_ref: self.stencil_ref,
            depth_attach: self.depth_attach,
            stencil_attach: self.stencil_attach,
            visibility: self.visibility,
        }
    }
}

impl BindStateView {
    /// Whether each table holds a slot at most once.
    pub open spec fn wf(self) -> bool {
        &&& distinct_slots(self.vertex_buffers)
        &&& distinct_slots(self.fragment_buffers)
        &&& distinct_slots(self.vertex_textures)
        &&& distinct_slots(self.fragment_textures)
        &&& distinct_slots(self.vertex_samplers)
        &&& distinct_slots(self.fragment_samplers)
    }
}

/// The state of a stream that has bound nothing.
pub open spec fn nothing_bound() -> BindStateView {
    BindStateView {
        indexed: None,
        vertex_buffers: Seq::empty(),
        fragment_buffers: Seq::empty(),
        vertex_textures: Seq::empty(),
        fragment_textures: Seq::empty(),
        vertex_samplers: Seq::empty(),
        fragment_samplers: Seq::empty(),
        viewports: Seq::empty(),
        scissors: Seq::empty(),
        blend_color: None,
        cull_mode: None,
        front_facing: None,
        fill_mode: None,
        depth_clip_mode: None,
        line_width: None,
        depth_bias: None,
        depth_stencil_ref: 0,
        stencil_ref: None,
        depth_attach: None,
        stencil_attach: None,
        visibility: None,
    }
}

impl Default for BindState {
    fn default() -> (state: Self)
        ensures
            state@ == nothing_bound(),
    {
        BindState {
            indexed: None,
            vertex_buffers: Vec::new(),
            fragment_buffers: Vec::new(),
            vertex_textures: Vec::new(),
            fragment_textures: Vec::new(),
            vertex_samplers: Vec::new(),
            fragment_samplers: Vec::new(),
            viewports: Vec::new(),
            scissors: Vec::new(),
            blend_color: None,
            cull_mode: None,
            front_facing: None,
            fill_mode: None,
            depth_clip_mode: None,
            line_width: None,
            depth_bias: None,
            depth_stencil_ref: 0,
            stencil_ref: None,
            depth_attach: None,
            stencil_attach: None,
            visibility: None,
        }
    }
}

impl BindState {
    /// A copy that later binds do not change.
    pub fn copied(&self) -> (copy: BindState)
        ensures
            copy@ == self@,
    {
        BindState {
            indexed: self.indexed,
            vertex_buffers: copy_all(&self.vertex_buffers),
            fragment_buffers: copy_all(&self.fragment_buffers),
            vertex_textures: copy_all(&self.vertex_textures),
            fragment_textures: copy_all(&self.fragment_textures),
            vertex_samplers: copy_all(&self.vertex_samplers),
            fragment_samplers: copy_all(&self.fragment_samplers),
            viewports: copy_all(&self.viewports),
            scissors: copy_all(&self.scissors),
            blend_color: self.blend_color,
            cull_mode: self.cull_mode,
            front_facing: self.front_facing,
            fill_mode: self.fill_mode,
            depth_clip_mode: self.depth_clip_mode,
            line_width: self.line_width,
            depth_bias: self.depth_bias,
            depth_stencil_ref: self.depth_stencil_ref,
            stencil_ref: self.stencil_ref,
            depth_attach: self.depth_attach,
            stencil_attach: self.stencil_attach,
            visibility: self.visibility,
        }
    }
}

/// A draw, with the state it was recorded with.
#[derive(Debug, PartialEq, Eq)]
pub struct PendingDraw {
    pub pipeline_ref: u32,
    pub draw: DrawArgs,
    pub state: BindState,
}

/// What contracts say of a recorded draw.
#[verifier::ext_equal]
pub struct PendingView {
    pub pipeline_ref: u32,
    pub draw: DrawArgs,
    pub state: BindStateView,
}

impl View for PendingDraw {
    type V = PendingView;

    open spec fn view(&self) -> PendingView {
        PendingView { pipeline_ref: self.pipeline_ref, draw: self.draw, state: self.state@ }
    }
}

/// The contents of a list of recorded draws.
pub open spec fn draws_view(draws: Seq<PendingDraw>) -> Seq<PendingView> {
    Seq::new(draws.len(), |i: int| draws[i]@)
}

/// What a render stream has bound and recorded so far.
#[derive(Debug, PartialEq, Eq)]
pub struct StreamAccum {
    pub pipeline_ref: u32,
    /// Every colour attachment that its pass clears, in stream order.
    pub clears: Vec<ColorAttachment>,
    /// The colour attachments by their slot in the pass.
    pub color_slots: Vec<(u32, ColorAttachment)>,
    pub color_targets: Vec<u32>,
    pub draws: Vec<PendingDraw>,
    pub saw_draw: bool,
    pub execute_icb: Vec<RenderIcbExecute>,
    pub state: BindState,
    /// The buffer that occlusion counts go to, 0 where the pass names none.
    pub visibility_buffer_ref: u32,
    pub dropped_no_pipeline: u32,
    pub dropped_zero_count: u32,
    /// The first thing that the stream asked for and its state does not carry.
    pub unrepresentable: Option<StreamRefusal>,
}

/// What contracts say of a render stream.
#[verifier::ext_equal]
pub struct AccumView {
    pub pipeline_ref: u32,
    pub clears: Seq<ColorAttachment>,
    pub color_slots: Seq<(u32, ColorAttachment)>,
    pub color_targets: Seq<u32>,
    pub draws: Seq<PendingView>,
    pub saw_draw: bool,
    pub execute_icb: Seq<RenderIcbExecute>,
    pub state: BindStateView,
    pub visibility_buffer_ref: u32,
    pub dropped_no_pipeline: u32,
    pub dropped_zero_count: u32,
    pub unrepresentable: Option<StreamRefusal>,
}

impl View for StreamAccum {
    type V = AccumView;

    open spec fn view(&self) -> AccumView {
        AccumView {
            pipeline_ref: self.pipeline_ref,
            clears: self.clears@,
            color_slots: self.color_slots@,
            color_targets: self.color_targets@,
            draws: draws_view(self.draws@),
            saw_draw: self.saw_draw,
            execute_icb: self.execute_icb@,
            state: self.state@,
            visibility_buffer_ref: self.visibility_buffer_ref,
            dropped_no_pipeline: self.dropped_no_pipeline,
            dropped_zero_count: self.dropped_zero_count,
            unrepresentable: self.unrepresentable,
        }
    }
}

/// A stream that has recorded nothing.
pub open spec fn fresh_stream() -> AccumView {
    AccumView {
        pipeline_ref: 0,
        clears: Seq::empty(),
        color_slots: Seq::empty(),
        color_targets: Seq::empty(),
        draws: Seq::empty(),
        saw_draw: false,
        execute_icb: Seq::empty(),
        state: nothing_bound(),
        visibility_buffer_ref: 0,
        dropped_no_pipeline: 0,
        dropped_zero_count: 0,
        unrepresentable: None,
    }
}

impl Default for StreamAccum {
    fn default() -> (accum: Self)
        ensures
            accum@ == fresh_stream(),
    {
        let accum = StreamAccum {
            pipeline_ref: 0,
            clears: Vec::new(),
            color_slots: Vec::new(),
            color_targets: Vec::new(),
            draws: Vec::new(),
            saw_draw: false,
            execute_icb: Vec::new(),
            state: BindState::default(),
            visibility_buffer_ref: 0,
            dropped_no_pipeline: 0,
            dropped_zero_count: 0,
            unrepresentable: None,
        };
        assert(accum@ =~= fresh_stream());
        accum
    }
}

/// Whether a store action leaves a single-sample result to read.
pub open spec fn publishes_single_sample(store_action: u16) -> bool {
    store_action == STORE_ACTION_STORE || store_action == STORE_ACTION_MULTISAMPLE_RESOLVE
        || store_action == STORE_ACTION_STORE_AND_MULTISAMPLE_RESOLVE
}

/// Whether a store action leaves a single-sample result to read.
pub fn store_action_publishes_single_sample(store_action: u16) -> (publishes: bool)
    ensures
        publishes == publishes_single_sample(store_action),
{
    store_action == STORE_ACTION_STORE || store_action == STORE_ACTION_MULTISAMPLE_RESOLVE
        || store_action == STORE_ACTION_STORE_AND_MULTISAMPLE_RESOLVE
}

/// The cleared attachments whose colour may be read back.
pub open spec fn published(clears: Seq<ColorAttachment>) -> Seq<ColorAttachment> {
    clears.filter(|att: ColorAttachment| publishes_single_sample(att.store_action))
}

/// What the stream was asked for first and cannot carry, given one more.
pub open spec fn first_refusal(held: Option<StreamRefusal>, refusal: StreamRefusal) -> Option<
    StreamRefusal,
> {
    match held {
        Some(first) => Some(first),
        None => Some(refusal),
    }
}

/// The counts of a draw that asks for nothing.
pub open spec fn no_draw() -> DrawArgs {
    DrawArgs {
        vertex_count: 0,
        instance_count: 0,
        primitive_type: 0,
        first_vertex: 0,
        base_instance: 0,
    }
}

/// A draw of the stream's state as it stands, or why that state is not what was
/// asked for.
pub open spec fn snapshot_of(acc: AccumView) -> Result<PendingView, StreamRefusal> {
    match acc.unrepresentable {
        Some(refused) => Err(refused),
        None => Ok(PendingView { pipeline_ref: 0, draw: no_draw(), state: acc.state }),
    }
}

impl StreamAccum {
    /// The cleared attachments whose colour may be read back: what a store
    /// action drops is never written out.
    pub fn clears_reaching_guest_pages(&self) -> (clears: Vec<ColorAttachment>)
        ensures
            clears@ == published(self.clears@),
    {
        let mut clears: Vec<ColorAttachment> = Vec::new();
        let ghost keep = |att: ColorAttachment| publishes_single_sample(att.store_action);
        let mut i: usize = 0;
        proof {
            reveal(Seq::filter);
        }
        assert(clears@ =~= self.clears@.take(0).filter(keep));
        while i < self.clears.len()
            invariant
                i <= self.clears@.len(),
                keep == (|att: ColorAttachment| publishes_single_sample(att.store_action)),
                clears@ == self.clears@.take(i as int).filter(keep),
            decreases self.clears.len() - i,
        {
            proof {
                reveal(Seq::filter);
            }
            assert(self.clears@.take(i as int + 1).drop_last() =~= self.clears@.take(i as int));
            let att = self.clears[i];
            if store_action_publishes_single_sample(att.store_action) {
                clears.push(att);
            }
            i += 1;
        }
        assert(self.clears@.take(i as int) =~= self.clears@);
        clears
    }

    /// A draw of the stream's state as it stands. A stream that was asked for
    /// something its state does not carry has none: a draw encoded from that
    /// state would not be the one that was asked for.
    pub fn bind_snapshot(&self) -> (result: Result<PendingDraw, StreamRefusal>)
        ensures
            match result {
                Ok(draw) => snapshot_of(self@) == Ok::<PendingView, StreamRefusal>(draw@),
                Err(refused) => snapshot_of(self@) == Err::<PendingView, StreamRefusal>(refused),
            },
    {
        if let Some(refused) = self.unrepresentable {
            return Err(refused);
        }
        Ok(
            PendingDraw {
                pipeline_ref: 0,
                draw: DrawArgs {
                    vertex_count: 0,
                    instance_count: 0,
                    primitive_type: 0,
                    first_vertex: 0,
                    base_instance: 0,
                },
                state: self.state.copied(),
            },
        )
    }

    /// Records what the stream asked for and cannot carry, unless something is
    /// recorded already.
    pub fn refuse(&mut self, refusal: StreamRefusal)
        ensures
            final(self)@ == (AccumView {
                unrepresentable: first_refusal(old(self)@.unrepresentable, refusal),
                ..old(self)@
            }),
    {
        if self.unrepresentable.is_none() {
            self.unrepresentable = Some(refusal);
        }
    }
}

/// What contracts say of a stream, of a recorded draw and of a draw's state is
/// what they hold.
pub proof fn lemma_a_stream_is_seen_whole(acc: StreamAccum, draw: PendingDraw, state: BindState)
    ensures
        acc@.pipeline_ref == acc.pipeline_ref,
        acc@.clears == acc.clears@,
        acc@.color_slots == acc.color_slots@,
        acc@.color_targets == acc.color_targets@,
        acc@.saw_draw == acc.saw_draw,
        acc@.execute_icb == acc.execute_icb@,
        acc@.state == acc.state@,
        acc@.visibility_buffer_ref == acc.visibility_buffer_ref,
        acc@.dropped_no_pipeline == acc.dropped_no_pipeline,
        acc@.dropped_zero_count == acc.dropped_zero_count,
        acc@.unrepresentable == acc.unrepresentable,
        acc@.draws.len() == acc.draws@.len(),
        forall|i: int|
            0 <= i < acc.draws@.len() ==> acc@.draws[i] == (#[trigger] acc.draws@[i])@,
        draw@.pipeline_ref == draw.pipeline_ref,
        draw@.draw == draw.draw,
        draw@.state == draw.state@,
        state@.indexed == state.indexed,
        state@.vertex_buffers == state.vertex_buffers@,
        state@.fragment_buffers == state.fragment_buffers@,
        state@.vertex_textures == state.vertex_textures@,
        state@.fragment_textures == state.fragment_textures@,
        state@.vertex_samplers == state.vertex_samplers@,
        state@.fragment_samplers == state.fragment_samplers@,
        state@.viewports == state.viewports@,
        state@.scissors == state.scissors@,
        state@.blend_color == state.blend_color,
        state@.cull_mode == state.cull_mode,
        state@.front_facing == state.front_facing,
        state@.fill_mode == state.fill_mode,
        state@.depth_clip_mode == state.depth_clip_mode,
        state@.line_width == state.line_width,
        state@.depth_bias == state.depth_bias,
        state@.depth_stencil_ref == state.depth_stencil_ref,
        state@.stencil_ref == state.stencil_ref,
        state@.depth_attach == state.depth_attach,
        state@.stencil_attach == state.stencil_attach,
        state@.visibility == state.visibility,
{
}

/// A snapshot is of the stream's whole state, and is refused just where the
/// stream was asked for something that its state does not carry.
pub proof fn lemma_a_snapshot_is_of_the_whole_state(acc: AccumView)
    ensures
        match snapshot_of(acc) {
            Ok(draw) => acc.unrepresentable is None && draw.state == acc.state,
            Err(refused) => acc.unrepresentable == Some(refused),
        },
{
}

/// A stream begins with nothing bound and nothing recorded.
pub proof fn lemma_a_stream_begins_empty()
    ensures
        ({
            let fresh = fresh_stream();
            &&& fresh.pipeline_ref == 0 && !fresh.saw_draw
            &&& fresh.clears.len() == 0 && fresh.color_slots.len() == 0
            &&& fresh.color_targets.len() == 0 && fresh.draws.len() == 0
            &&& fresh.execute_icb.len() == 0 && fresh.visibility_buffer_ref == 0
            &&& fresh.dropped_no_pipeline == 0 && fresh.dropped_zero_count == 0
            &&& fresh.unrepresentable is None
            &&& fresh.state.indexed is None
            &&& fresh.state.vertex_buffers.len() == 0 && fresh.state.fragment_buffers.len() == 0
            &&& fresh.state.vertex_textures.len() == 0 && fresh.state.fragment_textures.len() == 0
            &&& fresh.state.vertex_samplers.len() == 0 && fresh.state.fragment_samplers.len() == 0
            &&& fresh.state.viewports.len() == 0 && fresh.state.scissors.len() == 0
            &&& fresh.state.blend_color is None && fresh.state.depth_bias is None
            &&& fresh.state.cull_mode is None && fresh.state.front_facing is None
            &&& fresh.state.fill_mode is None && fresh.state.depth_clip_mode is None
            &&& fresh.state.line_width is None && fresh.state.stencil_ref is None
            &&& fresh.state.depth_stencil_ref == 0
            &&& fresh.state.depth_attach is None && fresh.state.stencil_attach is None
            &&& fresh.state.visibility is None
        }),
{
}

} // verus!
