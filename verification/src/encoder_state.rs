//! The state a render or compute encoder carries from record to record.
//!
//! A render encoder's binds live in fixed tables, one slot per argument-table
//! index. A record either takes effect whole or is refused and changes
//! nothing.

use vstd::prelude::*;

use crate::command::{
    no_depth_attachment, no_stencil_attachment, BufferBind, ColorAttachment, ComputeCommand,
    DepthAttachment, RenderCommand, RenderKind, RenderOpcode, ScissorRect, Stage,
    StencilAttachment,
};
use crate::compute_state::{
    compute_state_step, fresh_compute_encoder, resolve_compute_accum_record, ComputeAccum,
    ComputeAccumView, ReplacementComputeStateResolutionError,
};
use crate::raster::{
    cull_mode, cull_mode_of, depth_clip_mode, depth_clip_mode_of, fill_mode, fill_mode_of,
    front_face_ccw, front_face_ccw_of, store_action, store_action_of, visibility_result_mode,
    visibility_result_mode_of, CullMode, DepthClipMode, FillMode, VisibilityResultMode,
};
use crate::tables::copy_all;

verus! {

/// Slots of a stage's buffer argument table.
pub const MAX_BUFFER_BIND_SLOTS: u32 = 31;

/// Slots of a stage's texture argument table.
pub const MAX_TEXTURE_BIND_SLOTS: u32 = 128;

/// Slots of a stage's sampler argument table.
pub const MAX_SAMPLER_BIND_SLOTS: u32 = 32;

/// Single-precision bits of one.
pub const ONE_BITS: u32 = 0x3f80_0000;

/// The encoder families that a segment can belong to.
#[derive(Clone, Copy, Debug, PartialEq, Eq, Structural)]
pub enum SegmentKind {
    Render,
    Compute,
    Blit,
    Event,
    Info,
}

/// One end of an encoder's life.
#[derive(Clone, Copy, Debug, PartialEq, Eq, Structural)]
pub enum EncoderBoundary {
    Begin(SegmentKind),
    End(SegmentKind),
}

/// A buffer in an argument-table slot.
#[derive(Clone, Copy, Debug, PartialEq, Eq, Structural)]
pub struct ReplacementRenderBufferBinding {
    pub reference: u32,
    pub offset: u64,
    pub attribute_stride: Option<u64>,
}

/// A sampler in an argument-table slot.
#[derive(Clone, Copy, Debug, PartialEq, Eq)]
pub struct ReplacementRenderSamplerBinding {
    pub reference: u32,
    pub lod_clamp: Option<(u32, u32)>,
}

/// The buffer that tessellation factors are read from.
#[derive(Clone, Copy, Debug, PartialEq, Eq, Structural)]
pub struct ReplacementTessellationFactorBufferBinding {
    pub reference: u32,
    pub offset: u64,
    pub instance_stride: u64,
}

/// Everything a render encoder has been told.
#[derive(Debug, PartialEq, Eq)]
pub struct ReplacementRenderEncoderState {
    pub pipeline_ref: u32,
    pub vertex_buffers: Vec<Option<ReplacementRenderBufferBinding>>,
    pub fragment_buffers: Vec<Option<ReplacementRenderBufferBinding>>,
    pub vertex_textures: Vec<Option<u32>>,
    pub fragment_textures: Vec<Option<u32>>,
    pub vertex_samplers: Vec<Option<ReplacementRenderSamplerBinding>>,
    pub fragment_samplers: Vec<Option<ReplacementRenderSamplerBinding>>,
    pub viewports_bits: Vec<[u64; 6]>,
    pub scissors: Vec<ScissorRect>,
    pub blend_color_bits: Option<[u32; 4]>,
    pub cull_mode: CullMode,
    pub front_face_ccw: bool,
    pub fill_mode: FillMode,
    pub line_width: u32,
    pub depth_clip_mode: DepthClipMode,
    pub depth_bias_bits: Option<[u32; 3]>,
    pub depth_stencil_ref: u32,
    pub stencil_reference: Option<(u32, u32)>,
    pub tessellation_factor_buffer: Option<ReplacementTessellationFactorBufferBinding>,
    pub color_attachments: Vec<ColorAttachment>,
    pub depth_attachment: DepthAttachment,
    pub stencil_attachment: StencilAttachment,
    pub visibility_result_buffer_ref: u32,
    pub visibility: Option<(VisibilityResultMode, u64)>,
    pub render_target_array_length: u64,
    pub render_target_width: u64,
    pub render_target_height: u64,
}

/// What contracts say of a render encoder's state.
#[verifier::ext_equal]
pub struct RenderEncoderView {
    pub pipeline_ref: u32,
    pub vertex_buffers: Seq<Option<ReplacementRenderBufferBinding>>,
    pub fragment_buffers: Seq<Option<ReplacementRenderBufferBinding>>,
    pub vertex_textures: Seq<Option<u32>>,
    pub fragment_textures: Seq<Option<u32>>,
    pub vertex_samplers: Seq<Option<ReplacementRenderSamplerBinding>>,
    pub fragment_samplers: Seq<Option<ReplacementRenderSamplerBinding>>,
    pub viewports_bits: Seq<[u64; 6]>,
    pub scissors: Seq<ScissorRect>,
    pub blend_color_bits: Option<[u32; 4]>,
    pub cull_mode: CullMode,
    pub front_face_ccw: bool,
    pub fill_mode: FillMode,
    pub line_width: u32,
    pub depth_clip_mode: DepthClipMode,
    pub depth_bias_bits: Option<[u32; 3]>,
    pub depth_stencil_ref: u32,
    pub stencil_reference: Option<(u32, u32)>,
    pub tessellation_factor_buffer: Option<ReplacementTessellationFactorBufferBinding>,
    pub color_attachments: Seq<ColorAttachment>,
    pub depth_attachment: DepthAttachment,
    pub stencil_attachment: StencilAttachment,
    pub visibility_result_buffer_ref: u32,
    pub visibility: Option<(VisibilityResultMode, u64)>,
    pub render_target_array_length: u64,
    pub render_target_width: u64,
    pub render_target_height: u64,
}

impl View for ReplacementRenderEncoderState {
    type V = RenderEncoderView;

    open spec fn view(&self) -> RenderEncoderView {
        RenderEncoderView {
            pipeline_ref: self.pipeline_ref,
            vertex_buffers: self.vertex_buffers@,
            fragment_buffers: self.fragment_buffers@,
            vertex_textures: self.vertex_textures@,
            fragment_textures: self.fragment_textures@,
            vertex_samplers: self.vertex_samplers@,
            fragment_samplers: self.fragment_samplers@,
            viewports_bits: self.viewports_bits@,
            scissors: self.scissors@,
            blend_color_bits: self.blend_color_bits,
            cull_mode: self.cull_mode,
            front_face_ccw: self.front_face_ccw,
            fill_mode: self.fill_mode,
            line_width: self.line_width,
            depth_clip_mode: self.depth_clip_mode,
            depth_bias_bits: self.depth_bias_bits,
            depth_stencil_ref: self.depth_stencil_ref,
            stencil_reference: self.stencil_reference,
            tessellation_factor_buffer: self.tessellation_factor_buffer,
            color_attachments: self.color_attachments@,
            depth_attachment: self.depth_attachment,
            stencil_attachment: self.stencil_attachment,
            visibility_result_buffer_ref: self.visibility_result_buffer_ref,
            visibility: self.visibility,
            render_target_array_length: self.render_target_array_length,
            render_target_width: self.render_target_width,
            render_target_height: self.render_target_height,
        }
    }
}

impl RenderEncoderView {
    /// Every bind table has its argument table's slots.
    pub open spec fn wf(self) -> bool {
        &&& self.vertex_buffers.len() == MAX_BUFFER_BIND_SLOTS
        &&& self.fragment_buffers.len() == MAX_BUFFER_BIND_SLOTS
        &&& self.vertex_textures.len() == MAX_TEXTURE_BIND_SLOTS
        &&& self.fragment_textures.len() == MAX_TEXTURE_BIND_SLOTS
        &&& self.vertex_samplers.len() == MAX_SAMPLER_BIND_SLOTS
        &&& self.fragment_samplers.len() == MAX_SAMPLER_BIND_SLOTS
    }
}

/// A table of `len` empty slots.
pub open spec fn empty_table<T>(len: nat) -> Seq<Option<T>> {
    Seq::new(len, |i: int| Option::<T>::None)
}

/// The state an encoder begins with: nothing bound, and the API's defaults.
pub open spec fn fresh_render_encoder() -> RenderEncoderView {
    RenderEncoderView {
        pipeline_ref: 0,
        vertex_buffers: empty_table(MAX_BUFFER_BIND_SLOTS as nat),
        fragment_buffers: empty_table(MAX_BUFFER_BIND_SLOTS as nat),
        vertex_textures: empty_table(MAX_TEXTURE_BIND_SLOTS as nat),
        fragment_textures: empty_table(MAX_TEXTURE_BIND_SLOTS as nat),
        vertex_samplers: empty_table(MAX_SAMPLER_BIND_SLOTS as nat),
        fragment_samplers: empty_table(MAX_SAMPLER_BIND_SLOTS as nat),
        viewports_bits: Seq::empty(),
        scissors: Seq::empty(),
        blend_color_bits: None,
        cull_mode: CullMode::Neither,
        front_face_ccw: false,
        fill_mode: FillMode::Fill,
        line_width: ONE_BITS,
        depth_clip_mode: DepthClipMode::Clip,
        depth_bias_bits: None,
        depth_stencil_ref: 0,
        stencil_reference: None,
        tessellation_factor_buffer: None,
        color_attachments: Seq::empty(),
        depth_attachment: no_depth_attachment(),
        stencil_attachment: no_stencil_attachment(),
        visibility_result_buffer_ref: 0,
        visibility: None,
        render_target_array_length: 0,
        render_target_width: 0,
        render_target_height: 0,
    }
}

/// Builds a table of `len` empty slots.
pub(crate) fn make_table<T>(len: u32) -> (table: Vec<Option<T>>)
    ensures
        table@ == empty_table::<T>(len as nat),
{
    let mut table: Vec<Option<T>> = Vec::new();
    let mut i: u32 = 0;
    while i < len
        invariant
            i <= len,
            table@ == empty_table::<T>(i as nat),
        decreases len - i,
    {
        table.push(None);
        i += 1;
    }
    table
}

impl Default for ReplacementRenderEncoderState {
    fn default() -> (state: Self)
        ensures
            state@ == fresh_render_encoder(),
            state@.wf(),
    {
        ReplacementRenderEncoderState {
            pipeline_ref: 0,
            vertex_buffers: make_table(MAX_BUFFER_BIND_SLOTS),
            fragment_buffers: make_table(MAX_BUFFER_BIND_SLOTS),
            vertex_textures: make_table(MAX_TEXTURE_BIND_SLOTS),
            fragment_textures: make_table(MAX_TEXTURE_BIND_SLOTS),
            vertex_samplers: make_table(MAX_SAMPLER_BIND_SLOTS),
            fragment_samplers: make_table(MAX_SAMPLER_BIND_SLOTS),
            viewports_bits: Vec::new(),
            scissors: Vec::new(),
            blend_color_bits: None,
            cull_mode: CullMode::Neither,
            front_face_ccw: false,
            fill_mode: FillMode::Fill,
            line_width: ONE_BITS,
            depth_clip_mode: DepthClipMode::Clip,
            depth_bias_bits: None,
            depth_stencil_ref: 0,
            stencil_reference: None,
            tessellation_factor_buffer: None,
            color_attachments: Vec::new(),
            depth_attachment: DepthAttachment::default(),
            stencil_attachment: StencilAttachment::default(),
            visibility_result_buffer_ref: 0,
            visibility: None,
            render_target_array_length: 0,
            render_target_width: 0,
            render_target_height: 0,
        }
    }
}

/// Why a render state record was refused.
#[derive(Clone, Copy, Debug, PartialEq, Eq)]
#[allow(inconsistent_fields)]
pub enum ReplacementRenderStateResolutionError {
    NotStateRecord,
    OutsideEncoder,
    UnknownStage,
    BufferIndexOverflow { index: u32, limit: u32 },
    TextureIndexOverflow { index: u32, limit: u32 },
    SamplerIndexOverflow { index: u32, limit: u32 },
    BufferOffsetUnbound { index: u32 },
    EmptyScissor { index: usize },
    InvalidRasterState { opcode: RenderOpcode, raw: u64 },
    InvalidStoreAction { raw: u64 },
    InvalidStoreActionOptions { raw: u64 },
    StoreActionAttachmentAbsent,
    StoreActionColorSlotOutOfRange { index: u32 },
    InvalidVisibilityMode { raw: u64 },
    VertexAmplificationUnsupported { count: u32, mode: u64, value: u32 },
    VertexAmplificationMappingUnsupported {
        index: usize,
        viewport_offset: u32,
        render_target_offset: u32,
    },
    TessellationFactorScaleUnsupported { bits: u32 },
    DefaultRasterSampleCountUnsupported { count: u64 },
    RenderPassPropertyUnsupported { opcode: RenderOpcode, value: u64, reference: u32, count: u32 },
}

// Bind records.

/// `table` with the slots from `first` on replaced by `entries`.
pub open spec fn with_run<T>(
    table: Seq<Option<T>>,
    first: int,
    entries: Seq<Option<T>>,
) -> Seq<Option<T>> {
    Seq::new(
        table.len(),
        |i: int| if first <= i < first + entries.len() { entries[i - first] } else { table[i] },
    )
}

/// The slot contents a buffer bind asks for: a zero reference empties the slot.
pub open spec fn buffer_entry(bind: BufferBind) -> Option<ReplacementRenderBufferBinding> {
    if bind.buffer_ref == 0 {
        None
    } else {
        Some(
            ReplacementRenderBufferBinding {
                reference: bind.buffer_ref,
                offset: bind.offset,
                attribute_stride: bind.attribute_stride,
            },
        )
    }
}

pub open spec fn buffer_entries(binds: Seq<BufferBind>) -> Seq<
    Option<ReplacementRenderBufferBinding>,
> {
    Seq::new(binds.len(), |i: int| buffer_entry(binds[i]))
}

/// A zero reference empties the slot.
pub open spec fn texture_entries(references: Seq<u32>) -> Seq<Option<u32>> {
    Seq::new(
        references.len(),
        |i: int| if references[i] == 0 { None } else { Some(references[i]) },
    )
}

/// A zero reference empties the slot; a level-of-detail clamp rides along where
/// the record carries one for that entry.
pub open spec fn sampler_entries(references: Seq<u32>, lod_binds: Seq<(u32, u32)>) -> Seq<
    Option<ReplacementRenderSamplerBinding>,
> {
    Seq::new(
        references.len(),
        |i: int|
            if references[i] == 0 {
                None
            } else {
                Some(
                    ReplacementRenderSamplerBinding {
                        reference: references[i],
                        lod_clamp: if i < lod_binds.len() {
                            Some(lod_binds[i])
                        } else {
                            None
                        },
                    },
                )
            },
    )
}

/// The slots a bind of `count` entries from `first` covers, or the index that
/// is past the table.
pub open spec fn render_indices(first: u32, count: nat, limit: u32) -> Result<(int, int), u32> {
    if first + count > u32::MAX {
        Err(first)
    } else if first + count > limit {
        Err((first + count - 1) as u32)
    } else {
        Ok((first as int, first + count))
    }
}

/// The slots a bind of `count` entries from `first` covers, or the index that
/// is past the table.
pub fn replacement_render_indices(first: u32, count: usize, limit: u32) -> (slots: Result<
    (usize, usize),
    u32,
>)
    ensures
        match slots {
            Ok((start, end)) => render_indices(first, count as nat, limit) == Ok::<
                (int, int),
                u32,
            >((start as int, end as int)),
            Err(index) => render_indices(first, count as nat, limit) == Err::<(int, int), u32>(
                index,
            ),
        },
{
    if count > u32::MAX as usize {
        return Err(first);
    }
    let end: u32 = match first.checked_add(count as u32) {
        Some(end) => end,
        None => {
            return Err(first);
        },
    };
    if end > limit {
        return Err(end - 1);
    }
    Ok((first as usize, end as usize))
}

/// Writes `entries` into the slots from `first` on.
fn write_run<T: Copy>(table: &mut Vec<Option<T>>, first: usize, entries: &Vec<Option<T>>)
    requires
        first + entries@.len() <= old(table)@.len(),
    ensures
        final(table)@ == with_run(old(table)@, first as int, entries@),
{
    let slots: usize = table.len();
    let mut i: usize = 0;
    while i < entries.len()
        invariant
            i <= entries@.len(),
            first + entries@.len() <= slots,
            table@.len() == slots,
            table@.len() == old(table)@.len(),
            table@ == with_run(old(table)@, first as int, entries@.take(i as int)),
        decreases entries.len() - i,
    {
        table.set(first + i, entries[i]);
        i += 1;
        assert(table@ =~= with_run(old(table)@, first as int, entries@.take(i as int)));
    }
    assert(entries@.take(i as int) =~= entries@);
}

fn make_buffer_entries(binds: &Vec<BufferBind>) -> (entries: Vec<
    Option<ReplacementRenderBufferBinding>,
>)
    ensures
        entries@ == buffer_entries(binds@),
{
    let mut entries: Vec<Option<ReplacementRenderBufferBinding>> = Vec::new();
    let mut i: usize = 0;
    while i < binds.len()
        invariant
            i <= binds@.len(),
            entries@ == buffer_entries(binds@.take(i as int)),
        decreases binds.len() - i,
    {
        let bind = binds[i];
        if bind.buffer_ref == 0 {
            entries.push(None);
        } else {
            entries.push(
                Some(
                    ReplacementRenderBufferBinding {
                        reference: bind.buffer_ref,
                        offset: bind.offset,
                        attribute_stride: bind.attribute_stride,
                    },
                ),
            );
        }
        i += 1;
        assert(entries@ =~= buffer_entries(binds@.take(i as int)));
    }
    assert(binds@.take(i as int) =~= binds@);
    entries
}

fn make_texture_entries(references: &Vec<u32>) -> (entries: Vec<Option<u32>>)
    ensures
        entries@ == texture_entries(references@),
{
    let mut entries: Vec<Option<u32>> = Vec::new();
    let mut i: usize = 0;
    while i < references.len()
        invariant
            i <= references@.len(),
            entries@ == texture_entries(references@.take(i as int)),
        decreases references.len() - i,
    {
        if references[i] == 0 {
            entries.push(None);
        } else {
            entries.push(Some(references[i]));
        }
        i += 1;
        assert(entries@ =~= texture_entries(references@.take(i as int)));
    }
    assert(references@.take(i as int) =~= references@);
    entries
}

fn make_sampler_entries(references: &Vec<u32>, lod_binds: &Vec<(u32, u32)>) -> (entries: Vec<
    Option<ReplacementRenderSamplerBinding>,
>)
    ensures
        entries@ == sampler_entries(references@, lod_binds@),
{
    let mut entries: Vec<Option<ReplacementRenderSamplerBinding>> = Vec::new();
    let mut i: usize = 0;
    while i < references.len()
        invariant
            i <= references@.len(),
            entries@ == sampler_entries(references@.take(i as int), lod_binds@),
        decreases references.len() - i,
    {
        if references[i] == 0 {
            entries.push(None);
        } else {
            let lod_clamp = if i < lod_binds.len() {
                Some(lod_binds[i])
            } else {
                None
            };
            entries.push(
                Some(ReplacementRenderSamplerBinding { reference: references[i], lod_clamp }),
            );
        }
        i += 1;
        assert(entries@ =~= sampler_entries(references@.take(i as int), lod_binds@));
    }
    assert(references@.take(i as int) =~= references@);
    entries
}

/// What a bind record makes of the encoder's state.
pub open spec fn render_bind_step(s: RenderEncoderView, c: RenderCommand) -> Result<
    RenderEncoderView,
    ReplacementRenderStateResolutionError,
> {
    match c.kind {
        RenderKind::SetPipeline => Ok(RenderEncoderView { pipeline_ref: c.pipeline_ref, ..s }),
        RenderKind::SetBuffer => match render_indices(
            c.first,
            c.buffer_binds@.len(),
            MAX_BUFFER_BIND_SLOTS,
        ) {
            Err(index) => Err(
                ReplacementRenderStateResolutionError::BufferIndexOverflow {
                    index,
                    limit: MAX_BUFFER_BIND_SLOTS,
                },
            ),
            Ok(_) => match c.stage {
                Stage::Vertex => Ok(
                    RenderEncoderView {
                        vertex_buffers: with_run(
                            s.vertex_buffers,
                            c.first as int,
                            buffer_entries(c.buffer_binds@),
                        ),
                        ..s
                    },
                ),
                Stage::Fragment => Ok(
                    RenderEncoderView {
                        fragment_buffers: with_run(
                            s.fragment_buffers,
                            c.first as int,
                            buffer_entries(c.buffer_binds@),
                        ),
                        ..s
                    },
                ),
                Stage::Unknown => Err(ReplacementRenderStateResolutionError::UnknownStage),
            },
        },
        RenderKind::SetBufferOffset => if c.first >= MAX_BUFFER_BIND_SLOTS {
            Err(
                ReplacementRenderStateResolutionError::BufferIndexOverflow {
                    index: c.first,
                    limit: MAX_BUFFER_BIND_SLOTS,
                },
            )
        } else {
            match c.stage {
                Stage::Vertex => match moved_binding(s.vertex_buffers[c.first as int], c) {
                    None => Err(
                        ReplacementRenderStateResolutionError::BufferOffsetUnbound {
                            index: c.first,
                        },
                    ),
                    Some(moved) => Ok(
                        RenderEncoderView {
                            vertex_buffers: s.vertex_buffers.update(c.first as int, Some(moved)),
                            ..s
                        },
                    ),
                },
                Stage::Fragment => match moved_binding(s.fragment_buffers[c.first as int], c) {
                    None => Err(
                        ReplacementRenderStateResolutionError::BufferOffsetUnbound {
                            index: c.first,
                        },
                    ),
                    Some(moved) => Ok(
                        RenderEncoderView {
                            fragment_buffers: s.fragment_buffers.update(
                                c.first as int,
                                Some(moved),
                            ),
                            ..s
                        },
                    ),
                },
                Stage::Unknown => Err(ReplacementRenderStateResolutionError::UnknownStage),
            }
        },
        RenderKind::SetTexture => match render_indices(
            c.first,
            c.ref_binds@.len(),
            MAX_TEXTURE_BIND_SLOTS,
        ) {
            Err(index) => Err(
                ReplacementRenderStateResolutionError::TextureIndexOverflow {
                    index,
                    limit: MAX_TEXTURE_BIND_SLOTS,
                },
            ),
            Ok(_) => match c.stage {
                Stage::Vertex => Ok(
                    RenderEncoderView {
                        vertex_textures: with_run(
                            s.vertex_textures,
                            c.first as int,
                            texture_entries(c.ref_binds@),
                        ),
                        ..s
                    },
                ),
                Stage::Fragment => Ok(
                    RenderEncoderView {
                        fragment_textures: with_run(
                            s.fragment_textures,
                            c.first as int,
                            texture_entries(c.ref_binds@),
                        ),
                        ..s
                    },
                ),
                Stage::Unknown => Err(ReplacementRenderStateResolutionError::UnknownStage),
            },
        },
        RenderKind::SetSampler => match render_indices(
            c.first,
            c.ref_binds@.len(),
            MAX_SAMPLER_BIND_SLOTS,
        ) {
            Err(index) => Err(
                ReplacementRenderStateResolutionError::SamplerIndexOverflow {
                    index,
                    limit: MAX_SAMPLER_BIND_SLOTS,
                },
            ),
            Ok(_) => match c.stage {
                Stage::Vertex => Ok(
                    RenderEncoderView {
                        vertex_samplers: with_run(
                            s.vertex_samplers,
                            c.first as int,
                            sampler_entries(c.ref_binds@, c.sampler_lod_binds@),
                        ),
                        ..s
                    },
                ),
                Stage::Fragment => Ok(
                    RenderEncoderView {
                        fragment_samplers: with_run(
                            s.fragment_samplers,
                            c.first as int,
                            sampler_entries(c.ref_binds@, c.sampler_lod_binds@),
                        ),
                        ..s
                    },
                ),
                Stage::Unknown => Err(ReplacementRenderStateResolutionError::UnknownStage),
            },
        },
        RenderKind::SetTessellationFactorBuffer => Ok(
            RenderEncoderView {
                tessellation_factor_buffer: if c.buffer_ref == 0 {
                    None
                } else {
                    Some(
                        ReplacementTessellationFactorBufferBinding {
                            reference: c.buffer_ref,
                            offset: c.buffer_offset,
                            instance_stride: c.tessellation_factor_instance_stride,
                        },
                    )
                },
                ..s
            },
        ),
        _ => Err(ReplacementRenderStateResolutionError::NotStateRecord),
    }
}

/// A bound slot after an offset update: the stride changes only where the
/// record carries one.
pub open spec fn moved_binding(
    slot: Option<ReplacementRenderBufferBinding>,
    c: RenderCommand,
) -> Option<ReplacementRenderBufferBinding> {
    match slot {
        None => None,
        Some(binding) => Some(
            ReplacementRenderBufferBinding {
                reference: binding.reference,
                offset: c.buffer_offset,
                attribute_stride: if c.attribute_stride is Some {
                    c.attribute_stride
                } else {
                    binding.attribute_stride
                },
            },
        ),
    }
}

/// Moves the offset of the buffer in a slot.
fn move_buffer_offset(
    table: &mut Vec<Option<ReplacementRenderBufferBinding>>,
    command: &RenderCommand,
) -> (moved: bool)
    requires
        command.first < old(table)@.len(),
    ensures
        moved == (old(table)@[command.first as int] is Some),
        moved ==> final(table)@ == old(table)@.update(
            command.first as int,
            moved_binding(old(table)@[command.first as int], *command),
        ),
        !moved ==> final(table)@ == old(table)@,
{
    match table[command.first as usize] {
        None => false,
        Some(binding) => {
            let attribute_stride = match command.attribute_stride {
                Some(stride) => Some(stride),
                None => binding.attribute_stride,
            };
            table.set(
                command.first as usize,
                Some(
                    ReplacementRenderBufferBinding {
                        reference: binding.reference,
                        offset: command.buffer_offset,
                        attribute_stride,
                    },
                ),
            );
            true
        },
    }
}

/// Applies a bind record to an encoder's tables.
fn resolve_render_bind_record(
    render: &mut ReplacementRenderEncoderState,
    command: &RenderCommand,
) -> (result: Result<(), ReplacementRenderStateResolutionError>)
    requires
        old(render)@.wf(),
    ensures
        final(render)@.wf(),
        match result {
            Ok(_) => render_bind_step(old(render)@, *command) == Ok::<
                RenderEncoderView,
                ReplacementRenderStateResolutionError,
            >(final(render)@),
            Err(error) => {
                &&& render_bind_step(old(render)@, *command) == Err::<
                    RenderEncoderView,
                    ReplacementRenderStateResolutionError,
                >(error)
                &&& final(render)@ == old(render)@
            },
        },
{
    match command.kind {
        RenderKind::SetPipeline => {
            render.pipeline_ref = command.pipeline_ref;
        },
        RenderKind::SetBuffer => {
            let first = match replacement_render_indices(
                command.first,
                command.buffer_binds.len(),
                MAX_BUFFER_BIND_SLOTS,
            ) {
                Ok((first, _)) => first,
                Err(index) => {
                    return Err(
                        ReplacementRenderStateResolutionError::BufferIndexOverflow {
                            index,
                            limit: MAX_BUFFER_BIND_SLOTS,
                        },
                    );
                },
            };
            let entries = make_buffer_entries(&command.buffer_binds);
            match command.stage {
                Stage::Vertex => write_run(&mut render.vertex_buffers, first, &entries),
                Stage::Fragment => write_run(&mut render.fragment_buffers, first, &entries),
                Stage::Unknown => {
                    return Err(ReplacementRenderStateResolutionError::UnknownStage);
                },
            }
        },
        RenderKind::SetBufferOffset => {
            if command.first >= MAX_BUFFER_BIND_SLOTS {
                return Err(
                    ReplacementRenderStateResolutionError::BufferIndexOverflow {
                        index: command.first,
                        limit: MAX_BUFFER_BIND_SLOTS,
                    },
                );
            }
            let moved = match command.stage {
                Stage::Vertex => move_buffer_offset(&mut render.vertex_buffers, command),
                Stage::Fragment => move_buffer_offset(&mut render.fragment_buffers, command),
                Stage::Unknown => {
                    return Err(ReplacementRenderStateResolutionError::UnknownStage);
                },
            };
            if !moved {
                return Err(
                    ReplacementRenderStateResolutionError::BufferOffsetUnbound {
                        index: command.first,
                    },
                );
            }
        },
        RenderKind::SetTexture => {
            let first = match replacement_render_indices(
                command.first,
                command.ref_binds.len(),
                MAX_TEXTURE_BIND_SLOTS,
            ) {
                Ok((first, _)) => first,
                Err(index) => {
                    return Err(
                        ReplacementRenderStateResolutionError::TextureIndexOverflow {
                            index,
                            limit: MAX_TEXTURE_BIND_SLOTS,
                        },
                    );
                },
            };
            let entries = make_texture_entries(&command.ref_binds);
            match command.stage {
                Stage::Vertex => write_run(&mut render.vertex_textures, first, &entries),
                Stage::Fragment => write_run(&mut render.fragment_textures, first, &entries),
                Stage::Unknown => {
                    return Err(ReplacementRenderStateResolutionError::UnknownStage);
                },
            }
        },
        RenderKind::SetSampler => {
            let first = match replacement_render_indices(
                command.first,
                command.ref_binds.len(),
                MAX_SAMPLER_BIND_SLOTS,
            ) {
                Ok((first, _)) => first,
                Err(index) => {
                    return Err(
                        ReplacementRenderStateResolutionError::SamplerIndexOverflow {
                            index,
                            limit: MAX_SAMPLER_BIND_SLOTS,
                        },
                    );
                },
            };
            let entries = make_sampler_entries(&command.ref_binds, &command.sampler_lod_binds);
            match command.stage {
                Stage::Vertex => write_run(&mut render.vertex_samplers, first, &entries),
                Stage::Fragment => write_run(&mut render.fragment_samplers, first, &entries),
                Stage::Unknown => {
                    return Err(ReplacementRenderStateResolutionError::UnknownStage);
                },
            }
        },
        RenderKind::SetTessellationFactorBuffer => {
            render.tessellation_factor_buffer = if command.buffer_ref == 0 {
                None
            } else {
                Some(
                    ReplacementTessellationFactorBufferBinding {
                        reference: command.buffer_ref,
                        offset: command.buffer_offset,
                        instance_stride: command.tessellation_factor_instance_stride,
                    },
                )
            };
        },
        _ => {
            return Err(ReplacementRenderStateResolutionError::NotStateRecord);
        },
    }
    Ok(())
}

// Raster records.

/// What a raster record makes of the encoder's state.
pub open spec fn render_raster_step(s: RenderEncoderView, c: RenderCommand) -> Result<
    RenderEncoderView,
    ReplacementRenderStateResolutionError,
> {
    match c.kind {
        RenderKind::SetViewport => Ok(RenderEncoderView { viewports_bits: c.viewports@, ..s }),
        RenderKind::SetScissor => match first_empty_scissor(c.scissors@) {
            Some(index) => Err(
                ReplacementRenderStateResolutionError::EmptyScissor { index: index as usize },
            ),
            None => Ok(RenderEncoderView { scissors: c.scissors@, ..s }),
        },
        RenderKind::SetBlendColor => Ok(
            RenderEncoderView { blend_color_bits: Some(c.blend_color), ..s },
        ),
        RenderKind::SetCullMode => match cull_mode_of(c.cull_mode) {
            Some(mode) => Ok(RenderEncoderView { cull_mode: mode, ..s }),
            None => Err(
                ReplacementRenderStateResolutionError::InvalidRasterState {
                    opcode: c.opcode,
                    raw: c.cull_mode,
                },
            ),
        },
        RenderKind::SetFrontFacing => match front_face_ccw_of(c.front_facing) {
            Some(ccw) => Ok(RenderEncoderView { front_face_ccw: ccw, ..s }),
            None => Err(
                ReplacementRenderStateResolutionError::InvalidRasterState {
                    opcode: c.opcode,
                    raw: c.front_facing,
                },
            ),
        },
        RenderKind::SetDepthBias => Ok(
            RenderEncoderView { depth_bias_bits: Some(c.depth_bias), ..s },
        ),
        RenderKind::SetDepthStencil => Ok(
            RenderEncoderView { depth_stencil_ref: c.depth_stencil_ref, ..s },
        ),
        RenderKind::SetStencilReference => Ok(
            RenderEncoderView {
                stencil_reference: Some((c.stencil_ref_front, c.stencil_ref_back)),
                ..s
            },
        ),
        RenderKind::SetRasterState => match c.opcode {
            RenderOpcode::SetTriangleFillMode if fill_mode_of(c.mode) is Some => Ok(
                RenderEncoderView { fill_mode: fill_mode_of(c.mode)->0, ..s },
            ),
            RenderOpcode::SetDepthClipMode if depth_clip_mode_of(c.mode) is Some => Ok(
                RenderEncoderView { depth_clip_mode: depth_clip_mode_of(c.mode)->0, ..s },
            ),
            _ => Err(
                ReplacementRenderStateResolutionError::InvalidRasterState {
                    opcode: c.opcode,
                    raw: c.mode,
                },
            ),
        },
        RenderKind::SetFloatState => match c.opcode {
            RenderOpcode::SetLineWidth => Ok(RenderEncoderView { line_width: c.float_value, ..s }),
            RenderOpcode::SetTessellationFactorScale => if c.float_value == ONE_BITS {
                Ok(s)
            } else {
                Err(
                    ReplacementRenderStateResolutionError::TessellationFactorScaleUnsupported {
                        bits: c.float_value,
                    },
                )
            },
            _ => Err(ReplacementRenderStateResolutionError::NotStateRecord),
        },
        _ => Err(ReplacementRenderStateResolutionError::NotStateRecord),
    }
}

/// The position of the first rectangle that covers nothing.
pub open spec fn first_empty_scissor(scissors: Seq<ScissorRect>) -> Option<int> {
    if exists|i: int| 0 <= i < scissors.len() && (#[trigger] scissors[i]).empty() {
        Some(
            choose|i: int|
                {
                    &&& 0 <= i < scissors.len()
                    &&& (#[trigger] scissors[i]).empty()
                    &&& forall|j: int| 0 <= j < i ==> !(#[trigger] scissors[j]).empty()
                },
        )
    } else {
        None
    }
}

/// Finds the first rectangle that covers nothing.
fn find_empty_scissor(scissors: &Vec<ScissorRect>) -> (found: Option<usize>)
    ensures
        match found {
            Some(index) => first_empty_scissor(scissors@) == Some(index as int),
            None => first_empty_scissor(scissors@) is None,
        },
{
    let mut i: usize = 0;
    while i < scissors.len()
        invariant
            i <= scissors@.len(),
            forall|j: int| 0 <= j < i ==> !(#[trigger] scissors@[j]).empty(),
        decreases scissors.len() - i,
    {
        if scissors[i].is_empty() {
            proof {
                assert(scissors@[i as int].empty());
                let chosen = first_empty_scissor(scissors@)->0;
                assert(chosen == i as int) by {
                    assert(0 <= chosen < scissors@.len() && scissors@[chosen].empty());
                    assert(!(chosen < i));
                    assert(!(i < chosen));
                }
            }
            return Some(i);
        }
        i += 1;
    }
    None
}

/// Applies a raster record to an encoder's state.
fn resolve_render_raster_record(
    render: &mut ReplacementRenderEncoderState,
    command: &RenderCommand,
) -> (result: Result<(), ReplacementRenderStateResolutionError>)
    requires
        old(render)@.wf(),
    ensures
        final(render)@.wf(),
        match result {
            Ok(_) => render_raster_step(old(render)@, *command) == Ok::<
                RenderEncoderView,
                ReplacementRenderStateResolutionError,
            >(final(render)@),
            Err(error) => {
                &&& render_raster_step(old(render)@, *command) == Err::<
                    RenderEncoderView,
                    ReplacementRenderStateResolutionError,
                >(error)
                &&& final(render)@ == old(render)@
            },
        },
{
    match command.kind {
        RenderKind::SetViewport => {
            render.viewports_bits = copy_all(&command.viewports);
        },
        RenderKind::SetScissor => {
            if let Some(index) = find_empty_scissor(&command.scissors) {
                return Err(ReplacementRenderStateResolutionError::EmptyScissor { index });
            }
            render.scissors = copy_all(&command.scissors);
        },
        RenderKind::SetBlendColor => {
            render.blend_color_bits = Some(command.blend_color);
        },
        RenderKind::SetCullMode => {
            match cull_mode(command.cull_mode) {
                Some(mode) => {
                    render.cull_mode = mode;
                },
                None => {
                    return Err(
                        ReplacementRenderStateResolutionError::InvalidRasterState {
                            opcode: command.opcode,
                            raw: command.cull_mode,
                        },
                    );
                },
            }
        },
        RenderKind::SetFrontFacing => {
            match front_face_ccw(command.front_facing) {
                Some(ccw) => {
                    render.front_face_ccw = ccw;
                },
                None => {
                    return Err(
                        ReplacementRenderStateResolutionError::InvalidRasterState {
                            opcode: command.opcode,
                            raw: command.front_facing,
                        },
                    );
                },
            }
        },
        RenderKind::SetDepthBias => {
            render.depth_bias_bits = Some(command.depth_bias);
        },
        RenderKind::SetDepthStencil => {
            render.depth_stencil_ref = command.depth_stencil_ref;
        },
        RenderKind::SetStencilReference => {
            render.stencil_reference = Some((command.stencil_ref_front, command.stencil_ref_back));
        },
        RenderKind::SetRasterState => {
            let invalid = ReplacementRenderStateResolutionError::InvalidRasterState {
                opcode: command.opcode,
                raw: command.mode,
            };
            match command.opcode {
                RenderOpcode::SetTriangleFillMode => match fill_mode(command.mode) {
                    Some(mode) => {
                        render.fill_mode = mode;
                    },
                    None => {
                        return Err(invalid);
                    },
                },
                RenderOpcode::SetDepthClipMode => match depth_clip_mode(command.mode) {
                    Some(mode) => {
                        render.depth_clip_mode = mode;
                    },
                    None => {
                        return Err(invalid);
                    },
                },
                _ => {
                    return Err(invalid);
                },
            }
        },
        RenderKind::SetFloatState => match command.opcode {
            RenderOpcode::SetLineWidth => {
                render.line_width = command.float_value;
            },
            RenderOpcode::SetTessellationFactorScale => {
                if command.float_value != ONE_BITS {
                    return Err(
                        ReplacementRenderStateResolutionError::TessellationFactorScaleUnsupported {
                            bits: command.float_value,
                        },
                    );
                }
            },
            _ => {
                return Err(ReplacementRenderStateResolutionError::NotStateRecord);
            },
        },
        _ => {
            return Err(ReplacementRenderStateResolutionError::NotStateRecord);
        },
    }
    Ok(())
}

// Pass records.

/// What a store-action record makes of the encoder's state: `raw` becomes the
/// named attachment's store action or, where `options` holds, its options.
pub open spec fn store_record_step(
    s: RenderEncoderView,
    c: RenderCommand,
    raw: u16,
    options: bool,
    otherwise: ReplacementRenderStateResolutionError,
) -> Result<RenderEncoderView, ReplacementRenderStateResolutionError> {
    if c.opcode == (if options {
        RenderOpcode::SetColorStoreActionOptions
    } else {
        RenderOpcode::SetColorStoreAction
    }) {
        if c.first >= s.color_attachments.len() {
            Err(
                ReplacementRenderStateResolutionError::StoreActionColorSlotOutOfRange {
                    index: c.first,
                },
            )
        } else if s.color_attachments[c.first as int].texture_ref == 0 {
            Err(ReplacementRenderStateResolutionError::StoreActionAttachmentAbsent)
        } else {
            let attachment = s.color_attachments[c.first as int];
            Ok(
                RenderEncoderView {
                    color_attachments: s.color_attachments.update(
                        c.first as int,
                        if options {
                            ColorAttachment { store_action_options: raw, ..attachment }
                        } else {
                            ColorAttachment { store_action: raw, ..attachment }
                        },
                    ),
                    ..s
                },
            )
        }
    } else if c.opcode == (if options {
        RenderOpcode::SetDepthStoreActionOptions
    } else {
        RenderOpcode::SetDepthStoreAction
    }) {
        if s.depth_attachment.texture_ref == 0 {
            Err(ReplacementRenderStateResolutionError::StoreActionAttachmentAbsent)
        } else {
            Ok(
                RenderEncoderView {
                    depth_attachment: if options {
                        DepthAttachment { store_action_options: raw, ..s.depth_attachment }
                    } else {
                        DepthAttachment { store_action: raw, ..s.depth_attachment }
                    },
                    ..s
                },
            )
        }
    } else if c.opcode == (if options {
        RenderOpcode::SetStencilStoreActionOptions
    } else {
        RenderOpcode::SetStencilStoreAction
    }) {
        if s.stencil_attachment.texture_ref == 0 {
            Err(ReplacementRenderStateResolutionError::StoreActionAttachmentAbsent)
        } else {
            Ok(
                RenderEncoderView {
                    stencil_attachment: if options {
                        StencilAttachment { store_action_options: raw, ..s.stencil_attachment }
                    } else {
                        StencilAttachment { store_action: raw, ..s.stencil_attachment }
                    },
                    ..s
                },
            )
        }
    } else {
        Err(otherwise)
    }
}

/// What a pass record makes of the encoder's state.
pub open spec fn render_pass_step(s: RenderEncoderView, c: RenderCommand) -> Result<
    RenderEncoderView,
    ReplacementRenderStateResolutionError,
> {
    match c.kind {
        RenderKind::SetVertexAmplification => match c.opcode {
            RenderOpcode::SetVertexAmplificationMode => if c.mode != 0 || c.amplification_value
                != 0 {
                Err(
                    ReplacementRenderStateResolutionError::VertexAmplificationUnsupported {
                        count: 1,
                        mode: c.mode,
                        value: c.amplification_value,
                    },
                )
            } else {
                Ok(s)
            },
            RenderOpcode::SetVertexAmplificationCount => if c.count != 1
                || c.amplification_mappings@.len() != 1 {
                Err(
                    ReplacementRenderStateResolutionError::VertexAmplificationUnsupported {
                        count: c.count,
                        mode: 0,
                        value: 0,
                    },
                )
            } else if c.amplification_mappings@[0] != (0u32, 0u32) {
                Err(
                    ReplacementRenderStateResolutionError::VertexAmplificationMappingUnsupported {
                        index: 0,
                        viewport_offset: c.amplification_mappings@[0].0,
                        render_target_offset: c.amplification_mappings@[0].1,
                    },
                )
            } else {
                Ok(s)
            },
            _ => Err(ReplacementRenderStateResolutionError::NotStateRecord),
        },
        RenderKind::RenderPassProperty => if c.opcode == RenderOpcode::DefaultRasterSampleCount {
            if c.mode == 1 {
                Ok(s)
            } else {
                Err(
                    ReplacementRenderStateResolutionError::DefaultRasterSampleCountUnsupported {
                        count: c.mode,
                    },
                )
            }
        } else {
            Err(
                ReplacementRenderStateResolutionError::RenderPassPropertyUnsupported {
                    opcode: c.opcode,
                    value: c.mode,
                    reference: c.texture_ref,
                    count: c.count,
                },
            )
        },
        RenderKind::SetStoreAction => if c.mode > u16::MAX || store_action_of(
            c.mode as u16,
        ) is None {
            Err(ReplacementRenderStateResolutionError::InvalidStoreAction { raw: c.mode })
        } else {
            store_record_step(
                s,
                c,
                c.mode as u16,
                false,
                ReplacementRenderStateResolutionError::InvalidStoreAction { raw: c.mode },
            )
        },
        RenderKind::SetStoreActionOptions => if c.mode > u16::MAX {
            Err(ReplacementRenderStateResolutionError::InvalidStoreActionOptions { raw: c.mode })
        } else {
            store_record_step(
                s,
                c,
                c.mode as u16,
                true,
                ReplacementRenderStateResolutionError::InvalidStoreActionOptions { raw: c.mode },
            )
        },
        RenderKind::SetVisibilityResultMode => match visibility_result_mode_of(c.mode) {
            None => Err(
                ReplacementRenderStateResolutionError::InvalidVisibilityMode { raw: c.mode },
            ),
            Some(None) => Ok(RenderEncoderView { visibility: None, ..s }),
            Some(Some(mode)) => Ok(
                RenderEncoderView { visibility: Some((mode, c.visibility_result_offset)), ..s },
            ),
        },
        RenderKind::RenderPass => Ok(
            RenderEncoderView {
                color_attachments: c.color_attachments@,
                depth_attachment: c.depth,
                stencil_attachment: c.stencil,
                visibility_result_buffer_ref: c.pass_visibility_result_buffer_ref,
                render_target_array_length: c.pass_render_target_array_length,
                render_target_width: c.pass_render_target_width,
                render_target_height: c.pass_render_target_height,
                ..s
            },
        ),
        _ => Err(ReplacementRenderStateResolutionError::NotStateRecord),
    }
}

/// Applies a store action, or its options, to the attachment a record names.
fn resolve_store_record(
    render: &mut ReplacementRenderEncoderState,
    command: &RenderCommand,
    raw: u16,
    options: bool,
    otherwise: ReplacementRenderStateResolutionError,
) -> (result: Result<(), ReplacementRenderStateResolutionError>)
    requires
        old(render)@.wf(),
    ensures
        final(render)@.wf(),
        match result {
            Ok(_) => store_record_step(old(render)@, *command, raw, options, otherwise) == Ok::<
                RenderEncoderView,
                ReplacementRenderStateResolutionError,
            >(final(render)@),
            Err(error) => {
                &&& store_record_step(old(render)@, *command, raw, options, otherwise) == Err::<
                    RenderEncoderView,
                    ReplacementRenderStateResolutionError,
                >(error)
                &&& final(render)@ == old(render)@
            },
        },
{
    let color = if options {
        RenderOpcode::SetColorStoreActionOptions
    } else {
        RenderOpcode::SetColorStoreAction
    };
    let depth = if options {
        RenderOpcode::SetDepthStoreActionOptions
    } else {
        RenderOpcode::SetDepthStoreAction
    };
    let stencil = if options {
        RenderOpcode::SetStencilStoreActionOptions
    } else {
        RenderOpcode::SetStencilStoreAction
    };
    if command.opcode == color {
        if command.first as usize >= render.color_attachments.len() {
            return Err(
                ReplacementRenderStateResolutionError::StoreActionColorSlotOutOfRange {
                    index: command.first,
                },
            );
        }
        let mut attachment = render.color_attachments[command.first as usize];
        if attachment.texture_ref == 0 {
            return Err(ReplacementRenderStateResolutionError::StoreActionAttachmentAbsent);
        }
        if options {
            attachment.store_action_options = raw;
        } else {
            attachment.store_action = raw;
        }
        render.color_attachments.set(command.first as usize, attachment);
        Ok(())
    } else if command.opcode == depth {
        if render.depth_attachment.texture_ref == 0 {
            return Err(ReplacementRenderStateResolutionError::StoreActionAttachmentAbsent);
        }
        if options {
            render.depth_attachment.store_action_options = raw;
        } else {
            render.depth_attachment.store_action = raw;
        }
        Ok(())
    } else if command.opcode == stencil {
        if render.stencil_attachment.texture_ref == 0 {
            return Err(ReplacementRenderStateResolutionError::StoreActionAttachmentAbsent);
        }
        if options {
            render.stencil_attachment.store_action_options = raw;
        } else {
            render.stencil_attachment.store_action = raw;
        }
        Ok(())
    } else {
        Err(otherwise)
    }
}

/// Applies a pass record to an encoder's state.
fn resolve_render_pass_record(
    render: &mut ReplacementRenderEncoderState,
    command: &RenderCommand,
) -> (result: Result<(), ReplacementRenderStateResolutionError>)
    requires
        old(render)@.wf(),
    ensures
        final(render)@.wf(),
        match result {
            Ok(_) => render_pass_step(old(render)@, *command) == Ok::<
                RenderEncoderView,
                ReplacementRenderStateResolutionError,
            >(final(render)@),
            Err(error) => {
                &&& render_pass_step(old(render)@, *command) == Err::<
                    RenderEncoderView,
                    ReplacementRenderStateResolutionError,
                >(error)
                &&& final(render)@ == old(render)@
            },
        },
{
    match command.kind {
        RenderKind::SetVertexAmplification => match command.opcode {
            RenderOpcode::SetVertexAmplificationMode => {
                if command.mode != 0 || command.amplification_value != 0 {
                    return Err(
                        ReplacementRenderStateResolutionError::VertexAmplificationUnsupported {
                            count: 1,
                            mode: command.mode,
                            value: command.amplification_value,
                        },
                    );
                }
                Ok(())
            },
            RenderOpcode::SetVertexAmplificationCount => {
                if command.count != 1 || command.amplification_mappings.len() != 1 {
                    return Err(
                        ReplacementRenderStateResolutionError::VertexAmplificationUnsupported {
                            count: command.count,
                            mode: 0,
                            value: 0,
                        },
                    );
                }
                let (viewport_offset, render_target_offset) = command.amplification_mappings[0];
                if viewport_offset != 0 || render_target_offset != 0 {
                    return Err(
                        ReplacementRenderStateResolutionError::VertexAmplificationMappingUnsupported {
                            index: 0,
                            viewport_offset,
                            render_target_offset,
                        },
                    );
                }
                Ok(())
            },
            _ => Err(ReplacementRenderStateResolutionError::NotStateRecord),
        },
        RenderKind::RenderPassProperty => {
            if command.opcode == RenderOpcode::DefaultRasterSampleCount {
                if command.mode != 1 {
                    return Err(
                        ReplacementRenderStateResolutionError::DefaultRasterSampleCountUnsupported {
                            count: command.mode,
                        },
                    );
                }
                Ok(())
            } else {
                Err(
                    ReplacementRenderStateResolutionError::RenderPassPropertyUnsupported {
                        opcode: command.opcode,
                        value: command.mode,
                        reference: command.texture_ref,
                        count: command.count,
                    },
                )
            }
        },
        RenderKind::SetStoreAction => {
            let invalid = ReplacementRenderStateResolutionError::InvalidStoreAction {
                raw: command.mode,
            };
            if command.mode > u16::MAX as u64 || store_action(command.mode as u16).is_none() {
                return Err(invalid);
            }
            resolve_store_record(render, command, command.mode as u16, false, invalid)
        },
        RenderKind::SetStoreActionOptions => {
            let invalid = ReplacementRenderStateResolutionError::InvalidStoreActionOptions {
                raw: command.mode,
            };
            if command.mode > u16::MAX as u64 {
                return Err(invalid);
            }
            resolve_store_record(render, command, command.mode as u16, true, invalid)
        },
        RenderKind::SetVisibilityResultMode => {
            match visibility_result_mode(command.mode) {
                None => Err(
                    ReplacementRenderStateResolutionError::InvalidVisibilityMode {
                        raw: command.mode,
                    },
                ),
                Some(None) => {
                    render.visibility = None;
                    Ok(())
                },
                Some(Some(mode)) => {
                    render.visibility = Some((mode, command.visibility_result_offset));
                    Ok(())
                },
            }
        },
        RenderKind::RenderPass => {
            render.color_attachments = copy_all(&command.color_attachments);
            render.depth_attachment = command.depth;
            render.stencil_attachment = command.stencil;
            render.visibility_result_buffer_ref = command.pass_visibility_result_buffer_ref;
            render.render_target_array_length = command.pass_render_target_array_length;
            render.render_target_width = command.pass_render_target_width;
            render.render_target_height = command.pass_render_target_height;
            Ok(())
        },
        _ => Err(ReplacementRenderStateResolutionError::NotStateRecord),
    }
}

// The state of a projection.

/// What a state record makes of a render encoder's state.
pub open spec fn render_state_step(s: RenderEncoderView, c: RenderCommand) -> Result<
    RenderEncoderView,
    ReplacementRenderStateResolutionError,
> {
    match c.kind {
        RenderKind::SetPipeline
        | RenderKind::SetBuffer
        | RenderKind::SetBufferOffset
        | RenderKind::SetTexture
        | RenderKind::SetSampler
        | RenderKind::SetTessellationFactorBuffer => render_bind_step(s, c),
        RenderKind::SetViewport
        | RenderKind::SetScissor
        | RenderKind::SetBlendColor
        | RenderKind::SetCullMode
        | RenderKind::SetFrontFacing
        | RenderKind::SetDepthBias
        | RenderKind::SetDepthStencil
        | RenderKind::SetStencilReference
        | RenderKind::SetRasterState
        | RenderKind::SetFloatState => render_raster_step(s, c),
        _ => render_pass_step(s, c),
    }
}

/// The encoders that a projection has open, at most one of each family.
#[derive(Debug, PartialEq, Eq)]
pub struct ReplacementRecordProjectionState {
    pub render: Option<ReplacementRenderEncoderState>,
    pub compute: Option<ComputeAccum>,
    /// How many batches of indirect commands have been stored.
    pub stores: usize,
}

/// What contracts say of a projection's state.
#[verifier::ext_equal]
pub struct ProjectionStateView {
    pub render: Option<RenderEncoderView>,
    pub compute: Option<ComputeAccumView>,
    pub stores: usize,
}

impl View for ReplacementRecordProjectionState {
    type V = ProjectionStateView;

    open spec fn view(&self) -> ProjectionStateView {
        ProjectionStateView {
            render: match self.render {
                Some(render) => Some(render@),
                None => None,
            },
            compute: match self.compute {
                Some(compute) => Some(compute@),
                None => None,
            },
            stores: self.stores,
        }
    }
}

impl ProjectionStateView {
    /// Every open encoder's tables are well formed.
    pub open spec fn wf(self) -> bool {
        &&& self.render matches Some(render) ==> render.wf()
        &&& self.compute matches Some(compute) ==> compute.wf()
    }
}

/// What a boundary makes of a projection's state: a render or compute encoder
/// begins fresh and ends closed, and no other boundary changes anything.
pub open spec fn after_boundary(s: ProjectionStateView, boundary: EncoderBoundary)
    -> ProjectionStateView {
    match boundary {
        EncoderBoundary::Begin(SegmentKind::Render) => ProjectionStateView {
            render: Some(fresh_render_encoder()),
            ..s
        },
        EncoderBoundary::End(SegmentKind::Render) => ProjectionStateView { render: None, ..s },
        EncoderBoundary::Begin(SegmentKind::Compute) => ProjectionStateView {
            compute: Some(fresh_compute_encoder()),
            ..s
        },
        EncoderBoundary::End(SegmentKind::Compute) => ProjectionStateView { compute: None, ..s },
        _ => s,
    }
}

impl Default for ReplacementRecordProjectionState {
    fn default() -> (state: Self)
        ensures
            state@ == (ProjectionStateView { render: None, compute: None, stores: 0 }),
            state@.wf(),
    {
        ReplacementRecordProjectionState { render: None, compute: None, stores: 0 }
    }
}

impl ReplacementRecordProjectionState {
    /// Opens or closes the encoder that a boundary names.
    pub fn encoder_boundary(&mut self, boundary: EncoderBoundary)
        requires
            old(self)@.wf(),
        ensures
            final(self)@ == after_boundary(old(self)@, boundary),
            final(self)@.wf(),
    {
        match boundary {
            EncoderBoundary::Begin(SegmentKind::Render) => {
                self.render = Some(ReplacementRenderEncoderState::default());
            },
            EncoderBoundary::End(SegmentKind::Render) => {
                self.render = None;
            },
            EncoderBoundary::Begin(SegmentKind::Compute) => {
                self.compute = Some(ComputeAccum::default());
            },
            EncoderBoundary::End(SegmentKind::Compute) => {
                self.compute = None;
            },
            _ => {},
        }
    }

    /// The open render encoder's state.
    pub fn render(&self) -> (render: Option<&ReplacementRenderEncoderState>)
        ensures
            match render {
                Some(render) => self.render == Some(*render),
                None => self.render is None,
            },
    {
        match &self.render {
            Some(render) => Some(render),
            None => None,
        }
    }
}

/// What a render state record makes of a projection's state.
pub open spec fn project_render_state(s: ProjectionStateView, c: RenderCommand) -> Result<
    ProjectionStateView,
    ReplacementRenderStateResolutionError,
> {
    match s.render {
        None => Err(ReplacementRenderStateResolutionError::OutsideEncoder),
        Some(render) => match render_state_step(render, c) {
            Ok(next) => Ok(ProjectionStateView { render: Some(next), ..s }),
            Err(error) => Err(error),
        },
    }
}

/// What a compute state record makes of a projection's state.
pub open spec fn project_compute_state(s: ProjectionStateView, c: ComputeCommand) -> Result<
    ProjectionStateView,
    ReplacementComputeStateResolutionError,
> {
    match s.compute {
        None => Err(ReplacementComputeStateResolutionError::OutsideEncoder),
        Some(compute) => match compute_state_step(compute, c) {
            Ok(next) => Ok(ProjectionStateView { compute: Some(next), ..s }),
            Err(error) => Err(error),
        },
    }
}

/// Applies a render state record to the open render encoder. A refused record
/// changes nothing.
pub fn resolve_render_state_record(
    state: &mut ReplacementRecordProjectionState,
    command: &RenderCommand,
) -> (result: Result<(), ReplacementRenderStateResolutionError>)
    requires
        old(state)@.wf(),
    ensures
        final(state)@.wf(),
        match result {
            Ok(_) => project_render_state(old(state)@, *command) == Ok::<
                ProjectionStateView,
                ReplacementRenderStateResolutionError,
            >(final(state)@),
            Err(error) => {
                &&& project_render_state(old(state)@, *command) == Err::<
                    ProjectionStateView,
                    ReplacementRenderStateResolutionError,
                >(error)
                &&& final(state)@ == old(state)@
            },
        },
{
    match &mut state.render {
        None => Err(ReplacementRenderStateResolutionError::OutsideEncoder),
        Some(render) => match command.kind {
            RenderKind::SetPipeline
            | RenderKind::SetBuffer
            | RenderKind::SetBufferOffset
            | RenderKind::SetTexture
            | RenderKind::SetSampler
            | RenderKind::SetTessellationFactorBuffer => resolve_render_bind_record(
                render,
                command,
            ),
            RenderKind::SetViewport
            | RenderKind::SetScissor
            | RenderKind::SetBlendColor
            | RenderKind::SetCullMode
            | RenderKind::SetFrontFacing
            | RenderKind::SetDepthBias
            | RenderKind::SetDepthStencil
            | RenderKind::SetStencilReference
            | RenderKind::SetRasterState
            | RenderKind::SetFloatState => resolve_render_raster_record(render, command),
            _ => resolve_render_pass_record(render, command),
        },
    }
}

/// Applies a compute state record to the open compute encoder. A refused record
/// changes nothing.
pub fn resolve_compute_state_record(
    state: &mut ReplacementRecordProjectionState,
    command: &ComputeCommand,
) -> (result: Result<(), ReplacementComputeStateResolutionError>)
    requires
        old(state)@.wf(),
    ensures
        final(state)@.wf(),
        match result {
            Ok(_) => project_compute_state(old(state)@, *command) == Ok::<
                ProjectionStateView,
                ReplacementComputeStateResolutionError,
            >(final(state)@),
            Err(error) => {
                &&& project_compute_state(old(state)@, *command) == Err::<
                    ProjectionStateView,
                    ReplacementComputeStateResolutionError,
                >(error)
                &&& final(state)@ == old(state)@
            },
        },
{
    match &mut state.compute {
        None => Err(ReplacementComputeStateResolutionError::OutsideEncoder),
        Some(accum) => resolve_compute_accum_record(accum, command),
    }
}

// What a state record does.

/// Whether a table is another one with a run of slots rebound, each to what the
/// record states for it, and all other slots as they were.
pub open spec fn rebound_buffers(
    before: Seq<Option<ReplacementRenderBufferBinding>>,
    after: Seq<Option<ReplacementRenderBufferBinding>>,
    c: RenderCommand,
) -> bool {
    &&& after.len() == before.len()
    &&& forall|slot: int|
        0 <= slot < after.len() ==> if c.first <= slot < c.first + c.buffer_binds@.len() {
            let bind = c.buffer_binds@[slot - c.first];
            match #[trigger] after[slot] {
                None => bind.buffer_ref == 0,
                Some(held) => {
                    &&& held.reference == bind.buffer_ref && bind.buffer_ref != 0
                    &&& held.offset == bind.offset
                    &&& held.attribute_stride == bind.attribute_stride
                },
            }
        } else {
            after[slot] == before[slot]
        }
}

pub open spec fn rebound_textures(
    before: Seq<Option<u32>>,
    after: Seq<Option<u32>>,
    c: RenderCommand,
) -> bool {
    &&& after.len() == before.len()
    &&& forall|slot: int|
        0 <= slot < after.len() ==> if c.first <= slot < c.first + c.ref_binds@.len() {
            let bind = c.ref_binds@[slot - c.first];
            match #[trigger] after[slot] {
                None => bind == 0,
                Some(held) => held == bind && bind != 0,
            }
        } else {
            after[slot] == before[slot]
        }
}

pub open spec fn rebound_samplers(
    before: Seq<Option<ReplacementRenderSamplerBinding>>,
    after: Seq<Option<ReplacementRenderSamplerBinding>>,
    c: RenderCommand,
) -> bool {
    &&& after.len() == before.len()
    &&& forall|slot: int|
        0 <= slot < after.len() ==> if c.first <= slot < c.first + c.ref_binds@.len() {
            let bind = c.ref_binds@[slot - c.first];
            match #[trigger] after[slot] {
                None => bind == 0,
                Some(held) => {
                    &&& held.reference == bind && bind != 0
                    &&& slot - c.first < c.sampler_lod_binds@.len() ==> held.lod_clamp == Some(
                        c.sampler_lod_binds@[slot - c.first],
                    )
                    &&& slot - c.first >= c.sampler_lod_binds@.len() ==> held.lod_clamp is None
                },
            }
        } else {
            after[slot] == before[slot]
        }
}

/// Whether a table is another one with the offset of one bound slot moved.
pub open spec fn moved_buffer(
    before: Seq<Option<ReplacementRenderBufferBinding>>,
    after: Seq<Option<ReplacementRenderBufferBinding>>,
    c: RenderCommand,
) -> bool {
    &&& after.len() == before.len()
    &&& c.first < MAX_BUFFER_BIND_SLOTS
    &&& forall|slot: int|
        0 <= slot < after.len() && slot != c.first ==> #[trigger] after[slot] == before[slot]
    &&& before[c.first as int] matches Some(held)
    &&& after[c.first as int] matches Some(moved)
    &&& moved.reference == held.reference
    &&& moved.offset == c.buffer_offset
    &&& c.attribute_stride is Some ==> moved.attribute_stride == c.attribute_stride
    &&& c.attribute_stride is None ==> moved.attribute_stride == held.attribute_stride
}

/// A bind record rebinds the slots that it names in the table of its own stage
/// and kind to what it states, and touches nothing else of the encoder.
pub proof fn lemma_a_bind_record_rebinds_its_slots(s: RenderEncoderView, c: RenderCommand)
    requires
        s.wf(),
    ensures
        match (c.kind, render_state_step(s, c)) {
            (RenderKind::SetPipeline, Ok(next)) => {
                &&& next.pipeline_ref == c.pipeline_ref
                &&& next == (RenderEncoderView { pipeline_ref: next.pipeline_ref, ..s })
            },
            (RenderKind::SetBuffer, Ok(next)) => {
                &&& c.first + c.buffer_binds@.len() <= MAX_BUFFER_BIND_SLOTS
                &&& match c.stage {
                    Stage::Vertex => rebound_buffers(s.vertex_buffers, next.vertex_buffers, c)
                        && next.fragment_buffers == s.fragment_buffers,
                    Stage::Fragment => rebound_buffers(s.fragment_buffers, next.fragment_buffers, c)
                        && next.vertex_buffers == s.vertex_buffers,
                    Stage::Unknown => false,
                }
                &&& next == (RenderEncoderView {
                    vertex_buffers: next.vertex_buffers,
                    fragment_buffers: next.fragment_buffers,
                    ..s
                })
            },
            (RenderKind::SetBufferOffset, Ok(next)) => {
                &&& match c.stage {
                    Stage::Vertex => moved_buffer(s.vertex_buffers, next.vertex_buffers, c)
                        && next.fragment_buffers == s.fragment_buffers,
                    Stage::Fragment => moved_buffer(s.fragment_buffers, next.fragment_buffers, c)
                        && next.vertex_buffers == s.vertex_buffers,
                    Stage::Unknown => false,
                }
                &&& next == (RenderEncoderView {
                    vertex_buffers: next.vertex_buffers,
                    fragment_buffers: next.fragment_buffers,
                    ..s
                })
            },
            (RenderKind::SetTexture, Ok(next)) => {
                &&& c.first + c.ref_binds@.len() <= MAX_TEXTURE_BIND_SLOTS
                &&& match c.stage {
                    Stage::Vertex => rebound_textures(s.vertex_textures, next.vertex_textures, c)
                        && next.fragment_textures == s.fragment_textures,
                    Stage::Fragment => rebound_textures(
                        s.fragment_textures,
                        next.fragment_textures,
                        c,
                    ) && next.vertex_textures == s.vertex_textures,
                    Stage::Unknown => false,
                }
                &&& next == (RenderEncoderView {
                    vertex_textures: next.vertex_textures,
                    fragment_textures: next.fragment_textures,
                    ..s
                })
            },
            (RenderKind::SetSampler, Ok(next)) => {
                &&& c.first + c.ref_binds@.len() <= MAX_SAMPLER_BIND_SLOTS
                &&& match c.stage {
                    Stage::Vertex => rebound_samplers(s.vertex_samplers, next.vertex_samplers, c)
                        && next.fragment_samplers == s.fragment_samplers,
                    Stage::Fragment => rebound_samplers(
                        s.fragment_samplers,
                        next.fragment_samplers,
                        c,
                    ) && next.vertex_samplers == s.vertex_samplers,
                    Stage::Unknown => false,
                }
                &&& next == (RenderEncoderView {
                    vertex_samplers: next.vertex_samplers,
                    fragment_samplers: next.fragment_samplers,
                    ..s
                })
            },
            (RenderKind::SetTessellationFactorBuffer, Ok(next)) => {
                &&& match next.tessellation_factor_buffer {
                    None => c.buffer_ref == 0,
                    Some(held) => {
                        &&& held.reference == c.buffer_ref && c.buffer_ref != 0
                        &&& held.offset == c.buffer_offset
                        &&& held.instance_stride == c.tessellation_factor_instance_stride
                    },
                }
                &&& next == (RenderEncoderView {
                    tessellation_factor_buffer: next.tessellation_factor_buffer,
                    ..s
                })
            },
            _ => true,
        },
        c.kind is SetPipeline || c.kind is SetTessellationFactorBuffer ==> render_state_step(
            s,
            c,
        ) is Ok,
        c.kind is SetBuffer ==> (render_state_step(s, c) is Ok <==> c.first + c.buffer_binds@.len()
            <= MAX_BUFFER_BIND_SLOTS && !(c.stage is Unknown)),
        c.kind is SetTexture ==> (render_state_step(s, c) is Ok <==> c.first + c.ref_binds@.len()
            <= MAX_TEXTURE_BIND_SLOTS && !(c.stage is Unknown)),
        c.kind is SetSampler ==> (render_state_step(s, c) is Ok <==> c.first + c.ref_binds@.len()
            <= MAX_SAMPLER_BIND_SLOTS && !(c.stage is Unknown)),
        c.kind is SetBufferOffset ==> (render_state_step(s, c) is Ok <==> c.first
            < MAX_BUFFER_BIND_SLOTS && (c.stage is Vertex && s.vertex_buffers[c.first as int]
            is Some || c.stage is Fragment && s.fragment_buffers[c.first as int] is Some)),
{
}

/// A raster record sets the one thing that it names to what it states, and
/// touches nothing else of the encoder.
pub proof fn lemma_a_raster_record_sets_what_it_names(s: RenderEncoderView, c: RenderCommand)
    ensures
        match (c.kind, render_state_step(s, c)) {
            (RenderKind::SetViewport, Ok(next)) => next == (RenderEncoderView {
                viewports_bits: c.viewports@,
                ..s
            }),
            (RenderKind::SetScissor, Ok(next)) => {
                &&& next == (RenderEncoderView { scissors: c.scissors@, ..s })
                &&& forall|i: int|
                    0 <= i < c.scissors@.len() ==> !(#[trigger] c.scissors@[i]).empty()
            },
            (RenderKind::SetBlendColor, Ok(next)) => next == (RenderEncoderView {
                blend_color_bits: Some(c.blend_color),
                ..s
            }),
            (RenderKind::SetCullMode, Ok(next)) => {
                &&& next.cull_mode is Neither <==> c.cull_mode == 0
                &&& next.cull_mode is Front <==> c.cull_mode == 1
                &&& next.cull_mode is Back <==> c.cull_mode == 2
                &&& next == (RenderEncoderView { cull_mode: next.cull_mode, ..s })
            },
            (RenderKind::SetFrontFacing, Ok(next)) => {
                &&& next.front_face_ccw <==> c.front_facing == 1
                &&& c.front_facing <= 1
                &&& next == (RenderEncoderView { front_face_ccw: next.front_face_ccw, ..s })
            },
            (RenderKind::SetDepthBias, Ok(next)) => next == (RenderEncoderView {
                depth_bias_bits: Some(c.depth_bias),
                ..s
            }),
            (RenderKind::SetDepthStencil, Ok(next)) => next == (RenderEncoderView {
                depth_stencil_ref: c.depth_stencil_ref,
                ..s
            }),
            (RenderKind::SetStencilReference, Ok(next)) => {
                &&& next.stencil_reference matches Some((front, back))
                &&& front == c.stencil_ref_front && back == c.stencil_ref_back
                &&& next == (RenderEncoderView { stencil_reference: next.stencil_reference, ..s })
            },
            (RenderKind::SetRasterState, Ok(next)) => {
                &&& c.mode <= 1
                &&& c.opcode is SetTriangleFillMode ==> next == (RenderEncoderView {
                    fill_mode: next.fill_mode,
                    ..s
                }) && (next.fill_mode is Fill <==> c.mode == 0)
                &&& c.opcode is SetDepthClipMode ==> next == (RenderEncoderView {
                    depth_clip_mode: next.depth_clip_mode,
                    ..s
                }) && (next.depth_clip_mode is Clip <==> c.mode == 0)
                &&& c.opcode is SetTriangleFillMode || c.opcode is SetDepthClipMode
            },
            (RenderKind::SetFloatState, Ok(next)) => {
                &&& c.opcode is SetLineWidth ==> next == (RenderEncoderView {
                    line_width: c.float_value,
                    ..s
                })
                &&& !(c.opcode is SetLineWidth) ==> next == s && c.opcode
                    is SetTessellationFactorScale && c.float_value == ONE_BITS
            },
            _ => true,
        },
        match c.kind {
            RenderKind::SetViewport
            | RenderKind::SetBlendColor
            | RenderKind::SetDepthBias
            | RenderKind::SetDepthStencil
            | RenderKind::SetStencilReference => render_state_step(s, c) is Ok,
            RenderKind::SetScissor => (forall|i: int|
                0 <= i < c.scissors@.len() ==> !(#[trigger] c.scissors@[i]).empty())
                ==> render_state_step(s, c) is Ok,
            RenderKind::SetCullMode => c.cull_mode <= 2 <==> render_state_step(s, c) is Ok,
            RenderKind::SetFrontFacing => c.front_facing <= 1 <==> render_state_step(s, c) is Ok,
            RenderKind::SetRasterState => c.mode <= 1 && (c.opcode is SetTriangleFillMode
                || c.opcode is SetDepthClipMode) ==> render_state_step(s, c) is Ok,
            RenderKind::SetFloatState => c.opcode is SetLineWidth ==> render_state_step(
                s,
                c,
            ) is Ok,
            _ => true,
        },
{
}

/// A pass record states the attachments, and the query record the query; a
/// store-action record changes the store action, or its options, of the one
/// attachment that it names. None touches anything else.
pub proof fn lemma_a_pass_record_sets_what_it_names(s: RenderEncoderView, c: RenderCommand)
    ensures
        match (c.kind, render_state_step(s, c)) {
            (RenderKind::RenderPass, next) => {
                &&& next matches Ok(next)
                &&& next.color_attachments == c.color_attachments@
                &&& next.depth_attachment == c.depth
                &&& next.stencil_attachment == c.stencil
                &&& next.visibility_result_buffer_ref == c.pass_visibility_result_buffer_ref
                &&& next.render_target_array_length == c.pass_render_target_array_length
                &&& next.render_target_width == c.pass_render_target_width
                &&& next.render_target_height == c.pass_render_target_height
                &&& s == (RenderEncoderView {
                    color_attachments: s.color_attachments,
                    depth_attachment: s.depth_attachment,
                    stencil_attachment: s.stencil_attachment,
                    visibility_result_buffer_ref: s.visibility_result_buffer_ref,
                    render_target_array_length: s.render_target_array_length,
                    render_target_width: s.render_target_width,
                    render_target_height: s.render_target_height,
                    ..next
                })
            },
            (RenderKind::SetVisibilityResultMode, Ok(next)) => {
                &&& c.mode <= 2
                &&& match next.visibility {
                    None => c.mode == 0,
                    Some((mode, offset)) => {
                        &&& mode is Boolean <==> c.mode == 1
                        &&& mode is Counting <==> c.mode == 2
                        &&& offset == c.visibility_result_offset
                    },
                }
                &&& next == (RenderEncoderView { visibility: next.visibility, ..s })
            },
            (RenderKind::SetVisibilityResultMode, Err(_)) => c.mode > 2,
            (RenderKind::SetStoreAction, Ok(next)) => {
                &&& c.mode <= 3
                &&& match c.opcode {
                    RenderOpcode::SetColorStoreAction => {
                        &&& c.first < s.color_attachments.len()
                        &&& s.color_attachments[c.first as int].texture_ref != 0
                        &&& next.color_attachments.len() == s.color_attachments.len()
                        &&& forall|i: int|
                            0 <= i < next.color_attachments.len() && i != c.first
                                ==> #[trigger] next.color_attachments[i] == s.color_attachments[i]
                        &&& next.color_attachments[c.first as int] == (ColorAttachment {
                            store_action: c.mode as u16,
                            ..s.color_attachments[c.first as int]
                        })
                        &&& next == (RenderEncoderView {
                            color_attachments: next.color_attachments,
                            ..s
                        })
                    },
                    RenderOpcode::SetDepthStoreAction => {
                        &&& s.depth_attachment.texture_ref != 0
                        &&& next == (RenderEncoderView {
                            depth_attachment: (DepthAttachment {
                                store_action: c.mode as u16,
                                ..s.depth_attachment
                            }),
                            ..s
                        })
                    },
                    RenderOpcode::SetStencilStoreAction => {
                        &&& s.stencil_attachment.texture_ref != 0
                        &&& next == (RenderEncoderView {
                            stencil_attachment: (StencilAttachment {
                                store_action: c.mode as u16,
                                ..s.stencil_attachment
                            }),
                            ..s
                        })
                    },
                    _ => false,
                }
            },
            (RenderKind::SetStoreActionOptions, Ok(next)) => {
                &&& c.mode <= u16::MAX
                &&& match c.opcode {
                    RenderOpcode::SetColorStoreActionOptions => {
                        &&& c.first < s.color_attachments.len()
                        &&& s.color_attachments[c.first as int].texture_ref != 0
                        &&& next.color_attachments.len() == s.color_attachments.len()
                        &&& forall|i: int|
                            0 <= i < next.color_attachments.len() && i != c.first
                                ==> #[trigger] next.color_attachments[i] == s.color_attachments[i]
                        &&& next.color_attachments[c.first as int] == (ColorAttachment {
                            store_action_options: c.mode as u16,
                            ..s.color_attachments[c.first as int]
                        })
                        &&& next == (RenderEncoderView {
                            color_attachments: next.color_attachments,
                            ..s
                        })
                    },
                    RenderOpcode::SetDepthStoreActionOptions => {
                        &&& s.depth_attachment.texture_ref != 0
                        &&& next == (RenderEncoderView {
                            depth_attachment: (DepthAttachment {
                                store_action_options: c.mode as u16,
                                ..s.depth_attachment
                            }),
                            ..s
                        })
                    },
                    RenderOpcode::SetStencilStoreActionOptions => {
                        &&& s.stencil_attachment.texture_ref != 0
                        &&& next == (RenderEncoderView {
                            stencil_attachment: (StencilAttachment {
                                store_action_options: c.mode as u16,
                                ..s.stencil_attachment
                            }),
                            ..s
                        })
                    },
                    _ => false,
                }
            },
            (RenderKind::SetVertexAmplification, Ok(next)) => next == s,
            (RenderKind::RenderPassProperty, Ok(next)) => next == s && c.mode == 1,
            _ => true,
        },
{
}

/// A state record moves the open encoder of its own family, and leaves the other
/// and the count of stored batches alone; without an open encoder it is refused.
pub proof fn lemma_a_state_record_moves_its_own_encoder(
    s: ProjectionStateView,
    render: RenderCommand,
    compute: ComputeCommand,
)
    ensures
        match project_render_state(s, render) {
            Ok(next) => {
                &&& s.render is Some && next.render is Some
                &&& render_state_step(s.render->0, render) == Ok::<
                    RenderEncoderView,
                    ReplacementRenderStateResolutionError,
                >(next.render->0)
                &&& next.compute == s.compute && next.stores == s.stores
            },
            Err(_) => s.render is None || render_state_step(s.render->0, render) is Err,
        },
        match project_compute_state(s, compute) {
            Ok(next) => {
                &&& s.compute is Some && next.compute is Some
                &&& compute_state_step(s.compute->0, compute) == Ok::<
                    ComputeAccumView,
                    ReplacementComputeStateResolutionError,
                >(next.compute->0)
                &&& next.render == s.render && next.stores == s.stores
            },
            Err(_) => s.compute is None || compute_state_step(s.compute->0, compute) is Err,
        },
{
}

/// An encoder begins with nothing bound, whatever an earlier one held, and its
/// end closes it; no boundary touches the encoder of another family.
pub proof fn lemma_an_encoder_begins_fresh(s: ProjectionStateView, boundary: EncoderBoundary)
    ensures
        after_boundary(s, boundary).stores == s.stores,
        match boundary {
            EncoderBoundary::Begin(SegmentKind::Render) => {
                &&& after_boundary(s, boundary).compute == s.compute
                &&& after_boundary(s, boundary).render matches Some(fresh)
                &&& fresh.wf()
                &&& fresh.pipeline_ref == 0
                &&& forall|i: int|
                    0 <= i < MAX_BUFFER_BIND_SLOTS ==> (#[trigger] fresh.vertex_buffers[i]) is None
                &&& forall|i: int|
                    0 <= i < MAX_BUFFER_BIND_SLOTS ==> (
                    #[trigger] fresh.fragment_buffers[i]) is None
                &&& forall|i: int|
                    0 <= i < MAX_TEXTURE_BIND_SLOTS ==> (
                    #[trigger] fresh.vertex_textures[i]) is None
                &&& forall|i: int|
                    0 <= i < MAX_TEXTURE_BIND_SLOTS ==> (
                    #[trigger] fresh.fragment_textures[i]) is None
                &&& forall|i: int|
                    0 <= i < MAX_SAMPLER_BIND_SLOTS ==> (
                    #[trigger] fresh.vertex_samplers[i]) is None
                &&& forall|i: int|
                    0 <= i < MAX_SAMPLER_BIND_SLOTS ==> (
                    #[trigger] fresh.fragment_samplers[i]) is None
                &&& fresh.viewports_bits.len() == 0 && fresh.scissors.len() == 0
                &&& fresh.color_attachments.len() == 0
                &&& fresh.depth_attachment.texture_ref == 0
                &&& fresh.stencil_attachment.texture_ref == 0
                &&& fresh.depth_stencil_ref == 0 && fresh.stencil_reference is None
                &&& fresh.visibility is None && fresh.visibility_result_buffer_ref == 0
                &&& fresh.blend_color_bits is None && fresh.depth_bias_bits is None
                &&& fresh.tessellation_factor_buffer is None
                &&& fresh.cull_mode is Neither && !fresh.front_face_ccw
                &&& fresh.fill_mode is Fill && fresh.depth_clip_mode is Clip
                &&& fresh.render_target_array_length == 0
                &&& fresh.render_target_width == 0 && fresh.render_target_height == 0
            },
            EncoderBoundary::End(SegmentKind::Render) => after_boundary(s, boundary).render is None
                && after_boundary(s, boundary).compute == s.compute,
            EncoderBoundary::Begin(SegmentKind::Compute) => after_boundary(s, boundary).compute
                is Some && after_boundary(s, boundary).compute->0.pipeline_ref == 0
                && after_boundary(s, boundary).render == s.render,
            EncoderBoundary::End(SegmentKind::Compute) => after_boundary(s, boundary).compute
                is None && after_boundary(s, boundary).render == s.render,
            _ => after_boundary(s, boundary) == s,
        },
{
}

/// What contracts say of an encoder's state is what it holds.
pub proof fn lemma_an_encoder_is_seen_whole(
    state: ReplacementRenderEncoderState,
    projection: ReplacementRecordProjectionState,
)
    ensures
        state@.pipeline_ref == state.pipeline_ref,
        state@.vertex_buffers == state.vertex_buffers@,
        state@.fragment_buffers == state.fragment_buffers@,
        state@.vertex_textures == state.vertex_textures@,
        state@.fragment_textures == state.fragment_textures@,
        state@.vertex_samplers == state.vertex_samplers@,
        state@.fragment_samplers == state.fragment_samplers@,
        state@.viewports_bits == state.viewports_bits@,
        state@.scissors == state.scissors@,
        state@.blend_color_bits == state.blend_color_bits,
        state@.cull_mode == state.cull_mode,
        state@.front_face_ccw == state.front_face_ccw,
        state@.fill_mode == state.fill_mode,
        state@.line_width == state.line_width,
        state@.depth_clip_mode == state.depth_clip_mode,
        state@.depth_bias_bits == state.depth_bias_bits,
        state@.depth_stencil_ref == state.depth_stencil_ref,
        state@.stencil_reference == state.stencil_reference,
        state@.tessellation_factor_buffer == state.tessellation_factor_buffer,
        state@.color_attachments == state.color_attachments@,
        state@.depth_attachment == state.depth_attachment,
        state@.stencil_attachment == state.stencil_attachment,
        state@.visibility_result_buffer_ref == state.visibility_result_buffer_ref,
        state@.visibility == state.visibility,
        state@.render_target_array_length == state.render_target_array_length,
        state@.render_target_width == state.render_target_width,
        state@.render_target_height == state.render_target_height,
        projection@.stores == projection.stores,
        projection.render is None <==> projection@.render is None,
        projection.render matches Some(render) ==> projection@.render == Some(render@),
        projection.compute is None <==> projection@.compute is None,
        projection.compute matches Some(compute) ==> projection@.compute == Some(compute@),
{
}

} // verus!
