//! A draw record, resolved against the encoder state it is recorded under.

use vstd::prelude::*;

use crate::attachments::{
    pass_attachments, resolve_encoder_attachments, RenderAttachmentRole, ResolvedRenderAttachment,
};
use crate::bindings::{
    attribute_is_fetched, buffer_is_bound, draw_buffers, draw_samplers, draw_textures,
    draw_vertex_buffers, held, holds_stages, image_is_bound, lemma_every_attribute_is_fetched,
    lemma_every_declared_image_is_bound, lemma_every_declared_sampler_is_bound,
    lemma_every_used_buffer_is_bound, resolve_render_buffers, resolve_render_samplers,
    resolve_render_textures, resolve_vertex_buffers, sampler_is_bound, stage_mask, stands_for,
    AccessMode, BackingRegion, RenderBindingClass, RenderBindingView,
    ReplacementRenderDrawResolutionError, ResolvedRenderNullBinding, ResolvedRenderResourceBinding,
    ResolvedRenderSamplerBinding, ResolvedVertexBufferLayout, TextureLists, VertexLists,
    RENDER_STAGE_VERTEX,
};
use crate::command::{RenderCommand, RenderKind, ScissorRect, Stage};
use crate::encoder_state::{
    ProjectionStateView, RenderEncoderView, ReplacementRecordProjectionState,
    ReplacementRenderEncoderState, MAX_TEXTURE_BIND_SLOTS,
};
use crate::raster::{
    decode_index_type, index_type_of, primitive_topology, primitive_topology_of, CullMode,
    DepthClipMode, FillMode, IndexType, PrimitiveTopology, VisibilityResultMode,
};
use crate::session::{
    BufferAnswer, BufferQuery, LinearRegion, ReflectedBinding, ReflectedTexture,
    RenderBufferIndexBounds, RenderPipelineAnswer, ReplacementRenderSemanticAvailability,
    ReplacementRuntimeSession, ResolvedBufferRange, ResolvedRenderPipeline, ShaderResourceKind,
    StageReflection, TextureAnswer,
};
use crate::tables::{answer_of, append_all, copy_all};

verus! {

/// Bytes of a draw's arguments in memory.
pub const RENDER_INDIRECT_ARGUMENT_BYTES: u64 = 16;

/// Bytes of an indexed draw's arguments in memory.
pub const RENDER_INDEXED_INDIRECT_ARGUMENT_BYTES: u64 = 20;

/// Bytes of one occlusion query result.
pub const VISIBILITY_RESULT_BYTES: u64 = 8;

/// The geometry of a draw.
#[derive(Clone, Copy, Debug, PartialEq, Eq, Structural)]
#[allow(inconsistent_fields)]
pub enum ResolvedRenderDraw {
    Direct {
        topology: PrimitiveTopology,
        vertex_count: u32,
        instance_count: u32,
        first_vertex: u32,
        first_instance: u32,
    },
    Indexed {
        topology: PrimitiveTopology,
        index_type: IndexType,
        index_count: u32,
        instance_count: u32,
        first_index: u32,
        vertex_offset: i32,
        first_instance: u32,
    },
    Indirect { topology: PrimitiveTopology },
    IndexedIndirect { topology: PrimitiveTopology, index_type: IndexType },
}

/// The raster state of a draw.
#[derive(Debug, PartialEq, Eq)]
pub struct ResolvedRenderRasterState {
    pub viewports: Vec<[u64; 6]>,
    pub scissors: Vec<ScissorRect>,
    pub cull_mode: CullMode,
    pub front_face_ccw: bool,
    pub fill_mode: FillMode,
    pub line_width_bits: u32,
    pub depth_clip_mode: DepthClipMode,
    pub depth_bias_bits: Option<[u32; 3]>,
    pub blend_color_bits: Option<[u32; 4]>,
    pub stencil_reference: (u32, u32),
}

/// Where a draw's occlusion query result goes.
#[derive(Clone, Copy, Debug, PartialEq, Eq, Structural)]
pub struct ResolvedRenderVisibility {
    pub mode: VisibilityResultMode,
    pub resource: u64,
    pub backing: u64,
    pub range: LinearRegion,
}

/// A draw, resolved.
#[derive(Debug, PartialEq, Eq)]
pub struct ResolvedRenderDispatch {
    pub pipeline: u64,
    pub vertex_program: u64,
    pub fragment_program: u64,
    pub depth_stencil: Option<u64>,
    pub render_extent: (u32, u32),
    pub raster: ResolvedRenderRasterState,
    pub visibility: Option<ResolvedRenderVisibility>,
    pub begins_encoder: bool,
    pub ends_encoder: bool,
    pub draw: ResolvedRenderDraw,
    pub vertex_buffers: Vec<ResolvedVertexBufferLayout>,
    pub attachments: Vec<ResolvedRenderAttachment>,
    pub resources: Vec<ResolvedRenderResourceBinding>,
    pub null_bindings: Vec<ResolvedRenderNullBinding>,
    pub samplers: Vec<ResolvedRenderSamplerBinding>,
}

/// What contracts say of a draw's raster state.
#[verifier::ext_equal]
pub struct RasterView {
    pub viewports: Seq<[u64; 6]>,
    pub scissors: Seq<ScissorRect>,
    pub cull_mode: CullMode,
    pub front_face_ccw: bool,
    pub fill_mode: FillMode,
    pub line_width_bits: u32,
    pub depth_clip_mode: DepthClipMode,
    pub depth_bias_bits: Option<[u32; 3]>,
    pub blend_color_bits: Option<[u32; 4]>,
    pub stencil_reference: (u32, u32),
}

/// What contracts say of a draw.
#[verifier::ext_equal]
pub struct RenderDispatchView {
    pub pipeline: u64,
    pub vertex_program: u64,
    pub fragment_program: u64,
    pub depth_stencil: Option<u64>,
    pub render_extent: (u32, u32),
    pub raster: RasterView,
    pub visibility: Option<ResolvedRenderVisibility>,
    pub begins_encoder: bool,
    pub ends_encoder: bool,
    pub draw: ResolvedRenderDraw,
    pub vertex_buffers: Seq<ResolvedVertexBufferLayout>,
    pub attachments: Seq<ResolvedRenderAttachment>,
    pub resources: Seq<ResolvedRenderResourceBinding>,
    pub null_bindings: Seq<ResolvedRenderNullBinding>,
    pub samplers: Seq<ResolvedRenderSamplerBinding>,
}

impl View for ResolvedRenderRasterState {
    type V = RasterView;

    open spec fn view(&self) -> RasterView {
        RasterView {
            viewports: self.viewports@,
            scissors: self.scissors@,
            cull_mode: self.cull_mode,
            front_face_ccw: self.front_face_ccw,
            fill_mode: self.fill_mode,
            line_width_bits: self.line_width_bits,
            depth_clip_mode: self.depth_clip_mode,
            depth_bias_bits: self.depth_bias_bits,
            blend_color_bits: self.blend_color_bits,
            stencil_reference: self.stencil_reference,
        }
    }
}

impl View for ResolvedRenderDispatch {
    type V = RenderDispatchView;

    open spec fn view(&self) -> RenderDispatchView {
        RenderDispatchView {
            pipeline: self.pipeline,
            vertex_program: self.vertex_program,
            fragment_program: self.fragment_program,
            depth_stencil: self.depth_stencil,
            render_extent: self.render_extent,
            raster: self.raster@,
            visibility: self.visibility,
            begins_encoder: self.begins_encoder,
            ends_encoder: self.ends_encoder,
            draw: self.draw,
            vertex_buffers: self.vertex_buffers@,
            attachments: self.attachments@,
            resources: self.resources@,
            null_bindings: self.null_bindings@,
            samplers: self.samplers@,
        }
    }
}

/// The raster state an encoder draws with.
pub open spec fn encoder_raster(s: RenderEncoderView) -> RasterView {
    RasterView {
        viewports: s.viewports_bits,
        scissors: s.scissors,
        cull_mode: s.cull_mode,
        front_face_ccw: s.front_face_ccw,
        fill_mode: s.fill_mode,
        line_width_bits: s.line_width,
        depth_clip_mode: s.depth_clip_mode,
        depth_bias_bits: s.depth_bias_bits,
        blend_color_bits: s.blend_color_bits,
        stencil_reference: match s.stencil_reference {
            Some(reference) => reference,
            None => (0u32, 0u32),
        },
    }
}

// The pipeline.

/// Whether a draw can give a shader an argument of this kind.
pub open spec fn represented(kind: ShaderResourceKind) -> bool {
    !(kind is Other)
}

/// The first argument of a kind that a draw cannot give.
pub open spec fn first_unrepresented(bindings: Seq<ReflectedBinding>) -> Option<ReflectedBinding>
    decreases bindings.len(),
{
    if bindings.len() == 0 {
        None
    } else if !represented(bindings[0].kind) {
        Some(bindings[0])
    } else {
        first_unrepresented(bindings.skip(1))
    }
}

/// Whether a stage's interface is one that a draw can satisfy.
pub open spec fn stage_interface(stage: Stage, reflection: StageReflection) -> Result<
    (),
    ReplacementRenderDrawResolutionError,
> {
    match (reflection.unsupported, first_unrepresented(reflection.bindings@)) {
        (Some(unsupported), _) => Err(
            ReplacementRenderDrawResolutionError::ReflectedInterfaceUnrepresented {
                stage,
                feature: unsupported.feature,
                count: unsupported.count,
            },
        ),
        (None, Some(binding)) => Err(
            ReplacementRenderDrawResolutionError::ReflectedResourceUnrepresented {
                stage,
                index: binding.metal_index,
                kind: binding.kind,
            },
        ),
        (None, None) => Ok(()),
    }
}

/// The pipeline a reference names, with both interfaces satisfiable.
pub open spec fn draw_pipeline(session: ReplacementRuntimeSession, reference: u32) -> Result<
    ResolvedRenderPipeline,
    ReplacementRenderDrawResolutionError,
> {
    if reference == 0 {
        Err(ReplacementRenderDrawResolutionError::PipelineUnbound)
    } else {
        match answer_of(session.render_pipelines@, reference) {
            None => Err(
                ReplacementRenderDrawResolutionError::Pipeline(
                    ReplacementRenderSemanticAvailability::UnknownPipeline,
                ),
            ),
            Some(RenderPipelineAnswer::Unavailable(reason)) => Err(
                ReplacementRenderDrawResolutionError::Pipeline(
                    ReplacementRenderSemanticAvailability::Unavailable(reason),
                ),
            ),
            Some(RenderPipelineAnswer::Ready(pipeline)) => match (
                stage_interface(Stage::Vertex, pipeline.vertex),
                stage_interface(Stage::Fragment, pipeline.fragment),
            ) {
                (Err(error), _) => Err(error),
                (Ok(_), Err(error)) => Err(error),
                (Ok(_), Ok(_)) => Ok(pipeline),
            },
        }
    }
}

fn check_stage_interface(stage: Stage, reflection: &StageReflection) -> (result: Result<
    (),
    ReplacementRenderDrawResolutionError,
>)
    ensures
        result == stage_interface(stage, *reflection),
{
    if let Some(unsupported) = reflection.unsupported {
        return Err(
            ReplacementRenderDrawResolutionError::ReflectedInterfaceUnrepresented {
                stage,
                feature: unsupported.feature,
                count: unsupported.count,
            },
        );
    }
    let bindings = &reflection.bindings;
    let mut i: usize = 0;
    assert(bindings@.skip(0) =~= bindings@);
    while i < bindings.len()
        invariant
            i <= bindings@.len(),
            *bindings == reflection.bindings,
            reflection.unsupported is None,
            first_unrepresented(bindings@) == first_unrepresented(bindings@.skip(i as int)),
        decreases bindings.len() - i,
    {
        assert(bindings@.skip(i as int).skip(1) =~= bindings@.skip(i as int + 1));
        if let ShaderResourceKind::Other(_) = bindings[i].kind {
            return Err(
                ReplacementRenderDrawResolutionError::ReflectedResourceUnrepresented {
                    stage,
                    index: bindings[i].metal_index,
                    kind: bindings[i].kind,
                },
            );
        }
        i += 1;
    }
    Ok(())
}

fn resolve_draw_pipeline(session: &ReplacementRuntimeSession, reference: u32) -> (pipeline: Result<
    &ResolvedRenderPipeline,
    ReplacementRenderDrawResolutionError,
>)
    ensures
        match pipeline {
            Ok(pipeline) => draw_pipeline(*session, reference) == Ok::<
                ResolvedRenderPipeline,
                ReplacementRenderDrawResolutionError,
            >(*pipeline),
            Err(error) => draw_pipeline(*session, reference) == Err::<
                ResolvedRenderPipeline,
                ReplacementRenderDrawResolutionError,
            >(error),
        },
{
    if reference == 0 {
        return Err(ReplacementRenderDrawResolutionError::PipelineUnbound);
    }
    let pipeline = match session.resolve_render_pipeline(reference) {
        None => {
            return Err(
                ReplacementRenderDrawResolutionError::Pipeline(
                    ReplacementRenderSemanticAvailability::UnknownPipeline,
                ),
            );
        },
        Some(RenderPipelineAnswer::Unavailable(reason)) => {
            return Err(
                ReplacementRenderDrawResolutionError::Pipeline(
                    ReplacementRenderSemanticAvailability::Unavailable(*reason),
                ),
            );
        },
        Some(RenderPipelineAnswer::Ready(pipeline)) => pipeline,
    };
    if let Err(error) = check_stage_interface(Stage::Vertex, &pipeline.vertex) {
        return Err(error);
    }
    if let Err(error) = check_stage_interface(Stage::Fragment, &pipeline.fragment) {
        return Err(error);
    }
    Ok(pipeline)
}

// The attachments.

/// Whether a shader reads a colour attachment it also writes.
pub open spec fn reads_color_input(reflection: StageReflection) -> bool {
    exists|i: int|
        0 <= i < reflection.bindings@.len() && (#[trigger] reflection.bindings@[i]).kind is ColorInput
}

/// The attachments of a draw whose fragment stage reads a colour input: the
/// first colour attachment is that input.
pub open spec fn with_color_input(attachments: Seq<ResolvedRenderAttachment>, reads: bool) -> Seq<
    ResolvedRenderAttachment,
> {
    Seq::new(
        attachments.len(),
        |i: int|
            if reads && attachments[i].role == RenderAttachmentRole::Color(0) {
                ResolvedRenderAttachment { input_attachment: true, ..attachments[i] }
            } else {
                attachments[i]
            },
    )
}

/// The smallest of some lengths; zero where there are none.
pub open spec fn smallest(lengths: Seq<u32>) -> u32
    decreases lengths.len(),
{
    if lengths.len() == 0 {
        0
    } else if lengths.len() == 1 || lengths.last() < smallest(lengths.drop_last()) {
        lengths.last()
    } else {
        smallest(lengths.drop_last())
    }
}

pub open spec fn attachment_widths(attachments: Seq<ResolvedRenderAttachment>) -> Seq<u32> {
    Seq::new(attachments.len(), |i: int| attachments[i].target.extent.width)
}

pub open spec fn attachment_heights(attachments: Seq<ResolvedRenderAttachment>) -> Seq<u32> {
    Seq::new(attachments.len(), |i: int| attachments[i].target.extent.height)
}

/// A stated length, or the fallback where none is stated.
pub open spec fn explicit_extent(value: u64, fallback: u32) -> Result<
    u32,
    ReplacementRenderDrawResolutionError,
> {
    if value == 0 {
        Ok(fallback)
    } else if value > u32::MAX {
        Err(ReplacementRenderDrawResolutionError::RenderExtentOutOfRange)
    } else {
        Ok(value as u32)
    }
}

/// The first attachment that an extent reaches past.
pub open spec fn first_exceeded(
    attachments: Seq<ResolvedRenderAttachment>,
    width: u32,
    height: u32,
) -> Option<ResolvedRenderAttachment>
    decreases attachments.len(),
{
    if attachments.len() == 0 {
        None
    } else if width > attachments[0].target.extent.width || height
        > attachments[0].target.extent.height {
        Some(attachments[0])
    } else {
        first_exceeded(attachments.skip(1), width, height)
    }
}

/// The area a draw covers: what the pass states, else what every attachment
/// has, and no more than any attachment has.
pub open spec fn draw_extent(
    s: RenderEncoderView,
    attachments: Seq<ResolvedRenderAttachment>,
) -> Result<(u32, u32), ReplacementRenderDrawResolutionError> {
    match (
        explicit_extent(s.render_target_width, smallest(attachment_widths(attachments))),
        explicit_extent(s.render_target_height, smallest(attachment_heights(attachments))),
    ) {
        (Ok(width), Ok(height)) => match first_exceeded(attachments, width, height) {
            Some(attachment) => Err(
                ReplacementRenderDrawResolutionError::RenderExtentPastAttachment {
                    role: attachment.role,
                    requested_width: width,
                    requested_height: height,
                    available_width: attachment.target.extent.width,
                    available_height: attachment.target.extent.height,
                },
            ),
            None => Ok((width, height)),
        },
        _ => Err(ReplacementRenderDrawResolutionError::RenderExtentOutOfRange),
    }
}

fn has_color_input(reflection: &StageReflection) -> (reads: bool)
    ensures
        reads == reads_color_input(*reflection),
{
    let mut i: usize = 0;
    while i < reflection.bindings.len()
        invariant
            i <= reflection.bindings@.len(),
            forall|j: int|
                0 <= j < i ==> !((#[trigger] reflection.bindings@[j]).kind is ColorInput),
        decreases reflection.bindings.len() - i,
    {
        if reflection.bindings[i].kind == ShaderResourceKind::ColorInput {
            assert(reflection.bindings@[i as int].kind is ColorInput);
            return true;
        }
        i += 1;
    }
    false
}

fn mark_color_input(attachments: &mut Vec<ResolvedRenderAttachment>)
    ensures
        final(attachments)@ == with_color_input(old(attachments)@, true),
{
    let mut i: usize = 0;
    while i < attachments.len()
        invariant
            i <= attachments@.len(),
            attachments@.len() == old(attachments)@.len(),
            forall|j: int|
                0 <= j < attachments@.len() ==> #[trigger] attachments@[j] == (if j < i {
                    with_color_input(old(attachments)@, true)[j]
                } else {
                    old(attachments)@[j]
                }),
        decreases attachments.len() - i,
    {
        let mut attachment = attachments[i];
        if attachment.role == RenderAttachmentRole::Color(0) {
            attachment.input_attachment = true;
            attachments.set(i, attachment);
        }
        i += 1;
    }
    assert(attachments@ =~= with_color_input(old(attachments)@, true));
}

fn smallest_extent(attachments: &Vec<ResolvedRenderAttachment>) -> (extent: (u32, u32))
    ensures
        extent.0 == smallest(attachment_widths(attachments@)),
        extent.1 == smallest(attachment_heights(attachments@)),
{
    let mut width: u32 = 0;
    let mut height: u32 = 0;
    let mut i: usize = 0;
    while i < attachments.len()
        invariant
            i <= attachments@.len(),
            width == smallest(attachment_widths(attachments@).take(i as int)),
            height == smallest(attachment_heights(attachments@).take(i as int)),
        decreases attachments.len() - i,
    {
        let extent = attachments[i].target.extent;
        proof {
            let widths = attachment_widths(attachments@);
            let heights = attachment_heights(attachments@);
            assert(widths.take(i as int + 1).drop_last() =~= widths.take(i as int));
            assert(heights.take(i as int + 1).drop_last() =~= heights.take(i as int));
        }
        if i == 0 || extent.width < width {
            width = extent.width;
        }
        if i == 0 || extent.height < height {
            height = extent.height;
        }
        i += 1;
    }
    proof {
        assert(attachment_widths(attachments@).take(i as int) =~= attachment_widths(attachments@));
        assert(attachment_heights(attachments@).take(i as int) =~= attachment_heights(
            attachments@,
        ));
    }
    (width, height)
}

fn resolve_draw_extent(
    render: &ReplacementRenderEncoderState,
    attachments: &Vec<ResolvedRenderAttachment>,
) -> (extent: Result<(u32, u32), ReplacementRenderDrawResolutionError>)
    ensures
        extent == draw_extent(render@, attachments@),
{
    let (minimum_width, minimum_height) = smallest_extent(attachments);
    if render.render_target_width > u32::MAX as u64 || render.render_target_height
        > u32::MAX as u64 {
        return Err(ReplacementRenderDrawResolutionError::RenderExtentOutOfRange);
    }
    let width: u32 = if render.render_target_width == 0 {
        minimum_width
    } else {
        render.render_target_width as u32
    };
    let height: u32 = if render.render_target_height == 0 {
        minimum_height
    } else {
        render.render_target_height as u32
    };
    let mut i: usize = 0;
    assert(attachments@.skip(0) =~= attachments@);
    while i < attachments.len()
        invariant
            i <= attachments@.len(),
            first_exceeded(attachments@, width, height) == first_exceeded(
                attachments@.skip(i as int),
                width,
                height,
            ),
            explicit_extent(
                render@.render_target_width,
                smallest(attachment_widths(attachments@)),
            ) == Ok::<u32, ReplacementRenderDrawResolutionError>(width),
            explicit_extent(
                render@.render_target_height,
                smallest(attachment_heights(attachments@)),
            ) == Ok::<u32, ReplacementRenderDrawResolutionError>(height),
        decreases attachments.len() - i,
    {
        assert(attachments@.skip(i as int).skip(1) =~= attachments@.skip(i as int + 1));
        let extent = attachments[i].target.extent;
        if width > extent.width || height > extent.height {
            return Err(
                ReplacementRenderDrawResolutionError::RenderExtentPastAttachment {
                    role: attachments[i].role,
                    requested_width: width,
                    requested_height: height,
                    available_width: extent.width,
                    available_height: extent.height,
                },
            );
        }
        i += 1;
    }
    Ok((width, height))
}

// Depth-stencil state and occlusion queries.

pub open spec fn draw_depth_stencil(session: ReplacementRuntimeSession, reference: u32) -> Result<
    Option<u64>,
    ReplacementRenderDrawResolutionError,
> {
    if reference == 0 {
        Ok(None)
    } else {
        match session.depth_stencil(reference) {
            Some(state) => Ok(Some(state)),
            None => Err(ReplacementRenderDrawResolutionError::DepthStencilStateMissing),
        }
    }
}

/// Where an armed query's result goes: eight bytes of the pass's buffer.
pub open spec fn draw_visibility(session: ReplacementRuntimeSession, s: RenderEncoderView) -> Result<
    Option<ResolvedRenderVisibility>,
    ReplacementRenderDrawResolutionError,
> {
    match s.visibility {
        None => Ok(None),
        Some((mode, offset)) => if s.visibility_result_buffer_ref == 0 {
            Err(ReplacementRenderDrawResolutionError::VisibilityBufferMissing)
        } else {
            match session.buffer(
                s.visibility_result_buffer_ref,
                offset,
                Some(VISIBILITY_RESULT_BYTES),
            ) {
                Err(reason) => Err(ReplacementRenderDrawResolutionError::VisibilityBuffer(reason)),
                Ok(range) => Ok(
                    Some(
                        ResolvedRenderVisibility {
                            mode,
                            resource: range.resource,
                            backing: range.storage,
                            range: range.region,
                        },
                    ),
                ),
            }
        },
    }
}

fn resolve_draw_depth_stencil(session: &ReplacementRuntimeSession, reference: u32) -> (state:
    Result<Option<u64>, ReplacementRenderDrawResolutionError>)
    ensures
        state == draw_depth_stencil(*session, reference),
{
    if reference == 0 {
        return Ok(None);
    }
    match session.resolve_depth_stencil(reference) {
        Some(state) => Ok(Some(state)),
        None => Err(ReplacementRenderDrawResolutionError::DepthStencilStateMissing),
    }
}

fn resolve_draw_visibility(
    session: &ReplacementRuntimeSession,
    render: &ReplacementRenderEncoderState,
) -> (visibility: Result<Option<ResolvedRenderVisibility>, ReplacementRenderDrawResolutionError>)
    ensures
        visibility == draw_visibility(*session, render@),
{
    match render.visibility {
        None => Ok(None),
        Some((mode, offset)) => {
            if render.visibility_result_buffer_ref == 0 {
                return Err(ReplacementRenderDrawResolutionError::VisibilityBufferMissing);
            }
            match session.resolve_buffer_range(
                render.visibility_result_buffer_ref,
                offset,
                VISIBILITY_RESULT_BYTES,
            ) {
                Err(reason) => Err(ReplacementRenderDrawResolutionError::VisibilityBuffer(reason)),
                Ok(range) => Ok(
                    Some(
                        ResolvedRenderVisibility {
                            mode,
                            resource: range.resource,
                            backing: range.storage,
                            range: range.region,
                        },
                    ),
                ),
            }
        },
    }
}

// The geometry.

/// What a draw record states of its geometry.
#[derive(Clone, Copy, Debug, PartialEq, Eq, Structural)]
pub struct DrawArguments {
    /// Whether the counts are read from memory.
    pub indirect: bool,
    pub primitive_type: u32,
    pub vertex_start: u32,
    pub vertex_count: u32,
    pub instance_count: u32,
    pub base_instance: u32,
    pub base_vertex: i64,
    pub index_type: u32,
    pub index_count: u32,
    pub index_buffer_ref: u32,
    pub index_buffer_offset: u64,
    pub indirect_buffer_ref: u32,
    pub indirect_buffer_offset: u64,
}

/// What a draw record states of its geometry.
pub open spec fn draw_arguments(c: RenderCommand) -> DrawArguments {
    DrawArguments {
        indirect: c.kind is DrawIndirect,
        primitive_type: c.primitive_type,
        vertex_start: c.vertex_start,
        vertex_count: c.vertex_count,
        instance_count: c.instance_count,
        base_instance: c.base_instance,
        base_vertex: c.base_vertex,
        index_type: c.index_type,
        index_count: c.index_count,
        index_buffer_ref: c.index_buffer_ref,
        index_buffer_offset: c.index_buffer_offset,
        indirect_buffer_ref: c.indirect_buffer_ref,
        indirect_buffer_offset: c.indirect_buffer_offset,
    }
}

/// Whether a draw reads indices.
pub open spec fn draw_indexed(c: DrawArguments) -> bool {
    c.index_buffer_ref != 0 || c.index_count != 0
}

/// Whether a draw states that it draws nothing.
pub open spec fn draws_nothing(c: DrawArguments) -> bool {
    &&& !c.indirect
    &&& (if draw_indexed(c) {
        c.index_count
    } else {
        c.vertex_count
    }) == 0 || c.instance_count == 0
}

/// A run of memory that a draw fetches as `class`.
pub open spec fn fetched(class: RenderBindingClass, range: ResolvedBufferRange)
    -> ResolvedRenderResourceBinding {
    ResolvedRenderResourceBinding {
        class,
        binding: 0,
        array_element: 0,
        descriptor_count: 1,
        stages: RENDER_STAGE_VERTEX,
        resource: range.resource,
        backing: range.storage,
        view: RenderBindingView::Buffer(range.region),
        region: BackingRegion::Linear(range.region),
        mode: AccessMode::Read,
    }
}

/// The index memory and the geometry of an indexed draw.
pub open spec fn indexed_geometry(
    session: ReplacementRuntimeSession,
    c: DrawArguments,
    topology: PrimitiveTopology,
) -> Result<(ResolvedBufferRange, ResolvedRenderDraw), ReplacementRenderDrawResolutionError> {
    if c.index_buffer_ref == 0 {
        Err(ReplacementRenderDrawResolutionError::IndexedBufferMissing)
    } else {
        match index_type_of(c.index_type) {
            None => Err(ReplacementRenderDrawResolutionError::IndexType(c.index_type)),
            Some(index_type) => match session.buffer(
                c.index_buffer_ref,
                c.index_buffer_offset,
                if c.indirect {
                    None
                } else {
                    Some((c.index_count * index_type.bytes()) as u64)
                },
            ) {
                Err(reason) => Err(ReplacementRenderDrawResolutionError::IndexBuffer(reason)),
                Ok(range) => if c.indirect {
                    Ok((range, ResolvedRenderDraw::IndexedIndirect { topology, index_type }))
                } else if c.base_vertex < i32::MIN || c.base_vertex > i32::MAX {
                    Err(ReplacementRenderDrawResolutionError::IndexVertexOffsetOutOfRange)
                } else {
                    Ok(
                        (
                            range,
                            ResolvedRenderDraw::Indexed {
                                topology,
                                index_type,
                                index_count: c.index_count,
                                instance_count: c.instance_count,
                                first_index: 0,
                                vertex_offset: c.base_vertex as i32,
                                first_instance: c.base_instance,
                            },
                        ),
                    )
                },
            },
        }
    }
}

/// The memory a draw fetches beside its bindings, and its geometry.
pub open spec fn draw_geometry(
    session: ReplacementRuntimeSession,
    c: DrawArguments,
    topology: PrimitiveTopology,
) -> Result<
    (Seq<ResolvedRenderResourceBinding>, ResolvedRenderDraw),
    ReplacementRenderDrawResolutionError,
> {
    let indices = if draw_indexed(c) {
        match indexed_geometry(session, c, topology) {
            Err(error) => Err(error),
            Ok((range, draw)) => Ok(
                (seq![fetched(RenderBindingClass::IndexBuffer, range)], draw),
            ),
        }
    } else if c.indirect {
        Ok((Seq::empty(), ResolvedRenderDraw::Indirect { topology }))
    } else {
        Ok(
            (
                Seq::empty(),
                ResolvedRenderDraw::Direct {
                    topology,
                    vertex_count: c.vertex_count,
                    instance_count: c.instance_count,
                    first_vertex: c.vertex_start,
                    first_instance: c.base_instance,
                },
            ),
        )
    };
    match indices {
        Err(error) => Err(error),
        Ok((memory, draw)) => if !c.indirect {
            Ok((memory, draw))
        } else {
            match session.buffer(
                c.indirect_buffer_ref,
                c.indirect_buffer_offset,
                Some(
                    if draw_indexed(c) {
                        RENDER_INDEXED_INDIRECT_ARGUMENT_BYTES
                    } else {
                        RENDER_INDIRECT_ARGUMENT_BYTES
                    },
                ),
            ) {
                Err(reason) => Err(ReplacementRenderDrawResolutionError::IndirectBuffer(reason)),
                Ok(range) => Ok(
                    (memory.push(fetched(RenderBindingClass::IndirectBuffer, range)), draw),
                ),
            }
        },
    }
}

fn fetched_binding(class: RenderBindingClass, range: ResolvedBufferRange) -> (binding:
    ResolvedRenderResourceBinding)
    ensures
        binding == fetched(class, range),
{
    ResolvedRenderResourceBinding {
        class,
        binding: 0,
        array_element: 0,
        descriptor_count: 1,
        stages: RENDER_STAGE_VERTEX,
        resource: range.resource,
        backing: range.storage,
        view: RenderBindingView::Buffer(range.region),
        region: BackingRegion::Linear(range.region),
        mode: AccessMode::Read,
    }
}

fn resolve_indexed_geometry(
    session: &ReplacementRuntimeSession,
    arguments: &DrawArguments,
    topology: PrimitiveTopology,
) -> (geometry: Result<
    (ResolvedBufferRange, ResolvedRenderDraw),
    ReplacementRenderDrawResolutionError,
>)
    ensures
        geometry == indexed_geometry(*session, *arguments, topology),
{
    let indirect = arguments.indirect;
    if arguments.index_buffer_ref == 0 {
        return Err(ReplacementRenderDrawResolutionError::IndexedBufferMissing);
    }
    let index_type = match decode_index_type(arguments.index_type) {
        Some(index_type) => index_type,
        None => {
            return Err(ReplacementRenderDrawResolutionError::IndexType(arguments.index_type));
        },
    };
    let range = if indirect {
        session.resolve_buffer_tail(arguments.index_buffer_ref, arguments.index_buffer_offset)
    } else {
        let width: u64 = index_type.byte_size();
        assert(arguments.index_count * width <= u32::MAX * 4) by (nonlinear_arith)
            requires
                arguments.index_count <= u32::MAX,
                width <= 4,
        ;
        let length: u64 = arguments.index_count as u64 * width;
        session.resolve_buffer_range(
            arguments.index_buffer_ref,
            arguments.index_buffer_offset,
            length,
        )
    };
    let range = match range {
        Ok(range) => range,
        Err(reason) => {
            return Err(ReplacementRenderDrawResolutionError::IndexBuffer(reason));
        },
    };
    if indirect {
        return Ok((range, ResolvedRenderDraw::IndexedIndirect { topology, index_type }));
    }
    if arguments.base_vertex < i32::MIN as i64 || arguments.base_vertex > i32::MAX as i64 {
        return Err(ReplacementRenderDrawResolutionError::IndexVertexOffsetOutOfRange);
    }
    Ok(
        (
            range,
            ResolvedRenderDraw::Indexed {
                topology,
                index_type,
                index_count: arguments.index_count,
                instance_count: arguments.instance_count,
                first_index: 0,
                vertex_offset: arguments.base_vertex as i32,
                first_instance: arguments.base_instance,
            },
        ),
    )
}

fn resolve_draw_geometry(
    session: &ReplacementRuntimeSession,
    arguments: &DrawArguments,
    topology: PrimitiveTopology,
    resources: &mut Vec<ResolvedRenderResourceBinding>,
) -> (draw: Result<ResolvedRenderDraw, ReplacementRenderDrawResolutionError>)
    ensures
        match draw {
            Ok(draw) => {
                &&& draw_geometry(*session, *arguments, topology) matches Ok((memory, stated))
                &&& draw == stated
                &&& final(resources)@ == old(resources)@ + memory
            },
            Err(error) => draw_geometry(*session, *arguments, topology) == Err::<
                (Seq<ResolvedRenderResourceBinding>, ResolvedRenderDraw),
                ReplacementRenderDrawResolutionError,
            >(error),
        },
{
    let indirect = arguments.indirect;
    let indexed = arguments.index_buffer_ref != 0 || arguments.index_count != 0;
    let draw = if indexed {
        match resolve_indexed_geometry(session, arguments, topology) {
            Err(error) => {
                return Err(error);
            },
            Ok((range, draw)) => {
                resources.push(fetched_binding(RenderBindingClass::IndexBuffer, range));
                draw
            },
        }
    } else if indirect {
        ResolvedRenderDraw::Indirect { topology }
    } else {
        ResolvedRenderDraw::Direct {
            topology,
            vertex_count: arguments.vertex_count,
            instance_count: arguments.instance_count,
            first_vertex: arguments.vertex_start,
            first_instance: arguments.base_instance,
        }
    };
    if indirect {
        let argument_length: u64 = if indexed {
            RENDER_INDEXED_INDIRECT_ARGUMENT_BYTES
        } else {
            RENDER_INDIRECT_ARGUMENT_BYTES
        };
        match session.resolve_buffer_range(
            arguments.indirect_buffer_ref,
            arguments.indirect_buffer_offset,
            argument_length,
        ) {
            Err(reason) => {
                return Err(ReplacementRenderDrawResolutionError::IndirectBuffer(reason));
            },
            Ok(range) => resources.push(fetched_binding(RenderBindingClass::IndirectBuffer, range)),
        }
    }
    Ok(draw)
}

// The draw.

/// The resources that a draw's bindings name.
#[verifier::ext_equal]
pub struct DrawBindings {
    pub samplers: Seq<ResolvedRenderSamplerBinding>,
    pub textures: TextureLists,
    pub buffers: Seq<ResolvedRenderResourceBinding>,
    pub vertex: VertexLists,
}

/// The index bounds a draw record states.
pub open spec fn draw_bounds(c: DrawArguments) -> RenderBufferIndexBounds {
    RenderBufferIndexBounds {
        first_vertex: c.vertex_start,
        vertex_count: c.vertex_count,
        first_instance: c.base_instance,
        instance_count: c.instance_count,
        indexed: draw_indexed(c),
    }
}

/// A draw's bindings: samplers, images, buffers and vertex buffers, in that
/// order, or the first refusal.
pub open spec fn draw_bindings(
    session: ReplacementRuntimeSession,
    s: RenderEncoderView,
    pipeline: ResolvedRenderPipeline,
    c: DrawArguments,
) -> Result<DrawBindings, ReplacementRenderDrawResolutionError> {
    match draw_samplers(
        session,
        pipeline.vertex,
        pipeline.fragment,
        s.vertex_samplers,
        s.fragment_samplers,
    ) {
        Err(error) => Err(error),
        Ok(samplers) => match draw_textures(
            session,
            pipeline.vertex,
            pipeline.fragment,
            s.vertex_textures,
            s.fragment_textures,
        ) {
            Err(error) => Err(error),
            Ok(textures) => match draw_buffers(
                session,
                pipeline.vertex,
                pipeline.fragment,
                s.vertex_buffers,
                s.fragment_buffers,
                draw_bounds(c),
            ) {
                Err(error) => Err(error),
                Ok(buffers) => match draw_vertex_buffers(
                    session,
                    s.vertex_buffers,
                    pipeline.vertex_attributes@,
                ) {
                    Err(error) => Err(error),
                    Ok(vertex) => Ok(DrawBindings { samplers, textures, buffers, vertex }),
                },
            },
        },
    }
}

/// A draw of a known pipeline and topology under an encoder's state.
pub open spec fn pipeline_draw(
    session: ReplacementRuntimeSession,
    s: RenderEncoderView,
    pipeline: ResolvedRenderPipeline,
    topology: PrimitiveTopology,
    c: DrawArguments,
) -> Result<RenderDispatchView, ReplacementRenderDrawResolutionError> {
    match pass_attachments(session, s) {
        Err(error) => Err(ReplacementRenderDrawResolutionError::Attachment(error)),
        Ok(stated) => {
            let attachments = with_color_input(stated, reads_color_input(pipeline.fragment));
            match draw_bindings(session, s, pipeline, c) {
                Err(error) => Err(error),
                Ok(bindings) => match draw_extent(s, attachments) {
                    Err(error) => Err(error),
                    Ok(render_extent) => match draw_depth_stencil(session, s.depth_stencil_ref) {
                        Err(error) => Err(error),
                        Ok(depth_stencil) => match draw_visibility(session, s) {
                            Err(error) => Err(error),
                            Ok(visibility) => match draw_geometry(session, c, topology) {
                                Err(error) => Err(error),
                                Ok((memory, draw)) => Ok(
                                    RenderDispatchView {
                                        pipeline: pipeline.identity,
                                        vertex_program: pipeline.vertex.program,
                                        fragment_program: pipeline.fragment.program,
                                        depth_stencil,
                                        render_extent,
                                        raster: encoder_raster(s),
                                        visibility,
                                        begins_encoder: true,
                                        ends_encoder: true,
                                        draw,
                                        vertex_buffers: bindings.vertex.layouts,
                                        attachments,
                                        resources: bindings.textures.resources + bindings.buffers
                                            + bindings.vertex.resources + memory,
                                        null_bindings: bindings.textures.nulls,
                                        samplers: bindings.samplers,
                                    },
                                ),
                            },
                        },
                    },
                },
            }
        },
    }
}

/// What a draw record stands for under an encoder's state. `None` is a draw
/// that draws nothing.
pub open spec fn encoder_draw(
    session: ReplacementRuntimeSession,
    s: RenderEncoderView,
    c: DrawArguments,
) -> Result<Option<RenderDispatchView>, ReplacementRenderDrawResolutionError> {
    if s.render_target_array_length != 0 {
        Err(
            ReplacementRenderDrawResolutionError::RenderTargetArrayLengthUnsupported {
                length: s.render_target_array_length,
            },
        )
    } else {
        match draw_pipeline(session, s.pipeline_ref) {
            Err(error) => Err(error),
            Ok(pipeline) => match primitive_topology_of(c.primitive_type) {
                None => Err(
                    ReplacementRenderDrawResolutionError::PrimitiveTopology(c.primitive_type),
                ),
                Some(topology) => if draws_nothing(c) {
                    Ok(None)
                } else {
                    match pipeline_draw(session, s, pipeline, topology, c) {
                        Err(error) => Err(error),
                        Ok(dispatch) => Ok(Some(dispatch)),
                    }
                },
            },
        }
    }
}

/// What a draw record stands for under a projection's state.
pub open spec fn project_draw(
    session: ReplacementRuntimeSession,
    s: ProjectionStateView,
    c: RenderCommand,
) -> Result<Option<RenderDispatchView>, ReplacementRenderDrawResolutionError> {
    if !(c.kind is Draw || c.kind is DrawIndirect) {
        Err(ReplacementRenderDrawResolutionError::NotDraw)
    } else {
        match s.render {
            None => Err(ReplacementRenderDrawResolutionError::OutsideEncoder),
            Some(render) => encoder_draw(session, render, draw_arguments(c)),
        }
    }
}

/// The view of what a draw resolves to.
pub open spec fn draw_result(
    result: Result<Option<ResolvedRenderDispatch>, ReplacementRenderDrawResolutionError>,
) -> Result<Option<RenderDispatchView>, ReplacementRenderDrawResolutionError> {
    match result {
        Err(error) => Err(error),
        Ok(None) => Ok(None),
        Ok(Some(dispatch)) => Ok(Some(dispatch@)),
    }
}

fn resolve_pipeline_draw(
    session: &ReplacementRuntimeSession,
    render: &ReplacementRenderEncoderState,
    pipeline: &ResolvedRenderPipeline,
    topology: PrimitiveTopology,
    arguments: &DrawArguments,
) -> (dispatch: Result<ResolvedRenderDispatch, ReplacementRenderDrawResolutionError>)
    requires
        render@.wf(),
    ensures
        match dispatch {
            Ok(dispatch) => pipeline_draw(*session, render@, *pipeline, topology, *arguments) == Ok::<
                RenderDispatchView,
                ReplacementRenderDrawResolutionError,
            >(dispatch@),
            Err(error) => pipeline_draw(*session, render@, *pipeline, topology, *arguments) == Err::<
                RenderDispatchView,
                ReplacementRenderDrawResolutionError,
            >(error),
        },
{
    let mut attachments = match resolve_encoder_attachments(session, render) {
        Ok(attachments) => attachments,
        Err(error) => {
            return Err(ReplacementRenderDrawResolutionError::Attachment(error));
        },
    };
    let ghost stated = attachments@;
    if has_color_input(&pipeline.fragment) {
        mark_color_input(&mut attachments);
    }
    assert(attachments@ =~= with_color_input(stated, reads_color_input(pipeline.fragment)));
    let samplers = match resolve_render_samplers(
        session,
        &pipeline.vertex,
        &pipeline.fragment,
        &render.vertex_samplers,
        &render.fragment_samplers,
    ) {
        Ok(samplers) => samplers,
        Err(error) => {
            return Err(error);
        },
    };
    let textures = match resolve_render_textures(
        session,
        &pipeline.vertex,
        &pipeline.fragment,
        &render.vertex_textures,
        &render.fragment_textures,
    ) {
        Ok(textures) => textures,
        Err(error) => {
            return Err(error);
        },
    };
    let bounds = RenderBufferIndexBounds {
        first_vertex: arguments.vertex_start,
        vertex_count: arguments.vertex_count,
        first_instance: arguments.base_instance,
        instance_count: arguments.instance_count,
        indexed: arguments.index_buffer_ref != 0 || arguments.index_count != 0,
    };
    let buffers = match resolve_render_buffers(
        session,
        &pipeline.vertex,
        &pipeline.fragment,
        &render.vertex_buffers,
        &render.fragment_buffers,
        bounds,
    ) {
        Ok(buffers) => buffers,
        Err(error) => {
            return Err(error);
        },
    };
    let vertex = match resolve_vertex_buffers(
        session,
        &render.vertex_buffers,
        &pipeline.vertex_attributes,
    ) {
        Ok(vertex) => vertex,
        Err(error) => {
            return Err(error);
        },
    };
    let ghost bindings = DrawBindings {
        samplers: samplers@,
        textures: textures@,
        buffers: buffers@,
        vertex: vertex@,
    };
    assert(draw_bindings(*session, render@, *pipeline, *arguments) == Ok::<
        DrawBindings,
        ReplacementRenderDrawResolutionError,
    >(bindings));
    let render_extent = match resolve_draw_extent(render, &attachments) {
        Ok(render_extent) => render_extent,
        Err(error) => {
            return Err(error);
        },
    };
    let depth_stencil = match resolve_draw_depth_stencil(session, render.depth_stencil_ref) {
        Ok(depth_stencil) => depth_stencil,
        Err(error) => {
            return Err(error);
        },
    };
    let visibility = match resolve_draw_visibility(session, render) {
        Ok(visibility) => visibility,
        Err(error) => {
            return Err(error);
        },
    };
    let mut resources = textures.resources;
    append_all(&mut resources, &buffers);
    append_all(&mut resources, &vertex.resources);
    let draw = match resolve_draw_geometry(session, arguments, topology, &mut resources) {
        Ok(draw) => draw,
        Err(error) => {
            return Err(error);
        },
    };
    let raster = ResolvedRenderRasterState {
        viewports: copy_all(&render.viewports_bits),
        scissors: copy_all(&render.scissors),
        cull_mode: render.cull_mode,
        front_face_ccw: render.front_face_ccw,
        fill_mode: render.fill_mode,
        line_width_bits: render.line_width,
        depth_clip_mode: render.depth_clip_mode,
        depth_bias_bits: render.depth_bias_bits,
        blend_color_bits: render.blend_color_bits,
        stencil_reference: match render.stencil_reference {
            Some(reference) => reference,
            None => (0, 0),
        },
    };
    assert(raster@ =~= encoder_raster(render@));
    Ok(
        ResolvedRenderDispatch {
            pipeline: pipeline.identity,
            vertex_program: pipeline.vertex.program,
            fragment_program: pipeline.fragment.program,
            depth_stencil,
            render_extent,
            raster,
            visibility,
            begins_encoder: true,
            ends_encoder: true,
            draw,
            vertex_buffers: vertex.layouts,
            attachments,
            resources,
            null_bindings: textures.null_bindings,
            samplers,
        },
    )
}

/// Resolves a draw under an encoder's state. `None` is a draw that draws
/// nothing.
pub fn resolve_encoder_draw(
    session: &ReplacementRuntimeSession,
    render: &ReplacementRenderEncoderState,
    arguments: &DrawArguments,
) -> (dispatch: Result<Option<ResolvedRenderDispatch>, ReplacementRenderDrawResolutionError>)
    requires
        render@.wf(),
    ensures
        draw_result(dispatch) == encoder_draw(*session, render@, *arguments),
{
    if render.render_target_array_length != 0 {
        return Err(
            ReplacementRenderDrawResolutionError::RenderTargetArrayLengthUnsupported {
                length: render.render_target_array_length,
            },
        );
    }
    let pipeline = match resolve_draw_pipeline(session, render.pipeline_ref) {
        Ok(pipeline) => pipeline,
        Err(error) => {
            return Err(error);
        },
    };
    let topology = match primitive_topology(arguments.primitive_type) {
        Some(topology) => topology,
        None => {
            return Err(
                ReplacementRenderDrawResolutionError::PrimitiveTopology(arguments.primitive_type),
            );
        },
    };
    let indexed = arguments.index_buffer_ref != 0 || arguments.index_count != 0;
    let count: u32 = if indexed {
        arguments.index_count
    } else {
        arguments.vertex_count
    };
    if !arguments.indirect && (count == 0 || arguments.instance_count == 0) {
        return Ok(None);
    }
    match resolve_pipeline_draw(session, render, pipeline, topology, arguments) {
        Ok(dispatch) => Ok(Some(dispatch)),
        Err(error) => Err(error),
    }
}

/// Resolves a draw record under the open render encoder. `None` is a draw that
/// draws nothing.
pub fn resolve_render_draw(
    session: &ReplacementRuntimeSession,
    state: &ReplacementRecordProjectionState,
    command: &RenderCommand,
) -> (dispatch: Result<Option<ResolvedRenderDispatch>, ReplacementRenderDrawResolutionError>)
    requires
        state@.wf(),
    ensures
        draw_result(dispatch) == project_draw(*session, state@, *command),
{
    if command.kind != RenderKind::Draw && command.kind != RenderKind::DrawIndirect {
        return Err(ReplacementRenderDrawResolutionError::NotDraw);
    }
    match state.render() {
        None => Err(ReplacementRenderDrawResolutionError::OutsideEncoder),
        Some(render) => resolve_encoder_draw(
            session,
            render,
            &DrawArguments {
                indirect: command.kind == RenderKind::DrawIndirect,
                primitive_type: command.primitive_type,
                vertex_start: command.vertex_start,
                vertex_count: command.vertex_count,
                instance_count: command.instance_count,
                base_instance: command.base_instance,
                base_vertex: command.base_vertex,
                index_type: command.index_type,
                index_count: command.index_count,
                index_buffer_ref: command.index_buffer_ref,
                index_buffer_offset: command.index_buffer_offset,
                indirect_buffer_ref: command.indirect_buffer_ref,
                indirect_buffer_offset: command.indirect_buffer_offset,
            },
        ),
    }
}

// What a resolved draw holds.

/// How many bytes an index takes.
pub open spec fn index_bytes(index_type: IndexType) -> u64 {
    if index_type == IndexType::Uint16 {
        2
    } else {
        4
    }
}

/// Whether a resource is a run of memory that a draw fetches from.
pub open spec fn fetches(resource: ResolvedRenderResourceBinding, range: ResolvedBufferRange) -> bool {
    &&& resource.resource == range.resource
    &&& resource.backing == range.storage
    &&& resource.view == RenderBindingView::Buffer(range.region)
    &&& resource.region == BackingRegion::Linear(range.region)
    &&& resource.mode == AccessMode::Read
    &&& resource.stages == RENDER_STAGE_VERTEX
    &&& resource.binding == 0 && resource.array_element == 0 && resource.descriptor_count == 1
}

/// Whether a list of resources holds just one of a class, the run of memory that
/// the session answers a question with.
pub open spec fn fetches_one(
    session: ReplacementRuntimeSession,
    resources: Seq<ResolvedRenderResourceBinding>,
    class: RenderBindingClass,
    query: BufferQuery,
) -> bool {
    match answer_of(session.buffers@, query) {
        Some(BufferAnswer::Range(range)) => exists|k: int|
            0 <= k < resources.len() && (#[trigger] resources[k]).class == class && fetches(
                resources[k],
                range,
            ) && forall|j: int|
                0 <= j < resources.len() && j != k ==> (#[trigger] resources[j]).class != class,
        _ => false,
    }
}

/// Whether no resource of a list is of a class.
pub open spec fn fetches_none(
    resources: Seq<ResolvedRenderResourceBinding>,
    class: RenderBindingClass,
) -> bool {
    forall|k: int| 0 <= k < resources.len() ==> (#[trigger] resources[k]).class != class
}

/// The parts that a draw's dispatch is made of.
proof fn lemma_draw_parts(session: ReplacementRuntimeSession, s: RenderEncoderView, c: DrawArguments)
    ensures
        match encoder_draw(session, s, c) {
            Ok(Some(dispatch)) => {
                &&& answer_of(session.render_pipelines@, s.pipeline_ref) matches Some(
                    RenderPipelineAnswer::Ready(pipeline),
                )
                &&& primitive_topology_of(c.primitive_type) matches Some(topology)
                &&& draw_bindings(session, s, pipeline, c) matches Ok(bindings)
                &&& draw_geometry(session, c, topology) matches Ok(geometry)
                &&& pass_attachments(session, s) matches Ok(stated)
                &&& dispatch.attachments == with_color_input(
                    stated,
                    reads_color_input(pipeline.fragment),
                )
                &&& dispatch.resources == bindings.textures.resources + bindings.buffers
                    + bindings.vertex.resources + geometry.0
                &&& dispatch.draw == geometry.1
                &&& dispatch.null_bindings == bindings.textures.nulls
                &&& dispatch.vertex_buffers == bindings.vertex.layouts
                &&& dispatch.samplers == bindings.samplers
                &&& draw_textures(
                    session,
                    pipeline.vertex,
                    pipeline.fragment,
                    s.vertex_textures,
                    s.fragment_textures,
                ) == Ok::<TextureLists, ReplacementRenderDrawResolutionError>(bindings.textures)
                &&& draw_buffers(
                    session,
                    pipeline.vertex,
                    pipeline.fragment,
                    s.vertex_buffers,
                    s.fragment_buffers,
                    draw_bounds(c),
                ) == Ok::<
                    Seq<ResolvedRenderResourceBinding>,
                    ReplacementRenderDrawResolutionError,
                >(bindings.buffers)
                &&& draw_vertex_buffers(session, s.vertex_buffers, pipeline.vertex_attributes@)
                    == Ok::<VertexLists, ReplacementRenderDrawResolutionError>(bindings.vertex)
                &&& draw_samplers(
                    session,
                    pipeline.vertex,
                    pipeline.fragment,
                    s.vertex_samplers,
                    s.fragment_samplers,
                ) == Ok::<
                    Seq<ResolvedRenderSamplerBinding>,
                    ReplacementRenderDrawResolutionError,
                >(bindings.samplers)
            },
            _ => true,
        },
{
}

/// Of a list whose front holds none of a class, the one of that class behind it
/// is the only one.
proof fn lemma_one_fetched(
    session: ReplacementRuntimeSession,
    front: Seq<ResolvedRenderResourceBinding>,
    memory: Seq<ResolvedRenderResourceBinding>,
    class: RenderBindingClass,
    query: BufferQuery,
    range: ResolvedBufferRange,
    at: int,
)
    requires
        fetches_none(front, class),
        0 <= at < memory.len(),
        memory[at] == fetched(class, range),
        forall|j: int| 0 <= j < memory.len() && j != at ==> (#[trigger] memory[j]).class != class,
        answer_of(session.buffers@, query) == Some(BufferAnswer::Range(range)),
    ensures
        fetches_one(session, front + memory, class, query),
{
    let all = front + memory;
    let k = front.len() + at;
    assert(all[k] == memory[at]);
    assert forall|j: int| 0 <= j < all.len() && j != k implies (#[trigger] all[j]).class != class by {
        if j < front.len() {
            assert(all[j] == front[j]);
        } else {
            assert(all[j] == memory[j - front.len()]);
        }
    }
    assert(all[k].class == class && fetches(all[k], range));
}

proof fn lemma_bindings_fetch_none(
    session: ReplacementRuntimeSession,
    s: RenderEncoderView,
    pipeline: ResolvedRenderPipeline,
    c: DrawArguments,
    bindings: DrawBindings,
)
    requires
        draw_bindings(session, s, pipeline, c) == Ok::<
            DrawBindings,
            ReplacementRenderDrawResolutionError,
        >(bindings),
    ensures
        ({
            let front = bindings.textures.resources + bindings.buffers + bindings.vertex.resources;
            &&& fetches_none(front, RenderBindingClass::IndexBuffer)
            &&& fetches_none(front, RenderBindingClass::IndirectBuffer)
        }),
{
    lemma_every_declared_image_is_bound(
        session,
        pipeline.vertex,
        pipeline.fragment,
        s.vertex_textures,
        s.fragment_textures,
    );
    lemma_every_used_buffer_is_bound(
        session,
        pipeline.vertex,
        pipeline.fragment,
        s.vertex_buffers,
        s.fragment_buffers,
        draw_bounds(c),
    );
    lemma_every_attribute_is_fetched(session, s.vertex_buffers, pipeline.vertex_attributes@);
    let images = bindings.textures.resources;
    let front = images + bindings.buffers + bindings.vertex.resources;
    assert forall|k: int| 0 <= k < front.len() implies (#[trigger] front[k]).class
        != RenderBindingClass::IndexBuffer && front[k].class
        != RenderBindingClass::IndirectBuffer by {
        if k < images.len() {
            assert(front[k] == images[k]);
        } else if k < images.len() + bindings.buffers.len() {
            assert(front[k] == bindings.buffers[k - images.len()]);
        } else {
            assert(front[k] == bindings.vertex.resources[k - images.len()
                - bindings.buffers.len()]);
        }
    }
}

/// What the memory beside a draw's bindings is.
proof fn lemma_draw_memory(
    session: ReplacementRuntimeSession,
    front: Seq<ResolvedRenderResourceBinding>,
    c: DrawArguments,
    topology: PrimitiveTopology,
)
    requires
        fetches_none(front, RenderBindingClass::IndexBuffer),
        fetches_none(front, RenderBindingClass::IndirectBuffer),
    ensures
        match draw_geometry(session, c, topology) {
            Ok((memory, _)) => reads_stated_memory(session, c, front + memory),
            Err(_) => true,
        },
{
    if let Ok((memory, _)) = draw_geometry(session, c, topology) {
        let all = front + memory;
        if draw_indexed(c) {
            let index_type = index_type_of(c.index_type)->0;
            let query = index_question(c, index_type);
            let range = indexed_geometry(session, c, topology)->Ok_0.0;
            lemma_one_fetched(
                session,
                front,
                memory,
                RenderBindingClass::IndexBuffer,
                query,
                range,
                0,
            );
        } else {
            assert forall|k: int| 0 <= k < all.len() implies (#[trigger] all[k]).class
                != RenderBindingClass::IndexBuffer by {
                if k < front.len() {
                    assert(all[k] == front[k]);
                } else {
                    assert(all[k] == memory[k - front.len()]);
                }
            }
        }
        if c.indirect {
            let query = BufferQuery {
                reference: c.indirect_buffer_ref,
                offset: c.indirect_buffer_offset,
                length: Some(
                    if draw_indexed(c) {
                        20u64
                    } else {
                        16u64
                    },
                ),
            };
            let range = answer_of(session.buffers@, query)->0->Range_0;
            lemma_one_fetched(
                session,
                front,
                memory,
                RenderBindingClass::IndirectBuffer,
                query,
                range,
                memory.len() - 1,
            );
        } else {
            assert forall|k: int| 0 <= k < all.len() implies (#[trigger] all[k]).class
                != RenderBindingClass::IndirectBuffer by {
                if k < front.len() {
                    assert(all[k] == front[k]);
                } else {
                    assert(all[k] == memory[k - front.len()]);
                }
            }
        }
    }
}

/// The question for the indices of a draw: from the stated offset of the stated
/// buffer on, as many as are drawn, or all that follow where the count is not
/// known.
pub open spec fn index_question(c: DrawArguments, index_type: IndexType) -> BufferQuery {
    BufferQuery {
        reference: c.index_buffer_ref,
        offset: c.index_buffer_offset,
        length: if c.indirect {
            None
        } else {
            Some((c.index_count * index_bytes(index_type)) as u64)
        },
    }
}

/// Whether the resources of a draw are such that it reads its indices, and its
/// counts where they stand in memory, just where its record states.
pub open spec fn reads_stated_memory(
    session: ReplacementRuntimeSession,
    c: DrawArguments,
    resources: Seq<ResolvedRenderResourceBinding>,
) -> bool {
    let indexed = c.index_buffer_ref != 0 || c.index_count != 0;
    &&& indexed ==> {
        &&& c.index_buffer_ref != 0
        &&& index_type_of(c.index_type) matches Some(index_type)
        &&& fetches_one(
            session,
            resources,
            RenderBindingClass::IndexBuffer,
            index_question(c, index_type),
        )
    }
    &&& !indexed ==> fetches_none(resources, RenderBindingClass::IndexBuffer)
    &&& c.indirect ==> fetches_one(
        session,
        resources,
        RenderBindingClass::IndirectBuffer,
        BufferQuery {
            reference: c.indirect_buffer_ref,
            offset: c.indirect_buffer_offset,
            length: Some(
                if indexed {
                    20u64
                } else {
                    16u64
                },
            ),
        },
    )
    &&& !c.indirect ==> fetches_none(resources, RenderBindingClass::IndirectBuffer)
}

/// A draw reads its indices, and its counts where they stand in memory, just
/// where its record states, and a draw without indices reads none.
pub proof fn lemma_a_draw_reads_its_stated_memory(
    session: ReplacementRuntimeSession,
    s: RenderEncoderView,
    c: DrawArguments,
)
    ensures
        match encoder_draw(session, s, c) {
            Ok(Some(dispatch)) => reads_stated_memory(session, c, dispatch.resources),
            _ => true,
        },
{
    lemma_draw_parts(session, s, c);
    if let Ok(Some(dispatch)) = encoder_draw(session, s, c) {
        let pipeline = draw_pipeline(session, s.pipeline_ref)->Ok_0;
        let topology = primitive_topology_of(c.primitive_type)->0;
        let bindings = draw_bindings(session, s, pipeline, c)->Ok_0;
        lemma_bindings_fetch_none(session, s, pipeline, c, bindings);
        lemma_draw_memory(
            session,
            bindings.textures.resources + bindings.buffers + bindings.vertex.resources,
            c,
            topology,
        );
    }
}

/// Two draws that differ in where their indices start, and in nothing else, read
/// them by two different questions.
pub proof fn lemma_draws_that_start_elsewhere_read_elsewhere(
    session: ReplacementRuntimeSession,
    s: RenderEncoderView,
    one: DrawArguments,
    other: DrawArguments,
)
    requires
        other == (DrawArguments { index_buffer_offset: other.index_buffer_offset, ..one }),
        one.index_buffer_offset != other.index_buffer_offset,
        one.index_buffer_ref != 0,
    ensures
        match (encoder_draw(session, s, one), encoder_draw(session, s, other)) {
            (Ok(Some(first)), Ok(Some(second))) => exists|a: BufferQuery, b: BufferQuery|
                {
                    &&& a.offset == one.index_buffer_offset && b.offset == other.index_buffer_offset
                    &&& a.reference == b.reference && a.length == b.length
                    &&& #[trigger] fetches_one(
                        session,
                        first.resources,
                        RenderBindingClass::IndexBuffer,
                        a,
                    )
                    &&& #[trigger] fetches_one(
                        session,
                        second.resources,
                        RenderBindingClass::IndexBuffer,
                        b,
                    )
                },
            _ => true,
        },
{
    lemma_a_draw_reads_its_stated_memory(session, s, one);
    lemma_a_draw_reads_its_stated_memory(session, s, other);
    let index_type = index_type_of(one.index_type)->0;
    let a = index_question(one, index_type);
    let b = index_question(other, index_type);
    assert(a.reference == b.reference && a.length == b.length);
}

/// A draw draws what its record states: its own vertices or indices, instances
/// and primitive.
pub proof fn lemma_a_draw_draws_its_stated_geometry(
    session: ReplacementRuntimeSession,
    s: RenderEncoderView,
    c: DrawArguments,
)
    ensures
        match encoder_draw(session, s, c) {
            Ok(Some(dispatch)) => {
                let indexed = c.index_buffer_ref != 0 || c.index_count != 0;
                match dispatch.draw {
                    ResolvedRenderDraw::Direct {
                        topology,
                        vertex_count,
                        instance_count,
                        first_vertex,
                        first_instance,
                    } => {
                        &&& !indexed && !c.indirect
                        &&& primitive_topology_of(c.primitive_type) == Some(topology)
                        &&& vertex_count == c.vertex_count && vertex_count > 0
                        &&& instance_count == c.instance_count && instance_count > 0
                        &&& first_vertex == c.vertex_start
                        &&& first_instance == c.base_instance
                    },
                    ResolvedRenderDraw::Indexed {
                        topology,
                        index_type,
                        index_count,
                        instance_count,
                        first_index,
                        vertex_offset,
                        first_instance,
                    } => {
                        &&& indexed && !c.indirect
                        &&& primitive_topology_of(c.primitive_type) == Some(topology)
                        &&& index_type_of(c.index_type) == Some(index_type)
                        &&& index_count == c.index_count && index_count > 0
                        &&& instance_count == c.instance_count && instance_count > 0
                        &&& first_index == 0
                        &&& vertex_offset == c.base_vertex
                        &&& first_instance == c.base_instance
                    },
                    ResolvedRenderDraw::Indirect { topology } => {
                        &&& !indexed && c.indirect
                        &&& primitive_topology_of(c.primitive_type) == Some(topology)
                    },
                    ResolvedRenderDraw::IndexedIndirect { topology, index_type } => {
                        &&& indexed && c.indirect
                        &&& primitive_topology_of(c.primitive_type) == Some(topology)
                        &&& index_type_of(c.index_type) == Some(index_type)
                    },
                }
            },
            Ok(None) => !c.indirect && (c.instance_count == 0 || if c.index_buffer_ref != 0
                || c.index_count != 0 {
                c.index_count == 0
            } else {
                c.vertex_count == 0
            }),
            Err(_) => true,
        },
{
}

/// A draw is drawn with the state that its encoder holds: the bound pipeline and
/// its programs, the raster state field by field, the depth-stencil state, the
/// stated part of the attachments, and the armed query where it is armed.
#[verifier::spinoff_prover]
pub proof fn lemma_a_draw_takes_its_encoders_state(
    session: ReplacementRuntimeSession,
    s: RenderEncoderView,
    c: DrawArguments,
)
    ensures
        match encoder_draw(session, s, c) {
            Ok(Some(dispatch)) => {
                &&& s.render_target_array_length == 0
                &&& s.pipeline_ref != 0
                &&& answer_of(session.render_pipelines@, s.pipeline_ref) matches Some(
                    RenderPipelineAnswer::Ready(pipeline),
                )
                &&& dispatch.pipeline == pipeline.identity
                &&& dispatch.vertex_program == pipeline.vertex.program
                &&& dispatch.fragment_program == pipeline.fragment.program
                &&& dispatch.raster.viewports == s.viewports_bits
                &&& dispatch.raster.scissors == s.scissors
                &&& dispatch.raster.cull_mode == s.cull_mode
                &&& dispatch.raster.front_face_ccw == s.front_face_ccw
                &&& dispatch.raster.fill_mode == s.fill_mode
                &&& dispatch.raster.line_width_bits == s.line_width
                &&& dispatch.raster.depth_clip_mode == s.depth_clip_mode
                &&& dispatch.raster.depth_bias_bits == s.depth_bias_bits
                &&& dispatch.raster.blend_color_bits == s.blend_color_bits
                &&& s.stencil_reference matches Some(reference)
                    ==> dispatch.raster.stencil_reference == reference
                &&& s.stencil_reference is None ==> dispatch.raster.stencil_reference == (
                    0u32,
                    0u32,
                )
                &&& s.depth_stencil_ref == 0 ==> dispatch.depth_stencil is None
                &&& s.depth_stencil_ref != 0 ==> dispatch.depth_stencil is Some
                    && dispatch.depth_stencil == answer_of(
                    session.depth_stencils@,
                    s.depth_stencil_ref,
                )
                &&& dispatch.visibility is Some <==> s.visibility is Some
                &&& match (dispatch.visibility, s.visibility) {
                    (Some(query), Some((mode, offset))) => {
                        &&& query.mode == mode
                        &&& s.visibility_result_buffer_ref != 0
                        &&& answer_of(
                            session.buffers@,
                            BufferQuery {
                                reference: s.visibility_result_buffer_ref,
                                offset,
                                length: Some(8u64),
                            },
                        ) == Some(
                            BufferAnswer::Range(
                                ResolvedBufferRange {
                                    resource: query.resource,
                                    storage: query.backing,
                                    region: query.range,
                                },
                            ),
                        )
                    },
                    _ => true,
                }
                &&& dispatch.begins_encoder && dispatch.ends_encoder
                &&& s.render_target_width != 0 ==> dispatch.render_extent.0
                    == s.render_target_width
                &&& s.render_target_height != 0 ==> dispatch.render_extent.1
                    == s.render_target_height
                &&& forall|k: int|
                    0 <= k < dispatch.attachments.len() ==> dispatch.render_extent.0 <= (
                    #[trigger] dispatch.attachments[k]).target.extent.width
                        && dispatch.render_extent.1 <= dispatch.attachments[k].target.extent.height
                &&& s.render_target_width == 0 && dispatch.attachments.len() > 0
                    ==> exists|k: int|
                    0 <= k < dispatch.attachments.len() && (
                    #[trigger] dispatch.attachments[k]).target.extent.width
                        == dispatch.render_extent.0
                &&& s.render_target_height == 0 && dispatch.attachments.len() > 0
                    ==> exists|k: int|
                    0 <= k < dispatch.attachments.len() && (
                    #[trigger] dispatch.attachments[k]).target.extent.height
                        == dispatch.render_extent.1
            },
            _ => true,
        },
{
    if let Ok(Some(dispatch)) = encoder_draw(session, s, c) {
        let attachments = dispatch.attachments;
        let (width, height) = dispatch.render_extent;
        lemma_exceeded(attachments, width, height);
        lemma_smallest(attachment_widths(attachments));
        lemma_smallest(attachment_heights(attachments));
        if attachments.len() > 0 && s.render_target_width == 0 {
            let widths = attachment_widths(attachments);
            let k = choose|k: int| 0 <= k < widths.len() && #[trigger] widths[k] == width;
            assert(attachments[k].target.extent.width == width);
        }
        if attachments.len() > 0 && s.render_target_height == 0 {
            let heights = attachment_heights(attachments);
            let k = choose|k: int| 0 <= k < heights.len() && #[trigger] heights[k] == height;
            assert(attachments[k].target.extent.height == height);
        }
    }
}

proof fn lemma_exceeded(attachments: Seq<ResolvedRenderAttachment>, width: u32, height: u32)
    ensures
        first_exceeded(attachments, width, height) is None ==> forall|k: int|
            0 <= k < attachments.len() ==> width <= (
            #[trigger] attachments[k]).target.extent.width && height
                <= attachments[k].target.extent.height,
    decreases attachments.len(),
{
    if attachments.len() > 0 {
        let rest = attachments.skip(1);
        lemma_exceeded(rest, width, height);
        if first_exceeded(attachments, width, height) is None {
            assert forall|k: int| 0 <= k < attachments.len() implies width <= (
            #[trigger] attachments[k]).target.extent.width && height
                <= attachments[k].target.extent.height by {
                if k > 0 {
                    assert(rest[k - 1] == attachments[k]);
                }
            }
        }
    }
}

proof fn lemma_smallest(lengths: Seq<u32>)
    ensures
        lengths.len() > 0 ==> exists|k: int|
            0 <= k < lengths.len() && #[trigger] lengths[k] == smallest(lengths),
        forall|k: int| 0 <= k < lengths.len() ==> smallest(lengths) <= #[trigger] lengths[k],
    decreases lengths.len(),
{
    if lengths.len() > 0 {
        let earlier = lengths.drop_last();
        lemma_smallest(earlier);
        assert forall|k: int| 0 <= k < earlier.len() implies earlier[k] == #[trigger] lengths[k] by {}
        if smallest(lengths) == lengths.last() {
            assert(lengths[lengths.len() - 1] == smallest(lengths));
        } else {
            let k = choose|k: int|
                0 <= k < earlier.len() && #[trigger] earlier[k] == smallest(earlier);
            assert(lengths[k] == smallest(lengths));
        }
    }
}

/// A draw is bound to what its encoder holds: every image and buffer that its
/// pipeline declares, out of the tables of its own stage.
#[verifier::spinoff_prover]
pub proof fn lemma_a_draw_is_bound_to_its_encoders_tables(
    session: ReplacementRuntimeSession,
    s: RenderEncoderView,
    c: DrawArguments,
)
    ensures
        match (
            encoder_draw(session, s, c),
            answer_of(session.render_pipelines@, s.pipeline_ref),
        ) {
            (Ok(Some(dispatch)), Some(RenderPipelineAnswer::Ready(pipeline))) => {
                let bounds = RenderBufferIndexBounds {
                    first_vertex: c.vertex_start,
                    vertex_count: c.vertex_count,
                    first_instance: c.base_instance,
                    instance_count: c.instance_count,
                    indexed: c.index_buffer_ref != 0 || c.index_count != 0,
                };
                let images = TextureLists {
                    resources: dispatch.resources,
                    nulls: dispatch.null_bindings,
                };
                &&& forall|i: int|
                    0 <= i < MAX_TEXTURE_BIND_SLOTS && i < pipeline.vertex.textures@.len() && (
                    #[trigger] pipeline.vertex.textures@[i]) is Some ==> image_is_bound(
                        session,
                        images,
                        Stage::Vertex,
                        pipeline.vertex.textures@[i]->0,
                        s.vertex_textures[i],
                    )
                &&& forall|i: int|
                    0 <= i < MAX_TEXTURE_BIND_SLOTS && i < pipeline.fragment.textures@.len() && (
                    #[trigger] pipeline.fragment.textures@[i]) is Some ==> image_is_bound(
                        session,
                        images,
                        Stage::Fragment,
                        pipeline.fragment.textures@[i]->0,
                        s.fragment_textures[i],
                    )
                &&& forall|i: int|
                    0 <= i < pipeline.vertex.bindings@.len() ==> buffer_is_bound(
                        session,
                        dispatch.resources,
                        Stage::Vertex,
                        pipeline.vertex,
                        s.vertex_buffers,
                        bounds,
                        #[trigger] pipeline.vertex.bindings@[i],
                    )
                &&& forall|i: int|
                    0 <= i < pipeline.fragment.bindings@.len() ==> buffer_is_bound(
                        session,
                        dispatch.resources,
                        Stage::Fragment,
                        pipeline.fragment,
                        s.fragment_buffers,
                        bounds,
                        #[trigger] pipeline.fragment.bindings@[i],
                    )
            },
            _ => true,
        },
{
    lemma_draw_parts(session, s, c);
    if let (Ok(Some(dispatch)), Some(RenderPipelineAnswer::Ready(pipeline))) = (
        encoder_draw(session, s, c),
        answer_of(session.render_pipelines@, s.pipeline_ref),
    ) {
        lemma_every_declared_image_is_bound(
            session,
            pipeline.vertex,
            pipeline.fragment,
            s.vertex_textures,
            s.fragment_textures,
        );
        lemma_every_used_buffer_is_bound(
            session,
            pipeline.vertex,
            pipeline.fragment,
            s.vertex_buffers,
            s.fragment_buffers,
            draw_bounds(c),
        );
        let bindings = draw_bindings(session, s, pipeline, c)->Ok_0;
        let images = bindings.textures.resources;
        lemma_images_of_a_longer_list(session, bindings.textures, dispatch.resources);
        assert forall|k: int| 0 <= k < bindings.buffers.len() implies #[trigger] bindings.buffers[k]
            == dispatch.resources[images.len() + k] by {}
        lemma_held_by_a_longer_list(bindings.buffers, dispatch.resources, images.len() as int);
    }
}

/// A draw is bound to the samplers that its encoder holds for its own stage, and
/// fetches its attributes out of the vertex stage's buffers.
#[verifier::spinoff_prover]
pub proof fn lemma_a_draw_fetches_from_its_encoders_tables(
    session: ReplacementRuntimeSession,
    s: RenderEncoderView,
    c: DrawArguments,
)
    ensures
        match (
            encoder_draw(session, s, c),
            answer_of(session.render_pipelines@, s.pipeline_ref),
        ) {
            (Ok(Some(dispatch)), Some(RenderPipelineAnswer::Ready(pipeline))) => {
                let vertices = VertexLists {
                    resources: dispatch.resources,
                    layouts: dispatch.vertex_buffers,
                };
                &&& forall|i: int|
                    0 <= i < pipeline.vertex_attributes@.len() ==> attribute_is_fetched(
                        session,
                        vertices,
                        s.vertex_buffers,
                        #[trigger] pipeline.vertex_attributes@[i],
                    )
                &&& forall|i: int|
                    0 <= i < pipeline.vertex.samplers@.len() ==> sampler_is_bound(
                        session,
                        dispatch.samplers,
                        Stage::Vertex,
                        s.vertex_samplers,
                        #[trigger] pipeline.vertex.samplers@[i],
                    )
                &&& forall|i: int|
                    0 <= i < pipeline.fragment.samplers@.len() ==> sampler_is_bound(
                        session,
                        dispatch.samplers,
                        Stage::Fragment,
                        s.fragment_samplers,
                        #[trigger] pipeline.fragment.samplers@[i],
                    )
            },
            _ => true,
        },
{
    lemma_draw_parts(session, s, c);
    if let (Ok(Some(dispatch)), Some(RenderPipelineAnswer::Ready(pipeline))) = (
        encoder_draw(session, s, c),
        answer_of(session.render_pipelines@, s.pipeline_ref),
    ) {
        lemma_every_attribute_is_fetched(session, s.vertex_buffers, pipeline.vertex_attributes@);
        lemma_every_declared_sampler_is_bound(
            session,
            pipeline.vertex,
            pipeline.fragment,
            s.vertex_samplers,
            s.fragment_samplers,
        );
        let bindings = draw_bindings(session, s, pipeline, c)->Ok_0;
        let before = bindings.textures.resources.len() + bindings.buffers.len();
        lemma_held_by_a_longer_list(
            bindings.vertex.resources,
            dispatch.resources,
            before as int,
        );
        let vertices = VertexLists {
            resources: dispatch.resources,
            layouts: dispatch.vertex_buffers,
        };
        assert forall|i: int|
            0 <= i < pipeline.vertex_attributes@.len() implies attribute_is_fetched(
            session,
            vertices,
            s.vertex_buffers,
            #[trigger] pipeline.vertex_attributes@[i],
        ) by {
            assert(attribute_is_fetched(
                session,
                bindings.vertex,
                s.vertex_buffers,
                pipeline.vertex_attributes@[i],
            ));
            assert(vertices.layouts == bindings.vertex.layouts);
            let attribute = pipeline.vertex_attributes@[i];
            let index = attribute.buffer_index;
            if attribute.format != 0 && attribute.stride != 0 {
                let bound = s.vertex_buffers[index as int]->0;
                let range = answer_of(
                    session.buffers@,
                    BufferQuery { reference: bound.reference, offset: bound.offset, length: None },
                )->0->Range_0;
                let wanted = ResolvedRenderResourceBinding {
                    class: RenderBindingClass::VertexBuffer,
                    binding: index,
                    array_element: 0,
                    descriptor_count: 1,
                    stages: RENDER_STAGE_VERTEX,
                    resource: range.resource,
                    backing: range.storage,
                    view: RenderBindingView::Buffer(range.region),
                    region: BackingRegion::Linear(range.region),
                    mode: AccessMode::Read,
                };
                assert(held(bindings.vertex.resources, wanted));
                assert(held(vertices.resources, wanted));
            }
        }
    }
}

/// A draw draws into the attachments of its pass, of which the first colour is
/// an input where the fragment shader reads it.
pub proof fn lemma_a_draw_draws_into_its_pass(
    session: ReplacementRuntimeSession,
    s: RenderEncoderView,
    c: DrawArguments,
)
    ensures
        match (
            encoder_draw(session, s, c),
            answer_of(session.render_pipelines@, s.pipeline_ref),
        ) {
            (Ok(Some(dispatch)), Some(RenderPipelineAnswer::Ready(pipeline))) => {
                let reads = exists|i: int|
                    0 <= i < pipeline.fragment.bindings@.len() && (
                    #[trigger] pipeline.fragment.bindings@[i]).kind is ColorInput;
                &&& pass_attachments(session, s) matches Ok(stated)
                &&& dispatch.attachments.len() == stated.len()
                &&& forall|k: int|
                    0 <= k < stated.len() ==> #[trigger] dispatch.attachments[k] == (
                    ResolvedRenderAttachment {
                        input_attachment: stated[k].input_attachment || (reads && stated[k].role
                            == RenderAttachmentRole::Color(0)),
                        ..stated[k]
                    })
            },
            _ => true,
        },
{
    lemma_draw_parts(session, s, c);
}

proof fn lemma_held_by_a_longer_list(
    list: Seq<ResolvedRenderResourceBinding>,
    longer: Seq<ResolvedRenderResourceBinding>,
    before: int,
)
    requires
        0 <= before && before + list.len() <= longer.len(),
        forall|k: int| 0 <= k < list.len() ==> #[trigger] list[k] == longer[before + k],
    ensures
        forall|wanted: ResolvedRenderResourceBinding|
            held(list, wanted) ==> #[trigger] held(longer, wanted),
{
    assert forall|wanted: ResolvedRenderResourceBinding|
        held(list, wanted) implies #[trigger] held(longer, wanted) by {
        let k = choose|k: int| 0 <= k < list.len() && stands_for(#[trigger] list[k], wanted);
        assert(stands_for(longer[before + k], wanted));
    }
}

proof fn lemma_images_of_a_longer_list(
    session: ReplacementRuntimeSession,
    lists: TextureLists,
    resources: Seq<ResolvedRenderResourceBinding>,
)
    requires
        lists.resources.len() <= resources.len(),
        forall|k: int| 0 <= k < lists.resources.len() ==> #[trigger] resources[k]
            == lists.resources[k],
    ensures
        forall|stage: Stage, texture: ReflectedTexture, bound: Option<u32>|
            image_is_bound(session, lists, stage, texture, bound) ==> #[trigger] image_is_bound(
                session,
                TextureLists { resources, nulls: lists.nulls },
                stage,
                texture,
                bound,
            ),
{
    let longer = TextureLists { resources, nulls: lists.nulls };
    assert forall|stage: Stage, texture: ReflectedTexture, bound: Option<u32>|
        image_is_bound(session, lists, stage, texture, bound) implies #[trigger] image_is_bound(
        session,
        longer,
        stage,
        texture,
        bound,
    ) by {
        let class = if texture.access is Sampled {
            RenderBindingClass::SampledImage
        } else {
            RenderBindingClass::StorageImage
        };
        if bound is Some && bound->0 != 0 {
            if let Some(TextureAnswer::Texture(resolved)) = answer_of(
                session.textures@,
                bound->0,
            ) {
                let k = choose|k: int|
                    0 <= k < lists.resources.len() && {
                        let entry = #[trigger] lists.resources[k];
                        &&& entry.class == class
                        &&& entry.binding == texture.binding
                        &&& entry.array_element == texture.array_element
                        &&& entry.descriptor_count == texture.descriptor_count
                        &&& entry.resource == resolved.resource
                        &&& entry.backing == resolved.backing
                        &&& entry.view == RenderBindingView::Image(resolved.view)
                        &&& entry.region == BackingRegion::Whole
                        &&& holds_stages(entry.stages, stage_mask(stage))
                    };
                assert(resources[k] == lists.resources[k]);
            }
        }
    }
}

/// A draw record is drawn with what the record states, in the encoder that is
/// open.
pub proof fn lemma_a_draw_record_states_its_own_draw(
    session: ReplacementRuntimeSession,
    s: ProjectionStateView,
    c: RenderCommand,
)
    ensures
        match project_draw(session, s, c) {
            Ok(drawn) => {
                let stated = DrawArguments {
                    indirect: c.kind is DrawIndirect,
                    primitive_type: c.primitive_type,
                    vertex_start: c.vertex_start,
                    vertex_count: c.vertex_count,
                    instance_count: c.instance_count,
                    base_instance: c.base_instance,
                    base_vertex: c.base_vertex,
                    index_type: c.index_type,
                    index_count: c.index_count,
                    index_buffer_ref: c.index_buffer_ref,
                    index_buffer_offset: c.index_buffer_offset,
                    indirect_buffer_ref: c.indirect_buffer_ref,
                    indirect_buffer_offset: c.indirect_buffer_offset,
                };
                &&& c.kind is Draw || c.kind is DrawIndirect
                &&& s.render matches Some(render)
                &&& encoder_draw(session, render, stated) == Ok::<
                    Option<RenderDispatchView>,
                    ReplacementRenderDrawResolutionError,
                >(drawn)
            },
            Err(_) => true,
        },
        !(c.kind is Draw || c.kind is DrawIndirect) ==> project_draw(session, s, c) == Err::<
            Option<RenderDispatchView>,
            ReplacementRenderDrawResolutionError,
        >(ReplacementRenderDrawResolutionError::NotDraw),
        (c.kind is Draw || c.kind is DrawIndirect) && s.render is None ==> project_draw(
            session,
            s,
            c,
        ) == Err::<Option<RenderDispatchView>, ReplacementRenderDrawResolutionError>(
            ReplacementRenderDrawResolutionError::OutsideEncoder,
        ),
{
}

/// What contracts say of a dispatch is what it holds.
pub proof fn lemma_a_render_dispatch_is_seen_whole(
    dispatch: ResolvedRenderDispatch,
    raster: ResolvedRenderRasterState,
)
    ensures
        dispatch@.pipeline == dispatch.pipeline,
        dispatch@.vertex_program == dispatch.vertex_program,
        dispatch@.fragment_program == dispatch.fragment_program,
        dispatch@.depth_stencil == dispatch.depth_stencil,
        dispatch@.render_extent == dispatch.render_extent,
        dispatch@.raster == dispatch.raster@,
        dispatch@.visibility == dispatch.visibility,
        dispatch@.begins_encoder == dispatch.begins_encoder,
        dispatch@.ends_encoder == dispatch.ends_encoder,
        dispatch@.draw == dispatch.draw,
        dispatch@.vertex_buffers == dispatch.vertex_buffers@,
        dispatch@.attachments == dispatch.attachments@,
        dispatch@.resources == dispatch.resources@,
        dispatch@.null_bindings == dispatch.null_bindings@,
        dispatch@.samplers == dispatch.samplers@,
        raster@.viewports == raster.viewports@,
        raster@.scissors == raster.scissors@,
        raster@.cull_mode == raster.cull_mode,
        raster@.front_face_ccw == raster.front_face_ccw,
        raster@.fill_mode == raster.fill_mode,
        raster@.line_width_bits == raster.line_width_bits,
        raster@.depth_clip_mode == raster.depth_clip_mode,
        raster@.depth_bias_bits == raster.depth_bias_bits,
        raster@.blend_color_bits == raster.blend_color_bits,
        raster@.stencil_reference == raster.stencil_reference,
{
}

/// The geometry of a draw is refused only for its own fault: a kind of index
/// that is none, indices without a buffer, memory that the session refuses, or a
/// vertex offset that a draw cannot hold. Any other is owed.
pub proof fn lemma_geometry_is_owed(
    session: ReplacementRuntimeSession,
    c: DrawArguments,
    topology: PrimitiveTopology,
)
    ensures
        ({
            let indexed = c.index_buffer_ref != 0 || c.index_count != 0;
            let index_type = index_type_of(c.index_type);
            let counts = BufferQuery {
                reference: c.indirect_buffer_ref,
                offset: c.indirect_buffer_offset,
                length: Some(
                    if indexed {
                        20u64
                    } else {
                        16u64
                    },
                ),
            };
            let ranged = answer_of(session.buffers@, index_question(c, index_type->0)) is Some
                && answer_of(
                session.buffers@,
                index_question(c, index_type->0),
            )->0 is Range;
            let counted = answer_of(session.buffers@, counts) is Some && answer_of(
                session.buffers@,
                counts,
            )->0 is Range;
            draw_geometry(session, c, topology) is Ok <==> {
                &&& indexed ==> c.index_buffer_ref != 0 && index_type is Some && ranged
                &&& indexed && !c.indirect ==> i32::MIN <= c.base_vertex <= i32::MAX
                &&& c.indirect ==> counted
            }
        }),
{
}

/// A draw under a bound pipeline whose attachments, bindings, extent, state,
/// query and geometry all resolve is owed.
#[verifier::spinoff_prover]
pub proof fn lemma_a_draw_is_owed(
    session: ReplacementRuntimeSession,
    s: RenderEncoderView,
    c: DrawArguments,
)
    requires
        s.render_target_array_length == 0,
        s.pipeline_ref != 0,
        primitive_topology_of(c.primitive_type) is Some,
    ensures
        match answer_of(session.render_pipelines@, s.pipeline_ref) {
            Some(RenderPipelineAnswer::Ready(pipeline)) => stage_interface(
                Stage::Vertex,
                pipeline.vertex,
            ) is Ok && stage_interface(Stage::Fragment, pipeline.fragment) is Ok ==> {
                &&& !c.indirect && (c.instance_count == 0 || if c.index_buffer_ref != 0
                    || c.index_count != 0 {
                    c.index_count == 0
                } else {
                    c.vertex_count == 0
                }) ==> encoder_draw(session, s, c) == Ok::<
                    Option<RenderDispatchView>,
                    ReplacementRenderDrawResolutionError,
                >(None)
                &&& pass_attachments(session, s) is Ok && draw_bindings(
                    session,
                    s,
                    pipeline,
                    c,
                ) is Ok && draw_extent(
                    s,
                    with_color_input(
                        pass_attachments(session, s)->Ok_0,
                        reads_color_input(pipeline.fragment),
                    ),
                ) is Ok && draw_depth_stencil(session, s.depth_stencil_ref) is Ok
                    && draw_visibility(session, s) is Ok && draw_geometry(
                    session,
                    c,
                    primitive_topology_of(c.primitive_type)->0,
                ) is Ok ==> encoder_draw(session, s, c) is Ok
            },
            _ => true,
        },
{
}

proof fn lemma_first_unrepresented(bindings: Seq<ReflectedBinding>)
    ensures
        match first_unrepresented(bindings) {
            Some(found) => exists|i: int|
                0 <= i < bindings.len() && (#[trigger] bindings[i]) == found && !represented(
                    found.kind,
                ),
            None => forall|i: int|
                0 <= i < bindings.len() ==> represented((#[trigger] bindings[i]).kind),
        },
    decreases bindings.len(),
{
    if bindings.len() > 0 {
        let rest = bindings.skip(1);
        lemma_first_unrepresented(rest);
        assert(bindings[0] == bindings.first());
        assert forall|i: int| 0 <= i < rest.len() implies #[trigger] rest[i] == bindings[i
            + 1] by {}
        if represented(bindings[0].kind) {
            if first_unrepresented(rest) is None {
                assert forall|i: int| 0 <= i < bindings.len() implies represented(
                    (#[trigger] bindings[i]).kind,
                ) by {
                    if i > 0 {
                        assert(rest[i - 1] == bindings[i]);
                    }
                }
            }
        }
    }
}

/// A stage's interface is satisfied if and only if the shader uses no feature
/// that is not supported and every resource that it declares is of a kind that a
/// draw can give; the refusal names what is not.
pub proof fn lemma_an_interface_is_satisfied_where_all_of_it_is(
    stage: Stage,
    reflection: StageReflection,
)
    ensures
        match stage_interface(stage, reflection) {
            Ok(_) => reflection.unsupported is None && forall|i: int|
                0 <= i < reflection.bindings@.len() ==> represented(
                    (#[trigger] reflection.bindings@[i]).kind,
                ),
            Err(
                ReplacementRenderDrawResolutionError::ReflectedInterfaceUnrepresented {
                    stage: at,
                    feature,
                    count,
                },
            ) => at == stage && reflection.unsupported is Some && feature
                == reflection.unsupported->0.feature && count == reflection.unsupported->0.count,
            Err(
                ReplacementRenderDrawResolutionError::ReflectedResourceUnrepresented {
                    stage: at,
                    index,
                    kind,
                },
            ) => at == stage && exists|i: int|
                0 <= i < reflection.bindings@.len() && (
                #[trigger] reflection.bindings@[i]).metal_index == index
                    && reflection.bindings@[i].kind == kind && !represented(kind),
            Err(_) => false,
        },
{
    lemma_first_unrepresented(reflection.bindings@);
}

/// A stated extent is drawn as stated where a draw can hold it, and refused
/// where it cannot; one that is not stated falls to the attachments.
pub proof fn lemma_a_stated_extent_is_kept(value: u64, fallback: u32)
    ensures
        match explicit_extent(value, fallback) {
            Ok(length) => if value == 0 {
                length == fallback
            } else {
                length == value
            },
            Err(_) => value > u32::MAX,
        },
{
}

/// An extent that is refused is refused for an attachment that it reaches past,
/// and names that attachment, what was asked for and what there is.
pub proof fn lemma_a_refused_extent_names_its_attachment(
    s: RenderEncoderView,
    attachments: Seq<ResolvedRenderAttachment>,
)
    ensures
        match draw_extent(s, attachments) {
            Err(
                ReplacementRenderDrawResolutionError::RenderExtentPastAttachment {
                    role,
                    requested_width,
                    requested_height,
                    available_width,
                    available_height,
                },
            ) => {
                &&& s.render_target_width != 0 ==> requested_width == s.render_target_width
                &&& s.render_target_height != 0 ==> requested_height == s.render_target_height
                &&& requested_width > available_width || requested_height > available_height
                &&& exists|k: int|
                    0 <= k < attachments.len() && (#[trigger] attachments[k]).role == role
                        && attachments[k].target.extent.width == available_width
                        && attachments[k].target.extent.height == available_height
            },
            Err(ReplacementRenderDrawResolutionError::RenderExtentOutOfRange) =>
            s.render_target_width > u32::MAX || s.render_target_height > u32::MAX,
            Err(_) => false,
            Ok(_) => true,
        },
{
    if s.render_target_width <= u32::MAX && s.render_target_height <= u32::MAX {
        let width = explicit_extent(
            s.render_target_width,
            smallest(attachment_widths(attachments)),
        )->Ok_0;
        let height = explicit_extent(
            s.render_target_height,
            smallest(attachment_heights(attachments)),
        )->Ok_0;
        lemma_first_exceeded(attachments, width, height);
    }
}

proof fn lemma_first_exceeded(attachments: Seq<ResolvedRenderAttachment>, width: u32, height: u32)
    ensures
        first_exceeded(attachments, width, height) matches Some(found) ==> {
            &&& width > found.target.extent.width || height > found.target.extent.height
            &&& exists|k: int| 0 <= k < attachments.len() && (#[trigger] attachments[k]) == found
        },
    decreases attachments.len(),
{
    if attachments.len() > 0 {
        let rest = attachments.skip(1);
        lemma_first_exceeded(rest, width, height);
        if width > attachments[0].target.extent.width || height
            > attachments[0].target.extent.height {
            assert(attachments[0] == first_exceeded(attachments, width, height)->0);
        } else if let Some(found) = first_exceeded(rest, width, height) {
            let k = choose|k: int| 0 <= k < rest.len() && (#[trigger] rest[k]) == found;
            assert(attachments[k + 1] == found);
        }
    }
}

/// A draw in a pass of several layers is refused with their number, a draw
/// without a pipeline for want of one, and a primitive that is none with its
/// word.
pub proof fn lemma_a_refused_draw_names_its_fault(
    session: ReplacementRuntimeSession,
    s: RenderEncoderView,
    c: DrawArguments,
)
    ensures
        s.render_target_array_length != 0 ==> encoder_draw(session, s, c) == Err::<
            Option<RenderDispatchView>,
            ReplacementRenderDrawResolutionError,
        >(
            ReplacementRenderDrawResolutionError::RenderTargetArrayLengthUnsupported {
                length: s.render_target_array_length,
            },
        ),
        s.render_target_array_length == 0 && s.pipeline_ref == 0 ==> encoder_draw(session, s, c)
            == Err::<Option<RenderDispatchView>, ReplacementRenderDrawResolutionError>(
            ReplacementRenderDrawResolutionError::PipelineUnbound,
        ),
        s.render_target_array_length == 0 && draw_pipeline(session, s.pipeline_ref) is Ok
            && primitive_topology_of(c.primitive_type) is None ==> encoder_draw(session, s, c)
            == Err::<Option<RenderDispatchView>, ReplacementRenderDrawResolutionError>(
            ReplacementRenderDrawResolutionError::PrimitiveTopology(c.primitive_type),
        ),
{
}

} // verus!
