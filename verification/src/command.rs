//! Decoded encoder commands, as plain values.
//!
//! One flat command per encoder family. A decoder fills the fields its record
//! carries and leaves the rest at their defaults; floating-point payloads are
//! held as the bit patterns they arrived as.

use vstd::prelude::*;

verus! {

/// The shader stage a bind record names.
#[derive(Clone, Copy, Debug, PartialEq, Eq, Structural)]
pub enum Stage {
    Vertex,
    Fragment,
    Unknown,
}

/// What a render record asks for.
#[derive(Clone, Copy, Debug, PartialEq, Eq, Structural)]
pub enum RenderKind {
    Unknown,
    OtherAccepted,
    SetPipeline,
    SetBuffer,
    SetBufferOffset,
    SetTexture,
    SetSampler,
    SetViewport,
    SetScissor,
    SetBlendColor,
    SetCullMode,
    SetFrontFacing,
    SetDepthBias,
    SetDepthStencil,
    SetStencilReference,
    SetTessellationFactorBuffer,
    SetRasterState,
    SetFloatState,
    SetVertexAmplification,
    SetStoreAction,
    SetStoreActionOptions,
    SetVisibilityResultMode,
    RenderPassProperty,
    RenderPass,
    Fence,
    Draw,
    DrawIndirect,
    DrawPatches,
    TileBind,
    TileDispatch,
    TileDimensionsQuery,
    ExecuteCommands,
    UseResource,
    UseHeap,
    BarrierResources,
    BarrierScope,
    TextureBarrier,
}

/// The render opcodes that tell records of one kind apart.
#[derive(Clone, Copy, Debug, PartialEq, Eq, Structural)]
pub enum RenderOpcode {
    Draw,
    SetTriangleFillMode,
    SetDepthClipMode,
    SetLineWidth,
    SetTessellationFactorScale,
    SetVertexAmplificationMode,
    SetVertexAmplificationCount,
    DefaultRasterSampleCount,
    RasterizationRateMap,
    SetColorStoreAction,
    SetDepthStoreAction,
    SetStencilStoreAction,
    SetColorStoreActionOptions,
    SetDepthStoreActionOptions,
    SetStencilStoreActionOptions,
    UpdateFence,
    WaitForFence,
    Other(u32),
}

/// What a compute record asks for.
#[derive(Clone, Copy, Debug, PartialEq, Eq, Structural)]
pub enum ComputeKind {
    Unknown,
    Pipeline,
    BufferBind,
    BufferBindAttributeStride,
    BufferOffset,
    BufferOffsetAttributeStride,
    TextureBind,
    SamplerBind,
    SamplerLod,
    DispatchType,
    StageInRegion,
    StageInRegionIndirect,
    ThreadgroupMemory,
    ImageblockDimensions,
    CompressedTextureFlush,
    DispatchThreadgroups,
    DispatchThreads,
    DispatchThreadgroupsIndirect,
    DispatchThreadsIndirect,
    ExecuteCommandsInBuffer,
    ExecuteCommandsInBufferIndirect,
    UpdateFence,
    WaitFence,
    UseResources,
    UseHeaps,
    BarrierResources,
    BarrierScope,
    ControlStartDoWhile,
    ControlEndDoWhile,
    ControlStartWhile,
    ControlEndWhile,
    ControlStartIf,
    ControlStartElse,
    ControlEndIf,
}

/// What a blit record asks for.
#[derive(Clone, Copy, Debug, PartialEq, Eq, Structural)]
pub enum BlitKind {
    Unknown,
    Fence,
    FillBuffer,
    FillBufferPattern4,
    Copy,
    IcbRange,
    IcbCopy,
    Resource,
    Image,
    FillTexture,
    InvalidateCompressedTexture,
}

/// The blit opcodes that tell records of one kind apart.
#[derive(Clone, Copy, Debug, PartialEq, Eq, Structural)]
pub enum BlitOpcode {
    UpdateFence,
    WaitForFence,
    OptimizeIcb,
    ResetIcb,
    GenerateMipmaps,
    SynchronizeResource,
    SynchronizeTexture,
    FillTextureColor,
    FillTextureBytes,
    OptimizeForCpu,
    OptimizeForGpu,
    OptimizeForCpuSliceLevel,
    OptimizeForGpuSliceLevel,
    Other(u32),
}

/// Which two kinds of memory a copy joins.
#[derive(Clone, Copy, Debug, PartialEq, Eq, Structural)]
pub enum CopyKind {
    Absent,
    BufferToBuffer,
    BufferToTexture,
    TextureToBuffer,
    TextureToTexture,
    TextureToTextureSliceLevel,
}

/// What a blit reference names.
#[derive(Clone, Copy, Debug, PartialEq, Eq, Structural)]
pub enum RefKind {
    Absent,
    Buffer,
    Texture,
}

/// The part of a texture that a copy moves.
#[derive(Clone, Copy, Debug, PartialEq, Eq, Structural)]
pub enum BlitAspect {
    Color,
    Depth,
    Stencil,
}

/// What a copy's options say of the part it moves.
#[derive(Clone, Copy, Debug, PartialEq, Eq, Structural)]
pub enum BlitAspectOption {
    Aspect(BlitAspect),
    /// The options state something no copy does.
    Refused(u32),
}

/// Where a texture fill takes its value from.
#[derive(Clone, Copy, Debug, PartialEq, Eq, Structural)]
pub enum FillSource {
    Absent,
    Color,
    Bytes,
}

/// What an event record asks for.
#[derive(Clone, Copy, Debug, PartialEq, Eq, Structural)]
pub enum EventCommandKind {
    Unknown,
    SignalEvent,
    WaitEvent,
}

/// A scissor rectangle in target pixels.
#[derive(Clone, Copy, Debug, PartialEq, Eq, Structural)]
pub struct ScissorRect {
    pub x: u32,
    pub y: u32,
    pub width: u32,
    pub height: u32,
}

impl ScissorRect {
    /// Whether the rectangle covers no pixel.
    pub open spec fn empty(self) -> bool {
        self.width == 0 || self.height == 0
    }

    /// Whether the rectangle covers no pixel.
    pub fn is_empty(&self) -> (empty: bool)
        ensures
            empty == self.empty(),
    {
        self.width == 0 || self.height == 0
    }
}

/// A colour attachment of a render pass, as its record states it.
#[derive(Clone, Copy, Debug, PartialEq, Eq)]
pub struct ColorAttachment {
    pub texture_ref: u32,
    pub level: u32,
    pub slice: u32,
    pub depth_plane: u32,
    pub resolve_texture_ref: u32,
    pub resolve_level: u32,
    pub resolve_slice: u32,
    pub resolve_depth_plane: u32,
    pub load_action: u16,
    pub store_action: u16,
    pub store_action_options: u16,
    /// Single-precision bits of the four clear components.
    pub clear_color: [u32; 4],
}

/// A depth attachment of a render pass, as its record states it.
#[derive(Clone, Copy, Debug, PartialEq, Eq, Structural)]
pub struct DepthAttachment {
    pub texture_ref: u32,
    pub level: u32,
    pub slice: u32,
    pub depth_plane: u32,
    pub resolve_texture_ref: u32,
    pub resolve_level: u32,
    pub resolve_slice: u32,
    pub resolve_depth_plane: u32,
    pub load_action: u16,
    pub store_action: u16,
    pub store_action_options: u16,
    pub resolve_filter: u16,
    /// Single-precision bits of the clear depth.
    pub clear_depth: u32,
}

/// A stencil attachment of a render pass, as its record states it.
#[derive(Clone, Copy, Debug, PartialEq, Eq, Structural)]
pub struct StencilAttachment {
    pub texture_ref: u32,
    pub level: u32,
    pub slice: u32,
    pub depth_plane: u32,
    pub resolve_texture_ref: u32,
    pub resolve_level: u32,
    pub resolve_slice: u32,
    pub resolve_depth_plane: u32,
    pub load_action: u16,
    pub store_action: u16,
    pub store_action_options: u16,
    pub resolve_filter: u16,
    pub clear_stencil: u32,
}

/// The attachment that names no texture.
pub open spec fn no_color_attachment() -> ColorAttachment {
    ColorAttachment {
        texture_ref: 0,
        level: 0,
        slice: 0,
        depth_plane: 0,
        resolve_texture_ref: 0,
        resolve_level: 0,
        resolve_slice: 0,
        resolve_depth_plane: 0,
        load_action: 0,
        store_action: 0,
        store_action_options: 0,
        clear_color: [0u32, 0u32, 0u32, 0u32],
    }
}

/// The attachment that names no texture.
pub open spec fn no_depth_attachment() -> DepthAttachment {
    DepthAttachment {
        texture_ref: 0,
        level: 0,
        slice: 0,
        depth_plane: 0,
        resolve_texture_ref: 0,
        resolve_level: 0,
        resolve_slice: 0,
        resolve_depth_plane: 0,
        load_action: 0,
        store_action: 0,
        store_action_options: 0,
        resolve_filter: 0,
        clear_depth: 0,
    }
}

/// The attachment that names no texture.
pub open spec fn no_stencil_attachment() -> StencilAttachment {
    StencilAttachment {
        texture_ref: 0,
        level: 0,
        slice: 0,
        depth_plane: 0,
        resolve_texture_ref: 0,
        resolve_level: 0,
        resolve_slice: 0,
        resolve_depth_plane: 0,
        load_action: 0,
        store_action: 0,
        store_action_options: 0,
        resolve_filter: 0,
        clear_stencil: 0,
    }
}

impl Default for ColorAttachment {
    fn default() -> (attachment: Self)
        ensures
            attachment == no_color_attachment(),
    {
        ColorAttachment {
            texture_ref: 0,
            level: 0,
            slice: 0,
            depth_plane: 0,
            resolve_texture_ref: 0,
            resolve_level: 0,
            resolve_slice: 0,
            resolve_depth_plane: 0,
            load_action: 0,
            store_action: 0,
            store_action_options: 0,
            clear_color: [0u32, 0u32, 0u32, 0u32],
        }
    }
}

impl Default for DepthAttachment {
    fn default() -> (attachment: Self)
        ensures
            attachment == no_depth_attachment(),
    {
        DepthAttachment {
            texture_ref: 0,
            level: 0,
            slice: 0,
            depth_plane: 0,
            resolve_texture_ref: 0,
            resolve_level: 0,
            resolve_slice: 0,
            resolve_depth_plane: 0,
            load_action: 0,
            store_action: 0,
            store_action_options: 0,
            resolve_filter: 0,
            clear_depth: 0,
        }
    }
}

impl Default for StencilAttachment {
    fn default() -> (attachment: Self)
        ensures
            attachment == no_stencil_attachment(),
    {
        StencilAttachment {
            texture_ref: 0,
            level: 0,
            slice: 0,
            depth_plane: 0,
            resolve_texture_ref: 0,
            resolve_level: 0,
            resolve_slice: 0,
            resolve_depth_plane: 0,
            load_action: 0,
            store_action: 0,
            store_action_options: 0,
            resolve_filter: 0,
            clear_stencil: 0,
        }
    }
}

/// One slot of a render buffer bind.
#[derive(Clone, Copy, Debug, PartialEq, Eq, Structural)]
pub struct BufferBind {
    pub buffer_ref: u32,
    pub offset: u64,
    pub attribute_stride: Option<u64>,
}

/// One buffer operand of a patch draw.
#[derive(Clone, Copy, Debug, PartialEq, Eq, Structural)]
pub struct PatchBuffer {
    pub reference: u32,
    pub offset: u64,
}

/// The geometry of a patch draw.
#[derive(Clone, Copy, Debug, PartialEq, Eq, Structural)]
pub enum PatchDraw {
    Direct {
        patch_start: u64,
        patch_count: u64,
        instance_count: u64,
        base_instance: u64,
        patch_indices: PatchBuffer,
        control_point_indices: Option<PatchBuffer>,
    },
    Indirect {
        patch_indices: PatchBuffer,
        control_point_indices: Option<PatchBuffer>,
        arguments: PatchBuffer,
    },
}

/// One slot of a tile sampler bind.
#[derive(Clone, Copy, Debug, PartialEq, Eq)]
pub struct TileSamplerBind {
    pub reference: u32,
    pub lod_clamp: Option<(u32, u32)>,
}

/// A bind to the tile stage.
#[allow(inconsistent_fields)]
#[derive(Debug, PartialEq, Eq)]
pub enum TileBind {
    Buffer { first: u32, bindings: Vec<BufferBind> },
    Texture { first: u32, references: Vec<u32> },
    Sampler { first: u32, bindings: Vec<TileSamplerBind> },
    BufferOffset { index: u32, offset: u64 },
    ThreadgroupMemory { index: u32, length: u64, offset: u64 },
}

/// The tiles a tile dispatch covers.
#[derive(Clone, Copy, Debug, PartialEq, Eq, Structural)]
pub struct TileRegion {
    pub x: u64,
    pub y: u64,
    pub width: u64,
    pub height: u64,
}

/// One decoded render record.
#[derive(Debug, PartialEq, Eq)]
pub struct RenderCommand {
    pub kind: RenderKind,
    pub opcode: RenderOpcode,
    pub stage: Stage,
    pub pipeline_ref: u32,
    pub first: u32,
    pub count: u32,
    pub mode: u64,
    pub buffer_ref: u32,
    pub buffer_offset: u64,
    pub attribute_stride: Option<u64>,
    pub buffer_binds: Vec<BufferBind>,
    pub texture_ref: u32,
    pub sampler_ref: u32,
    pub ref_binds: Vec<u32>,
    pub sampler_lod_binds: Vec<(u32, u32)>,
    /// Double-precision bits of each viewport: origin, size, near and far.
    pub viewports: Vec<[u64; 6]>,
    pub scissors: Vec<ScissorRect>,
    /// Single-precision bits.
    pub blend_color: [u32; 4],
    pub cull_mode: u64,
    pub front_facing: u64,
    /// Single-precision bits: bias, slope scale and clamp.
    pub depth_bias: [u32; 3],
    /// Single-precision bits.
    pub float_value: u32,
    pub depth_stencil_ref: u32,
    pub stencil_ref_front: u32,
    pub stencil_ref_back: u32,
    pub tessellation_factor_instance_stride: u64,
    pub amplification_value: u32,
    pub amplification_mappings: Vec<(u32, u32)>,
    pub visibility_result_offset: u64,
    pub color_attachments: Vec<ColorAttachment>,
    pub color0: ColorAttachment,
    pub depth: DepthAttachment,
    pub stencil: StencilAttachment,
    pub pass_visibility_result_buffer_ref: u32,
    pub pass_render_target_array_length: u64,
    pub pass_render_target_width: u64,
    pub pass_render_target_height: u64,
    pub fence_ref: u32,
    pub fence_stages: u32,
    pub participation_resources: Vec<u32>,
    pub participation_heaps: Vec<u32>,
    pub participation_usage: Option<u32>,
    pub participation_stages: Option<u32>,
    pub barrier_resources: Vec<u32>,
    pub barrier_after_stages: u16,
    pub barrier_before_stages: u16,
    pub barrier_scope: u8,
    pub barrier_unidentified_u8: u8,
    pub primitive_type: u32,
    pub vertex_start: u32,
    pub vertex_count: u32,
    pub instance_count: u32,
    pub base_instance: u32,
    pub base_vertex: i64,
    pub index_type: u32,
    pub index_count: u32,
    pub index_buffer_ref: u32,
    pub index_buffer_offset: u64,
    pub indirect_buffer_ref: u32,
    pub indirect_buffer_offset: u64,
    pub patch_draw: Option<PatchDraw>,
    pub tile_bind: Option<TileBind>,
    pub tile_threads: (u64, u64, u64),
    pub tile_region: Option<TileRegion>,
    pub tile_render_target_array_index: Option<u32>,
    pub indirect_command_buffer_ref: u32,
    pub icb_is_range: bool,
    pub icb_range_location: u64,
    pub icb_range_length: u64,
    pub icb_args_buffer_ref: u32,
    pub icb_args_buffer_offset: u64,
}

impl Default for RenderCommand {
    /// A command that names nothing.
    fn default() -> (command: Self)
        ensures
            command.kind == RenderKind::Unknown,
            command.opcode == RenderOpcode::Other(0),
            command.stage == Stage::Unknown,
            command.pipeline_ref == 0,
            command.first == 0,
            command.count == 0,
            command.mode == 0,
            command.buffer_ref == 0,
            command.buffer_offset == 0,
            command.attribute_stride is None,
            command.buffer_binds@.len() == 0,
            command.texture_ref == 0,
            command.sampler_ref == 0,
            command.ref_binds@.len() == 0,
            command.sampler_lod_binds@.len() == 0,
            command.viewports@.len() == 0,
            command.scissors@.len() == 0,
            command.blend_color@ == seq![0u32, 0u32, 0u32, 0u32],
            command.cull_mode == 0,
            command.front_facing == 0,
            command.depth_bias@ == seq![0u32, 0u32, 0u32],
            command.float_value == 0,
            command.depth_stencil_ref == 0,
            command.stencil_ref_front == 0,
            command.stencil_ref_back == 0,
            command.tessellation_factor_instance_stride == 0,
            command.amplification_value == 0,
            command.amplification_mappings@.len() == 0,
            command.visibility_result_offset == 0,
            command.color_attachments@.len() == 0,
            command.color0 == no_color_attachment(),
            command.depth == no_depth_attachment(),
            command.stencil == no_stencil_attachment(),
            command.pass_visibility_result_buffer_ref == 0,
            command.pass_render_target_array_length == 0,
            command.pass_render_target_width == 0,
            command.pass_render_target_height == 0,
            command.fence_ref == 0,
            command.fence_stages == 0,
            command.participation_resources@.len() == 0,
            command.participation_heaps@.len() == 0,
            command.participation_usage is None,
            command.participation_stages is None,
            command.barrier_resources@.len() == 0,
            command.barrier_after_stages == 0,
            command.barrier_before_stages == 0,
            command.barrier_scope == 0,
            command.barrier_unidentified_u8 == 0,
            command.primitive_type == 0,
            command.vertex_start == 0,
            command.vertex_count == 0,
            command.instance_count == 0,
            command.base_instance == 0,
            command.base_vertex == 0,
            command.index_type == 0,
            command.index_count == 0,
            command.index_buffer_ref == 0,
            command.index_buffer_offset == 0,
            command.indirect_buffer_ref == 0,
            command.indirect_buffer_offset == 0,
            command.patch_draw is None,
            command.tile_bind is None,
            command.tile_threads == (0u64, 0u64, 0u64),
            command.tile_region is None,
            command.tile_render_target_array_index is None,
            command.indirect_command_buffer_ref == 0,
            !command.icb_is_range,
            command.icb_range_location == 0,
            command.icb_range_length == 0,
            command.icb_args_buffer_ref == 0,
            command.icb_args_buffer_offset == 0,
    {
        RenderCommand {
            kind: RenderKind::Unknown,
            opcode: RenderOpcode::Other(0),
            stage: Stage::Unknown,
            pipeline_ref: 0,
            first: 0,
            count: 0,
            mode: 0,
            buffer_ref: 0,
            buffer_offset: 0,
            attribute_stride: None,
            buffer_binds: Vec::new(),
            texture_ref: 0,
            sampler_ref: 0,
            ref_binds: Vec::new(),
            sampler_lod_binds: Vec::new(),
            viewports: Vec::new(),
            scissors: Vec::new(),
            blend_color: [0, 0, 0, 0],
            cull_mode: 0,
            front_facing: 0,
            depth_bias: [0, 0, 0],
            float_value: 0,
            depth_stencil_ref: 0,
            stencil_ref_front: 0,
            stencil_ref_back: 0,
            tessellation_factor_instance_stride: 0,
            amplification_value: 0,
            amplification_mappings: Vec::new(),
            visibility_result_offset: 0,
            color_attachments: Vec::new(),
            color0: ColorAttachment::default(),
            depth: DepthAttachment::default(),
            stencil: StencilAttachment::default(),
            pass_visibility_result_buffer_ref: 0,
            pass_render_target_array_length: 0,
            pass_render_target_width: 0,
            pass_render_target_height: 0,
            fence_ref: 0,
            fence_stages: 0,
            participation_resources: Vec::new(),
            participation_heaps: Vec::new(),
            participation_usage: None,
            participation_stages: None,
            barrier_resources: Vec::new(),
            barrier_after_stages: 0,
            barrier_before_stages: 0,
            barrier_scope: 0,
            barrier_unidentified_u8: 0,
            primitive_type: 0,
            vertex_start: 0,
            vertex_count: 0,
            instance_count: 0,
            base_instance: 0,
            base_vertex: 0,
            index_type: 0,
            index_count: 0,
            index_buffer_ref: 0,
            index_buffer_offset: 0,
            indirect_buffer_ref: 0,
            indirect_buffer_offset: 0,
            patch_draw: None,
            tile_bind: None,
            tile_threads: (0, 0, 0),
            tile_region: None,
            tile_render_target_array_index: None,
            indirect_command_buffer_ref: 0,
            icb_is_range: false,
            icb_range_location: 0,
            icb_range_length: 0,
            icb_args_buffer_ref: 0,
            icb_args_buffer_offset: 0,
        }
    }
}

/// One slot of a compute buffer bind.
#[derive(Clone, Copy, Debug, PartialEq, Eq, Structural)]
pub struct ComputeBufferBinding {
    pub ref_: u32,
    pub offset: u64,
    pub attribute_stride: u64,
    pub has_attribute_stride: bool,
}

/// One slot of a compute texture bind.
#[derive(Clone, Copy, Debug, PartialEq, Eq, Structural)]
pub struct ComputeRefBinding {
    pub ref_: u32,
}

/// One slot of a compute sampler bind.
#[derive(Clone, Copy, Debug, PartialEq, Eq, Structural)]
pub struct ComputeSamplerBinding {
    pub ref_: u32,
    /// Single-precision bits.
    pub lod_min: u32,
    /// Single-precision bits.
    pub lod_max: u32,
    pub has_lod_clamp: bool,
}

impl Default for ComputeSamplerBinding {
    fn default() -> (binding: Self)
        ensures
            binding.ref_ == 0,
            binding.lod_min == 0,
            binding.lod_max == 0,
            !binding.has_lod_clamp,
    {
        ComputeSamplerBinding { ref_: 0, lod_min: 0, lod_max: 0, has_lod_clamp: false }
    }
}

/// Three coordinates of a compute grid.
#[derive(Clone, Copy, Debug, PartialEq, Eq, Structural)]
pub struct Size3 {
    pub x: u64,
    pub y: u64,
    pub z: u64,
}

/// The grid region that stage-in data covers.
#[derive(Clone, Copy, Debug, PartialEq, Eq, Structural)]
pub struct StageInRegion {
    pub origin: Size3,
    pub size: Size3,
}

/// One decoded compute record.
#[derive(Debug, PartialEq, Eq)]
pub struct ComputeCommand {
    pub kind: ComputeKind,
    pub opcode: u32,
    pub pipeline_ref: u32,
    pub first: u32,
    pub buffers: Vec<ComputeBufferBinding>,
    pub textures: Vec<ComputeRefBinding>,
    pub samplers: Vec<ComputeSamplerBinding>,
    pub buffer_offset: u64,
    pub attribute_stride: u64,
    pub dispatch_type: u32,
    pub stage_in_region: StageInRegion,
    pub stage_in_indirect_buffer_ref: u32,
    pub stage_in_indirect_buffer_offset: u64,
    pub threadgroup_memory_index: u32,
    pub threadgroup_memory_length: u64,
    pub imageblock_width: u32,
    pub imageblock_height: u32,
    pub resources: Vec<u32>,
    pub resource_usage: Option<u32>,
    pub heaps: Vec<u32>,
    pub barrier_scope: u16,
    pub fence_ref: u32,
    pub threads_per_threadgroup: Size3,
    pub grid: Size3,
    pub indirect_buffer_ref: u32,
    pub indirect_buffer_offset: u64,
    pub condition_buffer_ref: u32,
    pub condition_buffer_offset: u64,
    pub condition_comparison: u32,
    pub condition_reference_value: u32,
    pub indirect_command_buffer_ref: u32,
    pub indirect_command_range_location: u64,
    pub indirect_command_range_length: u64,
    pub indirect_command_arguments_buffer_ref: u32,
}

impl Default for ComputeCommand {
    /// A command that names nothing.
    fn default() -> (command: Self)
        ensures
            command.kind == ComputeKind::Unknown,
            command.opcode == 0,
            command.pipeline_ref == 0,
            command.first == 0,
            command.buffers@.len() == 0,
            command.textures@.len() == 0,
            command.samplers@.len() == 0,
            command.buffer_offset == 0,
            command.attribute_stride == 0,
            command.dispatch_type == 0,
            command.stage_in_region == (StageInRegion { origin: Size3 { x: 0, y: 0, z: 0 }, size: Size3 { x: 0, y: 0, z: 0 }, }),
            command.stage_in_indirect_buffer_ref == 0,
            command.stage_in_indirect_buffer_offset == 0,
            command.threadgroup_memory_index == 0,
            command.threadgroup_memory_length == 0,
            command.imageblock_width == 0,
            command.imageblock_height == 0,
            command.resources@.len() == 0,
            command.resource_usage is None,
            command.heaps@.len() == 0,
            command.barrier_scope == 0,
            command.fence_ref == 0,
            command.threads_per_threadgroup == (Size3 { x: 0, y: 0, z: 0 }),
            command.grid == (Size3 { x: 0, y: 0, z: 0 }),
            command.indirect_buffer_ref == 0,
            command.indirect_buffer_offset == 0,
            command.condition_buffer_ref == 0,
            command.condition_buffer_offset == 0,
            command.condition_comparison == 0,
            command.condition_reference_value == 0,
            command.indirect_command_buffer_ref == 0,
            command.indirect_command_range_location == 0,
            command.indirect_command_range_length == 0,
            command.indirect_command_arguments_buffer_ref == 0,
    {
        ComputeCommand {
            kind: ComputeKind::Unknown,
            opcode: 0,
            pipeline_ref: 0,
            first: 0,
            buffers: Vec::new(),
            textures: Vec::new(),
            samplers: Vec::new(),
            buffer_offset: 0,
            attribute_stride: 0,
            dispatch_type: 0,
            stage_in_region: StageInRegion {
                origin: Size3 { x: 0, y: 0, z: 0 },
                size: Size3 { x: 0, y: 0, z: 0 },
            },
            stage_in_indirect_buffer_ref: 0,
            stage_in_indirect_buffer_offset: 0,
            threadgroup_memory_index: 0,
            threadgroup_memory_length: 0,
            imageblock_width: 0,
            imageblock_height: 0,
            resources: Vec::new(),
            resource_usage: None,
            heaps: Vec::new(),
            barrier_scope: 0,
            fence_ref: 0,
            threads_per_threadgroup: Size3 { x: 0, y: 0, z: 0 },
            grid: Size3 { x: 0, y: 0, z: 0 },
            indirect_buffer_ref: 0,
            indirect_buffer_offset: 0,
            condition_buffer_ref: 0,
            condition_buffer_offset: 0,
            condition_comparison: 0,
            condition_reference_value: 0,
            indirect_command_buffer_ref: 0,
            indirect_command_range_location: 0,
            indirect_command_range_length: 0,
            indirect_command_arguments_buffer_ref: 0,
        }
    }
}

/// A texel position.
#[derive(Clone, Copy, Debug, PartialEq, Eq, Structural)]
pub struct Point {
    pub x: u32,
    pub y: u32,
    pub z: u32,
}

/// A texel extent.
#[derive(Clone, Copy, Debug, PartialEq, Eq, Structural)]
pub struct Size {
    pub width: u32,
    pub height: u32,
    pub depth: u32,
}

/// One decoded blit record.
#[derive(Clone, Copy, Debug, PartialEq, Eq)]
pub struct BlitCommand {
    pub kind: BlitKind,
    pub opcode: BlitOpcode,
    pub copy_kind: CopyKind,
    pub source_kind: RefKind,
    pub destination_kind: RefKind,
    pub source: u32,
    pub source_offset: u64,
    pub source_bytes_per_row: u64,
    pub source_bytes_per_image: u64,
    pub source_level: u16,
    pub source_slice: u16,
    pub source_origin: Point,
    pub source_size: Size,
    pub destination: u32,
    pub destination_offset: u64,
    pub destination_bytes_per_row: u64,
    pub destination_bytes_per_image: u64,
    pub destination_level: u16,
    pub destination_slice: u16,
    pub destination_origin: Point,
    pub destination_index: u64,
    pub size: u64,
    pub level_count: u16,
    pub slice_count: u16,
    pub aspect: BlitAspectOption,
    pub resource: u32,
    pub buffer: u32,
    pub texture: u32,
    pub level: u16,
    pub slice: u16,
    pub range_location: u64,
    pub range_length: u64,
    pub fill_value: u8,
    pub fill_pattern: u32,
    pub fill_source: FillSource,
    pub fill_origin: Point,
    pub fill_size: Size,
    pub fill_color_raw: (u64, u64, u64, u64),
    pub fill_pixel_format: u16,
    pub fill_bytes_ref: u32,
    pub fill_bytes_offset: u64,
    pub fill_bytes_length: u64,
    pub fence: u32,
}

impl Default for BlitCommand {
    /// A command that names nothing.
    fn default() -> (command: Self)
        ensures
            command.kind == BlitKind::Unknown,
            command.opcode == BlitOpcode::Other(0),
            command.copy_kind == CopyKind::Absent,
            command.source_kind == RefKind::Absent,
            command.destination_kind == RefKind::Absent,
            command.source == 0,
            command.source_offset == 0,
            command.source_bytes_per_row == 0,
            command.source_bytes_per_image == 0,
            command.source_level == 0,
            command.source_slice == 0,
            command.source_origin == (Point { x: 0, y: 0, z: 0 }),
            command.source_size == (Size { width: 0, height: 0, depth: 0 }),
            command.destination == 0,
            command.destination_offset == 0,
            command.destination_bytes_per_row == 0,
            command.destination_bytes_per_image == 0,
            command.destination_level == 0,
            command.destination_slice == 0,
            command.destination_origin == (Point { x: 0, y: 0, z: 0 }),
            command.destination_index == 0,
            command.size == 0,
            command.level_count == 0,
            command.slice_count == 0,
            command.aspect == BlitAspectOption::Aspect(BlitAspect::Color),
            command.resource == 0,
            command.buffer == 0,
            command.texture == 0,
            command.level == 0,
            command.slice == 0,
            command.range_location == 0,
            command.range_length == 0,
            command.fill_value == 0,
            command.fill_pattern == 0,
            command.fill_source == FillSource::Absent,
            command.fill_origin == (Point { x: 0, y: 0, z: 0 }),
            command.fill_size == (Size { width: 0, height: 0, depth: 0 }),
            command.fill_color_raw == (0u64, 0u64, 0u64, 0u64),
            command.fill_pixel_format == 0,
            command.fill_bytes_ref == 0,
            command.fill_bytes_offset == 0,
            command.fill_bytes_length == 0,
            command.fence == 0,
    {
        BlitCommand {
            kind: BlitKind::Unknown,
            opcode: BlitOpcode::Other(0),
            copy_kind: CopyKind::Absent,
            source_kind: RefKind::Absent,
            destination_kind: RefKind::Absent,
            source: 0,
            source_offset: 0,
            source_bytes_per_row: 0,
            source_bytes_per_image: 0,
            source_level: 0,
            source_slice: 0,
            source_origin: Point { x: 0, y: 0, z: 0 },
            source_size: Size { width: 0, height: 0, depth: 0 },
            destination: 0,
            destination_offset: 0,
            destination_bytes_per_row: 0,
            destination_bytes_per_image: 0,
            destination_level: 0,
            destination_slice: 0,
            destination_origin: Point { x: 0, y: 0, z: 0 },
            destination_index: 0,
            size: 0,
            level_count: 0,
            slice_count: 0,
            aspect: BlitAspectOption::Aspect(BlitAspect::Color),
            resource: 0,
            buffer: 0,
            texture: 0,
            level: 0,
            slice: 0,
            range_location: 0,
            range_length: 0,
            fill_value: 0,
            fill_pattern: 0,
            fill_source: FillSource::Absent,
            fill_origin: Point { x: 0, y: 0, z: 0 },
            fill_size: Size { width: 0, height: 0, depth: 0 },
            fill_color_raw: (0, 0, 0, 0),
            fill_pixel_format: 0,
            fill_bytes_ref: 0,
            fill_bytes_offset: 0,
            fill_bytes_length: 0,
            fence: 0,
        }
    }
}

/// One decoded event record.
#[derive(Clone, Copy, Debug, PartialEq, Eq, Structural)]
pub struct EventCommand {
    pub kind: EventCommandKind,
    pub event_ref: u32,
    pub value: u64,
    pub has_timeout: bool,
}

/// Where an info query's answer goes.
#[derive(Clone, Copy, Debug, PartialEq, Eq, Structural)]
pub struct InfoReplyTarget {
    pub buffer: u32,
    pub offset: u64,
    pub length: u64,
    pub alignment: u64,
}

/// One decoded info query. A `detail` stands for what else the record states of
/// the question: records that differ there have different details.
#[derive(Clone, Copy, Debug, PartialEq, Eq, Structural)]
pub enum InfoOperation {
    PipelineState { pipeline_ref: u32, detail: u64, reply: InfoReplyTarget },
    ResourceHost { resource: u32, detail: u64, reply: InfoReplyTarget },
    SamplerHost { sampler: u32, reply: InfoReplyTarget },
    RenderPipelineImageblock { pipeline: u32, detail: u64, reply: InfoReplyTarget },
    ComputePipelineImageblock { pipeline: u32, detail: u64, reply: InfoReplyTarget },
    RateMapInfo { rate_map: u32, detail: u64, reply: InfoReplyTarget },
    MapCoordinate { rate_map: u32, detail: u64, reply: InfoReplyTarget },
    CopyRateParameterBuffer { rate_map: u32, destination: u32, detail: u64 },
    HeapHost { heap: u32, detail: u64, reply: InfoReplyTarget },
    HeapTextureSizeAndAlign { heap: u32, detail: u64, reply: InfoReplyTarget },
}

/// One decoded record of an encoder stream.
#[derive(Debug, PartialEq, Eq)]
pub enum DecodedReplacementRecord {
    Render(Box<RenderCommand>),
    Compute(Box<ComputeCommand>),
    Blit(Box<BlitCommand>),
    Event(EventCommand),
    Info(InfoOperation),
}

} // verus!
