//! What one task's namespaces answer, as plain values.
//!
//! A record names objects by reference, and only the runtime that owns the
//! task's namespaces can say what a reference stands for. A session holds the
//! answers the runtime has given; a query it holds no answer to is reported as
//! such, so that a caller can ask the runtime and resolve the record again.

use vstd::prelude::*;

use crate::command::{InfoOperation, Size};
use crate::compute::{ConstructionAnswer, ConstructionQuery};
use crate::icb::{IcbReadAnswer, IcbReadQuery, IcbStoreAnswer, IcbStoreRefusal};
use crate::tables::{answer, answer_copied, answer_of, Key};

verus! {

/// A run of bytes in a storage.
#[derive(Clone, Copy, Debug, PartialEq, Eq, Structural)]
pub struct LinearRegion {
    pub start: u64,
    pub length: u64,
}

impl LinearRegion {
    /// Whether two regions share a byte.
    pub open spec fn shares_byte(self, other: LinearRegion) -> bool {
        exists|at: int|
            {
                &&& #[trigger] in_run(at, self.start as int, self.length as int)
                &&& in_run(at, other.start as int, other.length as int)
            }
    }

    /// Whether two regions share a byte.
    pub fn overlaps(&self, other: &LinearRegion) -> (overlap: bool)
        ensures
            overlap == self.shares_byte(*other),
    {
        let overlap = (self.start as u128) < other.start as u128 + other.length as u128
            && (other.start as u128) < self.start as u128 + self.length as u128
            && self.length != 0 && other.length != 0;
        proof {
            let at: int = if self.start >= other.start {
                self.start as int
            } else {
                other.start as int
            };
            if overlap {
                assert(in_run(at, self.start as int, self.length as int));
                assert(in_run(at, other.start as int, other.length as int));
            }
        }
        overlap
    }
}

/// Whether a position lies in a run of `length` positions from `start`.
pub open spec fn in_run(at: int, start: int, length: int) -> bool {
    start <= at < start + length
}

/// A resolved run of a buffer.
#[derive(Clone, Copy, Debug, PartialEq, Eq, Structural)]
pub struct ResolvedBufferRange {
    pub resource: u64,
    pub storage: u64,
    pub region: LinearRegion,
}

/// A run of a buffer, or its tail where no length is given.
#[derive(Clone, Copy, Debug, PartialEq, Eq, Structural)]
pub struct BufferQuery {
    pub reference: u32,
    pub offset: u64,
    pub length: Option<u64>,
}

/// Why a buffer run does not resolve.
#[derive(Clone, Copy, Debug, PartialEq, Eq, Structural)]
pub enum ReplacementBufferRangeResolutionError {
    /// The session holds no answer to this query.
    Unanswered(BufferQuery),
    /// The runtime refused, for the reason it numbers.
    Refused(u32),
}

/// What the runtime said of a buffer run.
#[derive(Clone, Copy, Debug, PartialEq, Eq, Structural)]
pub enum BufferAnswer {
    Range(ResolvedBufferRange),
    Refused(u32),
}

/// The shape of a texture.
#[derive(Clone, Copy, Debug, PartialEq, Eq, Structural)]
pub enum TextureType {
    D1,
    D1Array,
    D2,
    D2Array,
    D2Multisample,
    D2MultisampleArray,
    Cube,
    CubeArray,
    D3,
    Buffer,
}

/// How a shader sees a texture.
#[derive(Clone, Copy, Debug, PartialEq, Eq, Structural)]
pub struct TextureView {
    pub resource: u64,
    pub base: u64,
    pub image_owner: u64,
    pub level_base: u32,
    pub level_count: u32,
    pub slice_base: u32,
    pub slice_count: u32,
    pub texture_type: TextureType,
    pub pixel_format: u16,
    pub swizzle: u32,
}

/// A texture that a shader can be given.
#[derive(Clone, Copy, Debug, PartialEq, Eq, Structural)]
pub struct ResolvedTextureBinding {
    pub resource: u64,
    pub backing: u64,
    pub view: TextureView,
}

/// Why a texture does not resolve.
#[derive(Clone, Copy, Debug, PartialEq, Eq, Structural)]
pub enum ReplacementTextureResolutionError {
    /// The session holds no answer for this reference.
    Unanswered(u32),
    ResourceUnavailable,
    StorageUnavailable,
    View(u32),
}

/// What the runtime said of a texture.
#[derive(Clone, Copy, Debug, PartialEq, Eq, Structural)]
pub enum TextureAnswer {
    Texture(ResolvedTextureBinding),
    ResourceUnavailable,
    StorageUnavailable,
    View(u32),
}

/// One subresource of a texture, as a copy names it.
#[derive(Clone, Copy, Debug, PartialEq, Eq, Structural)]
pub struct EndpointQuery {
    pub reference: u32,
    pub level: u16,
    pub slice: u16,
}

/// One subresource of a texture, resolved for a copy.
#[derive(Clone, Copy, Debug, PartialEq, Eq, Structural)]
pub struct ResolvedTextureEndpoint {
    pub resource: u64,
    pub storage: u64,
    pub level: u16,
    pub slice: u16,
    pub pixel_format: u16,
    pub extent: Size,
    pub bpp: u32,
    /// Bytes of one texel's colour, where the format has one.
    pub color_bytes: Option<u32>,
    /// Bytes of one texel's depth, where the format has one.
    pub depth_bytes: Option<u32>,
    /// Bytes of one texel's stencil, where the format has one.
    pub stencil_bytes: Option<u32>,
}

/// Why a subresource does not resolve.
#[derive(Clone, Copy, Debug, PartialEq, Eq, Structural)]
pub enum ReplacementTextureEndpointResolutionError {
    /// The session holds no answer to this query.
    Unanswered(EndpointQuery),
    /// The runtime refused, for the reason it numbers.
    Refused(u32),
}

/// What the runtime said of a subresource.
#[derive(Clone, Copy, Debug, PartialEq, Eq, Structural)]
pub enum EndpointAnswer {
    Endpoint(ResolvedTextureEndpoint),
    Refused(u32),
}

/// The part of an image that an operation touches.
#[derive(Clone, Copy, Debug, PartialEq, Eq, Structural)]
pub enum ImageAspect {
    Color,
    Depth,
    Stencil,
}

/// One subresource of a texture, as a pass names it.
#[derive(Clone, Copy, Debug, PartialEq, Eq, Structural)]
pub struct AttachmentQuery {
    pub reference: u32,
    pub level: u32,
    pub slice: u32,
    pub depth_plane: u32,
    pub aspect: ImageAspect,
}

/// One subresource of a texture, resolved for a pass.
#[derive(Clone, Copy, Debug, PartialEq, Eq, Structural)]
pub struct AttachmentTarget {
    pub resource: u64,
    pub image_owner: u64,
    pub backing: u64,
    pub region: u64,
    pub pixel_format: u16,
    pub extent: Size,
    pub sample_count: u32,
}

/// Why an attachment does not resolve.
#[derive(Clone, Copy, Debug, PartialEq, Eq, Structural)]
pub enum ReplacementRenderAttachmentResolutionError {
    /// The session holds no answer to this query.
    Unanswered(AttachmentQuery),
    /// The runtime refused, for the reason it numbers.
    Refused(u32),
}

/// What the runtime said of an attachment.
#[derive(Clone, Copy, Debug, PartialEq, Eq, Structural)]
pub enum AttachmentAnswer {
    Target(AttachmentTarget),
    Refused(u32),
}

/// A sampler that a shader can be given.
#[derive(Clone, Copy, Debug, PartialEq, Eq, Structural)]
pub struct SamplerResource {
    pub binding: u32,
    pub identity: Option<u64>,
    pub descriptor: u64,
    /// Single-precision bits.
    pub lod_min: u32,
    /// Single-precision bits.
    pub lod_max: u32,
}

/// The sampler that stands where none is bound.
pub open spec fn null_sampler(binding: u32) -> SamplerResource {
    SamplerResource { binding, identity: None, descriptor: 0, lod_min: 0, lod_max: 0 }
}

impl SamplerResource {
    /// The sampler that stands where none is bound.
    pub fn null(binding: u32) -> (sampler: SamplerResource)
        ensures
            sampler == null_sampler(binding),
    {
        SamplerResource { binding, identity: None, descriptor: 0, lod_min: 0, lod_max: 0 }
    }
}

/// What the runtime said of a sampler.
#[derive(Clone, Copy, Debug, PartialEq, Eq, Structural)]
pub enum SamplerAnswer {
    Sampler(SamplerResource),
    /// The sampler's descriptor states something no host sampler has.
    Refused(u32),
}

/// A run of commands in an indirect command buffer.
#[derive(Clone, Copy, Debug, PartialEq, Eq, Structural)]
pub struct IndirectCommandRange {
    pub location: u64,
    pub length: u64,
}

/// An operation on indirect command buffers, as a record names it.
#[derive(Clone, Copy, Debug, PartialEq, Eq, Structural)]
pub enum IndirectCommandOperation {
    Optimize { icb: u32, range: IndirectCommandRange },
    Reset { icb: u32, range: IndirectCommandRange },
    Copy {
        source: u32,
        source_range: IndirectCommandRange,
        destination: u32,
        destination_index: u64,
    },
}

/// Which encoder executes indirect commands.
#[derive(Clone, Copy, Debug, PartialEq, Eq, Structural)]
pub enum IndirectCommandExecutionKind {
    Render,
    Compute,
}

/// An operation on indirect command buffers, resolved.
#[derive(Clone, Copy, Debug, PartialEq, Eq, Structural)]
#[allow(inconsistent_fields)]
pub enum ResolvedIndirectCommand {
    Optimize { icb: u64, range: IndirectCommandRange },
    Reset { icb: u64, range: IndirectCommandRange },
    Copy {
        source: u64,
        source_range: IndirectCommandRange,
        destination: u64,
        destination_index: u64,
    },
    Execute { icb: u64, range: IndirectCommandRange, kind: IndirectCommandExecutionKind },
}

/// What the runtime said of an operation on indirect command buffers.
#[derive(Clone, Copy, Debug, PartialEq, Eq, Structural)]
pub enum IndirectCommandAnswer {
    Command(ResolvedIndirectCommand),
    Refused(u32),
}

/// Why an operation on indirect command buffers does not resolve.
#[derive(Clone, Copy, Debug, PartialEq, Eq, Structural)]
pub enum IndirectCommandResolutionError {
    /// The session holds no answer to this operation.
    Unanswered(IndirectCommandOperation),
    /// The runtime refused, for the reason it numbers.
    Refused(u32),
}

/// What the runtime said of an info query.
#[derive(Clone, Copy, Debug, PartialEq, Eq, Structural)]
pub enum InfoAnswer {
    /// The query resolves, under the name the runtime gave it.
    Query(u64),
    Refused(u32),
}

/// Why an info query does not resolve.
#[derive(Clone, Copy, Debug, PartialEq, Eq, Structural)]
pub enum InfoResolutionError {
    /// The session holds no answer to this query.
    Unanswered(InfoOperation),
    /// The runtime refused, for the reason it numbers.
    Refused(u32),
}

/// What a condition reference stands for.
#[derive(Clone, Copy, Debug, PartialEq, Eq, Structural)]
pub enum ConditionAnswer {
    Identity(u64),
    Refused(u32),
}

/// Why an event or a fence does not resolve.
#[derive(Clone, Copy, Debug, PartialEq, Eq, Structural)]
pub enum ConditionNamespaceError {
    /// The session holds no answer for this reference.
    Unanswered(u32),
    /// The runtime refused, for the reason it numbers.
    Refused(u32),
}

/// What kind of shader argument a reflected binding is.
#[derive(Clone, Copy, Debug, PartialEq, Eq, Structural)]
pub enum ShaderResourceKind {
    Buffer,
    Texture,
    TextureArray,
    Sampler,
    StaticSampler,
    StorageImage,
    ColorInput,
    Other(u32),
}

/// Whether a compiled shader reads a descriptor it declares.
#[derive(Clone, Copy, Debug, PartialEq, Eq, Structural)]
pub enum DescriptorUse {
    NotDeclared,
    DeclaredUnused,
    Used,
}

/// How a shader touches a buffer.
#[derive(Clone, Copy, Debug, PartialEq, Eq, Structural)]
pub enum ReflectedBufferAccess {
    Unused,
    ReadOnly,
    Writable,
    Unknown,
    Absent,
}

/// One argument of a shader's interface.
#[derive(Clone, Copy, Debug, PartialEq, Eq, Structural)]
pub struct ReflectedBinding {
    pub kind: ShaderResourceKind,
    pub metal_index: u32,
    /// The descriptor binding a buffer argument takes.
    pub buffer_binding: u32,
    pub buffer_use: DescriptorUse,
    pub buffer_access: ReflectedBufferAccess,
}

/// One sampler of a shader's interface.
#[derive(Clone, Copy, Debug, PartialEq, Eq, Structural)]
pub struct ReflectedSampler {
    pub metal_index: u32,
    pub binding: u32,
    /// A sampler compiled into the shader, where there is one.
    pub static_state: Option<SamplerAnswer>,
}

/// The shape of image a shader samples.
#[derive(Clone, Copy, Debug, PartialEq, Eq, Structural)]
pub enum SampledImageKind {
    D1,
    D1Array,
    D2,
    D2Array,
    D2Multisample,
    Cube,
    CubeArray,
    D3,
}

/// What reflection says of a sampled shape.
#[derive(Clone, Copy, Debug, PartialEq, Eq, Structural)]
pub enum ReflectedSampledKind {
    Kind(SampledImageKind),
    Absent,
    Ambiguous,
}

/// How a shader touches a texture.
#[derive(Clone, Copy, Debug, PartialEq, Eq, Structural)]
pub enum ReflectedTextureAccess {
    Sampled,
    Storage,
    Unknown,
}

/// How a shader touches a storage image.
#[derive(Clone, Copy, Debug, PartialEq, Eq, Structural)]
pub enum StorageImageAccess {
    ReadOnly,
    WriteOnly,
    ReadWrite,
    Unknown,
    AmbiguousBinding,
}

/// One texture of a shader's interface.
#[derive(Clone, Copy, Debug, PartialEq, Eq, Structural)]
pub struct ReflectedTexture {
    pub binding: u32,
    pub array_element: u32,
    pub descriptor_count: u32,
    pub access: ReflectedTextureAccess,
    pub shape: ReflectedSampledKind,
}

/// An interface feature that no binding can carry.
#[derive(Clone, Copy, Debug, PartialEq, Eq, Structural)]
pub struct UnsupportedInterface {
    pub feature: u32,
    pub count: u64,
}

/// The index bounds of a draw, as far as its record states them.
#[derive(Clone, Copy, Debug, PartialEq, Eq, Structural)]
pub struct RenderBufferIndexBounds {
    pub first_vertex: u32,
    pub vertex_count: u32,
    pub first_instance: u32,
    pub instance_count: u32,
    pub indexed: bool,
}

/// A buffer argument under the bounds of a draw.
#[derive(Clone, Copy, Debug, PartialEq, Eq, Structural)]
pub struct ExtentQuery {
    pub metal_index: u32,
    pub bounds: RenderBufferIndexBounds,
}

/// What reflection says of one stage of a pipeline.
#[derive(Debug, PartialEq, Eq)]
pub struct StageReflection {
    pub unsupported: Option<UnsupportedInterface>,
    pub bindings: Vec<ReflectedBinding>,
    pub samplers: Vec<ReflectedSampler>,
    /// By argument-table index.
    pub textures: Vec<Option<ReflectedTexture>>,
    /// By descriptor binding.
    pub storage_images: Vec<(u32, StorageImageAccess)>,
    /// Bytes a buffer argument is read to; none where nothing bounds it.
    pub buffer_extents: Vec<(ExtentQuery, Option<u64>)>,
    pub program: u64,
}

/// How often a vertex attribute advances.
#[derive(Clone, Copy, Debug, PartialEq, Eq, Structural)]
pub enum VertexStep {
    /// The declared function is none that the API has.
    Undeclared(u32),
    /// A declared function, and whether the rate beside it is one it admits.
    Declared { function: u32, rate_in_contract: bool },
}

/// One attribute of a pipeline's vertex descriptor.
#[derive(Clone, Copy, Debug, PartialEq, Eq, Structural)]
pub struct VertexAttribute {
    pub location: u32,
    pub format: u32,
    /// Why the format is none that the API has, where it is not.
    pub format_refusal: Option<u32>,
    pub stride: u32,
    pub buffer_index: u32,
    pub step: VertexStep,
    pub step_rate: u32,
}

/// A pipeline whose shaders have been translated.
#[derive(Debug, PartialEq, Eq)]
pub struct ResolvedRenderPipeline {
    pub identity: u64,
    pub vertex: StageReflection,
    pub fragment: StageReflection,
    pub vertex_attributes: Vec<VertexAttribute>,
}

/// Why a render pipeline cannot be drawn with.
#[derive(Clone, Copy, Debug, PartialEq, Eq, Structural)]
pub enum ReplacementRenderSemanticAvailability {
    UnknownPipeline,
    Unavailable(u32),
}

/// What the runtime said of a render pipeline.
#[derive(Debug, PartialEq, Eq)]
pub enum RenderPipelineAnswer {
    Ready(ResolvedRenderPipeline),
    /// The pipeline is known, and its shaders are not translated.
    Unavailable(u32),
}

/// A kernel under a threadgroup size.
#[derive(Clone, Copy, Debug, PartialEq, Eq, Structural)]
pub struct TranslationQuery {
    pub pipeline_ref: u32,
    pub x: u32,
    pub y: u32,
    pub z: u32,
}

/// What the runtime said of a kernel's translation.
#[derive(Clone, Copy, Debug, PartialEq, Eq, Structural)]
pub enum TranslationAnswer {
    Ready(u64),
    Unavailable(u32),
}

/// Why a kernel cannot be dispatched.
#[derive(Clone, Copy, Debug, PartialEq, Eq, Structural)]
pub enum ReplacementComputeTranslationAvailability {
    /// The session holds no answer to this query.
    Unanswered(TranslationQuery),
    Unavailable(u32),
}

/// What the runtime said of a compute pipeline.
#[derive(Clone, Copy, Debug, PartialEq, Eq, Structural)]
pub struct ComputePipelineAnswer {
    pub identity: u64,
    /// Whether the pipeline's contract is known, and with it whether it has a
    /// stage-in descriptor.
    pub contract: Option<ComputeContract>,
}

/// What a compute pipeline was created with.
#[derive(Clone, Copy, Debug, PartialEq, Eq, Structural)]
pub struct ComputeContract {
    pub stage_input: Option<u64>,
}

impl Key for BufferQuery {
    fn same(&self, other: &Self) -> (b: bool) {
        *self == *other
    }
}

impl Key for EndpointQuery {
    fn same(&self, other: &Self) -> (b: bool) {
        *self == *other
    }
}

impl Key for AttachmentQuery {
    fn same(&self, other: &Self) -> (b: bool) {
        *self == *other
    }
}

impl Key for ExtentQuery {
    fn same(&self, other: &Self) -> (b: bool) {
        *self == *other
    }
}

impl Key for IcbReadQuery {
    fn same(&self, other: &Self) -> (b: bool) {
        *self == *other
    }
}

impl Key for IndirectCommandOperation {
    fn same(&self, other: &Self) -> (b: bool) {
        *self == *other
    }
}

impl Key for InfoOperation {
    fn same(&self, other: &Self) -> (b: bool) {
        *self == *other
    }
}

impl Key for TranslationQuery {
    fn same(&self, other: &Self) -> (b: bool) {
        *self == *other
    }
}

/// The flag words that records carry, as masks of the bits each declares.
#[derive(Clone, Copy, Debug, PartialEq, Eq, Structural)]
pub struct DeclaredBits {
    /// Stages a render barrier may name.
    pub render_stages: u16,
    /// Stages a render fence may name.
    pub fence_stages: u16,
    /// Kinds of memory a barrier may name.
    pub barrier_scopes: u16,
}

/// Whether a flag word holds no bit but the declared ones.
pub open spec fn declared_only(bits: u16, declared: u16) -> bool {
    bits & !declared == 0
}

/// Whether a flag word holds no bit but the declared ones.
pub fn is_declared(bits: u16, declared: u16) -> (only: bool)
    ensures
        only == declared_only(bits, declared),
{
    bits & !declared == 0
}

/// The answers of one task's namespaces.
#[derive(Debug, PartialEq, Eq)]
pub struct ReplacementRuntimeSession {
    pub task: u32,
    pub declared: DeclaredBits,
    pub resources: Vec<(u32, u64)>,
    pub heaps: Vec<(u32, u64)>,
    pub events: Vec<(u32, ConditionAnswer)>,
    pub fences: Vec<(u32, ConditionAnswer)>,
    pub buffers: Vec<(BufferQuery, BufferAnswer)>,
    pub textures: Vec<(u32, TextureAnswer)>,
    pub endpoints: Vec<(EndpointQuery, EndpointAnswer)>,
    pub attachments: Vec<(AttachmentQuery, AttachmentAnswer)>,
    pub samplers: Vec<(u32, SamplerAnswer)>,
    pub depth_stencils: Vec<(u32, u64)>,
    pub render_pipelines: Vec<(u32, RenderPipelineAnswer)>,
    pub compute_pipelines: Vec<(u32, ComputePipelineAnswer)>,
    pub compute_translations: Vec<(TranslationQuery, TranslationAnswer)>,
    pub indirect_commands: Vec<(IndirectCommandOperation, IndirectCommandAnswer)>,
    pub infos: Vec<(InfoOperation, InfoAnswer)>,
    pub icb_reads: Vec<(IcbReadQuery, IcbReadAnswer)>,
    /// What building the arguments of dispatches gave.
    pub constructions: Vec<(ConstructionQuery, ConstructionAnswer)>,
    /// What storing batches gave, in the order in which they are stored.
    pub icb_stores: Vec<IcbStoreAnswer>,
}

impl ReplacementRuntimeSession {
    /// The resource a reference names.
    pub open spec fn resource(self, reference: u32) -> Option<u64> {
        answer_of(self.resources@, reference)
    }

    /// The heap a reference names.
    pub open spec fn heap(self, reference: u32) -> Option<u64> {
        answer_of(self.heaps@, reference)
    }

    /// The depth-stencil state a reference names.
    pub open spec fn depth_stencil(self, reference: u32) -> Option<u64> {
        answer_of(self.depth_stencils@, reference)
    }

    /// What an event reference stands for.
    pub open spec fn event(self, reference: u32) -> Result<u64, ConditionNamespaceError> {
        condition(self.events@, reference)
    }

    /// What a fence reference stands for.
    pub open spec fn fence(self, reference: u32) -> Result<u64, ConditionNamespaceError> {
        condition(self.fences@, reference)
    }

    /// A run of a buffer, or its tail.
    pub open spec fn buffer(self, reference: u32, offset: u64, length: Option<u64>) -> Result<
        ResolvedBufferRange,
        ReplacementBufferRangeResolutionError,
    > {
        let query = BufferQuery { reference, offset, length };
        match answer_of(self.buffers@, query) {
            None => Err(ReplacementBufferRangeResolutionError::Unanswered(query)),
            Some(BufferAnswer::Refused(reason)) => Err(
                ReplacementBufferRangeResolutionError::Refused(reason),
            ),
            Some(BufferAnswer::Range(range)) => Ok(range),
        }
    }

    /// The texture a reference names.
    pub open spec fn texture(self, reference: u32) -> Result<
        ResolvedTextureBinding,
        ReplacementTextureResolutionError,
    > {
        match answer_of(self.textures@, reference) {
            None => Err(ReplacementTextureResolutionError::Unanswered(reference)),
            Some(TextureAnswer::ResourceUnavailable) => Err(
                ReplacementTextureResolutionError::ResourceUnavailable,
            ),
            Some(TextureAnswer::StorageUnavailable) => Err(
                ReplacementTextureResolutionError::StorageUnavailable,
            ),
            Some(TextureAnswer::View(reason)) => Err(
                ReplacementTextureResolutionError::View(reason),
            ),
            Some(TextureAnswer::Texture(texture)) => Ok(texture),
        }
    }

    /// One subresource of a texture, for a copy.
    pub open spec fn endpoint(self, reference: u32, level: u16, slice: u16) -> Result<
        ResolvedTextureEndpoint,
        ReplacementTextureEndpointResolutionError,
    > {
        let query = EndpointQuery { reference, level, slice };
        match answer_of(self.endpoints@, query) {
            None => Err(ReplacementTextureEndpointResolutionError::Unanswered(query)),
            Some(EndpointAnswer::Refused(reason)) => Err(
                ReplacementTextureEndpointResolutionError::Refused(reason),
            ),
            Some(EndpointAnswer::Endpoint(endpoint)) => Ok(endpoint),
        }
    }

    /// One subresource of a texture, for a pass.
    pub open spec fn attachment(self, query: AttachmentQuery) -> Result<
        AttachmentTarget,
        ReplacementRenderAttachmentResolutionError,
    > {
        match answer_of(self.attachments@, query) {
            None => Err(ReplacementRenderAttachmentResolutionError::Unanswered(query)),
            Some(AttachmentAnswer::Refused(reason)) => Err(
                ReplacementRenderAttachmentResolutionError::Refused(reason),
            ),
            Some(AttachmentAnswer::Target(target)) => Ok(target),
        }
    }

    /// A kernel's translation.
    pub open spec fn translation(self, query: TranslationQuery) -> Result<
        u64,
        ReplacementComputeTranslationAvailability,
    > {
        match answer_of(self.compute_translations@, query) {
            None => Err(ReplacementComputeTranslationAvailability::Unanswered(query)),
            Some(TranslationAnswer::Unavailable(reason)) => Err(
                ReplacementComputeTranslationAvailability::Unavailable(reason),
            ),
            Some(TranslationAnswer::Ready(translation)) => Ok(translation),
        }
    }

    /// An operation on indirect command buffers.
    pub open spec fn indirect_command(self, operation: IndirectCommandOperation) -> Result<
        ResolvedIndirectCommand,
        IndirectCommandResolutionError,
    > {
        match answer_of(self.indirect_commands@, operation) {
            None => Err(IndirectCommandResolutionError::Unanswered(operation)),
            Some(IndirectCommandAnswer::Refused(reason)) => Err(
                IndirectCommandResolutionError::Refused(reason),
            ),
            Some(IndirectCommandAnswer::Command(command)) => Ok(command),
        }
    }

    /// An info query.
    pub open spec fn info(self, operation: InfoOperation) -> Result<u64, InfoResolutionError> {
        match answer_of(self.infos@, operation) {
            None => Err(InfoResolutionError::Unanswered(operation)),
            Some(InfoAnswer::Refused(reason)) => Err(InfoResolutionError::Refused(reason)),
            Some(InfoAnswer::Query(query)) => Ok(query),
        }
    }

    /// An operation on indirect command buffers.
    pub fn resolve_indirect_command(&self, operation: IndirectCommandOperation) -> (command: Result<
        ResolvedIndirectCommand,
        IndirectCommandResolutionError,
    >)
        ensures
            command == self.indirect_command(operation),
    {
        match answer_copied(&self.indirect_commands, operation) {
            None => Err(IndirectCommandResolutionError::Unanswered(operation)),
            Some(IndirectCommandAnswer::Refused(reason)) => Err(
                IndirectCommandResolutionError::Refused(reason),
            ),
            Some(IndirectCommandAnswer::Command(command)) => Ok(command),
        }
    }

    /// An info query.
    pub fn resolve_info_operation(&self, operation: InfoOperation) -> (query: Result<
        u64,
        InfoResolutionError,
    >)
        ensures
            query == self.info(operation),
    {
        match answer_copied(&self.infos, operation) {
            None => Err(InfoResolutionError::Unanswered(operation)),
            Some(InfoAnswer::Refused(reason)) => Err(InfoResolutionError::Refused(reason)),
            Some(InfoAnswer::Query(query)) => Ok(query),
        }
    }

    /// The resource a reference names.
    pub fn resolve_resource(&self, reference: u32) -> (resource: Option<u64>)
        ensures
            resource == self.resource(reference),
    {
        answer_copied(&self.resources, reference)
    }

    /// The heap a reference names.
    pub fn resolve_heap(&self, reference: u32) -> (heap: Option<u64>)
        ensures
            heap == self.heap(reference),
    {
        answer_copied(&self.heaps, reference)
    }

    /// The depth-stencil state a reference names.
    pub fn resolve_depth_stencil(&self, reference: u32) -> (state: Option<u64>)
        ensures
            state == self.depth_stencil(reference),
    {
        answer_copied(&self.depth_stencils, reference)
    }

    /// What an event reference stands for.
    pub fn resolve_event(&self, reference: u32) -> (event: Result<u64, ConditionNamespaceError>)
        ensures
            event == self.event(reference),
    {
        resolve_condition(&self.events, reference)
    }

    /// What a fence reference stands for.
    pub fn resolve_fence(&self, reference: u32) -> (fence: Result<u64, ConditionNamespaceError>)
        ensures
            fence == self.fence(reference),
    {
        resolve_condition(&self.fences, reference)
    }

    /// A run of a buffer.
    pub fn resolve_buffer_range(&self, reference: u32, offset: u64, length: u64) -> (range: Result<
        ResolvedBufferRange,
        ReplacementBufferRangeResolutionError,
    >)
        ensures
            range == self.buffer(reference, offset, Some(length)),
    {
        self.resolve_buffer(BufferQuery { reference, offset, length: Some(length) })
    }

    /// A buffer from an offset on.
    pub fn resolve_buffer_tail(&self, reference: u32, offset: u64) -> (range: Result<
        ResolvedBufferRange,
        ReplacementBufferRangeResolutionError,
    >)
        ensures
            range == self.buffer(reference, offset, None),
    {
        self.resolve_buffer(BufferQuery { reference, offset, length: None })
    }

    fn resolve_buffer(&self, query: BufferQuery) -> (range: Result<
        ResolvedBufferRange,
        ReplacementBufferRangeResolutionError,
    >)
        ensures
            range == self.buffer(query.reference, query.offset, query.length),
    {
        match answer_copied(&self.buffers, query) {
            None => Err(ReplacementBufferRangeResolutionError::Unanswered(query)),
            Some(BufferAnswer::Refused(reason)) => Err(
                ReplacementBufferRangeResolutionError::Refused(reason),
            ),
            Some(BufferAnswer::Range(range)) => Ok(range),
        }
    }

    /// The texture a reference names.
    pub fn resolve_texture_binding(&self, reference: u32) -> (texture: Result<
        ResolvedTextureBinding,
        ReplacementTextureResolutionError,
    >)
        ensures
            texture == self.texture(reference),
    {
        match answer_copied(&self.textures, reference) {
            None => Err(ReplacementTextureResolutionError::Unanswered(reference)),
            Some(TextureAnswer::ResourceUnavailable) => Err(
                ReplacementTextureResolutionError::ResourceUnavailable,
            ),
            Some(TextureAnswer::StorageUnavailable) => Err(
                ReplacementTextureResolutionError::StorageUnavailable,
            ),
            Some(TextureAnswer::View(reason)) => Err(
                ReplacementTextureResolutionError::View(reason),
            ),
            Some(TextureAnswer::Texture(texture)) => Ok(texture),
        }
    }

    /// One subresource of a texture, for a copy.
    pub fn resolve_linear_texture_endpoint(&self, reference: u32, level: u16, slice: u16)
        -> (endpoint: Result<ResolvedTextureEndpoint, ReplacementTextureEndpointResolutionError>)
        ensures
            endpoint == self.endpoint(reference, level, slice),
    {
        let query = EndpointQuery { reference, level, slice };
        match answer_copied(&self.endpoints, query) {
            None => Err(ReplacementTextureEndpointResolutionError::Unanswered(query)),
            Some(EndpointAnswer::Refused(reason)) => Err(
                ReplacementTextureEndpointResolutionError::Refused(reason),
            ),
            Some(EndpointAnswer::Endpoint(endpoint)) => Ok(endpoint),
        }
    }

    /// One subresource of a texture, for a pass.
    pub fn resolve_render_attachment(&self, query: AttachmentQuery) -> (target: Result<
        AttachmentTarget,
        ReplacementRenderAttachmentResolutionError,
    >)
        ensures
            target == self.attachment(query),
    {
        match answer_copied(&self.attachments, query) {
            None => Err(ReplacementRenderAttachmentResolutionError::Unanswered(query)),
            Some(AttachmentAnswer::Refused(reason)) => Err(
                ReplacementRenderAttachmentResolutionError::Refused(reason),
            ),
            Some(AttachmentAnswer::Target(target)) => Ok(target),
        }
    }

    /// The sampler a reference names.
    pub fn resolve_sampler(&self, reference: u32) -> (sampler: Option<SamplerAnswer>)
        ensures
            sampler == answer_of(self.samplers@, reference),
    {
        answer_copied(&self.samplers, reference)
    }

    /// The render pipeline a reference names.
    pub fn resolve_render_pipeline(&self, reference: u32) -> (pipeline: Option<
        &RenderPipelineAnswer,
    >)
        ensures
            match pipeline {
                Some(pipeline) => answer_of(self.render_pipelines@, reference) == Some(*pipeline),
                None => answer_of(self.render_pipelines@, reference) is None,
            },
    {
        answer(&self.render_pipelines, reference)
    }

    /// What storing a run gave, after so many other runs.
    pub open spec fn icb_store(self, stores: usize, icb: u64, range: IndirectCommandRange) -> Result<
        u64,
        IcbStoreRefusal,
    > {
        if stores < self.icb_stores@.len() {
            match self.icb_stores@[stores as int] {
                IcbStoreAnswer::Stored { prior } => Ok(prior),
                IcbStoreAnswer::Refused(reason) => Err(IcbStoreRefusal::Refused(reason)),
            }
        } else {
            Err(IcbStoreRefusal::Unanswered { stores, icb, range })
        }
    }

    /// What storing a run gave, after so many other runs.
    pub fn resolve_icb_store(&self, stores: usize, icb: u64, range: IndirectCommandRange) -> (prior:
        Result<u64, IcbStoreRefusal>)
        ensures
            prior == self.icb_store(stores, icb, range),
            prior is Ok ==> stores < usize::MAX,
    {
        if stores < self.icb_stores.len() {
            match self.icb_stores[stores] {
                IcbStoreAnswer::Stored { prior } => Ok(prior),
                IcbStoreAnswer::Refused(reason) => Err(IcbStoreRefusal::Refused(reason)),
            }
        } else {
            Err(IcbStoreRefusal::Unanswered { stores, icb, range })
        }
    }

    /// What a run of an indirect command buffer holds.
    pub fn resolve_icb_read(&self, query: IcbReadQuery) -> (read: Option<&IcbReadAnswer>)
        ensures
            match read {
                Some(read) => answer_of(self.icb_reads@, query) == Some(*read),
                None => answer_of(self.icb_reads@, query) is None,
            },
    {
        answer(&self.icb_reads, query)
    }

    /// The compute pipeline a reference names.
    pub fn resolve_compute_pipeline(&self, reference: u32) -> (pipeline: Option<
        ComputePipelineAnswer,
    >)
        ensures
            pipeline == answer_of(self.compute_pipelines@, reference),
    {
        answer_copied(&self.compute_pipelines, reference)
    }

    /// A kernel's translation.
    pub fn resolve_compute_translation(&self, query: TranslationQuery) -> (translation: Result<
        u64,
        ReplacementComputeTranslationAvailability,
    >)
        ensures
            translation == self.translation(query),
    {
        match answer_copied(&self.compute_translations, query) {
            None => Err(ReplacementComputeTranslationAvailability::Unanswered(query)),
            Some(TranslationAnswer::Unavailable(reason)) => Err(
                ReplacementComputeTranslationAvailability::Unavailable(reason),
            ),
            Some(TranslationAnswer::Ready(translation)) => Ok(translation),
        }
    }
}

/// What a condition table says of a reference.
pub open spec fn condition(table: Seq<(u32, ConditionAnswer)>, reference: u32) -> Result<
    u64,
    ConditionNamespaceError,
> {
    match answer_of(table, reference) {
        None => Err(ConditionNamespaceError::Unanswered(reference)),
        Some(ConditionAnswer::Refused(reason)) => Err(ConditionNamespaceError::Refused(reason)),
        Some(ConditionAnswer::Identity(identity)) => Ok(identity),
    }
}

fn resolve_condition(table: &Vec<(u32, ConditionAnswer)>, reference: u32) -> (found: Result<
    u64,
    ConditionNamespaceError,
>)
    ensures
        found == condition(table@, reference),
{
    match answer_copied(table, reference) {
        None => Err(ConditionNamespaceError::Unanswered(reference)),
        Some(ConditionAnswer::Refused(reason)) => Err(ConditionNamespaceError::Refused(reason)),
        Some(ConditionAnswer::Identity(identity)) => Ok(identity),
    }
}

impl Default for ReplacementRuntimeSession {
    /// A session that has been told nothing.
    fn default() -> (session: Self)
        ensures
            session.task == 0,
            session.declared == (DeclaredBits {
                render_stages: 0,
                fence_stages: 0,
                barrier_scopes: 0,
            }),
            session.resources@.len() == 0,
            session.heaps@.len() == 0,
            session.events@.len() == 0,
            session.fences@.len() == 0,
            session.buffers@.len() == 0,
            session.textures@.len() == 0,
            session.endpoints@.len() == 0,
            session.attachments@.len() == 0,
            session.samplers@.len() == 0,
            session.depth_stencils@.len() == 0,
            session.render_pipelines@.len() == 0,
            session.compute_pipelines@.len() == 0,
            session.compute_translations@.len() == 0,
            session.indirect_commands@.len() == 0,
            session.infos@.len() == 0,
            session.icb_reads@.len() == 0,
            session.constructions@.len() == 0,
            session.icb_stores@.len() == 0,
    {
        ReplacementRuntimeSession {
            task: 0,
            declared: DeclaredBits { render_stages: 0, fence_stages: 0, barrier_scopes: 0 },
            resources: Vec::new(),
            heaps: Vec::new(),
            events: Vec::new(),
            fences: Vec::new(),
            buffers: Vec::new(),
            textures: Vec::new(),
            endpoints: Vec::new(),
            attachments: Vec::new(),
            samplers: Vec::new(),
            depth_stencils: Vec::new(),
            render_pipelines: Vec::new(),
            compute_pipelines: Vec::new(),
            compute_translations: Vec::new(),
            indirect_commands: Vec::new(),
            infos: Vec::new(),
            icb_reads: Vec::new(),
            constructions: Vec::new(),
            icb_stores: Vec::new(),
        }
    }
}

/// A session answers a question with what its own table holds for that very
/// question, and refuses it with the table's reason or for want of an answer.
pub proof fn lemma_a_session_answers_from_its_tables(
    session: ReplacementRuntimeSession,
    reference: u32,
    offset: u64,
    length: Option<u64>,
    info: InfoOperation,
    operation: IndirectCommandOperation,
    translation: TranslationQuery,
    attachment: AttachmentQuery,
)
    ensures
        match session.buffer(reference, offset, length) {
            Ok(range) => answer_of(
                session.buffers@,
                BufferQuery { reference, offset, length },
            ) == Some(BufferAnswer::Range(range)),
            Err(ReplacementBufferRangeResolutionError::Unanswered(asked)) => asked == (
            BufferQuery { reference, offset, length }) && answer_of(session.buffers@, asked)
                is None,
            Err(ReplacementBufferRangeResolutionError::Refused(reason)) => answer_of(
                session.buffers@,
                BufferQuery { reference, offset, length },
            ) == Some(BufferAnswer::Refused(reason)),
        },
        match session.info(info) {
            Ok(query) => answer_of(session.infos@, info) == Some(InfoAnswer::Query(query)),
            Err(InfoResolutionError::Unanswered(asked)) => asked == info && answer_of(
                session.infos@,
                info,
            ) is None,
            Err(InfoResolutionError::Refused(reason)) => answer_of(session.infos@, info) == Some(
                InfoAnswer::Refused(reason),
            ),
        },
        session.indirect_command(operation) matches Ok(command) ==> answer_of(
            session.indirect_commands@,
            operation,
        ) == Some(IndirectCommandAnswer::Command(command)),
        session.translation(translation) matches Ok(kernel) ==> answer_of(
            session.compute_translations@,
            translation,
        ) == Some(TranslationAnswer::Ready(kernel)),
        session.attachment(attachment) matches Ok(target) ==> answer_of(
            session.attachments@,
            attachment,
        ) == Some(AttachmentAnswer::Target(target)),
        session.event(reference) matches Ok(event) ==> answer_of(session.events@, reference)
            == Some(ConditionAnswer::Identity(event)),
        session.fence(reference) matches Ok(fence) ==> answer_of(session.fences@, reference)
            == Some(ConditionAnswer::Identity(fence)),
        session.resource(reference) == answer_of(session.resources@, reference),
        session.heap(reference) == answer_of(session.heaps@, reference),
        session.depth_stencil(reference) == answer_of(session.depth_stencils@, reference),
{
}

/// A flag word holds only declared bits if and only if each of its bits is
/// declared.
pub proof fn lemma_declared_bits_are_declared_one_by_one(bits: u16, declared: u16, bit: u16)
    requires
        bit < 16,
        declared_only(bits, declared),
        bits & (1u16 << bit) != 0,
    ensures
        declared & (1u16 << bit) != 0,
{
    assert(bits & !declared == 0 && bit < 16 && bits & (1u16 << bit) != 0 ==> declared & (1u16
        << bit) != 0) by (bit_vector);
}

} // verus!
