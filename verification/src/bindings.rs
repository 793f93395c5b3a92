//! The shader arguments of a draw, resolved.
//!
//! A draw's two stages share descriptor bindings. Each binding resolves to one
//! thing; two stages that name different things at one binding are refused, and
//! two that name the same thing share its entry.

use vstd::prelude::*;

use crate::attachments::{RenderAttachmentRole, ReplacementRenderPassResolutionError};
use crate::command::Stage;
use crate::encoder_state::{
    ReplacementRenderBufferBinding, ReplacementRenderSamplerBinding, MAX_TEXTURE_BIND_SLOTS,
};
use crate::session::{
    BufferAnswer, BufferQuery, DescriptorUse, ExtentQuery, LinearRegion, ReflectedBinding, ReflectedBufferAccess,
    ReflectedSampledKind, ReflectedSampler, ReflectedTexture, ReflectedTextureAccess,
    RenderBufferIndexBounds, ReplacementBufferRangeResolutionError,
    ReplacementRenderSemanticAvailability, ReplacementRuntimeSession,
    ReplacementTextureResolutionError, ResolvedBufferRange, SampledImageKind, SamplerAnswer,
    SamplerResource, ShaderResourceKind, StageReflection, StorageImageAccess, TextureAnswer,
    TextureType,
    TextureView, VertexAttribute, VertexStep, null_sampler,
};
use crate::tables::{answer_copied, answer_of};

verus! {

/// The vertex stage in a stage mask.
pub const RENDER_STAGE_VERTEX: u32 = 1;

/// The fragment stage in a stage mask.
pub const RENDER_STAGE_FRAGMENT: u32 = 2;

/// Why a draw does not resolve.
#[derive(Clone, Copy, Debug, PartialEq, Eq, Structural)]
#[allow(inconsistent_fields)]
pub enum ReplacementRenderDrawResolutionError {
    NotDraw,
    OutsideEncoder,
    PipelineUnbound,
    Pipeline(ReplacementRenderSemanticAvailability),
    PrimitiveTopology(u32),
    RenderExtentOutOfRange,
    RenderExtentPastAttachment {
        role: RenderAttachmentRole,
        requested_width: u32,
        requested_height: u32,
        available_width: u32,
        available_height: u32,
    },
    RenderTargetArrayLengthUnsupported { length: u64 },
    DepthStencilStateMissing,
    ReflectedResourceUnrepresented { stage: Stage, index: u32, kind: ShaderResourceKind },
    ReflectedInterfaceUnrepresented { stage: Stage, feature: u32, count: u64 },
    SamplerMissing { stage: Stage, index: u32 },
    SamplerState(u32),
    SamplerBindingCollision(u32),
    Texture { stage: Stage, index: u32, reason: ReplacementTextureResolutionError },
    TextureShape { stage: Stage, index: u32, shape: ReflectedSampledKind },
    TextureShapeMismatch {
        stage: Stage,
        index: u32,
        expected: SampledImageKind,
        actual: TextureType,
    },
    TextureAccessUnknown { stage: Stage, index: u32 },
    StorageImageAccessMissing(u32),
    StorageImageAccessAmbiguous(u32),
    TextureBindingCollision { class: RenderBindingClass, binding: u32, array_element: u32 },
    BufferMissing { stage: Stage, index: u32 },
    Buffer { stage: Stage, index: u32, reason: ReplacementBufferRangeResolutionError },
    /// The reflection holds no answer to how far this argument is read.
    BufferExtentUnanswered { stage: Stage, query: ExtentQuery },
    BufferExtentPastBinding { stage: Stage, index: u32, required: u64, available: u64 },
    BufferBindingCollision(u32),
    VertexAttributeFormat { location: u32, reason: u32 },
    VertexStepFunction { location: u32, reason: u32 },
    VertexStepRate { location: u32, step_function: u32, step_rate: u32 },
    VertexBufferMissing(u32),
    DynamicVertexStrideOutOfRange { index: u32, bound: u64 },
    VertexBuffer { index: u32, reason: ReplacementBufferRangeResolutionError },
    VertexBindingCollision(u32),
    Attachment(ReplacementRenderPassResolutionError),
    IndexType(u32),
    IndexVertexOffsetOutOfRange,
    IndexRangeOverflow,
    IndexBuffer(ReplacementBufferRangeResolutionError),
    IndirectBuffer(ReplacementBufferRangeResolutionError),
    IndexedBufferMissing,
    VisibilityBufferMissing,
    VisibilityBuffer(ReplacementBufferRangeResolutionError),
}

/// What a descriptor binding is for.
#[derive(Clone, Copy, Debug, PartialEq, Eq, Structural)]
pub enum RenderBindingClass {
    SampledImage,
    StorageImage,
    StorageBuffer,
    VertexBuffer,
    IndexBuffer,
    IndirectBuffer,
}

/// How an operation touches what it names.
#[derive(Clone, Copy, Debug, PartialEq, Eq, Structural)]
pub enum AccessMode {
    Read,
    Write,
    ReadWrite,
    Unknown,
}

/// How a shader sees what is bound.
#[derive(Clone, Copy, Debug, PartialEq, Eq, Structural)]
pub enum RenderBindingView {
    Image(TextureView),
    Buffer(LinearRegion),
}

/// The part of a backing that an access touches.
#[derive(Clone, Copy, Debug, PartialEq, Eq, Structural)]
pub enum BackingRegion {
    Whole,
    Linear(LinearRegion),
}

/// One resource a draw reads or writes.
#[derive(Clone, Copy, Debug, PartialEq, Eq, Structural)]
pub struct ResolvedRenderResourceBinding {
    pub class: RenderBindingClass,
    pub binding: u32,
    pub array_element: u32,
    pub descriptor_count: u32,
    pub stages: u32,
    pub resource: u64,
    pub backing: u64,
    pub view: RenderBindingView,
    pub region: BackingRegion,
    pub mode: AccessMode,
}

/// One binding a draw leaves empty.
#[derive(Clone, Copy, Debug, PartialEq, Eq, Structural)]
pub struct ResolvedRenderNullBinding {
    pub class: RenderBindingClass,
    pub binding: u32,
    pub array_element: u32,
    pub descriptor_count: u32,
    pub stages: u32,
}

/// One sampler a draw uses.
#[derive(Clone, Copy, Debug, PartialEq, Eq, Structural)]
pub struct ResolvedRenderSamplerBinding {
    pub binding: u32,
    pub array_element: u32,
    pub descriptor_count: u32,
    pub stages: u32,
    pub sampler: SamplerResource,
}

/// The stride of one vertex buffer.
#[derive(Clone, Copy, Debug, PartialEq, Eq, Structural)]
pub struct ResolvedVertexBufferLayout {
    pub binding: u32,
    pub stride: u32,
}

/// The mask that holds one stage.
pub open spec fn stage_mask(stage: Stage) -> u32 {
    match stage {
        Stage::Vertex => RENDER_STAGE_VERTEX,
        Stage::Fragment => RENDER_STAGE_FRAGMENT,
        Stage::Unknown => 0,
    }
}

/// The mask that holds one stage.
pub fn render_stage_bits(stage: Stage) -> (mask: u32)
    requires
        !(stage is Unknown),
    ensures
        mask == stage_mask(stage),
{
    match stage {
        Stage::Vertex => RENDER_STAGE_VERTEX,
        Stage::Fragment => RENDER_STAGE_FRAGMENT,
        Stage::Unknown => 0,
    }
}

/// What two accesses to one thing amount to.
pub open spec fn joined_access(left: AccessMode, right: AccessMode) -> AccessMode {
    if left is Unknown || right is Unknown {
        AccessMode::Unknown
    } else if left == right {
        left
    } else {
        AccessMode::ReadWrite
    }
}

/// What two accesses to one thing amount to.
pub fn join_access(left: AccessMode, right: AccessMode) -> (mode: AccessMode)
    ensures
        mode == joined_access(left, right),
{
    match (left, right) {
        (AccessMode::Unknown, _) | (_, AccessMode::Unknown) => AccessMode::Unknown,
        (AccessMode::ReadWrite, _) | (_, AccessMode::ReadWrite) => AccessMode::ReadWrite,
        (AccessMode::Read, AccessMode::Write) | (AccessMode::Write, AccessMode::Read) => {
            AccessMode::ReadWrite
        },
        (left, _) => left,
    }
}

// Samplers.

/// Where the list holds a binding.
pub open spec fn sampler_position(list: Seq<ResolvedRenderSamplerBinding>, binding: u32) -> Option<
    int,
>
    decreases list.len(),
{
    if list.len() == 0 {
        None
    } else {
        match sampler_position(list.drop_last(), binding) {
            Some(position) => Some(position),
            None => if list.last().binding == binding {
                Some(list.len() - 1)
            } else {
                None
            },
        }
    }
}

/// The sampler that a stage's reflected sampler stands for: the one compiled
/// into the shader, else the bound one with its clamp, else none.
pub open spec fn reflected_sampler(
    session: ReplacementRuntimeSession,
    stage: Stage,
    table: Seq<Option<ReplacementRenderSamplerBinding>>,
    reflected: ReflectedSampler,
) -> Result<SamplerResource, ReplacementRenderDrawResolutionError> {
    match reflected.static_state {
        Some(SamplerAnswer::Refused(reason)) => Err(
            ReplacementRenderDrawResolutionError::SamplerState(reason),
        ),
        Some(SamplerAnswer::Sampler(sampler)) => Ok(
            SamplerResource { binding: reflected.binding, ..sampler },
        ),
        None => if reflected.metal_index < table.len() && table[reflected.metal_index as int] is Some {
            let bound = table[reflected.metal_index as int]->0;
            match answer_of(session.samplers@, bound.reference) {
                None => Err(
                    ReplacementRenderDrawResolutionError::SamplerMissing {
                        stage,
                        index: reflected.metal_index,
                    },
                ),
                Some(SamplerAnswer::Refused(reason)) => Err(
                    ReplacementRenderDrawResolutionError::SamplerState(reason),
                ),
                Some(SamplerAnswer::Sampler(sampler)) => Ok(
                    match bound.lod_clamp {
                        None => SamplerResource { binding: reflected.binding, ..sampler },
                        Some((lod_min, lod_max)) => SamplerResource {
                            binding: reflected.binding,
                            lod_min,
                            lod_max,
                            ..sampler
                        },
                    },
                ),
            }
        } else {
            Ok(null_sampler(reflected.binding))
        },
    }
}

/// The list with one more stage's use of a sampler.
pub open spec fn with_sampler(
    list: Seq<ResolvedRenderSamplerBinding>,
    stage: Stage,
    sampler: SamplerResource,
) -> Result<Seq<ResolvedRenderSamplerBinding>, ReplacementRenderDrawResolutionError> {
    match sampler_position(list, sampler.binding) {
        Some(p) => if list[p].sampler != sampler {
            Err(ReplacementRenderDrawResolutionError::SamplerBindingCollision(sampler.binding))
        } else {
            Ok(
                list.update(
                    p,
                    ResolvedRenderSamplerBinding {
                        stages: list[p].stages | stage_mask(stage),
                        ..list[p]
                    },
                ),
            )
        },
        None => Ok(
            list.push(
                ResolvedRenderSamplerBinding {
                    binding: sampler.binding,
                    array_element: 0,
                    descriptor_count: 1,
                    stages: stage_mask(stage),
                    sampler,
                },
            ),
        ),
    }
}

/// The list with a stage's reflected samplers, in order, or the first refusal.
pub open spec fn with_stage_samplers(
    session: ReplacementRuntimeSession,
    list: Seq<ResolvedRenderSamplerBinding>,
    stage: Stage,
    table: Seq<Option<ReplacementRenderSamplerBinding>>,
    reflected: Seq<ReflectedSampler>,
) -> Result<Seq<ResolvedRenderSamplerBinding>, ReplacementRenderDrawResolutionError>
    decreases reflected.len(),
{
    if reflected.len() == 0 {
        Ok(list)
    } else {
        match with_stage_samplers(session, list, stage, table, reflected.drop_last()) {
            Err(error) => Err(error),
            Ok(done) => match reflected_sampler(session, stage, table, reflected.last()) {
                Err(error) => Err(error),
                Ok(sampler) => with_sampler(done, stage, sampler),
            },
        }
    }
}

/// The samplers of a draw: the vertex stage's, then the fragment stage's.
pub open spec fn draw_samplers(
    session: ReplacementRuntimeSession,
    vertex: StageReflection,
    fragment: StageReflection,
    vertex_table: Seq<Option<ReplacementRenderSamplerBinding>>,
    fragment_table: Seq<Option<ReplacementRenderSamplerBinding>>,
) -> Result<Seq<ResolvedRenderSamplerBinding>, ReplacementRenderDrawResolutionError> {
    match with_stage_samplers(
        session,
        Seq::empty(),
        Stage::Vertex,
        vertex_table,
        vertex.samplers@,
    ) {
        Err(error) => Err(error),
        Ok(list) => with_stage_samplers(
            session,
            list,
            Stage::Fragment,
            fragment_table,
            fragment.samplers@,
        ),
    }
}

fn find_sampler(list: &Vec<ResolvedRenderSamplerBinding>, binding: u32) -> (found: Option<usize>)
    ensures
        match found {
            Some(position) => position < list@.len() && sampler_position(list@, binding) == Some(
                position as int,
            ),
            None => sampler_position(list@, binding) is None,
        },
{
    let mut i: usize = 0;
    while i < list.len()
        invariant
            i <= list@.len(),
            sampler_position(list@.take(i as int), binding) is None,
        decreases list.len() - i,
    {
        assert(list@.take(i as int + 1).drop_last() =~= list@.take(i as int));
        if list[i].binding == binding {
            proof {
                lemma_sampler_position_of_a_prefix(list@, binding, i as int + 1);
            }
            return Some(i);
        }
        i += 1;
    }
    assert(list@.take(i as int) =~= list@);
    None
}

proof fn lemma_sampler_position_of_a_prefix(
    list: Seq<ResolvedRenderSamplerBinding>,
    binding: u32,
    n: int,
)
    requires
        0 <= n <= list.len(),
        sampler_position(list.take(n), binding) is Some,
    ensures
        sampler_position(list, binding) == sampler_position(list.take(n), binding),
    decreases list.len() - n,
{
    if n == list.len() {
        assert(list.take(n) =~= list);
    } else {
        assert(list.take(n + 1).drop_last() =~= list.take(n));
        lemma_sampler_position_of_a_prefix(list, binding, n + 1);
    }
}

proof fn lemma_sampler_refusal_of_a_prefix(
    session: ReplacementRuntimeSession,
    list: Seq<ResolvedRenderSamplerBinding>,
    stage: Stage,
    table: Seq<Option<ReplacementRenderSamplerBinding>>,
    reflected: Seq<ReflectedSampler>,
    n: int,
)
    requires
        0 <= n <= reflected.len(),
        with_stage_samplers(session, list, stage, table, reflected.take(n)) is Err,
    ensures
        with_stage_samplers(session, list, stage, table, reflected) == with_stage_samplers(
            session,
            list,
            stage,
            table,
            reflected.take(n),
        ),
    decreases reflected.len() - n,
{
    if n == reflected.len() {
        assert(reflected.take(n) =~= reflected);
    } else {
        assert(reflected.take(n + 1).drop_last() =~= reflected.take(n));
        lemma_sampler_refusal_of_a_prefix(session, list, stage, table, reflected, n + 1);
    }
}

fn resolve_reflected_sampler(
    session: &ReplacementRuntimeSession,
    stage: Stage,
    table: &Vec<Option<ReplacementRenderSamplerBinding>>,
    reflected: ReflectedSampler,
) -> (sampler: Result<SamplerResource, ReplacementRenderDrawResolutionError>)
    ensures
        sampler == reflected_sampler(*session, stage, table@, reflected),
{
    if let Some(static_state) = reflected.static_state {
        return match static_state {
            SamplerAnswer::Refused(reason) => Err(
                ReplacementRenderDrawResolutionError::SamplerState(reason),
            ),
            SamplerAnswer::Sampler(mut sampler) => {
                sampler.binding = reflected.binding;
                Ok(sampler)
            },
        };
    }
    let bound = if (reflected.metal_index as usize) < table.len() {
        table[reflected.metal_index as usize]
    } else {
        None
    };
    match bound {
        None => Ok(SamplerResource::null(reflected.binding)),
        Some(bound) => match session.resolve_sampler(bound.reference) {
            None => Err(
                ReplacementRenderDrawResolutionError::SamplerMissing {
                    stage,
                    index: reflected.metal_index,
                },
            ),
            Some(SamplerAnswer::Refused(reason)) => Err(
                ReplacementRenderDrawResolutionError::SamplerState(reason),
            ),
            Some(SamplerAnswer::Sampler(mut sampler)) => {
                if let Some((lod_min, lod_max)) = bound.lod_clamp {
                    sampler.lod_min = lod_min;
                    sampler.lod_max = lod_max;
                }
                sampler.binding = reflected.binding;
                Ok(sampler)
            },
        },
    }
}

fn resolve_stage_samplers(
    session: &ReplacementRuntimeSession,
    resolved: &mut Vec<ResolvedRenderSamplerBinding>,
    stage: Stage,
    table: &Vec<Option<ReplacementRenderSamplerBinding>>,
    reflected: &Vec<ReflectedSampler>,
) -> (result: Result<(), ReplacementRenderDrawResolutionError>)
    requires
        !(stage is Unknown),
    ensures
        match result {
            Ok(_) => with_stage_samplers(*session, old(resolved)@, stage, table@, reflected@)
                == Ok::<Seq<ResolvedRenderSamplerBinding>, ReplacementRenderDrawResolutionError>(
                final(resolved)@,
            ),
            Err(error) => with_stage_samplers(
                *session,
                old(resolved)@,
                stage,
                table@,
                reflected@,
            ) == Err::<Seq<ResolvedRenderSamplerBinding>, ReplacementRenderDrawResolutionError>(
                error,
            ),
        },
{
    let ghost before = resolved@;
    let mut i: usize = 0;
    while i < reflected.len()
        invariant
            before == old(resolved)@,
            !(stage is Unknown),
            i <= reflected@.len(),
            with_stage_samplers(*session, before, stage, table@, reflected@.take(i as int)) == Ok::<
                Seq<ResolvedRenderSamplerBinding>,
                ReplacementRenderDrawResolutionError,
            >(resolved@),
        decreases reflected.len() - i,
    {
        assert(reflected@.take(i as int + 1).drop_last() =~= reflected@.take(i as int));
        match resolve_reflected_sampler(session, stage, table, reflected[i]) {
            Err(error) => {
                proof {
                    lemma_sampler_refusal_of_a_prefix(
                        *session,
                        before,
                        stage,
                        table@,
                        reflected@,
                        i as int + 1,
                    );
                }
                return Err(error);
            },
            Ok(sampler) => match find_sampler(resolved, sampler.binding) {
                Some(position) => {
                    let mut entry = resolved[position];
                    if entry.sampler != sampler {
                        proof {
                            lemma_sampler_refusal_of_a_prefix(
                                *session,
                                before,
                                stage,
                                table@,
                                reflected@,
                                i as int + 1,
                            );
                        }
                        return Err(
                            ReplacementRenderDrawResolutionError::SamplerBindingCollision(
                                sampler.binding,
                            ),
                        );
                    }
                    entry.stages = entry.stages | render_stage_bits(stage);
                    resolved.set(position, entry);
                },
                None => resolved.push(
                    ResolvedRenderSamplerBinding {
                        binding: sampler.binding,
                        array_element: 0,
                        descriptor_count: 1,
                        stages: render_stage_bits(stage),
                        sampler,
                    },
                ),
            },
        }
        i += 1;
    }
    assert(reflected@.take(i as int) =~= reflected@);
    Ok(())
}

/// Resolves the samplers of a draw.
pub fn resolve_render_samplers(
    session: &ReplacementRuntimeSession,
    vertex: &StageReflection,
    fragment: &StageReflection,
    vertex_table: &Vec<Option<ReplacementRenderSamplerBinding>>,
    fragment_table: &Vec<Option<ReplacementRenderSamplerBinding>>,
) -> (samplers: Result<
    Vec<ResolvedRenderSamplerBinding>,
    ReplacementRenderDrawResolutionError,
>)
    ensures
        match samplers {
            Ok(samplers) => draw_samplers(
                *session,
                *vertex,
                *fragment,
                vertex_table@,
                fragment_table@,
            ) == Ok::<Seq<ResolvedRenderSamplerBinding>, ReplacementRenderDrawResolutionError>(
                samplers@,
            ),
            Err(error) => draw_samplers(
                *session,
                *vertex,
                *fragment,
                vertex_table@,
                fragment_table@,
            ) == Err::<Seq<ResolvedRenderSamplerBinding>, ReplacementRenderDrawResolutionError>(
                error,
            ),
        },
{
    let mut resolved: Vec<ResolvedRenderSamplerBinding> = Vec::new();
    resolve_stage_samplers(session, &mut resolved, Stage::Vertex, vertex_table, &vertex.samplers)?;
    resolve_stage_samplers(
        session,
        &mut resolved,
        Stage::Fragment,
        fragment_table,
        &fragment.samplers,
    )?;
    Ok(resolved)
}

// Resource lists.

/// Whether an entry sits at a descriptor location.
pub open spec fn at_location(
    entry: ResolvedRenderResourceBinding,
    class: RenderBindingClass,
    binding: u32,
    array_element: u32,
) -> bool {
    entry.class == class && entry.binding == binding && entry.array_element == array_element
}

/// Where the list holds a descriptor location.
pub open spec fn resource_position(
    list: Seq<ResolvedRenderResourceBinding>,
    class: RenderBindingClass,
    binding: u32,
    array_element: u32,
) -> Option<int>
    decreases list.len(),
{
    if list.len() == 0 {
        None
    } else {
        match resource_position(list.drop_last(), class, binding, array_element) {
            Some(position) => Some(position),
            None => if at_location(list.last(), class, binding, array_element) {
                Some(list.len() - 1)
            } else {
                None
            },
        }
    }
}

/// Where the list holds a descriptor location.
pub open spec fn null_position(
    list: Seq<ResolvedRenderNullBinding>,
    class: RenderBindingClass,
    binding: u32,
    array_element: u32,
) -> Option<int>
    decreases list.len(),
{
    if list.len() == 0 {
        None
    } else {
        match null_position(list.drop_last(), class, binding, array_element) {
            Some(position) => Some(position),
            None => if list.last().class == class && list.last().binding == binding
                && list.last().array_element == array_element {
                Some(list.len() - 1)
            } else {
                None
            },
        }
    }
}

/// Whether two entries name one and the same thing.
pub open spec fn same_thing(
    left: ResolvedRenderResourceBinding,
    right: ResolvedRenderResourceBinding,
) -> bool {
    &&& left.descriptor_count == right.descriptor_count
    &&& left.resource == right.resource
    &&& left.backing == right.backing
    &&& left.view == right.view
    &&& left.region == right.region
}

/// The list with one more use of a resource: a new entry, or a wider use of the
/// entry at its location, or a refusal where that entry is another thing.
pub open spec fn with_resource(
    list: Seq<ResolvedRenderResourceBinding>,
    candidate: ResolvedRenderResourceBinding,
    collision: ReplacementRenderDrawResolutionError,
) -> Result<Seq<ResolvedRenderResourceBinding>, ReplacementRenderDrawResolutionError> {
    match resource_position(
        list,
        candidate.class,
        candidate.binding,
        candidate.array_element,
    ) {
        Some(p) => if same_thing(list[p], candidate) {
            Ok(
                list.update(
                    p,
                    ResolvedRenderResourceBinding {
                        stages: list[p].stages | candidate.stages,
                        mode: joined_access(list[p].mode, candidate.mode),
                        ..list[p]
                    },
                ),
            )
        } else {
            Err(collision)
        },
        None => Ok(list.push(candidate)),
    }
}

proof fn lemma_resource_position_of_a_prefix(
    list: Seq<ResolvedRenderResourceBinding>,
    class: RenderBindingClass,
    binding: u32,
    array_element: u32,
    n: int,
)
    requires
        0 <= n <= list.len(),
        resource_position(list.take(n), class, binding, array_element) is Some,
    ensures
        resource_position(list, class, binding, array_element) == resource_position(
            list.take(n),
            class,
            binding,
            array_element,
        ),
    decreases list.len() - n,
{
    if n == list.len() {
        assert(list.take(n) =~= list);
    } else {
        assert(list.take(n + 1).drop_last() =~= list.take(n));
        lemma_resource_position_of_a_prefix(list, class, binding, array_element, n + 1);
    }
}

fn find_resource(
    list: &Vec<ResolvedRenderResourceBinding>,
    class: RenderBindingClass,
    binding: u32,
    array_element: u32,
) -> (found: Option<usize>)
    ensures
        match found {
            Some(position) => position < list@.len() && resource_position(
                list@,
                class,
                binding,
                array_element,
            ) == Some(position as int),
            None => resource_position(list@, class, binding, array_element) is None,
        },
{
    let mut i: usize = 0;
    while i < list.len()
        invariant
            i <= list@.len(),
            resource_position(list@.take(i as int), class, binding, array_element) is None,
        decreases list.len() - i,
    {
        assert(list@.take(i as int + 1).drop_last() =~= list@.take(i as int));
        if list[i].class == class && list[i].binding == binding && list[i].array_element
            == array_element {
            proof {
                lemma_resource_position_of_a_prefix(
                    list@,
                    class,
                    binding,
                    array_element,
                    i as int + 1,
                );
            }
            return Some(i);
        }
        i += 1;
    }
    assert(list@.take(i as int) =~= list@);
    None
}

proof fn lemma_null_position_of_a_prefix(
    list: Seq<ResolvedRenderNullBinding>,
    class: RenderBindingClass,
    binding: u32,
    array_element: u32,
    n: int,
)
    requires
        0 <= n <= list.len(),
        null_position(list.take(n), class, binding, array_element) is Some,
    ensures
        null_position(list, class, binding, array_element) == null_position(
            list.take(n),
            class,
            binding,
            array_element,
        ),
    decreases list.len() - n,
{
    if n == list.len() {
        assert(list.take(n) =~= list);
    } else {
        assert(list.take(n + 1).drop_last() =~= list.take(n));
        lemma_null_position_of_a_prefix(list, class, binding, array_element, n + 1);
    }
}

fn find_null(
    list: &Vec<ResolvedRenderNullBinding>,
    class: RenderBindingClass,
    binding: u32,
    array_element: u32,
) -> (found: Option<usize>)
    ensures
        match found {
            Some(position) => position < list@.len() && null_position(
                list@,
                class,
                binding,
                array_element,
            ) == Some(position as int),
            None => null_position(list@, class, binding, array_element) is None,
        },
{
    let mut i: usize = 0;
    while i < list.len()
        invariant
            i <= list@.len(),
            null_position(list@.take(i as int), class, binding, array_element) is None,
        decreases list.len() - i,
    {
        assert(list@.take(i as int + 1).drop_last() =~= list@.take(i as int));
        if list[i].class == class && list[i].binding == binding && list[i].array_element
            == array_element {
            proof {
                lemma_null_position_of_a_prefix(
                    list@,
                    class,
                    binding,
                    array_element,
                    i as int + 1,
                );
            }
            return Some(i);
        }
        i += 1;
    }
    assert(list@.take(i as int) =~= list@);
    None
}

/// Records one more use of a resource.
fn add_resource(
    list: &mut Vec<ResolvedRenderResourceBinding>,
    candidate: ResolvedRenderResourceBinding,
    collision: ReplacementRenderDrawResolutionError,
) -> (result: Result<(), ReplacementRenderDrawResolutionError>)
    ensures
        match result {
            Ok(_) => with_resource(old(list)@, candidate, collision) == Ok::<
                Seq<ResolvedRenderResourceBinding>,
                ReplacementRenderDrawResolutionError,
            >(final(list)@),
            Err(error) => {
                &&& with_resource(old(list)@, candidate, collision) == Err::<
                    Seq<ResolvedRenderResourceBinding>,
                    ReplacementRenderDrawResolutionError,
                >(error)
                &&& final(list)@ == old(list)@
            },
        },
{
    match find_resource(list, candidate.class, candidate.binding, candidate.array_element) {
        Some(position) => {
            let mut entry = list[position];
            if entry.descriptor_count != candidate.descriptor_count || entry.resource
                != candidate.resource || entry.backing != candidate.backing || entry.view
                != candidate.view || entry.region != candidate.region {
                return Err(collision);
            }
            entry.stages = entry.stages | candidate.stages;
            entry.mode = join_access(entry.mode, candidate.mode);
            list.set(position, entry);
        },
        None => list.push(candidate),
    }
    Ok(())
}

// Textures.

/// Whether a texture has the shape a shader samples.
pub open spec fn shape_matches(expected: SampledImageKind, actual: TextureType) -> bool {
    match expected {
        SampledImageKind::D1 => actual is D1,
        SampledImageKind::D1Array => actual is D1Array,
        SampledImageKind::D2 => actual is D2,
        SampledImageKind::D2Array => actual is D2Array,
        SampledImageKind::D2Multisample => actual is D2Multisample,
        SampledImageKind::Cube => actual is Cube,
        SampledImageKind::CubeArray => actual is CubeArray,
        SampledImageKind::D3 => actual is D3,
    }
}

/// Whether a texture has the shape a shader samples.
pub fn sampled_texture_type_matches(expected: SampledImageKind, actual: TextureType) -> (matching:
    bool)
    ensures
        matching == shape_matches(expected, actual),
{
    match (expected, actual) {
        (SampledImageKind::D1, TextureType::D1)
        | (SampledImageKind::D1Array, TextureType::D1Array)
        | (SampledImageKind::D2, TextureType::D2)
        | (SampledImageKind::D2Multisample, TextureType::D2Multisample)
        | (SampledImageKind::D2Array, TextureType::D2Array)
        | (SampledImageKind::D3, TextureType::D3)
        | (SampledImageKind::Cube, TextureType::Cube)
        | (SampledImageKind::CubeArray, TextureType::CubeArray) => true,
        _ => false,
    }
}

/// The images of a draw: what is bound, and what is left empty.
#[verifier::ext_equal]
pub struct TextureLists {
    pub resources: Seq<ResolvedRenderResourceBinding>,
    pub nulls: Seq<ResolvedRenderNullBinding>,
}

/// The class and access of a reflected texture.
pub open spec fn texture_access(
    reflection: StageReflection,
    stage: Stage,
    index: u32,
    texture: ReflectedTexture,
) -> Result<(RenderBindingClass, AccessMode), ReplacementRenderDrawResolutionError> {
    match texture.access {
        ReflectedTextureAccess::Sampled => Ok(
            (RenderBindingClass::SampledImage, AccessMode::Read),
        ),
        ReflectedTextureAccess::Unknown => Err(
            ReplacementRenderDrawResolutionError::TextureAccessUnknown { stage, index },
        ),
        ReflectedTextureAccess::Storage => match answer_of(
            reflection.storage_images@,
            texture.binding,
        ) {
            None => Err(
                ReplacementRenderDrawResolutionError::StorageImageAccessMissing(texture.binding),
            ),
            Some(StorageImageAccess::AmbiguousBinding) => Err(
                ReplacementRenderDrawResolutionError::StorageImageAccessAmbiguous(texture.binding),
            ),
            Some(StorageImageAccess::ReadOnly) => Ok(
                (RenderBindingClass::StorageImage, AccessMode::Read),
            ),
            Some(StorageImageAccess::WriteOnly) => Ok(
                (RenderBindingClass::StorageImage, AccessMode::Write),
            ),
            Some(StorageImageAccess::ReadWrite) => Ok(
                (RenderBindingClass::StorageImage, AccessMode::ReadWrite),
            ),
            Some(StorageImageAccess::Unknown) => Ok(
                (RenderBindingClass::StorageImage, AccessMode::Unknown),
            ),
        },
    }
}

/// The refusal of two things at one image location.
pub open spec fn texture_collision(class: RenderBindingClass, texture: ReflectedTexture)
    -> ReplacementRenderDrawResolutionError {
    ReplacementRenderDrawResolutionError::TextureBindingCollision {
        class,
        binding: texture.binding,
        array_element: texture.array_element,
    }
}

/// The lists with an image location left empty by one more stage.
pub open spec fn with_null_texture(
    lists: TextureLists,
    stage: Stage,
    class: RenderBindingClass,
    texture: ReflectedTexture,
) -> Result<TextureLists, ReplacementRenderDrawResolutionError> {
    if resource_position(
        lists.resources,
        class,
        texture.binding,
        texture.array_element,
    ) is Some {
        Err(texture_collision(class, texture))
    } else {
        match null_position(lists.nulls, class, texture.binding, texture.array_element) {
            Some(p) => if lists.nulls[p].descriptor_count != texture.descriptor_count {
                Err(texture_collision(class, texture))
            } else {
                Ok(
                    TextureLists {
                        nulls: lists.nulls.update(
                            p,
                            ResolvedRenderNullBinding {
                                stages: lists.nulls[p].stages | stage_mask(stage),
                                ..lists.nulls[p]
                            },
                        ),
                        ..lists
                    },
                )
            },
            None => Ok(
                TextureLists {
                    nulls: lists.nulls.push(
                        ResolvedRenderNullBinding {
                            class,
                            binding: texture.binding,
                            array_element: texture.array_element,
                            descriptor_count: texture.descriptor_count,
                            stages: stage_mask(stage),
                        },
                    ),
                    ..lists
                },
            ),
        }
    }
}

/// The lists with a bound image of one more stage.
pub open spec fn with_bound_texture(
    session: ReplacementRuntimeSession,
    lists: TextureLists,
    stage: Stage,
    index: u32,
    expected: SampledImageKind,
    class: RenderBindingClass,
    mode: AccessMode,
    texture: ReflectedTexture,
    reference: u32,
) -> Result<TextureLists, ReplacementRenderDrawResolutionError> {
    if null_position(lists.nulls, class, texture.binding, texture.array_element) is Some {
        Err(texture_collision(class, texture))
    } else {
        match session.texture(reference) {
            Err(reason) => Err(
                ReplacementRenderDrawResolutionError::Texture { stage, index, reason },
            ),
            Ok(resolved) => if !shape_matches(expected, resolved.view.texture_type) {
                Err(
                    ReplacementRenderDrawResolutionError::TextureShapeMismatch {
                        stage,
                        index,
                        expected,
                        actual: resolved.view.texture_type,
                    },
                )
            } else {
                match with_resource(
                    lists.resources,
                    ResolvedRenderResourceBinding {
                        class,
                        binding: texture.binding,
                        array_element: texture.array_element,
                        descriptor_count: texture.descriptor_count,
                        stages: stage_mask(stage),
                        resource: resolved.resource,
                        backing: resolved.backing,
                        view: RenderBindingView::Image(resolved.view),
                        region: BackingRegion::Whole,
                        mode,
                    },
                    texture_collision(class, texture),
                ) {
                    Err(error) => Err(error),
                    Ok(resources) => Ok(TextureLists { resources, ..lists }),
                }
            },
        }
    }
}

/// The lists with one argument-table index of one more stage.
pub open spec fn with_texture(
    session: ReplacementRuntimeSession,
    lists: TextureLists,
    stage: Stage,
    reflection: StageReflection,
    index: u32,
    bound: Option<u32>,
) -> Result<TextureLists, ReplacementRenderDrawResolutionError> {
    if index >= reflection.textures@.len() || reflection.textures@[index as int] is None {
        Ok(lists)
    } else {
        let texture = reflection.textures@[index as int]->0;
        match texture.shape {
            ReflectedSampledKind::Kind(expected) => match texture_access(
                reflection,
                stage,
                index,
                texture,
            ) {
                Err(error) => Err(error),
                Ok((class, mode)) => if bound is None || bound == Some(0u32) {
                    with_null_texture(lists, stage, class, texture)
                } else {
                    with_bound_texture(
                        session,
                        lists,
                        stage,
                        index,
                        expected,
                        class,
                        mode,
                        texture,
                        bound->0,
                    )
                },
            },
            shape => Err(
                ReplacementRenderDrawResolutionError::TextureShape { stage, index, shape },
            ),
        }
    }
}

/// The lists with the first `n` argument-table indices of one more stage, in
/// order, or the first refusal.
pub open spec fn with_stage_textures(
    session: ReplacementRuntimeSession,
    lists: TextureLists,
    stage: Stage,
    reflection: StageReflection,
    table: Seq<Option<u32>>,
    n: nat,
) -> Result<TextureLists, ReplacementRenderDrawResolutionError>
    decreases n,
{
    if n == 0 {
        Ok(lists)
    } else {
        match with_stage_textures(session, lists, stage, reflection, table, (n - 1) as nat) {
            Err(error) => Err(error),
            Ok(done) => with_texture(
                session,
                done,
                stage,
                reflection,
                (n - 1) as u32,
                table[n - 1],
            ),
        }
    }
}

/// The images of a draw: the vertex stage's, then the fragment stage's.
pub open spec fn draw_textures(
    session: ReplacementRuntimeSession,
    vertex: StageReflection,
    fragment: StageReflection,
    vertex_table: Seq<Option<u32>>,
    fragment_table: Seq<Option<u32>>,
) -> Result<TextureLists, ReplacementRenderDrawResolutionError> {
    match with_stage_textures(
        session,
        TextureLists { resources: Seq::empty(), nulls: Seq::empty() },
        Stage::Vertex,
        vertex,
        vertex_table,
        MAX_TEXTURE_BIND_SLOTS as nat,
    ) {
        Err(error) => Err(error),
        Ok(lists) => with_stage_textures(
            session,
            lists,
            Stage::Fragment,
            fragment,
            fragment_table,
            MAX_TEXTURE_BIND_SLOTS as nat,
        ),
    }
}

proof fn lemma_texture_refusal_of_a_prefix(
    session: ReplacementRuntimeSession,
    lists: TextureLists,
    stage: Stage,
    reflection: StageReflection,
    table: Seq<Option<u32>>,
    n: nat,
    m: nat,
)
    requires
        n <= m,
        with_stage_textures(session, lists, stage, reflection, table, n) is Err,
    ensures
        with_stage_textures(session, lists, stage, reflection, table, m) == with_stage_textures(
            session,
            lists,
            stage,
            reflection,
            table,
            n,
        ),
    decreases m - n,
{
    if n < m {
        lemma_texture_refusal_of_a_prefix(
            session,
            lists,
            stage,
            reflection,
            table,
            n,
            (m - 1) as nat,
        );
    }
}

/// The images of a draw.
#[derive(Debug, PartialEq, Eq)]
pub struct ReplacementResolvedRenderTextures {
    pub resources: Vec<ResolvedRenderResourceBinding>,
    pub null_bindings: Vec<ResolvedRenderNullBinding>,
}

impl View for ReplacementResolvedRenderTextures {
    type V = TextureLists;

    open spec fn view(&self) -> TextureLists {
        TextureLists { resources: self.resources@, nulls: self.null_bindings@ }
    }
}

fn resolve_texture_access(
    reflection: &StageReflection,
    stage: Stage,
    index: u32,
    texture: ReflectedTexture,
) -> (access: Result<(RenderBindingClass, AccessMode), ReplacementRenderDrawResolutionError>)
    ensures
        access == texture_access(*reflection, stage, index, texture),
{
    match texture.access {
        ReflectedTextureAccess::Sampled => Ok(
            (RenderBindingClass::SampledImage, AccessMode::Read),
        ),
        ReflectedTextureAccess::Storage => {
            let mode = match answer_copied(&reflection.storage_images, texture.binding) {
                None => {
                    return Err(
                        ReplacementRenderDrawResolutionError::StorageImageAccessMissing(
                            texture.binding,
                        ),
                    );
                },
                Some(StorageImageAccess::AmbiguousBinding) => {
                    return Err(
                        ReplacementRenderDrawResolutionError::StorageImageAccessAmbiguous(
                            texture.binding,
                        ),
                    );
                },
                Some(StorageImageAccess::ReadOnly) => AccessMode::Read,
                Some(StorageImageAccess::WriteOnly) => AccessMode::Write,
                Some(StorageImageAccess::ReadWrite) => AccessMode::ReadWrite,
                Some(StorageImageAccess::Unknown) => AccessMode::Unknown,
            };
            Ok((RenderBindingClass::StorageImage, mode))
        },
        ReflectedTextureAccess::Unknown => Err(
            ReplacementRenderDrawResolutionError::TextureAccessUnknown { stage, index },
        ),
    }
}

fn resolve_texture_slot(
    session: &ReplacementRuntimeSession,
    lists: &mut ReplacementResolvedRenderTextures,
    stage: Stage,
    reflection: &StageReflection,
    index: u32,
    bound: Option<u32>,
) -> (result: Result<(), ReplacementRenderDrawResolutionError>)
    requires
        !(stage is Unknown),
    ensures
        match result {
            Ok(_) => with_texture(*session, old(lists)@, stage, *reflection, index, bound) == Ok::<
                TextureLists,
                ReplacementRenderDrawResolutionError,
            >(final(lists)@),
            Err(error) => with_texture(
                *session,
                old(lists)@,
                stage,
                *reflection,
                index,
                bound,
            ) == Err::<TextureLists, ReplacementRenderDrawResolutionError>(error),
        },
{
    if index as usize >= reflection.textures.len() {
        return Ok(());
    }
    let texture = match reflection.textures[index as usize] {
        None => {
            return Ok(());
        },
        Some(texture) => texture,
    };
    let expected = match texture.shape {
        ReflectedSampledKind::Kind(kind) => kind,
        shape => {
            return Err(ReplacementRenderDrawResolutionError::TextureShape { stage, index, shape });
        },
    };
    let (class, mode) = match resolve_texture_access(reflection, stage, index, texture) {
        Ok(access) => access,
        Err(error) => {
            return Err(error);
        },
    };
    let collision = ReplacementRenderDrawResolutionError::TextureBindingCollision {
        class,
        binding: texture.binding,
        array_element: texture.array_element,
    };
    let reference: u32 = match bound {
        Some(reference) => reference,
        None => 0,
    };
    let null = find_null(&lists.null_bindings, class, texture.binding, texture.array_element);
    if reference == 0 {
        if find_resource(
            &lists.resources,
            class,
            texture.binding,
            texture.array_element,
        ).is_some() {
            return Err(collision);
        }
        match null {
            Some(position) => {
                let mut entry = lists.null_bindings[position];
                if entry.descriptor_count != texture.descriptor_count {
                    return Err(collision);
                }
                entry.stages = entry.stages | render_stage_bits(stage);
                lists.null_bindings.set(position, entry);
            },
            None => lists.null_bindings.push(
                ResolvedRenderNullBinding {
                    class,
                    binding: texture.binding,
                    array_element: texture.array_element,
                    descriptor_count: texture.descriptor_count,
                    stages: render_stage_bits(stage),
                },
            ),
        }
        return Ok(());
    }
    if null.is_some() {
        return Err(collision);
    }
    let resolved = match session.resolve_texture_binding(reference) {
        Ok(resolved) => resolved,
        Err(reason) => {
            return Err(ReplacementRenderDrawResolutionError::Texture { stage, index, reason });
        },
    };
    if !sampled_texture_type_matches(expected, resolved.view.texture_type) {
        return Err(
            ReplacementRenderDrawResolutionError::TextureShapeMismatch {
                stage,
                index,
                expected,
                actual: resolved.view.texture_type,
            },
        );
    }
    add_resource(
        &mut lists.resources,
        ResolvedRenderResourceBinding {
            class,
            binding: texture.binding,
            array_element: texture.array_element,
            descriptor_count: texture.descriptor_count,
            stages: render_stage_bits(stage),
            resource: resolved.resource,
            backing: resolved.backing,
            view: RenderBindingView::Image(resolved.view),
            region: BackingRegion::Whole,
            mode,
        },
        collision,
    )
}

fn resolve_stage_textures(
    session: &ReplacementRuntimeSession,
    lists: &mut ReplacementResolvedRenderTextures,
    stage: Stage,
    reflection: &StageReflection,
    table: &Vec<Option<u32>>,
) -> (result: Result<(), ReplacementRenderDrawResolutionError>)
    requires
        !(stage is Unknown),
        table@.len() == MAX_TEXTURE_BIND_SLOTS,
    ensures
        match result {
            Ok(_) => with_stage_textures(
                *session,
                old(lists)@,
                stage,
                *reflection,
                table@,
                MAX_TEXTURE_BIND_SLOTS as nat,
            ) == Ok::<TextureLists, ReplacementRenderDrawResolutionError>(final(lists)@),
            Err(error) => with_stage_textures(
                *session,
                old(lists)@,
                stage,
                *reflection,
                table@,
                MAX_TEXTURE_BIND_SLOTS as nat,
            ) == Err::<TextureLists, ReplacementRenderDrawResolutionError>(error),
        },
{
    let ghost before = lists@;
    let mut index: u32 = 0;
    while index < MAX_TEXTURE_BIND_SLOTS
        invariant
            before == old(lists)@,
            !(stage is Unknown),
            index <= MAX_TEXTURE_BIND_SLOTS,
            table@.len() == MAX_TEXTURE_BIND_SLOTS,
            with_stage_textures(*session, before, stage, *reflection, table@, index as nat) == Ok::<
                TextureLists,
                ReplacementRenderDrawResolutionError,
            >(lists@),
        decreases MAX_TEXTURE_BIND_SLOTS - index,
    {
        if let Err(error) = resolve_texture_slot(
            session,
            lists,
            stage,
            reflection,
            index,
            table[index as usize],
        ) {
            proof {
                lemma_texture_refusal_of_a_prefix(
                    *session,
                    before,
                    stage,
                    *reflection,
                    table@,
                    (index + 1) as nat,
                    MAX_TEXTURE_BIND_SLOTS as nat,
                );
            }
            return Err(error);
        }
        index += 1;
    }
    Ok(())
}

/// Resolves the images of a draw.
pub fn resolve_render_textures(
    session: &ReplacementRuntimeSession,
    vertex: &StageReflection,
    fragment: &StageReflection,
    vertex_table: &Vec<Option<u32>>,
    fragment_table: &Vec<Option<u32>>,
) -> (textures: Result<ReplacementResolvedRenderTextures, ReplacementRenderDrawResolutionError>)
    requires
        vertex_table@.len() == MAX_TEXTURE_BIND_SLOTS,
        fragment_table@.len() == MAX_TEXTURE_BIND_SLOTS,
    ensures
        match textures {
            Ok(textures) => draw_textures(
                *session,
                *vertex,
                *fragment,
                vertex_table@,
                fragment_table@,
            ) == Ok::<TextureLists, ReplacementRenderDrawResolutionError>(textures@),
            Err(error) => draw_textures(
                *session,
                *vertex,
                *fragment,
                vertex_table@,
                fragment_table@,
            ) == Err::<TextureLists, ReplacementRenderDrawResolutionError>(error),
        },
{
    let mut lists = ReplacementResolvedRenderTextures {
        resources: Vec::new(),
        null_bindings: Vec::new(),
    };
    assert(lists@ =~= (TextureLists { resources: Seq::empty(), nulls: Seq::empty() }));
    resolve_stage_textures(session, &mut lists, Stage::Vertex, vertex, vertex_table)?;
    resolve_stage_textures(session, &mut lists, Stage::Fragment, fragment, fragment_table)?;
    Ok(lists)
}

// Buffers.

/// The access a reflected buffer is bound for; `None` where it needs no bind.
pub open spec fn buffer_mode(reflected: ReflectedBinding) -> Option<AccessMode> {
    match reflected.buffer_access {
        ReflectedBufferAccess::ReadOnly => Some(AccessMode::Read),
        ReflectedBufferAccess::Writable => Some(AccessMode::ReadWrite),
        ReflectedBufferAccess::Unknown | ReflectedBufferAccess::Absent => Some(AccessMode::Unknown),
        ReflectedBufferAccess::Unused => None,
    }
}

/// The run of a bound buffer that a draw reads: to the bytes its shader is
/// bounded by, or to the buffer's end where nothing bounds it.
pub open spec fn buffer_run(
    session: ReplacementRuntimeSession,
    stage: Stage,
    index: u32,
    bound: ReplacementRenderBufferBinding,
    required: Option<u64>,
) -> Result<ResolvedBufferRange, ReplacementRenderDrawResolutionError> {
    match session.buffer(bound.reference, bound.offset, None) {
        Err(reason) => Err(ReplacementRenderDrawResolutionError::Buffer { stage, index, reason }),
        Ok(available) => if required is None || required == Some(available.region.length) {
            Ok(available)
        } else if required->0 > available.region.length {
            Err(
                ReplacementRenderDrawResolutionError::BufferExtentPastBinding {
                    stage,
                    index,
                    required: required->0,
                    available: available.region.length,
                },
            )
        } else {
            match session.buffer(bound.reference, bound.offset, required) {
                Err(reason) => Err(
                    ReplacementRenderDrawResolutionError::Buffer { stage, index, reason },
                ),
                Ok(range) => Ok(range),
            }
        },
    }
}

/// The run of a bound buffer that a draw reads, as far as its stage's reflection
/// says.
pub open spec fn buffer_extent_run(
    session: ReplacementRuntimeSession,
    stage: Stage,
    reflection: StageReflection,
    bound: ReplacementRenderBufferBinding,
    query: ExtentQuery,
) -> Result<ResolvedBufferRange, ReplacementRenderDrawResolutionError> {
    match answer_of(reflection.buffer_extents@, query) {
        None => Err(ReplacementRenderDrawResolutionError::BufferExtentUnanswered { stage, query }),
        Some(required) => buffer_run(session, stage, query.metal_index, bound, required),
    }
}

/// The list with one reflected buffer of one more stage.
pub open spec fn with_buffer(
    session: ReplacementRuntimeSession,
    list: Seq<ResolvedRenderResourceBinding>,
    stage: Stage,
    reflection: StageReflection,
    table: Seq<Option<ReplacementRenderBufferBinding>>,
    bounds: RenderBufferIndexBounds,
    reflected: ReflectedBinding,
) -> Result<Seq<ResolvedRenderResourceBinding>, ReplacementRenderDrawResolutionError> {
    let index = reflected.metal_index;
    if !(reflected.kind is Buffer) || !(reflected.buffer_use is Used) {
        Ok(list)
    } else if index >= table.len() || table[index as int] is None {
        Err(ReplacementRenderDrawResolutionError::BufferMissing { stage, index })
    } else {
        match buffer_mode(reflected) {
            None => Ok(list),
            Some(mode) => match buffer_extent_run(
                session,
                stage,
                reflection,
                table[index as int]->0,
                ExtentQuery { metal_index: index, bounds },
            ) {
                Err(error) => Err(error),
                Ok(range) => with_resource(
                    list,
                    ResolvedRenderResourceBinding {
                        class: RenderBindingClass::StorageBuffer,
                        binding: reflected.buffer_binding,
                        array_element: 0,
                        descriptor_count: 1,
                        stages: stage_mask(stage),
                        resource: range.resource,
                        backing: range.storage,
                        view: RenderBindingView::Buffer(range.region),
                        region: BackingRegion::Linear(range.region),
                        mode,
                    },
                    ReplacementRenderDrawResolutionError::BufferBindingCollision(
                        reflected.buffer_binding,
                    ),
                ),
            },
        }
    }
}

/// The list with the first `n` reflected bindings of one more stage, in order,
/// or the first refusal.
pub open spec fn with_stage_buffers(
    session: ReplacementRuntimeSession,
    list: Seq<ResolvedRenderResourceBinding>,
    stage: Stage,
    reflection: StageReflection,
    table: Seq<Option<ReplacementRenderBufferBinding>>,
    bounds: RenderBufferIndexBounds,
    n: nat,
) -> Result<Seq<ResolvedRenderResourceBinding>, ReplacementRenderDrawResolutionError>
    decreases n,
{
    if n == 0 {
        Ok(list)
    } else {
        match with_stage_buffers(
            session,
            list,
            stage,
            reflection,
            table,
            bounds,
            (n - 1) as nat,
        ) {
            Err(error) => Err(error),
            Ok(done) => with_buffer(
                session,
                done,
                stage,
                reflection,
                table,
                bounds,
                reflection.bindings@[n - 1],
            ),
        }
    }
}

/// The buffers of a draw: the vertex stage's, then the fragment stage's.
pub open spec fn draw_buffers(
    session: ReplacementRuntimeSession,
    vertex: StageReflection,
    fragment: StageReflection,
    vertex_table: Seq<Option<ReplacementRenderBufferBinding>>,
    fragment_table: Seq<Option<ReplacementRenderBufferBinding>>,
    bounds: RenderBufferIndexBounds,
) -> Result<Seq<ResolvedRenderResourceBinding>, ReplacementRenderDrawResolutionError> {
    match with_stage_buffers(
        session,
        Seq::empty(),
        Stage::Vertex,
        vertex,
        vertex_table,
        bounds,
        vertex.bindings@.len(),
    ) {
        Err(error) => Err(error),
        Ok(list) => with_stage_buffers(
            session,
            list,
            Stage::Fragment,
            fragment,
            fragment_table,
            bounds,
            fragment.bindings@.len(),
        ),
    }
}

proof fn lemma_buffer_refusal_of_a_prefix(
    session: ReplacementRuntimeSession,
    list: Seq<ResolvedRenderResourceBinding>,
    stage: Stage,
    reflection: StageReflection,
    table: Seq<Option<ReplacementRenderBufferBinding>>,
    bounds: RenderBufferIndexBounds,
    n: nat,
    m: nat,
)
    requires
        n <= m,
        with_stage_buffers(session, list, stage, reflection, table, bounds, n) is Err,
    ensures
        with_stage_buffers(session, list, stage, reflection, table, bounds, m)
            == with_stage_buffers(session, list, stage, reflection, table, bounds, n),
    decreases m - n,
{
    if n < m {
        lemma_buffer_refusal_of_a_prefix(
            session,
            list,
            stage,
            reflection,
            table,
            bounds,
            n,
            (m - 1) as nat,
        );
    }
}

fn resolve_buffer_run(
    session: &ReplacementRuntimeSession,
    stage: Stage,
    index: u32,
    bound: ReplacementRenderBufferBinding,
    required: Option<u64>,
) -> (run: Result<ResolvedBufferRange, ReplacementRenderDrawResolutionError>)
    ensures
        run == buffer_run(*session, stage, index, bound, required),
{
    let available = match session.resolve_buffer_tail(bound.reference, bound.offset) {
        Ok(available) => available,
        Err(reason) => {
            return Err(ReplacementRenderDrawResolutionError::Buffer { stage, index, reason });
        },
    };
    let required: u64 = match required {
        None => {
            return Ok(available);
        },
        Some(required) => required,
    };
    if required == available.region.length {
        return Ok(available);
    }
    if required > available.region.length {
        return Err(
            ReplacementRenderDrawResolutionError::BufferExtentPastBinding {
                stage,
                index,
                required,
                available: available.region.length,
            },
        );
    }
    match session.resolve_buffer_range(bound.reference, bound.offset, required) {
        Ok(range) => Ok(range),
        Err(reason) => Err(ReplacementRenderDrawResolutionError::Buffer { stage, index, reason }),
    }
}

fn resolve_reflected_buffer(
    session: &ReplacementRuntimeSession,
    resources: &mut Vec<ResolvedRenderResourceBinding>,
    stage: Stage,
    reflection: &StageReflection,
    table: &Vec<Option<ReplacementRenderBufferBinding>>,
    bounds: RenderBufferIndexBounds,
    reflected: ReflectedBinding,
) -> (result: Result<(), ReplacementRenderDrawResolutionError>)
    requires
        !(stage is Unknown),
    ensures
        match result {
            Ok(_) => with_buffer(
                *session,
                old(resources)@,
                stage,
                *reflection,
                table@,
                bounds,
                reflected,
            ) == Ok::<Seq<ResolvedRenderResourceBinding>, ReplacementRenderDrawResolutionError>(
                final(resources)@,
            ),
            Err(error) => with_buffer(
                *session,
                old(resources)@,
                stage,
                *reflection,
                table@,
                bounds,
                reflected,
            ) == Err::<Seq<ResolvedRenderResourceBinding>, ReplacementRenderDrawResolutionError>(
                error,
            ),
        },
{
    let index: u32 = reflected.metal_index;
    if reflected.kind != ShaderResourceKind::Buffer || reflected.buffer_use
        != DescriptorUse::Used {
        return Ok(());
    }
    let bound = if (index as usize) < table.len() {
        table[index as usize]
    } else {
        None
    };
    let bound = match bound {
        Some(bound) => bound,
        None => {
            return Err(ReplacementRenderDrawResolutionError::BufferMissing { stage, index });
        },
    };
    let mode = match reflected.buffer_access {
        ReflectedBufferAccess::ReadOnly => AccessMode::Read,
        ReflectedBufferAccess::Writable => AccessMode::ReadWrite,
        ReflectedBufferAccess::Unknown | ReflectedBufferAccess::Absent => AccessMode::Unknown,
        ReflectedBufferAccess::Unused => {
            return Ok(());
        },
    };
    let query = ExtentQuery { metal_index: index, bounds };
    let required = match answer_copied(&reflection.buffer_extents, query) {
        Some(required) => required,
        None => {
            return Err(
                ReplacementRenderDrawResolutionError::BufferExtentUnanswered { stage, query },
            );
        },
    };
    let range = match resolve_buffer_run(session, stage, index, bound, required) {
        Ok(range) => range,
        Err(error) => {
            return Err(error);
        },
    };
    add_resource(
        resources,
        ResolvedRenderResourceBinding {
            class: RenderBindingClass::StorageBuffer,
            binding: reflected.buffer_binding,
            array_element: 0,
            descriptor_count: 1,
            stages: render_stage_bits(stage),
            resource: range.resource,
            backing: range.storage,
            view: RenderBindingView::Buffer(range.region),
            region: BackingRegion::Linear(range.region),
            mode,
        },
        ReplacementRenderDrawResolutionError::BufferBindingCollision(reflected.buffer_binding),
    )
}

fn resolve_stage_buffers(
    session: &ReplacementRuntimeSession,
    resources: &mut Vec<ResolvedRenderResourceBinding>,
    stage: Stage,
    reflection: &StageReflection,
    table: &Vec<Option<ReplacementRenderBufferBinding>>,
    bounds: RenderBufferIndexBounds,
) -> (result: Result<(), ReplacementRenderDrawResolutionError>)
    requires
        !(stage is Unknown),
    ensures
        match result {
            Ok(_) => with_stage_buffers(
                *session,
                old(resources)@,
                stage,
                *reflection,
                table@,
                bounds,
                reflection.bindings@.len(),
            ) == Ok::<Seq<ResolvedRenderResourceBinding>, ReplacementRenderDrawResolutionError>(
                final(resources)@,
            ),
            Err(error) => with_stage_buffers(
                *session,
                old(resources)@,
                stage,
                *reflection,
                table@,
                bounds,
                reflection.bindings@.len(),
            ) == Err::<Seq<ResolvedRenderResourceBinding>, ReplacementRenderDrawResolutionError>(
                error,
            ),
        },
{
    let ghost before = resources@;
    let mut i: usize = 0;
    while i < reflection.bindings.len()
        invariant
            before == old(resources)@,
            !(stage is Unknown),
            i <= reflection.bindings@.len(),
            with_stage_buffers(*session, before, stage, *reflection, table@, bounds, i as nat)
                == Ok::<Seq<ResolvedRenderResourceBinding>, ReplacementRenderDrawResolutionError>(
                resources@,
            ),
        decreases reflection.bindings.len() - i,
    {
        if let Err(error) = resolve_reflected_buffer(
            session,
            resources,
            stage,
            reflection,
            table,
            bounds,
            reflection.bindings[i],
        ) {
            proof {
                lemma_buffer_refusal_of_a_prefix(
                    *session,
                    before,
                    stage,
                    *reflection,
                    table@,
                    bounds,
                    (i + 1) as nat,
                    reflection.bindings@.len(),
                );
            }
            return Err(error);
        }
        i += 1;
    }
    Ok(())
}

/// Resolves the buffers of a draw.
pub fn resolve_render_buffers(
    session: &ReplacementRuntimeSession,
    vertex: &StageReflection,
    fragment: &StageReflection,
    vertex_table: &Vec<Option<ReplacementRenderBufferBinding>>,
    fragment_table: &Vec<Option<ReplacementRenderBufferBinding>>,
    bounds: RenderBufferIndexBounds,
) -> (buffers: Result<
    Vec<ResolvedRenderResourceBinding>,
    ReplacementRenderDrawResolutionError,
>)
    ensures
        match buffers {
            Ok(buffers) => draw_buffers(
                *session,
                *vertex,
                *fragment,
                vertex_table@,
                fragment_table@,
                bounds,
            ) == Ok::<Seq<ResolvedRenderResourceBinding>, ReplacementRenderDrawResolutionError>(
                buffers@,
            ),
            Err(error) => draw_buffers(
                *session,
                *vertex,
                *fragment,
                vertex_table@,
                fragment_table@,
                bounds,
            ) == Err::<Seq<ResolvedRenderResourceBinding>, ReplacementRenderDrawResolutionError>(
                error,
            ),
        },
{
    let mut resources: Vec<ResolvedRenderResourceBinding> = Vec::new();
    resolve_stage_buffers(
        session,
        &mut resources,
        Stage::Vertex,
        vertex,
        vertex_table,
        bounds,
    )?;
    resolve_stage_buffers(
        session,
        &mut resources,
        Stage::Fragment,
        fragment,
        fragment_table,
        bounds,
    )?;
    Ok(resources)
}

// Vertex buffers.

/// The vertex buffers of a draw and their strides.
#[verifier::ext_equal]
pub struct VertexLists {
    pub resources: Seq<ResolvedRenderResourceBinding>,
    pub layouts: Seq<ResolvedVertexBufferLayout>,
}

/// Where the list holds a binding.
pub open spec fn layout_position(list: Seq<ResolvedVertexBufferLayout>, binding: u32) -> Option<int>
    decreases list.len(),
{
    if list.len() == 0 {
        None
    } else {
        match layout_position(list.drop_last(), binding) {
            Some(position) => Some(position),
            None => if list.last().binding == binding {
                Some(list.len() - 1)
            } else {
                None
            },
        }
    }
}

/// The list with one more attribute's stride.
pub open spec fn with_layout(
    list: Seq<ResolvedVertexBufferLayout>,
    binding: u32,
    stride: u32,
) -> Result<Seq<ResolvedVertexBufferLayout>, ReplacementRenderDrawResolutionError> {
    match layout_position(list, binding) {
        Some(p) => if list[p].stride == stride {
            Ok(list)
        } else {
            Err(ReplacementRenderDrawResolutionError::VertexBindingCollision(binding))
        },
        None => Ok(list.push(ResolvedVertexBufferLayout { binding, stride })),
    }
}

/// The stride an attribute is fetched with: the bound one, else its own.
pub open spec fn attribute_stride(
    attribute: VertexAttribute,
    bound: ReplacementRenderBufferBinding,
) -> Result<u32, ReplacementRenderDrawResolutionError> {
    match bound.attribute_stride {
        None => Ok(attribute.stride),
        Some(stride) => if stride > u32::MAX {
            Err(
                ReplacementRenderDrawResolutionError::DynamicVertexStrideOutOfRange {
                    index: attribute.buffer_index,
                    bound: stride,
                },
            )
        } else {
            Ok(stride as u32)
        },
    }
}

/// Whether an attribute states a format and a step that vertices can be
/// fetched with.
pub open spec fn attribute_form(attribute: VertexAttribute) -> Result<
    (),
    ReplacementRenderDrawResolutionError,
> {
    match (attribute.format_refusal, attribute.step) {
        (Some(reason), _) => Err(
            ReplacementRenderDrawResolutionError::VertexAttributeFormat {
                location: attribute.location,
                reason,
            },
        ),
        (None, VertexStep::Undeclared(reason)) => Err(
            ReplacementRenderDrawResolutionError::VertexStepFunction {
                location: attribute.location,
                reason,
            },
        ),
        (None, VertexStep::Declared { function, rate_in_contract }) => if rate_in_contract {
            Ok(())
        } else {
            Err(
                ReplacementRenderDrawResolutionError::VertexStepRate {
                    location: attribute.location,
                    step_function: function,
                    step_rate: attribute.step_rate,
                },
            )
        },
    }
}

/// The vertex buffer that an attribute reads.
pub open spec fn vertex_resource(binding: u32, range: ResolvedBufferRange)
    -> ResolvedRenderResourceBinding {
    ResolvedRenderResourceBinding {
        class: RenderBindingClass::VertexBuffer,
        binding,
        array_element: 0,
        descriptor_count: 1,
        stages: RENDER_STAGE_VERTEX,
        resource: range.resource,
        backing: range.storage,
        view: RenderBindingView::Buffer(range.region),
        region: BackingRegion::Linear(range.region),
        mode: AccessMode::Read,
    }
}

/// The lists with one more attribute. One without a format or a stride is not
/// fetched.
pub open spec fn with_attribute(
    session: ReplacementRuntimeSession,
    lists: VertexLists,
    table: Seq<Option<ReplacementRenderBufferBinding>>,
    attribute: VertexAttribute,
) -> Result<VertexLists, ReplacementRenderDrawResolutionError> {
    let index = attribute.buffer_index;
    if attribute.format == 0 || attribute.stride == 0 {
        Ok(lists)
    } else if attribute_form(attribute) is Err {
        Err(attribute_form(attribute)->Err_0)
    } else if index >= table.len() || table[index as int] is None {
        Err(ReplacementRenderDrawResolutionError::VertexBufferMissing(index))
    } else {
        let bound = table[index as int]->0;
        match attribute_stride(attribute, bound) {
            Err(error) => Err(error),
            Ok(stride) => match with_layout(lists.layouts, index, stride) {
                Err(error) => Err(error),
                Ok(layouts) => match session.buffer(bound.reference, bound.offset, None) {
                    Err(reason) => Err(
                        ReplacementRenderDrawResolutionError::VertexBuffer { index, reason },
                    ),
                    Ok(range) => match with_resource(
                        lists.resources,
                        vertex_resource(index, range),
                        ReplacementRenderDrawResolutionError::VertexBindingCollision(index),
                    ) {
                        Err(error) => Err(error),
                        Ok(resources) => Ok(VertexLists { resources, layouts }),
                    },
                },
            },
        }
    }
}

/// The lists with a pipeline's attributes, in order, or the first refusal.
pub open spec fn with_attributes(
    session: ReplacementRuntimeSession,
    table: Seq<Option<ReplacementRenderBufferBinding>>,
    attributes: Seq<VertexAttribute>,
) -> Result<VertexLists, ReplacementRenderDrawResolutionError>
    decreases attributes.len(),
{
    if attributes.len() == 0 {
        Ok(VertexLists { resources: Seq::empty(), layouts: Seq::empty() })
    } else {
        match with_attributes(session, table, attributes.drop_last()) {
            Err(error) => Err(error),
            Ok(done) => with_attribute(session, done, table, attributes.last()),
        }
    }
}

/// Whether layouts are in order of binding, none twice.
pub open spec fn layouts_in_order(layouts: Seq<ResolvedVertexBufferLayout>) -> bool {
    forall|i: int, j: int|
        0 <= i < j < layouts.len() ==> (#[trigger] layouts[i]).binding < (
        #[trigger] layouts[j]).binding
}

/// A list in order of binding with one more layout in its place.
pub open spec fn with_ordered_layout(
    list: Seq<ResolvedVertexBufferLayout>,
    layout: ResolvedVertexBufferLayout,
) -> Seq<ResolvedVertexBufferLayout>
    decreases list.len(),
{
    if list.len() == 0 || list.last().binding <= layout.binding {
        list.push(layout)
    } else {
        with_ordered_layout(list.drop_last(), layout).push(list.last())
    }
}

/// The layouts in order of binding.
pub open spec fn ordered_layouts(list: Seq<ResolvedVertexBufferLayout>) -> Seq<
    ResolvedVertexBufferLayout,
>
    decreases list.len(),
{
    if list.len() == 0 {
        list
    } else {
        with_ordered_layout(ordered_layouts(list.drop_last()), list.last())
    }
}

/// A draw's vertex buffers: those its attributes name, in order of first use,
/// and the same buffers' strides in order of binding.
pub open spec fn draw_vertex_buffers(
    session: ReplacementRuntimeSession,
    table: Seq<Option<ReplacementRenderBufferBinding>>,
    attributes: Seq<VertexAttribute>,
) -> Result<VertexLists, ReplacementRenderDrawResolutionError> {
    match with_attributes(session, table, attributes) {
        Err(error) => Err(error),
        Ok(lists) => Ok(VertexLists { layouts: ordered_layouts(lists.layouts), ..lists }),
    }
}

/// No binding occurs twice.
pub open spec fn distinct_layouts(list: Seq<ResolvedVertexBufferLayout>) -> bool {
    forall|i: int, j: int|
        0 <= i < j < list.len() ==> (#[trigger] list[i]).binding != (#[trigger] list[j]).binding
}

/// Every binding is below `b`.
spec fn layouts_below(list: Seq<ResolvedVertexBufferLayout>, b: u32) -> bool {
    forall|i: int| 0 <= i < list.len() ==> (#[trigger] list[i]).binding < b
}

proof fn lemma_with_ordered_layout(
    list: Seq<ResolvedVertexBufferLayout>,
    layout: ResolvedVertexBufferLayout,
)
    requires
        layouts_in_order(list),
        forall|i: int| 0 <= i < list.len() ==> (#[trigger] list[i]).binding != layout.binding,
    ensures
        layouts_in_order(with_ordered_layout(list, layout)),
        with_ordered_layout(list, layout).to_multiset() == list.to_multiset().insert(layout),
        with_ordered_layout(list, layout).len() == list.len() + 1,
        forall|b: u32|
            layouts_below(list, b) && layout.binding < b ==> #[trigger] layouts_below(
                with_ordered_layout(list, layout),
                b,
            ),
    decreases list.len(),
{
    broadcast use vstd::seq_lib::group_to_multiset_ensures;

    let result = with_ordered_layout(list, layout);
    if list.len() == 0 || list.last().binding <= layout.binding {
        assert forall|i: int, j: int| 0 <= i < j < result.len() implies (
        #[trigger] result[i]).binding < (#[trigger] result[j]).binding by {
            if j == list.len() {
                assert(list[i].binding != layout.binding);
                if i < list.len() - 1 {
                    assert(list[i].binding < list[list.len() - 1].binding);
                }
            }
        }
    } else {
        let rest = list.drop_last();
        assert forall|i: int, j: int| 0 <= i < j < rest.len() implies (
        #[trigger] rest[i]).binding < (#[trigger] rest[j]).binding by {
            assert(list[i].binding < list[j].binding);
        }
        assert forall|i: int| 0 <= i < rest.len() implies (#[trigger] rest[i]).binding
            != layout.binding by {
            assert(list[i].binding != layout.binding);
        }
        lemma_with_ordered_layout(rest, layout);
        let inner = with_ordered_layout(rest, layout);
        let last = list.last();
        assert forall|i: int| 0 <= i < rest.len() implies (#[trigger] rest[i]).binding
            < last.binding by {
            assert(list[i].binding < list[list.len() - 1].binding);
        }
        assert(layouts_below(rest, last.binding));
        assert(layouts_below(inner, last.binding));
        assert forall|i: int, j: int| 0 <= i < j < result.len() implies (
        #[trigger] result[i]).binding < (#[trigger] result[j]).binding by {
            if j == list.len() {
                assert(inner[i].binding < last.binding);
            } else {
                assert(inner[i].binding < inner[j].binding);
            }
        }
        assert(list =~= rest.push(last));
        assert(result.to_multiset() =~= list.to_multiset().insert(layout));
        assert forall|b: u32| layouts_below(list, b) && layout.binding
            < b implies #[trigger] layouts_below(result, b) by {
            assert forall|i: int| 0 <= i < rest.len() implies (#[trigger] rest[i]).binding < b by {
                assert(list[i].binding < b);
            }
            assert(layouts_below(rest, b));
            assert(layouts_below(inner, b));
            assert forall|i: int| 0 <= i < result.len() implies (#[trigger] result[i]).binding
                < b by {
                if i < inner.len() {
                    assert(inner[i].binding < b);
                } else {
                    assert(list[list.len() - 1].binding < b);
                }
            }
        }
    }
}

/// Ordering layouts without repeats gives the same layouts, in order of
/// binding.
pub proof fn lemma_ordered_layouts(list: Seq<ResolvedVertexBufferLayout>)
    requires
        distinct_layouts(list),
    ensures
        layouts_in_order(ordered_layouts(list)),
        ordered_layouts(list).to_multiset() == list.to_multiset(),
    decreases list.len(),
{
    broadcast use vstd::seq_lib::group_to_multiset_ensures;

    if list.len() > 0 {
        let rest = list.drop_last();
        assert forall|i: int, j: int| 0 <= i < j < rest.len() implies (
        #[trigger] rest[i]).binding != (#[trigger] rest[j]).binding by {
            assert(list[i].binding != list[j].binding);
        }
        lemma_ordered_layouts(rest);
        let inner = ordered_layouts(rest);
        assert forall|i: int| 0 <= i < inner.len() implies (#[trigger] inner[i]).binding
            != list.last().binding by {
            assert(inner.to_multiset().count(inner[i]) > 0) by {
                assert(inner.contains(inner[i]));
            }
            assert(rest.contains(inner[i]));
            let k = choose|k: int| 0 <= k < rest.len() && rest[k] == inner[i];
            assert(list[k].binding != list[list.len() - 1].binding);
        }
        lemma_with_ordered_layout(inner, list.last());
        assert(list =~= rest.push(list.last()));
    }
}

proof fn lemma_attribute_layouts_are_distinct(
    session: ReplacementRuntimeSession,
    table: Seq<Option<ReplacementRenderBufferBinding>>,
    attributes: Seq<VertexAttribute>,
)
    ensures
        with_attributes(session, table, attributes) matches Ok(lists) ==> distinct_layouts(
            lists.layouts,
        ),
    decreases attributes.len(),
{
    if attributes.len() > 0 {
        lemma_attribute_layouts_are_distinct(session, table, attributes.drop_last());
        if with_attributes(session, table, attributes.drop_last()) is Ok {
            let before = with_attributes(session, table, attributes.drop_last())->Ok_0;
            lemma_layout_position(before.layouts, attributes.last().buffer_index);
        }
    }
}

/// A draw's vertex buffer strides are in order of binding, one to a binding.
pub proof fn lemma_vertex_layouts_are_in_order(
    session: ReplacementRuntimeSession,
    table: Seq<Option<ReplacementRenderBufferBinding>>,
    attributes: Seq<VertexAttribute>,
)
    ensures
        draw_vertex_buffers(session, table, attributes) matches Ok(lists) ==> layouts_in_order(
            lists.layouts,
        ),
{
    lemma_attribute_layouts_are_distinct(session, table, attributes);
    if with_attributes(session, table, attributes) is Ok {
        lemma_ordered_layouts(with_attributes(session, table, attributes)->Ok_0.layouts);
    }
}

proof fn lemma_layout_position(list: Seq<ResolvedVertexBufferLayout>, binding: u32)
    ensures
        match layout_position(list, binding) {
            Some(p) => {
                &&& 0 <= p < list.len()
                &&& list[p].binding == binding
                &&& forall|j: int| 0 <= j < p ==> (#[trigger] list[j]).binding != binding
            },
            None => forall|j: int|
                0 <= j < list.len() ==> (#[trigger] list[j]).binding != binding,
        },
    decreases list.len(),
{
    if list.len() > 0 {
        lemma_layout_position(list.drop_last(), binding);
        assert forall|j: int| 0 <= j < list.len() - 1 implies list.drop_last()[j]
            == #[trigger] list[j] by {}
    }
}

proof fn lemma_attribute_refusal_of_a_prefix(
    session: ReplacementRuntimeSession,
    table: Seq<Option<ReplacementRenderBufferBinding>>,
    attributes: Seq<VertexAttribute>,
    n: int,
)
    requires
        0 <= n <= attributes.len(),
        with_attributes(session, table, attributes.take(n)) is Err,
    ensures
        with_attributes(session, table, attributes) == with_attributes(
            session,
            table,
            attributes.take(n),
        ),
    decreases attributes.len() - n,
{
    if n == attributes.len() {
        assert(attributes.take(n) =~= attributes);
    } else {
        assert(attributes.take(n + 1).drop_last() =~= attributes.take(n));
        lemma_attribute_refusal_of_a_prefix(session, table, attributes, n + 1);
    }
}

/// The vertex buffers of a draw and their strides.
#[derive(Debug, PartialEq, Eq)]
pub struct ReplacementResolvedVertexBuffers {
    pub resources: Vec<ResolvedRenderResourceBinding>,
    pub layouts: Vec<ResolvedVertexBufferLayout>,
}

impl View for ReplacementResolvedVertexBuffers {
    type V = VertexLists;

    open spec fn view(&self) -> VertexLists {
        VertexLists { resources: self.resources@, layouts: self.layouts@ }
    }
}

fn find_layout(list: &Vec<ResolvedVertexBufferLayout>, binding: u32) -> (found: Option<usize>)
    ensures
        match found {
            Some(position) => position < list@.len() && layout_position(list@, binding) == Some(
                position as int,
            ),
            None => layout_position(list@, binding) is None,
        },
{
    let mut i: usize = 0;
    while i < list.len()
        invariant
            i <= list@.len(),
            forall|j: int| 0 <= j < i ==> (#[trigger] list@[j]).binding != binding,
        decreases list.len() - i,
    {
        if list[i].binding == binding {
            proof {
                lemma_layout_position(list@, binding);
            }
            return Some(i);
        }
        i += 1;
    }
    proof {
        lemma_layout_position(list@, binding);
    }
    None
}

fn resolve_attribute_form(attribute: VertexAttribute) -> (result: Result<
    (),
    ReplacementRenderDrawResolutionError,
>)
    ensures
        result == attribute_form(attribute),
{
    let location: u32 = attribute.location;
    if let Some(reason) = attribute.format_refusal {
        return Err(
            ReplacementRenderDrawResolutionError::VertexAttributeFormat { location, reason },
        );
    }
    match attribute.step {
        VertexStep::Undeclared(reason) => Err(
            ReplacementRenderDrawResolutionError::VertexStepFunction { location, reason },
        ),
        VertexStep::Declared { function, rate_in_contract } => if rate_in_contract {
            Ok(())
        } else {
            Err(
                ReplacementRenderDrawResolutionError::VertexStepRate {
                    location,
                    step_function: function,
                    step_rate: attribute.step_rate,
                },
            )
        },
    }
}

fn resolve_attribute(
    session: &ReplacementRuntimeSession,
    lists: &mut ReplacementResolvedVertexBuffers,
    table: &Vec<Option<ReplacementRenderBufferBinding>>,
    attribute: VertexAttribute,
) -> (result: Result<(), ReplacementRenderDrawResolutionError>)
    ensures
        match result {
            Ok(_) => with_attribute(*session, old(lists)@, table@, attribute) == Ok::<
                VertexLists,
                ReplacementRenderDrawResolutionError,
            >(final(lists)@),
            Err(error) => with_attribute(*session, old(lists)@, table@, attribute) == Err::<
                VertexLists,
                ReplacementRenderDrawResolutionError,
            >(error),
        },
{
    let index: u32 = attribute.buffer_index;
    if attribute.format == 0 || attribute.stride == 0 {
        return Ok(());
    }
    if let Err(error) = resolve_attribute_form(attribute) {
        return Err(error);
    }
    let bound = if (index as usize) < table.len() {
        table[index as usize]
    } else {
        None
    };
    let bound = match bound {
        Some(bound) => bound,
        None => {
            return Err(ReplacementRenderDrawResolutionError::VertexBufferMissing(index));
        },
    };
    let stride: u32 = match bound.attribute_stride {
        None => attribute.stride,
        Some(stride) => {
            if stride > u32::MAX as u64 {
                return Err(
                    ReplacementRenderDrawResolutionError::DynamicVertexStrideOutOfRange {
                        index,
                        bound: stride,
                    },
                );
            }
            stride as u32
        },
    };
    match find_layout(&lists.layouts, index) {
        Some(position) => {
            if lists.layouts[position].stride != stride {
                return Err(ReplacementRenderDrawResolutionError::VertexBindingCollision(index));
            }
        },
        None => lists.layouts.push(ResolvedVertexBufferLayout { binding: index, stride }),
    }
    let range = match session.resolve_buffer_tail(bound.reference, bound.offset) {
        Ok(range) => range,
        Err(reason) => {
            return Err(ReplacementRenderDrawResolutionError::VertexBuffer { index, reason });
        },
    };
    add_resource(
        &mut lists.resources,
        ResolvedRenderResourceBinding {
            class: RenderBindingClass::VertexBuffer,
            binding: index,
            array_element: 0,
            descriptor_count: 1,
            stages: RENDER_STAGE_VERTEX,
            resource: range.resource,
            backing: range.storage,
            view: RenderBindingView::Buffer(range.region),
            region: BackingRegion::Linear(range.region),
            mode: AccessMode::Read,
        },
        ReplacementRenderDrawResolutionError::VertexBindingCollision(index),
    )
}

proof fn lemma_insert_is_with_ordered(
    list: Seq<ResolvedVertexBufferLayout>,
    layout: ResolvedVertexBufferLayout,
    at: int,
)
    requires
        0 <= at <= list.len(),
        at > 0 ==> list[at - 1].binding <= layout.binding,
        forall|j: int| at <= j < list.len() ==> (#[trigger] list[j]).binding > layout.binding,
    ensures
        with_ordered_layout(list, layout) == list.insert(at, layout),
    decreases list.len(),
{
    if at == list.len() {
        assert(list.insert(at, layout) =~= list.push(layout));
    } else {
        let rest = list.drop_last();
        assert forall|j: int| at <= j < rest.len() implies (#[trigger] rest[j]).binding
            > layout.binding by {
            assert(list[j].binding > layout.binding);
        }
        assert(list[list.len() - 1].binding > layout.binding);
        lemma_insert_is_with_ordered(rest, layout, at);
        assert(rest.insert(at, layout).push(list.last()) =~= list.insert(at, layout));
    }
}

/// Orders layouts by binding.
fn order_layouts(list: &Vec<ResolvedVertexBufferLayout>) -> (ordered: Vec<
    ResolvedVertexBufferLayout,
>)
    ensures
        ordered@ == ordered_layouts(list@),
{
    let mut ordered: Vec<ResolvedVertexBufferLayout> = Vec::new();
    let mut i: usize = 0;
    while i < list.len()
        invariant
            i <= list@.len(),
            ordered@ == ordered_layouts(list@.take(i as int)),
        decreases list.len() - i,
    {
        let layout = list[i];
        let mut at: usize = ordered.len();
        while at > 0 && ordered[at - 1].binding > layout.binding
            invariant
                at <= ordered@.len(),
                forall|j: int|
                    at <= j < ordered@.len() ==> (#[trigger] ordered@[j]).binding > layout.binding,
            decreases at,
        {
            at -= 1;
        }
        proof {
            lemma_insert_is_with_ordered(ordered@, layout, at as int);
            assert(list@.take(i as int + 1).drop_last() =~= list@.take(i as int));
        }
        ordered.insert(at, layout);
        i += 1;
    }
    assert(list@.take(i as int) =~= list@);
    ordered
}

/// Resolves the vertex buffers of a draw.
pub fn resolve_vertex_buffers(
    session: &ReplacementRuntimeSession,
    table: &Vec<Option<ReplacementRenderBufferBinding>>,
    attributes: &Vec<VertexAttribute>,
) -> (buffers: Result<ReplacementResolvedVertexBuffers, ReplacementRenderDrawResolutionError>)
    ensures
        match buffers {
            Ok(buffers) => draw_vertex_buffers(*session, table@, attributes@) == Ok::<
                VertexLists,
                ReplacementRenderDrawResolutionError,
            >(buffers@),
            Err(error) => draw_vertex_buffers(*session, table@, attributes@) == Err::<
                VertexLists,
                ReplacementRenderDrawResolutionError,
            >(error),
        },
{
    let mut lists = ReplacementResolvedVertexBuffers {
        resources: Vec::new(),
        layouts: Vec::new(),
    };
    assert(lists@ =~= (VertexLists { resources: Seq::empty(), layouts: Seq::empty() }));
    let mut i: usize = 0;
    while i < attributes.len()
        invariant
            i <= attributes@.len(),
            with_attributes(*session, table@, attributes@.take(i as int)) == Ok::<
                VertexLists,
                ReplacementRenderDrawResolutionError,
            >(lists@),
        decreases attributes.len() - i,
    {
        assert(attributes@.take(i as int + 1).drop_last() =~= attributes@.take(i as int));
        if let Err(error) = resolve_attribute(session, &mut lists, table, attributes[i]) {
            proof {
                lemma_attribute_refusal_of_a_prefix(
                    *session,
                    table@,
                    attributes@,
                    i as int + 1,
                );
            }
            return Err(error);
        }
        i += 1;
    }
    assert(attributes@.take(i as int) =~= attributes@);
    let layouts = order_layouts(&lists.layouts);
    Ok(ReplacementResolvedVertexBuffers { resources: lists.resources, layouts })
}

// What the lists of a draw hold.

/// Whether a set of stages holds all of another.
pub open spec fn holds_stages(stages: u32, held: u32) -> bool {
    stages & held == held
}

/// Whether a binding stands for the same thing as another, for at least the same
/// stages.
pub open spec fn stands_for(
    entry: ResolvedRenderResourceBinding,
    wanted: ResolvedRenderResourceBinding,
) -> bool {
    &&& entry.class == wanted.class
    &&& entry.binding == wanted.binding
    &&& entry.array_element == wanted.array_element
    &&& entry.descriptor_count == wanted.descriptor_count
    &&& entry.resource == wanted.resource
    &&& entry.backing == wanted.backing
    &&& entry.view == wanted.view
    &&& entry.region == wanted.region
    &&& holds_stages(entry.stages, wanted.stages)
}

/// Whether a list of bindings still stands for all that it stood for.
pub open spec fn resources_kept(
    before: Seq<ResolvedRenderResourceBinding>,
    after: Seq<ResolvedRenderResourceBinding>,
) -> bool {
    &&& before.len() <= after.len()
    &&& forall|k: int| 0 <= k < before.len() ==> stands_for(#[trigger] after[k], before[k])
}

proof fn lemma_stages_join(one: u32, other: u32)
    ensures
        holds_stages(one | other, one),
        holds_stages(one | other, other),
        holds_stages(one, one),
{
    assert((one | other) & one == one) by (bit_vector);
    assert((one | other) & other == other) by (bit_vector);
    assert(one & one == one) by (bit_vector);
}

proof fn lemma_stages_within(all: u32, some: u32, few: u32)
    requires
        holds_stages(all, some),
        holds_stages(some, few),
    ensures
        holds_stages(all, few),
{
    assert(all & few == few) by (bit_vector)
        requires
            all & some == some,
            some & few == few,
    ;
}

proof fn lemma_kept_twice(
    before: Seq<ResolvedRenderResourceBinding>,
    between: Seq<ResolvedRenderResourceBinding>,
    after: Seq<ResolvedRenderResourceBinding>,
)
    requires
        resources_kept(before, between),
        resources_kept(between, after),
    ensures
        resources_kept(before, after),
{
    assert forall|k: int| 0 <= k < before.len() implies stands_for(#[trigger] after[k], before[k]) by {
        assert(stands_for(between[k], before[k]));
        assert(stands_for(after[k], between[k]));
        lemma_stages_within(after[k].stages, between[k].stages, before[k].stages);
    }
}

proof fn lemma_kept_same(list: Seq<ResolvedRenderResourceBinding>)
    ensures
        resources_kept(list, list),
{
    assert forall|k: int| 0 <= k < list.len() implies stands_for(#[trigger] list[k], list[k]) by {
        lemma_stages_join(list[k].stages, list[k].stages);
    }
}

proof fn lemma_resource_position(
    list: Seq<ResolvedRenderResourceBinding>,
    class: RenderBindingClass,
    binding: u32,
    array_element: u32,
)
    ensures
        match resource_position(list, class, binding, array_element) {
            Some(p) => 0 <= p < list.len() && list[p].class == class && list[p].binding == binding
                && list[p].array_element == array_element,
            None => forall|k: int|
                0 <= k < list.len() ==> !((#[trigger] list[k]).class == class && list[k].binding
                    == binding && list[k].array_element == array_element),
        },
    decreases list.len(),
{
    if list.len() > 0 {
        let earlier = list.drop_last();
        lemma_resource_position(earlier, class, binding, array_element);
        assert forall|k: int| 0 <= k < earlier.len() implies earlier[k] == #[trigger] list[k] by {}
    }
}

/// A use of a resource that joins a list is held by it afterwards, and all that
/// the list held before it still holds. A resource at another's place is refused
/// unless it is the same.
pub proof fn lemma_a_resource_joins_its_list(
    list: Seq<ResolvedRenderResourceBinding>,
    candidate: ResolvedRenderResourceBinding,
    collision: ReplacementRenderDrawResolutionError,
)
    ensures
        match with_resource(list, candidate, collision) {
            Ok(after) => {
                &&& resources_kept(list, after)
                &&& exists|k: int| 0 <= k < after.len() && stands_for(#[trigger] after[k], candidate)
                &&& after.len() <= list.len() + 1
                &&& forall|k: int|
                    list.len() <= k < after.len() ==> #[trigger] after[k] == candidate
                &&& forall|k: int|
                    0 <= k < list.len() ==> (#[trigger] after[k]).mode == list[k].mode
                        || after[k].mode == joined_access(list[k].mode, candidate.mode)
            },
            Err(error) => {
                &&& error == collision
                &&& exists|k: int|
                    0 <= k < list.len() && (#[trigger] list[k]).class == candidate.class
                        && list[k].binding == candidate.binding && list[k].array_element
                        == candidate.array_element && !(list[k].descriptor_count
                        == candidate.descriptor_count && list[k].resource == candidate.resource
                        && list[k].backing == candidate.backing && list[k].view == candidate.view
                        && list[k].region == candidate.region)
            },
        },
{
    lemma_resource_position(
        list,
        candidate.class,
        candidate.binding,
        candidate.array_element,
    );
    match resource_position(list, candidate.class, candidate.binding, candidate.array_element) {
        Some(p) => {
            if same_thing(list[p], candidate) {
                let after = with_resource(list, candidate, collision)->Ok_0;
                lemma_stages_join(list[p].stages, candidate.stages);
                assert(stands_for(after[p], candidate));
                assert forall|k: int| 0 <= k < list.len() implies stands_for(
                    #[trigger] after[k],
                    list[k],
                ) by {
                    lemma_stages_join(list[k].stages, list[k].stages);
                }
            } else {
                assert(list[p].class == candidate.class);
            }
        },
        None => {
            let after = list.push(candidate);
            lemma_stages_join(candidate.stages, candidate.stages);
            assert(stands_for(after[list.len() as int], candidate));
            assert forall|k: int| 0 <= k < list.len() implies stands_for(
                #[trigger] after[k],
                list[k],
            ) by {
                lemma_stages_join(list[k].stages, list[k].stages);
            }
        },
    }
}

/// Whether a list of empty bindings still leaves empty all that it left empty.
pub open spec fn nulls_kept(
    before: Seq<ResolvedRenderNullBinding>,
    after: Seq<ResolvedRenderNullBinding>,
) -> bool {
    &&& before.len() <= after.len()
    &&& forall|k: int|
        0 <= k < before.len() ==> {
            &&& (#[trigger] after[k]).class == before[k].class
            &&& after[k].binding == before[k].binding
            &&& after[k].array_element == before[k].array_element
            &&& after[k].descriptor_count == before[k].descriptor_count
            &&& holds_stages(after[k].stages, before[k].stages)
        }
}

proof fn lemma_nulls_kept_twice(
    before: Seq<ResolvedRenderNullBinding>,
    between: Seq<ResolvedRenderNullBinding>,
    after: Seq<ResolvedRenderNullBinding>,
)
    requires
        nulls_kept(before, between),
        nulls_kept(between, after),
    ensures
        nulls_kept(before, after),
{
    assert forall|k: int| 0 <= k < before.len() implies {
        &&& (#[trigger] after[k]).class == before[k].class
        &&& after[k].binding == before[k].binding
        &&& after[k].array_element == before[k].array_element
        &&& after[k].descriptor_count == before[k].descriptor_count
        &&& holds_stages(after[k].stages, before[k].stages)
    } by {
        assert(between[k].class == before[k].class);
        lemma_stages_within(after[k].stages, between[k].stages, before[k].stages);
    }
}

proof fn lemma_null_position(
    list: Seq<ResolvedRenderNullBinding>,
    class: RenderBindingClass,
    binding: u32,
    array_element: u32,
)
    ensures
        match null_position(list, class, binding, array_element) {
            Some(p) => 0 <= p < list.len() && list[p].class == class && list[p].binding == binding
                && list[p].array_element == array_element,
            None => true,
        },
    decreases list.len(),
{
    if list.len() > 0 {
        lemma_null_position(list.drop_last(), class, binding, array_element);
    }
}

/// Whether a stage's image at an argument index is where its shader looks for
/// it: the bound texture under the location that the shader states, or nothing
/// where nothing is bound.
pub open spec fn image_is_bound(
    session: ReplacementRuntimeSession,
    lists: TextureLists,
    stage: Stage,
    texture: ReflectedTexture,
    bound: Option<u32>,
) -> bool {
    let class = if texture.access is Sampled {
        RenderBindingClass::SampledImage
    } else {
        RenderBindingClass::StorageImage
    };
    if bound is Some && bound->0 != 0 {
        match answer_of(session.textures@, bound->0) {
            Some(TextureAnswer::Texture(resolved)) => {
                &&& texture.shape matches ReflectedSampledKind::Kind(expected)
                &&& shape_matches(expected, resolved.view.texture_type)
                &&& exists|k: int|
                    0 <= k < lists.resources.len() && {
                        let entry = #[trigger] lists.resources[k];
                        &&& entry.class == class
                        &&& entry.binding == texture.binding
                        &&& entry.array_element == texture.array_element
                        &&& entry.descriptor_count == texture.descriptor_count
                        &&& entry.resource == resolved.resource
                        &&& entry.backing == resolved.backing
                        &&& entry.view == RenderBindingView::Image(resolved.view)
                        &&& entry.region == BackingRegion::Whole
                        &&& holds_stages(entry.stages, stage_mask(stage))
                    }
            },
            _ => false,
        }
    } else {
        exists|k: int|
            0 <= k < lists.nulls.len() && {
                let entry = #[trigger] lists.nulls[k];
                &&& entry.class == class
                &&& entry.binding == texture.binding
                &&& entry.array_element == texture.array_element
                &&& entry.descriptor_count == texture.descriptor_count
                &&& holds_stages(entry.stages, stage_mask(stage))
            }
    }
}

/// Whether every binding of a list is an image.
pub open spec fn only_images(list: Seq<ResolvedRenderResourceBinding>) -> bool {
    forall|k: int|
        0 <= k < list.len() ==> (#[trigger] list[k]).class == RenderBindingClass::SampledImage
            || list[k].class == RenderBindingClass::StorageImage
}

proof fn lemma_image_stays_bound(
    session: ReplacementRuntimeSession,
    before: TextureLists,
    after: TextureLists,
    stage: Stage,
    texture: ReflectedTexture,
    bound: Option<u32>,
)
    requires
        image_is_bound(session, before, stage, texture, bound),
        resources_kept(before.resources, after.resources),
        nulls_kept(before.nulls, after.nulls),
    ensures
        image_is_bound(session, after, stage, texture, bound),
{
    let class = if texture.access is Sampled {
        RenderBindingClass::SampledImage
    } else {
        RenderBindingClass::StorageImage
    };
    if bound is Some && bound->0 != 0 {
        if let Some(TextureAnswer::Texture(resolved)) = answer_of(session.textures@, bound->0) {
            let k = choose|k: int|
                0 <= k < before.resources.len() && {
                    let entry = #[trigger] before.resources[k];
                    &&& entry.class == class
                    &&& entry.binding == texture.binding
                    &&& entry.array_element == texture.array_element
                    &&& entry.descriptor_count == texture.descriptor_count
                    &&& entry.resource == resolved.resource
                    &&& entry.backing == resolved.backing
                    &&& entry.view == RenderBindingView::Image(resolved.view)
                    &&& entry.region == BackingRegion::Whole
                    &&& holds_stages(entry.stages, stage_mask(stage))
                };
            assert(stands_for(after.resources[k], before.resources[k]));
            lemma_stages_within(
                after.resources[k].stages,
                before.resources[k].stages,
                stage_mask(stage),
            );
        }
    } else {
        let k = choose|k: int|
            0 <= k < before.nulls.len() && {
                let entry = #[trigger] before.nulls[k];
                &&& entry.class == class
                &&& entry.binding == texture.binding
                &&& entry.array_element == texture.array_element
                &&& entry.descriptor_count == texture.descriptor_count
                &&& holds_stages(entry.stages, stage_mask(stage))
            };
        assert(after.nulls[k].class == before.nulls[k].class);
        lemma_stages_within(
            after.nulls[k].stages,
            before.nulls[k].stages,
            stage_mask(stage),
        );
    }
}

proof fn lemma_a_texture_is_bound(
    session: ReplacementRuntimeSession,
    lists: TextureLists,
    stage: Stage,
    reflection: StageReflection,
    index: u32,
    bound: Option<u32>,
)
    ensures
        match with_texture(session, lists, stage, reflection, index, bound) {
            Ok(after) => {
                &&& resources_kept(lists.resources, after.resources)
                &&& nulls_kept(lists.nulls, after.nulls)
                &&& only_images(lists.resources) ==> only_images(after.resources)
                &&& index < reflection.textures@.len() && reflection.textures@[index as int] is Some
                    ==> image_is_bound(
                    session,
                    after,
                    stage,
                    reflection.textures@[index as int]->0,
                    bound,
                )
            },
            Err(_) => true,
        },
{
    lemma_kept_same(lists.resources);
    assert forall|k: int| 0 <= k < lists.nulls.len() implies holds_stages(
        (#[trigger] lists.nulls[k]).stages,
        lists.nulls[k].stages,
    ) by {
        lemma_stages_join(lists.nulls[k].stages, lists.nulls[k].stages);
    }
    if index < reflection.textures@.len() && reflection.textures@[index as int] is Some {
        let texture = reflection.textures@[index as int]->0;
        if let Ok((class, mode)) = texture_access(reflection, stage, index, texture) {
            lemma_null_position(lists.nulls, class, texture.binding, texture.array_element);
            let mask = stage_mask(stage);
            lemma_stages_join(mask, mask);
            if bound is None || bound == Some(0u32) {
                if let Ok(after) = with_null_texture(lists, stage, class, texture) {
                    match null_position(
                        lists.nulls,
                        class,
                        texture.binding,
                        texture.array_element,
                    ) {
                        Some(p) => {
                            lemma_stages_join(lists.nulls[p].stages, mask);
                            assert(after.nulls[p].class == class);
                        },
                        None => {
                            assert(after.nulls[lists.nulls.len() as int].class == class);
                        },
                    }
                }
            } else if let Ok(resolved) = session.texture(bound->0) {
                lemma_a_resource_joins_its_list(
                    lists.resources,
                    ResolvedRenderResourceBinding {
                        class,
                        binding: texture.binding,
                        array_element: texture.array_element,
                        descriptor_count: texture.descriptor_count,
                        stages: mask,
                        resource: resolved.resource,
                        backing: resolved.backing,
                        view: RenderBindingView::Image(resolved.view),
                        region: BackingRegion::Whole,
                        mode,
                    },
                    texture_collision(class, texture),
                );
            }
        }
    }
}

proof fn lemma_stage_textures_are_bound(
    session: ReplacementRuntimeSession,
    lists: TextureLists,
    stage: Stage,
    reflection: StageReflection,
    table: Seq<Option<u32>>,
    n: nat,
)
    requires
        n <= u32::MAX,
    ensures
        match with_stage_textures(session, lists, stage, reflection, table, n) {
            Ok(after) => {
                &&& resources_kept(lists.resources, after.resources)
                &&& nulls_kept(lists.nulls, after.nulls)
                &&& only_images(lists.resources) ==> only_images(after.resources)
                &&& forall|i: int|
                    0 <= i < n && i < reflection.textures@.len() && (
                    #[trigger] reflection.textures@[i]) is Some ==> image_is_bound(
                        session,
                        after,
                        stage,
                        reflection.textures@[i]->0,
                        table[i],
                    )
            },
            Err(_) => true,
        },
    decreases n,
{
    lemma_kept_same(lists.resources);
    assert forall|k: int| 0 <= k < lists.nulls.len() implies holds_stages(
        (#[trigger] lists.nulls[k]).stages,
        lists.nulls[k].stages,
    ) by {
        lemma_stages_join(lists.nulls[k].stages, lists.nulls[k].stages);
    }
    if n > 0 {
        lemma_stage_textures_are_bound(session, lists, stage, reflection, table, (n - 1) as nat);
        if let Ok(done) = with_stage_textures(
            session,
            lists,
            stage,
            reflection,
            table,
            (n - 1) as nat,
        ) {
            lemma_a_texture_is_bound(
                session,
                done,
                stage,
                reflection,
                (n - 1) as u32,
                table[n - 1],
            );
            if let Ok(after) = with_texture(
                session,
                done,
                stage,
                reflection,
                (n - 1) as u32,
                table[n - 1],
            ) {
                lemma_kept_twice(lists.resources, done.resources, after.resources);
                lemma_nulls_kept_twice(lists.nulls, done.nulls, after.nulls);
                assert forall|i: int|
                    0 <= i < n && i < reflection.textures@.len() && (
                    #[trigger] reflection.textures@[i]) is Some implies image_is_bound(
                    session,
                    after,
                    stage,
                    reflection.textures@[i]->0,
                    table[i],
                ) by {
                    if i < n - 1 {
                        lemma_image_stays_bound(
                            session,
                            done,
                            after,
                            stage,
                            reflection.textures@[i]->0,
                            table[i],
                        );
                    }
                }
            }
        }
    }
}

/// Every image that a shader of a draw declares is bound: in the vertex stage to
/// what the vertex table holds at its index, in the fragment stage to what the
/// fragment table holds there, and nothing else is bound as an image.
pub proof fn lemma_every_declared_image_is_bound(
    session: ReplacementRuntimeSession,
    vertex: StageReflection,
    fragment: StageReflection,
    vertex_table: Seq<Option<u32>>,
    fragment_table: Seq<Option<u32>>,
)
    ensures
        match draw_textures(session, vertex, fragment, vertex_table, fragment_table) {
            Ok(lists) => {
                &&& forall|i: int|
                    0 <= i < MAX_TEXTURE_BIND_SLOTS && i < vertex.textures@.len() && (
                    #[trigger] vertex.textures@[i]) is Some ==> image_is_bound(
                        session,
                        lists,
                        Stage::Vertex,
                        vertex.textures@[i]->0,
                        vertex_table[i],
                    )
                &&& forall|i: int|
                    0 <= i < MAX_TEXTURE_BIND_SLOTS && i < fragment.textures@.len() && (
                    #[trigger] fragment.textures@[i]) is Some ==> image_is_bound(
                        session,
                        lists,
                        Stage::Fragment,
                        fragment.textures@[i]->0,
                        fragment_table[i],
                    )
                &&& only_images(lists.resources)
            },
            Err(_) => true,
        },
{
    let none = TextureLists { resources: Seq::empty(), nulls: Seq::empty() };
    let count = MAX_TEXTURE_BIND_SLOTS as nat;
    lemma_stage_textures_are_bound(session, none, Stage::Vertex, vertex, vertex_table, count);
    if let Ok(first) = with_stage_textures(
        session,
        none,
        Stage::Vertex,
        vertex,
        vertex_table,
        count,
    ) {
        lemma_stage_textures_are_bound(
            session,
            first,
            Stage::Fragment,
            fragment,
            fragment_table,
            count,
        );
        if let Ok(lists) = draw_textures(
            session,
            vertex,
            fragment,
            vertex_table,
            fragment_table,
        ) {
            assert forall|i: int|
                0 <= i < MAX_TEXTURE_BIND_SLOTS && i < vertex.textures@.len() && (
                #[trigger] vertex.textures@[i]) is Some implies image_is_bound(
                session,
                lists,
                Stage::Vertex,
                vertex.textures@[i]->0,
                vertex_table[i],
            ) by {
                lemma_image_stays_bound(
                    session,
                    first,
                    lists,
                    Stage::Vertex,
                    vertex.textures@[i]->0,
                    vertex_table[i],
                );
            }
        }
    }
}

/// The two stages have bits of their own.
pub proof fn lemma_stages_have_their_own_bits()
    ensures
        stage_mask(Stage::Vertex) == RENDER_STAGE_VERTEX,
        stage_mask(Stage::Fragment) == RENDER_STAGE_FRAGMENT,
        !holds_stages(stage_mask(Stage::Vertex), stage_mask(Stage::Fragment)),
        !holds_stages(stage_mask(Stage::Fragment), stage_mask(Stage::Vertex)),
{
    assert(1u32 & 2u32 == 0) by (bit_vector);
    assert(2u32 & 1u32 == 0) by (bit_vector);
}

/// What a shader does with an image is what its reflection says: a sampled image
/// is read, and a storage image is accessed as its binding states.
pub proof fn lemma_an_image_is_accessed_as_declared(
    reflection: StageReflection,
    stage: Stage,
    index: u32,
    texture: ReflectedTexture,
)
    ensures
        match texture_access(reflection, stage, index, texture) {
            Ok((class, mode)) => {
                &&& texture.access is Sampled ==> class == RenderBindingClass::SampledImage && mode
                    == AccessMode::Read
                &&& texture.access is Storage ==> class == RenderBindingClass::StorageImage
                &&& mode == AccessMode::Write ==> answer_of(
                    reflection.storage_images@,
                    texture.binding,
                ) == Some(StorageImageAccess::WriteOnly)
                &&& texture.access is Storage && mode == AccessMode::Read ==> answer_of(
                    reflection.storage_images@,
                    texture.binding,
                ) == Some(StorageImageAccess::ReadOnly)
                &&& mode == AccessMode::ReadWrite ==> answer_of(
                    reflection.storage_images@,
                    texture.binding,
                ) == Some(StorageImageAccess::ReadWrite)
                &&& !(texture.access is Unknown)
            },
            Err(ReplacementRenderDrawResolutionError::TextureAccessUnknown { stage: s, index: i }) => {
                s == stage && i == index && texture.access is Unknown
            },
            Err(ReplacementRenderDrawResolutionError::StorageImageAccessMissing(binding)) => {
                binding == texture.binding && answer_of(reflection.storage_images@, binding) is None
            },
            Err(ReplacementRenderDrawResolutionError::StorageImageAccessAmbiguous(binding)) => {
                binding == texture.binding
            },
            Err(_) => false,
        },
{
}

/// Two accesses to one thing amount to both.
pub proof fn lemma_accesses_join(one: AccessMode, other: AccessMode)
    ensures
        joined_access(one, other) == joined_access(other, one),
        joined_access(one, one) == one,
        joined_access(AccessMode::Read, AccessMode::Write) == AccessMode::ReadWrite,
        joined_access(AccessMode::Unknown, one) == AccessMode::Unknown,
        one != AccessMode::Unknown ==> joined_access(AccessMode::ReadWrite, one)
            == AccessMode::ReadWrite,
{
}

/// Whether a list holds a binding that stands for what is wanted.
pub open spec fn held(
    list: Seq<ResolvedRenderResourceBinding>,
    wanted: ResolvedRenderResourceBinding,
) -> bool {
    exists|k: int| 0 <= k < list.len() && stands_for(#[trigger] list[k], wanted)
}

proof fn lemma_held_is_kept(
    before: Seq<ResolvedRenderResourceBinding>,
    after: Seq<ResolvedRenderResourceBinding>,
    wanted: ResolvedRenderResourceBinding,
)
    requires
        held(before, wanted),
        resources_kept(before, after),
    ensures
        held(after, wanted),
{
    let k = choose|k: int| 0 <= k < before.len() && stands_for(#[trigger] before[k], wanted);
    assert(stands_for(after[k], before[k]));
    lemma_stages_within(after[k].stages, before[k].stages, wanted.stages);
    assert(stands_for(after[k], wanted));
}

/// Whether every binding of a list is of one class.
pub open spec fn only_class(
    list: Seq<ResolvedRenderResourceBinding>,
    class: RenderBindingClass,
) -> bool {
    forall|k: int| 0 <= k < list.len() ==> (#[trigger] list[k]).class == class
}

/// Whether a stage's buffer argument is bound: as much of the buffer in its slot
/// as the shader reads, from the bound offset on, under the binding that the
/// shader states. An argument that the shader does not use needs none.
pub open spec fn buffer_is_bound(
    session: ReplacementRuntimeSession,
    list: Seq<ResolvedRenderResourceBinding>,
    stage: Stage,
    reflection: StageReflection,
    table: Seq<Option<ReplacementRenderBufferBinding>>,
    bounds: RenderBufferIndexBounds,
    reflected: ReflectedBinding,
) -> bool {
    let index = reflected.metal_index;
    if !(reflected.kind is Buffer) || !(reflected.buffer_use is Used) {
        true
    } else if index >= table.len() || table[index as int] is None {
        false
    } else if reflected.buffer_access is Unused {
        true
    } else {
        let bound = table[index as int]->0;
        let tail = answer_of(
            session.buffers@,
            BufferQuery { reference: bound.reference, offset: bound.offset, length: None },
        );
        let read = answer_of(
            reflection.buffer_extents@,
            ExtentQuery { metal_index: index, bounds },
        );
        match (read, tail) {
            (Some(read), Some(BufferAnswer::Range(available))) => {
                let whole = read is None || read == Some(available.region.length);
                &&& read is Some ==> read->0 <= available.region.length
                &&& match answer_of(
                    session.buffers@,
                    BufferQuery {
                        reference: bound.reference,
                        offset: bound.offset,
                        length: if whole {
                            None
                        } else {
                            read
                        },
                    },
                ) {
                    Some(BufferAnswer::Range(range)) => held(
                        list,
                        ResolvedRenderResourceBinding {
                            class: RenderBindingClass::StorageBuffer,
                            binding: reflected.buffer_binding,
                            array_element: 0,
                            descriptor_count: 1,
                            stages: stage_mask(stage),
                            resource: range.resource,
                            backing: range.storage,
                            view: RenderBindingView::Buffer(range.region),
                            region: BackingRegion::Linear(range.region),
                            mode: AccessMode::Unknown,
                        },
                    ),
                    _ => false,
                }
            },
            _ => false,
        }
    }
}

proof fn lemma_held_as_any_mode(
    list: Seq<ResolvedRenderResourceBinding>,
    wanted: ResolvedRenderResourceBinding,
    mode: AccessMode,
)
    requires
        held(list, wanted),
    ensures
        held(list, ResolvedRenderResourceBinding { mode, ..wanted }),
{
    let k = choose|k: int| 0 <= k < list.len() && stands_for(#[trigger] list[k], wanted);
    assert(stands_for(list[k], ResolvedRenderResourceBinding { mode, ..wanted }));
}

proof fn lemma_a_buffer_is_bound(
    session: ReplacementRuntimeSession,
    list: Seq<ResolvedRenderResourceBinding>,
    stage: Stage,
    reflection: StageReflection,
    table: Seq<Option<ReplacementRenderBufferBinding>>,
    bounds: RenderBufferIndexBounds,
    reflected: ReflectedBinding,
)
    ensures
        match with_buffer(session, list, stage, reflection, table, bounds, reflected) {
            Ok(after) => {
                &&& resources_kept(list, after)
                &&& only_class(list, RenderBindingClass::StorageBuffer) ==> only_class(
                    after,
                    RenderBindingClass::StorageBuffer,
                )
                &&& buffer_is_bound(session, after, stage, reflection, table, bounds, reflected)
            },
            Err(_) => true,
        },
{
    lemma_kept_same(list);
    let index = reflected.metal_index;
    if reflected.kind is Buffer && reflected.buffer_use is Used && index < table.len()
        && table[index as int] is Some && buffer_mode(reflected) is Some {
        let query = ExtentQuery { metal_index: index, bounds };
        if let Ok(range) = buffer_extent_run(
            session,
            stage,
            reflection,
            table[index as int]->0,
            query,
        ) {
            let candidate = ResolvedRenderResourceBinding {
                class: RenderBindingClass::StorageBuffer,
                binding: reflected.buffer_binding,
                array_element: 0,
                descriptor_count: 1,
                stages: stage_mask(stage),
                resource: range.resource,
                backing: range.storage,
                view: RenderBindingView::Buffer(range.region),
                region: BackingRegion::Linear(range.region),
                mode: buffer_mode(reflected)->0,
            };
            let collision = ReplacementRenderDrawResolutionError::BufferBindingCollision(
                reflected.buffer_binding,
            );
            lemma_a_resource_joins_its_list(list, candidate, collision);
            if let Ok(after) = with_resource(list, candidate, collision) {
                assert(held(after, candidate));
                lemma_held_as_any_mode(after, candidate, AccessMode::Unknown);
            }
        }
    }
}

proof fn lemma_buffer_stays_bound(
    session: ReplacementRuntimeSession,
    before: Seq<ResolvedRenderResourceBinding>,
    after: Seq<ResolvedRenderResourceBinding>,
    stage: Stage,
    reflection: StageReflection,
    table: Seq<Option<ReplacementRenderBufferBinding>>,
    bounds: RenderBufferIndexBounds,
    reflected: ReflectedBinding,
)
    requires
        buffer_is_bound(session, before, stage, reflection, table, bounds, reflected),
        resources_kept(before, after),
    ensures
        buffer_is_bound(session, after, stage, reflection, table, bounds, reflected),
{
    assert forall|wanted: ResolvedRenderResourceBinding| held(before, wanted) implies #[trigger] held(
        after,
        wanted,
    ) by {
        lemma_held_is_kept(before, after, wanted);
    }
}

proof fn lemma_stage_buffers_are_bound(
    session: ReplacementRuntimeSession,
    list: Seq<ResolvedRenderResourceBinding>,
    stage: Stage,
    reflection: StageReflection,
    table: Seq<Option<ReplacementRenderBufferBinding>>,
    bounds: RenderBufferIndexBounds,
    n: nat,
)
    ensures
        match with_stage_buffers(session, list, stage, reflection, table, bounds, n) {
            Ok(after) => {
                &&& resources_kept(list, after)
                &&& only_class(list, RenderBindingClass::StorageBuffer) ==> only_class(
                    after,
                    RenderBindingClass::StorageBuffer,
                )
                &&& forall|i: int|
                    0 <= i < n ==> buffer_is_bound(
                        session,
                        after,
                        stage,
                        reflection,
                        table,
                        bounds,
                        #[trigger] reflection.bindings@[i],
                    )
            },
            Err(_) => true,
        },
    decreases n,
{
    lemma_kept_same(list);
    if n > 0 {
        let m = (n - 1) as nat;
        lemma_stage_buffers_are_bound(session, list, stage, reflection, table, bounds, m);
        if let Ok(done) = with_stage_buffers(session, list, stage, reflection, table, bounds, m) {
            let last = reflection.bindings@[n - 1];
            lemma_a_buffer_is_bound(session, done, stage, reflection, table, bounds, last);
            if let Ok(after) = with_buffer(
                session,
                done,
                stage,
                reflection,
                table,
                bounds,
                last,
            ) {
                lemma_kept_twice(list, done, after);
                assert forall|i: int| 0 <= i < n implies buffer_is_bound(
                    session,
                    after,
                    stage,
                    reflection,
                    table,
                    bounds,
                    #[trigger] reflection.bindings@[i],
                ) by {
                    if i < m {
                        lemma_buffer_stays_bound(
                            session,
                            done,
                            after,
                            stage,
                            reflection,
                            table,
                            bounds,
                            reflection.bindings@[i],
                        );
                    }
                }
            }
        }
    }
}

/// Every buffer that a shader of a draw uses is bound: in the vertex stage to
/// what the vertex table holds at its index, in the fragment stage to what the
/// fragment table holds there.
pub proof fn lemma_every_used_buffer_is_bound(
    session: ReplacementRuntimeSession,
    vertex: StageReflection,
    fragment: StageReflection,
    vertex_table: Seq<Option<ReplacementRenderBufferBinding>>,
    fragment_table: Seq<Option<ReplacementRenderBufferBinding>>,
    bounds: RenderBufferIndexBounds,
)
    ensures
        match draw_buffers(session, vertex, fragment, vertex_table, fragment_table, bounds) {
            Ok(list) => {
                &&& forall|i: int|
                    0 <= i < vertex.bindings@.len() ==> buffer_is_bound(
                        session,
                        list,
                        Stage::Vertex,
                        vertex,
                        vertex_table,
                        bounds,
                        #[trigger] vertex.bindings@[i],
                    )
                &&& forall|i: int|
                    0 <= i < fragment.bindings@.len() ==> buffer_is_bound(
                        session,
                        list,
                        Stage::Fragment,
                        fragment,
                        fragment_table,
                        bounds,
                        #[trigger] fragment.bindings@[i],
                    )
                &&& only_class(list, RenderBindingClass::StorageBuffer)
            },
            Err(_) => true,
        },
{
    let none = Seq::<ResolvedRenderResourceBinding>::empty();
    let count = vertex.bindings@.len();
    lemma_stage_buffers_are_bound(
        session,
        none,
        Stage::Vertex,
        vertex,
        vertex_table,
        bounds,
        count,
    );
    if let Ok(first) = with_stage_buffers(
        session,
        none,
        Stage::Vertex,
        vertex,
        vertex_table,
        bounds,
        count,
    ) {
        lemma_stage_buffers_are_bound(
            session,
            first,
            Stage::Fragment,
            fragment,
            fragment_table,
            bounds,
            fragment.bindings@.len(),
        );
        if let Ok(list) = draw_buffers(
            session,
            vertex,
            fragment,
            vertex_table,
            fragment_table,
            bounds,
        ) {
            assert forall|i: int| 0 <= i < vertex.bindings@.len() implies buffer_is_bound(
                session,
                list,
                Stage::Vertex,
                vertex,
                vertex_table,
                bounds,
                #[trigger] vertex.bindings@[i],
            ) by {
                lemma_buffer_stays_bound(
                    session,
                    first,
                    list,
                    Stage::Vertex,
                    vertex,
                    vertex_table,
                    bounds,
                    vertex.bindings@[i],
                );
            }
        }
    }
}

/// A buffer argument is bound for what its shader does with it.
pub proof fn lemma_a_buffer_is_accessed_as_declared(reflected: ReflectedBinding)
    ensures
        buffer_mode(reflected) == Some(AccessMode::Read) <==> reflected.buffer_access is ReadOnly,
        buffer_mode(reflected) == Some(AccessMode::ReadWrite) <==> reflected.buffer_access
            is Writable,
        buffer_mode(reflected) is None <==> reflected.buffer_access is Unused,
        buffer_mode(reflected) != Some(AccessMode::Write),
{
}

/// Whether an attribute of a vertex is fetched: from the tail of the buffer in
/// its slot, with the bound stride where one is bound and else with its own.
pub open spec fn attribute_is_fetched(
    session: ReplacementRuntimeSession,
    lists: VertexLists,
    table: Seq<Option<ReplacementRenderBufferBinding>>,
    attribute: VertexAttribute,
) -> bool {
    let index = attribute.buffer_index;
    if attribute.format == 0 || attribute.stride == 0 {
        true
    } else if index >= table.len() || table[index as int] is None {
        false
    } else {
        let bound = table[index as int]->0;
        let stride = match bound.attribute_stride {
            Some(stride) => stride,
            None => attribute.stride as u64,
        };
        &&& exists|k: int|
            0 <= k < lists.layouts.len() && (#[trigger] lists.layouts[k]).binding == index
                && lists.layouts[k].stride == stride
        &&& match answer_of(
            session.buffers@,
            BufferQuery { reference: bound.reference, offset: bound.offset, length: None },
        ) {
            Some(BufferAnswer::Range(range)) => held(
                lists.resources,
                ResolvedRenderResourceBinding {
                    class: RenderBindingClass::VertexBuffer,
                    binding: index,
                    array_element: 0,
                    descriptor_count: 1,
                    stages: RENDER_STAGE_VERTEX,
                    resource: range.resource,
                    backing: range.storage,
                    view: RenderBindingView::Buffer(range.region),
                    region: BackingRegion::Linear(range.region),
                    mode: AccessMode::Read,
                },
            ),
            _ => false,
        }
    }
}

proof fn lemma_attributes_are_fetched(
    session: ReplacementRuntimeSession,
    table: Seq<Option<ReplacementRenderBufferBinding>>,
    attributes: Seq<VertexAttribute>,
)
    ensures
        match with_attributes(session, table, attributes) {
            Ok(lists) => {
                &&& only_class(lists.resources, RenderBindingClass::VertexBuffer)
                &&& forall|i: int|
                    0 <= i < attributes.len() ==> attribute_is_fetched(
                        session,
                        lists,
                        table,
                        #[trigger] attributes[i],
                    )
            },
            Err(_) => true,
        },
    decreases attributes.len(),
{
    if attributes.len() > 0 {
        let earlier = attributes.drop_last();
        let last = attributes.last();
        lemma_attributes_are_fetched(session, table, earlier);
        if let Ok(done) = with_attributes(session, table, earlier) {
            let index = last.buffer_index;
            lemma_layout_position(done.layouts, index);
            lemma_kept_same(done.resources);
            if let Ok(after) = with_attribute(session, done, table, last) {
                if last.format != 0 && last.stride != 0 {
                    let bound = table[index as int]->0;
                    let range = session.buffer(bound.reference, bound.offset, None)->Ok_0;
                    let collision = ReplacementRenderDrawResolutionError::VertexBindingCollision(
                        index,
                    );
                    lemma_a_resource_joins_its_list(
                        done.resources,
                        vertex_resource(index, range),
                        collision,
                    );
                    assert(held(after.resources, vertex_resource(index, range)));
                    let stride = attribute_stride(last, bound)->Ok_0;
                    match layout_position(done.layouts, index) {
                        Some(p) => {
                            assert(after.layouts[p].binding == index);
                        },
                        None => {
                            assert(after.layouts[done.layouts.len() as int].binding == index);
                        },
                    }
                }
                assert forall|i: int| 0 <= i < attributes.len() implies attribute_is_fetched(
                    session,
                    after,
                    table,
                    #[trigger] attributes[i],
                ) by {
                    if i < earlier.len() {
                        let attribute = earlier[i];
                        assert(attribute == attributes[i]);
                        assert(attribute_is_fetched(session, done, table, attribute));
                        assert forall|wanted: ResolvedRenderResourceBinding|
                            held(done.resources, wanted) implies #[trigger] held(
                            after.resources,
                            wanted,
                        ) by {
                            lemma_held_is_kept(done.resources, after.resources, wanted);
                        }
                        if attribute.format != 0 && attribute.stride != 0 {
                            let bound = table[attribute.buffer_index as int]->0;
                            let stride = match bound.attribute_stride {
                                Some(stride) => stride,
                                None => attribute.stride as u64,
                            };
                            let k = choose|k: int|
                                0 <= k < done.layouts.len() && (
                                #[trigger] done.layouts[k]).binding == attribute.buffer_index
                                    && done.layouts[k].stride == stride;
                            assert(after.layouts[k] == done.layouts[k]);
                        }
                    }
                }
            }
        }
    }
}

/// Every attribute that a pipeline's vertices have is fetched from the buffer
/// that the encoder has bound for it.
pub proof fn lemma_every_attribute_is_fetched(
    session: ReplacementRuntimeSession,
    table: Seq<Option<ReplacementRenderBufferBinding>>,
    attributes: Seq<VertexAttribute>,
)
    ensures
        match draw_vertex_buffers(session, table, attributes) {
            Ok(lists) => {
                &&& only_class(lists.resources, RenderBindingClass::VertexBuffer)
                &&& forall|i: int|
                    0 <= i < attributes.len() ==> attribute_is_fetched(
                        session,
                        lists,
                        table,
                        #[trigger] attributes[i],
                    )
            },
            Err(_) => true,
        },
{
    broadcast use vstd::seq_lib::group_to_multiset_ensures;

    lemma_attributes_are_fetched(session, table, attributes);
    lemma_attribute_layouts_are_distinct(session, table, attributes);
    if let Ok(found) = with_attributes(session, table, attributes) {
        lemma_ordered_layouts(found.layouts);
        let lists = VertexLists { layouts: ordered_layouts(found.layouts), ..found };
        assert forall|i: int| 0 <= i < attributes.len() implies attribute_is_fetched(
            session,
            lists,
            table,
            #[trigger] attributes[i],
        ) by {
            let attribute = attributes[i];
            assert(attribute_is_fetched(session, found, table, attribute));
            if attribute.format != 0 && attribute.stride != 0 {
                let bound = table[attribute.buffer_index as int]->0;
                let stride = match bound.attribute_stride {
                    Some(stride) => stride,
                    None => attribute.stride as u64,
                };
                let k = choose|k: int|
                    0 <= k < found.layouts.len() && (#[trigger] found.layouts[k]).binding
                        == attribute.buffer_index && found.layouts[k].stride == stride;
                assert(found.layouts.contains(found.layouts[k]));
                assert(lists.layouts.to_multiset().count(found.layouts[k]) > 0);
                assert(lists.layouts.contains(found.layouts[k]));
            }
        }
    }
}

proof fn lemma_sampler_position(list: Seq<ResolvedRenderSamplerBinding>, binding: u32)
    ensures
        match sampler_position(list, binding) {
            Some(p) => 0 <= p < list.len() && list[p].binding == binding,
            None => true,
        },
    decreases list.len(),
{
    if list.len() > 0 {
        lemma_sampler_position(list.drop_last(), binding);
    }
}

/// Whether a list of samplers still holds all that it held.
pub open spec fn samplers_kept(
    before: Seq<ResolvedRenderSamplerBinding>,
    after: Seq<ResolvedRenderSamplerBinding>,
) -> bool {
    &&& before.len() <= after.len()
    &&& forall|k: int|
        0 <= k < before.len() ==> (#[trigger] after[k]).binding == before[k].binding
            && after[k].sampler == before[k].sampler && holds_stages(
            after[k].stages,
            before[k].stages,
        )
}

/// Whether a sampler is the one that a shader asks for, under the binding that
/// the shader states: the one compiled into the shader, else the one in its slot
/// with the bound clamp, else none.
pub open spec fn is_asked_sampler(
    session: ReplacementRuntimeSession,
    entry: ResolvedRenderSamplerBinding,
    stage: Stage,
    table: Seq<Option<ReplacementRenderSamplerBinding>>,
    reflected: ReflectedSampler,
) -> bool {
    let index = reflected.metal_index as int;
    &&& entry.binding == reflected.binding
    &&& entry.sampler.binding == reflected.binding
    &&& holds_stages(entry.stages, stage_mask(stage))
    &&& match reflected.static_state {
        Some(SamplerAnswer::Sampler(sampler)) => entry.sampler == (SamplerResource {
            binding: reflected.binding,
            ..sampler
        }),
        Some(SamplerAnswer::Refused(_)) => false,
        None => if index < table.len() && table[index] is Some {
            let bound = table[index]->0;
            match answer_of(session.samplers@, bound.reference) {
                Some(SamplerAnswer::Sampler(sampler)) => {
                    &&& bound.lod_clamp is None ==> entry.sampler == (SamplerResource {
                        binding: reflected.binding,
                        ..sampler
                    })
                    &&& bound.lod_clamp matches Some(clamp) ==> entry.sampler == (
                    SamplerResource {
                        binding: reflected.binding,
                        lod_min: clamp.0,
                        lod_max: clamp.1,
                        ..sampler
                    })
                },
                _ => false,
            }
        } else {
            entry.sampler == null_sampler(reflected.binding)
        },
    }
}

/// Whether a list holds the sampler that a shader asks for.
pub open spec fn sampler_is_bound(
    session: ReplacementRuntimeSession,
    list: Seq<ResolvedRenderSamplerBinding>,
    stage: Stage,
    table: Seq<Option<ReplacementRenderSamplerBinding>>,
    reflected: ReflectedSampler,
) -> bool {
    exists|k: int|
        0 <= k < list.len() && is_asked_sampler(
            session,
            #[trigger] list[k],
            stage,
            table,
            reflected,
        )
}

proof fn lemma_stage_samplers_are_bound(
    session: ReplacementRuntimeSession,
    list: Seq<ResolvedRenderSamplerBinding>,
    stage: Stage,
    table: Seq<Option<ReplacementRenderSamplerBinding>>,
    reflected: Seq<ReflectedSampler>,
)
    ensures
        match with_stage_samplers(session, list, stage, table, reflected) {
            Ok(after) => {
                &&& samplers_kept(list, after)
                &&& forall|i: int|
                    0 <= i < reflected.len() ==> sampler_is_bound(
                        session,
                        after,
                        stage,
                        table,
                        #[trigger] reflected[i],
                    )
            },
            Err(_) => true,
        },
    decreases reflected.len(),
{
    assert forall|k: int| 0 <= k < list.len() implies holds_stages(
        (#[trigger] list[k]).stages,
        list[k].stages,
    ) by {
        lemma_stages_join(list[k].stages, list[k].stages);
    }
    if reflected.len() > 0 {
        let earlier = reflected.drop_last();
        let last = reflected.last();
        lemma_stage_samplers_are_bound(session, list, stage, table, earlier);
        if let Ok(done) = with_stage_samplers(session, list, stage, table, earlier) {
            if let Ok(sampler) = reflected_sampler(session, stage, table, last) {
                lemma_sampler_position(done, sampler.binding);
                let mask = stage_mask(stage);
                lemma_stages_join(mask, mask);
                if let Ok(after) = with_sampler(done, stage, sampler) {
                    assert(samplers_kept(done, after)) by {
                        assert forall|k: int| 0 <= k < done.len() implies (
                        #[trigger] after[k]).binding == done[k].binding && after[k].sampler
                            == done[k].sampler && holds_stages(after[k].stages, done[k].stages) by {
                            lemma_stages_join(done[k].stages, done[k].stages);
                            lemma_stages_join(done[k].stages, mask);
                        }
                    }
                    assert(samplers_kept(list, after)) by {
                        assert forall|k: int| 0 <= k < list.len() implies (
                        #[trigger] after[k]).binding == list[k].binding && after[k].sampler
                            == list[k].sampler && holds_stages(after[k].stages, list[k].stages) by {
                            assert(done[k].binding == list[k].binding);
                            lemma_stages_within(
                                after[k].stages,
                                done[k].stages,
                                list[k].stages,
                            );
                        }
                    }
                    assert(sampler_is_bound(session, after, stage, table, last)) by {
                        match sampler_position(done, sampler.binding) {
                            Some(p) => {
                                lemma_stages_join(done[p].stages, mask);
                                assert(after[p].sampler == sampler);
                            },
                            None => {
                                assert(after[done.len() as int].sampler == sampler);
                            },
                        }
                    }
                    assert forall|i: int| 0 <= i < reflected.len() implies sampler_is_bound(
                        session,
                        after,
                        stage,
                        table,
                        #[trigger] reflected[i],
                    ) by {
                        if i < earlier.len() {
                            assert(earlier[i] == reflected[i]);
                            assert(sampler_is_bound(session, done, stage, table, earlier[i]));
                            lemma_samplers_stay_bound(
                                session,
                                done,
                                after,
                                stage,
                                table,
                                earlier[i],
                            );
                        }
                    }
                }
            }
        }
    }
}

proof fn lemma_samplers_stay_bound(
    session: ReplacementRuntimeSession,
    before: Seq<ResolvedRenderSamplerBinding>,
    after: Seq<ResolvedRenderSamplerBinding>,
    stage: Stage,
    table: Seq<Option<ReplacementRenderSamplerBinding>>,
    reflected: ReflectedSampler,
)
    requires
        samplers_kept(before, after),
        sampler_is_bound(session, before, stage, table, reflected),
    ensures
        sampler_is_bound(session, after, stage, table, reflected),
{
    let k = choose|k: int|
        0 <= k < before.len() && is_asked_sampler(
            session,
            #[trigger] before[k],
            stage,
            table,
            reflected,
        );
    assert(after[k].binding == before[k].binding);
    lemma_stages_within(after[k].stages, before[k].stages, stage_mask(stage));
    assert(is_asked_sampler(session, after[k], stage, table, reflected));
}

/// Every sampler that a shader of a draw declares is bound: in the vertex stage
/// out of the vertex table, in the fragment stage out of the fragment table.
pub proof fn lemma_every_declared_sampler_is_bound(
    session: ReplacementRuntimeSession,
    vertex: StageReflection,
    fragment: StageReflection,
    vertex_table: Seq<Option<ReplacementRenderSamplerBinding>>,
    fragment_table: Seq<Option<ReplacementRenderSamplerBinding>>,
)
    ensures
        match draw_samplers(session, vertex, fragment, vertex_table, fragment_table) {
            Ok(list) => {
                &&& forall|i: int|
                    0 <= i < vertex.samplers@.len() ==> sampler_is_bound(
                        session,
                        list,
                        Stage::Vertex,
                        vertex_table,
                        #[trigger] vertex.samplers@[i],
                    )
                &&& forall|i: int|
                    0 <= i < fragment.samplers@.len() ==> sampler_is_bound(
                        session,
                        list,
                        Stage::Fragment,
                        fragment_table,
                        #[trigger] fragment.samplers@[i],
                    )
            },
            Err(_) => true,
        },
{
    let none = Seq::<ResolvedRenderSamplerBinding>::empty();
    lemma_stage_samplers_are_bound(
        session,
        none,
        Stage::Vertex,
        vertex_table,
        vertex.samplers@,
    );
    if let Ok(first) = with_stage_samplers(
        session,
        none,
        Stage::Vertex,
        vertex_table,
        vertex.samplers@,
    ) {
        lemma_stage_samplers_are_bound(
            session,
            first,
            Stage::Fragment,
            fragment_table,
            fragment.samplers@,
        );
        if let Ok(list) = draw_samplers(
            session,
            vertex,
            fragment,
            vertex_table,
            fragment_table,
        ) {
            assert forall|i: int| 0 <= i < vertex.samplers@.len() implies sampler_is_bound(
                session,
                list,
                Stage::Vertex,
                vertex_table,
                #[trigger] vertex.samplers@[i],
            ) by {
                lemma_samplers_stay_bound(
                    session,
                    first,
                    list,
                    Stage::Vertex,
                    vertex_table,
                    vertex.samplers@[i],
                );
            }
        }
    }
}

/// A refused attribute names its own place, and what it states there.
pub proof fn lemma_a_refused_attribute_names_its_place(
    attribute: VertexAttribute,
    bound: ReplacementRenderBufferBinding,
)
    ensures
        match attribute_form(attribute) {
            Err(ReplacementRenderDrawResolutionError::VertexAttributeFormat {
                location,
                reason,
            }) => location == attribute.location && attribute.format_refusal == Some(reason),
            Err(ReplacementRenderDrawResolutionError::VertexStepFunction { location, reason }) =>
            location == attribute.location && attribute.step == VertexStep::Undeclared(reason),
            Err(
                ReplacementRenderDrawResolutionError::VertexStepRate {
                    location,
                    step_function,
                    step_rate,
                },
            ) => location == attribute.location && step_rate == attribute.step_rate
                && attribute.step == (VertexStep::Declared {
                function: step_function,
                rate_in_contract: false,
            }),
            Err(_) => false,
            Ok(_) => attribute.format_refusal is None && attribute.step is Declared,
        },
        match attribute_stride(attribute, bound) {
            Ok(stride) => if bound.attribute_stride is Some {
                stride == bound.attribute_stride->0
            } else {
                stride == attribute.stride
            },
            Err(
                ReplacementRenderDrawResolutionError::DynamicVertexStrideOutOfRange {
                    index,
                    bound: stated,
                },
            ) => index == attribute.buffer_index && bound.attribute_stride == Some(stated) && stated
                > u32::MAX,
            Err(_) => false,
        },
{
}

/// The run that a bound buffer is read in starts where the buffer is bound and
/// is as long as the shader is bounded to, or reaches to the buffer's end; a
/// bound past the end is refused with both lengths.
pub proof fn lemma_a_buffer_is_read_from_where_it_is_bound(
    session: ReplacementRuntimeSession,
    stage: Stage,
    index: u32,
    bound: ReplacementRenderBufferBinding,
    required: Option<u64>,
)
    ensures
        ({
            let tail = answer_of(
                session.buffers@,
                BufferQuery { reference: bound.reference, offset: bound.offset, length: None },
            );
            match buffer_run(session, stage, index, bound, required) {
                Ok(range) => {
                    &&& tail matches Some(BufferAnswer::Range(available))
                    &&& required is None ==> range == available
                    &&& required is Some ==> required->0 <= available.region.length
                    &&& required is Some && required->0 < available.region.length ==> answer_of(
                        session.buffers@,
                        BufferQuery {
                            reference: bound.reference,
                            offset: bound.offset,
                            length: required,
                        },
                    ) == Some(BufferAnswer::Range(range))
                    &&& required == Some(available.region.length) ==> range == available
                },
                Err(
                    ReplacementRenderDrawResolutionError::BufferExtentPastBinding {
                        stage: at,
                        index: slot,
                        required: asked,
                        available,
                    },
                ) => {
                    &&& at == stage && slot == index
                    &&& required == Some(asked) && asked > available
                    &&& tail matches Some(BufferAnswer::Range(range))
                    &&& available == range.region.length
                },
                Err(
                    ReplacementRenderDrawResolutionError::Buffer { stage: at, index: slot, reason },
                ) => at == stage && slot == index,
                Err(_) => false,
            }
        }),
{
}

} // verus!
