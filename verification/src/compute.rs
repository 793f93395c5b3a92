//! Dispatches and control flow of a compute encoder, resolved.

use vstd::prelude::*;

use crate::command::{ComputeCommand, ComputeKind, Size3};
use crate::compute_state::{ComputeAccum, ComputeAccumView, ImageblockDimensions};
use crate::encoder_state::ReplacementRecordProjectionState;
use crate::icb::{IcbComputeFill, IndirectCommandBufferDescriptor};
use crate::session::{
    BufferAnswer, BufferQuery, ComputeContract, ComputePipelineAnswer,
    ReplacementBufferRangeResolutionError, ReplacementComputeTranslationAvailability,
    ReplacementRuntimeSession, ReplacementTextureResolutionError, ResolvedBufferRange,
    ResolvedTextureBinding, SamplerAnswer, SamplerResource, TextureAnswer, TranslationAnswer,
    TranslationQuery,
};
use crate::tables::answer_of;

verus! {

/// Bytes of a dispatch's arguments in memory.
pub const COMPUTE_INDIRECT_ARGUMENT_BYTES: u64 = 12;

/// Bytes of the word that a condition reads.
pub const CONDITION_WORD_BYTES: u64 = 4;

/// Three counts.
#[derive(Clone, Copy, Debug, PartialEq, Eq, Structural)]
pub struct Extent3 {
    pub x: u32,
    pub y: u32,
    pub z: u32,
}

/// Why a dispatch's arguments cannot be bound.
#[derive(Clone, Copy, Debug, PartialEq, Eq, Structural)]
pub enum ReplacementComputeConstructionError {
    PipelineMissing,
    IcbPipelineMissing,
    BufferMissing(u32),
    TextureMissing(u32),
    TextureUnanswered(u32),
    TextureView(u32),
    ResourceBackingMissing(u64),
    SamplerMissing(u32),
    SamplerState,
}

/// Why a dispatch does not resolve.
#[derive(Clone, Copy, Debug, PartialEq, Eq, Structural)]
pub enum ReplacementComputeDispatchResolutionError {
    NotDirectDispatch,
    IndirectBuffer(ReplacementBufferRangeResolutionError),
    IndirectThreadsRequireGpuWorkgroupConversion { buffer_ref: u32, offset: u64 },
    GridDimensionOutOfRange,
    GridInvalid,
    Pipeline(ReplacementComputeTranslationAvailability),
    StageInputUnsupported(u64),
    ImageblockUnsupported(ImageblockDimensions),
    Construction(ReplacementComputeConstructionError),
    /// The session holds no answer to building these arguments.
    ArgumentsUnanswered { translation: u64, of: ConstructionOf },
}

/// How many threadgroups a dispatch launches.
#[derive(Clone, Copy, Debug, PartialEq, Eq, Structural)]
pub enum ResolvedComputeLaunch {
    Direct(Extent3),
    IndirectThreadgroups { arguments: ResolvedBufferRange, threads_per_threadgroup: Extent3 },
}

/// What arguments are built for.
#[derive(Clone, Copy, Debug, PartialEq, Eq, Structural)]
pub enum ConstructionOf {
    Launch(ResolvedComputeLaunch),
    Command { descriptor: IndirectCommandBufferDescriptor, fill: IcbComputeFill },
}

/// Arguments to be built: the kernel's translation says which of the encoder's
/// binds it takes.
#[derive(Debug, PartialEq, Eq)]
pub struct ConstructionQuery {
    pub translation: u64,
    pub of: ConstructionOf,
    pub binds: ComputeAccum,
}

/// What contracts say of arguments to be built.
#[verifier::ext_equal]
pub struct ConstructionView {
    pub translation: u64,
    pub of: ConstructionOf,
    pub binds: ComputeAccumView,
}

impl View for ConstructionQuery {
    type V = ConstructionView;

    open spec fn view(&self) -> ConstructionView {
        ConstructionView { translation: self.translation, of: self.of, binds: self.binds@ }
    }
}

/// What building arguments gave.
#[derive(Clone, Copy, Debug, PartialEq, Eq, Structural)]
pub enum ConstructionAnswer {
    Built(u64),
    Refused(ReplacementComputeConstructionError),
}

/// The answer that the first row to a question holds.
pub open spec fn construction_of(
    rows: Seq<(ConstructionQuery, ConstructionAnswer)>,
    query: ConstructionView,
) -> Option<ConstructionAnswer>
    decreases rows.len(),
{
    if rows.len() == 0 {
        None
    } else if rows[0].0@ == query {
        Some(rows[0].1)
    } else {
        construction_of(rows.skip(1), query)
    }
}

/// The arguments that a kernel is launched with, or why they cannot be built.
pub open spec fn built_arguments(session: ReplacementRuntimeSession, query: ConstructionView) -> Result<
    u64,
    ReplacementComputeDispatchResolutionError,
> {
    match construction_of(session.constructions@, query) {
        None => Err(
            ReplacementComputeDispatchResolutionError::ArgumentsUnanswered {
                translation: query.translation,
                of: query.of,
            },
        ),
        Some(ConstructionAnswer::Refused(reason)) => Err(
            ReplacementComputeDispatchResolutionError::Construction(reason),
        ),
        Some(ConstructionAnswer::Built(arguments)) => Ok(arguments),
    }
}

/// Finds the arguments that a kernel is launched with.
pub fn resolve_arguments(
    session: &ReplacementRuntimeSession,
    translation: u64,
    of: ConstructionOf,
    binds: &ComputeAccum,
) -> (arguments: Result<u64, ReplacementComputeDispatchResolutionError>)
    ensures
        arguments == built_arguments(
            *session,
            ConstructionView { translation, of, binds: binds@ },
        ),
{
    let rows = &session.constructions;
    let ghost query = ConstructionView { translation, of, binds: binds@ };
    let mut i: usize = 0;
    assert(rows@.skip(0) =~= rows@);
    while i < rows.len()
        invariant
            i <= rows.len(),
            *rows == session.constructions,
            query == (ConstructionView { translation, of, binds: binds@ }),
            construction_of(rows@, query) == construction_of(rows@.skip(i as int), query),
        decreases rows.len() - i,
    {
        assert(rows@.skip(i as int).skip(1) =~= rows@.skip(i as int + 1));
        let asked = &rows[i].0;
        if asked.translation == translation && asked.of == of && asked.binds.same(binds) {
            assert(rows@.skip(i as int)[0].0@ == query);
            return match rows[i].1 {
                ConstructionAnswer::Built(arguments) => Ok(arguments),
                ConstructionAnswer::Refused(reason) => Err(
                    ReplacementComputeDispatchResolutionError::Construction(reason),
                ),
            };
        }
        i += 1;
    }
    Err(ReplacementComputeDispatchResolutionError::ArgumentsUnanswered { translation, of })
}

/// A dispatch, resolved.
#[derive(Debug, PartialEq, Eq)]
pub struct ResolvedComputeDispatch {
    pub pipeline: u64,
    pub translation: u64,
    pub launch: ResolvedComputeLaunch,
    pub arguments: u64,
    /// What the encoder holds when the dispatch comes.
    pub binds: ComputeAccum,
}

/// What contracts say of a dispatch.
#[verifier::ext_equal]
pub struct ComputeDispatchView {
    pub pipeline: u64,
    pub translation: u64,
    pub launch: ResolvedComputeLaunch,
    pub arguments: u64,
    pub binds: ComputeAccumView,
}

impl View for ResolvedComputeDispatch {
    type V = ComputeDispatchView;

    open spec fn view(&self) -> ComputeDispatchView {
        ComputeDispatchView {
            pipeline: self.pipeline,
            translation: self.translation,
            launch: self.launch,
            arguments: self.arguments,
            binds: self.binds@,
        }
    }
}

/// The view of what a dispatch record resolves to.
pub open spec fn dispatch_result(
    result: Result<ResolvedComputeDispatch, ReplacementComputeDispatchResolutionError>,
) -> Result<ComputeDispatchView, ReplacementComputeDispatchResolutionError> {
    match result {
        Ok(dispatch) => Ok(dispatch@),
        Err(error) => Err(error),
    }
}

// The arguments of a dispatch.

/// The pipeline a reference names.
pub open spec fn compute_pipeline(session: ReplacementRuntimeSession, reference: u32) -> Result<
    u64,
    ReplacementComputeConstructionError,
> {
    match answer_of(session.compute_pipelines@, reference) {
        Some(pipeline) => Ok(pipeline.identity),
        None => Err(ReplacementComputeConstructionError::PipelineMissing),
    }
}

/// The buffer bound to an argument.
pub open spec fn compute_buffer(
    session: ReplacementRuntimeSession,
    index: u32,
    reference: u32,
    offset: u64,
    length: Option<u64>,
) -> Result<ResolvedBufferRange, ReplacementComputeConstructionError> {
    match session.buffer(reference, offset, length) {
        Ok(range) => Ok(range),
        Err(_) => Err(ReplacementComputeConstructionError::BufferMissing(index)),
    }
}

/// The texture bound to an argument. Where its storage is missing, the refusal
/// names the resource, if the reference names one.
pub open spec fn compute_texture(
    session: ReplacementRuntimeSession,
    index: u32,
    reference: u32,
) -> Result<ResolvedTextureBinding, ReplacementComputeConstructionError> {
    match session.texture(reference) {
        Ok(texture) => Ok(texture),
        Err(ReplacementTextureResolutionError::Unanswered(reference)) => Err(
            ReplacementComputeConstructionError::TextureUnanswered(reference),
        ),
        Err(ReplacementTextureResolutionError::ResourceUnavailable) => Err(
            ReplacementComputeConstructionError::TextureMissing(index),
        ),
        Err(ReplacementTextureResolutionError::View(reason)) => Err(
            ReplacementComputeConstructionError::TextureView(reason),
        ),
        Err(ReplacementTextureResolutionError::StorageUnavailable) => match session.resource(
            reference,
        ) {
            Some(resource) => Err(
                ReplacementComputeConstructionError::ResourceBackingMissing(resource),
            ),
            None => Err(ReplacementComputeConstructionError::TextureMissing(index)),
        },
    }
}

/// The sampler bound to an argument.
pub open spec fn compute_sampler(
    session: ReplacementRuntimeSession,
    index: u32,
    reference: u32,
    binding: u32,
) -> Result<SamplerResource, ReplacementComputeConstructionError> {
    match answer_of(session.samplers@, reference) {
        None => Err(ReplacementComputeConstructionError::SamplerMissing(index)),
        Some(SamplerAnswer::Refused(_)) => Err(ReplacementComputeConstructionError::SamplerState),
        Some(SamplerAnswer::Sampler(sampler)) => Ok(SamplerResource { binding, ..sampler }),
    }
}

/// Resolves the arguments that a kernel's translation asks for.
pub struct RootComputeResolver<'a> {
    pub session: &'a ReplacementRuntimeSession,
}

impl<'a> RootComputeResolver<'a> {
    /// The pipeline a reference names.
    pub fn pipeline(&self, reference: u32) -> (pipeline: Result<
        u64,
        ReplacementComputeConstructionError,
    >)
        ensures
            pipeline == compute_pipeline(*self.session, reference),
    {
        match self.session.resolve_compute_pipeline(reference) {
            Some(pipeline) => Ok(pipeline.identity),
            None => Err(ReplacementComputeConstructionError::PipelineMissing),
        }
    }

    /// The buffer bound to an argument.
    pub fn buffer(&self, index: u32, reference: u32, offset: u64, length: Option<u64>) -> (range:
        Result<ResolvedBufferRange, ReplacementComputeConstructionError>)
        ensures
            range == compute_buffer(*self.session, index, reference, offset, length),
    {
        let resolved = match length {
            Some(length) => self.session.resolve_buffer_range(reference, offset, length),
            None => self.session.resolve_buffer_tail(reference, offset),
        };
        match resolved {
            Ok(range) => Ok(range),
            Err(_) => Err(ReplacementComputeConstructionError::BufferMissing(index)),
        }
    }

    /// The texture bound to an argument.
    pub fn texture(&self, index: u32, reference: u32) -> (texture: Result<
        ResolvedTextureBinding,
        ReplacementComputeConstructionError,
    >)
        ensures
            texture == compute_texture(*self.session, index, reference),
    {
        match self.session.resolve_texture_binding(reference) {
            Ok(texture) => Ok(texture),
            Err(ReplacementTextureResolutionError::Unanswered(reference)) => Err(
                ReplacementComputeConstructionError::TextureUnanswered(reference),
            ),
            Err(ReplacementTextureResolutionError::ResourceUnavailable) => Err(
                ReplacementComputeConstructionError::TextureMissing(index),
            ),
            Err(ReplacementTextureResolutionError::View(reason)) => Err(
                ReplacementComputeConstructionError::TextureView(reason),
            ),
            Err(ReplacementTextureResolutionError::StorageUnavailable) => {
                match self.session.resolve_resource(reference) {
                    Some(resource) => Err(
                        ReplacementComputeConstructionError::ResourceBackingMissing(resource),
                    ),
                    None => Err(ReplacementComputeConstructionError::TextureMissing(index)),
                }
            },
        }
    }

    /// The sampler bound to an argument.
    pub fn sampler(&self, index: u32, reference: u32, binding: u32) -> (sampler: Result<
        SamplerResource,
        ReplacementComputeConstructionError,
    >)
        ensures
            sampler == compute_sampler(*self.session, index, reference, binding),
    {
        match self.session.resolve_sampler(reference) {
            None => Err(ReplacementComputeConstructionError::SamplerMissing(index)),
            Some(SamplerAnswer::Refused(_)) => Err(
                ReplacementComputeConstructionError::SamplerState,
            ),
            Some(SamplerAnswer::Sampler(mut sampler)) => {
                sampler.binding = binding;
                Ok(sampler)
            },
        }
    }
}

// The launch of a dispatch.

/// A nonzero count of at most 32 bits.
pub open spec fn narrow_count(value: u64) -> Option<u32> {
    if value == 0 || value > u32::MAX {
        None
    } else {
        Some(value as u32)
    }
}

/// Three nonzero counts of at most 32 bits.
pub open spec fn narrow_counts(size: Size3) -> Option<Extent3> {
    match (narrow_count(size.x), narrow_count(size.y), narrow_count(size.z)) {
        (Some(x), Some(y), Some(z)) => Some(Extent3 { x, y, z }),
        _ => None,
    }
}

/// Groups of `group` that cover `count`.
pub open spec fn groups_to_cover(count: u32, group: u32) -> u32
    recommends
        group > 0,
{
    ((count + group - 1) / (group as int)) as u32
}

/// The threadgroups that a grid takes: the grid itself, or as many as cover its
/// threads.
pub open spec fn launched_groups(grid: Extent3, group: Extent3, grid_is_threads: bool) -> Extent3 {
    if grid_is_threads {
        Extent3 {
            x: groups_to_cover(grid.x, group.x),
            y: groups_to_cover(grid.y, group.y),
            z: groups_to_cover(grid.z, group.z),
        }
    } else {
        grid
    }
}

/// Groups that cover a count are just enough to cover it.
pub proof fn lemma_groups_cover_exactly(count: u32, group: u32)
    requires
        count > 0,
        group > 0,
    ensures
        groups_to_cover(count, group) >= 1,
        groups_to_cover(count, group) * group >= count,
        (groups_to_cover(count, group) - 1) * group < count,
{
    let n = (count + group - 1) / (group as int);
    assert(0 < n <= count) by (nonlinear_arith)
        requires
            n == (count + group - 1) / (group as int),
            count > 0,
            group > 0,
    ;
    assert(n * group >= count && (n - 1) * group < count) by (nonlinear_arith)
        requires
            n == (count + group - 1) / (group as int),
            count > 0,
            group > 0,
    ;
}

fn narrow(size: Size3) -> (counts: Option<Extent3>)
    ensures
        counts == narrow_counts(size),
{
    if size.x == 0 || size.x > u32::MAX as u64 || size.y == 0 || size.y > u32::MAX as u64 || size.z
        == 0 || size.z > u32::MAX as u64 {
        return None;
    }
    Some(Extent3 { x: size.x as u32, y: size.y as u32, z: size.z as u32 })
}

fn cover(count: u32, group: u32) -> (groups: u32)
    requires
        count > 0,
        group > 0,
    ensures
        groups == groups_to_cover(count, group),
{
    let groups: u64 = (count as u64 + group as u64 - 1) / group as u64;
    assert(groups <= count) by (nonlinear_arith)
        requires
            groups == (count as int + group as int - 1) / (group as int),
            count > 0,
            group > 0,
    ;
    groups as u32
}

/// The threadgroups that a grid takes; `None` where an edge is zero.
pub fn workgroup_counts(grid: Extent3, group: Extent3, grid_is_threads: bool) -> (counts: Option<
    Extent3,
>)
    ensures
        match counts {
            None => grid.x == 0 || grid.y == 0 || grid.z == 0 || group.x == 0 || group.y == 0
                || group.z == 0,
            Some(counts) => {
                &&& grid.x != 0 && grid.y != 0 && grid.z != 0
                &&& group.x != 0 && group.y != 0 && group.z != 0
                &&& counts == launched_groups(grid, group, grid_is_threads)
                &&& grid_is_threads ==> {
                    &&& just_cover(counts.x, group.x, grid.x)
                    &&& just_cover(counts.y, group.y, grid.y)
                    &&& just_cover(counts.z, group.z, grid.z)
                }
                &&& !grid_is_threads ==> counts == grid
            },
        },
{
    if grid.x == 0 || grid.y == 0 || grid.z == 0 || group.x == 0 || group.y == 0 || group.z == 0 {
        return None;
    }
    proof {
        lemma_groups_cover_each_axis(grid, group);
    }
    if grid_is_threads {
        Some(
            Extent3 {
                x: cover(grid.x, group.x),
                y: cover(grid.y, group.y),
                z: cover(grid.z, group.z),
            },
        )
    } else {
        Some(grid)
    }
}

/// The launch that a dispatch record states.
pub open spec fn dispatch_launch(session: ReplacementRuntimeSession, c: ComputeCommand) -> Result<
    (ResolvedComputeLaunch, Extent3),
    ReplacementComputeDispatchResolutionError,
> {
    match c.kind {
        ComputeKind::DispatchThreadsIndirect => Err(
            ReplacementComputeDispatchResolutionError::IndirectThreadsRequireGpuWorkgroupConversion {
                buffer_ref: c.indirect_buffer_ref,
                offset: c.indirect_buffer_offset,
            },
        ),
        ComputeKind::DispatchThreadgroups
        | ComputeKind::DispatchThreads
        | ComputeKind::DispatchThreadgroupsIndirect => match narrow_counts(
            c.threads_per_threadgroup,
        ) {
            None => Err(ReplacementComputeDispatchResolutionError::GridDimensionOutOfRange),
            Some(group) => if c.kind is DispatchThreadgroupsIndirect {
                match session.buffer(
                    c.indirect_buffer_ref,
                    c.indirect_buffer_offset,
                    Some(COMPUTE_INDIRECT_ARGUMENT_BYTES),
                ) {
                    Err(reason) => Err(
                        ReplacementComputeDispatchResolutionError::IndirectBuffer(reason),
                    ),
                    Ok(arguments) => Ok(
                        (
                            ResolvedComputeLaunch::IndirectThreadgroups {
                                arguments,
                                threads_per_threadgroup: group,
                            },
                            group,
                        ),
                    ),
                }
            } else {
                match narrow_counts(c.grid) {
                    None => Err(ReplacementComputeDispatchResolutionError::GridDimensionOutOfRange),
                    Some(grid) => Ok(
                        (
                            ResolvedComputeLaunch::Direct(
                                launched_groups(grid, group, c.kind is DispatchThreads),
                            ),
                            group,
                        ),
                    ),
                }
            },
        },
        _ => Err(ReplacementComputeDispatchResolutionError::NotDirectDispatch),
    }
}

/// The kernel that a dispatch launches.
pub open spec fn dispatch_kernel(
    session: ReplacementRuntimeSession,
    s: ComputeAccumView,
    group: Extent3,
) -> Result<(u64, u64), ReplacementComputeDispatchResolutionError> {
    match answer_of(session.compute_pipelines@, s.pipeline_ref) {
        None => Err(
            ReplacementComputeDispatchResolutionError::Construction(
                ReplacementComputeConstructionError::PipelineMissing,
            ),
        ),
        Some(pipeline) => match (pipeline.contract, s.imageblock) {
            (None, _) => Err(
                ReplacementComputeDispatchResolutionError::Construction(
                    ReplacementComputeConstructionError::PipelineMissing,
                ),
            ),
            (Some(ComputeContract { stage_input: Some(stage_input) }), _) => Err(
                ReplacementComputeDispatchResolutionError::StageInputUnsupported(stage_input),
            ),
            (Some(_), Some(imageblock)) => Err(
                ReplacementComputeDispatchResolutionError::ImageblockUnsupported(imageblock),
            ),
            (Some(_), None) => match session.translation(
                TranslationQuery {
                    pipeline_ref: s.pipeline_ref,
                    x: group.x,
                    y: group.y,
                    z: group.z,
                },
            ) {
                Err(reason) => Err(ReplacementComputeDispatchResolutionError::Pipeline(reason)),
                Ok(translation) => Ok((pipeline.identity, translation)),
            },
        },
    }
}

/// What a dispatch record stands for under an encoder's state.
pub open spec fn encoder_dispatch(
    session: ReplacementRuntimeSession,
    s: ComputeAccumView,
    c: ComputeCommand,
) -> Result<ComputeDispatchView, ReplacementComputeDispatchResolutionError> {
    match dispatch_launch(session, c) {
        Err(error) => Err(error),
        Ok((launch, group)) => match dispatch_kernel(session, s, group) {
            Err(error) => Err(error),
            Ok((pipeline, translation)) => match built_arguments(
                session,
                ConstructionView { translation, of: ConstructionOf::Launch(launch), binds: s },
            ) {
                Err(error) => Err(error),
                Ok(arguments) => Ok(
                    ComputeDispatchView { pipeline, translation, launch, arguments, binds: s },
                ),
            },
        },
    }
}

fn resolve_dispatch_launch(session: &ReplacementRuntimeSession, command: &ComputeCommand)
    -> (launch: Result<
    (ResolvedComputeLaunch, Extent3),
    ReplacementComputeDispatchResolutionError,
>)
    ensures
        launch == dispatch_launch(*session, *command),
{
    let grid_is_threads = match command.kind {
        ComputeKind::DispatchThreadgroups => Some(false),
        ComputeKind::DispatchThreads => Some(true),
        ComputeKind::DispatchThreadgroupsIndirect => None,
        ComputeKind::DispatchThreadsIndirect => {
            return Err(
                ReplacementComputeDispatchResolutionError::IndirectThreadsRequireGpuWorkgroupConversion {
                    buffer_ref: command.indirect_buffer_ref,
                    offset: command.indirect_buffer_offset,
                },
            );
        },
        _ => {
            return Err(ReplacementComputeDispatchResolutionError::NotDirectDispatch);
        },
    };
    let group = match narrow(command.threads_per_threadgroup) {
        Some(group) => group,
        None => {
            return Err(ReplacementComputeDispatchResolutionError::GridDimensionOutOfRange);
        },
    };
    let launch = match grid_is_threads {
        Some(grid_is_threads) => {
            let grid = match narrow(command.grid) {
                Some(grid) => grid,
                None => {
                    return Err(ReplacementComputeDispatchResolutionError::GridDimensionOutOfRange);
                },
            };
            match workgroup_counts(grid, group, grid_is_threads) {
                Some(counts) => ResolvedComputeLaunch::Direct(counts),
                None => {
                    return Err(ReplacementComputeDispatchResolutionError::GridInvalid);
                },
            }
        },
        None => match session.resolve_buffer_range(
            command.indirect_buffer_ref,
            command.indirect_buffer_offset,
            COMPUTE_INDIRECT_ARGUMENT_BYTES,
        ) {
            Ok(arguments) => ResolvedComputeLaunch::IndirectThreadgroups {
                arguments,
                threads_per_threadgroup: group,
            },
            Err(reason) => {
                return Err(ReplacementComputeDispatchResolutionError::IndirectBuffer(reason));
            },
        },
    };
    Ok((launch, group))
}

/// Resolves a dispatch record under an encoder's state.
pub fn resolve_direct_compute_dispatch(
    session: &ReplacementRuntimeSession,
    accum: &ComputeAccum,
    command: &ComputeCommand,
) -> (dispatch: Result<ResolvedComputeDispatch, ReplacementComputeDispatchResolutionError>)
    ensures
        dispatch_result(dispatch) == encoder_dispatch(*session, accum@, *command),
{
    let (launch, group) = match resolve_dispatch_launch(session, command) {
        Ok(launch) => launch,
        Err(error) => {
            return Err(error);
        },
    };
    let missing = ReplacementComputeDispatchResolutionError::Construction(
        ReplacementComputeConstructionError::PipelineMissing,
    );
    let pipeline = match session.resolve_compute_pipeline(accum.pipeline_ref) {
        Some(pipeline) => pipeline,
        None => {
            return Err(missing);
        },
    };
    let contract = match pipeline.contract {
        Some(contract) => contract,
        None => {
            return Err(missing);
        },
    };
    if let Some(stage_input) = contract.stage_input {
        return Err(ReplacementComputeDispatchResolutionError::StageInputUnsupported(stage_input));
    }
    if let Some(imageblock) = accum.imageblock {
        return Err(ReplacementComputeDispatchResolutionError::ImageblockUnsupported(imageblock));
    }
    let translation = match session.resolve_compute_translation(
        TranslationQuery {
            pipeline_ref: accum.pipeline_ref,
            x: group.x,
            y: group.y,
            z: group.z,
        },
    ) {
        Ok(translation) => translation,
        Err(reason) => {
            return Err(ReplacementComputeDispatchResolutionError::Pipeline(reason));
        },
    };
    match resolve_arguments(session, translation, ConstructionOf::Launch(launch), accum) {
        Ok(arguments) => Ok(
            ResolvedComputeDispatch {
                pipeline: pipeline.identity,
                translation,
                launch,
                arguments,
                binds: accum.copied(),
            },
        ),
        Err(error) => Err(error),
    }
}

// Control flow.

/// The word that a condition compares.
#[derive(Clone, Copy, Debug, PartialEq, Eq, Structural)]
pub struct ReplacementResolvedComputeControlPredicate {
    pub buffer: ResolvedBufferRange,
    pub comparison: u32,
    pub reference_value: u32,
}

/// Why a control flow record does not resolve.
#[derive(Clone, Copy, Debug, PartialEq, Eq, Structural)]
pub enum ReplacementComputeControlFlowResolutionError {
    OutsideEncoder { kind: ComputeKind, opcode: u32 },
    PredicateBuffer {
        kind: ComputeKind,
        opcode: u32,
        buffer_ref: u32,
        reason: ReplacementBufferRangeResolutionError,
    },
    Unsupported {
        kind: ComputeKind,
        opcode: u32,
        predicate: Option<ReplacementResolvedComputeControlPredicate>,
    },
}

/// Whether a control flow record states a condition.
pub open spec fn states_condition(kind: ComputeKind) -> bool {
    kind is ControlStartWhile || kind is ControlStartIf || kind is ControlEndDoWhile
}

/// Why a control flow record does not resolve, inside an encoder or not.
pub open spec fn control_flow_refusal(
    session: ReplacementRuntimeSession,
    inside: bool,
    c: ComputeCommand,
) -> ReplacementComputeControlFlowResolutionError {
    if !inside {
        ReplacementComputeControlFlowResolutionError::OutsideEncoder {
            kind: c.kind,
            opcode: c.opcode,
        }
    } else if !states_condition(c.kind) {
        ReplacementComputeControlFlowResolutionError::Unsupported {
            kind: c.kind,
            opcode: c.opcode,
            predicate: None,
        }
    } else {
        match session.buffer(
            c.condition_buffer_ref,
            c.condition_buffer_offset,
            Some(CONDITION_WORD_BYTES),
        ) {
            Err(reason) => ReplacementComputeControlFlowResolutionError::PredicateBuffer {
                kind: c.kind,
                opcode: c.opcode,
                buffer_ref: c.condition_buffer_ref,
                reason,
            },
            Ok(buffer) => ReplacementComputeControlFlowResolutionError::Unsupported {
                kind: c.kind,
                opcode: c.opcode,
                predicate: Some(
                    ReplacementResolvedComputeControlPredicate {
                        buffer,
                        comparison: c.condition_comparison,
                        reference_value: c.condition_reference_value,
                    },
                ),
            },
        }
    }
}

/// Why a control flow record does not resolve.
pub fn resolve_compute_control_flow(
    session: &ReplacementRuntimeSession,
    state: &ReplacementRecordProjectionState,
    command: &ComputeCommand,
) -> (refusal: ReplacementComputeControlFlowResolutionError)
    ensures
        refusal == control_flow_refusal(*session, state@.compute is Some, *command),
{
    let kind = command.kind;
    let opcode: u32 = command.opcode;
    if state.compute.is_none() {
        return ReplacementComputeControlFlowResolutionError::OutsideEncoder { kind, opcode };
    }
    let predicate = if kind == ComputeKind::ControlStartWhile || kind
        == ComputeKind::ControlStartIf || kind == ComputeKind::ControlEndDoWhile {
        match session.resolve_buffer_range(
            command.condition_buffer_ref,
            command.condition_buffer_offset,
            CONDITION_WORD_BYTES,
        ) {
            Ok(buffer) => Some(
                ReplacementResolvedComputeControlPredicate {
                    buffer,
                    comparison: command.condition_comparison,
                    reference_value: command.condition_reference_value,
                },
            ),
            Err(reason) => {
                return ReplacementComputeControlFlowResolutionError::PredicateBuffer {
                    kind,
                    opcode,
                    buffer_ref: command.condition_buffer_ref,
                    reason,
                };
            },
        }
    } else {
        None
    };
    ReplacementComputeControlFlowResolutionError::Unsupported { kind, opcode, predicate }
}

/// Whether groups of one length cover a run of threads, and none of them lies
/// past its end.
pub open spec fn just_cover(counts: u32, group: u32, threads: u32) -> bool {
    counts * group >= threads && (counts - 1) * group < threads && counts >= 1
}

/// A grid of threads is covered on each axis by itself, with no group to spare.
pub proof fn lemma_groups_cover_each_axis(grid: Extent3, group: Extent3)
    requires
        grid.x > 0 && grid.y > 0 && grid.z > 0,
        group.x > 0 && group.y > 0 && group.z > 0,
    ensures
        just_cover(launched_groups(grid, group, true).x, group.x, grid.x),
        just_cover(launched_groups(grid, group, true).y, group.y, grid.y),
        just_cover(launched_groups(grid, group, true).z, group.z, grid.z),
        launched_groups(grid, group, false) == grid,
{
    lemma_groups_cover_exactly(grid.x, group.x);
    lemma_groups_cover_exactly(grid.y, group.y);
    lemma_groups_cover_exactly(grid.z, group.z);
}

/// A dispatch launches what its record states. A record that counts threads is
/// covered on each axis by its own groups; one that counts groups launches just
/// those; one that reads its counts from memory reads them where it states.
pub proof fn lemma_a_dispatch_launches_its_grid(
    session: ReplacementRuntimeSession,
    s: ComputeAccumView,
    c: ComputeCommand,
)
    ensures
        match encoder_dispatch(session, s, c) {
            Ok(dispatch) => {
                let group = c.threads_per_threadgroup;
                &&& 0 < group.x <= u32::MAX && 0 < group.y <= u32::MAX && 0 < group.z <= u32::MAX
                &&& match dispatch.launch {
                    ResolvedComputeLaunch::Direct(counts) => {
                        &&& c.kind is DispatchThreads || c.kind is DispatchThreadgroups
                        &&& 0 < c.grid.x <= u32::MAX && 0 < c.grid.y <= u32::MAX && 0 < c.grid.z
                            <= u32::MAX
                        &&& c.kind is DispatchThreads ==> {
                            &&& just_cover(counts.x, group.x as u32, c.grid.x as u32)
                            &&& just_cover(counts.y, group.y as u32, c.grid.y as u32)
                            &&& just_cover(counts.z, group.z as u32, c.grid.z as u32)
                        }
                        &&& c.kind is DispatchThreadgroups ==> counts.x == c.grid.x && counts.y
                            == c.grid.y && counts.z == c.grid.z
                    },
                    ResolvedComputeLaunch::IndirectThreadgroups {
                        arguments,
                        threads_per_threadgroup,
                    } => {
                        &&& c.kind is DispatchThreadgroupsIndirect
                        &&& answer_of(
                            session.buffers@,
                            BufferQuery {
                                reference: c.indirect_buffer_ref,
                                offset: c.indirect_buffer_offset,
                                length: Some(12u64),
                            },
                        ) == Some(BufferAnswer::Range(arguments))
                        &&& threads_per_threadgroup.x == group.x
                        &&& threads_per_threadgroup.y == group.y
                        &&& threads_per_threadgroup.z == group.z
                    },
                }
            },
            Err(_) => true,
        },
{
    if let (Some(grid), Some(group)) = (
        narrow_counts(c.grid),
        narrow_counts(c.threads_per_threadgroup),
    ) {
        lemma_groups_cover_each_axis(grid, group);
    }
}

/// A dispatch runs the kernel that its encoder has bound, as it was translated
/// for the group that the record states, with the arguments that were built for
/// this launch out of what the encoder holds.
pub proof fn lemma_a_dispatch_runs_the_bound_kernel(
    session: ReplacementRuntimeSession,
    s: ComputeAccumView,
    c: ComputeCommand,
)
    ensures
        match encoder_dispatch(session, s, c) {
            Ok(dispatch) => {
                &&& answer_of(session.compute_pipelines@, s.pipeline_ref) matches Some(pipeline)
                &&& pipeline.identity == dispatch.pipeline
                &&& pipeline.contract matches Some(contract)
                &&& contract.stage_input is None
                &&& s.imageblock is None
                &&& answer_of(
                    session.compute_translations@,
                    TranslationQuery {
                        pipeline_ref: s.pipeline_ref,
                        x: c.threads_per_threadgroup.x as u32,
                        y: c.threads_per_threadgroup.y as u32,
                        z: c.threads_per_threadgroup.z as u32,
                    },
                ) == Some(TranslationAnswer::Ready(dispatch.translation))
                &&& construction_of(
                    session.constructions@,
                    ConstructionView {
                        translation: dispatch.translation,
                        of: ConstructionOf::Launch(dispatch.launch),
                        binds: s,
                    },
                ) == Some(ConstructionAnswer::Built(dispatch.arguments))
                &&& dispatch.binds.pipeline_ref == s.pipeline_ref
                &&& dispatch.binds.buffers == s.buffers
                &&& dispatch.binds.textures == s.textures
                &&& dispatch.binds.samplers == s.samplers
                &&& dispatch.binds.dispatch_type == s.dispatch_type
                &&& dispatch.binds.stage_in == s.stage_in
                &&& dispatch.binds.threadgroup_memory == s.threadgroup_memory
            },
            Err(_) => true,
        },
{
}

/// A dispatch is owed wherever its counts are counts, its kernel is translated
/// for its group and takes neither stage input nor an imageblock, and its
/// arguments are built.
pub proof fn lemma_a_dispatch_is_owed(
    session: ReplacementRuntimeSession,
    s: ComputeAccumView,
    c: ComputeCommand,
    identity: u64,
    translation: u64,
)
    requires
        c.kind is DispatchThreads || c.kind is DispatchThreadgroups,
        0 < c.grid.x <= u32::MAX && 0 < c.grid.y <= u32::MAX && 0 < c.grid.z <= u32::MAX,
        0 < c.threads_per_threadgroup.x <= u32::MAX,
        0 < c.threads_per_threadgroup.y <= u32::MAX,
        0 < c.threads_per_threadgroup.z <= u32::MAX,
        answer_of(session.compute_pipelines@, s.pipeline_ref) == Some(
            ComputePipelineAnswer {
                identity,
                contract: Some(ComputeContract { stage_input: None }),
            },
        ),
        s.imageblock is None,
        answer_of(
            session.compute_translations@,
            TranslationQuery {
                pipeline_ref: s.pipeline_ref,
                x: c.threads_per_threadgroup.x as u32,
                y: c.threads_per_threadgroup.y as u32,
                z: c.threads_per_threadgroup.z as u32,
            },
        ) == Some(TranslationAnswer::Ready(translation)),
    ensures
        match encoder_dispatch(session, s, c) {
            Ok(_) => true,
            Err(ReplacementComputeDispatchResolutionError::Construction(reason)) => {
                exists|launch: ResolvedComputeLaunch|
                    #[trigger] construction_of(
                        session.constructions@,
                        ConstructionView {
                            translation,
                            of: ConstructionOf::Launch(launch),
                            binds: s,
                        },
                    ) == Some(ConstructionAnswer::Refused(reason))
            },
            Err(
                ReplacementComputeDispatchResolutionError::ArgumentsUnanswered {
                    translation: asked,
                    of: ConstructionOf::Launch(launch),
                },
            ) => asked == translation && construction_of(
                session.constructions@,
                ConstructionView { translation, of: ConstructionOf::Launch(launch), binds: s },
            ) is None,
            Err(_) => false,
        },
{
    let grid = narrow_counts(c.grid)->0;
    let group = narrow_counts(c.threads_per_threadgroup)->0;
    let launch = ResolvedComputeLaunch::Direct(
        launched_groups(grid, group, c.kind is DispatchThreads),
    );
    assert(dispatch_launch(session, c) == Ok::<
        (ResolvedComputeLaunch, Extent3),
        ReplacementComputeDispatchResolutionError,
    >((launch, group)));
    let answer = construction_of(
        session.constructions@,
        ConstructionView { translation, of: ConstructionOf::Launch(launch), binds: s },
    );
    assert(answer is None || answer is Some);
}

/// The question that the arguments of a launch are answered under is the first
/// row that asks for this translation, this launch and these binds.
pub proof fn lemma_a_construction_answers_its_own_question(
    rows: Seq<(ConstructionQuery, ConstructionAnswer)>,
    query: ConstructionView,
)
    ensures
        match construction_of(rows, query) {
            Some(answer) => exists|i: int|
                0 <= i < rows.len() && (#[trigger] rows[i]).1 == answer && rows[i].0.translation
                    == query.translation && rows[i].0.of == query.of && rows[i].0.binds@
                    == query.binds,
            None => forall|i: int|
                0 <= i < rows.len() ==> !((#[trigger] rows[i]).0.translation == query.translation
                    && rows[i].0.of == query.of && rows[i].0.binds@ == query.binds),
        },
    decreases rows.len(),
{
    if rows.len() > 0 {
        let rest = rows.skip(1);
        lemma_a_construction_answers_its_own_question(rest, query);
        assert forall|i: int| 0 <= i < rest.len() implies #[trigger] rest[i] == rows[i + 1] by {}
        if rows[0].0@ == query {
            assert(rows[0].1 == construction_of(rows, query)->0);
        } else {
            match construction_of(rest, query) {
                Some(answer) => {
                    let i = choose|i: int|
                        0 <= i < rest.len() && (#[trigger] rest[i]).1 == answer
                            && rest[i].0.translation == query.translation && rest[i].0.of
                            == query.of && rest[i].0.binds@ == query.binds;
                    assert(rows[i + 1] == rest[i]);
                },
                None => {
                    assert forall|i: int| 0 <= i < rows.len() implies !((
                    #[trigger] rows[i]).0.translation == query.translation && rows[i].0.of
                        == query.of && rows[i].0.binds@ == query.binds) by {
                        if i > 0 {
                            assert(rest[i - 1] == rows[i]);
                        }
                    }
                },
            }
        }
    }
}

/// The arguments that a kernel is built of are the session's answers under the
/// references and places that they are asked for by.
pub proof fn lemma_arguments_are_the_answers(
    session: ReplacementRuntimeSession,
    index: u32,
    reference: u32,
    offset: u64,
    length: Option<u64>,
    binding: u32,
)
    ensures
        match compute_buffer(session, index, reference, offset, length) {
            Ok(range) => answer_of(session.buffers@, BufferQuery { reference, offset, length })
                == Some(BufferAnswer::Range(range)),
            Err(error) => error == ReplacementComputeConstructionError::BufferMissing(index)
                && !(answer_of(session.buffers@, BufferQuery { reference, offset, length })
                matches Some(BufferAnswer::Range(_))),
        },
        match compute_texture(session, index, reference) {
            Ok(texture) => answer_of(session.textures@, reference) == Some(
                TextureAnswer::Texture(texture),
            ),
            Err(ReplacementComputeConstructionError::TextureMissing(named)) => named == index,
            Err(ReplacementComputeConstructionError::ResourceBackingMissing(resource)) => answer_of(
                session.resources@,
                reference,
            ) == Some(resource),
            Err(_) => !(answer_of(session.textures@, reference) matches Some(
                TextureAnswer::Texture(_),
            )),
        },
        match compute_sampler(session, index, reference, binding) {
            Ok(sampler) => {
                &&& sampler.binding == binding
                &&& answer_of(session.samplers@, reference) matches Some(
                    SamplerAnswer::Sampler(held),
                )
                &&& sampler == (SamplerResource { binding, ..held })
            },
            Err(ReplacementComputeConstructionError::SamplerMissing(named)) => named == index
                && answer_of(session.samplers@, reference) is None,
            Err(error) => error == ReplacementComputeConstructionError::SamplerState,
        },
        match compute_pipeline(session, reference) {
            Ok(identity) => {
                &&& answer_of(session.compute_pipelines@, reference) matches Some(pipeline)
                &&& pipeline.identity == identity
            },
            Err(_) => answer_of(session.compute_pipelines@, reference) is None,
        },
{
}

/// A refused control flow record names itself, and a condition the word that it
/// compares and what with.
pub proof fn lemma_a_refused_condition_names_its_word(
    session: ReplacementRuntimeSession,
    inside: bool,
    c: ComputeCommand,
)
    ensures
        match control_flow_refusal(session, inside, c) {
            ReplacementComputeControlFlowResolutionError::OutsideEncoder { kind, opcode } => {
                kind == c.kind && opcode == c.opcode && !inside
            },
            ReplacementComputeControlFlowResolutionError::PredicateBuffer {
                kind,
                opcode,
                buffer_ref,
                ..
            } => kind == c.kind && opcode == c.opcode && buffer_ref == c.condition_buffer_ref
                && inside,
            ReplacementComputeControlFlowResolutionError::Unsupported {
                kind,
                opcode,
                predicate,
            } => {
                &&& inside && kind == c.kind && opcode == c.opcode
                &&& predicate is Some <==> c.kind is ControlStartWhile || c.kind is ControlStartIf
                    || c.kind is ControlEndDoWhile
                &&& predicate matches Some(word) ==> {
                    &&& word.comparison == c.condition_comparison
                    &&& word.reference_value == c.condition_reference_value
                    &&& answer_of(
                        session.buffers@,
                        BufferQuery {
                            reference: c.condition_buffer_ref,
                            offset: c.condition_buffer_offset,
                            length: Some(4u64),
                        },
                    ) == Some(BufferAnswer::Range(word.buffer))
                }
            },
        },
{
}

/// What contracts say of a dispatch is what it holds.
pub proof fn lemma_a_compute_dispatch_is_seen_whole(
    dispatch: ResolvedComputeDispatch,
    query: ConstructionQuery,
)
    ensures
        dispatch@.pipeline == dispatch.pipeline,
        dispatch@.translation == dispatch.translation,
        dispatch@.launch == dispatch.launch,
        dispatch@.arguments == dispatch.arguments,
        dispatch@.binds == dispatch.binds@,
        query@.translation == query.translation,
        query@.of == query.of,
        query@.binds == query.binds@,
{
}

/// Arguments that nothing was built for are refused with the very question.
pub proof fn lemma_unbuilt_arguments_are_named(
    session: ReplacementRuntimeSession,
    query: ConstructionView,
)
    ensures
        match built_arguments(session, query) {
            Ok(arguments) => construction_of(session.constructions@, query) == Some(
                ConstructionAnswer::Built(arguments),
            ),
            Err(
                ReplacementComputeDispatchResolutionError::ArgumentsUnanswered { translation, of },
            ) => translation == query.translation && of == query.of && construction_of(
                session.constructions@,
                query,
            ) is None,
            Err(ReplacementComputeDispatchResolutionError::Construction(reason)) =>
            construction_of(session.constructions@, query) == Some(
                ConstructionAnswer::Refused(reason),
            ),
            Err(_) => false,
        },
{
}

} // verus!
