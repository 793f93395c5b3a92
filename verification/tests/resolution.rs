use reims_vgpu::attachments::{
    load_action_census_name, resolve_render_pass_attachments, store_action_census_name,
    RenderAttachmentClear, RenderAttachmentRole, ReplacementRenderPassActionKind,
    ReplacementRenderPassResolutionError,
};
use reims_vgpu::bindings::{
    join_access, resolve_render_buffers, sampled_texture_type_matches, AccessMode,
    RenderBindingView, ReplacementRenderDrawResolutionError,
};
use reims_vgpu::blit::{
    resolve_buffer_blit_record, resolve_image_blit_record, resolve_indirect_command_record,
    resolve_texture_blit, texture_boxes_overlap, BlitEndpoint, BufferFillPattern,
    ReplacementBufferBlitResolutionError, ReplacementImageBlitResolutionError,
    ReplacementIndirectCommandResolutionError, ReplacementTextureBlitResolutionError, ResolvedBlit,
};
use reims_vgpu::command::{
    BlitAspect, BlitAspectOption, BlitCommand, BlitKind, BlitOpcode, ColorAttachment,
    ComputeCommand, ComputeKind, CopyKind, DecodedReplacementRecord, EventCommand,
    EventCommandKind, InfoOperation, InfoReplyTarget, Point, RefKind, RenderCommand, RenderKind,
    RenderOpcode, Size, Size3, Stage, TileBind,
};
use reims_vgpu::compute::{
    resolve_compute_control_flow, resolve_direct_compute_dispatch, workgroup_counts,
    ConstructionAnswer, ConstructionOf, ConstructionQuery, Extent3,
    ReplacementComputeConstructionError, ReplacementComputeControlFlowResolutionError,
    ReplacementComputeDispatchResolutionError, ResolvedComputeLaunch, RootComputeResolver,
};
use reims_vgpu::compute_state::{ComputeAccum, ComputeBoundTexture};
use reims_vgpu::draw::ResolvedRenderDraw;
use reims_vgpu::encoder_state::{
    resolve_render_state_record, EncoderBoundary, ReplacementRecordProjectionState,
    ReplacementRenderBufferBinding, SegmentKind,
};
use reims_vgpu::exec_streams::{
    DecodedReplacementSegment, DecodedReplacementStream, SegmentBoundary,
};
use reims_vgpu::icb::{
    populate_decoded_compute_icb, populate_decoded_render_icb, DecodedIcbCommandSlot,
    IcbCommandFill, IcbComputeFill, IcbFillDispatch, IcbReadAnswer, IcbReadQuery, IcbStoreAnswer,
    IcbStoreRefusal, IndirectCommandBufferDescriptor, ReplacementComputeIcbExecutionError,
    ReplacementComputeIcbPopulationError, ReplacementIcbCommandMemoryRead,
    ReplacementRenderIcbPopulationError,
};
use reims_vgpu::projection::{
    project_replacement_record, ProjectedReplacementOperation, ReplacementOperationProjectionError,
};
use reims_vgpu::raster::{LoadAction, PrimitiveTopology, StoreAction};
use reims_vgpu::session::{
    AttachmentAnswer, AttachmentQuery, AttachmentTarget, BufferAnswer, BufferQuery,
    ComputeContract, ComputePipelineAnswer, ConditionAnswer, ConditionNamespaceError,
    DeclaredBits, DescriptorUse, EndpointAnswer, EndpointQuery, ExtentQuery, ImageAspect,
    IndirectCommandAnswer,
    IndirectCommandOperation, IndirectCommandRange, IndirectCommandResolutionError, InfoAnswer,
    InfoResolutionError, LinearRegion, ReflectedBinding, ReflectedBufferAccess,
    RenderBufferIndexBounds, RenderPipelineAnswer,
    ReplacementBufferRangeResolutionError, ReplacementRenderSemanticAvailability,
    ReplacementRuntimeSession, ResolvedBufferRange, ResolvedIndirectCommand,
    ResolvedRenderPipeline, ResolvedTextureEndpoint, SampledImageKind, SamplerAnswer,
    ShaderResourceKind, StageReflection, TextureAnswer, TextureType, TranslationAnswer, TranslationQuery,
};
use reims_vgpu::stream_projection::project_session_streams;
use reims_vgpu::sync_records::{
    resolve_blit_fence_record, resolve_compute_barrier_record, resolve_event_record,
    resolve_render_barrier_record, resolve_render_fence_record,
    resolve_render_participation_record, BarrierOperation, EventOperation, EventOperationKind,
    FenceOperation, FenceOperationKind, FenceScope, ParticipationOperation, ParticipationScope,
    ReplacementBarrierResolutionError, ReplacementEventResolutionError,
    ReplacementFenceResolutionError, ReplacementParticipationResolutionError, StageScope,
};
use reims_vgpu::tile::{
    resolve_render_tessellation, resolve_render_tile,
    ReplacementRenderTessellationResolutionError, ReplacementRenderTileResolutionError,
};

fn session() -> ReplacementRuntimeSession {
    ReplacementRuntimeSession {
        declared: DeclaredBits { render_stages: 3, fence_stages: 3, barrier_scopes: 7 },
        ..ReplacementRuntimeSession::default()
    }
}

fn range(reference: u32, offset: u64, length: u64, storage: u64) -> (BufferQuery, BufferAnswer) {
    (
        BufferQuery { reference, offset, length: Some(length) },
        BufferAnswer::Range(ResolvedBufferRange {
            resource: u64::from(reference),
            storage,
            region: LinearRegion { start: offset, length },
        }),
    )
}

fn within(kind: SegmentKind) -> ReplacementRecordProjectionState {
    let mut state = ReplacementRecordProjectionState::default();
    state.encoder_boundary(EncoderBoundary::Begin(kind));
    state
}

#[test]
fn events_resolve_by_kind_and_name() {
    let mut session = session();
    session.events = vec![(4, ConditionAnswer::Identity(40)), (5, ConditionAnswer::Refused(9))];
    let event = |kind: EventCommandKind, event_ref: u32, has_timeout: bool| {
        resolve_event_record(&session, &EventCommand { kind, event_ref, value: 7, has_timeout })
    };
    assert_eq!(
        event(EventCommandKind::SignalEvent, 4, false),
        Ok(EventOperation { event: 40, kind: EventOperationKind::Signal, value: 7 })
    );
    assert_eq!(
        event(EventCommandKind::WaitEvent, 4, true),
        Err(ReplacementEventResolutionError::TimeoutUnsupported)
    );
    assert_eq!(
        event(EventCommandKind::Unknown, 4, false),
        Err(ReplacementEventResolutionError::UnknownKind)
    );
    assert_eq!(
        event(EventCommandKind::WaitEvent, 5, false),
        Err(ReplacementEventResolutionError::Namespace(ConditionNamespaceError::Refused(9)))
    );
    assert_eq!(
        event(EventCommandKind::WaitEvent, 6, false),
        Err(ReplacementEventResolutionError::Namespace(ConditionNamespaceError::Unanswered(6)))
    );
}

#[test]
fn fences_resolve_in_the_scope_of_their_encoder() {
    let mut session = session();
    session.fences = vec![(4, ConditionAnswer::Identity(40))];
    let render = |opcode: RenderOpcode, fence_ref: u32, fence_stages: u32| {
        resolve_render_fence_record(
            &session,
            &RenderCommand {
                kind: RenderKind::Fence,
                opcode,
                fence_ref,
                fence_stages,
                ..Default::default()
            },
        )
    };
    assert_eq!(
        render(RenderOpcode::UpdateFence, 4, 2),
        Ok(Some(FenceOperation {
            fence: 40,
            kind: FenceOperationKind::Update,
            scope: FenceScope::Render(2),
        }))
    );
    assert_eq!(
        render(RenderOpcode::WaitForFence, 4, 8),
        Err(ReplacementFenceResolutionError::UnsupportedRenderStages(8))
    );
    assert_eq!(
        render(RenderOpcode::Draw, 4, 2),
        Err(ReplacementFenceResolutionError::UnknownFenceOpcode)
    );
    let blit = BlitCommand {
        kind: BlitKind::Fence,
        opcode: BlitOpcode::WaitForFence,
        fence: 4,
        ..Default::default()
    };
    assert_eq!(
        resolve_blit_fence_record(&session, &blit),
        Ok(Some(FenceOperation {
            fence: 40,
            kind: FenceOperationKind::Wait,
            scope: FenceScope::Blit,
        }))
    );
    assert_eq!(
        resolve_blit_fence_record(&session, &BlitCommand::default()),
        Err(ReplacementFenceResolutionError::NotFenceRecord)
    );
}

#[test]
fn participation_resolves_whole_or_names_the_first_that_does_not() {
    let mut session = session();
    session.resources = vec![(1, 10), (2, 20)];
    session.heaps = vec![(3, 30)];
    let declare = |kind: RenderKind, resources: Vec<u32>, heaps: Vec<u32>, usage: Option<u32>| {
        resolve_render_participation_record(
            &session,
            &RenderCommand {
                kind,
                participation_resources: resources,
                participation_heaps: heaps,
                participation_usage: usage,
                participation_stages: Some(1),
                ..Default::default()
            },
        )
    };
    let scope = ParticipationScope::Render { stages: Some(1) };
    assert_eq!(
        declare(RenderKind::UseResource, vec![1, 2], vec![], Some(3)),
        Ok(vec![
            ParticipationOperation::Resource { resource: 10, usage: 3, scope },
            ParticipationOperation::Resource { resource: 20, usage: 3, scope },
        ])
    );
    assert_eq!(
        declare(RenderKind::UseHeap, vec![], vec![3], None),
        Ok(vec![ParticipationOperation::Heap { heap: 30, scope }])
    );
    assert_eq!(
        declare(RenderKind::UseResource, vec![1, 9, 8], vec![], Some(3)),
        Err(ReplacementParticipationResolutionError::ResourceUnavailable {
            index: 1,
            reference: 9,
        })
    );
    assert_eq!(
        declare(RenderKind::UseHeap, vec![], vec![7], None),
        Err(ReplacementParticipationResolutionError::HeapUnavailable { index: 0, reference: 7 })
    );
    assert_eq!(
        declare(RenderKind::UseResource, vec![1], vec![], None),
        Err(ReplacementParticipationResolutionError::MissingResourceUsage)
    );
    assert_eq!(
        declare(RenderKind::Draw, vec![1], vec![], Some(3)),
        Err(ReplacementParticipationResolutionError::NotParticipationRecord)
    );
}

#[test]
fn barriers_resolve_their_stages_and_resources() {
    let mut session = session();
    session.resources = vec![(1, 10)];
    let barrier = |kind: RenderKind, before: u16, after: u16, resources: Vec<u32>| {
        resolve_render_barrier_record(
            &session,
            &RenderCommand {
                kind,
                barrier_before_stages: before,
                barrier_after_stages: after,
                barrier_resources: resources,
                ..Default::default()
            },
        )
    };
    assert_eq!(
        barrier(RenderKind::BarrierResources, 1, 2, vec![1]),
        Ok(Some(BarrierOperation::Resources {
            resources: vec![10],
            // What comes before the barrier is what it waits for.
            before: StageScope::Render(2),
            after: StageScope::Render(1),
        }))
    );
    assert_eq!(
        barrier(RenderKind::BarrierResources, 1, 2, vec![5]),
        Err(ReplacementBarrierResolutionError::ResourceUnavailable { index: 0, reference: 5 })
    );
    assert_eq!(
        barrier(RenderKind::TextureBarrier, 1, 2, vec![]),
        Err(ReplacementBarrierResolutionError::TextureBarrierContractUnresolved)
    );
    assert_eq!(
        barrier(RenderKind::BarrierResources, 1, 16, vec![1]),
        Err(ReplacementBarrierResolutionError::UnsupportedProducerStages(16))
    );
    assert_eq!(
        barrier(RenderKind::BarrierResources, 16, 1, vec![1]),
        Err(ReplacementBarrierResolutionError::UnsupportedConsumerStages(16))
    );
    assert_eq!(
        resolve_compute_barrier_record(
            &session,
            &ComputeCommand {
                kind: ComputeKind::BarrierScope,
                barrier_scope: 32,
                ..Default::default()
            },
        ),
        Err(ReplacementBarrierResolutionError::UnsupportedScope(32))
    );
    assert_eq!(
        resolve_compute_barrier_record(&session, &ComputeCommand::default()),
        Err(ReplacementBarrierResolutionError::NotBarrierRecord)
    );
}

#[test]
fn buffer_blits_fill_and_copy_ranges_that_do_not_overlap() {
    let mut session = session();
    session.buffers = vec![
        range(1, 0, 16, 100),
        range(1, 8, 16, 100),
        range(2, 0, 16, 200),
        range(1, 16, 16, 100),
    ];
    let fill = |kind: BlitKind, range_location: u64, range_length: u64| {
        resolve_buffer_blit_record(
            &session,
            &BlitCommand {
                kind,
                buffer: 1,
                range_location,
                range_length,
                fill_value: 5,
                fill_pattern: 0x0403_0201,
                ..Default::default()
            },
        )
    };
    assert!(matches!(
        fill(BlitKind::FillBuffer, 0, 16),
        Ok(Some(ResolvedBlit::Fill { pattern: BufferFillPattern::Byte(5), .. }))
    ));
    assert!(matches!(
        fill(BlitKind::FillBufferPattern4, 0, 16),
        Ok(Some(ResolvedBlit::Fill { pattern: BufferFillPattern::Word([1, 2, 3, 4]), .. }))
    ));
    assert_eq!(fill(BlitKind::FillBuffer, 0, 0), Ok(None));
    assert_eq!(
        fill(BlitKind::FillBufferPattern4, 6, 16),
        Err(ReplacementBufferBlitResolutionError::UnalignedWordPattern(6))
    );
    let copy = |destination: u32, destination_offset: u64| {
        resolve_buffer_blit_record(
            &session,
            &BlitCommand {
                kind: BlitKind::Copy,
                copy_kind: CopyKind::BufferToBuffer,
                source_kind: RefKind::Buffer,
                destination_kind: RefKind::Buffer,
                source: 1,
                destination,
                destination_offset,
                size: 16,
                ..Default::default()
            },
        )
    };
    assert!(matches!(copy(2, 0), Ok(Some(ResolvedBlit::Copy { .. }))));
    assert!(matches!(copy(1, 16), Ok(Some(ResolvedBlit::Copy { .. }))));
    assert_eq!(copy(1, 8), Err(ReplacementBufferBlitResolutionError::OverlappingCopy));
    assert_eq!(
        copy(3, 0),
        Err(ReplacementBufferBlitResolutionError::Range {
            endpoint: BlitEndpoint::Destination,
            reference: 3,
            reason: ReplacementBufferRangeResolutionError::Unanswered(BufferQuery {
                reference: 3,
                offset: 0,
                length: Some(16),
            }),
        })
    );
    assert_eq!(
        resolve_buffer_blit_record(&session, &BlitCommand::default()),
        Err(ReplacementBufferBlitResolutionError::NotBufferBlit)
    );
}

fn endpoint(reference: u32, level: u16, slice: u16, storage: u64, bytes: u32)
    -> (EndpointQuery, EndpointAnswer) {
    (
        EndpointQuery { reference, level, slice },
        EndpointAnswer::Endpoint(ResolvedTextureEndpoint {
            resource: u64::from(reference),
            storage,
            level,
            slice,
            pixel_format: 80,
            extent: Size { width: 16, height: 16, depth: 1 },
            bpp: bytes,
            color_bytes: Some(bytes),
            depth_bytes: None,
            stencil_bytes: None,
        }),
    )
}

#[test]
fn image_copies_move_texels_of_one_width_between_boxes_that_do_not_overlap() {
    let mut session = session();
    session.endpoints = vec![
        endpoint(1, 0, 0, 100, 4),
        endpoint(2, 0, 0, 200, 4),
        endpoint(3, 0, 0, 300, 8),
    ];
    let copy = |destination: u32, x: u32, aspect: BlitAspect, width: u32| {
        resolve_image_blit_record(
            &session,
            &BlitCommand {
                kind: BlitKind::Copy,
                copy_kind: CopyKind::TextureToTexture,
                source: 1,
                destination,
                destination_origin: Point { x, y: 0, z: 0 },
                source_size: Size { width, height: 4, depth: 1 },
                aspect: BlitAspectOption::Aspect(aspect),
                ..Default::default()
            },
        )
    };
    assert!(matches!(
        copy(2, 0, BlitAspect::Color, 4),
        Ok(Some(ResolvedBlit::TextureToTexture(_)))
    ));
    assert!(matches!(
        copy(1, 4, BlitAspect::Color, 4),
        Ok(Some(ResolvedBlit::TextureToTexture(_)))
    ));
    assert_eq!(
        copy(1, 3, BlitAspect::Color, 4),
        Err(ReplacementImageBlitResolutionError::OverlappingImageCopy)
    );
    assert_eq!(copy(2, 0, BlitAspect::Color, 0), Ok(None));
    assert_eq!(
        copy(3, 0, BlitAspect::Color, 4),
        Err(ReplacementImageBlitResolutionError::TexelWidthMismatch { source: 4, destination: 8 })
    );
    assert_eq!(
        copy(2, 0, BlitAspect::Depth, 4),
        Err(ReplacementImageBlitResolutionError::AspectUnsupported {
            endpoint: BlitEndpoint::Source,
            pixel_format: 80,
        })
    );
    assert_eq!(
        resolve_image_blit_record(
            &session,
            &BlitCommand {
                kind: BlitKind::Copy,
                copy_kind: CopyKind::TextureToTexture,
                source_size: Size { width: 1, height: 1, depth: 1 },
                aspect: BlitAspectOption::Refused(6),
                ..Default::default()
            },
        ),
        Err(ReplacementImageBlitResolutionError::Options(6))
    );
    assert_eq!(
        resolve_image_blit_record(&session, &BlitCommand::default()),
        Err(ReplacementImageBlitResolutionError::NotImageCopy)
    );
    let at = |x: u32| Point { x, y: 0, z: 0 };
    let size = Size { width: 4, height: 1, depth: 1 };
    assert!(texture_boxes_overlap(at(0), at(3), size));
    assert!(!texture_boxes_overlap(at(0), at(4), size));
}

#[test]
fn a_batch_copies_every_level_of_every_slice() {
    let mut session = session();
    for level in 0..2 {
        for slice in 0..3 {
            session.endpoints.push(endpoint(1, level, slice, 100, 4));
            session.endpoints.push(endpoint(2, level, slice + 1, 200, 4));
        }
    }
    let copied = resolve_image_blit_record(
        &session,
        &BlitCommand {
            kind: BlitKind::Copy,
            copy_kind: CopyKind::TextureToTextureSliceLevel,
            source: 1,
            destination: 2,
            destination_slice: 1,
            level_count: 2,
            slice_count: 3,
            ..Default::default()
        },
    );
    match copied {
        Ok(Some(ResolvedBlit::TextureCopyBatch(batch))) => {
            assert_eq!(batch.levels.len(), 2);
            assert!(batch.levels.iter().all(|slices| slices.len() == 3));
            assert_eq!((batch.source_base_slice, batch.destination_base_slice), (0, 1));
            assert_eq!(batch.levels[1][2].1.slice, 3);
        }
        other => panic!("{other:?}"),
    }
}

#[test]
fn indirect_command_records_resolve_by_opcode() {
    let mut session = session();
    let area = IndirectCommandRange { location: 2, length: 3 };
    let reset = IndirectCommandOperation::Reset { icb: 4, range: area };
    let resolved = ResolvedIndirectCommand::Reset { icb: 40, range: area };
    session.indirect_commands = vec![(reset, IndirectCommandAnswer::Command(resolved))];
    let record = |opcode: BlitOpcode| {
        resolve_indirect_command_record(
            &session,
            &BlitCommand {
                kind: BlitKind::IcbRange,
                opcode,
                resource: 4,
                source: 4,
                range_location: 2,
                range_length: 3,
                ..Default::default()
            },
        )
    };
    assert_eq!(record(BlitOpcode::ResetIcb), Ok(resolved));
    assert!(matches!(
        record(BlitOpcode::OptimizeIcb),
        Err(ReplacementIndirectCommandResolutionError::Resolve(
            IndirectCommandResolutionError::Unanswered(IndirectCommandOperation::Optimize { .. })
        ))
    ));
    assert_eq!(
        record(BlitOpcode::UpdateFence),
        Err(ReplacementIndirectCommandResolutionError::UnknownRangeOpcode(BlitOpcode::UpdateFence))
    );
    assert_eq!(
        resolve_indirect_command_record(&session, &BlitCommand::default()),
        Err(ReplacementIndirectCommandResolutionError::NotIndirectCommand)
    );
    assert_eq!(
        resolve_texture_blit(&BlitCommand {
            kind: BlitKind::Resource,
            opcode: BlitOpcode::SynchronizeResource,
            resource: 8,
            ..Default::default()
        }),
        ReplacementTextureBlitResolutionError::SynchronizeResourceUnsupported {
            opcode: BlitOpcode::SynchronizeResource,
            resource_ref: 8,
        }
    );
}

fn color(texture_ref: u32) -> ColorAttachment {
    ColorAttachment { texture_ref, load_action: 2, store_action: 1, ..ColorAttachment::default() }
}

fn target(reference: u32) -> (AttachmentQuery, AttachmentAnswer) {
    (
        AttachmentQuery {
            reference,
            level: 0,
            slice: 0,
            depth_plane: 0,
            aspect: ImageAspect::Color,
        },
        AttachmentAnswer::Target(AttachmentTarget {
            resource: u64::from(reference),
            image_owner: u64::from(reference),
            backing: 70,
            region: 0,
            pixel_format: 80,
            extent: Size { width: 32, height: 16, depth: 1 },
            sample_count: 1,
        }),
    )
}

fn open_pass(colors: Vec<ColorAttachment>) -> ReplacementRecordProjectionState {
    let mut state = within(SegmentKind::Render);
    resolve_render_state_record(
        &mut state,
        &RenderCommand {
            kind: RenderKind::RenderPass,
            color_attachments: colors,
            ..Default::default()
        },
    )
    .unwrap();
    state
}

#[test]
fn a_pass_resolves_its_attachments_and_their_actions() {
    let mut session = session();
    session.attachments = vec![target(5)];
    let resolved = resolve_render_pass_attachments(&session, &open_pass(vec![color(5)])).unwrap();
    assert_eq!(resolved.len(), 1);
    assert_eq!(resolved[0].role, RenderAttachmentRole::Color(0));
    assert_eq!((resolved[0].load, resolved[0].store), (LoadAction::Clear, StoreAction::Store));
    assert_eq!(resolved[0].clear, RenderAttachmentClear::Color([0; 4]));
    let mut unknown = color(5);
    unknown.load_action = 9;
    assert_eq!(
        resolve_render_pass_attachments(&session, &open_pass(vec![unknown])),
        Err(ReplacementRenderPassResolutionError::PassAction {
            role: RenderAttachmentRole::Color(0),
            kind: ReplacementRenderPassActionKind::Load,
            raw: 9,
        })
    );
    let mut options = color(5);
    options.store_action_options = 1;
    assert_eq!(
        resolve_render_pass_attachments(&session, &open_pass(vec![options])),
        Err(ReplacementRenderPassResolutionError::StoreActionOptionsUnsupported {
            role: RenderAttachmentRole::Color(0),
            raw: 1,
        })
    );
    assert_eq!(
        resolve_render_pass_attachments(&session, &ReplacementRecordProjectionState::default()),
        Err(ReplacementRenderPassResolutionError::OutsideEncoder)
    );
    assert_eq!(load_action_census_name(LoadAction::Load), "render_color_load_load");
    assert_eq!(
        store_action_census_name(StoreAction::StoreAndMultisampleResolve),
        "render_color_store_store_and_resolve"
    );
}

fn stage(program: u64) -> StageReflection {
    StageReflection {
        unsupported: None,
        bindings: Vec::new(),
        samplers: Vec::new(),
        textures: Vec::new(),
        storage_images: Vec::new(),
        buffer_extents: Vec::new(),
        program,
    }
}

#[test]
fn a_buffer_is_bound_as_far_as_its_shader_reads_it() {
    let mut session = session();
    session.buffers = vec![
        (
            BufferQuery { reference: 4, offset: 16, length: None },
            BufferAnswer::Range(ResolvedBufferRange {
                resource: 4,
                storage: 70,
                region: LinearRegion { start: 16, length: 100 },
            }),
        ),
        range(4, 16, 24, 70),
    ];
    let bounds = RenderBufferIndexBounds {
        first_vertex: 0,
        vertex_count: 3,
        first_instance: 0,
        instance_count: 1,
        indexed: false,
    };
    let query = ExtentQuery { metal_index: 0, bounds };
    let table = vec![Some(ReplacementRenderBufferBinding {
        reference: 4,
        offset: 16,
        attribute_stride: None,
    })];
    let buffers = |extents: Vec<(ExtentQuery, Option<u64>)>| {
        let mut vertex = stage(1);
        vertex.bindings = vec![ReflectedBinding {
            kind: ShaderResourceKind::Buffer,
            metal_index: 0,
            buffer_binding: 9,
            buffer_use: DescriptorUse::Used,
            buffer_access: ReflectedBufferAccess::ReadOnly,
        }];
        vertex.buffer_extents = extents;
        resolve_render_buffers(&session, &vertex, &stage(2), &table, &Vec::new(), bounds)
    };
    let length = |extent: Option<u64>| match buffers(vec![(query, extent)]).unwrap()[0].view {
        RenderBindingView::Buffer(region) => region.length,
        RenderBindingView::Image(_) => panic!("a buffer is bound as an image"),
    };
    assert_eq!(length(None), 100);
    assert_eq!(length(Some(100)), 100);
    assert_eq!(length(Some(24)), 24);
    assert_eq!(
        buffers(vec![(query, Some(101))]),
        Err(ReplacementRenderDrawResolutionError::BufferExtentPastBinding {
            stage: Stage::Vertex,
            index: 0,
            required: 101,
            available: 100,
        })
    );
    assert_eq!(
        buffers(Vec::new()),
        Err(ReplacementRenderDrawResolutionError::BufferExtentUnanswered {
            stage: Stage::Vertex,
            query,
        })
    );
}

fn drawing_session() -> ReplacementRuntimeSession {
    let mut session = session();
    session.attachments = vec![target(5)];
    session.render_pipelines = vec![(
        8,
        RenderPipelineAnswer::Ready(ResolvedRenderPipeline {
            identity: 80,
            vertex: stage(1),
            fragment: stage(2),
            vertex_attributes: Vec::new(),
        }),
    )];
    session
}

fn draw_command(vertex_count: u32) -> RenderCommand {
    RenderCommand {
        kind: RenderKind::Draw,
        opcode: RenderOpcode::Draw,
        primitive_type: 3,
        vertex_count,
        instance_count: 1,
        ..Default::default()
    }
}

fn set_pipeline(pipeline_ref: u32) -> RenderCommand {
    RenderCommand { kind: RenderKind::SetPipeline, pipeline_ref, ..Default::default() }
}

#[test]
fn a_draw_resolves_against_the_state_of_its_encoder() {
    let session = drawing_session();
    let mut state = open_pass(vec![color(5)]);
    let mut project = |command: RenderCommand| {
        project_replacement_record(
            &session,
            &mut state,
            &DecodedReplacementRecord::Render(Box::new(command)),
        )
    };
    assert_eq!(
        project(draw_command(3)),
        Err(ReplacementOperationProjectionError::RenderDraw(
            ReplacementRenderDrawResolutionError::PipelineUnbound
        ))
    );
    assert_eq!(project(set_pipeline(9)), Ok(Vec::new()));
    assert_eq!(
        project(draw_command(3)),
        Err(ReplacementOperationProjectionError::RenderDraw(
            ReplacementRenderDrawResolutionError::Pipeline(
                ReplacementRenderSemanticAvailability::UnknownPipeline
            )
        ))
    );
    assert_eq!(project(set_pipeline(8)), Ok(Vec::new()));
    let operations = project(draw_command(3)).unwrap();
    match operations.as_slice() {
        [ProjectedReplacementOperation::Render(dispatch)] => {
            assert_eq!(dispatch.pipeline, 80);
            assert_eq!((dispatch.vertex_program, dispatch.fragment_program), (1, 2));
            assert_eq!(dispatch.render_extent, (32, 16));
            assert_eq!(dispatch.attachments.len(), 1);
            assert_eq!(
                dispatch.draw,
                ResolvedRenderDraw::Direct {
                    topology: PrimitiveTopology::Triangle,
                    vertex_count: 3,
                    instance_count: 1,
                    first_vertex: 0,
                    first_instance: 0,
                }
            );
        }
        other => panic!("{other:?}"),
    }
    let mut odd = draw_command(3);
    odd.primitive_type = 77;
    assert_eq!(
        project(odd),
        Err(ReplacementOperationProjectionError::RenderDraw(
            ReplacementRenderDrawResolutionError::PrimitiveTopology(77)
        ))
    );
}

fn streams(records: Vec<Vec<RenderCommand>>) -> Vec<DecodedReplacementStream> {
    let last = records.len() - 1;
    records
        .into_iter()
        .enumerate()
        .map(|(i, commands)| DecodedReplacementStream {
            stream_index: i as u32,
            segments: vec![DecodedReplacementSegment {
                boundary: SegmentBoundary {
                    stream_index: i as u32,
                    index: 0,
                    kind: SegmentKind::Render,
                    continues_previous: i > 0,
                    continues_next: i < last,
                },
                records: commands
                    .into_iter()
                    .map(|c| DecodedReplacementRecord::Render(Box::new(c)))
                    .collect(),
            }],
        })
        .collect()
}

#[test]
fn an_encoder_keeps_its_state_from_one_stream_to_the_next() {
    let session = drawing_session();
    let pass = RenderCommand {
        kind: RenderKind::RenderPass,
        color_attachments: vec![color(5)],
        ..Default::default()
    };
    let projected = project_session_streams(
        &session,
        streams(vec![vec![pass, set_pipeline(8)], vec![draw_command(3)]]),
    )
    .unwrap();
    assert!(matches!(
        projected[0].segments[0].operations[..],
        [ProjectedReplacementOperation::EncoderBoundary(EncoderBoundary::Begin(
            SegmentKind::Render
        ))]
    ));
    assert!(matches!(
        projected[1].segments[0].operations[..],
        [
            ProjectedReplacementOperation::Render(_),
            ProjectedReplacementOperation::EncoderBoundary(EncoderBoundary::End(
                SegmentKind::Render
            ))
        ]
    ));
    // A record that does not resolve hands every stream back.
    let failure =
        project_session_streams(&session, streams(vec![vec![set_pipeline(0)], vec![draw_command(3)]]))
            .err();
    match failure {
        Some(failure) => {
            assert_eq!(failure.streams.len(), 2);
            assert_eq!(failure.state.render.unwrap().pipeline_ref, 0);
            assert_eq!((failure.state.compute, failure.state.stores), (None, 0));
        }
        None => panic!("a draw without a pipeline resolved"),
    }
}

#[test]
fn groups_cover_a_grid_of_threads_and_no_grid_is_empty() {
    let extent = |x: u32, y: u32, z: u32| Extent3 { x, y, z };
    assert_eq!(
        workgroup_counts(extent(17, 8, 1), extent(8, 8, 1), true),
        Some(extent(3, 1, 1))
    );
    assert_eq!(
        workgroup_counts(extent(17, 8, 1), extent(8, 8, 1), false),
        Some(extent(17, 8, 1))
    );
    assert_eq!(workgroup_counts(extent(0, 8, 1), extent(8, 8, 1), true), None);
    assert_eq!(workgroup_counts(extent(1, 8, 1), extent(8, 0, 1), true), None);
}

fn compute_session() -> ReplacementRuntimeSession {
    let mut session = session();
    session.compute_pipelines = vec![(
        6,
        ComputePipelineAnswer {
            identity: 60,
            contract: Some(ComputeContract { stage_input: None }),
        },
    )];
    session.compute_translations = vec![(
        TranslationQuery { pipeline_ref: 6, x: 8, y: 1, z: 1 },
        TranslationAnswer::Ready(600),
    )];
    session
}

fn bound_kernel() -> ComputeAccum {
    ComputeAccum { pipeline_ref: 6, ..ComputeAccum::default() }
}

fn launch(x: u32) -> ConstructionOf {
    ConstructionOf::Launch(ResolvedComputeLaunch::Direct(Extent3 { x, y: 1, z: 1 }))
}

fn construction(of: ConstructionOf, binds: ComputeAccum) -> ConstructionQuery {
    ConstructionQuery { translation: 600, of, binds }
}

fn dispatch_command(kind: ComputeKind) -> ComputeCommand {
    ComputeCommand {
        kind,
        grid: Size3 { x: 17, y: 1, z: 1 },
        threads_per_threadgroup: Size3 { x: 8, y: 1, z: 1 },
        ..Default::default()
    }
}

#[test]
fn a_dispatch_resolves_its_pipeline_for_its_group() {
    let mut session = compute_session();
    session.constructions =
        vec![(construction(launch(3), bound_kernel()), ConstructionAnswer::Built(7))];
    let mut state = within(SegmentKind::Compute);
    let mut project = |command: ComputeCommand| {
        project_replacement_record(
            &session,
            &mut state,
            &DecodedReplacementRecord::Compute(Box::new(command)),
        )
    };
    project(ComputeCommand { kind: ComputeKind::Pipeline, pipeline_ref: 6, ..Default::default() })
        .unwrap();
    match project(dispatch_command(ComputeKind::DispatchThreads)).unwrap().as_slice() {
        [ProjectedReplacementOperation::Compute(dispatch)] => {
            assert_eq!((dispatch.pipeline, dispatch.translation), (60, 600));
            assert_eq!(dispatch.arguments, 7);
            assert_eq!(dispatch.binds.pipeline_ref, 6);
            assert_eq!(
                dispatch.launch,
                ResolvedComputeLaunch::Direct(Extent3 { x: 3, y: 1, z: 1 })
            );
        }
        other => panic!("{other:?}"),
    }
    let mut empty = dispatch_command(ComputeKind::DispatchThreads);
    empty.grid.x = 0;
    assert_eq!(
        project(empty),
        Err(ReplacementOperationProjectionError::ComputeDispatch(
            ReplacementComputeDispatchResolutionError::GridDimensionOutOfRange
        ))
    );
    let mut wide = dispatch_command(ComputeKind::DispatchThreads);
    wide.grid.x = 1 << 33;
    assert_eq!(
        project(wide),
        Err(ReplacementOperationProjectionError::ComputeDispatch(
            ReplacementComputeDispatchResolutionError::GridDimensionOutOfRange
        ))
    );
}

#[test]
fn control_flow_is_refused_with_what_it_would_have_tested() {
    let session = session();
    let command = ComputeCommand {
        kind: ComputeKind::ControlEndIf,
        opcode: 0xe2,
        ..Default::default()
    };
    assert_eq!(
        resolve_compute_control_flow(
            &session,
            &ReplacementRecordProjectionState::default(),
            &command
        ),
        ReplacementComputeControlFlowResolutionError::OutsideEncoder {
            kind: ComputeKind::ControlEndIf,
            opcode: 0xe2,
        }
    );
    assert_eq!(
        resolve_compute_control_flow(&session, &within(SegmentKind::Compute), &command),
        ReplacementComputeControlFlowResolutionError::Unsupported {
            kind: ComputeKind::ControlEndIf,
            opcode: 0xe2,
            predicate: None,
        }
    );
}

#[test]
fn a_dispatch_whose_arguments_cannot_be_built_is_refused() {
    let mut session = compute_session();
    let state = bound_kernel();
    let command = dispatch_command(ComputeKind::DispatchThreads);
    assert_eq!(
        resolve_direct_compute_dispatch(&session, &state, &command),
        Err(ReplacementComputeDispatchResolutionError::ArgumentsUnanswered {
            translation: 600,
            of: launch(3),
        })
    );
    let bound = || {
        let mut binds = bound_kernel();
        binds.textures.push(ComputeBoundTexture { index: 2, texture_ref: 9 });
        binds
    };
    session.constructions = vec![
        (
            construction(launch(3), bound_kernel()),
            ConstructionAnswer::Refused(ReplacementComputeConstructionError::BufferMissing(4)),
        ),
        (construction(launch(3), bound()), ConstructionAnswer::Built(11)),
    ];
    assert_eq!(
        resolve_direct_compute_dispatch(&session, &state, &command),
        Err(ReplacementComputeDispatchResolutionError::Construction(
            ReplacementComputeConstructionError::BufferMissing(4)
        ))
    );
    let dispatch = resolve_direct_compute_dispatch(&session, &bound(), &command).unwrap();
    assert_eq!((dispatch.arguments, dispatch.binds), (11, bound()));
}

#[test]
fn what_arguments_are_built_of_is_resolved_in_the_session() {
    let mut session = compute_session();
    session.buffers = vec![range(4, 16, 32, 70)];
    session.textures =
        vec![(5, TextureAnswer::ResourceUnavailable), (6, TextureAnswer::StorageUnavailable)];
    session.resources = vec![(6, 66)];
    session.samplers = vec![(8, SamplerAnswer::Refused(1))];
    let resolver = RootComputeResolver { session: &session };
    assert_eq!(resolver.pipeline(6), Ok(60));
    assert_eq!(resolver.pipeline(7), Err(ReplacementComputeConstructionError::PipelineMissing));
    assert_eq!(resolver.buffer(0, 4, 16, Some(32)).unwrap().storage, 70);
    assert_eq!(
        resolver.buffer(3, 4, 16, None),
        Err(ReplacementComputeConstructionError::BufferMissing(3))
    );
    assert_eq!(
        resolver.texture(1, 5),
        Err(ReplacementComputeConstructionError::TextureMissing(1))
    );
    assert_eq!(
        resolver.texture(1, 6),
        Err(ReplacementComputeConstructionError::ResourceBackingMissing(66))
    );
    assert_eq!(
        resolver.sampler(2, 8, 0),
        Err(ReplacementComputeConstructionError::SamplerState)
    );
    assert_eq!(
        resolver.sampler(2, 9, 0),
        Err(ReplacementComputeConstructionError::SamplerMissing(2))
    );
}

#[test]
fn each_store_has_an_answer_of_its_own() {
    let mut session = session();
    session.icb_stores =
        vec![IcbStoreAnswer::Stored { prior: 1 }, IcbStoreAnswer::Stored { prior: 2 }];
    let read = ReplacementIcbCommandMemoryRead {
        identity: 90,
        range: IndirectCommandRange { location: 0, length: 0 },
        descriptor: IndirectCommandBufferDescriptor {
            inherit_pipeline_state: false,
            inherit_buffers: false,
        },
    };
    let mut compute = within(SegmentKind::Compute);
    let populated =
        populate_decoded_compute_icb(&session, &mut compute, &read, &Vec::new()).unwrap();
    assert_eq!((populated.prior, populated.batch, compute.stores), (1, vec![], 1));
    let mut render = within(SegmentKind::Render);
    render.stores = compute.stores;
    let populated =
        populate_decoded_render_icb(&session, &mut render, &read, &Vec::new()).unwrap();
    assert_eq!((populated.prior, render.stores), (2, 2));
    assert_eq!(
        populate_decoded_render_icb(&session, &mut render, &read, &Vec::new()),
        Err(ReplacementRenderIcbPopulationError::Population(IcbStoreRefusal::Unanswered {
            stores: 2,
            icb: 90,
            range: read.range,
        }))
    );
    session.icb_stores.push(IcbStoreAnswer::Refused(6));
    assert_eq!(
        populate_decoded_render_icb(&session, &mut render, &read, &Vec::new()),
        Err(ReplacementRenderIcbPopulationError::Population(IcbStoreRefusal::Refused(6)))
    );
    assert_eq!(render.stores, 2);
}

#[test]
fn an_execution_populates_its_commands_in_order() {
    let mut session = compute_session();
    let area = IndirectCommandRange { location: 1, length: 2 };
    let query = IcbReadQuery { reference: 9, range: area };
    let fill = IcbComputeFill {
        pipeline_ref: 0,
        dispatch: IcbFillDispatch::ConcurrentThreads {
            grid: Extent3 { x: 8, y: 1, z: 1 },
            threads_per_threadgroup: Extent3 { x: 8, y: 1, z: 1 },
        },
        detail: 3,
    };
    let descriptor =
        IndirectCommandBufferDescriptor { inherit_pipeline_state: true, inherit_buffers: true };
    session.constructions = vec![(
        construction(ConstructionOf::Command { descriptor, fill }, bound_kernel()),
        ConstructionAnswer::Built(8),
    )];
    session.icb_stores =
        vec![IcbStoreAnswer::Stored { prior: 40 }, IcbStoreAnswer::Refused(5)];
    session.icb_reads = vec![(
        query,
        IcbReadAnswer::Read {
            read: ReplacementIcbCommandMemoryRead { identity: 90, range: area, descriptor },
            slots: vec![
                DecodedIcbCommandSlot {
                    command_index: 1,
                    command: Some(IcbCommandFill::Compute(fill)),
                },
                DecodedIcbCommandSlot { command_index: 2, command: None },
            ],
        },
    )];
    let mut state = within(SegmentKind::Compute);
    let mut project = |command: ComputeCommand| {
        project_replacement_record(
            &session,
            &mut state,
            &DecodedReplacementRecord::Compute(Box::new(command)),
        )
    };
    project(ComputeCommand { kind: ComputeKind::Pipeline, pipeline_ref: 6, ..Default::default() })
        .unwrap();
    let execute = |reference: u32, kind: ComputeKind| ComputeCommand {
        kind,
        indirect_command_buffer_ref: reference,
        indirect_command_range_location: 1,
        indirect_command_range_length: 2,
        ..Default::default()
    };
    match project(execute(9, ComputeKind::ExecuteCommandsInBuffer)).unwrap().as_slice() {
        [ProjectedReplacementOperation::ExecuteComputeCommands(populated)] => {
            assert_eq!(populated.batch.len(), 2);
            assert_eq!(populated.prior, 40);
            let dispatch = populated.batch[0].1.unwrap();
            assert_eq!(dispatch.arguments, 8);
            assert_eq!((dispatch.pipeline_ref, dispatch.fill), (6, fill));
            assert!(dispatch.descriptor.inherit_buffers);
            assert!(populated.batch[1].1.is_none());
            assert!(matches!(
                populated.execution,
                ResolvedIndirectCommand::Execute { icb: 90, .. }
            ));
        }
        other => panic!("{other:?}"),
    }
    assert!(matches!(
        project(execute(3, ComputeKind::ExecuteCommandsInBuffer)),
        Err(ReplacementOperationProjectionError::ComputeIcb(
            ReplacementComputeIcbExecutionError::Unanswered(_)
        ))
    ));
    assert_eq!(
        project(execute(9, ComputeKind::ExecuteCommandsInBuffer)),
        Err(ReplacementOperationProjectionError::ComputeIcb(
            ReplacementComputeIcbExecutionError::Population(
                ReplacementComputeIcbPopulationError::Population(IcbStoreRefusal::Refused(5))
            )
        ))
    );
    assert_eq!(
        project(execute(9, ComputeKind::ExecuteCommandsInBufferIndirect)),
        Err(ReplacementOperationProjectionError::ComputeIcb(
            ReplacementComputeIcbExecutionError::IndirectRangeRequiresAsynchronousReadback
        ))
    );
}

#[test]
fn tile_and_patch_records_are_refused_with_what_they_name() {
    let state = within(SegmentKind::Render);
    let outside = ReplacementRecordProjectionState::default();
    let tile = |kind: RenderKind, bind: Option<TileBind>, threads: (u64, u64, u64)| RenderCommand {
        kind,
        opcode: RenderOpcode::Other(5),
        tile_bind: bind,
        tile_threads: threads,
        ..Default::default()
    };
    let bind = || Some(TileBind::Texture { first: 2, references: vec![4, 5] });
    assert_eq!(
        resolve_render_tile(&state, &tile(RenderKind::TileBind, bind(), (0, 0, 0))),
        Err(ReplacementRenderTileResolutionError::BindUnsupported {
            opcode: RenderOpcode::Other(5),
            binding: TileBind::Texture { first: 2, references: vec![4, 5] },
        })
    );
    assert_eq!(
        resolve_render_tile(&state, &tile(RenderKind::TileBind, None, (0, 0, 0))),
        Err(ReplacementRenderTileResolutionError::Malformed {
            kind: RenderKind::TileBind,
            opcode: RenderOpcode::Other(5),
        })
    );
    assert_eq!(
        resolve_render_tile(&state, &tile(RenderKind::TileDispatch, None, (1, 0, 1))),
        Ok(())
    );
    assert!(matches!(
        resolve_render_tile(&state, &tile(RenderKind::TileDispatch, None, (1, 1, 1))),
        Err(ReplacementRenderTileResolutionError::DispatchUnsupported { .. })
    ));
    assert!(matches!(
        resolve_render_tile(&state, &tile(RenderKind::TileDimensionsQuery, None, (0, 0, 0))),
        Err(ReplacementRenderTileResolutionError::DimensionsQueryUnsupported { .. })
    ));
    assert!(matches!(
        resolve_render_tile(&outside, &tile(RenderKind::TileBind, bind(), (0, 0, 0))),
        Err(ReplacementRenderTileResolutionError::OutsideEncoder { .. })
    ));
    let patches = RenderCommand { kind: RenderKind::DrawPatches, ..Default::default() };
    assert!(matches!(
        resolve_render_tessellation(&state, &patches),
        ReplacementRenderTessellationResolutionError::GeometryMissing { .. }
    ));
    assert!(matches!(
        resolve_render_tessellation(&outside, &patches),
        ReplacementRenderTessellationResolutionError::OutsideEncoder { .. }
    ));
}

#[test]
fn a_refused_record_leaves_the_state_as_it_was() {
    let session = session();
    let mut state = within(SegmentKind::Compute);
    let pipeline = ComputeCommand {
        kind: ComputeKind::Pipeline,
        pipeline_ref: 41,
        ..Default::default()
    };
    project_replacement_record(
        &session,
        &mut state,
        &DecodedReplacementRecord::Compute(Box::new(pipeline)),
    )
    .unwrap();
    for kind in [ComputeKind::DispatchThreads, ComputeKind::Unknown, ComputeKind::UseHeaps] {
        let mut command = dispatch_command(kind);
        command.heaps = vec![77];
        assert!(project_replacement_record(
            &session,
            &mut state,
            &DecodedReplacementRecord::Compute(Box::new(command)),
        )
        .is_err());
    }
    assert_eq!(state.compute.as_ref().unwrap().pipeline_ref, 41);
    assert!(state.render.is_none());
}

#[test]
fn records_of_an_unknown_kind_are_named() {
    let session = session();
    let mut state = within(SegmentKind::Render);
    assert_eq!(
        project_replacement_record(
            &session,
            &mut state,
            &DecodedReplacementRecord::Blit(Box::default()),
        ),
        Err(ReplacementOperationProjectionError::BlitUnresolved {
            kind: BlitKind::Unknown,
            opcode: BlitOpcode::Other(0),
        })
    );
    for (kind, opcode) in [
        (BlitKind::Resource, BlitOpcode::OptimizeForGpu),
        (BlitKind::Image, BlitOpcode::OptimizeForCpuSliceLevel),
        (BlitKind::InvalidateCompressedTexture, BlitOpcode::Other(1)),
    ] {
        let hint = BlitCommand { kind, opcode, ..Default::default() };
        assert_eq!(
            project_replacement_record(
                &session,
                &mut state,
                &DecodedReplacementRecord::Blit(Box::new(hint)),
            ),
            Ok(Vec::new())
        );
    }
    let question = InfoOperation::HeapHost {
        heap: 3,
        detail: 0,
        reply: InfoReplyTarget { buffer: 4, offset: 0, length: 8, alignment: 8 },
    };
    assert_eq!(
        project_replacement_record(
            &session,
            &mut state,
            &DecodedReplacementRecord::Info(question)
        ),
        Err(ReplacementOperationProjectionError::Info(InfoResolutionError::Unanswered(question)))
    );
    let mut answered = ReplacementRuntimeSession::default();
    answered.infos = vec![(question, InfoAnswer::Query(12))];
    assert_eq!(
        project_replacement_record(
            &answered,
            &mut state,
            &DecodedReplacementRecord::Info(question)
        ),
        Ok(vec![ProjectedReplacementOperation::InfoQuery(12)])
    );
}

#[test]
fn two_coordinates_of_one_map_are_two_questions() {
    let coordinate = |detail: u64| InfoOperation::MapCoordinate {
        rate_map: 3,
        detail,
        reply: InfoReplyTarget { buffer: 4, offset: 0, length: 8, alignment: 8 },
    };
    let mut session = ReplacementRuntimeSession::default();
    session.infos = vec![
        (coordinate(1), InfoAnswer::Query(12)),
        (coordinate(2), InfoAnswer::Query(13)),
    ];
    assert_eq!(session.resolve_info_operation(coordinate(1)), Ok(12));
    assert_eq!(session.resolve_info_operation(coordinate(2)), Ok(13));
    assert_eq!(
        session.resolve_info_operation(coordinate(3)),
        Err(InfoResolutionError::Unanswered(coordinate(3)))
    );
}

#[test]
fn shapes_and_accesses_join_as_stages_do() {
    assert!(sampled_texture_type_matches(SampledImageKind::D2, TextureType::D2));
    assert!(!sampled_texture_type_matches(SampledImageKind::D2, TextureType::Cube));
    assert_eq!(join_access(AccessMode::Read, AccessMode::Write), AccessMode::ReadWrite);
    assert_eq!(join_access(AccessMode::Read, AccessMode::Read), AccessMode::Read);
    assert_eq!(join_access(AccessMode::Unknown, AccessMode::Write), AccessMode::Unknown);
}
