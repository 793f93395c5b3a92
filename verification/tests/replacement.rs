use reims_vgpu::attachments::{
    RenderAttachmentClear, RenderAttachmentRole, ResolvedRenderAttachment,
};
use reims_vgpu::bindings::{
    AccessMode, BackingRegion, RenderBindingClass, RenderBindingView,
    ResolvedRenderResourceBinding,
};
use reims_vgpu::command::{
    BlitCommand, ComputeBufferBinding, ComputeCommand, ComputeKind, ComputeRefBinding,
    ComputeSamplerBinding, DecodedReplacementRecord, InfoOperation, InfoReplyTarget, RenderCommand,
    RenderKind, RenderOpcode, Size,
};
use reims_vgpu::compute_state::{
    ReplacementComputeStateResolutionError, MAX_COMPUTE_SAMPLER_SLOTS, MAX_COMPUTE_TEXTURE_SLOTS,
};
use reims_vgpu::draw::{ResolvedRenderDispatch, ResolvedRenderDraw, ResolvedRenderRasterState};
use reims_vgpu::encoder_marks::mark_render_dispatch_encoder_boundaries;
use reims_vgpu::encoder_state::{
    resolve_compute_state_record, resolve_render_state_record, EncoderBoundary,
    ReplacementRecordProjectionState, ReplacementRenderStateResolutionError, SegmentKind,
};
use reims_vgpu::exec_streams::{
    decode_replacement_exec_streams, project_replacement_exec_streams, DecodedReplacementSegment,
    DecodedReplacementStream, FramedSegment, FramedStream, RecordsEnd,
    ReplacementExecDecodeRefusal, ReplacementRecordDecodeRefusal, ResolvedExecSegment,
    ResolvedExecStream, SegmentBoundary, SegmentDisposition,
};
use reims_vgpu::manifest::replacement_stream_object_manifest;
use reims_vgpu::projection::ProjectedReplacementOperation;
use reims_vgpu::raster::{
    CullMode, DepthClipMode, FillMode, LoadAction, PrimitiveTopology, StoreAction,
};
use reims_vgpu::session::{AttachmentTarget, TextureType, TextureView};

fn raster() -> ResolvedRenderRasterState {
    ResolvedRenderRasterState {
        viewports: Vec::new(),
        scissors: Vec::new(),
        cull_mode: CullMode::Neither,
        front_face_ccw: false,
        fill_mode: FillMode::Fill,
        line_width_bits: 1.0f32.to_bits(),
        depth_clip_mode: DepthClipMode::Clip,
        depth_bias_bits: None,
        blend_color_bits: None,
        stencil_reference: (0, 0),
    }
}

fn sampled_view(resource: u64) -> TextureView {
    TextureView {
        resource,
        base: resource,
        image_owner: resource,
        level_base: 0,
        level_count: 1,
        slice_base: 0,
        slice_count: 1,
        texture_type: TextureType::D2,
        pixel_format: 70,
        swizzle: 0,
    }
}

fn dispatch(samples_attachment: bool, reads_input: bool) -> ProjectedReplacementOperation {
    let attachment_backing = 7u64;
    let attachment_resource = 4u64;
    ProjectedReplacementOperation::Render(ResolvedRenderDispatch {
        pipeline: 2,
        vertex_program: 0,
        fragment_program: 0,
        depth_stencil: None,
        render_extent: (32, 16),
        raster: raster(),
        visibility: None,
        begins_encoder: false,
        ends_encoder: false,
        draw: ResolvedRenderDraw::Direct {
            topology: PrimitiveTopology::Triangle,
            vertex_count: 3,
            instance_count: 1,
            first_vertex: 0,
            first_instance: 0,
        },
        vertex_buffers: Vec::new(),
        attachments: vec![ResolvedRenderAttachment {
            role: RenderAttachmentRole::Color(0),
            target: AttachmentTarget {
                resource: attachment_resource,
                image_owner: attachment_resource,
                backing: attachment_backing,
                region: 0,
                pixel_format: 80,
                extent: Size { width: 32, height: 16, depth: 1 },
                sample_count: 1,
            },
            load: LoadAction::Clear,
            store: StoreAction::Store,
            clear: RenderAttachmentClear::Color([0; 4]),
            resolve: None,
            feedback_loop: false,
            input_attachment: reads_input,
        }],
        resources: if samples_attachment {
            vec![ResolvedRenderResourceBinding {
                class: RenderBindingClass::SampledImage,
                binding: 3,
                array_element: 0,
                descriptor_count: 1,
                stages: 2,
                resource: attachment_resource,
                backing: attachment_backing,
                view: RenderBindingView::Image(sampled_view(attachment_resource)),
                region: BackingRegion::Whole,
                mode: AccessMode::Read,
            }]
        } else {
            Vec::new()
        },
        null_bindings: Vec::new(),
        samplers: Vec::new(),
    })
}

fn boundary(stream_index: u32, index: u32, previous: bool, next: bool) -> SegmentBoundary {
    SegmentBoundary {
        stream_index,
        index,
        kind: SegmentKind::Render,
        continues_previous: previous,
        continues_next: next,
    }
}

fn render_begin() -> ProjectedReplacementOperation {
    ProjectedReplacementOperation::EncoderBoundary(EncoderBoundary::Begin(SegmentKind::Render))
}

fn render_end() -> ProjectedReplacementOperation {
    ProjectedReplacementOperation::EncoderBoundary(EncoderBoundary::End(SegmentKind::Render))
}

#[test]
fn an_encoder_read_of_an_attachment_marks_every_draw_in_it() {
    let mut streams = vec![ResolvedExecStream {
        stream_index: 0,
        segments: vec![ResolvedExecSegment {
            boundary: boundary(0, 0, false, false),
            operations: vec![
                render_begin(),
                dispatch(false, true),
                dispatch(true, false),
                render_end(),
            ],
        }],
    }];

    mark_render_dispatch_encoder_boundaries(&mut streams);

    for index in [1, 2] {
        let ProjectedReplacementOperation::Render(operation) =
            &streams[0].segments[0].operations[index]
        else {
            panic!("operation {index} must remain a render dispatch")
        };
        assert!(
            operation.attachments[0].feedback_loop,
            "draw {index} lost its encoder's feedback loop"
        );
        assert!(
            operation.attachments[0].input_attachment,
            "draw {index} lost its encoder's colour input read"
        );
    }
}

#[test]
fn the_first_and_the_last_draw_of_an_encoder_are_marked_across_streams() {
    let mut streams = vec![
        ResolvedExecStream {
            stream_index: 0,
            segments: vec![ResolvedExecSegment {
                boundary: boundary(0, 0, false, true),
                operations: vec![render_begin(), dispatch(false, false)],
            }],
        },
        ResolvedExecStream {
            stream_index: 1,
            segments: vec![ResolvedExecSegment {
                boundary: boundary(1, 0, true, false),
                operations: vec![
                    dispatch(true, false),
                    dispatch(false, false),
                    render_end(),
                    dispatch(false, false),
                ],
            }],
        },
    ];
    mark_render_dispatch_encoder_boundaries(&mut streams);
    let marks = |stream: usize, index: usize| match &streams[stream].segments[0].operations[index] {
        ProjectedReplacementOperation::Render(draw) => (
            draw.begins_encoder,
            draw.ends_encoder,
            draw.attachments[0].feedback_loop,
        ),
        _ => panic!("not a draw"),
    };
    assert_eq!(marks(0, 1), (true, false, true));
    assert_eq!(marks(1, 0), (false, false, true));
    assert_eq!(marks(1, 1), (false, true, true));
    // Outside of every encoder nothing is marked.
    assert_eq!(marks(1, 3), (false, false, false));
}

#[test]
fn marking_twice_changes_nothing() {
    let encoder = |stream_index: u32| ResolvedExecStream {
        stream_index,
        segments: vec![ResolvedExecSegment {
            boundary: boundary(stream_index, 0, false, false),
            operations: vec![
                render_begin(),
                dispatch(false, true),
                dispatch(true, false),
                dispatch(false, false),
                render_end(),
            ],
        }],
    };
    let mut once = vec![encoder(0), encoder(1)];
    mark_render_dispatch_encoder_boundaries(&mut once);
    let mut twice = vec![encoder(0), encoder(1)];
    mark_render_dispatch_encoder_boundaries(&mut twice);
    mark_render_dispatch_encoder_boundaries(&mut twice);
    assert_eq!(once, twice);
}

fn render_draw() -> DecodedReplacementRecord {
    DecodedReplacementRecord::Render(Box::new(RenderCommand {
        kind: RenderKind::Draw,
        opcode: RenderOpcode::Draw,
        primitive_type: 3,
        vertex_count: 3,
        ..Default::default()
    }))
}

fn segment(
    kind: SegmentKind,
    records: Vec<DecodedReplacementRecord>,
    continues_previous: bool,
    continues_next: bool,
) -> FramedStream {
    FramedStream::Segments(vec![FramedSegment {
        index: 0,
        disposition: SegmentDisposition::Walk(kind),
        continues_previous,
        continues_next,
        records,
        end: RecordsEnd::Done,
    }])
}

#[test]
fn complete_decode_preserves_records_and_cross_stream_continuation() {
    let streams = vec![
        segment(SegmentKind::Render, vec![render_draw()], false, true),
        segment(SegmentKind::Render, vec![render_draw()], true, false),
    ];
    let decoded = decode_replacement_exec_streams(streams).unwrap();
    assert_eq!(decoded.len(), 2);
    assert_eq!(decoded[0].stream_index, 0);
    assert_eq!(decoded[1].stream_index, 1);
    assert_eq!(decoded[0].segments[0].records.len(), 1);
    assert_eq!(decoded[1].segments[0].records.len(), 1);
    assert!(decoded[0].segments[0].boundary.continues_next);
    assert!(decoded[1].segments[0].boundary.continues_previous);
    assert!(matches!(
        decoded[1].segments[0].records[0],
        DecodedReplacementRecord::Render(ref command)
            if matches!(command.as_ref(), RenderCommand {
            kind: RenderKind::Draw,
            ..
        })
    ));
}

#[test]
fn malformed_late_record_returns_no_partial_stream_set() {
    let streams = vec![FramedStream::Segments(vec![FramedSegment {
        index: 0,
        disposition: SegmentDisposition::Walk(SegmentKind::Render),
        continues_previous: false,
        continues_next: false,
        records: vec![render_draw()],
        end: RecordsEnd::Refused { opcode: 5, offset: 16, status: 2 },
    }])];

    assert!(matches!(
        decode_replacement_exec_streams(streams),
        Err(ReplacementExecDecodeRefusal::Record {
            reason: ReplacementRecordDecodeRefusal::Render(_),
            ..
        })
    ));
}

#[test]
fn continuation_type_change_is_a_structural_refusal() {
    let streams = vec![
        segment(SegmentKind::Render, Vec::new(), false, true),
        segment(SegmentKind::Compute, Vec::new(), true, false),
    ];
    assert!(matches!(
        decode_replacement_exec_streams(streams),
        Err(ReplacementExecDecodeRefusal::ContinuationTypeMismatch {
            previous_type: SegmentKind::Render,
            ..
        })
    ));
}

#[test]
fn each_structural_refusal_has_its_input() {
    let at = |previous: bool, next: bool| SegmentBoundary {
        stream_index: 0,
        index: 0,
        kind: SegmentKind::Blit,
        continues_previous: previous,
        continues_next: next,
    };
    assert_eq!(
        decode_replacement_exec_streams(vec![segment(SegmentKind::Blit, Vec::new(), true, false)]),
        Err(ReplacementExecDecodeRefusal::ContinuationWithoutPrevious { boundary: at(true, false) })
    );
    assert_eq!(
        decode_replacement_exec_streams(vec![segment(SegmentKind::Blit, Vec::new(), false, true)]),
        Err(ReplacementExecDecodeRefusal::UnclosedEncoder { previous_type: SegmentKind::Blit })
    );
    assert_eq!(
        decode_replacement_exec_streams(vec![
            segment(SegmentKind::Blit, Vec::new(), false, true),
            segment(SegmentKind::Blit, Vec::new(), false, false),
        ]),
        Err(ReplacementExecDecodeRefusal::RestartBeforeClose {
            boundary: SegmentBoundary { stream_index: 1, ..at(false, false) },
            previous_type: SegmentKind::Blit,
        })
    );
    assert_eq!(
        decode_replacement_exec_streams(vec![FramedStream::Broken(9)]),
        Err(ReplacementExecDecodeRefusal::Stream { stream_index: 0, reason: 9 })
    );
    let unframed = |disposition: SegmentDisposition, end: RecordsEnd| {
        vec![FramedStream::Segments(vec![FramedSegment {
            index: 4,
            disposition,
            continues_previous: false,
            continues_next: false,
            records: Vec::new(),
            end,
        }])]
    };
    assert_eq!(
        decode_replacement_exec_streams(unframed(SegmentDisposition::Unknown(77), RecordsEnd::Done)),
        Err(ReplacementExecDecodeRefusal::UnknownSegment {
            stream_index: 0,
            segment_index: 4,
            type_: 77,
        })
    );
    assert_eq!(
        decode_replacement_exec_streams(unframed(
            SegmentDisposition::Walk(SegmentKind::Event),
            RecordsEnd::Broken(3),
        )),
        Err(ReplacementExecDecodeRefusal::Stream { stream_index: 0, reason: 3 })
    );
    // An envelope holds no encoder, and opens none.
    let decoded = decode_replacement_exec_streams(unframed(
        SegmentDisposition::Envelope,
        RecordsEnd::Done,
    ))
    .unwrap();
    assert_eq!(decoded.len(), 1);
    assert!(decoded[0].segments.is_empty());
}

#[test]
fn compute_projection_state_follows_encoder_lifetime_and_retains_continuation_deltas() {
    let mut state = ReplacementRecordProjectionState::default();
    let compute_kind = SegmentKind::Compute;
    state.encoder_boundary(EncoderBoundary::Begin(compute_kind));
    resolve_compute_state_record(
        &mut state,
        &ComputeCommand {
            kind: ComputeKind::Pipeline,
            pipeline_ref: 41,
            ..Default::default()
        },
    )
    .unwrap();
    resolve_compute_state_record(
        &mut state,
        &ComputeCommand {
            kind: ComputeKind::BufferBindAttributeStride,
            first: 3,
            buffers: vec![ComputeBufferBinding {
                ref_: 17,
                offset: 64,
                attribute_stride: 12,
                has_attribute_stride: true,
            }],
            ..Default::default()
        },
    )
    .unwrap();

    // A continuation has no second Begin boundary. Its delta therefore
    // updates the state established by the preceding segment.
    resolve_compute_state_record(
        &mut state,
        &ComputeCommand {
            kind: ComputeKind::BufferOffset,
            first: 3,
            buffer_offset: 96,
            ..Default::default()
        },
    )
    .unwrap();
    let accum = state.compute.as_ref().unwrap();
    assert_eq!(accum.pipeline_ref, 41);
    assert_eq!(accum.buffers.len(), 1);
    assert_eq!(accum.buffers[0].index, 3);
    assert_eq!(accum.buffers[0].buffer_ref, 17);
    assert_eq!(accum.buffers[0].offset, 96);
    assert_eq!(accum.buffers[0].attribute_stride, 12);

    let error = resolve_compute_state_record(
        &mut state,
        &ComputeCommand {
            kind: ComputeKind::TextureBind,
            first: MAX_COMPUTE_TEXTURE_SLOTS,
            textures: vec![ComputeRefBinding { ref_: 99 }],
            ..Default::default()
        },
    )
    .unwrap_err();
    assert_eq!(
        error,
        ReplacementComputeStateResolutionError::TextureIndexOverflow {
            first: MAX_COMPUTE_TEXTURE_SLOTS,
            count: 1,
            limit: MAX_COMPUTE_TEXTURE_SLOTS,
        }
    );
    assert!(state.compute.as_ref().unwrap().textures.is_empty());

    assert_eq!(
        resolve_compute_state_record(
            &mut state,
            &ComputeCommand {
                kind: ComputeKind::TextureBind,
                first: MAX_COMPUTE_TEXTURE_SLOTS,
                textures: vec![ComputeRefBinding { ref_: 0 }],
                ..Default::default()
            },
        ),
        Err(ReplacementComputeStateResolutionError::TextureIndexOverflow {
            first: MAX_COMPUTE_TEXTURE_SLOTS,
            count: 1,
            limit: MAX_COMPUTE_TEXTURE_SLOTS,
        })
    );
    assert_eq!(
        resolve_compute_state_record(
            &mut state,
            &ComputeCommand {
                kind: ComputeKind::SamplerBind,
                first: MAX_COMPUTE_SAMPLER_SLOTS - 1,
                samplers: vec![
                    ComputeSamplerBinding {
                        ref_: 0,
                        lod_min: 0,
                        lod_max: 0,
                        has_lod_clamp: false,
                    };
                    2
                ],
                ..Default::default()
            },
        ),
        Err(ReplacementComputeStateResolutionError::SamplerIndexOverflow {
            first: MAX_COMPUTE_SAMPLER_SLOTS - 1,
            count: 2,
            limit: MAX_COMPUTE_SAMPLER_SLOTS,
        })
    );
    assert_eq!(
        resolve_compute_state_record(
            &mut state,
            &ComputeCommand {
                kind: ComputeKind::BufferOffset,
                first: 4,
                buffer_offset: 128,
                ..Default::default()
            },
        ),
        Err(ReplacementComputeStateResolutionError::BufferOffsetUnbound { index: 4 })
    );
    resolve_compute_state_record(
        &mut state,
        &ComputeCommand {
            kind: ComputeKind::Pipeline,
            pipeline_ref: 0,
            ..Default::default()
        },
    )
    .unwrap();
    assert_eq!(state.compute.as_ref().unwrap().pipeline_ref, 0);

    state.encoder_boundary(EncoderBoundary::End(compute_kind));
    assert_eq!(
        resolve_compute_state_record(
            &mut state,
            &ComputeCommand {
                kind: ComputeKind::Pipeline,
                pipeline_ref: 42,
                ..Default::default()
            },
        ),
        Err(ReplacementComputeStateResolutionError::OutsideEncoder)
    );
}

#[test]
fn vertex_amplification_accepts_only_the_exact_single_view_default() {
    let mut state = ReplacementRecordProjectionState::default();
    state.encoder_boundary(EncoderBoundary::Begin(SegmentKind::Render));
    resolve_render_state_record(
        &mut state,
        &RenderCommand {
            kind: RenderKind::SetVertexAmplification,
            opcode: RenderOpcode::SetVertexAmplificationMode,
            ..Default::default()
        },
    )
    .unwrap();
    resolve_render_state_record(
        &mut state,
        &RenderCommand {
            kind: RenderKind::SetVertexAmplification,
            opcode: RenderOpcode::SetVertexAmplificationCount,
            count: 1,
            amplification_mappings: vec![(0, 0)],
            ..Default::default()
        },
    )
    .unwrap();

    assert_eq!(
        resolve_render_state_record(
            &mut state,
            &RenderCommand {
                kind: RenderKind::SetVertexAmplification,
                opcode: RenderOpcode::SetVertexAmplificationCount,
                count: 1,
                amplification_mappings: vec![(0, 2)],
                ..Default::default()
            },
        ),
        Err(ReplacementRenderStateResolutionError::VertexAmplificationMappingUnsupported {
            index: 0,
            viewport_offset: 0,
            render_target_offset: 2,
        })
    );
    assert_eq!(
        resolve_render_state_record(
            &mut state,
            &RenderCommand {
                kind: RenderKind::SetVertexAmplification,
                opcode: RenderOpcode::SetVertexAmplificationMode,
                mode: 3,
                amplification_value: 4,
                ..Default::default()
            },
        ),
        Err(ReplacementRenderStateResolutionError::VertexAmplificationUnsupported {
            count: 1,
            mode: 3,
            value: 4,
        })
    );
}

#[test]
fn tessellation_scale_accepts_only_the_contract_default() {
    let mut state = ReplacementRecordProjectionState::default();
    state.encoder_boundary(EncoderBoundary::Begin(SegmentKind::Render));
    resolve_render_state_record(
        &mut state,
        &RenderCommand {
            kind: RenderKind::SetFloatState,
            opcode: RenderOpcode::SetTessellationFactorScale,
            float_value: 1.0f32.to_bits(),
            ..Default::default()
        },
    )
    .unwrap();
    assert_eq!(
        resolve_render_state_record(
            &mut state,
            &RenderCommand {
                kind: RenderKind::SetFloatState,
                opcode: RenderOpcode::SetTessellationFactorScale,
                float_value: 2.5f32.to_bits(),
                ..Default::default()
            },
        ),
        Err(ReplacementRenderStateResolutionError::TessellationFactorScaleUnsupported {
            bits: 2.5f32.to_bits(),
        })
    );
}

#[test]
fn render_pass_property_accepts_only_the_established_sample_default() {
    let mut state = ReplacementRecordProjectionState::default();
    state.encoder_boundary(EncoderBoundary::Begin(SegmentKind::Render));
    resolve_render_state_record(
        &mut state,
        &RenderCommand {
            kind: RenderKind::RenderPassProperty,
            opcode: RenderOpcode::DefaultRasterSampleCount,
            mode: 1,
            ..Default::default()
        },
    )
    .unwrap();
    assert_eq!(
        resolve_render_state_record(
            &mut state,
            &RenderCommand {
                kind: RenderKind::RenderPassProperty,
                opcode: RenderOpcode::DefaultRasterSampleCount,
                mode: 4,
                ..Default::default()
            },
        ),
        Err(ReplacementRenderStateResolutionError::DefaultRasterSampleCountUnsupported {
            count: 4,
        })
    );
    assert_eq!(
        resolve_render_state_record(
            &mut state,
            &RenderCommand {
                kind: RenderKind::RenderPassProperty,
                opcode: RenderOpcode::RasterizationRateMap,
                texture_ref: 17,
                ..Default::default()
            },
        ),
        Err(ReplacementRenderStateResolutionError::RenderPassPropertyUnsupported {
            opcode: RenderOpcode::RasterizationRateMap,
            value: 0,
            reference: 17,
            count: 0,
        })
    );
}

#[derive(Clone, Debug, PartialEq)]
enum Projected {
    Boundary(EncoderBoundary),
    Render(RenderOpcode),
}

#[test]
fn projection_places_one_begin_and_end_around_a_continued_encoder() {
    let decoded = decode_replacement_exec_streams(vec![
        segment(SegmentKind::Render, vec![render_draw()], false, true),
        segment(SegmentKind::Render, vec![render_draw()], true, false),
    ])
    .unwrap();
    let projected =
        project_replacement_exec_streams(decoded, Projected::Boundary, |_boundary, record| {
            match record {
                DecodedReplacementRecord::Render(command) => {
                    Ok::<_, ()>(vec![Projected::Render(command.opcode)])
                }
                _ => unreachable!(),
            }
        })
        .unwrap();

    assert_eq!(
        projected[0].segments[0].operations,
        [
            Projected::Boundary(EncoderBoundary::Begin(SegmentKind::Render)),
            Projected::Render(RenderOpcode::Draw),
        ]
    );
    assert_eq!(
        projected[1].segments[0].operations,
        [
            Projected::Render(RenderOpcode::Draw),
            Projected::Boundary(EncoderBoundary::End(SegmentKind::Render)),
        ]
    );
}

#[test]
fn projection_refusal_returns_the_complete_decoded_input() {
    let decoded = decode_replacement_exec_streams(vec![segment(
        SegmentKind::Render,
        vec![render_draw()],
        false,
        false,
    )])
    .unwrap();
    let failure =
        project_replacement_exec_streams(decoded, Projected::Boundary, |_boundary, _record| {
            Err::<Vec<Projected>, _>("not-ready")
        })
        .unwrap_err();
    assert_eq!(failure.reason, "not-ready");
    assert_eq!(failure.streams.len(), 1);
    assert_eq!(failure.streams[0].segments[0].records.len(), 1);
}

#[test]
fn stream_object_manifest_keeps_object_slots_and_excludes_other_namespaces() {
    let render = RenderCommand {
        pipeline_ref: 7,
        buffer_ref: 9,
        ref_binds: vec![11, 0, 9],
        fence_ref: 13,
        participation_heaps: vec![15],
        ..Default::default()
    };
    let compute = ComputeCommand {
        pipeline_ref: 7,
        textures: vec![ComputeRefBinding { ref_: 12 }],
        fence_ref: 14,
        heaps: vec![16],
        ..Default::default()
    };
    let blit = BlitCommand {
        source: 9,
        destination: 17,
        fence: 18,
        ..Default::default()
    };
    let info = InfoOperation::SamplerHost {
        sampler: 19,
        reply: InfoReplyTarget { buffer: 20, offset: 0, length: 8, alignment: 8 },
    };
    let streams = vec![DecodedReplacementStream {
        stream_index: 0,
        segments: vec![DecodedReplacementSegment {
            boundary: boundary(0, 0, false, false),
            records: vec![
                DecodedReplacementRecord::Render(Box::new(render)),
                DecodedReplacementRecord::Compute(Box::new(compute)),
                DecodedReplacementRecord::Blit(Box::new(blit)),
                DecodedReplacementRecord::Info(info),
            ],
        }],
    }];

    assert_eq!(
        replacement_stream_object_manifest(&streams).objects,
        vec![7, 9, 11, 12, 17, 19, 20]
    );
}

#[test]
fn a_second_list_adds_to_the_manifest_of_the_first() {
    let stream = |stream_index: u32, ref_binds: Vec<u32>| DecodedReplacementStream {
        stream_index,
        segments: vec![DecodedReplacementSegment {
            boundary: boundary(stream_index, 0, false, false),
            records: vec![DecodedReplacementRecord::Render(Box::new(RenderCommand {
                ref_binds,
                ..Default::default()
            }))],
        }],
    };
    let first = vec![stream(0, vec![5, 0, 3])];
    let both = vec![stream(0, vec![5, 0, 3]), stream(1, vec![4, 3, 6, 4])];
    assert_eq!(replacement_stream_object_manifest(&first).objects, vec![5, 3]);
    assert_eq!(replacement_stream_object_manifest(&both).objects, vec![5, 3, 4, 6]);
}
