use reims_vgpu::command::{ColorAttachment, DepthAttachment, ScissorRect, StencilAttachment};
use reims_vgpu::exec_result::ExecResult;
use reims_vgpu::fence_exec::{FenceAction, FenceStatus, FenceTable};
use reims_vgpu::raster::IndexType;
use reims_vgpu::refusals::{
    note_draw_refused, BindClass, BindSlotPastTable, BufferOffsetSlotPastTable, DropLatch,
    FieldValue, PassAspect, RefusalLatch, ShaderStage, StreamDrawDrop, StreamRefusal,
};
use reims_vgpu::render_rail::{
    handle_render_record, render_door, OperationClass, OperationHome, PassProperty, RenderDoor,
    RenderOutcome, RenderRecord, TileTable, UnsettledRender,
};
use reims_vgpu::render_records::{
    handle_render_stream_state, is_render_bind, is_render_draw, is_render_pass_state,
    is_render_stream_state, note_state, SettledRenderKind, StateOutcome, StateRecord,
};
use reims_vgpu::residency::{
    DeclaredStages, DeclaredUsage, ResidencyRecord, ResidencyWriteDeclared, UsageClass,
};
use reims_vgpu::stream_accum::{
    BufferBind, DrawArgs, IndexedDrawInfo, RenderIcbExecute, StreamAccum, VisibilityArming,
};
use reims_vgpu::stream_binds::{
    handle_render_binds, BindOutcome, BindRecord, BindsApplied, BufferEntry, SamplerEntry,
    TextureEntry,
};
use reims_vgpu::stream_draws::{
    draw_count, draw_instances, handle_render_draw, DrawField, DrawOutcome, DrawRecord, IndexRef,
    IndirectCounts, Instancing,
};
use reims_vgpu::stream_pass::{
    handle_render_pass_state, note_store_action, PassColor, PassDescriptor, PassOutcome,
    PassRecord, StoreActionOutcome, StoreActionTarget,
};

fn buffer(buffer_ref: u32, offset: u64) -> BufferEntry {
    BufferEntry { buffer_ref, resource: Some(u64::from(buffer_ref)), offset, attribute_stride: None }
}

fn bind_buffers(
    acc: &mut StreamAccum,
    out: &mut ExecResult,
    first: u32,
    entries: Vec<BufferEntry>,
) -> BindOutcome {
    handle_render_binds(
        acc,
        out,
        &BindRecord::Buffers { stage: ShaderStage::Vertex, first, entries },
    )
}

#[test]
fn a_zero_reference_empties_its_slot_and_any_other_replaces_it() {
    let mut acc = StreamAccum::default();
    let mut out = ExecResult::default();
    bind_buffers(&mut acc, &mut out, 2, vec![buffer(10, 0), buffer(11, 4), buffer(12, 8)]);
    let outcome = bind_buffers(&mut acc, &mut out, 2, vec![buffer(0, 0), buffer(21, 16)]);
    assert_eq!(
        outcome,
        BindOutcome::Bound(BindsApplied { cleared: 1, past: None, reach: Some(4) })
    );
    assert_eq!(out.buffer_unbinds, 1);
    let slots: Vec<(u32, u32, u64)> = acc
        .state
        .vertex_buffers
        .iter()
        .map(|b| (b.index, b.buffer_ref, b.offset))
        .collect();
    assert_eq!(slots, vec![(3, 21, 16), (4, 12, 8)]);
    assert!(acc.state.fragment_buffers.is_empty());
    assert_eq!(acc.unrepresentable, None);
}

#[test]
fn a_bind_past_its_table_stops_there_and_the_first_refusal_stands() {
    let mut acc = StreamAccum::default();
    let mut out = ExecResult::default();
    let outcome = bind_buffers(&mut acc, &mut out, 29, vec![buffer(1, 0); 5]);
    let over = BindSlotPastTable {
        class: BindClass::Buffer,
        stage: ShaderStage::Vertex,
        index: 31,
        slots: 3,
    };
    assert_eq!(
        outcome,
        BindOutcome::Bound(BindsApplied { cleared: 0, past: Some(over), reach: Some(34) })
    );
    assert_eq!(acc.state.vertex_buffers.len(), 2);
    assert_eq!(acc.unrepresentable, Some(StreamRefusal::Bind(over)));

    let later = bind_buffers(&mut acc, &mut out, 40, vec![buffer(1, 0)]);
    assert!(matches!(
        later,
        BindOutcome::Bound(BindsApplied { past: Some(BindSlotPastTable { index: 40, slots: 1, .. }), .. })
    ));
    assert_eq!(acc.unrepresentable, Some(StreamRefusal::Bind(over)));
    assert_eq!(bind_buffers(&mut acc, &mut out, 0, Vec::new()),
        BindOutcome::Bound(BindsApplied { cleared: 0, past: None, reach: None }));
}

#[test]
fn textures_are_listed_once_with_the_mapping_they_name() {
    let mut acc = StreamAccum::default();
    let mut out = ExecResult::default();
    let entry = |texture_ref: u32, mapper: Option<u32>, backing: bool| TextureEntry {
        texture_ref,
        resource: None,
        mapper,
        backing,
    };
    handle_render_binds(
        &mut acc,
        &mut out,
        &BindRecord::Textures {
            stage: ShaderStage::Fragment,
            first: 126,
            entries: vec![
                entry(5, Some(50), true),
                entry(6, None, true),
                // Past the table: neither bound nor listed.
                entry(7, Some(70), false),
            ],
        },
    );
    assert_eq!(out.texture_refs, vec![5, 6]);
    assert_eq!(out.mapper_ref_texture_mappings, vec![50, 6]);
    assert_eq!(acc.state.fragment_textures.len(), 2);
    handle_render_binds(
        &mut acc,
        &mut out,
        &BindRecord::Textures {
            stage: ShaderStage::Fragment,
            first: 0,
            entries: vec![entry(5, Some(50), false), entry(0, None, false), entry(8, None, false)],
        },
    );
    assert_eq!(out.texture_refs, vec![5, 6, 8]);
    assert_eq!(out.mapper_ref_texture_mappings, vec![50, 6]);
    assert_eq!(out.texture_unbinds, 1);
}

#[test]
fn samplers_keep_the_clamp_that_their_own_entry_states() {
    let mut acc = StreamAccum::default();
    let mut out = ExecResult::default();
    handle_render_binds(
        &mut acc,
        &mut out,
        &BindRecord::Samplers {
            stage: ShaderStage::Vertex,
            first: 0,
            entries: vec![
                SamplerEntry { sampler_ref: 3, lod_clamp: Some((1, 2)) },
                SamplerEntry { sampler_ref: 4, lod_clamp: None },
                SamplerEntry { sampler_ref: 0, lod_clamp: Some((9, 9)) },
            ],
        },
    );
    let clamps: Vec<_> = acc.state.vertex_samplers.iter().map(|s| s.lod_clamp).collect();
    assert_eq!(clamps, vec![Some((1, 2)), None]);
    assert_eq!(out.sampler_unbinds, 1);
}

#[test]
fn an_offset_moves_only_in_a_bound_slot_and_keeps_the_stride() {
    let mut acc = StreamAccum::default();
    let mut out = ExecResult::default();
    handle_render_binds(
        &mut acc,
        &mut out,
        &BindRecord::Buffers {
            stage: ShaderStage::Vertex,
            first: 3,
            entries: vec![BufferEntry {
                buffer_ref: 9,
                resource: None,
                offset: 0,
                attribute_stride: Some(12),
            }],
        },
    );
    let mut rebind = |index: u32, offset: u64, stride: Option<u64>| {
        handle_render_binds(
            &mut acc,
            &mut out,
            &BindRecord::RebindBufferOffset { stage: ShaderStage::Vertex, index, offset, stride },
        )
    };
    assert_eq!(rebind(3, 64, None), BindOutcome::OffsetMoved);
    assert_eq!(rebind(4, 64, None), BindOutcome::OffsetUnbound);
    let past = BufferOffsetSlotPastTable { stage: ShaderStage::Vertex, index: 31 };
    assert_eq!(rebind(31, 64, None), BindOutcome::OffsetPastTable(past));
    assert_eq!(
        acc.state.vertex_buffers,
        vec![BufferBind {
            index: 3,
            buffer_ref: 9,
            resource: None,
            offset: 64,
            attribute_stride: Some(12),
        }]
    );
    assert_eq!(acc.unrepresentable, Some(StreamRefusal::BufferOffset(past)));
    handle_render_binds(
        &mut acc,
        &mut out,
        &BindRecord::RebindBufferOffset {
            stage: ShaderStage::Vertex,
            index: 3,
            offset: 8,
            stride: Some(16),
        },
    );
    assert_eq!(acc.state.vertex_buffers[0].attribute_stride, Some(16));
}

#[test]
fn reaches_are_named_by_the_table_they_fit() {
    assert_eq!(BindClass::Buffer.reach_route(16), "render_bind_reach_buffer_le16");
    assert_eq!(BindClass::Buffer.reach_route(31), "render_bind_reach_buffer_le_table");
    assert_eq!(BindClass::Buffer.reach_route(32), "render_bind_reach_buffer_over_table");
    assert_eq!(BindClass::Texture.reach_route(128), "render_bind_reach_texture_le_table");
    assert_eq!(BindClass::Texture.reach_route(129), "render_bind_reach_texture_over_table");
    assert_eq!(BindClass::Sampler.reach_route(17), "render_bind_reach_sampler_le_table");
    assert_eq!(BindClass::Sampler.reach_route(33), "render_bind_reach_sampler_over_table");
    for class in [BindClass::Buffer, BindClass::Texture, BindClass::Sampler] {
        assert!(class.apple_table() <= class.table());
    }
}

#[test]
fn state_records_set_their_own_field() {
    let mut acc = StreamAccum::default();
    let mut apply = |record: StateRecord| handle_render_stream_state(&mut acc, &record);
    assert_eq!(apply(StateRecord::SetPipeline { pipeline_ref: 8 }), StateOutcome::Applied);
    assert_eq!(apply(StateRecord::SetCullMode { mode: 1 << 32 }), StateOutcome::Applied);
    assert_eq!(apply(StateRecord::SetTriangleFillMode { mode: 1 }), StateOutcome::Applied);
    assert_eq!(apply(StateRecord::SetDepthClipMode { mode: 0 }), StateOutcome::Applied);
    assert_eq!(apply(StateRecord::SetFrontFacingWinding { winding: 1 }), StateOutcome::Applied);
    assert_eq!(apply(StateRecord::SetLineWidth { bits: 7 }), StateOutcome::Applied);
    assert_eq!(apply(StateRecord::SetBlendColor { bits: [1, 2, 3, 4] }), StateOutcome::Applied);
    assert_eq!(apply(StateRecord::SetDepthBias { bits: [1, 2, 3] }), StateOutcome::Applied);
    assert_eq!(apply(StateRecord::SetDepthStencilState { state_ref: 6 }), StateOutcome::Applied);
    assert_eq!(
        apply(StateRecord::SetStencilReference { front: 1, back: 2 }),
        StateOutcome::Applied
    );
    assert_eq!(
        apply(StateRecord::SetVisibilityResultMode { mode: 2, offset: 24 }),
        StateOutcome::Applied
    );
    assert_eq!(apply(StateRecord::SetViewports(vec![[1; 6]])), StateOutcome::Applied);
    assert_eq!(apply(StateRecord::SetViewports(Vec::new())), StateOutcome::NoViewport);
    let rect = ScissorRect { x: 0, y: 0, width: 4, height: 5 };
    let empty = ScissorRect { x: 0, y: 0, width: 4, height: 0 };
    assert_eq!(apply(StateRecord::SetScissorRects(vec![rect])), StateOutcome::Applied);
    assert_eq!(apply(StateRecord::SetScissorRects(Vec::new())), StateOutcome::NoScissor);
    assert_eq!(
        apply(StateRecord::SetScissorRects(vec![rect, empty])),
        StateOutcome::EmptyScissor(empty)
    );
    assert_eq!(acc.pipeline_ref, 8);
    // A word that does not fit stands out as the largest.
    assert_eq!(acc.state.cull_mode, Some(u32::MAX));
    assert_eq!(acc.state.fill_mode, Some(1));
    assert_eq!(acc.state.depth_clip_mode, Some(0));
    assert_eq!(acc.state.front_facing, Some(1));
    assert_eq!(acc.state.line_width, Some(7));
    assert_eq!(acc.state.blend_color, Some([1, 2, 3, 4]));
    assert_eq!(acc.state.depth_bias, Some([1, 2, 3]));
    assert_eq!(acc.state.depth_stencil_ref, 6);
    assert_eq!(acc.state.stencil_ref, Some((1, 2)));
    assert_eq!(acc.state.visibility, Some(VisibilityArming { mode: 2, offset: 24 }));
    assert_eq!(acc.state.viewports, vec![[1; 6]]);
    assert_eq!(acc.state.scissors, vec![rect]);
    assert_eq!(
        handle_render_stream_state(&mut acc, &StateRecord::SetPipeline { pipeline_ref: 0 }),
        StateOutcome::Unbound
    );
    handle_render_stream_state(
        &mut acc,
        &StateRecord::SetVisibilityResultMode { mode: 0, offset: 24 },
    );
    assert_eq!(acc.state.visibility, None);
    assert_eq!(acc.pipeline_ref, 0);
    assert_eq!(
        note_state(StateOutcome::EmptyScissor(empty), 9),
        Some((Some("render_scissor_empty_kept_previous"), 4u64 << 32))
    );
    assert_eq!(note_state(StateOutcome::NoViewport, 9), Some((Some("render_viewport_count_zero"), 9)));
    assert_eq!(note_state(StateOutcome::Applied, 9), None);
}

#[test]
fn every_settled_kind_has_one_group() {
    for kind in [
        SettledRenderKind::Draw, SettledRenderKind::DrawIndexedIndirect, SettledRenderKind::WriteDescriptor, SettledRenderKind::SetStencilStoreAction,
        SettledRenderKind::SetVertexBuffers, SettledRenderKind::SetFragmentSamplersWithLod, SettledRenderKind::SetRenderPipelineState,
        SettledRenderKind::SetVisibilityResultMode,
    ] {
        let groups = [
            is_render_stream_state(kind),
            is_render_bind(kind),
            is_render_pass_state(kind),
            is_render_draw(kind),
        ];
        assert_eq!(groups.iter().filter(|g| **g).count(), 1, "{kind:?}");
    }
}

#[test]
fn a_class_with_an_owner_is_routed_before_the_kind() {
    let stream = |class: OperationClass| Some(OperationHome::Stream(class));
    let draw = Some(SettledRenderKind::Draw);
    assert_eq!(render_door(stream(OperationClass::Fence), false, None), RenderDoor::Fence);
    assert_eq!(render_door(stream(OperationClass::Barrier), false, draw), RenderDoor::Barrier);
    assert_eq!(render_door(None, true, None), RenderDoor::Residency);
    assert_eq!(render_door(stream(OperationClass::Render), true, draw), RenderDoor::Draw);
    assert_eq!(
        render_door(stream(OperationClass::Render), false, Some(SettledRenderKind::SetViewports)),
        RenderDoor::StreamState
    );
    assert_eq!(
        render_door(
            stream(OperationClass::Render),
            false,
            Some(SettledRenderKind::SetVertexTextures)
        ),
        RenderDoor::Bind
    );
    assert_eq!(
        render_door(stream(OperationClass::Render), false, Some(SettledRenderKind::WriteDescriptor)),
        RenderDoor::PassState
    );
    assert_eq!(render_door(None, false, None), RenderDoor::Unsettled);
}

fn color(texture_ref: u32) -> ColorAttachment {
    ColorAttachment {
        texture_ref,
        level: 0,
        slice: 0,
        depth_plane: 0,
        resolve_texture_ref: 0,
        resolve_level: 0,
        resolve_slice: 0,
        resolve_depth_plane: 0,
        load_action: 2,
        store_action: 1,
        store_action_options: 0,
        clear_color: [0; 4],
    }
}

fn slot(attachment: ColorAttachment) -> PassColor {
    PassColor { attachment, mapper: None, backing: false, geometry: None }
}

fn descriptor(colors: Vec<PassColor>) -> PassDescriptor {
    PassDescriptor {
        visibility_result_buffer_ref: 0,
        render_target_array_length: 0,
        render_target_width: 0,
        render_target_height: 0,
        depth: DepthAttachment::default(),
        stencil: StencilAttachment::default(),
        color: colors,
    }
}

fn describe(
    acc: &mut StreamAccum,
    out: &mut ExecResult,
    descriptor: PassDescriptor,
) -> (Vec<StreamDrawDrop>, Option<&'static str>, bool) {
    match handle_render_pass_state(acc, out, 2, &PassRecord::WriteDescriptor(descriptor)) {
        PassOutcome::Described(report) => (
            report.drops,
            report.target.and_then(|t| t.extent),
            report.extent_stated,
        ),
        PassOutcome::Stored(_) => panic!("a descriptor stores no action"),
    }
}

#[test]
fn a_pass_declares_its_slots_targets_and_clears() {
    let mut acc = StreamAccum::default();
    let mut out = ExecResult::default();
    let mut resolved = color(20);
    resolved.resolve_texture_ref = 21;
    resolved.load_action = 1;
    let (drops, extent, stated) = describe(
        &mut acc,
        &mut out,
        PassDescriptor {
            visibility_result_buffer_ref: 77,
            render_target_width: 50,
            render_target_height: 100,
            ..descriptor(vec![
                PassColor {
                    attachment: color(10),
                    mapper: Some(100),
                    backing: false,
                    geometry: Some((100, 100)),
                },
                slot(color(0)),
                PassColor { attachment: resolved, mapper: None, backing: true, geometry: None },
            ])
        },
    );
    assert!(drops.is_empty());
    assert_eq!(extent, Some("pass_extent_le50"));
    assert!(stated);
    assert_eq!(acc.visibility_buffer_ref, 77);
    assert_eq!(acc.color_slots, vec![(0, color(10)), (2, resolved)]);
    assert_eq!(acc.color_targets, vec![10, 21]);
    assert_eq!(acc.clears, vec![color(10)]);
    assert_eq!(out.texture_refs, vec![10, 20, 21]);
    assert_eq!(out.mapper_ref_texture_mappings, vec![100, 21]);
    assert_eq!(acc.unrepresentable, None);
}

#[test]
fn a_slot_is_replaced_and_a_texture_is_not_attached_twice() {
    let mut acc = StreamAccum::default();
    let mut out = ExecResult::default();
    describe(&mut acc, &mut out, descriptor(vec![slot(color(10)), slot(color(10))]));
    assert_eq!(acc.color_slots, vec![(0, color(10))]);
    describe(&mut acc, &mut out, descriptor(vec![slot(color(11))]));
    assert_eq!(acc.color_slots, vec![(0, color(11))]);
}

#[test]
fn places_that_cannot_be_bound_refuse_the_stream() {
    let mut acc = StreamAccum::default();
    let mut out = ExecResult::default();
    let mut sliced = color(10);
    sliced.slice = 3;
    let depth = DepthAttachment { texture_ref: 4, level: 1, ..DepthAttachment::default() };
    let stencil =
        StencilAttachment { texture_ref: 5, resolve_texture_ref: 6, ..StencilAttachment::default() };
    let (drops, _, _) = describe(
        &mut acc,
        &mut out,
        PassDescriptor {
            render_target_array_length: 6,
            depth,
            stencil,
            ..descriptor(vec![slot(sliced)])
        },
    );
    assert_eq!(
        drops,
        vec![
            StreamDrawDrop::PassArrayLengthUnsupported { length: 6 },
            StreamDrawDrop::DepthStencilUnsupported {
                aspect: PassAspect::Depth,
                level: 1,
                slice: 0,
                depth_plane: 0,
                resolve_texture_ref: 0,
            },
            StreamDrawDrop::DepthStencilUnsupported {
                aspect: PassAspect::Stencil,
                level: 0,
                slice: 0,
                depth_plane: 0,
                resolve_texture_ref: 6,
            },
            StreamDrawDrop::ColorSubresourceUnsupported {
                slot: 0,
                level: 0,
                slice: 3,
                depth_plane: 0,
                resolve_texture_ref: 0,
            },
        ]
    );
    assert_eq!(acc.state.depth_attach, None);
    assert_eq!(acc.state.stencil_attach, None);
    assert_eq!(
        acc.unrepresentable,
        Some(StreamRefusal::Pass(StreamDrawDrop::PassArrayLengthUnsupported { length: 6 }))
    );

    // A level of a colour texture can be bound, and so can the base of a depth
    // texture.
    let mut fresh = StreamAccum::default();
    let mut level = color(10);
    level.level = 2;
    let base = DepthAttachment { texture_ref: 4, ..DepthAttachment::default() };
    let (drops, _, stated) = describe(
        &mut fresh,
        &mut out,
        PassDescriptor { depth: base, ..descriptor(vec![slot(level)]) },
    );
    assert!(drops.is_empty());
    assert!(!stated);
    assert_eq!(fresh.state.depth_attach, Some(base));
}

#[test]
fn store_actions_override_what_the_pass_declares() {
    let mut acc = StreamAccum::default();
    let mut out = ExecResult::default();
    let base = DepthAttachment { texture_ref: 4, ..DepthAttachment::default() };
    describe(
        &mut acc,
        &mut out,
        PassDescriptor { depth: base, ..descriptor(vec![slot(color(0)), slot(color(10))]) },
    );
    let mut store = |target: StoreActionTarget, action: u64| {
        match handle_render_pass_state(
            &mut acc,
            &mut out,
            2,
            &PassRecord::SetStoreAction { target, action },
        ) {
            PassOutcome::Stored(outcome) => outcome,
            PassOutcome::Described(_) => panic!("a store action describes no pass"),
        }
    };
    assert_eq!(store(StoreActionTarget::Color(1), 3), StoreActionOutcome::Applied);
    assert_eq!(store(StoreActionTarget::Depth, 2), StoreActionOutcome::Applied);
    assert_eq!(
        store(StoreActionTarget::Color(0), 3),
        StoreActionOutcome::SlotUndeclared { index: 0, declared: 1 }
    );
    assert_eq!(store(StoreActionTarget::Stencil, 1), StoreActionOutcome::NoStencilAttachment);
    assert_eq!(store(StoreActionTarget::Depth, 1 << 16), StoreActionOutcome::OutOfRange);
    assert_eq!(acc.color_slots[0].1.store_action, 3);
    assert_eq!(acc.state.depth_attach.unwrap().store_action, 2);
    let mut bare = StreamAccum::default();
    assert_eq!(
        handle_render_pass_state(
            &mut bare,
            &mut out,
            2,
            &PassRecord::SetStoreAction { target: StoreActionTarget::Depth, action: 1 },
        ),
        PassOutcome::Stored(StoreActionOutcome::NoDepthAttachment)
    );
    assert_eq!(
        note_store_action(StoreActionOutcome::NoDepthAttachment),
        Some("render_store_action_no_depth_attachment")
    );
    assert_eq!(note_store_action(StoreActionOutcome::Applied), None);
}

fn primitives(vertex_count: u64) -> DrawRecord {
    DrawRecord::Primitives {
        primitive: 3,
        vertex_start: 5,
        vertex_count,
        instances: Instancing { count: None, base: 2 },
    }
}

#[test]
fn a_draw_is_recorded_with_the_state_it_came_with() {
    let mut acc = StreamAccum::default();
    let mut out = ExecResult::default();
    handle_render_stream_state(&mut acc, &StateRecord::SetPipeline { pipeline_ref: 8 });
    bind_buffers(&mut acc, &mut out, 0, vec![buffer(10, 0)]);
    let report = handle_render_draw(&mut acc, &mut out, &primitives(6));
    assert_eq!(report.outcome, DrawOutcome::Recorded);
    bind_buffers(&mut acc, &mut out, 0, vec![buffer(11, 0)]);
    assert!(out.saw_draw && acc.saw_draw);
    assert_eq!(acc.draws.len(), 1);
    assert_eq!(acc.draws[0].pipeline_ref, 8);
    assert_eq!(
        acc.draws[0].draw,
        DrawArgs {
            vertex_count: 6,
            instance_count: 1,
            primitive_type: 3,
            first_vertex: 5,
            base_instance: 2,
        }
    );
    assert_eq!(acc.draws[0].state.vertex_buffers[0].buffer_ref, 10);
    assert_eq!(acc.state.vertex_buffers[0].buffer_ref, 11);
}

#[test]
fn a_draw_is_lost_or_empty_for_a_reason() {
    let mut acc = StreamAccum::default();
    let mut out = ExecResult::default();
    assert_eq!(
        handle_render_draw(&mut acc, &mut out, &primitives(6)).outcome,
        DrawOutcome::NoPipeline
    );
    acc.pipeline_ref = 8;
    assert_eq!(
        handle_render_draw(&mut acc, &mut out, &primitives(0)).outcome,
        DrawOutcome::ZeroCount
    );
    assert_eq!(
        handle_render_draw(&mut acc, &mut out, &primitives(1 << 32)).outcome,
        DrawOutcome::OutOfRange { field: DrawField::Count, value: 1 << 32 }
    );
    let wide = |vertex_start: u64, count: Option<u64>, base: u64| DrawRecord::Primitives {
        primitive: 3,
        vertex_start,
        vertex_count: 3,
        instances: Instancing { count, base },
    };
    assert_eq!(
        handle_render_draw(&mut acc, &mut out, &wide(1 << 33, None, 0)).outcome,
        DrawOutcome::OutOfRange { field: DrawField::VertexStart, value: 1 << 33 }
    );
    assert_eq!(
        handle_render_draw(&mut acc, &mut out, &wide(0, Some(1 << 33), 0)).outcome,
        DrawOutcome::InstancesOutOfRange
    );
    assert_eq!(
        handle_render_draw(&mut acc, &mut out, &wide(0, None, 1 << 40)).outcome,
        DrawOutcome::OutOfRange { field: DrawField::BaseInstance, value: 1 << 40 }
    );
    assert_eq!((acc.dropped_no_pipeline, acc.dropped_zero_count), (1, 1));
    let zero = handle_render_draw(&mut acc, &mut out, &wide(0, Some(0), 0));
    assert!(zero.zero_instances);
    assert_eq!(acc.draws.last().unwrap().draw.instance_count, 0);

    let refusal = StreamRefusal::Pass(StreamDrawDrop::PassArrayLengthUnsupported { length: 2 });
    acc.unrepresentable = Some(refusal);
    let recorded = acc.draws.len();
    assert_eq!(
        handle_render_draw(&mut acc, &mut out, &primitives(6)).outcome,
        DrawOutcome::Refused(refusal)
    );
    assert_eq!(acc.draws.len(), recorded);
    assert_eq!(draw_count(u64::from(u32::MAX)), Some(u32::MAX));
    assert_eq!(draw_instances(Instancing { count: None, base: 0 }), Some(1));
}

#[test]
fn indices_belong_to_the_draw_that_names_them() {
    let mut acc = StreamAccum::default();
    let mut out = ExecResult::default();
    acc.pipeline_ref = 8;
    let index = IndexRef { index_type: IndexType::Uint32, buffer_ref: 40, offset: 100 };
    let indexed = |index: IndexRef, index_count: u64| DrawRecord::Indexed {
        primitive: 3,
        index,
        index_count,
        base_vertex: -4,
        instances: Instancing { count: Some(2), base: 0 },
    };
    handle_render_draw(&mut acc, &mut out, &indexed(index, 9));
    assert_eq!(
        acc.draws[0].state.indexed,
        Some(IndexedDrawInfo {
            index_type: 1,
            index_count: 9,
            index_buffer_ref: 40,
            index_buffer_offset: 100,
            base_vertex: -4,
        })
    );
    let unnamed = handle_render_draw(
        &mut acc,
        &mut out,
        &indexed(IndexRef { buffer_ref: 0, ..index }, 9),
    );
    assert_eq!(unnamed.without_index_buffer, Some(9));
    assert_eq!(acc.draws[1].state.indexed, None);
    assert_eq!(
        handle_render_draw(&mut acc, &mut out, &indexed(index, 1 << 32)).outcome,
        DrawOutcome::OutOfRange { field: DrawField::IndexCount, value: 1 << 32 }
    );
    let counts = IndirectCounts {
        args: DrawArgs {
            vertex_count: 7,
            instance_count: 1,
            primitive_type: 3,
            first_vertex: 0,
            base_instance: 0,
        },
        index_start: 3,
        base_vertex: -1,
    };
    out.saw_draw = false;
    handle_render_draw(
        &mut acc,
        &mut out,
        &DrawRecord::IndexedIndirect { index, counts: Some(counts) },
    );
    let info = acc.draws.last().unwrap().state.indexed.unwrap();
    // Three indices of four bytes behind the start.
    assert_eq!((info.index_count, info.index_buffer_offset, info.base_vertex), (7, 112, -1));
    assert!(!out.saw_draw);
    handle_render_draw(
        &mut acc,
        &mut out,
        &DrawRecord::IndexedIndirect {
            index: IndexRef { offset: u64::MAX - 1, ..index },
            counts: Some(counts),
        },
    );
    assert_eq!(
        acc.draws.last().unwrap().state.indexed.unwrap().index_buffer_offset,
        u64::MAX
    );
    handle_render_draw(
        &mut acc,
        &mut out,
        &DrawRecord::PrimitivesIndirect { counts: Some(counts) },
    );
    assert_eq!(acc.draws.last().unwrap().state.indexed, None);
    assert_eq!(
        handle_render_draw(&mut acc, &mut out, &DrawRecord::PrimitivesIndirect { counts: None })
            .outcome,
        DrawOutcome::CountsUnread
    );
}

#[test]
fn latches_separate_the_shapes_that_a_stream_asks_for() {
    let color = StreamDrawDrop::ColorSubresourceUnsupported {
        slot: 2,
        level: 3,
        slice: 4,
        depth_plane: 5,
        resolve_texture_ref: 9,
    };
    assert_eq!(
        color.latch(),
        DropLatch::ColorSubresource { slot: 2, level: 3, slice: 4, depth_plane: 5, resolves: true }
    );
    let stencil = StreamDrawDrop::DepthStencilUnsupported {
        aspect: PassAspect::Stencil,
        level: 1,
        slice: 2,
        depth_plane: 3,
        resolve_texture_ref: 0,
    };
    assert_eq!(
        stencil.latch(),
        DropLatch::DepthStencil {
            aspect: PassAspect::Stencil,
            level: 1,
            slice: 2,
            depth_plane: 3,
            resolves: false,
        }
    );
    assert_eq!(
        StreamDrawDrop::Unbound { dropped: 4 }.latch(),
        DropLatch::Unbound { dropped: 4 }
    );
    assert_eq!(
        StreamDrawDrop::PassRasterSampleCountUnsupported { count: 8 }.latch(),
        DropLatch::RasterSampleCount { count: 8 }
    );
    let bind = StreamRefusal::Bind(BindSlotPastTable {
        class: BindClass::Texture,
        stage: ShaderStage::Fragment,
        index: 130,
        slots: 1,
    });
    let offset = StreamRefusal::BufferOffset(BufferOffsetSlotPastTable {
        stage: ShaderStage::Fragment,
        index: 130,
    });
    assert_eq!(
        bind.latch(),
        RefusalLatch::Bind { stage: ShaderStage::Fragment, index: 130 }
    );
    assert_eq!(
        offset.latch(),
        RefusalLatch::BufferOffset { stage: ShaderStage::Fragment, index: 130 }
    );
    assert_eq!(StreamRefusal::Pass(stencil).latch(), RefusalLatch::Pass(stencil.latch()));
    assert_eq!(
        note_draw_refused(bind),
        ("render_draw_refused_unrepresentable", "render_texture_bind_slot_past_table", bind.latch())
    );
    assert_eq!(
        stencil.fields(),
        vec![
            ("aspect", FieldValue::Name("stencil")),
            ("level", FieldValue::Decimal(1)),
            ("slice", FieldValue::Decimal(2)),
            ("plane", FieldValue::Decimal(3)),
            ("resolve", FieldValue::Hex(0)),
        ]
    );
    assert_eq!(stencil.slug(), "stream_depth_stencil_unsupported");
    assert_eq!(color.route(), Some("render_color_subresource_unsupported"));
}

fn unsettled(acc: &mut StreamAccum, record: UnsettledRender) -> (Vec<&'static str>, bool) {
    let mut fences = FenceTable::default();
    let mut out = ExecResult::default();
    match handle_render_record(&mut fences, acc, &mut out, 1, &RenderRecord::Unsettled(record)) {
        RenderOutcome::Unsettled(report) => (report.routes, report.unimplemented),
        other => panic!("{other:?}"),
    }
}

#[test]
fn unsettled_records_are_counted_unless_they_ask_for_what_happens_anyway() {
    let mut acc = StreamAccum::default();
    let one = 1.0f32.to_bits();
    assert_eq!(
        unsettled(&mut acc, UnsettledRender::SetTessellationFactorScale { bits: one }),
        (vec![], false)
    );
    assert_eq!(
        unsettled(&mut acc, UnsettledRender::SetTessellationFactorScale { bits: one + 1 }),
        (vec!["render_tessellation_scale_dropped"], false)
    );
    assert_eq!(
        unsettled(
            &mut acc,
            UnsettledRender::SetVertexAmplificationCount { count: 2, offsets_views: true }
        ),
        (
            vec![
                "render_vertex_amplification_dropped",
                "render_vertex_amplification_view_mapping_dropped",
            ],
            false
        )
    );
    assert_eq!(
        unsettled(
            &mut acc,
            UnsettledRender::SetVertexAmplificationMode { mode: 0, value: 0, offsets_views: false }
        ),
        (vec![], false)
    );
    assert_eq!(
        unsettled(&mut acc, UnsettledRender::TileBind(TileTable::BufferOffset)),
        (vec!["render_tile_buffer_bind_dropped"], false)
    );
    assert_eq!(
        unsettled(&mut acc, UnsettledRender::TileDispatch { threads: (1, 1, 1) }),
        (vec!["render_tile_dispatch_dropped"], true)
    );
    assert_eq!(
        unsettled(&mut acc, UnsettledRender::TileDispatch { threads: (1, 0, 1) }),
        (vec![], false)
    );
    assert_eq!(
        unsettled(&mut acc, UnsettledRender::DrawPatches { indirect: true }),
        (vec!["render_draw_patches_indirect_dropped"], true)
    );
    assert_eq!(
        unsettled(&mut acc, UnsettledRender::TileDimensionsQuery { buffer_ref: 1, offset: 2 }),
        (vec!["render_tile_dimensions_unanswered"], false)
    );
    assert_eq!(
        unsettled(
            &mut acc,
            UnsettledRender::RenderPassProperty(PassProperty::DefaultRasterSampleCount(1))
        ),
        (vec![], false)
    );
    assert_eq!(acc.unrepresentable, None);
    assert_eq!(
        unsettled(
            &mut acc,
            UnsettledRender::SetStoreActionOptions { aspect: PassAspect::Color, slot: 1, options: 0 }
        ),
        (vec![], false)
    );
    assert_eq!(
        unsettled(
            &mut acc,
            UnsettledRender::RenderPassProperty(PassProperty::DefaultRasterSampleCount(4))
        ),
        (vec!["render_pass_raster_sample_count_dropped"], false)
    );
    assert_eq!(
        acc.unrepresentable,
        Some(StreamRefusal::Pass(StreamDrawDrop::PassRasterSampleCountUnsupported { count: 4 }))
    );
}

#[test]
fn executions_join_the_stream_only_when_they_name_a_buffer() {
    let mut acc = StreamAccum::default();
    let exec = RenderIcbExecute {
        icb_ref: 0,
        is_range: true,
        range_location: 0,
        range_length: 4,
        args_buffer_ref: 0,
        args_buffer_offset: 0,
    };
    assert_eq!(
        unsettled(&mut acc, UnsettledRender::ExecuteCommands(exec)),
        (vec!["render_icb_execute_unnamed"], false)
    );
    assert!(acc.execute_icb.is_empty());
    let named = RenderIcbExecute { icb_ref: 3, ..exec };
    unsettled(&mut acc, UnsettledRender::ExecuteCommands(named));
    unsettled(&mut acc, UnsettledRender::ExecuteCommands(named));
    assert_eq!(acc.execute_icb, vec![named, named]);
}

#[test]
fn fences_barriers_and_residency_leave_the_stream_alone() {
    let mut fences = FenceTable::default();
    let mut acc = StreamAccum::default();
    let mut out = ExecResult::default();
    let mut apply =
        |record: RenderRecord| handle_render_record(&mut fences, &mut acc, &mut out, 1, &record);
    assert_eq!(
        apply(RenderRecord::Fence { action: FenceAction::Wait, fence_ref: 4 }),
        RenderOutcome::Fence(FenceStatus::Pending)
    );
    assert_eq!(
        apply(RenderRecord::Fence { action: FenceAction::Update, fence_ref: 4 }),
        RenderOutcome::Fence(FenceStatus::Passed)
    );
    assert_eq!(apply(RenderRecord::Barrier), RenderOutcome::Barrier("render_noop_barrier"));
    let declared = ResidencyRecord {
        opcode: 0x55,
        count: 3,
        heaps: false,
        usage: Some(DeclaredUsage { bits: 2, undeclared_bits: 0, class: UsageClass::Writes }),
        stages: Some(DeclaredStages { bits: 5, unexecuted: true, undeclared: true }),
    };
    match apply(RenderRecord::Residency(declared)) {
        RenderOutcome::Residency(report) => {
            assert_eq!(
                report.routes,
                vec![
                    "render_residency_write",
                    "render_residency_unexecuted_stage",
                    "render_residency_stages_undeclared",
                ]
            );
            let decline = report.decline.unwrap();
            assert_eq!(
                (decline.slug, decline.key),
                ("render_residency_write_dropped", 2 << 32 | 5)
            );
            assert_eq!(
                decline.fields,
                vec![
                    ("op", FieldValue::Hex(0x55)),
                    ("count", FieldValue::Decimal(3)),
                    ("usage", FieldValue::Hex(2)),
                    ("stages", FieldValue::Hex(5)),
                    ("undeclared_usage", FieldValue::Hex(0)),
                ]
            );
        }
        other => panic!("{other:?}"),
    }
    assert_eq!(acc, StreamAccum::default());
    assert_eq!(out, ExecResult::default());
}

#[test]
fn a_declaration_without_stages_states_none() {
    let declared = ResidencyWriteDeclared {
        opcode: 1,
        count: 2,
        usage: DeclaredUsage { bits: 0x12, undeclared_bits: 0x10, class: UsageClass::Undeclared },
        stages: None,
    };
    assert_eq!(declared.slug(), "render_residency_usage_undeclared");
    assert_eq!(declared.fields()[3], ("stages", FieldValue::Name("none")));
    assert_eq!(declared.fields()[4], ("undeclared_usage", FieldValue::Hex(0x10)));
}

#[test]
fn a_resolve_target_tells_refused_passes_apart() {
    let color = |level: u32, slice: u32, resolve_texture_ref: u32| {
        StreamDrawDrop::ColorSubresourceUnsupported {
            slot: 0,
            level,
            slice,
            depth_plane: 0,
            resolve_texture_ref,
        }
    };
    let latch = |drop: StreamDrawDrop| StreamRefusal::Pass(drop).latch();
    assert_ne!(latch(color(0, 3, 0)), latch(color(0, 3, 9)));
    assert_eq!(latch(color(0, 3, 8)), latch(color(0, 3, 9)));
    assert_ne!(latch(color(0, 0x1_0000, 0)), latch(color(1, 0, 0)));
    let length = |length: u64| StreamDrawDrop::PassArrayLengthUnsupported { length };
    assert_ne!(latch(length(2)), latch(length(1 << 63 | 2)));
    let count = |count: u64| StreamDrawDrop::PassRasterSampleCountUnsupported { count };
    assert_ne!(latch(count(4)), latch(count(1 << 63 | 4)));
    assert_ne!(latch(length(4)), latch(count(4)));
}

#[test]
fn no_field_of_a_loss_runs_into_another() {
    let options = |aspect: PassAspect, slot: u32, options: u64| {
        StreamDrawDrop::StoreActionOptionsUnsupported { aspect, slot, options }.latch()
    };
    assert_ne!(options(PassAspect::Color, 64, 2), options(PassAspect::Color, 0, 3));
    assert_ne!(options(PassAspect::Color, 0, 1), options(PassAspect::Depth, 0, 1));
    assert_ne!(options(PassAspect::Color, 0, 1), options(PassAspect::Color, 0, 1 << 56 | 1));
    let depth = |level: u32, slice: u32, depth_plane: u32, resolve_texture_ref: u32| {
        StreamDrawDrop::DepthStencilUnsupported {
            aspect: PassAspect::Depth,
            level,
            slice,
            depth_plane,
            resolve_texture_ref,
        }
        .latch()
    };
    assert_ne!(depth(0, 0x1_0000, 0, 0), depth(1, 0, 0, 0));
    assert_ne!(depth(0, 0, 0x100, 0), depth(0, 1, 0, 0));
    assert_ne!(depth(1, 0, 0, 0), depth(1, 0, 0, 5));
    assert_eq!(depth(1, 0, 0, 4), depth(1, 0, 0, 5));
}

#[test]
fn slots_past_a_table_are_reported_beside_its_length() {
    let bind = BindSlotPastTable {
        class: BindClass::Texture,
        stage: ShaderStage::Fragment,
        index: 130,
        slots: 2,
    };
    assert_eq!(bind.slug(), "render_texture_bind_slot_past_table");
    assert_eq!(
        bind.fields(),
        vec![
            ("stage", FieldValue::Name("fragment")),
            ("index", FieldValue::Decimal(130)),
            ("slots", FieldValue::Decimal(2)),
            ("table", FieldValue::Decimal(128)),
            ("apple_table", FieldValue::Decimal(128)),
        ]
    );
    let offset = BufferOffsetSlotPastTable { stage: ShaderStage::Vertex, index: 40 };
    assert_eq!(offset.slug(), "render_buffer_offset_slot_past_table");
    assert_eq!(
        offset.fields(),
        vec![
            ("stage", FieldValue::Name("vertex")),
            ("index", FieldValue::Decimal(40)),
            ("table", FieldValue::Decimal(31)),
            ("apple_table", FieldValue::Decimal(31)),
        ]
    );
    assert_eq!(StreamRefusal::Bind(bind).fields(), bind.fields());
    assert_eq!(StreamRefusal::BufferOffset(offset).slug(), offset.slug());
}
