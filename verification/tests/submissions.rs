use reims_vgpu::blit_rail::{
    blit_door, handle_blit_record, note_unsettled_blit, transfer_route, BlitDoor, BlitRecord,
    IcbMutation, Measure, TextureFillSource, TransferKind, TransferStatus, UnsettledBlit,
};
use reims_vgpu::census::{
    handle_info_record, note_command_stream_count, note_pass_extent_coverage,
    note_stream_draw_drops, pass_extent_band, segment_chain_route, IcbInfo, InfoJudgement,
    InfoQuery, InfoRecordUnanswered, InfoRow, SegmentLifetime, SEGMENT_CHAIN_ROUTES,
};
use reims_vgpu::clears::{
    apply_clear, clear_publish_target, dirty_color_targets, plan_clear, write_clear, ClearDrop,
    ClearEffect, ClearEncoding, ClearPlan, ClearPublish, ClearTarget, ClearWrite, DirtyTarget,
    StoreAndResolveClearDecline,
};
use reims_vgpu::command::{ColorAttachment, ComputeKind};
use reims_vgpu::compute_rail::{
    compute_door, handle_compute_record, ComputeDoor, ComputeOutcome, ComputeRecord,
    ContentDirective, DecodeRefusal, SequencingOutcome,
};
use reims_vgpu::encoder_state::SegmentKind;
use reims_vgpu::exec_result::ExecResult;
use reims_vgpu::executor::{ResourceValidity, SubmissionResourceUse};
use reims_vgpu::fence_exec::{FenceAction, FenceStatus, FenceTable};
use reims_vgpu::preflight::{
    preflight_dispatches, preflight_submission, preflight_translations, ComputePreflight,
    DispatchSize, RenderPreflight,
};
use reims_vgpu::refusals::{FieldValue, StreamDrawDrop};
use reims_vgpu::render_rail::{OperationClass, OperationHome};
use reims_vgpu::residency::{DeclaredUsage, ResidencyRecord, UsageClass};
use reims_vgpu::sights::FirstSights;
use reims_vgpu::submission::{
    close_planned, consume_resource_table, elapsed_us, load_command_streams, note_exec_header,
    read_command_buffers, read_exec_submission, read_header, read_submission, CommandBuffer,
    ExecIndirectLayout, ExecRefusal, ExecResourceDesc, ExecSubmission, PacketReads,
    ResourceTableDecline, StreamSkip, ValidityOutcome,
};
use reims_vgpu::visibility::{
    add_samples, write_visibility_results, BufferSpan, VisibilityRefusal, VisibilityWrite,
};
use reims_vgpu::walk::{
    note_session_finished, stream_class, walk_segment_records, walk_stream, CursorStep,
    FramedRecord, RecordFraming, RecordRoute, ResolvedCursor, ResolvedRecord, StreamPosition,
    StreamSink, WalkStep, WalkedSegment,
};

const LAYOUT: ExecIndirectLayout = ExecIndirectLayout {
    header_len: 16,
    task_id: 0,
    resource_count: 4,
    cmdbuf_count: 8,
    resource_desc_len: 4,
    cmdbuf_desc_len: 16,
    cmdbuf_gva: 0,
    cmdbuf_length: 8,
};

fn packet(task: u32, resources: u32, buffers: &[(u64, u64)]) -> Vec<u8> {
    let mut bytes = Vec::new();
    bytes.extend_from_slice(&task.to_le_bytes());
    bytes.extend_from_slice(&resources.to_le_bytes());
    bytes.extend_from_slice(&(buffers.len() as u32).to_le_bytes());
    bytes.extend_from_slice(&[0; 4]);
    bytes.extend_from_slice(&vec![0; resources as usize * 4]);
    for (gva, length) in buffers {
        bytes.extend_from_slice(&gva.to_le_bytes());
        bytes.extend_from_slice(&length.to_le_bytes());
    }
    bytes
}

fn reads(streams: Vec<Option<Vec<u8>>>) -> PacketReads {
    PacketReads { resource_descs: None, addressable: 1 << 20, streams }
}

#[test]
fn a_packet_is_read_with_every_buffer_that_it_declares() {
    let buffers: Vec<(u64, u64)> = (0..17).map(|i| (0x1000 * i, 2)).collect();
    let payload = packet(5, 3, &buffers);
    let tasks = vec![(5, 50)];
    let header = read_header(&LAYOUT, &payload, &tasks).unwrap();
    assert_eq!((header.task_id, header.resource_count, header.cmdbuf_count), (50, 3, 17));
    assert_eq!(header.cmdbufs_at, 28);
    let read = read_command_buffers(&LAYOUT, &payload, &header, &tasks);
    assert_eq!(read.len(), 17);
    assert_eq!(read[16], CommandBuffer { gva: 0x10000, length: 2 });
    let streams = (0..17u8).map(|i| Some(vec![i, i])).collect();
    let (submission, out, report) =
        read_exec_submission(&LAYOUT, &payload, &tasks, reads(streams));
    let submission = submission.unwrap();
    assert_eq!(submission.task_id(), 50);
    assert_eq!(submission.streams().len(), 17);
    assert_eq!(submission.streams()[16], vec![16, 16]);
    assert_eq!(submission.retained_bytes(), 34);
    assert_eq!((out.task_id, out.streams_loaded), (50, 17));
    let report = report.unwrap();
    assert_eq!(report.skips, vec![]);
    assert_eq!((report.table_undecoded, report.stream_route), (true, "exec_cmdbufs_17_64"));
}

#[test]
fn a_parked_submission_keeps_who_owns_its_resources() {
    let validity = |clear_host: bool, set_guest: bool| ResourceValidity {
        clear_host,
        set_host: false,
        clear_guest: false,
        set_guest,
    };
    let desc = |object_id: u32, ops: ResourceValidity| ExecResourceDesc {
        object_id,
        ops,
        tail_nonzero_bytes: 0,
    };
    let descs = vec![desc(31, validity(true, false)), desc(32, validity(false, true))];
    let reads = PacketReads {
        resource_descs: Some(descs),
        addressable: 1 << 20,
        streams: vec![None, Some(vec![1, 2])],
    };
    let mut out = ExecResult::default();
    let payload = packet(5, 2, &[(0x1000, 4), (0x2000, 2)]);
    let (submission, report) =
        read_submission(&LAYOUT, &payload, &vec![(5, 50)], reads, &mut out).unwrap();
    assert_eq!(
        submission.resource_uses(),
        vec![
            SubmissionResourceUse { object: 31, validity: validity(true, false) },
            SubmissionResourceUse { object: 32, validity: validity(false, true) },
        ]
    );
    assert_eq!(submission.resource_descs()[1].ops, validity(false, true));
    assert_eq!(submission.streams(), &vec![vec![1, 2]]);
    assert_eq!(report.skips, vec![StreamSkip::Unread { index: 0 }]);
    assert_eq!((report.table_undecoded, report.stream_route), (false, "exec_cmdbufs_1"));
    assert_eq!(out.streams_loaded, 1);
}

#[test]
fn a_packet_is_refused_for_one_reason_each() {
    let tasks = vec![(5, 50)];
    let mut out = ExecResult::default();
    assert_eq!(
        read_submission(&LAYOUT, &vec![0; 15], &tasks, reads(vec![]), &mut out),
        Err(ExecRefusal::ShortHeader)
    );
    assert_eq!(out.task_id, 0);
    assert_eq!(
        read_submission(&LAYOUT, &packet(6, 0, &[(0, 1)]), &tasks, reads(vec![]), &mut out),
        Err(ExecRefusal::NoSuchTask { raw_task: 6 })
    );
    assert_eq!(out.task_id, 6);
    let mut short = packet(5, 0, &[(0, 1)]);
    short.pop();
    assert_eq!(
        read_submission(&LAYOUT, &short, &tasks, reads(vec![]), &mut out),
        Err(ExecRefusal::ShortPayload { task_id: 50, need: 32 })
    );
    assert_eq!(
        read_submission(&LAYOUT, &packet(5, 0, &[]), &tasks, reads(vec![]), &mut out),
        Err(ExecRefusal::ZeroCommandBuffers { task_id: 50 })
    );
    assert_eq!((out.task_id, out.streams_loaded), (50, 0));
    let (submission, _, report) = read_exec_submission(&LAYOUT, &short, &tasks, reads(vec![]));
    assert_eq!(submission, None);
    assert_eq!(report, Err(ExecRefusal::ShortPayload { task_id: 50, need: 32 }));
}

#[test]
fn a_buffer_that_cannot_be_read_is_skipped_and_the_rest_are_not() {
    let buffers = vec![
        CommandBuffer { gva: 0, length: 0 },
        CommandBuffer { gva: 0, length: 100 },
        CommandBuffer { gva: 0, length: 3 },
        CommandBuffer { gva: 0, length: 4 },
    ];
    let (streams, skips) = load_command_streams(
        &buffers,
        50,
        vec![Some(vec![9]), Some(vec![9]), None, Some(vec![1, 2, 3, 4])],
    );
    assert_eq!(streams, vec![vec![1, 2, 3, 4]]);
    assert_eq!(
        skips,
        vec![
            StreamSkip::Empty { index: 0 },
            StreamSkip::Unaddressable { index: 1 },
            StreamSkip::Unread { index: 2 },
        ]
    );
}

#[test]
fn a_submission_can_be_stated_outright() {
    let submission = ExecSubmission::stated(7, vec![vec![1, 2], vec![3]]);
    assert_eq!(submission.task_id(), 7);
    assert_eq!(submission.retained_bytes(), 3);
    assert!(submission.resource_descs().is_empty());
}

#[test]
fn the_resource_table_tells_known_objects_from_unknown_ones() {
    let ops = ResourceValidity {
        clear_host: false,
        set_host: true,
        clear_guest: false,
        set_guest: false,
    };
    let desc = |object_id: u32, tail_nonzero_bytes: u32| ExecResourceDesc {
        object_id,
        ops,
        tail_nonzero_bytes,
    };
    let outcome = |missed: bool, known: bool| ValidityOutcome { missed, known };
    let report = consume_resource_table(
        &vec![desc(1, 0), desc(2, 0), desc(3, 2), desc(4, 1)],
        &vec![outcome(false, true), outcome(true, true), outcome(true, false), outcome(true, false)],
    );
    assert_eq!((report.no_surface, report.unknown), (1, 2));
    assert_eq!(report.tail_populated, Some(desc(3, 2)));
    assert_eq!(ResourceTableDecline::TailPopulated.slug(), "exec_res_tail_populated");
}

#[test]
fn the_header_takes_what_no_part_measured() {
    assert_eq!(note_exec_header(100, 30), 70);
    assert_eq!(note_exec_header(30, 100), 0);
    assert_eq!(elapsed_us(5), 5);
    assert_eq!(elapsed_us(u128::from(u64::MAX) + 1), u64::MAX);
    let mut out = ExecResult::default();
    close_planned(&mut out, 12);
    assert_eq!(out.total_us, 12);
    out.deferred = true;
    close_planned(&mut out, 99);
    assert_eq!(out.total_us, 12);
}

#[test]
fn counts_are_named_by_their_band() {
    for (loaded, route) in [
        (0, "exec_cmdbufs_0"),
        (1, "exec_cmdbufs_1"),
        (4, "exec_cmdbufs_2_4"),
        (16, "exec_cmdbufs_5_16"),
        (17, "exec_cmdbufs_17_64"),
        (65, "exec_cmdbufs_over_64"),
    ] {
        assert_eq!(note_command_stream_count(loaded), route);
    }
    let lifetime = |continues_previous: bool, continues_into_next: bool| SegmentLifetime {
        continues_previous,
        continues_into_next,
    };
    assert_eq!(segment_chain_route(lifetime(false, false)), "seg_chain_none");
    assert_eq!(segment_chain_route(lifetime(false, true)), "seg_chain_next");
    assert_eq!(segment_chain_route(lifetime(true, false)), "seg_chain_prev");
    assert_eq!(segment_chain_route(lifetime(true, true)), "seg_chain_both");
    for (pct, band) in [(0, 0), (5, 1), (6, 2), (25, 3), (50, 4), (99, 5), (100, 6), (400, 6)] {
        assert_eq!(pass_extent_band(pct), band);
    }
    assert_eq!(note_pass_extent_coverage(0, 10, 10, 10), None);
    assert_eq!(note_pass_extent_coverage(10, 10, 10, 10), Some("pass_extent_full"));
    assert_eq!(note_pass_extent_coverage(50, 10, 10, 10), Some("pass_extent_full"));
    assert_eq!(note_pass_extent_coverage(1, 10, 100, 100), Some("pass_extent_lt1"));
    assert_eq!(note_pass_extent_coverage(u64::MAX, 2, 8, 8), Some("pass_extent_full"));
}

#[test]
fn each_target_of_a_pass_is_named_once() {
    let mut sights = FirstSights::new();
    assert!(sights.note_pass_target(0, 0x1_0000, Some((64, 64))));
    assert!(!sights.note_pass_target(0, 0x1_0000, Some((64, 64))));
    assert!(sights.note_pass_target(1, 0, Some((64, 64))));
    assert!(sights.note_pass_target(1, 2, Some((0x1_0003, 4))));
    assert!(sights.note_pass_target(1, 2, Some((3, 4))));
    assert!(sights.note_pass_target(1, 2, Some((0, 0))));
    assert!(sights.note_pass_target(1, 2, None));
    assert!(!sights.note_pass_target(1, 2, None));
    assert!(!sights.note_pass_target(1, 0, Some((64, 64))));
}

#[test]
fn an_indexed_draw_without_indices_is_reported_once_for_its_opcode() {
    let mut sights = FirstSights::new();
    assert!(sights.note_indexed_draw_without_buffer(0x30));
    assert!(!sights.note_indexed_draw_without_buffer(0x30));
    assert!(sights.note_indexed_draw_without_buffer(0x31));
    assert!(sights.note_unimplemented_render_opcode(0x30));
    sights.reset_unimplemented_opcodes();
    assert!(!sights.note_indexed_draw_without_buffer(0x31));
}

#[test]
fn the_places_of_a_segment_have_four_names() {
    let mut names = Vec::new();
    for continues_previous in [false, true] {
        for continues_into_next in [false, true] {
            names.push(segment_chain_route(SegmentLifetime {
                continues_previous,
                continues_into_next,
            }));
        }
    }
    assert_eq!(names, SEGMENT_CHAIN_ROUTES);
}

#[test]
fn a_stream_that_recorded_and_lost_nothing_is_not_reported() {
    assert_eq!(note_stream_draw_drops(0, 0, 0), None);
    let report = note_stream_draw_drops(64, 5, 2).unwrap();
    assert_eq!(report.kept_route, "stream_draws_64_255");
    assert_eq!(report.unbound, Some((StreamDrawDrop::Unbound { dropped: 5 }, 8)));
    assert_eq!(note_stream_draw_drops(63, 0, 1).unwrap().kept_route, "stream_draws_33_63");
    assert_eq!(note_stream_draw_drops(0, 0, 1).unwrap().unbound, None);
    assert_eq!(note_stream_draw_drops(0, 4, 0).unwrap().unbound.unwrap().1, 4);
    assert_eq!(note_stream_draw_drops(0, 1, 0).unwrap().unbound.unwrap().1, 1);
}

#[test]
fn every_question_goes_unanswered_under_its_own_name() {
    let row = InfoRow { closure: "unresolved", selector: "hostResource" };
    let question = |opcode: u32, len: u64, judged: InfoJudgement| InfoRecordUnanswered {
        opcode,
        len,
        judged,
    };
    let report = handle_info_record(
        InfoQuery::IcbHostResource,
        question(0x1d1, 24, InfoJudgement::Open(row)),
        IcbInfo::Unbound { icb_ref: 6 },
    );
    assert_eq!(report.route, "info_unanswered_icb_host_resource");
    assert_eq!(report.slug, "info_query_unanswered");
    assert_eq!((report.key, report.icb_key), (0x1d1, Some(6)));
    assert_eq!(
        report.fields,
        vec![
            ("op", FieldValue::Hex(0x1d1)),
            ("len", FieldValue::Decimal(24)),
            ("closure", FieldValue::Name("unresolved")),
            ("selector", FieldValue::Name("hostResource")),
        ]
    );
    let other = handle_info_record(
        InfoQuery::Undeclared,
        question(9, 12, InfoJudgement::Unjudged),
        IcbInfo::Undecoded { len: 12 },
    );
    assert_eq!(other.route, "info_unanswered_undeclared_opcode");
    assert_eq!(other.slug, "info_opcode_unjudged");
    assert_eq!(other.icb_key, None);
    assert_eq!(
        other.fields,
        vec![("op", FieldValue::Hex(9)), ("len", FieldValue::Decimal(12))]
    );
    assert_eq!(
        handle_info_record(
            InfoQuery::RateMap,
            question(1, 8, InfoJudgement::Closed(row)),
            IcbInfo::Bound,
        )
        .slug,
        "info_query_ledger_disagrees"
    );
}

#[test]
fn a_clear_that_publishes_twice_names_both_textures() {
    let decline = StoreAndResolveClearDecline { source: 5, resolve: 6 };
    assert_eq!(plan_clear(&cleared(3, 5, 6)), ClearPlan::StoreAndResolve(decline));
    assert_eq!(decline.slug(), "clear_store_and_multisample_resolve_unsupported");
    assert_eq!(
        decline.fields(),
        vec![("source", FieldValue::Decimal(5)), ("resolve", FieldValue::Decimal(6))]
    );
}

#[test]
fn unsettled_transfers_are_reported_beside_what_they_are() {
    assert_eq!(
        note_unsettled_blit(UnsettledBlit::IcbMutation(IcbMutation::Copy), 0x137),
        vec![("opcode", FieldValue::Hex(0x137))]
    );
    assert_eq!(
        note_unsettled_blit(UnsettledBlit::TextureFill(TextureFillSource::Bytes), 0x12),
        vec![("source", FieldValue::Name("Bytes"))]
    );
}

fn cleared(store_action: u16, texture_ref: u32, resolve_texture_ref: u32) -> ColorAttachment {
    ColorAttachment {
        texture_ref,
        level: 3,
        slice: 0,
        depth_plane: 0,
        resolve_texture_ref,
        resolve_level: 0,
        resolve_slice: 0,
        resolve_depth_plane: 0,
        load_action: 2,
        store_action,
        store_action_options: 0,
        clear_color: [1, 2, 3, 4],
    }
}

#[test]
fn a_clear_publishes_where_its_store_action_says() {
    assert_eq!(clear_publish_target(&cleared(1, 5, 0)), ClearPublish::Direct);
    assert_eq!(clear_publish_target(&cleared(2, 5, 6)), ClearPublish::Resolved(6));
    assert_eq!(
        clear_publish_target(&cleared(3, 5, 6)),
        ClearPublish::StoredAndResolved { source: 5, resolve: 6 }
    );
    assert_eq!(clear_publish_target(&cleared(2, 5, 0)), ClearPublish::ResolveTargetMissing);
    assert_eq!(clear_publish_target(&cleared(0, 5, 6)), ClearPublish::NotPublished);
    assert_eq!(clear_publish_target(&cleared(1, 0, 6)), ClearPublish::NotPublished);
    match plan_clear(&cleared(2, 5, 6)) {
        ClearPlan::Resolve(target) => assert_eq!(
            (target.texture_ref, target.resolve_texture_ref, target.level, target.store_action),
            (6, 0, 0, 1)
        ),
        other => panic!("{other:?}"),
    }
    assert_eq!(plan_clear(&cleared(1, 5, 0)), ClearPlan::Resolve(cleared(1, 5, 0)));
    assert_eq!(
        plan_clear(&cleared(3, 5, 0)),
        ClearPlan::ResolveTargetMissing { source: 5, store_action: 3 }
    );
}

#[test]
fn a_clear_is_written_once_its_target_allows_it() {
    let target = |sample_count: u32, target_gva: u64, mapping_id: u32| {
        Some(ClearTarget { sample_count, target_gva, mapping_id })
    };
    let rgba = Some(ClearEncoding::Rgba8);
    assert_eq!(write_clear(None, rgba), ClearWrite::Dropped(ClearDrop::TargetUnresolved));
    assert_eq!(
        write_clear(target(4, 8, 9), rgba),
        ClearWrite::Dropped(ClearDrop::MultisampleSource)
    );
    assert_eq!(
        write_clear(target(1, 8, 9), None),
        ClearWrite::Dropped(ClearDrop::Unrepresentable)
    );
    assert_eq!(
        write_clear(target(1, 8, 9), rgba),
        ClearWrite::Memory { gva: 8, encoding: ClearEncoding::Rgba8 }
    );
    assert_eq!(
        write_clear(target(1, 0, 9), Some(ClearEncoding::Native)),
        ClearWrite::Mapping { mapping_id: 9, encoding: ClearEncoding::Native }
    );
    assert_eq!(write_clear(target(1, 0, 0), rgba), ClearWrite::Nowhere);
    let att = cleared(1, 5, 0);
    assert_eq!(
        apply_clear(&att, target(1, 8, 0), rgba, true),
        ClearEffect::ForgetCopies { gva: 8, texture_ref: 5 }
    );
    assert_eq!(apply_clear(&att, target(1, 0, 9), rgba, true), ClearEffect::SurfaceCleared(9));
    assert_eq!(apply_clear(&att, target(1, 8, 0), rgba, false), ClearEffect::Failed);
    assert_eq!(apply_clear(&cleared(0, 5, 0), target(1, 8, 0), rgba, true), ClearEffect::Failed);
}

#[test]
fn losses_are_reported_once_each() {
    let mut sights = FirstSights::new();
    assert!(sights.note_clear_dropped(ClearDrop::TargetUnresolved, 5));
    assert!(!sights.note_clear_dropped(ClearDrop::TargetUnresolved, 5));
    assert!(sights.note_clear_dropped(ClearDrop::MultisampleSource, 5));
    assert!(sights.note_clear_dropped(ClearDrop::TargetUnresolved, 6));
    assert!(sights.note_unimplemented_render_opcode(300));
    assert!(!sights.note_unimplemented_render_opcode(300));
    sights.reset_unimplemented_opcodes();
    assert!(sights.note_unimplemented_render_opcode(300));
    assert!(!sights.note_clear_dropped(ClearDrop::MultisampleSource, 5));
    assert_eq!(ClearDrop::MultisampleSource.reason(), "clear_multisample_source_not_linear");
}

#[test]
fn targets_are_marked_by_the_mapping_they_name() {
    let target = |texture_ref: u32, mapper: Option<u32>, backing: bool| DirtyTarget {
        texture_ref,
        mapper,
        backing,
    };
    assert_eq!(
        dirty_color_targets(&vec![
            target(1, Some(10), true),
            target(2, None, true),
            target(3, None, false),
            target(1, Some(10), true),
        ]),
        vec![10, 2, 10]
    );
}

#[test]
fn occlusion_counts_add_up_and_are_written_inside_their_buffer() {
    let mut counts = Vec::new();
    add_samples(&mut counts, 16, 5);
    add_samples(&mut counts, 0, 1);
    add_samples(&mut counts, 16, 7);
    add_samples(&mut counts, 8, u64::MAX);
    add_samples(&mut counts, 8, 1);
    add_samples(&mut counts, u64::MAX, 2);
    assert_eq!(counts, vec![(0, 1), (8, u64::MAX), (16, 12), (u64::MAX, 2)]);
    let span = BufferSpan::Resolved { base: 1000, size: 16 };
    assert_eq!(
        write_visibility_results(&counts, 3, span),
        Ok(vec![
            VisibilityWrite::Write { address: 1000, samples: 1 },
            VisibilityWrite::Write { address: 1008, samples: u64::MAX },
            VisibilityWrite::PastBuffer { offset: 16, samples: 12 },
            // An offset that no address reaches is reported too.
            VisibilityWrite::PastBuffer { offset: u64::MAX, samples: 2 },
        ])
    );
    assert_eq!(write_visibility_results(&counts, 0, span), Err(VisibilityRefusal::NoBuffer));
    assert_eq!(
        write_visibility_results(&counts, 3, BufferSpan::Refused(4)),
        Err(VisibilityRefusal::Unresolved(4))
    );
    assert_eq!(write_visibility_results(&Vec::new(), 0, span), Ok(Vec::new()));
}

#[test]
fn a_cursor_keeps_its_place_past_a_record_that_is_missing() {
    let record = |segment: u32, record: u32, class: OperationClass| ResolvedRecord {
        at: StreamPosition { segment, record },
        class,
    };
    let mut cursor = ResolvedCursor::new(vec![
        record(0, 0, OperationClass::Render),
        record(0, 2, OperationClass::Render),
        record(1, 0, OperationClass::Blit),
    ]);
    assert_eq!(cursor.step(Some(OperationClass::Render)), CursorStep::Aligned(0));
    assert_eq!(cursor.step(Some(OperationClass::Render)), CursorStep::NoRecord);
    assert_eq!(cursor.step(None), CursorStep::Unjudged);
    cursor.end_segment();
    let step = cursor.step(Some(OperationClass::Compute));
    assert_eq!(step, CursorStep::ClassDiffers);
    assert_eq!(step.route(), "resolved_walk_class_differs");
}

#[test]
fn a_walk_opens_and_closes_each_segment_and_stops_at_what_does_not_frame() {
    let lifetime = SegmentLifetime { continues_previous: false, continues_into_next: false };
    let steps = walk_stream(&vec![
        WalkedSegment::Envelope,
        WalkedSegment::Encoder { kind: SegmentKind::Compute, lifetime },
        WalkedSegment::Encoder { kind: SegmentKind::Render, lifetime },
        WalkedSegment::Refused,
        WalkedSegment::Encoder { kind: SegmentKind::Blit, lifetime },
    ]);
    assert_eq!(
        steps,
        vec![
            WalkStep::Open { segment: 1, kind: SegmentKind::Compute, route: "seg_chain_none" },
            WalkStep::Close { segment: 1, run: true },
            WalkStep::Open { segment: 2, kind: SegmentKind::Render, route: "seg_chain_none" },
            WalkStep::Close { segment: 2, run: false },
            WalkStep::Stop { segment: 3 },
        ]
    );
    let mut sink = StreamSink { compute_open: false };
    assert_eq!(sink.record(SegmentKind::Compute), RecordRoute::ComputeUnopened);
    assert!(!sink.begin_segment(SegmentKind::Compute));
    assert_eq!(sink.record(SegmentKind::Compute), RecordRoute::Compute);
    assert!(sink.begin_segment(SegmentKind::Event));
    assert!(!sink.end_segment());
    let mut out = ExecResult::default();
    note_session_finished(&mut out, None);
    note_session_finished(&mut out, Some(true));
    assert_eq!(out.compute_control_fail, 0);
    note_session_finished(&mut out, Some(false));
    assert_eq!(out.compute_control_fail, 1);
}

#[test]
fn records_frame_up_to_the_first_that_does_not() {
    let record = |opcode: u32, length: u32, body: usize| {
        let mut bytes = opcode.to_le_bytes().to_vec();
        bytes.extend_from_slice(&length.to_le_bytes());
        bytes.extend_from_slice(&vec![0; body]);
        bytes
    };
    let mut bytes = record(3, 12, 4);
    bytes.extend(record(4, 8, 0));
    let framed = vec![
        FramedRecord { opcode: 3, offset: 0, length: 12 },
        FramedRecord { opcode: 4, offset: 12, length: 8 },
    ];
    assert_eq!(walk_segment_records(&bytes), (framed.clone(), None));
    let mut short = bytes.clone();
    short.extend_from_slice(&[1, 2, 3]);
    assert_eq!(
        walk_segment_records(&short),
        (framed.clone(), Some(RecordFraming::ShortHeader { need: 8, have: 3 }))
    );
    let mut small = bytes.clone();
    small.extend(record(5, 7, 0));
    let bad = RecordFraming::BadLength { opcode: 5, length: 7, remaining: 8 };
    assert_eq!(walk_segment_records(&small), (framed.clone(), Some(bad)));
    assert_eq!(bad.refusal(), "stream_rec_bad_length");
    assert_eq!(
        bad.fields(),
        vec![
            ("opcode", FieldValue::Hex(5)),
            ("length", FieldValue::Decimal(7)),
            ("remaining", FieldValue::Decimal(8)),
        ]
    );
    let mut long = bytes;
    long.extend(record(5, 9, 0));
    assert!(matches!(
        walk_segment_records(&long).1,
        Some(RecordFraming::BadLength { length: 9, remaining: 8, .. })
    ));
}

#[test]
fn compute_records_reach_the_owner_of_their_class() {
    let stream = |class: OperationClass| Some(OperationHome::Stream(class));
    assert_eq!(compute_door(stream(OperationClass::Barrier), false), ComputeDoor::Barrier);
    assert_eq!(
        compute_door(stream(OperationClass::ResourceState), false),
        ComputeDoor::ContentDirective
    );
    assert_eq!(compute_door(stream(OperationClass::Compute), true), ComputeDoor::Encoder);
    assert_eq!(compute_door(None, true), ComputeDoor::Residency);
    assert_eq!(compute_door(None, false), ComputeDoor::Unsettled);
    assert_eq!(compute_door(Some(OperationHome::ObjectLifecycle), true), ComputeDoor::Unsettled);

    let mut fences = FenceTable::default();
    let mut out = ExecResult::default();
    let mut apply =
        |record: ComputeRecord| handle_compute_record(&mut fences, &mut out, 1, &record);
    assert_eq!(apply(ComputeRecord::Barrier), ComputeOutcome::Barrier("compute_noop_barrier"));
    assert_eq!(
        apply(ComputeRecord::ContentDirective(ContentDirective::FlushCompressedReinterpretation)),
        ComputeOutcome::ContentDirective("compute_noop_flush_compressed_reinterpretation")
    );
    let unsettled =
        |kind: ComputeKind, ran: bool| ComputeRecord::Unsettled { kind, fence_ref: 3, ran };
    assert_eq!(
        apply(unsettled(ComputeKind::WaitFence, true)),
        ComputeOutcome::Unsettled(SequencingOutcome::Fence(FenceStatus::Pending))
    );
    assert_eq!(
        apply(unsettled(ComputeKind::UpdateFence, true)),
        ComputeOutcome::Unsettled(SequencingOutcome::Fence(FenceStatus::Passed))
    );
    assert_eq!(
        apply(unsettled(ComputeKind::ControlStartIf, false)),
        ComputeOutcome::Unsettled(SequencingOutcome::Sequenced {
            route: "compute_ctrl_seen",
            failed: true,
        })
    );
    assert_eq!(
        apply(unsettled(ComputeKind::ExecuteCommandsInBuffer, false)),
        ComputeOutcome::Unsettled(SequencingOutcome::Sequenced {
            route: "compute_icb_seen",
            failed: true,
        })
    );
    assert_eq!(
        apply(unsettled(ComputeKind::Pipeline, true)),
        ComputeOutcome::Unsettled(SequencingOutcome::Misrouted)
    );
    assert_eq!(
        apply(ComputeRecord::Encoder {
            opcode: 7,
            refusal: Some(DecodeRefusal::UndefinedOrdinal { dispatch_type: true, value: 2 }),
        }),
        ComputeOutcome::Encoder(Some((Some("compute_dispatch_type_unknown"), 2 << 32 | 7)))
    );
    assert_eq!(
        apply(ComputeRecord::Encoder { opcode: 7, refusal: Some(DecodeRefusal::Other) }),
        ComputeOutcome::Encoder(Some((None, 7)))
    );
    let residency = |heaps: bool, usage: Option<DeclaredUsage>| {
        ComputeRecord::Residency(ResidencyRecord {
            opcode: 0x41,
            count: 2,
            heaps,
            usage,
            stages: None,
        })
    };
    let undeclared =
        DeclaredUsage { bits: 9, undeclared_bits: 8, class: UsageClass::Undeclared };
    assert_eq!(apply(residency(false, None)), ComputeOutcome::Residency(None));
    match apply(residency(false, Some(undeclared))) {
        ComputeOutcome::Residency(Some(report)) => {
            assert_eq!(report.routes, vec!["compute_residency_undeclared"]);
            let decline = report.decline.unwrap();
            assert_eq!((decline.slug, decline.key), ("compute_residency_usage_undeclared", 9));
            assert_eq!(
                decline.fields,
                vec![
                    ("op", FieldValue::Hex(0x41)),
                    ("count", FieldValue::Decimal(2)),
                    ("usage", FieldValue::Hex(9)),
                    ("undeclared_usage", FieldValue::Hex(8)),
                ]
            );
        }
        other => panic!("{other:?}"),
    }
    assert_eq!((out.compute_control_fail, out.compute_icb_fail), (1, 1));
}

#[test]
fn blit_records_reach_the_owner_of_their_class() {
    let stream = |class: OperationClass| Some(OperationHome::Stream(class));
    assert_eq!(blit_door(stream(OperationClass::Blit)), BlitDoor::Transfer);
    assert_eq!(blit_door(stream(OperationClass::Render)), BlitDoor::WrongClass);
    assert_eq!(blit_door(Some(OperationHome::ObjectLifecycle)), BlitDoor::Unsettled);
    let mut fences = FenceTable::default();
    let mut apply = |record: BlitRecord| {
        let outcome = handle_blit_record(&mut fences, 1, &record);
        (outcome.route, outcome.lost, outcome.measured)
    };
    assert_eq!(
        apply(BlitRecord::ContentDirective(ContentDirective::Synchronize)),
        (Some("blit_noop_synchronize"), false, Some(("blitrec_noop_us", "blitrec_noop_n")))
    );
    assert_eq!(
        apply(BlitRecord::IndirectCommand(IcbMutation::Optimize)),
        (Some("blit_noop_icb_optimize"), false, Some(("blitrec_other_us", "blitrec_other_n")))
    );
    assert_eq!(
        apply(BlitRecord::Unsettled(UnsettledBlit::IcbMutation(IcbMutation::Reset))),
        (Some("blit_icb_reset_dropped"), true, Some(("blitrec_other_us", "blitrec_other_n")))
    );
    assert_eq!(
        apply(BlitRecord::Unsettled(UnsettledBlit::TextureFill(TextureFillSource::Bytes))).0,
        Some("blit_fill_texture_bytes_dropped")
    );
    assert_eq!(
        apply(BlitRecord::Transfer { kind: TransferKind::Copy, status: TransferStatus::ZeroExtent }),
        (None, false, Some(("blitrec_copy_us", "blitrec_copy_n")))
    );
    assert!(apply(BlitRecord::Transfer {
        kind: TransferKind::FillBuffer,
        status: TransferStatus::Failed,
    })
    .1);
    assert_eq!(
        apply(BlitRecord::Fence { fence_ref: 4, action: FenceAction::Update }),
        (None, false, Some(("blitrec_fence_us", "blitrec_fence_n")))
    );
    assert!(apply(BlitRecord::WrongClass).1);
    assert_eq!(transfer_route(TransferKind::GenerateMipmaps, Measure::Count), "blitrec_noop_n");
    assert_eq!(transfer_route(TransferKind::FillBufferPattern4, Measure::Micros), "blitrec_fill_us");
}

#[test]
fn a_pipeline_is_pending_while_a_stage_of_it_is() {
    let started = |vertex: bool, fragment: bool| RenderPreflight::Started { vertex, fragment };
    let pending = preflight_translations(
        &vec![
            (1, RenderPreflight::Ready),
            (2, started(true, false)),
            (3, RenderPreflight::Unloadable),
            (2, started(false, false)),
            (4, started(true, true)),
            (5, RenderPreflight::Unextractable),
        ],
        &vec![
            (2, ComputePreflight::Started { kernel: false }),
            (6, ComputePreflight::Started { kernel: false }),
            (7, ComputePreflight::Unloadable),
            (8, ComputePreflight::Started { kernel: true }),
        ],
    );
    assert_eq!(pending, vec![2, 6]);
    assert!(preflight_submission(&vec![(2, started(true, false))], &vec![]));
    assert!(preflight_submission(
        &vec![],
        &vec![(6, ComputePreflight::Started { kernel: false })]
    ));
    assert!(!preflight_submission(
        &vec![(3, RenderPreflight::Unloadable), (4, started(true, true))],
        &vec![(7, ComputePreflight::Unloadable)]
    ));
    let size = |width: u64, height: u64, depth: u64| DispatchSize { width, height, depth };
    assert_eq!(
        preflight_dispatches(&vec![
            (1, size(8, 4, 2)),
            (2, size(8, 0, 2)),
            (3, size(1 << 32, 1, 1)),
            (4, size(1, 1, 1)),
        ]),
        vec![(1, (8, 4, 2)), (4, (1, 1, 1))]
    );
}

#[test]
fn a_record_is_judged_by_the_class_of_its_opcode() {
    assert_eq!(
        stream_class(Some(OperationHome::Stream(OperationClass::Blit))),
        Some(OperationClass::Blit)
    );
    assert_eq!(stream_class(Some(OperationHome::ObjectLifecycle)), None);
    assert_eq!(stream_class(None), None);
}
