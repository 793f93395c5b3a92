use reims_vgpu::command::ColorAttachment;
use reims_vgpu::draw_request::{
    color_slots_loading, multi_draw_chain_source, multi_draw_store_plan, read_icb_exec_range,
    render_pass_attachment_template, render_pass_chain_position, retarget_render_pass_draw,
    ColorRtRequest, DrawEncodeRequest, MultiDrawChainSource,
};
use reims_vgpu::exec_result::ExecResult;
use reims_vgpu::finish::{
    stream_draw_delta, ChainAbandonCause, ChainAbandonDecline, ClearFallback, EncodeStatus, FinishAction, FinishAt,
    FinishEvent, StreamFinish,
};
use reims_vgpu::refusals::{FieldValue, StreamDrawDrop, StreamRefusal};
use reims_vgpu::stream_accum::{
    BindState, DrawArgs, PendingDraw, RenderIcbExecute, StreamAccum, VisibilityArming,
};

fn color(texture_ref: u32, load_action: u16, store_action: u16) -> ColorAttachment {
    ColorAttachment {
        texture_ref,
        level: 0,
        slice: 0,
        depth_plane: 0,
        resolve_texture_ref: 0,
        resolve_level: 0,
        resolve_slice: 0,
        resolve_depth_plane: 0,
        load_action,
        store_action,
        store_action_options: 0,
        clear_color: [7; 4],
    }
}

fn args(vertex_count: u32) -> DrawArgs {
    DrawArgs { vertex_count, instance_count: 1, primitive_type: 3, first_vertex: 0, base_instance: 0 }
}

fn draw(pipeline_ref: u32, vertex_count: u32) -> PendingDraw {
    PendingDraw { pipeline_ref, draw: args(vertex_count), state: BindState::default() }
}

fn drawing(draws: Vec<PendingDraw>) -> StreamAccum {
    StreamAccum {
        saw_draw: true,
        color_slots: vec![(0, color(10, 2, 1))],
        color_targets: vec![10],
        clears: vec![color(10, 2, 1), color(11, 2, 0)],
        draws,
        ..StreamAccum::default()
    }
}

fn request(mapping_id: u32) -> DrawEncodeRequest {
    DrawEncodeRequest {
        task_id: 4,
        pipeline_ref: 1,
        draw: args(3),
        colors: vec![ColorRtRequest {
            slot: 0,
            texture_ref: 10,
            mapping_id,
            target_gva: 0x1000,
            row_stride: 64,
            width: 16,
            height: 16,
            format: 80,
            sample_count: 1,
            load_action: 2,
            store_action: 1,
            clear_color: [7; 4],
            target_seed_rgba: Some(vec![9]),
            multisample_source_ref: 0,
        }],
        state: BindState::default(),
        continues_render_pass: false,
        render_pass_continues: false,
        chain_from_resident: false,
        visibility_samples: None,
    }
}

fn drawn(status: EncodeStatus, image: Option<Vec<u8>>, resident: bool) -> FinishEvent {
    FinishEvent::Drawn {
        status,
        image,
        resident_established: resident,
        visibility_samples: None,
    }
}

/// What an action asks for, in short.
fn brief(action: &FinishAction) -> String {
    match action {
        FinishAction::ApplyClear(att) => format!("clear {}", att.texture_ref),
        FinishAction::RequestIcb { pipeline_ref, slots, clears, .. } => format!(
            "request icb {pipeline_ref} load {} clears {}",
            slots[0].1.load_action,
            clears.len()
        ),
        FinishAction::ReadRange { buffer_ref, offset } => format!("range {buffer_ref} {offset}"),
        FinishAction::EncodeIcb { icb_ref, location, length, .. } => {
            format!("icb {icb_ref} {location} {length}")
        }
        FinishAction::MarkTargets => "mark".to_string(),
        FinishAction::ResolveAttachments { pipeline_ref, .. } => format!("resolve {pipeline_ref}"),
        FinishAction::EncodeDraw { request, source, writeback, force_full_store } => format!(
            "draw {} {source:?} {writeback} {force_full_store}",
            request.pipeline_ref
        ),
        FinishAction::LandChain { cause, readback, image, abandoned } => format!(
            "land {cause:?} {readback} {} at {}/{} pipe {}",
            image.is_some(),
            abandoned.index,
            abandoned.total,
            abandoned.pipeline_ref
        ),
        FinishAction::WriteVisibility(counts) => format!("counts {counts:?}"),
        FinishAction::Finish { fallback } => format!("finish {fallback:?}"),
    }
}

fn run(acc: &StreamAccum, out: &mut ExecResult, events: Vec<FinishEvent>) -> Vec<String> {
    let (mut finish, action) = StreamFinish::begin(acc, out);
    let mut actions = vec![brief(&action)];
    for event in events {
        let action = finish.advance(acc, out, event);
        actions.push(brief(&action));
    }
    assert_eq!(finish.waits_for(), FinishAt::Done);
    actions
}

#[test]
fn a_stream_without_draws_publishes_its_clears() {
    let mut acc = drawing(Vec::new());
    acc.saw_draw = false;
    let mut out = ExecResult::default();
    assert_eq!(
        run(&acc, &mut out, vec![FinishEvent::ClearApplied(true)]),
        // What a store action drops is not published.
        vec!["clear 10", "finish None"]
    );
    assert_eq!(out.clears_applied, 1);
}

#[test]
fn a_chain_of_draws_stores_once_at_its_end() {
    let acc = drawing(vec![draw(1, 3), draw(0, 3), draw(2, 3), draw(3, 3)]);
    let mut out = ExecResult::default();
    let actions = run(
        &acc,
        &mut out,
        vec![
            FinishEvent::Attached(Some(request(0))),
            drawn(EncodeStatus::Encoded, Some(vec![1]), false),
            drawn(EncodeStatus::Encoded, None, true),
            drawn(EncodeStatus::Encoded, None, false),
        ],
    );
    assert_eq!(
        actions,
        vec![
            "resolve 1",
            "draw 1 None false false",
            "draw 2 Some(Cpu) false false",
            "draw 3 Some(Resident) true true",
            "finish None",
        ]
    );
    assert_eq!((out.metal_draws_ok, out.metal_draws_fail), (3, 0));
    assert_eq!((out.render_attachment_resolves, out.render_guest_stores), (1, 1));
    assert_eq!(out.clears_applied, 0);
}

#[test]
fn each_draw_starts_from_what_the_one_before_it_left() {
    let acc = drawing(vec![draw(1, 3), draw(2, 4), draw(3, 5)]);
    let mut out = ExecResult::default();
    let (mut finish, _) = StreamFinish::begin(&acc, &mut out);
    match finish.advance(&acc, &mut out, FinishEvent::Attached(Some(request(0)))) {
        FinishAction::EncodeDraw { request, .. } => {
            assert_eq!(request.colors[0].target_seed_rgba, Some(vec![9]));
            assert_eq!(request.colors[0].load_action, 2);
            assert!(!request.continues_render_pass && request.render_pass_continues);
        }
        other => panic!("{other:?}"),
    }
    match finish.advance(&acc, &mut out, drawn(EncodeStatus::Encoded, Some(vec![1, 2]), false)) {
        FinishAction::EncodeDraw { request, .. } => {
            assert_eq!(request.colors[0].target_seed_rgba, Some(vec![1, 2]));
            assert_eq!(request.colors[0].load_action, 1);
            assert_eq!(request.draw.vertex_count, 4);
            assert!(!request.chain_from_resident);
            assert!(request.continues_render_pass && request.render_pass_continues);
        }
        other => panic!("{other:?}"),
    }
    match finish.advance(&acc, &mut out, drawn(EncodeStatus::Encoded, None, true)) {
        FinishAction::EncodeDraw { request, .. } => {
            assert!(request.chain_from_resident);
            assert_eq!(request.colors[0].target_seed_rgba, None);
            assert!(request.continues_render_pass && !request.render_pass_continues);
        }
        other => panic!("{other:?}"),
    }
}

#[test]
fn a_draw_that_leaves_nothing_ends_the_chain_unless_its_target_is_a_mapping() {
    let acc = drawing(vec![draw(1, 3), draw(2, 3), draw(3, 3)]);
    let mut out = ExecResult::default();
    assert_eq!(
        run(
            &acc,
            &mut out,
            vec![
                FinishEvent::Attached(Some(request(0))),
                drawn(EncodeStatus::Encoded, None, false),
                FinishEvent::ChainLanded,
            ],
        ),
        vec![
            "resolve 1",
            "draw 1 None false false",
            "land NoColor0 false false at 0/3 pipe 1",
            "finish None",
        ]
    );
    assert_eq!((out.metal_draws_ok, out.metal_draws_fail), (1, 0));
    let mut unified = ExecResult::default();
    assert_eq!(
        run(
            &acc,
            &mut unified,
            vec![
                FinishEvent::Attached(Some(request(6))),
                drawn(EncodeStatus::Encoded, None, false),
                drawn(EncodeStatus::Encoded, None, false),
                drawn(EncodeStatus::Encoded, None, false),
            ],
        ),
        vec![
            "resolve 1",
            "draw 1 None false false",
            "draw 2 Some(Missing) false false",
            "draw 3 Some(Missing) true true",
            "finish None",
        ]
    );
}

#[test]
fn a_stream_whose_draws_all_fail_falls_back_to_its_clears() {
    let acc = drawing(vec![draw(1, 3), draw(2, 3)]);
    let mut out = ExecResult { metal_draws_ok: 5, metal_draws_fail: 6, ..ExecResult::default() };
    assert_eq!(
        run(
            &acc,
            &mut out,
            vec![
                FinishEvent::Attached(Some(request(0))),
                drawn(EncodeStatus::NoMetal, None, false),
                FinishEvent::ChainLanded,
                FinishEvent::ClearApplied(true),
            ],
        ),
        vec![
            "resolve 1".to_string(),
            "draw 1 None false false".to_string(),
            "land NoMetal false false at 0/2 pipe 1".to_string(),
            "clear 10".to_string(),
            format!(
                "finish {:?}",
                Some(ClearFallback { clears: 1, draws_fail: 1, nometal: true })
            ),
        ]
    );
    let delta = stream_draw_delta(&out, (5, 6));
    assert_eq!((delta.ok, delta.fail), (0, 1));
    let mut unattached = ExecResult::default();
    assert_eq!(
        run(
            &acc,
            &mut unattached,
            vec![
                FinishEvent::Attached(None),
                FinishEvent::TargetsMarked,
                FinishEvent::ClearApplied(false),
            ],
        )[1..3],
        ["mark".to_string(), "clear 10".to_string()]
    );
    assert_eq!(unattached.metal_draws_fail, 1);
}

#[test]
fn a_refused_draw_lands_the_image_that_the_device_still_holds() {
    let acc = drawing(vec![draw(1, 3), draw(2, 3), draw(3, 3)]);
    let mut out = ExecResult::default();
    assert_eq!(
        run(
            &acc,
            &mut out,
            vec![
                FinishEvent::Attached(Some(request(0))),
                drawn(EncodeStatus::Encoded, None, true),
                drawn(EncodeStatus::Refused, None, false),
                FinishEvent::ChainLanded,
            ],
        )[3],
        format!("land {:?} true false at 1/3 pipe 2", ChainAbandonCause::TerminalRefusal)
    );
    assert_eq!((out.metal_draws_ok, out.metal_draws_fail), (1, 1));
}

#[test]
fn occlusion_counts_are_written_before_the_end() {
    let mut acc = drawing(vec![draw(1, 3), draw(2, 3)]);
    for (pending, offset) in acc.draws.iter_mut().zip([16u64, 16]) {
        pending.state.visibility = Some(VisibilityArming { mode: 2, offset });
    }
    let mut out = ExecResult::default();
    let counted = |samples: Option<u64>| FinishEvent::Drawn {
        status: EncodeStatus::Encoded,
        image: Some(vec![0]),
        resident_established: false,
        visibility_samples: samples,
    };
    assert_eq!(
        run(
            &acc,
            &mut out,
            vec![
                FinishEvent::Attached(Some(request(0))),
                counted(Some(4)),
                counted(Some(5)),
                FinishEvent::VisibilityWritten,
            ],
        )[3],
        "counts [(16, 9)]"
    );
    let (mut finish, _) = StreamFinish::begin(&acc, &mut out);
    finish.advance(&acc, &mut out, FinishEvent::Attached(Some(request(0))));
    finish.advance(&acc, &mut out, counted(None));
    assert_eq!(finish.unanswered_queries(), &vec![VisibilityArming { mode: 2, offset: 16 }]);
}

fn icb(icb_ref: u32, is_range: bool) -> RenderIcbExecute {
    RenderIcbExecute {
        icb_ref,
        is_range,
        range_location: 1,
        range_length: 2,
        args_buffer_ref: 30,
        args_buffer_offset: 8,
    }
}

#[test]
fn executions_run_in_order_and_only_the_first_opens_the_pass() {
    let mut acc = drawing(Vec::new());
    acc.saw_draw = false;
    acc.clears = vec![color(10, 2, 0)];
    acc.execute_icb = vec![icb(20, true), icb(21, false), icb(22, false), icb(23, true)];
    let mut out = ExecResult::default();
    assert_eq!(
        run(
            &acc,
            &mut out,
            vec![
                FinishEvent::IcbRequested(true),
                FinishEvent::IcbEncoded(true),
                FinishEvent::IcbRequested(true),
                FinishEvent::RangeRead(Some((5, 6))),
                FinishEvent::IcbEncoded(false),
                FinishEvent::TargetsMarked,
                FinishEvent::IcbRequested(true),
                FinishEvent::RangeRead(None),
                FinishEvent::TargetsMarked,
                FinishEvent::IcbRequested(false),
            ],
        ),
        vec![
            "request icb 1 load 2 clears 1",
            "icb 20 1 2",
            "request icb 1 load 1 clears 0",
            "range 30 8",
            "icb 21 5 6",
            "mark",
            "request icb 1 load 1 clears 0",
            "range 30 8",
            "mark",
            "request icb 1 load 1 clears 0",
            "finish None",
        ]
    );
    assert_eq!((out.render_icb_ok, out.render_icb_fail), (1, 3));
}

#[test]
fn executions_fail_without_a_target_or_with_a_refused_stream() {
    let mut acc = StreamAccum {
        execute_icb: vec![icb(20, true), icb(21, true)],
        ..StreamAccum::default()
    };
    let mut out = ExecResult::default();
    assert_eq!(run(&acc, &mut out, Vec::new()), vec!["finish None"]);
    assert_eq!(out.render_icb_fail, 2);
    acc.color_slots = vec![(0, color(10, 2, 1))];
    acc.unrepresentable =
        Some(StreamRefusal::Pass(StreamDrawDrop::PassArrayLengthUnsupported { length: 2 }));
    assert_eq!(
        run(
            &acc,
            &mut out,
            vec![FinishEvent::IcbRequested(true), FinishEvent::IcbRequested(true)],
        )
        .len(),
        3
    );
    assert_eq!((out.render_icb_ok, out.render_icb_fail), (0, 4));
}

#[test]
fn only_the_last_draw_writes_back() {
    assert_eq!(multi_draw_store_plan(0, 0), (false, false));
    assert_eq!(multi_draw_store_plan(1, 0), (true, false));
    assert_eq!(multi_draw_store_plan(3, 1), (false, false));
    assert_eq!(multi_draw_store_plan(3, 2), (true, true));
    assert_eq!(render_pass_chain_position(0, 1), (false, false));
    assert_eq!(render_pass_chain_position(0, 3), (false, true));
    assert_eq!(render_pass_chain_position(1, 3), (true, true));
    assert_eq!(render_pass_chain_position(2, 3), (true, false));
    assert_eq!(multi_draw_chain_source(true, true), MultiDrawChainSource::Resident);
    assert_eq!(multi_draw_chain_source(false, true), MultiDrawChainSource::Cpu);
    assert_eq!(multi_draw_chain_source(false, false), MultiDrawChainSource::Missing);
}

#[test]
fn later_draws_share_the_attachments_of_the_first() {
    let template = render_pass_attachment_template(&request(6));
    assert_eq!(template.colors[0].target_seed_rgba, None);
    assert_eq!(template.colors[0].load_action, 1);
    assert_eq!((template.colors[0].mapping_id, template.pipeline_ref), (6, 0));
    let next = retarget_render_pass_draw(&template, &draw(9, 12));
    assert_eq!((next.task_id, next.pipeline_ref, next.draw.vertex_count), (4, 9, 12));
    assert_eq!(next.colors, template.colors);
    let first = request(6);
    assert_eq!(retarget_render_pass_draw(&first, &draw(9, 12)).colors, first.colors);
    let slots = color_slots_loading(&vec![(3, color(10, 2, 1))]);
    assert_eq!(slots, vec![(3, color(10, 1, 1))]);
    assert_eq!(
        read_icb_exec_range(&Some(vec![1, 2, 0, 0, 3, 0, 0, 1])),
        Some((0x201, 0x0100_0003))
    );
    assert_eq!(read_icb_exec_range(&None), None);
}

#[test]
fn an_abandoned_chain_is_reported_with_what_it_loses() {
    let abandoned = ChainAbandonDecline { index: 2, total: 8, pipeline_ref: 7 };
    assert_eq!(abandoned.slug(), "draw_chain_abandoned_without_color0");
    assert_eq!(
        abandoned.fields(),
        vec![
            ("di", FieldValue::Place(2, 8)),
            ("lost", FieldValue::Decimal(5)),
            ("pipe", FieldValue::Decimal(7)),
        ]
    );
}

#[test]
fn a_stream_fails_one_draw_at_most_and_resolves_its_attachments_once() {
    let acc = drawing(vec![draw(1, 3), draw(2, 3), draw(3, 3)]);
    let mut out = ExecResult::default();
    run(
        &acc,
        &mut out,
        vec![
            FinishEvent::Attached(Some(request(0))),
            drawn(EncodeStatus::Encoded, Some(vec![1]), false),
            drawn(EncodeStatus::Refused, None, false),
            FinishEvent::ChainLanded,
        ],
    );
    assert_eq!((out.metal_draws_ok, out.metal_draws_fail), (1, 1));
    assert_eq!((out.render_attachment_resolves, out.render_guest_stores), (1, 0));
}

#[test]
fn a_stream_whose_draws_cannot_be_encoded_resolves_and_stores_nothing() {
    let mut out = ExecResult { render_guest_stores: 2, ..ExecResult::default() };
    let acc = drawing(vec![draw(0, 3), draw(4, 0)]);
    run(&acc, &mut out, vec![FinishEvent::ClearApplied(true)]);
    assert_eq!((out.metal_draws_ok, out.metal_draws_fail), (0, 0));
    assert_eq!((out.render_attachment_resolves, out.render_guest_stores), (0, 2));
    let undrawn = StreamAccum { saw_draw: false, ..drawing(vec![draw(1, 3)]) };
    run(&undrawn, &mut out, vec![FinishEvent::ClearApplied(true)]);
    assert_eq!((out.render_attachment_resolves, out.render_guest_stores), (0, 2));
}
