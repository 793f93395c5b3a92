use reims_vgpu::fence_exec::{
    blit_status_from_fence, domain_tag, execute_event, execute_fence, handle_event_record,
    BlitFenceStatus, Domain, EventKind, EventOutcome, EventRecord, FenceAction, FenceStatus,
    FenceTable, LiftedEvent, FENCE_DOMAIN_BLIT, FENCE_DOMAIN_COMPUTE, FENCE_DOMAIN_EVENT,
    FENCE_DOMAIN_RENDER,
};

fn event_cmd(kind: EventKind, event_ref: u32, value: u64) -> EventRecord {
    EventRecord { kind, event_ref, value }
}

#[test]
fn blit_compute_render_domains_independent() {
    let mut state = FenceTable::default();
    // Same ref id, three domains.
    assert_eq!(
        execute_fence(&mut state, 1, Domain::BlitFence, 5, FenceAction::Update),
        FenceStatus::Passed
    );
    assert_eq!(
        execute_fence(&mut state, 1, Domain::ComputeFence, 5, FenceAction::Update),
        FenceStatus::Passed
    );
    assert_eq!(
        execute_fence(&mut state, 1, Domain::RenderFence, 5, FenceAction::Update),
        FenceStatus::Passed
    );
    assert_eq!(state.fence_generation(1, FENCE_DOMAIN_BLIT, 5), Some(1));
    assert_eq!(state.fence_generation(1, FENCE_DOMAIN_COMPUTE, 5), Some(1));
    assert_eq!(state.fence_generation(1, FENCE_DOMAIN_RENDER, 5), Some(1));
    // Wait each domain satisfied independently.
    for d in [Domain::BlitFence, Domain::ComputeFence, Domain::RenderFence] {
        assert_eq!(
            execute_fence(&mut state, 1, d, 5, FenceAction::Wait),
            FenceStatus::Passed
        );
    }
    // Wait on never-updated ref is pending.
    assert_eq!(
        execute_fence(&mut state, 1, Domain::ComputeFence, 9, FenceAction::Wait),
        FenceStatus::Pending
    );
}

#[test]
fn zero_ref_missing() {
    let mut state = FenceTable::default();
    assert_eq!(
        execute_fence(&mut state, 1, Domain::RenderFence, 0, FenceAction::Update),
        FenceStatus::Missing
    );
    let cmd = event_cmd(EventKind::Signal, 0, 1);
    assert_eq!(execute_event(&mut state, 1, &cmd), FenceStatus::Missing);
}

#[test]
fn event_signal_then_wait() {
    let mut state = FenceTable::default();
    let sig = event_cmd(EventKind::Signal, 7, 100);
    assert_eq!(execute_event(&mut state, 1, &sig), FenceStatus::Passed);
    assert_eq!(state.fence_generation(1, FENCE_DOMAIN_EVENT, 7), Some(100));

    let wait_ok = event_cmd(EventKind::Wait, 7, 100);
    assert_eq!(execute_event(&mut state, 1, &wait_ok), FenceStatus::Passed);

    // Wait for higher value is soft-pending.
    let wait_hi = event_cmd(EventKind::Wait, 7, 101);
    assert_eq!(execute_event(&mut state, 1, &wait_hi), FenceStatus::Pending);

    // Advance signal, then wait satisfied.
    let sig2 = event_cmd(EventKind::Signal, 7, 101);
    assert_eq!(execute_event(&mut state, 1, &sig2), FenceStatus::Passed);
    assert_eq!(state.fence_generation(1, FENCE_DOMAIN_EVENT, 7), Some(101));
    assert_eq!(execute_event(&mut state, 1, &wait_hi), FenceStatus::Passed);
}

#[test]
fn event_stale_signal_noop_and_independent_of_fence() {
    let mut state = FenceTable::default();
    assert_eq!(
        execute_event(&mut state, 1, &event_cmd(EventKind::Signal, 3, 50)),
        FenceStatus::Passed
    );
    // Stale / equal: no regression.
    assert_eq!(
        execute_event(&mut state, 1, &event_cmd(EventKind::Signal, 3, 40)),
        FenceStatus::Passed
    );
    assert_eq!(
        execute_event(&mut state, 1, &event_cmd(EventKind::Signal, 3, 50)),
        FenceStatus::Passed
    );
    assert_eq!(state.fence_generation(1, FENCE_DOMAIN_EVENT, 3), Some(50));

    // Same ref on blit fence domain is independent.
    assert_eq!(
        execute_fence(&mut state, 1, Domain::BlitFence, 3, FenceAction::Update),
        FenceStatus::Passed
    );
    assert_eq!(state.fence_generation(1, FENCE_DOMAIN_BLIT, 3), Some(1));
    assert_eq!(state.fence_generation(1, FENCE_DOMAIN_EVENT, 3), Some(50));
}

#[test]
fn event_wait_missing_signal_pending() {
    let mut state = FenceTable::default();
    let wait = event_cmd(EventKind::Wait, 99, 1);
    assert_eq!(execute_event(&mut state, 1, &wait), FenceStatus::Pending);
}

#[test]
fn no_two_fence_checks_answer_with_the_same_reason() {
    let mut state = FenceTable::default();

    let mut seen: Vec<&'static str> = Vec::new();
    let mut record = |st: FenceStatus| {
        seen.push(st.refusal().unwrap_or_else(|| {
            panic!("expected a refusal, got {st:?}");
        }));
    };

    // Fence path: an unknown domain, and an event ref on the encoder-fence
    // path.
    record(execute_fence(&mut state, 1, Domain::Unknown, 4, FenceAction::Update));
    record(execute_fence(&mut state, 1, Domain::Event, 4, FenceAction::Update));
    let mut unique = seen.clone();
    unique.sort_unstable();
    unique.dedup();
    assert_eq!(
        unique.len(),
        seen.len(),
        "two fence checks share a reason: {seen:?}"
    );
    assert!(
        seen.contains(&"fence_domain_unknown") && seen.contains(&"fence_event_in_fence_path"),
        "the reasons no longer name their checks: {seen:?}"
    );
}

#[test]
fn success_pending_and_unbound_refs_are_never_logged() {
    let mut state = FenceTable::default();

    assert_eq!(
        execute_fence(&mut state, 1, Domain::BlitFence, 5, FenceAction::Update).refusal(),
        None,
        "a successful update is not a refusal"
    );
    assert_eq!(
        execute_fence(&mut state, 1, Domain::ComputeFence, 9, FenceAction::Wait).refusal(),
        None,
        "a soft-pending wait is re-polled every drain; logging it floods"
    );
    assert_eq!(
        execute_fence(&mut state, 1, Domain::RenderFence, 0, FenceAction::Update).refusal(),
        None,
        "ref==0 is the genuinely-unbound case"
    );
}

#[test]
fn a_refusal_carries_its_reason_across_the_blit_remap() {
    let mut state = FenceTable::default();
    let st = execute_fence(&mut state, 1, Domain::Unknown, 7, FenceAction::Update);
    assert_eq!(st, FenceStatus::Unsupported("fence_domain_unknown"));

    let remapped = blit_status_from_fence(st);
    assert_eq!(
        remapped.reason(),
        Some("fence_domain_unknown"),
        "the remap flattened the fence reason; got {remapped:?}"
    );
}

#[test]
fn an_action_without_a_plan_is_refused_and_changes_nothing() {
    let mut state = FenceTable::default();
    assert_eq!(
        execute_fence(&mut state, 1, Domain::BlitFence, 5, FenceAction::Unknown),
        FenceStatus::Unsupported("fence_plan_invalid")
    );
    assert_eq!(state.fence_generation(1, FENCE_DOMAIN_BLIT, 5), None);
}

#[test]
fn updates_count_up_for_each_task_on_its_own() {
    let mut state = FenceTable::default();
    for _ in 0..3 {
        execute_fence(&mut state, 1, Domain::RenderFence, 5, FenceAction::Update);
    }
    assert_eq!(state.fence_generation(1, FENCE_DOMAIN_RENDER, 5), Some(3));
    assert_eq!(state.fence_generation(2, FENCE_DOMAIN_RENDER, 5), None);
    state.set_fence_generation(2, FENCE_DOMAIN_RENDER, 5, u64::MAX);
    execute_fence(&mut state, 2, Domain::RenderFence, 5, FenceAction::Update);
    assert_eq!(state.fence_generation(2, FENCE_DOMAIN_RENDER, 5), Some(u64::MAX));
    assert_eq!(state.fence_generation(1, FENCE_DOMAIN_RENDER, 5), Some(3));
}

#[test]
fn every_domain_but_the_unknown_has_its_own_tag() {
    let tags: Vec<u8> = [
        Domain::Event,
        Domain::BlitFence,
        Domain::ComputeFence,
        Domain::RenderFence,
    ]
    .iter()
    .map(|d| domain_tag(*d).unwrap())
    .collect();
    let mut unique = tags.clone();
    unique.sort_unstable();
    unique.dedup();
    assert_eq!(unique.len(), tags.len());
    assert_eq!(domain_tag(Domain::Unknown), None);
}

#[test]
fn only_events_reach_the_event_table() {
    let mut state = FenceTable::default();
    assert_eq!(
        handle_event_record(&mut state, 1, &LiftedEvent::NotAnEvent),
        EventOutcome::NotAnEvent
    );
    assert_eq!(
        handle_event_record(&mut state, 1, &LiftedEvent::Refused),
        EventOutcome::Refused
    );
    assert_eq!(
        handle_event_record(&mut state, 1, &LiftedEvent::Unframed),
        EventOutcome::Unframed
    );
    assert_eq!(state, FenceTable::default());
    let signal = LiftedEvent::Event(event_cmd(EventKind::Signal, 6, 12));
    assert_eq!(
        handle_event_record(&mut state, 1, &signal),
        EventOutcome::Executed(FenceStatus::Passed)
    );
    assert_eq!(state.fence_generation(1, FENCE_DOMAIN_EVENT, 6), Some(12));
}

#[test]
fn the_blit_rail_tells_a_missing_fence_from_a_pending_one() {
    assert_eq!(blit_status_from_fence(FenceStatus::Missing).reason(), Some("fence_missing"));
    assert_eq!(blit_status_from_fence(FenceStatus::Pending).reason(), None);
    assert_eq!(blit_status_from_fence(FenceStatus::Passed), BlitFenceStatus::Passed);
}
