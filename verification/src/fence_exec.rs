//! Events and encoder fences: what signals and updates leave, and which waits
//! they satisfy.

use vstd::prelude::*;

verus! {

/// The space that a fence or event is named in.
#[derive(Clone, Copy, Debug, PartialEq, Eq, Structural)]
pub enum Domain {
    Unknown,
    Event,
    BlitFence,
    ComputeFence,
    RenderFence,
}

/// What is done with a fence.
#[derive(Clone, Copy, Debug, PartialEq, Eq, Structural)]
pub enum FenceAction {
    Unknown,
    Update,
    Wait,
}

/// What is done with an event.
#[derive(Clone, Copy, Debug, PartialEq, Eq, Structural)]
pub enum EventKind {
    Signal,
    Wait,
}

/// One operation on an event.
#[derive(Clone, Copy, Debug, PartialEq, Eq, Structural)]
pub struct EventRecord {
    pub kind: EventKind,
    pub event_ref: u32,
    pub value: u64,
}

/// What an operation on a fence or event came to.
#[derive(Clone, Copy, Debug, PartialEq, Eq)]
pub enum FenceStatus {
    Passed,
    /// A wait for what has not come yet. It holds nothing up.
    Pending,
    /// No fence or event is named.
    Missing,
    /// Refused, for the reason it names.
    Unsupported(&'static str),
}

/// What contracts say of a status.
pub enum FenceStatusView {
    Passed,
    Pending,
    Missing,
    Unsupported(Seq<char>),
}

impl View for FenceStatus {
    type V = FenceStatusView;

    open spec fn view(&self) -> FenceStatusView {
        match *self {
            FenceStatus::Passed => FenceStatusView::Passed,
            FenceStatus::Pending => FenceStatusView::Pending,
            FenceStatus::Missing => FenceStatusView::Missing,
            FenceStatus::Unsupported(reason) => FenceStatusView::Unsupported(reason@),
        }
    }
}

impl FenceStatus {
    pub open spec fn refusal_of(self) -> Option<Seq<char>> {
        match self {
            FenceStatus::Unsupported(reason) => Some(reason@),
            _ => None,
        }
    }

    /// The reason of a refusal. Success, a pending wait and an operation on
    /// nothing are none.
    pub fn refusal(&self) -> (reason: Option<&'static str>)
        ensures
            match reason {
                Some(reason) => self.refusal_of() == Some(reason@),
                None => self.refusal_of() is None,
            },
    {
        match self {
            FenceStatus::Unsupported(reason) => Some(*reason),
            _ => None,
        }
    }
}

/// The tag of events.
pub const FENCE_DOMAIN_EVENT: u8 = 0;

/// The tag of blit fences.
pub const FENCE_DOMAIN_BLIT: u8 = 1;

/// The tag of compute fences.
pub const FENCE_DOMAIN_COMPUTE: u8 = 2;

/// The tag of render fences.
pub const FENCE_DOMAIN_RENDER: u8 = 3;

/// The tag that a domain's generations are kept under.
pub open spec fn tag_of(domain: Domain) -> Option<u8> {
    match domain {
        Domain::Event => Some(FENCE_DOMAIN_EVENT),
        Domain::BlitFence => Some(FENCE_DOMAIN_BLIT),
        Domain::ComputeFence => Some(FENCE_DOMAIN_COMPUTE),
        Domain::RenderFence => Some(FENCE_DOMAIN_RENDER),
        Domain::Unknown => None,
    }
}

/// The tag that a domain's generations are kept under.
pub fn domain_tag(domain: Domain) -> (tag: Option<u8>)
    ensures
        tag == tag_of(domain),
{
    match domain {
        Domain::Event => Some(FENCE_DOMAIN_EVENT),
        Domain::BlitFence => Some(FENCE_DOMAIN_BLIT),
        Domain::ComputeFence => Some(FENCE_DOMAIN_COMPUTE),
        Domain::RenderFence => Some(FENCE_DOMAIN_RENDER),
        Domain::Unknown => None,
    }
}

/// No two domains share a tag.
pub proof fn lemma_domains_have_their_own_tags(one: Domain, other: Domain)
    requires
        tag_of(one) is Some,
        tag_of(one) == tag_of(other),
    ensures
        one == other,
{
}

/// Whose fence or event a generation belongs to.
#[derive(Clone, Copy, Debug, PartialEq, Eq, Structural)]
pub struct FenceKey {
    pub task_id: u32,
    pub tag: u8,
    pub reference: u32,
}

/// The generations of a device's fences and events.
#[derive(Debug, PartialEq, Eq)]
pub struct FenceTable {
    rows: Vec<(FenceKey, u64)>,
}

/// What rows hold: the first under a key counts.
pub open spec fn rows_map(rows: Seq<(FenceKey, u64)>) -> Map<FenceKey, u64>
    decreases rows.len(),
{
    if rows.len() == 0 {
        Map::empty()
    } else {
        rows_map(rows.skip(1)).insert(rows[0].0, rows[0].1)
    }
}

proof fn lemma_rows_update(rows: Seq<(FenceKey, u64)>, at: int, value: u64)
    requires
        0 <= at < rows.len(),
        forall|j: int| 0 <= j < at ==> (#[trigger] rows[j]).0 != rows[at].0,
    ensures
        rows_map(rows.update(at, (rows[at].0, value))) == rows_map(rows).insert(rows[at].0, value),
    decreases rows.len(),
{
    let updated = rows.update(at, (rows[at].0, value));
    let key = rows[at].0;
    if at == 0 {
        assert(updated.skip(1) =~= rows.skip(1));
        assert(rows_map(updated) =~= rows_map(rows).insert(key, value));
    } else {
        assert(updated.skip(1) =~= rows.skip(1).update(at - 1, (key, value)));
        assert(rows.skip(1)[at - 1] == rows[at]);
        assert forall|j: int| 0 <= j < at - 1 implies (#[trigger] rows.skip(1)[j]).0 != rows.skip(
            1,
        )[at - 1].0 by {
            assert(rows.skip(1)[j] == rows[j + 1]);
        }
        lemma_rows_update(rows.skip(1), at - 1, value);
        assert(rows[0].0 != key);
        assert(rows_map(updated) =~= rows_map(rows).insert(key, value));
    }
}

proof fn lemma_rows_push(rows: Seq<(FenceKey, u64)>, key: FenceKey, value: u64)
    requires
        forall|j: int| 0 <= j < rows.len() ==> (#[trigger] rows[j]).0 != key,
    ensures
        rows_map(rows.push((key, value))) == rows_map(rows).insert(key, value),
    decreases rows.len(),
{
    let pushed = rows.push((key, value));
    if rows.len() == 0 {
        assert(pushed.skip(1) =~= Seq::empty());
        assert(rows_map(Seq::<(FenceKey, u64)>::empty()) =~= Map::empty());
        assert(rows =~= Seq::empty());
        assert(pushed[0] == (key, value));
        assert(rows_map(pushed) =~= rows_map(rows).insert(key, value));
    } else {
        assert(pushed.skip(1) =~= rows.skip(1).push((key, value)));
        assert forall|j: int| 0 <= j < rows.skip(1).len() implies (#[trigger] rows.skip(1)[j]).0
            != key by {
            assert(rows.skip(1)[j] == rows[j + 1]);
        }
        lemma_rows_push(rows.skip(1), key, value);
        assert(rows[0].0 != key);
        assert(rows_map(pushed) =~= rows_map(rows).insert(key, value));
    }
}

proof fn lemma_rows_first(rows: Seq<(FenceKey, u64)>, at: int)
    requires
        0 <= at < rows.len(),
        forall|j: int| 0 <= j < at ==> (#[trigger] rows[j]).0 != rows[at].0,
    ensures
        rows_map(rows).contains_key(rows[at].0),
        rows_map(rows)[rows[at].0] == rows[at].1,
    decreases rows.len(),
{
    if at > 0 {
        assert(rows.skip(1)[at - 1] == rows[at]);
        assert forall|j: int| 0 <= j < at - 1 implies (#[trigger] rows.skip(1)[j]).0 != rows.skip(
            1,
        )[at - 1].0 by {
            assert(rows.skip(1)[j] == rows[j + 1]);
        }
        lemma_rows_first(rows.skip(1), at - 1);
        assert(rows[0].0 != rows[at].0);
    }
}

proof fn lemma_rows_none(rows: Seq<(FenceKey, u64)>, key: FenceKey)
    requires
        forall|j: int| 0 <= j < rows.len() ==> (#[trigger] rows[j]).0 != key,
    ensures
        !rows_map(rows).contains_key(key),
    decreases rows.len(),
{
    if rows.len() > 0 {
        assert forall|j: int| 0 <= j < rows.skip(1).len() implies (#[trigger] rows.skip(1)[j]).0
            != key by {
            assert(rows.skip(1)[j] == rows[j + 1]);
        }
        lemma_rows_none(rows.skip(1), key);
        assert(rows[0].0 != key);
    }
}

impl View for FenceTable {
    type V = Map<FenceKey, u64>;

    closed spec fn view(&self) -> Map<FenceKey, u64> {
        rows_map(self.rows@)
    }
}

/// The generation under a key.
pub open spec fn generation_of(table: Map<FenceKey, u64>, key: FenceKey) -> Option<u64> {
    if table.contains_key(key) {
        Some(table[key])
    } else {
        None
    }
}

impl Default for FenceTable {
    fn default() -> (table: Self)
        ensures
            table@ == Map::<FenceKey, u64>::empty(),
    {
        FenceTable { rows: Vec::new() }
    }
}

impl FenceTable {
    fn find(&self, key: FenceKey) -> (found: Option<usize>)
        ensures
            match found {
                Some(at) => {
                    &&& at < self.rows@.len()
                    &&& self.rows@[at as int].0 == key
                    &&& forall|j: int| 0 <= j < at ==> (#[trigger] self.rows@[j]).0 != key
                },
                None => forall|j: int|
                    0 <= j < self.rows@.len() ==> (#[trigger] self.rows@[j]).0 != key,
            },
    {
        let mut i: usize = 0;
        while i < self.rows.len()
            invariant
                i <= self.rows@.len(),
                forall|j: int| 0 <= j < i ==> (#[trigger] self.rows@[j]).0 != key,
            decreases self.rows.len() - i,
        {
            if self.rows[i].0 == key {
                return Some(i);
            }
            i += 1;
        }
        None
    }

    /// The generation of a task's fence or event, if it has one yet.
    pub fn fence_generation(&self, task_id: u32, tag: u8, reference: u32) -> (generation: Option<
        u64,
    >)
        ensures
            generation == generation_of(self@, FenceKey { task_id, tag, reference }),
    {
        let key = FenceKey { task_id, tag, reference };
        match self.find(key) {
            Some(at) => {
                proof {
                    lemma_rows_first(self.rows@, at as int);
                }
                Some(self.rows[at].1)
            },
            None => {
                proof {
                    lemma_rows_none(self.rows@, key);
                }
                None
            },
        }
    }

    /// Sets the generation of a task's fence or event.
    pub fn set_fence_generation(&mut self, task_id: u32, tag: u8, reference: u32, value: u64)
        ensures
            final(self)@ == old(self)@.insert(FenceKey { task_id, tag, reference }, value),
    {
        let key = FenceKey { task_id, tag, reference };
        match self.find(key) {
            Some(at) => {
                proof {
                    lemma_rows_update(self.rows@, at as int, value);
                }
                self.rows.set(at, (key, value));
            },
            None => {
                proof {
                    lemma_rows_push(self.rows@, key, value);
                }
                self.rows.push((key, value));
            },
        }
    }
}

/// The generation that an update leaves.
pub open spec fn next_generation(current: Option<u64>) -> u64 {
    match current {
        None => 1,
        Some(generation) => if generation < u64::MAX {
            (generation + 1) as u64
        } else {
            u64::MAX
        },
    }
}

/// What an operation on a fence leaves, and what it comes to.
pub open spec fn fence_step(
    table: Map<FenceKey, u64>,
    task_id: u32,
    domain: Domain,
    fence_ref: u32,
    action: FenceAction,
) -> (Map<FenceKey, u64>, FenceStatusView) {
    if fence_ref == 0 {
        (table, FenceStatusView::Missing)
    } else {
        match tag_of(domain) {
            None => (table, FenceStatusView::Unsupported("fence_domain_unknown"@)),
            Some(tag) => if domain == Domain::Event {
                (table, FenceStatusView::Unsupported("fence_event_in_fence_path"@))
            } else {
                let key = FenceKey { task_id, tag, reference: fence_ref };
                let current = generation_of(table, key);
                match action {
                    FenceAction::Update => (
                        table.insert(key, next_generation(current)),
                        FenceStatusView::Passed,
                    ),
                    FenceAction::Wait => (
                        table,
                        if current is Some {
                            FenceStatusView::Passed
                        } else {
                            FenceStatusView::Pending
                        },
                    ),
                    FenceAction::Unknown => (
                        table,
                        FenceStatusView::Unsupported("fence_plan_invalid"@),
                    ),
                }
            },
        }
    }
}

/// Updates a fence of an encoder domain, or waits for it.
pub fn execute_fence(
    table: &mut FenceTable,
    task_id: u32,
    domain: Domain,
    fence_ref: u32,
    action: FenceAction,
) -> (status: FenceStatus)
    ensures
        (final(table)@, status@) == fence_step(old(table)@, task_id, domain, fence_ref, action),
{
    if fence_ref == 0 {
        return FenceStatus::Missing;
    }
    let Some(tag) = domain_tag(domain) else {
        return FenceStatus::Unsupported("fence_domain_unknown");
    };
    if domain == Domain::Event {
        return FenceStatus::Unsupported("fence_event_in_fence_path");
    }
    let current = table.fence_generation(task_id, tag, fence_ref);
    match action {
        FenceAction::Update => {
            let next: u64 = match current {
                None => 1,
                Some(generation) => generation.saturating_add(1),
            };
            table.set_fence_generation(task_id, tag, fence_ref, next);
            FenceStatus::Passed
        },
        FenceAction::Wait => {
            if current.is_some() {
                FenceStatus::Passed
            } else {
                FenceStatus::Pending
            }
        },
        FenceAction::Unknown => FenceStatus::Unsupported("fence_plan_invalid"),
    }
}

/// What an operation on an event leaves, and what it comes to. A signal only
/// ever advances its event, and a wait asks for the value it names or more.
pub open spec fn event_step(table: Map<FenceKey, u64>, task_id: u32, record: EventRecord) -> (
    Map<FenceKey, u64>,
    FenceStatusView,
) {
    if record.event_ref == 0 {
        (table, FenceStatusView::Missing)
    } else {
        let key = FenceKey { task_id, tag: FENCE_DOMAIN_EVENT, reference: record.event_ref };
        let current = generation_of(table, key);
        match record.kind {
            EventKind::Signal => (
                match current {
                    None => table.insert(key, record.value),
                    Some(value) => if record.value > value {
                        table.insert(key, record.value)
                    } else {
                        table
                    },
                },
                FenceStatusView::Passed,
            ),
            EventKind::Wait => (
                table,
                match current {
                    Some(value) => if value >= record.value {
                        FenceStatusView::Passed
                    } else {
                        FenceStatusView::Pending
                    },
                    None => FenceStatusView::Pending,
                },
            ),
        }
    }
}

/// Signals an event, or waits for it.
pub fn execute_event(table: &mut FenceTable, task_id: u32, record: &EventRecord) -> (status:
    FenceStatus)
    ensures
        (final(table)@, status@) == event_step(old(table)@, task_id, *record),
{
    if record.event_ref == 0 {
        return FenceStatus::Missing;
    }
    let tag = FENCE_DOMAIN_EVENT;
    let current = table.fence_generation(task_id, tag, record.event_ref);
    match record.kind {
        EventKind::Signal => {
            let advances = match current {
                None => true,
                Some(value) => record.value > value,
            };
            if advances {
                table.set_fence_generation(task_id, tag, record.event_ref, record.value);
            }
            FenceStatus::Passed
        },
        EventKind::Wait => match current {
            Some(value) => {
                if value >= record.value {
                    FenceStatus::Passed
                } else {
                    FenceStatus::Pending
                }
            },
            None => FenceStatus::Pending,
        },
    }
}

/// An event never goes back: no operation lowers what it was signalled to.
pub proof fn lemma_events_only_advance(
    table: Map<FenceKey, u64>,
    task_id: u32,
    record: EventRecord,
    key: FenceKey,
)
    requires
        table.contains_key(key),
    ensures
        event_step(table, task_id, record).0.contains_key(key),
        event_step(table, task_id, record).0[key] >= table[key],
{
}

/// A signalled event satisfies every wait for its value or less, whatever came
/// before.
pub proof fn lemma_a_signal_satisfies_waits(
    table: Map<FenceKey, u64>,
    task_id: u32,
    event_ref: u32,
    signalled: u64,
    awaited: u64,
)
    requires
        event_ref != 0,
        awaited <= signalled,
    ensures
        event_step(
            event_step(
                table,
                task_id,
                EventRecord { kind: EventKind::Signal, event_ref, value: signalled },
            ).0,
            task_id,
            EventRecord { kind: EventKind::Wait, event_ref, value: awaited },
        ).1 is Passed,
{
}

/// An updated fence satisfies every wait for it.
pub proof fn lemma_an_update_satisfies_waits(
    table: Map<FenceKey, u64>,
    task_id: u32,
    domain: Domain,
    fence_ref: u32,
)
    requires
        fence_ref != 0,
        domain != Domain::Unknown,
        domain != Domain::Event,
    ensures
        fence_step(
            fence_step(table, task_id, domain, fence_ref, FenceAction::Update).0,
            task_id,
            domain,
            fence_ref,
            FenceAction::Wait,
        ).1 is Passed,
{
}

/// An operation in one domain leaves every fence and event of the others as it
/// is.
pub proof fn lemma_domains_are_independent(
    table: Map<FenceKey, u64>,
    task_id: u32,
    domain: Domain,
    fence_ref: u32,
    action: FenceAction,
    key: FenceKey,
)
    requires
        Some(key.tag) != tag_of(domain) || key.task_id != task_id || key.reference != fence_ref,
    ensures
        generation_of(fence_step(table, task_id, domain, fence_ref, action).0, key)
            == generation_of(table, key),
{
}

/// A wait changes nothing.
pub proof fn lemma_waits_change_nothing(
    table: Map<FenceKey, u64>,
    task_id: u32,
    domain: Domain,
    fence_ref: u32,
    event: EventRecord,
)
    requires
        event.kind == EventKind::Wait,
    ensures
        fence_step(table, task_id, domain, fence_ref, FenceAction::Wait).0 == table,
        event_step(table, task_id, event).0 == table,
{
}

/// What a fence came to on the blit rail.
#[derive(Clone, Copy, Debug, PartialEq, Eq)]
pub enum BlitFenceStatus {
    Passed,
    Pending,
    Missing,
    Unsupported(&'static str),
}

impl BlitFenceStatus {
    pub open spec fn reason_of(self) -> Option<Seq<char>> {
        match self {
            BlitFenceStatus::Missing => Some("fence_missing"@),
            BlitFenceStatus::Unsupported(reason) => Some(reason@),
            _ => None,
        }
    }

    /// Why the fence failed, if it did.
    pub fn reason(&self) -> (reason: Option<&'static str>)
        ensures
            match reason {
                Some(reason) => self.reason_of() == Some(reason@),
                None => self.reason_of() is None,
            },
    {
        match self {
            BlitFenceStatus::Missing => Some("fence_missing"),
            BlitFenceStatus::Unsupported(reason) => Some(*reason),
            _ => None,
        }
    }
}

/// What a fence came to, on the blit rail. A refusal keeps its reason.
pub fn blit_status_from_fence(status: FenceStatus) -> (blit: BlitFenceStatus)
    ensures
        match status {
            FenceStatus::Passed => blit is Passed,
            FenceStatus::Pending => blit is Pending,
            FenceStatus::Missing => blit is Missing,
            FenceStatus::Unsupported(reason) => blit == BlitFenceStatus::Unsupported(reason),
        },
{
    match status {
        FenceStatus::Passed => BlitFenceStatus::Passed,
        FenceStatus::Pending => BlitFenceStatus::Pending,
        FenceStatus::Missing => BlitFenceStatus::Missing,
        FenceStatus::Unsupported(reason) => BlitFenceStatus::Unsupported(reason),
    }
}

/// What an event record lifts to.
#[derive(Clone, Copy, Debug, PartialEq, Eq, Structural)]
pub enum LiftedEvent {
    Event(EventRecord),
    /// The record is no event: the rail carries nothing else.
    NotAnEvent,
    /// The record does not decode.
    Refused,
    /// The record's own header does not frame.
    Unframed,
}

/// What became of an event record.
#[derive(Clone, Copy, Debug, PartialEq, Eq)]
pub enum EventOutcome {
    Executed(FenceStatus),
    NotAnEvent,
    Refused,
    Unframed,
}

/// Executes an event record. One that is no event changes nothing.
pub fn handle_event_record(table: &mut FenceTable, task_id: u32, lifted: &LiftedEvent) -> (outcome:
    EventOutcome)
    ensures
        match *lifted {
            LiftedEvent::Event(record) => match outcome {
                EventOutcome::Executed(status) => (final(table)@, status@) == event_step(
                    old(table)@,
                    task_id,
                    record,
                ),
                _ => false,
            },
            LiftedEvent::NotAnEvent => outcome is NotAnEvent && final(table)@ == old(table)@,
            LiftedEvent::Refused => outcome is Refused && final(table)@ == old(table)@,
            LiftedEvent::Unframed => outcome is Unframed && final(table)@ == old(table)@,
        },
{
    match lifted {
        LiftedEvent::Event(record) => EventOutcome::Executed(
            execute_event(table, task_id, record),
        ),
        LiftedEvent::NotAnEvent => EventOutcome::NotAnEvent,
        LiftedEvent::Refused => EventOutcome::Refused,
        LiftedEvent::Unframed => EventOutcome::Unframed,
    }
}

/// An update leaves its fence one generation on, and a wait passes just where
/// the fence was ever updated; neither does anything to a fence that is not
/// named.
pub proof fn lemma_a_fence_counts_its_updates(
    table: Map<FenceKey, u64>,
    task_id: u32,
    domain: Domain,
    fence_ref: u32,
    tag: u8,
)
    requires
        tag_of(domain) == Some(tag),
        domain != Domain::Event,
    ensures
        ({
            let key = FenceKey { task_id, tag, reference: fence_ref };
            let updated = fence_step(table, task_id, domain, fence_ref, FenceAction::Update);
            let waited = fence_step(table, task_id, domain, fence_ref, FenceAction::Wait);
            &&& fence_ref == 0 ==> updated.1 is Missing && updated.0 == table && waited.1
                is Missing
            &&& fence_ref != 0 ==> {
                &&& updated.1 is Passed
                &&& updated.0.contains_key(key)
                &&& table.contains_key(key) && table[key] < u64::MAX ==> updated.0[key]
                    == table[key] + 1
                &&& table.contains_key(key) && table[key] == u64::MAX ==> updated.0[key]
                    == u64::MAX
                &&& !table.contains_key(key) ==> updated.0[key] == 1
                &&& waited.1 is Passed <==> table.contains_key(key)
                &&& waited.1 is Pending <==> !table.contains_key(key)
            }
            &&& waited.0 == table
        }),
{
}

/// A signal leaves its event at the greater of what it stood at and what is
/// signalled, and a wait passes just where the event stands at what it names or
/// more; no other event is touched.
pub proof fn lemma_an_event_holds_the_greatest_signal(
    table: Map<FenceKey, u64>,
    task_id: u32,
    event_ref: u32,
    value: u64,
    other: FenceKey,
)
    requires
        event_ref != 0,
    ensures
        ({
            let key = FenceKey { task_id, tag: FENCE_DOMAIN_EVENT, reference: event_ref };
            let signalled = event_step(
                table,
                task_id,
                EventRecord { kind: EventKind::Signal, event_ref, value },
            );
            let waited = event_step(
                table,
                task_id,
                EventRecord { kind: EventKind::Wait, event_ref, value },
            );
            &&& signalled.1 is Passed
            &&& signalled.0.contains_key(key)
            &&& !table.contains_key(key) ==> signalled.0[key] == value
            &&& table.contains_key(key) ==> signalled.0[key] >= table[key] && signalled.0[key]
                >= value && (signalled.0[key] == table[key] || signalled.0[key] == value)
            &&& other != key ==> signalled.0.contains_key(other) == table.contains_key(other) && (
            table.contains_key(other) ==> signalled.0[other] == table[other])
            &&& waited.0 == table
            &&& waited.1 is Passed <==> table.contains_key(key) && table[key] >= value
            &&& waited.1 is Pending <==> !(table.contains_key(key) && table[key] >= value)
        }),
{
}

} // verus!
