//! What running a submission came to.

use vstd::prelude::*;

verus! {

/// What running a submission came to.
#[derive(Debug, PartialEq, Eq)]
pub struct ExecResult {
    pub task_id: u32,
    pub streams_loaded: u32,
    /// A shader of the submission is still being translated: it has not run,
    /// and is to be tried again.
    pub deferred: bool,
    pub texture_refs: Vec<u32>,
    pub mapper_ref_texture_mappings: Vec<u32>,
    pub saw_draw: bool,
    pub clears_applied: u32,
    pub metal_draws_ok: u32,
    pub metal_draws_fail: u32,
    /// How many attachment sets were resolved: one for each pass that draws.
    pub render_attachment_resolves: u32,
    /// How many draws wrote their attachments back.
    pub render_guest_stores: u32,
    pub buffer_unbinds: u32,
    pub texture_unbinds: u32,
    pub sampler_unbinds: u32,
    pub compute_control_fail: u32,
    pub compute_icb_fail: u32,
    pub render_icb_ok: u32,
    pub render_icb_fail: u32,
    pub total_us: u64,
}

/// What contracts say of a result.
#[verifier::ext_equal]
pub struct ExecResultView {
    pub task_id: u32,
    pub streams_loaded: u32,
    pub deferred: bool,
    pub texture_refs: Seq<u32>,
    pub mapper_ref_texture_mappings: Seq<u32>,
    pub saw_draw: bool,
    pub clears_applied: u32,
    pub metal_draws_ok: u32,
    pub metal_draws_fail: u32,
    pub render_attachment_resolves: u32,
    pub render_guest_stores: u32,
    pub buffer_unbinds: u32,
    pub texture_unbinds: u32,
    pub sampler_unbinds: u32,
    pub compute_control_fail: u32,
    pub compute_icb_fail: u32,
    pub render_icb_ok: u32,
    pub render_icb_fail: u32,
    pub total_us: u64,
}

impl View for ExecResult {
    type V = ExecResultView;

    open spec fn view(&self) -> ExecResultView {
        ExecResultView {
            task_id: self.task_id,
            streams_loaded: self.streams_loaded,
            deferred: self.deferred,
            texture_refs: self.texture_refs@,
            mapper_ref_texture_mappings: self.mapper_ref_texture_mappings@,
            saw_draw: self.saw_draw,
            clears_applied: self.clears_applied,
            metal_draws_ok: self.metal_draws_ok,
            metal_draws_fail: self.metal_draws_fail,
            render_attachment_resolves: self.render_attachment_resolves,
            render_guest_stores: self.render_guest_stores,
            buffer_unbinds: self.buffer_unbinds,
            texture_unbinds: self.texture_unbinds,
            sampler_unbinds: self.sampler_unbinds,
            compute_control_fail: self.compute_control_fail,
            compute_icb_fail: self.compute_icb_fail,
            render_icb_ok: self.render_icb_ok,
            render_icb_fail: self.render_icb_fail,
            total_us: self.total_us,
        }
    }
}

/// The result of a submission that has done nothing.
pub open spec fn nothing_done() -> ExecResultView {
    ExecResultView {
        task_id: 0,
        streams_loaded: 0,
        deferred: false,
        texture_refs: Seq::empty(),
        mapper_ref_texture_mappings: Seq::empty(),
        saw_draw: false,
        clears_applied: 0,
        metal_draws_ok: 0,
        metal_draws_fail: 0,
        render_attachment_resolves: 0,
        render_guest_stores: 0,
        buffer_unbinds: 0,
        texture_unbinds: 0,
        sampler_unbinds: 0,
        compute_control_fail: 0,
        compute_icb_fail: 0,
        render_icb_ok: 0,
        render_icb_fail: 0,
        total_us: 0,
    }
}

impl Default for ExecResult {
    fn default() -> (result: Self)
        ensures
            result@ == nothing_done(),
    {
        ExecResult {
            task_id: 0,
            streams_loaded: 0,
            deferred: false,
            texture_refs: Vec::new(),
            mapper_ref_texture_mappings: Vec::new(),
            saw_draw: false,
            clears_applied: 0,
            metal_draws_ok: 0,
            metal_draws_fail: 0,
            render_attachment_resolves: 0,
            render_guest_stores: 0,
            buffer_unbinds: 0,
            texture_unbinds: 0,
            sampler_unbinds: 0,
            compute_control_fail: 0,
            compute_icb_fail: 0,
            render_icb_ok: 0,
            render_icb_fail: 0,
            total_us: 0,
        }
    }
}

/// A count after some more, at most what a counter holds.
pub open spec fn counted(count: u32, more: u32) -> u32 {
    if count + more <= u32::MAX {
        (count + more) as u32
    } else {
        u32::MAX
    }
}

/// A list with a value at its end, unless it holds the value already.
pub open spec fn listed(list: Seq<u32>, value: u32) -> Seq<u32> {
    if list.contains(value) {
        list
    } else {
        list.push(value)
    }
}

/// Puts a value at the end of a list, unless it holds the value already.
pub fn list_once(list: &mut Vec<u32>, value: u32)
    ensures
        final(list)@ == listed(old(list)@, value),
{
    let mut i: usize = 0;
    while i < list.len()
        invariant
            list@ == old(list)@,
            i <= list@.len(),
            forall|j: int| 0 <= j < i ==> list@[j] != value,
        decreases list.len() - i,
    {
        if list[i] == value {
            assert(list@[i as int] == value);
            return;
        }
        i += 1;
    }
    list.push(value);
}

/// What contracts say of a result is what it holds.
pub proof fn lemma_a_result_is_seen_whole(out: ExecResult)
    ensures
        out@.task_id == out.task_id,
        out@.streams_loaded == out.streams_loaded,
        out@.deferred == out.deferred,
        out@.texture_refs == out.texture_refs@,
        out@.mapper_ref_texture_mappings == out.mapper_ref_texture_mappings@,
        out@.saw_draw == out.saw_draw,
        out@.clears_applied == out.clears_applied,
        out@.metal_draws_ok == out.metal_draws_ok,
        out@.metal_draws_fail == out.metal_draws_fail,
        out@.render_attachment_resolves == out.render_attachment_resolves,
        out@.render_guest_stores == out.render_guest_stores,
        out@.buffer_unbinds == out.buffer_unbinds,
        out@.texture_unbinds == out.texture_unbinds,
        out@.sampler_unbinds == out.sampler_unbinds,
        out@.compute_control_fail == out.compute_control_fail,
        out@.compute_icb_fail == out.compute_icb_fail,
        out@.render_icb_ok == out.render_icb_ok,
        out@.render_icb_fail == out.render_icb_fail,
        out@.total_us == out.total_us,
{
}

/// A counter counts exactly as long as it can hold the count, and never goes
/// back.
pub proof fn lemma_a_counter_counts(count: u32, more: u32)
    ensures
        count + more <= u32::MAX ==> counted(count, more) == count + more,
        counted(count, more) >= count,
        count + more > u32::MAX ==> counted(count, more) == u32::MAX,
{
}

/// A value that is listed once more is on the list, what was on it stays in its
/// place, and nothing is on it twice.
pub proof fn lemma_a_list_holds_what_is_listed(list: Seq<u32>, value: u32)
    ensures
        listed(list, value).contains(value),
        listed(list, value).len() <= list.len() + 1,
        listed(list, value).len() >= list.len(),
        forall|i: int| 0 <= i < list.len() ==> #[trigger] listed(list, value)[i] == list[i],
        listed(list, value).len() == list.len() + 1 ==> !list.contains(value) && listed(
            list,
            value,
        ).last() == value,
        list.no_duplicates() ==> listed(list, value).no_duplicates(),
{
    if !list.contains(value) {
        assert(list.push(value)[list.len() as int] == value);
    }
}

} // verus!
