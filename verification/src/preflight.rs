//! Translations that a submission's shaders need before it can run.

use vstd::prelude::*;

use crate::exec_result::{list_once, listed};

verus! {

/// What starting the translations of a render pipeline gave.
#[derive(Clone, Copy, Debug, PartialEq, Eq, Structural)]
pub enum RenderPreflight {
    /// Its shaders are translated.
    Ready,
    /// Its shaders cannot be loaded.
    Unloadable,
    /// Its shaders hold nothing to translate.
    Unextractable,
    /// Its translations are started; whether each stage is translated.
    Started { vertex: bool, fragment: bool },
}

/// What starting the translation of a kernel gave.
#[derive(Clone, Copy, Debug, PartialEq, Eq, Structural)]
pub enum ComputePreflight {
    /// It cannot be loaded, or holds nothing to translate.
    Unloadable,
    /// Its translation is started; whether it is translated.
    Started { kernel: bool },
}

/// Whether a render pipeline is still being translated. One that cannot be
/// loaded never is: nothing would end the wait.
pub open spec fn render_pending(preflight: RenderPreflight) -> bool {
    match preflight {
        RenderPreflight::Started { vertex, fragment } => !vertex || !fragment,
        _ => false,
    }
}

/// Whether a kernel is still being translated.
pub open spec fn compute_pending(preflight: ComputePreflight) -> bool {
    match preflight {
        ComputePreflight::Started { kernel } => !kernel,
        ComputePreflight::Unloadable => false,
    }
}

/// The pipelines that are still being translated, behind those already found.
pub open spec fn render_pendings(
    pending: Seq<u32>,
    pipelines: Seq<(u32, RenderPreflight)>,
) -> Seq<u32>
    decreases pipelines.len(),
{
    if pipelines.len() == 0 {
        pending
    } else {
        let earlier = render_pendings(pending, pipelines.drop_last());
        if render_pending(pipelines.last().1) {
            listed(earlier, pipelines.last().0)
        } else {
            earlier
        }
    }
}

/// The kernels' pipelines that are still being translated, behind those already
/// found.
pub open spec fn compute_pendings(
    pending: Seq<u32>,
    dispatches: Seq<(u32, ComputePreflight)>,
) -> Seq<u32>
    decreases dispatches.len(),
{
    if dispatches.len() == 0 {
        pending
    } else {
        let earlier = compute_pendings(pending, dispatches.drop_last());
        if compute_pending(dispatches.last().1) {
            listed(earlier, dispatches.last().0)
        } else {
            earlier
        }
    }
}

/// Finds the pipelines that are still being translated. All are looked at, so
/// that all are translated at once.
pub fn preflight_render_translations(
    pipelines: &Vec<(u32, RenderPreflight)>,
    pending: &mut Vec<u32>,
)
    ensures
        final(pending)@ == render_pendings(old(pending)@, pipelines@),
{
    let mut i: usize = 0;
    assert(pipelines@.take(0) =~= Seq::empty());
    while i < pipelines.len()
        invariant
            i <= pipelines@.len(),
            pending@ == render_pendings(old(pending)@, pipelines@.take(i as int)),
        decreases pipelines.len() - i,
    {
        assert(pipelines@.take(i as int + 1).drop_last() =~= pipelines@.take(i as int));
        let (pipeline_ref, preflight) = pipelines[i];
        if let RenderPreflight::Started { vertex, fragment } = preflight {
            if !vertex || !fragment {
                list_once(pending, pipeline_ref);
            }
        }
        i += 1;
    }
    assert(pipelines@.take(i as int) =~= pipelines@);
}

/// Finds the kernels' pipelines that are still being translated.
pub fn preflight_compute_translations(
    dispatches: &Vec<(u32, ComputePreflight)>,
    pending: &mut Vec<u32>,
)
    ensures
        final(pending)@ == compute_pendings(old(pending)@, dispatches@),
{
    let mut i: usize = 0;
    assert(dispatches@.take(0) =~= Seq::empty());
    while i < dispatches.len()
        invariant
            i <= dispatches@.len(),
            pending@ == compute_pendings(old(pending)@, dispatches@.take(i as int)),
        decreases dispatches.len() - i,
    {
        assert(dispatches@.take(i as int + 1).drop_last() =~= dispatches@.take(i as int));
        let (pipeline_ref, preflight) = dispatches[i];
        if let ComputePreflight::Started { kernel } = preflight {
            if !kernel {
                list_once(pending, pipeline_ref);
            }
        }
        i += 1;
    }
    assert(dispatches@.take(i as int) =~= dispatches@);
}

/// The pipelines of a submission that are still being translated, each once.
pub fn preflight_translations(
    pipelines: &Vec<(u32, RenderPreflight)>,
    dispatches: &Vec<(u32, ComputePreflight)>,
) -> (pending: Vec<u32>)
    ensures
        pending@ == compute_pendings(render_pendings(Seq::empty(), pipelines@), dispatches@),
{
    let mut pending: Vec<u32> = Vec::new();
    assert(pending@ =~= Seq::empty());
    preflight_render_translations(pipelines, &mut pending);
    preflight_compute_translations(dispatches, &mut pending);
    pending
}

/// Whether a submission has to wait: one of its pipelines is still being
/// translated, and nothing of it may run.
pub fn preflight_submission(
    pipelines: &Vec<(u32, RenderPreflight)>,
    dispatches: &Vec<(u32, ComputePreflight)>,
) -> (pending: bool)
    ensures
        pending <==> {
            ||| exists|i: int|
                0 <= i < pipelines@.len() && render_pending((#[trigger] pipelines@[i]).1)
            ||| exists|i: int|
                0 <= i < dispatches@.len() && compute_pending((#[trigger] dispatches@[i]).1)
        },
{
    let pending = preflight_translations(pipelines, dispatches);
    proof {
        let found = pending@;
        if found.len() > 0 {
            assert(found.contains(found[0]));
            lemma_pending_is_what_is_translating(pipelines@, dispatches@, found[0]);
        }
        assert forall|i: int|
            0 <= i < pipelines@.len() && render_pending(
                (#[trigger] pipelines@[i]).1,
            ) implies found.len() > 0 by {
            lemma_pending_is_what_is_translating(pipelines@, dispatches@, pipelines@[i].0);
        }
        assert forall|i: int|
            0 <= i < dispatches@.len() && compute_pending(
                (#[trigger] dispatches@[i]).1,
            ) implies found.len() > 0 by {
            lemma_pending_is_what_is_translating(pipelines@, dispatches@, dispatches@[i].0);
        }
    }
    pending.len() > 0
}

proof fn lemma_listed(list: Seq<u32>, value: u32, other: u32)
    ensures
        listed(list, value).contains(other) <==> list.contains(other) || other == value,
        list.no_duplicates() ==> listed(list, value).no_duplicates(),
{
    if !list.contains(value) {
        let longer = list.push(value);
        assert(longer[list.len() as int] == value);
        if list.contains(other) {
            let at = choose|at: int| 0 <= at < list.len() && list[at] == other;
            assert(longer[at] == other);
        }
    }
}

proof fn lemma_render_pendings(
    pending: Seq<u32>,
    pipelines: Seq<(u32, RenderPreflight)>,
    pipeline_ref: u32,
)
    ensures
        render_pendings(pending, pipelines).contains(pipeline_ref) <==> pending.contains(
            pipeline_ref,
        ) || exists|i: int|
            0 <= i < pipelines.len() && (#[trigger] pipelines[i]).0 == pipeline_ref
                && render_pending(pipelines[i].1),
        pending.no_duplicates() ==> render_pendings(pending, pipelines).no_duplicates(),
    decreases pipelines.len(),
{
    if pipelines.len() > 0 {
        let before = pipelines.drop_last();
        lemma_render_pendings(pending, before, pipeline_ref);
        lemma_listed(render_pendings(pending, before), pipelines.last().0, pipeline_ref);
        assert forall|i: int| 0 <= i < before.len() implies #[trigger] before[i]
            == pipelines[i] by {}
        if exists|i: int|
            0 <= i < pipelines.len() && (#[trigger] pipelines[i]).0 == pipeline_ref
                && render_pending(pipelines[i].1) {
            let i = choose|i: int|
                0 <= i < pipelines.len() && (#[trigger] pipelines[i]).0 == pipeline_ref
                    && render_pending(pipelines[i].1);
            if i < before.len() {
                assert(before[i] == pipelines[i]);
            }
        }
    }
}

proof fn lemma_compute_pendings(
    pending: Seq<u32>,
    dispatches: Seq<(u32, ComputePreflight)>,
    pipeline_ref: u32,
)
    ensures
        compute_pendings(pending, dispatches).contains(pipeline_ref) <==> pending.contains(
            pipeline_ref,
        ) || exists|i: int|
            0 <= i < dispatches.len() && (#[trigger] dispatches[i]).0 == pipeline_ref
                && compute_pending(dispatches[i].1),
        pending.no_duplicates() ==> compute_pendings(pending, dispatches).no_duplicates(),
    decreases dispatches.len(),
{
    if dispatches.len() > 0 {
        let before = dispatches.drop_last();
        lemma_compute_pendings(pending, before, pipeline_ref);
        lemma_listed(compute_pendings(pending, before), dispatches.last().0, pipeline_ref);
        assert forall|i: int| 0 <= i < before.len() implies #[trigger] before[i]
            == dispatches[i] by {}
        if exists|i: int|
            0 <= i < dispatches.len() && (#[trigger] dispatches[i]).0 == pipeline_ref
                && compute_pending(dispatches[i].1) {
            let i = choose|i: int|
                0 <= i < dispatches.len() && (#[trigger] dispatches[i]).0 == pipeline_ref
                    && compute_pending(dispatches[i].1);
            if i < before.len() {
                assert(before[i] == dispatches[i]);
            }
        }
    }
}

/// A pipeline is pending if and only if one of its shaders is still being
/// translated, and no pipeline is listed twice.
pub proof fn lemma_pending_is_what_is_translating(
    pipelines: Seq<(u32, RenderPreflight)>,
    dispatches: Seq<(u32, ComputePreflight)>,
    pipeline_ref: u32,
)
    ensures
        ({
            let pending = compute_pendings(render_pendings(Seq::empty(), pipelines), dispatches);
            &&& pending.no_duplicates()
            &&& pending.contains(pipeline_ref) <==> {
                ||| exists|i: int|
                    0 <= i < pipelines.len() && (#[trigger] pipelines[i]).0 == pipeline_ref
                        && render_pending(pipelines[i].1)
                ||| exists|i: int|
                    0 <= i < dispatches.len() && (#[trigger] dispatches[i]).0 == pipeline_ref
                        && compute_pending(dispatches[i].1)
            }
        }),
{
    lemma_render_pendings(Seq::empty(), pipelines, pipeline_ref);
    lemma_compute_pendings(
        render_pendings(Seq::empty(), pipelines),
        dispatches,
        pipeline_ref,
    );
    lemma_render_pendings(Seq::empty(), pipelines, pipeline_ref);
}

/// A kernel's threads in one group.
#[derive(Clone, Copy, Debug, PartialEq, Eq, Structural)]
pub struct DispatchSize {
    pub width: u64,
    pub height: u64,
    pub depth: u64,
}

/// The group that a kernel is translated for: none where a side is 0, or does
/// not fit.
pub open spec fn local_size(size: DispatchSize) -> Option<(u32, u32, u32)> {
    if 0 < size.width <= u32::MAX && 0 < size.height <= u32::MAX && 0 < size.depth <= u32::MAX {
        Some((size.width as u32, size.height as u32, size.depth as u32))
    } else {
        None
    }
}

/// The kernels that are translated, each with its group.
pub open spec fn translated_dispatches(dispatches: Seq<(u32, DispatchSize)>) -> Seq<
    (u32, (u32, u32, u32)),
>
    decreases dispatches.len(),
{
    if dispatches.len() == 0 {
        Seq::empty()
    } else {
        let earlier = translated_dispatches(dispatches.drop_last());
        match local_size(dispatches.last().1) {
            Some(size) => earlier.push((dispatches.last().0, size)),
            None => earlier,
        }
    }
}

/// The kernels that a submission has translated, each with its group. A
/// dispatch of nothing has none.
pub fn preflight_dispatches(dispatches: &Vec<(u32, DispatchSize)>) -> (translated: Vec<
    (u32, (u32, u32, u32)),
>)
    ensures
        translated@ == translated_dispatches(dispatches@),
{
    let mut translated: Vec<(u32, (u32, u32, u32))> = Vec::new();
    let mut i: usize = 0;
    assert(dispatches@.take(0) =~= Seq::empty());
    assert(translated@ =~= Seq::empty());
    while i < dispatches.len()
        invariant
            i <= dispatches@.len(),
            translated@ == translated_dispatches(dispatches@.take(i as int)),
        decreases dispatches.len() - i,
    {
        assert(dispatches@.take(i as int + 1).drop_last() =~= dispatches@.take(i as int));
        let (pipeline_ref, size) = dispatches[i];
        let limit: u64 = u32::MAX as u64;
        if size.width != 0 && size.height != 0 && size.depth != 0 && size.width <= limit
            && size.height <= limit && size.depth <= limit {
            translated.push(
                (pipeline_ref, (size.width as u32, size.height as u32, size.depth as u32)),
            );
        }
        i += 1;
    }
    assert(dispatches@.take(i as int) =~= dispatches@);
    translated
}

/// A pipeline waits for whichever of its shaders is not translated, and for no
/// shader that cannot be loaded.
pub proof fn lemma_a_pipeline_waits_for_its_shaders(render: RenderPreflight, compute: ComputePreflight)
    ensures
        render_pending(render) <==> (render matches RenderPreflight::Started { vertex, fragment } && !(
        vertex && fragment)),
        compute_pending(compute) <==> (compute matches ComputePreflight::Started { kernel }
            && !kernel),
{
}

/// Each dispatch of something is translated for its own group, behind those of
/// the dispatches before it, and one of nothing is not.
pub proof fn lemma_a_kernel_is_translated_for_its_group(
    dispatches: Seq<(u32, DispatchSize)>,
    i: int,
)
    requires
        0 <= i < dispatches.len(),
    ensures
        ({
            let translated = translated_dispatches(dispatches);
            let size = dispatches[i].1;
            let at = translated_dispatches(dispatches.take(i)).len() as int;
            &&& at <= translated.len()
            &&& 0 < size.width <= u32::MAX && 0 < size.height <= u32::MAX && 0 < size.depth
                <= u32::MAX ==> {
                &&& at < translated.len()
                &&& translated[at].0 == dispatches[i].0
                &&& translated[at].1.0 == size.width
                &&& translated[at].1.1 == size.height
                &&& translated[at].1.2 == size.depth
            }
            &&& local_size(size) is Some <==> 0 < size.width <= u32::MAX && 0 < size.height
                <= u32::MAX && 0 < size.depth <= u32::MAX
        }),
    decreases dispatches.len(),
{
    let earlier = dispatches.drop_last();
    if i < dispatches.len() - 1 {
        lemma_a_kernel_is_translated_for_its_group(earlier, i);
        assert(earlier.take(i) =~= dispatches.take(i));
        assert(earlier[i] == dispatches[i]);
    } else {
        assert(dispatches.take(i) =~= earlier);
    }
}

} // verus!
