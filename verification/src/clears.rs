//! Clears of a pass that draws nothing: which texture each publishes into, and
//! how its colour gets there.

use vstd::prelude::*;

use crate::command::ColorAttachment;
use crate::raster::{
    STORE_ACTION_MULTISAMPLE_RESOLVE, STORE_ACTION_STORE,
    STORE_ACTION_STORE_AND_MULTISAMPLE_RESOLVE,
};
use crate::refusals::{fields_view, FieldValue, FieldView};
use crate::stream_accum::{publishes_single_sample, store_action_publishes_single_sample};

verus! {

/// Where a cleared attachment publishes its colour.
#[derive(Clone, Copy, Debug, PartialEq, Eq, Structural)]
pub enum ClearPublish {
    /// Into its own texture, as declared.
    Direct,
    /// Into the texture it resolves to.
    Resolved(u32),
    /// Into both, neither of which stands for the other.
    StoredAndResolved { source: u32, resolve: u32 },
    /// Nowhere: nothing was asked for.
    NotPublished,
    /// A resolve without a texture to resolve to.
    ResolveTargetMissing,
}

/// Where a cleared attachment publishes its colour.
pub open spec fn publish_of(att: ColorAttachment) -> ClearPublish {
    if att.texture_ref == 0 || !publishes_single_sample(att.store_action) {
        ClearPublish::NotPublished
    } else if att.store_action == STORE_ACTION_STORE {
        ClearPublish::Direct
    } else if att.resolve_texture_ref == 0 {
        ClearPublish::ResolveTargetMissing
    } else if att.store_action == STORE_ACTION_STORE_AND_MULTISAMPLE_RESOLVE {
        ClearPublish::StoredAndResolved { source: att.texture_ref, resolve: att.resolve_texture_ref }
    } else {
        ClearPublish::Resolved(att.resolve_texture_ref)
    }
}

/// Where a cleared attachment publishes its colour. Every sample of it holds
/// the clear colour, so a resolve publishes that colour too.
pub fn clear_publish_target(att: &ColorAttachment) -> (publish: ClearPublish)
    ensures
        publish == publish_of(*att),
{
    if att.texture_ref == 0 || !store_action_publishes_single_sample(att.store_action) {
        return ClearPublish::NotPublished;
    }
    if att.store_action == STORE_ACTION_MULTISAMPLE_RESOLVE || att.store_action
        == STORE_ACTION_STORE_AND_MULTISAMPLE_RESOLVE {
        if att.resolve_texture_ref == 0 {
            return ClearPublish::ResolveTargetMissing;
        }
        if att.store_action == STORE_ACTION_STORE_AND_MULTISAMPLE_RESOLVE {
            return ClearPublish::StoredAndResolved {
                source: att.texture_ref,
                resolve: att.resolve_texture_ref,
            };
        }
        return ClearPublish::Resolved(att.resolve_texture_ref);
    }
    ClearPublish::Direct
}

/// A clear whose store action publishes two textures.
#[derive(Clone, Copy, Debug, PartialEq, Eq, Structural)]
pub struct StoreAndResolveClearDecline {
    pub source: u32,
    pub resolve: u32,
}

impl StoreAndResolveClearDecline {
    /// The name under which the loss is reported.
    pub fn slug(&self) -> (slug: &'static str)
        ensures
            slug@ == "clear_store_and_multisample_resolve_unsupported"@,
    {
        "clear_store_and_multisample_resolve_unsupported"
    }

    pub open spec fn fields_of(self) -> Seq<(Seq<char>, FieldView)> {
        seq![
            ("source"@, FieldView::Decimal(self.source as u64)),
            ("resolve"@, FieldView::Decimal(self.resolve as u64)),
        ]
    }

    /// The values that the report states.
    pub fn fields(&self) -> (fields: Vec<(&'static str, FieldValue)>)
        ensures
            fields_view(fields@) == self.fields_of(),
    {
        let fields = vec![
            ("source", FieldValue::Decimal(self.source as u64)),
            ("resolve", FieldValue::Decimal(self.resolve as u64)),
        ];
        assert(fields_view(fields@) =~= self.fields_of());
        fields
    }
}

/// What a clear asks to be resolved.
#[derive(Clone, Copy, Debug, PartialEq, Eq)]
pub enum ClearPlan {
    /// The target to resolve.
    Resolve(ColorAttachment),
    /// Refused: two textures would have to be published as one.
    StoreAndResolve(StoreAndResolveClearDecline),
    /// Refused: no texture to resolve to.
    ResolveTargetMissing { source: u32, store_action: u16 },
    /// Nothing to do.
    NotPublished,
}

/// What a clear asks to be resolved. A texture that is resolved to is an
/// ordinary one of one level.
pub open spec fn clear_plan(att: ColorAttachment) -> ClearPlan {
    match publish_of(att) {
        ClearPublish::Direct => ClearPlan::Resolve(att),
        ClearPublish::Resolved(texture_ref) => ClearPlan::Resolve(
            ColorAttachment {
                texture_ref,
                resolve_texture_ref: 0,
                level: 0,
                store_action: STORE_ACTION_STORE,
                ..att
            },
        ),
        ClearPublish::StoredAndResolved { source, resolve } => ClearPlan::StoreAndResolve(
            StoreAndResolveClearDecline { source, resolve },
        ),
        ClearPublish::NotPublished => ClearPlan::NotPublished,
        ClearPublish::ResolveTargetMissing => ClearPlan::ResolveTargetMissing {
            source: att.texture_ref,
            store_action: att.store_action,
        },
    }
}

/// What a clear asks to be resolved.
pub fn plan_clear(att: &ColorAttachment) -> (plan: ClearPlan)
    ensures
        plan == clear_plan(*att),
{
    match clear_publish_target(att) {
        ClearPublish::Direct => ClearPlan::Resolve(*att),
        ClearPublish::Resolved(texture_ref) => {
            let mut target = *att;
            target.texture_ref = texture_ref;
            target.resolve_texture_ref = 0;
            target.level = 0;
            target.store_action = STORE_ACTION_STORE;
            ClearPlan::Resolve(target)
        },
        ClearPublish::StoredAndResolved { source, resolve } => ClearPlan::StoreAndResolve(
            StoreAndResolveClearDecline { source, resolve },
        ),
        ClearPublish::NotPublished => ClearPlan::NotPublished,
        ClearPublish::ResolveTargetMissing => ClearPlan::ResolveTargetMissing {
            source: att.texture_ref,
            store_action: att.store_action,
        },
    }
}

/// What a clear target resolves to.
#[derive(Clone, Copy, Debug, PartialEq, Eq, Structural)]
pub struct ClearTarget {
    pub sample_count: u32,
    /// Where in the task's memory the target is, or 0.
    pub target_gva: u64,
    /// The mapping that the target is, or 0.
    pub mapping_id: u32,
}

/// How the pixels of a clear are encoded.
#[derive(Clone, Copy, Debug, PartialEq, Eq, Structural)]
pub enum ClearEncoding {
    Rgba8,
    Native,
}

/// Why a clear is dropped.
#[derive(Clone, Copy, Debug, PartialEq, Eq, Structural)]
pub enum ClearDrop {
    /// The target does not resolve.
    TargetUnresolved,
    /// The target has several samples, which no one-sample image fills.
    MultisampleSource,
    /// The clear colour has no image in the target's format.
    Unrepresentable,
}

/// What a resolved clear does.
#[derive(Clone, Copy, Debug, PartialEq, Eq, Structural)]
#[allow(inconsistent_fields)]
pub enum ClearWrite {
    Memory { gva: u64, encoding: ClearEncoding },
    Mapping { mapping_id: u32, encoding: ClearEncoding },
    /// The target is nowhere that could be written.
    Nowhere,
    Dropped(ClearDrop),
}

/// What a resolved clear does, given its target and the encoding of its image.
pub open spec fn clear_write_of(
    target: Option<ClearTarget>,
    image: Option<ClearEncoding>,
) -> ClearWrite {
    match target {
        None => ClearWrite::Dropped(ClearDrop::TargetUnresolved),
        Some(target) => if target.sample_count > 1 {
            ClearWrite::Dropped(ClearDrop::MultisampleSource)
        } else {
            match image {
                None => ClearWrite::Dropped(ClearDrop::Unrepresentable),
                Some(encoding) => if target.target_gva != 0 {
                    ClearWrite::Memory { gva: target.target_gva, encoding }
                } else if target.mapping_id != 0 {
                    ClearWrite::Mapping { mapping_id: target.mapping_id, encoding }
                } else {
                    ClearWrite::Nowhere
                },
            }
        },
    }
}

/// What a resolved clear does.
pub fn write_clear(target: Option<ClearTarget>, image: Option<ClearEncoding>) -> (write: ClearWrite)
    ensures
        write == clear_write_of(target, image),
{
    let Some(target) = target else {
        return ClearWrite::Dropped(ClearDrop::TargetUnresolved);
    };
    if target.sample_count > 1 {
        return ClearWrite::Dropped(ClearDrop::MultisampleSource);
    }
    let Some(encoding) = image else {
        return ClearWrite::Dropped(ClearDrop::Unrepresentable);
    };
    if target.target_gva != 0 {
        return ClearWrite::Memory { gva: target.target_gva, encoding };
    }
    if target.mapping_id == 0 {
        return ClearWrite::Nowhere;
    }
    ClearWrite::Mapping { mapping_id: target.mapping_id, encoding }
}

/// What follows a written clear.
#[derive(Clone, Copy, Debug, PartialEq, Eq, Structural)]
pub enum ClearEffect {
    /// Nothing was written.
    Failed,
    /// Copies of the memory are stale.
    ForgetCopies { gva: u64, texture_ref: u32 },
    /// The mapping holds a clear.
    SurfaceCleared(u32),
}

/// What follows a clear, given whether its write went through.
pub open spec fn clear_effect_of(
    att: ColorAttachment,
    write: ClearWrite,
    written: bool,
) -> ClearEffect {
    match write {
        ClearWrite::Memory { gva, .. } => if written {
            ClearEffect::ForgetCopies { gva, texture_ref: att.texture_ref }
        } else {
            ClearEffect::Failed
        },
        ClearWrite::Mapping { mapping_id, .. } => if written {
            ClearEffect::SurfaceCleared(mapping_id)
        } else {
            ClearEffect::Failed
        },
        _ => ClearEffect::Failed,
    }
}

/// What follows a clear, given whether its write went through.
pub fn settle_clear(att: &ColorAttachment, write: ClearWrite, written: bool) -> (effect: ClearEffect)
    ensures
        effect == clear_effect_of(*att, write, written),
{
    if !written {
        return ClearEffect::Failed;
    }
    match write {
        ClearWrite::Memory { gva, .. } => ClearEffect::ForgetCopies {
            gva,
            texture_ref: att.texture_ref,
        },
        ClearWrite::Mapping { mapping_id, .. } => ClearEffect::SurfaceCleared(mapping_id),
        _ => ClearEffect::Failed,
    }
}

/// What the whole of a clear comes to, given what its target resolves to, how
/// its image is encoded and whether the write goes through.
pub open spec fn clear_result(
    att: ColorAttachment,
    target: Option<ClearTarget>,
    image: Option<ClearEncoding>,
    written: bool,
) -> ClearEffect {
    match clear_plan(att) {
        ClearPlan::Resolve(_) => clear_effect_of(att, clear_write_of(target, image), written),
        _ => ClearEffect::Failed,
    }
}

/// The whole of a clear.
pub fn apply_clear(
    att: &ColorAttachment,
    target: Option<ClearTarget>,
    image: Option<ClearEncoding>,
    written: bool,
) -> (effect: ClearEffect)
    ensures
        effect == clear_result(*att, target, image, written),
{
    match plan_clear(att) {
        ClearPlan::Resolve(_) => settle_clear(att, write_clear(target, image), written),
        _ => ClearEffect::Failed,
    }
}

/// What a store action drops is never written, whatever the target is.
pub proof fn lemma_dropped_results_are_not_written(
    att: ColorAttachment,
    target: Option<ClearTarget>,
    image: Option<ClearEncoding>,
    written: bool,
)
    requires
        !publishes_single_sample(att.store_action),
    ensures
        clear_result(att, target, image, written) is Failed,
{
}

/// A one-sample image is never written over a target of several samples.
pub proof fn lemma_multisample_targets_are_not_written(
    att: ColorAttachment,
    target: ClearTarget,
    image: Option<ClearEncoding>,
    written: bool,
)
    requires
        target.sample_count > 1,
    ensures
        clear_result(att, Some(target), image, written) is Failed,
{
}

impl ClearDrop {
    pub open spec fn reason_of(self) -> Seq<char> {
        match self {
            ClearDrop::TargetUnresolved => "target_unresolved"@,
            ClearDrop::MultisampleSource => "clear_multisample_source_not_linear"@,
            ClearDrop::Unrepresentable => "target_clear_image_unrepresentable"@,
        }
    }

    /// The name of the reason.
    pub fn reason(self) -> (reason: &'static str)
        ensures
            reason@ == self.reason_of(),
    {
        match self {
            ClearDrop::TargetUnresolved => "target_unresolved",
            ClearDrop::MultisampleSource => "clear_multisample_source_not_linear",
            ClearDrop::Unrepresentable => "target_clear_image_unrepresentable",
        }
    }

    pub open spec fn key_of(self, texture_ref: u32) -> int {
        match self {
            ClearDrop::TargetUnresolved => texture_ref as int,
            ClearDrop::MultisampleSource => 0x1_0000_0000 + texture_ref,
            ClearDrop::Unrepresentable => 0x2_0000_0000 + texture_ref,
        }
    }
}

/// Clears that differ in reason or in texture are reported each for itself.
pub proof fn lemma_clears_have_their_own_keys(
    one: ClearDrop,
    one_ref: u32,
    other: ClearDrop,
    other_ref: u32,
)
    requires
        one != other || one_ref != other_ref,
    ensures
        one.key_of(one_ref) != other.key_of(other_ref),
        0 <= one.key_of(one_ref) <= u64::MAX,
{
}

/// A colour target, with what is known of it.
#[derive(Clone, Copy, Debug, PartialEq, Eq, Structural)]
pub struct DirtyTarget {
    pub texture_ref: u32,
    /// The mapping that the target names through the mapper.
    pub mapper: Option<u32>,
    /// Whether the target is itself a mapping.
    pub backing: bool,
}

/// The mappings that count as written, in order.
pub open spec fn dirty_mappings(targets: Seq<DirtyTarget>) -> Seq<u32>
    decreases targets.len(),
{
    if targets.len() == 0 {
        Seq::empty()
    } else {
        let earlier = dirty_mappings(targets.drop_last());
        match targets.last().mapper {
            Some(mapping) => earlier.push(mapping),
            None => if targets.last().backing {
                earlier.push(targets.last().texture_ref)
            } else {
                earlier
            },
        }
    }
}

/// The mappings that count as written once a stream's targets do.
pub fn dirty_color_targets(targets: &Vec<DirtyTarget>) -> (mappings: Vec<u32>)
    ensures
        mappings@ == dirty_mappings(targets@),
{
    let mut mappings: Vec<u32> = Vec::new();
    let mut i: usize = 0;
    assert(targets@.take(0) =~= Seq::empty());
    assert(mappings@ =~= Seq::empty());
    while i < targets.len()
        invariant
            i <= targets@.len(),
            mappings@ == dirty_mappings(targets@.take(i as int)),
        decreases targets.len() - i,
    {
        assert(targets@.take(i as int + 1).drop_last() =~= targets@.take(i as int));
        let target = targets[i];
        if let Some(mapping) = target.mapper {
            mappings.push(mapping);
        } else if target.backing {
            mappings.push(target.texture_ref);
        }
        i += 1;
    }
    assert(targets@.take(i as int) =~= targets@);
    mappings
}

/// A clear publishes what its store action keeps: a stored attachment its own
/// texture, a resolved one the texture that it resolves into as an ordinary one,
/// with the clear's own colour; one that keeps nothing publishes nothing.
pub proof fn lemma_a_clear_publishes_what_is_kept(att: ColorAttachment)
    ensures
        match clear_plan(att) {
            ClearPlan::Resolve(target) => {
                &&& att.texture_ref != 0
                &&& target.clear_color == att.clear_color
                &&& target.load_action == att.load_action
                &&& target.slice == att.slice && target.depth_plane == att.depth_plane
                &&& att.store_action == 1 ==> target == att
                &&& att.store_action == 2 ==> target.texture_ref == att.resolve_texture_ref
                    && target.texture_ref != 0 && target.resolve_texture_ref == 0 && target.level
                    == 0 && target.store_action == 1
                &&& att.store_action == 1 || att.store_action == 2
            },
            ClearPlan::StoreAndResolve(both) => {
                &&& att.store_action == 3
                &&& both.source == att.texture_ref && both.source != 0
                &&& both.resolve == att.resolve_texture_ref && both.resolve != 0
            },
            ClearPlan::ResolveTargetMissing { source, store_action } => {
                &&& att.resolve_texture_ref == 0
                &&& att.store_action == 2 || att.store_action == 3
                &&& source == att.texture_ref && source != 0 && store_action == att.store_action
            },
            ClearPlan::NotPublished => att.texture_ref == 0 || !(1 <= att.store_action <= 3),
        },
{
}

/// A clear is written where its target is, in the encoding of its image, and
/// what follows a write is about that place and no other.
pub proof fn lemma_a_clear_is_written_to_its_target(
    att: ColorAttachment,
    target: Option<ClearTarget>,
    image: Option<ClearEncoding>,
    written: bool,
)
    ensures
        match clear_write_of(target, image) {
            ClearWrite::Memory { gva, encoding } => target is Some && gva == target->0.target_gva
                && gva != 0 && target->0.sample_count <= 1 && image == Some(encoding),
            ClearWrite::Mapping { mapping_id, encoding } => target is Some && mapping_id
                == target->0.mapping_id && mapping_id != 0 && target->0.target_gva == 0
                && target->0.sample_count <= 1 && image == Some(encoding),
            ClearWrite::Nowhere => target is Some && target->0.target_gva == 0
                && target->0.mapping_id == 0,
            ClearWrite::Dropped(ClearDrop::TargetUnresolved) => target is None,
            ClearWrite::Dropped(ClearDrop::MultisampleSource) => target is Some
                && target->0.sample_count > 1,
            ClearWrite::Dropped(ClearDrop::Unrepresentable) => image is None,
        },
        match clear_effect_of(att, clear_write_of(target, image), written) {
            ClearEffect::ForgetCopies { gva, texture_ref } => written && target is Some && gva
                == target->0.target_gva && texture_ref == att.texture_ref,
            ClearEffect::SurfaceCleared(mapping_id) => written && target is Some && mapping_id
                == target->0.mapping_id,
            ClearEffect::Failed => !written || target is None || target->0.sample_count > 1
                || image is None || (target->0.target_gva == 0 && target->0.mapping_id == 0),
        },
{
}

/// A mapping counts as written if and only if a target names it through the
/// mapper, or is it.
pub proof fn lemma_a_written_mapping_is_a_targets(targets: Seq<DirtyTarget>, mapping: u32)
    ensures
        dirty_mappings(targets).contains(mapping) <==> exists|i: int|
            0 <= i < targets.len() && ((#[trigger] targets[i]).mapper == Some(mapping) || (
            targets[i].mapper is None && targets[i].backing && targets[i].texture_ref == mapping)),
    decreases targets.len(),
{
    if targets.len() > 0 {
        let earlier = targets.drop_last();
        let last = targets.last();
        lemma_a_written_mapping_is_a_targets(earlier, mapping);
        let before = dirty_mappings(earlier);
        let after = dirty_mappings(targets);
        let names = last.mapper == Some(mapping) || (last.mapper is None && last.backing
            && last.texture_ref == mapping);
        assert(targets[targets.len() - 1] == last);
        if before.contains(mapping) {
            let k = choose|k: int| 0 <= k < before.len() && before[k] == mapping;
            assert(after[k] == mapping);
            let i = choose|i: int|
                0 <= i < earlier.len() && ((#[trigger] earlier[i]).mapper == Some(mapping) || (
                earlier[i].mapper is None && earlier[i].backing && earlier[i].texture_ref
                    == mapping));
            assert(targets[i] == earlier[i]);
        }
        if names {
            assert(after[after.len() - 1] == mapping);
        }
        if after.contains(mapping) && !names {
            let k = choose|k: int| 0 <= k < after.len() && after[k] == mapping;
            assert(before[k] == mapping);
        }
        if exists|i: int|
            0 <= i < targets.len() && ((#[trigger] targets[i]).mapper == Some(mapping) || (
            targets[i].mapper is None && targets[i].backing && targets[i].texture_ref
                == mapping)) {
            let i = choose|i: int|
                0 <= i < targets.len() && ((#[trigger] targets[i]).mapper == Some(mapping) || (
                targets[i].mapper is None && targets[i].backing && targets[i].texture_ref
                    == mapping));
            if i < earlier.len() {
                assert(earlier[i] == targets[i]);
            }
        }
    }
}

} // verus!
