//! The object-table slots that a submission's records name.

use vstd::prelude::*;

use crate::command::{
    BlitCommand, BufferBind, ColorAttachment, ComputeBufferBinding, ComputeCommand,
    ComputeRefBinding, ComputeSamplerBinding, DecodedReplacementRecord, InfoOperation, PatchDraw,
    RenderCommand, TileBind, TileSamplerBind,
};
use crate::exec_streams::{DecodedReplacementSegment, DecodedReplacementStream};

verus! {

broadcast use {vstd::std_specs::btree::group_btree_axioms, vstd::laws_cmp::group_laws_cmp};

/// The objects after one more reference: a new slot joins the end, and slot 0
/// names nothing.
pub open spec fn noted(objects: Seq<u32>, reference: u32) -> Seq<u32> {
    if reference != 0 && !objects.contains(reference) {
        objects.push(reference)
    } else {
        objects
    }
}

/// The slots that references name, each where it is first named.
pub open spec fn first_named(references: Seq<u32>) -> Seq<u32>
    decreases references.len(),
{
    if references.len() == 0 {
        Seq::empty()
    } else {
        noted(first_named(references.drop_last()), references.last())
    }
}

/// An item that names one slot.
pub trait Naming {
    /// The slot.
    spec fn names(&self) -> u32;

    /// The slot.
    fn named(&self) -> (reference: u32)
        ensures
            reference == self.names(),
    ;
}

impl Naming for u32 {
    open spec fn names(&self) -> u32 {
        *self
    }

    fn named(&self) -> (reference: u32) {
        *self
    }
}

impl Naming for BufferBind {
    open spec fn names(&self) -> u32 {
        self.buffer_ref
    }

    fn named(&self) -> (reference: u32) {
        self.buffer_ref
    }
}

impl Naming for TileSamplerBind {
    open spec fn names(&self) -> u32 {
        self.reference
    }

    fn named(&self) -> (reference: u32) {
        self.reference
    }
}

impl Naming for ComputeBufferBinding {
    open spec fn names(&self) -> u32 {
        self.ref_
    }

    fn named(&self) -> (reference: u32) {
        self.ref_
    }
}

impl Naming for ComputeRefBinding {
    open spec fn names(&self) -> u32 {
        self.ref_
    }

    fn named(&self) -> (reference: u32) {
        self.ref_
    }
}

impl Naming for ComputeSamplerBinding {
    open spec fn names(&self) -> u32 {
        self.ref_
    }

    fn named(&self) -> (reference: u32) {
        self.ref_
    }
}

/// The slots that items name, one each.
pub open spec fn names_of<T: Naming>(items: Seq<T>) -> Seq<u32> {
    Seq::new(items.len(), |i: int| items[i].names())
}

/// The slots that a colour attachment names.
pub open spec fn color_references(attachment: ColorAttachment) -> Seq<u32> {
    seq![attachment.texture_ref, attachment.resolve_texture_ref]
}

/// The slots that colour attachments name.
pub open spec fn colors_references(attachments: Seq<ColorAttachment>) -> Seq<u32>
    decreases attachments.len(),
{
    if attachments.len() == 0 {
        Seq::empty()
    } else {
        colors_references(attachments.drop_last()) + color_references(attachments.last())
    }
}

/// The slots that a patch draw names.
pub open spec fn patch_references(draw: Option<PatchDraw>) -> Seq<u32> {
    match draw {
        None => Seq::empty(),
        Some(PatchDraw::Direct { patch_indices, control_point_indices, .. }) => {
            seq![patch_indices.reference] + match control_point_indices {
                Some(control_points) => seq![control_points.reference],
                None => Seq::empty(),
            }
        },
        Some(PatchDraw::Indirect { patch_indices, control_point_indices, arguments }) => {
            seq![patch_indices.reference] + match control_point_indices {
                Some(control_points) => seq![control_points.reference],
                None => Seq::empty(),
            } + seq![arguments.reference]
        },
    }
}

/// The slots that a tile bind names.
pub open spec fn tile_references(bind: Option<TileBind>) -> Seq<u32> {
    match bind {
        Some(TileBind::Buffer { bindings, .. }) => names_of(bindings@),
        Some(TileBind::Texture { references, .. }) => names_of(references@),
        Some(TileBind::Sampler { bindings, .. }) => names_of(bindings@),
        _ => Seq::empty(),
    }
}

/// The slots that a render command binds, or names for residency or a barrier.
pub open spec fn bound_references(c: RenderCommand) -> Seq<u32> {
    seq![c.pipeline_ref, c.buffer_ref] + names_of(c.buffer_binds@) + seq![c.texture_ref]
        + names_of(c.ref_binds@) + seq![c.sampler_ref] + names_of(c.participation_resources@)
        + names_of(c.barrier_resources@)
}

/// The slots that a render command draws or tests with.
pub open spec fn drawn_references(c: RenderCommand) -> Seq<u32> {
    seq![
        c.index_buffer_ref,
        c.indirect_buffer_ref,
        c.pass_visibility_result_buffer_ref,
        c.depth_stencil_ref,
        c.indirect_command_buffer_ref,
        c.icb_args_buffer_ref,
    ]
}

/// The slots that a render command attaches.
pub open spec fn attached_references(c: RenderCommand) -> Seq<u32> {
    colors_references(c.color_attachments@) + color_references(c.color0) + seq![
        c.depth.texture_ref,
        c.depth.resolve_texture_ref,
        c.stencil.texture_ref,
        c.stencil.resolve_texture_ref,
    ]
}

/// The slots that a render command names, in order. Fences and heaps are named
/// in other tables.
pub open spec fn render_references(c: RenderCommand) -> Seq<u32> {
    bound_references(c) + drawn_references(c) + attached_references(c) + patch_references(
        c.patch_draw,
    ) + tile_references(c.tile_bind)
}

/// The slots that a compute command names, in order.
pub open spec fn compute_references(c: ComputeCommand) -> Seq<u32> {
    seq![c.pipeline_ref] + names_of(c.buffers@) + names_of(c.textures@) + names_of(c.samplers@)
        + names_of(c.resources@) + seq![
        c.indirect_buffer_ref,
        c.stage_in_indirect_buffer_ref,
        c.condition_buffer_ref,
        c.indirect_command_buffer_ref,
        c.indirect_command_arguments_buffer_ref,
    ]
}

/// The slots that a blit command names, in order.
pub open spec fn blit_references(c: BlitCommand) -> Seq<u32> {
    seq![c.source, c.destination, c.resource, c.buffer, c.texture, c.fill_bytes_ref]
}

/// The slots that a query names, in order.
pub open spec fn info_references(operation: InfoOperation) -> Seq<u32> {
    match operation {
        InfoOperation::PipelineState { pipeline_ref, reply, .. } => seq![pipeline_ref, reply.buffer],
        InfoOperation::ResourceHost { resource, reply, .. } => seq![resource, reply.buffer],
        InfoOperation::SamplerHost { sampler, reply } => seq![sampler, reply.buffer],
        InfoOperation::RenderPipelineImageblock { pipeline, reply, .. } => {
            seq![pipeline, reply.buffer]
        },
        InfoOperation::ComputePipelineImageblock { pipeline, reply, .. } => {
            seq![pipeline, reply.buffer]
        },
        InfoOperation::RateMapInfo { rate_map, reply, .. } => seq![rate_map, reply.buffer],
        InfoOperation::MapCoordinate { rate_map, reply, .. } => seq![rate_map, reply.buffer],
        InfoOperation::CopyRateParameterBuffer { rate_map, destination, .. } => {
            seq![rate_map, destination]
        },
        InfoOperation::HeapHost { reply, .. } => seq![reply.buffer],
        InfoOperation::HeapTextureSizeAndAlign { reply, .. } => seq![reply.buffer],
    }
}

/// The slots that a record names, in order.
pub open spec fn record_references(record: DecodedReplacementRecord) -> Seq<u32> {
    match record {
        DecodedReplacementRecord::Render(command) => render_references(*command),
        DecodedReplacementRecord::Compute(command) => compute_references(*command),
        DecodedReplacementRecord::Blit(command) => blit_references(*command),
        DecodedReplacementRecord::Info(operation) => info_references(operation),
        DecodedReplacementRecord::Event(_) => Seq::empty(),
    }
}

/// The slots that records name, in order.
pub open spec fn records_references(records: Seq<DecodedReplacementRecord>) -> Seq<u32>
    decreases records.len(),
{
    if records.len() == 0 {
        Seq::empty()
    } else {
        records_references(records.drop_last()) + record_references(records.last())
    }
}

/// The slots that segments name, in order.
pub open spec fn segments_references(segments: Seq<DecodedReplacementSegment>) -> Seq<u32>
    decreases segments.len(),
{
    if segments.len() == 0 {
        Seq::empty()
    } else {
        segments_references(segments.drop_last()) + records_references(segments.last().records@)
    }
}

/// The slots that streams name, in order.
pub open spec fn streams_references(streams: Seq<DecodedReplacementStream>) -> Seq<u32>
    decreases streams.len(),
{
    if streams.len() == 0 {
        Seq::empty()
    } else {
        streams_references(streams.drop_last()) + segments_references(streams.last().segments@)
    }
}

/// The object-table slots that a submission names.
#[derive(Debug, PartialEq, Eq)]
pub struct ReplacementStreamObjectManifest {
    pub objects: Vec<u32>,
}

struct Collector {
    objects: Vec<u32>,
    seen: std::collections::BTreeSet<u32>,
    named: Ghost<Seq<u32>>,
}

impl Collector {
    spec fn wf(self) -> bool {
        &&& self.objects@ == first_named(self.named@)
        &&& forall|reference: u32| #[trigger]
            self.seen@.contains(reference) <==> self.objects@.contains(reference)
    }

    fn new() -> (collector: Collector)
        ensures
            collector.wf(),
            collector.named@ == Seq::<u32>::empty(),
    {
        Collector {
            objects: Vec::new(),
            seen: std::collections::BTreeSet::new(),
            named: Ghost(Seq::empty()),
        }
    }

    fn push(&mut self, reference: u32)
        requires
            old(self).wf(),
        ensures
            final(self).wf(),
            final(self).named@ == old(self).named@.push(reference),
    {
        let ghost before = self.objects@;
        if reference != 0 && self.seen.insert(reference) {
            self.objects.push(reference);
            assert(self.objects@.last() == reference);
            assert forall|other: u32| #[trigger] self.objects@.contains(other) <==> before.contains(
                other,
            ) || other == reference by {
                if before.contains(other) {
                    let at = choose|at: int| 0 <= at < before.len() && before[at] == other;
                    assert(self.objects@[at] == other);
                }
            }
        }
        proof {
            self.named@ = self.named@.push(reference);
            assert(self.named@.drop_last() =~= old(self).named@);
        }
    }

    fn push_each<T: Naming>(&mut self, items: &Vec<T>)
        requires
            old(self).wf(),
        ensures
            final(self).wf(),
            final(self).named@ == old(self).named@ + names_of(items@),
    {
        let mut i: usize = 0;
        assert(self.named@ =~= old(self).named@ + names_of(items@).take(0));
        while i < items.len()
            invariant
                i <= items@.len(),
                self.wf(),
                self.named@ == old(self).named@ + names_of(items@).take(i as int),
            decreases items.len() - i,
        {
            self.push(items[i].named());
            assert(self.named@ =~= old(self).named@ + names_of(items@).take(i as int + 1));
            i += 1;
        }
        assert(names_of(items@).take(i as int) =~= names_of(items@));
    }

    fn push_color(&mut self, attachment: &ColorAttachment)
        requires
            old(self).wf(),
        ensures
            final(self).wf(),
            final(self).named@ == old(self).named@ + color_references(*attachment),
    {
        self.push(attachment.texture_ref);
        self.push(attachment.resolve_texture_ref);
        assert(self.named@ =~= old(self).named@ + color_references(*attachment));
    }

    fn push_colors(&mut self, attachments: &Vec<ColorAttachment>)
        requires
            old(self).wf(),
        ensures
            final(self).wf(),
            final(self).named@ == old(self).named@ + colors_references(attachments@),
    {
        let mut i: usize = 0;
        assert(self.named@ =~= old(self).named@ + colors_references(attachments@.take(0)));
        while i < attachments.len()
            invariant
                i <= attachments@.len(),
                self.wf(),
                self.named@ == old(self).named@ + colors_references(attachments@.take(i as int)),
            decreases attachments.len() - i,
        {
            self.push_color(&attachments[i]);
            assert(attachments@.take(i as int + 1).drop_last() =~= attachments@.take(i as int));
            assert(self.named@ =~= old(self).named@ + colors_references(
                attachments@.take(i as int + 1),
            ));
            i += 1;
        }
        assert(attachments@.take(i as int) =~= attachments@);
    }

    fn push_patch(&mut self, draw: Option<PatchDraw>)
        requires
            old(self).wf(),
        ensures
            final(self).wf(),
            final(self).named@ == old(self).named@ + patch_references(draw),
    {
        if let Some(draw) = draw {
            let (patch_indices, control_points, arguments) = match draw {
                PatchDraw::Direct { patch_indices, control_point_indices, .. } => {
                    (patch_indices, control_point_indices, None)
                },
                PatchDraw::Indirect { patch_indices, control_point_indices, arguments } => {
                    (patch_indices, control_point_indices, Some(arguments))
                },
            };
            self.push(patch_indices.reference);
            if let Some(control_points) = control_points {
                self.push(control_points.reference);
            }
            if let Some(arguments) = arguments {
                self.push(arguments.reference);
            }
        }
        assert(self.named@ =~= old(self).named@ + patch_references(draw));
    }

    fn push_tile(&mut self, bind: &Option<TileBind>)
        requires
            old(self).wf(),
        ensures
            final(self).wf(),
            final(self).named@ == old(self).named@ + tile_references(*bind),
    {
        assert(old(self).named@ =~= old(self).named@ + Seq::<u32>::empty());
        match bind {
            Some(TileBind::Buffer { bindings, .. }) => self.push_each(bindings),
            Some(TileBind::Texture { references, .. }) => self.push_each(references),
            Some(TileBind::Sampler { bindings, .. }) => self.push_each(bindings),
            _ => {},
        }
    }

    fn push_bound(&mut self, command: &RenderCommand)
        requires
            old(self).wf(),
        ensures
            final(self).wf(),
            final(self).named@ == old(self).named@ + bound_references(*command),
    {
        self.push(command.pipeline_ref);
        self.push(command.buffer_ref);
        self.push_each(&command.buffer_binds);
        self.push(command.texture_ref);
        self.push_each(&command.ref_binds);
        self.push(command.sampler_ref);
        self.push_each(&command.participation_resources);
        self.push_each(&command.barrier_resources);
        assert(self.named@ =~= old(self).named@ + bound_references(*command));
    }

    fn push_drawn(&mut self, command: &RenderCommand)
        requires
            old(self).wf(),
        ensures
            final(self).wf(),
            final(self).named@ == old(self).named@ + drawn_references(*command),
    {
        self.push(command.index_buffer_ref);
        self.push(command.indirect_buffer_ref);
        self.push(command.pass_visibility_result_buffer_ref);
        self.push(command.depth_stencil_ref);
        self.push(command.indirect_command_buffer_ref);
        self.push(command.icb_args_buffer_ref);
        assert(self.named@ =~= old(self).named@ + drawn_references(*command));
    }

    fn push_attached(&mut self, command: &RenderCommand)
        requires
            old(self).wf(),
        ensures
            final(self).wf(),
            final(self).named@ == old(self).named@ + attached_references(*command),
    {
        self.push_colors(&command.color_attachments);
        self.push_color(&command.color0);
        self.push(command.depth.texture_ref);
        self.push(command.depth.resolve_texture_ref);
        self.push(command.stencil.texture_ref);
        self.push(command.stencil.resolve_texture_ref);
        assert(self.named@ =~= old(self).named@ + attached_references(*command));
    }

    fn push_render(&mut self, command: &RenderCommand)
        requires
            old(self).wf(),
        ensures
            final(self).wf(),
            final(self).named@ == old(self).named@ + render_references(*command),
    {
        self.push_bound(command);
        self.push_drawn(command);
        self.push_attached(command);
        self.push_patch(command.patch_draw);
        self.push_tile(&command.tile_bind);
        assert(self.named@ =~= old(self).named@ + render_references(*command));
    }

    fn push_compute(&mut self, command: &ComputeCommand)
        requires
            old(self).wf(),
        ensures
            final(self).wf(),
            final(self).named@ == old(self).named@ + compute_references(*command),
    {
        self.push(command.pipeline_ref);
        self.push_each(&command.buffers);
        self.push_each(&command.textures);
        self.push_each(&command.samplers);
        self.push_each(&command.resources);
        self.push(command.indirect_buffer_ref);
        self.push(command.stage_in_indirect_buffer_ref);
        self.push(command.condition_buffer_ref);
        self.push(command.indirect_command_buffer_ref);
        self.push(command.indirect_command_arguments_buffer_ref);
        assert(self.named@ =~= old(self).named@ + compute_references(*command));
    }

    fn push_blit(&mut self, command: &BlitCommand)
        requires
            old(self).wf(),
        ensures
            final(self).wf(),
            final(self).named@ == old(self).named@ + blit_references(*command),
    {
        self.push(command.source);
        self.push(command.destination);
        self.push(command.resource);
        self.push(command.buffer);
        self.push(command.texture);
        self.push(command.fill_bytes_ref);
        assert(self.named@ =~= old(self).named@ + blit_references(*command));
    }

    fn push_info(&mut self, operation: &InfoOperation)
        requires
            old(self).wf(),
        ensures
            final(self).wf(),
            final(self).named@ == old(self).named@ + info_references(*operation),
    {
        match *operation {
            InfoOperation::PipelineState { pipeline_ref, reply, .. } => {
                self.push(pipeline_ref);
                self.push(reply.buffer);
            },
            InfoOperation::ResourceHost { resource, reply, .. } => {
                self.push(resource);
                self.push(reply.buffer);
            },
            InfoOperation::SamplerHost { sampler, reply } => {
                self.push(sampler);
                self.push(reply.buffer);
            },
            InfoOperation::RenderPipelineImageblock { pipeline, reply, .. }
            | InfoOperation::ComputePipelineImageblock { pipeline, reply, .. } => {
                self.push(pipeline);
                self.push(reply.buffer);
            },
            InfoOperation::RateMapInfo { rate_map, reply, .. }
            | InfoOperation::MapCoordinate { rate_map, reply, .. } => {
                self.push(rate_map);
                self.push(reply.buffer);
            },
            InfoOperation::CopyRateParameterBuffer { rate_map, destination, .. } => {
                self.push(rate_map);
                self.push(destination);
            },
            InfoOperation::HeapHost { reply, .. }
            | InfoOperation::HeapTextureSizeAndAlign { reply, .. } => {
                self.push(reply.buffer);
            },
        }
        assert(self.named@ =~= old(self).named@ + info_references(*operation));
    }

    fn push_record(&mut self, record: &DecodedReplacementRecord)
        requires
            old(self).wf(),
        ensures
            final(self).wf(),
            final(self).named@ == old(self).named@ + record_references(*record),
    {
        assert(old(self).named@ =~= old(self).named@ + Seq::<u32>::empty());
        match record {
            DecodedReplacementRecord::Render(command) => self.push_render(command),
            DecodedReplacementRecord::Compute(command) => self.push_compute(command),
            DecodedReplacementRecord::Blit(command) => self.push_blit(command),
            DecodedReplacementRecord::Info(operation) => self.push_info(operation),
            DecodedReplacementRecord::Event(_) => {},
        }
    }

    fn push_records(&mut self, records: &Vec<DecodedReplacementRecord>)
        requires
            old(self).wf(),
        ensures
            final(self).wf(),
            final(self).named@ == old(self).named@ + records_references(records@),
    {
        let mut i: usize = 0;
        assert(self.named@ =~= old(self).named@ + records_references(records@.take(0)));
        while i < records.len()
            invariant
                i <= records@.len(),
                self.wf(),
                self.named@ == old(self).named@ + records_references(records@.take(i as int)),
            decreases records.len() - i,
        {
            self.push_record(&records[i]);
            assert(records@.take(i as int + 1).drop_last() =~= records@.take(i as int));
            assert(self.named@ =~= old(self).named@ + records_references(
                records@.take(i as int + 1),
            ));
            i += 1;
        }
        assert(records@.take(i as int) =~= records@);
    }

    fn push_segments(&mut self, segments: &Vec<DecodedReplacementSegment>)
        requires
            old(self).wf(),
        ensures
            final(self).wf(),
            final(self).named@ == old(self).named@ + segments_references(segments@),
    {
        let mut i: usize = 0;
        assert(self.named@ =~= old(self).named@ + segments_references(segments@.take(0)));
        while i < segments.len()
            invariant
                i <= segments@.len(),
                self.wf(),
                self.named@ == old(self).named@ + segments_references(segments@.take(i as int)),
            decreases segments.len() - i,
        {
            self.push_records(&segments[i].records);
            assert(segments@.take(i as int + 1).drop_last() =~= segments@.take(i as int));
            assert(self.named@ =~= old(self).named@ + segments_references(
                segments@.take(i as int + 1),
            ));
            i += 1;
        }
        assert(segments@.take(i as int) =~= segments@);
    }
}

/// Collects every object-table slot that decoded records name, once each, where
/// it is first named.
pub fn replacement_stream_object_manifest(streams: &Vec<DecodedReplacementStream>) -> (manifest:
    ReplacementStreamObjectManifest)
    ensures
        manifest.objects@ == first_named(streams_references(streams@)),
{
    let mut collector = Collector::new();
    let mut i: usize = 0;
    while i < streams.len()
        invariant
            i <= streams@.len(),
            collector.wf(),
            collector.named@ == streams_references(streams@.take(i as int)),
        decreases streams.len() - i,
    {
        collector.push_segments(&streams[i].segments);
        assert(streams@.take(i as int + 1).drop_last() =~= streams@.take(i as int));
        i += 1;
    }
    assert(streams@.take(i as int) =~= streams@);
    ReplacementStreamObjectManifest { objects: collector.objects }
}

/// A manifest holds a slot if and only if a record names it and it is not slot
/// 0, and it holds no slot twice.
pub proof fn lemma_manifest_holds_what_is_named(references: Seq<u32>)
    ensures
        first_named(references).no_duplicates(),
        forall|reference: u32| #[trigger]
            first_named(references).contains(reference) <==> reference != 0
                && references.contains(reference),
    decreases references.len(),
{
    if references.len() > 0 {
        let earlier = references.drop_last();
        let last = references.last();
        lemma_manifest_holds_what_is_named(earlier);
        let objects = first_named(earlier);
        assert forall|reference: u32|
            references.contains(reference) <==> earlier.contains(reference) || reference
                == last by {
            if earlier.contains(reference) {
                let at = choose|at: int| 0 <= at < earlier.len() && earlier[at] == reference;
                assert(references[at] == reference);
            }
            if references.contains(reference) {
                let at = choose|at: int| 0 <= at < references.len() && references[at] == reference;
                if at < earlier.len() {
                    assert(earlier[at] == reference);
                }
            }
            assert(references[references.len() - 1] == last);
        }
        assert forall|reference: u32| #[trigger]
            first_named(references).contains(reference) <==> reference != 0
                && references.contains(reference) by {
            assert(objects.contains(reference) <==> reference != 0 && earlier.contains(reference));
            if last != 0 && !objects.contains(last) {
                let pushed = objects.push(last);
                assert(pushed[objects.len() as int] == last);
                if objects.contains(reference) {
                    let at = choose|at: int| 0 <= at < objects.len() && objects[at] == reference;
                    assert(pushed[at] == reference);
                }
            }
        }
    }
}

/// Those of some slots that others do not hold, in order.
pub open spec fn not_among(objects: Seq<u32>, held: Seq<u32>) -> Seq<u32> {
    objects.filter(|reference: u32| !held.contains(reference))
}

proof fn lemma_not_among(objects: Seq<u32>, held: Seq<u32>, reference: u32)
    ensures
        not_among(objects, held).contains(reference) <==> objects.contains(reference)
            && !held.contains(reference),
    decreases objects.len(),
{
    reveal(Seq::filter);
    if objects.len() > 0 {
        let earlier = objects.drop_last();
        lemma_not_among(earlier, held, reference);
        assert(objects =~= earlier.push(objects.last()));
        assert(objects.contains(reference) <==> earlier.contains(reference) || objects.last()
            == reference) by {
            lemma_contains_pushed(earlier, objects.last(), reference);
        }
        lemma_contains_pushed(not_among(earlier, held), objects.last(), reference);
    }
}

proof fn lemma_contains_pushed(objects: Seq<u32>, last: u32, reference: u32)
    ensures
        objects.push(last).contains(reference) <==> objects.contains(reference) || last
            == reference,
{
    if objects.contains(reference) {
        let at = choose|at: int| 0 <= at < objects.len() && objects[at] == reference;
        assert(objects.push(last)[at] == reference);
    }
    assert(objects.push(last)[objects.len() as int] == last);
}

proof fn lemma_first_named_of_two(references: Seq<u32>, more: Seq<u32>)
    ensures
        first_named(references + more) == first_named(references) + not_among(
            first_named(more),
            first_named(references),
        ),
    decreases more.len(),
{
    let held = first_named(references);
    reveal(Seq::filter);
    if more.len() == 0 {
        assert(references + more =~= references);
        assert(held + not_among(first_named(more), held) =~= held);
    } else {
        let earlier = more.drop_last();
        let last = more.last();
        lemma_first_named_of_two(references, earlier);
        assert((references + more).drop_last() =~= references + earlier);
        let objects = first_named(earlier);
        let added = not_among(objects, held);
        lemma_not_among(objects, held, last);
        assert((held + added).contains(last) <==> held.contains(last) || added.contains(last)) by {
            if held.contains(last) {
                let at = choose|at: int| 0 <= at < held.len() && held[at] == last;
                assert((held + added)[at] == last);
            }
            if added.contains(last) {
                let at = choose|at: int| 0 <= at < added.len() && added[at] == last;
                assert((held + added)[held.len() + at] == last);
            }
        }
        if last != 0 && !objects.contains(last) {
            assert(objects.push(last).drop_last() =~= objects);
            if !held.contains(last) {
                assert(not_among(objects.push(last), held) == added.push(last));
                assert(held + added.push(last) =~= (held + added).push(last));
            }
        }
    }
}

proof fn lemma_references_of_two(
    streams: Seq<DecodedReplacementStream>,
    more: Seq<DecodedReplacementStream>,
)
    ensures
        streams_references(streams + more) == streams_references(streams) + streams_references(
            more,
        ),
    decreases more.len(),
{
    if more.len() == 0 {
        assert(streams + more =~= streams);
        assert(streams_references(streams) + streams_references(more) =~= streams_references(
            streams,
        ));
    } else {
        assert((streams + more).drop_last() =~= streams + more.drop_last());
        lemma_references_of_two(streams, more.drop_last());
        assert(streams_references(streams + more) =~= streams_references(streams)
            + streams_references(more));
    }
}

/// The manifest of two lists of streams is the manifest of the first, and then
/// what that of the second adds.
pub proof fn lemma_manifest_of_two_lists(
    streams: Seq<DecodedReplacementStream>,
    more: Seq<DecodedReplacementStream>,
)
    ensures
        first_named(streams_references(streams + more)) == first_named(
            streams_references(streams),
        ) + not_among(
            first_named(streams_references(more)),
            first_named(streams_references(streams)),
        ),
{
    lemma_references_of_two(streams, more);
    lemma_first_named_of_two(streams_references(streams), streams_references(more));
}

proof fn lemma_named_by_either(one: Seq<u32>, other: Seq<u32>, reference: u32)
    ensures
        (one + other).contains(reference) <==> one.contains(reference) || other.contains(reference),
{
    let both = one + other;
    if one.contains(reference) {
        let i = choose|i: int| 0 <= i < one.len() && one[i] == reference;
        assert(both[i] == reference);
    }
    if other.contains(reference) {
        let i = choose|i: int| 0 <= i < other.len() && other[i] == reference;
        assert(both[one.len() + i] == reference);
    }
    if both.contains(reference) {
        let i = choose|i: int| 0 <= i < both.len() && both[i] == reference;
        if i < one.len() {
            assert(one[i] == reference);
        } else {
            assert(other[i - one.len()] == reference);
        }
    }
}

proof fn lemma_each_is_named<T: Naming>(items: Seq<T>, reference: u32)
    ensures
        names_of(items).contains(reference) <==> exists|i: int|
            0 <= i < items.len() && (#[trigger] items[i]).names() == reference,
{
    let names = names_of(items);
    if names.contains(reference) {
        let i = choose|i: int| 0 <= i < names.len() && names[i] == reference;
        assert(items[i].names() == reference);
    }
    if exists|i: int| 0 <= i < items.len() && (#[trigger] items[i]).names() == reference {
        let i = choose|i: int| 0 <= i < items.len() && (#[trigger] items[i]).names() == reference;
        assert(names[i] == reference);
    }
}

proof fn lemma_colors_are_named(attachments: Seq<ColorAttachment>, reference: u32)
    ensures
        colors_references(attachments).contains(reference) <==> exists|i: int|
            0 <= i < attachments.len() && ((#[trigger] attachments[i]).texture_ref == reference
                || attachments[i].resolve_texture_ref == reference),
    decreases attachments.len(),
{
    if attachments.len() > 0 {
        let earlier = attachments.drop_last();
        let last = attachments.last();
        lemma_colors_are_named(earlier, reference);
        lemma_named_by_either(colors_references(earlier), color_references(last), reference);
        let two = color_references(last);
        assert(two[0] == last.texture_ref && two[1] == last.resolve_texture_ref);
        assert(two.contains(reference) <==> last.texture_ref == reference
            || last.resolve_texture_ref == reference);
        assert forall|i: int| 0 <= i < earlier.len() implies #[trigger] earlier[i]
            == attachments[i] by {}
        assert(attachments[attachments.len() - 1] == last);
        if exists|i: int|
            0 <= i < attachments.len() && ((#[trigger] attachments[i]).texture_ref == reference
                || attachments[i].resolve_texture_ref == reference) {
            let i = choose|i: int|
                0 <= i < attachments.len() && ((#[trigger] attachments[i]).texture_ref == reference
                    || attachments[i].resolve_texture_ref == reference);
            if i < earlier.len() {
                assert(earlier[i] == attachments[i]);
            }
        }
    }
}

/// A render record names the slot of everything that it binds, draws with,
/// tests with and attaches.
#[verifier::spinoff_prover]
pub proof fn lemma_a_render_record_names_what_it_uses(c: RenderCommand)
    ensures
        ({
            let named = render_references(c);
            &&& named.contains(c.pipeline_ref)
            &&& named.contains(c.buffer_ref)
            &&& named.contains(c.texture_ref)
            &&& named.contains(c.sampler_ref)
            &&& named.contains(c.index_buffer_ref)
            &&& named.contains(c.indirect_buffer_ref)
            &&& named.contains(c.pass_visibility_result_buffer_ref)
            &&& named.contains(c.depth_stencil_ref)
            &&& named.contains(c.indirect_command_buffer_ref)
            &&& named.contains(c.icb_args_buffer_ref)
            &&& named.contains(c.color0.texture_ref)
            &&& named.contains(c.color0.resolve_texture_ref)
            &&& named.contains(c.depth.texture_ref)
            &&& named.contains(c.depth.resolve_texture_ref)
            &&& named.contains(c.stencil.texture_ref)
            &&& named.contains(c.stencil.resolve_texture_ref)
            &&& forall|i: int|
                0 <= i < c.buffer_binds@.len() ==> named.contains(
                    (#[trigger] c.buffer_binds@[i]).buffer_ref,
                )
            &&& forall|i: int|
                0 <= i < c.ref_binds@.len() ==> named.contains(#[trigger] c.ref_binds@[i])
            &&& forall|i: int|
                0 <= i < c.participation_resources@.len() ==> named.contains(
                    #[trigger] c.participation_resources@[i],
                )
            &&& forall|i: int|
                0 <= i < c.barrier_resources@.len() ==> named.contains(
                    #[trigger] c.barrier_resources@[i],
                )
            &&& forall|i: int|
                0 <= i < c.color_attachments@.len() ==> named.contains(
                    (#[trigger] c.color_attachments@[i]).texture_ref,
                ) && named.contains(c.color_attachments@[i].resolve_texture_ref)
        }),
{
    let named = render_references(c);
    assert forall|reference: u32|
        {
            ||| reference == c.pipeline_ref || reference == c.buffer_ref || reference
                == c.texture_ref || reference == c.sampler_ref
            ||| names_of(c.buffer_binds@).contains(reference)
            ||| names_of(c.ref_binds@).contains(reference)
            ||| names_of(c.participation_resources@).contains(reference)
            ||| names_of(c.barrier_resources@).contains(reference)
            ||| drawn_references(c).contains(reference)
            ||| colors_references(c.color_attachments@).contains(reference)
            ||| color_references(c.color0).contains(reference)
            ||| reference == c.depth.texture_ref || reference == c.depth.resolve_texture_ref
            ||| reference == c.stencil.texture_ref || reference == c.stencil.resolve_texture_ref
        } implies #[trigger] named.contains(reference) by {
        let first = seq![c.pipeline_ref, c.buffer_ref];
        assert(first[0] == c.pipeline_ref && first[1] == c.buffer_ref);
        let second = first + names_of(c.buffer_binds@);
        let texture = seq![c.texture_ref];
        assert(texture[0] == c.texture_ref);
        let third = second + texture;
        let fourth = third + names_of(c.ref_binds@);
        let sampler = seq![c.sampler_ref];
        assert(sampler[0] == c.sampler_ref);
        let fifth = fourth + sampler;
        let sixth = fifth + names_of(c.participation_resources@);
        lemma_named_by_either(first, names_of(c.buffer_binds@), reference);
        lemma_named_by_either(second, texture, reference);
        lemma_named_by_either(third, names_of(c.ref_binds@), reference);
        lemma_named_by_either(fourth, sampler, reference);
        lemma_named_by_either(fifth, names_of(c.participation_resources@), reference);
        lemma_named_by_either(sixth, names_of(c.barrier_resources@), reference);
        let colors = colors_references(c.color_attachments@) + color_references(c.color0);
        let deep = seq![
            c.depth.texture_ref,
            c.depth.resolve_texture_ref,
            c.stencil.texture_ref,
            c.stencil.resolve_texture_ref,
        ];
        assert(deep[0] == c.depth.texture_ref && deep[1] == c.depth.resolve_texture_ref);
        assert(deep[2] == c.stencil.texture_ref && deep[3] == c.stencil.resolve_texture_ref);
        lemma_named_by_either(
            colors_references(c.color_attachments@),
            color_references(c.color0),
            reference,
        );
        lemma_named_by_either(colors, deep, reference);
        let bound = bound_references(c);
        let drawn = bound + drawn_references(c);
        let attached = drawn + attached_references(c);
        let patched = attached + patch_references(c.patch_draw);
        lemma_named_by_either(bound, drawn_references(c), reference);
        lemma_named_by_either(drawn, attached_references(c), reference);
        lemma_named_by_either(attached, patch_references(c.patch_draw), reference);
        lemma_named_by_either(patched, tile_references(c.tile_bind), reference);
    }
    let drawn = drawn_references(c);
    assert(drawn[0] == c.index_buffer_ref && drawn[1] == c.indirect_buffer_ref);
    assert(drawn[2] == c.pass_visibility_result_buffer_ref && drawn[3] == c.depth_stencil_ref);
    assert(drawn[4] == c.indirect_command_buffer_ref && drawn[5] == c.icb_args_buffer_ref);
    let color = color_references(c.color0);
    assert(color[0] == c.color0.texture_ref && color[1] == c.color0.resolve_texture_ref);
    assert forall|i: int| 0 <= i < c.buffer_binds@.len() implies named.contains(
        (#[trigger] c.buffer_binds@[i]).buffer_ref,
    ) by {
        assert(c.buffer_binds@[i].names() == c.buffer_binds@[i].buffer_ref);
        lemma_each_is_named(c.buffer_binds@, c.buffer_binds@[i].buffer_ref);
    }
    assert forall|i: int| 0 <= i < c.ref_binds@.len() implies named.contains(
        #[trigger] c.ref_binds@[i],
    ) by {
        assert(c.ref_binds@[i].names() == c.ref_binds@[i]);
        lemma_each_is_named(c.ref_binds@, c.ref_binds@[i]);
    }
    assert forall|i: int| 0 <= i < c.participation_resources@.len() implies named.contains(
        #[trigger] c.participation_resources@[i],
    ) by {
        assert(c.participation_resources@[i].names() == c.participation_resources@[i]);
        lemma_each_is_named(c.participation_resources@, c.participation_resources@[i]);
    }
    assert forall|i: int| 0 <= i < c.barrier_resources@.len() implies named.contains(
        #[trigger] c.barrier_resources@[i],
    ) by {
        assert(c.barrier_resources@[i].names() == c.barrier_resources@[i]);
        lemma_each_is_named(c.barrier_resources@, c.barrier_resources@[i]);
    }
    assert forall|i: int| 0 <= i < c.color_attachments@.len() implies named.contains(
        (#[trigger] c.color_attachments@[i]).texture_ref,
    ) && named.contains(c.color_attachments@[i].resolve_texture_ref) by {
        lemma_colors_are_named(c.color_attachments@, c.color_attachments@[i].texture_ref);
        lemma_colors_are_named(c.color_attachments@, c.color_attachments@[i].resolve_texture_ref);
    }
}

/// A compute record names the slot of everything that it binds and reads, and a
/// blit record those of everything that it copies between or fills.
#[verifier::spinoff_prover]
pub proof fn lemma_a_compute_or_blit_record_names_what_it_uses(c: ComputeCommand, b: BlitCommand)
    ensures
        ({
            let named = compute_references(c);
            &&& named.contains(c.pipeline_ref)
            &&& named.contains(c.indirect_buffer_ref)
            &&& named.contains(c.stage_in_indirect_buffer_ref)
            &&& named.contains(c.condition_buffer_ref)
            &&& named.contains(c.indirect_command_buffer_ref)
            &&& named.contains(c.indirect_command_arguments_buffer_ref)
            &&& forall|i: int|
                0 <= i < c.buffers@.len() ==> named.contains((#[trigger] c.buffers@[i]).ref_)
            &&& forall|i: int|
                0 <= i < c.textures@.len() ==> named.contains((#[trigger] c.textures@[i]).ref_)
            &&& forall|i: int|
                0 <= i < c.samplers@.len() ==> named.contains((#[trigger] c.samplers@[i]).ref_)
            &&& forall|i: int|
                0 <= i < c.resources@.len() ==> named.contains(#[trigger] c.resources@[i])
        }),
        ({
            let named = blit_references(b);
            &&& named.contains(b.source)
            &&& named.contains(b.destination)
            &&& named.contains(b.resource)
            &&& named.contains(b.buffer)
            &&& named.contains(b.texture)
            &&& named.contains(b.fill_bytes_ref)
        }),
{
    let copied = blit_references(b);
    assert(copied[0] == b.source && copied[1] == b.destination && copied[2] == b.resource);
    assert(copied[3] == b.buffer && copied[4] == b.texture && copied[5] == b.fill_bytes_ref);
    let named = compute_references(c);
    let read = seq![
        c.indirect_buffer_ref,
        c.stage_in_indirect_buffer_ref,
        c.condition_buffer_ref,
        c.indirect_command_buffer_ref,
        c.indirect_command_arguments_buffer_ref,
    ];
    assert(read[0] == c.indirect_buffer_ref && read[1] == c.stage_in_indirect_buffer_ref);
    assert(read[2] == c.condition_buffer_ref && read[3] == c.indirect_command_buffer_ref);
    assert(read[4] == c.indirect_command_arguments_buffer_ref);
    assert forall|reference: u32|
        {
            ||| reference == c.pipeline_ref
            ||| names_of(c.buffers@).contains(reference)
            ||| names_of(c.textures@).contains(reference)
            ||| names_of(c.samplers@).contains(reference)
            ||| names_of(c.resources@).contains(reference)
            ||| read.contains(reference)
        } implies #[trigger] named.contains(reference) by {
        let first = seq![c.pipeline_ref];
        assert(first[0] == c.pipeline_ref);
        let second = first + names_of(c.buffers@);
        let third = second + names_of(c.textures@);
        let fourth = third + names_of(c.samplers@);
        let fifth = fourth + names_of(c.resources@);
        lemma_named_by_either(first, names_of(c.buffers@), reference);
        lemma_named_by_either(second, names_of(c.textures@), reference);
        lemma_named_by_either(third, names_of(c.samplers@), reference);
        lemma_named_by_either(fourth, names_of(c.resources@), reference);
        lemma_named_by_either(fifth, read, reference);
    }
    assert forall|i: int| 0 <= i < c.buffers@.len() implies named.contains(
        (#[trigger] c.buffers@[i]).ref_,
    ) by {
        assert(c.buffers@[i].names() == c.buffers@[i].ref_);
        lemma_each_is_named(c.buffers@, c.buffers@[i].ref_);
    }
    assert forall|i: int| 0 <= i < c.textures@.len() implies named.contains(
        (#[trigger] c.textures@[i]).ref_,
    ) by {
        assert(c.textures@[i].names() == c.textures@[i].ref_);
        lemma_each_is_named(c.textures@, c.textures@[i].ref_);
    }
    assert forall|i: int| 0 <= i < c.samplers@.len() implies named.contains(
        (#[trigger] c.samplers@[i]).ref_,
    ) by {
        assert(c.samplers@[i].names() == c.samplers@[i].ref_);
        lemma_each_is_named(c.samplers@, c.samplers@[i].ref_);
    }
    assert forall|i: int| 0 <= i < c.resources@.len() implies named.contains(
        #[trigger] c.resources@[i],
    ) by {
        assert(c.resources@[i].names() == c.resources@[i]);
        lemma_each_is_named(c.resources@, c.resources@[i]);
    }
}

proof fn lemma_records_name_theirs(records: Seq<DecodedReplacementRecord>, i: int, reference: u32)
    requires
        0 <= i < records.len(),
        record_references(records[i]).contains(reference),
    ensures
        records_references(records).contains(reference),
    decreases records.len(),
{
    let earlier = records.drop_last();
    lemma_named_by_either(
        records_references(earlier),
        record_references(records.last()),
        reference,
    );
    if i < records.len() - 1 {
        assert(earlier[i] == records[i]);
        lemma_records_name_theirs(earlier, i, reference);
    }
}

proof fn lemma_segments_name_theirs(
    segments: Seq<DecodedReplacementSegment>,
    i: int,
    reference: u32,
)
    requires
        0 <= i < segments.len(),
        records_references(segments[i].records@).contains(reference),
    ensures
        segments_references(segments).contains(reference),
    decreases segments.len(),
{
    let earlier = segments.drop_last();
    lemma_named_by_either(
        segments_references(earlier),
        records_references(segments.last().records@),
        reference,
    );
    if i < segments.len() - 1 {
        assert(earlier[i] == segments[i]);
        lemma_segments_name_theirs(earlier, i, reference);
    }
}

/// What any record of any segment of any stream names is named by the streams,
/// and so stands in their manifest, unless it is slot 0.
pub proof fn lemma_no_record_is_left_out(
    streams: Seq<DecodedReplacementStream>,
    stream: int,
    segment: int,
    record: int,
    reference: u32,
)
    requires
        0 <= stream < streams.len(),
        0 <= segment < streams[stream].segments@.len(),
        0 <= record < streams[stream].segments@[segment].records@.len(),
        record_references(streams[stream].segments@[segment].records@[record]).contains(reference),
    ensures
        streams_references(streams).contains(reference),
        reference != 0 ==> first_named(streams_references(streams)).contains(reference),
    decreases streams.len(),
{
    let earlier = streams.drop_last();
    lemma_named_by_either(
        streams_references(earlier),
        segments_references(streams.last().segments@),
        reference,
    );
    if stream < streams.len() - 1 {
        assert(earlier[stream] == streams[stream]);
        lemma_no_record_is_left_out(earlier, stream, segment, record, reference);
    } else {
        let segments = streams[stream].segments@;
        lemma_records_name_theirs(segments[segment].records@, record, reference);
        lemma_segments_name_theirs(segments, segment, reference);
    }
    lemma_manifest_holds_what_is_named(streams_references(streams));
}

} // verus!
