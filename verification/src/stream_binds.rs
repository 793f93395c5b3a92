//! Bind records of a render stream.

use vstd::prelude::*;

use crate::exec_result::{counted, list_once, listed, ExecResult, ExecResultView};
use crate::refusals::{
    BindClass, BindSlotPastTable, BufferOffsetSlotPastTable, ShaderStage, StreamRefusal,
};
use crate::slots::{
    distinct_slots, find_slot, lemma_binding_a_slot, lemma_entries_keep_slots_distinct,
    lemma_entries_occupy_their_slots, lemma_position_of, occupant, position_of, put_entry,
    with_bind, with_entries, Slotted,
};
use crate::stream_accum::{
    first_refusal, AccumView, BindStateView, BufferBind, SamplerBind, StreamAccum, TextureBind,
};

verus! {

/// An entry of a bind record: what it puts into the slot it comes to.
pub trait BindEntry: Copy {
    /// What the slot holds afterwards.
    type Bind: Slotted;

    /// What the entry puts into a slot; nothing empties the slot.
    spec fn bound_at(self, index: u32) -> Option<Self::Bind>;

    /// What the entry puts into a slot.
    fn bind_at(&self, index: u32) -> (bind: Option<Self::Bind>)
        ensures
            bind == self.bound_at(index),
    ;
}

/// An entry of a buffer bind.
#[derive(Clone, Copy, Debug, PartialEq, Eq, Structural)]
pub struct BufferEntry {
    pub buffer_ref: u32,
    /// What the reference resolves to.
    pub resource: Option<u64>,
    pub offset: u64,
    /// The stride, in a record that states strides.
    pub attribute_stride: Option<u64>,
}

impl BindEntry for BufferEntry {
    type Bind = BufferBind;

    open spec fn bound_at(self, index: u32) -> Option<BufferBind> {
        if self.buffer_ref == 0 {
            None
        } else {
            Some(
                BufferBind {
                    index,
                    buffer_ref: self.buffer_ref,
                    resource: self.resource,
                    offset: self.offset,
                    attribute_stride: self.attribute_stride,
                },
            )
        }
    }

    fn bind_at(&self, index: u32) -> (bind: Option<BufferBind>) {
        if self.buffer_ref == 0 {
            return None;
        }
        Some(
            BufferBind {
                index,
                buffer_ref: self.buffer_ref,
                resource: self.resource,
                offset: self.offset,
                attribute_stride: self.attribute_stride,
            },
        )
    }
}

/// An entry of a texture bind.
#[derive(Clone, Copy, Debug, PartialEq, Eq, Structural)]
pub struct TextureEntry {
    pub texture_ref: u32,
    /// What the reference resolves to.
    pub resource: Option<u64>,
    /// The mapping that the reference names through the mapper.
    pub mapper: Option<u32>,
    /// Whether the reference is itself a mapping.
    pub backing: bool,
}

impl BindEntry for TextureEntry {
    type Bind = TextureBind;

    open spec fn bound_at(self, index: u32) -> Option<TextureBind> {
        if self.texture_ref == 0 {
            None
        } else {
            Some(TextureBind { index, texture_ref: self.texture_ref, resource: self.resource })
        }
    }

    fn bind_at(&self, index: u32) -> (bind: Option<TextureBind>) {
        if self.texture_ref == 0 {
            return None;
        }
        Some(TextureBind { index, texture_ref: self.texture_ref, resource: self.resource })
    }
}

/// An entry of a sampler bind.
#[derive(Clone, Copy, Debug, PartialEq, Eq)]
pub struct SamplerEntry {
    pub sampler_ref: u32,
    /// Single-precision bits of the clamp, in a record that states clamps.
    pub lod_clamp: Option<(u32, u32)>,
}

impl BindEntry for SamplerEntry {
    type Bind = SamplerBind;

    open spec fn bound_at(self, index: u32) -> Option<SamplerBind> {
        if self.sampler_ref == 0 {
            None
        } else {
            Some(SamplerBind { index, sampler_ref: self.sampler_ref, lod_clamp: self.lod_clamp })
        }
    }

    fn bind_at(&self, index: u32) -> (bind: Option<SamplerBind>) {
        if self.sampler_ref == 0 {
            return None;
        }
        Some(SamplerBind { index, sampler_ref: self.sampler_ref, lod_clamp: self.lod_clamp })
    }
}

/// How many entries of a record fit into a table.
pub open spec fn fitting(first: u32, count: nat, table: u32) -> nat {
    if first >= table {
        0
    } else if count <= table - first {
        count
    } else {
        (table - first) as nat
    }
}

/// What the fitting entries of a record put into their slots.
pub open spec fn bound_entries<E: BindEntry>(entries: Seq<E>, first: u32, count: nat) -> Seq<
    Option<E::Bind>,
> {
    Seq::new(count, |i: int| entries[i].bound_at((first + i) as u32))
}

/// How many slots entries empty.
pub open spec fn emptied<B>(entries: Seq<Option<B>>) -> nat
    decreases entries.len(),
{
    if entries.len() == 0 {
        0
    } else {
        emptied(entries.drop_last()) + if entries.last() is None {
            1nat
        } else {
            0nat
        }
    }
}

/// What a record reaches past its table.
pub open spec fn past_table(stage: ShaderStage, class: BindClass, first: u32, count: nat) -> Option<
    BindSlotPastTable,
> {
    let table = class.table_of();
    let fits = fitting(first, count, table);
    if fits < count {
        Some(
            BindSlotPastTable {
                class,
                stage,
                index: if first >= table {
                    first
                } else {
                    table
                },
                slots: (count - fits) as u32,
            },
        )
    } else {
        None
    }
}

/// The slots that a record reaches, whether or not the table has them.
pub open spec fn reach_of(first: u32, count: nat) -> u32 {
    if first + count <= u32::MAX {
        (first + count) as u32
    } else {
        u32::MAX
    }
}

/// What a bind record came to.
#[derive(Clone, Copy, Debug, PartialEq, Eq)]
pub struct BindsApplied {
    /// How many slots it emptied.
    pub cleared: u32,
    /// What it reached past its table.
    pub past: Option<BindSlotPastTable>,
    /// The slots it reached, unless it names none.
    pub reach: Option<u32>,
}

proof fn lemma_emptied_is_bounded<B>(entries: Seq<Option<B>>)
    ensures
        emptied(entries) <= entries.len(),
    decreases entries.len(),
{
    if entries.len() > 0 {
        lemma_emptied_is_bounded(entries.drop_last());
    }
}

/// Applies the entries of a bind record to the slots from `first` on: a zero
/// reference empties its slot, and any other replaces what the slot held. The
/// record stops at the end of its table.
pub fn apply_binds<E: BindEntry>(
    entries: &Vec<E>,
    first: u32,
    stage: ShaderStage,
    class: BindClass,
    list: &mut Vec<E::Bind>,
) -> (applied: BindsApplied)
    requires
        entries@.len() <= u32::MAX,
    ensures
        ({
            let fits = fitting(first, entries@.len(), class.table_of());
            let bound = bound_entries(entries@, first, fits);
            &&& final(list)@ == with_entries(old(list)@, first as int, bound)
            &&& applied.cleared == emptied(bound)
            &&& applied.past == past_table(stage, class, first, entries@.len())
            &&& applied.reach == if entries@.len() == 0 {
                None
            } else {
                Some(reach_of(first, entries@.len()))
            }
        }),
{
    let table = class.table();
    let count: u32 = entries.len() as u32;
    let reach = if count == 0 {
        None
    } else {
        Some(first.saturating_add(count))
    };
    let ghost fits = fitting(first, entries@.len(), class.table_of());
    let mut cleared: u32 = 0;
    let mut i: u32 = 0;
    assert(bound_entries(entries@, first, 0) =~= Seq::<Option<E::Bind>>::empty());
    while i < count
        invariant
            count == entries@.len(),
            table == class.table_of(),
            i <= count,
            i <= fits,
            fits == fitting(first, entries@.len(), table),
            cleared == emptied(bound_entries(entries@, first, i as nat)),
            cleared <= i,
            list@ == with_entries(
                old(list)@,
                first as int,
                bound_entries(entries@, first, i as nat),
            ),
            reach == if entries@.len() == 0 {
                None
            } else {
                Some(reach_of(first, entries@.len()))
            },
        decreases count - i,
    {
        if first >= table || i >= table - first {
            let index = if first >= table {
                first
            } else {
                table
            };
            return BindsApplied {
                cleared,
                past: Some(BindSlotPastTable { class, stage, index, slots: count - i }),
                reach,
            };
        }
        let index: u32 = first + i;
        let bind = entries[i as usize].bind_at(index);
        proof {
            let longer = bound_entries(entries@, first, (i + 1) as nat);
            assert(longer.drop_last() =~= bound_entries(entries@, first, i as nat));
            assert(longer.last() == bind);
        }
        if bind.is_none() {
            cleared += 1;
        }
        put_entry(list, index, bind);
        i += 1;
    }
    BindsApplied { cleared, past: None, reach }
}

/// A record that writes an argument table.
#[derive(Debug, PartialEq, Eq)]
#[allow(inconsistent_fields)]
pub enum BindRecord {
    Buffers { stage: ShaderStage, first: u32, entries: Vec<BufferEntry> },
    Textures { stage: ShaderStage, first: u32, entries: Vec<TextureEntry> },
    Samplers { stage: ShaderStage, first: u32, entries: Vec<SamplerEntry> },
    RebindBufferOffset { stage: ShaderStage, index: u32, offset: u64, stride: Option<u64> },
}

impl BindRecord {
    /// How many entries the record has.
    pub open spec fn count(self) -> nat {
        match self {
            BindRecord::Buffers { entries, .. } => entries@.len(),
            BindRecord::Textures { entries, .. } => entries@.len(),
            BindRecord::Samplers { entries, .. } => entries@.len(),
            BindRecord::RebindBufferOffset { .. } => 0,
        }
    }
}

/// What became of a bind record.
#[derive(Clone, Copy, Debug, PartialEq, Eq)]
pub enum BindOutcome {
    Bound(BindsApplied),
    OffsetMoved,
    OffsetPastTable(BufferOffsetSlotPastTable),
    /// The slot holds no buffer whose offset could move.
    OffsetUnbound,
}

/// What a texture entry adds to the textures and mappings of a submission.
pub open spec fn texture_noted(
    refs: Seq<u32>,
    mappings: Seq<u32>,
    entry: TextureEntry,
) -> (Seq<u32>, Seq<u32>) {
    if entry.texture_ref == 0 {
        (refs, mappings)
    } else {
        (
            listed(refs, entry.texture_ref),
            match entry.mapper {
                Some(mapping) => listed(mappings, mapping),
                None => if entry.backing {
                    listed(mappings, entry.texture_ref)
                } else {
                    mappings
                },
            },
        )
    }
}

/// What texture entries add to the textures and mappings of a submission.
pub open spec fn textures_noted(
    refs: Seq<u32>,
    mappings: Seq<u32>,
    entries: Seq<TextureEntry>,
) -> (Seq<u32>, Seq<u32>)
    decreases entries.len(),
{
    if entries.len() == 0 {
        (refs, mappings)
    } else {
        let earlier = textures_noted(refs, mappings, entries.drop_last());
        texture_noted(earlier.0, earlier.1, entries.last())
    }
}

fn note_textures(entries: &Vec<TextureEntry>, fits: usize, out: &mut ExecResult)
    requires
        fits <= entries@.len(),
    ensures
        ({
            let noted = textures_noted(
                old(out)@.texture_refs,
                old(out)@.mapper_ref_texture_mappings,
                entries@.take(fits as int),
            );
            final(out)@ == (ExecResultView {
                texture_refs: noted.0,
                mapper_ref_texture_mappings: noted.1,
                ..old(out)@
            })
        }),
{
    let mut i: usize = 0;
    while i < fits
        invariant
            i <= fits <= entries@.len(),
            ({
                let noted = textures_noted(
                    old(out)@.texture_refs,
                    old(out)@.mapper_ref_texture_mappings,
                    entries@.take(i as int),
                );
                out@ == (ExecResultView {
                    texture_refs: noted.0,
                    mapper_ref_texture_mappings: noted.1,
                    ..old(out)@
                })
            }),
        decreases fits - i,
    {
        assert(entries@.take(i as int + 1).drop_last() =~= entries@.take(i as int));
        let entry = entries[i];
        if entry.texture_ref != 0 {
            list_once(&mut out.texture_refs, entry.texture_ref);
            if let Some(mapping) = entry.mapper {
                list_once(&mut out.mapper_ref_texture_mappings, mapping);
            } else if entry.backing {
                list_once(&mut out.mapper_ref_texture_mappings, entry.texture_ref);
            }
        }
        i += 1;
    }
}

/// The outcome of the entries of a bind record.
pub open spec fn entries_outcome<E: BindEntry>(
    stage: ShaderStage,
    class: BindClass,
    first: u32,
    entries: Seq<E>,
) -> BindsApplied {
    BindsApplied {
        cleared: emptied(
            bound_entries(entries, first, fitting(first, entries.len(), class.table_of())),
        ) as u32,
        past: past_table(stage, class, first, entries.len()),
        reach: if entries.len() == 0 {
            None
        } else {
            Some(reach_of(first, entries.len()))
        },
    }
}

/// A table after the entries of a bind record.
pub open spec fn table_after<E: BindEntry>(
    table: Seq<E::Bind>,
    class: BindClass,
    first: u32,
    entries: Seq<E>,
) -> Seq<E::Bind> {
    with_entries(
        table,
        first as int,
        bound_entries(entries, first, fitting(first, entries.len(), class.table_of())),
    )
}

/// What a stream cannot carry, after a bind record.
pub open spec fn refused_after(
    held: Option<StreamRefusal>,
    past: Option<BindSlotPastTable>,
) -> Option<StreamRefusal> {
    match past {
        Some(over) => first_refusal(held, StreamRefusal::Bind(over)),
        None => held,
    }
}

/// A buffer table after a rebind of one slot's offset. A record without a
/// stride leaves the slot's stride as it is.
pub open spec fn offset_moved(
    table: Seq<BufferBind>,
    index: u32,
    offset: u64,
    stride: Option<u64>,
) -> Option<Seq<BufferBind>> {
    match position_of(table, index) {
        None => None,
        Some(at) => Some(
            table.update(
                at,
                BufferBind {
                    offset,
                    attribute_stride: match stride {
                        Some(stride) => Some(stride),
                        None => table[at].attribute_stride,
                    },
                    ..table[at]
                },
            ),
        ),
    }
}

/// What a bind record makes of a stream and of its submission's result.
pub open spec fn bind_step(acc: AccumView, out: ExecResultView, record: BindRecord) -> (
    AccumView,
    ExecResultView,
    BindOutcome,
) {
    match record {
        BindRecord::Buffers { stage, first, entries } => {
            let applied = entries_outcome(stage, BindClass::Buffer, first, entries@);
            let state = match stage {
                ShaderStage::Vertex => BindStateView {
                    vertex_buffers: table_after(
                        acc.state.vertex_buffers,
                        BindClass::Buffer,
                        first,
                        entries@,
                    ),
                    ..acc.state
                },
                ShaderStage::Fragment => BindStateView {
                    fragment_buffers: table_after(
                        acc.state.fragment_buffers,
                        BindClass::Buffer,
                        first,
                        entries@,
                    ),
                    ..acc.state
                },
            };
            (
                AccumView {
                    state,
                    unrepresentable: refused_after(acc.unrepresentable, applied.past),
                    ..acc
                },
                ExecResultView {
                    buffer_unbinds: counted(out.buffer_unbinds, applied.cleared),
                    ..out
                },
                BindOutcome::Bound(applied),
            )
        },
        BindRecord::Textures { stage, first, entries } => {
            let applied = entries_outcome(stage, BindClass::Texture, first, entries@);
            let state = match stage {
                ShaderStage::Vertex => BindStateView {
                    vertex_textures: table_after(
                        acc.state.vertex_textures,
                        BindClass::Texture,
                        first,
                        entries@,
                    ),
                    ..acc.state
                },
                ShaderStage::Fragment => BindStateView {
                    fragment_textures: table_after(
                        acc.state.fragment_textures,
                        BindClass::Texture,
                        first,
                        entries@,
                    ),
                    ..acc.state
                },
            };
            let noted = textures_noted(
                out.texture_refs,
                out.mapper_ref_texture_mappings,
                entries@.take(
                    fitting(first, entries@.len(), BindClass::Texture.table_of()) as int,
                ),
            );
            (
                AccumView {
                    state,
                    unrepresentable: refused_after(acc.unrepresentable, applied.past),
                    ..acc
                },
                ExecResultView {
                    texture_refs: noted.0,
                    mapper_ref_texture_mappings: noted.1,
                    texture_unbinds: counted(out.texture_unbinds, applied.cleared),
                    ..out
                },
                BindOutcome::Bound(applied),
            )
        },
        BindRecord::Samplers { stage, first, entries } => {
            let applied = entries_outcome(stage, BindClass::Sampler, first, entries@);
            let state = match stage {
                ShaderStage::Vertex => BindStateView {
                    vertex_samplers: table_after(
                        acc.state.vertex_samplers,
                        BindClass::Sampler,
                        first,
                        entries@,
                    ),
                    ..acc.state
                },
                ShaderStage::Fragment => BindStateView {
                    fragment_samplers: table_after(
                        acc.state.fragment_samplers,
                        BindClass::Sampler,
                        first,
                        entries@,
                    ),
                    ..acc.state
                },
            };
            (
                AccumView {
                    state,
                    unrepresentable: refused_after(acc.unrepresentable, applied.past),
                    ..acc
                },
                ExecResultView {
                    sampler_unbinds: counted(out.sampler_unbinds, applied.cleared),
                    ..out
                },
                BindOutcome::Bound(applied),
            )
        },
        BindRecord::RebindBufferOffset { stage, index, offset, stride } => {
            if index >= BindClass::Buffer.table_of() {
                let over = BufferOffsetSlotPastTable { stage, index };
                (
                    AccumView {
                        unrepresentable: first_refusal(
                            acc.unrepresentable,
                            StreamRefusal::BufferOffset(over),
                        ),
                        ..acc
                    },
                    out,
                    BindOutcome::OffsetPastTable(over),
                )
            } else {
                let table = match stage {
                    ShaderStage::Vertex => acc.state.vertex_buffers,
                    ShaderStage::Fragment => acc.state.fragment_buffers,
                };
                match offset_moved(table, index, offset, stride) {
                    None => (acc, out, BindOutcome::OffsetUnbound),
                    Some(moved) => (
                        AccumView {
                            state: match stage {
                                ShaderStage::Vertex => BindStateView {
                                    vertex_buffers: moved,
                                    ..acc.state
                                },
                                ShaderStage::Fragment => BindStateView {
                                    fragment_buffers: moved,
                                    ..acc.state
                                },
                            },
                            ..acc
                        },
                        out,
                        BindOutcome::OffsetMoved,
                    ),
                }
            }
        },
    }
}

fn refuse_past(acc: &mut StreamAccum, past: Option<BindSlotPastTable>)
    ensures
        final(acc)@ == (AccumView {
            unrepresentable: refused_after(old(acc)@.unrepresentable, past),
            ..old(acc)@
        }),
{
    if let Some(over) = past {
        acc.refuse(StreamRefusal::Bind(over));
    }
}

fn move_offset(table: &mut Vec<BufferBind>, index: u32, offset: u64, stride: Option<u64>) -> (moved:
    bool)
    ensures
        match offset_moved(old(table)@, index, offset, stride) {
            Some(after) => moved && final(table)@ == after,
            None => !moved && final(table)@ == old(table)@,
        },
{
    proof {
        lemma_position_of(table@, index);
    }
    match find_slot(table, index) {
        None => false,
        Some(at) => {
            let mut bind = table[at];
            bind.offset = offset;
            if stride.is_some() {
                bind.attribute_stride = stride;
            }
            table.set(at, bind);
            true
        },
    }
}

/// Applies a record that writes an argument table.
pub fn handle_render_binds(acc: &mut StreamAccum, out: &mut ExecResult, record: &BindRecord) -> (
    outcome: BindOutcome)
    requires
        record.count() <= u32::MAX,
    ensures
        (final(acc)@, final(out)@, outcome) == bind_step(old(acc)@, old(out)@, *record),
{
    match record {
        BindRecord::Buffers { stage, first, entries } => {
            proof {
                lemma_emptied_is_bounded(
                    bound_entries(
                        entries@,
                        *first,
                        fitting(*first, entries@.len(), BindClass::Buffer.table_of()),
                    ),
                );
            }
            let applied = match *stage {
                ShaderStage::Vertex => apply_binds(
                    entries,
                    *first,
                    *stage,
                    BindClass::Buffer,
                    &mut acc.state.vertex_buffers,
                ),
                ShaderStage::Fragment => apply_binds(
                    entries,
                    *first,
                    *stage,
                    BindClass::Buffer,
                    &mut acc.state.fragment_buffers,
                ),
            };
            refuse_past(acc, applied.past);
            out.buffer_unbinds = out.buffer_unbinds.saturating_add(applied.cleared);
            BindOutcome::Bound(applied)
        },
        BindRecord::Textures { stage, first, entries } => {
            proof {
                lemma_emptied_is_bounded(
                    bound_entries(
                        entries@,
                        *first,
                        fitting(*first, entries@.len(), BindClass::Texture.table_of()),
                    ),
                );
            }
            let applied = match *stage {
                ShaderStage::Vertex => apply_binds(
                    entries,
                    *first,
                    *stage,
                    BindClass::Texture,
                    &mut acc.state.vertex_textures,
                ),
                ShaderStage::Fragment => apply_binds(
                    entries,
                    *first,
                    *stage,
                    BindClass::Texture,
                    &mut acc.state.fragment_textures,
                ),
            };
            let fits: usize = match applied.past {
                Some(over) => entries.len() - over.slots as usize,
                None => entries.len(),
            };
            note_textures(entries, fits, out);
            refuse_past(acc, applied.past);
            out.texture_unbinds = out.texture_unbinds.saturating_add(applied.cleared);
            BindOutcome::Bound(applied)
        },
        BindRecord::Samplers { stage, first, entries } => {
            proof {
                lemma_emptied_is_bounded(
                    bound_entries(
                        entries@,
                        *first,
                        fitting(*first, entries@.len(), BindClass::Sampler.table_of()),
                    ),
                );
            }
            let applied = match *stage {
                ShaderStage::Vertex => apply_binds(
                    entries,
                    *first,
                    *stage,
                    BindClass::Sampler,
                    &mut acc.state.vertex_samplers,
                ),
                ShaderStage::Fragment => apply_binds(
                    entries,
                    *first,
                    *stage,
                    BindClass::Sampler,
                    &mut acc.state.fragment_samplers,
                ),
            };
            refuse_past(acc, applied.past);
            out.sampler_unbinds = out.sampler_unbinds.saturating_add(applied.cleared);
            BindOutcome::Bound(applied)
        },
        BindRecord::RebindBufferOffset { stage, index, offset, stride } => {
            if *index >= BindClass::Buffer.table() {
                let over = BufferOffsetSlotPastTable { stage: *stage, index: *index };
                acc.refuse(StreamRefusal::BufferOffset(over));
                return BindOutcome::OffsetPastTable(over);
            }
            let moved = match *stage {
                ShaderStage::Vertex => move_offset(
                    &mut acc.state.vertex_buffers,
                    *index,
                    *offset,
                    *stride,
                ),
                ShaderStage::Fragment => move_offset(
                    &mut acc.state.fragment_buffers,
                    *index,
                    *offset,
                    *stride,
                ),
            };
            if moved {
                BindOutcome::OffsetMoved
            } else {
                BindOutcome::OffsetUnbound
            }
        },
    }
}

/// No bind record puts two occupants into one slot.
pub proof fn lemma_binds_keep_slots_distinct(
    acc: AccumView,
    out: ExecResultView,
    record: BindRecord,
)
    requires
        acc.state.wf(),
    ensures
        bind_step(acc, out, record).0.state.wf(),
{
    match record {
        BindRecord::Buffers { stage, first, entries } => {
            let bound = bound_entries(
                entries@,
                first,
                fitting(first, entries@.len(), BindClass::Buffer.table_of()),
            );
            lemma_entries_keep_slots_distinct(acc.state.vertex_buffers, first as int, bound);
            lemma_entries_keep_slots_distinct(acc.state.fragment_buffers, first as int, bound);
        },
        BindRecord::Textures { stage, first, entries } => {
            let bound = bound_entries(
                entries@,
                first,
                fitting(first, entries@.len(), BindClass::Texture.table_of()),
            );
            lemma_entries_keep_slots_distinct(acc.state.vertex_textures, first as int, bound);
            lemma_entries_keep_slots_distinct(acc.state.fragment_textures, first as int, bound);
        },
        BindRecord::Samplers { stage, first, entries } => {
            let bound = bound_entries(
                entries@,
                first,
                fitting(first, entries@.len(), BindClass::Sampler.table_of()),
            );
            lemma_entries_keep_slots_distinct(acc.state.vertex_samplers, first as int, bound);
            lemma_entries_keep_slots_distinct(acc.state.fragment_samplers, first as int, bound);
        },
        BindRecord::RebindBufferOffset { stage, index, offset, stride } => {
            lemma_position_of(acc.state.vertex_buffers, index);
            lemma_position_of(acc.state.fragment_buffers, index);
        },
    }
}

/// A stream keeps the first thing that it could not carry, whatever binds
/// follow.
pub proof fn lemma_the_first_refusal_stands(acc: AccumView, out: ExecResultView, record: BindRecord)
    requires
        acc.unrepresentable is Some,
    ensures
        bind_step(acc, out, record).0.unrepresentable == acc.unrepresentable,
{
}

/// Whether a table is another one after a run of entries: a slot of the run that
/// the table has holds its own entry, or nothing where the entry is of nothing,
/// and every other slot is as it was.
pub open spec fn slot_is_rebound<B: Slotted>(
    before: Seq<B>,
    after: Seq<B>,
    slot: u32,
    first: u32,
    count: nat,
    limit: u32,
    entry: Option<B>,
) -> bool {
    if first <= slot < first + count && slot < limit {
        occupant(after, slot) == entry
    } else {
        occupant(after, slot) == occupant(before, slot)
    }
}

proof fn lemma_table_slot<E: BindEntry>(
    table: Seq<E::Bind>,
    class: BindClass,
    first: u32,
    entries: Seq<E>,
    slot: u32,
)
    requires
        distinct_slots(table),
        forall|i: int, index: u32|
            0 <= i < entries.len() && (#[trigger] entries[i].bound_at(index)) is Some
                ==> entries[i].bound_at(index)->0.slot() == index,
    ensures
        slot_is_rebound(
            table,
            table_after(table, class, first, entries),
            slot,
            first,
            entries.len(),
            class.table_of(),
            entries[slot - first].bound_at(slot),
        ),
{
    let count = fitting(first, entries.len(), class.table_of());
    let binds = bound_entries(entries, first, count);
    if first < class.table_of() {
        assert forall|i: int|
            0 <= i < binds.len() && (#[trigger] binds[i]) is Some implies binds[i]->0.slot()
            == first + i by {
            assert(binds[i] == entries[i].bound_at((first + i) as u32));
        }
        lemma_entries_occupy_their_slots(table, first as int, binds, slot);
    }
}

/// A bind record rebinds the slots that it names in the table of its own stage
/// and kind, each to the entry's own reference, offset, stride or clamp, and
/// touches no other slot and nothing else of the stream. What reaches past the
/// table is refused.
#[verifier::spinoff_prover]
pub proof fn lemma_a_bind_record_binds_what_it_states(
    acc: AccumView,
    out: ExecResultView,
    record: BindRecord,
    slot: u32,
)
    requires
        acc.state.wf(),
    ensures
        ({
            let (after, result, outcome) = bind_step(acc, out, record);
            let state = after.state;
            &&& after == (AccumView {
                state: after.state,
                unrepresentable: after.unrepresentable,
                ..acc
            })
            &&& match record {
                BindRecord::Buffers { stage, first, entries } => {
                    let entry = entries@[slot - first];
                    let bind = if entry.buffer_ref == 0 {
                        None
                    } else {
                        Some(
                            BufferBind {
                                index: slot,
                                buffer_ref: entry.buffer_ref,
                                resource: entry.resource,
                                offset: entry.offset,
                                attribute_stride: entry.attribute_stride,
                            },
                        )
                    };
                    let limit = BindClass::Buffer.table_of();
                    &&& stage is Vertex ==> state == (BindStateView {
                        vertex_buffers: state.vertex_buffers,
                        ..acc.state
                    }) && slot_is_rebound(
                        acc.state.vertex_buffers,
                        state.vertex_buffers,
                        slot,
                        first,
                        entries@.len(),
                        limit,
                        bind,
                    )
                    &&& stage is Fragment ==> state == (BindStateView {
                        fragment_buffers: state.fragment_buffers,
                        ..acc.state
                    }) && slot_is_rebound(
                        acc.state.fragment_buffers,
                        state.fragment_buffers,
                        slot,
                        first,
                        entries@.len(),
                        limit,
                        bind,
                    )
                    &&& acc.unrepresentable is None && entries@.len() > 0 ==> (
                    after.unrepresentable is Some <==> first + entries@.len() > limit)
                },
                BindRecord::Textures { stage, first, entries } => {
                    let entry = entries@[slot - first];
                    let bind = if entry.texture_ref == 0 {
                        None
                    } else {
                        Some(
                            TextureBind {
                                index: slot,
                                texture_ref: entry.texture_ref,
                                resource: entry.resource,
                            },
                        )
                    };
                    let limit = BindClass::Texture.table_of();
                    &&& stage is Vertex ==> state == (BindStateView {
                        vertex_textures: state.vertex_textures,
                        ..acc.state
                    }) && slot_is_rebound(
                        acc.state.vertex_textures,
                        state.vertex_textures,
                        slot,
                        first,
                        entries@.len(),
                        limit,
                        bind,
                    )
                    &&& stage is Fragment ==> state == (BindStateView {
                        fragment_textures: state.fragment_textures,
                        ..acc.state
                    }) && slot_is_rebound(
                        acc.state.fragment_textures,
                        state.fragment_textures,
                        slot,
                        first,
                        entries@.len(),
                        limit,
                        bind,
                    )
                    &&& acc.unrepresentable is None && entries@.len() > 0 ==> (
                    after.unrepresentable is Some <==> first + entries@.len() > limit)
                },
                BindRecord::Samplers { stage, first, entries } => {
                    let entry = entries@[slot - first];
                    let bind = if entry.sampler_ref == 0 {
                        None
                    } else {
                        Some(
                            SamplerBind {
                                index: slot,
                                sampler_ref: entry.sampler_ref,
                                lod_clamp: entry.lod_clamp,
                            },
                        )
                    };
                    let limit = BindClass::Sampler.table_of();
                    &&& stage is Vertex ==> state == (BindStateView {
                        vertex_samplers: state.vertex_samplers,
                        ..acc.state
                    }) && slot_is_rebound(
                        acc.state.vertex_samplers,
                        state.vertex_samplers,
                        slot,
                        first,
                        entries@.len(),
                        limit,
                        bind,
                    )
                    &&& stage is Fragment ==> state == (BindStateView {
                        fragment_samplers: state.fragment_samplers,
                        ..acc.state
                    }) && slot_is_rebound(
                        acc.state.fragment_samplers,
                        state.fragment_samplers,
                        slot,
                        first,
                        entries@.len(),
                        limit,
                        bind,
                    )
                    &&& acc.unrepresentable is None && entries@.len() > 0 ==> (
                    after.unrepresentable is Some <==> first + entries@.len() > limit)
                },
                BindRecord::RebindBufferOffset { .. } => true,
            }
        }),
{
    match record {
        BindRecord::Buffers { stage, first, entries } => {
            lemma_table_slot(acc.state.vertex_buffers, BindClass::Buffer, first, entries@, slot);
            lemma_table_slot(acc.state.fragment_buffers, BindClass::Buffer, first, entries@, slot);
        },
        BindRecord::Textures { stage, first, entries } => {
            lemma_table_slot(acc.state.vertex_textures, BindClass::Texture, first, entries@, slot);
            lemma_table_slot(
                acc.state.fragment_textures,
                BindClass::Texture,
                first,
                entries@,
                slot,
            );
        },
        BindRecord::Samplers { stage, first, entries } => {
            lemma_table_slot(acc.state.vertex_samplers, BindClass::Sampler, first, entries@, slot);
            lemma_table_slot(
                acc.state.fragment_samplers,
                BindClass::Sampler,
                first,
                entries@,
                slot,
            );
        },
        BindRecord::RebindBufferOffset { .. } => {},
    }
}

/// A rebind moves the offset of the one buffer that its slot holds, and its
/// stride where the record states one: the slot keeps its buffer, and every
/// other slot is as it was.
pub proof fn lemma_a_rebind_moves_one_offset(
    table: Seq<BufferBind>,
    index: u32,
    offset: u64,
    stride: Option<u64>,
    slot: u32,
)
    requires
        distinct_slots(table),
    ensures
        match offset_moved(table, index, offset, stride) {
            Some(moved) => {
                &&& occupant(table, index) matches Some(before)
                &&& occupant(moved, index) matches Some(after)
                &&& after.index == index && after.buffer_ref == before.buffer_ref
                &&& after.resource == before.resource
                &&& after.offset == offset
                &&& stride is Some ==> after.attribute_stride == stride
                &&& stride is None ==> after.attribute_stride == before.attribute_stride
                &&& slot != index ==> occupant(moved, slot) == occupant(table, slot)
            },
            None => occupant(table, index) is None,
        },
{
    lemma_position_of(table, index);
    if let Some(moved) = offset_moved(table, index, offset, stride) {
        let bind = moved[position_of(table, index)->0];
        assert(with_bind(table, bind) == moved);
        lemma_binding_a_slot(table, bind, slot);
    }
}

/// A rebind is of the buffer table of its own stage.
pub proof fn lemma_a_rebind_is_of_its_own_stage(
    acc: AccumView,
    out: ExecResultView,
    stage: ShaderStage,
    index: u32,
    offset: u64,
    stride: Option<u64>,
)
    ensures
        ({
            let record = BindRecord::RebindBufferOffset { stage, index, offset, stride };
            let (after, result, outcome) = bind_step(acc, out, record);
            let table = if stage is Vertex {
                acc.state.vertex_buffers
            } else {
                acc.state.fragment_buffers
            };
            &&& result == out
            &&& index >= BindClass::Buffer.table_of() ==> outcome is OffsetPastTable && after.state
                == acc.state && after.unrepresentable is Some
            &&& index < BindClass::Buffer.table_of() ==> after.unrepresentable
                == acc.unrepresentable
            &&& index < BindClass::Buffer.table_of() && offset_moved(
                table,
                index,
                offset,
                stride,
            ) is None ==> outcome is OffsetUnbound && after == acc
            &&& index < BindClass::Buffer.table_of() && offset_moved(
                table,
                index,
                offset,
                stride,
            ) is Some ==> {
                let moved = offset_moved(table, index, offset, stride)->0;
                &&& outcome is OffsetMoved
                &&& stage is Vertex ==> after.state == (BindStateView {
                    vertex_buffers: moved,
                    ..acc.state
                })
                &&& stage is Fragment ==> after.state == (BindStateView {
                    fragment_buffers: moved,
                    ..acc.state
                })
            }
        }),
{
}

/// What reaches past a table is told with the first slot that the table lacks
/// and the number of them, for the record's own stage and kind, and only where
/// something does.
pub proof fn lemma_what_reaches_past_a_table_is_told(
    stage: ShaderStage,
    class: BindClass,
    first: u32,
    count: nat,
)
    requires
        0 < count <= u32::MAX,
    ensures
        match past_table(stage, class, first, count) {
            Some(over) => {
                &&& first + count > class.table_of()
                &&& over.stage == stage && over.class == class
                &&& over.index >= class.table_of() && over.index >= first
                &&& over.index == class.table_of() || over.index == first
                &&& over.index + over.slots == first + count
            },
            None => first + count <= class.table_of(),
        },
        fitting(first, count, class.table_of()) <= count,
        fitting(first, count, class.table_of()) == count <==> first + count <= class.table_of(),
{
}

/// Entries that all bind empty no slot, and entries that all are of nothing
/// empty as many slots as there are.
pub proof fn lemma_emptied_slots_are_counted<B>(entries: Seq<Option<B>>)
    ensures
        emptied(entries) <= entries.len(),
        (forall|i: int| 0 <= i < entries.len() ==> (#[trigger] entries[i]) is Some) <==> emptied(
            entries,
        ) == 0,
        (forall|i: int| 0 <= i < entries.len() ==> (#[trigger] entries[i]) is None) <==> emptied(
            entries,
        ) == entries.len(),
    decreases entries.len(),
{
    if entries.len() > 0 {
        let earlier = entries.drop_last();
        lemma_emptied_slots_are_counted(earlier);
        assert(entries[entries.len() - 1] == entries.last());
        assert forall|i: int| 0 <= i < earlier.len() implies #[trigger] earlier[i]
            == entries[i] by {}
        assert forall|i: int| 0 <= i < entries.len() - 1 implies #[trigger] entries[i]
            == earlier[i] by {}
    }
}

proof fn lemma_noted_keeps(refs: Seq<u32>, mappings: Seq<u32>, entry: TextureEntry)
    ensures
        ({
            let noted = texture_noted(refs, mappings, entry);
            &&& forall|held: u32| refs.contains(held) ==> #[trigger] noted.0.contains(held)
            &&& forall|held: u32| mappings.contains(held) ==> #[trigger] noted.1.contains(held)
            &&& entry.texture_ref != 0 ==> noted.0.contains(entry.texture_ref)
            &&& entry.texture_ref != 0 && entry.mapper is Some ==> noted.1.contains(
                entry.mapper->0,
            )
            &&& entry.texture_ref != 0 && entry.mapper is None && entry.backing
                ==> noted.1.contains(entry.texture_ref)
        }),
{
    lemma_listing_keeps(refs, entry.texture_ref);
    lemma_listing_keeps(mappings, entry.texture_ref);
    if entry.mapper is Some {
        lemma_listing_keeps(mappings, entry.mapper->0);
    }
}

proof fn lemma_listing_keeps(list: Seq<u32>, value: u32)
    ensures
        listed(list, value).contains(value),
        forall|held: u32| list.contains(held) ==> #[trigger] listed(list, value).contains(held),
{
    if !list.contains(value) {
        let longer = list.push(value);
        assert(longer[list.len() as int] == value);
        assert forall|held: u32| list.contains(held) implies #[trigger] longer.contains(held) by {
            let i = choose|i: int| 0 <= i < list.len() && list[i] == held;
            assert(longer[i] == held);
        }
    }
}

/// Every texture that a record binds is among the submission's textures, and the
/// mapping that it names, or is, among its mappings; what was among them stays.
pub proof fn lemma_bound_textures_are_noted(
    refs: Seq<u32>,
    mappings: Seq<u32>,
    entries: Seq<TextureEntry>,
)
    ensures
        ({
            let noted = textures_noted(refs, mappings, entries);
            &&& forall|held: u32| refs.contains(held) ==> #[trigger] noted.0.contains(held)
            &&& forall|held: u32| mappings.contains(held) ==> #[trigger] noted.1.contains(held)
            &&& forall|i: int|
                0 <= i < entries.len() && (#[trigger] entries[i]).texture_ref != 0
                    ==> noted.0.contains(entries[i].texture_ref)
            &&& forall|i: int|
                0 <= i < entries.len() && (#[trigger] entries[i]).texture_ref != 0
                    && entries[i].mapper is Some ==> noted.1.contains(entries[i].mapper->0)
            &&& forall|i: int|
                0 <= i < entries.len() && (#[trigger] entries[i]).texture_ref != 0
                    && entries[i].mapper is None && entries[i].backing ==> noted.1.contains(
                    entries[i].texture_ref,
                )
        }),
    decreases entries.len(),
{
    if entries.len() > 0 {
        let earlier = entries.drop_last();
        let before = textures_noted(refs, mappings, earlier);
        lemma_bound_textures_are_noted(refs, mappings, earlier);
        lemma_noted_keeps(before.0, before.1, entries.last());
        assert(entries[entries.len() - 1] == entries.last());
        assert forall|i: int| 0 <= i < entries.len() - 1 implies #[trigger] entries[i]
            == earlier[i] by {}
    }
}

} // verus!
