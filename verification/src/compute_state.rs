//! The state a compute encoder carries from record to record.

use vstd::prelude::*;

use crate::command::{
    ComputeBufferBinding, ComputeCommand, ComputeKind, ComputeRefBinding, ComputeSamplerBinding,
    StageInRegion,
};
use crate::slots::{
    distinct_slots, find_slot, lemma_binding_a_slot, lemma_entries_keep_slots_distinct,
    lemma_entries_occupy_their_slots, occupant,
    lemma_position_of, position_of, put_bind, put_entry, with_bind, with_entries, Slotted,
};
use crate::tables::{copy_all, same_all, Key};

verus! {

/// Slots of the buffer argument table.
pub const MAX_COMPUTE_BUFFER_SLOTS: u32 = 31;

/// Slots of the texture argument table.
pub const MAX_COMPUTE_TEXTURE_SLOTS: u32 = 128;

/// Slots of the sampler argument table.
pub const MAX_COMPUTE_SAMPLER_SLOTS: u32 = 16;

/// A buffer in an argument-table slot.
#[derive(Clone, Copy, Debug, PartialEq, Eq, Structural)]
pub struct ComputeBoundBuffer {
    pub index: u32,
    pub buffer_ref: u32,
    pub offset: u64,
    pub attribute_stride: u64,
    pub has_attribute_stride: bool,
}

/// A texture in an argument-table slot.
#[derive(Clone, Copy, Debug, PartialEq, Eq, Structural)]
pub struct ComputeBoundTexture {
    pub index: u32,
    pub texture_ref: u32,
}

/// A sampler in an argument-table slot.
#[derive(Clone, Copy, Debug, PartialEq, Eq, Structural)]
pub struct ComputeBoundSampler {
    pub index: u32,
    pub sampler_ref: u32,
    pub lod_min: u32,
    pub lod_max: u32,
    pub has_lod_clamp: bool,
}

/// A threadgroup memory length in its slot.
#[derive(Clone, Copy, Debug, PartialEq, Eq, Structural)]
pub struct ThreadgroupMemory {
    pub index: u32,
    pub length: u64,
}

impl Slotted for ComputeBoundBuffer {
    open spec fn slot(self) -> u32 {
        self.index
    }

    fn slot_index(&self) -> (index: u32) {
        self.index
    }
}

impl Slotted for ComputeBoundTexture {
    open spec fn slot(self) -> u32 {
        self.index
    }

    fn slot_index(&self) -> (index: u32) {
        self.index
    }
}

impl Slotted for ComputeBoundSampler {
    open spec fn slot(self) -> u32 {
        self.index
    }

    fn slot_index(&self) -> (index: u32) {
        self.index
    }
}

impl Slotted for ThreadgroupMemory {
    open spec fn slot(self) -> u32 {
        self.index
    }

    fn slot_index(&self) -> (index: u32) {
        self.index
    }
}

impl Key for ComputeBoundBuffer {
    fn same(&self, other: &Self) -> (b: bool) {
        *self == *other
    }
}

impl Key for ComputeBoundTexture {
    fn same(&self, other: &Self) -> (b: bool) {
        *self == *other
    }
}

impl Key for ComputeBoundSampler {
    fn same(&self, other: &Self) -> (b: bool) {
        *self == *other
    }
}

impl Key for ThreadgroupMemory {
    fn same(&self, other: &Self) -> (b: bool) {
        *self == *other
    }
}

/// The imageblock a dispatch asks for.
#[derive(Clone, Copy, Debug, PartialEq, Eq, Structural)]
pub struct ImageblockDimensions {
    pub width: u32,
    pub height: u32,
}

/// Where the stage-in region is stated.
#[derive(Clone, Copy, Debug, PartialEq, Eq, Structural)]
pub enum StageIn {
    Region(StageInRegion),
    Indirect { buffer_ref: u32, offset: u64 },
}

/// Everything a compute encoder has been told.
#[derive(Debug, PartialEq, Eq)]
pub struct ComputeAccum {
    pub pipeline_ref: u32,
    pub buffers: Vec<ComputeBoundBuffer>,
    pub textures: Vec<ComputeBoundTexture>,
    pub samplers: Vec<ComputeBoundSampler>,
    pub dispatch_type: u32,
    pub stage_in: Option<StageIn>,
    pub threadgroup_memory: Vec<ThreadgroupMemory>,
    pub imageblock: Option<ImageblockDimensions>,
}

/// What contracts say of a compute encoder's state.
#[verifier::ext_equal]
pub struct ComputeAccumView {
    pub pipeline_ref: u32,
    pub buffers: Seq<ComputeBoundBuffer>,
    pub textures: Seq<ComputeBoundTexture>,
    pub samplers: Seq<ComputeBoundSampler>,
    pub dispatch_type: u32,
    pub stage_in: Option<StageIn>,
    pub threadgroup_memory: Seq<ThreadgroupMemory>,
    pub imageblock: Option<ImageblockDimensions>,
}

impl View for ComputeAccum {
    type V = ComputeAccumView;

    open spec fn view(&self) -> ComputeAccumView {
        ComputeAccumView {
            pipeline_ref: self.pipeline_ref,
            buffers: self.buffers@,
            textures: self.textures@,
            samplers: self.samplers@,
            dispatch_type: self.dispatch_type,
            stage_in: self.stage_in,
            threadgroup_memory: self.threadgroup_memory@,
            imageblock: self.imageblock,
        }
    }
}

impl ComputeAccumView {
    /// No slot of any table occurs twice.
    pub open spec fn wf(self) -> bool {
        &&& distinct_slots(self.buffers)
        &&& distinct_slots(self.textures)
        &&& distinct_slots(self.samplers)
        &&& distinct_slots(self.threadgroup_memory)
    }
}

/// The state an encoder begins with.
pub open spec fn fresh_compute_encoder() -> ComputeAccumView {
    ComputeAccumView {
        pipeline_ref: 0,
        buffers: Seq::empty(),
        textures: Seq::empty(),
        samplers: Seq::empty(),
        dispatch_type: 0,
        stage_in: None,
        threadgroup_memory: Seq::empty(),
        imageblock: None,
    }
}

impl Default for ComputeAccum {
    fn default() -> (accum: Self)
        ensures
            accum@ == fresh_compute_encoder(),
            accum@.wf(),
    {
        ComputeAccum {
            pipeline_ref: 0,
            buffers: Vec::new(),
            textures: Vec::new(),
            samplers: Vec::new(),
            dispatch_type: 0,
            stage_in: None,
            threadgroup_memory: Vec::new(),
            imageblock: None,
        }
    }
}

impl ComputeAccum {
    /// Whether two encoders have been told the same.
    pub fn same(&self, other: &ComputeAccum) -> (same: bool)
        ensures
            same == (self@ == other@),
    {
        let same = self.pipeline_ref == other.pipeline_ref && self.dispatch_type
            == other.dispatch_type && self.stage_in == other.stage_in && self.imageblock
            == other.imageblock && same_all(&self.buffers, &other.buffers) && same_all(
            &self.textures,
            &other.textures,
        ) && same_all(&self.samplers, &other.samplers) && same_all(
            &self.threadgroup_memory,
            &other.threadgroup_memory,
        );
        same
    }

    /// A copy that later records do not change.
    pub fn copied(&self) -> (copy: ComputeAccum)
        ensures
            copy@ == self@,
    {
        ComputeAccum {
            pipeline_ref: self.pipeline_ref,
            buffers: copy_all(&self.buffers),
            textures: copy_all(&self.textures),
            samplers: copy_all(&self.samplers),
            dispatch_type: self.dispatch_type,
            stage_in: self.stage_in,
            threadgroup_memory: copy_all(&self.threadgroup_memory),
            imageblock: self.imageblock,
        }
    }
}

/// Why a compute state record was refused.
#[derive(Clone, Copy, Debug, PartialEq, Eq, Structural)]
pub enum ReplacementComputeStateResolutionError {
    NotStateRecord,
    OutsideEncoder,
    BufferIndexOverflow { first: u32, count: u64, limit: u32 },
    TextureIndexOverflow { first: u32, count: u64, limit: u32 },
    SamplerIndexOverflow { first: u32, count: u64, limit: u32 },
    BufferOffsetUnbound { index: u32 },
    DispatchTypeUnsupported(u32),
}

/// A zero reference empties the slot.
pub open spec fn compute_buffer_entry(index: int, binding: ComputeBufferBinding) -> Option<
    ComputeBoundBuffer,
> {
    if binding.ref_ == 0 {
        None
    } else {
        Some(
            ComputeBoundBuffer {
                index: index as u32,
                buffer_ref: binding.ref_,
                offset: binding.offset,
                attribute_stride: binding.attribute_stride,
                has_attribute_stride: binding.has_attribute_stride,
            },
        )
    }
}

pub open spec fn compute_buffer_entries(first: int, bindings: Seq<ComputeBufferBinding>) -> Seq<
    Option<ComputeBoundBuffer>,
> {
    Seq::new(bindings.len(), |i: int| compute_buffer_entry(first + i, bindings[i]))
}

/// A zero reference empties the slot.
pub open spec fn compute_texture_entries(first: int, bindings: Seq<ComputeRefBinding>) -> Seq<
    Option<ComputeBoundTexture>,
> {
    Seq::new(
        bindings.len(),
        |i: int|
            if bindings[i].ref_ == 0 {
                None
            } else {
                Some(
                    ComputeBoundTexture { index: (first + i) as u32, texture_ref: bindings[i].ref_ },
                )
            },
    )
}

/// A zero reference empties the slot.
pub open spec fn compute_sampler_entries(first: int, bindings: Seq<ComputeSamplerBinding>) -> Seq<
    Option<ComputeBoundSampler>,
> {
    Seq::new(
        bindings.len(),
        |i: int|
            if bindings[i].ref_ == 0 {
                None
            } else {
                Some(
                    ComputeBoundSampler {
                        index: (first + i) as u32,
                        sampler_ref: bindings[i].ref_,
                        lod_min: bindings[i].lod_min,
                        lod_max: bindings[i].lod_max,
                        has_lod_clamp: bindings[i].has_lod_clamp,
                    },
                )
            },
    )
}

/// Whether a dispatch type is one the encoder declares: serial or concurrent.
pub open spec fn declared_dispatch_type(raw: u32) -> bool {
    raw == 0 || raw == 1
}

/// Whether a dispatch type is one the encoder declares: serial or concurrent.
pub fn is_declared_dispatch_type(raw: u32) -> (declared: bool)
    ensures
        declared == declared_dispatch_type(raw),
{
    raw == 0 || raw == 1
}

/// The bound buffer after an offset update. `stride` is `None` where the record
/// carries none.
pub open spec fn moved_compute_buffer(bound: ComputeBoundBuffer, offset: u64, stride: Option<u64>)
    -> ComputeBoundBuffer {
    match stride {
        None => ComputeBoundBuffer { offset, ..bound },
        Some(stride) => ComputeBoundBuffer {
            offset,
            attribute_stride: stride,
            has_attribute_stride: true,
            ..bound
        },
    }
}

/// What an offset update makes of the encoder's state.
pub open spec fn compute_offset_step(
    s: ComputeAccumView,
    index: u32,
    offset: u64,
    stride: Option<u64>,
) -> Result<ComputeAccumView, ReplacementComputeStateResolutionError> {
    if index >= MAX_COMPUTE_BUFFER_SLOTS {
        Err(
            ReplacementComputeStateResolutionError::BufferIndexOverflow {
                first: index,
                count: 1,
                limit: MAX_COMPUTE_BUFFER_SLOTS,
            },
        )
    } else {
        match position_of(s.buffers, index) {
            None => Err(ReplacementComputeStateResolutionError::BufferOffsetUnbound { index }),
            Some(p) => Ok(
                ComputeAccumView {
                    buffers: s.buffers.update(
                        p,
                        moved_compute_buffer(s.buffers[p], offset, stride),
                    ),
                    ..s
                },
            ),
        }
    }
}

/// What a state record makes of a compute encoder's state.
pub open spec fn compute_state_step(s: ComputeAccumView, c: ComputeCommand) -> Result<
    ComputeAccumView,
    ReplacementComputeStateResolutionError,
> {
    match c.kind {
        ComputeKind::Pipeline => Ok(ComputeAccumView { pipeline_ref: c.pipeline_ref, ..s }),
        ComputeKind::BufferBind | ComputeKind::BufferBindAttributeStride => if c.first
            + c.buffers@.len() > MAX_COMPUTE_BUFFER_SLOTS {
            Err(
                ReplacementComputeStateResolutionError::BufferIndexOverflow {
                    first: c.first,
                    count: c.buffers@.len() as u64,
                    limit: MAX_COMPUTE_BUFFER_SLOTS,
                },
            )
        } else {
            Ok(
                ComputeAccumView {
                    buffers: with_entries(
                        s.buffers,
                        c.first as int,
                        compute_buffer_entries(c.first as int, c.buffers@),
                    ),
                    ..s
                },
            )
        },
        ComputeKind::BufferOffset => compute_offset_step(s, c.first, c.buffer_offset, None),
        ComputeKind::BufferOffsetAttributeStride => compute_offset_step(
            s,
            c.first,
            c.buffer_offset,
            Some(c.attribute_stride),
        ),
        ComputeKind::TextureBind => if c.first + c.textures@.len() > MAX_COMPUTE_TEXTURE_SLOTS {
            Err(
                ReplacementComputeStateResolutionError::TextureIndexOverflow {
                    first: c.first,
                    count: c.textures@.len() as u64,
                    limit: MAX_COMPUTE_TEXTURE_SLOTS,
                },
            )
        } else {
            Ok(
                ComputeAccumView {
                    textures: with_entries(
                        s.textures,
                        c.first as int,
                        compute_texture_entries(c.first as int, c.textures@),
                    ),
                    ..s
                },
            )
        },
        ComputeKind::SamplerBind | ComputeKind::SamplerLod => if c.first + c.samplers@.len()
            > MAX_COMPUTE_SAMPLER_SLOTS {
            Err(
                ReplacementComputeStateResolutionError::SamplerIndexOverflow {
                    first: c.first,
                    count: c.samplers@.len() as u64,
                    limit: MAX_COMPUTE_SAMPLER_SLOTS,
                },
            )
        } else {
            Ok(
                ComputeAccumView {
                    samplers: with_entries(
                        s.samplers,
                        c.first as int,
                        compute_sampler_entries(c.first as int, c.samplers@),
                    ),
                    ..s
                },
            )
        },
        ComputeKind::DispatchType => if declared_dispatch_type(c.dispatch_type) {
            Ok(ComputeAccumView { dispatch_type: c.dispatch_type, ..s })
        } else {
            Err(ReplacementComputeStateResolutionError::DispatchTypeUnsupported(c.dispatch_type))
        },
        ComputeKind::StageInRegion => Ok(
            ComputeAccumView { stage_in: Some(StageIn::Region(c.stage_in_region)), ..s },
        ),
        ComputeKind::StageInRegionIndirect => Ok(
            ComputeAccumView {
                stage_in: Some(
                    StageIn::Indirect {
                        buffer_ref: c.stage_in_indirect_buffer_ref,
                        offset: c.stage_in_indirect_buffer_offset,
                    },
                ),
                ..s
            },
        ),
        ComputeKind::ThreadgroupMemory => Ok(
            ComputeAccumView {
                threadgroup_memory: with_bind(
                    s.threadgroup_memory,
                    ThreadgroupMemory {
                        index: c.threadgroup_memory_index,
                        length: c.threadgroup_memory_length,
                    },
                ),
                ..s
            },
        ),
        ComputeKind::ImageblockDimensions => Ok(
            ComputeAccumView {
                imageblock: Some(
                    ImageblockDimensions { width: c.imageblock_width, height: c.imageblock_height },
                ),
                ..s
            },
        ),
        ComputeKind::CompressedTextureFlush => Ok(s),
        _ => Err(ReplacementComputeStateResolutionError::NotStateRecord),
    }
}

/// Whether a bind of `count` slots from `first` stays inside a table.
pub fn replacement_compute_binding_range(first: u32, count: usize, limit: u32) -> (range: Result<
    (),
    (u32, u64, u32),
>)
    ensures
        range is Ok <==> first + count <= limit,
        range matches Err(past) ==> past == (first, count as u64, limit),
{
    if count as u64 > limit as u64 || first as u64 > limit as u64 - count as u64 {
        return Err((first, count as u64, limit));
    }
    Ok(())
}

/// Whether an offset update names a bound slot inside the buffer table.
pub fn replacement_compute_buffer_offset(accum: &ComputeAccum, index: u32) -> (result: Result<
    (),
    ReplacementComputeStateResolutionError,
>)
    ensures
        match result {
            Ok(_) => index < MAX_COMPUTE_BUFFER_SLOTS && position_of(accum@.buffers, index) is Some,
            Err(error) => if index >= MAX_COMPUTE_BUFFER_SLOTS {
                error == (ReplacementComputeStateResolutionError::BufferIndexOverflow {
                    first: index,
                    count: 1,
                    limit: MAX_COMPUTE_BUFFER_SLOTS,
                })
            } else {
                &&& position_of(accum@.buffers, index) is None
                &&& error == (ReplacementComputeStateResolutionError::BufferOffsetUnbound { index })
            },
        },
{
    if index >= MAX_COMPUTE_BUFFER_SLOTS {
        return Err(
            ReplacementComputeStateResolutionError::BufferIndexOverflow {
                first: index,
                count: 1,
                limit: MAX_COMPUTE_BUFFER_SLOTS,
            },
        );
    }
    if find_slot(&accum.buffers, index).is_none() {
        return Err(ReplacementComputeStateResolutionError::BufferOffsetUnbound { index });
    }
    Ok(())
}

impl ComputeAccum {
    /// Binds buffers to consecutive slots; a zero reference empties its slot.
    pub fn bind_buffers(&mut self, first: u32, bindings: &Vec<ComputeBufferBinding>)
        requires
            first + bindings@.len() <= MAX_COMPUTE_BUFFER_SLOTS,
        ensures
            final(self)@ == (ComputeAccumView {
                buffers: with_entries(
                    old(self)@.buffers,
                    first as int,
                    compute_buffer_entries(first as int, bindings@),
                ),
                ..old(self)@
            }),
    {
        let ghost entries = compute_buffer_entries(first as int, bindings@);
        let mut i: usize = 0;
        while i < bindings.len()
            invariant
                i <= bindings@.len(),
                first + bindings@.len() <= MAX_COMPUTE_BUFFER_SLOTS,
                entries == compute_buffer_entries(first as int, bindings@),
                self@ == (ComputeAccumView {
                    buffers: with_entries(
                        old(self)@.buffers,
                        first as int,
                        entries.take(i as int),
                    ),
                    ..old(self)@
                }),
            decreases bindings.len() - i,
        {
            let index: u32 = first + i as u32;
            let binding = bindings[i];
            let entry = if binding.ref_ == 0 {
                None
            } else {
                Some(
                    ComputeBoundBuffer {
                        index,
                        buffer_ref: binding.ref_,
                        offset: binding.offset,
                        attribute_stride: binding.attribute_stride,
                        has_attribute_stride: binding.has_attribute_stride,
                    },
                )
            };
            proof {
                assert(entries.take(i as int + 1).drop_last() =~= entries.take(i as int));
                assert(entries.take(i as int + 1).last() == entry);
            }
            put_entry(&mut self.buffers, index, entry);
            i += 1;
        }
        assert(entries.take(i as int) =~= entries);
    }

    /// Binds textures to consecutive slots; a zero reference empties its slot.
    pub fn bind_textures(&mut self, first: u32, bindings: &Vec<ComputeRefBinding>)
        requires
            first + bindings@.len() <= MAX_COMPUTE_TEXTURE_SLOTS,
        ensures
            final(self)@ == (ComputeAccumView {
                textures: with_entries(
                    old(self)@.textures,
                    first as int,
                    compute_texture_entries(first as int, bindings@),
                ),
                ..old(self)@
            }),
    {
        let ghost entries = compute_texture_entries(first as int, bindings@);
        let mut i: usize = 0;
        while i < bindings.len()
            invariant
                i <= bindings@.len(),
                first + bindings@.len() <= MAX_COMPUTE_TEXTURE_SLOTS,
                entries == compute_texture_entries(first as int, bindings@),
                self@ == (ComputeAccumView {
                    textures: with_entries(
                        old(self)@.textures,
                        first as int,
                        entries.take(i as int),
                    ),
                    ..old(self)@
                }),
            decreases bindings.len() - i,
        {
            let index: u32 = first + i as u32;
            let entry = if bindings[i].ref_ == 0 {
                None
            } else {
                Some(ComputeBoundTexture { index, texture_ref: bindings[i].ref_ })
            };
            proof {
                assert(entries.take(i as int + 1).drop_last() =~= entries.take(i as int));
                assert(entries.take(i as int + 1).last() == entry);
            }
            put_entry(&mut self.textures, index, entry);
            i += 1;
        }
        assert(entries.take(i as int) =~= entries);
    }

    /// Binds samplers to consecutive slots; a zero reference empties its slot.
    pub fn bind_samplers(&mut self, first: u32, bindings: &Vec<ComputeSamplerBinding>)
        requires
            first + bindings@.len() <= MAX_COMPUTE_SAMPLER_SLOTS,
        ensures
            final(self)@ == (ComputeAccumView {
                samplers: with_entries(
                    old(self)@.samplers,
                    first as int,
                    compute_sampler_entries(first as int, bindings@),
                ),
                ..old(self)@
            }),
    {
        let ghost entries = compute_sampler_entries(first as int, bindings@);
        let mut i: usize = 0;
        while i < bindings.len()
            invariant
                i <= bindings@.len(),
                first + bindings@.len() <= MAX_COMPUTE_SAMPLER_SLOTS,
                entries == compute_sampler_entries(first as int, bindings@),
                self@ == (ComputeAccumView {
                    samplers: with_entries(
                        old(self)@.samplers,
                        first as int,
                        entries.take(i as int),
                    ),
                    ..old(self)@
                }),
            decreases bindings.len() - i,
        {
            let index: u32 = first + i as u32;
            let binding = bindings[i];
            let entry = if binding.ref_ == 0 {
                None
            } else {
                Some(
                    ComputeBoundSampler {
                        index,
                        sampler_ref: binding.ref_,
                        lod_min: binding.lod_min,
                        lod_max: binding.lod_max,
                        has_lod_clamp: binding.has_lod_clamp,
                    },
                )
            };
            proof {
                assert(entries.take(i as int + 1).drop_last() =~= entries.take(i as int));
                assert(entries.take(i as int + 1).last() == entry);
            }
            put_entry(&mut self.samplers, index, entry);
            i += 1;
        }
        assert(entries.take(i as int) =~= entries);
    }

    /// Moves the offset of the buffer in a slot, and its stride where one is
    /// given.
    pub fn set_buffer_offset(&mut self, index: u32, offset: u64, stride: Option<u64>)
        requires
            position_of(old(self)@.buffers, index) is Some,
        ensures
            final(self)@ == (ComputeAccumView {
                buffers: old(self)@.buffers.update(
                    position_of(old(self)@.buffers, index)->0,
                    moved_compute_buffer(
                        old(self)@.buffers[position_of(old(self)@.buffers, index)->0],
                        offset,
                        stride,
                    ),
                ),
                ..old(self)@
            }),
    {
        proof {
            lemma_position_of(self@.buffers, index);
        }
        if let Some(position) = find_slot(&self.buffers, index) {
            let mut bound = self.buffers[position];
            bound.offset = offset;
            if let Some(stride) = stride {
                bound.attribute_stride = stride;
                bound.has_attribute_stride = true;
            }
            self.buffers.set(position, bound);
        }
    }
}

/// The state record `c` keeps every slot of every table at most once.
proof fn lemma_compute_step_keeps_wf(s: ComputeAccumView, c: ComputeCommand)
    requires
        s.wf(),
    ensures
        compute_state_step(s, c) matches Ok(next) ==> next.wf(),
{
    lemma_entries_keep_slots_distinct(
        s.buffers,
        c.first as int,
        compute_buffer_entries(c.first as int, c.buffers@),
    );
    lemma_entries_keep_slots_distinct(
        s.textures,
        c.first as int,
        compute_texture_entries(c.first as int, c.textures@),
    );
    lemma_entries_keep_slots_distinct(
        s.samplers,
        c.first as int,
        compute_sampler_entries(c.first as int, c.samplers@),
    );
    lemma_binding_a_slot(
        s.threadgroup_memory,
        ThreadgroupMemory { index: c.threadgroup_memory_index, length: c.threadgroup_memory_length },
        0,
    );
    lemma_position_of(s.buffers, c.first);
    if position_of(s.buffers, c.first) is Some {
        let p = position_of(s.buffers, c.first)->0;
        assert forall|stride: Option<u64>, i: int, j: int|
            0 <= i < j < s.buffers.len() implies (#[trigger] s.buffers.update(
            p,
            moved_compute_buffer(s.buffers[p], c.buffer_offset, stride),
        )[i]).slot() != (#[trigger] s.buffers.update(
            p,
            moved_compute_buffer(s.buffers[p], c.buffer_offset, stride),
        )[j]).slot() by {
            assert(s.buffers[i].slot() != s.buffers[j].slot());
        }
    }
}

/// Applies a state record to a compute encoder's state.
pub fn resolve_compute_accum_record(accum: &mut ComputeAccum, command: &ComputeCommand) -> (result:
    Result<(), ReplacementComputeStateResolutionError>)
    requires
        old(accum)@.wf(),
    ensures
        final(accum)@.wf(),
        match result {
            Ok(_) => compute_state_step(old(accum)@, *command) == Ok::<
                ComputeAccumView,
                ReplacementComputeStateResolutionError,
            >(final(accum)@),
            Err(error) => {
                &&& compute_state_step(old(accum)@, *command) == Err::<
                    ComputeAccumView,
                    ReplacementComputeStateResolutionError,
                >(error)
                &&& final(accum)@ == old(accum)@
            },
        },
{
    proof {
        lemma_compute_step_keeps_wf(accum@, *command);
    }
    match command.kind {
        ComputeKind::Pipeline => {
            accum.pipeline_ref = command.pipeline_ref;
        },
        ComputeKind::BufferBind | ComputeKind::BufferBindAttributeStride => {
            if let Err((first, count, limit)) = replacement_compute_binding_range(
                command.first,
                command.buffers.len(),
                MAX_COMPUTE_BUFFER_SLOTS,
            ) {
                return Err(
                    ReplacementComputeStateResolutionError::BufferIndexOverflow {
                        first,
                        count,
                        limit,
                    },
                );
            }
            accum.bind_buffers(command.first, &command.buffers);
        },
        ComputeKind::BufferOffset => {
            replacement_compute_buffer_offset(accum, command.first)?;
            accum.set_buffer_offset(command.first, command.buffer_offset, None);
        },
        ComputeKind::BufferOffsetAttributeStride => {
            replacement_compute_buffer_offset(accum, command.first)?;
            accum.set_buffer_offset(
                command.first,
                command.buffer_offset,
                Some(command.attribute_stride),
            );
        },
        ComputeKind::TextureBind => {
            if let Err((first, count, limit)) = replacement_compute_binding_range(
                command.first,
                command.textures.len(),
                MAX_COMPUTE_TEXTURE_SLOTS,
            ) {
                return Err(
                    ReplacementComputeStateResolutionError::TextureIndexOverflow {
                        first,
                        count,
                        limit,
                    },
                );
            }
            accum.bind_textures(command.first, &command.textures);
        },
        ComputeKind::SamplerBind | ComputeKind::SamplerLod => {
            if let Err((first, count, limit)) = replacement_compute_binding_range(
                command.first,
                command.samplers.len(),
                MAX_COMPUTE_SAMPLER_SLOTS,
            ) {
                return Err(
                    ReplacementComputeStateResolutionError::SamplerIndexOverflow {
                        first,
                        count,
                        limit,
                    },
                );
            }
            accum.bind_samplers(command.first, &command.samplers);
        },
        ComputeKind::DispatchType => {
            if !is_declared_dispatch_type(command.dispatch_type) {
                return Err(
                    ReplacementComputeStateResolutionError::DispatchTypeUnsupported(
                        command.dispatch_type,
                    ),
                );
            }
            accum.dispatch_type = command.dispatch_type;
        },
        ComputeKind::StageInRegion => {
            accum.stage_in = Some(StageIn::Region(command.stage_in_region));
        },
        ComputeKind::StageInRegionIndirect => {
            accum.stage_in = Some(
                StageIn::Indirect {
                    buffer_ref: command.stage_in_indirect_buffer_ref,
                    offset: command.stage_in_indirect_buffer_offset,
                },
            );
        },
        ComputeKind::ThreadgroupMemory => {
            put_bind(
                &mut accum.threadgroup_memory,
                ThreadgroupMemory {
                    index: command.threadgroup_memory_index,
                    length: command.threadgroup_memory_length,
                },
            );
        },
        ComputeKind::ImageblockDimensions => {
            accum.imageblock = Some(
                ImageblockDimensions {
                    width: command.imageblock_width,
                    height: command.imageblock_height,
                },
            );
        },
        ComputeKind::CompressedTextureFlush => {},
        _ => {
            return Err(ReplacementComputeStateResolutionError::NotStateRecord);
        },
    }
    Ok(())
}

/// A compute state record sets what it names to what it states: a bind record
/// each slot of its run, an offset record the offset of the one bound slot, and
/// every other record its one field. Nothing else changes.
#[verifier::spinoff_prover]
pub proof fn lemma_a_compute_record_sets_what_it_names(
    s: ComputeAccumView,
    c: ComputeCommand,
    slot: u32,
)
    requires
        s.wf(),
    ensures
        match (c.kind, compute_state_step(s, c)) {
            (ComputeKind::Pipeline, next) => next is Ok && next->Ok_0 == (ComputeAccumView {
                pipeline_ref: c.pipeline_ref,
                ..s
            }),
            (
                ComputeKind::BufferBind | ComputeKind::BufferBindAttributeStride,
                Ok(next),
            ) => {
                let bind = c.buffers@[slot - c.first];
                let held = occupant(next.buffers, slot);
                &&& c.first + c.buffers@.len() <= MAX_COMPUTE_BUFFER_SLOTS
                &&& next == (ComputeAccumView { buffers: next.buffers, ..s })
                &&& !(c.first <= slot < c.first + c.buffers@.len()) ==> held == occupant(
                    s.buffers,
                    slot,
                )
                &&& c.first <= slot < c.first + c.buffers@.len() ==> (held is None <==> bind.ref_
                    == 0)
                &&& c.first <= slot < c.first + c.buffers@.len() && bind.ref_ != 0 ==> held
                    == Some(
                    ComputeBoundBuffer {
                        index: slot,
                        buffer_ref: bind.ref_,
                        offset: bind.offset,
                        attribute_stride: bind.attribute_stride,
                        has_attribute_stride: bind.has_attribute_stride,
                    },
                )
            },
            (
                ComputeKind::BufferBind | ComputeKind::BufferBindAttributeStride,
                Err(_),
            ) => c.first + c.buffers@.len() > MAX_COMPUTE_BUFFER_SLOTS,
            (ComputeKind::TextureBind, Ok(next)) => {
                let bind = c.textures@[slot - c.first];
                let held = occupant(next.textures, slot);
                &&& c.first + c.textures@.len() <= MAX_COMPUTE_TEXTURE_SLOTS
                &&& next == (ComputeAccumView { textures: next.textures, ..s })
                &&& !(c.first <= slot < c.first + c.textures@.len()) ==> held == occupant(
                    s.textures,
                    slot,
                )
                &&& c.first <= slot < c.first + c.textures@.len() ==> (held is None <==> bind.ref_
                    == 0)
                &&& c.first <= slot < c.first + c.textures@.len() && bind.ref_ != 0 ==> held
                    == Some(ComputeBoundTexture { index: slot, texture_ref: bind.ref_ })
            },
            (ComputeKind::TextureBind, Err(_)) => c.first + c.textures@.len()
                > MAX_COMPUTE_TEXTURE_SLOTS,
            (ComputeKind::SamplerBind | ComputeKind::SamplerLod, Ok(next)) => {
                let bind = c.samplers@[slot - c.first];
                let held = occupant(next.samplers, slot);
                &&& c.first + c.samplers@.len() <= MAX_COMPUTE_SAMPLER_SLOTS
                &&& next == (ComputeAccumView { samplers: next.samplers, ..s })
                &&& !(c.first <= slot < c.first + c.samplers@.len()) ==> held == occupant(
                    s.samplers,
                    slot,
                )
                &&& c.first <= slot < c.first + c.samplers@.len() ==> (held is None <==> bind.ref_
                    == 0)
                &&& c.first <= slot < c.first + c.samplers@.len() && bind.ref_ != 0 ==> held
                    == Some(
                    ComputeBoundSampler {
                        index: slot,
                        sampler_ref: bind.ref_,
                        lod_min: bind.lod_min,
                        lod_max: bind.lod_max,
                        has_lod_clamp: bind.has_lod_clamp,
                    },
                )
            },
            (ComputeKind::SamplerBind | ComputeKind::SamplerLod, Err(_)) => c.first
                + c.samplers@.len() > MAX_COMPUTE_SAMPLER_SLOTS,
            (
                ComputeKind::BufferOffset | ComputeKind::BufferOffsetAttributeStride,
                Ok(next),
            ) => {
                &&& next == (ComputeAccumView { buffers: next.buffers, ..s })
                &&& occupant(s.buffers, c.first) matches Some(before)
                &&& occupant(next.buffers, c.first) matches Some(after)
                &&& after.index == c.first && after.buffer_ref == before.buffer_ref
                &&& after.offset == c.buffer_offset
                &&& c.kind is BufferOffset ==> after.attribute_stride == before.attribute_stride
                    && after.has_attribute_stride == before.has_attribute_stride
                &&& c.kind is BufferOffsetAttributeStride ==> after.attribute_stride
                    == c.attribute_stride && after.has_attribute_stride
                &&& slot != c.first ==> occupant(next.buffers, slot) == occupant(s.buffers, slot)
            },
            (
                ComputeKind::BufferOffset | ComputeKind::BufferOffsetAttributeStride,
                Err(_),
            ) => c.first >= MAX_COMPUTE_BUFFER_SLOTS || occupant(s.buffers, c.first) is None,
            (ComputeKind::DispatchType, Ok(next)) => c.dispatch_type <= 1 && next == (
            ComputeAccumView { dispatch_type: c.dispatch_type, ..s }),
            (ComputeKind::DispatchType, Err(_)) => c.dispatch_type > 1,
            (ComputeKind::StageInRegion, next) => next is Ok && next->Ok_0 == (ComputeAccumView {
                stage_in: Some(StageIn::Region(c.stage_in_region)),
                ..s
            }),
            (ComputeKind::StageInRegionIndirect, next) => {
                &&& next matches Ok(next)
                &&& next.stage_in matches Some(StageIn::Indirect { buffer_ref, offset })
                &&& buffer_ref == c.stage_in_indirect_buffer_ref
                &&& offset == c.stage_in_indirect_buffer_offset
                &&& next == (ComputeAccumView { stage_in: next.stage_in, ..s })
            },
            (ComputeKind::ThreadgroupMemory, next) => {
                &&& next matches Ok(next)
                &&& next == (ComputeAccumView { threadgroup_memory: next.threadgroup_memory, ..s })
                &&& occupant(next.threadgroup_memory, c.threadgroup_memory_index) matches Some(held)
                &&& held.length == c.threadgroup_memory_length
                &&& slot != c.threadgroup_memory_index ==> occupant(next.threadgroup_memory, slot)
                    == occupant(s.threadgroup_memory, slot)
            },
            (ComputeKind::ImageblockDimensions, next) => {
                &&& next matches Ok(next)
                &&& next.imageblock matches Some(block)
                &&& block.width == c.imageblock_width && block.height == c.imageblock_height
                &&& next == (ComputeAccumView { imageblock: next.imageblock, ..s })
            },
            (ComputeKind::CompressedTextureFlush, next) => next is Ok && next->Ok_0 == s,
            _ => true,
        },
{
    match c.kind {
        ComputeKind::BufferBind | ComputeKind::BufferBindAttributeStride => {
            if c.first + c.buffers@.len() <= MAX_COMPUTE_BUFFER_SLOTS {
                lemma_entries_occupy_their_slots(
                    s.buffers,
                    c.first as int,
                    compute_buffer_entries(c.first as int, c.buffers@),
                    slot,
                );
            }
        },
        ComputeKind::TextureBind => {
            if c.first + c.textures@.len() <= MAX_COMPUTE_TEXTURE_SLOTS {
                lemma_entries_occupy_their_slots(
                    s.textures,
                    c.first as int,
                    compute_texture_entries(c.first as int, c.textures@),
                    slot,
                );
            }
        },
        ComputeKind::SamplerBind | ComputeKind::SamplerLod => {
            if c.first + c.samplers@.len() <= MAX_COMPUTE_SAMPLER_SLOTS {
                lemma_entries_occupy_their_slots(
                    s.samplers,
                    c.first as int,
                    compute_sampler_entries(c.first as int, c.samplers@),
                    slot,
                );
            }
        },
        ComputeKind::ThreadgroupMemory => {
            lemma_binding_a_slot(
                s.threadgroup_memory,
                ThreadgroupMemory {
                    index: c.threadgroup_memory_index,
                    length: c.threadgroup_memory_length,
                },
                slot,
            );
        },
        ComputeKind::BufferOffset | ComputeKind::BufferOffsetAttributeStride => {
            lemma_position_of(s.buffers, c.first);
            if let Ok(next) = compute_state_step(s, c) {
                let p = position_of(s.buffers, c.first)->0;
                let moved = next.buffers[p];
                assert(with_bind(s.buffers, moved) == next.buffers);
                lemma_binding_a_slot(s.buffers, moved, slot);
            }
        },
        _ => {},
    }
}

/// What contracts say of a compute encoder is what it holds.
pub proof fn lemma_a_compute_encoder_is_seen_whole(accum: ComputeAccum)
    ensures
        accum@.pipeline_ref == accum.pipeline_ref,
        accum@.buffers == accum.buffers@,
        accum@.textures == accum.textures@,
        accum@.samplers == accum.samplers@,
        accum@.dispatch_type == accum.dispatch_type,
        accum@.stage_in == accum.stage_in,
        accum@.threadgroup_memory == accum.threadgroup_memory@,
        accum@.imageblock == accum.imageblock,
{
}

} // verus!
