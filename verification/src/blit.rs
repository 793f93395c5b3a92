//! Copies, fills and operations on indirect command buffers, resolved.

use vstd::prelude::*;

use crate::command::{
    BlitAspect, BlitAspectOption, BlitCommand, BlitKind, BlitOpcode, CopyKind, FillSource, Point,
    RefKind, Size,
};
use crate::session::{
    BufferAnswer, BufferQuery, EndpointAnswer, EndpointQuery, IndirectCommandAnswer,
    IndirectCommandOperation, IndirectCommandRange, IndirectCommandResolutionError,
    ReplacementBufferRangeResolutionError, ReplacementRuntimeSession,
    ReplacementTextureEndpointResolutionError, ResolvedBufferRange, ResolvedIndirectCommand,
    ResolvedTextureEndpoint,
};
use crate::tables::answer_of;

verus! {

/// One end of a copy.
#[derive(Clone, Copy, Debug, PartialEq, Eq, Structural)]
pub enum BlitEndpoint {
    Source,
    Destination,
}

/// What a buffer is filled with.
#[derive(Clone, Copy, Debug, PartialEq, Eq)]
pub enum BufferFillPattern {
    Byte(u8),
    Word([u8; 4]),
}

/// A copy of texels from a buffer.
#[derive(Clone, Copy, Debug, PartialEq, Eq, Structural)]
pub struct ResolvedBufferToTextureBlit {
    pub source: ResolvedBufferRange,
    pub source_bytes_per_row: u64,
    pub source_bytes_per_image: u64,
    pub destination: ResolvedTextureEndpoint,
    pub destination_origin: Point,
    pub extent: Size,
    pub aspect: BlitAspect,
}

/// A copy of texels to a buffer.
#[derive(Clone, Copy, Debug, PartialEq, Eq, Structural)]
pub struct ResolvedTextureToBufferBlit {
    pub source: ResolvedTextureEndpoint,
    pub source_origin: Point,
    pub extent: Size,
    pub destination: ResolvedBufferRange,
    pub destination_bytes_per_row: u64,
    pub destination_bytes_per_image: u64,
    pub aspect: BlitAspect,
}

/// A copy of texels between textures.
#[derive(Clone, Copy, Debug, PartialEq, Eq, Structural)]
pub struct ResolvedTextureToTextureBlit {
    pub source: ResolvedTextureEndpoint,
    pub source_origin: Point,
    pub destination: ResolvedTextureEndpoint,
    pub destination_origin: Point,
    pub extent: Size,
    pub aspect: BlitAspect,
}

/// A copy of whole subresources: per level, per slice.
#[derive(Debug, PartialEq, Eq)]
pub struct ResolvedTextureCopyBatch {
    pub source_base_slice: u16,
    pub destination_base_slice: u16,
    pub levels: Vec<Vec<(ResolvedTextureEndpoint, ResolvedTextureEndpoint)>>,
}

/// A blit, resolved.
#[derive(Debug, PartialEq, Eq)]
#[allow(inconsistent_fields)]
pub enum ResolvedBlit {
    Fill { destination: ResolvedBufferRange, pattern: BufferFillPattern },
    Copy { source: ResolvedBufferRange, destination: ResolvedBufferRange },
    BufferToTexture(ResolvedBufferToTextureBlit),
    TextureToBuffer(ResolvedTextureToBufferBlit),
    TextureToTexture(ResolvedTextureToTextureBlit),
    TextureCopyBatch(ResolvedTextureCopyBatch),
}

/// What contracts say of a blit.
#[verifier::ext_equal]
#[allow(inconsistent_fields)]
pub enum BlitView {
    Fill { destination: ResolvedBufferRange, pattern: BufferFillPattern },
    Copy { source: ResolvedBufferRange, destination: ResolvedBufferRange },
    BufferToTexture(ResolvedBufferToTextureBlit),
    TextureToBuffer(ResolvedTextureToBufferBlit),
    TextureToTexture(ResolvedTextureToTextureBlit),
    TextureCopyBatch {
        source_base_slice: u16,
        destination_base_slice: u16,
        levels: Seq<Seq<(ResolvedTextureEndpoint, ResolvedTextureEndpoint)>>,
    },
}

/// The contents of a vector of vectors.
pub open spec fn rows<T>(levels: Seq<Vec<T>>) -> Seq<Seq<T>> {
    Seq::new(levels.len(), |i: int| levels[i]@)
}

impl View for ResolvedBlit {
    type V = BlitView;

    open spec fn view(&self) -> BlitView {
        match *self {
            ResolvedBlit::Fill { destination, pattern } => BlitView::Fill { destination, pattern },
            ResolvedBlit::Copy { source, destination } => BlitView::Copy { source, destination },
            ResolvedBlit::BufferToTexture(blit) => BlitView::BufferToTexture(blit),
            ResolvedBlit::TextureToBuffer(blit) => BlitView::TextureToBuffer(blit),
            ResolvedBlit::TextureToTexture(blit) => BlitView::TextureToTexture(blit),
            ResolvedBlit::TextureCopyBatch(batch) => BlitView::TextureCopyBatch {
                source_base_slice: batch.source_base_slice,
                destination_base_slice: batch.destination_base_slice,
                levels: rows(batch.levels@),
            },
        }
    }
}

// Buffers.

/// Why a buffer blit does not resolve.
#[derive(Clone, Copy, Debug, PartialEq, Eq, Structural)]
pub enum ReplacementBufferBlitResolutionError {
    NotBufferBlit,
    UnalignedWordPattern(u64),
    Range {
        endpoint: BlitEndpoint,
        reference: u32,
        reason: ReplacementBufferRangeResolutionError,
    },
    OverlappingCopy,
}

/// A word's bytes, least significant first.
pub open spec fn le_bytes(word: u32) -> [u8; 4] {
    [
        (word % 256) as u8,
        (word / 256 % 256) as u8,
        (word / 65536 % 256) as u8,
        (word / 16777216) as u8,
    ]
}

/// What a buffer blit record stands for; one over no bytes is no operation.
pub open spec fn buffer_blit(session: ReplacementRuntimeSession, c: BlitCommand) -> Result<
    Option<BlitView>,
    ReplacementBufferBlitResolutionError,
> {
    if c.kind is FillBuffer || c.kind is FillBufferPattern4 {
        if c.range_length == 0 {
            Ok(None)
        } else if c.kind is FillBufferPattern4 && c.range_location % 4 != 0 {
            Err(ReplacementBufferBlitResolutionError::UnalignedWordPattern(c.range_location))
        } else {
            match session.buffer(c.buffer, c.range_location, Some(c.range_length)) {
                Err(reason) => Err(
                    ReplacementBufferBlitResolutionError::Range {
                        endpoint: BlitEndpoint::Destination,
                        reference: c.buffer,
                        reason,
                    },
                ),
                Ok(destination) => Ok(
                    Some(
                        BlitView::Fill {
                            destination,
                            pattern: if c.kind is FillBuffer {
                                BufferFillPattern::Byte(c.fill_value)
                            } else {
                                BufferFillPattern::Word(le_bytes(c.fill_pattern))
                            },
                        },
                    ),
                ),
            }
        }
    } else if c.kind is Copy && c.copy_kind is BufferToBuffer && c.source_kind is Buffer
        && c.destination_kind is Buffer {
        if c.size == 0 {
            Ok(None)
        } else {
            match (
                session.buffer(c.source, c.source_offset, Some(c.size)),
                session.buffer(c.destination, c.destination_offset, Some(c.size)),
            ) {
                (Err(reason), _) => Err(
                    ReplacementBufferBlitResolutionError::Range {
                        endpoint: BlitEndpoint::Source,
                        reference: c.source,
                        reason,
                    },
                ),
                (Ok(_), Err(reason)) => Err(
                    ReplacementBufferBlitResolutionError::Range {
                        endpoint: BlitEndpoint::Destination,
                        reference: c.destination,
                        reason,
                    },
                ),
                (Ok(source), Ok(destination)) => if source.storage == destination.storage
                    && source.region.shares_byte(destination.region) {
                    Err(ReplacementBufferBlitResolutionError::OverlappingCopy)
                } else {
                    Ok(Some(BlitView::Copy { source, destination }))
                },
            }
        }
    } else {
        Err(ReplacementBufferBlitResolutionError::NotBufferBlit)
    }
}

/// The view of what a buffer blit resolves to.
pub open spec fn buffer_blit_result(
    result: Result<Option<ResolvedBlit>, ReplacementBufferBlitResolutionError>,
) -> Result<Option<BlitView>, ReplacementBufferBlitResolutionError> {
    match result {
        Ok(None) => Ok(None),
        Ok(Some(blit)) => Ok(Some(blit@)),
        Err(error) => Err(error),
    }
}

/// Resolves a buffer blit record.
pub fn resolve_buffer_blit_record(session: &ReplacementRuntimeSession, command: &BlitCommand)
    -> (blit: Result<Option<ResolvedBlit>, ReplacementBufferBlitResolutionError>)
    ensures
        buffer_blit_result(blit) == buffer_blit(*session, *command),
{
    match command.kind {
        BlitKind::FillBuffer | BlitKind::FillBufferPattern4 => {
            if command.range_length == 0 {
                return Ok(None);
            }
            let pattern = if command.kind == BlitKind::FillBuffer {
                BufferFillPattern::Byte(command.fill_value)
            } else {
                if command.range_location % 4 != 0 {
                    return Err(
                        ReplacementBufferBlitResolutionError::UnalignedWordPattern(
                            command.range_location,
                        ),
                    );
                }
                let word: u32 = command.fill_pattern;
                BufferFillPattern::Word(
                    [
                        (word % 256) as u8,
                        (word / 256 % 256) as u8,
                        (word / 65536 % 256) as u8,
                        (word / 16777216) as u8,
                    ],
                )
            };
            match session.resolve_buffer_range(
                command.buffer,
                command.range_location,
                command.range_length,
            ) {
                Err(reason) => Err(
                    ReplacementBufferBlitResolutionError::Range {
                        endpoint: BlitEndpoint::Destination,
                        reference: command.buffer,
                        reason,
                    },
                ),
                Ok(destination) => Ok(Some(ResolvedBlit::Fill { destination, pattern })),
            }
        },
        BlitKind::Copy => {
            if command.copy_kind != CopyKind::BufferToBuffer || command.source_kind
                != RefKind::Buffer || command.destination_kind != RefKind::Buffer {
                return Err(ReplacementBufferBlitResolutionError::NotBufferBlit);
            }
            if command.size == 0 {
                return Ok(None);
            }
            let source = match session.resolve_buffer_range(
                command.source,
                command.source_offset,
                command.size,
            ) {
                Ok(source) => source,
                Err(reason) => {
                    return Err(
                        ReplacementBufferBlitResolutionError::Range {
                            endpoint: BlitEndpoint::Source,
                            reference: command.source,
                            reason,
                        },
                    );
                },
            };
            let destination = match session.resolve_buffer_range(
                command.destination,
                command.destination_offset,
                command.size,
            ) {
                Ok(destination) => destination,
                Err(reason) => {
                    return Err(
                        ReplacementBufferBlitResolutionError::Range {
                            endpoint: BlitEndpoint::Destination,
                            reference: command.destination,
                            reason,
                        },
                    );
                },
            };
            if source.storage == destination.storage && source.region.overlaps(
                &destination.region,
            ) {
                return Err(ReplacementBufferBlitResolutionError::OverlappingCopy);
            }
            Ok(Some(ResolvedBlit::Copy { source, destination }))
        },
        _ => Err(ReplacementBufferBlitResolutionError::NotBufferBlit),
    }
}

// Indirect command buffers.

/// Why a record on indirect command buffers does not resolve.
#[derive(Clone, Copy, Debug, PartialEq, Eq, Structural)]
pub enum ReplacementIndirectCommandResolutionError {
    NotIndirectCommand,
    UnknownRangeOpcode(BlitOpcode),
    Resolve(IndirectCommandResolutionError),
}

/// The operation that a record on indirect command buffers names.
pub open spec fn indirect_operation(c: BlitCommand) -> Result<
    IndirectCommandOperation,
    ReplacementIndirectCommandResolutionError,
> {
    let range = IndirectCommandRange { location: c.range_location, length: c.range_length };
    match (c.kind, c.opcode) {
        (BlitKind::IcbRange, BlitOpcode::OptimizeIcb) => Ok(
            IndirectCommandOperation::Optimize { icb: c.resource, range },
        ),
        (BlitKind::IcbRange, BlitOpcode::ResetIcb) => Ok(
            IndirectCommandOperation::Reset { icb: c.resource, range },
        ),
        (BlitKind::IcbRange, opcode) => Err(
            ReplacementIndirectCommandResolutionError::UnknownRangeOpcode(opcode),
        ),
        (BlitKind::IcbCopy, _) => Ok(
            IndirectCommandOperation::Copy {
                source: c.source,
                source_range: range,
                destination: c.destination,
                destination_index: c.destination_index,
            },
        ),
        _ => Err(ReplacementIndirectCommandResolutionError::NotIndirectCommand),
    }
}

/// What a record on indirect command buffers stands for.
pub open spec fn indirect_record(session: ReplacementRuntimeSession, c: BlitCommand) -> Result<
    ResolvedIndirectCommand,
    ReplacementIndirectCommandResolutionError,
> {
    match indirect_operation(c) {
        Err(error) => Err(error),
        Ok(operation) => match session.indirect_command(operation) {
            Err(error) => Err(ReplacementIndirectCommandResolutionError::Resolve(error)),
            Ok(command) => Ok(command),
        },
    }
}

/// Resolves a record on indirect command buffers.
pub fn resolve_indirect_command_record(
    session: &ReplacementRuntimeSession,
    command: &BlitCommand,
) -> (resolved: Result<ResolvedIndirectCommand, ReplacementIndirectCommandResolutionError>)
    ensures
        resolved == indirect_record(*session, *command),
{
    let range = IndirectCommandRange {
        location: command.range_location,
        length: command.range_length,
    };
    let operation = match command.kind {
        BlitKind::IcbRange => match command.opcode {
            BlitOpcode::OptimizeIcb => IndirectCommandOperation::Optimize {
                icb: command.resource,
                range,
            },
            BlitOpcode::ResetIcb => IndirectCommandOperation::Reset {
                icb: command.resource,
                range,
            },
            opcode => {
                return Err(ReplacementIndirectCommandResolutionError::UnknownRangeOpcode(opcode));
            },
        },
        BlitKind::IcbCopy => IndirectCommandOperation::Copy {
            source: command.source,
            source_range: range,
            destination: command.destination,
            destination_index: command.destination_index,
        },
        _ => {
            return Err(ReplacementIndirectCommandResolutionError::NotIndirectCommand);
        },
    };
    match session.resolve_indirect_command(operation) {
        Ok(resolved) => Ok(resolved),
        Err(error) => Err(ReplacementIndirectCommandResolutionError::Resolve(error)),
    }
}

// Images.

/// Why an image blit does not resolve.
#[derive(Clone, Copy, Debug, PartialEq, Eq, Structural)]
#[allow(inconsistent_fields)]
pub enum ReplacementImageBlitResolutionError {
    NotImageCopy,
    Buffer {
        endpoint: BlitEndpoint,
        reference: u32,
        reason: ReplacementBufferRangeResolutionError,
    },
    Texture {
        endpoint: BlitEndpoint,
        reference: u32,
        reason: ReplacementTextureEndpointResolutionError,
    },
    Options(u32),
    AspectUnsupported { endpoint: BlitEndpoint, pixel_format: u16 },
    TexelWidthMismatch { source: u32, destination: u32 },
    OverlappingImageCopy,
    LevelOverflow(BlitEndpoint),
    SliceOverflow(BlitEndpoint),
    VolumeSliceConstraint,
    SubresourceGeometryMismatch,
}

/// Whether two runs of `length` coordinates meet. Runs that leave the
/// coordinate space meet nowhere.
pub open spec fn axis_overlaps(source: u32, destination: u32, length: u32) -> bool {
    &&& source + length <= u32::MAX
    &&& destination + length <= u32::MAX
    &&& source < destination + length
    &&& destination < source + length
}

/// Whether two boxes of one extent meet.
pub open spec fn boxes_overlap(source: Point, destination: Point, extent: Size) -> bool {
    &&& axis_overlaps(source.x, destination.x, extent.width)
    &&& axis_overlaps(source.y, destination.y, extent.height)
    &&& axis_overlaps(source.z, destination.z, extent.depth)
}

/// Whether a box of an extent at an origin holds a texel.
pub open spec fn in_box(origin: Point, extent: Size, x: int, y: int, z: int) -> bool {
    &&& origin.x <= x < origin.x + extent.width
    &&& origin.y <= y < origin.y + extent.height
    &&& origin.z <= z < origin.z + extent.depth
}

/// Whether a box lies in the coordinate space.
pub open spec fn box_in_space(origin: Point, extent: Size) -> bool {
    &&& origin.x + extent.width <= u32::MAX
    &&& origin.y + extent.height <= u32::MAX
    &&& origin.z + extent.depth <= u32::MAX
}

/// Two boxes that lie in the coordinate space overlap exactly where some texel
/// lies in both.
pub proof fn lemma_boxes_overlap_where_they_share_a_texel(
    source: Point,
    destination: Point,
    extent: Size,
)
    requires
        box_in_space(source, extent),
        box_in_space(destination, extent),
    ensures
        boxes_overlap(source, destination, extent) <==> exists|x: int, y: int, z: int|
            #[trigger] in_box(source, extent, x, y, z) && in_box(destination, extent, x, y, z),
{
    if boxes_overlap(source, destination, extent) {
        let x = if source.x < destination.x {
            destination.x as int
        } else {
            source.x as int
        };
        let y = if source.y < destination.y {
            destination.y as int
        } else {
            source.y as int
        };
        let z = if source.z < destination.z {
            destination.z as int
        } else {
            source.z as int
        };
        assert(in_box(source, extent, x, y, z) && in_box(destination, extent, x, y, z));
    }
}

fn axis_overlap(source: u32, destination: u32, length: u32) -> (overlap: bool)
    ensures
        overlap == axis_overlaps(source, destination, length),
{
    match (source.checked_add(length), destination.checked_add(length)) {
        (Some(source_end), Some(destination_end)) => source < destination_end && destination
            < source_end,
        _ => false,
    }
}

/// Whether two boxes of one extent meet.
pub fn texture_boxes_overlap(source: Point, destination: Point, extent: Size) -> (overlap: bool)
    ensures
        overlap == boxes_overlap(source, destination, extent),
{
    axis_overlap(source.x, destination.x, extent.width) && axis_overlap(
        source.y,
        destination.y,
        extent.height,
    ) && axis_overlap(source.z, destination.z, extent.depth)
}

/// A texture end of a copy.
pub open spec fn texture_end(
    session: ReplacementRuntimeSession,
    endpoint: BlitEndpoint,
    reference: u32,
    level: u16,
    slice: u16,
) -> Result<ResolvedTextureEndpoint, ReplacementImageBlitResolutionError> {
    match session.endpoint(reference, level, slice) {
        Ok(texture) => Ok(texture),
        Err(reason) => Err(
            ReplacementImageBlitResolutionError::Texture { endpoint, reference, reason },
        ),
    }
}

/// A buffer end of a copy.
pub open spec fn buffer_end(
    session: ReplacementRuntimeSession,
    endpoint: BlitEndpoint,
    reference: u32,
    offset: u64,
) -> Result<ResolvedBufferRange, ReplacementImageBlitResolutionError> {
    match session.buffer(reference, offset, None) {
        Ok(range) => Ok(range),
        Err(reason) => Err(
            ReplacementImageBlitResolutionError::Buffer { endpoint, reference, reason },
        ),
    }
}

/// Bytes of one texel's part, where the texture has that part.
pub open spec fn aspect_bytes(
    endpoint: BlitEndpoint,
    texture: ResolvedTextureEndpoint,
    aspect: BlitAspect,
) -> Result<u32, ReplacementImageBlitResolutionError> {
    let bytes = match aspect {
        BlitAspect::Color => texture.color_bytes,
        BlitAspect::Depth => texture.depth_bytes,
        BlitAspect::Stencil => texture.stencil_bytes,
    };
    match bytes {
        Some(bytes) => Ok(bytes),
        None => Err(
            ReplacementImageBlitResolutionError::AspectUnsupported {
                endpoint,
                pixel_format: texture.pixel_format,
            },
        ),
    }
}

fn resolve_texture_end(
    session: &ReplacementRuntimeSession,
    endpoint: BlitEndpoint,
    reference: u32,
    level: u16,
    slice: u16,
) -> (texture: Result<ResolvedTextureEndpoint, ReplacementImageBlitResolutionError>)
    ensures
        texture == texture_end(*session, endpoint, reference, level, slice),
{
    match session.resolve_linear_texture_endpoint(reference, level, slice) {
        Ok(texture) => Ok(texture),
        Err(reason) => Err(
            ReplacementImageBlitResolutionError::Texture { endpoint, reference, reason },
        ),
    }
}

fn resolve_buffer_end(
    session: &ReplacementRuntimeSession,
    endpoint: BlitEndpoint,
    reference: u32,
    offset: u64,
) -> (range: Result<ResolvedBufferRange, ReplacementImageBlitResolutionError>)
    ensures
        range == buffer_end(*session, endpoint, reference, offset),
{
    match session.resolve_buffer_tail(reference, offset) {
        Ok(range) => Ok(range),
        Err(reason) => Err(
            ReplacementImageBlitResolutionError::Buffer { endpoint, reference, reason },
        ),
    }
}

fn resolve_aspect_bytes(
    endpoint: BlitEndpoint,
    texture: ResolvedTextureEndpoint,
    aspect: BlitAspect,
) -> (bytes: Result<u32, ReplacementImageBlitResolutionError>)
    ensures
        bytes == aspect_bytes(endpoint, texture, aspect),
{
    let bytes = match aspect {
        BlitAspect::Color => texture.color_bytes,
        BlitAspect::Depth => texture.depth_bytes,
        BlitAspect::Stencil => texture.stencil_bytes,
    };
    match bytes {
        Some(bytes) => Ok(bytes),
        None => Err(
            ReplacementImageBlitResolutionError::AspectUnsupported {
                endpoint,
                pixel_format: texture.pixel_format,
            },
        ),
    }
}

// Whole subresources.

/// Whether two subresources can be copied whole, slice by slice.
pub open spec fn copies_whole(
    c: BlitCommand,
    source: ResolvedTextureEndpoint,
    destination: ResolvedTextureEndpoint,
) -> Result<(), ReplacementImageBlitResolutionError> {
    if (source.extent.depth > 1 || destination.extent.depth > 1) && (c.slice_count != 1
        || c.source_slice != 0 || c.destination_slice != 0) {
        Err(ReplacementImageBlitResolutionError::VolumeSliceConstraint)
    } else if source.extent != destination.extent || source.bpp != destination.bpp {
        Err(ReplacementImageBlitResolutionError::SubresourceGeometryMismatch)
    } else {
        Ok(())
    }
}

/// The two subresources that one level and slice of a batch joins.
pub open spec fn batch_pair(
    session: ReplacementRuntimeSession,
    c: BlitCommand,
    level: int,
    slice: int,
) -> Result<
    (ResolvedTextureEndpoint, ResolvedTextureEndpoint),
    ReplacementImageBlitResolutionError,
> {
    if c.source_slice + slice > u16::MAX {
        Err(ReplacementImageBlitResolutionError::SliceOverflow(BlitEndpoint::Source))
    } else if c.destination_slice + slice > u16::MAX {
        Err(ReplacementImageBlitResolutionError::SliceOverflow(BlitEndpoint::Destination))
    } else {
        match (
            texture_end(
                session,
                BlitEndpoint::Source,
                c.source,
                (c.source_level + level) as u16,
                (c.source_slice + slice) as u16,
            ),
            texture_end(
                session,
                BlitEndpoint::Destination,
                c.destination,
                (c.destination_level + level) as u16,
                (c.destination_slice + slice) as u16,
            ),
        ) {
            (Err(error), _) => Err(error),
            (Ok(_), Err(error)) => Err(error),
            (Ok(source), Ok(destination)) => match copies_whole(c, source, destination) {
                Err(error) => Err(error),
                Ok(_) => Ok((source, destination)),
            },
        }
    }
}

/// The first `n` slices of a level of a batch, or the first refusal.
pub open spec fn batch_slices(
    session: ReplacementRuntimeSession,
    c: BlitCommand,
    level: int,
    n: nat,
) -> Result<
    Seq<(ResolvedTextureEndpoint, ResolvedTextureEndpoint)>,
    ReplacementImageBlitResolutionError,
>
    decreases n,
{
    if n == 0 {
        Ok(Seq::empty())
    } else {
        match batch_slices(session, c, level, (n - 1) as nat) {
            Err(error) => Err(error),
            Ok(done) => match batch_pair(session, c, level, n - 1) {
                Err(error) => Err(error),
                Ok(pair) => Ok(done.push(pair)),
            },
        }
    }
}

/// One level of a batch.
pub open spec fn batch_level(session: ReplacementRuntimeSession, c: BlitCommand, level: int) -> Result<
    Seq<(ResolvedTextureEndpoint, ResolvedTextureEndpoint)>,
    ReplacementImageBlitResolutionError,
> {
    if c.source_level + level > u16::MAX {
        Err(ReplacementImageBlitResolutionError::LevelOverflow(BlitEndpoint::Source))
    } else if c.destination_level + level > u16::MAX {
        Err(ReplacementImageBlitResolutionError::LevelOverflow(BlitEndpoint::Destination))
    } else {
        batch_slices(session, c, level, c.slice_count as nat)
    }
}

/// The first `n` levels of a batch, or the first refusal.
pub open spec fn batch_levels(session: ReplacementRuntimeSession, c: BlitCommand, n: nat) -> Result<
    Seq<Seq<(ResolvedTextureEndpoint, ResolvedTextureEndpoint)>>,
    ReplacementImageBlitResolutionError,
>
    decreases n,
{
    if n == 0 {
        Ok(Seq::empty())
    } else {
        match batch_levels(session, c, (n - 1) as nat) {
            Err(error) => Err(error),
            Ok(done) => match batch_level(session, c, n - 1) {
                Err(error) => Err(error),
                Ok(level) => Ok(done.push(level)),
            },
        }
    }
}

/// What a copy of whole subresources stands for; one of none is no operation.
pub open spec fn texture_copy_batch(session: ReplacementRuntimeSession, c: BlitCommand) -> Result<
    Option<BlitView>,
    ReplacementImageBlitResolutionError,
> {
    if c.slice_count == 0 || c.level_count == 0 {
        Ok(None)
    } else {
        match batch_levels(session, c, c.level_count as nat) {
            Err(error) => Err(error),
            Ok(levels) => Ok(
                Some(
                    BlitView::TextureCopyBatch {
                        source_base_slice: c.source_slice,
                        destination_base_slice: c.destination_slice,
                        levels,
                    },
                ),
            ),
        }
    }
}

/// A batch has as many levels as its record states, and each level as many
/// slices.
pub proof fn lemma_batch_shape(session: ReplacementRuntimeSession, c: BlitCommand, n: nat)
    ensures
        batch_levels(session, c, n) matches Ok(levels) ==> {
            &&& levels.len() == n
            &&& forall|i: int| 0 <= i < n ==> (#[trigger] levels[i]).len() == c.slice_count
        },
    decreases n,
{
    if n > 0 {
        lemma_batch_shape(session, c, (n - 1) as nat);
        lemma_level_shape(session, c, n - 1, c.slice_count as nat);
    }
}

proof fn lemma_level_shape(session: ReplacementRuntimeSession, c: BlitCommand, level: int, n: nat)
    ensures
        batch_slices(session, c, level, n) matches Ok(slices) ==> slices.len() == n,
    decreases n,
{
    if n > 0 {
        lemma_level_shape(session, c, level, (n - 1) as nat);
    }
}

proof fn lemma_slice_refusal_of_a_prefix(
    session: ReplacementRuntimeSession,
    c: BlitCommand,
    level: int,
    n: nat,
    m: nat,
)
    requires
        n <= m,
        batch_slices(session, c, level, n) is Err,
    ensures
        batch_slices(session, c, level, m) == batch_slices(session, c, level, n),
    decreases m - n,
{
    if n < m {
        lemma_slice_refusal_of_a_prefix(session, c, level, n, (m - 1) as nat);
    }
}

proof fn lemma_level_refusal_of_a_prefix(
    session: ReplacementRuntimeSession,
    c: BlitCommand,
    n: nat,
    m: nat,
)
    requires
        n <= m,
        batch_levels(session, c, n) is Err,
    ensures
        batch_levels(session, c, m) == batch_levels(session, c, n),
    decreases m - n,
{
    if n < m {
        lemma_level_refusal_of_a_prefix(session, c, n, (m - 1) as nat);
    }
}

fn resolve_batch_pair(
    session: &ReplacementRuntimeSession,
    command: &BlitCommand,
    level: u16,
    slice: u16,
) -> (pair: Result<
    (ResolvedTextureEndpoint, ResolvedTextureEndpoint),
    ReplacementImageBlitResolutionError,
>)
    requires
        command.source_level + level <= u16::MAX,
        command.destination_level + level <= u16::MAX,
    ensures
        pair == batch_pair(*session, *command, level as int, slice as int),
{
    let source_slice: u16 = match command.source_slice.checked_add(slice) {
        Some(source_slice) => source_slice,
        None => {
            return Err(ReplacementImageBlitResolutionError::SliceOverflow(BlitEndpoint::Source));
        },
    };
    let destination_slice: u16 = match command.destination_slice.checked_add(slice) {
        Some(destination_slice) => destination_slice,
        None => {
            return Err(
                ReplacementImageBlitResolutionError::SliceOverflow(BlitEndpoint::Destination),
            );
        },
    };
    let source = match resolve_texture_end(
        session,
        BlitEndpoint::Source,
        command.source,
        command.source_level + level,
        source_slice,
    ) {
        Ok(source) => source,
        Err(error) => {
            return Err(error);
        },
    };
    let destination = match resolve_texture_end(
        session,
        BlitEndpoint::Destination,
        command.destination,
        command.destination_level + level,
        destination_slice,
    ) {
        Ok(destination) => destination,
        Err(error) => {
            return Err(error);
        },
    };
    if (source.extent.depth > 1 || destination.extent.depth > 1) && (command.slice_count != 1
        || command.source_slice != 0 || command.destination_slice != 0) {
        return Err(ReplacementImageBlitResolutionError::VolumeSliceConstraint);
    }
    if source.extent != destination.extent || source.bpp != destination.bpp {
        return Err(ReplacementImageBlitResolutionError::SubresourceGeometryMismatch);
    }
    Ok((source, destination))
}

fn resolve_batch_level(session: &ReplacementRuntimeSession, command: &BlitCommand, level: u16)
    -> (slices: Result<
    Vec<(ResolvedTextureEndpoint, ResolvedTextureEndpoint)>,
    ReplacementImageBlitResolutionError,
>)
    ensures
        match slices {
            Ok(slices) => batch_level(*session, *command, level as int) == Ok::<
                Seq<(ResolvedTextureEndpoint, ResolvedTextureEndpoint)>,
                ReplacementImageBlitResolutionError,
            >(slices@),
            Err(error) => batch_level(*session, *command, level as int) == Err::<
                Seq<(ResolvedTextureEndpoint, ResolvedTextureEndpoint)>,
                ReplacementImageBlitResolutionError,
            >(error),
        },
{
    if command.source_level.checked_add(level).is_none() {
        return Err(ReplacementImageBlitResolutionError::LevelOverflow(BlitEndpoint::Source));
    }
    if command.destination_level.checked_add(level).is_none() {
        return Err(ReplacementImageBlitResolutionError::LevelOverflow(BlitEndpoint::Destination));
    }
    let mut slices: Vec<(ResolvedTextureEndpoint, ResolvedTextureEndpoint)> = Vec::new();
    let mut slice: u16 = 0;
    while slice < command.slice_count
        invariant
            slice <= command.slice_count,
            command.source_level + level <= u16::MAX,
            command.destination_level + level <= u16::MAX,
            batch_slices(*session, *command, level as int, slice as nat) == Ok::<
                Seq<(ResolvedTextureEndpoint, ResolvedTextureEndpoint)>,
                ReplacementImageBlitResolutionError,
            >(slices@),
        decreases command.slice_count - slice,
    {
        match resolve_batch_pair(session, command, level, slice) {
            Ok(pair) => slices.push(pair),
            Err(error) => {
                proof {
                    lemma_slice_refusal_of_a_prefix(
                        *session,
                        *command,
                        level as int,
                        (slice + 1) as nat,
                        command.slice_count as nat,
                    );
                }
                return Err(error);
            },
        }
        slice += 1;
    }
    Ok(slices)
}

/// The view of what an image blit resolves to.
pub open spec fn image_blit_result(
    result: Result<Option<ResolvedBlit>, ReplacementImageBlitResolutionError>,
) -> Result<Option<BlitView>, ReplacementImageBlitResolutionError> {
    match result {
        Ok(None) => Ok(None),
        Ok(Some(blit)) => Ok(Some(blit@)),
        Err(error) => Err(error),
    }
}

/// Resolves a copy of whole subresources.
pub fn resolve_texture_copy_batch(session: &ReplacementRuntimeSession, command: &BlitCommand)
    -> (blit: Result<Option<ResolvedBlit>, ReplacementImageBlitResolutionError>)
    ensures
        image_blit_result(blit) == texture_copy_batch(*session, *command),
{
    if command.slice_count == 0 || command.level_count == 0 {
        return Ok(None);
    }
    let mut levels: Vec<Vec<(ResolvedTextureEndpoint, ResolvedTextureEndpoint)>> = Vec::new();
    assert(rows(levels@) =~= Seq::empty());
    let mut level: u16 = 0;
    while level < command.level_count
        invariant
            level <= command.level_count,
            command.level_count != 0,
            command.slice_count != 0,
            batch_levels(*session, *command, level as nat) == Ok::<
                Seq<Seq<(ResolvedTextureEndpoint, ResolvedTextureEndpoint)>>,
                ReplacementImageBlitResolutionError,
            >(rows(levels@)),
        decreases command.level_count - level,
    {
        match resolve_batch_level(session, command, level) {
            Ok(slices) => {
                let ghost before = levels@;
                let ghost added = slices@;
                levels.push(slices);
                assert(rows(levels@) =~= rows(before).push(added));
            },
            Err(error) => {
                proof {
                    lemma_level_refusal_of_a_prefix(
                        *session,
                        *command,
                        (level + 1) as nat,
                        command.level_count as nat,
                    );
                }
                return Err(error);
            },
        }
        level += 1;
    }
    Ok(
        Some(
            ResolvedBlit::TextureCopyBatch(
                ResolvedTextureCopyBatch {
                    source_base_slice: command.source_slice,
                    destination_base_slice: command.destination_slice,
                    levels,
                },
            ),
        ),
    )
}

/// What a copy from a buffer to a texture stands for.
pub open spec fn buffer_to_texture(
    session: ReplacementRuntimeSession,
    c: BlitCommand,
    aspect: BlitAspect,
) -> Result<BlitView, ReplacementImageBlitResolutionError> {
    match texture_end(
        session,
        BlitEndpoint::Destination,
        c.destination,
        c.destination_level,
        c.destination_slice,
    ) {
        Err(error) => Err(error),
        Ok(destination) => match aspect_bytes(BlitEndpoint::Destination, destination, aspect) {
            Err(error) => Err(error),
            Ok(_) => match buffer_end(session, BlitEndpoint::Source, c.source, c.source_offset) {
                Err(error) => Err(error),
                Ok(source) => Ok(
                    BlitView::BufferToTexture(
                        ResolvedBufferToTextureBlit {
                            source,
                            source_bytes_per_row: c.source_bytes_per_row,
                            source_bytes_per_image: c.source_bytes_per_image,
                            destination,
                            destination_origin: c.destination_origin,
                            extent: c.source_size,
                            aspect,
                        },
                    ),
                ),
            },
        },
    }
}

/// What a copy from a texture to a buffer stands for.
pub open spec fn texture_to_buffer(
    session: ReplacementRuntimeSession,
    c: BlitCommand,
    aspect: BlitAspect,
) -> Result<BlitView, ReplacementImageBlitResolutionError> {
    match texture_end(session, BlitEndpoint::Source, c.source, c.source_level, c.source_slice) {
        Err(error) => Err(error),
        Ok(source) => match aspect_bytes(BlitEndpoint::Source, source, aspect) {
            Err(error) => Err(error),
            Ok(_) => match buffer_end(
                session,
                BlitEndpoint::Destination,
                c.destination,
                c.destination_offset,
            ) {
                Err(error) => Err(error),
                Ok(destination) => Ok(
                    BlitView::TextureToBuffer(
                        ResolvedTextureToBufferBlit {
                            source,
                            source_origin: c.source_origin,
                            extent: c.source_size,
                            destination,
                            destination_bytes_per_row: c.destination_bytes_per_row,
                            destination_bytes_per_image: c.destination_bytes_per_image,
                            aspect,
                        },
                    ),
                ),
            },
        },
    }
}

/// Whether two ends are one subresource of one storage.
pub open spec fn same_subresource(
    source: ResolvedTextureEndpoint,
    destination: ResolvedTextureEndpoint,
) -> bool {
    &&& source.storage == destination.storage
    &&& source.level == destination.level
    &&& source.slice == destination.slice
}

/// What a copy between textures stands for.
pub open spec fn texture_to_texture(
    session: ReplacementRuntimeSession,
    c: BlitCommand,
    aspect: BlitAspect,
) -> Result<BlitView, ReplacementImageBlitResolutionError> {
    match (
        texture_end(session, BlitEndpoint::Source, c.source, c.source_level, c.source_slice),
        texture_end(
            session,
            BlitEndpoint::Destination,
            c.destination,
            c.destination_level,
            c.destination_slice,
        ),
    ) {
        (Err(error), _) => Err(error),
        (Ok(_), Err(error)) => Err(error),
        (Ok(source), Ok(destination)) => match (
            aspect_bytes(BlitEndpoint::Source, source, aspect),
            aspect_bytes(BlitEndpoint::Destination, destination, aspect),
        ) {
            (Err(error), _) => Err(error),
            (Ok(_), Err(error)) => Err(error),
            (Ok(source_width), Ok(destination_width)) => if source_width != destination_width {
                Err(
                    ReplacementImageBlitResolutionError::TexelWidthMismatch {
                        source: source_width,
                        destination: destination_width,
                    },
                )
            } else if same_subresource(source, destination) && boxes_overlap(
                c.source_origin,
                c.destination_origin,
                c.source_size,
            ) {
                Err(ReplacementImageBlitResolutionError::OverlappingImageCopy)
            } else {
                Ok(
                    BlitView::TextureToTexture(
                        ResolvedTextureToTextureBlit {
                            source,
                            source_origin: c.source_origin,
                            destination,
                            destination_origin: c.destination_origin,
                            extent: c.source_size,
                            aspect,
                        },
                    ),
                )
            },
        },
    }
}

/// What an image blit record stands for; one over no texels is no operation.
pub open spec fn image_blit(session: ReplacementRuntimeSession, c: BlitCommand) -> Result<
    Option<BlitView>,
    ReplacementImageBlitResolutionError,
> {
    if !(c.kind is Copy) || c.copy_kind is Absent || c.copy_kind is BufferToBuffer {
        Err(ReplacementImageBlitResolutionError::NotImageCopy)
    } else if c.copy_kind is TextureToTextureSliceLevel {
        texture_copy_batch(session, c)
    } else if c.source_size.width == 0 || c.source_size.height == 0 || c.source_size.depth == 0 {
        Ok(None)
    } else {
        match c.aspect {
            BlitAspectOption::Refused(reason) => Err(
                ReplacementImageBlitResolutionError::Options(reason),
            ),
            BlitAspectOption::Aspect(aspect) => {
                let blit = match c.copy_kind {
                    CopyKind::BufferToTexture => buffer_to_texture(session, c, aspect),
                    CopyKind::TextureToBuffer => texture_to_buffer(session, c, aspect),
                    _ => texture_to_texture(session, c, aspect),
                };
                match blit {
                    Err(error) => Err(error),
                    Ok(blit) => Ok(Some(blit)),
                }
            },
        }
    }
}

fn resolve_texture_to_texture(
    session: &ReplacementRuntimeSession,
    command: &BlitCommand,
    aspect: BlitAspect,
) -> (blit: Result<Option<ResolvedBlit>, ReplacementImageBlitResolutionError>)
    ensures
        image_blit_result(blit) == (match texture_to_texture(*session, *command, aspect) {
            Ok(blit) => Ok::<Option<BlitView>, ReplacementImageBlitResolutionError>(Some(blit)),
            Err(error) => Err(error),
        }),
{
    let source = match resolve_texture_end(
        session,
        BlitEndpoint::Source,
        command.source,
        command.source_level,
        command.source_slice,
    ) {
        Ok(source) => source,
        Err(error) => {
            return Err(error);
        },
    };
    let destination = match resolve_texture_end(
        session,
        BlitEndpoint::Destination,
        command.destination,
        command.destination_level,
        command.destination_slice,
    ) {
        Ok(destination) => destination,
        Err(error) => {
            return Err(error);
        },
    };
    let source_width: u32 = match resolve_aspect_bytes(BlitEndpoint::Source, source, aspect) {
        Ok(bytes) => bytes,
        Err(error) => {
            return Err(error);
        },
    };
    let destination_width: u32 = match resolve_aspect_bytes(
        BlitEndpoint::Destination,
        destination,
        aspect,
    ) {
        Ok(bytes) => bytes,
        Err(error) => {
            return Err(error);
        },
    };
    if source_width != destination_width {
        return Err(
            ReplacementImageBlitResolutionError::TexelWidthMismatch {
                source: source_width,
                destination: destination_width,
            },
        );
    }
    if source.storage == destination.storage && source.level == destination.level && source.slice
        == destination.slice && texture_boxes_overlap(
        command.source_origin,
        command.destination_origin,
        command.source_size,
    ) {
        return Err(ReplacementImageBlitResolutionError::OverlappingImageCopy);
    }
    Ok(
        Some(
            ResolvedBlit::TextureToTexture(
                ResolvedTextureToTextureBlit {
                    source,
                    source_origin: command.source_origin,
                    destination,
                    destination_origin: command.destination_origin,
                    extent: command.source_size,
                    aspect,
                },
            ),
        ),
    )
}

fn resolve_buffer_to_texture(
    session: &ReplacementRuntimeSession,
    command: &BlitCommand,
    aspect: BlitAspect,
) -> (blit: Result<Option<ResolvedBlit>, ReplacementImageBlitResolutionError>)
    ensures
        image_blit_result(blit) == (match buffer_to_texture(*session, *command, aspect) {
            Ok(blit) => Ok::<Option<BlitView>, ReplacementImageBlitResolutionError>(Some(blit)),
            Err(error) => Err(error),
        }),
{
    let destination = match resolve_texture_end(
        session,
        BlitEndpoint::Destination,
        command.destination,
        command.destination_level,
        command.destination_slice,
    ) {
        Ok(destination) => destination,
        Err(error) => {
            return Err(error);
        },
    };
    if let Err(error) = resolve_aspect_bytes(BlitEndpoint::Destination, destination, aspect) {
        return Err(error);
    }
    let source = match resolve_buffer_end(
        session,
        BlitEndpoint::Source,
        command.source,
        command.source_offset,
    ) {
        Ok(source) => source,
        Err(error) => {
            return Err(error);
        },
    };
    Ok(
        Some(
            ResolvedBlit::BufferToTexture(
                ResolvedBufferToTextureBlit {
                    source,
                    source_bytes_per_row: command.source_bytes_per_row,
                    source_bytes_per_image: command.source_bytes_per_image,
                    destination,
                    destination_origin: command.destination_origin,
                    extent: command.source_size,
                    aspect,
                },
            ),
        ),
    )
}

fn resolve_texture_to_buffer(
    session: &ReplacementRuntimeSession,
    command: &BlitCommand,
    aspect: BlitAspect,
) -> (blit: Result<Option<ResolvedBlit>, ReplacementImageBlitResolutionError>)
    ensures
        image_blit_result(blit) == (match texture_to_buffer(*session, *command, aspect) {
            Ok(blit) => Ok::<Option<BlitView>, ReplacementImageBlitResolutionError>(Some(blit)),
            Err(error) => Err(error),
        }),
{
    let source = match resolve_texture_end(
        session,
        BlitEndpoint::Source,
        command.source,
        command.source_level,
        command.source_slice,
    ) {
        Ok(source) => source,
        Err(error) => {
            return Err(error);
        },
    };
    if let Err(error) = resolve_aspect_bytes(BlitEndpoint::Source, source, aspect) {
        return Err(error);
    }
    let destination = match resolve_buffer_end(
        session,
        BlitEndpoint::Destination,
        command.destination,
        command.destination_offset,
    ) {
        Ok(destination) => destination,
        Err(error) => {
            return Err(error);
        },
    };
    Ok(
        Some(
            ResolvedBlit::TextureToBuffer(
                ResolvedTextureToBufferBlit {
                    source,
                    source_origin: command.source_origin,
                    extent: command.source_size,
                    destination,
                    destination_bytes_per_row: command.destination_bytes_per_row,
                    destination_bytes_per_image: command.destination_bytes_per_image,
                    aspect,
                },
            ),
        ),
    )
}

/// Resolves an image blit record.
pub fn resolve_image_blit_record(session: &ReplacementRuntimeSession, command: &BlitCommand)
    -> (blit: Result<Option<ResolvedBlit>, ReplacementImageBlitResolutionError>)
    ensures
        image_blit_result(blit) == image_blit(*session, *command),
{
    if command.kind != BlitKind::Copy || command.copy_kind == CopyKind::Absent
        || command.copy_kind == CopyKind::BufferToBuffer {
        return Err(ReplacementImageBlitResolutionError::NotImageCopy);
    }
    if command.copy_kind == CopyKind::TextureToTextureSliceLevel {
        return resolve_texture_copy_batch(session, command);
    }
    let extent = command.source_size;
    if extent.width == 0 || extent.height == 0 || extent.depth == 0 {
        return Ok(None);
    }
    let aspect = match command.aspect {
        BlitAspectOption::Aspect(aspect) => aspect,
        BlitAspectOption::Refused(reason) => {
            return Err(ReplacementImageBlitResolutionError::Options(reason));
        },
    };
    match command.copy_kind {
        CopyKind::BufferToTexture => resolve_buffer_to_texture(session, command, aspect),
        CopyKind::TextureToBuffer => resolve_texture_to_buffer(session, command, aspect),
        _ => resolve_texture_to_texture(session, command, aspect),
    }
}

// Texture work that no operation stands for.

/// What a texture is filled with.
#[derive(Clone, Copy, Debug, PartialEq, Eq)]
pub enum ReplacementTextureFillValue {
    Color { raw: (u64, u64, u64, u64), pixel_format: u16 },
    Bytes { reference: u32, offset: u64, length: u64 },
}

/// A fill of a texture.
#[derive(Clone, Copy, Debug, PartialEq, Eq)]
pub struct ReplacementTextureFill {
    pub texture_ref: u32,
    pub level: u16,
    pub slice: u16,
    pub origin: Point,
    pub size: Size,
    pub value: ReplacementTextureFillValue,
}

/// Why a texture record does not resolve.
#[derive(Clone, Copy, Debug, PartialEq, Eq)]
pub enum ReplacementTextureBlitResolutionError {
    Malformed { kind: BlitKind, opcode: BlitOpcode, fill_source: FillSource },
    GenerateMipmapsUnsupported { opcode: BlitOpcode, texture_ref: u32 },
    SynchronizeResourceUnsupported { opcode: BlitOpcode, resource_ref: u32 },
    SynchronizeTextureUnsupported { opcode: BlitOpcode, texture_ref: u32, level: u16, slice: u16 },
    FillUnsupported { opcode: BlitOpcode, fill: ReplacementTextureFill },
}

pub open spec fn record_fill(c: BlitCommand, value: ReplacementTextureFillValue)
    -> ReplacementTextureFill {
    ReplacementTextureFill {
        texture_ref: c.texture,
        level: c.level,
        slice: c.slice,
        origin: c.fill_origin,
        size: c.fill_size,
        value,
    }
}

/// Why a texture record does not resolve.
pub open spec fn texture_refusal(c: BlitCommand) -> ReplacementTextureBlitResolutionError {
    match (c.kind, c.opcode) {
        (
            BlitKind::Resource,
            BlitOpcode::GenerateMipmaps,
        ) => ReplacementTextureBlitResolutionError::GenerateMipmapsUnsupported {
            opcode: c.opcode,
            texture_ref: c.resource,
        },
        (
            BlitKind::Resource,
            BlitOpcode::SynchronizeResource,
        ) => ReplacementTextureBlitResolutionError::SynchronizeResourceUnsupported {
            opcode: c.opcode,
            resource_ref: c.resource,
        },
        (
            BlitKind::Image,
            BlitOpcode::SynchronizeTexture,
        ) => ReplacementTextureBlitResolutionError::SynchronizeTextureUnsupported {
            opcode: c.opcode,
            texture_ref: c.texture,
            level: c.level,
            slice: c.slice,
        },
        (BlitKind::FillTexture, BlitOpcode::FillTextureColor) if c.fill_source is Color => {
            ReplacementTextureBlitResolutionError::FillUnsupported {
                opcode: c.opcode,
                fill: record_fill(
                    c,
                    ReplacementTextureFillValue::Color {
                        raw: c.fill_color_raw,
                        pixel_format: c.fill_pixel_format,
                    },
                ),
            }
        },
        (BlitKind::FillTexture, BlitOpcode::FillTextureBytes) if c.fill_source is Bytes => {
            ReplacementTextureBlitResolutionError::FillUnsupported {
                opcode: c.opcode,
                fill: record_fill(
                    c,
                    ReplacementTextureFillValue::Bytes {
                        reference: c.fill_bytes_ref,
                        offset: c.fill_bytes_offset,
                        length: c.fill_bytes_length,
                    },
                ),
            }
        },
        _ => ReplacementTextureBlitResolutionError::Malformed {
            kind: c.kind,
            opcode: c.opcode,
            fill_source: c.fill_source,
        },
    }
}

/// Why a texture record does not resolve.
pub fn resolve_texture_blit(command: &BlitCommand) -> (refusal:
    ReplacementTextureBlitResolutionError)
    ensures
        refusal == texture_refusal(*command),
{
    let opcode = command.opcode;
    match (command.kind, opcode) {
        (
            BlitKind::Resource,
            BlitOpcode::GenerateMipmaps,
        ) => ReplacementTextureBlitResolutionError::GenerateMipmapsUnsupported {
            opcode,
            texture_ref: command.resource,
        },
        (
            BlitKind::Resource,
            BlitOpcode::SynchronizeResource,
        ) => ReplacementTextureBlitResolutionError::SynchronizeResourceUnsupported {
            opcode,
            resource_ref: command.resource,
        },
        (
            BlitKind::Image,
            BlitOpcode::SynchronizeTexture,
        ) => ReplacementTextureBlitResolutionError::SynchronizeTextureUnsupported {
            opcode,
            texture_ref: command.texture,
            level: command.level,
            slice: command.slice,
        },
        (BlitKind::FillTexture, BlitOpcode::FillTextureColor) if command.fill_source
            == FillSource::Color => {
            ReplacementTextureBlitResolutionError::FillUnsupported {
                opcode,
                fill: ReplacementTextureFill {
                    texture_ref: command.texture,
                    level: command.level,
                    slice: command.slice,
                    origin: command.fill_origin,
                    size: command.fill_size,
                    value: ReplacementTextureFillValue::Color {
                        raw: command.fill_color_raw,
                        pixel_format: command.fill_pixel_format,
                    },
                },
            }
        },
        (BlitKind::FillTexture, BlitOpcode::FillTextureBytes) if command.fill_source
            == FillSource::Bytes => {
            ReplacementTextureBlitResolutionError::FillUnsupported {
                opcode,
                fill: ReplacementTextureFill {
                    texture_ref: command.texture,
                    level: command.level,
                    slice: command.slice,
                    origin: command.fill_origin,
                    size: command.fill_size,
                    value: ReplacementTextureFillValue::Bytes {
                        reference: command.fill_bytes_ref,
                        offset: command.fill_bytes_offset,
                        length: command.fill_bytes_length,
                    },
                },
            }
        },
        _ => ReplacementTextureBlitResolutionError::Malformed {
            kind: command.kind,
            opcode,
            fill_source: command.fill_source,
        },
    }
}

/// Bytes of the part of a texel that a copy moves.
pub open spec fn part_bytes(texture: ResolvedTextureEndpoint, aspect: BlitAspect) -> Option<u32> {
    if aspect == BlitAspect::Color {
        texture.color_bytes
    } else if aspect == BlitAspect::Depth {
        texture.depth_bytes
    } else {
        texture.stencil_bytes
    }
}

/// A copy between textures reads where its record states for the source and
/// writes where it states for the destination: each end is the subresource that
/// the session answers for that end, each origin is that end's, and the extent
/// is the stated one. Both ends move the same number of bytes for a texel.
pub proof fn lemma_a_texture_copy_joins_its_stated_ends(
    session: ReplacementRuntimeSession,
    c: BlitCommand,
)
    requires
        c.kind is Copy,
        c.copy_kind is TextureToTexture,
    ensures
        match image_blit(session, c) {
            Ok(Some(BlitView::TextureToTexture(blit))) => {
                &&& blit.source_origin == c.source_origin
                &&& blit.destination_origin == c.destination_origin
                &&& blit.extent == c.source_size
                &&& c.aspect == BlitAspectOption::Aspect(blit.aspect)
                &&& answer_of(
                    session.endpoints@,
                    EndpointQuery {
                        reference: c.source,
                        level: c.source_level,
                        slice: c.source_slice,
                    },
                ) == Some(EndpointAnswer::Endpoint(blit.source))
                &&& answer_of(
                    session.endpoints@,
                    EndpointQuery {
                        reference: c.destination,
                        level: c.destination_level,
                        slice: c.destination_slice,
                    },
                ) == Some(EndpointAnswer::Endpoint(blit.destination))
                &&& part_bytes(blit.source, blit.aspect) is Some
                &&& part_bytes(blit.source, blit.aspect) == part_bytes(
                    blit.destination,
                    blit.aspect,
                )
            },
            Ok(Some(_)) => false,
            Ok(None) => c.source_size.width == 0 || c.source_size.height == 0
                || c.source_size.depth == 0,
            Err(_) => true,
        },
{
}

/// A copy between textures is owed wherever both ends resolve, have the part
/// that is copied at one width, and are not the same texels of one subresource.
pub proof fn lemma_a_texture_copy_is_owed(
    session: ReplacementRuntimeSession,
    c: BlitCommand,
    source: ResolvedTextureEndpoint,
    destination: ResolvedTextureEndpoint,
    aspect: BlitAspect,
)
    requires
        c.kind is Copy,
        c.copy_kind is TextureToTexture,
        c.source_size.width > 0 && c.source_size.height > 0 && c.source_size.depth > 0,
        c.aspect == BlitAspectOption::Aspect(aspect),
        answer_of(
            session.endpoints@,
            EndpointQuery { reference: c.source, level: c.source_level, slice: c.source_slice },
        ) == Some(EndpointAnswer::Endpoint(source)),
        answer_of(
            session.endpoints@,
            EndpointQuery {
                reference: c.destination,
                level: c.destination_level,
                slice: c.destination_slice,
            },
        ) == Some(EndpointAnswer::Endpoint(destination)),
        part_bytes(source, aspect) is Some,
        part_bytes(source, aspect) == part_bytes(destination, aspect),
        box_in_space(c.source_origin, c.source_size),
        box_in_space(c.destination_origin, c.source_size),
    ensures
        ({
            let overlapping = source.storage == destination.storage && source.level
                == destination.level && source.slice == destination.slice
                && exists|x: int, y: int, z: int|
                #[trigger] in_box(c.source_origin, c.source_size, x, y, z) && in_box(
                    c.destination_origin,
                    c.source_size,
                    x,
                    y,
                    z,
                );
            &&& overlapping ==> image_blit(session, c) == Err::<
                Option<BlitView>,
                ReplacementImageBlitResolutionError,
            >(ReplacementImageBlitResolutionError::OverlappingImageCopy)
            &&& !overlapping ==> image_blit(session, c) matches Ok(Some(_))
        }),
{
    lemma_boxes_overlap_where_they_share_a_texel(
        c.source_origin,
        c.destination_origin,
        c.source_size,
    );
}

/// A copy from a buffer reads the buffer's tail from the stated offset on, with
/// the stated pitches, and writes at the stated origin of the stated
/// subresource.
pub proof fn lemma_a_copy_to_a_texture_joins_its_stated_ends(
    session: ReplacementRuntimeSession,
    c: BlitCommand,
)
    requires
        c.kind is Copy,
        c.copy_kind is BufferToTexture,
    ensures
        match image_blit(session, c) {
            Ok(Some(BlitView::BufferToTexture(blit))) => {
                &&& blit.destination_origin == c.destination_origin
                &&& blit.extent == c.source_size
                &&& blit.source_bytes_per_row == c.source_bytes_per_row
                &&& blit.source_bytes_per_image == c.source_bytes_per_image
                &&& c.aspect == BlitAspectOption::Aspect(blit.aspect)
                &&& answer_of(
                    session.buffers@,
                    BufferQuery { reference: c.source, offset: c.source_offset, length: None },
                ) == Some(BufferAnswer::Range(blit.source))
                &&& answer_of(
                    session.endpoints@,
                    EndpointQuery {
                        reference: c.destination,
                        level: c.destination_level,
                        slice: c.destination_slice,
                    },
                ) == Some(EndpointAnswer::Endpoint(blit.destination))
                &&& part_bytes(blit.destination, blit.aspect) is Some
            },
            Ok(Some(_)) => false,
            Ok(None) => c.source_size.width == 0 || c.source_size.height == 0
                || c.source_size.depth == 0,
            Err(_) => true,
        },
{
}

/// A copy to a buffer reads at the stated origin of the stated subresource, and
/// writes the buffer's tail from the stated offset on, with the stated pitches.
pub proof fn lemma_a_copy_to_a_buffer_joins_its_stated_ends(
    session: ReplacementRuntimeSession,
    c: BlitCommand,
)
    requires
        c.kind is Copy,
        c.copy_kind is TextureToBuffer,
    ensures
        match image_blit(session, c) {
            Ok(Some(BlitView::TextureToBuffer(blit))) => {
                &&& blit.source_origin == c.source_origin
                &&& blit.extent == c.source_size
                &&& blit.destination_bytes_per_row == c.destination_bytes_per_row
                &&& blit.destination_bytes_per_image == c.destination_bytes_per_image
                &&& c.aspect == BlitAspectOption::Aspect(blit.aspect)
                &&& answer_of(
                    session.endpoints@,
                    EndpointQuery {
                        reference: c.source,
                        level: c.source_level,
                        slice: c.source_slice,
                    },
                ) == Some(EndpointAnswer::Endpoint(blit.source))
                &&& answer_of(
                    session.buffers@,
                    BufferQuery {
                        reference: c.destination,
                        offset: c.destination_offset,
                        length: None,
                    },
                ) == Some(BufferAnswer::Range(blit.destination))
                &&& part_bytes(blit.source, blit.aspect) is Some
            },
            Ok(Some(_)) => false,
            Ok(None) => c.source_size.width == 0 || c.source_size.height == 0
                || c.source_size.depth == 0,
            Err(_) => true,
        },
{
}

/// A copy between a buffer and a texture is owed wherever both ends resolve and
/// the texture has the part that is copied.
pub proof fn lemma_a_copy_with_a_buffer_is_owed(
    session: ReplacementRuntimeSession,
    c: BlitCommand,
    buffer: ResolvedBufferRange,
    texture: ResolvedTextureEndpoint,
    aspect: BlitAspect,
)
    requires
        c.kind is Copy,
        c.copy_kind is BufferToTexture || c.copy_kind is TextureToBuffer,
        c.source_size.width > 0 && c.source_size.height > 0 && c.source_size.depth > 0,
        c.aspect == BlitAspectOption::Aspect(aspect),
        part_bytes(texture, aspect) is Some,
        c.copy_kind is BufferToTexture ==> answer_of(
            session.buffers@,
            BufferQuery { reference: c.source, offset: c.source_offset, length: None },
        ) == Some(BufferAnswer::Range(buffer)) && answer_of(
            session.endpoints@,
            EndpointQuery {
                reference: c.destination,
                level: c.destination_level,
                slice: c.destination_slice,
            },
        ) == Some(EndpointAnswer::Endpoint(texture)),
        c.copy_kind is TextureToBuffer ==> answer_of(
            session.buffers@,
            BufferQuery { reference: c.destination, offset: c.destination_offset, length: None },
        ) == Some(BufferAnswer::Range(buffer)) && answer_of(
            session.endpoints@,
            EndpointQuery { reference: c.source, level: c.source_level, slice: c.source_slice },
        ) == Some(EndpointAnswer::Endpoint(texture)),
    ensures
        image_blit(session, c) matches Ok(Some(_)),
{
}

/// A buffer copy moves the stated bytes from the stated place of the source to
/// the stated place of the destination, and never onto itself.
pub proof fn lemma_a_buffer_copy_joins_its_stated_ends(
    session: ReplacementRuntimeSession,
    c: BlitCommand,
)
    requires
        c.kind is Copy,
        c.copy_kind is BufferToBuffer,
        c.source_kind is Buffer,
        c.destination_kind is Buffer,
    ensures
        match buffer_blit(session, c) {
            Ok(Some(BlitView::Copy { source, destination })) => {
                &&& c.size > 0
                &&& answer_of(
                    session.buffers@,
                    BufferQuery {
                        reference: c.source,
                        offset: c.source_offset,
                        length: Some(c.size),
                    },
                ) == Some(BufferAnswer::Range(source))
                &&& answer_of(
                    session.buffers@,
                    BufferQuery {
                        reference: c.destination,
                        offset: c.destination_offset,
                        length: Some(c.size),
                    },
                ) == Some(BufferAnswer::Range(destination))
                &&& source.storage == destination.storage ==> !source.region.shares_byte(
                    destination.region,
                )
            },
            Ok(Some(_)) => false,
            Ok(None) => c.size == 0,
            Err(ReplacementBufferBlitResolutionError::NotBufferBlit) => false,
            Err(ReplacementBufferBlitResolutionError::UnalignedWordPattern(_)) => false,
            Err(_) => c.size > 0,
        },
        c.size == 0 ==> buffer_blit(session, c) == Ok::<
            Option<BlitView>,
            ReplacementBufferBlitResolutionError,
        >(None),
{
}

/// A buffer copy is owed wherever both ends resolve and share no byte.
pub proof fn lemma_a_buffer_copy_is_owed(
    session: ReplacementRuntimeSession,
    c: BlitCommand,
    source: ResolvedBufferRange,
    destination: ResolvedBufferRange,
)
    requires
        c.kind is Copy,
        c.copy_kind is BufferToBuffer,
        c.source_kind is Buffer,
        c.destination_kind is Buffer,
        c.size > 0,
        answer_of(
            session.buffers@,
            BufferQuery { reference: c.source, offset: c.source_offset, length: Some(c.size) },
        ) == Some(BufferAnswer::Range(source)),
        answer_of(
            session.buffers@,
            BufferQuery {
                reference: c.destination,
                offset: c.destination_offset,
                length: Some(c.size),
            },
        ) == Some(BufferAnswer::Range(destination)),
    ensures
        ({
            let overlapping = source.storage == destination.storage
                && source.region.shares_byte(destination.region);
            &&& overlapping ==> buffer_blit(session, c) == Err::<
                Option<BlitView>,
                ReplacementBufferBlitResolutionError,
            >(ReplacementBufferBlitResolutionError::OverlappingCopy)
            &&& !overlapping ==> buffer_blit(session, c) matches Ok(Some(_))
        }),
{
}

/// A fill writes the stated run of the stated buffer with the stated byte, or
/// with the bytes of the stated word, the least first.
pub proof fn lemma_a_fill_writes_its_stated_run(session: ReplacementRuntimeSession, c: BlitCommand)
    requires
        c.kind is FillBuffer || c.kind is FillBufferPattern4,
    ensures
        match buffer_blit(session, c) {
            Ok(Some(BlitView::Fill { destination, pattern })) => {
                &&& c.range_length > 0
                &&& answer_of(
                    session.buffers@,
                    BufferQuery {
                        reference: c.buffer,
                        offset: c.range_location,
                        length: Some(c.range_length),
                    },
                ) == Some(BufferAnswer::Range(destination))
                &&& match pattern {
                    BufferFillPattern::Byte(value) => c.kind is FillBuffer && value
                        == c.fill_value,
                    BufferFillPattern::Word(bytes) => {
                        &&& c.kind is FillBufferPattern4
                        &&& c.range_location % 4 == 0
                        &&& c.fill_pattern == bytes[0] + 256 * bytes[1] + 65536 * bytes[2]
                            + 16777216 * bytes[3]
                    },
                }
            },
            Ok(Some(_)) => false,
            Ok(None) => c.range_length == 0,
            Err(ReplacementBufferBlitResolutionError::UnalignedWordPattern(location)) => location
                == c.range_location && location % 4 != 0 && c.kind is FillBufferPattern4,
            Err(
                ReplacementBufferBlitResolutionError::Range { endpoint, reference, .. },
            ) => endpoint == BlitEndpoint::Destination && reference == c.buffer,
            Err(_) => false,
        },
{
    let word = c.fill_pattern;
    assert(word == word % 256 + 256 * (word / 256 % 256) + 65536 * (word / 65536 % 256)
        + 16777216 * (word / 16777216)) by (nonlinear_arith)
        requires
            0 <= word <= u32::MAX,
    ;
}

proof fn lemma_batch_slices_join(
    session: ReplacementRuntimeSession,
    c: BlitCommand,
    level: int,
    n: nat,
)
    ensures
        batch_slices(session, c, level, n) matches Ok(pairs) ==> {
            &&& pairs.len() == n
            &&& forall|k: int|
                0 <= k < n ==> batch_pair(session, c, level, k) == Ok::<
                    (ResolvedTextureEndpoint, ResolvedTextureEndpoint),
                    ReplacementImageBlitResolutionError,
                >(#[trigger] pairs[k])
        },
    decreases n,
{
    if n > 0 {
        lemma_batch_slices_join(session, c, level, (n - 1) as nat);
    }
}

proof fn lemma_batch_levels_join(session: ReplacementRuntimeSession, c: BlitCommand, n: nat)
    ensures
        batch_levels(session, c, n) matches Ok(levels) ==> {
            &&& levels.len() == n
            &&& forall|l: int|
                0 <= l < n ==> batch_level(session, c, l) == Ok::<
                    Seq<(ResolvedTextureEndpoint, ResolvedTextureEndpoint)>,
                    ReplacementImageBlitResolutionError,
                >(#[trigger] levels[l])
        },
    decreases n,
{
    if n > 0 {
        lemma_batch_levels_join(session, c, (n - 1) as nat);
    }
}

/// A copy of whole subresources joins, for each of its levels and slices, that
/// level and slice behind the source's base with that level and slice behind the
/// destination's, both of one size and one width of a texel.
pub proof fn lemma_a_batch_joins_level_with_level_and_slice_with_slice(
    session: ReplacementRuntimeSession,
    c: BlitCommand,
)
    requires
        c.kind is Copy,
        c.copy_kind is TextureToTextureSliceLevel,
    ensures
        match image_blit(session, c) {
            Ok(
                Some(
                    BlitView::TextureCopyBatch { source_base_slice, destination_base_slice, levels },
                ),
            ) => {
                &&& source_base_slice == c.source_slice
                &&& destination_base_slice == c.destination_slice
                &&& levels.len() == c.level_count
                &&& forall|l: int, k: int|
                    0 <= l < c.level_count && 0 <= k < c.slice_count ==> {
                        let pair = #[trigger] levels[l][k];
                        &&& c.source_level + l <= u16::MAX && c.destination_level + l <= u16::MAX
                        &&& c.source_slice + k <= u16::MAX && c.destination_slice + k <= u16::MAX
                        &&& answer_of(
                            session.endpoints@,
                            EndpointQuery {
                                reference: c.source,
                                level: (c.source_level + l) as u16,
                                slice: (c.source_slice + k) as u16,
                            },
                        ) == Some(EndpointAnswer::Endpoint(pair.0))
                        &&& answer_of(
                            session.endpoints@,
                            EndpointQuery {
                                reference: c.destination,
                                level: (c.destination_level + l) as u16,
                                slice: (c.destination_slice + k) as u16,
                            },
                        ) == Some(EndpointAnswer::Endpoint(pair.1))
                        &&& pair.0.extent == pair.1.extent
                        &&& pair.0.bpp == pair.1.bpp
                        &&& pair.0.extent.depth > 1 ==> c.slice_count == 1 && c.source_slice == 0
                            && c.destination_slice == 0
                    }
                &&& forall|l: int| 0 <= l < levels.len() ==> (#[trigger] levels[l]).len()
                    == c.slice_count
            },
            Ok(Some(_)) => false,
            Ok(None) => c.slice_count == 0 || c.level_count == 0,
            Err(_) => c.slice_count > 0 && c.level_count > 0,
        },
{
    lemma_batch_levels_join(session, c, c.level_count as nat);
    lemma_batch_shape(session, c, c.level_count as nat);
    if c.slice_count > 0 && c.level_count > 0 {
        if let Ok(levels) = batch_levels(session, c, c.level_count as nat) {
            assert forall|l: int, k: int|
                0 <= l < c.level_count && 0 <= k < c.slice_count implies {
                let pair = #[trigger] levels[l][k];
                &&& c.source_level + l <= u16::MAX && c.destination_level + l <= u16::MAX
                &&& batch_pair(session, c, l, k) == Ok::<
                    (ResolvedTextureEndpoint, ResolvedTextureEndpoint),
                    ReplacementImageBlitResolutionError,
                >(pair)
            } by {
                assert(batch_level(session, c, l) == Ok::<
                    Seq<(ResolvedTextureEndpoint, ResolvedTextureEndpoint)>,
                    ReplacementImageBlitResolutionError,
                >(levels[l]));
                lemma_batch_slices_join(session, c, l, c.slice_count as nat);
            }
        }
    }
}

/// A record on indirect command buffers names the buffer and the run that it
/// states, and a copy its own destination.
pub proof fn lemma_an_indirect_record_names_what_it_states(
    session: ReplacementRuntimeSession,
    c: BlitCommand,
    command: ResolvedIndirectCommand,
)
    requires
        indirect_record(session, c) == Ok::<
            ResolvedIndirectCommand,
            ReplacementIndirectCommandResolutionError,
        >(command),
    ensures
        c.kind is IcbRange || c.kind is IcbCopy,
        c.kind is IcbRange ==> {
            let run = IndirectCommandRange { location: c.range_location, length: c.range_length };
            ||| c.opcode is ResetIcb && answer_of(
                session.indirect_commands@,
                IndirectCommandOperation::Reset { icb: c.resource, range: run },
            ) == Some(IndirectCommandAnswer::Command(command))
            ||| c.opcode is OptimizeIcb && answer_of(
                session.indirect_commands@,
                IndirectCommandOperation::Optimize { icb: c.resource, range: run },
            ) == Some(IndirectCommandAnswer::Command(command))
        },
        c.kind is IcbCopy ==> answer_of(
            session.indirect_commands@,
            IndirectCommandOperation::Copy {
                source: c.source,
                source_range: IndirectCommandRange {
                    location: c.range_location,
                    length: c.range_length,
                },
                destination: c.destination,
                destination_index: c.destination_index,
            },
        ) == Some(IndirectCommandAnswer::Command(command)),
{
}

/// A refused fill names the texels that its record states, and what they would
/// have been filled with.
pub proof fn lemma_a_refused_fill_names_its_texels(c: BlitCommand)
    ensures
        texture_refusal(c) matches ReplacementTextureBlitResolutionError::FillUnsupported {
            opcode,
            fill,
        } ==> {
            &&& opcode == c.opcode
            &&& fill.texture_ref == c.texture
            &&& fill.level == c.level
            &&& fill.slice == c.slice
            &&& fill.origin == c.fill_origin
            &&& fill.size == c.fill_size
            &&& match fill.value {
                ReplacementTextureFillValue::Color { raw, pixel_format } => c.fill_source is Color
                    && raw == c.fill_color_raw && pixel_format == c.fill_pixel_format,
                ReplacementTextureFillValue::Bytes { reference, offset, length } => {
                    &&& c.fill_source is Bytes
                    &&& reference == c.fill_bytes_ref
                    &&& offset == c.fill_bytes_offset
                    &&& length == c.fill_bytes_length
                },
            }
        },
{
}

/// What contracts say of a blit is what it holds.
pub proof fn lemma_a_blit_is_seen_whole(blit: ResolvedBlit)
    ensures
        match blit {
            ResolvedBlit::Fill { destination, pattern } => blit@ == (BlitView::Fill {
                destination,
                pattern,
            }),
            ResolvedBlit::Copy { source, destination } => blit@ == (BlitView::Copy {
                source,
                destination,
            }),
            ResolvedBlit::BufferToTexture(copied) => blit@ == BlitView::BufferToTexture(copied),
            ResolvedBlit::TextureToBuffer(copied) => blit@ == BlitView::TextureToBuffer(copied),
            ResolvedBlit::TextureToTexture(copied) => blit@ == BlitView::TextureToTexture(copied),
            ResolvedBlit::TextureCopyBatch(batch) => {
                &&& blit@ matches BlitView::TextureCopyBatch {
                    source_base_slice,
                    destination_base_slice,
                    levels,
                }
                &&& source_base_slice == batch.source_base_slice
                &&& destination_base_slice == batch.destination_base_slice
                &&& levels.len() == batch.levels@.len()
                &&& forall|i: int|
                    0 <= i < levels.len() ==> #[trigger] levels[i] == batch.levels@[i]@
            },
        },
{
}

/// A refused buffer blit names the end that is refused, and its buffer.
pub proof fn lemma_a_refused_buffer_blit_names_its_end(
    session: ReplacementRuntimeSession,
    c: BlitCommand,
)
    ensures
        match buffer_blit(session, c) {
            Err(ReplacementBufferBlitResolutionError::Range { endpoint, reference, reason }) => {
                let fills = c.kind is FillBuffer || c.kind is FillBufferPattern4;
                &&& fills ==> endpoint is Destination && reference == c.buffer
                &&& !fills && endpoint is Source ==> reference == c.source && session.buffer(
                    c.source,
                    c.source_offset,
                    Some(c.size),
                ) is Err
                &&& !fills && endpoint is Destination ==> reference == c.destination
                    && session.buffer(c.destination, c.destination_offset, Some(c.size)) is Err
            },
            Err(ReplacementBufferBlitResolutionError::UnalignedWordPattern(at)) => at
                == c.range_location && at % 4 != 0 && c.kind is FillBufferPattern4,
            _ => true,
        },
{
}

/// A refused texture record names its own opcode, texture and place.
pub proof fn lemma_a_refused_texture_record_names_its_texture(c: BlitCommand)
    ensures
        match texture_refusal(c) {
            ReplacementTextureBlitResolutionError::GenerateMipmapsUnsupported {
                opcode,
                texture_ref,
            } => opcode == c.opcode && c.opcode is GenerateMipmaps && texture_ref == c.resource,
            ReplacementTextureBlitResolutionError::SynchronizeResourceUnsupported {
                opcode,
                resource_ref,
            } => opcode == c.opcode && c.opcode is SynchronizeResource && resource_ref
                == c.resource,
            ReplacementTextureBlitResolutionError::SynchronizeTextureUnsupported {
                opcode,
                texture_ref,
                level,
                slice,
            } => opcode == c.opcode && c.opcode is SynchronizeTexture && texture_ref == c.texture
                && level == c.level && slice == c.slice,
            ReplacementTextureBlitResolutionError::FillUnsupported { opcode, fill } => opcode
                == c.opcode && c.kind is FillTexture && fill.texture_ref == c.texture,
            ReplacementTextureBlitResolutionError::Malformed { kind, opcode, fill_source } => kind
                == c.kind && opcode == c.opcode && fill_source == c.fill_source,
        },
{
}

} // verus!
