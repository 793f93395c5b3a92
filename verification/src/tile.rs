//! Tessellation and tile records: what each would have asked for, and why it is
//! refused.

use vstd::prelude::*;

use crate::command::{
    BufferBind, PatchDraw, RenderCommand, RenderKind, RenderOpcode, TileBind, TileRegion,
    TileSamplerBind,
};
use crate::encoder_state::{
    ProjectionStateView, ReplacementRecordProjectionState,
    ReplacementTessellationFactorBufferBinding,
};
use crate::tables::copy_all;

verus! {

/// Why a patch draw does not resolve.
#[derive(Clone, Copy, Debug, PartialEq, Eq, Structural)]
pub enum ReplacementRenderTessellationResolutionError {
    OutsideEncoder { opcode: RenderOpcode },
    GeometryMissing { opcode: RenderOpcode },
    Unsupported {
        opcode: RenderOpcode,
        draw: PatchDraw,
        factor_buffer: Option<ReplacementTessellationFactorBufferBinding>,
    },
}

/// Why a patch draw does not resolve.
pub open spec fn tessellation_refusal(s: ProjectionStateView, c: RenderCommand)
    -> ReplacementRenderTessellationResolutionError {
    match (s.render, c.patch_draw) {
        (None, _) => ReplacementRenderTessellationResolutionError::OutsideEncoder {
            opcode: c.opcode,
        },
        (Some(_), None) => ReplacementRenderTessellationResolutionError::GeometryMissing {
            opcode: c.opcode,
        },
        (Some(render), Some(draw)) => ReplacementRenderTessellationResolutionError::Unsupported {
            opcode: c.opcode,
            draw,
            factor_buffer: render.tessellation_factor_buffer,
        },
    }
}

/// Why a patch draw does not resolve.
pub fn resolve_render_tessellation(
    state: &ReplacementRecordProjectionState,
    command: &RenderCommand,
) -> (refusal: ReplacementRenderTessellationResolutionError)
    ensures
        refusal == tessellation_refusal(state@, *command),
{
    let opcode = command.opcode;
    match (state.render(), command.patch_draw) {
        (None, _) => ReplacementRenderTessellationResolutionError::OutsideEncoder { opcode },
        (Some(_), None) => ReplacementRenderTessellationResolutionError::GeometryMissing { opcode },
        (Some(render), Some(draw)) => ReplacementRenderTessellationResolutionError::Unsupported {
            opcode,
            draw,
            factor_buffer: render.tessellation_factor_buffer,
        },
    }
}

/// What contracts say of a tile bind.
#[verifier::ext_equal]
#[allow(inconsistent_fields)]
pub enum TileBindView {
    Buffer { first: u32, bindings: Seq<BufferBind> },
    Texture { first: u32, references: Seq<u32> },
    Sampler { first: u32, bindings: Seq<TileSamplerBind> },
    BufferOffset { index: u32, offset: u64 },
    ThreadgroupMemory { index: u32, length: u64, offset: u64 },
}

impl View for TileBind {
    type V = TileBindView;

    open spec fn view(&self) -> TileBindView {
        match *self {
            TileBind::Buffer { first, bindings } => TileBindView::Buffer {
                first,
                bindings: bindings@,
            },
            TileBind::Texture { first, references } => TileBindView::Texture {
                first,
                references: references@,
            },
            TileBind::Sampler { first, bindings } => TileBindView::Sampler {
                first,
                bindings: bindings@,
            },
            TileBind::BufferOffset { index, offset } => TileBindView::BufferOffset {
                index,
                offset,
            },
            TileBind::ThreadgroupMemory { index, length, offset } => {
                TileBindView::ThreadgroupMemory { index, length, offset }
            },
        }
    }
}

/// Why a tile record does not resolve.
#[derive(Debug, PartialEq, Eq)]
pub enum ReplacementRenderTileResolutionError {
    OutsideEncoder { kind: RenderKind, opcode: RenderOpcode },
    Malformed { kind: RenderKind, opcode: RenderOpcode },
    BindUnsupported { opcode: RenderOpcode, binding: TileBind },
    DispatchUnsupported {
        opcode: RenderOpcode,
        threads_per_tile: (u64, u64, u64),
        region: Option<TileRegion>,
        render_target_array_index: Option<u32>,
    },
    DimensionsQueryUnsupported { opcode: RenderOpcode, buffer_ref: u32, offset: u64 },
}

/// What contracts say of a tile refusal.
#[verifier::ext_equal]
pub enum TileRefusalView {
    OutsideEncoder { kind: RenderKind, opcode: RenderOpcode },
    Malformed { kind: RenderKind, opcode: RenderOpcode },
    BindUnsupported { opcode: RenderOpcode, binding: TileBindView },
    DispatchUnsupported {
        opcode: RenderOpcode,
        threads_per_tile: (u64, u64, u64),
        region: Option<TileRegion>,
        render_target_array_index: Option<u32>,
    },
    DimensionsQueryUnsupported { opcode: RenderOpcode, buffer_ref: u32, offset: u64 },
}

impl View for ReplacementRenderTileResolutionError {
    type V = TileRefusalView;

    open spec fn view(&self) -> TileRefusalView {
        match *self {
            ReplacementRenderTileResolutionError::OutsideEncoder { kind, opcode } => {
                TileRefusalView::OutsideEncoder { kind, opcode }
            },
            ReplacementRenderTileResolutionError::Malformed { kind, opcode } => {
                TileRefusalView::Malformed { kind, opcode }
            },
            ReplacementRenderTileResolutionError::BindUnsupported { opcode, binding } => {
                TileRefusalView::BindUnsupported { opcode, binding: binding@ }
            },
            ReplacementRenderTileResolutionError::DispatchUnsupported {
                opcode,
                threads_per_tile,
                region,
                render_target_array_index,
            } => TileRefusalView::DispatchUnsupported {
                opcode,
                threads_per_tile,
                region,
                render_target_array_index,
            },
            ReplacementRenderTileResolutionError::DimensionsQueryUnsupported {
                opcode,
                buffer_ref,
                offset,
            } => TileRefusalView::DimensionsQueryUnsupported { opcode, buffer_ref, offset },
        }
    }
}

/// What a tile record comes to: a dispatch of no threads does nothing, and
/// every other record is refused.
pub open spec fn tile_outcome(s: ProjectionStateView, c: RenderCommand) -> Result<
    (),
    TileRefusalView,
> {
    if s.render is None {
        Err(TileRefusalView::OutsideEncoder { kind: c.kind, opcode: c.opcode })
    } else {
        match (c.kind, c.tile_bind) {
            (RenderKind::TileBind, Some(binding)) => Err(
                TileRefusalView::BindUnsupported { opcode: c.opcode, binding: binding@ },
            ),
            (RenderKind::TileDispatch, _) => if c.tile_threads.0 == 0 || c.tile_threads.1 == 0
                || c.tile_threads.2 == 0 {
                Ok(())
            } else {
                Err(
                    TileRefusalView::DispatchUnsupported {
                        opcode: c.opcode,
                        threads_per_tile: c.tile_threads,
                        region: c.tile_region,
                        render_target_array_index: c.tile_render_target_array_index,
                    },
                )
            },
            (RenderKind::TileDimensionsQuery, _) => Err(
                TileRefusalView::DimensionsQueryUnsupported {
                    opcode: c.opcode,
                    buffer_ref: c.buffer_ref,
                    offset: c.buffer_offset,
                },
            ),
            _ => Err(TileRefusalView::Malformed { kind: c.kind, opcode: c.opcode }),
        }
    }
}

/// The view of what a tile record comes to.
pub open spec fn tile_result(result: Result<(), ReplacementRenderTileResolutionError>) -> Result<
    (),
    TileRefusalView,
> {
    match result {
        Ok(_) => Ok(()),
        Err(error) => Err(error@),
    }
}

fn copy_tile_bind(bind: &TileBind) -> (copy: TileBind)
    ensures
        copy@ == bind@,
{
    match bind {
        TileBind::Buffer { first, bindings } => TileBind::Buffer {
            first: *first,
            bindings: copy_all(bindings),
        },
        TileBind::Texture { first, references } => TileBind::Texture {
            first: *first,
            references: copy_all(references),
        },
        TileBind::Sampler { first, bindings } => TileBind::Sampler {
            first: *first,
            bindings: copy_all(bindings),
        },
        TileBind::BufferOffset { index, offset } => TileBind::BufferOffset {
            index: *index,
            offset: *offset,
        },
        TileBind::ThreadgroupMemory { index, length, offset } => TileBind::ThreadgroupMemory {
            index: *index,
            length: *length,
            offset: *offset,
        },
    }
}

/// What a tile record comes to.
pub fn resolve_render_tile(state: &ReplacementRecordProjectionState, command: &RenderCommand)
    -> (result: Result<(), ReplacementRenderTileResolutionError>)
    ensures
        tile_result(result) == tile_outcome(state@, *command),
{
    let kind = command.kind;
    let opcode = command.opcode;
    if state.render().is_none() {
        return Err(ReplacementRenderTileResolutionError::OutsideEncoder { kind, opcode });
    }
    match kind {
        RenderKind::TileBind => match &command.tile_bind {
            Some(binding) => Err(
                ReplacementRenderTileResolutionError::BindUnsupported {
                    opcode,
                    binding: copy_tile_bind(binding),
                },
            ),
            None => Err(ReplacementRenderTileResolutionError::Malformed { kind, opcode }),
        },
        RenderKind::TileDispatch => {
            let (x, y, z) = command.tile_threads;
            if x == 0 || y == 0 || z == 0 {
                return Ok(());
            }
            Err(
                ReplacementRenderTileResolutionError::DispatchUnsupported {
                    opcode,
                    threads_per_tile: command.tile_threads,
                    region: command.tile_region,
                    render_target_array_index: command.tile_render_target_array_index,
                },
            )
        },
        RenderKind::TileDimensionsQuery => Err(
            ReplacementRenderTileResolutionError::DimensionsQueryUnsupported {
                opcode,
                buffer_ref: command.buffer_ref,
                offset: command.buffer_offset,
            },
        ),
        _ => Err(ReplacementRenderTileResolutionError::Malformed { kind, opcode }),
    }
}

/// A tile record comes to nothing if and only if it dispatches no threads inside
/// an encoder; any other is refused with what it states.
pub proof fn lemma_a_tile_record_is_refused_as_stated(s: ProjectionStateView, c: RenderCommand)
    ensures
        tile_outcome(s, c) is Ok <==> s.render is Some && c.kind is TileDispatch && (
        c.tile_threads.0 == 0 || c.tile_threads.1 == 0 || c.tile_threads.2 == 0),
        match tile_outcome(s, c) {
            Err(TileRefusalView::OutsideEncoder { kind, opcode }) => s.render is None && kind
                == c.kind && opcode == c.opcode,
            Err(
                TileRefusalView::DispatchUnsupported {
                    opcode,
                    threads_per_tile,
                    region,
                    render_target_array_index,
                },
            ) => opcode == c.opcode && threads_per_tile == c.tile_threads && region
                == c.tile_region && render_target_array_index
                == c.tile_render_target_array_index,
            Err(TileRefusalView::DimensionsQueryUnsupported { opcode, buffer_ref, offset }) =>
            opcode == c.opcode && buffer_ref == c.buffer_ref && offset == c.buffer_offset,
            Err(TileRefusalView::BindUnsupported { opcode, binding }) => opcode == c.opcode
                && c.tile_bind is Some && binding == c.tile_bind->0@,
            Err(TileRefusalView::Malformed { kind, opcode }) => kind == c.kind && opcode
                == c.opcode,
            Ok(_) => true,
        },
{
}

/// A patch draw is refused with what it states, and with the factor buffer that
/// is bound.
pub proof fn lemma_a_patch_draw_is_refused_as_stated(s: ProjectionStateView, c: RenderCommand)
    ensures
        match tessellation_refusal(s, c) {
            ReplacementRenderTessellationResolutionError::OutsideEncoder { opcode } => opcode
                == c.opcode && s.render is None,
            ReplacementRenderTessellationResolutionError::GeometryMissing { opcode } => opcode
                == c.opcode && s.render is Some && c.patch_draw is None,
            ReplacementRenderTessellationResolutionError::Unsupported {
                opcode,
                draw,
                factor_buffer,
            } => opcode == c.opcode && c.patch_draw == Some(draw) && s.render is Some
                && factor_buffer == s.render->0.tessellation_factor_buffer,
        },
{
}

} // verus!
