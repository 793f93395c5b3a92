//! The settled records of a render stream, in four groups: the encoder's own
//! state, its argument tables, its pass, and its draws.

use vstd::prelude::*;

use crate::command::ScissorRect;
use crate::stream_accum::{AccumView, BindStateView, StreamAccum, VisibilityArming};
use crate::tables::copy_all;

verus! {

/// A settled record of a render stream.
#[derive(Clone, Copy, Debug, PartialEq, Eq, Structural)]
pub enum SettledRenderKind {
    Draw,
    DrawWide,
    DrawInstanced,
    DrawInstancedWide,
    DrawInstancedBase,
    DrawInstancedBaseWide,
    DrawIndexed,
    DrawIndexedWide,
    DrawIndexedInstanced,
    DrawIndexedInstancedWide,
    DrawIndexedInstancedBase,
    DrawIndexedInstancedBaseWide,
    DrawIndirect,
    DrawIndexedIndirect,
    WriteDescriptor,
    SetColorStoreAction,
    SetDepthStoreAction,
    SetStencilStoreAction,
    SetVertexBuffers,
    SetVertexBuffersWithStride,
    SetVertexBufferOffset,
    SetVertexBufferOffsetStride,
    SetVertexTextures,
    SetVertexSamplers,
    SetVertexSamplersWithLod,
    SetFragmentBuffers,
    SetFragmentBufferOffset,
    SetFragmentTextures,
    SetFragmentSamplers,
    SetFragmentSamplersWithLod,
    SetRenderPipelineState,
    SetDepthStencilState,
    SetStencilReference,
    SetBlendColor,
    SetCullMode,
    SetFrontFacingWinding,
    SetDepthClipMode,
    SetTriangleFillMode,
    SetDepthBias,
    SetLineWidth,
    SetViewport,
    SetViewports,
    SetScissorRect,
    SetScissorRects,
    SetVisibilityResultMode,
}

/// Whether a record sets one field of the encoder that no other group writes.
pub open spec fn sets_stream_state(kind: SettledRenderKind) -> bool {
    match kind {
        SettledRenderKind::SetRenderPipelineState
        | SettledRenderKind::SetDepthStencilState
        | SettledRenderKind::SetStencilReference
        | SettledRenderKind::SetBlendColor
        | SettledRenderKind::SetCullMode
        | SettledRenderKind::SetFrontFacingWinding
        | SettledRenderKind::SetDepthClipMode
        | SettledRenderKind::SetTriangleFillMode
        | SettledRenderKind::SetDepthBias
        | SettledRenderKind::SetLineWidth
        | SettledRenderKind::SetViewport
        | SettledRenderKind::SetViewports
        | SettledRenderKind::SetScissorRect
        | SettledRenderKind::SetScissorRects
        | SettledRenderKind::SetVisibilityResultMode => true,
        _ => false,
    }
}

/// Whether a record sets one field of the encoder that no other group writes.
pub fn is_render_stream_state(kind: SettledRenderKind) -> (is: bool)
    ensures
        is == sets_stream_state(kind),
{
    match kind {
        SettledRenderKind::SetRenderPipelineState
        | SettledRenderKind::SetDepthStencilState
        | SettledRenderKind::SetStencilReference
        | SettledRenderKind::SetBlendColor
        | SettledRenderKind::SetCullMode
        | SettledRenderKind::SetFrontFacingWinding
        | SettledRenderKind::SetDepthClipMode
        | SettledRenderKind::SetTriangleFillMode
        | SettledRenderKind::SetDepthBias
        | SettledRenderKind::SetLineWidth
        | SettledRenderKind::SetViewport
        | SettledRenderKind::SetViewports
        | SettledRenderKind::SetScissorRect
        | SettledRenderKind::SetScissorRects
        | SettledRenderKind::SetVisibilityResultMode => true,
        SettledRenderKind::Draw
        | SettledRenderKind::DrawWide
        | SettledRenderKind::DrawInstanced
        | SettledRenderKind::DrawInstancedWide
        | SettledRenderKind::DrawInstancedBase
        | SettledRenderKind::DrawInstancedBaseWide
        | SettledRenderKind::DrawIndexed
        | SettledRenderKind::DrawIndexedWide
        | SettledRenderKind::DrawIndexedInstanced
        | SettledRenderKind::DrawIndexedInstancedWide
        | SettledRenderKind::DrawIndexedInstancedBase
        | SettledRenderKind::DrawIndexedInstancedBaseWide
        | SettledRenderKind::DrawIndirect
        | SettledRenderKind::DrawIndexedIndirect
        | SettledRenderKind::WriteDescriptor
        | SettledRenderKind::SetColorStoreAction
        | SettledRenderKind::SetDepthStoreAction
        | SettledRenderKind::SetStencilStoreAction
        | SettledRenderKind::SetVertexBuffers
        | SettledRenderKind::SetVertexBuffersWithStride
        | SettledRenderKind::SetVertexBufferOffset
        | SettledRenderKind::SetVertexBufferOffsetStride
        | SettledRenderKind::SetVertexTextures
        | SettledRenderKind::SetVertexSamplers
        | SettledRenderKind::SetVertexSamplersWithLod
        | SettledRenderKind::SetFragmentBuffers
        | SettledRenderKind::SetFragmentBufferOffset
        | SettledRenderKind::SetFragmentTextures
        | SettledRenderKind::SetFragmentSamplers
        | SettledRenderKind::SetFragmentSamplersWithLod => false,
    }
}

/// Whether a record writes an argument table.
pub open spec fn writes_argument_table(kind: SettledRenderKind) -> bool {
    match kind {
        SettledRenderKind::SetVertexBuffers
        | SettledRenderKind::SetVertexBuffersWithStride
        | SettledRenderKind::SetVertexBufferOffset
        | SettledRenderKind::SetVertexBufferOffsetStride
        | SettledRenderKind::SetVertexTextures
        | SettledRenderKind::SetVertexSamplers
        | SettledRenderKind::SetVertexSamplersWithLod
        | SettledRenderKind::SetFragmentBuffers
        | SettledRenderKind::SetFragmentBufferOffset
        | SettledRenderKind::SetFragmentTextures
        | SettledRenderKind::SetFragmentSamplers
        | SettledRenderKind::SetFragmentSamplersWithLod => true,
        _ => false,
    }
}

/// Whether a record writes an argument table.
pub fn is_render_bind(kind: SettledRenderKind) -> (is: bool)
    ensures
        is == writes_argument_table(kind),
{
    match kind {
        SettledRenderKind::SetVertexBuffers
        | SettledRenderKind::SetVertexBuffersWithStride
        | SettledRenderKind::SetVertexBufferOffset
        | SettledRenderKind::SetVertexBufferOffsetStride
        | SettledRenderKind::SetVertexTextures
        | SettledRenderKind::SetVertexSamplers
        | SettledRenderKind::SetVertexSamplersWithLod
        | SettledRenderKind::SetFragmentBuffers
        | SettledRenderKind::SetFragmentBufferOffset
        | SettledRenderKind::SetFragmentTextures
        | SettledRenderKind::SetFragmentSamplers
        | SettledRenderKind::SetFragmentSamplersWithLod => true,
        SettledRenderKind::Draw
        | SettledRenderKind::DrawWide
        | SettledRenderKind::DrawInstanced
        | SettledRenderKind::DrawInstancedWide
        | SettledRenderKind::DrawInstancedBase
        | SettledRenderKind::DrawInstancedBaseWide
        | SettledRenderKind::DrawIndexed
        | SettledRenderKind::DrawIndexedWide
        | SettledRenderKind::DrawIndexedInstanced
        | SettledRenderKind::DrawIndexedInstancedWide
        | SettledRenderKind::DrawIndexedInstancedBase
        | SettledRenderKind::DrawIndexedInstancedBaseWide
        | SettledRenderKind::DrawIndirect
        | SettledRenderKind::DrawIndexedIndirect
        | SettledRenderKind::WriteDescriptor
        | SettledRenderKind::SetColorStoreAction
        | SettledRenderKind::SetDepthStoreAction
        | SettledRenderKind::SetStencilStoreAction
        | SettledRenderKind::SetRenderPipelineState
        | SettledRenderKind::SetDepthStencilState
        | SettledRenderKind::SetStencilReference
        | SettledRenderKind::SetBlendColor
        | SettledRenderKind::SetCullMode
        | SettledRenderKind::SetFrontFacingWinding
        | SettledRenderKind::SetDepthClipMode
        | SettledRenderKind::SetTriangleFillMode
        | SettledRenderKind::SetDepthBias
        | SettledRenderKind::SetLineWidth
        | SettledRenderKind::SetViewport
        | SettledRenderKind::SetViewports
        | SettledRenderKind::SetScissorRect
        | SettledRenderKind::SetScissorRects
        | SettledRenderKind::SetVisibilityResultMode => false,
    }
}

/// Whether a record writes the pass's attachments.
pub open spec fn writes_pass(kind: SettledRenderKind) -> bool {
    match kind {
        SettledRenderKind::WriteDescriptor
        | SettledRenderKind::SetColorStoreAction
        | SettledRenderKind::SetDepthStoreAction
        | SettledRenderKind::SetStencilStoreAction => true,
        _ => false,
    }
}

/// Whether a record writes the pass's attachments.
pub fn is_render_pass_state(kind: SettledRenderKind) -> (is: bool)
    ensures
        is == writes_pass(kind),
{
    match kind {
        SettledRenderKind::WriteDescriptor
        | SettledRenderKind::SetColorStoreAction
        | SettledRenderKind::SetDepthStoreAction
        | SettledRenderKind::SetStencilStoreAction => true,
        SettledRenderKind::Draw
        | SettledRenderKind::DrawWide
        | SettledRenderKind::DrawInstanced
        | SettledRenderKind::DrawInstancedWide
        | SettledRenderKind::DrawInstancedBase
        | SettledRenderKind::DrawInstancedBaseWide
        | SettledRenderKind::DrawIndexed
        | SettledRenderKind::DrawIndexedWide
        | SettledRenderKind::DrawIndexedInstanced
        | SettledRenderKind::DrawIndexedInstancedWide
        | SettledRenderKind::DrawIndexedInstancedBase
        | SettledRenderKind::DrawIndexedInstancedBaseWide
        | SettledRenderKind::DrawIndirect
        | SettledRenderKind::DrawIndexedIndirect
        | SettledRenderKind::SetVertexBuffers
        | SettledRenderKind::SetVertexBuffersWithStride
        | SettledRenderKind::SetVertexBufferOffset
        | SettledRenderKind::SetVertexBufferOffsetStride
        | SettledRenderKind::SetVertexTextures
        | SettledRenderKind::SetVertexSamplers
        | SettledRenderKind::SetVertexSamplersWithLod
        | SettledRenderKind::SetFragmentBuffers
        | SettledRenderKind::SetFragmentBufferOffset
        | SettledRenderKind::SetFragmentTextures
        | SettledRenderKind::SetFragmentSamplers
        | SettledRenderKind::SetFragmentSamplersWithLod
        | SettledRenderKind::SetRenderPipelineState
        | SettledRenderKind::SetDepthStencilState
        | SettledRenderKind::SetStencilReference
        | SettledRenderKind::SetBlendColor
        | SettledRenderKind::SetCullMode
        | SettledRenderKind::SetFrontFacingWinding
        | SettledRenderKind::SetDepthClipMode
        | SettledRenderKind::SetTriangleFillMode
        | SettledRenderKind::SetDepthBias
        | SettledRenderKind::SetLineWidth
        | SettledRenderKind::SetViewport
        | SettledRenderKind::SetViewports
        | SettledRenderKind::SetScissorRect
        | SettledRenderKind::SetScissorRects
        | SettledRenderKind::SetVisibilityResultMode => false,
    }
}

/// Whether a record draws.
pub open spec fn draws(kind: SettledRenderKind) -> bool {
    match kind {
        SettledRenderKind::Draw
        | SettledRenderKind::DrawWide
        | SettledRenderKind::DrawInstanced
        | SettledRenderKind::DrawInstancedWide
        | SettledRenderKind::DrawInstancedBase
        | SettledRenderKind::DrawInstancedBaseWide
        | SettledRenderKind::DrawIndexed
        | SettledRenderKind::DrawIndexedWide
        | SettledRenderKind::DrawIndexedInstanced
        | SettledRenderKind::DrawIndexedInstancedWide
        | SettledRenderKind::DrawIndexedInstancedBase
        | SettledRenderKind::DrawIndexedInstancedBaseWide
        | SettledRenderKind::DrawIndirect
        | SettledRenderKind::DrawIndexedIndirect => true,
        _ => false,
    }
}

/// Whether a record draws.
pub fn is_render_draw(kind: SettledRenderKind) -> (is: bool)
    ensures
        is == draws(kind),
{
    match kind {
        SettledRenderKind::Draw
        | SettledRenderKind::DrawWide
        | SettledRenderKind::DrawInstanced
        | SettledRenderKind::DrawInstancedWide
        | SettledRenderKind::DrawInstancedBase
        | SettledRenderKind::DrawInstancedBaseWide
        | SettledRenderKind::DrawIndexed
        | SettledRenderKind::DrawIndexedWide
        | SettledRenderKind::DrawIndexedInstanced
        | SettledRenderKind::DrawIndexedInstancedWide
        | SettledRenderKind::DrawIndexedInstancedBase
        | SettledRenderKind::DrawIndexedInstancedBaseWide
        | SettledRenderKind::DrawIndirect
        | SettledRenderKind::DrawIndexedIndirect => true,
        SettledRenderKind::WriteDescriptor
        | SettledRenderKind::SetColorStoreAction
        | SettledRenderKind::SetDepthStoreAction
        | SettledRenderKind::SetStencilStoreAction
        | SettledRenderKind::SetVertexBuffers
        | SettledRenderKind::SetVertexBuffersWithStride
        | SettledRenderKind::SetVertexBufferOffset
        | SettledRenderKind::SetVertexBufferOffsetStride
        | SettledRenderKind::SetVertexTextures
        | SettledRenderKind::SetVertexSamplers
        | SettledRenderKind::SetVertexSamplersWithLod
        | SettledRenderKind::SetFragmentBuffers
        | SettledRenderKind::SetFragmentBufferOffset
        | SettledRenderKind::SetFragmentTextures
        | SettledRenderKind::SetFragmentSamplers
        | SettledRenderKind::SetFragmentSamplersWithLod
        | SettledRenderKind::SetRenderPipelineState
        | SettledRenderKind::SetDepthStencilState
        | SettledRenderKind::SetStencilReference
        | SettledRenderKind::SetBlendColor
        | SettledRenderKind::SetCullMode
        | SettledRenderKind::SetFrontFacingWinding
        | SettledRenderKind::SetDepthClipMode
        | SettledRenderKind::SetTriangleFillMode
        | SettledRenderKind::SetDepthBias
        | SettledRenderKind::SetLineWidth
        | SettledRenderKind::SetViewport
        | SettledRenderKind::SetViewports
        | SettledRenderKind::SetScissorRect
        | SettledRenderKind::SetScissorRects
        | SettledRenderKind::SetVisibilityResultMode => false,
    }
}

/// Every settled record belongs to one of the four groups, and to no two.
pub proof fn lemma_each_record_has_one_group(kind: SettledRenderKind)
    ensures
        sets_stream_state(kind) || writes_argument_table(kind) || writes_pass(kind) || draws(kind),
        !(sets_stream_state(kind) && writes_argument_table(kind)),
        !(sets_stream_state(kind) && writes_pass(kind)),
        !(sets_stream_state(kind) && draws(kind)),
        !(writes_argument_table(kind) && writes_pass(kind)),
        !(writes_argument_table(kind) && draws(kind)),
        !(writes_pass(kind) && draws(kind)),
{
}

/// A record that sets one field of the encoder.
#[derive(Debug, PartialEq, Eq)]
#[allow(inconsistent_fields)]
pub enum StateRecord {
    SetPipeline { pipeline_ref: u32 },
    SetDepthStencilState { state_ref: u32 },
    SetStencilReference { front: u32, back: u32 },
    /// Single-precision bits.
    SetBlendColor { bits: [u32; 4] },
    SetCullMode { mode: u64 },
    SetFrontFacingWinding { winding: u64 },
    SetDepthClipMode { mode: u64 },
    SetTriangleFillMode { mode: u64 },
    /// Single-precision bits: bias, slope scale and clamp.
    SetDepthBias { bits: [u32; 3] },
    /// Single-precision bits.
    SetLineWidth { bits: u32 },
    /// Double-precision bits of each viewport.
    SetViewports(Vec<[u64; 6]>),
    SetScissorRects(Vec<ScissorRect>),
    SetVisibilityResultMode { mode: u64, offset: u64 },
}

/// What became of a state record.
#[derive(Clone, Copy, Debug, PartialEq, Eq, Structural)]
pub enum StateOutcome {
    Applied,
    /// Applied, and no pipeline is bound any more.
    Unbound,
    /// No viewport at all: the previous ones stand.
    NoViewport,
    /// No scissor at all: the previous ones stand.
    NoScissor,
    /// A scissor that covers nothing: the previous ones stand.
    EmptyScissor(ScissorRect),
}

/// A word at the width of the state: one that does not fit stands out as the
/// largest.
pub open spec fn narrowed(word: u64) -> u32 {
    if word <= u32::MAX {
        word as u32
    } else {
        u32::MAX
    }
}

fn narrow(word: u64) -> (narrow: u32)
    ensures
        narrow == narrowed(word),
{
    if word <= u32::MAX as u64 {
        word as u32
    } else {
        u32::MAX
    }
}

/// The first rectangle that covers nothing.
pub open spec fn first_empty(rects: Seq<ScissorRect>) -> Option<ScissorRect>
    decreases rects.len(),
{
    if rects.len() == 0 {
        None
    } else if rects[0].empty() {
        Some(rects[0])
    } else {
        first_empty(rects.skip(1))
    }
}

fn find_empty(rects: &Vec<ScissorRect>) -> (empty: Option<ScissorRect>)
    ensures
        empty == first_empty(rects@),
{
    let mut i: usize = 0;
    assert(rects@.skip(0) =~= rects@);
    while i < rects.len()
        invariant
            i <= rects@.len(),
            first_empty(rects@) == first_empty(rects@.skip(i as int)),
        decreases rects.len() - i,
    {
        assert(rects@.skip(i as int).skip(1) =~= rects@.skip(i as int + 1));
        if rects[i].is_empty() {
            return Some(rects[i]);
        }
        i += 1;
    }
    None
}

/// What a state record makes of the encoder's state.
pub open spec fn state_after(s: BindStateView, record: StateRecord) -> (
    BindStateView,
    StateOutcome,
) {
    match record {
        StateRecord::SetPipeline { pipeline_ref } => (
            s,
            if pipeline_ref == 0 {
                StateOutcome::Unbound
            } else {
                StateOutcome::Applied
            },
        ),
        StateRecord::SetDepthStencilState { state_ref } => (
            BindStateView { depth_stencil_ref: state_ref, ..s },
            StateOutcome::Applied,
        ),
        StateRecord::SetStencilReference { front, back } => (
            BindStateView { stencil_ref: Some((front, back)), ..s },
            StateOutcome::Applied,
        ),
        StateRecord::SetBlendColor { bits } => (
            BindStateView { blend_color: Some(bits), ..s },
            StateOutcome::Applied,
        ),
        StateRecord::SetCullMode { mode } => (
            BindStateView { cull_mode: Some(narrowed(mode)), ..s },
            StateOutcome::Applied,
        ),
        StateRecord::SetFrontFacingWinding { winding } => (
            BindStateView { front_facing: Some(narrowed(winding)), ..s },
            StateOutcome::Applied,
        ),
        StateRecord::SetDepthClipMode { mode } => (
            BindStateView { depth_clip_mode: Some(narrowed(mode)), ..s },
            StateOutcome::Applied,
        ),
        StateRecord::SetTriangleFillMode { mode } => (
            BindStateView { fill_mode: Some(narrowed(mode)), ..s },
            StateOutcome::Applied,
        ),
        StateRecord::SetDepthBias { bits } => (
            BindStateView { depth_bias: Some(bits), ..s },
            StateOutcome::Applied,
        ),
        StateRecord::SetLineWidth { bits } => (
            BindStateView { line_width: Some(bits), ..s },
            StateOutcome::Applied,
        ),
        StateRecord::SetViewports(ports) => if ports@.len() == 0 {
            (s, StateOutcome::NoViewport)
        } else {
            (BindStateView { viewports: ports@, ..s }, StateOutcome::Applied)
        },
        StateRecord::SetScissorRects(rects) => if rects@.len() == 0 {
            (s, StateOutcome::NoScissor)
        } else {
            match first_empty(rects@) {
                Some(empty) => (s, StateOutcome::EmptyScissor(empty)),
                None => (BindStateView { scissors: rects@, ..s }, StateOutcome::Applied),
            }
        },
        StateRecord::SetVisibilityResultMode { mode, offset } => (
            BindStateView {
                visibility: if mode != 0 {
                    Some(VisibilityArming { mode: narrowed(mode), offset })
                } else {
                    None
                },
                ..s
            },
            StateOutcome::Applied,
        ),
    }
}

/// The pipeline that is bound after a state record.
pub open spec fn pipeline_after(pipeline_ref: u32, record: StateRecord) -> u32 {
    match record {
        StateRecord::SetPipeline { pipeline_ref: next } => next,
        _ => pipeline_ref,
    }
}

/// Applies a record that sets one field of the encoder. A plural record
/// replaces its array whole or not at all.
pub fn handle_render_stream_state(acc: &mut StreamAccum, record: &StateRecord) -> (outcome:
    StateOutcome)
    ensures
        final(acc)@ == (AccumView {
            pipeline_ref: pipeline_after(old(acc)@.pipeline_ref, *record),
            state: state_after(old(acc)@.state, *record).0,
            ..old(acc)@
        }),
        outcome == state_after(old(acc)@.state, *record).1,
{
    match record {
        StateRecord::SetPipeline { pipeline_ref } => {
            acc.pipeline_ref = *pipeline_ref;
            if *pipeline_ref == 0 {
                return StateOutcome::Unbound;
            }
        },
        StateRecord::SetDepthStencilState { state_ref } => {
            acc.state.depth_stencil_ref = *state_ref;
        },
        StateRecord::SetStencilReference { front, back } => {
            acc.state.stencil_ref = Some((*front, *back));
        },
        StateRecord::SetBlendColor { bits } => {
            acc.state.blend_color = Some(*bits);
        },
        StateRecord::SetCullMode { mode } => {
            acc.state.cull_mode = Some(narrow(*mode));
        },
        StateRecord::SetFrontFacingWinding { winding } => {
            acc.state.front_facing = Some(narrow(*winding));
        },
        StateRecord::SetDepthClipMode { mode } => {
            acc.state.depth_clip_mode = Some(narrow(*mode));
        },
        StateRecord::SetTriangleFillMode { mode } => {
            acc.state.fill_mode = Some(narrow(*mode));
        },
        StateRecord::SetDepthBias { bits } => {
            acc.state.depth_bias = Some(*bits);
        },
        StateRecord::SetLineWidth { bits } => {
            acc.state.line_width = Some(*bits);
        },
        StateRecord::SetViewports(ports) => {
            if ports.len() == 0 {
                return StateOutcome::NoViewport;
            }
            acc.state.viewports = copy_all(ports);
        },
        StateRecord::SetScissorRects(rects) => {
            if rects.len() == 0 {
                return StateOutcome::NoScissor;
            }
            if let Some(empty) = find_empty(rects) {
                return StateOutcome::EmptyScissor(empty);
            }
            acc.state.scissors = copy_all(rects);
        },
        StateRecord::SetVisibilityResultMode { mode, offset } => {
            acc.state.visibility = if *mode != 0 {
                Some(VisibilityArming { mode: narrow(*mode), offset: *offset })
            } else {
                None
            };
        },
    }
    StateOutcome::Applied
}

/// A state record leaves the argument tables, the attachments and the indices
/// of the encoder as they are.
pub proof fn lemma_state_records_leave_the_tables(s: BindStateView, record: StateRecord)
    ensures
        state_after(s, record).0.vertex_buffers == s.vertex_buffers,
        state_after(s, record).0.fragment_buffers == s.fragment_buffers,
        state_after(s, record).0.vertex_textures == s.vertex_textures,
        state_after(s, record).0.fragment_textures == s.fragment_textures,
        state_after(s, record).0.vertex_samplers == s.vertex_samplers,
        state_after(s, record).0.fragment_samplers == s.fragment_samplers,
        state_after(s, record).0.depth_attach == s.depth_attach,
        state_after(s, record).0.stencil_attach == s.stencil_attach,
        state_after(s, record).0.indexed == s.indexed,
{
}

/// No scissor that covers nothing is ever adopted.
pub proof fn lemma_adopted_scissors_cover_something(s: BindStateView, record: StateRecord)
    requires
        first_empty(s.scissors) is None,
    ensures
        first_empty(state_after(s, record).0.scissors) is None,
{
}

/// What is reported of a state record that is not applied as it stands: the
/// name under which it is counted, if it is, and the key under which it is
/// reported once.
pub open spec fn state_note(outcome: StateOutcome, opcode: u32) -> Option<(Option<Seq<char>>, u64)> {
    match outcome {
        StateOutcome::Applied => None,
        StateOutcome::Unbound => Some((None, 0)),
        StateOutcome::NoViewport => Some((Some("render_viewport_count_zero"@), opcode as u64)),
        StateOutcome::NoScissor => Some((Some("render_scissor_count_zero"@), opcode as u64)),
        StateOutcome::EmptyScissor(rect) => Some(
            (
                Some("render_scissor_empty_kept_previous"@),
                (rect.width as u64) << 32 | rect.height as u64,
            ),
        ),
    }
}

/// What is reported of a state record.
pub fn note_state(outcome: StateOutcome, opcode: u32) -> (note: Option<(Option<&'static str>, u64)>)
    ensures
        match (note, state_note(outcome, opcode)) {
            (None, None) => true,
            (Some((route, key)), Some((expected, expected_key))) => {
                &&& key == expected_key
                &&& match (route, expected) {
                    (Some(route), Some(expected)) => route@ == expected,
                    (None, None) => true,
                    _ => false,
                }
            },
            _ => false,
        },
{
    match outcome {
        StateOutcome::Applied => None,
        StateOutcome::Unbound => Some((None, 0)),
        StateOutcome::NoViewport => Some((Some("render_viewport_count_zero"), opcode as u64)),
        StateOutcome::NoScissor => Some((Some("render_scissor_count_zero"), opcode as u64)),
        StateOutcome::EmptyScissor(rect) => Some(
            (
                Some("render_scissor_empty_kept_previous"),
                (rect.width as u64) << 32 | rect.height as u64,
            ),
        ),
    }
}

/// A state record sets the one thing that it names to what it states, and
/// nothing else; one that states no viewport, no scissor or an empty one
/// changes nothing.
pub proof fn lemma_a_state_record_sets_what_it_states(
    s: BindStateView,
    pipeline_ref: u32,
    record: StateRecord,
)
    ensures
        ({
            let (after, outcome) = state_after(s, record);
            match record {
                StateRecord::SetPipeline { pipeline_ref: next } => {
                    &&& pipeline_after(pipeline_ref, record) == next
                    &&& after == s
                    &&& outcome is Unbound <==> next == 0
                    &&& outcome is Applied <==> next != 0
                },
                StateRecord::SetDepthStencilState { state_ref } => {
                    &&& after == (BindStateView { depth_stencil_ref: state_ref, ..s })
                    &&& outcome is Applied
                },
                StateRecord::SetStencilReference { front, back } => {
                    &&& after.stencil_ref matches Some((held_front, held_back))
                    &&& held_front == front && held_back == back
                    &&& after == (BindStateView { stencil_ref: after.stencil_ref, ..s })
                },
                StateRecord::SetBlendColor { bits } => after == (BindStateView {
                    blend_color: Some(bits),
                    ..s
                }),
                StateRecord::SetCullMode { mode } => {
                    &&& after.cull_mode is Some
                    &&& mode <= u32::MAX ==> after.cull_mode->0 == mode
                    &&& mode > u32::MAX ==> after.cull_mode->0 == u32::MAX
                    &&& after == (BindStateView { cull_mode: after.cull_mode, ..s })
                },
                StateRecord::SetFrontFacingWinding { winding } => {
                    &&& after.front_facing is Some
                    &&& winding <= u32::MAX ==> after.front_facing->0 == winding
                    &&& winding > u32::MAX ==> after.front_facing->0 == u32::MAX
                    &&& after == (BindStateView { front_facing: after.front_facing, ..s })
                },
                StateRecord::SetDepthClipMode { mode } => {
                    &&& after.depth_clip_mode is Some
                    &&& mode <= u32::MAX ==> after.depth_clip_mode->0 == mode
                    &&& mode > u32::MAX ==> after.depth_clip_mode->0 == u32::MAX
                    &&& after == (BindStateView { depth_clip_mode: after.depth_clip_mode, ..s })
                },
                StateRecord::SetTriangleFillMode { mode } => {
                    &&& after.fill_mode is Some
                    &&& mode <= u32::MAX ==> after.fill_mode->0 == mode
                    &&& mode > u32::MAX ==> after.fill_mode->0 == u32::MAX
                    &&& after == (BindStateView { fill_mode: after.fill_mode, ..s })
                },
                StateRecord::SetDepthBias { bits } => after == (BindStateView {
                    depth_bias: Some(bits),
                    ..s
                }),
                StateRecord::SetLineWidth { bits } => after == (BindStateView {
                    line_width: Some(bits),
                    ..s
                }),
                StateRecord::SetViewports(ports) => {
                    &&& ports@.len() == 0 ==> after == s && outcome is NoViewport
                    &&& ports@.len() != 0 ==> after == (BindStateView { viewports: ports@, ..s })
                        && outcome is Applied
                },
                StateRecord::SetScissorRects(rects) => {
                    &&& rects@.len() == 0 ==> after == s && outcome is NoScissor
                    &&& rects@.len() != 0 && (forall|i: int|
                        0 <= i < rects@.len() ==> !(#[trigger] rects@[i]).empty()) ==> after == (
                    BindStateView { scissors: rects@, ..s }) && outcome is Applied
                    &&& (exists|i: int| 0 <= i < rects@.len() && (#[trigger] rects@[i]).empty())
                        ==> after == s && outcome is EmptyScissor
                },
                StateRecord::SetVisibilityResultMode { mode, offset } => {
                    &&& mode == 0 <==> after.visibility is None
                    &&& after.visibility matches Some(armed) ==> armed.offset == offset && (mode
                        <= u32::MAX ==> armed.mode == mode)
                    &&& after == (BindStateView { visibility: after.visibility, ..s })
                },
            }
        }),
        !(record is SetPipeline) ==> pipeline_after(pipeline_ref, record) == pipeline_ref,
{
    if let StateRecord::SetScissorRects(rects) = record {
        lemma_first_empty(rects@);
    }
}

proof fn lemma_first_empty(rects: Seq<ScissorRect>)
    ensures
        first_empty(rects) is Some <==> exists|i: int|
            0 <= i < rects.len() && (#[trigger] rects[i]).empty(),
    decreases rects.len(),
{
    if rects.len() > 0 {
        let rest = rects.skip(1);
        lemma_first_empty(rest);
        if first_empty(rest) is Some {
            let i = choose|i: int| 0 <= i < rest.len() && (#[trigger] rest[i]).empty();
            assert(rects[i + 1] == rest[i]);
        }
        if exists|i: int| 0 <= i < rects.len() && (#[trigger] rects[i]).empty() {
            let i = choose|i: int| 0 <= i < rects.len() && (#[trigger] rects[i]).empty();
            if i > 0 {
                assert(rest[i - 1] == rects[i]);
            }
        }
    }
}

} // verus!
