//! The raw ordinals that encoder records carry, and what each stands for.
//!
//! Every function here maps an ordinal of the graphics API's own enumeration
//! to its meaning, and an ordinal outside the enumeration to `None`.

use vstd::prelude::*;

verus! {

/// Which faces are discarded.
#[derive(Clone, Copy, Debug, PartialEq, Eq, Structural)]
pub enum CullMode {
    Neither,
    Front,
    Back,
}

/// How triangles are filled.
#[derive(Clone, Copy, Debug, PartialEq, Eq, Structural)]
pub enum FillMode {
    Fill,
    Lines,
}

/// What becomes of fragments outside the depth range.
#[derive(Clone, Copy, Debug, PartialEq, Eq, Structural)]
pub enum DepthClipMode {
    Clip,
    Clamp,
}

/// What an armed occlusion query counts.
#[derive(Clone, Copy, Debug, PartialEq, Eq, Structural)]
pub enum VisibilityResultMode {
    Boolean,
    Counting,
}

/// How an attachment starts a pass.
#[derive(Clone, Copy, Debug, PartialEq, Eq, Structural)]
pub enum LoadAction {
    DontCare,
    Load,
    Clear,
}

/// What becomes of an attachment after a pass.
#[derive(Clone, Copy, Debug, PartialEq, Eq, Structural)]
pub enum StoreAction {
    DontCare,
    Store,
    MultisampleResolve,
    StoreAndMultisampleResolve,
}

/// How vertices form primitives.
#[derive(Clone, Copy, Debug, PartialEq, Eq, Structural)]
pub enum PrimitiveTopology {
    Point,
    Line,
    LineStrip,
    Triangle,
    TriangleStrip,
}

/// The width of an index.
#[derive(Clone, Copy, Debug, PartialEq, Eq, Structural)]
pub enum IndexType {
    Uint16,
    Uint32,
}

pub open spec fn cull_mode_of(raw: u64) -> Option<CullMode> {
    if raw == 0 {
        Some(CullMode::Neither)
    } else if raw == 1 {
        Some(CullMode::Front)
    } else if raw == 2 {
        Some(CullMode::Back)
    } else {
        None
    }
}

/// The cull mode an ordinal names.
pub fn cull_mode(raw: u64) -> (mode: Option<CullMode>)
    ensures
        mode == cull_mode_of(raw),
{
    match raw {
        0 => Some(CullMode::Neither),
        1 => Some(CullMode::Front),
        2 => Some(CullMode::Back),
        _ => None,
    }
}

pub open spec fn front_face_ccw_of(raw: u64) -> Option<bool> {
    if raw == 0 {
        Some(false)
    } else if raw == 1 {
        Some(true)
    } else {
        None
    }
}

/// Whether a winding ordinal names counter-clockwise front faces.
pub fn front_face_ccw(raw: u64) -> (ccw: Option<bool>)
    ensures
        ccw == front_face_ccw_of(raw),
{
    match raw {
        0 => Some(false),
        1 => Some(true),
        _ => None,
    }
}

pub open spec fn fill_mode_of(raw: u64) -> Option<FillMode> {
    if raw == 0 {
        Some(FillMode::Fill)
    } else if raw == 1 {
        Some(FillMode::Lines)
    } else {
        None
    }
}

/// The fill mode an ordinal names.
pub fn fill_mode(raw: u64) -> (mode: Option<FillMode>)
    ensures
        mode == fill_mode_of(raw),
{
    match raw {
        0 => Some(FillMode::Fill),
        1 => Some(FillMode::Lines),
        _ => None,
    }
}

pub open spec fn depth_clip_mode_of(raw: u64) -> Option<DepthClipMode> {
    if raw == 0 {
        Some(DepthClipMode::Clip)
    } else if raw == 1 {
        Some(DepthClipMode::Clamp)
    } else {
        None
    }
}

/// The depth clip mode an ordinal names.
pub fn depth_clip_mode(raw: u64) -> (mode: Option<DepthClipMode>)
    ensures
        mode == depth_clip_mode_of(raw),
{
    match raw {
        0 => Some(DepthClipMode::Clip),
        1 => Some(DepthClipMode::Clamp),
        _ => None,
    }
}

/// The inner option is `None` for the mode that disables the query.
pub open spec fn visibility_result_mode_of(raw: u64) -> Option<Option<VisibilityResultMode>> {
    if raw == 0 {
        Some(None)
    } else if raw == 1 {
        Some(Some(VisibilityResultMode::Boolean))
    } else if raw == 2 {
        Some(Some(VisibilityResultMode::Counting))
    } else {
        None
    }
}

/// The occlusion query mode an ordinal names; disabled is `Some(None)`.
pub fn visibility_result_mode(raw: u64) -> (mode: Option<Option<VisibilityResultMode>>)
    ensures
        mode == visibility_result_mode_of(raw),
{
    match raw {
        0 => Some(None),
        1 => Some(Some(VisibilityResultMode::Boolean)),
        2 => Some(Some(VisibilityResultMode::Counting)),
        _ => None,
    }
}

pub open spec fn load_action_of(raw: u16) -> Option<LoadAction> {
    if raw == 0 {
        Some(LoadAction::DontCare)
    } else if raw == 1 {
        Some(LoadAction::Load)
    } else if raw == 2 {
        Some(LoadAction::Clear)
    } else {
        None
    }
}

/// The load action an ordinal names.
pub fn load_action(raw: u16) -> (action: Option<LoadAction>)
    ensures
        action == load_action_of(raw),
{
    match raw {
        0 => Some(LoadAction::DontCare),
        1 => Some(LoadAction::Load),
        2 => Some(LoadAction::Clear),
        _ => None,
    }
}

pub open spec fn store_action_of(raw: u16) -> Option<StoreAction> {
    if raw == 0 {
        Some(StoreAction::DontCare)
    } else if raw == 1 {
        Some(StoreAction::Store)
    } else if raw == 2 {
        Some(StoreAction::MultisampleResolve)
    } else if raw == 3 {
        Some(StoreAction::StoreAndMultisampleResolve)
    } else {
        None
    }
}

/// The store action an ordinal names.
pub fn store_action(raw: u16) -> (action: Option<StoreAction>)
    ensures
        action == store_action_of(raw),
{
    match raw {
        0 => Some(StoreAction::DontCare),
        1 => Some(StoreAction::Store),
        2 => Some(StoreAction::MultisampleResolve),
        3 => Some(StoreAction::StoreAndMultisampleResolve),
        _ => None,
    }
}

pub open spec fn primitive_topology_of(raw: u32) -> Option<PrimitiveTopology> {
    if raw == 0 {
        Some(PrimitiveTopology::Point)
    } else if raw == 1 {
        Some(PrimitiveTopology::Line)
    } else if raw == 2 {
        Some(PrimitiveTopology::LineStrip)
    } else if raw == 3 {
        Some(PrimitiveTopology::Triangle)
    } else if raw == 4 {
        Some(PrimitiveTopology::TriangleStrip)
    } else {
        None
    }
}

/// The topology an ordinal names.
pub fn primitive_topology(raw: u32) -> (topology: Option<PrimitiveTopology>)
    ensures
        topology == primitive_topology_of(raw),
{
    match raw {
        0 => Some(PrimitiveTopology::Point),
        1 => Some(PrimitiveTopology::Line),
        2 => Some(PrimitiveTopology::LineStrip),
        3 => Some(PrimitiveTopology::Triangle),
        4 => Some(PrimitiveTopology::TriangleStrip),
        _ => None,
    }
}

pub open spec fn index_type_of(raw: u32) -> Option<IndexType> {
    if raw == 0 {
        Some(IndexType::Uint16)
    } else if raw == 1 {
        Some(IndexType::Uint32)
    } else {
        None
    }
}

/// The index type an ordinal names.
pub fn decode_index_type(raw: u32) -> (index_type: Option<IndexType>)
    ensures
        index_type == index_type_of(raw),
{
    match raw {
        0 => Some(IndexType::Uint16),
        1 => Some(IndexType::Uint32),
        _ => None,
    }
}

impl IndexType {
    pub open spec fn bytes(self) -> int {
        match self {
            IndexType::Uint16 => 2,
            IndexType::Uint32 => 4,
        }
    }

    /// Bytes that one index takes.
    pub fn byte_size(self) -> (bytes: u64)
        ensures
            bytes == self.bytes(),
    {
        match self {
            IndexType::Uint16 => 2,
            IndexType::Uint32 => 4,
        }
    }

    pub open spec fn ordinal_of(self) -> u32 {
        match self {
            IndexType::Uint16 => 0,
            IndexType::Uint32 => 1,
        }
    }

    /// The ordinal that names the type.
    pub fn ordinal(self) -> (raw: u32)
        ensures
            raw == self.ordinal_of(),
    {
        match self {
            IndexType::Uint16 => 0,
            IndexType::Uint32 => 1,
        }
    }
}

/// The load action that clears an attachment.
pub const LOAD_ACTION_CLEAR: u16 = 2;

/// The load action that keeps what an attachment holds.
pub const LOAD_ACTION_LOAD: u16 = 1;

/// The store action that keeps an attachment.
pub const STORE_ACTION_STORE: u16 = 1;

/// The store action that resolves an attachment.
pub const STORE_ACTION_MULTISAMPLE_RESOLVE: u16 = 2;

/// The store action that keeps an attachment and resolves it.
pub const STORE_ACTION_STORE_AND_MULTISAMPLE_RESOLVE: u16 = 3;

/// Each mode is named by one ordinal, and by no other.
pub proof fn lemma_ordinals_name_their_modes(raw: u64, short: u16, word: u32)
    ensures
        cull_mode_of(raw) == Some(CullMode::Neither) <==> raw == 0,
        cull_mode_of(raw) == Some(CullMode::Front) <==> raw == 1,
        cull_mode_of(raw) == Some(CullMode::Back) <==> raw == 2,
        front_face_ccw_of(raw) == Some(false) <==> raw == 0,
        front_face_ccw_of(raw) == Some(true) <==> raw == 1,
        fill_mode_of(raw) == Some(FillMode::Fill) <==> raw == 0,
        fill_mode_of(raw) == Some(FillMode::Lines) <==> raw == 1,
        depth_clip_mode_of(raw) == Some(DepthClipMode::Clip) <==> raw == 0,
        depth_clip_mode_of(raw) == Some(DepthClipMode::Clamp) <==> raw == 1,
        load_action_of(short) == Some(LoadAction::DontCare) <==> short == 0,
        load_action_of(short) == Some(LoadAction::Load) <==> short == LOAD_ACTION_LOAD,
        load_action_of(short) == Some(LoadAction::Clear) <==> short == LOAD_ACTION_CLEAR,
        store_action_of(short) == Some(StoreAction::DontCare) <==> short == 0,
        store_action_of(short) == Some(StoreAction::Store) <==> short == STORE_ACTION_STORE,
        store_action_of(short) == Some(StoreAction::MultisampleResolve) <==> short
            == STORE_ACTION_MULTISAMPLE_RESOLVE,
        store_action_of(short) == Some(StoreAction::StoreAndMultisampleResolve) <==> short
            == STORE_ACTION_STORE_AND_MULTISAMPLE_RESOLVE,
        primitive_topology_of(word) == Some(PrimitiveTopology::Point) <==> word == 0,
        primitive_topology_of(word) == Some(PrimitiveTopology::Line) <==> word == 1,
        primitive_topology_of(word) == Some(PrimitiveTopology::LineStrip) <==> word == 2,
        primitive_topology_of(word) == Some(PrimitiveTopology::Triangle) <==> word == 3,
        primitive_topology_of(word) == Some(PrimitiveTopology::TriangleStrip) <==> word == 4,
        index_type_of(word) == Some(IndexType::Uint16) <==> word == 0,
        index_type_of(word) == Some(IndexType::Uint32) <==> word == 1,
{
}

} // verus!
