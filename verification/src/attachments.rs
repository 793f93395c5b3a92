//! The attachments of a render pass, resolved.

use vstd::prelude::*;

use crate::command::{ColorAttachment, DepthAttachment, StencilAttachment};
use crate::encoder_state::{
    ReplacementRecordProjectionState, ReplacementRenderEncoderState, RenderEncoderView,
};
use crate::raster::{
    load_action, load_action_of, store_action, store_action_of, LoadAction, StoreAction,
};
use crate::session::{
    AttachmentAnswer, AttachmentQuery, AttachmentTarget, ImageAspect,
    ReplacementRenderAttachmentResolutionError,
    ReplacementRuntimeSession,
};
use crate::tables::answer_of;

verus! {

/// Which attachment of a pass.
#[derive(Clone, Copy, Debug, PartialEq, Eq, Structural)]
pub enum RenderAttachmentRole {
    Color(u32),
    Depth,
    Stencil,
}

/// What an attachment is cleared to.
#[derive(Clone, Copy, Debug, PartialEq, Eq)]
pub enum RenderAttachmentClear {
    /// Single-precision bits.
    Color([u32; 4]),
    /// Single-precision bits.
    Depth(u32),
    Stencil(u32),
}

/// Which of an attachment's two actions.
#[derive(Clone, Copy, Debug, PartialEq, Eq, Structural)]
pub enum ReplacementRenderPassActionKind {
    Load,
    Store,
}

/// Why a pass's attachments do not resolve.
#[derive(Clone, Copy, Debug, PartialEq, Eq, Structural)]
#[allow(inconsistent_fields)]
pub enum ReplacementRenderPassResolutionError {
    OutsideEncoder,
    PassAction { role: RenderAttachmentRole, kind: ReplacementRenderPassActionKind, raw: u16 },
    Attachment {
        role: RenderAttachmentRole,
        reason: ReplacementRenderAttachmentResolutionError,
    },
    StoreActionOptionsUnsupported { role: RenderAttachmentRole, raw: u16 },
    ResolveFilterUnsupported { role: RenderAttachmentRole, raw: u16 },
    ResolveMismatch(RenderAttachmentRole),
    DepthStencilAttachmentMismatch,
}

/// An attachment of a pass, resolved.
#[derive(Clone, Copy, Debug, PartialEq, Eq)]
pub struct ResolvedRenderAttachment {
    pub role: RenderAttachmentRole,
    pub target: AttachmentTarget,
    pub load: LoadAction,
    pub store: StoreAction,
    pub clear: RenderAttachmentClear,
    pub resolve: Option<AttachmentTarget>,
    /// Whether the encoder also samples the attachment.
    pub feedback_loop: bool,
    /// Whether the encoder also reads the attachment as a colour input.
    pub input_attachment: bool,
}

/// What a pass states of one attachment.
#[derive(Clone, Copy, Debug, PartialEq, Eq)]
pub struct AttachmentStatement {
    pub role: RenderAttachmentRole,
    pub texture_ref: u32,
    pub level: u32,
    pub slice: u32,
    pub depth_plane: u32,
    pub resolve_texture_ref: u32,
    pub resolve_level: u32,
    pub resolve_slice: u32,
    pub resolve_depth_plane: u32,
    pub load_action: u16,
    pub store_action: u16,
    pub store_action_options: u16,
    pub resolve_filter: u16,
    pub clear: RenderAttachmentClear,
}

impl RenderAttachmentRole {
    pub open spec fn aspect_of(self) -> ImageAspect {
        match self {
            RenderAttachmentRole::Color(_) => ImageAspect::Color,
            RenderAttachmentRole::Depth => ImageAspect::Depth,
            RenderAttachmentRole::Stencil => ImageAspect::Stencil,
        }
    }

    /// The part of an image that the attachment is.
    pub fn aspect(self) -> (aspect: ImageAspect)
        ensures
            aspect == self.aspect_of(),
    {
        match self {
            RenderAttachmentRole::Color(_) => ImageAspect::Color,
            RenderAttachmentRole::Depth => ImageAspect::Depth,
            RenderAttachmentRole::Stencil => ImageAspect::Stencil,
        }
    }
}

pub open spec fn color_statement(slot: int, a: ColorAttachment) -> AttachmentStatement {
    AttachmentStatement {
        role: RenderAttachmentRole::Color(slot as u32),
        texture_ref: a.texture_ref,
        level: a.level,
        slice: a.slice,
        depth_plane: a.depth_plane,
        resolve_texture_ref: a.resolve_texture_ref,
        resolve_level: a.resolve_level,
        resolve_slice: a.resolve_slice,
        resolve_depth_plane: a.resolve_depth_plane,
        load_action: a.load_action,
        store_action: a.store_action,
        store_action_options: a.store_action_options,
        resolve_filter: 0,
        clear: RenderAttachmentClear::Color(a.clear_color),
    }
}

pub open spec fn depth_statement(a: DepthAttachment) -> AttachmentStatement {
    AttachmentStatement {
        role: RenderAttachmentRole::Depth,
        texture_ref: a.texture_ref,
        level: a.level,
        slice: a.slice,
        depth_plane: a.depth_plane,
        resolve_texture_ref: a.resolve_texture_ref,
        resolve_level: a.resolve_level,
        resolve_slice: a.resolve_slice,
        resolve_depth_plane: a.resolve_depth_plane,
        load_action: a.load_action,
        store_action: a.store_action,
        store_action_options: a.store_action_options,
        resolve_filter: a.resolve_filter,
        clear: RenderAttachmentClear::Depth(a.clear_depth),
    }
}

pub open spec fn stencil_statement(a: StencilAttachment) -> AttachmentStatement {
    AttachmentStatement {
        role: RenderAttachmentRole::Stencil,
        texture_ref: a.texture_ref,
        level: a.level,
        slice: a.slice,
        depth_plane: a.depth_plane,
        resolve_texture_ref: a.resolve_texture_ref,
        resolve_level: a.resolve_level,
        resolve_slice: a.resolve_slice,
        resolve_depth_plane: a.resolve_depth_plane,
        load_action: a.load_action,
        store_action: a.store_action,
        store_action_options: a.store_action_options,
        resolve_filter: a.resolve_filter,
        clear: RenderAttachmentClear::Stencil(a.clear_stencil),
    }
}

/// What a pass states of its attachments: colour slots in order, then depth,
/// then stencil.
pub open spec fn pass_statements(s: RenderEncoderView) -> Seq<AttachmentStatement> {
    Seq::new(
        s.color_attachments.len(),
        |slot: int| color_statement(slot, s.color_attachments[slot]),
    ).push(depth_statement(s.depth_attachment)).push(stencil_statement(s.stencil_attachment))
}

/// The two actions that a pair of ordinals names.
pub open spec fn pass_actions(role: RenderAttachmentRole, load: u16, store: u16) -> Result<
    (LoadAction, StoreAction),
    ReplacementRenderPassResolutionError,
> {
    match (load_action_of(load), store_action_of(store)) {
        (None, _) => Err(
            ReplacementRenderPassResolutionError::PassAction {
                role,
                kind: ReplacementRenderPassActionKind::Load,
                raw: load,
            },
        ),
        (Some(_), None) => Err(
            ReplacementRenderPassResolutionError::PassAction {
                role,
                kind: ReplacementRenderPassActionKind::Store,
                raw: store,
            },
        ),
        (Some(load), Some(store)) => Ok((load, store)),
    }
}

/// The two actions that a pair of ordinals names.
pub fn resolve_render_pass_actions(role: RenderAttachmentRole, load: u16, store: u16) -> (actions:
    Result<(LoadAction, StoreAction), ReplacementRenderPassResolutionError>)
    ensures
        actions == pass_actions(role, load, store),
{
    let load = match load_action(load) {
        Some(load) => load,
        None => {
            return Err(
                ReplacementRenderPassResolutionError::PassAction {
                    role,
                    kind: ReplacementRenderPassActionKind::Load,
                    raw: load,
                },
            );
        },
    };
    match store_action(store) {
        Some(store) => Ok((load, store)),
        None => Err(
            ReplacementRenderPassResolutionError::PassAction {
                role,
                kind: ReplacementRenderPassActionKind::Store,
                raw: store,
            },
        ),
    }
}

/// The census name for a colour attachment's load action.
pub fn load_action_census_name(load: LoadAction) -> (name: &'static str)
    ensures
        name@ == (match load {
            LoadAction::DontCare => "render_color_load_dont_care"@,
            LoadAction::Load => "render_color_load_load"@,
            LoadAction::Clear => "render_color_load_clear"@,
        }),
{
    match load {
        LoadAction::DontCare => "render_color_load_dont_care",
        LoadAction::Load => "render_color_load_load",
        LoadAction::Clear => "render_color_load_clear",
    }
}

/// The census name for a colour attachment's store action.
pub fn store_action_census_name(store: StoreAction) -> (name: &'static str)
    ensures
        name@ == (match store {
            StoreAction::DontCare => "render_color_store_dont_care"@,
            StoreAction::Store => "render_color_store_store"@,
            StoreAction::MultisampleResolve => "render_color_store_resolve"@,
            StoreAction::StoreAndMultisampleResolve => "render_color_store_store_and_resolve"@,
        }),
{
    match store {
        StoreAction::DontCare => "render_color_store_dont_care",
        StoreAction::Store => "render_color_store_store",
        StoreAction::MultisampleResolve => "render_color_store_resolve",
        StoreAction::StoreAndMultisampleResolve => "render_color_store_store_and_resolve",
    }
}

/// Whether a resolve target can take a target's samples.
pub open spec fn resolves_into(target: AttachmentTarget, resolve: AttachmentTarget) -> bool {
    &&& resolve.extent == target.extent
    &&& resolve.pixel_format == target.pixel_format
    &&& resolve.sample_count == 1
}

pub open spec fn target_query(st: AttachmentStatement) -> AttachmentQuery {
    AttachmentQuery {
        reference: st.texture_ref,
        level: st.level,
        slice: st.slice,
        depth_plane: st.depth_plane,
        aspect: st.role.aspect_of(),
    }
}

pub open spec fn resolve_query(st: AttachmentStatement) -> AttachmentQuery {
    AttachmentQuery {
        reference: st.resolve_texture_ref,
        level: st.resolve_level,
        slice: st.resolve_slice,
        depth_plane: st.resolve_depth_plane,
        aspect: st.role.aspect_of(),
    }
}

/// The resolve target a statement names, where it names one.
pub open spec fn statement_resolve(
    session: ReplacementRuntimeSession,
    st: AttachmentStatement,
    target: AttachmentTarget,
) -> Result<Option<AttachmentTarget>, ReplacementRenderPassResolutionError> {
    if st.resolve_texture_ref == 0 {
        Ok(None)
    } else {
        match session.attachment(resolve_query(st)) {
            Err(reason) => Err(
                ReplacementRenderPassResolutionError::Attachment { role: st.role, reason },
            ),
            Ok(resolve) => if resolves_into(target, resolve) {
                Ok(Some(resolve))
            } else {
                Err(ReplacementRenderPassResolutionError::ResolveMismatch(st.role))
            },
        }
    }
}

/// The attachment a statement names.
pub open spec fn statement_attachment(
    session: ReplacementRuntimeSession,
    st: AttachmentStatement,
) -> Result<ResolvedRenderAttachment, ReplacementRenderPassResolutionError> {
    if st.store_action_options != 0 {
        Err(
            ReplacementRenderPassResolutionError::StoreActionOptionsUnsupported {
                role: st.role,
                raw: st.store_action_options,
            },
        )
    } else if st.resolve_texture_ref != 0 && st.resolve_filter != 0 {
        Err(
            ReplacementRenderPassResolutionError::ResolveFilterUnsupported {
                role: st.role,
                raw: st.resolve_filter,
            },
        )
    } else {
        match pass_actions(st.role, st.load_action, st.store_action) {
            Err(error) => Err(error),
            Ok((load, store)) => match session.attachment(target_query(st)) {
                Err(reason) => Err(
                    ReplacementRenderPassResolutionError::Attachment { role: st.role, reason },
                ),
                Ok(target) => match statement_resolve(session, st, target) {
                    Err(error) => Err(error),
                    Ok(resolve) => Ok(
                        ResolvedRenderAttachment {
                            role: st.role,
                            target,
                            load,
                            store,
                            clear: st.clear,
                            resolve,
                            feedback_loop: false,
                            input_attachment: false,
                        },
                    ),
                },
            },
        }
    }
}

/// The attachments that a pass's statements name, in order, or the first
/// refusal. A statement without a texture names none.
pub open spec fn statement_attachments(
    session: ReplacementRuntimeSession,
    statements: Seq<AttachmentStatement>,
) -> Result<Seq<ResolvedRenderAttachment>, ReplacementRenderPassResolutionError>
    decreases statements.len(),
{
    if statements.len() == 0 {
        Ok(Seq::empty())
    } else {
        match statement_attachments(session, statements.drop_last()) {
            Err(error) => Err(error),
            Ok(done) => if statements.last().texture_ref == 0 {
                Ok(done)
            } else {
                match statement_attachment(session, statements.last()) {
                    Err(error) => Err(error),
                    Ok(attachment) => Ok(done.push(attachment)),
                }
            },
        }
    }
}

/// The attachments of an encoder's pass.
pub open spec fn pass_attachments(session: ReplacementRuntimeSession, s: RenderEncoderView) -> Result<
    Seq<ResolvedRenderAttachment>,
    ReplacementRenderPassResolutionError,
> {
    if s.depth_attachment.texture_ref != 0 && s.stencil_attachment.texture_ref != 0
        && s.depth_attachment.texture_ref != s.stencil_attachment.texture_ref {
        Err(ReplacementRenderPassResolutionError::DepthStencilAttachmentMismatch)
    } else {
        statement_attachments(session, pass_statements(s))
    }
}

/// A refusal in a prefix of the statements is the refusal of them all.
proof fn lemma_refusal_of_a_prefix(
    session: ReplacementRuntimeSession,
    statements: Seq<AttachmentStatement>,
    n: int,
)
    requires
        0 <= n <= statements.len(),
        statement_attachments(session, statements.take(n)) is Err,
    ensures
        statement_attachments(session, statements) == statement_attachments(
            session,
            statements.take(n),
        ),
    decreases statements.len() - n,
{
    if n == statements.len() {
        assert(statements.take(n) =~= statements);
    } else {
        assert(statements.take(n + 1).drop_last() =~= statements.take(n));
        lemma_refusal_of_a_prefix(session, statements, n + 1);
    }
}

/// Resolves the attachment that a statement names.
fn resolve_statement(session: &ReplacementRuntimeSession, st: AttachmentStatement) -> (attachment:
    Result<ResolvedRenderAttachment, ReplacementRenderPassResolutionError>)
    ensures
        attachment == statement_attachment(*session, st),
{
    let role = st.role;
    if st.store_action_options != 0 {
        return Err(
            ReplacementRenderPassResolutionError::StoreActionOptionsUnsupported {
                role,
                raw: st.store_action_options,
            },
        );
    }
    if st.resolve_texture_ref != 0 && st.resolve_filter != 0 {
        return Err(
            ReplacementRenderPassResolutionError::ResolveFilterUnsupported {
                role,
                raw: st.resolve_filter,
            },
        );
    }
    let (load, store) = match resolve_render_pass_actions(role, st.load_action, st.store_action) {
        Ok(actions) => actions,
        Err(error) => {
            return Err(error);
        },
    };
    let target = match session.resolve_render_attachment(
        AttachmentQuery {
            reference: st.texture_ref,
            level: st.level,
            slice: st.slice,
            depth_plane: st.depth_plane,
            aspect: role.aspect(),
        },
    ) {
        Ok(target) => target,
        Err(reason) => {
            return Err(ReplacementRenderPassResolutionError::Attachment { role, reason });
        },
    };
    let resolve = if st.resolve_texture_ref == 0 {
        None
    } else {
        match session.resolve_render_attachment(
            AttachmentQuery {
                reference: st.resolve_texture_ref,
                level: st.resolve_level,
                slice: st.resolve_slice,
                depth_plane: st.resolve_depth_plane,
                aspect: role.aspect(),
            },
        ) {
            Ok(resolve) => {
                if resolve.extent != target.extent || resolve.pixel_format != target.pixel_format
                    || resolve.sample_count != 1 {
                    return Err(ReplacementRenderPassResolutionError::ResolveMismatch(role));
                }
                Some(resolve)
            },
            Err(reason) => {
                return Err(ReplacementRenderPassResolutionError::Attachment { role, reason });
            },
        }
    };
    Ok(
        ResolvedRenderAttachment {
            role,
            target,
            load,
            store,
            clear: st.clear,
            resolve,
            feedback_loop: false,
            input_attachment: false,
        },
    )
}

/// What the pass states of its attachments.
fn make_statements(render: &ReplacementRenderEncoderState) -> (statements: Vec<AttachmentStatement>)
    ensures
        statements@ == pass_statements(render@),
{
    let mut statements: Vec<AttachmentStatement> = Vec::new();
    let mut slot: usize = 0;
    while slot < render.color_attachments.len()
        invariant
            slot <= render.color_attachments@.len(),
            statements@ == Seq::new(
                slot as nat,
                |i: int| color_statement(i, render@.color_attachments[i]),
            ),
        decreases render.color_attachments.len() - slot,
    {
        let a = render.color_attachments[slot];
        statements.push(
            AttachmentStatement {
                role: RenderAttachmentRole::Color(slot as u32),
                texture_ref: a.texture_ref,
                level: a.level,
                slice: a.slice,
                depth_plane: a.depth_plane,
                resolve_texture_ref: a.resolve_texture_ref,
                resolve_level: a.resolve_level,
                resolve_slice: a.resolve_slice,
                resolve_depth_plane: a.resolve_depth_plane,
                load_action: a.load_action,
                store_action: a.store_action,
                store_action_options: a.store_action_options,
                resolve_filter: 0,
                clear: RenderAttachmentClear::Color(a.clear_color),
            },
        );
        slot += 1;
    }
    let a = render.depth_attachment;
    statements.push(
        AttachmentStatement {
            role: RenderAttachmentRole::Depth,
            texture_ref: a.texture_ref,
            level: a.level,
            slice: a.slice,
            depth_plane: a.depth_plane,
            resolve_texture_ref: a.resolve_texture_ref,
            resolve_level: a.resolve_level,
            resolve_slice: a.resolve_slice,
            resolve_depth_plane: a.resolve_depth_plane,
            load_action: a.load_action,
            store_action: a.store_action,
            store_action_options: a.store_action_options,
            resolve_filter: a.resolve_filter,
            clear: RenderAttachmentClear::Depth(a.clear_depth),
        },
    );
    let a = render.stencil_attachment;
    statements.push(
        AttachmentStatement {
            role: RenderAttachmentRole::Stencil,
            texture_ref: a.texture_ref,
            level: a.level,
            slice: a.slice,
            depth_plane: a.depth_plane,
            resolve_texture_ref: a.resolve_texture_ref,
            resolve_level: a.resolve_level,
            resolve_slice: a.resolve_slice,
            resolve_depth_plane: a.resolve_depth_plane,
            load_action: a.load_action,
            store_action: a.store_action,
            store_action_options: a.store_action_options,
            resolve_filter: a.resolve_filter,
            clear: RenderAttachmentClear::Stencil(a.clear_stencil),
        },
    );
    statements
}

/// Resolves the attachments of an encoder's pass.
pub fn resolve_encoder_attachments(
    session: &ReplacementRuntimeSession,
    render: &ReplacementRenderEncoderState,
) -> (attachments: Result<Vec<ResolvedRenderAttachment>, ReplacementRenderPassResolutionError>)
    ensures
        match attachments {
            Ok(attachments) => pass_attachments(*session, render@) == Ok::<
                Seq<ResolvedRenderAttachment>,
                ReplacementRenderPassResolutionError,
            >(attachments@),
            Err(error) => pass_attachments(*session, render@) == Err::<
                Seq<ResolvedRenderAttachment>,
                ReplacementRenderPassResolutionError,
            >(error),
        },
{
    if render.depth_attachment.texture_ref != 0 && render.stencil_attachment.texture_ref != 0
        && render.depth_attachment.texture_ref != render.stencil_attachment.texture_ref {
        return Err(ReplacementRenderPassResolutionError::DepthStencilAttachmentMismatch);
    }
    let statements = make_statements(render);
    let mut resolved: Vec<ResolvedRenderAttachment> = Vec::new();
    let mut i: usize = 0;
    while i < statements.len()
        invariant
            i <= statements@.len(),
            statement_attachments(*session, statements@.take(i as int)) == Ok::<
                Seq<ResolvedRenderAttachment>,
                ReplacementRenderPassResolutionError,
            >(resolved@),
            statements@ == pass_statements(render@),
            pass_attachments(*session, render@) == statement_attachments(*session, statements@),
        decreases statements.len() - i,
    {
        let st = statements[i];
        assert(statements@.take(i as int + 1).drop_last() =~= statements@.take(i as int));
        if st.texture_ref != 0 {
            match resolve_statement(session, st) {
                Ok(attachment) => resolved.push(attachment),
                Err(error) => {
                    proof {
                        lemma_refusal_of_a_prefix(*session, statements@, i as int + 1);
                    }
                    return Err(error);
                },
            }
        }
        i += 1;
    }
    assert(statements@.take(i as int) =~= statements@);
    Ok(resolved)
}

/// Resolves the attachments of the open render encoder's pass.
pub fn resolve_render_pass_attachments(
    session: &ReplacementRuntimeSession,
    state: &ReplacementRecordProjectionState,
) -> (attachments: Result<Vec<ResolvedRenderAttachment>, ReplacementRenderPassResolutionError>)
    ensures
        match (attachments, state@.render) {
            (attachments, None) => attachments == Err::<
                Vec<ResolvedRenderAttachment>,
                ReplacementRenderPassResolutionError,
            >(ReplacementRenderPassResolutionError::OutsideEncoder),
            (Ok(attachments), Some(render)) => pass_attachments(*session, render) == Ok::<
                Seq<ResolvedRenderAttachment>,
                ReplacementRenderPassResolutionError,
            >(attachments@),
            (Err(error), Some(render)) => pass_attachments(*session, render) == Err::<
                Seq<ResolvedRenderAttachment>,
                ReplacementRenderPassResolutionError,
            >(error),
        },
{
    match state.render() {
        None => Err(ReplacementRenderPassResolutionError::OutsideEncoder),
        Some(render) => resolve_encoder_attachments(session, render),
    }
}

// What a resolved pass holds.

/// Whether a resolved attachment is the part of a texture that a pass states,
/// with the actions and the clear that it states.
pub open spec fn is_attachment(
    session: ReplacementRuntimeSession,
    a: ResolvedRenderAttachment,
    aspect: ImageAspect,
    part: (u32, u32, u32, u32),
    into: (u32, u32, u32, u32),
    load: u16,
    store: u16,
) -> bool {
    &&& answer_of(
        session.attachments@,
        AttachmentQuery {
            reference: part.0,
            level: part.1,
            slice: part.2,
            depth_plane: part.3,
            aspect,
        },
    ) == Some(AttachmentAnswer::Target(a.target))
    &&& into.0 == 0 ==> a.resolve is None
    &&& into.0 != 0 ==> {
        &&& a.resolve matches Some(resolve)
        &&& answer_of(
            session.attachments@,
            AttachmentQuery {
                reference: into.0,
                level: into.1,
                slice: into.2,
                depth_plane: into.3,
                aspect,
            },
        ) == Some(AttachmentAnswer::Target(resolve))
        &&& resolve.extent == a.target.extent
        &&& resolve.pixel_format == a.target.pixel_format
        &&& resolve.sample_count == 1
    }
    &&& load <= 2 && store <= 3
    &&& load == 0 <==> a.load is DontCare
    &&& load == 1 <==> a.load is Load
    &&& load == 2 <==> a.load is Clear
    &&& store == 0 <==> a.store is DontCare
    &&& store == 1 <==> a.store is Store
    &&& store == 2 <==> a.store is MultisampleResolve
    &&& store == 3 <==> a.store is StoreAndMultisampleResolve
    &&& !a.feedback_loop && !a.input_attachment
}

/// Whether an attachment is what a pass states of its own role.
pub open spec fn is_stated_attachment(
    session: ReplacementRuntimeSession,
    s: RenderEncoderView,
    a: ResolvedRenderAttachment,
) -> bool {
    match a.role {
        RenderAttachmentRole::Color(slot) => {
            let stated = s.color_attachments[slot as int];
            &&& slot < s.color_attachments.len()
            &&& stated.texture_ref != 0
            &&& stated.store_action_options == 0
            &&& is_attachment(
                session,
                a,
                ImageAspect::Color,
                (stated.texture_ref, stated.level, stated.slice, stated.depth_plane),
                (
                    stated.resolve_texture_ref,
                    stated.resolve_level,
                    stated.resolve_slice,
                    stated.resolve_depth_plane,
                ),
                stated.load_action,
                stated.store_action,
            )
            &&& a.clear == RenderAttachmentClear::Color(stated.clear_color)
        },
        RenderAttachmentRole::Depth => {
            let stated = s.depth_attachment;
            &&& stated.texture_ref != 0
            &&& stated.store_action_options == 0
            &&& stated.resolve_texture_ref != 0 ==> stated.resolve_filter == 0
            &&& is_attachment(
                session,
                a,
                ImageAspect::Depth,
                (stated.texture_ref, stated.level, stated.slice, stated.depth_plane),
                (
                    stated.resolve_texture_ref,
                    stated.resolve_level,
                    stated.resolve_slice,
                    stated.resolve_depth_plane,
                ),
                stated.load_action,
                stated.store_action,
            )
            &&& a.clear == RenderAttachmentClear::Depth(stated.clear_depth)
        },
        RenderAttachmentRole::Stencil => {
            let stated = s.stencil_attachment;
            &&& stated.texture_ref != 0
            &&& stated.store_action_options == 0
            &&& stated.resolve_texture_ref != 0 ==> stated.resolve_filter == 0
            &&& is_attachment(
                session,
                a,
                ImageAspect::Stencil,
                (stated.texture_ref, stated.level, stated.slice, stated.depth_plane),
                (
                    stated.resolve_texture_ref,
                    stated.resolve_level,
                    stated.resolve_slice,
                    stated.resolve_depth_plane,
                ),
                stated.load_action,
                stated.store_action,
            )
            &&& a.clear == RenderAttachmentClear::Stencil(stated.clear_stencil)
        },
    }
}

/// Whether a list holds an attachment of a role.
pub open spec fn holds_role(
    list: Seq<ResolvedRenderAttachment>,
    role: RenderAttachmentRole,
) -> bool {
    exists|k: int| 0 <= k < list.len() && (#[trigger] list[k]).role == role
}

proof fn lemma_statement_roles(
    session: ReplacementRuntimeSession,
    statements: Seq<AttachmentStatement>,
)
    ensures
        match statement_attachments(session, statements) {
            Ok(list) => {
                &&& list.len() <= statements.len()
                &&& forall|k: int|
                    0 <= k < list.len() ==> exists|i: int|
                        0 <= i < statements.len() && (#[trigger] statements[i]).texture_ref != 0
                            && statement_attachment(session, statements[i]) == Ok::<
                            ResolvedRenderAttachment,
                            ReplacementRenderPassResolutionError,
                        >(#[trigger] list[k])
                &&& forall|i: int|
                    0 <= i < statements.len() && (#[trigger] statements[i]).texture_ref != 0
                        ==> holds_role(list, statements[i].role)
            },
            Err(_) => true,
        },
    decreases statements.len(),
{
    if statements.len() > 0 {
        let earlier = statements.drop_last();
        lemma_statement_roles(session, earlier);
        if let Ok(list) = statement_attachments(session, statements) {
            let before = statement_attachments(session, earlier)->Ok_0;
            let last = statements.len() - 1;
            assert forall|k: int| 0 <= k < list.len() implies exists|i: int|
                0 <= i < statements.len() && (#[trigger] statements[i]).texture_ref != 0
                    && statement_attachment(session, statements[i]) == Ok::<
                    ResolvedRenderAttachment,
                    ReplacementRenderPassResolutionError,
                >(#[trigger] list[k]) by {
                if k < before.len() {
                    assert(list[k] == before[k]);
                    let i = choose|i: int|
                        0 <= i < earlier.len() && (#[trigger] earlier[i]).texture_ref != 0
                            && statement_attachment(session, earlier[i]) == Ok::<
                            ResolvedRenderAttachment,
                            ReplacementRenderPassResolutionError,
                        >(before[k]);
                    assert(statements[i] == earlier[i]);
                } else {
                    assert(statements[last].texture_ref != 0);
                }
            }
            assert forall|i: int|
                0 <= i < statements.len() && (
                #[trigger] statements[i]).texture_ref != 0 implies holds_role(
                list,
                statements[i].role,
            ) by {
                if i < last {
                    assert(earlier[i] == statements[i]);
                    let k = choose|k: int|
                        0 <= k < before.len() && (#[trigger] before[k]).role
                            == statements[i].role;
                    assert(list[k] == before[k]);
                } else {
                    assert(list[list.len() - 1].role == statements[i].role);
                }
            }
        }
    }
}

/// A pass draws into just what it states: each attachment is the stated part of
/// the stated texture, loaded, stored, cleared and resolved as stated, and
/// every role that the pass names a texture for has one.
#[verifier::spinoff_prover]
pub proof fn lemma_a_pass_draws_into_what_it_states(
    session: ReplacementRuntimeSession,
    s: RenderEncoderView,
)
    requires
        s.color_attachments.len() <= u32::MAX,
    ensures
        match pass_attachments(session, s) {
            Ok(list) => {
                &&& forall|k: int|
                    0 <= k < list.len() ==> is_stated_attachment(session, s, #[trigger] list[k])
                &&& forall|slot: u32|
                    slot < s.color_attachments.len() && (
                    #[trigger] s.color_attachments[slot as int]).texture_ref != 0 ==> holds_role(
                        list,
                        RenderAttachmentRole::Color(slot),
                    )
                &&& s.depth_attachment.texture_ref != 0 ==> holds_role(
                    list,
                    RenderAttachmentRole::Depth,
                )
                &&& s.stencil_attachment.texture_ref != 0 ==> holds_role(
                    list,
                    RenderAttachmentRole::Stencil,
                )
                &&& s.depth_attachment.texture_ref != 0 && s.stencil_attachment.texture_ref != 0
                    ==> s.depth_attachment.texture_ref == s.stencil_attachment.texture_ref
            },
            Err(ReplacementRenderPassResolutionError::DepthStencilAttachmentMismatch) =>
            s.depth_attachment.texture_ref != s.stencil_attachment.texture_ref,
            Err(_) => true,
        },
{
    let statements = pass_statements(s);
    let colors = s.color_attachments.len() as int;
    lemma_statement_roles(session, statements);
    lemma_statement_refusals(session, statements);
    if let Ok(list) = pass_attachments(session, s) {
        assert forall|k: int| 0 <= k < list.len() implies is_stated_attachment(
            session,
            s,
            #[trigger] list[k],
        ) by {
            let i = choose|i: int|
                0 <= i < statements.len() && (#[trigger] statements[i]).texture_ref != 0
                    && statement_attachment(session, statements[i]) == Ok::<
                    ResolvedRenderAttachment,
                    ReplacementRenderPassResolutionError,
                >(list[k]);
            if i < colors {
                assert(statements[i] == color_statement(i, s.color_attachments[i]));
            } else if i == colors {
                assert(statements[i] == depth_statement(s.depth_attachment));
            } else {
                assert(statements[i] == stencil_statement(s.stencil_attachment));
            }
        }
        assert forall|slot: u32|
            slot < s.color_attachments.len() && (
            #[trigger] s.color_attachments[slot as int]).texture_ref != 0 implies holds_role(
            list,
            RenderAttachmentRole::Color(slot),
        ) by {
            assert(statements[slot as int] == color_statement(
                slot as int,
                s.color_attachments[slot as int],
            ));
        }
        assert(statements[colors] == depth_statement(s.depth_attachment));
        assert(statements[colors + 1] == stencil_statement(s.stencil_attachment));
    }
}

proof fn lemma_statement_refusals(
    session: ReplacementRuntimeSession,
    statements: Seq<AttachmentStatement>,
)
    ensures
        statement_attachments(session, statements) != Err::<
            Seq<ResolvedRenderAttachment>,
            ReplacementRenderPassResolutionError,
        >(ReplacementRenderPassResolutionError::DepthStencilAttachmentMismatch),
    decreases statements.len(),
{
    if statements.len() > 0 {
        lemma_statement_refusals(session, statements.drop_last());
    }
}

/// A refused attachment names its own role, and the word or reason it is refused
/// for.
pub proof fn lemma_a_refused_attachment_names_its_fault(
    session: ReplacementRuntimeSession,
    st: AttachmentStatement,
)
    ensures
        match statement_attachment(session, st) {
            Err(
                ReplacementRenderPassResolutionError::StoreActionOptionsUnsupported { role, raw },
            ) => role == st.role && raw == st.store_action_options && raw != 0,
            Err(ReplacementRenderPassResolutionError::ResolveFilterUnsupported { role, raw }) =>
            role == st.role && raw == st.resolve_filter && raw != 0 && st.resolve_texture_ref
                != 0,
            Err(ReplacementRenderPassResolutionError::PassAction { role, kind, raw }) => {
                &&& role == st.role
                &&& kind is Load ==> raw == st.load_action && raw > 2
                &&& kind is Store ==> raw == st.store_action && raw > 3
            },
            Err(ReplacementRenderPassResolutionError::Attachment { role, reason }) => role
                == st.role,
            Err(ReplacementRenderPassResolutionError::ResolveMismatch(role)) => role == st.role
                && st.resolve_texture_ref != 0,
            Err(_) => false,
            Ok(a) => a.role == st.role && a.clear == st.clear,
        },
        st.store_action_options == 0 && (st.resolve_texture_ref != 0 ==> st.resolve_filter == 0)
            && st.load_action <= 2 && st.store_action <= 3 && answer_of(
            session.attachments@,
            AttachmentQuery {
                reference: st.texture_ref,
                level: st.level,
                slice: st.slice,
                depth_plane: st.depth_plane,
                aspect: st.role.aspect_of(),
            },
        ) is Some && answer_of(
            session.attachments@,
            AttachmentQuery {
                reference: st.texture_ref,
                level: st.level,
                slice: st.slice,
                depth_plane: st.depth_plane,
                aspect: st.role.aspect_of(),
            },
        )->0 is Target && st.resolve_texture_ref == 0 ==> statement_attachment(session, st) is Ok,
{
}

} // verus!
