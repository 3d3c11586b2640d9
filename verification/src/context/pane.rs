//! A pane: one terminal in a tab.

use crate::context::protocol::{FullFrame, SessionCommand, SessionError};
use crate::context::pump::PreparedSession;
use crate::context::remote::{handle_view, RemoteModel, RemoteView, WindowSize};
use crate::context::renderable::{Cursor, RenderableContent};
use crate::context::session::{rewrapped, HandleModel, SessionHandle};
use crate::context::title::{ContextTitle, TitleSource};
use crate::terminal::{same_selection, Pos, SelectionRange, TerminalDamage};
use vstd::prelude::*;

verus! {

/// Hands out the numbers of panes and tabs.
#[derive(Clone, Copy, Debug, PartialEq, Eq, Structural)]
pub struct IdSource {
    pub next_route: usize,
    pub next_rich_text: usize,
    pub next_tab: u64,
}

impl IdSource {
    pub fn new() -> (r: Self)
        ensures
            r == (IdSource { next_route: 1, next_rich_text: 0, next_tab: 1 }),
    {
        IdSource { next_route: 1, next_rich_text: 0, next_tab: 1 }
    }

    /// A number that no pane of this process has, until the numbers wrap
    /// around.
    pub fn next_route_id(&mut self) -> (r: usize)
        ensures
            r == old(self).next_route,
            *final(self) == (IdSource { next_route: after(r), ..*old(self) }),
    {
        let id: usize = self.next_route;
        self.next_route = id.wrapping_add(1);
        id
    }

    pub fn next_tab_id(&mut self) -> (r: u64)
        ensures
            r == old(self).next_tab,
            *final(self) == (IdSource { next_tab: r.wrapping_add(1), ..*old(self) }),
    {
        let id: u64 = self.next_tab;
        self.next_tab = id.wrapping_add(1);
        id
    }
}

/// The number behind another one.
pub open spec fn after(id: usize) -> usize {
    if id == usize::MAX {
        0
    } else {
        (id + 1) as usize
    }
}

/// A number for the text of a pane that no other has.
pub fn next_rich_text_id(ids: &mut IdSource) -> (r: usize)
    ensures
        r == old(ids).next_rich_text,
        *final(ids) == (IdSource { next_rich_text: after(r), ..*old(ids) }),
{
    let id: usize = ids.next_rich_text;
    ids.next_rich_text = id.wrapping_add(1);
    id
}

/// Numbers handed out one after the other differ.
pub proof fn law_next_ids_differ(id: usize)
    ensures
        after(id) != id,
        id < usize::MAX ==> after(id) > id,
{
}

/// The size of a pane in cells, and as its terminal is told.
#[derive(Clone, Copy, Debug, PartialEq, Eq, Structural)]
pub struct ContextDimension {
    pub columns: usize,
    pub lines: usize,
    pub size: WindowSize,
}

impl Default for ContextDimension {
    fn default() -> (r: Self)
        ensures
            r == no_dimension(),
    {
        ContextDimension {
            columns: 0,
            lines: 0,
            size: WindowSize { cols: 0, rows: 0, width: 0, height: 0 },
        }
    }
}

/// The size of a pane that has not been laid out.
pub open spec fn no_dimension() -> ContextDimension {
    ContextDimension {
        columns: 0,
        lines: 0,
        size: WindowSize { cols: 0, rows: 0, width: 0, height: 0 },
    }
}

/// Where a pane stands in its tab.
#[derive(Clone, Copy, Debug, PartialEq, Eq, Structural)]
pub struct LayoutRect {
    pub x: u32,
    pub y: u32,
    pub width: u32,
    pub height: u32,
}

/// The place of a pane that has not been laid out.
pub open spec fn no_rect() -> LayoutRect {
    LayoutRect { x: 0, y: 0, width: 0, height: 0 }
}

/// One terminal in a tab.
pub struct Context {
    pub route_id: usize,
    pub window_id: u64,
    /// Passive frame cache. The worker, not this cache, owns terminal state.
    pub terminal: RemoteView,
    /// A session that is prepared but not yet taken over. Dropping it leaves
    /// the session with its owner.
    pub pending_session: Option<PreparedSession>,
    pub renderable_content: RenderableContent,
    pub rich_text_id: usize,
    pub dimension: ContextDimension,
    pub layout_rect: LayoutRect,
    pub title: ContextTitle,
}

/// The cursor that a new pane takes over from another one.
pub open spec fn fresh_cursor(cursor: Cursor) -> Cursor {
    Cursor {
        pos: Pos { row: 0, col: 0 },
        shape: cursor.shape,
        content: cursor.content_ref,
        content_ref: cursor.content_ref,
        is_ime_enabled: false,
    }
}

impl Context {
    /// The terminal's cache is sound.
    pub open spec fn well_formed(&self) -> bool {
        self.terminal.well_formed()
    }

    /// Everything but the terminal and what the pane belongs to is as in
    /// another pane.
    pub open spec fn same_surface(&self, other: &Context) -> bool {
        &&& self.route_id == other.route_id
        &&& self.pending_session == other.pending_session
        &&& self.renderable_content == other.renderable_content
        &&& self.rich_text_id == other.rich_text_id
        &&& self.dimension == other.dimension
        &&& self.layout_rect == other.layout_rect
        &&& self.title == other.title
    }

    /// The pane belongs to another window.
    pub open spec fn is_rebound(&self, before: &Context, window_id: u64) -> bool {
        &&& self.same_surface(before)
        &&& self.window_id == window_id
        &&& self.terminal@ == (RemoteModel {
            window_id,
            session: match before.terminal@.session {
                Some(session) => Some(HandleModel { window_id, ..session }),
                None => None,
            },
            ..before.terminal@
        })
    }

    /// Reassigns the pane, and what its session publishes, to a window.
    pub fn rebind_window(&mut self, window_id: u64)
        requires
            old(self).well_formed(),
        ensures
            final(self).well_formed(),
            final(self).is_rebound(old(self), window_id),
    {
        self.window_id = window_id;
        self.terminal.window_id = window_id;
        let mut taken: Option<SessionHandle> = None;
        core::mem::swap(&mut taken, &mut self.terminal.session);
        if let Some(handle) = taken {
            let mut session: SessionHandle = handle;
            session.rebind_window(window_id);
            self.terminal.session = Some(session);
        }
        proof {
            assert(self.terminal@ =~= (RemoteModel {
                window_id,
                session: match old(self).terminal@.session {
                    Some(session) => Some(HandleModel { window_id, ..session }),
                    None => None,
                },
                ..old(self).terminal@
            }));
        }
    }

    /// The program in the foreground, which a passive view does not know.
    pub fn foreground_process_name(&self) -> (r: Option<String>)
        ensures
            r is None,
    {
        None
    }

    /// The directory that the terminal reported.
    pub fn foreground_process_path(&self) -> (r: Option<String>)
        ensures
            r == self.terminal.current_directory,
    {
        match &self.terminal.current_directory {
            Some(directory) => Some(directory.clone()),
            None => None,
        }
    }

    /// What the pane contributes to a title.
    pub open spec fn title_source(&self) -> TitleSource {
        TitleSource {
            columns: self.dimension.columns,
            lines: self.dimension.lines,
            title: self.terminal.title,
            program: None,
            directory: self.terminal.current_directory,
            process_path: self.terminal.current_directory,
        }
    }

    pub fn to_title_source(&self) -> (r: TitleSource)
        ensures
            r == self.title_source(),
    {
        TitleSource {
            columns: self.dimension.columns,
            lines: self.dimension.lines,
            title: self.terminal.title.clone(),
            program: self.foreground_process_name(),
            directory: self.foreground_process_path(),
            process_path: self.foreground_process_path(),
        }
    }

    /// Changes the selection; a change damages the whole terminal.
    pub fn set_selection(&mut self, selection_range: Option<SelectionRange>)
        ensures
            *final(self) == (Context {
                renderable_content: RenderableContent {
                    selection_range,
                    pending_update: if old(self).renderable_content.selection_range
                        != selection_range {
                        old(self).renderable_content.pending_update.with_damage(
                            TerminalDamage::Full,
                        )
                    } else {
                        old(self).renderable_content.pending_update
                    },
                    ..old(self).renderable_content
                },
                ..*old(self)
            }),
    {
        if !same_selection(&self.renderable_content.selection_range, &selection_range) {
            self.renderable_content.pending_update.set_terminal_damage(TerminalDamage::Full);
        }
        self.renderable_content.selection_range = selection_range;
    }

    /// The cursor for a new pane like this one.
    pub fn cursor_from_ref(&self) -> (r: Cursor)
        ensures
            r == fresh_cursor(self.renderable_content.cursor),
    {
        Cursor {
            pos: Pos::new(0, 0),
            shape: self.renderable_content.cursor.shape,
            content: self.renderable_content.cursor.content_ref,
            content_ref: self.renderable_content.cursor.content_ref,
            is_ime_enabled: false,
        }
    }

    /// What has to be committed before the pane can take its session over: the
    /// attachment, and the sequence number that the view was built from.
    pub fn pending_commit(&self) -> (r: Option<(u64, u64)>)
        requires
            self.pending_session is Some ==> self.terminal.frame is Some,
        ensures
            match (r, self.pending_session) {
                (Some((attachment, sequence)), Some(prepared)) => attachment
                    == prepared.attachment && sequence == self.terminal@.frame->0.sequence,
                (None, None) => true,
                _ => false,
            },
    {
        match &self.pending_session {
            Some(prepared) => Some((prepared.attachment, self.terminal.frame_sequence())),
            None => None,
        }
    }

    /// The pane waits for no session any more: it has the one that was committed,
    /// which was told the pane's size, or goes on as it was.
    pub open spec fn has_settled(
        &self,
        before: &Context,
        committed: Result<SessionHandle, SessionError>,
    ) -> bool {
        &&& self.pending_session is None
        &&& self.route_id == before.route_id
        &&& self.window_id == before.window_id
        &&& self.renderable_content == before.renderable_content
        &&& self.rich_text_id == before.rich_text_id
        &&& self.dimension == before.dimension
        &&& self.layout_rect == before.layout_rect
        &&& self.title == before.title
        &&& match (before.pending_session, committed) {
            (Some(_), Ok(session)) => self.terminal@ == (RemoteModel {
                session: Some(session@),
                ..before.terminal@
            }).issuing(
                SessionCommand::Resize {
                    columns: before.dimension.size.cols,
                    lines: before.dimension.size.rows,
                    pixel_width: before.dimension.size.width,
                    pixel_height: before.dimension.size.height,
                },
            ),
            _ => self.terminal == before.terminal,
        }
    }

    /// Takes a prepared session over, given what came of committing it. The
    /// worker is told the size, which layout may have changed meanwhile.
    /// Without a prepared session there is nothing to do.
    pub fn commit_pending_session(&mut self, committed: Result<SessionHandle, SessionError>) -> (r:
        Result<(), SessionError>)
        requires
            old(self).well_formed(),
            committed matches Ok(session) ==> session@.well_formed(),
        ensures
            final(self).well_formed(),
            final(self).has_settled(old(self), committed),
            match (old(self).pending_session, committed) {
                (Some(_), Err(error)) => r == Err::<(), SessionError>(error),
                _ => r is Ok,
            },
    {
        let prepared: Option<PreparedSession> = self.pending_session.take();
        if prepared.is_none() {
            return Ok(());
        }
        match committed {
            Ok(session) => {
                self.terminal.install_session(session);
                self.terminal.resize_to(self.dimension.size);
                Ok(())
            },
            Err(error) => Err(error),
        }
    }

    /// Lets go of the session, which goes on elsewhere: where no one else holds
    /// it, its pump is woken and ends without closing it.
    pub fn disarm_for_transfer(&mut self) -> (r: Option<SessionHandle>)
        requires
            old(self).well_formed(),
        ensures
            final(self).well_formed(),
            *final(self) == old(self).disarmed(),
            handle_view(r) == match old(self).terminal@.session {
                Some(session) => Some(session.abandoned()),
                None => None,
            },
            r matches Some(session) ==> session@.well_formed(),
    {
        let mut taken: Option<SessionHandle> = None;
        core::mem::swap(&mut taken, &mut self.terminal.session);
        match taken {
            Some(handle) => {
                let mut session: SessionHandle = handle;
                session.abandon();
                Some(session)
            },
            None => None,
        }
    }

    /// The pane without its session.
    pub open spec fn disarmed(self) -> Context {
        Context { terminal: RemoteView { session: None, ..self.terminal }, ..self }
    }

    /// Closes the session, which the pane gives up.
    pub fn retire(&mut self) -> (r: Option<SessionHandle>)
        requires
            old(self).well_formed(),
        ensures
            final(self).well_formed(),
            *final(self) == old(self).disarmed(),
            handle_view(r) == match old(self).terminal@.session {
                Some(session) => Some(session.closing()),
                None => None,
            },
            r matches Some(session) ==> session@.well_formed(),
    {
        let mut taken: Option<SessionHandle> = None;
        core::mem::swap(&mut taken, &mut self.terminal.session);
        match taken {
            Some(handle) => {
                let mut session: SessionHandle = handle;
                session.close();
                Some(session)
            },
            None => None,
        }
    }

    /// The pane with the damage of its whole terminal.
    pub open spec fn damaged(self) -> Context {
        Context {
            renderable_content: RenderableContent {
                pending_update: self.renderable_content.pending_update.with_damage(
                    TerminalDamage::Full,
                ),
                ..self.renderable_content
            },
            ..self
        }
    }

    pub fn mark_full_damage(&mut self)
        ensures
            *final(self) == old(self).damaged(),
    {
        self.renderable_content.pending_update.set_terminal_damage(TerminalDamage::Full);
    }
}

/// At least one.
pub open spec fn at_least_one(n: usize) -> nat {
    if n == 0 {
        1
    } else {
        n as nat
    }
}

/// A new pane: nothing is prepared for it, nothing drawn, and its title is the
/// usual one.
pub open spec fn is_new_pane(
    context: &Context,
    window_id: u64,
    route_id: usize,
    rich_text_id: usize,
    dimension: ContextDimension,
    cursor: Cursor,
) -> bool {
    &&& context.well_formed()
    &&& context.route_id == route_id
    &&& context.window_id == window_id
    &&& context.rich_text_id == rich_text_id
    &&& context.dimension == dimension
    &&& context.layout_rect == no_rect()
    &&& context.renderable_content.is_new(cursor)
    &&& context.title.content@ == "~"@
    &&& context.title.extra is None
}

/// A pane without a session.
pub fn create_dead_context(
    window_id: u64,
    route_id: usize,
    rich_text_id: usize,
    dimension: ContextDimension,
) -> (r: Context)
    requires
        dimension.lines <= i32::MAX,
    ensures
        is_new_pane(
            &r,
            window_id,
            route_id,
            rich_text_id,
            dimension,
            crate::context::renderable::plain_cursor(),
        ),
        r.pending_session is None,
        r.terminal@ == RemoteModel::fresh(
            None,
            window_id,
            at_least_one(dimension.columns),
            at_least_one(dimension.lines),
        ),
{
    Context {
        route_id,
        window_id,
        terminal: RemoteView::new(
            None,
            window_id,
            not_zero(dimension.columns),
            not_zero(dimension.lines),
        ),
        pending_session: None,
        renderable_content: RenderableContent::new(Cursor::default()),
        rich_text_id,
        dimension,
        layout_rect: LayoutRect { x: 0, y: 0, width: 0, height: 0 },
        title: ContextTitle::default(),
    }
}

fn not_zero(n: usize) -> (r: usize)
    ensures
        r == at_least_one(n),
{
    if n == 0 {
        1
    } else {
        n
    }
}

/// A pane that shows why its session could not be started.
pub fn create_error_context(
    window_id: u64,
    route_id: usize,
    rich_text_id: usize,
    dimension: ContextDimension,
    error: String,
) -> (r: Context)
    requires
        dimension.lines <= i32::MAX,
    ensures
        is_new_pane(
            &r,
            window_id,
            route_id,
            rich_text_id,
            dimension,
            crate::context::renderable::plain_cursor(),
        ),
        r.pending_session is None,
        r.terminal@ == RemoteModel::fresh(
            Some(HandleModel::disconnected(rewrapped(error@))),
            window_id,
            at_least_one(dimension.columns),
            at_least_one(dimension.lines),
        ),
{
    let session: SessionHandle = SessionHandle::disconnected_with_error(
        SessionError::Invalid(error),
    );
    Context {
        route_id,
        window_id,
        terminal: RemoteView::new(
            Some(session),
            window_id,
            not_zero(dimension.columns),
            not_zero(dimension.lines),
        ),
        pending_session: None,
        renderable_content: RenderableContent::new(Cursor::default()),
        rich_text_id,
        dimension,
        layout_rect: LayoutRect { x: 0, y: 0, width: 0, height: 0 },
        title: ContextTitle::default(),
    }
}

/// A view built from a frame.
pub open spec fn is_view_of(view: &RemoteView, frame: &FullFrame, window_id: u64) -> bool {
    let fresh = RemoteModel::fresh(None, window_id, frame.columns as nat, frame.lines as nat);
    match fresh.with_frame(frame@) {
        Ok(shown) => view@ == shown,
        Err(error) => view@ == (RemoteModel { decode_error: Some(error.words()), ..fresh }),
    }
}

/// A pane that shows a frame and waits for its session.
pub fn create_prepared_context_with_frame(
    prepared: PreparedSession,
    frame: FullFrame,
    window_id: u64,
    route_id: usize,
    rich_text_id: usize,
    dimension: ContextDimension,
) -> (r: Context)
    requires
        frame.fits(),
    ensures
        is_new_pane(
            &r,
            window_id,
            route_id,
            rich_text_id,
            dimension,
            crate::context::renderable::plain_cursor(),
        ),
        r.pending_session == Some(prepared),
        is_view_of(&r.terminal, &frame, window_id),
{
    Context {
        route_id,
        window_id,
        terminal: RemoteView::from_frame(frame, window_id),
        pending_session: Some(prepared),
        renderable_content: RenderableContent::new(Cursor::default()),
        rich_text_id,
        dimension,
        layout_rect: LayoutRect { x: 0, y: 0, width: 0, height: 0 },
        title: ContextTitle::default(),
    }
}

/// A pane that shows the frame of a prepared session, which gives it up.
pub fn create_prepared_context(
    prepared: PreparedSession,
    window_id: u64,
    route_id: usize,
    rich_text_id: usize,
    dimension: ContextDimension,
) -> (r: Context)
    requires
        prepared.initial_frame matches Some(frame) && frame.fits(),
    ensures
        is_new_pane(
            &r,
            window_id,
            route_id,
            rich_text_id,
            dimension,
            crate::context::renderable::plain_cursor(),
        ),
        r.pending_session == Some(PreparedSession { initial_frame: None, ..prepared }),
        is_view_of(&r.terminal, &prepared.initial_frame->0, window_id),
{
    let mut prepared: PreparedSession = prepared;
    let frame: FullFrame = prepared.take_initial_frame();
    create_prepared_context_with_frame(
        prepared,
        frame,
        window_id,
        route_id,
        rich_text_id,
        dimension,
    )
}

/// A pane that shows the frame of a prepared session, which keeps it.
pub fn create_prepared_context_for_transfer(
    prepared: PreparedSession,
    window_id: u64,
    route_id: usize,
    rich_text_id: usize,
    dimension: ContextDimension,
) -> (r: Context)
    requires
        prepared.initial_frame matches Some(frame) && frame.fits(),
    ensures
        is_new_pane(
            &r,
            window_id,
            route_id,
            rich_text_id,
            dimension,
            crate::context::renderable::plain_cursor(),
        ),
        r.pending_session == Some(prepared),
        is_view_of(&r.terminal, &prepared.initial_frame->0, window_id),
{
    let frame: FullFrame = prepared.initial_frame().duplicate();
    create_prepared_context_with_frame(
        prepared,
        frame,
        window_id,
        route_id,
        rich_text_id,
        dimension,
    )
}

} // verus!
