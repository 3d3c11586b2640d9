//! What the front end asks of a terminal through its passive view.

use crate::context::passive::Hyperlink;
use crate::context::protocol::{
    FullFrame, GraphicsFrame, SearchDirection, SearchMatch, SearchNavigation, SelectionKind,
    SelectionReply, SessionCommand, Side, ViMotion,
};
use crate::context::remote::{
    cell_of, code_of_shape, RemoteModel, RemoteView, ShownCursor, WindowSize,
};
use crate::context::renderable::{Cursor, RenderableContent};
use crate::context::session::{message_view, HandleModel, SessionHandle, StateModel};
use crate::terminal::{
    copy_slice, ClipboardType, CursorShape, Pos, SelectionRange, TerminalDamage,
};
use vstd::prelude::*;

verus! {

/// How far to scroll.
#[derive(Clone, Copy, Debug, PartialEq, Eq, Structural)]
pub enum Scroll {
    Delta(i32),
    PageUp,
    PageDown,
    Top,
    Bottom,
}

/// The kinds of selection, as the front end names them.
#[derive(Clone, Copy, Debug, PartialEq, Eq, Structural)]
pub enum SelectionType {
    Simple,
    Block,
    Semantic,
    Lines,
}

/// The command for a scroll of a view with so many lines.
pub open spec fn scroll_command(scroll: Scroll, lines: int) -> SessionCommand {
    match scroll {
        Scroll::Delta(delta_lines) => SessionCommand::Scroll { delta_lines },
        Scroll::PageUp => SessionCommand::Scroll { delta_lines: lines as i32 },
        Scroll::PageDown => SessionCommand::Scroll { delta_lines: (-lines) as i32 },
        Scroll::Top => SessionCommand::ScrollTop,
        Scroll::Bottom => SessionCommand::ScrollBottom,
    }
}

/// The worker's name for a kind of selection.
pub open spec fn kind_of(ty: SelectionType) -> SelectionKind {
    match ty {
        SelectionType::Simple => SelectionKind::Simple,
        SelectionType::Block => SelectionKind::Block,
        SelectionType::Semantic => SelectionKind::Word,
        SelectionType::Lines => SelectionKind::Line,
    }
}

/// A match of a search in terminal coordinates: lines above the screen are
/// negative.
pub open spec fn match_range(found: SearchMatch, history: int) -> (Pos, Pos) {
    (
        Pos { row: (found.start_line - history) as i32, col: found.start_column as usize },
        Pos { row: (found.end_line - history) as i32, col: found.end_column as usize },
    )
}

/// Some matches in terminal coordinates.
pub open spec fn match_ranges(found: Seq<SearchMatch>, history: int) -> Seq<(Pos, Pos)> {
    found.map_values(|m: SearchMatch| match_range(m, history))
}

impl RemoteModel {
    /// The selected text asked for: where that is refused, the reason is
    /// noted.
    pub open spec fn asking_selection(self, target: ClipboardType, copy_to_clipboard: bool) -> RemoteModel {
        match self.session {
            None => self,
            Some(session) => RemoteModel {
                session: Some(session.asked(target, copy_to_clipboard)),
                ..self
            },
        }
    }

    /// The view without search results.
    pub open spec fn without_matches(self) -> RemoteModel {
        RemoteModel { search_matches: None, ..self }
    }

    /// The error that the view shows: one of its own before the session's.
    pub open spec fn shown_error(self) -> Option<Seq<char>> {
        match self.decode_error {
            Some(words) => Some(words),
            None => match self.session {
                Some(session) => session.state.status.error,
                None => None,
            },
        }
    }
}

impl RemoteView {
    fn enqueue(&mut self, command: SessionCommand)
        requires
            old(self).well_formed(),
            !(command is Close) && !(command is SelectionText),
        ensures
            final(self).well_formed(),
            final(self)@ == old(self)@.issuing(command),
    {
        let mut taken: Option<SessionHandle> = None;
        core::mem::swap(&mut taken, &mut self.session);
        if let Some(handle) = taken {
            let mut session: SessionHandle = handle;
            session.issue(command);
            self.session = Some(session);
        }
        proof {
            assert(self@ =~= old(self)@.issuing(command));
        }
    }

    /// A view of a frame that was prepared before there was a session.
    pub fn from_frame(frame: FullFrame, window_id: u64) -> (r: Self)
        requires
            frame.fits(),
        ensures
            r.well_formed(),
            r@.session is None,
            r@.window_id == window_id,
            ({
                let fresh = RemoteModel::fresh(
                    None,
                    window_id,
                    frame.columns as nat,
                    frame.lines as nat,
                );
                match fresh.with_frame(frame@) {
                    Ok(view) => r@ == view,
                    Err(error) => r@ == (RemoteModel { decode_error: Some(error.words()), ..fresh }),
                }
            }),
    {
        let mut view: RemoteView = RemoteView::new(
            None,
            window_id,
            frame.columns as usize,
            frame.lines as usize,
        );
        let ghost fresh = view@;
        if let Err(error) = view.apply_frame(frame) {
            view.decode_error = Some(error.message());
            proof {
                assert(view@ =~= (RemoteModel { decode_error: Some(error.words()), ..fresh }));
            }
        }
        view
    }

    pub fn install_session(&mut self, session: SessionHandle)
        requires
            old(self).well_formed(),
            session@.well_formed(),
        ensures
            final(self).well_formed(),
            final(self)@ == (RemoteModel { session: Some(session@), ..old(self)@ }),
            final(self).session == Some(session),
    {
        self.session = Some(session);
    }

    pub fn detach_session(&mut self)
        requires
            old(self).well_formed(),
        ensures
            final(self).well_formed(),
            final(self)@ == (RemoteModel { session: None, ..old(self)@ }),
    {
        self.session = None;
    }

    /// The sequence number of the cached frame.
    pub fn frame_sequence(&self) -> (r: u64)
        requires
            self.frame is Some,
        ensures
            r == self@.frame->0.sequence,
    {
        match &self.frame {
            Some(frame) => frame.sequence,
            None => 0,
        }
    }

    /// Hands the graphics to the renderer, which puts them back behind it.
    pub fn take_render_graphics(&mut self) -> (r: GraphicsFrame)
        requires
            old(self).well_formed(),
        ensures
            final(self).well_formed(),
            match old(self)@.frame {
                Some(frame) => r.data@ == frame.graphics && final(self)@ == (RemoteModel {
                    frame: Some(
                        crate::context::protocol::FrameModel { graphics: Seq::empty(), ..frame },
                    ),
                    ..old(self)@
                }),
                None => r.data@ == Seq::<u8>::empty() && final(self)@ == old(self)@,
            },
    {
        let mut taken: Option<FullFrame> = None;
        core::mem::swap(&mut taken, &mut self.frame);
        let mut graphics: GraphicsFrame = GraphicsFrame::empty();
        if let Some(current) = taken {
            let mut frame: FullFrame = current;
            core::mem::swap(&mut graphics, &mut frame.graphics);
            self.frame = Some(frame);
        }
        graphics
    }

    pub fn restore_render_graphics(&mut self, graphics: GraphicsFrame)
        requires
            old(self).well_formed(),
        ensures
            final(self).well_formed(),
            match old(self)@.frame {
                Some(frame) => final(self)@ == (RemoteModel {
                    frame: Some(
                        crate::context::protocol::FrameModel { graphics: graphics.data@, ..frame },
                    ),
                    ..old(self)@
                }),
                None => final(self)@ == old(self)@,
            },
    {
        let mut taken: Option<FullFrame> = None;
        core::mem::swap(&mut taken, &mut self.frame);
        if let Some(current) = taken {
            let mut frame: FullFrame = current;
            frame.graphics = graphics;
            self.frame = Some(frame);
        }
    }

    pub fn graphics_dirty(&self) -> (r: bool)
        ensures
            r == self@.graphics_dirty,
    {
        self.graphics_dirty
    }

    pub fn mark_graphics_clean(&mut self)
        requires
            old(self).well_formed(),
        ensures
            final(self).well_formed(),
            final(self)@ == (RemoteModel { graphics_dirty: false, ..old(self)@ }),
    {
        self.graphics_dirty = false;
    }

    /// Why the last published frame could not be shown.
    pub fn decoder_error(&self) -> (r: Option<&str>)
        ensures
            match (r, self@.decode_error) {
                (Some(text), Some(words)) => text@ == words,
                (None, None) => true,
                _ => false,
            },
    {
        match &self.decode_error {
            Some(error) => Some(error.as_str()),
            None => None,
        }
    }

    /// Takes over what was published, and hands it to the renderer. The damage
    /// is handed over once.
    pub fn refresh_renderable(&mut self, content: &mut RenderableContent)
        requires
            old(self).well_formed(),
        ensures
            final(self).well_formed(),
            final(self)@ == (RemoteModel {
                damage: TerminalDamage::Noop,
                ..old(self)@.refreshed()
            }),
            final(content).term_colors@ == old(self)@.refreshed().colors,
            final(content).display_offset == old(self)@.refreshed().grid.display_offset,
            final(content).columns == old(self)@.refreshed().grid.columns,
            final(content).screen_lines == old(self)@.refreshed().grid.lines,
            final(content).history_size == old(self)@.refreshed().grid.history,
            final(content).blinking_cursor == old(self)@.refreshed().blinking_cursor,
            final(content).cursor == (Cursor {
                pos: old(self)@.refreshed().grid.cursor,
                shape: old(self)@.refreshed().cursor_shape,
                ..old(content).cursor
            }),
            final(content).selection_range == old(self)@.refreshed().selection_range,
            message_view(final(content).session_error) == old(self)@.refreshed().shown_error(),
            final(content).frame_damage == old(content).frame_damage.merged(
                old(self)@.refreshed().damage,
            ),
            final(content).pending_update == old(content).pending_update,
            final(content).background == old(content).background,
            final(content).highlighted_hint == old(content).highlighted_hint,
            final(content).last_typing == old(content).last_typing,
            final(content).has_blinking_enabled == old(content).has_blinking_enabled,
            final(content).is_blinking_cursor_visible == old(content).is_blinking_cursor_visible,
            final(content).last_blink_toggle == old(content).last_blink_toggle,
    {
        self.refresh();
        let ghost refreshed = self@;
        content.term_colors = copy_slice(self.colors.as_slice());
        content.display_offset = self.grid.display_offset;
        content.columns = self.grid.columns;
        content.screen_lines = self.grid.lines;
        content.history_size = self.grid.history;
        content.blinking_cursor = self.blinking_cursor;
        content.cursor.pos = self.grid.cursor.pos;
        content.cursor.shape = self.cursor_shape;
        content.selection_range = self.selection_range;
        let error: Option<String> = match &self.decode_error {
            Some(error) => Some(error.clone()),
            None => match &self.session {
                Some(session) => session.error(),
                None => None,
            },
        };
        content.session_error = error;
        let damage: TerminalDamage = self.pending_frame_damage;
        self.pending_frame_damage = TerminalDamage::Noop;
        content.frame_damage = content.frame_damage.merge(damage);
        proof {
            assert(self@ =~= (RemoteModel { damage: TerminalDamage::Noop, ..refreshed }));
        }
    }

    pub fn session(&self) -> (r: Option<&SessionHandle>)
        ensures
            match (r, self.session) {
                (Some(session), Some(held)) => *session == held,
                (None, None) => true,
                _ => false,
            },
    {
        match &self.session {
            Some(session) => Some(session),
            None => None,
        }
    }

    pub fn mode(&self) -> (r: u32)
        ensures
            r == self@.mode_bits,
    {
        self.mode_bits
    }

    pub fn display_offset(&self) -> (r: usize)
        ensures
            r == self@.grid.display_offset,
    {
        self.grid.display_offset
    }

    pub fn history_size(&self) -> (r: usize)
        ensures
            r == self@.grid.history,
    {
        self.grid.history
    }

    pub fn columns(&self) -> (r: usize)
        ensures
            r == self@.grid.columns,
    {
        self.grid.columns
    }

    pub fn screen_lines(&self) -> (r: usize)
        ensures
            r == self@.grid.lines,
    {
        self.grid.lines
    }

    pub fn total_lines(&self) -> (r: usize)
        requires
            self.well_formed(),
        ensures
            r == self@.grid.lines + self@.grid.history,
    {
        self.grid.total_lines()
    }

    pub fn bottommost_line(&self) -> (r: i32)
        requires
            self.well_formed(),
        ensures
            r == self@.grid.lines - 1,
    {
        self.grid.bottommost_line()
    }

    pub fn topmost_line(&self) -> (r: i32)
        requires
            self.well_formed(),
        ensures
            r == -self@.grid.history,
    {
        self.grid.topmost_line()
    }

    pub fn last_column(&self) -> (r: usize)
        requires
            self.well_formed(),
        ensures
            r == self@.grid.columns - 1,
    {
        self.grid.last_column()
    }

    pub fn cursor(&self) -> (r: ShownCursor)
        ensures
            r == (ShownCursor { pos: self@.grid.cursor, shape: self@.cursor_shape }),
    {
        ShownCursor { pos: self.grid.cursor.pos, shape: self.cursor_shape }
    }

    pub fn vi_cursor_position(&self) -> (r: Pos)
        ensures
            r == self@.vi_cursor,
    {
        self.vi_mode_cursor.pos
    }

    pub fn resize_to(&mut self, size: WindowSize)
        requires
            old(self).well_formed(),
        ensures
            final(self).well_formed(),
            final(self)@ == old(self)@.issuing(
                SessionCommand::Resize {
                    columns: size.cols,
                    lines: size.rows,
                    pixel_width: size.width,
                    pixel_height: size.height,
                },
            ),
    {
        self.enqueue(
            SessionCommand::Resize {
                columns: size.cols,
                lines: size.rows,
                pixel_width: size.width,
                pixel_height: size.height,
            },
        );
    }

    pub fn set_cursor_style(&mut self, shape: CursorShape, blinking: bool)
        requires
            old(self).well_formed(),
        ensures
            final(self).well_formed(),
            final(self)@ == old(self)@.issuing(
                SessionCommand::SetCursorStyle { shape: code_of_shape(shape), blinking },
            ),
    {
        let code: u8 = match shape {
            CursorShape::Block => 0,
            CursorShape::Underline => 1,
            CursorShape::Beam => 2,
            CursorShape::Hidden => 3,
        };
        self.enqueue(SessionCommand::SetCursorStyle { shape: code, blinking });
    }

    pub fn scroll_display(&mut self, scroll: Scroll)
        requires
            old(self).well_formed(),
        ensures
            final(self).well_formed(),
            final(self)@ == old(self)@.issuing(scroll_command(scroll, old(self)@.grid.lines)),
    {
        let lines: i32 = self.grid.lines as i32;
        let command: SessionCommand = match scroll {
            Scroll::Delta(delta_lines) => SessionCommand::Scroll { delta_lines },
            Scroll::PageUp => SessionCommand::Scroll { delta_lines: lines },
            Scroll::PageDown => SessionCommand::Scroll { delta_lines: -lines },
            Scroll::Top => SessionCommand::ScrollTop,
            Scroll::Bottom => SessionCommand::ScrollBottom,
        };
        self.enqueue(command);
    }

    /// Pastes a text: raw as it is, or as a paste that the terminal brackets.
    pub fn paste(&mut self, text: String, bracketed: bool)
        requires
            old(self).well_formed(),
        ensures
            final(self).well_formed(),
            bracketed ==> final(self)@ == old(self)@.issuing(SessionCommand::Paste(text)),
            !bracketed ==> exists|data: Vec<u8>|
                data@ == vstd::utf8::encode_utf8(text@) && final(self)@ == #[trigger] old(
                    self,
                )@.issuing(SessionCommand::Write(data)),
    {
        if bracketed {
            self.enqueue(SessionCommand::Paste(text));
        } else {
            let data: Vec<u8> = copy_slice(text.as_str().as_bytes());
            self.enqueue(SessionCommand::Write(data));
            proof {
                assert(self@ == old(self)@.issuing(SessionCommand::Write(data)));
            }
        }
    }

    pub fn focus(&mut self, focused: bool)
        requires
            old(self).well_formed(),
        ensures
            final(self).well_formed(),
            final(self)@ == old(self)@.issuing(SessionCommand::Focus { focused }),
    {
        self.enqueue(SessionCommand::Focus { focused });
    }

    /// Turns the wheel over a cell; a cell off the screen is ignored.
    pub fn mouse_wheel(&mut self, lines: i32, point: Pos, modifiers: u8)
        requires
            old(self).well_formed(),
        ensures
            final(self).well_formed(),
            final(self)@ == match cell_of(point) {
                Some((column, line)) => old(self)@.issuing(
                    SessionCommand::MouseWheel { lines, column, line, modifiers },
                ),
                None => old(self)@,
            },
    {
        if let Some((column, line)) = wire_cell(point) {
            self.enqueue(SessionCommand::MouseWheel { lines, column, line, modifiers });
        }
    }

    pub fn mouse_button(&mut self, point: Pos, button: u8, pressed: bool, modifiers: u8)
        requires
            old(self).well_formed(),
        ensures
            final(self).well_formed(),
            final(self)@ == match cell_of(point) {
                Some((column, line)) => old(self)@.issuing(
                    SessionCommand::MouseButton { column, line, button, pressed, modifiers },
                ),
                None => old(self)@,
            },
    {
        if let Some((column, line)) = wire_cell(point) {
            self.enqueue(SessionCommand::MouseButton { column, line, button, pressed, modifiers });
        }
    }

    pub fn mouse_motion(&mut self, point: Pos, button: u8, modifiers: u8)
        requires
            old(self).well_formed(),
        ensures
            final(self).well_formed(),
            final(self)@ == match cell_of(point) {
                Some((column, line)) => old(self)@.issuing(
                    SessionCommand::MouseMotion { column, line, button, modifiers },
                ),
                None => old(self)@,
            },
    {
        if let Some((column, line)) = wire_cell(point) {
            self.enqueue(SessionCommand::MouseMotion { column, line, button, modifiers });
        }
    }

    pub fn selection_begin(&mut self, ty: SelectionType, point: Pos, side: Side)
        requires
            old(self).well_formed(),
        ensures
            final(self).well_formed(),
            final(self)@ == old(self)@.issuing(
                SessionCommand::SelectionBegin {
                    line: point.row,
                    column: point.col,
                    kind: kind_of(ty),
                    side,
                },
            ),
    {
        let kind: SelectionKind = match ty {
            SelectionType::Simple => SelectionKind::Simple,
            SelectionType::Block => SelectionKind::Block,
            SelectionType::Semantic => SelectionKind::Word,
            SelectionType::Lines => SelectionKind::Line,
        };
        self.enqueue(
            SessionCommand::SelectionBegin { line: point.row, column: point.col, kind, side },
        );
    }

    pub fn selection_update(&mut self, point: Pos, side: Side)
        requires
            old(self).well_formed(),
        ensures
            final(self).well_formed(),
            final(self)@ == old(self)@.issuing(
                SessionCommand::SelectionUpdate { line: point.row, column: point.col, side },
            ),
    {
        self.enqueue(SessionCommand::SelectionUpdate { line: point.row, column: point.col, side });
    }

    pub fn selection_autoscroll(&mut self, delta_lines: i32, point: Pos, side: Side)
        requires
            old(self).well_formed(),
        ensures
            final(self).well_formed(),
            final(self)@ == old(self)@.issuing(
                SessionCommand::SelectionAutoScroll {
                    delta_lines,
                    line: point.row,
                    column: point.col,
                    side,
                },
            ),
    {
        self.enqueue(
            SessionCommand::SelectionAutoScroll {
                delta_lines,
                line: point.row,
                column: point.col,
                side,
            },
        );
    }

    pub fn select_all(&mut self)
        requires
            old(self).well_formed(),
        ensures
            final(self).well_formed(),
            final(self)@ == old(self)@.issuing(SessionCommand::SelectAll),
    {
        self.enqueue(SessionCommand::SelectAll);
    }

    pub fn clear_selection(&mut self)
        requires
            old(self).well_formed(),
        ensures
            final(self).well_formed(),
            final(self)@ == old(self)@.issuing(SessionCommand::SelectionClear),
    {
        self.enqueue(SessionCommand::SelectionClear);
    }

    pub fn vi_scroll(&mut self, delta_lines: i32)
        requires
            old(self).well_formed(),
        ensures
            final(self).well_formed(),
            final(self)@ == old(self)@.issuing(SessionCommand::ViScroll { delta_lines }),
    {
        self.enqueue(SessionCommand::ViScroll { delta_lines });
    }

    pub fn vi_motion(&mut self, motion: ViMotion)
        requires
            old(self).well_formed(),
        ensures
            final(self).well_formed(),
            final(self)@ == old(self)@.issuing(SessionCommand::ViMotion(motion)),
    {
        self.enqueue(SessionCommand::ViMotion(motion));
    }

    pub fn vi_goto_pos(&mut self, pos: Pos)
        requires
            old(self).well_formed(),
        ensures
            final(self).well_formed(),
            final(self)@ == old(self)@.issuing(
                SessionCommand::ViGoto { line: pos.row, column: pos.col as u16 },
            ),
    {
        let column: u16 = #[verifier::truncate]
        (pos.col as u16);
        self.enqueue(SessionCommand::ViGoto { line: pos.row, column });
    }

    pub fn scroll_to_pos(&mut self, pos: Pos)
        requires
            old(self).well_formed(),
        ensures
            final(self).well_formed(),
            final(self)@ == old(self)@.issuing(
                SessionCommand::ViGoto { line: pos.row, column: pos.col as u16 },
            ),
    {
        self.vi_goto_pos(pos);
    }

    pub fn scroll_to_prompt(&mut self, forward: bool)
        requires
            old(self).well_formed(),
        ensures
            final(self).well_formed(),
            final(self)@ == old(self)@.issuing(SessionCommand::ScrollToPrompt { forward }),
    {
        self.enqueue(SessionCommand::ScrollToPrompt { forward });
    }

    pub fn clear_saved_history(&mut self)
        requires
            old(self).well_formed(),
        ensures
            final(self).well_formed(),
            final(self)@ == old(self)@.issuing(SessionCommand::ClearSavedHistory),
    {
        self.enqueue(SessionCommand::ClearSavedHistory);
    }

    pub fn set_vi_mode(&mut self, enabled: bool)
        requires
            old(self).well_formed(),
        ensures
            final(self).well_formed(),
            final(self)@ == old(self)@.issuing(SessionCommand::SetViMode(enabled)),
    {
        self.enqueue(SessionCommand::SetViMode(enabled));
    }

    pub fn request_selection_text(&mut self, target: ClipboardType)
        requires
            old(self).well_formed(),
        ensures
            final(self).well_formed(),
            final(self)@ == old(self)@.asking_selection(target, false),
    {
        self.request_selection_text_with_copy(target, false);
    }

    /// Asks for the selected text, which arrives later for the given clipboard.
    pub fn request_selection_text_with_copy(&mut self, target: ClipboardType, copy_to_clipboard: bool)
        requires
            old(self).well_formed(),
        ensures
            final(self).well_formed(),
            final(self)@ == old(self)@.asking_selection(target, copy_to_clipboard),
    {
        let mut taken: Option<SessionHandle> = None;
        core::mem::swap(&mut taken, &mut self.session);
        if let Some(handle) = taken {
            let mut session: SessionHandle = handle;
            session.ask_selection(target, copy_to_clipboard);
            self.session = Some(session);
        }
        proof {
            assert(self@ =~= old(self)@.asking_selection(target, copy_to_clipboard));
        }
    }

    /// Takes the oldest selected text that has arrived.
    pub fn take_selection_text(&mut self) -> (r: Option<SelectionReply>)
        requires
            old(self).well_formed(),
        ensures
            final(self).well_formed(),
            match old(self)@.session {
                Some(session) if session.state.replies.len() > 0 => {
                    &&& r == Some(session.state.replies[0])
                    &&& final(self)@ == (RemoteModel {
                        session: Some(
                            HandleModel {
                                state: StateModel {
                                    replies: session.state.replies.skip(1),
                                    outstanding: session.state.outstanding - 1,
                                    ..session.state
                                },
                                ..session
                            },
                        ),
                        ..old(self)@
                    })
                },
                _ => r is None && final(self)@ == old(self)@,
            },
    {
        let mut taken: Option<SessionHandle> = None;
        core::mem::swap(&mut taken, &mut self.session);
        match taken {
            Some(handle) => {
                let mut session: SessionHandle = handle;
                let reply: Option<SelectionReply> = session.take_selection_text();
                self.session = Some(session);
                reply
            },
            None => None,
        }
    }

    pub fn passive_selection_range(&self) -> (r: Option<SelectionRange>)
        ensures
            r == self@.selection_range,
    {
        self.selection_range
    }

    /// Starts a search, or goes on with the one that runs.
    pub fn begin_search(
        &mut self,
        pattern: String,
        origin: Pos,
        direction: SearchDirection,
        side: Side,
        max_lines: Option<usize>,
    )
        requires
            old(self).well_formed(),
        ensures
            final(self).well_formed(),
            final(self)@ == if old(self)@.search_active {
                old(self)@.issuing(SessionCommand::SearchNext)
            } else if origin.col > u16::MAX {
                old(self)@
            } else {
                (RemoteModel {
                    search_active: true,
                    search_navigation: None,
                    ..old(self)@
                }).issuing(
                    SessionCommand::SearchBegin {
                        pattern,
                        origin_line: origin.row,
                        origin_column: origin.col as u16,
                        origin_display_offset: old(self)@.grid.display_offset as u32,
                        direction,
                        side,
                        max_lines: match max_lines {
                            Some(lines) if lines <= u32::MAX => Some(lines as u32),
                            _ => None,
                        },
                    },
                )
            },
    {
        if self.search_active {
            self.enqueue(SessionCommand::SearchNext);
            return;
        }
        if origin.col > u16::MAX as usize {
            return;
        }
        let origin_display_offset: u32 = self.grid.display_offset as u32;
        let origin_column: u16 = origin.col as u16;
        let max_lines: Option<u32> = match max_lines {
            Some(lines) if lines <= u32::MAX as usize => Some(lines as u32),
            _ => None,
        };
        self.search_active = true;
        self.search_navigation = None;
        proof {
            assert(self@ =~= (RemoteModel {
                search_active: true,
                search_navigation: None,
                ..old(self)@
            }));
        }
        self.enqueue(
            SessionCommand::SearchBegin {
                pattern,
                origin_line: origin.row,
                origin_column,
                origin_display_offset,
                direction,
                side,
                max_lines,
            },
        );
    }

    pub fn next_search(&mut self)
        requires
            old(self).well_formed(),
        ensures
            final(self).well_formed(),
            final(self)@ == if old(self)@.search_active {
                old(self)@.issuing(SessionCommand::SearchNext)
            } else {
                old(self)@
            },
    {
        if self.search_active {
            self.enqueue(SessionCommand::SearchNext);
        }
    }

    /// Asks for the matches of a pattern; earlier ones are forgotten.
    pub fn search_matches(&mut self, pattern: &str, max_matches: usize)
        requires
            old(self).well_formed(),
        ensures
            final(self).well_formed(),
            exists|text: String|
                text@ == pattern@ && final(self)@ == #[trigger] old(
                    self,
                )@.without_matches().issuing(
                    SessionCommand::Search { pattern: text, max_matches },
                ),
    {
        self.search_matches = None;
        let ghost cleared = self@;
        let text: String = pattern.to_owned();
        self.enqueue(SessionCommand::Search { pattern: text, max_matches });
        proof {
            assert(cleared =~= old(self)@.without_matches());
            assert(self@ == cleared.issuing(SessionCommand::Search { pattern: text, max_matches }));
        }
    }

    /// The matches that have arrived, in terminal coordinates.
    pub fn take_search_matches(&mut self) -> (r: Option<Vec<(Pos, Pos)>>)
        requires
            old(self).well_formed(),
        ensures
            final(self).well_formed(),
            final(self)@ == (RemoteModel { search_matches: None, ..old(self)@.refreshed() }),
            match (r, old(self)@.refreshed().search_matches) {
                (Some(ranges), Some(matches)) => ranges@ == match_ranges(
                    matches@,
                    old(self)@.refreshed().grid.history,
                ),
                (None, None) => true,
                _ => false,
            },
    {
        self.refresh();
        let ghost refreshed = self@;
        let taken: Option<Vec<SearchMatch>> = self.search_matches.take();
        proof {
            assert(self@ =~= (RemoteModel { search_matches: None, ..refreshed }));
        }
        match taken {
            Some(matches) => {
                let history: i32 = self.grid.history as i32;
                let mut ranges: Vec<(Pos, Pos)> = Vec::new();
                let mut i: usize = 0;
                while i < matches.len()
                    invariant
                        i <= matches@.len(),
                        0 <= history,
                        forall|k: int| 0 <= k < matches@.len() ==> (#[trigger] matches@[k]).fits(),
                        ranges@ == match_ranges(matches@.take(i as int), history as int),
                    decreases matches@.len() - i,
                {
                    let found: SearchMatch = matches[i];
                    proof {
                        assert(matches@[i as int].fits());
                        assert(match_ranges(matches@.take(i + 1), history as int) =~= match_ranges(
                            matches@.take(i as int),
                            history as int,
                        ).push(match_range(found, history as int)));
                    }
                    ranges.push(
                        (
                            Pos::new(found.start_line as i32 - history, found.start_column as usize),
                            Pos::new(found.end_line as i32 - history, found.end_column as usize),
                        ),
                    );
                    i += 1;
                }
                proof {
                    assert(matches@.take(matches@.len() as int) =~= matches@);
                }
                Some(ranges)
            },
            None => None,
        }
    }

    pub fn is_search_active(&self) -> (r: bool)
        ensures
            r == self@.search_active,
    {
        self.search_active
    }

    pub fn cancel_search(&mut self)
        requires
            old(self).well_formed(),
        ensures
            final(self).well_formed(),
            final(self)@ == if old(self)@.search_active {
                (RemoteModel {
                    search_active: false,
                    search_navigation: None,
                    ..old(self)@
                }).issuing(SessionCommand::SearchCancel)
            } else {
                old(self)@
            },
    {
        if self.search_active {
            self.search_active = false;
            self.search_navigation = None;
            proof {
                assert(self@ =~= (RemoteModel {
                    search_active: false,
                    search_navigation: None,
                    ..old(self)@
                }));
            }
            self.enqueue(SessionCommand::SearchCancel);
        }
    }

    pub fn take_search_navigation(&mut self) -> (r: Option<SearchNavigation>)
        requires
            old(self).well_formed(),
        ensures
            final(self).well_formed(),
            r == old(self)@.refreshed().search_navigation,
            final(self)@ == (RemoteModel { search_navigation: None, ..old(self)@.refreshed() }),
    {
        self.refresh();
        let ghost refreshed = self@;
        let navigation: Option<SearchNavigation> = self.search_navigation.take();
        proof {
            assert(self@ =~= (RemoteModel { search_navigation: None, ..refreshed }));
        }
        navigation
    }

    pub fn cell_hyperlink(&self, point: Pos) -> (r: Option<Hyperlink>)
        requires
            self.well_formed(),
        ensures
            match (r, self@.grid.link_at(point)) {
                (Some(link), Some((id, uri))) => link.id@ == id && link.uri@ == uri,
                (None, None) => true,
                _ => false,
            },
    {
        self.grid.hyperlink(point)
    }
}

fn wire_cell(point: Pos) -> (r: Option<(u16, u16)>)
    ensures
        r == cell_of(point),
{
    if point.col <= u16::MAX as usize && 0 <= point.row && point.row <= u16::MAX as i32 {
        Some((point.col as u16, point.row as u16))
    } else {
        None
    }
}

} // verus!
