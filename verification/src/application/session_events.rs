//! What session workers report on their own account.

use crate::context::pane::Context;
use crate::context::protocol::{
    GlyphStatus, RefusalReason, RequestKind, SelectionReply, SessionCommand, SessionError,
    SessionEvent,
};
use crate::context::remote::{RemoteModel, RemoteView};
use crate::context::renderable::{BackgroundState, RenderableContent, WindowColor};
use crate::context::session::{
    queue_full, Admission, HandleModel, PumpCommand, SessionHandle, StateModel,
};
use crate::terminal::{ClipboardType, ColorBits, TerminalDamage};
use crate::text::{decimal, decimal_text, joined};
use vstd::prelude::*;

verus! {

/// The number of the background among the colours of a terminal.
pub const BACKGROUND_INDEX: u16 = 257;

/// The clipboard that a terminal means.
pub open spec fn clipboard_of(kind: u8) -> Option<ClipboardType> {
    if kind == 0 {
        Some(ClipboardType::Clipboard)
    } else if kind == 1 {
        Some(ClipboardType::Selection)
    } else {
        None
    }
}

pub fn clipboard_type(kind: u8) -> (r: Option<ClipboardType>)
    ensures
        r == clipboard_of(kind),
{
    match kind {
        0 => Some(ClipboardType::Clipboard),
        1 => Some(ClipboardType::Selection),
        _ => None,
    }
}

/// How far something has come.
#[derive(Clone, Copy, Debug, PartialEq, Eq, Structural)]
pub enum ProgressState {
    Remove,
    Started,
    Error,
    Indeterminate,
    Pause,
}

/// The progress that a terminal means.
pub open spec fn progress_of(state: u8) -> Option<ProgressState> {
    if state == 0 {
        Some(ProgressState::Remove)
    } else if state == 1 {
        Some(ProgressState::Started)
    } else if state == 2 {
        Some(ProgressState::Error)
    } else if state == 3 {
        Some(ProgressState::Indeterminate)
    } else if state == 4 {
        Some(ProgressState::Pause)
    } else {
        None
    }
}

fn progress_state(state: u8) -> (r: Option<ProgressState>)
    ensures
        r == progress_of(state),
{
    match state {
        0 => Some(ProgressState::Remove),
        1 => Some(ProgressState::Started),
        2 => Some(ProgressState::Error),
        3 => Some(ProgressState::Indeterminate),
        4 => Some(ProgressState::Pause),
        _ => None,
    }
}

/// Where a character can be had from: from the pane's own glyphs, from the
/// system's fonts, from both or from neither.
pub fn glyph_status(in_glossary: bool, in_system: bool) -> (r: GlyphStatus)
    ensures
        r == if in_glossary && in_system {
            GlyphStatus::Both
        } else if in_glossary {
            GlyphStatus::Glossary
        } else if in_system {
            GlyphStatus::System
        } else {
            GlyphStatus::Free
        },
{
    match (in_glossary, in_system) {
        (true, true) => GlyphStatus::Both,
        (true, false) => GlyphStatus::Glossary,
        (false, true) => GlyphStatus::System,
        (false, false) => GlyphStatus::Free,
    }
}

impl RequestKind {
    pub open spec fn name(self) -> Seq<char> {
        match self {
            RequestKind::Clipboard => "Clipboard"@,
            RequestKind::Color => "Color"@,
            RequestKind::TextAreaSize => "TextAreaSize"@,
            RequestKind::Glyph => "Glyph"@,
        }
    }

    fn name_text(self) -> (r: &'static str)
        ensures
            r@ == self.name(),
    {
        match self {
            RequestKind::Clipboard => "Clipboard",
            RequestKind::Color => "Color",
            RequestKind::TextAreaSize => "TextAreaSize",
            RequestKind::Glyph => "Glyph",
        }
    }
}

impl RefusalReason {
    pub open spec fn name(self) -> Seq<char> {
        match self {
            RefusalReason::Denied => "Denied"@,
            RefusalReason::TooMany => "TooMany"@,
            RefusalReason::Unsupported => "Unsupported"@,
        }
    }

    fn name_text(self) -> (r: &'static str)
        ensures
            r@ == self.name(),
    {
        match self {
            RefusalReason::Denied => "Denied",
            RefusalReason::TooMany => "TooMany",
            RefusalReason::Unsupported => "Unsupported",
        }
    }
}

/// The beginning of the words about a request.
pub open spec fn request_words(request_id: u64, kind: RequestKind) -> Seq<char> {
    "terminal request "@ + decimal(request_id as nat) + " ("@ + kind.name()
}

fn request_text(request_id: u64, kind: RequestKind) -> (r: String)
    ensures
        r@ == request_words(request_id, kind),
{
    let number: String = decimal_text(request_id);
    let a: String = joined("terminal request ", number.as_str());
    let b: String = joined(a.as_str(), " (");
    joined(b.as_str(), kind.name_text())
}

/// What a session's window is like, and what is configured.
#[derive(Clone, Copy, Debug, PartialEq, Eq, Structural)]
pub struct SessionWindow {
    /// The pane is the focused one of the window.
    pub is_current: bool,
    pub focused: bool,
    pub has_island: bool,
    pub audio_bell: bool,
    /// What the renderer shows for the colour that is asked for.
    pub renderer_color: ColorBits,
    /// The colour that a terminal gave, as a colour of a window.
    pub shade: WindowColor,
}

/// What is to be done about what a session reports.
pub enum SessionAction {
    Nothing,
    Redraw,
    SetWindowTitle(String),
    Bell,
    /// Shows progress and draws the window again.
    Progress(ProgressState, u8),
    StoreClipboard(ClipboardType, String),
    /// A clipboard's text goes to the other clipboard, too.
    ShareClipboard(ClipboardType),
    /// Shows a warning and draws the window again.
    Warn(String),
    /// Looks a clipboard up for a worker's pane.
    LoadClipboard(u64, usize, ClipboardType),
    /// Answers with a colour by its components.
    AnswerColor(u64, usize, ColorBits),
    /// Looks a character up for a worker's pane.
    QueryGlyph(u64, usize, u32),
    Notify(String, String),
    Close,
}

impl Context {
    /// The whole pane has to be drawn again.
    pub open spec fn touched(self, damage: TerminalDamage) -> Context {
        Context {
            renderable_content: RenderableContent {
                pending_update: self.renderable_content.pending_update.with_damage(damage),
                ..self.renderable_content
            },
            ..self
        }
    }

    /// The pane shows an error.
    pub open spec fn is_showing(self, before: Context, words: Seq<char>) -> bool {
        &&& self.renderable_content.session_error matches Some(error) && error@ == words
        &&& self == (Context {
            renderable_content: RenderableContent {
                session_error: self.renderable_content.session_error,
                ..before.touched(TerminalDamage::Full).renderable_content
            },
            ..before
        })
    }

    /// A command was queued for the worker; where it was not admitted, the pane
    /// shows why.
    pub open spec fn is_sent(self, before: Context, command: SessionCommand) -> bool {
        match before.terminal@.session {
            None => self == before,
            Some(session) => {
                let terminal = Context { terminal: self.terminal, ..before };
                &&& self.terminal@ == (RemoteModel {
                    session: Some(session.sent(PumpCommand::Terminal(command))),
                    ..before.terminal@
                })
                &&& match session.admission() {
                    Admission::Admitted => self == terminal,
                    Admission::Full => self.is_showing(terminal, queue_full()),
                    _ => self.is_showing(terminal, SessionError::Detached.words()),
                }
            },
        }
    }

    /// Shows an error of the session.
    pub fn show_session_error(&mut self, error: String)
        ensures
            final(self).is_showing(*old(self), error@),
            old(self).well_formed() ==> final(self).well_formed(),
    {
        self.renderable_content.session_error = Some(error);
        self.renderable_content.pending_update.set_terminal_damage(TerminalDamage::Full);
    }

    /// Queues a command for the worker.
    pub fn send_session_command(&mut self, command: SessionCommand)
        requires
            old(self).well_formed(),
            !(command is Close),
            !(command is SelectionText),
        ensures
            final(self).well_formed(),
            final(self).is_sent(*old(self), command),
    {
        let mut taken: Option<SessionHandle> = None;
        core::mem::swap(&mut taken, &mut self.terminal.session);
        if let Some(handle) = taken {
            let mut session: SessionHandle = handle;
            let ghost before = session@;
            let result: Result<(), SessionError> = session.enqueue(command);
            self.terminal.session = Some(session);
            proof {
                assert(self.terminal@ =~= (RemoteModel {
                    session: Some(before.sent(PumpCommand::Terminal(command))),
                    ..old(self).terminal@
                }));
            }
            let ghost sent = *self;
            if let Err(error) = result {
                let text: String = error.message();
                self.show_session_error(text);
                proof {
                    assert(self.is_showing(sent, error.words()));
                }
            }
        }
    }

    /// What a session reports, as far as its pane is concerned.
    pub open spec fn is_told(self, before: Context, window: SessionWindow, event: SessionEvent) -> bool {
        match event {
            SessionEvent::Title { title } => self == (Context {
                terminal: RemoteView { title, ..before.terminal },
                ..before
            }),
            SessionEvent::CursorBlinkingChanged => self == before.touched(
                TerminalDamage::CursorOnly,
            ),
            SessionEvent::TextAreaSizeRequest { request_id, route_id } => self.is_sent(
                before,
                SessionCommand::TextAreaSizeResponse {
                    request_id,
                    route_id,
                    rows: before.dimension.size.rows,
                    columns: before.dimension.size.cols,
                    pixel_width: before.dimension.size.width,
                    pixel_height: before.dimension.size.height,
                },
            ),
            SessionEvent::ColorChange { route_id, index, color } => self == (Context {
                renderable_content: RenderableContent {
                    background: if index != BACKGROUND_INDEX {
                        before.renderable_content.background
                    } else if color is Some {
                        Some(BackgroundState::Custom(window.shade))
                    } else {
                        Some(BackgroundState::Reset)
                    },
                    ..before.touched(TerminalDamage::Full).renderable_content
                },
                ..before
            }),
            SessionEvent::RequestRefused { request_id, kind, reason } => self.is_showing(
                before,
                request_words(request_id, kind) + ") refused: "@ + reason.name(),
            ),
            SessionEvent::RequestExpired { request_id, kind } => self.is_showing(
                before,
                request_words(request_id, kind) + ") expired"@,
            ),
            _ => self == before,
        }
    }
}

/// The colour that a terminal is told: its own, or else the renderer's.
pub open spec fn told_color(colors: Seq<Option<ColorBits>>, index: int, renderer: ColorBits) -> ColorBits {
    match colors[index] {
        Some(color) => color,
        None => renderer,
    }
}

/// What a session reports, as far as its window is concerned.
pub open spec fn window_told(pane: Context, window: SessionWindow, event: SessionEvent) -> spec_fn(
    SessionAction,
) -> bool {
    |r: SessionAction|
        match event {
            SessionEvent::FrameReady => r is Nothing,
            SessionEvent::Title { title } => if window.is_current {
                r matches SessionAction::SetWindowTitle(text) && text@ == title@
            } else {
                r is Nothing
            },
            SessionEvent::Bell => r == if window.audio_bell {
                SessionAction::Bell
            } else {
                SessionAction::Nothing
            },
            SessionEvent::CursorBlinkingChanged => r is Redraw,
            SessionEvent::Progress { state, value } => r == match progress_of(state) {
                Some(state) if window.has_island => SessionAction::Progress(state, value),
                _ => SessionAction::Nothing,
            },
            SessionEvent::ClipboardStore { kind, text } => r == match clipboard_of(kind) {
                Some(kind) if window.focused => SessionAction::StoreClipboard(kind, text),
                _ => SessionAction::Nothing,
            },
            SessionEvent::ClipboardLoad { request_id, route_id, kind } => r == match clipboard_of(
                kind,
            ) {
                Some(kind) => SessionAction::LoadClipboard(request_id, route_id, kind),
                None => SessionAction::Nothing,
            },
            SessionEvent::ColorRequest { request_id, route_id, index } => r
                == SessionAction::AnswerColor(
                request_id,
                route_id,
                told_color(pane.terminal@.colors, index as int, window.renderer_color),
            ),
            SessionEvent::TextAreaSizeRequest { request_id, route_id } => r is Nothing,
            SessionEvent::GlyphProtocolQuery { request_id, route_id, codepoint } => r
                == SessionAction::QueryGlyph(request_id, route_id, codepoint),
            SessionEvent::DesktopNotification { title, body } => r == SessionAction::Notify(
                title,
                body,
            ),
            SessionEvent::ColorChange { route_id, index, color } => r is Redraw,
            SessionEvent::ChildExited { code } => r is Redraw,
            SessionEvent::ClipboardOverflow => r matches SessionAction::Warn(text) && text@
                == "terminal clipboard response exceeded the session limit"@,
            SessionEvent::RequestRefused { request_id, kind, reason } => r is Redraw,
            SessionEvent::RequestExpired { request_id, kind } => r is Redraw,
            SessionEvent::Closed => r is Close,
        }
}

/// Takes what a session reports. Frames that are ready stay with the pump.
pub fn handle_session_event(pane: &mut Context, window: SessionWindow, event: SessionEvent) -> (r:
    SessionAction)
    requires
        old(pane).well_formed(),
        !(event is FrameReady),
        event matches SessionEvent::ColorRequest { request_id, route_id, index } ==> index
            < old(pane).terminal@.colors.len(),
    ensures
        final(pane).well_formed(),
        final(pane).is_told(*old(pane), window, event),
        window_told(*old(pane), window, event)(r),
{
    match event {
        SessionEvent::FrameReady => SessionAction::Nothing,
        SessionEvent::Title { title } => {
            let copy: String = title.clone();
            pane.terminal.title = title;
            if window.is_current {
                SessionAction::SetWindowTitle(copy)
            } else {
                SessionAction::Nothing
            }
        },
        SessionEvent::Bell => if window.audio_bell {
            SessionAction::Bell
        } else {
            SessionAction::Nothing
        },
        SessionEvent::CursorBlinkingChanged => {
            pane.renderable_content.pending_update.set_terminal_damage(TerminalDamage::CursorOnly);
            SessionAction::Redraw
        },
        SessionEvent::Progress { state, value } => match progress_state(state) {
            Some(state) => if window.has_island {
                SessionAction::Progress(state, value)
            } else {
                SessionAction::Nothing
            },
            None => SessionAction::Nothing,
        },
        SessionEvent::ClipboardStore { kind, text } => match clipboard_type(kind) {
            Some(kind) => if window.focused {
                SessionAction::StoreClipboard(kind, text)
            } else {
                SessionAction::Nothing
            },
            None => SessionAction::Nothing,
        },
        SessionEvent::ClipboardLoad { request_id, route_id, kind } => match clipboard_type(kind) {
            Some(kind) => SessionAction::LoadClipboard(request_id, route_id, kind),
            None => SessionAction::Nothing,
        },
        SessionEvent::ColorRequest { request_id, route_id, index } => {
            let color: ColorBits = match pane.terminal.colors[index as usize] {
                Some(color) => color,
                None => window.renderer_color,
            };
            SessionAction::AnswerColor(request_id, route_id, color)
        },
        SessionEvent::TextAreaSizeRequest { request_id, route_id } => {
            let size = pane.dimension.size;
            pane.send_session_command(
                SessionCommand::TextAreaSizeResponse {
                    request_id,
                    route_id,
                    rows: size.rows,
                    columns: size.cols,
                    pixel_width: size.width,
                    pixel_height: size.height,
                },
            );
            SessionAction::Nothing
        },
        SessionEvent::GlyphProtocolQuery {
            request_id,
            route_id,
            codepoint,
        } => SessionAction::QueryGlyph(request_id, route_id, codepoint),
        SessionEvent::DesktopNotification { title, body } => SessionAction::Notify(title, body),
        SessionEvent::ColorChange { route_id: _, index, color } => {
            if index == BACKGROUND_INDEX {
                pane.renderable_content.background = if color.is_some() {
                    Some(BackgroundState::Custom(window.shade))
                } else {
                    Some(BackgroundState::Reset)
                };
            }
            pane.renderable_content.pending_update.set_terminal_damage(TerminalDamage::Full);
            SessionAction::Redraw
        },
        SessionEvent::ChildExited { code: _ } => SessionAction::Redraw,
        SessionEvent::ClipboardOverflow => SessionAction::Warn(
            "terminal clipboard response exceeded the session limit".to_owned(),
        ),
        SessionEvent::RequestRefused { request_id, kind, reason } => {
            let opened: String = request_text(request_id, kind);
            let named: String = joined(opened.as_str(), ") refused: ");
            let text: String = joined(named.as_str(), reason.name_text());
            pane.show_session_error(text);
            SessionAction::Redraw
        },
        SessionEvent::RequestExpired { request_id, kind } => {
            let opened: String = request_text(request_id, kind);
            let text: String = joined(opened.as_str(), ") expired");
            pane.show_session_error(text);
            SessionAction::Redraw
        },
        SessionEvent::Closed => SessionAction::Close,
    }
}

/// What a session reports once its pane is gone, as far as its window is
/// concerned, or the program where the window is gone, too.
pub open spec fn told_without_pane(
    window: Option<SessionWindow>,
    audio_bell: bool,
    event: SessionEvent,
) -> spec_fn(SessionAction) -> bool {
    |r: SessionAction|
        match (event, window) {
            (SessionEvent::Bell, _) => r == if audio_bell {
                SessionAction::Bell
            } else {
                SessionAction::Nothing
            },
            (SessionEvent::DesktopNotification { title, body }, _) => r == SessionAction::Notify(
                title,
                body,
            ),
            (SessionEvent::Closed, _) => r is Close,
            (_, None) => r is Nothing,
            (SessionEvent::Title { title }, Some(window)) => r == if window.is_current {
                SessionAction::SetWindowTitle(title)
            } else {
                SessionAction::Nothing
            },
            (SessionEvent::Progress { state, value }, Some(window)) => r == match progress_of(
                state,
            ) {
                Some(state) if window.has_island => SessionAction::Progress(state, value),
                _ => SessionAction::Nothing,
            },
            (SessionEvent::ClipboardStore { kind, text }, Some(window)) => r == match clipboard_of(
                kind,
            ) {
                Some(kind) if window.focused => SessionAction::StoreClipboard(kind, text),
                _ => SessionAction::Nothing,
            },
            (SessionEvent::ClipboardOverflow, Some(_)) => r matches SessionAction::Warn(text)
                && text@ == "terminal clipboard response exceeded the session limit"@,
            (SessionEvent::CursorBlinkingChanged, Some(_)) => r is Redraw,
            (SessionEvent::ColorChange { route_id, index, color }, Some(_)) => r is Redraw,
            (SessionEvent::ChildExited { code }, Some(_)) => r is Redraw,
            (SessionEvent::RequestRefused { request_id, kind, reason }, Some(_)) => r is Redraw,
            (SessionEvent::RequestExpired { request_id, kind }, Some(_)) => r is Redraw,
            _ => r is Nothing,
        }
}

/// Takes what a session reports once its pane is gone. What the pane would have
/// answered is not answered.
pub fn handle_event_without_pane(
    window: Option<SessionWindow>,
    audio_bell: bool,
    event: SessionEvent,
) -> (r: SessionAction)
    requires
        !(event is FrameReady),
    ensures
        told_without_pane(window, audio_bell, event)(r),
{
    match event {
        SessionEvent::Bell => if audio_bell {
            SessionAction::Bell
        } else {
            SessionAction::Nothing
        },
        SessionEvent::DesktopNotification { title, body } => SessionAction::Notify(title, body),
        SessionEvent::Closed => SessionAction::Close,
        event => match window {
            None => SessionAction::Nothing,
            Some(window) => match event {
                SessionEvent::Title { title } if window.is_current => {
                    SessionAction::SetWindowTitle(title)
                },
                SessionEvent::Progress { state, value } if window.has_island => {
                    match progress_state(state) {
                        Some(state) => SessionAction::Progress(state, value),
                        None => SessionAction::Nothing,
                    }
                },
                SessionEvent::ClipboardStore { kind, text } if window.focused => {
                    match clipboard_type(kind) {
                        Some(kind) => SessionAction::StoreClipboard(kind, text),
                        None => SessionAction::Nothing,
                    }
                },
                SessionEvent::ClipboardOverflow => SessionAction::Warn(
                    "terminal clipboard response exceeded the session limit".to_owned(),
                ),
                SessionEvent::CursorBlinkingChanged => SessionAction::Redraw,
                SessionEvent::ColorChange { .. } => SessionAction::Redraw,
                SessionEvent::ChildExited { .. } => SessionAction::Redraw,
                SessionEvent::RequestRefused { .. } => SessionAction::Redraw,
                SessionEvent::RequestExpired { .. } => SessionAction::Redraw,
                _ => SessionAction::Nothing,
            },
        },
    }
}

/// Where the first `n` selected texts go.
pub open spec fn selection_stores(replies: Seq<SelectionReply>, n: int) -> Seq<SessionAction>
    decreases n,
{
    if n <= 0 {
        Seq::empty()
    } else {
        let rest = selection_stores(replies, n - 1);
        let reply = replies[n - 1];
        match reply.text {
            None => rest,
            Some(text) => {
                let stored = rest.push(SessionAction::StoreClipboard(reply.target, text));
                if reply.copy_to_clipboard {
                    stored.push(SessionAction::ShareClipboard(reply.target))
                } else {
                    stored
                }
            },
        }
    }
}

/// The selected texts that have arrived at a pane.
pub open spec fn arrived(terminal: RemoteModel) -> Seq<SelectionReply> {
    match terminal.session {
        Some(session) => session.state.replies,
        None => Seq::empty(),
    }
}

/// A pane whose first `n` selected texts were taken.
pub open spec fn delivered(terminal: RemoteModel, n: int) -> RemoteModel {
    match terminal.session {
        Some(session) => RemoteModel {
            session: Some(
                HandleModel {
                    state: StateModel {
                        replies: session.state.replies.skip(n),
                        outstanding: session.state.outstanding - n,
                        ..session.state
                    },
                    ..session
                },
            ),
            ..terminal
        },
        None => terminal,
    }
}

/// Takes the selected texts that have arrived, in their order. One that found
/// nothing selected leaves the clipboards as they are.
pub fn take_selections(pane: &mut Context) -> (r: Vec<SessionAction>)
    requires
        old(pane).well_formed(),
    ensures
        final(pane).well_formed(),
        r@ == selection_stores(
            arrived(old(pane).terminal@),
            arrived(old(pane).terminal@).len() as int,
        ),
        final(pane).terminal@ == delivered(
            old(pane).terminal@,
            arrived(old(pane).terminal@).len() as int,
        ),
        *final(pane) == (Context { terminal: final(pane).terminal, ..*old(pane) }),
{
    let ghost before = pane.terminal@;
    let ghost replies = arrived(before);
    let ghost mut n: int = 0;
    let mut list: Vec<SessionAction> = Vec::new();
    let mut more: bool = true;
    proof {
        assert(replies.skip(0) =~= replies);
        assert(pane.terminal@ =~= delivered(before, 0));
    }
    while more
        invariant
            pane.well_formed(),
            before == old(pane).terminal@,
            replies == arrived(before),
            0 <= n <= replies.len(),
            !more ==> n == replies.len(),
            pane.terminal@ == delivered(before, n),
            *pane == (Context { terminal: pane.terminal, ..*old(pane) }),
            list@ == selection_stores(replies, n),
        decreases replies.len() - n + (if more {
            1int
        } else {
            0int
        }),
    {
        match pane.terminal.take_selection_text() {
            Some(reply) => {
                proof {
                    assert(replies.skip(n).skip(1) =~= replies.skip(n + 1));
                    assert(reply == replies[n]);
                    n = n + 1;
                    assert(pane.terminal@ =~= delivered(before, n));
                }
                if let Some(text) = reply.text {
                    list.push(SessionAction::StoreClipboard(reply.target, text));
                    if reply.copy_to_clipboard {
                        list.push(SessionAction::ShareClipboard(reply.target));
                    }
                }
            },
            None => {
                more = false;
            },
        }
    }
    list
}

/// Answers what a session asked for.
pub fn answer_clipboard(pane: &mut Context, request_id: u64, route_id: usize, text: String)
    requires
        old(pane).well_formed(),
    ensures
        final(pane).well_formed(),
        final(pane).is_sent(
            *old(pane),
            SessionCommand::ClipboardResponse { request_id, route_id, text },
        ),
{
    pane.send_session_command(SessionCommand::ClipboardResponse { request_id, route_id, text });
}

pub fn answer_color(pane: &mut Context, request_id: u64, route_id: usize, color: Option<
    (u8, u8, u8),
>)
    requires
        old(pane).well_formed(),
    ensures
        final(pane).well_formed(),
        final(pane).is_sent(
            *old(pane),
            SessionCommand::ColorResponse { request_id, route_id, color },
        ),
{
    pane.send_session_command(SessionCommand::ColorResponse { request_id, route_id, color });
}

pub fn answer_glyph(
    pane: &mut Context,
    request_id: u64,
    route_id: usize,
    in_glossary: bool,
    in_system: bool,
)
    requires
        old(pane).well_formed(),
    ensures
        final(pane).well_formed(),
        final(pane).is_sent(
            *old(pane),
            SessionCommand::GlyphProtocolResponse {
                request_id,
                route_id,
                status: if in_glossary && in_system {
                    GlyphStatus::Both
                } else if in_glossary {
                    GlyphStatus::Glossary
                } else if in_system {
                    GlyphStatus::System
                } else {
                    GlyphStatus::Free
                },
            },
        ),
{
    let status: GlyphStatus = glyph_status(in_glossary, in_system);
    pane.send_session_command(
        SessionCommand::GlyphProtocolResponse { request_id, route_id, status },
    );
}

/// A terminal in a window without the focus never gets at the clipboard by
/// storing to it.
pub proof fn law_unfocused_window_stores_nothing(
    pane: Context,
    window: SessionWindow,
    event: SessionEvent,
    action: SessionAction,
)
    requires
        !window.focused,
        window_told(pane, window, event)(action) || told_without_pane(
            Some(window),
            window.audio_bell,
            event,
        )(action),
    ensures
        !(action is StoreClipboard),
{
}

} // verus!
