//! What the window system tells of windows.

use crate::application::drag::{deferred_window_close, DeferredTabDragClose};
use crate::application::merge::ArmedInput;
use crate::application::outbox::{find_window, window_of, Effect, EffectModel, WindowFacts};
use crate::application::pointer::MouseButton;
use crate::application::state::{Application, ApplicationModel};
use crate::text::joined;
use vstd::prelude::*;

verus! {

/// What the window system tells of a window, as far as it matters here.
#[derive(Clone, Copy, Debug, PartialEq, Eq, Structural)]
pub enum WindowEventKind {
    /// A key; the window system made it up, or not; it is Escape going down.
    KeyboardInput(bool, bool),
    ActivationTokenDone,
    DoubleTapGesture,
    TouchpadPressure,
    RotationGesture,
    PinchGesture,
    AxisMotion,
    PanGesture,
    HoveredFileCancelled,
    HoveredFile,
    Destroyed,
    Moved,
    ToplevelDrag,
    CloseRequested,
    /// A button goes down, or up.
    MouseInput(bool, MouseButton),
    /// The tab that the pointer is over, if it is over one.
    CursorMoved(Option<usize>),
    CursorEntered,
    CursorLeft,
    MouseWheel,
    Other,
}

/// The event is of no interest.
pub open spec fn is_skipped(event: WindowEventKind) -> bool {
    match event {
        WindowEventKind::KeyboardInput(synthetic, _) => synthetic,
        WindowEventKind::ActivationTokenDone => true,
        WindowEventKind::DoubleTapGesture => true,
        WindowEventKind::TouchpadPressure => true,
        WindowEventKind::RotationGesture => true,
        WindowEventKind::PinchGesture => true,
        WindowEventKind::AxisMotion => true,
        WindowEventKind::PanGesture => true,
        WindowEventKind::HoveredFileCancelled => true,
        WindowEventKind::HoveredFile => true,
        WindowEventKind::Destroyed => true,
        WindowEventKind::Moved => true,
        _ => false,
    }
}

pub fn skip_window_event(event: WindowEventKind) -> (r: bool)
    ensures
        r == is_skipped(event),
{
    match event {
        WindowEventKind::KeyboardInput(synthetic, _) => synthetic,
        WindowEventKind::ActivationTokenDone => true,
        WindowEventKind::DoubleTapGesture => true,
        WindowEventKind::TouchpadPressure => true,
        WindowEventKind::RotationGesture => true,
        WindowEventKind::PinchGesture => true,
        WindowEventKind::AxisMotion => true,
        WindowEventKind::PanGesture => true,
        WindowEventKind::HoveredFileCancelled => true,
        WindowEventKind::HoveredFile => true,
        WindowEventKind::Destroyed => true,
        WindowEventKind::Moved => true,
        _ => false,
    }
}

/// What an armed window makes of an event.
pub open spec fn as_armed(event: WindowEventKind) -> ArmedInput {
    match event {
        WindowEventKind::CursorEntered => ArmedInput::Entered,
        WindowEventKind::CursorLeft => ArmedInput::Left,
        WindowEventKind::CursorMoved(drop_index) => ArmedInput::Moved(drop_index),
        WindowEventKind::MouseInput(pressed, button) => if pressed && button == MouseButton::Left {
            ArmedInput::LeftPress
        } else {
            ArmedInput::OtherButton
        },
        _ => ArmedInput::Other,
    }
}

fn armed_input_of(event: WindowEventKind) -> (r: ArmedInput)
    ensures
        r == as_armed(event),
{
    match event {
        WindowEventKind::CursorEntered => ArmedInput::Entered,
        WindowEventKind::CursorLeft => ArmedInput::Left,
        WindowEventKind::CursorMoved(drop_index) => ArmedInput::Moved(drop_index),
        WindowEventKind::MouseInput(pressed, button) => if pressed && button == MouseButton::Left {
            ArmedInput::LeftPress
        } else {
            ArmedInput::OtherButton
        },
        _ => ArmedInput::Other,
    }
}

/// The event comes from a pointer or a key.
pub open spec fn is_input(event: WindowEventKind) -> bool {
    match event {
        WindowEventKind::KeyboardInput(_, _) => true,
        WindowEventKind::MouseInput(_, _) => true,
        WindowEventKind::CursorMoved(_) => true,
        WindowEventKind::MouseWheel => true,
        _ => false,
    }
}

/// Where an event goes.
#[derive(Clone, Copy, Debug, PartialEq, Eq, Structural)]
pub enum Routed {
    /// Nowhere.
    Ignored,
    /// To the drags between windows.
    Drag,
    /// It was dealt with.
    Swallowed,
    /// The current tab of this window is merged in, at this position.
    MergeInto(u64, Option<usize>),
    /// The window is to be closed.
    Close,
    /// The window is gone.
    Gone,
    /// To a window whose tabs are all gone: only what a press began is undone.
    Empty,
    /// To the window.
    Deliver,
}

impl ApplicationModel {
    pub open spec fn drag_concerns(self, window: u64) -> bool {
        self.drag matches Some(drag) && drag.concerns(window)
    }

    pub open spec fn deferring(self, close: DeferredTabDragClose) -> ApplicationModel {
        if self.deferred.contains(close) {
            self
        } else {
            ApplicationModel { deferred: self.deferred.push(close), ..self }
        }
    }

    /// The window at hand gets the event, if it is open.
    pub open spec fn reaching(
        self,
        windows: Seq<WindowFacts>,
        window: u64,
        event: WindowEventKind,
    ) -> (ApplicationModel, Routed) {
        let moved = match event {
            WindowEventKind::CursorMoved(drop_index) => self.pointed(windows, window, drop_index),
            _ => self,
        };
        let escape = event matches WindowEventKind::KeyboardInput(_, escape) && escape;
        if escape && moved.merge_uses(window) {
            (moved.merge_cleared().emitting(EffectModel::Redraw(window)), Routed::Swallowed)
        } else {
            (
                moved,
                match window_of(windows, window) {
                    None => Routed::Gone,
                    Some(facts) => if facts.terminal && facts.tabs == 0 && is_input(event) {
                        Routed::Empty
                    } else {
                        Routed::Deliver
                    },
                },
            )
        }
    }

    /// The event comes past a merge that is under way.
    pub open spec fn past_merge(
        self,
        windows: Seq<WindowFacts>,
        window: u64,
        event: WindowEventKind,
    ) -> (ApplicationModel, Routed) {
        let press = event == WindowEventKind::MouseInput(true, MouseButton::Left);
        if press && self.source is Some {
            let source = self.source->0;
            let index = match self.target {
                Some(target) => if target.0 == window {
                    Some(target.1)
                } else {
                    None
                },
                None => None,
            };
            if source != window {
                (self.merge_cleared(), Routed::MergeInto(source, index))
            } else {
                self.merge_cleared().reaching(windows, window, event)
            }
        } else if event is CloseRequested {
            (self.merge_cleared_if(window), Routed::Close)
        } else {
            self.reaching(windows, window, event)
        }
    }

    /// Where an event goes, and what happens on its way.
    pub open spec fn routing(
        self,
        windows: Seq<WindowFacts>,
        window: u64,
        event: WindowEventKind,
    ) -> (ApplicationModel, Routed) {
        if is_skipped(event) {
            (self, Routed::Ignored)
        } else if event is ToplevelDrag {
            (self, Routed::Drag)
        } else if event is CloseRequested && self.drag_concerns(window) {
            (self.deferring(DeferredTabDragClose::Window(window)), Routed::Swallowed)
        } else if self.drag_concerns(window) && (event is KeyboardInput || event is MouseInput) {
            (self, Routed::Swallowed)
        } else if self.armed matches Some(armed) && armed.target_window == window && as_armed(event)
            !is Other {
            (self.armed_input(self.armed->0, windows, as_armed(event)), Routed::Swallowed)
        } else {
            self.past_merge(windows, window, event)
        }
    }
}

impl Application {
    fn reach(&mut self, windows: &Vec<WindowFacts>, window: u64, event: WindowEventKind) -> (r:
        Routed)
        ensures
            (final(self)@, r) == old(self)@.reaching(windows@, window, event),
    {
        if let WindowEventKind::CursorMoved(drop_index) = event {
            self.update_merge_target(windows, window, drop_index);
        }
        if let WindowEventKind::KeyboardInput(_, escape) = event {
            if escape && self.merge_state_uses_window(window) {
                self.clear_merge_window();
                self.emit(Effect::Redraw(window));
                return Routed::Swallowed;
            }
        }
        let input: bool = match event {
            WindowEventKind::KeyboardInput(_, _) => true,
            WindowEventKind::MouseInput(_, _) => true,
            WindowEventKind::CursorMoved(_) => true,
            WindowEventKind::MouseWheel => true,
            _ => false,
        };
        match find_window(windows, window) {
            None => Routed::Gone,
            Some(facts) => if facts.terminal && facts.tabs == 0 && input {
                Routed::Empty
            } else {
                Routed::Deliver
            },
        }
    }

    /// Decides where an event of the window system goes: to a drag, to a merge
    /// that is under way, or to its window.
    pub fn window_event(&mut self, windows: &Vec<WindowFacts>, window: u64, event: WindowEventKind) -> (r:
        Routed)
        ensures
            (final(self)@, r) == old(self)@.routing(windows@, window, event),
    {
        if skip_window_event(event) {
            return Routed::Ignored;
        }
        if event == WindowEventKind::ToplevelDrag {
            return Routed::Drag;
        }
        let deferred: Option<DeferredTabDragClose> = match &self.tab_drag {
            Some(drag) => deferred_window_close(drag, window),
            None => None,
        };
        if let Some(close) = deferred {
            if event == WindowEventKind::CloseRequested {
                self.defer_tab_drag_close(close);
                return Routed::Swallowed;
            }
            match event {
                WindowEventKind::KeyboardInput(_, _) => {
                    return Routed::Swallowed;
                },
                WindowEventKind::MouseInput(_, _) => {
                    return Routed::Swallowed;
                },
                _ => {},
            }
        }
        if self.handle_armed_merge_window_event(windows, window, armed_input_of(event)) {
            return Routed::Swallowed;
        }
        if event == WindowEventKind::MouseInput(true, MouseButton::Left) {
            if let Some(source) = self.merge_window_source {
                let index: Option<usize> = match self.merge_target {
                    Some(target) => if target.0 == window {
                        Some(target.1)
                    } else {
                        None
                    },
                    None => None,
                };
                self.clear_merge_window();
                if source != window {
                    return Routed::MergeInto(source, index);
                }
            }
        }
        if event == WindowEventKind::CloseRequested {
            self.clear_merge_if_window(window);
            return Routed::Close;
        }
        self.reach(windows, window, event)
    }
}

/// What is done about a window, besides the pointer.
#[derive(Clone, Copy, Debug, PartialEq, Eq, Structural)]
pub enum WindowAction {
    Redraw,
    RequestRender,
    ShowCursor,
    HideCursor,
    SetCursorIcon,
    SetModifiers,
    /// Looks which hint is under the pointer.
    UpdateHints,
    ClearHint,
    /// The window draws its frame.
    BeginRender,
    RenderWelcome,
    Render,
    TakeReadyImports,
    UpdateImeCursor,
    /// The loop goes on at once, or waits.
    Poll,
    Wait,
    Scroll,
    /// Forgets the timer that draws the window.
    UnscheduleRender,
    NoteTyping,
    ProcessKey,
    /// Pastes a text, in brackets or not.
    Paste(bool),
    SetPreedit,
    EnableIme(bool),
    UpdateVblank,
    FocusChange(bool),
    ApplyTheme,
    UpdateConfig,
    ConfigureWindow,
    Resize,
    SetScale,
}

/// Whether a window is seen, and whether it has the focus.
#[derive(Clone, Copy, Debug, PartialEq, Eq, Structural)]
pub struct Visibility {
    pub focused: bool,
    pub occluded: bool,
    /// The window was uncovered and has not been drawn since.
    pub needs_render_after_occlusion: bool,
}

/// What an input method tells.
#[derive(Clone, Copy, Debug, PartialEq, Eq, Structural)]
pub enum ImeEvent {
    /// A text of so many characters was put in.
    Commit(usize),
    /// The text that is being put together changed, or did not.
    Preedit(bool),
    Enabled,
    /// There was a text that was being put together, or was not.
    Disabled(bool),
}

/// One thing to do, or none.
pub open spec fn only(condition: bool, action: WindowAction) -> Seq<WindowAction> {
    if condition {
        seq![action]
    } else {
        Seq::empty()
    }
}

fn put_if(list: &mut Vec<WindowAction>, condition: bool, action: WindowAction)
    ensures
        final(list)@ == old(list)@ + only(condition, action),
{
    if condition {
        list.push(action);
    }
    proof {
        assert(list@ =~= old(list)@ + only(condition, action));
    }
}

/// The pressed modifiers changed: what the pointer is over may have become a
/// hint, or ceased to be one. Only a pointer over the text makes a hint, but a
/// hint never outlives its modifiers.
pub fn modifiers_changed(terminal: bool, inside_text_area: bool) -> (r: Vec<WindowAction>)
    ensures
        r@ == if !terminal {
            seq![WindowAction::SetModifiers]
        } else if inside_text_area {
            seq![WindowAction::SetModifiers, WindowAction::UpdateHints]
        } else {
            seq![WindowAction::SetModifiers, WindowAction::ClearHint]
        },
{
    let mut list: Vec<WindowAction> = Vec::new();
    list.push(WindowAction::SetModifiers);
    if terminal {
        if inside_text_area {
            list.push(WindowAction::UpdateHints);
        } else {
            list.push(WindowAction::ClearHint);
        }
    }
    list
}

/// The hint under the pointer was looked up after the modifiers changed.
pub fn hint_looked_up(changed: bool) -> (r: Vec<WindowAction>)
    ensures
        r@ == if changed {
            seq![WindowAction::SetCursorIcon, WindowAction::RequestRender]
        } else {
            Seq::empty()
        },
{
    let mut list: Vec<WindowAction> = Vec::new();
    if changed {
        list.push(WindowAction::SetCursorIcon);
        list.push(WindowAction::RequestRender);
    }
    list
}

/// The wheel is for a window that shows its terminal and asks nothing.
pub fn wheel_turned(terminal: bool, confirm_quit: bool, hide_cursor_when_typing: bool) -> (r: Vec<
    WindowAction,
>)
    ensures
        r@ == if !terminal || confirm_quit {
            Seq::empty()
        } else {
            only(hide_cursor_when_typing, WindowAction::ShowCursor) + seq![
                WindowAction::Scroll,
                WindowAction::SetCursorIcon,
                WindowAction::Redraw,
            ]
        },
{
    let mut list: Vec<WindowAction> = Vec::new();
    if terminal && !confirm_quit {
        put_if(&mut list, hide_cursor_when_typing, WindowAction::ShowCursor);
        list.push(WindowAction::Scroll);
        list.push(WindowAction::SetCursorIcon);
        list.push(WindowAction::Redraw);
    }
    proof {
        assert(list@ =~= if !terminal || confirm_quit {
            Seq::empty()
        } else {
            only(hide_cursor_when_typing, WindowAction::ShowCursor) + seq![
                WindowAction::Scroll,
                WindowAction::SetCursorIcon,
                WindowAction::Redraw,
            ]
        });
    }
    list
}

/// A key goes down or up. `waited_for` says that a question took it.
pub open spec fn key_actions(
    terminal: bool,
    waited_for: bool,
    released: bool,
    hide_cursor_when_typing: bool,
) -> Seq<WindowAction> {
    if waited_for {
        only(!terminal && released, WindowAction::UnscheduleRender)
    } else {
        seq![
            WindowAction::NoteTyping,
            WindowAction::ProcessKey,
            WindowAction::SetCursorIcon,
            WindowAction::Redraw,
        ] + only(released && hide_cursor_when_typing, WindowAction::HideCursor)
    }
}

pub fn key_pressed(
    terminal: bool,
    waited_for: bool,
    released: bool,
    hide_cursor_when_typing: bool,
) -> (r: Vec<WindowAction>)
    ensures
        r@ == key_actions(terminal, waited_for, released, hide_cursor_when_typing),
{
    let mut list: Vec<WindowAction> = Vec::new();
    if waited_for {
        put_if(&mut list, !terminal && released, WindowAction::UnscheduleRender);
    } else {
        list.push(WindowAction::NoteTyping);
        list.push(WindowAction::ProcessKey);
        list.push(WindowAction::SetCursorIcon);
        list.push(WindowAction::Redraw);
        put_if(&mut list, released && hide_cursor_when_typing, WindowAction::HideCursor);
    }
    proof {
        assert(list@ =~= key_actions(terminal, waited_for, released, hide_cursor_when_typing));
    }
    list
}

/// What is done about an input method. `dismissed` says that a message over the
/// window went with it.
pub open spec fn ime_actions(dismissed: bool, hinting: bool, event: ImeEvent) -> Seq<WindowAction> {
    only(dismissed, WindowAction::Redraw) + match event {
        // The key that made the text is a hint's already.
        ImeEvent::Commit(count) => only(!hinting, WindowAction::Paste(count > 1)),
        ImeEvent::Preedit(changed) => if changed {
            seq![WindowAction::SetPreedit, WindowAction::Redraw]
        } else {
            Seq::empty()
        },
        ImeEvent::Enabled => seq![WindowAction::EnableIme(true)],
        ImeEvent::Disabled(had_preedit) => seq![WindowAction::EnableIme(false)] + only(
            had_preedit,
            WindowAction::Redraw,
        ),
    }
}

pub fn ime_told(dismissed: bool, hinting: bool, event: ImeEvent) -> (r: Vec<WindowAction>)
    ensures
        r@ == ime_actions(dismissed, hinting, event),
{
    let mut list: Vec<WindowAction> = Vec::new();
    put_if(&mut list, dismissed, WindowAction::Redraw);
    match event {
        ImeEvent::Commit(count) => {
            put_if(&mut list, !hinting, WindowAction::Paste(count > 1));
        },
        ImeEvent::Preedit(changed) => {
            put_if(&mut list, changed, WindowAction::SetPreedit);
            put_if(&mut list, changed, WindowAction::Redraw);
        },
        ImeEvent::Enabled => {
            list.push(WindowAction::EnableIme(true));
        },
        ImeEvent::Disabled(had_preedit) => {
            list.push(WindowAction::EnableIme(false));
            put_if(&mut list, had_preedit, WindowAction::Redraw);
        },
    }
    proof {
        assert(list@ =~= ime_actions(dismissed, hinting, event));
    }
    list
}

/// A file was dropped on the window: its path, escaped for a shell, is pasted
/// with a space behind it.
pub fn file_dropped(dismissed: bool, escaped: &str) -> (r: (Vec<WindowAction>, String))
    ensures
        r.0@ == only(dismissed, WindowAction::Redraw) + seq![WindowAction::Paste(true)],
        r.1@ == escaped@ + " "@,
{
    let mut list: Vec<WindowAction> = Vec::new();
    put_if(&mut list, dismissed, WindowAction::Redraw);
    list.push(WindowAction::Paste(true));
    proof {
        assert(list@ =~= only(dismissed, WindowAction::Redraw) + seq![WindowAction::Paste(true)]);
    }
    (list, joined(escaped, " "))
}

impl Visibility {
    /// A window that gets the focus looks whether its scale changed meanwhile.
    pub open spec fn focus_actions(self, focused: bool, scale_changed: bool, hide_cursor: bool) -> Seq<
        WindowAction,
    > {
        only(hide_cursor, WindowAction::ShowCursor) + (if focused && scale_changed {
            seq![WindowAction::UpdateVblank, WindowAction::Redraw]
        } else {
            only(self.focused != focused, WindowAction::Redraw)
        }) + seq![WindowAction::FocusChange(focused)]
    }

    pub fn focus(&mut self, focused: bool, scale_changed: bool, hide_cursor: bool) -> (r: Vec<
        WindowAction,
    >)
        ensures
            r@ == old(self).focus_actions(focused, scale_changed, hide_cursor),
            *final(self) == (Visibility { focused, ..*old(self) }),
    {
        let changed: bool = self.focused != focused;
        self.focused = focused;
        let rescaled: bool = focused && scale_changed;
        let mut list: Vec<WindowAction> = Vec::new();
        put_if(&mut list, hide_cursor, WindowAction::ShowCursor);
        put_if(&mut list, rescaled, WindowAction::UpdateVblank);
        put_if(&mut list, rescaled || changed, WindowAction::Redraw);
        list.push(WindowAction::FocusChange(focused));
        proof {
            assert(list@ =~= old(self).focus_actions(focused, scale_changed, hide_cursor));
        }
        list
    }

    /// A window that is uncovered is drawn once, whatever else is configured.
    pub fn occlude(&mut self, occluded: bool, scale_changed: bool) -> (r: Vec<WindowAction>)
        ensures
            *final(self) == (Visibility {
                occluded,
                needs_render_after_occlusion: old(self).needs_render_after_occlusion || (old(
                    self,
                ).occluded && !occluded),
                ..*old(self)
            }),
            r@ == if old(self).occluded && !occluded {
                only(scale_changed, WindowAction::UpdateVblank) + seq![WindowAction::Redraw]
            } else {
                Seq::empty()
            },
    {
        let uncovered: bool = self.occluded && !occluded;
        self.occluded = occluded;
        let mut list: Vec<WindowAction> = Vec::new();
        if uncovered {
            self.needs_render_after_occlusion = true;
            put_if(&mut list, scale_changed, WindowAction::UpdateVblank);
            list.push(WindowAction::Redraw);
        }
        proof {
            assert(list@ =~= if uncovered {
                only(scale_changed, WindowAction::UpdateVblank) + seq![WindowAction::Redraw]
            } else {
                Seq::empty()
            });
        }
        list
    }
}

/// The desktop's theme changed: that matters unless one is forced.
pub fn theme_changed(forced: bool) -> (r: Vec<WindowAction>)
    ensures
        r@ == if forced {
            Seq::empty()
        } else {
            seq![
                WindowAction::ApplyTheme,
                WindowAction::UpdateConfig,
                WindowAction::ConfigureWindow,
                WindowAction::Redraw,
            ]
        },
{
    let mut list: Vec<WindowAction> = Vec::new();
    if !forced {
        list.push(WindowAction::ApplyTheme);
        list.push(WindowAction::UpdateConfig);
        list.push(WindowAction::ConfigureWindow);
        list.push(WindowAction::Redraw);
    }
    list
}

/// The window has another size; none at all is left alone.
pub fn resized(width: u32, height: u32) -> (r: Vec<WindowAction>)
    ensures
        r@ == if width == 0 || height == 0 {
            Seq::empty()
        } else {
            seq![WindowAction::Resize, WindowAction::Redraw]
        },
{
    let mut list: Vec<WindowAction> = Vec::new();
    if width != 0 && height != 0 {
        list.push(WindowAction::Resize);
        list.push(WindowAction::Redraw);
    }
    list
}

pub fn scale_changed() -> (r: Vec<WindowAction>)
    ensures
        r@ == seq![WindowAction::SetScale, WindowAction::UpdateVblank, WindowAction::Redraw],
{
    let mut list: Vec<WindowAction> = Vec::new();
    list.push(WindowAction::SetScale);
    list.push(WindowAction::UpdateVblank);
    list.push(WindowAction::Redraw);
    list
}

/// What the drawing of a window takes, up to its contents.
pub fn redraw_requested(terminal: bool) -> (r: Vec<WindowAction>)
    ensures
        r@ == if terminal {
            seq![
                WindowAction::BeginRender,
                WindowAction::Render,
                WindowAction::TakeReadyImports,
                WindowAction::UpdateImeCursor,
            ]
        } else {
            seq![WindowAction::BeginRender, WindowAction::RenderWelcome]
        },
{
    let mut list: Vec<WindowAction> = Vec::new();
    list.push(WindowAction::BeginRender);
    if terminal {
        list.push(WindowAction::Render);
        list.push(WindowAction::TakeReadyImports);
        list.push(WindowAction::UpdateImeCursor);
    } else {
        list.push(WindowAction::RenderWelcome);
    }
    list
}

/// What follows the drawing of a window: a game's loop goes on at once; any
/// other waits, and draws again only what has changed meanwhile.
pub fn redrawn(game: bool, dirty: bool) -> (r: Vec<WindowAction>)
    ensures
        r@ == if game {
            seq![WindowAction::Redraw, WindowAction::Poll]
        } else {
            only(dirty, WindowAction::Redraw) + seq![WindowAction::Wait]
        },
{
    let mut list: Vec<WindowAction> = Vec::new();
    if game {
        list.push(WindowAction::Redraw);
        list.push(WindowAction::Poll);
    } else {
        put_if(&mut list, dirty, WindowAction::Redraw);
        list.push(WindowAction::Wait);
    }
    proof {
        assert(list@ =~= if game {
            seq![WindowAction::Redraw, WindowAction::Poll]
        } else {
            only(dirty, WindowAction::Redraw) + seq![WindowAction::Wait]
        });
    }
    list
}

/// A window that is part of a drag is never closed while the drag lasts, and
/// sees no key and no button.
pub proof fn law_drags_hold_their_windows(
    app: ApplicationModel,
    windows: Seq<WindowFacts>,
    window: u64,
    event: WindowEventKind,
)
    requires
        app.drag_concerns(window),
        !is_skipped(event),
        event is CloseRequested || event is KeyboardInput || event is MouseInput,
    ensures
        app.routing(windows, window, event).1 == Routed::Swallowed,
        app.routing(windows, window, event).0.effects == app.effects,
        event is CloseRequested ==> app.routing(windows, window, event).0.deferred.contains(
            DeferredTabDragClose::Window(window),
        ),
{
    let close = DeferredTabDragClose::Window(window);
    if !app.deferred.contains(close) {
        assert(app.deferred.push(close).last() == close);
    }
}

/// A click of a merge is never passed on to the window that it names.
pub proof fn law_merge_clicks_are_not_passed_on(
    app: ApplicationModel,
    windows: Seq<WindowFacts>,
    window: u64,
    source: u64,
)
    requires
        app.source == Some(source),
        source != window,
        app.drag is None,
        app.armed is None,
    ensures
        app.routing(windows, window, WindowEventKind::MouseInput(true, MouseButton::Left)).1
            is MergeInto,
        app.routing(
            windows,
            window,
            WindowEventKind::MouseInput(true, MouseButton::Left),
        ).0.source is None,
{
}

} // verus!
