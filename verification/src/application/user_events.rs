//! What the windows are told by their panes, by timers and by the user.

use crate::application::drag::{deferred_window_close, TabDrag};
use crate::application::session_events::BACKGROUND_INDEX;
use crate::application::state::{Application, PreparedModel};
use vstd::prelude::*;

verus! {

/// What a timer is for.
#[derive(Clone, Copy, Debug, PartialEq, Eq, Structural)]
pub enum Topic {
    Render,
    RenderRoute,
    ScheduledRenderRoute,
    CursorBlinking,
    UpdateConfig,
    UpdateTitles,
    SelectionScrolling,
}

/// What windows are told. What only passes through to the window is left out.
#[derive(Clone, Copy, Debug, PartialEq, Eq, Structural)]
pub enum UserEvent {
    Render,
    RenderRoute(usize),
    TerminalDamaged(usize),
    UpdateGraphics(usize),
    PrepareUpdateConfig,
    UpdateConfig,
    ReportToAssistant,
    /// Also for quitting.
    Exit,
    GlyphProtocolInstalled,
    /// A request that session workers make in another way now.
    Outdated,
    CloseTerminal(usize),
    CursorBlinkingChange,
    CursorBlinkingChangeOnRoute(usize),
    ProgressReport,
    SelectionScrollTick,
    Bell,
    DesktopNotification,
    PrepareRender(u64),
    PrepareRenderOnRoute(u64, usize),
    BlinkCursor(u64, usize),
    Title(usize),
    UpdateTitles,
    MouseCursorDirty,
    Scroll,
    ClipboardStore,
    CreateWindow,
    MoveCurrentTabToNewWindow,
    MergeWindow,
    ToggleQuake,
    ToggleAppearanceTheme,
    CreateNativeTab,
    CreateConfigEditor,
    CloseWindow,
    SelectNativeTabByIndex(usize),
    SelectNativeTabLast,
    SelectNativeTabNext,
    SelectNativeTabPrev,
    HideApplication,
    HideOtherApplications,
    Minimize(bool),
    ToggleFullScreen,
    ColorChange(usize, u16),
}

/// What is to be done. Where no window is named, the one that was told is meant.
#[derive(Clone, Copy, Debug, PartialEq, Eq, Structural)]
pub enum UserAction {
    /// Looks which of the panes that were taken over can be shown.
    PrepareImports,
    /// Drains what the session of a pane reports.
    ProcessSession(usize),
    /// Draws a pane once its session was heard, which may have closed it; its
    /// window has panes that are not shown yet, or has none.
    RenderRoute(usize, bool),
    Redraw,
    /// The window has been drawn since it was uncovered.
    ClearOcclusionFlag,
    MarkDirty(usize),
    /// The cursor of the focused pane has to be drawn again.
    DamageCursor,
    ApplyGraphics(usize),
    /// Starts a timer: what for, the number, what it tells, and after how many
    /// milliseconds.
    Schedule(Topic, usize, UserEvent, u64),
    Report,
    ConfirmQuit,
    Quit,
    InstallGlyphs,
    DeferClose(usize),
    CloseTerminal(usize),
    Progress,
    SelectionScrollTick,
    Bell,
    Notify,
    SetWindowTitle,
    UpdateTitles,
    ResetMouse,
    ScrollDisplay,
    RefreshHints,
    SetCursorIcon,
    StoreClipboard,
    CreateWindow,
    Detach(u64),
    /// Loads the configuration anew.
    LoadConfig,
    /// Starts a merge or a recovery, or takes a pick of the list.
    MergeAction,
    ToggleQuake,
    ToggleTheme,
    CreateNativeTab,
    OpenConfigSplit,
    OpenConfigWindow,
    CloseNativeWindow,
    SelectNativeTab(usize),
    SelectNextNativeTab,
    SelectPreviousNativeTab,
    HideApplication,
    HideOtherApplications,
    SetMinimized(bool),
    SetFullscreen(bool),
    SetBackground(usize),
}

/// What is configured of rendering and of what windows are told.
#[derive(Clone, Copy, Debug, PartialEq, Eq, Structural)]
pub struct EventConfig {
    pub disable_unfocused_render: bool,
    pub disable_occluded_render: bool,
    /// Windows are drawn when something happens, not all the time.
    pub event_based: bool,
    pub audio_bell: bool,
    pub confirm_before_quit: bool,
    pub open_config_with_split: bool,
}

/// What is read of the window that is told something.
#[derive(Clone, Copy, Debug, PartialEq, Eq, Structural)]
pub struct ToldWindow {
    pub id: u64,
    pub open: bool,
    pub focused: bool,
    pub occluded: bool,
    pub needs_render_after_occlusion: bool,
    pub fullscreen: bool,
    pub has_island: bool,
    /// The number of its tabs in the desktop.
    pub native_tabs: usize,
    pub current_route: usize,
    /// The current tab, if there is one.
    pub current_tab: Option<u64>,
    /// The pane that the event is about is there.
    pub has_pane: bool,
    /// The scrollbar has to be drawn again.
    pub scrollbar_dirty: bool,
    /// How long the next frame has to wait, in milliseconds.
    pub wait_until: Option<u64>,
    /// The timer that the event would start runs already.
    pub timer_running: bool,
}

impl ToldWindow {
    /// The window is not drawn for want of the focus.
    pub open spec fn lacks_focus(self, config: EventConfig) -> bool {
        config.disable_unfocused_render && !self.focused
    }

    /// The window is not drawn because it is covered.
    pub open spec fn is_covered(self, config: EventConfig) -> bool {
        config.disable_occluded_render && self.occluded && !self.needs_render_after_occlusion
    }
}

/// One thing to do, or none.
pub open spec fn when(condition: bool, action: UserAction) -> Seq<UserAction> {
    if condition {
        seq![action]
    } else {
        Seq::empty()
    }
}

/// Forgets that the window was covered, where it was.
pub open spec fn uncovered(window: ToldWindow) -> Seq<UserAction> {
    when(window.needs_render_after_occlusion, UserAction::ClearOcclusionFlag)
}

/// What is done about a window that is to be drawn.
pub open spec fn render_actions(window: ToldWindow, config: EventConfig, preparing: bool) -> Seq<
    UserAction,
> {
    if !window.open || (!preparing && (window.lacks_focus(config) || window.is_covered(config))) {
        Seq::empty()
    } else {
        uncovered(window).push(UserAction::Redraw)
    }
}

/// What is done about a pane that is to be drawn, once its session was heard.
pub open spec fn render_route_actions(
    window: ToldWindow,
    config: EventConfig,
    preparing: bool,
    route: usize,
) -> Seq<UserAction> {
    if !config.event_based || !window.open {
        Seq::empty()
    } else if !preparing && window.lacks_focus(config) {
        when(window.scrollbar_dirty, UserAction::Redraw)
    } else if !preparing && window.is_covered(config) {
        Seq::empty()
    } else {
        uncovered(window) + when(window.has_pane, UserAction::MarkDirty(route)) + match window.wait_until {
            Some(millis) => when(
                !window.timer_running,
                UserAction::Schedule(Topic::RenderRoute, route, UserEvent::Render, millis),
            ),
            None => seq![UserAction::Redraw],
        }
    }
}

/// The pane is one of the dragged tab, or its window is part of the drag.
pub open spec fn defers_close(drag: Option<TabDrag>, window: u64, route: usize) -> bool {
    drag matches Some(drag) && (drag.concerns(window) || (drag.owner matches Some(owner)
        && owner.route_ids@.contains(route)))
}

/// The configuration is not opened from a window whose tab is dragged.
pub open spec fn holds_config(drag: Option<TabDrag>, window: u64) -> bool {
    drag matches Some(drag) && (drag.source_window == window || (drag.owner matches Some(owner)
        && owner.window_id == window))
}

/// What is done about what a window is told.
pub open spec fn told_actions(
    drag: Option<TabDrag>,
    preparing: bool,
    window: ToldWindow,
    config: EventConfig,
    event: UserEvent,
) -> Seq<UserAction> {
    let imports = when(preparing && window.open, UserAction::PrepareImports);
    match event {
        UserEvent::Render => imports + render_actions(window, config, preparing),
        UserEvent::RenderRoute(route) => imports.push(UserAction::ProcessSession(route)).push(
            UserAction::RenderRoute(route, preparing),
        ),
        UserEvent::TerminalDamaged(route) => if config.event_based && window.open
            && !window.lacks_focus(config) && !window.is_covered(config) && window.has_pane {
            seq![UserAction::MarkDirty(route), UserAction::Redraw]
        } else {
            Seq::empty()
        },
        UserEvent::UpdateGraphics(route) => if window.open && window.has_pane {
            seq![
                UserAction::ApplyGraphics(route),
                UserAction::MarkDirty(route),
                UserAction::Redraw,
            ]
        } else {
            Seq::empty()
        },
        UserEvent::PrepareUpdateConfig => when(
            !window.timer_running,
            UserAction::Schedule(Topic::UpdateConfig, 0, UserEvent::UpdateConfig, 250),
        ),
        UserEvent::UpdateConfig => seq![UserAction::LoadConfig],
        UserEvent::ReportToAssistant => when(window.open, UserAction::Report),
        UserEvent::Exit => when(
            window.open,
            if config.confirm_before_quit {
                UserAction::ConfirmQuit
            } else {
                UserAction::Quit
            },
        ),
        UserEvent::GlyphProtocolInstalled => when(window.open, UserAction::InstallGlyphs),
        UserEvent::Outdated => Seq::empty(),
        UserEvent::CloseTerminal(route) => seq![
            if defers_close(drag, window.id, route) {
                UserAction::DeferClose(route)
            } else {
                UserAction::CloseTerminal(route)
            },
        ],
        UserEvent::CursorBlinkingChange => when(window.open, UserAction::Redraw),
        UserEvent::CursorBlinkingChangeOnRoute(route) => if window.open && route
            == window.current_route {
            seq![UserAction::DamageCursor, UserAction::Redraw]
        } else {
            Seq::empty()
        },
        UserEvent::ProgressReport => if window.open && window.has_island {
            seq![UserAction::Progress, UserAction::Redraw]
        } else {
            Seq::empty()
        },
        UserEvent::SelectionScrollTick => if window.open {
            seq![UserAction::SelectionScrollTick, UserAction::Redraw]
        } else {
            Seq::empty()
        },
        UserEvent::Bell => when(config.audio_bell, UserAction::Bell),
        UserEvent::DesktopNotification => seq![UserAction::Notify],
        UserEvent::PrepareRender(millis) => when(
            window.open && !window.timer_running,
            UserAction::Schedule(Topic::Render, window.current_route, UserEvent::Render, millis),
        ),
        UserEvent::PrepareRenderOnRoute(millis, route) => when(
            !window.timer_running,
            UserAction::Schedule(
                Topic::ScheduledRenderRoute,
                route,
                UserEvent::RenderRoute(route),
                millis,
            ),
        ),
        UserEvent::BlinkCursor(millis, route) => when(
            !window.timer_running,
            UserAction::Schedule(
                Topic::CursorBlinking,
                route,
                UserEvent::CursorBlinkingChangeOnRoute(route),
                millis,
            ),
        ),
        UserEvent::Title(route) => when(
            window.open && window.current_route == route,
            UserAction::SetWindowTitle,
        ),
        UserEvent::UpdateTitles => seq![UserAction::UpdateTitles],
        UserEvent::MouseCursorDirty => when(window.open, UserAction::ResetMouse),
        UserEvent::Scroll => if window.open {
            seq![UserAction::ScrollDisplay, UserAction::RefreshHints, UserAction::SetCursorIcon]
        } else {
            Seq::empty()
        },
        UserEvent::ClipboardStore => when(
            window.open && window.focused,
            UserAction::StoreClipboard,
        ),
        UserEvent::CreateWindow => seq![UserAction::CreateWindow],
        UserEvent::MoveCurrentTabToNewWindow => match window.current_tab {
            Some(tab) => when(window.open, UserAction::Detach(tab)),
            None => Seq::empty(),
        },
        UserEvent::MergeWindow => seq![UserAction::MergeAction],
        UserEvent::ToggleQuake => seq![UserAction::ToggleQuake],
        UserEvent::ToggleAppearanceTheme => when(window.open, UserAction::ToggleTheme),
        UserEvent::CreateNativeTab => when(window.open, UserAction::CreateNativeTab),
        UserEvent::CreateConfigEditor => when(
            !holds_config(drag, window.id),
            if config.open_config_with_split {
                UserAction::OpenConfigSplit
            } else {
                UserAction::OpenConfigWindow
            },
        ),
        UserEvent::CloseWindow => seq![UserAction::CloseNativeWindow],
        UserEvent::SelectNativeTabByIndex(index) => when(
            window.open,
            UserAction::SelectNativeTab(index),
        ),
        UserEvent::SelectNativeTabLast => when(
            window.open,
            UserAction::SelectNativeTab((window.native_tabs - 1) as usize),
        ),
        UserEvent::SelectNativeTabNext => when(window.open, UserAction::SelectNextNativeTab),
        UserEvent::SelectNativeTabPrev => when(window.open, UserAction::SelectPreviousNativeTab),
        UserEvent::HideApplication => seq![UserAction::HideApplication],
        UserEvent::HideOtherApplications => seq![UserAction::HideOtherApplications],
        UserEvent::Minimize(minimized) => when(window.open, UserAction::SetMinimized(minimized)),
        UserEvent::ToggleFullScreen => when(
            window.open,
            UserAction::SetFullscreen(!window.fullscreen),
        ),
        UserEvent::ColorChange(route, index) => when(
            window.open && index == BACKGROUND_INDEX && window.has_pane,
            UserAction::SetBackground(route),
        ),
    }
}

/// The timer that an event would start, and its number.
pub open spec fn timer_of(event: UserEvent, current_route: usize) -> Option<(Topic, usize)> {
    match event {
        UserEvent::RenderRoute(route) => Some((Topic::RenderRoute, route)),
        UserEvent::PrepareUpdateConfig => Some((Topic::UpdateConfig, 0)),
        UserEvent::PrepareRender(_) => Some((Topic::Render, current_route)),
        UserEvent::PrepareRenderOnRoute(_, route) => Some((Topic::ScheduledRenderRoute, route)),
        UserEvent::BlinkCursor(_, route) => Some((Topic::CursorBlinking, route)),
        _ => None,
    }
}

pub fn timer_for(event: UserEvent, current_route: usize) -> (r: Option<(Topic, usize)>)
    ensures
        r == timer_of(event, current_route),
{
    match event {
        UserEvent::RenderRoute(route) => Some((Topic::RenderRoute, route)),
        UserEvent::PrepareUpdateConfig => Some((Topic::UpdateConfig, 0)),
        UserEvent::PrepareRender(_) => Some((Topic::Render, current_route)),
        UserEvent::PrepareRenderOnRoute(_, route) => Some((Topic::ScheduledRenderRoute, route)),
        UserEvent::BlinkCursor(_, route) => Some((Topic::CursorBlinking, route)),
        _ => None,
    }
}

/// Adds one thing to do, or none.
fn add_if(list: &mut Vec<UserAction>, condition: bool, action: UserAction)
    ensures
        final(list)@ == old(list)@ + when(condition, action),
{
    if condition {
        list.push(action);
    }
    proof {
        assert(list@ =~= old(list)@ + when(condition, action));
    }
}

fn holds_route(routes: &Vec<usize>, route: usize) -> (r: bool)
    ensures
        r == routes@.contains(route),
{
    let mut i: usize = 0;
    while i < routes.len()
        invariant
            i <= routes@.len(),
            forall|j: int| 0 <= j < i ==> routes@[j] != route,
        decreases routes@.len() - i,
    {
        if routes[i] == route {
            return true;
        }
        i += 1;
    }
    false
}

fn close_is_deferred(drag: &Option<TabDrag>, window: u64, route: usize) -> (r: bool)
    ensures
        r == defers_close(*drag, window, route),
{
    match drag {
        Some(drag) => {
            let owned: bool = match &drag.owner {
                Some(owner) => holds_route(&owner.route_ids, route),
                None => false,
            };
            deferred_window_close(drag, window).is_some() || owned
        },
        None => false,
    }
}

fn config_is_held(drag: &Option<TabDrag>, window: u64) -> (r: bool)
    ensures
        r == holds_config(*drag, window),
{
    match drag {
        Some(drag) => {
            let owned: bool = match &drag.owner {
                Some(owner) => owner.window_id == window,
                None => false,
            };
            drag.source_window == window || owned
        },
        None => false,
    }
}

fn plan_render(list: &mut Vec<UserAction>, window: &ToldWindow, config: &EventConfig, preparing: bool)
    ensures
        final(list)@ == old(list)@ + render_actions(*window, *config, preparing),
{
    let unfocused: bool = config.disable_unfocused_render && !window.focused;
    let covered: bool = config.disable_occluded_render && window.occluded
        && !window.needs_render_after_occlusion;
    let draw: bool = window.open && (preparing || !(unfocused || covered));
    add_if(list, draw && window.needs_render_after_occlusion, UserAction::ClearOcclusionFlag);
    add_if(list, draw, UserAction::Redraw);
    proof {
        assert(list@ =~= old(list)@ + render_actions(*window, *config, preparing));
    }
}

/// What is to be done about a pane that is drawn, once its session was heard.
pub fn render_route(window: &ToldWindow, config: &EventConfig, preparing: bool, route: usize) -> (r:
    Vec<UserAction>)
    ensures
        r@ == render_route_actions(*window, *config, preparing, route),
{
    let mut list: Vec<UserAction> = Vec::new();
    let unfocused: bool = config.disable_unfocused_render && !window.focused;
    let covered: bool = config.disable_occluded_render && window.occluded
        && !window.needs_render_after_occlusion;
    if !config.event_based || !window.open {
    } else if !preparing && unfocused {
        add_if(&mut list, window.scrollbar_dirty, UserAction::Redraw);
    } else if !preparing && covered {
    } else {
        add_if(&mut list, window.needs_render_after_occlusion, UserAction::ClearOcclusionFlag);
        add_if(&mut list, window.has_pane, UserAction::MarkDirty(route));
        match window.wait_until {
            Some(millis) => {
                add_if(
                    &mut list,
                    !window.timer_running,
                    UserAction::Schedule(Topic::RenderRoute, route, UserEvent::Render, millis),
                );
            },
            None => {
                list.push(UserAction::Redraw);
            },
        }
    }
    proof {
        assert(list@ =~= render_route_actions(*window, *config, preparing, route));
    }
    list
}

/// Some pane that was taken over into the window is not shown yet.
pub open spec fn is_preparing(list: Seq<PreparedModel>, window: u64) -> bool {
    exists|i: int| 0 <= i < list.len() && (#[trigger] list[i]).window_id == window
}

impl Application {
    /// Whether panes that were taken over into a window are not shown yet: such
    /// a window is drawn even where others would not be.
    pub fn prepares_session(&self, window: u64) -> (r: bool)
        ensures
            r == is_preparing(self@.prepared, window),
    {
        let mut i: usize = 0;
        while i < self.pending_prepared.len()
            invariant
                i <= self.pending_prepared@.len(),
                forall|j: int|
                    0 <= j < i ==> (#[trigger] self.pending_prepared@[j]).window_id != window,
            decreases self.pending_prepared@.len() - i,
        {
            if self.pending_prepared[i].window_id == window {
                assert(self@.prepared[i as int].window_id == window);
                return true;
            }
            i += 1;
        }
        proof {
            assert forall|j: int| 0 <= j < self@.prepared.len() implies (
            #[trigger] self@.prepared[j]).window_id != window by {
                assert(self@.prepared[j] == self.pending_prepared@[j]@);
                assert(self.pending_prepared@[j].window_id != window);
            }
        }
        false
    }

    /// What is to be done about what a window is told.
    pub fn user_event(&self, window: &ToldWindow, config: &EventConfig, event: UserEvent) -> (r: Vec<
        UserAction,
    >)
        requires
            event is SelectNativeTabLast && window.open ==> window.native_tabs > 0,
        ensures
            r@ == told_actions(
                self@.drag,
                is_preparing(self@.prepared, window.id),
                *window,
                *config,
                event,
            ),
    {
        let preparing: bool = self.prepares_session(window.id);
        let mut list: Vec<UserAction> = Vec::new();
        let open: bool = window.open;
        match event {
            UserEvent::Render => {
                add_if(&mut list, preparing && open, UserAction::PrepareImports);
                plan_render(&mut list, window, config, preparing);
            },
            UserEvent::RenderRoute(route) => {
                add_if(&mut list, preparing && open, UserAction::PrepareImports);
                list.push(UserAction::ProcessSession(route));
                list.push(UserAction::RenderRoute(route, preparing));
            },
            UserEvent::TerminalDamaged(route) => {
                let unfocused: bool = config.disable_unfocused_render && !window.focused;
                let covered: bool = config.disable_occluded_render && window.occluded
                    && !window.needs_render_after_occlusion;
                let draw: bool = config.event_based && open && !unfocused && !covered
                    && window.has_pane;
                add_if(&mut list, draw, UserAction::MarkDirty(route));
                add_if(&mut list, draw, UserAction::Redraw);
            },
            UserEvent::UpdateGraphics(route) => {
                let draw: bool = open && window.has_pane;
                add_if(&mut list, draw, UserAction::ApplyGraphics(route));
                add_if(&mut list, draw, UserAction::MarkDirty(route));
                add_if(&mut list, draw, UserAction::Redraw);
            },
            UserEvent::PrepareUpdateConfig => add_if(
                &mut list,
                !window.timer_running,
                UserAction::Schedule(Topic::UpdateConfig, 0, UserEvent::UpdateConfig, 250),
            ),
            UserEvent::UpdateConfig => list.push(UserAction::LoadConfig),
            UserEvent::ReportToAssistant => add_if(&mut list, open, UserAction::Report),
            UserEvent::Exit => {
                add_if(&mut list, open && config.confirm_before_quit, UserAction::ConfirmQuit);
                add_if(&mut list, open && !config.confirm_before_quit, UserAction::Quit);
            },
            UserEvent::GlyphProtocolInstalled => add_if(&mut list, open, UserAction::InstallGlyphs),
            UserEvent::Outdated => {},
            UserEvent::CloseTerminal(route) => {
                let deferred: bool = close_is_deferred(&self.tab_drag, window.id, route);
                add_if(&mut list, deferred, UserAction::DeferClose(route));
                add_if(&mut list, !deferred, UserAction::CloseTerminal(route));
            },
            UserEvent::CursorBlinkingChange => add_if(&mut list, open, UserAction::Redraw),
            UserEvent::CursorBlinkingChangeOnRoute(route) => {
                let draw: bool = open && route == window.current_route;
                add_if(&mut list, draw, UserAction::DamageCursor);
                add_if(&mut list, draw, UserAction::Redraw);
            },
            UserEvent::ProgressReport => {
                let draw: bool = open && window.has_island;
                add_if(&mut list, draw, UserAction::Progress);
                add_if(&mut list, draw, UserAction::Redraw);
            },
            UserEvent::SelectionScrollTick => {
                add_if(&mut list, open, UserAction::SelectionScrollTick);
                add_if(&mut list, open, UserAction::Redraw);
            },
            UserEvent::Bell => add_if(&mut list, config.audio_bell, UserAction::Bell),
            UserEvent::DesktopNotification => list.push(UserAction::Notify),
            UserEvent::PrepareRender(millis) => add_if(
                &mut list,
                open && !window.timer_running,
                UserAction::Schedule(
                    Topic::Render,
                    window.current_route,
                    UserEvent::Render,
                    millis,
                ),
            ),
            UserEvent::PrepareRenderOnRoute(millis, route) => add_if(
                &mut list,
                !window.timer_running,
                UserAction::Schedule(
                    Topic::ScheduledRenderRoute,
                    route,
                    UserEvent::RenderRoute(route),
                    millis,
                ),
            ),
            UserEvent::BlinkCursor(millis, route) => add_if(
                &mut list,
                !window.timer_running,
                UserAction::Schedule(
                    Topic::CursorBlinking,
                    route,
                    UserEvent::CursorBlinkingChangeOnRoute(route),
                    millis,
                ),
            ),
            UserEvent::Title(route) => add_if(
                &mut list,
                open && window.current_route == route,
                UserAction::SetWindowTitle,
            ),
            UserEvent::UpdateTitles => list.push(UserAction::UpdateTitles),
            UserEvent::MouseCursorDirty => add_if(&mut list, open, UserAction::ResetMouse),
            UserEvent::Scroll => {
                add_if(&mut list, open, UserAction::ScrollDisplay);
                add_if(&mut list, open, UserAction::RefreshHints);
                add_if(&mut list, open, UserAction::SetCursorIcon);
            },
            UserEvent::ClipboardStore => add_if(
                &mut list,
                open && window.focused,
                UserAction::StoreClipboard,
            ),
            UserEvent::CreateWindow => list.push(UserAction::CreateWindow),
            UserEvent::MoveCurrentTabToNewWindow => match window.current_tab {
                Some(tab) => add_if(&mut list, open, UserAction::Detach(tab)),
                None => {},
            },
            UserEvent::MergeWindow => list.push(UserAction::MergeAction),
            UserEvent::ToggleQuake => list.push(UserAction::ToggleQuake),
            UserEvent::ToggleAppearanceTheme => add_if(&mut list, open, UserAction::ToggleTheme),
            UserEvent::CreateNativeTab => add_if(&mut list, open, UserAction::CreateNativeTab),
            UserEvent::CreateConfigEditor => {
                let held: bool = config_is_held(&self.tab_drag, window.id);
                let split: bool = config.open_config_with_split;
                add_if(&mut list, !held && split, UserAction::OpenConfigSplit);
                add_if(&mut list, !held && !split, UserAction::OpenConfigWindow);
            },
            UserEvent::CloseWindow => list.push(UserAction::CloseNativeWindow),
            UserEvent::SelectNativeTabByIndex(index) => add_if(
                &mut list,
                open,
                UserAction::SelectNativeTab(index),
            ),
            UserEvent::SelectNativeTabLast => if open {
                list.push(UserAction::SelectNativeTab(window.native_tabs - 1));
            },
            UserEvent::SelectNativeTabNext => add_if(
                &mut list,
                open,
                UserAction::SelectNextNativeTab,
            ),
            UserEvent::SelectNativeTabPrev => add_if(
                &mut list,
                open,
                UserAction::SelectPreviousNativeTab,
            ),
            UserEvent::HideApplication => list.push(UserAction::HideApplication),
            UserEvent::HideOtherApplications => list.push(UserAction::HideOtherApplications),
            UserEvent::Minimize(minimized) => add_if(
                &mut list,
                open,
                UserAction::SetMinimized(minimized),
            ),
            UserEvent::ToggleFullScreen => add_if(
                &mut list,
                open,
                UserAction::SetFullscreen(!window.fullscreen),
            ),
            UserEvent::ColorChange(route, index) => add_if(
                &mut list,
                open && index == BACKGROUND_INDEX && window.has_pane,
                UserAction::SetBackground(route),
            ),
        }
        proof {
            assert(list@ =~= told_actions(
                self@.drag,
                is_preparing(self@.prepared, window.id),
                *window,
                *config,
                event,
            ));
        }
        list
    }
}

/// A window with panes that are still to be shown is drawn whenever it is told
/// to, whether it has the focus or is covered.
pub proof fn law_preparing_windows_are_drawn(
    drag: Option<TabDrag>,
    window: ToldWindow,
    config: EventConfig,
)
    requires
        window.open,
    ensures
        told_actions(drag, true, window, config, UserEvent::Render).contains(UserAction::Redraw),
        told_actions(drag, true, window, config, UserEvent::Render)[0]
            == UserAction::PrepareImports,
        forall|route: usize|
            config.event_based && window.wait_until is None ==> (#[trigger] render_route_actions(
                window,
                config,
                true,
                route,
            )).contains(UserAction::Redraw),
{
    let actions = told_actions(drag, true, window, config, UserEvent::Render);
    assert(actions.last() == UserAction::Redraw);
    assert forall|route: usize|
        config.event_based && window.wait_until is None implies (#[trigger] render_route_actions(
        window,
        config,
        true,
        route,
    )).contains(UserAction::Redraw) by {
        assert(render_route_actions(window, config, true, route).last() == UserAction::Redraw);
    }
}

/// What a session reports is heard whether or not its window is drawn.
pub proof fn law_sessions_are_always_heard(
    drag: Option<TabDrag>,
    preparing: bool,
    window: ToldWindow,
    config: EventConfig,
    route: usize,
)
    ensures
        told_actions(
            drag,
            preparing,
            window,
            config,
            UserEvent::RenderRoute(route),
        ).contains(UserAction::ProcessSession(route)),
{
    let actions = told_actions(
        drag,
        preparing,
        window,
        config,
        UserEvent::RenderRoute(route),
    );
    let imports = when(preparing && window.open, UserAction::PrepareImports);
    assert(actions[imports.len() as int] == UserAction::ProcessSession(route));
}

} // verus!
