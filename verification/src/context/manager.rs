//! The tabs of a window and the focus among them.

use crate::context::pane::Context;
use crate::context::row::{
    row_get, row_get_mut, row_insert, row_len, row_remove, tab_models, tabs_in, TabRow,
};
use crate::context::session::{HandleModel, SessionHandle};
use crate::context::tab::{
    pane_with_route, referred, routes_of, sessions_of, shows_session, ContextGrid, TabModel,
};
use crate::context::title::ContextTitle;
use crate::terminal::ColorBits;
use vstd::prelude::*;

verus! {

/// A program with its arguments.
pub struct Shell {
    pub program: Option<String>,
    pub args: Vec<String>,
}

/// What a window's tabs are configured with.
pub struct ContextManagerConfig {
    pub shell: Shell,
    pub working_dir: Option<String>,
    /// New tabs start where the current one is.
    pub cwd: bool,
    /// Tabs are windows of the desktop.
    pub is_native: bool,
    pub should_update_title_extra: bool,
    pub title_template: String,
    pub scrollback_history_limit: usize,
    pub grapheme_clustering: bool,
    /// Closing the last tab closes the window.
    pub closes_last_tab: bool,
}

/// What the tabs ask of the application.
pub enum RioEvent {
    RenderRoute(usize),
    BlinkCursor(u64, usize),
    PrepareRenderOnRoute(u64, usize),
    FontsNotFound(Vec<String>),
    InitializationError(String),
    CreateWindow,
    MoveCurrentTabToNewWindow,
    MergeWindow,
    ToggleQuake,
    ToggleFullScreen,
    ToggleAppearanceTheme,
    Minimize(bool),
    Hide,
    Quit,
    HideOtherApplications,
    CreateConfigEditor,
    CloseWindow,
    SelectNativeTabByIndex(usize),
    SelectNativeTabLast,
    SelectNativeTabNext,
    SelectNativeTabPrev,
    CreateNativeTab(Option<String>),
    Title(usize, String),
}

/// What the tabs ask of the renderer.
#[derive(Clone, Copy, Debug, PartialEq, Eq, Structural)]
pub enum DrawCommand {
    /// Everything of a tab goes.
    RemoveTab(u64),
    /// Everything of a pane goes.
    RemovePane(usize),
    /// The images of a tab go.
    ClearOverlays(u64),
    /// A pane was put beside or below another one.
    SplitPane { route_id: usize, down: bool },
}

/// What came of starting a session for a pane.
pub enum Spawned {
    Session(SessionHandle),
    /// No session was asked for.
    Dead,
    Failed(String),
}

/// The tabs of a window.
pub struct ContextManager {
    pub contexts: TabRow,
    pub current_index: usize,
    pub capacity: usize,
    pub window_id: u64,
    pub config: ContextManagerConfig,
    /// When the titles were made last, in milliseconds.
    pub last_title_update: Option<u64>,
    /// The transfer that a new window waits for, and the pane that stands in
    /// for it.
    pub bootstrap_transfer: Option<(u128, usize)>,
    pub events: Vec<RioEvent>,
    pub draws: Vec<DrawCommand>,
    /// Sessions whose panes are gone, until their pumps have ended.
    pub retired: Vec<SessionHandle>,
}

/// The contents of some handles.
pub open spec fn handle_models(handles: Seq<SessionHandle>) -> Seq<HandleModel> {
    handles.map_values(|h: SessionHandle| h@)
}

/// The contents of a manager.
#[verifier::ext_equal]
pub struct ManagerModel {
    pub tabs: Seq<TabModel>,
    pub current_index: int,
    pub capacity: int,
    pub window_id: u64,
    pub config: ContextManagerConfig,
    pub last_title_update: Option<u64>,
    pub bootstrap_transfer: Option<(u128, usize)>,
    pub events: Seq<RioEvent>,
    pub draws: Seq<DrawCommand>,
    pub retired: Seq<HandleModel>,
}

impl View for ContextManager {
    type V = ManagerModel;

    open spec fn view(&self) -> ManagerModel {
        ManagerModel {
            tabs: tab_models(tabs_in(self.contexts)),
            current_index: self.current_index as int,
            capacity: self.capacity as int,
            window_id: self.window_id,
            config: self.config,
            last_title_update: self.last_title_update,
            bootstrap_transfer: self.bootstrap_transfer,
            events: self.events@,
            draws: self.draws@,
            retired: handle_models(self.retired@),
        }
    }
}

/// The sessions of the first `n` panes, closed.
pub open spec fn closed_sessions(panes: Seq<Context>, n: int) -> Seq<HandleModel>
    decreases n,
{
    if n <= 0 {
        Seq::empty()
    } else {
        match panes[n - 1].terminal@.session {
            Some(session) => closed_sessions(panes, n - 1).push(session.closing()),
            None => closed_sessions(panes, n - 1),
        }
    }
}

/// The first tab, from `from` on, that has the pane.
pub open spec fn tab_with_route(tabs: Seq<TabModel>, route_id: usize, from: int) -> Option<int>
    decreases tabs.len() - from,
{
    if from < 0 || from >= tabs.len() {
        None
    } else if tabs[from].has_route(route_id) {
        Some(from)
    } else {
        tab_with_route(tabs, route_id, from + 1)
    }
}

/// A found tab has the pane; where none is found, none has it.
pub proof fn lemma_tab_with_route(tabs: Seq<TabModel>, route_id: usize, from: int)
    requires
        0 <= from <= tabs.len(),
    ensures
        match tab_with_route(tabs, route_id, from) {
            Some(i) => from <= i < tabs.len() && tabs[i].has_route(route_id),
            None => forall|i: int|
                from <= i < tabs.len() ==> !(#[trigger] tabs[i]).has_route(route_id),
        },
    decreases tabs.len() - from,
{
    if from < tabs.len() && !tabs[from].has_route(route_id) {
        lemma_tab_with_route(tabs, route_id, from + 1);
    }
}

/// The tabs among the first `n` whose focused pane has the number.
pub open spec fn tabs_focused_on(tabs: Seq<TabModel>, route_id: usize, n: int) -> Seq<TabModel>
    decreases n,
{
    if n <= 0 {
        Seq::empty()
    } else if tabs[n - 1].current_pane().route_id == route_id {
        tabs_focused_on(tabs, route_id, n - 1).push(tabs[n - 1])
    } else {
        tabs_focused_on(tabs, route_id, n - 1)
    }
}

/// The tabs among the first `n` whose focused pane has another number.
pub open spec fn tabs_elsewhere(tabs: Seq<TabModel>, route_id: usize, n: int) -> Seq<TabModel>
    decreases n,
{
    if n <= 0 {
        Seq::empty()
    } else if tabs[n - 1].current_pane().route_id != route_id {
        tabs_elsewhere(tabs, route_id, n - 1).push(tabs[n - 1])
    } else {
        tabs_elsewhere(tabs, route_id, n - 1)
    }
}

/// The numbers of all panes of the first `n` tabs.
pub open spec fn all_routes(tabs: Seq<TabModel>, n: int) -> Seq<usize>
    decreases n,
{
    if n <= 0 {
        Seq::empty()
    } else {
        all_routes(tabs, n - 1) + routes_of(tabs[n - 1].panes)
    }
}

/// The sessions of all panes of the first `n` tabs.
pub open spec fn all_sessions(tabs: Seq<TabModel>, n: int) -> Seq<SessionHandle>
    decreases n,
{
    if n <= 0 {
        Seq::empty()
    } else {
        all_sessions(tabs, n - 1) + sessions_of(tabs[n - 1].panes, tabs[n - 1].panes.len() as int)
    }
}

/// The closed sessions of the first `n` tabs.
pub open spec fn all_closed(tabs: Seq<TabModel>, n: int) -> Seq<HandleModel>
    decreases n,
{
    if n <= 0 {
        Seq::empty()
    } else {
        all_closed(tabs, n - 1) + closed_sessions(tabs[n - 1].panes, tabs[n - 1].panes.len() as int)
    }
}

/// The removal of the first `n` tabs from the screen.
pub open spec fn removals(tabs: Seq<TabModel>, n: int) -> Seq<DrawCommand>
    decreases n,
{
    if n <= 0 {
        Seq::empty()
    } else {
        removals(tabs, n - 1).push(DrawCommand::RemoveTab(tabs[n - 1].id))
    }
}

/// The images of the first `n` tabs but one cleared.
pub open spec fn overlays_cleared(tabs: Seq<TabModel>, current: int, n: int) -> Seq<DrawCommand>
    decreases n,
{
    if n <= 0 {
        Seq::empty()
    } else if n - 1 != current {
        overlays_cleared(tabs, current, n - 1).push(DrawCommand::ClearOverlays(tabs[n - 1].id))
    } else {
        overlays_cleared(tabs, current, n - 1)
    }
}

/// Where the focus lands when the tab at `removed` goes: the focused tab falls
/// back to its left neighbour, and a tab in the background takes the focus
/// along only where it stood before the focused one.
pub open spec fn index_after_removal(current: usize, removed: usize) -> usize {
    if removed <= current && current > 0 {
        (current - 1) as usize
    } else {
        current
    }
}

pub fn current_index_after_tab_removal(current: usize, removed: usize) -> (r: usize)
    ensures
        r == index_after_removal(current, removed),
{
    if removed <= current {
        current.saturating_sub(1)
    } else {
        current
    }
}

/// The focus stays within the tabs that are left.
pub proof fn law_focus_stays_in_range(current: usize, removed: usize, len: usize)
    requires
        current < len,
        removed < len,
        len > 1,
    ensures
        index_after_removal(current, removed) < len - 1,
{
}

impl ManagerModel {
    /// The focus is on a tab, every tab has a focused pane, and all caches and
    /// sessions are sound.
    pub open spec fn well_formed(self) -> bool {
        &&& 0 <= self.current_index
        &&& self.tabs.len() > 0 ==> self.current_index < self.tabs.len()
        &&& self.tabs.len() == 0 ==> self.current_index == 0
        &&& forall|i: int| 0 <= i < self.tabs.len() ==> (#[trigger] self.tabs[i]).well_formed()
        &&& forall|i: int| 0 <= i < self.retired.len() ==> (#[trigger] self.retired[i]).well_formed()
    }

    /// The focused tab.
    pub open spec fn current_tab(self) -> TabModel {
        self.tabs[self.current_index]
    }

    /// The number of the focused pane, or zero.
    pub open spec fn current_route(self) -> usize {
        if self.tabs.len() == 0 {
            0
        } else {
            self.current_tab().current_pane().route_id
        }
    }

    /// An event sent.
    pub open spec fn sending(self, event: RioEvent) -> ManagerModel {
        ManagerModel { events: self.events.push(event), ..self }
    }

    /// A tab selected, and its title announced. One that is not there is
    /// ignored.
    pub open spec fn selecting(self, index: int) -> ManagerModel {
        if 0 <= index < self.tabs.len() {
            ManagerModel {
                current_index: index,
                events: self.events.push(
                    RioEvent::Title(
                        self.tabs[index].current_pane().route_id,
                        self.tabs[index].current_pane().title.content,
                    ),
                ),
                ..self
            }
        } else {
            self
        }
    }

    /// A tab selected by its position.
    pub open spec fn choosing(self, index: int) -> ManagerModel {
        if self.config.is_native {
            self.sending(RioEvent::SelectNativeTabByIndex(index as usize))
        } else {
            self.selecting(index)
        }
    }

    /// A tab taken out. The focus stays with its tab, or goes to the one that
    /// takes its place.
    pub open spec fn without_tab(self, index: int) -> ManagerModel {
        ManagerModel {
            tabs: self.tabs.remove(index),
            current_index: if self.tabs.len() == 1 {
                0
            } else if index < self.current_index {
                self.current_index - 1
            } else if self.current_index == self.tabs.len() - 1 && index == self.current_index {
                self.current_index - 1
            } else {
                self.current_index
            },
            ..self
        }
    }

    /// All tabs have to be drawn again.
    pub open spec fn damaged(self) -> ManagerModel {
        ManagerModel { tabs: self.tabs.map_values(|t: TabModel| t.damaged()), ..self }
    }

    /// The sessions of some panes closed and put aside.
    pub open spec fn retiring(self, panes: Seq<Context>) -> ManagerModel {
        ManagerModel {
            retired: self.retired + closed_sessions(panes, panes.len() as int),
            ..self
        }
    }

    /// Only the images of the focused tab are left.
    pub open spec fn showing_current(self) -> ManagerModel {
        ManagerModel {
            draws: self.draws + overlays_cleared(
                self.tabs,
                self.current_index,
                self.tabs.len() as int,
            ),
            ..self
        }
    }

    /// A drawing command given.
    pub open spec fn drawing(self, command: DrawCommand) -> ManagerModel {
        ManagerModel { draws: self.draws.push(command), ..self }
    }

    /// The position of the tab behind the focused one, round the end.
    pub open spec fn next_index(self) -> int {
        if self.current_index == self.tabs.len() - 1 {
            0
        } else {
            self.current_index + 1
        }
    }

    /// The position of the tab before the focused one, round the end.
    pub open spec fn previous_index(self) -> int {
        if self.current_index == 0 {
            self.tabs.len() - 1
        } else {
            self.current_index - 1
        }
    }

    /// The focused tab closed: its left neighbour gets the focus.
    pub open spec fn closing_current(self) -> ManagerModel {
        if self.tabs.len() <= 1 {
            if self.config.closes_last_tab {
                self.sending(RioEvent::CloseWindow)
            } else {
                self
            }
        } else {
            let index = self.current_index;
            let before = if index > 1 {
                self.selecting(index - 1)
            } else {
                self
            };
            let removed = (ManagerModel { tabs: self.tabs.remove(index), ..before }).drawing(
                DrawCommand::RemoveTab(self.tabs[index].id),
            ).retiring(self.tabs[index].panes);
            let behind = if index > 1 {
                removed
            } else {
                removed.selecting(0)
            };
            behind.showing_current()
        }
    }

    /// A pane gone because its program ended. A tab with others keeps them; the
    /// last pane takes its tab along.
    pub open spec fn without_route(self, route_id: usize) -> ManagerModel {
        match tab_with_route(self.tabs, route_id, 0) {
            None => self,
            Some(index) => {
                let tab = self.tabs[index];
                if tab.panes.len() > 1 {
                    let pane = pane_with_route(tab.panes, route_id, 0)->0;
                    (ManagerModel {
                        tabs: self.tabs.update(index, tab.without_pane(pane)),
                        ..self
                    }).drawing(DrawCommand::RemovePane(route_id)).retiring(seq![tab.panes[pane]])
                } else {
                    let left = self.without_tab(index).drawing(
                        DrawCommand::RemoveTab(tab.id),
                    ).retiring(tab.panes);
                    if left.tabs.len() > 0 {
                        left.showing_current()
                    } else {
                        left
                    }
                }
            },
        }
    }

    /// All tabs closed but those whose focused pane is the focused one.
    pub open spec fn only_focused(self) -> ManagerModel {
        let route = self.current_route();
        let gone = tabs_elsewhere(self.tabs, route, self.tabs.len() as int);
        (ManagerModel {
            tabs: tabs_focused_on(self.tabs, route, self.tabs.len() as int),
            draws: self.draws + removals(gone, gone.len() as int),
            retired: self.retired + all_closed(gone, gone.len() as int),
            ..self
        }).selecting(0)
    }

    /// Another pane of the focused tab gets the focus.
    pub open spec fn refocused(self, pane: int) -> ManagerModel {
        ManagerModel {
            tabs: self.tabs.update(
                self.current_index,
                TabModel { current: pane, ..self.current_tab() },
            ),
            ..self
        }
    }

    /// The focused tab exchanged with another one, which is then selected.
    pub open spec fn swapped(self, target: int) -> ManagerModel {
        (ManagerModel {
            tabs: self.tabs.update(self.current_index, self.tabs[target]).update(
                target,
                self.tabs[self.current_index],
            ),
            ..self
        }).choosing(target)
    }

    /// The focused tab moved to another position.
    pub open spec fn moved_to(self, target: int) -> ManagerModel {
        (ManagerModel {
            tabs: self.tabs.remove(self.current_index).insert(
                target,
                self.tabs[self.current_index],
            ),
            ..self
        }).selecting(target)
    }
}

proof fn lemma_tab_models_update(tabs: Seq<ContextGrid>, i: int, tab: ContextGrid)
    requires
        0 <= i < tabs.len(),
    ensures
        tab_models(tabs.update(i, tab)) == tab_models(tabs).update(i, tab@),
{
    assert(tab_models(tabs.update(i, tab)) =~= tab_models(tabs).update(i, tab@));
}

proof fn lemma_handle_models_push(handles: Seq<SessionHandle>, handle: SessionHandle)
    ensures
        handle_models(handles.push(handle)) == handle_models(handles).push(handle@),
{
    assert(handle_models(handles.push(handle)) =~= handle_models(handles).push(handle@));
}

impl ContextManager {
    fn send(&mut self, event: RioEvent)
        ensures
            final(self)@ == old(self)@.sending(event),
    {
        self.events.push(event);
        proof {
            assert(self@ =~= old(self)@.sending(event));
        }
    }

    fn draw(&mut self, command: DrawCommand)
        ensures
            final(self)@ == old(self)@.drawing(command),
    {
        self.draws.push(command);
        proof {
            assert(self@ =~= old(self)@.drawing(command));
        }
    }

    /// Closes the sessions of panes that are gone.
    pub(crate) fn retire(&mut self, panes: Vec<Context>)
        requires
            forall|i: int| 0 <= i < panes@.len() ==> (#[trigger] panes@[i]).well_formed(),
            forall|i: int|
                0 <= i < old(self)@.retired.len() ==> (#[trigger] old(self)@.retired[i]).well_formed(),
        ensures
            final(self)@ == old(self)@.retiring(panes@),
            forall|i: int|
                0 <= i < final(self)@.retired.len() ==> (#[trigger] final(self)@.retired[i]).well_formed(),
    {
        let ghost before = self@;
        let ghost given = panes@;
        let mut gone: Vec<Context> = panes;
        let mut i: usize = 0;
        proof {
            assert(before.retired + closed_sessions(given, 0) =~= before.retired);
        }
        while i < gone.len()
            invariant
                i <= gone@.len(),
                gone@.len() == given.len(),
                given == panes@,
                before == old(self)@,
                forall|k: int| 0 <= k < given.len() ==> (#[trigger] given[k]).well_formed(),
                forall|k: int| i <= k < gone@.len() ==> #[trigger] gone@[k] == given[k],
                self@ == (ManagerModel {
                    retired: before.retired + closed_sessions(given, i as int),
                    ..before
                }),
                forall|k: int|
                    0 <= k < self@.retired.len() ==> (#[trigger] self@.retired[k]).well_formed(),
            decreases gone@.len() - i,
        {
            proof {
                assert(gone@[i as int] == given[i as int]);
            }
            let pane: &mut Context = &mut gone[i];
            let closed: Option<SessionHandle> = pane.retire();
            let ghost then = self@.retired;
            if let Some(session) = closed {
                proof {
                    lemma_handle_models_push(self.retired@, session);
                    assert(before.retired + closed_sessions(given, i + 1) =~= (before.retired
                        + closed_sessions(given, i as int)).push(session@));
                }
                self.retired.push(session);
            }
            proof {
                assert(self@ =~= (ManagerModel {
                    retired: before.retired + closed_sessions(given, i + 1),
                    ..before
                }));
                assert forall|k: int| 0 <= k < self@.retired.len() implies (
                #[trigger] self@.retired[k]).well_formed() by {
                    if k < then.len() {
                        assert(self@.retired[k] == then[k]);
                    }
                }
            }
            i += 1;
        }
    }

    /// Only the images of the focused tab stay.
    pub fn keep_only_active_context_visible(&mut self)
        ensures
            final(self)@ == old(self)@.showing_current(),
    {
        let ghost before = self@;
        let mut i: usize = 0;
        proof {
            assert(before.draws + overlays_cleared(before.tabs, before.current_index, 0)
                =~= before.draws);
            assert(self@ =~= (ManagerModel { draws: before.draws, ..before }));
        }
        while i < row_len(&self.contexts)
            invariant
                i <= before.tabs.len(),
                before.tabs == tab_models(tabs_in(self.contexts)),
                before.tabs.len() == tabs_in(self.contexts).len(),
                self@ == (ManagerModel {
                    draws: before.draws + overlays_cleared(
                        before.tabs,
                        before.current_index,
                        i as int,
                    ),
                    ..before
                }),
            decreases before.tabs.len() - i,
        {
            if i != self.current_index {
                let id: u64 = row_get(&self.contexts, i).id();
                proof {
                    assert(id == before.tabs[i as int].id);
                    assert(before.draws + overlays_cleared(
                        before.tabs,
                        before.current_index,
                        i + 1,
                    ) =~= (before.draws + overlays_cleared(
                        before.tabs,
                        before.current_index,
                        i as int,
                    )).push(DrawCommand::ClearOverlays(id)));
                }
                self.draw(DrawCommand::ClearOverlays(id));
            }
            i += 1;
        }
        proof {
            assert(self@ =~= before.showing_current());
        }
    }

    /// The images of one tab go.
    pub fn clear_context_overlays(&mut self, old_index: usize)
        ensures
            final(self)@ == if old_index < old(self)@.tabs.len() {
                old(self)@.drawing(
                    DrawCommand::ClearOverlays(old(self)@.tabs[old_index as int].id),
                )
            } else {
                old(self)@
            },
    {
        if old_index < row_len(&self.contexts) {
            let id: u64 = row_get(&self.contexts, old_index).id();
            self.draw(DrawCommand::ClearOverlays(id));
        }
    }

    pub fn request_render(&mut self)
        requires
            old(self)@.well_formed(),
        ensures
            final(self)@ == old(self)@.sending(RioEvent::RenderRoute(old(self)@.current_route())),
    {
        let route: usize = self.current_route();
        self.send(RioEvent::RenderRoute(route));
    }

    pub fn blink_cursor(&mut self, scheduled_time: u64)
        requires
            old(self)@.well_formed(),
        ensures
            final(self)@ == old(self)@.sending(
                RioEvent::BlinkCursor(scheduled_time, old(self)@.current_route()),
            ),
    {
        let route: usize = self.current_route();
        self.send(RioEvent::BlinkCursor(scheduled_time, route));
    }

    pub fn schedule_render_on_route(&mut self, millis: u64)
        requires
            old(self)@.well_formed(),
        ensures
            final(self)@ == old(self)@.sending(
                RioEvent::PrepareRenderOnRoute(millis, old(self)@.current_route()),
            ),
    {
        let route: usize = self.current_route();
        self.send(RioEvent::PrepareRenderOnRoute(millis, route));
    }

    /// Reports fonts that were not found, if there are any.
    pub fn report_error_fonts_not_found(&mut self, fonts_not_found: Vec<String>)
        ensures
            final(self)@ == if fonts_not_found@.len() > 0 {
                old(self)@.sending(RioEvent::FontsNotFound(fonts_not_found))
            } else {
                old(self)@
            },
    {
        if fonts_not_found.len() > 0 {
            self.send(RioEvent::FontsNotFound(fonts_not_found));
        }
    }

    pub fn create_new_window(&mut self)
        ensures
            final(self)@ == old(self)@.sending(RioEvent::CreateWindow),
    {
        self.send(RioEvent::CreateWindow);
    }

    pub fn move_current_tab_to_new_window(&mut self)
        ensures
            final(self)@ == old(self)@.sending(RioEvent::MoveCurrentTabToNewWindow),
    {
        self.send(RioEvent::MoveCurrentTabToNewWindow);
    }

    pub fn merge_window(&mut self)
        ensures
            final(self)@ == old(self)@.sending(RioEvent::MergeWindow),
    {
        self.send(RioEvent::MergeWindow);
    }

    pub fn toggle_quake(&mut self)
        ensures
            final(self)@ == old(self)@.sending(RioEvent::ToggleQuake),
    {
        self.send(RioEvent::ToggleQuake);
    }

    pub fn toggle_full_screen(&mut self)
        ensures
            final(self)@ == old(self)@.sending(RioEvent::ToggleFullScreen),
    {
        self.send(RioEvent::ToggleFullScreen);
    }

    pub fn toggle_appearance_theme(&mut self)
        ensures
            final(self)@ == old(self)@.sending(RioEvent::ToggleAppearanceTheme),
    {
        self.send(RioEvent::ToggleAppearanceTheme);
    }

    pub fn minimize(&mut self)
        ensures
            final(self)@ == old(self)@.sending(RioEvent::Minimize(true)),
    {
        self.send(RioEvent::Minimize(true));
    }

    /// Hides the window.
    pub fn hide_window(&mut self)
        ensures
            final(self)@ == old(self)@.sending(RioEvent::Hide),
    {
        self.send(RioEvent::Hide);
    }

    pub fn quit(&mut self)
        ensures
            final(self)@ == old(self)@.sending(RioEvent::Quit),
    {
        self.send(RioEvent::Quit);
    }

    pub fn hide_other_apps(&mut self)
        ensures
            final(self)@ == old(self)@.sending(RioEvent::HideOtherApplications),
    {
        self.send(RioEvent::HideOtherApplications);
    }

    pub fn switch_to_settings(&mut self)
        ensures
            final(self)@ == old(self)@.sending(RioEvent::CreateConfigEditor),
    {
        self.send(RioEvent::CreateConfigEditor);
    }

    pub fn len(&self) -> (r: usize)
        ensures
            r == self@.tabs.len(),
    {
        row_len(&self.contexts)
    }

    pub fn is_empty(&self) -> (r: bool)
        ensures
            r == (self@.tabs.len() == 0),
    {
        row_len(&self.contexts) == 0
    }

    pub fn current_index(&self) -> (r: usize)
        ensures
            r == self@.current_index,
    {
        self.current_index
    }

    pub fn current_grid_opt(&self) -> (r: Option<&ContextGrid>)
        requires
            self@.well_formed(),
        ensures
            match r {
                Some(grid) => self@.tabs.len() > 0 && grid@ == self@.current_tab()
                    && *grid == tabs_in(self.contexts)[self.current_index as int],
                None => self@.tabs.len() == 0,
            },
    {
        if self.current_index < row_len(&self.contexts) {
            Some(row_get(&self.contexts, self.current_index))
        } else {
            None
        }
    }

    pub fn current_grid(&self) -> (r: &ContextGrid)
        requires
            self@.well_formed(),
            self@.tabs.len() > 0,
        ensures
            r@ == self@.current_tab(),
    {
        row_get(&self.contexts, self.current_index)
    }

    /// The row of all tabs.
    pub fn contexts_mut(&mut self) -> (r: &mut TabRow)
        ensures
            *r == old(self).contexts,
            final(self).contexts == *final(r),
            final(self)@ == (ManagerModel {
                tabs: tab_models(tabs_in(*final(r))),
                ..old(self)@
            }),
    {
        &mut self.contexts
    }

    pub fn current_grid_mut(&mut self) -> (r: &mut ContextGrid)
        requires
            old(self)@.well_formed(),
            old(self)@.tabs.len() > 0,
        ensures
            r@ == old(self)@.current_tab(),
            final(self)@ == (ManagerModel {
                tabs: old(self)@.tabs.update(old(self)@.current_index, final(r)@),
                ..old(self)@
            }),
            final(r)@.well_formed() ==> final(self)@.well_formed(),
    {
        let ghost tabs = tabs_in(self.contexts);
        let ghost before = self@;
        proof {
            assert(forall|g: ContextGrid|
                #![trigger tabs.update(self.current_index as int, g)]
                tab_models(tabs.update(self.current_index as int, g)) =~= tab_models(tabs).update(
                    self.current_index as int,
                    g@,
                ));
            assert(forall|g: TabModel|
                #![trigger before.tabs.update(before.current_index, g)]
                g.well_formed() ==> (ManagerModel {
                    tabs: before.tabs.update(before.current_index, g),
                    ..before
                }).well_formed());
        }
        row_get_mut(&mut self.contexts, self.current_index)
    }

    pub fn current(&self) -> (r: &Context)
        requires
            self@.well_formed(),
            self@.tabs.len() > 0,
        ensures
            *r == self@.current_tab().current_pane(),
    {
        row_get(&self.contexts, self.current_index).current()
    }

    pub fn current_mut(&mut self) -> (r: &mut Context)
        requires
            old(self)@.well_formed(),
            old(self)@.tabs.len() > 0,
        ensures
            *r == old(self)@.current_tab().current_pane(),
            final(self)@ == (ManagerModel {
                tabs: old(self)@.tabs.update(
                    old(self)@.current_index,
                    TabModel {
                        panes: old(self)@.current_tab().panes.update(
                            old(self)@.current_tab().current,
                            *final(r),
                        ),
                        ..old(self)@.current_tab()
                    },
                ),
                ..old(self)@
            }),
            final(r).well_formed() ==> final(self)@.well_formed(),
    {
        self.current_grid_mut().current_mut()
    }

    /// The number of the focused pane, or zero where there is none.
    pub fn current_route(&self) -> (r: usize)
        requires
            self@.well_formed(),
        ensures
            r == self@.current_route(),
    {
        match self.current_grid_opt() {
            Some(grid) => grid.current().route_id,
            None => 0,
        }
    }

    /// Selects a tab and announces its title; one that is not there is ignored.
    pub fn set_current(&mut self, context_id: usize)
        requires
            forall|i: int|
                0 <= i < old(self)@.tabs.len() ==> (#[trigger] old(self)@.tabs[i]).well_formed(),
        ensures
            final(self)@ == old(self)@.selecting(context_id as int),
    {
        if context_id < row_len(&self.contexts) {
            proof {
                assert(self@.tabs[context_id as int].well_formed());
            }
            self.current_index = context_id;
            let (route, title): (usize, String) = {
                let current: &Context = row_get(&self.contexts, context_id).current();
                (current.route_id, current.title.content.clone())
            };
            self.send(RioEvent::Title(route, title));
            proof {
                assert(self@ =~= old(self)@.selecting(context_id as int));
            }
        }
    }

    pub fn select_tab(&mut self, tab_index: usize)
        requires
            forall|i: int|
                0 <= i < old(self)@.tabs.len() ==> (#[trigger] old(self)@.tabs[i]).well_formed(),
        ensures
            final(self)@ == old(self)@.choosing(tab_index as int),
    {
        if self.config.is_native {
            self.send(RioEvent::SelectNativeTabByIndex(tab_index));
        } else {
            self.set_current(tab_index);
        }
    }

    pub fn select_last_tab(&mut self)
        requires
            old(self)@.well_formed(),
        ensures
            final(self)@.well_formed(),
            final(self)@ == if old(self)@.tabs.len() == 0 {
                old(self)@
            } else if old(self)@.config.is_native {
                old(self)@.sending(RioEvent::SelectNativeTabLast)
            } else {
                old(self)@.selecting(old(self)@.tabs.len() - 1)
            },
    {
        if self.is_empty() {
            return;
        }
        if self.config.is_native {
            self.send(RioEvent::SelectNativeTabLast);
            return;
        }
        let last: usize = row_len(&self.contexts) - 1;
        self.set_current(last);
    }

    pub fn switch_to_next(&mut self)
        requires
            old(self)@.well_formed(),
        ensures
            final(self)@.well_formed(),
            final(self)@ == if old(self)@.tabs.len() == 0 {
                old(self)@
            } else if old(self)@.config.is_native {
                old(self)@.sending(RioEvent::SelectNativeTabNext)
            } else {
                old(self)@.selecting(old(self)@.next_index())
            },
    {
        if self.is_empty() {
            return;
        }
        if self.config.is_native {
            self.send(RioEvent::SelectNativeTabNext);
            return;
        }
        let next: usize = if row_len(&self.contexts) - 1 == self.current_index {
            0
        } else {
            self.current_index + 1
        };
        self.set_current(next);
    }

    pub fn switch_to_prev(&mut self)
        requires
            old(self)@.well_formed(),
        ensures
            final(self)@.well_formed(),
            final(self)@ == if old(self)@.tabs.len() == 0 {
                old(self)@
            } else if old(self)@.config.is_native {
                old(self)@.sending(RioEvent::SelectNativeTabPrev)
            } else {
                old(self)@.selecting(old(self)@.previous_index())
            },
    {
        if self.is_empty() {
            return;
        }
        if self.config.is_native {
            self.send(RioEvent::SelectNativeTabPrev);
            return;
        }
        let previous: usize = if self.current_index == 0 {
            row_len(&self.contexts) - 1
        } else {
            self.current_index - 1
        };
        self.set_current(previous);
    }

    /// Exchanges the focused tab with another one, and selects it there.
    fn swap_current(&mut self, target: usize)
        requires
            old(self)@.well_formed(),
            target < old(self)@.tabs.len(),
            target != old(self)@.current_index,
        ensures
            final(self)@.well_formed(),
            final(self)@ == old(self)@.swapped(target as int),
    {
        let ghost before = self@;
        let current: usize = self.current_index;
        let ghost tabs = tabs_in(self.contexts);
        let (low, high): (usize, usize) = if current < target {
            (current, target)
        } else {
            (target, current)
        };
        let upper: ContextGrid = row_remove(&mut self.contexts, high);
        let lower: ContextGrid = row_remove(&mut self.contexts, low);
        row_insert(&mut self.contexts, low, upper);
        row_insert(&mut self.contexts, high, lower);
        proof {
            assert(tabs_in(self.contexts) =~= tabs.update(
                current as int,
                tabs[target as int],
            ).update(target as int, tabs[current as int]));
            assert(self@.tabs =~= before.tabs.update(
                current as int,
                before.tabs[target as int],
            ).update(target as int, before.tabs[current as int]));
            assert(self@ =~= (ManagerModel { tabs: self@.tabs, ..before }));
            assert forall|i: int| 0 <= i < self@.tabs.len() implies (
            #[trigger] self@.tabs[i]).well_formed() by {
                assert(before.tabs[i].well_formed());
                assert(before.tabs[target as int].well_formed());
                assert(before.tabs[current as int].well_formed());
            }
        }
        self.select_tab(target);
    }

    pub fn move_current_to_prev(&mut self)
        requires
            old(self)@.well_formed(),
        ensures
            final(self)@.well_formed(),
            final(self)@ == if old(self)@.tabs.len() <= 1 {
                old(self)@
            } else {
                old(self)@.swapped(old(self)@.previous_index())
            },
    {
        let len: usize = row_len(&self.contexts);
        if len <= 1 {
            return;
        }
        let target: usize = if self.current_index == 0 {
            len - 1
        } else {
            self.current_index - 1
        };
        self.swap_current(target);
    }

    pub fn move_current_to_next(&mut self)
        requires
            old(self)@.well_formed(),
        ensures
            final(self)@.well_formed(),
            final(self)@ == if old(self)@.tabs.len() <= 1 {
                old(self)@
            } else {
                old(self)@.swapped(old(self)@.next_index())
            },
    {
        let len: usize = row_len(&self.contexts);
        if len <= 1 {
            return;
        }
        let target: usize = if self.current_index == len - 1 {
            0
        } else {
            self.current_index + 1
        };
        self.swap_current(target);
    }

    /// Moves the focused tab to a position; the ones in between make room.
    pub fn move_current_tab_to(&mut self, target: usize)
        requires
            old(self)@.well_formed(),
        ensures
            final(self)@.well_formed(),
            final(self)@ == if old(self)@.config.is_native || target == old(self)@.current_index
                || target >= old(self)@.tabs.len() {
                old(self)@
            } else {
                old(self)@.moved_to(target as int)
            },
    {
        let ghost before = self@;
        if self.config.is_native {
            return;
        }
        let current: usize = self.current_index;
        if target == current || target >= row_len(&self.contexts) {
            return;
        }
        let ghost tabs = tabs_in(self.contexts);
        let grid: ContextGrid = row_remove(&mut self.contexts, current);
        row_insert(&mut self.contexts, target, grid);
        proof {
            assert(self@.tabs =~= before.tabs.remove(current as int).insert(
                target as int,
                before.tabs[current as int],
            ));
            assert(self@ =~= (ManagerModel { tabs: self@.tabs, ..before }));
            assert forall|i: int| 0 <= i < self@.tabs.len() implies (
            #[trigger] self@.tabs[i]).well_formed() by {
                assert(before.tabs[current as int].well_formed());
                let rest = before.tabs.remove(current as int);
                if i < target {
                    assert(self@.tabs[i] == rest[i]);
                    assert(before.tabs[if i < current { i } else { i + 1 }].well_formed());
                } else if i > target {
                    assert(self@.tabs[i] == rest[i - 1]);
                    assert(before.tabs[if i - 1 < current { i - 1 } else { i }].well_formed());
                }
            }
        }
        self.set_current(target);
    }
}

/// The panes of the first `n` tabs that show a session.
pub open spec fn any_shows(tabs: Seq<TabModel>, session_id: u128, n: int) -> bool {
    exists|i: int| 0 <= i < n && #[trigger] tab_shows(tabs[i], session_id)
}

/// A pane of the tab shows the session.
pub open spec fn tab_shows(tab: TabModel, session_id: u128) -> bool {
    shows_session(tab.panes, session_id, tab.panes.len() as int)
}

/// The first tab, from `from` on, with the given identity.
pub open spec fn tab_with_id(tabs: Seq<TabModel>, id: u64, from: int) -> Option<int>
    decreases tabs.len() - from,
{
    if from < 0 || from >= tabs.len() {
        None
    } else if tabs[from].id == id {
        Some(from)
    } else {
        tab_with_id(tabs, id, from + 1)
    }
}

/// An optional position.
pub open spec fn is_position(r: Option<usize>, at: Option<int>) -> bool {
    match (r, at) {
        (Some(i), Some(at)) => i == at,
        (None, None) => true,
        _ => false,
    }
}

impl ContextManager {
    pub fn tab_index(&self, tab_id: u64) -> (r: Option<usize>)
        ensures
            is_position(r, tab_with_id(self@.tabs, tab_id, 0)),
            r matches Some(i) ==> i < self@.tabs.len() && self@.tabs[i as int].id == tab_id,
    {
        let mut i: usize = 0;
        while i < row_len(&self.contexts)
            invariant
                i <= self@.tabs.len(),
                tab_with_id(self@.tabs, tab_id, 0) == tab_with_id(self@.tabs, tab_id, i as int),
            decreases self@.tabs.len() - i,
        {
            if row_get(&self.contexts, i).id() == tab_id {
                return Some(i);
            }
            i += 1;
        }
        None
    }

    pub fn tab_id_at(&self, index: usize) -> (r: Option<u64>)
        ensures
            r == if index < self@.tabs.len() {
                Some(self@.tabs[index as int].id)
            } else {
                None
            },
    {
        if index < row_len(&self.contexts) {
            Some(row_get(&self.contexts, index).id())
        } else {
            None
        }
    }

    pub fn title(&self, index: usize) -> (r: Option<&ContextTitle>)
        requires
            self@.well_formed(),
        ensures
            match r {
                Some(title) => index < self@.tabs.len() && *title
                    == self@.tabs[index as int].current_pane().title,
                None => index >= self@.tabs.len(),
            },
    {
        if index < row_len(&self.contexts) {
            proof {
                assert(self@.tabs[index as int].well_formed());
            }
            Some(&row_get(&self.contexts, index).current().title)
        } else {
            None
        }
    }

    pub fn custom_title(&self, index: usize) -> (r: Option<&str>)
        ensures
            match (r, if index < self@.tabs.len() {
                self@.tabs[index as int].custom_title
            } else {
                None
            }) {
                (Some(text), Some(title)) => text@ == title@,
                (None, None) => true,
                _ => false,
            },
    {
        if index < row_len(&self.contexts) {
            match &row_get(&self.contexts, index).custom_title {
                Some(title) => Some(title.as_str()),
                None => None,
            }
        } else {
            None
        }
    }

    pub fn set_custom_title(&mut self, index: usize, title: Option<String>)
        requires
            old(self)@.well_formed(),
        ensures
            final(self)@.well_formed(),
            final(self)@ == if index < old(self)@.tabs.len() {
                ManagerModel {
                    tabs: old(self)@.tabs.update(
                        index as int,
                        TabModel { custom_title: title, ..old(self)@.tabs[index as int] },
                    ),
                    ..old(self)@
                }
            } else {
                old(self)@
            },
    {
        if index < row_len(&self.contexts) {
            let ghost before = self@;
            let ghost tabs = tabs_in(self.contexts);
            let grid: &mut ContextGrid = row_get_mut(&mut self.contexts, index);
            grid.custom_title = title;
            proof {
                assert(before.tabs[index as int].well_formed());
                assert(self@ =~= (ManagerModel {
                    tabs: before.tabs.update(
                        index as int,
                        TabModel { custom_title: title, ..before.tabs[index as int] },
                    ),
                    ..before
                }));
            }
        }
    }

    pub fn custom_color(&self, index: usize) -> (r: Option<ColorBits>)
        ensures
            r == if index < self@.tabs.len() {
                self@.tabs[index as int].custom_color
            } else {
                None
            },
    {
        if index < row_len(&self.contexts) {
            row_get(&self.contexts, index).custom_color
        } else {
            None
        }
    }

    pub fn set_custom_color(&mut self, index: usize, color: Option<ColorBits>)
        requires
            old(self)@.well_formed(),
        ensures
            final(self)@.well_formed(),
            final(self)@ == if index < old(self)@.tabs.len() {
                ManagerModel {
                    tabs: old(self)@.tabs.update(
                        index as int,
                        TabModel { custom_color: color, ..old(self)@.tabs[index as int] },
                    ),
                    ..old(self)@
                }
            } else {
                old(self)@
            },
    {
        if index < row_len(&self.contexts) {
            let ghost before = self@;
            let grid: &mut ContextGrid = row_get_mut(&mut self.contexts, index);
            grid.custom_color = color;
            proof {
                assert(before.tabs[index as int].well_formed());
                assert(self@ =~= (ManagerModel {
                    tabs: before.tabs.update(
                        index as int,
                        TabModel { custom_color: color, ..before.tabs[index as int] },
                    ),
                    ..before
                }));
            }
        }
    }

    /// The position of the tab that has a pane, hidden or not.
    pub fn grid_index_for_route(&self, route_id: usize) -> (r: Option<usize>)
        ensures
            is_position(r, tab_with_route(self@.tabs, route_id, 0)),
            r matches Some(i) ==> i < self@.tabs.len() && self@.tabs[i as int].has_route(route_id),
    {
        let mut i: usize = 0;
        while i < row_len(&self.contexts)
            invariant
                i <= self@.tabs.len(),
                tab_with_route(self@.tabs, route_id, 0) == tab_with_route(
                    self@.tabs,
                    route_id,
                    i as int,
                ),
            decreases self@.tabs.len() - i,
        {
            if row_get(&self.contexts, i).contains_route_id(route_id) {
                return Some(i);
            }
            i += 1;
        }
        None
    }

    pub fn contains_route_id(&self, route_id: usize) -> (r: bool)
        ensures
            r == (tab_with_route(self@.tabs, route_id, 0) is Some),
    {
        self.grid_index_for_route(route_id).is_some()
    }

    /// The pane with a number, on whichever tab it is.
    pub fn get_by_route_id(&mut self, route_id: usize) -> (r: Option<&mut Context>)
        requires
            old(self)@.well_formed(),
        ensures
            match (r, tab_with_route(old(self)@.tabs, route_id, 0)) {
                (Some(context), Some(t)) => {
                    let tab = old(self)@.tabs[t];
                    let p = pane_with_route(tab.panes, route_id, 0)->0;
                    &&& 0 <= t < old(self)@.tabs.len()
                    &&& 0 <= p < tab.panes.len()
                    &&& *context == tab.panes[p]
                    &&& context.route_id == route_id
                    &&& final(self)@ == (ManagerModel {
                        tabs: old(self)@.tabs.update(
                            t,
                            TabModel { panes: tab.panes.update(p, *final(context)), ..tab },
                        ),
                        ..old(self)@
                    })
                },
                (None, None) => final(self)@ == old(self)@,
                _ => false,
            },
    {
        match self.grid_index_for_route(route_id) {
            Some(t) => {
                let ghost before = self@;
                let ghost tabs = tabs_in(self.contexts);
                proof {
                    assert(before.tabs[t as int].well_formed());
                    lemma_tab_with_route(before.tabs, route_id, 0);
                    assert(forall|g: ContextGrid|
                        #![trigger tabs.update(t as int, g)]
                        tab_models(tabs.update(t as int, g)) =~= tab_models(tabs).update(
                            t as int,
                            g@,
                        ));
                }
                let index: Option<usize> = row_get(&self.contexts, t).index_of_route(route_id);
                match index {
                    Some(p) => {
                        let grid: &mut ContextGrid = row_get_mut(&mut self.contexts, t);
                        Some(&mut grid.panes[p])
                    },
                    None => None,
                }
            },
            None => None,
        }
    }

    pub fn owns_session_id(&self, session_id: u128) -> (r: bool)
        ensures
            r == any_shows(self@.tabs, session_id, self@.tabs.len() as int),
    {
        let mut i: usize = 0;
        while i < row_len(&self.contexts)
            invariant
                i <= self@.tabs.len(),
                !any_shows(self@.tabs, session_id, i as int),
            decreases self@.tabs.len() - i,
        {
            if row_get(&self.contexts, i).owns_session_id(session_id) {
                proof {
                    assert(tab_shows(self@.tabs[i as int], session_id));
                }
                return true;
            }
            i += 1;
        }
        false
    }

    /// The sessions of all panes.
    pub fn session_handles(&self) -> (r: Vec<&SessionHandle>)
        ensures
            referred(r@) == all_sessions(self@.tabs, self@.tabs.len() as int),
    {
        let mut out: Vec<&SessionHandle> = Vec::new();
        let mut i: usize = 0;
        proof {
            assert(referred(out@) =~= Seq::<SessionHandle>::empty());
        }
        while i < row_len(&self.contexts)
            invariant
                i <= self@.tabs.len(),
                referred(out@) == all_sessions(self@.tabs, i as int),
            decreases self@.tabs.len() - i,
        {
            let mut sessions: Vec<&SessionHandle> = row_get(&self.contexts, i).session_handles();
            proof {
                assert(referred(out@ + sessions@) =~= referred(out@) + referred(sessions@));
            }
            out.append(&mut sessions);
            i += 1;
        }
        out
    }

    pub fn route_ids(&self) -> (r: Vec<usize>)
        ensures
            r@ == all_routes(self@.tabs, self@.tabs.len() as int),
    {
        let mut out: Vec<usize> = Vec::new();
        let mut i: usize = 0;
        while i < row_len(&self.contexts)
            invariant
                i <= self@.tabs.len(),
                out@ == all_routes(self@.tabs, i as int),
            decreases self@.tabs.len() - i,
        {
            let mut routes: Vec<usize> = row_get(&self.contexts, i).route_ids();
            out.append(&mut routes);
            i += 1;
        }
        out
    }

    pub(crate) fn mark_all_full_damage(&mut self)
        requires
            old(self)@.well_formed(),
        ensures
            final(self)@.well_formed(),
            final(self)@ == old(self)@.damaged(),
    {
        let ghost before = self@;
        let mut i: usize = 0;
        while i < row_len(&self.contexts)
            invariant
                i <= before.tabs.len(),
                before.well_formed(),
                tabs_in(self.contexts).len() == before.tabs.len(),
                self@ == (ManagerModel { tabs: self@.tabs, ..before }),
                forall|k: int|
                    0 <= k < i ==> (#[trigger] self@.tabs[k]) == before.tabs[k].damaged()
                        && self@.tabs[k].well_formed(),
                forall|k: int| i <= k < before.tabs.len() ==> #[trigger] self@.tabs[k] == before.tabs[k],
            decreases before.tabs.len() - i,
        {
            let ghost tabs = tabs_in(self.contexts);
            let ghost now = self@;
            proof {
                assert(self@.tabs[i as int] == before.tabs[i as int]);
                assert(before.tabs[i as int].well_formed());
            }
            let grid: &mut ContextGrid = row_get_mut(&mut self.contexts, i);
            grid.mark_full_damage();
            proof {
                lemma_tab_models_update(tabs, i as int, tabs_in(self.contexts)[i as int]);
                assert(self@.tabs =~= now.tabs.update(i as int, before.tabs[i as int].damaged()));
                assert(self@ =~= (ManagerModel { tabs: self@.tabs, ..before }));
            }
            i += 1;
        }
        proof {
            assert(self@ =~= before.damaged());
        }
    }

    /// Takes a tab out. The focus stays with its tab, or goes to the one that
    /// takes its place.
    pub(crate) fn take_tab(&mut self, index: usize) -> (r: ContextGrid)
        requires
            old(self)@.well_formed(),
            index < old(self)@.tabs.len(),
        ensures
            final(self)@.well_formed(),
            r@ == old(self)@.tabs[index as int],
            r@.well_formed(),
            final(self)@ == old(self)@.without_tab(index as int),
    {
        let ghost before = self@;
        let grid: ContextGrid = row_remove(&mut self.contexts, index);
        self.update_selection_after_grid_removal(index);
        proof {
            assert(before.tabs[index as int].well_formed());
            assert(self@.tabs =~= before.tabs.remove(index as int));
            assert(self@ =~= before.without_tab(index as int));
            assert forall|i: int| 0 <= i < self@.tabs.len() implies (
            #[trigger] self@.tabs[i]).well_formed() by {
                assert(before.tabs[if i < index { i } else { i + 1 }].well_formed());
            }
        }
        grid
    }

    fn update_selection_after_grid_removal(&mut self, removed_index: usize)
        requires
            old(self)@.current_index <= old(self)@.tabs.len(),
            removed_index <= old(self)@.tabs.len(),
        ensures
            final(self)@ == (ManagerModel {
                current_index: if old(self)@.tabs.len() == 0 {
                    0
                } else if removed_index < old(self)@.current_index {
                    old(self)@.current_index - 1
                } else if removed_index == old(self)@.current_index && removed_index
                    == old(self)@.tabs.len() {
                    old(self)@.current_index - 1
                } else {
                    old(self)@.current_index
                },
                ..old(self)@
            }),
    {
        let len: usize = row_len(&self.contexts);
        if len == 0 {
            self.current_index = 0;
        } else if removed_index < self.current_index {
            self.current_index -= 1;
        } else if removed_index == self.current_index {
            self.current_index = if removed_index < len - 1 {
                removed_index
            } else {
                len - 1
            };
        }
        proof {
            assert(self@.tabs == old(self)@.tabs);
        }
    }

    /// A pane's program ended: the pane goes, and with its last pane the tab.
    /// The result says whether the window has no tab left. A pane that is
    /// already gone changes nothing.
    pub fn should_close_context_manager(&mut self, route_id: usize) -> (r: bool)
        requires
            old(self)@.well_formed(),
        ensures
            final(self)@.well_formed(),
            final(self)@ == old(self)@.without_route(route_id),
            r == (final(self)@.tabs.len() == 0),
    {
        let ghost before = self@;
        match self.grid_index_for_route(route_id) {
            None => self.is_empty(),
            Some(index) => {
                proof {
                    lemma_tab_with_route(before.tabs, route_id, 0);
                    assert(before.tabs[index as int].well_formed());
                }
                if row_get(&self.contexts, index).len() > 1 {
                    self.remove_pane_at(index, route_id);
                    return false;
                }
                let id: u64 = row_get(&self.contexts, index).id();
                let grid: ContextGrid = self.take_tab(index);
                self.draw(DrawCommand::RemoveTab(id));
                self.retire(grid.panes);
                if !self.is_empty() {
                    self.keep_only_active_context_visible();
                }
                self.is_empty()
            },
        }
    }

    /// Takes a pane out of a tab with others, and closes its session.
    pub(crate) fn remove_pane_at(&mut self, index: usize, route_id: usize)
        requires
            old(self)@.well_formed(),
            index < old(self)@.tabs.len(),
            old(self)@.tabs[index as int].panes.len() > 1,
            old(self)@.tabs[index as int].has_route(route_id),
        ensures
            final(self)@.well_formed(),
            ({
                let tab = old(self)@.tabs[index as int];
                let pane = pane_with_route(tab.panes, route_id, 0)->0;
                final(self)@ == (ManagerModel {
                    tabs: old(self)@.tabs.update(index as int, tab.without_pane(pane)),
                    ..old(self)@
                }).drawing(DrawCommand::RemovePane(route_id)).retiring(seq![tab.panes[pane]])
            }),
    {
        let ghost before = self@;
        let ghost tabs = tabs_in(self.contexts);
        proof {
            assert(before.tabs[index as int].well_formed());
        }
        let found: Option<usize> = row_get(&self.contexts, index).index_of_route(route_id);
        if let Some(pane) = found {
            let grid: &mut ContextGrid = row_get_mut(&mut self.contexts, index);
            let removed: Context = grid.remove_pane(pane);
            proof {
                lemma_tab_models_update(tabs, index as int, tabs_in(self.contexts)[index as int]);
                assert(self@ =~= (ManagerModel {
                    tabs: before.tabs.update(
                        index as int,
                        before.tabs[index as int].without_pane(pane as int),
                    ),
                    ..before
                }));
            }
            self.draw(DrawCommand::RemovePane(route_id));
            let mut gone: Vec<Context> = Vec::new();
            gone.push(removed);
            proof {
                assert(gone@ =~= seq![removed]);
            }
            self.retire(gone);
        }
    }
}

proof fn lemma_focused_sound(tabs: Seq<TabModel>, route_id: usize, n: int)
    requires
        0 <= n <= tabs.len(),
        forall|i: int| 0 <= i < tabs.len() ==> (#[trigger] tabs[i]).well_formed(),
    ensures
        forall|i: int|
            0 <= i < tabs_focused_on(tabs, route_id, n).len() ==> (#[trigger] tabs_focused_on(
                tabs,
                route_id,
                n,
            )[i]).well_formed(),
    decreases n,
{
    if n > 0 {
        lemma_focused_sound(tabs, route_id, n - 1);
        assert(tabs[n - 1].well_formed());
        let before = tabs_focused_on(tabs, route_id, n - 1);
        let now = tabs_focused_on(tabs, route_id, n);
        assert forall|i: int| 0 <= i < now.len() implies (#[trigger] now[i]).well_formed() by {
            if i < before.len() {
                assert(now[i] == before[i]);
            } else {
                assert(now[i] == tabs[n - 1]);
            }
        }
    }
}

proof fn lemma_focused_contains(tabs: Seq<TabModel>, route_id: usize, n: int, i: int)
    requires
        0 <= i < n <= tabs.len(),
        tabs[i].current_pane().route_id == route_id,
    ensures
        tabs_focused_on(tabs, route_id, n).len() > 0,
    decreases n,
{
    if i < n - 1 {
        lemma_focused_contains(tabs, route_id, n - 1, i);
    }
}

impl ContextManager {
    /// Closes all tabs but the focused one. The result is the numbers of the
    /// panes that are gone.
    #[verifier::rlimit(40)]
    pub fn close_unfocused_tabs(&mut self) -> (r: Vec<usize>)
        requires
            old(self)@.well_formed(),
            old(self)@.tabs.len() > 0,
        ensures
            final(self)@.well_formed(),
            final(self)@ == old(self)@.only_focused(),
            ({
                let gone = tabs_elsewhere(
                    old(self)@.tabs,
                    old(self)@.current_route(),
                    old(self)@.tabs.len() as int,
                );
                r@ == all_routes(gone, gone.len() as int)
            }),
    {
        let ghost before = self@;
        let route: usize = self.current_route();
        let total: usize = row_len(&self.contexts);
        let ghost n = total as int;
        let mut removed: Vec<usize> = Vec::new();
        let mut i: usize = 0;
        let mut seen: usize = 0;
        proof {
            assert(before.tabs.skip(0) =~= before.tabs);
            assert(tabs_focused_on(before.tabs, route, 0) + before.tabs.skip(0) =~= before.tabs);
            assert(before.draws + removals(tabs_elsewhere(before.tabs, route, 0), 0)
                =~= before.draws);
            assert(before.retired + all_closed(tabs_elsewhere(before.tabs, route, 0), 0)
                =~= before.retired);
            assert(self@ =~= (ManagerModel {
                tabs: before.tabs,
                draws: before.draws,
                retired: before.retired,
                ..before
            }));
        }
        while seen < total
            invariant
                i <= seen <= total,
                total == before.tabs.len(),
                before.well_formed(),
                before == old(self)@,
                i == tabs_focused_on(before.tabs, route, seen as int).len(),
                removed@ == all_routes(
                    tabs_elsewhere(before.tabs, route, seen as int),
                    tabs_elsewhere(before.tabs, route, seen as int).len() as int,
                ),
                self@ == (ManagerModel {
                    tabs: tabs_focused_on(before.tabs, route, seen as int) + before.tabs.skip(
                        seen as int,
                    ),
                    draws: before.draws + removals(
                        tabs_elsewhere(before.tabs, route, seen as int),
                        tabs_elsewhere(before.tabs, route, seen as int).len() as int,
                    ),
                    retired: before.retired + all_closed(
                        tabs_elsewhere(before.tabs, route, seen as int),
                        tabs_elsewhere(before.tabs, route, seen as int).len() as int,
                    ),
                    ..before
                }),
                forall|k: int|
                    0 <= k < self@.retired.len() ==> (#[trigger] self@.retired[k]).well_formed(),
            decreases total - seen,
        {
            let ghost now = self@;
            assert(forall|k: int|
                0 <= k < now.retired.len() ==> (#[trigger] now.retired[k]).well_formed());
            let ghost kept = tabs_focused_on(before.tabs, route, seen as int);
            let ghost gone = tabs_elsewhere(before.tabs, route, seen as int);
            proof {
                let rest = before.tabs.skip(seen as int);
                assert(rest.len() == total - seen);
                assert(rest[0] == before.tabs[seen as int]);
                assert(now.tabs == kept + rest);
                assert((kept + rest)[i as int] == rest[0]);
                assert(now.tabs.len() == tabs_in(self.contexts).len());
                assert(now.tabs[i as int] == before.tabs[seen as int]);
                assert(before.tabs[seen as int].well_formed());
                assert(tabs_in(self.contexts)[i as int]@ == now.tabs[i as int]);
            }
            if row_get(&self.contexts, i).current().route_id == route {
                proof {
                    assert(kept.push(before.tabs[seen as int]) + before.tabs.skip(seen + 1)
                        =~= kept + before.tabs.skip(seen as int));
                    assert(tabs_elsewhere(before.tabs, route, seen + 1) == gone);
                }
                i += 1;
            } else {
                let ghost tab = before.tabs[seen as int];
                let ghost all = gone.push(tab);
                let grid: ContextGrid = row_remove(&mut self.contexts, i);
                let mut routes: Vec<usize> = grid.route_ids();
                removed.append(&mut routes);
                let id: u64 = grid.id();
                proof {
                    assert(tabs_elsewhere(before.tabs, route, seen + 1) == all);
                    assert(tabs_focused_on(before.tabs, route, seen + 1) == kept);
                    assert(self@.tabs =~= now.tabs.remove(i as int));
                    assert((kept + before.tabs.skip(seen as int)).remove(i as int) =~= kept
                        + before.tabs.skip(seen + 1));
                    lemma_prefix_facts(gone, tab);
                }
                self.draw(DrawCommand::RemoveTab(id));
                proof {
                    assert(self@.retired == now.retired);
                    assert forall|k: int| 0 <= k < self@.retired.len() implies (
                    #[trigger] self@.retired[k]).well_formed() by {
                        assert(now.retired[k].well_formed());
                    }
                }
                self.retire(grid.panes);
                proof {
                    assert(self@.draws =~= before.draws + removals(all, all.len() as int));
                    assert(self@.retired =~= before.retired + all_closed(all, all.len() as int));
                    assert(self@ =~= (ManagerModel {
                        tabs: kept + before.tabs.skip(seen + 1),
                        draws: before.draws + removals(all, all.len() as int),
                        retired: before.retired + all_closed(all, all.len() as int),
                        ..before
                    }));
                }
            }
            seen += 1;
        }
        proof {
            let kept = tabs_focused_on(before.tabs, route, n);
            assert(kept + before.tabs.skip(n) =~= kept);
            lemma_focused_sound(before.tabs, route, n);
            lemma_focused_contains(before.tabs, route, n, before.current_index);
        }
        self.set_current(0);
        removed
    }

    /// Closes the focused tab, unless it is the only one.
    pub fn close_current_context(&mut self)
        requires
            old(self)@.well_formed(),
        ensures
            final(self)@.well_formed(),
            final(self)@ == old(self)@.closing_current(),
    {
        let ghost before = self@;
        if row_len(&self.contexts) <= 1 {
            if self.config.closes_last_tab {
                self.send(RioEvent::CloseWindow);
            }
            return;
        }
        let index: usize = self.current_index;
        let mut first: bool = false;
        if index > 1 {
            self.set_current(index - 1);
        } else {
            first = true;
        }
        let ghost selected = self@;
        let grid: ContextGrid = row_remove(&mut self.contexts, index);
        proof {
            assert(before.tabs[index as int].well_formed());
            assert(self@.tabs =~= before.tabs.remove(index as int));
            assert(self@ =~= (ManagerModel { tabs: before.tabs.remove(index as int), ..selected }));
            assert forall|i: int| 0 <= i < self@.tabs.len() implies (
            #[trigger] self@.tabs[i]).well_formed() by {
                assert(before.tabs[if i < index { i } else { i + 1 }].well_formed());
            }
        }
        let id: u64 = grid.id();
        self.draw(DrawCommand::RemoveTab(id));
        self.retire(grid.panes);
        if first {
            self.set_current(0);
        }
        self.keep_only_active_context_visible();
    }

    /// Notes when a key was typed.
    pub fn set_last_typing(&mut self, now: u64)
        requires
            old(self)@.well_formed(),
            old(self)@.tabs.len() > 0,
        ensures
            final(self)@.well_formed(),
            final(self)@.tabs.len() == old(self)@.tabs.len(),
            final(self)@.current_tab().current_pane() == (Context {
                renderable_content: crate::context::renderable::RenderableContent {
                    last_typing: Some(now),
                    ..old(self)@.current_tab().current_pane().renderable_content
                },
                ..old(self)@.current_tab().current_pane()
            }),
            final(self)@ == (ManagerModel {
                tabs: old(self)@.tabs.update(
                    old(self)@.current_index,
                    TabModel {
                        panes: old(self)@.current_tab().panes.update(
                            old(self)@.current_tab().current,
                            final(self)@.current_tab().current_pane(),
                        ),
                        ..old(self)@.current_tab()
                    },
                ),
                ..old(self)@
            }),
    {
        proof {
            assert(self@.tabs[self@.current_index].well_formed());
            assert(self@.current_tab().current_pane().well_formed());
        }
        let current: &mut Context = self.current_mut();
        current.renderable_content.last_typing = Some(now);
    }

    pub fn select_next_split(&mut self)
        requires
            old(self)@.well_formed(),
            old(self)@.tabs.len() > 0,
        ensures
            final(self)@.well_formed(),
            final(self)@ == old(self)@.refocused(
                if old(self)@.current_tab().current + 1 == old(self)@.current_tab().panes.len() {
                    0
                } else {
                    old(self)@.current_tab().current + 1
                },
            ),
    {
        proof {
            assert(self@.tabs[self@.current_index].well_formed());
        }
        self.current_grid_mut().select_next_split();
    }

    pub fn select_prev_split(&mut self)
        requires
            old(self)@.well_formed(),
            old(self)@.tabs.len() > 0,
        ensures
            final(self)@.well_formed(),
            final(self)@ == old(self)@.refocused(
                if old(self)@.current_tab().current == 0 {
                    old(self)@.current_tab().panes.len() - 1
                } else {
                    old(self)@.current_tab().current - 1
                },
            ),
    {
        proof {
            assert(self@.tabs[self@.current_index].well_formed());
        }
        self.current_grid_mut().select_prev_split();
    }

    /// The next pane gets the focus, or behind the last one the first pane of
    /// the next tab.
    pub fn switch_to_next_split_or_tab(&mut self)
        requires
            old(self)@.well_formed(),
            old(self)@.tabs.len() > 0,
        ensures
            final(self)@.well_formed(),
            ({
                let tab = old(self)@.current_tab();
                if tab.current + 1 < tab.panes.len() {
                    final(self)@ == old(self)@.refocused(tab.current + 1)
                } else if old(self)@.config.is_native {
                    final(self)@ == old(self)@.sending(RioEvent::SelectNativeTabNext).refocused(0)
                } else {
                    final(self)@ == old(self)@.selecting(old(self)@.next_index()).refocused(0)
                }
            }),
    {
        let ghost before = self@;
        proof {
            assert(self@.tabs[self@.current_index].well_formed());
        }
        if self.current_grid_mut().select_next_split_no_loop() {
            return;
        }
        proof {
            assert(self@ =~= before);
        }
        self.switch_to_next();
        proof {
            assert(self@.tabs[self@.current_index].well_formed());
        }
        self.current_grid_mut().select_first_split();
    }

    pub fn switch_to_prev_split_or_tab(&mut self)
        requires
            old(self)@.well_formed(),
            old(self)@.tabs.len() > 0,
        ensures
            final(self)@.well_formed(),
            ({
                let tab = old(self)@.current_tab();
                if tab.current > 0 {
                    final(self)@ == old(self)@.refocused(tab.current - 1)
                } else {
                    let there = if old(self)@.config.is_native {
                        old(self)@.sending(RioEvent::SelectNativeTabPrev)
                    } else {
                        old(self)@.selecting(old(self)@.previous_index())
                    };
                    final(self)@ == there.refocused(there.current_tab().panes.len() - 1)
                }
            }),
    {
        let ghost before = self@;
        proof {
            assert(self@.tabs[self@.current_index].well_formed());
        }
        if self.current_grid_mut().select_prev_split_no_loop() {
            return;
        }
        proof {
            assert(self@ =~= before);
        }
        self.switch_to_prev();
        proof {
            assert(self@.tabs[self@.current_index].well_formed());
        }
        self.current_grid_mut().select_last_split();
    }

    /// Closes the focused pane of a tab that has others.
    pub fn remove_current_grid(&mut self)
        requires
            old(self)@.well_formed(),
        ensures
            final(self)@.well_formed(),
            final(self)@ == if old(self)@.tabs.len() > 0 && old(self)@.current_tab().panes.len()
                > 1 {
                let tab = old(self)@.current_tab();
                let route = tab.current_pane().route_id;
                let pane = pane_with_route(tab.panes, route, 0)->0;
                (ManagerModel {
                    tabs: old(self)@.tabs.update(
                        old(self)@.current_index,
                        tab.without_pane(pane),
                    ),
                    ..old(self)@
                }).drawing(DrawCommand::RemovePane(route)).retiring(seq![tab.panes[pane]])
            } else {
                old(self)@
            },
    {
        if self.is_empty() {
            return;
        }
        let ghost tab = self@.current_tab();
        proof {
            assert(self@.tabs[self@.current_index].well_formed());
        }
        if self.current_grid().len() > 1 {
            let route: usize = self.current().route_id;
            proof {
                crate::context::tab::lemma_pane_with_route(tab.panes, route, 0);
                assert(tab.panes[tab.current].route_id == route);
            }
            self.remove_pane_at(self.current_index, route);
        }
    }

    pub fn increase_capacity(&mut self, inc_val: usize)
        requires
            old(self)@.capacity + inc_val <= usize::MAX,
        ensures
            final(self)@ == (ManagerModel {
                capacity: old(self)@.capacity + inc_val,
                ..old(self)@
            }),
    {
        self.capacity += inc_val;
    }
}

/// One more tab in the lists of what goes.
proof fn lemma_prefix_facts(gone: Seq<TabModel>, tab: TabModel)
    ensures
        all_routes(gone.push(tab), gone.len() as int + 1) == all_routes(gone, gone.len() as int)
            + routes_of(tab.panes),
        all_closed(gone.push(tab), gone.len() as int + 1) == all_closed(gone, gone.len() as int)
            + closed_sessions(tab.panes, tab.panes.len() as int),
        removals(gone.push(tab), gone.len() as int + 1) == removals(gone, gone.len() as int).push(
            DrawCommand::RemoveTab(tab.id),
        ),
{
    lemma_lists_agree(gone, gone.push(tab), gone.len() as int);
}

proof fn lemma_lists_agree(a: Seq<TabModel>, b: Seq<TabModel>, n: int)
    requires
        0 <= n <= a.len(),
        n <= b.len(),
        forall|i: int| 0 <= i < n ==> a[i] == b[i],
    ensures
        all_routes(a, n) == all_routes(b, n),
        all_closed(a, n) == all_closed(b, n),
        removals(a, n) == removals(b, n),
    decreases n,
{
    if n > 0 {
        lemma_lists_agree(a, b, n - 1);
        assert(a[n - 1] == b[n - 1]);
    }
}

} // verus!
