//! The course of the program: its start, its waiting, and what it does to all
//! windows at once.

use crate::application::drag::TabDragEvent;
use crate::application::outbox::{find_window, window_of, Effect, EffectModel, WindowFacts};
use crate::application::state::{Application, ApplicationModel, PreparedModel};
use crate::application::transfer::transfer_exit_ready;
use crate::application::user_events::holds_config;
use crate::context::handover::{is_tab_offer, OfferError, TransferOffer};
use crate::context::lifecycle::TITLE_INTERVAL;
use crate::context::manager::{tab_with_id, ContextManager};
use crate::context::protocol::SessionDescriptor;
use crate::text::{decimal, decimal_text, joined};
use vstd::prelude::*;

verus! {

/// Why the loop wakes up.
#[derive(Clone, Copy, Debug, PartialEq, Eq, Structural)]
pub enum StartCause {
    Init,
    CreateWindow,
    /// The program is called up again while it runs.
    Reopen,
    Other,
}

/// What is known when the loop wakes up.
#[derive(Clone, Copy, Debug, PartialEq, Eq, Structural)]
pub struct StartFacts {
    pub has_windows: bool,
    pub all_minimized: bool,
    pub adaptive_colors: bool,
    pub forced_theme: bool,
    pub titles_scheduled: bool,
}

/// What is done when the loop wakes up.
#[derive(Clone, Copy, Debug, PartialEq, Eq, Structural)]
pub enum StartAction {
    RestoreWindow,
    StartThemeMonitor,
    ApplyTheme,
    CreateWindow,
    /// Lets other programs reach this one.
    EnsureControl,
    SetupHotkey,
    /// Makes titles anew, over and over again after so many milliseconds.
    ScheduleTitles(u64),
}

/// What is done when the loop wakes up.
pub open spec fn start_actions(cause: StartCause, facts: StartFacts) -> Seq<StartAction> {
    if cause is Other {
        Seq::empty()
    } else if cause is Reopen && facts.has_windows {
        if facts.all_minimized {
            seq![StartAction::RestoreWindow]
        } else {
            Seq::empty()
        }
    } else {
        let monitored = if cause is Init && facts.adaptive_colors && !facts.forced_theme {
            seq![StartAction::StartThemeMonitor]
        } else {
            Seq::empty()
        };
        let opened = monitored + seq![
            StartAction::ApplyTheme,
            StartAction::CreateWindow,
            StartAction::EnsureControl,
        ];
        let keyed = if cause is Init {
            opened.push(StartAction::SetupHotkey)
        } else {
            opened
        };
        if facts.titles_scheduled {
            keyed
        } else {
            keyed.push(StartAction::ScheduleTitles(TITLE_INTERVAL))
        }
    }
}

pub fn new_events(cause: StartCause, facts: StartFacts) -> (r: Vec<StartAction>)
    ensures
        r@ == start_actions(cause, facts),
{
    let mut list: Vec<StartAction> = Vec::new();
    if cause == StartCause::Other {
    } else if cause == StartCause::Reopen && facts.has_windows {
        if facts.all_minimized {
            list.push(StartAction::RestoreWindow);
        }
    } else {
        if cause == StartCause::Init && facts.adaptive_colors && !facts.forced_theme {
            list.push(StartAction::StartThemeMonitor);
        }
        list.push(StartAction::ApplyTheme);
        list.push(StartAction::CreateWindow);
        list.push(StartAction::EnsureControl);
        if cause == StartCause::Init {
            list.push(StartAction::SetupHotkey);
        }
        if !facts.titles_scheduled {
            list.push(StartAction::ScheduleTitles(TITLE_INTERVAL));
        }
    }
    proof {
        assert(list@ =~= start_actions(cause, facts));
    }
    list
}

/// The earlier of two times, where there are any.
pub open spec fn earlier(a: Option<u64>, b: Option<u64>) -> Option<u64> {
    match (a, b) {
        (Some(x), Some(y)) => Some(
            if x <= y {
                x
            } else {
                y
            },
        ),
        (Some(x), None) => Some(x),
        (None, b) => b,
    }
}

fn earlier_of(a: Option<u64>, b: Option<u64>) -> (r: Option<u64>)
    ensures
        r == earlier(a, b),
{
    match (a, b) {
        (Some(x), Some(y)) => if x <= y {
            Some(x)
        } else {
            Some(y)
        },
        (Some(x), None) => Some(x),
        (None, b) => b,
    }
}

/// The earliest deadline of the first `n`, and of what is given.
pub open spec fn earliest(first: Option<u64>, list: Seq<PreparedModel>, n: int) -> Option<u64>
    decreases n,
{
    if n <= 0 {
        first
    } else {
        earlier(earliest(first, list, n - 1), Some(list[n - 1].deadline))
    }
}

/// What came of toggling the window that drops down.
#[derive(Clone, Copy, Debug, PartialEq, Eq, Structural)]
pub enum QuakeStep {
    /// There is none yet: it is made, and shown.
    Create,
    Show,
    /// It goes, and the focus returns to where it was.
    Vanish,
}

/// Shows the window that drops down, or lets it go where it has the focus.
pub fn toggle_quake_window(present: bool, visible: bool, focused: bool) -> (r: QuakeStep)
    ensures
        r == if !present {
            QuakeStep::Create
        } else if visible && focused {
            QuakeStep::Vanish
        } else {
            QuakeStep::Show
        },
{
    if !present {
        QuakeStep::Create
    } else if !visible {
        QuakeStep::Show
    } else if focused {
        QuakeStep::Vanish
    } else {
        QuakeStep::Show
    }
}

/// Where the window that drops down starts: in the middle of its monitor.
pub fn quake_position(monitor_x: i32, monitor_width: u32, width: u32) -> (r: i32)
    requires
        monitor_x + (if monitor_width >= width {
            (monitor_width - width) / 2
        } else {
            0
        }) <= i32::MAX,
    ensures
        r == monitor_x + (if monitor_width >= width {
            (monitor_width - width) / 2
        } else {
            0
        }),
{
    let margin: u32 = monitor_width.saturating_sub(width) / 2;
    (monitor_x as i64 + margin as i64) as i32
}

/// A light or a dark look.
#[derive(Clone, Copy, Debug, PartialEq, Eq, Structural)]
pub enum AppearanceTheme {
    Dark,
    Light,
}

/// The other look than the one that is seen: the forced one, or the window's, or
/// the dark one.
pub fn toggled_theme(forced: Option<AppearanceTheme>, window: Option<AppearanceTheme>) -> (r:
    AppearanceTheme)
    ensures
        ({
            let current = match (forced, window) {
                (Some(theme), _) => theme,
                (None, Some(theme)) => theme,
                (None, None) => AppearanceTheme::Dark,
            };
            r != current
        }),
{
    let current: AppearanceTheme = match (forced, window) {
        (Some(theme), _) => theme,
        (None, Some(theme)) => theme,
        (None, None) => AppearanceTheme::Dark,
    };
    match current {
        AppearanceTheme::Dark => AppearanceTheme::Light,
        AppearanceTheme::Light => AppearanceTheme::Dark,
    }
}

/// What a new configuration takes.
#[derive(Clone, Copy, Debug, PartialEq, Eq, Structural)]
pub enum ConfigAction {
    /// Shows in a window why the configuration could not be read.
    ReportError(u64),
    ReloadFonts,
    Replace,
    SetupHotkey,
    ClearErrors(u64),
    ApplyTheme,
    ReportFonts(u64),
    Update(u64, bool),
    Configure(u64),
    Redraw(u64),
}

/// What the first `n` windows do about a configuration that cannot be read.
pub open spec fn config_reports(windows: Seq<u64>, n: int) -> Seq<ConfigAction>
    decreases n,
{
    if n <= 0 {
        Seq::empty()
    } else {
        config_reports(windows, n - 1).push(ConfigAction::ReportError(windows[n - 1])).push(
            ConfigAction::Redraw(windows[n - 1]),
        )
    }
}

/// What the first `n` windows do about a new configuration.
pub open spec fn config_updates(
    windows: Seq<u64>,
    fonts_changed: bool,
    fonts_missing: bool,
    n: int,
) -> Seq<ConfigAction>
    decreases n,
{
    if n <= 0 {
        Seq::empty()
    } else {
        let window = windows[n - 1];
        let cleared = config_updates(windows, fonts_changed, fonts_missing, n - 1).push(
            ConfigAction::ClearErrors(window),
        );
        let themed = if n == 1 {
            cleared.push(ConfigAction::ApplyTheme)
        } else {
            cleared
        };
        let reported = if fonts_changed && fonts_missing {
            themed.push(ConfigAction::ReportFonts(window))
        } else {
            themed
        };
        reported.push(ConfigAction::Update(window, fonts_changed)).push(
            ConfigAction::Configure(window),
        ).push(ConfigAction::Redraw(window))
    }
}

/// What is done about a configuration that was read anew. One that cannot be
/// read leaves the one that is in use as it is.
pub open spec fn config_actions(
    windows: Seq<u64>,
    loaded: bool,
    fonts_changed: bool,
    bindings_changed: bool,
    fonts_missing: bool,
) -> Seq<ConfigAction> {
    if !loaded {
        config_reports(windows, windows.len() as int)
    } else {
        let fonts = if fonts_changed {
            seq![ConfigAction::ReloadFonts]
        } else {
            Seq::empty()
        };
        let keys = if bindings_changed {
            seq![ConfigAction::SetupHotkey]
        } else {
            Seq::empty()
        };
        fonts + seq![ConfigAction::Replace] + keys + config_updates(
            windows,
            fonts_changed,
            fonts_missing,
            windows.len() as int,
        )
    }
}

pub fn update_config(
    windows: &Vec<u64>,
    loaded: bool,
    fonts_changed: bool,
    bindings_changed: bool,
    fonts_missing: bool,
) -> (r: Vec<ConfigAction>)
    ensures
        r@ == config_actions(
            windows@,
            loaded,
            fonts_changed,
            bindings_changed,
            fonts_missing,
        ),
{
    let mut list: Vec<ConfigAction> = Vec::new();
    if !loaded {
        let mut i: usize = 0;
        while i < windows.len()
            invariant
                i <= windows@.len(),
                list@ == config_reports(windows@, i as int),
            decreases windows@.len() - i,
        {
            list.push(ConfigAction::ReportError(windows[i]));
            list.push(ConfigAction::Redraw(windows[i]));
            i += 1;
        }
        return list;
    }
    if fonts_changed {
        list.push(ConfigAction::ReloadFonts);
    }
    list.push(ConfigAction::Replace);
    if bindings_changed {
        list.push(ConfigAction::SetupHotkey);
    }
    let ghost head = list@;
    proof {
        assert(list@ =~= head + config_updates(windows@, fonts_changed, fonts_missing, 0));
    }
    let mut i: usize = 0;
    while i < windows.len()
        invariant
            i <= windows@.len(),
            list@ == head + config_updates(windows@, fonts_changed, fonts_missing, i as int),
        decreases windows@.len() - i,
    {
        let window: u64 = windows[i];
        list.push(ConfigAction::ClearErrors(window));
        if i == 0 {
            list.push(ConfigAction::ApplyTheme);
        }
        if fonts_changed && fonts_missing {
            list.push(ConfigAction::ReportFonts(window));
        }
        list.push(ConfigAction::Update(window, fonts_changed));
        list.push(ConfigAction::Configure(window));
        list.push(ConfigAction::Redraw(window));
        i += 1;
        proof {
            assert(list@ =~= head + config_updates(
                windows@,
                fonts_changed,
                fonts_missing,
                i as int,
            ));
        }
    }
    proof {
        assert(list@ =~= config_actions(
            windows@,
            loaded,
            fonts_changed,
            bindings_changed,
            fonts_missing,
        ));
    }
    list
}

/// The window whose group of tabs takes opened addresses: the first one with the
/// focus, or else the first one.
pub open spec fn tab_owner(focused: Seq<bool>, from: int) -> Option<int>
    decreases focused.len() - from,
{
    if from < 0 || from >= focused.len() {
        if focused.len() > 0 {
            Some(0)
        } else {
            None
        }
    } else if focused[from] {
        Some(from)
    } else {
        tab_owner(focused, from + 1)
    }
}

fn native_tab_owner(focused: &Vec<bool>) -> (r: Option<usize>)
    ensures
        match (r, tab_owner(focused@, 0)) {
            (Some(index), Some(owner)) => index == owner && index < focused@.len(),
            (None, None) => true,
            _ => false,
        },
{
    let mut i: usize = 0;
    while i < focused.len()
        invariant
            i <= focused@.len(),
            tab_owner(focused@, 0) == tab_owner(focused@, i as int),
        decreases focused@.len() - i,
    {
        if focused[i] {
            return Some(i);
        }
        i += 1;
    }
    if focused.len() > 0 {
        Some(0)
    } else {
        None
    }
}

/// How an address is opened.
pub enum OpenAddress {
    /// In a window of its own.
    Window(String),
    /// As a tab of the desktop, beside a window by its position.
    NativeTab(usize, String),
}

/// How the first `n` addresses are opened.
pub open spec fn opened(
    urls: Seq<String>,
    is_native: bool,
    focused: Seq<bool>,
    n: int,
) -> Seq<OpenAddress>
    decreases n,
{
    if n <= 0 {
        Seq::empty()
    } else {
        let rest = opened(urls, is_native, focused, n - 1);
        if !is_native {
            rest.push(OpenAddress::Window(urls[n - 1]))
        } else {
            match tab_owner(focused, 0) {
                Some(owner) => rest.push(OpenAddress::NativeTab(owner as usize, urls[n - 1])),
                None => rest,
            }
        }
    }
}

/// Opens addresses: each in a window, or as a tab of the desktop. Without a
/// window to put tabs beside, none is opened.
pub fn open_urls(is_native: bool, focused: &Vec<bool>, urls: Vec<String>) -> (r: Vec<OpenAddress>)
    ensures
        r@ == opened(urls@, is_native, focused@, urls@.len() as int),
{
    let owner: Option<usize> = native_tab_owner(focused);
    let mut list: Vec<OpenAddress> = Vec::new();
    let ghost all = urls@;
    let mut left: Vec<String> = urls;
    let mut turned: Vec<String> = Vec::new();
    while left.len() > 0
        invariant
            left@.len() + turned@.len() == all.len(),
            left@ == all.take(left@.len() as int),
            forall|j: int|
                0 <= j < turned@.len() ==> #[trigger] turned@[j] == all[all.len() - 1 - j],
        decreases left@.len(),
    {
        if let Some(url) = left.pop() {
            turned.push(url);
        }
    }
    while turned.len() > 0
        invariant
            turned@.len() <= all.len(),
            forall|j: int|
                0 <= j < turned@.len() ==> #[trigger] turned@[j] == all[all.len() - 1 - j],
            list@ == opened(all, is_native, focused@, all.len() - turned@.len()),
            match (owner, tab_owner(focused@, 0)) {
                (Some(index), Some(owner)) => index == owner,
                (None, None) => true,
                _ => false,
            },
        decreases turned@.len(),
    {
        if let Some(url) = turned.pop() {
            if !is_native {
                list.push(OpenAddress::Window(url));
            } else if let Some(owner) = owner {
                list.push(OpenAddress::NativeTab(owner, url));
            }
        }
    }
    list
}

impl OfferError {
    pub open spec fn words(self) -> Seq<char> {
        match self {
            OfferError::NoTab => "transfer tab no longer exists"@,
            OfferError::NoPanes => "transfer window has no panes"@,
            OfferError::NotStarted(route) => "session is not started for route "@ + decimal(
                route as nat,
            ),
        }
    }

    pub fn message(self) -> (r: String)
        ensures
            r@ == self.words(),
    {
        match self {
            OfferError::NoTab => "transfer tab no longer exists".to_owned(),
            OfferError::NoPanes => "transfer window has no panes".to_owned(),
            OfferError::NotStarted(route) => {
                let number: String = decimal_text(route as u64);
                joined("session is not started for route ", number.as_str())
            },
        }
    }
}

/// How a tab gets a window of its own.
#[derive(Clone, Copy, Debug, PartialEq, Eq, Structural)]
pub enum DetachPlan {
    /// The tab is gone.
    Gone,
    /// It is offered to a program that is started for it.
    Offer(usize),
    /// It moves into a new window here.
    Window(usize),
}

impl ApplicationModel {
    /// What the user asked for: to merge, to recover, or what they picked.
    pub open spec fn merge_asked(
        self,
        windows: Seq<WindowFacts>,
        window: u64,
    ) -> ApplicationModel {
        let armed = self.merge_started(windows, window);
        if window_of(windows, window) matches Some(facts) && facts.shows_tabs() && self.control
            is Some {
            armed.emitting(EffectModel::DiscoverPeers(window))
        } else {
            armed
        }
    }

    /// A tab has got a window of its own.
    pub open spec fn detached(self, source: u64, destination: u64, emptied: bool) -> ApplicationModel {
        (if emptied {
            self.window_removed(source)
        } else {
            self.emitting(EffectModel::Refresh(source)).emitting(EffectModel::Redraw(source))
        }).emitting(EffectModel::Focus(destination)).emitting(EffectModel::Redraw(destination))
    }
}

impl Application {
    /// The user asks for a merge or a recovery in a window, or picks a session.
    pub fn merge_action(
        &mut self,
        windows: &Vec<WindowFacts>,
        window: u64,
        picked: Option<usize>,
    )
        ensures
            final(self)@ == match picked {
                Some(index) => if old(self)@.recovery_targets matches Some(targets) && targets.0
                    == window && index < targets.1.len() {
                    old(self)@.recovery_cleared().emitting(
                        EffectModel::ClearMergeUi(window),
                    ).emitting(
                        EffectModel::Recover(
                            window,
                            (old(self)@.recovery_targets->0).1[index as int].descriptor,
                        ),
                    )
                } else {
                    old(self)@
                },
                None => old(self)@.merge_cleared().merge_asked(windows@, window),
            },
    {
        match picked {
            Some(index) => {
                self.select_recovery_target(window, index);
            },
            None => {
                self.clear_merge_window();
                if self.arm_merge_source(windows, window) {
                    self.begin_merge_window_action(window);
                }
            },
        }
    }

    /// The user asks for a recovery: whatever else is under way is given up.
    pub fn recovery_action(
        &mut self,
        windows: &Vec<WindowFacts>,
        window: u64,
        found: &Vec<SessionDescriptor>,
        owned: &Vec<u128>,
    ) -> (r: bool)
        ensures
            ({
                let rest = crate::application::recovery::unowned(
                    found@,
                    owned@,
                    found@.len() as int,
                );
                let cleared = old(self)@.merge_cleared();
                &&& r == (rest.len() > 0 && window_of(windows@, window) is Some)
                &&& final(self)@ == if rest.len() == 0 {
                    cleared.failed(windows@, window, "no saved sessions are available"@)
                } else if r {
                    cleared.probing(window, rest).emitting(
                        EffectModel::RecoveryTargets(window, Seq::empty()),
                    )
                } else {
                    ApplicationModel { probe: None, ..cleared.probing(window, rest) }
                }
            }),
    {
        self.clear_merge_window();
        self.begin_recovery_action(windows, window, found, owned)
    }

    /// The pointer leaves a window. `true` where what is dragged there leaves
    /// with it.
    pub fn cursor_left(
        &mut self,
        window: u64,
        terminal: bool,
        left_pressed: bool,
        island_dragging: bool,
    ) -> (r: bool)
        ensures
            r == (terminal && left_pressed && island_dragging),
            final(self)@ == if old(self)@.target matches Some(target) && target.0 == window {
                old(self)@.target_cleared()
            } else {
                old(self)@
            },
    {
        if let Some(target) = self.merge_target {
            if target.0 == window {
                self.clear_merge_target();
            }
        }
        terminal && left_pressed && island_dragging
    }

    /// Whether a key of the menu goes to the focused window: not while its tab
    /// is dragged.
    pub fn takes_menu_key(&self, windows: &Vec<WindowFacts>, focused: Option<u64>) -> (r: Option<u64>)
        ensures
            r == match focused {
                Some(window) => if !holds_config(self@.drag, window) && window_of(
                    windows@,
                    window,
                ) is Some {
                    Some(window)
                } else {
                    None
                },
                None => None,
            },
    {
        match focused {
            Some(window) => {
                let held: bool = match &self.tab_drag {
                    Some(drag) => {
                        let owned: bool = match &drag.owner {
                            Some(owner) => owner.window_id == window,
                            None => false,
                        };
                        drag.source_window == window || owned
                    },
                    None => false,
                };
                if !held && find_window(windows, window).is_some() {
                    Some(window)
                } else {
                    None
                }
            },
            None => None,
        }
    }

    /// Whether the program, having given its last tab away, may end.
    pub fn may_exit_after_transfer(&self, windows: usize, preparations: usize, bootstrap: bool) -> (r:
        bool)
        ensures
            r == (self@.exit_after_transfer && windows == 0 && self@.prepared.len() == 0
                && self@.outgoing.len() == 0 && preparations == 0 && !bootstrap),
    {
        let pending: usize = if self.pending_prepared.len() == 0 && self.pending_outgoing.len()
            == 0 {
            preparations
        } else {
            1
        };
        transfer_exit_ready(self.exit_after_transfer, windows, pending, bootstrap)
    }

    /// A tab that was over no window for long enough is to be told so; the time
    /// is up only once.
    pub fn take_due_detach(&mut self, now: u64) -> (r: Option<TabDragEvent>)
        ensures
            ({
                let due = old(self)@.detach_deadline matches Some(deadline) && deadline <= now;
                &&& r == if due && (old(self)@.drag matches Some(drag) && !drag.whole_window
                    && drag.hover is None) {
                    Some(TabDragEvent::Detach)
                } else {
                    None
                }
                &&& final(self)@ == if due {
                    ApplicationModel { detach_deadline: None, ..old(self)@ }
                } else {
                    old(self)@
                }
            }),
    {
        let due: bool = match self.tab_drag_detach_deadline {
            Some(deadline) => deadline <= now,
            None => false,
        };
        if !due {
            return None;
        }
        self.tab_drag_detach_deadline = None;
        proof {
            assert(self@ =~= (ApplicationModel { detach_deadline: None, ..old(self)@ }));
        }
        match &self.tab_drag {
            Some(drag) => if !drag.whole_window && drag.hover.is_none() {
                Some(TabDragEvent::Detach)
            } else {
                None
            },
            None => None,
        }
    }

    /// Until when the loop may wait: for a timer, for a pane to be shown, or for
    /// a tab to be detached. Without a time it waits for events alone.
    pub fn wait_until(&self, timer: Option<u64>) -> (r: Option<u64>)
        ensures
            r == earlier(
                earliest(timer, self@.prepared, self@.prepared.len() as int),
                self@.detach_deadline,
            ),
    {
        let mut first: Option<u64> = timer;
        let mut i: usize = 0;
        while i < self.pending_prepared.len()
            invariant
                i <= self.pending_prepared@.len(),
                first == earliest(timer, self@.prepared, i as int),
            decreases self.pending_prepared@.len() - i,
        {
            proof {
                assert(self@.prepared[i as int] == self.pending_prepared@[i as int]@);
            }
            first = earlier_of(first, Some(self.pending_prepared[i].deadline));
            i += 1;
        }
        earlier_of(first, self.tab_drag_detach_deadline)
    }

    /// How a tab gets a window of its own: as an offer to a new program where
    /// programs can be reached, and else here.
    pub fn plan_detach(&self, manager: &ContextManager, tab_id: u64) -> (r: DetachPlan)
        ensures
            r == match tab_with_id(manager@.tabs, tab_id, 0) {
                None => DetachPlan::Gone,
                Some(at) => if self@.control is Some {
                    DetachPlan::Offer(at as usize)
                } else {
                    DetachPlan::Window(at as usize)
                },
            },
    {
        match manager.tab_index(tab_id) {
            None => DetachPlan::Gone,
            Some(at) => if self.control.is_some() {
                DetachPlan::Offer(at)
            } else {
                DetachPlan::Window(at)
            },
        }
    }

    /// A tab has got a window of its own here.
    pub fn tab_detached(&mut self, source: u64, destination: u64, emptied: bool)
        ensures
            final(self)@ == old(self)@.detached(source, destination, emptied),
    {
        if emptied {
            self.clear_merge_if_window(source);
            self.emit(Effect::RemoveWindow(source));
        } else {
            self.emit(Effect::Refresh(source));
            self.emit(Effect::Redraw(source));
        }
        self.emit(Effect::Focus(destination));
        self.emit(Effect::Redraw(destination));
    }

    /// What is offered to another program for a merge: the current tab.
    pub fn offer_for_merge(&self, manager: &ContextManager, transfer_id: u128) -> (r: Result<
        TransferOffer,
        String,
    >)
        requires
            manager@.well_formed(),
        ensures
            exists|offer: Result<TransferOffer, OfferError>|
                {
                    &&& #[trigger] is_tab_offer(
                        manager@,
                        manager@.current_index as usize,
                        transfer_id,
                        offer,
                    )
                    &&& match offer {
                        Ok(offer) => if self@.control is Some {
                            r == Ok::<TransferOffer, String>(offer)
                        } else {
                            r matches Err(text) && text@ == "cross-window control is unavailable"@
                        },
                        Err(error) => r matches Err(text) && text@ == error.words(),
                    }
                },
    {
        let offer: Result<TransferOffer, OfferError> = manager.transfer_offer(
            manager.current_index(),
            transfer_id,
        );
        let ghost given = offer;
        let result: Result<TransferOffer, String> = match offer {
            Ok(offer) => if self.control.is_some() {
                Ok(offer)
            } else {
                Err("cross-window control is unavailable".to_owned())
            },
            Err(error) => Err(error.message()),
        };
        proof {
            assert(is_tab_offer(manager@, manager@.current_index as usize, transfer_id, given));
        }
        result
    }
}

/// The loop never sleeps past a deadline.
pub proof fn law_no_deadline_is_slept_through(
    timer: Option<u64>,
    list: Seq<PreparedModel>,
    n: int,
    detach: Option<u64>,
)
    requires
        0 <= n <= list.len(),
    ensures
        forall|i: int|
            0 <= i < n ==> (earlier(earliest(timer, list, n), detach) matches Some(until) && until
                <= (#[trigger] list[i]).deadline),
        timer matches Some(time) ==> (earlier(earliest(timer, list, n), detach) matches Some(until)
            && until <= time),
        detach matches Some(time) ==> (earlier(earliest(timer, list, n), detach) matches Some(
            until,
        ) && until <= time),
    decreases n,
{
    if n > 0 {
        law_no_deadline_is_slept_through(timer, list, n - 1, None);
        assert(earlier(earliest(timer, list, n - 1), None) == earliest(timer, list, n - 1));
        assert forall|i: int| 0 <= i < n implies (earlier(
            earliest(timer, list, n),
            detach,
        ) matches Some(until) && until <= (#[trigger] list[i]).deadline) by {
            if i < n - 1 {
                assert(earliest(timer, list, n - 1) matches Some(until) && until
                    <= list[i].deadline);
            }
        }
    }
}

/// A configuration that cannot be read changes nothing but what is reported.
pub proof fn law_broken_config_changes_nothing(
    windows: Seq<u64>,
    fonts_changed: bool,
    bindings_changed: bool,
    fonts_missing: bool,
    n: int,
)
    requires
        0 <= n <= windows.len(),
    ensures
        forall|i: int|
            0 <= i < config_reports(windows, n).len() ==> (
            #[trigger] config_reports(windows, n)[i]) is ReportError || config_reports(
                windows,
                n,
            )[i] is Redraw,
        config_actions(windows, false, fonts_changed, bindings_changed, fonts_missing)
            == config_reports(windows, windows.len() as int),
    decreases n,
{
    if n > 0 {
        law_broken_config_changes_nothing(
            windows,
            fonts_changed,
            bindings_changed,
            fonts_missing,
            n - 1,
        );
    }
}

} // verus!
