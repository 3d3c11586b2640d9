//! Events of windows, users and the program: where they go and what they cause.

use crate::application::closing::running;
use crate::application::control::wake_window;
use crate::application::drag::{DeferredTabDragClose, TabDrag};
use crate::application::merge::ArmedInput;
use crate::application::outbox::{window_of, EffectModel, WindowFacts};
use crate::application::pointer::MouseButton;
use crate::application::run::{
    config_actions, config_reports, config_updates, earlier, earliest, opened, start_actions,
    tab_owner, ConfigAction, OpenAddress, StartAction, StartCause, StartFacts,
};
use crate::application::state::{ApplicationModel, PreparedModel};
use crate::application::user_events::{
    defers_close, holds_config, is_preparing, render_actions, render_route_actions, timer_of,
    told_actions, EventConfig, ToldWindow, Topic, UserAction, UserEvent,
};
use crate::application::windows::{
    as_armed, ime_actions, is_input, is_skipped, key_actions, ImeEvent, Routed, Visibility,
    WindowAction, WindowEventKind,
};
use crate::context::session::HandleModel;
use vstd::prelude::*;

verus! {

/// At the start a window is opened with the theme applied first and the program's
/// door behind it; only the very start watches the theme and the hotkey, and titles
/// are scheduled once.
pub proof fn law_start_opens_a_window(cause: StartCause, facts: StartFacts)
    ensures
        ({
            let done = start_actions(cause, facts);
            let opens = cause is Init || cause is CreateWindow || (cause is Reopen
                && !facts.has_windows);
            let watched = cause is Init && facts.adaptive_colors && !facts.forced_theme;
            let first = if watched { 1int } else { 0int };
            &&& cause is Other ==> done.len() == 0
            &&& cause is Reopen && facts.has_windows && facts.all_minimized ==> done.len() == 1
                && done[0] == StartAction::RestoreWindow
            &&& cause is Reopen && facts.has_windows && !facts.all_minimized ==> done.len() == 0
            &&& opens ==> {
                &&& watched ==> done[0] == StartAction::StartThemeMonitor
                &&& done[first] == StartAction::ApplyTheme
                &&& done[first + 1] == StartAction::CreateWindow
                &&& done[first + 2] == StartAction::EnsureControl
                &&& cause is Init ==> done[first + 3] == StartAction::SetupHotkey
                &&& !facts.titles_scheduled ==> done.last() == StartAction::ScheduleTitles(2000)
                &&& done.len() == first + 3 + (if cause is Init {
                    1int
                } else {
                    0
                }) + (if facts.titles_scheduled {
                    0int
                } else {
                    1
                })
            }
        }),
{
}

/// The earlier of two times is one of them, and not after the other.
pub proof fn law_earlier_time_comes_first(a: Option<u64>, b: Option<u64>)
    ensures
        earlier(a, b) == a || earlier(a, b) == b,
        earlier(a, b) is None <==> a is None && b is None,
        a is Some && earlier(a, b) is Some ==> earlier(a, b)->0 <= a->0,
        b is Some && earlier(a, b) is Some ==> earlier(a, b)->0 <= b->0,
{
}

/// The earliest deadline is one of those that are given, and none is before it.
pub proof fn law_earliest_deadline_is_before_all(
    first: Option<u64>,
    list: Seq<PreparedModel>,
    n: int,
)
    requires
        0 <= n <= list.len(),
    ensures
        earliest(first, list, n) is None <==> first is None && n == 0,
        first matches Some(time) ==> earliest(first, list, n) is Some && earliest(
            first,
            list,
            n,
        )->0 <= time,
        forall|i: int|
            0 <= i < n ==> earliest(first, list, n) is Some && earliest(first, list, n)->0 <= (
            #[trigger] list[i]).deadline,
        earliest(first, list, n) matches Some(time) ==> first == Some(time) || exists|i: int|
            0 <= i < n && (#[trigger] list[i]).deadline == time,
    decreases n,
{
    if n > 0 {
        law_earliest_deadline_is_before_all(first, list, n - 1);
        assert(list[n - 1].deadline == list[n - 1].deadline);
    }
}

proof fn lemma_config_reports(windows: Seq<u64>, n: int)
    requires
        0 <= n <= windows.len(),
    ensures
        config_reports(windows, n).len() == 2 * n,
        forall|i: int|
            0 <= i < n ==> config_reports(windows, n)[2 * i] == ConfigAction::ReportError(
                #[trigger] windows[i],
            ) && config_reports(windows, n)[2 * i + 1] == ConfigAction::Redraw(windows[i]),
    decreases n,
{
    if n > 0 {
        lemma_config_reports(windows, n - 1);
    }
}

/// A configuration that cannot be read is reported in each window, which is drawn
/// again; nothing else happens.
pub proof fn law_unreadable_configuration_is_reported(
    windows: Seq<u64>,
    fonts: bool,
    bindings: bool,
    missing: bool,
)
    ensures
        ({
            let done = config_actions(windows, false, fonts, bindings, missing);
            &&& done.len() == 2 * windows.len()
            &&& forall|i: int|
                0 <= i < windows.len() ==> done[2 * i] == ConfigAction::ReportError(
                    #[trigger] windows[i],
                ) && done[2 * i + 1] == ConfigAction::Redraw(windows[i])
        }),
{
    lemma_config_reports(windows, windows.len() as int);
}

/// How many things a window does about a new configuration.
pub open spec fn steps_of(report: bool) -> int {
    if report {
        5
    } else {
        4
    }
}

proof fn lemma_config_updates(windows: Seq<u64>, fonts: bool, missing: bool, n: int, i: int)
    requires
        0 <= i < n <= windows.len(),
    ensures
        ({
            let done = config_updates(windows, fonts, missing, n);
            let k = steps_of(fonts && missing);
            let end = k * (i + 1) + 1;
            &&& done.len() == k * n + 1
            &&& done[0] == ConfigAction::ClearErrors(windows[0])
            &&& done[1] == ConfigAction::ApplyTheme
            &&& i > 0 ==> done[end - k] == ConfigAction::ClearErrors(windows[i])
            &&& fonts && missing ==> done[end - 4] == ConfigAction::ReportFonts(windows[i])
            &&& done[end - 3] == ConfigAction::Update(windows[i], fonts)
            &&& done[end - 2] == ConfigAction::Configure(windows[i])
            &&& done[end - 1] == ConfigAction::Redraw(windows[i])
        }),
    decreases n,
{
    let k = steps_of(fonts && missing);
    let before = config_updates(windows, fonts, missing, n - 1);
    let done = config_updates(windows, fonts, missing, n);
    if n == 1 {
        assert(config_updates(windows, fonts, missing, 0).len() == 0);
        assert(k * n == k && k * (i + 1) == k) by (nonlinear_arith)
            requires
                n == 1,
                i == 0,
        ;
    } else {
        lemma_config_updates(windows, fonts, missing, n - 1, if i < n - 1 {
            i
        } else {
            n - 2
        });
        assert(k * (n - 1) + k == k * n) by (nonlinear_arith);
        if i < n - 1 {
            let end = k * (i + 1) + 1;
            assert(k <= k * (i + 1) <= k * (n - 1)) by (nonlinear_arith)
                requires
                    0 <= i < n - 1,
                    k > 0,
            ;
            assert forall|j: int| 0 <= j < before.len() implies #[trigger] done[j]
                == before[j] by {}
        } else {
            assert(k * (i + 1) == k * n);
            assert forall|j: int| 0 <= j < before.len() implies #[trigger] done[j]
                == before[j] by {}
            assert(k <= k * (n - 1)) by (nonlinear_arith)
                requires
                    n >= 2,
                    k > 0,
            ;
        }
    }
}

/// A new configuration replaces the one in use, behind the fonts where they changed
/// and before the hotkey where the bindings did. Each window then forgets its errors,
/// is updated with it, set up and drawn again; the theme is applied once, and missing
/// fonts are reported in each window.
pub proof fn law_new_configuration_reaches_every_window(
    windows: Seq<u64>,
    fonts: bool,
    bindings: bool,
    missing: bool,
    i: int,
)
    requires
        0 <= i < windows.len(),
    ensures
        ({
            let done = config_actions(windows, true, fonts, bindings, missing);
            let k = steps_of(fonts && missing);
            let replaced = if fonts { 1int } else { 0int };
            let first = replaced + 1 + if bindings { 1int } else { 0int };
            let end = first + k * (i + 1) + 1;
            &&& fonts ==> done[0] == ConfigAction::ReloadFonts
            &&& done[replaced] == ConfigAction::Replace
            &&& bindings ==> done[replaced + 1] == ConfigAction::SetupHotkey
            &&& done.len() == first + k * windows.len() + 1
            &&& done[first] == ConfigAction::ClearErrors(windows[0])
            &&& done[first + 1] == ConfigAction::ApplyTheme
            &&& i > 0 ==> done[end - k] == ConfigAction::ClearErrors(windows[i])
            &&& fonts && missing ==> done[end - 4] == ConfigAction::ReportFonts(windows[i])
            &&& done[end - 3] == ConfigAction::Update(windows[i], fonts)
            &&& done[end - 2] == ConfigAction::Configure(windows[i])
            &&& done[end - 1] == ConfigAction::Redraw(windows[i])
        }),
{
    let n = windows.len() as int;
    let k = steps_of(fonts && missing);
    lemma_config_updates(windows, fonts, missing, n, i);
    let done = config_actions(windows, true, fonts, bindings, missing);
    let updates = config_updates(windows, fonts, missing, n);
    let replaced = if fonts { 1int } else { 0int };
    let first = replaced + 1 + if bindings { 1int } else { 0int };
    assert(done.len() == first + updates.len());
    assert forall|j: int| 0 <= j < updates.len() implies done[first + j]
        == #[trigger] updates[j] by {}
    let end = k * (i + 1) + 1;
    assert(k <= k * (i + 1) <= k * n) by (nonlinear_arith)
        requires
            0 <= i < n,
            k > 0,
    ;
    assert(done[first + 0] == updates[0]);
    assert(done[first + 1] == updates[1]);
    assert(done[first + (end - k)] == updates[end - k]);
    assert(done[first + (end - 4)] == updates[end - 4]);
    assert(done[first + (end - 3)] == updates[end - 3]);
    assert(done[first + (end - 2)] == updates[end - 2]);
    assert(done[first + (end - 1)] == updates[end - 1]);
}

/// Addresses are opened in the first window with the focus, or else in the first.
pub proof fn law_addresses_go_to_the_focused_window(focused: Seq<bool>, from: int)
    requires
        0 <= from <= focused.len(),
    ensures
        focused.len() == 0 ==> tab_owner(focused, from) is None,
        focused.len() > 0 ==> (tab_owner(focused, from) matches Some(owner) && 0 <= owner
            < focused.len() && ((from <= owner && focused[owner] && forall|j: int|
            from <= j < owner ==> !#[trigger] focused[j]) || (owner == 0 && forall|j: int|
            from <= j < focused.len() ==> !#[trigger] focused[j]))),
    decreases focused.len() - from,
{
    if from < focused.len() && !focused[from] {
        law_addresses_go_to_the_focused_window(focused, from + 1);
    }
}

/// Every address is opened, in its order: as a tab of the window that takes them
/// where tabs are native, and else in a window of its own.
pub proof fn law_every_address_is_opened(
    urls: Seq<String>,
    native: bool,
    focused: Seq<bool>,
    n: int,
)
    requires
        0 <= n <= urls.len(),
        focused.len() <= usize::MAX,
    ensures
        !native ==> opened(urls, native, focused, n).len() == n && forall|i: int|
            0 <= i < n ==> #[trigger] opened(urls, native, focused, n)[i] == OpenAddress::Window(
                urls[i],
            ),
        native && focused.len() == 0 ==> opened(urls, native, focused, n).len() == 0,
        native && focused.len() > 0 ==> opened(urls, native, focused, n).len() == n && forall|i: int|
            0 <= i < n ==> (#[trigger] opened(urls, native, focused, n)[i]
                matches OpenAddress::NativeTab(owner, url) && url == urls[i] && owner == tab_owner(
                focused,
                0,
            )->0),
    decreases n,
{
    law_addresses_go_to_the_focused_window(focused, 0);
    if n > 0 {
        law_every_address_is_opened(urls, native, focused, n - 1);
    }
}

/// Asking to merge starts a merge, and asks other programs for their windows where
/// there are any to talk to.
pub proof fn law_merge_request_asks_other_programs(
    before: ApplicationModel,
    windows: Seq<WindowFacts>,
    window: u64,
)
    ensures
        ({
            let now = before.merge_asked(windows, window);
            let shows = window_of(windows, window) is Some && (window_of(
                windows,
                window,
            )->0).terminal && (window_of(windows, window)->0).tabs > 0;
            &&& shows && before.control is Some ==> now == before.merge_started(
                windows,
                window,
            ).emitting(EffectModel::DiscoverPeers(window))
            &&& !shows || before.control is None ==> now == before.merge_started(windows, window)
        }),
{
}

/// A tab with a window of its own gets the focus there; the window that it left is
/// drawn again, or goes where it was its last.
pub proof fn law_detached_tab_gets_the_focus(
    before: ApplicationModel,
    source: u64,
    destination: u64,
    emptied: bool,
)
    requires
        !before.merge_uses(source),
    ensures
        ({
            let now = before.detached(source, destination, emptied);
            let left = if emptied {
                before.effects.push(EffectModel::RemoveWindow(source))
            } else {
                before.effects.push(EffectModel::Refresh(source)).push(EffectModel::Redraw(source))
            };
            now.effects == left.push(EffectModel::Focus(destination)).push(
                EffectModel::Redraw(destination),
            )
        }),
{
}

/// A closed pane is forgotten, and its timers stop; its window is drawn again, or goes
/// with its last pane.
pub proof fn law_closed_pane_is_forgotten(
    before: ApplicationModel,
    window: u64,
    route: usize,
    emptied: bool,
)
    requires
        !before.merge_uses(window),
    ensures
        ({
            let now = before.terminal_closed(window, route, emptied);
            let forgotten = before.effects.push(
                EffectModel::DiscardRoutes(window, seq![route]),
            );
            now.effects == if emptied {
                forgotten.push(EffectModel::Unschedule(route)).push(
                    EffectModel::RemoveWindow(window),
                )
            } else {
                forgotten.push(EffectModel::Refresh(window)).push(EffectModel::Redraw(window)).push(
                    EffectModel::Unschedule(route),
                )
            }
        }),
{
}

/// A window that goes takes the merge that it is part of with it.
pub proof fn law_window_takes_its_merge_with_it(before: ApplicationModel, window: u64)
    ensures
        before.window_removed(window).effects.len() > 0,
        before.window_removed(window).effects.last() == EffectModel::RemoveWindow(window),
        !before.window_removed(window).merge_uses(window),
{
}

/// The sessions that are waited for are those whose pumps run, in their order.
pub proof fn law_running_sessions_are_waited_for(sessions: Seq<HandleModel>, n: int)
    requires
        0 <= n <= sessions.len(),
    ensures
        running(sessions, n) == sessions.take(n).filter(|s: HandleModel| !s.state.pump_done),
    decreases n,
{
    reveal(Seq::filter);
    if n > 0 {
        law_running_sessions_are_waited_for(sessions, n - 1);
        assert(sessions.take(n).drop_last() =~= sessions.take(n - 1));
        assert(sessions.take(n).last() == sessions[n - 1]);
    } else {
        assert(sessions.take(0) =~= Seq::<HandleModel>::empty());
    }
}

/// A prepared offer wakes the window that it is for, or the first; whether a window is
/// there is answered as it is.
pub proof fn law_offers_wake_their_window(
    before: ApplicationModel,
    windows: Seq<WindowFacts>,
    window: u64,
    reply: u64,
)
    ensures
        wake_window(windows, Some(window)) == Some(window),
        windows.len() > 0 ==> wake_window(windows, None) == Some(windows[0].id),
        windows.len() == 0 ==> wake_window(windows, None) is None,
        ({
            let now = before.probe_answered(windows, window, reply);
            &&& now.effects.len() == before.effects.len() + 1
            &&& now.effects.last() matches EffectModel::Reply(to, response) && to == reply && (
            response is Hello <==> window_of(windows, window) is Some) && (response is Rejected
                <==> window_of(windows, window) is None)
            &&& now == (ApplicationModel { effects: now.effects, ..before })
        }),
{
}

/// Synthetic keys, gestures that mean nothing here, hovering files, and the end or
/// move of a window are of no interest; all other events are.
pub proof fn law_uninteresting_events_are_skipped(event: WindowEventKind)
    ensures
        is_skipped(event) <==> {
            ||| (event matches WindowEventKind::KeyboardInput(synthetic, _) && synthetic)
            ||| event is ActivationTokenDone
            ||| event is DoubleTapGesture
            ||| event is TouchpadPressure
            ||| event is RotationGesture
            ||| event is PinchGesture
            ||| event is AxisMotion
            ||| event is PanGesture
            ||| event is HoveredFileCancelled
            ||| event is HoveredFile
            ||| event is Destroyed
            ||| event is Moved
        },
        is_input(event) <==> event is KeyboardInput || event is MouseInput || event is CursorMoved
            || event is MouseWheel,
{
}

/// An armed window looks at the pointer alone: where it is, whether it is there, and
/// whether the left button goes down.
pub proof fn law_armed_window_looks_at_the_pointer(event: WindowEventKind, at: Option<usize>)
    ensures
        as_armed(WindowEventKind::CursorMoved(at)) == ArmedInput::Moved(at),
        as_armed(event) is Entered <==> event is CursorEntered,
        as_armed(event) is Left <==> event is CursorLeft,
        as_armed(event) is Moved <==> event is CursorMoved,
        as_armed(event) is LeftPress <==> event == WindowEventKind::MouseInput(
            true,
            MouseButton::Left,
        ),
        as_armed(event) is Other <==> !(event is CursorEntered || event is CursorLeft
            || event is CursorMoved || event is MouseInput),
{
}

/// Where an event goes: a skipped one nowhere, one of a drag to the drag; keys and
/// buttons of a window that is part of a drag are kept from it, and its closing is put
/// off; an armed window keeps the pointer to itself.
pub proof fn law_events_go_one_way(
    before: ApplicationModel,
    windows: Seq<WindowFacts>,
    window: u64,
    event: WindowEventKind,
)
    ensures
        ({
            let (now, way) = before.routing(windows, window, event);
            let dragged = before.drag is Some && (before.drag->0.source_window == window || (
            before.drag->0.hover is Some && before.drag->0.hover->0.target_window == window));
            let armed = before.armed is Some && before.armed->0.target_window == window
                && !(as_armed(event) is Other);
            let kept = dragged && (event is CloseRequested || event is KeyboardInput
                || event is MouseInput);
            &&& is_skipped(event) ==> now == before && way == Routed::Ignored
            &&& event is ToplevelDrag ==> now == before && way == Routed::Drag
            &&& !is_skipped(event) && dragged && event is CloseRequested ==> {
                &&& way == Routed::Swallowed
                &&& now.deferred.contains(DeferredTabDragClose::Window(window))
                &&& now == (ApplicationModel { deferred: now.deferred, ..before })
            }
            &&& !is_skipped(event) && dragged && (event is KeyboardInput || event is MouseInput)
                ==> now == before && way == Routed::Swallowed
            &&& !is_skipped(event) && !kept && !(event is ToplevelDrag) && armed ==> way
                == Routed::Swallowed && now == before.armed_input(
                before.armed->0,
                windows,
                as_armed(event),
            )
            &&& !is_skipped(event) && !kept && !(event is ToplevelDrag) && !armed ==> (now, way)
                == before.past_merge(windows, window, event)
        }),
{
    let close = DeferredTabDragClose::Window(window);
    if !before.deferred.contains(close) {
        assert(before.deferred.push(close)[before.deferred.len() as int] == close);
    }
}

/// What is to be closed behind a drag is put off once, in the order of the requests.
pub proof fn law_closes_are_put_off_once(before: ApplicationModel, close: DeferredTabDragClose)
    ensures
        before.deferred.contains(close) ==> before.deferring(close) == before,
        !before.deferred.contains(close) ==> before.deferring(close) == (ApplicationModel {
            deferred: before.deferred.push(close),
            ..before
        }),
{
}

/// A left press in another window than the source merges into that window, at the
/// position that it is the target for; in the source it ends the merge. A closing
/// window closes, and takes its merge with it.
pub proof fn law_press_decides_a_merge(
    before: ApplicationModel,
    windows: Seq<WindowFacts>,
    window: u64,
    event: WindowEventKind,
)
    ensures
        ({
            let press = WindowEventKind::MouseInput(true, MouseButton::Left);
            let (now, way) = before.past_merge(windows, window, event);
            let index = if before.target is Some && (before.target->0).0 == window {
                Some((before.target->0).1)
            } else {
                None
            };
            &&& event == press && before.source is Some && before.source != Some(window) ==> way
                == Routed::MergeInto(before.source->0, index) && now == before.merge_cleared()
            &&& event == press && before.source == Some(window) ==> (now, way)
                == before.merge_cleared().reaching(windows, window, event)
            &&& event is CloseRequested ==> way == Routed::Close && now == before.merge_cleared_if(
                window,
            )
            &&& !(event == press && before.source is Some) && !(event is CloseRequested) ==> (
                now,
                way,
            ) == before.reaching(windows, window, event)
        }),
{
}

/// An open window gets its events; keys and pointer only where it has tabs. Escape
/// gives up the merge that the window is part of.
pub proof fn law_open_windows_get_their_events(
    before: ApplicationModel,
    windows: Seq<WindowFacts>,
    window: u64,
    event: WindowEventKind,
)
    requires
        !(event is CursorMoved),
    ensures
        ({
            let (now, way) = before.reaching(windows, window, event);
            let escape = event is KeyboardInput && event->KeyboardInput_1;
            let given_up = escape && before.merge_uses(window);
            &&& given_up ==> way == Routed::Swallowed && now.effects.len() > 0
                && now.effects.last() == EffectModel::Redraw(window) && now.source is None
                && now.target is None
            &&& !given_up ==> now == before
            &&& !given_up && window_of(windows, window) is None ==> way == Routed::Gone
            &&& !given_up ==> (window_of(windows, window) matches Some(facts) ==> {
                &&& facts.terminal && facts.tabs == 0 && is_input(event) ==> way == Routed::Empty
                &&& !(facts.terminal && facts.tabs == 0 && is_input(event)) ==> way
                    == Routed::Deliver
            })
        }),
{
}

/// Motion points a merge before the window gets it.
pub proof fn law_motion_points_a_merge(
    before: ApplicationModel,
    windows: Seq<WindowFacts>,
    window: u64,
    at: Option<usize>,
)
    ensures
        before.reaching(windows, window, WindowEventKind::CursorMoved(at)).0 == before.pointed(
            windows,
            window,
            at,
        ),
        !(before.reaching(windows, window, WindowEventKind::CursorMoved(at)).1 is Swallowed),
{
}

/// A key is noted, processed and drawn, and hides the cursor on its release where that
/// is wanted; a key that a question waits for does nothing of that.
pub proof fn law_keys_are_processed_once(terminal: bool, released: bool, hide: bool)
    ensures
        ({
            let done = key_actions(terminal, false, released, hide);
            &&& done[0] == WindowAction::NoteTyping
            &&& done[1] == WindowAction::ProcessKey
            &&& done[2] == WindowAction::SetCursorIcon
            &&& done[3] == WindowAction::Redraw
            &&& released && hide ==> done.len() == 5 && done[4] == WindowAction::HideCursor
            &&& !(released && hide) ==> done.len() == 4
        }),
        ({
            let done = key_actions(terminal, true, released, hide);
            &&& !terminal && released ==> done.len() == 1 && done[0]
                == WindowAction::UnscheduleRender
            &&& terminal || !released ==> done.len() == 0
        }),
{
}

/// A text from an input method is pasted unless a hint took it, as a paste where it is
/// longer than one character; the text that is being made is shown when it changes.
pub proof fn law_input_method_texts_are_pasted(hinting: bool, count: usize, flag: bool)
    ensures
        ({
            let done = |event: ImeEvent| ime_actions(false, hinting, event);
            let commit = done(ImeEvent::Commit(count));
            &&& hinting ==> commit.len() == 0
            &&& !hinting ==> commit.len() == 1 && commit[0] == WindowAction::Paste(count > 1)
            &&& !flag ==> done(ImeEvent::Preedit(flag)).len() == 0
            &&& flag ==> done(ImeEvent::Preedit(flag)).len() == 2 && done(
                ImeEvent::Preedit(flag),
            )[0] == WindowAction::SetPreedit && done(ImeEvent::Preedit(flag))[1]
                == WindowAction::Redraw
            &&& done(ImeEvent::Enabled).len() == 1
            &&& done(ImeEvent::Enabled)[0] == WindowAction::EnableIme(true)
            &&& done(ImeEvent::Disabled(flag))[0] == WindowAction::EnableIme(false)
            &&& flag ==> done(ImeEvent::Disabled(flag)).len() == 2 && done(
                ImeEvent::Disabled(flag),
            )[1] == WindowAction::Redraw
            &&& !flag ==> done(ImeEvent::Disabled(flag)).len() == 1
        }),
        forall|event: ImeEvent|
            #![trigger ime_actions(true, hinting, event)]
            ime_actions(true, hinting, event).len() == ime_actions(false, hinting, event).len() + 1
                && ime_actions(true, hinting, event)[0] == WindowAction::Redraw && ime_actions(
                true,
                hinting,
                event,
            ).skip(1) == ime_actions(false, hinting, event),
{
    assert forall|event: ImeEvent|
        #![trigger ime_actions(true, hinting, event)]
        ime_actions(true, hinting, event).len() == ime_actions(false, hinting, event).len() + 1
            && ime_actions(true, hinting, event)[0] == WindowAction::Redraw && ime_actions(
            true,
            hinting,
            event,
        ).skip(1) == ime_actions(false, hinting, event) by {
        assert(ime_actions(true, hinting, event).skip(1) =~= ime_actions(false, hinting, event));
    }
}

/// A window whose focus changes is told last, and drawn where the focus is news or the
/// scale changed meanwhile.
pub proof fn law_focus_is_told_last(window: Visibility, focused: bool, scaled: bool, hide: bool)
    ensures
        ({
            let done = window.focus_actions(focused, scaled, hide);
            let first = if hide { 1int } else { 0int };
            &&& done.len() > 0
            &&& done.last() == WindowAction::FocusChange(focused)
            &&& hide ==> done[0] == WindowAction::ShowCursor
            &&& focused && scaled ==> done.len() == first + 3 && done[first]
                == WindowAction::UpdateVblank && done[first + 1] == WindowAction::Redraw
            &&& !(focused && scaled) && window.focused != focused ==> done.len() == first + 2
                && done[first] == WindowAction::Redraw
            &&& !(focused && scaled) && window.focused == focused ==> done.len() == first + 1
        }),
{
}

/// A window is not drawn where it is closed, or lacks the focus or is covered and such
/// windows are not drawn; one that prepares panes is always drawn.
pub proof fn law_windows_are_drawn_where_they_are_seen(
    window: ToldWindow,
    config: EventConfig,
    preparing: bool,
    route: usize,
)
    ensures
        ({
            let unfocused = config.disable_unfocused_render && !window.focused;
            let covered = config.disable_occluded_render && window.occluded
                && !window.needs_render_after_occlusion;
            let drawn = window.open && (preparing || (!unfocused && !covered));
            let done = render_actions(window, config, preparing);
            let pane = render_route_actions(window, config, preparing, route);
            &&& !drawn ==> done.len() == 0
            &&& drawn ==> done.len() > 0 && done.last() == UserAction::Redraw
            &&& drawn && window.needs_render_after_occlusion ==> done[0]
                == UserAction::ClearOcclusionFlag && done.len() == 2
            &&& drawn && !window.needs_render_after_occlusion ==> done.len() == 1
            &&& !config.event_based || !window.open ==> pane.len() == 0
            &&& config.event_based && window.open && !preparing && unfocused ==> pane.len() == (
            if window.scrollbar_dirty {
                1int
            } else {
                0
            }) && (window.scrollbar_dirty ==> pane[0] == UserAction::Redraw)
            &&& config.event_based && window.open && !preparing && !unfocused && covered
                ==> pane.len() == 0
            &&& config.event_based && drawn && window.wait_until is None ==> pane.len() > 0
                && pane.last() == UserAction::Redraw
            &&& config.event_based && drawn && window.has_pane ==> pane.contains(
                UserAction::MarkDirty(route),
            )
            &&& config.event_based && drawn && window.wait_until is Some && !window.timer_running
                ==> pane.len() > 0 && pane.last() == UserAction::Schedule(
                Topic::RenderRoute,
                route,
                UserEvent::Render,
                window.wait_until->0,
            )
        }),
{
    let pane = render_route_actions(window, config, preparing, route);
    let i = if window.needs_render_after_occlusion { 1int } else { 0int };
    assert(0 <= i < pane.len() && pane[i] == UserAction::MarkDirty(route) ==> pane.contains(
        UserAction::MarkDirty(route),
    ));
}

/// Panes of a dragged tab, and of windows that are part of a drag, are closed behind
/// the drag; the configuration is not opened from such a window.
pub proof fn law_drags_put_closing_off(drag: TabDrag, window: u64, route: usize)
    ensures
        defers_close(Some(drag), window, route) <==> drag.source_window == window || (
        drag.hover is Some && drag.hover->0.target_window == window) || (drag.owner is Some
            && drag.owner->0.route_ids@.contains(route)),
        !defers_close(None, window, route),
        holds_config(Some(drag), window) <==> drag.source_window == window || (drag.owner is Some
            && drag.owner->0.window_id == window),
        !holds_config(None, window),
{
}

/// Timers are started once, with what they are to say when: the pane that is meant,
/// the event, and after how long.
pub proof fn law_timers_say_what_they_were_set_for(
    drag: Option<TabDrag>,
    preparing: bool,
    window: ToldWindow,
    config: EventConfig,
    millis: u64,
    route: usize,
)
    ensures
        ({
            let done = |event: UserEvent| told_actions(drag, preparing, window, config, event);
            let config_timer = done(UserEvent::PrepareUpdateConfig);
            let render = done(UserEvent::PrepareRender(millis));
            let pane = done(UserEvent::PrepareRenderOnRoute(millis, route));
            let blink = done(UserEvent::BlinkCursor(millis, route));
            &&& window.timer_running ==> config_timer.len() == 0 && render.len() == 0 && pane.len()
                == 0 && blink.len() == 0
            &&& !window.open ==> render.len() == 0
            &&& !window.timer_running ==> {
                &&& config_timer == seq![
                    UserAction::Schedule(Topic::UpdateConfig, 0, UserEvent::UpdateConfig, 250),
                ]
                &&& window.open ==> render == seq![
                    UserAction::Schedule(
                        Topic::Render,
                        window.current_route,
                        UserEvent::Render,
                        millis,
                    ),
                ]
                &&& pane == seq![
                    UserAction::Schedule(
                        Topic::ScheduledRenderRoute,
                        route,
                        UserEvent::RenderRoute(route),
                        millis,
                    ),
                ]
                &&& blink == seq![
                    UserAction::Schedule(
                        Topic::CursorBlinking,
                        route,
                        UserEvent::CursorBlinkingChangeOnRoute(route),
                        millis,
                    ),
                ]
            }
        }),
        timer_of(UserEvent::RenderRoute(route), window.current_route) == Some(
            (Topic::RenderRoute, route),
        ),
        timer_of(UserEvent::PrepareUpdateConfig, window.current_route) == Some(
            (Topic::UpdateConfig, 0usize),
        ),
        timer_of(UserEvent::PrepareRender(millis), window.current_route) == Some(
            (Topic::Render, window.current_route),
        ),
        timer_of(UserEvent::PrepareRenderOnRoute(millis, route), window.current_route) == Some(
            (Topic::ScheduledRenderRoute, route),
        ),
        timer_of(UserEvent::BlinkCursor(millis, route), window.current_route) == Some(
            (Topic::CursorBlinking, route),
        ),
{
}

/// What is told of a pane is done for that pane: its session is heard before it is
/// drawn, damage and graphics are drawn where the window has the pane, and closing is
/// put off for a drag.
pub proof fn law_panes_are_told_for_themselves(
    drag: Option<TabDrag>,
    preparing: bool,
    window: ToldWindow,
    config: EventConfig,
    route: usize,
    index: u16,
)
    ensures
        ({
            let done = |event: UserEvent| told_actions(drag, preparing, window, config, event);
            let heard = done(UserEvent::RenderRoute(route));
            let damaged = done(UserEvent::TerminalDamaged(route));
            let unfocused = config.disable_unfocused_render && !window.focused;
            let covered = config.disable_occluded_render && window.occluded
                && !window.needs_render_after_occlusion;
            &&& heard.len() >= 2
            &&& heard[heard.len() - 2] == UserAction::ProcessSession(route)
            &&& heard.last() == UserAction::RenderRoute(route, preparing)
            &&& preparing && window.open ==> heard.len() == 3 && heard[0]
                == UserAction::PrepareImports
            &&& config.event_based && window.open && !unfocused && !covered && window.has_pane
                ==> damaged == seq![UserAction::MarkDirty(route), UserAction::Redraw]
            &&& !(config.event_based && window.open && !unfocused && !covered && window.has_pane)
                ==> damaged.len() == 0
            &&& window.open && window.has_pane ==> done(UserEvent::UpdateGraphics(route)) == seq![
                UserAction::ApplyGraphics(route),
                UserAction::MarkDirty(route),
                UserAction::Redraw,
            ]
            &&& !window.open || !window.has_pane ==> done(UserEvent::UpdateGraphics(route)).len()
                == 0
            &&& done(UserEvent::CloseTerminal(route)).len() == 1
            &&& defers_close(drag, window.id, route) ==> done(UserEvent::CloseTerminal(route))[0]
                == UserAction::DeferClose(route)
            &&& !defers_close(drag, window.id, route) ==> done(UserEvent::CloseTerminal(route))[0]
                == UserAction::CloseTerminal(route)
            &&& window.open && route == window.current_route ==> done(
                UserEvent::CursorBlinkingChangeOnRoute(route),
            ) == seq![UserAction::DamageCursor, UserAction::Redraw] && done(
                UserEvent::Title(route),
            ) == seq![UserAction::SetWindowTitle]
            &&& !window.open || route != window.current_route ==> done(
                UserEvent::CursorBlinkingChangeOnRoute(route),
            ).len() == 0 && done(UserEvent::Title(route)).len() == 0
            &&& window.open && index == 257 && window.has_pane ==> done(
                UserEvent::ColorChange(route, index),
            ) == seq![UserAction::SetBackground(route)]
            &&& !window.open || index != 257 || !window.has_pane ==> done(
                UserEvent::ColorChange(route, index),
            ).len() == 0
        }),
{
}

/// What a closed window is told has no effect on it.
pub proof fn law_closed_windows_do_nothing(
    drag: Option<TabDrag>,
    preparing: bool,
    window: ToldWindow,
    config: EventConfig,
    index: usize,
    flag: bool,
)
    requires
        !window.open,
    ensures
        ({
            let idle = |event: UserEvent|
                told_actions(drag, preparing, window, config, event).len() == 0;
            &&& idle(UserEvent::Render)
            &&& idle(UserEvent::ReportToAssistant)
            &&& idle(UserEvent::Exit)
            &&& idle(UserEvent::GlyphProtocolInstalled)
            &&& idle(UserEvent::CursorBlinkingChange)
            &&& idle(UserEvent::ProgressReport)
            &&& idle(UserEvent::SelectionScrollTick)
            &&& idle(UserEvent::MouseCursorDirty)
            &&& idle(UserEvent::Scroll)
            &&& idle(UserEvent::ClipboardStore)
            &&& idle(UserEvent::MoveCurrentTabToNewWindow)
            &&& idle(UserEvent::ToggleAppearanceTheme)
            &&& idle(UserEvent::CreateNativeTab)
            &&& idle(UserEvent::SelectNativeTabByIndex(index))
            &&& idle(UserEvent::SelectNativeTabLast)
            &&& idle(UserEvent::SelectNativeTabNext)
            &&& idle(UserEvent::SelectNativeTabPrev)
            &&& idle(UserEvent::Minimize(flag))
            &&& idle(UserEvent::ToggleFullScreen)
        }),
{
}

/// What an open window is told is done: each event its own.
pub proof fn law_open_windows_do_what_they_are_told(
    drag: Option<TabDrag>,
    preparing: bool,
    window: ToldWindow,
    config: EventConfig,
    index: usize,
    flag: bool,
)
    requires
        window.open,
    ensures
        ({
            let done = |event: UserEvent| told_actions(drag, preparing, window, config, event);
            &&& done(UserEvent::ReportToAssistant) == seq![UserAction::Report]
            &&& config.confirm_before_quit ==> done(UserEvent::Exit) == seq![
                UserAction::ConfirmQuit,
            ]
            &&& !config.confirm_before_quit ==> done(UserEvent::Exit) == seq![UserAction::Quit]
            &&& done(UserEvent::GlyphProtocolInstalled) == seq![UserAction::InstallGlyphs]
            &&& done(UserEvent::CursorBlinkingChange) == seq![UserAction::Redraw]
            &&& window.has_island ==> done(UserEvent::ProgressReport) == seq![
                UserAction::Progress,
                UserAction::Redraw,
            ]
            &&& done(UserEvent::SelectionScrollTick) == seq![
                UserAction::SelectionScrollTick,
                UserAction::Redraw,
            ]
            &&& done(UserEvent::MouseCursorDirty) == seq![UserAction::ResetMouse]
            &&& done(UserEvent::Scroll) == seq![
                UserAction::ScrollDisplay,
                UserAction::RefreshHints,
                UserAction::SetCursorIcon,
            ]
            &&& window.focused ==> done(UserEvent::ClipboardStore) == seq![
                UserAction::StoreClipboard,
            ]
            &&& !window.focused ==> done(UserEvent::ClipboardStore).len() == 0
            &&& window.current_tab matches Some(tab) ==> done(
                UserEvent::MoveCurrentTabToNewWindow,
            ) == seq![UserAction::Detach(tab)]
            &&& done(UserEvent::ToggleAppearanceTheme) == seq![UserAction::ToggleTheme]
            &&& done(UserEvent::CreateNativeTab) == seq![UserAction::CreateNativeTab]
            &&& done(UserEvent::SelectNativeTabByIndex(index)) == seq![
                UserAction::SelectNativeTab(index),
            ]
            &&& window.native_tabs > 0 ==> (done(UserEvent::SelectNativeTabLast).len() == 1 && (
            done(UserEvent::SelectNativeTabLast)[0] matches UserAction::SelectNativeTab(last)
                && last == window.native_tabs - 1))
            &&& done(UserEvent::SelectNativeTabNext) == seq![UserAction::SelectNextNativeTab]
            &&& done(UserEvent::SelectNativeTabPrev) == seq![UserAction::SelectPreviousNativeTab]
            &&& done(UserEvent::Minimize(flag)) == seq![UserAction::SetMinimized(flag)]
            &&& done(UserEvent::ToggleFullScreen) == seq![
                UserAction::SetFullscreen(!window.fullscreen),
            ]
        }),
{
}

/// What the program is told is done whatever becomes of the window.
pub proof fn law_program_does_what_it_is_told(
    drag: Option<TabDrag>,
    preparing: bool,
    window: ToldWindow,
    config: EventConfig,
)
    ensures
        ({
            let done = |event: UserEvent| told_actions(drag, preparing, window, config, event);
            &&& done(UserEvent::UpdateConfig) == seq![UserAction::LoadConfig]
            &&& done(UserEvent::Outdated).len() == 0
            &&& config.audio_bell ==> done(UserEvent::Bell) == seq![UserAction::Bell]
            &&& !config.audio_bell ==> done(UserEvent::Bell).len() == 0
            &&& done(UserEvent::DesktopNotification) == seq![UserAction::Notify]
            &&& done(UserEvent::UpdateTitles) == seq![UserAction::UpdateTitles]
            &&& done(UserEvent::CreateWindow) == seq![UserAction::CreateWindow]
            &&& done(UserEvent::MergeWindow) == seq![UserAction::MergeAction]
            &&& done(UserEvent::ToggleQuake) == seq![UserAction::ToggleQuake]
            &&& done(UserEvent::CloseWindow) == seq![UserAction::CloseNativeWindow]
            &&& done(UserEvent::HideApplication) == seq![UserAction::HideApplication]
            &&& done(UserEvent::HideOtherApplications) == seq![UserAction::HideOtherApplications]
            &&& holds_config(drag, window.id) ==> done(UserEvent::CreateConfigEditor).len() == 0
            &&& !holds_config(drag, window.id) && config.open_config_with_split ==> done(
                UserEvent::CreateConfigEditor,
            ) == seq![UserAction::OpenConfigSplit]
            &&& !holds_config(drag, window.id) && !config.open_config_with_split ==> done(
                UserEvent::CreateConfigEditor,
            ) == seq![UserAction::OpenConfigWindow]
        }),
{
}

/// A window prepares panes while some that it took in are not all shown.
pub proof fn law_windows_prepare_until_all_is_shown(list: Seq<PreparedModel>, window: u64)
    ensures
        is_preparing(list, window) <==> exists|i: int|
            0 <= i < list.len() && (#[trigger] list[i]).window_id == window,
{
}

} // verus!
