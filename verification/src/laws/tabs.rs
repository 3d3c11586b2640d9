//! The tabs of a window and their panes: which ones are opened, focused, moved
//! and closed, and which sessions end with them.

use crate::context::manager::{
    all_closed, all_routes, all_sessions, any_shows, closed_sessions, index_after_removal,
    overlays_cleared, removals, tab_with_id, tab_with_route, tabs_elsewhere, tabs_focused_on,
    DrawCommand, ManagerModel, RioEvent,
};
use crate::context::pane::Context;
use crate::context::session::{HandleModel, SessionHandle};
use crate::context::tab::{pane_with_route, sessions_of, TabModel};
use vstd::prelude::*;

verus! {

/// A session that was told to close, and is otherwise as it was.
pub open spec fn is_shut(now: HandleModel, before: HandleModel) -> bool {
    &&& now.closed
    &&& now.commands == before.commands
    &&& now.capacity == before.capacity
    &&& now.receiving == before.receiving
    &&& now.owners == before.owners
    &&& now.signalled == (before.signalled || !before.closed)
    &&& now.state == before.state
    &&& now.window_id == before.window_id
    &&& now.selection_in_flight == before.selection_in_flight
}

/// Just the sessions of some panes, closed.
pub open spec fn are_sessions_of(closed: Seq<HandleModel>, panes: Seq<Context>) -> bool {
    &&& closed.len() <= panes.len()
    &&& forall|k: int| 0 <= k < closed.len() ==> is_one_of(#[trigger] closed[k], panes)
    &&& forall|p: int|
        0 <= p < panes.len() && (#[trigger] panes[p]).terminal@.session is Some ==> is_among(
            closed,
            panes[p].terminal@.session->0,
        )
}

/// The session is that of one of the panes, closed.
pub open spec fn is_one_of(closed: HandleModel, panes: Seq<Context>) -> bool {
    exists|p: int|
        0 <= p < panes.len() && (#[trigger] panes[p]).terminal@.session is Some && is_shut(
            closed,
            panes[p].terminal@.session->0,
        )
}

/// The session is among the closed ones.
pub open spec fn is_among(closed: Seq<HandleModel>, session: HandleModel) -> bool {
    exists|k: int| 0 <= k < closed.len() && is_shut(#[trigger] closed[k], session)
}

/// The panes that go give their sessions up, each closed, and no others.
pub proof fn law_closed_sessions_are_those_of_the_panes(panes: Seq<Context>, n: int)
    requires
        0 <= n <= panes.len(),
    ensures
        are_sessions_of(closed_sessions(panes, n), panes.take(n)),
    decreases n,
{
    let all = closed_sessions(panes, n);
    let those = panes.take(n);
    if n > 0 {
        law_closed_sessions_are_those_of_the_panes(panes, n - 1);
        let less = closed_sessions(panes, n - 1);
        let fewer = panes.take(n - 1);
        assert forall|p: int|
            0 <= p < those.len() && (
            #[trigger] those[p]).terminal@.session is Some implies is_among(
            all,
            those[p].terminal@.session->0,
        ) by {
            if p < n - 1 {
                assert(fewer[p] == those[p]);
                let k = choose|k: int|
                    0 <= k < less.len() && is_shut(
                        #[trigger] less[k],
                        fewer[p].terminal@.session->0,
                    );
                assert(all[k] == less[k]);
            } else {
                assert(is_shut(all[all.len() - 1], those[p].terminal@.session->0));
            }
        }
        assert forall|k: int| 0 <= k < all.len() implies is_one_of(#[trigger] all[k], those) by {
            if k < less.len() {
                assert(all[k] == less[k]);
                let p = choose|p: int|
                    0 <= p < fewer.len() && (#[trigger] fewer[p]).terminal@.session is Some
                        && is_shut(less[k], fewer[p].terminal@.session->0);
                assert(those[p] == fewer[p]);
            } else {
                assert(those[n - 1].terminal@.session is Some);
            }
        }
    }
}

/// What is put behind what was there.
proof fn lemma_added<A>(before: Seq<A>, added: Seq<A>)
    ensures
        (before + added).take(before.len() as int) == before,
        (before + added).skip(before.len() as int) == added,
{
    assert((before + added).take(before.len() as int) =~= before);
    assert((before + added).skip(before.len() as int) =~= added);
}

proof fn lemma_retired(before: ManagerModel, panes: Seq<Context>)
    ensures
        before.retiring(panes).retired.len() >= before.retired.len(),
        before.retiring(panes).retired.take(before.retired.len() as int) == before.retired,
        are_sessions_of(before.retiring(panes).retired.skip(before.retired.len() as int), panes),
{
    let n = panes.len() as int;
    law_closed_sessions_are_those_of_the_panes(panes, n);
    assert(panes.take(n) =~= panes);
    lemma_added(before.retired, closed_sessions(panes, n));
}

/// Closing the focused tab of a window that has others leaves every other tab in
/// its order, and no tab with the identity of the closed one. The tab before it
/// gets the focus, or the first one.
pub proof fn law_closing_closes_the_focused_tab(before: ManagerModel)
    requires
        before.well_formed(),
        before.tabs.len() > 1,
    ensures
        ({
            let now = before.closing_current();
            let at = before.current_index;
            &&& now.tabs.len() == before.tabs.len() - 1
            &&& forall|i: int| 0 <= i < at ==> #[trigger] now.tabs[i] == before.tabs[i]
            &&& forall|i: int|
                at <= i < now.tabs.len() ==> #[trigger] now.tabs[i] == before.tabs[i + 1]
            &&& (forall|i: int|
                0 <= i < before.tabs.len() && i != at ==> (#[trigger] before.tabs[i]).id
                    != before.tabs[at].id) ==> forall|i: int|
                0 <= i < now.tabs.len() ==> (#[trigger] now.tabs[i]).id != before.tabs[at].id
            &&& now.current_index == if at > 1 {
                at - 1
            } else {
                0
            }
            &&& now.capacity == before.capacity
            &&& now.window_id == before.window_id
            &&& now.config == before.config
            &&& now.bootstrap_transfer == before.bootstrap_transfer
        }),
{
}

/// Closing the focused tab puts just the sessions of its panes aside, takes just
/// that tab off the screen, and announces the title of the tab that has the focus
/// now.
#[verifier::rlimit(40)]
pub proof fn law_closing_ends_the_sessions_of_the_focused_tab(before: ManagerModel)
    requires
        before.well_formed(),
        before.tabs.len() > 1,
    ensures
        ({
            let now = before.closing_current();
            let tab = before.tabs[before.current_index];
            let shown = now.tabs[now.current_index];
            let pane = shown.panes[shown.current];
            let aside = before.retired.len() as int;
            let drawn = before.draws.len() as int;
            &&& now.retired.len() >= aside
            &&& now.retired.take(aside) == before.retired
            &&& are_sessions_of(now.retired.skip(aside), tab.panes)
            &&& now.draws.len() > drawn
            &&& now.draws.take(drawn) == before.draws
            &&& now.draws[drawn] == DrawCommand::RemoveTab(tab.id)
            &&& forall|k: int|
                drawn < k < now.draws.len() ==> (#[trigger] now.draws[k]) is ClearOverlays
            &&& now.events == before.events.push(
                RioEvent::Title(pane.route_id, pane.title.content),
            )
        }),
{
    let now = before.closing_current();
    let tab = before.tabs[before.current_index];
    lemma_retired(before, tab.panes);
    lemma_overlays(now.tabs, now.current_index, now.tabs.len() as int);
    assert(now.retired == before.retiring(tab.panes).retired);
    assert(now.draws.take(before.draws.len() as int) =~= before.draws);
}

proof fn lemma_overlays(tabs: Seq<TabModel>, current: int, n: int)
    requires
        0 <= n <= tabs.len(),
    ensures
        forall|k: int|
            0 <= k < overlays_cleared(tabs, current, n).len() ==> (#[trigger] overlays_cleared(
                tabs,
                current,
                n,
            )[k]) is ClearOverlays,
    decreases n,
{
    if n > 0 {
        lemma_overlays(tabs, current, n - 1);
    }
}

/// The only tab of a window is not closed: the window is, where that is asked
/// for, and else nothing happens.
pub proof fn law_last_tab_is_not_closed(before: ManagerModel)
    requires
        before.tabs.len() <= 1,
    ensures
        before.closing_current().tabs == before.tabs,
        before.closing_current().current_index == before.current_index,
        before.closing_current().retired == before.retired,
        before.closing_current().draws == before.draws,
        before.closing_current().events == if before.config.closes_last_tab {
            before.events.push(RioEvent::CloseWindow)
        } else {
            before.events
        },
{
}

/// A tab that is selected gets the focus, and its title is announced; one that is
/// not there changes nothing. No tab, and nothing that is drawn, changes with the
/// focus.
pub proof fn law_selected_tab_has_the_focus(before: ManagerModel, index: int)
    ensures
        0 <= index < before.tabs.len() ==> {
            let now = before.selecting(index);
            let pane = before.tabs[index].panes[before.tabs[index].current];
            &&& now.current_index == index
            &&& now.tabs == before.tabs
            &&& now.draws == before.draws
            &&& now.retired == before.retired
            &&& now.events == before.events.push(
                RioEvent::Title(pane.route_id, pane.title.content),
            )
            &&& !before.config.is_native ==> before.choosing(index) == now
        },
        !(0 <= index < before.tabs.len()) ==> before.selecting(index) == before,
        before.config.is_native ==> {
            let now = before.choosing(index);
            &&& now.current_index == before.current_index
            &&& now.tabs == before.tabs
            &&& now.events == before.events.push(RioEvent::SelectNativeTabByIndex(index as usize))
        },
{
}

/// Going on from tab to tab comes round: every tab is followed by its right
/// neighbour, the last one by the first, and the way back undoes it.
pub proof fn law_next_and_previous_tab_are_neighbours(before: ManagerModel)
    requires
        before.well_formed(),
        before.tabs.len() > 0,
    ensures
        ({
            let n = before.tabs.len() as int;
            let at = before.current_index;
            &&& 0 <= before.next_index() < n
            &&& 0 <= before.previous_index() < n
            &&& at < n - 1 ==> before.next_index() == at + 1
            &&& at == n - 1 ==> before.next_index() == 0
            &&& at > 0 ==> before.previous_index() == at - 1
            &&& at == 0 ==> before.previous_index() == n - 1
            &&& (ManagerModel {
                current_index: before.next_index(),
                ..before
            }).previous_index() == at
            &&& (ManagerModel {
                current_index: before.previous_index(),
                ..before
            }).next_index() == at
        }),
{
}

/// A tab that is taken out leaves the others in their order. The focused tab
/// keeps the focus; where it is the one that goes, the tab behind it gets the
/// focus, or else the one before it.
pub proof fn law_tab_taken_out_leaves_the_others(before: ManagerModel, index: int)
    requires
        before.well_formed(),
        0 <= index < before.tabs.len(),
    ensures
        ({
            let now = before.without_tab(index);
            let at = before.current_index;
            &&& now.tabs.len() == before.tabs.len() - 1
            &&& forall|i: int| 0 <= i < index ==> #[trigger] now.tabs[i] == before.tabs[i]
            &&& forall|i: int|
                index <= i < now.tabs.len() ==> #[trigger] now.tabs[i] == before.tabs[i + 1]
            &&& at != index ==> now.tabs[now.current_index] == before.tabs[at]
            &&& at == index && at + 1 < before.tabs.len() ==> now.tabs[now.current_index]
                == before.tabs[at + 1]
            &&& at == index && at + 1 == before.tabs.len() && at > 0
                ==> now.tabs[now.current_index] == before.tabs[at - 1]
            &&& now.retired == before.retired
            &&& now.draws == before.draws
            &&& now.events == before.events
            &&& now.capacity == before.capacity
            &&& now.window_id == before.window_id
        }),
{
}

/// The focus behind the removal of a tab: a tab before the focused one shifts it
/// by one, the focused one gives it to its left neighbour, and one behind it
/// changes nothing.
pub proof fn law_focus_follows_a_removal(current: usize, removed: usize)
    ensures
        removed > current ==> index_after_removal(current, removed) == current,
        removed <= current && current > 0 ==> index_after_removal(current, removed) == current - 1,
        current == 0 ==> index_after_removal(current, removed) == 0,
{
}

/// A pane is found by its number: the first one that has it, and none only where
/// none has it.
pub proof fn law_panes_are_found_by_number(panes: Seq<Context>, route: usize, from: int)
    requires
        0 <= from <= panes.len(),
    ensures
        match pane_with_route(panes, route, from) {
            Some(i) => {
                &&& from <= i < panes.len()
                &&& panes[i].route_id == route
                &&& forall|j: int| from <= j < i ==> (#[trigger] panes[j]).route_id != route
            },
            None => forall|j: int|
                from <= j < panes.len() ==> (#[trigger] panes[j]).route_id != route,
        },
    decreases panes.len() - from,
{
    if from < panes.len() && panes[from].route_id != route {
        law_panes_are_found_by_number(panes, route, from + 1);
    }
}

/// The tab with a pane is found by the number of the pane: the first one that has
/// it, and none only where none has it.
pub proof fn law_tabs_are_found_by_pane(tabs: Seq<TabModel>, route: usize, from: int)
    requires
        0 <= from <= tabs.len(),
    ensures
        match tab_with_route(tabs, route, from) {
            Some(i) => {
                &&& from <= i < tabs.len()
                &&& exists|p: int|
                    0 <= p < tabs[i].panes.len() && (#[trigger] tabs[i].panes[p]).route_id == route
                &&& forall|j: int, p: int|
                    #![trigger tabs[j].panes[p]]
                    from <= j < i && 0 <= p < tabs[j].panes.len() ==> tabs[j].panes[p].route_id
                        != route
            },
            None => forall|j: int, p: int|
                #![trigger tabs[j].panes[p]]
                from <= j < tabs.len() && 0 <= p < tabs[j].panes.len()
                    ==> tabs[j].panes[p].route_id != route,
        },
    decreases tabs.len() - from,
{
    if from < tabs.len() {
        law_panes_are_found_by_number(tabs[from].panes, route, 0);
        match pane_with_route(tabs[from].panes, route, 0) {
            Some(p) => {
                assert(tabs[from].panes[p].route_id == route);
            },
            None => {
                law_tabs_are_found_by_pane(tabs, route, from + 1);
            },
        }
    }
}

/// A tab is found by its identity: the first one that has it, and none only where
/// none has it.
pub proof fn law_tabs_are_found_by_identity(tabs: Seq<TabModel>, id: u64, from: int)
    requires
        0 <= from <= tabs.len(),
    ensures
        match tab_with_id(tabs, id, from) {
            Some(i) => {
                &&& from <= i < tabs.len()
                &&& tabs[i].id == id
                &&& forall|j: int| from <= j < i ==> (#[trigger] tabs[j]).id != id
            },
            None => forall|j: int| from <= j < tabs.len() ==> (#[trigger] tabs[j]).id != id,
        },
    decreases tabs.len() - from,
{
    if from < tabs.len() && tabs[from].id != id {
        law_tabs_are_found_by_identity(tabs, id, from + 1);
    }
}

/// A pane whose program ended goes: no pane of the window has its number any
/// more where none had it twice, every other pane stays where it was, and just
/// its session is put aside. A tab without panes goes with its last one.
#[verifier::rlimit(40)]
pub proof fn law_ended_pane_leaves_alone(before: ManagerModel, route: usize, t: int, p: int)
    requires
        before.well_formed(),
        0 <= t < before.tabs.len(),
        0 <= p < before.tabs[t].panes.len(),
        before.tabs[t].panes[p].route_id == route,
        forall|u: int, q: int|
            #![trigger before.tabs[u].panes[q]]
            0 <= u < before.tabs.len() && 0 <= q < before.tabs[u].panes.len()
                && before.tabs[u].panes[q].route_id == route ==> u == t && q == p,
    ensures
        ({
            let now = before.without_route(route);
            let aside = before.retired.len() as int;
            let tab = before.tabs[t];
            &&& now.retired.len() >= aside
            &&& now.retired.take(aside) == before.retired
            &&& are_sessions_of(now.retired.skip(aside), seq![tab.panes[p]])
            &&& now.events == before.events
            &&& now.window_id == before.window_id
            &&& tab.panes.len() > 1 ==> {
                &&& now.tabs.len() == before.tabs.len()
                &&& now.current_index == before.current_index
                &&& forall|i: int|
                    0 <= i < now.tabs.len() && i != t ==> #[trigger] now.tabs[i] == before.tabs[i]
                &&& now.tabs[t].id == tab.id
                &&& now.tabs[t].custom_title == tab.custom_title
                &&& now.tabs[t].custom_color == tab.custom_color
                &&& now.tabs[t].panes.len() == tab.panes.len() - 1
                &&& forall|i: int| 0 <= i < p ==> #[trigger] now.tabs[t].panes[i] == tab.panes[i]
                &&& forall|i: int|
                    p <= i < now.tabs[t].panes.len() ==> #[trigger] now.tabs[t].panes[i]
                        == tab.panes[i + 1]
                &&& tab.current != p ==> now.tabs[t].panes[now.tabs[t].current]
                    == tab.panes[tab.current]
                &&& now.draws == before.draws.push(DrawCommand::RemovePane(route))
            }
            &&& tab.panes.len() == 1 ==> {
                &&& now.tabs == before.without_tab(t).tabs
                &&& now.current_index == before.without_tab(t).current_index
                &&& now.draws.len() > before.draws.len()
                &&& now.draws[before.draws.len() as int] == DrawCommand::RemoveTab(tab.id)
            }
        }),
{
    law_tabs_are_found_by_pane(before.tabs, route, 0);
    let tab = before.tabs[t];
    law_panes_are_found_by_number(tab.panes, route, 0);
    assert(tab.panes[p].route_id == route);
    assert(tab_with_route(before.tabs, route, 0) == Some(t)) by {
        assert(before.tabs[t].panes[p].route_id == route);
        let u = tab_with_route(before.tabs, route, 0)->0;
        let q = choose|q: int|
            0 <= q < before.tabs[u].panes.len() && (#[trigger] before.tabs[u].panes[q]).route_id
                == route;
        assert(before.tabs[u].panes[q].route_id == route);
    }
    assert(pane_with_route(tab.panes, route, 0) == Some(p)) by {
        let q = pane_with_route(tab.panes, route, 0)->0;
        assert(before.tabs[t].panes[q].route_id == route);
    }
    lemma_retired(before, seq![tab.panes[p]]);
    lemma_retired(before, tab.panes);
    assert(tab.panes.len() == 1 ==> tab.panes =~= seq![tab.panes[p]]);
    assert(before.tabs[t].well_formed());
}

/// A pane that no tab has changes nothing.
pub proof fn law_unknown_pane_changes_nothing(before: ManagerModel, route: usize)
    requires
        forall|u: int, q: int|
            #![trigger before.tabs[u].panes[q]]
            0 <= u < before.tabs.len() && 0 <= q < before.tabs[u].panes.len()
                ==> before.tabs[u].panes[q].route_id != route,
    ensures
        before.without_route(route) == before,
{
    law_tabs_are_found_by_pane(before.tabs, route, 0);
}

/// A pane that is taken out of a tab leaves the others in their order. The
/// focused pane keeps the focus, unless it was the last one; the focus of one
/// that goes falls to the pane behind it, or else to the one before it.
pub proof fn law_pane_taken_out_leaves_the_others(before: TabModel, index: int)
    requires
        before.well_formed(),
        0 <= index < before.panes.len(),
        before.panes.len() > 1,
    ensures
        ({
            let now = before.without_pane(index);
            &&& now.id == before.id
            &&& now.custom_title == before.custom_title
            &&& now.custom_color == before.custom_color
            &&& now.panes.len() == before.panes.len() - 1
            &&& forall|i: int| 0 <= i < index ==> #[trigger] now.panes[i] == before.panes[i]
            &&& forall|i: int|
                index <= i < now.panes.len() ==> #[trigger] now.panes[i] == before.panes[i + 1]
            &&& 0 <= now.current < now.panes.len()
            &&& before.current != index ==> now.panes[now.current] == before.panes[before.current]
            &&& before.current == index && index < before.panes.len() - 1
                ==> now.panes[now.current] == before.panes[index + 1]
            &&& before.current == index && index == before.panes.len() - 1
                ==> now.panes[now.current] == before.panes[index - 1]
        }),
{
}

/// A pane that is put beside the focused one stands right behind it and has the
/// focus; the others stay in their order.
pub proof fn law_split_stands_behind_the_focused_pane(before: TabModel, pane: Context)
    requires
        before.well_formed(),
    ensures
        ({
            let now = before.with_split(pane);
            &&& now.panes.len() == before.panes.len() + 1
            &&& now.current == before.current + 1
            &&& now.panes[now.current] == pane
            &&& forall|i: int|
                0 <= i <= before.current ==> #[trigger] now.panes[i] == before.panes[i]
            &&& forall|i: int|
                before.current + 1 < i < now.panes.len() ==> #[trigger] now.panes[i]
                    == before.panes[i - 1]
            &&& now.id == before.id
            &&& now.custom_title == before.custom_title
            &&& now.custom_color == before.custom_color
        }),
{
}

/// Another pane of the focused tab gets the focus, and nothing else changes.
pub proof fn law_refocusing_changes_the_focus_alone(before: ManagerModel, pane: int)
    requires
        before.well_formed(),
        before.tabs.len() > 0,
    ensures
        ({
            let now = before.refocused(pane);
            let at = before.current_index;
            &&& now.tabs.len() == before.tabs.len()
            &&& now.current_index == at
            &&& now.tabs[at].current == pane
            &&& now.tabs[at].panes == before.tabs[at].panes
            &&& now.tabs[at].id == before.tabs[at].id
            &&& now.tabs[at].custom_title == before.tabs[at].custom_title
            &&& now.tabs[at].custom_color == before.tabs[at].custom_color
            &&& forall|i: int|
                0 <= i < now.tabs.len() && i != at ==> #[trigger] now.tabs[i] == before.tabs[i]
            &&& now.events == before.events
            &&& now.draws == before.draws
            &&& now.retired == before.retired
        }),
{
}

/// The focused tab changes places with another one and keeps the focus; the
/// others stay where they are.
pub proof fn law_swapped_tabs_change_places(before: ManagerModel, target: int)
    requires
        before.well_formed(),
        0 <= target < before.tabs.len(),
    ensures
        ({
            let now = before.swapped(target);
            let at = before.current_index;
            &&& now.tabs.len() == before.tabs.len()
            &&& now.tabs[target] == before.tabs[at]
            &&& now.tabs[at] == before.tabs[target]
            &&& forall|i: int|
                0 <= i < now.tabs.len() && i != at && i != target ==> #[trigger] now.tabs[i]
                    == before.tabs[i]
            &&& !before.config.is_native ==> now.current_index == target
            &&& before.config.is_native ==> now.current_index == at
            &&& now.retired == before.retired
            &&& now.draws == before.draws
        }),
{
}

/// The focused tab moves to a position and keeps the focus; the others keep their
/// order among themselves.
pub proof fn law_moved_tab_stands_where_it_was_put(before: ManagerModel, target: int)
    requires
        before.well_formed(),
        0 <= target < before.tabs.len(),
    ensures
        ({
            let now = before.moved_to(target);
            let at = before.current_index;
            &&& now.tabs.len() == before.tabs.len()
            &&& now.current_index == target
            &&& now.tabs[target] == before.tabs[at]
            &&& now.tabs.remove(target) == before.tabs.remove(at)
            &&& now.retired == before.retired
            &&& now.draws == before.draws
        }),
{
    let now = before.moved_to(target);
    assert(now.tabs.remove(target) =~= before.tabs.remove(before.current_index));
}

/// Closing the other tabs keeps just the tabs whose focused pane is the focused
/// one, in their order.
pub proof fn law_kept_tabs_have_the_focused_pane(tabs: Seq<TabModel>, route: usize, n: int)
    requires
        0 <= n <= tabs.len(),
    ensures
        tabs_focused_on(tabs, route, n) == tabs.take(n).filter(
            |t: TabModel| t.panes[t.current].route_id == route,
        ),
        tabs_elsewhere(tabs, route, n) == tabs.take(n).filter(
            |t: TabModel| t.panes[t.current].route_id != route,
        ),
    decreases n,
{
    reveal(Seq::filter);
    if n > 0 {
        law_kept_tabs_have_the_focused_pane(tabs, route, n - 1);
        assert(tabs.take(n).drop_last() =~= tabs.take(n - 1));
        assert(tabs.take(n).last() == tabs[n - 1]);
    } else {
        assert(tabs.take(n) =~= Seq::<TabModel>::empty());
    }
}

/// Behind the closing of the other tabs the first of those that are left has the
/// focus, and each tab that went is taken off the screen.
#[verifier::rlimit(40)]
pub proof fn law_closing_others_keeps_the_focused_tab(before: ManagerModel)
    requires
        before.well_formed(),
        before.tabs.len() > 0,
    ensures
        ({
            let now = before.only_focused();
            let tab = before.tabs[before.current_index];
            let route = tab.panes[tab.current].route_id;
            let gone = before.tabs.filter(|t: TabModel| t.panes[t.current].route_id != route);
            let drawn = before.draws.len() as int;
            &&& now.tabs == before.tabs.filter(
                |t: TabModel| t.panes[t.current].route_id == route,
            )
            &&& now.draws.len() == drawn + gone.len()
            &&& now.draws.take(drawn) == before.draws
            &&& forall|i: int|
                0 <= i < gone.len() ==> now.draws[drawn + i] == DrawCommand::RemoveTab(
                    (#[trigger] gone[i]).id,
                )
            &&& now.tabs.len() > 0 ==> now.current_index == 0
            &&& now.retired.len() >= before.retired.len()
            &&& now.retired.take(before.retired.len() as int) == before.retired
            &&& forall|t: int, p: int|
                #![trigger gone[t].panes[p]]
                0 <= t < gone.len() && 0 <= p < gone[t].panes.len()
                    && gone[t].panes[p].terminal@.session is Some ==> is_among(
                    now.retired.skip(before.retired.len() as int),
                    gone[t].panes[p].terminal@.session->0,
                )
            &&& forall|k: int|
                before.retired.len() <= k < now.retired.len() ==> exists|t: int|
                    0 <= t < gone.len() && is_one_of(
                        #[trigger] now.retired[k],
                        (#[trigger] gone[t]).panes,
                    )
        }),
{
    let n = before.tabs.len() as int;
    let tab = before.tabs[before.current_index];
    let route = tab.panes[tab.current].route_id;
    law_kept_tabs_have_the_focused_pane(before.tabs, route, n);
    assert(before.tabs.take(n) =~= before.tabs);
    let gone = tabs_elsewhere(before.tabs, route, n);
    lemma_removals(gone, gone.len() as int);
    lemma_added(before.retired, all_closed(gone, gone.len() as int));
    lemma_added(before.draws, removals(gone, gone.len() as int));
    law_closed_tabs_end_all_their_sessions(gone, gone.len() as int);
    let now = before.only_focused();
    let ended = all_closed(gone, gone.len() as int);
    assert forall|k: int| before.retired.len() <= k < now.retired.len() implies exists|t: int|
        0 <= t < gone.len() && is_one_of(#[trigger] now.retired[k], (#[trigger] gone[t]).panes) by {
        assert(now.retired[k] == ended[k - before.retired.len()]);
        let t = choose|t: int|
            0 <= t < gone.len() && is_one_of(
                ended[k - before.retired.len()],
                (#[trigger] gone[t]).panes,
            );
        assert(is_one_of(now.retired[k], gone[t].panes));
    }
}

proof fn lemma_removals(tabs: Seq<TabModel>, n: int)
    requires
        0 <= n <= tabs.len(),
    ensures
        removals(tabs, n).len() == n,
        forall|i: int|
            0 <= i < n ==> #[trigger] removals(tabs, n)[i] == DrawCommand::RemoveTab(tabs[i].id),
    decreases n,
{
    if n > 0 {
        lemma_removals(tabs, n - 1);
    }
}

/// The sessions of tabs that are closed are those of all their panes.
pub proof fn law_closed_tabs_end_all_their_sessions(tabs: Seq<TabModel>, n: int)
    requires
        0 <= n <= tabs.len(),
    ensures
        forall|k: int|
            0 <= k < all_closed(tabs, n).len() ==> exists|t: int|
                0 <= t < n && is_one_of(
                    #[trigger] all_closed(tabs, n)[k],
                    (#[trigger] tabs[t]).panes,
                ),
        forall|t: int, p: int|
            #![trigger tabs[t].panes[p]]
            0 <= t < n && 0 <= p < tabs[t].panes.len() && tabs[t].panes[p].terminal@.session is Some
                ==> is_among(all_closed(tabs, n), tabs[t].panes[p].terminal@.session->0),
    decreases n,
{
    if n > 0 {
        law_closed_tabs_end_all_their_sessions(tabs, n - 1);
        let panes = tabs[n - 1].panes;
        law_closed_sessions_are_those_of_the_panes(panes, panes.len() as int);
        assert(panes.take(panes.len() as int) =~= panes);
        let less = all_closed(tabs, n - 1);
        let more = closed_sessions(panes, panes.len() as int);
        let all = all_closed(tabs, n);
        assert(all == less + more);
        assert forall|k: int| 0 <= k < all.len() implies exists|t: int|
            0 <= t < n && is_one_of(#[trigger] all[k], (#[trigger] tabs[t]).panes) by {
            if k < less.len() {
                assert(all[k] == less[k]);
                let t = choose|t: int|
                    0 <= t < n - 1 && is_one_of(less[k], (#[trigger] tabs[t]).panes);
                assert(is_one_of(all[k], tabs[t].panes));
            } else {
                assert(all[k] == more[k - less.len()]);
                assert(is_one_of(all[k], tabs[n - 1].panes));
            }
        }
        assert forall|t: int, p: int|
            #![trigger tabs[t].panes[p]]
            0 <= t < n && 0 <= p < tabs[t].panes.len()
                && tabs[t].panes[p].terminal@.session is Some implies is_among(
            all,
            tabs[t].panes[p].terminal@.session->0,
        ) by {
            let session = tabs[t].panes[p].terminal@.session->0;
            if t < n - 1 {
                let k = choose|k: int| 0 <= k < less.len() && is_shut(#[trigger] less[k], session);
                assert(all[k] == less[k]);
            } else {
                let k = choose|k: int| 0 <= k < more.len() && is_shut(#[trigger] more[k], session);
                assert(all[less.len() + k] == more[k]);
            }
        }
    }
}

/// The list of all panes names each pane of each tab, and nothing else.
pub proof fn law_listed_panes_are_all_panes(tabs: Seq<TabModel>, n: int, route: usize)
    requires
        0 <= n <= tabs.len(),
    ensures
        all_routes(tabs, n).contains(route) <==> exists|t: int, p: int|
            #![trigger tabs[t].panes[p]]
            0 <= t < n && 0 <= p < tabs[t].panes.len() && tabs[t].panes[p].route_id == route,
    decreases n,
{
    if n > 0 {
        law_listed_panes_are_all_panes(tabs, n - 1, route);
        let less = all_routes(tabs, n - 1);
        let all = all_routes(tabs, n);
        let panes = tabs[n - 1].panes;
        if all.contains(route) {
            let k = choose|k: int| 0 <= k < all.len() && all[k] == route;
            if k < less.len() {
                assert(less[k] == route);
            } else {
                assert(tabs[n - 1].panes[k - less.len()].route_id == route);
            }
        }
        if exists|t: int, p: int|
            #![trigger tabs[t].panes[p]]
            0 <= t < n && 0 <= p < tabs[t].panes.len() && tabs[t].panes[p].route_id == route {
            let (t, p) = choose|t: int, p: int|
                #![trigger tabs[t].panes[p]]
                0 <= t < n && 0 <= p < tabs[t].panes.len() && tabs[t].panes[p].route_id == route;
            if t < n - 1 {
                assert(less.contains(route));
                let k = choose|k: int| 0 <= k < less.len() && less[k] == route;
                assert(all[k] == route);
            } else {
                assert(all[less.len() + p] == route);
            }
        }
    }
}

proof fn lemma_sessions_of(panes: Seq<Context>, n: int, session: SessionHandle)
    requires
        0 <= n <= panes.len(),
    ensures
        sessions_of(panes, n).contains(session) <==> exists|p: int|
            0 <= p < n && (#[trigger] panes[p]).terminal.session == Some(session),
    decreases n,
{
    if n > 0 {
        lemma_sessions_of(panes, n - 1, session);
        let less = sessions_of(panes, n - 1);
        let all = sessions_of(panes, n);
        if all.contains(session) {
            let k = choose|k: int| 0 <= k < all.len() && all[k] == session;
            if k < less.len() {
                assert(less[k] == session);
            } else {
                assert(panes[n - 1].terminal.session == Some(session));
            }
        }
        if exists|p: int| 0 <= p < n && (#[trigger] panes[p]).terminal.session == Some(session) {
            let p = choose|p: int|
                0 <= p < n && (#[trigger] panes[p]).terminal.session == Some(session);
            if p < n - 1 {
                let k = choose|k: int| 0 <= k < less.len() && less[k] == session;
                assert(all[k] == session);
            } else {
                assert(all[all.len() - 1] == session);
            }
        }
    }
}

/// The list of all sessions names the session of each pane, and nothing else.
pub proof fn law_listed_sessions_are_those_of_the_panes(
    tabs: Seq<TabModel>,
    n: int,
    session: SessionHandle,
)
    requires
        0 <= n <= tabs.len(),
    ensures
        all_sessions(tabs, n).contains(session) <==> exists|t: int, p: int|
            #![trigger tabs[t].panes[p]]
            0 <= t < n && 0 <= p < tabs[t].panes.len() && tabs[t].panes[p].terminal.session
                == Some(session),
    decreases n,
{
    if n > 0 {
        law_listed_sessions_are_those_of_the_panes(tabs, n - 1, session);
        let panes = tabs[n - 1].panes;
        lemma_sessions_of(panes, panes.len() as int, session);
        let less = all_sessions(tabs, n - 1);
        let more = sessions_of(panes, panes.len() as int);
        let all = all_sessions(tabs, n);
        assert(all == less + more);
        if all.contains(session) {
            let k = choose|k: int| 0 <= k < all.len() && all[k] == session;
            if k < less.len() {
                assert(less[k] == session);
            } else {
                assert(more[k - less.len()] == session);
                let p = choose|p: int|
                    0 <= p < panes.len() && (#[trigger] panes[p]).terminal.session
                        == Some(session);
                assert(tabs[n - 1].panes[p].terminal.session == Some(session));
            }
        }
        if exists|t: int, p: int|
            #![trigger tabs[t].panes[p]]
            0 <= t < n && 0 <= p < tabs[t].panes.len() && tabs[t].panes[p].terminal.session
                == Some(session) {
            let (t, p) = choose|t: int, p: int|
                #![trigger tabs[t].panes[p]]
                0 <= t < n && 0 <= p < tabs[t].panes.len() && tabs[t].panes[p].terminal.session
                    == Some(session);
            if t < n - 1 {
                assert(less.contains(session));
                let k = choose|k: int| 0 <= k < less.len() && less[k] == session;
                assert(all[k] == session);
            } else {
                assert(panes[p].terminal.session == Some(session));
                let k = choose|k: int| 0 <= k < more.len() && more[k] == session;
                assert(all[less.len() + k] == session);
            }
        }
    }
}

/// A window shows a session where one of its panes does.
pub proof fn law_shown_sessions_are_those_of_the_panes(tabs: Seq<TabModel>, id: u128)
    ensures
        any_shows(tabs, id, tabs.len() as int) <==> exists|t: int, p: int|
            #![trigger tabs[t].panes[p]]
            0 <= t < tabs.len() && 0 <= p < tabs[t].panes.len() && (
            tabs[t].panes[p].terminal@.session matches Some(session)
                && session.state.descriptor matches Some(descriptor) && descriptor.session_id == id),
{
    let n = tabs.len() as int;
    if any_shows(tabs, id, n) {
        let t = choose|t: int|
            0 <= t < n && #[trigger] crate::context::manager::tab_shows(tabs[t], id);
        let p = choose|p: int|
            0 <= p < tabs[t].panes.len() && #[trigger] crate::context::tab::is_session(
                tabs[t].panes[p],
                id,
            );
        assert(tabs[t].panes[p].terminal@.session is Some);
    }
    if exists|t: int, p: int|
        #![trigger tabs[t].panes[p]]
        0 <= t < tabs.len() && 0 <= p < tabs[t].panes.len() && (
        tabs[t].panes[p].terminal@.session matches Some(session)
            && session.state.descriptor matches Some(descriptor) && descriptor.session_id == id) {
        let (t, p) = choose|t: int, p: int|
            #![trigger tabs[t].panes[p]]
            0 <= t < tabs.len() && 0 <= p < tabs[t].panes.len() && (
            tabs[t].panes[p].terminal@.session matches Some(session)
                && session.state.descriptor matches Some(descriptor) && descriptor.session_id
                == id);
        assert(crate::context::tab::is_session(tabs[t].panes[p], id));
        assert(crate::context::manager::tab_shows(tabs[t], id));
    }
}

/// A tab that goes to another window keeps its identity, its focus, its title and
/// colour, and every pane with all it shows; the panes, their terminals and their
/// sessions belong to the other window, and are otherwise as they were.
pub proof fn law_rebound_tab_is_the_same_tab(now: TabModel, before: TabModel, window: u64)
    requires
        now.is_rebound(before, window),
    ensures
        now.id == before.id,
        now.current == before.current,
        now.custom_title == before.custom_title,
        now.custom_color == before.custom_color,
        now.panes.len() == before.panes.len(),
        forall|p: int|
            0 <= p < now.panes.len() ==> {
                let pane = #[trigger] now.panes[p];
                let was = before.panes[p];
                &&& pane.window_id == window
                &&& pane.route_id == was.route_id
                &&& pane.pending_session == was.pending_session
                &&& pane.renderable_content == was.renderable_content
                &&& pane.rich_text_id == was.rich_text_id
                &&& pane.dimension == was.dimension
                &&& pane.layout_rect == was.layout_rect
                &&& pane.title == was.title
                &&& pane.terminal@.window_id == window
                &&& pane.terminal@.grid == was.terminal@.grid
                &&& pane.terminal@.frame == was.terminal@.frame
                &&& pane.terminal@.colors == was.terminal@.colors
                &&& (pane.terminal@.session is Some) == (was.terminal@.session is Some)
                &&& pane.terminal@.session matches Some(session) ==> {
                    let held = was.terminal@.session->0;
                    &&& session.window_id == window
                    &&& session.commands == held.commands
                    &&& session.state == held.state
                    &&& session.closed == held.closed
                    &&& session.owners == held.owners
                }
            },
{
    assert forall|p: int| 0 <= p < now.panes.len() implies (#[trigger] now.panes[p]).is_rebound(
        &before.panes[p],
        window,
    ) by {}
}

/// A window that has to be drawn again keeps its tabs, and every pane but for
/// what is to be drawn of it.
pub proof fn law_damage_changes_no_tab(before: ManagerModel)
    ensures
        ({
            let now = before.damaged();
            &&& now.tabs.len() == before.tabs.len()
            &&& now.current_index == before.current_index
            &&& now.retired == before.retired
            &&& now.events == before.events
            &&& now.draws == before.draws
            &&& forall|t: int|
                0 <= t < now.tabs.len() ==> {
                    &&& (#[trigger] now.tabs[t]).id == before.tabs[t].id
                    &&& now.tabs[t].current == before.tabs[t].current
                    &&& now.tabs[t].custom_title == before.tabs[t].custom_title
                    &&& now.tabs[t].panes.len() == before.tabs[t].panes.len()
                }
            &&& forall|t: int, p: int|
                #![trigger now.tabs[t].panes[p]]
                0 <= t < now.tabs.len() && 0 <= p < now.tabs[t].panes.len() ==> {
                    let pane = now.tabs[t].panes[p];
                    let was = before.tabs[t].panes[p];
                    &&& pane.route_id == was.route_id
                    &&& pane.window_id == was.window_id
                    &&& pane.terminal == was.terminal
                    &&& pane.title == was.title
                    &&& pane.pending_session == was.pending_session
                    &&& pane.renderable_content.pending_update.dirty
                }
        }),
{
}

/// The images of all tabs but the focused one are cleared, in the order of the tabs.
pub proof fn law_images_of_other_tabs_are_cleared(tabs: Seq<TabModel>, current: int, n: int)
    requires
        0 <= n <= tabs.len(),
        0 <= current,
    ensures
        ({
            let cleared = overlays_cleared(tabs, current, n);
            &&& current >= n ==> cleared.len() == n && forall|i: int|
                0 <= i < n ==> #[trigger] cleared[i] == DrawCommand::ClearOverlays(tabs[i].id)
            &&& current < n ==> cleared.len() == n - 1 && (forall|i: int|
                0 <= i < current ==> #[trigger] cleared[i] == DrawCommand::ClearOverlays(
                    tabs[i].id,
                )) && (forall|i: int|
                current <= i < n - 1 ==> #[trigger] cleared[i] == DrawCommand::ClearOverlays(
                    tabs[i + 1].id,
                ))
        }),
    decreases n,
{
    if n > 0 {
        law_images_of_other_tabs_are_cleared(tabs, current, n - 1);
    }
}

/// Behind a closed tab, or one that went with its last pane, only the images of the
/// focused tab are left.
pub proof fn law_only_the_focused_images_are_left(before: ManagerModel, route: usize)
    requires
        before.well_formed(),
    ensures
        before.tabs.len() > 1 ==> ({
            let now = before.closing_current();
            now.draws.skip(before.draws.len() as int + 1) == overlays_cleared(
                now.tabs,
                now.current_index,
                now.tabs.len() as int,
            )
        }),
        tab_with_route(before.tabs, route, 0) matches Some(t) ==> (before.tabs[t].panes.len() <= 1
            ==> ({
            let now = before.without_route(route);
            &&& now.tabs.len() > 0 ==> now.draws.skip(before.draws.len() as int + 1) == overlays_cleared(
                now.tabs,
                now.current_index,
                now.tabs.len() as int,
            )
            &&& now.tabs.len() == 0 ==> now.draws.len() == before.draws.len() + 1
        })),
        before.showing_current() == (ManagerModel {
            draws: before.draws + overlays_cleared(
                before.tabs,
                before.current_index,
                before.tabs.len() as int,
            ),
            ..before
        }),
{
    let closed = before.closing_current();
    if before.tabs.len() > 1 {
        assert(closed.draws.skip(before.draws.len() as int + 1) =~= overlays_cleared(
            closed.tabs,
            closed.current_index,
            closed.tabs.len() as int,
        ));
    }
    if tab_with_route(before.tabs, route, 0) is Some {
        let t = tab_with_route(before.tabs, route, 0)->0;
        let now = before.without_route(route);
        if before.tabs[t].panes.len() <= 1 && now.tabs.len() > 0 {
            assert(now.draws.skip(before.draws.len() as int + 1) =~= overlays_cleared(
                now.tabs,
                now.current_index,
                now.tabs.len() as int,
            ));
        }
    }
}

} // verus!
