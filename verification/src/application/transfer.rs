//! The moving of tabs between windows, here and in other programs.

use crate::application::outbox::{
    find_window, window_of, Effect, EffectModel, ResponseModel, WindowFacts,
};
use crate::application::state::{
    prepared_models, Application, ApplicationModel, OutgoingModel, PendingOutgoing,
    PendingPrepared, PendingPreparedRoute, PreparedModel,
};
use crate::context::adopt::{all_disarmed, all_dropped};
use crate::context::handover::GridTransfer;
use crate::context::manager::{ContextManager, ManagerModel};
use crate::context::numbers::{
    law_taken_tab_shares_no_number, lemma_with_tab, routes_differ, same_routes, shares_no_route,
    windows_apart,
};
use crate::context::row::{row_insert, row_remove, tabs_in};
use crate::context::tab::{ContextGrid, TabModel};
use crate::text::{decimal, decimal_text, joined};
use std::collections::HashSet;
use vstd::prelude::*;

verus! {

broadcast use vstd::std_specs::hash::group_hash_axioms;

/// A program that gave its last tab away ends once nothing is left to do.
pub fn transfer_exit_ready(transferred: bool, windows: usize, pending: usize, bootstrap: bool) -> (r:
    bool)
    ensures
        r == (transferred && windows == 0 && pending == 0 && !bootstrap),
{
    transferred && windows == 0 && pending == 0 && !bootstrap
}

/// The focused pane of a window that has tabs.
pub open spec fn remaining_route(manager: ManagerModel) -> Option<usize> {
    if manager.tabs.len() == 0 {
        None
    } else {
        Some(manager.current_route())
    }
}

pub fn current_route_if_contexts_remain(manager: &ContextManager) -> (r: Option<usize>)
    requires
        manager@.well_formed(),
    ensures
        r == remaining_route(manager@),
{
    if manager.is_empty() {
        None
    } else {
        Some(manager.current_route())
    }
}

/// What is wrong with one of the panes that another program says it took.
pub open spec fn route_error(source: Seq<u64>, committed: Seq<u64>, i: int) -> Option<Seq<char>> {
    let id = committed[i];
    if !source.contains(id) {
        Some("target committed a route not included in the offer: "@ + decimal(id as nat))
    } else if committed.take(i).contains(id) {
        Some("target committed route more than once: "@ + decimal(id as nat))
    } else if id > usize::MAX {
        Some("target committed an unrepresentable route: "@ + decimal(id as nat))
    } else {
        None
    }
}

/// What is wrong with the first of the first `n` panes that is wrong.
pub open spec fn commit_error(source: Seq<u64>, committed: Seq<u64>, n: int) -> Option<Seq<char>>
    decreases n,
{
    if n <= 0 {
        None
    } else {
        match commit_error(source, committed, n - 1) {
            Some(error) => Some(error),
            None => route_error(source, committed, n - 1),
        }
    }
}

proof fn lemma_commit_error_stays(source: Seq<u64>, committed: Seq<u64>, n: int, m: int)
    requires
        0 <= n <= m,
        commit_error(source, committed, n) is Some,
    ensures
        commit_error(source, committed, m) == commit_error(source, committed, n),
    decreases m,
{
    if n < m {
        lemma_commit_error_stays(source, committed, n, m - 1);
    }
}

/// The panes that another program says it took are some of those it was
/// offered, each once.
pub fn validate_committed_routes(source_routes: &[u64], committed_routes: Vec<u64>) -> (r: Result<
    Vec<usize>,
    String,
>)
    ensures
        match r {
            Ok(routes) => {
                &&& committed_routes@.len() > 0
                &&& commit_error(
                    source_routes@,
                    committed_routes@,
                    committed_routes@.len() as int,
                ) is None
                &&& routes@ == committed_routes@.map_values(|id: u64| id as usize)
            },
            Err(error) => if committed_routes@.len() == 0 {
                error@ == "target committed no source routes"@
            } else {
                commit_error(
                    source_routes@,
                    committed_routes@,
                    committed_routes@.len() as int,
                ) == Some(error@)
            },
        },
{
    let count: usize = committed_routes.len();
    if count == 0 {
        return Err("target committed no source routes".to_owned());
    }
    let mut offered: HashSet<u64> = HashSet::new();
    let mut k: usize = 0;
    while k < source_routes.len()
        invariant
            k <= source_routes@.len(),
            forall|id: u64|
                #[trigger] offered@.contains(id) <==> source_routes@.take(k as int).contains(id),
        decreases source_routes@.len() - k,
    {
        let ghost before = offered@;
        let id: u64 = source_routes[k];
        offered.insert(id);
        proof {
            assert(source_routes@.take(k + 1) =~= source_routes@.take(k as int).push(id));
            assert forall|x: u64|
                #[trigger] offered@.contains(x) <==> source_routes@.take(k + 1).contains(x) by {
                if source_routes@.take(k as int).contains(x) {
                    let i = choose|i: int|
                        0 <= i < k && source_routes@.take(k as int)[i] == x;
                    assert(source_routes@.take(k + 1)[i] == x);
                }
                if x == id {
                    assert(source_routes@.take(k + 1)[k as int] == x);
                }
            }
        }
        k += 1;
    }
    proof {
        assert(source_routes@.take(k as int) =~= source_routes@);
    }
    let mut seen: HashSet<u64> = HashSet::new();
    let mut routes: Vec<usize> = Vec::new();
    let mut i: usize = 0;
    while i < count
        invariant
            i <= count == committed_routes@.len(),
            forall|id: u64| #[trigger] offered@.contains(id) <==> source_routes@.contains(id),
            forall|id: u64|
                #[trigger] seen@.contains(id) <==> committed_routes@.take(i as int).contains(id),
            commit_error(source_routes@, committed_routes@, i as int) is None,
            routes@ == committed_routes@.take(i as int).map_values(|id: u64| id as usize),
        decreases count - i,
    {
        let id: u64 = committed_routes[i];
        let ghost error = route_error(source_routes@, committed_routes@, i as int);
        proof {
            if error is Some {
                lemma_commit_error_stays(
                    source_routes@,
                    committed_routes@,
                    i + 1,
                    count as int,
                );
            }
        }
        let number: String = decimal_text(id);
        if !offered.contains(&id) {
            return Err(
                joined("target committed a route not included in the offer: ", number.as_str()),
            );
        }
        let ghost before = seen@;
        let first: bool = seen.insert(id);
        if !first {
            return Err(joined("target committed route more than once: ", number.as_str()));
        }
        if id > usize::MAX as u64 {
            return Err(joined("target committed an unrepresentable route: ", number.as_str()));
        }
        routes.push(id as usize);
        proof {
            assert(committed_routes@.take(i + 1) =~= committed_routes@.take(i as int).push(id));
            assert forall|x: u64|
                #[trigger] seen@.contains(x) <==> committed_routes@.take(i + 1).contains(x) by {
                if committed_routes@.take(i as int).contains(x) {
                    let j = choose|j: int|
                        0 <= j < i && committed_routes@.take(i as int)[j] == x;
                    assert(committed_routes@.take(i + 1)[j] == x);
                }
                if x == id {
                    assert(committed_routes@.take(i + 1)[i as int] == x);
                }
            }
            assert(routes@ =~= committed_routes@.take(i + 1).map_values(|id: u64| id as usize));
        }
        i += 1;
    }
    proof {
        assert(committed_routes@.take(i as int) =~= committed_routes@);
    }
    Ok(routes)
}

/// Panes that are accepted as taken were offered, and none is named twice.
pub proof fn law_committed_routes_are_offered_once(source: Seq<u64>, committed: Seq<u64>, n: int)
    requires
        0 <= n <= committed.len(),
        commit_error(source, committed, n) is None,
    ensures
        forall|i: int| 0 <= i < n ==> source.contains(#[trigger] committed[i]),
        forall|i: int, j: int| 0 <= i < j < n ==> committed[i] != committed[j],
    decreases n,
{
    if n > 0 {
        law_committed_routes_are_offered_once(source, committed, n - 1);
        assert(route_error(source, committed, n - 1) is None);
        let last = committed[n - 1];
        assert forall|i: int| 0 <= i < n - 1 implies #[trigger] committed[i] != last by {
            assert(committed.take(n - 1)[i] == committed[i]);
        }
    }
}

/// A tab was put in.
pub open spec fn is_received(
    now: ManagerModel,
    before: ManagerModel,
    moved: TabModel,
    index: int,
) -> bool {
    exists|tab: TabModel|
        #[trigger] tab.is_rebound(moved, before.window_id) && now == (ManagerModel {
            tabs: before.tabs.insert(index, tab),
            current_index: index,
            ..before
        }).damaged()
}

/// A tab went back to where it was taken from.
pub open spec fn is_restored(now: ManagerModel, before: ManagerModel) -> bool {
    is_received(
        now,
        before.without_tab(before.current_index).damaged(),
        before.current_tab(),
        before.current_index,
    )
}

/// A tab that another window refuses is where it was: the same tabs in the same
/// order, with the same panes, and the same one selected.
pub proof fn law_refused_tab_stays(now: ManagerModel, before: ManagerModel)
    requires
        before.well_formed(),
        before.tabs.len() > 0,
        is_restored(now, before),
    ensures
        now.current_index == before.current_index,
        now.tabs.len() == before.tabs.len(),
        forall|i: int|
            0 <= i < now.tabs.len() ==> (#[trigger] now.tabs[i]).id == before.tabs[i].id
                && now.tabs[i].panes.len() == before.tabs[i].panes.len()
                && now.tabs[i].current == before.tabs[i].current,
        now.capacity == before.capacity,
        now.retired == before.retired,
{
    let left = before.without_tab(before.current_index).damaged();
    let at = before.current_index;
    let tab = choose|tab: TabModel|
        #[trigger] tab.is_rebound(before.current_tab(), left.window_id) && now == (ManagerModel {
            tabs: left.tabs.insert(at, tab),
            current_index: at,
            ..left
        }).damaged();
    assert forall|i: int| 0 <= i < now.tabs.len() implies (#[trigger] now.tabs[i]).id
        == before.tabs[i].id && now.tabs[i].panes.len() == before.tabs[i].panes.len()
        && now.tabs[i].current == before.tabs[i].current by {
        if i < at {
            assert(left.tabs.insert(at, tab)[i] == left.tabs[i]);
            assert(left.tabs[i] == before.tabs[i].damaged());
        } else if i > at {
            assert(left.tabs.insert(at, tab)[i] == left.tabs[i - 1]);
            assert(left.tabs[i - 1] == before.tabs[i].damaged());
        }
    }
}

/// A tab that moves from one window to another takes its numbers along: where no
/// two panes of the two windows had the same number, none have it now.
pub proof fn law_moved_tab_keeps_numbers_apart(
    source: ManagerModel,
    target: ManagerModel,
    now: ManagerModel,
    index: int,
)
    requires
        source.well_formed(),
        source.tabs.len() > 0,
        0 <= index <= target.tabs.len(),
        is_received(now, target, source.current_tab(), index),
        routes_differ(source),
        routes_differ(target),
        windows_apart(source, target),
    ensures
        routes_differ(now),
        routes_differ(source.without_tab(source.current_index).damaged()),
        windows_apart(source.without_tab(source.current_index).damaged(), now),
{
    let at = source.current_index;
    let moved = source.current_tab();
    let left = source.without_tab(at).damaged();
    law_taken_tab_shares_no_number(source, at);
    let tab = choose|tab: TabModel|
        #[trigger] tab.is_rebound(moved, target.window_id) && now == (ManagerModel {
            tabs: target.tabs.insert(index, tab),
            current_index: index,
            ..target
        }).damaged();
    let all = target.tabs.insert(index, moved);
    assert forall|i: int| 0 <= i < now.tabs.len() implies same_routes(
        #[trigger] now.tabs[i],
        all[i],
    ) by {
        if i == index {
            assert(now.tabs[i] == tab.damaged());
            assert forall|p: int| 0 <= p < tab.panes.len() implies (
            #[trigger] now.tabs[i].panes[p]).route_id == moved.panes[p].route_id by {
                assert(tab.panes[p].is_rebound(&moved.panes[p], target.window_id));
            }
        }
    }
    assert(shares_no_route(target, moved)) by {
        assert forall|t: int, p: int, q: int|
            #![trigger target.tabs[t].panes[p], moved.panes[q]]
            0 <= t < target.tabs.len() && 0 <= p < target.tabs[t].panes.len() && 0 <= q
                < moved.panes.len() implies target.tabs[t].panes[p].route_id
            != moved.panes[q].route_id by {
            assert(source.tabs[at].panes[q] == moved.panes[q]);
        }
    }
    lemma_with_tab(target, now, index, moved, 0);
    assert forall|t: int, p: int, u: int, q: int|
        #![trigger left.tabs[t].panes[p], now.tabs[u].panes[q]]
        0 <= t < left.tabs.len() && 0 <= p < left.tabs[t].panes.len() && 0 <= u < now.tabs.len()
            && 0 <= q < now.tabs[u].panes.len() implies left.tabs[t].panes[p].route_id
        != now.tabs[u].panes[q].route_id by {
        let was = if t < at {
            t
        } else {
            t + 1
        };
        assert(left.tabs[t].panes[p].route_id == source.tabs[was].panes[p].route_id);
        assert(same_routes(now.tabs[u], all[u]));
        if u == index {
            assert(moved.panes[q].route_id == now.tabs[u].panes[q].route_id);
        } else {
            let from = if u < index {
                u
            } else {
                u - 1
            };
            assert(all[u] == target.tabs[from]);
            assert(target.tabs[from].panes[q].route_id == now.tabs[u].panes[q].route_id);
        }
    }
}

/// Moves the current tab of a window to a position in another one. A window
/// that has no room, or no such position, leaves the tab where it is.
pub fn transfer_tab_to_target(
    source: &mut ContextManager,
    target: &mut ContextManager,
    index: usize,
) -> (r: bool)
    requires
        old(source)@.well_formed(),
        old(source)@.tabs.len() <= old(source)@.capacity,
        old(target)@.well_formed(),
    ensures
        final(source)@.well_formed(),
        final(target)@.well_formed(),
        r == (old(source)@.tabs.len() > 0 && old(target)@.tabs.len() < old(target)@.capacity
            && index <= old(target)@.tabs.len()),
        r ==> {
            &&& final(source)@ == old(source)@.without_tab(old(source)@.current_index).damaged()
            &&& is_received(
                final(target)@,
                old(target)@,
                old(source)@.current_tab(),
                index as int,
            )
        },
        !r ==> {
            &&& final(target)@ == old(target)@
            &&& if old(source)@.tabs.len() == 0 {
                final(source)@ == old(source)@
            } else {
                is_restored(final(source)@, old(source)@)
            }
        },
{
    let ghost before = source@;
    let at: usize = source.current_index();
    let transfer: GridTransfer = match source.extract_grid(at) {
        Some(transfer) => transfer,
        None => {
            return false;
        },
    };
    let ghost moved = transfer.grid@;
    let ghost without = source@;
    match target.insert_grid(index, transfer) {
        Ok(_) => {
            proof {
                let tab = choose|tab: TabModel|
                    #[trigger] tab.is_rebound(moved, old(target)@.window_id) && target@ == (
                    ManagerModel {
                        tabs: old(target)@.tabs.insert(index as int, tab),
                        current_index: index as int,
                        ..old(target)@
                    }).damaged();
                assert(tab.is_rebound(before.current_tab(), old(target)@.window_id));
            }
            true
        },
        Err(back) => {
            match source.insert_grid(at, back) {
                Ok(_) => {
                    proof {
                        let tab = choose|tab: TabModel|
                            #[trigger] tab.is_rebound(moved, without.window_id) && source@ == (
                            ManagerModel {
                                tabs: without.tabs.insert(at as int, tab),
                                current_index: at as int,
                                ..without
                            }).damaged();
                        assert(tab.is_rebound(before.current_tab(), before.window_id));
                    }
                },
                Err(_) => {},
            }
            false
        },
    }
}

/// The tabs belong to another window.
pub open spec fn are_rebound(tabs: Seq<TabModel>, before: Seq<TabModel>, window_id: u64) -> bool {
    &&& tabs.len() == before.len()
    &&& forall|i: int|
        0 <= i < tabs.len() ==> (#[trigger] tabs[i]).is_rebound(before[i], window_id)
}

/// All tabs of another window were put in, in their order, and the one that was
/// selected there is selected here.
pub open spec fn is_received_whole(
    now: ManagerModel,
    before: ManagerModel,
    moved: ManagerModel,
    index: int,
) -> bool {
    exists|tabs: Seq<TabModel>|
        #[trigger] are_rebound(tabs, moved.tabs, before.window_id) && now == (ManagerModel {
            tabs: before.tabs.take(index) + tabs + before.tabs.skip(index),
            current_index: index + moved.current_index,
            ..before
        }).damaged()
}

/// Moves all tabs of a window to a position in another one. A window that has
/// no room for all of them, or no such position, takes none.
pub fn transfer_window_to_target(
    source: &mut ContextManager,
    target: &mut ContextManager,
    index: usize,
) -> (r: bool)
    requires
        old(source)@.well_formed(),
        old(target)@.well_formed(),
    ensures
        final(source)@.well_formed(),
        final(target)@.well_formed(),
        r == (old(source)@.tabs.len() > 0 && index <= old(target)@.tabs.len()
            && old(source)@.tabs.len() + old(target)@.tabs.len() <= old(target)@.capacity),
        r ==> {
            &&& final(source)@ == (ManagerModel {
                tabs: Seq::empty(),
                current_index: 0,
                ..old(source)@
            })
            &&& is_received_whole(final(target)@, old(target)@, old(source)@, index as int)
        },
        !r ==> final(source)@ == old(source)@ && final(target)@ == old(target)@,
{
    let ghost from = source@;
    let ghost into = target@;
    let count: usize = source.len();
    if count == 0 || !target.can_insert_grids(index, count) {
        return false;
    }
    let selected: usize = source.current_index();
    let ghost mut fresh: Seq<TabModel> = Seq::empty();
    let mut left: usize = count;
    proof {
        assert(from.tabs.take(count as int) =~= from.tabs);
        assert(into.tabs.take(index as int) + fresh + into.tabs.skip(index as int) =~= into.tabs);
    }
    while left > 0
        invariant
            left <= count == from.tabs.len(),
            index <= into.tabs.len(),
            count + into.tabs.len() <= usize::MAX,
            from.well_formed(),
            into.well_formed(),
            source@ == (ManagerModel { tabs: from.tabs.take(left as int), ..from }),
            target@ == (ManagerModel {
                tabs: into.tabs.take(index as int) + fresh + into.tabs.skip(index as int),
                ..into
            }),
            fresh.len() == count - left,
            forall|i: int|
                0 <= i < fresh.len() ==> (#[trigger] fresh[i]).well_formed() && fresh[i].is_rebound(
                    from.tabs[left + i],
                    into.window_id,
                ),
        decreases left,
    {
        let ghost later = fresh;
        let ghost placed = target@;
        proof {
            assert(source@.tabs.len() == tabs_in(source.contexts).len());
            assert(source@.tabs.len() == left);
        }
        left -= 1;
        proof {
            assert(source@.tabs[left as int] == from.tabs[left as int]);
            assert(source@.tabs[left as int] == tabs_in(source.contexts)[left as int]@);
            assert(from.tabs[left as int].well_formed());
            assert(placed.tabs.len() == tabs_in(target.contexts).len());
        }
        let mut grid: ContextGrid = row_remove(&mut source.contexts, left);
        grid.rebind_window(target.window_id);
        let ghost tab = grid@;
        row_insert(&mut target.contexts, index, grid);
        proof {
            assert(source@.tabs =~= from.tabs.take(left as int));
            assert(source@ =~= (ManagerModel { tabs: from.tabs.take(left as int), ..from }));
            fresh = seq![tab] + later;
            assert(target@.tabs =~= placed.tabs.insert(index as int, tab));
            assert(target@.tabs =~= into.tabs.take(index as int) + fresh + into.tabs.skip(
                index as int,
            ));
            assert(target@ =~= (ManagerModel {
                tabs: into.tabs.take(index as int) + fresh + into.tabs.skip(index as int),
                ..into
            }));
            assert forall|i: int| 0 <= i < fresh.len() implies (
            #[trigger] fresh[i]).well_formed() && fresh[i].is_rebound(
                from.tabs[left + i],
                into.window_id,
            ) by {
                if i > 0 {
                    assert(fresh[i] == later[i - 1]);
                    assert(later[i - 1].well_formed());
                }
            }
        }
    }
    source.current_index = 0;
    target.current_index = index + selected;
    proof {
        assert(source@ =~= (ManagerModel { tabs: Seq::empty(), current_index: 0, ..from }));
        assert forall|i: int| 0 <= i < target@.tabs.len() implies (
        #[trigger] target@.tabs[i]).well_formed() by {
            if i < index {
                assert(into.tabs[i].well_formed());
            } else if i < index + count {
                assert(target@.tabs[i] == fresh[i - index]);
                assert(fresh[i - index].well_formed());
            } else {
                assert(into.tabs[i - count].well_formed());
            }
        }
        assert(target@.well_formed());
    }
    target.mark_all_full_damage();
    proof {
        assert forall|i: int| 0 <= i < fresh.len() implies (#[trigger] fresh[i]).is_rebound(
            from.tabs[i],
            into.window_id,
        ) by {
            assert(fresh[i].well_formed());
        }
        assert(are_rebound(fresh, from.tabs, into.window_id));
    }
    true
}

/// Where a merged tab goes that was dropped at no position: behind all tabs of
/// a window that shows its terminal.
pub open spec fn merge_index(
    windows: Seq<WindowFacts>,
    target: u64,
    index: Option<usize>,
) -> Option<usize> {
    match index {
        Some(index) => Some(index),
        None => match window_of(windows, target) {
            Some(facts) => if facts.terminal {
                Some(facts.tabs)
            } else {
                None
            },
            None => None,
        },
    }
}

impl ApplicationModel {
    /// A tab was merged into another window.
    pub open spec fn merged(self, source: u64, target: u64, emptied: bool) -> ApplicationModel {
        (if emptied {
            self.merge_cleared_if(source).emitting(EffectModel::RemoveWindow(source))
        } else {
            self.emitting(EffectModel::Refresh(source)).emitting(
                EffectModel::Redraw(source),
            ).merge_cleared_if(source)
        }).emitting(EffectModel::Focus(target))
    }

    /// Panes that were taken over in vain are removed.
    pub open spec fn unprepared(
        self,
        window: u64,
        routes: Seq<usize>,
        remaining: Option<usize>,
    ) -> ApplicationModel {
        let rest = self.emitting(EffectModel::DiscardRoutes(window, routes));
        if remaining is Some {
            rest.emitting(EffectModel::Refresh(window)).emitting(EffectModel::Redraw(window))
        } else {
            rest.merge_cleared_if(window).emitting(EffectModel::RemoveWindow(window))
        }
    }

    pub open spec fn replied(self, reply: u64, response: ResponseModel) -> ApplicationModel {
        self.emitting(EffectModel::Reply(reply, response))
    }
}

/// The panes are let go of and removed.
pub open spec fn transferred_away(manager: ManagerModel, routes: Seq<usize>) -> ManagerModel {
    all_dropped(
        all_disarmed(manager, routes, routes.len() as int),
        routes,
        routes.len() as int,
    ).damaged()
}

/// The pane has the number where it is now.
pub open spec fn has_target(routes: Seq<PendingPreparedRoute>, route: usize) -> bool {
    exists|i: int| 0 <= i < routes.len() && (#[trigger] routes[i]).target_route == route
}

fn targets(routes: &Vec<PendingPreparedRoute>, route: usize) -> (r: bool)
    ensures
        r == has_target(routes@, route),
{
    let mut i: usize = 0;
    while i < routes.len()
        invariant
            i <= routes@.len(),
            forall|j: int| 0 <= j < i ==> (#[trigger] routes@[j]).target_route != route,
        decreases routes@.len() - i,
    {
        if routes[i].target_route == route {
            return true;
        }
        i += 1;
    }
    false
}

impl PreparedModel {
    /// The first `n` of the panes that are shown were noted.
    pub open spec fn noting(self, window: u64, ready: Seq<usize>, n: int) -> PreparedModel
        decreases n,
    {
        if n <= 0 {
            self
        } else {
            let rest = self.noting(window, ready, n - 1);
            if self.window_id == window && has_target(self.routes, ready[n - 1]) {
                PreparedModel { ready: rest.ready.insert(ready[n - 1]), ..rest }
            } else {
                rest
            }
        }
    }

    /// All panes are shown.
    pub open spec fn complete(self) -> bool {
        self.ready.len() == self.routes.len()
    }
}

/// The panes that are shown were noted everywhere.
pub open spec fn all_noted(list: Seq<PreparedModel>, window: u64, ready: Seq<usize>) -> Seq<
    PreparedModel,
> {
    list.map_values(|p: PreparedModel| p.noting(window, ready, ready.len() as int))
}

/// Those of the first `n` whose panes are all shown.
pub open spec fn complete_of(list: Seq<PreparedModel>, n: int) -> Seq<PreparedModel>
    decreases n,
{
    if n <= 0 {
        Seq::empty()
    } else if list[n - 1].complete() {
        complete_of(list, n - 1).push(list[n - 1])
    } else {
        complete_of(list, n - 1)
    }
}

/// Those of the first `n` that still wait.
pub open spec fn waiting_of(list: Seq<PreparedModel>, n: int) -> Seq<PreparedModel>
    decreases n,
{
    if n <= 0 {
        Seq::empty()
    } else if list[n - 1].complete() {
        waiting_of(list, n - 1)
    } else {
        waiting_of(list, n - 1).push(list[n - 1])
    }
}

/// Those of the first `n` that have waited too long.
pub open spec fn expired_of(list: Seq<PreparedModel>, now: u64, n: int) -> Seq<PreparedModel>
    decreases n,
{
    if n <= 0 {
        Seq::empty()
    } else if list[n - 1].deadline <= now {
        expired_of(list, now, n - 1).push(list[n - 1])
    } else {
        expired_of(list, now, n - 1)
    }
}

/// Those of the first `n` that still have time.
pub open spec fn in_time_of(list: Seq<PreparedModel>, now: u64, n: int) -> Seq<PreparedModel>
    decreases n,
{
    if n <= 0 {
        Seq::empty()
    } else if list[n - 1].deadline <= now {
        in_time_of(list, now, n - 1)
    } else {
        in_time_of(list, now, n - 1).push(list[n - 1])
    }
}

fn note_ready(pending: &mut PendingPrepared, window: u64, ready: &Vec<usize>)
    ensures
        final(pending)@ == old(pending)@.noting(window, ready@, ready@.len() as int),
{
    let ghost before = pending@;
    let mut i: usize = 0;
    while i < ready.len()
        invariant
            i <= ready@.len(),
            pending@ == before.noting(window, ready@, i as int),
            pending@.routes == before.routes,
            pending@.window_id == before.window_id,
        decreases ready@.len() - i,
    {
        let route: usize = ready[i];
        if pending.window_id == window && targets(&pending.routes, route) {
            pending.ready.insert(route);
        }
        i += 1;
    }
}

impl Application {
    pub fn track_outgoing_offer(
        &mut self,
        transfer_id: u128,
        source_window: u64,
        source_routes: Vec<u64>,
    )
        ensures
            final(self)@ == (ApplicationModel {
                outgoing: old(self)@.outgoing.push(
                    OutgoingModel { transfer_id, source_window, source_routes: source_routes@ },
                ),
                ..old(self)@
            }),
    {
        let pending = PendingOutgoing { transfer_id, source_window, source_routes };
        self.pending_outgoing.push(pending);
        proof {
            assert(self@.outgoing =~= old(self)@.outgoing.push(pending@));
            assert(self@ =~= (ApplicationModel {
                outgoing: old(self)@.outgoing.push(pending@),
                ..old(self)@
            }));
        }
    }

    /// Merges the current tab of a window into another one, behind all its
    /// tabs where no position is given. `false` where the tab stays.
    pub fn merge_window_into_target(
        &mut self,
        windows: &Vec<WindowFacts>,
        source: &mut ContextManager,
        target: &mut ContextManager,
        source_id: u64,
        target_id: u64,
        index: Option<usize>,
    ) -> (r: bool)
        requires
            old(source)@.well_formed(),
            old(source)@.tabs.len() <= old(source)@.capacity,
            old(target)@.well_formed(),
        ensures
            final(source)@.well_formed(),
            final(target)@.well_formed(),
            ({
                let at = merge_index(windows@, target_id, index);
                let shown = (window_of(windows@, source_id) matches Some(facts) && facts.terminal)
                    && (window_of(windows@, target_id) matches Some(facts) && facts.terminal);
                &&& r == (at is Some && source_id != target_id && shown && old(source)@.tabs.len()
                    > 0 && old(target)@.tabs.len() < old(target)@.capacity && at->0
                    <= old(target)@.tabs.len())
                &&& r ==> final(source)@ == old(source)@.without_tab(
                    old(source)@.current_index,
                ).damaged() && is_received(
                    final(target)@,
                    old(target)@,
                    old(source)@.current_tab(),
                    at->0 as int,
                ) && final(self)@ == old(self)@.merged(
                    source_id,
                    target_id,
                    final(source)@.tabs.len() == 0,
                )
                &&& !r ==> final(self)@ == old(self)@ && final(target)@ == old(target)@ && if at is None
                    || source_id == target_id || !shown || old(source)@.tabs.len() == 0 {
                    final(source)@ == old(source)@
                } else {
                    is_restored(final(source)@, old(source)@)
                }
            }),
    {
        let at: usize = match index {
            Some(index) => index,
            None => match find_window(windows, target_id) {
                Some(facts) => if facts.terminal {
                    facts.tabs
                } else {
                    return false;
                },
                None => {
                    return false;
                },
            },
        };
        if source_id == target_id {
            return false;
        }
        let source_shown: bool = match find_window(windows, source_id) {
            Some(facts) => facts.terminal,
            None => false,
        };
        let target_shown: bool = match find_window(windows, target_id) {
            Some(facts) => facts.terminal,
            None => false,
        };
        if !source_shown || !target_shown {
            return false;
        }
        if !transfer_tab_to_target(source, target, at) {
            return false;
        }
        if source.is_empty() {
            self.clear_merge_if_window(source_id);
            self.emit(Effect::RemoveWindow(source_id));
        } else {
            self.emit(Effect::Refresh(source_id));
            self.emit(Effect::Redraw(source_id));
            self.clear_merge_if_window(source_id);
        }
        self.emit(Effect::Focus(target_id));
        true
    }

    /// Takes out what has waited too long to be shown.
    pub fn expire_pending_prepared(&mut self, now: u64) -> (r: Vec<PendingPrepared>)
        ensures
            prepared_models(r@) == expired_of(
                old(self)@.prepared,
                now,
                old(self)@.prepared.len() as int,
            ),
            final(self)@ == (ApplicationModel {
                prepared: in_time_of(
                    old(self)@.prepared,
                    now,
                    old(self)@.prepared.len() as int,
                ),
                ..old(self)@
            }),
    {
        let ghost all = self@.prepared;
        let ghost mut k: int = 0;
        let mut list: Vec<PendingPrepared> = Vec::new();
        core::mem::swap(&mut list, &mut self.pending_prepared);
        let mut expired: Vec<PendingPrepared> = Vec::new();
        let mut index: usize = 0;
        proof {
            assert(prepared_models(list@) =~= in_time_of(all, now, 0) + all.skip(0));
            assert(prepared_models(expired@) =~= expired_of(all, now, 0));
        }
        while index < list.len()
            invariant
                0 <= k <= all.len(),
                index == in_time_of(all, now, k).len(),
                prepared_models(list@) == in_time_of(all, now, k) + all.skip(k),
                prepared_models(expired@) == expired_of(all, now, k),
            decreases all.len() - k,
        {
            proof {
                assert(prepared_models(list@).len() == list@.len());
                assert(list@[index as int]@ == prepared_models(list@)[index as int]);
                assert(list@[index as int]@ == all[k]);
            }
            let ghost before = list@;
            if list[index].deadline <= now {
                let gone: PendingPrepared = list.remove(index);
                expired.push(gone);
                proof {
                    assert(prepared_models(list@) =~= prepared_models(before).remove(index as int));
                    assert(prepared_models(list@) =~= in_time_of(all, now, k + 1) + all.skip(
                        k + 1,
                    ));
                    assert(prepared_models(expired@) =~= expired_of(all, now, k + 1));
                }
            } else {
                index += 1;
                proof {
                    assert(prepared_models(list@) =~= in_time_of(all, now, k + 1) + all.skip(
                        k + 1,
                    ));
                }
            }
            proof {
                k = k + 1;
            }
        }
        proof {
            assert(prepared_models(list@).len() == list@.len());
            assert(k == all.len());
            assert(prepared_models(list@) =~= in_time_of(all, now, k));
        }
        core::mem::swap(&mut list, &mut self.pending_prepared);
        proof {
            assert(self@ =~= (ApplicationModel {
                prepared: in_time_of(all, now, all.len() as int),
                ..old(self)@
            }));
        }
        expired
    }

    fn note_all(&mut self, window: u64, ready: &Vec<usize>)
        ensures
            final(self)@ == (ApplicationModel {
                prepared: all_noted(old(self)@.prepared, window, ready@),
                ..old(self)@
            }),
    {
        let ghost all = self@.prepared;
        let mut i: usize = 0;
        while i < self.pending_prepared.len()
            invariant
                i <= self.pending_prepared@.len(),
                self.pending_prepared@.len() == all.len(),
                forall|j: int|
                    0 <= j < i ==> (#[trigger] self.pending_prepared@[j])@ == all[j].noting(
                        window,
                        ready@,
                        ready@.len() as int,
                    ),
                forall|j: int|
                    i <= j < all.len() ==> (#[trigger] self.pending_prepared@[j])@ == all[j],
                self@ == (ApplicationModel { prepared: self@.prepared, ..old(self)@ }),
            decreases self.pending_prepared@.len() - i,
        {
            note_ready(&mut self.pending_prepared[i], window, ready);
            proof {
                assert(self@ =~= (ApplicationModel { prepared: self@.prepared, ..old(self)@ }));
            }
            i += 1;
        }
        proof {
            assert(self@.prepared =~= all_noted(all, window, ready@));
        }
    }

    /// Notes panes that are shown, and takes out what is complete with them.
    pub fn finish_ready_prepared(&mut self, window: u64, ready: &Vec<usize>) -> (r: Vec<
        PendingPrepared,
    >)
        ensures
            ({
                let noted = all_noted(old(self)@.prepared, window, ready@);
                &&& prepared_models(r@) == complete_of(noted, noted.len() as int)
                &&& final(self)@ == (ApplicationModel {
                    prepared: waiting_of(noted, noted.len() as int),
                    ..old(self)@
                })
            }),
    {
        self.note_all(window, ready);
        let ghost all = self@.prepared;
        let ghost mut k: int = 0;
        let mut list: Vec<PendingPrepared> = Vec::new();
        core::mem::swap(&mut list, &mut self.pending_prepared);
        let mut complete: Vec<PendingPrepared> = Vec::new();
        let mut index: usize = 0;
        proof {
            assert(prepared_models(list@) =~= waiting_of(all, 0) + all.skip(0));
            assert(prepared_models(complete@) =~= complete_of(all, 0));
        }
        while index < list.len()
            invariant
                0 <= k <= all.len(),
                index == waiting_of(all, k).len(),
                prepared_models(list@) == waiting_of(all, k) + all.skip(k),
                prepared_models(complete@) == complete_of(all, k),
            decreases all.len() - k,
        {
            proof {
                assert(prepared_models(list@).len() == list@.len());
                assert(list@[index as int]@ == prepared_models(list@)[index as int]);
                assert(list@[index as int]@ == all[k]);
            }
            let ghost before = list@;
            if list[index].ready.len() == list[index].routes.len() {
                let done: PendingPrepared = list.remove(index);
                complete.push(done);
                proof {
                    assert(prepared_models(list@) =~= prepared_models(before).remove(index as int));
                    assert(prepared_models(list@) =~= waiting_of(all, k + 1) + all.skip(k + 1));
                    assert(prepared_models(complete@) =~= complete_of(all, k + 1));
                }
            } else {
                index += 1;
                proof {
                    assert(prepared_models(list@) =~= waiting_of(all, k + 1) + all.skip(k + 1));
                }
            }
            proof {
                k = k + 1;
            }
        }
        proof {
            assert(prepared_models(list@).len() == list@.len());
            assert(k == all.len());
            assert(prepared_models(list@) =~= waiting_of(all, k));
        }
        core::mem::swap(&mut list, &mut self.pending_prepared);
        proof {
            assert(self@ =~= (ApplicationModel {
                prepared: waiting_of(all, all.len() as int),
                ..old(self)@
            }));
        }
        complete
    }
}

} // verus!
