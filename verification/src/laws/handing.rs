//! Handing panes over from one window to another: what is offered, what is made of
//! it, and what is left behind.

use crate::context::adopt::{
    behind_refusal, disarming, dropping, first_unbuildable, flattened, is_acceptable,
    is_admissible, is_adopted, is_new_number, is_taken_in, order_of, position_of, tab_holding,
};
use crate::context::handover::{
    active_among, all_offers, by_route, first_waiting, is_tab_offer, is_taken_over,
    is_window_offer, nth_id, source_routes, OfferError, PreparedPane, TransferOffer,
};
use crate::context::manager::{tab_with_route, DrawCommand, ManagerModel};
use crate::context::numbers::{
    is_numbered, panes_below, panes_differ, same_routes, shares_no_route, windows_apart,
};
use crate::context::pane::{Context, ContextDimension, IdSource};
use crate::context::tab::{
    first_unstarted, offer_of, pane_with_route, PaneOffer, TabModel, TabOffer,
};
use crate::laws::tabs::{law_panes_are_found_by_number, law_tabs_are_found_by_pane};
use vstd::prelude::*;

verus! {

/// The pane has a session that was started.
pub open spec fn runs(pane: Context) -> bool {
    pane.terminal@.session matches Some(session) && session.state.descriptor is Some
}

/// The offer stands for the pane: its number, its session and its place.
pub open spec fn stands_for(offer: PaneOffer, pane: Context) -> bool {
    &&& offer.route_id == pane.route_id
    &&& pane.terminal@.session is Some
    &&& Some(offer.session) == (pane.terminal@.session->0).state.descriptor
    &&& offer.layout_rect == pane.layout_rect
}

/// The offer stands for the tab: its panes in their order, and the focused one.
pub open spec fn stands_for_tab(offer: TabOffer, tab: TabModel) -> bool {
    &&& offer.routes@.len() == tab.panes.len()
    &&& forall|p: int|
        0 <= p < tab.panes.len() ==> #[trigger] offer.routes@[p] == tab.panes[p].route_id
    &&& offer.active_route == tab.panes[tab.current].route_id
    &&& offer.rebuildable
}

/// A pane that waits for its session is found where it comes first.
pub proof fn law_first_waiting_pane_is_found(panes: Seq<Context>, from: int)
    requires
        0 <= from <= panes.len(),
    ensures
        match first_unstarted(panes, from) {
            Some(p) => {
                &&& from <= p < panes.len()
                &&& !runs(panes[p])
                &&& forall|q: int| from <= q < p ==> runs(#[trigger] panes[q])
            },
            None => forall|q: int| from <= q < panes.len() ==> runs(#[trigger] panes[q]),
        },
    decreases panes.len() - from,
{
    if from < panes.len() && runs(panes[from]) {
        law_first_waiting_pane_is_found(panes, from + 1);
    }
}

/// An offered tab names all its panes in their order, each with its session and
/// place, and the focused one. It is refused where it does not exist, or for the
/// first pane that waits for its session.
pub proof fn law_tab_offer_names_every_pane(
    manager: ManagerModel,
    index: usize,
    transfer: u128,
    r: Result<TransferOffer, OfferError>,
)
    requires
        is_tab_offer(manager, index, transfer, r),
        index < manager.tabs.len() ==> 0 <= manager.tabs[index as int].current
            <= u32::MAX,
    ensures
        index >= manager.tabs.len() <==> r == Err::<TransferOffer, OfferError>(OfferError::NoTab),
        index < manager.tabs.len() ==> ({
            let tab = manager.tabs[index as int];
            match r {
                Ok(offer) => {
                    &&& offer.transfer_id == transfer
                    &&& offer.panes@.len() == tab.panes.len()
                    &&& forall|p: int|
                        0 <= p < tab.panes.len() ==> stands_for(
                            #[trigger] offer.panes@[p],
                            tab.panes[p],
                        )
                    &&& offer.tabs@.len() == 1
                    &&& stands_for_tab(offer.tabs@[0], tab)
                    &&& offer.active_pane == tab.current
                },
                Err(error) => exists|p: int|
                    {
                        &&& 0 <= p < tab.panes.len()
                        &&& !runs(#[trigger] tab.panes[p])
                        &&& forall|q: int| 0 <= q < p ==> runs(#[trigger] tab.panes[q])
                        &&& error == OfferError::NotStarted(tab.panes[p].route_id)
                    },
            }
        }),
{
    if index < manager.tabs.len() {
        let panes = manager.tabs[index as int].panes;
        law_first_waiting_pane_is_found(panes, 0);
        if r is Ok {
            let offer = r->Ok_0;
            assert forall|p: int| 0 <= p < panes.len() implies stands_for(
                #[trigger] offer.panes@[p],
                panes[p],
            ) by {
                assert(crate::context::handover::is_started(panes[p]));
            }
        } else {
            assert(!runs(panes[first_unstarted(panes, 0)->0]));
        }
    }
}

/// How many panes the first tabs have.
pub open spec fn panes_before(tabs: Seq<TabModel>, n: int) -> int
    decreases n,
{
    if n <= 0 {
        0
    } else {
        panes_before(tabs, n - 1) + tabs[n - 1].panes.len()
    }
}

proof fn lemma_all_offers(tabs: Seq<TabModel>, n: int)
    requires
        0 <= n <= tabs.len(),
    ensures
        all_offers(tabs, n).len() == panes_before(tabs, n),
        0 <= panes_before(tabs, n),
    decreases n,
{
    if n > 0 {
        lemma_all_offers(tabs, n - 1);
    }
}

proof fn lemma_offer_at(tabs: Seq<TabModel>, n: int, t: int, p: int)
    requires
        0 <= t < n <= tabs.len(),
        0 <= p < tabs[t].panes.len(),
    ensures
        0 <= panes_before(tabs, t) + p < all_offers(tabs, n).len(),
        all_offers(tabs, n)[panes_before(tabs, t) + p] == offer_of(tabs[t].panes[p]),
    decreases n,
{
    lemma_all_offers(tabs, n - 1);
    if t < n - 1 {
        lemma_offer_at(tabs, n - 1, t, p);
    }
}

proof fn lemma_active(tabs: Seq<TabModel>, route: usize, n: int, t: int)
    requires
        0 <= t < n <= tabs.len(),
        0 <= tabs[t].current < tabs[t].panes.len(),
        tabs[t].panes[tabs[t].current].route_id == route,
        forall|t: int|
            0 <= t < tabs.len() ==> 0 <= (#[trigger] tabs[t]).current < tabs[t].panes.len(),
    ensures
        0 <= active_among(tabs, route, n) < all_offers(tabs, n).len(),
        all_offers(tabs, n)[active_among(tabs, route, n)].route_id == route,
    decreases n,
{
    let last = tabs[n - 1];
    if last.panes[last.current].route_id == route {
        law_panes_are_found_by_number(last.panes, route, 0);
        let p = pane_with_route(last.panes, route, 0)->0;
        lemma_all_offers(tabs, n - 1);
        lemma_offer_at(tabs, n, n - 1, p);
    } else {
        lemma_active(tabs, route, n - 1, t);
        let before = all_offers(tabs, n - 1);
        let k = active_among(tabs, route, n - 1);
        assert(all_offers(tabs, n)[k] == before[k]);
    }
}

/// An offered window names all panes of all its tabs in their order, each tab with
/// its panes and the focused one, and the active pane is the focused pane of the
/// focused tab. It is refused where it has no tabs, or for a pane that waits.
#[verifier::rlimit(40)]
pub proof fn law_window_offer_names_every_pane(
    manager: ManagerModel,
    transfer: u128,
    r: Result<TransferOffer, OfferError>,
)
    requires
        manager.well_formed(),
        is_window_offer(manager, transfer, r),
        panes_before(manager.tabs, manager.tabs.len() as int) <= u32::MAX,
    ensures
        manager.tabs.len() == 0 ==> r == Err::<TransferOffer, OfferError>(OfferError::NoPanes),
        r matches Ok(offer) ==> {
            let tab = manager.tabs[manager.current_index];
            &&& offer.transfer_id == transfer
            &&& offer.panes@.len() == panes_before(manager.tabs, manager.tabs.len() as int)
            &&& forall|t: int, p: int|
                #![trigger manager.tabs[t].panes[p]]
                0 <= t < manager.tabs.len() && 0 <= p < manager.tabs[t].panes.len() ==> stands_for(
                    offer.panes@[panes_before(manager.tabs, t) + p],
                    manager.tabs[t].panes[p],
                )
            &&& offer.tabs@.len() == manager.tabs.len()
            &&& forall|t: int|
                0 <= t < manager.tabs.len() ==> stands_for_tab(
                    #[trigger] offer.tabs@[t],
                    manager.tabs[t],
                )
            &&& offer.active_pane < offer.panes@.len()
            &&& offer.panes@[offer.active_pane as int].route_id == tab.panes[tab.current].route_id
        },
        r matches Err(OfferError::NotStarted(route)) ==> exists|t: int, p: int|
            #![trigger manager.tabs[t].panes[p]]
            0 <= t < manager.tabs.len() && 0 <= p < manager.tabs[t].panes.len()
                && manager.tabs[t].panes[p].route_id == route && !runs(manager.tabs[t].panes[p]),
{
    let tabs = manager.tabs;
    let n = tabs.len() as int;
    if manager.tabs.len() == 0 {
        assert(first_waiting(tabs, 0) is None);
    }
    match r {
        Ok(offer) => {
            assert forall|t: int, p: int|
                #![trigger tabs[t].panes[p]]
                0 <= t < n && 0 <= p < tabs[t].panes.len() implies runs(tabs[t].panes[p]) by {
                assert(crate::context::handover::is_started(tabs[t].panes[p]));
            }
            lemma_all_offers(tabs, n);
            assert forall|t: int, p: int|
                #![trigger tabs[t].panes[p]]
                0 <= t < n && 0 <= p < tabs[t].panes.len() implies stands_for(
                offer.panes@[panes_before(tabs, t) + p],
                tabs[t].panes[p],
            ) by {
                lemma_offer_at(tabs, n, t, p);
                assert(runs(tabs[t].panes[p]));
            }
            let tab = tabs[manager.current_index];
            assert(tab.panes[tab.current].route_id == manager.current_route());
            assert forall|t: int| 0 <= t < tabs.len() implies 0 <= (#[trigger] tabs[t]).current
                < tabs[t].panes.len() by {
                assert(tabs[t].well_formed());
            }
            lemma_active(tabs, manager.current_route(), n, manager.current_index);
        },
        Err(OfferError::NotStarted(route)) => {
            lemma_first_waiting(tabs, 0);
        },
        _ => {},
    }
}

proof fn lemma_first_waiting(tabs: Seq<TabModel>, from: int)
    requires
        0 <= from <= tabs.len(),
        first_waiting(tabs, from) is Some,
    ensures
        exists|t: int, p: int|
            #![trigger tabs[t].panes[p]]
            0 <= t < tabs.len() && 0 <= p < tabs[t].panes.len() && tabs[t].panes[p].route_id
                == first_waiting(tabs, from)->0 && !runs(tabs[t].panes[p]),
    decreases tabs.len() - from,
{
    law_first_waiting_pane_is_found(tabs[from].panes, 0);
    if first_unstarted(tabs[from].panes, 0) is None {
        lemma_first_waiting(tabs, from + 1);
    }
}

/// A number is found at its first position.
pub proof fn law_positions_are_first_positions(list: Seq<u64>, value: u64, from: int)
    requires
        0 <= from <= list.len(),
    ensures
        match position_of(list, value, from) {
            Some(i) => {
                &&& from <= i < list.len()
                &&& list[i] == value
                &&& forall|j: int| from <= j < i ==> #[trigger] list[j] != value
            },
            None => forall|j: int| from <= j < list.len() ==> #[trigger] list[j] != value,
        },
    decreases list.len() - from,
{
    if from < list.len() && list[from] != value {
        law_positions_are_first_positions(list, value, from + 1);
    }
}

/// The tab that holds a pane is the first one that does.
pub proof fn law_holding_tab_has_the_pane(tabs: Seq<TabOffer>, route: u64, from: int)
    requires
        0 <= from < tabs.len(),
        exists|t: int| from <= t < tabs.len() && (#[trigger] tabs[t]).routes@.contains(route),
    ensures
        from <= tab_holding(tabs, route, from) < tabs.len(),
        tabs[tab_holding(tabs, route, from)].routes@.contains(route),
    decreases tabs.len() - from,
{
    if !tabs[from].routes@.contains(route) {
        law_holding_tab_has_the_pane(tabs, route, from + 1);
    }
}

/// The tab that cannot be laid out again is the first such one, or behind all tabs.
pub proof fn law_first_unbuildable_tab_is_found(tabs: Seq<TabOffer>, from: int)
    requires
        0 <= from <= tabs.len(),
    ensures
        from <= first_unbuildable(tabs, from) <= tabs.len(),
        first_unbuildable(tabs, from) < tabs.len() ==> !tabs[first_unbuildable(
            tabs,
            from,
        )].rebuildable,
        forall|t: int|
            from <= t < first_unbuildable(tabs, from) ==> (#[trigger] tabs[t]).rebuildable,
    decreases tabs.len() - from,
{
    if from < tabs.len() && tabs[from].rebuildable {
        law_first_unbuildable_tab_is_found(tabs, from + 1);
    }
}

proof fn lemma_flattened(tabs: Seq<TabOffer>, n: int, j: int)
    requires
        0 <= n <= tabs.len(),
        0 <= j < flattened(tabs, n).len(),
    ensures
        exists|t: int, p: int|
            #![trigger tabs[t].routes@[p]]
            0 <= t < n && 0 <= p < tabs[t].routes@.len() && flattened(tabs, t).len() + p == j
                && tabs[t].routes@[p] == flattened(tabs, n)[j],
    decreases n,
{
    let before = flattened(tabs, n - 1);
    if j < before.len() {
        lemma_flattened(tabs, n - 1, j);
    } else {
        let p = j - before.len();
        assert(tabs[n - 1].routes@[p] == flattened(tabs, n)[j]);
    }
}

proof fn lemma_flattened_holds(tabs: Seq<TabOffer>, n: int, t: int, p: int)
    requires
        0 <= t < n <= tabs.len(),
        0 <= p < tabs[t].routes@.len(),
    ensures
        0 <= flattened(tabs, t).len() + p < flattened(tabs, n).len(),
        flattened(tabs, n)[flattened(tabs, t).len() + p] == tabs[t].routes@[p],
    decreases n,
{
    if t < n - 1 {
        lemma_flattened_holds(tabs, n - 1, t, p);
    }
}

proof fn lemma_by_route(given: Seq<PreparedPane>, i: int)
    requires
        0 <= i < given.len(),
        source_routes(given).no_duplicates(),
    ensures
        by_route(given)[given[i].offer.route_id] == given[i],
{
    let routes = source_routes(given);
    assert(routes[i] == given[i].offer.route_id);
    assert(routes.contains(routes[i]));
    let k = routes.index_of(routes[i]);
    assert(routes[k] == routes[i]);
}

/// An offer can be taken over where it has panes and tabs, the window has room for
/// all tabs, the position is one of the window, each pane stands in one tab and each
/// tab's focused pane in it, the active pane is one of them, and every tab can be laid
/// out again.
#[verifier::rlimit(40)]
pub proof fn law_acceptable_offers_are_sound(
    manager: ManagerModel,
    prepared: Seq<PreparedPane>,
    tabs: Seq<TabOffer>,
    active: int,
    index: Option<usize>,
)
    requires
        is_acceptable(manager, prepared, tabs, active, index),
    ensures
        prepared.len() > 0,
        tabs.len() > 0,
        manager.tabs.len() + tabs.len() <= manager.capacity,
        index matches Some(index) ==> index <= manager.tabs.len(),
        0 <= active < prepared.len(),
        forall|t: int| 0 <= t < tabs.len() ==> (#[trigger] tabs[t]).rebuildable,
        forall|t: int|
            0 <= t < tabs.len() ==> (#[trigger] tabs[t]).routes@.contains(tabs[t].active_route),
        forall|i: int, j: int|
            0 <= i < j < prepared.len() ==> (#[trigger] prepared[i]).offer.route_id != (
            #[trigger] prepared[j]).offer.route_id,
        forall|i: int|
            0 <= i < prepared.len() ==> is_in_a_tab(tabs, (#[trigger] prepared[i]).offer.route_id),
        forall|t: int, p: int|
            #![trigger tabs[t].routes@[p]]
            0 <= t < tabs.len() && 0 <= p < tabs[t].routes@.len() ==> exists|i: int|
                0 <= i < prepared.len() && (#[trigger] prepared[i]).offer.route_id
                    == tabs[t].routes@[p],
        forall|t: int, p: int, u: int, q: int|
            #![trigger tabs[t].routes@[p], tabs[u].routes@[q]]
            0 <= t < tabs.len() && 0 <= p < tabs[t].routes@.len() && 0 <= u < tabs.len() && 0 <= q
                < tabs[u].routes@.len() && tabs[t].routes@[p] == tabs[u].routes@[q] ==> flattened(
                tabs,
                t,
            ).len() + p == flattened(tabs, u).len() + q,
{
    let routes = source_routes(prepared);
    let order = order_of(tabs);
    let n = tabs.len() as int;
    assert forall|i: int, j: int| 0 <= i < j < prepared.len() implies (
    #[trigger] prepared[i]).offer.route_id != (#[trigger] prepared[j]).offer.route_id by {
        assert(routes[i] != routes[j]);
    }
    assert forall|i: int| 0 <= i < prepared.len() implies is_in_a_tab(
        tabs,
        (#[trigger] prepared[i]).offer.route_id,
    ) by {
        assert(order.contains(routes[i]));
        let j = choose|j: int| 0 <= j < order.len() && order[j] == routes[i];
        lemma_flattened(tabs, n, j);
    }
    assert forall|t: int, p: int|
        #![trigger tabs[t].routes@[p]]
        0 <= t < tabs.len() && 0 <= p < tabs[t].routes@.len() implies exists|i: int|
        0 <= i < prepared.len() && (#[trigger] prepared[i]).offer.route_id
            == tabs[t].routes@[p] by {
        lemma_flattened_holds(tabs, n, t, p);
        let j = flattened(tabs, t).len() + p;
        assert(routes.contains(order[j]));
        let i = choose|i: int| 0 <= i < routes.len() && routes[i] == order[j];
        assert(prepared[i].offer.route_id == routes[i]);
    }
    assert forall|t: int, p: int, u: int, q: int|
        #![trigger tabs[t].routes@[p], tabs[u].routes@[q]]
        0 <= t < tabs.len() && 0 <= p < tabs[t].routes@.len() && 0 <= u < tabs.len() && 0 <= q
            < tabs[u].routes@.len() && tabs[t].routes@[p] == tabs[u].routes@[q] implies flattened(
        tabs,
        t,
    ).len() + p == flattened(tabs, u).len() + q by {
        lemma_flattened_holds(tabs, n, t, p);
        lemma_flattened_holds(tabs, n, u, q);
    }
}

/// Some tab has the pane.
pub open spec fn is_in_a_tab(tabs: Seq<TabOffer>, route: u64) -> bool {
    exists|t: int, p: int|
        #![trigger tabs[t].routes@[p]]
        0 <= t < tabs.len() && 0 <= p < tabs[t].routes@.len() && tabs[t].routes@[p] == route
}

/// A pane was made of an offered one: with its prepared session and place, for the
/// window, and showing the frame that the session came with.
pub open spec fn is_made_of(pane: Context, given: PreparedPane, window: u64) -> bool {
    &&& pane.pending_session == Some(given.session)
    &&& pane.layout_rect == given.offer.layout_rect
    &&& pane.window_id == window
    &&& pane.terminal@.window_id == window
    &&& pane.terminal@.session is None
    &&& pane.title.content@ == "~"@
    &&& given.session.initial_frame is Some
    &&& pane.terminal@.decode_error is None ==> pane.terminal@.frame == Some(
        (given.session.initial_frame->0)@,
    )
    &&& pane.terminal@.decode_error is Some ==> pane.terminal@.frame is None
}

/// Where tabs that are taken over begin: at the position that was given, or behind
/// the window's own.
pub open spec fn begin_at(before: ManagerModel, index: Option<usize>) -> int {
    match index {
        Some(index) => index as int,
        None => before.tabs.len() as int,
    }
}

/// Tabs that were taken over stand at the position that was given, or at the end; the
/// window's own tabs stay in their order before and behind them. The tab with the
/// active pane is selected.
#[verifier::rlimit(40)]
pub proof fn law_tabs_are_taken_over_at_the_position(
    before: ManagerModel,
    now: ManagerModel,
    prepared: Seq<PreparedPane>,
    tabs: Seq<TabOffer>,
    active: int,
    index: Option<usize>,
    dimension: ContextDimension,
    first: IdSource,
    last: IdSource,
    routes: Seq<usize>,
)
    requires
        is_taken_in(
            before,
            now,
            prepared,
            tabs,
            active,
            index,
            dimension,
            first,
            last,
            routes,
        ),
    ensures
        ({
            let at = begin_at(before, index);
            let n = tabs.len() as int;
            &&& now.tabs.len() == before.tabs.len() + n
            &&& forall|i: int| 0 <= i < at ==> #[trigger] now.tabs[i] == before.tabs[i]
            &&& forall|i: int|
                at + n <= i < now.tabs.len() ==> #[trigger] now.tabs[i] == before.tabs[i - n]
            &&& at <= now.current_index < at + n
            &&& tabs[now.current_index - at].routes@.contains(prepared[active].offer.route_id)
            &&& now.window_id == before.window_id
            &&& now.capacity == before.capacity
            &&& now.retired == before.retired
            &&& routes.len() == prepared.len()
        }),
{
    let at = begin_at(before, index);
    let n = tabs.len() as int;
    let made = now.tabs.subrange(at, at + n);
    let all = before.tabs.take(at) + made + before.tabs.skip(at);
    assert(now.tabs == all);
    assert forall|i: int| 0 <= i < at implies #[trigger] now.tabs[i] == before.tabs[i] by {
        assert(all[i] == before.tabs.take(at)[i]);
    }
    assert forall|i: int| at + n <= i < now.tabs.len() implies #[trigger] now.tabs[i]
        == before.tabs[i - n] by {
        assert(all[i] == before.tabs.skip(at)[i - n - at]);
    }
    lemma_active_tab(before, prepared, tabs, active, index);
}

proof fn lemma_active_tab(
    before: ManagerModel,
    prepared: Seq<PreparedPane>,
    tabs: Seq<TabOffer>,
    active: int,
    index: Option<usize>,
)
    requires
        is_acceptable(before, prepared, tabs, active, index),
    ensures
        ({
            let route = prepared[active].offer.route_id;
            &&& 0 <= tab_holding(tabs, route, 0) < tabs.len()
            &&& tabs[tab_holding(tabs, route, 0)].routes@.contains(route)
        }),
{
    let n = tabs.len() as int;
    let route = prepared[active].offer.route_id;
    let routes = source_routes(prepared);
    let order = order_of(tabs);
    assert(routes[active] == route);
    assert(order.contains(routes[active]));
    let j = choose|j: int| 0 <= j < order.len() && order[j] == route;
    lemma_flattened(tabs, n, j);
    let (t, p) = choose|t: int, p: int|
        #![trigger tabs[t].routes@[p]]
        0 <= t < n && 0 <= p < tabs[t].routes@.len() && flattened(tabs, t).len() + p == j
            && tabs[t].routes@[p] == flattened(tabs, n)[j];
    assert(tabs[t].routes@[p] == route);
    assert(tabs[t].routes@.contains(route));
    law_holding_tab_has_the_pane(tabs, route, 0);
}

proof fn lemma_adopted(
    tab: TabModel,
    tabs: Seq<TabOffer>,
    t: int,
    prepared: Seq<PreparedPane>,
    first: IdSource,
    window: u64,
    dimension: ContextDimension,
    p: int,
    i: int,
)
    requires
        is_adopted(tab, tabs, t, prepared, first, window, dimension),
        0 <= p < tabs[t].routes@.len(),
        source_routes(prepared).no_duplicates(),
        0 <= i < prepared.len(),
        prepared[i].offer.route_id == tabs[t].routes@[p],
    ensures
        p < tab.panes.len(),
        is_made_of(tab.panes[p], prepared[i], window),
        tab.panes[p].dimension == dimension,
        tab.panes[p].route_id == nth_id(first.next_route, flattened(tabs, t).len() + p),
{
    lemma_by_route(prepared, i);
    assert(is_taken_over(
        &tab.panes[p],
        by_route(prepared)[tabs[t].routes@[p]],
        window,
        nth_id(first.next_route, flattened(tabs, t).len() + p),
        nth_id(first.next_rich_text, flattened(tabs, t).len() + p),
        dimension,
    ));
}

/// A tab that was taken over stands in its place among the others, and has a pane
/// for each offered one, in their order and made of it. The pane that had the focus
/// has it.
#[verifier::rlimit(40)]
pub proof fn law_taken_over_tab_has_its_panes(
    before: ManagerModel,
    now: ManagerModel,
    prepared: Seq<PreparedPane>,
    tabs: Seq<TabOffer>,
    active: int,
    index: Option<usize>,
    dimension: ContextDimension,
    first: IdSource,
    last: IdSource,
    routes: Seq<usize>,
    t: int,
    p: int,
    i: int,
)
    requires
        is_taken_in(
            before,
            now,
            prepared,
            tabs,
            active,
            index,
            dimension,
            first,
            last,
            routes,
        ),
        0 <= t < tabs.len(),
        0 <= p < tabs[t].routes@.len(),
        0 <= i < prepared.len(),
        prepared[i].offer.route_id == tabs[t].routes@[p],
    ensures
        ({
            let tab = now.tabs[begin_at(before, index) + t];
            &&& tab.panes.len() == tabs[t].routes@.len()
            &&& is_made_of(tab.panes[p], prepared[i], before.window_id)
            &&& tab.panes[p].dimension == dimension
            &&& tab.panes[p].route_id == routes[i]
            &&& 0 <= tab.current < tab.panes.len()
            &&& tabs[t].routes@[tab.current] == tabs[t].active_route
            &&& tab.custom_title is None
            &&& tab.custom_color is None
        }),
{
    let at = begin_at(before, index);
    let n = tabs.len() as int;
    let order = order_of(tabs);
    let tab = now.tabs[at + t];
    assert(is_adopted(
        now.tabs[at + t],
        tabs,
        at + t - at,
        prepared,
        first,
        before.window_id,
        dimension,
    ));
    lemma_adopted(tab, tabs, t, prepared, first, before.window_id, dimension, p, i);
    assert(tabs[t].routes@.contains(tabs[t].active_route));
    law_positions_are_first_positions(tabs[t].routes@, tabs[t].active_route, 0);
    let route = prepared[i].offer.route_id;
    assert(is_new_number(routes[i], route, order, first.next_route));
    law_positions_are_first_positions(order, route, 0);
    lemma_flattened_holds(tabs, n, t, p);
    let j = position_of(order, route, 0)->0;
    assert(order[j] == order[flattened(tabs, t).len() + p]);
}

/// A pane that lets go of its session keeps all else; the session is put aside and
/// not closed. Other panes stay as they are.
pub proof fn law_pane_lets_go_of_its_session(before: ManagerModel, route: usize)
    ensures
        tab_with_route(before.tabs, route, 0) is None ==> disarming(before, route) == before,
        tab_with_route(before.tabs, route, 0) matches Some(t) ==> exists|p: int|
            {
                let now = disarming(before, route);
                let was = before.tabs[t].panes[p];
                &&& 0 <= p < before.tabs[t].panes.len()
                &&& (#[trigger] before.tabs[t].panes[p]).route_id == route
                &&& now.tabs.len() == before.tabs.len()
                &&& forall|u: int|
                    0 <= u < now.tabs.len() && u != t ==> #[trigger] now.tabs[u] == before.tabs[u]
                &&& now.tabs[t].panes.len() == before.tabs[t].panes.len()
                &&& now.tabs[t].id == before.tabs[t].id
                &&& now.tabs[t].current == before.tabs[t].current
                &&& forall|q: int|
                    0 <= q < now.tabs[t].panes.len() && q != p ==> #[trigger] now.tabs[t].panes[q]
                        == before.tabs[t].panes[q]
                &&& now.tabs[t].panes[p].route_id == route
                &&& now.tabs[t].panes[p].terminal@.session is None
                &&& now.tabs[t].panes[p].terminal@.grid == was.terminal@.grid
                &&& was.terminal@.session is None ==> now.retired == before.retired
                &&& was.terminal@.session matches Some(session) ==> {
                    &&& now.retired.len() == before.retired.len() + 1
                    &&& now.retired.drop_last() == before.retired
                    &&& now.retired.last().closed == session.closed
                    &&& now.retired.last().commands == session.commands
                    &&& now.retired.last().state == session.state
                }
                &&& now.current_index == before.current_index
                &&& now.draws == before.draws
            },
{
    if tab_with_route(before.tabs, route, 0) is Some {
        let t = tab_with_route(before.tabs, route, 0)->0;
        law_tabs_are_found_by_pane(before.tabs, route, 0);
        law_panes_are_found_by_number(before.tabs[t].panes, route, 0);
        let p = pane_with_route(before.tabs[t].panes, route, 0)->0;
        assert(before.tabs[t].panes[p].route_id == route);
        let now = disarming(before, route);
        assert(now.retired.len() > before.retired.len() ==> now.retired.drop_last()
            =~= before.retired);
    }
}

/// A pane that goes leaves the other panes of its tab in their order; the last one
/// takes the tab with it, and the other tabs stay in theirs.
pub proof fn law_pane_goes_with_its_tab_at_last(before: ManagerModel, route: usize)
    ensures
        tab_with_route(before.tabs, route, 0) is None ==> dropping(before, route) == before,
        tab_with_route(before.tabs, route, 0) matches Some(t) ==> {
            let now = dropping(before, route);
            &&& before.tabs[t].panes.len() == 1 ==> {
                &&& now.tabs.len() == before.tabs.len() - 1
                &&& forall|u: int| 0 <= u < t ==> #[trigger] now.tabs[u] == before.tabs[u]
                &&& forall|u: int|
                    t <= u < now.tabs.len() ==> #[trigger] now.tabs[u] == before.tabs[u + 1]
                &&& now.draws == before.draws
            }
            &&& before.tabs[t].panes.len() > 1 ==> {
                &&& now.tabs.len() == before.tabs.len()
                &&& forall|u: int|
                    0 <= u < now.tabs.len() && u != t ==> #[trigger] now.tabs[u] == before.tabs[u]
                &&& now.draws == before.draws.push(DrawCommand::RemovePane(route))
                &&& now.current_index == before.current_index
                &&& exists|p: int|
                    {
                        &&& 0 <= p < before.tabs[t].panes.len()
                        &&& (#[trigger] before.tabs[t].panes[p]).route_id == route
                        &&& now.tabs[t].panes == before.tabs[t].panes.remove(p)
                    }
            }
        },
{
    if tab_with_route(before.tabs, route, 0) is Some {
        let t = tab_with_route(before.tabs, route, 0)->0;
        law_tabs_are_found_by_pane(before.tabs, route, 0);
        law_panes_are_found_by_number(before.tabs[t].panes, route, 0);
        let p = pane_with_route(before.tabs[t].panes, route, 0)->0;
        assert(before.tabs[t].panes[p].route_id == route);
    }
}

/// New numbers follow each other.
pub proof fn law_new_numbers_follow_each_other(start: usize, j: int)
    requires
        0 <= j,
        start + j <= usize::MAX,
    ensures
        nth_id(start, j) == start + j,
    decreases j,
{
    if j > 0 {
        law_new_numbers_follow_each_other(start, j - 1);
    }
}

/// A tab that was taken over has the number of its place behind the first new one, its
/// panes have their numbers one after the other, and the numbers go on behind them.
pub proof fn law_taken_over_tabs_are_numbered_in_turn(
    before: ManagerModel,
    now: ManagerModel,
    prepared: Seq<PreparedPane>,
    tabs: Seq<TabOffer>,
    active: int,
    index: Option<usize>,
    dimension: ContextDimension,
    first: IdSource,
    last: IdSource,
    routes: Seq<usize>,
    t: int,
    p: int,
)
    requires
        is_taken_in(
            before,
            now,
            prepared,
            tabs,
            active,
            index,
            dimension,
            first,
            last,
            routes,
        ),
        0 <= t < tabs.len(),
        0 <= p < tabs[t].routes@.len(),
    ensures
        ({
            let tab = now.tabs[begin_at(before, index) + t];
            let place = flattened(tabs, t).len() + p;
            let all = flattened(tabs, tabs.len() as int).len() as int;
            &&& tab.id == first.next_tab.wrapping_add(t as u64)
            &&& tab.panes[p].route_id == nth_id(first.next_route, place)
            &&& tab.panes[p].rich_text_id == nth_id(first.next_rich_text, place)
            &&& last.next_route == nth_id(first.next_route, all)
            &&& last.next_rich_text == nth_id(first.next_rich_text, all)
            &&& last.next_tab == first.next_tab.wrapping_add(tabs.len() as u64)
        }),
{
    let at = begin_at(before, index);
    let tab = now.tabs[at + t];
    assert(is_adopted(
        now.tabs[at + t],
        tabs,
        at + t - at,
        prepared,
        first,
        before.window_id,
        dimension,
    ));
    assert(is_taken_over(
        &tab.panes[p],
        by_route(prepared)[tabs[t].routes@[p]],
        before.window_id,
        nth_id(first.next_route, flattened(tabs, t).len() + p),
        nth_id(first.next_rich_text, flattened(tabs, t).len() + p),
        dimension,
    ));
}

/// The panes of offered tabs stand one tab after the other.
pub proof fn law_offered_panes_stand_tab_by_tab(tabs: Seq<TabOffer>, t: int, p: int)
    requires
        0 <= t < tabs.len(),
        0 <= p < tabs[t].routes@.len(),
    ensures
        order_of(tabs)[flattened(tabs, t).len() + p] == tabs[t].routes@[p],
        flattened(tabs, t + 1).len() == flattened(tabs, t).len() + tabs[t].routes@.len(),
        flattened(tabs, 0).len() == 0,
{
    lemma_flattened_holds(tabs, tabs.len() as int, t, p);
}

/// A refused offer uses numbers up only where a tab of it cannot be laid out again:
/// those of the panes up to that tab.
pub proof fn law_refused_offers_use_few_numbers(
    manager: ManagerModel,
    prepared: Seq<PreparedPane>,
    tabs: Seq<TabOffer>,
    active: int,
    index: Option<usize>,
    first: IdSource,
)
    ensures
        ({
            let now = behind_refusal(manager, prepared, tabs, active, index, first);
            let used = flattened(tabs, first_unbuildable(tabs, 0) + 1).len() as int;
            &&& !is_admissible(manager, prepared, tabs, active, index) ==> now == first
            &&& is_admissible(manager, prepared, tabs, active, index) ==> now.next_route == nth_id(
                first.next_route,
                used,
            ) && now.next_rich_text == nth_id(first.next_rich_text, used) && now.next_tab
                == first.next_tab
        }),
{
}

/// Panes are numbered where no two have the same number, and all numbers are below the
/// next one.
pub proof fn law_numbered_panes_differ(
    manager: ManagerModel,
    next: usize,
    t: int,
    p: int,
    u: int,
    q: int,
)
    requires
        is_numbered(manager, next),
        0 <= t < manager.tabs.len(),
        0 <= p < manager.tabs[t].panes.len(),
        0 <= u < manager.tabs.len(),
        0 <= q < manager.tabs[u].panes.len(),
    ensures
        manager.tabs[t].panes[p].route_id < next,
        t != u || p != q ==> manager.tabs[t].panes[p].route_id != manager.tabs[u].panes[q].route_id,
{
}

/// Tabs and windows share no number where they are apart: every pane of the one has
/// another number than every pane of the other.
pub proof fn law_windows_that_are_apart_share_no_number(
    a: ManagerModel,
    b: ManagerModel,
    tab: TabModel,
    other: TabModel,
    next: usize,
    t: int,
    p: int,
    u: int,
    q: int,
)
    requires
        0 <= t < a.tabs.len(),
        0 <= p < a.tabs[t].panes.len(),
    ensures
        windows_apart(a, b) && 0 <= u < b.tabs.len() && 0 <= q < b.tabs[u].panes.len()
            ==> a.tabs[t].panes[p].route_id != b.tabs[u].panes[q].route_id,
        shares_no_route(a, tab) && 0 <= q < tab.panes.len() ==> a.tabs[t].panes[p].route_id
            != tab.panes[q].route_id,
        panes_differ(tab) && 0 <= u < q < tab.panes.len() ==> tab.panes[u].route_id
            != tab.panes[q].route_id,
        panes_below(tab, next) && 0 <= q < tab.panes.len() ==> tab.panes[q].route_id < next,
        same_routes(tab, other) ==> tab.panes.len() == other.panes.len() && (0 <= q
            < tab.panes.len() ==> tab.panes[q].route_id == other.panes[q].route_id),
{
}

} // verus!
