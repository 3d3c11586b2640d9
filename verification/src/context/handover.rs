//! Handing tabs from one window to another.

use crate::context::manager::{ContextManager, ContextManagerConfig, ManagerModel};
use crate::context::numbers::{
    is_numbered, lemma_with_new_tab, lemma_with_tab, panes_below, panes_differ, routes_below,
    routes_differ, same_routes, shares_no_route,
};
use crate::context::pane::{
    after, create_prepared_context, is_new_pane, is_view_of, Context, ContextDimension, IdSource,
};
use crate::context::pump::PreparedSession;
use crate::context::renderable::plain_cursor;
use crate::context::row::{
    row_get, row_insert, row_len, row_new, row_push, TabRow, DEFAULT_CONTEXT_CAPACITY,
};
use crate::context::session::HandleModel;
use crate::context::tab::{
    first_unstarted, lemma_first_unstarted, offered_routes, offers_of, pane_with_route, routes_of,
    ContextGrid, PaneOffer, TabModel, TabOffer,
};
use crate::maps::{map_insert, map_remove, no_entries};
use rustc_hash::FxHashMap;
use vstd::prelude::*;

verus! {

/// A pane that is offered to this window, with the session prepared for it.
pub struct PreparedPane {
    pub offer: PaneOffer,
    pub session: PreparedSession,
}

/// The number `j` places behind another one.
pub open spec fn nth_id(start: usize, j: int) -> usize
    decreases j,
{
    if j <= 0 {
        start
    } else {
        after(nth_id(start, j - 1))
    }
}

pub(crate) proof fn lemma_nth_id(start: usize, j: int)
    requires
        0 <= j <= usize::MAX,
    ensures
        nth_id(start, j) == if start + j <= usize::MAX {
            start + j
        } else {
            start + j - usize::MAX - 1
        },
    decreases j,
{
    if j > 0 {
        lemma_nth_id(start, j - 1);
    }
}

/// Numbers handed out in one go differ from each other.
pub proof fn law_handed_out_ids_differ(start: usize, i: int, j: int)
    requires
        0 <= i < j <= usize::MAX,
    ensures
        nth_id(start, i) != nth_id(start, j),
{
    lemma_nth_id(start, i);
    lemma_nth_id(start, j);
}

/// The numbers that some panes had where they come from.
pub open spec fn source_routes(given: Seq<PreparedPane>) -> Seq<u64> {
    given.map_values(|p: PreparedPane| p.offer.route_id)
}

/// Some panes by the numbers that they had.
pub open spec fn by_route(given: Seq<PreparedPane>) -> Map<u64, PreparedPane> {
    Map::new(
        |r: u64| source_routes(given).contains(r),
        |r: u64| given[source_routes(given).index_of(r)],
    )
}

/// The panes that are left once the first `k` of an order are taken.
pub open spec fn left_of(given: Seq<PreparedPane>, order: Seq<u64>, k: int) -> Map<
    u64,
    PreparedPane,
>
    decreases k,
{
    if k <= 0 {
        by_route(given)
    } else {
        left_of(given, order, k - 1).remove(order[k - 1])
    }
}

/// The new numbers of the first `k` panes of an order.
pub open spec fn renumbered(order: Seq<u64>, start: usize, k: int) -> Map<u64, usize>
    decreases k,
{
    if k <= 0 {
        no_entries()
    } else {
        renumbered(order, start, k - 1).insert(order[k - 1], nth_id(start, k - 1))
    }
}

/// The offers of the first `k` panes of an order by their new numbers.
pub open spec fn offers_by_target(
    given: Seq<PreparedPane>,
    order: Seq<u64>,
    start: usize,
    k: int,
) -> Map<u64, PaneOffer>
    decreases k,
{
    if k <= 0 {
        no_entries()
    } else {
        offers_by_target(given, order, start, k - 1).insert(
            nth_id(start, k - 1) as u64,
            by_route(given)[order[k - 1]].offer,
        )
    }
}

/// A pane made of an offered one: it has new numbers, shows the frame that its
/// session was prepared with, and keeps the prepared session.
pub open spec fn is_taken_over(
    context: &Context,
    pane: PreparedPane,
    window_id: u64,
    route_id: usize,
    rich_text_id: usize,
    dimension: ContextDimension,
) -> bool {
    &&& context.well_formed()
    &&& context.route_id == route_id
    &&& context.window_id == window_id
    &&& context.rich_text_id == rich_text_id
    &&& context.dimension == dimension
    &&& context.layout_rect == pane.offer.layout_rect
    &&& context.pending_session == Some(pane.session)
    &&& pane.session.initial_frame is Some
    &&& is_view_of(&context.terminal, &pane.session.initial_frame->0, window_id)
    &&& context.renderable_content.is_new(plain_cursor())
    &&& context.title.content@ == "~"@
    &&& context.title.extra is None
}

/// The panes and maps behind the first `contexts.len()` steps of a handover.
pub open spec fn is_under_way(
    given: Seq<PreparedPane>,
    order: Seq<u64>,
    first: IdSource,
    window_id: u64,
    dimension: ContextDimension,
    contexts: Seq<Context>,
) -> bool {
    &&& contexts.len() <= order.len()
    &&& forall|j: int|
        0 <= j < contexts.len() ==> is_taken_over(
            &#[trigger] contexts[j],
            by_route(given)[order[j]],
            window_id,
            nth_id(first.next_route, j),
            nth_id(first.next_rich_text, j),
            dimension,
        )
}

/// What a rollback puts back: the panes that were not taken yet, and those
/// whose session is still with the pane that was made for it.
pub open spec fn put_back(
    panes: Map<u64, PreparedPane>,
    targets: Map<u64, PaneOffer>,
    contexts: Seq<Context>,
    n: int,
) -> (Map<u64, PreparedPane>, Map<u64, PaneOffer>)
    decreases n,
{
    if n <= 0 {
        (panes, targets)
    } else {
        let (p, t) = put_back(panes, targets, contexts, n - 1);
        let context = contexts[n - 1];
        let key = context.route_id as u64;
        if t.dom().contains(key) {
            match context.pending_session {
                Some(session) => (
                    p.insert(t[key].route_id, PreparedPane { offer: t[key], session }),
                    t.remove(key),
                ),
                None => (p, t.remove(key)),
            }
        } else {
            (p, t)
        }
    }
}

/// The panes of a map in a given order, each once, and what is left of the map.
pub open spec fn listed(panes: Map<u64, PreparedPane>, order: Seq<u64>, n: int) -> (
    Seq<PreparedPane>,
    Map<u64, PreparedPane>,
)
    decreases n,
{
    if n <= 0 {
        (Seq::empty(), panes)
    } else {
        let (list, left) = listed(panes, order, n - 1);
        if left.dom().contains(order[n - 1]) {
            (list.push(left[order[n - 1]]), left.remove(order[n - 1]))
        } else {
            (list, left)
        }
    }
}

/// Undoes a handover: every pane goes back, in the order in which they came.
pub fn restore_prepared_transfer(
    panes: FxHashMap<u64, PreparedPane>,
    contexts: Vec<Context>,
    target_panes: FxHashMap<u64, PaneOffer>,
    source_order: &Vec<u64>,
) -> (r: Vec<PreparedPane>)
    ensures
        r@ == listed(
            put_back(panes@, target_panes@, contexts@, contexts@.len() as int).0,
            source_order@,
            source_order@.len() as int,
        ).0,
{
    let ghost panes0 = panes@;
    let ghost targets0 = target_panes@;
    let mut all: FxHashMap<u64, PreparedPane> = panes;
    let mut targets: FxHashMap<u64, PaneOffer> = target_panes;
    let mut made: Vec<Context> = contexts;
    let ghost given = made@;
    let mut i: usize = 0;
    while i < made.len()
        invariant
            i <= made@.len(),
            made@.len() == given.len(),
            forall|k: int| i <= k < made@.len() ==> #[trigger] made@[k] == given[k],
            (all@, targets@) == put_back(panes0, targets0, given, i as int),
        decreases made@.len() - i,
    {
        proof {
            assert(made@[i as int] == given[i as int]);
        }
        let context: &mut Context = &mut made[i];
        let route: u64 = context.route_id as u64;
        if let Some(offer) = map_remove(&mut targets, route) {
            if let Some(session) = context.pending_session.take() {
                map_insert(&mut all, offer.route_id, PreparedPane { offer, session });
            }
        }
        i += 1;
    }
    let ghost back = all@;
    let mut out: Vec<PreparedPane> = Vec::new();
    let mut k: usize = 0;
    while k < source_order.len()
        invariant
            k <= source_order@.len(),
            (out@, all@) == listed(back, source_order@, k as int),
        decreases source_order@.len() - k,
    {
        if let Some(pane) = map_remove(&mut all, source_order[k]) {
            out.push(pane);
        }
        k += 1;
    }
    out
}

proof fn lemma_taken_step(order: Seq<u64>, k: int, r: u64)
    requires
        0 < k <= order.len(),
    ensures
        order.take(k).contains(r) <==> order.take(k - 1).contains(r) || order[k - 1] == r,
{
    let shorter = order.take(k - 1);
    let longer = order.take(k);
    if shorter.contains(r) {
        let i = choose|i: int| 0 <= i < shorter.len() && shorter[i] == r;
        assert(longer[i] == r);
    }
    if longer.contains(r) {
        let i = choose|i: int| 0 <= i < longer.len() && longer[i] == r;
        if i < k - 1 {
            assert(shorter[i] == r);
        }
    }
    assert(longer[k - 1] == order[k - 1]);
}

pub proof fn lemma_left_of(given: Seq<PreparedPane>, order: Seq<u64>, k: int, r: u64)
    requires
        0 <= k <= order.len(),
    ensures
        left_of(given, order, k).dom().contains(r) <==> by_route(given).dom().contains(r)
            && !order.take(k).contains(r),
        left_of(given, order, k).dom().contains(r) ==> left_of(given, order, k)[r] == by_route(
            given,
        )[r],
    decreases k,
{
    if k > 0 {
        lemma_left_of(given, order, k - 1, r);
        lemma_taken_step(order, k, r);
    } else {
        assert(order.take(0) =~= Seq::<u64>::empty());
    }
}

proof fn lemma_targets(given: Seq<PreparedPane>, order: Seq<u64>, start: usize, k: int, n: int)
    requires
        0 <= n < k <= order.len(),
        order.len() <= usize::MAX,
    ensures
        offers_by_target(given, order, start, k).dom().contains(nth_id(start, n) as u64),
        offers_by_target(given, order, start, k)[nth_id(start, n) as u64] == by_route(
            given,
        )[order[n]].offer,
    decreases k,
{
    if n < k - 1 {
        lemma_targets(given, order, start, k - 1, n);
        law_handed_out_ids_differ(start, n, k - 1);
    }
}

/// The panes behind the first `n` steps of a rollback.
spec fn back_again(given: Seq<PreparedPane>, order: Seq<u64>, k: int, n: int) -> Map<
    u64,
    PreparedPane,
>
    decreases n,
{
    if n <= 0 {
        left_of(given, order, k)
    } else {
        back_again(given, order, k, n - 1).insert(order[n - 1], by_route(given)[order[n - 1]])
    }
}

proof fn lemma_back_again(given: Seq<PreparedPane>, order: Seq<u64>, k: int, n: int, r: u64)
    requires
        0 <= n <= k <= order.len(),
        forall|j: int| 0 <= j < k ==> by_route(given).dom().contains(#[trigger] order[j]),
    ensures
        back_again(given, order, k, n).dom().contains(r) <==> by_route(given).dom().contains(r) && (
        !order.take(k).contains(r) || order.take(n).contains(r)),
        back_again(given, order, k, n).dom().contains(r) ==> back_again(given, order, k, n)[r]
            == by_route(given)[r],
    decreases n,
{
    if n > 0 {
        lemma_back_again(given, order, k, n - 1, r);
        lemma_taken_step(order, n, r);
        assert(by_route(given).dom().contains(order[n - 1]));
    } else {
        lemma_left_of(given, order, k, r);
        assert(order.take(0) =~= Seq::<u64>::empty());
    }
}

proof fn lemma_put_back(
    given: Seq<PreparedPane>,
    order: Seq<u64>,
    first: IdSource,
    window_id: u64,
    dimension: ContextDimension,
    contexts: Seq<Context>,
    n: int,
)
    requires
        0 <= n <= contexts.len(),
        is_under_way(given, order, first, window_id, dimension, contexts),
        order.len() <= usize::MAX,
        forall|j: int| 0 <= j < order.len() ==> by_route(given).dom().contains(#[trigger] order[j]),
        forall|r: u64|
            by_route(given).dom().contains(r) ==> (#[trigger] by_route(given)[r]).offer.route_id
                == r,
    ensures
        ({
            let k = contexts.len() as int;
            let targets = offers_by_target(given, order, first.next_route, k);
            let (p, t) = put_back(left_of(given, order, k), targets, contexts, n);
            &&& p == back_again(given, order, k, n)
            &&& forall|j: int|
                n <= j < k ==> {
                    &&& t.dom().contains(#[trigger] nth_id(first.next_route, j) as u64)
                    &&& t[nth_id(first.next_route, j) as u64] == by_route(given)[order[j]].offer
                }
        }),
    decreases n,
{
    let k = contexts.len() as int;
    let targets = offers_by_target(given, order, first.next_route, k);
    if n > 0 {
        lemma_put_back(given, order, first, window_id, dimension, contexts, n - 1);
        let (p, t) = put_back(left_of(given, order, k), targets, contexts, n - 1);
        let context = contexts[n - 1];
        let key = nth_id(first.next_route, n - 1) as u64;
        assert(is_taken_over(
            &contexts[n - 1],
            by_route(given)[order[n - 1]],
            window_id,
            nth_id(first.next_route, n - 1),
            nth_id(first.next_rich_text, n - 1),
            dimension,
        ));
        assert(context.route_id as u64 == key);
        assert(by_route(given).dom().contains(order[n - 1]));
        assert(by_route(given)[order[n - 1]].offer.route_id == order[n - 1]);
        let pane = by_route(given)[order[n - 1]];
        assert(PreparedPane { offer: pane.offer, session: pane.session } == pane);
        assert forall|j: int| n <= j < k implies {
            &&& t.remove(key).dom().contains(#[trigger] nth_id(first.next_route, j) as u64)
            &&& t.remove(key)[nth_id(first.next_route, j) as u64] == by_route(given)[order[j]].offer
        } by {
            law_handed_out_ids_differ(first.next_route, n - 1, j);
        }
    } else {
        assert forall|j: int| 0 <= j < k implies {
            &&& targets.dom().contains(#[trigger] nth_id(first.next_route, j) as u64)
            &&& targets[nth_id(first.next_route, j) as u64] == by_route(given)[order[j]].offer
        } by {
            lemma_targets(given, order, first.next_route, k, j);
        }
    }
}

pub proof fn lemma_by_route(given: Seq<PreparedPane>)
    requires
        source_routes(given).no_duplicates(),
    ensures
        forall|i: int|
            0 <= i < given.len() ==> by_route(given).dom().contains(
                (#[trigger] given[i]).offer.route_id,
            ) && by_route(given)[given[i].offer.route_id] == given[i],
        forall|r: u64|
            by_route(given).dom().contains(r) ==> (#[trigger] by_route(given)[r]).offer.route_id
                == r,
{
    let routes = source_routes(given);
    assert forall|i: int| 0 <= i < given.len() implies by_route(given).dom().contains(
        (#[trigger] given[i]).offer.route_id,
    ) && by_route(given)[given[i].offer.route_id] == given[i] by {
        assert(routes[i] == given[i].offer.route_id);
        assert(routes.contains(routes[i]));
        let at = routes.index_of(routes[i]);
        assert(routes[at] == routes[i]);
    }
    assert forall|r: u64| by_route(given).dom().contains(r) implies (#[trigger] by_route(
        given,
    )[r]).offer.route_id == r by {
        let at = routes.index_of(r);
        assert(routes[at] == r);
    }
}

proof fn lemma_listed(given: Seq<PreparedPane>, n: int)
    requires
        source_routes(given).no_duplicates(),
        0 <= n <= given.len(),
    ensures
        listed(by_route(given), source_routes(given), n).0 == given.take(n),
        listed(by_route(given), source_routes(given), n).1 == left_of(
            given,
            source_routes(given),
            n,
        ),
    decreases n,
{
    let routes = source_routes(given);
    if n > 0 {
        lemma_listed(given, n - 1);
        lemma_left_of(given, routes, n - 1, routes[n - 1]);
        lemma_by_route(given);
        assert(routes[n - 1] == given[n - 1].offer.route_id);
        assert(!routes.take(n - 1).contains(routes[n - 1])) by {
            let shorter = routes.take(n - 1);
            let last = routes[n - 1];
            if shorter.contains(last) {
                let i = choose|i: int| 0 <= i < shorter.len() && shorter[i] == last;
                assert(routes[i] == routes[n - 1]);
            }
        }
        assert(given.take(n) =~= given.take(n - 1).push(given[n - 1]));
    } else {
        assert(given.take(0) =~= Seq::<PreparedPane>::empty());
    }
}

/// A handover that is undone at any point gives every pane back as it came, in
/// the order in which they came.
pub proof fn law_rollback_restores_every_pane(
    given: Seq<PreparedPane>,
    order: Seq<u64>,
    first: IdSource,
    window_id: u64,
    dimension: ContextDimension,
    contexts: Seq<Context>,
)
    requires
        source_routes(given).no_duplicates(),
        order.len() <= usize::MAX,
        forall|j: int|
            0 <= j < order.len() ==> source_routes(given).contains(#[trigger] order[j]),
        is_under_way(given, order, first, window_id, dimension, contexts),
    ensures
        ({
            let k = contexts.len() as int;
            listed(
                put_back(
                    left_of(given, order, k),
                    offers_by_target(given, order, first.next_route, k),
                    contexts,
                    k,
                ).0,
                source_routes(given),
                given.len() as int,
            ).0 == given
        }),
{
    let k = contexts.len() as int;
    lemma_by_route(given);
    assert forall|j: int| 0 <= j < order.len() implies by_route(given).dom().contains(
        #[trigger] order[j],
    ) by {
        assert(source_routes(given).contains(order[j]));
    }
    lemma_put_back(given, order, first, window_id, dimension, contexts, k);
    assert(back_again(given, order, k, k) =~= by_route(given)) by {
        assert forall|r: u64|
            #[trigger] back_again(given, order, k, k).dom().contains(r) <==> by_route(
                given,
            ).dom().contains(r) by {
            lemma_back_again(given, order, k, k, r);
        }
        assert forall|r: u64| #[trigger]
            back_again(given, order, k, k).dom().contains(r) implies back_again(
            given,
            order,
            k,
            k,
        )[r] == by_route(given)[r] by {
            lemma_back_again(given, order, k, k, r);
        }
        assert(back_again(given, order, k, k).dom() =~= by_route(given).dom());
    }
    lemma_listed(given, given.len() as int);
    assert(given.take(given.len() as int) =~= given);
}

/// A tab on its way to another window.
pub struct GridTransfer {
    pub grid: ContextGrid,
}

impl GridTransfer {
    pub fn id(&self) -> (r: u64)
        ensures
            r == self.grid@.id,
    {
        self.grid.id()
    }

    pub fn route_ids(&self) -> (r: Vec<usize>)
        ensures
            r@ == routes_of(self.grid@.panes),
    {
        self.grid.route_ids()
    }
}

/// Why a tab cannot be offered to another window.
#[derive(Clone, Copy, Debug, PartialEq, Eq, Structural)]
pub enum OfferError {
    NoTab,
    NoPanes,
    /// The pane with this number has no started session.
    NotStarted(usize),
}

/// What is offered to another window.
pub struct TransferOffer {
    pub transfer_id: u128,
    pub panes: Vec<PaneOffer>,
    pub tabs: Vec<TabOffer>,
    pub active_pane: u32,
}

/// The offer stands for the tab.
pub open spec fn is_offer_of(offer: TabOffer, tab: TabModel) -> bool {
    &&& offer.routes@ == offered_routes(tab.panes)
    &&& offer.active_route == tab.current_pane().route_id as u64
    &&& offer.rebuildable
}

/// All panes of the first `n` tabs as they are offered.
pub open spec fn all_offers(tabs: Seq<TabModel>, n: int) -> Seq<PaneOffer>
    decreases n,
{
    if n <= 0 {
        Seq::empty()
    } else {
        all_offers(tabs, n - 1) + offers_of(tabs[n - 1].panes)
    }
}

/// The position of the focused pane among the panes of the first `n` tabs.
pub open spec fn active_among(tabs: Seq<TabModel>, route_id: usize, n: int) -> int
    decreases n,
{
    if n <= 0 {
        0
    } else if tabs[n - 1].current_pane().route_id == route_id {
        all_offers(tabs, n - 1).len() + pane_with_route(tabs[n - 1].panes, route_id, 0)->0
    } else {
        active_among(tabs, route_id, n - 1)
    }
}

/// The pane has a started session.
pub open spec fn is_started(pane: Context) -> bool {
    crate::context::tab::descriptor_of(pane) is Some
}

/// All panes of the first `n` tabs have started sessions.
pub open spec fn all_started(tabs: Seq<TabModel>, n: int) -> bool {
    forall|t: int, p: int|
        #![trigger tabs[t].panes[p]]
        0 <= t < n && 0 <= p < tabs[t].panes.len() ==> is_started(tabs[t].panes[p])
}

/// The number of the first pane, from tab `from` on, without a started session.
pub open spec fn first_waiting(tabs: Seq<TabModel>, from: int) -> Option<usize>
    decreases tabs.len() - from,
{
    if from < 0 || from >= tabs.len() {
        None
    } else {
        match first_unstarted(tabs[from].panes, 0) {
            Some(p) => Some(tabs[from].panes[p].route_id),
            None => first_waiting(tabs, from + 1),
        }
    }
}

/// What comes of offering a tab to another window.
pub open spec fn is_tab_offer(
    manager: ManagerModel,
    index: usize,
    transfer_id: u128,
    r: Result<TransferOffer, OfferError>,
) -> bool {
    match r {
        Err(OfferError::NoTab) => index >= manager.tabs.len(),
        Err(OfferError::NotStarted(route)) => {
            let panes = manager.tabs[index as int].panes;
            &&& index < manager.tabs.len()
            &&& first_unstarted(panes, 0) matches Some(p) && route == panes[p].route_id
        },
        Err(OfferError::NoPanes) => false,
        Ok(offer) => {
            &&& index < manager.tabs.len()
            &&& forall|p: int|
                0 <= p < manager.tabs[index as int].panes.len() ==> is_started(
                    #[trigger] manager.tabs[index as int].panes[p],
                )
            &&& offer.transfer_id == transfer_id
            &&& offer.panes@ == offers_of(manager.tabs[index as int].panes)
            &&& offer.tabs@.len() == 1
            &&& is_offer_of(offer.tabs@[0], manager.tabs[index as int])
            &&& offer.active_pane == manager.tabs[index as int].current as u32
        },
    }
}

/// What comes of offering all tabs of a window to another one.
pub open spec fn is_window_offer(
    manager: ManagerModel,
    transfer_id: u128,
    r: Result<TransferOffer, OfferError>,
) -> bool {
    match r {
        Err(OfferError::NoTab) => false,
        Err(OfferError::NoPanes) => manager.tabs.len() == 0,
        Err(OfferError::NotStarted(route)) => first_waiting(manager.tabs, 0) == Some(route),
        Ok(offer) => {
            &&& manager.tabs.len() > 0
            &&& all_started(manager.tabs, manager.tabs.len() as int)
            &&& offer.transfer_id == transfer_id
            &&& offer.panes@ == all_offers(manager.tabs, manager.tabs.len() as int)
            &&& offer.tabs@.len() == manager.tabs.len()
            &&& forall|t: int|
                0 <= t < manager.tabs.len() ==> is_offer_of(
                    #[trigger] offer.tabs@[t],
                    manager.tabs[t],
                )
            &&& offer.active_pane == active_among(
                manager.tabs,
                manager.current_route(),
                manager.tabs.len() as int,
            ) as u32
        },
    }
}

impl ContextManager {
    /// Takes a tab out, with all its panes and their sessions.
    pub fn extract_grid(&mut self, index: usize) -> (r: Option<GridTransfer>)
        requires
            old(self)@.well_formed(),
        ensures
            final(self)@.well_formed(),
            match r {
                None => index >= old(self)@.tabs.len() && final(self)@ == old(self)@,
                Some(transfer) => {
                    &&& index < old(self)@.tabs.len()
                    &&& transfer.grid@ == old(self)@.tabs[index as int]
                    &&& transfer.grid@.well_formed()
                    &&& final(self)@ == old(self)@.without_tab(index as int).damaged()
                },
            },
    {
        if index >= row_len(&self.contexts) {
            return None;
        }
        let grid: ContextGrid = self.take_tab(index);
        self.mark_all_full_damage();
        Some(GridTransfer { grid })
    }

    /// Puts a tab at a position and selects it. Where there is no room, or no
    /// such position, the tab comes back unchanged.
    pub fn insert_grid(&mut self, index: usize, transfer: GridTransfer) -> (r: Result<
        (),
        GridTransfer,
    >)
        requires
            old(self)@.well_formed(),
            transfer.grid@.well_formed(),
        ensures
            final(self)@.well_formed(),
            match r {
                Err(back) => {
                    &&& old(self)@.tabs.len() >= old(self)@.capacity || index
                        > old(self)@.tabs.len()
                    &&& back == transfer
                    &&& final(self)@ == old(self)@
                },
                Ok(_) => {
                    &&& old(self)@.tabs.len() < old(self)@.capacity
                    &&& index <= old(self)@.tabs.len()
                    &&& exists|tab: TabModel|
                        #[trigger] tab.is_rebound(transfer.grid@, old(self)@.window_id)
                            && final(self)@ == (ManagerModel {
                            tabs: old(self)@.tabs.insert(index as int, tab),
                            current_index: index as int,
                            ..old(self)@
                        }).damaged()
                },
            },
            routes_differ(old(self)@) && panes_differ(transfer.grid@) && shares_no_route(
                old(self)@,
                transfer.grid@,
            ) ==> routes_differ(final(self)@),
            forall|next: usize| #[trigger]
                routes_below(old(self)@, next) && panes_below(transfer.grid@, next)
                    ==> routes_below(final(self)@, next),
    {
        let ghost before = self@;
        let len: usize = row_len(&self.contexts);
        if len >= self.capacity || index > len {
            return Err(transfer);
        }
        let mut grid: ContextGrid = transfer.grid;
        grid.rebind_window(self.window_id);
        let ghost tab = grid@;
        row_insert(&mut self.contexts, index, grid);
        self.current_index = index;
        proof {
            assert(self@.tabs =~= before.tabs.insert(index as int, tab));
            assert(self@ =~= (ManagerModel {
                tabs: before.tabs.insert(index as int, tab),
                current_index: index as int,
                ..before
            }));
            assert forall|i: int| 0 <= i < self@.tabs.len() implies (
            #[trigger] self@.tabs[i]).well_formed() by {
                if i < index {
                    assert(before.tabs[i].well_formed());
                } else if i > index {
                    assert(before.tabs[i - 1].well_formed());
                }
            }
        }
        self.mark_all_full_damage();
        proof {
            assert(tab.is_rebound(transfer.grid@, before.window_id));
            assert forall|i: int| 0 <= i < self@.tabs.len() implies same_routes(
                #[trigger] self@.tabs[i],
                before.tabs.insert(index as int, transfer.grid@)[i],
            ) by {
                if i == index {
                    assert(self@.tabs[i] == tab.damaged());
                    assert forall|p: int| 0 <= p < tab.panes.len() implies (
                    #[trigger] self@.tabs[i].panes[p]).route_id
                        == transfer.grid@.panes[p].route_id by {
                        assert(tab.panes[p].is_rebound(
                            &transfer.grid@.panes[p],
                            before.window_id,
                        ));
                    }
                }
            }
            assert forall|next: usize| #[trigger] routes_below(before, next) && panes_below(
                transfer.grid@,
                next,
            ) implies routes_below(self@, next) by {
                lemma_with_tab(before, self@, index as int, transfer.grid@, next);
            }
            lemma_with_tab(before, self@, index as int, transfer.grid@, 0);
        }
        Ok(())
    }

    pub fn can_insert_grid(&self, index: usize) -> (r: bool)
        ensures
            r == (index <= self@.tabs.len() && self@.tabs.len() < self@.capacity),
    {
        self.can_insert_grids(index, 1)
    }

    /// Whether so many tabs fit in at a position.
    pub fn can_insert_grids(&self, index: usize, count: usize) -> (r: bool)
        ensures
            r == (index <= self@.tabs.len() && (count == 0 || count + self@.tabs.len()
                <= self@.capacity)),
    {
        let len: usize = row_len(&self.contexts);
        index <= len && count <= self.capacity.saturating_sub(len)
    }

    /// A window for a tab that was taken out of another one.
    pub fn from_transfer(transfer: GridTransfer, window_id: u64, config: ContextManagerConfig) -> (r:
        Self)
        requires
            transfer.grid@.well_formed(),
        ensures
            r@.well_formed(),
            r@.tabs.len() == 1,
            r@.tabs[0].is_rebound(transfer.grid@, window_id),
            panes_differ(transfer.grid@) ==> routes_differ(r@),
            forall|next: usize| #[trigger]
                panes_below(transfer.grid@, next) ==> routes_below(r@, next),
            r@ == (ManagerModel {
                tabs: seq![r@.tabs[0]],
                current_index: 0,
                capacity: DEFAULT_CONTEXT_CAPACITY as int,
                window_id,
                config,
                last_title_update: None,
                bootstrap_transfer: None,
                events: Seq::empty(),
                draws: Seq::empty(),
                retired: Seq::empty(),
            }),
    {
        let mut grid: ContextGrid = transfer.grid;
        grid.rebind_window(window_id);
        let mut contexts: TabRow = row_new();
        row_push(&mut contexts, grid);
        let r: ContextManager = ContextManager {
            contexts,
            current_index: 0,
            capacity: DEFAULT_CONTEXT_CAPACITY,
            window_id,
            config,
            last_title_update: None,
            bootstrap_transfer: None,
            events: Vec::new(),
            draws: Vec::new(),
            retired: Vec::new(),
        };
        proof {
            assert(r@.tabs =~= seq![grid@]);
            assert(r@.retired =~= Seq::<HandleModel>::empty());
            assert forall|p: int| 0 <= p < grid@.panes.len() implies (
            #[trigger] r@.tabs[0].panes[p]).route_id == transfer.grid@.panes[p].route_id by {
                assert(grid@.panes[p].is_rebound(&transfer.grid@.panes[p], window_id));
            }
        }
        r
    }

    /// Offers a tab to another window.
    pub fn transfer_offer(&self, index: usize, transfer_id: u128) -> (r: Result<
        TransferOffer,
        OfferError,
    >)
        requires
            self@.well_formed(),
        ensures
            is_tab_offer(self@, index, transfer_id, r),
    {
        if index >= row_len(&self.contexts) {
            return Err(OfferError::NoTab);
        }
        proof {
            assert(self@.tabs[index as int].well_formed());
        }
        let grid: &ContextGrid = row_get(&self.contexts, index);
        match grid.transfer_parts() {
            Ok((panes, tab)) => {
                let mut tabs: Vec<TabOffer> = Vec::new();
                tabs.push(tab);
                let active_pane: u32 = #[verifier::truncate]
                (grid.current as u32);
                Ok(TransferOffer { transfer_id, panes, tabs, active_pane })
            },
            Err(route) => Err(OfferError::NotStarted(route)),
        }
    }

    /// Offers all tabs of the window to another one.
    pub fn transfer_window_offer(&self, transfer_id: u128) -> (r: Result<TransferOffer, OfferError>)
        requires
            self@.well_formed(),
        ensures
            is_window_offer(self@, transfer_id, r),
    {
        let active_route: usize = self.current_route();
        let mut panes: Vec<PaneOffer> = Vec::new();
        let mut tabs: Vec<TabOffer> = Vec::new();
        let mut active_pane: usize = 0;
        let mut i: usize = 0;
        while i < row_len(&self.contexts)
            invariant
                i <= self@.tabs.len(),
                self@.well_formed(),
                active_route == self@.current_route(),
                panes@ == all_offers(self@.tabs, i as int),
                i > 0 ==> panes@.len() > 0,
                tabs@.len() == i,
                forall|t: int| 0 <= t < i ==> is_offer_of(#[trigger] tabs@[t], self@.tabs[t]),
                all_started(self@.tabs, i as int),
                active_pane == active_among(self@.tabs, active_route, i as int),
                first_waiting(self@.tabs, 0) == first_waiting(self@.tabs, i as int),
            decreases self@.tabs.len() - i,
        {
            proof {
                assert(self@.tabs[i as int].well_formed());
                lemma_first_unstarted(self@.tabs[i as int].panes, 0);
            }
            let grid: &ContextGrid = row_get(&self.contexts, i);
            match grid.transfer_parts() {
                Ok((grid_panes, tab)) => {
                    let have: usize = panes.len();
                    let mut more: Vec<PaneOffer> = grid_panes;
                    panes.append(&mut more);
                    let total: usize = panes.len();
                    if grid.current().route_id == active_route {
                        proof {
                            crate::context::tab::lemma_pane_with_route(
                                grid@.panes,
                                active_route,
                                0,
                            );
                            assert(grid@.panes[grid@.current].route_id == active_route);
                            assert(total == have + grid@.panes.len());
                        }
                        let at: usize = match grid.index_of_route(active_route) {
                            Some(at) => at,
                            None => 0,
                        };
                        active_pane = have + at;
                    }
                    tabs.push(tab);
                },
                Err(route) => {
                    return Err(OfferError::NotStarted(route));
                },
            }
            i += 1;
        }
        if panes.len() == 0 {
            return Err(OfferError::NoPanes);
        }
        let active_pane: u32 = #[verifier::truncate]
        (active_pane as u32);
        Ok(TransferOffer { transfer_id, panes, tabs, active_pane })
    }

    /// Opens a tab for a prepared session and selects it. A full window gives
    /// the session back.
    pub fn insert_prepared_pane(
        &mut self,
        prepared: PreparedSession,
        rich_text_id: usize,
        dimension: ContextDimension,
        ids: &mut IdSource,
    ) -> (r: Result<usize, PreparedSession>)
        requires
            old(self)@.well_formed(),
            prepared.initial_frame matches Some(frame) && frame.fits(),
        ensures
            final(self)@.well_formed(),
            match r {
                Err(back) => old(self)@.tabs.len() >= old(self)@.capacity && back == prepared
                    && final(self)@ == old(self)@ && *final(ids) == *old(ids),
                Ok(route) => {
                    let tab = final(self)@.tabs.last();
                    &&& old(self)@.tabs.len() < old(self)@.capacity
                    &&& route == old(ids).next_route
                    &&& final(self)@ == (ManagerModel {
                        tabs: old(self)@.tabs.push(tab),
                        current_index: old(self)@.tabs.len() as int,
                        ..old(self)@
                    })
                    &&& tab.id == old(ids).next_tab
                    &&& tab.panes.len() == 1
                    &&& is_new_pane(
                        &tab.panes[0],
                        old(self)@.window_id,
                        route,
                        rich_text_id,
                        dimension,
                        plain_cursor(),
                    )
                    &&& tab.panes[0].pending_session == Some(
                        PreparedSession { initial_frame: None, ..prepared },
                    )
                    &&& is_view_of(
                        &tab.panes[0].terminal,
                        &prepared.initial_frame->0,
                        old(self)@.window_id,
                    )
                    &&& *final(ids) == (IdSource {
                        next_route: after(old(ids).next_route),
                        next_tab: old(ids).next_tab.wrapping_add(1),
                        ..*old(ids)
                    })
                },
            },
            is_numbered(old(self)@, old(ids).next_route) && old(ids).next_route < usize::MAX
                ==> is_numbered(final(self)@, final(ids).next_route),
    {
        let ghost before = self@;
        let len: usize = row_len(&self.contexts);
        if len >= self.capacity {
            return Err(prepared);
        }
        let route_id: usize = ids.next_route_id();
        let context: Context = create_prepared_context(
            prepared,
            self.window_id,
            route_id,
            rich_text_id,
            dimension,
        );
        let id: u64 = ids.next_tab_id();
        let grid: ContextGrid = ContextGrid::new(context, id);
        row_push(&mut self.contexts, grid);
        self.current_index = len;
        proof {
            assert(self@.tabs =~= before.tabs.push(grid@));
            assert(self@ =~= (ManagerModel {
                tabs: before.tabs.push(grid@),
                current_index: before.tabs.len() as int,
                ..before
            }));
            assert forall|i: int| 0 <= i < self@.tabs.len() implies (
            #[trigger] self@.tabs[i]).well_formed() by {
                if i < before.tabs.len() {
                    assert(before.tabs[i].well_formed());
                }
            }
            if is_numbered(before, route_id) && route_id < usize::MAX {
                lemma_with_new_tab(before, self@, route_id);
            }
        }
        Ok(route_id)
    }
}

/// A tab keeps what it is when it moves to another window: its identity, its
/// panes in their order, its focus, and what it was given as title and colour.
pub proof fn law_moved_tab_keeps_its_identity(now: TabModel, before: TabModel, window_id: u64)
    requires
        now.is_rebound(before, window_id),
        before.well_formed(),
    ensures
        now.id == before.id,
        now.custom_title == before.custom_title,
        now.custom_color == before.custom_color,
        routes_of(now.panes) == routes_of(before.panes),
        now.current_pane().route_id == before.current_pane().route_id,
        now.current_pane().title == before.current_pane().title,
        forall|i: int|
            0 <= i < now.panes.len() ==> (#[trigger] now.panes[i]).window_id == window_id
                && now.panes[i].terminal@.window_id == window_id,
{
    assert forall|i: int| 0 <= i < now.panes.len() implies (#[trigger] now.panes[i]).window_id
        == window_id && now.panes[i].terminal@.window_id == window_id && now.panes[i].route_id
        == before.panes[i].route_id by {
        assert(now.panes[i].is_rebound(&before.panes[i], window_id));
    }
    assert(now.panes[now.current].is_rebound(&before.panes[now.current], window_id));
    assert(routes_of(now.panes) =~= routes_of(before.panes));
}

} // verus!
