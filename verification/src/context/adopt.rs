//! Taking over tabs that another window offers.

use crate::context::handover::{
    by_route, is_taken_over, is_under_way, law_rollback_restores_every_pane, left_of,
    lemma_by_route, lemma_left_of, nth_id, offers_by_target, renumbered, restore_prepared_transfer,
    source_routes, PreparedPane,
};
use crate::context::manager::{
    all_routes, handle_models, lemma_tab_with_route, tab_with_route, ContextManager, DrawCommand,
    ManagerModel,
};
use crate::context::numbers::routes_differ;
use crate::context::pane::{
    after, create_prepared_context_for_transfer, next_rich_text_id, Context, ContextDimension,
    IdSource,
};
use crate::context::row::{row_get, row_insert, row_len, tabs_in};
use crate::context::session::{HandleModel, SessionHandle};
use crate::context::tab::{
    lemma_pane_with_route, pane_with_route, routes_of, ContextGrid, PaneOffer, TabModel, TabOffer,
};
use crate::maps::{map_get, map_insert, map_new, map_remove, no_entries};
use rustc_hash::FxHashMap;
use vstd::prelude::*;

verus! {

/// The first position, from `from` on, of a number in a list.
pub open spec fn position_of(list: Seq<u64>, value: u64, from: int) -> Option<int>
    decreases list.len() - from,
{
    if from < 0 || from >= list.len() {
        None
    } else if list[from] == value {
        Some(from)
    } else {
        position_of(list, value, from + 1)
    }
}

proof fn lemma_position_of(list: Seq<u64>, value: u64, from: int)
    requires
        0 <= from <= list.len(),
    ensures
        match position_of(list, value, from) {
            Some(at) => from <= at < list.len() && list[at] == value,
            None => forall|i: int| from <= i < list.len() ==> list[i] != value,
        },
    decreases list.len() - from,
{
    if from < list.len() && list[from] != value {
        lemma_position_of(list, value, from + 1);
    }
}

fn find_number(list: &Vec<u64>, value: u64) -> (r: Option<usize>)
    ensures
        match (r, position_of(list@, value, 0)) {
            (Some(i), Some(at)) => i == at && i < list@.len() && list@[at] == value,
            (None, None) => !list@.contains(value),
            _ => false,
        },
{
    let mut i: usize = 0;
    while i < list.len()
        invariant
            i <= list@.len(),
            position_of(list@, value, 0) == position_of(list@, value, i as int),
            forall|k: int| 0 <= k < i ==> list@[k] != value,
        decreases list@.len() - i,
    {
        if list[i] == value {
            return Some(i);
        }
        i += 1;
    }
    None
}

fn has_number(list: &Vec<u64>, value: u64) -> (r: bool)
    ensures
        r == list@.contains(value),
{
    match find_number(list, value) {
        Some(i) => {
            proof {
                assert(list@[i as int] == value);
            }
            true
        },
        None => false,
    }
}

fn all_differ(list: &Vec<u64>) -> (r: bool)
    ensures
        r == list@.no_duplicates(),
{
    let mut i: usize = 0;
    while i < list.len()
        invariant
            i <= list@.len(),
            forall|a: int, b: int| 0 <= a < i && 0 <= b < i && a != b ==> list@[a] != list@[b],
        decreases list@.len() - i,
    {
        let mut j: usize = 0;
        while j < i
            invariant
                j <= i < list@.len(),
                forall|b: int| 0 <= b < j ==> list@[i as int] != list@[b],
            decreases i - j,
        {
            if list[i] == list[j] {
                proof {
                    assert(list@[i as int] == list@[j as int]);
                }
                return false;
            }
            j += 1;
        }
        i += 1;
    }
    true
}

fn all_among(list: &Vec<u64>, others: &Vec<u64>) -> (r: bool)
    ensures
        r == (forall|i: int| 0 <= i < list@.len() ==> others@.contains(#[trigger] list@[i])),
{
    let mut i: usize = 0;
    while i < list.len()
        invariant
            i <= list@.len(),
            forall|k: int| 0 <= k < i ==> others@.contains(#[trigger] list@[k]),
        decreases list@.len() - i,
    {
        if !has_number(others, list[i]) {
            proof {
                assert(!others@.contains(list@[i as int]));
            }
            return false;
        }
        i += 1;
    }
    true
}

/// The panes of the first `n` tabs, by their numbers, one tab after the other.
pub open spec fn flattened(tabs: Seq<TabOffer>, n: int) -> Seq<u64>
    decreases n,
{
    if n <= 0 {
        Seq::empty()
    } else {
        flattened(tabs, n - 1) + tabs[n - 1].routes@
    }
}

/// The panes of all tabs.
pub open spec fn order_of(tabs: Seq<TabOffer>) -> Seq<u64> {
    flattened(tabs, tabs.len() as int)
}

pub(crate) proof fn lemma_flattened(tabs: Seq<TabOffer>, t: int, n: int)
    requires
        0 <= t <= n <= tabs.len(),
    ensures
        flattened(tabs, t).len() <= flattened(tabs, n).len(),
        flattened(tabs, n).take(flattened(tabs, t).len() as int) == flattened(tabs, t),
    decreases n - t,
{
    if t < n {
        lemma_flattened(tabs, t, n - 1);
        assert(flattened(tabs, n).take(flattened(tabs, t).len() as int) =~= flattened(
            tabs,
            n - 1,
        ).take(flattened(tabs, t).len() as int));
    } else {
        assert(flattened(tabs, n).take(flattened(tabs, t).len() as int) =~= flattened(tabs, t));
    }
}

pub(crate) proof fn lemma_flattened_at(tabs: Seq<TabOffer>, t: int, p: int)
    requires
        0 <= t < tabs.len(),
        0 <= p < tabs[t].routes@.len(),
    ensures
        flattened(tabs, t).len() + p < order_of(tabs).len(),
        order_of(tabs)[flattened(tabs, t).len() + p] == tabs[t].routes@[p],
{
    lemma_flattened(tabs, t + 1, tabs.len() as int);
    let off = flattened(tabs, t).len() as int;
    let upto = flattened(tabs, t + 1);
    assert(upto[off + p] == tabs[t].routes@[p]);
    assert(order_of(tabs).take(upto.len() as int)[off + p] == upto[off + p]);
}

/// An offer is sound: no pane twice, each in exactly one tab, the focused pane of
/// each tab in it, and the active pane among them.
pub open spec fn parts_valid(panes: Seq<u64>, tabs: Seq<TabOffer>, active_pane: int) -> bool {
    let order = order_of(tabs);
    &&& panes.no_duplicates()
    &&& order.no_duplicates()
    &&& forall|i: int| 0 <= i < order.len() ==> panes.contains(#[trigger] order[i])
    &&& forall|i: int| 0 <= i < panes.len() ==> order.contains(#[trigger] panes[i])
    &&& forall|t: int|
        0 <= t < tabs.len() ==> (#[trigger] tabs[t]).routes@.contains(tabs[t].active_route)
    &&& 0 <= active_pane < panes.len()
}

fn flatten(tabs: &Vec<TabOffer>) -> (r: Vec<u64>)
    ensures
        r@ == order_of(tabs@),
{
    let mut out: Vec<u64> = Vec::new();
    let mut t: usize = 0;
    while t < tabs.len()
        invariant
            t <= tabs@.len(),
            out@ == flattened(tabs@, t as int),
        decreases tabs@.len() - t,
    {
        let mut routes: Vec<u64> = crate::terminal::copy_slice(tabs[t].routes.as_slice());
        out.append(&mut routes);
        t += 1;
    }
    out
}

/// The order in which panes are taken over, if the offer is sound.
pub fn validate_parts(panes: &Vec<u64>, tabs: &Vec<TabOffer>, active_pane: usize) -> (r: Option<
    Vec<u64>,
>)
    ensures
        match r {
            Some(order) => parts_valid(panes@, tabs@, active_pane as int) && order@ == order_of(
                tabs@,
            ),
            None => !parts_valid(panes@, tabs@, active_pane as int),
        },
{
    let order: Vec<u64> = flatten(tabs);
    if active_pane >= panes.len() || !all_differ(panes) || !all_differ(&order) || !all_among(
        &order,
        panes,
    ) || !all_among(panes, &order) {
        return None;
    }
    let mut t: usize = 0;
    while t < tabs.len()
        invariant
            t <= tabs@.len(),
            forall|k: int|
                0 <= k < t ==> (#[trigger] tabs@[k]).routes@.contains(tabs@[k].active_route),
        decreases tabs@.len() - t,
    {
        if !has_number(&tabs[t].routes, tabs[t].active_route) {
            proof {
                assert(!tabs@[t as int].routes@.contains(tabs@[t as int].active_route));
            }
            return None;
        }
        t += 1;
    }
    Some(order)
}

/// The first tab, from `from` on, with the pane.
pub open spec fn tab_holding(tabs: Seq<TabOffer>, route: u64, from: int) -> int
    decreases tabs.len() - from,
{
    if from < 0 || from >= tabs.len() {
        0
    } else if tabs[from].routes@.contains(route) {
        from
    } else {
        tab_holding(tabs, route, from + 1)
    }
}

proof fn lemma_tab_holding(tabs: Seq<TabOffer>, route: u64, from: int)
    requires
        0 <= from <= tabs.len(),
        tabs.len() > 0,
    ensures
        0 <= tab_holding(tabs, route, from) < tabs.len(),
    decreases tabs.len() - from,
{
    if from < tabs.len() && !tabs[from].routes@.contains(route) {
        lemma_tab_holding(tabs, route, from + 1);
    }
}

/// All tabs of the offer can be laid out again.
pub open spec fn all_rebuildable(tabs: Seq<TabOffer>) -> bool {
    forall|t: int| 0 <= t < tabs.len() ==> (#[trigger] tabs[t]).rebuildable
}

/// The first tab, from `from` on, that cannot be laid out again.
pub open spec fn first_unbuildable(tabs: Seq<TabOffer>, from: int) -> int
    decreases tabs.len() - from,
{
    if from < 0 || from >= tabs.len() || !tabs[from].rebuildable {
        from
    } else {
        first_unbuildable(tabs, from + 1)
    }
}

/// The numbers behind so many panes.
pub open spec fn numbered(first: IdSource, panes: int) -> IdSource {
    IdSource {
        next_route: nth_id(first.next_route, panes),
        next_rich_text: nth_id(first.next_rich_text, panes),
        ..first
    }
}

/// The window has room for the offer, which is sound.
pub open spec fn is_admissible(
    manager: ManagerModel,
    prepared: Seq<PreparedPane>,
    tabs: Seq<TabOffer>,
    active_pane: int,
    insertion_index: Option<usize>,
) -> bool {
    &&& prepared.len() > 0
    &&& tabs.len() > 0
    &&& tabs.len() + manager.tabs.len() <= manager.capacity
    &&& insertion_index matches Some(index) ==> index <= manager.tabs.len()
    &&& active_pane <= u32::MAX
    &&& parts_valid(source_routes(prepared), tabs, active_pane)
}

/// The numbers behind an offer that is refused: those of the tabs up to the one
/// that cannot be laid out again are used up.
pub open spec fn behind_refusal(
    manager: ManagerModel,
    prepared: Seq<PreparedPane>,
    tabs: Seq<TabOffer>,
    active_pane: int,
    insertion_index: Option<usize>,
    first: IdSource,
) -> IdSource {
    if is_admissible(manager, prepared, tabs, active_pane, insertion_index) {
        numbered(first, flattened(tabs, first_unbuildable(tabs, 0) + 1).len() as int)
    } else {
        first
    }
}

/// The window can take the offer over.
pub open spec fn is_acceptable(
    manager: ManagerModel,
    prepared: Seq<PreparedPane>,
    tabs: Seq<TabOffer>,
    active_pane: int,
    insertion_index: Option<usize>,
) -> bool {
    &&& is_admissible(manager, prepared, tabs, active_pane, insertion_index)
    &&& all_rebuildable(tabs)
}

/// A tab made of an offered one.
pub open spec fn is_adopted(
    tab: TabModel,
    tabs: Seq<TabOffer>,
    t: int,
    given: Seq<PreparedPane>,
    first: IdSource,
    window_id: u64,
    dimension: ContextDimension,
) -> bool {
    &&& tab.id == first.next_tab.wrapping_add(t as u64)
    &&& tab.panes.len() == tabs[t].routes@.len()
    &&& position_of(tabs[t].routes@, tabs[t].active_route, 0) == Some(tab.current)
    &&& tab.custom_title is None
    &&& tab.custom_color is None
    &&& forall|p: int|
        0 <= p < tab.panes.len() ==> is_taken_over(
            &#[trigger] tab.panes[p],
            by_route(given)[tabs[t].routes@[p]],
            window_id,
            nth_id(first.next_route, flattened(tabs, t).len() + p),
            nth_id(first.next_rich_text, flattened(tabs, t).len() + p),
            dimension,
        )
}

/// The panes taken over so far, and what is needed to undo it.
struct Adoption {
    panes: FxHashMap<u64, PreparedPane>,
    tab_routes: FxHashMap<u64, usize>,
    target_panes: FxHashMap<u64, PaneOffer>,
    contexts: Vec<Context>,
}

impl Adoption {
    /// The books are in order behind the panes that were made.
    spec fn well_formed(
        &self,
        given: Seq<PreparedPane>,
        order: Seq<u64>,
        first: IdSource,
        window_id: u64,
        dimension: ContextDimension,
    ) -> bool {
        let k = self.contexts@.len() as int;
        &&& is_under_way(given, order, first, window_id, dimension, self.contexts@)
        &&& self.panes@ == left_of(given, order, k)
        &&& self.tab_routes@ == renumbered(order, first.next_route, k)
        &&& self.target_panes@ == offers_by_target(given, order, first.next_route, k)
    }

    fn start(prepared: Vec<PreparedPane>) -> (r: Self)
        requires
            source_routes(prepared@).no_duplicates(),
        ensures
            r.contexts@ == Seq::<Context>::empty(),
            r.panes@ == by_route(prepared@),
            r.tab_routes@ == no_entries::<usize>(),
            r.target_panes@ == no_entries::<PaneOffer>(),
    {
        let ghost given = prepared@;
        let ghost routes = source_routes(given);
        let mut rest: Vec<PreparedPane> = prepared;
        let mut panes: FxHashMap<u64, PreparedPane> = map_new();
        while rest.len() > 0
            invariant
                rest@.len() <= given.len(),
                rest@ == given.take(rest@.len() as int),
                routes == source_routes(given),
                routes.no_duplicates(),
                forall|r: u64|
                    #[trigger] panes@.dom().contains(r) <==> routes.skip(
                        rest@.len() as int,
                    ).contains(r),
                forall|i: int|
                    rest@.len() <= i < given.len() ==> panes@[(#[trigger] given[i]).offer.route_id]
                        == given[i],
            decreases rest@.len(),
        {
            let ghost n = rest@.len() as int;
            let ghost before = panes@;
            match rest.pop() {
                Some(pane) => {
                    let route: u64 = pane.offer.route_id;
                    map_insert(&mut panes, route, pane);
                    proof {
                        assert(pane == given[n - 1]);
                        assert(rest@ =~= given.take(n - 1));
                        assert(routes[n - 1] == route);
                        let old_tail = routes.skip(n);
                        let tail = routes.skip(n - 1);
                        assert(tail =~= seq![routes[n - 1]] + old_tail);
                        assert forall|r: u64|
                            #[trigger] panes@.dom().contains(r) <==> tail.contains(r) by {
                            if old_tail.contains(r) {
                                let i = choose|i: int| 0 <= i < old_tail.len() && old_tail[i] == r;
                                assert(tail[i + 1] == r);
                            }
                            if tail.contains(r) {
                                let i = choose|i: int| 0 <= i < tail.len() && tail[i] == r;
                                if i > 0 {
                                    assert(old_tail[i - 1] == r);
                                }
                            }
                            assert(tail[0] == route);
                        }
                        assert forall|i: int| n - 1 <= i < given.len() implies panes@[(
                        #[trigger] given[i]).offer.route_id] == given[i] by {
                            if i >= n {
                                assert(routes[i] == given[i].offer.route_id);
                                assert(routes[i] != routes[n - 1]);
                            }
                        }
                    }
                },
                None => {},
            }
        }
        proof {
            assert(routes.skip(0) =~= routes);
            lemma_by_route(given);
            assert forall|r: u64| panes@.dom().contains(r) implies #[trigger] panes@[r]
                == by_route(given)[r] by {
                let i = choose|i: int| 0 <= i < routes.len() && routes[i] == r;
                assert(given[i].offer.route_id == r);
                assert(panes@[given[i].offer.route_id] == given[i]);
            }
            assert(panes@.dom() =~= by_route(given).dom());
            assert(panes@ =~= by_route(given));
        }
        Adoption { panes, tab_routes: map_new(), target_panes: map_new(), contexts: Vec::new() }
    }

    /// Makes the next pane.
    fn take_next(
        &mut self,
        route: u64,
        window_id: u64,
        dimension: ContextDimension,
        ids: &mut IdSource,
        Ghost(given): Ghost<Seq<PreparedPane>>,
        Ghost(order): Ghost<Seq<u64>>,
        Ghost(first): Ghost<IdSource>,
    )
        requires
            old(self).well_formed(given, order, first, window_id, dimension),
            old(self).contexts@.len() < order.len(),
            route == order[old(self).contexts@.len() as int],
            order.no_duplicates(),
            by_route(given).dom().contains(route),
            by_route(given)[route].session.initial_frame matches Some(frame) && frame.fits(),
            old(ids).next_route == nth_id(first.next_route, old(self).contexts@.len() as int),
            old(ids).next_rich_text == nth_id(
                first.next_rich_text,
                old(self).contexts@.len() as int,
            ),
        ensures
            final(self).well_formed(given, order, first, window_id, dimension),
            final(self).contexts@.len() == old(self).contexts@.len() + 1,
            final(ids).next_route == nth_id(
                first.next_route,
                old(self).contexts@.len() as int + 1,
            ),
            final(ids).next_rich_text == nth_id(
                first.next_rich_text,
                old(self).contexts@.len() as int + 1,
            ),
            final(ids).next_tab == old(ids).next_tab,
    {
        let ghost k = self.contexts@.len() as int;
        let ghost before = self.contexts@;
        proof {
            lemma_left_of(given, order, k, route);
            assert(!order.take(k).contains(route)) by {
                let shorter = order.take(k);
                if shorter.contains(route) {
                    let i = choose|i: int| 0 <= i < shorter.len() && shorter[i] == route;
                    assert(order[i] == order[k]);
                }
            }
        }
        if let Some(pane) = map_remove(&mut self.panes, route) {
            let target: usize = ids.next_route_id();
            map_insert(&mut self.tab_routes, route, target);
            map_insert(&mut self.target_panes, target as u64, pane.offer);
            let rich_text_id: usize = next_rich_text_id(ids);
            let mut context: Context = create_prepared_context_for_transfer(
                pane.session,
                window_id,
                target,
                rich_text_id,
                dimension,
            );
            context.layout_rect = pane.offer.layout_rect;
            self.contexts.push(context);
            proof {
                assert(is_taken_over(
                    &context,
                    by_route(given)[order[k]],
                    window_id,
                    nth_id(first.next_route, k),
                    nth_id(first.next_rich_text, k),
                    dimension,
                ));
                assert forall|j: int| 0 <= j < self.contexts@.len() implies is_taken_over(
                    &#[trigger] self.contexts@[j],
                    by_route(given)[order[j]],
                    window_id,
                    nth_id(first.next_route, j),
                    nth_id(first.next_rich_text, j),
                    dimension,
                ) by {
                    if j < k {
                        assert(self.contexts@[j] == before[j]);
                    }
                }
            }
        }
    }
}

proof fn lemma_renumbered(order: Seq<u64>, start: usize, k: int, j: int)
    requires
        0 <= j < k <= order.len(),
        order.no_duplicates(),
    ensures
        renumbered(order, start, k).dom().contains(order[j]),
        renumbered(order, start, k)[order[j]] == nth_id(start, j),
    decreases k,
{
    if j < k - 1 {
        lemma_renumbered(order, start, k - 1, j);
        assert(order[j] != order[k - 1]);
    }
}

proof fn lemma_position_unique(list: Seq<u64>, j: int)
    requires
        list.no_duplicates(),
        0 <= j < list.len(),
    ensures
        position_of(list, list[j], 0) == Some(j),
{
    lemma_position_of(list, list[j], 0);
}

fn source_order_of(prepared: &Vec<PreparedPane>) -> (r: Vec<u64>)
    ensures
        r@ == source_routes(prepared@),
{
    let mut out: Vec<u64> = Vec::new();
    let mut i: usize = 0;
    while i < prepared.len()
        invariant
            i <= prepared@.len(),
            out@ == source_routes(prepared@.take(i as int)),
        decreases prepared@.len() - i,
    {
        proof {
            assert(source_routes(prepared@.take(i + 1)) =~= source_routes(
                prepared@.take(i as int),
            ).push(prepared@[i as int].offer.route_id));
        }
        out.push(prepared[i].offer.route_id);
        i += 1;
    }
    proof {
        assert(prepared@.take(prepared@.len() as int) =~= prepared@);
    }
    out
}

/// The new numbers of panes, by the ones that they had.
fn new_numbers(
    tab_routes: &FxHashMap<u64, usize>,
    source_order: &Vec<u64>,
    Ghost(order): Ghost<Seq<u64>>,
    Ghost(start): Ghost<usize>,
) -> (r: Vec<usize>)
    requires
        order.no_duplicates(),
        tab_routes@ == renumbered(order, start, order.len() as int),
        forall|i: int| 0 <= i < source_order@.len() ==> order.contains(#[trigger] source_order@[i]),
    ensures
        r@.len() == source_order@.len(),
        forall|i: int|
            0 <= i < r@.len() ==> is_new_number(#[trigger] r@[i], source_order@[i], order, start),
{
    let mut routes: Vec<usize> = Vec::new();
    let mut i: usize = 0;
    while i < source_order.len()
        invariant
            i <= source_order@.len(),
            order.no_duplicates(),
            tab_routes@ == renumbered(order, start, order.len() as int),
            forall|k: int|
                0 <= k < source_order@.len() ==> order.contains(#[trigger] source_order@[k]),
            routes@.len() == i,
            forall|k: int|
                0 <= k < i ==> is_new_number(
                    #[trigger] routes@[k],
                    source_order@[k],
                    order,
                    start,
                ),
        decreases source_order@.len() - i,
    {
        proof {
            assert(order.contains(source_order@[i as int]));
            let j = choose|j: int| 0 <= j < order.len() && order[j] == source_order@[i as int];
            lemma_renumbered(order, start, order.len() as int, j);
            lemma_position_unique(order, j);
        }
        if let Some(target) = map_get(tab_routes, source_order[i]) {
            routes.push(*target);
        }
        i += 1;
    }
    routes
}

/// The number that a pane gets when panes are numbered in an order.
pub open spec fn is_new_number(number: usize, route: u64, order: Seq<u64>, start: usize) -> bool {
    match position_of(order, route, 0) {
        Some(j) => number == nth_id(start, j),
        None => false,
    }
}

fn first_tab_holding(tabs: &Vec<TabOffer>, route: u64) -> (r: usize)
    ensures
        r == tab_holding(tabs@, route, 0),
{
    let mut t: usize = 0;
    while t < tabs.len()
        invariant
            t <= tabs@.len(),
            tab_holding(tabs@, route, 0) == tab_holding(tabs@, route, t as int),
        decreases tabs@.len() - t,
    {
        if has_number(&tabs[t].routes, route) {
            return t;
        }
        t += 1;
    }
    0
}

/// The tabs of another window were taken over, at a position or at the end, and
/// the one with the active pane is selected.
pub open spec fn is_taken_in(
    before: ManagerModel,
    after: ManagerModel,
    prepared: Seq<PreparedPane>,
    tabs: Seq<TabOffer>,
    active_pane: int,
    insertion_index: Option<usize>,
    dimension: ContextDimension,
    first: IdSource,
    last: IdSource,
    routes: Seq<usize>,
) -> bool {
    let at = match insertion_index {
        Some(index) => index as int,
        None => before.tabs.len() as int,
    };
    let n = tabs.len() as int;
    let order = order_of(tabs);
    &&& is_acceptable(before, prepared, tabs, active_pane, insertion_index)
    &&& after == (ManagerModel {
        tabs: before.tabs.take(at) + after.tabs.subrange(at, at + n) + before.tabs.skip(at),
        current_index: at + tab_holding(tabs, prepared[active_pane].offer.route_id, 0),
        ..before
    })
    &&& after.tabs.len() == before.tabs.len() + n
    &&& forall|i: int|
        at <= i < at + n ==> is_adopted(
            #[trigger] after.tabs[i],
            tabs,
            i - at,
            prepared,
            first,
            before.window_id,
            dimension,
        )
    &&& routes.len() == prepared.len()
    &&& forall|i: int|
        0 <= i < routes.len() ==> is_new_number(
            #[trigger] routes[i],
            prepared[i].offer.route_id,
            order,
            first.next_route,
        )
    &&& last == (IdSource {
        next_route: nth_id(first.next_route, order.len() as int),
        next_rich_text: nth_id(first.next_rich_text, order.len() as int),
        next_tab: first.next_tab.wrapping_add(n as u64),
    })
}

impl ContextManager {
    /// Takes the tabs of another window over, at a position or at the end, and
    /// selects the one with the active pane. The result is the new numbers of
    /// the panes, in the order in which they came. An offer that cannot be
    /// taken over gives every pane back as it came, and changes no tab; where
    /// this only shows at a tab that cannot be laid out again, the numbers up to
    /// there are used up.
    #[verifier::rlimit(40)]
    pub fn insert_prepared_tabs(
        &mut self,
        prepared: Vec<PreparedPane>,
        tabs: Vec<TabOffer>,
        active_pane: usize,
        insertion_index: Option<usize>,
        dimension: ContextDimension,
        ids: &mut IdSource,
    ) -> (r: Result<Vec<usize>, Vec<PreparedPane>>)
        requires
            old(self)@.well_formed(),
            forall|i: int|
                0 <= i < prepared@.len() ==> ((#[trigger] prepared@[i]).session.initial_frame matches Some(
                    frame,
                ) && frame.fits()),
        ensures
            final(self)@.well_formed(),
            match r {
                Err(back) => {
                    &&& !is_acceptable(
                        old(self)@,
                        prepared@,
                        tabs@,
                        active_pane as int,
                        insertion_index,
                    )
                    &&& back@ == prepared@
                    &&& final(self)@ == old(self)@
                    &&& *final(ids) == behind_refusal(
                        old(self)@,
                        prepared@,
                        tabs@,
                        active_pane as int,
                        insertion_index,
                        *old(ids),
                    )
                },
                Ok(routes) => is_taken_in(
                    old(self)@,
                    final(self)@,
                    prepared@,
                    tabs@,
                    active_pane as int,
                    insertion_index,
                    dimension,
                    *old(ids),
                    *final(ids),
                    routes@,
                ),
            },
    {
        let ghost first = *ids;
        let ghost before = self@;
        let ghost given = prepared@;
        let len: usize = row_len(&self.contexts);
        if prepared.len() == 0 || active_pane >= prepared.len() || tabs.len() == 0 || tabs.len()
            > self.capacity.saturating_sub(len) || active_pane > u32::MAX as usize {
            return Err(prepared);
        }
        if let Some(index) = insertion_index {
            if index > len {
                return Err(prepared);
            }
        }
        let source_order: Vec<u64> = source_order_of(&prepared);
        let active_source: u64 = prepared[active_pane].offer.route_id;
        let order: Vec<u64> = match validate_parts(&source_order, &tabs, active_pane) {
            Some(order) => order,
            None => {
                return Err(prepared);
            },
        };
        let total: usize = order.len();
        proof {
            lemma_by_route(given);
        }
        let mut adoption: Adoption = Adoption::start(prepared);
        let mut t: usize = 0;
        while t < tabs.len()
            invariant
                t <= tabs@.len(),
                order@ == order_of(tabs@),
                total == order@.len(),
                source_order@ == source_routes(given),
                parts_valid(source_routes(given), tabs@, active_pane as int),
                adoption.well_formed(given, order@, first, self.window_id, dimension),
                adoption.contexts@.len() == flattened(tabs@, t as int).len(),
                ids.next_route == nth_id(first.next_route, adoption.contexts@.len() as int),
                ids.next_rich_text == nth_id(
                    first.next_rich_text,
                    adoption.contexts@.len() as int,
                ),
                ids.next_tab == first.next_tab,
                forall|i: int|
                    0 <= i < given.len() ==> by_route(given).dom().contains(
                        (#[trigger] given[i]).offer.route_id,
                    ) && by_route(given)[given[i].offer.route_id] == given[i],
                forall|i: int|
                    0 <= i < given.len() ==> ((#[trigger] given[i]).session.initial_frame matches Some(
                        frame,
                    ) && frame.fits()),
                forall|k: int| 0 <= k < t ==> (#[trigger] tabs@[k]).rebuildable,
                first_unbuildable(tabs@, 0) == first_unbuildable(tabs@, t as int),
                is_admissible(before, given, tabs@, active_pane as int, insertion_index),
                self@ == before,
                before == old(self)@,
                before.well_formed(),
                given == prepared@,
                first == *old(ids),
            decreases tabs@.len() - t,
        {
            let count: usize = tabs[t].routes.len();
            let mut p: usize = 0;
            while p < count
                invariant
                    p <= count,
                    t < tabs@.len(),
                    count == tabs@[t as int].routes@.len(),
                    order@ == order_of(tabs@),
                    total == order@.len(),
                    parts_valid(source_routes(given), tabs@, active_pane as int),
                    adoption.well_formed(given, order@, first, self.window_id, dimension),
                    adoption.contexts@.len() == flattened(tabs@, t as int).len() + p,
                    ids.next_route == nth_id(first.next_route, adoption.contexts@.len() as int),
                    ids.next_rich_text == nth_id(
                        first.next_rich_text,
                        adoption.contexts@.len() as int,
                    ),
                    ids.next_tab == first.next_tab,
                    forall|i: int|
                        0 <= i < given.len() ==> by_route(given).dom().contains(
                            (#[trigger] given[i]).offer.route_id,
                        ) && by_route(given)[given[i].offer.route_id] == given[i],
                    forall|i: int|
                        0 <= i < given.len() ==> (
                        (#[trigger] given[i]).session.initial_frame matches Some(frame)
                            && frame.fits()),
                decreases count - p,
            {
                let route: u64 = tabs[t].routes[p];
                proof {
                    lemma_flattened_at(tabs@, t as int, p as int);
                    let k = flattened(tabs@, t as int).len() + p;
                    assert(order@[k] == route);
                    assert(source_routes(given).contains(order@[k]));
                    let i = choose|i: int|
                        0 <= i < source_routes(given).len() && source_routes(given)[i] == route;
                    assert(given[i].offer.route_id == route);
                }
                adoption.take_next(
                    route,
                    self.window_id,
                    dimension,
                    ids,
                    Ghost(given),
                    Ghost(order@),
                    Ghost(first),
                );
                p += 1;
            }
            if !tabs[t].rebuildable {
                proof {
                    law_rollback_restores_every_pane(
                        given,
                        order@,
                        first,
                        self.window_id,
                        dimension,
                        adoption.contexts@,
                    );
                    assert(!all_rebuildable(tabs@)) by {
                        assert(!tabs@[t as int].rebuildable);
                    }
                    assert(first_unbuildable(tabs@, 0) == t);
                    assert(flattened(tabs@, t + 1).len() == adoption.contexts@.len());
                    assert(*ids == numbered(first, adoption.contexts@.len() as int));
                }
                let back: Vec<PreparedPane> = restore_prepared_transfer(
                    adoption.panes,
                    adoption.contexts,
                    adoption.target_panes,
                    &source_order,
                );
                return Err(back);
            }
            t += 1;
        }
        let at: usize = match insertion_index {
            Some(index) => index,
            None => len,
        };
        let tab_routes: FxHashMap<u64, usize> = adoption.tab_routes;
        let ghost made = adoption.contexts@;
        proof {
            assert(is_acceptable(before, given, tabs@, active_pane as int, insertion_index));
        }
        self.insert_adopted(
            adoption.contexts,
            &tabs,
            at,
            ids,
            Ghost(given),
            Ghost(order@),
            Ghost(first),
            dimension,
        );
        let ghost placed = self@;
        let active_tab: usize = first_tab_holding(&tabs, active_source);
        proof {
            lemma_tab_holding(tabs@, active_source, 0);
        }
        self.current_index = at + active_tab;
        let routes: Vec<usize> = new_numbers(
            &tab_routes,
            &source_order,
            Ghost(order@),
            Ghost(first.next_route),
        );
        proof {
            let n = tabs@.len() as int;
            assert(self@.tabs == placed.tabs);
            assert(self@ =~= (ManagerModel {
                tabs: before.tabs.take(at as int) + self@.tabs.subrange(at as int, at + n)
                    + before.tabs.skip(at as int),
                current_index: at + tab_holding(tabs@, active_source, 0),
                ..before
            }));
        }
        Ok(routes)
    }

    /// Puts the panes that were made into tabs, and the tabs in place.
    #[verifier::rlimit(40)]
    fn insert_adopted(
        &mut self,
        contexts: Vec<Context>,
        tabs: &Vec<TabOffer>,
        at: usize,
        ids: &mut IdSource,
        Ghost(given): Ghost<Seq<PreparedPane>>,
        Ghost(order): Ghost<Seq<u64>>,
        Ghost(first): Ghost<IdSource>,
        dimension: ContextDimension,
    )
        requires
            old(self)@.well_formed(),
            at <= old(self)@.tabs.len(),
            tabs@.len() + old(self)@.tabs.len() <= usize::MAX,
            order == order_of(tabs@),
            is_under_way(given, order, first, old(self)@.window_id, dimension, contexts@),
            contexts@.len() == order.len(),
            forall|t: int|
                0 <= t < tabs@.len() ==> (#[trigger] tabs@[t]).routes@.contains(
                    tabs@[t].active_route,
                ),
            old(ids).next_tab == first.next_tab,
        ensures
            final(self)@ == (ManagerModel {
                tabs: old(self)@.tabs.take(at as int) + final(self)@.tabs.subrange(
                    at as int,
                    at + tabs@.len(),
                ) + old(self)@.tabs.skip(at as int),
                ..old(self)@
            }),
            final(self)@.tabs.len() == old(self)@.tabs.len() + tabs@.len(),
            forall|i: int|
                0 <= i < final(self)@.tabs.len() ==> (#[trigger] final(self)@.tabs[i]).well_formed(),
            forall|i: int|
                at <= i < at + tabs@.len() ==> is_adopted(
                    #[trigger] final(self)@.tabs[i],
                    tabs@,
                    i - at,
                    given,
                    first,
                    old(self)@.window_id,
                    dimension,
                ),
            *final(ids) == (IdSource {
                next_tab: old(ids).next_tab.wrapping_add(tabs@.len() as u64),
                ..*old(ids)
            }),
    {
        let ghost before = self@;
        let ghost made = contexts@;
        let ghost window_id = self.window_id;
        let n: usize = tabs.len();
        let mut rest: Vec<Context> = contexts;
        let ghost mut fresh: Seq<TabModel> = Seq::empty();
        let mut t: usize = n;
        proof {
            assert(made.take(made.len() as int) =~= made);
            assert(before.tabs.take(at as int) + fresh + before.tabs.skip(at as int)
                =~= before.tabs);
        }
        while t > 0
            invariant
                t <= n,
                n == tabs@.len(),
                before.well_formed(),
                at <= before.tabs.len(),
                order == order_of(tabs@),
                made.len() == order.len(),
                is_under_way(given, order, first, window_id, dimension, made),
                forall|k: int|
                    0 <= k < tabs@.len() ==> (#[trigger] tabs@[k]).routes@.contains(
                        tabs@[k].active_route,
                    ),
                rest@ == made.take(flattened(tabs@, t as int).len() as int),
                fresh.len() == n - t,
                ids.next_tab == first.next_tab,
                *ids == *old(ids),
                self@ == (ManagerModel {
                    tabs: before.tabs.take(at as int) + fresh + before.tabs.skip(at as int),
                    ..before
                }),
                forall|k: int|
                    0 <= k < fresh.len() ==> (#[trigger] fresh[k]).well_formed() && is_adopted(
                        fresh[k],
                        tabs@,
                        t + k,
                        given,
                        first,
                        window_id,
                        dimension,
                    ),
            decreases t,
        {
            let ghost end = flattened(tabs@, t as int).len() as int;
            let ghost now = self@;
            let ghost later = fresh;
            t -= 1;
            let count: usize = tabs[t].routes.len();
            let held: usize = rest.len();
            proof {
                lemma_flattened(tabs@, t + 1, n as int);
                assert(end == flattened(tabs@, t as int).len() + count);
                assert(rest@.len() == end);
            }
            let start: usize = held - count;
            let panes: Vec<Context> = rest.split_off(start);
            let ghost pane_seq = panes@;
            let current: usize = match find_number(&tabs[t].routes, tabs[t].active_route) {
                Some(current) => current,
                None => 0,
            };
            let grid: ContextGrid = ContextGrid {
                id: ids.next_tab.wrapping_add(t as u64),
                panes,
                current,
                custom_title: None,
                custom_color: None,
            };
            let ghost tab = grid@;
            proof {
                assert(rest@ =~= made.take(start as int));
                assert(tabs@[t as int].routes@.contains(tabs@[t as int].active_route));
                assert forall|p: int| 0 <= p < tab.panes.len() implies is_taken_over(
                    &#[trigger] tab.panes[p],
                    by_route(given)[tabs@[t as int].routes@[p]],
                    window_id,
                    nth_id(first.next_route, flattened(tabs@, t as int).len() + p),
                    nth_id(first.next_rich_text, flattened(tabs@, t as int).len() + p),
                    dimension,
                ) by {
                    lemma_flattened_at(tabs@, t as int, p);
                    assert(tab.panes[p] == made[start + p]);
                    assert(is_taken_over(
                        &made[start + p],
                        by_route(given)[order[start + p]],
                        window_id,
                        nth_id(first.next_route, start + p),
                        nth_id(first.next_rich_text, start + p),
                        dimension,
                    ));
                }
                assert(tab.well_formed());
            }
            proof {
                assert(now.tabs.len() == tabs_in(self.contexts).len());
                assert(now.tabs.len() == before.tabs.len() + later.len());
            }
            row_insert(&mut self.contexts, at, grid);
            proof {
                fresh = seq![tab] + later;
                assert(self@.tabs =~= now.tabs.insert(at as int, tab));
                assert(self@.tabs =~= before.tabs.take(at as int) + fresh + before.tabs.skip(
                    at as int,
                ));
                assert(self@ =~= (ManagerModel {
                    tabs: before.tabs.take(at as int) + fresh + before.tabs.skip(at as int),
                    ..before
                }));
                assert forall|k: int| 0 <= k < fresh.len() implies (
                #[trigger] fresh[k]).well_formed() && is_adopted(
                    fresh[k],
                    tabs@,
                    t + k,
                    given,
                    first,
                    window_id,
                    dimension,
                ) by {
                    if k > 0 {
                        assert(fresh[k] == later[k - 1]);
                        assert(later[k - 1].well_formed());
                    }
                }
            }
        }
        ids.next_tab = ids.next_tab.wrapping_add(n as u64);
        proof {
            assert(self@.tabs.subrange(at as int, at + n) =~= fresh);
            assert forall|i: int| 0 <= i < self@.tabs.len() implies (
            #[trigger] self@.tabs[i]).well_formed() by {
                if i < at {
                    assert(before.tabs[i].well_formed());
                } else if i < at + n {
                    assert(self@.tabs[i] == fresh[i - at]);
                    assert(fresh[i - at].well_formed());
                } else {
                    assert(before.tabs[i - n].well_formed());
                }
            }
            assert forall|i: int| at <= i < at + n implies is_adopted(
                #[trigger] self@.tabs[i],
                tabs@,
                i - at,
                given,
                first,
                window_id,
                dimension,
            ) by {
                assert(self@.tabs[i] == fresh[i - at]);
                assert(fresh[i - at].well_formed());
            }
        }
    }
}

/// A pane lets go of its session, which goes on elsewhere.
pub open spec fn disarming(manager: ManagerModel, route_id: usize) -> ManagerModel {
    match tab_with_route(manager.tabs, route_id, 0) {
        None => manager,
        Some(t) => {
            let tab = manager.tabs[t];
            let p = pane_with_route(tab.panes, route_id, 0)->0;
            ManagerModel {
                tabs: manager.tabs.update(
                    t,
                    TabModel { panes: tab.panes.update(p, tab.panes[p].disarmed()), ..tab },
                ),
                retired: match tab.panes[p].terminal@.session {
                    Some(session) => manager.retired.push(session.abandoned()),
                    None => manager.retired,
                },
                ..manager
            }
        },
    }
}

/// The first `n` of some panes let go of their sessions.
pub open spec fn all_disarmed(manager: ManagerModel, routes: Seq<usize>, n: int) -> ManagerModel
    decreases n,
{
    if n <= 0 {
        manager
    } else {
        disarming(all_disarmed(manager, routes, n - 1), routes[n - 1])
    }
}

/// A pane goes, and with its last pane the tab.
pub open spec fn dropping(manager: ManagerModel, route_id: usize) -> ManagerModel {
    match tab_with_route(manager.tabs, route_id, 0) {
        None => manager,
        Some(t) => {
            let tab = manager.tabs[t];
            if tab.panes.len() == 1 {
                manager.without_tab(t).retiring(tab.panes)
            } else {
                let p = pane_with_route(tab.panes, route_id, 0)->0;
                (ManagerModel {
                    tabs: manager.tabs.update(t, tab.without_pane(p)),
                    ..manager
                }).drawing(DrawCommand::RemovePane(route_id)).retiring(seq![tab.panes[p]])
            }
        },
    }
}

/// The first `n` of some panes go.
pub open spec fn all_dropped(manager: ManagerModel, routes: Seq<usize>, n: int) -> ManagerModel
    decreases n,
{
    if n <= 0 {
        manager
    } else {
        dropping(all_dropped(manager, routes, n - 1), routes[n - 1])
    }
}

impl ContextManager {
    fn disarm_route(&mut self, route_id: usize)
        requires
            old(self)@.well_formed(),
        ensures
            final(self)@.well_formed(),
            final(self)@ == disarming(old(self)@, route_id),
    {
        let ghost before = self@;
        proof {
            lemma_tab_with_route(before.tabs, route_id, 0);
        }
        let mut released: Option<SessionHandle> = None;
        if let Some(context) = self.get_by_route_id(route_id) {
            proof {
                let t = tab_with_route(before.tabs, route_id, 0)->0;
                assert(before.tabs[t].well_formed());
            }
            released = context.disarm_for_transfer();
        }
        let ghost disarmed = self@;
        proof {
            assert forall|i: int| 0 <= i < self@.tabs.len() implies (
            #[trigger] self@.tabs[i]).well_formed() by {
                assert(before.tabs[i].well_formed());
            }
        }
        if let Some(session) = released {
            self.retired.push(session);
            proof {
                assert(handle_models(self.retired@) =~= disarmed.retired.push(session@));
                assert forall|i: int| 0 <= i < self@.retired.len() implies (
                #[trigger] self@.retired[i]).well_formed() by {
                    if i < before.retired.len() {
                        assert(before.retired[i].well_formed());
                    }
                }
            }
        }
        proof {
            assert(self@ =~= disarming(before, route_id));
        }
    }

    /// Panes that another window has taken over let go of their sessions.
    pub fn disarm_routes_for_transfer(&mut self, route_ids: &Vec<usize>)
        requires
            old(self)@.well_formed(),
        ensures
            final(self)@.well_formed(),
            final(self)@ == all_disarmed(old(self)@, route_ids@, route_ids@.len() as int),
    {
        let mut i: usize = 0;
        while i < route_ids.len()
            invariant
                i <= route_ids@.len(),
                self@.well_formed(),
                self@ == all_disarmed(old(self)@, route_ids@, i as int),
            decreases route_ids@.len() - i,
        {
            self.disarm_route(route_ids[i]);
            i += 1;
        }
    }

    fn drop_route(&mut self, route_id: usize)
        requires
            old(self)@.well_formed(),
        ensures
            final(self)@.well_formed(),
            final(self)@ == dropping(old(self)@, route_id),
    {
        let ghost before = self@;
        proof {
            lemma_tab_with_route(before.tabs, route_id, 0);
        }
        if let Some(index) = self.grid_index_for_route(route_id) {
            proof {
                assert(before.tabs[index as int].well_formed());
            }
            if row_get(&self.contexts, index).len() == 1 {
                let grid: ContextGrid = self.take_tab(index);
                self.retire(grid.panes);
            } else {
                self.remove_pane_at(index, route_id);
            }
        }
    }

    /// Panes that another window has taken over go; their sessions stay with
    /// it.
    pub fn remove_transferred_routes(&mut self, route_ids: &Vec<usize>)
        requires
            old(self)@.well_formed(),
        ensures
            final(self)@.well_formed(),
            final(self)@ == all_dropped(
                all_disarmed(old(self)@, route_ids@, route_ids@.len() as int),
                route_ids@,
                route_ids@.len() as int,
            ).damaged(),
    {
        self.disarm_routes_for_transfer(route_ids);
        let ghost disarmed = self@;
        let mut i: usize = 0;
        while i < route_ids.len()
            invariant
                i <= route_ids@.len(),
                self@.well_formed(),
                self@ == all_dropped(disarmed, route_ids@, i as int),
            decreases route_ids@.len() - i,
        {
            self.drop_route(route_ids[i]);
            i += 1;
        }
        self.mark_all_full_damage();
    }
}

/// Removing a pane that has let go of its session closes none.
pub proof fn law_taken_over_sessions_are_not_closed(
    manager: ManagerModel,
    route_id: usize,
)
    requires
        match tab_with_route(manager.tabs, route_id, 0) {
            Some(t) => {
                let tab = manager.tabs[t];
                let p = pane_with_route(tab.panes, route_id, 0)->0;
                &&& tab.panes.len() == 1 ==> p == 0
                &&& tab.panes[p].terminal@.session is None
            },
            None => true,
        },
    ensures
        dropping(manager, route_id).retired == manager.retired,
{
    if let Some(t) = tab_with_route(manager.tabs, route_id, 0) {
        let tab = manager.tabs[t];
        let p = pane_with_route(tab.panes, route_id, 0)->0;
        reveal_with_fuel(crate::context::manager::closed_sessions, 2);
        if tab.panes.len() == 1 {
            assert(dropping(manager, route_id).retired =~= manager.retired);
        } else {
            assert(seq![tab.panes[p]][0] == tab.panes[p]);
            assert(dropping(manager, route_id).retired =~= manager.retired);
        }
    }
}

/// The panes among the first `n` of some have no session.
pub open spec fn have_no_session(manager: ManagerModel, routes: Seq<usize>, n: int) -> bool {
    forall|t: int, p: int|
        #![trigger manager.tabs[t].panes[p]]
        0 <= t < manager.tabs.len() && 0 <= p < manager.tabs[t].panes.len() && routes.take(
            n,
        ).contains(manager.tabs[t].panes[p].route_id)
            ==> manager.tabs[t].panes[p].terminal@.session is None
}

/// The session was let go of by a pane of the window, and not closed.
pub open spec fn is_released(manager: ManagerModel, session: HandleModel) -> bool {
    exists|t: int, p: int|
        #![trigger manager.tabs[t].panes[p]]
        0 <= t < manager.tabs.len() && 0 <= p < manager.tabs[t].panes.len()
            && manager.tabs[t].panes[p].terminal@.session is Some && session
            == manager.tabs[t].panes[p].terminal@.session->0.abandoned()
}

/// Two windows with the same panes, of which the second has no sessions that the
/// first has not.
spec fn is_disarmed_from(now: ManagerModel, before: ManagerModel) -> bool {
    &&& now.tabs.len() == before.tabs.len()
    &&& forall|t: int|
        0 <= t < now.tabs.len() ==> (#[trigger] now.tabs[t]).panes.len()
            == before.tabs[t].panes.len()
    &&& forall|t: int, p: int|
        #![trigger now.tabs[t].panes[p]]
        0 <= t < now.tabs.len() && 0 <= p < now.tabs[t].panes.len() ==> {
            &&& now.tabs[t].panes[p].route_id == before.tabs[t].panes[p].route_id
            &&& now.tabs[t].panes[p].terminal@.session is Some
                ==> now.tabs[t].panes[p].terminal@.session
                == before.tabs[t].panes[p].terminal@.session
        }
}

proof fn lemma_disarming_one(manager: ManagerModel, route: usize)
    requires
        routes_differ(manager),
    ensures
        is_let_go_once(disarming(manager, route), manager, route),
{
    let now = disarming(manager, route);
    lemma_tab_with_route(manager.tabs, route, 0);
    match tab_with_route(manager.tabs, route, 0) {
        Some(u) => {
            lemma_pane_with_route(manager.tabs[u].panes, route, 0);
            let q = pane_with_route(manager.tabs[u].panes, route, 0)->0;
            let held = manager.tabs[u].panes[q].terminal@.session;
            assert(now.tabs[u].panes[q] == manager.tabs[u].panes[q].disarmed());
            assert forall|t: int, p: int|
                #![trigger now.tabs[t].panes[p]]
                0 <= t < now.tabs.len() && 0 <= p < now.tabs[t].panes.len() implies {
                &&& now.tabs[t].panes[p].route_id == manager.tabs[t].panes[p].route_id
                &&& now.tabs[t].panes[p].terminal@.session is Some
                    ==> now.tabs[t].panes[p].terminal@.session
                    == manager.tabs[t].panes[p].terminal@.session
                &&& now.tabs[t].panes[p].route_id == route
                    ==> now.tabs[t].panes[p].terminal@.session is None
            } by {
                if !(t == u && p == q) {
                    assert(now.tabs[t].panes[p] == manager.tabs[t].panes[p]);
                    assert(manager.tabs[u].panes[q].route_id == route);
                }
            }
            if held is Some {
                assert(now.retired.drop_last() =~= manager.retired);
                assert(now.retired.last() == held->0.abandoned());
            }
        },
        None => {
            assert forall|t: int, p: int|
                #![trigger now.tabs[t].panes[p]]
                0 <= t < now.tabs.len() && 0 <= p < now.tabs[t].panes.len()
                    && now.tabs[t].panes[p].route_id
                    == route implies now.tabs[t].panes[p].terminal@.session is None by {
                assert(!manager.tabs[t].has_route(route));
                lemma_pane_with_route(manager.tabs[t].panes, route, 0);
            }
        },
    }
}

proof fn lemma_still_differ(now: ManagerModel, before: ManagerModel)
    requires
        is_disarmed_from(now, before),
        routes_differ(before),
    ensures
        routes_differ(now),
{
    assert forall|t: int, p: int, u: int, q: int|
        #![trigger now.tabs[t].panes[p], now.tabs[u].panes[q]]
        0 <= t < now.tabs.len() && 0 <= p < now.tabs[t].panes.len() && 0 <= u < now.tabs.len()
            && 0 <= q < now.tabs[u].panes.len() && now.tabs[t].panes[p].route_id
            == now.tabs[u].panes[q].route_id implies t == u && p == q by {
        assert(now.tabs[t].panes.len() == before.tabs[t].panes.len());
        assert(now.tabs[u].panes.len() == before.tabs[u].panes.len());
        assert(now.tabs[t].panes[p].route_id == before.tabs[t].panes[p].route_id);
        assert(now.tabs[u].panes[q].route_id == before.tabs[u].panes[q].route_id);
    }
}

/// What lets go of sessions in two steps lets go of them in one.
proof fn lemma_disarmed_twice(now: ManagerModel, then: ManagerModel, before: ManagerModel)
    requires
        is_disarmed_from(now, then),
        is_disarmed_from(then, before),
    ensures
        is_disarmed_from(now, before),
        forall|session: HandleModel| #[trigger]
            is_released(then, session) ==> is_released(before, session),
{
    assert forall|t: int| 0 <= t < now.tabs.len() implies (#[trigger] now.tabs[t]).panes.len()
        == before.tabs[t].panes.len() by {
        assert(then.tabs[t].panes.len() == before.tabs[t].panes.len());
    }
    assert forall|t: int, p: int|
        #![trigger now.tabs[t].panes[p]]
        0 <= t < now.tabs.len() && 0 <= p < now.tabs[t].panes.len() implies {
        &&& now.tabs[t].panes[p].route_id == before.tabs[t].panes[p].route_id
        &&& now.tabs[t].panes[p].terminal@.session is Some
            ==> now.tabs[t].panes[p].terminal@.session
            == before.tabs[t].panes[p].terminal@.session
    } by {
        assert(then.tabs[t].panes.len() == now.tabs[t].panes.len());
        assert(then.tabs[t].panes[p].route_id == before.tabs[t].panes[p].route_id);
    }
    assert forall|session: HandleModel| #[trigger] is_released(then, session) implies is_released(
        before,
        session,
    ) by {
        let (t, p) = choose|t: int, p: int|
            #![trigger then.tabs[t].panes[p]]
            0 <= t < then.tabs.len() && 0 <= p < then.tabs[t].panes.len()
                && then.tabs[t].panes[p].terminal@.session is Some && session
                == then.tabs[t].panes[p].terminal@.session->0.abandoned();
        assert(then.tabs[t].panes.len() == before.tabs[t].panes.len());
        assert(before.tabs[t].panes[p].terminal@.session
            == then.tabs[t].panes[p].terminal@.session);
    }
}

/// The sessions of some panes were let go of.
spec fn is_let_go(
    now: ManagerModel,
    before: ManagerModel,
    routes: Seq<usize>,
    n: int,
) -> bool {
    &&& is_disarmed_from(now, before)
    &&& have_no_session(now, routes, n)
    &&& now.retired.len() >= before.retired.len()
    &&& forall|i: int|
        0 <= i < before.retired.len() ==> #[trigger] now.retired[i] == before.retired[i]
    &&& forall|i: int|
        before.retired.len() <= i < now.retired.len() ==> is_released(
            before,
            #[trigger] now.retired[i],
        )
}

/// One more session let go of.
spec fn is_let_go_once(now: ManagerModel, then: ManagerModel, route: usize) -> bool {
    &&& is_disarmed_from(now, then)
    &&& forall|t: int, p: int|
        #![trigger now.tabs[t].panes[p]]
        0 <= t < now.tabs.len() && 0 <= p < now.tabs[t].panes.len()
            && now.tabs[t].panes[p].route_id == route
            ==> now.tabs[t].panes[p].terminal@.session is None
    &&& now.retired == then.retired || (now.retired.len() == then.retired.len() + 1
        && now.retired.drop_last() == then.retired && is_released(then, now.retired.last()))
}

proof fn lemma_fewer_sessions(
    then: ManagerModel,
    now: ManagerModel,
    routes: Seq<usize>,
    n: int,
)
    requires
        0 < n <= routes.len(),
        have_no_session(then, routes, n - 1),
        is_let_go_once(now, then, routes[n - 1]),
    ensures
        have_no_session(now, routes, n),
{
    assert forall|t: int, p: int|
        #![trigger now.tabs[t].panes[p]]
        0 <= t < now.tabs.len() && 0 <= p < now.tabs[t].panes.len() && routes.take(n).contains(
            now.tabs[t].panes[p].route_id,
        ) implies now.tabs[t].panes[p].terminal@.session is None by {
        lemma_contains_step(routes, n, now.tabs[t].panes[p].route_id);
        assert(now.tabs[t].panes.len() == then.tabs[t].panes.len());
        assert(then.tabs[t].panes[p].route_id == now.tabs[t].panes[p].route_id);
    }
}

#[verifier::rlimit(30)]
proof fn lemma_disarming_step(
    manager: ManagerModel,
    then: ManagerModel,
    now: ManagerModel,
    routes: Seq<usize>,
    n: int,
)
    requires
        0 < n <= routes.len(),
        is_let_go(then, manager, routes, n - 1),
        is_let_go_once(now, then, routes[n - 1]),
    ensures
        is_let_go(now, manager, routes, n),
{
    lemma_fewer_sessions(then, now, routes, n);
    lemma_disarmed_twice(now, then, manager);
    let kept = then.retired.len() as int;
    assert(now.retired.len() >= kept && now.retired.take(kept) =~= then.retired) by {
        if now.retired != then.retired {
            assert(now.retired.take(kept) =~= now.retired.drop_last());
        }
    }
    assert forall|i: int| 0 <= i < kept implies #[trigger] now.retired[i] == then.retired[i] by {
        assert(now.retired.take(kept)[i] == now.retired[i]);
    }
    assert forall|i: int| manager.retired.len() <= i < now.retired.len() implies is_released(
        manager,
        #[trigger] now.retired[i],
    ) by {
        if i < kept {
            assert(is_released(manager, then.retired[i]));
        } else {
            assert(is_released(then, now.retired.last()));
        }
    }
}

proof fn lemma_disarming(manager: ManagerModel, routes: Seq<usize>, n: int)
    requires
        0 <= n <= routes.len(),
        routes_differ(manager),
    ensures
        is_let_go(all_disarmed(manager, routes, n), manager, routes, n),
    decreases n,
{
    if n > 0 {
        lemma_disarming(manager, routes, n - 1);
        let then = all_disarmed(manager, routes, n - 1);
        lemma_still_differ(then, manager);
        lemma_disarming_one(then, routes[n - 1]);
        lemma_disarming_step(manager, then, disarming(then, routes[n - 1]), routes, n);
    } else {
        assert(routes.take(0) =~= Seq::<usize>::empty());
    }
}

proof fn lemma_contains_step(routes: Seq<usize>, n: int, route: usize)
    requires
        0 < n <= routes.len(),
    ensures
        routes.take(n).contains(route) ==> routes.take(n - 1).contains(route) || route == routes[n
            - 1],
{
    let longer = routes.take(n);
    if longer.contains(route) {
        let i = choose|i: int| 0 <= i < longer.len() && longer[i] == route;
        if i < n - 1 {
            assert(routes.take(n - 1)[i] == route);
        }
    }
}

proof fn lemma_dropping(manager: ManagerModel, routes: Seq<usize>, n: int)
    requires
        0 <= n <= routes.len(),
        have_no_session(manager, routes, routes.len() as int),
    ensures
        all_dropped(manager, routes, n).retired == manager.retired,
        have_no_session(all_dropped(manager, routes, n), routes, routes.len() as int),
    decreases n,
{
    if n > 0 {
        lemma_dropping(manager, routes, n - 1);
        let then = all_dropped(manager, routes, n - 1);
        let now = all_dropped(manager, routes, n);
        let route = routes[n - 1];
        let all = routes.take(routes.len() as int);
        lemma_tab_with_route(then.tabs, route, 0);
        if let Some(u) = tab_with_route(then.tabs, route, 0) {
            let tab = then.tabs[u];
            lemma_pane_with_route(tab.panes, route, 0);
            let q = pane_with_route(tab.panes, route, 0)->0;
            assert(all[n - 1] == route);
            assert(all.contains(then.tabs[u].panes[q].route_id));
            law_taken_over_sessions_are_not_closed(then, route);
            assert forall|t: int, p: int|
                #![trigger now.tabs[t].panes[p]]
                0 <= t < now.tabs.len() && 0 <= p < now.tabs[t].panes.len() && all.contains(
                    now.tabs[t].panes[p].route_id,
                ) implies now.tabs[t].panes[p].terminal@.session is None by {
                if tab.panes.len() == 1 {
                    let s: int = if t < u {
                        t
                    } else {
                        t + 1
                    };
                    assert(now.tabs[t] == then.tabs[s]);
                    assert(now.tabs[t].panes[p] == then.tabs[s].panes[p]);
                } else if t == u {
                    let s: int = if p < q {
                        p
                    } else {
                        p + 1
                    };
                    assert(now.tabs[t].panes[p] == then.tabs[u].panes[s]);
                } else {
                    assert(now.tabs[t].panes[p] == then.tabs[t].panes[p]);
                }
            }
        }
    }
}

/// Taking panes out of a window once another one has taken them over closes no
/// session: each is let go of and goes on there.
pub proof fn law_transferred_panes_close_no_session(manager: ManagerModel, routes: Seq<usize>)
    requires
        routes_differ(manager),
    ensures
        ({
            let n = routes.len() as int;
            let now = all_dropped(all_disarmed(manager, routes, n), routes, n).damaged();
            &&& now.retired.len() >= manager.retired.len()
            &&& forall|i: int|
                0 <= i < manager.retired.len() ==> #[trigger] now.retired[i] == manager.retired[i]
            &&& forall|i: int|
                manager.retired.len() <= i < now.retired.len() ==> is_released(
                    manager,
                    #[trigger] now.retired[i],
                )
        }),
{
    let n = routes.len() as int;
    lemma_disarming(manager, routes, n);
    lemma_dropping(all_disarmed(manager, routes, n), routes, n);
}

/// The numbers of all panes of a window, in their order.
pub open spec fn numbers_of(manager: ManagerModel) -> Seq<usize> {
    all_routes(manager.tabs, manager.tabs.len() as int)
}

/// The numbers without the first `n` of some others.
pub open spec fn without_first(numbers: Seq<usize>, gone: Seq<usize>, n: int) -> Seq<usize> {
    numbers.filter(|r: usize| !gone.take(n).contains(r))
}

proof fn lemma_same_numbers(a: Seq<TabModel>, b: Seq<TabModel>, n: int)
    requires
        0 <= n <= a.len(),
        n <= b.len(),
        forall|t: int| 0 <= t < n ==> routes_of((#[trigger] a[t]).panes) == routes_of(b[t].panes),
    ensures
        all_routes(a, n) == all_routes(b, n),
    decreases n,
{
    if n > 0 {
        lemma_same_numbers(a, b, n - 1);
        assert(routes_of(a[n - 1].panes) == routes_of(b[n - 1].panes));
    }
}

proof fn lemma_filter_all(list: Seq<usize>, keep: spec_fn(usize) -> bool)
    requires
        forall|i: int| 0 <= i < list.len() ==> keep(#[trigger] list[i]),
    ensures
        list.filter(keep) == list,
    decreases list.len(),
{
    reveal(Seq::filter);
    if list.len() > 0 {
        let rest = list.drop_last();
        assert forall|i: int| 0 <= i < rest.len() implies keep(#[trigger] rest[i]) by {
            assert(rest[i] == list[i]);
        }
        lemma_filter_all(rest, keep);
        assert(keep(list[list.len() - 1]));
        assert(rest.push(list.last()) =~= list);
    }
}

/// Two filters one behind the other are one.
proof fn lemma_filter_twice(
    list: Seq<usize>,
    first: spec_fn(usize) -> bool,
    second: spec_fn(usize) -> bool,
    both: spec_fn(usize) -> bool,
)
    requires
        forall|r: usize| #[trigger] both(r) <==> first(r) && second(r),
    ensures
        list.filter(first).filter(second) == list.filter(both),
    decreases list.len(),
{
    reveal(Seq::filter);
    if list.len() > 0 {
        let rest = list.drop_last();
        lemma_filter_twice(rest, first, second, both);
        let last = list.last();
        assert(both(last) <==> first(last) && second(last));
        if first(last) {
            let kept = rest.filter(first);
            assert(kept.push(last).drop_last() =~= kept);
            assert(kept.push(last).last() == last);
        }
    }
}

/// A list in which a number stands at one place, without that number.
proof fn lemma_filter_one(list: Seq<usize>, q: int, route: usize)
    requires
        0 <= q < list.len(),
        list[q] == route,
        forall|i: int| 0 <= i < list.len() && i != q ==> #[trigger] list[i] != route,
    ensures
        list.filter(|r: usize| r != route) == list.remove(q),
{
    let keep = |r: usize| r != route;
    let before = list.take(q);
    let after = list.skip(q + 1);
    let one = seq![list[q]];
    assert(list =~= before + one + after);
    Seq::filter_distributes_over_add(before + one, after, keep);
    Seq::filter_distributes_over_add(before, one, keep);
    assert forall|i: int| 0 <= i < before.len() implies keep(#[trigger] before[i]) by {
        assert(before[i] == list[i]);
    }
    assert forall|i: int| 0 <= i < after.len() implies keep(#[trigger] after[i]) by {
        assert(after[i] == list[q + 1 + i]);
    }
    lemma_filter_all(before, keep);
    lemma_filter_all(after, keep);
    assert(one.filter(keep) =~= Seq::<usize>::empty()) by {
        reveal(Seq::filter);
        assert(one.drop_last() =~= Seq::<usize>::empty());
        assert(one.drop_last().filter(keep) =~= Seq::<usize>::empty());
    }
    assert(list.remove(q) =~= before + after);
    assert(before + Seq::<usize>::empty() + after =~= before + after);
}

/// The numbers of the first `n` tabs once the pane at `q` of the tab at `u` is
/// gone, and with its last pane the tab.
proof fn lemma_numbers_without(
    then: Seq<TabModel>,
    now: Seq<TabModel>,
    u: int,
    q: int,
    route: usize,
    n: int,
)
    requires
        0 <= u < then.len(),
        0 <= q < then[u].panes.len(),
        then[u].panes[q].route_id == route,
        0 <= n <= then.len(),
        forall|t: int, p: int|
            #![trigger then[t].panes[p]]
            0 <= t < then.len() && 0 <= p < then[t].panes.len() && then[t].panes[p].route_id
                == route ==> t == u && p == q,
        then[u].panes.len() == 1 ==> now == then.remove(u),
        then[u].panes.len() > 1 ==> now == then.update(u, then[u].without_pane(q)),
    ensures
        all_routes(
            now,
            if then[u].panes.len() == 1 && n > u {
                n - 1
            } else {
                n
            },
        ) == all_routes(then, n).filter(|r: usize| r != route),
    decreases n,
{
    let keep = |r: usize| r != route;
    if n == 0 {
        reveal(Seq::filter);
    } else {
        lemma_numbers_without(then, now, u, q, route, n - 1);
        let list = routes_of(then[n - 1].panes);
        Seq::filter_distributes_over_add(all_routes(then, n - 1), list, keep);
        if n - 1 == u {
            assert forall|i: int| 0 <= i < list.len() && i != q implies #[trigger] list[i]
                != route by {
                assert(then[u].panes[i].route_id == list[i]);
            }
            assert(list[q] == route);
            lemma_filter_one(list, q, route);
            if list.len() == 1 {
                assert(list.remove(q) =~= Seq::<usize>::empty());
                assert(all_routes(now, n - 1) + Seq::<usize>::empty() =~= all_routes(now, n - 1));
            } else {
                assert(now[u].panes == then[u].panes.remove(q));
                assert(routes_of(now[u].panes) =~= list.remove(q));
            }
        } else {
            assert forall|i: int| 0 <= i < list.len() implies keep(#[trigger] list[i]) by {
                assert(then[n - 1].panes[i].route_id == list[i]);
            }
            lemma_filter_all(list, keep);
            if then[u].panes.len() == 1 && n - 1 > u {
                assert(now[n - 2] == then[n - 1]);
            } else {
                assert(now[n - 1] == then[n - 1]);
            }
        }
    }
}

/// A pane that goes leaves the numbers of the others, which still differ.
proof fn lemma_dropped_number(manager: ManagerModel, route: usize)
    requires
        routes_differ(manager),
    ensures
        routes_differ(dropping(manager, route)),
        numbers_of(dropping(manager, route)) == numbers_of(manager).filter(
            |r: usize| r != route,
        ),
{
    let now = dropping(manager, route);
    let n = manager.tabs.len() as int;
    lemma_tab_with_route(manager.tabs, route, 0);
    match tab_with_route(manager.tabs, route, 0) {
        Some(u) => {
            let tab = manager.tabs[u];
            lemma_pane_with_route(tab.panes, route, 0);
            let q = pane_with_route(tab.panes, route, 0)->0;
            assert(manager.tabs[u].panes[q].route_id == route);
            lemma_numbers_without(manager.tabs, now.tabs, u, q, route, n);
            assert forall|t: int, p: int, v: int, w: int|
                #![trigger now.tabs[t].panes[p], now.tabs[v].panes[w]]
                0 <= t < now.tabs.len() && 0 <= p < now.tabs[t].panes.len() && 0 <= v
                    < now.tabs.len() && 0 <= w < now.tabs[v].panes.len()
                    && now.tabs[t].panes[p].route_id
                    == now.tabs[v].panes[w].route_id implies t == v && p == w by {
                let (a, b) = source_place(tab.panes.len() as int, u, q, t, p);
                let (c, d) = source_place(tab.panes.len() as int, u, q, v, w);
                assert(now.tabs[t].panes[p] == manager.tabs[a].panes[b]);
                assert(now.tabs[v].panes[w] == manager.tabs[c].panes[d]);
            }
        },
        None => {
            let list = numbers_of(manager);
            let keep = |r: usize| r != route;
            lemma_numbers_are_of_panes(manager.tabs, n);
            assert forall|i: int| 0 <= i < list.len() implies keep(#[trigger] list[i]) by {
                assert(is_numbered(manager.tabs, list[i]));
                let (t, p) = choose|t: int, p: int|
                    #![trigger manager.tabs[t].panes[p]]
                    0 <= t < n && 0 <= p < manager.tabs[t].panes.len()
                        && manager.tabs[t].panes[p].route_id == list[i];
                assert(!manager.tabs[t].has_route(route));
                lemma_pane_with_route(manager.tabs[t].panes, route, 0);
            }
            lemma_filter_all(list, keep);
        },
    }
}

/// Where a pane was before another one went.
spec fn source_place(count: int, u: int, q: int, t: int, p: int) -> (int, int) {
    if count == 1 {
        (
            if t < u {
                t
            } else {
                t + 1
            },
            p,
        )
    } else if t == u && p >= q {
        (t, p + 1)
    } else {
        (t, p)
    }
}

/// Some pane of the tabs has the number.
spec fn is_numbered(tabs: Seq<TabModel>, route: usize) -> bool {
    exists|t: int, p: int|
        #![trigger tabs[t].panes[p]]
        0 <= t < tabs.len() && 0 <= p < tabs[t].panes.len() && tabs[t].panes[p].route_id == route
}

proof fn lemma_numbers_are_of_panes(tabs: Seq<TabModel>, n: int)
    requires
        0 <= n <= tabs.len(),
    ensures
        forall|i: int|
            0 <= i < all_routes(tabs, n).len() ==> is_numbered(
                tabs,
                #[trigger] all_routes(tabs, n)[i],
            ),
    decreases n,
{
    if n > 0 {
        lemma_numbers_are_of_panes(tabs, n - 1);
        let rest = all_routes(tabs, n - 1);
        let list = all_routes(tabs, n);
        assert forall|i: int| 0 <= i < list.len() implies is_numbered(
            tabs,
            #[trigger] list[i],
        ) by {
            if i < rest.len() {
                assert(list[i] == rest[i]);
            } else {
                assert(tabs[n - 1].panes[i - rest.len()].route_id == list[i]);
            }
        }
    }
}

proof fn lemma_dropped_numbers(manager: ManagerModel, routes: Seq<usize>, n: int)
    requires
        0 <= n <= routes.len(),
        routes_differ(manager),
    ensures
        routes_differ(all_dropped(manager, routes, n)),
        numbers_of(all_dropped(manager, routes, n)) == without_first(
            numbers_of(manager),
            routes,
            n,
        ),
    decreases n,
{
    let all = numbers_of(manager);
    let both = |r: usize| !routes.take(n).contains(r);
    if n == 0 {
        lemma_filter_all(all, both);
    } else {
        lemma_dropped_numbers(manager, routes, n - 1);
        let then = all_dropped(manager, routes, n - 1);
        let route = routes[n - 1];
        lemma_dropped_number(then, route);
        let first = |r: usize| !routes.take(n - 1).contains(r);
        let second = |r: usize| r != route;
        assert forall|r: usize| #[trigger] both(r) <==> first(r) && second(r) by {
            lemma_contains_step(routes, n, r);
            assert(routes.take(n)[n - 1] == route);
            let shorter = routes.take(n - 1);
            if shorter.contains(r) {
                let i = choose|i: int| 0 <= i < shorter.len() && shorter[i] == r;
                assert(routes.take(n)[i] == r);
            }
        }
        lemma_filter_twice(all, first, second, both);
    }
}

/// Taking panes out of a window leaves all the others, in their order.
pub proof fn law_transferred_panes_leave_the_others(manager: ManagerModel, routes: Seq<usize>)
    requires
        routes_differ(manager),
    ensures
        ({
            let n = routes.len() as int;
            let now = all_dropped(all_disarmed(manager, routes, n), routes, n).damaged();
            numbers_of(now) == numbers_of(manager).filter(|r: usize| !routes.contains(r))
        }),
{
    let n = routes.len() as int;
    let disarmed = all_disarmed(manager, routes, n);
    let dropped = all_dropped(disarmed, routes, n);
    let now = dropped.damaged();
    lemma_disarming(manager, routes, n);
    lemma_still_differ(disarmed, manager);
    assert forall|t: int| 0 <= t < manager.tabs.len() implies routes_of(
        (#[trigger] disarmed.tabs[t]).panes,
    ) == routes_of(manager.tabs[t].panes) by {
        assert forall|p: int| 0 <= p < disarmed.tabs[t].panes.len() implies (
        #[trigger] disarmed.tabs[t].panes[p]).route_id == manager.tabs[t].panes[p].route_id by {}
        assert(routes_of(disarmed.tabs[t].panes) =~= routes_of(manager.tabs[t].panes));
    }
    lemma_same_numbers(disarmed.tabs, manager.tabs, manager.tabs.len() as int);
    lemma_dropped_numbers(disarmed, routes, n);
    assert forall|t: int| 0 <= t < dropped.tabs.len() implies routes_of(
        (#[trigger] now.tabs[t]).panes,
    ) == routes_of(dropped.tabs[t].panes) by {
        assert(routes_of(now.tabs[t].panes) =~= routes_of(dropped.tabs[t].panes));
    }
    lemma_same_numbers(now.tabs, dropped.tabs, dropped.tabs.len() as int);
    assert(routes.take(n) =~= routes);
}

} // verus!
