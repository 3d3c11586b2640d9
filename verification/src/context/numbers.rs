//! The numbers of panes: no two panes of a window have the same one.

use crate::context::adopt::{flattened, is_taken_in, lemma_flattened, lemma_flattened_at, order_of};
use crate::context::handover::{lemma_nth_id, nth_id, PreparedPane};
use crate::context::manager::ManagerModel;
use crate::context::pane::{Context, ContextDimension, IdSource};
use crate::context::tab::{TabModel, TabOffer};
use vstd::prelude::*;

verus! {

/// No two panes of the window have the same number.
pub open spec fn routes_differ(manager: ManagerModel) -> bool {
    forall|t: int, p: int, u: int, q: int|
        #![trigger manager.tabs[t].panes[p], manager.tabs[u].panes[q]]
        0 <= t < manager.tabs.len() && 0 <= p < manager.tabs[t].panes.len() && 0 <= u
            < manager.tabs.len() && 0 <= q < manager.tabs[u].panes.len()
            && manager.tabs[t].panes[p].route_id == manager.tabs[u].panes[q].route_id ==> t == u
            && p == q
}

/// Every pane of the window has a number below another one.
pub open spec fn routes_below(manager: ManagerModel, next: usize) -> bool {
    forall|t: int, p: int|
        #![trigger manager.tabs[t].panes[p]]
        0 <= t < manager.tabs.len() && 0 <= p < manager.tabs[t].panes.len()
            ==> manager.tabs[t].panes[p].route_id < next
}

/// The panes of the window were numbered in turn, and `next` is the next number:
/// as long as the numbers do not start over, no pane has that of another one.
pub open spec fn is_numbered(manager: ManagerModel, next: usize) -> bool {
    routes_differ(manager) && routes_below(manager, next)
}

/// No two panes of the tab have the same number.
pub open spec fn panes_differ(tab: TabModel) -> bool {
    forall|p: int, q: int|
        #![trigger tab.panes[p], tab.panes[q]]
        0 <= p < tab.panes.len() && 0 <= q < tab.panes.len() && tab.panes[p].route_id
            == tab.panes[q].route_id ==> p == q
}

/// Every pane of the tab has a number below another one.
pub open spec fn panes_below(tab: TabModel, next: usize) -> bool {
    forall|p: int| 0 <= p < tab.panes.len() ==> (#[trigger] tab.panes[p]).route_id < next
}

/// No pane of the tab has the number of a pane of the window.
pub open spec fn shares_no_route(manager: ManagerModel, tab: TabModel) -> bool {
    forall|t: int, p: int, q: int|
        #![trigger manager.tabs[t].panes[p], tab.panes[q]]
        0 <= t < manager.tabs.len() && 0 <= p < manager.tabs[t].panes.len() && 0 <= q
            < tab.panes.len() ==> manager.tabs[t].panes[p].route_id != tab.panes[q].route_id
}

/// No pane of one window has the number of a pane of the other.
pub open spec fn windows_apart(a: ManagerModel, b: ManagerModel) -> bool {
    forall|t: int, p: int, u: int, q: int|
        #![trigger a.tabs[t].panes[p], b.tabs[u].panes[q]]
        0 <= t < a.tabs.len() && 0 <= p < a.tabs[t].panes.len() && 0 <= u < b.tabs.len() && 0 <= q
            < b.tabs[u].panes.len() ==> a.tabs[t].panes[p].route_id != b.tabs[u].panes[q].route_id
}

/// The panes of two tabs have the same numbers.
pub open spec fn same_routes(a: TabModel, b: TabModel) -> bool {
    &&& a.panes.len() == b.panes.len()
    &&& forall|p: int|
        0 <= p < a.panes.len() ==> (#[trigger] a.panes[p]).route_id == b.panes[p].route_id
}

/// One tab more, with numbers of its own.
pub(crate) proof fn lemma_with_tab(
    before: ManagerModel,
    now: ManagerModel,
    at: int,
    tab: TabModel,
    next: usize,
)
    requires
        0 <= at <= before.tabs.len(),
        now.tabs.len() == before.tabs.len() + 1,
        forall|i: int|
            0 <= i < now.tabs.len() ==> same_routes(
                #[trigger] now.tabs[i],
                before.tabs.insert(at, tab)[i],
            ),
    ensures
        routes_differ(before) && panes_differ(tab) && shares_no_route(before, tab)
            ==> routes_differ(now),
        routes_below(before, next) && panes_below(tab, next) ==> routes_below(now, next),
{
    let all = before.tabs.insert(at, tab);
    assert forall|i: int| 0 <= i < all.len() implies #[trigger] all[i] == if i < at {
        before.tabs[i]
    } else if i == at {
        tab
    } else {
        before.tabs[i - 1]
    } by {}
    if routes_differ(before) && panes_differ(tab) && shares_no_route(before, tab) {
        assert forall|t: int, p: int, u: int, q: int|
            #![trigger now.tabs[t].panes[p], now.tabs[u].panes[q]]
            0 <= t < now.tabs.len() && 0 <= p < now.tabs[t].panes.len() && 0 <= u < now.tabs.len()
                && 0 <= q < now.tabs[u].panes.len() && now.tabs[t].panes[p].route_id
                == now.tabs[u].panes[q].route_id implies t == u && p == q by {
            assert(same_routes(now.tabs[t], all[t]));
            assert(same_routes(now.tabs[u], all[u]));
            assert(all[t].panes[p].route_id == all[u].panes[q].route_id);
        }
    }
    if routes_below(before, next) && panes_below(tab, next) {
        assert forall|t: int, p: int|
            #![trigger now.tabs[t].panes[p]]
            0 <= t < now.tabs.len() && 0 <= p < now.tabs[t].panes.len() implies now.tabs[t].panes[p].route_id
            < next by {
            assert(same_routes(now.tabs[t], all[t]));
            assert(all[t].panes[p].route_id < next);
        }
    }
}

/// One tab more at the end, with one pane that has the next number.
pub(crate) proof fn lemma_with_new_tab(before: ManagerModel, now: ManagerModel, next: usize)
    requires
        now.tabs.len() == before.tabs.len() + 1,
        now.tabs == before.tabs.push(now.tabs.last()),
        now.tabs.last().panes.len() == 1,
        now.tabs.last().panes[0].route_id == next,
        is_numbered(before, next),
        next < usize::MAX,
    ensures
        is_numbered(now, (next + 1) as usize),
{
    let tab = now.tabs.last();
    let above: usize = (next + 1) as usize;
    assert(before.tabs.insert(before.tabs.len() as int, tab) =~= now.tabs);
    assert(routes_below(before, above)) by {
        assert forall|t: int, p: int|
            #![trigger before.tabs[t].panes[p]]
            0 <= t < before.tabs.len() && 0 <= p < before.tabs[t].panes.len() implies before.tabs[t].panes[p].route_id
            < above by {
            assert(before.tabs[t].panes[p].route_id < next);
        }
    }
    assert(shares_no_route(before, tab)) by {
        assert forall|t: int, p: int, q: int|
            #![trigger before.tabs[t].panes[p], tab.panes[q]]
            0 <= t < before.tabs.len() && 0 <= p < before.tabs[t].panes.len() && 0 <= q
                < tab.panes.len() implies before.tabs[t].panes[p].route_id
            != tab.panes[q].route_id by {
            assert(before.tabs[t].panes[p].route_id < next);
        }
    }
    lemma_with_tab(before, now, before.tabs.len() as int, tab, above);
}

/// One pane more in a tab, with the next number.
pub(crate) proof fn lemma_with_new_pane(
    before: ManagerModel,
    now: ManagerModel,
    at: int,
    pane: Context,
    next: usize,
)
    requires
        0 <= at < before.tabs.len(),
        before.tabs[at].well_formed(),
        now.tabs == before.tabs.update(at, before.tabs[at].with_split(pane)),
        pane.route_id == next,
        is_numbered(before, next),
        next < usize::MAX,
    ensures
        is_numbered(now, (next + 1) as usize),
{
    let tab = before.tabs[at];
    let split = tab.with_split(pane);
    let mid = tab.current + 1;
    assert forall|p: int| 0 <= p < split.panes.len() implies #[trigger] split.panes[p] == if p
        < mid {
        tab.panes[p]
    } else if p == mid {
        pane
    } else {
        tab.panes[p - 1]
    } by {}
    assert forall|t: int, p: int|
        #![trigger now.tabs[t].panes[p]]
        0 <= t < now.tabs.len() && 0 <= p < now.tabs[t].panes.len() implies {
        if t == at && p == mid {
            now.tabs[t].panes[p].route_id == next
        } else {
            now.tabs[t].panes[p].route_id < next
        }
    } by {
        if t == at {
            if p < mid {
                assert(before.tabs[at].panes[p].route_id < next);
            } else if p > mid {
                assert(before.tabs[at].panes[p - 1].route_id < next);
            }
        } else {
            assert(before.tabs[t].panes[p].route_id < next);
        }
    }
    assert forall|t: int, p: int, u: int, q: int|
        #![trigger now.tabs[t].panes[p], now.tabs[u].panes[q]]
        0 <= t < now.tabs.len() && 0 <= p < now.tabs[t].panes.len() && 0 <= u < now.tabs.len()
            && 0 <= q < now.tabs[u].panes.len() && now.tabs[t].panes[p].route_id
            == now.tabs[u].panes[q].route_id implies t == u && p == q by {
        let was_p = if t == at && p > mid {
            p - 1
        } else {
            p
        };
        let was_q = if u == at && q > mid {
            q - 1
        } else {
            q
        };
        if !(t == at && p == mid) && !(u == at && q == mid) {
            assert(now.tabs[t].panes[p] == before.tabs[t].panes[was_p]);
            assert(now.tabs[u].panes[q] == before.tabs[u].panes[was_q]);
        }
    }
}

/// A number that no pane has yet stays above them all.
pub(crate) proof fn lemma_still_numbered(manager: ManagerModel, next: usize, later: usize)
    requires
        is_numbered(manager, next),
        next <= later,
    ensures
        is_numbered(manager, later),
{
    assert forall|t: int, p: int|
        #![trigger manager.tabs[t].panes[p]]
        0 <= t < manager.tabs.len() && 0 <= p < manager.tabs[t].panes.len() implies manager.tabs[t].panes[p].route_id
        < later by {
        assert(manager.tabs[t].panes[p].route_id < next);
    }
}

/// A tab that leaves a window takes its numbers along: neither it nor what stays
/// has a number twice, and they share none.
pub proof fn law_taken_tab_shares_no_number(manager: ManagerModel, index: int)
    requires
        0 <= index < manager.tabs.len(),
        routes_differ(manager),
    ensures
        routes_differ(manager.without_tab(index).damaged()),
        panes_differ(manager.tabs[index]),
        shares_no_route(manager.without_tab(index).damaged(), manager.tabs[index]),
        forall|next: usize| #[trigger]
            routes_below(manager, next) ==> panes_below(manager.tabs[index], next) && routes_below(
                manager.without_tab(index).damaged(),
                next,
            ),
{
    let now = manager.without_tab(index).damaged();
    let tab = manager.tabs[index];
    assert forall|t: int, p: int|
        #![trigger now.tabs[t].panes[p]]
        0 <= t < now.tabs.len() && 0 <= p < now.tabs[t].panes.len() implies {
        let was = if t < index {
            t
        } else {
            t + 1
        };
        &&& p < manager.tabs[was].panes.len()
        &&& now.tabs[t].panes[p].route_id == manager.tabs[was].panes[p].route_id
    } by {}
    assert forall|t: int, p: int, u: int, q: int|
        #![trigger now.tabs[t].panes[p], now.tabs[u].panes[q]]
        0 <= t < now.tabs.len() && 0 <= p < now.tabs[t].panes.len() && 0 <= u < now.tabs.len()
            && 0 <= q < now.tabs[u].panes.len() && now.tabs[t].panes[p].route_id
            == now.tabs[u].panes[q].route_id implies t == u && p == q by {
        let was_t = if t < index {
            t
        } else {
            t + 1
        };
        let was_u = if u < index {
            u
        } else {
            u + 1
        };
        assert(manager.tabs[was_t].panes[p].route_id == manager.tabs[was_u].panes[q].route_id);
    }
    assert forall|t: int, p: int, q: int|
        #![trigger now.tabs[t].panes[p], tab.panes[q]]
        0 <= t < now.tabs.len() && 0 <= p < now.tabs[t].panes.len() && 0 <= q
            < tab.panes.len() implies now.tabs[t].panes[p].route_id != tab.panes[q].route_id by {
        let was = if t < index {
            t
        } else {
            t + 1
        };
        assert(now.tabs[t].panes[p].route_id == manager.tabs[was].panes[p].route_id);
        assert(manager.tabs[index].panes[q] == tab.panes[q]);
    }
    assert forall|p: int, q: int|
        #![trigger tab.panes[p], tab.panes[q]]
        0 <= p < tab.panes.len() && 0 <= q < tab.panes.len() && tab.panes[p].route_id
            == tab.panes[q].route_id implies p == q by {
        assert(manager.tabs[index].panes[p].route_id == manager.tabs[index].panes[q].route_id);
    }
    assert forall|next: usize| #[trigger] routes_below(manager, next) implies panes_below(
        tab,
        next,
    ) && routes_below(now, next) by {
        assert forall|p: int| 0 <= p < tab.panes.len() implies (#[trigger] tab.panes[p]).route_id
            < next by {
            assert(manager.tabs[index].panes[p].route_id < next);
        }
        assert forall|t: int, p: int|
            #![trigger now.tabs[t].panes[p]]
            0 <= t < now.tabs.len() && 0 <= p < now.tabs[t].panes.len() implies now.tabs[t].panes[p].route_id
            < next by {
            let was = if t < index {
                t
            } else {
                t + 1
            };
            assert(manager.tabs[was].panes[p].route_id < next);
        }
    }
}

/// Tabs of another program that were taken in get numbers of their own, as long
/// as the numbers do not start over.
pub proof fn law_tabs_taken_in_get_new_numbers(
    before: ManagerModel,
    now: ManagerModel,
    prepared: Seq<PreparedPane>,
    tabs: Seq<TabOffer>,
    active_pane: int,
    insertion_index: Option<usize>,
    dimension: ContextDimension,
    first: IdSource,
    last: IdSource,
    routes: Seq<usize>,
)
    requires
        is_taken_in(
            before,
            now,
            prepared,
            tabs,
            active_pane,
            insertion_index,
            dimension,
            first,
            last,
            routes,
        ),
        is_numbered(before, first.next_route),
        first.next_route + order_of(tabs).len() <= usize::MAX,
    ensures
        is_numbered(now, last.next_route),
{
    let at = match insertion_index {
        Some(index) => index as int,
        None => before.tabs.len() as int,
    };
    let n = tabs.len() as int;
    let next = first.next_route;
    lemma_nth_id(next, order_of(tabs).len() as int);
    assert(now.tabs == before.tabs.take(at) + now.tabs.subrange(at, at + n) + before.tabs.skip(
        at,
    ));
    assert forall|t: int| 0 <= t < now.tabs.len() && !(at <= t < at + n) implies #[trigger] now.tabs[t]
        == before.tabs[if t < at {
        t
    } else {
        t - n
    }] by {}
    assert forall|t: int, p: int|
        #![trigger now.tabs[t].panes[p]]
        0 <= t < now.tabs.len() && 0 <= p < now.tabs[t].panes.len() implies {
        if at <= t < at + n {
            &&& p < tabs[t - at].routes@.len()
            &&& flattened(tabs, t - at).len() + p < order_of(tabs).len()
            &&& now.tabs[t].panes[p].route_id == next + flattened(tabs, t - at).len() + p
        } else {
            now.tabs[t].panes[p].route_id < next
        }
    } by {
        if at <= t < at + n {
            assert(now.tabs[t].panes.len() == tabs[t - at].routes@.len());
            lemma_flattened_at(tabs, t - at, p);
            lemma_nth_id(next, flattened(tabs, t - at).len() + p);
            assert(now.tabs[t].panes[p].route_id == nth_id(
                next,
                flattened(tabs, t - at).len() + p,
            ));
        } else {
            let was = if t < at {
                t
            } else {
                t - n
            };
            assert(now.tabs[t] == before.tabs[was]);
            assert(before.tabs[was].panes[p].route_id < next);
        }
    }
    assert forall|t: int, p: int, u: int, q: int|
        #![trigger now.tabs[t].panes[p], now.tabs[u].panes[q]]
        0 <= t < now.tabs.len() && 0 <= p < now.tabs[t].panes.len() && 0 <= u < now.tabs.len()
            && 0 <= q < now.tabs[u].panes.len() && now.tabs[t].panes[p].route_id
            == now.tabs[u].panes[q].route_id implies t == u && p == q by {
        if at <= t < at + n {
            if t < u {
                lemma_flattened(tabs, t - at + 1, u - at);
            } else if u < t {
                lemma_flattened(tabs, u - at + 1, t - at);
            }
        } else {
            let was_t = if t < at {
                t
            } else {
                t - n
            };
            let was_u = if u < at {
                u
            } else {
                u - n
            };
            assert(now.tabs[t].panes[p] == before.tabs[was_t].panes[p]);
            assert(now.tabs[u].panes[q] == before.tabs[was_u].panes[q]);
        }
    }
}

} // verus!
