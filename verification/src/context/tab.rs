//! A tab: the panes that are shown together.

use crate::context::pane::{Context, LayoutRect};
use crate::context::protocol::SessionDescriptor;
use crate::context::session::SessionHandle;
use crate::terminal::ColorBits;
use vstd::prelude::*;

verus! {

/// A tab with its panes in their order.
pub struct ContextGrid {
    pub id: u64,
    pub panes: Vec<Context>,
    /// The pane that has the focus.
    pub current: usize,
    pub custom_title: Option<String>,
    pub custom_color: Option<ColorBits>,
}

/// The contents of a tab.
#[verifier::ext_equal]
pub struct TabModel {
    pub id: u64,
    pub panes: Seq<Context>,
    pub current: int,
    pub custom_title: Option<String>,
    pub custom_color: Option<ColorBits>,
}

impl View for ContextGrid {
    type V = TabModel;

    open spec fn view(&self) -> TabModel {
        TabModel {
            id: self.id,
            panes: self.panes@,
            current: self.current as int,
            custom_title: self.custom_title,
            custom_color: self.custom_color,
        }
    }
}

/// A pane that is offered to another window.
#[derive(Clone, Copy, Debug, PartialEq, Eq, Structural)]
pub struct PaneOffer {
    pub route_id: u64,
    pub session: SessionDescriptor,
    pub layout_rect: LayoutRect,
}

/// A tab that is offered to another window: its panes by their numbers, the
/// one with the focus, and whether the layout can be built again from them.
pub struct TabOffer {
    pub routes: Vec<u64>,
    pub active_route: u64,
    pub rebuildable: bool,
}

/// The numbers of some panes.
pub open spec fn routes_of(panes: Seq<Context>) -> Seq<usize> {
    panes.map_values(|c: Context| c.route_id)
}

/// The first pane, from `from` on, with the given number.
pub open spec fn pane_with_route(panes: Seq<Context>, route_id: usize, from: int) -> Option<int>
    decreases panes.len() - from,
{
    if from < 0 || from >= panes.len() {
        None
    } else if panes[from].route_id == route_id {
        Some(from)
    } else {
        pane_with_route(panes, route_id, from + 1)
    }
}

/// A found pane has the number, and no pane before it.
pub proof fn lemma_pane_with_route(panes: Seq<Context>, route_id: usize, from: int)
    requires
        0 <= from <= panes.len(),
    ensures
        match pane_with_route(panes, route_id, from) {
            Some(i) => from <= i < panes.len() && panes[i].route_id == route_id,
            None => forall|i: int|
                from <= i < panes.len() ==> (#[trigger] panes[i]).route_id != route_id,
        },
    decreases panes.len() - from,
{
    if from < panes.len() && panes[from].route_id != route_id {
        lemma_pane_with_route(panes, route_id, from + 1);
    }
}

/// What a session is known by, if it has been started.
pub open spec fn descriptor_of(pane: Context) -> Option<SessionDescriptor> {
    match pane.terminal@.session {
        Some(session) => session.state.descriptor,
        None => None,
    }
}

/// The first pane, from `from` on, without a started session.
pub open spec fn first_unstarted(panes: Seq<Context>, from: int) -> Option<int>
    decreases panes.len() - from,
{
    if from < 0 || from >= panes.len() {
        None
    } else if descriptor_of(panes[from]) is None {
        Some(from)
    } else {
        first_unstarted(panes, from + 1)
    }
}

/// A found pane has no started session; where none is found, all have one.
pub proof fn lemma_first_unstarted(panes: Seq<Context>, from: int)
    requires
        0 <= from <= panes.len(),
    ensures
        match first_unstarted(panes, from) {
            Some(i) => from <= i < panes.len() && descriptor_of(panes[i]) is None,
            None => forall|i: int|
                from <= i < panes.len() ==> descriptor_of(#[trigger] panes[i]) is Some,
        },
    decreases panes.len() - from,
{
    if from < panes.len() && descriptor_of(panes[from]) is Some {
        lemma_first_unstarted(panes, from + 1);
    }
}

/// The pane shows the session.
pub open spec fn is_session(pane: Context, session_id: u128) -> bool {
    match descriptor_of(pane) {
        Some(descriptor) => descriptor.session_id == session_id,
        None => false,
    }
}

/// One of the first `n` panes shows the session.
pub open spec fn shows_session(panes: Seq<Context>, session_id: u128, n: int) -> bool {
    exists|i: int| 0 <= i < n && #[trigger] is_session(panes[i], session_id)
}

impl TabModel {
    /// There is a pane with the focus, and the caches of all panes are sound.
    pub open spec fn well_formed(self) -> bool {
        &&& 0 <= self.current < self.panes.len()
        &&& forall|i: int| 0 <= i < self.panes.len() ==> (#[trigger] self.panes[i]).well_formed()
    }

    /// The pane with the focus.
    pub open spec fn current_pane(self) -> Context {
        self.panes[self.current]
    }

    /// The tab has a pane with the number.
    pub open spec fn has_route(self, route_id: usize) -> bool {
        pane_with_route(self.panes, route_id, 0) is Some
    }

    /// The tab with another pane behind the one with the focus, which it gets.
    pub open spec fn with_split(self, context: Context) -> TabModel {
        TabModel {
            panes: self.panes.insert(self.current + 1, context),
            current: self.current + 1,
            ..self
        }
    }

    /// The tab without one of its panes. The focus stays with its pane, or goes
    /// to the one that follows it.
    pub open spec fn without_pane(self, index: int) -> TabModel {
        TabModel {
            panes: self.panes.remove(index),
            current: if index < self.current || self.current == self.panes.len() - 1 {
                self.current - 1
            } else {
                self.current
            },
            ..self
        }
    }

    /// The whole tab has to be drawn.
    pub open spec fn damaged(self) -> TabModel {
        TabModel { panes: self.panes.map_values(|c: Context| c.damaged()), ..self }
    }

    /// The tab belongs to another window.
    pub open spec fn is_rebound(self, before: TabModel, window_id: u64) -> bool {
        &&& self.id == before.id
        &&& self.current == before.current
        &&& self.custom_title == before.custom_title
        &&& self.custom_color == before.custom_color
        &&& self.panes.len() == before.panes.len()
        &&& forall|i: int|
            0 <= i < self.panes.len() ==> (#[trigger] self.panes[i]).is_rebound(
                &before.panes[i],
                window_id,
            )
    }
}

impl ContextGrid {
    pub fn new(context: Context, id: u64) -> (r: Self)
        requires
            context.well_formed(),
        ensures
            r@ == (TabModel {
                id,
                panes: seq![context],
                current: 0,
                custom_title: None,
                custom_color: None,
            }),
            r@.well_formed(),
    {
        let mut panes: Vec<Context> = Vec::new();
        panes.push(context);
        let r: ContextGrid = ContextGrid {
            id,
            panes,
            current: 0,
            custom_title: None,
            custom_color: None,
        };
        proof {
            assert(r@.panes =~= seq![context]);
        }
        r
    }

    pub fn id(&self) -> (r: u64)
        ensures
            r == self@.id,
    {
        self.id
    }

    pub fn len(&self) -> (r: usize)
        ensures
            r == self@.panes.len(),
    {
        self.panes.len()
    }

    pub fn current(&self) -> (r: &Context)
        requires
            self@.well_formed(),
        ensures
            *r == self@.current_pane(),
    {
        &self.panes[self.current]
    }

    pub fn current_mut(&mut self) -> (r: &mut Context)
        requires
            old(self)@.well_formed(),
        ensures
            *r == old(self)@.current_pane(),
            final(self)@ == (TabModel {
                panes: old(self)@.panes.update(old(self)@.current, *final(r)),
                ..old(self)@
            }),
            final(r).well_formed() ==> final(self)@.well_formed(),
    {
        &mut self.panes[self.current]
    }

    pub fn route_ids(&self) -> (r: Vec<usize>)
        ensures
            r@ == routes_of(self@.panes),
    {
        let mut out: Vec<usize> = Vec::new();
        let mut i: usize = 0;
        while i < self.panes.len()
            invariant
                i <= self.panes@.len(),
                out@ == routes_of(self.panes@.take(i as int)),
            decreases self.panes@.len() - i,
        {
            proof {
                assert(routes_of(self.panes@.take(i + 1)) =~= routes_of(
                    self.panes@.take(i as int),
                ).push(self.panes@[i as int].route_id));
            }
            out.push(self.panes[i].route_id);
            i += 1;
        }
        proof {
            assert(self.panes@.take(self.panes@.len() as int) =~= self.panes@);
        }
        out
    }

    /// The position of the pane with a number.
    pub fn index_of_route(&self, route_id: usize) -> (r: Option<usize>)
        ensures
            match (r, pane_with_route(self@.panes, route_id, 0)) {
                (Some(i), Some(at)) => i == at && i < self@.panes.len()
                    && self@.panes[at].route_id == route_id,
                (None, None) => true,
                _ => false,
            },
    {
        let mut i: usize = 0;
        while i < self.panes.len()
            invariant
                i <= self.panes@.len(),
                pane_with_route(self.panes@, route_id, 0) == pane_with_route(
                    self.panes@,
                    route_id,
                    i as int,
                ),
            decreases self.panes@.len() - i,
        {
            if self.panes[i].route_id == route_id {
                return Some(i);
            }
            i += 1;
        }
        None
    }

    pub fn contains_route_id(&self, route_id: usize) -> (r: bool)
        ensures
            r == self@.has_route(route_id),
    {
        self.index_of_route(route_id).is_some()
    }

    /// The next pane gets the focus; behind the last one comes the first.
    pub fn select_next_split(&mut self)
        requires
            old(self)@.well_formed(),
        ensures
            final(self)@.well_formed(),
            final(self)@ == (TabModel {
                current: if old(self)@.current + 1 == old(self)@.panes.len() {
                    0
                } else {
                    old(self)@.current + 1
                },
                ..old(self)@
            }),
    {
        if self.current == self.panes.len() - 1 {
            self.current = 0;
        } else {
            self.current += 1;
        }
    }

    pub fn select_prev_split(&mut self)
        requires
            old(self)@.well_formed(),
        ensures
            final(self)@.well_formed(),
            final(self)@ == (TabModel {
                current: if old(self)@.current == 0 {
                    old(self)@.panes.len() - 1
                } else {
                    old(self)@.current - 1
                },
                ..old(self)@
            }),
    {
        if self.current == 0 {
            self.current = self.panes.len() - 1;
        } else {
            self.current -= 1;
        }
    }

    /// The next pane gets the focus, if there is one.
    pub fn select_next_split_no_loop(&mut self) -> (r: bool)
        requires
            old(self)@.well_formed(),
        ensures
            final(self)@.well_formed(),
            r == (old(self)@.current + 1 < old(self)@.panes.len()),
            final(self)@ == if r {
                TabModel { current: old(self)@.current + 1, ..old(self)@ }
            } else {
                old(self)@
            },
    {
        if self.current < self.panes.len() - 1 {
            self.current += 1;
            true
        } else {
            false
        }
    }

    pub fn select_prev_split_no_loop(&mut self) -> (r: bool)
        requires
            old(self)@.well_formed(),
        ensures
            final(self)@.well_formed(),
            r == (old(self)@.current > 0),
            final(self)@ == if r {
                TabModel { current: old(self)@.current - 1, ..old(self)@ }
            } else {
                old(self)@
            },
    {
        if self.current > 0 {
            self.current -= 1;
            true
        } else {
            false
        }
    }

    pub fn select_first_split(&mut self)
        requires
            old(self)@.well_formed(),
        ensures
            final(self)@.well_formed(),
            final(self)@ == (TabModel { current: 0, ..old(self)@ }),
    {
        self.current = 0;
    }

    pub fn select_last_split(&mut self)
        requires
            old(self)@.well_formed(),
        ensures
            final(self)@.well_formed(),
            final(self)@ == (TabModel { current: old(self)@.panes.len() - 1, ..old(self)@ }),
    {
        self.current = self.panes.len() - 1;
    }

    /// Puts a pane behind the one with the focus, and gives it the focus.
    pub fn add_split(&mut self, context: Context)
        requires
            old(self)@.well_formed(),
            context.well_formed(),
        ensures
            final(self)@.well_formed(),
            final(self)@ == old(self)@.with_split(context),
    {
        let count: usize = self.panes.len();
        proof {
            assert(self.current < count);
        }
        let at: usize = self.current + 1;
        self.panes.insert(at, context);
        self.current = at;
        proof {
            assert(self@.panes =~= old(self)@.with_split(context).panes);
        }
    }

    /// Takes a pane out of a tab that has others.
    pub fn remove_pane(&mut self, index: usize) -> (r: Context)
        requires
            old(self)@.well_formed(),
            index < old(self)@.panes.len(),
            old(self)@.panes.len() > 1,
        ensures
            final(self)@.well_formed(),
            r == old(self)@.panes[index as int],
            r.well_formed(),
            final(self)@ == old(self)@.without_pane(index as int),
    {
        let last: bool = self.current == self.panes.len() - 1;
        let removed: Context = self.panes.remove(index);
        if index < self.current || last {
            self.current -= 1;
        }
        proof {
            assert(self@.panes =~= old(self)@.panes.remove(index as int));
        }
        removed
    }

    /// Reassigns every pane to a window.
    pub fn rebind_window(&mut self, window_id: u64)
        requires
            old(self)@.well_formed(),
        ensures
            final(self)@.well_formed(),
            final(self)@.is_rebound(old(self)@, window_id),
    {
        let ghost before = self@;
        let mut i: usize = 0;
        while i < self.panes.len()
            invariant
                i <= self.panes@.len(),
                self.panes@.len() == before.panes.len(),
                before.well_formed(),
                self@ == (TabModel { panes: self.panes@, ..before }),
                forall|k: int|
                    0 <= k < i ==> (#[trigger] self.panes@[k]).well_formed()
                        && self.panes@[k].is_rebound(&before.panes[k], window_id),
                forall|k: int|
                    i <= k < self.panes@.len() ==> #[trigger] self.panes@[k] == before.panes[k],
            decreases self.panes@.len() - i,
        {
            proof {
                assert(self.panes@[i as int] == before.panes[i as int]);
            }
            let pane: &mut Context = &mut self.panes[i];
            pane.rebind_window(window_id);
            i += 1;
        }
    }

    /// Every pane has to be drawn again.
    pub fn mark_full_damage(&mut self)
        requires
            old(self)@.well_formed(),
        ensures
            final(self)@.well_formed(),
            final(self)@ == old(self)@.damaged(),
    {
        let ghost before = self@;
        let mut i: usize = 0;
        while i < self.panes.len()
            invariant
                i <= self.panes@.len(),
                self.panes@.len() == before.panes.len(),
                before.well_formed(),
                self@ == (TabModel { panes: self.panes@, ..before }),
                forall|k: int| 0 <= k < i ==> #[trigger] self.panes@[k] == before.panes[k].damaged(),
                forall|k: int|
                    i <= k < self.panes@.len() ==> #[trigger] self.panes@[k] == before.panes[k],
            decreases self.panes@.len() - i,
        {
            proof {
                assert(self.panes@[i as int] == before.panes[i as int]);
            }
            let pane: &mut Context = &mut self.panes[i];
            pane.mark_full_damage();
            i += 1;
        }
        proof {
            assert(self@ =~= before.damaged());
            assert forall|k: int| 0 <= k < self@.panes.len() implies (
            #[trigger] self@.panes[k]).well_formed() by {
                assert(before.panes[k].well_formed());
            }
        }
    }

    /// Whether a pane shows the session.
    pub fn owns_session_id(&self, session_id: u128) -> (r: bool)
        ensures
            r == shows_session(self@.panes, session_id, self@.panes.len() as int),
    {
        let mut i: usize = 0;
        while i < self.panes.len()
            invariant
                i <= self.panes@.len(),
                !shows_session(self.panes@, session_id, i as int),
            decreases self.panes@.len() - i,
        {
            if let Some(session) = &self.panes[i].terminal.session {
                if let Some(descriptor) = session.descriptor() {
                    if descriptor.session_id == session_id {
                        proof {
                            assert(is_session(self.panes@[i as int], session_id));
                        }
                        return true;
                    }
                }
            }
            i += 1;
        }
        false
    }

    /// The sessions of the tab.
    pub fn session_handles(&self) -> (r: Vec<&SessionHandle>)
        ensures
            referred(r@) == sessions_of(self@.panes, self@.panes.len() as int),
    {
        let mut out: Vec<&SessionHandle> = Vec::new();
        let mut i: usize = 0;
        proof {
            assert(referred(out@) =~= Seq::<SessionHandle>::empty());
        }
        while i < self.panes.len()
            invariant
                i <= self.panes@.len(),
                referred(out@) == sessions_of(self.panes@, i as int),
            decreases self.panes@.len() - i,
        {
            if let Some(session) = &self.panes[i].terminal.session {
                proof {
                    assert(referred(out@.push(session)) =~= referred(out@).push(*session));
                }
                out.push(session);
            }
            i += 1;
        }
        out
    }

    /// What is offered of the tab to another window: every pane needs a started
    /// session for that.
    pub fn transfer_parts(&self) -> (r: Result<(Vec<PaneOffer>, TabOffer), usize>)
        requires
            self@.well_formed(),
        ensures
            match r {
                Ok((panes, tab)) => {
                    &&& panes@ == offers_of(self@.panes)
                    &&& tab.routes@ == offered_routes(self@.panes)
                    &&& tab.active_route == self@.current_pane().route_id as u64
                    &&& tab.rebuildable
                    &&& forall|i: int|
                        0 <= i < self@.panes.len() ==> descriptor_of(#[trigger] self@.panes[i])
                            is Some
                },
                Err(route) => first_unstarted(self@.panes, 0) matches Some(i) && route
                    == self@.panes[i].route_id,
            },
    {
        proof {
            lemma_first_unstarted(self@.panes, 0);
        }
        let mut panes: Vec<PaneOffer> = Vec::new();
        let mut routes: Vec<u64> = Vec::new();
        let mut i: usize = 0;
        while i < self.panes.len()
            invariant
                i <= self.panes@.len(),
                panes@ == offers_of(self.panes@.take(i as int)),
                routes@ == offered_routes(self.panes@.take(i as int)),
                forall|k: int|
                    0 <= k < i ==> descriptor_of(#[trigger] self.panes@[k]) is Some,
                first_unstarted(self.panes@, 0) == first_unstarted(self.panes@, i as int),
            decreases self.panes@.len() - i,
        {
            let pane: &Context = &self.panes[i];
            let descriptor: Option<SessionDescriptor> = match &pane.terminal.session {
                Some(session) => session.descriptor(),
                None => None,
            };
            match descriptor {
                Some(session) => {
                    proof {
                        assert(offers_of(self.panes@.take(i + 1)) =~= offers_of(
                            self.panes@.take(i as int),
                        ).push(offer_of(self.panes@[i as int])));
                        assert(offered_routes(self.panes@.take(i + 1)) =~= offered_routes(
                            self.panes@.take(i as int),
                        ).push(self.panes@[i as int].route_id as u64));
                    }
                    panes.push(
                        PaneOffer {
                            route_id: pane.route_id as u64,
                            session,
                            layout_rect: pane.layout_rect,
                        },
                    );
                    routes.push(pane.route_id as u64);
                },
                None => {
                    proof {
                        assert(descriptor_of(self.panes@[i as int]) is None);
                    }
                    return Err(pane.route_id);
                },
            }
            i += 1;
        }
        proof {
            assert(self.panes@.take(self.panes@.len() as int) =~= self.panes@);
        }
        let active_route: u64 = self.panes[self.current].route_id as u64;
        Ok((panes, TabOffer { routes, active_route, rebuildable: true }))
    }
}

/// The sessions that some references stand for.
pub open spec fn referred(handles: Seq<&SessionHandle>) -> Seq<SessionHandle> {
    handles.map_values(|h: &SessionHandle| *h)
}

/// The sessions of the first `n` panes.
pub open spec fn sessions_of(panes: Seq<Context>, n: int) -> Seq<SessionHandle>
    decreases n,
{
    if n <= 0 {
        Seq::empty()
    } else {
        match panes[n - 1].terminal.session {
            Some(session) => sessions_of(panes, n - 1).push(session),
            None => sessions_of(panes, n - 1),
        }
    }
}

/// What is offered of a pane.
pub open spec fn offer_of(pane: Context) -> PaneOffer {
    PaneOffer {
        route_id: pane.route_id as u64,
        session: descriptor_of(pane)->0,
        layout_rect: pane.layout_rect,
    }
}

/// What is offered of some panes.
pub open spec fn offers_of(panes: Seq<Context>) -> Seq<PaneOffer> {
    panes.map_values(|c: Context| offer_of(c))
}

/// The numbers of some panes as they are offered.
pub open spec fn offered_routes(panes: Seq<Context>) -> Seq<u64> {
    panes.map_values(|c: Context| c.route_id as u64)
}

} // verus!
