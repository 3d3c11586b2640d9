//! Panes that come in from other programs, and panes that go out to them.

use crate::application::drag::TabDragEvent;
use crate::application::outbox::{
    find_window, window_of, Effect, EffectModel, Response, ResponseModel, WindowFacts,
};
use crate::application::recovery::READINESS_TIMEOUT;
use crate::application::state::{
    Application, ApplicationModel, PendingOutgoing, PendingPrepared, PendingPreparedCompletion,
    PendingPreparedRoute, PreparedModel,
};
use crate::application::transfer::{
    commit_error, current_route_if_contexts_remain, remaining_route, transferred_away,
    validate_committed_routes,
};
use crate::context::adopt::{behind_refusal, is_acceptable, is_taken_in};
use crate::context::handover::{PreparedPane, TransferOffer};
use crate::context::manager::{tab_with_route, ContextManager, ManagerModel};
use crate::context::pane::{ContextDimension, IdSource};
use crate::context::protocol::SessionError;
use crate::context::pump::PreparedSession;
use crate::context::session::SessionHandle;
use crate::context::tab::{pane_with_route, PaneOffer, TabModel};
use crate::text::joined;
use std::collections::HashSet;
use vstd::prelude::*;

verus! {

broadcast use vstd::std_specs::hash::group_hash_axioms;

/// Why a prepared pane cannot take its session over.
pub open spec fn prepared_error(manager: ManagerModel, route: usize, kind: Seq<char>) -> Option<
    Seq<char>,
> {
    match tab_with_route(manager.tabs, route, 0) {
        None => Some(kind + " target route disappeared"@),
        Some(t) => {
            let tab = manager.tabs[t];
            let pane = tab.panes[pane_with_route(tab.panes, route, 0)->0];
            match pane.terminal@.decode_error {
                Some(error) => Some("cannot decode "@ + kind + " session frame: "@ + error),
                None => None,
            }
        },
    }
}

/// Looks whether a prepared pane can take its session over: it is still there,
/// and could show what it was sent.
pub fn check_prepared_route(manager: &mut ContextManager, route: usize, kind: &str) -> (r: Option<
    String,
>)
    requires
        old(manager)@.well_formed(),
    ensures
        final(manager)@ == old(manager)@,
        match (r, prepared_error(old(manager)@, route, kind@)) {
            (Some(text), Some(words)) => text@ == words,
            (None, None) => true,
            _ => false,
        },
{
    let ghost before = manager@;
    let result: Option<String> = match manager.get_by_route_id(route) {
        Some(context) => match context.terminal.decoder_error() {
            Some(error) => {
                let opened: String = joined("cannot decode ", kind);
                let named: String = joined(opened.as_str(), " session frame: ");
                Some(joined(named.as_str(), error))
            },
            None => None,
        },
        None => Some(joined(kind, " target route disappeared")),
    };
    proof {
        if let Some(t) = tab_with_route(before.tabs, route, 0) {
            let tab = before.tabs[t];
            let p = pane_with_route(tab.panes, route, 0)->0;
            assert(tab.panes.update(p, tab.panes[p]) =~= tab.panes);
            assert(before.tabs.update(t, tab) =~= before.tabs);
        }
        assert(manager@ =~= before);
    }
    result
}

/// A prepared pane takes its session over, given what came of committing it.
pub fn commit_prepared_route(
    manager: &mut ContextManager,
    route: usize,
    committed: Result<SessionHandle, SessionError>,
) -> (r: Result<(), String>)
    requires
        old(manager)@.well_formed(),
        tab_with_route(old(manager)@.tabs, route, 0) is Some,
        committed matches Ok(session) ==> session@.well_formed(),
    ensures
        final(manager)@.well_formed(),
        ({
            let t = tab_with_route(old(manager)@.tabs, route, 0)->0;
            let tab = old(manager)@.tabs[t];
            let p = pane_with_route(tab.panes, route, 0)->0;
            let now = final(manager)@.tabs[t].panes[p];
            &&& final(manager)@ == (ManagerModel {
                tabs: old(manager)@.tabs.update(
                    t,
                    TabModel { panes: tab.panes.update(p, now), ..tab },
                ),
                ..old(manager)@
            })
            &&& now.has_settled(&tab.panes[p], committed)
            &&& match (tab.panes[p].pending_session, committed) {
                (Some(_), Err(error)) => r matches Err(text) && text@ == error.words(),
                _ => r is Ok,
            }
        }),
{
    let ghost before = manager@;
    proof {
        crate::context::manager::lemma_tab_with_route(before.tabs, route, 0);
        let t = tab_with_route(before.tabs, route, 0)->0;
        assert(before.tabs[t].well_formed());
    }
    match manager.get_by_route_id(route) {
        Some(context) => {
            proof {
                let t = tab_with_route(before.tabs, route, 0)->0;
                assert(before.tabs[t].well_formed());
            }
            match context.commit_pending_session(committed) {
                Ok(_) => Ok(()),
                Err(error) => Err(error.message()),
            }
        },
        None => Ok(()),
    }
}

/// The numbers that the first `n` panes came under.
pub open spec fn sources_of(routes: Seq<PendingPreparedRoute>, n: int) -> Seq<u64> {
    Seq::new(n as nat, |i: int| routes[i].source_route->0)
}

/// The panes among the first `n` that have the number of none of the first `done`.
pub open spec fn uncommitted_of(routes: Seq<PendingPreparedRoute>, done: int, n: int) -> Seq<usize>
    decreases n,
{
    if n <= 0 {
        Seq::empty()
    } else if exists|i: int|
        0 <= i < done && (#[trigger] routes[i]).target_route == routes[n - 1].target_route {
        uncommitted_of(routes, done, n - 1)
    } else {
        uncommitted_of(routes, done, n - 1).push(routes[n - 1].target_route)
    }
}

/// The commit of panes that are all shown, one after the other.
pub struct IncomingCommit {
    pub reply: u64,
    pub routes: Vec<PendingPreparedRoute>,
    /// How many were committed.
    pub committed: usize,
    pub error: Option<String>,
}

impl IncomingCommit {
    pub open spec fn well_formed(&self) -> bool {
        &&& self.committed <= self.routes@.len()
        &&& forall|i: int|
            0 <= i < self.routes@.len() ==> (#[trigger] self.routes@[i]).source_route is Some
    }

    /// The pane that comes next.
    pub open spec fn next(&self) -> Option<usize> {
        if self.error is None && self.committed < self.routes@.len() {
            Some(self.routes@[self.committed as int].target_route)
        } else {
            None
        }
    }

    pub fn start(reply: u64, routes: Vec<PendingPreparedRoute>) -> (r: Self)
        requires
            forall|i: int|
                0 <= i < routes@.len() ==> (#[trigger] routes@[i]).source_route is Some,
        ensures
            r.well_formed(),
            r.reply == reply,
            r.routes == routes,
            r.committed == 0,
            r.error is None,
    {
        IncomingCommit { reply, routes, committed: 0, error: None }
    }

    pub fn next_route(&self) -> (r: Option<usize>)
        requires
            self.well_formed(),
        ensures
            r == self.next(),
    {
        if self.error.is_none() && self.committed < self.routes.len() {
            Some(self.routes[self.committed].target_route)
        } else {
            None
        }
    }

    /// Notes what came of the pane that came next. The first failure ends the
    /// commit.
    pub fn record(&mut self, result: Result<(), String>)
        requires
            old(self).well_formed(),
            old(self).next() is Some,
        ensures
            final(self).well_formed(),
            final(self).reply == old(self).reply,
            final(self).routes == old(self).routes,
            match result {
                Ok(_) => final(self).committed == old(self).committed + 1 && final(self).error
                    is None,
                Err(error) => final(self).committed == old(self).committed && final(self).error
                    == Some(error),
            },
    {
        match result {
            Ok(_) => {
                let count: usize = self.routes.len();
                assert(self.committed < count);
                self.committed = self.committed + 1;
            },
            Err(error) => {
                self.error = Some(error);
            },
        }
    }

    /// The panes that were not committed.
    pub fn uncommitted(&self) -> (r: Vec<usize>)
        requires
            self.well_formed(),
        ensures
            r@ == uncommitted_of(self.routes@, self.committed as int, self.routes@.len() as int),
    {
        let mut rest: Vec<usize> = Vec::new();
        let mut i: usize = 0;
        while i < self.routes.len()
            invariant
                i <= self.routes@.len(),
                self.well_formed(),
                rest@ == uncommitted_of(self.routes@, self.committed as int, i as int),
            decreases self.routes@.len() - i,
        {
            let route: usize = self.routes[i].target_route;
            let mut done: bool = false;
            let mut k: usize = 0;
            while k < self.committed
                invariant
                    k <= self.committed <= self.routes@.len(),
                    done == exists|j: int|
                        0 <= j < k && (#[trigger] self.routes@[j]).target_route == route,
                decreases self.committed - k,
            {
                if self.routes[k].target_route == route {
                    done = true;
                }
                k += 1;
            }
            if !done {
                rest.push(route);
            }
            i += 1;
        }
        rest
    }

    /// What the other program is told: the panes that were committed, or, where
    /// none was, why.
    pub open spec fn answer(&self) -> ResponseModel {
        match self.error {
            Some(error) if self.committed == 0 => ResponseModel::Rejected(error@),
            _ => ResponseModel::Committed(sources_of(self.routes@, self.committed as int)),
        }
    }

    pub fn response(&self) -> (r: Response)
        requires
            self.well_formed(),
        ensures
            r@ == self.answer(),
    {
        if self.committed == 0 {
            if let Some(error) = &self.error {
                return Response::Rejected(error.clone());
            }
        }
        let mut list: Vec<u64> = Vec::new();
        let mut i: usize = 0;
        while i < self.committed
            invariant
                i <= self.committed,
                self.well_formed(),
                list@ == sources_of(self.routes@, i as int),
            decreases self.committed - i,
        {
            match self.routes[i].source_route {
                Some(source) => {
                    list.push(source);
                },
                None => {
                    vstd::pervasive::unreached::<()>();
                },
            }
            i += 1;
            proof {
                assert(list@ =~= sources_of(self.routes@, i as int));
            }
        }
        Response::Committed(list)
    }
}

/// The panes and their sessions, as far as there are both.
pub open spec fn paired(panes: Seq<PaneOffer>, sessions: Seq<PreparedSession>) -> Seq<PreparedPane> {
    Seq::new(
        if panes.len() <= sessions.len() {
            panes.len()
        } else {
            sessions.len()
        },
        |i: int| PreparedPane { offer: panes[i], session: sessions[i] },
    )
}

fn pair(panes: &Vec<PaneOffer>, sessions: Vec<PreparedSession>) -> (r: Vec<PreparedPane>)
    ensures
        r@ == paired(panes@, sessions@),
{
    let ghost given = sessions@;
    let mut rest: Vec<PreparedSession> = sessions;
    let mut count: usize = rest.len();
    while count > panes.len()
        invariant
            count == rest@.len(),
            count <= given.len(),
            panes@.len() <= given.len() ==> panes@.len() <= count,
            given.len() <= panes@.len() ==> count == given.len(),
            rest@ == given.take(count as int),
        decreases count,
    {
        rest.pop();
        count -= 1;
        proof {
            assert(rest@ =~= given.take(count as int));
        }
    }
    let mut list: Vec<PreparedPane> = Vec::new();
    let mut i: usize = 0;
    while i < count
        invariant
            i <= count,
            count <= panes@.len(),
            count <= given.len(),
            rest@ == given.subrange(i as int, count as int),
            list@.len() == i,
            forall|j: int|
                0 <= j < i ==> #[trigger] list@[j] == (PreparedPane {
                    offer: panes@[j],
                    session: given[j],
                }),
        decreases count - i,
    {
        let session: PreparedSession = rest.remove(0);
        list.push(PreparedPane { offer: panes[i], session });
        i += 1;
        proof {
            assert(rest@ =~= given.subrange(i as int, count as int));
        }
    }
    proof {
        assert(list@ =~= paired(panes@, given));
    }
    list
}

/// The panes under both their numbers, as far as there are both.
pub open spec fn renamed(panes: Seq<PaneOffer>, targets: Seq<usize>) -> Seq<PendingPreparedRoute> {
    Seq::new(
        if panes.len() <= targets.len() {
            panes.len()
        } else {
            targets.len()
        },
        |i: int|
            PendingPreparedRoute {
                source_route: Some(panes[i].route_id),
                target_route: targets[i],
            },
    )
}

fn rename(panes: &Vec<PaneOffer>, targets: &Vec<usize>) -> (r: Vec<PendingPreparedRoute>)
    ensures
        r@ == renamed(panes@, targets@),
{
    let mut list: Vec<PendingPreparedRoute> = Vec::new();
    let mut i: usize = 0;
    while i < panes.len() && i < targets.len()
        invariant
            i <= panes@.len(),
            i <= targets@.len(),
            list@.len() == i,
            forall|j: int|
                0 <= j < i ==> #[trigger] list@[j] == (PendingPreparedRoute {
                    source_route: Some(panes@[j].route_id),
                    target_route: targets@[j],
                }),
        decreases panes@.len() - i,
    {
        list.push(
            PendingPreparedRoute {
                source_route: Some(panes[i].route_id),
                target_route: targets[i],
            },
        );
        i += 1;
    }
    proof {
        assert(list@ =~= renamed(panes@, targets@));
    }
    list
}

/// The window that takes an offer: the one that was named, where it shows its
/// terminal; else the focused one, or else any.
pub open spec fn incoming_window(
    windows: Seq<WindowFacts>,
    target: Option<u64>,
    focused: Option<u64>,
) -> Option<u64> {
    match target {
        Some(window) => if window_of(windows, window) matches Some(facts) && facts.terminal {
            Some(window)
        } else {
            None
        },
        None => match focused {
            Some(window) => Some(window),
            None => if windows.len() > 0 {
                Some(windows[0].id)
            } else {
                None
            },
        },
    }
}

pub fn find_incoming_window(
    windows: &Vec<WindowFacts>,
    target: Option<u64>,
    focused: Option<u64>,
) -> (r: Option<u64>)
    ensures
        r == incoming_window(windows@, target, focused),
{
    match target {
        Some(window) => {
            let shown: bool = match find_window(windows, window) {
                Some(facts) => facts.terminal,
                None => false,
            };
            if shown {
                Some(window)
            } else {
                None
            }
        },
        None => match focused {
            Some(window) => Some(window),
            None => if windows.len() > 0 {
                Some(windows[0].id)
            } else {
                None
            },
        },
    }
}

/// The pane that kept a place for the offer is gone.
pub open spec fn without_placeholder(manager: ManagerModel) -> ManagerModel {
    match manager.bootstrap_transfer {
        Some((id, placeholder)) => transferred_away(
            ManagerModel { bootstrap_transfer: None, ..manager },
            seq![placeholder],
        ),
        None => manager,
    }
}

impl ApplicationModel {
    /// Panes of another program were put into a window.
    pub open spec fn installed(
        self,
        window: u64,
        reply: u64,
        routes: Seq<PendingPreparedRoute>,
        placeholder: Option<(u128, usize)>,
        now: u64,
    ) -> ApplicationModel {
        let rest = match placeholder {
            Some((id, route)) => self.emitting(EffectModel::DiscardRoutes(window, seq![route])),
            None => self,
        };
        (ApplicationModel {
            prepared: self.prepared.push(
                PreparedModel {
                    routes,
                    ready: Set::empty(),
                    window_id: window,
                    deadline: (now + READINESS_TIMEOUT) as u64,
                    completion: PendingPreparedCompletion::Incoming(reply),
                },
            ),
            ..rest.emitting(EffectModel::Refresh(window))
        }).emitting(EffectModel::Redraw(window)).emitting(EffectModel::Wake(window))
    }

    /// The first offer, from `from` on, with the given number.
    pub open spec fn outgoing_at(self, transfer_id: u128, from: int) -> Option<int>
        decreases self.outgoing.len() - from,
    {
        if from < 0 || from >= self.outgoing.len() {
            None
        } else if self.outgoing[from].transfer_id == transfer_id {
            Some(from)
        } else {
            self.outgoing_at(transfer_id, from + 1)
        }
    }

    /// Panes that went out are gone here.
    pub open spec fn gone(self, window: u64, routes: Seq<usize>, emptied: bool) -> ApplicationModel {
        let rest = self.emitting(EffectModel::DiscardRoutes(window, routes));
        if emptied {
            ApplicationModel {
                exit_after_transfer: true,
                ..rest.merge_cleared_if(window).emitting(EffectModel::RemoveWindow(window))
            }
        } else {
            rest.emitting(EffectModel::Refresh(window)).emitting(EffectModel::Redraw(window))
        }
    }
}

/// What came of an offer.
pub open spec fn outgoing_result(offered: Seq<u64>, result: Result<Vec<u64>, String>) -> Result<
    Seq<usize>,
    Seq<char>,
> {
    match result {
        Ok(routes) => if routes@.len() == 0 {
            Err("target committed no source routes"@)
        } else {
            match commit_error(offered, routes@, routes@.len() as int) {
                Some(error) => Err(error),
                None => Ok(routes@.map_values(|id: u64| id as usize)),
            }
        },
        Err(error) => Err(error@),
    }
}

impl Application {
    fn reply(&mut self, reply: u64, response: Response)
        ensures
            final(self)@ == old(self)@.replied(reply, response@),
    {
        self.emit(Effect::Reply(reply, response));
    }

    pub(crate) fn refuse(&mut self, reply: u64, words: &str)
        ensures
            final(self)@ == old(self)@.replied(reply, ResponseModel::Rejected(words@)),
    {
        self.reply(reply, Response::Rejected(words.to_owned()));
    }

    /// Removes panes that were taken over in vain. The result is the pane that
    /// has the focus then, if there is one left.
    pub fn remove_pending_prepared_routes(
        &mut self,
        manager: &mut ContextManager,
        window: u64,
        routes: &Vec<usize>,
    ) -> (r: Option<usize>)
        requires
            old(manager)@.well_formed(),
        ensures
            final(manager)@.well_formed(),
            final(manager)@ == transferred_away(old(manager)@, routes@),
            r == remaining_route(final(manager)@),
            final(self)@ == old(self)@.unprepared(window, routes@, r),
    {
        manager.remove_transferred_routes(routes);
        let copy: Vec<usize> = routes.clone();
        proof {
            assert(copy@ =~= routes@);
        }
        self.emit(Effect::DiscardRoutes(window, copy));
        let remaining: Option<usize> = current_route_if_contexts_remain(manager);
        if remaining.is_some() {
            self.emit(Effect::Refresh(window));
            self.emit(Effect::Redraw(window));
        } else {
            self.clear_merge_if_window(window);
            self.emit(Effect::RemoveWindow(window));
        }
        remaining
    }

    /// Panes that were not shown in time are removed, and whoever waits for
    /// them is told.
    pub fn drop_expired(&mut self, manager: &mut ContextManager, pending: &PendingPrepared)
        requires
            old(manager)@.well_formed(),
        ensures
            final(manager)@.well_formed(),
            final(manager)@ == transferred_away(
                old(manager)@,
                pending.routes@.map_values(|r: PendingPreparedRoute| r.target_route),
            ),
            ({
                let routes = pending.routes@.map_values(|r: PendingPreparedRoute| r.target_route);
                let remaining = remaining_route(final(manager)@);
                let rest = old(self)@.unprepared(pending.window_id, routes, remaining);
                final(self)@ == match pending.completion {
                    PendingPreparedCompletion::Incoming(reply) => rest.replied(
                        reply,
                        ResponseModel::Rejected("target renderer readiness timed out"@),
                    ),
                    PendingPreparedCompletion::Recovery => match remaining {
                        Some(route) => rest.emitting(
                            EffectModel::ShowError(
                                pending.window_id,
                                route,
                                "recovery renderer readiness timed out"@,
                            ),
                        ),
                        None => rest,
                    },
                }
            }),
    {
        let mut routes: Vec<usize> = Vec::new();
        let mut i: usize = 0;
        while i < pending.routes.len()
            invariant
                i <= pending.routes@.len(),
                routes@.len() == i,
                forall|j: int|
                    0 <= j < i ==> #[trigger] routes@[j] == pending.routes@[j].target_route,
            decreases pending.routes@.len() - i,
        {
            routes.push(pending.routes[i].target_route);
            i += 1;
        }
        proof {
            assert(routes@ =~= pending.routes@.map_values(
                |r: PendingPreparedRoute| r.target_route,
            ));
        }
        let remaining: Option<usize> = self.remove_pending_prepared_routes(
            manager,
            pending.window_id,
            &routes,
        );
        match pending.completion {
            PendingPreparedCompletion::Incoming(reply) => {
                self.refuse(reply, "target renderer readiness timed out");
            },
            PendingPreparedCompletion::Recovery => {
                if let Some(route) = remaining {
                    let text: String = "recovery renderer readiness timed out".to_owned();
                    self.emit(Effect::ShowError(pending.window_id, route, text));
                }
            },
        }
    }

    /// Panes that were not shown in time are given up where their window is gone
    /// too: whoever offered them is told, and of a recovery nothing is left.
    pub fn drop_expired_without_window(&mut self, pending: &PendingPrepared)
        ensures
            final(self)@ == match pending.completion {
                PendingPreparedCompletion::Incoming(reply) => old(self)@.replied(
                    reply,
                    ResponseModel::Rejected("target renderer readiness timed out"@),
                ),
                PendingPreparedCompletion::Recovery => old(self)@,
            },
    {
        match pending.completion {
            PendingPreparedCompletion::Incoming(reply) => {
                self.refuse(reply, "target renderer readiness timed out");
            },
            PendingPreparedCompletion::Recovery => {},
        }
    }

    /// Ends the commit of panes that came in. Those that were not committed are
    /// removed, and the other program is answered.
    pub fn commit_ready_incoming(
        &mut self,
        manager: &mut ContextManager,
        window: u64,
        commit: &IncomingCommit,
    )
        requires
            old(manager)@.well_formed(),
            commit.well_formed(),
            commit.next() is None,
        ensures
            final(manager)@.well_formed(),
            ({
                let rest = uncommitted_of(
                    commit.routes@,
                    commit.committed as int,
                    commit.routes@.len() as int,
                );
                if commit.error is Some {
                    &&& final(manager)@ == transferred_away(old(manager)@, rest)
                    &&& final(self)@ == old(self)@.unprepared(
                        window,
                        rest,
                        remaining_route(final(manager)@),
                    ).replied(commit.reply, commit.answer())
                } else {
                    &&& final(manager)@ == old(manager)@
                    &&& final(self)@ == old(self)@.emitting(EffectModel::Redraw(window)).replied(
                        commit.reply,
                        commit.answer(),
                    )
                }
            }),
    {
        if commit.error.is_some() {
            let rest: Vec<usize> = commit.uncommitted();
            self.remove_pending_prepared_routes(manager, window, &rest);
        } else {
            self.emit(Effect::Redraw(window));
        }
        let response: Response = commit.response();
        self.reply(commit.reply, response);
    }

    /// The window of panes that came in is gone.
    pub fn refuse_incoming(&mut self, reply: u64)
        ensures
            final(self)@ == old(self)@.replied(
                reply,
                ResponseModel::Rejected("target window disappeared before commit"@),
            ),
    {
        self.refuse(reply, "target window disappeared before commit");
    }

    /// Ends the recovery of a session, given what came of committing it.
    pub fn commit_ready_recovery(
        &mut self,
        manager: &mut ContextManager,
        window: u64,
        route: usize,
        result: Result<(), String>,
    )
        requires
            old(manager)@.well_formed(),
        ensures
            final(manager)@.well_formed(),
            match result {
                Ok(_) => final(manager)@ == old(manager)@ && final(self)@ == old(self)@.emitting(
                    EffectModel::Redraw(window),
                ),
                Err(error) => final(manager)@ == transferred_away(old(manager)@, seq![route])
                    && final(self)@ == old(self)@.unprepared(
                    window,
                    seq![route],
                    remaining_route(final(manager)@),
                ).emitting(
                    EffectModel::ShowError(window, old(manager)@.current_route(), error@),
                ),
            },
    {
        let focused: usize = manager.current_route();
        match result {
            Ok(_) => {
                self.emit(Effect::Redraw(window));
            },
            Err(error) => {
                let mut routes: Vec<usize> = Vec::new();
                routes.push(route);
                proof {
                    assert(routes@ =~= seq![route]);
                }
                self.remove_pending_prepared_routes(manager, window, &routes);
                self.emit(Effect::ShowError(window, focused, error));
            },
        }
    }

    /// Finds the window that panes of another program go to. Where there is none,
    /// or it is gone, the panes are refused.
    pub fn receive_incoming(
        &mut self,
        windows: &Vec<WindowFacts>,
        target: Option<u64>,
        focused: Option<u64>,
        prepared: &Result<Vec<PreparedSession>, String>,
        reply: u64,
    ) -> (r: Option<u64>)
        ensures
            match incoming_window(windows@, target, focused) {
                None => r is None && final(self)@ == old(self)@.replied(
                    reply,
                    ResponseModel::Rejected("target has no terminal window"@),
                ),
                Some(window) => if window_of(windows@, window) is Some {
                    r == Some(window) && final(self)@ == old(self)@
                } else {
                    r is None && final(self)@ == old(self)@.replied(
                        reply,
                        ResponseModel::Rejected(
                            match *prepared {
                                Err(error) => error@,
                                Ok(_) => "target route disappeared"@,
                            },
                        ),
                    )
                },
            },
    {
        let window: u64 = match find_incoming_window(windows, target, focused) {
            Some(window) => window,
            None => {
                self.refuse(reply, "target has no terminal window");
                return None;
            },
        };
        if find_window(windows, window).is_some() {
            return Some(window);
        }
        match prepared {
            Err(error) => {
                self.refuse(reply, error.as_str());
            },
            Ok(_) => {
                self.refuse(reply, "target route disappeared");
            },
        }
        None
    }

    /// Puts panes of another program into a window. What cannot be taken is
    /// refused, and changes no tab.
    pub fn install_incoming_transfer(
        &mut self,
        manager: &mut ContextManager,
        window: u64,
        offer: TransferOffer,
        prepared: Result<Vec<PreparedSession>, String>,
        reply: u64,
        target_index: Option<usize>,
        now: u64,
        ids: &mut IdSource,
    )
        requires
            old(manager)@.well_formed(),
            old(manager)@.tabs.len() > 0,
            prepared matches Ok(sessions) ==> forall|i: int|
                0 <= i < sessions@.len() ==> ((#[trigger] sessions@[i]).initial_frame matches Some(
                    frame,
                ) && frame.fits()),
            now + READINESS_TIMEOUT <= u64::MAX,
        ensures
            final(manager)@.well_formed(),
            match prepared {
                Err(error) => {
                    &&& final(manager)@ == old(manager)@
                    &&& *final(ids) == *old(ids)
                    &&& final(self)@ == old(self)@.replied(reply, ResponseModel::Rejected(error@))
                },
                Ok(sessions) => {
                    let before = old(manager)@;
                    let panes = paired(offer.panes@, sessions@);
                    let dimension = before.current_tab().current_pane().dimension;
                    if before.bootstrap_transfer matches Some((id, placeholder)) && id
                        != offer.transfer_id {
                        &&& final(manager)@ == before
                        &&& *final(ids) == *old(ids)
                        &&& final(self)@ == old(self)@.replied(
                            reply,
                            ResponseModel::Rejected("unexpected bootstrap transfer"@),
                        )
                    } else if !is_acceptable(
                        before,
                        panes,
                        offer.tabs@,
                        offer.active_pane as int,
                        target_index,
                    ) {
                        &&& final(manager)@ == before
                        &&& *final(ids) == behind_refusal(
                            before,
                            panes,
                            offer.tabs@,
                            offer.active_pane as int,
                            target_index,
                            *old(ids),
                        )
                        &&& final(self)@ == old(self)@.replied(
                            reply,
                            ResponseModel::Rejected(
                                "target context capacity or insertion index is invalid"@,
                            ),
                        )
                    } else {
                        exists|taken: ManagerModel, targets: Seq<usize>|
                            {
                                &&& #[trigger] is_taken_in(
                                    before,
                                    taken,
                                    panes,
                                    offer.tabs@,
                                    offer.active_pane as int,
                                    target_index,
                                    dimension,
                                    *old(ids),
                                    *final(ids),
                                    targets,
                                )
                                &&& final(manager)@ == without_placeholder(taken)
                                &&& final(self)@ == old(self)@.installed(
                                    window,
                                    reply,
                                    renamed(offer.panes@, targets),
                                    before.bootstrap_transfer,
                                    now,
                                )
                            }
                    }
                },
            },
    {
        let ghost before = manager@;
        let sessions: Vec<PreparedSession> = match prepared {
            Ok(sessions) => sessions,
            Err(error) => {
                self.reply(reply, Response::Rejected(error));
                return;
            },
        };
        if let Some(bootstrap) = manager.bootstrap_transfer {
            if bootstrap.0 != offer.transfer_id {
                self.refuse(reply, "unexpected bootstrap transfer");
                return;
            }
        }
        let dimension: ContextDimension = manager.current().dimension;
        let pairs: Vec<PreparedPane> = pair(&offer.panes, sessions);
        let targets: Vec<usize> = match manager.insert_prepared_tabs(
            pairs,
            offer.tabs,
            offer.active_pane as usize,
            target_index,
            dimension,
            ids,
        ) {
            Ok(targets) => targets,
            Err(_) => {
                self.refuse(reply, "target context capacity or insertion index is invalid");
                return;
            },
        };
        let ghost taken = manager@;
        let ghost started = self@;
        if let Some(bootstrap) = manager.bootstrap_transfer {
            manager.bootstrap_transfer = None;
            proof {
                assert(manager@ =~= (ManagerModel { bootstrap_transfer: None, ..taken }));
            }
            let mut placeholder: Vec<usize> = Vec::new();
            placeholder.push(bootstrap.1);
            proof {
                assert(placeholder@ =~= seq![bootstrap.1]);
            }
            manager.remove_transferred_routes(&placeholder);
            self.emit(Effect::DiscardRoutes(window, placeholder));
        }
        self.emit(Effect::Refresh(window));
        let ghost laid_out = self@;
        let pending = PendingPrepared {
            routes: rename(&offer.panes, &targets),
            ready: HashSet::new(),
            window_id: window,
            deadline: now + READINESS_TIMEOUT,
            completion: PendingPreparedCompletion::Incoming(reply),
        };
        let ghost waiting = pending@;
        self.pending_prepared.push(pending);
        proof {
            assert(waiting.ready =~= Set::empty());
            assert(self@.prepared =~= laid_out.prepared.push(waiting));
            assert(self@ =~= (ApplicationModel {
                prepared: started.prepared.push(waiting),
                ..laid_out
            }));
        }
        self.emit(Effect::Redraw(window));
        self.emit(Effect::Wake(window));
        proof {
            assert(is_taken_in(
                before,
                taken,
                paired(offer.panes@, sessions@),
                offer.tabs@,
                offer.active_pane as int,
                target_index,
                dimension,
                *old(ids),
                *ids,
                targets@,
            ));
        }
    }

    /// Another program answers an offer. The result is the window, the panes that
    /// are to go, and what the state of a drag is told then; an answer that cannot
    /// be right is shown in the window instead.
    pub fn finish_outgoing_transfer(
        &mut self,
        windows: &Vec<WindowFacts>,
        transfer_id: u128,
        result: Result<Vec<u64>, String>,
    ) -> (r: Option<(u64, Vec<usize>, TabDragEvent)>)
        ensures
            match old(self)@.outgoing_at(transfer_id, 0) {
                None => r is None && final(self)@ == old(self)@,
                Some(at) => {
                    let offer = old(self)@.outgoing[at];
                    let rest = ApplicationModel {
                        outgoing: old(self)@.outgoing.remove(at),
                        ..old(self)@
                    };
                    &&& 0 <= at < old(self)@.outgoing.len()
                    &&& offer.transfer_id == transfer_id
                    &&& match outgoing_result(offer.source_routes, result) {
                        Ok(routes) => {
                            &&& r matches Some((window, list, told)) && window
                                == offer.source_window && list@ == routes && told
                                == TabDragEvent::ForeignCommitted(transfer_id)
                            &&& final(self)@ == rest
                        },
                        Err(error) => {
                            &&& r is None
                            &&& final(self)@ == rest.failed(windows@, offer.source_window, error)
                        },
                    }
                },
            },
    {
        let ghost before = self@;
        let mut index: usize = 0;
        while index < self.pending_outgoing.len()
            invariant
                index <= self.pending_outgoing@.len(),
                self@ == before,
                before == old(self)@,
                before.outgoing_at(transfer_id, 0) == before.outgoing_at(
                    transfer_id,
                    index as int,
                ),
            decreases self.pending_outgoing@.len() - index,
        {
            proof {
                assert(before.outgoing[index as int] == self.pending_outgoing@[index as int]@);
            }
            if self.pending_outgoing[index].transfer_id == transfer_id {
                let pending: PendingOutgoing = self.pending_outgoing.remove(index);
                proof {
                    assert(before.outgoing_at(transfer_id, 0) == Some(index as int));
                    assert(self@.outgoing =~= before.outgoing.remove(index as int));
                    assert(self@ =~= (ApplicationModel {
                        outgoing: before.outgoing.remove(index as int),
                        ..before
                    }));
                }
                return match result {
                    Ok(routes) => match validate_committed_routes(
                        pending.source_routes.as_slice(),
                        routes,
                    ) {
                        Ok(list) => Some(
                            (
                                pending.source_window,
                                list,
                                TabDragEvent::ForeignCommitted(transfer_id),
                            ),
                        ),
                        Err(error) => {
                            self.show_merge_error(windows, pending.source_window, error);
                            None
                        },
                    },
                    Err(error) => {
                        self.show_merge_error(windows, pending.source_window, error);
                        None
                    },
                };
            }
            index += 1;
        }
        None
    }

    /// Panes that another program took leave the window; one that is left
    /// without tabs goes, and the program may end.
    pub fn apply_outgoing_transfer(
        &mut self,
        manager: &mut ContextManager,
        window: u64,
        routes: Vec<usize>,
    )
        requires
            old(manager)@.well_formed(),
        ensures
            final(manager)@.well_formed(),
            final(manager)@ == transferred_away(old(manager)@, routes@),
            final(self)@ == old(self)@.gone(window, routes@, final(manager)@.tabs.len() == 0),
    {
        manager.remove_transferred_routes(&routes);
        self.emit(Effect::DiscardRoutes(window, routes));
        if manager.is_empty() {
            self.clear_merge_if_window(window);
            self.emit(Effect::RemoveWindow(window));
            let ghost rest = self@;
            self.exit_after_transfer = true;
            proof {
                assert(self@ =~= (ApplicationModel { exit_after_transfer: true, ..rest }));
            }
        } else {
            self.emit(Effect::Refresh(window));
            self.emit(Effect::Redraw(window));
        }
    }
}

/// Whatever of an offer was not committed is removed, and nothing else: a pane
/// is among those that are removed just where it was not committed.
pub proof fn law_every_pane_is_committed_or_removed(
    routes: Seq<PendingPreparedRoute>,
    done: int,
    n: int,
    k: int,
)
    requires
        0 <= done <= routes.len(),
        0 <= k < n <= routes.len(),
    ensures
        uncommitted_of(routes, done, n).contains(routes[k].target_route) <==> !(exists|i: int|
            0 <= i < done && (#[trigger] routes[i]).target_route == routes[k].target_route),
    decreases n,
{
    let rest = uncommitted_of(routes, done, n - 1);
    let all = uncommitted_of(routes, done, n);
    let route = routes[k].target_route;
    if all.len() > rest.len() {
        assert(all == rest.push(routes[n - 1].target_route));
        assert(all.last() == routes[n - 1].target_route);
        assert forall|i: int| 0 <= i < rest.len() implies rest[i] == all[i] by {}
    }
    if k < n - 1 {
        law_every_pane_is_committed_or_removed(routes, done, n - 1, k);
        if rest.contains(route) {
            let i = choose|i: int| 0 <= i < rest.len() && rest[i] == route;
            assert(all[i] == route);
        }
        if all.contains(route) {
            let i = choose|i: int| 0 <= i < all.len() && all[i] == route;
            if i < rest.len() {
                assert(rest[i] == route);
            }
        }
    } else {
        lemma_uncommitted_avoids(routes, done, n - 1, route);
        if all.contains(route) {
            let i = choose|i: int| 0 <= i < all.len() && all[i] == route;
            if i < rest.len() {
                assert(rest.contains(route));
            }
        }
    }
}

proof fn lemma_uncommitted_avoids(
    routes: Seq<PendingPreparedRoute>,
    done: int,
    n: int,
    route: usize,
)
    requires
        0 <= n <= routes.len(),
    ensures
        uncommitted_of(routes, done, n).contains(route) ==> !(exists|i: int|
            0 <= i < done && (#[trigger] routes[i]).target_route == route),
    decreases n,
{
    if n > 0 {
        lemma_uncommitted_avoids(routes, done, n - 1, route);
        let rest = uncommitted_of(routes, done, n - 1);
        let all = uncommitted_of(routes, done, n);
        if all.contains(route) {
            let i = choose|i: int| 0 <= i < all.len() && all[i] == route;
            if i < rest.len() {
                assert(rest[i] == route);
                assert(rest.contains(route));
            }
        }
    }
}

} // verus!
