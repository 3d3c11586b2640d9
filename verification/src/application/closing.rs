//! The closing of panes and windows, and the end of the program.

use crate::application::outbox::{Effect, EffectModel};
use crate::application::state::{Application, ApplicationModel};
use crate::context::manager::{handle_models, ContextManager};
use crate::context::session::{HandleModel, SessionHandle};
use vstd::prelude::*;

verus! {

/// How long the end waits for the workers of closed sessions, in milliseconds.
pub const SESSION_CLOSE_TIMEOUT: u64 = 5_000;

/// Holds the end of the program back until closed sessions are let go of.
pub struct ExitGate {
    pub pending: Vec<SessionHandle>,
    /// The program is to end.
    pub exiting: bool,
    /// In milliseconds.
    pub deadline: Option<u64>,
}

/// The contents of a gate.
#[verifier::ext_equal]
pub struct GateModel {
    pub pending: Seq<HandleModel>,
    pub exiting: bool,
    pub deadline: Option<u64>,
}

impl View for ExitGate {
    type V = GateModel;

    open spec fn view(&self) -> GateModel {
        GateModel {
            pending: handle_models(self.pending@),
            exiting: self.exiting,
            deadline: self.deadline,
        }
    }
}

/// What to do about the end of the program.
#[derive(Clone, Copy, Debug, PartialEq, Eq, Structural)]
pub enum ExitStep {
    /// The program goes on.
    Running,
    /// The program waits for its end.
    Waiting,
    Exit,
}

/// The sessions among the first `n` whose pumps still run.
pub open spec fn running(sessions: Seq<HandleModel>, n: int) -> Seq<HandleModel>
    decreases n,
{
    if n <= 0 {
        Seq::empty()
    } else if sessions[n - 1].state.pump_done {
        running(sessions, n - 1)
    } else {
        running(sessions, n - 1).push(sessions[n - 1])
    }
}

impl ExitGate {
    pub fn new() -> (r: Self)
        ensures
            r@ == (GateModel { pending: Seq::empty(), exiting: false, deadline: None }),
    {
        let r = ExitGate { pending: Vec::new(), exiting: false, deadline: None };
        proof {
            assert(r@.pending =~= Seq::empty());
        }
        r
    }

    /// Sessions of a window that goes are waited for.
    pub fn await_sessions(&mut self, sessions: Vec<SessionHandle>)
        ensures
            final(self)@ == (GateModel {
                pending: old(self)@.pending + handle_models(sessions@),
                ..old(self)@
            }),
    {
        let ghost given = sessions@;
        let mut sessions: Vec<SessionHandle> = sessions;
        self.pending.append(&mut sessions);
        proof {
            assert(self@.pending =~= old(self)@.pending + handle_models(given));
        }
    }

    /// The last window is gone: the program ends once its sessions are.
    pub fn defer_exit_until_session_closes(&mut self, now: u64)
        requires
            now + SESSION_CLOSE_TIMEOUT <= u64::MAX,
        ensures
            final(self)@ == (GateModel {
                exiting: true,
                deadline: Some((now + SESSION_CLOSE_TIMEOUT) as u64),
                ..old(self)@
            }),
    {
        self.exiting = true;
        self.deadline = Some(now + SESSION_CLOSE_TIMEOUT);
    }

    /// A window went with its sessions. The program ends with the last one, unless
    /// it stays without windows.
    pub fn window_closed(
        &mut self,
        sessions: Vec<SessionHandle>,
        windows_left: usize,
        stays: bool,
        now: u64,
    )
        requires
            now + SESSION_CLOSE_TIMEOUT <= u64::MAX,
        ensures
            ({
                let waiting = GateModel {
                    pending: old(self)@.pending + handle_models(sessions@),
                    ..old(self)@
                };
                final(self)@ == if windows_left == 0 && !stays {
                    GateModel {
                        exiting: true,
                        deadline: Some((now + SESSION_CLOSE_TIMEOUT) as u64),
                        ..waiting
                    }
                } else {
                    waiting
                }
            }),
    {
        self.await_sessions(sessions);
        if windows_left == 0 && !stays {
            self.defer_exit_until_session_closes(now);
        }
    }

    /// Looks whether the program may end: all sessions are gone, or were waited
    /// for long enough.
    pub fn poll_deferred_session_exit(&mut self, now: u64) -> (r: ExitStep)
        ensures
            ({
                let rest = running(old(self)@.pending, old(self)@.pending.len() as int);
                let late = old(self)@.deadline matches Some(deadline) && deadline <= now;
                if !old(self)@.exiting {
                    r == ExitStep::Running && final(self)@ == old(self)@
                } else if rest.len() == 0 || late {
                    r == ExitStep::Exit && final(self)@ == (GateModel {
                        pending: rest,
                        exiting: false,
                        deadline: None,
                    })
                } else {
                    r == ExitStep::Waiting && final(self)@ == (GateModel {
                        pending: rest,
                        ..old(self)@
                    })
                }
            }),
    {
        if !self.exiting {
            return ExitStep::Running;
        }
        let ghost all = self@.pending;
        let ghost mut k: int = 0;
        let mut list: Vec<SessionHandle> = Vec::new();
        core::mem::swap(&mut list, &mut self.pending);
        let mut index: usize = 0;
        proof {
            assert(handle_models(list@) =~= running(all, 0) + all.skip(0));
        }
        while index < list.len()
            invariant
                0 <= k <= all.len(),
                index == running(all, k).len(),
                handle_models(list@) == running(all, k) + all.skip(k),
            decreases all.len() - k,
        {
            let ghost before = list@;
            proof {
                assert(handle_models(list@).len() == list@.len());
                assert(list@[index as int]@ == handle_models(list@)[index as int]);
                assert(list@[index as int]@ == all[k]);
            }
            if list[index].pump_done() {
                list.remove(index);
                proof {
                    assert(handle_models(list@) =~= handle_models(before).remove(index as int));
                }
            } else {
                index += 1;
            }
            proof {
                assert(handle_models(list@) =~= running(all, k + 1) + all.skip(k + 1));
                k = k + 1;
            }
        }
        proof {
            assert(handle_models(list@).len() == list@.len());
            assert(k == all.len());
            assert(handle_models(list@) =~= running(all, k));
        }
        core::mem::swap(&mut list, &mut self.pending);
        let late: bool = match self.deadline {
            Some(deadline) => deadline <= now,
            None => false,
        };
        if self.pending.len() == 0 || late {
            self.exiting = false;
            self.deadline = None;
            ExitStep::Exit
        } else {
            ExitStep::Waiting
        }
    }
}

impl ApplicationModel {
    /// A window goes.
    pub open spec fn window_removed(self, window: u64) -> ApplicationModel {
        self.merge_cleared_if(window).emitting(EffectModel::RemoveWindow(window))
    }

    /// A pane was closed, and its window went with it or not.
    pub open spec fn terminal_closed(self, window: u64, route: usize, emptied: bool) -> ApplicationModel {
        let rest = self.emitting(EffectModel::DiscardRoutes(window, seq![route]));
        if emptied {
            rest.emitting(EffectModel::Unschedule(route)).window_removed(window)
        } else {
            rest.emitting(EffectModel::Refresh(window)).emitting(
                EffectModel::Redraw(window),
            ).emitting(EffectModel::Unschedule(route))
        }
    }
}

impl Application {
    fn remove_window(&mut self, window: u64)
        ensures
            final(self)@ == old(self)@.window_removed(window),
    {
        self.clear_merge_if_window(window);
        self.emit(Effect::RemoveWindow(window));
    }

    /// Closes a pane. `true` where its window goes with it.
    pub fn close_terminal_at(&mut self, manager: &mut ContextManager, window: u64, route: usize) -> (r:
        bool)
        requires
            old(manager)@.well_formed(),
        ensures
            final(manager)@.well_formed(),
            final(manager)@ == old(manager)@.without_route(route),
            r == (final(manager)@.tabs.len() == 0),
            final(self)@ == old(self)@.terminal_closed(window, route, r),
    {
        let mut routes: Vec<usize> = Vec::new();
        routes.push(route);
        proof {
            assert(routes@ =~= seq![route]);
        }
        self.emit(Effect::DiscardRoutes(window, routes));
        let emptied: bool = manager.should_close_context_manager(route);
        if emptied {
            self.emit(Effect::Unschedule(route));
            self.remove_window(window);
        } else {
            self.emit(Effect::Refresh(window));
            self.emit(Effect::Redraw(window));
            self.emit(Effect::Unschedule(route));
        }
        emptied
    }

    /// A window is to be closed. Where that has to be confirmed the window asks
    /// first; `true` where it goes.
    pub fn perform_close_requested(&mut self, window: u64, routes: &Vec<usize>, confirm: bool) -> (r:
        bool)
        ensures
            r == !confirm,
            final(self)@ == if confirm {
                old(self)@.emitting(EffectModel::ConfirmQuit(window))
            } else {
                old(self)@.emitting_all(
                    routes@.map_values(|r: usize| EffectModel::Unschedule(r)),
                ).window_removed(window)
            },
    {
        if confirm {
            self.emit(Effect::ConfirmQuit(window));
            return false;
        }
        self.unschedule_all(routes);
        self.remove_window(window);
        true
    }
}

/// The program never ends while a session that it waits for is still running,
/// unless it has waited long enough; and it does not wait longer.
pub proof fn law_exit_waits_for_sessions(sessions: Seq<HandleModel>, n: int)
    requires
        0 <= n <= sessions.len(),
    ensures
        running(sessions, n).len() == 0 <==> forall|i: int|
            0 <= i < n ==> (#[trigger] sessions[i]).state.pump_done,
    decreases n,
{
    if n > 0 {
        law_exit_waits_for_sessions(sessions, n - 1);
        if running(sessions, n).len() == 0 {
            assert(sessions[n - 1].state.pump_done);
        }
        if !sessions[n - 1].state.pump_done {
            assert(running(sessions, n).len() > 0);
        }
    }
}

} // verus!
