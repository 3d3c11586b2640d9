//! The steps of a drag: what its state asks for, and how it ends.

use crate::application::drag::{
    DeferredTabDragClose, Outcome, OwnerRoute, TabDrag, TabDragEvent, TabDragLifecycle,
};
use crate::application::outbox::{find_window, window_of, Effect, EffectModel, WindowFacts};
use crate::application::state::{Application, ApplicationModel};
use crate::application::transfer::{is_received, is_received_whole, transfer_window_to_target};
use crate::context::handover::{
    is_tab_offer, is_window_offer, GridTransfer, OfferError, TransferOffer,
};
use crate::context::manager::{all_routes, tab_with_id, ContextManager, ManagerModel};
use crate::context::tab::routes_of;
use crate::renderer::frame::WindowOverlay;
use std::collections::VecDeque;
use vstd::prelude::*;

verus! {

/// What the state of a drag asks for.
#[derive(Clone, Copy, Debug, PartialEq, Eq, Structural)]
pub enum TabDragCommand {
    PrepareSource,
    StartSourceOwner,
    AcceptOffer,
    RejectOffer(u64, u64),
    ReceiveData,
    MoveOwnerToTarget,
    FinishOffer,
    CancelOffer,
    CancelSource,
}

/// What is asked of the window system, of another program, or of the windows.
#[derive(Clone, Copy, Debug, PartialEq, Eq, Structural)]
pub enum DragRequest {
    Prepare(u64),
    /// Publishes what is dragged, if other programs can be reached, and starts.
    Start(u64, u64),
    Accept(u64, u64),
    Receive(u64, u64),
    /// Asks another program for what it dropped: token, window and position.
    TakeOffer(u128, u64, usize),
    MoveTab(u64, usize),
    MoveWindow(u64, usize),
    Finish(u64, u64),
}

/// What to do about what the state of a drag asks for.
pub enum DragPlan {
    Nothing,
    Ask(DragRequest),
    Tell(TabDragEvent),
}

impl TabDrag {
    /// What a command needs is there.
    pub open spec fn can_do(&self, command: TabDragCommand) -> bool {
        match command {
            TabDragCommand::StartSourceOwner => self.drag_id is Some,
            TabDragCommand::AcceptOffer => self.hover is Some,
            TabDragCommand::ReceiveData => self.hover is Some,
            TabDragCommand::MoveOwnerToTarget => self.hover is Some && self.owner is Some,
            TabDragCommand::FinishOffer => self.hover is Some,
            TabDragCommand::CancelSource => self.drag_id is Some,
            _ => true,
        }
    }
}

impl ApplicationModel {
    /// What is done at once about what the state of a drag asks for, and what
    /// is asked for in turn.
    pub open spec fn drag_commanded(
        self,
        windows: Seq<WindowFacts>,
        drag: TabDrag,
        command: TabDragCommand,
    ) -> (ApplicationModel, DragPlan) {
        let source_open = window_of(windows, drag.source_window) is Some;
        let hover = drag.hover->0;
        let target_open = window_of(windows, hover.target_window) is Some;
        match command {
            TabDragCommand::PrepareSource => (
                self,
                if source_open {
                    DragPlan::Ask(DragRequest::Prepare(drag.source_window))
                } else {
                    DragPlan::Tell(TabDragEvent::PrepareFailed)
                },
            ),
            TabDragCommand::StartSourceOwner => (
                self,
                if source_open {
                    DragPlan::Ask(DragRequest::Start(drag.source_window, drag.drag_id->0))
                } else {
                    DragPlan::Tell(TabDragEvent::OwnerStartFailed(drag.drag_id->0))
                },
            ),
            TabDragCommand::AcceptOffer => (
                self,
                if target_open {
                    DragPlan::Ask(DragRequest::Accept(hover.target_window, hover.offer_id))
                } else {
                    DragPlan::Tell(TabDragEvent::TargetRejected)
                },
            ),
            TabDragCommand::RejectOffer(offer, window) => (
                self.emitting(EffectModel::RejectDrag(window, offer)),
                DragPlan::Nothing,
            ),
            TabDragCommand::ReceiveData => (
                self,
                if target_open {
                    DragPlan::Ask(DragRequest::Receive(hover.target_window, hover.offer_id))
                } else {
                    DragPlan::Tell(TabDragEvent::DataFailed(hover.offer_id))
                },
            ),
            TabDragCommand::MoveOwnerToTarget => (
                self,
                DragPlan::Ask(
                    if self.control is Some && !target_open {
                        DragRequest::TakeOffer(drag.token, hover.target_window, hover.index)
                    } else if drag.whole_window {
                        DragRequest::MoveWindow(hover.target_window, hover.index)
                    } else {
                        DragRequest::MoveTab(hover.target_window, hover.index)
                    },
                ),
            ),
            TabDragCommand::FinishOffer => (
                self,
                if target_open {
                    DragPlan::Ask(DragRequest::Finish(hover.target_window, hover.offer_id))
                } else {
                    DragPlan::Tell(TabDragEvent::OfferCancelled(hover.offer_id))
                },
            ),
            TabDragCommand::CancelOffer => if drag.hover is Some {
                (
                    self.emitting(EffectModel::CancelDrag(hover.target_window, hover.offer_id)),
                    DragPlan::Tell(TabDragEvent::OfferCancelled(hover.offer_id)),
                )
            } else {
                (self, DragPlan::Nothing)
            },
            TabDragCommand::CancelSource => (
                self.emitting(
                    EffectModel::CancelDragSource(drag.source_window, drag.drag_id->0),
                ),
                DragPlan::Nothing,
            ),
        }
    }

    /// What a request that was granted, or was not, comes to. `given` is the
    /// number of a drag that was prepared.
    pub open spec fn drag_answered(
        self,
        request: DragRequest,
        granted: bool,
        given: u64,
    ) -> (ApplicationModel, Option<TabDragEvent>) {
        match request {
            DragRequest::Prepare(window) => (
                self,
                Some(
                    if granted {
                        TabDragEvent::Prepared(given)
                    } else {
                        TabDragEvent::PrepareFailed
                    },
                ),
            ),
            DragRequest::Start(window, id) => (
                self,
                if granted {
                    None
                } else {
                    Some(TabDragEvent::OwnerStartFailed(id))
                },
            ),
            DragRequest::Accept(window, offer) => (
                self,
                if granted {
                    None
                } else {
                    Some(TabDragEvent::TargetRejected)
                },
            ),
            DragRequest::Receive(window, offer) => if granted {
                (self, None)
            } else {
                (
                    self.emitting(EffectModel::CancelDrag(window, offer)),
                    Some(TabDragEvent::DataFailed(offer)),
                )
            },
            DragRequest::Finish(window, offer) => if granted {
                (self, None)
            } else {
                (
                    self.emitting(EffectModel::CancelDrag(window, offer)),
                    Some(TabDragEvent::OfferCancelled(offer)),
                )
            },
            DragRequest::TakeOffer(token, window, index) => (self, Some(moved_event(granted))),
            DragRequest::MoveTab(window, index) => (self, Some(moved_event(granted))),
            DragRequest::MoveWindow(window, index) => (self, Some(moved_event(granted))),
        }
    }

    /// Nothing of a drag that has ended is seen any more.
    pub open spec fn drag_unshown(self, drag: TabDrag) -> ApplicationModel {
        let source = drag.source_window;
        let a = if drag.lifecycle != TabDragLifecycle::Complete(Outcome::Moved) && self.control
            is Some {
            self.emitting(EffectModel::WithdrawOffer(drag.token))
        } else {
            self
        };
        let b = a.emitting(EffectModel::ResetDragInput(source)).emitting_all(
            owner_routes(drag).map_values(|r: usize| EffectModel::Unschedule(r)),
        ).marker_cleared().emitting(EffectModel::ClearSourceMarker(source));
        if drag.whole_window {
            b.overlaid(source, None)
        } else {
            b
        }
    }

    /// What becomes of what was dragged: a tab that was dropped outside gets a
    /// window of its own, and a window that was not taken goes on with its move.
    pub open spec fn drag_left(self, drag: TabDrag) -> ApplicationModel {
        let outside = drag.lifecycle == TabDragLifecycle::Complete(Outcome::Outside)
            || drag.lifecycle == TabDragLifecycle::Cancelled;
        let source = drag.source_window;
        let e = if !drag.whole_window && outside {
            self.emitting(EffectModel::Detach(source, drag.tab_id))
        } else {
            self
        };
        let f = if drag.whole_window && (outside || drag.lifecycle == TabDragLifecycle::Complete(
            Outcome::RolledBack,
        )) {
            e.emitting(EffectModel::ResumeWindowDrag(source, drag.frame_grab))
        } else {
            e
        };
        if self.retained is Some && self.deferred.contains(DeferredTabDragClose::Window(source)) {
            f.emitting(EffectModel::Reinstall(source))
        } else {
            f
        }
    }

    /// What was to be closed behind the drag is closed.
    pub open spec fn deferred_closed(self) -> ApplicationModel {
        (ApplicationModel { retained: None, deferred: Seq::empty(), ..self }).emitting_all(
            self.deferred.map_values(|c: DeferredTabDragClose| closing(c)),
        )
    }

    /// How a drag that has ended is wound up.
    pub open spec fn drag_ended(self, drag: TabDrag) -> ApplicationModel {
        (ApplicationModel {
            drag: None,
            detach_deadline: None,
            ..self.drag_unshown(drag)
        }).drag_left(drag).deferred_closed()
    }
}

/// The panes of the tab that is dragged.
pub open spec fn owner_routes(drag: TabDrag) -> Seq<usize> {
    match drag.owner {
        Some(owner) => owner.route_ids@,
        None => Seq::empty(),
    }
}

/// What closes what was to be closed.
pub open spec fn closing(close: DeferredTabDragClose) -> EffectModel {
    match close {
        DeferredTabDragClose::Terminal(route) => EffectModel::CloseTerminal(route),
        DeferredTabDragClose::Window(window) => EffectModel::CloseWindow(window),
    }
}

/// What a drag is told of a move that was made, or was not.
pub open spec fn moved_event(moved: bool) -> TabDragEvent {
    if moved {
        TabDragEvent::TargetCommitted
    } else {
        TabDragEvent::TargetRejected
    }
}

/// The commands of a drag, in the order in which they came.
pub struct DragRun {
    pub state: TabDrag,
    pub commands: VecDeque<TabDragCommand>,
}

impl DragRun {
    pub fn start(state: TabDrag, commands: Vec<TabDragCommand>) -> (r: Self)
        ensures
            r.state == state,
            r.commands@ == commands@,
    {
        let mut run = DragRun { state, commands: VecDeque::new() };
        run.add_commands(commands);
        proof {
            assert(run.commands@ =~= commands@);
        }
        run
    }

    fn add_commands(&mut self, commands: Vec<TabDragCommand>)
        ensures
            final(self).state == old(self).state,
            final(self).commands@ == old(self).commands@ + commands@,
    {
        let mut i: usize = 0;
        while i < commands.len()
            invariant
                i <= commands@.len(),
                self.state == old(self).state,
                self.commands@ == old(self).commands@ + commands@.take(i as int),
            decreases commands@.len() - i,
        {
            self.commands.push_back(commands[i]);
            i += 1;
            proof {
                assert(self.commands@ =~= old(self).commands@ + commands@.take(i as int));
            }
        }
        proof {
            assert(commands@.take(i as int) =~= commands@);
        }
    }

    /// The command that comes next, if there is one left.
    pub fn next(&mut self) -> (r: Option<TabDragCommand>)
        ensures
            final(self).state == old(self).state,
            match r {
                Some(command) => old(self).commands@.len() > 0 && command
                    == old(self).commands@[0] && final(self).commands@
                    == old(self).commands@.skip(1),
                None => old(self).commands@.len() == 0 && final(self).commands@
                    == old(self).commands@,
            },
    {
        let r: Option<TabDragCommand> = self.commands.pop_front();
        proof {
            if r is Some {
                assert(self.commands@ =~= old(self).commands@.skip(1));
            }
        }
        r
    }

    /// The state was told of an answer: its new commands come behind those
    /// that are left.
    pub fn told(&mut self, state: TabDrag, commands: Vec<TabDragCommand>)
        ensures
            final(self).state == state,
            final(self).commands@ == old(self).commands@ + commands@,
    {
        self.state = state;
        self.add_commands(commands);
    }
}

/// What other programs are offered of a drag: the window's tabs, or one.
pub fn offer_dragged(manager: &ContextManager, drag: &TabDrag) -> (r: Result<
    TransferOffer,
    OfferError,
>)
    requires
        manager@.well_formed(),
    ensures
        drag.whole_window ==> is_window_offer(manager@, drag.token, r),
        !drag.whole_window ==> is_tab_offer(manager@, drag.original_index, drag.token, r),
{
    if drag.whole_window {
        manager.transfer_window_offer(drag.token)
    } else {
        manager.transfer_offer(drag.original_index, drag.token)
    }
}

/// Where a drag comes from, and the panes that it takes along: those of the
/// window, or those of its current tab.
pub fn owner_of(manager: &ContextManager, drag: &TabDrag) -> (r: OwnerRoute)
    requires
        manager@.well_formed(),
        manager@.tabs.len() > 0,
    ensures
        r.window_id == drag.source_window,
        r.tab_id == drag.tab_id,
        r.route_ids@ == if drag.whole_window {
            all_routes(manager@.tabs, manager@.tabs.len() as int)
        } else {
            routes_of(manager@.current_tab().panes)
        },
{
    let route_ids: Vec<usize> = if drag.whole_window {
        manager.route_ids()
    } else {
        manager.current_grid().route_ids()
    };
    OwnerRoute { window_id: drag.source_window, tab_id: drag.tab_id, route_ids }
}

fn same_routes(a: &Vec<usize>, b: &Vec<usize>) -> (r: bool)
    ensures
        r == (a@ == b@),
{
    if a.len() != b.len() {
        return false;
    }
    let mut i: usize = 0;
    while i < a.len()
        invariant
            i <= a@.len() == b@.len(),
            forall|j: int| 0 <= j < i ==> a@[j] == b@[j],
        decreases a@.len() - i,
    {
        if a[i] != b[i] {
            return false;
        }
        i += 1;
    }
    proof {
        assert(a@ =~= b@);
    }
    true
}

/// A dragged window may be moved: it still has the panes that it was dragged with.
pub fn owns_window(owner: &OwnerRoute, target_window: u64, terminal: bool, manager: &ContextManager) -> (r:
    bool)
    requires
        manager@.well_formed(),
    ensures
        r == (owner.window_id != target_window && terminal && owner.route_ids@ == all_routes(
            manager@.tabs,
            manager@.tabs.len() as int,
        )),
{
    owner.window_id != target_window && terminal && same_routes(
        &owner.route_ids,
        &manager.route_ids(),
    )
}

/// A tab that was taken out is where it was.
pub open spec fn is_put_back(now: ManagerModel, before: ManagerModel, at: int) -> bool {
    is_received(now, before.without_tab(at).damaged(), before.tabs[at], at)
}

/// Moves a dragged tab into another window, if it still has the panes that it
/// was dragged with. A tab that the other window refuses goes back.
pub fn move_dragged_tab(
    owner: &OwnerRoute,
    source: &mut ContextManager,
    target: &mut ContextManager,
    index: usize,
) -> (r: bool)
    requires
        old(source)@.well_formed(),
        old(source)@.tabs.len() <= old(source)@.capacity,
        old(target)@.well_formed(),
    ensures
        final(source)@.well_formed(),
        final(target)@.well_formed(),
        match tab_with_id(old(source)@.tabs, owner.tab_id, 0) {
            None => !r && final(source)@ == old(source)@ && final(target)@ == old(target)@,
            Some(at) => {
                let tab = old(source)@.tabs[at];
                &&& 0 <= at < old(source)@.tabs.len()
                &&& r == (routes_of(tab.panes) == owner.route_ids@ && old(target)@.tabs.len()
                    < old(target)@.capacity && index <= old(target)@.tabs.len())
                &&& r ==> final(source)@ == old(source)@.without_tab(at).damaged() && is_received(
                    final(target)@,
                    old(target)@,
                    tab,
                    index as int,
                )
                &&& !r ==> final(target)@ == old(target)@ && is_put_back(
                    final(source)@,
                    old(source)@,
                    at,
                )
            },
        },
{
    let ghost before = source@;
    let at: usize = match source.tab_index(owner.tab_id) {
        Some(at) => at,
        None => {
            return false;
        },
    };
    let transfer: GridTransfer = match source.extract_grid(at) {
        Some(transfer) => transfer,
        None => {
            return false;
        },
    };
    let ghost left = source@;
    let ghost moved = transfer.grid@;
    if !same_routes(&transfer.route_ids(), &owner.route_ids) {
        match source.insert_grid(at, transfer) {
            Ok(_) => {},
            Err(_) => {},
        }
        proof {
            assert(is_received(source@, left, moved, at as int));
        }
        return false;
    }
    match target.insert_grid(index, transfer) {
        Ok(_) => {
            proof {
                assert(is_received(target@, old(target)@, moved, index as int));
            }
            true
        },
        Err(back) => {
            match source.insert_grid(at, back) {
                Ok(_) => {},
                Err(_) => {},
            }
            proof {
                assert(is_received(source@, left, moved, at as int));
            }
            false
        },
    }
}

/// What is dragged out of a window.
#[derive(Clone, Copy, Debug, PartialEq, Eq, Structural)]
pub enum DragHandoff {
    Tab(u64),
    Window,
}

/// What becomes of a drag out of a window.
#[derive(Clone, Copy, Debug, PartialEq, Eq, Structural)]
pub enum ExternalDrag {
    /// There is none.
    No,
    /// It was dealt with.
    Done,
    /// A drag of a tab starts: its number, its position, and how many there are.
    BeginTab(u64, usize, usize),
    /// A drag of the window starts: its current tab, its position, and how many
    /// there are.
    BeginWindow(u64, usize, usize),
}

impl ApplicationModel {
    /// What becomes of a drag out of a window that shows its terminal.
    pub open spec fn dragged_out(
        self,
        manager: ManagerModel,
        source: u64,
        supported: bool,
        handoff: DragHandoff,
    ) -> (ApplicationModel, ExternalDrag) {
        let ended = self.emitting(EffectModel::CancelIslandDrag(source));
        match handoff {
            DragHandoff::Tab(tab) => if !supported {
                (ended.emitting(EffectModel::Detach(source, tab)), ExternalDrag::Done)
            } else {
                match tab_with_id(manager.tabs, tab, 0) {
                    Some(at) => (
                        self,
                        ExternalDrag::BeginTab(tab, at as usize, manager.tabs.len() as usize),
                    ),
                    None => (ended, ExternalDrag::No),
                }
            },
            DragHandoff::Window => if !supported || manager.tabs.len() == 0 {
                (ended, ExternalDrag::No)
            } else {
                (
                    self,
                    ExternalDrag::BeginWindow(
                        manager.current_tab().id,
                        manager.current_index as usize,
                        manager.tabs.len() as usize,
                    ),
                )
            },
        }
    }
}

impl Application {
    /// Does what the state of a drag asks for, or asks for it in turn.
    pub fn execute_tab_drag_command(
        &mut self,
        windows: &Vec<WindowFacts>,
        drag: &TabDrag,
        command: TabDragCommand,
    ) -> (r: DragPlan)
        requires
            drag.can_do(command),
        ensures
            (final(self)@, r) == old(self)@.drag_commanded(windows@, *drag, command),
    {
        let source_open: bool = find_window(windows, drag.source_window).is_some();
        let target_open: bool = match &drag.hover {
            Some(hover) => find_window(windows, hover.target_window).is_some(),
            None => false,
        };
        match command {
            TabDragCommand::PrepareSource => if source_open {
                DragPlan::Ask(DragRequest::Prepare(drag.source_window))
            } else {
                DragPlan::Tell(TabDragEvent::PrepareFailed)
            },
            TabDragCommand::StartSourceOwner => match drag.drag_id {
                Some(id) => if source_open {
                    DragPlan::Ask(DragRequest::Start(drag.source_window, id))
                } else {
                    DragPlan::Tell(TabDragEvent::OwnerStartFailed(id))
                },
                None => DragPlan::Nothing,
            },
            TabDragCommand::AcceptOffer => match drag.hover {
                Some(hover) => if target_open {
                    DragPlan::Ask(DragRequest::Accept(hover.target_window, hover.offer_id))
                } else {
                    DragPlan::Tell(TabDragEvent::TargetRejected)
                },
                None => DragPlan::Nothing,
            },
            TabDragCommand::RejectOffer(offer, window) => {
                self.emit(Effect::RejectDrag(window, offer));
                DragPlan::Nothing
            },
            TabDragCommand::ReceiveData => match drag.hover {
                Some(hover) => if target_open {
                    DragPlan::Ask(DragRequest::Receive(hover.target_window, hover.offer_id))
                } else {
                    DragPlan::Tell(TabDragEvent::DataFailed(hover.offer_id))
                },
                None => DragPlan::Nothing,
            },
            TabDragCommand::MoveOwnerToTarget => match drag.hover {
                Some(hover) => if self.control.is_some() && !target_open {
                    DragPlan::Ask(
                        DragRequest::TakeOffer(drag.token, hover.target_window, hover.index),
                    )
                } else if drag.whole_window {
                    DragPlan::Ask(DragRequest::MoveWindow(hover.target_window, hover.index))
                } else {
                    DragPlan::Ask(DragRequest::MoveTab(hover.target_window, hover.index))
                },
                None => DragPlan::Nothing,
            },
            TabDragCommand::FinishOffer => match drag.hover {
                Some(hover) => if target_open {
                    DragPlan::Ask(DragRequest::Finish(hover.target_window, hover.offer_id))
                } else {
                    DragPlan::Tell(TabDragEvent::OfferCancelled(hover.offer_id))
                },
                None => DragPlan::Nothing,
            },
            TabDragCommand::CancelOffer => match drag.hover {
                Some(hover) => {
                    self.emit(Effect::CancelDrag(hover.target_window, hover.offer_id));
                    DragPlan::Tell(TabDragEvent::OfferCancelled(hover.offer_id))
                },
                None => DragPlan::Nothing,
            },
            TabDragCommand::CancelSource => match drag.drag_id {
                Some(id) => {
                    self.emit(Effect::CancelDragSource(drag.source_window, id));
                    DragPlan::Nothing
                },
                None => DragPlan::Nothing,
            },
        }
    }

    /// Takes the answer to a request of a drag.
    pub fn answer_drag_request(&mut self, request: DragRequest, granted: bool, given: u64) -> (r:
        Option<TabDragEvent>)
        ensures
            (final(self)@, r) == old(self)@.drag_answered(request, granted, given),
    {
        match request {
            DragRequest::Prepare(_) => if granted {
                Some(TabDragEvent::Prepared(given))
            } else {
                Some(TabDragEvent::PrepareFailed)
            },
            DragRequest::Start(_, id) => if granted {
                None
            } else {
                Some(TabDragEvent::OwnerStartFailed(id))
            },
            DragRequest::Accept(_, _) => if granted {
                None
            } else {
                Some(TabDragEvent::TargetRejected)
            },
            DragRequest::Receive(window, offer) => if granted {
                None
            } else {
                self.emit(Effect::CancelDrag(window, offer));
                Some(TabDragEvent::DataFailed(offer))
            },
            DragRequest::Finish(window, offer) => if granted {
                None
            } else {
                self.emit(Effect::CancelDrag(window, offer));
                Some(TabDragEvent::OfferCancelled(offer))
            },
            _ => if granted {
                Some(TabDragEvent::TargetCommitted)
            } else {
                Some(TabDragEvent::TargetRejected)
            },
        }
    }

    /// A drag has started at the window system. What was published of it is
    /// remembered until another program answers.
    pub fn drag_owner_started(&mut self, drag: &TabDrag, id: u64, owner: OwnerRoute, published: Option<
        Vec<u64>,
    >) -> (r: TabDragEvent)
        ensures
            r == TabDragEvent::OwnerStarted(id, owner),
            final(self)@ == match published {
                Some(routes) => ApplicationModel {
                    outgoing: old(self)@.outgoing.push(
                        crate::application::state::OutgoingModel {
                            transfer_id: drag.token,
                            source_window: drag.source_window,
                            source_routes: routes@,
                        },
                    ),
                    ..old(self)@
                },
                None => old(self)@,
            },
    {
        if let Some(routes) = published {
            self.track_outgoing_offer(drag.token, drag.source_window, routes);
        }
        TabDragEvent::OwnerStarted(id, owner)
    }

    /// A window that a drag has emptied is kept until the drag ends.
    pub fn retain_tab_drag_owner(&mut self, window: u64)
        requires
            old(self)@.retained is None,
        ensures
            final(self)@ == (ApplicationModel {
                retained: Some(window),
                ..old(self)@.merge_cleared_if(window)
            }).emitting(EffectModel::Retain(window)),
    {
        self.clear_merge_if_window(window);
        let ghost before = self@;
        self.retained_tab_drag_owner = Some(window);
        proof {
            assert(self@ =~= (ApplicationModel { retained: Some(window), ..before }));
        }
        self.emit(Effect::Retain(window));
    }

    /// Moves a dragged tab into another window.
    pub fn move_owner_to_target(
        &mut self,
        owner: &OwnerRoute,
        source: &mut ContextManager,
        target: &mut ContextManager,
        target_window: u64,
        index: usize,
    ) -> (r: bool)
        requires
            old(self)@.retained is None,
            old(source)@.well_formed(),
            old(source)@.tabs.len() <= old(source)@.capacity,
            old(target)@.well_formed(),
        ensures
            final(source)@.well_formed(),
            final(target)@.well_formed(),
            r == (owner.window_id != target_window && (tab_with_id(
                old(source)@.tabs,
                owner.tab_id,
                0,
            ) matches Some(at) && routes_of(old(source)@.tabs[at].panes) == owner.route_ids@)
                && old(target)@.tabs.len() < old(target)@.capacity && index
                <= old(target)@.tabs.len()),
            !r ==> final(self)@ == old(self)@ && final(target)@ == old(target)@,
            !r ==> match tab_with_id(old(source)@.tabs, owner.tab_id, 0) {
                Some(at) => if owner.window_id == target_window {
                    final(source)@ == old(source)@
                } else {
                    is_put_back(final(source)@, old(source)@, at)
                },
                None => final(source)@ == old(source)@,
            },
            r ==> {
                let at = tab_with_id(old(source)@.tabs, owner.tab_id, 0)->0;
                let rest = old(self)@.emitting(EffectModel::ClearSourceMarker(owner.window_id));
                &&& final(source)@ == old(source)@.without_tab(at).damaged()
                &&& is_received(final(target)@, old(target)@, old(source)@.tabs[at], index as int)
                &&& final(self)@ == if final(source)@.tabs.len() > 0 {
                    rest.emitting(EffectModel::Refresh(owner.window_id)).emitting(
                        EffectModel::Redraw(owner.window_id),
                    )
                } else {
                    (ApplicationModel {
                        retained: Some(owner.window_id),
                        ..rest.merge_cleared_if(owner.window_id)
                    }).emitting(EffectModel::Retain(owner.window_id))
                }
            },
    {
        if owner.window_id == target_window {
            return false;
        }
        if !move_dragged_tab(owner, source, target, index) {
            return false;
        }
        self.emit(Effect::ClearSourceMarker(owner.window_id));
        if source.is_empty() {
            self.retain_tab_drag_owner(owner.window_id);
        } else {
            self.emit(Effect::Refresh(owner.window_id));
            self.emit(Effect::Redraw(owner.window_id));
        }
        true
    }

    /// Moves a dragged window into another one, with all its tabs. The window
    /// stays, without them, until the drag ends.
    pub fn move_window_owner_to_target(
        &mut self,
        owner: &OwnerRoute,
        source: &mut ContextManager,
        target: &mut ContextManager,
        source_terminal: bool,
        target_window: u64,
        target_terminal: bool,
        index: usize,
    ) -> (r: bool)
        requires
            old(self)@.retained is None,
            old(source)@.well_formed(),
            old(target)@.well_formed(),
        ensures
            final(source)@.well_formed(),
            final(target)@.well_formed(),
            r == (owner.window_id != target_window && source_terminal && target_terminal
                && owner.route_ids@ == all_routes(
                old(source)@.tabs,
                old(source)@.tabs.len() as int,
            ) && old(source)@.tabs.len() > 0 && index <= old(target)@.tabs.len() && old(
                source,
            )@.tabs.len() + old(target)@.tabs.len() <= old(target)@.capacity),
            !r ==> final(self)@ == old(self)@ && final(source)@ == old(source)@ && final(target)@
                == old(target)@,
            r ==> {
                &&& final(source)@ == (ManagerModel {
                    tabs: Seq::empty(),
                    current_index: 0,
                    ..old(source)@
                })
                &&& is_received_whole(final(target)@, old(target)@, old(source)@, index as int)
                &&& final(self)@ == (ApplicationModel {
                    retained: Some(owner.window_id),
                    ..old(self)@.merge_cleared_if(owner.window_id)
                }).emitting(EffectModel::Retain(owner.window_id))
            },
    {
        if !owns_window(owner, target_window, source_terminal, source) || !target_terminal {
            return false;
        }
        let moved: bool = transfer_window_to_target(source, target, index);
        if moved {
            self.retain_tab_drag_owner(owner.window_id);
        }
        moved
    }

    pub(crate) fn unschedule_all(&mut self, routes: &Vec<usize>)
        ensures
            final(self)@ == old(self)@.emitting_all(
                routes@.map_values(|r: usize| EffectModel::Unschedule(r)),
            ),
    {
        let ghost rest = self@;
        let ghost ending = |r: usize| EffectModel::Unschedule(r);
        proof {
            assert(rest.emitting_all(routes@.take(0).map_values(ending)) =~= rest);
        }
        let mut i: usize = 0;
        while i < routes.len()
            invariant
                i <= routes@.len(),
                ending == (|r: usize| EffectModel::Unschedule(r)),
                self@ == rest.emitting_all(routes@.take(i as int).map_values(ending)),
            decreases routes@.len() - i,
        {
            self.emit(Effect::Unschedule(routes[i]));
            proof {
                assert(routes@.take(i + 1).map_values(ending) =~= routes@.take(i as int).map_values(
                    ending,
                ).push(ending(routes@[i as int])));
                assert(self@ =~= rest.emitting_all(routes@.take(i + 1).map_values(ending)));
            }
            i += 1;
        }
        proof {
            assert(routes@.take(i as int) =~= routes@);
        }
    }

    fn close_all(&mut self, closes: &Vec<DeferredTabDragClose>)
        ensures
            final(self)@ == old(self)@.emitting_all(
                closes@.map_values(|c: DeferredTabDragClose| closing(c)),
            ),
    {
        let ghost rest = self@;
        let ghost ending = |c: DeferredTabDragClose| closing(c);
        proof {
            assert(rest.emitting_all(closes@.take(0).map_values(ending)) =~= rest);
        }
        let mut i: usize = 0;
        while i < closes.len()
            invariant
                i <= closes@.len(),
                ending == (|c: DeferredTabDragClose| closing(c)),
                self@ == rest.emitting_all(closes@.take(i as int).map_values(ending)),
            decreases closes@.len() - i,
        {
            match closes[i] {
                DeferredTabDragClose::Terminal(route) => {
                    self.emit(Effect::CloseTerminal(route));
                },
                DeferredTabDragClose::Window(window) => {
                    self.emit(Effect::CloseWindow(window));
                },
            }
            proof {
                assert(closes@.take(i + 1).map_values(ending) =~= closes@.take(i as int).map_values(
                    ending,
                ).push(ending(closes@[i as int])));
                assert(self@ =~= rest.emitting_all(closes@.take(i + 1).map_values(ending)));
            }
            i += 1;
        }
        proof {
            assert(closes@.take(i as int) =~= closes@);
        }
    }

    fn defers_window(&self, window: u64) -> (r: bool)
        ensures
            r == self@.deferred.contains(DeferredTabDragClose::Window(window)),
    {
        let close: DeferredTabDragClose = DeferredTabDragClose::Window(window);
        let mut i: usize = 0;
        while i < self.deferred_tab_drag_closes.len()
            invariant
                i <= self.deferred_tab_drag_closes@.len(),
                close == DeferredTabDragClose::Window(window),
                forall|j: int| 0 <= j < i ==> self.deferred_tab_drag_closes@[j] != close,
            decreases self.deferred_tab_drag_closes@.len() - i,
        {
            if self.deferred_tab_drag_closes[i] == close {
                assert(self@.deferred[i as int] == close);
                return true;
            }
            i += 1;
        }
        false
    }

    fn unshow_drag(&mut self, drag: &TabDrag)
        ensures
            final(self)@ == old(self)@.drag_unshown(*drag),
    {
        let moved: bool = match drag.lifecycle {
            TabDragLifecycle::Complete(outcome) => outcome == Outcome::Moved,
            _ => false,
        };
        let source: u64 = drag.source_window;
        if !moved && self.control.is_some() {
            self.emit(Effect::WithdrawOffer(drag.token));
        }
        self.emit(Effect::ResetDragInput(source));
        match &drag.owner {
            Some(owner) => {
                self.unschedule_all(&owner.route_ids);
            },
            None => {
                let none: Vec<usize> = Vec::new();
                self.unschedule_all(&none);
                proof {
                    assert(none@ =~= owner_routes(*drag));
                }
            },
        }
        self.clear_drop_marker();
        self.emit(Effect::ClearSourceMarker(source));
        if drag.whole_window {
            self.set_window_overlay(source, None);
        }
    }

    fn leave_drag(&mut self, drag: &TabDrag)
        ensures
            final(self)@ == old(self)@.drag_left(*drag),
    {
        let outside: bool = match drag.lifecycle {
            TabDragLifecycle::Complete(outcome) => outcome == Outcome::Outside,
            TabDragLifecycle::Cancelled => true,
            TabDragLifecycle::Active => false,
        };
        let rolled_back: bool = match drag.lifecycle {
            TabDragLifecycle::Complete(outcome) => outcome == Outcome::RolledBack,
            _ => false,
        };
        let source: u64 = drag.source_window;
        if !drag.whole_window && outside {
            self.emit(Effect::Detach(source, drag.tab_id));
        }
        if drag.whole_window && (outside || rolled_back) {
            self.emit(Effect::ResumeWindowDrag(source, drag.frame_grab));
        }
        if self.retained_tab_drag_owner.is_some() && self.defers_window(source) {
            self.emit(Effect::Reinstall(source));
        }
    }

    fn close_deferred(&mut self)
        ensures
            final(self)@ == old(self)@.deferred_closed(),
    {
        let ghost before = self@;
        self.retained_tab_drag_owner = None;
        let mut closes: Vec<DeferredTabDragClose> = Vec::new();
        core::mem::swap(&mut closes, &mut self.deferred_tab_drag_closes);
        proof {
            assert(self@ =~= (ApplicationModel {
                retained: None,
                deferred: Seq::empty(),
                ..before
            }));
            assert(closes@ == before.deferred);
        }
        self.close_all(&closes);
    }

    /// Winds a drag up that has ended.
    #[verifier::rlimit(30)]
    pub fn finish_terminal_tab_drag(&mut self)
        ensures
            final(self)@ == match old(self)@.drag {
                Some(drag) => if drag.has_ended() {
                    old(self)@.drag_ended(drag)
                } else {
                    old(self)@
                },
                None => old(self)@,
            },
    {
        let ghost before = self@;
        let mut taken: Option<TabDrag> = None;
        core::mem::swap(&mut taken, &mut self.tab_drag);
        let drag: TabDrag = match taken {
            Some(drag) => drag,
            None => {
                proof {
                    assert(self@ =~= before);
                }
                return;
            },
        };
        let active: bool = match drag.lifecycle {
            TabDragLifecycle::Active => true,
            _ => false,
        };
        if active {
            self.tab_drag = Some(drag);
            proof {
                assert(self@ =~= before);
            }
            return;
        }
        proof {
            assert(self@ =~= (ApplicationModel { drag: None, ..before }));
        }
        self.unshow_drag(&drag);
        let ghost unshown = self@;
        self.tab_drag_detach_deadline = None;
        proof {
            assert(self@ =~= (ApplicationModel { detach_deadline: None, ..unshown }));
            assert(self@ =~= (ApplicationModel {
                drag: None,
                detach_deadline: None,
                ..before.drag_unshown(drag)
            }));
        }
        self.leave_drag(&drag);
        self.close_deferred();
    }

    /// A drag may start out of a window: none is under way, and the window
    /// shows its terminal under a pressed button.
    pub fn may_start_external_drag(&self, windows: &Vec<WindowFacts>, source: u64, pressed: bool) -> (r:
        bool)
        ensures
            r == (self@.drag is None && (window_of(windows@, source) matches Some(facts)
                && facts.terminal) && pressed),
    {
        let shown: bool = match find_window(windows, source) {
            Some(facts) => facts.terminal,
            None => false,
        };
        self.tab_drag.is_none() && shown && pressed
    }

    /// What is dragged out of a window becomes a drag between windows, where
    /// the window system knows such; else a tab gets a window of its own.
    pub fn start_external_drag(
        &mut self,
        manager: &ContextManager,
        source: u64,
        supported: bool,
        handoff: DragHandoff,
    ) -> (r: ExternalDrag)
        requires
            manager@.well_formed(),
        ensures
            (final(self)@, r) == old(self)@.dragged_out(manager@, source, supported, handoff),
    {
        match handoff {
            DragHandoff::Tab(tab) => {
                if !supported {
                    self.emit(Effect::CancelIslandDrag(source));
                    self.emit(Effect::Detach(source, tab));
                    return ExternalDrag::Done;
                }
                match manager.tab_index(tab) {
                    Some(at) => ExternalDrag::BeginTab(tab, at, manager.len()),
                    None => {
                        self.emit(Effect::CancelIslandDrag(source));
                        ExternalDrag::No
                    },
                }
            },
            DragHandoff::Window => {
                if !supported || manager.is_empty() {
                    self.emit(Effect::CancelIslandDrag(source));
                    return ExternalDrag::No;
                }
                ExternalDrag::BeginWindow(
                    manager.current_grid().id(),
                    manager.current_index(),
                    manager.len(),
                )
            },
        }
    }

    /// A drag out of a window starts: the window is marked before the state of
    /// the drag is asked for anything.
    pub fn external_drag_begun(&mut self, source: u64, index: usize, whole_window: bool)
        ensures
            final(self)@ == (if whole_window {
                old(self)@.emitting(EffectModel::SourceMarker(source, index)).overlaid(
                    source,
                    Some(WindowOverlay::MergeSource),
                )
            } else {
                old(self)@.emitting(EffectModel::SourceMarker(source, index))
            }).emitting(EffectModel::CancelIslandDrag(source)),
    {
        self.emit(Effect::SourceMarker(source, index));
        if whole_window {
            self.set_window_overlay(source, Some(WindowOverlay::MergeSource));
        }
        self.emit(Effect::CancelIslandDrag(source));
    }

    /// A drag out of a window could not start: a tab gets a window of its own.
    pub fn external_drag_failed(&mut self, source: u64, tab: Option<u64>) -> (r: bool)
        ensures
            r == (tab is Some),
            final(self)@ == match tab {
                Some(tab) => old(self)@.emitting(EffectModel::CancelIslandDrag(source)).emitting(
                    EffectModel::Detach(source, tab),
                ),
                None => old(self)@.emitting(EffectModel::CancelIslandDrag(source)),
            },
    {
        self.emit(Effect::CancelIslandDrag(source));
        match tab {
            Some(tab) => {
                self.emit(Effect::Detach(source, tab));
                true
            },
            None => false,
        }
    }
}

/// Once a drag has ended nothing of it is left: no state, no deadline, no window
/// that is kept, nothing that is still to be closed.
pub proof fn law_ended_drag_leaves_nothing(app: ApplicationModel, drag: TabDrag)
    ensures
        app.drag_ended(drag).drag is None,
        app.drag_ended(drag).detach_deadline is None,
        app.drag_ended(drag).retained is None,
        app.drag_ended(drag).deferred.len() == 0,
        app.drag_ended(drag).drop_marker is None,
{
}

/// What was to be closed during a drag is closed when it ends, in the same order.
pub proof fn law_deferred_closes_are_made_up_for(app: ApplicationModel, drag: TabDrag)
    ensures
        app.drag_ended(drag).effects.len() >= app.deferred.len(),
        app.drag_ended(drag).effects.skip(
            app.drag_ended(drag).effects.len() - app.deferred.len(),
        ) == app.deferred.map_values(|c: DeferredTabDragClose| closing(c)),
{
    let all = app.drag_ended(drag).effects;
    let made = app.deferred.map_values(|c: DeferredTabDragClose| closing(c));
    assert(all.skip(all.len() - made.len()) =~= made);
}

} // verus!
