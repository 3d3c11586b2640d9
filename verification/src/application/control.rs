//! What other programs ask for and answer.

use crate::application::drag::TabDragEvent;
use crate::application::merge::MERGE_SELECTION_TIMEOUT;
use crate::application::outbox::{
    find_window, window_of, Effect, EffectModel, Response, ResponseModel, WindowEndpoint,
    WindowFacts,
};
use crate::application::state::{Application, ApplicationModel};
use vstd::prelude::*;

verus! {

/// What came in from another program. `reply` is the number that an answer goes
/// under.
pub enum ControlEvent {
    DragResult { transfer_id: u128, result: Result<(), String> },
    Probe { window: u64, reply: u64 },
    /// Windows of other programs were found; the number is for a merge with them.
    Peers { window: u64, targets: Vec<WindowEndpoint>, selection_id: u128 },
    IncomingOffer { target_window: Option<u64> },
    OfferResult { transfer_id: u128, result: Result<Vec<u64>, String> },
    ArmSelection { window: u64, selection_id: u128, source: WindowEndpoint, reply: u64 },
    CancelSelection { window: u64, selection_id: u128 },
    Selection { selection_id: u128, target_window: u64, target_index: u32, clicked: bool },
    ArmSelectionResult { selection_id: u128, target: WindowEndpoint, armed: bool },
}

/// What is left to do for whoever holds the windows.
pub enum ControlTask {
    Nothing,
    /// Prepares the sessions of an offer, and wakes the loop for this window then.
    Prepare(Option<u64>),
    /// Panes leave a window; the state of a drag is told that another program
    /// took them.
    Remove(u64, Vec<usize>, TabDragEvent),
}

/// The window that is woken once an offer is prepared.
pub open spec fn wake_window(windows: Seq<WindowFacts>, target: Option<u64>) -> Option<u64> {
    match target {
        Some(window) => Some(window),
        None => if windows.len() > 0 {
            Some(windows[0].id)
        } else {
            None
        },
    }
}

impl ApplicationModel {
    /// A program asks whether a window is there.
    pub open spec fn probe_answered(self, windows: Seq<WindowFacts>, window: u64, reply: u64) -> ApplicationModel {
        self.replied(
            reply,
            if window_of(windows, window) is Some {
                ResponseModel::Hello
            } else {
                ResponseModel::Rejected("window is gone"@)
            },
        )
    }
}

impl Application {
    /// Takes what came in from another program.
    pub fn handle_control_event(
        &mut self,
        windows: &Vec<WindowFacts>,
        event: ControlEvent,
        now: u64,
    ) -> (r: ControlTask)
        requires
            now + MERGE_SELECTION_TIMEOUT <= u64::MAX,
            old(self)@.pending matches Some(pending) ==> pending.armed < usize::MAX,
        ensures
            match event {
                ControlEvent::DragResult { transfer_id, result } => r is Nothing && final(self)@
                    == old(self)@.foreign_resolved(
                    windows@,
                    transfer_id,
                    match result {
                        Ok(_) => None,
                        Err(error) => Some(error@),
                    },
                ),
                ControlEvent::Probe { window, reply } => r is Nothing && final(self)@
                    == old(self)@.probe_answered(windows@, window, reply),
                ControlEvent::Peers { window, targets, selection_id } => r is Nothing
                    && final(self)@ == if old(self)@.source != Some(window) || targets@.len()
                    == 0 {
                    old(self)@
                } else {
                    let armed = if old(self)@.control is Some {
                        old(self)@.selection_pending(
                            windows@,
                            window,
                            targets@,
                            selection_id,
                            now,
                        )
                    } else {
                        old(self)@
                    };
                    if window_of(windows@, window) is Some {
                        armed.emitting(EffectModel::Redraw(window))
                    } else {
                        armed
                    }
                },
                ControlEvent::IncomingOffer { target_window } => final(self)@ == old(self)@ && r
                    == ControlTask::Prepare(wake_window(windows@, target_window)),
                ControlEvent::OfferResult { transfer_id, result } => match old(self)@.outgoing_at(transfer_id, 0) {
                    None => r is Nothing && final(self)@ == old(self)@,
                    Some(at) => {
                        let offer = old(self)@.outgoing[at];
                        let rest = ApplicationModel {
                            outgoing: old(self)@.outgoing.remove(at),
                            ..old(self)@
                        };
                        match crate::application::import::outgoing_result(
                            offer.source_routes,
                            result,
                        ) {
                            Ok(routes) => (r matches ControlTask::Remove(window, list, told)
                                && window == offer.source_window && list@ == routes && told
                                == TabDragEvent::ForeignCommitted(transfer_id)) && final(self)@
                                == rest,
                            Err(error) => r is Nothing && final(self)@ == rest.failed(
                                windows@,
                                offer.source_window,
                                error,
                            ),
                        }
                    },
                },
                ControlEvent::ArmSelection { window, selection_id, source, reply } => r is Nothing
                    && final(self)@ == old(self)@.arming(
                    windows@,
                    window,
                    selection_id,
                    source,
                    reply,
                    now,
                ),
                ControlEvent::CancelSelection { window, selection_id } => r is Nothing
                    && final(self)@ == if old(self)@.pending matches Some(pending)
                    && pending.selection_id == selection_id {
                    old(self)@.merge_cleared()
                } else if old(self)@.armed matches Some(armed) && armed.target_window == window
                    && armed.selection_id == selection_id {
                    old(self)@.armed_cleared()
                } else {
                    old(self)@
                },
                ControlEvent::Selection { selection_id, target_window, target_index, clicked } => r
                    is Nothing && final(self)@ == old(self)@.selection_told(
                    selection_id,
                    target_window,
                    target_index,
                    clicked,
                ),
                ControlEvent::ArmSelectionResult { selection_id, target, armed } => r is Nothing
                    && final(self)@ == old(self)@.arm_answered(selection_id, target, armed),
            },
    {
        match event {
            ControlEvent::DragResult { transfer_id, result } => {
                self.resolve_foreign_drag(windows, transfer_id, result);
                ControlTask::Nothing
            },
            ControlEvent::Probe { window, reply } => {
                if find_window(windows, window).is_some() {
                    self.emit(Effect::Reply(reply, Response::Hello));
                } else {
                    self.refuse(reply, "window is gone");
                }
                ControlTask::Nothing
            },
            ControlEvent::Peers { window, targets, selection_id } => {
                self.arm_discovered_merge_targets(windows, window, targets, selection_id, now);
                ControlTask::Nothing
            },
            ControlEvent::IncomingOffer { target_window } => {
                let woken: Option<u64> = match target_window {
                    Some(window) => Some(window),
                    None => if windows.len() > 0 {
                        Some(windows[0].id)
                    } else {
                        None
                    },
                };
                ControlTask::Prepare(woken)
            },
            ControlEvent::OfferResult { transfer_id, result } => {
                match self.finish_outgoing_transfer(windows, transfer_id, result) {
                    Some((window, routes, told)) => ControlTask::Remove(window, routes, told),
                    None => ControlTask::Nothing,
                }
            },
            ControlEvent::ArmSelection { window, selection_id, source, reply } => {
                self.handle_arm_selection(windows, window, selection_id, source, reply, now);
                ControlTask::Nothing
            },
            ControlEvent::CancelSelection { window, selection_id } => {
                self.handle_cancel_selection(window, selection_id);
                ControlTask::Nothing
            },
            ControlEvent::Selection { selection_id, target_window, target_index, clicked } => {
                self.handle_selection_event(selection_id, target_window, target_index, clicked);
                ControlTask::Nothing
            },
            ControlEvent::ArmSelectionResult { selection_id, target, armed } => {
                self.handle_arm_selection_result(selection_id, target, armed);
                ControlTask::Nothing
            },
        }
    }
}

} // verus!
