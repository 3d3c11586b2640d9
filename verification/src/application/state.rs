//! The state that is shared by all windows.

use crate::application::drag::{DeferredTabDragClose, ForeignDrag, TabDrag};
use crate::application::merge::MergeHoverState;
use crate::application::outbox::{effect_models, Effect, EffectModel, WindowEndpoint};
use crate::context::protocol::SessionDescriptor;
use std::collections::HashSet;
use vstd::prelude::*;

verus! {

/// A merge that waits for one of the windows of other programs to be clicked.
pub struct PendingMergeSelection {
    pub selection_id: u128,
    pub source_window: u64,
    pub targets: Vec<WindowEndpoint>,
    /// How many targets can be clicked.
    pub armed: usize,
    /// The programs that answered.
    pub resolved: HashSet<u128>,
    /// In milliseconds.
    pub deadline: u64,
}

/// The contents of a waiting merge.
pub struct PendingModel {
    pub selection_id: u128,
    pub source_window: u64,
    pub targets: Seq<WindowEndpoint>,
    pub armed: usize,
    pub resolved: Set<u128>,
    pub deadline: u64,
}

impl View for PendingMergeSelection {
    type V = PendingModel;

    open spec fn view(&self) -> PendingModel {
        PendingModel {
            selection_id: self.selection_id,
            source_window: self.source_window,
            targets: self.targets@,
            armed: self.armed,
            resolved: self.resolved@,
            deadline: self.deadline,
        }
    }
}

/// A window here that another program may merge a tab into.
#[derive(Clone, Copy, Debug, PartialEq, Eq)]
pub struct ArmedMergeSelection {
    pub selection_id: u128,
    pub source: WindowEndpoint,
    pub target_window: u64,
    pub hover: MergeHoverState,
    /// In milliseconds.
    pub deadline: u64,
}

/// A session that can be recovered.
pub struct RecoveryCandidate {
    pub descriptor: SessionDescriptor,
    pub label: String,
}

/// The contents of a session that can be recovered.
pub struct CandidateModel {
    pub descriptor: SessionDescriptor,
    pub label: Seq<char>,
}

impl View for RecoveryCandidate {
    type V = CandidateModel;

    open spec fn view(&self) -> CandidateModel {
        CandidateModel { descriptor: self.descriptor, label: self.label@ }
    }
}

/// The contents of some sessions that can be recovered.
pub open spec fn candidate_models(list: Seq<RecoveryCandidate>) -> Seq<CandidateModel> {
    list.map_values(|c: RecoveryCandidate| c@)
}

/// Probes that are under way.
pub struct RecoveryProbeState {
    pub id: u64,
    pub source_window: u64,
    pub remaining: usize,
    pub candidates: Vec<RecoveryCandidate>,
}

/// The contents of probes that are under way.
pub struct ProbeModel {
    pub id: u64,
    pub source_window: u64,
    pub remaining: usize,
    pub candidates: Seq<CandidateModel>,
}

impl View for RecoveryProbeState {
    type V = ProbeModel;

    open spec fn view(&self) -> ProbeModel {
        ProbeModel {
            id: self.id,
            source_window: self.source_window,
            remaining: self.remaining,
            candidates: candidate_models(self.candidates@),
        }
    }
}

/// A pane that was taken over and is not shown yet.
#[derive(Clone, Copy, Debug, PartialEq, Eq, Structural)]
pub struct PendingPreparedRoute {
    /// Its number in the window it came from, if it came from one.
    pub source_route: Option<u64>,
    pub target_route: usize,
}

/// What follows once panes that were taken over are shown.
#[derive(Clone, Copy, Debug, PartialEq, Eq, Structural)]
pub enum PendingPreparedCompletion {
    /// The request with this number is answered.
    Incoming(u64),
    Recovery,
}

/// Panes that were taken over and are not all shown yet.
pub struct PendingPrepared {
    pub routes: Vec<PendingPreparedRoute>,
    /// The panes that are shown.
    pub ready: HashSet<usize>,
    pub window_id: u64,
    /// In milliseconds.
    pub deadline: u64,
    pub completion: PendingPreparedCompletion,
}

/// The contents of panes that were taken over.
pub struct PreparedModel {
    pub routes: Seq<PendingPreparedRoute>,
    pub ready: Set<usize>,
    pub window_id: u64,
    pub deadline: u64,
    pub completion: PendingPreparedCompletion,
}

impl View for PendingPrepared {
    type V = PreparedModel;

    open spec fn view(&self) -> PreparedModel {
        PreparedModel {
            routes: self.routes@,
            ready: self.ready@,
            window_id: self.window_id,
            deadline: self.deadline,
            completion: self.completion,
        }
    }
}

/// The contents of all panes that were taken over.
pub open spec fn prepared_models(list: Seq<PendingPrepared>) -> Seq<PreparedModel> {
    list.map_values(|p: PendingPrepared| p@)
}

/// Panes that were offered to another program.
pub struct PendingOutgoing {
    pub transfer_id: u128,
    pub source_window: u64,
    pub source_routes: Vec<u64>,
}

/// The contents of panes that were offered.
pub struct OutgoingModel {
    pub transfer_id: u128,
    pub source_window: u64,
    pub source_routes: Seq<u64>,
}

impl View for PendingOutgoing {
    type V = OutgoingModel;

    open spec fn view(&self) -> OutgoingModel {
        OutgoingModel {
            transfer_id: self.transfer_id,
            source_window: self.source_window,
            source_routes: self.source_routes@,
        }
    }
}

/// The contents of all panes that were offered.
pub open spec fn outgoing_models(list: Seq<PendingOutgoing>) -> Seq<OutgoingModel> {
    list.map_values(|p: PendingOutgoing| p@)
}

/// The state that is shared by all windows, and what it asks to be done.
pub struct Application {
    /// How other programs reach this one.
    pub control: Option<WindowEndpoint>,
    /// The window whose tab is merged into another one.
    pub merge_window_source: Option<u64>,
    /// The window and position that the pointer is over.
    pub merge_target: Option<(u64, usize)>,
    pub pending_merge_selection: Option<PendingMergeSelection>,
    pub armed_merge_selection: Option<ArmedMergeSelection>,
    pub recovery_targets: Option<(u64, Vec<RecoveryCandidate>)>,
    pub recovery_probe_state: Option<RecoveryProbeState>,
    pub next_recovery_probe_id: u64,
    /// The window that shows where a dropped tab goes.
    pub drop_marker_window: Option<u64>,
    pub pending_prepared: Vec<PendingPrepared>,
    pub pending_outgoing: Vec<PendingOutgoing>,
    pub exit_after_transfer: bool,
    /// The tab or window that is dragged from here.
    pub tab_drag: Option<TabDrag>,
    /// What is dragged here from another program.
    pub foreign_drag: Option<ForeignDrag>,
    /// The window that a drag has emptied, until the drag ends.
    pub retained_tab_drag_owner: Option<u64>,
    /// What is closed once the drag ends.
    pub deferred_tab_drag_closes: Vec<DeferredTabDragClose>,
    /// When a tab that is over no window gets a window of its own.
    pub tab_drag_detach_deadline: Option<u64>,
    pub effects: Vec<Effect>,
}

/// The contents of the shared state.
#[verifier::ext_equal]
pub struct ApplicationModel {
    pub control: Option<WindowEndpoint>,
    pub source: Option<u64>,
    pub target: Option<(u64, usize)>,
    pub pending: Option<PendingModel>,
    pub armed: Option<ArmedMergeSelection>,
    pub recovery_targets: Option<(u64, Seq<CandidateModel>)>,
    pub probe: Option<ProbeModel>,
    pub next_probe_id: u64,
    pub drop_marker: Option<u64>,
    pub prepared: Seq<PreparedModel>,
    pub outgoing: Seq<OutgoingModel>,
    pub exit_after_transfer: bool,
    pub drag: Option<TabDrag>,
    pub foreign: Option<ForeignDrag>,
    pub retained: Option<u64>,
    pub deferred: Seq<DeferredTabDragClose>,
    pub detach_deadline: Option<u64>,
    pub effects: Seq<EffectModel>,
}

impl View for Application {
    type V = ApplicationModel;

    open spec fn view(&self) -> ApplicationModel {
        ApplicationModel {
            control: self.control,
            source: self.merge_window_source,
            target: self.merge_target,
            pending: match self.pending_merge_selection {
                Some(pending) => Some(pending@),
                None => None,
            },
            armed: self.armed_merge_selection,
            recovery_targets: match self.recovery_targets {
                Some(targets) => Some((targets.0, candidate_models(targets.1@))),
                None => None,
            },
            probe: match self.recovery_probe_state {
                Some(probe) => Some(probe@),
                None => None,
            },
            next_probe_id: self.next_recovery_probe_id,
            drop_marker: self.drop_marker_window,
            prepared: prepared_models(self.pending_prepared@),
            outgoing: outgoing_models(self.pending_outgoing@),
            exit_after_transfer: self.exit_after_transfer,
            drag: self.tab_drag,
            foreign: self.foreign_drag,
            retained: self.retained_tab_drag_owner,
            deferred: self.deferred_tab_drag_closes@,
            detach_deadline: self.tab_drag_detach_deadline,
            effects: effect_models(self.effects@),
        }
    }
}

impl ApplicationModel {
    /// Nothing is under way, and nothing was asked for.
    pub open spec fn fresh() -> ApplicationModel {
        ApplicationModel {
            control: None,
            source: None,
            target: None,
            pending: None,
            armed: None,
            recovery_targets: None,
            probe: None,
            next_probe_id: 1,
            drop_marker: None,
            prepared: Seq::empty(),
            outgoing: Seq::empty(),
            exit_after_transfer: false,
            drag: None,
            foreign: None,
            retained: None,
            deferred: Seq::empty(),
            detach_deadline: None,
            effects: Seq::empty(),
        }
    }

    pub open spec fn emitting(self, effect: EffectModel) -> ApplicationModel {
        ApplicationModel { effects: self.effects.push(effect), ..self }
    }

    pub open spec fn emitting_all(self, effects: Seq<EffectModel>) -> ApplicationModel {
        ApplicationModel { effects: self.effects + effects, ..self }
    }
}

impl Application {
    pub fn new() -> (r: Self)
        ensures
            r@ == ApplicationModel::fresh(),
    {
        let r = Application {
            control: None,
            merge_window_source: None,
            merge_target: None,
            pending_merge_selection: None,
            armed_merge_selection: None,
            recovery_targets: None,
            recovery_probe_state: None,
            next_recovery_probe_id: 1,
            drop_marker_window: None,
            pending_prepared: Vec::new(),
            pending_outgoing: Vec::new(),
            exit_after_transfer: false,
            tab_drag: None,
            foreign_drag: None,
            retained_tab_drag_owner: None,
            deferred_tab_drag_closes: Vec::new(),
            tab_drag_detach_deadline: None,
            effects: Vec::new(),
        };
        proof {
            assert(r@ =~= ApplicationModel::fresh());
        }
        r
    }

    pub(crate) fn emit(&mut self, effect: Effect)
        ensures
            final(self)@ == old(self)@.emitting(effect@),
    {
        self.effects.push(effect);
        proof {
            assert(self@.effects =~= old(self)@.effects.push(effect@));
            assert(self@ =~= old(self)@.emitting(effect@));
        }
    }

    /// Hands over what is to be done, in order.
    pub fn take_effects(&mut self) -> (r: Vec<Effect>)
        ensures
            effect_models(r@) == old(self)@.effects,
            final(self)@ == (ApplicationModel { effects: Seq::empty(), ..old(self)@ }),
    {
        let mut taken: Vec<Effect> = Vec::new();
        core::mem::swap(&mut taken, &mut self.effects);
        proof {
            assert(self@ =~= (ApplicationModel { effects: Seq::empty(), ..old(self)@ }));
        }
        taken
    }
}

} // verus!
