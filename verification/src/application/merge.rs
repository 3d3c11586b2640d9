//! The merging of a tab into another window.

use crate::application::outbox::{
    find_window, window_of, Effect, EffectModel, Response, ResponseModel, WindowEndpoint,
    WindowFacts,
};
use crate::application::state::{
    Application, ApplicationModel, ArmedMergeSelection, PendingMergeSelection, PendingModel,
};
use crate::renderer::frame::WindowOverlay;
use std::collections::HashSet;
use vstd::prelude::*;

verus! {

broadcast use vstd::std_specs::hash::group_hash_axioms;

/// How long a merge waits for a click, in milliseconds.
pub const MERGE_SELECTION_TIMEOUT: u64 = 20_000;

/// The position that the pointer is over.
#[derive(Clone, Copy, Debug, PartialEq, Eq)]
pub struct MergeHoverState {
    pub index: Option<usize>,
}

impl Default for MergeHoverState {
    fn default() -> (r: Self)
        ensures
            r.index is None,
    {
        MergeHoverState { index: None }
    }
}

impl MergeHoverState {
    pub fn set(&mut self, index: usize)
        ensures
            final(self).index == Some(index),
    {
        self.index = Some(index);
    }

    pub fn clear(&mut self)
        ensures
            final(self).index is None,
    {
        self.index = None;
    }

    /// The position that a click means: the one that the pointer is over.
    pub fn clicked_index(&self) -> (r: Option<usize>)
        ensures
            r == self.index,
    {
        self.index
    }
}

/// A tab can be merged in at the position.
pub fn merge_target_index_is_valid(index: usize, tab_count: usize, has_capacity: bool) -> (r: bool)
    ensures
        r == (index <= tab_count && has_capacity),
{
    index <= tab_count && has_capacity
}

/// The position is one at which the window takes another tab.
pub open spec fn takes_tab_at(windows: Seq<WindowFacts>, window: u64, index: usize) -> bool {
    match window_of(windows, window) {
        Some(facts) => facts.shows_tabs() && facts.takes(index, 1),
        None => false,
    }
}

/// Whether a tab of another program can be merged in at a position.
pub fn valid_merge_target_index(windows: &Vec<WindowFacts>, window: u64, index: usize) -> (r: bool)
    ensures
        r == takes_tab_at(windows@, window, index),
{
    match find_window(windows, window) {
        Some(facts) => facts.terminal && facts.tabs > 0 && merge_target_index_is_valid(
            index,
            facts.tabs,
            facts.can_insert(index, 1),
        ),
        None => false,
    }
}

/// Where a tab goes that is dropped over `drop_index`, or over no tab: behind
/// all tabs.
pub open spec fn target_index(
    windows: Seq<WindowFacts>,
    window: u64,
    drop_index: Option<usize>,
) -> Option<usize> {
    match window_of(windows, window) {
        Some(facts) => {
            let index = match drop_index {
                Some(index) => index,
                None => facts.tabs,
            };
            if facts.shows_tabs() && facts.takes(index, 1) {
                Some(index)
            } else {
                None
            }
        },
        None => None,
    }
}

pub fn merge_target_index_at(
    windows: &Vec<WindowFacts>,
    window: u64,
    drop_index: Option<usize>,
) -> (r: Option<usize>)
    ensures
        r == target_index(windows@, window, drop_index),
{
    match find_window(windows, window) {
        Some(facts) => {
            let index: usize = match drop_index {
                Some(index) => index,
                None => facts.tabs,
            };
            if valid_merge_target_index(windows, window, index) {
                Some(index)
            } else {
                None
            }
        },
        None => None,
    }
}

/// A window, unless it is there already.
pub open spec fn with_window(list: Seq<u64>, window: u64) -> Seq<u64> {
    if list.contains(window) {
        list
    } else {
        list.push(window)
    }
}

fn add_window(list: &mut Vec<u64>, window: u64)
    ensures
        final(list)@ == with_window(old(list)@, window),
{
    let mut i: usize = 0;
    while i < list.len()
        invariant
            i <= list@.len(),
            list@ == old(list)@,
            forall|j: int| 0 <= j < i ==> list@[j] != window,
        decreases list@.len() - i,
    {
        if list[i] == window {
            return;
        }
        i += 1;
    }
    list.push(window);
}

/// What an armed window is told of the pointer.
#[derive(Clone, Copy, Debug, PartialEq, Eq, Structural)]
pub enum ArmedInput {
    Entered,
    Left,
    /// The pointer is over this tab, if it is over one.
    Moved(Option<usize>),
    LeftPress,
    OtherButton,
    Other,
}

impl ApplicationModel {
    pub open spec fn overlaid(self, window: u64, overlay: Option<WindowOverlay>) -> ApplicationModel {
        self.emitting(EffectModel::Overlay(window, overlay))
    }

    pub open spec fn marker_cleared(self) -> ApplicationModel {
        match self.drop_marker {
            Some(window) => (ApplicationModel { drop_marker: None, ..self }).emitting(
                EffectModel::ClearDropMarker(window),
            ),
            None => self,
        }
    }

    /// Only one window shows where a dropped tab goes.
    pub open spec fn marked(self, windows: Seq<WindowFacts>, window: u64, index: usize) -> ApplicationModel {
        let rest = if self.drop_marker != Some(window) {
            self.marker_cleared()
        } else {
            self
        };
        if window_of(windows, window) is Some {
            (ApplicationModel { drop_marker: Some(window), ..rest }).emitting(
                EffectModel::DropMarker(window, index),
            )
        } else {
            rest
        }
    }

    pub open spec fn pending_cancelled(self) -> ApplicationModel {
        match self.pending {
            Some(pending) => {
                let rest = ApplicationModel { pending: None, ..self };
                if self.control is Some {
                    rest.emitting_all(
                        pending.targets.map_values(
                            |t: WindowEndpoint|
                                EffectModel::CancelSelection(t, pending.selection_id),
                        ),
                    )
                } else {
                    rest
                }
            },
            None => self,
        }
    }

    pub open spec fn armed_cleared(self) -> ApplicationModel {
        match self.armed {
            Some(armed) => {
                let rest = (ApplicationModel { armed: None, ..self }).overlaid(
                    armed.target_window,
                    None,
                );
                if self.drop_marker == Some(armed.target_window) {
                    rest.marker_cleared()
                } else {
                    rest
                }
            },
            None => self,
        }
    }

    pub open spec fn armed_cleared_and_told(self) -> ApplicationModel {
        match self.armed {
            Some(armed) => if self.control is Some {
                self.armed_cleared().emitting(
                    EffectModel::CancelSelection(armed.source, armed.selection_id),
                )
            } else {
                self.armed_cleared()
            },
            None => self,
        }
    }

    pub open spec fn target_cleared(self) -> ApplicationModel {
        match self.target {
            Some(target) => (ApplicationModel { target: None, ..self }).overlaid(
                target.0,
                None,
            ).marker_cleared(),
            None => self.marker_cleared(),
        }
    }

    /// The windows that list merge targets or sessions to recover.
    pub open spec fn palette_windows(self) -> Seq<u64> {
        let a = match self.source {
            Some(window) => with_window(Seq::empty(), window),
            None => Seq::empty(),
        };
        let b = match self.pending {
            Some(pending) => with_window(a, pending.source_window),
            None => a,
        };
        let c = match self.recovery_targets {
            Some(targets) => with_window(b, targets.0),
            None => b,
        };
        match self.probe {
            Some(probe) => with_window(c, probe.source_window),
            None => c,
        }
    }

    pub open spec fn source_cleared(self) -> ApplicationModel {
        match self.source {
            Some(window) => (ApplicationModel { source: None, ..self }).emitting(
                EffectModel::ClearSourceMarker(window),
            ).overlaid(window, None),
            None => self,
        }
    }

    pub open spec fn recovery_cleared(self) -> ApplicationModel {
        (ApplicationModel { recovery_targets: None, probe: None, ..self }).emitting(
            EffectModel::DrainProbes,
        )
    }

    /// All that a merge or a recovery has under way is given up.
    pub open spec fn merge_cleared(self) -> ApplicationModel {
        let told = self.pending_cancelled().armed_cleared_and_told().recovery_cleared();
        told.source_cleared().target_cleared().emitting_all(
            self.palette_windows().map_values(|w: u64| EffectModel::ClearMergeUi(w)),
        )
    }

    pub open spec fn source_uses(self, window: u64) -> bool {
        ||| self.source == Some(window)
        ||| (self.pending matches Some(pending) && pending.source_window == window)
        ||| (self.recovery_targets matches Some(targets) && targets.0 == window)
        ||| (self.probe matches Some(probe) && probe.source_window == window)
    }

    pub open spec fn merge_uses(self, window: u64) -> bool {
        ||| self.source_uses(window)
        ||| (self.target matches Some(target) && target.0 == window)
        ||| (self.armed matches Some(armed) && armed.target_window == window)
    }

    pub open spec fn merge_cleared_if(self, window: u64) -> ApplicationModel {
        if self.merge_uses(window) {
            self.merge_cleared()
        } else {
            self
        }
    }

    /// The window's current tab is the one that a merge moves.
    pub open spec fn merge_started(self, windows: Seq<WindowFacts>, window: u64) -> ApplicationModel {
        match window_of(windows, window) {
            Some(facts) => if facts.shows_tabs() {
                (ApplicationModel {
                    source: Some(window),
                    ..self.emitting(EffectModel::SourceMarker(window, facts.current_index))
                }).overlaid(window, Some(WindowOverlay::MergeSource))
            } else {
                self
            },
            None => self,
        }
    }

    /// The pointer of a merge is over a window.
    pub open spec fn pointed(
        self,
        windows: Seq<WindowFacts>,
        window: u64,
        drop_index: Option<usize>,
    ) -> ApplicationModel {
        match self.source {
            None => self,
            Some(source) => {
                let ready = window_of(windows, source) matches Some(facts) && facts.shows_tabs();
                match window_of(windows, window) {
                    Some(facts) => {
                        let index = match drop_index {
                            Some(index) => index,
                            None => facts.tabs,
                        };
                        if source == window || !ready || !facts.terminal || !facts.takes(index, 1) {
                            self.target_cleared()
                        } else {
                            let rest = if self.target matches Some(target) && target.0 != window {
                                self.target_cleared()
                            } else {
                                self
                            };
                            (ApplicationModel { target: Some((window, index)), ..rest }).marked(
                                windows,
                                window,
                                index,
                            ).overlaid(window, Some(WindowOverlay::MergeTarget))
                        }
                    },
                    None => self.target_cleared(),
                }
            },
        }
    }

    /// Windows of other programs are asked to offer themselves.
    pub open spec fn selection_pending(
        self,
        windows: Seq<WindowFacts>,
        window: u64,
        targets: Seq<WindowEndpoint>,
        selection_id: u128,
        now: u64,
    ) -> ApplicationModel {
        let marked = match window_of(windows, window) {
            Some(facts) => self.emitting(EffectModel::SourceMarker(window, facts.current_index)),
            None => self,
        };
        (ApplicationModel {
            pending: Some(
                PendingModel {
                    selection_id,
                    source_window: window,
                    targets,
                    armed: 0,
                    resolved: Set::empty(),
                    deadline: (now + MERGE_SELECTION_TIMEOUT) as u64,
                },
            ),
            source: Some(window),
            ..marked
        }).overlaid(window, Some(WindowOverlay::MergeSource)).emitting_all(
            targets.map_values(|t: WindowEndpoint| EffectModel::ArmSelection(t, selection_id)),
        )
    }

    pub open spec fn hover_cleared(self, window: u64) -> ApplicationModel {
        let unhovered = match self.armed {
            Some(armed) => if armed.target_window == window {
                ApplicationModel {
                    armed: Some(
                        ArmedMergeSelection { hover: MergeHoverState { index: None }, ..armed },
                    ),
                    ..self
                }
            } else {
                self
            },
            None => self,
        };
        let rest = unhovered.overlaid(window, None);
        if self.drop_marker == Some(window) {
            rest.marker_cleared()
        } else {
            rest
        }
    }

    pub open spec fn hovering(self, armed: ArmedMergeSelection, index: usize) -> ApplicationModel {
        ApplicationModel {
            armed: Some(
                ArmedMergeSelection { hover: MergeHoverState { index: Some(index) }, ..armed },
            ),
            ..self
        }
    }

    /// The program that moves a tab is told where the pointer is.
    pub open spec fn told(self, armed: ArmedMergeSelection, index: usize, clicked: bool) -> ApplicationModel {
        if self.control is Some {
            self.emitting(
                EffectModel::SendSelection(armed.source, armed.selection_id, index, clicked),
            )
        } else {
            self
        }
    }

    /// What an armed window makes of the pointer.
    pub open spec fn armed_input(
        self,
        armed: ArmedMergeSelection,
        windows: Seq<WindowFacts>,
        input: ArmedInput,
    ) -> ApplicationModel {
        let window = armed.target_window;
        match input {
            ArmedInput::Entered => match target_index(windows, window, None) {
                Some(index) => self.hovering(armed, index).overlaid(
                    window,
                    Some(WindowOverlay::MergeTarget),
                ).marked(windows, window, index).told(armed, index, false),
                None => self.hover_cleared(window),
            },
            ArmedInput::Left => self.hover_cleared(window),
            ArmedInput::Moved(drop_index) => match target_index(windows, window, drop_index) {
                Some(index) => {
                    let shown = self.overlaid(window, Some(WindowOverlay::MergeTarget)).marked(
                        windows,
                        window,
                        index,
                    );
                    if armed.hover.index != Some(index) {
                        shown.hovering(armed, index).told(armed, index, false)
                    } else {
                        shown
                    }
                },
                None => self.hover_cleared(window),
            },
            ArmedInput::LeftPress => match armed.hover.index {
                Some(index) => if takes_tab_at(windows, window, index) {
                    self.told(armed, index, true).armed_cleared()
                } else {
                    self.hover_cleared(window)
                },
                None => self,
            },
            ArmedInput::OtherButton => self,
            ArmedInput::Other => self,
        }
    }

    /// Another program asks for a window to be armed.
    pub open spec fn arming(
        self,
        windows: Seq<WindowFacts>,
        window: u64,
        selection_id: u128,
        source: WindowEndpoint,
        reply: u64,
        now: u64,
    ) -> ApplicationModel {
        let foreign = self.control matches Some(own) && own.instance != source.instance;
        let room = window_of(windows, window) matches Some(facts) && facts.shows_tabs()
            && facts.takes(facts.tabs, 1);
        if !foreign || !room {
            self.emitting(
                EffectModel::Reply(
                    reply,
                    ResponseModel::Rejected("target window is unavailable"@),
                ),
            )
        } else if self.armed matches Some(armed) && armed.selection_id != selection_id {
            self.emitting(
                EffectModel::Reply(
                    reply,
                    ResponseModel::Rejected("target already has a merge selection"@),
                ),
            )
        } else {
            (ApplicationModel {
                armed: Some(
                    ArmedMergeSelection {
                        selection_id,
                        source,
                        target_window: window,
                        hover: MergeHoverState { index: None },
                        deadline: (now + MERGE_SELECTION_TIMEOUT) as u64,
                    },
                ),
                ..self.armed_cleared()
            }).emitting(EffectModel::Reply(reply, ResponseModel::SelectionArmed))
        }
    }

    /// A program that was asked to offer a window answers.
    pub open spec fn arm_answered(
        self,
        selection_id: u128,
        target: WindowEndpoint,
        armed: bool,
    ) -> ApplicationModel {
        match self.pending {
            Some(pending) => if pending.selection_id != selection_id {
                self.late_answer(selection_id, target, armed)
            } else if pending.resolved.contains(target.instance) {
                self
            } else {
                let answered = PendingModel {
                    resolved: pending.resolved.insert(target.instance),
                    armed: if armed {
                        (pending.armed + 1) as usize
                    } else {
                        pending.armed
                    },
                    ..pending
                };
                let rest = ApplicationModel { pending: Some(answered), ..self };
                if answered.resolved.len() == answered.targets.len() && answered.armed == 0 {
                    rest.merge_cleared()
                } else {
                    rest
                }
            },
            None => self.late_answer(selection_id, target, armed),
        }
    }

    /// A window that was armed in vain is told so.
    pub open spec fn late_answer(
        self,
        selection_id: u128,
        target: WindowEndpoint,
        armed: bool,
    ) -> ApplicationModel {
        if armed && self.control is Some {
            self.emitting(EffectModel::CancelSelection(target, selection_id))
        } else {
            self
        }
    }

    /// A window of another program was clicked, or the pointer moved over it.
    pub open spec fn selection_told(
        self,
        selection_id: u128,
        target_window: u64,
        target_index: u32,
        clicked: bool,
    ) -> ApplicationModel {
        match self.pending {
            Some(pending) => match endpoint_from(pending.targets, target_window, 0) {
                Some(target) => if pending.selection_id == selection_id && clicked {
                    self.merge_cleared().emitting(
                        EffectModel::MergeForeign(
                            pending.source_window,
                            target,
                            target_index as usize,
                        ),
                    )
                } else {
                    self
                },
                None => self,
            },
            None => self,
        }
    }
}

/// The first window, from `from` on, with the given native number.
pub open spec fn endpoint_from(targets: Seq<WindowEndpoint>, window: u64, from: int) -> Option<
    WindowEndpoint,
>
    decreases targets.len() - from,
{
    if from < 0 || from >= targets.len() {
        None
    } else if targets[from].native_window_id == window {
        Some(targets[from])
    } else {
        endpoint_from(targets, window, from + 1)
    }
}

fn find_endpoint(targets: &Vec<WindowEndpoint>, window: u64) -> (r: Option<WindowEndpoint>)
    ensures
        r == endpoint_from(targets@, window, 0),
{
    let mut i: usize = 0;
    while i < targets.len()
        invariant
            i <= targets@.len(),
            endpoint_from(targets@, window, 0) == endpoint_from(targets@, window, i as int),
        decreases targets@.len() - i,
    {
        if targets[i].native_window_id == window {
            return Some(targets[i]);
        }
        i += 1;
    }
    None
}

impl Application {
    pub fn set_window_overlay(&mut self, window: u64, overlay: Option<WindowOverlay>)
        ensures
            final(self)@ == old(self)@.overlaid(window, overlay),
    {
        self.emit(Effect::Overlay(window, overlay));
    }

    pub fn clear_drop_marker(&mut self)
        ensures
            final(self)@ == old(self)@.marker_cleared(),
    {
        if let Some(window) = self.drop_marker_window {
            self.drop_marker_window = None;
            proof {
                assert(self@ =~= (ApplicationModel { drop_marker: None, ..old(self)@ }));
            }
            self.emit(Effect::ClearDropMarker(window));
        }
    }

    fn marks(&self, window: u64) -> (r: bool)
        ensures
            r == (self@.drop_marker == Some(window)),
    {
        match self.drop_marker_window {
            Some(marked) => marked == window,
            None => false,
        }
    }

    pub fn set_drop_marker(&mut self, windows: &Vec<WindowFacts>, window: u64, index: usize)
        ensures
            final(self)@ == old(self)@.marked(windows@, window, index),
    {
        if !self.marks(window) {
            self.clear_drop_marker();
        }
        if find_window(windows, window).is_some() {
            let ghost before = self@;
            self.drop_marker_window = Some(window);
            proof {
                assert(self@ =~= (ApplicationModel { drop_marker: Some(window), ..before }));
            }
            self.emit(Effect::DropMarker(window, index));
        }
    }

    pub fn cancel_pending_merge_selection(&mut self)
        ensures
            final(self)@ == old(self)@.pending_cancelled(),
    {
        let mut taken: Option<PendingMergeSelection> = None;
        core::mem::swap(&mut taken, &mut self.pending_merge_selection);
        let ghost rest = ApplicationModel { pending: None, ..old(self)@ };
        proof {
            assert(self@ =~= rest);
        }
        if let Some(pending) = taken {
            if self.control.is_some() {
                let ghost told = |t: WindowEndpoint|
                    EffectModel::CancelSelection(t, pending.selection_id);
                let mut i: usize = 0;
                proof {
                    assert(rest.emitting_all(pending.targets@.take(0).map_values(told)) =~= rest);
                }
                while i < pending.targets.len()
                    invariant
                        i <= pending.targets@.len(),
                        told == (|t: WindowEndpoint|
                            EffectModel::CancelSelection(t, pending.selection_id)),
                        self@ == rest.emitting_all(
                            pending.targets@.take(i as int).map_values(told),
                        ),
                    decreases pending.targets@.len() - i,
                {
                    self.emit(Effect::CancelSelection(pending.targets[i], pending.selection_id));
                    proof {
                        assert(pending.targets@.take(i + 1).map_values(told)
                            =~= pending.targets@.take(i as int).map_values(told).push(
                            told(pending.targets@[i as int]),
                        ));
                        assert(self@ =~= rest.emitting_all(
                            pending.targets@.take(i + 1).map_values(told),
                        ));
                    }
                    i += 1;
                }
                proof {
                    assert(pending.targets@.take(i as int) =~= pending.targets@);
                }
            }
        }
    }

    pub fn clear_armed_merge_selection(&mut self)
        ensures
            final(self)@ == old(self)@.armed_cleared(),
    {
        if let Some(armed) = self.armed_merge_selection {
            self.armed_merge_selection = None;
            proof {
                assert(self@ =~= (ApplicationModel { armed: None, ..old(self)@ }));
            }
            self.set_window_overlay(armed.target_window, None);
            if self.marks(armed.target_window) {
                self.clear_drop_marker();
            }
        }
    }

    pub fn clear_armed_merge_selection_and_notify(&mut self)
        ensures
            final(self)@ == old(self)@.armed_cleared_and_told(),
    {
        if let Some(armed) = self.armed_merge_selection {
            self.clear_armed_merge_selection();
            if self.control.is_some() {
                self.emit(Effect::CancelSelection(armed.source, armed.selection_id));
            }
        }
    }

    pub fn clear_merge_target(&mut self)
        ensures
            final(self)@ == old(self)@.target_cleared(),
    {
        if let Some(target) = self.merge_target {
            self.merge_target = None;
            proof {
                assert(self@ =~= (ApplicationModel { target: None, ..old(self)@ }));
            }
            self.set_window_overlay(target.0, None);
        }
        self.clear_drop_marker();
    }

    fn clear_source(&mut self)
        ensures
            final(self)@ == old(self)@.source_cleared(),
    {
        if let Some(window) = self.merge_window_source {
            self.merge_window_source = None;
            proof {
                assert(self@ =~= (ApplicationModel { source: None, ..old(self)@ }));
            }
            self.emit(Effect::ClearSourceMarker(window));
            self.set_window_overlay(window, None);
        }
    }

    pub(crate) fn clear_recovery(&mut self)
        ensures
            final(self)@ == old(self)@.recovery_cleared(),
    {
        self.recovery_targets = None;
        self.recovery_probe_state = None;
        proof {
            assert(self@ =~= (ApplicationModel {
                recovery_targets: None,
                probe: None,
                ..old(self)@
            }));
        }
        self.emit(Effect::DrainProbes);
    }

    fn palettes(&self) -> (r: Vec<u64>)
        ensures
            r@ == self@.palette_windows(),
    {
        let mut list: Vec<u64> = Vec::new();
        if let Some(window) = self.merge_window_source {
            add_window(&mut list, window);
        }
        if let Some(pending) = &self.pending_merge_selection {
            add_window(&mut list, pending.source_window);
        }
        if let Some(targets) = &self.recovery_targets {
            add_window(&mut list, targets.0);
        }
        if let Some(probe) = &self.recovery_probe_state {
            add_window(&mut list, probe.source_window);
        }
        list
    }

    /// Gives up all that a merge or a recovery has under way.
    pub fn clear_merge_window(&mut self)
        ensures
            final(self)@ == old(self)@.merge_cleared(),
    {
        let palettes: Vec<u64> = self.palettes();
        self.cancel_pending_merge_selection();
        self.clear_armed_merge_selection_and_notify();
        self.clear_recovery();
        self.clear_source();
        self.clear_merge_target();
        let ghost rest = self@;
        let ghost closing = |w: u64| EffectModel::ClearMergeUi(w);
        proof {
            assert(rest.emitting_all(palettes@.take(0).map_values(closing)) =~= rest);
        }
        let mut i: usize = 0;
        while i < palettes.len()
            invariant
                i <= palettes@.len(),
                closing == (|w: u64| EffectModel::ClearMergeUi(w)),
                self@ == rest.emitting_all(palettes@.take(i as int).map_values(closing)),
            decreases palettes@.len() - i,
        {
            self.emit(Effect::ClearMergeUi(palettes[i]));
            proof {
                assert(palettes@.take(i + 1).map_values(closing) =~= palettes@.take(
                    i as int,
                ).map_values(closing).push(closing(palettes@[i as int])));
                assert(self@ =~= rest.emitting_all(palettes@.take(i + 1).map_values(closing)));
            }
            i += 1;
        }
        proof {
            assert(palettes@.take(i as int) =~= palettes@);
        }
    }

    pub fn merge_source_uses_window(&self, window: u64) -> (r: bool)
        ensures
            r == self@.source_uses(window),
    {
        let source: bool = match self.merge_window_source {
            Some(source) => source == window,
            None => false,
        };
        let pending: bool = match &self.pending_merge_selection {
            Some(pending) => pending.source_window == window,
            None => false,
        };
        let targets: bool = match &self.recovery_targets {
            Some(targets) => targets.0 == window,
            None => false,
        };
        let probe: bool = match &self.recovery_probe_state {
            Some(probe) => probe.source_window == window,
            None => false,
        };
        source || pending || targets || probe
    }

    pub fn merge_state_uses_window(&self, window: u64) -> (r: bool)
        ensures
            r == self@.merge_uses(window),
    {
        let target: bool = match self.merge_target {
            Some(target) => target.0 == window,
            None => false,
        };
        let armed: bool = match self.armed_merge_selection {
            Some(armed) => armed.target_window == window,
            None => false,
        };
        self.merge_source_uses_window(window) || target || armed
    }

    /// Gives up a merge or a recovery that a window is part of.
    pub fn clear_merge_if_window(&mut self, window: u64)
        ensures
            final(self)@ == old(self)@.merge_cleared_if(window),
    {
        if self.merge_state_uses_window(window) {
            self.clear_merge_window();
        }
    }

    /// Looks for windows of other programs; `false` where none can be reached.
    pub fn begin_merge_window_action(&mut self, window: u64) -> (r: bool)
        ensures
            r == old(self)@.control is Some,
            final(self)@ == if r {
                old(self)@.emitting(EffectModel::DiscoverPeers(window))
            } else {
                old(self)@
            },
    {
        if self.control.is_some() {
            self.emit(Effect::DiscoverPeers(window));
            true
        } else {
            false
        }
    }

    /// The window's current tab becomes the one that a merge moves.
    pub fn arm_merge_source(&mut self, windows: &Vec<WindowFacts>, window: u64) -> (r: bool)
        ensures
            r == (window_of(windows@, window) matches Some(facts) && facts.shows_tabs()),
            final(self)@ == old(self)@.merge_started(windows@, window),
    {
        match find_window(windows, window) {
            Some(facts) => if facts.terminal && facts.tabs > 0 {
                self.emit(Effect::SourceMarker(window, facts.current_index));
                let ghost before = self@;
                self.merge_window_source = Some(window);
                proof {
                    assert(self@ =~= (ApplicationModel { source: Some(window), ..before }));
                }
                self.set_window_overlay(window, Some(WindowOverlay::MergeSource));
                true
            } else {
                false
            },
            None => false,
        }
    }

    /// The pointer of a merge is over a window, and there over a tab.
    pub fn update_merge_target(
        &mut self,
        windows: &Vec<WindowFacts>,
        window: u64,
        drop_index: Option<usize>,
    )
        ensures
            final(self)@ == old(self)@.pointed(windows@, window, drop_index),
    {
        let source: u64 = match self.merge_window_source {
            Some(source) => source,
            None => {
                return;
            },
        };
        if source == window {
            self.clear_merge_target();
            return;
        }
        let ready: bool = match find_window(windows, source) {
            Some(facts) => facts.terminal && facts.tabs > 0,
            None => false,
        };
        if !ready {
            self.clear_merge_target();
            return;
        }
        let facts: WindowFacts = match find_window(windows, window) {
            Some(facts) => facts,
            None => {
                self.clear_merge_target();
                return;
            },
        };
        if !facts.terminal {
            self.clear_merge_target();
            return;
        }
        let index: usize = match drop_index {
            Some(index) => index,
            None => facts.tabs,
        };
        if !facts.can_insert(index, 1) {
            self.clear_merge_target();
            return;
        }
        if let Some(target) = self.merge_target {
            if target.0 != window {
                self.clear_merge_target();
            }
        }
        let ghost before = self@;
        self.merge_target = Some((window, index));
        proof {
            assert(self@ =~= (ApplicationModel { target: Some((window, index)), ..before }));
        }
        self.set_drop_marker(windows, window, index);
        self.set_window_overlay(window, Some(WindowOverlay::MergeTarget));
    }

    /// Asks windows of other programs to offer themselves for a click.
    pub fn arm_foreign_merge_selection(
        &mut self,
        windows: &Vec<WindowFacts>,
        window: u64,
        targets: Vec<WindowEndpoint>,
        selection_id: u128,
        now: u64,
    )
        requires
            now + MERGE_SELECTION_TIMEOUT <= u64::MAX,
        ensures
            final(self)@ == if targets@.len() == 0 || old(self)@.control is None {
                old(self)@
            } else {
                old(self)@.selection_pending(windows@, window, targets@, selection_id, now)
            },
    {
        if targets.len() == 0 || self.control.is_none() {
            return;
        }
        match find_window(windows, window) {
            Some(facts) => {
                self.emit(Effect::SourceMarker(window, facts.current_index));
            },
            None => {},
        }
        let ghost marked = self@;
        let asked: Vec<WindowEndpoint> = targets.clone();
        proof {
            assert(asked@ =~= targets@);
        }
        let ghost given = targets@;
        let pending = PendingMergeSelection {
            selection_id,
            source_window: window,
            targets,
            armed: 0,
            resolved: HashSet::new(),
            deadline: now + MERGE_SELECTION_TIMEOUT,
        };
        let ghost waiting = pending@;
        self.pending_merge_selection = Some(pending);
        self.merge_window_source = Some(window);
        proof {
            assert(waiting.resolved =~= Set::empty());
            assert(self@ =~= (ApplicationModel {
                pending: Some(waiting),
                source: Some(window),
                ..marked
            }));
        }
        self.set_window_overlay(window, Some(WindowOverlay::MergeSource));
        let ghost rest = self@;
        let ghost asking = |t: WindowEndpoint| EffectModel::ArmSelection(t, selection_id);
        proof {
            assert(rest.emitting_all(asked@.take(0).map_values(asking)) =~= rest);
        }
        let mut i: usize = 0;
        while i < asked.len()
            invariant
                i <= asked@.len(),
                asking == (|t: WindowEndpoint| EffectModel::ArmSelection(t, selection_id)),
                self@ == rest.emitting_all(asked@.take(i as int).map_values(asking)),
            decreases asked@.len() - i,
        {
            self.emit(Effect::ArmSelection(asked[i], selection_id));
            proof {
                assert(asked@.take(i + 1).map_values(asking) =~= asked@.take(i as int).map_values(
                    asking,
                ).push(asking(asked@[i as int])));
                assert(self@ =~= rest.emitting_all(asked@.take(i + 1).map_values(asking)));
            }
            i += 1;
        }
        proof {
            assert(asked@.take(i as int) =~= given);
        }
    }

    /// Windows of other programs were found. `false` where the merge has ended
    /// meanwhile, or its window is gone.
    pub fn arm_discovered_merge_targets(
        &mut self,
        windows: &Vec<WindowFacts>,
        window: u64,
        targets: Vec<WindowEndpoint>,
        selection_id: u128,
        now: u64,
    ) -> (r: bool)
        requires
            now + MERGE_SELECTION_TIMEOUT <= u64::MAX,
        ensures
            r == (old(self)@.source == Some(window) && (targets@.len() == 0 || window_of(
                windows@,
                window,
            ) is Some)),
            final(self)@ == if old(self)@.source != Some(window) || targets@.len() == 0 {
                old(self)@
            } else {
                let armed = if old(self)@.control is Some {
                    old(self)@.selection_pending(windows@, window, targets@, selection_id, now)
                } else {
                    old(self)@
                };
                if window_of(windows@, window) is Some {
                    armed.emitting(EffectModel::Redraw(window))
                } else {
                    armed
                }
            },
    {
        let merging: bool = match self.merge_window_source {
            Some(source) => source == window,
            None => false,
        };
        if !merging {
            return false;
        }
        if targets.len() == 0 {
            return true;
        }
        self.arm_foreign_merge_selection(windows, window, targets, selection_id, now);
        if find_window(windows, window).is_some() {
            self.emit(Effect::Redraw(window));
            true
        } else {
            false
        }
    }

    pub fn clear_armed_merge_hover(&mut self, window: u64)
        ensures
            final(self)@ == old(self)@.hover_cleared(window),
    {
        if let Some(armed) = self.armed_merge_selection {
            if armed.target_window == window {
                let mut hover: MergeHoverState = armed.hover;
                hover.clear();
                self.armed_merge_selection = Some(ArmedMergeSelection { hover, ..armed });
            }
        }
        proof {
            assert(self@ =~= (ApplicationModel { armed: self@.armed, ..old(self)@ }));
        }
        self.set_window_overlay(window, None);
        if self.marks(window) {
            self.clear_drop_marker();
        }
    }

    fn hover(&mut self, armed: ArmedMergeSelection, index: usize)
        ensures
            final(self)@ == old(self)@.hovering(armed, index),
    {
        let mut hover: MergeHoverState = armed.hover;
        hover.set(index);
        self.armed_merge_selection = Some(ArmedMergeSelection { hover, ..armed });
        proof {
            assert(self@ =~= old(self)@.hovering(armed, index));
        }
    }

    fn tell(&mut self, armed: ArmedMergeSelection, index: usize, clicked: bool)
        ensures
            final(self)@ == old(self)@.told(armed, index, clicked),
    {
        if self.control.is_some() {
            self.emit(Effect::SendSelection(armed.source, armed.selection_id, index, clicked));
        }
    }

    /// The pointer over a window that another program may merge a tab into.
    /// `true` where the window itself gets to see nothing of it.
    pub fn handle_armed_merge_window_event(
        &mut self,
        windows: &Vec<WindowFacts>,
        window: u64,
        input: ArmedInput,
    ) -> (r: bool)
        ensures
            match old(self)@.armed {
                Some(armed) if armed.target_window == window => {
                    &&& r == (input !is Other)
                    &&& final(self)@ == old(self)@.armed_input(armed, windows@, input)
                },
                _ => !r && final(self)@ == old(self)@,
            },
    {
        let armed: ArmedMergeSelection = match self.armed_merge_selection {
            Some(armed) => armed,
            None => {
                return false;
            },
        };
        if armed.target_window != window {
            return false;
        }
        match input {
            ArmedInput::Entered => {
                match merge_target_index_at(windows, window, None) {
                    Some(index) => {
                        self.hover(armed, index);
                        self.set_window_overlay(window, Some(WindowOverlay::MergeTarget));
                        self.set_drop_marker(windows, window, index);
                        self.tell(armed, index, false);
                    },
                    None => {
                        self.clear_armed_merge_hover(window);
                    },
                }
                true
            },
            ArmedInput::Left => {
                self.clear_armed_merge_hover(window);
                true
            },
            ArmedInput::Moved(drop_index) => {
                match merge_target_index_at(windows, window, drop_index) {
                    Some(index) => {
                        let changed: bool = match armed.hover.index {
                            Some(hovered) => hovered != index,
                            None => true,
                        };
                        self.set_window_overlay(window, Some(WindowOverlay::MergeTarget));
                        self.set_drop_marker(windows, window, index);
                        if changed {
                            self.hover(armed, index);
                            self.tell(armed, index, false);
                        }
                    },
                    None => {
                        self.clear_armed_merge_hover(window);
                    },
                }
                true
            },
            ArmedInput::LeftPress => {
                if let Some(index) = armed.hover.clicked_index() {
                    if valid_merge_target_index(windows, window, index) {
                        self.tell(armed, index, true);
                        self.clear_armed_merge_selection();
                    } else {
                        self.clear_armed_merge_hover(window);
                    }
                }
                true
            },
            ArmedInput::OtherButton => true,
            ArmedInput::Other => false,
        }
    }

    /// Gives up a merge that has waited too long.
    pub fn expire_merge_selection(&mut self, now: u64)
        ensures
            final(self)@ == if (old(self)@.pending matches Some(pending) && pending.deadline <= now)
                || (old(self)@.armed matches Some(armed) && armed.deadline <= now) {
                old(self)@.merge_cleared()
            } else {
                old(self)@
            },
    {
        let pending: bool = match &self.pending_merge_selection {
            Some(pending) => pending.deadline <= now,
            None => false,
        };
        let armed: bool = match self.armed_merge_selection {
            Some(armed) => armed.deadline <= now,
            None => false,
        };
        if pending || armed {
            self.clear_merge_window();
        }
    }

    fn reject(&mut self, reply: u64, words: &str)
        ensures
            final(self)@ == old(self)@.emitting(
                EffectModel::Reply(reply, ResponseModel::Rejected(words@)),
            ),
    {
        self.emit(Effect::Reply(reply, Response::Rejected(words.to_owned())));
    }

    /// Another program asks for a window to offer itself for a click.
    pub fn handle_arm_selection(
        &mut self,
        windows: &Vec<WindowFacts>,
        window: u64,
        selection_id: u128,
        source: WindowEndpoint,
        reply: u64,
        now: u64,
    )
        requires
            now + MERGE_SELECTION_TIMEOUT <= u64::MAX,
        ensures
            final(self)@ == old(self)@.arming(windows@, window, selection_id, source, reply, now),
    {
        let foreign: bool = match self.control {
            Some(own) => own.instance != source.instance,
            None => false,
        };
        let room: bool = match find_window(windows, window) {
            Some(facts) => facts.terminal && facts.tabs > 0 && facts.can_insert(facts.tabs, 1),
            None => false,
        };
        if !foreign || !room {
            self.reject(reply, "target window is unavailable");
            return;
        }
        if let Some(armed) = self.armed_merge_selection {
            if armed.selection_id != selection_id {
                self.reject(reply, "target already has a merge selection");
                return;
            }
        }
        self.clear_armed_merge_selection();
        let ghost before = self@;
        let armed = ArmedMergeSelection {
            selection_id,
            source,
            target_window: window,
            hover: MergeHoverState { index: None },
            deadline: now + MERGE_SELECTION_TIMEOUT,
        };
        self.armed_merge_selection = Some(armed);
        proof {
            assert(self@ =~= (ApplicationModel { armed: Some(armed), ..before }));
        }
        self.emit(Effect::Reply(reply, Response::SelectionArmed));
    }

    fn cancel_late(&mut self, selection_id: u128, target: WindowEndpoint, armed: bool)
        ensures
            final(self)@ == old(self)@.late_answer(selection_id, target, armed),
    {
        if armed && self.control.is_some() {
            self.emit(Effect::CancelSelection(target, selection_id));
        }
    }

    /// A program answers whether its window can be clicked.
    pub fn handle_arm_selection_result(
        &mut self,
        selection_id: u128,
        target: WindowEndpoint,
        armed: bool,
    )
        requires
            old(self)@.pending matches Some(pending) ==> pending.armed < usize::MAX,
        ensures
            final(self)@ == old(self)@.arm_answered(selection_id, target, armed),
    {
        let mut taken: Option<PendingMergeSelection> = None;
        core::mem::swap(&mut taken, &mut self.pending_merge_selection);
        let ghost before = old(self)@;
        match taken {
            None => {
                proof {
                    assert(self@ =~= before);
                }
                self.cancel_late(selection_id, target, armed);
            },
            Some(pending) => {
                let mut pending = pending;
                if pending.selection_id != selection_id {
                    self.pending_merge_selection = Some(pending);
                    proof {
                        assert(self@ =~= before);
                    }
                    self.cancel_late(selection_id, target, armed);
                    return;
                }
                let ghost waiting = pending@;
                let first: bool = pending.resolved.insert(target.instance);
                if !first {
                    proof {
                        assert(pending.resolved@ =~= waiting.resolved);
                    }
                    self.pending_merge_selection = Some(pending);
                    proof {
                        assert(self@ =~= before);
                    }
                    return;
                }
                if armed {
                    pending.armed = pending.armed + 1;
                }
                let failed: bool = pending.resolved.len() == pending.targets.len() && pending.armed
                    == 0;
                let ghost answered = pending@;
                self.pending_merge_selection = Some(pending);
                proof {
                    assert(self@ =~= (ApplicationModel { pending: Some(answered), ..before }));
                }
                if failed {
                    self.clear_merge_window();
                }
            },
        }
    }

    /// The pointer over a window of another program that offered itself.
    pub fn handle_selection_event(
        &mut self,
        selection_id: u128,
        target_window: u64,
        target_index: u32,
        clicked: bool,
    )
        ensures
            final(self)@ == old(self)@.selection_told(
                selection_id,
                target_window,
                target_index,
                clicked,
            ),
    {
        let mut found: Option<(u64, WindowEndpoint)> = None;
        if let Some(pending) = &self.pending_merge_selection {
            if pending.selection_id == selection_id && clicked {
                if let Some(target) = find_endpoint(&pending.targets, target_window) {
                    found = Some((pending.source_window, target));
                }
            }
        }
        if let Some((source, target)) = found {
            self.clear_merge_window();
            self.emit(Effect::MergeForeign(source, target, target_index as usize));
        }
    }

    /// A merge was given up by the other side.
    pub fn handle_cancel_selection(&mut self, window: u64, selection_id: u128)
        ensures
            final(self)@ == if old(self)@.pending matches Some(pending) && pending.selection_id
                == selection_id {
                old(self)@.merge_cleared()
            } else if old(self)@.armed matches Some(armed) && armed.target_window == window
                && armed.selection_id == selection_id {
                old(self)@.armed_cleared()
            } else {
                old(self)@
            },
    {
        let pending: bool = match &self.pending_merge_selection {
            Some(pending) => pending.selection_id == selection_id,
            None => false,
        };
        let armed: bool = match self.armed_merge_selection {
            Some(armed) => armed.target_window == window && armed.selection_id == selection_id,
            None => false,
        };
        if pending {
            self.clear_merge_window();
        } else if armed {
            self.clear_armed_merge_selection();
        }
    }
}

/// Once a merge is given up, no window is part of one any more, and none shows
/// where a dropped tab goes.
pub proof fn law_cleared_merge_uses_no_window(app: ApplicationModel, window: u64)
    ensures
        !app.merge_cleared().merge_uses(window),
        app.merge_cleared().drop_marker is None,
{
}

/// A click is passed on only behind a position that the pointer is over and
/// that still takes a tab.
pub proof fn law_click_requires_a_valid_hover(
    app: ApplicationModel,
    armed: ArmedMergeSelection,
    windows: Seq<WindowFacts>,
    index: usize,
)
    requires
        app.armed == Some(armed),
        app.armed_input(armed, windows, ArmedInput::LeftPress).effects.contains(
            EffectModel::SendSelection(armed.source, armed.selection_id, index, true),
        ),
        !app.effects.contains(
            EffectModel::SendSelection(armed.source, armed.selection_id, index, true),
        ),
    ensures
        armed.hover.index == Some(index),
        takes_tab_at(windows, armed.target_window, index),
{
    let told = EffectModel::SendSelection(armed.source, armed.selection_id, index, true);
    let after = app.armed_input(armed, windows, ArmedInput::LeftPress);
    let at = choose|i: int| 0 <= i < after.effects.len() && after.effects[i] == told;
    if at < app.effects.len() {
        assert(after.effects[at] == app.effects[at]);
    }
}

} // verus!
