//! The recovery of sessions that have lost their window.

use crate::application::outbox::{
    find_window, window_of, words_of, Effect, EffectModel, WindowFacts,
};
use crate::application::state::{
    candidate_models, Application, ApplicationModel, CandidateModel, PendingPrepared,
    PendingPreparedCompletion, PendingPreparedRoute, PreparedModel, ProbeModel, RecoveryCandidate,
    RecoveryProbeState,
};
use crate::context::manager::{ContextManager, ManagerModel};
use crate::context::pane::{
    after, is_new_pane, is_view_of, next_rich_text_id, ContextDimension, IdSource,
};
use crate::context::protocol::SessionDescriptor;
use crate::context::pump::PreparedSession;
use crate::context::renderable::plain_cursor;
use crate::text::{char_is_control, from_chars, is_control, joined, to_chars, trim_chars, trimmed};
use std::collections::HashSet;
use vstd::prelude::*;

verus! {

broadcast use vstd::std_specs::hash::group_hash_axioms;

/// How many sessions are tried at a time.
pub const MAX_PROBES: usize = 8;

/// How many characters of a title are listed.
pub const MAX_LABEL: usize = 64;

/// How long a pane that was taken over may take to be shown, in milliseconds.
pub const READINESS_TIMEOUT: u64 = 25_000;

/// The characters that are not control codes.
pub open spec fn without_controls(s: Seq<char>) -> Seq<char>
    decreases s.len(),
{
    if s.len() == 0 {
        Seq::empty()
    } else {
        let rest = without_controls(s.drop_last());
        if char_is_control(s.last()) {
            rest
        } else {
            rest.push(s.last())
        }
    }
}

/// At most so many characters from the front.
pub open spec fn shortened(s: Seq<char>, limit: int) -> Seq<char> {
    if s.len() <= limit {
        s
    } else {
        s.take(limit)
    }
}

/// What a session is listed as.
pub open spec fn label_of(title: Seq<char>, working_dir: Option<Seq<char>>) -> Seq<char> {
    let source = if trimmed(title).len() > 0 {
        title
    } else {
        match working_dir {
            Some(dir) => dir,
            None => "unnamed session"@,
        }
    };
    let label = shortened(without_controls(source), MAX_LABEL as int);
    if label.len() == 0 {
        "unnamed session"@
    } else {
        label
    }
}

/// The line that offers a session.
pub open spec fn recovery_line(
    title: Seq<char>,
    working_dir: Option<Seq<char>>,
    had_active_owner: bool,
) -> Seq<char> {
    let opened = "Recover \""@ + label_of(title, working_dir);
    if had_active_owner {
        opened + "\" (active owner; takeover)"@
    } else {
        opened + "\""@
    }
}

fn label_chars(source: &Vec<char>) -> (r: Vec<char>)
    ensures
        r@ == shortened(without_controls(source@), MAX_LABEL as int),
{
    let mut kept: Vec<char> = Vec::new();
    let mut i: usize = 0;
    while i < source.len() && kept.len() < MAX_LABEL
        invariant
            i <= source@.len(),
            kept@ == without_controls(source@.take(i as int)),
            kept@.len() <= MAX_LABEL,
        decreases source@.len() - i,
    {
        proof {
            assert(source@.take(i + 1).drop_last() =~= source@.take(i as int));
        }
        if !is_control(source[i]) {
            kept.push(source[i]);
        }
        i += 1;
    }
    proof {
        lemma_without_controls_grows(source@, i as int);
        if i == source@.len() {
            assert(source@.take(i as int) =~= source@);
        }
        assert(kept@ =~= shortened(without_controls(source@), MAX_LABEL as int));
    }
    kept
}

/// The characters kept of a text begin with those kept of its beginning.
proof fn lemma_without_controls_grows(s: Seq<char>, i: int)
    requires
        0 <= i <= s.len(),
    ensures
        without_controls(s.take(i)).len() <= without_controls(s).len(),
        without_controls(s).take(without_controls(s.take(i)).len() as int) == without_controls(
            s.take(i),
        ),
    decreases s.len(),
{
    if i == s.len() {
        assert(s.take(i) =~= s);
        assert(without_controls(s).take(without_controls(s).len() as int) =~= without_controls(s));
    } else {
        lemma_without_controls_grows(s.drop_last(), i);
        assert(s.drop_last().take(i) =~= s.take(i));
        let part = without_controls(s.take(i));
        assert(without_controls(s).take(part.len() as int) =~= without_controls(
            s.drop_last(),
        ).take(part.len() as int));
    }
}

/// The characters of a text, if there is one.
pub open spec fn optional_words(text: Option<String>) -> Option<Seq<char>> {
    match text {
        Some(text) => Some(text@),
        None => None,
    }
}

/// The line that a prepared session has.
pub open spec fn line_of(prepared: PreparedSession) -> Seq<char> {
    let frame = prepared.initial_frame->0;
    recovery_line(frame.title@, optional_words(frame.working_dir), prepared.had_active_owner)
}

/// The line that offers a session: its title, or where it works.
pub fn recovery_label(prepared: &PreparedSession) -> (r: String)
    requires
        prepared.initial_frame is Some,
    ensures
        r@ == line_of(*prepared),
{
    let frame = prepared.initial_frame();
    let title: Vec<char> = to_chars(frame.title.as_str());
    let source: Vec<char> = if trim_chars(&title).len() > 0 {
        title
    } else {
        match &frame.working_dir {
            Some(dir) => to_chars(dir.as_str()),
            None => to_chars("unnamed session"),
        }
    };
    let kept: Vec<char> = label_chars(&source);
    let label: String = if kept.len() == 0 {
        "unnamed session".to_owned()
    } else {
        from_chars(&kept)
    };
    proof {
        assert(label@ == label_of(frame.title@, optional_words(frame.working_dir)));
    }
    let opened: String = joined("Recover \"", label.as_str());
    if prepared.had_active_owner() {
        joined(opened.as_str(), "\" (active owner; takeover)")
    } else {
        joined(opened.as_str(), "\"")
    }
}

impl RecoveryCandidate {
    /// A session that answered a probe. The claim on it ends with the probe:
    /// whoever picks a session may take their time.
    pub fn from_probe(descriptor: SessionDescriptor, prepared: PreparedSession) -> (r: Self)
        requires
            prepared.initial_frame is Some,
        ensures
            r@ == (CandidateModel { descriptor, label: line_of(prepared) }),
    {
        RecoveryCandidate { descriptor, label: recovery_label(&prepared) }
    }
}

/// What came of a probe, or, under the number zero, of the session that was
/// picked.
pub struct RecoveryProbeResult {
    pub id: u64,
    pub source_window: u64,
    pub prepared: Result<PreparedSession, String>,
    pub descriptor: Option<SessionDescriptor>,
}

impl RecoveryProbeResult {
    /// A prepared session comes with its frame.
    pub open spec fn well_formed(&self) -> bool {
        self.prepared matches Ok(prepared) ==> (prepared.initial_frame matches Some(frame)
            && frame.fits())
    }
}

/// The descriptors whose sessions are not in a window here.
pub open spec fn unowned(
    descriptors: Seq<SessionDescriptor>,
    owned: Seq<u128>,
    n: int,
) -> Seq<SessionDescriptor>
    decreases n,
{
    if n <= 0 {
        Seq::empty()
    } else if owned.contains(descriptors[n - 1].session_id) {
        unowned(descriptors, owned, n - 1)
    } else {
        unowned(descriptors, owned, n - 1).push(descriptors[n - 1])
    }
}

fn holds_id(owned: &Vec<u128>, id: u128) -> (r: bool)
    ensures
        r == owned@.contains(id),
{
    let mut i: usize = 0;
    while i < owned.len()
        invariant
            i <= owned@.len(),
            forall|j: int| 0 <= j < i ==> owned@[j] != id,
        decreases owned@.len() - i,
    {
        if owned[i] == id {
            return true;
        }
        i += 1;
    }
    false
}

fn leave_out_owned(descriptors: &Vec<SessionDescriptor>, owned: &Vec<u128>) -> (r: Vec<
    SessionDescriptor,
>)
    ensures
        r@ == unowned(descriptors@, owned@, descriptors@.len() as int),
{
    let mut rest: Vec<SessionDescriptor> = Vec::new();
    let mut i: usize = 0;
    while i < descriptors.len()
        invariant
            i <= descriptors@.len(),
            rest@ == unowned(descriptors@, owned@, i as int),
        decreases descriptors@.len() - i,
    {
        if !holds_id(owned, descriptors[i].session_id) {
            rest.push(descriptors[i]);
        }
        i += 1;
    }
    rest
}

/// The number behind that of a probe; zero is left to the session that is picked.
pub open spec fn next_probe(id: u64) -> u64 {
    if id == u64::MAX {
        1
    } else {
        (id + 1) as u64
    }
}

/// The sessions that are tried: the first few.
pub open spec fn tried(descriptors: Seq<SessionDescriptor>) -> Seq<SessionDescriptor> {
    if descriptors.len() <= MAX_PROBES {
        descriptors
    } else {
        descriptors.take(MAX_PROBES as int)
    }
}

impl ApplicationModel {
    pub open spec fn probing(self, window: u64, descriptors: Seq<SessionDescriptor>) -> ApplicationModel {
        let list = tried(descriptors);
        if list.len() == 0 {
            self
        } else {
            (ApplicationModel {
                probe: Some(
                    ProbeModel {
                        id: self.next_probe_id,
                        source_window: window,
                        remaining: list.len() as usize,
                        candidates: Seq::empty(),
                    },
                ),
                next_probe_id: next_probe(self.next_probe_id),
                ..self.emitting(EffectModel::DrainProbes)
            }).emitting_all(
                list.map_values(
                    |d: SessionDescriptor| EffectModel::Probe(self.next_probe_id, window, d),
                ),
            )
        }
    }

    /// An error is shown in the focused pane of a window.
    pub open spec fn failed(self, windows: Seq<WindowFacts>, window: u64, error: Seq<char>) -> ApplicationModel {
        match window_of(windows, window) {
            Some(facts) => self.emitting(
                EffectModel::ShowError(window, facts.current_route, error),
            ),
            None => self,
        }
    }

    /// The window that lists sessions to recover, or will.
    pub open spec fn recovering_window(self) -> Option<u64> {
        match self.probe {
            Some(probe) => Some(probe.source_window),
            None => match self.recovery_targets {
                Some(targets) => Some(targets.0),
                None => None,
            },
        }
    }

    /// A probe answers.
    pub open spec fn probed(
        self,
        windows: Seq<WindowFacts>,
        id: u64,
        window: u64,
        candidate: Option<CandidateModel>,
    ) -> ApplicationModel {
        match self.probe {
            Some(probe) => if probe.id != id || probe.source_window != window {
                self
            } else {
                let candidates = match candidate {
                    Some(candidate) => probe.candidates.push(candidate),
                    None => probe.candidates,
                };
                let remaining = if probe.remaining == 0 {
                    0
                } else {
                    (probe.remaining - 1) as usize
                };
                if remaining != 0 {
                    ApplicationModel {
                        probe: Some(ProbeModel { remaining, candidates, ..probe }),
                        ..self
                    }
                } else {
                    let done = ApplicationModel { probe: None, ..self };
                    if !(window_of(windows, window) matches Some(facts) && facts.palette_open) {
                        done
                    } else if candidates.len() == 0 {
                        done.failed(
                            windows,
                            window,
                            "no recoverable sessions could be prepared"@,
                        ).emitting(EffectModel::ClearMergeUi(window))
                    } else {
                        (ApplicationModel {
                            recovery_targets: Some((window, candidates)),
                            ..done
                        }).emitting(
                            EffectModel::RecoveryTargets(
                                window,
                                candidates.map_values(|c: CandidateModel| c.label),
                            ),
                        )
                    }
                }
            },
            None => self,
        }
    }
}

fn labels(candidates: &Vec<RecoveryCandidate>) -> (r: Vec<String>)
    ensures
        words_of(r@) == candidate_models(candidates@).map_values(|c: CandidateModel| c.label),
{
    let mut list: Vec<String> = Vec::new();
    let mut i: usize = 0;
    while i < candidates.len()
        invariant
            i <= candidates@.len(),
            list@.len() == i,
            forall|j: int| 0 <= j < i ==> (#[trigger] list@[j])@ == candidates@[j].label@,
        decreases candidates@.len() - i,
    {
        list.push(candidates[i].label.clone());
        i += 1;
    }
    proof {
        assert(words_of(list@) =~= candidate_models(candidates@).map_values(
            |c: CandidateModel| c.label,
        ));
    }
    list
}

impl Application {
    /// Tries whether sessions can be recovered, a few at most.
    pub fn begin_recovery_probes(&mut self, window: u64, descriptors: Vec<SessionDescriptor>)
        ensures
            final(self)@ == old(self)@.probing(window, descriptors@),
    {
        let count: usize = if descriptors.len() <= MAX_PROBES {
            descriptors.len()
        } else {
            MAX_PROBES
        };
        let ghost list = tried(descriptors@);
        if count == 0 {
            return;
        }
        self.emit(Effect::DrainProbes);
        let id: u64 = self.next_recovery_probe_id;
        let next: u64 = id.wrapping_add(1);
        self.next_recovery_probe_id = if next == 0 {
            1
        } else {
            next
        };
        let state = RecoveryProbeState {
            id,
            source_window: window,
            remaining: count,
            candidates: Vec::new(),
        };
        let ghost started = state@;
        self.recovery_probe_state = Some(state);
        let ghost rest = self@;
        let ghost asking = |d: SessionDescriptor| EffectModel::Probe(id, window, d);
        proof {
            assert(started.candidates =~= Seq::empty());
            assert(rest =~= (ApplicationModel {
                probe: Some(started),
                next_probe_id: next_probe(id),
                ..old(self)@.emitting(EffectModel::DrainProbes)
            }));
            assert(rest.emitting_all(descriptors@.take(0).map_values(asking)) =~= rest);
        }
        let mut i: usize = 0;
        while i < count
            invariant
                i <= count <= descriptors@.len(),
                asking == (|d: SessionDescriptor| EffectModel::Probe(id, window, d)),
                self@ == rest.emitting_all(descriptors@.take(i as int).map_values(asking)),
            decreases count - i,
        {
            self.emit(Effect::Probe(id, window, descriptors[i]));
            proof {
                assert(descriptors@.take(i + 1).map_values(asking) =~= descriptors@.take(
                    i as int,
                ).map_values(asking).push(asking(descriptors@[i as int])));
                assert(self@ =~= rest.emitting_all(descriptors@.take(i + 1).map_values(asking)));
            }
            i += 1;
        }
        proof {
            assert(descriptors@.take(i as int) =~= list);
            assert(list.map_values(asking) =~= list.map_values(
                |d: SessionDescriptor| EffectModel::Probe(old(self)@.next_probe_id, window, d),
            ));
        }
    }

    pub fn show_merge_error(&mut self, windows: &Vec<WindowFacts>, window: u64, error: String)
        ensures
            final(self)@ == old(self)@.failed(windows@, window, error@),
    {
        if let Some(facts) = find_window(windows, window) {
            self.emit(Effect::ShowError(window, facts.current_route, error));
        }
    }

    /// Looks for sessions to recover among those that were found; the ones
    /// that a window here has are left out. `false` where there is none, or the
    /// window is gone.
    pub fn begin_recovery_action(
        &mut self,
        windows: &Vec<WindowFacts>,
        window: u64,
        found: &Vec<SessionDescriptor>,
        owned: &Vec<u128>,
    ) -> (r: bool)
        ensures
            ({
                let rest = unowned(found@, owned@, found@.len() as int);
                &&& r == (rest.len() > 0 && window_of(windows@, window) is Some)
                &&& final(self)@ == if rest.len() == 0 {
                    old(self)@.failed(windows@, window, "no saved sessions are available"@)
                } else if r {
                    old(self)@.probing(window, rest).emitting(
                        EffectModel::RecoveryTargets(window, Seq::empty()),
                    )
                } else {
                    ApplicationModel { probe: None, ..old(self)@.probing(window, rest) }
                }
            }),
    {
        let rest: Vec<SessionDescriptor> = leave_out_owned(found, owned);
        if rest.len() == 0 {
            self.show_merge_error(windows, window, "no saved sessions are available".to_owned());
            return false;
        }
        self.begin_recovery_probes(window, rest);
        if find_window(windows, window).is_some() {
            let none: Vec<String> = Vec::new();
            proof {
                assert(words_of(none@) =~= Seq::empty());
            }
            self.emit(Effect::RecoveryTargets(window, none));
            true
        } else {
            let ghost before = self@;
            self.recovery_probe_state = None;
            proof {
                assert(self@ =~= (ApplicationModel { probe: None, ..before }));
            }
            false
        }
    }

    /// A session of the list was picked. `false` where the list is not this
    /// window's, or has no such line.
    pub fn select_recovery_target(&mut self, window: u64, index: usize) -> (r: bool)
        ensures
            r == (old(self)@.recovery_targets matches Some(targets) && targets.0 == window && index
                < targets.1.len()),
            final(self)@ == if r {
                old(self)@.recovery_cleared().emitting(
                    EffectModel::ClearMergeUi(window),
                ).emitting(
                    EffectModel::Recover(
                        window,
                        (old(self)@.recovery_targets->0).1[index as int].descriptor,
                    ),
                )
            } else {
                old(self)@
            },
    {
        let picked: Option<SessionDescriptor> = match &self.recovery_targets {
            Some(targets) => if targets.0 == window && index < targets.1.len() {
                Some(targets.1[index].descriptor)
            } else {
                None
            },
            None => None,
        };
        match picked {
            Some(descriptor) => {
                self.clear_recovery();
                self.emit(Effect::ClearMergeUi(window));
                self.emit(Effect::Recover(window, descriptor));
                true
            },
            None => false,
        }
    }

    /// Gives a recovery up whose list was closed. `false` where it was.
    pub fn keep_recovery(&mut self, windows: &Vec<WindowFacts>) -> (r: bool)
        ensures
            ({
                let closed = old(self)@.recovering_window() matches Some(window) && !(window_of(
                    windows@,
                    window,
                ) matches Some(facts) && facts.palette_open);
                &&& r == !closed
                &&& final(self)@ == if closed {
                    old(self)@.recovery_cleared().emitting(
                        EffectModel::ClearMergeUi(old(self)@.recovering_window()->0),
                    )
                } else {
                    old(self)@
                }
            }),
    {
        let listing: Option<u64> = match &self.recovery_probe_state {
            Some(probe) => Some(probe.source_window),
            None => match &self.recovery_targets {
                Some(targets) => Some(targets.0),
                None => None,
            },
        };
        if let Some(window) = listing {
            let open: bool = match find_window(windows, window) {
                Some(facts) => facts.palette_open,
                None => false,
            };
            if !open {
                self.clear_recovery();
                self.emit(Effect::ClearMergeUi(window));
                return false;
            }
        }
        true
    }

    /// Takes what came of a probe. The result is the session that was picked,
    /// once it is prepared, where its window is still open.
    pub fn take_probe_result(
        &mut self,
        windows: &Vec<WindowFacts>,
        result: RecoveryProbeResult,
    ) -> (r: Option<PreparedSession>)
        requires
            result.well_formed(),
        ensures
            result.id == 0 ==> match result.prepared {
                Ok(prepared) => {
                    &&& final(self)@ == old(self)@
                    &&& r == if window_of(windows@, result.source_window) is Some {
                        Some(prepared)
                    } else {
                        None
                    }
                },
                Err(error) => {
                    &&& final(self)@ == old(self)@.failed(
                        windows@,
                        result.source_window,
                        error@,
                    )
                    &&& r is None
                },
            },
            result.id != 0 ==> {
                &&& r is None
                &&& final(self)@ == old(self)@.probed(
                    windows@,
                    result.id,
                    result.source_window,
                    match (result.prepared, result.descriptor) {
                        (Ok(prepared), Some(descriptor)) => Some(
                            CandidateModel { descriptor, label: line_of(prepared) },
                        ),
                        _ => None,
                    },
                )
            },
    {
        if result.id == 0 {
            return match result.prepared {
                Ok(prepared) => if find_window(windows, result.source_window).is_some() {
                    Some(prepared)
                } else {
                    None
                },
                Err(error) => {
                    self.show_merge_error(windows, result.source_window, error);
                    None
                },
            };
        }
        let window: u64 = result.source_window;
        let ghost before = self@;
        let mut taken: Option<RecoveryProbeState> = None;
        core::mem::swap(&mut taken, &mut self.recovery_probe_state);
        let ghost without = ApplicationModel { probe: None, ..before };
        proof {
            assert(self@ =~= without);
        }
        let mut state: RecoveryProbeState = match taken {
            Some(state) => state,
            None => {
                proof {
                    assert(self@ =~= before);
                }
                return None;
            },
        };
        if state.id != result.id || state.source_window != window {
            self.recovery_probe_state = Some(state);
            proof {
                assert(self@ =~= before);
            }
            return None;
        }
        let ghost probe = state@;
        state.remaining = state.remaining.saturating_sub(1);
        if let Ok(prepared) = result.prepared {
            if let Some(descriptor) = result.descriptor {
                state.candidates.push(RecoveryCandidate::from_probe(descriptor, prepared));
                proof {
                    assert(candidate_models(state.candidates@) =~= probe.candidates.push(
                        state.candidates@.last()@,
                    ));
                }
            }
        }
        if state.remaining != 0 {
            let ghost now = state@;
            self.recovery_probe_state = Some(state);
            proof {
                assert(self@ =~= (ApplicationModel { probe: Some(now), ..before }));
            }
            return None;
        }
        let open: bool = match find_window(windows, window) {
            Some(facts) => facts.palette_open,
            None => false,
        };
        if !open {
            return None;
        }
        if state.candidates.len() == 0 {
            let error: String = "no recoverable sessions could be prepared".to_owned();
            self.show_merge_error(windows, window, error);
            self.emit(Effect::ClearMergeUi(window));
            return None;
        }
        let lines: Vec<String> = labels(&state.candidates);
        let ghost listed = candidate_models(state.candidates@);
        self.recovery_targets = Some((window, state.candidates));
        proof {
            assert(self@ =~= (ApplicationModel {
                recovery_targets: Some((window, listed)),
                ..without
            }));
        }
        self.emit(Effect::RecoveryTargets(window, lines));
        None
    }

    /// Opens a tab for a recovered session. A full window refuses it.
    pub fn start_recovery_import(
        &mut self,
        manager: &mut ContextManager,
        window: u64,
        prepared: PreparedSession,
        now: u64,
        ids: &mut IdSource,
    ) -> (r: Result<(), String>)
        requires
            old(manager)@.well_formed(),
            old(manager)@.tabs.len() > 0,
            prepared.initial_frame matches Some(frame) && frame.fits(),
            now + READINESS_TIMEOUT <= u64::MAX,
        ensures
            final(manager)@.well_formed(),
            match r {
                Err(error) => {
                    &&& old(manager)@.tabs.len() >= old(manager)@.capacity
                    &&& error@ == "target context capacity is full"@
                    &&& final(manager)@ == old(manager)@
                    &&& final(self)@ == old(self)@
                    &&& *final(ids) == (IdSource {
                        next_rich_text: after(old(ids).next_rich_text),
                        ..*old(ids)
                    })
                },
                Ok(_) => {
                    let tab = final(manager)@.tabs.last();
                    &&& old(manager)@.tabs.len() < old(manager)@.capacity
                    &&& final(manager)@ == (ManagerModel {
                        tabs: old(manager)@.tabs.push(tab),
                        current_index: old(manager)@.tabs.len() as int,
                        ..old(manager)@
                    })
                    &&& tab.id == old(ids).next_tab
                    &&& tab.panes.len() == 1
                    &&& is_new_pane(
                        &tab.panes[0],
                        old(manager)@.window_id,
                        old(ids).next_route,
                        old(ids).next_rich_text,
                        old(manager)@.current_tab().current_pane().dimension,
                        plain_cursor(),
                    )
                    &&& tab.panes[0].pending_session == Some(
                        PreparedSession { initial_frame: None, ..prepared },
                    )
                    &&& is_view_of(
                        &tab.panes[0].terminal,
                        &prepared.initial_frame->0,
                        old(manager)@.window_id,
                    )
                    &&& *final(ids) == (IdSource {
                        next_route: after(old(ids).next_route),
                        next_rich_text: after(old(ids).next_rich_text),
                        next_tab: old(ids).next_tab.wrapping_add(1),
                    })
                    &&& final(self)@ == (ApplicationModel {
                        prepared: old(self)@.prepared.push(
                            PreparedModel {
                                routes: seq![
                                    PendingPreparedRoute {
                                        source_route: None,
                                        target_route: old(ids).next_route,
                                    },
                                ],
                                ready: Set::empty(),
                                window_id: window,
                                deadline: (now + READINESS_TIMEOUT) as u64,
                                completion: PendingPreparedCompletion::Recovery,
                            },
                        ),
                        ..old(self)@
                    }).emitting(EffectModel::Refresh(window)).emitting(
                        EffectModel::Redraw(window),
                    ).emitting(EffectModel::Wake(window))
                },
            },
    {
        let dimension: ContextDimension = manager.current().dimension;
        let rich_text_id: usize = next_rich_text_id(ids);
        let route: usize = match manager.insert_prepared_pane(
            prepared,
            rich_text_id,
            dimension,
            ids,
        ) {
            Ok(route) => route,
            Err(_) => {
                return Err("target context capacity is full".to_owned());
            },
        };
        let mut routes: Vec<PendingPreparedRoute> = Vec::new();
        routes.push(PendingPreparedRoute { source_route: None, target_route: route });
        let pending = PendingPrepared {
            routes,
            ready: HashSet::new(),
            window_id: window,
            deadline: now + READINESS_TIMEOUT,
            completion: PendingPreparedCompletion::Recovery,
        };
        let ghost waiting = pending@;
        self.pending_prepared.push(pending);
        proof {
            assert(waiting.ready =~= Set::empty());
            assert(waiting.routes =~= seq![
                PendingPreparedRoute { source_route: None, target_route: route },
            ]);
            assert(self@.prepared =~= old(self)@.prepared.push(waiting));
            assert(self@ =~= (ApplicationModel {
                prepared: old(self)@.prepared.push(waiting),
                ..old(self)@
            }));
        }
        self.emit(Effect::Refresh(window));
        self.emit(Effect::Redraw(window));
        self.emit(Effect::Wake(window));
        Ok(())
    }
}

/// The sessions that windows here have are never offered for recovery.
pub proof fn law_owned_sessions_are_not_offered(
    descriptors: Seq<SessionDescriptor>,
    owned: Seq<u128>,
    n: int,
)
    requires
        0 <= n <= descriptors.len(),
    ensures
        forall|i: int|
            0 <= i < unowned(descriptors, owned, n).len() ==> !owned.contains(
                (#[trigger] unowned(descriptors, owned, n)[i]).session_id,
            ),
        forall|k: int|
            0 <= k < n && !owned.contains((#[trigger] descriptors[k]).session_id)
                ==> unowned(descriptors, owned, n).contains(descriptors[k]),
    decreases n,
{
    if n > 0 {
        law_owned_sessions_are_not_offered(descriptors, owned, n - 1);
        let rest = unowned(descriptors, owned, n - 1);
        let all = unowned(descriptors, owned, n);
        assert forall|k: int| 0 <= k < n && !owned.contains(
            (#[trigger] descriptors[k]).session_id,
        ) implies all.contains(descriptors[k]) by {
            if k < n - 1 {
                assert(rest.contains(descriptors[k]));
                let i = choose|i: int| 0 <= i < rest.len() && rest[i] == descriptors[k];
                assert(all[i] == descriptors[k]);
            } else {
                assert(all.last() == descriptors[k]);
            }
        }
    }
}

/// The number of a probe is never the one under which a picked session comes.
pub proof fn law_probes_are_not_picks(id: u64)
    ensures
        next_probe(id) != 0,
{
}

} // verus!
