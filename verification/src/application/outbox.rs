//! What the coordination of windows reads, and what it asks to be done.

use crate::context::protocol::SessionDescriptor;
use crate::renderer::frame::WindowOverlay;
use vstd::prelude::*;

verus! {

/// The window of a program that can be asked for a merge.
#[derive(Clone, Copy, Debug, PartialEq, Eq, Structural)]
pub struct WindowEndpoint {
    pub instance: u128,
    pub native_window_id: u64,
}

/// What is read of an open window.
#[derive(Clone, Copy, Debug, PartialEq, Eq, Structural)]
pub struct WindowFacts {
    pub id: u64,
    /// The window shows its terminal, not a question or a welcome.
    pub terminal: bool,
    pub tabs: usize,
    pub capacity: usize,
    pub current_index: usize,
    pub current_tab: u64,
    pub current_route: usize,
    pub palette_open: bool,
}

impl WindowFacts {
    /// So many tabs fit in at a position.
    pub open spec fn takes(&self, index: usize, count: usize) -> bool {
        index <= self.tabs && (count == 0 || count + self.tabs <= self.capacity)
    }

    pub fn can_insert(&self, index: usize, count: usize) -> (r: bool)
        ensures
            r == self.takes(index, count),
    {
        index <= self.tabs && count <= self.capacity.saturating_sub(self.tabs)
    }

    /// The window shows a terminal with tabs.
    pub open spec fn shows_tabs(&self) -> bool {
        self.terminal && self.tabs > 0
    }
}

/// The first window, from `from` on, with the given number.
pub open spec fn window_from(windows: Seq<WindowFacts>, id: u64, from: int) -> Option<WindowFacts>
    decreases windows.len() - from,
{
    if from < 0 || from >= windows.len() {
        None
    } else if windows[from].id == id {
        Some(windows[from])
    } else {
        window_from(windows, id, from + 1)
    }
}

/// The window with the given number.
pub open spec fn window_of(windows: Seq<WindowFacts>, id: u64) -> Option<WindowFacts> {
    window_from(windows, id, 0)
}

pub fn find_window(windows: &Vec<WindowFacts>, id: u64) -> (r: Option<WindowFacts>)
    ensures
        r == window_of(windows@, id),
{
    let mut i: usize = 0;
    while i < windows.len()
        invariant
            i <= windows@.len(),
            window_of(windows@, id) == window_from(windows@, id, i as int),
        decreases windows@.len() - i,
    {
        if windows[i].id == id {
            return Some(windows[i]);
        }
        i += 1;
    }
    None
}

/// The answer to another program.
pub enum Response {
    Hello,
    SelectionArmed,
    Committed(Vec<u64>),
    Rejected(String),
}

/// The contents of an answer.
pub enum ResponseModel {
    Hello,
    SelectionArmed,
    Committed(Seq<u64>),
    Rejected(Seq<char>),
}

impl View for Response {
    type V = ResponseModel;

    open spec fn view(&self) -> ResponseModel {
        match self {
            Response::Hello => ResponseModel::Hello,
            Response::SelectionArmed => ResponseModel::SelectionArmed,
            Response::Committed(routes) => ResponseModel::Committed(routes@),
            Response::Rejected(text) => ResponseModel::Rejected(text@),
        }
    }
}

/// What is to be done to a window, or asked of another program. What is said
/// of a window that is not open has no effect.
pub enum Effect {
    /// What covers the window; it is drawn again if that changes.
    Overlay(u64, Option<WindowOverlay>),
    /// Marks where a dropped tab goes; the window is drawn again if that changes.
    DropMarker(u64, usize),
    ClearDropMarker(u64),
    /// Marks the tab that moves.
    SourceMarker(u64, usize),
    ClearSourceMarker(u64),
    /// Closes the list of merge targets and draws the window again.
    ClearMergeUi(u64),
    Redraw(u64),
    /// Lays the window out again, after its tabs have changed.
    Refresh(u64),
    /// Forgets what is kept for panes that are gone.
    DiscardRoutes(u64, Vec<usize>),
    Focus(u64),
    RemoveWindow(u64),
    /// Lists sessions to recover and draws the window again.
    RecoveryTargets(u64, Vec<String>),
    /// Shows an error in a pane.
    ShowError(u64, usize, String),
    /// Looks for windows of other programs.
    DiscoverPeers(u64),
    ArmSelection(WindowEndpoint, u128),
    CancelSelection(WindowEndpoint, u128),
    SendSelection(WindowEndpoint, u128, usize, bool),
    /// Tries whether a session can be recovered.
    Probe(u64, u64, SessionDescriptor),
    /// Prepares the recovery of a session.
    Recover(u64, SessionDescriptor),
    /// Forgets the results of the probes that came in.
    DrainProbes,
    /// Offers the current tab to a window of another program.
    MergeForeign(u64, WindowEndpoint, usize),
    /// Answers a request by the number it came under.
    Reply(u64, Response),
    /// Wakes the loop for a window.
    Wake(u64),
    /// Forgets the timers of a pane.
    Unschedule(usize),
    /// Takes an offer of this window back.
    WithdrawOffer(u128),
    RejectDrag(u64, u64),
    CancelDrag(u64, u64),
    FinishDrag(u64, u64),
    /// Resets the pointer and answers with the pane whose selection scrolled.
    ResetDragInput(u64),
    /// Moves a tab into a window of its own.
    Detach(u64, u64),
    /// Lets the window system move the window on.
    ResumeWindowDrag(u64, Option<(u64, u64)>),
    /// Lets go of a drag at the frame.
    ForgetFrameDrag(u64, u64, u64),
    /// Installs a window again.
    Reinstall(u64),
    /// Closes a pane in whichever window it is.
    CloseTerminal(usize),
    CloseWindow(u64),
    /// Asks whether the window is to be closed.
    ConfirmQuit(u64),
    /// Takes a window out of sight, but keeps it.
    Retain(u64),
    /// Ends the drag of a tab within its window.
    CancelIslandDrag(u64),
    /// Gives up a drag that started in a window.
    CancelDragSource(u64, u64),
}

/// The contents of an effect.
pub enum EffectModel {
    Overlay(u64, Option<WindowOverlay>),
    DropMarker(u64, usize),
    ClearDropMarker(u64),
    SourceMarker(u64, usize),
    ClearSourceMarker(u64),
    ClearMergeUi(u64),
    Redraw(u64),
    Refresh(u64),
    DiscardRoutes(u64, Seq<usize>),
    Focus(u64),
    RemoveWindow(u64),
    RecoveryTargets(u64, Seq<Seq<char>>),
    ShowError(u64, usize, Seq<char>),
    DiscoverPeers(u64),
    ArmSelection(WindowEndpoint, u128),
    CancelSelection(WindowEndpoint, u128),
    SendSelection(WindowEndpoint, u128, usize, bool),
    Probe(u64, u64, SessionDescriptor),
    Recover(u64, SessionDescriptor),
    DrainProbes,
    MergeForeign(u64, WindowEndpoint, usize),
    Reply(u64, ResponseModel),
    Wake(u64),
    Unschedule(usize),
    WithdrawOffer(u128),
    RejectDrag(u64, u64),
    CancelDrag(u64, u64),
    FinishDrag(u64, u64),
    ResetDragInput(u64),
    Detach(u64, u64),
    ResumeWindowDrag(u64, Option<(u64, u64)>),
    ForgetFrameDrag(u64, u64, u64),
    Reinstall(u64),
    CloseTerminal(usize),
    CloseWindow(u64),
    ConfirmQuit(u64),
    Retain(u64),
    CancelIslandDrag(u64),
    CancelDragSource(u64, u64),
}

/// The characters of some texts.
pub open spec fn words_of(list: Seq<String>) -> Seq<Seq<char>> {
    list.map_values(|t: String| t@)
}

impl View for Effect {
    type V = EffectModel;

    open spec fn view(&self) -> EffectModel {
        match self {
            Effect::Overlay(a, b) => EffectModel::Overlay(*a, *b),
            Effect::DropMarker(a, b) => EffectModel::DropMarker(*a, *b),
            Effect::ClearDropMarker(a) => EffectModel::ClearDropMarker(*a),
            Effect::SourceMarker(a, b) => EffectModel::SourceMarker(*a, *b),
            Effect::ClearSourceMarker(a) => EffectModel::ClearSourceMarker(*a),
            Effect::ClearMergeUi(a) => EffectModel::ClearMergeUi(*a),
            Effect::Redraw(a) => EffectModel::Redraw(*a),
            Effect::Refresh(a) => EffectModel::Refresh(*a),
            Effect::DiscardRoutes(a, b) => EffectModel::DiscardRoutes(*a, b@),
            Effect::Focus(a) => EffectModel::Focus(*a),
            Effect::RemoveWindow(a) => EffectModel::RemoveWindow(*a),
            Effect::RecoveryTargets(a, b) => EffectModel::RecoveryTargets(*a, words_of(b@)),
            Effect::ShowError(a, b, c) => EffectModel::ShowError(*a, *b, c@),
            Effect::DiscoverPeers(a) => EffectModel::DiscoverPeers(*a),
            Effect::ArmSelection(a, b) => EffectModel::ArmSelection(*a, *b),
            Effect::CancelSelection(a, b) => EffectModel::CancelSelection(*a, *b),
            Effect::SendSelection(a, b, c, d) => EffectModel::SendSelection(*a, *b, *c, *d),
            Effect::Probe(a, b, c) => EffectModel::Probe(*a, *b, *c),
            Effect::Recover(a, b) => EffectModel::Recover(*a, *b),
            Effect::DrainProbes => EffectModel::DrainProbes,
            Effect::MergeForeign(a, b, c) => EffectModel::MergeForeign(*a, *b, *c),
            Effect::Reply(a, b) => EffectModel::Reply(*a, b@),
            Effect::Wake(a) => EffectModel::Wake(*a),
            Effect::Unschedule(a) => EffectModel::Unschedule(*a),
            Effect::WithdrawOffer(a) => EffectModel::WithdrawOffer(*a),
            Effect::RejectDrag(a, b) => EffectModel::RejectDrag(*a, *b),
            Effect::CancelDrag(a, b) => EffectModel::CancelDrag(*a, *b),
            Effect::FinishDrag(a, b) => EffectModel::FinishDrag(*a, *b),
            Effect::ResetDragInput(a) => EffectModel::ResetDragInput(*a),
            Effect::Detach(a, b) => EffectModel::Detach(*a, *b),
            Effect::ResumeWindowDrag(a, b) => EffectModel::ResumeWindowDrag(*a, *b),
            Effect::ForgetFrameDrag(a, b, c) => EffectModel::ForgetFrameDrag(*a, *b, *c),
            Effect::Reinstall(a) => EffectModel::Reinstall(*a),
            Effect::CloseTerminal(a) => EffectModel::CloseTerminal(*a),
            Effect::CloseWindow(a) => EffectModel::CloseWindow(*a),
            Effect::ConfirmQuit(a) => EffectModel::ConfirmQuit(*a),
            Effect::Retain(a) => EffectModel::Retain(*a),
            Effect::CancelIslandDrag(a) => EffectModel::CancelIslandDrag(*a),
            Effect::CancelDragSource(a, b) => EffectModel::CancelDragSource(*a, *b),
        }
    }
}

/// The contents of some effects.
pub open spec fn effect_models(effects: Seq<Effect>) -> Seq<EffectModel> {
    effects.map_values(|e: Effect| e@)
}

} // verus!
