//! The dragging of tabs and windows between windows.

use crate::application::outbox::{find_window, window_of, Effect, EffectModel, WindowFacts};
use crate::application::state::{Application, ApplicationModel};
use crate::renderer::frame::WindowOverlay;
use vstd::prelude::*;

verus! {

/// How long a dragged tab may be over no window, in milliseconds.
pub const TAB_DETACH_GRACE_PERIOD: u64 = 750;

/// What is closed once a drag ends.
#[derive(Clone, Copy, Debug, PartialEq, Eq, Structural)]
pub enum DeferredTabDragClose {
    Terminal(usize),
    Window(u64),
}

/// What is dragged here from another program.
#[derive(Clone, Copy, Debug, PartialEq, Eq)]
pub struct ForeignDrag {
    pub window: u64,
    pub offer: u64,
    pub index: usize,
    pub dropped: bool,
    pub selected_move: bool,
    pub receiving: bool,
    pub token: Option<u128>,
}

/// Where a dragged tab comes from, and the panes that it had.
pub struct OwnerRoute {
    pub window_id: u64,
    pub tab_id: u64,
    pub route_ids: Vec<usize>,
}

/// The window that a dragged tab is over.
#[derive(Clone, Copy, Debug, PartialEq, Eq, Structural)]
pub struct Hover {
    pub offer_id: u64,
    pub target_window: u64,
    pub index: usize,
    pub dropped: bool,
}

/// How a drag ended.
#[derive(Clone, Copy, Debug, PartialEq, Eq, Structural)]
pub enum Outcome {
    Moved,
    Outside,
    RolledBack,
}

/// How far a drag has come.
#[derive(Clone, Copy, Debug, PartialEq, Eq, Structural)]
pub enum TabDragLifecycle {
    Active,
    Complete(Outcome),
    Cancelled,
}

/// A drag that started here.
pub struct TabDrag {
    pub source_window: u64,
    pub tab_id: u64,
    pub original_index: usize,
    pub tab_count: usize,
    pub whole_window: bool,
    pub token: u128,
    pub drag_id: Option<u64>,
    pub owner: Option<OwnerRoute>,
    pub hover: Option<Hover>,
    pub lifecycle: TabDragLifecycle,
    /// The seat and the pointer that hold the window's frame.
    pub frame_grab: Option<(u64, u64)>,
}

impl TabDrag {
    pub open spec fn concerns(&self, window: u64) -> bool {
        ||| self.source_window == window
        ||| (self.hover matches Some(hover) && hover.target_window == window)
    }

    pub open spec fn owns(&self, offer: u64) -> bool {
        self.hover matches Some(hover) && hover.offer_id == offer
    }

    pub open spec fn has_ended(&self) -> bool {
        self.lifecycle !is Active
    }

    pub open spec fn is_target(&self, window: u64) -> bool {
        self.owner matches Some(owner) ==> owner.window_id != window
    }
}

/// A window that a drag concerns is closed when the drag ends.
pub fn deferred_window_close(drag: &TabDrag, window_id: u64) -> (r: Option<DeferredTabDragClose>)
    ensures
        r == if drag.concerns(window_id) {
            Some(DeferredTabDragClose::Window(window_id))
        } else {
            None
        },
{
    let hovered: bool = match &drag.hover {
        Some(hover) => hover.target_window == window_id,
        None => false,
    };
    if drag.source_window == window_id || hovered {
        Some(DeferredTabDragClose::Window(window_id))
    } else {
        None
    }
}

/// A tab is not dropped on the window it comes from.
pub fn is_valid_tab_drag_target(drag: &TabDrag, window_id: u64) -> (r: bool)
    ensures
        r == drag.is_target(window_id),
{
    match &drag.owner {
        Some(owner) => owner.window_id != window_id,
        None => true,
    }
}

/// The pointer has left the surface, whose size is given; both in whole pixels.
pub fn pointer_outside_surface(x: i64, y: i64, width: u32, height: u32) -> (r: bool)
    ensures
        r == !(0 <= x < width && 0 <= y < height),
{
    x < 0 || y < 0 || x >= width as i64 || y >= height as i64
}

/// Where a dragged tab goes, or behind which tabs a dragged window goes.
pub open spec fn drag_target(
    windows: Seq<WindowFacts>,
    window: u64,
    drop_index: Option<usize>,
    whole_window: bool,
    tab_count: usize,
) -> Option<usize> {
    match window_of(windows, window) {
        Some(facts) => if !facts.terminal {
            None
        } else if whole_window {
            if facts.takes(facts.tabs, tab_count) {
                Some(facts.tabs)
            } else {
                None
            }
        } else {
            match drop_index {
                Some(index) => if facts.takes(index, 1) {
                    Some(index)
                } else {
                    None
                },
                None => None,
            }
        },
        None => None,
    }
}

pub fn tab_drag_target_index(
    windows: &Vec<WindowFacts>,
    window: u64,
    drop_index: Option<usize>,
    whole_window: bool,
    tab_count: usize,
) -> (r: Option<usize>)
    ensures
        r == drag_target(windows@, window, drop_index, whole_window, tab_count),
{
    match find_window(windows, window) {
        Some(facts) => if !facts.terminal {
            None
        } else if whole_window {
            if facts.can_insert(facts.tabs, tab_count) {
                Some(facts.tabs)
            } else {
                None
            }
        } else {
            match drop_index {
                Some(index) => if facts.can_insert(index, 1) {
                    Some(index)
                } else {
                    None
                },
                None => None,
            }
        },
        None => None,
    }
}

/// What the state of a drag is told.
pub enum TabDragEvent {
    Prepared(u64),
    PrepareFailed,
    OwnerStarted(u64, OwnerRoute),
    OwnerStartFailed(u64),
    Enter(u64, u64, usize),
    Motion(u64, usize),
    Leave(u64),
    Drop(u64),
    SourceActionsChanged(u64, bool),
    SelectedActionChanged(u64, bool),
    DataReady(u64, Vec<u8>),
    DataFailed(u64),
    TargetCommitted,
    TargetRejected,
    OfferCancelled(u64),
    SourceFinished(u64),
    SourceCancelled(u64),
    ForeignFinished(u64),
    ForeignCommitted(u128),
    /// The tab was over no window for long enough.
    Detach,
}

/// What the window system tells of drags.
pub enum ToplevelDragEvent {
    /// A window's frame is dragged by a pointer of a seat.
    FrameDrag(u64, u64),
    Entered(u64),
    Motion(u64),
    Left(u64),
    Dropped(u64),
    SourceActionsChanged(u64, bool),
    SelectedActionChanged(u64, bool),
    DataReady(u64, Vec<u8>),
    OfferDataFailed(u64),
    OfferCancelled(u64),
    Finished(u64),
    Cancelled(u64),
}

/// What follows once the state of a drag was told something.
#[derive(Clone, Copy, Debug, PartialEq, Eq, Structural)]
pub enum Aftermath {
    Nothing,
    /// A tab that is over no window may get one of its own.
    DetachOutside,
    /// Marks the position in the window that the tab is over.
    MarkOver(u64, u64, usize),
    /// Marks the position again.
    Restore,
}

/// What to do with what the window system tells of drags.
pub enum DragNext {
    Done,
    /// It is not a drag that started here.
    Foreign(ToplevelDragEvent),
    /// A drag of the whole window starts, with its current tab, its number of
    /// tabs and its current position.
    BeginWindow(u64, usize, usize),
    Tell(TabDragEvent, Aftermath),
}

impl ApplicationModel {
    pub open spec fn owns_offer(self, offer: u64) -> bool {
        self.drag matches Some(drag) && drag.owns(offer)
    }

    pub open spec fn drags_window(self) -> bool {
        self.drag matches Some(drag) && drag.whole_window
    }

    /// Programs tell each other where a tab was dropped: only a program on its
    /// own may take a tab that is over none of its windows for one that is
    /// outside.
    pub open spec fn detach_scheduled(self, now: u64) -> ApplicationModel {
        if self.control is Some {
            self
        } else {
            ApplicationModel {
                detach_deadline: Some((now + TAB_DETACH_GRACE_PERIOD) as u64),
                ..self
            }
        }
    }

    pub open spec fn marker_cleared_if(self, condition: bool) -> ApplicationModel {
        if condition {
            self.marker_cleared()
        } else {
            self
        }
    }

    /// The window system goes on with the drag of a frame.
    pub open spec fn frame_drag_returned(self, window: u64, seat: u64, pointer: u64) -> ApplicationModel {
        self.emitting(EffectModel::ResumeWindowDrag(window, Some((seat, pointer)))).emitting(
            EffectModel::ForgetFrameDrag(window, seat, pointer),
        )
    }

    /// What is done with what the window system tells of drags, and what follows.
    pub open spec fn drag_told(
        self,
        windows: Seq<WindowFacts>,
        window: u64,
        event: ToplevelDragEvent,
        drop_index: Option<usize>,
        now: u64,
    ) -> (ApplicationModel, DragNext) {
        if let ToplevelDragEvent::FrameDrag(seat, pointer) = event {
            if self.drag is Some {
                (self.emitting(EffectModel::ForgetFrameDrag(window, seat, pointer)), DragNext::Done)
            } else {
                match window_of(windows, window) {
                    None => (self, DragNext::Done),
                    Some(facts) => if !facts.shows_tabs() {
                        (self.frame_drag_returned(window, seat, pointer), DragNext::Done)
                    } else {
                        (
                            self,
                            DragNext::BeginWindow(
                                facts.current_tab,
                                facts.tabs,
                                facts.current_index,
                            ),
                        )
                    },
                }
            }
        } else if self.drag is None {
            (self, DragNext::Foreign(event))
        } else {
            let drag = self.drag->0;
            match event {
                ToplevelDragEvent::FrameDrag(seat, pointer) => (self, DragNext::Done),
                ToplevelDragEvent::Entered(offer) => self.drag_moved(
                    windows,
                    window,
                    offer,
                    drop_index,
                ),
                ToplevelDragEvent::Motion(offer) => self.drag_moved(
                    windows,
                    window,
                    offer,
                    drop_index,
                ),
                ToplevelDragEvent::Left(offer) => {
                    let rest = self.marker_cleared_if(drag.owns(offer));
                    (
                        if drag.owns(offer) && !drag.whole_window {
                            rest.detach_scheduled(now)
                        } else {
                            rest
                        },
                        DragNext::Tell(TabDragEvent::Leave(offer), Aftermath::Nothing),
                    )
                },
                ToplevelDragEvent::Dropped(offer) => if drag.owns(offer) {
                    (
                        self.marker_cleared(),
                        DragNext::Tell(TabDragEvent::Drop(offer), Aftermath::Nothing),
                    )
                } else {
                    (self.emitting(EffectModel::CancelDrag(window, offer)), DragNext::Done)
                },
                ToplevelDragEvent::SourceActionsChanged(offer, supported) => (
                    self.marker_cleared_if(!supported && drag.owns(offer)),
                    DragNext::Tell(
                        TabDragEvent::SourceActionsChanged(offer, supported),
                        if supported {
                            Aftermath::Restore
                        } else {
                            Aftermath::Nothing
                        },
                    ),
                ),
                ToplevelDragEvent::SelectedActionChanged(offer, selected) => (
                    self.marker_cleared_if(!selected && drag.owns(offer)),
                    DragNext::Tell(
                        TabDragEvent::SelectedActionChanged(offer, selected),
                        if selected {
                            Aftermath::Restore
                        } else {
                            Aftermath::Nothing
                        },
                    ),
                ),
                ToplevelDragEvent::DataReady(offer, data) => (
                    self,
                    DragNext::Tell(TabDragEvent::DataReady(offer, data), Aftermath::Nothing),
                ),
                ToplevelDragEvent::OfferDataFailed(offer) => (
                    self,
                    DragNext::Tell(TabDragEvent::DataFailed(offer), Aftermath::Nothing),
                ),
                ToplevelDragEvent::OfferCancelled(offer) => (
                    self.marker_cleared_if(drag.owns(offer)),
                    DragNext::Tell(TabDragEvent::OfferCancelled(offer), Aftermath::Nothing),
                ),
                ToplevelDragEvent::Finished(id) => (
                    self,
                    DragNext::Tell(
                        if drag.drag_id == Some(id) && drag.hover is None {
                            TabDragEvent::ForeignFinished(id)
                        } else {
                            TabDragEvent::SourceFinished(id)
                        },
                        Aftermath::Nothing,
                    ),
                ),
                ToplevelDragEvent::Cancelled(id) => (
                    self.marker_cleared_if(drag.drag_id == Some(id)),
                    DragNext::Tell(TabDragEvent::SourceCancelled(id), Aftermath::Nothing),
                ),
            }
        }
    }

    /// What a dragged tab or window is over.
    pub open spec fn drag_moved(
        self,
        windows: Seq<WindowFacts>,
        window: u64,
        offer: u64,
        drop_index: Option<usize>,
    ) -> (ApplicationModel, DragNext) {
        let drag = self.drag->0;
        let index = if drag.is_target(window) {
            drag_target(windows, window, drop_index, drag.whole_window, drag.tab_count)
        } else {
            None
        };
        match index {
            None => if drag.owns(offer) {
                (
                    self.marker_cleared(),
                    DragNext::Tell(TabDragEvent::TargetRejected, Aftermath::DetachOutside),
                )
            } else {
                (
                    self.marker_cleared().emitting(EffectModel::RejectDrag(window, offer)),
                    DragNext::Done,
                )
            },
            Some(index) => (
                ApplicationModel { detach_deadline: None, ..self },
                DragNext::Tell(
                    if drag.owns(offer) {
                        TabDragEvent::Motion(offer, index)
                    } else {
                        TabDragEvent::Enter(offer, window, index)
                    },
                    Aftermath::MarkOver(offer, window, index),
                ),
            ),
        }
    }

    /// What follows once the state of the drag was told something.
    pub open spec fn drag_settled(
        self,
        windows: Seq<WindowFacts>,
        aftermath: Aftermath,
        now: u64,
    ) -> ApplicationModel {
        match (aftermath, self.drag) {
            (Aftermath::DetachOutside, Some(drag)) => if !drag.whole_window && drag.hover is None {
                self.detach_scheduled(now)
            } else {
                self
            },
            (Aftermath::MarkOver(offer, window, index), Some(drag)) => if drag.hover matches Some(
                hover,
            ) && hover.offer_id == offer && hover.target_window == window {
                self.marked(windows, window, index)
            } else {
                self
            },
            (Aftermath::Restore, Some(drag)) => match drag.hover {
                Some(hover) => if hover.dropped {
                    self
                } else {
                    self.marked(windows, hover.target_window, hover.index)
                },
                None => self,
            },
            _ => self,
        }
    }
}

impl Application {
    pub fn tab_drag_owns_offer(&self, offer: u64) -> (r: bool)
        ensures
            r == self@.owns_offer(offer),
    {
        match &self.tab_drag {
            Some(drag) => match &drag.hover {
                Some(hover) => hover.offer_id == offer,
                None => false,
            },
            None => false,
        }
    }

    fn drags_whole_window(&self) -> (r: bool)
        ensures
            r == self@.drags_window(),
    {
        match &self.tab_drag {
            Some(drag) => drag.whole_window,
            None => false,
        }
    }

    /// Something is closed once the drag ends, and only once.
    pub fn defer_tab_drag_close(&mut self, close: DeferredTabDragClose)
        ensures
            final(self)@ == if old(self)@.deferred.contains(close) {
                old(self)@
            } else {
                ApplicationModel { deferred: old(self)@.deferred.push(close), ..old(self)@ }
            },
    {
        let mut i: usize = 0;
        while i < self.deferred_tab_drag_closes.len()
            invariant
                i <= self.deferred_tab_drag_closes@.len(),
                self@ == old(self)@,
                forall|j: int| 0 <= j < i ==> self.deferred_tab_drag_closes@[j] != close,
            decreases self.deferred_tab_drag_closes@.len() - i,
        {
            if self.deferred_tab_drag_closes[i] == close {
                return;
            }
            i += 1;
        }
        self.deferred_tab_drag_closes.push(close);
        proof {
            assert(self@ =~= (ApplicationModel {
                deferred: old(self)@.deferred.push(close),
                ..old(self)@
            }));
        }
    }

    pub fn schedule_tab_detach(&mut self, now: u64)
        requires
            now + TAB_DETACH_GRACE_PERIOD <= u64::MAX,
        ensures
            final(self)@ == old(self)@.detach_scheduled(now),
    {
        if self.control.is_none() {
            self.tab_drag_detach_deadline = Some(now + TAB_DETACH_GRACE_PERIOD);
            proof {
                assert(self@ =~= old(self)@.detach_scheduled(now));
            }
        }
    }

    fn clear_marker_if(&mut self, condition: bool)
        ensures
            final(self)@ == old(self)@.marker_cleared_if(condition),
    {
        if condition {
            self.clear_drop_marker();
        }
    }

    /// The window system goes on with the drag of a frame.
    pub fn return_frame_drag(&mut self, window: u64, seat: u64, pointer: u64)
        ensures
            final(self)@ == old(self)@.frame_drag_returned(window, seat, pointer),
    {
        self.emit(Effect::ResumeWindowDrag(window, Some((seat, pointer))));
        self.emit(Effect::ForgetFrameDrag(window, seat, pointer));
    }

    fn drag_over(
        &mut self,
        windows: &Vec<WindowFacts>,
        window: u64,
        offer: u64,
        drop_index: Option<usize>,
    ) -> (r: DragNext)
        requires
            old(self)@.drag is Some,
        ensures
            (final(self)@, r) == old(self)@.drag_moved(windows@, window, offer, drop_index),
    {
        let owned: bool = self.tab_drag_owns_offer(offer);
        let index: Option<usize> = match &self.tab_drag {
            Some(drag) => if is_valid_tab_drag_target(drag, window) {
                tab_drag_target_index(
                    windows,
                    window,
                    drop_index,
                    drag.whole_window,
                    drag.tab_count,
                )
            } else {
                None
            },
            None => None,
        };
        match index {
            None => {
                self.clear_drop_marker();
                if owned {
                    DragNext::Tell(TabDragEvent::TargetRejected, Aftermath::DetachOutside)
                } else {
                    self.emit(Effect::RejectDrag(window, offer));
                    DragNext::Done
                }
            },
            Some(index) => {
                self.tab_drag_detach_deadline = None;
                proof {
                    assert(self@ =~= (ApplicationModel { detach_deadline: None, ..old(self)@ }));
                }
                let told: TabDragEvent = if owned {
                    TabDragEvent::Motion(offer, index)
                } else {
                    TabDragEvent::Enter(offer, window, index)
                };
                DragNext::Tell(told, Aftermath::MarkOver(offer, window, index))
            },
        }
    }

    /// What the window system tells of drags.
    pub fn handle_toplevel_drag_event(
        &mut self,
        windows: &Vec<WindowFacts>,
        window: u64,
        event: ToplevelDragEvent,
        drop_index: Option<usize>,
        now: u64,
    ) -> (r: DragNext)
        requires
            now + TAB_DETACH_GRACE_PERIOD <= u64::MAX,
        ensures
            (final(self)@, r) == old(self)@.drag_told(windows@, window, event, drop_index, now),
    {
        if let ToplevelDragEvent::FrameDrag(seat, pointer) = event {
            if self.tab_drag.is_some() {
                self.emit(Effect::ForgetFrameDrag(window, seat, pointer));
                return DragNext::Done;
            }
            return match find_window(windows, window) {
                None => DragNext::Done,
                Some(facts) => if !facts.terminal || facts.tabs == 0 {
                    self.return_frame_drag(window, seat, pointer);
                    DragNext::Done
                } else {
                    DragNext::BeginWindow(facts.current_tab, facts.tabs, facts.current_index)
                },
            };
        }
        if self.tab_drag.is_none() {
            return DragNext::Foreign(event);
        }
        match event {
            ToplevelDragEvent::FrameDrag(_, _) => DragNext::Done,
            ToplevelDragEvent::Entered(offer) => self.drag_over(
                windows,
                window,
                offer,
                drop_index,
            ),
            ToplevelDragEvent::Motion(offer) => self.drag_over(windows, window, offer, drop_index),
            ToplevelDragEvent::Left(offer) => {
                let owned: bool = self.tab_drag_owns_offer(offer);
                self.clear_marker_if(owned);
                if owned && !self.drags_whole_window() {
                    self.schedule_tab_detach(now);
                }
                DragNext::Tell(TabDragEvent::Leave(offer), Aftermath::Nothing)
            },
            ToplevelDragEvent::Dropped(offer) => if self.tab_drag_owns_offer(offer) {
                self.clear_drop_marker();
                DragNext::Tell(TabDragEvent::Drop(offer), Aftermath::Nothing)
            } else {
                self.emit(Effect::CancelDrag(window, offer));
                DragNext::Done
            },
            ToplevelDragEvent::SourceActionsChanged(offer, supported) => {
                let owned: bool = self.tab_drag_owns_offer(offer);
                self.clear_marker_if(!supported && owned);
                let aftermath: Aftermath = if supported {
                    Aftermath::Restore
                } else {
                    Aftermath::Nothing
                };
                DragNext::Tell(TabDragEvent::SourceActionsChanged(offer, supported), aftermath)
            },
            ToplevelDragEvent::SelectedActionChanged(offer, selected) => {
                let owned: bool = self.tab_drag_owns_offer(offer);
                self.clear_marker_if(!selected && owned);
                let aftermath: Aftermath = if selected {
                    Aftermath::Restore
                } else {
                    Aftermath::Nothing
                };
                DragNext::Tell(TabDragEvent::SelectedActionChanged(offer, selected), aftermath)
            },
            ToplevelDragEvent::DataReady(offer, data) => DragNext::Tell(
                TabDragEvent::DataReady(offer, data),
                Aftermath::Nothing,
            ),
            ToplevelDragEvent::OfferDataFailed(offer) => DragNext::Tell(
                TabDragEvent::DataFailed(offer),
                Aftermath::Nothing,
            ),
            ToplevelDragEvent::OfferCancelled(offer) => {
                let owned: bool = self.tab_drag_owns_offer(offer);
                self.clear_marker_if(owned);
                DragNext::Tell(TabDragEvent::OfferCancelled(offer), Aftermath::Nothing)
            },
            ToplevelDragEvent::Finished(id) => {
                let foreign: bool = match &self.tab_drag {
                    Some(drag) => drag.hover.is_none() && match drag.drag_id {
                        Some(own) => own == id,
                        None => false,
                    },
                    None => false,
                };
                let told: TabDragEvent = if foreign {
                    TabDragEvent::ForeignFinished(id)
                } else {
                    TabDragEvent::SourceFinished(id)
                };
                DragNext::Tell(told, Aftermath::Nothing)
            },
            ToplevelDragEvent::Cancelled(id) => {
                let own: bool = match &self.tab_drag {
                    Some(drag) => match drag.drag_id {
                        Some(own) => own == id,
                        None => false,
                    },
                    None => false,
                };
                self.clear_marker_if(own);
                DragNext::Tell(TabDragEvent::SourceCancelled(id), Aftermath::Nothing)
            },
        }
    }

    /// Follows up on what the state of the drag was told.
    pub fn settle_drag(&mut self, windows: &Vec<WindowFacts>, aftermath: Aftermath, now: u64)
        requires
            now + TAB_DETACH_GRACE_PERIOD <= u64::MAX,
        ensures
            final(self)@ == old(self)@.drag_settled(windows@, aftermath, now),
    {
        let hover: Option<Hover> = match &self.tab_drag {
            Some(drag) => drag.hover,
            None => {
                return;
            },
        };
        match aftermath {
            Aftermath::Nothing => {},
            Aftermath::DetachOutside => {
                if !self.drags_whole_window() && hover.is_none() {
                    self.schedule_tab_detach(now);
                }
            },
            Aftermath::MarkOver(offer, window, index) => {
                if let Some(over) = hover {
                    if over.offer_id == offer && over.target_window == window {
                        self.set_drop_marker(windows, window, index);
                    }
                }
            },
            Aftermath::Restore => {
                if let Some(over) = hover {
                    if !over.dropped {
                        self.set_drop_marker(windows, over.target_window, over.index);
                    }
                }
            },
        }
    }

    /// The drag of a whole window by its frame has started, or has not.
    pub fn frame_drag_begun(&mut self, windows: &Vec<WindowFacts>, window: u64, original_index: usize)
        ensures
            final(self)@ == if old(self)@.drag is Some && window_of(windows@, window) is Some {
                old(self)@.emitting(EffectModel::SourceMarker(window, original_index)).overlaid(
                    window,
                    Some(WindowOverlay::MergeSource),
                ).emitting(EffectModel::Redraw(window))
            } else {
                old(self)@
            },
    {
        if self.tab_drag.is_some() && find_window(windows, window).is_some() {
            self.emit(Effect::SourceMarker(window, original_index));
            self.set_window_overlay(window, Some(WindowOverlay::MergeSource));
            self.emit(Effect::Redraw(window));
        }
    }
}

/// A dragged tab is marked only in a window that it may be dropped on.
pub proof fn law_drag_is_never_told_of_its_own_window(
    app: ApplicationModel,
    windows: Seq<WindowFacts>,
    window: u64,
    offer: u64,
    drop_index: Option<usize>,
)
    requires
        app.drag matches Some(drag) && !drag.is_target(window),
    ensures
        app.drag_moved(windows, window, offer, drop_index).1 is Done || app.drag_moved(
            windows,
            window,
            offer,
            drop_index,
        ).1 == DragNext::Tell(TabDragEvent::TargetRejected, Aftermath::DetachOutside),
        app.drag_moved(windows, window, offer, drop_index).0.drop_marker is None,
{
}

} // verus!
