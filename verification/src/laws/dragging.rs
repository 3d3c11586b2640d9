//! Dragging tabs and windows: what is asked for on the way, where they may land, and
//! what is left when a drag ends.

use crate::application::carry::{
    DragHandoff, DragPlan, DragRequest, ExternalDrag, TabDragCommand,
};
use crate::application::drag::{
    drag_target, Aftermath, DeferredTabDragClose, DragNext, ForeignDrag, Outcome, TabDrag,
    TabDragEvent, TabDragLifecycle, ToplevelDragEvent,
};
use crate::application::foreign::{number_of, numbers_in, token_of, ForeignRequest};
use crate::application::outbox::{window_of, EffectModel, WindowFacts};
use crate::application::state::ApplicationModel;
use crate::context::manager::{tab_with_id, ManagerModel};
use crate::laws::merging::asks_more;
use vstd::prelude::*;

verus! {

/// A drag concerns the window that it comes from and the one that it is over, owns
/// the offer that it is over, and has ended once it is no longer active. It may be
/// dropped on any window but that of its owner.
pub proof fn law_drag_knows_its_windows(drag: TabDrag, window: u64, offer: u64)
    ensures
        drag.concerns(window) <==> drag.source_window == window || (drag.hover is Some
            && drag.hover->0.target_window == window),
        drag.owns(offer) <==> drag.hover is Some && drag.hover->0.offer_id == offer,
        drag.has_ended() <==> drag.lifecycle != TabDragLifecycle::Active,
        drag.is_target(window) <==> drag.owner is None || drag.owner->0.window_id != window,
{
}

/// A dragged tab lands at the tab under the pointer, and a dragged window behind all
/// tabs, where the window shows its terminal and has room there.
pub proof fn law_dragged_lands_where_there_is_room(
    windows: Seq<WindowFacts>,
    window: u64,
    drop_index: Option<usize>,
    count: usize,
)
    ensures
        window_of(windows, window) is None ==> drag_target(windows, window, drop_index, false, count)
            is None && drag_target(windows, window, drop_index, true, count) is None,
        window_of(windows, window) matches Some(facts) ==> {
            let tab = drag_target(windows, window, drop_index, false, count);
            let whole = drag_target(windows, window, drop_index, true, count);
            &&& tab is Some <==> facts.terminal && drop_index is Some && drop_index->0
                <= facts.tabs && facts.tabs + 1 <= facts.capacity
            &&& tab is Some ==> tab == drop_index
            &&& whole is Some <==> facts.terminal && (count == 0 || facts.tabs + count
                <= facts.capacity)
            &&& whole matches Some(at) ==> at == facts.tabs
        },
{
}

/// What the state of a drag asks for is asked of the window that it is about, where
/// that is open; else the drag is told at once that it failed.
pub proof fn law_drag_asks_open_windows(
    before: ApplicationModel,
    windows: Seq<WindowFacts>,
    drag: TabDrag,
)
    requires
        drag.drag_id is Some,
        drag.hover is Some,
    ensures
        ({
            let id = drag.drag_id->0;
            let hover = drag.hover->0;
            let source_open = window_of(windows, drag.source_window) is Some;
            let target_open = window_of(windows, hover.target_window) is Some;
            let done = |command: TabDragCommand| before.drag_commanded(windows, drag, command);
            &&& done(TabDragCommand::PrepareSource) == (
                before,
                if source_open {
                    DragPlan::Ask(DragRequest::Prepare(drag.source_window))
                } else {
                    DragPlan::Tell(TabDragEvent::PrepareFailed)
                },
            )
            &&& done(TabDragCommand::StartSourceOwner) == (
                before,
                if source_open {
                    DragPlan::Ask(DragRequest::Start(drag.source_window, id))
                } else {
                    DragPlan::Tell(TabDragEvent::OwnerStartFailed(id))
                },
            )
            &&& done(TabDragCommand::AcceptOffer) == (
                before,
                if target_open {
                    DragPlan::Ask(DragRequest::Accept(hover.target_window, hover.offer_id))
                } else {
                    DragPlan::Tell(TabDragEvent::TargetRejected)
                },
            )
            &&& done(TabDragCommand::ReceiveData) == (
                before,
                if target_open {
                    DragPlan::Ask(DragRequest::Receive(hover.target_window, hover.offer_id))
                } else {
                    DragPlan::Tell(TabDragEvent::DataFailed(hover.offer_id))
                },
            )
            &&& done(TabDragCommand::FinishOffer) == (
                before,
                if target_open {
                    DragPlan::Ask(DragRequest::Finish(hover.target_window, hover.offer_id))
                } else {
                    DragPlan::Tell(TabDragEvent::OfferCancelled(hover.offer_id))
                },
            )
        }),
{
}

/// What was dropped is moved to the window that it is over, at the position that it
/// is over: a tab, or a whole window. A window of another program is offered it.
pub proof fn law_dropped_is_moved_to_where_it_is_over(
    before: ApplicationModel,
    windows: Seq<WindowFacts>,
    drag: TabDrag,
)
    requires
        drag.hover is Some,
    ensures
        ({
            let hover = drag.hover->0;
            let (now, plan) = before.drag_commanded(
                windows,
                drag,
                TabDragCommand::MoveOwnerToTarget,
            );
            let foreign = before.control is Some && window_of(windows, hover.target_window) is None;
            &&& now == before
            &&& foreign ==> plan == DragPlan::Ask(
                DragRequest::TakeOffer(drag.token, hover.target_window, hover.index),
            )
            &&& !foreign && drag.whole_window ==> plan == DragPlan::Ask(
                DragRequest::MoveWindow(hover.target_window, hover.index),
            )
            &&& !foreign && !drag.whole_window ==> plan == DragPlan::Ask(
                DragRequest::MoveTab(hover.target_window, hover.index),
            )
        }),
{
}

/// A rejected or cancelled offer is rejected or cancelled at its window, and a
/// cancelled drag at its source.
pub proof fn law_cancelled_drags_are_cancelled(
    before: ApplicationModel,
    windows: Seq<WindowFacts>,
    drag: TabDrag,
    offer: u64,
    window: u64,
)
    ensures
        before.drag_commanded(windows, drag, TabDragCommand::RejectOffer(offer, window)) == (
            before.emitting(EffectModel::RejectDrag(window, offer)),
            DragPlan::Nothing,
        ),
        drag.hover is None ==> before.drag_commanded(windows, drag, TabDragCommand::CancelOffer)
            == (before, DragPlan::Nothing),
        drag.hover matches Some(hover) ==> before.drag_commanded(
            windows,
            drag,
            TabDragCommand::CancelOffer,
        ) == (
            before.emitting(EffectModel::CancelDrag(hover.target_window, hover.offer_id)),
            DragPlan::Tell(TabDragEvent::OfferCancelled(hover.offer_id)),
        ),
        drag.drag_id matches Some(id) ==> before.drag_commanded(
            windows,
            drag,
            TabDragCommand::CancelSource,
        ) == (
            before.emitting(EffectModel::CancelDragSource(drag.source_window, id)),
            DragPlan::Nothing,
        ),
{
}

/// A request that was granted leads on, and a drag is told of one that was not; an
/// offer whose data was refused is cancelled.
pub proof fn law_refused_requests_are_told(
    before: ApplicationModel,
    window: u64,
    offer: u64,
    given: u64,
    token: u128,
    index: usize,
    granted: bool,
)
    ensures
        before.drag_answered(DragRequest::Prepare(window), granted, given) == (
            before,
            Some(
                if granted {
                    TabDragEvent::Prepared(given)
                } else {
                    TabDragEvent::PrepareFailed
                },
            ),
        ),
        before.drag_answered(DragRequest::Start(window, offer), true, given) == (
            before,
            None::<TabDragEvent>,
        ),
        before.drag_answered(DragRequest::Start(window, offer), false, given) == (
            before,
            Some(TabDragEvent::OwnerStartFailed(offer)),
        ),
        before.drag_answered(DragRequest::Accept(window, offer), true, given) == (
            before,
            None::<TabDragEvent>,
        ),
        before.drag_answered(DragRequest::Accept(window, offer), false, given) == (
            before,
            Some(TabDragEvent::TargetRejected),
        ),
        before.drag_answered(DragRequest::Receive(window, offer), true, given) == (
            before,
            None::<TabDragEvent>,
        ),
        before.drag_answered(DragRequest::Receive(window, offer), false, given) == (
            before.emitting(EffectModel::CancelDrag(window, offer)),
            Some(TabDragEvent::DataFailed(offer)),
        ),
        before.drag_answered(DragRequest::Finish(window, offer), true, given) == (
            before,
            None::<TabDragEvent>,
        ),
        before.drag_answered(DragRequest::Finish(window, offer), false, given) == (
            before.emitting(EffectModel::CancelDrag(window, offer)),
            Some(TabDragEvent::OfferCancelled(offer)),
        ),
        ({
            let told = if granted {
                TabDragEvent::TargetCommitted
            } else {
                TabDragEvent::TargetRejected
            };
            &&& before.drag_answered(DragRequest::TakeOffer(token, window, index), granted, given)
                == (before, Some(told))
            &&& before.drag_answered(DragRequest::MoveTab(window, index), granted, given) == (
                before,
                Some(told),
            )
            &&& before.drag_answered(DragRequest::MoveWindow(window, index), granted, given) == (
                before,
                Some(told),
            )
        }),
{
}

/// Behind a drag that has ended its marks are gone. One that was not moved withdraws
/// its offer; a tab that was dropped outside or cancelled gets a window of its own,
/// and a window goes on with its move unless it was taken.
pub proof fn law_ended_drag_is_wound_up(before: ApplicationModel, drag: TabDrag)
    ensures
        ({
            let shown = before.drag_unshown(drag);
            let moved = drag.lifecycle == TabDragLifecycle::Complete(Outcome::Moved);
            let n = before.effects.len() as int;
            &&& shown.drop_marker is None
            &&& shown.effects.len() > n
            &&& before.control is Some && !moved ==> shown.effects[n]
                == EffectModel::WithdrawOffer(drag.token) && shown.effects[n + 1]
                == EffectModel::ResetDragInput(drag.source_window)
            &&& before.control is None || moved ==> shown.effects[n]
                == EffectModel::ResetDragInput(drag.source_window)
            &&& !drag.whole_window ==> shown.effects.last() == EffectModel::ClearSourceMarker(
                drag.source_window,
            )
            &&& drag.whole_window ==> shown.effects.last() == EffectModel::Overlay(
                drag.source_window,
                None,
            )
        }),
        ({
            let left = before.drag_left(drag);
            let outside = drag.lifecycle == TabDragLifecycle::Complete(Outcome::Outside)
                || drag.lifecycle == TabDragLifecycle::Cancelled;
            let back = drag.lifecycle == TabDragLifecycle::Complete(Outcome::RolledBack);
            let held = before.retained is Some && before.deferred.contains(
                DeferredTabDragClose::Window(drag.source_window),
            );
            let first = before.effects.len() as int;
            &&& !drag.whole_window && outside ==> left.effects.len() > first
                && left.effects[first] == EffectModel::Detach(drag.source_window, drag.tab_id)
            &&& drag.whole_window && (outside || back) ==> left.effects.len() > first
                && left.effects[first] == EffectModel::ResumeWindowDrag(
                drag.source_window,
                drag.frame_grab,
            )
            &&& held ==> left.effects.len() > first && left.effects.last()
                == EffectModel::Reinstall(drag.source_window)
            &&& !held && drag.lifecycle == TabDragLifecycle::Complete(Outcome::Moved) ==> left
                == before
            &&& !held && !drag.whole_window && back ==> left == before
        }),
{
}

/// What was to be closed behind a drag is closed in its order, and nothing is left to
/// close; the drag is gone.
pub proof fn law_deferred_closes_follow_the_drag(before: ApplicationModel, drag: TabDrag)
    ensures
        ({
            let now = before.deferred_closed();
            let n = before.effects.len() as int;
            &&& now.retained is None
            &&& now.deferred.len() == 0
            &&& now.effects.len() == n + before.deferred.len()
            &&& asks_more(now, before)
            &&& forall|i: int|
                0 <= i < before.deferred.len() ==> now.effects[n + i] == (
                match #[trigger] before.deferred[i] {
                    DeferredTabDragClose::Terminal(route) => EffectModel::CloseTerminal(route),
                    DeferredTabDragClose::Window(window) => EffectModel::CloseWindow(window),
                })
        }),
        before.drag_ended(drag).drag is None,
        before.drag_ended(drag).detach_deadline is None,
        before.drag_ended(drag).deferred.len() == 0,
        before.drag_ended(drag).retained is None,
{
    let now = before.deferred_closed();
    assert(now.effects.take(before.effects.len() as int) =~= before.effects);
}

/// A tab that is dragged out begins a drag of its own where the window system knows
/// such drags, found by its identity; else it gets a window at once. A window begins
/// one with its focused tab.
pub proof fn law_dragged_out_tab_begins_a_drag(
    before: ApplicationModel,
    manager: ManagerModel,
    source: u64,
    supported: bool,
    tab: u64,
)
    ensures
        ({
            let (now, what) = before.dragged_out(
                manager,
                source,
                supported,
                DragHandoff::Tab(tab),
            );
            let ended = before.effects.push(EffectModel::CancelIslandDrag(source));
            &&& !supported ==> what == ExternalDrag::Done && now.effects == ended.push(
                EffectModel::Detach(source, tab),
            )
            &&& supported && tab_with_id(manager.tabs, tab, 0) is None ==> what == ExternalDrag::No
                && now.effects == ended
            &&& supported && manager.tabs.len() <= usize::MAX ==> (tab_with_id(
                manager.tabs,
                tab,
                0,
            ) matches Some(at) ==> (0 <= at < manager.tabs.len() ==> now == before && (
            what matches ExternalDrag::BeginTab(id, index, count) && id == tab && index == at
                && count == manager.tabs.len())))
        }),
        ({
            let (now, what) = before.dragged_out(manager, source, supported, DragHandoff::Window);
            &&& !supported || manager.tabs.len() == 0 ==> what == ExternalDrag::No && now.effects
                == before.effects.push(EffectModel::CancelIslandDrag(source))
            &&& supported && 0 <= manager.current_index < manager.tabs.len() <= usize::MAX
                ==> now == before && (what matches ExternalDrag::BeginWindow(id, index, count)
                && id == manager.tabs[manager.current_index].id && index == manager.current_index
                && count == manager.tabs.len())
        }),
{
}

/// A dragged tab or window over a window where it may land is marked there, and the
/// drag told of the position; elsewhere it is rejected, and the mark is gone.
pub proof fn law_drag_is_told_what_it_is_over(
    before: ApplicationModel,
    windows: Seq<WindowFacts>,
    window: u64,
    offer: u64,
    drop_index: Option<usize>,
)
    requires
        before.drag is Some,
    ensures
        ({
            let drag = before.drag->0;
            let (now, next) = before.drag_moved(windows, window, offer, drop_index);
            let own = drag.owner is Some && drag.owner->0.window_id == window;
            let over = drag.hover is Some && drag.hover->0.offer_id == offer;
            let at = drag_target(windows, window, drop_index, drag.whole_window, drag.tab_count);
            &&& own || at is None ==> {
                &&& now.drop_marker is None
                &&& over ==> next == DragNext::Tell(
                    TabDragEvent::TargetRejected,
                    Aftermath::DetachOutside,
                )
                &&& !over ==> next == DragNext::Done && now.effects.last()
                    == EffectModel::RejectDrag(window, offer)
            }
            &&& !own && at is Some ==> {
                &&& now == (ApplicationModel { detach_deadline: None, ..before })
                &&& over ==> next == DragNext::Tell(
                    TabDragEvent::Motion(offer, at->0),
                    Aftermath::MarkOver(offer, window, at->0),
                )
                &&& !over ==> next == DragNext::Tell(
                    TabDragEvent::Enter(offer, window, at->0),
                    Aftermath::MarkOver(offer, window, at->0),
                )
            }
        }),
{
}

/// A drag is told what the window system says of it, each kind of news as what it is.
/// A tab that leaves its target is outside some time later, unless programs tell each
/// other where it is; what was dropped elsewhere is cancelled.
pub proof fn law_drag_is_told_its_news(
    before: ApplicationModel,
    windows: Seq<WindowFacts>,
    window: u64,
    offer: u64,
    flag: bool,
    data: Vec<u8>,
    drop_index: Option<usize>,
    time: u64,
)
    requires
        before.drag is Some,
        time + 750 <= u64::MAX,
    ensures
        ({
            let drag = before.drag->0;
            let over = drag.hover is Some && drag.hover->0.offer_id == offer;
            let tell = |event: ToplevelDragEvent|
                before.drag_told(windows, window, event, drop_index, time);
            let left = tell(ToplevelDragEvent::Left(offer));
            let dropped = tell(ToplevelDragEvent::Dropped(offer));
            let actions = tell(ToplevelDragEvent::SourceActionsChanged(offer, flag));
            let selected = tell(ToplevelDragEvent::SelectedActionChanged(offer, flag));
            let cancelled = tell(ToplevelDragEvent::OfferCancelled(offer));
            let aborted = tell(ToplevelDragEvent::Cancelled(offer));
            &&& tell(ToplevelDragEvent::Entered(offer)) == before.drag_moved(
                windows,
                window,
                offer,
                drop_index,
            )
            &&& tell(ToplevelDragEvent::Motion(offer)) == before.drag_moved(
                windows,
                window,
                offer,
                drop_index,
            )
            &&& left.1 == DragNext::Tell(TabDragEvent::Leave(offer), Aftermath::Nothing)
            &&& over ==> left.0.drop_marker is None
            &&& over && !drag.whole_window && before.control is None ==> left.0.detach_deadline
                == Some((time + 750) as u64)
            &&& !over || drag.whole_window || before.control is Some ==> left.0.detach_deadline
                == before.detach_deadline
            &&& over ==> dropped.1 == DragNext::Tell(TabDragEvent::Drop(offer), Aftermath::Nothing)
                && dropped.0.drop_marker is None
            &&& !over ==> dropped.1 == DragNext::Done && dropped.0.effects.last()
                == EffectModel::CancelDrag(window, offer)
            &&& actions.1 == DragNext::Tell(
                TabDragEvent::SourceActionsChanged(offer, flag),
                if flag {
                    Aftermath::Restore
                } else {
                    Aftermath::Nothing
                },
            )
            &&& selected.1 == DragNext::Tell(
                TabDragEvent::SelectedActionChanged(offer, flag),
                if flag {
                    Aftermath::Restore
                } else {
                    Aftermath::Nothing
                },
            )
            &&& over && !flag ==> actions.0.drop_marker is None && selected.0.drop_marker is None
            &&& flag || !over ==> actions.0 == before && selected.0 == before
            &&& tell(ToplevelDragEvent::DataReady(offer, data)) == (
                before,
                DragNext::Tell(TabDragEvent::DataReady(offer, data), Aftermath::Nothing),
            )
            &&& tell(ToplevelDragEvent::OfferDataFailed(offer)) == (
                before,
                DragNext::Tell(TabDragEvent::DataFailed(offer), Aftermath::Nothing),
            )
            &&& cancelled.1 == DragNext::Tell(
                TabDragEvent::OfferCancelled(offer),
                Aftermath::Nothing,
            )
            &&& over ==> cancelled.0.drop_marker is None
            &&& !over ==> cancelled.0 == before
            &&& tell(ToplevelDragEvent::Finished(offer)) == (
                before,
                DragNext::Tell(
                    if drag.drag_id == Some(offer) && drag.hover is None {
                        TabDragEvent::ForeignFinished(offer)
                    } else {
                        TabDragEvent::SourceFinished(offer)
                    },
                    Aftermath::Nothing,
                ),
            )
            &&& aborted.1 == DragNext::Tell(
                TabDragEvent::SourceCancelled(offer),
                Aftermath::Nothing,
            )
            &&& drag.drag_id == Some(offer) ==> aborted.0.drop_marker is None
            &&& drag.drag_id != Some(offer) ==> aborted.0 == before
        }),
{
}

/// A window that is held by its frame begins a drag where it shows tabs and none is
/// under way; else the window system goes on with its own. Without a drag all other
/// news is of another program's.
pub proof fn law_frame_drag_begins_once(
    before: ApplicationModel,
    windows: Seq<WindowFacts>,
    window: u64,
    seat: u64,
    pointer: u64,
    event: ToplevelDragEvent,
    drop_index: Option<usize>,
    time: u64,
)
    ensures
        ({
            let (now, next) = before.drag_told(
                windows,
                window,
                ToplevelDragEvent::FrameDrag(seat, pointer),
                drop_index,
                time,
            );
            let forgotten = EffectModel::ForgetFrameDrag(window, seat, pointer);
            &&& before.drag is Some ==> now.effects == before.effects.push(forgotten) && next
                == DragNext::Done
            &&& before.drag is None && window_of(windows, window) is None ==> now == before && next
                == DragNext::Done
            &&& before.drag is None ==> (window_of(windows, window) matches Some(facts) ==> {
                &&& facts.terminal && facts.tabs > 0 ==> now == before && next
                    == DragNext::BeginWindow(facts.current_tab, facts.tabs, facts.current_index)
                &&& !(facts.terminal && facts.tabs > 0) ==> next == DragNext::Done && now.effects
                    == before.effects.push(
                    EffectModel::ResumeWindowDrag(window, Some((seat, pointer))),
                ).push(forgotten)
            })
        }),
        before.drag is None && !(event is FrameDrag) ==> before.drag_told(
            windows,
            window,
            event,
            drop_index,
            time,
        ) == (before, DragNext::Foreign(event)),
{
}

/// A drag that was told is marked where it is over, and a rejected tab is outside some
/// time later.
pub proof fn law_settled_drag_is_marked_where_it_is(
    before: ApplicationModel,
    windows: Seq<WindowFacts>,
    offer: u64,
    window: u64,
    index: usize,
    time: u64,
)
    requires
        time + 750 <= u64::MAX,
    ensures
        ({
            let drag = before.drag->0;
            let hover = drag.hover->0;
            let here = before.drag is Some && drag.hover is Some && hover.offer_id == offer
                && hover.target_window == window;
            let over = before.drag_settled(
                windows,
                Aftermath::MarkOver(offer, window, index),
                time,
            );
            let restored = before.drag_settled(windows, Aftermath::Restore, time);
            let outside = before.drag_settled(windows, Aftermath::DetachOutside, time);
            &&& here ==> over == before.marked(windows, window, index)
            &&& !here ==> over == before
            &&& before.drag is Some && drag.hover is Some && !hover.dropped ==> restored
                == before.marked(windows, hover.target_window, hover.index)
            &&& before.drag is None || drag.hover is None || hover.dropped ==> restored == before
            &&& before.drag is Some && !drag.whole_window && drag.hover is None && before.control
                is None ==> outside == (ApplicationModel {
                detach_deadline: Some((time + 750) as u64),
                ..before
            })
            &&& before.drag is None || drag.whole_window || drag.hover is Some || before.control
                is Some ==> outside == before
            &&& before.drag_settled(windows, Aftermath::Nothing, time) == before
        }),
{
}

proof fn lemma_numbers_in(count: nat)
    ensures
        numbers_in(count) > 0,
    decreases count,
{
    if count > 0 {
        lemma_numbers_in((count - 1) as nat);
    }
}

/// A token is sixteen bytes, the most significant one first: the first byte counts
/// as often as there are numbers of the bytes behind it.
pub proof fn law_tokens_are_read_from_the_first_byte(bytes: Seq<u8>)
    ensures
        token_of(bytes) is Some <==> bytes.len() == 16,
        bytes.len() > 0 ==> number_of(bytes) == bytes[0] as nat * numbers_in(
            (bytes.len() - 1) as nat,
        ) + number_of(bytes.skip(1)),
    decreases bytes.len(),
{
    if bytes.len() == 1 {
        assert(bytes.drop_last() =~= Seq::<u8>::empty());
        assert(bytes.skip(1) =~= Seq::<u8>::empty());
        assert(number_of(bytes.drop_last()) == 0);
        assert(numbers_in(0) == 1);
    } else if bytes.len() > 1 {
        let front = bytes.drop_last();
        law_tokens_are_read_from_the_first_byte(front);
        assert(front.skip(1) =~= bytes.skip(1).drop_last());
        assert(front[0] == bytes[0]);
        assert(bytes.skip(1).last() == bytes.last());
        let a = bytes[0] as int;
        let m = numbers_in((front.len() - 1) as nat) as int;
        let r = number_of(front.skip(1)) as int;
        assert(numbers_in((bytes.len() - 1) as nat) == m * 256);
        assert((a * m + r) * 256 == a * (m * 256) + r * 256) by (nonlinear_arith);
    }
}

/// A drag of another program is of one window and one offer.
pub proof fn law_foreign_drag_is_of_its_window(state: ApplicationModel, window: u64, offer: u64)
    ensures
        state.foreign_is(window, offer) <==> state.foreign is Some && state.foreign->0.window
            == window && state.foreign->0.offer == offer,
{
}

/// A drag of another program over a position of a window where it may land is
/// accepted there, and followed from then on; elsewhere it is rejected and forgotten.
/// Once it is dropped it moves no more.
pub proof fn law_foreign_drag_is_accepted_where_it_may_land(
    before: ApplicationModel,
    windows: Seq<WindowFacts>,
    window: u64,
    offer: u64,
    drop_index: Option<usize>,
)
    ensures
        ({
            let (now, request) = before.foreign_moved(windows, window, offer, drop_index);
            let dropped = before.foreign is Some && before.foreign->0.dropped;
            let at = drag_target(windows, window, drop_index, false, 1);
            &&& dropped ==> now == before && request is None
            &&& !dropped && at is None ==> now.foreign is None && now.drop_marker is None
                && request is None && now.effects.len() > before.effects.len()
                && now.effects[before.effects.len() as int] == EffectModel::RejectDrag(
                window,
                offer,
            )
            &&& !dropped && at is Some && !before.foreign_is(window, offer) ==> now == before
                && request == Some(ForeignRequest::Accept(window, offer, at->0))
            &&& !dropped && at is Some && before.foreign_is(window, offer) ==> {
                &&& request is None
                &&& now == (ApplicationModel {
                    foreign: Some(ForeignDrag { index: at->0, ..before.foreign->0 }),
                    ..before
                }).marked(windows, window, at->0)
            }
        }),
{
}

/// The data of a drag of another program is asked for once it is dropped and moving
/// it was agreed on, and once only. A failed one is cancelled and forgotten.
pub proof fn law_foreign_data_is_asked_for_once(
    before: ApplicationModel,
    windows: Seq<WindowFacts>,
    window: u64,
    failed: bool,
)
    ensures
        ({
            let (now, request) = before.foreign_followed(windows, window, failed);
            let due = before.foreign is Some && before.foreign->0.dropped
                && before.foreign->0.selected_move && !before.foreign->0.receiving;
            &&& due && window_of(windows, window) is Some ==> {
                &&& request == Some(
                    ForeignRequest::Receive(window, before.foreign->0.offer, failed),
                )
                &&& now == (ApplicationModel {
                    foreign: Some(ForeignDrag { receiving: true, ..before.foreign->0 }),
                    ..before
                })
            }
            &&& due && window_of(windows, window) is None ==> request is None && now.foreign is None
            &&& !due && failed ==> request is None && now == before.foreign_failed()
            &&& !due && !failed ==> request is None && now == before
        }),
        ({
            let now = before.foreign_failed();
            &&& now.foreign is None
            &&& now.drop_marker is None
            &&& before.foreign matches Some(drag) ==> now.effects.len() > before.effects.len()
                && now.effects[before.effects.len() as int] == EffectModel::CancelDrag(
                drag.window,
                drag.offer,
            )
            &&& now.drag == before.drag
            &&& now.source == before.source
        }),
{
}

/// The token of a dropped tab is read from its data once, and the tab asked for with
/// it at the position where it was dropped. Data that is no token gives the drag up.
pub proof fn law_foreign_data_names_the_offer(
    before: ApplicationModel,
    windows: Seq<WindowFacts>,
    window: u64,
    offer: u64,
    data: Vec<u8>,
    drop_index: Option<usize>,
)
    requires
        before.foreign_is(window, offer),
        before.foreign->0.dropped,
        before.foreign->0.receiving,
        before.foreign->0.token is None,
    ensures
        ({
            let (now, request) = before.foreign_told(
                windows,
                window,
                ToplevelDragEvent::DataReady(offer, data),
                drop_index,
            );
            &&& token_of(data@) is None ==> request is None && now.foreign is None
            &&& before.control is None ==> request is None && now.foreign is None
            &&& token_of(data@) matches Some(token) ==> (before.control is Some ==> request == Some(
                ForeignRequest::TakeOffer(token, window, before.foreign->0.index),
            ) && now == (ApplicationModel {
                foreign: Some(ForeignDrag { token: Some(token), ..before.foreign->0 }),
                ..before
            }))
        }),
{
}

/// What the window system says of a drag of another program is noted for that drag
/// alone.
pub proof fn law_foreign_drag_notes_its_news(
    before: ApplicationModel,
    windows: Seq<WindowFacts>,
    window: u64,
    offer: u64,
    selected: bool,
    drop_index: Option<usize>,
)
    ensures
        ({
            let tell = |event: ToplevelDragEvent|
                before.foreign_told(windows, window, event, drop_index);
            let ours = before.foreign_is(window, offer);
            let dropped = ApplicationModel {
                foreign: Some(ForeignDrag { dropped: true, ..before.foreign->0 }),
                ..before
            };
            let agreed = ApplicationModel {
                foreign: Some(ForeignDrag { selected_move: selected, ..before.foreign->0 }),
                ..before
            };
            let same = before.foreign is Some && before.foreign->0.offer == offer;
            &&& tell(ToplevelDragEvent::Entered(offer)) == before.foreign_moved(
                windows,
                window,
                offer,
                drop_index,
            )
            &&& tell(ToplevelDragEvent::Motion(offer)) == before.foreign_moved(
                windows,
                window,
                offer,
                drop_index,
            )
            &&& tell(ToplevelDragEvent::Dropped(offer)) == (if ours {
                dropped
            } else {
                before
            }).foreign_followed(windows, window, false)
            &&& tell(ToplevelDragEvent::SelectedActionChanged(offer, selected)) == (if ours {
                agreed
            } else {
                before
            }).foreign_followed(windows, window, false)
            &&& tell(ToplevelDragEvent::Left(offer)) == before.foreign_followed(
                windows,
                window,
                same && !before.foreign->0.dropped,
            )
            &&& tell(ToplevelDragEvent::OfferCancelled(offer)) == before.foreign_followed(
                windows,
                window,
                same,
            )
            &&& tell(ToplevelDragEvent::OfferDataFailed(offer)) == before.foreign_followed(
                windows,
                window,
                same,
            )
        }),
{
}

/// An accepted drag of another program is over the position that it was accepted at,
/// not yet dropped; one whose data or tab was refused is given up.
pub proof fn law_foreign_requests_are_answered(
    before: ApplicationModel,
    windows: Seq<WindowFacts>,
    window: u64,
    offer: u64,
    index: usize,
    token: u128,
    failed: bool,
)
    ensures
        ({
            let accepted = before.foreign_answered(
                windows,
                ForeignRequest::Accept(window, offer, index),
                true,
            );
            &&& accepted.foreign matches Some(drag) && drag.window == window && drag.offer == offer
                && drag.index == index && !drag.dropped && !drag.selected_move && !drag.receiving
                && drag.token is None
            &&& window_of(windows, window) is Some ==> accepted.drop_marker == Some(window)
        }),
        before.foreign_answered(windows, ForeignRequest::Accept(window, offer, index), false)
            == before,
        before.foreign_answered(windows, ForeignRequest::Receive(window, offer, failed), false)
            == before.foreign_failed(),
        before.foreign_answered(windows, ForeignRequest::Receive(window, offer, true), true)
            == before.foreign_failed(),
        before.foreign_answered(windows, ForeignRequest::Receive(window, offer, false), true)
            == before,
        before.foreign_answered(windows, ForeignRequest::TakeOffer(token, window, index), true)
            == before,
        before.foreign_answered(windows, ForeignRequest::TakeOffer(token, window, index), false)
            == before.foreign_failed(),
{
}

/// What came of a drag of another program is heard for the drag with its token: it is
/// finished, or cancelled with the error shown, and forgotten either way.
pub proof fn law_resolved_foreign_drag_is_forgotten(
    before: ApplicationModel,
    windows: Seq<WindowFacts>,
    transfer: u128,
    error: Option<Seq<char>>,
)
    ensures
        ({
            let now = before.foreign_resolved(windows, transfer, error);
            let ours = before.foreign is Some && before.foreign->0.token == Some(transfer);
            let n = before.effects.len() as int;
            &&& !ours ==> now == before
            &&& ours ==> {
                let drag = before.foreign->0;
                &&& now.foreign is None
                &&& now.effects.len() > n
                &&& error is None ==> now.effects[n] == EffectModel::FinishDrag(
                    drag.window,
                    drag.offer,
                )
                &&& error is Some ==> now.effects[n] == EffectModel::CancelDrag(
                    drag.window,
                    drag.offer,
                )
                &&& now.drop_marker is None
                &&& error matches Some(words) ==> (window_of(windows, drag.window) matches Some(
                    facts,
                ) ==> now.effects.last() == EffectModel::ShowError(
                    drag.window,
                    facts.current_route,
                    words,
                ))
            }
        }),
{
}

/// The timers of all panes of a dragged tab stop with the drag, in their order.
pub proof fn law_ended_drag_stops_its_timers(before: ApplicationModel, drag: TabDrag, i: int)
    requires
        drag.owner is Some,
        0 <= i < drag.owner->0.route_ids@.len(),
    ensures
        ({
            let now = before.drag_unshown(drag);
            let moved = drag.lifecycle == TabDragLifecycle::Complete(Outcome::Moved);
            let first = before.effects.len() + if before.control is Some && !moved {
                2int
            } else {
                1
            };
            &&& first + i < now.effects.len()
            &&& now.effects[first + i] == EffectModel::Unschedule(drag.owner->0.route_ids@[i])
        }),
{
}

/// A drag can start and be cancelled once it has a number, be answered while it is over
/// something, and be moved where it has something to move.
pub proof fn law_drag_can_do_what_it_has(drag: TabDrag, command: TabDragCommand)
    ensures
        command is StartSourceOwner || command is CancelSource ==> (drag.can_do(command)
            <==> drag.drag_id is Some),
        command is AcceptOffer || command is ReceiveData || command is FinishOffer ==> (drag.can_do(
            command,
        ) <==> drag.hover is Some),
        command is MoveOwnerToTarget ==> (drag.can_do(command) <==> drag.hover is Some
            && drag.owner is Some),
        command is PrepareSource || command is RejectOffer || command is CancelOffer
            ==> drag.can_do(command),
{
}

/// The program knows what it drags.
pub proof fn law_program_knows_its_drag(state: ApplicationModel, window: u64, offer: u64)
    ensures
        state.owns_offer(offer) <==> state.drag is Some && state.drag->0.hover is Some
            && state.drag->0.hover->0.offer_id == offer,
        state.drags_window() <==> state.drag is Some && state.drag->0.whole_window,
        state.drag_concerns(window) <==> state.drag is Some && (state.drag->0.source_window
            == window || (state.drag->0.hover is Some && state.drag->0.hover->0.target_window
            == window)),
{
}

} // verus!
