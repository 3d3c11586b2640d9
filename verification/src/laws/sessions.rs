//! Sessions: what is queued for them, what they publish, and what their pump does.

use crate::context::protocol::{
    FrameUpdate, FullFrame, SessionCommand, SessionError, SessionEvent, SessionReply,
};
use crate::context::pump::{
    drain, is_recoverable, is_step, pumped, replied, round, started, Destination, NoticeModel,
    Phase, PumpAction, PumpInput, PumpModel, PumpStartup, PumpStep, SessionPump,
};
use crate::context::session::{
    admitted, is_kept, not_superseded, oldest_droppable, queue_full, selections, supersedes,
    Admission, HandleModel, PumpCommand, SessionHandle, StateModel,
};
use crate::terminal::ClipboardType;
use vstd::prelude::*;

verus! {

/// A title replaces a waiting title, a progress a waiting progress, and a colour a
/// waiting colour of the same slot of the same pane. Nothing else replaces anything.
pub proof fn law_events_replace_their_like(event: SessionEvent, queued: SessionEvent)
    ensures
        supersedes(event, queued) <==> {
            ||| event is Title && queued is Title
            ||| event is Progress && queued is Progress
            ||| {
                &&& event is ColorChange
                &&& queued is ColorChange
                &&& event->ColorChange_route_id == queued->ColorChange_route_id
                &&& event->ColorChange_index == queued->ColorChange_index
            }
        },
{
}

/// What an event leaves waiting keeps its order.
pub proof fn law_waiting_events_keep_their_order(events: Seq<SessionEvent>, event: SessionEvent)
    ensures
        not_superseded(events, event) == events.filter(|e: SessionEvent| !supersedes(event, e)),
    decreases events.len(),
{
    reveal(Seq::filter);
    if events.len() > 0 {
        law_waiting_events_keep_their_order(events.drop_last(), event);
    }
}

/// Titles, bells, blinking, progress, texts to store and the news of a frame may be
/// dropped for want of room; all other events are kept.
pub proof fn law_only_passing_events_are_dropped(event: SessionEvent)
    ensures
        is_kept(event) <==> !(event is FrameReady || event is Title || event is Bell
            || event is CursorBlinkingChanged || event is Progress || event is ClipboardStore),
{
}

/// The oldest event that may be dropped is the first one.
pub proof fn law_oldest_is_dropped_first(events: Seq<SessionEvent>, from: int)
    requires
        0 <= from <= events.len(),
    ensures
        match oldest_droppable(events, from) {
            Some(i) => {
                &&& from <= i < events.len()
                &&& !is_kept(events[i])
                &&& forall|j: int| from <= j < i ==> is_kept(#[trigger] events[j])
            },
            None => forall|j: int| from <= j < events.len() ==> is_kept(#[trigger] events[j]),
        },
    decreases events.len() - from,
{
    if from < events.len() && is_kept(events[from]) {
        law_oldest_is_dropped_first(events, from + 1);
    }
}

/// A published event waits behind those that it leaves. Where there is no room the
/// first that may be dropped makes some, and where none may be the session fails
/// without the event. A session that says it is closed no longer runs.
pub proof fn law_published_event_waits_last(before: StateModel, event: SessionEvent)
    ensures
        ({
            let now = before.with_event(event);
            let left = before.events.filter(|e: SessionEvent| !supersedes(event, e));
            &&& left.len() < 64 ==> now.events == left.push(event)
            &&& left.len() >= 64 && (exists|i: int|
                0 <= i < left.len() && !is_kept(#[trigger] left[i])) ==> exists|i: int|
                {
                    &&& 0 <= i < left.len()
                    &&& !is_kept(#[trigger] left[i])
                    &&& forall|j: int| 0 <= j < i ==> is_kept(#[trigger] left[j])
                    &&& now.events == left.remove(i).push(event)
                }
            &&& left.len() >= 64 && (forall|i: int|
                0 <= i < left.len() ==> is_kept(#[trigger] left[i])) ==> now.events == left
                && !now.status.running && now.status.error is Some
            &&& left.len() < 64 ==> now.status.error == before.status.error
                && now.status.running == (before.status.running && !(event is Closed))
            &&& event is Closed ==> !now.status.running
            &&& now.pending_full == before.pending_full
            &&& now.updates == before.updates
            &&& now.descriptor == before.descriptor
            &&& now.outstanding == before.outstanding
            &&& now.replies == before.replies
            &&& now.search_navigation == before.search_navigation
            &&& now.search_matches == before.search_matches
            &&& now.pump_done == before.pump_done
            &&& now.had_frame == before.had_frame
            &&& now.frame_resync_logged == before.frame_resync_logged
        }),
{
    law_waiting_events_keep_their_order(before.events, event);
    let left = not_superseded(before.events, event);
    law_oldest_is_dropped_first(left, 0);
    if left.len() >= 64 && oldest_droppable(left, 0) is Some {
        let i = oldest_droppable(left, 0)->0;
        assert(!is_kept(left[i]));
    }
}

/// A published full frame replaces all updates that wait; a delta waits behind them,
/// and is refused where there is no room, which changes nothing.
pub proof fn law_published_frames_wait_in_order(before: StateModel, update: FrameUpdate)
    ensures
        ({
            let now = before.published(update);
            &&& update matches FrameUpdate::Full(frame) ==> now.pending_full == Some(frame)
                && now.updates.len() == 0 && before.takes(update)
            &&& update is Delta && before.updates.len() < 64 ==> now.updates
                == before.updates.push(update) && now.pending_full == before.pending_full
                && before.takes(update)
            &&& update is Delta && before.updates.len() >= 64 ==> now == before
                && !before.takes(update)
            &&& before.takes(update) ==> {
                &&& now.had_frame
                &&& before.status.running ==> now.status.running && now.status.error is None
                &&& !before.status.running ==> now.status == before.status
            }
            &&& now.events == before.events
            &&& now.descriptor == before.descriptor
            &&& now.outstanding == before.outstanding
            &&& now.replies == before.replies
            &&& now.search_navigation == before.search_navigation
            &&& now.search_matches == before.search_matches
            &&& now.pump_done == before.pump_done
            &&& update is Full ==> !now.frame_resync_logged
            &&& update is Delta ==> now.frame_resync_logged == before.frame_resync_logged
        }),
{
}

/// An error is noted by a session that runs, and not by one that ended; a failed
/// session has ended with the error.
pub proof fn law_errors_are_noted_while_running(before: StateModel, words: Seq<char>)
    ensures
        before.status.running ==> before.noted(words).status.error == Some(words) && before.noted(
            words,
        ).status.running,
        !before.status.running ==> before.noted(words) == before,
        before.noted(words) == (StateModel { status: before.noted(words).status, ..before }),
        !before.failed(words).status.running,
        before.failed(words).status.error == Some(words),
        before.failed(words) == (StateModel { status: before.failed(words).status, ..before }),
{
}

/// A command is admitted by a session that is not closed, whose pump receives, and
/// whose queue has room.
pub proof fn law_commands_are_admitted_while_there_is_room(handle: HandleModel)
    ensures
        handle.admission() is Admitted <==> !handle.closed && handle.receiving
            && handle.commands.len() < handle.capacity,
        handle.admission() is Closed <==> handle.closed,
        handle.admission() is Disconnected <==> !handle.closed && !handle.receiving,
{
}

/// An admitted command waits behind the others, and the pump is woken; one that is
/// not admitted changes no more than the noted error, and for a closed session
/// nothing.
pub proof fn law_sent_command_waits_last(before: HandleModel, command: PumpCommand)
    ensures
        ({
            let now = before.sent(command);
            let admitted = !before.closed && before.receiving && before.commands.len()
                < before.capacity;
            &&& admitted ==> now.commands == before.commands.push(command) && now.signalled
                && now.state == before.state
            &&& !admitted ==> now.commands == before.commands && now.signalled == before.signalled
            &&& before.closed ==> now == before
            &&& !before.closed && !admitted && before.state.status.running
                ==> now.state.status.error is Some && now.state.status.running
            &&& now.state == (StateModel { status: now.state.status, ..before.state })
            &&& now.capacity == before.capacity
            &&& now.receiving == before.receiving
            &&& now.owners == before.owners
            &&& now.window_id == before.window_id
            &&& now.closed == before.closed
            &&& now.selection_in_flight == before.selection_in_flight
        }),
{
}

/// An issued command is the same command of the terminal; where it is not admitted,
/// a session that runs notes why, also a closed one.
pub proof fn law_issued_command_waits_last(before: HandleModel, command: SessionCommand)
    ensures
        ({
            let now = before.issued(command);
            let admitted = !before.closed && before.receiving && before.commands.len()
                < before.capacity;
            &&& admitted ==> now.commands == before.commands.push(PumpCommand::Terminal(command))
                && now.signalled && now.state == before.state
            &&& !admitted ==> now.commands == before.commands && now.signalled == before.signalled
            &&& !admitted && before.state.status.running ==> now.state.status.error is Some
            &&& now.state == (StateModel { status: now.state.status, ..before.state })
            &&& now.closed == before.closed
            &&& now.owners == before.owners
            &&& now.window_id == before.window_id
        }),
{
}

/// The selected text is asked for with its destination, and counts as outstanding
/// until it is read; too many requests are refused.
pub proof fn law_selection_is_asked_for_with_its_destination(
    before: HandleModel,
    target: ClipboardType,
    copy: bool,
)
    ensures
        ({
            let now = before.asked(target, copy);
            let asked = before.state.outstanding != 64 && !before.closed
                && before.receiving && before.commands.len() < before.capacity;
            &&& asked ==> {
                &&& now.commands.len() == before.commands.len() + 1
                &&& now.commands.drop_last() == before.commands
                &&& now.commands.last() == (PumpCommand::SelectionText {
                    target,
                    copy_to_clipboard: copy,
                })
                &&& now.signalled
                &&& now.state.outstanding == before.state.outstanding + 1
                &&& now.state.status == before.state.status
            }
            &&& !asked ==> {
                &&& now.commands == before.commands
                &&& now.signalled == before.signalled
                &&& now.state.outstanding == before.state.outstanding
                &&& before.state.status.running ==> now.state.status.error is Some
            }
            &&& now.state.events == before.state.events
            &&& now.state.updates == before.state.updates
            &&& now.state.replies == before.state.replies
        }),
{
    assert(before.asked(target, copy).commands.len() > before.commands.len() ==> before.asked(
        target,
        copy,
    ).commands.drop_last() =~= before.commands);
}

/// The requests for selected texts are counted one by one.
pub proof fn law_selections_are_counted(commands: Seq<PumpCommand>)
    ensures
        selections(commands) == commands.filter(|c: PumpCommand| c is SelectionText).len(),
    decreases commands.len(),
{
    reveal(Seq::filter);
    if commands.len() > 0 {
        law_selections_are_counted(commands.drop_last());
    }
}

/// What was published is taken with everything else left; closing, sharing and
/// letting go change the mark, the owners and the wake-up alone.
pub proof fn law_handles_change_one_thing_at_a_time(before: HandleModel)
    ensures
        ({
            let now = before.emptied();
            &&& now.state.pending_full is None
            &&& now.state.updates.len() == 0
            &&& now.state.search_navigation is None
            &&& now.state.search_matches is None
            &&& now.state.events == before.state.events
            &&& now.state.replies == before.state.replies
            &&& now.state.status == before.state.status
            &&& now.state.outstanding == before.state.outstanding
            &&& now.state.had_frame == before.state.had_frame
            &&& now == (HandleModel { state: now.state, ..before })
        }),
        before.closing().closed,
        !before.closed ==> before.closing().signalled,
        before.closed ==> before.closing() == before,
        before.closing() == (HandleModel {
            closed: true,
            signalled: before.closing().signalled,
            ..before
        }),
        before.owners < usize::MAX ==> before.shared().owners == before.owners + 1,
        before.shared() == (HandleModel { owners: before.shared().owners, ..before }),
        before.owners > 0 ==> before.abandoned().owners == before.owners - 1,
        before.owners > 1 ==> before.abandoned().signalled == before.signalled,
        before.owners == 1 ==> before.abandoned().signalled,
        before.abandoned() == (HandleModel {
            owners: before.abandoned().owners,
            signalled: before.abandoned().signalled,
            ..before
        }),
{
}

/// The pump sends the oldest command first; it asks for a selected text with the
/// destination kept. Without a command it closes a closed session, looks for events
/// of one that has an owner, and ends for one that has none.
pub proof fn law_commands_are_sent_in_order(
    handle: HandleModel,
    sequence: u64,
    notices: Seq<NoticeModel>,
)
    ensures
        ({
            let now = drain(handle, sequence, notices);
            let queued = handle.commands.len() > 0;
            &&& now.sequence == sequence
            &&& now.notices == notices
            &&& queued ==> {
                &&& now.handle.commands == handle.commands.skip(1)
                &&& handle.commands[0] matches PumpCommand::Terminal(command) ==> {
                    &&& now.action == PumpAction::Command(command)
                    &&& now.phase == (Phase::Replying {
                        selection: None,
                        close: command is Close,
                    })
                    &&& !now.handle.selection_in_flight
                }
                &&& handle.commands[0] matches PumpCommand::SelectionText {
                    target,
                    copy_to_clipboard,
                } ==> {
                    &&& now.action == PumpAction::Command(SessionCommand::SelectionText)
                    &&& now.phase == (Phase::Replying {
                        selection: Some(Destination { target, copy_to_clipboard }),
                        close: false,
                    })
                    &&& now.handle.selection_in_flight
                }
            }
            &&& !queued && handle.closed ==> now.action == PumpAction::Command(
                SessionCommand::Close,
            ) && now.phase == (Phase::Replying { selection: None, close: true }) && now.handle
                == handle
            &&& !queued && !handle.closed && handle.owners > 0 ==> now.action
                == PumpAction::PollEvent && now.phase == Phase::Polling && now.handle == handle
            &&& !queued && !handle.closed && handle.owners == 0 ==> now.action == PumpAction::Stop
                && now.phase == Phase::Done && now.handle.state.pump_done && !now.handle.receiving
            &&& now.handle.closed == handle.closed
            &&& now.handle.owners == handle.owners
            &&& now.handle.signalled == handle.signalled
            &&& now.handle.state.events == handle.state.events
            &&& now.handle.state.updates == handle.state.updates
            &&& now.handle.state.status == handle.state.status
            &&& now.handle.state.replies == handle.state.replies
        }),
        round(handle, sequence, notices) == drain(
            HandleModel { signalled: false, ..handle },
            sequence,
            notices,
        ),
{
}

/// A session is done with: the pump stops, takes nothing any more, and nothing is
/// left to send.
pub open spec fn is_done(now: PumpModel) -> bool {
    &&& now.action == PumpAction::Stop
    &&& now.phase == Phase::Done
    &&& now.handle.commands.len() == 0
    &&& !now.handle.receiving
    &&& now.handle.state.pump_done
}

/// The window is told to draw, and of nothing else.
pub open spec fn only_drawn(notices: Seq<NoticeModel>) -> bool {
    notices.len() > 0 && forall|i: int|
        0 <= i < notices.len() ==> #[trigger] notices[i] == NoticeModel::Render
}

/// Where the handle without what was just done to it stands.
pub open spec fn goes_on(now: PumpModel, handle: HandleModel, sequence: u64) -> bool {
    now == drain(handle, sequence, now.notices)
}

/// A frame that starts a session is published, the window draws, and the session goes
/// on from its number.
pub proof fn law_first_frame_is_published(
    sequence: u64,
    handle: HandleModel,
    frame: FullFrame,
    poisoned: bool,
)
    ensures
        ({
            let state = handle.state.published(FrameUpdate::Full(frame));
            let shown = HandleModel { state, signalled: false, ..handle };
            &&& goes_on(
                pumped(Phase::Starting, sequence, handle, PumpInput::Frame(Ok(frame)), poisoned),
                shown,
                frame.sequence,
            )
            &&& only_drawn(
                pumped(
                    Phase::Starting,
                    sequence,
                    handle,
                    PumpInput::Frame(Ok(frame)),
                    poisoned,
                ).notices,
            )
            &&& goes_on(
                pumped(Phase::Catching, sequence, handle, PumpInput::Frame(Ok(frame)), poisoned),
                shown,
                frame.sequence,
            )
            &&& only_drawn(
                pumped(
                    Phase::Catching,
                    sequence,
                    handle,
                    PumpInput::Frame(Ok(frame)),
                    poisoned,
                ).notices,
            )
            &&& goes_on(started(PumpStartup::Frame(frame), handle), shown, frame.sequence)
            &&& only_drawn(started(PumpStartup::Frame(frame), handle).notices)
        }),
{
}

/// A session that goes on from a number goes on from that one; one without anything
/// asks for a snapshot first.
pub proof fn law_session_starts_where_it_left(sequence: u64, handle: HandleModel)
    ensures
        goes_on(
            started(PumpStartup::Sequence(sequence), handle),
            HandleModel {
                state: StateModel { had_frame: true, ..handle.state },
                signalled: false,
                ..handle
            },
            sequence,
        ),
        started(PumpStartup::Snapshot, handle).action == PumpAction::Snapshot,
        started(PumpStartup::Snapshot, handle).phase == Phase::Starting,
        started(PumpStartup::Snapshot, handle).handle == handle,
        started(PumpStartup::Snapshot, handle).sequence == 0,
{
}

/// What the worker answers is kept where it belongs: a frame is published, a selected
/// text waits with the destination that was asked for, search results replace the
/// ones before.
pub proof fn law_answers_are_kept_where_they_belong(
    handle: HandleModel,
    sequence: u64,
    selection: Option<Destination>,
    reply: SessionReply,
)
    ensures
        ({
            let (now, next, resync) = replied(handle, sequence, selection, reply);
            &&& reply matches SessionReply::Frame(frame) ==> now.state == handle.state.published(
                FrameUpdate::Full(frame),
            ) && next == frame.sequence && !resync
            &&& reply matches SessionReply::FrameUpdate(update) ==> {
                &&& now.state == handle.state.published(update)
                &&& resync == !handle.state.takes(update)
                &&& !resync ==> (update matches FrameUpdate::Full(frame) ==> next
                    == frame.sequence)
                &&& !resync ==> (update matches FrameUpdate::Delta(delta) ==> next
                    == delta.sequence)
                &&& resync ==> next == sequence
            }
            &&& reply matches SessionReply::SelectionText(text) ==> {
                &&& now.state.replies.len() == handle.state.replies.len() + 1
                &&& now.state.replies.drop_last() == handle.state.replies
                &&& now.state.replies.last().text == text
                &&& selection matches Some(to) ==> now.state.replies.last().target == to.target
                    && now.state.replies.last().copy_to_clipboard == to.copy_to_clipboard
                &&& next == sequence
                &&& !resync
            }
            &&& reply matches SessionReply::SearchNavigation(navigation) ==> now.state == (
            StateModel { search_navigation: Some(navigation), ..handle.state }) && next == sequence
                && !resync
            &&& reply matches SessionReply::SearchMatches(matches) ==> now.state == (StateModel {
                search_matches: Some(matches),
                ..handle.state
            }) && next == sequence && !resync
            &&& reply is Closed || reply is Accepted || reply is NoChange || reply is ChildPid
                ==> now == handle && next == sequence && !resync
            &&& now == (HandleModel { state: now.state, ..handle })
        }),
{
    let (now, next, resync) = replied(handle, sequence, selection, reply);
    if reply is SelectionText {
        assert(now.state.replies.drop_last() =~= handle.state.replies);
    }
}

/// Behind an answer the window draws and the next command is sent; behind the answer
/// to a close the pump is done. An update that found no room is made up for by a
/// snapshot first.
pub proof fn law_answered_pump_goes_on(
    sequence: u64,
    handle: HandleModel,
    selection: Option<Destination>,
    close: bool,
    reply: SessionReply,
    poisoned: bool,
)
    ensures
        ({
            let now = pumped(
                Phase::Replying { selection, close },
                sequence,
                handle,
                PumpInput::Reply(Ok(reply)),
                poisoned,
            );
            let (kept, next, resync) = replied(
                HandleModel { selection_in_flight: false, ..handle },
                sequence,
                selection,
                reply,
            );
            &&& resync ==> now.action == PumpAction::Snapshot && now.phase == (Phase::Resyncing {
                close,
            }) && now.handle == kept && now.sequence == next
            &&& !resync && close ==> is_done(now) && now.handle.state.replies
                == kept.state.replies && now.handle.state.status == kept.state.status
            &&& !resync && !close ==> goes_on(now, kept, next)
            &&& !resync ==> only_drawn(now.notices)
        }),
{
}

/// A request that the worker refused is noted and no longer outstanding, and the
/// session goes on; any other error ends it.
pub proof fn law_refused_request_is_noted(
    sequence: u64,
    handle: HandleModel,
    selection: Option<Destination>,
    error: SessionError,
    poisoned: bool,
)
    ensures
        is_recoverable(error, poisoned) <==> !poisoned && (error is Invalid || error is Unsupported),
        ({
            let now = pumped(
                Phase::Replying { selection, close: false },
                sequence,
                handle,
                PumpInput::Reply(Err(error)),
                poisoned,
            );
            let outstanding = handle.state.outstanding - if selection is Some {
                1int
            } else {
                0int
            };
            let back = HandleModel {
                selection_in_flight: false,
                state: StateModel { outstanding, ..handle.state },
                ..handle
            };
            &&& is_recoverable(error, poisoned) ==> goes_on(
                now,
                HandleModel { state: back.state.noted(error.words()), ..back },
                sequence,
            ) && only_drawn(now.notices)
            &&& !is_recoverable(error, poisoned) ==> is_done(now) && !now.handle.state.status.running
                && now.handle.state.status.error == Some(error.words())
                && now.handle.state.outstanding == outstanding
        }),
{
}

/// A session whose worker says that a frame is ready asks for what came since its
/// number; any other event is published. Without an event it waits, and a session
/// that was woken begins anew.
pub proof fn law_events_are_published_and_frames_asked_for(
    sequence: u64,
    handle: HandleModel,
    event: SessionEvent,
    poisoned: bool,
)
    ensures
        ({
            let now = pumped(
                Phase::Polling,
                sequence,
                handle,
                PumpInput::Event(Ok(Some(event))),
                poisoned,
            );
            &&& event is FrameReady ==> now.action == PumpAction::SnapshotSince(sequence)
                && now.phase == Phase::Updating && now.handle == handle && now.sequence == sequence
            &&& !(event is FrameReady) ==> goes_on(
                now,
                HandleModel {
                    state: handle.state.with_event(event),
                    signalled: false,
                    ..handle
                },
                sequence,
            ) && only_drawn(now.notices)
        }),
        ({
            let idle = pumped(
                Phase::Polling,
                sequence,
                handle,
                PumpInput::Event(Ok(None)),
                poisoned,
            );
            &&& idle.action == PumpAction::Wait
            &&& idle.phase == Phase::Waiting
            &&& idle.handle == handle
            &&& idle.sequence == sequence
            &&& idle.notices.len() == 0
        }),
        ({
            let woken = pumped(
                Phase::Waiting,
                sequence,
                handle,
                PumpInput::Woken(Ok(())),
                poisoned,
            );
            &&& goes_on(woken, HandleModel { signalled: false, ..handle }, sequence)
            &&& woken.notices.len() == 0
        }),
{
}

/// An update that there is room for is published and leads to its number; one without
/// room, or an error, is made up for by a snapshot.
pub proof fn law_updates_are_published_or_made_up_for(
    sequence: u64,
    handle: HandleModel,
    update: FrameUpdate,
    error: SessionError,
    poisoned: bool,
)
    ensures
        ({
            let now = pumped(
                Phase::Updating,
                sequence,
                handle,
                PumpInput::Update(Ok(update)),
                poisoned,
            );
            let reached = match update {
                FrameUpdate::Full(frame) => frame.sequence,
                FrameUpdate::Delta(delta) => delta.sequence,
            };
            &&& handle.state.takes(update) ==> goes_on(
                now,
                HandleModel {
                    state: handle.state.published(update),
                    signalled: false,
                    ..handle
                },
                reached,
            ) && only_drawn(now.notices)
            &&& !handle.state.takes(update) ==> now.action == PumpAction::Snapshot && now.phase
                == Phase::Catching && now.handle == handle && now.sequence == reached
                && now.notices.len() == 0
        }),
        ({
            let now = pumped(
                Phase::Updating,
                sequence,
                handle,
                PumpInput::Update(Err(error)),
                poisoned,
            );
            &&& now.action == PumpAction::Snapshot
            &&& now.phase == Phase::Catching
            &&& now.sequence == sequence
            &&& now.handle.state.frame_resync_logged
            &&& now.handle.state.updates == handle.state.updates
            &&& now.handle.commands == handle.commands
        }),
{
}

/// An error while a frame is waited for is noted where the worker can go on, and else
/// ends the session; errors of events and of waiting always end it.
pub proof fn law_other_errors_end_the_session(
    sequence: u64,
    handle: HandleModel,
    error: SessionError,
    poisoned: bool,
)
    ensures
        ({
            let failed = |now: PumpModel|
                is_done(now) && !now.handle.state.status.running && now.handle.state.status.error
                    == Some(error.words());
            let noted = HandleModel {
                state: handle.state.noted(error.words()),
                signalled: false,
                ..handle
            };
            let starting = pumped(
                Phase::Starting,
                sequence,
                handle,
                PumpInput::Frame(Err(error)),
                poisoned,
            );
            let catching = pumped(
                Phase::Catching,
                sequence,
                handle,
                PumpInput::Frame(Err(error)),
                poisoned,
            );
            &&& failed(
                pumped(Phase::Polling, sequence, handle, PumpInput::Event(Err(error)), poisoned),
            )
            &&& failed(
                pumped(Phase::Waiting, sequence, handle, PumpInput::Woken(Err(error)), poisoned),
            )
            &&& !is_recoverable(error, poisoned) ==> failed(starting) && failed(catching)
            &&& is_recoverable(error, poisoned) ==> goes_on(starting, noted, 0) && goes_on(
                catching,
                noted,
                sequence,
            ) && only_drawn(starting.notices) && only_drawn(catching.notices)
        }),
{
}

/// A snapshot that makes up for an update is published behind it, and an error is
/// noted; then the pump goes on, or is done where the session was closed.
pub proof fn law_resynced_pump_goes_on(
    sequence: u64,
    handle: HandleModel,
    frame: Result<FullFrame, SessionError>,
    close: bool,
    poisoned: bool,
)
    ensures
        ({
            let now = pumped(
                Phase::Resyncing { close },
                sequence,
                handle,
                PumpInput::Frame(frame),
                poisoned,
            );
            let state = match frame {
                Ok(frame) => handle.state.published(FrameUpdate::Full(frame)),
                Err(error) => handle.state.noted(error.words()),
            };
            let next = match frame {
                Ok(frame) => frame.sequence,
                Err(_) => sequence,
            };
            &&& close ==> is_done(now) && now.handle.state.status == state.status
                && now.handle.state.pending_full == state.pending_full
            &&& !close ==> goes_on(now, HandleModel { state, ..handle }, next)
            &&& only_drawn(now.notices)
        }),
{
}

/// A session that never began is closed, has ended with its error, and takes nothing.
pub proof fn law_unbegun_session_takes_nothing(words: Seq<char>, command: PumpCommand)
    ensures
        ({
            let handle = HandleModel::disconnected(words);
            &&& handle.closed
            &&& !handle.receiving
            &&& handle.commands.len() == 0
            &&& handle.state.pump_done
            &&& !handle.state.status.running
            &&& handle.state.status.error == Some(words)
            &&& handle.state.descriptor is None
            &&& handle.state.events.len() == 0
            &&& handle.state.updates.len() == 0
            &&& handle.sent(command) == handle
        }),
        ({
            let state = StateModel::fresh();
            &&& state.status.running
            &&& state.status.error is None
            &&& state.pending_full is None
            &&& state.updates.len() == 0
            &&& state.events.len() == 0
            &&& state.replies.len() == 0
            &&& state.outstanding == 0
            &&& !state.had_frame
            &&& !state.pump_done
            &&& state.descriptor is None
        }),
{
}

/// The words of errors say what kind they are, and then what went wrong.
pub proof fn law_error_words_end_with_the_reason(text: String)
    ensures
        ({
            let ends = |words: Seq<char>|
                words.len() >= text@.len() && words.skip(words.len() - text@.len()) == text@;
            &&& ends(SessionError::Invalid(text).words())
            &&& ends(SessionError::Unsupported(text).words())
            &&& ends(SessionError::Protocol(text).words())
            &&& ends(SessionError::Codec(text).words())
            &&& ends(SessionError::Io(text).words())
        }),
{
    lemma_ends("invalid session request: "@, text@);
    lemma_ends("unsupported session request: "@, text@);
    lemma_ends("session protocol error: "@, text@);
    lemma_ends("session codec error: "@, text@);
    lemma_ends("session i/o error: "@, text@);
}

proof fn lemma_ends(a: Seq<char>, b: Seq<char>)
    ensures
        (a + b).skip(a.len() as int) == b,
        (a + b).len() == a.len() + b.len(),
{
    assert((a + b).skip(a.len() as int) =~= b);
}

/// A step of a pump is what was said of it: the phase that follows, the number of the
/// frame, the session, what is to be done, and the notices in their order.
pub proof fn law_steps_are_what_was_said_of_them(
    pump: &SessionPump,
    handle: &SessionHandle,
    step: &PumpStep,
    model: PumpModel,
    i: int,
)
    requires
        is_step(pump, handle, step, model),
    ensures
        pump.phase == model.phase,
        pump.frame_sequence == model.sequence,
        handle@ == model.handle,
        step.action == model.action,
        step.notices@.len() == model.notices.len(),
        0 <= i < step.notices@.len() ==> step.notices@[i]@ == model.notices[i],
{
}

/// Sending a command says whether it was admitted: a closed or ended session is
/// detached, and a full queue refuses.
pub proof fn law_sending_says_whether_it_was_admitted(
    admission: Admission,
    r: Result<(), SessionError>,
)
    requires
        admitted(admission, r),
    ensures
        r is Ok <==> admission is Admitted,
        admission is Closed || admission is Disconnected ==> r == Err::<(), SessionError>(
            SessionError::Detached,
        ),
        admission is Full ==> r is Err && r->Err_0 is Invalid && r->Err_0.words() == queue_full(),
{
}

} // verus!
