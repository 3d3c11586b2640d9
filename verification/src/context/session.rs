//! Passive session ownership for a terminal pane.
//!
//! The front end never owns a terminal. Commands are queued for a pump that
//! talks to the session worker, and what the worker publishes is handed over
//! through bounded queues.

use crate::context::protocol::{
    FrameUpdate, FullFrame, SearchMatch, SearchNavigation, SelectionReply, SessionCommand,
    SessionDescriptor, SessionError, SessionEvent,
};
use crate::terminal::ClipboardType;
use std::collections::VecDeque;
use vstd::prelude::*;

verus! {

/// How many commands can wait for the worker.
pub const COMMAND_QUEUE_SIZE: usize = 256;

/// How many events, or selection replies, can wait for the front end.
pub const EVENT_QUEUE_SIZE: usize = 64;

/// How many frame deltas can wait for the front end.
pub const FRAME_UPDATE_QUEUE_SIZE: usize = 64;

/// A command for the pump.
pub enum PumpCommand {
    Terminal(SessionCommand),
    SelectionText { target: ClipboardType, copy_to_clipboard: bool },
}

/// Whether a session runs, and the last error of it.
pub enum SessionStatus {
    Running(Option<String>),
    Closed(Option<String>),
}

/// The contents of a status.
#[verifier::ext_equal]
pub struct StatusModel {
    pub running: bool,
    pub error: Option<Seq<char>>,
}

/// The contents of an optional message.
pub open spec fn message_view(m: Option<String>) -> Option<Seq<char>> {
    match m {
        Some(m) => Some(m@),
        None => None,
    }
}

impl View for SessionStatus {
    type V = StatusModel;

    open spec fn view(&self) -> StatusModel {
        match self {
            SessionStatus::Running(error) => StatusModel {
                running: true,
                error: message_view(*error),
            },
            SessionStatus::Closed(error) => StatusModel {
                running: false,
                error: message_view(*error),
            },
        }
    }
}

/// What a session has published and the front end has not yet taken.
pub struct SessionState {
    pub pending_full: Option<FullFrame>,
    pub updates: VecDeque<FrameUpdate>,
    pub events: VecDeque<SessionEvent>,
    pub status: SessionStatus,
    pub descriptor: Option<SessionDescriptor>,
    /// Selection requests queued or in flight, and unread replies.
    pub outstanding: usize,
    pub replies: VecDeque<SelectionReply>,
    pub search_navigation: Option<SearchNavigation>,
    pub search_matches: Option<Vec<SearchMatch>>,
    pub pump_done: bool,
    pub frame_resync_logged: bool,
    pub had_frame: bool,
}

/// The contents of a session's state.
#[verifier::ext_equal]
pub struct StateModel {
    pub pending_full: Option<FullFrame>,
    pub updates: Seq<FrameUpdate>,
    pub events: Seq<SessionEvent>,
    pub status: StatusModel,
    pub descriptor: Option<SessionDescriptor>,
    pub outstanding: int,
    pub replies: Seq<SelectionReply>,
    pub search_navigation: Option<SearchNavigation>,
    pub search_matches: Option<Vec<SearchMatch>>,
    pub pump_done: bool,
    pub frame_resync_logged: bool,
    pub had_frame: bool,
}

impl View for SessionState {
    type V = StateModel;

    open spec fn view(&self) -> StateModel {
        StateModel {
            pending_full: self.pending_full,
            updates: self.updates@,
            events: self.events@,
            status: self.status@,
            descriptor: self.descriptor,
            outstanding: self.outstanding as int,
            replies: self.replies@,
            search_navigation: self.search_navigation,
            search_matches: self.search_matches,
            pump_done: self.pump_done,
            frame_resync_logged: self.frame_resync_logged,
            had_frame: self.had_frame,
        }
    }
}

/// `event` makes `queued` obsolete: the newer title, progress, or colour of the
/// same slot.
pub open spec fn supersedes(event: SessionEvent, queued: SessionEvent) -> bool {
    match (event, queued) {
        (SessionEvent::Title { .. }, SessionEvent::Title { .. }) => true,
        (SessionEvent::Progress { .. }, SessionEvent::Progress { .. }) => true,
        (
            SessionEvent::ColorChange { route_id, index, .. },
            SessionEvent::ColorChange { route_id: queued_route, index: queued_index, .. },
        ) => queued_route == route_id && queued_index == index,
        _ => false,
    }
}

fn is_superseded(event: &SessionEvent, queued: &SessionEvent) -> (r: bool)
    ensures
        r == supersedes(*event, *queued),
{
    match (event, queued) {
        (SessionEvent::Title { .. }, SessionEvent::Title { .. }) => true,
        (SessionEvent::Progress { .. }, SessionEvent::Progress { .. }) => true,
        (
            SessionEvent::ColorChange { route_id, index, .. },
            SessionEvent::ColorChange { route_id: queued_route, index: queued_index, .. },
        ) => *queued_route == *route_id && *queued_index == *index,
        _ => false,
    }
}

/// The events that an event leaves in the queue.
pub open spec fn not_superseded(events: Seq<SessionEvent>, event: SessionEvent) -> Seq<SessionEvent>
    decreases events.len(),
{
    if events.len() == 0 {
        Seq::empty()
    } else if supersedes(event, events.last()) {
        not_superseded(events.drop_last(), event)
    } else {
        not_superseded(events.drop_last(), event).push(events.last())
    }
}

/// An event that is never dropped for want of room: requests, notifications,
/// refusals, and the end of the session.
pub open spec fn is_kept(event: SessionEvent) -> bool {
    match event {
        SessionEvent::ClipboardLoad { .. }
        | SessionEvent::ColorRequest { .. }
        | SessionEvent::TextAreaSizeRequest { .. }
        | SessionEvent::GlyphProtocolQuery { .. }
        | SessionEvent::DesktopNotification { .. }
        | SessionEvent::ChildExited { .. }
        | SessionEvent::ClipboardOverflow
        | SessionEvent::RequestRefused { .. }
        | SessionEvent::RequestExpired { .. }
        | SessionEvent::ColorChange { .. }
        | SessionEvent::Closed => true,
        _ => false,
    }
}

fn must_keep(event: &SessionEvent) -> (r: bool)
    ensures
        r == is_kept(*event),
{
    match event {
        SessionEvent::ClipboardLoad { .. }
        | SessionEvent::ColorRequest { .. }
        | SessionEvent::TextAreaSizeRequest { .. }
        | SessionEvent::GlyphProtocolQuery { .. }
        | SessionEvent::DesktopNotification { .. }
        | SessionEvent::ChildExited { .. }
        | SessionEvent::ClipboardOverflow
        | SessionEvent::RequestRefused { .. }
        | SessionEvent::RequestExpired { .. }
        | SessionEvent::ColorChange { .. }
        | SessionEvent::Closed => true,
        _ => false,
    }
}

/// The position of the oldest event, from `from` on, that may be dropped.
pub open spec fn oldest_droppable(events: Seq<SessionEvent>, from: int) -> Option<int>
    decreases events.len() - from,
{
    if from < 0 || from >= events.len() {
        None
    } else if is_kept(events[from]) {
        oldest_droppable(events, from + 1)
    } else {
        Some(from)
    }
}

proof fn lemma_oldest_droppable(events: Seq<SessionEvent>, from: int)
    requires
        0 <= from <= events.len(),
    ensures
        match oldest_droppable(events, from) {
            Some(i) => from <= i < events.len() && !is_kept(events[i]) && forall|k: int|
                from <= k < i ==> is_kept(#[trigger] events[k]),
            None => forall|k: int| from <= k < events.len() ==> is_kept(#[trigger] events[k]),
        },
    decreases events.len() - from,
{
    if from < events.len() && is_kept(events[from]) {
        lemma_oldest_droppable(events, from + 1);
    }
}

impl StateModel {
    /// A session that has published nothing.
    pub open spec fn fresh() -> StateModel {
        StateModel {
            pending_full: None,
            updates: Seq::empty(),
            events: Seq::empty(),
            status: StatusModel { running: true, error: None },
            descriptor: None,
            outstanding: 0,
            replies: Seq::empty(),
            search_navigation: None,
            search_matches: None,
            pump_done: false,
            frame_resync_logged: false,
            had_frame: false,
        }
    }

    /// The line numbers in everything that waits fit a line number.
    pub open spec fn in_range(self) -> bool {
        &&& self.pending_full matches Some(frame) ==> frame.fits()
        &&& forall|i: int| 0 <= i < self.updates.len() ==> (#[trigger] self.updates[i]).fits()
        &&& self.search_matches matches Some(matches) ==> forall|i: int|
            0 <= i < matches@.len() ==> (#[trigger] matches@[i]).fits()
    }

    /// The session ended with an error.
    pub open spec fn failed(self, words: Seq<char>) -> StateModel {
        StateModel { status: StatusModel { running: false, error: Some(words) }, ..self }
    }

    /// An error noted, which an ended session no longer does.
    pub open spec fn noted(self, words: Seq<char>) -> StateModel {
        if self.status.running {
            StateModel { status: StatusModel { running: true, error: Some(words) }, ..self }
        } else {
            self
        }
    }

    /// The update is accepted: only a delta can find no room.
    pub open spec fn takes(self, update: FrameUpdate) -> bool {
        update is Full || self.updates.len() < FRAME_UPDATE_QUEUE_SIZE
    }

    /// A frame update published. A full frame replaces everything that waits; a
    /// delta that finds no room changes nothing. Anything accepted confirms
    /// that the session is well.
    pub open spec fn published(self, update: FrameUpdate) -> StateModel {
        let accepted = StateModel {
            had_frame: true,
            status: if self.status.running {
                StatusModel { running: true, error: None }
            } else {
                self.status
            },
            ..self
        };
        match update {
            FrameUpdate::Full(frame) => StateModel {
                pending_full: Some(frame),
                updates: Seq::empty(),
                frame_resync_logged: false,
                ..accepted
            },
            FrameUpdate::Delta(_) => if self.takes(update) {
                StateModel { updates: self.updates.push(update), ..accepted }
            } else {
                self
            },
        }
    }

    /// An event published: it replaces the ones that it makes obsolete. In a
    /// full queue the oldest event that may be dropped makes room; where there
    /// is none, the session fails.
    pub open spec fn with_event(self, event: SessionEvent) -> StateModel {
        let noted = if event is Closed {
            StateModel { status: StatusModel { running: false, ..self.status }, ..self }
        } else {
            self
        };
        let left = not_superseded(self.events, event);
        if left.len() < EVENT_QUEUE_SIZE {
            StateModel { events: left.push(event), ..noted }
        } else {
            match oldest_droppable(left, 0) {
                Some(i) => StateModel { events: left.remove(i).push(event), ..noted },
                None => StateModel { events: left, ..noted }.failed(
                    "session protocol error: "@ + "session event handoff is full"@,
                ),
            }
        }
    }
}

/// Once a session has ended, nothing that it publishes later changes its last
/// error.
pub proof fn law_closed_session_keeps_its_diagnostic(
    state: StateModel,
    update: FrameUpdate,
    words: Seq<char>,
)
    requires
        !state.status.running,
    ensures
        state.published(update).status == state.status,
        state.noted(words).status == state.status,
{
}

/// A session that ends keeps the error that it had while it ran.
pub proof fn law_closing_keeps_the_error(state: StateModel)
    requires
        state.events.len() < EVENT_QUEUE_SIZE,
    ensures
        state.with_event(SessionEvent::Closed).status.error == state.status.error,
        !state.with_event(SessionEvent::Closed).status.running,
{
    lemma_not_superseded_len(state.events, SessionEvent::Closed);
}

proof fn lemma_not_superseded_len(events: Seq<SessionEvent>, event: SessionEvent)
    ensures
        not_superseded(events, event).len() <= events.len(),
    decreases events.len(),
{
    if events.len() > 0 {
        lemma_not_superseded_len(events.drop_last(), event);
    }
}

/// The queues stay bounded.
pub proof fn law_queues_stay_bounded(state: StateModel, update: FrameUpdate, event: SessionEvent)
    requires
        state.updates.len() <= FRAME_UPDATE_QUEUE_SIZE,
        state.events.len() <= EVENT_QUEUE_SIZE,
    ensures
        state.published(update).updates.len() <= FRAME_UPDATE_QUEUE_SIZE,
        state.with_event(event).events.len() <= EVENT_QUEUE_SIZE,
{
    lemma_not_superseded_len(state.events, event);
    lemma_oldest_droppable(not_superseded(state.events, event), 0);
}

/// A request of the terminal, once queued, is not dropped for a later event,
/// unless that event makes it obsolete.
pub proof fn law_requests_are_not_dropped(state: StateModel, event: SessionEvent, i: int)
    requires
        0 <= i < state.events.len(),
        is_kept(state.events[i]),
        !supersedes(event, state.events[i]),
    ensures
        state.with_event(event).events.contains(state.events[i]),
{
    let left = not_superseded(state.events, event);
    lemma_not_superseded_contains(state.events, event, i);
    lemma_oldest_droppable(left, 0);
    let k = choose|k: int| 0 <= k < left.len() && left[k] == state.events[i];
    match oldest_droppable(left, 0) {
        Some(d) => {
            assert(k != d);
            let shorter = left.remove(d);
            if k < d {
                assert(shorter[k] == left[k]);
                assert(shorter.push(event)[k] == left[k]);
            } else {
                assert(shorter[k - 1] == left[k]);
                assert(shorter.push(event)[k - 1] == left[k]);
            }
            assert(left.push(event)[k] == left[k]);
        },
        None => {
            assert(left.push(event)[k] == left[k]);
        },
    }
}

proof fn lemma_not_superseded_contains(events: Seq<SessionEvent>, event: SessionEvent, i: int)
    requires
        0 <= i < events.len(),
        !supersedes(event, events[i]),
    ensures
        not_superseded(events, event).contains(events[i]),
    decreases events.len(),
{
    let before = not_superseded(events.drop_last(), event);
    if i < events.len() - 1 {
        lemma_not_superseded_contains(events.drop_last(), event, i);
        let k = choose|k: int| 0 <= k < before.len() && before[k] == events[i];
        assert(before.push(events.last())[k] == events[i]);
    } else {
        assert(before.push(events.last())[before.len() as int] == events[i]);
    }
}

impl SessionState {
    pub fn new() -> (r: Self)
        ensures
            r@ == StateModel::fresh(),
    {
        let r: SessionState = SessionState {
            pending_full: None,
            updates: VecDeque::new(),
            events: VecDeque::new(),
            status: SessionStatus::Running(None),
            descriptor: None,
            outstanding: 0,
            replies: VecDeque::new(),
            search_navigation: None,
            search_matches: None,
            pump_done: false,
            frame_resync_logged: false,
            had_frame: false,
        };
        proof {
            assert(r@ =~= StateModel::fresh());
        }
        r
    }

    /// Ends the session with an error.
    pub fn fail(&mut self, error: SessionError)
        ensures
            final(self)@ == old(self)@.failed(error.words()),
    {
        self.status = SessionStatus::Closed(Some(error.message()));
    }

    /// Notes an error of a running session.
    pub fn record_error(&mut self, error: &SessionError)
        ensures
            final(self)@ == old(self)@.noted(error.words()),
    {
        let running: bool = match &self.status {
            SessionStatus::Running(_) => true,
            SessionStatus::Closed(_) => false,
        };
        if running {
            self.status = SessionStatus::Running(Some(error.message()));
        }
    }

    /// The last error.
    pub fn error(&self) -> (r: Option<String>)
        ensures
            message_view(r) == self@.status.error,
    {
        match &self.status {
            SessionStatus::Running(error) => error.clone(),
            SessionStatus::Closed(error) => error.clone(),
        }
    }

    /// Whether anything was ever published for display.
    pub fn had_frame(&self) -> (r: bool)
        ensures
            r == self@.had_frame,
    {
        self.had_frame
    }

    pub fn mark_had_frame(&mut self)
        ensures
            final(self)@ == (StateModel { had_frame: true, ..old(self)@ }),
    {
        self.had_frame = true;
    }

    pub fn publish_frame(&mut self, frame: FullFrame)
        ensures
            final(self)@ == old(self)@.published(FrameUpdate::Full(frame)),
    {
        let _ = self.publish_frame_update(FrameUpdate::Full(frame));
    }

    /// Publishes a frame or a delta. A delta that finds no room is refused.
    pub fn publish_frame_update(&mut self, update: FrameUpdate) -> (r: bool)
        ensures
            r == old(self)@.takes(update),
            final(self)@ == old(self)@.published(update),
    {
        let ghost before = self@;
        match update {
            FrameUpdate::Full(frame) => {
                self.updates.clear();
                self.pending_full = Some(frame);
                self.frame_resync_logged = false;
            },
            FrameUpdate::Delta(delta) => {
                if self.updates.len() >= FRAME_UPDATE_QUEUE_SIZE {
                    return false;
                }
                self.updates.push_back(FrameUpdate::Delta(delta));
            },
        }
        self.had_frame = true;
        let running: bool = match &self.status {
            SessionStatus::Running(_) => true,
            SessionStatus::Closed(_) => false,
        };
        if running {
            self.status = SessionStatus::Running(None);
        }
        proof {
            assert(self@ =~= before.published(update));
        }
        true
    }

    /// Takes what was published since the last time.
    pub fn take_frame_updates(&mut self) -> (r: (Option<FullFrame>, VecDeque<FrameUpdate>))
        ensures
            r.0 == old(self)@.pending_full,
            r.1@ == old(self)@.updates,
            final(self)@ == (StateModel {
                pending_full: None,
                updates: Seq::empty(),
                ..old(self)@
            }),
    {
        let full: Option<FullFrame> = self.pending_full.take();
        let mut queue: VecDeque<FrameUpdate> = VecDeque::new();
        core::mem::swap(&mut queue, &mut self.updates);
        (full, queue)
    }

    /// Whether the first loss of the delta chain is being reported now.
    pub fn log_frame_resync_once(&mut self) -> (r: bool)
        ensures
            r == !old(self)@.frame_resync_logged,
            final(self)@ == (StateModel { frame_resync_logged: true, ..old(self)@ }),
    {
        let first: bool = !self.frame_resync_logged;
        self.frame_resync_logged = true;
        first
    }

    pub fn publish_descriptor(&mut self, descriptor: SessionDescriptor)
        ensures
            final(self)@ == (StateModel { descriptor: Some(descriptor), ..old(self)@ }),
    {
        self.descriptor = Some(descriptor);
    }

    /// Publishes an event of the worker.
    pub fn publish_event(&mut self, event: SessionEvent)
        ensures
            final(self)@ == old(self)@.with_event(event),
    {
        let ghost before = self@;
        let closing: bool = match &event {
            SessionEvent::Closed => true,
            _ => false,
        };
        if closing {
            let error: Option<String> = match &self.status {
                SessionStatus::Running(error) => error.clone(),
                SessionStatus::Closed(error) => error.clone(),
            };
            self.status = SessionStatus::Closed(error);
        }
        let ghost noted = self@;
        let mut queue: VecDeque<SessionEvent> = VecDeque::new();
        core::mem::swap(&mut queue, &mut self.events);
        let ghost all = queue@;
        let ghost mut n: int = 0;
        proof {
            assert(all.take(0) =~= Seq::<SessionEvent>::empty());
            assert(all.skip(0) =~= all);
        }
        while queue.len() > 0
            invariant
                0 <= n <= all.len(),
                n + queue@.len() == all.len(),
                queue@ == all.skip(n),
                self.events@ == not_superseded(all.take(n), event),
                self@ == (StateModel { events: self.events@, ..noted }),
            decreases queue@.len(),
        {
            match queue.pop_front() {
                Some(queued) => {
                    proof {
                        assert(queued == all[n]);
                        assert(all.take(n + 1).drop_last() =~= all.take(n));
                        assert(queue@ =~= all.skip(n + 1));
                    }
                    if !is_superseded(&event, &queued) {
                        self.events.push_back(queued);
                    }
                    proof {
                        n = n + 1;
                    }
                },
                None => {},
            }
        }
        let ghost left = self.events@;
        proof {
            assert(all.take(n) =~= all);
        }
        if self.events.len() >= EVENT_QUEUE_SIZE {
            let mut at: usize = 0;
            while at < self.events.len() && must_keep(&self.events[at])
                invariant
                    at <= self.events@.len(),
                    self.events@ == left,
                    oldest_droppable(left, 0) == oldest_droppable(left, at as int),
                decreases self.events@.len() - at,
            {
                at += 1;
            }
            if at < self.events.len() {
                let _ = self.events.remove(at);
            } else {
                let text: String = "session event handoff is full".to_owned();
                let error: SessionError = SessionError::Protocol(text);
                self.fail(error);
                proof {
                    assert(self@ =~= before.with_event(event));
                }
                return;
            }
        }
        self.events.push_back(event);
        proof {
            assert(self@ =~= before.with_event(event));
        }
    }
}

/// A command queue with the flags that its two ends share.
pub struct CommandQueue {
    pub queue: VecDeque<PumpCommand>,
    pub capacity: usize,
    /// The pump still takes commands.
    pub receiving: bool,
    /// How many front-end owners can still send commands.
    pub owners: usize,
    /// The pump has been woken and has not looked yet.
    pub signalled: bool,
}

/// What a session has published for display and search.
pub struct Published {
    pub pending: Option<FullFrame>,
    pub updates: VecDeque<FrameUpdate>,
    pub navigation: Option<SearchNavigation>,
    pub matches: Option<Vec<SearchMatch>>,
}

/// What the pump finds at the end of the command queue.
pub enum Received {
    Command(PumpCommand),
    Empty,
    Disconnected,
}

/// A command/event handle retained by a pane.
pub struct SessionHandle {
    pub commands: CommandQueue,
    pub state: SessionState,
    pub window_id: u64,
    /// No command is admitted any more; the pump closes the session once the
    /// queue is empty.
    pub closed: bool,
    /// A selection request is with the worker.
    pub selection_in_flight: bool,
}

/// The contents of a handle.
#[verifier::ext_equal]
pub struct HandleModel {
    pub commands: Seq<PumpCommand>,
    pub capacity: int,
    pub receiving: bool,
    pub owners: usize,
    pub signalled: bool,
    pub state: StateModel,
    pub window_id: u64,
    pub closed: bool,
    pub selection_in_flight: bool,
}

impl View for SessionHandle {
    type V = HandleModel;

    open spec fn view(&self) -> HandleModel {
        HandleModel {
            commands: self.commands.queue@,
            capacity: self.commands.capacity as int,
            receiving: self.commands.receiving,
            owners: self.commands.owners,
            signalled: self.commands.signalled,
            state: self.state@,
            window_id: self.window_id,
            closed: self.closed,
            selection_in_flight: self.selection_in_flight,
        }
    }
}

/// How many of some commands ask for the selected text.
pub open spec fn selections(commands: Seq<PumpCommand>) -> nat
    decreases commands.len(),
{
    if commands.len() == 0 {
        0
    } else {
        selections(commands.drop_last()) + (if commands.last() is SelectionText {
            1nat
        } else {
            0nat
        })
    }
}

proof fn lemma_selections_push(commands: Seq<PumpCommand>, command: PumpCommand)
    ensures
        selections(commands.push(command)) == selections(commands) + (if command is SelectionText {
            1nat
        } else {
            0nat
        }),
{
    assert(commands.push(command).drop_last() =~= commands);
}

pub proof fn lemma_selections_front(commands: Seq<PumpCommand>)
    requires
        commands.len() > 0,
    ensures
        selections(commands) == selections(commands.skip(1)) + (if commands[0] is SelectionText {
            1nat
        } else {
            0nat
        }),
    decreases commands.len(),
{
    if commands.len() == 1 {
        assert(commands.skip(1) =~= Seq::<PumpCommand>::empty());
        assert(commands.drop_last() =~= Seq::<PumpCommand>::empty());
    } else {
        lemma_selections_front(commands.drop_last());
        assert(commands.skip(1).drop_last() =~= commands.drop_last().skip(1));
    }
}

/// Why a command finds no place in the queue.
pub enum Admission {
    Admitted,
    Closed,
    Full,
    Disconnected,
}

impl HandleModel {
    /// Each selection request that is queued, in flight or answered but unread
    /// counts as outstanding, and there are never more than the reply queue
    /// can hold.
    pub open spec fn well_formed(self) -> bool {
        &&& self.state.outstanding >= selections(self.commands) + self.state.replies.len() + (
        if self.selection_in_flight {
            1int
        } else {
            0int
        })
        &&& self.state.outstanding <= EVENT_QUEUE_SIZE
        &&& self.state.in_range()
    }

    /// The handle of a session that ended with an error before it began.
    pub open spec fn disconnected(words: Seq<char>) -> HandleModel {
        HandleModel {
            commands: Seq::empty(),
            capacity: 1,
            receiving: false,
            owners: 1,
            signalled: false,
            state: StateModel { pump_done: true, ..StateModel::fresh().failed(words) },
            window_id: 0,
            closed: true,
            selection_in_flight: false,
        }
    }

    /// What becomes of a command that is sent now.
    pub open spec fn admission(self) -> Admission {
        if self.closed {
            Admission::Closed
        } else if !self.receiving {
            Admission::Disconnected
        } else if self.commands.len() >= self.capacity {
            Admission::Full
        } else {
            Admission::Admitted
        }
    }

    /// A command sent: queued and the pump woken, or an error noted.
    pub open spec fn sent(self, command: PumpCommand) -> HandleModel {
        match self.admission() {
            Admission::Admitted => HandleModel {
                commands: self.commands.push(command),
                signalled: true,
                ..self
            },
            Admission::Closed => self,
            Admission::Full => HandleModel {
                state: self.state.noted(rewrapped(queue_full())),
                ..self
            },
            Admission::Disconnected => HandleModel {
                state: self.state.noted(rewrapped(SessionError::Detached.words())),
                ..self
            },
        }
    }

    /// A command issued: where it is not admitted, the reason is noted.
    pub open spec fn issued(self, command: SessionCommand) -> HandleModel {
        match self.admission() {
            Admission::Admitted => self.sent(PumpCommand::Terminal(command)),
            Admission::Full => HandleModel { state: self.state.noted(queue_full()), ..self },
            _ => HandleModel {
                state: self.state.noted(SessionError::Detached.words()),
                ..self
            },
        }
    }

    /// The selected text asked for: where that is refused, the reason is
    /// noted.
    pub open spec fn asked(self, target: ClipboardType, copy_to_clipboard: bool) -> HandleModel {
        if self.state.outstanding == EVENT_QUEUE_SIZE {
            HandleModel { state: self.state.noted(replies_full()), ..self }
        } else {
            match self.admission() {
                Admission::Admitted => HandleModel {
                    commands: self.commands.push(
                        PumpCommand::SelectionText { target, copy_to_clipboard },
                    ),
                    signalled: true,
                    state: StateModel { outstanding: self.state.outstanding + 1, ..self.state },
                    ..self
                },
                Admission::Full => HandleModel { state: self.state.noted(queue_full()), ..self },
                _ => HandleModel {
                    state: self.state.noted(SessionError::Detached.words()),
                    ..self
                },
            }
        }
    }

    /// The frames and search results taken.
    pub open spec fn emptied(self) -> HandleModel {
        HandleModel {
            state: StateModel {
                pending_full: None,
                updates: Seq::empty(),
                search_navigation: None,
                search_matches: None,
                ..self.state
            },
            ..self
        }
    }

    /// Closing is noted once, and wakes the pump then.
    pub open spec fn closing(self) -> HandleModel {
        HandleModel { closed: true, signalled: self.signalled || !self.closed, ..self }
    }

    /// One more owner holds the handle.
    pub open spec fn shared(self) -> HandleModel {
        HandleModel { owners: (self.owners + 1) as usize, ..self }
    }

    /// An owner has let go of the handle. The last one wakes the pump.
    pub open spec fn abandoned(self) -> HandleModel {
        HandleModel {
            owners: if self.owners > 0 {
                (self.owners - 1) as usize
            } else {
                0
            },
            signalled: self.signalled || self.owners <= 1,
            ..self
        }
    }
}

/// The words of a refused request.
pub open spec fn rewrapped(words: Seq<char>) -> Seq<char> {
    "invalid session request: "@ + words
}

/// The words for a full command queue.
pub open spec fn queue_full() -> Seq<char> {
    rewrapped("session command queue is full"@)
}

/// The words for a selection request without a destination.
pub open spec fn no_destination() -> Seq<char> {
    rewrapped("selection text needs a clipboard destination"@)
}

/// The words for too many selection requests.
pub open spec fn replies_full() -> Seq<char> {
    rewrapped("selection reply handoff is full"@)
}

/// The request was refused in the given words.
pub open spec fn refused(r: Result<(), SessionError>, words: Seq<char>) -> bool {
    r is Err && r->Err_0 is Invalid && r->Err_0.words() == words
}

impl SessionHandle {
    /// Lets one more owner send commands.
    pub fn share(&mut self)
        requires
            old(self)@.owners < usize::MAX,
        ensures
            final(self)@ == old(self)@.shared(),
    {
        self.commands.owners += 1;
    }

    /// Lets go of the handle for one owner. The last one leaves the pump with
    /// nothing to wait for, and wakes it.
    pub fn abandon(&mut self)
        ensures
            final(self)@ == old(self)@.abandoned(),
    {
        if self.commands.owners <= 1 {
            self.commands.owners = 0;
            self.commands.signalled = true;
        } else {
            self.commands.owners -= 1;
        }
    }

    /// A handle with a queue of the given capacity.
    pub fn with_capacity(capacity: usize, window_id: u64) -> (r: Self)
        ensures
            r@ == (HandleModel {
                commands: Seq::empty(),
                capacity: capacity as int,
                receiving: true,
                owners: 1,
                signalled: false,
                state: StateModel::fresh(),
                window_id,
                closed: false,
                selection_in_flight: false,
            }),
            r@.well_formed(),
    {
        SessionHandle {
            commands: CommandQueue {
                queue: VecDeque::new(),
                capacity,
                receiving: true,
                owners: 1,
                signalled: false,
            },
            state: SessionState::new(),
            window_id,
            closed: false,
            selection_in_flight: false,
        }
    }

    /// The handle of a session that could not be started.
    pub fn disconnected_with_error(error: SessionError) -> (r: Self)
        ensures
            r@.well_formed(),
            r@ == HandleModel::disconnected(error.words()),
    {
        let mut r: SessionHandle = SessionHandle::with_capacity(1, 0);
        r.state.fail(error);
        r.state.pump_done = true;
        r.commands.receiving = false;
        r.closed = true;
        proof {
            assert(r@.state =~= (StateModel {
                pump_done: true,
                ..StateModel::fresh().failed(error.words())
            }));
        }
        r
    }

    /// Queues a command for the worker. Closing is always accepted; a request
    /// for the selected text has to say where the text goes.
    pub fn enqueue(&mut self, command: SessionCommand) -> (r: Result<(), SessionError>)
        requires
            old(self)@.well_formed(),
        ensures
            final(self)@.well_formed(),
            command is Close ==> r is Ok && final(self)@ == old(self)@.closing(),
            command is SelectionText ==> {
                &&& refused(r, no_destination())
                &&& final(self)@ == (HandleModel {
                    state: old(self)@.state.noted(rewrapped(no_destination())),
                    ..old(self)@
                })
            },
            !(command is Close) && !(command is SelectionText) ==> {
                &&& final(self)@ == old(self)@.sent(PumpCommand::Terminal(command))
                &&& admitted(old(self)@.admission(), r)
            },
    {
        let close: bool = match &command {
            SessionCommand::Close => true,
            _ => false,
        };
        if close {
            self.close();
            return Ok(());
        }
        let selection: bool = match &command {
            SessionCommand::SelectionText => true,
            _ => false,
        };
        if selection {
            let error: SessionError = SessionError::Invalid("selection text needs a clipboard destination".to_owned());
            self.state.record_error(&SessionError::Invalid(error.message()));
            proof {
                assert(self@ =~= (HandleModel {
                    state: old(self)@.state.noted(rewrapped(no_destination())),
                    ..old(self)@
                }));
            }
            return Err(error);
        }
        self.enqueue_command(PumpCommand::Terminal(command))
    }

    fn enqueue_command(&mut self, command: PumpCommand) -> (r: Result<(), SessionError>)
        requires
            old(self)@.state.outstanding >= selections(old(self)@.commands)
                + old(self)@.state.replies.len() + (if old(self)@.selection_in_flight {
                1int
            } else {
                0int
            }),
            old(self)@.state.outstanding <= EVENT_QUEUE_SIZE,
            old(self)@.state.in_range(),
        ensures
            final(self)@.state.in_range(),
            final(self)@ == old(self)@.sent(command),
            admitted(old(self)@.admission(), r),
            final(self)@.state.outstanding == old(self)@.state.outstanding,
            final(self)@.state.replies == old(self)@.state.replies,
            selections(final(self)@.commands) == selections(old(self)@.commands) + (
            if command is SelectionText && r is Ok {
                1nat
            } else {
                0nat
            }),
    {
        proof {
            lemma_selections_push(self@.commands, command);
        }
        if self.closed {
            return Err(SessionError::Detached);
        }
        if !self.commands.receiving {
            let error: SessionError = SessionError::Detached;
            self.state.record_error(&SessionError::Invalid(error.message()));
            proof {
                assert(self@ =~= old(self)@.sent(command));
            }
            return Err(error);
        }
        if self.commands.queue.len() >= self.commands.capacity {
            let error: SessionError = SessionError::Invalid("session command queue is full".to_owned());
            self.state.record_error(&SessionError::Invalid(error.message()));
            proof {
                assert(self@ =~= old(self)@.sent(command));
            }
            return Err(error);
        }
        self.commands.queue.push_back(command);
        self.commands.signalled = true;
        proof {
            assert(self@ =~= old(self)@.sent(command));
        }
        Ok(())
    }

    /// Queues a command, and notes why where that cannot be done.
    pub fn issue(&mut self, command: SessionCommand)
        requires
            old(self)@.well_formed(),
            !(command is Close) && !(command is SelectionText),
        ensures
            final(self)@.well_formed(),
            final(self)@ == old(self)@.issued(command),
    {
        if let Err(error) = self.enqueue(command) {
            self.record_command_error(&error);
            proof {
                assert(self@ =~= old(self)@.issued(command));
            }
        }
    }

    pub fn record_command_error(&mut self, error: &SessionError)
        ensures
            final(self)@ == (HandleModel {
                state: old(self)@.state.noted(error.words()),
                ..old(self)@
            }),
    {
        self.state.record_error(error);
    }

    /// Closes the session: no further command is admitted, and the pump drains
    /// the admitted ones before it asks the worker to close.
    pub fn close(&mut self)
        ensures
            final(self)@ == old(self)@.closing(),
    {
        if !self.closed {
            self.closed = true;
            self.commands.signalled = true;
        }
    }

    pub fn pump_done(&self) -> (r: bool)
        ensures
            r == self@.state.pump_done,
    {
        self.state.pump_done
    }

    pub fn rebind_window(&mut self, window_id: u64)
        ensures
            final(self)@ == (HandleModel { window_id, ..old(self)@ }),
    {
        self.window_id = window_id;
    }

    pub fn error(&self) -> (r: Option<String>)
        ensures
            message_view(r) == self@.state.status.error,
    {
        self.state.error()
    }

    pub fn descriptor(&self) -> (r: Option<SessionDescriptor>)
        ensures
            r == self@.state.descriptor,
    {
        self.state.descriptor
    }

    /// Takes the events that were published since the last time.
    pub fn take_events(&mut self) -> (r: Vec<SessionEvent>)
        ensures
            r@ == old(self)@.state.events,
            final(self)@ == (HandleModel {
                state: StateModel { events: Seq::empty(), ..old(self)@.state },
                ..old(self)@
            }),
    {
        let mut queue: VecDeque<SessionEvent> = VecDeque::new();
        core::mem::swap(&mut queue, &mut self.state.events);
        let mut out: Vec<SessionEvent> = Vec::new();
        let ghost all = queue@;
        while queue.len() > 0
            invariant
                out@.len() + queue@.len() == all.len(),
                out@ == all.take(out@.len() as int),
                queue@ == all.skip(out@.len() as int),
            decreases queue@.len(),
        {
            let ghost n = out@.len() as int;
            match queue.pop_front() {
                Some(event) => {
                    proof {
                        assert(event == all[n]);
                        assert(all.take(n + 1) =~= all.take(n).push(all[n]));
                        assert(queue@ =~= all.skip(n + 1));
                    }
                    out.push(event);
                },
                None => {},
            }
        }
        proof {
            assert(out@ =~= all);
            assert(self@ =~= (HandleModel {
                state: StateModel { events: Seq::empty(), ..old(self)@.state },
                ..old(self)@
            }));
        }
        out
    }

    /// Asks for the selected text. Room for the reply is reserved, so that no
    /// more requests are made than replies can wait.
    pub fn request_selection_text(
        &mut self,
        target: ClipboardType,
        copy_to_clipboard: bool,
    ) -> (r: Result<(), SessionError>)
        requires
            old(self)@.well_formed(),
        ensures
            final(self)@.well_formed(),
            old(self)@.state.outstanding == EVENT_QUEUE_SIZE ==> {
                &&& refused(r, replies_full())
                &&& final(self)@ == (HandleModel {
                    state: old(self)@.state.noted(rewrapped(replies_full())),
                    ..old(self)@
                })
            },
            old(self)@.state.outstanding < EVENT_QUEUE_SIZE ==> {
                let sent = old(self)@.sent(
                    PumpCommand::SelectionText { target, copy_to_clipboard },
                );
                &&& admitted(old(self)@.admission(), r)
                &&& final(self)@ == if r is Ok {
                    HandleModel {
                        state: StateModel {
                            outstanding: sent.state.outstanding + 1,
                            ..sent.state
                        },
                        ..sent
                    }
                } else {
                    sent
                }
            },
    {
        if self.state.outstanding == EVENT_QUEUE_SIZE {
            let error: SessionError = SessionError::Invalid("selection reply handoff is full".to_owned());
            self.state.record_error(&SessionError::Invalid(error.message()));
            proof {
                assert(self@ =~= (HandleModel {
                    state: old(self)@.state.noted(rewrapped(replies_full())),
                    ..old(self)@
                }));
            }
            return Err(error);
        }
        let r: Result<(), SessionError> = self.enqueue_command(
            PumpCommand::SelectionText { target, copy_to_clipboard },
        );
        if r.is_ok() {
            self.state.outstanding += 1;
        }
        r
    }

    /// Asks for the selected text, and notes why where that cannot be done.
    pub fn ask_selection(&mut self, target: ClipboardType, copy_to_clipboard: bool)
        requires
            old(self)@.well_formed(),
        ensures
            final(self)@.well_formed(),
            final(self)@ == old(self)@.asked(target, copy_to_clipboard),
    {
        if let Err(error) = self.request_selection_text(target, copy_to_clipboard) {
            self.record_command_error(&error);
        }
        proof {
            assert(self@ =~= old(self)@.asked(target, copy_to_clipboard));
        }
    }

    /// Takes the oldest selected text that was handed over.
    pub fn take_selection_text(&mut self) -> (r: Option<SelectionReply>)
        requires
            old(self)@.well_formed(),
        ensures
            final(self)@.well_formed(),
            old(self)@.state.replies.len() == 0 ==> r is None && final(self)@ == old(self)@,
            old(self)@.state.replies.len() > 0 ==> {
                &&& r == Some(old(self)@.state.replies[0])
                &&& final(self)@ == (HandleModel {
                    state: StateModel {
                        replies: old(self)@.state.replies.skip(1),
                        outstanding: old(self)@.state.outstanding - 1,
                        ..old(self)@.state
                    },
                    ..old(self)@
                })
            },
    {
        let ghost replies = self.state.replies@;
        match self.state.replies.pop_front() {
            Some(reply) => {
                self.state.outstanding -= 1;
                proof {
                    assert(self.state.replies@ =~= replies.skip(1));
                }
                Some(reply)
            },
            None => None,
        }
    }

    pub fn take_search_navigation(&mut self) -> (r: Option<SearchNavigation>)
        ensures
            r == old(self)@.state.search_navigation,
            final(self)@ == (HandleModel {
                state: StateModel { search_navigation: None, ..old(self)@.state },
                ..old(self)@
            }),
    {
        self.state.search_navigation.take()
    }

    pub fn take_search_matches(&mut self) -> (r: Option<Vec<SearchMatch>>)
        ensures
            r == old(self)@.state.search_matches,
            final(self)@ == (HandleModel {
                state: StateModel { search_matches: None, ..old(self)@.state },
                ..old(self)@
            }),
    {
        self.state.search_matches.take()
    }

    /// Takes the frames and search results that were published.
    pub fn take_published(&mut self) -> (r: Published)
        requires
            old(self)@.well_formed(),
        ensures
            final(self)@.well_formed(),
            final(self)@ == old(self)@.emptied(),
            r.pending == old(self)@.state.pending_full,
            r.updates@ == old(self)@.state.updates,
            r.navigation == old(self)@.state.search_navigation,
            r.matches == old(self)@.state.search_matches,
    {
        let navigation: Option<SearchNavigation> = self.take_search_navigation();
        let matches: Option<Vec<SearchMatch>> = self.take_search_matches();
        let (pending, updates): (Option<FullFrame>, VecDeque<FrameUpdate>) =
            self.state.take_frame_updates();
        proof {
            assert(self@ =~= old(self)@.emptied());
        }
        Published { pending, updates, navigation, matches }
    }

    /// The next command for the worker. A selection request counts as in
    /// flight from here on.
    pub fn next_command(&mut self) -> (r: Received)
        requires
            old(self)@.well_formed(),
            !old(self)@.selection_in_flight,
        ensures
            final(self)@.well_formed(),
            old(self)@.commands.len() > 0 ==> {
                &&& r == Received::Command(old(self)@.commands[0])
                &&& final(self)@ == (HandleModel {
                    commands: old(self)@.commands.skip(1),
                    selection_in_flight: old(self)@.commands[0] is SelectionText,
                    ..old(self)@
                })
            },
            old(self)@.commands.len() == 0 ==> {
                &&& final(self)@ == old(self)@
                &&& r == if old(self)@.closed {
                    Received::Command(PumpCommand::Terminal(SessionCommand::Close))
                } else if old(self)@.owners > 0 {
                    Received::Empty
                } else {
                    Received::Disconnected
                }
            },
    {
        let ghost commands = self.commands.queue@;
        match self.commands.queue.pop_front() {
            Some(command) => {
                proof {
                    lemma_selections_front(commands);
                    assert(self.commands.queue@ =~= commands.skip(1));
                }
                self.selection_in_flight = match &command {
                    PumpCommand::SelectionText { .. } => true,
                    PumpCommand::Terminal(_) => false,
                };
                Received::Command(command)
            },
            None => {
                if self.closed {
                    Received::Command(PumpCommand::Terminal(SessionCommand::Close))
                } else if self.commands.owners > 0 {
                    Received::Empty
                } else {
                    Received::Disconnected
                }
            },
        }
    }
}

/// The result of sending a command under an admission.
pub open spec fn admitted(admission: Admission, r: Result<(), SessionError>) -> bool {
    match admission {
        Admission::Admitted => r is Ok,
        Admission::Closed => r is Err && r->Err_0 is Detached,
        Admission::Full => refused(r, queue_full()),
        Admission::Disconnected => r is Err && r->Err_0 is Detached,
    }
}

/// Commands that were admitted before a close are still there behind it, and
/// none is admitted after it.
pub proof fn law_close_keeps_admitted_commands(handle: HandleModel, command: PumpCommand)
    ensures
        handle.closing().commands == handle.commands,
        handle.closing().admission() is Closed,
        handle.closing().sent(command) == handle.closing(),
        handle.closing().closing() == handle.closing(),
{
}

} // verus!
