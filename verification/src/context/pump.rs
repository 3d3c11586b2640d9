//! The pump between a session handle and its worker.
//!
//! The pump decides what to ask of the worker next; whoever runs it performs
//! the request and hands the answer to the next step.

use crate::context::protocol::{
    FrameUpdate, FullFrame, SessionCommand, SessionError, SessionEvent, SessionReply,
    SelectionReply,
};
use crate::context::session::{
    HandleModel, PumpCommand, Received, SessionHandle, StateModel,
};
use crate::terminal::ClipboardType;
use crate::text::joined;
use std::collections::VecDeque;
use vstd::prelude::*;

verus! {

/// What is known of a session when its pump starts.
pub enum PumpStartup {
    /// The first frame is there.
    Frame(FullFrame),
    /// The view was built from a frame with this sequence number.
    Sequence(u64),
    /// Nothing yet.
    Snapshot,
}

/// Where a selected text goes.
#[derive(Clone, Copy, Debug, PartialEq, Eq, Structural)]
pub struct Destination {
    pub target: ClipboardType,
    pub copy_to_clipboard: bool,
}

/// What the pump waits for.
#[derive(Clone, Copy, Debug, PartialEq, Eq)]
pub enum Phase {
    /// The first snapshot.
    Starting,
    /// The answer to a command.
    Replying { selection: Option<Destination>, close: bool },
    /// A snapshot in place of a delta, that came as an answer and found no room.
    Resyncing { close: bool },
    /// An event, if there is one.
    Polling,
    /// Activity of the worker, or a command.
    Waiting,
    /// What changed since the last frame.
    Updating,
    /// A snapshot in place of what changed.
    Catching,
    /// Nothing: the pump has ended.
    Done,
}

/// What the pump asks for.
pub enum PumpAction {
    Snapshot,
    Command(SessionCommand),
    SnapshotSince(u64),
    PollEvent,
    Wait,
    Stop,
}

/// What came of what the pump asked for.
pub enum PumpInput {
    Frame(Result<FullFrame, SessionError>),
    Reply(Result<SessionReply, SessionError>),
    Update(Result<FrameUpdate, SessionError>),
    Event(Result<Option<SessionEvent>, SessionError>),
    Woken(Result<(), SessionError>),
}

/// What the pump tells the window.
pub enum Notice {
    Render,
    StartupFailure(String),
}

/// The contents of a notice.
pub enum NoticeModel {
    Render,
    StartupFailure(Seq<char>),
}

impl View for Notice {
    type V = NoticeModel;

    open spec fn view(&self) -> NoticeModel {
        match self {
            Notice::Render => NoticeModel::Render,
            Notice::StartupFailure(text) => NoticeModel::StartupFailure(text@),
        }
    }
}

/// The contents of some notices.
pub open spec fn notice_models(notices: Seq<Notice>) -> Seq<NoticeModel> {
    notices.map_values(|n: Notice| n@)
}

/// The words for a tab that could not be opened.
pub open spec fn startup_failure_words(error: SessionError) -> Seq<char> {
    "could not open a new tab: "@ + error.words()
}

/// The report on a tab that could not be opened.
pub fn report_startup_failure(error: &SessionError) -> (r: Notice)
    ensures
        r@ == NoticeModel::StartupFailure(startup_failure_words(*error)),
{
    Notice::StartupFailure(joined("could not open a new tab: ", error.message().as_str()))
}

/// The worker refused a request and can go on.
pub open spec fn is_recoverable(error: SessionError, poisoned: bool) -> bool {
    !poisoned && (error is Invalid || error is Unsupported)
}

pub fn recoverable_command_rejection(error: &SessionError, poisoned: bool) -> (r: bool)
    ensures
        r == is_recoverable(*error, poisoned),
{
    !poisoned && match error {
        SessionError::Invalid(_) => true,
        SessionError::Unsupported(_) => true,
        _ => false,
    }
}

impl PumpInput {
    /// The line numbers in the answer fit a line number.
    pub open spec fn fits(&self) -> bool {
        match self {
            PumpInput::Frame(Ok(frame)) => frame.fits(),
            PumpInput::Update(Ok(update)) => update.fits(),
            PumpInput::Reply(Ok(SessionReply::Frame(frame))) => frame.fits(),
            PumpInput::Reply(Ok(SessionReply::FrameUpdate(update))) => update.fits(),
            PumpInput::Reply(Ok(SessionReply::SearchMatches(matches))) => forall|i: int|
                0 <= i < matches@.len() ==> (#[trigger] matches@[i]).fits(),
            _ => true,
        }
    }

    /// The answer is one to what the pump waits for. A selected text answers
    /// only a request for it.
    pub open spec fn answers(&self, phase: Phase) -> bool {
        match (phase, self) {
            (Phase::Starting, PumpInput::Frame(_)) => true,
            (Phase::Replying { selection, .. }, PumpInput::Reply(reply)) => {
                reply is Ok && reply->Ok_0 is SelectionText ==> selection is Some
            },
            (Phase::Resyncing { .. }, PumpInput::Frame(_)) => true,
            (Phase::Polling, PumpInput::Event(_)) => true,
            (Phase::Waiting, PumpInput::Woken(_)) => true,
            (Phase::Updating, PumpInput::Update(_)) => true,
            (Phase::Catching, PumpInput::Frame(_)) => true,
            _ => false,
        }
    }
}

/// The pump, the handle and everything decided in a step.
#[verifier::ext_equal]
pub struct PumpModel {
    pub phase: Phase,
    pub sequence: u64,
    pub handle: HandleModel,
    pub action: PumpAction,
    pub notices: Seq<NoticeModel>,
}

/// A handle with something published.
pub open spec fn with_update(handle: HandleModel, update: FrameUpdate) -> HandleModel {
    HandleModel { state: handle.state.published(update), ..handle }
}

/// A handle whose session has ended.
pub open spec fn stopped(handle: HandleModel) -> HandleModel {
    HandleModel {
        commands: Seq::empty(),
        receiving: false,
        selection_in_flight: false,
        state: StateModel { pump_done: true, ..handle.state },
        ..handle
    }
}

/// The pump ends.
pub open spec fn stop(handle: HandleModel, sequence: u64, notices: Seq<NoticeModel>) -> PumpModel {
    PumpModel {
        phase: Phase::Done,
        sequence,
        handle: stopped(handle),
        action: PumpAction::Stop,
        notices,
    }
}

/// The pump ends with an error: a session that never showed anything is
/// reported.
pub open spec fn fail(
    handle: HandleModel,
    sequence: u64,
    notices: Seq<NoticeModel>,
    error: SessionError,
) -> PumpModel {
    let reported = if handle.state.had_frame {
        notices
    } else {
        notices.push(NoticeModel::StartupFailure(startup_failure_words(error)))
    };
    stop(
        HandleModel { state: handle.state.failed(error.words()), ..handle },
        sequence,
        reported.push(NoticeModel::Render),
    )
}

/// The next command is asked for. Once the queue is empty, a closed session is
/// closed, one without an owner is left alone, and otherwise events are looked
/// for.
pub open spec fn drain(handle: HandleModel, sequence: u64, notices: Seq<NoticeModel>) -> PumpModel {
    if handle.commands.len() > 0 {
        let rest = HandleModel {
            commands: handle.commands.skip(1),
            selection_in_flight: handle.commands[0] is SelectionText,
            ..handle
        };
        match handle.commands[0] {
            PumpCommand::Terminal(command) => PumpModel {
                phase: Phase::Replying { selection: None, close: command is Close },
                sequence,
                handle: rest,
                action: PumpAction::Command(command),
                notices,
            },
            PumpCommand::SelectionText { target, copy_to_clipboard } => PumpModel {
                phase: Phase::Replying {
                    selection: Some(Destination { target, copy_to_clipboard }),
                    close: false,
                },
                sequence,
                handle: rest,
                action: PumpAction::Command(SessionCommand::SelectionText),
                notices,
            },
        }
    } else if handle.closed {
        PumpModel {
            phase: Phase::Replying { selection: None, close: true },
            sequence,
            handle,
            action: PumpAction::Command(SessionCommand::Close),
            notices,
        }
    } else if handle.owners > 0 {
        PumpModel { phase: Phase::Polling, sequence, handle, action: PumpAction::PollEvent, notices }
    } else {
        stop(handle, sequence, notices)
    }
}

/// A new round: commands that arrive from here on wake the pump again.
pub open spec fn round(handle: HandleModel, sequence: u64, notices: Seq<NoticeModel>) -> PumpModel {
    drain(HandleModel { signalled: false, ..handle }, sequence, notices)
}

/// A window told to draw.
pub open spec fn render() -> Seq<NoticeModel> {
    seq![NoticeModel::Render]
}

/// What an answer leaves in the handle, and whether a snapshot is needed in
/// place of it.
pub open spec fn replied(
    handle: HandleModel,
    sequence: u64,
    selection: Option<Destination>,
    reply: SessionReply,
) -> (HandleModel, u64, bool) {
    let state = handle.state;
    match reply {
        SessionReply::Frame(frame) => (
            with_update(handle, FrameUpdate::Full(frame)),
            frame.sequence,
            false,
        ),
        SessionReply::SelectionText(text) => (
            HandleModel {
                state: StateModel {
                    replies: state.replies.push(
                        SelectionReply {
                            target: selection->0.target,
                            text,
                            copy_to_clipboard: selection->0.copy_to_clipboard,
                        },
                    ),
                    ..state
                },
                ..handle
            },
            sequence,
            false,
        ),
        SessionReply::SearchNavigation(navigation) => (
            HandleModel {
                state: StateModel { search_navigation: Some(navigation), ..state },
                ..handle
            },
            sequence,
            false,
        ),
        SessionReply::SearchMatches(matches) => (
            HandleModel { state: StateModel { search_matches: Some(matches), ..state }, ..handle },
            sequence,
            false,
        ),
        SessionReply::FrameUpdate(update) => (
            with_update(handle, update),
            if state.takes(update) {
                update.reaches()
            } else {
                sequence
            },
            !state.takes(update),
        ),
        _ => (handle, sequence, false),
    }
}

/// Behind an answered command: the window draws, and a closed session ends.
pub open spec fn answered(handle: HandleModel, sequence: u64, close: bool) -> PumpModel {
    if close {
        stop(handle, sequence, render().push(NoticeModel::Render))
    } else {
        drain(handle, sequence, render())
    }
}

/// One step of the pump.
pub open spec fn pumped(
    phase: Phase,
    sequence: u64,
    handle: HandleModel,
    input: PumpInput,
    poisoned: bool,
) -> PumpModel {
    match (phase, input) {
        (Phase::Starting, PumpInput::Frame(Ok(frame))) => round(
            with_update(handle, FrameUpdate::Full(frame)),
            frame.sequence,
            render(),
        ),
        (Phase::Starting, PumpInput::Frame(Err(error))) => if is_recoverable(error, poisoned) {
            round(
                HandleModel { state: handle.state.noted(error.words()), ..handle },
                0,
                render().push(NoticeModel::Render),
            )
        } else {
            fail(handle, sequence, Seq::empty(), error)
        },
        (Phase::Replying { selection, close }, PumpInput::Reply(Ok(reply))) => {
            let (state, next, resync) = replied(
                HandleModel { selection_in_flight: false, ..handle },
                sequence,
                selection,
                reply,
            );
            if resync {
                PumpModel {
                    phase: Phase::Resyncing { close },
                    sequence: next,
                    handle: state,
                    action: PumpAction::Snapshot,
                    notices: Seq::empty(),
                }
            } else {
                answered(state, next, close)
            }
        },
        (Phase::Replying { selection, close }, PumpInput::Reply(Err(error))) => {
            let back = HandleModel {
                selection_in_flight: false,
                state: StateModel {
                    outstanding: if selection is Some {
                        handle.state.outstanding - 1
                    } else {
                        handle.state.outstanding
                    },
                    ..handle.state
                },
                ..handle
            };
            if !is_recoverable(error, poisoned) {
                fail(back, sequence, Seq::empty(), error)
            } else {
                let noted = HandleModel { state: back.state.noted(error.words()), ..back };
                if close {
                    stop(noted, sequence, render())
                } else {
                    drain(noted, sequence, render())
                }
            }
        },
        (Phase::Resyncing { close }, PumpInput::Frame(Ok(frame))) => answered(
            with_update(handle, FrameUpdate::Full(frame)),
            frame.sequence,
            close,
        ),
        (Phase::Resyncing { close }, PumpInput::Frame(Err(error))) => answered(
            HandleModel { state: handle.state.noted(error.words()), ..handle },
            sequence,
            close,
        ),
        (Phase::Polling, PumpInput::Event(Ok(Some(SessionEvent::FrameReady)))) => PumpModel {
            phase: Phase::Updating,
            sequence,
            handle,
            action: PumpAction::SnapshotSince(sequence),
            notices: Seq::empty(),
        },
        (Phase::Polling, PumpInput::Event(Ok(Some(event)))) => round(
            HandleModel { state: handle.state.with_event(event), ..handle },
            sequence,
            render(),
        ),
        (Phase::Polling, PumpInput::Event(Ok(None))) => PumpModel {
            phase: Phase::Waiting,
            sequence,
            handle,
            action: PumpAction::Wait,
            notices: Seq::empty(),
        },
        (Phase::Polling, PumpInput::Event(Err(error))) => fail(
            handle,
            sequence,
            Seq::empty(),
            error,
        ),
        (Phase::Waiting, PumpInput::Woken(Ok(()))) => round(handle, sequence, Seq::empty()),
        (Phase::Waiting, PumpInput::Woken(Err(error))) => fail(
            handle,
            sequence,
            Seq::empty(),
            error,
        ),
        (Phase::Updating, PumpInput::Update(Ok(update))) => if handle.state.takes(update) {
            round(with_update(handle, update), update.reaches(), render())
        } else {
            PumpModel {
                phase: Phase::Catching,
                sequence: update.reaches(),
                handle,
                action: PumpAction::Snapshot,
                notices: Seq::empty(),
            }
        },
        (Phase::Updating, PumpInput::Update(Err(_))) => PumpModel {
            phase: Phase::Catching,
            sequence,
            handle: HandleModel {
                state: StateModel { frame_resync_logged: true, ..handle.state },
                ..handle
            },
            action: PumpAction::Snapshot,
            notices: Seq::empty(),
        },
        (Phase::Catching, PumpInput::Frame(Ok(frame))) => round(
            with_update(handle, FrameUpdate::Full(frame)),
            frame.sequence,
            render(),
        ),
        (Phase::Catching, PumpInput::Frame(Err(error))) => if is_recoverable(error, poisoned) {
            round(
                HandleModel { state: handle.state.noted(error.words()), ..handle },
                sequence,
                render().push(NoticeModel::Render),
            )
        } else {
            fail(handle, sequence, Seq::empty(), error)
        },
        _ => stop(handle, sequence, Seq::empty()),
    }
}

/// The pump's start.
pub open spec fn started(startup: PumpStartup, handle: HandleModel) -> PumpModel {
    match startup {
        PumpStartup::Frame(frame) => round(
            with_update(handle, FrameUpdate::Full(frame)),
            frame.sequence,
            render(),
        ),
        PumpStartup::Sequence(sequence) => round(
            HandleModel { state: StateModel { had_frame: true, ..handle.state }, ..handle },
            sequence,
            render(),
        ),
        PumpStartup::Snapshot => PumpModel {
            phase: Phase::Starting,
            sequence: 0,
            handle,
            action: PumpAction::Snapshot,
            notices: Seq::empty(),
        },
    }
}

/// What to do next, and what to tell the window first.
pub struct PumpStep {
    pub action: PumpAction,
    pub notices: Vec<Notice>,
}

/// The pump of one session.
pub struct SessionPump {
    pub phase: Phase,
    pub frame_sequence: u64,
}

/// The step and everything behind it are as the model says.
pub open spec fn is_step(
    pump: &SessionPump,
    handle: &SessionHandle,
    step: &PumpStep,
    model: PumpModel,
) -> bool {
    &&& pump.phase == model.phase
    &&& pump.frame_sequence == model.sequence
    &&& handle@ == model.handle
    &&& step.action == model.action
    &&& notice_models(step.notices@) == model.notices
}

/// The books of the handle are in order for what the pump waits for.
pub open spec fn in_phase(phase: Phase, handle: HandleModel) -> bool {
    &&& handle.well_formed()
    &&& handle.selection_in_flight == (match phase {
        Phase::Replying { selection, .. } => selection is Some,
        _ => false,
    })
}

proof fn lemma_notice_push(notices: Seq<Notice>, notice: Notice)
    ensures
        notice_models(notices.push(notice)) == notice_models(notices).push(notice@),
{
    assert(notice_models(notices.push(notice)) =~= notice_models(notices).push(notice@));
}

fn no_notices() -> (r: Vec<Notice>)
    ensures
        notice_models(r@) == Seq::<NoticeModel>::empty(),
{
    let r: Vec<Notice> = Vec::new();
    proof {
        assert(notice_models(r@) =~= Seq::<NoticeModel>::empty());
    }
    r
}

fn notify(notices: &mut Vec<Notice>)
    ensures
        notice_models(final(notices)@) == notice_models(old(notices)@).push(NoticeModel::Render),
{
    proof {
        lemma_notice_push(notices@, Notice::Render);
    }
    notices.push(Notice::Render);
}

fn rendering() -> (r: Vec<Notice>)
    ensures
        notice_models(r@) == render(),
{
    let mut r: Vec<Notice> = no_notices();
    notify(&mut r);
    proof {
        assert(notice_models(r@) =~= render());
    }
    r
}

impl SessionPump {
    /// Starts the pump of a session.
    pub fn start(startup: PumpStartup, handle: &mut SessionHandle) -> (r: (Self, PumpStep))
        requires
            old(handle)@.well_formed(),
            !old(handle)@.selection_in_flight,
            startup matches PumpStartup::Frame(frame) ==> frame.fits(),
        ensures
            in_phase(r.0.phase, final(handle)@),
            is_step(&r.0, final(handle), &r.1, started(startup, old(handle)@)),
    {
        let mut pump: SessionPump = SessionPump { phase: Phase::Starting, frame_sequence: 0 };
        let ghost before = handle@;
        match startup {
            PumpStartup::Frame(frame) => {
                pump.frame_sequence = frame.sequence;
                handle.state.publish_frame(frame);
                proof {
                    assert(handle@ =~= with_update(before, FrameUpdate::Full(frame)));
                }
                let step: PumpStep = pump.round(handle, rendering());
                (pump, step)
            },
            PumpStartup::Sequence(sequence) => {
                pump.frame_sequence = sequence;
                handle.state.mark_had_frame();
                let step: PumpStep = pump.round(handle, rendering());
                (pump, step)
            },
            PumpStartup::Snapshot => (
                pump,
                PumpStep { action: PumpAction::Snapshot, notices: no_notices() },
            ),
        }
    }

    /// The worker could not be started.
    pub fn spawn_failed(handle: &mut SessionHandle, error: SessionError) -> (r: PumpStep)
        requires
            old(handle)@.well_formed(),
        ensures
            final(handle)@.well_formed(),
            final(handle)@ == fail(old(handle)@, 0, Seq::empty(), error).handle,
            r.action is Stop,
            notice_models(r.notices@) == fail(old(handle)@, 0, Seq::empty(), error).notices,
    {
        let mut pump: SessionPump = SessionPump { phase: Phase::Starting, frame_sequence: 0 };
        pump.fail(handle, error)
    }

    fn round(&mut self, handle: &mut SessionHandle, notices: Vec<Notice>) -> (r: PumpStep)
        requires
            old(handle)@.well_formed(),
            !old(handle)@.selection_in_flight,
        ensures
            in_phase(final(self).phase, final(handle)@),
            is_step(
                final(self),
                final(handle),
                &r,
                round(old(handle)@, old(self).frame_sequence, notice_models(notices@)),
            ),
    {
        handle.commands.signalled = false;
        self.drain(handle, notices)
    }

    fn drain(&mut self, handle: &mut SessionHandle, notices: Vec<Notice>) -> (r: PumpStep)
        requires
            old(handle)@.well_formed(),
            !old(handle)@.selection_in_flight,
        ensures
            in_phase(final(self).phase, final(handle)@),
            is_step(
                final(self),
                final(handle),
                &r,
                drain(old(handle)@, old(self).frame_sequence, notice_models(notices@)),
            ),
    {
        match handle.next_command() {
            Received::Command(PumpCommand::Terminal(command)) => {
                let close: bool = match &command {
                    SessionCommand::Close => true,
                    _ => false,
                };
                self.phase = Phase::Replying { selection: None, close };
                PumpStep { action: PumpAction::Command(command), notices }
            },
            Received::Command(PumpCommand::SelectionText { target, copy_to_clipboard }) => {
                self.phase = Phase::Replying {
                    selection: Some(Destination { target, copy_to_clipboard }),
                    close: false,
                };
                PumpStep { action: PumpAction::Command(SessionCommand::SelectionText), notices }
            },
            Received::Empty => {
                self.phase = Phase::Polling;
                PumpStep { action: PumpAction::PollEvent, notices }
            },
            Received::Disconnected => self.stop(handle, notices),
        }
    }

    fn stop(&mut self, handle: &mut SessionHandle, notices: Vec<Notice>) -> (r: PumpStep)
        requires
            old(handle)@.well_formed(),
        ensures
            in_phase(final(self).phase, final(handle)@),
            is_step(
                final(self),
                final(handle),
                &r,
                stop(old(handle)@, old(self).frame_sequence, notice_models(notices@)),
            ),
    {
        self.phase = Phase::Done;
        handle.commands.queue = VecDeque::new();
        handle.commands.receiving = false;
        handle.selection_in_flight = false;
        handle.state.pump_done = true;
        proof {
            assert(handle@ =~= stopped(old(handle)@));
        }
        PumpStep { action: PumpAction::Stop, notices }
    }

    fn fail(&mut self, handle: &mut SessionHandle, error: SessionError) -> (r: PumpStep)
        requires
            old(handle)@.well_formed(),
        ensures
            in_phase(final(self).phase, final(handle)@),
            is_step(
                final(self),
                final(handle),
                &r,
                fail(old(handle)@, old(self).frame_sequence, Seq::empty(), error),
            ),
    {
        let mut notices: Vec<Notice> = no_notices();
        if !handle.state.had_frame() {
            let report: Notice = report_startup_failure(&error);
            proof {
                lemma_notice_push(notices@, report);
            }
            notices.push(report);
        }
        handle.state.fail(error);
        proof {
            assert(handle@ =~= (HandleModel {
                state: old(handle)@.state.failed(error.words()),
                ..old(handle)@
            }));
        }
        notify(&mut notices);
        self.stop(handle, notices)
    }

    fn answered(&mut self, handle: &mut SessionHandle, close: bool) -> (r: PumpStep)
        requires
            old(handle)@.well_formed(),
            !old(handle)@.selection_in_flight,
        ensures
            in_phase(final(self).phase, final(handle)@),
            is_step(
                final(self),
                final(handle),
                &r,
                answered(old(handle)@, old(self).frame_sequence, close),
            ),
    {
        let mut notices: Vec<Notice> = rendering();
        if close {
            notify(&mut notices);
            self.stop(handle, notices)
        } else {
            self.drain(handle, notices)
        }
    }

    fn caught_up(&mut self, handle: &mut SessionHandle, frame: FullFrame) -> (r: PumpStep)
        requires
            old(handle)@.well_formed(),
            !old(handle)@.selection_in_flight,
            frame.fits(),
        ensures
            in_phase(final(self).phase, final(handle)@),
            is_step(
                final(self),
                final(handle),
                &r,
                round(
                    with_update(old(handle)@, FrameUpdate::Full(frame)),
                    frame.sequence,
                    render(),
                ),
            ),
    {
        self.frame_sequence = frame.sequence;
        handle.state.publish_frame(frame);
        proof {
            assert(handle@ =~= with_update(old(handle)@, FrameUpdate::Full(frame)));
        }
        self.round(handle, rendering())
    }

    fn snapshot_failed(
        &mut self,
        handle: &mut SessionHandle,
        error: SessionError,
        poisoned: bool,
        sequence: u64,
    ) -> (r: PumpStep)
        requires
            old(handle)@.well_formed(),
            !old(handle)@.selection_in_flight,
        ensures
            in_phase(final(self).phase, final(handle)@),
            is_step(
                final(self),
                final(handle),
                &r,
                if is_recoverable(error, poisoned) {
                    round(
                        HandleModel { state: old(handle)@.state.noted(error.words()), ..old(handle)@ },
                        sequence,
                        render().push(NoticeModel::Render),
                    )
                } else {
                    fail(old(handle)@, old(self).frame_sequence, Seq::empty(), error)
                },
            ),
    {
        if recoverable_command_rejection(&error, poisoned) {
            handle.state.record_error(&error);
            proof {
                assert(handle@ =~= (HandleModel {
                    state: old(handle)@.state.noted(error.words()),
                    ..old(handle)@
                }));
            }
            self.frame_sequence = sequence;
            let mut notices: Vec<Notice> = rendering();
            notify(&mut notices);
            self.round(handle, notices)
        } else {
            self.fail(handle, error)
        }
    }

    fn handle_reply(
        &mut self,
        handle: &mut SessionHandle,
        reply: SessionReply,
        selection: Option<Destination>,
    ) -> (resync: bool)
        requires
            in_phase(Phase::Replying { selection, close: false }, old(handle)@),
            PumpInput::Reply(Ok(reply)).fits(),
            reply is SelectionText ==> selection is Some,
        ensures
            final(handle)@.well_formed(),
            !final(handle)@.selection_in_flight,
            final(self).phase == old(self).phase,
            (final(handle)@, final(self).frame_sequence, resync) == replied(
                HandleModel { selection_in_flight: false, ..old(handle)@ },
                old(self).frame_sequence,
                selection,
                reply,
            ),
    {
        let ghost start = HandleModel { selection_in_flight: false, ..handle@ };
        handle.selection_in_flight = false;
        match reply {
            SessionReply::Frame(frame) => {
                self.frame_sequence = frame.sequence;
                handle.state.publish_frame(frame);
                proof {
                    assert(handle@ =~= with_update(start, FrameUpdate::Full(frame)));
                }
                false
            },
            SessionReply::SelectionText(text) => {
                if let Some(destination) = selection {
                    handle.state.replies.push_back(
                        SelectionReply {
                            target: destination.target,
                            text,
                            copy_to_clipboard: destination.copy_to_clipboard,
                        },
                    );
                }
                false
            },
            SessionReply::SearchNavigation(navigation) => {
                handle.state.search_navigation = Some(navigation);
                false
            },
            SessionReply::SearchMatches(matches) => {
                handle.state.search_matches = Some(matches);
                false
            },
            SessionReply::FrameUpdate(update) => {
                let next: u64 = update.sequence();
                let taken: bool = handle.state.publish_frame_update(update);
                proof {
                    assert(handle@ =~= with_update(start, update));
                }
                if taken {
                    self.frame_sequence = next;
                    false
                } else {
                    true
                }
            },
            SessionReply::Closed | SessionReply::Accepted | SessionReply::NoChange
            | SessionReply::ChildPid(_) => false,
        }
    }

    fn command_failed(
        &mut self,
        handle: &mut SessionHandle,
        error: SessionError,
        selection: Option<Destination>,
        close: bool,
        poisoned: bool,
    ) -> (r: PumpStep)
        requires
            in_phase(Phase::Replying { selection, close }, old(handle)@),
        ensures
            in_phase(final(self).phase, final(handle)@),
            is_step(
                final(self),
                final(handle),
                &r,
                pumped(
                    Phase::Replying { selection, close },
                    old(self).frame_sequence,
                    old(handle)@,
                    PumpInput::Reply(Err(error)),
                    poisoned,
                ),
            ),
    {
        if selection.is_some() {
            handle.state.outstanding -= 1;
        }
        handle.selection_in_flight = false;
        let ghost back = handle@;
        if !recoverable_command_rejection(&error, poisoned) {
            return self.fail(handle, error);
        }
        handle.state.record_error(&error);
        proof {
            assert(handle@ =~= (HandleModel { state: back.state.noted(error.words()), ..back }));
        }
        if close {
            self.stop(handle, rendering())
        } else {
            self.drain(handle, rendering())
        }
    }

    fn event_polled(
        &mut self,
        handle: &mut SessionHandle,
        event: Result<Option<SessionEvent>, SessionError>,
    ) -> (r: PumpStep)
        requires
            old(self).phase == Phase::Polling,
            in_phase(Phase::Polling, old(handle)@),
        ensures
            in_phase(final(self).phase, final(handle)@),
            is_step(
                final(self),
                final(handle),
                &r,
                pumped(
                    Phase::Polling,
                    old(self).frame_sequence,
                    old(handle)@,
                    PumpInput::Event(event),
                    false,
                ),
            ),
    {
        match event {
            Ok(Some(event)) => {
                let ready: bool = match &event {
                    SessionEvent::FrameReady => true,
                    _ => false,
                };
                if ready {
                    self.phase = Phase::Updating;
                    PumpStep {
                        action: PumpAction::SnapshotSince(self.frame_sequence),
                        notices: no_notices(),
                    }
                } else {
                    handle.state.publish_event(event);
                    proof {
                        assert(handle@ =~= (HandleModel {
                            state: old(handle)@.state.with_event(event),
                            ..old(handle)@
                        }));
                    }
                    self.round(handle, rendering())
                }
            },
            Ok(None) => {
                self.phase = Phase::Waiting;
                PumpStep { action: PumpAction::Wait, notices: no_notices() }
            },
            Err(error) => self.fail(handle, error),
        }
    }

    fn update_taken(
        &mut self,
        handle: &mut SessionHandle,
        update: Result<FrameUpdate, SessionError>,
    ) -> (r: PumpStep)
        requires
            old(self).phase == Phase::Updating,
            in_phase(Phase::Updating, old(handle)@),
            PumpInput::Update(update).fits(),
        ensures
            in_phase(final(self).phase, final(handle)@),
            is_step(
                final(self),
                final(handle),
                &r,
                pumped(
                    Phase::Updating,
                    old(self).frame_sequence,
                    old(handle)@,
                    PumpInput::Update(update),
                    false,
                ),
            ),
    {
        match update {
            Ok(update) => {
                self.frame_sequence = update.sequence();
                let taken: bool = handle.state.publish_frame_update(update);
                proof {
                    assert(handle@ =~= with_update(old(handle)@, update));
                }
                if taken {
                    self.round(handle, rendering())
                } else {
                    proof {
                        assert(handle@ =~= old(handle)@);
                    }
                    self.phase = Phase::Catching;
                    PumpStep { action: PumpAction::Snapshot, notices: no_notices() }
                }
            },
            Err(_) => {
                let _ = handle.state.log_frame_resync_once();
                self.phase = Phase::Catching;
                PumpStep { action: PumpAction::Snapshot, notices: no_notices() }
            },
        }
    }

    /// Takes the answer to what was asked for, and decides what to do next.
    pub fn step(&mut self, handle: &mut SessionHandle, input: PumpInput, poisoned: bool) -> (r:
        PumpStep)
        requires
            in_phase(old(self).phase, old(handle)@),
            input.answers(old(self).phase),
            input.fits(),
        ensures
            in_phase(final(self).phase, final(handle)@),
            is_step(
                final(self),
                final(handle),
                &r,
                pumped(
                    old(self).phase,
                    old(self).frame_sequence,
                    old(handle)@,
                    input,
                    poisoned,
                ),
            ),
    {
        let sequence: u64 = self.frame_sequence;
        match (self.phase, input) {
            (Phase::Starting, PumpInput::Frame(Ok(frame))) => self.caught_up(handle, frame),
            (Phase::Starting, PumpInput::Frame(Err(error))) => self.snapshot_failed(
                handle,
                error,
                poisoned,
                0,
            ),
            (Phase::Replying { selection, close }, PumpInput::Reply(Ok(reply))) => {
                let resync: bool = self.handle_reply(handle, reply, selection);
                if resync {
                    self.phase = Phase::Resyncing { close };
                    PumpStep { action: PumpAction::Snapshot, notices: no_notices() }
                } else {
                    self.answered(handle, close)
                }
            },
            (Phase::Replying { selection, close }, PumpInput::Reply(Err(error))) => {
                self.command_failed(handle, error, selection, close, poisoned)
            },
            (Phase::Resyncing { close }, PumpInput::Frame(Ok(frame))) => {
                self.frame_sequence = frame.sequence;
                handle.state.publish_frame(frame);
                proof {
                    assert(handle@ =~= with_update(old(handle)@, FrameUpdate::Full(frame)));
                }
                self.answered(handle, close)
            },
            (Phase::Resyncing { close }, PumpInput::Frame(Err(error))) => {
                handle.state.record_error(&error);
                proof {
                    assert(handle@ =~= (HandleModel {
                        state: old(handle)@.state.noted(error.words()),
                        ..old(handle)@
                    }));
                }
                self.answered(handle, close)
            },
            (Phase::Polling, PumpInput::Event(event)) => self.event_polled(handle, event),
            (Phase::Waiting, PumpInput::Woken(Ok(()))) => self.round(handle, no_notices()),
            (Phase::Waiting, PumpInput::Woken(Err(error))) => self.fail(handle, error),
            (Phase::Updating, PumpInput::Update(update)) => self.update_taken(handle, update),
            (Phase::Catching, PumpInput::Frame(Ok(frame))) => self.caught_up(handle, frame),
            (Phase::Catching, PumpInput::Frame(Err(error))) => self.snapshot_failed(
                handle,
                error,
                poisoned,
                sequence,
            ),
            _ => self.stop(handle, no_notices()),
        }
    }
}

/// A closed session is asked to close once: whatever comes of it, the pump
/// ends, at the latest behind one snapshot.
pub proof fn law_close_is_sent_once(
    sequence: u64,
    handle: HandleModel,
    reply: Result<SessionReply, SessionError>,
    frame: Result<FullFrame, SessionError>,
    poisoned: bool,
)
    ensures
        ({
            let behind = pumped(
                Phase::Replying { selection: None, close: true },
                sequence,
                handle,
                PumpInput::Reply(reply),
                poisoned,
            );
            &&& behind.action is Stop || behind.phase == (Phase::Resyncing { close: true })
            &&& behind.phase is Resyncing ==> pumped(
                behind.phase,
                behind.sequence,
                behind.handle,
                PumpInput::Frame(frame),
                poisoned,
            ).action is Stop
        }),
{
}

/// Commands that were admitted before a close reach the worker before it.
pub proof fn law_queue_is_drained_before_close(
    handle: HandleModel,
    sequence: u64,
    notices: Seq<NoticeModel>,
)
    requires
        handle.commands.len() > 0,
        !(handle.commands[0] matches PumpCommand::Terminal(command) && command is Close),
    ensures
        ({
            let next = drain(handle, sequence, notices);
            &&& next.action matches PumpAction::Command(command) && !(command is Close)
            &&& next.handle.commands == handle.commands.skip(1)
        }),
{
}

/// A session that its owners left behind is detached, never closed.
pub proof fn law_abandoned_session_is_not_closed(
    handle: HandleModel,
    sequence: u64,
    notices: Seq<NoticeModel>,
)
    requires
        handle.commands.len() == 0,
        !handle.closed,
        handle.owners == 0,
    ensures
        drain(handle, sequence, notices).action is Stop,
        drain(handle, sequence, notices).handle.state.pump_done,
{
}

/// A pump that has ended takes no commands.
pub proof fn law_ended_pump_admits_nothing(
    handle: HandleModel,
    sequence: u64,
    notices: Seq<NoticeModel>,
)
    ensures
        !(stop(handle, sequence, notices).handle.admission() is Admitted),
        stop(handle, sequence, notices).handle.state.pump_done,
{
}

/// A session that fails before it showed anything is reported, and one that
/// showed something is not.
pub proof fn law_stillborn_session_is_reported(
    handle: HandleModel,
    sequence: u64,
    error: SessionError,
)
    ensures
        fail(handle, sequence, Seq::empty(), error).notices == if handle.state.had_frame {
            seq![NoticeModel::Render]
        } else {
            seq![NoticeModel::StartupFailure(startup_failure_words(error)), NoticeModel::Render]
        },
{
    assert(fail(handle, sequence, Seq::empty(), error).notices =~= if handle.state.had_frame {
        seq![NoticeModel::Render]
    } else {
        seq![NoticeModel::StartupFailure(startup_failure_words(error)), NoticeModel::Render]
    });
}

/// A session prepared for a new owner and not yet taken over.
pub struct PreparedSession {
    /// Identifies the attachment that is committed or dropped.
    pub attachment: u64,
    pub initial_frame: Option<FullFrame>,
    pub had_active_owner: bool,
}

impl PreparedSession {
    /// A session with the frame that it was prepared with.
    pub fn prepare_attach(attachment: u64, initial_frame: &FullFrame, had_active_owner: bool) -> (r:
        Self)
        ensures
            r.attachment == attachment,
            r.initial_frame matches Some(frame) && frame@ == initial_frame@,
            r.had_active_owner == had_active_owner,
    {
        PreparedSession {
            attachment,
            initial_frame: Some(initial_frame.duplicate()),
            had_active_owner,
        }
    }

    pub fn initial_frame(&self) -> (r: &FullFrame)
        requires
            self.initial_frame is Some,
        ensures
            *r == self.initial_frame->0,
    {
        match &self.initial_frame {
            Some(frame) => frame,
            None => vstd::pervasive::unreached(),
        }
    }

    pub fn take_initial_frame(&mut self) -> (r: FullFrame)
        requires
            old(self).initial_frame is Some,
        ensures
            r == old(self).initial_frame->0,
            *final(self) == (PreparedSession { initial_frame: None, ..*old(self) }),
    {
        match self.initial_frame.take() {
            Some(frame) => frame,
            None => vstd::pervasive::unreached(),
        }
    }

    pub fn had_active_owner(&self) -> (r: bool)
        ensures
            r == self.had_active_owner,
    {
        self.had_active_owner
    }
}

} // verus!
