//! What errors are called, and the limits of what is kept and waited for.

use crate::application::closing::SESSION_CLOSE_TIMEOUT;
use crate::application::session_events::request_words;
use crate::application::transfer::route_error;
use crate::context::handover::OfferError;
use crate::context::lifecycle::SpecError;
use crate::context::passive::{FrameError, STYLE_BOLD};
use crate::context::protocol::{RefusalReason, RequestKind, SessionError};
use crate::context::pump::startup_failure_words;
use crate::context::row::DEFAULT_CONTEXT_CAPACITY;
use crate::context::session::{
    no_destination, queue_full, replies_full, rewrapped, COMMAND_QUEUE_SIZE, EVENT_QUEUE_SIZE,
    FRAME_UPDATE_QUEUE_SIZE,
};
use crate::renderer::assistant::MAX_VISIBLE_LINES;
use crate::terminal::COLOR_COUNT;
use crate::text::decimal;
use vstd::prelude::*;

verus! {

/// A frame that cannot be shown says why: its size, its rows, the tables, or what it
/// was made for.
pub proof fn law_frame_errors_say_why(base: u64, cached: u64)
    ensures
        FrameError::ZeroDimensions.words() == "passive frame dimensions must be non-zero"@,
        FrameError::RowCount.words() == "passive frame row count does not match its dimensions"@,
        FrameError::RowDimensions.words() == "passive frame row dimensions do not match"@,
        FrameError::ExtrasFull.words() == "passive frame extras table exceeds u16 capacity"@,
        FrameError::StylesFull.words() == "passive frame style ID overflow"@,
        FrameError::NoCachedFrame.words() == "received a frame delta without a cached frame"@,
        FrameError::Dimensions.words() == "frame delta dimensions require a full snapshot"@,
        FrameError::RowOutside.words() == "frame delta row is outside the cached grid"@,
        ({
            let words = FrameError::BaseMismatch { base, cached }.words();
            let start = "frame delta base "@.len() as int;
            let first = decimal(base as nat);
            let last = decimal(cached as nat);
            &&& words.len() >= start + first.len() + last.len()
            &&& words.subrange(start, start + first.len()) == first
            &&& words.skip(words.len() - last.len()) == last
        }),
{
    let words = FrameError::BaseMismatch { base, cached }.words();
    let start = "frame delta base "@;
    let first = decimal(base as nat);
    let last = decimal(cached as nat);
    assert(words.subrange(start.len() as int, start.len() + first.len() as int) =~= first);
    assert(words.skip(words.len() - last.len()) =~= last);
}

/// A session that cannot be started says which size is too large.
pub proof fn law_start_errors_say_which_size()
    ensures
        SpecError::Columns.words() == "terminal columns exceed session limit"@,
        SpecError::Lines.words() == "terminal lines exceed session limit"@,
{
}

/// An offer that cannot be made says why, and names the pane that waits.
pub proof fn law_offer_errors_say_why(route: usize)
    ensures
        OfferError::NoTab.words() == "transfer tab no longer exists"@,
        OfferError::NoPanes.words() == "transfer window has no panes"@,
        ({
            let words = OfferError::NotStarted(route).words();
            let number = decimal(route as nat);
            words.len() >= number.len() && words.skip(words.len() - number.len()) == number
        }),
{
    let words = OfferError::NotStarted(route).words();
    let number = decimal(route as nat);
    assert(words.skip(words.len() - number.len()) =~= number);
}

/// What another program took wrongly is named by its number: what was not offered,
/// what was taken twice, and what does not fit.
pub proof fn law_wrongly_taken_panes_are_named(source: Seq<u64>, committed: Seq<u64>, i: int)
    requires
        0 <= i < committed.len(),
    ensures
        !source.contains(committed[i]) ==> route_error(source, committed, i) == Some(
            "target committed a route not included in the offer: "@ + decimal(
                committed[i] as nat,
            ),
        ),
        source.contains(committed[i]) && committed.take(i).contains(committed[i]) ==> route_error(
            source,
            committed,
            i,
        ) == Some("target committed route more than once: "@ + decimal(committed[i] as nat)),
{
}

/// A session says what went wrong with it.
pub proof fn law_session_errors_say_what_went_wrong(text: String, words: Seq<char>)
    ensures
        SessionError::Invalid(text).words() == "invalid session request: "@ + text@,
        SessionError::Unsupported(text).words() == "unsupported session request: "@ + text@,
        SessionError::Protocol(text).words() == "session protocol error: "@ + text@,
        SessionError::Codec(text).words() == "session codec error: "@ + text@,
        SessionError::Io(text).words() == "session i/o error: "@ + text@,
        SessionError::Detached.words() == "session is detached"@,
        SessionError::WorkerExited.words() == "session worker exited"@,
        rewrapped(words) == "invalid session request: "@ + words,
        queue_full() == "invalid session request: "@ + "session command queue is full"@,
        no_destination() == "invalid session request: "@
            + "selection text needs a clipboard destination"@,
        replies_full() == "invalid session request: "@ + "selection reply handoff is full"@,
        startup_failure_words(SessionError::Detached) == "could not open a new tab: "@
            + "session is detached"@,
{
}

/// Requests and refusals are called by their names.
pub proof fn law_requests_are_called_by_their_names(id: u64)
    ensures
        RequestKind::Clipboard.name() == "Clipboard"@,
        RequestKind::Color.name() == "Color"@,
        RequestKind::TextAreaSize.name() == "TextAreaSize"@,
        RequestKind::Glyph.name() == "Glyph"@,
        RefusalReason::Denied.name() == "Denied"@,
        RefusalReason::TooMany.name() == "TooMany"@,
        RefusalReason::Unsupported.name() == "Unsupported"@,
        forall|kind: RequestKind|
            #![trigger kind.name()]
            request_words(id, kind).len() >= kind.name().len() && request_words(id, kind).skip(
                request_words(id, kind).len() - kind.name().len(),
            ) == kind.name(),
{
    assert forall|kind: RequestKind|
        #![trigger kind.name()]
        request_words(id, kind).len() >= kind.name().len() && request_words(id, kind).skip(
            request_words(id, kind).len() - kind.name().len(),
        ) == kind.name() by {
        let words = request_words(id, kind);
        assert(words.skip(words.len() - kind.name().len()) =~= kind.name());
    }
}

/// How much is kept: commands, events and updates of a session, tabs of a window,
/// lines of a message and colours of a terminal; how long the program waits for its
/// sessions, and which flag is bold text.
pub proof fn law_limits_are_kept()
    ensures
        COMMAND_QUEUE_SIZE == 256,
        EVENT_QUEUE_SIZE == 64,
        FRAME_UPDATE_QUEUE_SIZE == 64,
        DEFAULT_CONTEXT_CAPACITY == 28,
        MAX_VISIBLE_LINES == 16,
        COLOR_COUNT == 269,
        SESSION_CLOSE_TIMEOUT == 5_000,
        STYLE_BOLD == 1,
{
}

} // verus!
