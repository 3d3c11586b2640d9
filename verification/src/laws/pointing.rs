//! The pointer, and what sessions report: what is done about them.

use crate::application::pointer::{
    after_stage, cell_actions, chrome_actions, meets_border, motion_report, next_click,
    press_actions, release_actions, report_code, same_span, selects, stays_put, undone,
    ClickState, MouseButton, MoveFacts, Pointer, PointerAction, PressStage, PressStep,
    ReleaseFacts,
};
use crate::application::session_events::{
    arrived, clipboard_of, delivered, progress_of, request_words, selection_stores, told_color,
    told_without_pane, window_told, ProgressState, SessionAction, SessionWindow,
};
use crate::context::pane::Context;
use crate::context::protocol::{
    RequestKind, SelectionReply, SessionCommand, SessionEvent,
};
use crate::context::remote::RemoteModel;
use crate::context::renderable::BackgroundState;
use crate::context::session::PumpCommand;
use crate::hints::HintMatch;
use crate::terminal::{ClipboardType, ColorBits, TerminalDamage};
use crate::text::decimal;
use vstd::prelude::*;

verus! {

/// Clicks of one button in short order count up to three, and then start over; so
/// does another button, and a pause.
pub proof fn law_clicks_count_up_to_three(
    state: ClickState,
    button: MouseButton,
    last: MouseButton,
    elapsed: int,
    threshold: u64,
)
    ensures
        button != last ==> next_click(state, button, last, elapsed, threshold) == ClickState::Click,
        elapsed >= threshold ==> next_click(state, button, last, elapsed, threshold)
            == ClickState::Click,
        button == last && elapsed < threshold ==> {
            let next = next_click(state, button, last, elapsed, threshold);
            &&& state is Click ==> next is DoubleClick
            &&& state is DoubleClick ==> next is TripleClick
            &&& state is TripleClick ==> next is Click
            &&& state is Unclicked ==> next is Click
        },
{
}

/// A button is pressed until it is let go of, and no other changes with it; a press
/// is remembered with its time.
pub proof fn law_buttons_are_pressed_by_themselves(
    before: Pointer,
    button: MouseButton,
    down: bool,
    now: u64,
    threshold: u64,
)
    ensures
        ({
            let after = before.with_button(button, down);
            &&& after.left_pressed == if button == MouseButton::Left {
                down
            } else {
                before.left_pressed
            }
            &&& after.middle_pressed == if button == MouseButton::Middle {
                down
            } else {
                before.middle_pressed
            }
            &&& after.right_pressed == if button == MouseButton::Right {
                down
            } else {
                before.right_pressed
            }
            &&& after == (Pointer {
                left_pressed: after.left_pressed,
                middle_pressed: after.middle_pressed,
                right_pressed: after.right_pressed,
                ..before
            })
        }),
        ({
            let after = before.pressed(button, now, threshold);
            let held = before.with_button(button, true);
            &&& after.last_click_button == button
            &&& after.last_click_time == now
            &&& after.left_pressed == held.left_pressed
            &&& after.middle_pressed == held.middle_pressed
            &&& after.right_pressed == held.right_pressed
            &&& after.click_state == next_click(
                before.click_state,
                button,
                before.last_click_button,
                now - before.last_click_time,
                threshold,
            )
            &&& after.hint_click_latched == before.hint_click_latched
            &&& after.last_cell == before.last_cell
        }),
{
}

/// A press is offered to one after the other, and what takes it ends that: first the
/// message over the window; of a left press then borders, list, search, tabs and
/// scrollbar; of a right press the tabs; and at last the pane. All but a border have
/// the window drawn again.
pub proof fn law_presses_are_offered_in_order(stage: PressStage, button: MouseButton)
    ensures
        after_stage(stage, button, true) == PressStep::Taken(stage != PressStage::Border),
        after_stage(PressStage::Assistant, MouseButton::Left, false) == PressStep::Offer(
            PressStage::Border,
        ),
        after_stage(PressStage::Assistant, MouseButton::Right, false) == PressStep::Offer(
            PressStage::Island,
        ),
        button != MouseButton::Left && button != MouseButton::Right ==> after_stage(
            PressStage::Assistant,
            button,
            false,
        ) == PressStep::Offer(PressStage::Pane),
        after_stage(PressStage::Border, button, false) == PressStep::Offer(PressStage::Palette),
        after_stage(PressStage::Palette, button, false) == PressStep::Offer(PressStage::Search),
        after_stage(PressStage::Search, button, false) == PressStep::Offer(PressStage::Island),
        after_stage(PressStage::Island, MouseButton::Left, false) == PressStep::Offer(
            PressStage::Scrollbar,
        ),
        button != MouseButton::Left ==> after_stage(PressStage::Island, button, false)
            == PressStep::Offer(PressStage::Pane),
        after_stage(PressStage::Scrollbar, button, false) == PressStep::Offer(PressStage::Pane),
        after_stage(PressStage::Pane, button, false) == PressStep::Taken(false),
{
}

/// Buttons are reported by number: left, middle and right; others are not.
pub proof fn law_buttons_are_reported_by_number(button: MouseButton)
    ensures
        report_code(MouseButton::Left) == Some(0u8),
        report_code(MouseButton::Middle) == Some(1u8),
        report_code(MouseButton::Right) == Some(2u8),
        report_code(button) is None <==> button is Other,
{
}

/// A press that gave another pane the focus is drawn. Else the terminal's program gets
/// it where it wants the mouse, no shift is held and no hint is hit; and else a left
/// one is a click here.
pub proof fn law_presses_go_to_who_wants_them(
    button: MouseButton,
    shift: bool,
    mode: bool,
    on_hint: bool,
)
    ensures
        press_actions(button, true, shift, mode, on_hint) == seq![
            PointerAction::Redraw,
            PointerAction::Bindings,
        ],
        ({
            let done = press_actions(button, false, shift, mode, on_hint);
            let reported = !shift && !on_hint && mode;
            &&& reported && button is Other ==> done.len() == 0
            &&& reported && !(button is Other) ==> done.len() == 3 && done[0]
                == PointerAction::Report(
                if button == MouseButton::Left {
                    0
                } else if button == MouseButton::Middle {
                    1
                } else {
                    2
                },
                true,
            ) && done[1] == PointerAction::Bindings && done[2] == PointerAction::Bindings
            &&& !reported && button == MouseButton::Left ==> done == seq![
                PointerAction::LeftClick,
                PointerAction::Redraw,
                PointerAction::Bindings,
            ]
            &&& !reported && button != MouseButton::Left ==> done == seq![
                PointerAction::Redraw,
                PointerAction::Bindings,
            ]
        }),
{
}

/// A left press remembers the hint that it is on; clicks that the terminal's program
/// gets do not count.
pub proof fn law_left_press_remembers_its_hint(
    before: Pointer,
    button: MouseButton,
    switched: bool,
    shift: bool,
    mode: bool,
    hint: Option<HintMatch>,
)
    ensures
        ({
            let after = before.latching(button, switched, shift, mode, hint);
            let reported = !switched && !shift && mode && !(button == MouseButton::Left
                && hint is Some);
            &&& button == MouseButton::Left ==> after.hint_click_latched == hint
            &&& button != MouseButton::Left ==> after.hint_click_latched
                == before.hint_click_latched
            &&& reported ==> after.click_state is Unclicked
            &&& !reported ==> after.click_state == before.click_state
            &&& after == (Pointer {
                hint_click_latched: after.hint_click_latched,
                click_state: after.click_state,
                ..before
            })
        }),
{
}

/// Hints are the same where text, start and end are.
pub proof fn law_hints_are_the_same_by_text_and_place(a: HintMatch, b: HintMatch)
    ensures
        same_span(Some(a), Some(b)) <==> a.text@ == b.text@ && a.start == b.start && a.end == b.end,
        !same_span(None, Some(b)),
        !same_span(Some(a), None),
        !same_span(None, None),
{
}

/// What is left of a release once the cursor is shown and scrolling has stopped.
pub open spec fn released(button: MouseButton, facts: ReleaseFacts) -> Seq<PointerAction> {
    let shown = if facts.hide_cursor_when_typing {
        seq![PointerAction::ShowCursor]
    } else {
        Seq::empty()
    };
    if button == MouseButton::Left || button == MouseButton::Right {
        shown.push(PointerAction::StopSelectionScroll)
    } else {
        shown
    }
}

/// A release ends what the press began, and one thing only: the drag of a tab, of the
/// scrollbar or of a border. Else the terminal's program gets it where it wants the
/// mouse; else a left one opens the hint that the press was on, where it is still
/// under the pointer and nothing is selected; and else the selection is copied.
pub proof fn law_release_ends_one_thing(
    button: MouseButton,
    facts: ReleaseFacts,
    latched: Option<HintMatch>,
    hint: Option<HintMatch>,
)
    ensures
        ({
            let done = release_actions(button, facts, latched, hint);
            let first = released(button, facts);
            let left = button == MouseButton::Left;
            let tab = left && facts.tab_drag_ended;
            let bar = !tab && facts.scrollbar_dragging;
            let border = !tab && !bar && facts.resizing;
            let free = !tab && !bar && !border;
            let reported = free && !facts.shift && facts.mouse_mode && !(left && latched is Some);
            &&& tab ==> done == first.push(PointerAction::Redraw)
            &&& bar ==> done == first.push(PointerAction::ReleaseScrollbar).push(
                PointerAction::Redraw,
            )
            &&& border ==> done == first.push(PointerAction::EndResize).push(
                PointerAction::DefaultCursor,
            )
            &&& reported && button is Other ==> done == first
            &&& reported && left ==> done == first.push(PointerAction::Report(0, false))
            &&& reported && button == MouseButton::Middle ==> done == first.push(
                PointerAction::Report(1, false),
            )
            &&& reported && button == MouseButton::Right ==> done == first.push(
                PointerAction::Report(2, false),
            )
            &&& free && !reported && facts.selection_empty && left && same_span(hint, latched)
                ==> done == first.push(PointerAction::OpenHint).push(PointerAction::RequestRender)
            &&& free && !reported && facts.selection_empty && !(left && same_span(hint, latched))
                ==> done == first
            &&& free && !reported && !facts.selection_empty && (left || button
                == MouseButton::Right) ==> done == first.push(PointerAction::CopySelection)
            &&& free && !reported && !facts.selection_empty && !left && button
                != MouseButton::Right ==> done == first
        }),
{
}

/// The hint that a press was on is forgotten with its release, unless the release ends
/// a drag or a resize; over a question or no terminal it is forgotten too, and the
/// left button let go of.
pub proof fn law_released_hint_is_forgotten(
    before: Pointer,
    button: MouseButton,
    facts: ReleaseFacts,
    down: bool,
)
    ensures
        ({
            let after = before.unlatched(button, facts);
            let ends = facts.tab_drag_ended || facts.scrollbar_dragging || facts.resizing;
            &&& button == MouseButton::Left && !ends ==> after.hint_click_latched is None
            &&& button != MouseButton::Left || ends ==> after == before
            &&& after == (Pointer { hint_click_latched: after.hint_click_latched, ..before })
        }),
        ({
            let after = before.blocked(button, down);
            &&& !down && button == MouseButton::Left ==> !after.left_pressed
                && after.hint_click_latched is None
            &&& down || button != MouseButton::Left ==> after == before
            &&& after == (Pointer {
                left_pressed: after.left_pressed,
                hint_click_latched: after.hint_click_latched,
                ..before
            })
        }),
{
}

/// Motion is for one thing. A tab that is dragged out of the window starts a drag of
/// its own; over a question, no terminal or a list it is not for the terminal; else a
/// tab, the scrollbar or a border is dragged, or the pointer is over the tabs, a
/// border or the scrollbar; and only what is left is for the cells.
pub proof fn law_motion_is_for_one_thing(pointer: Pointer, facts: MoveFacts)
    ensures
        ({
            let (done, for_cells) = chrome_actions(pointer, facts);
            let dragging = pointer.left_pressed && facts.island_dragging;
            let out = facts.terminal && dragging && facts.outside_surface;
            let covered = !out && (!facts.terminal || facts.confirm_quit);
            let listed = !out && !covered && facts.palette_open;
            let open = !out && !covered && !listed;
            let tabs = open && !dragging && facts.over_tab_bar;
            let bar = open && !dragging && !tabs && facts.scrollbar_dragging;
            let resized = open && !dragging && !tabs && !bar && facts.resizing is Some;
            let border = open && !dragging && !tabs && !bar && !resized && facts.border is Some;
            let held = open && !dragging && !tabs && !bar && !resized && !border
                && facts.over_scrollbar;
            &&& out ==> done == seq![PointerAction::StartExternalDrag]
            &&& for_cells <==> open && !dragging && !tabs && !bar && !resized && !border && !held
            &&& !out ==> done.len() > 1 && done[if facts.hide_cursor_when_typing {
                1int
            } else {
                0
            }] == PointerAction::StorePosition
            &&& !out && facts.hide_cursor_when_typing ==> done[0] == PointerAction::ShowCursor
            &&& covered || tabs || held ==> done.last() == PointerAction::DefaultCursor
            &&& listed ==> done.last() == PointerAction::DefaultCursor && done[done.len() - 2]
                == PointerAction::HoverPalette
            &&& open && dragging ==> done.last() == PointerAction::Redraw && done[done.len() - 3]
                == PointerAction::DragTab
            &&& bar ==> done.last() == PointerAction::Redraw && done[done.len() - 3]
                == PointerAction::DragScrollbar
            &&& resized ==> done[done.len() - 4] == PointerAction::ResizeBorder && done[done.len()
                - 3] == PointerAction::BorderCursor(facts.resizing->0)
            &&& border ==> done.last() == PointerAction::BorderCursor(facts.border->0)
            &&& for_cells ==> done.last() == PointerAction::HoverCloseButton
            &&& meets_border(pointer, facts) <==> border
        }),
{
}

/// A pressed left or right button selects, unless the terminal's program has the mouse
/// and no shift is held.
pub proof fn law_pressed_buttons_select(pointer: Pointer, facts: MoveFacts)
    ensures
        selects(pointer, facts) <==> (pointer.left_pressed || pointer.right_pressed) && (
        facts.shift || !facts.mouse_mode),
        stays_put(pointer, facts) <==> pointer.last_cell == Some(facts.cell) && !pointer.on_border
            && pointer.square_side == facts.side && pointer.inside_text_area
            == facts.inside_text_area,
{
}

/// Motion is reported once for each cell, with the button that is held, the left one
/// before the others; without a button only where all motion is wanted. The drag of a
/// hint is not reported.
pub proof fn law_motion_is_reported_with_its_button(pointer: Pointer, facts: MoveFacts)
    ensures
        ({
            let told = motion_report(pointer, facts);
            let due = pointer.last_cell != Some(facts.cell) && facts.motion_and_drag;
            let none = !pointer.left_pressed && !pointer.middle_pressed && !pointer.right_pressed;
            &&& told.len() <= 1
            &&& !due ==> told.len() == 0
            &&& due && pointer.left_pressed && pointer.hint_click_latched is None ==> told == seq![
                PointerAction::Report(32, true),
            ]
            &&& due && pointer.left_pressed && pointer.hint_click_latched is Some ==> told.len()
                == 0
            &&& due && !pointer.left_pressed && pointer.middle_pressed ==> told == seq![
                PointerAction::Report(33, true),
            ]
            &&& due && !pointer.left_pressed && !pointer.middle_pressed && pointer.right_pressed
                ==> told == seq![PointerAction::Report(34, true)]
            &&& due && none && facts.motion ==> told == seq![PointerAction::Report(35, true)]
            &&& due && none && !facts.motion ==> told.len() == 0
        }),
{
}

/// Motion over the cells selects or looks for hints and is reported; a selection that
/// is dragged beyond the screen scrolls, by one timer. What stays in its cell does no
/// more.
pub proof fn law_motion_over_cells(pointer: Pointer, facts: MoveFacts)
    ensures
        ({
            let done = cell_actions(pointer, facts);
            let scrolls = !facts.selection_empty && (pointer.left_pressed || pointer.right_pressed)
                && facts.scrolls_selection && !facts.scroll_timer_running;
            let first = if scrolls { 1int } else { 0int };
            &&& scrolls ==> done.len() > 0 && done[0] == PointerAction::ScheduleScroll
            &&& stays_put(pointer, facts) ==> done.len() == first
            &&& !stays_put(pointer, facts) && selects(pointer, facts) ==> done.len() == first + 2
                && done[first] == PointerAction::UpdateSelection && done[first + 1]
                == PointerAction::RequestRender
            &&& !stays_put(pointer, facts) && !selects(pointer, facts) ==> done.len() == first + 1
                + motion_report(pointer, facts).len() && done[first] == PointerAction::UpdateHints
                && done.skip(first + 1) == motion_report(pointer, facts)
        }),
{
    let done = cell_actions(pointer, facts);
    let scrolls = !facts.selection_empty && (pointer.left_pressed || pointer.right_pressed)
        && facts.scrolls_selection && !facts.scroll_timer_running;
    let first = if scrolls { 1int } else { 0int };
    if !stays_put(pointer, facts) && !selects(pointer, facts) {
        assert(done.skip(first + 1) =~= motion_report(pointer, facts));
    }
}

/// The pointer remembers the cell that it was over last, and whether it is over a
/// border; what is not for the cells leaves the cell alone.
pub proof fn law_pointer_remembers_its_cell(before: Pointer, facts: MoveFacts)
    ensures
        ({
            let after = before.moved(facts);
            let for_cells = chrome_actions(before, facts).1;
            &&& for_cells ==> {
                &&& after.last_cell == Some(facts.cell)
                &&& !after.on_border
                &&& after.square_side == facts.side
                &&& after.inside_text_area == facts.inside_text_area
            }
            &&& !for_cells ==> {
                &&& after.last_cell == before.last_cell
                &&& after.square_side == before.square_side
                &&& after.inside_text_area == before.inside_text_area
                &&& after.on_border == (before.on_border || meets_border(before, facts))
            }
            &&& after.left_pressed == before.left_pressed
            &&& after.middle_pressed == before.middle_pressed
            &&& after.right_pressed == before.right_pressed
            &&& after.click_state == before.click_state
            &&& after.hint_click_latched == before.hint_click_latched
        }),
{
}

/// Terminals name clipboards and progress by number.
pub proof fn law_terminals_name_clipboards_by_number(kind: u8, state: u8)
    ensures
        clipboard_of(0) == Some(ClipboardType::Clipboard),
        clipboard_of(1) == Some(ClipboardType::Selection),
        kind > 1 ==> clipboard_of(kind) is None,
        progress_of(0) == Some(ProgressState::Remove),
        progress_of(1) == Some(ProgressState::Started),
        progress_of(2) == Some(ProgressState::Error),
        progress_of(3) == Some(ProgressState::Indeterminate),
        progress_of(4) == Some(ProgressState::Pause),
        state > 4 ==> progress_of(state) is None,
{
}

/// The words about a request name it by its number.
pub proof fn law_requests_are_named_by_number(id: u64, kind: RequestKind)
    ensures
        ({
            let words = request_words(id, kind);
            let start = "terminal request "@;
            let number = decimal(id as nat);
            &&& words.len() >= start.len() + number.len()
            &&& words.take(start.len() as int) == start
            &&& words.subrange(start.len() as int, start.len() + number.len() as int) == number
        }),
{
    let words = request_words(id, kind);
    let start = "terminal request "@;
    let number = decimal(id as nat);
    assert(words.take(start.len() as int) =~= start);
    assert(words.subrange(start.len() as int, start.len() + number.len() as int) =~= number);
}

/// A pane that shows an error shows it and is drawn in full; all else of it stays.
pub proof fn law_pane_shows_its_error(now: Context, before: Context, words: Seq<char>)
    requires
        now.is_showing(before, words),
    ensures
        now.renderable_content.session_error is Some,
        now.renderable_content.session_error->0@ == words,
        now.renderable_content.pending_update.dirty,
        now.renderable_content.pending_update.terminal_damage == Some(TerminalDamage::Full),
        now.route_id == before.route_id,
        now.terminal == before.terminal,
        now.title == before.title,
        now.renderable_content.background == before.renderable_content.background,
        now.renderable_content.cursor == before.renderable_content.cursor,
{
}

/// A command for a worker goes to the session of the pane; what was not admitted is
/// shown.
pub proof fn law_pane_sends_to_its_session(now: Context, before: Context, command: SessionCommand)
    requires
        now.is_sent(before, command),
    ensures
        before.terminal@.session is None ==> now == before,
        before.terminal@.session matches Some(session) ==> {
            &&& now.terminal@.session == Some(session.sent(PumpCommand::Terminal(command)))
            &&& now.terminal@.grid == before.terminal@.grid
            &&& session.admission() is Admitted ==> now.renderable_content
                == before.renderable_content
            &&& !(session.admission() is Admitted) ==> now.renderable_content.session_error is Some
            &&& now.route_id == before.route_id
            &&& now.title == before.title
        },
{
}

/// A pane takes over what its session reports of itself: the title, a changed cursor,
/// its background, and what was refused; a question about its size is answered with
/// it. Other reports are not for the pane.
pub proof fn law_pane_takes_over_what_its_session_reports(
    now: Context,
    before: Context,
    window: SessionWindow,
    event: SessionEvent,
)
    requires
        now.is_told(before, window, event),
    ensures
        event matches SessionEvent::Title { title } ==> now.terminal.title == title
            && now.terminal@.grid == before.terminal@.grid && now.terminal@.session
            == before.terminal@.session && now.renderable_content == before.renderable_content,
        event is CursorBlinkingChanged ==> now.renderable_content.pending_update.dirty
            && now.terminal == before.terminal,
        event matches SessionEvent::ColorChange { route_id, index, color } ==> {
            &&& index == 257 && color is Some ==> now.renderable_content.background == Some(
                BackgroundState::Custom(window.shade),
            )
            &&& index == 257 && color is None ==> now.renderable_content.background == Some(
                BackgroundState::Reset,
            )
            &&& index != 257 ==> now.renderable_content.background
                == before.renderable_content.background
            &&& now.renderable_content.pending_update.terminal_damage == Some(TerminalDamage::Full)
            &&& now.terminal == before.terminal
        },
        event matches SessionEvent::TextAreaSizeRequest { request_id, route_id } ==> now.is_sent(
            before,
            SessionCommand::TextAreaSizeResponse {
                request_id,
                route_id,
                rows: before.dimension.size.rows,
                columns: before.dimension.size.cols,
                pixel_width: before.dimension.size.width,
                pixel_height: before.dimension.size.height,
            },
        ),
        event is RequestRefused || event is RequestExpired ==> now.renderable_content.session_error
            is Some && now.terminal == before.terminal,
        event is Bell || event is Progress || event is ClipboardStore || event is ClipboardLoad
            || event is ColorRequest || event is GlyphProtocolQuery || event is DesktopNotification
            || event is ChildExited || event is ClipboardOverflow || event is Closed || event
            is FrameReady ==> now == before,
        now.route_id == before.route_id,
        now.window_id == before.window_id,
{
}

/// The colour that is told is the terminal's own, or else what is shown.
pub proof fn law_told_color_is_the_shown_one(
    colors: Seq<Option<ColorBits>>,
    index: int,
    shown: ColorBits,
)
    ensures
        colors[index] matches Some(color) ==> told_color(colors, index, shown) == color,
        colors[index] is None ==> told_color(colors, index, shown) == shown,
{
}

/// What a session reports reaches its window: the title of the focused pane, texts for
/// the clipboard of a focused window, questions under their numbers, notifications with
/// title and text, and the end.
pub proof fn law_window_hears_its_sessions(
    pane: Context,
    window: SessionWindow,
    event: SessionEvent,
    done: SessionAction,
)
    requires
        window_told(pane, window, event)(done),
    ensures
        event is FrameReady || event is TextAreaSizeRequest ==> done is Nothing,
        event matches SessionEvent::Title { title } ==> (window.is_current ==> (
        done matches SessionAction::SetWindowTitle(text) && text@ == title@)) && (
        !window.is_current ==> done is Nothing),
        event is Bell ==> (done is Bell <==> window.audio_bell) && (done is Nothing
            <==> !window.audio_bell),
        event matches SessionEvent::Progress { state, value } ==> (window.has_island && state <= 4
            ==> (done matches SessionAction::Progress(shown, amount) && Some(shown) == progress_of(
            state,
        ) && amount == value)) && (!window.has_island || state > 4 ==> done is Nothing),
        event matches SessionEvent::ClipboardStore { kind, text } ==> (window.focused && kind <= 1
            ==> (done matches SessionAction::StoreClipboard(target, stored) && Some(target)
            == clipboard_of(kind) && stored == text)) && (!window.focused || kind > 1
            ==> done is Nothing),
        event matches SessionEvent::ClipboardLoad { request_id, route_id, kind } ==> (kind <= 1
            ==> (done matches SessionAction::LoadClipboard(id, route, target) && id == request_id
            && route == route_id && Some(target) == clipboard_of(kind))) && (kind > 1
            ==> done is Nothing),
        event matches SessionEvent::ColorRequest { request_id, route_id, index } ==> (
        done matches SessionAction::AnswerColor(id, route, color) && id == request_id && route
            == route_id && color == told_color(
            pane.terminal@.colors,
            index as int,
            window.renderer_color,
        )),
        event matches SessionEvent::GlyphProtocolQuery { request_id, route_id, codepoint } ==> done
            == SessionAction::QueryGlyph(request_id, route_id, codepoint),
        event matches SessionEvent::DesktopNotification { title, body } ==> done
            == SessionAction::Notify(title, body),
        event is CursorBlinkingChanged || event is ColorChange || event is ChildExited || event
            is RequestRefused || event is RequestExpired ==> done is Redraw,
        event is ClipboardOverflow ==> done is Warn,
        event is Closed ==> done is Close,
{
}

/// Without its pane a session still rings, notifies and ends, and where its window is
/// there it stores texts and shows progress; questions go unanswered.
pub proof fn law_sessions_without_a_pane_are_heard(
    window: SessionWindow,
    bell: bool,
    event: SessionEvent,
    done: SessionAction,
    gone: SessionAction,
)
    requires
        told_without_pane(Some(window), bell, event)(done),
        told_without_pane(None, bell, event)(gone),
    ensures
        event is Bell ==> (done is Bell <==> bell) && gone == done && (done is Nothing <==> !bell),
        event matches SessionEvent::DesktopNotification { title, body } ==> done
            == SessionAction::Notify(title, body) && gone == done,
        event is Closed ==> done is Close && gone is Close,
        !(event is Bell || event is DesktopNotification || event is Closed) ==> gone is Nothing,
        event matches SessionEvent::Title { title } ==> done == (if window.is_current {
            SessionAction::SetWindowTitle(title)
        } else {
            SessionAction::Nothing
        }),
        event matches SessionEvent::ClipboardStore { kind, text } ==> (window.focused && kind <= 1
            ==> (done matches SessionAction::StoreClipboard(target, stored) && Some(target)
            == clipboard_of(kind) && stored == text)) && (!window.focused || kind > 1
            ==> done is Nothing),
        event matches SessionEvent::Progress { state, value } ==> (window.has_island && state <= 4
            ==> (done matches SessionAction::Progress(shown, amount) && Some(shown) == progress_of(
            state,
        ) && amount == value)) && (!window.has_island || state > 4 ==> done is Nothing),
        event is ClipboardLoad || event is ColorRequest || event is TextAreaSizeRequest || event
            is GlyphProtocolQuery || event is FrameReady ==> done is Nothing,
        event is ClipboardOverflow ==> done is Warn,
        event is CursorBlinkingChanged || event is ColorChange || event is ChildExited || event
            is RequestRefused || event is RequestExpired ==> done is Redraw,
{
}

/// Each selected text that arrived is stored where it was asked for, in the order of
/// arrival, and shared behind that where it is to be copied; a request without a text
/// stores nothing.
pub proof fn law_selected_texts_are_stored_in_order(replies: Seq<SelectionReply>, n: int)
    requires
        0 < n <= replies.len(),
    ensures
        ({
            let before = selection_stores(replies, n - 1);
            let now = selection_stores(replies, n);
            let reply = replies[n - 1];
            &&& reply.text is None ==> now == before
            &&& reply.text matches Some(text) ==> {
                &&& now.len() == before.len() + if reply.copy_to_clipboard {
                    2int
                } else {
                    1
                }
                &&& now.take(before.len() as int) == before
                &&& now[before.len() as int] == SessionAction::StoreClipboard(reply.target, text)
                &&& reply.copy_to_clipboard ==> now.last() == SessionAction::ShareClipboard(
                    reply.target,
                )
            }
        }),
        selection_stores(replies, 0).len() == 0,
{
    let before = selection_stores(replies, n - 1);
    let now = selection_stores(replies, n);
    assert(now.take(before.len() as int) =~= before);
}

/// Selected texts are taken from the front of those that arrived, and are outstanding
/// no more.
pub proof fn law_arrived_texts_are_taken_from_the_front(terminal: RemoteModel, n: int)
    requires
        0 <= n <= arrived(terminal).len(),
    ensures
        terminal.session is None ==> arrived(terminal).len() == 0 && delivered(terminal, n)
            == terminal,
        terminal.session matches Some(session) ==> {
            let now = delivered(terminal, n);
            &&& arrived(terminal) == session.state.replies
            &&& arrived(now) == session.state.replies.skip(n)
            &&& now.session is Some
            &&& now.session->0.state.outstanding == session.state.outstanding - n
            &&& now.session->0.commands == session.commands
            &&& now.session->0.state.events == session.state.events
            &&& now.session->0.state.updates == session.state.updates
            &&& now.grid == terminal.grid
        },
{
}

/// A press that comes to nothing undoes what it may have begun: the drag of a tab, of
/// the scrollbar and of a border.
pub proof fn law_undone_press_ends_everything()
    ensures
        undone().contains(PointerAction::CancelIslandDrag),
        undone().contains(PointerAction::EndScrollbarDrag),
        undone().contains(PointerAction::EndResize),
        undone().len() == 3,
{
    assert(undone()[0] == PointerAction::CancelIslandDrag);
    assert(undone()[1] == PointerAction::EndScrollbarDrag);
    assert(undone()[2] == PointerAction::EndResize);
}

} // verus!
