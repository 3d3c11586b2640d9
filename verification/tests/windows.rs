use std::rc::Rc;

use rioterm::application::closing::{ExitGate, ExitStep};
use rioterm::application::drag::{OwnerRoute, TabDrag, TabDragLifecycle};
use rioterm::application::outbox::{Effect, WindowFacts};
use rioterm::application::pointer::{
    code_of_button, next_stage, ClickState, MouseButton, MoveFacts, Pointer, PointerAction,
    PressStage, PressStep, ReleaseFacts,
};
use rioterm::application::recovery::recovery_label;
use rioterm::application::session_events::{
    answer_clipboard, answer_color, answer_glyph, clipboard_type, glyph_status,
    handle_event_without_pane, handle_session_event, take_selections, ProgressState, SessionAction,
    SessionWindow,
};
use rioterm::application::state::{
    Application, PendingPrepared, PendingPreparedCompletion, RecoveryCandidate,
};
use rioterm::application::transfer::transfer_window_to_target;
use rioterm::application::user_events::{
    render_route, timer_for, EventConfig, ToldWindow, Topic, UserAction, UserEvent,
};
use rioterm::application::windows::{
    file_dropped, hint_looked_up, ime_told, modifiers_changed, redraw_requested, redrawn,
    scale_changed, theme_changed, wheel_turned, ImeEvent, Visibility, WindowAction,
};
use rioterm::context::handover::PreparedPane;
use rioterm::context::manager::{ContextManager, ContextManagerConfig, Shell, Spawned};
use rioterm::context::pane::{
    create_dead_context, Context, ContextDimension, IdSource, LayoutRect,
};
use rioterm::context::protocol::{
    CursorFrame, FullFrame, GlyphStatus, GraphicsFrame, RefusalReason, RequestKind,
    SelectionReply, SessionCommand, SessionDescriptor, SessionEvent, Side,
};
use rioterm::context::pump::PreparedSession;
use rioterm::context::renderable::{BackgroundState, WindowColor};
use rioterm::context::session::{PumpCommand, Received, SessionHandle};
use rioterm::context::tab::{PaneOffer, TabOffer};
use rioterm::hints::{Hint, HintAction, HintInternalAction, HintMatch};
use rioterm::terminal::{ClipboardType, ColorBits, Pos, TerminalDamage};

fn config() -> ContextManagerConfig {
    ContextManagerConfig {
        shell: Shell { program: None, args: Vec::new() },
        working_dir: None,
        cwd: false,
        is_native: false,
        should_update_title_extra: false,
        title_template: String::new(),
        scrollback_history_limit: 10_000,
        grapheme_clustering: false,
        closes_last_tab: false,
    }
}

fn started(capacity: usize, window: u64, tabs: usize, ids: &mut IdSource) -> ContextManager {
    let mut manager = ContextManager::start_with_capacity(capacity, window, config(), ids);
    for _ in 1..tabs {
        let plan = manager.plan_context(ContextDimension::default()).unwrap();
        manager.add_context(true, 0, &plan, Spawned::Dead, ids);
    }
    manager
}

fn tab_ids(manager: &ContextManager) -> Vec<u64> {
    (0..manager.len()).map(|i| manager.tab_id_at(i).unwrap()).collect()
}

fn hint_at(text: &str, col: usize) -> HintMatch {
    let hint = Hint {
        regex: Some("a".into()),
        hyperlinks: false,
        post_processing: false,
        persist: false,
        action: HintAction::Action { action: HintInternalAction::Copy },
    };
    HintMatch {
        text: text.into(),
        start: Pos::new(0, col),
        end: Pos::new(0, col + 2),
        hint: Rc::new(hint),
    }
}

fn pointer() -> Pointer {
    Pointer {
        left_pressed: false,
        middle_pressed: false,
        right_pressed: false,
        click_state: ClickState::Unclicked,
        last_click_button: MouseButton::Left,
        last_click_time: 0,
        hint_click_latched: None,
        last_cell: None,
        square_side: Side::Left,
        inside_text_area: true,
        on_border: false,
    }
}

fn let_go() -> ReleaseFacts {
    ReleaseFacts {
        hide_cursor_when_typing: false,
        tab_drag_ended: false,
        scrollbar_dragging: false,
        resizing: false,
        shift: false,
        mouse_mode: false,
        selection_empty: true,
    }
}

fn over(col: usize) -> MoveFacts {
    MoveFacts {
        terminal: true,
        confirm_quit: false,
        island_dragging: false,
        outside_surface: false,
        hide_cursor_when_typing: false,
        palette_open: false,
        search_active: false,
        over_tab_bar: false,
        scrollbar_dragging: false,
        resizing: None,
        border: None,
        over_scrollbar: false,
        selection_empty: true,
        scrolls_selection: false,
        scroll_timer_running: false,
        cell: Pos::new(0, col),
        inside_text_area: true,
        side: Side::Left,
        shift: false,
        mouse_mode: false,
        motion_and_drag: false,
        motion: false,
    }
}

fn pane() -> Context {
    let mut pane = create_dead_context(1, 5, 0, ContextDimension::default());
    pane.terminal.session = Some(SessionHandle::with_capacity(4, 1));
    pane.renderable_content.pending_update.take_terminal_damage();
    pane
}

fn damage(pane: &mut Context) -> Option<TerminalDamage> {
    pane.renderable_content.pending_update.take_terminal_damage()
}

fn sent(pane: &mut Context) -> SessionCommand {
    match pane.terminal.session.as_mut().unwrap().next_command() {
        Received::Command(PumpCommand::Terminal(command)) => command,
        _ => panic!("no command was queued"),
    }
}

fn shade() -> WindowColor {
    WindowColor { r: 1, g: 2, b: 3, a: 4 }
}

fn bits(n: u32) -> ColorBits {
    ColorBits { r: n, g: n, b: n, a: n }
}

fn shown() -> SessionWindow {
    SessionWindow {
        is_current: true,
        focused: true,
        has_island: true,
        audio_bell: true,
        renderer_color: bits(7),
        shade: shade(),
    }
}

fn told() -> ToldWindow {
    ToldWindow {
        id: 1,
        open: true,
        focused: true,
        occluded: false,
        needs_render_after_occlusion: false,
        fullscreen: false,
        has_island: true,
        native_tabs: 3,
        current_route: 5,
        current_tab: Some(50),
        has_pane: true,
        scrollbar_dirty: false,
        wait_until: None,
        timer_running: false,
    }
}

fn quiet() -> EventConfig {
    EventConfig {
        disable_unfocused_render: true,
        disable_occluded_render: true,
        event_based: true,
        audio_bell: false,
        confirm_before_quit: true,
        open_config_with_split: true,
    }
}

fn frame(title: &str, working_dir: Option<&str>) -> FullFrame {
    FullFrame {
        sequence: 1,
        columns: 1,
        lines: 0,
        rows: Vec::new(),
        display_offset: 0,
        history_size: 0,
        lines_evicted: 0,
        alternate_screen: false,
        modes: 0,
        cursor: CursorFrame { line: 0, column: 0, visible: true, blinking: false, shape: 0 },
        selection: None,
        colors: vec![None; 269],
        graphics: GraphicsFrame::empty(),
        title: title.into(),
        working_dir: working_dir.map(|dir| dir.into()),
    }
}

#[test]
fn clicks_in_a_row_are_counted() {
    let mut pointer = pointer();
    let actions = pointer.press(MouseButton::Left, 1_000, 300, true);
    assert_eq!(actions, [PointerAction::ShowCursor, PointerAction::TakeChromePress]);
    assert_eq!(pointer.click_state, ClickState::Click);
    assert!(pointer.left_pressed);
    pointer.press(MouseButton::Left, 1_299, 300, false);
    assert_eq!(pointer.click_state, ClickState::DoubleClick);
    pointer.press(MouseButton::Left, 1_598, 300, false);
    assert_eq!(pointer.click_state, ClickState::TripleClick);
    pointer.press(MouseButton::Left, 1_600, 300, false);
    assert_eq!(pointer.click_state, ClickState::Click);
    // A pause and another button start over.
    pointer.press(MouseButton::Left, 1_900, 300, false);
    assert_eq!(pointer.click_state, ClickState::Click);
    pointer.press(MouseButton::Right, 1_901, 300, false);
    assert_eq!(pointer.click_state, ClickState::Click);
    assert_eq!(pointer.last_click_button, MouseButton::Right);
    assert_eq!(pointer.last_click_time, 1_901);
}

#[test]
fn a_press_is_offered_from_the_top_down() {
    let mut order = vec![PressStage::Assistant];
    while let PressStep::Offer(next) = next_stage(order[order.len() - 1], MouseButton::Left, false) {
        order.push(next);
        if next == PressStage::Pane {
            break;
        }
    }
    assert_eq!(
        order,
        [
            PressStage::Assistant,
            PressStage::Border,
            PressStage::Palette,
            PressStage::Search,
            PressStage::Island,
            PressStage::Scrollbar,
            PressStage::Pane,
        ]
    );
    assert_eq!(
        next_stage(PressStage::Assistant, MouseButton::Right, false),
        PressStep::Offer(PressStage::Island)
    );
    assert_eq!(
        next_stage(PressStage::Assistant, MouseButton::Middle, false),
        PressStep::Offer(PressStage::Pane)
    );
    assert_eq!(next_stage(PressStage::Border, MouseButton::Left, true), PressStep::Taken(false));
    assert_eq!(next_stage(PressStage::Island, MouseButton::Right, true), PressStep::Taken(true));
}

#[test]
fn a_program_that_wants_the_mouse_is_told_of_buttons() {
    let mut pointer = pointer();
    assert_eq!(
        pointer.finish_press(MouseButton::Middle, false, false, true, None),
        [PointerAction::Report(1, true), PointerAction::Bindings, PointerAction::Bindings]
    );
    assert!(pointer.finish_press(MouseButton::Other(9), false, false, true, None).is_empty());
    assert_eq!(code_of_button(MouseButton::Right), Some(2));
    // A held shift key keeps the press.
    assert_eq!(
        pointer.finish_press(MouseButton::Left, false, true, true, None),
        [PointerAction::LeftClick, PointerAction::Redraw, PointerAction::Bindings]
    );
    assert_eq!(
        pointer.finish_press(MouseButton::Left, true, false, true, None),
        [PointerAction::Redraw, PointerAction::Bindings]
    );
    let wanted = ReleaseFacts { mouse_mode: true, ..let_go() };
    let (actions, opened) = pointer.release(MouseButton::Right, &wanted, &None);
    assert_eq!(actions, [PointerAction::StopSelectionScroll, PointerAction::Report(2, false)]);
    assert!(opened.is_none());
}

#[test]
fn a_hint_opens_where_press_and_release_meet() {
    let mut pointer = pointer();
    pointer.press(MouseButton::Left, 10, 300, false);
    let pressed = pointer.finish_press(MouseButton::Left, false, false, true, Some(hint_at("abc", 4)));
    assert_eq!(
        pressed,
        [PointerAction::LeftClick, PointerAction::Redraw, PointerAction::Bindings]
    );
    // Neither motion nor the release is the program's.
    let motion = MoveFacts { mouse_mode: true, motion_and_drag: true, ..over(5) };
    assert!(!pointer.move_to(&motion).contains(&PointerAction::Report(32, true)));
    let wanted = ReleaseFacts { mouse_mode: true, ..let_go() };
    let (actions, opened) = pointer.release(MouseButton::Left, &wanted, &Some(hint_at("abc", 4)));
    assert_eq!(
        actions,
        [
            PointerAction::StopSelectionScroll,
            PointerAction::OpenHint,
            PointerAction::RequestRender,
        ]
    );
    assert_eq!(opened.unwrap().text, "abc");
    assert!(pointer.hint_click_latched.is_none());

    pointer.finish_press(MouseButton::Left, false, false, false, Some(hint_at("abc", 4)));
    let (actions, opened) = pointer.release(MouseButton::Left, &let_go(), &Some(hint_at("abc", 9)));
    assert_eq!(actions, [PointerAction::StopSelectionScroll]);
    assert!(opened.is_none());

    // What ends a drag leaves the hint for the next release.
    pointer.finish_press(MouseButton::Left, false, false, false, Some(hint_at("abc", 4)));
    let ended = ReleaseFacts { tab_drag_ended: true, ..let_go() };
    pointer.release(MouseButton::Left, &ended, &None);
    assert!(pointer.hint_click_latched.is_some());
    let chosen = ReleaseFacts { selection_empty: false, ..let_go() };
    let (actions, _) = pointer.release(MouseButton::Left, &chosen, &None);
    assert_eq!(actions, [PointerAction::StopSelectionScroll, PointerAction::CopySelection]);
}

#[test]
fn a_covered_terminal_undoes_what_a_press_began() {
    let mut pointer = pointer();
    pointer.left_pressed = true;
    pointer.hint_click_latched = Some(hint_at("abc", 1));
    assert_eq!(
        pointer.block_button(MouseButton::Left, true),
        [PointerAction::TakeChromePress]
    );
    assert!(pointer.hint_click_latched.is_some());
    assert_eq!(
        pointer.block_button(MouseButton::Left, false),
        [
            PointerAction::CancelIslandDrag,
            PointerAction::EndScrollbarDrag,
            PointerAction::EndResize,
        ]
    );
    assert!(!pointer.left_pressed);
    assert!(pointer.hint_click_latched.is_none());
    assert!(pointer.block_button(MouseButton::Right, false).is_empty());

    pointer.right_pressed = true;
    assert!(pointer.orphan_button(MouseButton::Right, true).is_empty());
    assert!(pointer.right_pressed);
    assert_eq!(pointer.orphan_button(MouseButton::Right, false).len(), 3);
    assert!(!pointer.right_pressed);
}

#[test]
fn motion_goes_to_what_is_under_the_pointer() {
    let mut pointer = pointer();
    pointer.left_pressed = true;
    let outside = MoveFacts { island_dragging: true, outside_surface: true, ..over(0) };
    assert_eq!(pointer.move_to(&outside), [PointerAction::StartExternalDrag]);
    let inside = MoveFacts { outside_surface: false, ..outside };
    assert_eq!(
        pointer.move_to(&inside),
        [
            PointerAction::StorePosition,
            PointerAction::DragTab,
            PointerAction::DefaultCursor,
            PointerAction::Redraw,
        ]
    );
    pointer.left_pressed = false;
    let border = MoveFacts { border: Some(true), ..over(0) };
    assert_eq!(
        pointer.move_to(&border),
        [
            PointerAction::StorePosition,
            PointerAction::HoverCloseButton,
            PointerAction::BorderCursor(true),
        ]
    );
    assert!(pointer.on_border);
    assert_eq!(
        pointer.move_to(&over(0)),
        [
            PointerAction::StorePosition,
            PointerAction::HoverCloseButton,
            PointerAction::UpdateHints,
        ]
    );
    assert!(!pointer.on_border);
    // The same place again is nothing new.
    assert_eq!(
        pointer.move_to(&over(0)),
        [PointerAction::StorePosition, PointerAction::HoverCloseButton]
    );
    let motion = MoveFacts { mouse_mode: true, motion_and_drag: true, motion: true, ..over(1) };
    assert_eq!(pointer.move_to(&motion).last(), Some(&PointerAction::Report(35, true)));
    pointer.right_pressed = true;
    let dragged = MoveFacts { cell: Pos::new(0, 2), ..motion };
    assert_eq!(pointer.move_to(&dragged).last(), Some(&PointerAction::Report(34, true)));
    let selecting = MoveFacts { shift: true, cell: Pos::new(0, 3), ..motion };
    let actions = pointer.move_to(&selecting);
    assert!(actions.contains(&PointerAction::UpdateSelection));
    assert!(!actions.contains(&PointerAction::UpdateHints));
    let scrolling = MoveFacts { selection_empty: false, scrolls_selection: true, ..over(3) };
    assert!(pointer.move_to(&scrolling).contains(&PointerAction::ScheduleScroll));
}

#[test]
fn keys_and_texts_reach_their_window() {
    assert_eq!(modifiers_changed(false, true), [WindowAction::SetModifiers]);
    assert_eq!(
        modifiers_changed(true, true),
        [WindowAction::SetModifiers, WindowAction::UpdateHints]
    );
    assert_eq!(
        modifiers_changed(true, false),
        [WindowAction::SetModifiers, WindowAction::ClearHint]
    );
    assert_eq!(
        hint_looked_up(true),
        [WindowAction::SetCursorIcon, WindowAction::RequestRender]
    );
    assert!(hint_looked_up(false).is_empty());
    assert!(wheel_turned(true, true, true).is_empty());
    assert_eq!(wheel_turned(true, false, true).len(), 4);
    assert_eq!(ime_told(false, false, ImeEvent::Commit(1)), [WindowAction::Paste(false)]);
    assert_eq!(
        ime_told(true, false, ImeEvent::Commit(2)),
        [WindowAction::Redraw, WindowAction::Paste(true)]
    );
    assert!(ime_told(false, true, ImeEvent::Commit(2)).is_empty());
    assert_eq!(
        ime_told(false, false, ImeEvent::Preedit(true)),
        [WindowAction::SetPreedit, WindowAction::Redraw]
    );
    assert_eq!(ime_told(false, false, ImeEvent::Enabled), [WindowAction::EnableIme(true)]);
    assert_eq!(
        ime_told(false, false, ImeEvent::Disabled(true)),
        [WindowAction::EnableIme(false), WindowAction::Redraw]
    );
    let (actions, text) = file_dropped(false, "a\\ b");
    assert_eq!(actions, [WindowAction::Paste(true)]);
    assert_eq!(text, "a\\ b ");
}

#[test]
fn windows_are_drawn_when_something_changed() {
    assert!(theme_changed(true).is_empty());
    assert_eq!(theme_changed(false).len(), 4);
    assert_eq!(
        scale_changed(),
        [WindowAction::SetScale, WindowAction::UpdateVblank, WindowAction::Redraw]
    );
    assert_eq!(
        redraw_requested(false),
        [WindowAction::BeginRender, WindowAction::RenderWelcome]
    );
    assert_eq!(redraw_requested(true)[1], WindowAction::Render);
    assert_eq!(redrawn(true, false), [WindowAction::Redraw, WindowAction::Poll]);
    assert_eq!(redrawn(false, true), [WindowAction::Redraw, WindowAction::Wait]);
    assert_eq!(redrawn(false, false), [WindowAction::Wait]);
    let mut seen =
        Visibility { focused: false, occluded: false, needs_render_after_occlusion: false };
    assert_eq!(
        seen.focus(true, false, true),
        [WindowAction::ShowCursor, WindowAction::Redraw, WindowAction::FocusChange(true)]
    );
    assert_eq!(
        seen.focus(true, true, false),
        [WindowAction::UpdateVblank, WindowAction::Redraw, WindowAction::FocusChange(true)]
    );
    assert_eq!(seen.focus(true, false, false), [WindowAction::FocusChange(true)]);
}

#[test]
fn sessions_are_heard() {
    let mut pane = pane();
    let action =
        handle_session_event(&mut pane, shown(), SessionEvent::Title { title: "top".into() });
    assert!(matches!(action, SessionAction::SetWindowTitle(text) if text == "top"));
    assert_eq!(pane.terminal.title, "top");
    assert_eq!(damage(&mut pane), None);

    let action = handle_session_event(&mut pane, shown(), SessionEvent::CursorBlinkingChanged);
    assert!(matches!(action, SessionAction::Redraw));
    assert_eq!(damage(&mut pane), Some(TerminalDamage::CursorOnly));

    let silent = SessionWindow { audio_bell: false, ..shown() };
    assert!(matches!(
        handle_session_event(&mut pane, silent, SessionEvent::Bell),
        SessionAction::Nothing
    ));
    assert!(matches!(
        handle_session_event(&mut pane, shown(), SessionEvent::Bell),
        SessionAction::Bell
    ));
    assert!(matches!(
        handle_session_event(&mut pane, shown(), SessionEvent::Progress { state: 3, value: 40 }),
        SessionAction::Progress(ProgressState::Indeterminate, 40)
    ));
    assert!(matches!(
        handle_session_event(&mut pane, shown(), SessionEvent::Progress { state: 5, value: 40 }),
        SessionAction::Nothing
    ));
    let change = SessionEvent::ColorChange { route_id: 5, index: 257, color: Some((1, 2, 3)) };
    handle_session_event(&mut pane, shown(), change);
    assert_eq!(pane.renderable_content.background, Some(BackgroundState::Custom(shade())));
    let reset = SessionEvent::ColorChange { route_id: 5, index: 257, color: None };
    handle_session_event(&mut pane, shown(), reset);
    assert_eq!(pane.renderable_content.background, Some(BackgroundState::Reset));
    let overflow = handle_session_event(&mut pane, shown(), SessionEvent::ClipboardOverflow);
    assert!(matches!(
        overflow,
        SessionAction::Warn(text)
            if text == "terminal clipboard response exceeded the session limit"
    ));
    assert!(matches!(
        handle_session_event(&mut pane, shown(), SessionEvent::Closed),
        SessionAction::Close
    ));
}

#[test]
fn refused_and_expired_requests_are_shown() {
    let mut pane = pane();
    let refused = SessionEvent::RequestRefused {
        request_id: 12,
        kind: RequestKind::Color,
        reason: RefusalReason::TooMany,
    };
    handle_session_event(&mut pane, shown(), refused);
    assert_eq!(
        pane.renderable_content.session_error.as_deref(),
        Some("terminal request 12 (Color) refused: TooMany")
    );
    assert_eq!(damage(&mut pane), Some(TerminalDamage::Full));
    let expired = SessionEvent::RequestExpired { request_id: 3, kind: RequestKind::Glyph };
    handle_session_event(&mut pane, shown(), expired);
    assert_eq!(
        pane.renderable_content.session_error.as_deref(),
        Some("terminal request 3 (Glyph) expired")
    );
}

#[test]
fn only_a_focused_window_stores_to_a_clipboard() {
    let mut pane = pane();
    assert_eq!(clipboard_type(0), Some(ClipboardType::Clipboard));
    assert_eq!(clipboard_type(1), Some(ClipboardType::Selection));
    assert_eq!(clipboard_type(2), None);
    let store = || SessionEvent::ClipboardStore { kind: 1, text: "x".into() };
    assert!(matches!(
        handle_session_event(&mut pane, shown(), store()),
        SessionAction::StoreClipboard(ClipboardType::Selection, text) if text == "x"
    ));
    let away = SessionWindow { focused: false, ..shown() };
    assert!(matches!(
        handle_session_event(&mut pane, away, store()),
        SessionAction::Nothing
    ));
}

#[test]
fn what_a_terminal_asks_for_is_answered() {
    let mut pane = pane();
    let load = SessionEvent::ClipboardLoad { request_id: 8, route_id: 5, kind: 0 };
    assert!(matches!(
        handle_session_event(&mut pane, shown(), load),
        SessionAction::LoadClipboard(8, 5, ClipboardType::Clipboard)
    ));
    answer_clipboard(&mut pane, 8, 5, "held".into());
    assert!(matches!(
        sent(&mut pane),
        SessionCommand::ClipboardResponse { request_id: 8, route_id: 5, text } if text == "held"
    ));

    pane.terminal.colors = vec![None, Some(bits(4))];
    let ask = |index| SessionEvent::ColorRequest { request_id: 9, route_id: 5, index };
    assert!(matches!(
        handle_session_event(&mut pane, shown(), ask(0)),
        SessionAction::AnswerColor(9, 5, color) if color == bits(7)
    ));
    assert!(matches!(
        handle_session_event(&mut pane, shown(), ask(1)),
        SessionAction::AnswerColor(9, 5, color) if color == bits(4)
    ));
    answer_color(&mut pane, 9, 5, Some((1, 2, 3)));
    assert!(matches!(
        sent(&mut pane),
        SessionCommand::ColorResponse { request_id: 9, color: Some((1, 2, 3)), .. }
    ));

    pane.dimension.size.rows = 24;
    let size = SessionEvent::TextAreaSizeRequest { request_id: 10, route_id: 5 };
    handle_session_event(&mut pane, shown(), size);
    assert!(matches!(
        sent(&mut pane),
        SessionCommand::TextAreaSizeResponse { request_id: 10, route_id: 5, rows: 24, .. }
    ));

    let glyph = SessionEvent::GlyphProtocolQuery { request_id: 11, route_id: 5, codepoint: 65 };
    assert!(matches!(
        handle_session_event(&mut pane, shown(), glyph),
        SessionAction::QueryGlyph(11, 5, 65)
    ));
    answer_glyph(&mut pane, 11, 5, true, false);
    assert!(matches!(
        sent(&mut pane),
        SessionCommand::GlyphProtocolResponse { status: GlyphStatus::Glossary, .. }
    ));
    assert_eq!(glyph_status(true, true), GlyphStatus::Both);
    assert_eq!(glyph_status(false, true), GlyphStatus::System);
    assert_eq!(glyph_status(false, false), GlyphStatus::Free);
}

#[test]
fn an_answer_without_room_is_shown_as_an_error() {
    let mut pane = pane();
    pane.terminal.session = Some(SessionHandle::with_capacity(1, 1));
    answer_clipboard(&mut pane, 1, 5, "one".into());
    assert_eq!(pane.renderable_content.session_error, None);
    answer_clipboard(&mut pane, 2, 5, "two".into());
    assert!(pane.renderable_content.session_error.is_some());
    assert_eq!(damage(&mut pane), Some(TerminalDamage::Full));
}

#[test]
fn selected_texts_reach_the_clipboards() {
    let mut pane = pane();
    {
        let handle = pane.terminal.session.as_mut().unwrap();
        for (text, copy_to_clipboard) in [(Some("a"), true), (None, true), (Some("b"), false)] {
            assert!(handle.request_selection_text(ClipboardType::Selection, true).is_ok());
            handle.next_command();
            handle.selection_in_flight = false;
            handle.state.replies.push_back(SelectionReply {
                target: ClipboardType::Selection,
                text: text.map(|text| text.to_string()),
                copy_to_clipboard,
            });
        }
    }
    let actions = take_selections(&mut pane);
    assert!(matches!(
        actions.as_slice(),
        [
            SessionAction::StoreClipboard(ClipboardType::Selection, a),
            SessionAction::ShareClipboard(ClipboardType::Selection),
            SessionAction::StoreClipboard(ClipboardType::Selection, b),
        ] if a == "a" && b == "b"
    ));
    assert!(take_selections(&mut pane).is_empty());
    assert_eq!(pane.terminal.session.as_ref().unwrap().state.outstanding, 0);
}

#[test]
fn hidden_windows_are_not_drawn_unless_they_prepare_panes() {
    let mut app = Application::new();
    assert_eq!(app.user_event(&told(), &quiet(), UserEvent::Render), [UserAction::Redraw]);
    let away = ToldWindow { focused: false, ..told() };
    let covered = ToldWindow { occluded: true, ..told() };
    let uncovered = ToldWindow { needs_render_after_occlusion: true, ..covered };
    assert!(app.user_event(&away, &quiet(), UserEvent::Render).is_empty());
    assert!(app.user_event(&covered, &quiet(), UserEvent::Render).is_empty());
    assert_eq!(
        app.user_event(&uncovered, &quiet(), UserEvent::Render),
        [UserAction::ClearOcclusionFlag, UserAction::Redraw]
    );
    app.pending_prepared.push(PendingPrepared {
        routes: Vec::new(),
        ready: Default::default(),
        window_id: 1,
        deadline: 0,
        completion: PendingPreparedCompletion::Incoming(3),
    });
    assert_eq!(
        app.user_event(&away, &quiet(), UserEvent::Render),
        [UserAction::PrepareImports, UserAction::Redraw]
    );
    // The session of a pane is heard whether or not its window is drawn.
    assert_eq!(
        app.user_event(&covered, &quiet(), UserEvent::RenderRoute(9)),
        [
            UserAction::PrepareImports,
            UserAction::ProcessSession(9),
            UserAction::RenderRoute(9, true),
        ]
    );
}

#[test]
fn a_pane_is_drawn_or_put_off() {
    assert_eq!(
        render_route(&told(), &quiet(), false, 5),
        [UserAction::MarkDirty(5), UserAction::Redraw]
    );
    let waiting = ToldWindow { wait_until: Some(12), has_pane: false, ..told() };
    assert_eq!(
        render_route(&waiting, &quiet(), false, 5),
        [UserAction::Schedule(Topic::RenderRoute, 5, UserEvent::Render, 12)]
    );
    let running = ToldWindow { timer_running: true, ..waiting };
    assert!(render_route(&running, &quiet(), false, 5).is_empty());
    let away = ToldWindow { focused: false, scrollbar_dirty: true, ..told() };
    assert_eq!(render_route(&away, &quiet(), false, 5), [UserAction::Redraw]);
    let always = EventConfig { event_based: false, ..quiet() };
    assert!(render_route(&told(), &always, true, 5).is_empty());
}

#[test]
fn events_start_timers() {
    assert_eq!(timer_for(UserEvent::PrepareRender(4), 7), Some((Topic::Render, 7)));
    assert_eq!(timer_for(UserEvent::BlinkCursor(4, 2), 7), Some((Topic::CursorBlinking, 2)));
    assert_eq!(timer_for(UserEvent::PrepareUpdateConfig, 7), Some((Topic::UpdateConfig, 0)));
    assert_eq!(timer_for(UserEvent::Bell, 7), None);
    let app = Application::new();
    assert_eq!(
        app.user_event(&told(), &quiet(), UserEvent::BlinkCursor(4, 2)),
        [UserAction::Schedule(
            Topic::CursorBlinking,
            2,
            UserEvent::CursorBlinkingChangeOnRoute(2),
            4,
        )]
    );
    let running = ToldWindow { timer_running: true, ..told() };
    assert!(app.user_event(&running, &quiet(), UserEvent::BlinkCursor(4, 2)).is_empty());
    assert_eq!(
        app.user_event(&told(), &quiet(), UserEvent::PrepareUpdateConfig),
        [UserAction::Schedule(Topic::UpdateConfig, 0, UserEvent::UpdateConfig, 250)]
    );
}

#[test]
fn what_a_window_is_told_is_done() {
    let app = Application::new();
    let done = |event| app.user_event(&told(), &quiet(), event);
    assert_eq!(done(UserEvent::Exit), [UserAction::ConfirmQuit]);
    assert!(done(UserEvent::Bell).is_empty());
    assert_eq!(done(UserEvent::Title(5)), [UserAction::SetWindowTitle]);
    assert!(done(UserEvent::Title(6)).is_empty());
    assert_eq!(done(UserEvent::MoveCurrentTabToNewWindow), [UserAction::Detach(50)]);
    assert_eq!(done(UserEvent::CreateConfigEditor), [UserAction::OpenConfigSplit]);
    assert_eq!(done(UserEvent::SelectNativeTabLast), [UserAction::SelectNativeTab(2)]);
    assert_eq!(done(UserEvent::ToggleFullScreen), [UserAction::SetFullscreen(true)]);
    assert_eq!(done(UserEvent::ColorChange(5, 257)), [UserAction::SetBackground(5)]);
    assert!(done(UserEvent::ColorChange(5, 256)).is_empty());
    assert!(done(UserEvent::Outdated).is_empty());
    assert_eq!(done(UserEvent::CloseTerminal(4)), [UserAction::CloseTerminal(4)]);

    let gone = ToldWindow { open: false, native_tabs: 0, ..told() };
    assert!(app.user_event(&gone, &quiet(), UserEvent::SelectNativeTabLast).is_empty());
    assert!(app.user_event(&gone, &quiet(), UserEvent::Exit).is_empty());
    assert_eq!(app.user_event(&gone, &quiet(), UserEvent::UpdateConfig), [UserAction::LoadConfig]);
}

#[test]
fn a_dragged_pane_is_not_closed_at_once() {
    let mut app = Application::new();
    app.tab_drag = Some(TabDrag {
        source_window: 1,
        tab_id: 23,
        original_index: 0,
        tab_count: 1,
        whole_window: false,
        token: 77,
        drag_id: Some(7),
        owner: Some(OwnerRoute { window_id: 2, tab_id: 23, route_ids: vec![4] }),
        hover: None,
        lifecycle: TabDragLifecycle::Active,
        frame_grab: None,
    });
    let other = ToldWindow { id: 3, ..told() };
    assert_eq!(
        app.user_event(&other, &quiet(), UserEvent::CloseTerminal(4)),
        [UserAction::DeferClose(4)]
    );
    assert_eq!(
        app.user_event(&other, &quiet(), UserEvent::CloseTerminal(5)),
        [UserAction::CloseTerminal(5)]
    );
    assert_eq!(
        app.user_event(&told(), &quiet(), UserEvent::CloseTerminal(5)),
        [UserAction::DeferClose(5)]
    );
    assert!(app.user_event(&told(), &quiet(), UserEvent::CreateConfigEditor).is_empty());
}

#[test]
fn saved_sessions_are_named_by_title_or_directory() {
    let line = |title: &str, dir: Option<&str>, owned: bool| {
        recovery_label(&PreparedSession::prepare_attach(1, &frame(title, dir), owned))
    };
    assert_eq!(line("vi", Some("/srv"), false), "Recover \"vi\"");
    assert_eq!(line("  ", Some("/srv"), false), "Recover \"/srv\"");
    assert_eq!(line("", None, false), "Recover \"unnamed session\"");
    assert_eq!(line("vi", None, true), "Recover \"vi\" (active owner; takeover)");
    let descriptor = SessionDescriptor { session_id: 5, endpoint: 6 };
    let prepared = PreparedSession::prepare_attach(1, &frame("vi", None), false);
    let candidate = RecoveryCandidate::from_probe(descriptor, prepared);
    assert_eq!(candidate.label, "Recover \"vi\"");
    assert_eq!(candidate.descriptor, descriptor);
}

#[test]
fn a_closed_list_ends_a_recovery() {
    let mut windows = vec![WindowFacts {
        id: 1,
        terminal: true,
        tabs: 1,
        capacity: 4,
        current_index: 0,
        current_tab: 10,
        current_route: 101,
        palette_open: true,
    }];
    let mut app = Application::new();
    app.recovery_targets = Some((1, Vec::new()));
    assert!(app.keep_recovery(&windows));
    windows[0].palette_open = false;
    assert!(!app.keep_recovery(&windows));
    assert!(app.recovery_targets.is_none());
    assert!(matches!(app.take_effects().last(), Some(Effect::ClearMergeUi(1))));
    assert!(app.keep_recovery(&windows));
}

#[test]
fn the_last_window_takes_the_program_along() {
    let mut gate = ExitGate::new();
    gate.window_closed(vec![SessionHandle::with_capacity(4, 1)], 1, false, 10);
    assert_eq!(gate.poll_deferred_session_exit(10), ExitStep::Running);
    gate.window_closed(Vec::new(), 0, true, 20);
    assert_eq!(gate.poll_deferred_session_exit(20), ExitStep::Running);
    gate.window_closed(Vec::new(), 0, false, 30);
    // The session of the first window still runs.
    assert_eq!(gate.poll_deferred_session_exit(31), ExitStep::Waiting);
    assert_eq!(gate.poll_deferred_session_exit(5_029), ExitStep::Waiting);
    assert_eq!(gate.poll_deferred_session_exit(5_030), ExitStep::Exit);
}

#[test]
fn a_window_moves_whole_or_not_at_all() {
    let mut ids = IdSource::new();
    let mut source = started(4, 1, 3, &mut ids);
    source.set_current(1);
    let moved = tab_ids(&source);
    let mut small = started(3, 2, 1, &mut ids);
    assert!(!transfer_window_to_target(&mut source, &mut small, 0));
    assert_eq!(tab_ids(&source), moved);
    assert_eq!(small.len(), 1);

    let mut target = started(5, 3, 2, &mut ids);
    let there = tab_ids(&target);
    assert!(!transfer_window_to_target(&mut source, &mut target, 3));
    assert!(transfer_window_to_target(&mut source, &mut target, 1));
    assert!(source.is_empty());
    assert_eq!(tab_ids(&target), [there[0], moved[0], moved[1], moved[2], there[1]]);
    assert_eq!(target.current_grid().id(), moved[1]);
    assert!(target.current().window_id == 3);
    assert!(!transfer_window_to_target(&mut source, &mut target, 0));
}

#[test]
fn a_dragged_window_stays_open_without_its_tabs() {
    let mut ids = IdSource::new();
    let mut source = started(4, 1, 2, &mut ids);
    let mut target = started(4, 2, 1, &mut ids);
    let route_ids: Vec<usize> = (0..2)
        .map(|index| {
            source.set_current(index);
            source.current_route()
        })
        .collect();
    let owner = OwnerRoute { window_id: 1, tab_id: 0, route_ids };
    let mut app = Application::new();
    assert!(!app.move_window_owner_to_target(&owner, &mut source, &mut target, true, 1, true, 0));
    assert!(!app.move_window_owner_to_target(&owner, &mut source, &mut target, true, 2, false, 0));
    assert!(app.move_window_owner_to_target(&owner, &mut source, &mut target, true, 2, true, 0));
    assert!(source.is_empty());
    assert_eq!(target.len(), 3);
    assert!(matches!(app.take_effects().as_slice(), [Effect::Retain(1)]));
}

#[test]
fn what_a_session_reports_outlives_its_pane() {
    let told = |window: Option<SessionWindow>, event| handle_event_without_pane(window, true, event);
    assert!(matches!(told(None, SessionEvent::Bell), SessionAction::Bell));
    assert!(matches!(
        handle_event_without_pane(Some(shown()), false, SessionEvent::Bell),
        SessionAction::Nothing
    ));
    let note = SessionEvent::DesktopNotification { title: "a".into(), body: "b".into() };
    assert!(matches!(told(None, note), SessionAction::Notify(a, b) if a == "a" && b == "b"));
    assert!(matches!(told(None, SessionEvent::Closed), SessionAction::Close));
    let store = || SessionEvent::ClipboardStore { kind: 0, text: "x".into() };
    assert!(matches!(told(None, store()), SessionAction::Nothing));
    assert!(matches!(
        told(Some(shown()), store()),
        SessionAction::StoreClipboard(ClipboardType::Clipboard, text) if text == "x"
    ));
    let away = SessionWindow { focused: false, ..shown() };
    assert!(matches!(told(Some(away), store()), SessionAction::Nothing));
    let load = SessionEvent::ClipboardLoad { request_id: 1, route_id: 1, kind: 0 };
    assert!(matches!(told(Some(shown()), load), SessionAction::Nothing));
    assert!(matches!(
        told(Some(shown()), SessionEvent::Progress { state: 1, value: 7 }),
        SessionAction::Progress(ProgressState::Started, 7)
    ));
    let expired = SessionEvent::RequestExpired { request_id: 3, kind: RequestKind::Glyph };
    assert!(matches!(told(Some(shown()), expired), SessionAction::Redraw));
    assert!(matches!(told(Some(shown()), SessionEvent::ClipboardOverflow), SessionAction::Warn(_)));
}

#[test]
fn panes_that_went_over_leave_the_others_in_order() {
    let mut ids = IdSource::new();
    let mut manager = started(6, 1, 4, &mut ids);
    manager.set_current(1);
    manager
        .current_grid_mut()
        .add_split(create_dead_context(1, 7_000, 9, ContextDimension::default()));
    let all = manager.route_ids();
    assert_eq!(all.len(), 5);
    let gone = vec![all[3], 99_999, all[1]];
    manager.remove_transferred_routes(&gone);
    assert_eq!(manager.route_ids(), [all[0], all[2], all[4]]);
}

#[test]
fn an_adopted_pane_starts_afresh() {
    let mut ids = IdSource::new();
    let mut manager = started(3, 1, 1, &mut ids);
    let offered = vec![PreparedPane {
        offer: PaneOffer {
            route_id: 11,
            session: SessionDescriptor { session_id: 1, endpoint: 2 },
            layout_rect: LayoutRect { x: 0, y: 0, width: 4, height: 5 },
        },
        session: PreparedSession::prepare_attach(3, &frame("t", None), false),
    }];
    let tabs = vec![TabOffer { routes: vec![11], active_route: 11, rebuildable: true }];
    let size = ContextDimension::default();
    assert!(manager.insert_prepared_tabs(offered, tabs, 0, None, size, &mut ids).is_ok());
    let pane = manager.current();
    assert!(!pane.renderable_content.has_blinking_enabled);
    assert!(!pane.renderable_content.blinking_cursor);
    assert!(pane.renderable_content.selection_range.is_none());
    assert!(!pane.renderable_content.pending_update.is_dirty());
    assert!(pane.title.extra.is_none());
    assert_eq!(pane.title.content, "~");
    assert_eq!(pane.layout_rect, LayoutRect { x: 0, y: 0, width: 4, height: 5 });
}

#[test]
fn panes_that_went_over_keep_their_sessions() {
    let mut ids = IdSource::new();
    let mut manager = started(4, 1, 2, &mut ids);
    let gone = manager.current_route();
    manager.current_mut().terminal.session = Some(SessionHandle::with_capacity(4, 1));
    manager.remove_transferred_routes(&vec![gone, 99_999]);
    assert_eq!(manager.len(), 1);
    assert!(manager.get_by_route_id(gone).is_none());
    assert_eq!(manager.retired.len(), 1);
    assert_eq!(manager.retired[0].commands.owners, 0);
    assert!(matches!(manager.retired[0].next_command(), Received::Disconnected));

    // A session that is closed hears of it.
    let mut closed = SessionHandle::with_capacity(4, 1);
    closed.close();
    assert!(matches!(
        closed.next_command(),
        Received::Command(PumpCommand::Terminal(SessionCommand::Close))
    ));
}

#[test]
fn an_offer_is_taken_over_whole_or_handed_back() {
    let rect = || LayoutRect { x: 0, y: 0, width: 0, height: 0 };
    let panes = |routes: &[u64]| -> Vec<PreparedPane> {
        routes
            .iter()
            .map(|route| PreparedPane {
                offer: PaneOffer {
                    route_id: *route,
                    session: SessionDescriptor { session_id: 1, endpoint: *route },
                    layout_rect: rect(),
                },
                session: PreparedSession::prepare_attach(*route, &frame("t", None), false),
            })
            .collect()
    };
    let tab = |routes: &[u64], rebuildable: bool| TabOffer {
        routes: routes.to_vec(),
        active_route: routes[0],
        rebuildable,
    };
    let mut ids = IdSource::new();
    let mut manager = started(3, 1, 1, &mut ids);
    let size = ContextDimension::default();
    // Nothing is taken over where a tab cannot be laid out again.
    let refused = manager.insert_prepared_tabs(
        panes(&[11, 22]),
        vec![tab(&[11], true), tab(&[22], false)],
        0,
        None,
        size,
        &mut ids,
    );
    assert_eq!(refused.err().map(|back| back.len()), Some(2));
    assert_eq!(manager.len(), 1);
    let two = vec![tab(&[11], true), tab(&[22], true)];
    let late = manager.insert_prepared_tabs(panes(&[11, 22]), two, 0, Some(2), size, &mut ids);
    assert!(late.is_err());

    let next = ids.next_route;
    let two = vec![tab(&[11], true), tab(&[22], true)];
    let taken = manager.insert_prepared_tabs(panes(&[11, 22]), two, 1, Some(0), size, &mut ids);
    assert_eq!(taken.ok(), Some(vec![next, next + 1]));
    assert_eq!(manager.len(), 3);
    assert_eq!(manager.current_route(), next + 1);
}
