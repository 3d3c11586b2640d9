use rioterm::context::interact::{Scroll, SelectionType};
use rioterm::context::pane::{create_dead_context, ContextDimension};
use rioterm::context::passive::{decode_extras, ContentTag, FrameError, SquareContent, STYLE_BOLD};
use rioterm::context::protocol::{
    CellContentFrame, CellFrame, ColorFrame, CursorFrame, ExtrasFrame, FrameDelta, FrameUpdate,
    FullFrame, GraphicsFrame, HyperlinkFrame, RowFrame, RowUpdate, SearchMatch, SelectionFrame,
    SearchDirection, SearchNavigation, SelectionKind, SelectionReply, SessionCommand, SessionError,
    SessionEvent, SessionReply, Side, StyleFrame,
};
use rioterm::context::pump::{
    recoverable_command_rejection, report_startup_failure, Notice, PumpAction, PumpInput,
    PumpStartup, SessionPump,
};
use rioterm::context::remote::{cursor_shape, RemoteView};
use rioterm::context::renderable::{Cursor, RenderableContent};
use rioterm::context::session::{
    PumpCommand, Received, SessionHandle, SessionState, COMMAND_QUEUE_SIZE, EVENT_QUEUE_SIZE,
    FRAME_UPDATE_QUEUE_SIZE,
};
use rioterm::terminal::{
    named_color, ClipboardType, ColorBits, CursorShape, NamedColor, Pos, SelectionRange,
    TerminalDamage,
};

fn frame(columns: u16, lines: u16, rows: Vec<RowFrame>) -> FullFrame {
    FullFrame {
        sequence: 1,
        columns,
        lines,
        rows,
        display_offset: 0,
        history_size: 0,
        lines_evicted: 0,
        alternate_screen: false,
        modes: 0,
        cursor: CursorFrame { line: 0, column: 0, visible: true, blinking: false, shape: 0 },
        selection: None,
        colors: vec![None; 269],
        graphics: GraphicsFrame::empty(),
        title: String::new(),
        working_dir: None,
    }
}

fn delta(columns: u16, lines: u16, sequence: u64, rows: Vec<RowUpdate>) -> FrameDelta {
    FrameDelta {
        base_sequence: sequence - 1,
        sequence,
        columns,
        lines,
        rows,
        display_offset: 0,
        history_size: 0,
        lines_evicted: 0,
        alternate_screen: false,
        modes: 0,
        cursor: CursorFrame { line: 0, column: 0, visible: true, blinking: false, shape: 0 },
        selection: None,
        colors: vec![None; 269],
        title: String::new(),
        working_dir: None,
    }
}

fn default_style() -> StyleFrame {
    StyleFrame {
        foreground: ColorFrame::Named(256),
        background: ColorFrame::Named(257),
        underline: None,
        flags: 0,
    }
}

fn cell(c: char) -> CellFrame {
    CellFrame { content: CellContentFrame::Codepoint(c as u32), wide: 0, flags: 0 }
}

fn row(text: &str) -> RowFrame {
    let cells: Vec<CellFrame> = text.chars().map(cell).collect();
    RowFrame {
        styles: vec![default_style(); cells.len()],
        extras: cells.iter().map(|_| None).collect(),
        cells,
        kitty_virtual_placeholder: false,
        text: text.into(),
    }
}

fn linked(id: &str, uri: &str) -> ExtrasFrame {
    ExtrasFrame {
        zero_width: vec![0x301],
        hyperlink: Some(HyperlinkFrame { id: id.into(), uri: uri.into() }),
    }
}

/// The first and last selected column of a row of the view.
fn selected_row(view: &RemoteView, y: i32, columns: usize) -> Option<(usize, usize)> {
    let range = view.selection_range?;
    let line = y - view.grid.display_offset as i32;
    if line < range.start.row || line > range.end.row {
        return None;
    }
    let lo = if line == range.start.row { range.start.col } else { 0 };
    let hi = if line == range.end.row { range.end.col } else { columns - 1 };
    Some((lo, hi))
}

fn received(handle: &mut SessionHandle) -> PumpCommand {
    match handle.next_command() {
        Received::Command(command) => command,
        _ => panic!("no command was queued"),
    }
}

#[test]
fn malformed_full_frame_row_count_is_reported() {
    let view = RemoteView::from_frame(frame(1, 1, Vec::new()), 0);

    assert_eq!(
        view.decoder_error(),
        Some("passive frame row count does not match its dimensions")
    );
}

#[test]
fn frame_delta_cursor_only_does_not_rebuild_rows() {
    let mut view = RemoteView::from_frame(frame(2, 1, vec![row("ab")]), 0);
    let original_row = view.grid.rows[0].inner.clone();
    for row in &mut view.grid.rows {
        row.dirty = false;
    }
    view.pending_frame_damage = TerminalDamage::Noop;
    let mut update = delta(2, 1, 2, Vec::new());
    update.cursor.column = 1;
    update.cursor.visible = false;
    assert!(view.apply_frame_update(FrameUpdate::Delta(update)).is_ok());
    assert_eq!(view.pending_frame_damage, TerminalDamage::CursorOnly);
    assert_eq!(view.grid.rows[0].inner, original_row);
    assert!(!view.grid.rows[0].dirty);
    assert_eq!(view.grid.cursor.pos, Pos::new(0, 1));
}

#[test]
fn colors_are_compared_as_numbers() {
    let color = |bits: u32| Some(ColorBits { r: bits, g: 0, b: 0, a: 0 });
    let rebuilt = |before: u32, after: u32| {
        let mut base = frame(2, 1, vec![row("ab")]);
        base.colors[0] = color(before);
        let mut view = RemoteView::from_frame(base, 0);
        view.pending_frame_damage = TerminalDamage::Noop;
        let mut update = delta(2, 1, 2, Vec::new());
        update.colors[0] = color(after);
        assert!(view.apply_frame_update(FrameUpdate::Delta(update)).is_ok());
        view.pending_frame_damage == TerminalDamage::Partial
    };
    assert!(!rebuilt(1.0f32.to_bits(), 1.0f32.to_bits()));
    assert!(rebuilt(1.0f32.to_bits(), 0.5f32.to_bits()));
    assert!(!rebuilt(0.0f32.to_bits(), (-0.0f32).to_bits()));
    assert!(!rebuilt(f32::INFINITY.to_bits(), f32::INFINITY.to_bits()));
    assert!(rebuilt(f32::NAN.to_bits(), f32::NAN.to_bits()));
}

#[test]
fn frame_delta_updates_only_changed_rows_and_preserves_interned_data() {
    let mut base_row = row("a");
    base_row.extras = vec![Some(linked("example", "https://example.com"))];
    base_row.text = "a\u{301}".into();
    let mut view = RemoteView::from_frame(frame(1, 2, vec![base_row, row("b")]), 0);
    view.pending_frame_damage = TerminalDamage::Noop;
    for row in &mut view.grid.rows {
        row.dirty = false;
    }
    let original_extra_id = view.grid.rows[0].inner[0].extras_id;
    let original_wide = view.grid.rows[1].inner[0].wide;
    let mut changed_row = row("c");
    changed_row.styles = vec![StyleFrame { flags: STYLE_BOLD, ..default_style() }];
    let update = delta(1, 2, 2, vec![RowUpdate { line: 1, row: changed_row }]);
    assert!(view.apply_frame_update(FrameUpdate::Delta(update)).is_ok());
    assert_eq!(view.grid.rows[0].inner[0].extras_id, original_extra_id);
    assert_eq!(view.grid.rows[1].inner[0].c(), 'c');
    assert_eq!(view.grid.rows[1].inner[0].style_id, 1);
    assert_eq!(view.grid.rows[1].inner[0].wide, original_wide);
    assert_eq!(
        view.grid.hyperlink(Pos::new(0, 0)).unwrap().uri(),
        "https://example.com"
    );
    assert_eq!(view.pending_frame_damage, TerminalDamage::Partial);
    assert!(!view.grid.rows[0].dirty);
    assert!(view.grid.rows[1].dirty);
}

#[test]
fn decoded_hyperlink_preserves_explicit_id() {
    let extra = ExtrasFrame {
        zero_width: Vec::new(),
        hyperlink: Some(HyperlinkFrame {
            id: "shared-target".into(),
            uri: "https://example.com".into(),
        }),
    };

    let hyperlink = decode_extras(&extra).hyperlink.unwrap();
    assert_eq!(hyperlink.id(), "shared-target");
    assert_eq!(hyperlink.uri(), "https://example.com");
}

#[test]
fn surrogates_are_no_combining_characters() {
    let extra = ExtrasFrame { zero_width: vec![0x301, 0xd800, 0x302, 0x110000], hyperlink: None };
    assert_eq!(decode_extras(&extra).zerowidth, ['\u{301}', '\u{302}']);
}

#[test]
fn frame_delta_selection_invalidates_all_rows() {
    let mut view = RemoteView::from_frame(frame(1, 2, vec![row("a"), row("b")]), 0);
    for row in &mut view.grid.rows {
        row.dirty = false;
    }
    view.pending_frame_damage = TerminalDamage::Noop;
    let mut update = delta(1, 2, 2, Vec::new());
    update.selection = Some(SelectionFrame {
        start_line: 0,
        start_column: 0,
        end_line: 1,
        end_column: 0,
        block: false,
    });

    assert!(view.apply_frame_update(FrameUpdate::Delta(update)).is_ok());
    assert_eq!(view.pending_frame_damage, TerminalDamage::Partial);
    assert!(view.grid.rows.iter().all(|row| row.dirty));
}

#[test]
fn scrolled_selection_highlights_viewport_rows_in_full_and_delta_frames() {
    let rows = (0..3)
        .map(|_| {
            let mut cells = row("aaaa");
            cells.text = "a".into();
            cells
        })
        .collect();
    let mut snapshot = frame(4, 3, rows);
    snapshot.display_offset = 20;
    snapshot.history_size = 20;
    snapshot.selection = Some(SelectionFrame {
        start_line: 0,
        start_column: 1,
        end_line: 1,
        end_column: 2,
        block: false,
    });
    let mut view = RemoteView::from_frame(snapshot, 0);
    assert_eq!(view.decoder_error(), None);
    assert_eq!(selected_row(&view, 0, 4), Some((1, 3)));
    assert_eq!(selected_row(&view, 1, 4), Some((0, 2)));
    assert_eq!(selected_row(&view, 2, 4), None);
    assert_eq!(
        view.selection_range,
        Some(SelectionRange::new(Pos::new(-20, 1), Pos::new(-19, 2), false))
    );

    let mut update = delta(4, 3, 2, Vec::new());
    update.display_offset = 25;
    update.history_size = 25;
    update.selection = Some(SelectionFrame {
        start_line: 1,
        start_column: 0,
        end_line: 2,
        end_column: 2,
        block: false,
    });
    assert!(view.apply_frame_update(FrameUpdate::Delta(update)).is_ok());
    assert_eq!(selected_row(&view, 0, 4), None);
    assert_eq!(selected_row(&view, 1, 4), Some((0, 3)));
    assert_eq!(selected_row(&view, 2, 4), Some((0, 2)));
}

#[test]
fn frame_delta_base_mismatch_preserves_cached_frame_for_resync() {
    let mut view = RemoteView::from_frame(frame(1, 1, vec![row("a")]), 0);
    view.pending_frame_damage = TerminalDamage::Noop;
    let mut update = delta(1, 1, 3, Vec::new());
    update.base_sequence = 2;

    assert_eq!(
        view.apply_frame_update(FrameUpdate::Delta(update)),
        Err(FrameError::BaseMismatch { base: 2, cached: 1 })
    );
    assert_eq!(view.frame.as_ref().unwrap().sequence, 1);
    assert_eq!(view.grid.rows[0].inner[0].c(), 'a');
    assert_eq!(view.pending_frame_damage, TerminalDamage::Noop);
}

#[test]
fn every_broken_delta_is_told_apart() {
    let mut view = RemoteView::from_frame(frame(1, 1, vec![row("a")]), 0);
    let outside = delta(1, 1, 2, vec![RowUpdate { line: 1, row: row("b") }]);
    assert_eq!(
        view.apply_frame_update(FrameUpdate::Delta(outside)),
        Err(FrameError::RowOutside)
    );
    assert_eq!(
        view.apply_frame_update(FrameUpdate::Delta(delta(2, 1, 2, Vec::new()))),
        Err(FrameError::Dimensions)
    );
    assert_eq!(
        view.apply_frame(frame(0, 1, vec![row("")])),
        Err(FrameError::ZeroDimensions)
    );
    assert_eq!(view.apply_frame(frame(1, 2, vec![row("a")])), Err(FrameError::RowCount));
    assert_eq!(view.apply_frame(frame(1, 1, vec![row("ab")])), Err(FrameError::RowDimensions));
    let mut blank = RemoteView::new(None, 0, 1, 1);
    assert_eq!(
        blank.apply_frame_update(FrameUpdate::Delta(delta(1, 1, 2, Vec::new()))),
        Err(FrameError::NoCachedFrame)
    );
}

#[test]
fn delta_resync_retries_after_snapshot_queue_pressure() {
    let mut handle = SessionHandle::with_capacity(1, 1);
    assert!(handle.enqueue(SessionCommand::Write(b"occupied".to_vec())).is_ok());
    let mut view = RemoteView::from_frame(frame(1, 1, vec![row("a")]), 0);
    view.install_session(handle);

    let publish_mismatched_delta = |view: &mut RemoteView| {
        let mut update = delta(1, 1, 2, Vec::new());
        update.base_sequence = 2;
        let session = view.session.as_mut().unwrap();
        session.state.publish_frame_update(FrameUpdate::Delta(update));
    };

    publish_mismatched_delta(&mut view);
    view.refresh();
    assert!(!view.delta_resync_logged);
    assert!(matches!(
        received(view.session.as_mut().unwrap()),
        PumpCommand::Terminal(SessionCommand::Write(_))
    ));

    publish_mismatched_delta(&mut view);
    view.refresh();
    assert!(matches!(
        received(view.session.as_mut().unwrap()),
        PumpCommand::Terminal(SessionCommand::Snapshot)
    ));
    assert!(view.delta_resync_logged);
}

#[test]
fn frame_delta_decode_failure_preserves_cached_frame() {
    let mut view = RemoteView::from_frame(frame(1, 1, vec![row("a")]), 0);
    view.pending_frame_damage = TerminalDamage::Noop;
    let invalid = delta(1, 1, 2, vec![RowUpdate { line: 0, row: row("bc") }]);

    assert!(view.apply_frame_update(FrameUpdate::Delta(invalid)).is_err());
    assert_eq!(view.frame.as_ref().unwrap().sequence, 1);
    assert_eq!(view.grid.rows[0].inner[0].c(), 'a');
    assert_eq!(view.pending_frame_damage, TerminalDamage::Noop);
}

#[test]
fn frame_damage_merges_across_publications_until_render_consumes_it() {
    let mut view = RemoteView::from_frame(frame(1, 1, vec![row("a")]), 0);
    let mut content = RenderableContent::new(Cursor::default());
    content.frame_damage = TerminalDamage::CursorOnly;
    view.pending_frame_damage = TerminalDamage::Noop;
    let mut cursor_update = delta(1, 1, 2, Vec::new());
    cursor_update.cursor.visible = false;
    view.apply_frame_update(FrameUpdate::Delta(cursor_update)).unwrap();
    view.refresh_renderable(&mut content);
    assert_eq!(content.frame_damage, TerminalDamage::CursorOnly);

    view.apply_frame_update(FrameUpdate::Delta(delta(
        1,
        1,
        3,
        vec![RowUpdate { line: 0, row: row("b") }],
    )))
    .unwrap();
    view.refresh_renderable(&mut content);
    assert_eq!(content.frame_damage, TerminalDamage::Partial);
    assert_eq!(view.grid.rows[0].inner[0].c(), 'b');
}

#[test]
fn only_unpoisoned_command_rejections_keep_the_pump_alive() {
    for error in
        [SessionError::Invalid("bad input".into()), SessionError::Unsupported("effect".into())]
    {
        assert!(recoverable_command_rejection(&error, false));
        assert!(!recoverable_command_rejection(&error, true));
    }
    for error in [
        SessionError::Detached,
        SessionError::WorkerExited,
        SessionError::Protocol("bad reply".into()),
        SessionError::Codec("decode".into()),
        SessionError::Io("broken pipe".into()),
    ] {
        assert!(!recoverable_command_rejection(&error, false));
    }
}

#[test]
fn history_search_matches_keep_negative_terminal_coordinates() {
    let mut view = RemoteView::new(None, 0, 80, 24);
    view.grid.history = 20;
    view.search_matches = Some(vec![SearchMatch {
        start_line: 8,
        start_column: 2,
        end_line: 9,
        end_column: 5,
    }]);
    let matches = view.take_search_matches().unwrap();
    assert_eq!(matches, vec![(Pos::new(-12, 2), Pos::new(-11, 5))]);
}

#[test]
fn command_sender_disconnects_after_its_last_owner_drops() {
    let mut context = create_dead_context(1, 2, 3, ContextDimension::default());
    context.terminal.install_session(SessionHandle::with_capacity(1, 1));
    let session = context.terminal.session.as_mut().unwrap();
    session.share();
    assert!(matches!(session.next_command(), Received::Empty));

    let mut session = context.disarm_for_transfer().unwrap();
    assert!(matches!(session.next_command(), Received::Empty));
    assert!(!session.commands.signalled);

    session.abandon();
    assert!(matches!(session.next_command(), Received::Disconnected));
    assert!(session.commands.signalled);
}

#[test]
fn close_preserves_admitted_commands_when_queue_is_full() {
    let mut handle = SessionHandle::with_capacity(1, 1);
    assert!(handle.enqueue(SessionCommand::Snapshot).is_ok());
    handle.close();
    assert!(matches!(
        handle.enqueue(SessionCommand::Snapshot),
        Err(SessionError::Detached)
    ));
    assert!(matches!(
        handle.commands.queue.pop_front(),
        Some(PumpCommand::Terminal(SessionCommand::Snapshot))
    ));
    assert!(handle.commands.queue.is_empty());
}

#[test]
fn paste_commands_preserve_raw_input_and_delegate_bracketed_paste() {
    let handle = SessionHandle::with_capacity(5, 1);
    let mut view = RemoteView::new(Some(handle), 1, 80, 24);

    view.paste("\x7f".into(), false);
    view.paste("\x1b[A".into(), false);
    view.paste("\x1b]1337;SetMark\x07".into(), false);
    view.paste("line\nraw".into(), false);
    view.paste("line\ntext".into(), true);

    let session = view.session.as_mut().unwrap();
    for expected in ["\x7f", "\x1b[A", "\x1b]1337;SetMark\x07", "line\nraw"] {
        match received(session) {
            PumpCommand::Terminal(SessionCommand::Write(bytes)) => {
                assert_eq!(bytes, expected.as_bytes())
            }
            _ => panic!("unexpected command"),
        }
    }
    match received(session) {
        PumpCommand::Terminal(SessionCommand::Paste(text)) => assert_eq!(text, "line\ntext"),
        _ => panic!("unexpected command"),
    }
}

#[test]
fn selection_handoff_reserves_unread_replies_and_rejects_pressure() {
    let mut handle = SessionHandle::with_capacity(COMMAND_QUEUE_SIZE, 1);
    for _ in 0..EVENT_QUEUE_SIZE {
        assert!(handle.request_selection_text(ClipboardType::Selection, true).is_ok());
        let PumpCommand::SelectionText { target, copy_to_clipboard } = received(&mut handle) else {
            panic!("missing selection command")
        };
        handle.state.replies.push_back(SelectionReply {
            target,
            text: Some("retained".into()),
            copy_to_clipboard,
        });
        handle.selection_in_flight = false;
    }
    assert!(matches!(
        handle.request_selection_text(ClipboardType::Clipboard, false),
        Err(SessionError::Invalid(_))
    ));
    assert!(handle.error().unwrap().contains("selection reply handoff is full"));
    let retained = |reply: Option<SelectionReply>| {
        let reply = reply.unwrap();
        reply.target == ClipboardType::Selection
            && reply.text.as_deref() == Some("retained")
            && reply.copy_to_clipboard
    };
    assert!(retained(handle.take_selection_text()));
    assert!(handle.request_selection_text(ClipboardType::Clipboard, false).is_ok());
    for _ in 1..EVENT_QUEUE_SIZE {
        assert!(retained(handle.take_selection_text()));
    }
    assert!(handle.take_selection_text().is_none());
    assert_eq!(handle.state.outstanding, 1);
}

#[test]
fn rejected_selection_enqueue_does_not_reserve_reply_capacity() {
    let mut handle = SessionHandle::with_capacity(1, 1);
    assert!(handle.enqueue(SessionCommand::Snapshot).is_ok());
    assert!(handle.request_selection_text(ClipboardType::Clipboard, false).is_err());
    assert_eq!(handle.state.outstanding, 0);
    received(&mut handle);
    assert!(handle.request_selection_text(ClipboardType::Selection, true).is_ok());
    assert_eq!(handle.state.outstanding, 1);
}

#[test]
fn background_cells_keep_inline_background_and_styles_are_interned() {
    let bold = StyleFrame { flags: STYLE_BOLD, ..default_style() };
    let cells = vec![
        CellFrame { content: CellContentFrame::Palette(7), wide: 0, flags: 0 },
        CellFrame { content: CellContentFrame::Rgb { r: 1, g: 2, b: 3 }, wide: 0, flags: 0 },
        cell('a'),
        cell('b'),
    ];
    let styles = vec![default_style(), default_style(), default_style(), bold];
    let row = RowFrame {
        cells,
        styles,
        extras: vec![None, None, None, None],
        kitty_virtual_placeholder: false,
        text: "ab".into(),
    };
    let view = RemoteView::from_frame(frame(4, 1, vec![row]), 0);
    let first = &view.grid.rows[0].inner;
    assert_eq!(first[0].content_tag(), ContentTag::BgPalette);
    assert_eq!(first[0].content, SquareContent::BgPalette(7));
    assert_eq!(first[1].content_tag(), ContentTag::BgRgb);
    assert_eq!(first[1].content, SquareContent::BgRgb(1, 2, 3));
    assert_eq!(first[2].style_id, 0);
    assert_eq!(first[3].style_id, 1);
}

#[test]
fn passive_view_owns_the_published_frame_and_keeps_interaction_data() {
    let mut shown = row("x");
    shown.extras = vec![Some(linked("example", "https://example.com"))];
    shown.text = "x\u{301}".into();
    let mut view = RemoteView::new(None, 0, 1, 1);
    view.apply_frame(frame(1, 1, vec![shown])).unwrap();
    let mut content = RenderableContent::new(Cursor::default());
    view.decode_error = Some("visible renderer error".into());
    view.refresh_renderable(&mut content);

    let pos = Pos::new(0, 0);
    assert_eq!(view.grid.cell_text(pos).into_iter().collect::<String>(), "x\u{301}");
    assert!(view.grid.hyperlink(pos).is_some());
    assert_eq!(content.screen_lines, 1);
    assert_eq!(content.session_error.as_deref(), Some("visible renderer error"));
    assert_eq!(view.frame.as_ref().unwrap().rows[0].text, "x\u{301}");
}

#[test]
fn excessive_distinct_extras_are_reported_without_aliasing() {
    let columns = 1024usize;
    let mut rows = Vec::with_capacity(64);
    for row_index in 0..64 {
        let mut cells = Vec::with_capacity(columns);
        let mut styles = Vec::with_capacity(columns);
        let mut extras = Vec::with_capacity(columns);
        for column in 0..columns {
            let index = row_index * columns + column;
            cells.push(cell('x'));
            styles.push(default_style());
            extras.push(Some(ExtrasFrame {
                zero_width: vec![],
                hyperlink: Some(HyperlinkFrame {
                    id: index.to_string(),
                    uri: format!("https://{index}.invalid"),
                }),
            }));
        }
        rows.push(RowFrame {
            cells,
            styles,
            extras,
            kitty_virtual_placeholder: false,
            text: String::new(),
        });
    }
    let view = RemoteView::from_frame(frame(columns as u16, 64, rows), 0);
    assert!(view.decode_error.as_deref().is_some_and(|error| error.contains("extras")));
}

#[test]
fn published_frame_clears_recoverable_command_error() {
    let mut state = SessionState::new();
    let temporary = || SessionError::Invalid("temporary command failure".into());
    state.record_error(&temporary());
    state.publish_frame(frame(1, 1, vec![row("x")]));
    assert!(state.error().is_none());

    state.record_error(&temporary());
    assert!(state.publish_frame_update(FrameUpdate::Full(frame(2, 1, vec![row("y")]))));
    assert!(state.error().is_none());

    state.record_error(&temporary());
    assert!(state.publish_frame_update(FrameUpdate::Delta(delta(2, 1, 2, vec![]))));
    assert!(state.error().is_none());

    for sequence in 3..(FRAME_UPDATE_QUEUE_SIZE as u64 + 2) {
        assert!(state.publish_frame_update(FrameUpdate::Delta(delta(2, 1, sequence, vec![]))));
    }
    state.record_error(&SessionError::Invalid("retry needed".into()));
    assert!(!state.publish_frame_update(FrameUpdate::Delta(delta(
        2,
        1,
        FRAME_UPDATE_QUEUE_SIZE as u64 + 2,
        vec![]
    ))));
    assert!(state.error().is_some());

    state.take_frame_updates();
    state.fail(SessionError::Protocol("worker disconnected".into()));
    let failure = state.error();
    assert!(state.publish_frame_update(FrameUpdate::Delta(delta(2, 1, 2, vec![]))));
    state.record_error(&SessionError::Invalid("late command rejection".into()));
    state.publish_event(SessionEvent::Closed);
    assert_eq!(state.error(), failure);
}

#[test]
fn closed_session_preserves_its_final_diagnostic() {
    for initial_error in [None, Some("last command error")] {
        let mut state = SessionState::new();
        if let Some(error) = initial_error {
            state.record_error(&SessionError::Invalid(error.into()));
        }
        let diagnostic = state.error();
        state.publish_event(SessionEvent::Closed);
        state.record_error(&SessionError::Detached);
        assert!(state.publish_frame_update(FrameUpdate::Delta(delta(1, 1, 2, vec![]))));
        assert_eq!(state.error(), diagnostic);
    }
}

#[test]
fn first_published_frame_marks_session_as_started() {
    let mut state = SessionState::new();
    assert!(!state.had_frame());
    state.publish_frame(frame(1, 1, Vec::new()));
    assert!(state.had_frame());
    state.fail(SessionError::Protocol("worker disconnected".into()));
    assert!(state.had_frame());
}

#[test]
fn startup_failure_report_names_the_tab_failure() {
    let Notice::StartupFailure(message) =
        report_startup_failure(&SessionError::Invalid("socket closed".into()))
    else {
        panic!("startup failure must be an initialization error");
    };
    assert!(message.contains("could not open a new tab"), "unexpected message: {message}");
    assert!(message.contains("socket closed"), "unexpected message: {message}");
}

#[test]
fn a_repeated_event_takes_the_place_of_the_older_one() {
    let mut handle = SessionHandle::with_capacity(4, 1);
    handle.state.publish_event(SessionEvent::Title { title: "one".into() });
    handle.state.publish_event(SessionEvent::Bell);
    handle.state.publish_event(SessionEvent::Title { title: "two".into() });
    let events = handle.take_events();
    assert_eq!(events.len(), 2);
    assert!(matches!(&events[0], SessionEvent::Bell));
    assert!(matches!(&events[1], SessionEvent::Title { title } if title == "two"));
    assert!(handle.take_events().is_empty());
}

#[test]
fn requests_are_kept_when_the_event_queue_is_full() {
    let mut state = SessionState::new();
    for request_id in 0..EVENT_QUEUE_SIZE as u64 {
        state.publish_event(SessionEvent::ClipboardLoad { request_id, route_id: 1, kind: 0 });
    }
    assert!(state.error().is_none());
    state.publish_event(SessionEvent::ClipboardLoad { request_id: 99, route_id: 1, kind: 0 });
    assert!(state.error().unwrap().contains("session event handoff is full"));
    assert_eq!(state.events.len(), EVENT_QUEUE_SIZE);
}

#[test]
fn the_pump_drains_the_queue_before_it_closes() {
    let mut handle = SessionHandle::with_capacity(4, 1);
    assert!(handle.enqueue(SessionCommand::Write(b"x".to_vec())).is_ok());
    assert!(handle.request_selection_text(ClipboardType::Selection, true).is_ok());
    handle.close();
    let (mut pump, step) = SessionPump::start(PumpStartup::Snapshot, &mut handle);
    assert!(matches!(step.action, PumpAction::Snapshot));
    let snapshot = PumpInput::Frame(Ok(frame(1, 1, vec![row("a")])));
    let step = pump.step(&mut handle, snapshot, false);
    assert!(matches!(step.action, PumpAction::Command(SessionCommand::Write(_))));
    let step = pump.step(&mut handle, PumpInput::Reply(Ok(SessionReply::Accepted)), false);
    assert!(matches!(step.action, PumpAction::Command(SessionCommand::SelectionText)));
    let text = PumpInput::Reply(Ok(SessionReply::SelectionText(Some("s".into()))));
    let step = pump.step(&mut handle, text, false);
    assert!(matches!(step.action, PumpAction::Command(SessionCommand::Close)));
    let step = pump.step(&mut handle, PumpInput::Reply(Ok(SessionReply::Closed)), false);
    assert!(matches!(step.action, PumpAction::Stop));
    assert!(handle.pump_done());
    let reply = handle.take_selection_text().unwrap();
    assert_eq!(reply.text.as_deref(), Some("s"));
    assert_eq!(reply.target, ClipboardType::Selection);
    assert!(reply.copy_to_clipboard);
    assert!(matches!(
        handle.enqueue(SessionCommand::Snapshot),
        Err(SessionError::Detached)
    ));
}

#[test]
fn a_session_that_never_showed_anything_is_reported() {
    let mut handle = SessionHandle::with_capacity(4, 1);
    let (mut pump, _) = SessionPump::start(PumpStartup::Snapshot, &mut handle);
    let broken = PumpInput::Frame(Err(SessionError::WorkerExited));
    let step = pump.step(&mut handle, broken, false);
    assert!(matches!(step.action, PumpAction::Stop));
    assert!(matches!(
        step.notices.as_slice(),
        [Notice::StartupFailure(text), Notice::Render]
            if text == "could not open a new tab: session worker exited"
    ));
    assert_eq!(handle.error().as_deref(), Some("session worker exited"));
}

#[test]
fn an_abandoned_session_is_not_closed() {
    let mut handle = SessionHandle::with_capacity(4, 1);
    handle.abandon();
    let start = PumpStartup::Sequence(3);
    let (_, step) = SessionPump::start(start, &mut handle);
    assert!(matches!(step.action, PumpAction::Stop));
    assert!(handle.pump_done());
}

#[test]
fn numbers_stand_for_shapes_and_colors() {
    assert_eq!(cursor_shape(0), CursorShape::Block);
    assert_eq!(cursor_shape(1), CursorShape::Underline);
    assert_eq!(cursor_shape(2), CursorShape::Beam);
    assert_eq!(cursor_shape(3), CursorShape::Hidden);
    assert_eq!(named_color(0), NamedColor::Black);
    assert_eq!(named_color(NamedColor::DimForeground.index() as u16), NamedColor::DimForeground);
    assert_eq!(named_color(9_999), NamedColor::Foreground);
}

#[test]
fn damage_merges_to_the_greater() {
    assert_eq!(TerminalDamage::Noop.merge(TerminalDamage::Partial), TerminalDamage::Partial);
    assert_eq!(TerminalDamage::Full.merge(TerminalDamage::CursorOnly), TerminalDamage::Full);
    assert_eq!(
        TerminalDamage::CursorOnly.merge(TerminalDamage::Noop),
        TerminalDamage::CursorOnly
    );
}

#[test]
fn render_buffers_come_back_as_they_went() {
    let mut view = RemoteView::from_frame(frame(2, 1, vec![row("ab")]), 0);
    let buffers = view.grid.take_render_buffers();
    assert!(view.grid.rows.is_empty());
    view.grid.restore_render_buffers(buffers);
    assert_eq!(view.grid.rows[0].inner[1].c(), 'b');
}

#[test]
fn a_closed_handle_admits_nothing_and_says_so() {
    let mut full = SessionHandle::with_capacity(1, 1);
    assert!(full.enqueue(SessionCommand::SelectAll).is_ok());
    assert!(matches!(
        full.enqueue(SessionCommand::SelectAll),
        Err(SessionError::Invalid(text)) if text == "session command queue is full"
    ));
    let mut dead = SessionHandle::disconnected_with_error(SessionError::Io("no".into()));
    assert!(dead.error().is_some());
    assert!(matches!(dead.enqueue(SessionCommand::SelectAll), Err(_)));
    assert!(matches!(
        SessionHandle::with_capacity(1, 1).enqueue(SessionCommand::SelectionText),
        Err(SessionError::Invalid(_))
    ));
}

fn live_view() -> RemoteView {
    let mut view = RemoteView::from_frame(frame(2, 3, vec![row("ab"), row("cd"), row("ef")]), 0);
    view.install_session(SessionHandle::with_capacity(COMMAND_QUEUE_SIZE, 1));
    view
}

fn issued(view: &mut RemoteView) -> Option<SessionCommand> {
    match view.session.as_mut().unwrap().next_command() {
        Received::Command(PumpCommand::Terminal(command)) => Some(command),
        _ => None,
    }
}

#[test]
fn what_is_done_to_a_view_reaches_its_session() {
    let mut view = live_view();
    view.scroll_display(Scroll::PageDown);
    assert!(matches!(issued(&mut view), Some(SessionCommand::Scroll { delta_lines: -3 })));
    view.scroll_display(Scroll::Top);
    assert!(matches!(issued(&mut view), Some(SessionCommand::ScrollTop)));
    view.set_cursor_style(CursorShape::Beam, true);
    assert!(matches!(
        issued(&mut view),
        Some(SessionCommand::SetCursorStyle { shape: 2, blinking: true })
    ));
    view.mouse_button(Pos::new(1, 0), 2, true, 4);
    assert!(matches!(
        issued(&mut view),
        Some(SessionCommand::MouseButton {
            column: 0,
            line: 1,
            button: 2,
            pressed: true,
            modifiers: 4,
        })
    ));
    // A cell above the screen is none.
    view.mouse_button(Pos::new(-1, 0), 2, true, 4);
    view.mouse_wheel(3, Pos::new(0, 70_000), 0);
    assert!(issued(&mut view).is_none());
    view.selection_begin(SelectionType::Semantic, Pos::new(-2, 1), Side::Right);
    assert!(matches!(
        issued(&mut view),
        Some(SessionCommand::SelectionBegin {
            line: -2,
            column: 1,
            kind: SelectionKind::Word,
            side: Side::Right,
        })
    ));
    view.vi_goto_pos(Pos::new(5, 65_537));
    assert!(matches!(issued(&mut view), Some(SessionCommand::ViGoto { line: 5, column: 1 })));
    view.detach_session();
    view.select_all();
    assert!(view.session().is_none());
}

#[test]
fn a_search_goes_on_until_it_is_cancelled() {
    let mut view = live_view();
    let begin = |view: &mut RemoteView, col: usize| {
        let origin = Pos::new(1, col);
        view.begin_search("ab".into(), origin, SearchDirection::Forward, Side::Left, Some(50));
    };
    view.next_search();
    begin(&mut view, 70_000);
    assert!(!view.is_search_active());
    assert!(issued(&mut view).is_none());
    begin(&mut view, 1);
    assert!(view.is_search_active());
    assert!(matches!(
        issued(&mut view),
        Some(SessionCommand::SearchBegin {
            pattern,
            origin_line: 1,
            origin_column: 1,
            origin_display_offset: 0,
            max_lines: Some(50),
            ..
        }) if pattern == "ab"
    ));
    begin(&mut view, 0);
    assert!(matches!(issued(&mut view), Some(SessionCommand::SearchNext)));
    let found = SearchNavigation { line: 2, column: 0, found: true };
    view.search_navigation = Some(found);
    assert_eq!(view.take_search_navigation(), Some(found));
    assert_eq!(view.take_search_navigation(), None);
    view.cancel_search();
    assert!(matches!(issued(&mut view), Some(SessionCommand::SearchCancel)));
    assert!(!view.is_search_active());
    view.cancel_search();
    assert!(issued(&mut view).is_none());
}

#[test]
fn a_session_is_closed_once() {
    let mut handle = SessionHandle::with_capacity(4, 1);
    handle.close();
    handle.close();
    let (mut pump, _) = SessionPump::start(PumpStartup::Snapshot, &mut handle);
    let snapshot = PumpInput::Frame(Ok(frame(1, 1, vec![row("a")])));
    let step = pump.step(&mut handle, snapshot, false);
    assert!(matches!(step.action, PumpAction::Command(SessionCommand::Close)));
    let step = pump.step(&mut handle, PumpInput::Reply(Ok(SessionReply::Accepted)), false);
    assert!(matches!(step.action, PumpAction::Stop));
    assert!(handle.pump_done());
}
