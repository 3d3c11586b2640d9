use rioterm::application::drag::{
    DeferredTabDragClose, OwnerRoute, TabDrag, TabDragEvent, TabDragLifecycle,
};
use rioterm::application::import::{check_prepared_route, commit_prepared_route, IncomingCommit};
use rioterm::application::outbox::{Effect, Response, WindowEndpoint, WindowFacts};
use rioterm::application::pointer::MouseButton;
use rioterm::application::recovery::RecoveryProbeResult;
use rioterm::application::state::{
    Application, PendingOutgoing, PendingPreparedCompletion, PendingPreparedRoute,
};
use rioterm::application::windows::{Routed, WindowEventKind};
use rioterm::context::handover::TransferOffer;
use rioterm::context::manager::{ContextManager, ContextManagerConfig, Shell, Spawned};
use rioterm::context::pane::{ContextDimension, IdSource, LayoutRect};
use rioterm::context::protocol::{
    CellContentFrame, CellFrame, ColorFrame, CursorFrame, FullFrame, GraphicsFrame, RowFrame,
    SessionDescriptor, SessionError, StyleFrame,
};
use rioterm::context::pump::PreparedSession;
use rioterm::context::session::SessionHandle;
use rioterm::context::tab::{PaneOffer, TabOffer};

fn config() -> ContextManagerConfig {
    ContextManagerConfig {
        shell: Shell { program: None, args: Vec::new() },
        working_dir: None,
        cwd: false,
        is_native: false,
        should_update_title_extra: false,
        title_template: String::new(),
        scrollback_history_limit: 10_000,
        grapheme_clustering: false,
        closes_last_tab: false,
    }
}

fn started(capacity: usize, tabs: usize, ids: &mut IdSource) -> ContextManager {
    let mut manager = ContextManager::start_with_capacity(capacity, 1, config(), ids);
    for _ in 1..tabs {
        let plan = manager.plan_context(ContextDimension::default()).unwrap();
        manager.add_context(true, 0, &plan, Spawned::Dead, ids);
    }
    manager
}

/// A frame of one cell, which claims to have so many lines.
fn frame(lines: u16) -> FullFrame {
    let style = StyleFrame {
        foreground: ColorFrame::Named(256),
        background: ColorFrame::Named(257),
        underline: None,
        flags: 0,
    };
    let cell = CellFrame { content: CellContentFrame::Codepoint(97), wide: 0, flags: 0 };
    FullFrame {
        sequence: 4,
        columns: 1,
        lines,
        rows: vec![RowFrame {
            styles: vec![style],
            extras: vec![None],
            cells: vec![cell],
            kitty_virtual_placeholder: false,
            text: "a".into(),
        }],
        display_offset: 0,
        history_size: 0,
        lines_evicted: 0,
        alternate_screen: false,
        modes: 0,
        cursor: CursorFrame { line: 0, column: 0, visible: true, blinking: false, shape: 0 },
        selection: None,
        colors: vec![None; 269],
        graphics: GraphicsFrame::empty(),
        title: "vi".into(),
        working_dir: None,
    }
}

fn prepared(attachment: u64) -> PreparedSession {
    PreparedSession::prepare_attach(attachment, &frame(1), false)
}

fn window(id: u64, palette_open: bool) -> WindowFacts {
    WindowFacts {
        id,
        terminal: true,
        tabs: 1,
        capacity: 4,
        current_index: 0,
        current_tab: 10 * id,
        current_route: 100 + id as usize,
        palette_open,
    }
}

fn descriptor(session_id: u128) -> SessionDescriptor {
    SessionDescriptor { session_id, endpoint: 6 }
}

fn offer(routes: &[u64]) -> TransferOffer {
    TransferOffer {
        transfer_id: 9,
        panes: routes
            .iter()
            .map(|route| PaneOffer {
                route_id: *route,
                session: descriptor(*route as u128),
                layout_rect: LayoutRect { x: 0, y: 0, width: 0, height: 0 },
            })
            .collect(),
        tabs: routes
            .iter()
            .map(|route| TabOffer {
                routes: vec![*route],
                active_route: *route,
                rebuildable: true,
            })
            .collect(),
        active_pane: 0,
    }
}

#[test]
fn probes_make_the_list_of_saved_sessions() {
    let windows = vec![window(1, true)];
    let mut app = Application::new();
    assert!(app.begin_recovery_action(
        &windows,
        1,
        &vec![descriptor(5), descriptor(6)],
        &Vec::new()
    ));
    app.take_effects();
    let result = |id: u64, found: Result<PreparedSession, String>, session: u128| {
        RecoveryProbeResult {
            id,
            source_window: 1,
            prepared: found,
            descriptor: Some(descriptor(session)),
        }
    };
    // A result of an earlier probe does not count.
    assert!(app.take_probe_result(&windows, result(7, Ok(prepared(1)), 5)).is_none());
    assert_eq!(app.recovery_probe_state.as_ref().unwrap().remaining, 2);
    assert!(app.take_probe_result(&windows, result(1, Ok(prepared(1)), 5)).is_none());
    assert!(app.recovery_targets.is_none());
    assert!(app.take_probe_result(&windows, result(1, Err("gone".into()), 6)).is_none());
    assert!(app.recovery_probe_state.is_none());
    assert_eq!(app.recovery_targets.as_ref().unwrap().1.len(), 1);
    assert!(matches!(
        app.take_effects().as_slice(),
        [Effect::RecoveryTargets(1, lines)] if lines[0] == "Recover \"vi\""
    ));

    // The pick comes back under the number zero.
    let picked = app.take_probe_result(&windows, result(0, Ok(prepared(3)), 5)).unwrap();
    assert_eq!(picked.attachment, 3);
    assert!(app.take_probe_result(&Vec::new(), result(0, Ok(prepared(3)), 5)).is_none());
    assert!(app.take_probe_result(&windows, result(0, Err("lost".into()), 5)).is_none());
    assert!(matches!(
        app.take_effects().as_slice(),
        [Effect::ShowError(1, 101, text)] if text == "lost"
    ));
}

#[test]
fn probes_without_a_session_are_reported() {
    let windows = vec![window(1, true)];
    let mut app = Application::new();
    app.begin_recovery_action(&windows, 1, &vec![descriptor(5)], &Vec::new());
    app.take_effects();
    let failed = RecoveryProbeResult {
        id: 1,
        source_window: 1,
        prepared: Err("gone".into()),
        descriptor: None,
    };
    assert!(app.take_probe_result(&windows, failed).is_none());
    assert!(matches!(
        app.take_effects().as_slice(),
        [Effect::ShowError(1, 101, text), Effect::ClearMergeUi(1)]
            if text == "no recoverable sessions could be prepared"
    ));
}

#[test]
fn a_recovered_session_gets_a_tab_of_its_own() {
    let mut ids = IdSource::new();
    let mut manager = started(2, 1, &mut ids);
    let mut app = Application::new();
    let next = ids.next_route;
    assert!(app.start_recovery_import(&mut manager, 1, prepared(3), 1_000, &mut ids).is_ok());
    assert_eq!(manager.len(), 2);
    assert_eq!(manager.current_route(), next);
    assert_eq!(manager.current().pending_session.as_ref().unwrap().attachment, 3);
    assert_eq!(manager.current().terminal.title, "vi");
    assert_eq!(app.pending_prepared[0].deadline, 26_000);
    assert_eq!(app.pending_prepared[0].completion, PendingPreparedCompletion::Recovery);
    assert!(matches!(
        app.take_effects().as_slice(),
        [Effect::Refresh(1), Effect::Redraw(1), Effect::Wake(1)]
    ));
    let full = app.start_recovery_import(&mut manager, 1, prepared(4), 1_000, &mut ids);
    assert_eq!(full.unwrap_err(), "target context capacity is full");
    assert_eq!(manager.len(), 2);

    // It is removed again where its session cannot be had.
    app.commit_ready_recovery(&mut manager, 1, next, Err("lost".into()));
    assert_eq!(manager.len(), 1);
    assert!(matches!(
        app.take_effects().last(),
        Some(Effect::ShowError(1, route, text)) if *route == next && text == "lost"
    ));
}

#[test]
fn panes_of_another_program_come_in() {
    let mut ids = IdSource::new();
    let mut manager = started(3, 1, &mut ids);
    let mut app = Application::new();
    let none: Result<Vec<PreparedSession>, String> = Err("no worker".into());
    app.install_incoming_transfer(&mut manager, 1, offer(&[11]), none, 5, None, 0, &mut ids);
    assert!(matches!(
        app.take_effects().as_slice(),
        [Effect::Reply(5, Response::Rejected(text))] if text == "no worker"
    ));
    let four = offer(&[11, 22, 33, 44]);
    let sessions = (0..4).map(prepared).collect();
    app.install_incoming_transfer(&mut manager, 1, four, Ok(sessions), 5, None, 0, &mut ids);
    assert!(matches!(
        app.take_effects().as_slice(),
        [Effect::Reply(5, Response::Rejected(text))]
            if text == "target context capacity or insertion index is invalid"
    ));
    assert_eq!(manager.len(), 1);

    let next = ids.next_route;
    let sessions = (0..2).map(prepared).collect();
    let two = offer(&[11, 22]);
    app.install_incoming_transfer(&mut manager, 1, two, Ok(sessions), 5, Some(0), 100, &mut ids);
    assert_eq!(manager.len(), 3);
    assert_eq!(manager.current_route(), next);
    assert_eq!(
        app.pending_prepared[0].routes,
        [
            PendingPreparedRoute { source_route: Some(11), target_route: next },
            PendingPreparedRoute { source_route: Some(22), target_route: next + 1 },
        ]
    );
    assert!(matches!(
        app.take_effects().as_slice(),
        [Effect::Refresh(1), Effect::Redraw(1), Effect::Wake(1)]
    ));
}

#[test]
fn panes_without_a_window_are_refused() {
    let mut app = Application::new();
    let windows = vec![window(3, false)];
    let sessions: Result<Vec<PreparedSession>, String> = Ok(vec![prepared(0)]);
    let none: Result<Vec<PreparedSession>, String> = Err("no worker".into());
    assert_eq!(app.receive_incoming(&windows, Some(3), None, &none, 5), Some(3));
    assert_eq!(app.receive_incoming(&windows, None, None, &sessions, 5), Some(3));
    assert!(app.take_effects().is_empty());

    assert_eq!(app.receive_incoming(&windows, Some(4), Some(3), &none, 5), None);
    assert!(matches!(
        app.take_effects().as_slice(),
        [Effect::Reply(5, Response::Rejected(text))] if text == "target has no terminal window"
    ));
    assert_eq!(app.receive_incoming(&vec![], None, None, &sessions, 5), None);
    assert!(matches!(
        app.take_effects().as_slice(),
        [Effect::Reply(5, Response::Rejected(text))] if text == "target has no terminal window"
    ));
    assert_eq!(app.receive_incoming(&windows, None, Some(9), &sessions, 6), None);
    assert!(matches!(
        app.take_effects().as_slice(),
        [Effect::Reply(6, Response::Rejected(text))] if text == "target route disappeared"
    ));
    assert_eq!(app.receive_incoming(&windows, None, Some(9), &none, 6), None);
    assert!(matches!(
        app.take_effects().as_slice(),
        [Effect::Reply(6, Response::Rejected(text))] if text == "no worker"
    ));
}

#[test]
fn panes_that_expire_without_a_window_are_answered() {
    let mut ids = IdSource::new();
    let mut manager = started(3, 1, &mut ids);
    let mut app = Application::new();
    let sessions = vec![prepared(0)];
    app.install_incoming_transfer(&mut manager, 1, offer(&[11]), Ok(sessions), 5, None, 0, &mut ids);
    app.take_effects();
    let expired = app.expire_pending_prepared(25_000);
    assert_eq!(expired.len(), 1);
    app.drop_expired_without_window(&expired[0]);
    assert!(matches!(
        app.take_effects().as_slice(),
        [Effect::Reply(5, Response::Rejected(text))] if text == "target renderer readiness timed out"
    ));
}

#[test]
fn a_shown_pane_takes_its_session_over() {
    let mut ids = IdSource::new();
    let mut manager = started(3, 1, &mut ids);
    let mut app = Application::new();
    app.start_recovery_import(&mut manager, 1, prepared(3), 0, &mut ids).unwrap();
    let route = manager.current_route();
    assert_eq!(manager.current().pending_commit(), Some((3, 4)));
    assert_eq!(check_prepared_route(&mut manager, route, "recovered"), None);
    assert_eq!(
        check_prepared_route(&mut manager, 99_999, "transferred").as_deref(),
        Some("transferred target route disappeared")
    );
    let session = SessionHandle::with_capacity(4, 1);
    assert!(commit_prepared_route(&mut manager, route, Ok(session)).is_ok());
    assert!(manager.current().pending_session.is_none());
    assert!(manager.current().terminal.session().is_some());

    app.start_recovery_import(&mut manager, 1, prepared(4), 0, &mut ids).unwrap();
    let route = manager.current_route();
    let lost = commit_prepared_route(&mut manager, route, Err(SessionError::WorkerExited));
    assert_eq!(lost.unwrap_err(), "session worker exited");
}

#[test]
fn a_pane_that_cannot_be_shown_is_not_committed() {
    let mut ids = IdSource::new();
    let mut manager = started(3, 1, &mut ids);
    let mut app = Application::new();
    let broken = PreparedSession::prepare_attach(3, &frame(2), false);
    app.start_recovery_import(&mut manager, 1, broken, 0, &mut ids).unwrap();
    let route = manager.current_route();
    assert_eq!(
        check_prepared_route(&mut manager, route, "incoming").as_deref(),
        Some(
            "cannot decode incoming session frame: \
             passive frame row count does not match its dimensions"
        )
    );
}

#[test]
fn what_was_not_committed_leaves_the_window() {
    let mut ids = IdSource::new();
    let mut manager = started(4, 1, &mut ids);
    let mut app = Application::new();
    let next = ids.next_route;
    let sessions = (0..2).map(prepared).collect();
    let two = offer(&[11, 22]);
    app.install_incoming_transfer(&mut manager, 1, two, Ok(sessions), 5, None, 0, &mut ids);
    app.take_effects();
    let routes = vec![
        PendingPreparedRoute { source_route: Some(11), target_route: next },
        PendingPreparedRoute { source_route: Some(22), target_route: next + 1 },
    ];
    let mut commit = IncomingCommit::start(5, routes);
    commit.record(Ok(()));
    commit.record(Err("worker exited".into()));
    app.commit_ready_incoming(&mut manager, 1, &commit);
    assert_eq!(manager.len(), 2);
    assert!(manager.get_by_route_id(next).is_some());
    assert!(manager.get_by_route_id(next + 1).is_none());
    assert!(matches!(
        app.take_effects().last(),
        Some(Effect::Reply(5, Response::Committed(done))) if *done == [11]
    ));
    app.refuse_incoming(6);
    assert!(matches!(
        app.take_effects().as_slice(),
        [Effect::Reply(6, Response::Rejected(text))]
            if text == "target window disappeared before commit"
    ));
}

#[test]
fn what_another_program_took_leaves_the_window() {
    let mut ids = IdSource::new();
    let mut manager = started(3, 2, &mut ids);
    let windows = vec![window(1, false)];
    let here = manager.current_route();
    manager.set_current(0);
    let other = manager.current_route();
    let mut app = Application::new();
    let waiting = |routes: Vec<u64>| PendingOutgoing {
        transfer_id: 9,
        source_window: 1,
        source_routes: routes,
    };
    app.pending_outgoing.push(waiting(vec![here as u64]));
    assert!(app.finish_outgoing_transfer(&windows, 8, Ok(vec![here as u64])).is_none());
    let (from, routes, told) =
        app.finish_outgoing_transfer(&windows, 9, Ok(vec![here as u64])).unwrap();
    assert_eq!((from, routes.clone()), (1, vec![here]));
    assert!(matches!(told, TabDragEvent::ForeignCommitted(9)));
    assert!(app.pending_outgoing.is_empty());
    app.apply_outgoing_transfer(&mut manager, from, routes);
    assert_eq!(manager.len(), 1);
    assert!(!app.exit_after_transfer);

    // An answer that cannot be right is shown.
    app.take_effects();
    app.pending_outgoing.push(waiting(vec![other as u64]));
    assert!(app.finish_outgoing_transfer(&windows, 9, Ok(vec![77])).is_none());
    assert!(matches!(
        app.take_effects().as_slice(),
        [Effect::ShowError(1, 101, text)]
            if text == "target committed a route not included in the offer: 77"
    ));
    app.apply_outgoing_transfer(&mut manager, 1, vec![other]);
    assert!(manager.is_empty());
    assert!(app.exit_after_transfer);
    assert!(app.may_exit_after_transfer(0, 0, false));
}

#[test]
fn a_dragged_window_takes_no_input_and_is_closed_later() {
    let windows = vec![window(1, false), window(2, false)];
    let mut app = Application::new();
    app.tab_drag = Some(TabDrag {
        source_window: 1,
        tab_id: 23,
        original_index: 0,
        tab_count: 1,
        whole_window: true,
        token: 77,
        drag_id: Some(7),
        owner: Some(OwnerRoute { window_id: 1, tab_id: 23, route_ids: vec![4] }),
        hover: None,
        lifecycle: TabDragLifecycle::Active,
        frame_grab: None,
    });
    let press = WindowEventKind::MouseInput(true, MouseButton::Left);
    assert_eq!(app.window_event(&windows, 1, press), Routed::Swallowed);
    assert_eq!(
        app.window_event(&windows, 1, WindowEventKind::KeyboardInput(false, false)),
        Routed::Swallowed
    );
    for _ in 0..2 {
        assert_eq!(
            app.window_event(&windows, 1, WindowEventKind::CloseRequested),
            Routed::Swallowed
        );
    }
    assert_eq!(app.deferred_tab_drag_closes, [DeferredTabDragClose::Window(1)]);
    assert_eq!(app.window_event(&windows, 2, press), Routed::Deliver);
    assert_eq!(app.window_event(&windows, 2, WindowEventKind::CloseRequested), Routed::Close);
    assert_eq!(app.window_event(&windows, 3, press), Routed::Gone);
    let empty = vec![WindowFacts { tabs: 0, ..window(2, false) }];
    assert_eq!(app.window_event(&empty, 2, press), Routed::Empty);
}

#[test]
fn a_merge_that_waits_too_long_is_given_up() {
    let windows = vec![window(5, false)];
    let source = WindowEndpoint { instance: 9, native_window_id: 40 };
    let mut app = Application::new();
    app.control = Some(WindowEndpoint { instance: 1, native_window_id: 5 });
    app.handle_arm_selection(&windows, 5, 77, source, 3, 1_000);
    app.take_effects();
    let armed = app.armed_merge_selection.as_ref().unwrap().deadline;
    app.expire_merge_selection(armed - 1);
    assert!(app.armed_merge_selection.is_some());
    app.expire_merge_selection(armed);
    assert!(app.armed_merge_selection.is_none());

    app.handle_arm_selection(&windows, 5, 78, source, 4, 1_000);
    app.handle_cancel_selection(5, 79);
    assert!(app.armed_merge_selection.is_some());
    app.handle_cancel_selection(5, 78);
    assert!(app.armed_merge_selection.is_none());
}

#[test]
fn a_pointer_that_leaves_takes_its_mark_along() {
    let windows = vec![window(1, false), window(2, false)];
    let mut app = Application::new();
    app.arm_merge_source(&windows, 1);
    app.update_merge_target(&windows, 2, Some(1));
    assert_eq!(app.merge_target, Some((2, 1)));
    assert!(!app.cursor_left(1, true, true, false));
    assert_eq!(app.merge_target, Some((2, 1)));
    assert!(app.cursor_left(2, true, true, true));
    assert_eq!(app.merge_target, None);
    assert_eq!(app.merge_window_source, Some(1));
}

#[test]
fn menu_keys_go_to_the_focused_window() {
    let windows = vec![window(1, false)];
    let app = Application::new();
    assert_eq!(app.takes_menu_key(&windows, Some(1)), Some(1));
    assert_eq!(app.takes_menu_key(&windows, Some(2)), None);
    assert_eq!(app.takes_menu_key(&windows, None), None);
}
