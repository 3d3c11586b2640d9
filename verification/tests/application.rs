use rioterm::application::carry::{DragPlan, DragRequest, DragRun, TabDragCommand};
use rioterm::application::closing::{ExitGate, ExitStep};
use rioterm::application::control::{ControlEvent, ControlTask};
use rioterm::application::drag::{
    deferred_window_close, is_valid_tab_drag_target, pointer_outside_surface, Aftermath,
    DeferredTabDragClose, DragNext, Hover, Outcome, OwnerRoute, TabDrag, TabDragEvent,
    TabDragLifecycle, ToplevelDragEvent,
};
use rioterm::application::foreign::{token_from, ForeignRequest};
use rioterm::application::import::{find_incoming_window, IncomingCommit};
use rioterm::application::merge::{
    merge_target_index_is_valid, ArmedInput, MergeHoverState, MERGE_SELECTION_TIMEOUT,
};
use rioterm::application::outbox::{Effect, Response, WindowEndpoint, WindowFacts};
use rioterm::application::pointer::MouseButton;
use rioterm::application::run::{
    new_events, open_urls, quake_position, toggle_quake_window, toggled_theme,
    update_config, AppearanceTheme, ConfigAction, DetachPlan, OpenAddress, QuakeStep, StartAction, StartCause,
    StartFacts,
};
use rioterm::application::state::{
    Application, PendingPrepared, PendingPreparedCompletion, PendingPreparedRoute,
    RecoveryCandidate,
};
use rioterm::application::transfer::{
    current_route_if_contexts_remain, transfer_exit_ready, transfer_tab_to_target,
    validate_committed_routes,
};
use rioterm::application::windows::{
    key_pressed, resized, skip_window_event, Routed, Visibility, WindowAction, WindowEventKind,
};
use rioterm::context::manager::{ContextManager, ContextManagerConfig, Shell, Spawned};
use rioterm::context::pane::{ContextDimension, IdSource};
use rioterm::context::protocol::SessionDescriptor;
use rioterm::renderer::frame::WindowOverlay;

fn config() -> ContextManagerConfig {
    ContextManagerConfig {
        shell: Shell { program: None, args: Vec::new() },
        working_dir: None,
        cwd: false,
        is_native: false,
        should_update_title_extra: false,
        title_template: String::new(),
        scrollback_history_limit: 10_000,
        grapheme_clustering: false,
        closes_last_tab: false,
    }
}

fn window(id: u64, tabs: usize) -> WindowFacts {
    WindowFacts {
        id,
        terminal: true,
        tabs,
        capacity: 4,
        current_index: 0,
        current_tab: 10 * id,
        current_route: 100 + id as usize,
        palette_open: false,
    }
}

fn drag(source_window: u64) -> TabDrag {
    TabDrag {
        source_window,
        tab_id: 23,
        original_index: 1,
        tab_count: 3,
        whole_window: false,
        token: 77,
        drag_id: Some(7),
        owner: Some(OwnerRoute { window_id: source_window, tab_id: 23, route_ids: vec![4, 9] }),
        hover: None,
        lifecycle: TabDragLifecycle::Active,
        frame_grab: None,
    }
}

#[test]
fn committed_routes_must_be_offered_unique_and_nonempty() {
    assert_eq!(validate_committed_routes(&[11, 22], vec![22]).unwrap(), vec![22]);
    assert!(validate_committed_routes(&[11, 22], vec![]).is_err());
    assert!(validate_committed_routes(&[11, 22], vec![33]).is_err());
    assert!(validate_committed_routes(&[11, 22], vec![11, 11]).is_err());
}

#[test]
fn committed_routes_reject_large_unknown_ids() {
    assert!(validate_committed_routes(&[11, 22], vec![u64::MAX]).is_err());
}

#[test]
fn a_wrong_commit_says_what_is_wrong() {
    assert_eq!(
        validate_committed_routes(&[11], vec![]).unwrap_err(),
        "target committed no source routes"
    );
    assert_eq!(
        validate_committed_routes(&[11], vec![11, 33]).unwrap_err(),
        "target committed a route not included in the offer: 33"
    );
    assert_eq!(
        validate_committed_routes(&[11], vec![11, 11, 33]).unwrap_err(),
        "target committed route more than once: 11"
    );
}

#[test]
fn empty_transfer_target_has_no_route_to_redraw() {
    let mut ids = IdSource::new();
    let mut manager = ContextManager::start_with_capacity(1, 0, config(), &mut ids);
    assert_eq!(current_route_if_contexts_remain(&manager), Some(manager.current_route()));
    manager.extract_grid(0).unwrap();
    assert_eq!(current_route_if_contexts_remain(&manager), None);
}

#[test]
fn arm_starts_unhighlighted_and_click_requires_hover() {
    let mut hover = MergeHoverState::default();
    assert_eq!(hover.clicked_index(), None);

    hover.set(2);
    assert_eq!(hover.clicked_index(), Some(2));

    hover.clear();
    assert_eq!(hover.clicked_index(), None);
}

#[test]
fn native_target_accepts_beginning_middle_end_and_rejects_stale() {
    for index in 0..=2 {
        assert!(merge_target_index_is_valid(index, 2, true));
    }
    assert!(!merge_target_index_is_valid(3, 2, true));
    assert!(!merge_target_index_is_valid(2, 2, false));
}

#[test]
fn implicit_grab_motion_detects_exit_before_clamping() {
    assert!(!pointer_outside_surface(799, 20, 800, 490));
    assert!(pointer_outside_surface(900, 20, 800, 490));
    assert!(pointer_outside_surface(-1, 20, 800, 490));
    assert!(pointer_outside_surface(400, -1, 800, 490));
    assert!(pointer_outside_surface(400, 490, 800, 490));
}

#[test]
fn transferred_gui_exits_only_after_windows_and_preparations_are_gone() {
    assert!(transfer_exit_ready(true, 0, 0, false));
    assert!(!transfer_exit_ready(false, 0, 0, false));
    assert!(!transfer_exit_ready(true, 1, 0, false));
    assert!(!transfer_exit_ready(true, 0, 1, false));
    assert!(!transfer_exit_ready(true, 0, 0, true));
}

#[test]
fn close_deferral_matches_source_and_target_only() {
    let mut state = drag(11);
    assert_eq!(
        deferred_window_close(&state, 11),
        Some(DeferredTabDragClose::Window(11))
    );
    assert_eq!(deferred_window_close(&state, 44), None);
    assert!(!is_valid_tab_drag_target(&state, 11));
    assert!(is_valid_tab_drag_target(&state, 44));

    state.hover = Some(Hover { offer_id: 3, target_window: 22, index: 0, dropped: false });
    assert_eq!(
        deferred_window_close(&state, 22),
        Some(DeferredTabDragClose::Window(22))
    );
}

#[test]
fn a_merge_is_given_up_with_all_its_marks() {
    let windows = vec![window(1, 2), window(2, 1)];
    let mut app = Application::new();
    assert!(app.arm_merge_source(&windows, 1));
    app.update_merge_target(&windows, 2, None);
    assert_eq!(app.merge_target, Some((2, 1)));
    assert_eq!(app.drop_marker_window, Some(2));
    app.take_effects();
    app.clear_merge_window();
    assert_eq!(app.merge_window_source, None);
    assert_eq!(app.merge_target, None);
    assert_eq!(app.drop_marker_window, None);
    assert!(!app.merge_state_uses_window(1));
    assert!(!app.merge_state_uses_window(2));
    let effects = app.take_effects();
    assert!(matches!(
        effects.as_slice(),
        [
            Effect::DrainProbes,
            Effect::ClearSourceMarker(1),
            Effect::Overlay(1, None),
            Effect::Overlay(2, None),
            Effect::ClearDropMarker(2),
            Effect::ClearMergeUi(1),
        ]
    ));
}

#[test]
fn a_full_window_is_no_merge_target() {
    let windows = vec![window(1, 2), window(2, 4)];
    let mut app = Application::new();
    app.arm_merge_source(&windows, 1);
    app.update_merge_target(&windows, 2, Some(0));
    assert_eq!(app.merge_target, None);
    app.update_merge_target(&windows, 1, Some(0));
    assert_eq!(app.merge_target, None);
}

#[test]
fn a_click_merges_into_the_window_under_the_pointer() {
    let windows = vec![window(1, 2), window(2, 1)];
    let mut app = Application::new();
    app.arm_merge_source(&windows, 1);
    assert_eq!(
        app.window_event(&windows, 2, WindowEventKind::CursorMoved(Some(0))),
        Routed::Deliver
    );
    assert_eq!(
        app.window_event(&windows, 2, WindowEventKind::MouseInput(true, MouseButton::Left)),
        Routed::MergeInto(1, Some(0))
    );
    assert_eq!(app.merge_window_source, None);
}

#[test]
fn an_armed_window_tells_where_the_pointer_is() {
    let windows = vec![window(5, 2)];
    let source = WindowEndpoint { instance: 9, native_window_id: 40 };
    let mut app = Application::new();
    app.control = Some(WindowEndpoint { instance: 1, native_window_id: 5 });
    app.handle_arm_selection(&windows, 5, 77, source, 3, 1_000);
    let effects = app.take_effects();
    assert!(matches!(effects.as_slice(), [Effect::Reply(3, Response::SelectionArmed)]));

    // A click counts only behind a position that the pointer is over.
    assert!(app.handle_armed_merge_window_event(&windows, 5, ArmedInput::LeftPress));
    assert!(app.take_effects().is_empty());
    assert!(app.handle_armed_merge_window_event(&windows, 5, ArmedInput::Moved(Some(1))));
    let effects = app.take_effects();
    assert!(matches!(
        effects.as_slice(),
        [
            Effect::Overlay(5, Some(WindowOverlay::MergeTarget)),
            Effect::DropMarker(5, 1),
            Effect::SendSelection(_, 77, 1, false),
        ]
    ));
    assert!(app.handle_armed_merge_window_event(&windows, 5, ArmedInput::LeftPress));
    let effects = app.take_effects();
    assert!(matches!(effects[0], Effect::SendSelection(to, 77, 1, true) if to == source));
    assert!(app.armed_merge_selection.is_none());

    // The same program cannot be the source, and only one can.
    app.handle_arm_selection(
        &windows,
        5,
        78,
        WindowEndpoint { instance: 1, native_window_id: 6 },
        4,
        1_000,
    );
    let effects = app.take_effects();
    assert!(matches!(
        effects.as_slice(),
        [Effect::Reply(4, Response::Rejected(text))] if text == "target window is unavailable"
    ));
    app.handle_arm_selection(&windows, 5, 79, source, 5, 1_000);
    app.handle_arm_selection(&windows, 5, 80, source, 6, 1_000);
    let effects = app.take_effects();
    assert!(matches!(
        &effects[1],
        Effect::Reply(6, Response::Rejected(text)) if text == "target already has a merge selection"
    ));
    app.expire_merge_selection(1_000 + MERGE_SELECTION_TIMEOUT - 1);
    assert!(app.armed_merge_selection.is_some());
    app.expire_merge_selection(1_000 + MERGE_SELECTION_TIMEOUT);
    assert!(app.armed_merge_selection.is_none());
}

#[test]
fn a_merge_that_no_window_can_take_is_given_up() {
    let windows = vec![window(1, 2)];
    let a = WindowEndpoint { instance: 2, native_window_id: 20 };
    let b = WindowEndpoint { instance: 3, native_window_id: 30 };
    let mut app = Application::new();
    app.control = Some(WindowEndpoint { instance: 1, native_window_id: 1 });
    app.arm_merge_source(&windows, 1);
    assert!(app.begin_merge_window_action(1));
    assert!(app.arm_discovered_merge_targets(&windows, 1, vec![a, b], 55, 0));
    app.handle_arm_selection_result(55, a, false);
    assert!(app.pending_merge_selection.is_some());
    app.handle_arm_selection_result(55, a, false);
    assert!(app.pending_merge_selection.is_some());
    app.handle_arm_selection_result(55, b, false);
    assert!(app.pending_merge_selection.is_none());
    assert_eq!(app.merge_window_source, None);
    app.take_effects();
    // A late answer is told that it came in vain.
    app.handle_arm_selection_result(55, b, true);
    let effects = app.take_effects();
    assert!(matches!(effects.as_slice(), [Effect::CancelSelection(to, 55)] if *to == b));
}

#[test]
fn a_clicked_window_of_another_program_gets_the_tab() {
    let windows = vec![window(1, 2)];
    let a = WindowEndpoint { instance: 2, native_window_id: 20 };
    let mut app = Application::new();
    app.control = Some(WindowEndpoint { instance: 1, native_window_id: 1 });
    app.arm_merge_source(&windows, 1);
    app.arm_discovered_merge_targets(&windows, 1, vec![a], 55, 0);
    app.handle_arm_selection_result(55, a, true);
    app.take_effects();
    app.handle_selection_event(55, 20, 3, false);
    app.handle_selection_event(54, 20, 3, true);
    app.handle_selection_event(55, 21, 3, true);
    assert!(app.take_effects().is_empty());
    app.handle_selection_event(55, 20, 3, true);
    let effects = app.take_effects();
    assert!(matches!(effects.last(), Some(Effect::MergeForeign(1, to, 3)) if *to == a));
    assert!(app.pending_merge_selection.is_none());
}

#[test]
fn other_programs_are_answered() {
    let windows = vec![window(1, 2)];
    let mut app = Application::new();
    app.handle_control_event(&windows, ControlEvent::Probe { window: 1, reply: 8 }, 0);
    app.handle_control_event(&windows, ControlEvent::Probe { window: 2, reply: 9 }, 0);
    let effects = app.take_effects();
    assert!(matches!(&effects[0], Effect::Reply(8, Response::Hello)));
    assert!(matches!(
        &effects[1],
        Effect::Reply(9, Response::Rejected(text)) if text == "window is gone"
    ));
    let task = app.handle_control_event(
        &windows,
        ControlEvent::IncomingOffer { target_window: None },
        0,
    );
    assert!(matches!(task, ControlTask::Prepare(Some(1))));

    app.track_outgoing_offer(6, 1, vec![101, 102]);
    let task = app.handle_control_event(
        &windows,
        ControlEvent::OfferResult { transfer_id: 6, result: Ok(vec![102]) },
        0,
    );
    assert!(matches!(
        task,
        ControlTask::Remove(1, routes, TabDragEvent::ForeignCommitted(6)) if routes == [102]
    ));
    assert!(app.pending_outgoing.is_empty());

    app.track_outgoing_offer(7, 1, vec![101]);
    let task = app.handle_control_event(
        &windows,
        ControlEvent::OfferResult { transfer_id: 7, result: Ok(vec![5]) },
        0,
    );
    assert!(matches!(task, ControlTask::Nothing));
    let effects = app.take_effects();
    assert!(matches!(
        effects.as_slice(),
        [Effect::ShowError(1, 101, text)]
            if text == "target committed a route not included in the offer: 5"
    ));
}

#[test]
fn a_drag_is_told_what_the_tab_is_over() {
    let windows = vec![window(11, 2), window(22, 3)];
    let mut app = Application::new();
    app.tab_drag = Some(drag(11));
    let next =
        app.handle_toplevel_drag_event(&windows, 22, ToplevelDragEvent::Entered(3), Some(1), 0);
    assert!(matches!(
        next,
        DragNext::Tell(TabDragEvent::Enter(3, 22, 1), Aftermath::MarkOver(3, 22, 1))
    ));
    app.settle_drag(&windows, Aftermath::MarkOver(3, 22, 1), 0);
    assert_eq!(app.drop_marker_window, None);
    if let Some(drag) = app.tab_drag.as_mut() {
        drag.hover = Some(Hover { offer_id: 3, target_window: 22, index: 1, dropped: false });
    }
    app.settle_drag(&windows, Aftermath::MarkOver(3, 22, 1), 0);
    assert_eq!(app.drop_marker_window, Some(22));
    // The tab cannot be dropped on its own window.
    let next =
        app.handle_toplevel_drag_event(&windows, 11, ToplevelDragEvent::Motion(3), Some(1), 0);
    assert!(matches!(
        next,
        DragNext::Tell(TabDragEvent::TargetRejected, Aftermath::DetachOutside)
    ));
    assert_eq!(app.drop_marker_window, None);
    // Leaving it starts the time after which it gets a window of its own.
    let next = app.handle_toplevel_drag_event(&windows, 22, ToplevelDragEvent::Left(3), None, 500);
    assert!(matches!(next, DragNext::Tell(TabDragEvent::Leave(3), Aftermath::Nothing)));
    assert_eq!(app.tab_drag_detach_deadline, Some(1_250));
    assert!(app.take_due_detach(1_249).is_none());
    if let Some(drag) = app.tab_drag.as_mut() {
        drag.hover = None;
    }
    assert!(matches!(app.take_due_detach(1_250), Some(TabDragEvent::Detach)));
    assert!(app.take_due_detach(1_250).is_none());
}

#[test]
fn a_drag_asks_and_is_answered() {
    let windows = vec![window(11, 2)];
    let mut app = Application::new();
    let mut state = drag(11);
    let plan = app.execute_tab_drag_command(&windows, &state, TabDragCommand::PrepareSource);
    assert!(matches!(plan, DragPlan::Ask(DragRequest::Prepare(11))));
    let event = app.answer_drag_request(DragRequest::Prepare(11), true, 7);
    assert!(matches!(event, Some(TabDragEvent::Prepared(7))));
    state.hover = Some(Hover { offer_id: 3, target_window: 22, index: 1, dropped: true });
    let plan = app.execute_tab_drag_command(&windows, &state, TabDragCommand::AcceptOffer);
    assert!(matches!(plan, DragPlan::Tell(TabDragEvent::TargetRejected)));
    let plan = app.execute_tab_drag_command(&windows, &state, TabDragCommand::MoveOwnerToTarget);
    assert!(matches!(plan, DragPlan::Ask(DragRequest::MoveTab(22, 1))));
    app.control = Some(WindowEndpoint { instance: 1, native_window_id: 11 });
    let plan = app.execute_tab_drag_command(&windows, &state, TabDragCommand::MoveOwnerToTarget);
    assert!(matches!(plan, DragPlan::Ask(DragRequest::TakeOffer(77, 22, 1))));
    let event = app.answer_drag_request(DragRequest::Receive(22, 3), false, 0);
    assert!(matches!(event, Some(TabDragEvent::DataFailed(3))));
    assert!(matches!(app.take_effects().as_slice(), [Effect::CancelDrag(22, 3)]));
}

#[test]
fn the_commands_of_a_drag_come_in_order() {
    let mut run = DragRun::start(
        drag(11),
        vec![TabDragCommand::PrepareSource, TabDragCommand::StartSourceOwner],
    );
    assert_eq!(run.next(), Some(TabDragCommand::PrepareSource));
    run.told(drag(11), vec![TabDragCommand::CancelSource]);
    assert_eq!(run.next(), Some(TabDragCommand::StartSourceOwner));
    assert_eq!(run.next(), Some(TabDragCommand::CancelSource));
    assert_eq!(run.next(), None);
}

#[test]
fn what_was_to_be_closed_is_closed_when_the_drag_ends() {
    let mut app = Application::new();
    let windows = vec![window(11, 2)];
    app.tab_drag = Some(drag(11));
    assert_eq!(
        app.window_event(&windows, 11, WindowEventKind::CloseRequested),
        Routed::Swallowed
    );
    app.defer_tab_drag_close(DeferredTabDragClose::Terminal(4));
    app.defer_tab_drag_close(DeferredTabDragClose::Window(11));
    assert_eq!(app.deferred_tab_drag_closes.len(), 2);
    app.finish_terminal_tab_drag();
    assert!(app.tab_drag.is_some());
    app.tab_drag.as_mut().unwrap().lifecycle = TabDragLifecycle::Complete(Outcome::Outside);
    app.take_effects();
    app.finish_terminal_tab_drag();
    assert!(app.tab_drag.is_none());
    assert!(app.deferred_tab_drag_closes.is_empty());
    assert!(matches!(
        app.take_effects().as_slice(),
        [
            Effect::ResetDragInput(11),
            Effect::Unschedule(4),
            Effect::Unschedule(9),
            Effect::ClearSourceMarker(11),
            Effect::Detach(11, 23),
            Effect::CloseWindow(11),
            Effect::CloseTerminal(4),
        ]
    ));
}

#[test]
fn a_foreign_drag_is_received_once_it_is_dropped_and_agreed_on() {
    let windows = vec![window(22, 1)];
    let mut app = Application::new();
    app.control = Some(WindowEndpoint { instance: 1, native_window_id: 22 });
    let request = app.handle_foreign_drag(&windows, 22, ToplevelDragEvent::Entered(3), Some(1));
    assert_eq!(request, Some(ForeignRequest::Accept(22, 3, 1)));
    app.answer_foreign_request(&windows, request.unwrap(), true);
    assert_eq!(app.drop_marker_window, Some(22));
    assert_eq!(app.handle_foreign_drag(&windows, 22, ToplevelDragEvent::Dropped(3), None), None);
    let request = app.handle_foreign_drag(
        &windows,
        22,
        ToplevelDragEvent::SelectedActionChanged(3, true),
        None,
    );
    assert_eq!(request, Some(ForeignRequest::Receive(22, 3, false)));
    app.answer_foreign_request(&windows, request.unwrap(), true);
    let mut bytes = vec![0u8; 15];
    bytes.push(9);
    let request =
        app.handle_foreign_drag(&windows, 22, ToplevelDragEvent::DataReady(3, bytes), None);
    assert_eq!(request, Some(ForeignRequest::TakeOffer(9, 22, 1)));
    app.take_effects();
    app.resolve_foreign_drag(&windows, 9, Ok(()));
    assert!(app.foreign_drag.is_none());
    assert!(matches!(
        app.take_effects().as_slice(),
        [Effect::FinishDrag(22, 3), Effect::ClearDropMarker(22)]
    ));
}

#[test]
fn a_token_has_sixteen_bytes() {
    let bytes: Vec<u8> = (1..=16).collect();
    assert_eq!(token_from(&bytes), Some(0x0102_0304_0506_0708_090a_0b0c_0d0e_0f10));
    assert_eq!(token_from(&vec![255; 16]), Some(u128::MAX));
    assert_eq!(token_from(&vec![1; 15]), None);
    assert_eq!(token_from(&vec![1; 17]), None);
}

#[test]
fn a_refused_tab_stays_where_it_was() {
    let mut ids = IdSource::new();
    let mut source = ContextManager::start_with_capacity(3, 1, config(), &mut ids);
    let plan = source.plan_context(ContextDimension::default()).unwrap();
    source.add_context(true, 0, &plan, Spawned::Dead, &mut ids);
    let before: Vec<_> = (0..2).map(|i| source.tab_id_at(i)).collect();
    let mut full = ContextManager::start_with_capacity(1, 2, config(), &mut ids);
    assert!(!transfer_tab_to_target(&mut source, &mut full, 0));
    let after: Vec<_> = (0..2).map(|i| source.tab_id_at(i)).collect();
    assert_eq!(before, after);
    assert_eq!(source.current_index(), 1);
    assert_eq!(full.len(), 1);

    let mut roomy = ContextManager::start_with_capacity(2, 3, config(), &mut ids);
    assert!(transfer_tab_to_target(&mut source, &mut roomy, 0));
    assert_eq!(source.len(), 1);
    assert_eq!(roomy.tab_id_at(0), before[1]);
    assert_eq!(roomy.current_index(), 0);
}

#[test]
fn a_merged_window_without_tabs_goes() {
    let mut ids = IdSource::new();
    let mut source = ContextManager::start_with_capacity(3, 1, config(), &mut ids);
    let mut target = ContextManager::start_with_capacity(3, 2, config(), &mut ids);
    let windows = vec![window(1, 1), window(2, 1)];
    let mut app = Application::new();
    assert!(app.merge_window_into_target(&windows, &mut source, &mut target, 1, 2, None));
    assert!(source.is_empty());
    assert_eq!(target.len(), 2);
    assert_eq!(target.current_index(), 1);
    assert!(matches!(
        app.take_effects().as_slice(),
        [Effect::RemoveWindow(1), Effect::Focus(2)]
    ));
}

#[test]
fn a_merged_window_is_drawn_before_the_merge_is_forgotten() {
    let mut ids = IdSource::new();
    let mut source = ContextManager::start_with_capacity(3, 1, config(), &mut ids);
    let plan = source.plan_context(ContextDimension::default()).unwrap();
    source.add_context(true, 0, &plan, Spawned::Dead, &mut ids);
    let mut target = ContextManager::start_with_capacity(3, 2, config(), &mut ids);
    let windows = vec![window(1, 2), window(2, 1)];
    let mut app = Application::new();
    assert!(!app.merge_window_into_target(&windows, &mut source, &mut target, 1, 1, None));
    assert_eq!(source.current_index(), 1);
    assert!(app.merge_window_into_target(&windows, &mut source, &mut target, 1, 2, None));
    assert_eq!(source.len(), 1);
    assert!(matches!(
        app.take_effects().as_slice(),
        [Effect::Refresh(1), Effect::Redraw(1), .., Effect::Focus(2)]
    ));
}

#[test]
fn panes_are_complete_once_all_are_shown() {
    let mut app = Application::new();
    let mut pending = PendingPrepared {
        routes: vec![
            PendingPreparedRoute { source_route: Some(1), target_route: 51 },
            PendingPreparedRoute { source_route: Some(2), target_route: 52 },
        ],
        ready: Default::default(),
        window_id: 7,
        deadline: 25_000,
        completion: PendingPreparedCompletion::Incoming(3),
    };
    pending.ready.clear();
    app.pending_prepared.push(pending);
    assert!(app.prepares_session(7));
    assert!(!app.prepares_session(8));
    assert_eq!(app.wait_until(None), Some(25_000));
    assert_eq!(app.wait_until(Some(10)), Some(10));
    assert!(app.finish_ready_prepared(7, &vec![52, 99]).is_empty());
    assert!(app.finish_ready_prepared(8, &vec![51]).is_empty());
    assert!(app.expire_pending_prepared(24_999).is_empty());
    let done = app.finish_ready_prepared(7, &vec![51]);
    assert_eq!(done.len(), 1);
    assert!(app.pending_prepared.is_empty());
    assert_eq!(app.wait_until(None), None);
}

#[test]
fn a_failed_commit_answers_with_what_was_committed() {
    let routes = vec![
        PendingPreparedRoute { source_route: Some(1), target_route: 51 },
        PendingPreparedRoute { source_route: Some(2), target_route: 52 },
    ];
    let mut commit = IncomingCommit::start(3, routes);
    assert_eq!(commit.next_route(), Some(51));
    commit.record(Ok(()));
    assert_eq!(commit.next_route(), Some(52));
    commit.record(Err("worker exited".into()));
    assert_eq!(commit.next_route(), None);
    assert_eq!(commit.uncommitted(), [52]);
    assert!(matches!(commit.response(), Response::Committed(routes) if routes == [1]));

    let mut commit = IncomingCommit::start(
        3,
        vec![PendingPreparedRoute { source_route: Some(1), target_route: 51 }],
    );
    commit.record(Err("worker exited".into()));
    assert!(matches!(commit.response(), Response::Rejected(text) if text == "worker exited"));
}

#[test]
fn an_offer_goes_to_the_named_the_focused_or_any_window() {
    let windows = vec![window(1, 1), WindowFacts { terminal: false, ..window(2, 1) }];
    assert_eq!(find_incoming_window(&windows, Some(1), Some(2)), Some(1));
    assert_eq!(find_incoming_window(&windows, Some(2), Some(1)), None);
    assert_eq!(find_incoming_window(&windows, Some(3), Some(1)), None);
    assert_eq!(find_incoming_window(&windows, None, Some(2)), Some(2));
    assert_eq!(find_incoming_window(&windows, None, None), Some(1));
    assert_eq!(find_incoming_window(&Vec::new(), None, None), None);
}

#[test]
fn a_pick_of_the_list_recovers_its_session() {
    let descriptor = SessionDescriptor { session_id: 5, endpoint: 6 };
    let mut app = Application::new();
    app.recovery_targets =
        Some((1, vec![RecoveryCandidate { descriptor, label: "Recover \"x\"".into() }]));
    assert!(!app.select_recovery_target(2, 0));
    assert!(!app.select_recovery_target(1, 1));
    assert!(app.select_recovery_target(1, 0));
    assert!(app.recovery_targets.is_none());
    assert!(matches!(
        app.take_effects().last(),
        Some(Effect::Recover(1, found)) if *found == descriptor
    ));
}

#[test]
fn sessions_of_windows_here_are_not_probed() {
    let windows = vec![window(1, 1)];
    let found: Vec<SessionDescriptor> =
        (0..10).map(|i| SessionDescriptor { session_id: i, endpoint: i as u64 }).collect();
    let mut app = Application::new();
    assert!(app.begin_recovery_action(&windows, 1, &found, &vec![0]));
    let probe = app.recovery_probe_state.as_ref().unwrap();
    assert_eq!((probe.id, probe.remaining), (1, 8));
    let probed: Vec<u128> = app
        .take_effects()
        .iter()
        .filter_map(|effect| match effect {
            Effect::Probe(1, 1, descriptor) => Some(descriptor.session_id),
            _ => None,
        })
        .collect();
    assert_eq!(probed, (1..9).collect::<Vec<u128>>());
    assert!(!app.begin_recovery_action(&windows, 1, &found[..1].to_vec(), &vec![0]));
    assert!(matches!(
        app.take_effects().as_slice(),
        [Effect::ShowError(1, 101, text)] if text == "no saved sessions are available"
    ));
}

#[test]
fn the_end_waits_for_sessions_but_not_for_ever() {
    let mut gate = ExitGate::new();
    assert_eq!(gate.poll_deferred_session_exit(0), ExitStep::Running);
    gate.defer_exit_until_session_closes(1_000);
    assert_eq!(gate.deadline, Some(6_000));
    assert_eq!(gate.poll_deferred_session_exit(1_000), ExitStep::Exit);
    assert_eq!(gate.poll_deferred_session_exit(1_000), ExitStep::Running);
}

#[test]
fn a_closed_pane_takes_its_empty_window_along() {
    let mut ids = IdSource::new();
    let mut manager = ContextManager::start_with_capacity(3, 1, config(), &mut ids);
    let route = manager.current_route();
    let mut app = Application::new();
    assert!(app.close_terminal_at(&mut manager, 1, route));
    assert!(matches!(
        app.take_effects().as_slice(),
        [Effect::DiscardRoutes(1, routes), Effect::Unschedule(r), Effect::RemoveWindow(1)]
            if *routes == [route] && *r == route
    ));
    assert!(!app.perform_close_requested(1, &vec![4], true));
    assert!(matches!(app.take_effects().as_slice(), [Effect::ConfirmQuit(1)]));
}

#[test]
fn uninteresting_events_are_skipped() {
    assert!(skip_window_event(WindowEventKind::KeyboardInput(true, false)));
    assert!(!skip_window_event(WindowEventKind::KeyboardInput(false, false)));
    assert!(skip_window_event(WindowEventKind::Moved));
    assert!(!skip_window_event(WindowEventKind::CloseRequested));
}

#[test]
fn escape_ends_a_merge() {
    let windows = vec![window(1, 2)];
    let mut app = Application::new();
    let escape = WindowEventKind::KeyboardInput(false, true);
    assert_eq!(app.window_event(&windows, 1, escape), Routed::Deliver);
    app.arm_merge_source(&windows, 1);
    assert_eq!(app.window_event(&windows, 1, escape), Routed::Swallowed);
    assert_eq!(app.merge_window_source, None);
    assert_eq!(app.window_event(&windows, 9, escape), Routed::Gone);
    let empty = vec![window(1, 0)];
    assert_eq!(app.window_event(&empty, 1, WindowEventKind::MouseWheel), Routed::Empty);
}

#[test]
fn an_uncovered_window_is_drawn_once() {
    let mut seen =
        Visibility { focused: true, occluded: false, needs_render_after_occlusion: false };
    assert!(seen.occlude(true, true).is_empty());
    assert_eq!(
        seen.occlude(false, true),
        [WindowAction::UpdateVblank, WindowAction::Redraw]
    );
    assert!(seen.needs_render_after_occlusion);
    assert_eq!(
        seen.focus(false, true, true),
        [WindowAction::ShowCursor, WindowAction::Redraw, WindowAction::FocusChange(false)]
    );
    assert!(resized(0, 5).is_empty());
    assert_eq!(resized(1, 5), [WindowAction::Resize, WindowAction::Redraw]);
    assert_eq!(key_pressed(false, true, true, true), [WindowAction::UnscheduleRender]);
}

#[test]
fn the_window_that_drops_down_is_toggled() {
    assert_eq!(toggle_quake_window(false, true, true), QuakeStep::Create);
    assert_eq!(toggle_quake_window(true, false, true), QuakeStep::Show);
    assert_eq!(toggle_quake_window(true, true, false), QuakeStep::Show);
    assert_eq!(toggle_quake_window(true, true, true), QuakeStep::Vanish);
    assert_eq!(quake_position(-100, 1_000, 601), 99);
    assert_eq!(quake_position(5, 100, 200), 5);
}

#[test]
fn the_loop_starts_with_a_window() {
    let facts = StartFacts {
        has_windows: true,
        all_minimized: true,
        adaptive_colors: true,
        forced_theme: false,
        titles_scheduled: false,
    };
    assert!(new_events(StartCause::Other, facts).is_empty());
    assert_eq!(new_events(StartCause::Reopen, facts), [StartAction::RestoreWindow]);
    assert_eq!(
        new_events(StartCause::Init, facts),
        [
            StartAction::StartThemeMonitor,
            StartAction::ApplyTheme,
            StartAction::CreateWindow,
            StartAction::EnsureControl,
            StartAction::SetupHotkey,
            StartAction::ScheduleTitles(2_000),
        ]
    );
}

#[test]
fn a_broken_configuration_is_only_reported() {
    assert_eq!(
        update_config(&vec![1, 2], false, true, true, true),
        [
            ConfigAction::ReportError(1),
            ConfigAction::Redraw(1),
            ConfigAction::ReportError(2),
            ConfigAction::Redraw(2),
        ]
    );
    assert_eq!(
        update_config(&vec![1], true, true, false, true),
        [
            ConfigAction::ReloadFonts,
            ConfigAction::Replace,
            ConfigAction::ClearErrors(1),
            ConfigAction::ApplyTheme,
            ConfigAction::ReportFonts(1),
            ConfigAction::Update(1, true),
            ConfigAction::Configure(1),
            ConfigAction::Redraw(1),
        ]
    );
    assert_eq!(toggled_theme(None, None), AppearanceTheme::Light);
    assert_eq!(
        toggled_theme(Some(AppearanceTheme::Light), Some(AppearanceTheme::Dark)),
        AppearanceTheme::Dark
    );
}

#[test]
fn addresses_open_in_the_focused_group_of_tabs() {
    let urls = || vec!["file:///a".to_string(), "file:///b".to_string()];
    assert!(open_urls(true, &vec![], urls()).is_empty());
    assert!(matches!(
        open_urls(true, &vec![false, false], urls()).as_slice(),
        [OpenAddress::NativeTab(0, a), OpenAddress::NativeTab(0, b)]
            if a == "file:///a" && b == "file:///b"
    ));
    assert!(matches!(
        open_urls(true, &vec![false, true, true], urls()).as_slice(),
        [OpenAddress::NativeTab(1, _), OpenAddress::NativeTab(1, _)]
    ));
    assert!(matches!(
        open_urls(false, &vec![], urls()).as_slice(),
        [OpenAddress::Window(a), OpenAddress::Window(_)] if a == "file:///a"
    ));
}

#[test]
fn a_detached_tab_is_offered_where_programs_can_be_reached() {
    let mut ids = IdSource::new();
    let manager = ContextManager::start_with_capacity(3, 1, config(), &mut ids);
    let tab = manager.tab_id_at(0).unwrap();
    let mut app = Application::new();
    assert_eq!(app.plan_detach(&manager, tab), DetachPlan::Window(0));
    assert_eq!(app.plan_detach(&manager, tab + 1), DetachPlan::Gone);
    app.control = Some(WindowEndpoint { instance: 1, native_window_id: 1 });
    assert_eq!(app.plan_detach(&manager, tab), DetachPlan::Offer(0));
    let route = manager.current_route();
    assert_eq!(
        app.offer_for_merge(&manager, 1).err().unwrap(),
        format!("session is not started for route {route}")
    );
}
