use rioterm::context::handover::{OfferError, TransferOffer};
use rioterm::context::lifecycle::{process_open_url, OpenTarget};
use rioterm::context::manager::{
    current_index_after_tab_removal, ContextManager, ContextManagerConfig, DrawCommand, RioEvent,
    Shell, Spawned,
};
use rioterm::context::pane::{create_dead_context, next_rich_text_id, ContextDimension, IdSource};
use rioterm::context::remote::WindowSize;
use rioterm::context::renderable::Cursor;
use rioterm::context::session::SessionHandle;
use rioterm::terminal::{ColorBits, Pos, SelectionRange, TerminalDamage};

fn config() -> ContextManagerConfig {
    ContextManagerConfig {
        shell: Shell { program: None, args: Vec::new() },
        working_dir: None,
        cwd: false,
        is_native: false,
        should_update_title_extra: false,
        title_template: String::new(),
        scrollback_history_limit: 10_000,
        grapheme_clustering: false,
        closes_last_tab: false,
    }
}

fn start(capacity: usize, window: u64, ids: &mut IdSource) -> ContextManager {
    ContextManager::start_with_capacity(capacity, window, config(), ids)
}

fn add(manager: &mut ContextManager, redirect: bool, ids: &mut IdSource) {
    if let Some(plan) = manager.plan_context(ContextDimension::default()) {
        manager.add_context(redirect, 0, &plan, Spawned::Dead, ids);
    }
}

fn set_tab_title(manager: &mut ContextManager, index: usize, content: &str) {
    let current = manager.current_index();
    manager.set_current(index);
    manager.current_mut().title.content = content.to_string();
    manager.set_current(current);
}

fn tab_titles(manager: &ContextManager) -> Vec<String> {
    (0..manager.len()).map(|i| manager.title(i).unwrap().content.clone()).collect()
}

fn tab_ids(manager: &ContextManager) -> Vec<u64> {
    (0..manager.len()).map(|i| manager.tab_id_at(i).unwrap()).collect()
}

fn color(r: f32, g: f32, b: f32, a: f32) -> ColorBits {
    ColorBits { r: r.to_bits(), g: g.to_bits(), b: b.to_bits(), a: a.to_bits() }
}

fn titles(events: &[RioEvent]) -> Vec<(usize, String)> {
    events
        .iter()
        .filter_map(|event| match event {
            RioEvent::Title(route, title) => Some((*route, title.clone())),
            _ => None,
        })
        .collect()
}

#[test]
fn test_capacity() {
    let mut ids = IdSource::new();
    let manager = start(5, 0, &mut ids);
    assert_eq!(manager.capacity, 5);

    let mut manager = start(5, 0, &mut ids);
    manager.increase_capacity(3);
    assert_eq!(manager.capacity, 8);
}

#[test]
fn palette_selection_marks_full_terminal_damage() {
    let mut ids = IdSource::new();
    let mut manager = start(1, 0, &mut ids);
    let selection = SelectionRange::new(Pos::new(0, 0), Pos::new(0, 1), false);

    manager.current_mut().renderable_content.pending_update.take_terminal_damage();
    manager.current_mut().set_selection(Some(selection));

    assert_eq!(
        manager.current_mut().renderable_content.pending_update.take_terminal_damage(),
        Some(TerminalDamage::Full)
    );
}

#[test]
fn test_get_by_route_id_finds_hidden_tab() {
    let mut ids = IdSource::new();
    let mut manager = start(5, 0, &mut ids);
    let hidden_route_id = manager.current().route_id;

    add(&mut manager, true, &mut ids);
    assert_eq!(manager.current_index, 1);

    let found = manager.get_by_route_id(hidden_route_id).unwrap();
    assert_eq!(found.route_id, hidden_route_id);
}

#[test]
fn update_titles_emits_only_the_current_tab() {
    let mut ids = IdSource::new();
    let mut manager = start(3, 0, &mut ids);
    add(&mut manager, true, &mut ids);
    manager.config.title_template = "{{columns}}".into();
    manager.set_current(0);
    manager.current_mut().dimension.columns = 80;
    manager.set_current(1);
    manager.current_mut().dimension.columns = 120;
    manager.events.clear();
    manager.update_titles(0);

    assert_eq!(manager.title(0).unwrap().content, "80");
    assert_eq!(manager.title(1).unwrap().content, "120");
    assert_eq!(titles(&manager.events), [(manager.current().route_id, "120".to_string())]);

    manager.events.clear();
    manager.set_current(0);
    assert_eq!(titles(&manager.events), [(manager.current().route_id, "80".to_string())]);
}

#[test]
fn titles_are_made_at_most_every_two_seconds() {
    let mut ids = IdSource::new();
    let mut manager = start(3, 0, &mut ids);
    manager.config.title_template = "{{columns}}".into();
    manager.current_mut().dimension.columns = 80;
    manager.update_titles(1_000);
    assert_eq!(manager.title(0).unwrap().content, "80");
    manager.current_mut().dimension.columns = 81;
    manager.update_titles(2_999);
    assert_eq!(manager.title(0).unwrap().content, "80");
    manager.update_titles(3_001);
    assert_eq!(manager.title(0).unwrap().content, "81");
}

#[test]
fn test_add_context() {
    let mut ids = IdSource::new();
    let mut manager = start(5, 0, &mut ids);
    assert_eq!(manager.capacity, 5);
    assert_eq!(manager.current_index, 0);

    add(&mut manager, false, &mut ids);
    assert_eq!(manager.capacity, 5);
    assert_eq!(manager.current_index, 0);

    add(&mut manager, true, &mut ids);
    assert_eq!(manager.capacity, 5);
    assert_eq!(manager.current_index, 2);
}

#[test]
fn test_add_context_start_with_capacity_limit() {
    let mut ids = IdSource::new();
    let mut manager = start(3, 0, &mut ids);
    assert_eq!(manager.capacity, 3);
    assert_eq!(manager.current_index, 0);
    add(&mut manager, false, &mut ids);
    assert_eq!(manager.len(), 2);
    add(&mut manager, false, &mut ids);
    assert_eq!(manager.len(), 3);

    for _ in 0..20 {
        add(&mut manager, false, &mut ids);
    }

    assert_eq!(manager.len(), 3);
    assert_eq!(manager.capacity, 3);
}

#[test]
fn current_index_adjusts_after_tab_removal() {
    assert_eq!(current_index_after_tab_removal(1, 0), 0);
    assert_eq!(current_index_after_tab_removal(3, 1), 2);
    assert_eq!(current_index_after_tab_removal(0, 1), 0);
    assert_eq!(current_index_after_tab_removal(2, 3), 2);
    assert_eq!(current_index_after_tab_removal(0, 0), 0);
    assert_eq!(current_index_after_tab_removal(2, 2), 1);
}

#[test]
fn test_set_current() {
    let mut ids = IdSource::new();
    let mut manager = start(8, 0, &mut ids);

    add(&mut manager, true, &mut ids);
    assert_eq!(manager.current_index, 1);
    manager.set_current(0);
    assert_eq!(manager.current_index, 0);
    assert_eq!(manager.len(), 2);
    assert_eq!(manager.capacity, 8);

    add(&mut manager, false, &mut ids);
    add(&mut manager, false, &mut ids);
    manager.set_current(3);
    assert_eq!(manager.current_index, 3);

    manager.set_current(8);
    assert_eq!(manager.current_index, 3);
}

#[test]
fn tab_identity_is_unique_and_stable_across_reordering() {
    let mut ids = IdSource::new();
    let mut manager = start(4, 0, &mut ids);
    add(&mut manager, false, &mut ids);
    add(&mut manager, false, &mut ids);

    let original = tab_ids(&manager);
    assert_eq!(original.len(), 3);
    assert!(original
        .iter()
        .all(|id| original.iter().filter(|other| *other == id).count() == 1));

    manager.set_current(0);
    manager.move_current_tab_to(2);
    assert_eq!(tab_ids(&manager), [original[1], original[2], original[0]]);
    assert_eq!(manager.current_grid().id(), original[0]);
}

#[test]
fn extraction_captures_the_whole_grid_and_all_split_routes() {
    let mut ids = IdSource::new();
    let mut manager = start(4, 0, &mut ids);
    add(&mut manager, false, &mut ids);
    add(&mut manager, false, &mut ids);
    for (index, title) in ["first", "second", "third"].iter().enumerate() {
        set_tab_title(&mut manager, index, title);
    }
    manager.set_custom_title(1, Some("custom".into()));
    manager.set_custom_color(1, Some(color(0.1, 0.2, 0.3, 1.0)));
    manager.set_current(1);
    let split_route = 1_000_000;
    manager
        .current_grid_mut()
        .add_split(create_dead_context(0, split_route, 99, ContextDimension::default()));
    manager.current_mut().title.content = "active split".into();
    let extracted_id = manager.current_grid().id();
    let extracted_route = manager.current_route();
    let expected_routes = manager.current_grid().route_ids();

    let transfer = manager.extract_grid(1).unwrap();

    assert_eq!(transfer.id(), extracted_id);
    assert_eq!(transfer.route_ids(), expected_routes);
    assert!(transfer.route_ids().contains(&split_route));
    assert_eq!(transfer.grid.len(), 2);
    assert_eq!(transfer.grid.current().route_id, extracted_route);
    assert_eq!(transfer.grid.current().title.content, "active split");
    assert_eq!(transfer.grid.custom_title.as_deref(), Some("custom"));
    assert_eq!(transfer.grid.custom_color, Some(color(0.1, 0.2, 0.3, 1.0)));
    assert_eq!(tab_titles(&manager), ["first", "third"]);
    assert_eq!(manager.current_index(), 1);
    assert_eq!(manager.current_route(), manager.current().route_id);
}

#[test]
fn hidden_split_route_resolves_its_grid_and_removal_keeps_current_tab() {
    let mut ids = IdSource::new();
    let mut manager = start(4, 0, &mut ids);
    add(&mut manager, false, &mut ids);
    add(&mut manager, true, &mut ids);
    let selected_tab = manager.current_grid().id();
    let selected_index = manager.current_index();
    let hidden_split_route = 1_000_002;
    manager.set_current(0);
    manager
        .current_grid_mut()
        .add_split(create_dead_context(0, hidden_split_route, 2, ContextDimension::default()));
    manager.set_current(selected_index);

    let hidden_index = manager.grid_index_for_route(hidden_split_route).unwrap();
    let removed = manager.extract_grid(hidden_index).unwrap();

    assert!(removed.route_ids().contains(&hidden_split_route));
    assert_eq!(manager.current_grid().id(), selected_tab);
    assert_eq!(manager.current_index(), 1);
    assert_eq!(manager.current_route(), manager.current().route_id);
}

#[test]
fn transfer_rebinds_queued_events_for_every_split() {
    let mut ids = IdSource::new();
    let mut source = start(2, 11, &mut ids);
    source
        .current_grid_mut()
        .add_split(create_dead_context(11, 1_000_001, 1, ContextDimension::default()));
    let routes = source.current_grid().route_ids();
    for route_id in &routes {
        let context = source.get_by_route_id(*route_id).unwrap();
        context.terminal.install_session(SessionHandle::with_capacity(4, 11));
    }
    let transfer = source.extract_grid(0).unwrap();

    let mut destination = start(2, 22, &mut ids);
    assert!(destination.insert_grid(1, transfer).is_ok());

    for route_id in routes {
        let context = destination.get_by_route_id(route_id).unwrap();
        assert_eq!(context.window_id, 22);
        assert_eq!(context.terminal.window_id, 22);
        assert_eq!(context.terminal.session.as_ref().unwrap().window_id, 22);
    }
}

#[test]
fn numbers_stay_apart_when_tabs_move() {
    let mut ids = IdSource::new();
    let mut source = start(4, 1, &mut ids);
    let mut target = start(4, 2, &mut ids);
    add(&mut source, true, &mut ids);
    let plan = source.plan_split();
    source.split(0, true, &plan, Spawned::Dead, &mut ids);
    add(&mut target, true, &mut ids);
    let moved = source.extract_grid(1).unwrap();
    assert!(target.insert_grid(1, moved).is_ok());
    let mut routes: Vec<usize> = Vec::new();
    for manager in [&source, &target] {
        routes.extend(manager.route_ids());
    }
    routes.sort();
    assert_eq!(routes.len(), 5);
    routes.dedup();
    assert_eq!(routes.len(), 5);
    assert!(routes.iter().all(|route| *route < ids.next_route));
}

#[test]
fn indexed_insert_preserves_order_and_activates_grid() {
    let mut ids = IdSource::new();
    let mut source = start(3, 0, &mut ids);
    source.set_custom_title(0, Some("moved".into()));
    let route = source.current_route();
    let transfer = source.extract_grid(0).unwrap();
    assert!(source.is_empty());
    assert_eq!(source.current_route(), 0);

    let mut destination = start(3, 0, &mut ids);
    add(&mut destination, false, &mut ids);
    let previous_ids = tab_ids(&destination);
    let moved_id = transfer.id();
    assert!(destination.insert_grid(1, transfer).is_ok());

    assert_eq!(tab_ids(&destination), [previous_ids[0], moved_id, previous_ids[1]]);
    assert_eq!(destination.current_index(), 1);
    assert_eq!(destination.current_route(), route);
    assert_eq!(destination.custom_title(1), Some("moved"));
}

#[test]
fn insert_failures_return_the_unchanged_transfer() {
    let mut ids = IdSource::new();
    let mut source = start(2, 0, &mut ids);
    source.set_custom_title(0, Some("owned".into()));
    source.set_custom_color(0, Some(color(1.0, 0.5, 0.0, 1.0)));
    let transfer = source.extract_grid(0).unwrap();
    let id = transfer.id();
    let routes = transfer.route_ids();

    let mut full = start(1, 0, &mut ids);
    let returned = match full.insert_grid(1, transfer) {
        Err(returned) => returned,
        Ok(()) => panic!("capacity must reject the insert"),
    };

    assert_eq!(returned.id(), id);
    assert_eq!(returned.route_ids(), routes);
    assert_eq!(returned.grid.custom_title.as_deref(), Some("owned"));
    assert_eq!(returned.grid.custom_color, Some(color(1.0, 0.5, 0.0, 1.0)));
    assert_eq!(full.len(), 1);
    assert_eq!(full.current_index(), 0);
    assert_eq!(full.current_route(), full.current().route_id);

    let mut room = start(2, 0, &mut ids);
    let returned = match room.insert_grid(2, returned) {
        Err(returned) => returned,
        Ok(()) => panic!("out-of-bounds index must reject the insert"),
    };
    assert_eq!(returned.id(), id);
    assert_eq!(returned.route_ids(), routes);
}

#[test]
fn failed_initial_pty_preserves_allocated_route_id() {
    let mut ids = IdSource::new();
    let mut config = config();
    config.shell.program = Some("/rio/does/not/exist".into());

    let manager = ContextManager::start(
        Cursor::default(),
        false,
        1,
        7,
        config,
        ContextDimension::default(),
        None,
        Spawned::Failed("no such program".into()),
        Vec::new(),
        &mut ids,
    );

    assert_ne!(manager.current_route(), 0);
    assert_eq!(manager.current().route_id, manager.current_route());
    assert_eq!(manager.current().rich_text_id, 7);
}

#[test]
fn manager_from_transfer_preserves_identity_and_active_route() {
    let mut ids = IdSource::new();
    let mut source = start(2, 0, &mut ids);
    source.set_custom_title(0, Some("detached".into()));
    let transfer = source.extract_grid(0).unwrap();
    let id = transfer.id();
    let route = transfer.grid.current().route_id;

    let manager = ContextManager::from_transfer(transfer, 0, config());

    assert_eq!(manager.current_grid().id(), id);
    assert_eq!(manager.current_route(), route);
    assert_eq!(manager.custom_title(0), Some("detached"));
}

#[test]
fn test_title_follows_tab_move() {
    let mut ids = IdSource::new();
    let mut manager = start(5, 0, &mut ids);
    for _ in 0..3 {
        add(&mut manager, false, &mut ids);
    }
    assert_eq!(manager.len(), 4);
    for (i, label) in ["a", "b", "c", "d"].iter().enumerate() {
        set_tab_title(&mut manager, i, label);
    }

    manager.set_current(1);
    manager.move_current_tab_to(3);

    assert_eq!(tab_titles(&manager), ["a", "c", "d", "b"]);
    assert_eq!(manager.current().title.content, "b");
}

#[test]
fn test_title_follows_tab_swap() {
    let mut ids = IdSource::new();
    let mut manager = start(5, 0, &mut ids);
    for _ in 0..3 {
        add(&mut manager, false, &mut ids);
    }
    for (i, label) in ["a", "b", "c", "d"].iter().enumerate() {
        set_tab_title(&mut manager, i, label);
    }

    manager.set_current(0);
    manager.move_current_to_next();

    assert_eq!(tab_titles(&manager), ["b", "a", "c", "d"]);
}

#[test]
fn test_custom_title_follows_tab_move() {
    let mut ids = IdSource::new();
    let mut manager = start(5, 0, &mut ids);
    for _ in 0..3 {
        add(&mut manager, false, &mut ids);
    }
    manager.set_custom_title(2, Some("work".to_string()));

    manager.set_current(1);
    manager.move_current_tab_to(3);

    assert_eq!(manager.custom_title(1), Some("work"));
    assert_eq!(manager.custom_title(2), None);

    manager.set_custom_title(1, None);
    assert_eq!(manager.custom_title(1), None);
}

#[test]
fn test_custom_color_follows_tab_move() {
    let mut ids = IdSource::new();
    let mut manager = start(5, 0, &mut ids);
    for _ in 0..3 {
        add(&mut manager, false, &mut ids);
    }
    let red = color(1.0, 0.0, 0.0, 1.0);
    manager.set_custom_color(2, Some(red));

    manager.set_current(1);
    manager.move_current_tab_to(3);

    assert_eq!(manager.custom_color(1), Some(red));
    assert_eq!(manager.custom_color(2), None);

    manager.set_custom_color(1, None);
    assert_eq!(manager.custom_color(1), None);
}

#[test]
fn test_switch_to_next() {
    let mut ids = IdSource::new();
    let mut manager = start(5, 0, &mut ids);
    for _ in 0..5 {
        add(&mut manager, false, &mut ids);
    }
    assert_eq!(manager.len(), 5);
    assert_eq!(manager.current_index, 0);

    for expected in [1, 2, 3, 4, 0, 1] {
        manager.switch_to_next();
        assert_eq!(manager.current_index, expected);
    }
}

#[test]
fn test_move_current_to_next() {
    let mut ids = IdSource::new();
    let mut manager = start(5, 0, &mut ids);

    manager.current_mut().rich_text_id = 1;
    for _ in 0..4 {
        add(&mut manager, false, &mut ids);
    }

    assert_eq!(manager.len(), 5);
    assert_eq!(manager.current_index, 0);
    assert_eq!(manager.current().rich_text_id, 1);

    for expected in [1, 2, 3, 4, 0, 1] {
        manager.move_current_to_next();
        assert_eq!(manager.current_index, expected);
        assert_eq!(manager.current().rich_text_id, 1);
    }
}

#[test]
fn test_move_current_to_prev() {
    let mut ids = IdSource::new();
    let mut manager = start(5, 0, &mut ids);

    manager.current_mut().rich_text_id = 1;
    for _ in 0..4 {
        add(&mut manager, false, &mut ids);
    }

    assert_eq!(manager.len(), 5);
    assert_eq!(manager.current_index, 0);
    assert_eq!(manager.current().rich_text_id, 1);

    for expected in [4, 3, 2, 1, 0, 4] {
        manager.move_current_to_prev();
        assert_eq!(manager.current_index, expected);
        assert_eq!(manager.current().rich_text_id, 1);
    }
}

#[test]
fn test_move_current_tab_to() {
    let mut ids = IdSource::new();
    let mut manager = start(5, 0, &mut ids);
    for _ in 0..4 {
        add(&mut manager, false, &mut ids);
    }

    for i in 0..5 {
        manager.set_current(i);
        manager.current_mut().rich_text_id = i;
    }

    let order = |manager: &mut ContextManager| -> Vec<usize> {
        (0..5)
            .map(|i| {
                manager.set_current(i);
                manager.current().rich_text_id
            })
            .collect()
    };

    manager.set_current(1);
    manager.move_current_tab_to(3);
    assert_eq!(manager.current_index, 3);
    assert_eq!(manager.current().rich_text_id, 1);
    assert_eq!(order(&mut manager), vec![0, 2, 3, 1, 4]);

    manager.set_current(3);
    manager.move_current_tab_to(0);
    assert_eq!(manager.current_index, 0);
    assert_eq!(manager.current().rich_text_id, 1);
    assert_eq!(order(&mut manager), vec![1, 0, 2, 3, 4]);

    manager.set_current(2);
    manager.move_current_tab_to(2);
    assert_eq!(manager.current_index, 2);
    manager.move_current_tab_to(5);
    assert_eq!(manager.current_index, 2);
    assert_eq!(order(&mut manager), vec![1, 0, 2, 3, 4]);
}

#[test]
fn the_last_pane_of_the_last_tab_closes_the_window() {
    let mut ids = IdSource::new();
    let mut manager = start(3, 0, &mut ids);
    let first = manager.current_route();
    add(&mut manager, true, &mut ids);
    let second = manager.current_route();
    assert!(!manager.should_close_context_manager(first));
    assert_eq!(manager.len(), 1);
    assert_eq!(manager.current_index(), 0);
    assert_eq!(manager.current_route(), second);
    assert!(!manager.should_close_context_manager(99_999));
    assert!(manager.should_close_context_manager(second));
    assert!(manager.is_empty());
}

#[test]
fn splits_are_walked_before_tabs() {
    let mut ids = IdSource::new();
    let mut manager = start(3, 0, &mut ids);
    let first = manager.current_route();
    manager
        .current_grid_mut()
        .add_split(create_dead_context(0, 500, 1, ContextDimension::default()));
    add(&mut manager, false, &mut ids);
    assert_eq!(manager.current_route(), 500);
    manager.current_grid_mut().select_first_split();
    assert_eq!(manager.current_route(), first);
    manager.switch_to_next_split_or_tab();
    assert_eq!(manager.current_route(), 500);
    assert_eq!(manager.current_index(), 0);
    manager.switch_to_next_split_or_tab();
    assert_eq!(manager.current_index(), 1);
    manager.switch_to_prev_split_or_tab();
    assert_eq!(manager.current_index(), 0);
    assert_eq!(manager.current_route(), 500);
}

#[test]
fn all_other_tabs_are_closed() {
    let mut ids = IdSource::new();
    let mut manager = start(4, 0, &mut ids);
    for _ in 0..3 {
        add(&mut manager, false, &mut ids);
    }
    manager.set_current(2);
    let kept = manager.current_grid().id();
    let before = manager.route_ids();
    let closed = manager.close_unfocused_tabs();
    assert_eq!(manager.len(), 1);
    assert_eq!(manager.current_grid().id(), kept);
    assert_eq!(manager.current_index(), 0);
    assert_eq!(closed.len(), 3);
    for route in closed {
        assert!(before.contains(&route));
        assert!(!manager.contains_route_id(route));
    }
}

#[test]
fn a_split_is_opened_beside_the_focused_pane() {
    let mut ids = IdSource::new();
    let mut manager = start(2, 7, &mut ids);
    let plan = manager.plan_split();
    let next = ids.next_route;
    let text = next_rich_text_id(&mut ids);
    manager.split(text, true, &plan, Spawned::Dead, &mut ids);
    assert_eq!(manager.current_route(), next);
    assert_eq!(manager.current().rich_text_id, text);
    assert_eq!(manager.current_grid().len(), 2);
    assert!(manager.draws.contains(&DrawCommand::SplitPane { route_id: next, down: true }));

    let shell = Shell { program: Some("sh".into()), args: Vec::new() };
    let editor = Shell { program: Some("vi".into()), args: Vec::new() };
    let (shell, plan) = manager.split_from_config(shell, Some("/etc".into()), editor);
    assert_eq!(shell.program.as_deref(), Some("sh"));
    assert_eq!(plan.working_dir.as_deref(), Some("/etc"));
    manager.split(0, false, &plan, Spawned::Failed("no".into()), &mut ids);
    assert_eq!(manager.current_grid().len(), 2);
}

#[test]
fn a_tab_without_a_started_session_is_not_offered() {
    let mut ids = IdSource::new();
    let manager = start(2, 7, &mut ids);
    let route = manager.current_route();
    let offer: Result<TransferOffer, OfferError> = manager.transfer_offer(0, 5);
    assert!(matches!(offer, Err(OfferError::NotStarted(r)) if r == route));
    assert!(matches!(manager.transfer_offer(1, 5), Err(OfferError::NoTab)));
}

#[test]
fn an_opened_file_starts_the_editor_and_a_directory_the_shell() {
    let shell = || Shell { program: Some("sh".into()), args: vec!["-l".into()] };
    let editor = || Shell { program: Some("vi".into()), args: vec!["-R".into()] };
    let (program, dir) =
        process_open_url(shell(), Some("/home".into()), editor(), OpenTarget::File("/a.txt".into()));
    assert_eq!(program.program.as_deref(), Some("vi"));
    assert_eq!(program.args, ["-R", "/a.txt"]);
    assert_eq!(dir.as_deref(), Some("/home"));
    let (program, dir) = process_open_url(
        shell(),
        Some("/home".into()),
        editor(),
        OpenTarget::Directory("/srv".into()),
    );
    assert_eq!(program.program.as_deref(), Some("sh"));
    assert_eq!(program.args, ["-l"]);
    assert_eq!(dir.as_deref(), Some("/srv"));
    let (program, dir) = process_open_url(shell(), None, editor(), OpenTarget::Nothing);
    assert_eq!(program.program.as_deref(), Some("sh"));
    assert_eq!(dir, None);
}

#[test]
fn route_numbers_wrap_around() {
    let mut ids = IdSource::new();
    ids.next_route = usize::MAX;
    assert_eq!(ids.next_route_id(), usize::MAX);
    assert_eq!(ids.next_route_id(), 0);
}

#[test]
fn a_pane_keeps_the_size_it_was_planned_with() {
    let mut ids = IdSource::new();
    let mut manager = start(2, 0, &mut ids);
    let dimension = ContextDimension {
        columns: 80,
        lines: 24,
        size: WindowSize { cols: 80, rows: 24, width: 800, height: 480 },
    };
    manager.current_mut().dimension = dimension;
    let plan = manager.plan_context(ContextDimension::default()).unwrap();
    assert_eq!(plan.dimension, dimension);
    manager.add_context(true, 3, &plan, Spawned::Dead, &mut ids);
    assert_eq!(manager.current().dimension, dimension);
}

#[test]
fn what_a_window_is_asked_for_is_queued() {
    let mut ids = IdSource::new();
    let mut manager = start(3, 0, &mut ids);
    let route = manager.current_route();
    manager.events.clear();
    manager.request_render();
    manager.blink_cursor(500);
    manager.schedule_render_on_route(16);
    manager.report_error_fonts_not_found(Vec::new());
    manager.report_error_fonts_not_found(vec!["mono".into()]);
    manager.hide_window();
    manager.minimize();
    assert!(matches!(
        manager.events.as_slice(),
        [
            RioEvent::RenderRoute(a),
            RioEvent::BlinkCursor(500, b),
            RioEvent::PrepareRenderOnRoute(16, c),
            RioEvent::FontsNotFound(fonts),
            RioEvent::Hide,
            RioEvent::Minimize(true),
        ] if [*a, *b, *c] == [route; 3] && *fonts == ["mono"]
    ));
}

#[test]
fn the_last_tab_is_kept_unless_it_may_close() {
    let mut ids = IdSource::new();
    let mut manager = start(3, 0, &mut ids);
    add(&mut manager, true, &mut ids);
    let kept = manager.tab_id_at(0);
    manager.close_current_context();
    assert_eq!(manager.len(), 1);
    assert_eq!(manager.tab_id_at(0), kept);
    manager.events.clear();
    manager.close_current_context();
    assert_eq!(manager.len(), 1);
    assert!(manager.events.is_empty());
    manager.config.closes_last_tab = true;
    manager.close_current_context();
    assert!(matches!(manager.events.as_slice(), [RioEvent::CloseWindow]));
}

#[test]
fn a_focused_split_goes_and_its_tab_stays() {
    let mut ids = IdSource::new();
    let mut manager = start(3, 0, &mut ids);
    let first = manager.current_route();
    manager
        .current_grid_mut()
        .add_split(create_dead_context(0, 77, 1, ContextDimension::default()));
    assert_eq!(manager.current_grid().len(), 2);
    let focused = manager.current().route_id;
    manager.remove_current_grid();
    assert_eq!(manager.len(), 1);
    assert_eq!(manager.current_grid().len(), 1);
    assert_ne!(manager.current().route_id, focused);
    assert!([first, 77].contains(&manager.current().route_id));
}
