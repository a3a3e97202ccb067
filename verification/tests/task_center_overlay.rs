use kaku::task_center::{TaskCenterEntry, TaskCenterKind, TaskCenterSource};
use kaku::task_center_overlay::{
    list_layout, ConfirmState, PromptKind, PromptState, KeyModifiers, MouseButtonsState, MouseInput, OverlayEffect, OverlayKey, OverlayMode,
    RowAction, TaskCenterOverlay, TaskCenterSection, CONTENT_START_X, ROW_START_Y,
};

fn entry(label: &str, workspace: &str, source: TaskCenterSource, kind: TaskCenterKind) -> TaskCenterEntry {
    TaskCenterEntry {
        label: label.to_string(),
        workspace: workspace.to_string(),
        source,
        kind,
        source_label: None,
        kind_label: None,
        window_id: Some(1),
        tab_id: Some(1),
        pane_id: Some(1),
        unread_count: 0,
        notification_ids: vec![],
        is_failed: false,
        is_running: false,
        rerun_available: false,
        workspace_status: None,
        workspace_progress: None,
    }
}

fn click(overlay: &mut TaskCenterOverlay, x: usize, y: usize, buttons: MouseButtonsState) -> bool {
    overlay
        .handle_list_mouse_event(MouseInput { x: x as u16, y: y as u16, buttons })
        .close
}

fn no_mods() -> KeyModifiers {
    KeyModifiers { shift: false, ctrl: false, alt: false, super_key: false }
}

#[test]
fn task_center_search_narrows_normalized_entry_text() {
    let mut build_failed = entry(
        "Build failed",
        "unity-main",
        TaskCenterSource::Notification,
        TaskCenterKind::Notification,
    );
    build_failed.kind_label = Some("build.failed".to_string());

    let mut overlay = TaskCenterOverlay::new(vec![
        build_failed,
        entry("Workspace status", "default", TaskCenterSource::Workspace, TaskCenterKind::Workspace),
    ]);
    overlay.filter_term = "build.failed".to_string();
    overlay.update_filter();

    assert_eq!(overlay.filtered_entries.len(), 1);
    assert_eq!(overlay.filtered_entries[0].label, "Build failed");
}

#[test]
fn task_center_filters_cover_unread_failed_running_workspace_source_and_kind() {
    let mut notification = entry(
        "Unread build",
        "unity-main",
        TaskCenterSource::Notification,
        TaskCenterKind::Notification,
    );
    notification.unread_count = 2;
    notification.is_failed = true;
    notification.is_running = true;

    let mut overlay = TaskCenterOverlay::new(vec![
        notification,
        entry("Pane row", "default", TaskCenterSource::Pane, TaskCenterKind::Pane),
    ]);
    overlay.filter_term =
        "unread failed running workspace:unity-main source:notification kind:notification".to_string();
    overlay.update_filter();

    assert_eq!(overlay.filtered_entries.len(), 1);
    assert_eq!(overlay.filtered_entries[0].label, "Unread build");
}

#[test]
fn task_center_search_consumes_workspace_status_and_progress_snapshot_fields() {
    let mut workspace = entry(
        "Workspace health",
        "unity-main",
        TaskCenterSource::Workspace,
        TaskCenterKind::Workspace,
    );
    workspace.workspace_status = Some("blocked".to_string());
    workspace.workspace_progress = Some(72);

    let mut overlay = TaskCenterOverlay::new(vec![
        workspace,
        entry("Pane row", "default", TaskCenterSource::Pane, TaskCenterKind::Pane),
    ]);
    overlay.filter_term = "blocked 72".to_string();
    overlay.update_filter();

    assert_eq!(overlay.filtered_entries.len(), 1);
    assert_eq!(overlay.filtered_entries[0].label, "Workspace health");
}

#[test]
fn task_center_empty_state_is_stable() {
    let overlay = TaskCenterOverlay::new(Vec::new());
    assert_eq!(overlay.empty_state_message(), "No task-center entries yet");
}

#[test]
fn task_center_clear_unread_action_is_conditional_on_unread_state() {
    let mut unread = entry(
        "Unread build",
        "default",
        TaskCenterSource::Notification,
        TaskCenterKind::Notification,
    );
    unread.unread_count = 1;
    unread.notification_ids = vec!["notification-1".to_string()];

    let overlay = TaskCenterOverlay::new(vec![unread]);
    assert!(overlay.can_clear_unread());

    let overlay = TaskCenterOverlay::new(vec![entry(
        "Pane row",
        "default",
        TaskCenterSource::Pane,
        TaskCenterKind::Pane,
    )]);
    assert!(!overlay.can_clear_unread());
}

#[test]
fn task_center_rerun_action_is_conditional_on_failed_rows_with_metadata() {
    let mut failed = entry("Failed build", "default", TaskCenterSource::Pane, TaskCenterKind::Pane);
    failed.is_failed = true;
    failed.rerun_available = true;

    let overlay = TaskCenterOverlay::new(vec![failed]);
    assert!(overlay.can_rerun());

    let overlay = TaskCenterOverlay::new(vec![entry(
        "Healthy pane",
        "default",
        TaskCenterSource::Pane,
        TaskCenterKind::Pane,
    )]);
    assert!(!overlay.can_rerun());
}

#[test]
fn task_center_format_row_stays_a_snapshot_of_mux_entry_state() {
    let mut failed = entry("Failed build", "unity-main", TaskCenterSource::Pane, TaskCenterKind::Pane);
    failed.unread_count = 2;
    failed.is_failed = true;
    failed.is_running = true;
    failed.rerun_available = true;
    failed.workspace_status = Some("blocked".to_string());
    failed.workspace_progress = Some(37);

    let row = TaskCenterOverlay::format_row(&failed);
    assert!(row.starts_with("Failed build"));
    assert!(row.contains("unity-main"));
    assert!(row.contains("●2"));
    assert!(row.contains("✕"));
    assert!(row.contains("◌"));
    assert!(row.contains("↺"));
    assert!(row.contains("◇ blocked"));
    assert!(row.contains("37%"));
}

#[test]
fn task_center_active_row_exposes_inline_operator_actions_without_multiline_bodies() {
    let mut task_pane = entry("Worker loop", "unity-main", TaskCenterSource::Pane, TaskCenterKind::Pane);
    task_pane.kind_label = Some("task-pane".to_string());
    task_pane.unread_count = 2;
    task_pane.notification_ids = vec!["notif-1".to_string()];
    task_pane.is_failed = true;
    task_pane.rerun_available = true;
    task_pane.workspace_status = Some("blocked".to_string());
    task_pane.workspace_progress = Some(42);

    let row = TaskCenterOverlay::row_text_for_test(&task_pane, true);
    assert!(!row.contains('\n'));
    assert!(row.contains("[⏎ open]"));
    assert!(row.contains("[● clear]"));
    assert!(row.contains("[↺ rerun]"));
    assert!(row.contains("[◎ hold:"));
    assert!(row.contains("[◇ status]"));
    assert!(row.contains("[◔ progress]"));
    assert!(row.contains("[⌫ clear]"));
}

#[test]
fn task_center_header_copy_stays_within_three_lines_and_advertises_mouse_parity() {
    let overlay = TaskCenterOverlay::new(vec![entry(
        "Worker loop",
        "unity-main",
        TaskCenterSource::Pane,
        TaskCenterKind::Pane,
    )]);
    let header = overlay.header_lines_for_test();

    assert_eq!(header.len(), 3);
    assert!(header[0].contains("Task Center"));
    assert!(header[2].contains("click select"));
    assert!(header[2].contains("dbl-click focus"));
    assert!(header[2].contains("←/→ rail"));
    assert!(header[2].contains("hold"));
    assert!(header[2].contains("status"));
    assert!(header[2].contains("progress"));
}

#[test]
fn task_center_left_rail_mouse_click_switches_section() {
    let mut unread = entry(
        "Unread build",
        "unity-main",
        TaskCenterSource::Notification,
        TaskCenterKind::Notification,
    );
    unread.unread_count = 2;

    let mut overlay = TaskCenterOverlay::new(vec![
        unread,
        entry("Worker", "unity-main", TaskCenterSource::Pane, TaskCenterKind::Pane),
    ]);

    let should_close = click(&mut overlay, 1, ROW_START_Y + 1, MouseButtonsState::left_button());
    assert!(!should_close);
    assert_eq!(overlay.selected_section_for_test(), TaskCenterSection::Inbox);
    assert_eq!(overlay.filtered_entries.len(), 1);
    assert_eq!(overlay.filtered_entries[0].label, "Unread build");
}

#[test]
fn task_center_arrow_keys_can_switch_sections() {
    let mut with_metadata = entry(
        "Workspace health",
        "unity-main",
        TaskCenterSource::Workspace,
        TaskCenterKind::Workspace,
    );
    with_metadata.workspace_status = Some("blocked".to_string());

    let mut overlay = TaskCenterOverlay::new(vec![
        with_metadata,
        entry("Worker", "unity-main", TaskCenterSource::Pane, TaskCenterKind::Pane),
    ]);

    overlay.move_section_right();
    overlay.move_section_right();
    overlay.move_section_right();
    overlay.move_section_right();

    assert_eq!(overlay.selected_section_for_test(), TaskCenterSection::Metadata);
    assert_eq!(overlay.filtered_entries.len(), 1);
    assert_eq!(overlay.filtered_entries[0].label, "Workspace health");
}

#[test]
fn task_center_single_click_selects_and_double_click_requests_primary_action() {
    let mut overlay = TaskCenterOverlay::new(vec![
        entry("Planner", "default", TaskCenterSource::Pane, TaskCenterKind::Pane),
        entry("Worker", "unity-main", TaskCenterSource::Pane, TaskCenterKind::Pane),
    ]);
    overlay.set_visible_rows_for_test(3);

    let should_close = click(&mut overlay, CONTENT_START_X, ROW_START_Y + 1, MouseButtonsState::left_button());
    assert!(!should_close);
    assert_eq!(overlay.selected_label_for_test(), Some("Worker"));

    let should_close = click(&mut overlay, CONTENT_START_X, ROW_START_Y + 1, MouseButtonsState::left_button());
    assert!(should_close);
}

#[test]
fn task_center_wheel_scroll_keeps_selection_and_top_row_in_sync() {
    let mut overlay = TaskCenterOverlay::new(
        (0..6)
            .map(|idx| entry(&format!("Pane {idx}"), "unity-main", TaskCenterSource::Pane, TaskCenterKind::Pane))
            .collect(),
    );
    overlay.set_visible_rows_for_test(2);

    click(&mut overlay, 0, ROW_START_Y + 1, MouseButtonsState::wheel_down());
    assert_eq!(overlay.top_row_for_test(), 1);
    assert_eq!(overlay.selected_label_for_test(), Some("Pane 2"));
}

#[test]
fn task_center_inline_action_hit_testing_enters_metadata_prompt_mode() {
    let mut entry = entry("Worker loop", "unity-main", TaskCenterSource::Pane, TaskCenterKind::Pane);
    entry.workspace_status = Some("blocked".to_string());
    entry.workspace_progress = Some(42);

    let mut overlay = TaskCenterOverlay::new(vec![entry]);
    overlay.set_visible_rows_for_test(3);

    let x = overlay.action_x_for_test(RowAction::EditStatus).unwrap();
    let should_close = click(&mut overlay, x, ROW_START_Y, MouseButtonsState::left_button());
    assert!(!should_close);
    assert_eq!(overlay.mode_name_for_test(), "prompt:status");
}

#[test]
fn progress_prompt_rejects_values_above_one_hundred_and_accepts_a_percentage() {
    let mut row = entry("Worker loop", "unity-main", TaskCenterSource::Pane, TaskCenterKind::Pane);
    row.workspace_progress = Some(10);
    let mut overlay = TaskCenterOverlay::new(vec![row]);
    overlay.open_progress_prompt();
    assert_eq!(overlay.mode_name_for_test(), "prompt:progress");

    let reply = overlay.handle_prompt_key(OverlayKey::Backspace);
    assert!(!reply.close);
    let reply = overlay.handle_prompt_key(OverlayKey::Backspace);
    assert!(!reply.close);
    for c in "101".chars() {
        overlay.handle_prompt_key(OverlayKey::Char(c, no_mods()));
    }
    let reply = overlay.handle_prompt_key(OverlayKey::Enter);
    assert_eq!(reply.effect, OverlayEffect::Nothing);
    assert_eq!(overlay.mode_name_for_test(), "prompt:progress");

    overlay.handle_prompt_key(OverlayKey::Backspace);
    overlay.handle_prompt_key(OverlayKey::Backspace);
    overlay.handle_prompt_key(OverlayKey::Backspace);
    for c in "55".chars() {
        overlay.handle_prompt_key(OverlayKey::Char(c, no_mods()));
    }
    let reply = overlay.handle_prompt_key(OverlayKey::Enter);
    assert_eq!(reply.effect, OverlayEffect::SetProgress("unity-main".to_string(), 55));
    assert!(matches!(overlay.mode, OverlayMode::List));
}

#[test]
fn escape_in_list_closes_and_rail_keys_stop_at_the_ends() {
    let mut overlay = TaskCenterOverlay::new(vec![entry(
        "Worker",
        "unity-main",
        TaskCenterSource::Pane,
        TaskCenterKind::Pane,
    )]);
    overlay.move_section_left();
    assert_eq!(overlay.selected_section_for_test(), TaskCenterSection::All);
    for _ in 0..7 {
        overlay.move_section_right();
    }
    assert_eq!(overlay.selected_section_for_test(), TaskCenterSection::Tasks);
    assert_eq!(overlay.filtered_entries.len(), 1);
    let reply = overlay.handle_list_key(OverlayKey::Escape);
    assert!(reply.close);
}

#[test]
fn parse_query_splits_filters_from_free_text() {
    let parsed = TaskCenterOverlay::parse_query("Unread source:PANE deploy kind:bogus");
    assert!(parsed.filters.unread);
    assert_eq!(parsed.filters.source, Some(TaskCenterSource::Pane));
    assert_eq!(parsed.filters.kind, None);
    assert_eq!(parsed.free_text, "deploy");
}

#[test]
fn action_columns_are_measured_in_terminal_cells() {
    let mut row = entry("Wörker", "unity-main", TaskCenterSource::Pane, TaskCenterKind::Pane);
    row.workspace_status = Some("blocked".to_string());
    let overlay = TaskCenterOverlay::new(vec![row]);
    let open_x = overlay.action_x_for_test(RowAction::Focus).unwrap();
    let status_x = overlay.action_x_for_test(RowAction::EditStatus).unwrap();
    assert!(open_x >= CONTENT_START_X + "Wörker".chars().count());
    assert!(status_x > open_x);
}

#[test]
fn list_layout_leaves_room_for_rail_and_rows() {
    assert_eq!(list_layout(120), (18, 20, 99));
    assert_eq!(list_layout(20), (16, 18, 1));
    assert_eq!(list_layout(3), (0, 2, 0));
    assert_eq!(list_layout(0), (0, 0, 0));
}

#[test]
fn fit_screen_rows_keeps_four_lines_for_the_chrome() {
    let mut overlay = TaskCenterOverlay::new(Vec::new());
    overlay.fit_screen_rows(30);
    assert_eq!(overlay.max_items, 26);
    assert_eq!(overlay.visible_row_capacity(), 26);
    overlay.fit_screen_rows(2);
    assert_eq!(overlay.max_items, 0);
    assert_eq!(overlay.visible_row_capacity(), 1);
}

#[test]
fn prompt_and_confirm_screens_spell_out_their_lines() {
    let status = PromptState {
        kind: PromptKind::Status,
        workspace: "unity-main".to_string(),
        input: String::new(),
        error: None,
    };
    assert_eq!(
        status.screen_lines(),
        vec!["◇ status  unity-main", "current: (empty)", "Enter save  Esc cancel  blank clears", "status> "]
    );
    let progress = PromptState {
        kind: PromptKind::Progress,
        workspace: "w".to_string(),
        input: "140".to_string(),
        error: Some("progress must be 0-100".to_string()),
    };
    assert_eq!(
        progress.screen_lines(),
        vec![
            "◔ progress  w",
            "current: 140",
            "Enter save  Esc cancel  blank clears  0-100",
            "progress> 140",
            "progress must be 0-100",
        ]
    );
    let confirm = ConfirmState { workspace: "unity-main".to_string() };
    assert_eq!(
        confirm.screen_lines(),
        vec![
            "⌫ clear metadata",
            "Clear the visible status/progress summary for workspace unity-main?",
            "Enter/Y=clear Esc/N=cancel",
        ]
    );
}
