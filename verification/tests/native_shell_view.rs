use kaku::boot_state::{
    active_workspace_summary_copy, build_workspace_summaries, failed_boot_state, format_log_row,
    format_notification_row, format_task_row, runtime_boot_state,
};
use kaku::notification_store::{NotificationRecord, NotificationUnreadMode};
use kaku::shell_actions::{ShellAction, ShellActionOutcome};
use kaku::shell_controller::{
    action_context, selected_workspace_name, should_refresh_after, TerminalSessions, TwoPaneSplit,
};
use kaku::shell_view::{
    clamped_window_size, body_position_cap, context_panel_titles, current_workspace_cwd, shell_slot_order,
    shell_tool_launch_snippet, shell_ui_contract, shortcut_entries, shorten_cwd,
    shorten_work_item_path, tool_presence_wrapper,
};
use kaku::snapshot::{RuntimeSnapshot, ShellLayoutContract, WorkspaceSummary};
use kaku::task_panes::TaskPaneRecord;
use kaku::terminal::{
    terminal_window_action, TerminalWindowAction,
    control_char_to_byte, friendly_display_path, key_to_bytes, normalize_cwd, parse_i32,
    terminal_size_for_widget, terminal_strip_state_from_title, terminal_title, utf8_bytes,
    TerminalKey,
};
use kaku::time::Timestamp;
use kaku::workspace_state::{WorkspaceLogRecord, WorkspaceProgressRecord, WorkspaceStatusRecord};

fn at() -> Timestamp {
    Timestamp::from_unix(1_700_000_000, 0)
}

fn note(id: &str, workspace: &str, unread: bool, body: Option<&str>) -> NotificationRecord {
    NotificationRecord {
        notification_id: id.to_string(),
        workspace: workspace.to_string(),
        window_id: None,
        tab_id: None,
        pane_id: None,
        kind: "build".to_string(),
        title: format!("title {id}"),
        body: body.map(|b| b.to_string()),
        unread,
        unread_mode: NotificationUnreadMode::Sticky,
        created_at: at(),
        updated_at: at(),
    }
}

fn pane(pane_id: u64, workspace: Option<&str>, is_dead: bool, is_failed: bool, cwd: Option<&str>) -> TaskPaneRecord {
    TaskPaneRecord {
        pane_id,
        workspace: workspace.map(|w| w.to_string()),
        window_id: None,
        tab_id: None,
        remain_on_exit: false,
        silenced: false,
        is_dead,
        is_failed,
        exit_behavior: None,
        current_working_dir: cwd.map(|c| c.to_string()),
        rerun: vec![],
        tee_path: None,
        updated_at: at(),
    }
}

#[test]
fn shell_layout_contract() {
    let layout = ShellLayoutContract::default();
    assert_eq!(layout.chrome_height, 28);
    assert_eq!(layout.rail_width, 284);
    assert!(layout.section_names().contains(&"chrome"));
    assert!(layout.section_names().contains(&"rail"));
    assert!(layout.section_names().contains(&"main"));
    assert!(layout.section_names().contains(&"context"));

    let workspace = WorkspaceSummary {
        name: "default".to_string(),
        detail: Some("MAIN • 2 SHELLS".to_string()),
        unread_count: 1,
        running_count: 2,
        failed_count: 0,
        status: Some("running".to_string()),
        progress: Some(32),
        log_count: 5,
    };
    assert_eq!(workspace.name, "default");
    assert_eq!(workspace.progress, Some(32));

    let contract = shell_ui_contract();
    assert_eq!(contract.primary_surface, "workspace");
    assert_eq!(contract.persistent_context_slots, ["inbox", "tasks", "metadata"]);
    assert!(contract.layout_slots.contains(&"chrome"));
    assert!(contract.layout_slots.contains(&"rail"));
    assert!(contract.layout_slots.contains(&"activity"));
    assert_eq!(
        shell_slot_order(),
        ["chrome", "rail", "workspace", "activity", "metadata", "inbox", "tasks"]
    );
    assert_eq!(context_panel_titles(), ["Inbox", "Tasks", "Activity", "Metadata"]);
}

#[test]
fn shell_typography_contract() {
    let contract = shell_ui_contract();
    assert_eq!(
        contract.typography.primary_mono_family,
        ["DMMono Nerd Font", "1984대화나눔_본문체_Regular", "monospace"]
    );
    assert!(contract.typography.operator_classes.contains(&"chrome-title"));
    assert!(contract.typography.operator_classes.contains(&"rail-name"));
    assert!(contract.typography.operator_classes.contains(&"pane-title"));
}

#[test]
fn shell_affordance_contract() {
    let contract = shell_ui_contract();
    assert!(contract
        .affordances
        .compact_count_labels
        .iter()
        .all(|label| !label.contains("unread ") && !label.contains("running ")));
    assert!(contract.affordances.header_badges.iter().all(|label| label.chars().count() <= 12));
    assert!(contract
        .affordances
        .header_badges
        .iter()
        .any(|label| label.chars().any(|ch| !ch.is_ascii_alphanumeric())));
    assert!(contract.affordances.action_labels.contains(&"↻"));
    assert!(contract.affordances.action_labels.contains(&"shell"));
    assert!(contract.affordances.action_labels.contains(&"next"));
    assert!(contract.affordances.action_labels.contains(&"close"));
}

#[test]
fn native_shell_shortcut_strip_tracks_real_pane_actions() {
    let entries = shortcut_entries();
    assert!(entries.contains(&("NEW SHELL", "CMD+T")));
    assert!(entries.contains(&("SPLIT RIGHT", "CMD+D")));
    assert!(entries.contains(&("SPLIT DOWN", "CMD+SHIFT+D")));
    assert!(entries.contains(&("TOGGLE SPLIT", "CMD+SHIFT+S")));
    assert!(entries.contains(&("ZOOM", "CMD+SHIFT+ENTER")));
    assert!(entries.contains(&("NEXT PANE", "CMD+]")));
    assert!(entries.contains(&("PREV PANE", "CMD+[")));
    assert!(entries.contains(&("CLOSE PANE", "CMD+W")));
    assert!(entries.contains(&("LAZYGIT", "CMD+SHIFT+G")));
    assert!(entries.contains(&("YAZI", "CMD+SHIFT+Y")));
    assert!(entries.contains(&("DOCTOR", "CMD+SHIFT+O")));
    assert!(entries.contains(&("CONFIG", "CMD+,")));
    assert!(entries.contains(&("CLEAR", "CMD+SHIFT+X")));
    assert!(entries.contains(&("PROGRESS", "CMD+SHIFT+P")));
    assert!(entries.contains(&("LOG", "CMD+SHIFT+L")));
}

#[test]
fn lazygit_launch_snippet_is_user_friendly() {
    let snippet = shell_tool_launch_snippet("lazygit");
    assert!(snippet.contains("command -v lazygit"));
    assert!(snippet.contains("lazygit;"));
    assert!(snippet.contains("LAZYGIT IS NOT INSTALLED"));
}

#[test]
fn kaku_config_launch_snippet_checks_for_kaku_binary() {
    let snippet = shell_tool_launch_snippet("kaku config");
    assert!(snippet.contains("command -v kaku"));
    assert!(snippet.contains("kaku config"));
    assert!(snippet.contains("KAKU IS NOT INSTALLED"));
}

#[test]
fn parses_terminal_title_payload_for_missing_command() {
    let parsed = terminal_strip_state_from_title("kaku-status:127:/Users/henry/Documents/code", Some("/Users/henry"))
        .expect("title payload should parse");
    assert_eq!(parsed.title, "~/Documents/code");
    assert_eq!(parsed.status_badge.as_deref(), Some("NOT FOUND"));
}

#[test]
fn parses_terminal_title_payload_for_generic_failure() {
    let parsed = terminal_strip_state_from_title("kaku-status:2:/tmp/work", Some("/Users/henry")).expect("payload should parse");
    assert_eq!(parsed.title, "/tmp/work");
    assert_eq!(parsed.status_badge.as_deref(), Some("EXIT 2"));
}

#[test]
fn status_titles_need_the_prefix_and_a_code() {
    assert!(terminal_strip_state_from_title("vim", None).is_none());
    assert!(terminal_strip_state_from_title("kaku-status:x:/tmp", None).is_none());
    let ok = terminal_strip_state_from_title("kaku-status:0", None).unwrap();
    assert_eq!(ok.title, "");
    assert_eq!(ok.status_badge, None);
    let neg = terminal_strip_state_from_title("kaku-status:-1:/srv:extra", None).unwrap();
    assert_eq!(neg.title, "/srv");
    assert_eq!(neg.status_badge.as_deref(), Some("EXIT -1"));
}

#[test]
fn integers_parse_like_the_standard_library() {
    for text in ["0", "+7", "-7", "2147483647", "-2147483648", "2147483648", "", "-", "+", "1a", "99999999999", "007"] {
        let chars: Vec<char> = text.chars().collect();
        assert_eq!(parse_i32(&chars), text.parse::<i32>().ok(), "{text}");
    }
}

#[test]
fn friendly_paths_abbreviate_the_home_directory() {
    assert_eq!(friendly_display_path("file:///home/u", Some("/home/u")), "~");
    assert_eq!(friendly_display_path("/home/u/", Some("/home/u")), "~");
    assert_eq!(friendly_display_path("/home/u/src/x", Some("/home/u")), "~/src/x");
    assert_eq!(friendly_display_path("/home/user2", Some("/home/u")), "/home/user2");
    assert_eq!(friendly_display_path("/tmp", None), "/tmp");
    assert_eq!(terminal_title(None, None), "workspace shell");
    assert_eq!(normalize_cwd("file://".to_string()), None);
    assert_eq!(normalize_cwd("file:///srv".to_string()).as_deref(), Some("/srv"));
}

#[test]
fn keys_translate_to_terminal_bytes() {
    assert_eq!(key_to_bytes(TerminalKey::Return, false, false), Some(b"\r".to_vec()));
    assert_eq!(key_to_bytes(TerminalKey::Up, false, false), Some(b"\x1b[A".to_vec()));
    assert_eq!(key_to_bytes(TerminalKey::Up, true, false), Some(b"\x1b[1;5A".to_vec()));
    assert_eq!(key_to_bytes(TerminalKey::Char('c'), true, false), Some(vec![3]));
    assert_eq!(key_to_bytes(TerminalKey::Char('x'), false, true), Some(vec![0x1b, b'x']));
    assert_eq!(key_to_bytes(TerminalKey::Char('é'), false, false), Some("é".as_bytes().to_vec()));
    assert_eq!(key_to_bytes(TerminalKey::Tab, true, false), None);
    assert_eq!(key_to_bytes(TerminalKey::Other, false, false), None);
    assert_eq!(control_char_to_byte('['), Some(vec![27]));
    assert_eq!(control_char_to_byte('1'), None);
    for c in ['a', 'ß', '€', '𝄞', '\u{7f}', '\u{800}', '\u{ffff}', '\u{10000}'] {
        assert_eq!(utf8_bytes(c), c.to_string().into_bytes());
    }
    let size = terminal_size_for_widget(80, 24, -5, 300);
    assert_eq!((size.cols, size.rows, size.pixel_width, size.pixel_height, size.dpi), (80, 24, 0, 300, 0));
}

#[test]
fn paths_shorten_to_their_last_components() {
    assert_eq!(shorten_cwd("file:///a/b"), "/a/b");
    assert_eq!(shorten_cwd("/a/b/c/d"), "…/c/d");
    assert_eq!(shorten_work_item_path("/home/u/a/b/c", Some("/home/u")), "…/a/b/c");
    assert_eq!(shorten_work_item_path("/home/u/a/b", Some("/home/u")), "~/a/b");
    assert_eq!(shorten_work_item_path("/x/y/z/w", None), "…/y/z/w");
    assert_eq!(body_position_cap(100), 620);
    assert_eq!(body_position_cap(300), 720);
    assert_eq!(
        tool_presence_wrapper("yazi", "yazi"),
        "if command -v yazi >/dev/null 2>&1; then yazi; else printf 'YAZI IS NOT INSTALLED\\n'; fi"
    );
    assert_eq!(shell_tool_launch_snippet("htop"), "htop");
}

#[test]
fn the_shown_workspace_directory_comes_from_its_first_task_pane() {
    let snapshot = RuntimeSnapshot {
        active_workspace: "w".to_string(),
        workspaces: vec![],
        notifications: vec![],
        task_panes: vec![pane(1, Some("v"), false, false, Some("/v")), pane(2, Some("w"), false, false, Some("file:///p/q/r"))],
        statuses: vec![],
        progresses: vec![],
        logs: vec![],
    };
    assert_eq!(current_workspace_cwd(&snapshot, Some("/fallback".to_string())).as_deref(), Some("…/q/r"));
    let other = RuntimeSnapshot { active_workspace: "z".to_string(), ..snapshot };
    assert_eq!(current_workspace_cwd(&other, Some("/fallback".to_string())).as_deref(), Some("/fallback"));
}

#[test]
fn boot_state_summarises_the_records() {
    let notifications = vec![
        note("a", "beta", true, Some("details")),
        note("b", "alpha", true, None),
        note("c", "alpha", false, None),
    ];
    let task_panes = vec![pane(7, Some("alpha"), false, false, None), pane(8, None, true, true, None)];
    let statuses = vec![WorkspaceStatusRecord { workspace: "alpha".to_string(), status: "Building".to_string(), updated_at: at() }];
    let progresses = vec![WorkspaceProgressRecord { workspace: "alpha".to_string(), value: 40, updated_at: at() }];
    let logs: Vec<WorkspaceLogRecord> = (1..=7)
        .map(|seq| WorkspaceLogRecord { workspace: "alpha".to_string(), seq, message: format!("m{seq}"), created_at: at() })
        .collect();
    let workspaces = vec!["beta".to_string(), "alpha".to_string()];

    let state = runtime_boot_state("alpha".to_string(), &workspaces, &statuses, &progresses, &notifications, &task_panes, &logs);
    assert_eq!(state.title, "alpha workspace");
    assert_eq!(state.status_chip, "1 running  1 failed  2 inbox");
    assert_eq!(
        state.main_copy,
        "workspace: alpha\nstatus: Building\nprogress: 40%\nrunning tasks: 1\nfailed tasks: 0\nunread notifications: 1"
    );
    assert_eq!(state.workspaces.iter().map(|w| w.name.as_str()).collect::<Vec<_>>(), vec!["alpha", "beta"]);
    assert_eq!(state.workspaces[0].status.as_deref(), Some("Building"));
    assert_eq!(state.workspaces[1].unread_count, 1);
    assert_eq!(state.inbox, vec!["beta · title a — details", "alpha · title b"]);
    assert_eq!(state.failures, vec!["alpha · pane 7 · running", "unknown · pane 8 · failed"]);
    assert_eq!(state.activity, vec!["#7 m7", "#6 m6", "#5 m5", "#4 m4", "#3 m3"]);

    let failed = failed_boot_state("boom");
    assert_eq!(failed.title, "runtime bootstrap failed");
    assert!(failed.main_copy.ends_with("failed:\n\nboom"));
}

#[test]
fn boot_rows_and_summaries_format_each_record() {
    assert_eq!(format_notification_row(&note("n", "w", true, Some(""))), "w · title n");
    assert_eq!(format_task_row(&pane(3, Some("w"), true, false, None)), "w · pane 3 · idle");
    let line = WorkspaceLogRecord { workspace: "w".to_string(), seq: 12, message: "hi".to_string(), created_at: at() };
    assert_eq!(format_log_row(line), "#12 hi");
    assert_eq!(
        active_workspace_summary_copy("w", None, None, &[], &[]),
        "workspace: w\nrunning tasks: 0\nfailed tasks: 0\nunread notifications: 0"
    );
    let names = vec!["b".to_string(), "a".to_string(), "b".to_string()];
    let rail = build_workspace_summaries(&names, &[], &[], &[], &[]);
    assert_eq!(rail.iter().map(|w| w.name.as_str()).collect::<Vec<_>>(), vec!["a", "b", "b"]);
}

#[test]
fn terminal_sessions_keep_focus_and_zoom_consistent() {
    let mut s = TerminalSessions::new();
    assert_eq!(s.next_index(), None);
    assert!(s.split_with(TwoPaneSplit::SideBySide));
    assert!(s.split_with(TwoPaneSplit::Stacked));
    assert!(s.split_with(TwoPaneSplit::Stacked));
    assert_eq!((s.count, s.focused), (3, Some(2)));
    assert_eq!(s.next_index(), Some(0));
    assert_eq!(s.previous_index(), Some(1));
    s.toggle_zoom_focused();
    assert_eq!(s.zoomed, Some(2));
    assert!(s.reorder(2, 0));
    assert_eq!((s.focused, s.zoomed), (Some(0), Some(0)));
    assert!(s.close_at(1));
    assert_eq!((s.count, s.focused, s.zoomed), (2, Some(0), Some(0)));
    assert_eq!(s.close_focused(), Some(0));
    assert_eq!((s.count, s.focused, s.zoomed), (1, Some(0), None));
    assert_eq!(s.close_focused(), None);
    assert!(!s.close_at(0));
    s.toggle_split_direction();
    assert_eq!(s.split, TwoPaneSplit::SideBySide);
    assert_eq!(s.launch_target("lazygit"), (1, true));
    assert_eq!(s.launch_target("kaku doctor"), (1, false));
    assert!(s.split_with(TwoPaneSplit::Stacked));
    assert!(s.split_with(TwoPaneSplit::Stacked));
    assert!(!s.split_with(TwoPaneSplit::Stacked));
    assert_eq!(s.launch_target("yazi"), (3, false));
}

#[test]
fn action_context_reads_the_selected_workspace() {
    let statuses = vec![WorkspaceStatusRecord { workspace: "w".to_string(), status: "Planning".to_string(), updated_at: at() }];
    let notifications = vec![note("a", "w", true, None), note("b", "w", false, None), note("c", "v", true, None)];
    let name = selected_workspace_name(&Some("w".to_string()));
    let context = action_context(name, &statuses, &[], &notifications);
    assert_eq!(context.current_status.as_deref(), Some("Planning"));
    assert_eq!(context.current_progress, None);
    assert_eq!(context.visible_notification_ids, vec!["a"]);
    assert_eq!(selected_workspace_name(&None), "workspace");
    assert!(should_refresh_after(ShellAction::Refresh, ShellActionOutcome::NoMutation));
    assert!(should_refresh_after(ShellAction::SetStatus, ShellActionOutcome::Mutated));
    assert!(!should_refresh_after(ShellAction::MarkVisibleRead, ShellActionOutcome::NoMutation));
}

#[test]
fn window_size_is_clamped_to_the_monitor() {
    assert_eq!(clamped_window_size(2560, 1440, 900, 600), (1180, 820));
    assert_eq!(clamped_window_size(2560, 1440, 3000, 2000), (2480, 1360));
    assert_eq!(clamped_window_size(1024, 768, 1500, 900), (960, 720));
    assert_eq!(clamped_window_size(1400, 1000, 1250, 850), (1250, 850));
}

#[test]
fn focus_steps_forward_then_back_to_where_it_was() {
    for count in 2..=4usize {
        for i in 0..count {
            let sessions = TerminalSessions {
                count,
                focused: Some(i),
                zoomed: None,
                preferred_focus: Some(i),
                split: TwoPaneSplit::SideBySide,
            };
            let next = sessions.next_index().unwrap();
            assert_ne!(next, i);
            let mut moved = sessions;
            moved.focus(next);
            assert_eq!(moved.previous_index(), Some(i));
        }
    }
}

#[test]
fn terminal_command_keys_run_window_actions() {
    assert_eq!(terminal_window_action(TerminalKey::Char('t'), false, true), Some(TerminalWindowAction::LaunchTerminal));
    assert_eq!(terminal_window_action(TerminalKey::Char('T'), false, true), Some(TerminalWindowAction::LaunchTerminal));
    assert_eq!(terminal_window_action(TerminalKey::Char('T'), true, true), Some(TerminalWindowAction::ToggleTasks));
    assert_eq!(terminal_window_action(TerminalKey::Char('D'), true, true), Some(TerminalWindowAction::RunDoctor));
    assert_eq!(terminal_window_action(TerminalKey::Char('d'), false, true), None);
    assert_eq!(terminal_window_action(TerminalKey::Char(']'), false, true), Some(TerminalWindowAction::FocusNextTerminal));
    assert_eq!(terminal_window_action(TerminalKey::Char('s'), true, true), Some(TerminalWindowAction::SetStatus));
    assert_eq!(terminal_window_action(TerminalKey::Char('t'), false, false), None);
    assert_eq!(terminal_window_action(TerminalKey::Return, false, true), None);
    assert_eq!(TerminalWindowAction::RunDoctor.action_name(), "win.run-doctor");
    assert_eq!(TerminalWindowAction::LaunchTerminal.action_name(), "win.launch-terminal");
}
