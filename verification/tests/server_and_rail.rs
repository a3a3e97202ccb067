use kaku::cli::{ClearNotifications, ListNotifications};
use kaku::notification_store::{NotificationRecord, NotificationUnreadMode};
use kaku::operator_nav::{
    AllowImage, clear_active_tab_bell_state, operator_nav_counts, operator_nav_entries,
    operator_nav_workspace_status_text, OperatorNavItem,
};
use kaku::session::{
    keep_last_entries, notification_matches_clear_filter, notification_matches_list_filter,
    notification_record_to_state, parse_unread_mode, task_pane_to_state, workspace_log_to_state,
    workspace_progress_to_state, workspace_status_to_state,
};
use kaku::shell_actions::{ShellAction, ShellActionCall, ShellActionContext, ShellActionOutcome, ShellActionTarget};
use kaku::task_center::{TaskCenterEntry, TaskCenterKind, TaskCenterSource};
use kaku::task_panes::TaskPaneRecord;
use kaku::time::{display_text, rfc3339_text, Timestamp};
use kaku::workspace_state::{WorkspaceLogRecord, WorkspaceProgressRecord, WorkspaceStatusRecord};

fn record(id: &str, workspace: &str, tab_id: Option<u64>, pane_id: Option<u64>, unread: bool) -> NotificationRecord {
    let at = Timestamp::from_unix(1_774_578_000, 250_000_000);
    NotificationRecord {
        notification_id: id.to_string(),
        workspace: workspace.to_string(),
        window_id: Some(1),
        tab_id,
        pane_id,
        kind: "build".to_string(),
        title: "t".to_string(),
        body: None,
        unread,
        unread_mode: NotificationUnreadMode::Sticky,
        created_at: at,
        updated_at: at,
    }
}

fn row(label: &str, workspace: &str, kind: TaskCenterKind) -> TaskCenterEntry {
    TaskCenterEntry {
        label: label.to_string(),
        workspace: workspace.to_string(),
        source: TaskCenterSource::Pane,
        kind,
        source_label: None,
        kind_label: None,
        window_id: None,
        tab_id: None,
        pane_id: None,
        unread_count: 0,
        notification_ids: vec![],
        is_failed: false,
        is_running: false,
        rerun_available: false,
        workspace_status: None,
        workspace_progress: None,
    }
}

#[test]
fn unread_modes_parse_by_their_wire_names() {
    assert_eq!(parse_unread_mode("sticky"), Ok(NotificationUnreadMode::Sticky));
    assert_eq!(parse_unread_mode("clear-on-focus"), Ok(NotificationUnreadMode::ClearOnFocus));
    assert_eq!(parse_unread_mode("loud"), Err("unsupported unread mode `loud`".to_string()));
}

#[test]
fn list_and_clear_filters_select_by_each_named_field() {
    let n = record("n1", "alpha", Some(3), Some(4), false);
    let all = ListNotifications { workspace: None, window_id: None, tab_id: None, pane_id: None, unread_only: false };
    assert!(notification_matches_list_filter(&n, &all));
    let unread_only = ListNotifications { unread_only: true, ..all };
    assert!(!notification_matches_list_filter(&n, &unread_only));
    let other_tab = ListNotifications { workspace: Some("alpha".to_string()), window_id: None, tab_id: Some(9), pane_id: None, unread_only: false };
    assert!(!notification_matches_list_filter(&n, &other_tab));

    let by_id = ClearNotifications { notification_ids: vec!["n1".to_string()], workspace: None, tab_id: None, pane_id: Some(4) };
    assert!(notification_matches_clear_filter(&n, &by_id));
    let other_id = ClearNotifications { notification_ids: vec!["n2".to_string()], workspace: None, tab_id: None, pane_id: None };
    assert!(!notification_matches_clear_filter(&n, &other_id));
    let any = ClearNotifications { notification_ids: vec![], workspace: Some("beta".to_string()), tab_id: None, pane_id: None };
    assert!(!notification_matches_clear_filter(&n, &any));
}

#[test]
fn log_listing_keeps_the_newest_lines() {
    let at = Timestamp::from_unix(0, 0);
    let logs: Vec<WorkspaceLogRecord> = (1..=5)
        .map(|seq| WorkspaceLogRecord { workspace: "w".to_string(), seq, message: format!("m{seq}"), created_at: at })
        .collect();
    let kept = keep_last_entries(logs.clone(), Some(2));
    assert_eq!(kept.iter().map(|r| r.seq).collect::<Vec<_>>(), vec![4, 5]);
    assert_eq!(keep_last_entries(logs.clone(), Some(10)).len(), 5);
    assert_eq!(keep_last_entries(logs, None).len(), 5);
}

#[test]
fn times_render_through_chrono() {
    let t = Timestamp::from_unix(1_774_578_000, 250_000_000);
    assert_eq!(rfc3339_text(t).as_deref(), Some("2026-03-27T02:20:00.250+00:00"));
    assert_eq!(
        rfc3339_text(Timestamp::from_unix(1_774_578_000, 123_456_000)).as_deref(),
        Some("2026-03-27T02:20:00.123456+00:00")
    );
    assert_eq!(display_text(t).as_deref(), Some("2026-03-27 02:20:00.250 UTC"));
    assert_eq!(rfc3339_text(Timestamp::from_unix(0, 0)).as_deref(), Some("1970-01-01T00:00:00+00:00"));
    assert_eq!(rfc3339_text(Timestamp::from_unix(i64::MAX, 0)), None);
    assert_eq!(display_text(Timestamp::from_unix(i64::MAX, 0)), None);
}

#[test]
fn server_states_carry_the_record_fields() {
    let state = notification_record_to_state(&record("n1", "alpha", None, Some(4), true)).expect("state");
    assert_eq!(state.notification_id, "n1");
    assert_eq!(state.unread_mode, "sticky");
    assert_eq!(state.created_at, "2026-03-27 02:20:00.250 UTC");

    let at = Timestamp::from_unix(1_774_578_000, 0);
    let status = workspace_status_to_state(WorkspaceStatusRecord { workspace: "w".to_string(), status: "up".to_string(), updated_at: at }).unwrap();
    assert_eq!(status.updated_at, "2026-03-27T02:20:00+00:00");
    let progress = workspace_progress_to_state(WorkspaceProgressRecord { workspace: "w".to_string(), value: 9, updated_at: at }).unwrap();
    assert_eq!(progress.value, 9);
    let log = workspace_log_to_state(WorkspaceLogRecord { workspace: "w".to_string(), seq: 3, message: "m".to_string(), created_at: at }).unwrap();
    assert_eq!(log.seq, 3);

    let pane = TaskPaneRecord {
        pane_id: 5,
        workspace: None,
        window_id: None,
        tab_id: None,
        remain_on_exit: false,
        silenced: true,
        is_dead: true,
        is_failed: true,
        exit_behavior: Some("Hold".to_string()),
        current_working_dir: None,
        rerun: vec![("KAKU_RERUN_COMMAND".to_string(), "make".to_string())],
        tee_path: None,
        updated_at: at,
    };
    let state = task_pane_to_state(pane).unwrap();
    assert!(state.rerun_available);
    assert!(state.silenced);
    assert_eq!(state.updated_at, "2026-03-27T02:20:00+00:00");
}

#[test]
fn rail_counts_filter_and_status_line() {
    let mut failed = row("f", "alpha", TaskCenterKind::Pane);
    failed.is_failed = true;
    let mut unread = row("u", "beta", TaskCenterKind::Notification);
    unread.unread_count = 3;
    let entries = vec![failed, unread];

    let counts = operator_nav_counts(&entries);
    assert_eq!(counts.len(), 6);
    assert_eq!(counts[0], (OperatorNavItem::Home, 2));
    assert_eq!(counts[1], (OperatorNavItem::Inbox, 1));
    assert_eq!(counts[3], (OperatorNavItem::Failed, 1));
    assert_eq!(counts[5], (OperatorNavItem::Tasks, 1));

    let alpha = operator_nav_entries(entries, Some("alpha"));
    assert_eq!(alpha.len(), 1);
    assert_eq!(alpha[0].label, "f");

    assert_eq!(operator_nav_workspace_status_text(Some("Blocked".to_string()), Some(42)).as_deref(), Some("BLOCKED | 42%"));
    assert_eq!(operator_nav_workspace_status_text(None, Some(7)).as_deref(), Some("7%"));
    assert_eq!(operator_nav_workspace_status_text(None, None), None);
}

#[test]
fn focused_window_clears_only_its_active_tab_bells() {
    let mut bells = vec![(1, true), (2, true), (3, false)];
    assert_eq!(clear_active_tab_bell_state(true, &mut bells, Some(&[1, 3])), 1);
    assert_eq!(bells, vec![(1, false), (2, true), (3, false)]);
    assert_eq!(clear_active_tab_bell_state(false, &mut bells, Some(&[2])), 0);
    assert_eq!(clear_active_tab_bell_state(true, &mut bells, None), 0);
    assert_eq!(bells, vec![(1, false), (2, true), (3, false)]);
}

#[derive(Default)]
struct Recorder {
    received: Vec<String>,
}

impl ShellActionTarget for Recorder {
    fn set_workspace_status(&mut self, workspace: &str, status: &str) {
        self.received.push(format!("status {workspace} {status}"));
    }
    fn clear_workspace_status(&mut self, workspace: &str) {
        self.received.push(format!("clear-status {workspace}"));
    }
    fn set_workspace_progress(&mut self, workspace: &str, value: u8) {
        self.received.push(format!("progress {workspace} {value}"));
    }
    fn clear_workspace_progress(&mut self, workspace: &str) {
        self.received.push(format!("clear-progress {workspace}"));
    }
    fn append_workspace_log(&mut self, workspace: &str, message: &str) {
        self.received.push(format!("log {workspace} {message}"));
    }
    fn mark_notifications_read(&mut self, notification_ids: &[String]) {
        self.received.push(format!("read {}", notification_ids.join(",")));
    }
}

#[test]
fn shell_actions_cycle_status_and_progress() {
    let mut target = Recorder::default();
    let context = ShellActionContext {
        workspace: "w".to_string(),
        current_status: Some("Reviewing".to_string()),
        current_progress: Some(64),
        visible_notification_ids: vec![],
        unix_timestamp_secs: 1234,
    };
    assert_eq!(context.next_status(), "Blocked");
    assert_eq!(context.next_progress(), 70);
    assert_eq!(context.next_log_message(), "native-shell check-in 1234");
    assert_eq!(ShellAction::SetStatus.execute(&mut target, &context), ShellActionOutcome::Mutated);
    assert_eq!(ShellAction::SetProgress.execute(&mut target, &context), ShellActionOutcome::Mutated);
    assert_eq!(ShellAction::AppendLog.execute(&mut target, &context), ShellActionOutcome::Mutated);
    assert_eq!(ShellAction::MarkVisibleRead.execute(&mut target, &context), ShellActionOutcome::NoMutation);
    assert_eq!(ShellAction::Refresh.execute(&mut target, &context), ShellActionOutcome::NoMutation);
    assert_eq!(
        target.received,
        vec!["status w Blocked", "progress w 70", "log w native-shell check-in 1234"]
    );

    let fresh = ShellActionContext::new("w".to_string(), None, Some(100), vec!["n".to_string()]);
    assert_eq!(fresh.next_status(), "Planning");
    assert_eq!(fresh.next_progress(), 15);
    assert_eq!(ShellAction::MarkVisibleRead.execute(&mut target, &fresh), ShellActionOutcome::Mutated);
}

#[test]
fn shell_action_calls_carry_the_context() {
    let context = ShellActionContext {
        workspace: "w".to_string(),
        current_status: None,
        current_progress: Some(30),
        visible_notification_ids: vec!["a".to_string(), "b".to_string()],
        unix_timestamp_secs: 77,
    };
    assert_eq!(ShellAction::Refresh.call_for(&context), None);
    assert_eq!(ShellAction::LaunchTerminal.call_for(&context), None);
    assert_eq!(
        ShellAction::SetStatus.call_for(&context),
        Some(ShellActionCall::SetStatus { workspace: "w".to_string(), status: "Planning".to_string() })
    );
    assert_eq!(
        ShellAction::SetProgress.call_for(&context),
        Some(ShellActionCall::SetProgress { workspace: "w".to_string(), value: 70 })
    );
    assert_eq!(
        ShellAction::ClearProgress.call_for(&context),
        Some(ShellActionCall::ClearProgress { workspace: "w".to_string() })
    );
    assert_eq!(
        ShellAction::ClearStatus.call_for(&context),
        Some(ShellActionCall::ClearStatus { workspace: "w".to_string() })
    );
    assert_eq!(
        ShellAction::AppendLog.call_for(&context),
        Some(ShellActionCall::AppendLog { workspace: "w".to_string(), message: "native-shell check-in 77".to_string() })
    );
    assert_eq!(
        ShellAction::MarkVisibleRead.call_for(&context),
        Some(ShellActionCall::MarkRead { notification_ids: vec!["a".to_string(), "b".to_string()] })
    );
    let mut target = Recorder::default();
    assert_eq!(ShellAction::MarkVisibleRead.execute(&mut target, &context), ShellActionOutcome::Mutated);
    assert_eq!(ShellAction::ClearStatus.execute(&mut target, &context), ShellActionOutcome::Mutated);
    assert_eq!(target.received, vec!["read a,b", "clear-status w"]);
}

#[test]
fn texture_failures_step_images_down_until_giving_up() {
    let mut setting = AllowImage::Yes;
    let mut steps = Vec::new();
    while let Some(next) = setting.after_texture_failure() {
        steps.push(next);
        setting = next;
    }
    assert_eq!(steps, vec![AllowImage::Scale(2), AllowImage::Scale(4), AllowImage::Scale(8), AllowImage::No]);
    assert_eq!(AllowImage::Scale(3).after_texture_failure(), None);
}

#[test]
fn each_shell_action_makes_exactly_its_one_call() {
    let context = ShellActionContext {
        workspace: "unity-main".to_string(),
        current_status: None,
        current_progress: Some(30),
        visible_notification_ids: vec![],
        unix_timestamp_secs: 0,
    };
    let mut target = Recorder::default();
    assert_eq!(ShellAction::SetProgress.execute(&mut target, &context), ShellActionOutcome::Mutated);
    assert_eq!(target.received, vec!["progress unity-main 70"]);
    assert_eq!(ShellAction::MarkVisibleRead.execute(&mut target, &context), ShellActionOutcome::NoMutation);
    assert_eq!(ShellAction::LaunchTerminal.execute(&mut target, &context), ShellActionOutcome::NoMutation);
    assert_eq!(target.received, vec!["progress unity-main 70"]);
    assert_eq!(ShellAction::ClearProgress.execute(&mut target, &context), ShellActionOutcome::Mutated);
    assert_eq!(target.received, vec!["progress unity-main 70", "clear-progress unity-main"]);
}
