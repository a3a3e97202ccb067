use kaku::cli::{ClearNotifications, CreateNotification, ListNotifications};
use kaku::notification_store::{NotificationRecord, NotificationStore, NotificationUnreadMode};
use kaku::server::{
    append_workspace_log_reply, clear_matching_notifications, clear_workspace_logs,
    clear_workspace_progresses, clear_workspace_statuses, create_notification, jump_unread,
    list_notification_states, list_task_pane_states, list_workspace_log_states,
    list_workspace_status_states, make_notification_id, notification_capabilities,
    notification_id_for, pipe_pane_reply, set_workspace_progress_reply, set_workspace_status_reply,
    silence_watchdog_reply,
};
use kaku::task_panes::{ExitBehavior, TaskPaneExitRecord, TaskPaneStore};
use kaku::time::Timestamp;
use kaku::workspace_state::WorkspaceStateStore;

fn record(id: &str, workspace: &str, pane_id: Option<u64>, unread: bool) -> NotificationRecord {
    let at = Timestamp::from_unix(1_774_578_000, 0);
    NotificationRecord {
        notification_id: id.to_string(),
        workspace: workspace.to_string(),
        window_id: None,
        tab_id: None,
        pane_id,
        kind: "build".to_string(),
        title: format!("title {id}"),
        body: None,
        unread,
        unread_mode: NotificationUnreadMode::Sticky,
        created_at: at,
        updated_at: at,
    }
}

fn create_request(workspace: &str, unread_mode: &str) -> CreateNotification {
    CreateNotification {
        workspace: workspace.to_string(),
        window_id: Some(1),
        tab_id: Some(2),
        pane_id: Some(3),
        kind: "build.failed".to_string(),
        title: "Build failed".to_string(),
        body: Some("see pane".to_string()),
        unread_mode: unread_mode.to_string(),
    }
}

#[test]
fn notification_ids_carry_the_creation_time() {
    assert_eq!(notification_id_for(1_700_000_000, 42), "notification-1700000000-42");
    assert!(make_notification_id().starts_with("notification-"));
}

#[test]
fn capabilities_name_every_notification_command() {
    let caps = notification_capabilities();
    assert_eq!(caps.notification_commands.len(), 9);
    assert!(caps.notification_commands.contains(&"clear-notifications".to_string()));
    assert_eq!(caps.unread_modes, vec!["clear-on-focus", "sticky"]);
    assert!(caps.supports_tabbar_markers);
}

#[test]
fn creating_a_notification_stores_it_unread_and_reports_it() {
    let mut store = NotificationStore::new();
    let reply = create_notification(&mut store, create_request("unity", "sticky"), "n-1".to_string(), 3)
        .expect("created")
        .expect("reported");
    assert_eq!(reply.notification_id, "n-1");
    assert_eq!(reply.unread_mode, "sticky");
    assert!(reply.unread);
    assert_eq!(store.anchor_pane_id_for_notification("n-1"), Some(3));

    let err = create_notification(&mut store, create_request("unity", "loud"), "n-2".to_string(), 3).unwrap_err();
    assert_eq!(err, "unsupported unread mode `loud`");
    assert_eq!(store.list_notifications().len(), 1);
}

#[test]
fn listing_notifications_applies_the_request_filters() {
    let mut store = NotificationStore::new();
    store.create_notification(record("a", "alpha", Some(1), true), 1);
    store.create_notification(record("b", "alpha", Some(2), false), 2);
    store.create_notification(record("c", "beta", Some(1), true), 1);
    let request = ListNotifications {
        workspace: Some("alpha".to_string()),
        window_id: None,
        tab_id: None,
        pane_id: None,
        unread_only: false,
    };
    let listed = list_notification_states(&store, &request).unwrap();
    assert_eq!(listed.iter().map(|s| s.notification_id.as_str()).collect::<Vec<_>>(), vec!["a", "b"]);
    let unread = ListNotifications { unread_only: true, ..request };
    assert_eq!(list_notification_states(&store, &unread).unwrap().len(), 1);
}

#[test]
fn clearing_notifications_removes_the_matching_ones() {
    let mut store = NotificationStore::new();
    store.create_notification(record("a", "alpha", Some(1), true), 1);
    store.create_notification(record("b", "beta", Some(2), true), 2);
    let request = ClearNotifications { notification_ids: vec![], workspace: Some("beta".to_string()), tab_id: None, pane_id: None };
    let (count, ids) = clear_matching_notifications(&mut store, &request);
    assert_eq!(count, 1);
    assert_eq!(ids, vec!["b"]);
    assert_eq!(store.list_notifications().len(), 1);
}

#[test]
fn a_clearing_request_matching_nothing_clears_every_notification() {
    let mut store = NotificationStore::new();
    store.create_notification(record("a", "alpha", Some(1), true), 1);
    store.create_notification(record("b", "alpha", Some(2), true), 2);
    let request = ClearNotifications { notification_ids: vec![], workspace: Some("gamma".to_string()), tab_id: None, pane_id: None };
    let (count, ids) = clear_matching_notifications(&mut store, &request);
    assert!(ids.is_empty());
    assert_eq!(count, 2);
    assert!(store.list_notifications().is_empty());
}

#[test]
fn jump_unread_checks_the_direction() {
    let mut store = NotificationStore::new();
    store.create_notification(record("a", "alpha", Some(2), true), 2);
    let order = [1, 2, 3];
    assert_eq!(jump_unread(&store, &order, 1, "next"), Ok(Some(2)));
    assert_eq!(jump_unread(&store, &order, 3, "prev"), Ok(Some(2)));
    assert_eq!(jump_unread(&store, &order, 1, "up"), Err("direction must be either \"next\" or \"prev\"".to_string()));
}

#[test]
fn clearing_workspace_metadata_reports_what_was_cleared() {
    let mut store = WorkspaceStateStore::new();
    store.set_status("a", "up");
    store.set_status("b", "down");
    store.set_progress("a", 10).unwrap();
    store.append_log("a", "one");
    store.append_log("c", "two");

    assert_eq!(clear_workspace_statuses(&mut store, Some("zzz".to_string())), (0, vec![]));
    assert_eq!(clear_workspace_statuses(&mut store, None), (2, vec!["a".to_string(), "b".to_string()]));
    assert!(store.list_status().is_empty());

    assert_eq!(clear_workspace_progresses(&mut store, Some("a".to_string())), (1, vec!["a".to_string()]));
    assert!(store.list_progress().is_empty());

    let (count, mut names) = clear_workspace_logs(&mut store, None);
    names.sort();
    assert_eq!(count, 2);
    assert_eq!(names, vec!["a", "c"]);
    assert!(store.list_all_log().is_empty());
}

#[test]
fn metadata_replies_report_the_stored_records() {
    let mut store = WorkspaceStateStore::new();
    let status = set_workspace_status_reply(&mut store, "w", "blocked").unwrap();
    assert_eq!(status.status, "blocked");
    let status = set_workspace_status_reply(&mut store, "w", "running").unwrap();
    assert_eq!(status.status, "running");
    assert_eq!(store.list_status().len(), 1);

    let progress = set_workspace_progress_reply(&mut store, "w", 55).unwrap().unwrap();
    assert_eq!(progress.value, 55);
    assert_eq!(
        set_workspace_progress_reply(&mut store, "w", 101),
        Err("workspace progress value 101 is out of range".to_string())
    );

    let line = append_workspace_log_reply(&mut store, "w", "hello").unwrap();
    assert_eq!(line.message, "hello");
    assert_eq!(line.seq, 1);

    let listed = list_workspace_status_states(&store, Some("w".to_string())).unwrap();
    assert_eq!(listed.len(), 1);
    assert!(list_workspace_status_states(&store, Some("x".to_string())).unwrap().is_empty());
}

#[test]
fn log_listing_merges_workspaces_in_sequence_order_and_keeps_the_newest() {
    let mut store = WorkspaceStateStore::new();
    store.append_log("b", "1");
    store.append_log("a", "2");
    store.append_log("b", "3");
    store.append_log("a", "4");
    let all = list_workspace_log_states(&store, None, None).unwrap();
    assert_eq!(all.iter().map(|s| s.seq).collect::<Vec<_>>(), vec![1, 2, 3, 4]);
    let last_two_a = list_workspace_log_states(&store, Some("a".to_string()), Some(1)).unwrap();
    assert_eq!(last_two_a.iter().map(|s| s.message.as_str()).collect::<Vec<_>>(), vec!["4"]);
    let newest = list_workspace_log_states(&store, None, Some(3)).unwrap();
    assert_eq!(newest.iter().map(|s| s.seq).collect::<Vec<_>>(), vec![2, 3, 4]);
}

#[test]
fn task_pane_requests_report_and_change_the_record() {
    let mut store = TaskPaneStore::new();
    store.record_exit(TaskPaneExitRecord {
        pane_id: 4,
        workspace: Some("w".to_string()),
        window_id: None,
        tab_id: None,
        remain_on_exit: true,
        is_failed: true,
        exit_behavior: ExitBehavior::Hold,
        current_working_dir: None,
        rerun: vec![],
    });
    store.upsert_live(6, Some("v".to_string()), None, None, false, false);

    let listed = list_task_pane_states(&store, None, Some("w".to_string())).unwrap();
    assert_eq!(listed.len(), 1);
    assert_eq!(listed[0].pane_id, 4);
    assert_eq!(list_task_pane_states(&store, Some(6), None).unwrap()[0].pane_id, 6);

    assert_eq!(silence_watchdog_reply(&mut store, 4, true), Ok((4, true)));
    assert_eq!(silence_watchdog_reply(&mut store, 4, true), Ok((4, true)));
    assert_eq!(silence_watchdog_reply(&mut store, 9, true), Err("pane 9 not found".to_string()));

    assert_eq!(
        pipe_pane_reply(&mut store, 4, Some("/tmp/out.log".to_string())),
        Ok((4, Some("/tmp/out.log".to_string())))
    );
    assert_eq!(pipe_pane_reply(&mut store, 4, None), Ok((4, None)));
    assert_eq!(pipe_pane_reply(&mut store, 5, None), Err("pane 5 not found".to_string()));
    let other = list_task_pane_states(&store, Some(6), None).unwrap();
    assert!(!other[0].silenced);
    assert_eq!(other[0].tee_path, None);
    let four = list_task_pane_states(&store, Some(4), None).unwrap();
    assert!(four[0].silenced && four[0].remain_on_exit && four[0].is_failed);
}
