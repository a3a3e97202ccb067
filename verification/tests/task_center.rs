use kaku::notification_store::{NotificationRecord, NotificationUnreadMode};
use kaku::task_center::{
    build_task_center_entries, dedup_strings, rerun_available_from_user_vars,
    task_center_workspace_names, PaneProgress, TaskCenterPaneSnapshot, TaskCenterSource,
    TaskCenterTabSnapshot, TaskCenterWindowSnapshot,
};
use kaku::time::Timestamp;
use kaku::workspace_state::{WorkspaceProgressRecord, WorkspaceStatusRecord};

fn timestamp() -> Timestamp {
    Timestamp::from_unix(1_700_000_000, 0)
}

fn unread_notification(id: &str, workspace: &str, pane_id: Option<u64>, kind: &str, title: &str) -> NotificationRecord {
    NotificationRecord {
        notification_id: id.to_string(),
        workspace: workspace.to_string(),
        window_id: None,
        tab_id: None,
        pane_id,
        kind: kind.to_string(),
        title: title.to_string(),
        body: None,
        unread: true,
        unread_mode: NotificationUnreadMode::Sticky,
        created_at: timestamp(),
        updated_at: timestamp(),
    }
}

fn pane(pane_id: u64, title: &str, progress: PaneProgress, is_dead: bool, user_vars: Vec<(String, String)>) -> TaskCenterPaneSnapshot {
    TaskCenterPaneSnapshot { pane_id, title: title.to_string(), progress, is_dead, user_vars }
}

fn window(tab_title: &str, panes: Vec<TaskCenterPaneSnapshot>) -> TaskCenterWindowSnapshot {
    TaskCenterWindowSnapshot {
        window_id: 1,
        workspace: "unity-main".to_string(),
        tabs: vec![TaskCenterTabSnapshot { tab_id: 9, title: tab_title.to_string(), panes }],
    }
}

#[test]
fn task_center_snapshot_represents_workspace_tab_and_pane_rows() {
    let entries = build_task_center_entries(
        &["unity-main".to_string()],
        &[WorkspaceStatusRecord {
            workspace: "unity-main".to_string(),
            status: "blocked".to_string(),
            updated_at: timestamp(),
        }],
        &[WorkspaceProgressRecord { workspace: "unity-main".to_string(), value: 37, updated_at: timestamp() }],
        &[],
        &[],
        &[],
        &[],
        &[window("Build", vec![pane(12, "Compiler", PaneProgress::NotReported, false, vec![])])],
    );

    assert!(entries.iter().any(|entry| entry.source == TaskCenterSource::Workspace));
    assert!(entries.iter().any(|entry| entry.source == TaskCenterSource::Tab));
    assert!(entries.iter().any(|entry| entry.source == TaskCenterSource::Pane));

    let workspace_entry = entries.iter().find(|entry| entry.source == TaskCenterSource::Workspace).unwrap();
    assert_eq!(workspace_entry.workspace_status.as_deref(), Some("blocked"));
    assert_eq!(workspace_entry.workspace_progress, Some(37));
}

#[test]
fn task_center_snapshot_derives_unread_from_notification_records() {
    let pane_id = 12;
    let notifications = vec![
        unread_notification("notif-pane", "unity-main", Some(pane_id), "build.failed", "Pane"),
        unread_notification("notif-workspace", "unity-main", None, "workspace", "Workspace"),
    ];
    let anchor_panes = vec![("notif-workspace".to_string(), pane_id)];

    let entries = build_task_center_entries(
        &["unity-main".to_string()],
        &[],
        &[],
        &[],
        &[],
        &notifications,
        &anchor_panes,
        &[window("Build", vec![pane(pane_id, "Compiler", PaneProgress::NotReported, false, vec![])])],
    );

    let workspace_entry = entries.iter().find(|entry| entry.source == TaskCenterSource::Workspace).unwrap();
    assert_eq!(workspace_entry.unread_count, 2);
    assert_eq!(workspace_entry.notification_ids.len(), 2);

    let tab_entry = entries.iter().find(|entry| entry.source == TaskCenterSource::Tab).unwrap();
    assert_eq!(tab_entry.unread_count, 2);

    let pane_entry = entries.iter().find(|entry| entry.source == TaskCenterSource::Pane).unwrap();
    assert_eq!(pane_entry.unread_count, 2);

    assert_eq!(entries.iter().filter(|entry| entry.source == TaskCenterSource::Notification).count(), 2);
}

#[test]
fn task_center_snapshot_uses_limited_failed_running_and_rerun_signals() {
    let entries = build_task_center_entries(
        &["unity-main".to_string()],
        &[],
        &[],
        &[],
        &[],
        &[],
        &[],
        &[window(
            "Tasks",
            vec![
                pane(12, "Runner", PaneProgress::Percentage(55), false, vec![]),
                pane(
                    13,
                    "Failed",
                    PaneProgress::NotReported,
                    true,
                    vec![("KAKU_RERUN_COMMAND".to_string(), "cargo test".to_string())],
                ),
            ],
        )],
    );

    let running_entry = entries.iter().find(|entry| entry.pane_id == Some(12)).unwrap();
    assert!(running_entry.is_running);
    assert!(!running_entry.is_failed);

    let failed_entry = entries.iter().find(|entry| entry.pane_id == Some(13)).unwrap();
    assert!(failed_entry.is_failed);
    assert!(!failed_entry.is_running);
    assert!(failed_entry.rerun_available);
}

#[test]
fn workspace_names_are_sorted_and_listed_once_across_sources() {
    let names = task_center_workspace_names(
        &["zeta".to_string(), "alpha".to_string()],
        &[WorkspaceStatusRecord { workspace: "mid".to_string(), status: "up".to_string(), updated_at: timestamp() }],
        &[],
        &["alpha".to_string()],
        &[],
        &[unread_notification("n", "beta", None, "k", "t")],
        &[window("Tab", vec![])],
    );
    assert_eq!(names, vec!["alpha", "beta", "mid", "unity-main", "zeta"]);
}

#[test]
fn errored_live_pane_is_neither_running_nor_failed_and_dedup_keeps_first_occurrences() {
    let entries = build_task_center_entries(
        &[],
        &[],
        &[],
        &[],
        &[],
        &[],
        &[],
        &[window("Tasks", vec![pane(21, "Broken", PaneProgress::Error(3), false, vec![])])],
    );
    let row = entries.iter().find(|entry| entry.pane_id == Some(21)).unwrap();
    assert!(!row.is_failed);
    assert!(!row.is_running);
    assert!(!row.rerun_available);

    let mut values = vec!["b".to_string(), "a".to_string(), "b".to_string(), "c".to_string(), "a".to_string()];
    dedup_strings(&mut values);
    assert_eq!(values, vec!["b", "a", "c"]);

    assert!(rerun_available_from_user_vars(&[("kaku.rerun.payload".to_string(), "{}".to_string())]));
    assert!(!rerun_available_from_user_vars(&[("TERM".to_string(), "xterm".to_string())]));
}

#[test]
fn every_task_center_row_names_its_workspace_and_counts_its_ids() {
    let notifications = vec![
        unread_notification("n-a", "alpha", Some(12), "build.failed", "Build"),
        unread_notification("n-b", "beta", None, "agent", "Agent"),
        unread_notification("n-c", "alpha", None, "agent", "Done"),
        NotificationRecord { unread: false, ..unread_notification("n-d", "alpha", Some(12), "agent", "Seen") },
    ];
    let entries = build_task_center_entries(
        &["beta".to_string()],
        &[WorkspaceStatusRecord { workspace: "alpha".to_string(), status: "busy".to_string(), updated_at: timestamp() }],
        &[WorkspaceProgressRecord { workspace: "beta".to_string(), value: 50, updated_at: timestamp() }],
        &[],
        &[],
        &notifications,
        &[("n-c".to_string(), 12)],
        &[window("Build", vec![pane(12, "Compiler", PaneProgress::NotReported, false, vec![])])],
    );
    assert!(!entries.is_empty());
    for entry in &entries {
        assert!(entry.workspace == "alpha" || entry.workspace == "beta" || entry.workspace == "unity-main");
        assert_eq!(entry.unread_count, entry.notification_ids.len());
        let mut ids = entry.notification_ids.clone();
        ids.sort();
        ids.dedup();
        assert_eq!(ids.len(), entry.notification_ids.len());
        assert!(entry.notification_ids.iter().all(|id| id != "n-d"));
        if entry.source != TaskCenterSource::Notification {
            let status = if entry.workspace == "alpha" { Some("busy") } else { None };
            let progress = if entry.workspace == "beta" { Some(50) } else { None };
            assert_eq!(entry.workspace_status.as_deref(), status);
            assert_eq!(entry.workspace_progress, progress);
        }
    }
}
