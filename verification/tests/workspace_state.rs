use kaku::workspace_state::{WorkspaceProgressError, WorkspaceStateStore, WORKSPACE_LOG_CAP};

#[test]
fn set_status_replaces_existing_record_without_duplicates() {
    let mut store = WorkspaceStateStore::new();

    assert!(store.set_status("unity-main", "idle"));
    let first = store.status_for_workspace("unity-main").expect("status record");

    assert!(store.set_status("unity-main", "running"));

    let statuses = store.list_status();
    assert_eq!(statuses.len(), 1);
    assert_eq!(statuses[0].workspace, "unity-main");
    assert_eq!(statuses[0].status, "running");
    assert!(statuses[0].updated_at.not_before(&first.updated_at));
}

#[test]
fn set_progress_rejects_out_of_range_and_clear_removes_record() {
    let mut store = WorkspaceStateStore::new();

    assert!(store.set_progress("unity-main", 0).expect("0 should work"));
    assert!(store.set_progress("unity-main", 100).expect("100 should work"));
    assert_eq!(store.set_progress("unity-main", 101), Err(WorkspaceProgressError::OutOfRange(101)));

    let progress = store.progress_for_workspace("unity-main").expect("progress record");
    assert_eq!(progress.value, 100);

    assert!(store.clear_progress("unity-main"));
    assert_eq!(store.progress_for_workspace("unity-main"), None);
}

#[test]
fn append_log_truncates_oldest_entries_and_clear_is_workspace_scoped() {
    let mut store = WorkspaceStateStore::new();

    for idx in 0..=WORKSPACE_LOG_CAP {
        store.append_log("unity-main", &format!("main-{idx}"));
    }
    store.append_log("unity-sidecar", "other");

    let main_logs = store.list_log("unity-main");
    assert_eq!(main_logs.len(), WORKSPACE_LOG_CAP);
    assert_eq!(main_logs.first().map(|record| record.message.as_str()), Some("main-1"));
    assert_eq!(main_logs.last().map(|record| record.message.as_str()), Some("main-200"));
    assert!(main_logs.windows(2).all(|pair| pair[0].seq < pair[1].seq));

    assert!(store.clear_log("unity-main"));
    assert!(store.list_log("unity-main").is_empty());
    assert_eq!(store.list_log("unity-sidecar").len(), 1);
}

#[test]
fn rename_workspace_moves_all_metadata_without_losing_values() {
    let mut store = WorkspaceStateStore::new();
    store.set_status("old-name", "running");
    store.set_progress("old-name", 42).expect("progress should set");
    let first = store.append_log("old-name", "first");
    let second = store.append_log("old-name", "second");

    assert!(store.rename_workspace("old-name", "new-name"));

    assert_eq!(store.status_for_workspace("old-name"), None);
    assert_eq!(store.progress_for_workspace("old-name"), None);
    assert!(store.list_log("old-name").is_empty());

    let status = store.status_for_workspace("new-name").expect("renamed status");
    assert_eq!(status.status, "running");

    let progress = store.progress_for_workspace("new-name").expect("renamed progress");
    assert_eq!(progress.value, 42);

    let logs = store.list_log("new-name");
    assert_eq!(logs.len(), 2);
    assert_eq!(logs[0].workspace, "new-name");
    assert_eq!(logs[0].seq, first.seq);
    assert_eq!(logs[0].message, "first");
    assert_eq!(logs[1].workspace, "new-name");
    assert_eq!(logs[1].seq, second.seq);
    assert_eq!(logs[1].message, "second");
}

#[test]
fn clearing_absent_metadata_reports_no_change() {
    let mut store = WorkspaceStateStore::new();
    assert!(!store.clear_status("nowhere"));
    assert!(!store.clear_progress("nowhere"));
    assert!(!store.clear_log("nowhere"));
    assert!(!store.rename_workspace("nowhere", "elsewhere"));
    assert!(store.set_status("a", "up"));
    assert!(store.clear_status("a"));
    assert_eq!(store.status_for_workspace("a"), None);
}

#[test]
fn log_sequence_numbers_are_global_and_workspaces_are_listed_once() {
    let mut store = WorkspaceStateStore::new();
    let a = store.append_log("b-ws", "one");
    let b = store.append_log("a-ws", "two");
    let c = store.append_log("b-ws", "three");
    assert_eq!(a.seq + 1, b.seq);
    assert_eq!(b.seq + 1, c.seq);
    let names = store.list_log_workspaces();
    assert_eq!(names.len(), 2);
    assert!(names.contains(&"a-ws".to_string()));
    assert!(names.contains(&"b-ws".to_string()));
    store.set_progress("a-ws", 7).unwrap();
    assert_eq!(store.list_progress().len(), 1);
}
