use kaku::session::{NotificationRecordState, TaskPaneState, WorkspaceLogState, WorkspaceStatusState};
use kaku::cli::{
    ActivatePane, ClearNotificationsCommand, ClearWorkspaceLogCommand, ClearWorkspaceStatusCommand,
    CliOutputFormatKind, IdentifyCommand, JumpNextUnreadCommand, ListNotificationsCommand,
    ListTaskPanesCommand, ListWorkspaceLogCommand, ListWorkspaceStatusCommand, MarkReadCommand,
    MarkUnreadCommand, NotifyCommand, PipePaneCommand, RerunPaneCommand, SetRemainOnExitCommand,
    SetWorkspaceProgressCommand, SetWorkspaceStatusCommand, SilenceWatchdogCommand,
    WorkspaceLogCommand,
};

fn strings(values: &[&str]) -> Vec<String> {
    values.iter().map(|v| v.to_string()).collect()
}

#[test]
fn existing_cli_regressions_activate_pane_accepts_explicit_pane_id() {
    let matches = clap::Command::new("kaku")
        .arg(clap::Arg::new("pane-id").long("pane-id"))
        .get_matches_from(["kaku", "--pane-id", "42"]);
    let pane_id = matches.get_one::<String>("pane-id").map(|v| v.parse::<u64>().unwrap());
    let cmd = ActivatePane { pane_id };
    assert_eq!(cmd.pane_id, Some(42));
}

#[test]
fn existing_cli_regressions_activate_pane_builds_focus_request() {
    let request = ActivatePane::request_for(7);
    assert_eq!(request.pane_id, 7);
}

#[test]
fn workspace_metadata_contracts_clear_log_request_shape() {
    let cmd = ClearWorkspaceLogCommand { workspace: Some("unity-main".to_string()) };
    let request = cmd.to_request();
    assert_eq!(request.workspace.as_deref(), Some("unity-main"));
}

#[test]
fn notification_contracts_clear_request_shape() {
    let cmd = ClearNotificationsCommand {
        notification_ids: strings(&["notif-1", "notif-2"]),
        workspace: Some("unity".to_string()),
        tab_id: None,
        pane_id: None,
    };
    let request = cmd.to_request();
    assert_eq!(request.notification_ids, vec!["notif-1", "notif-2"]);
    assert_eq!(request.workspace.as_deref(), Some("unity"));
    assert_eq!(request.tab_id, None);
    assert_eq!(request.pane_id, None);
}

#[test]
fn workspace_metadata_contracts_clear_status_request_shape() {
    let cmd = ClearWorkspaceStatusCommand { workspace: Some("unity-main".to_string()) };
    let request = cmd.to_request();
    assert_eq!(request.workspace.as_deref(), Some("unity-main"));
}

#[test]
fn notification_discovery_contracts_identify_request_shape() {
    let request = IdentifyCommand::make_request(5);
    assert_eq!(request.pane_id, 5);
}

#[test]
fn notification_discovery_contracts_jump_next_request_shape() {
    let request = JumpNextUnreadCommand::make_request(42);
    assert_eq!(request.pane_id, 42);
    assert_eq!(request.direction, "next");
}

#[test]
fn workspace_metadata_contracts_list_log_request_shape() {
    let cmd = ListWorkspaceLogCommand {
        workspace: Some("unity-main".to_string()),
        limit: Some(20),
        format: CliOutputFormatKind::Json,
    };
    let request = cmd.to_request();
    assert_eq!(request.workspace.as_deref(), Some("unity-main"));
    assert_eq!(request.limit, Some(20));
}

#[test]
fn notification_contracts_list_workspace_only_request_shape() {
    let cmd = ListNotificationsCommand {
        workspace: Some("unity".to_string()),
        window_id: None,
        tab_id: None,
        pane_id: None,
        unread_only: true,
        format: CliOutputFormatKind::Json,
    };
    let request = cmd.to_request();
    assert_eq!(request.workspace.as_deref(), Some("unity"));
    assert_eq!(request.window_id, None);
    assert_eq!(request.tab_id, None);
    assert_eq!(request.pane_id, None);
    assert!(request.unread_only);
}

#[test]
fn workspace_metadata_contracts_list_status_request_shape() {
    let cmd = ListWorkspaceStatusCommand { workspace: Some("unity-main".to_string()), format: CliOutputFormatKind::Json };
    let request = cmd.to_request();
    assert_eq!(request.workspace.as_deref(), Some("unity-main"));
}

#[test]
fn lifecycle_contracts_list_task_panes_request_shape() {
    let cmd = ListTaskPanesCommand {
        pane_id: Some(4),
        workspace: Some("unity-main".to_string()),
        format: CliOutputFormatKind::Json,
    };
    let request = cmd.to_request();
    assert_eq!(request.pane_id, Some(4));
    assert_eq!(request.workspace.as_deref(), Some("unity-main"));
}

#[test]
fn workspace_metadata_contracts_log_request_shape() {
    let cmd = WorkspaceLogCommand { workspace: "unity-main".to_string(), message: "build failed".to_string() };
    let request = cmd.to_request();
    assert_eq!(request.workspace, "unity-main");
    assert_eq!(request.message, "build failed");
}

#[test]
fn notification_contracts_mark_read_request_shape() {
    let cmd = MarkReadCommand { notification_ids: strings(&["notif-1", "notif-2"]) };
    let request = cmd.to_request();
    assert_eq!(request.notification_ids, vec!["notif-1", "notif-2"]);
}

#[test]
fn notification_contracts_mark_unread_request_shape() {
    let cmd = MarkUnreadCommand { notification_ids: strings(&["notif-1", "notif-2"]) };
    let request = cmd.to_request();
    assert_eq!(request.notification_ids, vec!["notif-1", "notif-2"]);
}

#[test]
fn notification_contracts_notify_workspace_only_request_shape() {
    let cmd = NotifyCommand {
        workspace: "unity".to_string(),
        window_id: None,
        tab_id: None,
        pane_id: None,
        kind: "build.failed".to_string(),
        title: "Build failed".to_string(),
        body: None,
        unread_mode: "clear-on-focus".to_string(),
    };
    let request = cmd.to_request();
    assert_eq!(request.workspace, "unity");
    assert_eq!(request.window_id, None);
    assert_eq!(request.tab_id, None);
    assert_eq!(request.pane_id, None);
    assert_eq!(request.kind, "build.failed");
    assert_eq!(request.title, "Build failed");
    assert_eq!(request.body, None);
    assert_eq!(request.unread_mode, "clear-on-focus");
}

#[test]
fn lifecycle_contracts_pipe_pane_request_shape() {
    let cmd = PipePaneCommand { pane_id: 4, file: Some("/tmp/task.log".to_string()), disable: false };
    let request = cmd.to_request().expect("request");
    assert_eq!(request.pane_id.to_string(), "4");
    assert_eq!(request.file_path.as_deref(), Some("/tmp/task.log"));
}

#[test]
fn pipe_pane_needs_a_file_unless_disabled() {
    let cmd = PipePaneCommand { pane_id: 4, file: None, disable: false };
    assert_eq!(cmd.to_request(), Err("--file is required unless --disable is used".to_string()));
    let cmd = PipePaneCommand { pane_id: 4, file: Some("/tmp/x".to_string()), disable: true };
    assert_eq!(cmd.to_request().unwrap().file_path, None);
}

#[test]
fn lifecycle_contracts_rerun_pane_request_shape() {
    let cmd = RerunPaneCommand { pane_id: 4 };
    let request = cmd.to_request();
    assert_eq!(request.pane_id, 4);
}

#[test]
fn lifecycle_contracts_rerun_pane_rejects_unexpected_status() {
    let err = RerunPaneCommand::check_reply_status("respawn").expect_err("unexpected status should fail");
    assert!(err.contains("unexpected rerun-pane status"));
    assert!(RerunPaneCommand::check_reply_status("rerun").is_ok());
}

#[test]
fn workspace_metadata_contracts_set_progress_request_shape() {
    let cmd = SetWorkspaceProgressCommand { workspace: "unity-main".to_string(), value: 37 };
    let request = cmd.to_request();
    assert_eq!(request.workspace, "unity-main");
    assert_eq!(request.value, 37);
}

#[test]
fn lifecycle_contracts_set_remain_on_exit_request_shape() {
    let cmd = SetRemainOnExitCommand { pane_id: 4, remain_on_exit: true };
    let request = cmd.to_request();
    assert_eq!(request.pane_id, 4);
    assert!(request.remain_on_exit);
}

#[test]
fn workspace_metadata_contracts_set_status_request_shape() {
    let cmd = SetWorkspaceStatusCommand { workspace: "unity-main".to_string(), status: "blocked".to_string() };
    let request = cmd.to_request();
    assert_eq!(request.workspace, "unity-main");
    assert_eq!(request.status, "blocked");
}

#[test]
fn lifecycle_contracts_silence_watchdog_request_shape() {
    let cmd = SilenceWatchdogCommand { pane_id: 4, silenced: true };
    let request = cmd.to_request();
    assert_eq!(request.pane_id.to_string(), "4");
    assert!(request.silenced);
}

fn sample_entry(workspace: &str, seq: u64, message: &str, created_at: &str) -> WorkspaceLogState {
    WorkspaceLogState {
        workspace: workspace.to_string(),
        seq,
        message: message.to_string(),
        created_at: created_at.to_string(),
    }
}

fn sample_status(workspace: &str, status: &str, updated_at: &str) -> WorkspaceStatusState {
    WorkspaceStatusState {
        workspace: workspace.to_string(),
        status: status.to_string(),
        updated_at: updated_at.to_string(),
    }
}

#[test]
fn workspace_metadata_contracts_list_log_table_columns() {
    let rendered = ListWorkspaceLogCommand::render_table(&[sample_entry(
        "unity-main",
        1,
        "build failed",
        "2026-03-27T00:00:00.000Z",
    )]);
    assert!(rendered.contains("WORKSPACE"));
    assert!(rendered.contains("SEQ"));
    assert!(rendered.contains("MESSAGE"));
    assert!(rendered.contains("CREATED_AT"));
}

#[test]
fn workspace_metadata_contracts_list_status_table_columns() {
    let rendered = ListWorkspaceStatusCommand::render_table(&[sample_status(
        "unity-main",
        "blocked",
        "2026-03-27T00:00:00Z",
    )]);
    assert!(rendered.contains("WORKSPACE"));
    assert!(rendered.contains("STATUS"));
    assert!(rendered.contains("UPDATED_AT"));
}

#[test]
fn log_table_pads_every_column_to_its_widest_cell() {
    let rendered = ListWorkspaceLogCommand::render_table(&[sample_entry(
        "unity-main",
        1,
        "build failed",
        "2026-03-27T00:00:00.000Z",
    )]);
    assert_eq!(
        rendered,
        "WORKSPACE  SEQ MESSAGE      CREATED_AT              \nunity-main 1   build failed 2026-03-27T00:00:00.000Z\n"
    );
    assert_eq!(
        ListWorkspaceLogCommand::render_table(&[]),
        "WORKSPACE SEQ MESSAGE CREATED_AT\n"
    );
}

#[test]
fn notification_table_right_aligns_the_ids() {
    let notification = NotificationRecordState {
        notification_id: "n1".to_string(),
        workspace: "alpha".to_string(),
        window_id: Some(3),
        tab_id: None,
        pane_id: Some(12345678901),
        kind: "agent".to_string(),
        title: "Done".to_string(),
        body: Some("ignored".to_string()),
        unread: true,
        unread_mode: "sticky".to_string(),
        created_at: "2026-03-27T00:00:00.000Z".to_string(),
        updated_at: "2026-03-27T00:00:00.000Z".to_string(),
    };
    let rows = ListNotificationsCommand::table_rows(std::slice::from_ref(&notification));
    assert_eq!(rows, vec![strings(&["n1", "alpha", "3", "", "12345678901", "true", "sticky", "agent", "Done"])]);
    assert_eq!(
        ListNotificationsCommand::render_table(&[notification]),
        "NOTIFICATION_ID WORKSPACE WINDOW_ID TAB_ID     PANE_ID UNREAD UNREAD_MODE KIND  TITLE\n\
         n1              alpha             3        12345678901 true   sticky      agent Done \n"
    );
}

#[test]
fn status_and_task_pane_tables_list_their_cells() {
    let rows = ListWorkspaceStatusCommand::table_rows(&[sample_status("a", "blocked", "t1"), sample_status("b", "ok", "t2")]);
    assert_eq!(rows, vec![strings(&["a", "blocked", "t1"]), strings(&["b", "ok", "t2"])]);
    let pane = TaskPaneState {
        pane_id: 42,
        workspace: None,
        window_id: Some(1),
        tab_id: Some(2),
        remain_on_exit: true,
        silenced: false,
        is_dead: true,
        is_failed: false,
        rerun_available: true,
        tee_path: Some("/tmp/tee.log".to_string()),
        current_working_dir: Some("/work".to_string()),
        updated_at: "t3".to_string(),
    };
    let rows = ListTaskPanesCommand::table_rows(std::slice::from_ref(&pane));
    assert_eq!(rows, vec![strings(&["42", "", "true", "false", "true", "false", "true", "/tmp/tee.log", "t3"])]);
    let rendered = ListTaskPanesCommand::render_table(&[pane]);
    assert!(rendered.starts_with("PANE_ID WORKSPACE REMAIN_ON_EXIT SILENCED DEAD FAILED RERUN TEE_PATH     UPDATED_AT\n"));
    assert!(rendered.ends_with("42                true           false    true false  true  /tmp/tee.log t3        \n"));
}
