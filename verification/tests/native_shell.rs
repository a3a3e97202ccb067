use kaku::notification_store::{NotificationRecord, NotificationUnreadMode};
use kaku::runtime_bridge::{NativeShellBootstrapPlan, RuntimeOwnershipProof, DEFAULT_WINDOW_CLASS};
use kaku::rail::{rail_inbox, rail_label, workspace_items, RailWorkItem, WorkItemState};
use kaku::shell_actions::{ShellAction, ShellActionContext};
use kaku::snapshot::{
    branch_label_from_head, detail_cwd, gitdir_target, choose_active, refresh_scope_for_notification, snapshot_names, workspace_detail, MuxNotification,
    RuntimeSnapshot, RuntimeSnapshotSource, ShellLayoutContract, SnapshotRefreshScope, WorkspaceSummary,
};
use kaku::shell_controller::{
    augment_snapshot_at, augment_snapshot_with_local_shell_state, close_ok, count_terminal_states, focus_cycle_ok,
    local_shell_only_snapshot, local_shell_signature, refresh_after, reset_ok, shortcut_command, ShellShortcut,
    SmokeHarnessReport,
};
use kaku::task_panes::TaskPaneRecord;
use kaku::terminal::{TerminalHandleState, TerminalSurfaceState};
use kaku::time::Timestamp;
use kaku::workspace_state::{WorkspaceLogRecord, WorkspaceProgressRecord, WorkspaceStatusRecord};

const DEFAULT_WORKSPACE: &str = "default";

#[test]
fn runtime_bootstrap_ownership() {
    let plan = NativeShellBootstrapPlan::default();
    let proof = RuntimeOwnershipProof::default();
    assert_eq!(plan.window_class, DEFAULT_WINDOW_CLASS);
    assert!(plan.should_publish);
    assert_eq!(plan.default_workspace.as_deref(), Some("default"));
    assert!(plan.proves_socket_authority());
    assert_eq!(proof.primary_shell, "kaku-native-shell");
    assert_eq!(proof.fallback_shell, "kaku-gui");
    assert_eq!(proof.socket_env_var, "KAKU_UNIX_SOCKET");
    assert_eq!(proof.socket_file_prefix, "gui-sock-");
}

#[test]
fn shell_actions_visible() {
    let actions = ShellAction::operator_actions();
    assert!(actions.contains(&ShellAction::Refresh));
    assert!(actions.contains(&ShellAction::LaunchTerminal));
    assert!(actions.contains(&ShellAction::SetStatus));
    assert!(actions.contains(&ShellAction::ClearStatus));
    assert!(actions.contains(&ShellAction::SetProgress));
    assert!(actions.contains(&ShellAction::ClearProgress));
    assert!(actions.contains(&ShellAction::AppendLog));
    assert!(actions.contains(&ShellAction::MarkVisibleRead));
}

#[derive(Clone, Default)]
struct SeededSource {
    active_workspace: String,
    workspaces: Vec<String>,
    notifications: Vec<NotificationRecord>,
    task_panes: Vec<TaskPaneRecord>,
    statuses: Vec<WorkspaceStatusRecord>,
    progresses: Vec<WorkspaceProgressRecord>,
    logs: Vec<(String, Vec<WorkspaceLogRecord>)>,
}

impl RuntimeSnapshotSource for SeededSource {
    fn active_workspace(&self) -> String {
        self.active_workspace.clone()
    }

    fn iter_workspaces(&self) -> Vec<String> {
        self.workspaces.clone()
    }

    fn list_notifications(&self) -> Vec<NotificationRecord> {
        self.notifications.clone()
    }

    fn list_task_panes(&self) -> Vec<TaskPaneRecord> {
        self.task_panes.clone()
    }

    fn list_workspace_status(&self) -> Vec<WorkspaceStatusRecord> {
        self.statuses.clone()
    }

    fn list_workspace_progress(&self) -> Vec<WorkspaceProgressRecord> {
        self.progresses.clone()
    }

    fn list_workspace_log(&self, workspace: &str) -> Vec<WorkspaceLogRecord> {
        self.logs
            .iter()
            .find(|(name, _)| name == workspace)
            .map(|(_, logs)| logs.clone())
            .unwrap_or_default()
    }

    fn cwd_location(&self, _cwd: &str) -> Option<String> {
        None
    }
}

fn task_pane(pane_id: u64, is_dead: bool, is_failed: bool, exit_behavior: Option<&str>, now: Timestamp) -> TaskPaneRecord {
    TaskPaneRecord {
        pane_id,
        workspace: Some("unity-main".to_string()),
        window_id: None,
        tab_id: None,
        remain_on_exit: true,
        silenced: false,
        is_dead,
        is_failed,
        exit_behavior: exit_behavior.map(|b| b.to_string()),
        current_working_dir: Some("file:///tmp/unity-main".to_string()),
        rerun: Vec::new(),
        tee_path: None,
        updated_at: now,
    }
}

#[test]
fn shell_uses_mux_truth() {
    let now = Timestamp::from_unix(1_700_000_000, 0);
    let source = SeededSource {
        active_workspace: DEFAULT_WORKSPACE.to_string(),
        workspaces: vec![DEFAULT_WORKSPACE.to_string(), "unity-main".to_string()],
        notifications: vec![
            NotificationRecord {
                notification_id: "notif-1".to_string(),
                workspace: "unity-main".to_string(),
                window_id: None,
                tab_id: None,
                pane_id: None,
                kind: "build".to_string(),
                title: "Build failed".to_string(),
                body: Some("worker pane needs attention".to_string()),
                unread: true,
                unread_mode: NotificationUnreadMode::Sticky,
                created_at: now,
                updated_at: now,
            },
            NotificationRecord {
                notification_id: "notif-2".to_string(),
                workspace: "unity-main".to_string(),
                window_id: None,
                tab_id: None,
                pane_id: None,
                kind: "review".to_string(),
                title: "Review ready".to_string(),
                body: None,
                unread: false,
                unread_mode: NotificationUnreadMode::ClearOnFocus,
                created_at: now,
                updated_at: now,
            },
        ],
        task_panes: vec![
            task_pane(11, false, false, None, now),
            task_pane(12, true, true, Some("CloseOnCleanExit"), now),
        ],
        statuses: vec![WorkspaceStatusRecord {
            workspace: "unity-main".to_string(),
            status: "Building".to_string(),
            updated_at: now,
        }],
        progresses: vec![WorkspaceProgressRecord { workspace: "unity-main".to_string(), value: 70, updated_at: now }],
        logs: vec![(
            "unity-main".to_string(),
            vec![WorkspaceLogRecord {
                workspace: "unity-main".to_string(),
                seq: 1,
                message: "build started".to_string(),
                created_at: now,
            }],
        )],
    };

    let snapshot = RuntimeSnapshot::from_source(&source, Some("unity-main"));

    assert_eq!(snapshot.active_workspace, "unity-main");
    assert_eq!(snapshot.notifications.len(), 2);
    assert_eq!(snapshot.task_panes.len(), 2);
    assert_eq!(snapshot.logs.len(), 1);
    let unity = snapshot
        .workspaces
        .iter()
        .find(|workspace| workspace.name == "unity-main")
        .expect("unity-main workspace summary");
    assert_eq!(unity.unread_count, 1);
    assert_eq!(unity.running_count, 1);
    assert_eq!(unity.failed_count, 1);
    assert_eq!(unity.status.as_deref(), Some("Building"));
    assert_eq!(unity.progress, Some(70));
    assert_eq!(unity.log_count, 1);
}

#[test]
fn shell_snapshot_context_updates() {
    assert_eq!(
        refresh_scope_for_notification(&MuxNotification::NotificationsChanged),
        SnapshotRefreshScope::Notifications
    );
    assert_eq!(
        refresh_scope_for_notification(&MuxNotification::WorkspaceMetadataChanged),
        SnapshotRefreshScope::WorkspaceContext
    );
    assert_eq!(
        refresh_scope_for_notification(&MuxNotification::TaskPaneLifecycleChanged(7)),
        SnapshotRefreshScope::TaskPanes
    );
    assert_eq!(
        refresh_scope_for_notification(&MuxNotification::ActiveWorkspaceChanged),
        SnapshotRefreshScope::WorkspaceList
    );
    assert_eq!(refresh_scope_for_notification(&MuxNotification::WindowInvalidated(2)), SnapshotRefreshScope::Ignore);
}

#[test]
fn shell_layout_contract_sizes_and_sections() {
    let layout = ShellLayoutContract::default();
    assert_eq!(layout.chrome_height, 28);
    assert_eq!(layout.rail_width, 284);
    assert!(layout.section_names().contains(&"chrome"));
    assert!(layout.section_names().contains(&"rail"));
    assert!(layout.section_names().contains(&"main"));
    assert!(layout.section_names().contains(&"context"));

    let workspace = WorkspaceSummary {
        name: "default".to_string(),
        detail: Some("MAIN • 2 SHELLS".to_string()),
        unread_count: 1,
        running_count: 2,
        failed_count: 0,
        status: Some("running".to_string()),
        progress: Some(32),
        log_count: 5,
    };
    assert_eq!(workspace.name, "default");
    assert_eq!(workspace.progress, Some(32));
}

#[test]
fn snapshot_falls_back_to_the_default_workspace_and_sorts_names() {
    let names = snapshot_names(vec!["zeta".to_string(), "alpha".to_string(), "zeta".to_string()], "default".to_string());
    assert_eq!(names, vec!["alpha", "zeta"]);
    let names = snapshot_names(Vec::new(), "default".to_string());
    assert_eq!(names, vec!["default"]);

    let listed = vec!["alpha".to_string(), "beta".to_string()];
    assert_eq!(choose_active(&listed, Some("beta")), "beta");
    assert_eq!(choose_active(&listed, Some("gamma")), "alpha");
    assert_eq!(choose_active(&listed, None), "alpha");
}

#[test]
fn workspace_detail_names_the_place_and_counts() {
    assert_eq!(workspace_detail(None, 0, 0), None);
    assert_eq!(workspace_detail(Some("MAIN".to_string()), 2, 1).as_deref(), Some("MAIN • 2 SHELLS"));
    assert_eq!(workspace_detail(None, 1, 0).as_deref(), Some("1 SHELL"));
    assert_eq!(workspace_detail(None, 0, 3).as_deref(), Some("FAILED"));
}

#[test]
fn branch_label_reads_the_head_reference() {
    assert_eq!(
        branch_label_from_head("ref: refs/heads/feature-rail-polish\n").as_deref(),
        Some("FEATURE RAIL POLISH")
    );
    assert_eq!(branch_label_from_head("ref: refs/heads/main").as_deref(), Some("MAIN"));
    assert_eq!(branch_label_from_head("  ref: topic/straße-ä  ").as_deref(), Some("STRASSE Ä"));
    assert_eq!(branch_label_from_head("ref: refs/heads/").as_deref(), Some(""));
    assert_eq!(branch_label_from_head("ref: "), None);
    assert_eq!(branch_label_from_head("0123456789abcdef0123456789abcdef01234567\n"), None);
    assert_eq!(branch_label_from_head(""), None);
}

#[test]
fn gitdir_target_reads_the_pointer_file() {
    assert_eq!(gitdir_target("gitdir: ../.git/worktrees/rail\n").as_deref(), Some("../.git/worktrees/rail"));
    assert_eq!(gitdir_target("  gitdir:   /abs/path/.git  \n").as_deref(), Some("/abs/path/.git"));
    assert_eq!(gitdir_target("gitdir:/no/space"), None);
    assert_eq!(gitdir_target("something else"), None);
}

fn note(id: &str, workspace: &str, kind: &str, unread: bool, at: Timestamp) -> NotificationRecord {
    NotificationRecord {
        notification_id: id.to_string(),
        workspace: workspace.to_string(),
        window_id: None,
        tab_id: None,
        pane_id: None,
        kind: kind.to_string(),
        title: id.to_uppercase(),
        body: None,
        unread,
        unread_mode: NotificationUnreadMode::Sticky,
        created_at: at,
        updated_at: at,
    }
}

fn summary(name: &str, unread_count: usize, failed_count: usize) -> WorkspaceSummary {
    WorkspaceSummary {
        name: name.to_string(),
        detail: None,
        unread_count,
        running_count: 0,
        failed_count,
        status: Some("idle".to_string()),
        progress: Some(10),
        log_count: 3,
    }
}

fn empty_snapshot(active: &str, workspaces: Vec<WorkspaceSummary>, notifications: Vec<NotificationRecord>) -> RuntimeSnapshot {
    RuntimeSnapshot {
        active_workspace: active.to_string(),
        workspaces,
        notifications,
        task_panes: Vec::new(),
        statuses: Vec::new(),
        progresses: Vec::new(),
        logs: Vec::new(),
    }
}

fn surface(title: &str, badge: Option<&str>) -> TerminalSurfaceState {
    TerminalSurfaceState { title: title.to_string(), status_badge: badge.map(str::to_string) }
}

#[test]
fn local_shell_signature_lists_every_pane() {
    let idle = TerminalHandleState { live: true, pending_spawn: false, has_error: false };
    let spawning = TerminalHandleState { live: false, pending_spawn: true, has_error: false };
    let shells = vec![(surface("zsh", None), idle), (surface("build", Some("EXIT 2")), spawning)];
    assert_eq!(
        local_shell_signature(Some(1), &shells),
        "1::zsh||true|false|false||build|EXIT 2|false|true|false"
    );
    assert_eq!(local_shell_signature(None, &[]), "0::");
}

#[test]
fn local_shells_fill_in_the_active_workspace() {
    let at = Timestamp::from_unix(1_700_000_000, 0);
    let later = Timestamp::from_unix(1_700_000_500, 7);
    let mut snapshot = empty_snapshot(
        "alpha",
        vec![summary("beta", 4, 0), summary("alpha", 0, 0), summary("alpha", 9, 9)],
        vec![
            note("old-shell", "alpha", "shell", true, at),
            note("agent", "alpha", "agent", true, at),
            note("read", "alpha", "agent", false, at),
            note("beta-shell", "beta", "shell", true, at),
        ],
    );
    let sessions = vec![surface("~/src", None), surface("make", Some("Exit 2")), surface("", Some("FAILED"))];
    augment_snapshot_at(&mut snapshot, &sessions, Some(1), Some("/tmp".to_string()), later);

    let alpha = &snapshot.workspaces[1];
    assert_eq!(alpha.detail.as_deref(), Some("make • 3 SHELLS"));
    assert_eq!(alpha.running_count, 3);
    assert_eq!(alpha.failed_count, 2);
    assert_eq!(alpha.unread_count, 3);
    assert_eq!(alpha.status.as_deref(), Some("idle"));
    assert_eq!(alpha.log_count, 3);
    assert_eq!(snapshot.workspaces[0], summary("beta", 4, 0));
    assert_eq!(snapshot.workspaces[2], summary("alpha", 9, 9));

    let ids: Vec<&str> = snapshot.notifications.iter().map(|n| n.notification_id.as_str()).collect();
    assert_eq!(ids, vec!["agent", "read", "beta-shell", "local-shell-alpha-1-exit-2", "local-shell-alpha-2-failed"]);
    let local = &snapshot.notifications[3];
    assert_eq!(local.title, "Exit 2");
    assert_eq!(local.body.as_deref(), Some("make"));
    assert_eq!(local.kind, "shell");
    assert!(local.unread);
    assert_eq!(local.unread_mode, NotificationUnreadMode::Sticky);
    assert_eq!(local.created_at, later);
    assert_eq!(snapshot.notifications[4].body.as_deref(), Some(""));
}

#[test]
fn local_shells_without_badges_leave_notifications_alone() {
    let at = Timestamp::from_unix(1_700_000_000, 0);
    let notes = vec![note("old-shell", "alpha", "shell", true, at)];
    let mut snapshot = empty_snapshot("alpha", vec![summary("alpha", 1, 4)], notes.clone());
    augment_snapshot_at(&mut snapshot, &[surface("", None)], None, None, at);
    assert_eq!(snapshot.notifications, notes);
    let alpha = &snapshot.workspaces[0];
    assert_eq!(alpha.detail.as_deref(), Some("~ • 1 SHELL"));
    assert_eq!(alpha.running_count, 1);
    assert_eq!(alpha.failed_count, 4);
    assert_eq!(alpha.unread_count, 1);

    let mut untouched = empty_snapshot("alpha", vec![summary("alpha", 1, 4)], notes.clone());
    augment_snapshot_with_local_shell_state(&mut untouched, &[], Some(3), None);
    assert_eq!(untouched.workspaces[0], summary("alpha", 1, 4));
    assert_eq!(untouched.notifications, notes);

    let mut titled = empty_snapshot("alpha", vec![summary("alpha", 0, 0)], Vec::new());
    augment_snapshot_at(&mut titled, &[surface("", None), surface("vim", None)], Some(7), Some("/work".to_string()), at);
    assert_eq!(titled.workspaces[0].detail.as_deref(), Some("vim • 2 SHELLS"));
    let mut cwd = empty_snapshot("alpha", vec![summary("alpha", 0, 0)], Vec::new());
    augment_snapshot_at(&mut cwd, &[surface("", None), surface("vim", None)], None, Some("/work".to_string()), at);
    assert_eq!(cwd.workspaces[0].detail.as_deref(), Some("/work • 2 SHELLS"));
}

#[test]
fn showing_local_shells_twice_replaces_their_notifications() {
    let at = Timestamp::from_unix(1_700_000_000, 0);
    let mut snapshot = empty_snapshot(
        "alpha",
        vec![summary("alpha", 0, 0)],
        vec![note("agent", "alpha", "agent", true, at), note("old-shell", "alpha", "shell", true, at)],
    );
    let sessions = vec![surface("make", Some("EXIT 1")), surface("test", Some("EXIT 2"))];
    augment_snapshot_at(&mut snapshot, &sessions, None, None, at);
    let once: Vec<String> = snapshot.notifications.iter().map(|n| n.notification_id.clone()).collect();
    augment_snapshot_at(&mut snapshot, &sessions, None, None, Timestamp::from_unix(1_700_000_100, 0));
    let twice: Vec<String> = snapshot.notifications.iter().map(|n| n.notification_id.clone()).collect();
    assert_eq!(once, vec!["agent", "local-shell-alpha-0-exit-1", "local-shell-alpha-1-exit-2"]);
    assert_eq!(twice, once);
    assert_eq!(snapshot.workspaces[0].unread_count, 3);
    assert_eq!(snapshot.workspaces[0].failed_count, 2);
}

#[test]
fn smoke_checks_and_report_line() {
    let live = TerminalHandleState { live: true, pending_spawn: false, has_error: false };
    let pending = TerminalHandleState { live: false, pending_spawn: true, has_error: false };
    let failed = TerminalHandleState { live: false, pending_spawn: false, has_error: true };
    assert_eq!(count_terminal_states(&[live, pending, failed, live]), (2, 1, 1));
    assert!(focus_cycle_ok(Some(0), Some(1), Some(0)));
    assert!(!focus_cycle_ok(Some(0), Some(0), Some(0)));
    assert!(!focus_cycle_ok(None, Some(1), None));
    assert!(close_ok(3, 2));
    assert!(!close_ok(1, 0));
    assert!(!close_ok(3, 3));
    assert!(reset_ok(&[pending]));
    assert!(!reset_ok(&[failed]));
    assert!(!reset_ok(&[live, live]));
    let report = SmokeHarnessReport {
        startup_online: true,
        terminal_count: 1,
        live_terminals: 1,
        pending_terminals: 0,
        errored_terminals: 0,
        peak_terminal_count: 3,
        text_injection_ok: true,
        text_rendered_ok: false,
        focus_cycle_ok: true,
        close_ok: true,
        reset_ok: true,
        final_step: "complete",
    };
    assert_eq!(
        report.line(),
        "KAKU_NATIVE_SHELL_SMOKE startup_online=true terminal_count=1 live_terminals=1 pending_terminals=0 \
         errored_terminals=0 peak_terminal_count=3 text_injection_ok=true text_rendered_ok=false \
         focus_cycle_ok=true close_ok=true reset_ok=true final_step=complete"
    );
}

#[test]
fn offline_snapshot_shows_the_selected_workspace_alone() {
    let snapshot = local_shell_only_snapshot(&Some("unity-main".to_string()));
    assert_eq!(snapshot.active_workspace, "unity-main");
    assert_eq!(snapshot.workspaces.len(), 1);
    assert_eq!(snapshot.workspaces[0].name, "unity-main");
    assert_eq!(snapshot.workspaces[0].detail, None);
    assert!(snapshot.notifications.is_empty() && snapshot.task_panes.is_empty() && snapshot.logs.is_empty());
    assert_eq!(local_shell_only_snapshot(&None).active_workspace, "workspace");
}

#[test]
fn refresh_requests_reselect_only_after_workspace_list_changes() {
    let list = SnapshotRefreshScope::WorkspaceList;
    let notes = SnapshotRefreshScope::Notifications;
    assert_eq!(refresh_after(false, &[list]), None);
    assert_eq!(refresh_after(true, &[]), None);
    assert_eq!(refresh_after(true, &[notes, SnapshotRefreshScope::TaskPanes]), Some(false));
    assert_eq!(refresh_after(true, &[notes, list, SnapshotRefreshScope::Ignore]), Some(true));
}

#[test]
fn snapshot_from_records_summarises_each_name() {
    let now = Timestamp::from_unix(1_700_000_000, 0);
    let mut live = task_pane(11, false, false, None, now);
    live.current_working_dir = Some("/src/app".to_string());
    let failed = task_pane(12, true, true, Some("hold"), now);
    let tps = vec![live, failed];
    assert_eq!(detail_cwd(&tps, "unity-main").as_deref(), Some("/src/app"));
    assert_eq!(detail_cwd(&tps, "other"), None);
    let names = vec!["default".to_string(), "unity-main".to_string()];
    let snapshot = RuntimeSnapshot::from_records(
        &names,
        "unity-main".to_string(),
        vec![note("n1", "unity-main", "agent", true, now), note("n2", "unity-main", "agent", false, now)],
        tps,
        vec![WorkspaceStatusRecord { workspace: "unity-main".to_string(), status: "Building".to_string(), updated_at: now }],
        vec![WorkspaceProgressRecord { workspace: "unity-main".to_string(), value: 70, updated_at: now }],
        vec![WorkspaceLogRecord { workspace: "unity-main".to_string(), seq: 1, message: "m".to_string(), created_at: now }],
        &vec![None, Some("MAIN".to_string())],
    );
    assert_eq!(snapshot.active_workspace, "unity-main");
    assert_eq!(snapshot.workspaces.len(), 2);
    let main = &snapshot.workspaces[1];
    assert_eq!(main.name, "unity-main");
    assert_eq!((main.unread_count, main.running_count, main.failed_count, main.log_count), (1, 1, 1, 1));
    assert_eq!(main.status.as_deref(), Some("Building"));
    assert_eq!(main.progress, Some(70));
    assert_eq!(main.detail.as_deref(), Some("MAIN • 1 SHELL"));
    let default = &snapshot.workspaces[0];
    assert_eq!((default.unread_count, default.running_count, default.log_count), (0, 0, 0));
    assert_eq!(default.detail, None);
}

#[test]
fn action_context_is_stamped_with_the_clock_reading() {
    let at = ShellActionContext::at_clock_reading(
        "w".to_string(),
        None,
        Some(5),
        vec!["n".to_string()],
        Timestamp::from_unix(1_774_578_000, 9),
    );
    assert_eq!(at.unix_timestamp_secs, 1_774_578_000);
    assert_eq!(at.current_progress, Some(5));
    let before = ShellActionContext::at_clock_reading("w".to_string(), None, None, vec![], Timestamp::from_unix(-5, 0));
    assert_eq!(before.unix_timestamp_secs, 0);
}

#[test]
fn rail_labels_inbox_and_work_items() {
    assert_eq!(rail_label("unity-main", true), "U");
    assert_eq!(rail_label("", true), "•");
    assert_eq!(rail_label("ünity main", false), "ÜNITY MAIN");
    let now = Timestamp::from_unix(1_700_000_000, 0);
    let mut notes = Vec::new();
    for i in 0..8 {
        notes.push(note(&format!("n{i}"), if i == 1 { "other" } else { "unity-main" }, "agent", i != 3, now));
    }
    let mut summary_row = summary("unity-main", 0, 0);
    summary_row.detail = Some("  MAIN • 2 SHELLS ".to_string());
    let mut pane = task_pane(11, false, false, None, now);
    pane.current_working_dir = Some("/home/me/src/app".to_string());
    let mut snapshot = empty_snapshot("unity-main", vec![summary_row], notes);
    snapshot.task_panes = vec![pane, task_pane(12, true, true, None, now), task_pane(13, true, false, None, now)];
    let inbox = rail_inbox(&snapshot);
    let titles: Vec<&str> = inbox.iter().map(|(t, _)| t.as_str()).collect();
    assert_eq!(titles, vec!["N0", "N2", "N4", "N5", "N6", "N7"]);
    let items = workspace_items(&snapshot, &snapshot.workspaces[0], Some("/home/me"));
    assert_eq!(items.len(), 1 + 4 + 3);
    assert_eq!(
        items[0],
        RailWorkItem { title: "WORKTREE".to_string(), detail: "  MAIN • 2 SHELLS ".to_string(), state: Some(WorkItemState::Running) }
    );
    assert_eq!(items[1], RailWorkItem { title: "N0".to_string(), detail: String::new(), state: Some(WorkItemState::Unread) });
    assert_eq!(items[4].title, "N5");
    assert_eq!(items[5].title, "PANE 11 RUNNING");
    assert_eq!(items[6], RailWorkItem {
        title: "PANE 12 FAILED".to_string(),
        detail: "/tmp/unity-main".to_string(),
        state: Some(WorkItemState::Failed),
    });
    assert_eq!(items[7].title, "PANE 13 DONE");
    assert_eq!(items[7].state, None);
    let mut idle = summary("unity-main", 0, 0);
    idle.detail = Some(" IDLE ".to_string());
    let mut quiet = empty_snapshot("unity-main", vec![], Vec::new());
    quiet.task_panes = Vec::new();
    assert!(workspace_items(&quiet, &idle, None).is_empty());
}

#[test]
fn window_shortcuts_need_the_command_key() {
    assert_eq!(shortcut_command('t', false, false), None);
    assert_eq!(shortcut_command('t', false, true), Some(ShellShortcut::NewTerminal));
    assert_eq!(shortcut_command('T', true, true), Some(ShellShortcut::ToggleTasks));
    assert_eq!(shortcut_command('d', true, true), Some(ShellShortcut::SplitDown));
    assert_eq!(shortcut_command('\r', true, true), Some(ShellShortcut::ToggleZoom));
    assert_eq!(shortcut_command('\r', false, true), None);
    assert_eq!(shortcut_command(']', false, true), Some(ShellShortcut::FocusNext));
    assert_eq!(shortcut_command(',', false, true), Some(ShellShortcut::OpenConfig));
    assert_eq!(shortcut_command('q', false, true), None);
    assert_eq!(shortcut_command('R', true, true), Some(ShellShortcut::ResetShell));
}
