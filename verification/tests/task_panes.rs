use kaku::task_panes::{
    command_rerun_metadata, is_rerun_user_var, rerun_metadata_from_command_builder,
    rerun_metadata_from_user_vars, ExitBehavior, TaskPaneExitRecord, TaskPaneStore, Var,
};

fn var(key: &str, value: &str) -> Var {
    (key.to_string(), value.to_string())
}

fn value_of<'a>(vars: &'a [Var], key: &str) -> Option<&'a str> {
    vars.iter().find(|(k, _)| k == key).map(|(_, v)| v.as_str())
}

fn exit(pane_id: u64, remain_on_exit: bool, is_failed: bool, exit_behavior: ExitBehavior, rerun: Vec<Var>) -> TaskPaneExitRecord {
    TaskPaneExitRecord {
        pane_id,
        workspace: Some("default".to_string()),
        window_id: Some(0),
        tab_id: Some(0),
        remain_on_exit,
        is_failed,
        exit_behavior,
        current_working_dir: None,
        rerun,
    }
}

#[test]
fn record_exit_persists_remain_on_exit_failure_and_rerun_metadata() {
    let mut store = TaskPaneStore::new();
    let pane_id = 7;
    let rerun = vec![var("KAKU_RERUN_COMMAND", "make test"), var("kaku.rerun.cwd", "/tmp/project")];

    let record = store.record_exit(TaskPaneExitRecord {
        pane_id,
        workspace: Some("unity-main".to_string()),
        window_id: Some(3),
        tab_id: Some(4),
        remain_on_exit: true,
        is_failed: true,
        exit_behavior: ExitBehavior::Hold,
        current_working_dir: Some("file:///tmp/project".to_string()),
        rerun: rerun.clone(),
    });

    assert_eq!(record.pane_id, pane_id);
    assert_eq!(record.workspace.as_deref(), Some("unity-main"));
    assert_eq!(record.window_id, Some(3));
    assert_eq!(record.tab_id, Some(4));
    assert!(record.remain_on_exit);
    assert!(record.is_dead);
    assert!(record.is_failed);
    assert_eq!(record.exit_behavior.as_deref(), Some("Hold"));
    assert_eq!(record.current_working_dir.as_deref(), Some("file:///tmp/project"));
    assert_eq!(record.rerun, rerun);
}

#[test]
fn record_exit_replaces_existing_pane_entry_without_duplicates() {
    let mut store = TaskPaneStore::new();
    let pane_id = 9;

    store.record_exit(TaskPaneExitRecord {
        pane_id,
        workspace: Some("default".to_string()),
        window_id: Some(1),
        tab_id: Some(1),
        remain_on_exit: false,
        is_failed: true,
        exit_behavior: ExitBehavior::CloseOnCleanExit,
        current_working_dir: None,
        rerun: Vec::new(),
    });
    let first = store.task_pane(pane_id).expect("task-pane record");

    store.record_exit(TaskPaneExitRecord {
        pane_id,
        workspace: Some("default".to_string()),
        window_id: Some(1),
        tab_id: Some(1),
        remain_on_exit: true,
        is_failed: false,
        exit_behavior: ExitBehavior::Hold,
        current_working_dir: Some("file:///tmp".to_string()),
        rerun: Vec::new(),
    });

    let records = store.list_task_panes();
    assert_eq!(records.len(), 1);
    assert!(records[0].updated_at.not_before(&first.updated_at));
    assert!(records[0].remain_on_exit);
    assert!(!records[0].is_failed);
}

#[test]
fn prune_missing_and_remove_task_pane_are_explicit() {
    let mut store = TaskPaneStore::new();
    let first = 1;
    let second = 2;

    for pane_id in [first, second] {
        store.record_exit(exit(pane_id, false, true, ExitBehavior::CloseOnCleanExit, Vec::new()));
    }

    assert_eq!(store.prune_missing(&[second]), 1);
    assert!(store.task_pane(first).is_none());
    assert!(store.task_pane(second).is_some());
    assert!(store.remove_task_pane(second));
    assert!(store.list_task_panes().is_empty());
}

#[test]
fn prune_missing_keeps_dead_records_with_retention_signals() {
    let mut store = TaskPaneStore::new();
    let failed = 3;
    let rerunnable = 4;
    let stale_live = 5;

    store.record_exit(exit(failed, false, true, ExitBehavior::CloseOnCleanExit, Vec::new()));
    store.record_exit(exit(
        rerunnable,
        false,
        false,
        ExitBehavior::CloseOnCleanExit,
        vec![var("KAKU_RERUN_COMMAND", "cargo test")],
    ));
    store.upsert_live(stale_live, Some("default".to_string()), Some(0), Some(0), false, false);

    assert_eq!(store.prune_missing(&[]), 1);
    assert!(store.task_pane(failed).is_some(), "failed panes should be retained");
    assert!(store.task_pane(rerunnable).is_some(), "rerunnable panes should be retained");
    assert!(store.task_pane(stale_live).is_none(), "live panes missing from mux should be pruned");
}

#[test]
fn rerun_metadata_filter_keeps_only_rerun_keys() {
    let user_vars = vec![
        var("KAKU_RERUN_COMMAND", "cargo test"),
        var("kaku.rerun.payload", "{\"a\":1}"),
        var("TERM", "xterm-256color"),
    ];

    let rerun = rerun_metadata_from_user_vars(&user_vars);

    assert_eq!(rerun.len(), 2);
    assert_eq!(value_of(&rerun, "KAKU_RERUN_COMMAND"), Some("cargo test"));
    assert_eq!(value_of(&rerun, "kaku.rerun.payload"), Some("{\"a\":1}"));
    assert_eq!(value_of(&rerun, "TERM"), None);
}

#[test]
fn rerun_metadata_filter_keeps_only_rerun_env_keys() {
    let argv = vec!["/bin/sh".to_string(), "-lc".to_string(), "false".to_string()];
    let env = vec![
        var("KAKU_RERUN_COMMAND", "cargo test"),
        var("kaku.rerun.payload", "{\"a\":1}"),
        var("TERM", "xterm-256color"),
    ];

    let rerun = rerun_metadata_from_command_builder(&env, &argv);

    assert_eq!(rerun.len(), 2);
    assert_eq!(value_of(&rerun, "KAKU_RERUN_COMMAND"), Some("cargo test"));
    assert_eq!(value_of(&rerun, "kaku.rerun.payload"), Some("{\"a\":1}"));
    assert_eq!(value_of(&rerun, "TERM"), None);
}

#[test]
fn rerun_metadata_from_command_builder_falls_back_to_joined_argv() {
    let argv = vec![
        "/bin/sh".to_string(),
        "-lc".to_string(),
        "echo PHASE4_FAILING_TASK; false".to_string(),
    ];

    let rerun = rerun_metadata_from_command_builder(&[], &argv);

    assert_eq!(
        value_of(&rerun, "KAKU_RERUN_COMMAND"),
        Some("/bin/sh -lc 'echo PHASE4_FAILING_TASK; false'")
    );
}

#[test]
fn upsert_live_updates_intent_without_marking_pane_dead() {
    let mut store = TaskPaneStore::new();
    let record = store.upsert_live(11, Some("default".to_string()), Some(0), Some(0), true, true);

    assert_eq!(record.workspace.as_deref(), Some("default"));
    assert!(record.remain_on_exit);
    assert!(record.silenced);
    assert!(!record.is_dead);
    assert!(!record.is_failed);
}

#[test]
fn command_line_with_a_nul_byte_gives_no_rerun_command() {
    let argv = vec!["echo".to_string(), "a\0b".to_string()];
    assert!(rerun_metadata_from_command_builder(&[], &argv).is_empty());
    assert!(rerun_metadata_from_command_builder(&[], &[]).is_empty());
    assert!(command_rerun_metadata(None).is_empty());
}

#[test]
fn rerun_user_vars_are_recognised_by_prefix() {
    assert!(is_rerun_user_var("KAKU_RERUN_PAYLOAD"));
    assert!(is_rerun_user_var("kaku.rerun.cwd"));
    assert!(!is_rerun_user_var("KAKU_RERUN"));
    assert!(!is_rerun_user_var("TERM"));
}

#[test]
fn list_task_panes_is_ordered_by_pane_and_settings_survive_a_relaunch() {
    let mut store = TaskPaneStore::new();
    store.record_exit(exit(8, false, false, ExitBehavior::Close, Vec::new()));
    store.record_exit(exit(2, false, true, ExitBehavior::Close, vec![var("KAKU_RERUN_COMMAND", "make")]));
    assert!(store.set_silenced(2, true));
    assert!(store.set_tee_path(2, Some("/tmp/out.log".to_string())));
    assert!(!store.set_silenced(99, true));

    let relaunched = store.upsert_live(2, None, None, None, false, false);
    assert!(!relaunched.silenced);
    assert_eq!(relaunched.tee_path.as_deref(), Some("/tmp/out.log"));
    assert_eq!(value_of(&relaunched.rerun, "KAKU_RERUN_COMMAND"), Some("make"));

    let ids: Vec<u64> = store.list_task_panes().iter().map(|r| r.pane_id).collect();
    assert_eq!(ids, vec![2, 8]);

    let refreshed = store.refresh_live_metadata(8, Some("file:///srv".to_string()), Vec::new());
    assert_eq!(refreshed.and_then(|r| r.current_working_dir), Some("file:///srv".to_string()));
    assert!(store.refresh_live_metadata(42, None, Vec::new()).is_none());
}
