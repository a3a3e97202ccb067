use kaku::notification_store::{NotificationRecord, NotificationStore, NotificationUnreadMode};
use kaku::time::Timestamp;

fn sample_record(
    notification_id: &str,
    workspace: &str,
    window_id: Option<u64>,
    tab_id: Option<u64>,
    pane_id: Option<u64>,
    unread_mode: NotificationUnreadMode,
) -> NotificationRecord {
    let now = Timestamp::from_unix(1_700_000_000, 0);
    NotificationRecord {
        notification_id: notification_id.to_string(),
        workspace: workspace.to_string(),
        window_id,
        tab_id,
        pane_id,
        kind: "task".to_string(),
        title: format!("Notification {notification_id}"),
        body: Some(format!("Body {notification_id}")),
        unread: true,
        unread_mode,
        created_at: now,
        updated_at: now,
    }
}

fn ids(values: &[&str]) -> Vec<String> {
    values.iter().map(|v| v.to_string()).collect()
}

#[test]
fn creating_notifications_preserves_scope_fields_for_all_supported_scopes() {
    let mut store = NotificationStore::new();

    let workspace_only = sample_record("workspace-only", "alpha", None, None, None, NotificationUnreadMode::Sticky);
    let tab_only = sample_record("tab-only", "alpha", Some(11), Some(21), None, NotificationUnreadMode::ClearOnFocus);
    let pane_scoped = sample_record("pane-scoped", "alpha", Some(11), Some(21), Some(301), NotificationUnreadMode::Sticky);

    store.create_notification(workspace_only.clone(), 301);
    store.create_notification(tab_only.clone(), 302);
    store.create_notification(pane_scoped.clone(), 303);

    let notifications = store.list_notifications();
    assert_eq!(notifications.len(), 3);

    let stored_workspace = notifications
        .iter()
        .find(|record| record.notification_id == workspace_only.notification_id)
        .unwrap();
    assert_eq!(stored_workspace.workspace, workspace_only.workspace);
    assert_eq!(stored_workspace.window_id, None);
    assert_eq!(stored_workspace.tab_id, None);
    assert_eq!(stored_workspace.pane_id, None);

    let stored_tab = notifications
        .iter()
        .find(|record| record.notification_id == tab_only.notification_id)
        .unwrap();
    assert_eq!(stored_tab.window_id, tab_only.window_id);
    assert_eq!(stored_tab.tab_id, tab_only.tab_id);
    assert_eq!(stored_tab.pane_id, None);

    let stored_pane = notifications
        .iter()
        .find(|record| record.notification_id == pane_scoped.notification_id)
        .unwrap();
    assert_eq!(stored_pane.window_id, pane_scoped.window_id);
    assert_eq!(stored_pane.tab_id, pane_scoped.tab_id);
    assert_eq!(stored_pane.pane_id, pane_scoped.pane_id);
}

#[test]
fn clear_on_focus_marks_only_clear_on_focus_records_as_read() {
    let mut store = NotificationStore::new();
    let clear = sample_record("clear", "alpha", Some(11), Some(21), Some(301), NotificationUnreadMode::ClearOnFocus);
    let sticky = sample_record("sticky", "alpha", Some(11), Some(21), Some(301), NotificationUnreadMode::Sticky);

    store.create_notification(clear.clone(), 301);
    store.create_notification(sticky.clone(), 301);

    assert_eq!(store.apply_pane_focused(301), 1);

    let notifications = store.list_notifications();
    let clear = notifications.iter().find(|record| record.notification_id == "clear").unwrap();
    let sticky = notifications.iter().find(|record| record.notification_id == "sticky").unwrap();

    assert!(!clear.unread);
    assert!(sticky.unread);
}

#[test]
fn unread_navigation_follows_existing_pane_iteration_order_for_derived_scopes() {
    let mut store = NotificationStore::new();
    store.create_notification(
        sample_record("workspace-derived", "alpha", None, None, None, NotificationUnreadMode::Sticky),
        401,
    );
    store.create_notification(
        sample_record("tab-derived", "alpha", Some(11), Some(22), None, NotificationUnreadMode::Sticky),
        402,
    );
    store.create_notification(
        sample_record("pane-direct", "alpha", Some(11), Some(22), Some(403), NotificationUnreadMode::Sticky),
        403,
    );

    let pane_order = [400, 401, 402, 403];

    assert_eq!(store.next_unread_pane(&pane_order, Some(400)), Some(401));
    assert_eq!(store.next_unread_pane(&pane_order, Some(401)), Some(402));
    assert_eq!(store.prev_unread_pane(&pane_order, Some(403)), Some(402));
    assert_eq!(store.prev_unread_pane(&pane_order, Some(402)), Some(401));
}

#[test]
fn unread_count_for_tab_includes_workspace_only_notifications_for_same_workspace() {
    let mut store = NotificationStore::new();
    store.create_notification(
        sample_record("workspace-only", "alpha", None, None, None, NotificationUnreadMode::Sticky),
        401,
    );
    store.create_notification(
        sample_record("other-tab-pane", "alpha", Some(11), Some(22), Some(402), NotificationUnreadMode::Sticky),
        402,
    );

    assert_eq!(store.unread_count_for_tab(21, "alpha", &[999]), 1);
    assert_eq!(store.unread_count_for_tab(21, "beta", &[999]), 0);
}

#[test]
fn mark_read_then_unread_restores_the_unread_count() {
    let mut store = NotificationStore::new();
    store.create_notification(sample_record("a", "alpha", None, None, None, NotificationUnreadMode::Sticky), 1);
    store.create_notification(sample_record("b", "alpha", None, None, Some(2), NotificationUnreadMode::Sticky), 2);
    assert_eq!(store.unread_count_for_workspace("alpha"), 2);

    assert_eq!(store.mark_notifications_read(&ids(&["a", "missing"])), 1);
    assert_eq!(store.unread_count_for_workspace("alpha"), 1);
    assert_eq!(store.mark_notifications_read(&ids(&["a"])), 0);
    assert_eq!(store.mark_notifications_unread(&ids(&["a"])), 1);
    assert_eq!(store.unread_count_for_workspace("alpha"), 2);
    assert!(store.has_unread_at(1));
}

#[test]
fn recreating_an_id_replaces_the_old_record_and_moves_it_last() {
    let mut store = NotificationStore::new();
    store.create_notification(sample_record("a", "alpha", None, None, None, NotificationUnreadMode::Sticky), 1);
    store.create_notification(sample_record("b", "alpha", None, None, None, NotificationUnreadMode::Sticky), 2);
    store.create_notification(sample_record("a", "beta", None, None, None, NotificationUnreadMode::Sticky), 3);

    let listed = store.list_notifications();
    assert_eq!(listed.len(), 2);
    assert_eq!(listed[0].notification_id, "b");
    assert_eq!(listed[1].notification_id, "a");
    assert_eq!(listed[1].workspace, "beta");
    assert_eq!(store.anchor_pane_id_for_notification("a"), Some(3));
    assert_eq!(store.anchor_pane_id_for_notification("zzz"), None);
}

#[test]
fn clearing_and_renaming_touch_only_matching_records() {
    let mut store = NotificationStore::new();
    store.create_notification(sample_record("a", "alpha", None, None, None, NotificationUnreadMode::Sticky), 1);
    store.create_notification(sample_record("b", "beta", None, None, None, NotificationUnreadMode::Sticky), 2);
    store.create_notification(sample_record("c", "alpha", None, None, None, NotificationUnreadMode::Sticky), 3);

    assert_eq!(store.rename_workspace("alpha", "gamma"), 2);
    assert_eq!(store.unread_count_for_workspace("gamma"), 2);
    assert_eq!(store.unread_count_for_workspace("alpha"), 0);

    assert_eq!(store.clear_notifications(&ids(&["b", "c", "nope"])), 2);
    let listed = store.list_notifications();
    assert_eq!(listed.len(), 1);
    assert_eq!(listed[0].notification_id, "a");
}

#[test]
fn navigation_wraps_and_gives_none_without_unread_panes() {
    let mut store = NotificationStore::new();
    let order = [1, 2, 3];
    assert_eq!(store.next_unread_pane(&order, Some(1)), None);

    store.create_notification(sample_record("x", "alpha", None, None, Some(1), NotificationUnreadMode::Sticky), 1);
    assert_eq!(store.next_unread_pane(&order, Some(3)), Some(1));
    assert_eq!(store.prev_unread_pane(&order, Some(1)), Some(1));
    assert_eq!(store.next_unread_pane(&order, None), Some(1));
}
