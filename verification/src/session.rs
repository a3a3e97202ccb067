//! How the multiplexer server reads the requests of the command line: the unread mode of a new
//! notification, which notifications a listing or a clearing request selects, and how a log
//! listing is cut to its limit.

use crate::cli::{ClearNotifications, ListNotifications};
use crate::notification_store::{NotificationRecord, NotificationUnreadMode};
use crate::text::{append_chars, chars_of, contains_text, copy_opt_string, owned, str_eq, string_of, views};
use crate::task_panes::TaskPaneRecord;
use crate::time::{display_text, rfc3339_text, utc_display_text, utc_rfc3339_text, Timestamp};
use crate::workspace_state::{WorkspaceLogRecord, WorkspaceProgressRecord, WorkspaceStatusRecord};
use crate::{PaneId, TabId, WindowId};
use vstd::prelude::*;

verus! {

/// The unread mode a request names: `clear-on-focus` or `sticky`; any other name is an error
/// that quotes it.
pub fn parse_unread_mode(mode: &str) -> (r: Result<NotificationUnreadMode, String>)
    ensures
        mode@ == "clear-on-focus"@ ==> r == Ok::<NotificationUnreadMode, String>(NotificationUnreadMode::ClearOnFocus),
        mode@ == "sticky"@ ==> r == Ok::<NotificationUnreadMode, String>(NotificationUnreadMode::Sticky),
        mode@ != "clear-on-focus"@ && mode@ != "sticky"@ ==> (r matches Err(e) && e@ == "unsupported unread mode `"@ + mode@ + "`"@),
{
    proof {
        reveal_strlit("sticky");
        reveal_strlit("clear-on-focus");
        assert("sticky"@ != "clear-on-focus"@) by {
            assert("sticky"@.len() != "clear-on-focus"@.len());
        }
    }
    if str_eq(mode, "clear-on-focus") {
        Ok(NotificationUnreadMode::ClearOnFocus)
    } else if str_eq(mode, "sticky") {
        Ok(NotificationUnreadMode::Sticky)
    } else {
        let mut msg = chars_of("unsupported unread mode `");
        let m = chars_of(mode);
        append_chars(&mut msg, m.as_slice());
        let tick = chars_of("`");
        append_chars(&mut msg, tick.as_slice());
        Err(string_of(msg.as_slice()))
    }
}

/// A notification is listed by a request: it is of the request's workspace, window, tab and
/// pane, each where the request names one, and unread where only unread ones are asked for.
pub open spec fn listed_by(n: NotificationRecord, req: ListNotifications) -> bool {
    &&& (req.workspace matches Some(w) ==> n.workspace@ == w@)
    &&& (req.window_id matches Some(id) ==> n.window_id == Some(id))
    &&& (req.tab_id matches Some(id) ==> n.tab_id == Some(id))
    &&& (req.pane_id matches Some(id) ==> n.pane_id == Some(id))
    &&& (req.unread_only ==> n.unread)
}

/// A notification is cleared by a request: its id is among the request's where it names any,
/// and it is of the request's workspace, tab and pane, each where the request names one.
pub open spec fn cleared_by(n: NotificationRecord, req: ClearNotifications) -> bool {
    &&& (req.notification_ids@.len() > 0 ==> views(req.notification_ids@).contains(n.notification_id@))
    &&& (req.workspace matches Some(w) ==> n.workspace@ == w@)
    &&& (req.tab_id matches Some(id) ==> n.tab_id == Some(id))
    &&& (req.pane_id matches Some(id) ==> n.pane_id == Some(id))
}

/// Whether a listing request selects a notification (see `listed_by`).
pub fn notification_matches_list_filter(record: &NotificationRecord, request: &ListNotifications) -> (r: bool)
    ensures
        r == listed_by(*record, *request),
        r ==> request.workspace is None || record.workspace@ == request.workspace->0@,
        r ==> request.window_id is None || record.window_id == request.window_id,
        r ==> request.tab_id is None || record.tab_id == request.tab_id,
        r ==> request.pane_id is None || record.pane_id == request.pane_id,
        r ==> !request.unread_only || record.unread,
{
    if let Some(w) = &request.workspace {
        if !str_eq(record.workspace.as_str(), w.as_str()) {
            return false;
        }
    }
    if let Some(id) = request.window_id {
        if record.window_id != Some(id) {
            return false;
        }
    }
    if let Some(id) = request.tab_id {
        if record.tab_id != Some(id) {
            return false;
        }
    }
    if let Some(id) = request.pane_id {
        if record.pane_id != Some(id) {
            return false;
        }
    }
    if request.unread_only && !record.unread {
        return false;
    }
    true
}

/// Whether a clearing request selects a notification (see `cleared_by`).
pub fn notification_matches_clear_filter(record: &NotificationRecord, request: &ClearNotifications) -> (r: bool)
    ensures
        r == cleared_by(*record, *request),
        r ==> request.notification_ids@.len() == 0 || views(request.notification_ids@).contains(record.notification_id@),
        r ==> request.workspace is None || record.workspace@ == request.workspace->0@,
        r ==> request.tab_id is None || record.tab_id == request.tab_id,
        r ==> request.pane_id is None || record.pane_id == request.pane_id,
{
    if request.notification_ids.len() > 0 && !contains_text(request.notification_ids.as_slice(), record.notification_id.as_str()) {
        return false;
    }
    if let Some(w) = &request.workspace {
        if !str_eq(record.workspace.as_str(), w.as_str()) {
            return false;
        }
    }
    if let Some(id) = request.tab_id {
        if record.tab_id != Some(id) {
            return false;
        }
    }
    if let Some(id) = request.pane_id {
        if record.pane_id != Some(id) {
            return false;
        }
    }
    true
}

/// Keeps the last `limit` log lines where a limit is given and there are more.
pub fn keep_last_entries(entries: Vec<WorkspaceLogRecord>, limit: Option<usize>) -> (r: Vec<WorkspaceLogRecord>)
    ensures
        r@ == match limit {
            Some(n) if entries@.len() > n => entries@.subrange(entries@.len() - n, entries@.len() as int),
            _ => entries@,
        },
{
    let mut entries = entries;
    if let Some(n) = limit {
        if entries.len() > n {
            let at = entries.len() - n;
            let tail = entries.split_off(at);
            return tail;
        }
    }
    entries
}

/// The name of an unread mode on the wire.
pub open spec fn unread_mode_text(m: NotificationUnreadMode) -> Seq<char> {
    match m {
        NotificationUnreadMode::ClearOnFocus => "clear-on-focus"@,
        NotificationUnreadMode::Sticky => "sticky"@,
    }
}

/// A notification as the server reports it.
#[derive(Debug, PartialEq, Eq)]
pub struct NotificationRecordState {
    pub notification_id: String,
    pub workspace: String,
    pub window_id: Option<WindowId>,
    pub tab_id: Option<TabId>,
    pub pane_id: Option<PaneId>,
    pub kind: String,
    pub title: String,
    pub body: Option<String>,
    pub unread: bool,
    pub unread_mode: String,
    pub created_at: String,
    pub updated_at: String,
}

/// A workspace status as the server reports it.
#[derive(Debug, PartialEq, Eq)]
pub struct WorkspaceStatusState {
    pub workspace: String,
    pub status: String,
    pub updated_at: String,
}

/// A workspace progress as the server reports it.
#[derive(Debug, PartialEq, Eq)]
pub struct WorkspaceProgressState {
    pub workspace: String,
    pub value: u8,
    pub updated_at: String,
}

/// A log line as the server reports it.
#[derive(Debug, PartialEq, Eq)]
pub struct WorkspaceLogState {
    pub workspace: String,
    pub seq: u64,
    pub message: String,
    pub created_at: String,
}

/// A task pane as the server reports it.
#[derive(Debug, PartialEq, Eq)]
pub struct TaskPaneState {
    pub pane_id: PaneId,
    pub workspace: Option<String>,
    pub window_id: Option<WindowId>,
    pub tab_id: Option<TabId>,
    pub remain_on_exit: bool,
    pub silenced: bool,
    pub is_dead: bool,
    pub is_failed: bool,
    pub rerun_available: bool,
    pub tee_path: Option<String>,
    pub current_working_dir: Option<String>,
    pub updated_at: String,
}

/// The name of an unread mode on the wire.
pub fn unread_mode_name(m: NotificationUnreadMode) -> (r: String)
    ensures
        r@ == unread_mode_text(m),
{
    match m {
        NotificationUnreadMode::ClearOnFocus => owned("clear-on-focus"),
        NotificationUnreadMode::Sticky => owned("sticky"),
    }
}

/// chrono's display text of an instant, where chrono can represent it.
pub open spec fn display_of(t: Timestamp) -> Option<Seq<char>> {
    utc_display_text(t.secs, t.nanos)
}

/// The RFC 3339 text of an instant as chrono writes it, where chrono can represent it.
pub open spec fn rfc3339_of(t: Timestamp) -> Option<Seq<char>> {
    utc_rfc3339_text(t.secs, t.nanos)
}

/// Both times of a notification can be displayed.
pub open spec fn displayable(n: NotificationRecord) -> bool {
    display_of(n.created_at) is Some && display_of(n.updated_at) is Some
}

/// `s` reports notification `n`: its fields, its unread mode by name, its times displayed.
pub open spec fn notification_state_of(n: NotificationRecord, s: NotificationRecordState) -> bool {
    &&& s.notification_id == n.notification_id
    &&& s.workspace == n.workspace
    &&& s.window_id == n.window_id
    &&& s.tab_id == n.tab_id
    &&& s.pane_id == n.pane_id
    &&& s.kind == n.kind
    &&& s.title == n.title
    &&& s.body == n.body
    &&& s.unread == n.unread
    &&& s.unread_mode@ == unread_mode_text(n.unread_mode)
    &&& display_of(n.created_at) == Some(s.created_at@)
    &&& display_of(n.updated_at) == Some(s.updated_at@)
}

/// `s` reports status record `rec`, its time in RFC 3339 form.
pub open spec fn status_state_of(rec: WorkspaceStatusRecord, s: WorkspaceStatusState) -> bool {
    s.workspace == rec.workspace && s.status == rec.status && rfc3339_of(rec.updated_at) == Some(s.updated_at@)
}

/// `s` reports progress record `rec`, its time in RFC 3339 form.
pub open spec fn progress_state_of(rec: WorkspaceProgressRecord, s: WorkspaceProgressState) -> bool {
    s.workspace == rec.workspace && s.value == rec.value && rfc3339_of(rec.updated_at) == Some(s.updated_at@)
}

/// `s` reports log record `rec`, its time in RFC 3339 form.
pub open spec fn log_state_of(rec: WorkspaceLogRecord, s: WorkspaceLogState) -> bool {
    s.workspace == rec.workspace && s.seq == rec.seq && s.message == rec.message && rfc3339_of(rec.created_at)
        == Some(s.created_at@)
}

/// `s` reports task pane `t`: its fields, whether it has rerun variables, its time in RFC 3339
/// form.
pub open spec fn task_pane_state_of(t: TaskPaneRecord, s: TaskPaneState) -> bool {
    &&& s.pane_id == t.pane_id
    &&& s.workspace == t.workspace
    &&& s.window_id == t.window_id
    &&& s.tab_id == t.tab_id
    &&& s.remain_on_exit == t.remain_on_exit
    &&& s.silenced == t.silenced
    &&& s.is_dead == t.is_dead
    &&& s.is_failed == t.is_failed
    &&& s.rerun_available == (t.rerun@.len() > 0)
    &&& s.tee_path == t.tee_path
    &&& s.current_working_dir == t.current_working_dir
    &&& rfc3339_of(t.updated_at) == Some(s.updated_at@)
}

/// A notification as reported, its times in chrono's display form; `None` where chrono cannot
/// represent one of its times.
pub fn notification_record_to_state(record: &NotificationRecord) -> (r: Option<NotificationRecordState>)
    ensures
        r is None <==> !displayable(*record),
        r matches Some(s) ==> notification_state_of(*record, s),
{
    let created_at = display_text(record.created_at)?;
    let updated_at = display_text(record.updated_at)?;
    Some(NotificationRecordState {
        notification_id: record.notification_id.clone(),
        workspace: record.workspace.clone(),
        window_id: record.window_id,
        tab_id: record.tab_id,
        pane_id: record.pane_id,
        kind: record.kind.clone(),
        title: record.title.clone(),
        body: copy_opt_string(&record.body),
        unread: record.unread,
        unread_mode: unread_mode_name(record.unread_mode),
        created_at,
        updated_at,
    })
}

/// A workspace status as reported, its time in RFC 3339 form with milliseconds; `None` where
/// chrono cannot represent the time.
pub fn workspace_status_to_state(record: WorkspaceStatusRecord) -> (r: Option<WorkspaceStatusState>)
    ensures
        r is None <==> rfc3339_of(record.updated_at) is None,
        r matches Some(s) ==> status_state_of(record, s),
{
    let updated_at = rfc3339_text(record.updated_at)?;
    Some(WorkspaceStatusState { workspace: record.workspace, status: record.status, updated_at })
}

/// A workspace progress as reported (see `workspace_status_to_state`).
pub fn workspace_progress_to_state(record: WorkspaceProgressRecord) -> (r: Option<WorkspaceProgressState>)
    ensures
        r is None <==> rfc3339_of(record.updated_at) is None,
        r matches Some(s) ==> progress_state_of(record, s),
{
    let updated_at = rfc3339_text(record.updated_at)?;
    Some(WorkspaceProgressState { workspace: record.workspace, value: record.value, updated_at })
}

/// A log line as reported (see `workspace_status_to_state`).
pub fn workspace_log_to_state(record: WorkspaceLogRecord) -> (r: Option<WorkspaceLogState>)
    ensures
        r is None <==> rfc3339_of(record.created_at) is None,
        r matches Some(s) ==> log_state_of(record, s),
{
    let created_at = rfc3339_text(record.created_at)?;
    Some(WorkspaceLogState { workspace: record.workspace, seq: record.seq, message: record.message, created_at })
}

/// A task pane as reported: whether it can be rerun rather than its rerun variables (see
/// `workspace_status_to_state` for the time).
pub fn task_pane_to_state(record: TaskPaneRecord) -> (r: Option<TaskPaneState>)
    ensures
        r is None <==> rfc3339_of(record.updated_at) is None,
        r matches Some(s) ==> task_pane_state_of(record, s),
{
    let updated_at = rfc3339_text(record.updated_at)?;
    let rerun_available = record.rerun.len() > 0;
    Some(TaskPaneState {
        pane_id: record.pane_id,
        workspace: record.workspace,
        window_id: record.window_id,
        tab_id: record.tab_id,
        remain_on_exit: record.remain_on_exit,
        silenced: record.silenced,
        is_dead: record.is_dead,
        is_failed: record.is_failed,
        rerun_available,
        tee_path: record.tee_path,
        current_working_dir: record.current_working_dir,
        updated_at,
    })
}

} // verus!
