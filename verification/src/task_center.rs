//! The rows of the task center: one per workspace, followed by its tabs, its panes (live ones
//! and remembered task panes) and its unread notifications, derived from the stores and from a
//! snapshot of the windows.

use crate::notification_store::{pane_listed, NotificationRecord};
use crate::seq_facts::lemma_filter_push;
use crate::task_panes::{rerun_var, TaskPaneRecord, Var, is_rerun_user_var};
use crate::text::{append_chars, chars_of, contains_text, copy_opt_string, decimal, decimal_chars, lemma_lex_total, lex_less, owned, str_eq, str_less, string_of, views};
use crate::workspace_state::{WorkspaceProgressRecord, WorkspaceStatusRecord};
use crate::{PaneId, TabId, WindowId};
use vstd::prelude::*;

verus! {

/// Where a task-center row comes from.
#[derive(Clone, Copy, Debug, PartialEq, Eq, Structural)]
pub enum TaskCenterSource {
    Workspace,
    Tab,
    Pane,
    Notification,
}

/// What a task-center row stands for.
#[derive(Clone, Copy, Debug, PartialEq, Eq, Structural)]
pub enum TaskCenterKind {
    Workspace,
    Tab,
    Pane,
    Notification,
}

/// The progress a pane reports through its terminal.
#[derive(Clone, Copy, Debug, PartialEq, Eq, Structural)]
pub enum PaneProgress {
    /// No progress is reported.
    NotReported,
    Percentage(u8),
    Error(u8),
    Indeterminate,
}

/// One row of the task center.
#[derive(Debug, PartialEq, Eq)]
pub struct TaskCenterEntry {
    pub label: String,
    pub workspace: String,
    pub source: TaskCenterSource,
    pub kind: TaskCenterKind,
    pub source_label: Option<String>,
    pub kind_label: Option<String>,
    pub window_id: Option<WindowId>,
    pub tab_id: Option<TabId>,
    pub pane_id: Option<PaneId>,
    pub unread_count: usize,
    pub notification_ids: Vec<String>,
    pub is_failed: bool,
    pub is_running: bool,
    pub rerun_available: bool,
    pub workspace_status: Option<String>,
    pub workspace_progress: Option<u8>,
}

/// A task-center row with its texts as character sequences.
pub struct TaskCenterEntryView {
    pub label: Seq<char>,
    pub workspace: Seq<char>,
    pub source: TaskCenterSource,
    pub kind: TaskCenterKind,
    pub source_label: Option<Seq<char>>,
    pub kind_label: Option<Seq<char>>,
    pub window_id: Option<WindowId>,
    pub tab_id: Option<TabId>,
    pub pane_id: Option<PaneId>,
    pub unread_count: nat,
    pub notification_ids: Seq<Seq<char>>,
    pub is_failed: bool,
    pub is_running: bool,
    pub rerun_available: bool,
    pub workspace_status: Option<Seq<char>>,
    pub workspace_progress: Option<u8>,
}

/// The text of an optional string.
pub open spec fn opt_text(o: Option<String>) -> Option<Seq<char>> {
    match o {
        Some(s) => Some(s@),
        None => None,
    }
}

impl View for TaskCenterEntry {
    type V = TaskCenterEntryView;

    open spec fn view(&self) -> TaskCenterEntryView {
        TaskCenterEntryView {
            label: self.label@,
            workspace: self.workspace@,
            source: self.source,
            kind: self.kind,
            source_label: opt_text(self.source_label),
            kind_label: opt_text(self.kind_label),
            window_id: self.window_id,
            tab_id: self.tab_id,
            pane_id: self.pane_id,
            unread_count: self.unread_count as nat,
            notification_ids: views(self.notification_ids@),
            is_failed: self.is_failed,
            is_running: self.is_running,
            rerun_available: self.rerun_available,
            workspace_status: opt_text(self.workspace_status),
            workspace_progress: self.workspace_progress,
        }
    }
}

/// Copies of a list of strings.
fn copy_string_list(list: &Vec<String>) -> (r: Vec<String>)
    ensures
        views(r@) == views(list@),
{
    let mut r: Vec<String> = Vec::new();
    let mut i: usize = 0;
    while i < list.len()
        invariant
            i <= list@.len(),
            r@.len() == i,
            forall|j: int| 0 <= j < i ==> #[trigger] r@[j]@ == list@[j]@,
        decreases list@.len() - i,
    {
        r.push(list[i].clone());
        i += 1;
    }
    assert(views(r@) =~= views(list@));
    r
}

impl Clone for TaskCenterEntry {
    fn clone(&self) -> (r: Self)
        ensures
            r@ == self@,
    {
        TaskCenterEntry {
            label: self.label.clone(),
            workspace: self.workspace.clone(),
            source: self.source,
            kind: self.kind,
            source_label: copy_opt_string(&self.source_label),
            kind_label: copy_opt_string(&self.kind_label),
            window_id: self.window_id,
            tab_id: self.tab_id,
            pane_id: self.pane_id,
            unread_count: self.unread_count,
            notification_ids: copy_string_list(&self.notification_ids),
            is_failed: self.is_failed,
            is_running: self.is_running,
            rerun_available: self.rerun_available,
            workspace_status: copy_opt_string(&self.workspace_status),
            workspace_progress: self.workspace_progress,
        }
    }
}

/// A pane as the windows snapshot shows it.
pub struct TaskCenterPaneSnapshot {
    pub pane_id: PaneId,
    pub title: String,
    pub progress: PaneProgress,
    pub is_dead: bool,
    pub user_vars: Vec<Var>,
}

/// A tab as the windows snapshot shows it.
pub struct TaskCenterTabSnapshot {
    pub tab_id: TabId,
    pub title: String,
    pub panes: Vec<TaskCenterPaneSnapshot>,
}

/// A window as the windows snapshot shows it.
pub struct TaskCenterWindowSnapshot {
    pub window_id: WindowId,
    pub workspace: String,
    pub tabs: Vec<TaskCenterTabSnapshot>,
}

/// The status text of workspace `w`: that of the last status record of `w`.
pub open spec fn status_in(s: Seq<WorkspaceStatusRecord>, w: Seq<char>) -> Option<Seq<char>>
    decreases s.len(),
{
    if s.len() == 0 {
        None
    } else if s.last().workspace@ == w {
        Some(s.last().status@)
    } else {
        status_in(s.drop_last(), w)
    }
}

/// The progress of workspace `w`: that of the last progress record of `w`.
pub open spec fn progress_in(s: Seq<WorkspaceProgressRecord>, w: Seq<char>) -> Option<u8>
    decreases s.len(),
{
    if s.len() == 0 {
        None
    } else if s.last().workspace@ == w {
        Some(s.last().value)
    } else {
        progress_in(s.drop_last(), w)
    }
}

/// The pane a notification id is anchored at: that of the last pair with that id.
pub open spec fn anchor_in(a: Seq<(String, PaneId)>, id: Seq<char>) -> Option<PaneId>
    decreases a.len(),
{
    if a.len() == 0 {
        None
    } else if a.last().0@ == id {
        Some(a.last().1)
    } else {
        anchor_in(a.drop_last(), id)
    }
}

/// The pane a notification counts toward: its recorded anchor, or else its own pane.
pub open spec fn anchor_of(n: NotificationRecord, a: Seq<(String, PaneId)>) -> Option<PaneId> {
    match anchor_in(a, n.notification_id@) {
        Some(p) => Some(p),
        None => n.pane_id,
    }
}

/// The ids of the unread notifications of workspace `w`, in order.
pub open spec fn workspace_unread_ids(ns: Seq<NotificationRecord>, w: Seq<char>) -> Seq<Seq<char>>
    decreases ns.len(),
{
    if ns.len() == 0 {
        Seq::empty()
    } else {
        let rest = workspace_unread_ids(ns.drop_last(), w);
        if ns.last().unread && ns.last().workspace@ == w {
            rest.push(ns.last().notification_id@)
        } else {
            rest
        }
    }
}

/// The ids of the unread notifications that count toward pane `p`, of any workspace, in order.
pub open spec fn pane_unread_ids(ns: Seq<NotificationRecord>, a: Seq<(String, PaneId)>, p: PaneId) -> Seq<Seq<char>>
    decreases ns.len(),
{
    if ns.len() == 0 {
        Seq::empty()
    } else {
        let rest = pane_unread_ids(ns.drop_last(), a, p);
        if ns.last().unread && anchor_of(ns.last(), a) == Some(p) {
            rest.push(ns.last().notification_id@)
        } else {
            rest
        }
    }
}

/// The row of one unread notification.
pub open spec fn notification_row(n: NotificationRecord, a: Seq<(String, PaneId)>) -> TaskCenterEntryView {
    TaskCenterEntryView {
        label: n.title@,
        workspace: n.workspace@,
        source: TaskCenterSource::Notification,
        kind: TaskCenterKind::Notification,
        source_label: Some("notification"@),
        kind_label: Some(n.kind@),
        window_id: n.window_id,
        tab_id: n.tab_id,
        pane_id: match n.pane_id {
            Some(p) => Some(p),
            None => anchor_of(n, a),
        },
        unread_count: 1,
        notification_ids: seq![n.notification_id@],
        is_failed: false,
        is_running: false,
        rerun_available: false,
        workspace_status: None,
        workspace_progress: None,
    }
}

/// The rows of the unread notifications of workspace `w`, in order.
pub open spec fn notification_rows(ns: Seq<NotificationRecord>, a: Seq<(String, PaneId)>, w: Seq<char>) -> Seq<TaskCenterEntryView>
    decreases ns.len(),
{
    if ns.len() == 0 {
        Seq::empty()
    } else {
        let rest = notification_rows(ns.drop_last(), a, w);
        if ns.last().unread && ns.last().workspace@ == w {
            rest.push(notification_row(ns.last(), a))
        } else {
            rest
        }
    }
}

/// The task-pane record of pane `p`: the last one of `p`.
pub open spec fn lifecycle_in(tps: Seq<TaskPaneRecord>, p: PaneId) -> Option<TaskPaneRecord>
    decreases tps.len(),
{
    if tps.len() == 0 {
        None
    } else if tps.last().pane_id == p {
        Some(tps.last())
    } else {
        lifecycle_in(tps.drop_last(), p)
    }
}

/// Some variable of `vars` carries rerun metadata.
pub open spec fn has_rerun_var(vars: Seq<Var>) -> bool {
    exists|i: int| 0 <= i < vars.len() && #[trigger] rerun_var(vars[i])
}

/// The first occurrence of each string, in order.
pub open spec fn first_occurrences(s: Seq<Seq<char>>) -> Seq<Seq<char>>
    decreases s.len(),
{
    if s.len() == 0 {
        Seq::empty()
    } else {
        let rest = first_occurrences(s.drop_last());
        if rest.contains(s.last()) {
            rest
        } else {
            rest.push(s.last())
        }
    }
}

/// What the rows of one workspace are derived from.
pub struct RowContext {
    pub workspace: Seq<char>,
    pub status: Option<Seq<char>>,
    pub progress: Option<u8>,
    pub task_panes: Seq<TaskPaneRecord>,
    pub notifications: Seq<NotificationRecord>,
    pub anchors: Seq<(String, PaneId)>,
}

/// The rows as views.
pub open spec fn entry_views(s: Seq<TaskCenterEntry>) -> Seq<TaskCenterEntryView> {
    s.map_values(|e: TaskCenterEntry| e@)
}

/// A live pane failed: its task-pane record says so, or, without one, the pane is dead.
pub open spec fn pane_failed(ctx: RowContext, pane: TaskCenterPaneSnapshot) -> bool {
    match lifecycle_in(ctx.task_panes, pane.pane_id) {
        Some(r) => r.is_failed,
        None => pane.is_dead,
    }
}

/// A live pane is running: its task-pane record says it is alive, or, without one, the pane is
/// alive and reports progress that is not an error.
pub open spec fn pane_running(ctx: RowContext, pane: TaskCenterPaneSnapshot) -> bool {
    match lifecycle_in(ctx.task_panes, pane.pane_id) {
        Some(r) => !r.is_dead,
        None => !pane.is_dead && !(pane.progress is NotReported || pane.progress is Error),
    }
}

/// A live pane can be rerun: its task-pane record holds rerun variables, or, without one, it
/// failed and its user variables carry rerun metadata.
pub open spec fn pane_rerun(ctx: RowContext, pane: TaskCenterPaneSnapshot) -> bool {
    match lifecycle_in(ctx.task_panes, pane.pane_id) {
        Some(r) => r.rerun@.len() > 0,
        None => pane_failed(ctx, pane) && has_rerun_var(pane.user_vars@),
    }
}

/// The row of a live pane.
pub open spec fn pane_row(ctx: RowContext, window_id: WindowId, tab_id: TabId, pane: TaskCenterPaneSnapshot) -> TaskCenterEntryView {
    let ids = pane_unread_ids(ctx.notifications, ctx.anchors, pane.pane_id);
    TaskCenterEntryView {
        label: pane.title@,
        workspace: ctx.workspace,
        source: TaskCenterSource::Pane,
        kind: TaskCenterKind::Pane,
        source_label: Some("pane"@),
        kind_label: None,
        window_id: Some(window_id),
        tab_id: Some(tab_id),
        pane_id: Some(pane.pane_id),
        unread_count: ids.len(),
        notification_ids: ids,
        is_failed: pane_failed(ctx, pane),
        is_running: pane_running(ctx, pane),
        rerun_available: pane_rerun(ctx, pane),
        workspace_status: ctx.status,
        workspace_progress: ctx.progress,
    }
}

/// The rows of the live panes of a tab.
pub open spec fn pane_rows(ctx: RowContext, window_id: WindowId, tab_id: TabId, panes: Seq<TaskCenterPaneSnapshot>) -> Seq<TaskCenterEntryView>
    decreases panes.len(),
{
    if panes.len() == 0 {
        Seq::empty()
    } else {
        pane_rows(ctx, window_id, tab_id, panes.drop_last()).push(pane_row(ctx, window_id, tab_id, panes.last()))
    }
}

/// The unread notification ids of each pane of a tab, one pane after the other.
pub open spec fn panes_unread(ctx: RowContext, panes: Seq<TaskCenterPaneSnapshot>) -> Seq<Seq<char>>
    decreases panes.len(),
{
    if panes.len() == 0 {
        Seq::empty()
    } else {
        panes_unread(ctx, panes.drop_last()) + pane_unread_ids(ctx.notifications, ctx.anchors, panes.last().pane_id)
    }
}

/// Some row is failed.
pub open spec fn any_failed(rows: Seq<TaskCenterEntryView>) -> bool
    decreases rows.len(),
{
    rows.len() > 0 && (any_failed(rows.drop_last()) || rows.last().is_failed)
}

/// Some row is running.
pub open spec fn any_running(rows: Seq<TaskCenterEntryView>) -> bool
    decreases rows.len(),
{
    rows.len() > 0 && (any_running(rows.drop_last()) || rows.last().is_running)
}

/// Some row can be rerun.
pub open spec fn any_rerun(rows: Seq<TaskCenterEntryView>) -> bool
    decreases rows.len(),
{
    rows.len() > 0 && (any_rerun(rows.drop_last()) || rows.last().rerun_available)
}

/// The three flags of a concatenation are those of its parts.
pub proof fn lemma_any_concat(a: Seq<TaskCenterEntryView>, b: Seq<TaskCenterEntryView>)
    ensures
        any_failed(a + b) == (any_failed(a) || any_failed(b)),
        any_running(a + b) == (any_running(a) || any_running(b)),
        any_rerun(a + b) == (any_rerun(a) || any_rerun(b)),
    decreases b.len(),
{
    if b.len() == 0 {
        assert(a + b =~= a);
    } else {
        lemma_any_concat(a, b.drop_last());
        assert((a + b).drop_last() =~= a + b.drop_last());
        assert((a + b).last() == b.last());
    }
}

/// A tab's label: its title, or else the title of its first pane, or else "no pane".
pub open spec fn tab_label(tab: TaskCenterTabSnapshot) -> Seq<char> {
    if tab.title@.len() > 0 {
        tab.title@
    } else if tab.panes@.len() > 0 {
        tab.panes@[0].title@
    } else {
        "no pane"@
    }
}

/// The row of a tab: the unread notifications of its workspace and of its panes (each once),
/// and the flags of its panes.
pub open spec fn tab_row(ctx: RowContext, window_id: WindowId, tab: TaskCenterTabSnapshot) -> TaskCenterEntryView {
    let ids = first_occurrences(workspace_unread_ids(ctx.notifications, ctx.workspace) + panes_unread(ctx, tab.panes@));
    let rows = pane_rows(ctx, window_id, tab.tab_id, tab.panes@);
    TaskCenterEntryView {
        label: tab_label(tab),
        workspace: ctx.workspace,
        source: TaskCenterSource::Tab,
        kind: TaskCenterKind::Tab,
        source_label: Some("tab"@),
        kind_label: None,
        window_id: Some(window_id),
        tab_id: Some(tab.tab_id),
        pane_id: None,
        unread_count: ids.len(),
        notification_ids: ids,
        is_failed: any_failed(rows),
        is_running: any_running(rows),
        rerun_available: any_rerun(rows),
        workspace_status: ctx.status,
        workspace_progress: ctx.progress,
    }
}

/// The tab rows of a window's tabs.
pub open spec fn tab_rows(ctx: RowContext, window_id: WindowId, tabs: Seq<TaskCenterTabSnapshot>) -> Seq<TaskCenterEntryView>
    decreases tabs.len(),
{
    if tabs.len() == 0 {
        Seq::empty()
    } else {
        tab_rows(ctx, window_id, tabs.drop_last()).push(tab_row(ctx, window_id, tabs.last()))
    }
}

/// The pane rows of a window's tabs.
pub open spec fn tabs_pane_rows(ctx: RowContext, window_id: WindowId, tabs: Seq<TaskCenterTabSnapshot>) -> Seq<TaskCenterEntryView>
    decreases tabs.len(),
{
    if tabs.len() == 0 {
        Seq::empty()
    } else {
        tabs_pane_rows(ctx, window_id, tabs.drop_last()) + pane_rows(ctx, window_id, tabs.last().tab_id, tabs.last().panes@)
    }
}

/// The panes of a window's tabs.
pub open spec fn tabs_pane_ids(tabs: Seq<TaskCenterTabSnapshot>) -> Seq<PaneId>
    decreases tabs.len(),
{
    if tabs.len() == 0 {
        Seq::empty()
    } else {
        tabs_pane_ids(tabs.drop_last()) + tabs.last().panes@.map_values(|p: TaskCenterPaneSnapshot| p.pane_id)
    }
}

/// The tab rows of some windows.
pub open spec fn windows_tab_rows(ctx: RowContext, wins: Seq<TaskCenterWindowSnapshot>) -> Seq<TaskCenterEntryView>
    decreases wins.len(),
{
    if wins.len() == 0 {
        Seq::empty()
    } else {
        windows_tab_rows(ctx, wins.drop_last()) + tab_rows(ctx, wins.last().window_id, wins.last().tabs@)
    }
}

/// The pane rows of some windows.
pub open spec fn windows_pane_rows(ctx: RowContext, wins: Seq<TaskCenterWindowSnapshot>) -> Seq<TaskCenterEntryView>
    decreases wins.len(),
{
    if wins.len() == 0 {
        Seq::empty()
    } else {
        windows_pane_rows(ctx, wins.drop_last()) + tabs_pane_rows(ctx, wins.last().window_id, wins.last().tabs@)
    }
}

/// The panes of some windows.
pub open spec fn windows_pane_ids(wins: Seq<TaskCenterWindowSnapshot>) -> Seq<PaneId>
    decreases wins.len(),
{
    if wins.len() == 0 {
        Seq::empty()
    } else {
        windows_pane_ids(wins.drop_last()) + tabs_pane_ids(wins.last().tabs@)
    }
}

/// The label of a remembered task pane: its working directory where it has a non-empty one,
/// else "pane " and its id.
pub open spec fn task_pane_label(tp: TaskPaneRecord) -> Seq<char> {
    match tp.current_working_dir {
        Some(d) if d@.len() > 0 => d@,
        _ => "pane "@ + decimal(tp.pane_id as nat),
    }
}

/// The row of a remembered task pane that no window shows.
pub open spec fn task_pane_row(ctx: RowContext, tp: TaskPaneRecord) -> TaskCenterEntryView {
    let ids = pane_unread_ids(ctx.notifications, ctx.anchors, tp.pane_id);
    TaskCenterEntryView {
        label: task_pane_label(tp),
        workspace: ctx.workspace,
        source: TaskCenterSource::Pane,
        kind: TaskCenterKind::Pane,
        source_label: Some("pane"@),
        kind_label: Some("task-pane"@),
        window_id: tp.window_id,
        tab_id: tp.tab_id,
        pane_id: Some(tp.pane_id),
        unread_count: ids.len(),
        notification_ids: ids,
        is_failed: tp.is_failed,
        is_running: !tp.is_dead,
        rerun_available: tp.rerun@.len() > 0,
        workspace_status: ctx.status,
        workspace_progress: ctx.progress,
    }
}

/// The rows of the task panes of the workspace that are not among `seen`, in order.
pub open spec fn task_pane_rows(ctx: RowContext, tps: Seq<TaskPaneRecord>, seen: Seq<PaneId>) -> Seq<TaskCenterEntryView>
    decreases tps.len(),
{
    if tps.len() == 0 {
        Seq::empty()
    } else {
        let rest = task_pane_rows(ctx, tps.drop_last(), seen);
        let tp = tps.last();
        if opt_text(tp.workspace) == Some(ctx.workspace) && !seen.contains(tp.pane_id) {
            rest.push(task_pane_row(ctx, tp))
        } else {
            rest
        }
    }
}

/// The windows of workspace `w`, in their order.
pub open spec fn workspace_windows(ws: Seq<TaskCenterWindowSnapshot>, w: Seq<char>) -> Seq<TaskCenterWindowSnapshot>
    decreases ws.len(),
{
    if ws.len() == 0 {
        Seq::empty()
    } else {
        let rest = workspace_windows(ws.drop_last(), w);
        if ws.last().workspace@ == w {
            rest.push(ws.last())
        } else {
            rest
        }
    }
}

/// The index of the first window of `s` whose id is above `id` (the length where none is).
pub open spec fn first_above(s: Seq<TaskCenterWindowSnapshot>, id: WindowId) -> int
    decreases s.len(),
{
    if s.len() == 0 {
        0
    } else if s[0].window_id > id {
        0
    } else {
        1 + first_above(s.drop_first(), id)
    }
}

/// Windows sorted by id, stably: each window goes after every earlier one whose id is not above
/// its own.
pub open spec fn windows_by_id(s: Seq<TaskCenterWindowSnapshot>) -> Seq<TaskCenterWindowSnapshot>
    decreases s.len(),
{
    if s.len() == 0 {
        Seq::empty()
    } else {
        let sorted = windows_by_id(s.drop_last());
        sorted.insert(first_above(sorted, s.last().window_id), s.last())
    }
}

/// The windows of workspace `w`, sorted by id.
pub open spec fn windows_of(ws: Seq<TaskCenterWindowSnapshot>, w: Seq<char>) -> Seq<TaskCenterWindowSnapshot> {
    windows_by_id(workspace_windows(ws, w))
}

/// The rows of workspace `w`: its own row, then the rows of the tabs of its windows (by window
/// id), then the rows of their panes, then those of its remembered task panes that no window
/// shows, then those of its unread notifications. The workspace row counts the workspace's
/// unread notifications and takes its flags from all its pane rows.
pub open spec fn workspace_rows(
    w: Seq<char>,
    statuses: Seq<WorkspaceStatusRecord>,
    progresses: Seq<WorkspaceProgressRecord>,
    task_panes: Seq<TaskPaneRecord>,
    notifications: Seq<NotificationRecord>,
    anchors: Seq<(String, PaneId)>,
    windows: Seq<TaskCenterWindowSnapshot>,
) -> Seq<TaskCenterEntryView> {
    let ctx = RowContext {
        workspace: w,
        status: status_in(statuses, w),
        progress: progress_in(progresses, w),
        task_panes,
        notifications,
        anchors,
    };
    let wins = windows_of(windows, w);
    let tabs = windows_tab_rows(ctx, wins);
    let panes = windows_pane_rows(ctx, wins) + task_pane_rows(ctx, task_panes, windows_pane_ids(wins));
    let ids = workspace_unread_ids(notifications, w);
    let head = TaskCenterEntryView {
        label: w,
        workspace: w,
        source: TaskCenterSource::Workspace,
        kind: TaskCenterKind::Workspace,
        source_label: Some("workspace"@),
        kind_label: None,
        window_id: None,
        tab_id: None,
        pane_id: None,
        unread_count: ids.len(),
        notification_ids: ids,
        is_failed: any_failed(panes),
        is_running: any_running(panes),
        rerun_available: any_rerun(panes),
        workspace_status: ctx.status,
        workspace_progress: ctx.progress,
    };
    seq![head] + tabs + panes + notification_rows(notifications, anchors, w)
}

/// `first_above` skips a prefix of windows whose ids are not above `id`.
proof fn lemma_first_above_prefix(s: Seq<TaskCenterWindowSnapshot>, id: WindowId, k: int)
    requires
        0 <= k <= s.len(),
        forall|j: int| 0 <= j < k ==> #[trigger] s[j].window_id <= id,
    ensures
        first_above(s, id) == k + first_above(s.skip(k), id),
    decreases k,
{
    if k == 0 {
        assert(s.skip(0) =~= s);
    } else {
        assert(s[0].window_id <= id);
        let t = s.drop_first();
        assert forall|j: int| 0 <= j < k - 1 implies #[trigger] t[j].window_id <= id by {
            assert(t[j] == s[j + 1]);
        }
        lemma_first_above_prefix(t, id, k - 1);
        assert(t.skip(k - 1) =~= s.skip(k));
    }
}

/// The workspace names the rows are made for, with repetitions: the listed workspaces, those
/// with log lines, those with a status or progress, those of the notifications, of the task
/// panes that have one, and of the windows.
pub open spec fn name_sources(
    workspaces: Seq<String>,
    statuses: Seq<WorkspaceStatusRecord>,
    progresses: Seq<WorkspaceProgressRecord>,
    log_workspaces: Seq<String>,
    task_panes: Seq<TaskPaneRecord>,
    notifications: Seq<NotificationRecord>,
    windows: Seq<TaskCenterWindowSnapshot>,
) -> Seq<Seq<char>> {
    views(workspaces) + views(log_workspaces) + statuses.map_values(|r: WorkspaceStatusRecord| r.workspace@)
        + progresses.map_values(|r: WorkspaceProgressRecord| r.workspace@) + notifications.map_values(
        |n: NotificationRecord| n.workspace@,
    ) + task_pane_workspaces(task_panes) + windows.map_values(|win: TaskCenterWindowSnapshot| win.workspace@)
}

/// The workspaces of the task panes that have one, in order.
pub open spec fn task_pane_workspaces(tps: Seq<TaskPaneRecord>) -> Seq<Seq<char>>
    decreases tps.len(),
{
    if tps.len() == 0 {
        Seq::empty()
    } else {
        match tps.last().workspace {
            Some(w) => task_pane_workspaces(tps.drop_last()).push(w@),
            None => task_pane_workspaces(tps.drop_last()),
        }
    }
}

/// The names are in strictly increasing lexicographic order, each once.
pub open spec fn names_in_order(names: Seq<Seq<char>>) -> bool {
    &&& forall|i: int| 0 <= i < names.len() - 1 ==> #[trigger] lex_less(names[i], names[i + 1])
    &&& forall|i: int, j: int| 0 <= i < j < names.len() ==> names[i] != names[j]
}

/// The rows of each of the workspaces named, one workspace after the other.
pub open spec fn rows_for_names(
    names: Seq<Seq<char>>,
    statuses: Seq<WorkspaceStatusRecord>,
    progresses: Seq<WorkspaceProgressRecord>,
    task_panes: Seq<TaskPaneRecord>,
    notifications: Seq<NotificationRecord>,
    anchors: Seq<(String, PaneId)>,
    windows: Seq<TaskCenterWindowSnapshot>,
) -> Seq<TaskCenterEntryView>
    decreases names.len(),
{
    if names.len() == 0 {
        Seq::empty()
    } else {
        rows_for_names(names.drop_last(), statuses, progresses, task_panes, notifications, anchors, windows)
            + workspace_rows(names.last(), statuses, progresses, task_panes, notifications, anchors, windows)
    }
}

/// Whether some variable of `user_vars` carries rerun metadata.
pub fn rerun_available_from_user_vars(user_vars: &[Var]) -> (r: bool)
    ensures
        r == has_rerun_var(user_vars@),
{
    let mut i: usize = 0;
    while i < user_vars.len()
        invariant
            i <= user_vars@.len(),
            forall|j: int| 0 <= j < i ==> !#[trigger] rerun_var(user_vars@[j]),
        decreases user_vars@.len() - i,
    {
        if is_rerun_user_var(user_vars[i].0.as_str()) {
            assert(rerun_var(user_vars@[i as int]));
            return true;
        }
        i += 1;
    }
    false
}

/// Keeps the first occurrence of each string of `values`, in order.
pub fn dedup_strings(values: &mut Vec<String>)
    ensures
        views(final(values)@) == first_occurrences(views(old(values)@)),
{
    let mut out: Vec<String> = Vec::new();
    let mut i: usize = 0;
    while i < values.len()
        invariant
            i <= values@.len(),
            views(out@) == first_occurrences(views(values@.subrange(0, i as int))),
        decreases values@.len() - i,
    {
        let ghost prefix = views(values@.subrange(0, i as int));
        assert(views(values@.subrange(0, i + 1)).drop_last() =~= prefix);
        assert(views(values@.subrange(0, i + 1)).last() == values@[i as int]@);
        if !contains_text(out.as_slice(), values[i].as_str()) {
            out.push(values[i].clone());
            assert(views(out@) =~= first_occurrences(prefix).push(values@[i as int]@));
        }
        i += 1;
    }
    assert(values@.subrange(0, values@.len() as int) =~= values@);
    *values = out;
}

/// The status text of workspace `w`.
pub(crate) fn status_of(statuses: &[WorkspaceStatusRecord], w: &str) -> (r: Option<String>)
    ensures
        opt_text(r) == status_in(statuses@, w@),
{
    let mut r: Option<String> = None;
    let mut i: usize = 0;
    while i < statuses.len()
        invariant
            i <= statuses@.len(),
            opt_text(r) == status_in(statuses@.subrange(0, i as int), w@),
        decreases statuses@.len() - i,
    {
        assert(statuses@.subrange(0, i + 1).drop_last() =~= statuses@.subrange(0, i as int));
        if str_eq(statuses[i].workspace.as_str(), w) {
            r = Some(statuses[i].status.clone());
        }
        i += 1;
    }
    assert(statuses@.subrange(0, statuses@.len() as int) =~= statuses@);
    r
}

/// The progress of workspace `w`.
pub(crate) fn progress_of(progresses: &[WorkspaceProgressRecord], w: &str) -> (r: Option<u8>)
    ensures
        r == progress_in(progresses@, w@),
{
    let mut r: Option<u8> = None;
    let mut i: usize = 0;
    while i < progresses.len()
        invariant
            i <= progresses@.len(),
            r == progress_in(progresses@.subrange(0, i as int), w@),
        decreases progresses@.len() - i,
    {
        assert(progresses@.subrange(0, i + 1).drop_last() =~= progresses@.subrange(0, i as int));
        if str_eq(progresses[i].workspace.as_str(), w) {
            r = Some(progresses[i].value);
        }
        i += 1;
    }
    assert(progresses@.subrange(0, progresses@.len() as int) =~= progresses@);
    r
}

/// The pane notification `n` counts toward.
fn anchor_pane(n: &NotificationRecord, anchors: &[(String, PaneId)]) -> (r: Option<PaneId>)
    ensures
        r == anchor_of(*n, anchors@),
{
    let mut r: Option<PaneId> = None;
    let mut i: usize = 0;
    while i < anchors.len()
        invariant
            i <= anchors@.len(),
            r == anchor_in(anchors@.subrange(0, i as int), n.notification_id@),
        decreases anchors@.len() - i,
    {
        assert(anchors@.subrange(0, i + 1).drop_last() =~= anchors@.subrange(0, i as int));
        if str_eq(anchors[i].0.as_str(), n.notification_id.as_str()) {
            r = Some(anchors[i].1);
        }
        i += 1;
    }
    assert(anchors@.subrange(0, anchors@.len() as int) =~= anchors@);
    match r {
        Some(p) => Some(p),
        None => n.pane_id,
    }
}

/// The ids of the unread notifications of workspace `w`.
fn workspace_unread(notifications: &[NotificationRecord], w: &str) -> (r: Vec<String>)
    ensures
        views(r@) == workspace_unread_ids(notifications@, w@),
{
    let mut r: Vec<String> = Vec::new();
    let mut i: usize = 0;
    while i < notifications.len()
        invariant
            i <= notifications@.len(),
            views(r@) == workspace_unread_ids(notifications@.subrange(0, i as int), w@),
        decreases notifications@.len() - i,
    {
        assert(notifications@.subrange(0, i + 1).drop_last() =~= notifications@.subrange(0, i as int));
        if notifications[i].unread && str_eq(notifications[i].workspace.as_str(), w) {
            r.push(notifications[i].notification_id.clone());
            assert(views(r@) =~= workspace_unread_ids(notifications@.subrange(0, i as int), w@).push(
                notifications@[i as int].notification_id@,
            ));
        }
        i += 1;
    }
    assert(notifications@.subrange(0, notifications@.len() as int) =~= notifications@);
    r
}

/// The ids of the unread notifications that count toward pane `p`.
fn pane_unread(notifications: &[NotificationRecord], anchors: &[(String, PaneId)], p: PaneId) -> (r: Vec<String>)
    ensures
        views(r@) == pane_unread_ids(notifications@, anchors@, p),
{
    let mut r: Vec<String> = Vec::new();
    let mut i: usize = 0;
    while i < notifications.len()
        invariant
            i <= notifications@.len(),
            views(r@) == pane_unread_ids(notifications@.subrange(0, i as int), anchors@, p),
        decreases notifications@.len() - i,
    {
        assert(notifications@.subrange(0, i + 1).drop_last() =~= notifications@.subrange(0, i as int));
        if notifications[i].unread && anchor_pane(&notifications[i], anchors) == Some(p) {
            r.push(notifications[i].notification_id.clone());
            assert(views(r@) =~= pane_unread_ids(notifications@.subrange(0, i as int), anchors@, p).push(
                notifications@[i as int].notification_id@,
            ));
        }
        i += 1;
    }
    assert(notifications@.subrange(0, notifications@.len() as int) =~= notifications@);
    r
}

/// The index of the last task-pane record of pane `p`.
fn lifecycle_index(task_panes: &[TaskPaneRecord], p: PaneId) -> (r: Option<usize>)
    ensures
        r is None ==> lifecycle_in(task_panes@, p) is None,
        r matches Some(k) ==> k < task_panes@.len() && lifecycle_in(task_panes@, p) == Some(task_panes@[k as int]),
{
    let mut r: Option<usize> = None;
    let mut i: usize = 0;
    while i < task_panes.len()
        invariant
            i <= task_panes@.len(),
            r is None ==> lifecycle_in(task_panes@.subrange(0, i as int), p) is None,
            r matches Some(k) ==> k < i && lifecycle_in(task_panes@.subrange(0, i as int), p) == Some(task_panes@[k as int]),
        decreases task_panes@.len() - i,
    {
        assert(task_panes@.subrange(0, i + 1).drop_last() =~= task_panes@.subrange(0, i as int));
        if task_panes[i].pane_id == p {
            r = Some(i);
        }
        i += 1;
    }
    assert(task_panes@.subrange(0, task_panes@.len() as int) =~= task_panes@);
    r
}

/// What the rows of one workspace are derived from, as the caller holds it.
struct RowInputs<'a> {
    workspace: &'a str,
    status: Option<String>,
    progress: Option<u8>,
    task_panes: &'a [TaskPaneRecord],
    notifications: &'a [NotificationRecord],
    anchors: &'a [(String, PaneId)],
}

/// The context the inputs describe.
spec fn ctx_of(inp: &RowInputs) -> RowContext {
    RowContext {
        workspace: inp.workspace@,
        status: opt_text(inp.status),
        progress: inp.progress,
        task_panes: inp.task_panes@,
        notifications: inp.notifications@,
        anchors: inp.anchors@,
    }
}

/// Appends copies of `more` to `dst`.
fn append_copies(dst: &mut Vec<String>, more: &Vec<String>)
    ensures
        views(final(dst)@) == views(old(dst)@) + views(more@),
{
    let mut i: usize = 0;
    let ghost start = dst@;
    while i < more.len()
        invariant
            i <= more@.len(),
            dst@.len() == start.len() + i,
            forall|j: int| 0 <= j < start.len() ==> #[trigger] dst@[j] == start[j],
            forall|j: int| 0 <= j < i ==> #[trigger] dst@[start.len() + j]@ == more@[j]@,
        decreases more@.len() - i,
    {
        dst.push(more[i].clone());
        i += 1;
    }
    assert forall|j: int| 0 <= j < views(dst@).len() implies #[trigger] views(dst@)[j] == (views(start) + views(more@))[j] by {
        if j >= start.len() {
            assert(dst@[start.len() + (j - start.len())]@ == more@[j - start.len()]@);
        }
    }
    assert(views(dst@) =~= views(start) + views(more@));
}

/// The row of a live pane.
fn pane_entry(inp: &RowInputs, window_id: WindowId, tab_id: TabId, pane: &TaskCenterPaneSnapshot) -> (e: TaskCenterEntry)
    ensures
        e@ == pane_row(ctx_of(inp), window_id, tab_id, *pane),
{
    let ids = pane_unread(inp.notifications, inp.anchors, pane.pane_id);
    let (is_failed, is_running, rerun_available) = match lifecycle_index(inp.task_panes, pane.pane_id) {
        Some(k) => (inp.task_panes[k].is_failed, !inp.task_panes[k].is_dead, inp.task_panes[k].rerun.len() > 0),
        None => {
            let quiet = match pane.progress {
                PaneProgress::NotReported => true,
                PaneProgress::Error(_) => true,
                _ => false,
            };
            let rerun = pane.is_dead && rerun_available_from_user_vars(pane.user_vars.as_slice());
            (pane.is_dead, !pane.is_dead && !quiet, rerun)
        },
    };
    TaskCenterEntry {
        label: pane.title.clone(),
        workspace: owned(inp.workspace),
        source: TaskCenterSource::Pane,
        kind: TaskCenterKind::Pane,
        source_label: Some(String::from_str("pane")),
        kind_label: None,
        window_id: Some(window_id),
        tab_id: Some(tab_id),
        pane_id: Some(pane.pane_id),
        unread_count: ids.len(),
        notification_ids: ids,
        is_failed,
        is_running,
        rerun_available,
        workspace_status: copy_opt_string(&inp.status),
        workspace_progress: inp.progress,
    }
}

/// The row of a tab; the rows of its panes are appended to `rows` and their ids to `seen`.
fn tab_entries(
    inp: &RowInputs,
    ws_unread: &Vec<String>,
    window_id: WindowId,
    tab: &TaskCenterTabSnapshot,
    rows: &mut Vec<TaskCenterEntry>,
    seen: &mut Vec<PaneId>,
) -> (t: TaskCenterEntry)
    requires
        views(ws_unread@) == workspace_unread_ids(inp.notifications@, inp.workspace@),
    ensures
        t@ == tab_row(ctx_of(inp), window_id, *tab),
        entry_views(final(rows)@) == entry_views(old(rows)@) + pane_rows(ctx_of(inp), window_id, tab.tab_id, tab.panes@),
        final(seen)@ == old(seen)@ + tab.panes@.map_values(|p: TaskCenterPaneSnapshot| p.pane_id),
{
    let ghost ctx = ctx_of(inp);
    let ghost rows0 = entry_views(rows@);
    let ghost seen0 = seen@;
    let mut ids = copy_string_list(ws_unread);
    let mut failed = false;
    let mut running = false;
    let mut rerun = false;
    let mut i: usize = 0;
    while i < tab.panes.len()
        invariant
            ctx == ctx_of(inp),
            views(ws_unread@) == workspace_unread_ids(inp.notifications@, inp.workspace@),
            i <= tab.panes@.len(),
            entry_views(rows@) == rows0 + pane_rows(ctx, window_id, tab.tab_id, tab.panes@.subrange(0, i as int)),
            views(ids@) == workspace_unread_ids(ctx.notifications, ctx.workspace) + panes_unread(ctx, tab.panes@.subrange(0, i as int)),
            failed == any_failed(pane_rows(ctx, window_id, tab.tab_id, tab.panes@.subrange(0, i as int))),
            running == any_running(pane_rows(ctx, window_id, tab.tab_id, tab.panes@.subrange(0, i as int))),
            rerun == any_rerun(pane_rows(ctx, window_id, tab.tab_id, tab.panes@.subrange(0, i as int))),
            seen@ == seen0 + tab.panes@.subrange(0, i as int).map_values(|p: TaskCenterPaneSnapshot| p.pane_id),
        decreases tab.panes@.len() - i,
    {
        let ghost before = tab.panes@.subrange(0, i as int);
        let ghost after = tab.panes@.subrange(0, i + 1);
        assert(after.drop_last() =~= before);
        assert(after.last() == tab.panes@[i as int]);
        let pane = &tab.panes[i];
        seen.push(pane.pane_id);
        let e = pane_entry(inp, window_id, tab.tab_id, pane);
        append_copies(&mut ids, &e.notification_ids);
        failed = failed || e.is_failed;
        running = running || e.is_running;
        rerun = rerun || e.rerun_available;
        let ghost prev_rows = entry_views(rows@);
        rows.push(e);
        proof {
            let pr = pane_rows(ctx, window_id, tab.tab_id, before);
            let row = pane_row(ctx, window_id, tab.tab_id, tab.panes@[i as int]);
            assert(pane_rows(ctx, window_id, tab.tab_id, after) == pr.push(row));
            assert(pr.push(row).drop_last() =~= pr);
            assert(entry_views(rows@) =~= prev_rows.push(row));
            assert(entry_views(rows@) =~= rows0 + pr.push(row));
            assert(panes_unread(ctx, after) == panes_unread(ctx, before) + pane_unread_ids(ctx.notifications, ctx.anchors, tab.panes@[i as int].pane_id));
            assert(views(ids@) =~= workspace_unread_ids(ctx.notifications, ctx.workspace) + panes_unread(ctx, after));
            assert(seen@ =~= seen0 + after.map_values(|p: TaskCenterPaneSnapshot| p.pane_id));
        }
        i += 1;
    }
    assert(tab.panes@.subrange(0, tab.panes@.len() as int) =~= tab.panes@);
    dedup_strings(&mut ids);
    let label = if tab.title.unicode_len() > 0 {
        tab.title.clone()
    } else if tab.panes.len() > 0 {
        tab.panes[0].title.clone()
    } else {
        String::from_str("no pane")
    };
    TaskCenterEntry {
        label,
        workspace: owned(inp.workspace),
        source: TaskCenterSource::Tab,
        kind: TaskCenterKind::Tab,
        source_label: Some(String::from_str("tab")),
        kind_label: None,
        window_id: Some(window_id),
        tab_id: Some(tab.tab_id),
        pane_id: None,
        unread_count: ids.len(),
        notification_ids: ids,
        is_failed: failed,
        is_running: running,
        rerun_available: rerun,
        workspace_status: copy_opt_string(&inp.status),
        workspace_progress: inp.progress,
    }
}

/// The rows of a window's tabs are appended to `tabs`, those of their panes to `panes`, and
/// the panes' ids to `seen`.
fn window_entries(
    inp: &RowInputs,
    ws_unread: &Vec<String>,
    win: &TaskCenterWindowSnapshot,
    tabs: &mut Vec<TaskCenterEntry>,
    panes: &mut Vec<TaskCenterEntry>,
    seen: &mut Vec<PaneId>,
)
    requires
        views(ws_unread@) == workspace_unread_ids(inp.notifications@, inp.workspace@),
    ensures
        entry_views(final(tabs)@) == entry_views(old(tabs)@) + tab_rows(ctx_of(inp), win.window_id, win.tabs@),
        entry_views(final(panes)@) == entry_views(old(panes)@) + tabs_pane_rows(ctx_of(inp), win.window_id, win.tabs@),
        final(seen)@ == old(seen)@ + tabs_pane_ids(win.tabs@),
{
    let ghost ctx = ctx_of(inp);
    let ghost tabs0 = entry_views(tabs@);
    let ghost panes0 = entry_views(panes@);
    let ghost seen0 = seen@;
    let mut i: usize = 0;
    while i < win.tabs.len()
        invariant
            ctx == ctx_of(inp),
            views(ws_unread@) == workspace_unread_ids(inp.notifications@, inp.workspace@),
            i <= win.tabs@.len(),
            entry_views(tabs@) == tabs0 + tab_rows(ctx, win.window_id, win.tabs@.subrange(0, i as int)),
            entry_views(panes@) == panes0 + tabs_pane_rows(ctx, win.window_id, win.tabs@.subrange(0, i as int)),
            seen@ == seen0 + tabs_pane_ids(win.tabs@.subrange(0, i as int)),
        decreases win.tabs@.len() - i,
    {
        let ghost before = win.tabs@.subrange(0, i as int);
        let ghost after = win.tabs@.subrange(0, i + 1);
        assert(after.drop_last() =~= before);
        assert(after.last() == win.tabs@[i as int]);
        let ghost prev_tabs = entry_views(tabs@);
        let ghost prev_panes = entry_views(panes@);
        let ghost prev_seen = seen@;
        let t = tab_entries(inp, ws_unread, win.window_id, &win.tabs[i], panes, seen);
        tabs.push(t);
        proof {
            assert(entry_views(tabs@) =~= prev_tabs.push(t@));
            assert(entry_views(tabs@) =~= tabs0 + tab_rows(ctx, win.window_id, after));
            assert(entry_views(panes@) =~= panes0 + tabs_pane_rows(ctx, win.window_id, after));
            assert(seen@ =~= seen0 + tabs_pane_ids(after));
        }
        i += 1;
    }
    assert(win.tabs@.subrange(0, win.tabs@.len() as int) =~= win.tabs@);
}

/// The indices of the windows of workspace `w`, sorted by window id (stably).
fn window_order(windows: &[TaskCenterWindowSnapshot], w: &str) -> (r: Vec<usize>)
    ensures
        forall|j: int| 0 <= j < r@.len() ==> #[trigger] r@[j] < windows@.len(),
        r@.map_values(|k: usize| windows@[k as int]) == windows_of(windows@, w@),
{
    let mut r: Vec<usize> = Vec::new();
    let mut i: usize = 0;
    while i < windows.len()
        invariant
            i <= windows@.len(),
            forall|j: int| 0 <= j < r@.len() ==> #[trigger] r@[j] < windows@.len(),
            r@.map_values(|k: usize| windows@[k as int]) == windows_by_id(workspace_windows(windows@.subrange(0, i as int), w@)),
        decreases windows@.len() - i,
    {
        let ghost pre = windows@.subrange(0, i as int);
        assert(windows@.subrange(0, i + 1).drop_last() =~= pre);
        if str_eq(windows[i].workspace.as_str(), w) {
            let ghost sorted = r@.map_values(|k: usize| windows@[k as int]);
            let id = windows[i].window_id;
            let mut k: usize = 0;
            while k < r.len() && windows[r[k]].window_id <= id
                invariant
                    k <= r@.len(),
                    forall|j: int| 0 <= j < r@.len() ==> #[trigger] r@[j] < windows@.len(),
                    sorted == r@.map_values(|k: usize| windows@[k as int]),
                    forall|j: int| 0 <= j < k ==> #[trigger] sorted[j].window_id <= id,
                decreases r@.len() - k,
            {
                k += 1;
            }
            proof {
                lemma_first_above_prefix(sorted, id, k as int);
                if k < r@.len() {
                    assert(sorted.skip(k as int)[0] == sorted[k as int]);
                    assert(sorted[k as int] == windows@[r@[k as int] as int]);
                    assert(sorted[k as int].window_id > id);
                } else {
                    assert(sorted.skip(k as int).len() == 0);
                }
                assert(first_above(sorted, id) == k);
                assert(windows@.subrange(0, i + 1).last() == windows@[i as int]);
                assert(workspace_windows(windows@.subrange(0, i + 1), w@) == workspace_windows(pre, w@).push(windows@[i as int]));
                assert(workspace_windows(windows@.subrange(0, i + 1), w@).drop_last() =~= workspace_windows(pre, w@));
            }
            r.insert(k, i);
            assert(r@.map_values(|k: usize| windows@[k as int]) =~= sorted.insert(k as int, windows@[i as int]));
        } else {
            assert(windows@.subrange(0, i + 1).last() == windows@[i as int]);
            assert(workspace_windows(windows@.subrange(0, i + 1), w@) == workspace_windows(pre, w@));
        }
        i += 1;
    }
    assert(windows@.subrange(0, windows@.len() as int) =~= windows@);
    r
}

/// Whether any of the rows is failed, running, or can be rerun.
fn row_flags(rows: &Vec<TaskCenterEntry>) -> (r: (bool, bool, bool))
    ensures
        r.0 == any_failed(entry_views(rows@)),
        r.1 == any_running(entry_views(rows@)),
        r.2 == any_rerun(entry_views(rows@)),
{
    let mut failed = false;
    let mut running = false;
    let mut rerun = false;
    let mut i: usize = 0;
    while i < rows.len()
        invariant
            i <= rows@.len(),
            failed == any_failed(entry_views(rows@.subrange(0, i as int))),
            running == any_running(entry_views(rows@.subrange(0, i as int))),
            rerun == any_rerun(entry_views(rows@.subrange(0, i as int))),
        decreases rows@.len() - i,
    {
        assert(entry_views(rows@.subrange(0, i + 1)).drop_last() =~= entry_views(rows@.subrange(0, i as int)));
        failed = failed || rows[i].is_failed;
        running = running || rows[i].is_running;
        rerun = rerun || rows[i].rerun_available;
        i += 1;
    }
    assert(rows@.subrange(0, rows@.len() as int) =~= rows@);
    (failed, running, rerun)
}

/// The label of a remembered task pane.
fn task_pane_label_text(tp: &TaskPaneRecord) -> (r: String)
    ensures
        r@ == task_pane_label(*tp),
{
    match &tp.current_working_dir {
        Some(d) if d.unicode_len() > 0 => d.clone(),
        _ => {
            let mut v = chars_of("pane ");
            let digits = decimal_chars(tp.pane_id);
            append_chars(&mut v, digits.as_slice());
            string_of(v.as_slice())
        },
    }
}

/// The row of a remembered task pane.
fn task_pane_entry(inp: &RowInputs, tp: &TaskPaneRecord) -> (e: TaskCenterEntry)
    ensures
        e@ == task_pane_row(ctx_of(inp), *tp),
{
    let ids = pane_unread(inp.notifications, inp.anchors, tp.pane_id);
    TaskCenterEntry {
        label: task_pane_label_text(tp),
        workspace: owned(inp.workspace),
        source: TaskCenterSource::Pane,
        kind: TaskCenterKind::Pane,
        source_label: Some(String::from_str("pane")),
        kind_label: Some(String::from_str("task-pane")),
        window_id: tp.window_id,
        tab_id: tp.tab_id,
        pane_id: Some(tp.pane_id),
        unread_count: ids.len(),
        notification_ids: ids,
        is_failed: tp.is_failed,
        is_running: !tp.is_dead,
        rerun_available: tp.rerun.len() > 0,
        workspace_status: copy_opt_string(&inp.status),
        workspace_progress: inp.progress,
    }
}

/// The row of an unread notification.
fn notification_entry(n: &NotificationRecord, anchors: &[(String, PaneId)]) -> (e: TaskCenterEntry)
    ensures
        e@ == notification_row(*n, anchors@),
{
    let pane_id = match n.pane_id {
        Some(p) => Some(p),
        None => anchor_pane(n, anchors),
    };
    let ids = vec![n.notification_id.clone()];
    assert(views(ids@) =~= seq![n.notification_id@]);
    TaskCenterEntry {
        label: n.title.clone(),
        workspace: n.workspace.clone(),
        source: TaskCenterSource::Notification,
        kind: TaskCenterKind::Notification,
        source_label: Some(String::from_str("notification")),
        kind_label: Some(n.kind.clone()),
        window_id: n.window_id,
        tab_id: n.tab_id,
        pane_id,
        unread_count: 1,
        notification_ids: ids,
        is_failed: false,
        is_running: false,
        rerun_available: false,
        workspace_status: None,
        workspace_progress: None,
    }
}

/// Appends the rows of workspace `w` to `out`.
fn workspace_block(
    w: &str,
    statuses: &[WorkspaceStatusRecord],
    progresses: &[WorkspaceProgressRecord],
    task_panes: &[TaskPaneRecord],
    notifications: &[NotificationRecord],
    anchors: &[(String, PaneId)],
    windows: &[TaskCenterWindowSnapshot],
    out: &mut Vec<TaskCenterEntry>,
)
    ensures
        entry_views(final(out)@) == entry_views(old(out)@) + workspace_rows(
            w@,
            statuses@,
            progresses@,
            task_panes@,
            notifications@,
            anchors@,
            windows@,
        ),
{
    let inp = RowInputs {
        workspace: w,
        status: status_of(statuses, w),
        progress: progress_of(progresses, w),
        task_panes,
        notifications,
        anchors,
    };
    let ghost ctx = ctx_of(&inp);
    let ws_unread = workspace_unread(notifications, w);
    let order = window_order(windows, w);
    let ghost wins = windows_of(windows@, w@);
    let mut tabs: Vec<TaskCenterEntry> = Vec::new();
    let mut panes: Vec<TaskCenterEntry> = Vec::new();
    let mut seen: Vec<PaneId> = Vec::new();
    let mut j: usize = 0;
    while j < order.len()
        invariant
            ctx == ctx_of(&inp),
            views(ws_unread@) == workspace_unread_ids(inp.notifications@, inp.workspace@),
            forall|x: int| 0 <= x < order@.len() ==> #[trigger] order@[x] < windows@.len(),
            order@.map_values(|k: usize| windows@[k as int]) == wins,
            j <= order@.len(),
            entry_views(tabs@) == windows_tab_rows(ctx, wins.subrange(0, j as int)),
            entry_views(panes@) == windows_pane_rows(ctx, wins.subrange(0, j as int)),
            seen@ == windows_pane_ids(wins.subrange(0, j as int)),
        decreases order@.len() - j,
    {
        let ghost before = wins.subrange(0, j as int);
        let ghost after = wins.subrange(0, j + 1);
        assert(after.drop_last() =~= before);
        assert(after.last() == windows@[order@[j as int] as int]);
        window_entries(&inp, &ws_unread, &windows[order[j]], &mut tabs, &mut panes, &mut seen);
        j += 1;
    }
    assert(wins.subrange(0, wins.len() as int) =~= wins);
    let ghost pane_rows_all = windows_pane_rows(ctx, wins);
    let ghost seen_all = seen@;
    let mut t: usize = 0;
    while t < task_panes.len()
        invariant
            ctx == ctx_of(&inp),
            inp.workspace@ == w@,
            seen@ == seen_all,
            t <= task_panes@.len(),
            entry_views(panes@) == pane_rows_all + task_pane_rows(ctx, task_panes@.subrange(0, t as int), seen_all),
        decreases task_panes@.len() - t,
    {
        let ghost pre = task_panes@.subrange(0, t as int);
        assert(task_panes@.subrange(0, t + 1).drop_last() =~= pre);
        assert(task_panes@.subrange(0, t + 1).last() == task_panes@[t as int]);
        let tp = &task_panes[t];
        let in_ws = match &tp.workspace {
            Some(x) => str_eq(x.as_str(), w),
            None => false,
        };
        if in_ws && !pane_listed(seen.as_slice(), tp.pane_id) {
            let ghost prev = entry_views(panes@);
            let e = task_pane_entry(&inp, tp);
            panes.push(e);
            assert(entry_views(panes@) =~= prev.push(e@));
            assert(entry_views(panes@) =~= pane_rows_all + task_pane_rows(ctx, task_panes@.subrange(0, t + 1), seen_all));
        }
        t += 1;
    }
    assert(task_panes@.subrange(0, task_panes@.len() as int) =~= task_panes@);
    let (failed, running, rerun) = row_flags(&panes);
    let head = TaskCenterEntry {
        label: owned(w),
        workspace: owned(w),
        source: TaskCenterSource::Workspace,
        kind: TaskCenterKind::Workspace,
        source_label: Some(String::from_str("workspace")),
        kind_label: None,
        window_id: None,
        tab_id: None,
        pane_id: None,
        unread_count: ws_unread.len(),
        notification_ids: ws_unread,
        is_failed: failed,
        is_running: running,
        rerun_available: rerun,
        workspace_status: copy_opt_string(&inp.status),
        workspace_progress: inp.progress,
    };
    let ghost out0 = entry_views(out@);
    let ghost tabs_v = entry_views(tabs@);
    let ghost panes_v = entry_views(panes@);
    out.push(head);
    assert(entry_views(out@) =~= out0.push(head@));
    out.append(&mut tabs);
    assert(entry_views(out@) =~= out0.push(head@) + tabs_v);
    out.append(&mut panes);
    assert(entry_views(out@) =~= out0.push(head@) + tabs_v + panes_v);
    let ghost base = entry_views(out@);
    let mut n: usize = 0;
    while n < notifications.len()
        invariant
            n <= notifications@.len(),
            entry_views(out@) == base + notification_rows(notifications@.subrange(0, n as int), anchors@, w@),
        decreases notifications@.len() - n,
    {
        let ghost pre = notifications@.subrange(0, n as int);
        assert(notifications@.subrange(0, n + 1).drop_last() =~= pre);
        assert(notifications@.subrange(0, n + 1).last() == notifications@[n as int]);
        if notifications[n].unread && str_eq(notifications[n].workspace.as_str(), w) {
            let ghost prev = entry_views(out@);
            let e = notification_entry(&notifications[n], anchors);
            out.push(e);
            assert(entry_views(out@) =~= prev.push(e@));
        }
        n += 1;
    }
    assert(notifications@.subrange(0, notifications@.len() as int) =~= notifications@);
    assert(entry_views(out@) =~= out0 + workspace_rows(w@, statuses@, progresses@, task_panes@, notifications@, anchors@, windows@));
}

/// Inserts `x` at its place among names kept in lexicographic order, unless it is there.
pub(crate) fn insert_name(names: &mut Vec<String>, x: &String)
    requires
        names_in_order(views(old(names)@)),
    ensures
        names_in_order(views(final(names)@)),
        forall|y: Seq<char>| #[trigger] views(final(names)@).contains(y) == (views(old(names)@).contains(y) || y == x@),
{
    if contains_text(names.as_slice(), x.as_str()) {
        return;
    }
    let ghost old_v = views(names@);
    let xc = chars_of(x.as_str());
    let mut k: usize = 0;
    let mut found = false;
    while k < names.len() && !found
        invariant
            old_v == views(names@),
            xc@ == x@,
            k <= names@.len(),
            found ==> k < names@.len() && lex_less(x@, names@[k as int]@),
            forall|j: int| 0 <= j < k ==> !#[trigger] lex_less(x@, names@[j]@),
        decreases names@.len() - k + (if found { 0int } else { 1int }),
    {
        let nc = chars_of(names[k].as_str());
        if str_less(xc.as_slice(), nc.as_slice()) {
            found = true;
        } else {
            k += 1;
        }
    }
    assert(!found ==> k == old_v.len());
    assert(found ==> lex_less(x@, old_v[k as int]));
    assert forall|j: int| 0 <= j < k implies !#[trigger] lex_less(x@, old_v[j]) by {
        assert(old_v[j] == names@[j]@);
    }
    names.insert(k, x.clone());
    let ghost new_v = views(names@);
    assert(new_v =~= old_v.insert(k as int, x@));
    assert forall|i: int| 0 <= i < new_v.len() - 1 implies #[trigger] lex_less(new_v[i], new_v[i + 1]) by {
        if i < k as int - 1 {
            assert(new_v[i] == old_v[i] && new_v[i + 1] == old_v[i + 1]);
            assert(lex_less(old_v[i], old_v[i + 1]));
        } else if i == k as int - 1 {
            assert(new_v[i] == old_v[i] && new_v[i + 1] == x@);
            lemma_lex_total(x@, old_v[i]);
            assert(old_v[i] != x@) by {
                assert(old_v.contains(old_v[i]));
            }
        } else if i == k as int {
            assert(new_v[i + 1] == old_v[i]);
            assert(new_v[i] == x@);
        } else {
            assert(new_v[i] == old_v[i - 1] && new_v[i + 1] == old_v[i]);
            assert(lex_less(old_v[i - 1], old_v[(i - 1) + 1]));
        }
    }
    assert forall|i: int, j: int| 0 <= i < j < new_v.len() implies new_v[i] != new_v[j] by {
        if i != k as int && j != k as int {
            let oi = if i < k as int { i } else { i - 1 };
            let oj = if j < k as int { j } else { j - 1 };
            assert(new_v[i] == old_v[oi] && new_v[j] == old_v[oj]);
        } else if i == k as int {
            let oj = j - 1;
            assert(new_v[j] == old_v[oj]);
            assert(old_v.contains(old_v[oj]));
        } else {
            assert(new_v[i] == old_v[i]);
            assert(old_v.contains(old_v[i]));
        }
    }
    assert forall|y: Seq<char>| #[trigger] new_v.contains(y) == (old_v.contains(y) || y == x@) by {
        if new_v.contains(y) {
            let i = choose|i: int| 0 <= i < new_v.len() && new_v[i] == y;
            if i < k as int {
                assert(old_v[i] == y);
            } else if i > k as int {
                assert(old_v[i - 1] == y);
            }
        }
        if old_v.contains(y) {
            let i = choose|i: int| 0 <= i < old_v.len() && old_v[i] == y;
            if i < k as int {
                assert(new_v[i] == y);
            } else {
                assert(new_v[i + 1] == y);
            }
        }
        if y == x@ {
            assert(new_v[k as int] == y);
        }
    }
}

/// Appends copies of `more` to `all`.
fn push_names(all: &mut Vec<String>, more: &[String])
    ensures
        views(final(all)@) == views(old(all)@) + views(more@),
{
    let ghost start = views(all@);
    let mut i: usize = 0;
    while i < more.len()
        invariant
            i <= more@.len(),
            views(all@) == start + views(more@.subrange(0, i as int)),
        decreases more@.len() - i,
    {
        let ghost prev = views(all@);
        let s = more[i].clone();
        all.push(s);
        assert(views(all@) =~= prev.push(more@[i as int]@));
        assert(views(more@.subrange(0, i + 1)) =~= views(more@.subrange(0, i as int)).push(more@[i as int]@));
        i += 1;
    }
    assert(more@.subrange(0, more@.len() as int) =~= more@);
}

/// The workspace names the rows are made for, each once, in lexicographic order.
pub fn task_center_workspace_names(
    workspaces: &[String],
    statuses: &[WorkspaceStatusRecord],
    progresses: &[WorkspaceProgressRecord],
    log_workspaces: &[String],
    task_panes: &[TaskPaneRecord],
    notifications: &[NotificationRecord],
    windows: &[TaskCenterWindowSnapshot],
) -> (r: Vec<String>)
    ensures
        names_in_order(views(r@)),
        forall|y: Seq<char>| #[trigger] views(r@).contains(y) == name_sources(
            workspaces@,
            statuses@,
            progresses@,
            log_workspaces@,
            task_panes@,
            notifications@,
            windows@,
        ).contains(y),
{
    let mut all: Vec<String> = Vec::new();
    push_names(&mut all, workspaces);
    push_names(&mut all, log_workspaces);
    let ghost b1 = views(all@);
    let mut i: usize = 0;
    while i < statuses.len()
        invariant
            i <= statuses@.len(),
            views(all@) == b1 + statuses@.subrange(0, i as int).map_values(|r: WorkspaceStatusRecord| r.workspace@),
        decreases statuses@.len() - i,
    {
        let ghost prev = views(all@);
        all.push(statuses[i].workspace.clone());
        assert(views(all@) =~= prev.push(statuses@[i as int].workspace@));
        assert(statuses@.subrange(0, i + 1).map_values(|r: WorkspaceStatusRecord| r.workspace@) =~= statuses@.subrange(0, i as int).map_values(|r: WorkspaceStatusRecord| r.workspace@).push(statuses@[i as int].workspace@));
        i += 1;
    }
    assert(statuses@.subrange(0, statuses@.len() as int) =~= statuses@);
    let ghost b2 = views(all@);
    let mut i: usize = 0;
    while i < progresses.len()
        invariant
            i <= progresses@.len(),
            views(all@) == b2 + progresses@.subrange(0, i as int).map_values(|r: WorkspaceProgressRecord| r.workspace@),
        decreases progresses@.len() - i,
    {
        let ghost prev = views(all@);
        all.push(progresses[i].workspace.clone());
        assert(views(all@) =~= prev.push(progresses@[i as int].workspace@));
        assert(progresses@.subrange(0, i + 1).map_values(|r: WorkspaceProgressRecord| r.workspace@) =~= progresses@.subrange(0, i as int).map_values(|r: WorkspaceProgressRecord| r.workspace@).push(progresses@[i as int].workspace@));
        i += 1;
    }
    assert(progresses@.subrange(0, progresses@.len() as int) =~= progresses@);
    let ghost b3 = views(all@);
    let mut i: usize = 0;
    while i < notifications.len()
        invariant
            i <= notifications@.len(),
            views(all@) == b3 + notifications@.subrange(0, i as int).map_values(|n: NotificationRecord| n.workspace@),
        decreases notifications@.len() - i,
    {
        let ghost prev = views(all@);
        all.push(notifications[i].workspace.clone());
        assert(views(all@) =~= prev.push(notifications@[i as int].workspace@));
        assert(notifications@.subrange(0, i + 1).map_values(|n: NotificationRecord| n.workspace@) =~= notifications@.subrange(0, i as int).map_values(|n: NotificationRecord| n.workspace@).push(notifications@[i as int].workspace@));
        i += 1;
    }
    assert(notifications@.subrange(0, notifications@.len() as int) =~= notifications@);
    let ghost b4 = views(all@);
    let mut i: usize = 0;
    while i < task_panes.len()
        invariant
            i <= task_panes@.len(),
            views(all@) == b4 + task_pane_workspaces(task_panes@.subrange(0, i as int)),
        decreases task_panes@.len() - i,
    {
        assert(task_panes@.subrange(0, i + 1).drop_last() =~= task_panes@.subrange(0, i as int));
        assert(task_panes@.subrange(0, i + 1).last() == task_panes@[i as int]);
        match &task_panes[i].workspace {
            Some(w) => {
                let ghost prev = views(all@);
                all.push(w.clone());
                assert(views(all@) =~= prev.push(w@));
                assert(views(all@) =~= b4 + task_pane_workspaces(task_panes@.subrange(0, i + 1)));
            },
            None => {},
        }
        i += 1;
    }
    assert(task_panes@.subrange(0, task_panes@.len() as int) =~= task_panes@);
    let ghost b5 = views(all@);
    let mut i: usize = 0;
    while i < windows.len()
        invariant
            i <= windows@.len(),
            views(all@) == b5 + windows@.subrange(0, i as int).map_values(|win: TaskCenterWindowSnapshot| win.workspace@),
        decreases windows@.len() - i,
    {
        let ghost prev = views(all@);
        all.push(windows[i].workspace.clone());
        assert(views(all@) =~= prev.push(windows@[i as int].workspace@));
        assert(windows@.subrange(0, i + 1).map_values(|win: TaskCenterWindowSnapshot| win.workspace@) =~= windows@.subrange(0, i as int).map_values(|win: TaskCenterWindowSnapshot| win.workspace@).push(windows@[i as int].workspace@));
        i += 1;
    }
    assert(windows@.subrange(0, windows@.len() as int) =~= windows@);
    let ghost sources = views(all@);
    assert(sources =~= name_sources(workspaces@, statuses@, progresses@, log_workspaces@, task_panes@, notifications@, windows@));
    let mut names: Vec<String> = Vec::new();
    let mut i: usize = 0;
    while i < all.len()
        invariant
            sources == views(all@),
            i <= all@.len(),
            names_in_order(views(names@)),
            forall|y: Seq<char>| #[trigger] views(names@).contains(y) == sources.subrange(0, i as int).contains(y),
        decreases all@.len() - i,
    {
        insert_name(&mut names, &all[i]);
        assert forall|y: Seq<char>| #[trigger] sources.subrange(0, i + 1).contains(y) == (sources.subrange(0, i as int).contains(y) || y == all@[i as int]@) by {
            let a = sources.subrange(0, i as int);
            let b = sources.subrange(0, i + 1);
            assert(b =~= a.push(all@[i as int]@));
            if b.contains(y) {
                let k = choose|k: int| 0 <= k < b.len() && b[k] == y;
                if k < a.len() {
                    assert(a[k] == y);
                }
            }
            if a.contains(y) {
                let k = choose|k: int| 0 <= k < a.len() && a[k] == y;
                assert(b[k] == y);
            }
            if y == all@[i as int]@ {
                assert(b[i as int] == y);
            }
        }
        i += 1;
    }
    assert(sources.subrange(0, all@.len() as int) =~= sources);
    names
}

/// The rows of the task center: for each workspace name in lexicographic order, the rows of
/// that workspace (see `workspace_rows`).
pub fn build_task_center_entries(
    workspaces: &[String],
    statuses: &[WorkspaceStatusRecord],
    progresses: &[WorkspaceProgressRecord],
    log_workspaces: &[String],
    task_panes: &[TaskPaneRecord],
    notifications: &[NotificationRecord],
    notification_anchor_panes: &[(String, PaneId)],
    windows: &[TaskCenterWindowSnapshot],
) -> (r: Vec<TaskCenterEntry>)
    ensures
        exists|names: Seq<Seq<char>>|
            {
                &&& names_in_order(names)
                &&& forall|y: Seq<char>| #[trigger] names.contains(y) == name_sources(
                    workspaces@,
                    statuses@,
                    progresses@,
                    log_workspaces@,
                    task_panes@,
                    notifications@,
                    windows@,
                ).contains(y)
                &&& entry_views(r@) == rows_for_names(
                    names,
                    statuses@,
                    progresses@,
                    task_panes@,
                    notifications@,
                    notification_anchor_panes@,
                    windows@,
                )
            },
{
    let names = task_center_workspace_names(
        workspaces,
        statuses,
        progresses,
        log_workspaces,
        task_panes,
        notifications,
        windows,
    );
    let mut entries: Vec<TaskCenterEntry> = Vec::new();
    let mut i: usize = 0;
    while i < names.len()
        invariant
            i <= names@.len(),
            entry_views(entries@) == rows_for_names(
                views(names@).subrange(0, i as int),
                statuses@,
                progresses@,
                task_panes@,
                notifications@,
                notification_anchor_panes@,
                windows@,
            ),
        decreases names@.len() - i,
    {
        assert(views(names@).subrange(0, i + 1).drop_last() =~= views(names@).subrange(0, i as int));
        assert(views(names@).subrange(0, i + 1).last() == names@[i as int]@);
        workspace_block(
            names[i].as_str(),
            statuses,
            progresses,
            task_panes,
            notifications,
            notification_anchor_panes,
            windows,
            &mut entries,
        );
        i += 1;
    }
    assert(views(names@).subrange(0, names@.len() as int) =~= views(names@));
    entries
}

} // verus!
