//! The native shell's snapshot of the multiplexer: its workspaces with their counts, status,
//! progress and a one-line detail, the records it shows, and which kind of change calls for
//! which part of it to be refreshed.

use crate::notification_store::NotificationRecord;
use crate::task_center::{insert_name, names_in_order};
use crate::task_panes::TaskPaneRecord;
use crate::text::{
    append_chars, chars_of, contains_text, copy_opt_string, decimal, decimal_chars, has_prefix, joined, owned, str_eq,
    string_of, strip_prefix, trim_chars, trimmed, unicode_upper, upper_case, views,
};
use crate::time::Timestamp;
use crate::workspace_state::{WorkspaceLogRecord, WorkspaceProgressRecord, WorkspaceStatusRecord};
use crate::{PaneId, WindowId};
use vstd::prelude::*;

verus! {

/// A workspace as the shell's rail shows it.
#[derive(Debug, PartialEq, Eq)]
pub struct WorkspaceSummary {
    pub name: String,
    pub detail: Option<String>,
    pub unread_count: usize,
    pub running_count: usize,
    pub failed_count: usize,
    pub status: Option<String>,
    pub progress: Option<u8>,
    pub log_count: usize,
}

/// What the shell shows, read from the multiplexer at one time.
pub struct RuntimeSnapshot {
    pub active_workspace: String,
    pub workspaces: Vec<WorkspaceSummary>,
    pub notifications: Vec<NotificationRecord>,
    pub task_panes: Vec<TaskPaneRecord>,
    pub statuses: Vec<WorkspaceStatusRecord>,
    pub progresses: Vec<WorkspaceProgressRecord>,
    pub logs: Vec<WorkspaceLogRecord>,
}

/// The sizes of the shell's layout, in pixels.
#[derive(Clone, Copy, Debug, PartialEq, Eq, Structural)]
pub struct ShellLayoutContract {
    pub chrome_height: i32,
    pub rail_width: i32,
    pub collapsed_rail_width: i32,
    pub body_split: i32,
    pub workspace_split: i32,
    pub lower_split: i32,
    pub side_split: i32,
}

impl Default for ShellLayoutContract {
    /// The layout the shell opens with.
    fn default() -> (r: Self)
        ensures
            r.chrome_height == 28,
            r.rail_width == 284,
            r.collapsed_rail_width == 0,
            r.body_split == 872,
            r.workspace_split == 356,
            r.lower_split == 618,
            r.side_split == 248,
    {
        ShellLayoutContract {
            chrome_height: 28,
            rail_width: 284,
            collapsed_rail_width: 0,
            body_split: 872,
            workspace_split: 356,
            lower_split: 618,
            side_split: 248,
        }
    }
}

impl ShellLayoutContract {
    /// The sections of the layout: chrome, rail, main and context.
    pub fn section_names(&self) -> (r: Vec<&'static str>)
        ensures
            r@.len() == 4,
            r@[0]@ == "chrome"@,
            r@[1]@ == "rail"@,
            r@[2]@ == "main"@,
            r@[3]@ == "context"@,
    {
        vec!["chrome", "rail", "main", "context"]
    }
}

/// Which part of the snapshot a change calls to refresh.
#[derive(Clone, Copy, Debug, PartialEq, Eq, Structural)]
pub enum SnapshotRefreshScope {
    Ignore,
    WorkspaceList,
    WorkspaceContext,
    Notifications,
    TaskPanes,
}

/// A change the multiplexer reports.
#[derive(Clone, Copy, Debug, PartialEq, Eq, Structural)]
pub enum MuxNotification {
    NotificationsChanged,
    WorkspaceMetadataChanged,
    TaskPaneLifecycleChanged(PaneId),
    PaneAdded(PaneId),
    PaneRemoved(PaneId),
    ActiveWorkspaceChanged,
    WorkspaceRenamed,
    WindowWorkspaceChanged(WindowId),
    WindowInvalidated(WindowId),
    /// Any other change.
    Other,
}

/// The part of the snapshot a change calls to refresh: notifications for notification
/// changes, the workspace context for metadata, the task panes for pane lifecycle changes,
/// the workspace list for workspace changes, and nothing otherwise.
pub open spec fn refresh_scope(n: MuxNotification) -> SnapshotRefreshScope {
    match n {
        MuxNotification::NotificationsChanged => SnapshotRefreshScope::Notifications,
        MuxNotification::WorkspaceMetadataChanged => SnapshotRefreshScope::WorkspaceContext,
        MuxNotification::TaskPaneLifecycleChanged(_) => SnapshotRefreshScope::TaskPanes,
        MuxNotification::PaneAdded(_) => SnapshotRefreshScope::TaskPanes,
        MuxNotification::PaneRemoved(_) => SnapshotRefreshScope::TaskPanes,
        MuxNotification::ActiveWorkspaceChanged => SnapshotRefreshScope::WorkspaceList,
        MuxNotification::WorkspaceRenamed => SnapshotRefreshScope::WorkspaceList,
        MuxNotification::WindowWorkspaceChanged(_) => SnapshotRefreshScope::WorkspaceList,
        _ => SnapshotRefreshScope::Ignore,
    }
}

/// The part of the snapshot a change calls to refresh (see `refresh_scope`).
pub fn refresh_scope_for_notification(notification: &MuxNotification) -> (r: SnapshotRefreshScope)
    ensures
        r == refresh_scope(*notification),
{
    match notification {
        MuxNotification::NotificationsChanged => SnapshotRefreshScope::Notifications,
        MuxNotification::WorkspaceMetadataChanged => SnapshotRefreshScope::WorkspaceContext,
        MuxNotification::TaskPaneLifecycleChanged(_) => SnapshotRefreshScope::TaskPanes,
        MuxNotification::PaneAdded(_) => SnapshotRefreshScope::TaskPanes,
        MuxNotification::PaneRemoved(_) => SnapshotRefreshScope::TaskPanes,
        MuxNotification::ActiveWorkspaceChanged => SnapshotRefreshScope::WorkspaceList,
        MuxNotification::WorkspaceRenamed => SnapshotRefreshScope::WorkspaceList,
        MuxNotification::WindowWorkspaceChanged(_) => SnapshotRefreshScope::WorkspaceList,
        _ => SnapshotRefreshScope::Ignore,
    }
}

/// Where the snapshot's records come from; the multiplexer implements it. Each method's answer
/// is one the source gives for that question, as its `*_answer` predicate records; an
/// implementation says what those predicates hold of, so the snapshot can be tied to the
/// answers it was built from without assuming that two questions get the same answer. By
/// default a predicate admits every answer; a source that promises more says so in its impl.
pub trait RuntimeSnapshotSource {
    /// Whether `w` is an answer the source gives for its active workspace.
    closed spec fn active_answer(&self, w: Seq<char>) -> bool {
        true
    }

    /// Whether `ws` is an answer the source gives for its workspaces.
    closed spec fn workspaces_answer(&self, ws: Seq<Seq<char>>) -> bool {
        true
    }

    /// Whether `ns` is an answer the source gives for its notifications.
    closed spec fn notifications_answer(&self, ns: Seq<NotificationRecord>) -> bool {
        true
    }

    /// Whether `tps` is an answer the source gives for its task panes.
    closed spec fn task_panes_answer(&self, tps: Seq<TaskPaneRecord>) -> bool {
        true
    }

    /// Whether `st` is an answer the source gives for its workspace statuses.
    closed spec fn statuses_answer(&self, st: Seq<WorkspaceStatusRecord>) -> bool {
        true
    }

    /// Whether `pr` is an answer the source gives for its workspace progress values.
    closed spec fn progresses_answer(&self, pr: Seq<WorkspaceProgressRecord>) -> bool {
        true
    }

    /// Whether `log` is an answer the source gives for workspace `w`'s log.
    closed spec fn log_answer(&self, w: Seq<char>, log: Seq<WorkspaceLogRecord>) -> bool {
        true
    }

    /// Whether `place` is an answer the source gives for the place working directory `cwd`
    /// stands for.
    closed spec fn location_answer(&self, cwd: Seq<char>, place: Option<Seq<char>>) -> bool {
        true
    }

    fn active_workspace(&self) -> (r: String)
        ensures
            self.active_answer(r@),
    ;

    fn iter_workspaces(&self) -> (r: Vec<String>)
        ensures
            self.workspaces_answer(views(r@)),
    ;

    fn list_notifications(&self) -> (r: Vec<NotificationRecord>)
        ensures
            self.notifications_answer(r@),
    ;

    fn list_task_panes(&self) -> (r: Vec<TaskPaneRecord>)
        ensures
            self.task_panes_answer(r@),
    ;

    fn list_workspace_status(&self) -> (r: Vec<WorkspaceStatusRecord>)
        ensures
            self.statuses_answer(r@),
    ;

    fn list_workspace_progress(&self) -> (r: Vec<WorkspaceProgressRecord>)
        ensures
            self.progresses_answer(r@),
    ;

    fn list_workspace_log(&self, workspace: &str) -> (r: Vec<WorkspaceLogRecord>)
        ensures
            self.log_answer(workspace@, r@),
    ;

    /// A short name for the place a working directory stands for (its git branch, or the
    /// path relative to the home directory), where one can be had.
    fn cwd_location(&self, cwd: &str) -> (r: Option<String>)
        ensures
            self.location_answer(cwd@, opt_seq(r)),
    ;
}

/// The text of an optional string.
pub open spec fn opt_seq(o: Option<String>) -> Option<Seq<char>> {
    match o {
        Some(s) => Some(s@),
        None => None,
    }
}

/// The unread notifications of workspace `w`.
pub open spec fn unread_of(ns: Seq<NotificationRecord>, w: Seq<char>) -> nat {
    ns.filter(|n: NotificationRecord| n.workspace@ == w && n.unread).len()
}

/// The task panes of workspace `w` that are alive.
pub open spec fn running_of(tps: Seq<TaskPaneRecord>, w: Seq<char>) -> nat {
    tps.filter(|t: TaskPaneRecord| opt_seq(t.workspace) == Some(w) && !t.is_dead).len()
}

/// The task panes of workspace `w` that failed.
pub open spec fn failed_of(tps: Seq<TaskPaneRecord>, w: Seq<char>) -> nat {
    tps.filter(|t: TaskPaneRecord| opt_seq(t.workspace) == Some(w) && t.is_failed).len()
}

/// The status of the first status record of `w`.
pub open spec fn first_status_of(s: Seq<WorkspaceStatusRecord>, w: Seq<char>) -> Option<Seq<char>>
    decreases s.len(),
{
    if s.len() == 0 {
        None
    } else if s[0].workspace@ == w {
        Some(s[0].status@)
    } else {
        first_status_of(s.drop_first(), w)
    }
}

/// The value of the first progress record of `w`.
pub open spec fn first_progress_of(s: Seq<WorkspaceProgressRecord>, w: Seq<char>) -> Option<u8>
    decreases s.len(),
{
    if s.len() == 0 {
        None
    } else if s[0].workspace@ == w {
        Some(s[0].value)
    } else {
        first_progress_of(s.drop_first(), w)
    }
}

/// `a` ranks at least as high as `b` for the detail: alive before dead, then the later update.
pub open spec fn ranks_at_least(a: TaskPaneRecord, b: TaskPaneRecord) -> bool {
    if !a.is_dead != !b.is_dead {
        !a.is_dead
    } else {
        a.updated_at.spec_not_before(b.updated_at)
    }
}

/// The index of the task pane of `w` that the detail describes: the highest ranking one, the
/// last of those where several rank highest.
pub open spec fn detail_pane_of(tps: Seq<TaskPaneRecord>, w: Seq<char>) -> Option<int>
    decreases tps.len(),
{
    if tps.len() == 0 {
        None
    } else {
        let rest = detail_pane_of(tps.drop_last(), w);
        let i = tps.len() - 1;
        if opt_seq(tps[i].workspace) == Some(w) && (match rest {
            Some(k) => ranks_at_least(tps[i], tps[k]),
            None => true,
        }) {
            Some(i)
        } else {
            rest
        }
    }
}

/// The shell count of a workspace: `FAILED` where nothing runs but something failed, nothing
/// where nothing runs, else `1 SHELL` or `N SHELLS`.
pub open spec fn shell_summary(running: nat, failed: nat) -> Option<Seq<char>> {
    if running == 0 {
        if failed > 0 {
            Some("FAILED"@)
        } else {
            None
        }
    } else if running == 1 {
        Some("1 SHELL"@)
    } else {
        Some(decimal(running) + " SHELLS"@)
    }
}

/// The detail line of a workspace: its location and its shell count, those present, joined by
/// ` • `.
pub open spec fn detail_text(location: Option<Seq<char>>, running: nat, failed: nat) -> Option<Seq<char>> {
    let p0: Seq<Seq<char>> = match location {
        Some(l) => seq![l],
        None => Seq::empty(),
    };
    let p1 = match shell_summary(running, failed) {
        Some(s) => p0.push(s),
        None => p0,
    };
    if p1.len() == 0 {
        None
    } else {
        Some(joined(p1, " • "@))
    }
}

/// How many notifications of `ns` are unread ones of workspace `w`.
pub(crate) fn count_unread(ns: &[NotificationRecord], w: &str) -> (r: usize)
    ensures
        r == unread_of(ns@, w@),
{
    let ghost f = |n: NotificationRecord| n.workspace@ == w@ && n.unread;
    let mut r: usize = 0;
    let mut i: usize = 0;
    while i < ns.len()
        invariant
            i <= ns@.len(),
            f == (|n: NotificationRecord| n.workspace@ == w@ && n.unread),
            r == ns@.subrange(0, i as int).filter(f).len(),
            r <= i,
        decreases ns@.len() - i,
    {
        assert(ns@.subrange(0, i + 1) =~= ns@.subrange(0, i as int).push(ns@[i as int]));
        proof {
            crate::seq_facts::lemma_filter_push(ns@.subrange(0, i as int), f, ns@[i as int]);
        }
        if ns[i].unread && str_eq(ns[i].workspace.as_str(), w) {
            r += 1;
        }
        i += 1;
    }
    assert(ns@.subrange(0, ns@.len() as int) =~= ns@);
    r
}

/// Whether a task pane belongs to workspace `w`.
fn in_workspace(t: &TaskPaneRecord, w: &str) -> (r: bool)
    ensures
        r == (opt_seq(t.workspace) == Some(w@)),
{
    match &t.workspace {
        Some(x) => str_eq(x.as_str(), w),
        None => false,
    }
}

/// How many task panes of workspace `w` are alive (`dead == false`) or failed (`dead == true`).
pub(crate) fn count_panes(tps: &[TaskPaneRecord], w: &str, failed: bool) -> (r: usize)
    ensures
        !failed ==> r == running_of(tps@, w@),
        failed ==> r == failed_of(tps@, w@),
{
    let ghost f = if failed {
        |t: TaskPaneRecord| opt_seq(t.workspace) == Some(w@) && t.is_failed
    } else {
        |t: TaskPaneRecord| opt_seq(t.workspace) == Some(w@) && !t.is_dead
    };
    let mut r: usize = 0;
    let mut i: usize = 0;
    while i < tps.len()
        invariant
            i <= tps@.len(),
            f == if failed {
                |t: TaskPaneRecord| opt_seq(t.workspace) == Some(w@) && t.is_failed
            } else {
                |t: TaskPaneRecord| opt_seq(t.workspace) == Some(w@) && !t.is_dead
            },
            r == tps@.subrange(0, i as int).filter(f).len(),
            r <= i,
        decreases tps@.len() - i,
    {
        assert(tps@.subrange(0, i + 1) =~= tps@.subrange(0, i as int).push(tps@[i as int]));
        proof {
            crate::seq_facts::lemma_filter_push(tps@.subrange(0, i as int), f, tps@[i as int]);
        }
        let counts = if failed {
            tps[i].is_failed
        } else {
            !tps[i].is_dead
        };
        if counts && in_workspace(&tps[i], w) {
            r += 1;
        }
        i += 1;
    }
    assert(tps@.subrange(0, tps@.len() as int) =~= tps@);
    r
}

/// The status of the first status record of `w`.
fn first_status(statuses: &[WorkspaceStatusRecord], w: &str) -> (r: Option<String>)
    ensures
        opt_seq(r) == first_status_of(statuses@, w@),
{
    let mut i: usize = 0;
    assert(statuses@.subrange(0, statuses@.len() as int) =~= statuses@);
    while i < statuses.len()
        invariant
            i <= statuses@.len(),
            first_status_of(statuses@, w@) == first_status_of(statuses@.subrange(i as int, statuses@.len() as int), w@),
        decreases statuses@.len() - i,
    {
        let ghost rest = statuses@.subrange(i as int, statuses@.len() as int);
        assert(rest[0] == statuses@[i as int]);
        assert(rest.drop_first() =~= statuses@.subrange(i + 1, statuses@.len() as int));
        if str_eq(statuses[i].workspace.as_str(), w) {
            return Some(statuses[i].status.clone());
        }
        i += 1;
    }
    None
}

/// The value of the first progress record of `w`.
fn first_progress(progresses: &[WorkspaceProgressRecord], w: &str) -> (r: Option<u8>)
    ensures
        r == first_progress_of(progresses@, w@),
{
    let mut i: usize = 0;
    assert(progresses@.subrange(0, progresses@.len() as int) =~= progresses@);
    while i < progresses.len()
        invariant
            i <= progresses@.len(),
            first_progress_of(progresses@, w@) == first_progress_of(progresses@.subrange(i as int, progresses@.len() as int), w@),
        decreases progresses@.len() - i,
    {
        let ghost rest = progresses@.subrange(i as int, progresses@.len() as int);
        assert(rest[0] == progresses@[i as int]);
        assert(rest.drop_first() =~= progresses@.subrange(i + 1, progresses@.len() as int));
        if str_eq(progresses[i].workspace.as_str(), w) {
            return Some(progresses[i].value);
        }
        i += 1;
    }
    None
}

/// Whether `a` ranks at least as high as `b` for the detail.
fn ranks_at_least_exec(a: &TaskPaneRecord, b: &TaskPaneRecord) -> (r: bool)
    ensures
        r == ranks_at_least(*a, *b),
{
    if !a.is_dead != !b.is_dead {
        !a.is_dead
    } else {
        a.updated_at.not_before(&b.updated_at)
    }
}

/// The index of the task pane of `w` that the detail describes (see `detail_pane_of`).
pub fn detail_pane(tps: &[TaskPaneRecord], w: &str) -> (r: Option<usize>)
    ensures
        match r {
            Some(k) => k < tps@.len() && detail_pane_of(tps@, w@) == Some(k as int),
            None => detail_pane_of(tps@, w@) is None,
        },
{
    let mut best: Option<usize> = None;
    let mut i: usize = 0;
    while i < tps.len()
        invariant
            i <= tps@.len(),
            match best {
                Some(k) => k < i && detail_pane_of(tps@.subrange(0, i as int), w@) == Some(k as int),
                None => detail_pane_of(tps@.subrange(0, i as int), w@) is None,
            },
        decreases tps@.len() - i,
    {
        let ghost pre = tps@.subrange(0, i as int);
        let ghost post = tps@.subrange(0, i + 1);
        assert(post.drop_last() =~= pre);
        assert(post[i as int] == tps@[i as int]);
        if in_workspace(&tps[i], w) {
            let better = match best {
                Some(k) => {
                    assert(post[k as int] == tps@[k as int]);
                    ranks_at_least_exec(&tps[i], &tps[k])
                },
                None => true,
            };
            if better {
                best = Some(i);
            }
        }
        i += 1;
    }
    assert(tps@.subrange(0, tps@.len() as int) =~= tps@);
    best
}

/// The detail line of a workspace (see `detail_text`).
pub fn workspace_detail(location: Option<String>, running_count: usize, failed_count: usize) -> (r: Option<String>)
    ensures
        opt_seq(r) == detail_text(opt_seq(location), running_count as nat, failed_count as nat),
{
    let mut parts: Vec<Vec<char>> = Vec::new();
    if let Some(l) = &location {
        parts.push(chars_of(l.as_str()));
    }
    let ghost p0: Seq<Seq<char>> = match opt_seq(location) {
        Some(l) => seq![l],
        None => Seq::empty(),
    };
    assert(parts@.map_values(|w: Vec<char>| w@) =~= p0);
    let summary: Option<Vec<char>> = if running_count == 0 {
        if failed_count > 0 {
            Some(chars_of("FAILED"))
        } else {
            None
        }
    } else if running_count == 1 {
        Some(chars_of("1 SHELL"))
    } else {
        let mut v = decimal_chars(running_count as u64);
        let suffix = chars_of(" SHELLS");
        append_chars(&mut v, suffix.as_slice());
        Some(v)
    };
    if let Some(s) = summary {
        parts.push(s);
    }
    assert(parts@.map_values(|w: Vec<char>| w@) =~= match shell_summary(running_count as nat, failed_count as nat) {
        Some(s) => p0.push(s),
        None => p0,
    });
    if parts.len() == 0 {
        None
    } else {
        let sep = chars_of(" • ");
        let j = crate::text::join_chars(&parts, sep.as_slice());
        Some(string_of(j.as_slice()))
    }
}

/// The workspace names, each once, in lexicographic order; `fallback` alone where there are
/// none.
pub fn snapshot_names(names: Vec<String>, fallback: String) -> (r: Vec<String>)
    ensures
        names_in_order(views(r@)),
        names@.len() > 0 ==> forall|y: Seq<char>| #[trigger] views(r@).contains(y) == views(names@).contains(y),
        names@.len() == 0 ==> views(r@) == seq![fallback@],
{
    let mut source = names;
    if source.len() == 0 {
        let mut r: Vec<String> = Vec::new();
        r.push(fallback);
        assert(views(r@) =~= seq![fallback@]);
        return r;
    }
    let ghost all = views(source@);
    let mut r: Vec<String> = Vec::new();
    let mut i: usize = 0;
    while i < source.len()
        invariant
            all == views(source@),
            i <= source@.len(),
            names_in_order(views(r@)),
            forall|y: Seq<char>| #[trigger] views(r@).contains(y) == all.subrange(0, i as int).contains(y),
        decreases source@.len() - i,
    {
        insert_name(&mut r, &source[i]);
        assert forall|y: Seq<char>| #[trigger] all.subrange(0, i + 1).contains(y) == (all.subrange(0, i as int).contains(y) || y == source@[i as int]@) by {
            let a = all.subrange(0, i as int);
            let b = all.subrange(0, i + 1);
            assert(b =~= a.push(source@[i as int]@));
            if b.contains(y) {
                let k = choose|k: int| 0 <= k < b.len() && b[k] == y;
                if k < a.len() {
                    assert(a[k] == y);
                }
            }
            if a.contains(y) {
                let k = choose|k: int| 0 <= k < a.len() && a[k] == y;
                assert(b[k] == y);
            }
            if y == source@[i as int]@ {
                assert(b[i as int] == y);
            }
        }
        i += 1;
    }
    assert(all.subrange(0, source@.len() as int) =~= all);
    r
}

/// The workspace to show: the selected one where it is among `names`, else the first name,
/// else `default`.
pub fn choose_active(names: &[String], selected: Option<&str>) -> (r: String)
    ensures
        r@ == match selected {
            Some(s) if views(names@).contains(s@) => s@,
            _ => if names@.len() > 0 {
                names@[0]@
            } else {
                "default"@
            },
        },
{
    if let Some(s) = selected {
        if contains_text(names, s) {
            return owned(s);
        }
    }
    if names.len() > 0 {
        names[0].clone()
    } else {
        owned("default")
    }
}

/// The rail summary of workspace `name` (its detail from `location`).
pub fn workspace_summary(
    name: &String,
    notifications: &[NotificationRecord],
    task_panes: &[TaskPaneRecord],
    statuses: &[WorkspaceStatusRecord],
    progresses: &[WorkspaceProgressRecord],
    location: Option<String>,
    active_workspace: &str,
    active_log_count: usize,
) -> (r: WorkspaceSummary)
    ensures
        r.name@ == name@,
        r.unread_count == unread_of(notifications@, name@),
        r.running_count == running_of(task_panes@, name@),
        r.failed_count == failed_of(task_panes@, name@),
        opt_seq(r.detail) == detail_text(opt_seq(location), r.running_count as nat, r.failed_count as nat),
        opt_seq(r.status) == first_status_of(statuses@, name@),
        r.progress == first_progress_of(progresses@, name@),
        r.log_count == if name@ == active_workspace@ { active_log_count } else { 0 },
{
    let unread_count = count_unread(notifications, name.as_str());
    let running_count = count_panes(task_panes, name.as_str(), false);
    let failed_count = count_panes(task_panes, name.as_str(), true);
    WorkspaceSummary {
        name: name.clone(),
        detail: workspace_detail(location, running_count, failed_count),
        unread_count,
        running_count,
        failed_count,
        status: first_status(statuses, name.as_str()),
        progress: first_progress(progresses, name.as_str()),
        log_count: if str_eq(name.as_str(), active_workspace) {
            active_log_count
        } else {
            0
        },
    }
}

/// The working directory of the task pane that workspace `w`'s detail line describes (see
/// `detail_pane_of`), where that pane has one.
pub open spec fn detail_cwd_of(tps: Seq<TaskPaneRecord>, w: Seq<char>) -> Option<Seq<char>> {
    match detail_pane_of(tps, w) {
        Some(k) => opt_seq(tps[k].current_working_dir),
        None => None,
    }
}

/// The working directory whose place workspace `w`'s detail line names (see `detail_cwd_of`).
pub fn detail_cwd(tps: &[TaskPaneRecord], w: &str) -> (r: Option<String>)
    ensures
        opt_seq(r) == detail_cwd_of(tps@, w@),
{
    match detail_pane(tps, w) {
        Some(k) => copy_opt_string(&tps[k].current_working_dir),
        None => None,
    }
}

/// The names of a snapshot's workspaces, in order.
pub open spec fn names_shown(r: RuntimeSnapshot) -> Seq<Seq<char>> {
    r.workspaces@.map_values(|w: WorkspaceSummary| w.name@)
}

/// Whether `s` is the rail summary of workspace `name` over the records given, with `location`
/// the place its detail line names and `active_log_count` the length of the shown log (see
/// `workspace_summary`).
pub open spec fn summary_of_records(
    s: WorkspaceSummary,
    name: Seq<char>,
    notifications: Seq<NotificationRecord>,
    task_panes: Seq<TaskPaneRecord>,
    statuses: Seq<WorkspaceStatusRecord>,
    progresses: Seq<WorkspaceProgressRecord>,
    location: Option<Seq<char>>,
    active_workspace: Seq<char>,
    active_log_count: nat,
) -> bool {
    &&& s.name@ == name
    &&& s.unread_count == unread_of(notifications, name)
    &&& s.running_count == running_of(task_panes, name)
    &&& s.failed_count == failed_of(task_panes, name)
    &&& opt_seq(s.detail) == detail_text(location, s.running_count as nat, s.failed_count as nat)
    &&& opt_seq(s.status) == first_status_of(statuses, name)
    &&& s.progress == first_progress_of(progresses, name)
    &&& s.log_count == if name == active_workspace { active_log_count } else { 0 }
}

impl RuntimeSnapshot {
    /// The snapshot of the records read from the multiplexer: the workspaces `names` in order,
    /// each summarised from the records (see `summary_of_records`) with the place
    /// `locations` gives at its position, `active_workspace` shown with its log `logs`, and the
    /// records themselves.
    pub fn from_records(
        names: &Vec<String>,
        active_workspace: String,
        notifications: Vec<NotificationRecord>,
        task_panes: Vec<TaskPaneRecord>,
        statuses: Vec<WorkspaceStatusRecord>,
        progresses: Vec<WorkspaceProgressRecord>,
        logs: Vec<WorkspaceLogRecord>,
        locations: &Vec<Option<String>>,
    ) -> (r: RuntimeSnapshot)
        requires
            locations@.len() == names@.len(),
        ensures
            r.active_workspace == active_workspace,
            r.notifications == notifications,
            r.task_panes == task_panes,
            r.statuses == statuses,
            r.progresses == progresses,
            r.logs == logs,
            r.workspaces@.len() == names@.len(),
            forall|i: int|
                0 <= i < names@.len() ==> summary_of_records(
                    #[trigger] r.workspaces@[i],
                    names@[i]@,
                    notifications@,
                    task_panes@,
                    statuses@,
                    progresses@,
                    opt_seq(locations@[i]),
                    active_workspace@,
                    logs@.len(),
                ),
    {
        let mut workspaces: Vec<WorkspaceSummary> = Vec::new();
        let mut i: usize = 0;
        while i < names.len()
            invariant
                i <= names@.len(),
                locations@.len() == names@.len(),
                workspaces@.len() == i,
                forall|j: int|
                    0 <= j < i ==> summary_of_records(
                        #[trigger] workspaces@[j],
                        names@[j]@,
                        notifications@,
                        task_panes@,
                        statuses@,
                        progresses@,
                        opt_seq(locations@[j]),
                        active_workspace@,
                        logs@.len(),
                    ),
            decreases names@.len() - i,
        {
            let summary = workspace_summary(
                &names[i],
                notifications.as_slice(),
                task_panes.as_slice(),
                statuses.as_slice(),
                progresses.as_slice(),
                copy_opt_string(&locations[i]),
                active_workspace.as_str(),
                logs.len(),
            );
            workspaces.push(summary);
            i += 1;
        }
        RuntimeSnapshot { active_workspace, workspaces, notifications, task_panes, statuses, progresses, logs }
    }

    /// Reads a snapshot from `source` and builds it with `from_records`: the workspaces the
    /// source lists (its active workspace where it lists none), each once and in lexicographic
    /// order (see `snapshot_names`); `selected_workspace` shown where it is one of them, else
    /// the first (see `choose_active`); the log of the workspace shown; and for each workspace
    /// the place the source names for the working directory of its detail pane (see
    /// `detail_cwd`). Whatever the source reports, the summaries agree with the records the
    /// snapshot holds.
    pub fn from_source<S: RuntimeSnapshotSource>(source: &S, selected_workspace: Option<&str>) -> (r: RuntimeSnapshot)
        ensures
            forall|i: int| 0 <= i < r.workspaces@.len() ==> {
                let s = #[trigger] r.workspaces@[i];
                &&& s.unread_count == unread_of(r.notifications@, s.name@)
                &&& s.running_count == running_of(r.task_panes@, s.name@)
                &&& s.failed_count == failed_of(r.task_panes@, s.name@)
                &&& opt_seq(s.status) == first_status_of(r.statuses@, s.name@)
                &&& s.progress == first_progress_of(r.progresses@, s.name@)
                &&& s.log_count == if s.name@ == r.active_workspace@ { r.logs@.len() } else { 0 }
            },
            forall|i: int|
                #![trigger r.workspaces@[i]]
                0 <= i < r.workspaces@.len() ==> exists|loc: Option<Seq<char>>|
                    opt_seq(r.workspaces@[i].detail) == #[trigger] detail_text(
                        loc,
                        r.workspaces@[i].running_count as nat,
                        r.workspaces@[i].failed_count as nat,
                    ),
            names_in_order(r.workspaces@.map_values(|s: WorkspaceSummary| s.name@)),
            r.workspaces@.len() > 0,
            r.active_workspace@ == match selected_workspace {
                Some(s) if r.workspaces@.map_values(|w: WorkspaceSummary| w.name@).contains(s@) => s@,
                _ => r.workspaces@[0].name@,
            },
            source.notifications_answer(r.notifications@),
            source.task_panes_answer(r.task_panes@),
            source.statuses_answer(r.statuses@),
            source.progresses_answer(r.progresses@),
            source.log_answer(r.active_workspace@, r.logs@),
            exists|listed: Seq<Seq<char>>|
                #[trigger] source.workspaces_answer(listed) && (listed.len() > 0 ==> forall|y: Seq<char>|
                    #[trigger] names_shown(r).contains(y) == listed.contains(y)) && (listed.len() == 0
                    ==> exists|a: Seq<char>| #[trigger] source.active_answer(a) && names_shown(r) == seq![a]),
            forall|i: int|
                #![trigger r.workspaces@[i]]
                0 <= i < r.workspaces@.len() ==> exists|loc: Option<Seq<char>>|
                    opt_seq(r.workspaces@[i].detail) == #[trigger] detail_text(
                        loc,
                        r.workspaces@[i].running_count as nat,
                        r.workspaces@[i].failed_count as nat,
                    ) && match detail_cwd_of(r.task_panes@, r.workspaces@[i].name@) {
                        Some(c) => source.location_answer(c, loc),
                        None => loc is None,
                    },
    {
        let notifications = source.list_notifications();
        let task_panes = source.list_task_panes();
        let statuses = source.list_workspace_status();
        let progresses = source.list_workspace_progress();
        let listed = source.iter_workspaces();
        let fallback = if listed.len() == 0 {
            source.active_workspace()
        } else {
            String::new()
        };
        let listed_len = listed.len();
        let ghost listed_view = listed@;
        let ghost fallback_view = fallback@;
        let names = snapshot_names(listed, fallback);
        let active_workspace = choose_active(names.as_slice(), selected_workspace);
        let logs = source.list_workspace_log(active_workspace.as_str());
        let mut locations: Vec<Option<String>> = Vec::new();
        let mut i: usize = 0;
        while i < names.len()
            invariant
                i <= names@.len(),
                locations@.len() == i,
                forall|j: int|
                    0 <= j < i ==> match detail_cwd_of(task_panes@, names@[j]@) {
                        Some(c) => source.location_answer(c, opt_seq(#[trigger] locations@[j])),
                        None => locations@[j] is None,
                    },
            decreases names@.len() - i,
        {
            let location = match detail_cwd(task_panes.as_slice(), names[i].as_str()) {
                Some(cwd) => source.cwd_location(cwd.as_str()),
                None => None,
            };
            locations.push(location);
            i += 1;
        }
        let r = RuntimeSnapshot::from_records(
            &names,
            active_workspace,
            notifications,
            task_panes,
            statuses,
            progresses,
            logs,
            &locations,
        );
        assert forall|i: int|
            #![trigger r.workspaces@[i]]
            0 <= i < r.workspaces@.len() implies exists|loc: Option<Seq<char>>|
                opt_seq(r.workspaces@[i].detail) == #[trigger] detail_text(
                    loc,
                    r.workspaces@[i].running_count as nat,
                    r.workspaces@[i].failed_count as nat,
                ) && match detail_cwd_of(r.task_panes@, r.workspaces@[i].name@) {
                    Some(c) => source.location_answer(c, loc),
                    None => loc is None,
                } by {
            assert(opt_seq(locations@[i]) == opt_seq(locations@[i]));
            assert(summary_of_records(
                r.workspaces@[i],
                names@[i]@,
                r.notifications@,
                r.task_panes@,
                r.statuses@,
                r.progresses@,
                opt_seq(locations@[i]),
                r.active_workspace@,
                r.logs@.len(),
            ));
        }
        assert(r.workspaces@.map_values(|s: WorkspaceSummary| s.name@) =~= views(names@));
        assert(names_shown(r) == views(names@));
        assert(source.workspaces_answer(views(listed_view)));
        if listed_len == 0 {
            assert(source.active_answer(fallback_view));
            assert(names_shown(r) == seq![fallback_view]);
        }
        assert(views(names@).len() > 0) by {
            if listed_len > 0 {
                let y = views(listed_view)[0];
                assert(views(listed_view)[0] == y);
                assert(views(listed_view).contains(y));
                assert(views(names@).contains(y));
            } else {
                assert(views(names@) == seq![fallback_view]);
            }
        }
        r
    }
}

/// The part of `s` after its last `/` (all of `s` where it has none).
pub open spec fn last_segment(s: Seq<char>) -> Seq<char>
    decreases s.len(),
{
    if s.len() == 0 {
        s
    } else if s.last() == '/' {
        Seq::empty()
    } else {
        last_segment(s.drop_last()).push(s.last())
    }
}

/// `s` with each `-` replaced by a space.
pub open spec fn dashes_to_spaces(s: Seq<char>) -> Seq<char> {
    s.map_values(|c: char| if c == '-' { ' ' } else { c })
}

/// The branch label that the contents of a git `HEAD` file give: for `ref: refs/heads/x-y`,
/// the last component of the reference with dashes as spaces, in upper case; nothing for a
/// detached head.
pub open spec fn head_branch(head: Seq<char>) -> Option<Seq<char>> {
    let h = trimmed(head);
    if has_prefix(h, "ref: "@) {
        Some(unicode_upper(dashes_to_spaces(last_segment(h.subrange(5, h.len() as int)))))
    } else {
        None
    }
}

/// The part of `s` after its last `/`.
fn last_segment_of(s: &[char]) -> (r: Vec<char>)
    ensures
        r@ == last_segment(s@),
{
    let mut start: usize = 0;
    let mut i: usize = 0;
    while i < s.len()
        invariant
            start <= i <= s@.len(),
            last_segment(s@.subrange(0, i as int)) == s@.subrange(start as int, i as int),
        decreases s@.len() - i,
    {
        let ghost pre = s@.subrange(0, i as int);
        assert(s@.subrange(0, i as int + 1).drop_last() =~= pre);
        if s[i] == '/' {
            start = i + 1;
        }
        i += 1;
        assert(last_segment(s@.subrange(0, i as int)) =~= s@.subrange(start as int, i as int));
    }
    assert(s@.subrange(0, s@.len() as int) =~= s@);
    let mut r: Vec<char> = Vec::new();
    let mut j: usize = start;
    while j < s.len()
        invariant
            start <= j <= s@.len(),
            r@ == s@.subrange(start as int, j as int),
        decreases s@.len() - j,
    {
        r.push(s[j]);
        j += 1;
        assert(r@ =~= s@.subrange(start as int, j as int));
    }
    r
}

/// `s` with each `-` replaced by a space.
fn dashes_as_spaces(s: &[char]) -> (r: Vec<char>)
    ensures
        r@ == dashes_to_spaces(s@),
{
    let mut r: Vec<char> = Vec::new();
    let mut i: usize = 0;
    while i < s.len()
        invariant
            i <= s@.len(),
            r@ == dashes_to_spaces(s@.subrange(0, i as int)),
        decreases s@.len() - i,
    {
        let c = s[i];
        r.push(if c == '-' { ' ' } else { c });
        i += 1;
        assert(r@ =~= dashes_to_spaces(s@.subrange(0, i as int)));
    }
    assert(s@.subrange(0, s@.len() as int) =~= s@);
    r
}

/// The branch label of a git `HEAD` file's contents (see `head_branch`).
pub fn branch_label_from_head(head: &str) -> (r: Option<String>)
    ensures
        opt_seq(r) == head_branch(head@),
{
    proof {
        reveal_strlit("ref: ");
    }
    let h = trim_chars(chars_of(head).as_slice());
    let prefix = chars_of("ref: ");
    match strip_prefix(h.as_slice(), prefix.as_slice()) {
        Some(reference) => {
            let seg = last_segment_of(reference.as_slice());
            let spaced = dashes_as_spaces(seg.as_slice());
            let text = string_of(spaced.as_slice());
            Some(upper_case(text.as_str()))
        },
        None => None,
    }
}

/// The directory that the contents of a `.git` file point to (`gitdir: <dir>`), trimmed.
pub open spec fn gitdir_of(text: Seq<char>) -> Option<Seq<char>> {
    let t = trimmed(text);
    if has_prefix(t, "gitdir: "@) {
        Some(trimmed(t.subrange(8, t.len() as int)))
    } else {
        None
    }
}

/// The directory a `.git` file points to (see `gitdir_of`).
pub fn gitdir_target(text: &str) -> (r: Option<String>)
    ensures
        opt_seq(r) == gitdir_of(text@),
{
    proof {
        reveal_strlit("gitdir: ");
    }
    let t = trim_chars(chars_of(text).as_slice());
    let prefix = chars_of("gitdir: ");
    match strip_prefix(t.as_slice(), prefix.as_slice()) {
        Some(rest) => {
            let target = trim_chars(rest.as_slice());
            Some(string_of(target.as_slice()))
        },
        None => None,
    }
}

} // verus!
