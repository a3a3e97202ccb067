//! What the native shell's first window shows from the multiplexer's records: the title, the
//! count chip, the summary of the shown workspace, the workspace rail, and the short inbox,
//! failure and activity lists.

use crate::notification_store::NotificationRecord;
use crate::snapshot::{count_panes, count_unread, failed_of, running_of, unread_of, RuntimeSnapshotSource};
use crate::task_center::{opt_text, progress_in, progress_of, status_in, status_of};
use crate::task_panes::TaskPaneRecord;
use crate::text::{
    append_chars, chars_of, decimal, decimal_chars, join_chars, joined, lex_less, owned, str_less,
    string_of, views,
};
use crate::workspace_state::{WorkspaceLogRecord, WorkspaceProgressRecord, WorkspaceStatusRecord};
use vstd::prelude::*;

verus! {

/// A workspace in the first window's rail.
#[derive(Debug, PartialEq, Eq)]
pub struct BootWorkspaceSummary {
    pub name: String,
    pub unread_count: usize,
    pub running_count: usize,
    pub failed_count: usize,
    pub status: Option<String>,
    pub progress: Option<u8>,
}

/// A rail workspace with its texts as character sequences.
pub struct BootSummaryView {
    pub name: Seq<char>,
    pub unread_count: nat,
    pub running_count: nat,
    pub failed_count: nat,
    pub status: Option<Seq<char>>,
    pub progress: Option<u8>,
}

impl View for BootWorkspaceSummary {
    type V = BootSummaryView;

    open spec fn view(&self) -> BootSummaryView {
        BootSummaryView {
            name: self.name@,
            unread_count: self.unread_count as nat,
            running_count: self.running_count as nat,
            failed_count: self.failed_count as nat,
            status: opt_text(self.status),
            progress: self.progress,
        }
    }
}

/// What the first window shows.
#[derive(Debug, PartialEq, Eq)]
pub struct RuntimeBootState {
    pub title: String,
    pub status_chip: String,
    pub main_copy: String,
    pub workspaces: Vec<BootWorkspaceSummary>,
    pub active_workspace: String,
    pub inbox: Vec<String>,
    pub failures: Vec<String>,
    pub activity: Vec<String>,
}

/// The rail entry of workspace `name`: its unread notifications, live and failed task panes,
/// and its status and progress (those of its last record).
pub open spec fn summary_of(
    name: Seq<char>,
    ns: Seq<NotificationRecord>,
    tps: Seq<TaskPaneRecord>,
    ss: Seq<WorkspaceStatusRecord>,
    ps: Seq<WorkspaceProgressRecord>,
) -> BootSummaryView {
    BootSummaryView {
        name,
        unread_count: unread_of(ns, name),
        running_count: running_of(tps, name),
        failed_count: failed_of(tps, name),
        status: status_in(ss, name),
        progress: progress_in(ps, name),
    }
}

/// The index of the first entry of `s` whose name comes after `name` (the length where none
/// does).
pub open spec fn first_name_above(s: Seq<BootSummaryView>, name: Seq<char>) -> int
    decreases s.len(),
{
    if s.len() == 0 {
        0
    } else if lex_less(name, s[0].name) {
        0
    } else {
        1 + first_name_above(s.drop_first(), name)
    }
}

/// Entries sorted by name, stably: each goes after every earlier one whose name does not come
/// after its own.
pub open spec fn by_name(s: Seq<BootSummaryView>) -> Seq<BootSummaryView>
    decreases s.len(),
{
    if s.len() == 0 {
        Seq::empty()
    } else {
        let sorted = by_name(s.drop_last());
        sorted.insert(first_name_above(sorted, s.last().name), s.last())
    }
}

/// The rail: the entries of `names`, sorted by name.
pub open spec fn rail_of(
    names: Seq<Seq<char>>,
    ns: Seq<NotificationRecord>,
    tps: Seq<TaskPaneRecord>,
    ss: Seq<WorkspaceStatusRecord>,
    ps: Seq<WorkspaceProgressRecord>,
) -> Seq<BootSummaryView> {
    by_name(names.map_values(|n: Seq<char>| summary_of(n, ns, tps, ss, ps)))
}

/// The views of a list of rail entries.
pub open spec fn summary_views(s: Seq<BootWorkspaceSummary>) -> Seq<BootSummaryView> {
    s.map_values(|x: BootWorkspaceSummary| x@)
}

/// The texts of a list of strings.
pub open spec fn texts_of(s: Seq<String>) -> Seq<Seq<char>> {
    s.map_values(|x: String| x@)
}

/// `first_name_above` skips a prefix of entries whose names do not come after `name`.
proof fn lemma_first_name_above_prefix(s: Seq<BootSummaryView>, name: Seq<char>, k: int)
    requires
        0 <= k <= s.len(),
        forall|j: int| 0 <= j < k ==> !lex_less(name, #[trigger] s[j].name),
    ensures
        first_name_above(s, name) == k + first_name_above(s.skip(k), name),
    decreases k,
{
    if k == 0 {
        assert(s.skip(0) =~= s);
    } else {
        assert(!lex_less(name, s[0].name));
        let t = s.drop_first();
        assert forall|j: int| 0 <= j < k - 1 implies !lex_less(name, #[trigger] t[j].name) by {
            assert(t[j] == s[j + 1]);
        }
        lemma_first_name_above_prefix(t, name, k - 1);
        assert(t.skip(k - 1) =~= s.skip(k));
    }
}

/// The rail entry of workspace `name` (see `summary_of`).
fn workspace_summary_for(
    name: &String,
    statuses: &[WorkspaceStatusRecord],
    progresses: &[WorkspaceProgressRecord],
    notifications: &[NotificationRecord],
    task_panes: &[TaskPaneRecord],
) -> (r: BootWorkspaceSummary)
    ensures
        r@ == summary_of(name@, notifications@, task_panes@, statuses@, progresses@),
{
    BootWorkspaceSummary {
        name: name.clone(),
        unread_count: count_unread(notifications, name.as_str()),
        running_count: count_panes(task_panes, name.as_str(), false),
        failed_count: count_panes(task_panes, name.as_str(), true),
        status: status_of(statuses, name.as_str()),
        progress: progress_of(progresses, name.as_str()),
    }
}

/// The rail of the first window: an entry for each workspace, sorted by name (see `rail_of`).
pub fn build_workspace_summaries(
    workspaces: &[String],
    statuses: &[WorkspaceStatusRecord],
    progresses: &[WorkspaceProgressRecord],
    notifications: &[NotificationRecord],
    task_panes: &[TaskPaneRecord],
) -> (r: Vec<BootWorkspaceSummary>)
    ensures
        summary_views(r@) == rail_of(texts_of(workspaces@), notifications@, task_panes@, statuses@, progresses@),
{
    let ghost f = |n: Seq<char>| summary_of(n, notifications@, task_panes@, statuses@, progresses@);
    let ghost all = texts_of(workspaces@).map_values(f);
    let mut r: Vec<BootWorkspaceSummary> = Vec::new();
    let mut i: usize = 0;
    while i < workspaces.len()
        invariant
            i <= workspaces@.len(),
            f == (|n: Seq<char>| summary_of(n, notifications@, task_panes@, statuses@, progresses@)),
            all == texts_of(workspaces@).map_values(f),
            summary_views(r@) == by_name(all.subrange(0, i as int)),
        decreases workspaces@.len() - i,
    {
        let ghost sorted = summary_views(r@);
        let s = workspace_summary_for(&workspaces[i], statuses, progresses, notifications, task_panes);
        assert(s@ == all[i as int]);
        let name = chars_of(s.name.as_str());
        let mut k: usize = 0;
        while k < r.len() && !str_less(name.as_slice(), chars_of(r[k].name.as_str()).as_slice())
            invariant
                k <= r@.len(),
                sorted == summary_views(r@),
                name@ == s@.name,
                forall|j: int| 0 <= j < k ==> !lex_less(name@, #[trigger] sorted[j].name),
            decreases r@.len() - k,
        {
            assert(sorted[k as int] == r@[k as int]@);
            k += 1;
        }
        proof {
            lemma_first_name_above_prefix(sorted, s@.name, k as int);
            if k < r@.len() {
                assert(sorted.skip(k as int)[0] == sorted[k as int]);
                assert(sorted[k as int] == r@[k as int]@);
            } else {
                assert(sorted.skip(k as int).len() == 0);
            }
            assert(first_name_above(sorted, s@.name) == k);
            assert(all.subrange(0, i + 1).drop_last() =~= all.subrange(0, i as int));
            assert(all.subrange(0, i + 1).last() == s@);
        }
        r.insert(k, s);
        assert(summary_views(r@) =~= sorted.insert(k as int, s@));
        i += 1;
    }
    assert(all.subrange(0, workspaces@.len() as int) =~= all);
    r
}

/// The summary of the shown workspace, one fact per line: its name, its status and progress
/// where it has them, and its running tasks, failed tasks and unread notifications.
pub open spec fn summary_copy_text(
    workspace: Seq<char>,
    status: Option<Seq<char>>,
    progress: Option<u8>,
    running: nat,
    failed: nat,
    unread: nat,
) -> Seq<char> {
    let first = seq!["workspace: "@ + workspace];
    let with_status = match status {
        Some(s) => first.push("status: "@ + s),
        None => first,
    };
    let with_progress = match progress {
        Some(p) => with_status.push("progress: "@ + decimal(p as nat) + "%"@),
        None => with_status,
    };
    joined(
        with_progress.push("running tasks: "@ + decimal(running)).push("failed tasks: "@ + decimal(failed)).push(
            "unread notifications: "@ + decimal(unread),
        ),
        "\n"@,
    )
}

/// `prefix` followed by the characters of `rest`.
fn text_with(prefix: &str, rest: &[char]) -> (r: Vec<char>)
    ensures
        r@ == prefix@ + rest@,
{
    let mut v = chars_of(prefix);
    append_chars(&mut v, rest);
    v
}

/// The summary of the shown workspace (see `summary_copy_text`), with its status and progress
/// records where it has them.
pub fn active_workspace_summary_copy(
    workspace: &str,
    status: Option<&WorkspaceStatusRecord>,
    progress: Option<&WorkspaceProgressRecord>,
    task_panes: &[TaskPaneRecord],
    notifications: &[NotificationRecord],
) -> (r: String)
    ensures
        r@ == summary_copy_text(
            workspace@,
            match status {
                Some(s) => Some(s.status@),
                None => None,
            },
            match progress {
                Some(p) => Some(p.value),
                None => None,
            },
            running_of(task_panes@, workspace@),
            failed_of(task_panes@, workspace@),
            unread_of(notifications@, workspace@),
        ),
{
    let unread = count_unread(notifications, workspace);
    let running = count_panes(task_panes, workspace, false);
    let failed = count_panes(task_panes, workspace, true);
    proof {
        reveal_strlit("%");
    }
    let ghost first = seq!["workspace: "@ + workspace@];
    let ghost with_status = match status {
        Some(s) => first.push("status: "@ + s.status@),
        None => first,
    };
    let ghost with_progress = match progress {
        Some(p) => with_status.push("progress: "@ + decimal(p.value as nat) + "%"@),
        None => with_status,
    };
    let mut lines: Vec<Vec<char>> = Vec::new();
    lines.push(text_with("workspace: ", chars_of(workspace).as_slice()));
    assert(lines@.map_values(|w: Vec<char>| w@) =~= first);
    if let Some(s) = status {
        lines.push(text_with("status: ", chars_of(s.status.as_str()).as_slice()));
    }
    assert(lines@.map_values(|w: Vec<char>| w@) =~= with_status);
    if let Some(p) = progress {
        let mut v = text_with("progress: ", decimal_chars(p.value as u64).as_slice());
        v.push('%');
        assert(v@ =~= "progress: "@ + decimal(p.value as nat) + "%"@);
        lines.push(v);
    }
    assert(lines@.map_values(|w: Vec<char>| w@) =~= with_progress);
    lines.push(text_with("running tasks: ", decimal_chars(running as u64).as_slice()));
    lines.push(text_with("failed tasks: ", decimal_chars(failed as u64).as_slice()));
    lines.push(text_with("unread notifications: ", decimal_chars(unread as u64).as_slice()));
    assert(lines@.map_values(|w: Vec<char>| w@) =~= with_progress.push("running tasks: "@ + decimal(running as nat)).push(
        "failed tasks: "@ + decimal(failed as nat),
    ).push("unread notifications: "@ + decimal(unread as nat)));
    let sep = chars_of("\n");
    let j = join_chars(&lines, sep.as_slice());
    string_of(j.as_slice())
}

/// A notification as the first window lists it: its workspace and title, and its body after a
/// dash where it has a non-empty one.
pub open spec fn notification_row_text(n: NotificationRecord) -> Seq<char> {
    let body = match n.body {
        Some(b) => b@,
        None => Seq::empty(),
    };
    if body.len() == 0 {
        n.workspace@ + " · "@ + n.title@
    } else {
        n.workspace@ + " · "@ + n.title@ + " — "@ + body
    }
}

/// A notification as the first window lists it (see `notification_row_text`).
pub fn format_notification_row(record: &NotificationRecord) -> (r: String)
    ensures
        r@ == notification_row_text(*record),
{
    let mut v = chars_of(record.workspace.as_str());
    let dot = chars_of(" · ");
    append_chars(&mut v, dot.as_slice());
    let t = chars_of(record.title.as_str());
    append_chars(&mut v, t.as_slice());
    if let Some(b) = &record.body {
        let bc = chars_of(b.as_str());
        if bc.len() > 0 {
            let dash = chars_of(" — ");
            append_chars(&mut v, dash.as_slice());
            append_chars(&mut v, bc.as_slice());
        }
    }
    string_of(v.as_slice())
}

/// A task pane as the first window lists it: its workspace (`unknown` where it has none), its
/// pane, and whether it failed, is idle (exited) or is running.
pub open spec fn task_row_text(t: TaskPaneRecord) -> Seq<char> {
    let workspace = match t.workspace {
        Some(w) => w@,
        None => "unknown"@,
    };
    let state = if t.is_failed {
        "failed"@
    } else if t.is_dead {
        "idle"@
    } else {
        "running"@
    };
    workspace + " · pane "@ + decimal(t.pane_id as nat) + " · "@ + state
}

/// A task pane as the first window lists it (see `task_row_text`).
pub fn format_task_row(record: &TaskPaneRecord) -> (r: String)
    ensures
        r@ == task_row_text(*record),
{
    let mut v = match &record.workspace {
        Some(w) => chars_of(w.as_str()),
        None => chars_of("unknown"),
    };
    let mid = chars_of(" · pane ");
    append_chars(&mut v, mid.as_slice());
    let d = decimal_chars(record.pane_id);
    append_chars(&mut v, d.as_slice());
    let dot = chars_of(" · ");
    append_chars(&mut v, dot.as_slice());
    let state = if record.is_failed {
        chars_of("failed")
    } else if record.is_dead {
        chars_of("idle")
    } else {
        chars_of("running")
    };
    append_chars(&mut v, state.as_slice());
    string_of(v.as_slice())
}

/// A log line as the first window lists it: `#`, its sequence number and its message.
pub open spec fn log_row_text(r: WorkspaceLogRecord) -> Seq<char> {
    "#"@ + decimal(r.seq as nat) + " "@ + r.message@
}

/// A log line as the first window lists it (see `log_row_text`).
pub fn format_log_row(record: WorkspaceLogRecord) -> (r: String)
    ensures
        r@ == log_row_text(record),
{
    let mut v = text_with("#", decimal_chars(record.seq).as_slice());
    let sp = chars_of(" ");
    append_chars(&mut v, sp.as_slice());
    let m = chars_of(record.message.as_str());
    append_chars(&mut v, m.as_slice());
    string_of(v.as_slice())
}

/// The first `n` elements of `s` (all of them where there are fewer).
pub open spec fn first_n<A>(s: Seq<A>, n: nat) -> Seq<A> {
    if s.len() <= n {
        s
    } else {
        s.subrange(0, n as int)
    }
}

/// The count chip: how many task panes run and have failed, and how many notifications are
/// unread.
pub open spec fn status_chip_text(running: nat, failed: nat, unread: nat) -> Seq<char> {
    decimal(running) + " running  "@ + decimal(failed) + " failed  "@ + decimal(unread) + " inbox"@
}

/// What the first window shows of the records read (as `runtime_boot_state` builds it).
pub open spec fn boot_state_holds(
    r: RuntimeBootState,
    active: Seq<char>,
    workspaces: Seq<String>,
    ss: Seq<WorkspaceStatusRecord>,
    ps: Seq<WorkspaceProgressRecord>,
    ns: Seq<NotificationRecord>,
    tps: Seq<TaskPaneRecord>,
    logs: Seq<WorkspaceLogRecord>,
) -> bool {
    &&& r.title@ == active + " workspace"@
    &&& r.status_chip@ == status_chip_text(
        tps.filter(|t: TaskPaneRecord| !t.is_dead).len(),
        tps.filter(|t: TaskPaneRecord| t.is_failed).len(),
        ns.filter(|n: NotificationRecord| n.unread).len(),
    )
    &&& r.main_copy@ == summary_copy_text(
        active,
        status_in(ss, active),
        progress_in(ps, active),
        running_of(tps, active),
        failed_of(tps, active),
        unread_of(ns, active),
    )
    &&& summary_views(r.workspaces@) == rail_of(texts_of(workspaces), ns, tps, ss, ps)
    &&& r.active_workspace@ == active
    &&& texts_of(r.inbox@) == first_n(ns.filter(|n: NotificationRecord| n.unread), 4).map_values(
        |n: NotificationRecord| notification_row_text(n),
    )
    &&& texts_of(r.failures@) == first_n(tps.filter(|t: TaskPaneRecord| t.is_failed || !t.is_dead), 4).map_values(
        |t: TaskPaneRecord| task_row_text(t),
    )
    &&& texts_of(r.activity@) == first_n(logs.reverse(), 5).map_values(|l: WorkspaceLogRecord| log_row_text(l))
}

/// How many of the notifications are unread.
fn count_all_unread(ns: &[NotificationRecord]) -> (r: usize)
    ensures
        r == ns@.filter(|n: NotificationRecord| n.unread).len(),
{
    let ghost f = |n: NotificationRecord| n.unread;
    let mut c: usize = 0;
    let mut i: usize = 0;
    while i < ns.len()
        invariant
            i <= ns@.len(),
            f == (|n: NotificationRecord| n.unread),
            c == ns@.subrange(0, i as int).filter(f).len(),
            c <= i,
        decreases ns@.len() - i,
    {
        assert(ns@.subrange(0, i + 1) =~= ns@.subrange(0, i as int).push(ns@[i as int]));
        proof {
            crate::seq_facts::lemma_filter_push(ns@.subrange(0, i as int), f, ns@[i as int]);
        }
        if ns[i].unread {
            c += 1;
        }
        i += 1;
    }
    assert(ns@.subrange(0, ns@.len() as int) =~= ns@);
    c
}

/// How many task panes are live (`failed` false) or have failed (`failed` true).
fn count_all_panes(tps: &[TaskPaneRecord], failed: bool) -> (r: usize)
    ensures
        !failed ==> r == tps@.filter(|t: TaskPaneRecord| !t.is_dead).len(),
        failed ==> r == tps@.filter(|t: TaskPaneRecord| t.is_failed).len(),
{
    let ghost f = |t: TaskPaneRecord| if failed { t.is_failed } else { !t.is_dead };
    let mut c: usize = 0;
    let mut i: usize = 0;
    while i < tps.len()
        invariant
            i <= tps@.len(),
            f == (|t: TaskPaneRecord| if failed { t.is_failed } else { !t.is_dead }),
            c == tps@.subrange(0, i as int).filter(f).len(),
            c <= i,
        decreases tps@.len() - i,
    {
        assert(tps@.subrange(0, i + 1) =~= tps@.subrange(0, i as int).push(tps@[i as int]));
        proof {
            crate::seq_facts::lemma_filter_push(tps@.subrange(0, i as int), f, tps@[i as int]);
        }
        let hit = if failed { tps[i].is_failed } else { !tps[i].is_dead };
        if hit {
            c += 1;
        }
        i += 1;
    }
    assert(tps@.subrange(0, tps@.len() as int) =~= tps@);
    if failed {
        assert(f =~= (|t: TaskPaneRecord| t.is_failed));
    } else {
        assert(f =~= (|t: TaskPaneRecord| !t.is_dead));
    }
    c
}

/// The rows of the first (up to) four unread notifications.
fn inbox_rows(ns: &[NotificationRecord]) -> (r: Vec<String>)
    ensures
        texts_of(r@) == first_n(ns@.filter(|n: NotificationRecord| n.unread), 4).map_values(
            |n: NotificationRecord| notification_row_text(n),
        ),
{
    let ghost f = |n: NotificationRecord| n.unread;
    let ghost g = |n: NotificationRecord| notification_row_text(n);
    let mut r: Vec<String> = Vec::new();
    let mut i: usize = 0;
    while i < ns.len() && r.len() < 4
        invariant
            i <= ns@.len(),
            f == (|n: NotificationRecord| n.unread),
            g == (|n: NotificationRecord| notification_row_text(n)),
            r@.len() <= 4,
            texts_of(r@) == ns@.subrange(0, i as int).filter(f).map_values(g),
        decreases ns@.len() - i,
    {
        assert(ns@.subrange(0, i + 1) =~= ns@.subrange(0, i as int).push(ns@[i as int]));
        proof {
            crate::seq_facts::lemma_filter_push(ns@.subrange(0, i as int), f, ns@[i as int]);
        }
        if ns[i].unread {
            let ghost before = texts_of(r@);
            r.push(format_notification_row(&ns[i]));
            assert(texts_of(r@) =~= before.push(g(ns@[i as int])));
            assert(ns@.subrange(0, i as int).filter(f).push(ns@[i as int]).map_values(g) =~= ns@.subrange(
                0,
                i as int,
            ).filter(f).map_values(g).push(g(ns@[i as int])));
        }
        i += 1;
    }
    proof {
        crate::seq_facts::lemma_filter_split(ns@, f, i as int);
        let full = ns@.filter(f);
        let pre = ns@.subrange(0, i as int).filter(f);
        assert(full == pre + ns@.subrange(i as int, ns@.len() as int).filter(f));
        if i == ns@.len() {
            assert(ns@.subrange(i as int, ns@.len() as int).filter(f).len() == 0) by {
                reveal(Seq::filter);
            }
            assert(full =~= pre);
        } else {
            assert(pre.len() == 4);
            assert(first_n(full, 4) =~= pre);
        }
        assert(first_n(full, 4) =~= pre);
    }
    r
}

/// The rows of the first (up to) four task panes that failed or still run.
fn failure_rows(tps: &[TaskPaneRecord]) -> (r: Vec<String>)
    ensures
        texts_of(r@) == first_n(tps@.filter(|t: TaskPaneRecord| t.is_failed || !t.is_dead), 4).map_values(
            |t: TaskPaneRecord| task_row_text(t),
        ),
{
    let ghost f = |t: TaskPaneRecord| t.is_failed || !t.is_dead;
    let ghost g = |t: TaskPaneRecord| task_row_text(t);
    let mut r: Vec<String> = Vec::new();
    let mut i: usize = 0;
    while i < tps.len() && r.len() < 4
        invariant
            i <= tps@.len(),
            f == (|t: TaskPaneRecord| t.is_failed || !t.is_dead),
            g == (|t: TaskPaneRecord| task_row_text(t)),
            r@.len() <= 4,
            texts_of(r@) == tps@.subrange(0, i as int).filter(f).map_values(g),
        decreases tps@.len() - i,
    {
        assert(tps@.subrange(0, i + 1) =~= tps@.subrange(0, i as int).push(tps@[i as int]));
        proof {
            crate::seq_facts::lemma_filter_push(tps@.subrange(0, i as int), f, tps@[i as int]);
        }
        if tps[i].is_failed || !tps[i].is_dead {
            let ghost before = texts_of(r@);
            r.push(format_task_row(&tps[i]));
            assert(texts_of(r@) =~= before.push(g(tps@[i as int])));
            assert(tps@.subrange(0, i as int).filter(f).push(tps@[i as int]).map_values(g) =~= tps@.subrange(
                0,
                i as int,
            ).filter(f).map_values(g).push(g(tps@[i as int])));
        }
        i += 1;
    }
    proof {
        crate::seq_facts::lemma_filter_split(tps@, f, i as int);
        let full = tps@.filter(f);
        let pre = tps@.subrange(0, i as int).filter(f);
        assert(full == pre + tps@.subrange(i as int, tps@.len() as int).filter(f));
        if i == tps@.len() {
            assert(tps@.subrange(i as int, tps@.len() as int).filter(f).len() == 0) by {
                reveal(Seq::filter);
            }
            assert(full =~= pre);
        } else {
            assert(pre.len() == 4);
            assert(first_n(full, 4) =~= pre);
        }
        assert(first_n(full, 4) =~= pre);
    }
    r
}

/// The rows of the (up to) five newest log lines, newest first.
fn activity_rows(logs: &[WorkspaceLogRecord]) -> (r: Vec<String>)
    ensures
        texts_of(r@) == first_n(logs@.reverse(), 5).map_values(|l: WorkspaceLogRecord| log_row_text(l)),
{
    let ghost g = |l: WorkspaceLogRecord| log_row_text(l);
    let n = logs.len();
    let mut r: Vec<String> = Vec::new();
    let mut k: usize = 0;
    while k < n && k < 5
        invariant
            n == logs@.len(),
            k <= n,
            k <= 5,
            g == (|l: WorkspaceLogRecord| log_row_text(l)),
            texts_of(r@) == logs@.reverse().subrange(0, k as int).map_values(g),
        decreases n - k,
    {
        let ghost before = texts_of(r@);
        r.push(format_log_row(logs[n - 1 - k].clone()));
        assert(logs@.reverse()[k as int] == logs@[n - 1 - k]);
        assert(logs@.reverse().subrange(0, k + 1) =~= logs@.reverse().subrange(0, k as int).push(logs@[n - 1 - k]));
        assert(texts_of(r@) =~= before.push(g(logs@[n - 1 - k])));
        k += 1;
    }
    assert(first_n(logs@.reverse(), 5) =~= logs@.reverse().subrange(0, k as int));
    r
}

/// The index of the last record of `w`, where there is one.
fn last_status_record(statuses: &[WorkspaceStatusRecord], w: &str) -> (r: Option<usize>)
    ensures
        match r {
            Some(k) => k < statuses@.len() && status_in(statuses@, w@) == Some(statuses@[k as int].status@),
            None => status_in(statuses@, w@) is None,
        },
{
    let mut i = statuses.len();
    assert(statuses@.subrange(0, statuses@.len() as int) =~= statuses@);
    while i > 0
        invariant
            i <= statuses@.len(),
            status_in(statuses@, w@) == status_in(statuses@.subrange(0, i as int), w@),
        decreases i,
    {
        let ghost pre = statuses@.subrange(0, i as int);
        assert(pre.drop_last() =~= statuses@.subrange(0, i - 1));
        if crate::text::str_eq(statuses[i - 1].workspace.as_str(), w) {
            return Some(i - 1);
        }
        i -= 1;
    }
    None
}

/// The index of the last progress record of `w`, where there is one.
fn last_progress_record(progresses: &[WorkspaceProgressRecord], w: &str) -> (r: Option<usize>)
    ensures
        match r {
            Some(k) => k < progresses@.len() && progress_in(progresses@, w@) == Some(progresses@[k as int].value),
            None => progress_in(progresses@, w@) is None,
        },
{
    let mut i = progresses.len();
    assert(progresses@.subrange(0, progresses@.len() as int) =~= progresses@);
    while i > 0
        invariant
            i <= progresses@.len(),
            progress_in(progresses@, w@) == progress_in(progresses@.subrange(0, i as int), w@),
        decreases i,
    {
        let ghost pre = progresses@.subrange(0, i as int);
        assert(pre.drop_last() =~= progresses@.subrange(0, i - 1));
        if crate::text::str_eq(progresses[i - 1].workspace.as_str(), w) {
            return Some(i - 1);
        }
        i -= 1;
    }
    None
}

/// What the first window shows of the records read: the shown workspace `active_workspace`,
/// the workspaces, their statuses, progress, notifications and task panes, and the shown
/// workspace's log (see `boot_state_holds`).
pub fn runtime_boot_state(
    active_workspace: String,
    workspaces: &[String],
    statuses: &[WorkspaceStatusRecord],
    progresses: &[WorkspaceProgressRecord],
    notifications: &[NotificationRecord],
    task_panes: &[TaskPaneRecord],
    logs: &[WorkspaceLogRecord],
) -> (r: RuntimeBootState)
    ensures
        boot_state_holds(
            r,
            active_workspace@,
            workspaces@,
            statuses@,
            progresses@,
            notifications@,
            task_panes@,
            logs@,
        ),
{
    let unread_total = count_all_unread(notifications);
    let running_total = count_all_panes(task_panes, false);
    let failed_total = count_all_panes(task_panes, true);
    let title = string_of(text_with(active_workspace.as_str(), chars_of(" workspace").as_slice()).as_slice());
    let mut chip = decimal_chars(running_total as u64);
    append_chars(&mut chip, chars_of(" running  ").as_slice());
    append_chars(&mut chip, decimal_chars(failed_total as u64).as_slice());
    append_chars(&mut chip, chars_of(" failed  ").as_slice());
    append_chars(&mut chip, decimal_chars(unread_total as u64).as_slice());
    append_chars(&mut chip, chars_of(" inbox").as_slice());
    let status = match last_status_record(statuses, active_workspace.as_str()) {
        Some(k) => Some(&statuses[k]),
        None => None,
    };
    let progress = match last_progress_record(progresses, active_workspace.as_str()) {
        Some(k) => Some(&progresses[k]),
        None => None,
    };
    let main_copy = active_workspace_summary_copy(active_workspace.as_str(), status, progress, task_panes, notifications);
    RuntimeBootState {
        title,
        status_chip: string_of(chip.as_slice()),
        main_copy,
        workspaces: build_workspace_summaries(workspaces, statuses, progresses, notifications, task_panes),
        active_workspace,
        inbox: inbox_rows(notifications),
        failures: failure_rows(task_panes),
        activity: activity_rows(logs),
    }
}

/// Reads the multiplexer's records from `source` and builds what the first window shows of them:
/// the result is what `runtime_boot_state` gives for answers the source gave (its active
/// workspace, its workspaces, statuses, progress values, notifications and task panes, and the
/// log of that active workspace); its title names the shown workspace and its lists are short.
pub fn runtime_boot_state_from_source<S: RuntimeSnapshotSource>(source: &S) -> (r: RuntimeBootState)
    ensures
        exists|
            a: Seq<char>,
            ws: Seq<String>,
            st: Seq<WorkspaceStatusRecord>,
            pr: Seq<WorkspaceProgressRecord>,
            ns: Seq<NotificationRecord>,
            tps: Seq<TaskPaneRecord>,
            lg: Seq<WorkspaceLogRecord>,
        |
            #[trigger] boot_state_holds(r, a, ws, st, pr, ns, tps, lg) && source.active_answer(a)
                && source.workspaces_answer(views(ws)) && source.statuses_answer(st) && source.progresses_answer(pr)
                && source.notifications_answer(ns) && source.task_panes_answer(tps) && source.log_answer(a, lg),
        r.title@ == r.active_workspace@ + " workspace"@,
        r.inbox@.len() <= 4,
        r.failures@.len() <= 4,
        r.activity@.len() <= 5,
{
    let active_workspace = source.active_workspace();
    let workspaces = source.iter_workspaces();
    let statuses = source.list_workspace_status();
    let progresses = source.list_workspace_progress();
    let notifications = source.list_notifications();
    let task_panes = source.list_task_panes();
    let logs = source.list_workspace_log(active_workspace.as_str());
    let r = runtime_boot_state(
        active_workspace,
        workspaces.as_slice(),
        statuses.as_slice(),
        progresses.as_slice(),
        notifications.as_slice(),
        task_panes.as_slice(),
        logs.as_slice(),
    );
    assert(texts_of(r.inbox@).len() == r.inbox@.len());
    assert(texts_of(r.failures@).len() == r.failures@.len());
    assert(texts_of(r.activity@).len() == r.activity@.len());
    assert(boot_state_holds(r, active_workspace@, workspaces@, statuses@, progresses@, notifications@, task_panes@, logs@));
    r
}

/// What the first window shows where the runtime could not be started: the failure, and
/// nothing else.
pub fn failed_boot_state(error_text: &str) -> (r: RuntimeBootState)
    ensures
        r.title@ == "runtime bootstrap failed"@,
        r.status_chip@ == "runtime error"@,
        r.main_copy@ == "The native shell window loaded, but Kaku runtime bootstrap failed:\n\n"@ + error_text@,
        r.workspaces@.len() == 0,
        r.active_workspace@ == "default"@,
        r.inbox@.len() == 0,
        r.failures@.len() == 0,
        r.activity@.len() == 0,
{
    RuntimeBootState {
        title: owned("runtime bootstrap failed"),
        status_chip: owned("runtime error"),
        main_copy: string_of(
            text_with("The native shell window loaded, but Kaku runtime bootstrap failed:\n\n", chars_of(error_text).as_slice()).as_slice(),
        ),
        workspaces: Vec::new(),
        active_workspace: owned("default"),
        inbox: Vec::new(),
        failures: Vec::new(),
        activity: Vec::new(),
    }
}

} // verus!
