//! The native shell's workspace rail: how a workspace's name is shown (whole or as an
//! initial), the short list of work items under each workspace, and the inbox of the shown
//! workspace's first unread notifications.

use crate::boot_state::first_n;
use crate::notification_store::NotificationRecord;
use crate::shell_view::{shorten_work_item_path, shortened_work_item_path};
use crate::snapshot::{opt_seq, RuntimeSnapshot, WorkspaceSummary};
use crate::task_panes::TaskPaneRecord;
use crate::text::{
    append_chars, chars_of, copy_opt_string, decimal, decimal_chars, owned, str_eq, string_of, trim_chars, trimmed,
    unicode_upper, upper_case, upper_char, uppercase_chars,
};
use vstd::prelude::*;

verus! {

/// What the collapsed rail shows of a workspace: the first character of its display name in
/// ASCII upper case, or a bullet where the name is empty.
pub open spec fn initial_of(display_name: Seq<char>) -> Seq<char> {
    if display_name.len() > 0 {
        seq![upper_char(display_name[0])]
    } else {
        "•"@
    }
}

/// The label of a workspace's rail row: its initial where the rail is collapsed (see
/// `initial_of`), else its display name in upper case.
pub open spec fn rail_label_of(display_name: Seq<char>, collapsed: bool) -> Seq<char> {
    if collapsed {
        initial_of(display_name)
    } else {
        unicode_upper(display_name)
    }
}

/// The label of a workspace's rail row (see `rail_label_of`).
pub fn rail_label(display_name: &str, collapsed: bool) -> (r: String)
    ensures
        r@ == rail_label_of(display_name@, collapsed),
{
    if collapsed {
        let v = chars_of(display_name);
        if v.len() > 0 {
            let first = uppercase_chars(&v.as_slice()[0..1]);
            assert(v@.subrange(0, 1) =~= seq![v@[0]]);
            assert(first@ =~= seq![upper_char(v@[0])]);
            string_of(first.as_slice())
        } else {
            owned("•")
        }
    } else {
        upper_case(display_name)
    }
}

/// Where a scan of `s` for the first `n` items that `f` keeps stopped at `i` (at the end, or
/// with `n` kept), those are the first `n` that `f` keeps.
proof fn lemma_first_kept<A>(s: Seq<A>, f: spec_fn(A) -> bool, i: int, n: nat)
    requires
        0 <= i <= s.len(),
        s.subrange(0, i).filter(f).len() <= n,
        i == s.len() || s.subrange(0, i).filter(f).len() == n,
    ensures
        first_n(s.filter(f), n) == s.subrange(0, i).filter(f),
{
    crate::seq_facts::lemma_filter_split(s, f, i);
    let pre = s.subrange(0, i).filter(f);
    if i == s.len() {
        assert(s.subrange(i, s.len() as int).filter(f).len() == 0) by {
            reveal(Seq::filter);
        }
        assert(s.filter(f) =~= pre);
    } else {
        assert(first_n(s.filter(f), n) =~= pre);
    }
}

/// The unread notifications of workspace `w`.
pub open spec fn unread_in(w: Seq<char>) -> spec_fn(NotificationRecord) -> bool {
    |n: NotificationRecord| n.workspace@ == w && n.unread
}

/// A notification as the inbox shows it: its title and its body, if any.
pub open spec fn inbox_item(n: NotificationRecord) -> (Seq<char>, Option<Seq<char>>) {
    (n.title@, opt_seq(n.body))
}

/// The texts of inbox entries.
pub open spec fn inbox_views(r: Seq<(String, Option<String>)>) -> Seq<(Seq<char>, Option<Seq<char>>)> {
    r.map_values(|e: (String, Option<String>)| (e.0@, opt_seq(e.1)))
}

/// The rail's inbox: the first six unread notifications of the shown workspace, in order, each
/// as its title and body (see `inbox_item`).
pub fn rail_inbox(snapshot: &RuntimeSnapshot) -> (r: Vec<(String, Option<String>)>)
    ensures
        inbox_views(r@) == first_n(snapshot.notifications@.filter(unread_in(snapshot.active_workspace@)), 6).map_values(
            |n: NotificationRecord| inbox_item(n),
        ),
{
    let ns = &snapshot.notifications;
    let w = snapshot.active_workspace.as_str();
    let ghost f = unread_in(w@);
    let ghost g = |n: NotificationRecord| inbox_item(n);
    let mut r: Vec<(String, Option<String>)> = Vec::new();
    let mut i: usize = 0;
    while i < ns.len() && r.len() < 6
        invariant
            i <= ns@.len(),
            f == unread_in(w@),
            g == (|n: NotificationRecord| inbox_item(n)),
            r@.len() == ns@.subrange(0, i as int).filter(f).len(),
            r@.len() <= 6,
            inbox_views(r@) == ns@.subrange(0, i as int).filter(f).map_values(g),
        decreases ns@.len() - i,
    {
        let ghost pre = ns@.subrange(0, i as int);
        assert(ns@.subrange(0, i + 1) =~= pre.push(ns@[i as int]));
        proof {
            crate::seq_facts::lemma_filter_push(pre, f, ns@[i as int]);
        }
        if ns[i].unread && str_eq(ns[i].workspace.as_str(), w) {
            let ghost before = r@;
            r.push((ns[i].title.clone(), copy_opt_string(&ns[i].body)));
            assert(inbox_views(r@) =~= inbox_views(before).push(g(ns@[i as int])));
            assert(pre.filter(f).push(ns@[i as int]).map_values(g) =~= pre.filter(f).map_values(g).push(
                g(ns@[i as int]),
            ));
        }
        i += 1;
    }
    proof {
        lemma_first_kept(ns@, f, i as int, 6);
    }
    r
}

/// How a rail work item is marked.
#[derive(Clone, Copy, Debug, PartialEq, Eq, Structural)]
pub enum WorkItemState {
    Running,
    Unread,
    Failed,
}

/// A line under a workspace in the rail: its title, its detail, and how it is marked.
#[derive(Debug, PartialEq, Eq)]
pub struct RailWorkItem {
    pub title: String,
    pub detail: String,
    pub state: Option<WorkItemState>,
}

/// The texts of a work item.
pub open spec fn item_view(i: RailWorkItem) -> (Seq<char>, Seq<char>, Option<WorkItemState>) {
    (i.title@, i.detail@, i.state)
}

/// The item a workspace's detail line gives: `WORKTREE`, running, where the line has something
/// besides white space other than `IDLE`.
pub open spec fn detail_items(detail: Option<Seq<char>>) -> Seq<(Seq<char>, Seq<char>, Option<WorkItemState>)> {
    match detail {
        Some(d) if trimmed(d).len() > 0 && trimmed(d) != "IDLE"@ => seq![
            ("WORKTREE"@, d, Some(WorkItemState::Running)),
        ],
        _ => Seq::empty(),
    }
}

/// The item of an unread notification: its title and body (nothing where it has none).
pub open spec fn note_item(n: NotificationRecord) -> (Seq<char>, Seq<char>, Option<WorkItemState>) {
    (
        n.title@,
        match n.body {
            Some(b) => b@,
            None => Seq::empty(),
        },
        Some(WorkItemState::Unread),
    )
}

/// Whether a task pane belongs to workspace `w`.
pub open spec fn pane_in(w: Seq<char>) -> spec_fn(TaskPaneRecord) -> bool {
    |t: TaskPaneRecord| opt_seq(t.workspace) == Some(w)
}

/// The item of a task pane: `PANE <id>` and how it stands (failed, done or running), its
/// working directory in short form (see `shortened_work_item_path`), and its mark (none for a
/// pane that ended well).
pub open spec fn pane_item(t: TaskPaneRecord, home: Option<Seq<char>>) -> (Seq<char>, Seq<char>, Option<WorkItemState>) {
    (
        "PANE "@ + decimal(t.pane_id as nat) + if t.is_failed {
            " FAILED"@
        } else if t.is_dead {
            " DONE"@
        } else {
            " RUNNING"@
        },
        match t.current_working_dir {
            Some(d) => shortened_work_item_path(d@, home),
            None => Seq::empty(),
        },
        if t.is_failed {
            Some(WorkItemState::Failed)
        } else if t.is_dead {
            None
        } else {
            Some(WorkItemState::Running)
        },
    )
}

/// The work items under workspace `s` in the rail: the one its detail line gives, then those of
/// its first four unread notifications, then those of its first four task panes, with `home`
/// the home directory the paths are shortened against.
pub open spec fn work_items_of(
    s: WorkspaceSummary,
    ns: Seq<NotificationRecord>,
    tps: Seq<TaskPaneRecord>,
    home: Option<Seq<char>>,
) -> Seq<(Seq<char>, Seq<char>, Option<WorkItemState>)> {
    detail_items(opt_seq(s.detail)) + first_n(ns.filter(unread_in(s.name@)), 4).map_values(
        |n: NotificationRecord| note_item(n),
    ) + first_n(tps.filter(pane_in(s.name@)), 4).map_values(|t: TaskPaneRecord| pane_item(t, home))
}

fn push_item(items: &mut Vec<RailWorkItem>, title: String, detail: String, state: Option<WorkItemState>)
    ensures
        final(items)@.map_values(|i: RailWorkItem| item_view(i)) == old(items)@.map_values(
            |i: RailWorkItem| item_view(i),
        ).push((title@, detail@, state)),
{
    let ghost before = items@.map_values(|i: RailWorkItem| item_view(i));
    items.push(RailWorkItem { title, detail, state });
    assert(items@.map_values(|i: RailWorkItem| item_view(i)) =~= before.push((title@, detail@, state)));
}

/// The item of a task pane (see `pane_item`).
fn pane_work_item(t: &TaskPaneRecord, home: Option<&str>) -> (r: (String, String, Option<WorkItemState>))
    ensures
        (r.0@, r.1@, r.2) == pane_item(
            *t,
            match home {
                Some(h) => Some(h@),
                None => None,
            },
        ),
{
    let mut title = chars_of("PANE ");
    append_chars(&mut title, decimal_chars(t.pane_id).as_slice());
    let (tail, state) = if t.is_failed {
        (" FAILED", Some(WorkItemState::Failed))
    } else if t.is_dead {
        (" DONE", None)
    } else {
        (" RUNNING", Some(WorkItemState::Running))
    };
    append_chars(&mut title, chars_of(tail).as_slice());
    let detail = match &t.current_working_dir {
        Some(d) => shorten_work_item_path(d.as_str(), home),
        None => String::new(),
    };
    (string_of(title.as_slice()), detail, state)
}

/// The work items under workspace `summary` in the rail (see `work_items_of`), over the
/// snapshot's notifications and task panes.
pub fn workspace_items(snapshot: &RuntimeSnapshot, summary: &WorkspaceSummary, home: Option<&str>) -> (r: Vec<RailWorkItem>)
    ensures
        r@.map_values(|i: RailWorkItem| item_view(i)) == work_items_of(
            *summary,
            snapshot.notifications@,
            snapshot.task_panes@,
            match home {
                Some(h) => Some(h@),
                None => None,
            },
        ),
{
    let ghost hv = match home {
        Some(h) => Some(h@),
        None => None,
    };
    let ghost view = |i: RailWorkItem| item_view(i);
    let mut items: Vec<RailWorkItem> = Vec::new();
    match &summary.detail {
        Some(d) => {
            let t = trim_chars(chars_of(d.as_str()).as_slice());
            let idle = chars_of("IDLE");
            if t.len() > 0 && !crate::text::chars_eq(t.as_slice(), idle.as_slice()) {
                push_item(&mut items, owned("WORKTREE"), d.clone(), Some(WorkItemState::Running));
            }
        },
        None => {},
    }
    assert(items@.map_values(view) =~= detail_items(opt_seq(summary.detail)));
    let ghost d0 = items@.map_values(view);
    let ns = &snapshot.notifications;
    let w = summary.name.as_str();
    let ghost f = unread_in(w@);
    let ghost g = |n: NotificationRecord| note_item(n);
    let mut i: usize = 0;
    let mut taken: usize = 0;
    while i < ns.len() && taken < 4
        invariant
            i <= ns@.len(),
            f == unread_in(w@),
            g == (|n: NotificationRecord| note_item(n)),
            view == (|i: RailWorkItem| item_view(i)),
            taken == ns@.subrange(0, i as int).filter(f).len(),
            taken <= 4,
            items@.map_values(view) == d0 + ns@.subrange(0, i as int).filter(f).map_values(g),
        decreases ns@.len() - i,
    {
        let ghost pre = ns@.subrange(0, i as int);
        assert(ns@.subrange(0, i + 1) =~= pre.push(ns@[i as int]));
        proof {
            crate::seq_facts::lemma_filter_push(pre, f, ns@[i as int]);
        }
        if ns[i].unread && str_eq(ns[i].workspace.as_str(), w) {
            let ghost before = items@.map_values(view);
            let body = match &ns[i].body {
                Some(b) => b.clone(),
                None => String::new(),
            };
            push_item(&mut items, ns[i].title.clone(), body, Some(WorkItemState::Unread));
            taken += 1;
            assert(items@.map_values(view) == before.push(g(ns@[i as int])));
            assert(pre.filter(f).push(ns@[i as int]).map_values(g) =~= pre.filter(f).map_values(g).push(
                g(ns@[i as int]),
            ));
            assert(items@.map_values(view) =~= d0 + ns@.subrange(0, i + 1).filter(f).map_values(g));
        }
        i += 1;
    }
    proof {
        lemma_first_kept(ns@, f, i as int, 4);
    }
    let ghost d1 = items@.map_values(view);
    let tps = &snapshot.task_panes;
    let ghost p = pane_in(w@);
    let ghost h = |t: TaskPaneRecord| pane_item(t, hv);
    let mut j: usize = 0;
    let mut shown: usize = 0;
    while j < tps.len() && shown < 4
        invariant
            j <= tps@.len(),
            p == pane_in(w@),
            h == (|t: TaskPaneRecord| pane_item(t, hv)),
            hv == match home {
                Some(x) => Some(x@),
                None => None::<Seq<char>>,
            },
            view == (|i: RailWorkItem| item_view(i)),
            shown == tps@.subrange(0, j as int).filter(p).len(),
            shown <= 4,
            items@.map_values(view) == d1 + tps@.subrange(0, j as int).filter(p).map_values(h),
        decreases tps@.len() - j,
    {
        let ghost pre = tps@.subrange(0, j as int);
        assert(tps@.subrange(0, j + 1) =~= pre.push(tps@[j as int]));
        proof {
            crate::seq_facts::lemma_filter_push(pre, p, tps@[j as int]);
        }
        let mine = match &tps[j].workspace {
            Some(x) => str_eq(x.as_str(), w),
            None => false,
        };
        if mine {
            let ghost before = items@.map_values(view);
            let (title, detail, state) = pane_work_item(&tps[j], home);
            push_item(&mut items, title, detail, state);
            shown += 1;
            assert(items@.map_values(view) == before.push(h(tps@[j as int])));
            assert(pre.filter(p).push(tps@[j as int]).map_values(h) =~= pre.filter(p).map_values(h).push(
                h(tps@[j as int]),
            ));
            assert(items@.map_values(view) =~= d1 + tps@.subrange(0, j + 1).filter(p).map_values(h));
        }
        j += 1;
    }
    proof {
        lemma_first_kept(tps@, p, j as int, 4);
    }
    items
}

} // verus!
