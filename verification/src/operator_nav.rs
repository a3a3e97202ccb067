//! The operator navigation rail of the GUI: which task-center rows it counts, what each of its
//! items counts, the status line it shows for a workspace, and which unread bells a focused
//! window clears; and how the renderer steps its images down when texture space runs out.

use crate::task_center::{TaskCenterEntry, TaskCenterEntryView, TaskCenterKind, entry_views};
use crate::text::{append_chars, ascii_upper, chars_of, decimal, decimal_chars, str_eq, string_of, uppercase_chars};
use crate::PaneId;
use vstd::prelude::*;

verus! {

/// An item of the operator navigation rail.
#[derive(Clone, Copy, Debug, PartialEq, Eq, Structural)]
pub enum OperatorNavItem {
    Home,
    Inbox,
    Running,
    Failed,
    Metadata,
    Tasks,
}

/// The rail items, top to bottom.
pub open spec fn nav_order() -> Seq<OperatorNavItem> {
    seq![
        OperatorNavItem::Home,
        OperatorNavItem::Inbox,
        OperatorNavItem::Running,
        OperatorNavItem::Failed,
        OperatorNavItem::Metadata,
        OperatorNavItem::Tasks,
    ]
}

/// A row counts toward a rail item: every row toward Home; unread, running, failed rows,
/// rows with metadata and pane rows toward the others.
pub open spec fn counts_toward(item: OperatorNavItem, e: TaskCenterEntryView) -> bool {
    match item {
        OperatorNavItem::Home => true,
        OperatorNavItem::Inbox => e.unread_count > 0,
        OperatorNavItem::Running => e.is_running,
        OperatorNavItem::Failed => e.is_failed,
        OperatorNavItem::Metadata => e.workspace_status is Some || e.workspace_progress is Some,
        OperatorNavItem::Tasks => e.kind == TaskCenterKind::Pane,
    }
}

impl OperatorNavItem {
    /// The rail items, top to bottom.
    pub fn ordered() -> (r: [OperatorNavItem; 6])
        ensures
            r@ == nav_order(),
    {
        let r = [
            OperatorNavItem::Home,
            OperatorNavItem::Inbox,
            OperatorNavItem::Running,
            OperatorNavItem::Failed,
            OperatorNavItem::Metadata,
            OperatorNavItem::Tasks,
        ];
        assert(r@ =~= nav_order());
        r
    }
}

/// The rows of workspace `workspace` (all rows where no workspace is current), in order.
pub fn operator_nav_entries(entries: Vec<TaskCenterEntry>, workspace: Option<&str>) -> (r: Vec<TaskCenterEntry>)
    ensures
        match workspace {
            Some(w) => entry_views(r@) == entry_views(entries@).filter(|e: TaskCenterEntryView| e.workspace == w@),
            None => r@ == entries@,
        },
{
    match workspace {
        None => entries,
        Some(w) => {
            let ghost f = |e: TaskCenterEntryView| e.workspace == w@;
            let ghost all = entry_views(entries@);
            let mut r: Vec<TaskCenterEntry> = Vec::new();
            let mut i: usize = 0;
            while i < entries.len()
                invariant
                    i <= entries@.len(),
                    all == entry_views(entries@),
                    f == (|e: TaskCenterEntryView| e.workspace == w@),
                    entry_views(r@) == all.subrange(0, i as int).filter(f),
                decreases entries@.len() - i,
            {
                assert(all.subrange(0, i + 1) =~= all.subrange(0, i as int).push(entries@[i as int]@));
                proof {
                    crate::seq_facts::lemma_filter_push(all.subrange(0, i as int), f, entries@[i as int]@);
                }
                if str_eq(entries[i].workspace.as_str(), w) {
                    let ghost prev = entry_views(r@);
                    let c = entries[i].clone();
                    r.push(c);
                    assert(entry_views(r@) =~= prev.push(entries@[i as int]@));
                }
                i += 1;
            }
            assert(all.subrange(0, entries@.len() as int) =~= all);
            r
        },
    }
}

/// How many rows count toward a rail item.
fn count_toward(entries: &[TaskCenterEntry], item: OperatorNavItem) -> (r: usize)
    ensures
        r == entry_views(entries@).filter(|e: TaskCenterEntryView| counts_toward(item, e)).len(),
{
    let ghost f = |e: TaskCenterEntryView| counts_toward(item, e);
    let ghost all = entry_views(entries@);
    let mut n: usize = 0;
    let mut i: usize = 0;
    while i < entries.len()
        invariant
            i <= entries@.len(),
            all == entry_views(entries@),
            f == (|e: TaskCenterEntryView| counts_toward(item, e)),
            n == all.subrange(0, i as int).filter(f).len(),
            n <= i,
        decreases entries@.len() - i,
    {
        assert(all.subrange(0, i + 1) =~= all.subrange(0, i as int).push(entries@[i as int]@));
        proof {
            crate::seq_facts::lemma_filter_push(all.subrange(0, i as int), f, entries@[i as int]@);
        }
        let e = &entries[i];
        let counts = match item {
            OperatorNavItem::Home => true,
            OperatorNavItem::Inbox => e.unread_count > 0,
            OperatorNavItem::Running => e.is_running,
            OperatorNavItem::Failed => e.is_failed,
            OperatorNavItem::Metadata => e.workspace_status.is_some() || e.workspace_progress.is_some(),
            OperatorNavItem::Tasks => e.kind == TaskCenterKind::Pane,
        };
        if counts {
            n += 1;
        }
        i += 1;
    }
    assert(all.subrange(0, entries@.len() as int) =~= all);
    n
}

/// Each rail item, top to bottom, with how many of the rows count toward it.
pub fn operator_nav_counts(entries: &[TaskCenterEntry]) -> (r: Vec<(OperatorNavItem, usize)>)
    ensures
        r@.len() == 6,
        forall|k: int| 0 <= k < 6 ==> (#[trigger] r@[k]).0 == nav_order()[k] && r@[k].1 == entry_views(
            entries@,
        ).filter(|e: TaskCenterEntryView| counts_toward(nav_order()[k], e)).len(),
{
    let items = OperatorNavItem::ordered();
    let mut r: Vec<(OperatorNavItem, usize)> = Vec::new();
    let mut k: usize = 0;
    while k < 6
        invariant
            k <= 6,
            items@ == nav_order(),
            r@.len() == k,
            forall|j: int| 0 <= j < k ==> (#[trigger] r@[j]).0 == nav_order()[j] && r@[j].1 == entry_views(
                entries@,
            ).filter(|e: TaskCenterEntryView| counts_toward(nav_order()[j], e)).len(),
        decreases 6 - k,
    {
        let item = items[k];
        r.push((item, count_toward(entries, item)));
        k += 1;
    }
    r
}

/// The status line of a workspace: its status in upper case and its progress in percent,
/// separated by ` | `, whichever it has.
pub open spec fn nav_status_text(status: Option<Seq<char>>, progress: Option<u8>) -> Option<Seq<char>> {
    match (status, progress) {
        (Some(s), Some(p)) => Some(ascii_upper(s) + " | "@ + decimal(p as nat) + "%"@),
        (Some(s), None) => Some(ascii_upper(s)),
        (None, Some(p)) => Some(decimal(p as nat) + "%"@),
        (None, None) => None,
    }
}

/// The text of an optional string.
pub open spec fn text_of(o: Option<String>) -> Option<Seq<char>> {
    match o {
        Some(s) => Some(s@),
        None => None,
    }
}

/// The status line of a workspace with the given status and progress (see `nav_status_text`).
pub fn operator_nav_workspace_status_text(status: Option<String>, progress: Option<u8>) -> (r: Option<String>)
    ensures
        text_of(r) == nav_status_text(text_of(status), progress),
{
    let upper = match &status {
        Some(s) => {
            let c = chars_of(s.as_str());
            Some(uppercase_chars(c.as_slice()))
        },
        None => None,
    };
    match (upper, progress) {
        (Some(s), Some(p)) => {
            let mut v = s;
            let sep = chars_of(" | ");
            append_chars(&mut v, sep.as_slice());
            let d = decimal_chars(p as u64);
            append_chars(&mut v, d.as_slice());
            let pct = chars_of("%");
            append_chars(&mut v, pct.as_slice());
            Some(string_of(v.as_slice()))
        },
        (Some(s), None) => Some(string_of(s.as_slice())),
        (None, Some(p)) => {
            let mut v = decimal_chars(p as u64);
            let pct = chars_of("%");
            append_chars(&mut v, pct.as_slice());
            Some(string_of(v.as_slice()))
        },
        (None, None) => None,
    }
}

/// Whether `p` is among `panes`.
fn listed(panes: &[PaneId], p: PaneId) -> (r: bool)
    ensures
        r == panes@.contains(p),
{
    crate::notification_store::pane_listed(panes, p)
}

/// The bells a focused window clears: of the panes of its active tab, those with an unread
/// bell. Each `(pane, unread)` pair of `bells` keeps its flag, unless the window is focused,
/// it has an active tab and the pane is one of that tab's; the result is how many flags were
/// cleared.
pub fn clear_active_tab_bell_state(
    focused: bool,
    bells: &mut Vec<(PaneId, bool)>,
    active_tab_panes: Option<&[PaneId]>,
) -> (r: usize)
    ensures
        final(bells)@.len() == old(bells)@.len(),
        forall|i: int| 0 <= i < old(bells)@.len() ==> (#[trigger] final(bells)@[i]).0 == old(bells)@[i].0,
        forall|i: int| 0 <= i < old(bells)@.len() ==> (#[trigger] final(bells)@[i]).1 == (old(bells)@[i].1 && !(
        focused && (active_tab_panes matches Some(ps) && ps@.contains(old(bells)@[i].0)))),
        r == old(bells)@.filter(|b: (PaneId, bool)| b.1 && focused && (active_tab_panes matches Some(ps) && ps@.contains(b.0))).len(),
{
    let ghost before = bells@;
    let ghost f = |b: (PaneId, bool)| b.1 && focused && (active_tab_panes matches Some(ps) && ps@.contains(b.0));
    let mut cleared: usize = 0;
    let mut i: usize = 0;
    while i < bells.len()
        invariant
            i <= bells@.len(),
            bells@.len() == before.len(),
            f == (|b: (PaneId, bool)| b.1 && focused && (active_tab_panes matches Some(ps) && ps@.contains(b.0))),
            forall|j: int| 0 <= j < bells@.len() ==> (#[trigger] bells@[j]).0 == before[j].0,
            forall|j: int| i <= j < bells@.len() ==> #[trigger] bells@[j] == before[j],
            forall|j: int| 0 <= j < i ==> (#[trigger] bells@[j]).1 == (before[j].1 && !(focused && (active_tab_panes matches Some(ps) && ps@.contains(before[j].0)))),
            cleared == before.subrange(0, i as int).filter(f).len(),
            cleared <= i,
        decreases bells@.len() - i,
    {
        assert(before.subrange(0, i + 1) =~= before.subrange(0, i as int).push(before[i as int]));
        proof {
            crate::seq_facts::lemma_filter_push(before.subrange(0, i as int), f, before[i as int]);
        }
        let (p, bell) = bells[i];
        let in_active = match active_tab_panes {
            Some(ps) => listed(ps, p),
            None => false,
        };
        if bell && focused && in_active {
            bells.set(i, (p, false));
            cleared += 1;
        }
        i += 1;
    }
    assert(before.subrange(0, before.len() as int) =~= before);
    cleared
}

/// How the renderer shows images: fully, scaled down by a factor, or not at all.
#[derive(Clone, Copy, Debug, PartialEq, Eq, Structural)]
pub enum AllowImage {
    Yes,
    Scale(usize),
    No,
}

/// How the renderer shows images after running out of texture space while showing them as
/// `a`: one step coarser (full, then scaled by 2, 4 and 8, then none), or `None` where no
/// coarser step is left and it gives up.
pub open spec fn coarser_images(a: AllowImage) -> Option<AllowImage> {
    match a {
        AllowImage::Yes => Some(AllowImage::Scale(2)),
        AllowImage::Scale(n) => if n == 2 {
            Some(AllowImage::Scale(4))
        } else if n == 4 {
            Some(AllowImage::Scale(8))
        } else if n == 8 {
            Some(AllowImage::No)
        } else {
            None
        },
        AllowImage::No => None,
    }
}

/// How many coarser steps are left below `a`.
pub open spec fn image_steps_left(a: AllowImage) -> nat {
    match a {
        AllowImage::Yes => 4,
        AllowImage::Scale(n) => if n == 2 {
            3
        } else if n == 4 {
            2
        } else if n == 8 {
            1
        } else {
            0
        },
        AllowImage::No => 0,
    }
}

impl AllowImage {
    /// The setting after the texture space ran out (see `coarser_images`).
    pub fn after_texture_failure(self) -> (r: Option<AllowImage>)
        ensures
            r == coarser_images(self),
    {
        match self {
            AllowImage::Yes => Some(AllowImage::Scale(2)),
            AllowImage::Scale(n) => if n == 2 {
                Some(AllowImage::Scale(4))
            } else if n == 4 {
                Some(AllowImage::Scale(8))
            } else if n == 8 {
                Some(AllowImage::No)
            } else {
                None
            },
            AllowImage::No => None,
        }
    }
}

} // verus!
