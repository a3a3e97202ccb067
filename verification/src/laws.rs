//! Properties of the library that span several of its operations, stated over the models the
//! operations' contracts use.

use crate::notification_store::{
    flipped, navigation_result, navigation_target, pane_has_unread, read_and_named, restamped,
    unread_and_named, unread_at, cleared_by_focus, NotificationRecord, NotificationUnreadMode,
};
use crate::operator_nav::{coarser_images, image_steps_left, AllowImage};
use crate::shell_actions::{progress_after, status_after};
use crate::task_center::{
    first_occurrences, notification_row, notification_rows, opt_text, pane_row, pane_rows, pane_unread_ids, panes_unread,
    progress_in, rows_for_names, status_in, tab_row, tab_rows, tabs_pane_rows, task_pane_row, task_pane_rows,
    windows_of, windows_pane_ids, windows_pane_rows, windows_tab_rows, workspace_rows, workspace_unread_ids,
    RowContext, TaskCenterKind, TaskCenterPaneSnapshot, TaskCenterTabSnapshot, TaskCenterWindowSnapshot,
};
use crate::task_center_overlay::{
    in_section, passes_filters, query_filters, searchable, shown_entries, text_matches, top_for,
    submit_outcome, OverlayEffect, OverlayMode, PromptState,
};
use crate::task_center::TaskCenterEntryView;
use crate::task_panes::{kept_against, same_record, stored_as, TaskPaneRecord};
use crate::workspace_state::{
    capped_append, first_log_of, has_status, WORKSPACE_LOG_CAP, logs_of, not_of_workspace, of_workspace, progress_lookup,
    progress_upserted, status_lookup, status_not_of, status_upserted, statuses_unique,
    progresses_unique, WorkspaceLogRecord, WorkspaceProgressRecord, WorkspaceStatusRecord,
};
use crate::seq_facts::{lemma_filter_all_or_none, lemma_filter_elem, lemma_filter_push};
use crate::shell_controller::{
    augmented, badged, is_local_record, next_focus, not_local_shell, previous_focus, TerminalSessions,
};
use crate::snapshot::RuntimeSnapshot;
use crate::terminal::TerminalSurfaceState;
use crate::time::Timestamp;
use crate::{PaneId, TabId, WindowId};
use crate::cli::{ClearNotifications, ListNotifications};
use crate::notification_store::{count_entries, tab_unread};
use crate::server::{clear_targets, listed_records, records_of};
use crate::task_center_overlay::{query_free_text, TaskCenterSection};
use crate::text::views;
use vstd::prelude::*;

verus! {

/// After a workspace's status is set, looking it up gives the status set.
pub proof fn law_status_read_after_write(
    before: Seq<WorkspaceStatusRecord>,
    after: Seq<WorkspaceStatusRecord>,
    w: Seq<char>,
    status: Seq<char>,
    found: Option<WorkspaceStatusRecord>,
)
    requires
        statuses_unique(after),
        status_upserted(before, after, w, status),
        status_lookup(after, w, found),
    ensures
        found matches Some(rec) && rec.status@ == status,
{
    if has_status(before, w) {
        let k = choose|k: int| 0 <= k < before.len() && #[trigger] before[k].workspace@ == w;
        assert(after[k].workspace@ == w);
    } else {
        assert(after[after.len() - 1].workspace@ == w);
    }
    if let Some(rec) = found {
        let k = choose|k: int| 0 <= k < after.len() && after[k] == rec && #[trigger] after[k].workspace@ == w;
        if has_status(before, w) {
            if k < before.len() {
                if before[k].workspace@ != w {
                    assert(after[k] == before[k]);
                }
            }
        } else {
            if k < before.len() {
                assert(after.subrange(0, before.len() as int)[k] == after[k]);
                assert(before[k].workspace@ == w);
            }
        }
    }
}

/// After a workspace's progress is set, looking it up gives the value set.
pub proof fn law_progress_read_after_write(
    before: Seq<WorkspaceProgressRecord>,
    after: Seq<WorkspaceProgressRecord>,
    w: Seq<char>,
    value: u8,
    found: Option<WorkspaceProgressRecord>,
)
    requires
        progresses_unique(after),
        progress_upserted(before, after, w, value),
        progress_lookup(after, w, found),
    ensures
        found matches Some(rec) && rec.value == value,
{
    if crate::workspace_state::has_progress(before, w) {
        let k = choose|k: int| 0 <= k < before.len() && #[trigger] before[k].workspace@ == w;
        assert(after[k].workspace@ == w);
    } else {
        assert(after[after.len() - 1].workspace@ == w);
    }
    if let Some(rec) = found {
        let k = choose|k: int| 0 <= k < after.len() && after[k] == rec && #[trigger] after[k].workspace@ == w;
        if crate::workspace_state::has_progress(before, w) {
            if k < before.len() {
                if before[k].workspace@ != w {
                    assert(after[k] == before[k]);
                }
            }
        } else {
            if k < before.len() {
                assert(after.subrange(0, before.len() as int)[k] == after[k]);
                assert(before[k].workspace@ == w);
            }
        }
    }
}

/// After a workspace's status is cleared, looking it up finds nothing.
pub proof fn law_cleared_status_is_gone(before: Seq<WorkspaceStatusRecord>, w: Seq<char>, found: Option<WorkspaceStatusRecord>)
    requires
        status_lookup(before.filter(status_not_of(w)), w, found),
    ensures
        found is None,
{
    broadcast use vstd::seq_lib::group_filter_ensures;

    if let Some(rec) = found {
        let s = before.filter(status_not_of(w));
        let k = choose|k: int| 0 <= k < s.len() && s[k] == rec && #[trigger] s[k].workspace@ == w;
        assert(s.contains(s[k]));
        assert(status_not_of(w)(s[k]));
    }
}

/// Clearing one workspace's log leaves every other workspace's log as it was.
pub proof fn law_clear_log_is_scoped(log: Seq<WorkspaceLogRecord>, w: Seq<char>, v: Seq<char>)
    requires
        v != w,
    ensures
        logs_of(log.filter(not_of_workspace(w)), v) == logs_of(log, v),
    decreases log.len(),
{
    reveal(Seq::filter);
    if log.len() > 0 {
        law_clear_log_is_scoped(log.drop_last(), w, v);
        let x = log.last();
        let f = log.drop_last().filter(not_of_workspace(w));
        if not_of_workspace(w)(x) {
            assert(log.filter(not_of_workspace(w)) == f.push(x));
            assert(f.push(x).drop_last() =~= f);
        } else {
            assert(!of_workspace(v)(x));
        }
    }
}

/// Where some record of `w` exists, a first one does.
proof fn lemma_first_log_exists(s: Seq<WorkspaceLogRecord>, w: Seq<char>, k0: int)
    requires
        0 <= k0 < s.len(),
        s[k0].workspace@ == w,
    ensures
        exists|k: int| first_log_of(s, w, k),
    decreases k0,
{
    if exists|j: int| 0 <= j < k0 && s[j].workspace@ == w {
        let j = choose|j: int| 0 <= j < k0 && s[j].workspace@ == w;
        lemma_first_log_exists(s, w, j);
    } else {
        assert(first_log_of(s, w, k0));
    }
}

/// The line just appended is the newest line of the log and of its workspace's log.
pub proof fn law_appended_line_is_newest(log: Seq<WorkspaceLogRecord>, rec: WorkspaceLogRecord)
    ensures
        capped_append(log, rec).last() == rec,
        logs_of(capped_append(log, rec), rec.workspace@).len() > 0,
        logs_of(capped_append(log, rec), rec.workspace@).last() == rec,
{
    let w = rec.workspace@;
    let appended = log.push(rec);
    let result = capped_append(log, rec);
    if logs_of(appended, w).len() > WORKSPACE_LOG_CAP {
        assert(appended[appended.len() - 1].workspace@ == w);
        lemma_first_log_exists(appended, w, appended.len() - 1);
        let k = choose|k: int| first_log_of(appended, w, k);
        assert(k < appended.len() - 1) by {
            if k == appended.len() - 1 {
                assert forall|i: int| 0 <= i < log.len() implies !of_workspace(w)(#[trigger] log[i]) by {
                    assert(appended[i] == log[i]);
                }
                lemma_filter_all_or_none(log, of_workspace(w));
                lemma_filter_push(log, of_workspace(w), rec);
            }
        }
        assert(result == appended.remove(k));
        assert(result =~= log.remove(k).push(rec));
        lemma_filter_push(log.remove(k), of_workspace(w), rec);
    } else {
        lemma_filter_push(log, of_workspace(w), rec);
    }
}

/// Marking notifications read and then unread leaves every notification named unread and every
/// other notification as it was.
pub proof fn law_mark_read_then_unread(
    a: Seq<(NotificationRecord, PaneId)>,
    b: Seq<(NotificationRecord, PaneId)>,
    c: Seq<(NotificationRecord, PaneId)>,
    ids: Seq<Seq<char>>,
)
    requires
        flipped(a, b, unread_and_named(ids), false),
        flipped(b, c, read_and_named(ids), true),
    ensures
        c.len() == a.len(),
        forall|i: int| 0 <= i < c.len() && ids.contains(a[i].0.notification_id@) ==> (#[trigger] c[i]).0.unread,
        forall|i: int| 0 <= i < c.len() && !ids.contains(a[i].0.notification_id@) ==> #[trigger] c[i] == a[i],
{
    assert forall|i: int| 0 <= i < c.len() && ids.contains(a[i].0.notification_id@) implies (#[trigger] c[i]).0.unread by {
        if unread_and_named(ids)(a[i]) {
            assert(restamped(a[i].0, b[i].0, false));
        } else {
            assert(b[i] == a[i]);
        }
        if read_and_named(ids)(b[i]) {
            assert(restamped(b[i].0, c[i].0, true));
        } else {
            assert(c[i] == b[i]);
        }
    }
    assert forall|i: int| 0 <= i < c.len() && !ids.contains(a[i].0.notification_id@) implies #[trigger] c[i] == a[i] by {
        assert(!unread_and_named(ids)(a[i]));
        assert(b[i] == a[i]);
        assert(!read_and_named(ids)(b[i]));
    }
}

/// Focusing a pane reads exactly its clear-on-focus notifications: afterwards none anchored at
/// it is unread, and sticky ones are untouched.
pub proof fn law_focus_reads_only_clear_on_focus(
    a: Seq<(NotificationRecord, PaneId)>,
    b: Seq<(NotificationRecord, PaneId)>,
    pane: PaneId,
)
    requires
        flipped(a, b, cleared_by_focus(pane), false),
    ensures
        forall|i: int| 0 <= i < b.len() && (#[trigger] b[i]).1 == pane && b[i].0.unread_mode == NotificationUnreadMode::ClearOnFocus ==> !b[i].0.unread,
        forall|i: int| 0 <= i < b.len() && (#[trigger] a[i]).0.unread_mode == NotificationUnreadMode::Sticky ==> b[i] == a[i],
{
    assert forall|i: int| 0 <= i < b.len() && (#[trigger] b[i]).1 == pane && b[i].0.unread_mode == NotificationUnreadMode::ClearOnFocus implies !b[i].0.unread by {
        if cleared_by_focus(pane)(a[i]) {
            assert(restamped(a[i].0, b[i].0, false));
        } else {
            assert(b[i] == a[i]);
        }
    }
}

/// Unread navigation only ever lands on a pane of the order that has an unread notification.
pub proof fn law_navigation_lands_on_unread(
    entries: Seq<(NotificationRecord, PaneId)>,
    order: Seq<PaneId>,
    current: Option<PaneId>,
    forward: bool,
    p: PaneId,
)
    requires
        navigation_result(entries, order, current, forward, Some(p)),
    ensures
        order.contains(p),
        pane_has_unread(entries, p),
{
    let k = choose|k: int| #[trigger] navigation_target(entries, order, current, forward, k) && order[k] == p;
    assert(unread_at(entries, order, k));
}

/// Recording a pane already known replaces its record: the panes known stay the same.
pub proof fn law_record_replaces_without_duplicates(
    before: Map<PaneId, TaskPaneRecord>,
    after: Map<PaneId, TaskPaneRecord>,
    p: PaneId,
    r: TaskPaneRecord,
)
    requires
        stored_as(before, after, p, r),
        before.dom().contains(p),
    ensures
        after.dom() == before.dom(),
        same_record(after[p], r),
{
    assert forall|q: PaneId| #[trigger] after.dom().contains(q) == before.dom().contains(q) by {
        if q != p {
            assert(after.remove(p).dom().contains(q) == after.dom().contains(q));
            assert(before.remove(p).dom().contains(q) == before.dom().contains(q));
        }
    }
    assert(after.dom() =~= before.dom());
}

/// Pruning never drops the record of a live pane.
pub proof fn law_prune_keeps_live_panes(
    before: Map<PaneId, TaskPaneRecord>,
    after: Map<PaneId, TaskPaneRecord>,
    live: Seq<PaneId>,
    p: PaneId,
)
    requires
        forall|q: PaneId| #[trigger] after.dom().contains(q) == (before.dom().contains(q) && kept_against(live)(before[q])),
        forall|q: PaneId| #[trigger] after.dom().contains(q) ==> after[q] == before[q],
        before.dom().contains(p),
        before[p].pane_id == p,
        live.contains(p),
    ensures
        after.dom().contains(p),
        after[p] == before[p],
{
    assert(kept_against(live)(before[p]));
    assert(after.dom().contains(p));
}

/// The task center shows one notification row for each unread notification of a workspace, as
/// many as the workspace row counts.
pub proof fn law_notification_rows_match_unread(ns: Seq<NotificationRecord>, a: Seq<(String, PaneId)>, w: Seq<char>)
    ensures
        notification_rows(ns, a, w).len() == workspace_unread_ids(ns, w).len(),
        forall|i: int| 0 <= i < notification_rows(ns, a, w).len() ==> (#[trigger] notification_rows(ns, a, w)[i]).notification_ids
            == seq![workspace_unread_ids(ns, w)[i]],
    decreases ns.len(),
{
    if ns.len() > 0 {
        law_notification_rows_match_unread(ns.drop_last(), a, w);
    }
}

/// Every row the overlay shows is one of its rows, of the rail section, passing the query's
/// filters and, where the query has free text, matching it.
pub proof fn law_shown_rows_pass_the_query(es: Seq<TaskCenterEntryView>, section: crate::task_center_overlay::TaskCenterSection, q: Seq<char>)
    ensures
        forall|i: int| 0 <= i < shown_entries(es, section, q).len() ==> {
            let e = #[trigger] shown_entries(es, section, q)[i];
            &&& es.contains(e)
            &&& in_section(section, e)
            &&& passes_filters(e, query_filters(q))
        },
        shown_entries(es, section, q).len() <= es.len(),
{
    broadcast use vstd::seq_lib::group_filter_ensures;

    let f = |e: TaskCenterEntryView| in_section(section, e) && passes_filters(e, query_filters(q));
    let kept = es.filter(f);
    let free = crate::task_center_overlay::query_free_text(q);
    let g = |e: TaskCenterEntryView| text_matches(free, searchable(e));
    assert forall|i: int| 0 <= i < shown_entries(es, section, q).len() implies {
        let e = #[trigger] shown_entries(es, section, q)[i];
        &&& es.contains(e)
        &&& in_section(section, e)
        &&& passes_filters(e, query_filters(q))
    } by {
        let s = shown_entries(es, section, q);
        let j = if free.len() == 0 {
            i
        } else {
            lemma_filter_elem(kept, g, i);
            choose|m: int| 0 <= m < kept.len() && kept[m] == #[trigger] kept.filter(g)[i]
        };
        assert(kept[j] == s[i]);
        lemma_filter_elem(es, f, j);
        let m2 = choose|m: int| 0 <= m < es.len() && es[m] == #[trigger] es.filter(f)[j];
        assert(es[m2] == s[i]);
    }
}

/// After scrolling to the selection, the selected row is on screen.
pub proof fn law_selection_is_on_screen(active: usize, top: usize, capacity: usize)
    requires
        capacity >= 1,
    ensures
        top_for(active, top, capacity) <= active,
        active < top_for(active, top, capacity) + capacity,
{
}

/// A progress prompt only ever submits a value from 0 to 100.
pub proof fn law_submitted_progress_is_a_percentage(p: PromptState, mode: OverlayMode, eff: OverlayEffect)
    requires
        submit_outcome(p, mode, eff),
    ensures
        eff matches OverlayEffect::SetProgress(_, v) ==> v <= 100,
{
}

/// The status the shell sets goes round Planning, Building, Reviewing and Blocked.
pub proof fn law_status_cycle(s: Seq<char>)
    requires
        s == "Planning"@ || s == "Building"@ || s == "Reviewing"@ || s == "Blocked"@,
    ensures
        status_after(Some(status_after(Some(status_after(Some(status_after(Some(s)))))))) == s,
{
    reveal_strlit("Planning");
    reveal_strlit("Building");
    reveal_strlit("Reviewing");
    reveal_strlit("Blocked");
    assert("Planning"@[0] != "Building"@[0]);
    assert("Planning"@[0] != "Reviewing"@[0]);
    assert("Planning"@[0] != "Blocked"@[0]);
    assert("Building"@[0] != "Reviewing"@[0]);
    assert("Building"@[1] != "Blocked"@[1]);
    assert("Reviewing"@[0] != "Blocked"@[0]);
}

/// The progress the shell sets is always a percentage.
pub proof fn law_progress_is_a_percentage(current: Option<u8>)
    ensures
        progress_after(current) <= 100,
{
}

/// Filtering twice by `p` keeps what filtering once does.
proof fn lemma_filter_twice<A>(ns: Seq<A>, p: spec_fn(A) -> bool)
    ensures
        ns.filter(p).filter(p) == ns.filter(p),
{
    assert forall|i: int| 0 <= i < ns.filter(p).len() implies p(#[trigger] ns.filter(p)[i]) by {
        lemma_filter_elem(ns, p, i);
    }
    lemma_filter_all_or_none(ns.filter(p), p);
}

/// Where snapshot `new` shows the badged shells `s` over `old`, keeping only the notifications
/// that are not the active workspace's shell ones gives what `old` had of them.
proof fn lemma_augmented_keeps_the_rest(
    old: RuntimeSnapshot,
    new: RuntimeSnapshot,
    s: Seq<TerminalSurfaceState>,
    focused: Option<usize>,
    cwd: Option<Seq<char>>,
    now: Timestamp,
)
    requires
        augmented(old, new, s, focused, cwd, now),
        s.len() > 0,
        badged(s).len() > 0,
    ensures
        new.notifications@.filter(not_local_shell(old.active_workspace@)) == old.notifications@.filter(
            not_local_shell(old.active_workspace@),
        ),
{
    let w = old.active_workspace@;
    let p = not_local_shell(w);
    let kept = old.notifications@.filter(p);
    let n = new.notifications@;
    let tail = n.subrange(kept.len() as int, n.len() as int);
    assert(n =~= kept + tail);
    assert forall|k: int| 0 <= k < tail.len() implies !p(#[trigger] tail[k]) by {
        assert(tail[k] == n[kept.len() + k]);
        assert(is_local_record(n[kept.len() + k], w, badged(s)[k], s[badged(s)[k]], now));
    }
    lemma_filter_all_or_none(tail, p);
    lemma_filter_twice(old.notifications@, p);
    Seq::filter_distributes_over_add(kept, tail, p);
    assert(n.filter(p) =~= kept);
}

/// Showing the local shells again replaces the shell notifications they raised the first time
/// instead of adding to them: there are as many notifications as after showing them once, and
/// all the others are as they were.
pub proof fn law_local_shells_replace_their_notifications(
    old: RuntimeSnapshot,
    mid: RuntimeSnapshot,
    new: RuntimeSnapshot,
    s: Seq<TerminalSurfaceState>,
    focused: Option<usize>,
    cwd: Option<Seq<char>>,
    first: Timestamp,
    second: Timestamp,
)
    requires
        augmented(old, mid, s, focused, cwd, first),
        augmented(mid, new, s, focused, cwd, second),
    ensures
        new.notifications@.len() == mid.notifications@.len(),
        new.notifications@.filter(not_local_shell(old.active_workspace@)) == old.notifications@.filter(
            not_local_shell(old.active_workspace@),
        ),
        mid.notifications@.filter(not_local_shell(old.active_workspace@)) == old.notifications@.filter(
            not_local_shell(old.active_workspace@),
        ),
{
    if s.len() > 0 && badged(s).len() > 0 {
        lemma_augmented_keeps_the_rest(old, mid, s, focused, cwd, first);
        lemma_augmented_keeps_the_rest(mid, new, s, focused, cwd, second);
    }
}

/// Running out of texture space makes the renderer's image setting strictly coarser, and with no
/// coarser step left it gives up: from any setting it gives up after at most four retries.
pub proof fn law_texture_retries_run_out(a: AllowImage)
    ensures
        coarser_images(a) matches Some(b) ==> image_steps_left(b) < image_steps_left(a),
        image_steps_left(a) <= 4,
        image_steps_left(a) == 0 ==> coarser_images(a) is None,
{
}

/// With at least two terminal panes, stepping focus to the next pane moves it, and stepping
/// back from there returns it to the pane it was on.
pub proof fn law_focus_step_forward_then_back(s: TerminalSessions, i: usize)
    requires
        s.wf(),
        s.count >= 2,
        s.focused == Some(i),
    ensures
        next_focus(s) matches Some(j) && j != i && previous_focus(
            TerminalSessions { focused: Some(j), preferred_focus: Some(j), ..s },
        ) == Some(i),
{
    let n = s.count as int;
    if i + 1 < n {
        vstd::arithmetic::div_mod::lemma_small_mod((i + 1) as nat, n as nat);
    } else {
        assert(i + 1 == n);
        vstd::arithmetic::div_mod::lemma_mod_self_0(n);
    }
}


/// Whether a row belongs to workspace `w`, counts exactly the notification ids it holds, holds
/// only ids of unread notifications of `ns` (each once, where the ids of `ns` are distinct),
/// and, unless it is a notification's row, carries the workspace's status `st` and progress
/// `pr`.
pub open spec fn row_consistent(
    e: TaskCenterEntryView,
    w: Seq<char>,
    st: Option<Seq<char>>,
    pr: Option<u8>,
    ns: Seq<NotificationRecord>,
) -> bool {
    &&& e.workspace == w
    &&& e.unread_count == e.notification_ids.len()
    &&& ids_of_unread(e.notification_ids, ns)
    &&& ids_distinct(ns) ==> no_repeats(e.notification_ids)
    &&& e.kind != TaskCenterKind::Notification ==> e.workspace_status == st && e.workspace_progress == pr
}

/// `id` is the id of an unread notification of `ns`.
pub open spec fn unread_id(ns: Seq<NotificationRecord>, id: Seq<char>) -> bool {
    exists|j: int| 0 <= j < ns.len() && ns[j].unread && #[trigger] ns[j].notification_id@ == id
}

/// Every id of `ids` is the id of an unread notification of `ns`.
pub open spec fn ids_of_unread(ids: Seq<Seq<char>>, ns: Seq<NotificationRecord>) -> bool {
    forall|k: int| 0 <= k < ids.len() ==> unread_id(ns, #[trigger] ids[k])
}

/// No text occurs twice.
pub open spec fn no_repeats(s: Seq<Seq<char>>) -> bool {
    forall|i: int, j: int| 0 <= i < j < s.len() ==> s[i] != s[j]
}

/// The notifications' ids are pairwise distinct.
pub open spec fn ids_distinct(ns: Seq<NotificationRecord>) -> bool {
    forall|i: int, j: int| 0 <= i < j < ns.len() ==> ns[i].notification_id@ != ns[j].notification_id@
}

/// Every row of `rows` is consistent (see `row_consistent`).
pub open spec fn rows_consistent(
    rows: Seq<TaskCenterEntryView>,
    w: Seq<char>,
    st: Option<Seq<char>>,
    pr: Option<u8>,
    ns: Seq<NotificationRecord>,
) -> bool {
    forall|k: int| 0 <= k < rows.len() ==> row_consistent(#[trigger] rows[k], w, st, pr, ns)
}

proof fn lemma_rows_consistent_concat(
    a: Seq<TaskCenterEntryView>,
    b: Seq<TaskCenterEntryView>,
    w: Seq<char>,
    st: Option<Seq<char>>,
    pr: Option<u8>,
    ns: Seq<NotificationRecord>,
)
    requires
        rows_consistent(a, w, st, pr, ns),
        rows_consistent(b, w, st, pr, ns),
    ensures
        rows_consistent(a + b, w, st, pr, ns),
{
    assert forall|k: int| 0 <= k < (a + b).len() implies row_consistent(#[trigger] (a + b)[k], w, st, pr, ns) by {
        if k < a.len() {
            assert((a + b)[k] == a[k]);
        } else {
            assert((a + b)[k] == b[k - a.len()]);
        }
    }
}

proof fn lemma_rows_consistent_push(
    a: Seq<TaskCenterEntryView>,
    x: TaskCenterEntryView,
    w: Seq<char>,
    st: Option<Seq<char>>,
    pr: Option<u8>,
    ns: Seq<NotificationRecord>,
)
    requires
        rows_consistent(a, w, st, pr, ns),
        row_consistent(x, w, st, pr, ns),
    ensures
        rows_consistent(a.push(x), w, st, pr, ns),
{
    assert forall|k: int| 0 <= k < a.push(x).len() implies row_consistent(#[trigger] a.push(x)[k], w, st, pr, ns) by {
        if k < a.len() {
            assert(a.push(x)[k] == a[k]);
        }
    }
}

/// The ids of the unread notifications of a workspace are ids of unread notifications, each
/// once where the notifications' ids are distinct.
proof fn lemma_workspace_ids(ns: Seq<NotificationRecord>, w: Seq<char>)
    ensures
        ids_of_unread(workspace_unread_ids(ns, w), ns),
        ids_distinct(ns) ==> no_repeats(workspace_unread_ids(ns, w)),
    decreases ns.len(),
{
    if ns.len() > 0 {
        let front = ns.drop_last();
        lemma_workspace_ids(front, w);
        let rest = workspace_unread_ids(front, w);
        let ids = workspace_unread_ids(ns, w);
        let last = ns[ns.len() - 1];
        assert forall|k: int| 0 <= k < ids.len() implies unread_id(ns, #[trigger] ids[k]) by {
            if k < rest.len() {
                assert(ids[k] == rest[k]);
                assert(unread_id(front, rest[k]));
                let j = choose|j: int| 0 <= j < front.len() && front[j].unread && #[trigger] front[j].notification_id@ == rest[k];
                assert(ns[j] == front[j]);
            } else {
                assert(ids[k] == last.notification_id@);
                assert(ns[ns.len() - 1].notification_id@ == ids[k]);
            }
        }
        if ids_distinct(ns) {
            assert(ids_distinct(front)) by {
                assert forall|i: int, j: int| 0 <= i < j < front.len() implies front[i].notification_id@
                    != front[j].notification_id@ by {
                    assert(front[i] == ns[i] && front[j] == ns[j]);
                }
            }
            assert forall|i: int, j: int| 0 <= i < j < ids.len() implies ids[i] != ids[j] by {
                if j >= rest.len() {
                    assert(ids[i] == rest[i]);
                    assert(unread_id(front, rest[i]));
                    let m = choose|m: int| 0 <= m < front.len() && front[m].unread && #[trigger] front[m].notification_id@ == rest[i];
                    assert(ns[m] == front[m]);
                    assert(ids[j] == ns[ns.len() - 1].notification_id@);
                } else {
                    assert(ids[i] == rest[i] && ids[j] == rest[j]);
                }
            }
        }
    }
}

/// The ids of the unread notifications of a pane are ids of unread notifications, each once
/// where the notifications' ids are distinct.
proof fn lemma_pane_ids(ns: Seq<NotificationRecord>, a: Seq<(String, PaneId)>, p: PaneId)
    ensures
        ids_of_unread(pane_unread_ids(ns, a, p), ns),
        ids_distinct(ns) ==> no_repeats(pane_unread_ids(ns, a, p)),
    decreases ns.len(),
{
    if ns.len() > 0 {
        let front = ns.drop_last();
        lemma_pane_ids(front, a, p);
        let rest = pane_unread_ids(front, a, p);
        let ids = pane_unread_ids(ns, a, p);
        let last = ns[ns.len() - 1];
        assert forall|k: int| 0 <= k < ids.len() implies unread_id(ns, #[trigger] ids[k]) by {
            if k < rest.len() {
                assert(ids[k] == rest[k]);
                assert(unread_id(front, rest[k]));
                let j = choose|j: int| 0 <= j < front.len() && front[j].unread && #[trigger] front[j].notification_id@ == rest[k];
                assert(ns[j] == front[j]);
            } else {
                assert(ids[k] == last.notification_id@);
                assert(ns[ns.len() - 1].notification_id@ == ids[k]);
            }
        }
        if ids_distinct(ns) {
            assert(ids_distinct(front)) by {
                assert forall|i: int, j: int| 0 <= i < j < front.len() implies front[i].notification_id@
                    != front[j].notification_id@ by {
                    assert(front[i] == ns[i] && front[j] == ns[j]);
                }
            }
            assert forall|i: int, j: int| 0 <= i < j < ids.len() implies ids[i] != ids[j] by {
                if j >= rest.len() {
                    assert(ids[i] == rest[i]);
                    assert(unread_id(front, rest[i]));
                    let m = choose|m: int| 0 <= m < front.len() && front[m].unread && #[trigger] front[m].notification_id@ == rest[i];
                    assert(ns[m] == front[m]);
                    assert(ids[j] == ns[ns.len() - 1].notification_id@);
                } else {
                    assert(ids[i] == rest[i] && ids[j] == rest[j]);
                }
            }
        }
    }
}

/// Ids of unread notifications joined are ids of unread notifications.
proof fn lemma_ids_of_unread_concat(x: Seq<Seq<char>>, y: Seq<Seq<char>>, ns: Seq<NotificationRecord>)
    requires
        ids_of_unread(x, ns),
        ids_of_unread(y, ns),
    ensures
        ids_of_unread(x + y, ns),
{
    assert forall|k: int| 0 <= k < (x + y).len() implies unread_id(ns, #[trigger] (x + y)[k]) by {
        if k < x.len() {
            assert((x + y)[k] == x[k]);
        } else {
            assert((x + y)[k] == y[k - x.len()]);
        }
    }
}

/// The ids the panes of a tab count are ids of unread notifications.
proof fn lemma_panes_unread(ctx: RowContext, panes: Seq<TaskCenterPaneSnapshot>)
    ensures
        ids_of_unread(panes_unread(ctx, panes), ctx.notifications),
    decreases panes.len(),
{
    if panes.len() > 0 {
        lemma_panes_unread(ctx, panes.drop_last());
        lemma_pane_ids(ctx.notifications, ctx.anchors, panes.last().pane_id);
        lemma_ids_of_unread_concat(
            panes_unread(ctx, panes.drop_last()),
            pane_unread_ids(ctx.notifications, ctx.anchors, panes.last().pane_id),
            ctx.notifications,
        );
    }
}

/// The first occurrences of the texts hold each text once.
proof fn lemma_first_occurrences(s: Seq<Seq<char>>)
    ensures
        no_repeats(first_occurrences(s)),
        forall|k: int| 0 <= k < first_occurrences(s).len() ==> s.contains(#[trigger] first_occurrences(s)[k]),
    decreases s.len(),
{
    if s.len() > 0 {
        lemma_first_occurrences(s.drop_last());
        let rest = first_occurrences(s.drop_last());
        let front = s.drop_last();
        assert forall|k: int| 0 <= k < first_occurrences(s).len() implies s.contains(#[trigger] first_occurrences(s)[k]) by {
            if k < rest.len() {
                assert(first_occurrences(s)[k] == rest[k]);
                assert(front.contains(rest[k]));
                let m = choose|m: int| 0 <= m < front.len() && front[m] == rest[k];
                assert(s[m] == front[m]);
            } else {
                assert(first_occurrences(s)[k] == s[s.len() - 1]);
            }
        }
        if !rest.contains(s.last()) {
            let r = rest.push(s.last());
            assert forall|i: int, j: int| 0 <= i < j < r.len() implies r[i] != r[j] by {
                if j == rest.len() {
                    assert(r[i] == rest[i]);
                } else {
                    assert(r[i] == rest[i] && r[j] == rest[j]);
                }
            }
        }
    }
}

proof fn lemma_pane_rows(ctx: RowContext, wid: WindowId, tid: TabId, panes: Seq<TaskCenterPaneSnapshot>)
    ensures
        rows_consistent(pane_rows(ctx, wid, tid, panes), ctx.workspace, ctx.status, ctx.progress, ctx.notifications),
    decreases panes.len(),
{
    if panes.len() > 0 {
        lemma_pane_rows(ctx, wid, tid, panes.drop_last());
        lemma_pane_ids(ctx.notifications, ctx.anchors, panes.last().pane_id);
        lemma_rows_consistent_push(
            pane_rows(ctx, wid, tid, panes.drop_last()),
            pane_row(ctx, wid, tid, panes.last()),
            ctx.workspace,
            ctx.status,
            ctx.progress,
            ctx.notifications,
        );
    }
}

proof fn lemma_tab_rows(ctx: RowContext, wid: WindowId, tabs: Seq<TaskCenterTabSnapshot>)
    ensures
        rows_consistent(tab_rows(ctx, wid, tabs), ctx.workspace, ctx.status, ctx.progress, ctx.notifications),
    decreases tabs.len(),
{
    if tabs.len() > 0 {
        lemma_tab_rows(ctx, wid, tabs.drop_last());
        let t = tabs.last();
        let joined = workspace_unread_ids(ctx.notifications, ctx.workspace) + panes_unread(ctx, t.panes@);
        lemma_first_occurrences(joined);
        lemma_workspace_ids(ctx.notifications, ctx.workspace);
        lemma_panes_unread(ctx, t.panes@);
        lemma_ids_of_unread_concat(
            workspace_unread_ids(ctx.notifications, ctx.workspace),
            panes_unread(ctx, t.panes@),
            ctx.notifications,
        );
        assert forall|k: int| 0 <= k < first_occurrences(joined).len() implies unread_id(
            ctx.notifications,
            #[trigger] first_occurrences(joined)[k],
        ) by {
            let x = first_occurrences(joined)[k];
            assert(joined.contains(x));
            let m = choose|m: int| 0 <= m < joined.len() && joined[m] == x;
            assert(unread_id(ctx.notifications, joined[m]));
        }
        lemma_rows_consistent_push(
            tab_rows(ctx, wid, tabs.drop_last()),
            tab_row(ctx, wid, t),
            ctx.workspace,
            ctx.status,
            ctx.progress,
            ctx.notifications,
        );
    }
}

proof fn lemma_tabs_pane_rows(ctx: RowContext, wid: WindowId, tabs: Seq<TaskCenterTabSnapshot>)
    ensures
        rows_consistent(tabs_pane_rows(ctx, wid, tabs), ctx.workspace, ctx.status, ctx.progress, ctx.notifications),
    decreases tabs.len(),
{
    if tabs.len() > 0 {
        lemma_tabs_pane_rows(ctx, wid, tabs.drop_last());
        lemma_pane_rows(ctx, wid, tabs.last().tab_id, tabs.last().panes@);
        lemma_rows_consistent_concat(
            tabs_pane_rows(ctx, wid, tabs.drop_last()),
            pane_rows(ctx, wid, tabs.last().tab_id, tabs.last().panes@),
            ctx.workspace,
            ctx.status,
            ctx.progress,
            ctx.notifications,
        );
    }
}

proof fn lemma_windows_rows(ctx: RowContext, wins: Seq<TaskCenterWindowSnapshot>)
    ensures
        rows_consistent(windows_tab_rows(ctx, wins), ctx.workspace, ctx.status, ctx.progress, ctx.notifications),
        rows_consistent(windows_pane_rows(ctx, wins), ctx.workspace, ctx.status, ctx.progress, ctx.notifications),
    decreases wins.len(),
{
    if wins.len() > 0 {
        let last = wins.last();
        lemma_windows_rows(ctx, wins.drop_last());
        lemma_tab_rows(ctx, last.window_id, last.tabs@);
        lemma_tabs_pane_rows(ctx, last.window_id, last.tabs@);
        lemma_rows_consistent_concat(
            windows_tab_rows(ctx, wins.drop_last()),
            tab_rows(ctx, last.window_id, last.tabs@),
            ctx.workspace,
            ctx.status,
            ctx.progress,
            ctx.notifications,
        );
        lemma_rows_consistent_concat(
            windows_pane_rows(ctx, wins.drop_last()),
            tabs_pane_rows(ctx, last.window_id, last.tabs@),
            ctx.workspace,
            ctx.status,
            ctx.progress,
            ctx.notifications,
        );
    }
}

proof fn lemma_task_pane_rows(ctx: RowContext, tps: Seq<TaskPaneRecord>, seen: Seq<PaneId>)
    ensures
        rows_consistent(task_pane_rows(ctx, tps, seen), ctx.workspace, ctx.status, ctx.progress, ctx.notifications),
    decreases tps.len(),
{
    if tps.len() > 0 {
        lemma_task_pane_rows(ctx, tps.drop_last(), seen);
        let tp = tps.last();
        if opt_text(tp.workspace) == Some(ctx.workspace) && !seen.contains(tp.pane_id) {
            lemma_pane_ids(ctx.notifications, ctx.anchors, tp.pane_id);
            lemma_rows_consistent_push(
                task_pane_rows(ctx, tps.drop_last(), seen),
                task_pane_row(ctx, tp),
                ctx.workspace,
                ctx.status,
                ctx.progress,
                ctx.notifications,
            );
        }
    }
}

proof fn lemma_notification_rows(
    ns: Seq<NotificationRecord>,
    a: Seq<(String, PaneId)>,
    w: Seq<char>,
    st: Option<Seq<char>>,
    pr: Option<u8>,
    all: Seq<NotificationRecord>,
)
    requires
        ns.len() <= all.len(),
        forall|j: int| 0 <= j < ns.len() ==> ns[j] == all[j],
    ensures
        rows_consistent(notification_rows(ns, a, w), w, st, pr, all),
    decreases ns.len(),
{
    if ns.len() > 0 {
        let front = ns.drop_last();
        lemma_notification_rows(front, a, w, st, pr, all);
        let n = ns.last();
        if n.unread && n.workspace@ == w {
            let row = notification_row(n, a);
            assert(all[ns.len() - 1] == n);
            assert(row.notification_ids[0] == all[ns.len() - 1].notification_id@);
            assert(unread_id(all, row.notification_ids[0]));
            assert(ids_of_unread(row.notification_ids, all));
            lemma_rows_consistent_push(notification_rows(front, a, w), row, w, st, pr, all);
        }
    }
}

/// Every row the task center makes for workspace `w` belongs to `w`, counts exactly the
/// notification ids it holds, holds only ids of unread notifications (a read notification gives
/// no id; each id once, where the notifications' ids are distinct), and, unless it is a
/// notification's row, carries `w`'s status and progress.
pub proof fn law_workspace_rows_are_consistent(
    w: Seq<char>,
    statuses: Seq<WorkspaceStatusRecord>,
    progresses: Seq<WorkspaceProgressRecord>,
    task_panes: Seq<TaskPaneRecord>,
    notifications: Seq<NotificationRecord>,
    anchors: Seq<(String, PaneId)>,
    windows: Seq<TaskCenterWindowSnapshot>,
)
    ensures
        rows_consistent(
            workspace_rows(w, statuses, progresses, task_panes, notifications, anchors, windows),
            w,
            status_in(statuses, w),
            progress_in(progresses, w),
            notifications,
        ),
{
    let ctx = RowContext {
        workspace: w,
        status: status_in(statuses, w),
        progress: progress_in(progresses, w),
        task_panes,
        notifications,
        anchors,
    };
    let wins = windows_of(windows, w);
    let tabs = windows_tab_rows(ctx, wins);
    let panes = windows_pane_rows(ctx, wins) + task_pane_rows(ctx, task_panes, windows_pane_ids(wins));
    let nrows = notification_rows(notifications, anchors, w);
    lemma_windows_rows(ctx, wins);
    lemma_task_pane_rows(ctx, task_panes, windows_pane_ids(wins));
    lemma_rows_consistent_concat(
        windows_pane_rows(ctx, wins),
        task_pane_rows(ctx, task_panes, windows_pane_ids(wins)),
        w,
        ctx.status,
        ctx.progress,
        ctx.notifications,
    );
    lemma_notification_rows(notifications, anchors, w, ctx.status, ctx.progress, notifications);
    lemma_workspace_ids(notifications, w);
    let rows = workspace_rows(w, statuses, progresses, task_panes, notifications, anchors, windows);
    let head = rows[0];
    assert(rows =~= seq![head] + tabs + panes + nrows);
    assert(rows_consistent(seq![head], w, ctx.status, ctx.progress, ctx.notifications)) by {
        assert(seq![head][0] == head);
    }
    lemma_rows_consistent_concat(seq![head], tabs, w, ctx.status, ctx.progress, ctx.notifications);
    lemma_rows_consistent_concat(seq![head] + tabs, panes, w, ctx.status, ctx.progress, ctx.notifications);
    lemma_rows_consistent_concat(seq![head] + tabs + panes, nrows, w, ctx.status, ctx.progress, ctx.notifications);
}

/// Every row of the task center belongs to one of the workspaces it is built for, and is
/// consistent with that workspace (see `law_workspace_rows_are_consistent`): the rows of
/// `rows_for_names` are those of each name in turn.
pub proof fn law_task_center_rows_name_their_workspace(
    names: Seq<Seq<char>>,
    statuses: Seq<WorkspaceStatusRecord>,
    progresses: Seq<WorkspaceProgressRecord>,
    task_panes: Seq<TaskPaneRecord>,
    notifications: Seq<NotificationRecord>,
    anchors: Seq<(String, PaneId)>,
    windows: Seq<TaskCenterWindowSnapshot>,
)
    ensures
        forall|k: int|
            0 <= k < rows_for_names(names, statuses, progresses, task_panes, notifications, anchors, windows).len()
                ==> {
                let e = #[trigger] rows_for_names(names, statuses, progresses, task_panes, notifications, anchors, windows)[k];
                &&& names.contains(e.workspace)
                &&& row_consistent(
                    e,
                    e.workspace,
                    status_in(statuses, e.workspace),
                    progress_in(progresses, e.workspace),
                    notifications,
                )
            },
    decreases names.len(),
{
    if names.len() > 0 {
        let front = names.drop_last();
        let w = names.last();
        law_task_center_rows_name_their_workspace(front, statuses, progresses, task_panes, notifications, anchors, windows);
        law_workspace_rows_are_consistent(w, statuses, progresses, task_panes, notifications, anchors, windows);
        let a = rows_for_names(front, statuses, progresses, task_panes, notifications, anchors, windows);
        let b = workspace_rows(w, statuses, progresses, task_panes, notifications, anchors, windows);
        let all = rows_for_names(names, statuses, progresses, task_panes, notifications, anchors, windows);
        assert(all == a + b);
        assert forall|k: int| 0 <= k < all.len() implies {
            let e = #[trigger] all[k];
            &&& names.contains(e.workspace)
            &&& row_consistent(
                e,
                e.workspace,
                status_in(statuses, e.workspace),
                progress_in(progresses, e.workspace),
                notifications,
            )
        } by {
            if k < a.len() {
                assert(all[k] == a[k]);
                let e = a[k];
                let m = choose|m: int| 0 <= m < front.len() && front[m] == e.workspace;
                assert(names[m] == front[m]);
            } else {
                assert(all[k] == b[k - a.len()]);
                assert(row_consistent(b[k - a.len()], w, status_in(statuses, w), progress_in(progresses, w), notifications));
                assert(names[names.len() - 1] == w);
            }
        }
    }
}

/// A listing request lists only notifications of the store that meet every filter it names:
/// of its workspace, window, tab and pane where it names one, and unread where it asks for
/// unread ones only; and it lists every notification of the store that meets them all.
pub proof fn law_listing_honours_every_filter(entries: Seq<(NotificationRecord, PaneId)>, req: ListNotifications)
    ensures
        forall|k: int| 0 <= k < listed_records(entries, req).len() ==> {
            let n = #[trigger] listed_records(entries, req)[k];
            &&& records_of(entries).contains(n)
            &&& (req.workspace is None || n.workspace@ == req.workspace->0@)
            &&& (req.window_id is None || (n.window_id is Some && n.window_id->0 == req.window_id->0))
            &&& (req.tab_id is None || (n.tab_id is Some && n.tab_id->0 == req.tab_id->0))
            &&& (req.pane_id is None || (n.pane_id is Some && n.pane_id->0 == req.pane_id->0))
            &&& (req.unread_only ==> n.unread)
        },
        forall|j: int| 0 <= j < entries.len() ==> {
            let n = #[trigger] entries[j].0;
            (req.workspace is None || n.workspace@ == req.workspace->0@)
                && (req.window_id is None || (n.window_id is Some && n.window_id->0 == req.window_id->0))
                && (req.tab_id is None || (n.tab_id is Some && n.tab_id->0 == req.tab_id->0))
                && (req.pane_id is None || (n.pane_id is Some && n.pane_id->0 == req.pane_id->0))
                && (req.unread_only ==> n.unread)
                ==> listed_records(entries, req).contains(n)
        },
{
    broadcast use vstd::seq_lib::group_filter_ensures;

    let f = |n: NotificationRecord| crate::session::listed_by(n, req);
    let rs = records_of(entries);
    assert forall|k: int| 0 <= k < listed_records(entries, req).len() implies {
        let n = #[trigger] listed_records(entries, req)[k];
        &&& records_of(entries).contains(n)
        &&& (req.workspace is None || n.workspace@ == req.workspace->0@)
        &&& (req.window_id is None || (n.window_id is Some && n.window_id->0 == req.window_id->0))
        &&& (req.tab_id is None || (n.tab_id is Some && n.tab_id->0 == req.tab_id->0))
        &&& (req.pane_id is None || (n.pane_id is Some && n.pane_id->0 == req.pane_id->0))
        &&& (req.unread_only ==> n.unread)
    } by {
        lemma_filter_elem(rs, f, k);
        let m = choose|m: int| 0 <= m < rs.len() && rs[m] == #[trigger] rs.filter(f)[k];
        assert(rs[m] == listed_records(entries, req)[k]);
    }
    assert forall|j: int| 0 <= j < entries.len() implies {
        let n = #[trigger] entries[j].0;
        (req.workspace is None || n.workspace@ == req.workspace->0@)
            && (req.window_id is None || (n.window_id is Some && n.window_id->0 == req.window_id->0))
            && (req.tab_id is None || (n.tab_id is Some && n.tab_id->0 == req.tab_id->0))
            && (req.pane_id is None || (n.pane_id is Some && n.pane_id->0 == req.pane_id->0))
            && (req.unread_only ==> n.unread)
            ==> listed_records(entries, req).contains(n)
    } by {
        assert(rs[j] == entries[j].0);
    }
}

/// The record behind the `k`th target of a clearing request.
proof fn lemma_clear_target_source(entries: Seq<(NotificationRecord, PaneId)>, req: ClearNotifications, k: int) -> (j: int)
    requires
        0 <= k < clear_targets(entries, req).len(),
    ensures
        0 <= j < entries.len(),
        entries[j].0.notification_id@ == clear_targets(entries, req)[k],
        crate::session::cleared_by(entries[j].0, req),
{
    broadcast use vstd::seq_lib::group_filter_ensures;

    let f = |n: NotificationRecord| crate::session::cleared_by(n, req);
    let g = |n: NotificationRecord| n.notification_id@;
    let rs = records_of(entries);
    let sel = rs.filter(f);
    assert(clear_targets(entries, req) == sel.map_values(g));
    lemma_filter_elem(rs, f, k);
    let m = choose|m: int| 0 <= m < rs.len() && rs[m] == #[trigger] rs.filter(f)[k];
    assert(rs[m] == entries[m].0);
    assert(clear_targets(entries, req)[k] == sel[k].notification_id@);
    m
}

/// Each notification a clearing request selects meets every filter the request names: the
/// `k`th id it clears is that of a notification of the store that is among the request's ids
/// where it names any, and of its workspace, tab and pane where it names one.
pub proof fn law_clear_target_meets_every_filter(entries: Seq<(NotificationRecord, PaneId)>, req: ClearNotifications, k: int)
    requires
        0 <= k < clear_targets(entries, req).len(),
    ensures
        exists|j: int| #![trigger entries[j]]
            0 <= j < entries.len()
                && entries[j].0.notification_id@ == clear_targets(entries, req)[k]
                && (req.notification_ids@.len() == 0 || views(req.notification_ids@).contains(entries[j].0.notification_id@))
                && (req.workspace is None || entries[j].0.workspace@ == req.workspace->0@)
                && (req.tab_id is None || (entries[j].0.tab_id is Some && entries[j].0.tab_id->0 == req.tab_id->0))
                && (req.pane_id is None || (entries[j].0.pane_id is Some && entries[j].0.pane_id->0 == req.pane_id->0)),
{
    broadcast use vstd::seq_lib::group_filter_ensures;

    let f = |n: NotificationRecord| crate::session::cleared_by(n, req);
    let g = |n: NotificationRecord| n.notification_id@;
    let rs = records_of(entries);
    let sel = rs.filter(f);
    assert(clear_targets(entries, req) == sel.map_values(g));
    lemma_filter_elem(rs, f, k);
    let m = choose|m: int| 0 <= m < rs.len() && rs[m] == #[trigger] rs.filter(f)[k];
    assert(rs[m] == entries[m].0);
    assert(clear_targets(entries, req)[k] == sel[k].notification_id@);
}

/// A clearing request selects every notification of the store that meets all the filters it
/// names.
pub proof fn law_clearing_selects_every_match(entries: Seq<(NotificationRecord, PaneId)>, req: ClearNotifications)
    ensures
        forall|j: int| #![trigger entries[j]] 0 <= j < entries.len()
            && (req.notification_ids@.len() == 0 || views(req.notification_ids@).contains(entries[j].0.notification_id@))
            && (req.workspace is None || entries[j].0.workspace@ == req.workspace->0@)
            && (req.tab_id is None || (entries[j].0.tab_id is Some && entries[j].0.tab_id->0 == req.tab_id->0))
            && (req.pane_id is None || (entries[j].0.pane_id is Some && entries[j].0.pane_id->0 == req.pane_id->0))
            ==> clear_targets(entries, req).contains(entries[j].0.notification_id@),
{
    broadcast use vstd::seq_lib::group_filter_ensures;

    let f = |n: NotificationRecord| crate::session::cleared_by(n, req);
    let g = |n: NotificationRecord| n.notification_id@;
    let rs = records_of(entries);
    let sel = rs.filter(f);
    assert(clear_targets(entries, req) == sel.map_values(g));
    assert forall|j: int| #![trigger entries[j]] 0 <= j < entries.len()
        && (req.notification_ids@.len() == 0 || views(req.notification_ids@).contains(entries[j].0.notification_id@))
        && (req.workspace is None || entries[j].0.workspace@ == req.workspace->0@)
        && (req.tab_id is None || (entries[j].0.tab_id is Some && entries[j].0.tab_id->0 == req.tab_id->0))
        && (req.pane_id is None || (entries[j].0.pane_id is Some && entries[j].0.pane_id->0 == req.pane_id->0))
        implies clear_targets(entries, req).contains(entries[j].0.notification_id@) by {
        let n = entries[j].0;
        assert(rs[j] == n);
        assert(f(n));
        assert(sel.contains(n));
        let k = choose|k: int| 0 <= k < sel.len() && sel[k] == n;
        assert(clear_targets(entries, req)[k] == n.notification_id@);
    }
}

/// A tab's unread count counts unread notifications only: every notification it counts is
/// unread and is anchored at one of the tab's panes or belongs to the tab's workspace as a
/// whole (no window, tab or pane), so the count is at most the number of unread notifications;
/// and every unread notification of either kind is counted.
pub proof fn law_tab_count_counts_only_unread(
    entries: Seq<(NotificationRecord, PaneId)>,
    workspace: Seq<char>,
    panes: Seq<PaneId>,
)
    ensures
        forall|k: int| 0 <= k < entries.filter(tab_unread(workspace, panes)).len() ==> {
            let e = #[trigger] entries.filter(tab_unread(workspace, panes))[k];
            &&& e.0.unread
            &&& (panes.contains(e.1) || (e.0.workspace@ == workspace && e.0.window_id is None
                && e.0.tab_id is None && e.0.pane_id is None))
        },
        count_entries(entries, tab_unread(workspace, panes))
            <= count_entries(entries, |e: (NotificationRecord, PaneId)| e.0.unread),
        forall|j: int| 0 <= j < entries.len() && (#[trigger] entries[j]).0.unread && panes.contains(entries[j].1)
            ==> entries.filter(tab_unread(workspace, panes)).contains(entries[j]),
        forall|j: int| 0 <= j < entries.len() && (#[trigger] entries[j]).0.unread && entries[j].0.workspace@ == workspace
            && entries[j].0.window_id is None && entries[j].0.tab_id is None && entries[j].0.pane_id is None
            ==> entries.filter(tab_unread(workspace, panes)).contains(entries[j]),
{
    broadcast use vstd::seq_lib::group_filter_ensures;

    let p = tab_unread(workspace, panes);
    let q = |e: (NotificationRecord, PaneId)| e.0.unread;
    assert forall|k: int| 0 <= k < entries.filter(p).len() implies {
        let e = #[trigger] entries.filter(p)[k];
        &&& e.0.unread
        &&& (panes.contains(e.1) || (e.0.workspace@ == workspace && e.0.window_id is None
            && e.0.tab_id is None && e.0.pane_id is None))
    } by {
        lemma_filter_elem(entries, p, k);
    }
    crate::seq_facts::lemma_filter_weaker_first(entries, p, q);
    assert(entries.filter(q).filter(p).len() <= entries.filter(q).len());
}

/// Each rail section holds exactly its rows: All every row, Inbox the rows with unread
/// notifications, Failed the failed ones, Running the running ones, Metadata the rows that
/// carry a workspace status or a workspace progress value, and Tasks the pane rows.
pub proof fn law_sections_hold_their_rows(e: TaskCenterEntryView)
    ensures
        in_section(TaskCenterSection::All, e),
        in_section(TaskCenterSection::Inbox, e) <==> e.unread_count > 0,
        in_section(TaskCenterSection::Failed, e) <==> e.is_failed,
        in_section(TaskCenterSection::Running, e) <==> e.is_running,
        in_section(TaskCenterSection::Metadata, e) <==> (e.workspace_status is Some || e.workspace_progress is Some),
        in_section(TaskCenterSection::Tasks, e) <==> e.kind == TaskCenterKind::Pane,
{
}

/// The Metadata section holds exactly the rows that carry a workspace status or a workspace
/// progress value; so, with no free text in the query, every row with a progress value that
/// passes the query's filters is shown under Metadata.
pub proof fn law_metadata_section_holds_status_and_progress(es: Seq<TaskCenterEntryView>, q: Seq<char>)
    ensures
        forall|e: TaskCenterEntryView| #[trigger] in_section(TaskCenterSection::Metadata, e)
            <==> (e.workspace_status is Some || e.workspace_progress is Some),
        query_free_text(q).len() == 0 ==> forall|j: int| 0 <= j < es.len() && (#[trigger] es[j]).workspace_progress is Some
            && passes_filters(es[j], query_filters(q)) ==> shown_entries(es, TaskCenterSection::Metadata, q).contains(es[j]),
{
    broadcast use vstd::seq_lib::group_filter_ensures;

}

} // verus!
