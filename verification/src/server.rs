//! How the multiplexer server answers the command line's requests, over its stores: which
//! notifications a listing reports, which ones a clearing request removes, where unread
//! navigation jumps, which workspaces a clearing request empties, and what a task-pane request
//! changes and reports.

use crate::cli::{ClearNotifications, CreateNotification, ListNotifications};
use crate::notification_store::{
    NotificationCreateRequest, NotificationRecord, NotificationUnreadMode, NotificationStore, has_id, navigation_result,
    without_id, without_ids,
};
use crate::seq_facts::{
    lemma_filter_all_or_none, lemma_filter_filter, lemma_filter_keeps_order, lemma_filter_push, lemma_filter_split, lemma_push_contains,
};
use crate::session::{
    WorkspaceLogState, WorkspaceProgressState, WorkspaceStatusState, cleared_by, displayable,
    log_state_of, progress_state_of, rfc3339_of, status_state_of, workspace_log_to_state,
    workspace_progress_to_state, workspace_status_to_state, listed_by, notification_matches_clear_filter,
    notification_matches_list_filter, notification_record_to_state, notification_state_of,
    keep_last_entries, parse_unread_mode, task_pane_state_of, task_pane_to_state, NotificationRecordState,
    TaskPaneState,
};
use crate::task_panes::{TaskPaneRecord, TaskPaneStore, opt_view, same_identity, same_record, stored_as};
use crate::text::{append_chars, chars_of, decimal, decimal_chars, owned, str_eq, string_of, views};
use crate::time::utc_now;
use crate::workspace_state::{
    WorkspaceLogRecord, WorkspaceProgressRecord, WorkspaceStateStore, WorkspaceStatusRecord, has_log,
    capped_append, has_progress, logs_of, of_workspace, seqs_increasing, has_status, not_of_workspace, progress_not_of, progress_upserted,
    progresses_unique, status_not_of, status_upserted, statuses_unique,
};
use crate::PaneId;
use vstd::prelude::*;

verus! {

/// The id of a notification created `secs` seconds and `nanos` nanoseconds after the epoch.
pub open spec fn notification_id_text(secs: nat, nanos: nat) -> Seq<char> {
    "notification-"@ + decimal(secs) + "-"@ + decimal(nanos)
}

/// The id of a notification created at the given time.
pub fn notification_id_for(secs: u64, nanos: u32) -> (r: String)
    ensures
        r@ == notification_id_text(secs as nat, nanos as nat),
{
    let mut v = chars_of("notification-");
    let s = decimal_chars(secs);
    append_chars(&mut v, s.as_slice());
    let dash = chars_of("-");
    append_chars(&mut v, dash.as_slice());
    let n = decimal_chars(nanos as u64);
    append_chars(&mut v, n.as_slice());
    string_of(v.as_slice())
}

/// A fresh notification id, from the current time.
pub fn make_notification_id() -> (r: String)
    ensures
        exists|secs: nat, nanos: nat| #[trigger] notification_id_text(secs, nanos) == r@,
{
    let now = utc_now();
    let secs: u64 = if now.secs >= 0 {
        now.secs as u64
    } else {
        0
    };
    let r = notification_id_for(secs, now.nanos);
    assert(notification_id_text(secs as nat, now.nanos as nat) == r@);
    r
}

/// The notification features the server offers.
#[derive(Debug, PartialEq, Eq)]
pub struct NotificationCapabilities {
    pub notification_commands: Vec<String>,
    pub unread_modes: Vec<String>,
    pub supports_tabbar_markers: bool,
}

/// The notification commands the server answers, in the order it reports them.
pub open spec fn notification_command_names() -> Seq<Seq<char>> {
    seq![
        "notify"@,
        "list-notifications"@,
        "clear-notifications"@,
        "mark-read"@,
        "mark-unread"@,
        "jump-next-unread"@,
        "jump-prev-unread"@,
        "identify"@,
        "capabilities"@,
    ]
}

/// What the server reports of its notification features: its notification commands, both
/// unread modes, and tab-bar markers.
pub fn notification_capabilities() -> (r: NotificationCapabilities)
    ensures
        views(r.notification_commands@) == notification_command_names(),
        views(r.unread_modes@) == seq!["clear-on-focus"@, "sticky"@],
        r.supports_tabbar_markers,
{
    let notification_commands = vec![
        owned("notify"),
        owned("list-notifications"),
        owned("clear-notifications"),
        owned("mark-read"),
        owned("mark-unread"),
        owned("jump-next-unread"),
        owned("jump-prev-unread"),
        owned("identify"),
        owned("capabilities"),
    ];
    let unread_modes = vec![owned("clear-on-focus"), owned("sticky")];
    assert(views(notification_commands@) =~= notification_command_names());
    assert(views(unread_modes@) =~= seq!["clear-on-focus"@, "sticky"@]);
    NotificationCapabilities { notification_commands, unread_modes, supports_tabbar_markers: true }
}

/// The notifications of `entries`, oldest first.
pub open spec fn records_of(entries: Seq<(NotificationRecord, PaneId)>) -> Seq<NotificationRecord> {
    entries.map_values(|e: (NotificationRecord, PaneId)| e.0)
}

/// The notifications a listing request reports, oldest first.
pub open spec fn listed_records(entries: Seq<(NotificationRecord, PaneId)>, req: ListNotifications) -> Seq<
    NotificationRecord,
> {
    records_of(entries).filter(|n: NotificationRecord| listed_by(n, req))
}

/// The reply to a listing request: each notification it selects (see `listed_by`), oldest
/// first, as reported; `None` where one of their times cannot be displayed.
pub fn list_notification_states(store: &NotificationStore, request: &ListNotifications) -> (r: Option<
    Vec<NotificationRecordState>,
>)
    ensures
        r is None <==> exists|k: int|
            0 <= k < listed_records(store@, *request).len() && !displayable(
                #[trigger] listed_records(store@, *request)[k],
            ),
        r matches Some(v) ==> v@.len() == listed_records(store@, *request).len() && forall|k: int|
            0 <= k < v@.len() ==> notification_state_of(listed_records(store@, *request)[k], #[trigger] v@[k]),
{
    let all = store.list_notifications();
    let ghost f = |n: NotificationRecord| listed_by(n, *request);
    let ghost full = all@.filter(f);
    assert(full == listed_records(store@, *request));
    let mut out: Vec<NotificationRecordState> = Vec::new();
    let mut i: usize = 0;
    while i < all.len()
        invariant
            i <= all@.len(),
            f == (|n: NotificationRecord| listed_by(n, *request)),
            full == all@.filter(f),
            full == listed_records(store@, *request),
            out@.len() == all@.subrange(0, i as int).filter(f).len(),
            forall|k: int| 0 <= k < out@.len() ==> notification_state_of(all@.subrange(0, i as int).filter(f)[k], #[trigger] out@[k]),
        decreases all@.len() - i,
    {
        let ghost before = all@.subrange(0, i as int);
        assert(all@.subrange(0, i + 1) =~= before.push(all@[i as int]));
        proof {
            lemma_filter_push(before, f, all@[i as int]);
        }
        if notification_matches_list_filter(&all[i], request) {
            match notification_record_to_state(&all[i]) {
                Some(s) => {
                    out.push(s);
                },
                None => {
                    proof {
                        lemma_filter_split(all@, f, i + 1);
                        let k = before.filter(f).len() as int;
                        assert(full[k] == all@[i as int]);
                        assert(!displayable(listed_records(store@, *request)[k]));
                    }
                    return None;
                },
            }
        }
        i += 1;
    }
    assert(all@.subrange(0, all@.len() as int) =~= all@);
    assert forall|k: int| 0 <= k < full.len() implies displayable(#[trigger] listed_records(store@, *request)[k]) by {
        assert(notification_state_of(full[k], out@[k]));
    }
    Some(out)
}

/// The ids of the notifications a clearing request selects (see `cleared_by`), oldest first.
pub open spec fn clear_targets(entries: Seq<(NotificationRecord, PaneId)>, req: ClearNotifications) -> Seq<
    Seq<char>,
> {
    records_of(entries).filter(|n: NotificationRecord| cleared_by(n, req)).map_values(
        |n: NotificationRecord| n.notification_id@,
    )
}

/// Answers a clearing request: removes the notifications it selects and reports how many were
/// removed and their ids. Where it selects none, the store is asked to clear an empty list of
/// ids, which removes every notification.
pub fn clear_matching_notifications(store: &mut NotificationStore, request: &ClearNotifications) -> (r: (
    usize,
    Vec<String>,
))
    requires
        old(store).wf(),
    ensures
        final(store).wf(),
        views(r.1@) == clear_targets(old(store)@, *request),
        r.1@.len() == 0 ==> r.0 == old(store)@.len() && final(store)@.len() == 0,
        r.1@.len() > 0 ==> r.0 == r.1@.len() && final(store)@ == without_ids(old(store)@, views(r.1@)),
{
    let ghost start = store@;
    let all = store.list_notifications();
    let ghost f = |n: NotificationRecord| cleared_by(n, *request);
    let ghost g = |n: NotificationRecord| n.notification_id@;
    let mut ids: Vec<String> = Vec::new();
    let mut i: usize = 0;
    while i < all.len()
        invariant
            i <= all@.len(),
            all@ == records_of(start),
            f == (|n: NotificationRecord| cleared_by(n, *request)),
            g == (|n: NotificationRecord| n.notification_id@),
            views(ids@) == all@.subrange(0, i as int).filter(f).map_values(g),
            forall|k: int| 0 <= k < ids@.len() ==> has_id(start, #[trigger] views(ids@)[k]),
        decreases all@.len() - i,
    {
        let ghost before = all@.subrange(0, i as int);
        assert(all@.subrange(0, i + 1) =~= before.push(all@[i as int]));
        proof {
            lemma_filter_push(before, f, all@[i as int]);
        }
        if notification_matches_clear_filter(&all[i], request) {
            let ghost prev = views(ids@);
            ids.push(all[i].notification_id.clone());
            assert(views(ids@) =~= prev.push(all@[i as int].notification_id@));
            assert(before.filter(f).push(all@[i as int]).map_values(g) =~= before.filter(f).map_values(g).push(
                all@[i as int].notification_id@,
            ));
            assert(start[i as int].0.notification_id@ == all@[i as int].notification_id@);
            assert forall|k: int| 0 <= k < ids@.len() implies has_id(start, #[trigger] views(ids@)[k]) by {
                if k < prev.len() {
                    assert(views(ids@)[k] == prev[k]);
                }
            }
        }
        i += 1;
    }
    assert(all@.subrange(0, all@.len() as int) =~= all@);
    let cleared = store.clear_notifications(ids.as_slice());
    proof {
        lemma_filter_all_or_none(views(ids@), |id: Seq<char>| has_id(start, id));
    }
    (cleared, ids)
}

/// Answers an unread-navigation request from pane `pane_id`: the next (`next`) or previous
/// (`prev`) pane of `pane_order` with an unread notification; any other direction is an error.
pub fn jump_unread(store: &NotificationStore, pane_order: &[PaneId], pane_id: PaneId, direction: &str) -> (r: Result<
    Option<PaneId>,
    String,
>)
    ensures
        direction@ == "next"@ ==> (r matches Ok(t) && navigation_result(store@, pane_order@, Some(pane_id), true, t)),
        direction@ == "prev"@ ==> (r matches Ok(t) && navigation_result(store@, pane_order@, Some(pane_id), false, t)),
        direction@ != "next"@ && direction@ != "prev"@ ==> (r matches Err(e) && e@
            == "direction must be either \"next\" or \"prev\""@),
{
    proof {
        reveal_strlit("next");
        reveal_strlit("prev");
        assert("next"@[0] != "prev"@[0]);
    }
    if str_eq(direction, "next") {
        Ok(store.next_unread_pane(pane_order, Some(pane_id)))
    } else if str_eq(direction, "prev") {
        Ok(store.prev_unread_pane(pane_order, Some(pane_id)))
    } else {
        Err(owned("direction must be either \"next\" or \"prev\""))
    }
}

/// The unread mode a request names (see `parse_unread_mode`).
pub open spec fn named_unread_mode(mode: Seq<char>) -> NotificationUnreadMode {
    if mode == "sticky"@ {
        NotificationUnreadMode::Sticky
    } else {
        NotificationUnreadMode::ClearOnFocus
    }
}

/// `n` is the record a creation request makes under id `id`: the request's fields, unread, in
/// the unread mode the request names, created and updated at the same time.
pub open spec fn created_from(n: NotificationRecord, req: CreateNotification, id: Seq<char>) -> bool {
    &&& n.notification_id@ == id
    &&& n.workspace == req.workspace
    &&& n.window_id == req.window_id
    &&& n.tab_id == req.tab_id
    &&& n.pane_id == req.pane_id
    &&& n.kind == req.kind
    &&& n.title == req.title
    &&& n.body == req.body
    &&& n.unread
    &&& n.unread_mode == named_unread_mode(req.unread_mode@)
    &&& n.created_at == n.updated_at
}

/// The unread-mode names a creation request accepts.
pub open spec fn known_unread_mode(mode: Seq<char>) -> bool {
    mode == "clear-on-focus"@ || mode == "sticky"@
}

/// Answers a creation request: where its unread mode is known, stores a new unread
/// notification with id `notification_id` anchored at `anchor_pane_id` (replacing any with that
/// id) and reports it (`None` where its time cannot be displayed); otherwise the error names
/// the unread mode and nothing changes.
pub fn create_notification(
    store: &mut NotificationStore,
    request: CreateNotification,
    notification_id: String,
    anchor_pane_id: PaneId,
) -> (r: Result<Option<NotificationRecordState>, String>)
    requires
        old(store).wf(),
    ensures
        final(store).wf(),
        !known_unread_mode(request.unread_mode@) ==> final(store)@ == old(store)@ && (r matches Err(e)
            && e@ == "unsupported unread mode `"@ + request.unread_mode@ + "`"@),
        known_unread_mode(request.unread_mode@) ==> {
            let made = final(store)@.last();
            &&& final(store)@.len() > 0
            &&& final(store)@ == without_id(old(store)@, notification_id@).push(made)
            &&& made.1 == anchor_pane_id
            &&& created_from(made.0, request, notification_id@)
            &&& r matches Ok(o)
            &&& (o is None <==> !displayable(made.0))
            &&& (o matches Some(s) ==> notification_state_of(made.0, s))
        },
{
    proof {
        reveal_strlit("sticky");
        reveal_strlit("clear-on-focus");
        assert("sticky"@ != "clear-on-focus"@) by {
            assert("sticky"@.len() != "clear-on-focus"@.len());
        }
    }
    let unread_mode = match parse_unread_mode(request.unread_mode.as_str()) {
        Ok(m) => m,
        Err(e) => {
            return Err(e);
        },
    };
    let ghost req = request;
    let ghost id = notification_id@;
    let record = NotificationCreateRequest {
        notification_id,
        workspace: request.workspace,
        window_id: request.window_id,
        tab_id: request.tab_id,
        pane_id: request.pane_id,
        kind: request.kind,
        title: request.title,
        body: request.body,
        unread_mode,
    }.into_record();
    let reported = notification_record_to_state(&record);
    let ghost made = (record, anchor_pane_id);
    store.create_notification(record, anchor_pane_id);
    assert(store@.last() == made);
    assert(created_from(made.0, req, id));
    Ok(reported)
}

/// The workspaces of the status records, in order.
pub open spec fn status_workspaces(s: Seq<WorkspaceStatusRecord>) -> Seq<Seq<char>> {
    s.map_values(|r: WorkspaceStatusRecord| r.workspace@)
}

/// Holds of status records whose workspace is none of `names`.
pub open spec fn status_not_in(names: Seq<Seq<char>>) -> spec_fn(WorkspaceStatusRecord) -> bool {
    |r: WorkspaceStatusRecord| !names.contains(r.workspace@)
}

/// Answers a request to clear the status of workspace `workspace`, or of every workspace where
/// none is given: clears each and reports how many were cleared and which, in order.
pub fn clear_workspace_statuses(store: &mut WorkspaceStateStore, workspace: Option<String>) -> (r: (
    usize,
    Vec<String>,
))
    requires
        old(store).wf(),
    ensures
        final(store).wf(),
        r.0 == r.1@.len(),
        final(store).progresses() == old(store).progresses(),
        final(store).logs() == old(store).logs(),
        final(store).last_seq() == old(store).last_seq(),
        workspace matches Some(w) ==> views(r.1@) == (if has_status(old(store).statuses(), w@) {
            seq![w@]
        } else {
            Seq::<Seq<char>>::empty()
        }) && final(store).statuses() == old(store).statuses().filter(status_not_of(w@)),
        workspace is None ==> views(r.1@) == status_workspaces(old(store).statuses())
            && final(store).statuses().len() == 0,
{
    match workspace {
        Some(w) => {
            let ghost wv = w@;
            if store.clear_status(w.as_str()) {
                let v = vec![w];
                assert(views(v@) =~= seq![wv]);
                (1, v)
            } else {
                let v: Vec<String> = Vec::new();
                assert(views(v@) =~= Seq::<Seq<char>>::empty());
                (0, v)
            }
        },
        None => {
            let ghost start = store.statuses();
            let ghost first = *store;
            let all = store.list_status();
            let mut cleared: Vec<String> = Vec::new();
            let mut i: usize = 0;
            assert(status_workspaces(start.subrange(0, 0)) =~= Seq::<Seq<char>>::empty());
            assert(start.filter(status_not_in(Seq::empty())) == start) by {
                lemma_filter_all_or_none(start, status_not_in(Seq::empty()));
            }
            while i < all.len()
                invariant
                    i <= all@.len(),
                    all@ == start,
                    statuses_unique(start),
                    store.wf(),
                    store.progresses() == first.progresses(),
                    store.logs() == first.logs(),
                    store.last_seq() == first.last_seq(),
                    views(cleared@) == status_workspaces(start.subrange(0, i as int)),
                    store.statuses() == start.filter(status_not_in(status_workspaces(start.subrange(0, i as int)))),
                decreases all@.len() - i,
            {
                let ghost names = status_workspaces(start.subrange(0, i as int));
                let ghost name = start[i as int].workspace@;
                assert(!names.contains(name)) by {
                    if names.contains(name) {
                        let j = choose|j: int| 0 <= j < names.len() && names[j] == name;
                        assert(start[j].workspace@ == start[i as int].workspace@);
                    }
                }
                proof {
                    start.lemma_filter_contains(status_not_in(names), i as int);
                    let cur = start.filter(status_not_in(names));
                    let k = choose|k: int| 0 <= k < cur.len() && cur[k] == start[i as int];
                    assert(cur[k].workspace@ == name);
                }
                let was = store.clear_status(all[i].workspace.as_str());
                assert(was);
                proof {
                    let next = status_workspaces(start.subrange(0, i + 1));
                    assert(next =~= names.push(name));
                    lemma_filter_filter(start, status_not_in(names), status_not_of(name));
                    assert forall|x: WorkspaceStatusRecord| #[trigger] status_not_in(next)(x) == (status_not_in(names)(x)
                        && status_not_of(name)(x)) by {
                        lemma_push_contains(names, name, x.workspace@);
                    }
                    assert((|x: WorkspaceStatusRecord| status_not_in(names)(x) && status_not_of(name)(x))
                        =~= status_not_in(next));
                }
                let ghost prev = views(cleared@);
                cleared.push(all[i].workspace.clone());
                assert(views(cleared@) =~= prev.push(name));
                assert(status_workspaces(start.subrange(0, i + 1)) =~= prev.push(name));
                i += 1;
            }
            proof {
                assert(start.subrange(0, start.len() as int) =~= start);
                let names = status_workspaces(start);
                assert forall|k: int| 0 <= k < start.len() implies !status_not_in(names)(#[trigger] start[k]) by {
                    assert(names[k] == start[k].workspace@);
                }
                lemma_filter_all_or_none(start, status_not_in(names));
            }
            (cleared.len(), cleared)
        },
    }
}

/// The workspaces of the progress records, in order.
pub open spec fn progress_workspaces(s: Seq<WorkspaceProgressRecord>) -> Seq<Seq<char>> {
    s.map_values(|r: WorkspaceProgressRecord| r.workspace@)
}

/// Holds of progress records whose workspace is none of `names`.
pub open spec fn progress_not_in(names: Seq<Seq<char>>) -> spec_fn(WorkspaceProgressRecord) -> bool {
    |r: WorkspaceProgressRecord| !names.contains(r.workspace@)
}

/// Answers a request to clear the progress of workspace `workspace`, or of every workspace where
/// none is given: clears each and reports how many were cleared and which, in order.
pub fn clear_workspace_progresses(store: &mut WorkspaceStateStore, workspace: Option<String>) -> (r: (
    usize,
    Vec<String>,
))
    requires
        old(store).wf(),
    ensures
        final(store).wf(),
        r.0 == r.1@.len(),
        final(store).statuses() == old(store).statuses(),
        final(store).logs() == old(store).logs(),
        final(store).last_seq() == old(store).last_seq(),
        workspace matches Some(w) ==> views(r.1@) == (if has_progress(old(store).progresses(), w@) {
            seq![w@]
        } else {
            Seq::<Seq<char>>::empty()
        }) && final(store).progresses() == old(store).progresses().filter(progress_not_of(w@)),
        workspace is None ==> views(r.1@) == progress_workspaces(old(store).progresses())
            && final(store).progresses().len() == 0,
{
    match workspace {
        Some(w) => {
            let ghost wv = w@;
            if store.clear_progress(w.as_str()) {
                let v = vec![w];
                assert(views(v@) =~= seq![wv]);
                (1, v)
            } else {
                let v: Vec<String> = Vec::new();
                assert(views(v@) =~= Seq::<Seq<char>>::empty());
                (0, v)
            }
        },
        None => {
            let ghost start = store.progresses();
            let ghost first = *store;
            let all = store.list_progress();
            let mut cleared: Vec<String> = Vec::new();
            let mut i: usize = 0;
            assert(progress_workspaces(start.subrange(0, 0)) =~= Seq::<Seq<char>>::empty());
            assert(start.filter(progress_not_in(Seq::empty())) == start) by {
                lemma_filter_all_or_none(start, progress_not_in(Seq::empty()));
            }
            while i < all.len()
                invariant
                    i <= all@.len(),
                    all@ == start,
                    progresses_unique(start),
                    store.wf(),
                    store.statuses() == first.statuses(),
                    store.logs() == first.logs(),
                    store.last_seq() == first.last_seq(),
                    views(cleared@) == progress_workspaces(start.subrange(0, i as int)),
                    store.progresses() == start.filter(progress_not_in(progress_workspaces(start.subrange(0, i as int)))),
                decreases all@.len() - i,
            {
                let ghost names = progress_workspaces(start.subrange(0, i as int));
                let ghost name = start[i as int].workspace@;
                assert(!names.contains(name)) by {
                    if names.contains(name) {
                        let j = choose|j: int| 0 <= j < names.len() && names[j] == name;
                        assert(start[j].workspace@ == start[i as int].workspace@);
                    }
                }
                proof {
                    start.lemma_filter_contains(progress_not_in(names), i as int);
                    let cur = start.filter(progress_not_in(names));
                    let k = choose|k: int| 0 <= k < cur.len() && cur[k] == start[i as int];
                    assert(cur[k].workspace@ == name);
                }
                let was = store.clear_progress(all[i].workspace.as_str());
                assert(was);
                proof {
                    let next = progress_workspaces(start.subrange(0, i + 1));
                    assert(next =~= names.push(name));
                    lemma_filter_filter(start, progress_not_in(names), progress_not_of(name));
                    assert forall|x: WorkspaceProgressRecord| #[trigger] progress_not_in(next)(x) == (progress_not_in(names)(x)
                        && progress_not_of(name)(x)) by {
                        lemma_push_contains(names, name, x.workspace@);
                    }
                    assert((|x: WorkspaceProgressRecord| progress_not_in(names)(x) && progress_not_of(name)(x))
                        =~= progress_not_in(next));
                }
                let ghost prev = views(cleared@);
                cleared.push(all[i].workspace.clone());
                assert(views(cleared@) =~= prev.push(name));
                assert(progress_workspaces(start.subrange(0, i + 1)) =~= prev.push(name));
                i += 1;
            }
            proof {
                assert(start.subrange(0, start.len() as int) =~= start);
                let names = progress_workspaces(start);
                assert forall|k: int| 0 <= k < start.len() implies !progress_not_in(names)(#[trigger] start[k]) by {
                    assert(names[k] == start[k].workspace@);
                }
                lemma_filter_all_or_none(start, progress_not_in(names));
            }
            (cleared.len(), cleared)
        },
    }
}

/// Holds of log records whose workspace is none of `names`.
pub open spec fn log_not_in(names: Seq<Seq<char>>) -> spec_fn(WorkspaceLogRecord) -> bool {
    |r: WorkspaceLogRecord| !names.contains(r.workspace@)
}

/// Answers a request to clear the log of workspace `workspace`, or of every workspace where
/// none is given: clears each and reports how many were cleared and which (every workspace
/// with a log once, where none is given).
pub fn clear_workspace_logs(store: &mut WorkspaceStateStore, workspace: Option<String>) -> (r: (
    usize,
    Vec<String>,
))
    requires
        old(store).wf(),
    ensures
        final(store).wf(),
        r.0 == r.1@.len(),
        final(store).statuses() == old(store).statuses(),
        final(store).progresses() == old(store).progresses(),
        final(store).last_seq() == old(store).last_seq(),
        workspace matches Some(w) ==> views(r.1@) == (if has_log(old(store).logs(), w@) {
            seq![w@]
        } else {
            Seq::<Seq<char>>::empty()
        }) && final(store).logs() == old(store).logs().filter(not_of_workspace(w@)),
        workspace is None ==> views(r.1@).no_duplicates() && (forall|w: Seq<char>| #[trigger] views(r.1@).contains(w)
            <==> has_log(old(store).logs(), w)) && final(store).logs().len() == 0,
{
    match workspace {
        Some(w) => {
            let ghost wv = w@;
            if store.clear_log(w.as_str()) {
                let v = vec![w];
                assert(views(v@) =~= seq![wv]);
                (1, v)
            } else {
                let v: Vec<String> = Vec::new();
                assert(views(v@) =~= Seq::<Seq<char>>::empty());
                (0, v)
            }
        },
        None => {
            let ghost start = store.logs();
            let ghost first = *store;
            let names = store.list_log_workspaces();
            let ghost all = views(names@);
            let mut cleared: Vec<String> = Vec::new();
            let mut i: usize = 0;
            assert(all.subrange(0, 0) =~= Seq::<Seq<char>>::empty());
            assert(start.filter(log_not_in(Seq::empty())) == start) by {
                lemma_filter_all_or_none(start, log_not_in(Seq::empty()));
            }
            while i < names.len()
                invariant
                    i <= names@.len(),
                    all == views(names@),
                    all.no_duplicates(),
                    forall|w: Seq<char>| #[trigger] all.contains(w) <==> has_log(start, w),
                    store.wf(),
                    store.statuses() == first.statuses(),
                    store.progresses() == first.progresses(),
                    store.last_seq() == first.last_seq(),
                    views(cleared@) == all.subrange(0, i as int),
                    store.logs() == start.filter(log_not_in(all.subrange(0, i as int))),
                decreases names@.len() - i,
            {
                let ghost done = all.subrange(0, i as int);
                let ghost name = all[i as int];
                assert(!done.contains(name)) by {
                    if done.contains(name) {
                        let j = choose|j: int| 0 <= j < done.len() && done[j] == name;
                        assert(all[j] == all[i as int]);
                    }
                }
                proof {
                    assert(all.contains(name));
                    let k = choose|k: int| 0 <= k < start.len() && #[trigger] start[k].workspace@ == name;
                    start.lemma_filter_contains(log_not_in(done), k);
                    let cur = start.filter(log_not_in(done));
                    let m = choose|m: int| 0 <= m < cur.len() && cur[m] == start[k];
                    assert(cur[m].workspace@ == name);
                }
                let was = store.clear_log(names[i].as_str());
                assert(was);
                proof {
                    let next = all.subrange(0, i + 1);
                    assert(next =~= done.push(name));
                    lemma_filter_filter(start, log_not_in(done), not_of_workspace(name));
                    assert forall|x: WorkspaceLogRecord| #[trigger] log_not_in(next)(x) == (log_not_in(done)(x)
                        && not_of_workspace(name)(x)) by {
                        lemma_push_contains(done, name, x.workspace@);
                    }
                    assert((|x: WorkspaceLogRecord| log_not_in(done)(x) && not_of_workspace(name)(x))
                        =~= log_not_in(next));
                }
                let ghost prev = views(cleared@);
                cleared.push(names[i].clone());
                assert(views(cleared@) =~= prev.push(name));
                assert(all.subrange(0, i + 1) =~= prev.push(name));
                i += 1;
            }
            proof {
                assert(all.subrange(0, all.len() as int) =~= all);
                assert forall|k: int| 0 <= k < start.len() implies !log_not_in(all)(#[trigger] start[k]) by {
                    assert(has_log(start, start[k].workspace@));
                }
                lemma_filter_all_or_none(start, log_not_in(all));
            }
            (cleared.len(), cleared)
        },
    }
}

/// Answers a request to set workspace `workspace`'s status: sets it and reports the record of
/// the workspace afterwards (`None` where its time cannot be rendered).
pub fn set_workspace_status_reply(store: &mut WorkspaceStateStore, workspace: &str, status: &str) -> (r: Option<
    WorkspaceStatusState,
>)
    requires
        old(store).wf(),
    ensures
        final(store).wf(),
        status_upserted(old(store).statuses(), final(store).statuses(), workspace@, status@),
        final(store).progresses() == old(store).progresses(),
        final(store).logs() == old(store).logs(),
        final(store).last_seq() == old(store).last_seq(),
        exists|k: int|
            0 <= k < final(store).statuses().len() && #[trigger] final(store).statuses()[k].workspace@ == workspace@
                && final(store).statuses()[k].status@ == status@ && (r is None <==> rfc3339_of(
                final(store).statuses()[k].updated_at,
            ) is None) && (r matches Some(s) ==> status_state_of(final(store).statuses()[k], s)),
{
    let ghost before = store.statuses();
    store.set_status(workspace, status);
    let ghost after = store.statuses();
    assert(has_status(after, workspace@)) by {
        if has_status(before, workspace@) {
            let k = choose|k: int| 0 <= k < before.len() && #[trigger] before[k].workspace@ == workspace@;
            assert(after[k].workspace@ == workspace@);
        } else {
            assert(after[after.len() - 1].workspace@ == workspace@);
        }
    }
    match store.status_for_workspace(workspace) {
        Some(rec) => {
            let ghost k = choose|k: int| 0 <= k < after.len() && after[k] == rec && #[trigger] after[k].workspace@ == workspace@;
            assert(after[k].status@ == status@) by {
                if has_status(before, workspace@) {
                    if before[k].workspace@ != workspace@ {
                        assert(after[k] == before[k]);
                    }
                } else if k < before.len() {
                    assert(after.subrange(0, before.len() as int)[k] == after[k]);
                    assert(before[k].workspace@ == workspace@);
                }
            }
            workspace_status_to_state(rec)
        },
        None => {
            proof {
                assert(false);
            }
            None
        },
    }
}

/// Answers a request to set workspace `workspace`'s progress: a value above 100 is an error
/// that names it and changes nothing; otherwise sets it and reports the record of the workspace
/// afterwards (`None` where its time cannot be rendered).
pub fn set_workspace_progress_reply(store: &mut WorkspaceStateStore, workspace: &str, value: u8) -> (r: Result<
    Option<WorkspaceProgressState>,
    String,
>)
    requires
        old(store).wf(),
    ensures
        final(store).wf(),
        final(store).statuses() == old(store).statuses(),
        final(store).logs() == old(store).logs(),
        final(store).last_seq() == old(store).last_seq(),
        value > 100 ==> final(store).progresses() == old(store).progresses() && (r matches Err(e) && e@
            == "workspace progress value "@ + decimal(value as nat) + " is out of range"@),
        value <= 100 ==> progress_upserted(old(store).progresses(), final(store).progresses(), workspace@, value)
            && exists|k: int|
            0 <= k < final(store).progresses().len() && #[trigger] final(store).progresses()[k].workspace@
                == workspace@ && final(store).progresses()[k].value == value && (r matches Ok(o) && (o is None
                <==> rfc3339_of(final(store).progresses()[k].updated_at) is None) && (o matches Some(s)
                ==> progress_state_of(final(store).progresses()[k], s))),
{
    let ghost before = store.progresses();
    match store.set_progress(workspace, value) {
        Err(_) => {
            let mut msg = chars_of("workspace progress value ");
            let d = decimal_chars(value as u64);
            append_chars(&mut msg, d.as_slice());
            let tail = chars_of(" is out of range");
            append_chars(&mut msg, tail.as_slice());
            return Err(string_of(msg.as_slice()));
        },
        Ok(_) => {},
    }
    let ghost after = store.progresses();
    assert(has_progress(after, workspace@)) by {
        if has_progress(before, workspace@) {
            let k = choose|k: int| 0 <= k < before.len() && #[trigger] before[k].workspace@ == workspace@;
            assert(after[k].workspace@ == workspace@);
        } else {
            assert(after[after.len() - 1].workspace@ == workspace@);
        }
    }
    match store.progress_for_workspace(workspace) {
        Some(rec) => {
            let ghost k = choose|k: int| 0 <= k < after.len() && after[k] == rec && #[trigger] after[k].workspace@ == workspace@;
            assert(after[k].value == value) by {
                if has_progress(before, workspace@) {
                    if before[k].workspace@ != workspace@ {
                        assert(after[k] == before[k]);
                    }
                } else if k < before.len() {
                    assert(after.subrange(0, before.len() as int)[k] == after[k]);
                    assert(before[k].workspace@ == workspace@);
                }
            }
            Ok(workspace_progress_to_state(rec))
        },
        None => {
            proof {
                assert(false);
            }
            Ok(None)
        },
    }
}

/// Answers a request to append to workspace `workspace`'s log: appends and reports the line
/// appended (`None` where its time cannot be rendered).
pub fn append_workspace_log_reply(store: &mut WorkspaceStateStore, workspace: &str, message: &str) -> (r: Option<
    WorkspaceLogState,
>)
    requires
        old(store).wf(),
        old(store).last_seq() < u64::MAX,
    ensures
        final(store).wf(),
        final(store).last_seq() == old(store).last_seq() + 1,
        final(store).statuses() == old(store).statuses(),
        final(store).progresses() == old(store).progresses(),
        exists|rec: WorkspaceLogRecord| {
            &&& #[trigger] capped_append(old(store).logs(), rec) == final(store).logs()
            &&& rec.workspace@ == workspace@
            &&& rec.seq == final(store).last_seq()
            &&& rec.message@ == message@
            &&& (r is None <==> rfc3339_of(rec.created_at) is None)
            &&& (r matches Some(s) ==> log_state_of(rec, s))
        },
{
    let rec = store.append_log(workspace, message);
    let ghost made = rec;
    let reported = workspace_log_to_state(rec);
    assert(capped_append(old(store).logs(), made) == store.logs());
    reported
}

/// A workspace name names `name`: it is `name`, or no name is given.
pub open spec fn names_workspace(given: Option<Seq<char>>, name: Seq<char>) -> bool {
    match given {
        Some(w) => name == w,
        None => true,
    }
}

/// The text of an optional name.
pub open spec fn opt_text(o: Option<String>) -> Option<Seq<char>> {
    match o {
        Some(s) => Some(s@),
        None => None,
    }
}

/// Whether `name` is the given workspace name, or no name is given.
fn workspace_named(given: &Option<String>, name: &str) -> (r: bool)
    ensures
        r == names_workspace(opt_text(*given), name@),
{
    match given {
        Some(w) => str_eq(name, w.as_str()),
        None => true,
    }
}

/// The status records a listing reports: those of the given workspace, or all.
pub open spec fn listed_statuses(s: Seq<WorkspaceStatusRecord>, given: Option<Seq<char>>) -> Seq<
    WorkspaceStatusRecord,
> {
    s.filter(|r: WorkspaceStatusRecord| names_workspace(given, r.workspace@))
}

/// Answers a status listing: the status records of workspace `workspace` (of every workspace
/// where none is given), in order, as reported; `None` where one of their times cannot be
/// rendered.
pub fn list_workspace_status_states(store: &WorkspaceStateStore, workspace: Option<String>) -> (r: Option<
    Vec<WorkspaceStatusState>,
>)
    ensures
        r is None <==> exists|k: int|
            0 <= k < listed_statuses(store.statuses(), opt_text(workspace)).len() && rfc3339_of(
                (#[trigger] listed_statuses(store.statuses(), opt_text(workspace))[k]).updated_at,
            ) is None,
        r matches Some(v) ==> v@.len() == listed_statuses(store.statuses(), opt_text(workspace)).len()
            && forall|k: int|
            0 <= k < v@.len() ==> status_state_of(
                listed_statuses(store.statuses(), opt_text(workspace))[k],
                #[trigger] v@[k],
            ),
{
    let all = store.list_status();
    let ghost given = opt_text(workspace);
    let ghost f = |r: WorkspaceStatusRecord| names_workspace(given, r.workspace@);
    let ghost full = all@.filter(f);
    let mut out: Vec<WorkspaceStatusState> = Vec::new();
    let mut i: usize = 0;
    while i < all.len()
        invariant
            i <= all@.len(),
            given == opt_text(workspace),
            f == (|r: WorkspaceStatusRecord| names_workspace(given, r.workspace@)),
            full == all@.filter(f),
            full == listed_statuses(store.statuses(), given),
            out@.len() == all@.subrange(0, i as int).filter(f).len(),
            forall|k: int| 0 <= k < out@.len() ==> status_state_of(all@.subrange(0, i as int).filter(f)[k], #[trigger] out@[k]),
        decreases all@.len() - i,
    {
        let ghost before = all@.subrange(0, i as int);
        assert(all@.subrange(0, i + 1) =~= before.push(all@[i as int]));
        proof {
            lemma_filter_push(before, f, all@[i as int]);
        }
        if workspace_named(&workspace, all[i].workspace.as_str()) {
            match workspace_status_to_state(all[i].clone()) {
                Some(s) => {
                    out.push(s);
                },
                None => {
                    proof {
                        lemma_filter_split(all@, f, i + 1);
                        let k = before.filter(f).len() as int;
                        assert(full[k] == all@[i as int]);
                    }
                    return None;
                },
            }
        }
        i += 1;
    }
    assert(all@.subrange(0, all@.len() as int) =~= all@);
    assert forall|k: int| 0 <= k < full.len() implies rfc3339_of(
        (#[trigger] listed_statuses(store.statuses(), given)[k]).updated_at,
    ) is Some by {
        assert(status_state_of(full[k], out@[k]));
    }
    Some(out)
}

/// The last `limit` elements of `s` where a limit is given and `s` is longer; all of `s`
/// otherwise.
pub open spec fn last_n<A>(s: Seq<A>, limit: Option<usize>) -> Seq<A> {
    match limit {
        Some(n) if s.len() > n => s.subrange(s.len() - n, s.len() as int),
        _ => s,
    }
}

/// The log records a log listing reports: those of the given workspace, or every record, in
/// sequence order, cut to the last `limit`.
pub open spec fn listed_logs(logs: Seq<WorkspaceLogRecord>, given: Option<Seq<char>>, limit: Option<usize>) -> Seq<
    WorkspaceLogRecord,
> {
    last_n(
        match given {
            Some(w) => logs_of(logs, w),
            None => logs,
        },
        limit,
    )
}

/// The reports of log records, in order; `None` where one of their times cannot be rendered.
fn log_states(records: Vec<WorkspaceLogRecord>) -> (r: Option<Vec<WorkspaceLogState>>)
    ensures
        r is None <==> exists|k: int| 0 <= k < records@.len() && rfc3339_of((#[trigger] records@[k]).created_at) is None,
        r matches Some(v) ==> v@.len() == records@.len() && forall|k: int|
            0 <= k < v@.len() ==> log_state_of(records@[k], #[trigger] v@[k]),
{
    let mut out: Vec<WorkspaceLogState> = Vec::new();
    let mut i: usize = 0;
    while i < records.len()
        invariant
            i <= records@.len(),
            out@.len() == i,
            forall|k: int| 0 <= k < i ==> log_state_of(records@[k], #[trigger] out@[k]),
        decreases records@.len() - i,
    {
        match workspace_log_to_state(records[i].clone()) {
            Some(s) => out.push(s),
            None => {
                assert(rfc3339_of(records@[i as int].created_at) is None);
                return None;
            },
        }
        i += 1;
    }
    assert forall|k: int| 0 <= k < records@.len() implies rfc3339_of((#[trigger] records@[k]).created_at) is Some by {
        assert(log_state_of(records@[k], out@[k]));
    }
    Some(out)
}

/// Answers a log listing: the log of workspace `workspace`, or every log line in sequence order
/// where none is given, cut to the last `limit` lines, as reported; `None` where one of their
/// times cannot be rendered.
pub fn list_workspace_log_states(store: &WorkspaceStateStore, workspace: Option<String>, limit: Option<usize>) -> (r: Option<
    Vec<WorkspaceLogState>,
>)
    requires
        store.wf(),
    ensures
        r is None <==> exists|k: int|
            0 <= k < listed_logs(store.logs(), opt_text(workspace), limit).len() && rfc3339_of(
                (#[trigger] listed_logs(store.logs(), opt_text(workspace), limit)[k]).created_at,
            ) is None,
        r matches Some(v) ==> v@.len() == listed_logs(store.logs(), opt_text(workspace), limit).len()
            && forall|k: int|
            0 <= k < v@.len() ==> log_state_of(listed_logs(store.logs(), opt_text(workspace), limit)[k], #[trigger] v@[k]),
        r matches Some(v) ==> forall|i: int, j: int| 0 <= i < j < v@.len() ==> #[trigger] v@[i].seq < #[trigger] v@[j].seq,
{
    let entries = match &workspace {
        Some(w) => store.list_log(w.as_str()),
        None => store.list_all_log(),
    };
    let ghost picked = entries@;
    proof {
        let logs = store.logs();
        assert(seqs_increasing(logs));
        if workspace is Some {
            let w = workspace->0;
            let rel = |a: WorkspaceLogRecord, b: WorkspaceLogRecord| a.seq < b.seq;
            assert forall|i: int, j: int| 0 <= i < j < logs.len() implies #[trigger] rel(logs[i], logs[j]) by {
                assert(logs[i].seq < logs[j].seq);
            }
            lemma_filter_keeps_order(logs, of_workspace(w@), rel);
            assert(picked == logs.filter(of_workspace(w@)));
            assert forall|i: int, j: int| 0 <= i < j < picked.len() implies #[trigger] picked[i].seq
                < #[trigger] picked[j].seq by {
                assert(rel(picked[i], picked[j]));
            }
        }
        assert(forall|i: int, j: int| 0 <= i < j < picked.len() ==> #[trigger] picked[i].seq < #[trigger] picked[j].seq);
    }
    let kept = keep_last_entries(entries, limit);
    assert(kept@ == listed_logs(store.logs(), opt_text(workspace), limit));
    let r = log_states(kept);
    proof {
        if r is Some {
            let v = r->0;
            assert forall|i: int, j: int| 0 <= i < j < v@.len() implies #[trigger] v@[i].seq < #[trigger] v@[j].seq by {
                assert(log_state_of(kept@[i], v@[i]));
                assert(log_state_of(kept@[j], v@[j]));
                if let Some(n) = limit {
                    if picked.len() > n {
                        assert(kept@[i] == picked[picked.len() - n + i]);
                        assert(kept@[j] == picked[picked.len() - n + j]);
                    }
                }
            }
        }
    }
    r
}

/// A task pane is selected by a listing: it is the given pane and of the given workspace,
/// each where one is given.
pub open spec fn pane_selected(pane_id: Option<PaneId>, given: Option<Seq<char>>, t: TaskPaneRecord) -> bool {
    &&& (pane_id matches Some(p) ==> t.pane_id == p)
    &&& (given matches Some(w) ==> opt_view(t.workspace) == Some(w))
}

/// The task-pane records a listing reports, in ascending pane order.
pub open spec fn listed_task_panes(records: Seq<TaskPaneRecord>, pane_id: Option<PaneId>, given: Option<Seq<char>>) -> Seq<
    TaskPaneRecord,
> {
    records.filter(|t: TaskPaneRecord| pane_selected(pane_id, given, t))
}

/// Whether a task pane is the given pane and of the given workspace, each where one is given.
fn task_pane_selected(pane_id: Option<PaneId>, workspace: &Option<String>, t: &TaskPaneRecord) -> (r: bool)
    ensures
        r == pane_selected(pane_id, opt_text(*workspace), *t),
{
    if let Some(p) = pane_id {
        if t.pane_id != p {
            return false;
        }
    }
    match workspace {
        Some(w) => match &t.workspace {
            Some(tw) => str_eq(tw.as_str(), w.as_str()),
            None => false,
        },
        None => true,
    }
}

/// Answers a task-pane listing: the records of pane `pane_id` and workspace `workspace` (each
/// where given), in ascending pane order, as reported; `None` where one of their times cannot
/// be rendered.
pub fn list_task_pane_states(store: &TaskPaneStore, pane_id: Option<PaneId>, workspace: Option<String>) -> (r: Option<
    Vec<TaskPaneState>,
>)
    requires
        store.wf(),
    ensures
        r is None <==> exists|k: int|
            0 <= k < listed_task_panes(store.records(), pane_id, opt_text(workspace)).len() && rfc3339_of(
                (#[trigger] listed_task_panes(store.records(), pane_id, opt_text(workspace))[k]).updated_at,
            ) is None,
        r matches Some(v) ==> v@.len() == listed_task_panes(store.records(), pane_id, opt_text(workspace)).len()
            && forall|k: int|
            0 <= k < v@.len() ==> task_pane_state_of(
                listed_task_panes(store.records(), pane_id, opt_text(workspace))[k],
                #[trigger] v@[k],
            ),
{
    let all = store.list_task_panes();
    let ghost recs = store.records();
    let ghost given = opt_text(workspace);
    let ghost f = |t: TaskPaneRecord| pane_selected(pane_id, given, t);
    let ghost full = recs.filter(f);
    let mut out: Vec<TaskPaneState> = Vec::new();
    let mut i: usize = 0;
    while i < all.len()
        invariant
            i <= all@.len(),
            all@.len() == recs.len(),
            forall|k: int| 0 <= k < all@.len() ==> same_record(#[trigger] all@[k], recs[k]),
            given == opt_text(workspace),
            f == (|t: TaskPaneRecord| pane_selected(pane_id, given, t)),
            full == recs.filter(f),
            full == listed_task_panes(store.records(), pane_id, given),
            out@.len() == recs.subrange(0, i as int).filter(f).len(),
            forall|k: int| 0 <= k < out@.len() ==> task_pane_state_of(recs.subrange(0, i as int).filter(f)[k], #[trigger] out@[k]),
        decreases all@.len() - i,
    {
        let ghost before = recs.subrange(0, i as int);
        let ghost rec = recs[i as int];
        assert(recs.subrange(0, i + 1) =~= before.push(rec));
        assert(same_record(all@[i as int], rec));
        proof {
            lemma_filter_push(before, f, rec);
        }
        if task_pane_selected(pane_id, &workspace, &all[i]) {
            match task_pane_to_state(all[i].clone()) {
                Some(s) => {
                    out.push(s);
                },
                None => {
                    proof {
                        lemma_filter_split(recs, f, i + 1);
                        let k = before.filter(f).len() as int;
                        assert(full[k] == rec);
                    }
                    return None;
                },
            }
        }
        i += 1;
    }
    assert(recs.subrange(0, recs.len() as int) =~= recs);
    assert forall|k: int| 0 <= k < full.len() implies rfc3339_of(
        (#[trigger] listed_task_panes(store.records(), pane_id, given)[k]).updated_at,
    ) is Some by {
        assert(task_pane_state_of(full[k], out@[k]));
    }
    Some(out)
}

/// Answers a request to silence (or not) pane `pane_id`'s watchdog: sets it and reports the
/// pane and its setting; an error names the pane where it has no record. Only that pane's
/// setting (and, where it changed, its update time) changes; every other pane and field stays.
pub fn silence_watchdog_reply(store: &mut TaskPaneStore, pane_id: PaneId, silenced: bool) -> (r: Result<
    (PaneId, bool),
    String,
>)
    requires
        old(store).wf(),
    ensures
        final(store).wf(),
        r is Err <==> !old(store)@.dom().contains(pane_id),
        r matches Err(e) ==> e@ == "pane "@ + decimal(pane_id as nat) + " not found"@ && final(store)@ == old(store)@,
        r matches Ok(reply) ==> reply == (pane_id, silenced) && final(store)@.dom().contains(pane_id)
            && final(store)@[pane_id].silenced == silenced,
        r is Ok && old(store)@[pane_id].silenced == silenced ==> final(store)@ == old(store)@,
        r is Ok && old(store)@[pane_id].silenced != silenced ==> {
            let (a, b) = (old(store)@[pane_id], final(store)@[pane_id]);
            &&& stored_as(old(store)@, final(store)@, pane_id, b)
            &&& same_identity(a, b)
            &&& b.current_working_dir == a.current_working_dir
            &&& b.rerun@ == a.rerun@
            &&& b.tee_path == a.tee_path
        },
{
    store.set_silenced(pane_id, silenced);
    match store.task_pane(pane_id) {
        Some(rec) => Ok((rec.pane_id, rec.silenced)),
        None => Err(pane_not_found(pane_id)),
    }
}

/// Answers a request to tee pane `pane_id`'s output to `file_path` (or to stop): sets it and
/// reports the pane and its tee path; an error names the pane where it has no record. Only that
/// pane's tee path (and, where it changed, its update time) changes; every other pane and field
/// stays.
pub fn pipe_pane_reply(store: &mut TaskPaneStore, pane_id: PaneId, file_path: Option<String>) -> (r: Result<
    (PaneId, Option<String>),
    String,
>)
    requires
        old(store).wf(),
    ensures
        final(store).wf(),
        r is Err <==> !old(store)@.dom().contains(pane_id),
        r matches Err(e) ==> e@ == "pane "@ + decimal(pane_id as nat) + " not found"@ && final(store)@ == old(store)@,
        r matches Ok(reply) ==> reply.0 == pane_id && opt_view(reply.1) == opt_view(file_path)
            && final(store)@.dom().contains(pane_id)
            && opt_view(final(store)@[pane_id].tee_path) == opt_view(file_path),
        r is Ok && opt_view(old(store)@[pane_id].tee_path) == opt_view(file_path) ==> final(store)@ == old(store)@,
        r is Ok && opt_view(old(store)@[pane_id].tee_path) != opt_view(file_path) ==> {
            let (a, b) = (old(store)@[pane_id], final(store)@[pane_id]);
            &&& stored_as(old(store)@, final(store)@, pane_id, b)
            &&& same_identity(a, b)
            &&& b.silenced == a.silenced
            &&& b.current_working_dir == a.current_working_dir
            &&& b.rerun@ == a.rerun@
        },
{
    store.set_tee_path(pane_id, file_path);
    match store.task_pane(pane_id) {
        Some(rec) => Ok((rec.pane_id, rec.tee_path)),
        None => Err(pane_not_found(pane_id)),
    }
}

/// The error for a pane without a record.
fn pane_not_found(pane_id: PaneId) -> (r: String)
    ensures
        r@ == "pane "@ + decimal(pane_id as nat) + " not found"@,
{
    let mut msg = chars_of("pane ");
    let d = decimal_chars(pane_id);
    append_chars(&mut msg, d.as_slice());
    let tail = chars_of(" not found");
    append_chars(&mut msg, tail.as_slice());
    string_of(msg.as_slice())
}

} // verus!
