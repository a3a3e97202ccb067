//! The tables that the listing commands print: which columns each has, how they are aligned,
//! and what each row holds. Laying the columns out is left to `tabout`.

use crate::cli::{ListNotificationsCommand, ListTaskPanesCommand, ListWorkspaceLogCommand, ListWorkspaceStatusCommand};
use crate::session::{NotificationRecordState, TaskPaneState, WorkspaceLogState, WorkspaceStatusState};
use crate::text::{bool_chars, bool_text, decimal, decimal_text, owned, string_of, views};
use vstd::prelude::*;

verus! {

/// What `tabout::tabulate_output` writes for columns named `names`, right-aligned where
/// `right_aligned` holds and left-aligned elsewhere, over the rows `rows`: a header line and
/// one line per row, each cell padded to its column's display width.
pub uninterp spec fn tabulated(names: Seq<Seq<char>>, right_aligned: Seq<bool>, rows: Seq<Seq<Seq<char>>>) -> Seq<char>;

/// The texts of the cells of table rows.
pub open spec fn row_views(rows: Seq<Vec<String>>) -> Seq<Seq<Seq<char>>> {
    rows.map_values(|row: Vec<String>| views(row@))
}

/// `tabout::tabulate_output` into memory: the table of `rows` under the columns `names`
/// (right-aligned where `right_aligned` holds), named by `tabulated`.
#[verifier::external_body]
fn tabulate(names: &Vec<String>, right_aligned: &Vec<bool>, rows: &Vec<Vec<String>>) -> (r: String)
    requires
        names@.len() == right_aligned@.len(),
    ensures
        r@ == tabulated(views(names@), right_aligned@, row_views(rows@)),
{
    let columns: Vec<tabout::Column> = names.iter().zip(right_aligned.iter()).map(|(name, right)| tabout::Column {
        name: name.clone(),
        alignment: if *right { tabout::Alignment::Right } else { tabout::Alignment::Left },
    }).collect();
    let mut out: Vec<u8> = Vec::new();
    let _ = tabout::tabulate_output(&columns, rows, &mut out);
    String::from_utf8_lossy(&out).into_owned()
}

proof fn lemma_row_views_push(rows: Seq<Vec<String>>, row: Vec<String>)
    ensures
        row_views(rows.push(row)) == row_views(rows).push(views(row@)),
{
    assert(row_views(rows.push(row)) =~= row_views(rows).push(views(row@)));
}

/// An optional id as a table shows it: its digits, or nothing.
pub open spec fn id_text(id: Option<u64>) -> Seq<char> {
    match id {
        Some(i) => decimal(i as nat),
        None => Seq::empty(),
    }
}

/// An optional text as a table shows it: the text, or nothing.
pub open spec fn text_or_empty(t: Option<String>) -> Seq<char> {
    match t {
        Some(s) => s@,
        None => Seq::empty(),
    }
}

fn id_string(id: Option<u64>) -> (r: String)
    ensures
        r@ == id_text(id),
{
    match id {
        Some(i) => decimal_text(i),
        None => String::new(),
    }
}

fn text_or_empty_string(t: &Option<String>) -> (r: String)
    ensures
        r@ == text_or_empty(*t),
{
    match t {
        Some(s) => s.clone(),
        None => String::new(),
    }
}

fn bool_string(b: bool) -> (r: String)
    ensures
        r@ == bool_text(b),
{
    string_of(bool_chars(b).as_slice())
}

/// The columns of the notification table.
pub open spec fn notification_columns() -> Seq<Seq<char>> {
    seq![
        "NOTIFICATION_ID"@,
        "WORKSPACE"@,
        "WINDOW_ID"@,
        "TAB_ID"@,
        "PANE_ID"@,
        "UNREAD"@,
        "UNREAD_MODE"@,
        "KIND"@,
        "TITLE"@,
    ]
}

/// Which columns of the notification table are right-aligned: the three ids.
pub open spec fn notification_alignment() -> Seq<bool> {
    seq![false, false, true, true, true, false, false, false, false]
}

/// The row of the notification table for `n`.
pub open spec fn notification_row(n: NotificationRecordState) -> Seq<Seq<char>> {
    seq![
        n.notification_id@,
        n.workspace@,
        id_text(n.window_id),
        id_text(n.tab_id),
        id_text(n.pane_id),
        bool_text(n.unread),
        n.unread_mode@,
        n.kind@,
        n.title@,
    ]
}

fn notification_cells(n: &NotificationRecordState) -> (r: Vec<String>)
    ensures
        views(r@) == notification_row(*n),
{
    let mut r: Vec<String> = Vec::new();
    r.push(n.notification_id.clone());
    r.push(n.workspace.clone());
    r.push(id_string(n.window_id));
    r.push(id_string(n.tab_id));
    r.push(id_string(n.pane_id));
    r.push(bool_string(n.unread));
    r.push(n.unread_mode.clone());
    r.push(n.kind.clone());
    r.push(n.title.clone());
    assert(views(r@) =~= notification_row(*n));
    r
}

impl ListNotificationsCommand {
    /// The rows of the notification table, one per notification, in order.
    pub fn table_rows(notifications: &[NotificationRecordState]) -> (r: Vec<Vec<String>>)
        ensures
            row_views(r@) == notifications@.map_values(|n: NotificationRecordState| notification_row(n)),
    {
        let ghost f = |n: NotificationRecordState| notification_row(n);
        let mut r: Vec<Vec<String>> = Vec::new();
        let mut i: usize = 0;
        while i < notifications.len()
            invariant
                i <= notifications@.len(),
                f == (|n: NotificationRecordState| notification_row(n)),
                row_views(r@) == notifications@.subrange(0, i as int).map_values(f),
            decreases notifications@.len() - i,
        {
            let row = notification_cells(&notifications[i]);
            let ghost before = r@;
            r.push(row);
            proof {
                lemma_row_views_push(before, row);
                assert(notifications@.subrange(0, i + 1) =~= notifications@.subrange(0, i as int).push(
                    notifications@[i as int],
                ));
                assert(notifications@.subrange(0, i + 1).map_values(f) =~= notifications@.subrange(
                    0,
                    i as int,
                ).map_values(f).push(f(notifications@[i as int])));
            }
            i += 1;
        }
        assert(notifications@.subrange(0, notifications@.len() as int) =~= notifications@);
        r
    }

    /// The notification table: the columns of `notification_columns`, the ids right-aligned,
    /// one row per notification.
    pub fn render_table(notifications: &[NotificationRecordState]) -> (r: String)
        ensures
            r@ == tabulated(
                notification_columns(),
                notification_alignment(),
                notifications@.map_values(|n: NotificationRecordState| notification_row(n)),
            ),
    {
        let mut names: Vec<String> = Vec::new();
        names.push(owned("NOTIFICATION_ID"));
        names.push(owned("WORKSPACE"));
        names.push(owned("WINDOW_ID"));
        names.push(owned("TAB_ID"));
        names.push(owned("PANE_ID"));
        names.push(owned("UNREAD"));
        names.push(owned("UNREAD_MODE"));
        names.push(owned("KIND"));
        names.push(owned("TITLE"));
        let mut right: Vec<bool> = Vec::new();
        right.push(false);
        right.push(false);
        right.push(true);
        right.push(true);
        right.push(true);
        right.push(false);
        right.push(false);
        right.push(false);
        right.push(false);
        assert(views(names@) =~= notification_columns());
        assert(right@ =~= notification_alignment());
        let rows = Self::table_rows(notifications);
        tabulate(&names, &right, &rows)
    }
}

/// The columns of the log table.
pub open spec fn log_columns() -> Seq<Seq<char>> {
    seq![
        "WORKSPACE"@,
        "SEQ"@,
        "MESSAGE"@,
        "CREATED_AT"@,
    ]
}

/// The alignment of the log table: every column left-aligned.
pub open spec fn log_alignment() -> Seq<bool> {
    seq![false, false, false, false]
}

/// The row of the log table for `e`.
pub open spec fn log_row(e: WorkspaceLogState) -> Seq<Seq<char>> {
    seq![
        e.workspace@,
        decimal(e.seq as nat),
        e.message@,
        e.created_at@,
    ]
}

fn log_cells(e: &WorkspaceLogState) -> (r: Vec<String>)
    ensures
        views(r@) == log_row(*e),
{
    let mut r: Vec<String> = Vec::new();
    r.push(e.workspace.clone());
    r.push(decimal_text(e.seq));
    r.push(e.message.clone());
    r.push(e.created_at.clone());
    assert(views(r@) =~= log_row(*e));
    r
}

impl ListWorkspaceLogCommand {
    /// The rows of the log table, one row per line, in order.
    pub fn table_rows(entries: &[WorkspaceLogState]) -> (r: Vec<Vec<String>>)
        ensures
            row_views(r@) == entries@.map_values(|e: WorkspaceLogState| log_row(e)),
    {
        let ghost f = |e: WorkspaceLogState| log_row(e);
        let mut r: Vec<Vec<String>> = Vec::new();
        let mut i: usize = 0;
        while i < entries.len()
            invariant
                i <= entries@.len(),
                f == (|e: WorkspaceLogState| log_row(e)),
                row_views(r@) == entries@.subrange(0, i as int).map_values(f),
            decreases entries@.len() - i,
        {
            let row = log_cells(&entries[i]);
            let ghost before = r@;
            r.push(row);
            proof {
                lemma_row_views_push(before, row);
                assert(entries@.subrange(0, i + 1) =~= entries@.subrange(0, i as int).push(entries@[i as int]));
                assert(entries@.subrange(0, i + 1).map_values(f) =~= entries@.subrange(0, i as int).map_values(f).push(
                    f(entries@[i as int]),
                ));
            }
            i += 1;
        }
        assert(entries@.subrange(0, entries@.len() as int) =~= entries@);
        r
    }

    /// The log table: the columns of `log_columns`, all left-aligned, one row per line.
    pub fn render_table(entries: &[WorkspaceLogState]) -> (r: String)
        ensures
            r@ == tabulated(log_columns(), log_alignment(), entries@.map_values(|e: WorkspaceLogState| log_row(e))),
    {
        let mut names: Vec<String> = Vec::new();
        names.push(owned("WORKSPACE"));
        names.push(owned("SEQ"));
        names.push(owned("MESSAGE"));
        names.push(owned("CREATED_AT"));
        let mut right: Vec<bool> = Vec::new();
        right.push(false);
        right.push(false);
        right.push(false);
        right.push(false);
        assert(views(names@) =~= log_columns());
        assert(right@ =~= log_alignment());
        let rows = Self::table_rows(entries);
        tabulate(&names, &right, &rows)
    }
}

/// The columns of the status table.
pub open spec fn status_columns() -> Seq<Seq<char>> {
    seq![
        "WORKSPACE"@,
        "STATUS"@,
        "UPDATED_AT"@,
    ]
}

/// The alignment of the status table: every column left-aligned.
pub open spec fn status_alignment() -> Seq<bool> {
    seq![false, false, false]
}

/// The row of the status table for `e`.
pub open spec fn status_row(e: WorkspaceStatusState) -> Seq<Seq<char>> {
    seq![
        e.workspace@,
        e.status@,
        e.updated_at@,
    ]
}

fn status_cells(e: &WorkspaceStatusState) -> (r: Vec<String>)
    ensures
        views(r@) == status_row(*e),
{
    let mut r: Vec<String> = Vec::new();
    r.push(e.workspace.clone());
    r.push(e.status.clone());
    r.push(e.updated_at.clone());
    assert(views(r@) =~= status_row(*e));
    r
}

impl ListWorkspaceStatusCommand {
    /// The rows of the status table, one row per status, in order.
    pub fn table_rows(statuses: &[WorkspaceStatusState]) -> (r: Vec<Vec<String>>)
        ensures
            row_views(r@) == statuses@.map_values(|e: WorkspaceStatusState| status_row(e)),
    {
        let ghost f = |e: WorkspaceStatusState| status_row(e);
        let mut r: Vec<Vec<String>> = Vec::new();
        let mut i: usize = 0;
        while i < statuses.len()
            invariant
                i <= statuses@.len(),
                f == (|e: WorkspaceStatusState| status_row(e)),
                row_views(r@) == statuses@.subrange(0, i as int).map_values(f),
            decreases statuses@.len() - i,
        {
            let row = status_cells(&statuses[i]);
            let ghost before = r@;
            r.push(row);
            proof {
                lemma_row_views_push(before, row);
                assert(statuses@.subrange(0, i + 1) =~= statuses@.subrange(0, i as int).push(statuses@[i as int]));
                assert(statuses@.subrange(0, i + 1).map_values(f) =~= statuses@.subrange(0, i as int).map_values(f).push(
                    f(statuses@[i as int]),
                ));
            }
            i += 1;
        }
        assert(statuses@.subrange(0, statuses@.len() as int) =~= statuses@);
        r
    }

    /// The status table: the columns of `status_columns`, all left-aligned, one row per
    /// status.
    pub fn render_table(statuses: &[WorkspaceStatusState]) -> (r: String)
        ensures
            r@ == tabulated(status_columns(), status_alignment(), statuses@.map_values(|e: WorkspaceStatusState| status_row(e))),
    {
        let mut names: Vec<String> = Vec::new();
        names.push(owned("WORKSPACE"));
        names.push(owned("STATUS"));
        names.push(owned("UPDATED_AT"));
        let mut right: Vec<bool> = Vec::new();
        right.push(false);
        right.push(false);
        right.push(false);
        assert(views(names@) =~= status_columns());
        assert(right@ =~= status_alignment());
        let rows = Self::table_rows(statuses);
        tabulate(&names, &right, &rows)
    }
}

/// The columns of the task pane table.
pub open spec fn task_pane_columns() -> Seq<Seq<char>> {
    seq![
        "PANE_ID"@,
        "WORKSPACE"@,
        "REMAIN_ON_EXIT"@,
        "SILENCED"@,
        "DEAD"@,
        "FAILED"@,
        "RERUN"@,
        "TEE_PATH"@,
        "UPDATED_AT"@,
    ]
}

/// The alignment of the task pane table: every column left-aligned.
pub open spec fn task_pane_alignment() -> Seq<bool> {
    seq![false, false, false, false, false, false, false, false, false]
}

/// The row of the task pane table for `e`.
pub open spec fn task_pane_row(e: TaskPaneState) -> Seq<Seq<char>> {
    seq![
        decimal(e.pane_id as nat),
        text_or_empty(e.workspace),
        bool_text(e.remain_on_exit),
        bool_text(e.silenced),
        bool_text(e.is_dead),
        bool_text(e.is_failed),
        bool_text(e.rerun_available),
        text_or_empty(e.tee_path),
        e.updated_at@,
    ]
}

fn task_pane_cells(e: &TaskPaneState) -> (r: Vec<String>)
    ensures
        views(r@) == task_pane_row(*e),
{
    let mut r: Vec<String> = Vec::new();
    r.push(decimal_text(e.pane_id));
    r.push(text_or_empty_string(&e.workspace));
    r.push(bool_string(e.remain_on_exit));
    r.push(bool_string(e.silenced));
    r.push(bool_string(e.is_dead));
    r.push(bool_string(e.is_failed));
    r.push(bool_string(e.rerun_available));
    r.push(text_or_empty_string(&e.tee_path));
    r.push(e.updated_at.clone());
    assert(views(r@) =~= task_pane_row(*e));
    r
}

impl ListTaskPanesCommand {
    /// The rows of the task pane table, one row per task pane, in order.
    pub fn table_rows(task_panes: &[TaskPaneState]) -> (r: Vec<Vec<String>>)
        ensures
            row_views(r@) == task_panes@.map_values(|e: TaskPaneState| task_pane_row(e)),
    {
        let ghost f = |e: TaskPaneState| task_pane_row(e);
        let mut r: Vec<Vec<String>> = Vec::new();
        let mut i: usize = 0;
        while i < task_panes.len()
            invariant
                i <= task_panes@.len(),
                f == (|e: TaskPaneState| task_pane_row(e)),
                row_views(r@) == task_panes@.subrange(0, i as int).map_values(f),
            decreases task_panes@.len() - i,
        {
            let row = task_pane_cells(&task_panes[i]);
            let ghost before = r@;
            r.push(row);
            proof {
                lemma_row_views_push(before, row);
                assert(task_panes@.subrange(0, i + 1) =~= task_panes@.subrange(0, i as int).push(task_panes@[i as int]));
                assert(task_panes@.subrange(0, i + 1).map_values(f) =~= task_panes@.subrange(0, i as int).map_values(f).push(
                    f(task_panes@[i as int]),
                ));
            }
            i += 1;
        }
        assert(task_panes@.subrange(0, task_panes@.len() as int) =~= task_panes@);
        r
    }

    /// The task pane table: the columns of `task_pane_columns`, all left-aligned, one row per
    /// task pane.
    pub fn render_table(task_panes: &[TaskPaneState]) -> (r: String)
        ensures
            r@ == tabulated(task_pane_columns(), task_pane_alignment(), task_panes@.map_values(|e: TaskPaneState| task_pane_row(e))),
    {
        let mut names: Vec<String> = Vec::new();
        names.push(owned("PANE_ID"));
        names.push(owned("WORKSPACE"));
        names.push(owned("REMAIN_ON_EXIT"));
        names.push(owned("SILENCED"));
        names.push(owned("DEAD"));
        names.push(owned("FAILED"));
        names.push(owned("RERUN"));
        names.push(owned("TEE_PATH"));
        names.push(owned("UPDATED_AT"));
        let mut right: Vec<bool> = Vec::new();
        right.push(false);
        right.push(false);
        right.push(false);
        right.push(false);
        right.push(false);
        right.push(false);
        right.push(false);
        right.push(false);
        right.push(false);
        assert(views(names@) =~= task_pane_columns());
        assert(right@ =~= task_pane_alignment());
        let rows = Self::table_rows(task_panes);
        tabulate(&names, &right, &rows)
    }
}

} // verus!
