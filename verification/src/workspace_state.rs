//! Per-workspace metadata: a status line, a progress value and a bounded activity log.

use crate::seq_facts::{lemma_filter_all_or_none, lemma_filter_elem, lemma_filter_keeps_order, lemma_filter_len_pointwise, lemma_filter_push, lemma_filter_remove_len, lemma_filter_weaker_first};
use crate::text::{contains_text, owned, str_eq, views};
use crate::time::{utc_now, Timestamp};
use vstd::prelude::*;

verus! {

/// The most log records kept for one workspace; older ones are dropped first.
pub const WORKSPACE_LOG_CAP: usize = 200;

/// The status line of a workspace.
#[derive(Debug, PartialEq, Eq)]
pub struct WorkspaceStatusRecord {
    pub workspace: String,
    pub status: String,
    pub updated_at: Timestamp,
}

impl Clone for WorkspaceStatusRecord {
    fn clone(&self) -> (r: Self)
        ensures
            r == *self,
    {
        WorkspaceStatusRecord {
            workspace: self.workspace.clone(),
            status: self.status.clone(),
            updated_at: self.updated_at,
        }
    }
}

/// The progress of a workspace, in percent.
#[derive(Debug, PartialEq, Eq)]
pub struct WorkspaceProgressRecord {
    pub workspace: String,
    pub value: u8,
    pub updated_at: Timestamp,
}

impl Clone for WorkspaceProgressRecord {
    fn clone(&self) -> (r: Self)
        ensures
            r == *self,
    {
        WorkspaceProgressRecord {
            workspace: self.workspace.clone(),
            value: self.value,
            updated_at: self.updated_at,
        }
    }
}

/// One line of a workspace's activity log.
#[derive(Debug, PartialEq, Eq)]
pub struct WorkspaceLogRecord {
    pub workspace: String,
    pub seq: u64,
    pub message: String,
    pub created_at: Timestamp,
}

impl Clone for WorkspaceLogRecord {
    fn clone(&self) -> (r: Self)
        ensures
            r == *self,
    {
        WorkspaceLogRecord {
            workspace: self.workspace.clone(),
            seq: self.seq,
            message: self.message.clone(),
            created_at: self.created_at,
        }
    }
}

/// Why a progress value was refused.
#[derive(Debug, PartialEq, Eq, Structural)]
pub enum WorkspaceProgressError {
    /// The value is above 100.
    OutOfRange(u8),
}

/// Some status record belongs to `w`.
pub open spec fn has_status(s: Seq<WorkspaceStatusRecord>, w: Seq<char>) -> bool {
    exists|k: int| 0 <= k < s.len() && #[trigger] s[k].workspace@ == w
}

/// Some progress record belongs to `w`.
pub open spec fn has_progress(s: Seq<WorkspaceProgressRecord>, w: Seq<char>) -> bool {
    exists|k: int| 0 <= k < s.len() && #[trigger] s[k].workspace@ == w
}

/// Some log record belongs to `w`.
pub open spec fn has_log(s: Seq<WorkspaceLogRecord>, w: Seq<char>) -> bool {
    exists|k: int| 0 <= k < s.len() && #[trigger] s[k].workspace@ == w
}

/// No two status records share a workspace.
pub open spec fn statuses_unique(s: Seq<WorkspaceStatusRecord>) -> bool {
    forall|i: int, j: int|
        0 <= i < s.len() && 0 <= j < s.len() && i != j ==> #[trigger] s[i].workspace@
            != #[trigger] s[j].workspace@
}

/// No two progress records share a workspace.
pub open spec fn progresses_unique(s: Seq<WorkspaceProgressRecord>) -> bool {
    forall|i: int, j: int|
        0 <= i < s.len() && 0 <= j < s.len() && i != j ==> #[trigger] s[i].workspace@
            != #[trigger] s[j].workspace@
}

/// Log sequence numbers increase strictly along the log.
pub open spec fn seqs_increasing(s: Seq<WorkspaceLogRecord>) -> bool {
    forall|i: int, j: int| 0 <= i < j < s.len() ==> #[trigger] s[i].seq < #[trigger] s[j].seq
}

/// Holds of log records of workspace `w`.
pub open spec fn of_workspace(w: Seq<char>) -> spec_fn(WorkspaceLogRecord) -> bool {
    |r: WorkspaceLogRecord| r.workspace@ == w
}

/// Holds of log records of any workspace but `w`.
pub open spec fn not_of_workspace(w: Seq<char>) -> spec_fn(WorkspaceLogRecord) -> bool {
    |r: WorkspaceLogRecord| r.workspace@ != w
}

/// The log records of workspace `w`, oldest first.
pub open spec fn logs_of(s: Seq<WorkspaceLogRecord>, w: Seq<char>) -> Seq<WorkspaceLogRecord> {
    s.filter(of_workspace(w))
}

/// The first index of a log record of `w`.
pub open spec fn first_log_of(s: Seq<WorkspaceLogRecord>, w: Seq<char>, k: int) -> bool {
    0 <= k < s.len() && s[k].workspace@ == w && forall|j: int| 0 <= j < k ==> s[j].workspace@ != w
}

/// `log` with `rec` appended, its workspace's oldest record dropped where that workspace would
/// hold more than `WORKSPACE_LOG_CAP` records.
pub open spec fn capped_append(log: Seq<WorkspaceLogRecord>, rec: WorkspaceLogRecord) -> Seq<
    WorkspaceLogRecord,
> {
    let appended = log.push(rec);
    if logs_of(appended, rec.workspace@).len() > WORKSPACE_LOG_CAP {
        let k = choose|k: int| first_log_of(appended, rec.workspace@, k);
        appended.remove(k)
    } else {
        appended
    }
}

/// `s` with every record of `from` moved to workspace `to`, nothing else changed.
pub open spec fn statuses_renamed(
    s: Seq<WorkspaceStatusRecord>,
    t: Seq<WorkspaceStatusRecord>,
    from: Seq<char>,
    to: Seq<char>,
) -> bool {
    &&& t.len() == s.len()
    &&& forall|i: int|
        0 <= i < s.len() ==> if (#[trigger] s[i]).workspace@ == from {
            t[i].workspace@ == to && t[i].status == s[i].status && t[i].updated_at == s[i].updated_at
        } else {
            t[i] == s[i]
        }
}

/// `s` with every record of `from` moved to workspace `to`, nothing else changed.
pub open spec fn progresses_renamed(
    s: Seq<WorkspaceProgressRecord>,
    t: Seq<WorkspaceProgressRecord>,
    from: Seq<char>,
    to: Seq<char>,
) -> bool {
    &&& t.len() == s.len()
    &&& forall|i: int|
        0 <= i < s.len() ==> if (#[trigger] s[i]).workspace@ == from {
            t[i].workspace@ == to && t[i].value == s[i].value && t[i].updated_at == s[i].updated_at
        } else {
            t[i] == s[i]
        }
}

/// `s` with every record of `from` moved to workspace `to`, nothing else changed.
pub open spec fn logs_renamed(
    s: Seq<WorkspaceLogRecord>,
    t: Seq<WorkspaceLogRecord>,
    from: Seq<char>,
    to: Seq<char>,
) -> bool {
    &&& t.len() == s.len()
    &&& forall|i: int|
        0 <= i < s.len() ==> if (#[trigger] s[i]).workspace@ == from {
            t[i].workspace@ == to && t[i].seq == s[i].seq && t[i].message == s[i].message
                && t[i].created_at == s[i].created_at
        } else {
            t[i] == s[i]
        }
}


/// Holds of status records of any workspace but `w`.
pub open spec fn status_not_of(w: Seq<char>) -> spec_fn(WorkspaceStatusRecord) -> bool {
    |r: WorkspaceStatusRecord| r.workspace@ != w
}

/// Holds of progress records of any workspace but `w`.
pub open spec fn progress_not_of(w: Seq<char>) -> spec_fn(WorkspaceProgressRecord) -> bool {
    |r: WorkspaceProgressRecord| r.workspace@ != w
}

/// `t` is `s` with the record of `w` (where there is one) replaced by a record of `w` whose
/// status is `status`, or with such a record appended where there is none.
pub open spec fn status_upserted(
    s: Seq<WorkspaceStatusRecord>,
    t: Seq<WorkspaceStatusRecord>,
    w: Seq<char>,
    status: Seq<char>,
) -> bool {
    if has_status(s, w) {
        &&& t.len() == s.len()
        &&& forall|k: int|
            0 <= k < s.len() ==> if (#[trigger] s[k]).workspace@ == w {
                t[k].workspace@ == w && t[k].status@ == status
            } else {
                t[k] == s[k]
            }
    } else {
        &&& t.len() == s.len() + 1
        &&& t.subrange(0, s.len() as int) == s
        &&& t.last().workspace@ == w
        &&& t.last().status@ == status
    }
}

/// `t` is `s` with the record of `w` (where there is one) replaced by a record of `w` whose
/// value is `value`, or with such a record appended where there is none.
pub open spec fn progress_upserted(
    s: Seq<WorkspaceProgressRecord>,
    t: Seq<WorkspaceProgressRecord>,
    w: Seq<char>,
    value: u8,
) -> bool {
    if has_progress(s, w) {
        &&& t.len() == s.len()
        &&& forall|k: int|
            0 <= k < s.len() ==> if (#[trigger] s[k]).workspace@ == w {
                t[k].workspace@ == w && t[k].value == value
            } else {
                t[k] == s[k]
            }
    } else {
        &&& t.len() == s.len() + 1
        &&& t.subrange(0, s.len() as int) == s
        &&& t.last().workspace@ == w
        &&& t.last().value == value
    }
}

/// The record of `w`, where there is one.
pub open spec fn status_lookup(s: Seq<WorkspaceStatusRecord>, w: Seq<char>, r: Option<WorkspaceStatusRecord>) -> bool {
    &&& r matches Some(rec) ==> exists|k: int| 0 <= k < s.len() && s[k] == rec && #[trigger] s[k].workspace@ == w
    &&& r is None ==> !has_status(s, w)
}

/// The record of `w`, where there is one.
pub open spec fn progress_lookup(s: Seq<WorkspaceProgressRecord>, w: Seq<char>, r: Option<WorkspaceProgressRecord>) -> bool {
    &&& r matches Some(rec) ==> exists|k: int| 0 <= k < s.len() && s[k] == rec && #[trigger] s[k].workspace@ == w
    &&& r is None ==> !has_progress(s, w)
}

/// Status, progress and log of every workspace, and the last log sequence number handed out.
pub struct WorkspaceStateStore {
    statuses: Vec<WorkspaceStatusRecord>,
    progresses: Vec<WorkspaceProgressRecord>,
    logs: Vec<WorkspaceLogRecord>,
    next_log_seq: u64,
}

impl WorkspaceStateStore {
    /// The status records, in the order their workspaces first got one.
    pub closed spec fn statuses(&self) -> Seq<WorkspaceStatusRecord> {
        self.statuses@
    }

    /// The progress records, in the order their workspaces first got one.
    pub closed spec fn progresses(&self) -> Seq<WorkspaceProgressRecord> {
        self.progresses@
    }

    /// Every log record held, oldest first.
    pub closed spec fn logs(&self) -> Seq<WorkspaceLogRecord> {
        self.logs@
    }

    /// The last log sequence number handed out (0 before the first).
    pub closed spec fn last_seq(&self) -> u64 {
        self.next_log_seq
    }

    /// The store's invariant: one status and one progress record per workspace at most,
    /// progress within 0..=100, log sequence numbers increasing and never above the last one
    /// handed out, and at most `WORKSPACE_LOG_CAP` log records per workspace.
    pub open spec fn wf(&self) -> bool {
        &&& statuses_unique(self.statuses())
        &&& progresses_unique(self.progresses())
        &&& forall|k: int| 0 <= k < self.progresses().len() ==> #[trigger] self.progresses()[k].value <= 100
        &&& seqs_increasing(self.logs())
        &&& forall|k: int| 0 <= k < self.logs().len() ==> #[trigger] self.logs()[k].seq <= self.last_seq()
        &&& forall|w: Seq<char>| #[trigger] logs_of(self.logs(), w).len() <= WORKSPACE_LOG_CAP
    }

    /// An empty store.
    pub fn new() -> (s: Self)
        ensures
            s.wf(),
            s.statuses().len() == 0,
            s.progresses().len() == 0,
            s.logs().len() == 0,
            s.last_seq() == 0,
    {
        let s = WorkspaceStateStore {
            statuses: Vec::new(),
            progresses: Vec::new(),
            logs: Vec::new(),
            next_log_seq: 0,
        };
        assert forall|w: Seq<char>| #[trigger] logs_of(s.logs(), w).len() <= WORKSPACE_LOG_CAP by {
            reveal(Seq::filter);
        }
        s
    }

    /// The index of the status record of `w`.
    fn status_index(&self, w: &str) -> (r: Option<usize>)
        ensures
            r matches Some(k) ==> k < self.statuses().len() && self.statuses()[k as int].workspace@ == w@,
            r is None ==> !has_status(self.statuses(), w@),
    {
        let mut i: usize = 0;
        while i < self.statuses.len()
            invariant
                i <= self.statuses@.len(),
                forall|j: int| 0 <= j < i ==> #[trigger] self.statuses@[j].workspace@ != w@,
            decreases self.statuses@.len() - i,
        {
            if str_eq(self.statuses[i].workspace.as_str(), w) {
                return Some(i);
            }
            i += 1;
        }
        None
    }

    /// The index of the progress record of `w`.
    fn progress_index(&self, w: &str) -> (r: Option<usize>)
        ensures
            r matches Some(k) ==> k < self.progresses().len() && self.progresses()[k as int].workspace@ == w@,
            r is None ==> !has_progress(self.progresses(), w@),
    {
        let mut i: usize = 0;
        while i < self.progresses.len()
            invariant
                i <= self.progresses@.len(),
                forall|j: int| 0 <= j < i ==> #[trigger] self.progresses@[j].workspace@ != w@,
            decreases self.progresses@.len() - i,
        {
            if str_eq(self.progresses[i].workspace.as_str(), w) {
                return Some(i);
            }
            i += 1;
        }
        None
    }

    /// Sets the status line of `workspace`, replacing any earlier one; always reports a change.
    pub fn set_status(&mut self, workspace: &str, status: &str) -> (r: bool)
        requires
            old(self).wf(),
        ensures
            final(self).wf(),
            r,
            status_upserted(old(self).statuses(), final(self).statuses(), workspace@, status@),
            final(self).progresses() == old(self).progresses(),
            final(self).logs() == old(self).logs(),
            final(self).last_seq() == old(self).last_seq(),
    {
        let rec = WorkspaceStatusRecord {
            workspace: owned(workspace),
            status: owned(status),
            updated_at: utc_now(),
        };
        let ghost before = self.statuses@;
        match self.status_index(workspace) {
            Some(k) => {
                self.statuses.set(k, rec);
                assert forall|i: int, j: int|
                    0 <= i < self.statuses@.len() && 0 <= j < self.statuses@.len() && i != j implies #[trigger] self.statuses@[i].workspace@
                    != #[trigger] self.statuses@[j].workspace@ by {
                    if i != k && j != k {
                        assert(self.statuses@[i] == before[i] && self.statuses@[j] == before[j]);
                    } else if i == k {
                        assert(self.statuses@[j] == before[j]);
                        assert(before[k as int].workspace@ == workspace@);
                    } else {
                        assert(self.statuses@[i] == before[i]);
                        assert(before[k as int].workspace@ == workspace@);
                    }
                }
                assert forall|x: int| 0 <= x < before.len() && (#[trigger] before[x]).workspace@ == workspace@ implies x == k by {
                    if x != k {
                        assert(before[k as int].workspace@ == workspace@);
                    }
                }
            },
            None => {
                self.statuses.push(rec);
                assert(self.statuses@.subrange(0, before.len() as int) =~= before);
                assert forall|i: int, j: int|
                    0 <= i < self.statuses@.len() && 0 <= j < self.statuses@.len() && i != j implies #[trigger] self.statuses@[i].workspace@
                    != #[trigger] self.statuses@[j].workspace@ by {
                    if i < before.len() && j < before.len() {
                        assert(self.statuses@[i] == before[i] && self.statuses@[j] == before[j]);
                    } else if i < before.len() {
                        assert(self.statuses@[i] == before[i]);
                    } else {
                        assert(self.statuses@[j] == before[j]);
                    }
                }
            },
        }
        true
    }

    /// Removes the status line of `workspace`; reports whether there was one.
    pub fn clear_status(&mut self, workspace: &str) -> (r: bool)
        requires
            old(self).wf(),
        ensures
            final(self).wf(),
            r == has_status(old(self).statuses(), workspace@),
            final(self).statuses() == old(self).statuses().filter(status_not_of(workspace@)),
            final(self).progresses() == old(self).progresses(),
            final(self).logs() == old(self).logs(),
            final(self).last_seq() == old(self).last_seq(),
    {
        let ghost start = self.statuses@;
        let ghost p = status_not_of(workspace@);
        let mut kept: Vec<WorkspaceStatusRecord> = Vec::new();
        let mut found = false;
        let mut i: usize = 0;
        while i < self.statuses.len()
            invariant
                i <= self.statuses@.len(),
                start == self.statuses@,
                p == status_not_of(workspace@),
                kept@ == start.subrange(0, i as int).filter(p),
                found == exists|j: int| 0 <= j < i && #[trigger] start[j].workspace@ == workspace@,
            decreases self.statuses@.len() - i,
        {
            reveal(Seq::filter);
            assert(start.subrange(0, i + 1).drop_last() =~= start.subrange(0, i as int));
            if str_eq(self.statuses[i].workspace.as_str(), workspace) {
                found = true;
            } else {
                kept.push(self.statuses[i].clone());
            }
            i += 1;
        }
        assert(start.subrange(0, start.len() as int) =~= start);
        self.statuses = kept;
        proof {
            let rel = |a: WorkspaceStatusRecord, b: WorkspaceStatusRecord| a.workspace@ != b.workspace@;
            assert forall|i: int, j: int| 0 <= i < j < start.len() implies #[trigger] rel(start[i], start[j]) by {}
            lemma_filter_keeps_order(start, p, rel);
            let f = start.filter(p);
            assert forall|i: int, j: int|
                0 <= i < f.len() && 0 <= j < f.len() && i != j implies #[trigger] f[i].workspace@
                != #[trigger] f[j].workspace@ by {
                if i < j {
                    assert(rel(f[i], f[j]));
                } else {
                    assert(rel(f[j], f[i]));
                }
            }
        }
        found
    }

    /// Every status record, in the order their workspaces first got one.
    pub fn list_status(&self) -> (r: Vec<WorkspaceStatusRecord>)
        ensures
            r@ == self.statuses(),
    {
        let mut r: Vec<WorkspaceStatusRecord> = Vec::new();
        let mut i: usize = 0;
        while i < self.statuses.len()
            invariant
                i <= self.statuses@.len(),
                r@ == self.statuses@.subrange(0, i as int),
            decreases self.statuses@.len() - i,
        {
            r.push(self.statuses[i].clone());
            i += 1;
            assert(r@ =~= self.statuses@.subrange(0, i as int));
        }
        assert(r@ =~= self.statuses@);
        r
    }

    /// The status record of `workspace`.
    pub fn status_for_workspace(&self, workspace: &str) -> (r: Option<WorkspaceStatusRecord>)
        ensures
            status_lookup(self.statuses(), workspace@, r),
    {
        match self.status_index(workspace) {
            Some(k) => Some(self.statuses[k].clone()),
            None => None,
        }
    }

    /// Sets the progress of `workspace` to `value`, replacing any earlier one; refuses a value
    /// above 100 and leaves the store unchanged then.
    pub fn set_progress(&mut self, workspace: &str, value: u8) -> (r: Result<bool, WorkspaceProgressError>)
        requires
            old(self).wf(),
        ensures
            final(self).wf(),
            value > 100 ==> r == Err::<bool, WorkspaceProgressError>(WorkspaceProgressError::OutOfRange(value))
                && final(self).progresses() == old(self).progresses(),
            value <= 100 ==> r == Ok::<bool, WorkspaceProgressError>(true) && progress_upserted(
                old(self).progresses(),
                final(self).progresses(),
                workspace@,
                value,
            ),
            final(self).statuses() == old(self).statuses(),
            final(self).logs() == old(self).logs(),
            final(self).last_seq() == old(self).last_seq(),
    {
        if value > 100 {
            return Err(WorkspaceProgressError::OutOfRange(value));
        }
        let rec = WorkspaceProgressRecord { workspace: owned(workspace), value, updated_at: utc_now() };
        let ghost before = self.progresses@;
        match self.progress_index(workspace) {
            Some(k) => {
                self.progresses.set(k, rec);
                assert forall|i: int, j: int|
                    0 <= i < self.progresses@.len() && 0 <= j < self.progresses@.len() && i != j implies #[trigger] self.progresses@[i].workspace@
                    != #[trigger] self.progresses@[j].workspace@ by {
                    if i != k && j != k {
                        assert(self.progresses@[i] == before[i] && self.progresses@[j] == before[j]);
                    } else if i == k {
                        assert(self.progresses@[j] == before[j]);
                        assert(before[k as int].workspace@ == workspace@);
                    } else {
                        assert(self.progresses@[i] == before[i]);
                        assert(before[k as int].workspace@ == workspace@);
                    }
                }
                assert forall|x: int| 0 <= x < before.len() && (#[trigger] before[x]).workspace@ == workspace@ implies x == k by {
                    if x != k {
                        assert(before[k as int].workspace@ == workspace@);
                    }
                }
                assert forall|x: int| 0 <= x < self.progresses@.len() implies #[trigger] self.progresses@[x].value <= 100 by {
                    if x != k {
                        assert(self.progresses@[x] == before[x]);
                    }
                }
            },
            None => {
                self.progresses.push(rec);
                assert(self.progresses@.subrange(0, before.len() as int) =~= before);
                assert forall|i: int, j: int|
                    0 <= i < self.progresses@.len() && 0 <= j < self.progresses@.len() && i != j implies #[trigger] self.progresses@[i].workspace@
                    != #[trigger] self.progresses@[j].workspace@ by {
                    if i < before.len() && j < before.len() {
                        assert(self.progresses@[i] == before[i] && self.progresses@[j] == before[j]);
                    } else if i < before.len() {
                        assert(self.progresses@[i] == before[i]);
                    } else {
                        assert(self.progresses@[j] == before[j]);
                    }
                }
                assert forall|x: int| 0 <= x < self.progresses@.len() implies #[trigger] self.progresses@[x].value <= 100 by {
                    if x < before.len() {
                        assert(self.progresses@[x] == before[x]);
                    }
                }
            },
        }
        Ok(true)
    }

    /// Removes the progress of `workspace`; reports whether there was one.
    pub fn clear_progress(&mut self, workspace: &str) -> (r: bool)
        requires
            old(self).wf(),
        ensures
            final(self).wf(),
            r == has_progress(old(self).progresses(), workspace@),
            final(self).progresses() == old(self).progresses().filter(progress_not_of(workspace@)),
            final(self).statuses() == old(self).statuses(),
            final(self).logs() == old(self).logs(),
            final(self).last_seq() == old(self).last_seq(),
    {
        let ghost start = self.progresses@;
        let ghost p = progress_not_of(workspace@);
        let mut kept: Vec<WorkspaceProgressRecord> = Vec::new();
        let mut found = false;
        let mut i: usize = 0;
        while i < self.progresses.len()
            invariant
                i <= self.progresses@.len(),
                start == self.progresses@,
                p == progress_not_of(workspace@),
                kept@ == start.subrange(0, i as int).filter(p),
                found == exists|j: int| 0 <= j < i && #[trigger] start[j].workspace@ == workspace@,
            decreases self.progresses@.len() - i,
        {
            reveal(Seq::filter);
            assert(start.subrange(0, i + 1).drop_last() =~= start.subrange(0, i as int));
            if str_eq(self.progresses[i].workspace.as_str(), workspace) {
                found = true;
            } else {
                kept.push(self.progresses[i].clone());
            }
            i += 1;
        }
        assert(start.subrange(0, start.len() as int) =~= start);
        self.progresses = kept;
        proof {
            let rel = |a: WorkspaceProgressRecord, b: WorkspaceProgressRecord| a.workspace@ != b.workspace@;
            assert forall|i: int, j: int| 0 <= i < j < start.len() implies #[trigger] rel(start[i], start[j]) by {}
            lemma_filter_keeps_order(start, p, rel);
            let f = start.filter(p);
            assert forall|i: int, j: int|
                0 <= i < f.len() && 0 <= j < f.len() && i != j implies #[trigger] f[i].workspace@
                != #[trigger] f[j].workspace@ by {
                if i < j {
                    assert(rel(f[i], f[j]));
                } else {
                    assert(rel(f[j], f[i]));
                }
            }
            assert forall|x: int| 0 <= x < f.len() implies #[trigger] f[x].value <= 100 by {
                lemma_filter_elem(start, p, x);
            }
        }
        found
    }

    /// The progress record of `workspace`.
    pub fn progress_for_workspace(&self, workspace: &str) -> (r: Option<WorkspaceProgressRecord>)
        ensures
            progress_lookup(self.progresses(), workspace@, r),
    {
        match self.progress_index(workspace) {
            Some(k) => Some(self.progresses[k].clone()),
            None => None,
        }
    }

    /// How many log records `logs` holds for `w`.
    fn count_logs_of(logs: &Vec<WorkspaceLogRecord>, w: &str) -> (r: usize)
        ensures
            r == logs_of(logs@, w@).len(),
    {
        let ghost p = of_workspace(w@);
        let mut count: usize = 0;
        let mut i: usize = 0;
        while i < logs.len()
            invariant
                i <= logs@.len(),
                p == of_workspace(w@),
                count == logs@.subrange(0, i as int).filter(p).len(),
                count <= i,
            decreases logs@.len() - i,
        {
            reveal(Seq::filter);
            assert(logs@.subrange(0, i + 1).drop_last() =~= logs@.subrange(0, i as int));
            if str_eq(logs[i].workspace.as_str(), w) {
                count += 1;
            }
            i += 1;
        }
        assert(logs@.subrange(0, logs@.len() as int) =~= logs@);
        count
    }

    /// The first index of a record of `w`, where there is one.
    fn first_log_index(logs: &Vec<WorkspaceLogRecord>, w: &str) -> (r: Option<usize>)
        ensures
            r matches Some(k) ==> first_log_of(logs@, w@, k as int),
            r is None ==> !has_log(logs@, w@),
    {
        let mut i: usize = 0;
        while i < logs.len()
            invariant
                i <= logs@.len(),
                forall|j: int| 0 <= j < i ==> #[trigger] logs@[j].workspace@ != w@,
            decreases logs@.len() - i,
        {
            if str_eq(logs[i].workspace.as_str(), w) {
                return Some(i);
            }
            i += 1;
        }
        None
    }

    /// Appends `message` to the log of `workspace` under the next sequence number, dropping that
    /// workspace's oldest record where it would otherwise hold more than `WORKSPACE_LOG_CAP`.
    /// Returns the record appended.
    pub fn append_log(&mut self, workspace: &str, message: &str) -> (r: WorkspaceLogRecord)
        requires
            old(self).wf(),
            old(self).last_seq() < u64::MAX,
        ensures
            final(self).wf(),
            r.workspace@ == workspace@,
            r.seq == old(self).last_seq() + 1,
            r.message@ == message@,
            final(self).last_seq() == r.seq,
            final(self).logs() == capped_append(old(self).logs(), r),
            final(self).statuses() == old(self).statuses(),
            final(self).progresses() == old(self).progresses(),
    {
        let seq = self.next_log_seq + 1;
        let rec = WorkspaceLogRecord {
            workspace: owned(workspace),
            seq,
            message: owned(message),
            created_at: utc_now(),
        };
        let result = rec.clone();
        let ghost start = self.logs@;
        let ghost old_last = self.next_log_seq;
        self.next_log_seq = seq;
        self.logs.push(rec);
        let ghost appended = self.logs@;
        assert(appended == start.push(result));
        assert(seqs_increasing(appended)) by {
            assert forall|i: int, j: int| 0 <= i < j < appended.len() implies #[trigger] appended[i].seq
                < #[trigger] appended[j].seq by {
                if j < start.len() {
                    assert(appended[i] == start[i] && appended[j] == start[j]);
                } else {
                    assert(appended[i] == start[i]);
                    assert(start[i].seq <= old_last);
                }
            }
        }
        let count = Self::count_logs_of(&self.logs, workspace);
        if count > WORKSPACE_LOG_CAP {
            proof {
                reveal(Seq::filter);
                lemma_filter_push(start, of_workspace(workspace@), result);
            }
            let k = match Self::first_log_index(&self.logs, workspace) {
                Some(k) => k,
                None => {
                    proof {
                        assert(appended[appended.len() - 1].workspace@ == workspace@);
                    }
                    return result;
                },
            };
            self.logs.remove(k);
            proof {
                let ck = choose|x: int| first_log_of(appended, workspace@, x);
                assert(first_log_of(appended, workspace@, k as int));
                assert(ck == k) by {
                    if ck < k {
                        assert(appended[ck].workspace@ == workspace@);
                    }
                    if ck > k {
                        assert(appended[k as int].workspace@ == workspace@);
                    }
                }
                assert forall|i: int, j: int| 0 <= i < j < self.logs@.len() implies #[trigger] self.logs@[i].seq
                    < #[trigger] self.logs@[j].seq by {
                    let oi = if i < k { i } else { i + 1 };
                    let oj = if j < k { j } else { j + 1 };
                    assert(self.logs@[i] == appended[oi]);
                    assert(self.logs@[j] == appended[oj]);
                }
                assert forall|x: int| 0 <= x < self.logs@.len() implies #[trigger] self.logs@[x].seq <= seq by {
                    let ox = if x < k { x } else { x + 1 };
                    assert(self.logs@[x] == appended[ox]);
                    if ox < start.len() {
                        assert(appended[ox] == start[ox]);
                    }
                }
                assert forall|w2: Seq<char>| #[trigger] logs_of(self.logs@, w2).len() <= WORKSPACE_LOG_CAP by {
                    lemma_filter_push(start, of_workspace(w2), result);
                    lemma_filter_remove_len(appended, of_workspace(w2), k as int);
                    assert(logs_of(start, w2).len() <= WORKSPACE_LOG_CAP);
                }
            }
        } else {
            proof {
                assert forall|x: int| 0 <= x < self.logs@.len() implies #[trigger] self.logs@[x].seq <= seq by {
                    if x < start.len() {
                        assert(appended[x] == start[x]);
                    }
                }
                assert forall|w2: Seq<char>| #[trigger] logs_of(self.logs@, w2).len() <= WORKSPACE_LOG_CAP by {
                    lemma_filter_push(start, of_workspace(w2), result);
                    assert(logs_of(start, w2).len() <= WORKSPACE_LOG_CAP);
                }
            }
        }
        result
    }

    /// Removes the log of `workspace`; reports whether it held any record.
    pub fn clear_log(&mut self, workspace: &str) -> (r: bool)
        requires
            old(self).wf(),
        ensures
            final(self).wf(),
            r == has_log(old(self).logs(), workspace@),
            final(self).logs() == old(self).logs().filter(not_of_workspace(workspace@)),
            final(self).statuses() == old(self).statuses(),
            final(self).progresses() == old(self).progresses(),
            final(self).last_seq() == old(self).last_seq(),
    {
        let ghost start = self.logs@;
        let ghost p = not_of_workspace(workspace@);
        let mut kept: Vec<WorkspaceLogRecord> = Vec::new();
        let mut found = false;
        let mut i: usize = 0;
        while i < self.logs.len()
            invariant
                i <= self.logs@.len(),
                start == self.logs@,
                p == not_of_workspace(workspace@),
                kept@ == start.subrange(0, i as int).filter(p),
                found == exists|j: int| 0 <= j < i && #[trigger] start[j].workspace@ == workspace@,
            decreases self.logs@.len() - i,
        {
            reveal(Seq::filter);
            assert(start.subrange(0, i + 1).drop_last() =~= start.subrange(0, i as int));
            if str_eq(self.logs[i].workspace.as_str(), workspace) {
                found = true;
            } else {
                kept.push(self.logs[i].clone());
            }
            i += 1;
        }
        assert(start.subrange(0, start.len() as int) =~= start);
        self.logs = kept;
        proof {
            let f = start.filter(p);
            let rel = |a: WorkspaceLogRecord, b: WorkspaceLogRecord| a.seq < b.seq;
            assert forall|i: int, j: int| 0 <= i < j < start.len() implies #[trigger] rel(start[i], start[j]) by {}
            lemma_filter_keeps_order(start, p, rel);
            assert forall|i: int, j: int| 0 <= i < j < f.len() implies #[trigger] f[i].seq < #[trigger] f[j].seq by {
                assert(rel(f[i], f[j]));
            }
            assert forall|x: int| 0 <= x < f.len() implies #[trigger] f[x].seq <= self.next_log_seq by {
                lemma_filter_elem(start, p, x);
            }
            assert forall|w2: Seq<char>| #[trigger] logs_of(f, w2).len() <= WORKSPACE_LOG_CAP by {
                if w2 == workspace@ {
                    assert forall|x: int| 0 <= x < f.len() implies !of_workspace(w2)(#[trigger] f[x]) by {
                        lemma_filter_elem(start, p, x);
                    }
                    lemma_filter_all_or_none(f, of_workspace(w2));
                } else {
                    lemma_filter_weaker_first(start, of_workspace(w2), p);
                    assert(logs_of(start, w2).len() <= WORKSPACE_LOG_CAP);
                }
            }
        }
        found
    }

    /// The log of `workspace`, oldest first.
    pub fn list_log(&self, workspace: &str) -> (r: Vec<WorkspaceLogRecord>)
        ensures
            r@ == logs_of(self.logs(), workspace@),
    {
        let ghost p = of_workspace(workspace@);
        let mut r: Vec<WorkspaceLogRecord> = Vec::new();
        let mut i: usize = 0;
        while i < self.logs.len()
            invariant
                i <= self.logs@.len(),
                p == of_workspace(workspace@),
                r@ == self.logs@.subrange(0, i as int).filter(p),
            decreases self.logs@.len() - i,
        {
            reveal(Seq::filter);
            assert(self.logs@.subrange(0, i + 1).drop_last() =~= self.logs@.subrange(0, i as int));
            if str_eq(self.logs[i].workspace.as_str(), workspace) {
                r.push(self.logs[i].clone());
            }
            i += 1;
        }
        assert(self.logs@.subrange(0, self.logs@.len() as int) =~= self.logs@);
        r
    }

    /// Every log record, oldest first (so in increasing sequence order).
    pub fn list_all_log(&self) -> (r: Vec<WorkspaceLogRecord>)
        ensures
            r@ == self.logs(),
    {
        let mut r: Vec<WorkspaceLogRecord> = Vec::new();
        let mut i: usize = 0;
        while i < self.logs.len()
            invariant
                i <= self.logs@.len(),
                r@ == self.logs@.subrange(0, i as int),
            decreases self.logs@.len() - i,
        {
            r.push(self.logs[i].clone());
            i += 1;
            assert(r@ =~= self.logs@.subrange(0, i as int));
        }
        assert(r@ =~= self.logs@);
        r
    }

    /// The workspaces that hold log records, each once, in the order of their oldest record.
    pub fn list_log_workspaces(&self) -> (r: Vec<String>)
        ensures
            views(r@).no_duplicates(),
            forall|w: Seq<char>| #[trigger] views(r@).contains(w) <==> has_log(self.logs(), w),
    {
        let mut r: Vec<String> = Vec::new();
        let mut i: usize = 0;
        while i < self.logs.len()
            invariant
                i <= self.logs@.len(),
                views(r@).no_duplicates(),
                forall|w: Seq<char>| #[trigger] views(r@).contains(w) <==> exists|j: int|
                    0 <= j < i && #[trigger] self.logs@[j].workspace@ == w,
            decreases self.logs@.len() - i,
        {
            let ghost before = views(r@);
            if !contains_text(r.as_slice(), self.logs[i].workspace.as_str()) {
                r.push(self.logs[i].workspace.clone());
                assert(views(r@) =~= before.push(self.logs@[i as int].workspace@));
            }
            i += 1;
            assert forall|w: Seq<char>| #[trigger] views(r@).contains(w) <==> exists|j: int|
                0 <= j < i && #[trigger] self.logs@[j].workspace@ == w by {
                if views(r@).contains(w) && !before.contains(w) {
                    assert(self.logs@[i - 1].workspace@ == w);
                }
                if exists|j: int| 0 <= j < i && #[trigger] self.logs@[j].workspace@ == w {
                    let j = choose|j: int| 0 <= j < i && #[trigger] self.logs@[j].workspace@ == w;
                    if j < i - 1 {
                        assert(before.contains(w));
                        let m = choose|m: int| 0 <= m < before.len() && before[m] == w;
                        assert(views(r@)[m] == w);
                    } else {
                        if before.contains(w) {
                            let m = choose|m: int| 0 <= m < before.len() && before[m] == w;
                            assert(views(r@)[m] == w);
                        } else {
                            assert(views(r@)[views(r@).len() - 1] == w);
                        }
                    }
                }
            }
        }
        r
    }

    /// Moves the status, progress and log of `old_workspace` to `new_workspace`, replacing what
    /// `new_workspace` held of each kind that moves. Reports whether `old_workspace` held any.
    pub fn rename_workspace(&mut self, old_workspace: &str, new_workspace: &str) -> (r: bool)
        requires
            old(self).wf(),
        ensures
            final(self).wf(),
            r == (has_status(old(self).statuses(), old_workspace@) || has_progress(
                old(self).progresses(),
                old_workspace@,
            ) || has_log(old(self).logs(), old_workspace@)),
            final(self).last_seq() == old(self).last_seq(),
            old_workspace@ == new_workspace@ ==> final(self).statuses() == old(self).statuses()
                && final(self).progresses() == old(self).progresses() && final(self).logs() == old(
                self,
            ).logs(),
            old_workspace@ != new_workspace@ ==> {
                &&& if has_status(old(self).statuses(), old_workspace@) {
                    statuses_renamed(
                        old(self).statuses().filter(status_not_of(new_workspace@)),
                        final(self).statuses(),
                        old_workspace@,
                        new_workspace@,
                    )
                } else {
                    final(self).statuses() == old(self).statuses()
                }
                &&& if has_progress(old(self).progresses(), old_workspace@) {
                    progresses_renamed(
                        old(self).progresses().filter(progress_not_of(new_workspace@)),
                        final(self).progresses(),
                        old_workspace@,
                        new_workspace@,
                    )
                } else {
                    final(self).progresses() == old(self).progresses()
                }
                &&& if has_log(old(self).logs(), old_workspace@) {
                    logs_renamed(
                        old(self).logs().filter(not_of_workspace(new_workspace@)),
                        final(self).logs(),
                        old_workspace@,
                        new_workspace@,
                    )
                } else {
                    final(self).logs() == old(self).logs()
                }
            },
    {
        let has_s = self.status_index(old_workspace).is_some();
        let has_p = self.progress_index(old_workspace).is_some();
        let has_l = Self::first_log_index(&self.logs, old_workspace).is_some();
        if str_eq(old_workspace, new_workspace) {
            return has_s || has_p || has_l;
        }
        if has_s {
            self.clear_status(new_workspace);
            self.rename_statuses(old_workspace, new_workspace);
        }
        if has_p {
            self.clear_progress(new_workspace);
            self.rename_progresses(old_workspace, new_workspace);
        }
        if has_l {
            self.clear_log(new_workspace);
            self.rename_logs(old_workspace, new_workspace);
        }
        has_s || has_p || has_l
    }

    /// Moves every status record of `from` to `to`, where none belongs to `to`.
    fn rename_statuses(&mut self, from: &str, to: &str)
        requires
            old(self).wf(),
            from@ != to@,
            !has_status(old(self).statuses(), to@),
        ensures
            final(self).wf(),
            statuses_renamed(old(self).statuses(), final(self).statuses(), from@, to@),
            final(self).progresses() == old(self).progresses(),
            final(self).logs() == old(self).logs(),
            final(self).last_seq() == old(self).last_seq(),
    {
        let ghost start = self.statuses@;
        let mut i: usize = 0;
        while i < self.statuses.len()
            invariant
                i <= self.statuses@.len(),
                self.statuses@.len() == start.len(),
                forall|j: int| 0 <= j < i ==> if (#[trigger] start[j]).workspace@ == from@ {
                    self.statuses@[j].workspace@ == to@ && self.statuses@[j].status == start[j].status
                        && self.statuses@[j].updated_at == start[j].updated_at
                } else {
                    self.statuses@[j] == start[j]
                },
                forall|j: int| i <= j < start.len() ==> #[trigger] self.statuses@[j] == start[j],
                self.progresses@ == old(self).progresses@,
                self.logs@ == old(self).logs@,
                self.next_log_seq == old(self).next_log_seq,
            decreases start.len() - i,
        {
            if str_eq(self.statuses[i].workspace.as_str(), from) {
                let rec = WorkspaceStatusRecord {
                    workspace: owned(to),
                    status: self.statuses[i].status.clone(),
                    updated_at: self.statuses[i].updated_at,
                };
                self.statuses.set(i, rec);
            }
            i += 1;
        }
        assert forall|i: int, j: int|
            0 <= i < self.statuses@.len() && 0 <= j < self.statuses@.len() && i != j implies #[trigger] self.statuses@[i].workspace@
            != #[trigger] self.statuses@[j].workspace@ by {
            assert(start[i].workspace@ != to@);
            assert(start[j].workspace@ != to@);
        }
    }

    /// Moves every progress record of `from` to `to`, where none belongs to `to`.
    fn rename_progresses(&mut self, from: &str, to: &str)
        requires
            old(self).wf(),
            from@ != to@,
            !has_progress(old(self).progresses(), to@),
        ensures
            final(self).wf(),
            progresses_renamed(old(self).progresses(), final(self).progresses(), from@, to@),
            final(self).statuses() == old(self).statuses(),
            final(self).logs() == old(self).logs(),
            final(self).last_seq() == old(self).last_seq(),
    {
        let ghost start = self.progresses@;
        let mut i: usize = 0;
        while i < self.progresses.len()
            invariant
                i <= self.progresses@.len(),
                self.progresses@.len() == start.len(),
                forall|j: int| 0 <= j < i ==> if (#[trigger] start[j]).workspace@ == from@ {
                    self.progresses@[j].workspace@ == to@ && self.progresses@[j].value == start[j].value
                        && self.progresses@[j].updated_at == start[j].updated_at
                } else {
                    self.progresses@[j] == start[j]
                },
                forall|j: int| i <= j < start.len() ==> #[trigger] self.progresses@[j] == start[j],
                self.statuses@ == old(self).statuses@,
                self.logs@ == old(self).logs@,
                self.next_log_seq == old(self).next_log_seq,
            decreases start.len() - i,
        {
            if str_eq(self.progresses[i].workspace.as_str(), from) {
                let rec = WorkspaceProgressRecord {
                    workspace: owned(to),
                    value: self.progresses[i].value,
                    updated_at: self.progresses[i].updated_at,
                };
                self.progresses.set(i, rec);
            }
            i += 1;
        }
        assert forall|i: int, j: int|
            0 <= i < self.progresses@.len() && 0 <= j < self.progresses@.len() && i != j implies #[trigger] self.progresses@[i].workspace@
            != #[trigger] self.progresses@[j].workspace@ by {
            assert(start[i].workspace@ != to@);
            assert(start[j].workspace@ != to@);
        }
        assert forall|x: int| 0 <= x < self.progresses@.len() implies #[trigger] self.progresses@[x].value <= 100 by {
            assert(start[x].value <= 100);
        }
    }

    /// Moves every log record of `from` to `to`, where none belongs to `to`.
    fn rename_logs(&mut self, from: &str, to: &str)
        requires
            old(self).wf(),
            from@ != to@,
            !has_log(old(self).logs(), to@),
        ensures
            final(self).wf(),
            logs_renamed(old(self).logs(), final(self).logs(), from@, to@),
            final(self).statuses() == old(self).statuses(),
            final(self).progresses() == old(self).progresses(),
            final(self).last_seq() == old(self).last_seq(),
    {
        let ghost start = self.logs@;
        let mut i: usize = 0;
        while i < self.logs.len()
            invariant
                i <= self.logs@.len(),
                self.logs@.len() == start.len(),
                forall|j: int| 0 <= j < i ==> if (#[trigger] start[j]).workspace@ == from@ {
                    self.logs@[j].workspace@ == to@ && self.logs@[j].seq == start[j].seq
                        && self.logs@[j].message == start[j].message && self.logs@[j].created_at
                        == start[j].created_at
                } else {
                    self.logs@[j] == start[j]
                },
                forall|j: int| i <= j < start.len() ==> #[trigger] self.logs@[j] == start[j],
                self.statuses@ == old(self).statuses@,
                self.progresses@ == old(self).progresses@,
                self.next_log_seq == old(self).next_log_seq,
            decreases start.len() - i,
        {
            if str_eq(self.logs[i].workspace.as_str(), from) {
                let rec = WorkspaceLogRecord {
                    workspace: owned(to),
                    seq: self.logs[i].seq,
                    message: self.logs[i].message.clone(),
                    created_at: self.logs[i].created_at,
                };
                self.logs.set(i, rec);
            }
            i += 1;
        }
        let ghost t = self.logs@;
        assert forall|i: int, j: int| 0 <= i < j < t.len() implies #[trigger] t[i].seq < #[trigger] t[j].seq by {
            assert(start[i].seq < start[j].seq);
        }
        assert forall|x: int| 0 <= x < t.len() implies #[trigger] t[x].seq <= self.next_log_seq by {
            assert(start[x].seq <= self.next_log_seq);
        }
        assert forall|w2: Seq<char>| #[trigger] logs_of(t, w2).len() <= WORKSPACE_LOG_CAP by {
            if w2 == to@ {
                assert forall|x: int| 0 <= x < t.len() implies of_workspace(w2)(#[trigger] t[x]) == of_workspace(from@)(start[x]) by {
                    assert(start[x].workspace@ != to@);
                }
                lemma_filter_len_pointwise(t, start, of_workspace(w2), of_workspace(from@));
                assert(logs_of(start, from@).len() <= WORKSPACE_LOG_CAP);
            } else if w2 == from@ {
                assert forall|x: int| 0 <= x < t.len() implies !of_workspace(w2)(#[trigger] t[x]) by {
                    assert(start[x].workspace@ == from@ || t[x] == start[x]);
                }
                lemma_filter_all_or_none(t, of_workspace(w2));
            } else {
                assert forall|x: int| 0 <= x < t.len() implies of_workspace(w2)(#[trigger] t[x]) == of_workspace(w2)(start[x]) by {}
                lemma_filter_len_pointwise(t, start, of_workspace(w2), of_workspace(w2));
                assert(logs_of(start, w2).len() <= WORKSPACE_LOG_CAP);
            }
        }
    }

    /// Every progress record, in the order their workspaces first got one.
    pub fn list_progress(&self) -> (r: Vec<WorkspaceProgressRecord>)
        ensures
            r@ == self.progresses(),
    {
        let mut r: Vec<WorkspaceProgressRecord> = Vec::new();
        let mut i: usize = 0;
        while i < self.progresses.len()
            invariant
                i <= self.progresses@.len(),
                r@ == self.progresses@.subrange(0, i as int),
            decreases self.progresses@.len() - i,
        {
            r.push(self.progresses[i].clone());
            i += 1;
            assert(r@ =~= self.progresses@.subrange(0, i as int));
        }
        assert(r@ =~= self.progresses@);
        r
    }
}

} // verus!
