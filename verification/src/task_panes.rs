//! Lifecycle records of task panes: whether they are alive, how they exited, and what is
//! needed to rerun them. Records are keyed by pane and listed in pane order.

use crate::notification_store::pane_listed;
use crate::seq_facts::{lemma_filter_elem, lemma_filter_push};
use crate::text::{chars_of, copy_opt_string, has_prefix, starts_with, str_eq, views};
use crate::time::{utc_now, Timestamp};
use crate::{PaneId, TabId, WindowId};
use vstd::prelude::*;

verus! {

/// What a pane does when its process exits.
#[derive(Clone, Copy, Debug, PartialEq, Eq, Structural)]
pub enum ExitBehavior {
    Close,
    CloseOnCleanExit,
    Hold,
}

/// The name an exit behavior is recorded under (its `Debug` form).
pub open spec fn exit_behavior_name(b: ExitBehavior) -> Seq<char> {
    match b {
        ExitBehavior::Close => "Close"@,
        ExitBehavior::CloseOnCleanExit => "CloseOnCleanExit"@,
        ExitBehavior::Hold => "Hold"@,
    }
}

impl ExitBehavior {
    /// The name this behavior is recorded under.
    pub fn name(&self) -> (r: String)
        ensures
            r@ == exit_behavior_name(*self),
    {
        match self {
            ExitBehavior::Close => String::from_str("Close"),
            ExitBehavior::CloseOnCleanExit => String::from_str("CloseOnCleanExit"),
            ExitBehavior::Hold => String::from_str("Hold"),
        }
    }
}

/// A pair of strings (a variable and its value).
pub type Var = (String, String);

/// A copy of a list of variables.
pub fn copy_vars(vars: &[Var]) -> (r: Vec<Var>)
    ensures
        r@ == vars@,
{
    let mut r: Vec<Var> = Vec::new();
    let mut i: usize = 0;
    while i < vars.len()
        invariant
            i <= vars@.len(),
            r@ == vars@.subrange(0, i as int),
        decreases vars@.len() - i,
    {
        let v = (vars[i].0.clone(), vars[i].1.clone());
        r.push(v);
        i += 1;
        assert(r@ =~= vars@.subrange(0, i as int));
    }
    assert(r@ =~= vars@);
    r
}

/// The lifecycle record of a task pane.
#[derive(Debug, PartialEq, Eq)]
pub struct TaskPaneRecord {
    pub pane_id: PaneId,
    pub workspace: Option<String>,
    pub window_id: Option<WindowId>,
    pub tab_id: Option<TabId>,
    pub remain_on_exit: bool,
    pub silenced: bool,
    pub is_dead: bool,
    pub is_failed: bool,
    pub exit_behavior: Option<String>,
    pub current_working_dir: Option<String>,
    pub rerun: Vec<Var>,
    pub tee_path: Option<String>,
    pub updated_at: Timestamp,
}

/// The fields that say which pane a record is and how it last ended.
pub open spec fn same_identity(a: TaskPaneRecord, b: TaskPaneRecord) -> bool {
    &&& a.pane_id == b.pane_id
    &&& a.workspace == b.workspace
    &&& a.window_id == b.window_id
    &&& a.tab_id == b.tab_id
    &&& a.remain_on_exit == b.remain_on_exit
    &&& a.is_dead == b.is_dead
    &&& a.is_failed == b.is_failed
    &&& a.exit_behavior == b.exit_behavior
}

/// Two records agree field for field, the rerun variables compared as lists.
pub open spec fn same_record(a: TaskPaneRecord, b: TaskPaneRecord) -> bool {
    &&& same_identity(a, b)
    &&& a.silenced == b.silenced
    &&& a.current_working_dir == b.current_working_dir
    &&& a.rerun@ == b.rerun@
    &&& a.tee_path == b.tee_path
    &&& a.updated_at == b.updated_at
}

impl Clone for TaskPaneRecord {
    fn clone(&self) -> (r: Self)
        ensures
            same_record(r, *self),
    {
        TaskPaneRecord {
            pane_id: self.pane_id,
            workspace: copy_opt_string(&self.workspace),
            window_id: self.window_id,
            tab_id: self.tab_id,
            remain_on_exit: self.remain_on_exit,
            silenced: self.silenced,
            is_dead: self.is_dead,
            is_failed: self.is_failed,
            exit_behavior: copy_opt_string(&self.exit_behavior),
            current_working_dir: copy_opt_string(&self.current_working_dir),
            rerun: copy_vars(self.rerun.as_slice()),
            tee_path: copy_opt_string(&self.tee_path),
            updated_at: self.updated_at,
        }
    }
}

/// How a pane exited, as reported when its process ends.
#[derive(Debug, PartialEq, Eq)]
pub struct TaskPaneExitRecord {
    pub pane_id: PaneId,
    pub workspace: Option<String>,
    pub window_id: Option<WindowId>,
    pub tab_id: Option<TabId>,
    pub remain_on_exit: bool,
    pub is_failed: bool,
    pub exit_behavior: ExitBehavior,
    pub current_working_dir: Option<String>,
    pub rerun: Vec<Var>,
}


/// No two variables share a name, as in the map of variables they stand for.
pub open spec fn var_names_distinct(vs: Seq<Var>) -> bool {
    forall|i: int, j: int| 0 <= i < j < vs.len() ==> (#[trigger] vs[i]).0@ != (#[trigger] vs[j]).0@
}

/// Every record's rerun variables have distinct names.
pub open spec fn reruns_distinct(m: Map<PaneId, TaskPaneRecord>) -> bool {
    forall|p: PaneId| #[trigger] m.dom().contains(p) ==> var_names_distinct(m[p].rerun@)
}

/// A user variable or environment variable carries rerun metadata when its name starts with
/// `KAKU_RERUN_` or `kaku.rerun.`.
pub open spec fn is_rerun_key(key: Seq<char>) -> bool {
    has_prefix(key, "KAKU_RERUN_"@) || has_prefix(key, "kaku.rerun."@)
}

/// Whether a variable is one of the rerun ones.
pub open spec fn rerun_var(v: Var) -> bool {
    is_rerun_key(v.0@)
}

/// Whether `key` names rerun metadata.
pub fn is_rerun_user_var(key: &str) -> (r: bool)
    ensures
        r == is_rerun_key(key@),
{
    let k = chars_of(key);
    let upper = chars_of("KAKU_RERUN_");
    let lower = chars_of("kaku.rerun.");
    starts_with(k.as_slice(), upper.as_slice()) || starts_with(k.as_slice(), lower.as_slice())
}

/// The rerun variables among `user_vars`, in their order; their names are distinct, as those
/// of `user_vars` are.
pub fn rerun_metadata_from_user_vars(user_vars: &[Var]) -> (r: Vec<Var>)
    requires
        var_names_distinct(user_vars@),
    ensures
        r@ == user_vars@.filter(|v: Var| rerun_var(v)),
        var_names_distinct(r@),
{
    let ghost f = |v: Var| rerun_var(v);
    let mut r: Vec<Var> = Vec::new();
    let mut i: usize = 0;
    while i < user_vars.len()
        invariant
            i <= user_vars@.len(),
            f == (|v: Var| rerun_var(v)),
            r@ == user_vars@.subrange(0, i as int).filter(f),
            var_names_distinct(user_vars@),
            var_names_distinct(r@),
            forall|k: int| 0 <= k < r@.len() ==> exists|j: int| 0 <= j < i && #[trigger] r@[k] == user_vars@[j],
        decreases user_vars@.len() - i,
    {
        proof {
            assert(user_vars@.subrange(0, i + 1) =~= user_vars@.subrange(0, i as int).push(user_vars@[i as int]));
            lemma_filter_push(user_vars@.subrange(0, i as int), f, user_vars@[i as int]);
        }
        if is_rerun_user_var(user_vars[i].0.as_str()) {
            let ghost before = r@;
            r.push((user_vars[i].0.clone(), user_vars[i].1.clone()));
            proof {
                assert(r@[before.len() as int] == user_vars@[i as int]);
                assert forall|a: int, b: int| 0 <= a < b < r@.len() implies (#[trigger] r@[a]).0@ != (#[trigger] r@[b]).0@ by {
                    if b == before.len() {
                        let j = choose|j: int| 0 <= j < i && #[trigger] before[a] == user_vars@[j];
                        assert(r@[a] == user_vars@[j]);
                    } else {
                        assert(r@[a] == before[a] && r@[b] == before[b]);
                    }
                }
                assert forall|k: int| 0 <= k < r@.len() implies exists|j: int| 0 <= j < i + 1 && #[trigger] r@[k] == user_vars@[j] by {
                    if k == before.len() {
                        assert(r@[k] == user_vars@[i as int]);
                    } else {
                        let j = choose|j: int| 0 <= j < i && #[trigger] before[k] == user_vars@[j];
                        assert(r@[k] == user_vars@[j]);
                    }
                }
            }
        }
        i += 1;
    }
    assert(user_vars@.subrange(0, user_vars@.len() as int) =~= user_vars@);
    r
}

/// Some word holds a nul character.
pub open spec fn has_nul(words: Seq<Seq<char>>) -> bool {
    exists|i: int, j: int| 0 <= i < words.len() && 0 <= j < words[i].len() && #[trigger] words[i][j] == '\0'
}

/// The single line that shlex's `try_join` renders words as, each quoted for a POSIX shell where
/// needed and separated by single spaces.
pub uninterp spec fn shell_joined(words: Seq<Seq<char>>) -> Seq<char>;

/// `shlex::try_join`: joins the words into one shell command line. Its only error (with the
/// default settings) is for a word holding a nul character; otherwise the line is `shell_joined`
/// of the words.
#[verifier::external_body]
fn shell_join(words: &[String]) -> (r: Option<String>)
    ensures
        r is None <==> has_nul(views(words@)),
        r matches Some(line) ==> line@ == shell_joined(views(words@)),
{
    shlex::try_join(words.iter().map(|w| w.as_str())).ok()
}

/// The rerun variables derived from a command line already joined for the shell: the one
/// variable `KAKU_RERUN_COMMAND` holding it, or none where the words could not be joined.
pub fn command_rerun_metadata(joined: Option<String>) -> (r: Vec<Var>)
    ensures
        joined is None ==> r@.len() == 0,
        joined matches Some(line) ==> r@.len() == 1 && r@[0].0@ == "KAKU_RERUN_COMMAND"@ && r@[0].1
            == line,
{
    let mut r: Vec<Var> = Vec::new();
    if let Some(line) = joined {
        r.push((String::from_str("KAKU_RERUN_COMMAND"), line));
    }
    r
}

/// The rerun variables of a command about to be spawned, from its environment `env` and its
/// arguments `argv`: the rerun variables of the environment, or, where it has none and there
/// are arguments, `KAKU_RERUN_COMMAND` set to the arguments joined for the shell.
pub fn rerun_metadata_from_command_builder(env: &[Var], argv: &[String]) -> (r: Vec<Var>)
    requires
        var_names_distinct(env@),
    ensures
        var_names_distinct(r@),
        env@.filter(|v: Var| rerun_var(v)).len() > 0 || argv@.len() == 0 ==> r@ == env@.filter(
            |v: Var| rerun_var(v),
        ),
        env@.filter(|v: Var| rerun_var(v)).len() == 0 && argv@.len() > 0 && has_nul(views(argv@))
            ==> r@.len() == 0,
        env@.filter(|v: Var| rerun_var(v)).len() == 0 && argv@.len() > 0 && !has_nul(views(argv@))
            ==> r@.len() == 1 && r@[0].0@ == "KAKU_RERUN_COMMAND"@ && r@[0].1@ == shell_joined(
            views(argv@),
        ),
{
    let from_env = rerun_metadata_from_user_vars(env);
    if from_env.len() == 0 && argv.len() > 0 {
        command_rerun_metadata(shell_join(argv))
    } else {
        from_env
    }
}

/// Pane ids increase strictly along the records.
pub open spec fn sorted_by_pane(s: Seq<TaskPaneRecord>) -> bool {
    forall|i: int, j: int| 0 <= i < j < s.len() ==> #[trigger] s[i].pane_id < #[trigger] s[j].pane_id
}

/// Some record is of pane `p`.
pub open spec fn has_pane(s: Seq<TaskPaneRecord>, p: PaneId) -> bool {
    exists|i: int| 0 <= i < s.len() && #[trigger] s[i].pane_id == p
}

/// The records keyed by pane.
pub open spec fn pane_map(s: Seq<TaskPaneRecord>) -> Map<PaneId, TaskPaneRecord> {
    Map::new(
        |p: PaneId| has_pane(s, p),
        |p: PaneId| s[choose|i: int| 0 <= i < s.len() && #[trigger] s[i].pane_id == p],
    )
}

/// In sorted records, the record at `k` is the one the map gives for its pane.
pub proof fn lemma_pane_map_at(s: Seq<TaskPaneRecord>, k: int)
    requires
        sorted_by_pane(s),
        0 <= k < s.len(),
    ensures
        pane_map(s).dom().contains(s[k].pane_id),
        pane_map(s)[s[k].pane_id] == s[k],
{
    let p = s[k].pane_id;
    assert(has_pane(s, p));
    let c = choose|i: int| 0 <= i < s.len() && #[trigger] s[i].pane_id == p;
    if c < k {
        assert(s[c].pane_id < s[k].pane_id);
    }
    if c > k {
        assert(s[k].pane_id < s[c].pane_id);
    }
}

/// Replacing the record at `k` by one of the same pane replaces that pane's entry.
pub proof fn lemma_pane_map_update(s: Seq<TaskPaneRecord>, k: int, r: TaskPaneRecord)
    requires
        sorted_by_pane(s),
        0 <= k < s.len(),
        s[k].pane_id == r.pane_id,
    ensures
        sorted_by_pane(s.update(k, r)),
        pane_map(s.update(k, r)) == pane_map(s).insert(r.pane_id, r),
{
    let t = s.update(k, r);
    assert(sorted_by_pane(t)) by {
        assert forall|i: int, j: int| 0 <= i < j < t.len() implies #[trigger] t[i].pane_id
            < #[trigger] t[j].pane_id by {
            assert(s[i].pane_id < s[j].pane_id);
        }
    }
    assert forall|p: PaneId| #[trigger] pane_map(t).dom().contains(p) == pane_map(s).insert(r.pane_id, r).dom().contains(p) by {
        if has_pane(s, p) {
            let i = choose|i: int| 0 <= i < s.len() && #[trigger] s[i].pane_id == p;
            assert(t[i].pane_id == p);
        }
        if has_pane(t, p) {
            let i = choose|i: int| 0 <= i < t.len() && #[trigger] t[i].pane_id == p;
            assert(s[i].pane_id == p);
        }
        if p == r.pane_id {
            assert(t[k].pane_id == p);
        }
    }
    assert forall|p: PaneId| #[trigger] pane_map(t).dom().contains(p) implies pane_map(t)[p]
        == pane_map(s).insert(r.pane_id, r)[p] by {
        let i = choose|i: int| 0 <= i < t.len() && #[trigger] t[i].pane_id == p;
        lemma_pane_map_at(t, i);
        if i != k {
            lemma_pane_map_at(s, i);
        }
    }
    assert(pane_map(t) =~= pane_map(s).insert(r.pane_id, r));
}

/// Inserting, at its place in pane order, a record of a pane not yet present adds its entry.
pub proof fn lemma_pane_map_insert(s: Seq<TaskPaneRecord>, k: int, r: TaskPaneRecord)
    requires
        sorted_by_pane(s),
        0 <= k <= s.len(),
        forall|i: int| 0 <= i < k ==> #[trigger] s[i].pane_id < r.pane_id,
        forall|i: int| k <= i < s.len() ==> #[trigger] s[i].pane_id > r.pane_id,
    ensures
        sorted_by_pane(s.insert(k, r)),
        pane_map(s.insert(k, r)) == pane_map(s).insert(r.pane_id, r),
{
    let t = s.insert(k, r);
    assert(sorted_by_pane(t)) by {
        assert forall|i: int, j: int| 0 <= i < j < t.len() implies #[trigger] t[i].pane_id
            < #[trigger] t[j].pane_id by {
            if j < k {
                assert(s[i].pane_id < s[j].pane_id);
            } else if j == k {
                assert(s[i].pane_id < r.pane_id);
            } else if i < k {
                assert(t[j] == s[j - 1]);
                assert(s[i].pane_id < r.pane_id);
            } else if i == k {
                assert(t[j] == s[j - 1]);
            } else {
                assert(s[i - 1].pane_id < s[j - 1].pane_id);
            }
        }
    }
    assert forall|p: PaneId| #[trigger] pane_map(t).dom().contains(p) == pane_map(s).insert(r.pane_id, r).dom().contains(p) by {
        if has_pane(s, p) {
            let i = choose|i: int| 0 <= i < s.len() && #[trigger] s[i].pane_id == p;
            if i < k {
                assert(t[i].pane_id == p);
            } else {
                assert(t[i + 1].pane_id == p);
            }
        }
        if has_pane(t, p) && p != r.pane_id {
            let i = choose|i: int| 0 <= i < t.len() && #[trigger] t[i].pane_id == p;
            if i < k {
                assert(s[i].pane_id == p);
            } else {
                assert(s[i - 1].pane_id == p);
            }
        }
        if p == r.pane_id {
            assert(t[k].pane_id == p);
        }
    }
    assert forall|p: PaneId| #[trigger] pane_map(t).dom().contains(p) implies pane_map(t)[p]
        == pane_map(s).insert(r.pane_id, r)[p] by {
        let i = choose|i: int| 0 <= i < t.len() && #[trigger] t[i].pane_id == p;
        lemma_pane_map_at(t, i);
        if i < k {
            lemma_pane_map_at(s, i);
        } else if i > k {
            lemma_pane_map_at(s, i - 1);
        }
    }
    assert(pane_map(t) =~= pane_map(s).insert(r.pane_id, r));
}

/// Removing the record at `k` removes its pane's entry.
pub proof fn lemma_pane_map_remove(s: Seq<TaskPaneRecord>, k: int)
    requires
        sorted_by_pane(s),
        0 <= k < s.len(),
    ensures
        sorted_by_pane(s.remove(k)),
        pane_map(s.remove(k)) == pane_map(s).remove(s[k].pane_id),
{
    let t = s.remove(k);
    let q = s[k].pane_id;
    assert(sorted_by_pane(t)) by {
        assert forall|i: int, j: int| 0 <= i < j < t.len() implies #[trigger] t[i].pane_id
            < #[trigger] t[j].pane_id by {
            if j < k {
                assert(s[i].pane_id < s[j].pane_id);
            } else if i < k {
                assert(s[i].pane_id < s[j + 1].pane_id);
            } else {
                assert(s[i + 1].pane_id < s[j + 1].pane_id);
            }
        }
    }
    assert forall|p: PaneId| #[trigger] pane_map(t).dom().contains(p) == pane_map(s).remove(q).dom().contains(p) by {
        if has_pane(s, p) && p != q {
            let i = choose|i: int| 0 <= i < s.len() && #[trigger] s[i].pane_id == p;
            if i < k {
                assert(t[i].pane_id == p);
            } else {
                assert(t[i - 1].pane_id == p);
            }
        }
        if has_pane(t, p) {
            let i = choose|i: int| 0 <= i < t.len() && #[trigger] t[i].pane_id == p;
            if i < k {
                assert(s[i].pane_id == p);
                assert(s[i].pane_id < s[k].pane_id);
            } else {
                assert(s[i + 1].pane_id == p);
                assert(s[k].pane_id < s[i + 1].pane_id);
            }
        }
    }
    assert forall|p: PaneId| #[trigger] pane_map(t).dom().contains(p) implies pane_map(t)[p]
        == pane_map(s).remove(q)[p] by {
        let i = choose|i: int| 0 <= i < t.len() && #[trigger] t[i].pane_id == p;
        lemma_pane_map_at(t, i);
        if i < k {
            lemma_pane_map_at(s, i);
        } else {
            lemma_pane_map_at(s, i + 1);
        }
    }
    assert(pane_map(t) =~= pane_map(s).remove(q));
}

/// Filtering sorted records keeps them sorted and keeps exactly the entries whose records pass.
pub proof fn lemma_pane_map_filter(s: Seq<TaskPaneRecord>, f: spec_fn(TaskPaneRecord) -> bool)
    requires
        sorted_by_pane(s),
    ensures
        sorted_by_pane(s.filter(f)),
        forall|p: PaneId| #[trigger] pane_map(s.filter(f)).dom().contains(p) == (pane_map(s).dom().contains(p)
            && f(pane_map(s)[p])),
        forall|p: PaneId| #[trigger] pane_map(s.filter(f)).dom().contains(p) ==> pane_map(s.filter(f))[p]
            == pane_map(s)[p],
    decreases s.len(),
{
    reveal(Seq::filter);
    if s.len() == 0 {
        assert(s.filter(f).len() == 0);
        assert forall|p: PaneId| !(#[trigger] pane_map(s.filter(f)).dom().contains(p)) by {}
        assert forall|p: PaneId| !(#[trigger] pane_map(s).dom().contains(p)) by {}
    } else {
        let t = s.drop_last();
        let x = s.last();
        assert(sorted_by_pane(t)) by {
            assert forall|i: int, j: int| 0 <= i < j < t.len() implies #[trigger] t[i].pane_id
                < #[trigger] t[j].pane_id by {
                assert(t[i] == s[i] && t[j] == s[j]);
            }
        }
        assert forall|i: int| 0 <= i < t.len() implies #[trigger] t[i].pane_id < x.pane_id by {
            assert(t[i] == s[i]);
        }
        lemma_pane_map_filter(t, f);
        assert(s =~= t.push(x));
        lemma_filter_push(t, f, x);
        lemma_pane_map_insert(t, t.len() as int, x);
        assert(t.insert(t.len() as int, x) =~= s);
        let ft = t.filter(f);
        assert(!pane_map(t).dom().contains(x.pane_id)) by {
            if has_pane(t, x.pane_id) {
                let i = choose|i: int| 0 <= i < t.len() && #[trigger] t[i].pane_id == x.pane_id;
            }
        }
        assert(!pane_map(ft).dom().contains(x.pane_id));
        if f(x) {
            assert forall|i: int| 0 <= i < ft.len() implies #[trigger] ft[i].pane_id < x.pane_id by {
                lemma_filter_elem(t, f, i);
                let m = choose|m: int| 0 <= m < t.len() && t[m] == #[trigger] t.filter(f)[i];
            }
            lemma_pane_map_insert(ft, ft.len() as int, x);
            assert(ft.insert(ft.len() as int, x) =~= ft.push(x));
        }
    }
}

/// `new` holds pane `p` as `r` (up to the rerun list's identity) and otherwise what `old` held.
pub open spec fn stored_as(
    old: Map<PaneId, TaskPaneRecord>,
    new: Map<PaneId, TaskPaneRecord>,
    p: PaneId,
    r: TaskPaneRecord,
) -> bool {
    &&& new.dom().contains(p)
    &&& same_record(new[p], r)
    &&& new.remove(p) == old.remove(p)
}

/// The string form of an optional string.
pub open spec fn opt_view(o: Option<String>) -> Option<Seq<char>> {
    match o {
        Some(s) => Some(s@),
        None => None,
    }
}

/// Whether a record survives pruning against the live panes: its pane is live, or nothing is
/// known live and the record is of a dead pane worth keeping (it failed, or it can be rerun).
pub open spec fn kept_against(live: Seq<PaneId>) -> spec_fn(TaskPaneRecord) -> bool {
    |r: TaskPaneRecord|
        live.contains(r.pane_id) || (live.len() == 0 && r.is_dead && (r.is_failed || r.rerun@.len()
            > 0))
}

/// Whether two optional strings hold the same text (or are both absent).
pub fn opt_str_eq(a: &Option<String>, b: &Option<String>) -> (r: bool)
    ensures
        r == (opt_view(*a) == opt_view(*b)),
{
    match (a, b) {
        (Some(x), Some(y)) => str_eq(x.as_str(), y.as_str()),
        (None, None) => true,
        _ => false,
    }
}

/// Task-pane records, one per pane, kept in pane order.
pub struct TaskPaneStore {
    records: Vec<TaskPaneRecord>,
}

impl View for TaskPaneStore {
    type V = Map<PaneId, TaskPaneRecord>;

    /// The records keyed by pane.
    open spec fn view(&self) -> Map<PaneId, TaskPaneRecord> {
        pane_map(self.records())
    }
}

impl TaskPaneStore {
    /// The records in ascending pane order.
    pub closed spec fn records(&self) -> Seq<TaskPaneRecord> {
        self.records@
    }

    /// The store's invariant: one record per pane, in ascending pane order, and no record with
    /// two rerun variables of one name.
    pub open spec fn wf(&self) -> bool {
        &&& sorted_by_pane(self.records())
        &&& reruns_distinct(self@)
    }

    /// An empty store.
    pub fn new() -> (s: Self)
        ensures
            s.wf(),
            s.records().len() == 0,
            s@ == Map::<PaneId, TaskPaneRecord>::empty(),
    {
        let s = TaskPaneStore { records: Vec::new() };
        assert(s@ =~= Map::<PaneId, TaskPaneRecord>::empty());
        s
    }

    /// The index of the first record whose pane is `p` or later.
    fn position(&self, p: PaneId) -> (k: usize)
        requires
            self.wf(),
        ensures
            k <= self.records().len(),
            forall|i: int| 0 <= i < k ==> #[trigger] self.records()[i].pane_id < p,
            forall|i: int| k <= i < self.records().len() ==> #[trigger] self.records()[i].pane_id >= p,
    {
        let mut k: usize = 0;
        while k < self.records.len()
            invariant
                self.wf(),
                k <= self.records@.len(),
                forall|i: int| 0 <= i < k ==> #[trigger] self.records@[i].pane_id < p,
            decreases self.records@.len() - k,
        {
            if self.records[k].pane_id >= p {
                assert forall|i: int| k <= i < self.records@.len() implies #[trigger] self.records@[i].pane_id >= p by {
                    if i > k {
                        assert(self.records@[k as int].pane_id < self.records@[i].pane_id);
                    }
                }
                return k;
            }
            k += 1;
        }
        k
    }

    /// The index of the record of `p`, if there is one.
    fn find(&self, p: PaneId) -> (r: Option<usize>)
        requires
            self.wf(),
        ensures
            r matches Some(k) ==> k < self.records().len() && self.records()[k as int].pane_id == p
                && self@.dom().contains(p) && self@[p] == self.records()[k as int],
            r is None ==> !self@.dom().contains(p),
    {
        let k = self.position(p);
        if k < self.records.len() && self.records[k].pane_id == p {
            proof {
                lemma_pane_map_at(self.records(), k as int);
            }
            Some(k)
        } else {
            assert(!has_pane(self.records(), p)) by {
                if has_pane(self.records(), p) {
                    let i = choose|i: int| 0 <= i < self.records().len() && #[trigger] self.records()[i].pane_id == p;
                    if i > k {
                        assert(self.records()[k as int].pane_id < self.records()[i].pane_id);
                    }
                }
            }
            None
        }
    }

    /// Stores `rec` as the record of its pane, replacing any earlier one.
    fn put(&mut self, rec: TaskPaneRecord)
        requires
            old(self).wf(),
            var_names_distinct(rec.rerun@),
        ensures
            final(self).wf(),
            final(self)@ == old(self)@.insert(rec.pane_id, rec),
            final(self)@.dom().contains(rec.pane_id),
            final(self)@[rec.pane_id] == rec,
            final(self)@.remove(rec.pane_id) == old(self)@.remove(rec.pane_id),
    {
        let ghost m = self@;
        let p = rec.pane_id;
        let k = self.position(p);
        if k < self.records.len() && self.records[k].pane_id == p {
            proof {
                lemma_pane_map_update(self.records(), k as int, rec);
            }
            self.records.set(k, rec);
        } else {
            assert forall|i: int| k <= i < self.records().len() implies #[trigger] self.records()[i].pane_id > p by {
                if i > k {
                    assert(self.records()[k as int].pane_id < self.records()[i].pane_id);
                }
            }
            proof {
                lemma_pane_map_insert(self.records(), k as int, rec);
            }
            self.records.insert(k, rec);
        }
        assert(m.insert(p, rec).remove(p) =~= m.remove(p));
    }

    /// Records how pane `exit.pane_id` exited, replacing any earlier record of it; the
    /// silencing and output-tee settings of an earlier record carry over. Gives the stored record.
    pub fn record_exit(&mut self, exit: TaskPaneExitRecord) -> (r: TaskPaneRecord)
        requires
            old(self).wf(),
            var_names_distinct(exit.rerun@),
        ensures
            final(self).wf(),
            stored_as(old(self)@, final(self)@, exit.pane_id, r),
            r.pane_id == exit.pane_id,
            r.workspace == exit.workspace,
            r.window_id == exit.window_id,
            r.tab_id == exit.tab_id,
            r.remain_on_exit == exit.remain_on_exit,
            r.silenced == (old(self)@.dom().contains(exit.pane_id) && old(self)@[exit.pane_id].silenced),
            r.is_dead,
            r.is_failed == exit.is_failed,
            opt_view(r.exit_behavior) == Some(exit_behavior_name(exit.exit_behavior)),
            r.current_working_dir == exit.current_working_dir,
            r.rerun@ == exit.rerun@,
            r.tee_path == (if old(self)@.dom().contains(exit.pane_id) {
                old(self)@[exit.pane_id].tee_path
            } else {
                None
            }),
    {
        let now = utc_now();
        let (silenced, tee_path) = match self.find(exit.pane_id) {
            Some(k) => (self.records[k].silenced, copy_opt_string(&self.records[k].tee_path)),
            None => (false, None),
        };
        let rec = TaskPaneRecord {
            pane_id: exit.pane_id,
            workspace: exit.workspace,
            window_id: exit.window_id,
            tab_id: exit.tab_id,
            remain_on_exit: exit.remain_on_exit,
            silenced,
            is_dead: true,
            is_failed: exit.is_failed,
            exit_behavior: Some(exit.exit_behavior.name()),
            current_working_dir: exit.current_working_dir,
            rerun: exit.rerun,
            tee_path,
            updated_at: now,
        };
        let out = rec.clone();
        self.put(rec);
        out
    }

    /// Records pane `pane_id` as live with the given placement and intent, clearing any exit
    /// outcome; its working directory, rerun variables and output tee carry over from an
    /// earlier record. Gives the stored record.
    pub fn upsert_live(
        &mut self,
        pane_id: PaneId,
        workspace: Option<String>,
        window_id: Option<WindowId>,
        tab_id: Option<TabId>,
        remain_on_exit: bool,
        silenced: bool,
    ) -> (r: TaskPaneRecord)
        requires
            old(self).wf(),
        ensures
            final(self).wf(),
            stored_as(old(self)@, final(self)@, pane_id, r),
            r.pane_id == pane_id,
            r.workspace == workspace,
            r.window_id == window_id,
            r.tab_id == tab_id,
            r.remain_on_exit == remain_on_exit,
            r.silenced == silenced,
            !r.is_dead,
            !r.is_failed,
            r.exit_behavior is None,
            old(self)@.dom().contains(pane_id) ==> {
                &&& r.current_working_dir == old(self)@[pane_id].current_working_dir
                &&& r.rerun@ == old(self)@[pane_id].rerun@
                &&& r.tee_path == old(self)@[pane_id].tee_path
            },
            !old(self)@.dom().contains(pane_id) ==> {
                &&& r.current_working_dir is None
                &&& r.rerun@.len() == 0
                &&& r.tee_path is None
            },
    {
        let now = utc_now();
        let (current_working_dir, rerun, tee_path) = match self.find(pane_id) {
            Some(k) => (
                copy_opt_string(&self.records[k].current_working_dir),
                copy_vars(self.records[k].rerun.as_slice()),
                copy_opt_string(&self.records[k].tee_path),
            ),
            None => (None, Vec::new(), None),
        };
        let rec = TaskPaneRecord {
            pane_id,
            workspace,
            window_id,
            tab_id,
            remain_on_exit,
            silenced,
            is_dead: false,
            is_failed: false,
            exit_behavior: None,
            current_working_dir,
            rerun,
            tee_path,
            updated_at: now,
        };
        let out = rec.clone();
        self.put(rec);
        out
    }

    /// Replaces the working directory and rerun variables of pane `pane_id`'s record, if there
    /// is one, and gives the updated record; `None` (and no change) where there is none.
    pub fn refresh_live_metadata(
        &mut self,
        pane_id: PaneId,
        current_working_dir: Option<String>,
        rerun: Vec<Var>,
    ) -> (r: Option<TaskPaneRecord>)
        requires
            old(self).wf(),
            var_names_distinct(rerun@),
        ensures
            final(self).wf(),
            r is None <==> !old(self)@.dom().contains(pane_id),
            r is None ==> final(self)@ == old(self)@,
            r matches Some(rec) ==> {
                &&& stored_as(old(self)@, final(self)@, pane_id, rec)
                &&& same_identity(rec, old(self)@[pane_id])
                &&& rec.silenced == old(self)@[pane_id].silenced
                &&& rec.tee_path == old(self)@[pane_id].tee_path
                &&& rec.current_working_dir == current_working_dir
                &&& rec.rerun@ == rerun@
            },
    {
        match self.find(pane_id) {
            None => None,
            Some(k) => {
                let mut rec = self.records[k].clone();
                rec.current_working_dir = current_working_dir;
                rec.rerun = rerun;
                rec.updated_at = utc_now();
                let out = rec.clone();
                self.put(rec);
                Some(out)
            },
        }
    }

    /// Sets whether pane `pane_id`'s watchdog is silenced; reports whether that changed
    /// anything (it does not where there is no record or the setting is already so).
    pub fn set_silenced(&mut self, pane_id: PaneId, silenced: bool) -> (r: bool)
        requires
            old(self).wf(),
        ensures
            final(self).wf(),
            r == (old(self)@.dom().contains(pane_id) && old(self)@[pane_id].silenced != silenced),
            !r ==> final(self)@ == old(self)@,
            r ==> final(self)@.dom().contains(pane_id) && stored_as(old(self)@, final(self)@, pane_id, final(self)@[pane_id]),
            r ==> {
                let (a, b) = (old(self)@[pane_id], final(self)@[pane_id]);
                &&& same_identity(a, b)
                &&& b.silenced == silenced
                &&& b.current_working_dir == a.current_working_dir
                &&& b.rerun@ == a.rerun@
                &&& b.tee_path == a.tee_path
            },
    {
        match self.find(pane_id) {
            None => false,
            Some(k) => {
                if self.records[k].silenced == silenced {
                    false
                } else {
                    let mut rec = self.records[k].clone();
                    rec.silenced = silenced;
                    rec.updated_at = utc_now();
                    self.put(rec);
                    true
                }
            },
        }
    }

    /// Sets where pane `pane_id`'s output is teed to; reports whether that changed anything (it
    /// does not where there is no record or the path is already so).
    pub fn set_tee_path(&mut self, pane_id: PaneId, tee_path: Option<String>) -> (r: bool)
        requires
            old(self).wf(),
        ensures
            final(self).wf(),
            r == (old(self)@.dom().contains(pane_id) && opt_view(old(self)@[pane_id].tee_path)
                != opt_view(tee_path)),
            !r ==> final(self)@ == old(self)@,
            r ==> final(self)@.dom().contains(pane_id) && stored_as(old(self)@, final(self)@, pane_id, final(self)@[pane_id]),
            r ==> {
                let (a, b) = (old(self)@[pane_id], final(self)@[pane_id]);
                &&& same_identity(a, b)
                &&& b.silenced == a.silenced
                &&& b.current_working_dir == a.current_working_dir
                &&& b.rerun@ == a.rerun@
                &&& b.tee_path == tee_path
            },
    {
        match self.find(pane_id) {
            None => false,
            Some(k) => {
                if opt_str_eq(&self.records[k].tee_path, &tee_path) {
                    false
                } else {
                    let mut rec = self.records[k].clone();
                    rec.tee_path = tee_path;
                    rec.updated_at = utc_now();
                    self.put(rec);
                    true
                }
            },
        }
    }

    /// Copies of every record, in ascending pane order.
    pub fn list_task_panes(&self) -> (r: Vec<TaskPaneRecord>)
        requires
            self.wf(),
        ensures
            r@.len() == self.records().len(),
            forall|i: int| 0 <= i < r@.len() ==> same_record(#[trigger] r@[i], self.records()[i]),
            sorted_by_pane(r@),
            forall|i: int| 0 <= i < r@.len() ==> same_record(#[trigger] r@[i], self@[r@[i].pane_id]),
    {
        let mut r: Vec<TaskPaneRecord> = Vec::new();
        let mut i: usize = 0;
        while i < self.records.len()
            invariant
                self.wf(),
                i <= self.records@.len(),
                r@.len() == i,
                forall|j: int| 0 <= j < i ==> same_record(#[trigger] r@[j], self.records@[j]),
            decreases self.records@.len() - i,
        {
            r.push(self.records[i].clone());
            i += 1;
        }
        assert forall|a: int, b: int| 0 <= a < b < r@.len() implies #[trigger] r@[a].pane_id
            < #[trigger] r@[b].pane_id by {
            assert(same_record(r@[a], self.records()[a]) && same_record(r@[b], self.records()[b]));
        }
        assert forall|j: int| 0 <= j < r@.len() implies same_record(#[trigger] r@[j], self@[r@[j].pane_id]) by {
            assert(same_record(r@[j], self.records()[j]));
            lemma_pane_map_at(self.records(), j);
        }
        r
    }

    /// A copy of pane `pane_id`'s record, if there is one.
    pub fn task_pane(&self, pane_id: PaneId) -> (r: Option<TaskPaneRecord>)
        requires
            self.wf(),
        ensures
            r is None <==> !self@.dom().contains(pane_id),
            r matches Some(rec) ==> same_record(rec, self@[pane_id]),
    {
        match self.find(pane_id) {
            Some(k) => Some(self.records[k].clone()),
            None => None,
        }
    }

    /// Forgets pane `pane_id`'s record; reports whether there was one.
    pub fn remove_task_pane(&mut self, pane_id: PaneId) -> (r: bool)
        requires
            old(self).wf(),
        ensures
            final(self).wf(),
            r == old(self)@.dom().contains(pane_id),
            final(self)@ == old(self)@.remove(pane_id),
    {
        match self.find(pane_id) {
            Some(k) => {
                proof {
                    lemma_pane_map_remove(self.records(), k as int);
                }
                self.records.remove(k);
                true
            },
            None => {
                assert(old(self)@.remove(pane_id) =~= old(self)@);
                false
            },
        }
    }

    /// Drops the records that do not survive against `live_panes` (see `kept_against`):
    /// with live panes known, those of other panes; with none known, all but the dead panes
    /// that failed or can be rerun. Gives how many were dropped.
    pub fn prune_missing(&mut self, live_panes: &[PaneId]) -> (r: usize)
        requires
            old(self).wf(),
        ensures
            final(self).wf(),
            final(self).records() == old(self).records().filter(kept_against(live_panes@)),
            r == old(self).records().len() - final(self).records().len(),
            forall|p: PaneId| #[trigger] final(self)@.dom().contains(p) == (old(self)@.dom().contains(p)
                && kept_against(live_panes@)(old(self)@[p])),
            forall|p: PaneId| #[trigger] final(self)@.dom().contains(p) ==> final(self)@[p] == old(self)@[p],
    {
        let ghost before = self.records@;
        let ghost keep = kept_against(live_panes@);
        let n = self.records.len();
        let none_live = live_panes.len() == 0;
        let mut i: usize = 0;
        let mut j: usize = 0;
        while i < self.records.len()
            invariant
                before.len() == n,
                keep == kept_against(live_panes@),
                none_live == (live_panes@.len() == 0),
                i <= j <= n,
                self.records@.len() == i + (n - j),
                self.records@ == before.subrange(0, j as int).filter(keep) + before.subrange(j as int, n as int),
                before.subrange(0, j as int).filter(keep).len() == i,
            decreases self.records@.len() - i,
        {
            assert(self.records@[i as int] == before[j as int]);
            let rec_pane = self.records[i].pane_id;
            let keep_it = pane_listed(live_panes, rec_pane) || (none_live && self.records[i].is_dead && (
            self.records[i].is_failed || self.records[i].rerun.len() > 0));
            proof {
                assert(before.subrange(0, j + 1) =~= before.subrange(0, j as int).push(before[j as int]));
                lemma_filter_push(before.subrange(0, j as int), keep, before[j as int]);
            }
            if keep_it {
                i += 1;
                j += 1;
                assert(self.records@ =~= before.subrange(0, j as int).filter(keep) + before.subrange(j as int, n as int));
            } else {
                self.records.remove(i);
                j += 1;
                assert(self.records@ =~= before.subrange(0, j as int).filter(keep) + before.subrange(j as int, n as int));
            }
        }
        assert(before.subrange(0, n as int) =~= before);
        assert(self.records@ =~= before.filter(keep));
        proof {
            lemma_pane_map_filter(before, keep);
        }
        n - self.records.len()
    }
}

} // verus!
