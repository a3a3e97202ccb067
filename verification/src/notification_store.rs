//! Notifications raised against a workspace, window, tab or pane, with their unread state.
//!
//! Every notification is anchored at one pane; a pane is "unread" while some unread
//! notification is anchored at it. Notifications are kept in the order they were created.

use crate::text::{contains_text, copy_opt_string, owned, str_eq, views};
use crate::time::{utc_now, Timestamp};
use crate::{PaneId, TabId, WindowId};
use crate::seq_facts::lemma_filter_weaker_first;
use vstd::prelude::*;

verus! {

/// When an unread notification becomes read on its own.
#[derive(Clone, Copy, Debug, PartialEq, Eq, Structural)]
pub enum NotificationUnreadMode {
    /// Focusing the anchor pane marks it read.
    ClearOnFocus,
    /// It stays unread until marked read explicitly.
    Sticky,
}

/// A stored notification.
#[derive(Debug, PartialEq, Eq)]
pub struct NotificationRecord {
    pub notification_id: String,
    pub workspace: String,
    pub window_id: Option<WindowId>,
    pub tab_id: Option<TabId>,
    pub pane_id: Option<PaneId>,
    pub kind: String,
    pub title: String,
    pub body: Option<String>,
    pub unread: bool,
    pub unread_mode: NotificationUnreadMode,
    pub created_at: Timestamp,
    pub updated_at: Timestamp,
}

impl Clone for NotificationRecord {
    fn clone(&self) -> (r: Self)
        ensures
            r == *self,
    {
        NotificationRecord {
            notification_id: self.notification_id.clone(),
            workspace: self.workspace.clone(),
            window_id: self.window_id,
            tab_id: self.tab_id,
            pane_id: self.pane_id,
            kind: self.kind.clone(),
            title: self.title.clone(),
            body: copy_opt_string(&self.body),
            unread: self.unread,
            unread_mode: self.unread_mode,
            created_at: self.created_at,
            updated_at: self.updated_at,
        }
    }
}

/// What a caller asks for when raising a notification.
#[derive(Debug, PartialEq, Eq)]
pub struct NotificationCreateRequest {
    pub notification_id: String,
    pub workspace: String,
    pub window_id: Option<WindowId>,
    pub tab_id: Option<TabId>,
    pub pane_id: Option<PaneId>,
    pub kind: String,
    pub title: String,
    pub body: Option<String>,
    pub unread_mode: NotificationUnreadMode,
}

impl NotificationCreateRequest {
    /// The record of a new, unread notification created now.
    pub fn into_record(self) -> (r: NotificationRecord)
        ensures
            r.notification_id == self.notification_id,
            r.workspace == self.workspace,
            r.window_id == self.window_id,
            r.tab_id == self.tab_id,
            r.pane_id == self.pane_id,
            r.kind == self.kind,
            r.title == self.title,
            r.body == self.body,
            r.unread,
            r.unread_mode == self.unread_mode,
            r.created_at == r.updated_at,
    {
        let now = utc_now();
        NotificationRecord {
            notification_id: self.notification_id,
            workspace: self.workspace,
            window_id: self.window_id,
            tab_id: self.tab_id,
            pane_id: self.pane_id,
            kind: self.kind,
            title: self.title,
            body: self.body,
            unread: true,
            unread_mode: self.unread_mode,
            created_at: now,
            updated_at: now,
        }
    }
}

/// `b` is `a` with only its unread flag (set to `unread`) and update time changed.
pub open spec fn restamped(a: NotificationRecord, b: NotificationRecord, unread: bool) -> bool {
    &&& b.notification_id == a.notification_id
    &&& b.workspace == a.workspace
    &&& b.window_id == a.window_id
    &&& b.tab_id == a.tab_id
    &&& b.pane_id == a.pane_id
    &&& b.kind == a.kind
    &&& b.title == a.title
    &&& b.body == a.body
    &&& b.unread == unread
    &&& b.unread_mode == a.unread_mode
    &&& b.created_at == a.created_at
}

/// No two notifications share an id.
pub open spec fn ids_unique(entries: Seq<(NotificationRecord, PaneId)>) -> bool {
    forall|i: int, j: int|
        0 <= i < entries.len() && 0 <= j < entries.len() && i != j
            ==> #[trigger] entries[i].0.notification_id@ != #[trigger] entries[j].0.notification_id@
}

/// The entries whose id is not `id`.
pub open spec fn without_id(entries: Seq<(NotificationRecord, PaneId)>, id: Seq<char>) -> Seq<
    (NotificationRecord, PaneId),
> {
    entries.filter(id_differs(id))
}

/// Holds of entries whose id is not `id`.
pub open spec fn id_differs(id: Seq<char>) -> spec_fn((NotificationRecord, PaneId)) -> bool {
    |e: (NotificationRecord, PaneId)| e.0.notification_id@ != id
}

/// The entries whose id is none of `ids`.
pub open spec fn without_ids(
    entries: Seq<(NotificationRecord, PaneId)>,
    ids: Seq<Seq<char>>,
) -> Seq<(NotificationRecord, PaneId)> {
    entries.filter(|e: (NotificationRecord, PaneId)| !ids.contains(e.0.notification_id@))
}

/// Whether some entry has id `id`.
pub open spec fn has_id(entries: Seq<(NotificationRecord, PaneId)>, id: Seq<char>) -> bool {
    exists|i: int| 0 <= i < entries.len() && #[trigger] entries[i].0.notification_id@ == id
}

/// The number of positions of `ids` naming a stored notification.
pub open spec fn count_known(entries: Seq<(NotificationRecord, PaneId)>, ids: Seq<Seq<char>>) -> nat {
    ids.filter(|id: Seq<char>| has_id(entries, id)).len()
}

/// The number of entries satisfying `p`.
pub open spec fn count_entries(
    entries: Seq<(NotificationRecord, PaneId)>,
    p: spec_fn((NotificationRecord, PaneId)) -> bool,
) -> nat {
    entries.filter(p).len()
}

/// Whether some unread notification is anchored at `pane`.
pub open spec fn pane_has_unread(entries: Seq<(NotificationRecord, PaneId)>, pane: PaneId) -> bool {
    exists|i: int| 0 <= i < entries.len() && #[trigger] entries[i].1 == pane && entries[i].0.unread
}

/// The unread notifications counted for a tab: those anchored at one of `panes`, and those of
/// `workspace` with no window, tab or pane.
pub open spec fn counts_for_tab(e: (NotificationRecord, PaneId), workspace: Seq<char>, panes: Seq<PaneId>) -> bool {
    e.0.unread && (panes.contains(e.1) || (e.0.workspace@ == workspace && e.0.window_id is None
        && e.0.tab_id is None && e.0.pane_id is None))
}

/// `pos` is the first index at which `p` occurs in `order`.
pub open spec fn is_first_index(order: Seq<PaneId>, p: PaneId, pos: int) -> bool {
    0 <= pos < order.len() && order[pos] == p && forall|j: int| 0 <= j < pos ==> order[j] != p
}

/// How many steps it takes to reach index `k` when stepping through `order` cyclically from
/// `pos` (forward) or backward, the start itself coming last.
pub open spec fn cyclic_rank(len: int, pos: int, k: int, forward: bool) -> int {
    if forward {
        if k > pos {
            k - pos - 1
        } else {
            len - pos - 1 + k
        }
    } else {
        if k < pos {
            pos - 1 - k
        } else {
            pos + (len - 1 - k)
        }
    }
}

/// Index `k` of `order` is a pane with an unread notification.
pub open spec fn unread_at(entries: Seq<(NotificationRecord, PaneId)>, order: Seq<PaneId>, k: int) -> bool {
    0 <= k < order.len() && pane_has_unread(entries, order[k])
}

/// Index `k` of `order` is where unread navigation lands from `current` in the direction
/// `forward`: the nearest unread pane stepping cyclically past the first occurrence of
/// `current` where `current` is in `order`, otherwise the first (forward) or last (backward)
/// unread pane of `order`.
pub open spec fn navigation_target(
    entries: Seq<(NotificationRecord, PaneId)>,
    order: Seq<PaneId>,
    current: Option<PaneId>,
    forward: bool,
    k: int,
) -> bool {
    &&& unread_at(entries, order, k)
    &&& if current is Some && order.contains(current->0) {
        exists|pos: int|
            #[trigger] is_first_index(order, current->0, pos) && forall|j: int|
                0 <= j < order.len() && cyclic_rank(order.len() as int, pos, j, forward)
                    < cyclic_rank(order.len() as int, pos, k, forward) ==> !#[trigger] unread_at(
                    entries,
                    order,
                    j,
                )
    } else if forward {
        forall|j: int| 0 <= j < k ==> !#[trigger] unread_at(entries, order, j)
    } else {
        forall|j: int| k < j < order.len() ==> !#[trigger] unread_at(entries, order, j)
    }
}

/// The pane that unread navigation moves to, or `None` where no pane of `order` has an unread
/// notification.
pub open spec fn navigation_result(
    entries: Seq<(NotificationRecord, PaneId)>,
    order: Seq<PaneId>,
    current: Option<PaneId>,
    forward: bool,
    r: Option<PaneId>,
) -> bool {
    &&& r matches Some(p) ==> exists|k: int|
        #[trigger] navigation_target(entries, order, current, forward, k) && order[k] == p
    &&& r is None ==> forall|k: int| 0 <= k < order.len() ==> !#[trigger] unread_at(entries, order, k)
}

/// Holds of entries that are unread and named by `ids`.
pub open spec fn unread_and_named(ids: Seq<Seq<char>>) -> spec_fn((NotificationRecord, PaneId)) -> bool {
    |e: (NotificationRecord, PaneId)| e.0.unread && ids.contains(e.0.notification_id@)
}

/// Holds of entries that are read and named by `ids`.
pub open spec fn read_and_named(ids: Seq<Seq<char>>) -> spec_fn((NotificationRecord, PaneId)) -> bool {
    |e: (NotificationRecord, PaneId)| !e.0.unread && ids.contains(e.0.notification_id@)
}

/// Holds of unread clear-on-focus entries anchored at `pane`.
pub open spec fn cleared_by_focus(pane: PaneId) -> spec_fn((NotificationRecord, PaneId)) -> bool {
    |e: (NotificationRecord, PaneId)| e.1 == pane && e.0.unread && e.0.unread_mode
        == NotificationUnreadMode::ClearOnFocus
}

/// Holds of unread entries counted for a tab of `workspace` showing `panes`.
pub open spec fn tab_unread(workspace: Seq<char>, panes: Seq<PaneId>) -> spec_fn(
    (NotificationRecord, PaneId),
) -> bool {
    |e: (NotificationRecord, PaneId)| counts_for_tab(e, workspace, panes)
}

/// Holds of unread entries of `workspace`.
pub open spec fn workspace_unread(workspace: Seq<char>) -> spec_fn((NotificationRecord, PaneId)) -> bool {
    |e: (NotificationRecord, PaneId)| e.0.unread && e.0.workspace@ == workspace
}

/// Holds of entries of `workspace`.
pub open spec fn in_workspace(workspace: Seq<char>) -> spec_fn((NotificationRecord, PaneId)) -> bool {
    |e: (NotificationRecord, PaneId)| e.0.workspace@ == workspace
}

/// `new` is `old` with the unread flag of every entry satisfying `sel` set to `unread` and its
/// update time renewed, every other entry unchanged.
pub open spec fn flipped(
    old: Seq<(NotificationRecord, PaneId)>,
    new: Seq<(NotificationRecord, PaneId)>,
    sel: spec_fn((NotificationRecord, PaneId)) -> bool,
    unread: bool,
) -> bool {
    &&& new.len() == old.len()
    &&& forall|i: int|
        0 <= i < old.len() ==> if sel(#[trigger] old[i]) {
            restamped(old[i].0, new[i].0, unread) && new[i].1 == old[i].1
        } else {
            new[i] == old[i]
        }
}

/// `b` is `a` moved to workspace `workspace` with a renewed update time.
pub open spec fn moved_to(a: NotificationRecord, b: NotificationRecord, workspace: Seq<char>) -> bool {
    &&& b.notification_id == a.notification_id
    &&& b.workspace@ == workspace
    &&& b.window_id == a.window_id
    &&& b.tab_id == a.tab_id
    &&& b.pane_id == a.pane_id
    &&& b.kind == a.kind
    &&& b.title == a.title
    &&& b.body == a.body
    &&& b.unread == a.unread
    &&& b.unread_mode == a.unread_mode
    &&& b.created_at == a.created_at
}

/// Two entry sequences hold the same ids at the same places.
pub open spec fn same_ids(a: Seq<(NotificationRecord, PaneId)>, b: Seq<(NotificationRecord, PaneId)>) -> bool {
    a.len() == b.len() && forall|i: int|
        0 <= i < a.len() ==> (#[trigger] a[i]).0.notification_id == b[i].0.notification_id
}

/// Keeping the ids keeps them unique.
proof fn lemma_same_ids_unique(a: Seq<(NotificationRecord, PaneId)>, b: Seq<(NotificationRecord, PaneId)>)
    requires
        ids_unique(a),
        same_ids(a, b),
    ensures
        ids_unique(b),
{
    assert forall|i: int, j: int|
        0 <= i < b.len() && 0 <= j < b.len() && i != j implies #[trigger] b[i].0.notification_id@
        != #[trigger] b[j].0.notification_id@ by {
        assert(a[i].0.notification_id == b[i].0.notification_id);
        assert(a[j].0.notification_id == b[j].0.notification_id);
    }
}

/// The rank of every index lies in `0..len`.
proof fn lemma_rank_range(len: int, pos: int, k: int, forward: bool)
    requires
        0 <= pos < len,
        0 <= k < len,
    ensures
        0 <= cyclic_rank(len, pos, k, forward) < len,
{
}

/// Whether `pane` is listed in `panes`.
pub fn pane_listed(panes: &[PaneId], pane: PaneId) -> (r: bool)
    ensures
        r == panes@.contains(pane),
{
    let mut i: usize = 0;
    while i < panes.len()
        invariant
            i <= panes@.len(),
            forall|j: int| 0 <= j < i ==> panes@[j] != pane,
        decreases panes@.len() - i,
    {
        if panes[i] == pane {
            return true;
        }
        i += 1;
    }
    false
}

/// The first index at which `pane` occurs in `order`.
pub fn first_position(order: &[PaneId], pane: PaneId) -> (r: Option<usize>)
    ensures
        r matches Some(k) ==> is_first_index(order@, pane, k as int),
        r is None ==> !order@.contains(pane),
{
    let mut i: usize = 0;
    while i < order.len()
        invariant
            i <= order@.len(),
            forall|j: int| 0 <= j < i ==> order@[j] != pane,
        decreases order@.len() - i,
    {
        if order[i] == pane {
            return Some(i);
        }
        i += 1;
    }
    None
}

/// A notification with the pane it is anchored at.
struct NotificationEntry {
    record: NotificationRecord,
    anchor_pane_id: PaneId,
}

/// The abstract form of an entry.
spec fn entry_view(e: NotificationEntry) -> (NotificationRecord, PaneId) {
    (e.record, e.anchor_pane_id)
}

/// A copy of an entry.
fn copy_entry(e: &NotificationEntry) -> (r: NotificationEntry)
    ensures
        entry_view(r) == entry_view(*e),
{
    NotificationEntry { record: e.record.clone(), anchor_pane_id: e.anchor_pane_id }
}

/// Entry views of a vector prefix.
spec fn entry_views(v: Seq<NotificationEntry>) -> Seq<(NotificationRecord, PaneId)> {
    v.map_values(|e: NotificationEntry| entry_view(e))
}

/// Filtering keeps ids unique.
proof fn lemma_filter_unique(
    s: Seq<(NotificationRecord, PaneId)>,
    p: spec_fn((NotificationRecord, PaneId)) -> bool,
)
    requires
        ids_unique(s),
    ensures
        ids_unique(s.filter(p)),
    decreases s.len(),
{
    reveal(Seq::filter);
    if s.len() > 0 {
        let d = s.drop_last();
        assert(ids_unique(d)) by {
            assert forall|i: int, j: int|
                0 <= i < d.len() && 0 <= j < d.len() && i != j implies #[trigger] d[i].0.notification_id@
                != #[trigger] d[j].0.notification_id@ by {
                assert(d[i] == s[i] && d[j] == s[j]);
            }
        }
        lemma_filter_unique(d, p);
        let f = d.filter(p);
        if p(s.last()) {
            let g = f.push(s.last());
            assert forall|k: int| 0 <= k < f.len() implies #[trigger] f[k].0.notification_id@
                != s.last().0.notification_id@ by {
                assert(f.contains(f[k]));
                d.lemma_filter_contains_rev(p, f[k]);
                let m = choose|m: int| 0 <= m < d.len() && d[m] == f[k];
                assert(s[m] == d[m]);
                assert(s[s.len() - 1] == s.last());
            }
            assert forall|i: int, j: int|
                0 <= i < g.len() && 0 <= j < g.len() && i != j implies #[trigger] g[i].0.notification_id@
                != #[trigger] g[j].0.notification_id@ by {
                if i < f.len() && j < f.len() {
                    assert(g[i] == f[i] && g[j] == f[j]);
                } else if i < f.len() {
                    assert(g[i] == f[i]);
                } else {
                    assert(g[j] == f[j]);
                }
            }
        }
    }
}

/// Every element of a filtered sequence satisfies the predicate and comes from the sequence.
proof fn lemma_filter_member(
    s: Seq<(NotificationRecord, PaneId)>,
    p: spec_fn((NotificationRecord, PaneId)) -> bool,
    k: int,
)
    requires
        0 <= k < s.filter(p).len(),
    ensures
        p(s.filter(p)[k]),
        s.contains(s.filter(p)[k]),
{
    broadcast use vstd::seq_lib::group_filter_ensures;

    assert(s.filter(p).contains(s.filter(p)[k]));
    s.lemma_filter_contains_rev(p, s.filter(p)[k]);
}

/// All notifications, oldest first.
pub struct NotificationStore {
    entries: Vec<NotificationEntry>,
}

impl View for NotificationStore {
    type V = Seq<(NotificationRecord, PaneId)>;

    closed spec fn view(&self) -> Seq<(NotificationRecord, PaneId)> {
        entry_views(self.entries@)
    }
}

impl NotificationStore {
    /// The store's invariant: notification ids are unique.
    pub open spec fn wf(&self) -> bool {
        ids_unique(self@)
    }

    /// An empty store.
    pub fn new() -> (s: Self)
        ensures
            s.wf(),
            s@ == Seq::<(NotificationRecord, PaneId)>::empty(),
    {
        let s = NotificationStore { entries: Vec::new() };
        assert(s@ =~= Seq::<(NotificationRecord, PaneId)>::empty());
        s
    }

    /// Stores `record` anchored at `anchor_pane_id`, after the notifications already held,
    /// replacing any notification with the same id.
    pub fn create_notification(&mut self, record: NotificationRecord, anchor_pane_id: PaneId)
        requires
            old(self).wf(),
        ensures
            final(self).wf(),
            final(self)@ == without_id(old(self)@, record.notification_id@).push(
                (record, anchor_pane_id),
            ),
    {
        let ghost id = record.notification_id@;
        self.remove_notification(record.notification_id.as_str());
        let ghost before = self@;
        self.entries.push(NotificationEntry { record, anchor_pane_id });
        assert(self@ =~= before.push((record, anchor_pane_id)));
        assert forall|k: int| 0 <= k < before.len() implies #[trigger] before[k].0.notification_id@
            != id by {
            lemma_filter_member(old(self)@, id_differs(id), k);
        }
        assert forall|i: int, j: int|
            0 <= i < self@.len() && 0 <= j < self@.len() && i != j implies #[trigger] self@[i].0.notification_id@
            != #[trigger] self@[j].0.notification_id@ by {
            if i < before.len() && j < before.len() {
                assert(self@[i] == before[i] && self@[j] == before[j]);
            } else if i < before.len() {
                assert(self@[i] == before[i]);
            } else {
                assert(self@[j] == before[j]);
            }
        }
    }

    /// Removes the notification with id `id`, if any.
    fn remove_notification(&mut self, id: &str)
        requires
            old(self).wf(),
        ensures
            final(self).wf(),
            final(self)@ == without_id(old(self)@, id@),
    {
        let ghost start = self@;
        let ghost p = id_differs(id@);
        let mut kept: Vec<NotificationEntry> = Vec::new();
        let mut i: usize = 0;
        while i < self.entries.len()
            invariant
                i <= self.entries@.len(),
                start == self@,
                p == id_differs(id@),
                entry_views(kept@) == self@.subrange(0, i as int).filter(p),
            decreases self.entries@.len() - i,
        {
            reveal(Seq::filter);
            assert(self@.subrange(0, i + 1).drop_last() =~= self@.subrange(0, i as int));
            assert(self@[i as int] == entry_view(self.entries@[i as int]));
            if !str_eq(self.entries[i].record.notification_id.as_str(), id) {
                let e = copy_entry(&self.entries[i]);
                kept.push(e);
            }
            i += 1;
            assert(entry_views(kept@) =~= self@.subrange(0, i as int).filter(p));
        }
        assert(self@.subrange(0, self@.len() as int) =~= self@);
        self.entries = kept;
        proof {
            lemma_filter_unique(start, p);
        }
    }

    /// All notifications, oldest first.
    pub fn list_notifications(&self) -> (r: Vec<NotificationRecord>)
        ensures
            r@ == self@.map_values(|e: (NotificationRecord, PaneId)| e.0),
    {
        let mut r: Vec<NotificationRecord> = Vec::new();
        let mut i: usize = 0;
        while i < self.entries.len()
            invariant
                i <= self.entries@.len(),
                r@ == self@.subrange(0, i as int).map_values(|e: (NotificationRecord, PaneId)| e.0),
            decreases self.entries@.len() - i,
        {
            r.push(self.entries[i].record.clone());
            i += 1;
            assert(r@ =~= self@.subrange(0, i as int).map_values(
                |e: (NotificationRecord, PaneId)| e.0,
            ));
        }
        assert(self@.subrange(0, self@.len() as int) =~= self@);
        r
    }

    /// Whether some unread notification is anchored at `pane`.
    pub fn has_unread_at(&self, pane: PaneId) -> (r: bool)
        ensures
            r == pane_has_unread(self@, pane),
    {
        let mut i: usize = 0;
        while i < self.entries.len()
            invariant
                i <= self.entries@.len(),
                forall|j: int| 0 <= j < i ==> !(#[trigger] self@[j].1 == pane && self@[j].0.unread),
            decreases self.entries@.len() - i,
        {
            if self.entries[i].anchor_pane_id == pane && self.entries[i].record.unread {
                assert(self@[i as int].1 == pane);
                return true;
            }
            i += 1;
        }
        false
    }

    /// How many positions of `ids` name a stored notification.
    fn count_ids_known(&self, ids: &[String]) -> (r: usize)
        ensures
            r == count_known(self@, views(ids@)),
    {
        let ghost v = views(ids@);
        let ghost p = |id: Seq<char>| has_id(self@, id);
        let mut count: usize = 0;
        let mut i: usize = 0;
        while i < ids.len()
            invariant
                i <= ids@.len(),
                v == views(ids@),
                p == (|id: Seq<char>| has_id(self@, id)),
                count == v.subrange(0, i as int).filter(p).len(),
                count <= i,
            decreases ids@.len() - i,
        {
            reveal(Seq::filter);
            assert(v.subrange(0, i + 1).drop_last() =~= v.subrange(0, i as int));
            let known = self.has_id_exec(ids[i].as_str());
            if known {
                count += 1;
            }
            i += 1;
        }
        assert(v.subrange(0, ids@.len() as int) =~= v);
        count
    }

    /// Whether a notification with id `id` is stored.
    fn has_id_exec(&self, id: &str) -> (r: bool)
        ensures
            r == has_id(self@, id@),
    {
        let mut i: usize = 0;
        while i < self.entries.len()
            invariant
                i <= self.entries@.len(),
                forall|j: int| 0 <= j < i ==> #[trigger] self@[j].0.notification_id@ != id@,
            decreases self.entries@.len() - i,
        {
            if str_eq(self.entries[i].record.notification_id.as_str(), id) {
                assert(self@[i as int].0.notification_id@ == id@);
                return true;
            }
            i += 1;
        }
        false
    }

    /// Removes the notifications named by `notification_ids`, or all of them where the list is
    /// empty. Returns how many of the named ids were stored (every position of the list counts),
    /// or how many notifications there were where the list is empty.
    pub fn clear_notifications(&mut self, notification_ids: &[String]) -> (r: usize)
        requires
            old(self).wf(),
        ensures
            final(self).wf(),
            notification_ids@.len() == 0 ==> r == old(self)@.len() && final(self)@.len() == 0,
            notification_ids@.len() > 0 ==> r == count_known(old(self)@, views(notification_ids@))
                && final(self)@ == without_ids(old(self)@, views(notification_ids@)),
    {
        if notification_ids.len() == 0 {
            let n = self.entries.len();
            self.entries = Vec::new();
            assert(self@ =~= Seq::<(NotificationRecord, PaneId)>::empty());
            return n;
        }
        let cleared = self.count_ids_known(notification_ids);
        let ghost start = self@;
        let ghost ids = views(notification_ids@);
        let ghost p = |e: (NotificationRecord, PaneId)| !ids.contains(e.0.notification_id@);
        let mut kept: Vec<NotificationEntry> = Vec::new();
        let mut i: usize = 0;
        while i < self.entries.len()
            invariant
                i <= self.entries@.len(),
                start == self@,
                ids == views(notification_ids@),
                p == (|e: (NotificationRecord, PaneId)| !ids.contains(e.0.notification_id@)),
                entry_views(kept@) == self@.subrange(0, i as int).filter(p),
            decreases self.entries@.len() - i,
        {
            reveal(Seq::filter);
            assert(self@.subrange(0, i + 1).drop_last() =~= self@.subrange(0, i as int));
            assert(self@[i as int] == entry_view(self.entries@[i as int]));
            if !contains_text(notification_ids, self.entries[i].record.notification_id.as_str()) {
                let e = copy_entry(&self.entries[i]);
                kept.push(e);
            }
            i += 1;
            assert(entry_views(kept@) =~= self@.subrange(0, i as int).filter(p));
        }
        assert(self@.subrange(0, self@.len() as int) =~= self@);
        self.entries = kept;
        proof {
            lemma_filter_unique(start, p);
        }
        cleared
    }

    /// Marks the unread notifications named by `notification_ids` read, renewing their update
    /// time; returns how many changed.
    pub fn mark_notifications_read(&mut self, notification_ids: &[String]) -> (r: usize)
        requires
            old(self).wf(),
        ensures
            final(self).wf(),
            flipped(old(self)@, final(self)@, unread_and_named(views(notification_ids@)), false),
            r == count_entries(old(self)@, unread_and_named(views(notification_ids@))),
    {
        let now = utc_now();
        let ghost ids = views(notification_ids@);
        let ghost sel = unread_and_named(ids);
        let ghost start = self@;
        let mut changed: usize = 0;
        let mut i: usize = 0;
        while i < self.entries.len()
            invariant
                i <= self.entries@.len(),
                self.entries@.len() == start.len(),
                ids == views(notification_ids@),
                sel == unread_and_named(ids),
                forall|j: int|
                    0 <= j < i ==> if sel(#[trigger] start[j]) {
                        restamped(start[j].0, self@[j].0, false) && self@[j].1 == start[j].1
                    } else {
                        self@[j] == start[j]
                    },
                forall|j: int| i <= j < start.len() ==> #[trigger] self@[j] == start[j],
                changed == start.subrange(0, i as int).filter(sel).len(),
                changed <= i,
            decreases start.len() - i,
        {
            reveal(Seq::filter);
            assert(start.subrange(0, i + 1).drop_last() =~= start.subrange(0, i as int));
            assert(self@[i as int] == start[i as int]);
            if self.entries[i].record.unread && contains_text(
                notification_ids,
                self.entries[i].record.notification_id.as_str(),
            ) {
                let mut e = copy_entry(&self.entries[i]);
                e.record.unread = false;
                e.record.updated_at = now;
                let ghost before = self@;
                let ghost ev = entry_view(e);
                self.entries.set(i, e);
                assert(self@ =~= before.update(i as int, ev));
                changed += 1;
            }
            i += 1;
        }
        assert(start.subrange(0, start.len() as int) =~= start);
        proof {
            assert(same_ids(start, self@));
            lemma_same_ids_unique(start, self@);
        }
        changed
    }

    /// Marks the read notifications named by `notification_ids` unread, renewing their update
    /// time; returns how many changed.
    pub fn mark_notifications_unread(&mut self, notification_ids: &[String]) -> (r: usize)
        requires
            old(self).wf(),
        ensures
            final(self).wf(),
            flipped(old(self)@, final(self)@, read_and_named(views(notification_ids@)), true),
            r == count_entries(old(self)@, read_and_named(views(notification_ids@))),
    {
        let now = utc_now();
        let ghost ids = views(notification_ids@);
        let ghost sel = read_and_named(ids);
        let ghost start = self@;
        let mut changed: usize = 0;
        let mut i: usize = 0;
        while i < self.entries.len()
            invariant
                i <= self.entries@.len(),
                self.entries@.len() == start.len(),
                ids == views(notification_ids@),
                sel == read_and_named(ids),
                forall|j: int|
                    0 <= j < i ==> if sel(#[trigger] start[j]) {
                        restamped(start[j].0, self@[j].0, true) && self@[j].1 == start[j].1
                    } else {
                        self@[j] == start[j]
                    },
                forall|j: int| i <= j < start.len() ==> #[trigger] self@[j] == start[j],
                changed == start.subrange(0, i as int).filter(sel).len(),
                changed <= i,
            decreases start.len() - i,
        {
            reveal(Seq::filter);
            assert(start.subrange(0, i + 1).drop_last() =~= start.subrange(0, i as int));
            assert(self@[i as int] == start[i as int]);
            if !self.entries[i].record.unread && contains_text(
                notification_ids,
                self.entries[i].record.notification_id.as_str(),
            ) {
                let mut e = copy_entry(&self.entries[i]);
                e.record.unread = true;
                e.record.updated_at = now;
                let ghost before = self@;
                let ghost ev = entry_view(e);
                self.entries.set(i, e);
                assert(self@ =~= before.update(i as int, ev));
                changed += 1;
            }
            i += 1;
        }
        assert(start.subrange(0, start.len() as int) =~= start);
        proof {
            assert(same_ids(start, self@));
            lemma_same_ids_unique(start, self@);
        }
        changed
    }

    /// Marks read every unread clear-on-focus notification anchored at `pane_id`, renewing its
    /// update time; returns how many changed.
    pub fn apply_pane_focused(&mut self, pane_id: PaneId) -> (r: usize)
        requires
            old(self).wf(),
        ensures
            final(self).wf(),
            flipped(old(self)@, final(self)@, cleared_by_focus(pane_id), false),
            r == count_entries(old(self)@, cleared_by_focus(pane_id)),
    {
        let now = utc_now();
        let ghost sel = cleared_by_focus(pane_id);
        let ghost start = self@;
        let mut changed: usize = 0;
        let mut i: usize = 0;
        while i < self.entries.len()
            invariant
                i <= self.entries@.len(),
                self.entries@.len() == start.len(),
                sel == cleared_by_focus(pane_id),
                forall|j: int|
                    0 <= j < i ==> if sel(#[trigger] start[j]) {
                        restamped(start[j].0, self@[j].0, false) && self@[j].1 == start[j].1
                    } else {
                        self@[j] == start[j]
                    },
                forall|j: int| i <= j < start.len() ==> #[trigger] self@[j] == start[j],
                changed == start.subrange(0, i as int).filter(sel).len(),
                changed <= i,
            decreases start.len() - i,
        {
            reveal(Seq::filter);
            assert(start.subrange(0, i + 1).drop_last() =~= start.subrange(0, i as int));
            assert(self@[i as int] == start[i as int]);
            if self.entries[i].anchor_pane_id == pane_id && self.entries[i].record.unread
                && self.entries[i].record.unread_mode == NotificationUnreadMode::ClearOnFocus {
                let mut e = copy_entry(&self.entries[i]);
                e.record.unread = false;
                e.record.updated_at = now;
                let ghost before = self@;
                let ghost ev = entry_view(e);
                self.entries.set(i, e);
                assert(self@ =~= before.update(i as int, ev));
                changed += 1;
            }
            i += 1;
        }
        assert(start.subrange(0, start.len() as int) =~= start);
        proof {
            assert(same_ids(start, self@));
            lemma_same_ids_unique(start, self@);
        }
        changed
    }

    /// The unread notifications shown on a tab of `workspace` whose panes are `pane_ids`: those
    /// anchored at one of the panes, and those of the workspace with no window, tab or pane.
    pub fn unread_count_for_tab(&self, _tab_id: TabId, workspace: &str, pane_ids: &[PaneId]) -> (r: usize)
        ensures
            r == count_entries(self@, tab_unread(workspace@, pane_ids@)),
            r <= count_entries(self@, |e: (NotificationRecord, PaneId)| e.0.unread),
    {
        let ghost sel = tab_unread(workspace@, pane_ids@);
        let mut count: usize = 0;
        let mut i: usize = 0;
        while i < self.entries.len()
            invariant
                i <= self.entries@.len(),
                sel == tab_unread(workspace@, pane_ids@),
                count == self@.subrange(0, i as int).filter(sel).len(),
                count <= i,
            decreases self.entries@.len() - i,
        {
            reveal(Seq::filter);
            assert(self@.subrange(0, i + 1).drop_last() =~= self@.subrange(0, i as int));
            assert(self@[i as int] == entry_view(self.entries@[i as int]));
            let e = &self.entries[i];
            let anchored = pane_listed(pane_ids, e.anchor_pane_id);
            if e.record.unread && (anchored || (str_eq(e.record.workspace.as_str(), workspace)
                && e.record.window_id.is_none() && e.record.tab_id.is_none()
                && e.record.pane_id.is_none())) {
                count += 1;
            }
            i += 1;
        }
        assert(self@.subrange(0, self@.len() as int) =~= self@);
        proof {
            let q = |e: (NotificationRecord, PaneId)| e.0.unread;
            lemma_filter_weaker_first(self@, sel, q);
            self@.filter(q).lemma_filter_len(sel);
        }
        count
    }

    /// The unread notifications of `workspace`.
    pub fn unread_count_for_workspace(&self, workspace: &str) -> (r: usize)
        ensures
            r == count_entries(self@, workspace_unread(workspace@)),
    {
        let ghost sel = workspace_unread(workspace@);
        let mut count: usize = 0;
        let mut i: usize = 0;
        while i < self.entries.len()
            invariant
                i <= self.entries@.len(),
                sel == workspace_unread(workspace@),
                count == self@.subrange(0, i as int).filter(sel).len(),
                count <= i,
            decreases self.entries@.len() - i,
        {
            reveal(Seq::filter);
            assert(self@.subrange(0, i + 1).drop_last() =~= self@.subrange(0, i as int));
            assert(self@[i as int] == entry_view(self.entries@[i as int]));
            if self.entries[i].record.unread && str_eq(
                self.entries[i].record.workspace.as_str(),
                workspace,
            ) {
                count += 1;
            }
            i += 1;
        }
        assert(self@.subrange(0, self@.len() as int) =~= self@);
        count
    }

    /// The pane after `current` in `pane_order` (cyclically) that has an unread notification.
    pub fn next_unread_pane(&self, pane_order: &[PaneId], current: Option<PaneId>) -> (r: Option<PaneId>)
        ensures
            navigation_result(self@, pane_order@, current, true, r),
    {
        self.navigate_unread_pane(pane_order, current, true)
    }

    /// The pane before `current` in `pane_order` (cyclically) that has an unread notification.
    pub fn prev_unread_pane(&self, pane_order: &[PaneId], current: Option<PaneId>) -> (r: Option<PaneId>)
        ensures
            navigation_result(self@, pane_order@, current, false, r),
    {
        self.navigate_unread_pane(pane_order, current, false)
    }

    /// The pane the notification `notification_id` is anchored at.
    pub fn anchor_pane_id_for_notification(&self, notification_id: &str) -> (r: Option<PaneId>)
        requires
            self.wf(),
        ensures
            r matches Some(p) ==> exists|k: int|
                0 <= k < self@.len() && #[trigger] self@[k].0.notification_id@ == notification_id@
                    && self@[k].1 == p,
            r is None ==> !has_id(self@, notification_id@),
    {
        let mut i: usize = 0;
        while i < self.entries.len()
            invariant
                i <= self.entries@.len(),
                forall|j: int| 0 <= j < i ==> #[trigger] self@[j].0.notification_id@ != notification_id@,
            decreases self.entries@.len() - i,
        {
            if str_eq(self.entries[i].record.notification_id.as_str(), notification_id) {
                assert(self@[i as int].0.notification_id@ == notification_id@);
                return Some(self.entries[i].anchor_pane_id);
            }
            i += 1;
        }
        None
    }

    /// Moves every notification of `old_workspace` to `new_workspace`, renewing its update
    /// time; returns how many moved.
    pub fn rename_workspace(&mut self, old_workspace: &str, new_workspace: &str) -> (r: usize)
        requires
            old(self).wf(),
        ensures
            final(self).wf(),
            final(self)@.len() == old(self)@.len(),
            forall|i: int|
                0 <= i < old(self)@.len() ==> if (#[trigger] old(self)@[i]).0.workspace@ == old_workspace@ {
                    moved_to(old(self)@[i].0, final(self)@[i].0, new_workspace@)
                        && final(self)@[i].1 == old(self)@[i].1
                } else {
                    final(self)@[i] == old(self)@[i]
                },
            r == count_entries(old(self)@, in_workspace(old_workspace@)),
    {
        let ghost sel = in_workspace(old_workspace@);
        let ghost start = self@;
        let mut changed: usize = 0;
        let mut i: usize = 0;
        while i < self.entries.len()
            invariant
                i <= self.entries@.len(),
                self.entries@.len() == start.len(),
                sel == in_workspace(old_workspace@),
                forall|j: int|
                    0 <= j < i ==> if (#[trigger] start[j]).0.workspace@ == old_workspace@ {
                        moved_to(start[j].0, self@[j].0, new_workspace@) && self@[j].1 == start[j].1
                    } else {
                        self@[j] == start[j]
                    },
                forall|j: int| i <= j < start.len() ==> #[trigger] self@[j] == start[j],
                changed == start.subrange(0, i as int).filter(sel).len(),
                changed <= i,
            decreases start.len() - i,
        {
            reveal(Seq::filter);
            assert(start.subrange(0, i + 1).drop_last() =~= start.subrange(0, i as int));
            assert(self@[i as int] == start[i as int]);
            if str_eq(self.entries[i].record.workspace.as_str(), old_workspace) {
                let mut e = copy_entry(&self.entries[i]);
                e.record.workspace = owned(new_workspace);
                e.record.updated_at = utc_now();
                let ghost before = self@;
                let ghost ev = entry_view(e);
                self.entries.set(i, e);
                assert(self@ =~= before.update(i as int, ev));
                changed += 1;
            }
            i += 1;
        }
        assert(start.subrange(0, start.len() as int) =~= start);
        proof {
            assert(same_ids(start, self@));
            lemma_same_ids_unique(start, self@);
        }
        changed
    }

    /// Unread navigation through `pane_order` from `current`.
    fn navigate_unread_pane(&self, pane_order: &[PaneId], current: Option<PaneId>, forward: bool) -> (r: Option<PaneId>)
        ensures
            navigation_result(self@, pane_order@, current, forward, r),
    {
        let n = pane_order.len();
        let mut flags: Vec<bool> = Vec::new();
        let mut any = false;
        let mut i: usize = 0;
        while i < n
            invariant
                n == pane_order@.len(),
                i <= n,
                flags@.len() == i,
                forall|j: int| 0 <= j < i ==> #[trigger] flags@[j] == unread_at(self@, pane_order@, j),
                any == exists|j: int| 0 <= j < i && #[trigger] unread_at(self@, pane_order@, j),
            decreases n - i,
        {
            let f = self.has_unread_at(pane_order[i]);
            flags.push(f);
            assert(f == unread_at(self@, pane_order@, i as int));
            if f {
                any = true;
            }
            i += 1;
        }
        if !any {
            return None;
        }
        let (found, pos) = match current {
            Some(c) => match first_position(pane_order, c) {
                Some(p) => (true, p),
                None => (false, 0),
            },
            None => (false, 0),
        };
        if found {
            let ghost c = current->0;
            assert(is_first_index(pane_order@, c, pos as int));
            assert(pane_order@.contains(c));
            let mut step: usize = 0;
            while step < n
                invariant
                    n == pane_order@.len(),
                    flags@.len() == n,
                    forall|j: int| 0 <= j < n ==> #[trigger] flags@[j] == unread_at(self@, pane_order@, j),
                    pos < n,
                    step <= n,
                    is_first_index(pane_order@, c, pos as int),
                    current is Some && current->0 == c,
                    pane_order@.contains(c),
                    forall|j: int|
                        0 <= j < n && cyclic_rank(n as int, pos as int, j, forward) < step ==> !#[trigger] unread_at(
                            self@,
                            pane_order@,
                            j,
                        ),
                decreases n - step,
            {
                let k: usize = if forward {
                    if step < n - 1 - pos {
                        pos + 1 + step
                    } else {
                        step - (n - 1 - pos)
                    }
                } else {
                    if step < pos {
                        pos - 1 - step
                    } else {
                        n - 1 - (step - pos)
                    }
                };
                assert(cyclic_rank(n as int, pos as int, k as int, forward) == step);
                if flags[k] {
                    assert(unread_at(self@, pane_order@, k as int));
                    assert(current is Some && pane_order@.contains(current->0));
                    assert(forall|j: int|
                        0 <= j < pane_order@.len() && cyclic_rank(pane_order@.len() as int, pos as int, j, forward)
                            < cyclic_rank(pane_order@.len() as int, pos as int, k as int, forward) ==> !#[trigger] unread_at(
                            self@,
                            pane_order@,
                            j,
                        ));
                    assert(navigation_target(self@, pane_order@, current, forward, k as int));
                    return Some(pane_order[k]);
                }
                step += 1;
            }
            assert forall|k: int| 0 <= k < pane_order@.len() implies !#[trigger] unread_at(self@, pane_order@, k) by {
                lemma_rank_range(n as int, pos as int, k, forward);
            }
            return None;
        }
        if forward {
            let mut k: usize = 0;
            while k < n
                invariant
                    n == pane_order@.len(),
                    flags@.len() == n,
                    forall|j: int| 0 <= j < n ==> #[trigger] flags@[j] == unread_at(self@, pane_order@, j),
                    k <= n,
                    forward,
                    !(current is Some && pane_order@.contains(current->0)),
                    forall|j: int| 0 <= j < k ==> !#[trigger] unread_at(self@, pane_order@, j),
                decreases n - k,
            {
                if flags[k] {
                    assert(unread_at(self@, pane_order@, k as int));
                    assert(!(current is Some && pane_order@.contains(current->0)));
                    assert(navigation_target(self@, pane_order@, current, forward, k as int));
                    return Some(pane_order[k]);
                }
                k += 1;
            }
            None
        } else {
            let mut k: usize = n;
            while k > 0
                invariant
                    n == pane_order@.len(),
                    flags@.len() == n,
                    forall|j: int| 0 <= j < n ==> #[trigger] flags@[j] == unread_at(self@, pane_order@, j),
                    k <= n,
                    !forward,
                    !(current is Some && pane_order@.contains(current->0)),
                    forall|j: int| k <= j < n ==> !#[trigger] unread_at(self@, pane_order@, j),
                decreases k,
            {
                k -= 1;
                if flags[k] {
                    assert(navigation_target(self@, pane_order@, current, forward, k as int));
                    return Some(pane_order[k]);
                }
            }
            None
        }
    }
}

} // verus!
