//! The task-center overlay: a list of task-center rows narrowed by a rail section and a typed
//! query, with a selection, a scroll position, inline row actions and two small dialogs (a
//! metadata prompt and a confirmation). Every input is turned into a new overlay state and an
//! effect that the window hosting the overlay carries out.

use crate::task_center::{TaskCenterEntry, TaskCenterEntryView, TaskCenterKind, TaskCenterSource, entry_views, opt_text};
use crate::text::{
    push_char, trim_chars, trimmed,
    append_chars, ascii_lower, chars_eq, chars_of, decimal, decimal_chars, eq_ignore_ascii_case,
    has_prefix, join_chars, joined, lowercase_chars, owned, split_words, str_eq, string_of,
    strip_prefix, views, words,
};
use crate::seq_facts::lemma_filter_push;
use vstd::prelude::*;

verus! {

/// A section of the overlay's left rail.
#[derive(Clone, Copy, Debug, PartialEq, Eq, Structural)]
pub enum TaskCenterSection {
    All,
    Inbox,
    Failed,
    Running,
    Metadata,
    Tasks,
}

/// The rail sections, top to bottom.
pub open spec fn section_order() -> Seq<TaskCenterSection> {
    seq![
        TaskCenterSection::All,
        TaskCenterSection::Inbox,
        TaskCenterSection::Failed,
        TaskCenterSection::Running,
        TaskCenterSection::Metadata,
        TaskCenterSection::Tasks,
    ]
}

/// The name a section is shown under.
pub open spec fn section_label(s: TaskCenterSection) -> Seq<char> {
    match s {
        TaskCenterSection::All => "All"@,
        TaskCenterSection::Inbox => "Inbox"@,
        TaskCenterSection::Failed => "Failed"@,
        TaskCenterSection::Running => "Running"@,
        TaskCenterSection::Metadata => "Metadata"@,
        TaskCenterSection::Tasks => "Tasks"@,
    }
}

/// The icon a section is shown with.
pub open spec fn section_icon(s: TaskCenterSection) -> Seq<char> {
    match s {
        TaskCenterSection::All => "◈"@,
        TaskCenterSection::Inbox => "●"@,
        TaskCenterSection::Failed => "✕"@,
        TaskCenterSection::Running => "◌"@,
        TaskCenterSection::Metadata => "◇"@,
        TaskCenterSection::Tasks => "◦"@,
    }
}

impl TaskCenterSection {
    /// The rail sections, top to bottom.
    pub fn ordered() -> (r: [TaskCenterSection; 6])
        ensures
            r@ == section_order(),
    {
        let r = [
            TaskCenterSection::All,
            TaskCenterSection::Inbox,
            TaskCenterSection::Failed,
            TaskCenterSection::Running,
            TaskCenterSection::Metadata,
            TaskCenterSection::Tasks,
        ];
        assert(r@ =~= section_order());
        r
    }

    /// The name this section is shown under.
    pub fn label(self) -> (r: &'static str)
        ensures
            r@ == section_label(self),
    {
        match self {
            TaskCenterSection::All => "All",
            TaskCenterSection::Inbox => "Inbox",
            TaskCenterSection::Failed => "Failed",
            TaskCenterSection::Running => "Running",
            TaskCenterSection::Metadata => "Metadata",
            TaskCenterSection::Tasks => "Tasks",
        }
    }

    /// The icon this section is shown with.
    pub fn icon(self) -> (r: &'static str)
        ensures
            r@ == section_icon(self),
    {
        match self {
            TaskCenterSection::All => "◈",
            TaskCenterSection::Inbox => "●",
            TaskCenterSection::Failed => "✕",
            TaskCenterSection::Running => "◌",
            TaskCenterSection::Metadata => "◇",
            TaskCenterSection::Tasks => "◦",
        }
    }
}

/// The filters a query sets.
#[derive(Debug, PartialEq, Eq)]
pub struct TaskCenterFilters {
    pub unread: bool,
    pub failed: bool,
    pub running: bool,
    pub workspace: Option<String>,
    pub source: Option<TaskCenterSource>,
    pub kind: Option<TaskCenterKind>,
}

/// The filters, with the workspace as text.
pub struct FiltersView {
    pub unread: bool,
    pub failed: bool,
    pub running: bool,
    pub workspace: Option<Seq<char>>,
    pub source: Option<TaskCenterSource>,
    pub kind: Option<TaskCenterKind>,
}

impl View for TaskCenterFilters {
    type V = FiltersView;

    open spec fn view(&self) -> FiltersView {
        FiltersView {
            unread: self.unread,
            failed: self.failed,
            running: self.running,
            workspace: opt_text(self.workspace),
            source: self.source,
            kind: self.kind,
        }
    }
}

/// No filter set.
pub open spec fn no_filters() -> FiltersView {
    FiltersView { unread: false, failed: false, running: false, workspace: None, source: None, kind: None }
}

impl TaskCenterFilters {
    /// No filter set.
    pub fn none() -> (r: TaskCenterFilters)
        ensures
            r@ == no_filters(),
    {
        TaskCenterFilters { unread: false, failed: false, running: false, workspace: None, source: None, kind: None }
    }
}

/// A query split into its filters and the rest of its words.
#[derive(Debug, PartialEq, Eq)]
pub struct ParsedTaskCenterQuery {
    pub filters: TaskCenterFilters,
    pub free_text: String,
}

/// The lower-case name of a source.
pub open spec fn source_name(s: TaskCenterSource) -> Seq<char> {
    match s {
        TaskCenterSource::Workspace => "workspace"@,
        TaskCenterSource::Tab => "tab"@,
        TaskCenterSource::Pane => "pane"@,
        TaskCenterSource::Notification => "notification"@,
    }
}

/// The lower-case name of a kind.
pub open spec fn kind_name(k: TaskCenterKind) -> Seq<char> {
    match k {
        TaskCenterKind::Workspace => "workspace"@,
        TaskCenterKind::Tab => "tab"@,
        TaskCenterKind::Pane => "pane"@,
        TaskCenterKind::Notification => "notification"@,
    }
}

/// The source a word names, ignoring ASCII case.
pub open spec fn source_named(input: Seq<char>) -> Option<TaskCenterSource> {
    let l = ascii_lower(input);
    if l == "workspace"@ {
        Some(TaskCenterSource::Workspace)
    } else if l == "tab"@ {
        Some(TaskCenterSource::Tab)
    } else if l == "pane"@ {
        Some(TaskCenterSource::Pane)
    } else if l == "notification"@ {
        Some(TaskCenterSource::Notification)
    } else {
        None
    }
}

/// The kind a word names, ignoring ASCII case.
pub open spec fn kind_named(input: Seq<char>) -> Option<TaskCenterKind> {
    let l = ascii_lower(input);
    if l == "workspace"@ {
        Some(TaskCenterKind::Workspace)
    } else if l == "tab"@ {
        Some(TaskCenterKind::Tab)
    } else if l == "pane"@ {
        Some(TaskCenterKind::Pane)
    } else if l == "notification"@ {
        Some(TaskCenterKind::Notification)
    } else {
        None
    }
}

/// The effect of one query word on the filters and the free words read so far: `unread`,
/// `failed` and `running` (in any ASCII case) set their flag; `workspace:NAME` sets the
/// workspace where NAME is not empty; `source:NAME` and `kind:NAME` set the source or kind NAME
/// names (none where it names none); any other word is free text.
pub open spec fn apply_word(st: (FiltersView, Seq<Seq<char>>), tok: Seq<char>) -> (FiltersView, Seq<Seq<char>>) {
    let (f, free) = st;
    let l = ascii_lower(tok);
    if l == ascii_lower("unread"@) {
        (FiltersView { unread: true, ..f }, free)
    } else if l == ascii_lower("failed"@) {
        (FiltersView { failed: true, ..f }, free)
    } else if l == ascii_lower("running"@) {
        (FiltersView { running: true, ..f }, free)
    } else if has_prefix(tok, "workspace:"@) {
        let rest = tok.subrange("workspace:"@.len() as int, tok.len() as int);
        if rest.len() > 0 {
            (FiltersView { workspace: Some(rest), ..f }, free)
        } else {
            (f, free)
        }
    } else if has_prefix(tok, "source:"@) {
        (FiltersView { source: source_named(tok.subrange("source:"@.len() as int, tok.len() as int)), ..f }, free)
    } else if has_prefix(tok, "kind:"@) {
        (FiltersView { kind: kind_named(tok.subrange("kind:"@.len() as int, tok.len() as int)), ..f }, free)
    } else {
        (f, free.push(tok))
    }
}

/// The filters and free words of a sequence of query words, read left to right.
pub open spec fn apply_words(toks: Seq<Seq<char>>) -> (FiltersView, Seq<Seq<char>>)
    decreases toks.len(),
{
    if toks.len() == 0 {
        (no_filters(), Seq::empty())
    } else {
        apply_word(apply_words(toks.drop_last()), toks.last())
    }
}

/// The filters of a query.
pub open spec fn query_filters(q: Seq<char>) -> FiltersView {
    apply_words(words(q)).0
}

/// The free text of a query: its free words joined by single spaces.
pub open spec fn query_free_text(q: Seq<char>) -> Seq<char> {
    joined(apply_words(words(q)).1, " "@)
}

/// The text a row is searched by: its label, workspace, source and kind names, source and kind
/// labels, workspace status and progress, joined by single spaces.
pub open spec fn searchable(e: TaskCenterEntryView) -> Seq<char> {
    let base = seq![e.label, e.workspace, source_name(e.source), kind_name(e.kind)];
    let a = match e.source_label {
        Some(s) => base.push(s),
        None => base,
    };
    let b = match e.kind_label {
        Some(s) => a.push(s),
        None => a,
    };
    let c = match e.workspace_status {
        Some(s) => b.push(s),
        None => b,
    };
    let d = match e.workspace_progress {
        Some(p) => c.push(decimal(p as nat)),
        None => c,
    };
    joined(d, " "@)
}

/// A row passes the filters.
pub open spec fn passes_filters(e: TaskCenterEntryView, f: FiltersView) -> bool {
    &&& !(f.unread && e.unread_count == 0)
    &&& !(f.failed && !e.is_failed)
    &&& !(f.running && !e.is_running)
    &&& (f.workspace matches Some(w) ==> e.workspace == w)
    &&& (f.source matches Some(s) ==> e.source == s)
    &&& (f.kind matches Some(k) ==> e.kind == k)
}

/// A row belongs to a rail section.
pub open spec fn in_section(s: TaskCenterSection, e: TaskCenterEntryView) -> bool {
    match s {
        TaskCenterSection::All => true,
        TaskCenterSection::Inbox => e.unread_count > 0,
        TaskCenterSection::Failed => e.is_failed,
        TaskCenterSection::Running => e.is_running,
        TaskCenterSection::Metadata => e.workspace_status is Some || e.workspace_progress is Some,
        TaskCenterSection::Tasks => e.kind == TaskCenterKind::Pane,
    }
}

/// `a` can be read off `b` by skipping characters.
pub open spec fn is_subsequence(a: Seq<char>, b: Seq<char>) -> bool
    decreases b.len(),
{
    if a.len() == 0 {
        true
    } else if b.len() == 0 {
        false
    } else if a.last() == b.last() {
        is_subsequence(a.drop_last(), b.drop_last())
    } else {
        is_subsequence(a, b.drop_last())
    }
}

/// Every word of `free` can be read off `hay` by skipping characters, ignoring ASCII case.
pub open spec fn text_matches(free: Seq<char>, hay: Seq<char>) -> bool {
    forall|i: int| 0 <= i < words(free).len() ==> is_subsequence(ascii_lower(#[trigger] words(free)[i]), ascii_lower(hay))
}

/// Whether `a` can be read off `b` by skipping characters.
fn subsequence_of(a: &[char], b: &[char]) -> (r: bool)
    ensures
        r == is_subsequence(a@, b@),
{
    let mut i: usize = a.len();
    let mut j: usize = b.len();
    assert(a@.subrange(0, a@.len() as int) =~= a@);
    assert(b@.subrange(0, b@.len() as int) =~= b@);
    while i > 0 && j > 0
        invariant
            i <= a@.len(),
            j <= b@.len(),
            is_subsequence(a@, b@) == is_subsequence(a@.subrange(0, i as int), b@.subrange(0, j as int)),
        decreases j,
    {
        let ghost ai = a@.subrange(0, i as int);
        let ghost bj = b@.subrange(0, j as int);
        assert(ai.drop_last() =~= a@.subrange(0, i - 1));
        assert(bj.drop_last() =~= b@.subrange(0, j - 1));
        if a[i - 1] == b[j - 1] {
            i -= 1;
        }
        j -= 1;
    }
    assert(a@.subrange(0, 0) =~= Seq::<char>::empty());
    i == 0
}

/// Whether every word of `free` can be read off `hay`, ignoring ASCII case.
fn free_text_matches(free: &str, hay: &str) -> (r: bool)
    ensures
        r == text_matches(free@, hay@),
{
    let fc = chars_of(free);
    let ws = split_words(fc.as_slice());
    let hc = chars_of(hay);
    let lh = lowercase_chars(hc.as_slice());
    let mut i: usize = 0;
    while i < ws.len()
        invariant
            i <= ws@.len(),
            ws@.map_values(|w: Vec<char>| w@) == words(free@),
            fc@ == free@,
            lh@ == ascii_lower(hay@),
            forall|k: int| 0 <= k < i ==> is_subsequence(ascii_lower(#[trigger] words(free@)[k]), ascii_lower(hay@)),
        decreases ws@.len() - i,
    {
        let lw = lowercase_chars(ws[i].as_slice());
        assert(ws@[i as int]@ == words(free@)[i as int]);
        if !subsequence_of(lw.as_slice(), lh.as_slice()) {
            return false;
        }
        i += 1;
    }
    true
}

/// The source a word names, ignoring ASCII case.
pub fn parse_source(input: &str) -> (r: Option<TaskCenterSource>)
    ensures
        r == source_named(input@),
{
    let c = chars_of(input);
    let l = lowercase_chars(c.as_slice());
    if chars_eq(l.as_slice(), chars_of("workspace").as_slice()) {
        Some(TaskCenterSource::Workspace)
    } else if chars_eq(l.as_slice(), chars_of("tab").as_slice()) {
        Some(TaskCenterSource::Tab)
    } else if chars_eq(l.as_slice(), chars_of("pane").as_slice()) {
        Some(TaskCenterSource::Pane)
    } else if chars_eq(l.as_slice(), chars_of("notification").as_slice()) {
        Some(TaskCenterSource::Notification)
    } else {
        None
    }
}

/// The kind a word names, ignoring ASCII case.
pub fn parse_kind(input: &str) -> (r: Option<TaskCenterKind>)
    ensures
        r == kind_named(input@),
{
    let c = chars_of(input);
    let l = lowercase_chars(c.as_slice());
    if chars_eq(l.as_slice(), chars_of("workspace").as_slice()) {
        Some(TaskCenterKind::Workspace)
    } else if chars_eq(l.as_slice(), chars_of("tab").as_slice()) {
        Some(TaskCenterKind::Tab)
    } else if chars_eq(l.as_slice(), chars_of("pane").as_slice()) {
        Some(TaskCenterKind::Pane)
    } else if chars_eq(l.as_slice(), chars_of("notification").as_slice()) {
        Some(TaskCenterKind::Notification)
    } else {
        None
    }
}

/// The lower-case name of a source.
fn source_name_text(s: TaskCenterSource) -> (r: &'static str)
    ensures
        r@ == source_name(s),
{
    match s {
        TaskCenterSource::Workspace => "workspace",
        TaskCenterSource::Tab => "tab",
        TaskCenterSource::Pane => "pane",
        TaskCenterSource::Notification => "notification",
    }
}

/// The lower-case name of a kind.
fn kind_name_text(k: TaskCenterKind) -> (r: &'static str)
    ensures
        r@ == kind_name(k),
{
    match k {
        TaskCenterKind::Workspace => "workspace",
        TaskCenterKind::Tab => "tab",
        TaskCenterKind::Pane => "pane",
        TaskCenterKind::Notification => "notification",
    }
}

/// `a` followed by `b`.
fn concat_text(a: &str, b: &str) -> (r: Vec<char>)
    ensures
        r@ == a@ + b@,
{
    let mut v = chars_of(a);
    let w = chars_of(b);
    append_chars(&mut v, w.as_slice());
    v
}

/// The parts joined by `sep`.
fn join_text(parts: &Vec<Vec<char>>, sep: &str) -> (r: String)
    ensures
        r@ == joined(parts@.map_values(|w: Vec<char>| w@), sep@),
{
    let s = chars_of(sep);
    let j = join_chars(parts, s.as_slice());
    string_of(j.as_slice())
}





/// An action offered inline on the selected row.
#[derive(Clone, Copy, Debug, PartialEq, Eq, Structural)]
pub enum RowAction {
    Focus,
    ClearUnread,
    Rerun,
    ToggleRemainOnExit,
    EditStatus,
    EditProgress,
    ClearMetadata,
}

/// Where on a row (in terminal columns, end excluded) an inline action sits.
#[derive(Clone, Copy, Debug, PartialEq, Eq, Structural)]
pub struct ActionTarget {
    pub action: RowAction,
    pub start: usize,
    pub end: usize,
}

/// The text of a row and where its inline actions sit.
#[derive(Debug, PartialEq, Eq)]
pub struct RowLayout {
    pub text: String,
    pub action_targets: Vec<ActionTarget>,
}

/// The badges shown after a row's label.
pub open spec fn row_suffixes(e: TaskCenterEntryView) -> Seq<Seq<char>> {
    let source = match e.source_label {
        Some(s) => s,
        None => source_name(e.source),
    };
    let s0 = seq!["⌂ "@ + e.workspace, "◦ "@ + source];
    let s1 = match e.kind_label {
        Some(k) => s0.push(k),
        None => s0,
    };
    let s2 = if e.unread_count > 0 {
        s1.push("●"@ + decimal(e.unread_count))
    } else {
        s1
    };
    let s3 = if e.is_failed {
        s2.push("✕"@)
    } else {
        s2
    };
    let s4 = if e.is_running {
        s3.push("◌"@)
    } else {
        s3
    };
    let s5 = if e.rerun_available {
        s4.push("↺"@)
    } else {
        s4
    };
    let s6 = match e.workspace_status {
        Some(s) => s5.push("◇ "@ + s),
        None => s5,
    };
    match e.workspace_progress {
        Some(p) => s6.push("◔ "@ + decimal(p as nat) + "%"@),
        None => s6,
    }
}

/// A row's text: its label, two spaces, and its badges separated by two spaces.
pub open spec fn row_text(e: TaskCenterEntryView) -> Seq<char> {
    e.label + "  "@ + joined(row_suffixes(e), "  "@)
}

/// The remain-on-exit setting recorded for pane `p`: that of the last pair of `p`.
pub open spec fn remain_in(known: Seq<(u64, bool)>, p: u64) -> Option<bool>
    decreases known.len(),
{
    if known.len() == 0 {
        None
    } else if known.last().0 == p {
        Some(known.last().1)
    } else {
        remain_in(known.drop_last(), p)
    }
}

/// Whether a row's pane keeps its output on exit: the setting recorded for its pane where
/// there is one, else off for a remembered task pane, else unknown.
pub open spec fn remain_state(e: TaskCenterEntryView, known: Seq<(u64, bool)>) -> Option<bool> {
    let recorded = match e.pane_id {
        Some(p) => remain_in(known, p),
        None => None,
    };
    match recorded {
        Some(v) => Some(v),
        None => if e.kind_label == Some("task-pane"@) {
            Some(false)
        } else {
            None
        },
    }
}

/// The inline actions of a row with their labels: open; clear where it has unread
/// notifications; rerun where it failed and can be rerun; the hold toggle where its
/// remain-on-exit setting is known; status; progress; and clear where it shows metadata.
pub open spec fn row_actions(e: TaskCenterEntryView, known: Seq<(u64, bool)>) -> Seq<(RowAction, Seq<char>)> {
    let a0 = seq![(RowAction::Focus, "[⏎ open]"@)];
    let a1 = if e.unread_count > 0 && e.notification_ids.len() > 0 {
        a0.push((RowAction::ClearUnread, "[● clear]"@))
    } else {
        a0
    };
    let a2 = if e.is_failed && e.rerun_available {
        a1.push((RowAction::Rerun, "[↺ rerun]"@))
    } else {
        a1
    };
    let a3 = match remain_state(e, known) {
        Some(v) => a2.push((RowAction::ToggleRemainOnExit, "[◎ hold:"@ + (if v { "on"@ } else { "off"@ }) + "]"@)),
        None => a2,
    };
    let a4 = a3.push((RowAction::EditStatus, "[◇ status]"@)).push((RowAction::EditProgress, "[◔ progress]"@));
    if e.workspace_status is Some || e.workspace_progress is Some {
        a4.push((RowAction::ClearMetadata, "[⌫ clear]"@))
    } else {
        a4
    }
}

/// The number of terminal columns termwiz's `unicode_column_width` (with the latest Unicode
/// version) gives a text.
pub uninterp spec fn column_width(s: Seq<char>) -> nat;

/// `n`, or the largest `usize` where it is larger.
pub open spec fn capped(n: int) -> int {
    if n > usize::MAX {
        usize::MAX as int
    } else {
        n
    }
}

/// The column after laying out the action labels from column `c0`, each after one space.
pub open spec fn cursor_after(labels: Seq<(RowAction, Seq<char>)>, c0: int) -> int
    decreases labels.len(),
{
    if labels.len() == 0 {
        c0
    } else {
        capped(capped(cursor_after(labels.drop_last(), c0) + 1) + column_width(labels.last().1))
    }
}

/// Where the action labels sit when laid out from column `c0`.
pub open spec fn targets_from(labels: Seq<(RowAction, Seq<char>)>, c0: int) -> Seq<ActionTarget>
    decreases labels.len(),
{
    if labels.len() == 0 {
        Seq::empty()
    } else {
        let start = capped(cursor_after(labels.drop_last(), c0) + 1);
        targets_from(labels.drop_last(), c0).push(
            ActionTarget { action: labels.last().0, start: start as usize, end: cursor_after(labels, c0) as usize },
        )
    }
}

/// The action labels, each after one space.
pub open spec fn labels_text(labels: Seq<(RowAction, Seq<char>)>) -> Seq<char>
    decreases labels.len(),
{
    if labels.len() == 0 {
        Seq::empty()
    } else {
        labels_text(labels.drop_last()) + " "@ + labels.last().1
    }
}

/// The action under column `x`: the first target whose columns hold it.
pub open spec fn action_hit(targets: Seq<ActionTarget>, x: usize) -> Option<RowAction>
    decreases targets.len(),
{
    if targets.len() == 0 {
        None
    } else if targets[0].start <= x && x < targets[0].end {
        Some(targets[0].action)
    } else {
        action_hit(targets.drop_first(), x)
    }
}

/// termwiz's `unicode_column_width` with the latest Unicode version: the terminal columns that
/// `s` takes. Claimed: the result is `column_width` of the text.
#[verifier::external_body]
fn text_width(s: &str) -> (r: usize)
    ensures
        r == column_width(s@),
{
    termwiz::cell::unicode_column_width(s, None)
}


/// Appends `v` to `parts` where `cond` holds.
fn push_if(parts: &mut Vec<Vec<char>>, cond: bool, v: Vec<char>)
    ensures
        final(parts)@.map_values(|w: Vec<char>| w@) == if cond {
            old(parts)@.map_values(|w: Vec<char>| w@).push(v@)
        } else {
            old(parts)@.map_values(|w: Vec<char>| w@)
        },
{
    let ghost before = parts@.map_values(|w: Vec<char>| w@);
    if cond {
        parts.push(v);
        assert(parts@.map_values(|w: Vec<char>| w@) =~= before.push(v@));
    }
}

/// The badges of a row.
#[verifier::spinoff_prover]
#[verifier::rlimit(30)]
fn row_suffix_parts(entry: &TaskCenterEntry) -> (parts: Vec<Vec<char>>)
    ensures
        parts@.map_values(|w: Vec<char>| w@) == row_suffixes(entry@),
{
    let ghost e = entry@;
    let mut parts: Vec<Vec<char>> = Vec::new();
    parts.push(concat_text("⌂ ", entry.workspace.as_str()));
    let source = match &entry.source_label {
        Some(s) => concat_text("◦ ", s.as_str()),
        None => concat_text("◦ ", source_name_text(entry.source)),
    };
    parts.push(source);
    let ghost s0 = parts@.map_values(|w: Vec<char>| w@);
    let kind = match &entry.kind_label {
        Some(k) => chars_of(k.as_str()),
        None => Vec::new(),
    };
    push_if(&mut parts, entry.kind_label.is_some(), kind);
    let mut unread = chars_of("●");
    let d = decimal_chars(entry.unread_count as u64);
    append_chars(&mut unread, d.as_slice());
    push_if(&mut parts, entry.unread_count > 0, unread);
    push_if(&mut parts, entry.is_failed, chars_of("✕"));
    push_if(&mut parts, entry.is_running, chars_of("◌"));
    push_if(&mut parts, entry.rerun_available, chars_of("↺"));
    let status = match &entry.workspace_status {
        Some(s) => concat_text("◇ ", s.as_str()),
        None => Vec::new(),
    };
    push_if(&mut parts, entry.workspace_status.is_some(), status);
    let mut progress = chars_of("◔ ");
    let p: u8 = match entry.workspace_progress {
        Some(p) => p,
        None => 0,
    };
    let pd = decimal_chars(p as u64);
    append_chars(&mut progress, pd.as_slice());
    let pct = chars_of("%");
    append_chars(&mut progress, pct.as_slice());
    push_if(&mut parts, entry.workspace_progress.is_some(), progress);
    parts
}

/// The remain-on-exit setting recorded for pane `p`.
fn remain_lookup(known: &[(u64, bool)], p: u64) -> (r: Option<bool>)
    ensures
        r == remain_in(known@, p),
{
    let mut r: Option<bool> = None;
    let mut i: usize = 0;
    while i < known.len()
        invariant
            i <= known@.len(),
            r == remain_in(known@.subrange(0, i as int), p),
        decreases known@.len() - i,
    {
        assert(known@.subrange(0, i + 1).drop_last() =~= known@.subrange(0, i as int));
        if known[i].0 == p {
            r = Some(known[i].1);
        }
        i += 1;
    }
    assert(known@.subrange(0, known@.len() as int) =~= known@);
    r
}


/// Appends an action with its label.
fn push_action(actions: &mut Vec<(RowAction, String)>, action: RowAction, label: &str)
    ensures
        final(actions)@.map_values(|a: (RowAction, String)| (a.0, a.1@)) == old(actions)@.map_values(
            |a: (RowAction, String)| (a.0, a.1@),
        ).push((action, label@)),
{
    let ghost before = actions@.map_values(|a: (RowAction, String)| (a.0, a.1@));
    actions.push((action, owned(label)));
    assert(actions@.map_values(|a: (RowAction, String)| (a.0, a.1@)) =~= before.push((action, label@)));
}



/// The action under column `x` of a layout.
fn hit_action(targets: &Vec<ActionTarget>, x: usize) -> (r: Option<RowAction>)
    ensures
        r == action_hit(targets@, x),
{
    let mut i: usize = 0;
    assert(targets@.subrange(0, targets@.len() as int) =~= targets@);
    while i < targets.len()
        invariant
            i <= targets@.len(),
            action_hit(targets@, x) == action_hit(targets@.subrange(i as int, targets@.len() as int), x),
        decreases targets@.len() - i,
    {
        let ghost rest = targets@.subrange(i as int, targets@.len() as int);
        assert(rest[0] == targets@[i as int]);
        assert(rest.drop_first() =~= targets@.subrange(i + 1, targets@.len() as int));
        if targets[i].start <= x && x < targets[i].end {
            return Some(targets[i].action);
        }
        i += 1;
    }
    None
}

/// Which metadata a prompt edits.
#[derive(Clone, Copy, Debug, PartialEq, Eq, Structural)]
pub enum PromptKind {
    Status,
    Progress,
}

/// An open metadata prompt.
#[derive(Debug, PartialEq, Eq)]
pub struct PromptState {
    pub kind: PromptKind,
    pub workspace: String,
    pub input: String,
    pub error: Option<String>,
}

impl Clone for PromptState {
    fn clone(&self) -> (r: Self)
        ensures
            r == *self,
    {
        PromptState {
            kind: self.kind,
            workspace: self.workspace.clone(),
            input: self.input.clone(),
            error: match &self.error {
                Some(e) => Some(e.clone()),
                None => None,
            },
        }
    }
}

/// An open confirmation to clear a workspace's metadata.
#[derive(Debug, PartialEq, Eq)]
pub struct ConfirmState {
    pub workspace: String,
}

/// What the overlay shows.
#[derive(Debug, PartialEq, Eq)]
pub enum OverlayMode {
    List,
    Prompt(PromptState),
    Confirm(ConfirmState),
}

/// The row last clicked and how many clicks in a row it got.
#[derive(Clone, Copy, Debug, PartialEq, Eq, Structural)]
pub struct ClickState {
    pub row: usize,
    pub streak: usize,
}

/// What the window hosting the overlay is asked to do after an input.
#[derive(Debug, PartialEq, Eq)]
pub enum OverlayEffect {
    /// Nothing.
    Nothing,
    /// Focus the row's target.
    Focus(TaskCenterEntry),
    /// Mark the row's unread notifications read.
    ClearUnread(TaskCenterEntry),
    /// Rerun the row's task.
    Rerun(TaskCenterEntry),
    /// Set the row's pane to keep (or not) its output on exit.
    SetRemainOnExit(TaskCenterEntry, bool),
    /// Set a workspace's status.
    SetStatus(String, String),
    /// Clear a workspace's status.
    ClearStatus(String),
    /// Set a workspace's progress.
    SetProgress(String, u8),
    /// Clear a workspace's progress.
    ClearProgress(String),
    /// Clear a workspace's status and progress.
    ClearMetadata(String),
}

impl OverlayEffect {
    /// Whether the rows are to be synced from the multiplexer once the effect is carried out.
    pub fn needs_resync(&self) -> (r: bool)
        ensures
            r == !(self is Nothing || self is Focus || self is Rerun),
    {
        match self {
            OverlayEffect::Nothing => false,
            OverlayEffect::Focus(_) => false,
            OverlayEffect::Rerun(_) => false,
            _ => true,
        }
    }
}

/// The answer to an input: whether the overlay closes, and what the window is to do.
#[derive(Debug, PartialEq, Eq)]
pub struct OverlayReply {
    pub close: bool,
    pub effect: OverlayEffect,
}

/// The modifier keys held with a key.
#[derive(Clone, Copy, Debug, PartialEq, Eq, Structural)]
pub struct KeyModifiers {
    pub shift: bool,
    pub ctrl: bool,
    pub alt: bool,
    pub super_key: bool,
}

/// No modifier held.
pub open spec fn no_modifiers(m: KeyModifiers) -> bool {
    !m.shift && !m.ctrl && !m.alt && !m.super_key
}

/// A key pressed in the overlay.
#[derive(Clone, Copy, Debug, PartialEq, Eq, Structural)]
pub enum OverlayKey {
    Enter,
    Escape,
    Backspace,
    UpArrow,
    DownArrow,
    LeftArrow,
    RightArrow,
    Char(char, KeyModifiers),
    Other,
}

/// The mouse buttons and wheel state of a mouse event.
#[derive(Clone, Copy, Debug, PartialEq, Eq, Structural)]
pub struct MouseButtonsState {
    pub left: bool,
    pub right: bool,
    pub middle: bool,
    pub vert_wheel: bool,
    pub horz_wheel: bool,
    pub wheel_positive: bool,
}

/// The left button and nothing else.
pub open spec fn left_only(b: MouseButtonsState) -> bool {
    b.left && !b.right && !b.middle && !b.vert_wheel && !b.horz_wheel && !b.wheel_positive
}

impl MouseButtonsState {
    /// The left button alone.
    pub fn left_button() -> (r: MouseButtonsState)
        ensures
            left_only(r),
    {
        MouseButtonsState { left: true, right: false, middle: false, vert_wheel: false, horz_wheel: false, wheel_positive: false }
    }

    /// The vertical wheel turned down (toward later rows).
    pub fn wheel_down() -> (r: MouseButtonsState)
        ensures
            r.vert_wheel && !r.wheel_positive && !r.left,
    {
        MouseButtonsState { left: false, right: false, middle: false, vert_wheel: true, horz_wheel: false, wheel_positive: false }
    }

    /// The vertical wheel turned up (toward earlier rows).
    pub fn wheel_up() -> (r: MouseButtonsState)
        ensures
            r.vert_wheel && r.wheel_positive && !r.left,
    {
        MouseButtonsState { left: false, right: false, middle: false, vert_wheel: true, horz_wheel: false, wheel_positive: true }
    }
}

/// A mouse event in the overlay, at terminal cell (`x`, `y`).
#[derive(Clone, Copy, Debug, PartialEq, Eq, Structural)]
pub struct MouseInput {
    pub x: u16,
    pub y: u16,
    pub buttons: MouseButtonsState,
}

/// The screen line of the first list row.
pub const ROW_START_Y: usize = 3;

/// The width of the left rail.
pub const RAIL_WIDTH: usize = 18;

/// The column where rows start.
pub const CONTENT_START_X: usize = 20;

/// The screen lines that the list screen takes besides its rows.
pub const ROW_OVERHEAD: usize = 4;

/// `a - b`, or 0 where `b` is larger.
pub open spec fn minus_or_zero(a: int, b: int) -> int {
    if a >= b {
        a - b
    } else {
        0
    }
}

/// The list screen's columns on a screen `cols` wide: the rail's width (at most
/// `RAIL_WIDTH`, leaving four columns), the column where rows start (two past the rail, on
/// screen), and the width left for a row (to the last column but one).
pub open spec fn list_columns(cols: int) -> (int, int, int) {
    let rail = if RAIL_WIDTH < minus_or_zero(cols, 4) {
        RAIL_WIDTH as int
    } else {
        minus_or_zero(cols, 4)
    };
    let start = if rail + 2 < minus_or_zero(cols, 1) {
        rail + 2
    } else {
        minus_or_zero(cols, 1)
    };
    (rail, start, minus_or_zero(cols, start + 1))
}

/// The list screen's columns on a screen `cols` wide (see `list_columns`).
pub fn list_layout(cols: usize) -> (r: (usize, usize, usize))
    ensures
        (r.0 as int, r.1 as int, r.2 as int) == list_columns(cols as int),
{
    let room = cols.saturating_sub(4);
    let rail = if RAIL_WIDTH < room {
        RAIL_WIDTH
    } else {
        room
    };
    let last = cols.saturating_sub(1);
    let start = if rail + 2 < last {
        rail + 2
    } else {
        last
    };
    (rail, start, cols.saturating_sub(start + 1))
}

/// The filters of the query and the section, as the header names them.
pub open spec fn summary_parts(section: TaskCenterSection, f: FiltersView) -> Seq<Seq<char>> {
    let p0 = seq![ascii_lower(section_label(section))];
    let p1 = if f.unread { p0.push("unread"@) } else { p0 };
    let p2 = if f.failed { p1.push("failed"@) } else { p1 };
    let p3 = if f.running { p2.push("running"@) } else { p2 };
    let p4 = match f.workspace {
        Some(w) => p3.push("workspace:"@ + w),
        None => p3,
    };
    let p5 = match f.source {
        Some(s) => p4.push("source:"@ + source_name(s)),
        None => p4,
    };
    match f.kind {
        Some(k) => p5.push("kind:"@ + kind_name(k)),
        None => p5,
    }
}

/// The value of a string of ASCII digits.
pub open spec fn digits_value(s: Seq<char>) -> int
    decreases s.len(),
{
    if s.len() == 0 {
        0
    } else {
        digits_value(s.drop_last()) * 10 + (s.last() as int - '0' as int)
    }
}

/// Every character is an ASCII digit.
pub open spec fn all_digits(s: Seq<char>) -> bool {
    forall|i: int| 0 <= i < s.len() ==> '0' <= #[trigger] s[i] && s[i] <= '9'
}

/// The `u8` a text spells (`str::parse::<u8>`): an optional `+`, then at least one ASCII digit,
/// with a value up to 255.
pub open spec fn parsed_u8(s: Seq<char>) -> Option<u8> {
    let d = if s.len() > 0 && s[0] == '+' {
        s.drop_first()
    } else {
        s
    };
    if d.len() > 0 && all_digits(d) && digits_value(d) <= 255 {
        Some(digits_value(d) as u8)
    } else {
        None
    }
}

/// The text of a progress value, or nothing.
pub open spec fn progress_input(p: Option<u8>) -> Seq<char> {
    match p {
        Some(v) => decimal(v as nat),
        None => Seq::empty(),
    }
}

/// `m` is the status prompt for row `e`.
pub open spec fn status_prompt_for(e: TaskCenterEntryView, m: OverlayMode) -> bool {
    m matches OverlayMode::Prompt(p) && p.kind == PromptKind::Status && p.workspace@ == e.workspace
        && p.input@ == (match e.workspace_status {
        Some(s) => s,
        None => Seq::empty(),
    }) && p.error is None
}

/// `m` is the progress prompt for row `e`.
pub open spec fn progress_prompt_for(e: TaskCenterEntryView, m: OverlayMode) -> bool {
    m matches OverlayMode::Prompt(p) && p.kind == PromptKind::Progress && p.workspace@ == e.workspace
        && p.input@ == progress_input(e.workspace_progress) && p.error is None
}

/// `m` is the confirmation to clear row `e`'s workspace metadata.
pub open spec fn confirm_for(e: TaskCenterEntryView, m: OverlayMode) -> bool {
    m matches OverlayMode::Confirm(c) && c.workspace@ == e.workspace
}

/// The effect an inline action asks for on the selected row `sel`: focus (where a row is
/// selected); clearing its unread notifications (where it has some); a rerun (where it failed
/// and can be rerun); flipping its hold setting (where that is known); nothing otherwise.
pub open spec fn action_effect(a: RowAction, sel: Option<TaskCenterEntryView>, known: Seq<(u64, bool)>, eff: OverlayEffect) -> bool {
    match (a, sel) {
        (RowAction::Focus, Some(e)) => eff matches OverlayEffect::Focus(x) && x@ == e,
        (RowAction::ClearUnread, Some(e)) => if e.unread_count > 0 && e.notification_ids.len() > 0 {
            eff matches OverlayEffect::ClearUnread(x) && x@ == e
        } else {
            eff is Nothing
        },
        (RowAction::Rerun, Some(e)) => if e.is_failed && e.rerun_available {
            eff matches OverlayEffect::Rerun(x) && x@ == e
        } else {
            eff is Nothing
        },
        (RowAction::ToggleRemainOnExit, Some(e)) => match remain_state(e, known) {
            Some(v) => eff matches OverlayEffect::SetRemainOnExit(x, b) && x@ == e && b == !v,
            None => eff is Nothing,
        },
        _ => eff is Nothing,
    }
}

/// The mode after an inline action on the selected row `sel`: the status or progress prompt
/// or the clear confirmation for it, where one of those is asked for and a row is selected;
/// otherwise the mode as it was.
pub open spec fn action_mode(a: RowAction, sel: Option<TaskCenterEntryView>, before: OverlayMode, after: OverlayMode) -> bool {
    match (a, sel) {
        (RowAction::EditStatus, Some(e)) => status_prompt_for(e, after),
        (RowAction::EditProgress, Some(e)) => progress_prompt_for(e, after),
        (RowAction::ClearMetadata, Some(e)) => confirm_for(e, after),
        _ => after == before,
    }
}

/// Focusing and rerunning close the overlay; the other actions keep it open.
pub open spec fn action_closes(a: RowAction) -> bool {
    a == RowAction::Focus || a == RowAction::Rerun
}

/// What submitting prompt `p` gives: for a status, the trimmed input as the new status (or
/// clearing it where blank); for a progress, clearing it where blank, the value where the
/// trimmed input spells a number up to 100, and otherwise the prompt again with an error.
pub open spec fn submit_outcome(p: PromptState, mode: OverlayMode, eff: OverlayEffect) -> bool {
    let t = trimmed(p.input@);
    match p.kind {
        PromptKind::Status => {
            &&& mode == OverlayMode::List
            &&& if t.len() == 0 {
                eff matches OverlayEffect::ClearStatus(w) && w@ == p.workspace@
            } else {
                eff matches OverlayEffect::SetStatus(w, s) && w@ == p.workspace@ && s@ == t
            }
        },
        PromptKind::Progress => if t.len() == 0 {
            &&& mode == OverlayMode::List
            &&& eff matches OverlayEffect::ClearProgress(w) && w@ == p.workspace@
        } else {
            match parsed_u8(t) {
                Some(v) if v <= 100 => {
                    &&& mode == OverlayMode::List
                    &&& eff matches OverlayEffect::SetProgress(w, x) && w@ == p.workspace@ && x == v
                },
                _ => {
                    &&& eff is Nothing
                    &&& mode matches OverlayMode::Prompt(q) && q.kind == p.kind && q.workspace == p.workspace
                        && q.input == p.input && opt_text(q.error) == Some("Progress must be a number from 0 to 100"@)
                },
            }
        },
    }
}

/// Whether the text spells a `u8` (see `parsed_u8`).
fn parse_u8_text(s: &[char]) -> (r: Option<u8>)
    ensures
        r == parsed_u8(s@),
{
    let mut i: usize = 0;
    if s.len() > 0 && s[0] == '+' {
        i = 1;
    }
    let ghost d = if s@.len() > 0 && s@[0] == '+' {
        s@.drop_first()
    } else {
        s@
    };
    assert(d =~= s@.subrange(i as int, s@.len() as int));
    if i == s.len() {
        return None;
    }
    let start = i;
    let mut value: u32 = 0;
    while i < s.len()
        invariant
            start <= i <= s@.len(),
            d == s@.subrange(start as int, s@.len() as int),
            d == (if s@.len() > 0 && s@[0] == '+' {
                s@.drop_first()
            } else {
                s@
            }),
            all_digits(s@.subrange(start as int, i as int)),
            value == digits_value(s@.subrange(start as int, i as int)),
            value <= 255,
        decreases s@.len() - i,
    {
        let c = s[i];
        assert(s@.subrange(start as int, i + 1).drop_last() =~= s@.subrange(start as int, i as int));
        if !('0' <= c && c <= '9') {
            assert(!all_digits(d)) by {
                assert(d[i - start] == s@[i as int]);
            }
            assert(parsed_u8(s@) is None);
            return None;
        }
        let digit: u32 = (c as u32) - ('0' as u32);
        if value > 25 || (value == 25 && digit > 5) {
            proof {
                let pre = s@.subrange(start as int, i + 1);
                assert(pre.last() == c);
                assert(digits_value(pre) == value * 10 + digit);
                assert(digits_value(pre) > 255);
                lemma_digits_prefix_bound(d, (i + 1 - start) as int);
                assert(d.subrange(0, (i + 1 - start) as int) =~= pre);
            }
            assert(parsed_u8(s@) is None);
            return None;
        }
        value = value * 10 + digit;
        i += 1;
    }
    assert(s@.subrange(start as int, s@.len() as int) =~= d);
    Some(value as u8)
}

/// A longer all-digit text is worth at least as much as its prefix.
pub proof fn lemma_digits_prefix_bound(d: Seq<char>, k: int)
    requires
        0 <= k <= d.len(),
    ensures
        all_digits(d) ==> digits_value(d) >= digits_value(d.subrange(0, k)),
    decreases d.len() - k,
{
    if k < d.len() && all_digits(d) {
        lemma_digits_prefix_bound(d, k + 1);
        assert(d.subrange(0, k + 1).drop_last() =~= d.subrange(0, k));
        assert(all_digits(d.subrange(0, k + 1))) by {
            assert forall|i: int| 0 <= i < k + 1 implies '0' <= #[trigger] d.subrange(0, k + 1)[i] && d.subrange(0, k + 1)[i] <= '9' by {
                assert(d.subrange(0, k + 1)[i] == d[i]);
            }
        }
        lemma_digits_nonneg(d.subrange(0, k));
    } else if k == d.len() {
        assert(d.subrange(0, k) =~= d);
    }
}

/// An all-digit text is worth at least zero.
pub proof fn lemma_digits_nonneg(d: Seq<char>)
    requires
        all_digits(d),
    ensures
        digits_value(d) >= 0,
    decreases d.len(),
{
    if d.len() > 0 {
        assert(all_digits(d.drop_last())) by {
            assert forall|i: int| 0 <= i < d.drop_last().len() implies '0' <= #[trigger] d.drop_last()[i] && d.drop_last()[i] <= '9' by {
                assert(d.drop_last()[i] == d[i]);
            }
        }
        lemma_digits_nonneg(d.drop_last());
    }
}

/// The rail position of a section is where the rail lists it.
proof fn lemma_section_index(s: TaskCenterSection, k: int)
    requires
        0 <= k < 6,
        section_order()[k] == s,
    ensures
        section_order().index_of(s) == k,
{
    assert(section_order().contains(s));
    let j = section_order().index_of(s);
    assert(section_order()[j] == s);
    assert(j == k) by {
        if j != k {
            assert(section_order()[j] != section_order()[k]);
        }
    }
}

/// After an inline action that only opens a dialog, `after` differs from `before` at most in
/// its mode, which is as `action_mode` says.
pub open spec fn self_mode_after(before: &TaskCenterOverlay, after: &TaskCenterOverlay, a: RowAction) -> bool {
    &&& action_mode(a, before.selected(), before.mode, after.mode)
    &&& after.same_but_mode(before)
}

/// The rows fitting on screen in state `s`: at least one.
pub open spec fn capacity_of(s: &TaskCenterOverlay) -> usize {
    if s.max_items > 1 {
        s.max_items
    } else {
        1
    }
}

/// `after` shows, from the first row, the rows its section and query select, with the filters
/// of its query.
pub open spec fn refreshed(after: &TaskCenterOverlay) -> bool {
    &&& after.filters@ == query_filters(after.filter_term@)
    &&& entry_views(after.filtered_entries@) == after.shown()
    &&& after.active_idx == 0
    &&& after.top_row == 0
    &&& after.click_state is None
}

/// `after` is `before` with rail section `section` selected (recomputing the shown rows where
/// that changes the section).
pub open spec fn section_selected(before: &TaskCenterOverlay, after: &TaskCenterOverlay, section: TaskCenterSection) -> bool {
    if before.selected_section == section {
        *after == *before
    } else {
        &&& after.selected_section == section
        &&& after.entries == before.entries
        &&& after.filter_term == before.filter_term
        &&& after.task_pane_remain == before.task_pane_remain
        &&& after.max_items == before.max_items
        &&& after.mode == before.mode
        &&& refreshed(after)
    }
}

/// The top row after a wheel turn: one up (not above the first), or one down (not past where
/// the last row would leave the screen).
pub open spec fn wheel_top(s: &TaskCenterOverlay, positive: bool) -> usize {
    let len = s.filtered_entries@.len();
    let limit = if len > capacity_of(s) { (len - capacity_of(s)) as usize } else { 0usize };
    if positive {
        if s.top_row > 0 { (s.top_row - 1) as usize } else { 0 }
    } else {
        if s.top_row < limit { (s.top_row + 1) as usize } else { limit }
    }
}

/// The shown row at screen line `y` when the list starts at `top`, where there is one.
pub open spec fn row_at_line(s: &TaskCenterOverlay, top: usize, y: u16) -> Option<usize> {
    if y >= ROW_START_Y && top + (y - ROW_START_Y) < s.filtered_entries@.len() {
        Some((top + (y - ROW_START_Y)) as usize)
    } else {
        None
    }
}

/// Only the selection and the scroll position differ between the states.
pub open spec fn moved_only(before: &TaskCenterOverlay, after: &TaskCenterOverlay) -> bool {
    &&& after.same_content(before)
    &&& after.filters == before.filters
    &&& after.filtered_entries == before.filtered_entries
    &&& after.mode == before.mode
}

/// Keys that confirm a dialog: Enter, `y` and `Y`.
pub open spec fn confirms(key: OverlayKey) -> bool {
    match key {
        OverlayKey::Enter => true,
        OverlayKey::Char(c, _) => c == 'y' || c == 'Y',
        _ => false,
    }
}

/// Keys that cancel a dialog: Escape, `n` and `N`.
pub open spec fn cancels(key: OverlayKey) -> bool {
    match key {
        OverlayKey::Escape => true,
        OverlayKey::Char(c, _) => c == 'n' || c == 'N',
        _ => false,
    }
}

/// `after` is `before` with the selection one row up (not above the first), scrolled to it.
pub open spec fn moved_up(before: &TaskCenterOverlay, after: &TaskCenterOverlay) -> bool {
    &&& after.active_idx == if before.active_idx > 0 { (before.active_idx - 1) as usize } else { 0usize }
    &&& after.top_row == top_for(after.active_idx, before.top_row, capacity_of(before))
    &&& after.click_state is None
    &&& moved_only(before, after)
}

/// `after` is `before` with the selection one row down (not past the last shown row), scrolled
/// to it; with no row shown only the last click is forgotten.
pub open spec fn moved_down(before: &TaskCenterOverlay, after: &TaskCenterOverlay) -> bool {
    let len = before.filtered_entries@.len();
    &&& if len == 0 {
        after.active_idx == before.active_idx && after.top_row == before.top_row
    } else {
        &&& after.active_idx == if before.active_idx + 1 < len { (before.active_idx + 1) as usize } else { (len - 1) as usize }
        &&& after.top_row == top_for(after.active_idx, before.top_row, capacity_of(before))
    }
    &&& after.click_state is None
    &&& moved_only(before, after)
}

/// `after` is `before` with the rail section above the selected one selected, where there is
/// one.
pub open spec fn moved_section_up(before: &TaskCenterOverlay, after: &TaskCenterOverlay) -> bool {
    if before.selected_section == TaskCenterSection::All {
        *after == *before
    } else {
        section_selected(before, after, section_order()[section_order().index_of(before.selected_section) - 1])
    }
}

/// `after` is `before` with the rail section below the selected one selected, where there is
/// one.
pub open spec fn moved_section_down(before: &TaskCenterOverlay, after: &TaskCenterOverlay) -> bool {
    if before.selected_section == TaskCenterSection::Tasks {
        *after == *before
    } else {
        section_selected(before, after, section_order()[section_order().index_of(before.selected_section) + 1])
    }
}

/// What a plain character typed over the list does: `c` clears the selected row's unread
/// notifications, `r` reruns it (closing the overlay), `h` flips its hold setting, `s` and `p`
/// open the status and progress prompts, `m` the clear confirmation (each in either case, and
/// each only where the row allows it); any other character extends the query.
pub open spec fn list_char_outcome(before: &TaskCenterOverlay, after: &TaskCenterOverlay, c: char, r: OverlayReply) -> bool {
    let sel = before.selected();
    let known = before.task_pane_remain@;
    if (c == 'c' || c == 'C') && (sel matches Some(e) && e.unread_count > 0 && e.notification_ids.len() > 0) {
        *after == *before && !r.close && action_effect(RowAction::ClearUnread, sel, known, r.effect)
    } else if (c == 'r' || c == 'R') && (sel matches Some(e) && e.is_failed && e.rerun_available) {
        *after == *before && r.close && action_effect(RowAction::Rerun, sel, known, r.effect)
    } else if (c == 'h' || c == 'H') && (sel matches Some(e) && remain_state(e, known) is Some) {
        *after == *before && !r.close && action_effect(RowAction::ToggleRemainOnExit, sel, known, r.effect)
    } else if (c == 's' || c == 'S') && sel is Some {
        self_mode_after(before, after, RowAction::EditStatus) && !r.close && r.effect is Nothing
    } else if (c == 'p' || c == 'P') && sel is Some {
        self_mode_after(before, after, RowAction::EditProgress) && !r.close && r.effect is Nothing
    } else if (c == 'm' || c == 'M') && (sel matches Some(e) && (e.workspace_status is Some || e.workspace_progress is Some)) {
        self_mode_after(before, after, RowAction::ClearMetadata) && !r.close && r.effect is Nothing
    } else {
        &&& after.filter_term@ == before.filter_term@.push(c)
        &&& after.entries == before.entries
        &&& after.selected_section == before.selected_section
        &&& after.task_pane_remain == before.task_pane_remain
        &&& after.max_items == before.max_items
        &&& after.mode == before.mode
        &&& refreshed(after)
        &&& !r.close && r.effect is Nothing
    }
}

/// The first target of an action.
pub open spec fn target_of(targets: Seq<ActionTarget>, a: RowAction) -> Option<ActionTarget>
    decreases targets.len(),
{
    if targets.len() == 0 {
        None
    } else if targets[0].action == a {
        Some(targets[0])
    } else {
        target_of(targets.drop_first(), a)
    }
}

/// The rows shown for a rail section and a query: the rows of the section that pass the
/// query's filters, narrowed, where the query has free text, to those whose searchable text
/// holds each free word (ignoring ASCII case, skipping characters).
pub open spec fn shown_entries(es: Seq<TaskCenterEntryView>, section: TaskCenterSection, q: Seq<char>) -> Seq<TaskCenterEntryView> {
    let kept = es.filter(|e: TaskCenterEntryView| in_section(section, e) && passes_filters(e, query_filters(q)));
    let free = query_free_text(q);
    if free.len() == 0 {
        kept
    } else {
        kept.filter(|e: TaskCenterEntryView| text_matches(free, searchable(e)))
    }
}

/// The top row that keeps row `active` in a window of `capacity` rows starting at `top`.
pub open spec fn top_for(active: usize, top: usize, capacity: usize) -> usize {
    if active < top {
        active
    } else if active - top >= capacity {
        (active + 1 - capacity) as usize
    } else {
        top
    }
}

/// The task-center overlay.
pub struct TaskCenterOverlay {
    /// All rows, as last synced.
    pub entries: Vec<TaskCenterEntry>,
    /// The rows shown.
    pub filtered_entries: Vec<TaskCenterEntry>,
    /// The typed query.
    pub filter_term: String,
    /// The filters of the query.
    pub filters: TaskCenterFilters,
    /// The index of the selected shown row.
    pub active_idx: usize,
    /// The index of the first shown row on screen.
    pub top_row: usize,
    /// How many rows fit on screen.
    pub max_items: usize,
    /// The list, a prompt or a confirmation.
    pub mode: OverlayMode,
    /// The last click on a row.
    pub click_state: Option<ClickState>,
    /// The rail section.
    pub selected_section: TaskCenterSection,
    /// The remain-on-exit settings recorded for task panes, by pane.
    pub task_pane_remain: Vec<(u64, bool)>,
}


/// The rows of `src` whose searchable text matches `free`, moved out in order.
fn keep_text_matches(src: Vec<TaskCenterEntry>, free: &str) -> (r: Vec<TaskCenterEntry>)
    ensures
        entry_views(r@) == entry_views(src@).filter(|e: TaskCenterEntryView| text_matches(free@, searchable(e))),
{
    let ghost f = |e: TaskCenterEntryView| text_matches(free@, searchable(e));
    let ghost all = entry_views(src@);
    let mut r: Vec<TaskCenterEntry> = Vec::new();
    let mut i: usize = 0;
    while i < src.len()
        invariant
            i <= src@.len(),
            all == entry_views(src@),
            f == (|e: TaskCenterEntryView| text_matches(free@, searchable(e))),
            entry_views(r@) == all.subrange(0, i as int).filter(f),
        decreases src@.len() - i,
    {
        assert(all.subrange(0, i + 1) =~= all.subrange(0, i as int).push(src@[i as int]@));
        proof {
            lemma_filter_push(all.subrange(0, i as int), f, src@[i as int]@);
        }
        let text = TaskCenterOverlay::searchable_text(&src[i]);
        if free_text_matches(free, text.as_str()) {
            let ghost prev = entry_views(r@);
            let c = src[i].clone();
            r.push(c);
            assert(entry_views(r@) =~= prev.push(src@[i as int]@));
        }
        i += 1;
    }
    assert(all.subrange(0, src@.len() as int) =~= all);
    r
}

impl TaskCenterOverlay {
    /// Splits a query into its filters and its free text (see `apply_word`).
    pub fn parse_query(query: &str) -> (r: ParsedTaskCenterQuery)
        ensures
            r.filters@ == query_filters(query@),
            r.free_text@ == query_free_text(query@),
    {
        let qc = chars_of(query);
        let toks = split_words(qc.as_slice());
        let ghost tv = toks@.map_values(|w: Vec<char>| w@);
        let mut filters = TaskCenterFilters::none();
        let mut free: Vec<Vec<char>> = Vec::new();
        let unread = chars_of("unread");
        let failed = chars_of("failed");
        let running = chars_of("running");
        let ws_prefix = chars_of("workspace:");
        let source_prefix = chars_of("source:");
        let kind_prefix = chars_of("kind:");
        let mut i: usize = 0;
        while i < toks.len()
            invariant
                i <= toks@.len(),
                tv == toks@.map_values(|w: Vec<char>| w@),
                tv == words(query@),
                unread@ == "unread"@,
                failed@ == "failed"@,
                running@ == "running"@,
                ws_prefix@ == "workspace:"@,
                source_prefix@ == "source:"@,
                kind_prefix@ == "kind:"@,
                (filters@, free@.map_values(|w: Vec<char>| w@)) == apply_words(tv.subrange(0, i as int)),
            decreases toks@.len() - i,
        {
            let ghost st = apply_words(tv.subrange(0, i as int));
            assert(tv.subrange(0, i + 1).drop_last() =~= tv.subrange(0, i as int));
            assert(tv.subrange(0, i + 1).last() == toks@[i as int]@);
            let tok = &toks[i];
            if eq_ignore_ascii_case(tok.as_slice(), unread.as_slice()) {
                filters.unread = true;
            } else if eq_ignore_ascii_case(tok.as_slice(), failed.as_slice()) {
                filters.failed = true;
            } else if eq_ignore_ascii_case(tok.as_slice(), running.as_slice()) {
                filters.running = true;
            } else if let Some(rest) = strip_prefix(tok.as_slice(), ws_prefix.as_slice()) {
                if rest.len() > 0 {
                    filters.workspace = Some(string_of(rest.as_slice()));
                }
            } else if let Some(rest) = strip_prefix(tok.as_slice(), source_prefix.as_slice()) {
                let name = string_of(rest.as_slice());
                filters.source = parse_source(name.as_str());
            } else if let Some(rest) = strip_prefix(tok.as_slice(), kind_prefix.as_slice()) {
                let name = string_of(rest.as_slice());
                filters.kind = parse_kind(name.as_str());
            } else {
                let ghost prev = free@.map_values(|w: Vec<char>| w@);
                let mut copy: Vec<char> = Vec::new();
                append_chars(&mut copy, tok.as_slice());
                free.push(copy);
                assert(free@.map_values(|w: Vec<char>| w@) =~= prev.push(tok@));
            }
            i += 1;
        }
        assert(tv.subrange(0, toks@.len() as int) =~= tv);
        ParsedTaskCenterQuery { filters, free_text: join_text(&free, " ") }
    }

    /// The text a row is searched by (see `searchable`).
    pub fn searchable_text(entry: &TaskCenterEntry) -> (r: String)
        ensures
            r@ == searchable(entry@),
    {
        let mut parts: Vec<Vec<char>> = Vec::new();
        parts.push(chars_of(entry.label.as_str()));
        parts.push(chars_of(entry.workspace.as_str()));
        parts.push(chars_of(source_name_text(entry.source)));
        parts.push(chars_of(kind_name_text(entry.kind)));
        let ghost e = entry@;
        let ghost base = seq![e.label, e.workspace, source_name(e.source), kind_name(e.kind)];
        assert(parts@.map_values(|w: Vec<char>| w@) =~= base);
        if let Some(s) = &entry.source_label {
            parts.push(chars_of(s.as_str()));
        }
        let ghost a = match e.source_label {
            Some(s) => base.push(s),
            None => base,
        };
        assert(parts@.map_values(|w: Vec<char>| w@) =~= a);
        if let Some(s) = &entry.kind_label {
            parts.push(chars_of(s.as_str()));
        }
        let ghost b = match e.kind_label {
            Some(s) => a.push(s),
            None => a,
        };
        assert(parts@.map_values(|w: Vec<char>| w@) =~= b);
        if let Some(s) = &entry.workspace_status {
            parts.push(chars_of(s.as_str()));
        }
        let ghost c = match e.workspace_status {
            Some(s) => b.push(s),
            None => b,
        };
        assert(parts@.map_values(|w: Vec<char>| w@) =~= c);
        if let Some(p) = entry.workspace_progress {
            parts.push(decimal_chars(p as u64));
        }
        let ghost d = match e.workspace_progress {
            Some(p) => c.push(decimal(p as nat)),
            None => c,
        };
        assert(parts@.map_values(|w: Vec<char>| w@) =~= d);
        join_text(&parts, " ")
    }

    /// Whether a row passes the filters.
    pub fn matches_filters(entry: &TaskCenterEntry, filters: &TaskCenterFilters) -> (r: bool)
        ensures
            r == passes_filters(entry@, filters@),
    {
        if filters.unread && entry.unread_count == 0 {
            return false;
        }
        if filters.failed && !entry.is_failed {
            return false;
        }
        if filters.running && !entry.is_running {
            return false;
        }
        if let Some(workspace) = &filters.workspace {
            if !str_eq(entry.workspace.as_str(), workspace.as_str()) {
                return false;
            }
        }
        if let Some(source) = filters.source {
            if entry.source != source {
                return false;
            }
        }
        if let Some(kind) = filters.kind {
            if entry.kind != kind {
                return false;
            }
        }
        true
    }

    /// The row's text without actions.
    pub fn base_row_text(entry: &TaskCenterEntry) -> (r: String)
        ensures
            r@ == row_text(entry@),
    {
        let parts = row_suffix_parts(entry);
        let tail = join_text(&parts, "  ");
        let mut out = concat_text(entry.label.as_str(), "  ");
        let tc = chars_of(tail.as_str());
        append_chars(&mut out, tc.as_slice());
        string_of(out.as_slice())
    }

    /// The inline actions of a row with their labels (see `row_actions`).
    pub fn action_targets_for_entry(entry: &TaskCenterEntry, known: &[(u64, bool)]) -> (r: Vec<(RowAction, String)>)
        ensures
            r@.map_values(|a: (RowAction, String)| (a.0, a.1@)) == row_actions(entry@, known@),
    {
        let ghost e = entry@;
        let mut actions: Vec<(RowAction, String)> = Vec::new();
        push_action(&mut actions, RowAction::Focus, "[⏎ open]");
        if entry.unread_count > 0 && entry.notification_ids.len() > 0 {
            push_action(&mut actions, RowAction::ClearUnread, "[● clear]");
        }
        if entry.is_failed && entry.rerun_available {
            push_action(&mut actions, RowAction::Rerun, "[↺ rerun]");
        }
        match TaskCenterOverlay::remain_on_exit_state_for_entry(entry, known) {
            Some(v) => {
                let mut label = chars_of("[◎ hold:");
                let state = if v {
                    chars_of("on")
                } else {
                    chars_of("off")
                };
                append_chars(&mut label, state.as_slice());
                let close = chars_of("]");
                append_chars(&mut label, close.as_slice());
                let text = string_of(label.as_slice());
                push_action(&mut actions, RowAction::ToggleRemainOnExit, text.as_str());
            },
            None => {},
        }
        push_action(&mut actions, RowAction::EditStatus, "[◇ status]");
        push_action(&mut actions, RowAction::EditProgress, "[◔ progress]");
        if entry.workspace_status.is_some() || entry.workspace_progress.is_some() {
            push_action(&mut actions, RowAction::ClearMetadata, "[⌫ clear]");
        }
        actions
    }

    /// The text of a row and, where it is the selected one, its inline actions after it with the
    /// columns they take.
    pub fn row_layout(entry: &TaskCenterEntry, active: bool, known: &[(u64, bool)]) -> (r: RowLayout)
        ensures
            !active ==> r.text@ == row_text(entry@) && r.action_targets@.len() == 0,
            active ==> r.text@ == row_text(entry@) + labels_text(row_actions(entry@, known@)),
            active ==> r.action_targets@ == targets_from(
                row_actions(entry@, known@),
                column_width(row_text(entry@)) as int,
            ),
    {
        let text = TaskCenterOverlay::base_row_text(entry);
        let mut targets: Vec<ActionTarget> = Vec::new();
        if !active {
            return RowLayout { text, action_targets: targets };
        }
        let mut chars = chars_of(text.as_str());
        let mut cursor = text_width(text.as_str());
        let actions = TaskCenterOverlay::action_targets_for_entry(entry, known);
        let ghost labels = actions@.map_values(|a: (RowAction, String)| (a.0, a.1@));
        let ghost c0 = column_width(row_text(entry@)) as int;
        let mut i: usize = 0;
        while i < actions.len()
            invariant
                i <= actions@.len(),
                labels == actions@.map_values(|a: (RowAction, String)| (a.0, a.1@)),
                chars@ == row_text(entry@) + labels_text(labels.subrange(0, i as int)),
                cursor == cursor_after(labels.subrange(0, i as int), c0),
                targets@ == targets_from(labels.subrange(0, i as int), c0),
            decreases actions@.len() - i,
        {
            let ghost pre = labels.subrange(0, i as int);
            let ghost post = labels.subrange(0, i + 1);
            assert(post.drop_last() =~= pre);
            assert(post.last() == labels[i as int]);
            let space = chars_of(" ");
            append_chars(&mut chars, space.as_slice());
            let lc = chars_of(actions[i].1.as_str());
            append_chars(&mut chars, lc.as_slice());
            let start = cursor.saturating_add(1);
            cursor = start.saturating_add(text_width(actions[i].1.as_str()));
            targets.push(ActionTarget { action: actions[i].0, start, end: cursor });
            assert(chars@ =~= row_text(entry@) + labels_text(post));
            assert(targets@ =~= targets_from(post, c0));
            i += 1;
        }
        assert(labels.subrange(0, actions@.len() as int) =~= labels);
        RowLayout { text: string_of(chars.as_slice()), action_targets: targets }
    }

    /// Whether a row's pane keeps its output on exit (see `remain_state`), given the settings
    /// recorded for task panes.
    pub fn remain_on_exit_state_for_entry(entry: &TaskCenterEntry, known: &[(u64, bool)]) -> (r: Option<bool>)
        ensures
            r == remain_state(entry@, known@),
    {
        let recorded = match entry.pane_id {
            Some(p) => remain_lookup(known, p),
            None => None,
        };
        match recorded {
            Some(v) => Some(v),
            None => {
                let is_task_pane = match &entry.kind_label {
                    Some(k) => str_eq(k.as_str(), "task-pane"),
                    None => false,
                };
                if is_task_pane {
                    Some(false)
                } else {
                    None
                }
            },
        }
    }
    /// The rows shown for the current section and query.
    pub open spec fn shown(&self) -> Seq<TaskCenterEntryView> {
        shown_entries(entry_views(self.entries@), self.selected_section, self.filter_term@)
    }

    /// The selected row, where the selection is on a shown row.
    pub open spec fn selected(&self) -> Option<TaskCenterEntryView> {
        if self.active_idx < self.filtered_entries@.len() {
            Some(self.filtered_entries@[self.active_idx as int]@)
        } else {
            None
        }
    }

    /// What the query and the section act on is the same in both states.
    pub open spec fn same_content(&self, other: &Self) -> bool {
        &&& self.entries == other.entries
        &&& self.filter_term == other.filter_term
        &&& self.selected_section == other.selected_section
        &&& self.task_pane_remain == other.task_pane_remain
        &&& self.max_items == other.max_items
    }

    /// Nothing but the mode differs between the states.
    pub open spec fn same_but_mode(&self, other: &Self) -> bool {
        &&& self.same_content(other)
        &&& self.filters == other.filters
        &&& self.filtered_entries == other.filtered_entries
        &&& self.active_idx == other.active_idx
        &&& self.top_row == other.top_row
        &&& self.click_state == other.click_state
    }

    /// Whether a row belongs to a rail section.
    pub fn section_matches(&self, section: TaskCenterSection, entry: &TaskCenterEntry) -> (r: bool)
        ensures
            r == in_section(section, entry@),
            section == TaskCenterSection::Metadata ==> (r <==> (entry.workspace_status is Some
                || entry.workspace_progress is Some)),
    {
        match section {
            TaskCenterSection::All => true,
            TaskCenterSection::Inbox => entry.unread_count > 0,
            TaskCenterSection::Failed => entry.is_failed,
            TaskCenterSection::Running => entry.is_running,
            TaskCenterSection::Metadata => entry.workspace_status.is_some() || entry.workspace_progress.is_some(),
            TaskCenterSection::Tasks => entry.kind == TaskCenterKind::Pane,
        }
    }

    /// Whether a row belongs to the selected rail section.
    pub fn matches_selected_section(&self, entry: &TaskCenterEntry) -> (r: bool)
        ensures
            r == in_section(self.selected_section, entry@),
    {
        self.section_matches(self.selected_section, entry)
    }

    /// Copies of the rows of the selected section that pass the filters.
    fn rows_in_section(&self) -> (r: Vec<TaskCenterEntry>)
        ensures
            entry_views(r@) == entry_views(self.entries@).filter(
                |e: TaskCenterEntryView| in_section(self.selected_section, e) && passes_filters(e, self.filters@),
            ),
    {
        let ghost f = |e: TaskCenterEntryView| in_section(self.selected_section, e) && passes_filters(e, self.filters@);
        let ghost all = entry_views(self.entries@);
        let mut r: Vec<TaskCenterEntry> = Vec::new();
        let mut i: usize = 0;
        while i < self.entries.len()
            invariant
                i <= self.entries@.len(),
                all == entry_views(self.entries@),
                f == (|e: TaskCenterEntryView| in_section(self.selected_section, e) && passes_filters(e, self.filters@)),
                entry_views(r@) == all.subrange(0, i as int).filter(f),
            decreases self.entries@.len() - i,
        {
            assert(all.subrange(0, i + 1) =~= all.subrange(0, i as int).push(self.entries@[i as int]@));
            proof {
                lemma_filter_push(all.subrange(0, i as int), f, self.entries@[i as int]@);
            }
            if self.matches_selected_section(&self.entries[i]) && TaskCenterOverlay::matches_filters(&self.entries[i], &self.filters) {
                let ghost prev = entry_views(r@);
                let c = self.entries[i].clone();
                r.push(c);
                assert(entry_views(r@) =~= prev.push(self.entries@[i as int]@));
            }
            i += 1;
        }
        assert(all.subrange(0, self.entries@.len() as int) =~= all);
        r
    }

    /// Recomputes the shown rows from the section and the query, and puts the selection and
    /// the scroll position back at the top.
    pub fn update_filter(&mut self)
        ensures
            final(self).same_content(old(self)),
            final(self).mode == old(self).mode,
            final(self).filters@ == query_filters(old(self).filter_term@),
            entry_views(final(self).filtered_entries@) == old(self).shown(),
            final(self).active_idx == 0,
            final(self).top_row == 0,
            final(self).click_state is None,
    {
        let parsed = TaskCenterOverlay::parse_query(self.filter_term.as_str());
        self.filters = parsed.filters;
        let kept = self.rows_in_section();
        if parsed.free_text.unicode_len() > 0 {
            self.filtered_entries = keep_text_matches(kept, parsed.free_text.as_str());
        } else {
            self.filtered_entries = kept;
        }
        self.active_idx = 0;
        self.top_row = 0;
        self.click_state = None;
    }

    /// An overlay over `entries`, showing all of them, with an empty query.
    pub fn new(entries: Vec<TaskCenterEntry>) -> (r: TaskCenterOverlay)
        ensures
            r.entries == entries,
            r.filter_term@.len() == 0,
            r.selected_section == TaskCenterSection::All,
            r.mode == OverlayMode::List,
            r.max_items == 0,
            r.task_pane_remain@.len() == 0,
            r.filters@ == no_filters(),
            entry_views(r.filtered_entries@) == entry_views(entries@),
            r.active_idx == 0,
            r.top_row == 0,
            r.click_state is None,
    {
        let mut overlay = TaskCenterOverlay {
            entries,
            filtered_entries: Vec::new(),
            filter_term: String::new(),
            filters: TaskCenterFilters::none(),
            active_idx: 0,
            top_row: 0,
            max_items: 0,
            mode: OverlayMode::List,
            click_state: None,
            selected_section: TaskCenterSection::All,
            task_pane_remain: Vec::new(),
        };
        proof {
            let q = overlay.filter_term@;
            assert(q =~= Seq::<char>::empty());
            assert(words(q) =~= Seq::<Seq<char>>::empty()) by {
                assert(q.len() == 0);
            }
            let all = entry_views(overlay.entries@);
            let f = |e: TaskCenterEntryView| in_section(TaskCenterSection::All, e) && passes_filters(e, query_filters(q));
            assert(query_filters(q) == no_filters());
            assert(forall|i: int| 0 <= i < all.len() ==> f(#[trigger] all[i]));
            crate::seq_facts::lemma_filter_all_or_none(all, f);
            assert(joined(Seq::<Seq<char>>::empty(), " "@).len() == 0);
        }
        overlay.update_filter();
        overlay
    }

    /// The row's text without actions.
    pub fn format_row(entry: &TaskCenterEntry) -> (r: String)
        ensures
            r@ == row_text(entry@),
    {
        TaskCenterOverlay::base_row_text(entry)
    }

    /// A copy of the selected row, where the selection is on a shown row.
    pub fn selected_entry(&self) -> (r: Option<TaskCenterEntry>)
        ensures
            match r {
                Some(e) => self.selected() == Some(e@),
                None => self.selected() is None,
            },
    {
        if self.active_idx < self.filtered_entries.len() {
            Some(self.filtered_entries[self.active_idx].clone())
        } else {
            None
        }
    }

    /// Whether the selected row's remain-on-exit setting is known, and its value.
    pub fn selected_entry_remain_on_exit(&self) -> (r: Option<bool>)
        ensures
            r == match self.selected() {
                Some(e) => remain_state(e, self.task_pane_remain@),
                None => None,
            },
    {
        match self.selected_entry() {
            Some(e) => TaskCenterOverlay::remain_on_exit_state_for_entry(&e, self.task_pane_remain.as_slice()),
            None => None,
        }
    }

    /// Whether the selected row's hold setting can be toggled.
    pub fn can_toggle_remain_on_exit(&self) -> (r: bool)
        ensures
            r == (self.selected() matches Some(e) && remain_state(e, self.task_pane_remain@) is Some),
    {
        self.selected_entry_remain_on_exit().is_some()
    }

    /// Whether there is a selected row whose metadata can be edited.
    pub fn can_edit_metadata(&self) -> (r: bool)
        ensures
            r == self.selected() is Some,
    {
        self.selected_entry().is_some()
    }

    /// Whether the selected row shows metadata to clear.
    pub fn can_clear_metadata(&self) -> (r: bool)
        ensures
            r == (self.selected() matches Some(e) && (e.workspace_status is Some || e.workspace_progress is Some)),
    {
        match self.selected_entry() {
            Some(e) => e.workspace_status.is_some() || e.workspace_progress.is_some(),
            None => false,
        }
    }

    /// Whether the selected row has unread notifications to clear.
    pub fn can_clear_unread(&self) -> (r: bool)
        ensures
            r == (self.selected() matches Some(e) && e.unread_count > 0 && e.notification_ids.len() > 0),
    {
        match self.selected_entry() {
            Some(e) => e.unread_count > 0 && e.notification_ids.len() > 0,
            None => false,
        }
    }

    /// Whether the selected row failed and can be rerun.
    pub fn can_rerun(&self) -> (r: bool)
        ensures
            r == (self.selected() matches Some(e) && e.is_failed && e.rerun_available),
    {
        match self.selected_entry() {
            Some(e) => e.is_failed && e.rerun_available,
            None => false,
        }
    }

    /// What the list says when no row is shown.
    pub fn empty_state_message(&self) -> (r: &'static str)
        ensures
            r@ == if self.entries@.len() == 0 {
                "No task-center entries yet"@
            } else {
                "No entries match the current task-center query"@
            },
    {
        if self.entries.len() == 0 {
            "No task-center entries yet"
        } else {
            "No entries match the current task-center query"
        }
    }
    /// The section and filters in force, as the header names them (see `summary_parts`).
    pub fn active_filter_summary(&self) -> (r: String)
        ensures
            r@ == joined(summary_parts(self.selected_section, self.filters@), " "@),
    {
        let mut parts: Vec<Vec<char>> = Vec::new();
        let label = chars_of(self.selected_section.label());
        parts.push(lowercase_chars(label.as_slice()));
        assert(parts@.map_values(|w: Vec<char>| w@) =~= seq![ascii_lower(section_label(self.selected_section))]);
        push_if(&mut parts, self.filters.unread, chars_of("unread"));
        push_if(&mut parts, self.filters.failed, chars_of("failed"));
        push_if(&mut parts, self.filters.running, chars_of("running"));
        let ws = match &self.filters.workspace {
            Some(w) => concat_text("workspace:", w.as_str()),
            None => Vec::new(),
        };
        push_if(&mut parts, self.filters.workspace.is_some(), ws);
        let source = match self.filters.source {
            Some(s) => concat_text("source:", source_name_text(s)),
            None => Vec::new(),
        };
        push_if(&mut parts, self.filters.source.is_some(), source);
        let kind = match self.filters.kind {
            Some(k) => concat_text("kind:", kind_name_text(k)),
            None => Vec::new(),
        };
        push_if(&mut parts, self.filters.kind.is_some(), kind);
        assert(parts@.map_values(|w: Vec<char>| w@) == summary_parts(self.selected_section, self.filters@));
        assert(parts@.len() >= 1);
        if parts.len() == 0 {
            owned("all")
        } else {
            join_text(&parts, " ")
        }
    }

    /// The three header lines: the title, the scope and query, and the key and mouse help.
    pub fn header_lines(&self) -> (r: [String; 3])
        ensures
            r@[0]@ == "Task Center"@,
            r@[1]@ == "scope "@ + joined(summary_parts(self.selected_section, self.filters@), " "@) + "  / "@ + (
            if self.filter_term@.len() == 0 {
                "type to filter"@
            } else {
                self.filter_term@
            }),
            r@[2]@ == "←/→ rail  ⏎ focus  click select  dbl-click focus  ↺ rerun  ◎ hold  ◇ status  ◔ progress  esc close"@,
    {
        let summary = self.active_filter_summary();
        let mut scope = concat_text("scope ", summary.as_str());
        let sep = chars_of("  / ");
        append_chars(&mut scope, sep.as_slice());
        let term = if self.filter_term.unicode_len() == 0 {
            chars_of("type to filter")
        } else {
            chars_of(self.filter_term.as_str())
        };
        append_chars(&mut scope, term.as_slice());
        [
            owned("Task Center"),
            string_of(scope.as_slice()),
            owned("←/→ rail  ⏎ focus  click select  dbl-click focus  ↺ rerun  ◎ hold  ◇ status  ◔ progress  esc close"),
        ]
    }

    /// How many rows belong to a section.
    fn count_in_section(&self, section: TaskCenterSection) -> (r: usize)
        ensures
            r == entry_views(self.entries@).filter(|e: TaskCenterEntryView| in_section(section, e)).len(),
    {
        let ghost f = |e: TaskCenterEntryView| in_section(section, e);
        let ghost all = entry_views(self.entries@);
        let mut n: usize = 0;
        let mut i: usize = 0;
        while i < self.entries.len()
            invariant
                i <= self.entries@.len(),
                all == entry_views(self.entries@),
                f == (|e: TaskCenterEntryView| in_section(section, e)),
                n == all.subrange(0, i as int).filter(f).len(),
                n <= i,
            decreases self.entries@.len() - i,
        {
            assert(all.subrange(0, i + 1) =~= all.subrange(0, i as int).push(self.entries@[i as int]@));
            proof {
                lemma_filter_push(all.subrange(0, i as int), f, self.entries@[i as int]@);
            }
            if self.section_matches(section, &self.entries[i]) {
                n += 1;
            }
            i += 1;
        }
        assert(all.subrange(0, self.entries@.len() as int) =~= all);
        n
    }

    /// The rail: each section, top to bottom, with its icon, its name and how many rows it has.
    pub fn section_entries(&self) -> (r: Vec<(TaskCenterSection, String)>)
        ensures
            r@.len() == 6,
            forall|k: int| 0 <= k < 6 ==> (#[trigger] r@[k]).0 == section_order()[k] && r@[k].1@ == section_icon(
                section_order()[k],
            ) + " "@ + section_label(section_order()[k]) + " "@ + decimal(
                entry_views(self.entries@).filter(|e: TaskCenterEntryView| in_section(section_order()[k], e)).len(),
            ),
    {
        let sections = TaskCenterSection::ordered();
        let mut r: Vec<(TaskCenterSection, String)> = Vec::new();
        let mut k: usize = 0;
        while k < 6
            invariant
                k <= 6,
                sections@ == section_order(),
                r@.len() == k,
                forall|j: int| 0 <= j < k ==> (#[trigger] r@[j]).0 == section_order()[j] && r@[j].1@ == section_icon(
                    section_order()[j],
                ) + " "@ + section_label(section_order()[j]) + " "@ + decimal(
                    entry_views(self.entries@).filter(|e: TaskCenterEntryView| in_section(section_order()[j], e)).len(),
                ),
            decreases 6 - k,
        {
            let section = sections[k];
            let count = self.count_in_section(section);
            let mut label = concat_text(section.icon(), " ");
            let name = concat_text(section.label(), " ");
            append_chars(&mut label, name.as_slice());
            let digits = decimal_chars(count as u64);
            append_chars(&mut label, digits.as_slice());
            r.push((section, string_of(label.as_slice())));
            k += 1;
        }
        r
    }

    /// Selects a rail section; where it changes, the shown rows are recomputed.
    pub fn set_selected_section(&mut self, section: TaskCenterSection)
        ensures
            old(self).selected_section == section ==> *final(self) == *old(self),
            old(self).selected_section != section ==> {
                &&& final(self).selected_section == section
                &&& final(self).entries == old(self).entries
                &&& final(self).filter_term == old(self).filter_term
                &&& final(self).task_pane_remain == old(self).task_pane_remain
                &&& final(self).max_items == old(self).max_items
                &&& final(self).mode == old(self).mode
                &&& final(self).filters@ == query_filters(old(self).filter_term@)
                &&& entry_views(final(self).filtered_entries@) == shown_entries(entry_views(old(self).entries@), section, old(self).filter_term@)
                &&& final(self).active_idx == 0
                &&& final(self).top_row == 0
                &&& final(self).click_state is None
            },
    {
        if self.selected_section != section {
            self.selected_section = section;
            self.update_filter();
        }
    }

    /// The position of the selected section on the rail.
    fn section_index(&self) -> (r: usize)
        ensures
            r < 6,
            section_order()[r as int] == self.selected_section,
    {
        match self.selected_section {
            TaskCenterSection::All => 0,
            TaskCenterSection::Inbox => 1,
            TaskCenterSection::Failed => 2,
            TaskCenterSection::Running => 3,
            TaskCenterSection::Metadata => 4,
            TaskCenterSection::Tasks => 5,
        }
    }

    /// Selects the section above the selected one, where there is one.
    pub fn move_section_left(&mut self)
        ensures
            moved_section_up(old(self), final(self)),
    {
        let idx = self.section_index();
        let sections = TaskCenterSection::ordered();
        proof {
            lemma_section_index(self.selected_section, idx as int);
        }
        if idx > 0 {
            self.set_selected_section(sections[idx - 1]);
        }
    }

    /// Selects the section below the selected one, where there is one.
    pub fn move_section_right(&mut self)
        ensures
            moved_section_down(old(self), final(self)),
    {
        let idx = self.section_index();
        let sections = TaskCenterSection::ordered();
        proof {
            lemma_section_index(self.selected_section, idx as int);
        }
        if idx + 1 < 6 {
            self.set_selected_section(sections[idx + 1]);
        }
    }

    /// How many rows fit on screen: at least one.
    pub fn visible_row_capacity(&self) -> (r: usize)
        ensures
            r == if self.max_items > 1 { self.max_items } else { 1 },
    {
        if self.max_items > 1 {
            self.max_items
        } else {
            1
        }
    }

    /// Scrolls so that the selected row is on screen.
    pub fn ensure_active_row_visible(&mut self)
        ensures
            final(self).top_row == top_for(old(self).active_idx, old(self).top_row, if old(self).max_items > 1 {
                old(self).max_items
            } else {
                1
            }),
            final(self).active_idx == old(self).active_idx,
            final(self).same_content(old(self)),
            final(self).filters == old(self).filters,
            final(self).filtered_entries == old(self).filtered_entries,
            final(self).click_state == old(self).click_state,
            final(self).mode == old(self).mode,
    {
        let capacity = self.visible_row_capacity();
        if self.active_idx < self.top_row {
            self.top_row = self.active_idx;
        } else if self.active_idx - self.top_row >= capacity {
            self.top_row = self.active_idx - (capacity - 1);
        }
    }
    /// Moves the selection one row up (not above the first) and scrolls to it.
    pub fn move_selection_up(&mut self)
        ensures
            moved_up(old(self), final(self)),
    {
        self.active_idx = if self.active_idx > 0 {
            self.active_idx - 1
        } else {
            0
        };
        self.ensure_active_row_visible();
        self.click_state = None;
    }

    /// Moves the selection one row down (not past the last shown row) and scrolls to it.
    pub fn move_selection_down(&mut self)
        ensures
            moved_down(old(self), final(self)),
    {
        if self.filtered_entries.len() > 0 {
            let last = self.filtered_entries.len() - 1;
            self.active_idx = if self.active_idx < last {
                self.active_idx + 1
            } else {
                last
            };
            self.ensure_active_row_visible();
        }
        self.click_state = None;
    }

    /// Replaces the rows with a fresh snapshot and recomputes the shown ones.
    pub fn sync_entries_from_mux(&mut self, entries: Vec<TaskCenterEntry>)
        ensures
            final(self).entries == entries,
            final(self).filter_term == old(self).filter_term,
            final(self).selected_section == old(self).selected_section,
            final(self).task_pane_remain == old(self).task_pane_remain,
            final(self).max_items == old(self).max_items,
            final(self).mode == old(self).mode,
            final(self).filters@ == query_filters(old(self).filter_term@),
            entry_views(final(self).filtered_entries@) == shown_entries(entry_views(entries@), old(self).selected_section, old(self).filter_term@),
            final(self).active_idx == 0,
            final(self).top_row == 0,
            final(self).click_state is None,
    {
        self.entries = entries;
        self.update_filter();
    }

    /// Replaces the remain-on-exit settings recorded for task panes.
    pub fn set_task_pane_remain(&mut self, known: Vec<(u64, bool)>)
        ensures
            final(self).task_pane_remain == known,
            final(self).entries == old(self).entries,
            final(self).filter_term == old(self).filter_term,
            final(self).selected_section == old(self).selected_section,
            final(self).max_items == old(self).max_items,
            final(self).filters == old(self).filters,
            final(self).filtered_entries == old(self).filtered_entries,
            final(self).active_idx == old(self).active_idx,
            final(self).top_row == old(self).top_row,
            final(self).click_state == old(self).click_state,
            final(self).mode == old(self).mode,
    {
        self.task_pane_remain = known;
    }

    /// Opens the status prompt for the selected row, prefilled with its status.
    pub fn open_status_prompt(&mut self)
        ensures
            self_mode_after(old(self), final(self), RowAction::EditStatus),
    {
        if let Some(entry) = self.selected_entry() {
            let input = match entry.workspace_status {
                Some(s) => s,
                None => String::new(),
            };
            self.mode = OverlayMode::Prompt(PromptState {
                kind: PromptKind::Status,
                workspace: entry.workspace,
                input,
                error: None,
            });
        }
    }

    /// Opens the progress prompt for the selected row, prefilled with its progress.
    pub fn open_progress_prompt(&mut self)
        ensures
            self_mode_after(old(self), final(self), RowAction::EditProgress),
    {
        if let Some(entry) = self.selected_entry() {
            let input = match entry.workspace_progress {
                Some(p) => {
                    let d = decimal_chars(p as u64);
                    string_of(d.as_slice())
                },
                None => String::new(),
            };
            self.mode = OverlayMode::Prompt(PromptState {
                kind: PromptKind::Progress,
                workspace: entry.workspace,
                input,
                error: None,
            });
        }
    }

    /// Opens the confirmation to clear the selected row's workspace metadata.
    pub fn open_clear_metadata_confirm(&mut self)
        ensures
            self_mode_after(old(self), final(self), RowAction::ClearMetadata),
    {
        if let Some(entry) = self.selected_entry() {
            self.mode = OverlayMode::Confirm(ConfirmState { workspace: entry.workspace });
        }
    }

    /// Submits a metadata prompt (see `submit_outcome`).
    pub fn submit_prompt(&mut self, prompt: PromptState) -> (r: OverlayEffect)
        ensures
            submit_outcome(prompt, final(self).mode, r),
            final(self).same_but_mode(old(self)),
    {
        let input = chars_of(prompt.input.as_str());
        let t = trim_chars(input.as_slice());
        match prompt.kind {
            PromptKind::Status => {
                self.mode = OverlayMode::List;
                if t.len() == 0 {
                    OverlayEffect::ClearStatus(prompt.workspace)
                } else {
                    OverlayEffect::SetStatus(prompt.workspace, string_of(t.as_slice()))
                }
            },
            PromptKind::Progress => {
                if t.len() == 0 {
                    self.mode = OverlayMode::List;
                    return OverlayEffect::ClearProgress(prompt.workspace);
                }
                match parse_u8_text(t.as_slice()) {
                    Some(value) if value <= 100 => {
                        self.mode = OverlayMode::List;
                        OverlayEffect::SetProgress(prompt.workspace, value)
                    },
                    _ => {
                        self.mode = OverlayMode::Prompt(PromptState {
                            kind: prompt.kind,
                            workspace: prompt.workspace,
                            input: prompt.input,
                            error: Some(owned("Progress must be a number from 0 to 100")),
                        });
                        OverlayEffect::Nothing
                    },
                }
            },
        }
    }

    /// Confirms clearing the metadata of the confirmation's workspace, back to the list.
    pub fn confirm_clear_metadata(&mut self) -> (r: OverlayEffect)
        ensures
            old(self).mode matches OverlayMode::Confirm(c) ==> final(self).mode == OverlayMode::List && (r matches OverlayEffect::ClearMetadata(w) && w == c.workspace),
            !(old(self).mode is Confirm) ==> final(self).mode == old(self).mode && r is Nothing,
            final(self).same_but_mode(old(self)),
    {
        let mut mode = OverlayMode::List;
        std::mem::swap(&mut mode, &mut self.mode);
        match mode {
            OverlayMode::Confirm(c) => OverlayEffect::ClearMetadata(c.workspace),
            other => {
                self.mode = other;
                OverlayEffect::Nothing
            },
        }
    }

    /// The inline action under column `x` of shown row `row_idx`, laid out as selected.
    pub fn row_action_at(&self, row_idx: usize, x: usize) -> (r: Option<RowAction>)
        ensures
            row_idx >= self.filtered_entries@.len() ==> r is None,
            row_idx < self.filtered_entries@.len() ==> r == action_hit(
                targets_from(
                    row_actions(self.filtered_entries@[row_idx as int]@, self.task_pane_remain@),
                    column_width(row_text(self.filtered_entries@[row_idx as int]@)) as int,
                ),
                x,
            ),
    {
        if row_idx >= self.filtered_entries.len() {
            return None;
        }
        let layout = TaskCenterOverlay::row_layout(&self.filtered_entries[row_idx], true, self.task_pane_remain.as_slice());
        hit_action(&layout.action_targets, x)
    }

    /// The rail section at rail line `row`.
    pub fn section_at_row(&self, row: usize) -> (r: Option<TaskCenterSection>)
        ensures
            r == if row < 6 { Some(section_order()[row as int]) } else { None },
    {
        if row < 6 {
            let sections = TaskCenterSection::ordered();
            Some(sections[row])
        } else {
            None
        }
    }

    /// Carries out an inline action on the selected row (see `action_effect`, `action_mode`,
    /// `action_closes`).
    pub fn trigger_row_action(&mut self, action: RowAction) -> (r: OverlayReply)
        ensures
            r.close == action_closes(action),
            action_effect(action, old(self).selected(), old(self).task_pane_remain@, r.effect),
            action_mode(action, old(self).selected(), old(self).mode, final(self).mode),
            final(self).same_but_mode(old(self)),
    {
        match action {
            RowAction::Focus => {
                let effect = match self.selected_entry() {
                    Some(e) => OverlayEffect::Focus(e),
                    None => OverlayEffect::Nothing,
                };
                OverlayReply { close: true, effect }
            },
            RowAction::ClearUnread => {
                let effect = match self.selected_entry() {
                    Some(e) => if e.unread_count > 0 && e.notification_ids.len() > 0 {
                        OverlayEffect::ClearUnread(e)
                    } else {
                        OverlayEffect::Nothing
                    },
                    None => OverlayEffect::Nothing,
                };
                OverlayReply { close: false, effect }
            },
            RowAction::Rerun => {
                let effect = match self.selected_entry() {
                    Some(e) => if e.is_failed && e.rerun_available {
                        OverlayEffect::Rerun(e)
                    } else {
                        OverlayEffect::Nothing
                    },
                    None => OverlayEffect::Nothing,
                };
                OverlayReply { close: true, effect }
            },
            RowAction::ToggleRemainOnExit => {
                let effect = match self.selected_entry() {
                    Some(e) => match TaskCenterOverlay::remain_on_exit_state_for_entry(&e, self.task_pane_remain.as_slice()) {
                        Some(v) => OverlayEffect::SetRemainOnExit(e, !v),
                        None => OverlayEffect::Nothing,
                    },
                    None => OverlayEffect::Nothing,
                };
                OverlayReply { close: false, effect }
            },
            RowAction::EditStatus => {
                self.open_status_prompt();
                OverlayReply { close: false, effect: OverlayEffect::Nothing }
            },
            RowAction::EditProgress => {
                self.open_progress_prompt();
                OverlayReply { close: false, effect: OverlayEffect::Nothing }
            },
            RowAction::ClearMetadata => {
                self.open_clear_metadata_confirm();
                OverlayReply { close: false, effect: OverlayEffect::Nothing }
            },
        }
    }
    /// Reacts to a mouse event on the list. A wheel turn scrolls one row and selects the row
    /// under the pointer; a left click on the rail selects a section; a click on a row selects
    /// it, and a left click then runs the inline action under the pointer, or, on a second
    /// click in a row on the same row, asks to focus it.
    pub fn handle_list_mouse_event(&mut self, ev: MouseInput) -> (r: OverlayReply)
        ensures
            ev.buttons.vert_wheel ==> {
                let top = wheel_top(old(self), ev.buttons.wheel_positive);
                let active = match row_at_line(old(self), top, ev.y) {
                    Some(row) => row,
                    None => old(self).active_idx,
                };
                &&& moved_only(old(self), final(self))
                &&& final(self).click_state == old(self).click_state
                &&& final(self).active_idx == active
                &&& final(self).top_row == top_for(active, top, capacity_of(old(self)))
                &&& !r.close && r.effect is Nothing
            },
            !ev.buttons.vert_wheel && ev.y < ROW_START_Y ==> *final(self) == *old(self) && !r.close && r.effect is Nothing,
            !ev.buttons.vert_wheel && ev.y >= ROW_START_Y && ev.x < RAIL_WIDTH ==> {
                &&& !r.close && r.effect is Nothing
                &&& if left_only(ev.buttons) && ev.y - ROW_START_Y < 6 {
                    section_selected(old(self), final(self), section_order()[ev.y - ROW_START_Y])
                } else {
                    *final(self) == *old(self)
                }
            },
            !ev.buttons.vert_wheel && ev.y >= ROW_START_Y && ev.x >= RAIL_WIDTH ==> match row_at_line(old(self), old(self).top_row, ev.y) {
                None => *final(self) == *old(self) && !r.close && r.effect is Nothing,
                Some(row) => {
                    let e = old(self).filtered_entries@[row as int]@;
                    let hit = action_hit(
                        targets_from(row_actions(e, old(self).task_pane_remain@), column_width(row_text(e)) as int),
                        if ev.x >= CONTENT_START_X { (ev.x - CONTENT_START_X) as usize } else { 0 },
                    );
                    &&& final(self).same_content(old(self))
                    &&& final(self).filters == old(self).filters
                    &&& final(self).filtered_entries == old(self).filtered_entries
                    &&& final(self).active_idx == row
                    &&& final(self).top_row == top_for(row, old(self).top_row, capacity_of(old(self)))
                    &&& if !left_only(ev.buttons) {
                        &&& final(self).mode == old(self).mode
                        &&& final(self).click_state == old(self).click_state
                        &&& !r.close && r.effect is Nothing
                    } else {
                        match hit {
                            Some(a) => {
                                &&& final(self).click_state is None
                                &&& r.close == action_closes(a)
                                &&& action_effect(a, Some(e), old(self).task_pane_remain@, r.effect)
                                &&& action_mode(a, Some(e), old(self).mode, final(self).mode)
                            },
                            None => {
                                let streak = match old(self).click_state {
                                    Some(c) if c.row == row => capped(c.streak + 1) as usize,
                                    _ => 1usize,
                                };
                                &&& final(self).mode == old(self).mode
                                &&& final(self).click_state == Some(ClickState { row, streak })
                                &&& if streak >= 2 {
                                    r.close && (r.effect matches OverlayEffect::Focus(x) && x@ == e)
                                } else {
                                    !r.close && r.effect is Nothing
                                }
                            },
                        }
                    }
                },
            },
    {
        let nothing = OverlayReply { close: false, effect: OverlayEffect::Nothing };
        let y = ev.y as usize;
        let x = ev.x as usize;
        if ev.buttons.vert_wheel {
            let capacity = self.visible_row_capacity();
            let len = self.filtered_entries.len();
            if ev.buttons.wheel_positive {
                self.top_row = if self.top_row > 0 {
                    self.top_row - 1
                } else {
                    0
                };
            } else {
                let limit = if len > capacity {
                    len - capacity
                } else {
                    0
                };
                self.top_row = if self.top_row < limit {
                    self.top_row + 1
                } else {
                    limit
                };
            }
            if y >= ROW_START_Y {
                let offset = y - ROW_START_Y;
                if offset < len && self.top_row < len - offset {
                    self.active_idx = self.top_row + offset;
                }
            }
            self.ensure_active_row_visible();
            return nothing;
        }
        if y < ROW_START_Y {
            return nothing;
        }
        let offset = y - ROW_START_Y;
        if x < RAIL_WIDTH {
            if ev.buttons.left && !ev.buttons.right && !ev.buttons.middle && !ev.buttons.vert_wheel
                && !ev.buttons.horz_wheel && !ev.buttons.wheel_positive {
                if let Some(section) = self.section_at_row(offset) {
                    self.set_selected_section(section);
                }
            }
            return nothing;
        }
        let len = self.filtered_entries.len();
        if !(offset < len && self.top_row < len - offset) {
            return nothing;
        }
        let row = self.top_row + offset;
        self.active_idx = row;
        self.ensure_active_row_visible();
        if ev.buttons.left && !ev.buttons.right && !ev.buttons.middle && !ev.buttons.vert_wheel
            && !ev.buttons.horz_wheel && !ev.buttons.wheel_positive {
            let content_x = if x >= CONTENT_START_X {
                x - CONTENT_START_X
            } else {
                0
            };
            if let Some(action) = self.row_action_at(row, content_x) {
                self.click_state = None;
                return self.trigger_row_action(action);
            }
            let streak = match self.click_state {
                Some(click) => if click.row == row {
                    click.streak.saturating_add(1)
                } else {
                    1
                },
                None => 1,
            };
            self.click_state = Some(ClickState { row, streak });
            if streak >= 2 {
                return self.trigger_row_action(RowAction::Focus);
            }
        }
        nothing
    }

    /// Reacts to a key in the metadata prompt: Enter submits it, Escape closes it, Backspace
    /// deletes the last character, and a character typed without Ctrl, Alt or Super is added;
    /// editing clears the prompt's error. Outside a prompt nothing happens.
    pub fn handle_prompt_key(&mut self, key: OverlayKey) -> (r: OverlayReply)
        ensures
            !r.close,
            final(self).same_but_mode(old(self)),
            !(old(self).mode is Prompt) ==> final(self).mode == old(self).mode && r.effect is Nothing,
            old(self).mode matches OverlayMode::Prompt(p) ==> match key {
                OverlayKey::Enter => submit_outcome(p, final(self).mode, r.effect),
                OverlayKey::Escape => final(self).mode == OverlayMode::List && r.effect is Nothing,
                OverlayKey::Backspace => r.effect is Nothing && (final(self).mode matches OverlayMode::Prompt(q) && q.kind
                    == p.kind && q.workspace == p.workspace && q.input@ == (if p.input@.len() > 0 {
                    p.input@.drop_last()
                } else {
                    p.input@
                }) && q.error is None),
                OverlayKey::Char(c, m) => r.effect is Nothing && if !m.ctrl && !m.super_key && !m.alt {
                    final(self).mode matches OverlayMode::Prompt(q) && q.kind == p.kind && q.workspace == p.workspace
                        && q.input@ == p.input@.push(c) && q.error is None
                } else {
                    final(self).mode == old(self).mode
                },
                _ => final(self).mode == old(self).mode && r.effect is Nothing,
            },
    {
        let nothing = OverlayReply { close: false, effect: OverlayEffect::Nothing };
        let mut mode = OverlayMode::List;
        std::mem::swap(&mut mode, &mut self.mode);
        let prompt = match mode {
            OverlayMode::Prompt(p) => p,
            other => {
                self.mode = other;
                return nothing;
            },
        };
        match key {
            OverlayKey::Enter => {
                let effect = self.submit_prompt(prompt);
                OverlayReply { close: false, effect }
            },
            OverlayKey::Escape => {
                self.mode = OverlayMode::List;
                nothing
            },
            OverlayKey::Backspace => {
                let mut chars = chars_of(prompt.input.as_str());
                if chars.len() > 0 {
                    chars.pop();
                }
                self.mode = OverlayMode::Prompt(PromptState {
                    kind: prompt.kind,
                    workspace: prompt.workspace,
                    input: string_of(chars.as_slice()),
                    error: None,
                });
                nothing
            },
            OverlayKey::Char(c, m) => {
                if !m.ctrl && !m.super_key && !m.alt {
                    let mut input = prompt.input;
                    push_char(&mut input, c);
                    self.mode = OverlayMode::Prompt(PromptState {
                        kind: prompt.kind,
                        workspace: prompt.workspace,
                        input,
                        error: None,
                    });
                } else {
                    self.mode = OverlayMode::Prompt(prompt);
                }
                nothing
            },
            _ => {
                self.mode = OverlayMode::Prompt(prompt);
                nothing
            },
        }
    }

    /// Reacts to a key in the clear confirmation: Enter, `y` or `Y` confirm it; Escape, `n` or
    /// `N` cancel it; other keys do nothing. The overlay stays open.
    pub fn handle_confirm_key(&mut self, key: OverlayKey) -> (r: OverlayReply)
        ensures
            !r.close,
            final(self).same_but_mode(old(self)),
            confirms(key) ==> (old(self).mode matches OverlayMode::Confirm(cf) ==> final(self).mode == OverlayMode::List
                && (r.effect matches OverlayEffect::ClearMetadata(w) && w == cf.workspace)),
            confirms(key) && !(old(self).mode is Confirm) ==> final(self).mode == old(self).mode && r.effect is Nothing,
            cancels(key) ==> final(self).mode == OverlayMode::List && r.effect is Nothing,
            !confirms(key) && !cancels(key) ==> final(self).mode == old(self).mode && r.effect is Nothing,
    {
        let confirm = match key {
            OverlayKey::Enter => 1u8,
            OverlayKey::Escape => 2u8,
            OverlayKey::Char(c, _) => if c == 'y' || c == 'Y' {
                1u8
            } else if c == 'n' || c == 'N' {
                2u8
            } else {
                0u8
            },
            _ => 0u8,
        };
        if confirm == 1 {
            let effect = self.confirm_clear_metadata();
            OverlayReply { close: false, effect }
        } else if confirm == 2 {
            self.mode = OverlayMode::List;
            OverlayReply { close: false, effect: OverlayEffect::Nothing }
        } else {
            OverlayReply { close: false, effect: OverlayEffect::Nothing }
        }
    }
    /// Reacts to a key over the list: Enter focuses the selected row and Escape closes the
    /// overlay; a plain character acts as `list_char_outcome` says; Backspace shortens the
    /// query; the arrow keys move the selection and the rail section.
    pub fn handle_list_key(&mut self, key: OverlayKey) -> (r: OverlayReply)
        ensures
            key is Enter ==> *final(self) == *old(self) && r.close && action_effect(
                RowAction::Focus,
                old(self).selected(),
                old(self).task_pane_remain@,
                r.effect,
            ),
            key is Escape ==> *final(self) == *old(self) && r.close && r.effect is Nothing,
            key matches OverlayKey::Char(c, m) ==> if no_modifiers(m) {
                list_char_outcome(old(self), final(self), c, r)
            } else {
                *final(self) == *old(self) && !r.close && r.effect is Nothing
            },
            key is Backspace ==> {
                &&& final(self).filter_term@ == if old(self).filter_term@.len() > 0 {
                    old(self).filter_term@.drop_last()
                } else {
                    old(self).filter_term@
                }
                &&& final(self).entries == old(self).entries
                &&& final(self).selected_section == old(self).selected_section
                &&& final(self).task_pane_remain == old(self).task_pane_remain
                &&& final(self).max_items == old(self).max_items
                &&& final(self).mode == old(self).mode
                &&& refreshed(final(self))
                &&& !r.close && r.effect is Nothing
            },
            key is UpArrow ==> moved_up(old(self), final(self)) && !r.close && r.effect is Nothing,
            key is DownArrow ==> moved_down(old(self), final(self)) && !r.close && r.effect is Nothing,
            key is LeftArrow ==> moved_section_up(old(self), final(self)) && !r.close && r.effect is Nothing,
            key is RightArrow ==> moved_section_down(old(self), final(self)) && !r.close && r.effect is Nothing,
            key is Other ==> *final(self) == *old(self) && !r.close && r.effect is Nothing,
    {
        let nothing = OverlayReply { close: false, effect: OverlayEffect::Nothing };
        match key {
            OverlayKey::Enter => self.trigger_row_action(RowAction::Focus),
            OverlayKey::Escape => OverlayReply { close: true, effect: OverlayEffect::Nothing },
            OverlayKey::Char(c, m) => {
                if m.shift || m.ctrl || m.alt || m.super_key {
                    return nothing;
                }
                if (c == 'c' || c == 'C') && self.can_clear_unread() {
                    self.trigger_row_action(RowAction::ClearUnread)
                } else if (c == 'r' || c == 'R') && self.can_rerun() {
                    self.trigger_row_action(RowAction::Rerun)
                } else if (c == 'h' || c == 'H') && self.can_toggle_remain_on_exit() {
                    self.trigger_row_action(RowAction::ToggleRemainOnExit)
                } else if (c == 's' || c == 'S') && self.can_edit_metadata() {
                    self.trigger_row_action(RowAction::EditStatus)
                } else if (c == 'p' || c == 'P') && self.can_edit_metadata() {
                    self.trigger_row_action(RowAction::EditProgress)
                } else if (c == 'm' || c == 'M') && self.can_clear_metadata() {
                    self.trigger_row_action(RowAction::ClearMetadata)
                } else {
                    push_char(&mut self.filter_term, c);
                    self.update_filter();
                    nothing
                }
            },
            OverlayKey::Backspace => {
                let mut chars = chars_of(self.filter_term.as_str());
                if chars.len() > 0 {
                    chars.pop();
                }
                self.filter_term = string_of(chars.as_slice());
                self.update_filter();
                nothing
            },
            OverlayKey::UpArrow => {
                self.move_selection_up();
                nothing
            },
            OverlayKey::DownArrow => {
                self.move_selection_down();
                nothing
            },
            OverlayKey::LeftArrow => {
                self.move_section_left();
                nothing
            },
            OverlayKey::RightArrow => {
                self.move_section_right();
                nothing
            },
            OverlayKey::Other => nothing,
        }
    }

    /// A row's text as drawn, laid out as selected or not, with no hold settings recorded.
    pub fn row_text_for_test(entry: &TaskCenterEntry, active: bool) -> (r: String)
        ensures
            r@ == if active {
                row_text(entry@) + labels_text(row_actions(entry@, Seq::empty()))
            } else {
                row_text(entry@)
            },
    {
        let known: Vec<(u64, bool)> = Vec::new();
        TaskCenterOverlay::row_layout(entry, active, known.as_slice()).text
    }

    /// The header lines, as a list.
    pub fn header_lines_for_test(&self) -> (r: Vec<String>)
        ensures
            r@.len() == 3,
            r@[0]@ == "Task Center"@,
            r@[2]@ == "←/→ rail  ⏎ focus  click select  dbl-click focus  ↺ rerun  ◎ hold  ◇ status  ◔ progress  esc close"@,
    {
        let h = self.header_lines();
        let mut r: Vec<String> = Vec::new();
        r.push(h[0].clone());
        r.push(h[1].clone());
        r.push(h[2].clone());
        r
    }

    /// Sets how many rows fit on screen (at least one).
    pub fn set_visible_rows_for_test(&mut self, visible_rows: usize)
        ensures
            final(self).max_items == if visible_rows > 1 { visible_rows } else { 1 },
            final(self).entries == old(self).entries,
            final(self).filtered_entries == old(self).filtered_entries,
            final(self).filter_term == old(self).filter_term,
            final(self).filters == old(self).filters,
            final(self).active_idx == old(self).active_idx,
            final(self).top_row == old(self).top_row,
            final(self).mode == old(self).mode,
            final(self).click_state == old(self).click_state,
            final(self).selected_section == old(self).selected_section,
            final(self).task_pane_remain == old(self).task_pane_remain,
    {
        self.max_items = if visible_rows > 1 {
            visible_rows
        } else {
            1
        };
    }

    /// Fits the list to a screen `rows` lines high: as many rows as the lines left besides
    /// `ROW_OVERHEAD`.
    pub fn fit_screen_rows(&mut self, rows: usize)
        ensures
            *final(self) == (TaskCenterOverlay {
                max_items: minus_or_zero(rows as int, ROW_OVERHEAD as int) as usize,
                ..*old(self)
            }),
    {
        self.max_items = rows.saturating_sub(ROW_OVERHEAD);
    }

    /// The label of the selected row.
    pub fn selected_label_for_test(&self) -> (r: Option<&str>)
        ensures
            match r {
                Some(l) => self.selected() matches Some(e) && l@ == e.label,
                None => self.selected() is None,
            },
    {
        if self.active_idx < self.filtered_entries.len() {
            Some(self.filtered_entries[self.active_idx].label.as_str())
        } else {
            None
        }
    }

    /// The first row on screen.
    pub fn top_row_for_test(&self) -> (r: usize)
        ensures
            r == self.top_row,
    {
        self.top_row
    }

    /// The selected rail section.
    pub fn selected_section_for_test(&self) -> (r: TaskCenterSection)
        ensures
            r == self.selected_section,
    {
        self.selected_section
    }

    /// The screen column where the selected row's inline action `action` starts.
    pub fn action_x_for_test(&self, action: RowAction) -> (r: Option<usize>)
        ensures
            match self.selected() {
                None => r is None,
                Some(e) => match target_of(
                    targets_from(row_actions(e, self.task_pane_remain@), column_width(row_text(e)) as int),
                    action,
                ) {
                    None => r is None,
                    Some(t) => r == Some(capped(CONTENT_START_X + t.start) as usize),
                },
            },
    {
        if self.active_idx >= self.filtered_entries.len() {
            return None;
        }
        let layout = TaskCenterOverlay::row_layout(&self.filtered_entries[self.active_idx], true, self.task_pane_remain.as_slice());
        let targets = &layout.action_targets;
        let mut i: usize = 0;
        assert(targets@.subrange(0, targets@.len() as int) =~= targets@);
        while i < targets.len()
            invariant
                i <= targets@.len(),
                self.active_idx < self.filtered_entries@.len(),
                targets@ == targets_from(
                    row_actions(self.filtered_entries@[self.active_idx as int]@, self.task_pane_remain@),
                    column_width(row_text(self.filtered_entries@[self.active_idx as int]@)) as int,
                ),
                target_of(targets@, action) == target_of(targets@.subrange(i as int, targets@.len() as int), action),
            decreases targets@.len() - i,
        {
            let ghost rest = targets@.subrange(i as int, targets@.len() as int);
            assert(rest[0] == targets@[i as int]);
            assert(rest.drop_first() =~= targets@.subrange(i + 1, targets@.len() as int));
            if targets[i].action == action {
                return Some(CONTENT_START_X.saturating_add(targets[i].start));
            }
            i += 1;
        }
        None
    }

    /// The mode's name.
    pub fn mode_name_for_test(&self) -> (r: &'static str)
        ensures
            r@ == match self.mode {
                OverlayMode::List => "list"@,
                OverlayMode::Prompt(p) => if p.kind == PromptKind::Status {
                    "prompt:status"@
                } else {
                    "prompt:progress"@
                },
                OverlayMode::Confirm(_) => "confirm"@,
            },
    {
        match &self.mode {
            OverlayMode::List => "list",
            OverlayMode::Prompt(p) => match p.kind {
                PromptKind::Status => "prompt:status",
                PromptKind::Progress => "prompt:progress",
            },
            OverlayMode::Confirm(_) => "confirm",
        }
    }
}

/// The lines of a prompt's screen: its title, the current value (`(empty)` for none), how to
/// answer, the input after its label, and the error, if any.
pub open spec fn prompt_lines(p: PromptState) -> Seq<Seq<char>> {
    let (title, help, label) = match p.kind {
        PromptKind::Status => ("◇ status  "@, "Enter save  Esc cancel  blank clears"@, "status> "@),
        PromptKind::Progress => (
            "◔ progress  "@,
            "Enter save  Esc cancel  blank clears  0-100"@,
            "progress> "@,
        ),
    };
    let current = if p.input@.len() == 0 {
        "(empty)"@
    } else {
        p.input@
    };
    let lines = seq![title + p.workspace@, "current: "@ + current, help, label + p.input@];
    match p.error {
        Some(e) => lines.push(e@),
        None => lines,
    }
}

impl PromptState {
    /// The lines of the prompt's screen (see `prompt_lines`).
    pub fn screen_lines(&self) -> (r: Vec<String>)
        ensures
            views(r@) == prompt_lines(*self),
    {
        let (title, help, label) = match self.kind {
            PromptKind::Status => ("◇ status  ", "Enter save  Esc cancel  blank clears", "status> "),
            PromptKind::Progress => ("◔ progress  ", "Enter save  Esc cancel  blank clears  0-100", "progress> "),
        };
        let mut r: Vec<String> = Vec::new();
        r.push(string_of(concat_text(title, self.workspace.as_str()).as_slice()));
        let current = if self.input.unicode_len() == 0 {
            concat_text("current: ", "(empty)")
        } else {
            concat_text("current: ", self.input.as_str())
        };
        r.push(string_of(current.as_slice()));
        r.push(owned(help));
        r.push(string_of(concat_text(label, self.input.as_str()).as_slice()));
        match &self.error {
            Some(e) => r.push(e.clone()),
            None => {},
        }
        assert(views(r@) =~= prompt_lines(*self));
        r
    }
}

/// The lines of the screen that confirms clearing workspace `c.workspace`'s metadata.
pub open spec fn confirm_lines(c: ConfirmState) -> Seq<Seq<char>> {
    seq![
        "⌫ clear metadata"@,
        "Clear the visible status/progress summary for workspace "@ + c.workspace@ + "?"@,
        "Enter/Y=clear Esc/N=cancel"@,
    ]
}

impl ConfirmState {
    /// The lines of the confirmation's screen (see `confirm_lines`).
    pub fn screen_lines(&self) -> (r: Vec<String>)
        ensures
            views(r@) == confirm_lines(*self),
    {
        let mut r: Vec<String> = Vec::new();
        r.push(owned("⌫ clear metadata"));
        let mut question = chars_of("Clear the visible status/progress summary for workspace ");
        append_chars(&mut question, chars_of(self.workspace.as_str()).as_slice());
        append_chars(&mut question, chars_of("?").as_slice());
        r.push(string_of(question.as_slice()));
        r.push(owned("Enter/Y=clear Esc/N=cancel"));
        assert(views(r@) =~= confirm_lines(*self));
        r
    }
}

} // verus!
