//! The native shell's bookkeeping of its terminal panes (how many there are, which is focused,
//! which is zoomed, and how two of them are split), how those panes show in the snapshot of
//! the active workspace, the context its metadata actions run with, and the checks of its
//! smoke run.

use crate::notification_store::NotificationRecord;
use crate::shell_actions::{ShellAction, ShellActionContext, ShellActionOutcome};
use crate::task_center::{opt_text, progress_in, progress_of, status_in, status_of};
use crate::snapshot::{opt_seq, unread_of, RuntimeSnapshot, SnapshotRefreshScope, WorkspaceSummary, count_unread};
use crate::terminal::{TerminalHandleState, TerminalSurfaceState};
use crate::text::{
    append_chars, bool_chars, bool_text, chars_of, lower_char, to_lower_char, decimal, decimal_chars, join_chars, joined, lower_case, owned, str_eq, string_of, unicode_lower,
    views,
};
use crate::time::Timestamp;
use crate::notification_store::NotificationUnreadMode;
use crate::workspace_state::{WorkspaceProgressRecord, WorkspaceStatusRecord};
use vstd::prelude::*;

verus! {

/// How two terminal panes share the workspace area.
#[derive(Clone, Copy, Debug, PartialEq, Eq, Structural)]
pub enum TwoPaneSplit {
    SideBySide,
    Stacked,
}

/// The most terminal panes the shell opens.
pub const MAX_TERMINALS: usize = 4;

/// The terminal panes of the shell: how many there are, which one is focused, which one is
/// zoomed, which one should take focus when the view is rebuilt, and how two panes are split.
#[derive(Clone, Copy, Debug, PartialEq, Eq, Structural)]
pub struct TerminalSessions {
    pub count: usize,
    pub focused: Option<usize>,
    pub zoomed: Option<usize>,
    pub preferred_focus: Option<usize>,
    pub split: TwoPaneSplit,
}

/// An optional index is absent or names one of `count` panes.
pub open spec fn index_ok(i: Option<usize>, count: usize) -> bool {
    i matches Some(k) ==> k < count
}

/// The index after removing the pane at `removed`: none where it was that pane, one less where
/// it came after it.
pub open spec fn shifted_after_removal(i: Option<usize>, removed: usize) -> Option<usize> {
    match i {
        Some(k) => if k == removed {
            None
        } else if k > removed {
            Some((k - 1) as usize)
        } else {
            Some(k)
        },
        None => None,
    }
}

/// The index after swapping the panes at `a` and `b`.
pub open spec fn swapped(i: Option<usize>, a: usize, b: usize) -> Option<usize> {
    match i {
        Some(k) => if k == a {
            Some(b)
        } else if k == b {
            Some(a)
        } else {
            Some(k)
        },
        None => None,
    }
}

/// The pane after the focused one (after the first where none is focused), cyclically; none
/// where there are no panes.
pub open spec fn next_focus(s: TerminalSessions) -> Option<usize> {
    if s.count == 0 {
        None
    } else {
        let current: int = match s.focused {
            Some(k) => k as int,
            None => 0,
        };
        Some(((current + 1) % (s.count as int)) as usize)
    }
}

/// The pane before the focused one (before the first where none is focused), cyclically; none
/// where there are no panes.
pub open spec fn previous_focus(s: TerminalSessions) -> Option<usize> {
    if s.count == 0 {
        None
    } else {
        let current: int = match s.focused {
            Some(k) => k as int,
            None => 0,
        };
        Some(
            if current == 0 {
                (s.count - 1) as usize
            } else {
                (current - 1) as usize
            },
        )
    }
}

impl TerminalSessions {
    /// Every index names one of the panes.
    pub open spec fn wf(&self) -> bool {
        &&& index_ok(self.focused, self.count)
        &&& index_ok(self.zoomed, self.count)
        &&& index_ok(self.preferred_focus, self.count)
    }

    /// No panes yet, side by side.
    pub fn new() -> (r: TerminalSessions)
        ensures
            r.wf(),
            r == (TerminalSessions {
                count: 0,
                focused: None,
                zoomed: None,
                preferred_focus: None,
                split: TwoPaneSplit::SideBySide,
            }),
    {
        TerminalSessions { count: 0, focused: None, zoomed: None, preferred_focus: None, split: TwoPaneSplit::SideBySide }
    }

    /// Swaps the panes at `source` and `target`, carrying focus and zoom with them; nothing
    /// happens where either is out of range or they are the same. Reports whether they swapped.
    pub fn reorder(&mut self, source: usize, target: usize) -> (r: bool)
        requires
            old(self).wf(),
        ensures
            final(self).wf(),
            r == (source < old(self).count && target < old(self).count && source != target),
            !r ==> *final(self) == *old(self),
            r ==> *final(self) == (TerminalSessions {
                zoomed: swapped(old(self).zoomed, source, target),
                focused: swapped(old(self).focused, source, target),
                preferred_focus: swapped(old(self).focused, source, target),
                ..*old(self)
            }),
    {
        if source >= self.count || target >= self.count || source == target {
            return false;
        }
        self.zoomed = match self.zoomed {
            Some(z) => if z == source {
                Some(target)
            } else if z == target {
                Some(source)
            } else {
                Some(z)
            },
            None => None,
        };
        let next = match self.focused {
            Some(f) => if f == source {
                Some(target)
            } else if f == target {
                Some(source)
            } else {
                Some(f)
            },
            None => None,
        };
        self.focused = next;
        self.preferred_focus = next;
        true
    }

    /// The pane after the focused one (after the first where none is focused), cyclically;
    /// none where there are no panes.
    pub fn next_index(&self) -> (r: Option<usize>)
        requires
            self.wf(),
        ensures
            r == next_focus(*self),
    {
        if self.count == 0 {
            return None;
        }
        let current = match self.focused {
            Some(k) => k,
            None => 0,
        };
        Some((current + 1) % self.count)
    }

    /// The pane before the focused one (before the first where none is focused), cyclically;
    /// none where there are no panes.
    pub fn previous_index(&self) -> (r: Option<usize>)
        requires
            self.wf(),
        ensures
            r == previous_focus(*self),
    {
        if self.count == 0 {
            return None;
        }
        let current = match self.focused {
            Some(k) => k,
            None => 0,
        };
        Some(if current == 0 {
            self.count - 1
        } else {
            current - 1
        })
    }

    /// Focuses the pane at `index`, which also becomes the one to focus on the next rebuild.
    pub fn focus(&mut self, index: usize)
        requires
            old(self).wf(),
            index < old(self).count,
        ensures
            final(self).wf(),
            *final(self) == (TerminalSessions { focused: Some(index), preferred_focus: Some(index), ..*old(self) }),
    {
        self.focused = Some(index);
        self.preferred_focus = Some(index);
    }

    /// Closes the focused pane (the last one where none is focused), unless it is the only one:
    /// the pane after it (or the new last one) takes focus and the zoom follows the removal.
    /// Gives the index closed.
    pub fn close_focused(&mut self) -> (r: Option<usize>)
        requires
            old(self).wf(),
        ensures
            final(self).wf(),
            old(self).count <= 1 ==> r is None && *final(self) == *old(self),
            old(self).count > 1 ==> {
                let closed = match old(self).focused {
                    Some(k) => k,
                    None => (old(self).count - 1) as usize,
                };
                let next = if closed < old(self).count - 1 {
                    closed
                } else {
                    (old(self).count - 2) as usize
                };
                &&& r == Some(closed)
                &&& *final(self) == (TerminalSessions {
                    count: (old(self).count - 1) as usize,
                    focused: Some(next),
                    zoomed: shifted_after_removal(old(self).zoomed, closed),
                    preferred_focus: Some(next),
                    split: old(self).split,
                })
            },
    {
        if self.count <= 1 {
            return None;
        }
        let focused = match self.focused {
            Some(k) => k,
            None => self.count - 1,
        };
        self.count = self.count - 1;
        let next = if focused < self.count {
            focused
        } else {
            self.count - 1
        };
        self.remap_zoom_after_removal(focused);
        self.focused = Some(next);
        self.preferred_focus = Some(next);
        Some(focused)
    }

    /// Closes the pane at `index`, unless it is the only one or out of range: focus stays on
    /// the same pane (moving down one where it came after `index`), or goes to the pane now at
    /// `index` (the new last one where none is left there) where it was on the one closed or
    /// nowhere; the zoom follows the removal. Reports whether a pane was closed.
    pub fn close_at(&mut self, index: usize) -> (r: bool)
        requires
            old(self).wf(),
        ensures
            final(self).wf(),
            r == (old(self).count > 1 && index < old(self).count),
            !r ==> *final(self) == *old(self),
            r ==> {
                let n = (old(self).count - 1) as usize;
                let at = if index < n {
                    index
                } else {
                    (n - 1) as usize
                };
                let next = match old(self).focused {
                    Some(k) => if k == index {
                        at
                    } else if k > index {
                        (k - 1) as usize
                    } else {
                        k
                    },
                    None => at,
                };
                *final(self) == (TerminalSessions {
                    count: n,
                    focused: Some(next),
                    zoomed: shifted_after_removal(old(self).zoomed, index),
                    preferred_focus: Some(next),
                    split: old(self).split,
                })
            },
    {
        if self.count <= 1 || index >= self.count {
            return false;
        }
        self.count = self.count - 1;
        let at = if index < self.count {
            index
        } else {
            self.count - 1
        };
        let next = match self.focused {
            Some(k) => if k == index {
                at
            } else if k > index {
                k - 1
            } else {
                k
            },
            None => at,
        };
        self.remap_zoom_after_removal(index);
        self.focused = Some(next);
        self.preferred_focus = Some(next);
        true
    }

    /// Moves the zoom to follow the removal of the pane at `removed` (see
    /// `shifted_after_removal`).
    fn remap_zoom_after_removal(&mut self, removed: usize)
        requires
            old(self).zoomed matches Some(z) ==> z <= old(self).count,
        ensures
            *final(self) == (TerminalSessions { zoomed: shifted_after_removal(old(self).zoomed, removed), ..*old(self) }),
    {
        self.zoomed = match self.zoomed {
            Some(z) => if z == removed {
                None
            } else if z > removed {
                Some(z - 1)
            } else {
                Some(z)
            },
            None => None,
        };
    }

    /// Zooms the focused pane, or unzooms it where it is zoomed; the focused pane is to take
    /// focus on the next rebuild. Nothing happens where no pane is focused.
    pub fn toggle_zoom_focused(&mut self)
        requires
            old(self).wf(),
        ensures
            final(self).wf(),
            old(self).focused is None ==> *final(self) == *old(self),
            old(self).focused matches Some(k) ==> *final(self) == (TerminalSessions {
                zoomed: if old(self).zoomed == Some(k) {
                    None
                } else {
                    Some(k)
                },
                preferred_focus: Some(k),
                ..*old(self)
            }),
    {
        if let Some(k) = self.focused {
            self.zoomed = if self.zoomed == Some(k) {
                None
            } else {
                Some(k)
            };
            self.preferred_focus = Some(k);
        }
    }

    /// Switches two panes between side by side and stacked.
    pub fn toggle_split_direction(&mut self)
        ensures
            *final(self) == (TerminalSessions {
                split: match old(self).split {
                    TwoPaneSplit::SideBySide => TwoPaneSplit::Stacked,
                    TwoPaneSplit::Stacked => TwoPaneSplit::SideBySide,
                },
                ..*old(self)
            }),
    {
        self.split = match self.split {
            TwoPaneSplit::SideBySide => TwoPaneSplit::Stacked,
            TwoPaneSplit::Stacked => TwoPaneSplit::SideBySide,
        };
    }

    /// Splits in direction `split` and unzooms; where fewer than `MAX_TERMINALS` panes are
    /// open, a new pane is added last and focused. Reports whether a pane was added.
    pub fn split_with(&mut self, split: TwoPaneSplit) -> (r: bool)
        requires
            old(self).wf(),
        ensures
            final(self).wf(),
            r == (old(self).count < MAX_TERMINALS),
            r ==> *final(self) == (TerminalSessions {
                count: (old(self).count + 1) as usize,
                focused: Some(old(self).count),
                zoomed: None,
                preferred_focus: Some(old(self).count),
                split,
            }),
            !r ==> *final(self) == (TerminalSessions { zoomed: None, split, ..*old(self) }),
    {
        self.split = split;
        self.zoomed = None;
        if self.count < MAX_TERMINALS {
            let next = self.count;
            self.count = self.count + 1;
            self.preferred_focus = Some(next);
            self.focused = Some(next);
            true
        } else {
            false
        }
    }

    /// Starts over with a single pane, focused.
    pub fn reset(&mut self)
        ensures
            *final(self) == (TerminalSessions {
                count: 1,
                focused: Some(0),
                preferred_focus: Some(0),
                ..*old(self)
            }),
            old(self).zoomed is None ==> final(self).wf(),
    {
        self.count = 1;
        self.preferred_focus = Some(0);
        self.focused = Some(0);
    }

    /// Where a tool is launched: lazygit and yazi open in a new pane (added last and focused)
    /// where fewer than `MAX_TERMINALS` are open, or otherwise in the focused pane (the first
    /// where none is); any other tool runs in the focused pane. Gives the pane and whether it
    /// was added.
    pub fn launch_target(&mut self, command: &str) -> (r: (usize, bool))
        requires
            old(self).wf(),
        ensures
            final(self).wf(),
            (command@ == "lazygit"@ || command@ == "yazi"@) && old(self).count < MAX_TERMINALS ==> r == (
            old(self).count,
            true,
        ) && *final(self) == (TerminalSessions {
                count: (old(self).count + 1) as usize,
                focused: Some(old(self).count),
                preferred_focus: Some(old(self).count),
                ..*old(self)
            }),
            !((command@ == "lazygit"@ || command@ == "yazi"@) && old(self).count < MAX_TERMINALS) ==> {
                let k = match old(self).focused {
                    Some(k) => k,
                    None => 0,
                };
                &&& r == (k, false)
                &&& (command@ == "lazygit"@ || command@ == "yazi"@) ==> *final(self) == (TerminalSessions {
                    focused: Some(k),
                    preferred_focus: Some(k),
                    ..*old(self)
                })
                &&& !(command@ == "lazygit"@ || command@ == "yazi"@) ==> *final(self) == *old(self)
            },
    {
        let new_pane = str_eq(command, "lazygit") || str_eq(command, "yazi");
        let current = match self.focused {
            Some(k) => k,
            None => 0,
        };
        if new_pane {
            if self.count < MAX_TERMINALS {
                let next = self.count;
                self.count = self.count + 1;
                self.preferred_focus = Some(next);
                self.focused = Some(next);
                (next, true)
            } else {
                assert(self.count > 0);
                self.preferred_focus = Some(current);
                self.focused = Some(current);
                (current, false)
            }
        } else {
            (current, false)
        }
    }
}

/// The workspace the shell's actions act on: the one selected, or `workspace` where none is.
pub fn selected_workspace_name(selected: &Option<String>) -> (r: String)
    ensures
        r@ == match opt_text(*selected) {
            Some(w) => w,
            None => "workspace"@,
        },
{
    match selected {
        Some(w) => w.clone(),
        None => owned("workspace"),
    }
}

/// The ids of the unread notifications of workspace `w`, oldest first.
pub open spec fn unread_ids_of(ns: Seq<NotificationRecord>, w: Seq<char>) -> Seq<Seq<char>> {
    ns.filter(|n: NotificationRecord| n.workspace@ == w && n.unread).map_values(
        |n: NotificationRecord| n.notification_id@,
    )
}

/// The context an action on workspace `workspace` runs with: its status and progress (those of
/// its last records) and its unread notifications, stamped with the current time.
pub fn action_context(
    workspace: String,
    statuses: &[WorkspaceStatusRecord],
    progresses: &[WorkspaceProgressRecord],
    notifications: &[NotificationRecord],
) -> (r: ShellActionContext)
    ensures
        r.workspace == workspace,
        opt_text(r.current_status) == status_in(statuses@, workspace@),
        r.current_progress == progress_in(progresses@, workspace@),
        views(r.visible_notification_ids@) == unread_ids_of(notifications@, workspace@),
{
    let current_status = status_of(statuses, workspace.as_str());
    let current_progress = progress_of(progresses, workspace.as_str());
    let ghost f = |n: NotificationRecord| n.workspace@ == workspace@ && n.unread;
    let ghost g = |n: NotificationRecord| n.notification_id@;
    let mut ids: Vec<String> = Vec::new();
    let mut i: usize = 0;
    while i < notifications.len()
        invariant
            i <= notifications@.len(),
            f == (|n: NotificationRecord| n.workspace@ == workspace@ && n.unread),
            g == (|n: NotificationRecord| n.notification_id@),
            views(ids@) == notifications@.subrange(0, i as int).filter(f).map_values(g),
        decreases notifications@.len() - i,
    {
        let ghost pre = notifications@.subrange(0, i as int);
        assert(notifications@.subrange(0, i + 1) =~= pre.push(notifications@[i as int]));
        proof {
            crate::seq_facts::lemma_filter_push(pre, f, notifications@[i as int]);
        }
        if notifications[i].unread && str_eq(notifications[i].workspace.as_str(), workspace.as_str()) {
            let ghost before = views(ids@);
            ids.push(notifications[i].notification_id.clone());
            assert(views(ids@) =~= before.push(g(notifications@[i as int])));
            assert(pre.filter(f).push(notifications@[i as int]).map_values(g) =~= pre.filter(f).map_values(g).push(
                g(notifications@[i as int]),
            ));
        }
        i += 1;
    }
    assert(notifications@.subrange(0, notifications@.len() as int) =~= notifications@);
    ShellActionContext::new(workspace, current_status, current_progress, ids)
}

/// Whether the shell re-reads the multiplexer after an action: after any that changed it, and
/// after a refresh.
pub fn should_refresh_after(action: ShellAction, outcome: ShellActionOutcome) -> (r: bool)
    ensures
        r == (outcome == ShellActionOutcome::Mutated || action == ShellAction::Refresh),
{
    match outcome {
        ShellActionOutcome::Mutated => true,
        ShellActionOutcome::NoMutation => match action {
            ShellAction::Refresh => true,
            _ => false,
        },
    }
}

/// One pane's part of the local shells' signature: title, badge, and whether the session is
/// live, is being spawned and has failed to spawn, separated by `|`.
pub open spec fn shell_part(s: TerminalSurfaceState, h: TerminalHandleState) -> Seq<char> {
    s.title@ + "|"@ + match s.status_badge {
        Some(b) => b@,
        None => Seq::empty(),
    } + "|"@ + bool_text(h.live) + "|"@ + bool_text(h.pending_spawn) + "|"@ + bool_text(h.has_error)
}

/// The signature of the local shells, which the shell compares between polls to notice a change
/// in what it shows of them: the focused index (0 when none), `::`, and the panes' parts joined
/// by `||`.
pub open spec fn shell_signature(
    focused: Option<usize>,
    shells: Seq<(TerminalSurfaceState, TerminalHandleState)>,
) -> Seq<char> {
    decimal(
        match focused {
            Some(f) => f as nat,
            None => 0,
        },
    ) + "::"@ + joined(
        shells.map_values(|p: (TerminalSurfaceState, TerminalHandleState)| shell_part(p.0, p.1)),
        "||"@,
    )
}

/// One pane's part of the signature.
fn shell_part_chars(s: &TerminalSurfaceState, h: TerminalHandleState) -> (r: Vec<char>)
    ensures
        r@ == shell_part(*s, h),
{
    let mut r = chars_of(s.title.as_str());
    let bar = chars_of("|");
    append_chars(&mut r, bar.as_slice());
    match &s.status_badge {
        Some(b) => {
            let bc = chars_of(b.as_str());
            append_chars(&mut r, bc.as_slice());
        },
        None => {},
    }
    append_chars(&mut r, bar.as_slice());
    append_chars(&mut r, bool_chars(h.live).as_slice());
    append_chars(&mut r, bar.as_slice());
    append_chars(&mut r, bool_chars(h.pending_spawn).as_slice());
    append_chars(&mut r, bar.as_slice());
    append_chars(&mut r, bool_chars(h.has_error).as_slice());
    assert(r@ =~= shell_part(*s, h));
    r
}

/// The signature of the local shells (see `shell_signature`).
pub fn local_shell_signature(
    focused: Option<usize>,
    shells: &[(TerminalSurfaceState, TerminalHandleState)],
) -> (r: String)
    ensures
        r@ == shell_signature(focused, shells@),
{
    let ghost part = |p: (TerminalSurfaceState, TerminalHandleState)| shell_part(p.0, p.1);
    let ghost vw = |w: Vec<char>| w@;
    let mut parts: Vec<Vec<char>> = Vec::new();
    let mut i: usize = 0;
    while i < shells.len()
        invariant
            i <= shells@.len(),
            part == (|p: (TerminalSurfaceState, TerminalHandleState)| shell_part(p.0, p.1)),
            vw == (|w: Vec<char>| w@),
            parts@.map_values(vw) == shells@.subrange(0, i as int).map_values(part),
        decreases shells@.len() - i,
    {
        let v = shell_part_chars(&shells[i].0, shells[i].1);
        let ghost before = parts@;
        assert(v@ == part(shells@[i as int]));
        parts.push(v);
        assert(parts@ == before.push(v));
        assert(shells@.subrange(0, i + 1) =~= shells@.subrange(0, i as int).push(shells@[i as int]));
        assert(parts@.map_values(vw) =~= before.map_values(vw).push(v@));
        assert(shells@.subrange(0, i + 1).map_values(part) =~= shells@.subrange(0, i as int).map_values(part).push(
            part(shells@[i as int]),
        ));
        i += 1;
    }
    assert(shells@.subrange(0, shells@.len() as int) =~= shells@);
    assert(parts@.map_values(|w: Vec<char>| w@) =~= parts@.map_values(vw));
    let f: usize = match focused {
        Some(f) => f,
        None => 0,
    };
    let mut r = decimal_chars(f as u64);
    let sep = chars_of("::");
    append_chars(&mut r, sep.as_slice());
    let bars = chars_of("||");
    let body = join_chars(&parts, bars.as_slice());
    append_chars(&mut r, body.as_slice());
    string_of(r.as_slice())
}

/// The positions, in order, of the first `n` panes that show a badge.
pub open spec fn badged_upto(s: Seq<TerminalSurfaceState>, n: int) -> Seq<int>
    decreases n,
{
    if n <= 0 {
        Seq::empty()
    } else if s[n - 1].status_badge is Some {
        badged_upto(s, n - 1).push(n - 1)
    } else {
        badged_upto(s, n - 1)
    }
}

/// The positions of the panes that show a badge.
pub open spec fn badged(s: Seq<TerminalSurfaceState>) -> Seq<int> {
    badged_upto(s, s.len() as int)
}

/// Whether summary `i` is the first of `ws` named `w`.
pub open spec fn first_named_at(ws: Seq<WorkspaceSummary>, w: Seq<char>, i: int) -> bool {
    &&& 0 <= i < ws.len()
    &&& ws[i].name@ == w
    &&& forall|j: int| 0 <= j < i ==> (#[trigger] ws[j]).name@ != w
}

/// The pane the shell's detail line reads: the focused one (the first where none is), or the
/// last where the index is past the end.
pub open spec fn shown_index(focused: Option<usize>, len: nat) -> int {
    let f: int = match focused {
        Some(f) => f as int,
        None => 0,
    };
    if f < len - 1 {
        f
    } else {
        len - 1
    }
}

/// Where the local shells stand: the shown pane's title, or, where it has none, the working
/// directory (`~` where that is unknown).
pub open spec fn shell_location(s: Seq<TerminalSurfaceState>, focused: Option<usize>, cwd: Option<Seq<char>>) -> Seq<char> {
    let t = s[shown_index(focused, s.len())].title@;
    if t.len() == 0 {
        match cwd {
            Some(c) => c,
            None => "~"@,
        }
    } else {
        t
    }
}

/// `1 SHELL`, or `n SHELLS`.
pub open spec fn shell_count_text(n: nat) -> Seq<char> {
    if n == 1 {
        "1 SHELL"@
    } else {
        decimal(n) + " SHELLS"@
    }
}

/// The detail line the local shells give their workspace.
pub open spec fn local_detail(s: Seq<TerminalSurfaceState>, focused: Option<usize>, cwd: Option<Seq<char>>) -> Seq<char> {
    shell_location(s, focused, cwd) + " • "@ + shell_count_text(s.len())
}

/// `s` with each space replaced by a dash.
pub open spec fn spaces_to_dashes(s: Seq<char>) -> Seq<char> {
    s.map_values(|c: char| if c == ' ' { '-' } else { c })
}

/// The id of the notification that pane `index` of workspace `w` raises for badge `badge`.
pub open spec fn local_shell_id(w: Seq<char>, index: nat, badge: Seq<char>) -> Seq<char> {
    "local-shell-"@ + w + "-"@ + decimal(index) + "-"@ + spaces_to_dashes(unicode_lower(badge))
}

/// Whether a notification is not one of the local shell notifications of workspace `w`.
pub open spec fn not_local_shell(w: Seq<char>) -> spec_fn(NotificationRecord) -> bool {
    |n: NotificationRecord| !(n.workspace@ == w && n.kind@ == "shell"@)
}

/// Whether `r` is the notification that pane `index`, showing `s`, raises in workspace `w` at
/// `now`: a sticky unread `shell` notification titled with the badge, with the pane's title as
/// its body.
pub open spec fn is_local_record(
    r: NotificationRecord,
    w: Seq<char>,
    index: int,
    s: TerminalSurfaceState,
    now: Timestamp,
) -> bool {
    &&& s.status_badge is Some
    &&& r.notification_id@ == local_shell_id(w, index as nat, s.status_badge->0@)
    &&& r.workspace@ == w
    &&& r.window_id is None
    &&& r.tab_id is None
    &&& r.pane_id is None
    &&& r.kind@ == "shell"@
    &&& r.title@ == s.status_badge->0@
    &&& opt_seq(r.body) == Some(s.title@)
    &&& r.unread
    &&& r.unread_mode == NotificationUnreadMode::Sticky
    &&& r.created_at == now
    &&& r.updated_at == now
}

/// Whether `new` is snapshot `old` with the local shells `s` shown in it at `now`. With no
/// shells nothing changes. Otherwise the first summary of the active workspace gets the shells'
/// detail line and count, and at least as many failures as panes showing a badge; where some
/// pane shows one, the workspace's earlier shell notifications give way to one per badged pane
/// (in pane order), and its unread count is counted again.
pub open spec fn augmented(
    old: RuntimeSnapshot,
    new: RuntimeSnapshot,
    s: Seq<TerminalSurfaceState>,
    focused: Option<usize>,
    cwd: Option<Seq<char>>,
    now: Timestamp,
) -> bool {
    if s.len() == 0 {
        new == old
    } else {
        let w = old.active_workspace@;
        let b = badged(s);
        let kept = old.notifications@.filter(not_local_shell(w));
        &&& new.active_workspace == old.active_workspace
        &&& new.task_panes == old.task_panes
        &&& new.statuses == old.statuses
        &&& new.progresses == old.progresses
        &&& new.logs == old.logs
        &&& new.workspaces@.len() == old.workspaces@.len()
        &&& forall|i: int|
            0 <= i < old.workspaces@.len() && !first_named_at(old.workspaces@, w, i)
                ==> #[trigger] new.workspaces@[i] == old.workspaces@[i]
        &&& forall|i: int|
            #![trigger new.workspaces@[i]]
            first_named_at(old.workspaces@, w, i) ==> {
                let o = old.workspaces@[i];
                let n = new.workspaces@[i];
                &&& n.name == o.name
                &&& n.status == o.status
                &&& n.progress == o.progress
                &&& n.log_count == o.log_count
                &&& opt_seq(n.detail) == Some(local_detail(s, focused, cwd))
                &&& n.running_count == s.len()
                &&& n.failed_count == if b.len() > o.failed_count {
                    b.len()
                } else {
                    o.failed_count as nat
                }
                &&& n.unread_count == if b.len() == 0 {
                    o.unread_count as nat
                } else {
                    unread_of(new.notifications@, w)
                }
            }
        &&& b.len() == 0 ==> new.notifications == old.notifications
        &&& b.len() > 0 ==> {
            &&& new.notifications@.len() == kept.len() + b.len()
            &&& new.notifications@.subrange(0, kept.len() as int) == kept
            &&& forall|k: int|
                0 <= k < b.len() ==> is_local_record(
                    #[trigger] new.notifications@[kept.len() + k],
                    w,
                    b[k],
                    s[b[k]],
                    now,
                )
        }
    }
}

/// `s` with each space replaced by a dash.
fn spaces_as_dashes(s: &[char]) -> (r: Vec<char>)
    ensures
        r@ == spaces_to_dashes(s@),
{
    let mut r: Vec<char> = Vec::new();
    let mut i: usize = 0;
    while i < s.len()
        invariant
            i <= s@.len(),
            r@ == spaces_to_dashes(s@.subrange(0, i as int)),
        decreases s@.len() - i,
    {
        let c = s[i];
        r.push(if c == ' ' { '-' } else { c });
        i += 1;
        assert(r@ =~= spaces_to_dashes(s@.subrange(0, i as int)));
    }
    assert(s@.subrange(0, s@.len() as int) =~= s@);
    r
}

/// The notification that pane `index`, showing `s` with a badge, raises in workspace `w` at
/// `now`.
fn local_record(w: &str, index: usize, s: &TerminalSurfaceState, now: Timestamp) -> (r: NotificationRecord)
    requires
        s.status_badge is Some,
    ensures
        is_local_record(r, w@, index as int, *s, now),
{
    let badge = match &s.status_badge {
        Some(b) => b,
        None => vstd::pervasive::unreached(),
    };
    let mut id = chars_of("local-shell-");
    append_chars(&mut id, chars_of(w).as_slice());
    let dash = chars_of("-");
    append_chars(&mut id, dash.as_slice());
    append_chars(&mut id, decimal_chars(index as u64).as_slice());
    append_chars(&mut id, dash.as_slice());
    let lower = lower_case(badge.as_str());
    append_chars(&mut id, spaces_as_dashes(chars_of(lower.as_str()).as_slice()).as_slice());
    assert(id@ =~= local_shell_id(w@, index as nat, badge@));
    NotificationRecord {
        notification_id: string_of(id.as_slice()),
        workspace: owned(w),
        window_id: None,
        tab_id: None,
        pane_id: None,
        kind: owned("shell"),
        title: badge.clone(),
        body: Some(s.title.clone()),
        unread: true,
        unread_mode: NotificationUnreadMode::Sticky,
        created_at: now,
        updated_at: now,
    }
}

/// The notifications that the panes `s` showing a badge raise in workspace `w` at `now`, in
/// pane order.
fn local_records(s: &[TerminalSurfaceState], w: &str, now: Timestamp) -> (r: Vec<NotificationRecord>)
    ensures
        r@.len() == badged(s@).len(),
        forall|k: int|
            0 <= k < r@.len() ==> is_local_record(
                #[trigger] r@[k],
                w@,
                badged(s@)[k],
                s@[badged(s@)[k]],
                now,
            ),
{
    let mut r: Vec<NotificationRecord> = Vec::new();
    let mut i: usize = 0;
    while i < s.len()
        invariant
            i <= s@.len(),
            r@.len() == badged_upto(s@, i as int).len(),
            forall|k: int|
                0 <= k < r@.len() ==> is_local_record(
                    #[trigger] r@[k],
                    w@,
                    badged_upto(s@, i as int)[k],
                    s@[badged_upto(s@, i as int)[k]],
                    now,
                ),
        decreases s@.len() - i,
    {
        let ghost before = r@;
        let ghost b0 = badged_upto(s@, i as int);
        if s[i].status_badge.is_some() {
            let rec = local_record(w, i, &s[i], now);
            r.push(rec);
            assert(badged_upto(s@, i + 1) == b0.push(i as int));
            assert forall|k: int| 0 <= k < r@.len() implies is_local_record(
                #[trigger] r@[k],
                w@,
                badged_upto(s@, i + 1)[k],
                s@[badged_upto(s@, i + 1)[k]],
                now,
            ) by {
                if k < before.len() {
                    assert(r@[k] == before[k]);
                }
            }
        } else {
            assert(badged_upto(s@, i + 1) == b0);
        }
        i += 1;
    }
    r
}

/// The position of the first summary of `ws` named `w`, if any.
fn first_named(ws: &Vec<WorkspaceSummary>, w: &str) -> (r: Option<usize>)
    ensures
        r matches Some(i) ==> first_named_at(ws@, w@, i as int),
        r is None ==> forall|i: int| 0 <= i < ws@.len() ==> (#[trigger] ws@[i]).name@ != w@,
{
    let mut i: usize = 0;
    while i < ws.len()
        invariant
            i <= ws@.len(),
            forall|j: int| 0 <= j < i ==> (#[trigger] ws@[j]).name@ != w@,
        decreases ws@.len() - i,
    {
        if str_eq(ws[i].name.as_str(), w) {
            return Some(i);
        }
        i += 1;
    }
    None
}

/// The notifications of `ns` that are not local shell notifications of workspace `w`.
fn kept_notifications(ns: &Vec<NotificationRecord>, w: &str) -> (r: Vec<NotificationRecord>)
    ensures
        r@ == ns@.filter(not_local_shell(w@)),
{
    let ghost p = not_local_shell(w@);
    let mut r: Vec<NotificationRecord> = Vec::new();
    let mut i: usize = 0;
    while i < ns.len()
        invariant
            i <= ns@.len(),
            p == not_local_shell(w@),
            r@ == ns@.subrange(0, i as int).filter(p),
        decreases ns@.len() - i,
    {
        let ghost pre = ns@.subrange(0, i as int);
        assert(ns@.subrange(0, i + 1) =~= pre.push(ns@[i as int]));
        proof {
            crate::seq_facts::lemma_filter_push(pre, p, ns@[i as int]);
        }
        if !(str_eq(ns[i].workspace.as_str(), w) && str_eq(ns[i].kind.as_str(), "shell")) {
            r.push(ns[i].clone());
        }
        i += 1;
    }
    assert(ns@.subrange(0, ns@.len() as int) =~= ns@);
    r
}

/// The detail line the local shells `s` give their workspace (see `local_detail`).
fn local_detail_text(s: &[TerminalSurfaceState], focused: Option<usize>, cwd: &Option<String>) -> (r: String)
    requires
        s@.len() > 0,
    ensures
        r@ == local_detail(s@, focused, opt_seq(*cwd)),
{
    let n = s.len();
    let f: usize = match focused {
        Some(f) => f,
        None => 0,
    };
    let shown = if f < n - 1 {
        f
    } else {
        n - 1
    };
    let mut text = if s[shown].title.unicode_len() == 0 {
        match cwd {
            Some(c) => chars_of(c.as_str()),
            None => chars_of("~"),
        }
    } else {
        chars_of(s[shown].title.as_str())
    };
    append_chars(&mut text, chars_of(" • ").as_slice());
    if n == 1 {
        append_chars(&mut text, chars_of("1 SHELL").as_slice());
    } else {
        append_chars(&mut text, decimal_chars(n as u64).as_slice());
        append_chars(&mut text, chars_of(" SHELLS").as_slice());
    }
    assert(text@ =~= local_detail(s@, focused, opt_seq(*cwd)));
    string_of(text.as_slice())
}

/// Shows the local shells `s` in `snapshot` at `now` (see `augmented`): `focused` is the
/// focused pane, and `cwd` the working directory that stands in for a pane without a title.
pub fn augment_snapshot_at(
    snapshot: &mut RuntimeSnapshot,
    s: &[TerminalSurfaceState],
    focused: Option<usize>,
    cwd: Option<String>,
    now: Timestamp,
)
    ensures
        augmented(*old(snapshot), *final(snapshot), s@, focused, opt_seq(cwd), now),
{
    if s.len() == 0 {
        return;
    }
    let ghost old_snapshot = *snapshot;
    let w = snapshot.active_workspace.clone();
    let locals = local_records(s, w.as_str(), now);
    let badge_count = locals.len();
    let k_opt = first_named(&snapshot.workspaces, w.as_str());
    if let Some(k) = k_opt {
        let detail = local_detail_text(s, focused, &cwd);
        let mut summary = snapshot.workspaces.remove(k);
        summary.detail = Some(detail);
        summary.running_count = s.len();
        if badge_count > summary.failed_count {
            summary.failed_count = badge_count;
        }
        snapshot.workspaces.insert(k, summary);
        assert(snapshot.workspaces@ =~= old_snapshot.workspaces@.update(k as int, summary));
    }
    let ghost mid = snapshot.workspaces@;
    if badge_count > 0 {
        let mut all = kept_notifications(&snapshot.notifications, w.as_str());
        let ghost kept = all@;
        let mut extra = locals;
        let ghost extra_view = extra@;
        all.append(&mut extra);
        assert(all@.subrange(0, kept.len() as int) =~= kept);
        assert forall|k: int| 0 <= k < extra_view.len() implies all@[kept.len() + k] == extra_view[k] by {}
        snapshot.notifications = all;
        if let Some(k) = k_opt {
            let unread = count_unread(snapshot.notifications.as_slice(), w.as_str());
            let mut summary = snapshot.workspaces.remove(k);
            summary.unread_count = unread;
            snapshot.workspaces.insert(k, summary);
            assert(snapshot.workspaces@ =~= mid.update(k as int, summary));
        }
    }
}

/// Shows the local shells `s` in `snapshot` (see `augment_snapshot_at`), stamping their
/// notifications with the current time.
pub fn augment_snapshot_with_local_shell_state(
    snapshot: &mut RuntimeSnapshot,
    s: &[TerminalSurfaceState],
    focused: Option<usize>,
    cwd: Option<String>,
)
    ensures
        exists|now: Timestamp| augmented(*old(snapshot), *final(snapshot), s@, focused, opt_seq(cwd), now),
{
    let now = crate::time::utc_now();
    augment_snapshot_at(snapshot, s, focused, cwd, now);
}

/// What a smoke run of the shell found: whether the runtime came up, the terminals at the end
/// and how they stand, the most terminals open at once, each check's outcome, and the step the
/// run ended at.
#[derive(Debug, PartialEq, Eq)]
pub struct SmokeHarnessReport {
    pub startup_online: bool,
    pub terminal_count: usize,
    pub live_terminals: usize,
    pub pending_terminals: usize,
    pub errored_terminals: usize,
    pub peak_terminal_count: usize,
    pub text_injection_ok: bool,
    pub text_rendered_ok: bool,
    pub focus_cycle_ok: bool,
    pub close_ok: bool,
    pub reset_ok: bool,
    pub final_step: &'static str,
}

/// How many terminals are live, being spawned, and failed to spawn.
pub open spec fn terminal_counts(states: Seq<TerminalHandleState>) -> (nat, nat, nat) {
    (
        states.filter(|h: TerminalHandleState| h.live).len(),
        states.filter(|h: TerminalHandleState| h.pending_spawn).len(),
        states.filter(|h: TerminalHandleState| h.has_error).len(),
    )
}

/// How many of `states` are live, being spawned, and failed to spawn.
pub fn count_terminal_states(states: &[TerminalHandleState]) -> (r: (usize, usize, usize))
    ensures
        (r.0 as nat, r.1 as nat, r.2 as nat) == terminal_counts(states@),
{
    let ghost fl = |h: TerminalHandleState| h.live;
    let ghost fp = |h: TerminalHandleState| h.pending_spawn;
    let ghost fe = |h: TerminalHandleState| h.has_error;
    let mut live: usize = 0;
    let mut pending: usize = 0;
    let mut errored: usize = 0;
    let mut i: usize = 0;
    while i < states.len()
        invariant
            i <= states@.len(),
            fl == (|h: TerminalHandleState| h.live),
            fp == (|h: TerminalHandleState| h.pending_spawn),
            fe == (|h: TerminalHandleState| h.has_error),
            live == states@.subrange(0, i as int).filter(fl).len(),
            pending == states@.subrange(0, i as int).filter(fp).len(),
            errored == states@.subrange(0, i as int).filter(fe).len(),
            live <= i,
            pending <= i,
            errored <= i,
        decreases states@.len() - i,
    {
        let ghost pre = states@.subrange(0, i as int);
        assert(states@.subrange(0, i + 1) =~= pre.push(states@[i as int]));
        proof {
            crate::seq_facts::lemma_filter_push(pre, fl, states@[i as int]);
            crate::seq_facts::lemma_filter_push(pre, fp, states@[i as int]);
            crate::seq_facts::lemma_filter_push(pre, fe, states@[i as int]);
        }
        if states[i].live {
            live += 1;
        }
        if states[i].pending_spawn {
            pending += 1;
        }
        if states[i].has_error {
            errored += 1;
        }
        i += 1;
    }
    assert(states@.subrange(0, states@.len() as int) =~= states@);
    (live, pending, errored)
}

/// Whether stepping focus forward and back worked: some terminal was focused, the step forward
/// moved the focus, and the step back returned it.
pub fn focus_cycle_ok(before: Option<usize>, after_next: Option<usize>, after_previous: Option<usize>) -> (r: bool)
    ensures
        r == (before is Some && after_next != before && after_previous == before),
{
    before.is_some() && !opt_index_eq(after_next, before) && opt_index_eq(after_previous, before)
}

/// Whether two optional indices are the same.
fn opt_index_eq(a: Option<usize>, b: Option<usize>) -> (r: bool)
    ensures
        r == (a == b),
{
    match (a, b) {
        (Some(x), Some(y)) => x == y,
        (None, None) => true,
        _ => false,
    }
}

/// Whether closing the focused terminal worked: there was more than one, and one fewer is left.
pub fn close_ok(before_len: usize, after_len: usize) -> (r: bool)
    ensures
        r == (before_len > 1 && after_len + 1 == before_len),
{
    before_len > 1 && after_len == before_len - 1
}

/// Whether resetting the shell worked: one terminal is left, live or being spawned.
pub fn reset_ok(states: &[TerminalHandleState]) -> (r: bool)
    ensures
        r == (states@.len() == 1 && (states@[0].live || states@[0].pending_spawn)),
{
    states.len() == 1 && (states[0].live || states[0].pending_spawn)
}

/// The line a smoke report is printed as.
pub open spec fn smoke_line(r: SmokeHarnessReport) -> Seq<char> {
    "KAKU_NATIVE_SHELL_SMOKE startup_online="@ + bool_text(r.startup_online) + " terminal_count="@ + decimal(
        r.terminal_count as nat,
    ) + " live_terminals="@ + decimal(r.live_terminals as nat) + " pending_terminals="@ + decimal(
        r.pending_terminals as nat,
    ) + " errored_terminals="@ + decimal(r.errored_terminals as nat) + " peak_terminal_count="@ + decimal(
        r.peak_terminal_count as nat,
    ) + " text_injection_ok="@ + bool_text(r.text_injection_ok) + " text_rendered_ok="@ + bool_text(
        r.text_rendered_ok,
    ) + " focus_cycle_ok="@ + bool_text(r.focus_cycle_ok) + " close_ok="@ + bool_text(r.close_ok)
        + " reset_ok="@ + bool_text(r.reset_ok) + " final_step="@ + r.final_step@
}

impl SmokeHarnessReport {
    /// The line the report is printed as (see `smoke_line`).
    pub fn line(&self) -> (r: String)
        ensures
            r@ == smoke_line(*self),
    {
        let mut v = chars_of("KAKU_NATIVE_SHELL_SMOKE startup_online=");
        append_chars(&mut v, bool_chars(self.startup_online).as_slice());
        append_chars(&mut v, chars_of(" terminal_count=").as_slice());
        append_chars(&mut v, decimal_chars(self.terminal_count as u64).as_slice());
        append_chars(&mut v, chars_of(" live_terminals=").as_slice());
        append_chars(&mut v, decimal_chars(self.live_terminals as u64).as_slice());
        append_chars(&mut v, chars_of(" pending_terminals=").as_slice());
        append_chars(&mut v, decimal_chars(self.pending_terminals as u64).as_slice());
        append_chars(&mut v, chars_of(" errored_terminals=").as_slice());
        append_chars(&mut v, decimal_chars(self.errored_terminals as u64).as_slice());
        append_chars(&mut v, chars_of(" peak_terminal_count=").as_slice());
        append_chars(&mut v, decimal_chars(self.peak_terminal_count as u64).as_slice());
        append_chars(&mut v, chars_of(" text_injection_ok=").as_slice());
        append_chars(&mut v, bool_chars(self.text_injection_ok).as_slice());
        append_chars(&mut v, chars_of(" text_rendered_ok=").as_slice());
        append_chars(&mut v, bool_chars(self.text_rendered_ok).as_slice());
        append_chars(&mut v, chars_of(" focus_cycle_ok=").as_slice());
        append_chars(&mut v, bool_chars(self.focus_cycle_ok).as_slice());
        append_chars(&mut v, chars_of(" close_ok=").as_slice());
        append_chars(&mut v, bool_chars(self.close_ok).as_slice());
        append_chars(&mut v, chars_of(" reset_ok=").as_slice());
        append_chars(&mut v, bool_chars(self.reset_ok).as_slice());
        append_chars(&mut v, chars_of(" final_step=").as_slice());
        append_chars(&mut v, chars_of(self.final_step).as_slice());
        assert(v@ =~= smoke_line(*self));
        string_of(v.as_slice())
    }
}

/// The snapshot the shell shows while the runtime is offline: the selected workspace (or
/// `workspace`) alone, with nothing counted and no records.
pub fn local_shell_only_snapshot(selected: &Option<String>) -> (r: RuntimeSnapshot)
    ensures
        r.active_workspace@ == match opt_text(*selected) {
            Some(w) => w,
            None => "workspace"@,
        },
        r.workspaces@.len() == 1,
        r.workspaces@[0].name@ == r.active_workspace@,
        r.workspaces@[0].detail is None,
        r.workspaces@[0].unread_count == 0,
        r.workspaces@[0].running_count == 0,
        r.workspaces@[0].failed_count == 0,
        r.workspaces@[0].status is None,
        r.workspaces@[0].progress is None,
        r.workspaces@[0].log_count == 0,
        r.notifications@.len() == 0,
        r.task_panes@.len() == 0,
        r.statuses@.len() == 0,
        r.progresses@.len() == 0,
        r.logs@.len() == 0,
{
    let name = selected_workspace_name(selected);
    let summary = WorkspaceSummary {
        name: name.clone(),
        detail: None,
        unread_count: 0,
        running_count: 0,
        failed_count: 0,
        status: None,
        progress: None,
        log_count: 0,
    };
    let mut workspaces: Vec<WorkspaceSummary> = Vec::new();
    workspaces.push(summary);
    RuntimeSnapshot {
        active_workspace: name,
        workspaces,
        notifications: Vec::new(),
        task_panes: Vec::new(),
        statuses: Vec::new(),
        progresses: Vec::new(),
        logs: Vec::new(),
    }
}

/// What the shell does with the refresh requests gathered since the last flush: nothing while
/// the runtime is offline or where none was gathered (`None`); otherwise it re-reads its
/// snapshot, first taking the multiplexer's active workspace as the selected one exactly where
/// the workspace list changed (`Some(true)`).
pub fn refresh_after(online: bool, scopes: &[SnapshotRefreshScope]) -> (r: Option<bool>)
    ensures
        (r is None) == (!online || scopes@.len() == 0),
        r matches Some(reselect) ==> reselect == scopes@.contains(SnapshotRefreshScope::WorkspaceList),
{
    if !online || scopes.len() == 0 {
        return None;
    }
    let mut i: usize = 0;
    while i < scopes.len()
        invariant
            online,
            scopes@.len() > 0,
            i <= scopes@.len(),
            forall|j: int| 0 <= j < i ==> scopes@[j] != SnapshotRefreshScope::WorkspaceList,
        decreases scopes@.len() - i,
    {
        if scopes[i] == SnapshotRefreshScope::WorkspaceList {
            assert(scopes@[i as int] == SnapshotRefreshScope::WorkspaceList);
            return Some(true);
        }
        i += 1;
    }
    Some(false)
}

/// What a keyboard shortcut of the shell's window asks for.
#[derive(Clone, Copy, Debug, PartialEq, Eq, Structural)]
pub enum ShellShortcut {
    /// A new terminal pane.
    NewTerminal,
    /// Split side by side.
    SplitRight,
    /// Split stacked.
    SplitDown,
    /// Switch the split's direction.
    ToggleSplitDirection,
    /// Zoom the focused pane, or unzoom.
    ToggleZoom,
    /// Focus the next pane.
    FocusNext,
    /// Focus the previous pane.
    FocusPrevious,
    /// Close the focused pane.
    CloseTerminal,
    /// Show or hide the rail.
    ToggleRail,
    /// Show or hide the activity pane.
    ToggleActivity,
    /// Launch lazygit.
    LaunchLazygit,
    /// Launch yazi.
    LaunchYazi,
    /// Open the configuration (`kaku config`).
    OpenConfig,
    /// Show or hide the tasks pane.
    ToggleTasks,
    /// Show or hide the metadata pane.
    ToggleMetadata,
    /// Clear the selected workspace's status.
    ClearStatus,
    /// Set the selected workspace's progress.
    SetProgress,
    /// Append to the selected workspace's log.
    AppendLog,
    /// Run `kaku doctor`.
    RunDoctor,
    /// Reset the shell's layout.
    ResetShell,
}

/// The shortcut that key `key` (`\r` for Return) makes with the command key (Meta, Super or
/// Control) held where `command`, and Shift held where `shifted`: none without the command key;
/// letters match in either case; `]`, `[`, `,` and Return match as they are.
pub open spec fn shortcut_of(key: char, shifted: bool, command: bool) -> Option<ShellShortcut> {
    if !command {
        None
    } else {
        let k = lower_char(key);
        if k == 't' && !shifted {
            Some(ShellShortcut::NewTerminal)
        } else if k == 'd' && !shifted {
            Some(ShellShortcut::SplitRight)
        } else if k == 'd' && shifted {
            Some(ShellShortcut::SplitDown)
        } else if k == 's' && shifted {
            Some(ShellShortcut::ToggleSplitDirection)
        } else if k == '\r' && shifted {
            Some(ShellShortcut::ToggleZoom)
        } else if k == ']' && !shifted {
            Some(ShellShortcut::FocusNext)
        } else if k == '[' && !shifted {
            Some(ShellShortcut::FocusPrevious)
        } else if k == 'w' && !shifted {
            Some(ShellShortcut::CloseTerminal)
        } else if k == 'b' && !shifted {
            Some(ShellShortcut::ToggleRail)
        } else if k == 'a' && shifted {
            Some(ShellShortcut::ToggleActivity)
        } else if k == 'g' && shifted {
            Some(ShellShortcut::LaunchLazygit)
        } else if k == 'y' && shifted {
            Some(ShellShortcut::LaunchYazi)
        } else if k == ',' && !shifted {
            Some(ShellShortcut::OpenConfig)
        } else if k == 't' && shifted {
            Some(ShellShortcut::ToggleTasks)
        } else if k == 'm' && shifted {
            Some(ShellShortcut::ToggleMetadata)
        } else if k == 'x' && shifted {
            Some(ShellShortcut::ClearStatus)
        } else if k == 'p' && shifted {
            Some(ShellShortcut::SetProgress)
        } else if k == 'l' && shifted {
            Some(ShellShortcut::AppendLog)
        } else if k == 'o' && shifted {
            Some(ShellShortcut::RunDoctor)
        } else if k == 'r' && shifted {
            Some(ShellShortcut::ResetShell)
        } else {
            None
        }
    }
}

/// The shortcut a key press makes (see `shortcut_of`).
pub fn shortcut_command(key: char, shifted: bool, command: bool) -> (r: Option<ShellShortcut>)
    ensures
        r == shortcut_of(key, shifted, command),
{
    if !command {
        return None;
    }
    let k = to_lower_char(key);
    if k == 't' && !shifted {
        Some(ShellShortcut::NewTerminal)
    } else if k == 'd' && !shifted {
        Some(ShellShortcut::SplitRight)
    } else if k == 'd' && shifted {
        Some(ShellShortcut::SplitDown)
    } else if k == 's' && shifted {
        Some(ShellShortcut::ToggleSplitDirection)
    } else if k == '\r' && shifted {
        Some(ShellShortcut::ToggleZoom)
    } else if k == ']' && !shifted {
        Some(ShellShortcut::FocusNext)
    } else if k == '[' && !shifted {
        Some(ShellShortcut::FocusPrevious)
    } else if k == 'w' && !shifted {
        Some(ShellShortcut::CloseTerminal)
    } else if k == 'b' && !shifted {
        Some(ShellShortcut::ToggleRail)
    } else if k == 'a' && shifted {
        Some(ShellShortcut::ToggleActivity)
    } else if k == 'g' && shifted {
        Some(ShellShortcut::LaunchLazygit)
    } else if k == 'y' && shifted {
        Some(ShellShortcut::LaunchYazi)
    } else if k == ',' && !shifted {
        Some(ShellShortcut::OpenConfig)
    } else if k == 't' && shifted {
        Some(ShellShortcut::ToggleTasks)
    } else if k == 'm' && shifted {
        Some(ShellShortcut::ToggleMetadata)
    } else if k == 'x' && shifted {
        Some(ShellShortcut::ClearStatus)
    } else if k == 'p' && shifted {
        Some(ShellShortcut::SetProgress)
    } else if k == 'l' && shifted {
        Some(ShellShortcut::AppendLog)
    } else if k == 'o' && shifted {
        Some(ShellShortcut::RunDoctor)
    } else if k == 'r' && shifted {
        Some(ShellShortcut::ResetShell)
    } else {
        None
    }
}

} // verus!
