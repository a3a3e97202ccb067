//! The operator actions of the native shell: what each one asks of the multiplexer for the
//! workspace in view, and how the status, progress and log line it sets are chosen.

use crate::text::{append_chars, chars_of, copy_strings, decimal, decimal_chars, str_eq, string_of, views};
use crate::time::{utc_now, Timestamp};
use vstd::prelude::*;

verus! {

/// An action offered by the native shell.
#[derive(Clone, Copy, Debug, PartialEq, Eq, Structural)]
pub enum ShellAction {
    Refresh,
    LaunchTerminal,
    SetStatus,
    ClearStatus,
    SetProgress,
    ClearProgress,
    AppendLog,
    MarkVisibleRead,
}

/// The actions, in the order the shell offers them.
pub open spec fn operator_action_order() -> Seq<ShellAction> {
    seq![
        ShellAction::Refresh,
        ShellAction::LaunchTerminal,
        ShellAction::SetStatus,
        ShellAction::ClearStatus,
        ShellAction::SetProgress,
        ShellAction::ClearProgress,
        ShellAction::AppendLog,
        ShellAction::MarkVisibleRead,
    ]
}

/// Whether an action changed the multiplexer's state.
#[derive(Clone, Copy, Debug, PartialEq, Eq, Structural)]
pub enum ShellActionOutcome {
    NoMutation,
    Mutated,
}

/// What the shell knows when an action runs.
#[derive(Debug, PartialEq, Eq)]
pub struct ShellActionContext {
    pub workspace: String,
    pub current_status: Option<String>,
    pub current_progress: Option<u8>,
    pub visible_notification_ids: Vec<String>,
    pub unix_timestamp_secs: u64,
}

/// The status the shell moves a workspace to: Planning, then Building, Reviewing, Blocked, and
/// Planning again from any other status.
pub open spec fn status_after(current: Option<Seq<char>>) -> Seq<char> {
    match current {
        Some(s) => if s == "Planning"@ {
            "Building"@
        } else if s == "Building"@ {
            "Reviewing"@
        } else if s == "Reviewing"@ {
            "Blocked"@
        } else {
            "Planning"@
        },
        None => "Planning"@,
    }
}

/// The progress the shell moves a workspace to (from 0 where it has none): 35 below 25, 70
/// below 65, 100 below 100, and 15 from 100.
pub open spec fn progress_after(current: Option<u8>) -> u8 {
    let v = match current {
        Some(v) => v,
        None => 0,
    };
    if v <= 24 {
        35
    } else if v <= 64 {
        70
    } else if v <= 99 {
        100
    } else {
        15
    }
}

/// The text of an optional string.
pub open spec fn opt_chars(o: Option<String>) -> Option<Seq<char>> {
    match o {
        Some(s) => Some(s@),
        None => None,
    }
}

/// The whole seconds since the epoch of clock reading `t` (0 for one before the epoch).
pub open spec fn epoch_secs(t: Timestamp) -> u64 {
    if t.secs >= 0 {
        t.secs as u64
    } else {
        0
    }
}

impl ShellActionContext {
    /// The context of an action on `workspace` at clock reading `now`, stamped with its whole
    /// seconds since the epoch (0 for a reading before the epoch).
    pub fn at_clock_reading(
        workspace: String,
        current_status: Option<String>,
        current_progress: Option<u8>,
        visible_notification_ids: Vec<String>,
        now: Timestamp,
    ) -> (r: ShellActionContext)
        ensures
            r.workspace == workspace,
            r.current_status == current_status,
            r.current_progress == current_progress,
            r.visible_notification_ids == visible_notification_ids,
            r.unix_timestamp_secs == epoch_secs(now),
    {
        let unix_timestamp_secs: u64 = if now.secs >= 0 {
            now.secs as u64
        } else {
            0
        };
        ShellActionContext {
            workspace,
            current_status,
            current_progress,
            visible_notification_ids,
            unix_timestamp_secs,
        }
    }

    /// The context of an action on `workspace`, stamped with the current time in whole
    /// seconds since the epoch (see `at_clock_reading`); which time that is, the contract does
    /// not say.
    pub fn new(
        workspace: String,
        current_status: Option<String>,
        current_progress: Option<u8>,
        visible_notification_ids: Vec<String>,
    ) -> (r: ShellActionContext)
        ensures
            r.workspace == workspace,
            r.current_status == current_status,
            r.current_progress == current_progress,
            r.visible_notification_ids == visible_notification_ids,
            exists|now: Timestamp| r.unix_timestamp_secs == #[trigger] epoch_secs(now),
    {
        let now = utc_now();
        ShellActionContext::at_clock_reading(workspace, current_status, current_progress, visible_notification_ids, now)
    }

    /// The status to set next (see `status_after`).
    pub fn next_status(&self) -> (r: &'static str)
        ensures
            r@ == status_after(opt_chars(self.current_status)),
    {
        match &self.current_status {
            Some(s) => if str_eq(s.as_str(), "Planning") {
                "Building"
            } else if str_eq(s.as_str(), "Building") {
                "Reviewing"
            } else if str_eq(s.as_str(), "Reviewing") {
                "Blocked"
            } else {
                "Planning"
            },
            None => "Planning",
        }
    }

    /// The progress to set next (see `progress_after`).
    pub fn next_progress(&self) -> (r: u8)
        ensures
            r == progress_after(self.current_progress),
    {
        let v = match self.current_progress {
            Some(v) => v,
            None => 0,
        };
        if v <= 24 {
            35
        } else if v <= 64 {
            70
        } else if v <= 99 {
            100
        } else {
            15
        }
    }

    /// The log line to append: `native-shell check-in` and the context's time stamp.
    pub fn next_log_message(&self) -> (r: String)
        ensures
            r@ == "native-shell check-in "@ + decimal(self.unix_timestamp_secs as nat),
    {
        let mut v = chars_of("native-shell check-in ");
        let d = decimal_chars(self.unix_timestamp_secs);
        append_chars(&mut v, d.as_slice());
        string_of(v.as_slice())
    }
}

/// A change an action asks of the multiplexer, with what it is handed.
#[derive(Debug, PartialEq, Eq)]
pub enum ShellActionCall {
    SetStatus { workspace: String, status: String },
    ClearStatus { workspace: String },
    SetProgress { workspace: String, value: u8 },
    ClearProgress { workspace: String },
    AppendLog { workspace: String, message: String },
    MarkRead { notification_ids: Vec<String> },
}

/// Whether `call` is what action `a` asks of the multiplexer in context `ctx`: nothing for a
/// refresh or a terminal launch; for the status, progress and log actions, a change of the
/// context's workspace with the value the context chooses; for marking read, the visible
/// notifications, or nothing where none is visible.
pub open spec fn asks(a: ShellAction, ctx: ShellActionContext, call: Option<ShellActionCall>) -> bool {
    match a {
        ShellAction::Refresh => call is None,
        ShellAction::LaunchTerminal => call is None,
        ShellAction::SetStatus => {
            &&& call matches Some(ShellActionCall::SetStatus { workspace, status })
            &&& call->0->SetStatus_workspace@ == ctx.workspace@
            &&& call->0->SetStatus_status@ == status_after(opt_chars(ctx.current_status))
        },
        ShellAction::ClearStatus => {
            &&& call matches Some(ShellActionCall::ClearStatus { workspace })
            &&& call->0->ClearStatus_workspace@ == ctx.workspace@
        },
        ShellAction::SetProgress => {
            &&& call matches Some(ShellActionCall::SetProgress { workspace, value })
            &&& call->0->SetProgress_workspace@ == ctx.workspace@
            &&& call->0->SetProgress_value == progress_after(ctx.current_progress)
        },
        ShellAction::ClearProgress => {
            &&& call matches Some(ShellActionCall::ClearProgress { workspace })
            &&& call->0->ClearProgress_workspace@ == ctx.workspace@
        },
        ShellAction::AppendLog => {
            &&& call matches Some(ShellActionCall::AppendLog { workspace, message })
            &&& call->0->AppendLog_workspace@ == ctx.workspace@
            &&& call->0->AppendLog_message@ == "native-shell check-in "@ + decimal(ctx.unix_timestamp_secs as nat)
        },
        ShellAction::MarkVisibleRead => if ctx.visible_notification_ids@.len() == 0 {
            call is None
        } else {
            &&& call matches Some(ShellActionCall::MarkRead { notification_ids })
            &&& call->0->MarkRead_notification_ids@ == ctx.visible_notification_ids@
        },
    }
}

/// A change an action asks of the multiplexer, with its texts.
pub enum ShellActionCallView {
    SetStatus(Seq<char>, Seq<char>),
    ClearStatus(Seq<char>),
    SetProgress(Seq<char>, u8),
    ClearProgress(Seq<char>),
    AppendLog(Seq<char>, Seq<char>),
    MarkRead(Seq<Seq<char>>),
}

/// The texts of a change.
pub open spec fn call_view(c: ShellActionCall) -> ShellActionCallView {
    match c {
        ShellActionCall::SetStatus { workspace, status } => ShellActionCallView::SetStatus(workspace@, status@),
        ShellActionCall::ClearStatus { workspace } => ShellActionCallView::ClearStatus(workspace@),
        ShellActionCall::SetProgress { workspace, value } => ShellActionCallView::SetProgress(workspace@, value),
        ShellActionCall::ClearProgress { workspace } => ShellActionCallView::ClearProgress(workspace@),
        ShellActionCall::AppendLog { workspace, message } => ShellActionCallView::AppendLog(workspace@, message@),
        ShellActionCall::MarkRead { notification_ids } => ShellActionCallView::MarkRead(views(notification_ids@)),
    }
}

/// The texts of an optional change.
pub open spec fn opt_call_view(c: Option<ShellActionCall>) -> Option<ShellActionCallView> {
    match c {
        Some(c) => Some(call_view(c)),
        None => None,
    }
}

/// The change action `a` asks of the multiplexer in context `ctx` (see `asks`), as texts.
pub open spec fn call_asked(a: ShellAction, ctx: ShellActionContext) -> Option<ShellActionCallView> {
    match a {
        ShellAction::Refresh => None,
        ShellAction::LaunchTerminal => None,
        ShellAction::SetStatus => Some(
            ShellActionCallView::SetStatus(ctx.workspace@, status_after(opt_chars(ctx.current_status))),
        ),
        ShellAction::ClearStatus => Some(ShellActionCallView::ClearStatus(ctx.workspace@)),
        ShellAction::SetProgress => Some(
            ShellActionCallView::SetProgress(ctx.workspace@, progress_after(ctx.current_progress)),
        ),
        ShellAction::ClearProgress => Some(ShellActionCallView::ClearProgress(ctx.workspace@)),
        ShellAction::AppendLog => Some(
            ShellActionCallView::AppendLog(
                ctx.workspace@,
                "native-shell check-in "@ + decimal(ctx.unix_timestamp_secs as nat),
            ),
        ),
        ShellAction::MarkVisibleRead => if ctx.visible_notification_ids@.len() == 0 {
            None
        } else {
            Some(ShellActionCallView::MarkRead(views(ctx.visible_notification_ids@)))
        },
    }
}

/// What the shell's actions act on; the multiplexer implements it. Each method takes one
/// change, and the target's record of changes (`calls`) grows by exactly that change.
pub trait ShellActionTarget {
    /// The changes the target has taken, oldest first. By default a target shows no record; a
    /// target verified against the methods below defines the record it keeps.
    closed spec fn calls(&self) -> Seq<ShellActionCallView> {
        Seq::empty()
    }

    fn set_workspace_status(&mut self, workspace: &str, status: &str)
        ensures
            final(self).calls() == old(self).calls().push(ShellActionCallView::SetStatus(workspace@, status@)),
    ;

    fn clear_workspace_status(&mut self, workspace: &str)
        ensures
            final(self).calls() == old(self).calls().push(ShellActionCallView::ClearStatus(workspace@)),
    ;

    fn set_workspace_progress(&mut self, workspace: &str, value: u8)
        ensures
            final(self).calls() == old(self).calls().push(ShellActionCallView::SetProgress(workspace@, value)),
    ;

    fn clear_workspace_progress(&mut self, workspace: &str)
        ensures
            final(self).calls() == old(self).calls().push(ShellActionCallView::ClearProgress(workspace@)),
    ;

    fn append_workspace_log(&mut self, workspace: &str, message: &str)
        ensures
            final(self).calls() == old(self).calls().push(ShellActionCallView::AppendLog(workspace@, message@)),
    ;

    fn mark_notifications_read(&mut self, notification_ids: &[String])
        ensures
            final(self).calls() == old(self).calls().push(ShellActionCallView::MarkRead(views(notification_ids@))),
    ;
}

impl ShellAction {
    /// The actions the shell offers, in order.
    pub fn operator_actions() -> (r: Vec<ShellAction>)
        ensures
            r@ == operator_action_order(),
    {
        let r = vec![
            ShellAction::Refresh,
            ShellAction::LaunchTerminal,
            ShellAction::SetStatus,
            ShellAction::ClearStatus,
            ShellAction::SetProgress,
            ShellAction::ClearProgress,
            ShellAction::AppendLog,
            ShellAction::MarkVisibleRead,
        ];
        assert(r@ =~= operator_action_order());
        r
    }

    /// What the action asks of the multiplexer in `context` (see `asks`).
    pub fn call_for(self, context: &ShellActionContext) -> (r: Option<ShellActionCall>)
        ensures
            asks(self, *context, r),
            opt_call_view(r) == call_asked(self, *context),
    {
        match self {
            ShellAction::Refresh => None,
            ShellAction::LaunchTerminal => None,
            ShellAction::SetStatus => Some(
                ShellActionCall::SetStatus {
                    workspace: context.workspace.clone(),
                    status: String::from_str(context.next_status()),
                },
            ),
            ShellAction::ClearStatus => Some(ShellActionCall::ClearStatus { workspace: context.workspace.clone() }),
            ShellAction::SetProgress => Some(
                ShellActionCall::SetProgress { workspace: context.workspace.clone(), value: context.next_progress() },
            ),
            ShellAction::ClearProgress => Some(
                ShellActionCall::ClearProgress { workspace: context.workspace.clone() },
            ),
            ShellAction::AppendLog => Some(
                ShellActionCall::AppendLog {
                    workspace: context.workspace.clone(),
                    message: context.next_log_message(),
                },
            ),
            ShellAction::MarkVisibleRead => if context.visible_notification_ids.len() == 0 {
                None
            } else {
                Some(
                    ShellActionCall::MarkRead {
                        notification_ids: copy_strings(context.visible_notification_ids.as_slice()),
                    },
                )
            },
        }
    }

    /// Runs the action against `target`: makes the change `call_for` gives, if any, through the
    /// target's method of the same name, exactly once, and makes no change otherwise; reports a
    /// change exactly where it made one.
    pub fn execute<T: ShellActionTarget>(self, target: &mut T, context: &ShellActionContext) -> (r: ShellActionOutcome)
        ensures
            final(target).calls() == match call_asked(self, *context) {
                Some(c) => old(target).calls().push(c),
                None => old(target).calls(),
            },
            r == match self {
                ShellAction::Refresh => ShellActionOutcome::NoMutation,
                ShellAction::LaunchTerminal => ShellActionOutcome::NoMutation,
                ShellAction::MarkVisibleRead => if context.visible_notification_ids@.len() == 0 {
                    ShellActionOutcome::NoMutation
                } else {
                    ShellActionOutcome::Mutated
                },
                _ => ShellActionOutcome::Mutated,
            },
    {
        match self.call_for(context) {
            None => ShellActionOutcome::NoMutation,
            Some(call) => {
                match call {
                    ShellActionCall::SetStatus { workspace, status } => {
                        target.set_workspace_status(workspace.as_str(), status.as_str());
                    },
                    ShellActionCall::ClearStatus { workspace } => {
                        target.clear_workspace_status(workspace.as_str());
                    },
                    ShellActionCall::SetProgress { workspace, value } => {
                        target.set_workspace_progress(workspace.as_str(), value);
                    },
                    ShellActionCall::ClearProgress { workspace } => {
                        target.clear_workspace_progress(workspace.as_str());
                    },
                    ShellActionCall::AppendLog { workspace, message } => {
                        target.append_workspace_log(workspace.as_str(), message.as_str());
                    },
                    ShellActionCall::MarkRead { notification_ids } => {
                        target.mark_notifications_read(notification_ids.as_slice());
                    },
                }
                ShellActionOutcome::Mutated
            },
        }
    }
}

} // verus!
