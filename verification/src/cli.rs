//! The commands of the `kaku` command line that talk to the multiplexer, and the requests they
//! send. Reading the command line and printing replies is left to the program around the
//! library; what a command asks for is decided here.

use crate::text::{copy_opt_string, copy_strings, owned, str_eq, views};
use crate::{PaneId, TabId, WindowId};
use vstd::prelude::*;

verus! {

/// How a listing command prints its result.
#[derive(Clone, Copy, Debug, PartialEq, Eq, Structural)]
pub enum CliOutputFormatKind {
    Json,
    Table,
}

/// Focus a pane.
#[derive(Debug, PartialEq, Eq)]
pub struct ActivatePane {
    /// The pane; the current one where not given.
    pub pane_id: Option<PaneId>,
}

/// The request that focuses a pane.
#[derive(Debug, PartialEq, Eq)]
pub struct SetFocusedPane {
    pub pane_id: PaneId,
}

impl ActivatePane {
    /// The request that focuses pane `pane_id`.
    pub fn request_for(pane_id: PaneId) -> (r: SetFocusedPane)
        ensures
            r.pane_id == pane_id,
    {
        SetFocusedPane { pane_id }
    }
}

/// Show what notification features the multiplexer offers.
#[derive(Debug, PartialEq, Eq)]
pub struct CapabilitiesCommand {}

/// Clear a workspace's activity log.
#[derive(Debug, PartialEq, Eq)]
pub struct ClearWorkspaceLogCommand {
    pub workspace: Option<String>,
}

/// The request that clears a workspace's activity log.
#[derive(Debug, PartialEq, Eq)]
pub struct ClearWorkspaceLog {
    pub workspace: Option<String>,
}

impl ClearWorkspaceLogCommand {
    /// The request for this command.
    pub fn to_request(&self) -> (r: ClearWorkspaceLog)
        ensures
            r.workspace == self.workspace,
    {
        ClearWorkspaceLog { workspace: copy_opt_string(&self.workspace) }
    }
}

/// Clear notifications, by id or by scope.
#[derive(Debug, PartialEq, Eq)]
pub struct ClearNotificationsCommand {
    pub notification_ids: Vec<String>,
    pub workspace: Option<String>,
    pub tab_id: Option<TabId>,
    pub pane_id: Option<PaneId>,
}

/// The request that clears notifications.
#[derive(Debug, PartialEq, Eq)]
pub struct ClearNotifications {
    pub notification_ids: Vec<String>,
    pub workspace: Option<String>,
    pub tab_id: Option<TabId>,
    pub pane_id: Option<PaneId>,
}

impl ClearNotificationsCommand {
    /// The request for this command.
    pub fn to_request(&self) -> (r: ClearNotifications)
        ensures
            views(r.notification_ids@) == views(self.notification_ids@),
            r.workspace == self.workspace,
            r.tab_id == self.tab_id,
            r.pane_id == self.pane_id,
    {
        ClearNotifications {
            notification_ids: copy_strings(self.notification_ids.as_slice()),
            workspace: copy_opt_string(&self.workspace),
            tab_id: self.tab_id,
            pane_id: self.pane_id,
        }
    }
}

/// Clear a workspace's status.
#[derive(Debug, PartialEq, Eq)]
pub struct ClearWorkspaceStatusCommand {
    pub workspace: Option<String>,
}

/// The request that clears a workspace's status.
#[derive(Debug, PartialEq, Eq)]
pub struct ClearWorkspaceStatus {
    pub workspace: Option<String>,
}

impl ClearWorkspaceStatusCommand {
    /// The request for this command.
    pub fn to_request(&self) -> (r: ClearWorkspaceStatus)
        ensures
            r.workspace == self.workspace,
    {
        ClearWorkspaceStatus { workspace: copy_opt_string(&self.workspace) }
    }
}

/// Show where notifications raised from a pane would be anchored.
#[derive(Debug, PartialEq, Eq)]
pub struct IdentifyCommand {
    /// The pane; the current one where not given.
    pub pane_id: Option<PaneId>,
}

/// The request that identifies the notification target of a pane.
#[derive(Debug, PartialEq, Eq)]
pub struct IdentifyNotificationTarget {
    pub pane_id: PaneId,
}

impl IdentifyCommand {
    /// The request for pane `pane_id`.
    pub fn make_request(pane_id: PaneId) -> (r: IdentifyNotificationTarget)
        ensures
            r.pane_id == pane_id,
    {
        IdentifyNotificationTarget { pane_id }
    }
}

/// Focus the next pane with unread notifications.
#[derive(Debug, PartialEq, Eq)]
pub struct JumpNextUnreadCommand {
    /// The pane to start from; the current one where not given.
    pub pane_id: Option<PaneId>,
}

/// The request that jumps to an unread pane.
#[derive(Debug, PartialEq, Eq)]
pub struct JumpUnread {
    pub pane_id: PaneId,
    pub direction: String,
}

impl JumpNextUnreadCommand {
    /// The request that jumps forward from pane `pane_id`.
    pub fn make_request(pane_id: PaneId) -> (r: JumpUnread)
        ensures
            r.pane_id == pane_id,
            r.direction@ == "next"@,
    {
        JumpUnread { pane_id, direction: owned("next") }
    }
}

/// List a workspace's activity log.
#[derive(Debug, PartialEq, Eq)]
pub struct ListWorkspaceLogCommand {
    pub workspace: Option<String>,
    pub limit: Option<usize>,
    pub format: CliOutputFormatKind,
}

/// The request that lists a workspace's activity log.
#[derive(Debug, PartialEq, Eq)]
pub struct ListWorkspaceLog {
    pub workspace: Option<String>,
    pub limit: Option<usize>,
}

impl ListWorkspaceLogCommand {
    /// The request for this command.
    pub fn to_request(&self) -> (r: ListWorkspaceLog)
        ensures
            r.workspace == self.workspace,
            r.limit == self.limit,
    {
        ListWorkspaceLog { workspace: copy_opt_string(&self.workspace), limit: self.limit }
    }
}

/// List notifications, narrowed by scope.
#[derive(Debug, PartialEq, Eq)]
pub struct ListNotificationsCommand {
    pub workspace: Option<String>,
    pub window_id: Option<WindowId>,
    pub tab_id: Option<TabId>,
    pub pane_id: Option<PaneId>,
    pub unread_only: bool,
    pub format: CliOutputFormatKind,
}

/// The request that lists notifications.
#[derive(Debug, PartialEq, Eq)]
pub struct ListNotifications {
    pub workspace: Option<String>,
    pub window_id: Option<WindowId>,
    pub tab_id: Option<TabId>,
    pub pane_id: Option<PaneId>,
    pub unread_only: bool,
}

impl ListNotificationsCommand {
    /// The request for this command.
    pub fn to_request(&self) -> (r: ListNotifications)
        ensures
            r.workspace == self.workspace,
            r.window_id == self.window_id,
            r.tab_id == self.tab_id,
            r.pane_id == self.pane_id,
            r.unread_only == self.unread_only,
    {
        ListNotifications {
            workspace: copy_opt_string(&self.workspace),
            window_id: self.window_id,
            tab_id: self.tab_id,
            pane_id: self.pane_id,
            unread_only: self.unread_only,
        }
    }
}

/// List workspace statuses.
#[derive(Debug, PartialEq, Eq)]
pub struct ListWorkspaceStatusCommand {
    pub workspace: Option<String>,
    pub format: CliOutputFormatKind,
}

/// The request that lists workspace statuses.
#[derive(Debug, PartialEq, Eq)]
pub struct ListWorkspaceStatus {
    pub workspace: Option<String>,
}

impl ListWorkspaceStatusCommand {
    /// The request for this command.
    pub fn to_request(&self) -> (r: ListWorkspaceStatus)
        ensures
            r.workspace == self.workspace,
    {
        ListWorkspaceStatus { workspace: copy_opt_string(&self.workspace) }
    }
}

/// List task panes.
#[derive(Debug, PartialEq, Eq)]
pub struct ListTaskPanesCommand {
    pub pane_id: Option<PaneId>,
    pub workspace: Option<String>,
    pub format: CliOutputFormatKind,
}

/// The request that lists task panes.
#[derive(Debug, PartialEq, Eq)]
pub struct ListTaskPanes {
    pub pane_id: Option<PaneId>,
    pub workspace: Option<String>,
}

impl ListTaskPanesCommand {
    /// The request for this command.
    pub fn to_request(&self) -> (r: ListTaskPanes)
        ensures
            r.pane_id == self.pane_id,
            r.workspace == self.workspace,
    {
        ListTaskPanes { pane_id: self.pane_id, workspace: copy_opt_string(&self.workspace) }
    }
}

/// Append a line to a workspace's activity log.
#[derive(Debug, PartialEq, Eq)]
pub struct WorkspaceLogCommand {
    pub workspace: String,
    pub message: String,
}

/// The request that appends a line to a workspace's activity log.
#[derive(Debug, PartialEq, Eq)]
pub struct AppendWorkspaceLog {
    pub workspace: String,
    pub message: String,
}

impl WorkspaceLogCommand {
    /// The request for this command.
    pub fn to_request(&self) -> (r: AppendWorkspaceLog)
        ensures
            r.workspace@ == self.workspace@,
            r.message@ == self.message@,
    {
        AppendWorkspaceLog { workspace: self.workspace.clone(), message: self.message.clone() }
    }
}

/// Mark notifications read.
#[derive(Debug, PartialEq, Eq)]
pub struct MarkReadCommand {
    pub notification_ids: Vec<String>,
}

/// The request that marks notifications read.
#[derive(Debug, PartialEq, Eq)]
pub struct MarkNotificationsRead {
    pub notification_ids: Vec<String>,
}

impl MarkReadCommand {
    /// The request for this command.
    pub fn to_request(&self) -> (r: MarkNotificationsRead)
        ensures
            views(r.notification_ids@) == views(self.notification_ids@),
    {
        MarkNotificationsRead { notification_ids: copy_strings(self.notification_ids.as_slice()) }
    }
}

/// Mark notifications unread.
#[derive(Debug, PartialEq, Eq)]
pub struct MarkUnreadCommand {
    pub notification_ids: Vec<String>,
}

/// The request that marks notifications unread.
#[derive(Debug, PartialEq, Eq)]
pub struct MarkNotificationsUnread {
    pub notification_ids: Vec<String>,
}

impl MarkUnreadCommand {
    /// The request for this command.
    pub fn to_request(&self) -> (r: MarkNotificationsUnread)
        ensures
            views(r.notification_ids@) == views(self.notification_ids@),
    {
        MarkNotificationsUnread { notification_ids: copy_strings(self.notification_ids.as_slice()) }
    }
}

/// Raise a notification.
#[derive(Debug, PartialEq, Eq)]
pub struct NotifyCommand {
    pub workspace: String,
    pub window_id: Option<WindowId>,
    pub tab_id: Option<TabId>,
    pub pane_id: Option<PaneId>,
    pub kind: String,
    pub title: String,
    pub body: Option<String>,
    /// `clear-on-focus` (the default) or `sticky`.
    pub unread_mode: String,
}

/// The request that raises a notification.
#[derive(Debug, PartialEq, Eq)]
pub struct CreateNotification {
    pub workspace: String,
    pub window_id: Option<WindowId>,
    pub tab_id: Option<TabId>,
    pub pane_id: Option<PaneId>,
    pub kind: String,
    pub title: String,
    pub body: Option<String>,
    pub unread_mode: String,
}

impl NotifyCommand {
    /// The request for this command.
    pub fn to_request(&self) -> (r: CreateNotification)
        ensures
            r.workspace@ == self.workspace@,
            r.window_id == self.window_id,
            r.tab_id == self.tab_id,
            r.pane_id == self.pane_id,
            r.kind@ == self.kind@,
            r.title@ == self.title@,
            r.body == self.body,
            r.unread_mode@ == self.unread_mode@,
    {
        CreateNotification {
            workspace: self.workspace.clone(),
            window_id: self.window_id,
            tab_id: self.tab_id,
            pane_id: self.pane_id,
            kind: self.kind.clone(),
            title: self.title.clone(),
            body: copy_opt_string(&self.body),
            unread_mode: self.unread_mode.clone(),
        }
    }
}

/// Tee a pane's output to a file, or stop doing so.
#[derive(Debug, PartialEq, Eq)]
pub struct PipePaneCommand {
    pub pane_id: PaneId,
    /// The file, as text.
    pub file: Option<String>,
    pub disable: bool,
}

/// The request that tees a pane's output to a file (or stops it, without a file).
#[derive(Debug, PartialEq, Eq)]
pub struct PipePane {
    pub pane_id: PaneId,
    pub file_path: Option<String>,
}

impl PipePaneCommand {
    /// The request for this command: no file where teeing is disabled, else the file, which
    /// is then required.
    pub fn to_request(&self) -> (r: Result<PipePane, String>)
        ensures
            r is Err <==> !self.disable && self.file is None,
            r matches Err(e) ==> e@ == "--file is required unless --disable is used"@,
            r matches Ok(p) ==> p.pane_id == self.pane_id && p.file_path == (if self.disable {
                None
            } else {
                self.file
            }),
    {
        let file_path = if self.disable {
            None
        } else {
            match &self.file {
                Some(f) => Some(f.clone()),
                None => {
                    return Err(owned("--file is required unless --disable is used"));
                },
            }
        };
        Ok(PipePane { pane_id: self.pane_id, file_path })
    }
}

/// Rerun a failed task pane.
#[derive(Debug, PartialEq, Eq)]
pub struct RerunPaneCommand {
    pub pane_id: PaneId,
}

/// The request that reruns a task pane.
#[derive(Debug, PartialEq, Eq)]
pub struct RerunPane {
    pub pane_id: PaneId,
}

impl RerunPaneCommand {
    /// The request for this command.
    pub fn to_request(&self) -> (r: RerunPane)
        ensures
            r.pane_id == self.pane_id,
    {
        RerunPane { pane_id: self.pane_id }
    }

    /// Accepts a reply whose status is `rerun`; any other status is an error naming it.
    pub fn check_reply_status(status: &str) -> (r: Result<(), String>)
        ensures
            r is Ok <==> status@ == "rerun"@,
            r matches Err(e) ==> e@ == "unexpected rerun-pane status `"@ + status@ + "`"@,
    {
        if str_eq(status, "rerun") {
            Ok(())
        } else {
            let mut msg = crate::text::chars_of("unexpected rerun-pane status `");
            let s = crate::text::chars_of(status);
            crate::text::append_chars(&mut msg, s.as_slice());
            let tick = crate::text::chars_of("`");
            crate::text::append_chars(&mut msg, tick.as_slice());
            Err(crate::text::string_of(msg.as_slice()))
        }
    }
}

/// Set a workspace's progress.
#[derive(Debug, PartialEq, Eq)]
pub struct SetWorkspaceProgressCommand {
    pub workspace: String,
    pub value: u8,
}

/// The request that sets a workspace's progress.
#[derive(Debug, PartialEq, Eq)]
pub struct SetWorkspaceProgress {
    pub workspace: String,
    pub value: u8,
}

impl SetWorkspaceProgressCommand {
    /// The request for this command.
    pub fn to_request(&self) -> (r: SetWorkspaceProgress)
        ensures
            r.workspace@ == self.workspace@,
            r.value == self.value,
    {
        SetWorkspaceProgress { workspace: self.workspace.clone(), value: self.value }
    }
}

/// Set whether a pane keeps its output after its process exits.
#[derive(Debug, PartialEq, Eq)]
pub struct SetRemainOnExitCommand {
    pub pane_id: PaneId,
    pub remain_on_exit: bool,
}

/// The request that sets a pane's remain-on-exit setting.
#[derive(Debug, PartialEq, Eq)]
pub struct SetRemainOnExit {
    pub pane_id: PaneId,
    pub remain_on_exit: bool,
}

impl SetRemainOnExitCommand {
    /// The request for this command.
    pub fn to_request(&self) -> (r: SetRemainOnExit)
        ensures
            r.pane_id == self.pane_id,
            r.remain_on_exit == self.remain_on_exit,
    {
        SetRemainOnExit { pane_id: self.pane_id, remain_on_exit: self.remain_on_exit }
    }
}

/// Set a workspace's status.
#[derive(Debug, PartialEq, Eq)]
pub struct SetWorkspaceStatusCommand {
    pub workspace: String,
    pub status: String,
}

/// The request that sets a workspace's status.
#[derive(Debug, PartialEq, Eq)]
pub struct SetWorkspaceStatus {
    pub workspace: String,
    pub status: String,
}

impl SetWorkspaceStatusCommand {
    /// The request for this command.
    pub fn to_request(&self) -> (r: SetWorkspaceStatus)
        ensures
            r.workspace@ == self.workspace@,
            r.status@ == self.status@,
    {
        SetWorkspaceStatus { workspace: self.workspace.clone(), status: self.status.clone() }
    }
}

/// Silence (or not) a pane's watchdog.
#[derive(Debug, PartialEq, Eq)]
pub struct SilenceWatchdogCommand {
    pub pane_id: PaneId,
    pub silenced: bool,
}

/// The request that silences (or not) a pane's watchdog.
#[derive(Debug, PartialEq, Eq)]
pub struct SilenceWatchdog {
    pub pane_id: PaneId,
    pub silenced: bool,
}

impl SilenceWatchdogCommand {
    /// The request for this command.
    pub fn to_request(&self) -> (r: SilenceWatchdog)
        ensures
            r.pane_id == self.pane_id,
            r.silenced == self.silenced,
    {
        SilenceWatchdog { pane_id: self.pane_id, silenced: self.silenced }
    }
}

} // verus!
