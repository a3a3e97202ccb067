//! Workspace, notification and task-pane bookkeeping for the kaku terminal
//! multiplexer, with the operator-facing views derived from it.

pub mod boot_state;
pub mod cli;
pub mod cli_tables;
pub mod laws;
pub mod notification_store;
pub mod operator_nav;
pub mod rail;
pub mod runtime_bridge;
pub mod seq_facts;
pub mod server;
pub mod session;
pub mod shell_actions;
pub mod shell_controller;
pub mod shell_launch;
pub mod shell_view;
pub mod snapshot;
pub mod task_center;
pub mod task_center_overlay;
pub mod task_panes;
pub mod terminal;
pub mod text;
pub mod time;
pub mod workspace_state;

use vstd::prelude::*;

verus! {

/// Identifies a pane.
pub type PaneId = u64;

/// Identifies a tab.
pub type TabId = u64;

/// Identifies a window.
pub type WindowId = u64;

} // verus!
