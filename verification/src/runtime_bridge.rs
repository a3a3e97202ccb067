//! How the native shell asks for the multiplexer runtime it runs on, and which names prove that
//! it owns that runtime.

use crate::text::{owned, str_eq};
use vstd::prelude::*;

verus! {

/// The window class the GUI registers its windows under.
pub const DEFAULT_WINDOW_CLASS: &'static str = "org.wezfurlong.wezterm";

/// What the native shell asks of the runtime bootstrap.
#[derive(Debug, PartialEq, Eq)]
pub struct NativeShellBootstrapPlan {
    pub window_class: String,
    pub default_domain: Option<String>,
    pub default_workspace: Option<String>,
    pub should_publish: bool,
}

impl Default for NativeShellBootstrapPlan {
    /// The plan of the shell as it starts: the default window class, no default domain, the
    /// `default` workspace, and publishing the runtime's socket.
    fn default() -> (r: Self)
        ensures
            r.window_class@ == DEFAULT_WINDOW_CLASS@,
            r.default_domain is None,
            r.default_workspace matches Some(w) && w@ == "default"@,
            r.should_publish,
    {
        NativeShellBootstrapPlan {
            window_class: owned(DEFAULT_WINDOW_CLASS),
            default_domain: None,
            default_workspace: Some(owned("default")),
            should_publish: true,
        }
    }
}

impl NativeShellBootstrapPlan {
    /// The plan publishes the runtime's socket for the `default` workspace, which is what makes
    /// the shell the socket's authority.
    pub fn proves_socket_authority(&self) -> (r: bool)
        ensures
            r == (self.should_publish && (self.default_workspace matches Some(w) && w@ == "default"@)),
    {
        self.should_publish && match &self.default_workspace {
            Some(w) => str_eq(w.as_str(), "default"),
            None => false,
        }
    }
}

/// The names by which the native shell's ownership of the runtime is recognised.
#[derive(Debug, PartialEq, Eq)]
pub struct RuntimeOwnershipProof {
    pub primary_shell: &'static str,
    pub fallback_shell: &'static str,
    pub socket_env_var: &'static str,
    pub socket_file_prefix: &'static str,
}

impl RuntimeOwnershipProof {
    /// The native shell first, the GUI as fallback, the socket named by `KAKU_UNIX_SOCKET`
    /// and its file starting with `gui-sock-`.
    pub fn default() -> (r: Self)
        ensures
            r.primary_shell@ == "kaku-native-shell"@,
            r.fallback_shell@ == "kaku-gui"@,
            r.socket_env_var@ == "KAKU_UNIX_SOCKET"@,
            r.socket_file_prefix@ == "gui-sock-"@,
    {
        RuntimeOwnershipProof {
            primary_shell: "kaku-native-shell",
            fallback_shell: "kaku-gui",
            socket_env_var: "KAKU_UNIX_SOCKET",
            socket_file_prefix: "gui-sock-",
        }
    }
}

} // verus!
