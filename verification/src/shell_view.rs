//! The native shell's fixed layout and copy: its slots, panel titles, shortcut strip and UI
//! contract, the commands it types to launch tools, and the short path forms it shows.

use crate::snapshot::RuntimeSnapshot;
use crate::task_panes::{TaskPaneRecord, opt_view};
use crate::terminal::{strip_scheme, without_scheme};
use crate::text::{
    append_chars, ascii_upper, chars_of, copy_opt_string, has_prefix, owned, parts, split_parts, str_eq,
    string_of, strip_prefix, uppercase_chars,
};
use vstd::prelude::*;

verus! {

/// The fonts and class names the shell's type styles use.
#[derive(Debug, PartialEq, Eq)]
pub struct ShellTypographyContract {
    pub primary_mono_family: [&'static str; 3],
    pub operator_classes: [&'static str; 3],
}

/// The short labels the shell's badges and buttons use.
#[derive(Debug, PartialEq, Eq)]
pub struct ShellAffordanceContract {
    pub compact_count_labels: [&'static str; 3],
    pub header_badges: [&'static str; 3],
    pub action_labels: [&'static str; 8],
}

/// What the shell's window is made of.
#[derive(Debug, PartialEq, Eq)]
pub struct ShellUiContract {
    pub layout_slots: [&'static str; 6],
    pub primary_surface: &'static str,
    pub persistent_context_slots: [&'static str; 3],
    pub typography: ShellTypographyContract,
    pub affordances: ShellAffordanceContract,
}

/// The texts of a sequence of string slices.
pub open spec fn texts(s: Seq<&'static str>) -> Seq<Seq<char>> {
    s.map_values(|t: &'static str| t@)
}

/// What the shell's window is made of: its layout slots, the workspace as its main surface,
/// the context slots it keeps, its fonts and classes, and its labels.
pub fn shell_ui_contract() -> (r: ShellUiContract)
    ensures
        texts(r.layout_slots@) == seq!["chrome"@, "rail"@, "workspace"@, "activity"@, "inbox"@, "metadata"@],
        r.primary_surface@ == "workspace"@,
        texts(r.persistent_context_slots@) == seq!["inbox"@, "tasks"@, "metadata"@],
        texts(r.typography.primary_mono_family@) == seq![
            "DMMono Nerd Font"@,
            "1984대화나눔_본문체_Regular"@,
            "monospace"@,
        ],
        texts(r.typography.operator_classes@) == seq!["chrome-title"@, "rail-name"@, "pane-title"@],
        texts(r.affordances.compact_count_labels@) == seq!["1U 2R 0F"@, "70% 5L"@, "U1 T2"@],
        texts(r.affordances.header_badges@) == seq!["◉ unity-main"@, "3U"@, "2T"@],
        texts(r.affordances.action_labels@) == seq![
            "↻"@,
            "shell"@,
            "next"@,
            "prev"@,
            "close"@,
            "status"@,
            "progress"@,
            "reset"@,
        ],
{
    let r = ShellUiContract {
        layout_slots: ["chrome", "rail", "workspace", "activity", "inbox", "metadata"],
        primary_surface: "workspace",
        persistent_context_slots: ["inbox", "tasks", "metadata"],
        typography: ShellTypographyContract {
            primary_mono_family: ["DMMono Nerd Font", "1984대화나눔_본문체_Regular", "monospace"],
            operator_classes: ["chrome-title", "rail-name", "pane-title"],
        },
        affordances: ShellAffordanceContract {
            compact_count_labels: ["1U 2R 0F", "70% 5L", "U1 T2"],
            header_badges: ["◉ unity-main", "3U", "2T"],
            action_labels: ["↻", "shell", "next", "prev", "close", "status", "progress", "reset"],
        },
    };
    assert(texts(r.layout_slots@) =~= seq!["chrome"@, "rail"@, "workspace"@, "activity"@, "inbox"@, "metadata"@]);
    assert(texts(r.persistent_context_slots@) =~= seq!["inbox"@, "tasks"@, "metadata"@]);
    assert(texts(r.typography.primary_mono_family@) =~= seq![
        "DMMono Nerd Font"@,
        "1984대화나눔_본문체_Regular"@,
        "monospace"@,
    ]);
    assert(texts(r.typography.operator_classes@) =~= seq!["chrome-title"@, "rail-name"@, "pane-title"@]);
    assert(texts(r.affordances.compact_count_labels@) =~= seq!["1U 2R 0F"@, "70% 5L"@, "U1 T2"@]);
    assert(texts(r.affordances.header_badges@) =~= seq!["◉ unity-main"@, "3U"@, "2T"@]);
    assert(texts(r.affordances.action_labels@) =~= seq![
        "↻"@,
        "shell"@,
        "next"@,
        "prev"@,
        "close"@,
        "status"@,
        "progress"@,
        "reset"@,
    ]);
    r
}

/// The shell's slots, in the order they are laid out.
pub fn shell_slot_order() -> (r: [&'static str; 7])
    ensures
        texts(r@) == seq!["chrome"@, "rail"@, "workspace"@, "activity"@, "metadata"@, "inbox"@, "tasks"@],
{
    let r = ["chrome", "rail", "workspace", "activity", "metadata", "inbox", "tasks"];
    assert(texts(r@) =~= seq!["chrome"@, "rail"@, "workspace"@, "activity"@, "metadata"@, "inbox"@, "tasks"@]);
    r
}

/// The titles of the context panels.
pub fn context_panel_titles() -> (r: [&'static str; 4])
    ensures
        texts(r@) == seq!["Inbox"@, "Tasks"@, "Activity"@, "Metadata"@],
{
    let r = ["Inbox", "Tasks", "Activity", "Metadata"];
    assert(texts(r@) =~= seq!["Inbox"@, "Tasks"@, "Activity"@, "Metadata"@]);
    r
}

/// The shortcut strip: each action's label and its keys, in the order shown.
pub open spec fn shortcut_table() -> Seq<(Seq<char>, Seq<char>)> {
    seq![
        ("NEW SHELL"@, "CMD+T"@),
        ("SPLIT RIGHT"@, "CMD+D"@),
        ("SPLIT DOWN"@, "CMD+SHIFT+D"@),
        ("TOGGLE SPLIT"@, "CMD+SHIFT+S"@),
        ("ZOOM"@, "CMD+SHIFT+ENTER"@),
        ("NEXT PANE"@, "CMD+]"@),
        ("PREV PANE"@, "CMD+["@),
        ("CLOSE PANE"@, "CMD+W"@),
        ("LAZYGIT"@, "CMD+SHIFT+G"@),
        ("YAZI"@, "CMD+SHIFT+Y"@),
        ("DOCTOR"@, "CMD+SHIFT+O"@),
        ("CONFIG"@, "CMD+,"@),
        ("WORKSPACES"@, "CMD+B"@),
        ("ACTIVITY"@, "CMD+SHIFT+A"@),
        ("TASKS"@, "CMD+SHIFT+T"@),
        ("METADATA"@, "CMD+SHIFT+M"@),
        ("STATUS"@, "CMD+SHIFT+S"@),
        ("CLEAR"@, "CMD+SHIFT+X"@),
        ("PROGRESS"@, "CMD+SHIFT+P"@),
        ("RESET"@, "CMD+SHIFT+R"@),
        ("LOG"@, "CMD+SHIFT+L"@),
    ]
}

/// The shortcut strip (see `shortcut_table`).
pub fn shortcut_entries() -> (r: [(&'static str, &'static str); 21])
    ensures
        r@.map_values(|e: (&'static str, &'static str)| (e.0@, e.1@)) == shortcut_table(),
{
    let r = [
        ("NEW SHELL", "CMD+T"),
        ("SPLIT RIGHT", "CMD+D"),
        ("SPLIT DOWN", "CMD+SHIFT+D"),
        ("TOGGLE SPLIT", "CMD+SHIFT+S"),
        ("ZOOM", "CMD+SHIFT+ENTER"),
        ("NEXT PANE", "CMD+]"),
        ("PREV PANE", "CMD+["),
        ("CLOSE PANE", "CMD+W"),
        ("LAZYGIT", "CMD+SHIFT+G"),
        ("YAZI", "CMD+SHIFT+Y"),
        ("DOCTOR", "CMD+SHIFT+O"),
        ("CONFIG", "CMD+,"),
        ("WORKSPACES", "CMD+B"),
        ("ACTIVITY", "CMD+SHIFT+A"),
        ("TASKS", "CMD+SHIFT+T"),
        ("METADATA", "CMD+SHIFT+M"),
        ("STATUS", "CMD+SHIFT+S"),
        ("CLEAR", "CMD+SHIFT+X"),
        ("PROGRESS", "CMD+SHIFT+P"),
        ("RESET", "CMD+SHIFT+R"),
        ("LOG", "CMD+SHIFT+L"),
    ];
    assert(r@.map_values(|e: (&'static str, &'static str)| (e.0@, e.1@)) =~= shortcut_table());
    r
}

/// The largest position of the split between the body and the side panes, for side panes
/// `side_width` pixels wide: 420 pixels more than that, and at least 620.
pub fn body_position_cap(side_width: i32) -> (r: i32)
    requires
        side_width <= i32::MAX - 420,
    ensures
        r == if 420 + side_width > 620 { 420 + side_width } else { 620 },
{
    let wide = 420 + side_width;
    if wide > 620 {
        wide
    } else {
        620
    }
}

/// The shell command that runs `launch` where `binary` is installed, and otherwise prints that
/// it is not (the binary's name in upper case).
pub open spec fn presence_wrapped(binary: Seq<char>, launch: Seq<char>) -> Seq<char> {
    "if command -v "@ + binary + " >/dev/null 2>&1; then "@ + launch + "; else printf '"@ + ascii_upper(binary)
        + " IS NOT INSTALLED\\n'; fi"@
}

/// The shell command that runs `launch` where `binary` is installed (see `presence_wrapped`).
pub fn tool_presence_wrapper(binary: &str, launch: &str) -> (r: String)
    ensures
        r@ == presence_wrapped(binary@, launch@),
{
    let b = chars_of(binary);
    let mut v = chars_of("if command -v ");
    append_chars(&mut v, b.as_slice());
    let mid = chars_of(" >/dev/null 2>&1; then ");
    append_chars(&mut v, mid.as_slice());
    let l = chars_of(launch);
    append_chars(&mut v, l.as_slice());
    let other = chars_of("; else printf '");
    append_chars(&mut v, other.as_slice());
    let upper = uppercase_chars(b.as_slice());
    append_chars(&mut v, upper.as_slice());
    let tail = chars_of(" IS NOT INSTALLED\\n'; fi");
    append_chars(&mut v, tail.as_slice());
    string_of(v.as_slice())
}

/// The command typed to launch a tool: lazygit, yazi, `kaku doctor` and `kaku config` are
/// wrapped so that a missing binary is reported; anything else is typed as it is.
pub open spec fn launch_snippet(command: Seq<char>) -> Seq<char> {
    if command == "lazygit"@ {
        presence_wrapped("lazygit"@, "lazygit"@)
    } else if command == "yazi"@ {
        presence_wrapped("yazi"@, "yazi"@)
    } else if command == "kaku doctor"@ {
        presence_wrapped("kaku"@, "kaku doctor"@)
    } else if command == "kaku config"@ {
        presence_wrapped("kaku"@, "kaku config"@)
    } else {
        command
    }
}

/// The command typed to launch a tool (see `launch_snippet`).
pub fn shell_tool_launch_snippet(command: &str) -> (r: String)
    ensures
        r@ == launch_snippet(command@),
{
    if str_eq(command, "lazygit") {
        tool_presence_wrapper("lazygit", "lazygit")
    } else if str_eq(command, "yazi") {
        tool_presence_wrapper("yazi", "yazi")
    } else if str_eq(command, "kaku doctor") {
        tool_presence_wrapper("kaku", "kaku doctor")
    } else if str_eq(command, "kaku config") {
        tool_presence_wrapper("kaku", "kaku config")
    } else {
        owned(command)
    }
}

/// A working directory as the workspace panel shows it: without `file://`, and where it has
/// more than two path components, an ellipsis and its last two.
pub open spec fn shortened_cwd(cwd: Seq<char>) -> Seq<char> {
    let w = without_scheme(cwd);
    let p = parts(w, '/');
    if p.len() <= 2 {
        w
    } else {
        "…/"@ + p[p.len() - 2] + "/"@ + p[p.len() - 1]
    }
}

/// A working directory as the workspace panel shows it (see `shortened_cwd`).
pub fn shorten_cwd(cwd: &str) -> (r: String)
    ensures
        r@ == shortened_cwd(cwd@),
{
    let w = strip_scheme(cwd);
    let p = split_parts(w.as_slice(), '/');
    let n = p.len();
    if n <= 2 {
        return string_of(w.as_slice());
    }
    assert(p@[n - 2]@ == parts(w@, '/')[n - 2]);
    assert(p@[n - 1]@ == parts(w@, '/')[n - 1]);
    let mut v = chars_of("…/");
    append_chars(&mut v, p[n - 2].as_slice());
    v.push('/');
    append_chars(&mut v, p[n - 1].as_slice());
    proof {
        reveal_strlit("/");
        assert(v@ =~= "…/"@ + p@[n - 2]@ + "/"@ + p@[n - 1]@);
    }
    string_of(v.as_slice())
}

/// A work item's path as the rail shows it: without `file://`, with the home directory (where
/// known and a prefix of the text) written `~`, and where that has more than three path
/// components, an ellipsis and its last three.
pub open spec fn shortened_work_item_path(value: Seq<char>, home: Option<Seq<char>>) -> Seq<char> {
    let w = without_scheme(value);
    let t = match home {
        Some(h) if has_prefix(w, h) => "~"@ + w.subrange(h.len() as int, w.len() as int),
        _ => w,
    };
    let p = parts(t, '/');
    if p.len() <= 3 {
        t
    } else {
        "…/"@ + p[p.len() - 3] + "/"@ + p[p.len() - 2] + "/"@ + p[p.len() - 1]
    }
}

/// A work item's path as the rail shows it, given the home directory where known (see
/// `shortened_work_item_path`).
pub fn shorten_work_item_path(value: &str, home: Option<&str>) -> (r: String)
    ensures
        r@ == shortened_work_item_path(value@, match home {
            Some(h) => Some(h@),
            None => None,
        }),
{
    let w = strip_scheme(value);
    let t = match home {
        Some(h) => {
            let hv = chars_of(h);
            match strip_prefix(w.as_slice(), hv.as_slice()) {
                Some(rest) => {
                    let mut v = chars_of("~");
                    append_chars(&mut v, rest.as_slice());
                    v
                },
                None => w,
            }
        },
        None => w,
    };
    let p = split_parts(t.as_slice(), '/');
    let n = p.len();
    if n <= 3 {
        return string_of(t.as_slice());
    }
    assert(p@[n - 3]@ == parts(t@, '/')[n - 3]);
    assert(p@[n - 2]@ == parts(t@, '/')[n - 2]);
    assert(p@[n - 1]@ == parts(t@, '/')[n - 1]);
    let mut v = chars_of("…/");
    append_chars(&mut v, p[n - 3].as_slice());
    v.push('/');
    append_chars(&mut v, p[n - 2].as_slice());
    v.push('/');
    append_chars(&mut v, p[n - 1].as_slice());
    proof {
        reveal_strlit("/");
        assert(v@ =~= "…/"@ + p@[n - 3]@ + "/"@ + p@[n - 2]@ + "/"@ + p@[n - 1]@);
    }
    string_of(v.as_slice())
}

/// The working directory of the shown workspace: that of its first task pane where that pane
/// has one, otherwise `fallback` (the shell's own directory).
pub open spec fn workspace_raw_cwd(tps: Seq<TaskPaneRecord>, active: Seq<char>, fallback: Option<String>) -> Option<String> {
    if exists|k: int| 0 <= k < tps.len() && #[trigger] opt_view(tps[k].workspace) == Some(active) {
        let k = choose|k: int|
            0 <= k < tps.len() && #[trigger] opt_view(tps[k].workspace) == Some(active) && forall|j: int|
                0 <= j < k ==> opt_view(tps[j].workspace) != Some(active);
        match tps[k].current_working_dir {
            Some(d) => Some(d),
            None => fallback,
        }
    } else {
        fallback
    }
}

/// The working directory of the shown workspace (see `workspace_raw_cwd`).
pub fn current_workspace_raw_cwd(snapshot: &RuntimeSnapshot, fallback: Option<String>) -> (r: Option<String>)
    ensures
        r == workspace_raw_cwd(
            snapshot.task_panes@,
            snapshot.active_workspace@,
            fallback,
        ),
{
    let tps = &snapshot.task_panes;
    let ghost all = snapshot.task_panes@;
    let mut i: usize = 0;
    while i < tps.len()
        invariant
            i <= tps@.len(),
            tps@ == all,
            all == snapshot.task_panes@,
            forall|j: int| 0 <= j < i ==> opt_view(tps@[j].workspace) != Some(snapshot.active_workspace@),
        decreases tps@.len() - i,
    {
        let hit = match &tps[i].workspace {
            Some(w) => str_eq(w.as_str(), snapshot.active_workspace.as_str()),
            None => false,
        };
        if hit {
            proof {
                let active = snapshot.active_workspace@;
                assert(opt_view(tps@[i as int].workspace) == Some(active));
                assert(0 <= i < tps@.len() && opt_view(tps@[i as int].workspace) == Some(active) && forall|j: int|
                    0 <= j < i ==> opt_view(tps@[j].workspace) != Some(active));
                let k = choose|k: int|
                    0 <= k < tps@.len() && #[trigger] opt_view(tps@[k].workspace) == Some(active) && forall|j: int|
                        0 <= j < k ==> opt_view(tps@[j].workspace) != Some(active);
                assert(k == i) by {
                    if k < i {
                        assert(opt_view(tps@[k].workspace) != Some(active));
                    } else if k > i {
                        assert(opt_view(tps@[i as int].workspace) != Some(active));
                    }
                }
            }
            assert(workspace_raw_cwd(tps@, snapshot.active_workspace@, fallback) == match tps@[i as int].current_working_dir {
                Some(d) => Some(d),
                None => fallback,
            });
            let cwd = copy_opt_string(&tps[i].current_working_dir);
            assert(cwd == tps@[i as int].current_working_dir);
            let result = match cwd {
                Some(d) => Some(d),
                None => fallback,
            };
            return result;
        }
        i += 1;
    }
    fallback
}

/// The shown workspace's working directory as the workspace panel shows it.
pub fn current_workspace_cwd(snapshot: &RuntimeSnapshot, fallback: Option<String>) -> (r: Option<String>)
    ensures
        match workspace_raw_cwd(snapshot.task_panes@, snapshot.active_workspace@, fallback) {
            Some(d) => r matches Some(s) && s@ == shortened_cwd(d@),
            None => r is None,
        },
{
    match current_workspace_raw_cwd(snapshot, fallback) {
        Some(d) => Some(shorten_cwd(d.as_str())),
        None => None,
    }
}

/// `a` or `b`, whichever is larger.
pub open spec fn larger(a: int, b: int) -> int {
    if a >= b {
        a
    } else {
        b
    }
}

/// `a` or `b`, whichever is smaller.
pub open spec fn smaller(a: int, b: int) -> int {
    if a <= b {
        a
    } else {
        b
    }
}

/// The size the shell's window is kept to on a monitor of the given size: at least 1180 by
/// 820, and at most the monitor less 80 in each direction (that bound never under 960 by 720).
pub fn clamped_window_size(monitor_width: i32, monitor_height: i32, width: i32, height: i32) -> (r: (i32, i32))
    requires
        monitor_width >= i32::MIN + 80,
        monitor_height >= i32::MIN + 80,
    ensures
        r.0 == smaller(larger(width as int, 1180), larger(monitor_width - 80, 960)),
        r.1 == smaller(larger(height as int, 820), larger(monitor_height - 80, 720)),
{
    let max_width = if monitor_width - 80 >= 960 {
        monitor_width - 80
    } else {
        960
    };
    let max_height = if monitor_height - 80 >= 720 {
        monitor_height - 80
    } else {
        720
    };
    let wide = if width >= 1180 {
        width
    } else {
        1180
    };
    let tall = if height >= 820 {
        height
    } else {
        820
    };
    (if wide <= max_width {
        wide
    } else {
        max_width
    }, if tall <= max_height {
        tall
    } else {
        max_height
    })
}

} // verus!
