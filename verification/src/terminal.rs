//! The native shell's embedded terminals: the bytes a key press sends, the status strip read
//! from a terminal title, and the paths and sizes the terminals are shown with.

use crate::task_center_overlay::{all_digits, digits_value, lemma_digits_nonneg, lemma_digits_prefix_bound};
use crate::text::{append_chars, chars_of, has_prefix, lower_char, owned, string_of, strip_prefix, to_lower_char};
use crate::time::{signed_padded, signed_padded_chars};
use vstd::prelude::*;

verus! {

/// A key the terminal understands: the named keys it translates, a key that types a character,
/// or any other key.
#[derive(Clone, Copy, Debug, PartialEq, Eq, Structural)]
pub enum TerminalKey {
    Return,
    BackSpace,
    Tab,
    Escape,
    Up,
    Down,
    Right,
    Left,
    Home,
    End,
    PageUp,
    PageDown,
    Delete,
    Char(char),
    Other,
}

/// The UTF-8 encoding of a character.
pub open spec fn utf8_of(c: char) -> Seq<u8> {
    let v = c as u32;
    if v < 0x80 {
        seq![v as u8]
    } else if v < 0x800 {
        seq![(0xC0 + v / 64) as u8, (0x80 + v % 64) as u8]
    } else if v < 0x10000 {
        seq![(0xE0 + v / 4096) as u8, (0x80 + (v / 64) % 64) as u8, (0x80 + v % 64) as u8]
    } else {
        seq![
            (0xF0 + v / 262144) as u8,
            (0x80 + (v / 4096) % 64) as u8,
            (0x80 + (v / 64) % 64) as u8,
            (0x80 + v % 64) as u8,
        ]
    }
}

/// The UTF-8 encoding of a character.
pub fn utf8_bytes(c: char) -> (r: Vec<u8>)
    ensures
        r@ == utf8_of(c),
{
    let v = c as u32;
    let r = if v < 0x80 {
        vec![v as u8]
    } else if v < 0x800 {
        vec![(0xC0 + v / 64) as u8, (0x80 + v % 64) as u8]
    } else if v < 0x10000 {
        vec![(0xE0 + v / 4096) as u8, (0x80 + (v / 64) % 64) as u8, (0x80 + v % 64) as u8]
    } else {
        vec![
            (0xF0 + v / 262144) as u8,
            (0x80 + (v / 4096) % 64) as u8,
            (0x80 + (v / 64) % 64) as u8,
            (0x80 + v % 64) as u8,
        ]
    };
    assert(r@ =~= utf8_of(c));
    r
}

/// The byte a control chord with `ch` sends: NUL for `@`, `` ` `` and space, 1 to 26 for the
/// letters (of either case), and 27 to 31 for `[`, `\`, `]`, `^` and `_`.
pub open spec fn control_byte(ch: char) -> Option<u8> {
    if ch == '@' || ch == '`' || ch == ' ' {
        Some(0)
    } else if 'a' <= ch && ch <= 'z' {
        Some((ch as u32 - 'a' as u32 + 1) as u8)
    } else if 'A' <= ch && ch <= 'Z' {
        Some((ch as u32 - 'A' as u32 + 1) as u8)
    } else if ch == '[' {
        Some(27)
    } else if ch == '\\' {
        Some(28)
    } else if ch == ']' {
        Some(29)
    } else if ch == '^' {
        Some(30)
    } else if ch == '_' {
        Some(31)
    } else {
        None
    }
}

/// The bytes a control chord with `ch` sends (see `control_byte`).
pub fn control_char_to_byte(ch: char) -> (r: Option<Vec<u8>>)
    ensures
        match control_byte(ch) {
            Some(b) => r matches Some(v) && v@ == seq![b],
            None => r is None,
        },
{
    let b: Option<u8> = if ch == '@' || ch == '`' || ch == ' ' {
        Some(0)
    } else if 'a' <= ch && ch <= 'z' {
        Some((ch as u32 - 'a' as u32 + 1) as u8)
    } else if 'A' <= ch && ch <= 'Z' {
        Some((ch as u32 - 'A' as u32 + 1) as u8)
    } else if ch == '[' {
        Some(27)
    } else if ch == '\\' {
        Some(28)
    } else if ch == ']' {
        Some(29)
    } else if ch == '^' {
        Some(30)
    } else if ch == '_' {
        Some(31)
    } else {
        None
    };
    match b {
        Some(x) => {
            let v = vec![x];
            assert(v@ =~= seq![x]);
            Some(v)
        },
        None => None,
    }
}

/// The bytes a key sends with Control held: DEL for backspace, a line feed for return, the
/// modified cursor sequences for the arrows, and the control byte of a character key.
pub open spec fn control_key_bytes(key: TerminalKey) -> Option<Seq<u8>> {
    match key {
        TerminalKey::BackSpace => Some(seq![0x7fu8]),
        TerminalKey::Return => Some(seq![0x0au8]),
        TerminalKey::Up => Some(seq![0x1bu8, 0x5b, 0x31, 0x3b, 0x35, 0x41]),
        TerminalKey::Down => Some(seq![0x1bu8, 0x5b, 0x31, 0x3b, 0x35, 0x42]),
        TerminalKey::Right => Some(seq![0x1bu8, 0x5b, 0x31, 0x3b, 0x35, 0x43]),
        TerminalKey::Left => Some(seq![0x1bu8, 0x5b, 0x31, 0x3b, 0x35, 0x44]),
        TerminalKey::Char(c) => match control_byte(c) {
            Some(b) => Some(seq![b]),
            None => None,
        },
        _ => None,
    }
}

/// The bytes a key sends on its own: carriage return, DEL, tab and escape, the cursor and
/// editing sequences, and the UTF-8 encoding of a character key.
pub open spec fn plain_key_bytes(key: TerminalKey) -> Option<Seq<u8>> {
    match key {
        TerminalKey::Return => Some(seq![0x0du8]),
        TerminalKey::BackSpace => Some(seq![0x7fu8]),
        TerminalKey::Tab => Some(seq![0x09u8]),
        TerminalKey::Escape => Some(seq![0x1bu8]),
        TerminalKey::Up => Some(seq![0x1bu8, 0x5b, 0x41]),
        TerminalKey::Down => Some(seq![0x1bu8, 0x5b, 0x42]),
        TerminalKey::Right => Some(seq![0x1bu8, 0x5b, 0x43]),
        TerminalKey::Left => Some(seq![0x1bu8, 0x5b, 0x44]),
        TerminalKey::Home => Some(seq![0x1bu8, 0x5b, 0x48]),
        TerminalKey::End => Some(seq![0x1bu8, 0x5b, 0x46]),
        TerminalKey::PageUp => Some(seq![0x1bu8, 0x5b, 0x35, 0x7e]),
        TerminalKey::PageDown => Some(seq![0x1bu8, 0x5b, 0x36, 0x7e]),
        TerminalKey::Delete => Some(seq![0x1bu8, 0x5b, 0x33, 0x7e]),
        TerminalKey::Char(c) => Some(utf8_of(c)),
        TerminalKey::Other => None,
    }
}

/// The bytes a key press sends: with Control, those of `control_key_bytes`; otherwise those of
/// `plain_key_bytes`, after an escape where Alt is held.
pub open spec fn key_bytes(key: TerminalKey, control: bool, alt: bool) -> Option<Seq<u8>> {
    if control {
        control_key_bytes(key)
    } else {
        match plain_key_bytes(key) {
            Some(b) => Some(if alt {
                seq![0x1bu8] + b
            } else {
                b
            }),
            None => None,
        }
    }
}

/// The bytes a key sends with Control held (see `control_key_bytes`).
pub fn control_key_to_bytes(key: TerminalKey) -> (r: Option<Vec<u8>>)
    ensures
        match control_key_bytes(key) {
            Some(b) => r matches Some(v) && v@ == b,
            None => r is None,
        },
{
    let r = match key {
        TerminalKey::BackSpace => Some(vec![0x7fu8]),
        TerminalKey::Return => Some(vec![0x0au8]),
        TerminalKey::Up => Some(vec![0x1bu8, 0x5b, 0x31, 0x3b, 0x35, 0x41]),
        TerminalKey::Down => Some(vec![0x1bu8, 0x5b, 0x31, 0x3b, 0x35, 0x42]),
        TerminalKey::Right => Some(vec![0x1bu8, 0x5b, 0x31, 0x3b, 0x35, 0x43]),
        TerminalKey::Left => Some(vec![0x1bu8, 0x5b, 0x31, 0x3b, 0x35, 0x44]),
        TerminalKey::Char(c) => control_char_to_byte(c),
        _ => None,
    };
    proof {
        match control_key_bytes(key) {
            Some(b) => {
                assert(r is Some);
                assert(r->0@ =~= b);
            },
            None => {},
        }
    }
    r
}

/// The bytes a key press sends (see `key_bytes`).
pub fn key_to_bytes(key: TerminalKey, control: bool, alt: bool) -> (r: Option<Vec<u8>>)
    ensures
        match key_bytes(key, control, alt) {
            Some(b) => r matches Some(v) && v@ == b,
            None => r is None,
        },
{
    if control {
        return control_key_to_bytes(key);
    }
    let bytes: Vec<u8> = match key {
        TerminalKey::Return => vec![0x0du8],
        TerminalKey::BackSpace => vec![0x7fu8],
        TerminalKey::Tab => vec![0x09u8],
        TerminalKey::Escape => vec![0x1bu8],
        TerminalKey::Up => vec![0x1bu8, 0x5b, 0x41],
        TerminalKey::Down => vec![0x1bu8, 0x5b, 0x42],
        TerminalKey::Right => vec![0x1bu8, 0x5b, 0x43],
        TerminalKey::Left => vec![0x1bu8, 0x5b, 0x44],
        TerminalKey::Home => vec![0x1bu8, 0x5b, 0x48],
        TerminalKey::End => vec![0x1bu8, 0x5b, 0x46],
        TerminalKey::PageUp => vec![0x1bu8, 0x5b, 0x35, 0x7e],
        TerminalKey::PageDown => vec![0x1bu8, 0x5b, 0x36, 0x7e],
        TerminalKey::Delete => vec![0x1bu8, 0x5b, 0x33, 0x7e],
        TerminalKey::Char(c) => utf8_bytes(c),
        TerminalKey::Other => {
            return None;
        },
    };
    assert(plain_key_bytes(key) == Some(bytes@));
    if alt {
        let mut prefixed = vec![0x1bu8];
        let mut rest = bytes;
        prefixed.append(&mut rest);
        assert(prefixed@ =~= seq![0x1bu8] + bytes@);
        Some(prefixed)
    } else {
        Some(bytes)
    }
}

/// A window action a terminal pane runs for a key pressed with a command modifier (Control,
/// Meta or Super).
#[derive(Clone, Copy, Debug, PartialEq, Eq, Structural)]
pub enum TerminalWindowAction {
    LaunchTerminal,
    FocusNextTerminal,
    FocusPreviousTerminal,
    CloseTerminal,
    ToggleRail,
    ToggleActivity,
    LaunchLazygit,
    LaunchYazi,
    RunDoctor,
    OpenConfig,
    ToggleTasks,
    ToggleMetadata,
    SetStatus,
    ClearStatus,
    SetProgress,
    AppendLog,
    ResetShell,
}

/// The window action for `key` pressed with a command modifier, Shift held or not (letters in
/// either case), if it has one.
pub open spec fn window_action_of(key: TerminalKey, shifted: bool) -> Option<TerminalWindowAction> {
    match key {
        TerminalKey::Char(c) => {
            let k = lower_char(c);
            if k == 't' && !shifted {
                Some(TerminalWindowAction::LaunchTerminal)
            } else if k == ']' && !shifted {
                Some(TerminalWindowAction::FocusNextTerminal)
            } else if k == '[' && !shifted {
                Some(TerminalWindowAction::FocusPreviousTerminal)
            } else if k == 'w' && !shifted {
                Some(TerminalWindowAction::CloseTerminal)
            } else if k == 'b' && !shifted {
                Some(TerminalWindowAction::ToggleRail)
            } else if k == 'a' && shifted {
                Some(TerminalWindowAction::ToggleActivity)
            } else if k == 'g' && shifted {
                Some(TerminalWindowAction::LaunchLazygit)
            } else if k == 'y' && shifted {
                Some(TerminalWindowAction::LaunchYazi)
            } else if k == 'd' && shifted {
                Some(TerminalWindowAction::RunDoctor)
            } else if k == ',' && !shifted {
                Some(TerminalWindowAction::OpenConfig)
            } else if k == 't' && shifted {
                Some(TerminalWindowAction::ToggleTasks)
            } else if k == 'm' && shifted {
                Some(TerminalWindowAction::ToggleMetadata)
            } else if k == 's' && shifted {
                Some(TerminalWindowAction::SetStatus)
            } else if k == 'x' && shifted {
                Some(TerminalWindowAction::ClearStatus)
            } else if k == 'p' && shifted {
                Some(TerminalWindowAction::SetProgress)
            } else if k == 'l' && shifted {
                Some(TerminalWindowAction::AppendLog)
            } else if k == 'r' && shifted {
                Some(TerminalWindowAction::ResetShell)
            } else {
                None
            }
        },
        _ => None,
    }
}

/// The window action a key press in a terminal pane runs: none without a command modifier,
/// else the one `window_action_of` gives. A press with no action goes on to `key_to_bytes`.
pub fn terminal_window_action(key: TerminalKey, shifted: bool, command: bool) -> (r: Option<TerminalWindowAction>)
    ensures
        r == (if command { window_action_of(key, shifted) } else { None }),
{
    if !command {
        return None;
    }
    let c = match key {
        TerminalKey::Char(c) => to_lower_char(c),
        _ => return None,
    };
    if c == 't' && !shifted {
        Some(TerminalWindowAction::LaunchTerminal)
    } else if c == ']' && !shifted {
        Some(TerminalWindowAction::FocusNextTerminal)
    } else if c == '[' && !shifted {
        Some(TerminalWindowAction::FocusPreviousTerminal)
    } else if c == 'w' && !shifted {
        Some(TerminalWindowAction::CloseTerminal)
    } else if c == 'b' && !shifted {
        Some(TerminalWindowAction::ToggleRail)
    } else if c == 'a' && shifted {
        Some(TerminalWindowAction::ToggleActivity)
    } else if c == 'g' && shifted {
        Some(TerminalWindowAction::LaunchLazygit)
    } else if c == 'y' && shifted {
        Some(TerminalWindowAction::LaunchYazi)
    } else if c == 'd' && shifted {
        Some(TerminalWindowAction::RunDoctor)
    } else if c == ',' && !shifted {
        Some(TerminalWindowAction::OpenConfig)
    } else if c == 't' && shifted {
        Some(TerminalWindowAction::ToggleTasks)
    } else if c == 'm' && shifted {
        Some(TerminalWindowAction::ToggleMetadata)
    } else if c == 's' && shifted {
        Some(TerminalWindowAction::SetStatus)
    } else if c == 'x' && shifted {
        Some(TerminalWindowAction::ClearStatus)
    } else if c == 'p' && shifted {
        Some(TerminalWindowAction::SetProgress)
    } else if c == 'l' && shifted {
        Some(TerminalWindowAction::AppendLog)
    } else if c == 'r' && shifted {
        Some(TerminalWindowAction::ResetShell)
    } else {
        None
    }
}

/// The name of the window action, as the window registers it.
pub open spec fn window_action_name(a: TerminalWindowAction) -> Seq<char> {
    match a {
        TerminalWindowAction::LaunchTerminal => "win.launch-terminal"@,
        TerminalWindowAction::FocusNextTerminal => "win.focus-next-terminal"@,
        TerminalWindowAction::FocusPreviousTerminal => "win.focus-previous-terminal"@,
        TerminalWindowAction::CloseTerminal => "win.close-terminal"@,
        TerminalWindowAction::ToggleRail => "win.toggle-rail"@,
        TerminalWindowAction::ToggleActivity => "win.toggle-activity"@,
        TerminalWindowAction::LaunchLazygit => "win.launch-lazygit"@,
        TerminalWindowAction::LaunchYazi => "win.launch-yazi"@,
        TerminalWindowAction::RunDoctor => "win.run-doctor"@,
        TerminalWindowAction::OpenConfig => "win.open-config"@,
        TerminalWindowAction::ToggleTasks => "win.toggle-tasks"@,
        TerminalWindowAction::ToggleMetadata => "win.toggle-metadata"@,
        TerminalWindowAction::SetStatus => "win.set-status"@,
        TerminalWindowAction::ClearStatus => "win.clear-status"@,
        TerminalWindowAction::SetProgress => "win.set-progress"@,
        TerminalWindowAction::AppendLog => "win.append-log"@,
        TerminalWindowAction::ResetShell => "win.reset-shell"@,
    }
}

impl TerminalWindowAction {
    /// The action's name, as the window registers it.
    pub fn action_name(self) -> (r: &'static str)
        ensures
            r@ == window_action_name(self),
    {
        match self {
            TerminalWindowAction::LaunchTerminal => "win.launch-terminal",
            TerminalWindowAction::FocusNextTerminal => "win.focus-next-terminal",
            TerminalWindowAction::FocusPreviousTerminal => "win.focus-previous-terminal",
            TerminalWindowAction::CloseTerminal => "win.close-terminal",
            TerminalWindowAction::ToggleRail => "win.toggle-rail",
            TerminalWindowAction::ToggleActivity => "win.toggle-activity",
            TerminalWindowAction::LaunchLazygit => "win.launch-lazygit",
            TerminalWindowAction::LaunchYazi => "win.launch-yazi",
            TerminalWindowAction::RunDoctor => "win.run-doctor",
            TerminalWindowAction::OpenConfig => "win.open-config",
            TerminalWindowAction::ToggleTasks => "win.toggle-tasks",
            TerminalWindowAction::ToggleMetadata => "win.toggle-metadata",
            TerminalWindowAction::SetStatus => "win.set-status",
            TerminalWindowAction::ClearStatus => "win.clear-status",
            TerminalWindowAction::SetProgress => "win.set-progress",
            TerminalWindowAction::AppendLog => "win.append-log",
            TerminalWindowAction::ResetShell => "win.reset-shell",
        }
    }
}

/// The status strip of a terminal pane: the path it shows and the badge of the last command's
/// failure, if any.
#[derive(Debug, PartialEq, Eq)]
pub struct TerminalStripState {
    pub title: String,
    pub status_badge: Option<String>,
}

/// The first position of `c` in `s`.
pub open spec fn position_of(s: Seq<char>, c: char) -> Option<int>
    decreases s.len(),
{
    if s.len() == 0 {
        None
    } else if s[0] == c {
        Some(0)
    } else {
        match position_of(s.drop_first(), c) {
            Some(k) => Some(k + 1),
            None => None,
        }
    }
}

/// Where `position_of` finds `c`, `c` is there and nowhere before; where it does not, `c` is
/// nowhere in `s`.
pub proof fn lemma_position_of(s: Seq<char>, c: char)
    ensures
        position_of(s, c) matches Some(k) ==> (0 <= k < s.len() && s[k] == c && forall|j: int| 0 <= j < k ==> s[j] != c),
        position_of(s, c) is None ==> forall|j: int| 0 <= j < s.len() ==> s[j] != c,
    decreases s.len(),
{
    if s.len() > 0 && s[0] != c {
        lemma_position_of(s.drop_first(), c);
        assert forall|j: int| 1 <= j < s.len() implies s[j] == s.drop_first()[j - 1] by {}
    }
}

/// The first position of `c` in `s`.
fn find_char(s: &[char], c: char) -> (r: Option<usize>)
    ensures
        match position_of(s@, c) {
            Some(k) => r == Some(k as usize),
            None => r is None,
        },
{
    proof {
        lemma_position_of(s@, c);
    }
    let mut i: usize = 0;
    while i < s.len()
        invariant
            i <= s@.len(),
            forall|j: int| 0 <= j < i ==> s@[j] != c,
            position_of(s@, c) matches Some(k) ==> (0 <= k < s@.len() && s@[k] == c && forall|j: int|
                0 <= j < k ==> s@[j] != c),
            position_of(s@, c) is None ==> forall|j: int| 0 <= j < s@.len() ==> s@[j] != c,
        decreases s@.len() - i,
    {
        if s[i] == c {
            return Some(i);
        }
        i += 1;
    }
    None
}

/// The `i32` a text spells (`str::parse::<i32>`): an optional sign, then at least one ASCII
/// digit, with a value in range.
pub open spec fn parsed_i32(s: Seq<char>) -> Option<i32> {
    let neg = s.len() > 0 && s[0] == '-';
    let d = if s.len() > 0 && (s[0] == '-' || s[0] == '+') {
        s.drop_first()
    } else {
        s
    };
    let v = if neg {
        -digits_value(d)
    } else {
        digits_value(d)
    };
    if d.len() > 0 && all_digits(d) && i32::MIN <= v <= i32::MAX {
        Some(v as i32)
    } else {
        None
    }
}

/// Parses a text as an `i32` (see `parsed_i32`).
pub fn parse_i32(s: &[char]) -> (r: Option<i32>)
    ensures
        r == parsed_i32(s@),
{
    let neg = s.len() > 0 && s[0] == '-';
    let mut i: usize = 0;
    if s.len() > 0 && (s[0] == '-' || s[0] == '+') {
        i = 1;
    }
    let ghost d = if s@.len() > 0 && (s@[0] == '-' || s@[0] == '+') {
        s@.drop_first()
    } else {
        s@
    };
    assert(d =~= s@.subrange(i as int, s@.len() as int));
    if i == s.len() {
        return None;
    }
    let start = i;
    let mut value: u64 = 0;
    while i < s.len()
        invariant
            start <= i <= s@.len(),
            d == s@.subrange(start as int, s@.len() as int),
            d == (if s@.len() > 0 && (s@[0] == '-' || s@[0] == '+') {
                s@.drop_first()
            } else {
                s@
            }),
            neg == (s@.len() > 0 && s@[0] == '-'),
            all_digits(s@.subrange(start as int, i as int)),
            value == digits_value(s@.subrange(start as int, i as int)),
            value <= 2147483648,
        decreases s@.len() - i,
    {
        let c = s[i];
        assert(s@.subrange(start as int, i + 1).drop_last() =~= s@.subrange(start as int, i as int));
        if !('0' <= c && c <= '9') {
            assert(!all_digits(d)) by {
                assert(d[i - start] == s@[i as int]);
            }
            return None;
        }
        let digit: u64 = (c as u64) - ('0' as u64);
        if value > 214748364 || (value == 214748364 && digit > 8) {
            proof {
                let pre = s@.subrange(start as int, i + 1);
                assert(pre.last() == c);
                assert(digits_value(pre) == value * 10 + digit);
                lemma_digits_prefix_bound(d, (i + 1 - start) as int);
                assert(d.subrange(0, (i + 1 - start) as int) =~= pre);
            }
            return None;
        }
        value = value * 10 + digit;
        i += 1;
    }
    assert(s@.subrange(start as int, s@.len() as int) =~= d);
    proof {
        lemma_digits_nonneg(d);
    }
    if neg {
        let n: i64 = -(value as i64);
        Some(n as i32)
    } else if value <= 2147483647 {
        Some(value as i32)
    } else {
        None
    }
}

/// The title prefix by which a terminal reports the outcome of its last command.
pub const TERMINAL_STATUS_TITLE_PREFIX: &'static str = "kaku-status:";

/// `s` without a leading `file://`.
pub open spec fn without_scheme(s: Seq<char>) -> Seq<char> {
    if has_prefix(s, "file://"@) {
        s.subrange(7, s.len() as int)
    } else {
        s
    }
}

/// `s` without a leading `file://`.
pub(crate) fn strip_scheme(s: &str) -> (r: Vec<char>)
    ensures
        r@ == without_scheme(s@),
{
    proof {
        reveal_strlit("file://");
    }
    let v = chars_of(s);
    let scheme = chars_of("file://");
    match strip_prefix(v.as_slice(), scheme.as_slice()) {
        Some(rest) => rest,
        None => v,
    }
}

/// Whether `std::path::Path` takes the two texts for the same path (comparing their components).
pub uninterp spec fn same_path_text(a: Seq<char>, b: Seq<char>) -> bool;

/// What `std::path::Path::strip_prefix` leaves of path `p` after base `base` (compared by
/// components), as text; `None` where `base` is not a prefix of `p`.
pub uninterp spec fn path_after(p: Seq<char>, base: Seq<char>) -> Option<Seq<char>>;

/// `Path::new(a) == Path::new(b)`: whether the two texts name the same path, component by
/// component. The comparison is named by `same_path_text`.
#[verifier::external_body]
fn same_path(a: &str, b: &str) -> (r: bool)
    ensures
        r == same_path_text(a@, b@),
{
    std::path::Path::new(a) == std::path::Path::new(b)
}

/// `Path::strip_prefix`: what remains of path `p` after base `base`, as text (valid UTF-8 in
/// and out, so the conversion loses nothing); `None` where `base` is not a prefix. The
/// remainder is named by `path_after`.
#[verifier::external_body]
fn strip_path_prefix(p: &str, base: &str) -> (r: Option<String>)
    ensures
        match path_after(p@, base@) {
            Some(rest) => r matches Some(s) && s@ == rest,
            None => r is None,
        },
{
    std::path::Path::new(p).strip_prefix(base).ok().map(|rest| rest.to_string_lossy().into_owned())
}

/// `s` without its leading `c` characters (`trim_start_matches(c)`).
pub open spec fn trim_leading(s: Seq<char>, c: char) -> Seq<char>
    decreases s.len(),
{
    if s.len() > 0 && s[0] == c {
        trim_leading(s.drop_first(), c)
    } else {
        s
    }
}

/// `s` without its leading `c` characters.
fn trim_leading_chars(s: &[char], c: char) -> (r: Vec<char>)
    ensures
        r@ == trim_leading(s@, c),
{
    let mut i: usize = 0;
    assert(s@.subrange(0, s@.len() as int) =~= s@);
    while i < s.len() && s[i] == c
        invariant
            i <= s@.len(),
            trim_leading(s@, c) == trim_leading(s@.subrange(i as int, s@.len() as int), c),
        decreases s@.len() - i,
    {
        assert(s@.subrange(i as int, s@.len() as int).drop_first() =~= s@.subrange(i + 1, s@.len() as int));
        i += 1;
    }
    let mut r: Vec<char> = Vec::new();
    let mut j: usize = i;
    while j < s.len()
        invariant
            i <= j <= s@.len(),
            r@ == s@.subrange(i as int, j as int),
        decreases s@.len() - j,
    {
        r.push(s[j]);
        j += 1;
        assert(r@ =~= s@.subrange(i as int, j as int));
    }
    r
}

/// A path as a terminal's strip shows it: without `file://`, and with the home directory
/// (where known) written `~`.
pub open spec fn friendly_path(path: Seq<char>, home: Option<Seq<char>>) -> Seq<char> {
    let w = without_scheme(path);
    match home {
        Some(h) => if same_path_text(w, h) {
            "~"@
        } else {
            match path_after(w, h) {
                Some(rest) => if rest.len() == 0 {
                    "~"@
                } else {
                    "~/"@ + trim_leading(rest, '/')
                },
                None => w,
            }
        },
        None => w,
    }
}

/// A path as a terminal's strip shows it, given the home directory where known (see
/// `friendly_path`).
pub fn friendly_display_path(path: &str, home: Option<&str>) -> (r: String)
    ensures
        r@ == friendly_path(path@, match home {
            Some(h) => Some(h@),
            None => None,
        }),
{
    let w = strip_scheme(path);
    let ws = string_of(w.as_slice());
    if let Some(h) = home {
        if same_path(ws.as_str(), h) {
            return owned("~");
        }
        if let Some(rest) = strip_path_prefix(ws.as_str(), h) {
            let rv = chars_of(rest.as_str());
            if rv.len() == 0 {
                return owned("~");
            }
            let mut v = chars_of("~/");
            let t = trim_leading_chars(rv.as_slice(), '/');
            append_chars(&mut v, t.as_slice());
            return string_of(v.as_slice());
        }
    }
    ws
}

/// The code and directory a status title carries after its prefix: the text up to the first
/// `:`, and the text between the first and second `:` (empty where there is no `:`).
pub open spec fn status_fields(payload: Seq<char>) -> (Seq<char>, Seq<char>) {
    match position_of(payload, ':') {
        None => (payload, Seq::empty()),
        Some(p) => {
            let rest = payload.subrange(p + 1, payload.len() as int);
            (
                payload.subrange(0, p),
                match position_of(rest, ':') {
                    Some(q) => rest.subrange(0, q),
                    None => rest,
                },
            )
        },
    }
}

/// The badge of an exit code: none for success, `NOT FOUND` for 127, `EXIT` and the code
/// otherwise.
pub open spec fn exit_badge(code: i32) -> Option<Seq<char>> {
    if code == 0 {
        None
    } else if code == 127 {
        Some("NOT FOUND"@)
    } else {
        Some("EXIT "@ + signed_padded(code as int, 0))
    }
}

/// The strip a terminal title reports, where it is a status title (the prefix, an exit code,
/// and the directory): the directory as `friendly_path` shows it (nothing where it is empty)
/// and the code's badge.
pub open spec fn strip_state_of(raw: Seq<char>, home: Option<Seq<char>>) -> Option<(Seq<char>, Option<Seq<char>>)> {
    if !has_prefix(raw, TERMINAL_STATUS_TITLE_PREFIX@) {
        None
    } else {
        let payload = raw.subrange(TERMINAL_STATUS_TITLE_PREFIX@.len() as int, raw.len() as int);
        let (code_text, cwd) = status_fields(payload);
        match parsed_i32(code_text) {
            None => None,
            Some(code) => Some(
                (
                    if cwd.len() == 0 {
                        Seq::empty()
                    } else {
                        friendly_path(cwd, home)
                    },
                    exit_badge(code),
                ),
            ),
        }
    }
}

/// The text of an optional string.
pub open spec fn opt_chars(o: Option<String>) -> Option<Seq<char>> {
    match o {
        Some(s) => Some(s@),
        None => None,
    }
}

/// The strip a terminal title reports, given the home directory where known (see
/// `strip_state_of`).
pub fn terminal_strip_state_from_title(raw_title: &str, home: Option<&str>) -> (r: Option<TerminalStripState>)
    ensures
        match strip_state_of(raw_title@, match home {
            Some(h) => Some(h@),
            None => None,
        }) {
            Some((title, badge)) => r matches Some(s) && s.title@ == title && opt_chars(s.status_badge) == badge,
            None => r is None,
        },
{
    let raw = chars_of(raw_title);
    let prefix = chars_of(TERMINAL_STATUS_TITLE_PREFIX);
    let payload = match strip_prefix(raw.as_slice(), prefix.as_slice()) {
        Some(p) => p,
        None => {
            return None;
        },
    };
    proof {
        lemma_position_of(payload@, ':');
    }
    let (code_text, cwd): (Vec<char>, Vec<char>) = match find_char(payload.as_slice(), ':') {
        None => (payload, Vec::new()),
        Some(p) => {
            let mut first: Vec<char> = Vec::new();
            let mut k: usize = 0;
            while k < p
                invariant
                    k <= p < payload@.len(),
                    first@ == payload@.subrange(0, k as int),
                decreases p - k,
            {
                first.push(payload[k]);
                k += 1;
                assert(first@ =~= payload@.subrange(0, k as int));
            }
            let mut rest: Vec<char> = Vec::new();
            let mut m: usize = p + 1;
            while m < payload.len()
                invariant
                    p + 1 <= m <= payload@.len(),
                    rest@ == payload@.subrange(p + 1, m as int),
                decreases payload@.len() - m,
            {
                rest.push(payload[m]);
                m += 1;
                assert(rest@ =~= payload@.subrange(p + 1, m as int));
            }
            proof {
                lemma_position_of(rest@, ':');
            }
            let second = match find_char(rest.as_slice(), ':') {
                Some(q) => {
                    let mut s2: Vec<char> = Vec::new();
                    let mut n: usize = 0;
                    while n < q
                        invariant
                            n <= q < rest@.len(),
                            s2@ == rest@.subrange(0, n as int),
                        decreases q - n,
                    {
                        s2.push(rest[n]);
                        n += 1;
                        assert(s2@ =~= rest@.subrange(0, n as int));
                    }
                    s2
                },
                None => rest,
            };
            (first, second)
        },
    };
    assert(status_fields(payload@) == (code_text@, cwd@));
    let code = match parse_i32(code_text.as_slice()) {
        Some(c) => c,
        None => {
            return None;
        },
    };
    let title = if cwd.len() == 0 {
        String::new()
    } else {
        let cs = string_of(cwd.as_slice());
        friendly_display_path(cs.as_str(), home)
    };
    let status_badge = if code == 0 {
        None
    } else if code == 127 {
        Some(owned("NOT FOUND"))
    } else {
        let mut v = chars_of("EXIT ");
        let d = signed_padded_chars(code, 0);
        append_chars(&mut v, d.as_slice());
        Some(string_of(v.as_slice()))
    };
    assert(title@ == (if cwd@.len() == 0 {
        Seq::<char>::empty()
    } else {
        friendly_path(cwd@, match home {
            Some(h) => Some(h@),
            None => None,
        })
    }));
    Some(TerminalStripState { title, status_badge })
}

/// A working directory as a path: without `file://`, or none where nothing is left.
pub fn normalize_cwd(cwd: String) -> (r: Option<String>)
    ensures
        without_scheme(cwd@).len() == 0 ==> r is None,
        without_scheme(cwd@).len() > 0 ==> (r matches Some(p) && p@ == without_scheme(cwd@)),
{
    let w = strip_scheme(cwd.as_str());
    if w.len() == 0 {
        None
    } else {
        Some(string_of(w.as_slice()))
    }
}

/// The title of a terminal pane: its directory as `friendly_path` shows it, or `workspace
/// shell` where it has none.
pub fn terminal_title(cwd: Option<&str>, home: Option<&str>) -> (r: String)
    ensures
        r@ == friendly_path(match cwd {
            Some(c) => c@,
            None => "workspace shell"@,
        }, match home {
            Some(h) => Some(h@),
            None => None,
        }),
{
    match cwd {
        Some(c) => friendly_display_path(c, home),
        None => friendly_display_path("workspace shell", home),
    }
}

/// The size of a terminal in cells and pixels.
#[derive(Clone, Copy, Debug, PartialEq, Eq, Structural)]
pub struct TerminalSize {
    pub rows: usize,
    pub cols: usize,
    pub pixel_width: usize,
    pub pixel_height: usize,
    pub dpi: u32,
}

/// The size of a terminal widget of `cols` by `rows` cells and `width` by `height` pixels (a
/// negative pixel size counts as zero; the resolution is left unset).
pub fn terminal_size_for_widget(cols: u16, rows: u16, width: i32, height: i32) -> (r: TerminalSize)
    ensures
        r.rows == rows,
        r.cols == cols,
        r.pixel_width == if width > 0 { width as int } else { 0 },
        r.pixel_height == if height > 0 { height as int } else { 0 },
        r.dpi == 0,
{
    TerminalSize {
        rows: rows as usize,
        cols: cols as usize,
        pixel_width: if width > 0 { width as usize } else { 0 },
        pixel_height: if height > 0 { height as usize } else { 0 },
        dpi: 0,
    }
}

/// What a terminal pane's strip shows: its title and, after a command failed, a badge.
#[derive(Clone, Debug, Default, PartialEq, Eq)]
pub struct TerminalSurfaceState {
    pub title: String,
    pub status_badge: Option<String>,
}

/// Where a terminal pane's session stands.
#[derive(Clone, Copy, Debug, Default, PartialEq, Eq, Structural)]
pub struct TerminalHandleState {
    pub live: bool,
    pub pending_spawn: bool,
    pub has_error: bool,
}

} // verus!
