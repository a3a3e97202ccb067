//! How the native shell starts a login shell in a terminal pane: the minimal configuration it
//! writes for the shells it knows, the directory that configuration goes in, and the
//! environment, arguments and working directory the shell is started with. Writing the files
//! and spawning the process are left to the program around the library.

use crate::snapshot::opt_seq;
use crate::terminal::{normalize_cwd, without_scheme};
use crate::text::{append_chars, chars_of, decimal, decimal_chars, owned, str_eq, string_of};
use vstd::prelude::*;

verus! {

/// The `.zshrc` of the minimal zsh configuration.
pub const ZSH_MINIMAL_RC: &'static str = "unsetopt beep\nsetopt interactive_comments\nPROMPT_EOL_MARK=''\nexport CLICOLOR=1\nexport CLICOLOR_FORCE=1\nexport LSCOLORS='GxFxCxDxBxegedabagaced'\nexport LESS='-R'\nalias ll='ls -lah'\nalias la='ls -A'\nalias l='ls -CF'\nalias gs='git status --short --branch'\nalias gd='git diff --minimal'\nalias gl='git log --oneline --decorate -12'\nalias gco='git checkout'\nalias vim='nvim'\nalias vi='nvim'\nfunction yy() {\n  if command -v yazi >/dev/null 2>&1; then\n    yazi \"$@\"\n  else\n    print -P '%F{203}yazi is not installed%f'\n    return 127\n  fi\n}\nfunction lg() {\n  if command -v lazygit >/dev/null 2>&1; then\n    lazygit \"$@\"\n  else\n    print -P '%F{203}lazygit is not installed%f'\n    return 127\n  fi\n}\nfunction _kaku_precmd() {\n  local exit_code=$?\n  printf '\\033]2;kaku-status:%s:%s\\007' \"$exit_code\" \"$PWD\"\n}\nfunction _kaku_chpwd() {\n  printf '\\033]2;kaku-status:0:%s\\007' \"$PWD\"\n}\nfunction command_not_found_handler() {\n  print -P \"%F{203}command not found:%f %F{210}${1}%f\"\n  return 127\n}\nautoload -Uz add-zsh-hook\nadd-zsh-hook precmd _kaku_precmd\nadd-zsh-hook chpwd _kaku_chpwd\nPROMPT='%F{81}%2~%f $ '\nRPROMPT=''\n";

/// The `.bashrc` of the minimal bash configuration.
pub const BASH_MINIMAL_RC: &'static str = "export CLICOLOR=1\nexport CLICOLOR_FORCE=1\nexport LSCOLORS='GxFxCxDxBxegedabagaced'\nexport LESS='-R'\nshopt -s checkwinsize\nalias ll='ls -lah'\nalias la='ls -A'\nalias l='ls -CF'\nalias gs='git status --short --branch'\nalias gd='git diff --minimal'\nalias gl='git log --oneline --decorate -12'\nalias gco='git checkout'\nalias vim='nvim'\nalias vi='nvim'\nyy() {\n  if command -v yazi >/dev/null 2>&1; then\n    yazi \"$@\"\n  else\n    printf '\\e[38;5;203myazi is not installed\\e[0m\\n'\n    return 127\n  fi\n}\nlg() {\n  if command -v lazygit >/dev/null 2>&1; then\n    lazygit \"$@\"\n  else\n    printf '\\e[38;5;203mlazygit is not installed\\e[0m\\n'\n    return 127\n  fi\n}\nkaku_prompt_command() {\n  local exit_code=$?\n  printf '\\033]2;kaku-status:%s:%s\\007' \"$exit_code\" \"$PWD\"\n}\ncommand_not_found_handle() {\n  printf '\\e[38;5;203mcommand not found:\\e[0m \\e[38;5;210m%s\\e[0m\\n' \"$1\"\n  return 127\n}\nPROMPT_COMMAND=kaku_prompt_command\nPS1='\\[\\e[38;5;81m\\]\\w\\[\\e[0m\\] \\$ '\n";

/// The `fish/config.fish` of the minimal fish configuration.
pub const FISH_MINIMAL_RC: &'static str = "set -gx CLICOLOR 1\nset -gx CLICOLOR_FORCE 1\nset -gx LESS '-R'\nalias ll 'ls -lah'\nalias la 'ls -A'\nalias l 'ls -CF'\nalias gs 'git status --short --branch'\nalias gd 'git diff --minimal'\nalias gl 'git log --oneline --decorate -12'\nalias gco 'git checkout'\nalias vim 'nvim'\nalias vi 'nvim'\nfunction yy\n  if command -q yazi\n    yazi $argv\n  else\n    set_color 203\n    printf 'yazi is not installed\\n'\n    set_color normal\n    return 127\n  end\nend\nfunction lg\n  if command -q lazygit\n    lazygit $argv\n  else\n    set_color 203\n    printf 'lazygit is not installed\\n'\n    set_color normal\n    return 127\n  end\nend\nfunction fish_prompt\n  set -l exit_code $status\n  printf '\\e]2;kaku-status:%s:%s\\a' $exit_code $PWD\n  set_color 81\n  printf '%s' (prompt_pwd)\n  set_color normal\n  printf ' > '\nend\nfunction fish_command_not_found\n  set_color 203\n  printf 'command not found:'\n  set_color 210\n  printf ' %s\\n' $argv[1]\n  set_color normal\nend\n";

/// What `std::path::Path::file_name` gives of a path, as text: its last component, or nothing
/// where the path ends in `..` or has no component.
pub uninterp spec fn path_file_name(p: Seq<char>) -> Option<Seq<char>>;

/// What `std::path::Path::join` makes of a base path and a relative one, as text.
pub uninterp spec fn path_joined(base: Seq<char>, rel: Seq<char>) -> Seq<char>;

/// `Path::new(path).file_name()`, as text; named by `path_file_name`.
#[verifier::external_body]
fn file_name(path: &str) -> (r: Option<String>)
    ensures
        opt_seq(r) == path_file_name(path@),
{
    match std::path::Path::new(path).file_name() {
        Some(n) => n.to_str().map(str::to_string),
        None => None,
    }
}

/// `Path::new(base).join(rel)`, as text; named by `path_joined`.
#[verifier::external_body]
fn join_path(base: &str, rel: &str) -> (r: String)
    ensures
        r@ == path_joined(base@, rel@),
{
    std::path::Path::new(base).join(rel).to_string_lossy().into_owned()
}

/// The name a shell goes by: the last component of its path (nothing where it has none).
pub open spec fn shell_name_of(shell: Seq<char>) -> Seq<char> {
    match path_file_name(shell) {
        Some(n) => n,
        None => Seq::empty(),
    }
}

/// The name of shell `shell` (see `shell_name_of`).
pub fn shell_name(shell: &str) -> (r: String)
    ensures
        r@ == shell_name_of(shell@),
{
    match file_name(shell) {
        Some(n) => n,
        None => String::new(),
    }
}

/// Whether the shell has a minimal configuration of its own: zsh, bash and fish do.
pub open spec fn has_minimal_config(name: Seq<char>) -> bool {
    name == "zsh"@ || name == "bash"@ || name == "fish"@
}

/// Whether shell `name` has a minimal configuration of its own (see `has_minimal_config`).
pub fn shell_has_minimal_config(name: &str) -> (r: bool)
    ensures
        r == has_minimal_config(name@),
{
    str_eq(name, "zsh") || str_eq(name, "bash") || str_eq(name, "fish")
}

/// The name of the directory, under the temporary directory, that holds the minimal
/// configuration of shell `name` for process `pid`.
pub open spec fn config_dir_name_of(name: Seq<char>, pid: u32) -> Seq<char> {
    "kaku-native-shell-shared-"@ + name + "-"@ + decimal(pid as nat)
}

/// The name of the configuration directory of shell `name` for process `pid` (see
/// `config_dir_name_of`).
pub fn config_dir_name(name: &str, pid: u32) -> (r: String)
    ensures
        r@ == config_dir_name_of(name@, pid),
{
    let mut v = chars_of("kaku-native-shell-shared-");
    append_chars(&mut v, chars_of(name).as_slice());
    append_chars(&mut v, chars_of("-").as_slice());
    append_chars(&mut v, decimal_chars(pid as u64).as_slice());
    string_of(v.as_slice())
}

/// The file of shell `name`'s minimal configuration: the subdirectory of the configuration
/// directory it goes in (none for the directory itself), its name and its contents.
pub open spec fn config_file_of(name: Seq<char>) -> Option<(Option<Seq<char>>, Seq<char>, Seq<char>)> {
    if name == "zsh"@ {
        Some((None, ".zshrc"@, ZSH_MINIMAL_RC@))
    } else if name == "bash"@ {
        Some((None, ".bashrc"@, BASH_MINIMAL_RC@))
    } else if name == "fish"@ {
        Some((Some("fish"@), "config.fish"@, FISH_MINIMAL_RC@))
    } else {
        None
    }
}

/// The file of shell `name`'s minimal configuration (see `config_file_of`).
pub fn minimal_config_file(name: &str) -> (r: Option<(Option<&'static str>, &'static str, &'static str)>)
    ensures
        match r {
            Some((d, f, c)) => config_file_of(name@) == Some((
                match d {
                    Some(d) => Some(d@),
                    None => None,
                },
                f@,
                c@,
            )),
            None => config_file_of(name@) is None,
        },
{
    if str_eq(name, "zsh") {
        Some((None, ".zshrc", ZSH_MINIMAL_RC))
    } else if str_eq(name, "bash") {
        Some((None, ".bashrc", BASH_MINIMAL_RC))
    } else if str_eq(name, "fish") {
        Some((Some("fish"), "config.fish", FISH_MINIMAL_RC))
    } else {
        None
    }
}

/// The views of environment changes: each key with the value it is set to, or with none where
/// it is removed.
pub open spec fn env_views(env: Seq<(String, Option<String>)>) -> Seq<(Seq<char>, Option<Seq<char>>)> {
    env.map_values(|p: (String, Option<String>)| (p.0@, opt_seq(p.1)))
}

/// The configuration directory shell `name` is started with: `config_dir`, for a shell with a
/// minimal configuration.
pub open spec fn support_dir(name: Seq<char>, config_dir: Option<Seq<char>>) -> Option<Seq<char>> {
    if has_minimal_config(name) {
        config_dir
    } else {
        None
    }
}

/// The environment that points the shell at its configuration directory.
pub open spec fn config_env(name: Seq<char>, dir: Option<Seq<char>>) -> Seq<(Seq<char>, Option<Seq<char>>)> {
    match dir {
        Some(d) => if name == "zsh"@ {
            seq![("ZDOTDIR"@, Some(d))]
        } else if name == "fish"@ {
            seq![("XDG_CONFIG_HOME"@, Some(d))]
        } else {
            Seq::empty()
        },
        None => Seq::empty(),
    }
}

/// The arguments the shell is started with: an interactive shell reading its configuration
/// directory's startup file.
pub open spec fn shell_args(name: Seq<char>, dir: Option<Seq<char>>) -> Seq<Seq<char>> {
    match dir {
        Some(d) => if name == "bash"@ {
            seq!["--noprofile"@, "--rcfile"@, path_joined(d, ".bashrc"@), "-i"@]
        } else {
            seq!["-i"@]
        },
        None => Seq::empty(),
    }
}

/// The environment every terminal pane's shell gets: a 256-colour terminal with colours on and
/// no starship prompt.
pub open spec fn terminal_env() -> Seq<(Seq<char>, Option<Seq<char>>)> {
    seq![
        ("TERM"@, Some("xterm-256color"@)),
        ("CLICOLOR"@, Some("1"@)),
        ("CLICOLOR_FORCE"@, Some("1"@)),
        ("LSCOLORS"@, Some("GxFxCxDxBxegedabagaced"@)),
        ("STARSHIP_CONFIG"@, Some("/dev/null"@)),
        ("STARSHIP_SHELL"@, Some("disabled"@)),
    ]
}

/// The prompt settings of the shell: zsh and bash (and sh) get a coloured working-directory
/// prompt where no configuration of their own sets one, and the other shell's prompt variables
/// removed; any other shell gets a plain zsh-style prompt.
pub open spec fn prompt_env(name: Seq<char>, has_config: bool) -> Seq<(Seq<char>, Option<Seq<char>>)> {
    if name == "zsh"@ {
        (if has_config {
            Seq::empty()
        } else {
            seq![("PROMPT"@, Some("%F{81}%2~%f %# "@))]
        }) + seq![("RPROMPT"@, Some(Seq::empty())), ("PS1"@, None)]
    } else if name == "bash"@ || name == "sh"@ {
        (if has_config {
            Seq::empty()
        } else {
            seq![("PS1"@, Some("\\[\\e[38;5;81m\\]\\w\\[\\e[0m\\] \\$ "@))]
        }) + seq![("PROMPT"@, None), ("RPROMPT"@, None)]
    } else {
        seq![("PROMPT"@, Some("%2~ %# "@)), ("RPROMPT"@, Some(Seq::empty()))]
    }
}

/// How a terminal pane starts its shell: the environment changes in order, the arguments, and
/// the working directory.
pub struct ShellLaunchPlan {
    pub env: Vec<(String, Option<String>)>,
    pub args: Vec<String>,
    pub cwd: Option<String>,
}

/// The working directory a pane's shell starts in: the pane's, without a `file://` scheme,
/// where that leaves something.
pub open spec fn launch_cwd(cwd: Option<Seq<char>>) -> Option<Seq<char>> {
    match cwd {
        Some(c) => if without_scheme(c).len() > 0 {
            Some(without_scheme(c))
        } else {
            None
        },
        None => None,
    }
}

fn push_env(env: &mut Vec<(String, Option<String>)>, key: &str, value: Option<&str>)
    ensures
        env_views(final(env)@) == env_views(old(env)@).push(
            (
                key@,
                match value {
                    Some(v) => Some(v@),
                    None => None,
                },
            ),
        ),
{
    let ghost before = env@;
    let v = match value {
        Some(v) => Some(owned(v)),
        None => None,
    };
    env.push((owned(key), v));
    assert(env_views(env@) =~= env_views(before).push(
        (
            key@,
            match value {
                Some(v) => Some(v@),
                None => None,
            },
        ),
    ));
}

/// How shell `shell` is started in a pane whose working directory is `cwd`, with `config_dir`
/// the directory holding its minimal configuration (used only for a shell that has one): the
/// configuration's environment, the terminal's, then the prompt's; the arguments that read
/// the configuration; and the working directory.
pub fn shell_launch_plan(shell: &str, config_dir: Option<String>, cwd: Option<String>) -> (r: ShellLaunchPlan)
    ensures
        env_views(r.env@) == config_env(
            shell_name_of(shell@),
            support_dir(shell_name_of(shell@), opt_seq(config_dir)),
        ) + terminal_env() + prompt_env(
            shell_name_of(shell@),
            support_dir(shell_name_of(shell@), opt_seq(config_dir)) is Some,
        ),
        r.args@.map_values(|a: String| a@) == shell_args(
            shell_name_of(shell@),
            support_dir(shell_name_of(shell@), opt_seq(config_dir)),
        ),
        opt_seq(r.cwd) == launch_cwd(opt_seq(cwd)),
{
    let name = shell_name(shell);
    let n = name.as_str();
    let dir: Option<String> = if shell_has_minimal_config(n) {
        config_dir
    } else {
        None
    };
    let ghost d = opt_seq(dir);
    let mut env: Vec<(String, Option<String>)> = Vec::new();
    let mut args: Vec<String> = Vec::new();
    match &dir {
        Some(path) => {
            if str_eq(n, "zsh") {
                push_env(&mut env, "ZDOTDIR", Some(path.as_str()));
            } else if str_eq(n, "fish") {
                push_env(&mut env, "XDG_CONFIG_HOME", Some(path.as_str()));
            }
            if str_eq(n, "bash") {
                args.push(owned("--noprofile"));
                args.push(owned("--rcfile"));
                args.push(join_path(path.as_str(), ".bashrc"));
            }
            args.push(owned("-i"));
        },
        None => {},
    }
    assert(env_views(env@) =~= config_env(name@, d));
    assert(args@.map_values(|a: String| a@) =~= shell_args(name@, d));
    let ghost e0 = env_views(env@);
    push_env(&mut env, "TERM", Some("xterm-256color"));
    push_env(&mut env, "CLICOLOR", Some("1"));
    push_env(&mut env, "CLICOLOR_FORCE", Some("1"));
    push_env(&mut env, "LSCOLORS", Some("GxFxCxDxBxegedabagaced"));
    push_env(&mut env, "STARSHIP_CONFIG", Some("/dev/null"));
    push_env(&mut env, "STARSHIP_SHELL", Some("disabled"));
    assert(env_views(env@) =~= e0 + terminal_env());
    let ghost e1 = env_views(env@);
    let has_config = dir.is_some();
    if str_eq(n, "zsh") {
        if !has_config {
            push_env(&mut env, "PROMPT", Some("%F{81}%2~%f %# "));
        }
        push_env(&mut env, "RPROMPT", Some(""));
        push_env(&mut env, "PS1", None);
    } else if str_eq(n, "bash") || str_eq(n, "sh") {
        if !has_config {
            push_env(&mut env, "PS1", Some("\\[\\e[38;5;81m\\]\\w\\[\\e[0m\\] \\$ "));
        }
        push_env(&mut env, "PROMPT", None);
        push_env(&mut env, "RPROMPT", None);
    } else {
        push_env(&mut env, "PROMPT", Some("%2~ %# "));
        push_env(&mut env, "RPROMPT", Some(""));
    }
    proof {
        assert(""@ =~= Seq::<char>::empty()) by {
            reveal_strlit("");
        }
    }
    assert(env_views(env@) =~= e1 + prompt_env(name@, has_config));
    let cwd = match cwd {
        Some(c) => normalize_cwd(c),
        None => None,
    };
    ShellLaunchPlan { env, args, cwd }
}

} // verus!
