use kaku::shell_launch::{
    config_dir_name, minimal_config_file, shell_has_minimal_config, shell_launch_plan, shell_name,
    BASH_MINIMAL_RC, FISH_MINIMAL_RC, ZSH_MINIMAL_RC,
};

fn env(pairs: &[(&str, Option<&str>)]) -> Vec<(String, Option<String>)> {
    pairs.iter().map(|(k, v)| (k.to_string(), v.map(str::to_string))).collect()
}

const TERMINAL_ENV: [(&str, Option<&str>); 6] = [
    ("TERM", Some("xterm-256color")),
    ("CLICOLOR", Some("1")),
    ("CLICOLOR_FORCE", Some("1")),
    ("LSCOLORS", Some("GxFxCxDxBxegedabagaced")),
    ("STARSHIP_CONFIG", Some("/dev/null")),
    ("STARSHIP_SHELL", Some("disabled")),
];

fn with_terminal_env(before: &[(&str, Option<&str>)], after: &[(&str, Option<&str>)]) -> Vec<(String, Option<String>)> {
    let mut all = env(before);
    all.extend(env(&TERMINAL_ENV));
    all.extend(env(after));
    all
}

#[test]
fn shell_names_and_their_configurations() {
    assert_eq!(shell_name("/bin/zsh"), "zsh");
    assert_eq!(shell_name("/usr/local/bin/fish"), "fish");
    assert_eq!(shell_name("/"), "");
    assert!(shell_has_minimal_config("bash"));
    assert!(!shell_has_minimal_config("sh"));
    assert_eq!(config_dir_name("zsh", 4242), "kaku-native-shell-shared-zsh-4242");
    assert_eq!(minimal_config_file("zsh"), Some((None, ".zshrc", ZSH_MINIMAL_RC)));
    assert_eq!(minimal_config_file("bash"), Some((None, ".bashrc", BASH_MINIMAL_RC)));
    assert_eq!(minimal_config_file("fish"), Some((Some("fish"), "config.fish", FISH_MINIMAL_RC)));
    assert_eq!(minimal_config_file("nu"), None);
    assert!(ZSH_MINIMAL_RC.starts_with("unsetopt beep\n"));
    assert!(ZSH_MINIMAL_RC.contains("printf '\\033]2;kaku-status:%s:%s\\007' \"$exit_code\" \"$PWD\""));
    assert!(BASH_MINIMAL_RC.ends_with("PS1='\\[\\e[38;5;81m\\]\\w\\[\\e[0m\\] \\$ '\n"));
    assert!(FISH_MINIMAL_RC.contains("function fish_prompt\n"));
}

#[test]
fn zsh_reads_its_configuration_directory() {
    let plan = shell_launch_plan("/bin/zsh", Some("/tmp/cfg".to_string()), Some("file:///work".to_string()));
    assert_eq!(
        plan.env,
        with_terminal_env(&[("ZDOTDIR", Some("/tmp/cfg"))], &[("RPROMPT", Some("")), ("PS1", None)])
    );
    assert_eq!(plan.args, vec!["-i"]);
    assert_eq!(plan.cwd.as_deref(), Some("/work"));

    let bare = shell_launch_plan("/bin/zsh", None, Some("file://".to_string()));
    assert_eq!(
        bare.env,
        with_terminal_env(&[], &[("PROMPT", Some("%F{81}%2~%f %# ")), ("RPROMPT", Some("")), ("PS1", None)])
    );
    assert!(bare.args.is_empty());
    assert_eq!(bare.cwd, None);
}

#[test]
fn bash_sh_fish_and_others_get_their_prompts() {
    let bash = shell_launch_plan("/bin/bash", Some("/tmp/b".to_string()), None);
    assert_eq!(bash.env, with_terminal_env(&[], &[("PROMPT", None), ("RPROMPT", None)]));
    assert_eq!(bash.args, vec!["--noprofile", "--rcfile", "/tmp/b/.bashrc", "-i"]);
    assert_eq!(bash.cwd, None);

    let sh = shell_launch_plan("/bin/sh", Some("/ignored".to_string()), Some("/srv".to_string()));
    assert_eq!(
        sh.env,
        with_terminal_env(
            &[],
            &[("PS1", Some("\\[\\e[38;5;81m\\]\\w\\[\\e[0m\\] \\$ ")), ("PROMPT", None), ("RPROMPT", None)]
        )
    );
    assert!(sh.args.is_empty());
    assert_eq!(sh.cwd.as_deref(), Some("/srv"));

    let fish = shell_launch_plan("/usr/bin/fish", Some("/tmp/f".to_string()), None);
    assert_eq!(
        fish.env,
        with_terminal_env(&[("XDG_CONFIG_HOME", Some("/tmp/f"))], &[("PROMPT", Some("%2~ %# ")), ("RPROMPT", Some(""))])
    );
    assert_eq!(fish.args, vec!["-i"]);

    let nu = shell_launch_plan("/usr/bin/nu", Some("/tmp/n".to_string()), None);
    assert_eq!(nu.env, with_terminal_env(&[], &[("PROMPT", Some("%2~ %# ")), ("RPROMPT", Some(""))]));
    assert!(nu.args.is_empty());
}
