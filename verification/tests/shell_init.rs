use rsime::dirs::{default_user_data_dir, plum_dir, user_data_dir};
use rsime::shell::{
    bash_binding, fish_binding, install_targets, shell_bind_script, shell_context, zsh_binding, zsh_key,
    BindError, ShellKind,
};

fn shell_init_stdout(shell: &str) -> String {
    shell_bind_script(shell, Some(r"\ei")).unwrap()
}

#[test]
fn no_shell_context_env_vars_in_any_binding() {
    for shell in ["bash", "zsh", "fish"] {
        let out = shell_init_stdout(shell);
        for var in [
            "RSIME_PROMPT",
            "RSIME_RESTORE_PROMPT",
            "RSIME_READLINE_LINE",
            "RSIME_READLINE_POINT",
        ] {
            assert!(
                !out.contains(var),
                "{shell} binding must not reference {var}, got:\n{out}"
            );
        }
    }
}

#[test]
fn bash_binding_splices_output_at_cursor() {
    let out = shell_init_stdout("bash");
    assert!(out.contains("bind -x"), "bash binding should use bind -x, got:\n{out}");
    assert!(out.contains("rsime tui"), "bash binding should run rsime tui, got:\n{out}");
    assert!(
        out.contains(r#"READLINE_LINE="${READLINE_LINE:0:$READLINE_POINT}$output${READLINE_LINE:$READLINE_POINT}""#),
        "bash binding should splice $output at $READLINE_POINT, got:\n{out}"
    );
    assert!(
        out.contains("READLINE_POINT=$(( READLINE_POINT + ${#output} ))"),
        "bash binding should advance READLINE_POINT, got:\n{out}"
    );
}

#[test]
fn zsh_binding_appends_to_lbuffer() {
    let out = shell_init_stdout("zsh");
    assert!(out.contains("zle -N"), "zsh binding should register a widget, got:\n{out}");
    assert!(out.contains("rsime tui"), "zsh binding should run rsime tui, got:\n{out}");
    assert!(
        out.contains(r#"LBUFFER+="$output""#),
        "zsh binding should append $output to LBUFFER, got:\n{out}"
    );
    assert!(
        out.contains("zle reset-prompt"),
        "zsh binding should call zle reset-prompt, got:\n{out}"
    );
}

#[test]
fn fish_binding_inserts_via_commandline_and_repaints() {
    let out = shell_init_stdout("fish");
    assert!(out.contains("rsime tui"), "fish binding should run rsime tui, got:\n{out}");
    assert!(
        out.contains(r#"commandline --insert "$output""#),
        "fish binding should insert $output via commandline --insert, got:\n{out}"
    );
    assert!(
        out.contains("commandline -f repaint"),
        "fish binding must end with `commandline -f repaint`, got:\n{out}"
    );
}

#[test]
fn bindings_use_the_key() {
    assert!(bash_binding(r"\C-q").ends_with("bind -x '\"\\C-q\": rsime-widget'"));
    assert!(zsh_binding(r"\ei").ends_with("bindkey '^[i' rsime-widget"));
    assert!(fish_binding(r"\c-q").starts_with("# rsime TUI keybinding\nbind \\cq 'rsime tui"));
    assert!(shell_init_stdout("fish").contains("bind \\ei 'rsime tui"));
    assert!(shell_bind_script("fish", Some(r"\C-Q")).unwrap().contains("bind \\cq 'rsime tui"));
    // no key given: \ei
    assert_eq!(shell_bind_script("bash", None).unwrap(), bash_binding(r"\ei"));
}

#[test]
fn zsh_key_translation() {
    let s = |k: &str| zsh_key(k).into_iter().collect::<String>();
    assert_eq!(s(r"\C-q"), "^q");
    assert_eq!(s(r"\ei"), "^[i");
    assert_eq!(s(r"\e\C-x"), "^[^x");
    assert_eq!(s(r"a\b"), "ab");
    assert_eq!(s("x"), "x");
}

#[test]
fn unsupported_shells() {
    assert_eq!(shell_bind_script("tcsh", None), Err(BindError::UnsupportedShell));
    assert_eq!(shell_bind_script("Bash", None), Err(BindError::UnsupportedShell));
    assert_eq!(
        shell_bind_script("elvish", None),
        Err(BindError::NoKeybinding(ShellKind::Elvish))
    );
    assert_eq!(
        shell_bind_script("powershell", None),
        Err(BindError::NoKeybinding(ShellKind::PowerShell))
    );
    for k in [ShellKind::Bash, ShellKind::Elvish, ShellKind::Fish, ShellKind::PowerShell, ShellKind::Zsh] {
        assert_eq!(ShellKind::from_name(k.name()), Some(k));
    }
}

#[test]
fn shell_context_from_binding_variables() {
    assert_eq!(shell_context(None, Some("p> "), Some("3")), None);
    assert_eq!(shell_context(Some(""), Some("p> "), None), Some((String::new(), 0)));
    assert_eq!(shell_context(Some(""), Some(""), None), None);
    assert_eq!(shell_context(Some(""), None, None), None);
    assert_eq!(shell_context(Some("cd 目录"), None, Some("2")), Some(("cd 目录".to_string(), 2)));
    assert_eq!(shell_context(Some("cd 目录"), None, Some("x")), Some(("cd 目录".to_string(), 5)));
    assert_eq!(shell_context(Some("ls"), None, None), Some(("ls".to_string(), 2)));
    assert_eq!(shell_context(Some("ls"), None, Some("+7")), Some(("ls".to_string(), 7)));
}

#[test]
fn install_defaults_to_preset() {
    assert_eq!(install_targets(&vec![]), vec![":preset".to_string()]);
    let p = vec!["double-pinyin".to_string(), "emoji".to_string()];
    assert_eq!(install_targets(&p), p);
}

#[test]
fn data_directories() {
    assert_eq!(default_user_data_dir(Some("/home/u")), "/home/u/.config/rsime");
    assert_eq!(default_user_data_dir(Some("/home/u/")), "/home/u/.config/rsime");
    assert_eq!(default_user_data_dir(None), "/tmp/.config/rsime");
    assert_eq!(default_user_data_dir(Some("")), ".config/rsime");
    assert_eq!(user_data_dir(Some("/data/rime"), Some("/home/u")), "/data/rime");
    assert_eq!(user_data_dir(None, Some("/home/u")), "/home/u/.config/rsime");
    assert_eq!(plum_dir(Some("/root")), "/root/.config/rsime-plum");
    let p = std::path::PathBuf::from("/home/u/").join(".config").join("rsime");
    assert_eq!(p.to_string_lossy(), default_user_data_dir(Some("/home/u/")));
}
