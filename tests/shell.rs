use responses_api_proxy::shell::{
    extract_shell_script, looks_like_shell_wrapper, shell_for_account, split_cd_prefix_from_tokens,
    strip_bash_lc, tokens_after_first_command, BashShell, PowerShellConfig, Shell, ZshShell,
};

fn words(ws: &[&str]) -> Vec<String> {
    ws.iter().map(|s| s.to_string()).collect()
}

#[test]
fn test_format_default_shell_invocation_powershell() {
    let cases = vec![
        (
            Shell::PowerShell(PowerShellConfig {
                exe: "pwsh.exe".to_string(),
                bash_exe_fallback: None,
            }),
            vec!["bash", "-lc", "echo hello"],
            vec!["pwsh.exe", "-NoProfile", "-Command", "echo hello"],
        ),
        (
            Shell::PowerShell(PowerShellConfig {
                exe: "powershell.exe".to_string(),
                bash_exe_fallback: None,
            }),
            vec!["bash", "-lc", "echo hello"],
            vec!["powershell.exe", "-NoProfile", "-Command", "echo hello"],
        ),
        (
            Shell::PowerShell(PowerShellConfig {
                exe: "pwsh.exe".to_string(),
                bash_exe_fallback: Some("bash.exe".to_string()),
            }),
            vec!["bash", "-lc", "echo hello"],
            vec!["bash.exe", "-lc", "echo hello"],
        ),
        (
            Shell::PowerShell(PowerShellConfig {
                exe: "pwsh.exe".to_string(),
                bash_exe_fallback: Some("bash.exe".to_string()),
            }),
            vec![
                "bash",
                "-lc",
                "apply_patch <<'EOF'\n*** Begin Patch\n*** Update File: destination_file.txt\n-original content\n+modified content\n*** End Patch\nEOF",
            ],
            vec![
                "bash.exe",
                "-lc",
                "apply_patch <<'EOF'\n*** Begin Patch\n*** Update File: destination_file.txt\n-original content\n+modified content\n*** End Patch\nEOF",
            ],
        ),
        (
            Shell::PowerShell(PowerShellConfig {
                exe: "pwsh.exe".to_string(),
                bash_exe_fallback: Some("bash.exe".to_string()),
            }),
            vec!["echo", "hello"],
            vec!["pwsh.exe", "-NoProfile", "-Command", "echo hello"],
        ),
        (
            Shell::PowerShell(PowerShellConfig {
                exe: "pwsh.exe".to_string(),
                bash_exe_fallback: Some("bash.exe".to_string()),
            }),
            vec!["pwsh.exe", "-NoProfile", "-Command", "echo hello"],
            vec!["pwsh.exe", "-NoProfile", "-Command", "echo hello"],
        ),
        (
            Shell::PowerShell(PowerShellConfig {
                exe: "powershell.exe".to_string(),
                bash_exe_fallback: Some("bash.exe".to_string()),
            }),
            vec![
                "codex-mcp-server.exe",
                "--codex-run-as-apply-patch",
                "*** Begin Patch\n*** Update File: C:\\Users\\person\\destination_file.txt\n-original content\n+modified content\n*** End Patch",
            ],
            vec![
                "codex-mcp-server.exe",
                "--codex-run-as-apply-patch",
                "*** Begin Patch\n*** Update File: C:\\Users\\person\\destination_file.txt\n-original content\n+modified content\n*** End Patch",
            ],
        ),
    ];

    for (shell, input, expected_cmd) in cases {
        let actual_cmd = shell.format_default_shell_invocation(
            input.iter().map(|s| s.to_string()).collect(),
            false,
        );
        assert_eq!(
            actual_cmd,
            Some(expected_cmd.iter().map(|s| s.to_string()).collect())
        );
    }
}

#[test]
fn zsh_invocation_sources_rc_when_present() {
    let zsh = Shell::Zsh(ZshShell {
        shell_path: "/bin/zsh".to_string(),
        zshrc_path: "/home/u/.zshrc".to_string(),
    });
    assert_eq!(
        zsh.format_default_shell_invocation(words(&["ls", "-la"]), true),
        Some(words(&["/bin/zsh", "-lc", "source /home/u/.zshrc && (ls -la)"]))
    );
    assert_eq!(
        zsh.format_default_shell_invocation(words(&["bash", "-lc", "echo 'a b'"]), false),
        Some(words(&["/bin/zsh", "-lc", "echo 'a b'"]))
    );
    assert_eq!(
        zsh.format_default_shell_invocation(words(&["echo", "a b"]), false),
        Some(words(&["/bin/zsh", "-lc", "echo 'a b'"]))
    );
    assert_eq!(
        zsh.format_default_shell_invocation(words(&["echo", "a\0b"]), false),
        None
    );
    assert_eq!(
        Shell::Unknown.format_default_shell_invocation(words(&["ls"]), true),
        None
    );
}

#[test]
fn shell_names() {
    let zsh = Shell::Zsh(ZshShell {
        shell_path: "/usr/bin/zsh".to_string(),
        zshrc_path: "/home/u/.zshrc".to_string(),
    });
    assert_eq!(zsh.name(), Some("zsh".to_string()));
    let bash = Shell::Bash(BashShell {
        shell_path: "/bin/bash/".to_string(),
        bashrc_path: "/home/u/.bashrc".to_string(),
    });
    assert_eq!(bash.name(), Some("bash".to_string()));
    let odd = Shell::Bash(BashShell {
        shell_path: "/bin/..".to_string(),
        bashrc_path: String::new(),
    });
    assert_eq!(odd.name(), None);
    let ps = Shell::PowerShell(PowerShellConfig {
        exe: "pwsh.exe".to_string(),
        bash_exe_fallback: None,
    });
    assert_eq!(ps.name(), Some("pwsh.exe".to_string()));
    assert_eq!(Shell::Unknown.name(), None);
}

#[test]
fn bash_lc_scripts() {
    assert_eq!(
        strip_bash_lc(&words(&["bash", "-lc", "echo hi"])),
        Some("echo hi".to_string())
    );
    assert_eq!(strip_bash_lc(&words(&["bash", "-c", "echo hi"])), None);
    assert_eq!(strip_bash_lc(&words(&["bash", "-lc"])), None);
}

#[test]
fn shell_wrappers_and_scripts() {
    assert!(looks_like_shell_wrapper("/bin/bash"));
    assert!(looks_like_shell_wrapper("sh"));
    assert!(looks_like_shell_wrapper("/usr/local/bin/zsh"));
    assert!(!looks_like_shell_wrapper("/usr/bin/python"));
    let cmd = words(&["/bin/sh", "-c", "cd foo && ls"]);
    assert_eq!(extract_shell_script(&cmd), Some((2, "cd foo && ls")));
    assert_eq!(extract_shell_script(&words(&["python", "-c", "x"])), None);
}

#[test]
fn cd_prefix_tokens() {
    assert_eq!(
        split_cd_prefix_from_tokens(&words(&["cd", "foo", "&&", "git", "status"])),
        Some(("foo".to_string(), words(&["git", "status"])))
    );
    assert_eq!(
        split_cd_prefix_from_tokens(&words(&["cd", "foo", "&&", "cd", "bar"])),
        None
    );
    assert_eq!(
        split_cd_prefix_from_tokens(&words(&["cd", "foo", "||", "ls"])),
        None
    );
    assert_eq!(split_cd_prefix_from_tokens(&words(&["cd", "foo", "&&"])), None);
    assert_eq!(
        tokens_after_first_command(&words(&["cd", "foo", "&&", "echo", "a && b"])),
        Some(words(&["echo", "a && b"]))
    );
    assert_eq!(tokens_after_first_command(&words(&["ls", "&&"])), None);
    assert_eq!(tokens_after_first_command(&words(&["ls"])), None);
}

#[test]
fn account_shells() {
    assert_eq!(
        shell_for_account("/bin/zsh".to_string(), "/home/u"),
        Shell::Zsh(ZshShell {
            shell_path: "/bin/zsh".to_string(),
            zshrc_path: "/home/u/.zshrc".to_string(),
        })
    );
    assert_eq!(
        shell_for_account("/usr/bin/bash".to_string(), "/root"),
        Shell::Bash(BashShell {
            shell_path: "/usr/bin/bash".to_string(),
            bashrc_path: "/root/.bashrc".to_string(),
        })
    );
    assert_eq!(
        shell_for_account("/bin/fish".to_string(), "/root"),
        Shell::Unknown
    );
}
