use ctrlr::shells::{
    detect_integration_state, detect_or_default, generate_script, integration_state, is_installed,
    is_up_to_date, reload_command, script_fingerprint, IntegrationState, Shell, END_MARKER,
    START_MARKER,
};

#[test]
fn test_an_empty_config_reports_missing() {
    for shell in [Shell::Bash, Shell::Zsh, Shell::Fish] {
        assert_eq!(
            integration_state(shell, ""),
            IntegrationState::Missing,
            "{:?} with no config yet still gets the offer",
            shell
        );
    }
}

#[test]
fn test_all_lists_every_variant() {
    fn exhaustive(shell: Shell) -> usize {
        match shell {
            Shell::Bash => 0,
            Shell::Zsh => 1,
            Shell::Fish => 2,
            Shell::PowerShell => 3,
        }
    }
    assert_eq!(Shell::all().len(), 4);
    for (i, shell) in Shell::all().into_iter().enumerate() {
        assert_eq!(exhaustive(shell), i, "{:?} is out of order in all()", shell);
    }
}

#[test]
fn test_from_str_round_trips_every_display_name() {
    for shell in Shell::all() {
        assert_eq!(Shell::from_str(shell.display_name()), Some(shell));
        assert_eq!(Shell::from_str(&shell.display_name().to_uppercase()), Some(shell));
    }
    assert_eq!(Shell::from_str("nonesuch"), None);
}

#[test]
fn test_is_installed_and_up_to_date_per_shell() {
    for shell in Shell::all() {
        let script = generate_script(shell);
        assert!(is_installed(shell, &script));
        assert!(is_up_to_date(shell, &script));
        assert!(!is_installed(shell, "# other integration\nfoo"));
        assert!(!is_up_to_date(shell, "other stuff"));
    }
}

#[test]
fn test_every_script_carries_both_markers() {
    for shell in Shell::all() {
        let script = generate_script(shell);
        assert!(script.starts_with(START_MARKER), "{:?} start marker", shell);
        assert!(script.trim_end().ends_with(END_MARKER), "{:?} end marker", shell);
        assert!(!script.contains("{LOG}"), "{:?} still has the placeholder", shell);
    }
}

#[test]
fn test_flush_argv_names_the_shell_itself() {
    for shell in Shell::all() {
        match shell.flush_argv() {
            Some((program, _)) => assert_eq!(program, shell.display_name()),
            None => assert_eq!(shell, Shell::PowerShell),
        }
    }
}

#[test]
fn test_ctrlr_shell_overrides_everything_else() {
    for shell in Shell::all() {
        let name = shell.display_name();
        assert_eq!(Shell::detect_from(Some(name), true, Some("/bin/zsh"), false), Some(shell));
    }
    assert_eq!(Shell::detect_from(Some("nonesuch"), false, Some("/bin/zsh"), false), None);
}

#[test]
fn test_ps_module_path_wins_over_shell_on_unix() {
    assert_eq!(Shell::detect_from(None, true, Some("/bin/bash"), false), Some(Shell::PowerShell));
    assert_eq!(
        Shell::detect_from(None, true, Some("/bin/bash"), true),
        Some(Shell::Bash),
        "machine-wide on Windows"
    );
}

#[test]
fn test_shell_basename_is_used_when_nothing_else_applies() {
    assert_eq!(Shell::detect_from(None, false, Some("/bin/zsh"), false), Some(Shell::Zsh));
    assert_eq!(Shell::detect_from(None, false, Some("/usr/bin/fish"), false), Some(Shell::Fish));
    assert_eq!(Shell::detect_from(None, false, Some("/bin/nonesuch"), false), None);
}

#[test]
fn test_unset_shell() {
    assert_eq!(Shell::detect_from(None, false, None, false), None);
    assert_eq!(Shell::detect_from(None, false, None, true), Some(Shell::PowerShell));
}

#[test]
fn shells_aliases_include_the_display_name() {
    for shell in Shell::all() {
        assert!(shell.aliases().contains(&shell.display_name()));
    }
    assert_eq!(Shell::from_str("pwsh"), Some(Shell::PowerShell));
}

#[test]
fn shells_detect_or_default_falls_back_per_platform() {
    assert_eq!(detect_or_default(Some(Shell::Fish), false), Shell::Fish);
    assert_eq!(detect_or_default(None, false), Shell::Bash);
    assert_eq!(detect_or_default(None, true), Shell::PowerShell);
}

#[test]
fn shells_detect_integration_state_reads_a_missing_config_as_empty() {
    assert_eq!(
        detect_integration_state(Some(Shell::Bash), Some(None)),
        Some((Shell::Bash, IntegrationState::Missing))
    );
    assert_eq!(detect_integration_state(Some(Shell::Bash), None), None);
    assert_eq!(detect_integration_state(None, Some(Some(String::new()))), None);
    let script = generate_script(Shell::Zsh);
    assert_eq!(
        detect_integration_state(Some(Shell::Zsh), Some(Some(script))),
        Some((Shell::Zsh, IntegrationState::Current))
    );
}

#[test]
fn shells_reload_command_per_shell() {
    assert_eq!(reload_command(Shell::Bash), "exec bash");
    assert_eq!(reload_command(Shell::Zsh), "exec zsh");
    assert_eq!(reload_command(Shell::Fish), "exec fish");
    assert_eq!(reload_command(Shell::PowerShell), ". $PROFILE");
}

#[test]
fn shells_fingerprint_is_a_sha1_of_the_script() {
    let f = script_fingerprint(Shell::Bash);
    assert_eq!(f.len(), 40);
    assert_ne!(f, script_fingerprint(Shell::Zsh));
}

#[test]
fn shells_file_name_takes_the_last_component() {
    assert_eq!(ctrlr::shells::file_name("/usr/local/bin/zsh"), Some("zsh".to_string()));
    assert_eq!(ctrlr::shells::file_name("/usr/bin/"), Some("bin".to_string()));
    assert_eq!(ctrlr::shells::file_name("/"), None);
}

#[test]
fn shells_every_alias_names_its_shell_in_any_case() {
    for shell in Shell::all() {
        for alias in shell.aliases() {
            assert_eq!(Shell::from_str(alias), Some(shell));
            assert_eq!(Shell::from_str(&alias.to_uppercase()), Some(shell));
        }
    }
    assert_eq!(Shell::from_str("sh"), None);
    assert_eq!(Shell::from_str("pwshell"), None);
}

#[test]
fn shells_a_current_block_also_counts_as_installed() {
    for shell in Shell::all() {
        let config = format!("export X=1\n{}\nalias l=ls\n", generate_script(shell));
        assert!(is_up_to_date(shell, &config));
        assert!(is_installed(shell, &config));
    }
}
