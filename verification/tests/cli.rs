use ctrlr::cli::{
    get_export_output_path, get_import_input_path, get_output_file_flag, get_shell_flag, help_text,
    help_text_for, init_help_text, subcommand, version_line, ShellFlagError,
};
use ctrlr::shells::{generate_script, integration_state, IntegrationState, Shell};

#[test]
fn test_version_line_is_name_and_semver() {
    let line = version_line();
    let (name, version) = line.split_once(' ').expect("name and version");
    assert_eq!(name, "ctrlr");
    assert_eq!(version.split('.').count(), 3, "expected a semver triple, got {version}");
}

const LEGACY_BASH: &str = "# ctrlr integration
export PROMPT_COMMAND=\"${PROMPT_COMMAND:+$PROMPT_COMMAND; } history -a\"
bind -x '\"\\C-r\": _ctrlr_widget'";

#[test]
fn test_integration_state_missing() {
    assert_eq!(integration_state(Shell::Bash, "export FOO=1"), IntegrationState::Missing);
}

#[test]
fn test_integration_state_outdated() {
    assert_eq!(integration_state(Shell::Bash, LEGACY_BASH), IntegrationState::Outdated);
}

#[test]
fn test_integration_state_current() {
    let installed = generate_script(Shell::Bash);
    assert_eq!(integration_state(Shell::Bash, &installed), IntegrationState::Current);
}

#[test]
fn test_integration_state_per_shell() {
    for shell in Shell::all() {
        let installed = generate_script(shell);
        assert_eq!(
            integration_state(shell, &installed),
            IntegrationState::Current,
            "{:?} reports its own script as current",
            shell
        );
    }
}

fn argv(args: &[&str]) -> Vec<String> {
    args.iter().map(|s| s.to_string()).collect()
}

#[test]
fn test_subcommand_ignores_leading_flags() {
    assert_eq!(subcommand(&argv(&["ctrlr"])), None);
    assert_eq!(subcommand(&argv(&["ctrlr", "--help"])), None);
    assert_eq!(subcommand(&argv(&["ctrlr", "-o", "/tmp/cmd"])), None);
    assert_eq!(subcommand(&argv(&["ctrlr", "init", "--help"])), Some("init"));
}

#[test]
fn test_help_follows_the_subcommand() {
    for sub in ["init", "config", "export", "import"] {
        let text = help_text_for(Some(sub));
        assert!(
            text.starts_with(&format!("ctrlr {} - ", sub)),
            "{} --help answered with:\n{}",
            sub,
            text
        );
    }
    assert_eq!(help_text_for(None), help_text());
    assert_eq!(help_text_for(Some("nonesuch")), help_text());
}

#[test]
fn test_init_help_lists_every_shell() {
    let text = init_help_text();
    for shell in Shell::all() {
        assert!(text.contains(shell.display_name()), "{:?} is missing from the init help", shell);
    }
}

#[test]
fn test_shell_flag_distinguishes_absent_unknown_and_missing() {
    assert_eq!(get_shell_flag(&argv(&["ctrlr", "init"])), Ok(None));
    assert_eq!(
        get_shell_flag(&argv(&["ctrlr", "init", "--shell", "powershell"])),
        Ok(Some(Shell::PowerShell))
    );
    assert_eq!(
        get_shell_flag(&argv(&["ctrlr", "init", "--shell", "quatsch"])),
        Err(ShellFlagError::Unknown("quatsch".to_string()))
    );
    assert_eq!(get_shell_flag(&argv(&["ctrlr", "init", "--shell"])), Err(ShellFlagError::Missing));
}

#[test]
fn test_shell_flag_error_lists_the_supported_shells() {
    let message = ShellFlagError::Unknown("quatsch".to_string()).message();
    for shell in Shell::all() {
        assert!(message.contains(shell.display_name()), "{:?} is missing from the error", shell);
    }
}

#[test]
fn cli_output_file_flag_takes_the_next_argument() {
    assert_eq!(get_output_file_flag(&argv(&["ctrlr", "-o", "/tmp/cmd"])), Some("/tmp/cmd".to_string()));
    assert_eq!(
        get_output_file_flag(&argv(&["ctrlr", "--output-file", "/tmp/x"])),
        Some("/tmp/x".to_string())
    );
    assert_eq!(get_output_file_flag(&argv(&["ctrlr", "-o"])), None);
    assert_eq!(get_output_file_flag(&argv(&["ctrlr"])), None);
}

#[test]
fn cli_export_and_import_paths() {
    let export = get_export_output_path(&argv(&["ctrlr", "export", "out.json"]));
    assert_eq!(export, Some("out.json".to_string()));
    assert_eq!(get_export_output_path(&argv(&["ctrlr", "export", "--help"])), None);
    assert_eq!(get_export_output_path(&argv(&["ctrlr", "export"])), None);
    let import = get_import_input_path(&argv(&["ctrlr", "import", "in.json"]));
    assert_eq!(import, Some("in.json".to_string()));
    assert_eq!(get_import_input_path(&argv(&["ctrlr", "import", "-x"])), None);
}

#[test]
fn cli_missing_shell_message_names_the_flag() {
    let message = ShellFlagError::Missing.message();
    assert!(message.contains("--shell"), "{}", message);
}
