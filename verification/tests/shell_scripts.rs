use ctrlr::shells::{bash, fish, generate_script, generate_script_with, zsh, Shell};

#[test]
fn bash_test_generate() {
    let script = bash::generate();
    assert!(script.contains("# ctrlr integration"));
    assert!(script.contains("_ctrlr_widget"));
}

#[test]
fn bash_test_generate_records_runs() {
    let script = bash::generate();
    assert!(script.contains("_ctrlr_preexec"));
    assert!(script.contains("preexec_functions+=(_ctrlr_preexec)"));
    assert!(script.contains("v1\\t%s"));
}

#[test]
fn test_generate_does_not_export_prompt_command() {
    assert!(!bash::generate().contains("export PROMPT_COMMAND"));
}

#[test]
fn test_generate_prepends_to_prompt_command() {
    let script = bash::generate();
    assert!(script.contains(r#"PROMPT_COMMAND="_ctrlr_prompt${PROMPT_COMMAND:+; $PROMPT_COMMAND}""#));
}

#[test]
fn bash_test_generate_substitutes_log_path() {
    let script = bash::generate();
    assert!(!script.contains("{LOG}"));
    assert!(script.contains("runs.log"));
}

#[test]
fn test_generate_detects_empty_preexec_array() {
    let script = bash::generate();
    assert!(script.contains("declare -p preexec_functions"));
    assert!(!script.contains("${preexec_functions+x}"));
}

#[test]
fn test_generate_has_no_debug_trap() {
    assert!(!bash::generate().contains("trap "));
}

#[test]
fn bash_test_generate_has_end_marker() {
    assert!(bash::generate().contains("# ctrlr integration end"));
}

#[test]
fn bash_test_is_installed() {
    assert!(bash::is_installed("# ctrlr integration\nfoo"));
    assert!(!bash::is_installed("# other integration\nfoo"));
}

#[test]
fn bash_test_is_up_to_date() {
    let script = bash::generate();
    assert!(bash::is_up_to_date(&script));
    assert!(!bash::is_up_to_date("other stuff"));
}

#[test]
fn zsh_test_generate() {
    let script = zsh::generate();
    assert!(script.contains("# ctrlr integration"));
    assert!(script.contains("_ctrlr_widget"));
}

#[test]
fn zsh_test_generate_records_runs() {
    let script = zsh::generate();
    assert!(script.contains("add-zsh-hook preexec _ctrlr_preexec"));
    assert!(script.contains("precmd_functions=(_ctrlr_precmd"));
    assert!(script.contains("v1$t$EPOCHSECONDS"));
}

#[test]
fn zsh_test_generate_substitutes_log_path() {
    let script = zsh::generate();
    assert!(!script.contains("{LOG}"));
    assert!(script.contains("runs.log"));
}

#[test]
fn test_generate_uses_add_zsh_hook_not_bare_functions() {
    let script = zsh::generate();
    assert!(!script.contains("\npreexec()"));
    assert!(!script.contains("\nprecmd()"));
}

#[test]
fn zsh_test_generate_has_end_marker() {
    assert!(zsh::generate().contains("# ctrlr integration end"));
}

#[test]
fn zsh_test_is_installed() {
    assert!(zsh::is_installed("# ctrlr integration\nfoo"));
    assert!(!zsh::is_installed("# other integration\nfoo"));
}

#[test]
fn zsh_test_is_up_to_date() {
    let script = zsh::generate();
    assert!(zsh::is_up_to_date(&script));
    assert!(!zsh::is_up_to_date("other stuff"));
}

#[test]
fn fish_test_generate() {
    let script = fish::generate();
    assert!(script.contains("# ctrlr integration"));
    assert!(script.contains("_ctrlr_widget"));
}

#[test]
fn fish_test_generate_records_runs() {
    let script = fish::generate();
    assert!(script.contains("--on-event fish_preexec"));
    assert!(script.contains("--on-event fish_postexec"));
    assert!(script.contains("printf 'v1\\t%s"));
}

#[test]
fn fish_test_generate_substitutes_log_path() {
    let script = fish::generate();
    assert!(!script.contains("{LOG}"));
    assert!(script.contains("runs.log"));
}

#[test]
fn fish_test_generate_has_end_marker() {
    assert!(fish::generate().contains("# ctrlr integration end"));
}

#[test]
fn fish_test_is_installed() {
    assert!(fish::is_installed("# ctrlr integration\nfoo"));
    assert!(!fish::is_installed("# other integration\nfoo"));
}

#[test]
fn fish_test_is_up_to_date() {
    let script = fish::generate();
    assert!(fish::is_up_to_date(&script));
    assert!(!fish::is_up_to_date("other stuff"));
}

fn powershell() -> String {
    generate_script(Shell::PowerShell)
}

#[test]
fn powershell_test_generate_substitutes_log_path() {
    let script = powershell();
    assert!(!script.contains("{LOG}"));
    assert!(script.contains("runs.log"));
}

#[test]
fn powershell_test_generate_records_runs() {
    let script = powershell();
    assert!(script.contains("AddToHistoryHandler"));
    assert!(script.contains("function global:prompt"));
    assert!(script.contains("v1`t$ts`t$ret`t$host_`t$cwd`t$cmd"));
}

#[test]
fn test_generate_guards_against_re_sourcing() {
    assert!(powershell().contains("if (-not $global:_ctrlrInstalled)"));
}

#[test]
fn test_generate_writes_utf8_without_the_cmdlets() {
    let script = powershell();
    assert!(script.contains("UTF8Encoding"));
    assert!(!script.contains("Out-File"));
    assert!(!script.contains("Add-Content"));
}

#[test]
fn test_generate_chains_the_history_handler() {
    let script = powershell();
    assert!(script.contains("$global:_ctrlrPrevHistory.Invoke($line)"));
    assert!(script.contains("-eq 'MemoryAndFile'"));
}

#[test]
fn test_generate_uses_a_portable_host_name() {
    let script = powershell();
    assert!(script.contains("[Environment]::MachineName"));
    assert!(!script.contains("COMPUTERNAME"));
}

#[test]
fn test_generate_opens_the_log_shared() {
    let script = powershell();
    assert!(script.contains("[System.IO.FileShare]::ReadWrite"));
    assert!(script.contains("[System.IO.FileShare]::Delete"));
}

#[test]
fn test_generate_ends_with_the_marker() {
    assert!(powershell().trim_end().ends_with("# ctrlr integration end"));
}

#[test]
fn shell_scripts_substitute_every_placeholder_with_the_given_log() {
    for shell in Shell::all() {
        let script = generate_script_with(shell, "/var/lib/ctrlr/runs.log");
        assert!(script.contains("/var/lib/ctrlr/runs.log"), "{:?}", shell);
        assert!(!script.contains("{LOG}"), "{:?}", shell);
    }
}
