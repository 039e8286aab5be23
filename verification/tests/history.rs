use ctrlr::history::runs::{ingest_path, parse_run_line, parse_runs, unescape as unescape_run};
use ctrlr::history::zsh::parse_zsh_line;
use ctrlr::history::{bash, fish, powershell, zsh, HistoryEntry};

const FISH_SAMPLE: &str = r#"- cmd: echo hello
  when: 1790193955
- cmd: git commit -m "fix: thing"
  when: 1790193956
- cmd: echo a:b
  when: 1790193957
- cmd: cat /etc/hostname
  when: 1790193958
  paths:
    - /etc/hostname
- cmd: for i in 1 2 3\necho $i\nend
  when: 1790193958
- cmd: echo back\\\\slash
  when: 1790193959
- cmd: echo "Gruesse aus Muenchen -- ae oe ue"
  when: 1790193960
- cmd: echo hello
  when: 1790193961
- cmd: echo 'single #quoted'
  when: 1790193962
- cmd: exit
  when: 1790193962
"#;

#[test]
fn test_unescape_leaves_a_non_escape_alone() {
    assert_eq!(fish::unescape(r"echo a\tb"), r"echo a\tb");
    assert_eq!(fish::unescape(r"echo trailing\"), r"echo trailing\");
}

#[test]
fn test_unescape_round_trips_a_literal_backslash_n() {
    assert_eq!(fish::unescape(r"echo 'a\\nb'"), r"echo 'a\nb'");
}

#[test]
fn fish_read_history_empty_file() {
    assert!(fish::parse_history("").is_empty());
}

#[test]
fn fish_read_history_parses_the_real_format() {
    let entries = fish::parse_history(FISH_SAMPLE);
    assert_eq!(entries.len(), 9, "ten entries, `echo hello` twice");
    assert_eq!(entries[0].command, "exit");
    assert_eq!(entries[0].timestamp, Some(1790193962));
}

#[test]
fn fish_read_history_is_newest_first() {
    let entries = fish::parse_history(FISH_SAMPLE);
    let order: Vec<&str> = entries.iter().map(|e| e.command.as_str()).collect();
    assert_eq!(order[1], "echo 'single #quoted'");
    assert_eq!(order[8], "git commit -m \"fix: thing\"");
}

#[test]
fn fish_read_history_counts_duplicates() {
    let entries = fish::parse_history(FISH_SAMPLE);
    let hello = entries.iter().find(|e| e.command == "echo hello").unwrap();
    assert_eq!(hello.use_count, 2);
    assert_eq!(hello.timestamp, Some(1790193961), "newest occurrence wins");
}

#[test]
fn fish_read_history_unescapes_a_multiline_command() {
    let entries = fish::parse_history(FISH_SAMPLE);
    let multi = entries.iter().find(|e| e.command.contains("for i")).unwrap();
    assert_eq!(multi.command, "for i in 1 2 3\necho $i\nend");
}

#[test]
fn fish_read_history_unescapes_backslashes() {
    let entries = fish::parse_history(FISH_SAMPLE);
    assert!(entries.iter().any(|e| e.command == r"echo back\\slash"));
}

#[test]
fn fish_read_history_skips_the_paths_block() {
    let entries = fish::parse_history(FISH_SAMPLE);
    assert!(entries.iter().all(|e| e.command != "/etc/hostname"));
    let cat = entries.iter().find(|e| e.command == "cat /etc/hostname").unwrap();
    assert_eq!(cat.timestamp, Some(1790193958));
}

#[test]
fn fish_read_history_skips_a_quoted_path() {
    let entries = fish::parse_history(
        "- cmd: ls /etc/hosts '/tmp/a b'\n  when: 1700000000\n  paths:\n    - /etc/hosts\n    - '/tmp/a b'\n",
    );
    assert_eq!(entries.len(), 1);
    assert_eq!(entries[0].command, "ls /etc/hosts '/tmp/a b'");
}

#[test]
fn fish_read_history_keeps_colons_in_the_command() {
    let entries = fish::parse_history("- cmd: echo -- --cmd: not-a-key\n  when: 1700000000\n");
    assert_eq!(entries.len(), 1);
    assert_eq!(entries[0].command, "echo -- --cmd: not-a-key");
}

#[test]
fn fish_read_history_without_a_when() {
    let entries = fish::parse_history("- cmd: echo bare\n");
    assert_eq!(entries.len(), 1);
    assert_eq!(entries[0].timestamp, None);
}

#[test]
fn fish_read_history_with_an_unparseable_when() {
    let entries = fish::parse_history("- cmd: echo bad\n  when: not-a-number\n");
    assert_eq!(entries.len(), 1);
    assert_eq!(entries[0].timestamp, None);
}

fn check(entry: Option<HistoryEntry>, command: &str, timestamp: Option<i64>) {
    let entry = entry.unwrap();
    assert_eq!(entry.command, command);
    assert_eq!(entry.timestamp, timestamp);
    assert_eq!(entry.use_count, 1);
}

#[test]
fn test_parse_zsh_line_simple() {
    check(parse_zsh_line("ls -la"), "ls -la", None);
}

#[test]
fn test_parse_zsh_line_with_timestamp() {
    check(parse_zsh_line(":1700000000;git commit -m 'fix'"), "git commit -m 'fix'", Some(1700000000));
}

#[test]
fn test_parse_zsh_line_invalid_timestamp() {
    check(parse_zsh_line(":abc;ls"), "ls", None);
}

#[test]
fn test_parse_zsh_line_no_semicolon() {
    check(parse_zsh_line(":1700000000"), ":1700000000", None);
}

#[test]
fn test_parse_zsh_line_empty_command() {
    check(parse_zsh_line(":1700000000;"), "", Some(1700000000));
}

#[test]
fn test_parse_zsh_line_double_semicolon() {
    check(parse_zsh_line(":1700000000;;ls"), ";ls", Some(1700000000));
}

#[test]
fn test_parse_zsh_line_special_chars() {
    check(parse_zsh_line(":1700000000;echo $HOME/.config"), "echo $HOME/.config", Some(1700000000));
}

#[test]
fn zsh_read_history_empty_file() {
    assert!(zsh::parse_history("").is_empty());
}

#[test]
fn zsh_read_history_with_entries() {
    let entries = zsh::parse_history(":1700000000;ls\n:1700000001;pwd\n");
    assert_eq!(entries.len(), 2);
    assert_eq!(entries[0].command, "pwd");
    assert_eq!(entries[0].timestamp, Some(1700000001));
    assert_eq!(entries[1].command, "ls");
    assert_eq!(entries[1].timestamp, Some(1700000000));
}

#[test]
fn bash_read_history_single_and_multiple_commands() {
    let entries = bash::parse_history("git status\n");
    assert_eq!(entries.len(), 1);
    assert_eq!(entries[0].command, "git status");
    let entries = bash::parse_history("ls -la\npwd\ngit log\n");
    assert_eq!(entries.len(), 3);
    assert_eq!(entries[0].command, "ls -la");
    assert_eq!(entries[1].command, "pwd");
    assert_eq!(entries[2].command, "git log");
}

#[test]
fn bash_read_history_ignores_empty_lines_and_trims() {
    let entries = bash::parse_history("\nls\n\npwd\n\n");
    assert_eq!(entries.len(), 2);
    assert_eq!(entries[0].command, "ls");
    assert_eq!(entries[1].command, "pwd");
    let entries = bash::parse_history("  ls -la  \n");
    assert_eq!(entries[0].command, "ls -la");
    let entries = bash::parse_history("echo 'hello world'\n");
    assert_eq!(entries[0].command, "echo 'hello world'");
    assert!(bash::parse_history("").is_empty());
}

#[test]
fn powershell_read_history_newest_first() {
    let entries = powershell::parse_history("Get-Date\nGet-Location\nGet-Process\n");
    assert_eq!(entries.len(), 3);
    assert_eq!(entries[0].command, "Get-Process");
    assert_eq!(entries[2].command, "Get-Date");
    assert!(powershell::parse_history("").is_empty());
}

#[test]
fn powershell_read_history_counts_duplicates() {
    let entries = powershell::parse_history("Get-Date\nls\nget-date\n");
    assert_eq!(entries.len(), 2);
    let dates = entries.iter().find(|e| e.command == "get-date").unwrap();
    assert_eq!(dates.use_count, 2, "matching is case-insensitive");
}

#[test]
fn test_multi_line_commands_are_folded() {
    let entries = powershell::parse_history("if ($true) {`\n  echo eins`\n  echo zwei`\n}\nexit\n");
    assert_eq!(entries.len(), 2);
    assert_eq!(entries[0].command, "exit");
    assert_eq!(entries[1].command, "if ($true) {\n  echo eins\n  echo zwei\n}");
}

#[test]
fn test_escaped_backtick_does_not_continue() {
    let entries = powershell::parse_history("echo backtick``\nexit\n");
    assert_eq!(entries.len(), 2);
    assert_eq!(entries[0].command, "exit");
    assert_eq!(entries[1].command, "echo backtick``");
}

#[test]
fn test_unterminated_continuation_is_kept() {
    let entries = powershell::parse_history("echo eins`\n");
    assert_eq!(entries.len(), 1);
    assert_eq!(entries[0].command, "echo eins");
}

#[test]
fn test_leading_bom_is_stripped() {
    let entries = powershell::parse_history("\u{feff}Get-Date\n");
    assert_eq!(entries[0].command, "Get-Date");
}

#[test]
fn test_crlf_endings() {
    let entries = powershell::parse_history("Get-Date\r\nGet-Location\r\n");
    assert_eq!(entries.len(), 2);
    assert_eq!(entries[0].command, "Get-Location");
}

#[test]
fn test_non_ascii_survives() {
    let entries = powershell::parse_history("echo 'umlaut: äöü'\n");
    assert_eq!(entries[0].command, "echo 'umlaut: äöü'");
}

#[test]
fn test_parse_run_line_full() {
    let entry = parse_run_line("v1\t1700000000\t0\tbox\t/home/u/dev\tcargo test").unwrap();
    assert_eq!(entry.command, "cargo test");
    assert_eq!(entry.cwd, "/home/u/dev");
    assert_eq!(entry.exit_code, Some(0));
    assert_eq!(entry.ran_at, 1700000000);
    assert_eq!(entry.host.as_deref(), Some("box"));
}

#[test]
fn test_parse_run_line_nonzero_exit() {
    let entry = parse_run_line("v1\t1700000000\t130\tbox\t/tmp\tsleep 9").unwrap();
    assert_eq!(entry.exit_code, Some(130));
}

#[test]
fn test_parse_run_line_empty_host_is_none() {
    let entry = parse_run_line("v1\t1700000000\t0\t\t/tmp\tls").unwrap();
    assert!(entry.host.is_none());
}

#[test]
fn test_parse_run_line_unparseable_exit_is_none() {
    let entry = parse_run_line("v1\t1700000000\t\tbox\t/tmp\tls").unwrap();
    assert!(entry.exit_code.is_none());
}

#[test]
fn test_parse_run_line_keeps_tabs_in_command() {
    let entry = parse_run_line("v1\t1700000000\t0\tbox\t/tmp\techo a\tb").unwrap();
    assert_eq!(entry.command, "echo a\tb");
}

#[test]
fn test_parse_run_line_unescapes() {
    let entry = parse_run_line("v1\t1700000000\t0\tbox\t/tmp\tprintf 'a\\nb'").unwrap();
    assert_eq!(entry.command, "printf 'a\nb'");
}

#[test]
fn test_parse_run_line_escaped_backslash_survives() {
    let entry = parse_run_line("v1\t1700000000\t0\tbox\t/tmp\tprintf 'a\\\\nb'").unwrap();
    assert_eq!(entry.command, "printf 'a\\nb'");
}

#[test]
fn test_parse_run_line_wrong_version() {
    assert!(parse_run_line("v2\t1700000000\t0\tbox\t/tmp\tls").is_none());
}

#[test]
fn test_parse_run_line_too_few_fields() {
    assert!(parse_run_line("v1\t1700000000\t0\t/tmp").is_none());
    assert!(parse_run_line("").is_none());
    assert!(parse_run_line("garbage").is_none());
}

#[test]
fn test_parse_run_line_bad_timestamp() {
    assert!(parse_run_line("v1\tnope\t0\tbox\t/tmp\tls").is_none());
}

#[test]
fn test_parse_run_line_empty_command_or_cwd() {
    assert!(parse_run_line("v1\t1700000000\t0\tbox\t/tmp\t   ").is_none());
    assert!(parse_run_line("v1\t1700000000\t0\tbox\t\tls").is_none());
}

#[test]
fn test_unescape_trailing_backslash() {
    assert_eq!(unescape_run("echo \\"), "echo \\");
    assert_eq!(unescape_run("echo \\q"), "echo \\q");
}

#[test]
fn runs_read_runs_skips_bad_lines() {
    let entries = parse_runs("v1\t1\t0\tbox\t/tmp\tls\ntorn line\nv1\t2\t1\tbox\t/tmp\tfalse\n");
    assert_eq!(entries.len(), 2);
    assert_eq!(entries[0].command, "ls");
    assert_eq!(entries[1].exit_code, Some(1));
    assert!(parse_runs("").is_empty());
}

#[test]
fn runs_ingest_path_appends_the_suffix() {
    assert_eq!(ingest_path("/tmp/runs.log"), "/tmp/runs.log.ingest");
}
