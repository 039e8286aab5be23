use ctrlr::init::{install_content, strip_integration};
use ctrlr::paths::backup_path;
use ctrlr::shells::{generate_script, integration_state, IntegrationState, Shell, END_MARKER, START_MARKER};

const LEGACY_ZSH: &str = "# ctrlr integration
autoload -Uz add-zsh-hook
add-zsh-hook precmd _flush_zsh_history
_flush_zsh_history() { fc -W }

_ctrlr_widget() {
    local tmpfile=$(mktemp)
    ctrlr --output-file \"$tmpfile\"
    if [[ -s \"$tmpfile\" ]]; then
        BUFFER=$(cat \"$tmpfile\")
        CURSOR=$#BUFFER
    fi
    rm -f \"$tmpfile\"
}
zle -N _ctrlr_widget
bindkey '^R' _ctrlr_widget";

#[test]
fn test_strip_removes_block_with_end_marker() {
    let content = format!(
        "export FOO=1\n\n{}\nline\nline\n{}\n\nexport BAR=2",
        START_MARKER, END_MARKER
    );
    assert_eq!(strip_integration(&content), "export FOO=1\n\n\nexport BAR=2");
}

#[test]
fn test_strip_removes_legacy_zsh_block_entirely() {
    let content = format!("export FOO=1\n{}\nexport BAR=2", LEGACY_ZSH);
    let stripped = strip_integration(&content);
    assert_eq!(stripped, "export FOO=1\nexport BAR=2");
    assert!(!stripped.contains("_ctrlr_widget"));
    assert!(!stripped.contains("bindkey"));
}

#[test]
fn test_strip_removes_legacy_bash_block() {
    let content = "export FOO=1\n# ctrlr integration\nexport PROMPT_COMMAND=\"history -a\"\n_ctrlr_widget() {\n  :\n}\nbind -x '\"\\C-r\": _ctrlr_widget'\nexport BAR=2";
    assert_eq!(strip_integration(content), "export FOO=1\nexport BAR=2");
}

#[test]
fn test_strip_removes_legacy_fish_block() {
    let content = "set -g FOO 1\n# ctrlr integration\nfunction _ctrlr_widget\nend\nbind \\cr _ctrlr_widget\nset -g BAR 2";
    assert_eq!(strip_integration(content), "set -g FOO 1\nset -g BAR 2");
}

#[test]
fn test_strip_leaves_unrelated_config_alone() {
    let content = "export FOO=1\n# some other integration\nexport BAR=2";
    assert_eq!(strip_integration(content), content);
}

#[test]
fn test_strip_unterminated_block_drops_only_the_marker() {
    let content = "export FOO=1\n# ctrlr integration\nexport BAR=2";
    assert_eq!(strip_integration(content), "export FOO=1\nexport BAR=2");
}

#[test]
fn test_strip_removes_every_block() {
    let content = format!(
        "a\n{}\nx\n{}\nb\n{}\ny\n{}\nc",
        START_MARKER, END_MARKER, START_MARKER, END_MARKER
    );
    assert_eq!(strip_integration(&content), "a\nb\nc");
}

#[test]
fn init_test_backup_path_appends_rather_than_replacing() {
    let path = backup_path("/home/u/.bashrc");
    assert_eq!(path, "/home/u/.bashrc.ctrlr.bak");

    let fish = backup_path("/home/u/.config/fish/config.fish");
    assert_eq!(fish, "/home/u/.config/fish/config.fish.ctrlr.bak");
}

#[test]
fn test_reinstall_does_not_stack_blocks() {
    let script = generate_script(Shell::Bash);
    let once = install_content("export FOO=1\n", &script);
    let twice = install_content(&once, &script);

    assert_eq!(
        twice.matches("# ctrlr integration\n").count(),
        1,
        "a second install replaces the block instead of appending another"
    );
    assert!(twice.contains("export FOO=1"), "user config survives");
    assert_eq!(integration_state(Shell::Bash, &twice), IntegrationState::Current);
}

#[test]
fn test_install_over_a_legacy_block_leaves_nothing_behind() {
    let before = "export FOO=1\n# ctrlr integration\nexport PROMPT_COMMAND=\"history -a\"\nbind -x '\"\\C-r\": _ctrlr_widget'\nexport BAR=2\n";
    let after = install_content(before, &generate_script(Shell::Bash));

    assert!(!after.contains("export PROMPT_COMMAND"), "old block is gone");
    assert!(after.contains("export FOO=1") && after.contains("export BAR=2"));
    assert_eq!(integration_state(Shell::Bash, &after), IntegrationState::Current);
}

#[test]
fn init_install_into_an_empty_config_is_just_the_script() {
    let script = generate_script(Shell::Zsh);
    assert!(script.ends_with('\n'));
    let out = install_content("", &script);
    assert_eq!(out, format!("\n{}", script));
}

#[test]
fn init_strip_of_nothing_is_nothing() {
    assert_eq!(strip_integration(""), "");
}
