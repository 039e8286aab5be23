use ctrlr::editor::{interpret, resolve_editor, split_command_given, EditorOutcome, DEFAULT_EDITOR};

#[test]
fn test_resolve_editor_prefers_visual() {
    assert_eq!(resolve_editor(Some("hx".into()), Some("vim".into())), vec!["hx"]);
}

#[test]
fn test_resolve_editor_falls_back_to_editor_then_default() {
    assert_eq!(resolve_editor(None, Some("vim".into())), vec!["vim"]);
    assert_eq!(resolve_editor(None, None), vec![DEFAULT_EDITOR]);
}

#[test]
fn test_resolve_editor_ignores_blank_variables() {
    assert_eq!(resolve_editor(Some("".into()), Some("vim".into())), vec!["vim"]);
    assert_eq!(resolve_editor(Some("   ".into()), None), vec![DEFAULT_EDITOR]);
}

#[test]
fn test_resolve_editor_splits_arguments() {
    assert_eq!(resolve_editor(None, Some("code --wait".into())), vec!["code", "--wait"]);
}

#[test]
fn test_resolve_editor_keeps_a_quoted_path_together() {
    assert_eq!(
        resolve_editor(None, Some(r#""C:\Program Files\Ed\ed.exe" --wait"#.into())),
        vec![r"C:\Program Files\Ed\ed.exe", "--wait"]
    );
    assert_eq!(resolve_editor(None, Some("'/opt/my ed/ed'".into())), vec!["/opt/my ed/ed"]);
}

#[test]
fn test_interpret_strips_only_the_trailing_newline() {
    let out = interpret("git status\n");
    assert_eq!(out.text.as_deref(), Some("git status"));
    assert!(out.message.is_none());
}

#[test]
fn test_interpret_keeps_interior_newlines() {
    let out = interpret("for f in *; do\n  echo $f\ndone\n");
    assert_eq!(out.text.as_deref(), Some("for f in *; do\n  echo $f\ndone"));
}

#[test]
fn test_interpret_treats_an_emptied_file_as_a_cancel() {
    for contents in ["", "\n", "   \n\n"] {
        let out = interpret(contents);
        assert!(out.text.is_none(), "{:?} should cancel", contents);
        assert!(out.message.is_some());
    }
}

#[test]
fn editor_a_path_that_names_a_file_is_taken_whole() {
    assert_eq!(split_command_given("/opt/my editor", true), vec!["/opt/my editor"]);
    assert_eq!(split_command_given("/opt/my editor", false), vec!["/opt/my", "editor"]);
}

#[test]
fn editor_kept_carries_the_message_and_no_text() {
    let out = EditorOutcome::kept("unchanged");
    assert!(out.text.is_none());
    assert_eq!(out.message.as_deref(), Some("unchanged"));
}

#[test]
fn editor_interpret_strips_only_newlines_not_carriage_returns() {
    let out = interpret("ls -la\r\n\n");
    assert_eq!(out.text.as_deref(), Some("ls -la\r"));
}
