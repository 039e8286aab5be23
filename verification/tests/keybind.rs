use ctrlr::keybind::{current_owner, filter, keys_display, rows, CaptureMode, KeybindRow};
use ctrlr::keymap::action::KeyAction;
use ctrlr::keymap::defaults::keymap;
use ctrlr::keymap::keys::parse_binding;
use ctrlr::keymap::KeyContext;

#[test]
fn test_keys_display_marks_an_unbound_action() {
    let row = KeybindRow {
        context: KeyContext::History,
        action: KeyAction::ToggleFavorite,
        keys: vec![],
        editable: true,
    };
    assert_eq!(keys_display(&row), "—");
}

#[test]
fn keybind_keys_display_joins_with_two_spaces() {
    let row = KeybindRow {
        context: KeyContext::Global,
        action: KeyAction::PageDown,
        keys: vec!["PageDown".to_string(), "Ctrl+d".to_string()],
        editable: true,
    };
    assert_eq!(keys_display(&row), "PageDown  Ctrl+d");
}

#[test]
fn test_rows_cover_every_context_that_has_bindings() {
    let defaults = keymap();
    let all = rows(&defaults);
    for context in KeyContext::all() {
        if defaults.entries(context).is_empty() {
            continue;
        }
        assert!(all.iter().any(|r| r.context == context), "{:?} is missing from the editor", context);
    }
}

#[test]
fn test_filter_matches_keys_as_well_as_names() {
    let all = rows(&keymap());
    let by_key = filter(&all, "ctrl+t");
    assert!(by_key.iter().any(|r| r.action == KeyAction::ChangeTheme));
    assert!(filter(&all, "no-such-thing").is_empty());
    assert_eq!(filter(&all, "").len(), all.len());
}

#[test]
fn keybind_sequence_rows_are_not_editable() {
    let all = rows(&keymap());
    let top = all
        .iter()
        .find(|r| r.context == KeyContext::Global && r.action == KeyAction::GoToTop)
        .unwrap();
    assert!(!top.editable);
    assert_eq!(top.keys, vec!["g g"]);
    let bottom = all
        .iter()
        .find(|r| r.context == KeyContext::Global && r.action == KeyAction::GoToBottom)
        .unwrap();
    assert!(bottom.editable);
}

#[test]
fn keybind_an_unbound_default_action_keeps_its_row() {
    let mut km = keymap();
    km.clear_action(KeyContext::History, KeyAction::ToggleFavorite);
    let all = rows(&km);
    let row = all
        .iter()
        .find(|r| r.context == KeyContext::History && r.action == KeyAction::ToggleFavorite)
        .unwrap();
    assert!(row.keys.is_empty());
}

#[test]
fn keybind_capture_prompts() {
    assert_eq!(CaptureMode::Replace.prompt(), "Press the key to bind");
    assert_eq!(CaptureMode::Add.prompt(), "Press a key to add");
    assert_eq!(CaptureMode::Remove.prompt(), "Press the key to remove");
}

#[test]
fn keybind_current_owner_names_the_action_holding_a_key() {
    let km = keymap();
    let d = parse_binding("d").unwrap();
    assert_eq!(current_owner(&km, KeyContext::History, &d), Some(KeyAction::ToggleDetails));
    let z = parse_binding("z").unwrap();
    assert_eq!(current_owner(&km, KeyContext::History, &z), None);
}
