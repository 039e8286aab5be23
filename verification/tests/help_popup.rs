use ctrlr::help::{GroupedShortcut, HelpPopup};
use ctrlr::keymap::action::KeyAction;

fn row(action: Option<KeyAction>, name: &str) -> GroupedShortcut {
    GroupedShortcut {
        action,
        action_name: name.to_string(),
        description: String::new(),
        keys: vec![],
        category: "Actions",
    }
}

fn rows() -> Vec<GroupedShortcut> {
    (0..8).map(|i| row(Some(KeyAction::ShowHelp), &format!("Row {}", i))).collect()
}

#[test]
fn help_selection_stays_within_the_rows() {
    let all = rows();
    let mut h = HelpPopup::new();
    h.open_on(&all);
    assert_eq!(h.rows.len(), 8);
    h.dispatch(KeyAction::NavigateUp, &all);
    assert_eq!(h.selected, 0);
    h.dispatch(KeyAction::PageDown, &all);
    assert_eq!(h.selected, 5);
    h.dispatch(KeyAction::PageDown, &all);
    assert_eq!(h.selected, 7);
    h.dispatch(KeyAction::NavigateDown, &all);
    assert_eq!(h.selected, 7);
    h.dispatch(KeyAction::PageUp, &all);
    assert_eq!(h.selected, 2);
}

#[test]
fn help_enter_hands_back_the_action_and_closes() {
    let all = vec![row(None, "Click"), row(Some(KeyAction::ToggleDetails), "Toggle Details")];
    let mut h = HelpPopup::new();
    h.open_on(&all);
    assert_eq!(h.dispatch(KeyAction::Confirm, &all), None);
    assert!(h.open);
    h.dispatch(KeyAction::NavigateDown, &all);
    assert_eq!(h.dispatch(KeyAction::Confirm, &all), Some(KeyAction::ToggleDetails));
    assert!(!h.open);
}

#[test]
fn help_typing_filters_and_backspace_widens() {
    let all = vec![row(Some(KeyAction::ShowHelp), "Show Help"), row(Some(KeyAction::GoToTop), "Go to Top")];
    let mut h = HelpPopup::new();
    h.open_on(&all);
    h.insert_char('x', &all);
    h.insert_char('q', &all);
    assert!(h.rows.is_empty());
    h.dispatch(KeyAction::DeleteCharBackward, &all);
    h.dispatch(KeyAction::DeleteCharBackward, &all);
    assert_eq!(h.query, "");
    assert_eq!(h.rows.len(), 2);
}
