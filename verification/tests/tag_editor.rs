use ctrlr::keymap::action::KeyAction;
use ctrlr::picker::AppState;
use ctrlr::state::{Command, InputMode};
use ctrlr::tag_editor::sort_texts;

fn cmd(text: &str, tags: &[&str]) -> Command {
    Command {
        id: text.to_string(),
        text: text.to_string(),
        tags: tags.iter().map(|t| t.to_string()).collect(),
        collection_ids: vec![],
        favorite: false,
        _context: vec![],
        use_count: 0,
        last_used: None,
        runs_here: 0,
    }
}

fn editing(commands: Vec<Command>) -> AppState {
    let mut st = AppState::new(commands);
    st.input_mode = InputMode::TagInput;
    st
}

#[test]
fn cursor_left_starts_at_the_last_tag_and_wraps() {
    let mut st = editing(vec![cmd("ls", &["a", "b"])]);
    assert_eq!(st.tag_dispatch(KeyAction::CursorLeft), None);
    assert_eq!(st.tag_cursor_index, Some(1));
    st.tag_dispatch(KeyAction::CursorLeft);
    assert_eq!(st.tag_cursor_index, Some(0));
    st.tag_dispatch(KeyAction::CursorLeft);
    assert_eq!(st.tag_cursor_index, Some(1));
    st.tag_dispatch(KeyAction::CursorRight);
    assert_eq!(st.tag_cursor_index, Some(0));
}

#[test]
fn backspace_on_a_chip_removes_that_tag() {
    let mut st = editing(vec![cmd("ls", &["a", "b", "c"])]);
    st.tag_cursor_index = Some(2);
    let saved = st.tag_dispatch(KeyAction::DeleteCharBackward);
    assert_eq!(saved, Some(vec!["a".to_string(), "b".to_string()]));
    assert_eq!(st.tag_cursor_index, Some(1));
}

#[test]
fn backspace_in_empty_input_moves_onto_the_chips() {
    let mut st = editing(vec![cmd("ls", &["a"])]);
    assert_eq!(st.tag_dispatch(KeyAction::DeleteCharBackward), None);
    assert_eq!(st.tag_cursor_index, Some(0));
}

#[test]
fn backspace_in_text_deletes_a_character() {
    let mut st = editing(vec![cmd("ls", &[])]);
    st.tag_insert_char('o');
    st.tag_insert_char('k');
    st.tag_selected_index = 2;
    st.tag_dispatch(KeyAction::DeleteCharBackward);
    assert_eq!(st.tag_input, "o");
    assert_eq!(st.tag_selected_index, 0);
}

#[test]
fn confirm_adds_the_typed_tag_sorted() {
    let mut st = editing(vec![cmd("ls", &["zeta", "alpha"])]);
    for c in "  mid ".chars() {
        st.tag_insert_char(c);
    }
    let saved = st.tag_dispatch(KeyAction::Confirm);
    assert_eq!(saved, Some(vec!["alpha".to_string(), "mid".to_string(), "zeta".to_string()]));
    assert_eq!(st.input_mode, InputMode::Normal);
    assert_eq!(st.tag_input, "");
}

#[test]
fn confirm_takes_the_highlighted_suggestion() {
    let mut st = editing(vec![cmd("ls", &[]), cmd("git", &["deploy"])]);
    st.tag_insert_char('d');
    st.tag_insert_char('e');
    let saved = st.tag_dispatch(KeyAction::Confirm);
    assert_eq!(saved, Some(vec!["deploy".to_string()]));
}

#[test]
fn confirm_with_nothing_typed_just_closes() {
    let mut st = editing(vec![cmd("ls", &["a"])]);
    assert_eq!(st.tag_dispatch(KeyAction::Confirm), None);
    assert_eq!(st.input_mode, InputMode::Normal);
}

#[test]
fn navigate_down_reaches_the_create_row() {
    let mut st = editing(vec![cmd("ls", &[]), cmd("git", &["deploy"])]);
    st.tag_insert_char('d');
    st.tag_dispatch(KeyAction::NavigateDown);
    assert_eq!(st.tag_selected_index, 1);
    st.tag_dispatch(KeyAction::NavigateDown);
    assert_eq!(st.tag_selected_index, 1);
    st.tag_dispatch(KeyAction::NavigateUp);
    assert_eq!(st.tag_selected_index, 0);
}

#[test]
fn accept_suggestion_fills_in_the_tag() {
    let mut st = editing(vec![cmd("ls", &[]), cmd("git", &["deploy"])]);
    st.tag_insert_char('d');
    st.tag_dispatch(KeyAction::AcceptSuggestion);
    assert_eq!(st.tag_input, "deploy, ");
}

#[test]
fn sorting_tags_orders_by_code_point() {
    let v = vec!["b".to_string(), "B".to_string(), "a".to_string(), "b".to_string()];
    assert_eq!(sort_texts(v), vec!["B", "a", "b", "b"]);
}

#[test]
fn create_row_only_for_a_new_tag() {
    let mut st = editing(vec![cmd("ls", &[]), cmd("git", &["Deploy"])]);
    assert!(!st.tag_offers_create());
    for c in "deploy".chars() {
        st.tag_insert_char(c);
    }
    assert!(!st.tag_offers_create());
    st.tag_insert_char('s');
    assert!(st.tag_offers_create());
}
