use ctrlr::text_input::TextInput;

#[test]
fn test_text_input_new_puts_cursor_at_end() {
    let input = TextInput::new("git status");
    assert_eq!(input.cursor(), 10);
    assert_eq!(input.value(), "git status");
}

#[test]
fn test_text_input_inserts_at_the_cursor() {
    let mut input = TextInput::new("git tatus");
    input.home();
    for _ in 0..4 {
        input.right();
    }
    input.insert('s');
    assert_eq!(input.value(), "git status");
    assert_eq!(input.cursor(), 5);
}

#[test]
fn test_text_input_backspace_at_start_is_a_no_op() {
    let mut input = TextInput::new("ls");
    input.home();
    input.backspace();
    assert_eq!(input.value(), "ls");
    assert_eq!(input.cursor(), 0);
}

#[test]
fn test_text_input_delete_at_end_is_a_no_op() {
    let mut input = TextInput::new("ls");
    input.delete();
    assert_eq!(input.value(), "ls");
}

#[test]
fn test_text_input_delete_removes_the_char_under_the_cursor() {
    let mut input = TextInput::new("lls");
    input.home();
    input.delete();
    assert_eq!(input.value(), "ls");
    assert_eq!(input.cursor(), 0);
}

#[test]
fn test_text_input_kill_to_start_keeps_the_tail() {
    let mut input = TextInput::new("sudo rm -rf");
    input.home();
    for _ in 0..5 {
        input.right();
    }
    input.kill_to_start();
    assert_eq!(input.value(), "rm -rf");
    assert_eq!(input.cursor(), 0);
}

#[test]
fn test_text_input_steps_over_multibyte_chars() {
    let mut input = TextInput::new("héllo");
    assert_eq!(input.cursor(), 6, "é is two bytes");
    input.home();
    input.right();
    input.right();
    assert_eq!(input.cursor(), 3, "past h and é");
    input.insert('x');
    assert_eq!(input.value(), "héxllo");
    input.backspace();
    assert_eq!(input.value(), "héllo");
    input.backspace();
    assert_eq!(input.value(), "hllo");
}

#[test]
fn test_text_input_cursor_col_counts_chars_not_bytes() {
    let mut input = TextInput::new("héllo");
    assert_eq!(input.cursor_col(), 5);
    input.home();
    input.right();
    input.right();
    assert_eq!(input.cursor_col(), 2);
}

#[test]
fn test_text_input_right_at_end_and_left_at_start_are_no_ops() {
    let mut input = TextInput::new("ls");
    input.right();
    assert_eq!(input.cursor(), 2);
    input.home();
    input.left();
    assert_eq!(input.cursor(), 0);
}

#[test]
fn text_input_insert_then_backspace_restores_the_line() {
    let mut input = TextInput::new("gt status");
    input.home();
    input.right();
    let before = input.value();
    input.insert('i');
    input.backspace();
    assert_eq!(input.value(), before);
    assert_eq!(input.cursor(), 1);
}

#[test]
fn text_input_set_value_and_clear() {
    let mut input = TextInput::new("abc");
    input.set_value("héllo wörld");
    assert_eq!(input.value(), "héllo wörld");
    assert_eq!(input.cursor(), "héllo wörld".len());
    assert!(!input.is_empty());
    input.clear();
    assert!(input.is_empty());
    assert_eq!(input.cursor(), 0);
}

#[test]
fn text_input_end_moves_to_the_last_byte() {
    let mut input = TextInput::new("ünï");
    input.home();
    input.end();
    assert_eq!(input.cursor(), "ünï".len());
    assert_eq!(input.cursor_col(), 3);
}
