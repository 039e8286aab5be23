use ctrlr::collection_dialog::{CollectionDialog, DialogRequest};
use ctrlr::keymap::keys::{KeyCode, KeyEvent, KeyModifiers};
use ctrlr::picker::AppState;
use ctrlr::state::{CollectionInputMode, Command};
use ctrlr::storage::Collection;

fn cmd(text: &str) -> Command {
    Command {
        id: text.to_string(),
        text: text.to_string(),
        tags: vec![],
        collection_ids: vec![],
        favorite: false,
        _context: vec![],
        use_count: 0,
        last_used: None,
        runs_here: 0,
    }
}

fn key(code: KeyCode) -> KeyEvent {
    KeyEvent::new(code, KeyModifiers::none())
}

fn type_text(d: &mut CollectionDialog, st: &AppState, text: &str) {
    for c in text.chars() {
        assert!(matches!(d.handle_key(st, key(KeyCode::Char(c))), DialogRequest::Stay));
    }
}

#[test]
fn new_collection_asks_to_create_it() {
    let st = AppState::new(vec![]);
    let mut d = CollectionDialog::new();
    d.begin(CollectionInputMode::NewCollection, None, String::new());
    type_text(&mut d, &st, "ops");
    match d.handle_key(&st, key(KeyCode::Enter)) {
        DialogRequest::Create { name } => assert_eq!(name, "ops"),
        _ => panic!("expected a create request"),
    }
    assert_eq!(d.mode, CollectionInputMode::Idle);
    assert_eq!(d.text, "");
}

#[test]
fn empty_new_collection_just_closes() {
    let st = AppState::new(vec![]);
    let mut d = CollectionDialog::new();
    d.begin(CollectionInputMode::NewCollection, None, String::new());
    assert!(matches!(d.handle_key(&st, key(KeyCode::Enter)), DialogRequest::Closed));
}

#[test]
fn rename_names_the_collection() {
    let st = AppState::new(vec![]);
    let mut d = CollectionDialog::new();
    d.begin(CollectionInputMode::EditCollection, Some("c1".to_string()), "old".to_string());
    d.handle_key(&st, key(KeyCode::Backspace));
    type_text(&mut d, &st, "x");
    match d.handle_key(&st, key(KeyCode::Enter)) {
        DialogRequest::Rename { id, name } => {
            assert_eq!(id, "c1");
            assert_eq!(name, "olx");
        }
        _ => panic!("expected a rename request"),
    }
}

#[test]
fn shifted_characters_are_not_typed() {
    let st = AppState::new(vec![]);
    let mut d = CollectionDialog::new();
    d.begin(CollectionInputMode::NewCollection, None, String::new());
    d.handle_key(&st, KeyEvent::new(KeyCode::Char('A'), KeyModifiers::shift()));
    assert_eq!(d.text, "");
}

#[test]
fn picking_a_collection_adds_the_selected_command() {
    let mut st = AppState::new(vec![cmd("make")]);
    st.collections = vec![
        Collection { id: "a".to_string(), name: "alpha".to_string() },
        Collection { id: "b".to_string(), name: "beta".to_string() },
    ];
    let mut d = CollectionDialog::new();
    d.begin(CollectionInputMode::AddToCollection, None, String::new());
    d.handle_key(&st, key(KeyCode::Down));
    assert_eq!(d.popup_index, 1);
    d.handle_key(&st, key(KeyCode::Down));
    assert_eq!(d.popup_index, 1);
    match d.handle_key(&st, key(KeyCode::Enter)) {
        DialogRequest::AddTo { text, id } => {
            assert_eq!(text, "make");
            assert_eq!(id, "b");
        }
        _ => panic!("expected an add request"),
    }
}

#[test]
fn a_new_name_offers_to_create_and_add() {
    let mut st = AppState::new(vec![cmd("make")]);
    st.collections = vec![Collection { id: "a".to_string(), name: "alpha".to_string() }];
    let mut d = CollectionDialog::new();
    d.begin(CollectionInputMode::AddToCollection, None, String::new());
    type_text(&mut d, &st, "zz");
    d.handle_key(&st, key(KeyCode::Down));
    assert_eq!(d.popup_index, 0);
    match d.handle_key(&st, key(KeyCode::Enter)) {
        DialogRequest::CreateAndAdd { name, text } => {
            assert_eq!(name, "zz");
            assert_eq!(text, Some("make".to_string()));
        }
        _ => panic!("expected create and add"),
    }
}

#[test]
fn search_to_add_offers_typed_text_when_nothing_matches() {
    let mut st = AppState::new(vec![cmd("ls")]);
    st.collections = vec![Collection { id: "a".to_string(), name: "alpha".to_string() }];
    let mut d = CollectionDialog::new();
    d.begin(CollectionInputMode::AddToCollectionSearch, None, String::new());
    type_text(&mut d, &st, "qq");
    match d.handle_key(&st, key(KeyCode::Enter)) {
        DialogRequest::AddByText { text } => assert_eq!(text, "qq"),
        _ => panic!("expected add by text"),
    }
}

#[test]
fn escape_closes_without_a_request() {
    let st = AppState::new(vec![]);
    let mut d = CollectionDialog::new();
    d.begin(CollectionInputMode::AddToCollection, None, "abc".to_string());
    assert!(matches!(d.handle_key(&st, key(KeyCode::Esc)), DialogRequest::Closed));
    assert_eq!(d.mode, CollectionInputMode::Idle);
}

#[test]
fn collection_named_ignores_case() {
    let mut st = AppState::new(vec![]);
    st.collections = vec![Collection { id: "x".to_string(), name: "Deploy".to_string() }];
    assert_eq!(st.collection_named("deploy"), Some("x".to_string()));
    assert_eq!(st.collection_named("other"), None);
}

#[test]
fn no_create_row_for_a_name_that_exists_in_any_case() {
    let mut st = AppState::new(vec![cmd("make")]);
    st.collections = vec![Collection { id: "a".to_string(), name: "Alpha".to_string() }];
    let mut d = CollectionDialog::new();
    d.begin(CollectionInputMode::AddToCollection, None, String::new());
    assert!(!d.shows_extra_row(&st));
    type_text(&mut d, &st, "alpha");
    assert!(!d.shows_extra_row(&st));
    type_text(&mut d, &st, "x");
    assert!(d.shows_extra_row(&st));
}

#[test]
fn confirming_a_delete_names_the_selected_collection() {
    let mut st = AppState::new(vec![cmd("make")]);
    st.collections = vec![Collection { id: "c7".to_string(), name: "ops".to_string() }];
    let mut d = CollectionDialog::new();
    d.begin(CollectionInputMode::ConfirmDeleteCollection, None, "ops".to_string());
    match d.handle_key(&st, key(KeyCode::Enter)) {
        DialogRequest::DeleteCollection { id } => assert_eq!(id, "c7"),
        _ => panic!("expected a delete request"),
    }
    d.begin(CollectionInputMode::ConfirmDeleteCommand, None, "make".to_string());
    match d.handle_key(&st, key(KeyCode::Enter)) {
        DialogRequest::RemoveFromCollection { text, id } => {
            assert_eq!(text, "make");
            assert_eq!(id, "c7");
        }
        _ => panic!("expected a remove request"),
    }
    d.begin(CollectionInputMode::ConfirmDeleteCollection, None, "ops".to_string());
    assert!(matches!(d.handle_key(&st, key(KeyCode::Esc)), DialogRequest::Closed));
}
