use ctrlr::hash::hash_command;
use ctrlr::picker::AppState;
use ctrlr::state::{Command, ViewMode};
use ctrlr::storage::Collection;

fn cmd(text: &str) -> Command {
    Command {
        id: text.to_string(),
        text: text.to_string(),
        tags: vec![],
        collection_ids: vec![],
        favorite: false,
        _context: vec![],
        use_count: 0,
        last_used: None,
        runs_here: 0,
    }
}

fn col(id: &str, name: &str) -> Collection {
    Collection { id: id.to_string(), name: name.to_string() }
}

fn names(state: &AppState) -> Vec<String> {
    state.collections.iter().map(|c| c.name.clone()).collect()
}

#[test]
fn insert_collection_keeps_names_sorted() {
    let mut state = AppState::new(vec![]);
    state.insert_collection("b".to_string(), "beta".to_string());
    state.insert_collection("a".to_string(), "alpha".to_string());
    state.insert_collection("g".to_string(), "gamma".to_string());
    assert_eq!(names(&state), vec!["alpha", "beta", "gamma"]);
}

#[test]
fn insert_collection_with_equal_names_keeps_arrival_order() {
    let mut state = AppState::new(vec![]);
    state.insert_collection("1".to_string(), "ops".to_string());
    state.insert_collection("2".to_string(), "ops".to_string());
    let ids: Vec<String> = state.collections.iter().map(|c| c.id.clone()).collect();
    assert_eq!(ids, vec!["1", "2"]);
}

#[test]
fn rename_collection_resorts_the_list() {
    let mut state = AppState::new(vec![]);
    state.collections = vec![col("a", "alpha"), col("b", "beta")];
    state.rename_collection_in_list("a", "zeta".to_string());
    assert_eq!(names(&state), vec!["beta", "zeta"]);
}

#[test]
fn rename_of_unknown_collection_changes_nothing() {
    let mut state = AppState::new(vec![]);
    state.collections = vec![col("a", "alpha"), col("b", "beta")];
    state.rename_collection_in_list("zz", "omega".to_string());
    assert_eq!(names(&state), vec!["alpha", "beta"]);
}

#[test]
fn forgetting_a_collection_frees_its_commands() {
    let mut a = cmd("git status");
    a.collection_ids = vec!["c1".to_string(), "c2".to_string()];
    let mut state = AppState::new(vec![a, cmd("ls")]);
    state.collections = vec![col("c1", "one"), col("c2", "two")];
    state.selected_collection_index = 1;
    state.forget_collection_at("c2", 0);
    assert_eq!(state.commands[0].collection_ids, vec!["c1".to_string()]);
    assert_eq!(names(&state), vec!["one"]);
    assert_eq!(state.selected_collection_index, 0);
}

#[test]
fn forgetting_the_last_collection_leaves_index_zero() {
    let mut state = AppState::new(vec![cmd("ls")]);
    state.collections = vec![col("c1", "one")];
    state.forget_collection_at("c1", 0);
    assert!(state.collections.is_empty());
    assert_eq!(state.selected_collection_index, 0);
}

#[test]
fn adding_an_unknown_command_records_it() {
    let mut state = AppState::new(vec![cmd("ls")]);
    state.collections = vec![col("c1", "one")];
    let name = state.add_command_to_collection_at("make  build", "c1", 0);
    assert_eq!(name, Some("one".to_string()));
    assert_eq!(state.commands.len(), 2);
    let added = &state.commands[1];
    assert_eq!(added.text, "make  build");
    assert_eq!(added.id, hash_command("make  build"));
    assert_eq!(added.collection_ids, vec!["c1".to_string()]);
}

#[test]
fn adding_twice_does_not_repeat_the_collection() {
    let mut state = AppState::new(vec![cmd("ls"), cmd("pwd")]);
    state.add_command_to_collection_at("pwd", "c1", 0);
    let name = state.add_command_to_collection_at("pwd", "c1", 0);
    assert_eq!(name, None);
    assert_eq!(state.commands[1].collection_ids, vec!["c1".to_string()]);
    assert_eq!(state.selected_index, 1);
}

#[test]
fn adding_by_text_needs_a_selected_collection() {
    let mut state = AppState::new(vec![cmd("ls")]);
    assert!(!state.add_command_to_collection_by_text_at("ls", 0));
    assert!(state.commands[0].collection_ids.is_empty());
    state.collections = vec![col("c9", "nine")];
    assert!(state.add_command_to_collection_by_text_at("ls", 0));
    assert_eq!(state.commands[0].collection_ids, vec!["c9".to_string()]);
}

#[test]
fn dropping_from_a_collection_updates_its_list() {
    let mut a = cmd("git status");
    a.collection_ids = vec!["c1".to_string()];
    let mut b = cmd("ls");
    b.collection_ids = vec!["c1".to_string()];
    let mut state = AppState::new(vec![a, b]);
    state.collections = vec![col("c1", "one")];
    state.switch_view(ViewMode::Collections);
    assert_eq!(state.collection_commands.len(), 2);
    state.drop_from_collection_at("ls", "c1", 0);
    assert!(state.commands[1].collection_ids.is_empty());
    assert_eq!(state.collection_commands.len(), 1);
    assert_eq!(state.collection_commands[0].text, "git status");
}

#[test]
fn add_search_offers_commands_outside_the_collection() {
    let mut a = cmd("git status");
    a.collection_ids = vec!["c1".to_string()];
    let mut state = AppState::new(vec![a, cmd("git log"), cmd("ls")]);
    state.collections = vec![col("c1", "one")];
    let all: Vec<String> = state
        .search_results_for_add_command("   ")
        .iter()
        .map(|c| c.text.clone())
        .collect();
    assert_eq!(all, vec!["git log", "ls"]);
    let found: Vec<String> = state
        .search_results_for_add_command(" git ")
        .iter()
        .map(|c| c.text.clone())
        .collect();
    assert_eq!(found, vec!["git log"]);
}

#[test]
fn removing_right_after_adding_restores_the_command() {
    let mut a = cmd("git status");
    a.collection_ids = vec!["c0".to_string()];
    let mut state = AppState::new(vec![a]);
    state.add_command_to_collection_at("git status", "c1", 0);
    state.drop_from_collection_at("git status", "c1", 0);
    assert_eq!(state.commands[0].collection_ids, vec!["c0".to_string()]);
}
