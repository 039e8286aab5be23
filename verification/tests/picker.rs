use ctrlr::keymap::KeyContext;
use ctrlr::picker::{active_context, cancel_step, pane_context, AppState, CancelStep, ListState, Overlays};
use ctrlr::state::{ActivePane, Command, InputMode, ViewMode};
use ctrlr::storage::Collection;

fn cmd(text: &str) -> Command {
    Command {
        id: text.to_string(),
        text: text.to_string(),
        tags: vec![],
        collection_ids: vec![],
        favorite: false,
        _context: vec![],
        use_count: 0,
        last_used: None,
        runs_here: 0,
    }
}

fn state_with(texts: &[&str]) -> AppState {
    AppState::new(texts.iter().map(|t| cmd(t)).collect())
}

/// A state where `here` was recorded in the current directory and the rest
/// were not.
fn state_with_runs_here(texts: &[&str], here: &[&str]) -> AppState {
    let commands = texts
        .iter()
        .map(|t| {
            let mut c = cmd(t);
            if here.contains(t) {
                c.runs_here = 3;
            }
            c
        })
        .collect();
    let mut state = AppState::new(commands);
    state.cwd = Some("/work/repo".to_string());
    state
}

fn texts(state: &AppState) -> Vec<String> {
    state.filtered.iter().map(|c| c.text.clone()).collect()
}

#[test]
fn test_scope_filters_with_empty_query() {
    let mut state = state_with_runs_here(&["cargo build", "ssh box", "ls"], &["cargo build"]);
    state.toggle_cwd_scope();

    assert_eq!(state.filtered.len(), 1);
    assert_eq!(state.filtered[0].text, "cargo build");
}

#[test]
fn test_scope_filters_with_query() {
    let mut state =
        state_with_runs_here(&["cargo build", "cargo test", "cargo fmt"], &["cargo test"]);
    state.toggle_cwd_scope();
    state.search_query = "cargo".to_string();
    state.filter_commands();

    assert_eq!(state.filtered.len(), 1);
    assert_eq!(state.filtered[0].text, "cargo test");
}

#[test]
fn test_toggle_scope_off_restores_the_full_list() {
    let mut state = state_with_runs_here(&["cargo build", "ssh box"], &["cargo build"]);
    state.toggle_cwd_scope();
    assert_eq!(state.filtered.len(), 1);

    state.toggle_cwd_scope();
    assert!(!state.scope_to_cwd);
    assert_eq!(state.filtered.len(), 2);
}

#[test]
fn test_toggle_scope_refuses_when_nothing_recorded_here() {
    let mut state = state_with_runs_here(&["cargo build", "ssh box"], &[]);
    let message = state.toggle_cwd_scope();

    assert!(!state.scope_to_cwd);
    assert_eq!(state.filtered.len(), 2);
    assert!(message.contains("Nothing recorded"));
}

#[test]
fn test_toggle_scope_without_a_known_cwd() {
    let mut state = state_with(&["cargo build"]);
    let message = state.toggle_cwd_scope();

    assert!(!state.scope_to_cwd);
    assert!(message.contains("unknown"));
}

#[test]
fn test_ranking_prefers_commands_run_here() {
    let mut state = state_with_runs_here(&["cargo build", "cargo test"], &["cargo test"]);
    state.search_query = "cargo".to_string();
    state.filter_commands();

    assert_eq!(
        state.filtered[0].text, "cargo test",
        "a command recorded in this directory outranks an equal one that was not"
    );
}

#[test]
fn test_favorite_still_outranks_the_directory() {
    let mut commands = vec![cmd("cargo build"), cmd("cargo test")];
    commands[0].favorite = true;
    commands[1].runs_here = 20;
    let mut state = AppState::new(commands);
    state.search_query = "cargo".to_string();
    state.filter_commands();

    assert_eq!(state.filtered[0].text, "cargo build");
}

#[test]
fn test_cwd_display_shortens_long_paths() {
    let mut state = state_with(&[]);
    state.cwd = Some("/home/u/dev/rust/ctrlr".to_string());
    assert_eq!(state.cwd_display(), ".../rust/ctrlr");

    state.cwd = Some("/tmp".to_string());
    assert_eq!(state.cwd_display(), "/tmp");

    state.cwd = None;
    assert_eq!(state.cwd_display(), "?");
}

#[test]
fn test_clear_search_resets_query_and_list() {
    let mut state = state_with(&["git status", "cargo build", "ls -la"]);
    state.search_query = "git".to_string();
    state.filter_commands();
    assert_eq!(state.filtered.len(), 1);

    state.clear_search();

    assert!(state.search_query.is_empty());
    assert_eq!(state.filtered.len(), 3, "full list must come back");
}

#[test]
fn test_clear_search_resets_selection_to_top() {
    let mut state = state_with(&["git status", "cargo build", "ls -la"]);
    state.search_query = "a".to_string();
    state.filter_commands();
    state.selected_index = 1;
    state.list_state.select(Some(1));

    state.clear_search();

    assert_eq!(state.selected_index, 0);
    assert_eq!(state.list_state.selected(), Some(0));
}

#[test]
fn test_clear_search_on_empty_query_is_noop() {
    let mut state = state_with(&["git status", "cargo build"]);
    state.clear_search();
    state.clear_search();

    assert!(state.search_query.is_empty());
    assert_eq!(state.filtered.len(), 2);
    assert_eq!(state.selected_index, 0);
}

#[test]
fn test_handle_esc_clears_query_without_quitting() {
    let mut state = state_with(&["git status", "cargo build"]);
    state.search_query = "git".to_string();
    state.filter_commands();

    let should_quit = state.handle_esc();

    assert!(!should_quit, "Esc with a query must not quit");
    assert!(state.search_query.is_empty());
    assert_eq!(state.filtered.len(), 2);
}

#[test]
fn test_handle_esc_on_empty_query_signals_quit() {
    let mut state = state_with(&["git status"]);
    assert!(state.handle_esc(), "Esc with no query must quit");
}

#[test]
fn picker_cwd_display_with_home() {
    let mut state = state_with(&[]);
    state.cwd = Some("/home/u".to_string());
    assert_eq!(state.cwd_display_with(Some("/home/u")), "~");
    state.cwd = Some("/home/u/src".to_string());
    assert_eq!(state.cwd_display_with(Some("/home/u")), "~/src");
    state.cwd = Some("/home/u/src/a/b".to_string());
    assert_eq!(state.cwd_display_with(Some("/home/u")), ".../a/b");
    state.cwd = Some("/srv/x".to_string());
    assert_eq!(state.cwd_display_with(Some("/home/u")), "/srv/x");
}

#[test]
fn picker_scope_message_names_the_directory() {
    let mut state = state_with_runs_here(&["cargo build", "ls"], &["ls"]);
    let msg = state.toggle_cwd_scope_with(0, Some("/home/u"));
    assert_eq!(msg, "Scoped to /work/repo");
    assert_eq!(texts(&state), vec!["ls"]);
    let msg = state.toggle_cwd_scope_with(0, Some("/home/u"));
    assert_eq!(msg, "Showing all directories");
    assert_eq!(texts(&state), vec!["cargo build", "ls"]);
}

#[test]
fn picker_query_keeps_only_matches_best_first() {
    let mut commands = vec![cmd("ls -la"), cmd("git status"), cmd("git stash")];
    commands[2].use_count = 5;
    let mut state = AppState::new(commands);
    state.search_query = "git".to_string();
    state.filter_commands_at(0);
    assert_eq!(texts(&state), vec!["git stash", "git status"]);
    assert_eq!(state.matched_indices.len(), 2);
    assert_eq!(state.matched_indices[0], Some(vec![0, 1, 2]));
}

#[test]
fn picker_tags_match_without_highlight() {
    let mut tagged = cmd("docker compose up");
    tagged.tags = vec!["deploy".to_string()];
    let mut state = AppState::new(vec![cmd("ls"), tagged]);
    state.search_query = "deploy".to_string();
    state.filter_commands_at(0);
    assert_eq!(texts(&state), vec!["docker compose up"]);
    assert_eq!(state.matched_indices, vec![None]);
}

#[test]
fn picker_favorites_and_collections_tabs() {
    let mut a = cmd("a");
    a.favorite = true;
    let mut b = cmd("b");
    b.collection_ids = vec!["c1".to_string()];
    let mut state = AppState::new(vec![a, b, cmd("c")]);
    state.view_mode = ViewMode::Favorites;
    state.filter_commands_at(0);
    assert_eq!(texts(&state), vec!["a"]);

    state.view_mode = ViewMode::Collections;
    state.collections = vec![Collection { id: "c1".to_string(), name: "one".to_string() }];
    state.filter_commands_at(0);
    assert_eq!(texts(&state), vec!["b"]);
    assert_eq!(state.collection_commands.len(), 1);

    state.selected_collection_index = 3;
    state.filter_commands_at(0);
    assert!(state.filtered.is_empty());
}

#[test]
fn picker_navigation_wraps_and_pages() {
    let names: Vec<String> = (0..30).map(|i| format!("cmd{}", i)).collect();
    let refs: Vec<&str> = names.iter().map(|s| s.as_str()).collect();
    let mut state = state_with(&refs);
    state.navigate_up();
    assert_eq!(state.selected_index, 29);
    state.navigate_down();
    assert_eq!(state.selected_index, 0);
    state.terminal_height = 24;
    state.navigate_page_down();
    assert_eq!(state.selected_index, 10);
    state.navigate_page_up();
    assert_eq!(state.selected_index, 0);
    state.terminal_height = 4;
    state.navigate_page_down();
    assert_eq!(state.selected_index, 5);
    state.go_to_bottom();
    assert_eq!(state.selected_index, 29);
    assert_eq!(state.list_state.selected(), Some(29));
    state.navigate_page_down();
    assert_eq!(state.selected_index, 29);
    state.go_to_top();
    assert_eq!(state.list_state, ListState { offset: 0, selected: Some(0) });
}

#[test]
fn picker_panes_cycle() {
    let mut state = state_with(&["x"]);
    assert_eq!(state.active_pane, ActivePane::Search);
    state.switch_pane();
    assert_eq!(state.active_pane, ActivePane::History);
    state.switch_pane();
    assert_eq!(state.active_pane, ActivePane::Search);
    state.pane_up();
    assert_eq!(state.active_pane, ActivePane::History);
    state.view_mode = ViewMode::Collections;
    state.active_pane = ActivePane::Search;
    state.switch_pane();
    assert_eq!(state.active_pane, ActivePane::CollectionsList);
    state.pane_right();
    assert_eq!(state.active_pane, ActivePane::CollectionItems);
    state.pane_left();
    assert_eq!(state.active_pane, ActivePane::CollectionsList);
    state.pane_down();
    assert_eq!(state.active_pane, ActivePane::Search);
}

#[test]
fn picker_search_typing_and_selection() {
    let mut state = state_with(&["git status", "ls"]);
    state.add_to_search('l');
    assert_eq!(state.search_query, "l");
    assert_eq!(state.selected_command(), Some("ls".to_string()));
    state.remove_from_search();
    assert_eq!(state.search_query, "");
    assert_eq!(state.filtered.len(), 2);
    state.remove_from_search();
    assert_eq!(state.search_query, "");
    state.selected_index = 7;
    assert_eq!(state.selected_command(), None);
    assert!(state.active_command().is_none());
    assert!(state.selected_command_tags().is_empty());
}

#[test]
fn picker_collection_navigation() {
    let mut state = state_with(&["x"]);
    state.collections = vec![
        Collection { id: "1".to_string(), name: "a".to_string() },
        Collection { id: "2".to_string(), name: "b".to_string() },
    ];
    state.navigate_collection_down();
    assert_eq!(state.selected_collection_index, 1);
    state.navigate_collection_down();
    assert_eq!(state.selected_collection_index, 0);
    state.go_to_collection_bottom();
    assert_eq!(state.selected_collection_index, 1);
    assert_eq!(state.selected_collection().map(|c| c.name.as_str()), Some("b"));
    state.navigate_collection_up();
    assert_eq!(state.selected_collection_index, 0);
    state.navigate_collection_page_down();
    assert_eq!(state.selected_collection_index, 1);
    state.navigate_collection_page_up();
    assert_eq!(state.selected_collection_index, 0);
    state.go_to_collection_top();
    assert_eq!(state.collection_list_state.selected(), Some(0));
}

#[test]
fn picker_running_moves_the_command_to_the_front() {
    let mut state = state_with(&["a", "b", "c"]);
    state.selected_index = 2;
    let ran = state.mark_executed_at(1000);
    assert_eq!(ran, Some("c".to_string()));
    assert_eq!(texts(&state), vec!["c", "a", "b"]);
    assert_eq!(state.commands[0].use_count, 1);
    assert_eq!(state.commands[0].last_used, Some(1000));
    assert_eq!(state.selected_index, 0);
    state.selected_index = 9;
    assert_eq!(state.mark_executed_at(1000), None);
}

#[test]
fn picker_favorite_toggles_the_selected_command() {
    let mut state = state_with(&["a", "b"]);
    state.selected_index = 1;
    assert_eq!(state.toggle_favorite_at(0), Some(("b".to_string(), true)));
    assert!(state.commands[1].favorite);
    state.view_mode = ViewMode::Favorites;
    state.filter_commands_at(0);
    assert_eq!(texts(&state), vec!["b"]);
    state.selected_index = 0;
    assert_eq!(state.toggle_favorite_at(0), Some(("b".to_string(), false)));
    assert!(state.filtered.is_empty());
}

fn tagged(text: &str, tags: &[&str]) -> Command {
    let mut c = cmd(text);
    c.tags = tags.iter().map(|t| t.to_string()).collect();
    c
}

#[test]
fn picker_tag_fragment_and_suggestions() {
    let mut state = AppState::new(vec![tagged("a", &["deploy", "Docker"]), tagged("b", &["build", "deploy"])]);
    assert_eq!(state.get_all_tags(), vec!["Docker", "build", "deploy"]);
    state.tag_input = "x, de".to_string();
    assert_eq!(state.current_tag_fragment(), "de");
    assert_eq!(state.filtered_tags(), vec!["deploy"]);
    state.tag_input = "D".to_string();
    assert_eq!(state.filtered_tags(), vec!["Docker", "build", "deploy"]);
    state.tag_input = "x,  ".to_string();
    assert_eq!(state.filtered_tags(), vec!["Docker", "build", "deploy"]);
}

#[test]
fn picker_apply_selected_tag_replaces_the_fragment() {
    let mut state = state_with(&["a"]);
    state.tag_input = " one ,tw".to_string();
    state.apply_selected_tag("two".to_string());
    assert_eq!(state.tag_input, "one, two, ");
    state.tag_input = String::new();
    state.apply_selected_tag("x".to_string());
    assert_eq!(state.tag_input, "x, ");
}

#[test]
fn picker_set_tags_keeps_the_command_selected() {
    let mut state = state_with(&["git status", "git stash", "ls"]);
    state.search_query = "git".to_string();
    state.filter_commands_at(0);
    state.selected_index = 1;
    let selected = state.filtered[1].text.clone();
    let changed = state.set_tags_at(vec!["vcs".to_string()], 0);
    assert_eq!(changed, Some(selected.clone()));
    assert_eq!(state.filtered[state.selected_index].text, selected);
    assert_eq!(state.selected_command_tags(), vec!["vcs".to_string()]);
}

#[test]
fn picker_filtered_collections_ignore_case() {
    let mut state = state_with(&[]);
    state.collections = vec![
        Collection { id: "1".to_string(), name: "Deploy".to_string() },
        Collection { id: "2".to_string(), name: "build".to_string() },
    ];
    let names: Vec<&str> = state.filtered_collections("DEP").iter().map(|c| c.name.as_str()).collect();
    assert_eq!(names, vec!["Deploy"]);
    assert_eq!(state.filtered_collections("").len(), 2);
}

#[test]
fn picker_overlays_take_keys_in_order() {
    let mut o = Overlays {
        integration_popup_open: true,
        context_menu_open: true,
        theme_popup_open: true,
        help_open: true,
        export_popup_open: true,
        import_popup_open: false,
    };
    assert_eq!(active_context(&o, InputMode::TagInput, ActivePane::History), KeyContext::IntegrationPopup);
    o.integration_popup_open = false;
    assert_eq!(active_context(&o, InputMode::TagInput, ActivePane::History), KeyContext::ContextMenu);
    o.context_menu_open = false;
    assert_eq!(active_context(&o, InputMode::TagInput, ActivePane::History), KeyContext::ThemePopup);
    o.theme_popup_open = false;
    assert_eq!(active_context(&o, InputMode::TagInput, ActivePane::History), KeyContext::Help);
    o.help_open = false;
    assert_eq!(active_context(&o, InputMode::TagInput, ActivePane::History), KeyContext::ImportExport);
    o.export_popup_open = false;
    assert_eq!(active_context(&o, InputMode::TagInput, ActivePane::History), KeyContext::TagInput);
    assert_eq!(active_context(&o, InputMode::Normal, ActivePane::History), KeyContext::History);
    assert_eq!(pane_context(ActivePane::CollectionItems), KeyContext::CollectionItems);
}

#[test]
fn picker_global_movement_takes_focus_from_search() {
    let mut state = state_with(&["a", "b", "c"]);
    assert_eq!(state.active_pane, ActivePane::Search);
    state.handle_navigation_down();
    assert_eq!(state.active_pane, ActivePane::History);
    assert_eq!(state.selected_index, 1);
    assert_eq!(state.list_state.selected(), Some(1));
    state.handle_navigation_up();
    state.handle_navigation_up();
    assert_eq!(state.selected_index, 2);
    state.handle_go_to_top();
    assert_eq!(state.selected_index, 0);
    state.handle_go_to_bottom();
    assert_eq!(state.selected_index, 2);
    state.handle_page_up();
    assert_eq!(state.selected_index, 0);
    state.handle_page_down();
    assert_eq!(state.selected_index, 2);
}

#[test]
fn picker_collection_list_moves_its_own_selection() {
    let mut state = state_with(&["x"]);
    state.collections = vec![
        Collection { id: "1".to_string(), name: "a".to_string() },
        Collection { id: "2".to_string(), name: "b".to_string() },
    ];
    state.switch_view(ViewMode::Collections);
    assert_eq!(state.active_pane, ActivePane::CollectionsList);
    state.handle_navigation_down();
    assert_eq!(state.selected_collection_index, 1);
    assert_eq!(state.collection_list_state.selected(), Some(1));
    assert_eq!(state.selected_index, 0);
    let (outcome, recorded) = state.activate_selected_at(0);
    assert_eq!(outcome, ctrlr::state::Action::Continue);
    assert!(recorded.is_none());
    assert_eq!(state.active_pane, ActivePane::CollectionItems);
}

#[test]
fn picker_enter_runs_the_selection() {
    let mut state = state_with(&["a", "b"]);
    state.selected_index = 1;
    let (outcome, recorded) = state.activate_selected_at(50);
    assert_eq!(outcome, ctrlr::state::Action::Execute("b".to_string()));
    assert_eq!(recorded, Some("b".to_string()));
    assert_eq!(state.commands[0].text, "b");
    assert!(state.mark_executed_for_text_at("a", 60));
    assert_eq!(state.commands[0].text, "a");
    assert!(!state.mark_executed_for_text_at("zzz", 60));
    state.switch_view(ViewMode::Favorites);
    assert!(state.filtered.is_empty());
    let (outcome, recorded) = state.activate_selected_at(70);
    assert_eq!(outcome, ctrlr::state::Action::Continue);
    assert!(recorded.is_none());
}

#[test]
fn a_run_moves_the_command_to_the_front_and_counts_it() {
    let mut state = state_with(&["a", "b", "c"]);
    state.selected_index = 2;
    let ran = state.mark_executed_at(500);
    assert_eq!(ran, Some("c".to_string()));
    let order: Vec<String> = state.commands.iter().map(|c| c.text.clone()).collect();
    assert_eq!(order, vec!["c", "a", "b"]);
    assert_eq!(state.commands[0].use_count, 1);
    assert_eq!(state.commands[0].last_used, Some(500));
    assert_eq!(state.selected_index, 0);
}

#[test]
fn cancel_closes_the_topmost_layer_first() {
    let mut o = Overlays {
        integration_popup_open: false,
        context_menu_open: false,
        theme_popup_open: true,
        help_open: true,
        export_popup_open: false,
        import_popup_open: false,
    };
    assert_eq!(cancel_step(&o, InputMode::TagInput), CancelStep::ThemePopup);
    o.theme_popup_open = false;
    assert_eq!(cancel_step(&o, InputMode::TagInput), CancelStep::Help);
    o.help_open = false;
    assert_eq!(cancel_step(&o, InputMode::TagInput), CancelStep::Input);
    assert_eq!(cancel_step(&o, InputMode::Normal), CancelStep::Pane);
}

#[test]
fn much_use_can_outweigh_a_favourite() {
    let mut commands = vec![cmd("cargo build"), cmd("cargo test")];
    commands[0].use_count = 100;
    commands[1].favorite = true;
    let mut state = AppState::new(commands);
    state.search_query = "cargo".to_string();
    state.filter_commands();
    assert_eq!(texts(&state), vec!["cargo build", "cargo test"]);
}

#[test]
fn a_favourite_stays_above_a_slightly_better_match() {
    let mut commands = vec![cmd("cargo"), cmd("cargo build")];
    commands[1].favorite = true;
    let mut state = AppState::new(commands);
    state.search_query = "cargo".to_string();
    state.filter_commands();
    assert_eq!(state.filtered[0].text, "cargo build");
}
