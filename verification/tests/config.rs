use ctrlr::config::{from_parsed, print_defaults, to_toml, ConfigEntry, ConfigProblem, ConfigSection};
use ctrlr::keymap::action::KeyAction;
use ctrlr::keymap::defaults::keymap as default_keymap;
use ctrlr::keymap::keys::{format_binding, parse_binding, Binding};
use ctrlr::keymap::{KeyContext as C, Keymap};
use ctrlr::paths::backup_path;

/// Reads TOML text the way the application does and applies it.
fn from_str(source: &str) -> (Keymap, Vec<ConfigProblem>) {
    let parsed = match toml::from_str::<toml::Table>(source) {
        Err(e) => Err(e.message().to_string()),
        Ok(table) => {
            let mut sections = Vec::new();
            if let Some(toml::Value::Table(keys)) = table.get("keys") {
                for (context, actions) in keys {
                    let mut entries = Vec::new();
                    if let toml::Value::Table(actions) = actions {
                        for (action, value) in actions {
                            let keys = match value {
                                toml::Value::String(s) => vec![s.clone()],
                                toml::Value::Array(items) => items
                                    .iter()
                                    .filter_map(|v| v.as_str().map(|s| s.to_string()))
                                    .collect(),
                                _ => vec![],
                            };
                            entries.push(ConfigEntry { action: action.clone(), keys });
                        }
                    }
                    sections.push(ConfigSection { context: context.clone(), entries });
                }
            }
            Ok(sections)
        },
    };
    from_parsed(parsed)
}

fn bound(keymap: &Keymap, context: C, action: KeyAction) -> Vec<String> {
    keymap.keys_for(context, action)
}

fn sorted(entries: &[(Binding, KeyAction)]) -> Vec<(String, &'static str)> {
    let mut v: Vec<(String, &'static str)> = entries.iter().map(|(b, a)| (format_binding(b), a.as_str())).collect();
    v.sort();
    v
}

#[test]
fn test_empty_config_keeps_every_default() {
    let (keymap, problems) = from_str("");
    assert!(problems.is_empty());
    assert_eq!(bound(&keymap, C::History, KeyAction::ToggleFavorite), vec!["f"]);
}

#[test]
fn test_a_rebind_replaces_the_defaults() {
    let (keymap, problems) = from_str("[keys.history]\ntoggle_favorite = \"v\"\n");
    assert!(problems.is_empty(), "{:?}", problems);
    assert_eq!(bound(&keymap, C::History, KeyAction::ToggleFavorite), vec!["v"]);
}

#[test]
fn test_a_single_key_and_a_list_both_work() {
    let (one, _) = from_str("[keys.history]\ntoggle_favorite = \"v\"\n");
    let (many, _) = from_str("[keys.history]\ntoggle_favorite = [\"v\", \"ctrl+b\"]\n");
    assert_eq!(bound(&one, C::History, KeyAction::ToggleFavorite), vec!["v"]);
    assert_eq!(bound(&many, C::History, KeyAction::ToggleFavorite), vec!["v", "Ctrl+b"]);
}

#[test]
fn test_an_unknown_action_keeps_its_neighbours() {
    let (keymap, problems) = from_str("[keys.history]\nlaunch_rocket = \"r\"\n");
    assert_eq!(problems.len(), 1);
    assert!(problems[0].message.contains("unknown action"));
    assert_eq!(bound(&keymap, C::History, KeyAction::ToggleFavorite), vec!["f"], "the rest of the context survives");
}

#[test]
fn test_an_unknown_context_is_reported() {
    let (keymap, problems) = from_str("[keys.nowhere]\ntoggle_favorite = \"v\"\n");
    assert_eq!(problems.len(), 1);
    assert!(problems[0].message.contains("unknown context"));
    assert_eq!(bound(&keymap, C::History, KeyAction::ToggleFavorite), vec!["f"]);
}

#[test]
fn test_an_unparseable_key_leaves_the_default_in_place() {
    let (keymap, problems) = from_str("[keys.history]\ntoggle_favorite = \"hyper+f\"\n");
    assert_eq!(problems.len(), 1);
    assert!(problems[0].message.contains("unknown modifier"));
    assert_eq!(bound(&keymap, C::History, KeyAction::ToggleFavorite), vec!["f"]);
}

#[test]
fn test_a_partly_bad_list_is_rejected_whole() {
    let (keymap, problems) = from_str("[keys.history]\ntoggle_favorite = [\"v\", \"nope\"]\n");
    assert_eq!(problems.len(), 1);
    assert_eq!(bound(&keymap, C::History, KeyAction::ToggleFavorite), vec!["f"]);
}

#[test]
fn test_broken_toml_falls_back_to_the_defaults() {
    let (keymap, problems) = from_str("[keys.history\ntoggle_favorite = \"v\"\n");
    assert_eq!(problems.len(), 1);
    assert_eq!(problems[0].entry, "config.toml");
    assert_eq!(bound(&keymap, C::History, KeyAction::ToggleFavorite), vec!["f"]);
}

#[test]
fn test_a_rebind_evicts_the_previous_owner_and_says_so() {
    let (keymap, problems) = from_str("[keys.history]\ntoggle_favorite = \"d\"\n");
    assert_eq!(bound(&keymap, C::History, KeyAction::ToggleFavorite), vec!["d"]);
    assert!(bound(&keymap, C::History, KeyAction::ToggleDetails).is_empty(), "the evicted action lost the key");
    assert_eq!(problems.len(), 1, "the eviction is reported");
    assert!(problems[0].message.contains("toggle_details"));
    assert_eq!(problems[0].message, "toggle_favorite took d from toggle_details");
    assert_eq!(problems[0].entry, "[keys.history] toggle_favorite");
    assert_eq!(problems[0].describe(), "[keys.history] toggle_favorite: toggle_favorite took d from toggle_details");
}

#[test]
fn test_scoping_only_touches_the_named_context() {
    let (keymap, _) = from_str("[keys.history]\nnavigate_down = \"m\"\n");
    assert_eq!(bound(&keymap, C::History, KeyAction::NavigateDown), vec!["m"]);
    assert_eq!(bound(&keymap, C::CollectionItems, KeyAction::NavigateDown), vec!["j"], "the other pane is untouched");
}

#[test]
fn test_sequences_survive_the_round_trip() {
    let (keymap, problems) = from_str("[keys.global]\ngo_to_top = \"z z\"\n");
    assert!(problems.is_empty(), "{:?}", problems);
    assert_eq!(bound(&keymap, C::Global, KeyAction::GoToTop), vec!["z z"]);
}

#[test]
fn test_to_toml_of_the_defaults_records_nothing() {
    let out = to_toml(&default_keymap());
    assert!(!out.contains("[keys."), "{}", out);
}

fn edited() -> Keymap {
    let mut keymap = default_keymap();
    keymap.clear_action(C::History, KeyAction::ToggleFavorite);
    keymap.bind(C::History, parse_binding("v").unwrap(), KeyAction::ToggleFavorite);
    keymap
}

#[test]
fn test_to_toml_records_only_what_changed() {
    let out = to_toml(&edited());
    assert!(out.contains("[keys.history]"), "{}", out);
    assert!(out.contains(r#"toggle_favorite = ["v"]"#), "{}", out);
    assert!(!out.contains("navigate_down"), "untouched actions stay out of the file: {}", out);
    assert!(!out.contains("[keys.global]"), "{}", out);
}

#[test]
fn test_to_toml_writes_an_empty_list_for_an_unbound_action() {
    let mut keymap = default_keymap();
    keymap.clear_action(C::History, KeyAction::ToggleFavorite);
    let out = to_toml(&keymap);
    assert!(out.contains("toggle_favorite = []"), "{}", out);
}

#[test]
fn test_to_toml_round_trips_through_from_str() {
    let mut keymap = edited();
    keymap.clear_action(C::Global, KeyAction::GoToTop);
    keymap.bind(C::Global, parse_binding("z z").unwrap(), KeyAction::GoToTop);
    keymap.clear_action(C::CollectionsList, KeyAction::DeleteCollection);
    keymap.clear_action(C::Global, KeyAction::ShowHelp);
    keymap.bind(C::Global, parse_binding("f2").unwrap(), KeyAction::ShowHelp);

    let (reloaded, problems) = from_str(&to_toml(&keymap));
    assert!(problems.is_empty(), "{:?}", problems);
    for context in C::all() {
        assert_eq!(
            sorted(reloaded.entries(context)),
            sorted(keymap.entries(context)),
            "{:?} did not round-trip",
            context
        );
    }
}

#[test]
fn test_to_toml_output_is_stable() {
    let once = to_toml(&edited());
    let (reloaded, _) = from_str(&once);
    assert_eq!(to_toml(&reloaded), once);
}

#[test]
fn mod_test_backup_path_appends_rather_than_replacing() {
    assert_eq!(
        backup_path("/home/u/.config/ctrlr/config.toml"),
        "/home/u/.config/ctrlr/config.toml.ctrlr.bak"
    );
}

#[test]
fn test_printed_defaults_round_trip_to_the_default_keymap() {
    let printed = print_defaults();
    let (keymap, problems) = from_str(&printed);
    assert!(problems.is_empty(), "{:?}", problems);
    let defaults = default_keymap();
    for context in C::all() {
        assert_eq!(sorted(keymap.entries(context)), sorted(defaults.entries(context)), "{:?} did not round-trip", context);
    }
}

#[test]
fn config_printed_defaults_list_every_action_name() {
    let printed = print_defaults();
    assert!(printed.starts_with("# ctrlr keybindings\n"));
    for action in KeyAction::all() {
        assert!(printed.contains(action.as_str()), "{:?} missing", action);
    }
    assert!(printed.contains("\n[keys.global]\nexecute = [\"Enter\"]\n"), "{}", printed);
}

#[test]
fn config_problem_without_an_entry_is_just_the_message() {
    let p = ConfigProblem { entry: String::new(), message: "boom".to_string() };
    assert_eq!(p.describe(), "boom");
}
