use ctrlr::clipboard::clipboard_outcome;
use ctrlr::help::hint_line;
use ctrlr::keymap::action::KeyAction;
use ctrlr::keymap::defaults::keymap;
use ctrlr::keymap::KeyContext;
use ctrlr::theme::CatppuccinFlavor;

#[test]
fn theme_all_lists_every_flavour_lightest_first() {
    let all = CatppuccinFlavor::all();
    let names: Vec<&str> = all.iter().map(|f| f.name()).collect();
    assert_eq!(names, vec!["Latte", "Frappe", "Macchiato", "Mocha"]);
}

#[test]
fn clipboard_outcome_explains_a_failure() {
    assert_eq!(clipboard_outcome(true, true), (true, None));
    let (ok, msg) = clipboard_outcome(false, true);
    assert!(!ok);
    assert!(msg.unwrap().contains("xclip"));
    let (_, msg) = clipboard_outcome(false, false);
    assert_eq!(msg.unwrap(), "⚠ Failed to access clipboard");
}

#[test]
fn help_hint_line_reads_the_first_key_from_the_keymap() {
    let km = keymap();
    let items = [
        (KeyAction::ShowHelp, "Help"),
        (KeyAction::ChangeTheme, "Theme"),
        (KeyAction::ToggleFavorite, "Fav"),
        (KeyAction::NewCollection, "New"),
    ];
    assert_eq!(hint_line(&km, KeyContext::History, &items), "?: Help | Ctrl+t: Theme | f: Fav");
    assert_eq!(hint_line(&km, KeyContext::Help, &items), "");
}

#[test]
fn config_file_sits_under_the_config_directory() {
    assert_eq!(
        ctrlr::paths::config_path_in(Some("/home/u/.config")),
        Some("/home/u/.config/ctrlr/config.toml".to_string())
    );
    assert_eq!(
        ctrlr::paths::config_path_in(Some("/cfg/")),
        Some("/cfg/ctrlr/config.toml".to_string())
    );
    assert_eq!(ctrlr::paths::config_path_in(None), None);
}
