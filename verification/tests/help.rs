use ctrlr::config::ConfigProblem;
use ctrlr::help::{filter_shortcuts, shortcuts_for, CONFIG_CATEGORY, MOUSE_LEN};
use ctrlr::keymap::action::KeyAction as A;
use ctrlr::keymap::defaults;
use ctrlr::keymap::keys::parse_binding;
use ctrlr::keymap::KeyContext;

#[test]
fn test_config_problems_are_listed_first() {
    let problems = vec![ConfigProblem {
        entry: "[keys.history] launch_rocket".into(),
        message: "unknown action".into(),
    }];
    let rows = shortcuts_for(&defaults::keymap(), KeyContext::History, &problems);
    assert_eq!(rows[0].category, CONFIG_CATEGORY);
    assert!(rows[0].description.contains("unknown action"));
    assert!(rows.len() > 1, "the real shortcuts follow");
}

#[test]
fn test_no_config_section_when_the_file_is_clean() {
    let rows = shortcuts_for(&defaults::keymap(), KeyContext::History, &[]);
    assert!(rows.iter().all(|r| r.category != CONFIG_CATEGORY));
}

#[test]
fn test_categories_are_contiguous() {
    for context in [KeyContext::History, KeyContext::CollectionItems] {
        let rows = shortcuts_for(&defaults::keymap(), context, &[]);
        let mut seen: Vec<&str> = Vec::new();
        let mut previous: Option<&str> = None;
        for row in &rows {
            if previous != Some(row.category) {
                assert!(
                    !seen.contains(&row.category),
                    "{} appears in two separate runs",
                    row.category
                );
                seen.push(row.category);
                previous = Some(row.category);
            }
        }
    }
}

#[test]
fn test_mouse_rows_carry_no_action() {
    let rows = shortcuts_for(&defaults::keymap(), KeyContext::History, &[]);
    let mouse: Vec<_> = rows.iter().filter(|r| r.category == "Mouse").collect();
    assert_eq!(mouse.len(), MOUSE_LEN);
    assert!(mouse.iter().all(|r| r.action.is_none()));
}

#[test]
fn test_listed_keys_come_from_the_keymap() {
    let mut keymap = defaults::keymap();
    keymap.clear_action(KeyContext::History, A::ToggleFavorite);
    keymap.bind(KeyContext::History, parse_binding("v").unwrap(), A::ToggleFavorite);
    let rows = shortcuts_for(&keymap, KeyContext::History, &[]);
    let favourite = rows
        .iter()
        .find(|r| r.action == Some(A::ToggleFavorite))
        .expect("toggle_favorite is listed");
    assert_eq!(favourite.keys, vec!["v"]);
}

#[test]
fn test_page_up_does_not_advertise_ctrl_u_in_the_search_bar() {
    let rows = shortcuts_for(&defaults::keymap(), KeyContext::Search, &[]);
    let page_up = rows.iter().find(|r| r.action == Some(A::PageUp));
    if let Some(page_up) = page_up {
        assert!(
            !page_up.keys.iter().any(|k| k == "Ctrl+u"),
            "Ctrl+u belongs to Clear Search here, not Page Up"
        );
    }
    let history = shortcuts_for(&defaults::keymap(), KeyContext::History, &[]);
    let page_up = history
        .iter()
        .find(|r| r.action == Some(A::PageUp))
        .expect("page_up is listed outside the search bar");
    assert!(page_up.keys.iter().any(|k| k == "Ctrl+u"));
}

#[test]
fn help_rows_follow_the_category_order() {
    let rows = shortcuts_for(&defaults::keymap(), KeyContext::History, &[]);
    let order: Vec<&str> = {
        let mut v: Vec<&str> = Vec::new();
        for r in &rows {
            if v.last() != Some(&r.category) {
                v.push(r.category);
            }
        }
        v
    };
    assert_eq!(order.first(), Some(&"Navigation"));
    assert_eq!(order.last(), Some(&"Mouse"));
    assert!(rows.iter().all(|r| !r.keys.is_empty()));
}

#[test]
fn help_search_ranks_names_and_keys() {
    let rows = shortcuts_for(&defaults::keymap(), KeyContext::History, &[]);
    assert_eq!(filter_shortcuts(&rows, "").len(), rows.len());
    let hits = filter_shortcuts(&rows, "Favorite");
    assert!(hits.iter().take(2).any(|r| r.action == Some(A::ToggleFavorite)));
    assert!(hits.iter().take(2).any(|r| r.action == Some(A::ViewFavorites)));
    let by_key = filter_shortcuts(&rows, "ctrl+u");
    assert!(by_key[0].keys.iter().any(|k| k.to_lowercase().contains("ctrl+u")));
    assert!(filter_shortcuts(&rows, "zzzzqqq").is_empty());
}
