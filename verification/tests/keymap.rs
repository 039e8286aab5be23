use ctrlr::keymap::action::KeyAction;
use ctrlr::keymap::defaults::{keymap, table};
use ctrlr::keymap::keys::{
    format_binding, format_chord, parse_binding, parse_chord, Binding, KeyChord, KeyCode, KeyEvent,
    KeyModifiers,
};
use ctrlr::keymap::{KeyContext, Keymap, Resolved};

fn chord(s: &str) -> KeyChord {
    parse_chord(s).unwrap()
}

fn none() -> KeyModifiers {
    KeyModifiers::none()
}

#[test]
fn test_key_action_names_round_trip() {
    for action in KeyAction::all() {
        assert_eq!(KeyAction::from_str(action.as_str()), Some(action), "{:?} does not round-trip", action);
    }
}

#[test]
fn test_key_action_names_are_unique() {
    let mut names: Vec<&str> = KeyAction::all().iter().map(|a| a.as_str()).collect();
    let total = names.len();
    names.sort_unstable();
    names.dedup();
    assert_eq!(names.len(), total, "two actions share a name");
}

#[test]
fn test_key_action_names_are_snake_case() {
    for action in KeyAction::all() {
        let name = action.as_str();
        assert!(name.chars().all(|c| c.is_ascii_lowercase() || c == '_'), "{} is not snake_case", name);
    }
}

#[test]
fn keymap_context_names_round_trip() {
    for context in KeyContext::all() {
        assert_eq!(KeyContext::from_str(context.as_str()), Some(context));
    }
    assert_eq!(KeyContext::from_str("nonesuch"), None);
    assert_eq!(KeyContext::all().len(), 13);
}

#[test]
fn test_parse_chord_plain_characters() {
    assert_eq!(chord("j"), KeyChord::new(KeyCode::Char('j'), none()));
    assert_eq!(chord("?"), KeyChord::new(KeyCode::Char('?'), none()));
    assert_eq!(chord("<"), KeyChord::new(KeyCode::Char('<'), none()));
    assert_eq!(chord("."), KeyChord::new(KeyCode::Char('.'), none()));
    assert_eq!(chord("1"), KeyChord::new(KeyCode::Char('1'), none()));
}

#[test]
fn test_parse_chord_is_case_sensitive_for_characters() {
    assert_ne!(chord("g"), chord("G"));
}

#[test]
fn test_parse_chord_modifiers() {
    assert_eq!(chord("ctrl+d"), KeyChord::new(KeyCode::Char('d'), KeyModifiers::control()));
    assert_eq!(chord("Alt+<"), KeyChord::new(KeyCode::Char('<'), KeyModifiers::alt()));
    assert_eq!(
        chord("CTRL+ALT+x"),
        KeyChord::new(KeyCode::Char('x'), KeyModifiers::control().with(KeyModifiers::alt()))
    );
}

#[test]
fn test_parse_chord_named_keys() {
    assert_eq!(chord("pagedown").code, KeyCode::PageDown);
    assert_eq!(chord("PgUp").code, KeyCode::PageUp);
    assert_eq!(chord("f1").code, KeyCode::F(1));
    assert_eq!(chord("F12").code, KeyCode::F(12));
    assert_eq!(chord("esc").code, KeyCode::Esc);
    assert_eq!(chord("space").code, KeyCode::Char(' '));
}

#[test]
fn test_parse_chord_handles_a_literal_plus() {
    assert_eq!(chord("+").code, KeyCode::Char('+'));
    assert_eq!(chord("ctrl++"), KeyChord::new(KeyCode::Char('+'), KeyModifiers::control()));
}

#[test]
fn test_parse_chord_rejects_nonsense() {
    assert!(parse_chord("").is_err());
    assert!(parse_chord("hyper+x").is_err());
    assert!(parse_chord("f13").is_err());
    assert!(parse_chord("pagesideways").is_err());
}

#[test]
fn test_parse_binding_sequences() {
    assert_eq!(parse_binding("g g").unwrap(), Binding::Chord(chord("g"), chord("g")));
    assert_eq!(parse_binding("G").unwrap(), Binding::Single(chord("G")));
    assert!(parse_binding("a b c").is_err());
    assert!(parse_binding("   ").is_err());
}

#[test]
fn test_format_round_trips_through_parse() {
    for s in ["j", "G", "?", "<", "ctrl+d", "alt+<", "f1", "pagedown", "esc", "g g", "ctrl++"] {
        let parsed = parse_binding(s).unwrap();
        let printed = format_binding(&parsed);
        assert_eq!(parse_binding(&printed).unwrap(), parsed, "{} printed as {} and did not survive", s, printed);
    }
}

#[test]
fn test_shift_is_ignored_for_characters_but_kept_for_named_keys() {
    let g = chord("G");
    assert!(g.matches(&KeyEvent::new(KeyCode::Char('G'), none())));
    assert!(g.matches(&KeyEvent::new(KeyCode::Char('G'), KeyModifiers::shift())));
    assert!(!g.matches(&KeyEvent::new(KeyCode::Char('g'), none())));

    let tab = chord("shift+tab");
    assert!(tab.matches(&KeyEvent::new(KeyCode::Tab, KeyModifiers::shift())));
    assert!(!tab.matches(&KeyEvent::new(KeyCode::Tab, none())));
}

#[test]
fn test_modifiers_must_match_exactly() {
    let c = chord("ctrl+d");
    assert!(c.matches(&KeyEvent::new(KeyCode::Char('d'), KeyModifiers::control())));
    assert!(!c.matches(&KeyEvent::new(KeyCode::Char('d'), none())));
    assert!(!c.matches(&KeyEvent::new(
        KeyCode::Char('d'),
        KeyModifiers::control().with(KeyModifiers::alt())
    )));
}

#[test]
fn keys_error_messages_name_the_culprit() {
    assert_eq!(parse_chord("").unwrap_err().message(), "empty key");
    assert_eq!(
        parse_chord("Hyper+x").unwrap_err().message(),
        "unknown modifier `hyper` in `Hyper+x`; ctrlr understands ctrl, alt and shift"
    );
    assert_eq!(parse_chord("F13").unwrap_err().message(), "unknown key `f13` in `F13`");
    assert_eq!(
        parse_binding("a b c").unwrap_err().message(),
        "`a b c` is longer than two keys; ctrlr only tracks one pending key"
    );
}

#[test]
fn keys_format_writes_the_canonical_names() {
    assert_eq!(format_chord(&chord("ctrl+alt+pgdn")), "Ctrl+Alt+PageDown");
    assert_eq!(format_chord(&chord("shift+TAB")), "Shift+Tab");
    assert_eq!(format_chord(&chord("space")), "Space");
    assert_eq!(format_chord(&chord("f10")), "F10");
    assert_eq!(format_binding(&parse_binding("g g").unwrap()), "g g");
    assert_eq!(format_chord(&KeyChord::new(KeyCode::CapsLock, none())), "CapsLock");
}

#[test]
fn test_every_default_key_string_parses() {
    for (_, keys, _) in table() {
        for key in keys.split(", ") {
            assert!(parse_binding(key).is_ok(), "`{}` does not parse", key);
        }
    }
}

#[test]
fn test_no_key_is_bound_twice_within_a_context() {
    let km = keymap();
    for context in KeyContext::all() {
        let mut seen: Vec<&Binding> = vec![];
        for (binding, action) in km.entries(context) {
            assert!(
                !seen.contains(&binding),
                "{:?} binds {} twice (second is {:?})",
                context,
                format_binding(binding),
                action
            );
            seen.push(binding);
        }
    }
}

#[test]
fn test_no_single_binding_shadows_a_chord_prefix() {
    let km = keymap();
    for context in KeyContext::all() {
        let entries = km.entries(context);
        for (binding, _) in entries {
            let Binding::Chord(first, _) = binding else {
                continue;
            };
            for (other, action) in entries {
                if let Binding::Single(single) = other {
                    assert_ne!(single, first, "{:?}: single {:?} shadows a chord", context, action);
                }
            }
        }
    }
}

#[test]
fn test_every_exclusive_context_can_be_left() {
    let km = keymap();
    for context in KeyContext::all() {
        if context == KeyContext::Global || context.falls_through_to_global() {
            continue;
        }
        let has_exit = km
            .entries(context)
            .iter()
            .any(|(_, a)| matches!(a, KeyAction::Cancel | KeyAction::Decline));
        assert!(has_exit, "{:?} has no cancel key", context);
    }
}

fn esc() -> KeyEvent {
    KeyEvent::new(KeyCode::Esc, none())
}

fn ctrl_c() -> KeyEvent {
    KeyEvent::new(KeyCode::Char('c'), KeyModifiers::control())
}

#[test]
fn test_esc_and_ctrl_c_resolve_to_cancel_everywhere() {
    let km = keymap();
    for context in KeyContext::all() {
        for key in [esc(), ctrl_c()] {
            let resolved = km.resolve(context, None, &key);
            assert!(
                matches!(resolved, Resolved::Action(_, KeyAction::Cancel | KeyAction::Decline)),
                "{:?} does not back out of {:?}, it resolved to {:?}",
                key.code,
                context,
                resolved
            );
            assert_eq!(resolved, km.resolve(context, None, &esc()), "Ctrl+C and Esc disagree on {:?}", context);
        }
    }
}

#[test]
fn test_chain_resolution_table() {
    let km = keymap();
    let n = none();
    let ctrl = KeyModifiers::control();
    let table: Vec<(KeyContext, KeyCode, KeyModifiers, Resolved)> = vec![
        (KeyContext::Search, KeyCode::Char('1'), n, Resolved::Text(KeyContext::Search, '1')),
        (KeyContext::Search, KeyCode::Char('?'), n, Resolved::Text(KeyContext::Search, '?')),
        (KeyContext::Search, KeyCode::Char('<'), n, Resolved::Text(KeyContext::Search, '<')),
        (KeyContext::Search, KeyCode::Char('.'), n, Resolved::Text(KeyContext::Search, '.')),
        (KeyContext::Search, KeyCode::Char('c'), n, Resolved::Text(KeyContext::Search, 'c')),
        (KeyContext::Search, KeyCode::Char('g'), n, Resolved::Text(KeyContext::Search, 'g')),
        (KeyContext::Search, KeyCode::Char('G'), n, Resolved::Text(KeyContext::Search, 'G')),
        (KeyContext::History, KeyCode::Char('1'), n, Resolved::Action(KeyContext::Global, KeyAction::ViewHistory)),
        (KeyContext::History, KeyCode::Char('?'), n, Resolved::Action(KeyContext::Global, KeyAction::ShowHelp)),
        (KeyContext::History, KeyCode::Char('<'), n, Resolved::Action(KeyContext::Global, KeyAction::ShrinkPane)),
        (KeyContext::History, KeyCode::Char('.'), n, Resolved::Action(KeyContext::Global, KeyAction::ScopeCwd)),
        (KeyContext::History, KeyCode::Char('c'), n, Resolved::Action(KeyContext::Global, KeyAction::AddToCollection)),
        (KeyContext::History, KeyCode::Char('G'), n, Resolved::Action(KeyContext::Global, KeyAction::GoToBottom)),
        (KeyContext::Search, KeyCode::Enter, n, Resolved::Action(KeyContext::Global, KeyAction::Execute)),
        (KeyContext::Search, KeyCode::Tab, n, Resolved::Action(KeyContext::Global, KeyAction::SwitchPane)),
        (KeyContext::Search, KeyCode::Down, n, Resolved::Action(KeyContext::Global, KeyAction::NavigateDown)),
        (KeyContext::Search, KeyCode::F(1), n, Resolved::Action(KeyContext::Global, KeyAction::ShowHelp)),
        (KeyContext::Search, KeyCode::Char('u'), ctrl, Resolved::Action(KeyContext::Search, KeyAction::ClearSearch)),
        (KeyContext::History, KeyCode::Char('u'), ctrl, Resolved::Action(KeyContext::Global, KeyAction::PageUp)),
        (KeyContext::History, KeyCode::Char('d'), n, Resolved::Action(KeyContext::History, KeyAction::ToggleDetails)),
        (KeyContext::CollectionItems, KeyCode::Char('d'), n, Resolved::Action(KeyContext::CollectionItems, KeyAction::ToggleDetails)),
        (KeyContext::CollectionsList, KeyCode::Char('d'), n, Resolved::Action(KeyContext::CollectionsList, KeyAction::DeleteCollection)),
        (KeyContext::History, KeyCode::Char('e'), n, Resolved::Action(KeyContext::History, KeyAction::EditCommand)),
        (KeyContext::CollectionsList, KeyCode::Char('e'), n, Resolved::Action(KeyContext::CollectionsList, KeyAction::EditCollection)),
        (KeyContext::History, KeyCode::Backspace, n, Resolved::Action(KeyContext::History, KeyAction::DeleteCharBackward)),
        (KeyContext::Search, KeyCode::Backspace, n, Resolved::Action(KeyContext::Search, KeyAction::DeleteCharBackward)),
        (KeyContext::Help, KeyCode::Char('t'), ctrl, Resolved::Unbound),
        (KeyContext::Help, KeyCode::Char('t'), n, Resolved::Text(KeyContext::Help, 't')),
        (KeyContext::TagInput, KeyCode::Tab, n, Resolved::Action(KeyContext::TagInput, KeyAction::AcceptSuggestion)),
        (KeyContext::History, KeyCode::Char('z'), n, Resolved::Unbound),
    ];
    for (context, code, mods, expected) in table {
        let key = KeyEvent::new(code, mods);
        assert_eq!(km.resolve(context, None, &key), expected, "{:?} + {:?} in {:?}", code, mods, context);
    }
}

#[test]
fn test_the_gg_chord_needs_both_halves() {
    let km = keymap();
    let g = KeyEvent::new(KeyCode::Char('g'), none());
    let pending = KeyChord::new(g.code, g.modifiers);
    assert_eq!(km.resolve(KeyContext::History, None, &g), Resolved::Pending);
    assert_eq!(
        km.resolve(KeyContext::History, Some(pending), &g),
        Resolved::Action(KeyContext::Global, KeyAction::GoToTop)
    );
    let z = KeyEvent::new(KeyCode::Char('z'), none());
    assert_eq!(km.resolve(KeyContext::History, Some(pending), &z), Resolved::Unbound);
}

#[test]
fn keymap_bind_clear_evict() {
    let mut km = Keymap::new();
    let b = parse_binding("x").unwrap();
    km.bind(KeyContext::History, b, KeyAction::EditTags);
    km.bind(KeyContext::History, parse_binding("y").unwrap(), KeyAction::EditTags);
    assert_eq!(km.keys_for(KeyContext::History, KeyAction::EditTags), vec!["x", "y"]);
    assert_eq!(km.evict(KeyContext::History, &b), Some(KeyAction::EditTags));
    assert_eq!(km.evict(KeyContext::History, &b), None);
    assert_eq!(km.keys_for(KeyContext::History, KeyAction::EditTags), vec!["y"]);
    km.clear_action(KeyContext::History, KeyAction::EditTags);
    assert!(km.entries(KeyContext::History).is_empty());
    assert!(Keymap::default().entries(KeyContext::Global).is_empty());
}
