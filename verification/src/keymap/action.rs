//! Every thing a key can do, and the name the config file and the help popup
//! know it by.
use vstd::prelude::*;
use crate::text::str_eq;

verus! {

/// An action a key can be bound to.
#[derive(Clone, Copy, Debug, PartialEq, Eq, Hash, Structural)]
pub enum KeyAction {
    AcceptSuggestion,
    AddToCollection,
    Cancel,
    ChangeTheme,
    ClearSearch,
    Confirm,
    CopyToClipboard,
    CursorEnd,
    CursorHome,
    CursorLeft,
    CursorRight,
    Decline,
    DeleteCharBackward,
    DeleteCharForward,
    DeleteCollection,
    EditCollection,
    EditCommand,
    EditKeybindings,
    EditTags,
    Execute,
    ExportData,
    FocusSearch,
    GoToBottom,
    GoToTop,
    GrowPane,
    ImportData,
    KillLine,
    NavigateDown,
    NavigateUp,
    NewCollection,
    OpenExternalEditor,
    PageDown,
    PageUp,
    PaneDown,
    PaneLeft,
    PaneRight,
    PaneUp,
    RemoveFromCollection,
    ResetKeybindings,
    ScopeCwd,
    SearchCollection,
    ShowHelp,
    ShrinkPane,
    SwitchPane,
    ToggleDetails,
    ToggleFavorite,
    ViewCollections,
    ViewFavorites,
    ViewHistory,
}

/// The name of an action in `config.toml` and the help popup (listed by
/// name).
pub open spec fn action_name(a: KeyAction) -> Seq<char> {
    match a {
        KeyAction::AcceptSuggestion => "accept_suggestion"@,
        KeyAction::AddToCollection => "add_to_collection"@,
        KeyAction::Cancel => "cancel"@,
        KeyAction::ChangeTheme => "change_theme"@,
        KeyAction::ClearSearch => "clear_search"@,
        KeyAction::Confirm => "confirm"@,
        KeyAction::CopyToClipboard => "copy_to_clipboard"@,
        KeyAction::CursorEnd => "cursor_end"@,
        KeyAction::CursorHome => "cursor_home"@,
        KeyAction::CursorLeft => "cursor_left"@,
        KeyAction::CursorRight => "cursor_right"@,
        KeyAction::Decline => "decline"@,
        KeyAction::DeleteCharBackward => "delete_char_backward"@,
        KeyAction::DeleteCharForward => "delete_char_forward"@,
        KeyAction::DeleteCollection => "delete_collection"@,
        KeyAction::EditCollection => "edit_collection"@,
        KeyAction::EditCommand => "edit_command"@,
        KeyAction::EditKeybindings => "edit_keybindings"@,
        KeyAction::EditTags => "edit_tags"@,
        KeyAction::Execute => "execute"@,
        KeyAction::ExportData => "export_data"@,
        KeyAction::FocusSearch => "focus_search"@,
        KeyAction::GoToBottom => "go_to_bottom"@,
        KeyAction::GoToTop => "go_to_top"@,
        KeyAction::GrowPane => "grow_pane"@,
        KeyAction::ImportData => "import_data"@,
        KeyAction::KillLine => "kill_line"@,
        KeyAction::NavigateDown => "navigate_down"@,
        KeyAction::NavigateUp => "navigate_up"@,
        KeyAction::NewCollection => "new_collection"@,
        KeyAction::OpenExternalEditor => "open_external_editor"@,
        KeyAction::PageDown => "page_down"@,
        KeyAction::PageUp => "page_up"@,
        KeyAction::PaneDown => "pane_down"@,
        KeyAction::PaneLeft => "pane_left"@,
        KeyAction::PaneRight => "pane_right"@,
        KeyAction::PaneUp => "pane_up"@,
        KeyAction::RemoveFromCollection => "remove_from_collection"@,
        KeyAction::ResetKeybindings => "reset_keybindings"@,
        KeyAction::ScopeCwd => "scope_cwd"@,
        KeyAction::SearchCollection => "search_collection"@,
        KeyAction::ShowHelp => "show_help"@,
        KeyAction::ShrinkPane => "shrink_pane"@,
        KeyAction::SwitchPane => "switch_pane"@,
        KeyAction::ToggleDetails => "toggle_details"@,
        KeyAction::ToggleFavorite => "toggle_favorite"@,
        KeyAction::ViewCollections => "view_collections"@,
        KeyAction::ViewFavorites => "view_favorites"@,
        KeyAction::ViewHistory => "view_history"@,
    }
}

/// The position of an action in the declaration order.
pub open spec fn action_index(a: KeyAction) -> int {
    match a {
        KeyAction::AcceptSuggestion => 44,
        KeyAction::AddToCollection => 11,
        KeyAction::Cancel => 47,
        KeyAction::ChangeTheme => 34,
        KeyAction::ClearSearch => 14,
        KeyAction::Confirm => 46,
        KeyAction::CopyToClipboard => 9,
        KeyAction::CursorEnd => 40,
        KeyAction::CursorHome => 39,
        KeyAction::CursorLeft => 37,
        KeyAction::CursorRight => 38,
        KeyAction::Decline => 48,
        KeyAction::DeleteCharBackward => 41,
        KeyAction::DeleteCharForward => 42,
        KeyAction::DeleteCollection => 28,
        KeyAction::EditCollection => 27,
        KeyAction::EditCommand => 7,
        KeyAction::EditKeybindings => 32,
        KeyAction::EditTags => 10,
        KeyAction::Execute => 6,
        KeyAction::ExportData => 35,
        KeyAction::FocusSearch => 13,
        KeyAction::GoToBottom => 5,
        KeyAction::GoToTop => 4,
        KeyAction::GrowPane => 21,
        KeyAction::ImportData => 36,
        KeyAction::KillLine => 43,
        KeyAction::NavigateDown => 1,
        KeyAction::NavigateUp => 0,
        KeyAction::NewCollection => 26,
        KeyAction::OpenExternalEditor => 45,
        KeyAction::PageDown => 3,
        KeyAction::PageUp => 2,
        KeyAction::PaneDown => 17,
        KeyAction::PaneLeft => 18,
        KeyAction::PaneRight => 19,
        KeyAction::PaneUp => 16,
        KeyAction::RemoveFromCollection => 30,
        KeyAction::ResetKeybindings => 33,
        KeyAction::ScopeCwd => 25,
        KeyAction::SearchCollection => 29,
        KeyAction::ShowHelp => 31,
        KeyAction::ShrinkPane => 20,
        KeyAction::SwitchPane => 15,
        KeyAction::ToggleDetails => 12,
        KeyAction::ToggleFavorite => 8,
        KeyAction::ViewCollections => 24,
        KeyAction::ViewFavorites => 23,
        KeyAction::ViewHistory => 22,
    }
}

/// The action at position `i` of the declaration order.
pub open spec fn action_at(i: int) -> KeyAction {
    if i == 0 {
        KeyAction::NavigateUp
    } else if i == 1 {
        KeyAction::NavigateDown
    } else if i == 2 {
        KeyAction::PageUp
    } else if i == 3 {
        KeyAction::PageDown
    } else if i == 4 {
        KeyAction::GoToTop
    } else if i == 5 {
        KeyAction::GoToBottom
    } else if i == 6 {
        KeyAction::Execute
    } else if i == 7 {
        KeyAction::EditCommand
    } else if i == 8 {
        KeyAction::ToggleFavorite
    } else if i == 9 {
        KeyAction::CopyToClipboard
    } else if i == 10 {
        KeyAction::EditTags
    } else if i == 11 {
        KeyAction::AddToCollection
    } else if i == 12 {
        KeyAction::ToggleDetails
    } else if i == 13 {
        KeyAction::FocusSearch
    } else if i == 14 {
        KeyAction::ClearSearch
    } else if i == 15 {
        KeyAction::SwitchPane
    } else if i == 16 {
        KeyAction::PaneUp
    } else if i == 17 {
        KeyAction::PaneDown
    } else if i == 18 {
        KeyAction::PaneLeft
    } else if i == 19 {
        KeyAction::PaneRight
    } else if i == 20 {
        KeyAction::ShrinkPane
    } else if i == 21 {
        KeyAction::GrowPane
    } else if i == 22 {
        KeyAction::ViewHistory
    } else if i == 23 {
        KeyAction::ViewFavorites
    } else if i == 24 {
        KeyAction::ViewCollections
    } else if i == 25 {
        KeyAction::ScopeCwd
    } else if i == 26 {
        KeyAction::NewCollection
    } else if i == 27 {
        KeyAction::EditCollection
    } else if i == 28 {
        KeyAction::DeleteCollection
    } else if i == 29 {
        KeyAction::SearchCollection
    } else if i == 30 {
        KeyAction::RemoveFromCollection
    } else if i == 31 {
        KeyAction::ShowHelp
    } else if i == 32 {
        KeyAction::EditKeybindings
    } else if i == 33 {
        KeyAction::ResetKeybindings
    } else if i == 34 {
        KeyAction::ChangeTheme
    } else if i == 35 {
        KeyAction::ExportData
    } else if i == 36 {
        KeyAction::ImportData
    } else if i == 37 {
        KeyAction::CursorLeft
    } else if i == 38 {
        KeyAction::CursorRight
    } else if i == 39 {
        KeyAction::CursorHome
    } else if i == 40 {
        KeyAction::CursorEnd
    } else if i == 41 {
        KeyAction::DeleteCharBackward
    } else if i == 42 {
        KeyAction::DeleteCharForward
    } else if i == 43 {
        KeyAction::KillLine
    } else if i == 44 {
        KeyAction::AcceptSuggestion
    } else if i == 45 {
        KeyAction::OpenExternalEditor
    } else if i == 46 {
        KeyAction::Confirm
    } else if i == 47 {
        KeyAction::Cancel
    } else {
        KeyAction::Decline
    }
}

/// The number of actions.
pub const ACTION_COUNT: usize = 49;

/// Every action, in declaration order.
pub open spec fn all_actions() -> Seq<KeyAction> {
    Seq::new(ACTION_COUNT as nat, |i: int| action_at(i))
}

fn action_at_exec(i: usize) -> (r: KeyAction)
    requires
        i < ACTION_COUNT,
    ensures
        r == action_at(i as int),
{
    match i {
        0 => KeyAction::NavigateUp,
        1 => KeyAction::NavigateDown,
        2 => KeyAction::PageUp,
        3 => KeyAction::PageDown,
        4 => KeyAction::GoToTop,
        5 => KeyAction::GoToBottom,
        6 => KeyAction::Execute,
        7 => KeyAction::EditCommand,
        8 => KeyAction::ToggleFavorite,
        9 => KeyAction::CopyToClipboard,
        10 => KeyAction::EditTags,
        11 => KeyAction::AddToCollection,
        12 => KeyAction::ToggleDetails,
        13 => KeyAction::FocusSearch,
        14 => KeyAction::ClearSearch,
        15 => KeyAction::SwitchPane,
        16 => KeyAction::PaneUp,
        17 => KeyAction::PaneDown,
        18 => KeyAction::PaneLeft,
        19 => KeyAction::PaneRight,
        20 => KeyAction::ShrinkPane,
        21 => KeyAction::GrowPane,
        22 => KeyAction::ViewHistory,
        23 => KeyAction::ViewFavorites,
        24 => KeyAction::ViewCollections,
        25 => KeyAction::ScopeCwd,
        26 => KeyAction::NewCollection,
        27 => KeyAction::EditCollection,
        28 => KeyAction::DeleteCollection,
        29 => KeyAction::SearchCollection,
        30 => KeyAction::RemoveFromCollection,
        31 => KeyAction::ShowHelp,
        32 => KeyAction::EditKeybindings,
        33 => KeyAction::ResetKeybindings,
        34 => KeyAction::ChangeTheme,
        35 => KeyAction::ExportData,
        36 => KeyAction::ImportData,
        37 => KeyAction::CursorLeft,
        38 => KeyAction::CursorRight,
        39 => KeyAction::CursorHome,
        40 => KeyAction::CursorEnd,
        41 => KeyAction::DeleteCharBackward,
        42 => KeyAction::DeleteCharForward,
        43 => KeyAction::KillLine,
        44 => KeyAction::AcceptSuggestion,
        45 => KeyAction::OpenExternalEditor,
        46 => KeyAction::Confirm,
        47 => KeyAction::Cancel,
        _ => KeyAction::Decline,
    }
}

/// The action a name stands for, tried by name in alphabetical order.
pub open spec fn action_named(s: Seq<char>) -> Option<KeyAction> {
    if s == "accept_suggestion"@ {
        Some(KeyAction::AcceptSuggestion)
    } else if s == "add_to_collection"@ {
        Some(KeyAction::AddToCollection)
    } else if s == "cancel"@ {
        Some(KeyAction::Cancel)
    } else if s == "change_theme"@ {
        Some(KeyAction::ChangeTheme)
    } else if s == "clear_search"@ {
        Some(KeyAction::ClearSearch)
    } else if s == "confirm"@ {
        Some(KeyAction::Confirm)
    } else if s == "copy_to_clipboard"@ {
        Some(KeyAction::CopyToClipboard)
    } else if s == "cursor_end"@ {
        Some(KeyAction::CursorEnd)
    } else if s == "cursor_home"@ {
        Some(KeyAction::CursorHome)
    } else if s == "cursor_left"@ {
        Some(KeyAction::CursorLeft)
    } else if s == "cursor_right"@ {
        Some(KeyAction::CursorRight)
    } else if s == "decline"@ {
        Some(KeyAction::Decline)
    } else if s == "delete_char_backward"@ {
        Some(KeyAction::DeleteCharBackward)
    } else if s == "delete_char_forward"@ {
        Some(KeyAction::DeleteCharForward)
    } else if s == "delete_collection"@ {
        Some(KeyAction::DeleteCollection)
    } else if s == "edit_collection"@ {
        Some(KeyAction::EditCollection)
    } else if s == "edit_command"@ {
        Some(KeyAction::EditCommand)
    } else if s == "edit_keybindings"@ {
        Some(KeyAction::EditKeybindings)
    } else if s == "edit_tags"@ {
        Some(KeyAction::EditTags)
    } else if s == "execute"@ {
        Some(KeyAction::Execute)
    } else if s == "export_data"@ {
        Some(KeyAction::ExportData)
    } else if s == "focus_search"@ {
        Some(KeyAction::FocusSearch)
    } else if s == "go_to_bottom"@ {
        Some(KeyAction::GoToBottom)
    } else if s == "go_to_top"@ {
        Some(KeyAction::GoToTop)
    } else if s == "grow_pane"@ {
        Some(KeyAction::GrowPane)
    } else if s == "import_data"@ {
        Some(KeyAction::ImportData)
    } else if s == "kill_line"@ {
        Some(KeyAction::KillLine)
    } else if s == "navigate_down"@ {
        Some(KeyAction::NavigateDown)
    } else if s == "navigate_up"@ {
        Some(KeyAction::NavigateUp)
    } else if s == "new_collection"@ {
        Some(KeyAction::NewCollection)
    } else if s == "open_external_editor"@ {
        Some(KeyAction::OpenExternalEditor)
    } else if s == "page_down"@ {
        Some(KeyAction::PageDown)
    } else if s == "page_up"@ {
        Some(KeyAction::PageUp)
    } else if s == "pane_down"@ {
        Some(KeyAction::PaneDown)
    } else if s == "pane_left"@ {
        Some(KeyAction::PaneLeft)
    } else if s == "pane_right"@ {
        Some(KeyAction::PaneRight)
    } else if s == "pane_up"@ {
        Some(KeyAction::PaneUp)
    } else if s == "remove_from_collection"@ {
        Some(KeyAction::RemoveFromCollection)
    } else if s == "reset_keybindings"@ {
        Some(KeyAction::ResetKeybindings)
    } else if s == "scope_cwd"@ {
        Some(KeyAction::ScopeCwd)
    } else if s == "search_collection"@ {
        Some(KeyAction::SearchCollection)
    } else if s == "show_help"@ {
        Some(KeyAction::ShowHelp)
    } else if s == "shrink_pane"@ {
        Some(KeyAction::ShrinkPane)
    } else if s == "switch_pane"@ {
        Some(KeyAction::SwitchPane)
    } else if s == "toggle_details"@ {
        Some(KeyAction::ToggleDetails)
    } else if s == "toggle_favorite"@ {
        Some(KeyAction::ToggleFavorite)
    } else if s == "view_collections"@ {
        Some(KeyAction::ViewCollections)
    } else if s == "view_favorites"@ {
        Some(KeyAction::ViewFavorites)
    } else if s == "view_history"@ {
        Some(KeyAction::ViewHistory)
    } else {
        None
    }
}

/// Every action's name reads back as that action, so no two actions share
/// a name.
pub proof fn law_action_names_round_trip(a: KeyAction)
    ensures
        action_named(action_name(a)) == Some(a),
{
    assert("accept_suggestion"@.len() == 17 && "accept_suggestion"@[0] == 'a' && "accept_suggestion"@[1] == 'c') by {
        reveal_strlit("accept_suggestion");
    }
    assert("add_to_collection"@.len() == 17 && "add_to_collection"@[0] == 'a' && "add_to_collection"@[1] == 'd') by {
        reveal_strlit("add_to_collection");
    }
    assert("cancel"@.len() == 6 && "cancel"@[0] == 'c' && "cancel"@[1] == 'a') by {
        reveal_strlit("cancel");
    }
    assert("change_theme"@.len() == 12 && "change_theme"@[0] == 'c' && "change_theme"@[1] == 'h') by {
        reveal_strlit("change_theme");
    }
    assert("clear_search"@.len() == 12 && "clear_search"@[0] == 'c' && "clear_search"@[1] == 'l') by {
        reveal_strlit("clear_search");
    }
    assert("confirm"@.len() == 7 && "confirm"@[0] == 'c' && "confirm"@[1] == 'o') by {
        reveal_strlit("confirm");
    }
    assert("copy_to_clipboard"@.len() == 17 && "copy_to_clipboard"@[0] == 'c' && "copy_to_clipboard"@[1] == 'o') by {
        reveal_strlit("copy_to_clipboard");
    }
    assert("cursor_end"@.len() == 10 && "cursor_end"@[0] == 'c' && "cursor_end"@[1] == 'u') by {
        reveal_strlit("cursor_end");
    }
    assert("cursor_home"@.len() == 11 && "cursor_home"@[0] == 'c' && "cursor_home"@[1] == 'u' && "cursor_home"@[7] == 'h') by {
        reveal_strlit("cursor_home");
    }
    assert("cursor_left"@.len() == 11 && "cursor_left"@[0] == 'c' && "cursor_left"@[1] == 'u' && "cursor_left"@[7] == 'l') by {
        reveal_strlit("cursor_left");
    }
    assert("cursor_right"@.len() == 12 && "cursor_right"@[0] == 'c' && "cursor_right"@[1] == 'u') by {
        reveal_strlit("cursor_right");
    }
    assert("decline"@.len() == 7 && "decline"@[0] == 'd' && "decline"@[1] == 'e') by {
        reveal_strlit("decline");
    }
    assert("delete_char_backward"@.len() == 20 && "delete_char_backward"@[0] == 'd' && "delete_char_backward"@[1] == 'e') by {
        reveal_strlit("delete_char_backward");
    }
    assert("delete_char_forward"@.len() == 19 && "delete_char_forward"@[0] == 'd' && "delete_char_forward"@[1] == 'e') by {
        reveal_strlit("delete_char_forward");
    }
    assert("delete_collection"@.len() == 17 && "delete_collection"@[0] == 'd' && "delete_collection"@[1] == 'e') by {
        reveal_strlit("delete_collection");
    }
    assert("edit_collection"@.len() == 15 && "edit_collection"@[0] == 'e' && "edit_collection"@[1] == 'd') by {
        reveal_strlit("edit_collection");
    }
    assert("edit_command"@.len() == 12 && "edit_command"@[0] == 'e' && "edit_command"@[1] == 'd') by {
        reveal_strlit("edit_command");
    }
    assert("edit_keybindings"@.len() == 16 && "edit_keybindings"@[0] == 'e' && "edit_keybindings"@[1] == 'd') by {
        reveal_strlit("edit_keybindings");
    }
    assert("edit_tags"@.len() == 9 && "edit_tags"@[0] == 'e' && "edit_tags"@[1] == 'd') by {
        reveal_strlit("edit_tags");
    }
    assert("execute"@.len() == 7 && "execute"@[0] == 'e' && "execute"@[1] == 'x') by {
        reveal_strlit("execute");
    }
    assert("export_data"@.len() == 11 && "export_data"@[0] == 'e' && "export_data"@[1] == 'x') by {
        reveal_strlit("export_data");
    }
    assert("focus_search"@.len() == 12 && "focus_search"@[0] == 'f' && "focus_search"@[1] == 'o') by {
        reveal_strlit("focus_search");
    }
    assert("go_to_bottom"@.len() == 12 && "go_to_bottom"@[0] == 'g' && "go_to_bottom"@[1] == 'o') by {
        reveal_strlit("go_to_bottom");
    }
    assert("go_to_top"@.len() == 9 && "go_to_top"@[0] == 'g' && "go_to_top"@[1] == 'o') by {
        reveal_strlit("go_to_top");
    }
    assert("grow_pane"@.len() == 9 && "grow_pane"@[0] == 'g' && "grow_pane"@[1] == 'r') by {
        reveal_strlit("grow_pane");
    }
    assert("import_data"@.len() == 11 && "import_data"@[0] == 'i' && "import_data"@[1] == 'm') by {
        reveal_strlit("import_data");
    }
    assert("kill_line"@.len() == 9 && "kill_line"@[0] == 'k' && "kill_line"@[1] == 'i') by {
        reveal_strlit("kill_line");
    }
    assert("navigate_down"@.len() == 13 && "navigate_down"@[0] == 'n' && "navigate_down"@[1] == 'a') by {
        reveal_strlit("navigate_down");
    }
    assert("navigate_up"@.len() == 11 && "navigate_up"@[0] == 'n' && "navigate_up"@[1] == 'a') by {
        reveal_strlit("navigate_up");
    }
    assert("new_collection"@.len() == 14 && "new_collection"@[0] == 'n' && "new_collection"@[1] == 'e') by {
        reveal_strlit("new_collection");
    }
    assert("open_external_editor"@.len() == 20 && "open_external_editor"@[0] == 'o' && "open_external_editor"@[1] == 'p') by {
        reveal_strlit("open_external_editor");
    }
    assert("page_down"@.len() == 9 && "page_down"@[0] == 'p' && "page_down"@[1] == 'a' && "page_down"@[2] == 'g') by {
        reveal_strlit("page_down");
    }
    assert("page_up"@.len() == 7 && "page_up"@[0] == 'p' && "page_up"@[1] == 'a' && "page_up"@[2] == 'g') by {
        reveal_strlit("page_up");
    }
    assert("pane_down"@.len() == 9 && "pane_down"@[0] == 'p' && "pane_down"@[1] == 'a' && "pane_down"@[2] == 'n' && "pane_down"@[5] == 'd') by {
        reveal_strlit("pane_down");
    }
    assert("pane_left"@.len() == 9 && "pane_left"@[0] == 'p' && "pane_left"@[1] == 'a' && "pane_left"@[2] == 'n' && "pane_left"@[5] == 'l') by {
        reveal_strlit("pane_left");
    }
    assert("pane_right"@.len() == 10 && "pane_right"@[0] == 'p' && "pane_right"@[1] == 'a') by {
        reveal_strlit("pane_right");
    }
    assert("pane_up"@.len() == 7 && "pane_up"@[0] == 'p' && "pane_up"@[1] == 'a' && "pane_up"@[2] == 'n') by {
        reveal_strlit("pane_up");
    }
    assert("remove_from_collection"@.len() == 22 && "remove_from_collection"@[0] == 'r' && "remove_from_collection"@[1] == 'e') by {
        reveal_strlit("remove_from_collection");
    }
    assert("reset_keybindings"@.len() == 17 && "reset_keybindings"@[0] == 'r' && "reset_keybindings"@[1] == 'e') by {
        reveal_strlit("reset_keybindings");
    }
    assert("scope_cwd"@.len() == 9 && "scope_cwd"@[0] == 's' && "scope_cwd"@[1] == 'c') by {
        reveal_strlit("scope_cwd");
    }
    assert("search_collection"@.len() == 17 && "search_collection"@[0] == 's' && "search_collection"@[1] == 'e') by {
        reveal_strlit("search_collection");
    }
    assert("show_help"@.len() == 9 && "show_help"@[0] == 's' && "show_help"@[1] == 'h') by {
        reveal_strlit("show_help");
    }
    assert("shrink_pane"@.len() == 11 && "shrink_pane"@[0] == 's' && "shrink_pane"@[1] == 'h') by {
        reveal_strlit("shrink_pane");
    }
    assert("switch_pane"@.len() == 11 && "switch_pane"@[0] == 's' && "switch_pane"@[1] == 'w') by {
        reveal_strlit("switch_pane");
    }
    assert("toggle_details"@.len() == 14 && "toggle_details"@[0] == 't' && "toggle_details"@[1] == 'o') by {
        reveal_strlit("toggle_details");
    }
    assert("toggle_favorite"@.len() == 15 && "toggle_favorite"@[0] == 't' && "toggle_favorite"@[1] == 'o') by {
        reveal_strlit("toggle_favorite");
    }
    assert("view_collections"@.len() == 16 && "view_collections"@[0] == 'v' && "view_collections"@[1] == 'i') by {
        reveal_strlit("view_collections");
    }
    assert("view_favorites"@.len() == 14 && "view_favorites"@[0] == 'v' && "view_favorites"@[1] == 'i') by {
        reveal_strlit("view_favorites");
    }
    assert("view_history"@.len() == 12 && "view_history"@[0] == 'v' && "view_history"@[1] == 'i') by {
        reveal_strlit("view_history");
    }
    match a {
        KeyAction::AcceptSuggestion => {},
        KeyAction::AddToCollection => {},
        KeyAction::Cancel => {},
        KeyAction::ChangeTheme => {},
        KeyAction::ClearSearch => {},
        KeyAction::Confirm => {},
        KeyAction::CopyToClipboard => {},
        KeyAction::CursorEnd => {},
        KeyAction::CursorHome => {},
        KeyAction::CursorLeft => {},
        KeyAction::CursorRight => {},
        KeyAction::Decline => {},
        KeyAction::DeleteCharBackward => {},
        KeyAction::DeleteCharForward => {},
        KeyAction::DeleteCollection => {},
        KeyAction::EditCollection => {},
        KeyAction::EditCommand => {},
        KeyAction::EditKeybindings => {},
        KeyAction::EditTags => {},
        KeyAction::Execute => {},
        KeyAction::ExportData => {},
        KeyAction::FocusSearch => {},
        KeyAction::GoToBottom => {},
        KeyAction::GoToTop => {},
        KeyAction::GrowPane => {},
        KeyAction::ImportData => {},
        KeyAction::KillLine => {},
        KeyAction::NavigateDown => {},
        KeyAction::NavigateUp => {},
        KeyAction::NewCollection => {},
        KeyAction::OpenExternalEditor => {},
        KeyAction::PageDown => {},
        KeyAction::PageUp => {},
        KeyAction::PaneDown => {},
        KeyAction::PaneLeft => {},
        KeyAction::PaneRight => {},
        KeyAction::PaneUp => {},
        KeyAction::RemoveFromCollection => {},
        KeyAction::ResetKeybindings => {},
        KeyAction::ScopeCwd => {},
        KeyAction::SearchCollection => {},
        KeyAction::ShowHelp => {},
        KeyAction::ShrinkPane => {},
        KeyAction::SwitchPane => {},
        KeyAction::ToggleDetails => {},
        KeyAction::ToggleFavorite => {},
        KeyAction::ViewCollections => {},
        KeyAction::ViewFavorites => {},
        KeyAction::ViewHistory => {},
    }
}

/// Names are snake_case: lowercase ASCII letters and underscores only.
pub proof fn law_action_names_are_snake_case(a: KeyAction)
    ensures
        forall|k: int|
            0 <= k < action_name(a).len() ==> ((#[trigger] action_name(a)[k] as u32) >= 97 && (
            action_name(a)[k] as u32) <= 122) || action_name(a)[k] == '_',
{
    match a {
        KeyAction::AcceptSuggestion => reveal_strlit("accept_suggestion"),
        KeyAction::AddToCollection => reveal_strlit("add_to_collection"),
        KeyAction::Cancel => reveal_strlit("cancel"),
        KeyAction::ChangeTheme => reveal_strlit("change_theme"),
        KeyAction::ClearSearch => reveal_strlit("clear_search"),
        KeyAction::Confirm => reveal_strlit("confirm"),
        KeyAction::CopyToClipboard => reveal_strlit("copy_to_clipboard"),
        KeyAction::CursorEnd => reveal_strlit("cursor_end"),
        KeyAction::CursorHome => reveal_strlit("cursor_home"),
        KeyAction::CursorLeft => reveal_strlit("cursor_left"),
        KeyAction::CursorRight => reveal_strlit("cursor_right"),
        KeyAction::Decline => reveal_strlit("decline"),
        KeyAction::DeleteCharBackward => reveal_strlit("delete_char_backward"),
        KeyAction::DeleteCharForward => reveal_strlit("delete_char_forward"),
        KeyAction::DeleteCollection => reveal_strlit("delete_collection"),
        KeyAction::EditCollection => reveal_strlit("edit_collection"),
        KeyAction::EditCommand => reveal_strlit("edit_command"),
        KeyAction::EditKeybindings => reveal_strlit("edit_keybindings"),
        KeyAction::EditTags => reveal_strlit("edit_tags"),
        KeyAction::Execute => reveal_strlit("execute"),
        KeyAction::ExportData => reveal_strlit("export_data"),
        KeyAction::FocusSearch => reveal_strlit("focus_search"),
        KeyAction::GoToBottom => reveal_strlit("go_to_bottom"),
        KeyAction::GoToTop => reveal_strlit("go_to_top"),
        KeyAction::GrowPane => reveal_strlit("grow_pane"),
        KeyAction::ImportData => reveal_strlit("import_data"),
        KeyAction::KillLine => reveal_strlit("kill_line"),
        KeyAction::NavigateDown => reveal_strlit("navigate_down"),
        KeyAction::NavigateUp => reveal_strlit("navigate_up"),
        KeyAction::NewCollection => reveal_strlit("new_collection"),
        KeyAction::OpenExternalEditor => reveal_strlit("open_external_editor"),
        KeyAction::PageDown => reveal_strlit("page_down"),
        KeyAction::PageUp => reveal_strlit("page_up"),
        KeyAction::PaneDown => reveal_strlit("pane_down"),
        KeyAction::PaneLeft => reveal_strlit("pane_left"),
        KeyAction::PaneRight => reveal_strlit("pane_right"),
        KeyAction::PaneUp => reveal_strlit("pane_up"),
        KeyAction::RemoveFromCollection => reveal_strlit("remove_from_collection"),
        KeyAction::ResetKeybindings => reveal_strlit("reset_keybindings"),
        KeyAction::ScopeCwd => reveal_strlit("scope_cwd"),
        KeyAction::SearchCollection => reveal_strlit("search_collection"),
        KeyAction::ShowHelp => reveal_strlit("show_help"),
        KeyAction::ShrinkPane => reveal_strlit("shrink_pane"),
        KeyAction::SwitchPane => reveal_strlit("switch_pane"),
        KeyAction::ToggleDetails => reveal_strlit("toggle_details"),
        KeyAction::ToggleFavorite => reveal_strlit("toggle_favorite"),
        KeyAction::ViewCollections => reveal_strlit("view_collections"),
        KeyAction::ViewFavorites => reveal_strlit("view_favorites"),
        KeyAction::ViewHistory => reveal_strlit("view_history"),
    }
}

/// The list of every action holds each action exactly once.
pub proof fn law_all_actions_lists_each_once(a: KeyAction)
    ensures
        exists|i: int| 0 <= i < all_actions().len() && all_actions()[i] == a,
        forall|i: int, j: int|
            0 <= i < j < all_actions().len() ==> all_actions()[i] != all_actions()[j],
{
    assert(all_actions()[action_index(a)] == a);
}

impl KeyAction {
    /// Every action, in declaration order.
    pub fn all() -> (r: Vec<KeyAction>)
        ensures
            r@ == all_actions(),
    {
        let mut r: Vec<KeyAction> = Vec::new();
        let mut i: usize = 0;
        while i < ACTION_COUNT
            invariant
                i <= ACTION_COUNT,
                r@ == all_actions().take(i as int),
            decreases ACTION_COUNT - i,
        {
            r.push(action_at_exec(i));
            i += 1;
            assert(r@ =~= all_actions().take(i as int));
        }
        assert(all_actions().take(ACTION_COUNT as int) =~= all_actions());
        r
    }

    /// The name used in `config.toml` and by the help popup.
    pub fn as_str(self) -> (r: &'static str)
        ensures
            r@ == action_name(self),
    {
        match self {
            KeyAction::AcceptSuggestion => "accept_suggestion",
            KeyAction::AddToCollection => "add_to_collection",
            KeyAction::Cancel => "cancel",
            KeyAction::ChangeTheme => "change_theme",
            KeyAction::ClearSearch => "clear_search",
            KeyAction::Confirm => "confirm",
            KeyAction::CopyToClipboard => "copy_to_clipboard",
            KeyAction::CursorEnd => "cursor_end",
            KeyAction::CursorHome => "cursor_home",
            KeyAction::CursorLeft => "cursor_left",
            KeyAction::CursorRight => "cursor_right",
            KeyAction::Decline => "decline",
            KeyAction::DeleteCharBackward => "delete_char_backward",
            KeyAction::DeleteCharForward => "delete_char_forward",
            KeyAction::DeleteCollection => "delete_collection",
            KeyAction::EditCollection => "edit_collection",
            KeyAction::EditCommand => "edit_command",
            KeyAction::EditKeybindings => "edit_keybindings",
            KeyAction::EditTags => "edit_tags",
            KeyAction::Execute => "execute",
            KeyAction::ExportData => "export_data",
            KeyAction::FocusSearch => "focus_search",
            KeyAction::GoToBottom => "go_to_bottom",
            KeyAction::GoToTop => "go_to_top",
            KeyAction::GrowPane => "grow_pane",
            KeyAction::ImportData => "import_data",
            KeyAction::KillLine => "kill_line",
            KeyAction::NavigateDown => "navigate_down",
            KeyAction::NavigateUp => "navigate_up",
            KeyAction::NewCollection => "new_collection",
            KeyAction::OpenExternalEditor => "open_external_editor",
            KeyAction::PageDown => "page_down",
            KeyAction::PageUp => "page_up",
            KeyAction::PaneDown => "pane_down",
            KeyAction::PaneLeft => "pane_left",
            KeyAction::PaneRight => "pane_right",
            KeyAction::PaneUp => "pane_up",
            KeyAction::RemoveFromCollection => "remove_from_collection",
            KeyAction::ResetKeybindings => "reset_keybindings",
            KeyAction::ScopeCwd => "scope_cwd",
            KeyAction::SearchCollection => "search_collection",
            KeyAction::ShowHelp => "show_help",
            KeyAction::ShrinkPane => "shrink_pane",
            KeyAction::SwitchPane => "switch_pane",
            KeyAction::ToggleDetails => "toggle_details",
            KeyAction::ToggleFavorite => "toggle_favorite",
            KeyAction::ViewCollections => "view_collections",
            KeyAction::ViewFavorites => "view_favorites",
            KeyAction::ViewHistory => "view_history",
        }
    }

    /// The action with this name, if any.
    pub fn from_str(s: &str) -> (r: Option<KeyAction>)
        ensures
            r == action_named(s@),
    {
        if str_eq(s, "accept_suggestion") {
            return Some(KeyAction::AcceptSuggestion);
        }
        if str_eq(s, "add_to_collection") {
            return Some(KeyAction::AddToCollection);
        }
        if str_eq(s, "cancel") {
            return Some(KeyAction::Cancel);
        }
        if str_eq(s, "change_theme") {
            return Some(KeyAction::ChangeTheme);
        }
        if str_eq(s, "clear_search") {
            return Some(KeyAction::ClearSearch);
        }
        if str_eq(s, "confirm") {
            return Some(KeyAction::Confirm);
        }
        if str_eq(s, "copy_to_clipboard") {
            return Some(KeyAction::CopyToClipboard);
        }
        if str_eq(s, "cursor_end") {
            return Some(KeyAction::CursorEnd);
        }
        if str_eq(s, "cursor_home") {
            return Some(KeyAction::CursorHome);
        }
        if str_eq(s, "cursor_left") {
            return Some(KeyAction::CursorLeft);
        }
        if str_eq(s, "cursor_right") {
            return Some(KeyAction::CursorRight);
        }
        if str_eq(s, "decline") {
            return Some(KeyAction::Decline);
        }
        if str_eq(s, "delete_char_backward") {
            return Some(KeyAction::DeleteCharBackward);
        }
        if str_eq(s, "delete_char_forward") {
            return Some(KeyAction::DeleteCharForward);
        }
        if str_eq(s, "delete_collection") {
            return Some(KeyAction::DeleteCollection);
        }
        if str_eq(s, "edit_collection") {
            return Some(KeyAction::EditCollection);
        }
        if str_eq(s, "edit_command") {
            return Some(KeyAction::EditCommand);
        }
        if str_eq(s, "edit_keybindings") {
            return Some(KeyAction::EditKeybindings);
        }
        if str_eq(s, "edit_tags") {
            return Some(KeyAction::EditTags);
        }
        if str_eq(s, "execute") {
            return Some(KeyAction::Execute);
        }
        if str_eq(s, "export_data") {
            return Some(KeyAction::ExportData);
        }
        if str_eq(s, "focus_search") {
            return Some(KeyAction::FocusSearch);
        }
        if str_eq(s, "go_to_bottom") {
            return Some(KeyAction::GoToBottom);
        }
        if str_eq(s, "go_to_top") {
            return Some(KeyAction::GoToTop);
        }
        if str_eq(s, "grow_pane") {
            return Some(KeyAction::GrowPane);
        }
        if str_eq(s, "import_data") {
            return Some(KeyAction::ImportData);
        }
        if str_eq(s, "kill_line") {
            return Some(KeyAction::KillLine);
        }
        if str_eq(s, "navigate_down") {
            return Some(KeyAction::NavigateDown);
        }
        if str_eq(s, "navigate_up") {
            return Some(KeyAction::NavigateUp);
        }
        if str_eq(s, "new_collection") {
            return Some(KeyAction::NewCollection);
        }
        if str_eq(s, "open_external_editor") {
            return Some(KeyAction::OpenExternalEditor);
        }
        if str_eq(s, "page_down") {
            return Some(KeyAction::PageDown);
        }
        if str_eq(s, "page_up") {
            return Some(KeyAction::PageUp);
        }
        if str_eq(s, "pane_down") {
            return Some(KeyAction::PaneDown);
        }
        if str_eq(s, "pane_left") {
            return Some(KeyAction::PaneLeft);
        }
        if str_eq(s, "pane_right") {
            return Some(KeyAction::PaneRight);
        }
        if str_eq(s, "pane_up") {
            return Some(KeyAction::PaneUp);
        }
        if str_eq(s, "remove_from_collection") {
            return Some(KeyAction::RemoveFromCollection);
        }
        if str_eq(s, "reset_keybindings") {
            return Some(KeyAction::ResetKeybindings);
        }
        if str_eq(s, "scope_cwd") {
            return Some(KeyAction::ScopeCwd);
        }
        if str_eq(s, "search_collection") {
            return Some(KeyAction::SearchCollection);
        }
        if str_eq(s, "show_help") {
            return Some(KeyAction::ShowHelp);
        }
        if str_eq(s, "shrink_pane") {
            return Some(KeyAction::ShrinkPane);
        }
        if str_eq(s, "switch_pane") {
            return Some(KeyAction::SwitchPane);
        }
        if str_eq(s, "toggle_details") {
            return Some(KeyAction::ToggleDetails);
        }
        if str_eq(s, "toggle_favorite") {
            return Some(KeyAction::ToggleFavorite);
        }
        if str_eq(s, "view_collections") {
            return Some(KeyAction::ViewCollections);
        }
        if str_eq(s, "view_favorites") {
            return Some(KeyAction::ViewFavorites);
        }
        if str_eq(s, "view_history") {
            return Some(KeyAction::ViewHistory);
        }
        None
    }
}

} // verus!
