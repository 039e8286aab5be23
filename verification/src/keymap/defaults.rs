//! The built-in keymap. `config.toml` is applied on top of it, so anything
//! the user does not mention keeps its binding here.
use vstd::prelude::*;
use super::action::KeyAction;
use super::keys::{binding_parse, parse_binding, Binding};
use super::{Entries, KeyContext, Keymap};
use crate::text::{chars_of, find_from, match_at, slice_to_vec, string_of};

verus! {

/// The number of rows in the default table.
pub const TABLE_LEN: usize = 100;

/// Row `i` of the default table: a context, its comma-separated keys, and
/// the action. Within a context the rows are in the order the help popup and
/// the footer advertise them, primary key first.
pub open spec fn table_row(i: int) -> (KeyContext, Seq<char>, KeyAction) {
    if i < 20 {
        table_rows_0(i)
    } else if i < 40 {
        table_rows_1(i)
    } else if i < 60 {
        table_rows_2(i)
    } else if i < 80 {
        table_rows_3(i)
    } else {
        table_rows_4(i)
    }
}

pub open spec fn table_rows_0(i: int) -> (KeyContext, Seq<char>, KeyAction) {
    if i == 0 {
        (KeyContext::Global, "Enter"@, KeyAction::Execute)
    } else if i == 1 {
        (KeyContext::Global, "Up"@, KeyAction::NavigateUp)
    } else if i == 2 {
        (KeyContext::Global, "Down"@, KeyAction::NavigateDown)
    } else if i == 3 {
        (KeyContext::Global, "PageDown, ctrl+d"@, KeyAction::PageDown)
    } else if i == 4 {
        (KeyContext::Global, "PageUp, ctrl+u"@, KeyAction::PageUp)
    } else if i == 5 {
        (KeyContext::Global, "g g"@, KeyAction::GoToTop)
    } else if i == 6 {
        (KeyContext::Global, "G"@, KeyAction::GoToBottom)
    } else if i == 7 {
        (KeyContext::Global, "Tab"@, KeyAction::SwitchPane)
    } else if i == 8 {
        (KeyContext::Global, "ctrl+j"@, KeyAction::PaneDown)
    } else if i == 9 {
        (KeyContext::Global, "ctrl+k"@, KeyAction::PaneUp)
    } else if i == 10 {
        (KeyContext::Global, "ctrl+h"@, KeyAction::PaneLeft)
    } else if i == 11 {
        (KeyContext::Global, "ctrl+l"@, KeyAction::PaneRight)
    } else if i == 12 {
        (KeyContext::Global, "1, alt+1"@, KeyAction::ViewHistory)
    } else if i == 13 {
        (KeyContext::Global, "2, alt+2"@, KeyAction::ViewFavorites)
    } else if i == 14 {
        (KeyContext::Global, "3, alt+3"@, KeyAction::ViewCollections)
    } else if i == 15 {
        (KeyContext::Global, "., alt+."@, KeyAction::ScopeCwd)
    } else if i == 16 {
        (KeyContext::Global, "<, alt+<"@, KeyAction::ShrinkPane)
    } else if i == 17 {
        (KeyContext::Global, ">, alt+>"@, KeyAction::GrowPane)
    } else if i == 18 {
        (KeyContext::Global, "?, F1"@, KeyAction::ShowHelp)
    } else {
        (KeyContext::Global, "ctrl+t"@, KeyAction::ChangeTheme)
    }
}

pub open spec fn table_rows_1(i: int) -> (KeyContext, Seq<char>, KeyAction) {
    if i == 20 {
        (KeyContext::Global, "ctrl+e"@, KeyAction::ExportData)
    } else if i == 21 {
        (KeyContext::Global, "ctrl+o"@, KeyAction::ImportData)
    } else if i == 22 {
        (KeyContext::Global, "ctrl+x"@, KeyAction::OpenExternalEditor)
    } else if i == 23 {
        (KeyContext::Global, "c"@, KeyAction::AddToCollection)
    } else if i == 24 {
        (KeyContext::Global, "esc, ctrl+c"@, KeyAction::Cancel)
    } else if i == 25 {
        (KeyContext::Search, "ctrl+u"@, KeyAction::ClearSearch)
    } else if i == 26 {
        (KeyContext::Search, "Backspace"@, KeyAction::DeleteCharBackward)
    } else if i == 27 {
        (KeyContext::History, "/"@, KeyAction::FocusSearch)
    } else if i == 28 {
        (KeyContext::History, "j"@, KeyAction::NavigateDown)
    } else if i == 29 {
        (KeyContext::History, "k"@, KeyAction::NavigateUp)
    } else if i == 30 {
        (KeyContext::History, "f"@, KeyAction::ToggleFavorite)
    } else if i == 31 {
        (KeyContext::History, "y"@, KeyAction::CopyToClipboard)
    } else if i == 32 {
        (KeyContext::History, "t"@, KeyAction::EditTags)
    } else if i == 33 {
        (KeyContext::History, "d"@, KeyAction::ToggleDetails)
    } else if i == 34 {
        (KeyContext::History, "e"@, KeyAction::EditCommand)
    } else if i == 35 {
        (KeyContext::History, "Backspace"@, KeyAction::DeleteCharBackward)
    } else if i == 36 {
        (KeyContext::CollectionsList, "/"@, KeyAction::FocusSearch)
    } else if i == 37 {
        (KeyContext::CollectionsList, "j"@, KeyAction::NavigateDown)
    } else if i == 38 {
        (KeyContext::CollectionsList, "k"@, KeyAction::NavigateUp)
    } else {
        (KeyContext::CollectionsList, "n"@, KeyAction::NewCollection)
    }
}

pub open spec fn table_rows_2(i: int) -> (KeyContext, Seq<char>, KeyAction) {
    if i == 40 {
        (KeyContext::CollectionsList, "e"@, KeyAction::EditCollection)
    } else if i == 41 {
        (KeyContext::CollectionsList, "d"@, KeyAction::DeleteCollection)
    } else if i == 42 {
        (KeyContext::CollectionsList, "Backspace"@, KeyAction::DeleteCharBackward)
    } else if i == 43 {
        (KeyContext::CollectionItems, "/"@, KeyAction::FocusSearch)
    } else if i == 44 {
        (KeyContext::CollectionItems, "j"@, KeyAction::NavigateDown)
    } else if i == 45 {
        (KeyContext::CollectionItems, "k"@, KeyAction::NavigateUp)
    } else if i == 46 {
        (KeyContext::CollectionItems, "y"@, KeyAction::CopyToClipboard)
    } else if i == 47 {
        (KeyContext::CollectionItems, "d"@, KeyAction::ToggleDetails)
    } else if i == 48 {
        (KeyContext::CollectionItems, "a"@, KeyAction::SearchCollection)
    } else if i == 49 {
        (KeyContext::CollectionItems, "r"@, KeyAction::RemoveFromCollection)
    } else if i == 50 {
        (KeyContext::CollectionItems, "e"@, KeyAction::EditCommand)
    } else if i == 51 {
        (KeyContext::CollectionItems, "Backspace"@, KeyAction::DeleteCharBackward)
    } else if i == 52 {
        (KeyContext::Help, "Enter"@, KeyAction::Confirm)
    } else if i == 53 {
        (KeyContext::Help, "Up, ctrl+p"@, KeyAction::NavigateUp)
    } else if i == 54 {
        (KeyContext::Help, "Down, ctrl+n"@, KeyAction::NavigateDown)
    } else if i == 55 {
        (KeyContext::Help, "PageUp, ctrl+u"@, KeyAction::PageUp)
    } else if i == 56 {
        (KeyContext::Help, "PageDown, ctrl+d"@, KeyAction::PageDown)
    } else if i == 57 {
        (KeyContext::Help, "Backspace"@, KeyAction::DeleteCharBackward)
    } else if i == 58 {
        (KeyContext::Help, "esc, ctrl+c"@, KeyAction::Cancel)
    } else {
        (KeyContext::TagInput, "Enter"@, KeyAction::Confirm)
    }
}

pub open spec fn table_rows_3(i: int) -> (KeyContext, Seq<char>, KeyAction) {
    if i == 60 {
        (KeyContext::TagInput, "Tab"@, KeyAction::AcceptSuggestion)
    } else if i == 61 {
        (KeyContext::TagInput, "Left"@, KeyAction::CursorLeft)
    } else if i == 62 {
        (KeyContext::TagInput, "Right"@, KeyAction::CursorRight)
    } else if i == 63 {
        (KeyContext::TagInput, "Up, ctrl+p"@, KeyAction::NavigateUp)
    } else if i == 64 {
        (KeyContext::TagInput, "Down, ctrl+n"@, KeyAction::NavigateDown)
    } else if i == 65 {
        (KeyContext::TagInput, "Backspace"@, KeyAction::DeleteCharBackward)
    } else if i == 66 {
        (KeyContext::TagInput, "ctrl+u"@, KeyAction::KillLine)
    } else if i == 67 {
        (KeyContext::TagInput, "esc, ctrl+c"@, KeyAction::Cancel)
    } else if i == 68 {
        (KeyContext::CollectionInput, "Enter"@, KeyAction::Confirm)
    } else if i == 69 {
        (KeyContext::CollectionInput, "Up, ctrl+p"@, KeyAction::NavigateUp)
    } else if i == 70 {
        (KeyContext::CollectionInput, "Down, ctrl+n"@, KeyAction::NavigateDown)
    } else if i == 71 {
        (KeyContext::CollectionInput, "Backspace"@, KeyAction::DeleteCharBackward)
    } else if i == 72 {
        (KeyContext::CollectionInput, "ctrl+u"@, KeyAction::KillLine)
    } else if i == 73 {
        (KeyContext::CollectionInput, "esc, ctrl+c"@, KeyAction::Cancel)
    } else if i == 74 {
        (KeyContext::ImportExport, "Enter"@, KeyAction::Confirm)
    } else if i == 75 {
        (KeyContext::ImportExport, "Up, ctrl+p"@, KeyAction::NavigateUp)
    } else if i == 76 {
        (KeyContext::ImportExport, "Down, ctrl+n"@, KeyAction::NavigateDown)
    } else if i == 77 {
        (KeyContext::ImportExport, "Backspace"@, KeyAction::DeleteCharBackward)
    } else if i == 78 {
        (KeyContext::ImportExport, "ctrl+u"@, KeyAction::KillLine)
    } else {
        (KeyContext::ImportExport, "esc, ctrl+c"@, KeyAction::Cancel)
    }
}

pub open spec fn table_rows_4(i: int) -> (KeyContext, Seq<char>, KeyAction) {
    if i == 80 {
        (KeyContext::ThemePopup, "Enter"@, KeyAction::Confirm)
    } else if i == 81 {
        (KeyContext::ThemePopup, "j, Down"@, KeyAction::NavigateDown)
    } else if i == 82 {
        (KeyContext::ThemePopup, "k, Up"@, KeyAction::NavigateUp)
    } else if i == 83 {
        (KeyContext::ThemePopup, "esc, ctrl+c"@, KeyAction::Cancel)
    } else if i == 84 {
        (KeyContext::ContextMenu, "Enter"@, KeyAction::Confirm)
    } else if i == 85 {
        (KeyContext::ContextMenu, "j, Down"@, KeyAction::NavigateDown)
    } else if i == 86 {
        (KeyContext::ContextMenu, "k, Up"@, KeyAction::NavigateUp)
    } else if i == 87 {
        (KeyContext::ContextMenu, "esc, ctrl+c, q"@, KeyAction::Cancel)
    } else if i == 88 {
        (KeyContext::IntegrationPopup, "Enter, u, y"@, KeyAction::Confirm)
    } else if i == 89 {
        (KeyContext::IntegrationPopup, "esc, ctrl+c, n, q"@, KeyAction::Decline)
    } else if i == 90 {
        (KeyContext::EditCommand, "Enter"@, KeyAction::Confirm)
    } else if i == 91 {
        (KeyContext::EditCommand, "Left"@, KeyAction::CursorLeft)
    } else if i == 92 {
        (KeyContext::EditCommand, "Right"@, KeyAction::CursorRight)
    } else if i == 93 {
        (KeyContext::EditCommand, "Home"@, KeyAction::CursorHome)
    } else if i == 94 {
        (KeyContext::EditCommand, "End"@, KeyAction::CursorEnd)
    } else if i == 95 {
        (KeyContext::EditCommand, "Backspace"@, KeyAction::DeleteCharBackward)
    } else if i == 96 {
        (KeyContext::EditCommand, "Delete"@, KeyAction::DeleteCharForward)
    } else if i == 97 {
        (KeyContext::EditCommand, "ctrl+u"@, KeyAction::KillLine)
    } else if i == 98 {
        (KeyContext::EditCommand, "ctrl+x"@, KeyAction::OpenExternalEditor)
    } else {
        (KeyContext::EditCommand, "esc, ctrl+c"@, KeyAction::Cancel)
    }
}

fn table_row_exec(i: usize) -> (r: (KeyContext, &'static str, KeyAction))
    requires
        i < TABLE_LEN,
    ensures
        (r.0, r.1@, r.2) == table_row(i as int),
{
    if i < 20 {
        table_rows_exec_0(i)
    } else if i < 40 {
        table_rows_exec_1(i)
    } else if i < 60 {
        table_rows_exec_2(i)
    } else if i < 80 {
        table_rows_exec_3(i)
    } else {
        table_rows_exec_4(i)
    }
}

fn table_rows_exec_0(i: usize) -> (r: (KeyContext, &'static str, KeyAction))
    requires
        0 <= i < 20,
    ensures
        (r.0, r.1@, r.2) == table_rows_0(i as int),
{
    match i {
        0 => (KeyContext::Global, "Enter", KeyAction::Execute),
        1 => (KeyContext::Global, "Up", KeyAction::NavigateUp),
        2 => (KeyContext::Global, "Down", KeyAction::NavigateDown),
        3 => (KeyContext::Global, "PageDown, ctrl+d", KeyAction::PageDown),
        4 => (KeyContext::Global, "PageUp, ctrl+u", KeyAction::PageUp),
        5 => (KeyContext::Global, "g g", KeyAction::GoToTop),
        6 => (KeyContext::Global, "G", KeyAction::GoToBottom),
        7 => (KeyContext::Global, "Tab", KeyAction::SwitchPane),
        8 => (KeyContext::Global, "ctrl+j", KeyAction::PaneDown),
        9 => (KeyContext::Global, "ctrl+k", KeyAction::PaneUp),
        10 => (KeyContext::Global, "ctrl+h", KeyAction::PaneLeft),
        11 => (KeyContext::Global, "ctrl+l", KeyAction::PaneRight),
        12 => (KeyContext::Global, "1, alt+1", KeyAction::ViewHistory),
        13 => (KeyContext::Global, "2, alt+2", KeyAction::ViewFavorites),
        14 => (KeyContext::Global, "3, alt+3", KeyAction::ViewCollections),
        15 => (KeyContext::Global, "., alt+.", KeyAction::ScopeCwd),
        16 => (KeyContext::Global, "<, alt+<", KeyAction::ShrinkPane),
        17 => (KeyContext::Global, ">, alt+>", KeyAction::GrowPane),
        18 => (KeyContext::Global, "?, F1", KeyAction::ShowHelp),
        _ => (KeyContext::Global, "ctrl+t", KeyAction::ChangeTheme),
    }
}

fn table_rows_exec_1(i: usize) -> (r: (KeyContext, &'static str, KeyAction))
    requires
        20 <= i < 40,
    ensures
        (r.0, r.1@, r.2) == table_rows_1(i as int),
{
    match i {
        20 => (KeyContext::Global, "ctrl+e", KeyAction::ExportData),
        21 => (KeyContext::Global, "ctrl+o", KeyAction::ImportData),
        22 => (KeyContext::Global, "ctrl+x", KeyAction::OpenExternalEditor),
        23 => (KeyContext::Global, "c", KeyAction::AddToCollection),
        24 => (KeyContext::Global, "esc, ctrl+c", KeyAction::Cancel),
        25 => (KeyContext::Search, "ctrl+u", KeyAction::ClearSearch),
        26 => (KeyContext::Search, "Backspace", KeyAction::DeleteCharBackward),
        27 => (KeyContext::History, "/", KeyAction::FocusSearch),
        28 => (KeyContext::History, "j", KeyAction::NavigateDown),
        29 => (KeyContext::History, "k", KeyAction::NavigateUp),
        30 => (KeyContext::History, "f", KeyAction::ToggleFavorite),
        31 => (KeyContext::History, "y", KeyAction::CopyToClipboard),
        32 => (KeyContext::History, "t", KeyAction::EditTags),
        33 => (KeyContext::History, "d", KeyAction::ToggleDetails),
        34 => (KeyContext::History, "e", KeyAction::EditCommand),
        35 => (KeyContext::History, "Backspace", KeyAction::DeleteCharBackward),
        36 => (KeyContext::CollectionsList, "/", KeyAction::FocusSearch),
        37 => (KeyContext::CollectionsList, "j", KeyAction::NavigateDown),
        38 => (KeyContext::CollectionsList, "k", KeyAction::NavigateUp),
        _ => (KeyContext::CollectionsList, "n", KeyAction::NewCollection),
    }
}

fn table_rows_exec_2(i: usize) -> (r: (KeyContext, &'static str, KeyAction))
    requires
        40 <= i < 60,
    ensures
        (r.0, r.1@, r.2) == table_rows_2(i as int),
{
    match i {
        40 => (KeyContext::CollectionsList, "e", KeyAction::EditCollection),
        41 => (KeyContext::CollectionsList, "d", KeyAction::DeleteCollection),
        42 => (KeyContext::CollectionsList, "Backspace", KeyAction::DeleteCharBackward),
        43 => (KeyContext::CollectionItems, "/", KeyAction::FocusSearch),
        44 => (KeyContext::CollectionItems, "j", KeyAction::NavigateDown),
        45 => (KeyContext::CollectionItems, "k", KeyAction::NavigateUp),
        46 => (KeyContext::CollectionItems, "y", KeyAction::CopyToClipboard),
        47 => (KeyContext::CollectionItems, "d", KeyAction::ToggleDetails),
        48 => (KeyContext::CollectionItems, "a", KeyAction::SearchCollection),
        49 => (KeyContext::CollectionItems, "r", KeyAction::RemoveFromCollection),
        50 => (KeyContext::CollectionItems, "e", KeyAction::EditCommand),
        51 => (KeyContext::CollectionItems, "Backspace", KeyAction::DeleteCharBackward),
        52 => (KeyContext::Help, "Enter", KeyAction::Confirm),
        53 => (KeyContext::Help, "Up, ctrl+p", KeyAction::NavigateUp),
        54 => (KeyContext::Help, "Down, ctrl+n", KeyAction::NavigateDown),
        55 => (KeyContext::Help, "PageUp, ctrl+u", KeyAction::PageUp),
        56 => (KeyContext::Help, "PageDown, ctrl+d", KeyAction::PageDown),
        57 => (KeyContext::Help, "Backspace", KeyAction::DeleteCharBackward),
        58 => (KeyContext::Help, "esc, ctrl+c", KeyAction::Cancel),
        _ => (KeyContext::TagInput, "Enter", KeyAction::Confirm),
    }
}

fn table_rows_exec_3(i: usize) -> (r: (KeyContext, &'static str, KeyAction))
    requires
        60 <= i < 80,
    ensures
        (r.0, r.1@, r.2) == table_rows_3(i as int),
{
    match i {
        60 => (KeyContext::TagInput, "Tab", KeyAction::AcceptSuggestion),
        61 => (KeyContext::TagInput, "Left", KeyAction::CursorLeft),
        62 => (KeyContext::TagInput, "Right", KeyAction::CursorRight),
        63 => (KeyContext::TagInput, "Up, ctrl+p", KeyAction::NavigateUp),
        64 => (KeyContext::TagInput, "Down, ctrl+n", KeyAction::NavigateDown),
        65 => (KeyContext::TagInput, "Backspace", KeyAction::DeleteCharBackward),
        66 => (KeyContext::TagInput, "ctrl+u", KeyAction::KillLine),
        67 => (KeyContext::TagInput, "esc, ctrl+c", KeyAction::Cancel),
        68 => (KeyContext::CollectionInput, "Enter", KeyAction::Confirm),
        69 => (KeyContext::CollectionInput, "Up, ctrl+p", KeyAction::NavigateUp),
        70 => (KeyContext::CollectionInput, "Down, ctrl+n", KeyAction::NavigateDown),
        71 => (KeyContext::CollectionInput, "Backspace", KeyAction::DeleteCharBackward),
        72 => (KeyContext::CollectionInput, "ctrl+u", KeyAction::KillLine),
        73 => (KeyContext::CollectionInput, "esc, ctrl+c", KeyAction::Cancel),
        74 => (KeyContext::ImportExport, "Enter", KeyAction::Confirm),
        75 => (KeyContext::ImportExport, "Up, ctrl+p", KeyAction::NavigateUp),
        76 => (KeyContext::ImportExport, "Down, ctrl+n", KeyAction::NavigateDown),
        77 => (KeyContext::ImportExport, "Backspace", KeyAction::DeleteCharBackward),
        78 => (KeyContext::ImportExport, "ctrl+u", KeyAction::KillLine),
        _ => (KeyContext::ImportExport, "esc, ctrl+c", KeyAction::Cancel),
    }
}

fn table_rows_exec_4(i: usize) -> (r: (KeyContext, &'static str, KeyAction))
    requires
        80 <= i < 100,
    ensures
        (r.0, r.1@, r.2) == table_rows_4(i as int),
{
    match i {
        80 => (KeyContext::ThemePopup, "Enter", KeyAction::Confirm),
        81 => (KeyContext::ThemePopup, "j, Down", KeyAction::NavigateDown),
        82 => (KeyContext::ThemePopup, "k, Up", KeyAction::NavigateUp),
        83 => (KeyContext::ThemePopup, "esc, ctrl+c", KeyAction::Cancel),
        84 => (KeyContext::ContextMenu, "Enter", KeyAction::Confirm),
        85 => (KeyContext::ContextMenu, "j, Down", KeyAction::NavigateDown),
        86 => (KeyContext::ContextMenu, "k, Up", KeyAction::NavigateUp),
        87 => (KeyContext::ContextMenu, "esc, ctrl+c, q", KeyAction::Cancel),
        88 => (KeyContext::IntegrationPopup, "Enter, u, y", KeyAction::Confirm),
        89 => (KeyContext::IntegrationPopup, "esc, ctrl+c, n, q", KeyAction::Decline),
        90 => (KeyContext::EditCommand, "Enter", KeyAction::Confirm),
        91 => (KeyContext::EditCommand, "Left", KeyAction::CursorLeft),
        92 => (KeyContext::EditCommand, "Right", KeyAction::CursorRight),
        93 => (KeyContext::EditCommand, "Home", KeyAction::CursorHome),
        94 => (KeyContext::EditCommand, "End", KeyAction::CursorEnd),
        95 => (KeyContext::EditCommand, "Backspace", KeyAction::DeleteCharBackward),
        96 => (KeyContext::EditCommand, "Delete", KeyAction::DeleteCharForward),
        97 => (KeyContext::EditCommand, "ctrl+u", KeyAction::KillLine),
        98 => (KeyContext::EditCommand, "ctrl+x", KeyAction::OpenExternalEditor),
        _ => (KeyContext::EditCommand, "esc, ctrl+c", KeyAction::Cancel),
    }
}

/// The default table, row by row.
pub fn table() -> (r: Vec<(KeyContext, &'static str, KeyAction)>)
    ensures
        r@.len() == TABLE_LEN,
        forall|i: int| 0 <= i < TABLE_LEN ==> ((#[trigger] r@[i]).0, r@[i].1@, r@[i].2) == table_row(i),
{
    let mut r: Vec<(KeyContext, &'static str, KeyAction)> = Vec::new();
    let mut i: usize = 0;
    while i < TABLE_LEN
        invariant
            i <= TABLE_LEN,
            r@.len() == i,
            forall|j: int| 0 <= j < i ==> ((#[trigger] r@[j]).0, r@[j].1@, r@[j].2) == table_row(j),
        decreases TABLE_LEN - i,
    {
        r.push(table_row_exec(i));
        i += 1;
    }
    r
}

/// The first occurrence of `pat` in `s` at or after `i`.
pub open spec fn first_match_from(s: Seq<char>, pat: Seq<char>, i: int) -> Option<int>
    decreases s.len() + 1 - i,
{
    if i < 0 || i > s.len() {
        None
    } else if match_at(s, pat, i) {
        Some(i)
    } else {
        first_match_from(s, pat, i + 1)
    }
}

pub proof fn lemma_first_match_from(s: Seq<char>, pat: Seq<char>, i: int)
    requires
        0 <= i,
    ensures
        match first_match_from(s, pat, i) {
            Some(k) => i <= k && match_at(s, pat, k) && forall|j: int| i <= j < k ==> !match_at(s, pat, j),
            None => forall|j: int| i <= j ==> !match_at(s, pat, j),
        },
    decreases s.len() + 1 - i,
{
    if i <= s.len() && !match_at(s, pat, i) {
        lemma_first_match_from(s, pat, i + 1);
    }
}

/// `str::split` on a non-empty pattern: the pieces between its leftmost,
/// non-overlapping occurrences.
pub open spec fn split_on(s: Seq<char>, pat: Seq<char>) -> Seq<Seq<char>>
    decreases s.len(),
{
    if pat.len() == 0 {
        seq![s]
    } else {
        match first_match_from(s, pat, 0) {
            Some(i) => {
                proof {
                    lemma_first_match_from(s, pat, 0);
                }
                seq![s.take(i)] + split_on(s.skip(i + pat.len()), pat)
            },
            None => seq![s],
        }
    }
}

/// `str::split` on a non-empty pattern.
fn split_on_chars(s: &[char], pat: &[char]) -> (r: Vec<Vec<char>>)
    requires
        pat@.len() > 0,
    ensures
        r@.map_values(|p: Vec<char>| p@) == split_on(s@, pat@),
    decreases s@.len(),
{
    match find_from(s, pat, 0) {
        Some(i) => {
            proof {
                lemma_first_match_from(s@, pat@, 0);
                if first_match_from(s@, pat@, 0) != Some(i as int) {
                    let k = first_match_from(s@, pat@, 0)->0;
                    assert(!match_at(s@, pat@, k) || k >= i);
                }
            }
            assert(match_at(s@, pat@, i as int));
            assert(i + pat@.len() <= s@.len());
            assert(s@.len() == s.len());
            let head = slice_to_vec(s, 0, i);
            let tail = slice_to_vec(s, i + pat.len(), s.len());
            assert(head@ =~= s@.take(i as int));
            assert(tail@ =~= s@.skip(i + pat@.len()));
            let rest = split_on_chars(tail.as_slice(), pat);
            let mut r: Vec<Vec<char>> = Vec::new();
            r.push(head);
            let mut k: usize = 0;
            let ghost rv = rest@.map_values(|p: Vec<char>| p@);
            while k < rest.len()
                invariant
                    k <= rest@.len(),
                    rv == rest@.map_values(|p: Vec<char>| p@),
                    r@.map_values(|p: Vec<char>| p@) == seq![s@.take(i as int)] + rv.take(k as int),
                decreases rest.len() - k,
            {
                let piece = slice_to_vec(rest[k].as_slice(), 0, rest[k].len());
                assert(piece@ =~= rest@[k as int]@);
                let ghost before = r@.map_values(|p: Vec<char>| p@);
                r.push(piece);
                assert(r@.map_values(|p: Vec<char>| p@) =~= before.push(rv[k as int]));
                assert(rv.take(k + 1) =~= rv.take(k as int).push(rv[k as int]));
                k += 1;
                assert(r@.map_values(|p: Vec<char>| p@) =~= seq![s@.take(i as int)] + rv.take(k as int));
            }
            assert(rv.take(rest@.len() as int) =~= rv);
            r
        },
        None => {
            proof {
                lemma_first_match_from(s@, pat@, 0);
            }
            let mut r: Vec<Vec<char>> = Vec::new();
            r.push(slice_to_vec(s, 0, s.len()));
            assert(s@.subrange(0, s@.len() as int) =~= s@);
            assert(r@.map_values(|p: Vec<char>| p@) =~= seq![s@]);
            r
        },
    }
}

/// The bindings a row adds: each of its keys that parses, in order.
pub open spec fn row_bindings(keys: Seq<Seq<char>>, a: KeyAction) -> Entries
    decreases keys.len(),
{
    if keys.len() == 0 {
        Seq::empty()
    } else {
        let prev = row_bindings(keys.drop_last(), a);
        match binding_parse(keys.last()) {
            Ok(b) => prev.push((b, a)),
            Err(_) => prev,
        }
    }
}

/// The default bindings of `c` from the first `n` rows.
pub open spec fn rows_entries(n: int, c: KeyContext) -> Entries
    decreases n,
{
    if n <= 0 {
        Seq::empty()
    } else {
        let row = table_row(n - 1);
        rows_entries(n - 1, c) + if row.0 == c {
            row_bindings(split_on(row.1, ", "@), row.2)
        } else {
            Seq::empty()
        }
    }
}

/// The default bindings of a context.
pub open spec fn default_entries(c: KeyContext) -> Entries {
    rows_entries(TABLE_LEN as int, c)
}

/// The built-in keymap: every key of every row bound, in table order.
pub fn keymap() -> (r: Keymap)
    ensures
        forall|c: KeyContext| #[trigger] r.entries_spec(c) == default_entries(c),
{
    let t = table();
    let mut km = Keymap::new();
    let sep = chars_of(", ");
    proof {
        reveal_strlit(", ");
    }
    let mut i: usize = 0;
    while i < t.len()
        invariant
            t@.len() == TABLE_LEN,
            forall|j: int| 0 <= j < TABLE_LEN ==> ((#[trigger] t@[j]).0, t@[j].1@, t@[j].2) == table_row(j),
            sep@ == ", "@,
            sep@.len() == 2,
            i <= t@.len(),
            forall|c: KeyContext| #[trigger] km.entries_spec(c) == rows_entries(i as int, c),
        decreases t.len() - i,
    {
        let (context, keys, action) = t[i];
        let kv = chars_of(keys);
        let pieces = split_on_chars(kv.as_slice(), sep.as_slice());
        let ghost pv = pieces@.map_values(|p: Vec<char>| p@);
        let ghost base = km.entries_spec(context);
        let mut k: usize = 0;
        while k < pieces.len()
            invariant
                k <= pieces@.len(),
                pv == pieces@.map_values(|p: Vec<char>| p@),
                km.entries_spec(context) == base + row_bindings(pv.take(k as int), action),
                forall|c: KeyContext| c != context ==> #[trigger] km.entries_spec(c) == rows_entries(i as int, c),
            decreases pieces.len() - k,
        {
            assert(pv.take(k + 1).drop_last() =~= pv.take(k as int));
            assert(pieces@[k as int]@ == pv[k as int]);
            let text = string_of(pieces[k].as_slice());
            match parse_binding(text.as_str()) {
                Ok(b) => {
                    km.bind(context, b, action);
                    assert(base + row_bindings(pv.take(k + 1), action) =~= (base + row_bindings(pv.take(k as int), action)).push((b, action)));
                },
                Err(_) => {},
            }
            k += 1;
        }
        assert(pv.take(pv.len() as int) =~= pv);
        assert forall|c: KeyContext| #[trigger] km.entries_spec(c) == rows_entries(i + 1, c) by {
            if c != context {
                assert(rows_entries(i + 1, c) =~= rows_entries(i as int, c) + Seq::<(Binding, KeyAction)>::empty());
            }
        }
        i += 1;
    }
    km
}

} // verus!
