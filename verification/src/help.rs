//! What the help popup and the footer advertise, read from the live keymap.
use vstd::prelude::*;
use crate::keymap::action::KeyAction;
use crate::config::{problem_text, problem_view, ConfigProblem, Problem};
use crate::keymap::keys::{binding_text, format_binding};
use crate::keymap::{falls_through_spec, keys_of, Entries, KeyContext, Keymap};
use crate::picker::{fuzzy_indices, skim_indices};
use crate::text::{
    contains, copy_strings, owned, push_str, str_contains, str_eq, to_lowercase, lowercased,
    views,
};

verus! {

/// One row of the help popup.
#[derive(Debug)]
pub struct GroupedShortcut {
    /// `None` for the mouse rows, which document gestures with no binding.
    pub action: Option<KeyAction>,
    pub action_name: String,
    pub description: String,
    pub keys: Vec<String>,
    pub category: &'static str,
}

/// The key the footer shows for `a`: its first key in `context`, else, for
/// a pane, its first key in `Global`.
pub open spec fn footer_key(km: spec_fn(KeyContext) -> crate::keymap::Entries, context: KeyContext, a: KeyAction) -> Option<Seq<char>> {
    let here = keys_of(km(context), a);
    let global = keys_of(km(KeyContext::Global), a);
    if here.len() > 0 {
        Some(here[0])
    } else if falls_through_spec(context) && global.len() > 0 {
        Some(global[0])
    } else {
        None
    }
}

/// The `key: label` hints for the items that have a key, in order.
pub open spec fn hints(km: spec_fn(KeyContext) -> crate::keymap::Entries, context: KeyContext, items: Seq<(KeyAction, Seq<char>)>) -> Seq<Seq<char>>
    decreases items.len(),
{
    if items.len() == 0 {
        Seq::empty()
    } else {
        let prev = hints(km, context, items.drop_last());
        match footer_key(km, context, items.last().0) {
            Some(k) => prev.push(k + ": "@ + items.last().1),
            None => prev,
        }
    }
}

/// Texts joined by ` | `.
pub open spec fn joined_bar(parts: Seq<Seq<char>>) -> Seq<char>
    decreases parts.len(),
{
    if parts.len() == 0 {
        Seq::empty()
    } else if parts.len() == 1 {
        parts[0]
    } else {
        joined_bar(parts.drop_last()) + " | "@ + parts.last()
    }
}

/// `"?: Help | Ctrl+t: Theme | ..."` for the footer: each item with the first
/// key that reaches it here, items without one left out.
pub fn hint_line(keymap: &Keymap, context: KeyContext, items: &[(KeyAction, &str)]) -> (r: String)
    ensures
        r@ == joined_bar(
            hints(
                |c: KeyContext| keymap.entries_spec(c),
                context,
                items@.map_values(|it: (KeyAction, &str)| (it.0, it.1@)),
            ),
        ),
{
    let ghost km = |c: KeyContext| keymap.entries_spec(c);
    let ghost its = items@.map_values(|it: (KeyAction, &str)| (it.0, it.1@));
    let mut out = String::new();
    let mut empty = true;
    let mut i: usize = 0;
    while i < items.len()
        invariant
            i <= items@.len(),
            km == |c: KeyContext| keymap.entries_spec(c),
            its == items@.map_values(|it: (KeyAction, &str)| (it.0, it.1@)),
            empty == (hints(km, context, its.take(i as int)).len() == 0),
            out@ == joined_bar(hints(km, context, its.take(i as int))),
        decreases items.len() - i,
    {
        assert(its.take(i + 1).drop_last() =~= its.take(i as int));
        let (action, label) = items[i];
        let here = keymap.keys_for(context, action);
        let key: Option<String> = if here.len() > 0 {
            Some(owned(here[0].as_str()))
        } else if context.falls_through_to_global() {
            let global = keymap.keys_for(KeyContext::Global, action);
            if global.len() > 0 {
                Some(owned(global[0].as_str()))
            } else {
                None
            }
        } else {
            None
        };
        match key {
            Some(k) => {
                let ghost prev = hints(km, context, its.take(i as int));
                if !empty {
                    push_str(&mut out, " | ");
                }
                push_str(&mut out, k.as_str());
                push_str(&mut out, ": ");
                push_str(&mut out, label);
                let ghost next = prev.push(k@ + ": "@ + label@);
                assert(next.drop_last() =~= prev);
                proof {
                    if prev.len() == 0 {
                        assert(out@ =~= next[0]);
                    } else {
                        assert(out@ =~= joined_bar(prev) + " | "@ + next.last());
                    }
                }
                empty = false;
            },
            None => {},
        }
        i += 1;
    }
    assert(its.take(items@.len() as int) =~= its);
    out
}


// ---------------------------------------------------------------------------
// The help popup
// ---------------------------------------------------------------------------

/// How many described actions there are.
pub const META_LEN: usize = 35;

/// How many mouse gestures are described.
pub const MOUSE_LEN: usize = 7;

/// How many categories the popup has.
pub const CATEGORY_LEN: usize = 6;

/// Where config problems are listed.
pub const CONFIG_CATEGORY: &'static str = "Config";

/// What each described action is called, what it does and where it
/// belongs, in the popup's order within a category.
pub open spec fn meta(i: int) -> (KeyAction, Seq<char>, Seq<char>, Seq<char>) {
    if i == 0 {
        (KeyAction::NavigateDown, "Navigate Down"@, "Move selection one item down"@, "Navigation"@)
    } else if i == 1 {
        (KeyAction::NavigateUp, "Navigate Up"@, "Move selection one item up"@, "Navigation"@)
    } else if i == 2 {
        (KeyAction::PageDown, "Page Down"@, "Scroll down ~50% of list"@, "Navigation"@)
    } else if i == 3 {
        (KeyAction::PageUp, "Page Up"@, "Scroll up ~50% of list"@, "Navigation"@)
    } else if i == 4 {
        (KeyAction::GoToTop, "Go to Top"@, "Jump to first item (press gg)"@, "Navigation"@)
    } else if i == 5 {
        (KeyAction::GoToBottom, "Go to Bottom"@, "Jump to last item"@, "Navigation"@)
    } else if i == 6 {
        (KeyAction::Execute, "Execute Command"@, "Runs selected command in terminal"@, "Actions"@)
    } else if i == 7 {
        (KeyAction::ToggleFavorite, "Toggle Favorite"@, "Mark/unmark as favorite"@, "Actions"@)
    } else if i == 8 {
        (KeyAction::CopyToClipboard, "Copy to Clipboard"@, "Copy command to clipboard"@, "Actions"@)
    } else if i == 9 {
        (KeyAction::EditTags, "Edit Tags"@, "Add/remove tags from command"@, "Actions"@)
    } else if i == 10 {
        (KeyAction::AddToCollection, "Add to Collection"@, "Add command to collection"@, "Actions"@)
    } else if i == 11 {
        (KeyAction::ToggleDetails, "Toggle Details"@, "Show/hide details panel"@, "Actions"@)
    } else if i == 12 {
        (KeyAction::EditCommand, "Edit Command"@, "Edit the command before running it (Ctrl+x again for $EDITOR)"@, "Actions"@)
    } else if i == 13 {
        (KeyAction::ChangeTheme, "Change Theme"@, "Open theme selector popup"@, "Actions"@)
    } else if i == 14 {
        (KeyAction::ExportData, "Export Data"@, "Open export popup (type path, Enter to export)"@, "Actions"@)
    } else if i == 15 {
        (KeyAction::ImportData, "Import Data"@, "Open import popup (type path, Enter to preview)"@, "Actions"@)
    } else if i == 16 {
        (KeyAction::FocusSearch, "Focus Search"@, "Move cursor to search field"@, "Actions"@)
    } else if i == 17 {
        (KeyAction::ClearSearch, "Clear Search"@, "Clear the search query"@, "Actions"@)
    } else if i == 18 {
        (KeyAction::ShowHelp, "Show Help"@, "Open this help popup"@, "Actions"@)
    } else if i == 19 {
        (KeyAction::SwitchPane, "Switch Pane"@, "Cycle through panes"@, "Panels"@)
    } else if i == 20 {
        (KeyAction::PaneDown, "Pane Down"@, "Focus pane below"@, "Panels"@)
    } else if i == 21 {
        (KeyAction::PaneUp, "Pane Up"@, "Focus pane above"@, "Panels"@)
    } else if i == 22 {
        (KeyAction::PaneLeft, "Pane Left"@, "Focus pane on left"@, "Panels"@)
    } else if i == 23 {
        (KeyAction::PaneRight, "Pane Right"@, "Focus pane on right"@, "Panels"@)
    } else if i == 24 {
        (KeyAction::ViewHistory, "History View"@, "Show all commands"@, "Views"@)
    } else if i == 25 {
        (KeyAction::ViewFavorites, "Favorites View"@, "Show favorites only"@, "Views"@)
    } else if i == 26 {
        (KeyAction::ViewCollections, "Collections View"@, "Show collections"@, "Views"@)
    } else if i == 27 {
        (KeyAction::ScopeCwd, "Scope to Directory"@, "Show only commands run in the current directory"@, "Views"@)
    } else if i == 28 {
        (KeyAction::NewCollection, "New Collection"@, "Create new collection"@, "Collections"@)
    } else if i == 29 {
        (KeyAction::EditCollection, "Edit Collection"@, "Rename collection"@, "Collections"@)
    } else if i == 30 {
        (KeyAction::DeleteCollection, "Delete Collection"@, "Delete selected collection"@, "Collections"@)
    } else if i == 31 {
        (KeyAction::SearchCollection, "Search to Add"@, "Search commands to add"@, "Collections"@)
    } else if i == 32 {
        (KeyAction::RemoveFromCollection, "Remove from Collection"@, "Remove command from collection"@, "Collections"@)
    } else if i == 33 {
        (KeyAction::ShrinkPane, "Narrow Pane"@, "Narrow the details or collections pane"@, "Panels"@)
    } else {
        (KeyAction::GrowPane, "Widen Pane"@, "Widen the details or collections pane"@, "Panels"@)
    }
}

fn meta_row(i: usize) -> (r: (KeyAction, &'static str, &'static str, &'static str))
    requires
        i < META_LEN,
    ensures
        (r.0, r.1@, r.2@, r.3@) == meta(i as int),
{
    match i {
        0 => (KeyAction::NavigateDown, "Navigate Down", "Move selection one item down", "Navigation"),
        1 => (KeyAction::NavigateUp, "Navigate Up", "Move selection one item up", "Navigation"),
        2 => (KeyAction::PageDown, "Page Down", "Scroll down ~50% of list", "Navigation"),
        3 => (KeyAction::PageUp, "Page Up", "Scroll up ~50% of list", "Navigation"),
        4 => (KeyAction::GoToTop, "Go to Top", "Jump to first item (press gg)", "Navigation"),
        5 => (KeyAction::GoToBottom, "Go to Bottom", "Jump to last item", "Navigation"),
        6 => (KeyAction::Execute, "Execute Command", "Runs selected command in terminal", "Actions"),
        7 => (KeyAction::ToggleFavorite, "Toggle Favorite", "Mark/unmark as favorite", "Actions"),
        8 => (KeyAction::CopyToClipboard, "Copy to Clipboard", "Copy command to clipboard", "Actions"),
        9 => (KeyAction::EditTags, "Edit Tags", "Add/remove tags from command", "Actions"),
        10 => (KeyAction::AddToCollection, "Add to Collection", "Add command to collection", "Actions"),
        11 => (KeyAction::ToggleDetails, "Toggle Details", "Show/hide details panel", "Actions"),
        12 => (KeyAction::EditCommand, "Edit Command", "Edit the command before running it (Ctrl+x again for $EDITOR)", "Actions"),
        13 => (KeyAction::ChangeTheme, "Change Theme", "Open theme selector popup", "Actions"),
        14 => (KeyAction::ExportData, "Export Data", "Open export popup (type path, Enter to export)", "Actions"),
        15 => (KeyAction::ImportData, "Import Data", "Open import popup (type path, Enter to preview)", "Actions"),
        16 => (KeyAction::FocusSearch, "Focus Search", "Move cursor to search field", "Actions"),
        17 => (KeyAction::ClearSearch, "Clear Search", "Clear the search query", "Actions"),
        18 => (KeyAction::ShowHelp, "Show Help", "Open this help popup", "Actions"),
        19 => (KeyAction::SwitchPane, "Switch Pane", "Cycle through panes", "Panels"),
        20 => (KeyAction::PaneDown, "Pane Down", "Focus pane below", "Panels"),
        21 => (KeyAction::PaneUp, "Pane Up", "Focus pane above", "Panels"),
        22 => (KeyAction::PaneLeft, "Pane Left", "Focus pane on left", "Panels"),
        23 => (KeyAction::PaneRight, "Pane Right", "Focus pane on right", "Panels"),
        24 => (KeyAction::ViewHistory, "History View", "Show all commands", "Views"),
        25 => (KeyAction::ViewFavorites, "Favorites View", "Show favorites only", "Views"),
        26 => (KeyAction::ViewCollections, "Collections View", "Show collections", "Views"),
        27 => (KeyAction::ScopeCwd, "Scope to Directory", "Show only commands run in the current directory", "Views"),
        28 => (KeyAction::NewCollection, "New Collection", "Create new collection", "Collections"),
        29 => (KeyAction::EditCollection, "Edit Collection", "Rename collection", "Collections"),
        30 => (KeyAction::DeleteCollection, "Delete Collection", "Delete selected collection", "Collections"),
        31 => (KeyAction::SearchCollection, "Search to Add", "Search commands to add", "Collections"),
        32 => (KeyAction::RemoveFromCollection, "Remove from Collection", "Remove command from collection", "Collections"),
        33 => (KeyAction::ShrinkPane, "Narrow Pane", "Narrow the details or collections pane", "Panels"),
        _ => (KeyAction::GrowPane, "Widen Pane", "Widen the details or collections pane", "Panels"),
    }
}

/// The mouse gestures: name, what it does, and the gesture.
pub open spec fn gesture(i: int) -> (Seq<char>, Seq<char>, Seq<char>) {
    if i == 0 {
        ("Select"@, "Click a row, a tab, or the search bar"@, "Click"@)
    } else if i == 1 {
        ("Run Command"@, "Double-click a command to run it"@, "Double-click"@)
    } else if i == 2 {
        ("Context Menu"@, "Right-click a command, or the collections pane"@, "Right-click"@)
    } else if i == 3 {
        ("Resize Pane"@, "Drag a pane border; past the minimum hides details"@, "Drag border"@)
    } else if i == 4 {
        ("Scroll"@, "Wheel scrolls the list under the pointer"@, "Wheel"@)
    } else if i == 5 {
        ("Close Popup"@, "Click outside a popup to close it"@, "Click outside"@)
    } else {
        ("Select Text"@, "Hold Shift to select text with the mouse"@, "Shift+drag"@)
    }
}

fn gesture_row(i: usize) -> (r: (&'static str, &'static str, &'static str))
    requires
        i < MOUSE_LEN,
    ensures
        (r.0@, r.1@, r.2@) == gesture(i as int),
{
    match i {
        0 => ("Select", "Click a row, a tab, or the search bar", "Click"),
        1 => ("Run Command", "Double-click a command to run it", "Double-click"),
        2 => ("Context Menu", "Right-click a command, or the collections pane", "Right-click"),
        3 => ("Resize Pane", "Drag a pane border; past the minimum hides details", "Drag border"),
        4 => ("Scroll", "Wheel scrolls the list under the pointer", "Wheel"),
        5 => ("Close Popup", "Click outside a popup to close it", "Click outside"),
        _ => ("Select Text", "Hold Shift to select text with the mouse", "Shift+drag"),
    }
}

/// The categories in the order they are drawn; the mouse gestures last.
pub open spec fn category(i: int) -> Seq<char> {
    if i == 0 {
        "Navigation"@
    } else if i == 1 {
        "Actions"@
    } else if i == 2 {
        "Panels"@
    } else if i == 3 {
        "Views"@
    } else if i == 4 {
        "Collections"@
    } else {
        "Mouse"@
    }
}

fn category_name(i: usize) -> (r: &'static str)
    requires
        i < CATEGORY_LEN,
    ensures
        r@ == category(i as int),
{
    match i {
        0 => "Navigation",
        1 => "Actions",
        2 => "Panels",
        3 => "Views",
        4 => "Collections",
        _ => "Mouse",
    }
}

/// A row of the popup as plain values: action, name, description, keys,
/// category.
pub type RowView = (Option<KeyAction>, Seq<char>, Seq<char>, Seq<Seq<char>>, Seq<char>);

pub open spec fn row_view(g: GroupedShortcut) -> RowView {
    (g.action, g.action_name@, g.description@, views(g.keys@), g.category@)
}

pub open spec fn row_views(v: Seq<GroupedShortcut>) -> Seq<RowView> {
    v.map_values(|g: GroupedShortcut| row_view(g))
}

/// Whether `key` reaches another action than `a` in these bindings.
pub open spec fn claimed_elsewhere(s: Entries, a: KeyAction, key: Seq<char>) -> bool {
    exists|i: int| 0 <= i < s.len() && (#[trigger] s[i]).1 != a && binding_text(s[i].0) == key
}

/// The keys not claimed by another action.
pub open spec fn unclaimed(keys: Seq<Seq<char>>, s: Entries, a: KeyAction) -> Seq<Seq<char>>
    decreases keys.len(),
{
    if keys.len() == 0 {
        keys
    } else if claimed_elsewhere(s, a, keys.last()) {
        unclaimed(keys.drop_last(), s, a)
    } else {
        unclaimed(keys.drop_last(), s, a).push(keys.last())
    }
}

/// The keys the popup lists for `a` in `context`: its own keys there; else,
/// for a pane, its `Global` keys that the pane has not claimed for something
/// else.
pub open spec fn listed_keys(km: Keymap, context: KeyContext, a: KeyAction) -> Seq<Seq<char>> {
    let here = keys_of(km.entries_spec(context), a);
    if here.len() > 0 {
        here
    } else if falls_through_spec(context) && context != KeyContext::Global {
        unclaimed(keys_of(km.entries_spec(KeyContext::Global), a), km.entries_spec(context), a)
    } else {
        Seq::empty()
    }
}

/// The rows of one category from the first `upto` described actions.
pub open spec fn category_rows(km: Keymap, context: KeyContext, cat: Seq<char>, upto: int) -> Seq<RowView>
    decreases upto,
{
    if upto <= 0 {
        Seq::empty()
    } else {
        let before = category_rows(km, context, cat, upto - 1);
        let m = meta(upto - 1);
        let keys = listed_keys(km, context, m.0);
        if m.3 == cat && keys.len() > 0 {
            before.push((Some(m.0), m.1, m.2, keys, cat))
        } else {
            before
        }
    }
}

/// The mouse rows, which carry no action.
pub open spec fn gesture_rows() -> Seq<RowView> {
    Seq::new(
        MOUSE_LEN as nat,
        |i: int| (None, gesture(i).0, gesture(i).1, seq![gesture(i).2], "Mouse"@),
    )
}

/// The rows of the first `upto` categories.
pub open spec fn sections(km: Keymap, context: KeyContext, upto: int) -> Seq<RowView>
    decreases upto,
{
    if upto <= 0 {
        Seq::empty()
    } else if upto - 1 == CATEGORY_LEN - 1 {
        sections(km, context, upto - 1) + gesture_rows()
    } else {
        sections(km, context, upto - 1) + category_rows(km, context, category(upto - 1), META_LEN as int)
    }
}

/// One row per config problem, first.
pub open spec fn problem_rows(problems: Seq<Problem>) -> Seq<RowView> {
    problems.map_values(
        |p: Problem| (None, "Not applied"@, problem_text(p), seq!["config.toml"@], CONFIG_CATEGORY@),
    )
}

/// The help popup's rows for `context`: the config problems, then every
/// described action that has a key here, by category, then the mouse.
pub open spec fn shortcut_rows(km: Keymap, context: KeyContext, problems: Seq<Problem>) -> Seq<RowView> {
    problem_rows(problems) + sections(km, context, CATEGORY_LEN as int)
}

/// Whether `key` reaches another action than `a` in `entries`.
fn is_claimed_elsewhere(entries: &[(crate::keymap::keys::Binding, KeyAction)], a: KeyAction, key: &str) -> (r: bool)
    ensures
        r == claimed_elsewhere(entries@, a, key@),
{
    let mut i: usize = 0;
    while i < entries.len()
        invariant
            i <= entries@.len(),
            forall|j: int| 0 <= j < i ==> !((#[trigger] entries@[j]).1 != a && binding_text(entries@[j].0) == key@),
        decreases entries.len() - i,
    {
        if entries[i].1 != a {
            let text = format_binding(&entries[i].0);
            if str_eq(text.as_str(), key) {
                return true;
            }
        }
        i += 1;
    }
    false
}

/// The keys listed for `a` in `context`.
fn keys_listed(keymap: &Keymap, context: KeyContext, a: KeyAction) -> (r: Vec<String>)
    ensures
        views(r@) == listed_keys(*keymap, context, a),
{
    let here = keymap.keys_for(context, a);
    assert(views(here@) =~= here@.map_values(|k: String| k@));
    if here.len() > 0 {
        return here;
    }
    if !(context.falls_through_to_global() && context != KeyContext::Global) {
        let r: Vec<String> = Vec::new();
        assert(views(r@) =~= Seq::<Seq<char>>::empty());
        return r;
    }
    let global = keymap.keys_for(KeyContext::Global, a);
    assert(views(global@) =~= global@.map_values(|k: String| k@));
    let entries = keymap.entries(context);
    let mut out: Vec<String> = Vec::new();
    let mut i: usize = 0;
    while i < global.len()
        invariant
            i <= global@.len(),
            entries@ == keymap.entries_spec(context),
            views(out@) == unclaimed(views(global@).take(i as int), entries@, a),
        decreases global.len() - i,
    {
        assert(views(global@).take(i + 1).drop_last() =~= views(global@).take(i as int));
        assert(views(global@).take(i + 1).last() == global@[i as int]@);
        if !is_claimed_elsewhere(entries, a, global[i].as_str()) {
            let ghost before = views(out@);
            out.push(global[i].clone());
            assert(views(out@) =~= before.push(global@[i as int]@));
        }
        i += 1;
    }
    assert(views(global@).take(global@.len() as int) =~= views(global@));
    out
}

/// The rows of the help popup for `context`, with the config problems first.
pub fn shortcuts_for(keymap: &Keymap, context: KeyContext, problems: &[ConfigProblem]) -> (r: Vec<GroupedShortcut>)
    ensures
        row_views(r@) == shortcut_rows(
            *keymap,
            context,
            problems@.map_values(|p: ConfigProblem| problem_view(p)),
        ),
{
    let ghost pv = problems@.map_values(|p: ConfigProblem| problem_view(p));
    let mut out: Vec<GroupedShortcut> = Vec::new();
    let mut i: usize = 0;
    while i < problems.len()
        invariant
            i <= problems@.len(),
            pv == problems@.map_values(|p: ConfigProblem| problem_view(p)),
            row_views(out@) == problem_rows(pv.take(i as int)),
        decreases problems.len() - i,
    {
        let ghost before = row_views(out@);
        let mut keys: Vec<String> = Vec::new();
        keys.push(owned("config.toml"));
        let row = GroupedShortcut {
            action: None,
            action_name: owned("Not applied"),
            description: problems[i].describe(),
            keys,
            category: CONFIG_CATEGORY,
        };
        assert(views(row.keys@) =~= seq!["config.toml"@]);
        out.push(row);
        assert(row_views(out@) =~= before.push(problem_rows(pv.take(i + 1)).last()));
        assert(problem_rows(pv.take(i + 1)) =~= problem_rows(pv.take(i as int)).push(
            problem_rows(pv.take(i + 1)).last(),
        ));
        i += 1;
    }
    assert(pv.take(problems@.len() as int) =~= pv);
    let ghost head = row_views(out@);
    let mut c: usize = 0;
    while c < CATEGORY_LEN
        invariant
            c <= CATEGORY_LEN,
            head == problem_rows(pv),
            row_views(out@) == head + sections(*keymap, context, c as int),
        decreases CATEGORY_LEN - c,
    {
        let cat = category_name(c);
        let ghost start = row_views(out@);
        if c == CATEGORY_LEN - 1 {
            let mut g: usize = 0;
            while g < MOUSE_LEN
                invariant
                    g <= MOUSE_LEN,
                    c == CATEGORY_LEN - 1,
                    cat@ == category(c as int),
                    row_views(out@) == start + gesture_rows().take(g as int),
                decreases MOUSE_LEN - g,
            {
                let (name, desc, gest) = gesture_row(g);
                let mut keys: Vec<String> = Vec::new();
                keys.push(owned(gest));
                let row = GroupedShortcut {
                    action: None,
                    action_name: owned(name),
                    description: owned(desc),
                    keys,
                    category: cat,
                };
                assert(views(row.keys@) =~= seq![gest@]);
                assert(cat@ == category(CATEGORY_LEN - 1));
                let ghost before = row_views(out@);
                let ghost rv = row_view(row);
                assert(rv == gesture_rows()[g as int]);
                out.push(row);
                assert(row_views(out@) =~= before.push(rv));
                assert(gesture_rows().take(g + 1) =~= gesture_rows().take(g as int).push(rv));
                g += 1;
                assert(row_views(out@) =~= start + gesture_rows().take(g as int));
            }
            assert(gesture_rows().take(MOUSE_LEN as int) =~= gesture_rows());
        } else {
            let mut j: usize = 0;
            while j < META_LEN
                invariant
                    j <= META_LEN,
                    c < CATEGORY_LEN - 1,
                    cat@ == category(c as int),
                    row_views(out@) == start + category_rows(*keymap, context, cat@, j as int),
                decreases META_LEN - j,
            {
                let (action, name, desc, mcat) = meta_row(j);
                if str_eq(mcat, cat) {
                    let keys = keys_listed(keymap, context, action);
                    if keys.len() > 0 {
                        let row = GroupedShortcut {
                            action: Some(action),
                            action_name: owned(name),
                            description: owned(desc),
                            keys,
                            category: cat,
                        };
                        let ghost before = row_views(out@);
                        let ghost rv = row_view(row);
                        out.push(row);
                        assert(row_views(out@) =~= before.push(rv));
                    }
                }
                j += 1;
            }
        }
        c += 1;
        assert(row_views(out@) =~= head + sections(*keymap, context, c as int));
    }
    out
}


proof fn lemma_category_rows_keyed(km: Keymap, context: KeyContext, cat: Seq<char>, upto: int)
    ensures
        forall|k: int|
            0 <= k < category_rows(km, context, cat, upto).len() ==> (#[trigger] category_rows(
                km,
                context,
                cat,
                upto,
            )[k]).3.len() > 0 && category_rows(km, context, cat, upto)[k].0 is Some,
    decreases upto,
{
    if upto > 0 {
        lemma_category_rows_keyed(km, context, cat, upto - 1);
    }
}

proof fn lemma_sections_keyed(km: Keymap, context: KeyContext, upto: int)
    ensures
        forall|k: int|
            0 <= k < sections(km, context, upto).len() ==> (#[trigger] sections(km, context, upto)[k]).3.len()
                > 0,
    decreases upto,
{
    if upto > 0 {
        lemma_sections_keyed(km, context, upto - 1);
        let before = sections(km, context, upto - 1);
        if upto - 1 == CATEGORY_LEN - 1 {
            assert forall|k: int| 0 <= k < sections(km, context, upto).len() implies (#[trigger] sections(
                km,
                context,
                upto,
            )[k]).3.len() > 0 by {
                if k >= before.len() {
                    assert(sections(km, context, upto)[k] == gesture_rows()[k - before.len()]);
                }
            }
        } else {
            let rows = category_rows(km, context, category(upto - 1), META_LEN as int);
            lemma_category_rows_keyed(km, context, category(upto - 1), META_LEN as int);
            assert forall|k: int| 0 <= k < sections(km, context, upto).len() implies (#[trigger] sections(
                km,
                context,
                upto,
            )[k]).3.len() > 0 by {
                if k >= before.len() {
                    assert(sections(km, context, upto)[k] == rows[k - before.len()]);
                }
            }
        }
    }
}

/// Every row of the help popup names at least one key or gesture, and every
/// described action it lists is listed with a key that reaches it.
pub proof fn law_help_rows_name_a_key(km: Keymap, context: KeyContext, problems: Seq<Problem>)
    ensures
        forall|k: int|
            0 <= k < shortcut_rows(km, context, problems).len() ==> (#[trigger] shortcut_rows(
                km,
                context,
                problems,
            )[k]).3.len() > 0,
{
    let head = problem_rows(problems);
    let tail = sections(km, context, CATEGORY_LEN as int);
    lemma_sections_keyed(km, context, CATEGORY_LEN as int);
    assert forall|k: int| 0 <= k < shortcut_rows(km, context, problems).len() implies (#[trigger] shortcut_rows(
        km,
        context,
        problems,
    )[k]).3.len() > 0 by {
        if k < head.len() {
            assert(shortcut_rows(km, context, problems)[k] == head[k]);
        } else {
            assert(shortcut_rows(km, context, problems)[k] == tail[k - head.len()]);
        }
    }
}


// ---------------------------------------------------------------------------
// Searching the help popup
// ---------------------------------------------------------------------------

impl GroupedShortcut {
    /// A copy of this row.
    pub fn duplicate(&self) -> (r: GroupedShortcut)
        ensures
            row_view(r) == row_view(*self),
    {
        GroupedShortcut {
            action: self.action,
            action_name: self.action_name.clone(),
            description: self.description.clone(),
            keys: copy_strings(&self.keys),
            category: self.category,
        }
    }
}

/// `s / 2` rounded toward zero, as `i64` division does.
pub open spec fn half_toward_zero(s: i64) -> int {
    if s >= 0 {
        s / 2
    } else {
        -((-s) / 2)
    }
}

/// Whether some key, lowercased, contains `q`.
pub open spec fn some_key_contains(keys: Seq<Seq<char>>, q: Seq<char>) -> bool {
    exists|i: int| 0 <= i < keys.len() && contains(lowercased(#[trigger] keys[i]), q)
}

/// How well a row matches the lowercased query `q`: the better of its
/// name's score and half its description's, plus a thousand when a key
/// contains the query.
pub open spec fn help_score(r: RowView, q: Seq<char>) -> int {
    let name = match skim_indices(r.1, q) {
        Some((s, _)) => s as int,
        None => 0,
    };
    let desc = match skim_indices(r.2, q) {
        Some((s, _)) => half_toward_zero(s),
        None => 0,
    };
    (if name >= desc {
        name
    } else {
        desc
    }) + if some_key_contains(r.3, q) {
        1000int
    } else {
        0
    }
}

/// The rows scoring above zero, with their scores, in order.
pub open spec fn scored_rows(rows: Seq<RowView>, q: Seq<char>) -> Seq<(RowView, int)>
    decreases rows.len(),
{
    if rows.len() == 0 {
        Seq::empty()
    } else {
        let before = scored_rows(rows.drop_last(), q);
        if help_score(rows.last(), q) > 0 {
            before.push((rows.last(), help_score(rows.last(), q)))
        } else {
            before
        }
    }
}

/// `x` placed before the first entry it scores above.
pub open spec fn insert_by_score(s: Seq<(RowView, int)>, x: (RowView, int)) -> Seq<(RowView, int)>
    decreases s.len(),
{
    if s.len() == 0 {
        seq![x]
    } else if x.1 > s[0].1 {
        seq![x] + s
    } else {
        seq![s[0]] + insert_by_score(s.drop_first(), x)
    }
}

/// Best score first; equal scores keep their order.
pub open spec fn by_score(s: Seq<(RowView, int)>) -> Seq<(RowView, int)>
    decreases s.len(),
{
    if s.len() == 0 {
        s
    } else {
        insert_by_score(by_score(s.drop_last()), s.last())
    }
}

/// The rows the help search shows: all of them for an empty query, else the
/// rows that match the lowercased query, best first.
pub open spec fn help_search(rows: Seq<RowView>, query: Seq<char>) -> Seq<RowView> {
    if query.len() == 0 {
        rows
    } else {
        by_score(scored_rows(rows, lowercased(query))).map_values(|e: (RowView, int)| e.0)
    }
}

proof fn lemma_insert_by_score_at(s: Seq<(RowView, int)>, x: (RowView, int), p: int)
    requires
        0 <= p <= s.len(),
        forall|j: int| 0 <= j < p ==> !(x.1 > (#[trigger] s[j]).1),
        p < s.len() ==> x.1 > s[p].1,
    ensures
        insert_by_score(s, x) == s.take(p) + seq![x] + s.skip(p),
    decreases s.len(),
{
    if s.len() == 0 {
        assert(s.take(p) + seq![x] + s.skip(p) =~= seq![x]);
    } else if p == 0 {
        assert(s.take(0) + seq![x] + s.skip(0) =~= seq![x] + s);
    } else {
        let t = s.drop_first();
        assert forall|j: int| 0 <= j < p - 1 implies !(x.1 > (#[trigger] t[j]).1) by {
            assert(t[j] == s[j + 1]);
        }
        if p - 1 < t.len() {
            assert(t[p - 1] == s[p]);
        }
        lemma_insert_by_score_at(t, x, p - 1);
        assert(seq![s[0]] + (t.take(p - 1) + seq![x] + t.skip(p - 1)) =~= s.take(p) + seq![x]
            + s.skip(p));
    }
}

/// Whether some key, lowercased, contains `q`.
fn any_key_contains(keys: &Vec<String>, q: &str) -> (r: bool)
    ensures
        r == some_key_contains(views(keys@), q@),
{
    let mut i: usize = 0;
    while i < keys.len()
        invariant
            i <= keys@.len(),
            forall|j: int| 0 <= j < i ==> !contains(lowercased(#[trigger] views(keys@)[j]), q@),
        decreases keys.len() - i,
    {
        let lower = to_lowercase(keys[i].as_str());
        if str_contains(lower.as_str(), q) {
            assert(views(keys@)[i as int] == keys@[i as int]@);
            return true;
        }
        assert(views(keys@)[i as int] == keys@[i as int]@);
        i += 1;
    }
    false
}

/// The score of a row for the lowercased query.
fn score_row(row: &GroupedShortcut, q: &str) -> (r: i128)
    ensures
        r == help_score(row_view(*row), q@),
{
    let name: i128 = match fuzzy_indices(row.action_name.as_str(), q) {
        Some((s, _)) => s as i128,
        None => 0,
    };
    let desc: i128 = match fuzzy_indices(row.description.as_str(), q) {
        Some((s, _)) => (s / 2) as i128,
        None => 0,
    };
    let best = if name >= desc {
        name
    } else {
        desc
    };
    let keys: i128 = if any_key_contains(&row.keys, q) {
        1000
    } else {
        0
    };
    best + keys
}

/// The rows matching `query`, best first; all of them for an empty query.
pub fn filter_shortcuts(shortcuts: &[GroupedShortcut], query: &str) -> (r: Vec<GroupedShortcut>)
    ensures
        row_views(r@) == help_search(row_views(shortcuts@), query@),
{
    let ghost rows = row_views(shortcuts@);
    if query.is_empty() {
        let mut out: Vec<GroupedShortcut> = Vec::new();
        let mut i: usize = 0;
        while i < shortcuts.len()
            invariant
                i <= shortcuts@.len(),
                rows == row_views(shortcuts@),
                row_views(out@) == rows.take(i as int),
            decreases shortcuts.len() - i,
        {
            let ghost before = row_views(out@);
            out.push(shortcuts[i].duplicate());
            assert(row_views(out@) =~= before.push(rows[i as int]));
            i += 1;
            assert(row_views(out@) =~= rows.take(i as int));
        }
        assert(rows.take(shortcuts@.len() as int) =~= rows);
        return out;
    }
    let q = to_lowercase(query);
    let mut keys: Vec<(i128, usize)> = Vec::new();
    let mut i: usize = 0;
    while i < shortcuts.len()
        invariant
            i <= shortcuts@.len(),
            rows == row_views(shortcuts@),
            q@ == lowercased(query@),
            forall|j: int| 0 <= j < keys@.len() ==> (#[trigger] keys@[j]).1 < i,
            Seq::new(keys@.len(), |j: int| (rows[keys@[j].1 as int], keys@[j].0 as int)) == by_score(
                scored_rows(rows.take(i as int), q@),
            ),
        decreases shortcuts.len() - i,
    {
        assert(rows.take(i + 1).drop_last() =~= rows.take(i as int));
        assert(rows.take(i + 1).last() == rows[i as int]);
        let score = score_row(&shortcuts[i], q.as_str());
        if score > 0 {
            let ghost x = (rows[i as int], score as int);
            let ghost s = Seq::new(keys@.len(), |j: int| (rows[keys@[j].1 as int], keys@[j].0 as int));
            let mut p: usize = 0;
            while p < keys.len() && !(score > keys[p].0)
                invariant
                    p <= keys@.len(),
                    s == Seq::new(keys@.len(), |j: int| (rows[keys@[j].1 as int], keys@[j].0 as int)),
                    x.1 == score,
                    forall|j: int| 0 <= j < p ==> !(x.1 > (#[trigger] s[j]).1),
                decreases keys@.len() - p,
            {
                assert(s[p as int].1 == keys@[p as int].0);
                p += 1;
            }
            if p < keys.len() {
                assert(s[p as int].1 == keys@[p as int].0);
            }
            proof {
                lemma_insert_by_score_at(s, x, p as int);
            }
            keys.insert(p, (score, i));
            assert(Seq::new(keys@.len(), |j: int| (rows[keys@[j].1 as int], keys@[j].0 as int))
                =~= s.take(p as int) + seq![x] + s.skip(p as int));
            let ghost h = scored_rows(rows.take(i as int), q@);
            assert(scored_rows(rows.take(i + 1), q@) == h.push(x));
            assert(h.push(x).drop_last() =~= h);
        } else {
            assert(scored_rows(rows.take(i + 1), q@) == scored_rows(rows.take(i as int), q@));
        }
        i += 1;
    }
    assert(rows.take(shortcuts@.len() as int) =~= rows);
    let ghost all = Seq::new(keys@.len(), |j: int| (rows[keys@[j].1 as int], keys@[j].0 as int));
    let mut out: Vec<GroupedShortcut> = Vec::new();
    let mut k: usize = 0;
    while k < keys.len()
        invariant
            k <= keys@.len(),
            rows == row_views(shortcuts@),
            forall|j: int| 0 <= j < keys@.len() ==> (#[trigger] keys@[j]).1 < shortcuts@.len(),
            all == Seq::new(keys@.len(), |j: int| (rows[keys@[j].1 as int], keys@[j].0 as int)),
            row_views(out@) == all.take(k as int).map_values(|e: (RowView, int)| e.0),
        decreases keys@.len() - k,
    {
        let ghost before = row_views(out@);
        let pos = keys[k].1;
        out.push(shortcuts[pos].duplicate());
        assert(all.take(k + 1).map_values(|e: (RowView, int)| e.0) =~= before.push(all[k as int].0));
        assert(row_views(out@) =~= before.push(rows[pos as int]));
        k += 1;
    }
    assert(all.take(keys@.len() as int) =~= all);
    out
}

// ---------------------------------------------------------------------------
// The help popup
// ---------------------------------------------------------------------------

/// Rows a page key moves the help selection by.
pub const HELP_PAGE: usize = 5;

/// The help popup: whether it is open, the search text, the rows that match
/// it and the highlighted row.
pub struct HelpPopup {
    pub open: bool,
    pub query: String,
    pub rows: Vec<GroupedShortcut>,
    pub selected: usize,
}

/// The last row the selection can reach.
pub open spec fn last_row(n: nat) -> int {
    if n == 0 {
        0
    } else {
        n - 1
    }
}

/// Where a key moves the help selection, with `n` rows listed.
pub open spec fn help_moved(sel: int, n: nat, action: KeyAction) -> int {
    match action {
        KeyAction::NavigateUp => if sel >= 1 {
            sel - 1
        } else {
            0
        },
        KeyAction::NavigateDown => if sel + 1 <= last_row(n) {
            sel + 1
        } else {
            last_row(n)
        },
        KeyAction::PageUp => if sel >= HELP_PAGE {
            sel - HELP_PAGE
        } else {
            0
        },
        KeyAction::PageDown => if sel + HELP_PAGE <= last_row(n) {
            sel + HELP_PAGE
        } else {
            last_row(n)
        },
        _ => sel,
    }
}

fn copy_rows(v: &[GroupedShortcut]) -> (r: Vec<GroupedShortcut>)
    ensures
        row_views(r@) == row_views(v@),
{
    let mut out: Vec<GroupedShortcut> = Vec::new();
    let mut i: usize = 0;
    while i < v.len()
        invariant
            i <= v@.len(),
            row_views(out@) == row_views(v@).take(i as int),
        decreases v.len() - i,
    {
        let ghost before = row_views(out@);
        out.push(v[i].duplicate());
        assert(row_views(out@) =~= before.push(row_view(v@[i as int])));
        assert(row_views(v@).take(i + 1) =~= row_views(v@).take(i as int).push(row_view(v@[i as int])));
        i += 1;
    }
    assert(row_views(v@).take(v@.len() as int) =~= row_views(v@));
    out
}

impl HelpPopup {
    /// The popup closed.
    pub fn new() -> (r: HelpPopup)
        ensures
            !r.open,
            r.query@.len() == 0,
            r.rows@.len() == 0,
            r.selected == 0,
    {
        HelpPopup { open: false, query: String::new(), rows: Vec::new(), selected: 0 }
    }

    /// Opens the popup on `all`, the rows for the pane behind it, with no
    /// search and the first row highlighted.
    pub fn open_on(&mut self, all: &[GroupedShortcut])
        ensures
            final(self).open,
            final(self).query@.len() == 0,
            row_views(final(self).rows@) == row_views(all@),
            final(self).selected == 0,
    {
        self.open = true;
        self.query = String::new();
        self.rows = copy_rows(all);
        self.selected = 0;
    }

    /// Lists the rows of `all` that match the search, and highlights the
    /// first.
    pub fn refilter(&mut self, all: &[GroupedShortcut])
        ensures
            row_views(final(self).rows@) == help_search(row_views(all@), old(self).query@),
            final(self).selected == 0,
            final(self).open == old(self).open,
            final(self).query == old(self).query,
    {
        self.rows = filter_shortcuts(all, self.query.as_str());
        self.selected = 0;
    }

    /// Types `c` into the search and lists the matching rows of `all`.
    pub fn insert_char(&mut self, c: char, all: &[GroupedShortcut])
        ensures
            final(self).query@ == old(self).query@.push(c),
            row_views(final(self).rows@) == help_search(row_views(all@), final(self).query@),
            final(self).selected == 0,
            final(self).open == old(self).open,
    {
        crate::text::push_char(&mut self.query, c);
        self.refilter(all);
    }

    /// Runs a key of the help popup, with `all` the rows for the pane behind
    /// it. Enter on a row that names an action closes the popup and gives
    /// that action, to be run in the pane.
    pub fn dispatch(&mut self, action: KeyAction, all: &[GroupedShortcut]) -> (r: Option<KeyAction>)
        requires
            action == KeyAction::NavigateDown ==> old(self).selected < usize::MAX,
            action == KeyAction::PageDown ==> old(self).selected + HELP_PAGE <= usize::MAX,
        ensures
            action == KeyAction::DeleteCharBackward ==> {
                &&& final(self).query@ == (if old(self).query@.len() > 0 {
                    old(self).query@.drop_last()
                } else {
                    old(self).query@
                })
                &&& row_views(final(self).rows@) == help_search(row_views(all@), final(self).query@)
                &&& final(self).selected == 0
                &&& final(self).open == old(self).open
                &&& r is None
            },
            action == KeyAction::Confirm ==> match (if old(self).selected < old(self).rows@.len() {
                old(self).rows@[old(self).selected as int].action
            } else {
                None
            }) {
                Some(a) => r == Some(a) && !final(self).open && final(self).query@.len() == 0
                    && final(self).rows == old(self).rows && final(self).selected == old(self).selected,
                None => r is None && *final(self) == *old(self),
            },
            action != KeyAction::DeleteCharBackward && action != KeyAction::Confirm ==> {
                &&& r is None
                &&& final(self).selected == help_moved(
                    old(self).selected as int,
                    old(self).rows@.len(),
                    action,
                )
                &&& final(self).open == old(self).open
                &&& final(self).query == old(self).query
                &&& final(self).rows == old(self).rows
            },
    {
        let last = if self.rows.len() == 0 {
            0
        } else {
            self.rows.len() - 1
        };
        match action {
            KeyAction::NavigateUp => {
                self.selected = if self.selected >= 1 {
                    self.selected - 1
                } else {
                    0
                };
                None
            },
            KeyAction::NavigateDown => {
                self.selected = if self.selected + 1 <= last {
                    self.selected + 1
                } else {
                    last
                };
                None
            },
            KeyAction::PageUp => {
                self.selected = if self.selected >= HELP_PAGE {
                    self.selected - HELP_PAGE
                } else {
                    0
                };
                None
            },
            KeyAction::PageDown => {
                self.selected = if self.selected + HELP_PAGE <= last {
                    self.selected + HELP_PAGE
                } else {
                    last
                };
                None
            },
            KeyAction::DeleteCharBackward => {
                let ghost before = self.query@;
                let mut chars = crate::text::chars_of(self.query.as_str());
                chars.pop();
                self.query = crate::text::string_of(chars.as_slice());
                assert(self.query@ =~= (if before.len() > 0 {
                    before.drop_last()
                } else {
                    before
                }));
                self.refilter(all);
                None
            },
            KeyAction::Confirm => {
                let picked = if self.selected < self.rows.len() {
                    self.rows[self.selected].action
                } else {
                    None
                };
                match picked {
                    Some(a) => {
                        self.open = false;
                        self.query = String::new();
                        Some(a)
                    },
                    None => None,
                }
            },
            _ => None,
        }
    }
}

} // verus!
