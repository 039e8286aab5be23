//! The keymap: which key does what, in which context.
pub mod action;
pub mod defaults;
pub mod keys;

use vstd::prelude::*;
use action::KeyAction;
use keys::{binding_text, chord_matches, format_binding, Binding, KeyChord, KeyCode, KeyEvent};
use crate::text::str_eq;

verus! {

/// Where a key press lands. Finer than the input mode, because the panes
/// disagree about what the same letter means.
#[derive(Clone, Copy, Debug, PartialEq, Eq, Hash, Structural)]
pub enum KeyContext {
    /// Reached from any pane context, never from an overlay.
    Global,
    Search,
    History,
    CollectionsList,
    CollectionItems,
    Help,
    TagInput,
    CollectionInput,
    ImportExport,
    ThemePopup,
    ContextMenu,
    IntegrationPopup,
    EditCommand,
}

/// The number of contexts.
pub const CONTEXT_COUNT: usize = 13;

/// The position of a context in the declaration order.
pub open spec fn context_index(c: KeyContext) -> int {
    match c {
        KeyContext::CollectionInput => 7,
        KeyContext::CollectionItems => 4,
        KeyContext::CollectionsList => 3,
        KeyContext::ContextMenu => 10,
        KeyContext::EditCommand => 12,
        KeyContext::Global => 0,
        KeyContext::Help => 5,
        KeyContext::History => 2,
        KeyContext::ImportExport => 8,
        KeyContext::IntegrationPopup => 11,
        KeyContext::Search => 1,
        KeyContext::TagInput => 6,
        KeyContext::ThemePopup => 9,

    }
}

/// The context at position `i` of the declaration order.
pub open spec fn context_at(i: int) -> KeyContext {
    if i == 0 {
        KeyContext::Global
    } else if i == 1 {
        KeyContext::Search
    } else if i == 2 {
        KeyContext::History
    } else if i == 3 {
        KeyContext::CollectionsList
    } else if i == 4 {
        KeyContext::CollectionItems
    } else if i == 5 {
        KeyContext::Help
    } else if i == 6 {
        KeyContext::TagInput
    } else if i == 7 {
        KeyContext::CollectionInput
    } else if i == 8 {
        KeyContext::ImportExport
    } else if i == 9 {
        KeyContext::ThemePopup
    } else if i == 10 {
        KeyContext::ContextMenu
    } else if i == 11 {
        KeyContext::IntegrationPopup
    } else {
        KeyContext::EditCommand
    }
}

/// Every context, in declaration order.
pub open spec fn all_contexts() -> Seq<KeyContext> {
    Seq::new(CONTEXT_COUNT as nat, |i: int| context_at(i))
}

/// The name of a context in `config.toml`.
pub open spec fn context_name(c: KeyContext) -> Seq<char> {
    match c {
        KeyContext::CollectionInput => "collection_input"@,
        KeyContext::CollectionItems => "collection_items"@,
        KeyContext::CollectionsList => "collections_list"@,
        KeyContext::ContextMenu => "context_menu"@,
        KeyContext::EditCommand => "edit_command"@,
        KeyContext::Global => "global"@,
        KeyContext::Help => "help"@,
        KeyContext::History => "history"@,
        KeyContext::ImportExport => "import_export"@,
        KeyContext::IntegrationPopup => "integration_popup"@,
        KeyContext::Search => "search"@,
        KeyContext::TagInput => "tag_input"@,
        KeyContext::ThemePopup => "theme_popup"@,
    }
}

/// The context a name stands for.
pub open spec fn context_named(s: Seq<char>) -> Option<KeyContext> {
    if s == "global"@ {
        Some(KeyContext::Global)
    } else if s == "search"@ {
        Some(KeyContext::Search)
    } else if s == "history"@ {
        Some(KeyContext::History)
    } else if s == "collections_list"@ {
        Some(KeyContext::CollectionsList)
    } else if s == "collection_items"@ {
        Some(KeyContext::CollectionItems)
    } else if s == "help"@ {
        Some(KeyContext::Help)
    } else if s == "tag_input"@ {
        Some(KeyContext::TagInput)
    } else if s == "collection_input"@ {
        Some(KeyContext::CollectionInput)
    } else if s == "import_export"@ {
        Some(KeyContext::ImportExport)
    } else if s == "theme_popup"@ {
        Some(KeyContext::ThemePopup)
    } else if s == "context_menu"@ {
        Some(KeyContext::ContextMenu)
    } else if s == "integration_popup"@ {
        Some(KeyContext::IntegrationPopup)
    } else if s == "edit_command"@ {
        Some(KeyContext::EditCommand)
    } else {
        None
    }
}

/// Contexts with a text field: they swallow unmodified printable characters
/// that nothing is bound to, before anything falls through to `Global`.
pub open spec fn absorbs_text_spec(c: KeyContext) -> bool {
    c is Search || c is Help || c is TagInput || c is CollectionInput || c is ImportExport
        || c is EditCommand
}

/// The pane contexts, which fall through to `Global`. Overlays are exclusive.
pub open spec fn falls_through_spec(c: KeyContext) -> bool {
    c is Search || c is History || c is CollectionsList || c is CollectionItems
}

fn context_at_exec(i: usize) -> (r: KeyContext)
    requires
        i < CONTEXT_COUNT,
    ensures
        r == context_at(i as int),
{
    match i {
        0 => KeyContext::Global,
        1 => KeyContext::Search,
        2 => KeyContext::History,
        3 => KeyContext::CollectionsList,
        4 => KeyContext::CollectionItems,
        5 => KeyContext::Help,
        6 => KeyContext::TagInput,
        7 => KeyContext::CollectionInput,
        8 => KeyContext::ImportExport,
        9 => KeyContext::ThemePopup,
        10 => KeyContext::ContextMenu,
        11 => KeyContext::IntegrationPopup,
        _ => KeyContext::EditCommand,
    }
}

impl KeyContext {
    /// Whether unbound printable characters type into this context.
    pub fn absorbs_text(self) -> (r: bool)
        ensures
            r == absorbs_text_spec(self),
    {
        match self {
            KeyContext::Search | KeyContext::Help | KeyContext::TagInput
            | KeyContext::CollectionInput | KeyContext::ImportExport
            | KeyContext::EditCommand => true,
            _ => false,
        }
    }

    /// Whether a key unbound here is looked up in `Global` next.
    pub fn falls_through_to_global(self) -> (r: bool)
        ensures
            r == falls_through_spec(self),
    {
        match self {
            KeyContext::Search | KeyContext::History | KeyContext::CollectionsList
            | KeyContext::CollectionItems => true,
            _ => false,
        }
    }

    /// The name used in `config.toml`.
    pub fn as_str(self) -> (r: &'static str)
        ensures
            r@ == context_name(self),
    {
        match self {
            KeyContext::CollectionInput => "collection_input",
            KeyContext::CollectionItems => "collection_items",
            KeyContext::CollectionsList => "collections_list",
            KeyContext::ContextMenu => "context_menu",
            KeyContext::EditCommand => "edit_command",
            KeyContext::Global => "global",
            KeyContext::Help => "help",
            KeyContext::History => "history",
            KeyContext::ImportExport => "import_export",
            KeyContext::IntegrationPopup => "integration_popup",
            KeyContext::Search => "search",
            KeyContext::TagInput => "tag_input",
            KeyContext::ThemePopup => "theme_popup",

        }
    }

    /// The context with this name, if any.
    pub fn from_str(s: &str) -> (r: Option<KeyContext>)
        ensures
            r == context_named(s@),
    {
        if str_eq(s, "global") {
            return Some(KeyContext::Global);
        }
        if str_eq(s, "search") {
            return Some(KeyContext::Search);
        }
        if str_eq(s, "history") {
            return Some(KeyContext::History);
        }
        if str_eq(s, "collections_list") {
            return Some(KeyContext::CollectionsList);
        }
        if str_eq(s, "collection_items") {
            return Some(KeyContext::CollectionItems);
        }
        if str_eq(s, "help") {
            return Some(KeyContext::Help);
        }
        if str_eq(s, "tag_input") {
            return Some(KeyContext::TagInput);
        }
        if str_eq(s, "collection_input") {
            return Some(KeyContext::CollectionInput);
        }
        if str_eq(s, "import_export") {
            return Some(KeyContext::ImportExport);
        }
        if str_eq(s, "theme_popup") {
            return Some(KeyContext::ThemePopup);
        }
        if str_eq(s, "context_menu") {
            return Some(KeyContext::ContextMenu);
        }
        if str_eq(s, "integration_popup") {
            return Some(KeyContext::IntegrationPopup);
        }
        if str_eq(s, "edit_command") {
            return Some(KeyContext::EditCommand);
        }
        None
    }

    /// Every context, in declaration order.
    pub fn all() -> (r: Vec<KeyContext>)
        ensures
            r@ == all_contexts(),
    {
        let mut r: Vec<KeyContext> = Vec::new();
        let mut i: usize = 0;
        while i < CONTEXT_COUNT
            invariant
                i <= CONTEXT_COUNT,
                r@ == all_contexts().take(i as int),
            decreases CONTEXT_COUNT - i,
        {
            r.push(context_at_exec(i));
            i += 1;
            assert(r@ =~= all_contexts().take(i as int));
        }
        assert(all_contexts().take(CONTEXT_COUNT as int) =~= all_contexts());
        r
    }

    fn index(self) -> (r: usize)
        ensures
            r == context_index(self),
            r < CONTEXT_COUNT,
    {
        match self {
            KeyContext::CollectionInput => 7,
            KeyContext::CollectionItems => 4,
            KeyContext::CollectionsList => 3,
            KeyContext::ContextMenu => 10,
            KeyContext::EditCommand => 12,
            KeyContext::Global => 0,
            KeyContext::Help => 5,
            KeyContext::History => 2,
            KeyContext::ImportExport => 8,
            KeyContext::IntegrationPopup => 11,
            KeyContext::Search => 1,
            KeyContext::TagInput => 6,
            KeyContext::ThemePopup => 9,

        }
    }
}

/// Every context's name reads back as that context, so no two contexts share
/// a name.
pub proof fn law_context_names_round_trip(c: KeyContext)
    ensures
        context_named(context_name(c)) == Some(c),
{
    assert("global"@.len() == 6 && "global"@[0] == 'g' && "global"@[1] == 'l') by {
        reveal_strlit("global");
    }
    assert("search"@.len() == 6 && "search"@[0] == 's' && "search"@[1] == 'e') by {
        reveal_strlit("search");
    }
    assert("history"@.len() == 7 && "history"@[0] == 'h' && "history"@[1] == 'i') by {
        reveal_strlit("history");
    }
    assert("collections_list"@.len() == 16 && "collections_list"@[0] == 'c' && "collections_list"@[1] == 'o' && "collections_list"@[10] == 's') by {
        reveal_strlit("collections_list");
    }
    assert("collection_items"@.len() == 16 && "collection_items"@[0] == 'c' && "collection_items"@[1] == 'o' && "collection_items"@[10] == '_' && "collection_items"@[12] == 't') by {
        reveal_strlit("collection_items");
    }
    assert("help"@.len() == 4 && "help"@[0] == 'h' && "help"@[1] == 'e') by {
        reveal_strlit("help");
    }
    assert("tag_input"@.len() == 9 && "tag_input"@[0] == 't' && "tag_input"@[1] == 'a') by {
        reveal_strlit("tag_input");
    }
    assert("collection_input"@.len() == 16 && "collection_input"@[0] == 'c' && "collection_input"@[1] == 'o' && "collection_input"@[10] == '_' && "collection_input"@[12] == 'n') by {
        reveal_strlit("collection_input");
    }
    assert("import_export"@.len() == 13 && "import_export"@[0] == 'i' && "import_export"@[1] == 'm') by {
        reveal_strlit("import_export");
    }
    assert("theme_popup"@.len() == 11 && "theme_popup"@[0] == 't' && "theme_popup"@[1] == 'h') by {
        reveal_strlit("theme_popup");
    }
    assert("context_menu"@.len() == 12 && "context_menu"@[0] == 'c' && "context_menu"@[1] == 'o') by {
        reveal_strlit("context_menu");
    }
    assert("integration_popup"@.len() == 17 && "integration_popup"@[0] == 'i' && "integration_popup"@[1] == 'n') by {
        reveal_strlit("integration_popup");
    }
    assert("edit_command"@.len() == 12 && "edit_command"@[0] == 'e' && "edit_command"@[1] == 'd') by {
        reveal_strlit("edit_command");
    }
    match c {
        KeyContext::Global => {},
        KeyContext::Search => {},
        KeyContext::History => {},
        KeyContext::CollectionsList => {},
        KeyContext::CollectionItems => {},
        KeyContext::Help => {},
        KeyContext::TagInput => {},
        KeyContext::CollectionInput => {},
        KeyContext::ImportExport => {},
        KeyContext::ThemePopup => {},
        KeyContext::ContextMenu => {},
        KeyContext::IntegrationPopup => {},
        KeyContext::EditCommand => {},
    }
}

/// The list of every context holds each context exactly once.
pub proof fn law_all_contexts_lists_each_once(c: KeyContext)
    ensures
        exists|i: int| 0 <= i < all_contexts().len() && all_contexts()[i] == c,
        forall|i: int, j: int|
            0 <= i < j < all_contexts().len() ==> all_contexts()[i] != all_contexts()[j],
{
    assert(all_contexts()[context_index(c)] == c);
}

/// What a key press resolved to.
#[derive(Clone, Copy, Debug, PartialEq, Eq, Structural)]
pub enum Resolved {
    /// Run this action in this context.
    Action(KeyContext, KeyAction),
    /// The first half of a chord; remember it and wait for the second.
    Pending,
    /// An unbound printable character in a context that takes text.
    Text(KeyContext, char),
    /// Nothing is bound to it.
    Unbound,
}

/// The bindings of one context, in the order they were made.
pub type Entries = Seq<(Binding, KeyAction)>;

/// The entries with any other action than `a`, in order.
pub open spec fn without_action(s: Entries, a: KeyAction) -> Entries
    decreases s.len(),
{
    if s.len() == 0 {
        s
    } else if s.last().1 == a {
        without_action(s.drop_last(), a)
    } else {
        without_action(s.drop_last(), a).push(s.last())
    }
}

/// How the keys bound to `a` are written, in order.
pub open spec fn keys_of(s: Entries, a: KeyAction) -> Seq<Seq<char>>
    decreases s.len(),
{
    if s.len() == 0 {
        Seq::empty()
    } else if s.last().1 == a {
        keys_of(s.drop_last(), a).push(binding_text(s.last().0))
    } else {
        keys_of(s.drop_last(), a)
    }
}

/// The first entry from `i` on that binds `b`.
pub open spec fn first_bound(s: Entries, b: Binding, i: int) -> Option<int>
    decreases s.len() - i,
{
    if i < 0 || i >= s.len() {
        None
    } else if s[i].0 == b {
        Some(i)
    } else {
        first_bound(s, b, i + 1)
    }
}

/// The action of the first single-key entry from `i` on that `key` presses.
pub open spec fn single_action(s: Entries, key: KeyEvent, i: int) -> Option<KeyAction>
    decreases s.len() - i,
{
    if i < 0 || i >= s.len() {
        None
    } else {
        match s[i].0 {
            Binding::Single(c) if chord_matches(c, key) => Some(s[i].1),
            _ => single_action(s, key, i + 1),
        }
    }
}

/// The action of the first chord from `i` on that starts with `pending` and
/// that `key` completes.
pub open spec fn chord_action(s: Entries, pending: KeyChord, key: KeyEvent, i: int) -> Option<KeyAction>
    decreases s.len() - i,
{
    if i < 0 || i >= s.len() {
        None
    } else {
        match s[i].0 {
            Binding::Chord(first, second) if first == pending && chord_matches(second, key) => Some(
                s[i].1,
            ),
            _ => chord_action(s, pending, key, i + 1),
        }
    }
}

/// Whether `b` is a chord that starts with `key`.
pub open spec fn chord_starting(b: Binding, key: KeyEvent) -> bool {
    match b {
        Binding::Chord(first, _) => chord_matches(first, key),
        _ => false,
    }
}

/// Whether some chord starts with `key`.
pub open spec fn starts_chord(s: Entries, key: KeyEvent) -> bool {
    exists|i: int| 0 <= i < s.len() && chord_starting((#[trigger] s[i]).0, key)
}

/// An unshifted-or-shifted printable character with no other modifier.
pub open spec fn typed_char(key: KeyEvent) -> Option<char> {
    match key.code {
        KeyCode::Char(c) => if !key.modifiers.control && !key.modifiers.alt
            && !key.modifiers.super_key && !key.modifiers.hyper && !key.modifiers.meta {
            Some(c)
        } else {
            None
        },
        _ => None,
    }
}

/// One step of the chain, in context `ctx` of a press made in `context`: a
/// completed chord, the start of one, a single key, then (in `context`
/// itself) typed text.
pub open spec fn resolve_in(
    s: Entries,
    ctx: KeyContext,
    context: KeyContext,
    pending: Option<KeyChord>,
    key: KeyEvent,
) -> Option<Resolved> {
    let chord = match pending {
        Some(p) => chord_action(s, p, key, 0),
        None => None,
    };
    if chord is Some {
        Some(Resolved::Action(ctx, chord->0))
    } else if starts_chord(s, key) {
        Some(Resolved::Pending)
    } else if single_action(s, key, 0) is Some {
        Some(Resolved::Action(ctx, single_action(s, key, 0)->0))
    } else if ctx == context && absorbs_text_spec(context) && typed_char(key) is Some {
        Some(Resolved::Text(context, typed_char(key)->0))
    } else {
        None
    }
}

/// A keymap: for each context, its bindings in order.
pub struct Keymap {
    bindings: [Vec<(Binding, KeyAction)>; 13],
}

impl Keymap {
    /// The bindings of a context, in order.
    pub closed spec fn entries_spec(&self, c: KeyContext) -> Entries {
        self.bindings@[context_index(c)]@
    }

    /// The chain: the context itself, then `Global` for a pane.
    pub open spec fn resolve_spec(&self, context: KeyContext, pending: Option<KeyChord>, key: KeyEvent) -> Resolved {
        match resolve_in(self.entries_spec(context), context, context, pending, key) {
            Some(r) => r,
            None => if falls_through_spec(context) {
                match resolve_in(
                    self.entries_spec(KeyContext::Global),
                    KeyContext::Global,
                    context,
                    pending,
                    key,
                ) {
                    Some(r) => r,
                    None => Resolved::Unbound,
                }
            } else {
                Resolved::Unbound
            },
        }
    }

    /// A keymap that binds nothing.
    pub fn new() -> (r: Keymap)
        ensures
            forall|c: KeyContext| #[trigger] r.entries_spec(c) == Seq::<(Binding, KeyAction)>::empty(),
    {
        let r = Keymap {
            bindings: [
                Vec::new(),
                Vec::new(),
                Vec::new(),
                Vec::new(),
                Vec::new(),
                Vec::new(),
                Vec::new(),
                Vec::new(),
                Vec::new(),
                Vec::new(),
                Vec::new(),
                Vec::new(),
                Vec::new(),
            ],
        };
        assert forall|c: KeyContext| #[trigger] r.entries_spec(c) == Seq::<(Binding, KeyAction)>::empty() by {
            assert(r.bindings@[context_index(c)]@ =~= Seq::<(Binding, KeyAction)>::empty());
        }
        r
    }

    /// A copy of the list of one context.
    fn list(&self, i: usize) -> (r: Vec<(Binding, KeyAction)>)
        requires
            i < CONTEXT_COUNT,
        ensures
            r@ == self.bindings@[i as int]@,
    {
        let src = &self.bindings[i];
        let mut r: Vec<(Binding, KeyAction)> = Vec::new();
        let mut k: usize = 0;
        while k < src.len()
            invariant
                k <= src@.len(),
                r@ == src@.take(k as int),
            decreases src.len() - k,
        {
            r.push(src[k]);
            k += 1;
            assert(r@ =~= src@.take(k as int));
        }
        assert(src@.take(src@.len() as int) =~= src@);
        r
    }

    /// Binds `binding` to `action` in `context`, after its earlier bindings.
    pub fn bind(&mut self, context: KeyContext, binding: Binding, action: KeyAction)
        ensures
            final(self).entries_spec(context) == old(self).entries_spec(context).push((binding, action)),
            forall|c: KeyContext|
                c != context ==> #[trigger] final(self).entries_spec(c) == old(self).entries_spec(c),
    {
        let i = context.index();
        let mut l = self.list(i);
        l.push((binding, action));
        self.bindings[i] = l;
        assert forall|c: KeyContext| c != context implies #[trigger] self.entries_spec(c) == old(self).entries_spec(c) by {
            assert(context_index(c) != context_index(context));
        }
    }

    /// Drops every binding of `action` in `context`: a config entry replaces
    /// the defaults rather than adding to them.
    pub fn clear_action(&mut self, context: KeyContext, action: KeyAction)
        ensures
            final(self).entries_spec(context) == without_action(old(self).entries_spec(context), action),
            forall|c: KeyContext|
                c != context ==> #[trigger] final(self).entries_spec(c) == old(self).entries_spec(c),
    {
        let i = context.index();
        let l = self.list(i);
        let mut kept: Vec<(Binding, KeyAction)> = Vec::new();
        let mut k: usize = 0;
        while k < l.len()
            invariant
                k <= l@.len(),
                kept@ == without_action(l@.take(k as int), action),
            decreases l.len() - k,
        {
            assert(l@.take(k + 1).drop_last() =~= l@.take(k as int));
            if l[k].1 != action {
                kept.push(l[k]);
            }
            k += 1;
        }
        assert(l@.take(l@.len() as int) =~= l@);
        self.bindings[i] = kept;
        assert forall|c: KeyContext| c != context implies #[trigger] self.entries_spec(c) == old(self).entries_spec(c) by {
            assert(context_index(c) != context_index(context));
        }
    }

    /// Drops whatever first owns `binding` in `context`, and says which
    /// action that was, so a rebind onto an occupied key wins.
    pub fn evict(&mut self, context: KeyContext, binding: &Binding) -> (r: Option<KeyAction>)
        ensures
            match first_bound(old(self).entries_spec(context), *binding, 0) {
                Some(k) => r == Some(old(self).entries_spec(context)[k].1)
                    && final(self).entries_spec(context) == old(self).entries_spec(context).remove(k),
                None => r is None && final(self).entries_spec(context) == old(self).entries_spec(context),
            },
            forall|c: KeyContext|
                c != context ==> #[trigger] final(self).entries_spec(c) == old(self).entries_spec(c),
    {
        let i = context.index();
        let mut l = self.list(i);
        let ghost s = l@;
        let mut k: usize = 0;
        while k < l.len() && l[k].0 != *binding
            invariant
                l@ == s,
                k <= s.len(),
                first_bound(s, *binding, 0) == first_bound(s, *binding, k as int),
            decreases l.len() - k,
        {
            k += 1;
        }
        if k == l.len() {
            return None;
        }
        let (_, a) = l.remove(k);
        self.bindings[i] = l;
        assert forall|c: KeyContext| c != context implies #[trigger] self.entries_spec(c) == old(self).entries_spec(c) by {
            assert(context_index(c) != context_index(context));
        }
        Some(a)
    }

    /// The bindings of `context`, in order.
    pub fn entries(&self, context: KeyContext) -> (r: &[(Binding, KeyAction)])
        ensures
            r@ == self.entries_spec(context),
    {
        self.bindings[context.index()].as_slice()
    }

    /// How the keys bound to `action` in `context` are written, in order.
    pub fn keys_for(&self, context: KeyContext, action: KeyAction) -> (r: Vec<String>)
        ensures
            r@.map_values(|k: String| k@) == keys_of(self.entries_spec(context), action),
    {
        let l = self.entries(context);
        let mut r: Vec<String> = Vec::new();
        let mut k: usize = 0;
        while k < l.len()
            invariant
                k <= l@.len(),
                r@.map_values(|k: String| k@) == keys_of(l@.take(k as int), action),
            decreases l.len() - k,
        {
            assert(l@.take(k + 1).drop_last() =~= l@.take(k as int));
            if l[k].1 == action {
                let ghost before = r@.map_values(|k: String| k@);
                let t = format_binding(&l[k].0);
                r.push(t);
                assert(r@.map_values(|k: String| k@) =~= before.push(binding_text(l@[k as int].0)));
            }
            k += 1;
        }
        assert(l@.take(l@.len() as int) =~= l@);
        r
    }

    fn resolve_step(&self, ctx: KeyContext, context: KeyContext, pending: Option<KeyChord>, key: &KeyEvent) -> (r: Option<Resolved>)
        ensures
            r == resolve_in(self.entries_spec(ctx), ctx, context, pending, *key),
    {
        let s = self.entries(ctx);
        let ghost e = self.entries_spec(ctx);
        let ghost no_chord = match pending {
            Some(p) => chord_action(e, p, *key, 0),
            None => None,
        };
        if let Some(p) = pending {
            let mut k: usize = 0;
            while k < s.len()
                invariant
                    s@ == e,
                    e == self.entries_spec(ctx),
                    pending == Some(p),
                    k <= s@.len(),
                    chord_action(e, p, *key, 0) == chord_action(e, p, *key, k as int),
                decreases s.len() - k,
            {
                if let Binding::Chord(first, second) = s[k].0 {
                    if first == p && second.matches(key) {
                        return Some(Resolved::Action(ctx, s[k].1));
                    }
                }
                k += 1;
            }
        }
        assert(no_chord is None);
        let mut k: usize = 0;
        while k < s.len()
            invariant
                s@ == e,
                e == self.entries_spec(ctx),
                no_chord is None,
                no_chord == match pending {
                    Some(p) => chord_action(e, p, *key, 0),
                    None => None,
                },
                k <= s@.len(),
                forall|j: int| 0 <= j < k ==> !chord_starting((#[trigger] e[j]).0, *key),
            decreases s.len() - k,
        {
            if let Binding::Chord(first, _) = s[k].0 {
                if first.matches(key) {
                    assert(chord_starting(e[k as int].0, *key));
                    return Some(Resolved::Pending);
                }
            }
            k += 1;
        }
        assert(!starts_chord(e, *key));
        let mut k: usize = 0;
        while k < s.len()
            invariant
                s@ == e,
                e == self.entries_spec(ctx),
                no_chord is None,
                no_chord == match pending {
                    Some(p) => chord_action(e, p, *key, 0),
                    None => None,
                },
                !starts_chord(e, *key),
                k <= s@.len(),
                single_action(e, *key, 0) == single_action(e, *key, k as int),
            decreases s.len() - k,
        {
            if let Binding::Single(c) = s[k].0 {
                if c.matches(key) {
                    return Some(Resolved::Action(ctx, s[k].1));
                }
            }
            k += 1;
        }
        if ctx == context && context.absorbs_text() {
            if let KeyCode::Char(c) = key.code {
                let m = key.modifiers;
                if !m.control && !m.alt && !m.super_key && !m.hyper && !m.meta {
                    return Some(Resolved::Text(context, c));
                }
            }
        }
        None
    }

    /// Resolves a key press in `context`: the context's own bindings first,
    /// then, for a pane, `Global`; a chord completes when `pending` is its
    /// first half.
    pub fn resolve(&self, context: KeyContext, pending: Option<KeyChord>, key: &KeyEvent) -> (r: Resolved)
        ensures
            r == self.resolve_spec(context, pending, *key),
    {
        match self.resolve_step(context, context, pending, key) {
            Some(r) => r,
            None => if context.falls_through_to_global() {
                match self.resolve_step(KeyContext::Global, context, pending, key) {
                    Some(r) => r,
                    None => Resolved::Unbound,
                }
            } else {
                Resolved::Unbound
            },
        }
    }

    /// A printable key pressed with no modifier but, at most, Shift is typed
    /// into a context that takes text when none of that context's bindings
    /// claims it: Shift alone never keeps a character from being typed, and
    /// the character typed is the one the key carries.
    pub proof fn law_shifted_characters_are_typed(
        &self,
        context: KeyContext,
        pending: Option<KeyChord>,
        key: KeyEvent,
        c: char,
    )
        requires
            absorbs_text_spec(context),
            key.code == KeyCode::Char(c),
            !key.modifiers.control,
            !key.modifiers.alt,
            !key.modifiers.super_key,
            !key.modifiers.hyper,
            !key.modifiers.meta,
            single_action(self.entries_spec(context), key, 0) is None,
            !starts_chord(self.entries_spec(context), key),
            match pending {
                Some(p) => chord_action(self.entries_spec(context), p, key, 0) is None,
                None => true,
            },
        ensures
            self.resolve_spec(context, pending, key) == Resolved::Text(context, c),
    {
    }

    /// An overlay (a context that does not fall through) never reaches the
    /// global bindings: whatever a press resolves to there names the overlay
    /// itself, and text is typed only into a context that absorbs it, as the
    /// character the key carries.
    pub proof fn law_overlays_never_reach_global(
        &self,
        context: KeyContext,
        pending: Option<KeyChord>,
        key: KeyEvent,
    )
        ensures
            !falls_through_spec(context) ==> match self.resolve_spec(context, pending, key) {
                Resolved::Action(ctx, _) => ctx == context,
                Resolved::Text(ctx, _) => ctx == context,
                _ => true,
            },
            match self.resolve_spec(context, pending, key) {
                Resolved::Text(ctx, c) => ctx == context && absorbs_text_spec(context)
                    && typed_char(key) == Some(c),
                _ => true,
            },
    {
    }
}

impl Default for Keymap {
    fn default() -> (r: Keymap)
        ensures
            forall|c: KeyContext| #[trigger] r.entries_spec(c) == Seq::<(Binding, KeyAction)>::empty(),
    {
        Keymap::new()
    }
}

} // verus!
