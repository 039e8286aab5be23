//! The keybinding editor's rows: every action of every context, with its keys.
use vstd::prelude::*;
use crate::keymap::action::{action_name, KeyAction};
use crate::keymap::defaults::{default_entries, keymap as default_keymap};
use crate::keymap::keys::Binding;
use crate::keymap::{all_contexts, context_name, keys_of, Entries, KeyContext, Keymap};
use crate::text::{chars_of, contains, copy_strings, owned, push_str, str_contains, to_lowercase, lowercased, views};

verus! {

/// What the next key press will do to the selected row.
#[derive(Clone, Copy, Debug, PartialEq, Eq, Structural)]
pub enum CaptureMode {
    /// Drop whatever the action had and use this key instead.
    Replace,
    /// Keep the existing keys and add this one.
    Add,
    /// Take this key away, leaving the rest.
    Remove,
}

pub open spec fn prompt_text(m: CaptureMode) -> Seq<char> {
    match m {
        CaptureMode::Replace => "Press the key to bind"@,
        CaptureMode::Add => "Press a key to add"@,
        CaptureMode::Remove => "Press the key to remove"@,
    }
}

impl CaptureMode {
    /// The line the editor shows while it waits for the key.
    pub fn prompt(self) -> (r: &'static str)
        ensures
            r@ == prompt_text(self),
    {
        match self {
            CaptureMode::Replace => "Press the key to bind",
            CaptureMode::Add => "Press a key to add",
            CaptureMode::Remove => "Press the key to remove",
        }
    }
}

/// One line of the editor.
#[derive(Debug, PartialEq)]
pub struct KeybindRow {
    pub context: KeyContext,
    pub action: KeyAction,
    pub keys: Vec<String>,
    /// Two-key sequences cannot be recorded by pressing them, so those rows
    /// are shown but not editable.
    pub editable: bool,
}

/// A row as plain values.
pub type RowView = (KeyContext, KeyAction, Seq<Seq<char>>, bool);

pub open spec fn row_view(r: KeybindRow) -> RowView {
    (r.context, r.action, views(r.keys@), r.editable)
}

pub open spec fn rows_view(v: Seq<KeybindRow>) -> Seq<RowView> {
    v.map_values(|r: KeybindRow| row_view(r))
}

/// The actions of `s` not already in `acc`, appended in order of first
/// appearance.
pub open spec fn add_actions(acc: Seq<KeyAction>, s: Entries) -> Seq<KeyAction>
    decreases s.len(),
{
    if s.len() == 0 {
        acc
    } else {
        let prev = add_actions(acc, s.drop_last());
        if prev.contains(s.last().1) {
            prev
        } else {
            prev.push(s.last().1)
        }
    }
}

/// Whether `a` has a two-key binding in `s`.
pub open spec fn has_chord(s: Entries, a: KeyAction) -> bool {
    exists|i: int| 0 <= i < s.len() && (#[trigger] s[i]).1 == a && s[i].0 is Chord
}

/// The rows of one context: the actions its defaults list, then any other
/// action bound there, each with its keys.
pub open spec fn context_rows(entries: Entries, c: KeyContext) -> Seq<RowView> {
    let actions = add_actions(add_actions(Seq::empty(), default_entries(c)), entries);
    actions.map_values(|a: KeyAction| (c, a, keys_of(entries, a), !has_chord(entries, a)))
}

/// The rows of the first `n` contexts.
pub open spec fn rows_upto(entries: spec_fn(KeyContext) -> Entries, n: int) -> Seq<RowView>
    decreases n,
{
    if n <= 0 {
        Seq::empty()
    } else {
        rows_upto(entries, n - 1) + context_rows(entries(all_contexts()[n - 1]), all_contexts()[n - 1])
    }
}

fn holds_action(v: &Vec<KeyAction>, a: KeyAction) -> (r: bool)
    ensures
        r == v@.contains(a),
{
    let mut i: usize = 0;
    while i < v.len()
        invariant
            i <= v@.len(),
            forall|j: int| 0 <= j < i ==> v@[j] != a,
        decreases v.len() - i,
    {
        if v[i] == a {
            return true;
        }
        i += 1;
    }
    false
}

fn add_actions_exec(acc: &mut Vec<KeyAction>, s: &[(Binding, KeyAction)])
    ensures
        final(acc)@ == add_actions(old(acc)@, s@),
{
    let ghost start = acc@;
    let mut i: usize = 0;
    while i < s.len()
        invariant
            i <= s@.len(),
            start == old(acc)@,
            acc@ == add_actions(start, s@.take(i as int)),
        decreases s.len() - i,
    {
        assert(s@.take(i + 1).drop_last() =~= s@.take(i as int));
        if !holds_action(acc, s[i].1) {
            acc.push(s[i].1);
        }
        i += 1;
    }
    assert(s@.take(s@.len() as int) =~= s@);
}

fn chord_bound(s: &[(Binding, KeyAction)], a: KeyAction) -> (r: bool)
    ensures
        r == has_chord(s@, a),
{
    let mut i: usize = 0;
    while i < s.len()
        invariant
            i <= s@.len(),
            forall|j: int| 0 <= j < i ==> !((#[trigger] s@[j]).1 == a && s@[j].0 is Chord),
        decreases s.len() - i,
    {
        if s[i].1 == a {
            if let Binding::Chord(_, _) = s[i].0 {
                return true;
            }
        }
        i += 1;
    }
    false
}

/// Every action bound anywhere, plus those a context's defaults list but the
/// keymap no longer binds, so a key can be added to something unbound.
pub fn rows(keymap: &Keymap) -> (r: Vec<KeybindRow>)
    ensures
        rows_view(r@) == rows_upto(|c: KeyContext| keymap.entries_spec(c), all_contexts().len() as int),
{
    let contexts = KeyContext::all();
    let defaults = default_keymap();
    let ghost f = |c: KeyContext| keymap.entries_spec(c);
    let mut out: Vec<KeybindRow> = Vec::new();
    let mut i: usize = 0;
    while i < contexts.len()
        invariant
            contexts@ == all_contexts(),
            i <= contexts@.len(),
            f == |c: KeyContext| keymap.entries_spec(c),
            forall|c: KeyContext| #[trigger] defaults.entries_spec(c) == default_entries(c),
            rows_view(out@) == rows_upto(f, i as int),
        decreases contexts.len() - i,
    {
        let context = contexts[i];
        let entries = keymap.entries(context);
        let mut actions: Vec<KeyAction> = Vec::new();
        add_actions_exec(&mut actions, defaults.entries(context));
        add_actions_exec(&mut actions, entries);
        let ghost want = context_rows(entries@, context);
        let ghost before = rows_view(out@);
        let mut k: usize = 0;
        while k < actions.len()
            invariant
                k <= actions@.len(),
                actions@ == add_actions(add_actions(Seq::empty(), default_entries(context)), entries@),
                want == context_rows(entries@, context),
                entries@ == keymap.entries_spec(context),
                rows_view(out@) == before + want.take(k as int),
            decreases actions.len() - k,
        {
            let action = actions[k];
            let keys = keymap.keys_for(context, action);
            let editable = !chord_bound(entries, action);
            let ghost prev = rows_view(out@);
            out.push(KeybindRow { context, action, keys, editable });
            assert(rows_view(out@) =~= prev.push(want[k as int]));
            k += 1;
            assert(before + want.take(k as int) =~= (before + want.take(k - 1)).push(want[k - 1]));
        }
        assert(want.take(actions@.len() as int) =~= want);
        assert(rows_upto(f, i + 1) == rows_upto(f, i as int) + context_rows(keymap.entries_spec(contexts@[i as int]), contexts@[i as int]));
        i += 1;
    }
    out
}

/// Whether any of `keys`, lowercased, contains `needle`.
pub open spec fn some_key_contains(keys: Seq<Seq<char>>, needle: Seq<char>) -> bool {
    exists|i: int| 0 <= i < keys.len() && contains(lowercased(#[trigger] keys[i]), needle)
}

/// Whether a row matches the lowercased query: its action, its context, or
/// one of its keys contains it.
pub open spec fn row_matches(r: RowView, needle: Seq<char>) -> bool {
    contains(action_name(r.1), needle) || contains(context_name(r.0), needle) || some_key_contains(
        r.2,
        needle,
    )
}

/// The rows that match, in order; every row for an empty query.
pub open spec fn filtered_rows(rows: Seq<RowView>, query: Seq<char>) -> Seq<RowView>
    decreases rows.len(),
{
    if rows.len() == 0 {
        Seq::empty()
    } else {
        let prev = filtered_rows(rows.drop_last(), query);
        if query.len() == 0 || row_matches(rows.last(), lowercased(query)) {
            prev.push(rows.last())
        } else {
            prev
        }
    }
}

fn any_key_contains(keys: &Vec<String>, needle: &str) -> (r: bool)
    ensures
        r == some_key_contains(views(keys@), needle@),
{
    let mut i: usize = 0;
    while i < keys.len()
        invariant
            i <= keys@.len(),
            forall|j: int| 0 <= j < i ==> !contains(lowercased(#[trigger] views(keys@)[j]), needle@),
        decreases keys.len() - i,
    {
        let l = to_lowercase(keys[i].as_str());
        if str_contains(l.as_str(), needle) {
            assert(contains(lowercased(views(keys@)[i as int]), needle@));
            return true;
        }
        i += 1;
    }
    false
}

/// The rows whose action, context or keys contain the query, ignoring case;
/// a plain substring match, not a fuzzy one.
pub fn filter(rows: &[KeybindRow], query: &str) -> (r: Vec<KeybindRow>)
    ensures
        rows_view(r@) == filtered_rows(rows_view(rows@), query@),
{
    let needle = to_lowercase(query);
    let empty = chars_of(query).len() == 0;
    let ghost all = rows_view(rows@);
    let mut out: Vec<KeybindRow> = Vec::new();
    let mut i: usize = 0;
    while i < rows.len()
        invariant
            i <= rows@.len(),
            all == rows_view(rows@),
            needle@ == lowercased(query@),
            empty == (query@.len() == 0),
            rows_view(out@) == filtered_rows(all.take(i as int), query@),
        decreases rows.len() - i,
    {
        assert(all.take(i + 1).drop_last() =~= all.take(i as int));
        let row = &rows[i];
        let keep = empty || str_contains(row.action.as_str(), needle.as_str()) || str_contains(
            row.context.as_str(),
            needle.as_str(),
        ) || any_key_contains(&row.keys, needle.as_str());
        if keep {
            let ghost prev = rows_view(out@);
            let keys = copy_strings(&row.keys);
            out.push(KeybindRow { context: row.context, action: row.action, keys, editable: row.editable });
            assert(rows_view(out@) =~= prev.push(all[i as int]));
        }
        i += 1;
    }
    assert(all.take(rows@.len() as int) =~= all);
    out
}

/// The text of a row's keys, two spaces apart, or a dash when it has none:
/// an empty column would read as a rendering bug.
pub open spec fn keys_text(keys: Seq<Seq<char>>) -> Seq<char>
    decreases keys.len(),
{
    if keys.len() == 0 {
        "\u{2014}"@
    } else if keys.len() == 1 {
        keys[0]
    } else {
        keys_text(keys.drop_last()) + "  "@ + keys.last()
    }
}

pub fn keys_display(row: &KeybindRow) -> (r: String)
    ensures
        r@ == keys_text(views(row.keys@)),
{
    if row.keys.len() == 0 {
        return owned("\u{2014}");
    }
    let ghost ks = views(row.keys@);
    let mut out = owned(row.keys[0].as_str());
    let mut i: usize = 1;
    assert(ks.take(1).drop_last() =~= Seq::<Seq<char>>::empty());
    while i < row.keys.len()
        invariant
            1 <= i <= row.keys@.len(),
            ks == views(row.keys@),
            out@ == keys_text(ks.take(i as int)),
        decreases row.keys.len() - i,
    {
        push_str(&mut out, "  ");
        push_str(&mut out, row.keys[i].as_str());
        assert(ks.take(i + 1).drop_last() =~= ks.take(i as int));
        i += 1;
    }
    assert(ks.take(row.keys@.len() as int) =~= ks);
    out
}

/// Which action owns `binding` in `context`, for the warning before it is
/// taken away.
pub fn current_owner(keymap: &Keymap, context: KeyContext, binding: &Binding) -> (r: Option<KeyAction>)
    ensures
        match crate::keymap::first_bound(keymap.entries_spec(context), *binding, 0) {
            Some(k) => r == Some(keymap.entries_spec(context)[k].1),
            None => r is None,
        },
{
    let s = keymap.entries(context);
    let mut k: usize = 0;
    while k < s.len()
        invariant
            k <= s@.len(),
            s@ == keymap.entries_spec(context),
            crate::keymap::first_bound(s@, *binding, 0) == crate::keymap::first_bound(s@, *binding, k as int),
        decreases s.len() - k,
    {
        if s[k].0 == *binding {
            return Some(s[k].1);
        }
        k += 1;
    }
    None
}

} // verus!
