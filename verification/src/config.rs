//! User keybindings from `config.toml`, applied over the defaults.
//!
//! Nothing here is fatal: an entry that cannot be applied keeps its default
//! and is reported.
use vstd::prelude::*;
use crate::keymap::action::{action_name, action_named, KeyAction};
use crate::keymap::defaults::{default_entries, keymap as default_keymap};
use crate::keymap::keys::{binding_parse, binding_text, format_binding, parse_binding, Binding};
use crate::keymap::{context_name, context_named, first_bound, keys_of, without_action, Entries, KeyContext, Keymap};
use crate::text::{chars_of, debug_str, debug_str_of, owned, push_str, views};

verus! {

/// Something in the file that could not be applied. The entry keeps its
/// default.
#[derive(Debug, PartialEq)]
pub struct ConfigProblem {
    pub entry: String,
    pub message: String,
}

/// A problem as plain values: where, and what.
pub type Problem = (Seq<char>, Seq<char>);

pub open spec fn problem_view(p: ConfigProblem) -> Problem {
    (p.entry@, p.message@)
}

pub open spec fn problems_view(v: Seq<ConfigProblem>) -> Seq<Problem> {
    v.map_values(|p: ConfigProblem| problem_view(p))
}

/// How a problem is shown: `entry: message`, or the message alone.
pub open spec fn problem_text(p: Problem) -> Seq<char> {
    if p.0.len() == 0 {
        p.1
    } else {
        p.0 + ": "@ + p.1
    }
}

impl ConfigProblem {
    /// The problem as one line.
    pub fn describe(&self) -> (r: String)
        ensures
            r@ == problem_text(problem_view(*self)),
    {
        if chars_of(self.entry.as_str()).len() == 0 {
            owned(self.message.as_str())
        } else {
            let mut out = owned(self.entry.as_str());
            push_str(&mut out, ": ");
            push_str(&mut out, self.message.as_str());
            out
        }
    }
}

/// Where the keymap was saved, and where the previous file was kept.
pub struct Saved {
    pub path: String,
    pub backup: Option<String>,
}

/// One action's keys as the file lists them, one or several.
pub struct ConfigEntry {
    pub action: String,
    pub keys: Vec<String>,
}

/// One `[keys.<context>]` table of the file, in the order it was read.
pub struct ConfigSection {
    pub context: String,
    pub entries: Vec<ConfigEntry>,
}

pub type EntryView = (Seq<char>, Seq<Seq<char>>);

pub type SectionView = (Seq<char>, Seq<EntryView>);

pub open spec fn section_view(s: ConfigSection) -> SectionView {
    (s.context@, s.entries@.map_values(|e: ConfigEntry| (e.action@, views(e.keys@))))
}

pub open spec fn sections_view(v: Seq<ConfigSection>) -> Seq<SectionView> {
    v.map_values(|s: ConfigSection| section_view(s))
}

/// The keymap and the problems so far.
pub type ConfigState = (spec_fn(KeyContext) -> Entries, Seq<Problem>);

/// The problems of the keys that do not parse, in order.
pub open spec fn key_problems(label: Seq<char>, keys: Seq<Seq<char>>) -> Seq<Problem>
    decreases keys.len(),
{
    if keys.len() == 0 {
        Seq::empty()
    } else {
        let prev = key_problems(label, keys.drop_last());
        match binding_parse(keys.last()) {
            Ok(_) => prev,
            Err(m) => prev.push((label, m)),
        }
    }
}

/// The bindings the keys parse to, in order.
pub open spec fn key_bindings(keys: Seq<Seq<char>>) -> Seq<Binding>
    decreases keys.len(),
{
    if keys.len() == 0 {
        Seq::empty()
    } else {
        let prev = key_bindings(keys.drop_last());
        match binding_parse(keys.last()) {
            Ok(b) => prev.push(b),
            Err(_) => prev,
        }
    }
}

/// Binding each of `bs` to `a`, each taking its key from whatever held it:
/// the context's entries after, and the problems each theft adds.
pub open spec fn rebind(e: Entries, probs: Seq<Problem>, label: Seq<char>, a: KeyAction, bs: Seq<Binding>) -> (Entries, Seq<Problem>)
    decreases bs.len(),
{
    if bs.len() == 0 {
        (e, probs)
    } else {
        let prev = rebind(e, probs, label, a, bs.drop_last());
        let b = bs.last();
        match first_bound(prev.0, b, 0) {
            Some(k) => (
                prev.0.remove(k).push((b, a)),
                if prev.0[k].1 != a {
                    prev.1.push(
                        (label, action_name(a) + " took "@ + binding_text(b) + " from "@ + action_name(prev.0[k].1)),
                    )
                } else {
                    prev.1
                },
            ),
            None => (prev.0.push((b, a)), prev.1),
        }
    }
}

/// One `action = keys` entry of the table of `ctx`, named `name` in the
/// file: all of its keys replace the action's keys, or, if any fails to
/// parse, none do.
pub open spec fn apply_entry(st: ConfigState, ctx: KeyContext, name: Seq<char>, entry: EntryView) -> ConfigState {
    let label = "[keys."@ + name + "] "@ + entry.0;
    match action_named(entry.0) {
        None => (st.0, st.1.push((label, "unknown action"@))),
        Some(a) => {
            let bad = key_problems(label, entry.1);
            if bad.len() > 0 {
                (st.0, st.1 + bad)
            } else {
                let r = rebind(without_action((st.0)(ctx), a), st.1, label, a, key_bindings(entry.1));
                (|c: KeyContext| if c == ctx { r.0 } else { (st.0)(c) }, r.1)
            }
        },
    }
}

pub open spec fn apply_entries(st: ConfigState, ctx: KeyContext, name: Seq<char>, es: Seq<EntryView>) -> ConfigState
    decreases es.len(),
{
    if es.len() == 0 {
        st
    } else {
        apply_entry(apply_entries(st, ctx, name, es.drop_last()), ctx, name, es.last())
    }
}

/// One table: an unknown context is one problem, and none of its entries
/// apply.
pub open spec fn apply_section(st: ConfigState, s: SectionView) -> ConfigState {
    match context_named(s.0) {
        None => (st.0, st.1.push(("[keys."@ + s.0 + "]"@, "unknown context"@))),
        Some(ctx) => apply_entries(st, ctx, s.0, s.1),
    }
}

pub open spec fn apply_sections(st: ConfigState, ss: Seq<SectionView>) -> ConfigState
    decreases ss.len(),
{
    if ss.len() == 0 {
        st
    } else {
        apply_section(apply_sections(st, ss.drop_last()), ss.last())
    }
}

/// The file's tables applied over the defaults.
pub open spec fn config_result(ss: Seq<SectionView>) -> ConfigState {
    apply_sections((|c: KeyContext| default_entries(c), Seq::empty()), ss)
}

fn problem(entry: String, message: String) -> (r: ConfigProblem)
    ensures
        problem_view(r) == (entry@, message@),
{
    ConfigProblem { entry, message }
}

/// Applies one entry to `keymap`, adding to `problems`.
fn apply_entry_exec(
    keymap: &mut Keymap,
    problems: &mut Vec<ConfigProblem>,
    ctx: KeyContext,
    name: &str,
    entry: &ConfigEntry,
)
    ensures
        ({
            let st = (|c: KeyContext| old(keymap).entries_spec(c), problems_view(old(problems)@));
            let next = apply_entry(st, ctx, name@, (entry.action@, views(entry.keys@)));
            &&& forall|c: KeyContext| #[trigger] final(keymap).entries_spec(c) == (next.0)(c)
            &&& problems_view(final(problems)@) == next.1
        }),
{
    let ghost st = (|c: KeyContext| keymap.entries_spec(c), problems_view(problems@));
    let ghost ev = (entry.action@, views(entry.keys@));
    let mut label = owned("[keys.");
    push_str(&mut label, name);
    push_str(&mut label, "] ");
    push_str(&mut label, entry.action.as_str());
    let action = match KeyAction::from_str(entry.action.as_str()) {
        Some(a) => a,
        None => {
            let ghost before = problems_view(problems@);
            problems.push(problem(label, owned("unknown action")));
            assert(problems_view(problems@) =~= before.push((label@, "unknown action"@)));
            return;
        },
    };
    let ghost keys = views(entry.keys@);
    let mut parsed: Vec<Binding> = Vec::new();
    let mut bad: Vec<ConfigProblem> = Vec::new();
    let mut i: usize = 0;
    while i < entry.keys.len()
        invariant
            i <= entry.keys@.len(),
            keys == views(entry.keys@),
            parsed@ == key_bindings(keys.take(i as int)),
            problems_view(bad@) == key_problems(label@, keys.take(i as int)),
        decreases entry.keys.len() - i,
    {
        assert(keys.take(i + 1).drop_last() =~= keys.take(i as int));
        assert(keys.take(i + 1).last() == entry.keys@[i as int]@);
        match parse_binding(entry.keys[i].as_str()) {
            Ok(b) => {
                parsed.push(b);
            },
            Err(e) => {
                let ghost before = problems_view(bad@);
                bad.push(problem(owned(label.as_str()), e.0));
                assert(problems_view(bad@) =~= before.push((label@, e.0@)));
            },
        }
        i += 1;
    }
    assert(keys.take(keys.len() as int) =~= keys);
    if bad.len() > 0 {
        let ghost before = problems_view(problems@);
        let ghost added = problems_view(bad@);
        let mut k: usize = 0;
        while k < bad.len()
            invariant
                k <= bad@.len(),
                added == problems_view(bad@),
                problems_view(problems@) == before + added.take(k as int),
            decreases bad.len() - k,
        {
            let p = problem(owned(bad[k].entry.as_str()), owned(bad[k].message.as_str()));
            let ghost prev = problems_view(problems@);
            problems.push(p);
            assert(problems_view(problems@) =~= prev.push(added[k as int]));
            k += 1;
            assert(before + added.take(k as int) =~= (before + added.take(k - 1)).push(added[k - 1]));
        }
        assert(added.take(bad@.len() as int) =~= added);
        return;
    }
    keymap.clear_action(ctx, action);
    let ghost e0 = keymap.entries_spec(ctx);
    let ghost p0 = problems_view(problems@);
    let mut j: usize = 0;
    while j < parsed.len()
        invariant
            j <= parsed@.len(),
            parsed@ == key_bindings(keys),
            ({
                let r = rebind(e0, p0, label@, action, parsed@.take(j as int));
                &&& keymap.entries_spec(ctx) == r.0
                &&& problems_view(problems@) == r.1
            }),
            forall|c: KeyContext| c != ctx ==> #[trigger] keymap.entries_spec(c) == old(keymap).entries_spec(c),
        decreases parsed.len() - j,
    {
        let b = parsed[j];
        assert(parsed@.take(j + 1).drop_last() =~= parsed@.take(j as int));
        let ghost before = keymap.entries_spec(ctx);
        let ghost pbefore = problems_view(problems@);
        match keymap.evict(ctx, &b) {
            Some(previous) => {
                if previous != action {
                    let mut m = owned(action.as_str());
                    push_str(&mut m, " took ");
                    push_str(&mut m, format_binding(&b).as_str());
                    push_str(&mut m, " from ");
                    push_str(&mut m, previous.as_str());
                    problems.push(problem(owned(label.as_str()), m));
                    assert(problems_view(problems@) =~= pbefore.push((label@, m@)));
                }
            },
            None => {},
        }
        keymap.bind(ctx, b, action);
        j += 1;
    }
    assert(parsed@.take(parsed@.len() as int) =~= parsed@);
}

/// Applies the file's tables, read in this order, over the defaults: every
/// entry that can be applied replaces the keys of its action; every one that
/// cannot is reported and keeps its default.
pub fn apply(sections: &Vec<ConfigSection>) -> (r: (Keymap, Vec<ConfigProblem>))
    ensures
        ({
            let res = config_result(sections_view(sections@));
            &&& forall|c: KeyContext| #[trigger] r.0.entries_spec(c) == (res.0)(c)
            &&& problems_view(r.1@) == res.1
        }),
{
    let mut keymap = default_keymap();
    let mut problems: Vec<ConfigProblem> = Vec::new();
    let ghost ss = sections_view(sections@);
    let mut i: usize = 0;
    assert(problems_view(problems@) =~= Seq::<Problem>::empty());
    while i < sections.len()
        invariant
            i <= sections@.len(),
            ss == sections_view(sections@),
            ({
                let st = apply_sections((|c: KeyContext| default_entries(c), Seq::empty()), ss.take(i as int));
                &&& forall|c: KeyContext| #[trigger] keymap.entries_spec(c) == (st.0)(c)
                &&& problems_view(problems@) == st.1
            }),
        decreases sections.len() - i,
    {
        assert(ss.take(i + 1).drop_last() =~= ss.take(i as int));
        let section = &sections[i];
        assert(ss[i as int] == section_view(*section));
        match KeyContext::from_str(section.context.as_str()) {
            None => {
                let mut label = owned("[keys.");
                push_str(&mut label, section.context.as_str());
                push_str(&mut label, "]");
                let ghost before = problems_view(problems@);
                problems.push(problem(label, owned("unknown context")));
                assert(problems_view(problems@) =~= before.push((label@, "unknown context"@)));
            },
            Some(ctx) => {
                let ghost es = section_view(*section).1;
                let ghost st0 = (|c: KeyContext| keymap.entries_spec(c), problems_view(problems@));
                proof {
                    let prev = apply_sections((|c: KeyContext| default_entries(c), Seq::empty()), ss.take(i as int));
                    assert(st0.0 =~= prev.0);
                    assert(st0 == prev);
                }
                let mut k: usize = 0;
                while k < section.entries.len()
                    invariant
                        k <= section.entries@.len(),
                        es == section_view(*section).1,
                        ({
                            let st = apply_entries(st0, ctx, section.context@, es.take(k as int));
                            &&& forall|c: KeyContext| #[trigger] keymap.entries_spec(c) == (st.0)(c)
                            &&& problems_view(problems@) == st.1
                        }),
                    decreases section.entries.len() - k,
                {
                    assert(es.take(k + 1).drop_last() =~= es.take(k as int));
                    let ghost st = apply_entries(st0, ctx, section.context@, es.take(k as int));
                    apply_entry_exec(&mut keymap, &mut problems, ctx, section.context.as_str(), &section.entries[k]);
                    k += 1;
                }
                assert(es.take(es.len() as int) =~= es);
            },
        }
        i += 1;
    }
    assert(ss.take(ss.len() as int) =~= ss);
    (keymap, problems)
}

/// The keymap for what reading the file gave: its tables applied over the
/// defaults, or, when it could not be read as TOML, the defaults and that
/// error.
pub fn from_parsed(parsed: Result<Vec<ConfigSection>, String>) -> (r: (Keymap, Vec<ConfigProblem>))
    ensures
        match parsed {
            Ok(ss) => {
                let res = config_result(sections_view(ss@));
                &&& forall|c: KeyContext| #[trigger] r.0.entries_spec(c) == (res.0)(c)
                &&& problems_view(r.1@) == res.1
            },
            Err(m) => {
                &&& forall|c: KeyContext| #[trigger] r.0.entries_spec(c) == default_entries(c)
                &&& problems_view(r.1@) == seq![("config.toml"@, m@)]
            },
        },
{
    match parsed {
        Ok(ss) => apply(&ss),
        Err(m) => {
            let mut problems: Vec<ConfigProblem> = Vec::new();
            problems.push(problem(owned("config.toml"), m));
            assert(problems_view(problems@) =~= seq![("config.toml"@, m@)]);
            (default_keymap(), problems)
        },
    }
}


// ---------------------------------------------------------------------------
// Writing the file
// ---------------------------------------------------------------------------

/// The quoted keys, separated by `, `.
pub open spec fn quoted_list(keys: Seq<Seq<char>>) -> Seq<char>
    decreases keys.len(),
{
    if keys.len() == 0 {
        Seq::empty()
    } else if keys.len() == 1 {
        debug_str_of(keys[0])
    } else {
        quoted_list(keys.drop_last()) + ", "@ + debug_str_of(keys.last())
    }
}

/// One `action = ["key", ...]` line.
pub open spec fn toml_line(a: KeyAction, keys: Seq<Seq<char>>) -> Seq<char> {
    action_name(a) + " = ["@ + quoted_list(keys) + "]\n"@
}

/// The lines for `actions`, each with its keys in `entries`.
pub open spec fn toml_lines(actions: Seq<KeyAction>, entries: Entries) -> Seq<char>
    decreases actions.len(),
{
    if actions.len() == 0 {
        Seq::empty()
    } else {
        toml_lines(actions.drop_last(), entries) + toml_line(actions.last(), keys_of(entries, actions.last()))
    }
}

/// The heading of a context's table.
pub open spec fn table_heading(c: KeyContext) -> Seq<char> {
    "\n[keys."@ + context_name(c) + "]\n"@
}

fn quoted_list_exec(keys: &Vec<String>) -> (r: String)
    ensures
        r@ == quoted_list(views(keys@)),
{
    let ghost ks = views(keys@);
    let mut out = String::new();
    let mut i: usize = 0;
    while i < keys.len()
        invariant
            i <= keys@.len(),
            ks == views(keys@),
            out@ == quoted_list(ks.take(i as int)),
        decreases keys.len() - i,
    {
        assert(ks.take(i + 1).drop_last() =~= ks.take(i as int));
        if i > 0 {
            push_str(&mut out, ", ");
        } else {
            assert(ks.take(0) =~= Seq::<Seq<char>>::empty());
            assert(out@ =~= Seq::<char>::empty());
        }
        push_str(&mut out, debug_str(keys[i].as_str()).as_str());
        proof {
            if i == 0 {
                assert(out@ =~= debug_str_of(ks.take(1)[0]));
            }
        }
        i += 1;
    }
    assert(ks.take(keys@.len() as int) =~= ks);
    out
}

fn push_line(out: &mut String, a: KeyAction, keys: &Vec<String>)
    ensures
        final(out)@ == old(out)@ + toml_line(a, views(keys@)),
{
    push_str(out, a.as_str());
    push_str(out, " = [");
    push_str(out, quoted_list_exec(keys).as_str());
    push_str(out, "]\n");
}

fn push_heading(out: &mut String, c: KeyContext)
    ensures
        final(out)@ == old(out)@ + table_heading(c),
{
    push_str(out, "\n[keys.");
    push_str(out, c.as_str());
    push_str(out, "]\n");
}

/// The distinct actions of `s`, in order of first appearance.
fn distinct_actions(acc: &mut Vec<KeyAction>, s: &[(Binding, KeyAction)])
    ensures
        final(acc)@ == crate::keybind::add_actions(old(acc)@, s@),
{
    let ghost start = acc@;
    let mut i: usize = 0;
    while i < s.len()
        invariant
            i <= s@.len(),
            start == old(acc)@,
            acc@ == crate::keybind::add_actions(start, s@.take(i as int)),
        decreases s.len() - i,
    {
        assert(s@.take(i + 1).drop_last() =~= s@.take(i as int));
        let a = s[i].1;
        let mut seen = false;
        let mut k: usize = 0;
        while k < acc.len()
            invariant
                k <= acc@.len(),
                seen == exists|j: int| 0 <= j < k && acc@[j] == a,
            decreases acc.len() - k,
        {
            if acc[k] == a {
                seen = true;
            }
            k += 1;
        }
        if !seen {
            acc.push(a);
        }
        i += 1;
    }
    assert(s@.take(s@.len() as int) =~= s@);
}

/// The header of the printed defaults.
pub const DEFAULTS_HEADER: &'static str = "# ctrlr keybindings\n#\n# Listing an action REPLACES its default keys, so you can drop one you\n# dislike. Anything you leave out keeps the default below.\n#\n# Modifiers: ctrl, alt, shift. Named keys: enter, esc, tab, space,\n# backspace, delete, insert, home, end, pageup, pagedown, up, down,\n# left, right, f1-f12. Anything else of length one is that character,\n# case-sensitively. Two keys separated by a space make a sequence.\n#\n# A plain character always types when the search bar has focus, so a\n# letter bound here only fires from the other panes.\n";

/// The table of one context in the printed defaults: every action its
/// defaults bind, with all its keys; nothing for a context without defaults.
pub open spec fn defaults_table(c: KeyContext) -> Seq<char> {
    let e = default_entries(c);
    if e.len() == 0 {
        Seq::empty()
    } else {
        table_heading(c) + toml_lines(crate::keybind::add_actions(Seq::empty(), e), e)
    }
}

/// The tables of the first `n` contexts.
pub open spec fn defaults_tables(n: int) -> Seq<char>
    decreases n,
{
    if n <= 0 {
        Seq::empty()
    } else {
        defaults_tables(n - 1) + defaults_table(crate::keymap::all_contexts()[n - 1])
    }
}

/// The names of the actions from `lo` to `hi`, separated by `, `.
pub open spec fn names_joined(lo: int, hi: int) -> Seq<char>
    decreases hi - lo,
{
    if hi <= lo {
        Seq::empty()
    } else if hi == lo + 1 {
        action_name(crate::keymap::action::action_at(lo))
    } else {
        names_joined(lo, hi - 1) + ", "@ + action_name(crate::keymap::action::action_at(hi - 1))
    }
}

/// The first `n` lines of the list of action names, four to a line.
pub open spec fn names_lines(n: int) -> Seq<char>
    decreases n,
{
    if n <= 0 {
        Seq::empty()
    } else {
        let lo = (n - 1) * 4;
        let hi = if lo + 4 < crate::keymap::action::ACTION_COUNT {
            lo + 4
        } else {
            crate::keymap::action::ACTION_COUNT as int
        };
        names_lines(n - 1) + "#   "@ + names_joined(lo, hi) + "\n"@
    }
}

/// The number of lines of action names.
pub open spec fn names_line_count() -> int {
    (crate::keymap::action::ACTION_COUNT as int + 3) / 4
}

/// The whole default keymap as TOML: the header, each context's table,
/// then every action name, four to a line.
pub open spec fn printed_defaults() -> Seq<char> {
    DEFAULTS_HEADER@ + defaults_tables(crate::keymap::CONTEXT_COUNT as int)
        + "\n# Every action name ctrlr understands:\n"@ + names_lines(names_line_count())
}

/// The lines of `actions` for the printed defaults, from `entries`.
fn push_lines(out: &mut String, actions: &Vec<KeyAction>, keymap: &Keymap, c: KeyContext)
    ensures
        final(out)@ == old(out)@ + toml_lines(actions@, keymap.entries_spec(c)),
{
    let ghost start = out@;
    let mut i: usize = 0;
    while i < actions.len()
        invariant
            i <= actions@.len(),
            start == old(out)@,
            out@ == start + toml_lines(actions@.take(i as int), keymap.entries_spec(c)),
        decreases actions.len() - i,
    {
        assert(actions@.take(i + 1).drop_last() =~= actions@.take(i as int));
        let keys = keymap.keys_for(c, actions[i]);
        push_line(out, actions[i], &keys);
        i += 1;
        assert(out@ =~= start + toml_lines(actions@.take(i as int), keymap.entries_spec(c)));
    }
    assert(actions@.take(actions@.len() as int) =~= actions@);
}

/// The whole default keymap as valid TOML, for `ctrlr config --print`.
pub fn print_defaults() -> (r: String)
    ensures
        r@ == printed_defaults(),
{
    let defaults = default_keymap();
    let contexts = KeyContext::all();
    let mut out = owned(DEFAULTS_HEADER);
    let mut i: usize = 0;
    while i < contexts.len()
        invariant
            contexts@ == crate::keymap::all_contexts(),
            i <= contexts@.len(),
            forall|c: KeyContext| #[trigger] defaults.entries_spec(c) == default_entries(c),
            out@ == DEFAULTS_HEADER@ + defaults_tables(i as int),
        decreases contexts.len() - i,
    {
        let c = contexts[i];
        let entries = defaults.entries(c);
        if entries.len() > 0 {
            push_heading(&mut out, c);
            let mut actions: Vec<KeyAction> = Vec::new();
            distinct_actions(&mut actions, entries);
            push_lines(&mut out, &actions, &defaults, c);
        }
        i += 1;
        assert(out@ =~= DEFAULTS_HEADER@ + defaults_tables(i as int));
    }
    push_str(&mut out, "\n# Every action name ctrlr understands:\n");
    let all = KeyAction::all();
    let mut line: usize = 0;
    let ghost before = out@;
    while line * 4 < all.len()
        invariant
            all@ == crate::keymap::action::all_actions(),
            all@.len() == crate::keymap::action::ACTION_COUNT,
            line <= 13,
            line * 4 <= all@.len() + 3,
            out@ == before + names_lines(line as int),
        decreases all.len() + 4 - line * 4,
    {
        let lo = line * 4;
        let hi = if lo + 4 < all.len() {
            lo + 4
        } else {
            all.len()
        };
        push_str(&mut out, "#   ");
        let mut k = lo;
        let ghost mid = out@;
        while k < hi
            invariant
                lo <= k <= hi,
                hi <= all@.len(),
                lo < hi,
                all@ == crate::keymap::action::all_actions(),
                out@ == mid + names_joined(lo as int, k as int),
            decreases hi - k,
        {
            if k > lo {
                push_str(&mut out, ", ");
            }
            push_str(&mut out, all[k].as_str());
            k += 1;
            assert(out@ =~= mid + names_joined(lo as int, k as int));
        }
        push_str(&mut out, "\n");
        line += 1;
        assert(out@ =~= before + names_lines(line as int));
    }
    assert(out@ =~= printed_defaults());
    out
}

/// The actions among `actions` whose keys in `mine` differ from those in
/// `defs`, in order.
pub open spec fn changed_actions(actions: Seq<KeyAction>, mine: Entries, defs: Entries) -> Seq<KeyAction>
    decreases actions.len(),
{
    if actions.len() == 0 {
        Seq::empty()
    } else {
        let prev = changed_actions(actions.drop_last(), mine, defs);
        let a = actions.last();
        if keys_of(mine, a) != keys_of(defs, a) {
            prev.push(a)
        } else {
            prev
        }
    }
}

/// The table of one context in the saved file: the actions whose keys
/// differ from the defaults, in the order the defaults list them, then any
/// other the keymap binds; nothing when none differs.
pub open spec fn diff_table(mine: Entries, c: KeyContext) -> Seq<char> {
    let defs = default_entries(c);
    let actions = crate::keybind::add_actions(crate::keybind::add_actions(Seq::empty(), defs), mine);
    let changed = changed_actions(actions, mine, defs);
    if changed.len() == 0 {
        Seq::empty()
    } else {
        table_heading(c) + toml_lines(changed, mine)
    }
}

pub open spec fn diff_tables(km: spec_fn(KeyContext) -> Entries, n: int) -> Seq<char>
    decreases n,
{
    if n <= 0 {
        Seq::empty()
    } else {
        diff_tables(km, n - 1) + diff_table(km(crate::keymap::all_contexts()[n - 1]), crate::keymap::all_contexts()[n - 1])
    }
}

/// The header of the saved file.
pub const SAVED_HEADER: &'static str = "# ctrlr keybindings \u{2014} written by ctrlr, safe to edit by hand.\n#\n# Only differences from the defaults are recorded, so anything not\n# named here follows ctrlr's own default and keeps following it.\n# An empty list unbinds. `ctrlr config --print` shows every default\n# and every action name.\n";

fn same_keys(a: &Vec<String>, b: &Vec<String>) -> (r: bool)
    ensures
        r == (views(a@) == views(b@)),
{
    if a.len() != b.len() {
        assert(views(a@).len() != views(b@).len());
        return false;
    }
    let mut i: usize = 0;
    while i < a.len()
        invariant
            i <= a@.len(),
            a@.len() == b@.len(),
            forall|j: int| 0 <= j < i ==> views(a@)[j] == views(b@)[j],
        decreases a.len() - i,
    {
        if !crate::text::str_eq(a[i].as_str(), b[i].as_str()) {
            assert(views(a@)[i as int] != views(b@)[i as int]);
            return false;
        }
        i += 1;
    }
    assert(views(a@) =~= views(b@));
    true
}

/// The keymap as TOML, recording only what differs from the defaults, so a
/// later change to a default still reaches whoever saved once. An action
/// with all its keys removed is written as an empty list.
pub fn to_toml(keymap: &Keymap) -> (r: String)
    ensures
        r@ == SAVED_HEADER@ + diff_tables(|c: KeyContext| keymap.entries_spec(c), crate::keymap::CONTEXT_COUNT as int),
{
    let defaults = default_keymap();
    let contexts = KeyContext::all();
    let ghost km = |c: KeyContext| keymap.entries_spec(c);
    let mut out = owned(SAVED_HEADER);
    let mut i: usize = 0;
    while i < contexts.len()
        invariant
            contexts@ == crate::keymap::all_contexts(),
            i <= contexts@.len(),
            km == |c: KeyContext| keymap.entries_spec(c),
            forall|c: KeyContext| #[trigger] defaults.entries_spec(c) == default_entries(c),
            out@ == SAVED_HEADER@ + diff_tables(km, i as int),
        decreases contexts.len() - i,
    {
        let c = contexts[i];
        let mut actions: Vec<KeyAction> = Vec::new();
        distinct_actions(&mut actions, defaults.entries(c));
        distinct_actions(&mut actions, keymap.entries(c));
        let ghost mine = keymap.entries_spec(c);
        let ghost defs = default_entries(c);
        let mut changed: Vec<KeyAction> = Vec::new();
        let mut k: usize = 0;
        while k < actions.len()
            invariant
                k <= actions@.len(),
                mine == keymap.entries_spec(c),
                defs == default_entries(c),
                forall|c: KeyContext| #[trigger] defaults.entries_spec(c) == default_entries(c),
                changed@ == changed_actions(actions@.take(k as int), mine, defs),
            decreases actions.len() - k,
        {
            assert(actions@.take(k + 1).drop_last() =~= actions@.take(k as int));
            let m = keymap.keys_for(c, actions[k]);
            let d = defaults.keys_for(c, actions[k]);
            proof {
                assert(views(m@) =~= m@.map_values(|k: String| k@));
                assert(views(d@) =~= d@.map_values(|k: String| k@));
            }
            if !same_keys(&m, &d) {
                changed.push(actions[k]);
            }
            k += 1;
        }
        assert(actions@.take(actions@.len() as int) =~= actions@);
        if changed.len() > 0 {
            push_heading(&mut out, c);
            push_lines(&mut out, &changed, keymap, c);
        }
        i += 1;
        assert(out@ =~= SAVED_HEADER@ + diff_tables(km, i as int));
    }
    out
}

} // verus!
