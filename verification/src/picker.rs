//! The list the picker shows: which commands, in what order, which one is
//! selected, and how the panes and the query move it.
use vstd::prelude::*;
use fuzzy_matcher::FuzzyMatcher;
use fuzzy_matcher::skim::SkimMatcherV2;
use crate::state::{ranking_score, ranks_above, Action, ActivePane, Command, CommandView, InputMode, ViewMode, command_views};
use crate::keymap::KeyContext;
use crate::history::dedup::{insert_sorted, lemma_str_lt_irrefl, lemma_str_lt_trans, sorted_union, str_lt};
use crate::init::{join, lemma_join_push};
use crate::storage::Collection;
use crate::hash::{hash_command, normalized, sha1_hex_of};
use crate::text::{
    chars_of, contains, lemma_split_char_nonempty, owned, push_str, split_char, split_chars,
    starts_with, starts_with_chars, str_contains, str_eq, string_of, to_lowercase, trim,
    trim_chars, trim_str, lowercased, views,
};

verus! {

// ---------------------------------------------------------------------------
// Fuzzy matching
// ---------------------------------------------------------------------------

/// What skim's fuzzy matcher, with its default settings, answers for a
/// choice and a pattern: the score and the positions of the matched
/// characters, or nothing when the pattern does not match.
pub uninterp spec fn skim_indices(choice: Seq<char>, pattern: Seq<char>) -> Option<(i64, Seq<usize>)>;

pub open spec fn match_view(m: Option<(i64, Vec<usize>)>) -> Option<(i64, Seq<usize>)> {
    match m {
        Some((s, v)) => Some((s, v@)),
        None => None,
    }
}

/// `SkimMatcherV2::default().fuzzy_indices(choice, pattern)`.
///
/// The matcher is deterministic: its caches only hold scratch space, so its
/// answer is a function of the two strings, named `skim_indices`.
#[verifier::external_body]
pub(crate) fn fuzzy_indices(choice: &str, pattern: &str) -> (r: Option<(i64, Vec<usize>)>)
    ensures
        match_view(r) == skim_indices(choice@, pattern@),
{
    SkimMatcherV2::default().fuzzy_indices(choice, pattern)
}

/// The best score any of the tags reaches; of equal scores the first counts.
pub open spec fn best_tag_score(tags: Seq<Seq<char>>, q: Seq<char>) -> Option<i64>
    decreases tags.len(),
{
    if tags.len() == 0 {
        None
    } else {
        let before = best_tag_score(tags.drop_last(), q);
        match skim_indices(tags.last(), q) {
            Some((s, _)) => match before {
                Some(b) => if s > b {
                    Some(s)
                } else {
                    Some(b)
                },
                None => Some(s),
            },
            None => before,
        }
    }
}

/// How a command matches a query: its score and, when its text matched at
/// least as well as its best tag, the positions to highlight in the text.
/// Nothing when neither the text nor a tag matches.
pub open spec fn command_match(c: CommandView, q: Seq<char>) -> Option<(i64, Option<Seq<usize>>)> {
    match (skim_indices(c.text, q), best_tag_score(c.tags, q)) {
        (Some((ts, ti)), Some(gs)) => if ts >= gs {
            Some((ts, Some(ti)))
        } else {
            Some((gs, None))
        },
        (Some((ts, ti)), None) => Some((ts, Some(ti))),
        (None, Some(gs)) => Some((gs, None)),
        (None, None) => None,
    }
}

/// A command that matched, with its score and highlighted positions.
pub type Hit = (CommandView, i64, Option<Seq<usize>>);

/// The commands that match, in list order.
pub open spec fn hits(s: Seq<CommandView>, q: Seq<char>) -> Seq<Hit>
    decreases s.len(),
{
    if s.len() == 0 {
        Seq::empty()
    } else {
        let before = hits(s.drop_last(), q);
        match command_match(s.last(), q) {
            Some((score, idx)) => before.push((s.last(), score, idx)),
            None => before,
        }
    }
}

/// `a` goes before `b`: a higher ranking score, or the same score and more
/// uses.
pub open spec fn outranks(a: Hit, b: Hit, now: int) -> bool {
    ranks_above(a.0, a.1 as int, b.0, b.1 as int, now)
}

/// `x` placed before the first entry it outranks.
pub open spec fn insert_ranked(s: Seq<Hit>, x: Hit, now: int) -> Seq<Hit>
    decreases s.len(),
{
    if s.len() == 0 {
        seq![x]
    } else if outranks(x, s[0], now) {
        seq![x] + s
    } else {
        seq![s[0]] + insert_ranked(s.drop_first(), x, now)
    }
}

/// The hits best first; equal ones keep their list order.
pub open spec fn ranked(s: Seq<Hit>, now: int) -> Seq<Hit>
    decreases s.len(),
{
    if s.len() == 0 {
        s
    } else {
        insert_ranked(ranked(s.drop_last(), now), s.last(), now)
    }
}

/// `insert_ranked` puts `x` at the first position whose entry it outranks.
proof fn lemma_insert_ranked_at(s: Seq<Hit>, x: Hit, now: int, p: int)
    requires
        0 <= p <= s.len(),
        forall|j: int| 0 <= j < p ==> !outranks(x, #[trigger] s[j], now),
        p < s.len() ==> outranks(x, s[p], now),
    ensures
        insert_ranked(s, x, now) == s.take(p) + seq![x] + s.skip(p),
    decreases s.len(),
{
    if s.len() == 0 {
        assert(s.take(p) + seq![x] + s.skip(p) =~= seq![x]);
    } else if p == 0 {
        assert(s.take(0) + seq![x] + s.skip(0) =~= seq![x] + s);
    } else {
        let t = s.drop_first();
        assert forall|j: int| 0 <= j < p - 1 implies !outranks(x, #[trigger] t[j], now) by {
            assert(t[j] == s[j + 1]);
        }
        if p - 1 < t.len() {
            assert(t[p - 1] == s[p]);
        }
        lemma_insert_ranked_at(t, x, now, p - 1);
        assert(seq![s[0]] + (t.take(p - 1) + seq![x] + t.skip(p - 1)) =~= s.take(p) + seq![x]
            + s.skip(p));
    }
}

/// No entry outranks one before it.
pub open spec fn best_first(s: Seq<Hit>, now: int) -> bool {
    forall|i: int, j: int| 0 <= i < j < s.len() ==> !outranks(#[trigger] s[j], #[trigger] s[i], now)
}

/// Inserting into a list that is best first keeps it best first, and adds
/// exactly the one entry.
proof fn lemma_insert_ranked(s: Seq<Hit>, x: Hit, now: int)
    requires
        best_first(s, now),
    ensures
        best_first(insert_ranked(s, x, now), now),
        insert_ranked(s, x, now).to_multiset() == s.to_multiset().insert(x),
    decreases s.len(),
{
    broadcast use vstd::seq_lib::group_to_multiset_ensures;
    broadcast use vstd::multiset::group_multiset_axioms;

    let r = insert_ranked(s, x, now);
    if s.len() == 0 {
        assert(r == s.insert(0, x));
    } else if outranks(x, s[0], now) {
        assert(r == s.insert(0, x));
        assert forall|i: int, j: int| 0 <= i < j < r.len() implies !outranks(
            #[trigger] r[j],
            #[trigger] r[i],
            now,
        ) by {
            if i > 0 {
                assert(r[i] == s[i - 1] && r[j] == s[j - 1]);
            } else {
                assert(r[j] == s[j - 1]);
                if j - 1 > 0 {
                    assert(!outranks(s[j - 1], s[0], now));
                }
            }
        }
    } else {
        let t = s.drop_first();
        assert forall|i: int, j: int| 0 <= i < j < t.len() implies !outranks(
            #[trigger] t[j],
            #[trigger] t[i],
            now,
        ) by {
            assert(t[i] == s[i + 1] && t[j] == s[j + 1]);
        }
        lemma_insert_ranked(t, x, now);
        let rt = insert_ranked(t, x, now);
        assert(r == rt.insert(0, s[0]));
        assert(s == t.insert(0, s[0]));
        assert(r.to_multiset() =~= s.to_multiset().insert(x));
        assert forall|j: int| 0 <= j < rt.len() implies !outranks(#[trigger] rt[j], s[0], now) by {
            assert(rt.contains(rt[j]));
            assert(rt.to_multiset().count(rt[j]) > 0);
            if rt[j] != x {
                assert(t.to_multiset().count(rt[j]) > 0);
                assert(t.contains(rt[j]));
                let k = choose|k: int| 0 <= k < t.len() && t[k] == rt[j];
                assert(s[k + 1] == rt[j]);
            }
        }
        assert forall|i: int, j: int| 0 <= i < j < r.len() implies !outranks(
            #[trigger] r[j],
            #[trigger] r[i],
            now,
        ) by {
            if i == 0 {
                assert(r[j] == rt[j - 1]);
            } else {
                assert(r[i] == rt[i - 1] && r[j] == rt[j - 1]);
            }
        }
    }
}

/// Every hit is a command of the list that matches the query, with the score
/// and highlights it matched with, in list order.
pub proof fn law_hits_match(s: Seq<CommandView>, q: Seq<char>)
    ensures
        hits(s, q).len() <= s.len(),
        forall|k: int|
            0 <= k < hits(s, q).len() ==> command_match((#[trigger] hits(s, q)[k]).0, q) == Some(
                (hits(s, q)[k].1, hits(s, q)[k].2),
            ) && s.contains(hits(s, q)[k].0),
    decreases s.len(),
{
    if s.len() > 0 {
        law_hits_match(s.drop_last(), q);
        let h = hits(s, q);
        let before = hits(s.drop_last(), q);
        assert forall|k: int| 0 <= k < h.len() implies command_match((#[trigger] h[k]).0, q)
            == Some((h[k].1, h[k].2)) && s.contains(h[k].0) by {
            if k < before.len() {
                assert(h[k] == before[k]);
                assert(s.drop_last().contains(h[k].0));
                let i = choose|i: int| 0 <= i < s.drop_last().len() && s.drop_last()[i] == h[k].0;
                assert(s[i] == h[k].0);
            } else {
                assert(h[k].0 == s[s.len() - 1]);
            }
        }
    }
}

/// Ranking orders the hits best first and keeps every one of them, once.
pub proof fn law_ranked_best_first(s: Seq<Hit>, now: int)
    ensures
        best_first(ranked(s, now), now),
        ranked(s, now).to_multiset() == s.to_multiset(),
    decreases s.len(),
{
    broadcast use vstd::seq_lib::group_to_multiset_ensures;

    if s.len() > 0 {
        law_ranked_best_first(s.drop_last(), now);
        lemma_insert_ranked(ranked(s.drop_last(), now), s.last(), now);
        assert(s == s.drop_last().push(s.last()));
    }
}

// ---------------------------------------------------------------------------
// Which commands a tab lists
// ---------------------------------------------------------------------------

/// The commands that are favourites, in order.
pub open spec fn favorites(s: Seq<CommandView>) -> Seq<CommandView>
    decreases s.len(),
{
    if s.len() == 0 {
        s
    } else if s.last().favorite {
        favorites(s.drop_last()).push(s.last())
    } else {
        favorites(s.drop_last())
    }
}

/// The commands in the collection `id`, in order.
pub open spec fn in_collection(s: Seq<CommandView>, id: Seq<char>) -> Seq<CommandView>
    decreases s.len(),
{
    if s.len() == 0 {
        s
    } else if s.last().collection_ids.contains(id) {
        in_collection(s.drop_last(), id).push(s.last())
    } else {
        in_collection(s.drop_last(), id)
    }
}

/// The commands recorded in the launch directory, in order.
pub open spec fn run_here(s: Seq<CommandView>) -> Seq<CommandView>
    decreases s.len(),
{
    if s.len() == 0 {
        s
    } else if s.last().runs_here > 0 {
        run_here(s.drop_last()).push(s.last())
    } else {
        run_here(s.drop_last())
    }
}

/// The commands the Collections tab draws from: those of the selected
/// collection, or none.
pub open spec fn collection_list(s: Seq<CommandView>, selected: Option<Seq<char>>) -> Seq<
    CommandView,
> {
    match selected {
        Some(id) => in_collection(s, id),
        None => Seq::empty(),
    }
}

/// The commands a tab lists before the query is applied.
pub open spec fn listed(
    s: Seq<CommandView>,
    view: ViewMode,
    selected: Option<Seq<char>>,
    scope_to_cwd: bool,
) -> Seq<CommandView> {
    let base = match view {
        ViewMode::History => s,
        ViewMode::Favorites => favorites(s),
        ViewMode::Collections => collection_list(s, selected),
    };
    if scope_to_cwd {
        run_here(base)
    } else {
        base
    }
}

/// What the list shows for a query: everything listed when the query is
/// empty, else the hits best first.
pub open spec fn shown(base: Seq<CommandView>, q: Seq<char>, now: int) -> Seq<CommandView> {
    if q.len() == 0 {
        base
    } else {
        ranked(hits(base, q), now).map_values(|h: Hit| h.0)
    }
}

/// The highlighted positions for each shown command.
pub open spec fn highlights(base: Seq<CommandView>, q: Seq<char>, now: int) -> Seq<
    Option<Seq<usize>>,
> {
    if q.len() == 0 {
        Seq::new(base.len(), |i: int| None)
    } else {
        ranked(hits(base, q), now).map_values(|h: Hit| h.2)
    }
}

pub open spec fn mark_view(m: Option<Vec<usize>>) -> Option<Seq<usize>> {
    match m {
        Some(x) => Some(x@),
        None => None,
    }
}

pub open spec fn highlight_views(v: Seq<Option<Vec<usize>>>) -> Seq<Option<Seq<usize>>> {
    v.map_values(|o: Option<Vec<usize>>| mark_view(o))
}

// ---------------------------------------------------------------------------
// Computing the list
// ---------------------------------------------------------------------------

/// Copies of all the commands.
fn copy_commands(v: &Vec<Command>) -> (r: Vec<Command>)
    ensures
        command_views(r@) == command_views(v@),
{
    let mut r: Vec<Command> = Vec::new();
    let mut i: usize = 0;
    while i < v.len()
        invariant
            i <= v@.len(),
            command_views(r@) == command_views(v@).take(i as int),
        decreases v.len() - i,
    {
        let ghost before = command_views(r@);
        r.push(v[i].duplicate());
        assert(command_views(r@) =~= before.push(v@[i as int]@));
        i += 1;
        assert(command_views(r@) =~= command_views(v@).take(i as int));
    }
    assert(command_views(v@).take(v@.len() as int) =~= command_views(v@));
    r
}

/// Copies of the favourites.
fn keep_favorites(v: &Vec<Command>) -> (r: Vec<Command>)
    ensures
        command_views(r@) == favorites(command_views(v@)),
{
    let mut r: Vec<Command> = Vec::new();
    let mut i: usize = 0;
    while i < v.len()
        invariant
            i <= v@.len(),
            command_views(r@) == favorites(command_views(v@).take(i as int)),
        decreases v.len() - i,
    {
        let ghost before = command_views(r@);
        assert(command_views(v@).take(i + 1).drop_last() =~= command_views(v@).take(i as int));
        if v[i].favorite {
            r.push(v[i].duplicate());
            assert(command_views(r@) =~= before.push(v@[i as int]@));
        }
        i += 1;
    }
    assert(command_views(v@).take(v@.len() as int) =~= command_views(v@));
    r
}

/// Whether a command is in the collection `id`.
fn in_collection_id(c: &Command, id: &str) -> (r: bool)
    ensures
        r == c@.collection_ids.contains(id@),
{
    let mut i: usize = 0;
    while i < c.collection_ids.len()
        invariant
            i <= c.collection_ids@.len(),
            forall|j: int| 0 <= j < i ==> c.collection_ids@[j]@ != id@,
        decreases c.collection_ids.len() - i,
    {
        if str_eq(c.collection_ids[i].as_str(), id) {
            assert(c@.collection_ids[i as int] == id@);
            return true;
        }
        i += 1;
    }
    assert forall|j: int| 0 <= j < c@.collection_ids.len() implies c@.collection_ids[j] != id@ by {
        assert(c@.collection_ids[j] == c.collection_ids@[j]@);
    }
    false
}

/// Copies of the commands in the collection `id`.
fn keep_in_collection(v: &Vec<Command>, id: &str) -> (r: Vec<Command>)
    ensures
        command_views(r@) == in_collection(command_views(v@), id@),
{
    let mut r: Vec<Command> = Vec::new();
    let mut i: usize = 0;
    while i < v.len()
        invariant
            i <= v@.len(),
            command_views(r@) == in_collection(command_views(v@).take(i as int), id@),
        decreases v.len() - i,
    {
        let ghost before = command_views(r@);
        assert(command_views(v@).take(i + 1).drop_last() =~= command_views(v@).take(i as int));
        if in_collection_id(&v[i], id) {
            r.push(v[i].duplicate());
            assert(command_views(r@) =~= before.push(v@[i as int]@));
        }
        i += 1;
    }
    assert(command_views(v@).take(v@.len() as int) =~= command_views(v@));
    r
}

/// Copies of the commands recorded in the launch directory.
fn keep_run_here(v: &Vec<Command>) -> (r: Vec<Command>)
    ensures
        command_views(r@) == run_here(command_views(v@)),
{
    let mut r: Vec<Command> = Vec::new();
    let mut i: usize = 0;
    while i < v.len()
        invariant
            i <= v@.len(),
            command_views(r@) == run_here(command_views(v@).take(i as int)),
        decreases v.len() - i,
    {
        let ghost before = command_views(r@);
        assert(command_views(v@).take(i + 1).drop_last() =~= command_views(v@).take(i as int));
        if v[i].runs_here > 0 {
            r.push(v[i].duplicate());
            assert(command_views(r@) =~= before.push(v@[i as int]@));
        }
        i += 1;
    }
    assert(command_views(v@).take(v@.len() as int) =~= command_views(v@));
    r
}

/// The best score among a command's tags.
fn best_tag(c: &Command, q: &str) -> (r: Option<i64>)
    ensures
        r == best_tag_score(c@.tags, q@),
{
    let mut best: Option<i64> = None;
    let mut i: usize = 0;
    while i < c.tags.len()
        invariant
            i <= c.tags@.len(),
            best == best_tag_score(c@.tags.take(i as int), q@),
        decreases c.tags.len() - i,
    {
        assert(c@.tags.take(i + 1).drop_last() =~= c@.tags.take(i as int));
        assert(c@.tags.take(i + 1).last() == c.tags@[i as int]@);
        match fuzzy_indices(c.tags[i].as_str(), q) {
            Some((s, _)) => {
                best = match best {
                    Some(b) => if s > b {
                        Some(s)
                    } else {
                        Some(b)
                    },
                    None => Some(s),
                };
            },
            None => {},
        }
        i += 1;
    }
    assert(c@.tags.take(c.tags@.len() as int) =~= c@.tags);
    best
}

pub open spec fn marks_view(m: Option<(i64, Option<Vec<usize>>)>) -> Option<(i64, Option<Seq<usize>>)> {
    match m {
        Some((s, Some(v))) => Some((s, Some(v@))),
        Some((s, None)) => Some((s, None)),
        None => None,
    }
}

/// How a command matches the query.
fn match_command(c: &Command, q: &str) -> (r: Option<(i64, Option<Vec<usize>>)>)
    ensures
        marks_view(r) == command_match(c@, q@),
{
    let text = fuzzy_indices(c.text.as_str(), q);
    let tag = best_tag(c, q);
    match (text, tag) {
        (Some((ts, ti)), Some(gs)) => if ts >= gs {
            Some((ts, Some(ti)))
        } else {
            Some((gs, None))
        },
        (Some((ts, ti)), None) => Some((ts, Some(ti))),
        (None, Some(gs)) => Some((gs, None)),
        (None, None) => None,
    }
}

/// The ranking score, computed wide enough that it cannot overflow.
fn ranking_key(c: &Command, fuzzy: i64, now: i64) -> (r: i128)
    ensures
        r == ranking_score(c@, fuzzy as int, now as int),
{
    let usage: i128 = c.use_count as i128 * 2;
    let recency: i128 = match c.last_used {
        Some(ts) => {
            let age = now as i128 - ts as i128;
            if age < 3600 {
                50
            } else if age < 86400 {
                20
            } else if age < 604800 {
                10
            } else {
                0
            }
        },
        None => 0,
    };
    let favorite: i128 = if c.favorite {
        100
    } else {
        0
    };
    let here: i128 = if c.runs_here > 0 {
        60 + if c.runs_here < 20 {
            c.runs_here as i128
        } else {
            20
        }
    } else {
        0
    };
    fuzzy as i128 * 10 + usage + recency + favorite + here
}

/// A hit while ranking: its ranking score, use count, place in the list and
/// match score.
type HitKey = (i128, i32, usize, i64);

/// The hits that `keys` and `marks` stand for, taken from `base`.
pub open spec fn hit_views(
    base: Seq<CommandView>,
    keys: Seq<HitKey>,
    marks: Seq<Option<Seq<usize>>>,
) -> Seq<Hit> {
    Seq::new(keys.len(), |k: int| (base[keys[k].2 as int], keys[k].3, marks[k]))
}

/// The keys describe the hits they stand for.
pub open spec fn keys_fit(base: Seq<CommandView>, keys: Seq<HitKey>, now: int) -> bool {
    forall|k: int|
        0 <= k < keys.len() ==> {
            &&& (#[trigger] keys[k]).2 < base.len()
            &&& keys[k].0 == ranking_score(base[keys[k].2 as int], keys[k].3 as int, now)
            &&& keys[k].1 == base[keys[k].2 as int].use_count
        }
}

/// The matching commands of `base`, best first, with their highlights.
fn rank(base: &Vec<Command>, q: &str, now: i64) -> (r: (Vec<Command>, Vec<Option<Vec<usize>>>))
    ensures
        command_views(r.0@) == ranked(hits(command_views(base@), q@), now as int).map_values(
            |h: Hit| h.0,
        ),
        highlight_views(r.1@) == ranked(hits(command_views(base@), q@), now as int).map_values(
            |h: Hit| h.2,
        ),
{
    let ghost bv = command_views(base@);
    let mut keys: Vec<HitKey> = Vec::new();
    let mut marks: Vec<Option<Vec<usize>>> = Vec::new();
    let mut i: usize = 0;
    while i < base.len()
        invariant
            i <= base@.len(),
            bv == command_views(base@),
            keys@.len() == marks@.len(),
            keys_fit(bv, keys@, now as int),
            hit_views(bv, keys@, highlight_views(marks@)) == ranked(
                hits(bv.take(i as int), q@),
                now as int,
            ),
        decreases base.len() - i,
    {
        assert(bv.take(i + 1).drop_last() =~= bv.take(i as int));
        assert(bv.take(i + 1).last() == bv[i as int]);
        match match_command(&base[i], q) {
            Some((score, mark)) => {
                let key = ranking_key(&base[i], score, now);
                let uses = base[i].use_count;
                let ghost x: Hit = (bv[i as int], score, mark_view(mark));
                let ghost s = hit_views(bv, keys@, highlight_views(marks@));
                let mut p: usize = 0;
                while p < keys.len() && !(key > keys[p].0 || (key == keys[p].0 && uses
                    > keys[p].1))
                    invariant
                        p <= keys@.len(),
                        keys@.len() == s.len(),
                        keys_fit(bv, keys@, now as int),
                        s == hit_views(bv, keys@, highlight_views(marks@)),
                        key == ranking_score(bv[i as int], score as int, now as int),
                        uses == bv[i as int].use_count,
                        x.0 == bv[i as int],
                        x.1 == score,
                        forall|j: int| 0 <= j < p ==> !outranks(x, #[trigger] s[j], now as int),
                    decreases keys@.len() - p,
                {
                    assert(s[p as int] == (bv[keys@[p as int].2 as int], keys@[p as int].3,
                        highlight_views(marks@)[p as int]));
                    p += 1;
                }
                if p < keys.len() {
                    assert(s[p as int] == (bv[keys@[p as int].2 as int], keys@[p as int].3,
                        highlight_views(marks@)[p as int]));
                }
                proof {
                    lemma_insert_ranked_at(s, x, now as int, p as int);
                }
                keys.insert(p, (key, uses, i, score));
                marks.insert(p, mark);
                assert(hit_views(bv, keys@, highlight_views(marks@)) =~= s.take(p as int) + seq![x]
                    + s.skip(p as int));
                let ghost h = hits(bv.take(i as int), q@);
                assert(hits(bv.take(i + 1), q@) == h.push(x));
                assert(h.push(x).drop_last() =~= h);
            },
            None => {
                assert(hits(bv.take(i + 1), q@) == hits(bv.take(i as int), q@));
            },
        }
        i += 1;
    }
    assert(bv.take(base@.len() as int) =~= bv);
    let ghost all = hit_views(bv, keys@, highlight_views(marks@));
    let mut shown: Vec<Command> = Vec::new();
    let mut k: usize = 0;
    while k < keys.len()
        invariant
            k <= keys@.len(),
            bv == command_views(base@),
            keys_fit(bv, keys@, now as int),
            all == hit_views(bv, keys@, highlight_views(marks@)),
            command_views(shown@) == all.take(k as int).map_values(|h: Hit| h.0),
        decreases keys@.len() - k,
    {
        let ghost before = command_views(shown@);
        let pos = keys[k].2;
        shown.push(base[pos].duplicate());
        assert(all.take(k + 1).map_values(|h: Hit| h.0) =~= before.push(all[k as int].0));
        assert(command_views(shown@) =~= before.push(bv[pos as int]));
        k += 1;
    }
    assert(all.take(keys@.len() as int) =~= all);
    assert(highlight_views(marks@) =~= all.map_values(|h: Hit| h.2));
    (shown, marks)
}

// ---------------------------------------------------------------------------
// Panes, the directory scope, and the collections list
// ---------------------------------------------------------------------------

/// The pane Tab moves to.
pub open spec fn next_pane(view: ViewMode, pane: ActivePane) -> ActivePane {
    match (view, pane) {
        (ViewMode::Collections, ActivePane::CollectionsList) => ActivePane::CollectionItems,
        (ViewMode::Collections, ActivePane::CollectionItems) => ActivePane::Search,
        (ViewMode::Collections, ActivePane::Search) => ActivePane::CollectionsList,
        (_, ActivePane::Search) => ActivePane::History,
        (_, ActivePane::History) => ActivePane::Search,
        _ => ActivePane::Search,
    }
}

/// The pane below; on the Collections tab the search box and the list of
/// collections alternate.
pub open spec fn pane_below(view: ViewMode, pane: ActivePane) -> ActivePane {
    if view == ViewMode::Collections {
        match pane {
            ActivePane::Search => ActivePane::CollectionsList,
            ActivePane::CollectionsList => ActivePane::Search,
            ActivePane::CollectionItems => ActivePane::CollectionsList,
            _ => ActivePane::Search,
        }
    } else {
        match pane {
            ActivePane::Search => ActivePane::History,
            _ => ActivePane::Search,
        }
    }
}

/// The pane above.
pub open spec fn pane_above(view: ViewMode, pane: ActivePane) -> ActivePane {
    if view == ViewMode::Collections {
        pane_below(view, pane)
    } else {
        match pane {
            ActivePane::History => ActivePane::Search,
            _ => ActivePane::History,
        }
    }
}

pub open spec fn opt_string_view(o: Option<String>) -> Option<Seq<char>> {
    match o {
        Some(s) => Some(s@),
        None => None,
    }
}

pub open spec fn opt_str_view(o: Option<&str>) -> Option<Seq<char>> {
    match o {
        Some(s) => Some(s@),
        None => None,
    }
}

/// The pieces that are not empty, in order.
pub open spec fn nonempty_pieces(p: Seq<Seq<char>>) -> Seq<Seq<char>>
    decreases p.len(),
{
    if p.len() == 0 {
        p
    } else if p.last().len() > 0 {
        nonempty_pieces(p.drop_last()).push(p.last())
    } else {
        nonempty_pieces(p.drop_last())
    }
}

/// A path with a leading home directory written as `~`.
pub open spec fn home_relative(cwd: Seq<char>, home: Option<Seq<char>>) -> Seq<char> {
    match home {
        Some(h) => if starts_with(cwd, h) {
            "~"@ + cwd.skip(h.len() as int)
        } else {
            cwd
        },
        None => cwd,
    }
}

/// A directory as the status line shows it: `?` when unknown, `~` for home,
/// and `.../` with the last two components for anything deeper than two.
pub open spec fn cwd_shown(cwd: Option<Seq<char>>, home: Option<Seq<char>>) -> Seq<char> {
    match cwd {
        None => "?"@,
        Some(c) => if home == Some(c) {
            "~"@
        } else {
            let path = home_relative(c, home);
            let parts = nonempty_pieces(split_char(path, '/'));
            if parts.len() > 2 {
                ".../"@ + parts[parts.len() - 2] + "/"@ + parts[parts.len() - 1]
            } else {
                path
            }
        },
    }
}

/// Whether some command was recorded in the launch directory.
pub open spec fn any_here(st: AppState) -> bool {
    exists|i: int| 0 <= i < st.commands@.len() && (#[trigger] st.commands@[i]).runs_here > 0
}

/// One up, stopping at the first.
pub open spec fn stepped_up(i: usize) -> usize {
    if i > 0 {
        (i - 1) as usize
    } else {
        0
    }
}

/// One down in a list of `n`, wrapping to the first.
pub open spec fn wrapped_down(i: usize, n: int) -> usize {
    ((i + 1) % n) as usize
}

/// A page down in a list of `n`, stopping at the last.
pub open spec fn paged_down(i: usize, page: int, n: int) -> usize {
    (if i + page < n - 1 {
        i + page
    } else {
        n - 1
    }) as usize
}

/// A page up, stopping at the first.
pub open spec fn paged_up(i: usize, page: int) -> usize {
    (if i >= page {
        i - page
    } else {
        0
    }) as usize
}

/// The last index of a list of `n`.
pub open spec fn last_index(n: int) -> usize {
    (n - 1) as usize
}

/// `ls` with row `i` selected.
pub open spec fn selecting(ls: ListState, i: usize) -> ListState {
    ListState { selected: Some(i), ..ls }
}

/// `st` with the directory scope set to `on`.
pub open spec fn with_scope(st: AppState, on: bool) -> AppState {
    AppState { scope_to_cwd: on, ..st }
}

/// `st` with another collection selected.
pub open spec fn with_collection(st: AppState, index: usize, ls: ListState) -> AppState {
    AppState { selected_collection_index: index, collection_list_state: ls, ..st }
}

/// Toggling the scope took `old` to `new` and said `msg`: with no known
/// directory, or nothing recorded in it when scoping in, nothing changes;
/// else the scope flips, the list is recomputed at `now` with its top
/// selected, and the message names the directory scoped to.
pub open spec fn scope_toggled(
    old: AppState,
    new: AppState,
    msg: Seq<char>,
    now: int,
    home: Option<Seq<char>>,
) -> bool {
    if old.cwd is None {
        new == old && msg == "Current directory unknown"@
    } else if !old.scope_to_cwd && !any_here(old) {
        new == old && msg == "Nothing recorded in this directory yet"@
    } else {
        &&& relisted(with_scope(old, !old.scope_to_cwd), AppState { list_state: old.list_state, ..new }, now)
        &&& new.selected_index == 0
        &&& new.list_state == (ListState { selected: Some(0), ..old.list_state })
        &&& msg == if !old.scope_to_cwd {
            "Scoped to "@ + cwd_shown(opt_string_view(old.cwd), home)
        } else {
            "Showing all directories"@
        }
    }
}

/// The pieces of `v` that are not empty.
fn keep_nonempty(v: &Vec<Vec<char>>) -> (r: Vec<Vec<char>>)
    ensures
        r@.len() == nonempty_pieces(v@.map_values(|p: Vec<char>| p@)).len(),
        forall|i: int| 0 <= i < r@.len() ==> #[trigger] r@[i]@ == nonempty_pieces(
            v@.map_values(|p: Vec<char>| p@),
        )[i],
{
    let ghost pv = v@.map_values(|p: Vec<char>| p@);
    let mut r: Vec<Vec<char>> = Vec::new();
    let mut i: usize = 0;
    while i < v.len()
        invariant
            i <= v@.len(),
            pv == v@.map_values(|p: Vec<char>| p@),
            r@.len() == nonempty_pieces(pv.take(i as int)).len(),
            forall|k: int| 0 <= k < r@.len() ==> #[trigger] r@[k]@ == nonempty_pieces(
                pv.take(i as int),
            )[k],
        decreases v.len() - i,
    {
        assert(pv.take(i + 1).drop_last() =~= pv.take(i as int));
        assert(pv.take(i + 1).last() == v@[i as int]@);
        if v[i].len() > 0 {
            let piece = crate::text::slice_to_vec(v[i].as_slice(), 0, v[i].len());
            assert(piece@ =~= v@[i as int]@);
            r.push(piece);
        }
        i += 1;
    }
    assert(pv.take(v@.len() as int) =~= pv);
    r
}

/// A known directory, shortened for display.
fn shorten_path(cwd: &str, home: Option<&str>) -> (r: String)
    ensures
        r@ == cwd_shown(Some(cwd@), opt_str_view(home)),
{
    if let Some(h) = home {
        if str_eq(cwd, h) {
            return owned("~");
        }
    }
    let c = chars_of(cwd);
    let path: Vec<char> = match home {
        Some(h) => {
            let hv = chars_of(h);
            if starts_with_chars(c.as_slice(), hv.as_slice()) {
                let mut p: Vec<char> = Vec::new();
                p.push('~');
                let rest = crate::text::slice_to_vec(c.as_slice(), hv.len(), c.len());
                let mut k: usize = 0;
                while k < rest.len()
                    invariant
                        k <= rest@.len(),
                        p@ == seq!['~'] + rest@.take(k as int),
                    decreases rest.len() - k,
                {
                    p.push(rest[k]);
                    k += 1;
                    assert(p@ =~= seq!['~'] + rest@.take(k as int));
                }
                assert(rest@.take(rest@.len() as int) =~= rest@);
                proof {
                    reveal_strlit("~");
                }
                assert(p@ =~= "~"@ + cwd@.skip(h@.len() as int));
                p
            } else {
                c
            }
        },
        None => c,
    };
    assert(path@ == home_relative(cwd@, opt_str_view(home)));
    let pieces = split_chars(path.as_slice(), '/');
    assert(pieces@.map_values(|p: Vec<char>| p@) =~= split_char(path@, '/'));
    let parts = keep_nonempty(&pieces);
    if parts.len() > 2 {
        let n = parts.len();
        let mut r = owned(".../");
        let a = string_of(parts[n - 2].as_slice());
        push_str(&mut r, a.as_str());
        push_str(&mut r, "/");
        let b = string_of(parts[n - 1].as_slice());
        push_str(&mut r, b.as_str());
        r
    } else {
        string_of(path.as_slice())
    }
}

// ---------------------------------------------------------------------------
// The state of the list
// ---------------------------------------------------------------------------

/// Which row of a list widget is selected, and the first row drawn.
#[derive(Clone, Copy, Debug, PartialEq, Eq, Structural)]
pub struct ListState {
    pub offset: usize,
    pub selected: Option<usize>,
}

impl ListState {
    /// Nothing selected, drawn from the top.
    pub fn new() -> (r: ListState)
        ensures
            r == (ListState { offset: 0, selected: None }),
    {
        ListState { offset: 0, selected: None }
    }

    /// A list with `index` selected, drawn from the top.
    pub fn with_selected(index: Option<usize>) -> (r: ListState)
        ensures
            r == (ListState { offset: 0, selected: index }),
    {
        ListState { offset: 0, selected: index }
    }

    /// Selects `index`; selecting nothing also scrolls back to the top.
    pub fn select(&mut self, index: Option<usize>)
        ensures
            final(self).selected == index,
            final(self).offset == (if index is None {
                0
            } else {
                old(self).offset
            }),
    {
        self.selected = index;
        if index.is_none() {
            self.offset = 0;
        }
    }

    /// The selected row, if any.
    pub fn selected(&self) -> (r: Option<usize>)
        ensures
            r == self.selected,
    {
        self.selected
    }
}

/// The commands, the query, and what the list shows of them.
pub struct AppState {
    /// Every known command, most recent first.
    pub commands: Vec<Command>,
    /// What the list shows, in display order.
    pub filtered: Vec<Command>,
    /// For each shown command, the characters of its text the query matched,
    /// or nothing when only a tag matched or there is no query.
    pub matched_indices: Vec<Option<Vec<usize>>>,
    pub selected_index: usize,
    pub search_query: String,
    pub active_pane: ActivePane,
    pub view_mode: ViewMode,
    pub show_details: bool,
    pub terminal_height: u16,
    pub collections: Vec<Collection>,
    pub selected_collection_index: usize,
    /// The commands of the selected collection, when the Collections tab is
    /// on show.
    pub collection_commands: Vec<Command>,
    pub list_state: ListState,
    pub collection_list_state: ListState,
    /// The directory ctrlr was launched from, when it could be read.
    pub cwd: Option<String>,
    /// Restricts the list to commands recorded in `cwd`.
    pub scope_to_cwd: bool,
    /// Where typed text goes.
    pub input_mode: InputMode,
    /// The text of the tag editor.
    pub tag_input: String,
    /// The highlighted tag suggestion.
    pub tag_selected_index: usize,
    /// The tag chip the cursor is on, when it is on one.
    pub tag_cursor_index: Option<usize>,
}

/// The id of the selected collection, if the index points at one.
pub open spec fn selected_collection_id(st: AppState) -> Option<Seq<char>> {
    if st.selected_collection_index < st.collections@.len() {
        Some(st.collections@[st.selected_collection_index as int].id@)
    } else {
        None
    }
}

/// The commands the current tab lists before the query is applied.
pub open spec fn listed_now(st: AppState) -> Seq<CommandView> {
    listed(command_views(st.commands@), st.view_mode, selected_collection_id(st), st.scope_to_cwd)
}

/// `new` is `old` with the list recomputed at time `now`: the shown commands
/// and their highlights follow the tab and the query, the Collections tab
/// refreshes the collection's commands, and nothing else changes but the
/// selected row.
pub open spec fn relisted(old: AppState, new: AppState, now: int) -> bool {
    &&& new == (AppState {
        filtered: new.filtered,
        matched_indices: new.matched_indices,
        selected_index: new.selected_index,
        collection_commands: new.collection_commands,
        ..old
    })
    &&& command_views(new.filtered@) == shown(listed_now(old), old.search_query@, now)
    &&& highlight_views(new.matched_indices@) == highlights(
        listed_now(old),
        old.search_query@,
        now,
    )
    &&& if old.view_mode == ViewMode::Collections {
        command_views(new.collection_commands@) == collection_list(
            command_views(old.commands@),
            selected_collection_id(old),
        )
    } else {
        new.collection_commands == old.collection_commands
    }
}

/// `relisted`, with the selection going to the top when there is a query.
pub open spec fn refiltered(old: AppState, new: AppState, now: int) -> bool {
    &&& relisted(old, new, now)
    &&& new.selected_index == (if old.search_query@.len() > 0 {
        0
    } else {
        old.selected_index
    })
}

/// `st` with the query `q`.
pub open spec fn with_query(st: AppState, q: String) -> AppState {
    AppState { search_query: q, ..st }
}

/// `st` with the selection of `from`.
pub open spec fn with_selection_of(st: AppState, from: AppState) -> AppState {
    AppState { selected_index: from.selected_index, list_state: from.list_state, ..st }
}

/// Seconds since the Unix epoch, by the system clock; 0 when the clock is set
/// before it.
///
/// Reads `SystemTime::now`; the answer is the time, so nothing is promised of
/// it.
#[verifier::external_body]
fn unix_now() -> (r: i64) {
    std::time::SystemTime::now().duration_since(std::time::UNIX_EPOCH).map(
        |d| d.as_secs() as i64,
    ).unwrap_or(0)
}

/// `None` for every row.
fn no_marks(n: usize) -> (r: Vec<Option<Vec<usize>>>)
    ensures
        highlight_views(r@) == Seq::new(n as nat, |i: int| None::<Seq<usize>>),
{
    let mut r: Vec<Option<Vec<usize>>> = Vec::new();
    let mut i: usize = 0;
    while i < n
        invariant
            i <= n,
            highlight_views(r@) == Seq::new(i as nat, |k: int| None::<Seq<usize>>),
        decreases n - i,
    {
        let ghost before = highlight_views(r@);
        r.push(None);
        assert(highlight_views(r@) =~= before.push(None));
        i += 1;
        assert(highlight_views(r@) =~= Seq::new(i as nat, |k: int| None::<Seq<usize>>));
    }
    r
}

/// How many rows a page moves: half the list area, at least five.
pub open spec fn page_size(terminal_height: u16) -> int {
    let h = if terminal_height >= 4 {
        terminal_height - 4
    } else {
        0
    };
    if h / 2 > 5 {
        h / 2
    } else {
        5
    }
}

fn page_rows(terminal_height: u16) -> (r: usize)
    ensures
        r == page_size(terminal_height),
{
    let h = terminal_height.saturating_sub(4) / 2;
    if h > 5 {
        h as usize
    } else {
        5
    }
}

impl AppState {
    /// A picker over `commands`: all of them listed, the first selected, the
    /// search box focused on the History tab.
    pub fn new(commands: Vec<Command>) -> (r: AppState)
        ensures
            r.commands == commands,
            command_views(r.filtered@) == command_views(commands@),
            highlight_views(r.matched_indices@) == Seq::new(
                commands@.len(),
                |i: int| None::<Seq<usize>>,
            ),
            r.selected_index == 0,
            r.search_query@.len() == 0,
            r.active_pane == ActivePane::Search,
            r.view_mode == ViewMode::History,
            r.show_details,
            r.terminal_height == 24,
            r.collections@.len() == 0,
            r.selected_collection_index == 0,
            r.collection_commands@.len() == 0,
            r.list_state == (ListState { offset: 0, selected: Some(0) }),
            r.collection_list_state == (ListState { offset: 0, selected: Some(0) }),
            r.cwd is None,
            !r.scope_to_cwd,
            r.input_mode == InputMode::Normal,
            r.tag_input@.len() == 0,
            r.tag_selected_index == 0,
            r.tag_cursor_index is None,
    {
        let filtered = copy_commands(&commands);
        let matched_indices = no_marks(commands.len());
        AppState {
            commands,
            filtered,
            matched_indices,
            selected_index: 0,
            search_query: String::new(),
            active_pane: ActivePane::Search,
            view_mode: ViewMode::History,
            show_details: true,
            terminal_height: 24,
            collections: Vec::new(),
            selected_collection_index: 0,
            collection_commands: Vec::new(),
            list_state: ListState::with_selected(Some(0)),
            collection_list_state: ListState::with_selected(Some(0)),
            cwd: None,
            scope_to_cwd: false,
            input_mode: InputMode::Normal,
            tag_input: String::new(),
            tag_selected_index: 0,
            tag_cursor_index: None,
        }
    }

    /// The id of the selected collection.
    fn selected_collection_id(&self) -> (r: Option<&str>)
        ensures
            match r {
                Some(id) => selected_collection_id(*self) == Some(id@),
                None => selected_collection_id(*self) is None,
            },
    {
        if self.selected_collection_index < self.collections.len() {
            Some(self.collections[self.selected_collection_index].id.as_str())
        } else {
            None
        }
    }

    /// Recomputes the list as of `now`, in seconds since the epoch.
    pub fn filter_commands_at(&mut self, now: i64)
        ensures
            refiltered(*old(self), *final(self), now as int),
    {
        let ghost before = *self;
        let base0: Vec<Command> = match self.view_mode {
            ViewMode::History => copy_commands(&self.commands),
            ViewMode::Favorites => keep_favorites(&self.commands),
            ViewMode::Collections => {
                let cc = match self.selected_collection_id() {
                    Some(id) => keep_in_collection(&self.commands, id),
                    None => Vec::new(),
                };
                self.collection_commands = cc;
                copy_commands(&self.collection_commands)
            },
        };
        let base = if self.scope_to_cwd {
            keep_run_here(&base0)
        } else {
            base0
        };
        assert(command_views(base@) == listed_now(before));
        if self.search_query.as_str().is_empty() {
            proof {
                assert(self.search_query@.len() == 0);
            }
            self.matched_indices = no_marks(base.len());
            self.filtered = base;
        } else {
            let (shown, marks) = rank(&base, self.search_query.as_str(), now);
            self.filtered = shown;
            self.matched_indices = marks;
            self.selected_index = 0;
        }
    }

    /// Recomputes the list as of the system clock.
    pub fn filter_commands(&mut self)
        ensures
            exists|now: int| #[trigger] refiltered(*old(self), *final(self), now),
    {
        let now = unix_now();
        self.filter_commands_at(now);
    }

    /// Selects the first row.
    pub fn go_to_top(&mut self)
        ensures
            *final(self) == (AppState {
                selected_index: 0,
                list_state: ListState { selected: Some(0), ..old(self).list_state },
                ..*old(self)
            }),
    {
        self.selected_index = 0;
        self.list_state.select(Some(0));
    }

    /// Selects the last row, if there is one.
    pub fn go_to_bottom(&mut self)
        ensures
            old(self).filtered@.len() == 0 ==> *final(self) == *old(self),
            old(self).filtered@.len() > 0 ==> *final(self) == (AppState {
                selected_index: (old(self).filtered@.len() - 1) as usize,
                list_state: ListState {
                    selected: Some((old(self).filtered@.len() - 1) as usize),
                    ..old(self).list_state
                },
                ..*old(self)
            }),
    {
        if self.filtered.len() > 0 {
            self.selected_index = self.filtered.len() - 1;
            self.list_state.select(Some(self.selected_index));
        }
    }

    /// The row above, wrapping to the last.
    pub fn navigate_up(&mut self)
        ensures
            *final(self) == (AppState {
                selected_index: (if old(self).selected_index == 0 {
                    if old(self).filtered@.len() > 0 {
                        old(self).filtered@.len() - 1
                    } else {
                        0
                    }
                } else {
                    old(self).selected_index - 1
                }) as usize,
                ..*old(self)
            }),
    {
        self.selected_index = if self.selected_index == 0 {
            self.filtered.len().saturating_sub(1)
        } else {
            self.selected_index - 1
        };
    }

    /// The row below, wrapping to the first.
    pub fn navigate_down(&mut self)
        requires
            old(self).selected_index < usize::MAX,
        ensures
            *final(self) == (AppState {
                selected_index: ((old(self).selected_index + 1) % (if old(self).filtered@.len() > 0 {
                    old(self).filtered@.len() as int
                } else {
                    1
                })) as usize,
                ..*old(self)
            }),
    {
        let n = if self.filtered.len() > 1 {
            self.filtered.len()
        } else {
            1
        };
        self.selected_index = (self.selected_index + 1) % n;
    }

    /// A page further down, stopping at the last row.
    pub fn navigate_page_down(&mut self)
        requires
            old(self).filtered@.len() > 0 ==> old(self).selected_index + page_size(
                old(self).terminal_height,
            ) <= usize::MAX,
        ensures
            old(self).filtered@.len() == 0 ==> *final(self) == *old(self),
            old(self).filtered@.len() > 0 ==> *final(self) == (AppState {
                selected_index: (if old(self).selected_index + page_size(old(self).terminal_height)
                    < old(self).filtered@.len() - 1 {
                    old(self).selected_index + page_size(old(self).terminal_height)
                } else {
                    old(self).filtered@.len() - 1
                }) as usize,
                ..*old(self)
            }),
    {
        if self.filtered.len() == 0 {
            return;
        }
        let target = self.selected_index + page_rows(self.terminal_height);
        let last = self.filtered.len() - 1;
        self.selected_index = if target < last {
            target
        } else {
            last
        };
    }

    /// A page further up, stopping at the first row.
    pub fn navigate_page_up(&mut self)
        ensures
            *final(self) == (AppState {
                selected_index: (if old(self).selected_index >= page_size(old(self).terminal_height) {
                    old(self).selected_index - page_size(old(self).terminal_height)
                } else {
                    0
                }) as usize,
                ..*old(self)
            }),
    {
        self.selected_index = self.selected_index.saturating_sub(page_rows(self.terminal_height));
    }

    /// Types a character into the query and refilters.
    pub fn add_to_search(&mut self, c: char)
        ensures
            final(self).search_query@ == old(self).search_query@.push(c),
            exists|now: int|
                #[trigger] refiltered(
                    with_query(*old(self), final(self).search_query),
                    *final(self),
                    now,
                ),
    {
        crate::text::push_char(&mut self.search_query, c);
        self.filter_commands();
    }

    /// Deletes the last character of the query, if any, and refilters.
    pub fn remove_from_search(&mut self)
        ensures
            final(self).search_query@ == (if old(self).search_query@.len() > 0 {
                old(self).search_query@.drop_last()
            } else {
                old(self).search_query@
            }),
            exists|now: int|
                #[trigger] refiltered(
                    with_query(*old(self), final(self).search_query),
                    *final(self),
                    now,
                ),
    {
        let v = crate::text::chars_of(self.search_query.as_str());
        if v.len() > 0 {
            let kept = crate::text::slice_to_vec(v.as_slice(), 0, v.len() - 1);
            self.search_query = crate::text::string_of(kept.as_slice());
            assert(self.search_query@ =~= old(self).search_query@.drop_last());
        }
        self.filter_commands();
    }

    /// Empties the query, brings the full list back and selects its top.
    pub fn clear_search(&mut self)
        ensures
            final(self).search_query@.len() == 0,
            final(self).selected_index == 0,
            final(self).list_state == (ListState { selected: Some(0), ..old(self).list_state }),
            exists|now: int|
                #[trigger] refiltered(
                    with_query(*old(self), final(self).search_query),
                    with_selection_of(*final(self), *old(self)),
                    now,
                ),
    {
        self.search_query = String::new();
        let ghost mid = *self;
        self.filter_commands();
        let ghost done = *self;
        self.selected_index = 0;
        self.list_state.select(Some(0));
        assert(done == with_selection_of(*self, *old(self)));
    }

    /// Esc: clears a query and stays; with no query it asks to quit.
    pub fn handle_esc(&mut self) -> (quit: bool)
        ensures
            quit == (old(self).search_query@.len() == 0),
            quit ==> *final(self) == *old(self),
            !quit ==> final(self).search_query@.len() == 0 && final(self).selected_index == 0
                && exists|now: int|
                #[trigger] refiltered(
                    with_query(*old(self), final(self).search_query),
                    with_selection_of(*final(self), *old(self)),
                    now,
                ),
    {
        if self.search_query.as_str().is_empty() {
            true
        } else {
            self.clear_search();
            false
        }
    }

    /// Tab moves the keyboard to the next pane.
    pub fn switch_pane(&mut self)
        ensures
            *final(self) == (AppState {
                active_pane: next_pane(old(self).view_mode, old(self).active_pane),
                ..*old(self)
            }),
    {
        self.active_pane = match (self.view_mode, self.active_pane) {
            (ViewMode::Collections, ActivePane::CollectionsList) => ActivePane::CollectionItems,
            (ViewMode::Collections, ActivePane::CollectionItems) => ActivePane::Search,
            (ViewMode::Collections, ActivePane::Search) => ActivePane::CollectionsList,
            (_, ActivePane::Search) => ActivePane::History,
            (_, ActivePane::History) => ActivePane::Search,
            _ => ActivePane::Search,
        };
    }

    /// Moves the keyboard to the pane below.
    pub fn pane_down(&mut self)
        ensures
            *final(self) == (AppState {
                active_pane: pane_below(old(self).view_mode, old(self).active_pane),
                ..*old(self)
            }),
    {
        if self.view_mode == ViewMode::Collections {
            self.active_pane = match self.active_pane {
                ActivePane::Search => ActivePane::CollectionsList,
                ActivePane::CollectionsList => ActivePane::Search,
                ActivePane::CollectionItems => ActivePane::CollectionsList,
                _ => ActivePane::Search,
            };
        } else {
            self.active_pane = match self.active_pane {
                ActivePane::Search => ActivePane::History,
                _ => ActivePane::Search,
            };
        }
    }

    /// Moves the keyboard to the pane above.
    pub fn pane_up(&mut self)
        ensures
            *final(self) == (AppState {
                active_pane: pane_above(old(self).view_mode, old(self).active_pane),
                ..*old(self)
            }),
    {
        if self.view_mode == ViewMode::Collections {
            self.active_pane = match self.active_pane {
                ActivePane::Search => ActivePane::CollectionsList,
                ActivePane::CollectionsList => ActivePane::Search,
                ActivePane::CollectionItems => ActivePane::CollectionsList,
                _ => ActivePane::Search,
            };
        } else {
            self.active_pane = match self.active_pane {
                ActivePane::History => ActivePane::Search,
                _ => ActivePane::History,
            };
        }
    }

    /// From a collection's commands back to the list of collections.
    pub fn pane_left(&mut self)
        ensures
            *final(self) == (if old(self).view_mode == ViewMode::Collections
                && old(self).active_pane == ActivePane::CollectionItems {
                AppState { active_pane: ActivePane::CollectionsList, ..*old(self) }
            } else {
                *old(self)
            }),
    {
        if self.view_mode == ViewMode::Collections && self.active_pane
            == ActivePane::CollectionItems {
            self.active_pane = ActivePane::CollectionsList;
        }
    }

    /// From the list of collections into the selected one's commands.
    pub fn pane_right(&mut self)
        ensures
            *final(self) == (if old(self).view_mode == ViewMode::Collections
                && old(self).active_pane == ActivePane::CollectionsList {
                AppState { active_pane: ActivePane::CollectionItems, ..*old(self) }
            } else {
                *old(self)
            }),
    {
        if self.view_mode == ViewMode::Collections && self.active_pane
            == ActivePane::CollectionsList {
            self.active_pane = ActivePane::CollectionItems;
        }
    }

    /// The text of the selected command.
    pub fn selected_command(&self) -> (r: Option<String>)
        ensures
            match r {
                Some(t) => self.selected_index < self.filtered@.len() && t@
                    == self.filtered@[self.selected_index as int].text@,
                None => self.selected_index >= self.filtered@.len(),
            },
    {
        if self.selected_index < self.filtered.len() {
            Some(self.filtered[self.selected_index].text.clone())
        } else {
            None
        }
    }

    /// The selected command.
    pub fn active_command(&self) -> (r: Option<&Command>)
        ensures
            match r {
                Some(c) => self.selected_index < self.filtered@.len() && *c
                    == self.filtered@[self.selected_index as int],
                None => self.selected_index >= self.filtered@.len(),
            },
    {
        if self.selected_index < self.filtered.len() {
            Some(&self.filtered[self.selected_index])
        } else {
            None
        }
    }

    /// The tags of the selected command; none when nothing is selected.
    pub fn selected_command_tags(&self) -> (r: Vec<String>)
        ensures
            views(r@) == (if self.selected_index < self.filtered@.len() {
                self.filtered@[self.selected_index as int]@.tags
            } else {
                Seq::empty()
            }),
    {
        if self.selected_index < self.filtered.len() {
            crate::text::copy_strings(&self.filtered[self.selected_index].tags)
        } else {
            let r: Vec<String> = Vec::new();
            assert(views(r@) =~= Seq::empty());
            r
        }
    }

    /// The current directory, shortened for display with `home` as the home
    /// directory.
    pub fn cwd_display_with(&self, home: Option<&str>) -> (r: String)
        ensures
            r@ == cwd_shown(opt_string_view(self.cwd), opt_str_view(home)),
    {
        match &self.cwd {
            None => owned("?"),
            Some(cwd) => shorten_path(cwd.as_str(), home),
        }
    }

    /// The current directory, shortened for display: `~` for home, and only
    /// the last two components of anything longer.
    pub fn cwd_display(&self) -> (r: String)
        ensures
            exists|home: Option<Seq<char>>|
                r@ == #[trigger] cwd_shown(opt_string_view(self.cwd), home),
    {
        let home = crate::paths::home_dir();
        let h: Option<&str> = match &home {
            Some(x) => Some(x.as_str()),
            None => None,
        };
        self.cwd_display_with(h)
    }

    /// Whether any command was recorded in the launch directory.
    fn any_run_here(&self) -> (r: bool)
        ensures
            r == any_here(*self),
    {
        let mut i: usize = 0;
        while i < self.commands.len()
            invariant
                i <= self.commands@.len(),
                forall|j: int| 0 <= j < i ==> self.commands@[j].runs_here <= 0,
            decreases self.commands.len() - i,
        {
            if self.commands[i].runs_here > 0 {
                return true;
            }
            i += 1;
        }
        false
    }

    /// Flips the directory scope as of `now`, with `home` as the home
    /// directory, and returns the message to show for it.
    pub fn toggle_cwd_scope_with(&mut self, now: i64, home: Option<&str>) -> (msg: String)
        ensures
            scope_toggled(*old(self), *final(self), msg@, now as int, opt_str_view(home)),
    {
        if self.cwd.is_none() {
            return owned("Current directory unknown");
        }
        if !self.scope_to_cwd && !self.any_run_here() {
            return owned("Nothing recorded in this directory yet");
        }
        self.scope_to_cwd = !self.scope_to_cwd;
        self.filter_commands_at(now);
        self.selected_index = 0;
        self.list_state.select(Some(0));
        if self.scope_to_cwd {
            let mut m = owned("Scoped to ");
            let shown = self.cwd_display_with(home);
            push_str(&mut m, shown.as_str());
            m
        } else {
            owned("Showing all directories")
        }
    }

    /// Flips the directory scope and returns the message to show for it.
    ///
    /// Refuses when nothing is recorded for this directory rather than
    /// scoping the list down to nothing.
    pub fn toggle_cwd_scope(&mut self) -> (msg: String)
        ensures
            exists|now: int, home: Option<Seq<char>>|
                #[trigger] scope_toggled(*old(self), *final(self), msg@, now, home),
    {
        let now = unix_now();
        let home = crate::paths::home_dir();
        let h: Option<&str> = match &home {
            Some(x) => Some(x.as_str()),
            None => None,
        };
        self.toggle_cwd_scope_with(now, h)
    }

    /// The selected collection.
    pub fn selected_collection(&self) -> (r: Option<&Collection>)
        ensures
            match r {
                Some(c) => self.selected_collection_index < self.collections@.len() && *c
                    == self.collections@[self.selected_collection_index as int],
                None => self.selected_collection_index >= self.collections@.len(),
            },
    {
        if self.selected_collection_index < self.collections.len() {
            Some(&self.collections[self.selected_collection_index])
        } else {
            None
        }
    }

    /// The collection above, and its commands.
    pub fn navigate_collection_up(&mut self)
        ensures
            exists|now: int|
                #[trigger] refiltered(
                    with_collection(
                        *old(self),
                        stepped_up(old(self).selected_collection_index),
                        old(self).collection_list_state,
                    ),
                    *final(self),
                    now,
                ),
    {
        self.selected_collection_index = self.selected_collection_index.saturating_sub(1);
        self.filter_commands();
    }

    /// The collection below, wrapping to the first, and its commands.
    pub fn navigate_collection_down(&mut self)
        requires
            old(self).collections@.len() > 0 ==> old(self).selected_collection_index < usize::MAX,
        ensures
            old(self).collections@.len() == 0 ==> *final(self) == *old(self),
            old(self).collections@.len() > 0 ==> exists|now: int|
                #[trigger] refiltered(
                    with_collection(
                        *old(self),
                        wrapped_down(
                            old(self).selected_collection_index,
                            old(self).collections@.len() as int,
                        ),
                        old(self).collection_list_state,
                    ),
                    *final(self),
                    now,
                ),
    {
        if self.collections.len() > 0 {
            self.selected_collection_index = (self.selected_collection_index + 1)
                % self.collections.len();
            self.filter_commands();
        }
    }

    /// A page of collections further down, stopping at the last.
    pub fn navigate_collection_page_down(&mut self)
        requires
            old(self).collections@.len() > 0 ==> old(self).selected_collection_index + page_size(
                old(self).terminal_height,
            ) <= usize::MAX,
        ensures
            old(self).collections@.len() == 0 ==> *final(self) == *old(self),
            old(self).collections@.len() > 0 ==> exists|now: int|
                #[trigger] refiltered(
                    with_collection(
                        *old(self),
                        paged_down(
                            old(self).selected_collection_index,
                            page_size(old(self).terminal_height),
                            old(self).collections@.len() as int,
                        ),
                        old(self).collection_list_state,
                    ),
                    *final(self),
                    now,
                ),
    {
        if self.collections.len() == 0 {
            return;
        }
        let target = self.selected_collection_index + page_rows(self.terminal_height);
        let last = self.collections.len() - 1;
        self.selected_collection_index = if target < last {
            target
        } else {
            last
        };
        self.filter_commands();
    }

    /// A page of collections further up, stopping at the first.
    pub fn navigate_collection_page_up(&mut self)
        ensures
            old(self).collections@.len() == 0 ==> *final(self) == *old(self),
            old(self).collections@.len() > 0 ==> exists|now: int|
                #[trigger] refiltered(
                    with_collection(
                        *old(self),
                        paged_up(
                            old(self).selected_collection_index,
                            page_size(old(self).terminal_height),
                        ),
                        old(self).collection_list_state,
                    ),
                    *final(self),
                    now,
                ),
    {
        if self.collections.len() == 0 {
            return;
        }
        self.selected_collection_index = self.selected_collection_index.saturating_sub(
            page_rows(self.terminal_height),
        );
        self.filter_commands();
    }

    /// The first collection, and its commands.
    pub fn go_to_collection_top(&mut self)
        ensures
            exists|now: int|
                #[trigger] refiltered(
                    with_collection(
                        *old(self),
                        0,
                        selecting(old(self).collection_list_state, 0),
                    ),
                    *final(self),
                    now,
                ),
    {
        self.selected_collection_index = 0;
        self.collection_list_state.select(Some(0));
        self.filter_commands();
    }

    /// The last collection, and its commands.
    pub fn go_to_collection_bottom(&mut self)
        ensures
            old(self).collections@.len() == 0 ==> *final(self) == *old(self),
            old(self).collections@.len() > 0 ==> exists|now: int|
                #[trigger] refiltered(
                    with_collection(
                        *old(self),
                        last_index(old(self).collections@.len() as int),
                        selecting(
                            old(self).collection_list_state,
                            last_index(old(self).collections@.len() as int),
                        ),
                    ),
                    *final(self),
                    now,
                ),
    {
        if self.collections.len() > 0 {
            self.selected_collection_index = self.collections.len() - 1;
            self.collection_list_state.select(Some(self.selected_collection_index));
            self.filter_commands();
        }
    }
}

/// Scoping the list to the launch directory and back shows the whole tab
/// again.
pub proof fn law_scope_toggles_back(
    a: AppState,
    b: AppState,
    c: AppState,
    m1: Seq<char>,
    m2: Seq<char>,
    n1: int,
    n2: int,
    h1: Option<Seq<char>>,
    h2: Option<Seq<char>>,
)
    requires
        scope_toggled(a, b, m1, n1, h1),
        scope_toggled(b, c, m2, n2, h2),
        a.cwd is Some,
        !a.scope_to_cwd,
        any_here(a),
    ensures
        b.scope_to_cwd,
        !c.scope_to_cwd,
        command_views(b.filtered@) == shown(
            run_here(listed_now(a)),
            a.search_query@,
            n1,
        ),
        command_views(c.filtered@) == shown(listed_now(a), a.search_query@, n2),
        m2 == "Showing all directories"@,
{
    assert(listed_now(with_scope(a, true)) == run_here(listed_now(a)));
    assert(b.cwd == a.cwd);
    assert(selected_collection_id(with_scope(b, false)) == selected_collection_id(a));
    assert(listed_now(with_scope(b, false)) == listed_now(a));
}

// ---------------------------------------------------------------------------
// Running and starring the selected command
// ---------------------------------------------------------------------------

/// The first command with the id `id`.
pub open spec fn first_with_id(cs: Seq<CommandView>, id: Seq<char>) -> Option<int>
    decreases cs.len(),
{
    if cs.len() == 0 {
        None
    } else {
        match first_with_id(cs.drop_last(), id) {
            Some(i) => Some(i),
            None => if cs.last().id == id {
                Some(cs.len() - 1)
            } else {
                None
            },
        }
    }
}

proof fn lemma_first_with_id(cs: Seq<CommandView>, id: Seq<char>)
    ensures
        match first_with_id(cs, id) {
            Some(i) => 0 <= i < cs.len() && cs[i].id == id && forall|j: int|
                0 <= j < i ==> (#[trigger] cs[j]).id != id,
            None => forall|j: int| 0 <= j < cs.len() ==> (#[trigger] cs[j]).id != id,
        },
    decreases cs.len(),
{
    if cs.len() > 0 {
        lemma_first_with_id(cs.drop_last(), id);
        match first_with_id(cs.drop_last(), id) {
            Some(i) => {
                assert forall|j: int| 0 <= j < i implies (#[trigger] cs[j]).id != id by {
                    assert(cs[j] == cs.drop_last()[j]);
                }
                assert(cs[i] == cs.drop_last()[i]);
            },
            None => {
                assert forall|j: int| 0 <= j < cs.len() - 1 implies (#[trigger] cs[j]).id != id by {
                    assert(cs[j] == cs.drop_last()[j]);
                }
            },
        }
    }
}

/// One more run of command `i`, if there is one, keeps its use count within
/// `i32`.
pub open spec fn count_fits(cs: Seq<CommandView>, i: Option<int>) -> bool {
    match i {
        Some(k) => cs[k].use_count < i32::MAX,
        None => true,
    }
}

/// The command Enter records a run of: none from the list of collections;
/// the first with the selected row's text among a collection's commands;
/// else the selected command.
pub open spec fn activation_target(st: AppState) -> Option<int> {
    if st.view_mode == ViewMode::Collections && st.active_pane == ActivePane::CollectionsList {
        None
    } else if st.view_mode == ViewMode::Collections && st.active_pane == ActivePane::CollectionItems {
        if st.selected_index < st.filtered@.len() {
            first_with_text(
                command_views(st.commands@),
                st.filtered@[st.selected_index as int].text@,
            )
        } else {
            None
        }
    } else {
        selected_command_index(st)
    }
}

/// `new` is `old` after a run of command `i` at `now`: one more use, last
/// used now, moved to the front; the list recomputed with its top selected.
pub open spec fn executed(old: AppState, new: AppState, i: int, now: i64) -> bool {
    let c = command_views(old.commands@)[i];
    let used = CommandView { use_count: (c.use_count + 1) as i32, last_used: Some(now), ..c };
    &&& command_views(new.commands@) == seq![used] + command_views(old.commands@).remove(i)
    &&& new.selected_index == 0
    &&& new.list_state == selecting(old.list_state, 0)
    &&& relisted(
        AppState { commands: new.commands, ..old },
        AppState { list_state: old.list_state, ..new },
        now as int,
    )
}

/// The index of the command the selected row stands for, by id.
pub open spec fn selected_command_index(st: AppState) -> Option<int> {
    if st.selected_index < st.filtered@.len() {
        first_with_id(command_views(st.commands@), st.filtered@[st.selected_index as int].id@)
    } else {
        None
    }
}

impl AppState {
    /// Where the command with this id sits in `commands`.
    fn position_of_id(&self, id: &str) -> (r: Option<usize>)
        ensures
            match r {
                Some(i) => i < self.commands@.len() && first_with_id(command_views(self.commands@), id@)
                    == Some(i as int),
                None => first_with_id(command_views(self.commands@), id@) is None,
            },
    {
        let ghost cs = command_views(self.commands@);
        proof {
            lemma_first_with_id(cs, id@);
        }
        let mut i: usize = 0;
        while i < self.commands.len()
            invariant
                i <= self.commands@.len(),
                cs == command_views(self.commands@),
                forall|j: int| 0 <= j < i ==> (#[trigger] cs[j]).id != id@,
                match first_with_id(cs, id@) {
                    Some(k) => 0 <= k < cs.len() && cs[k].id == id@ && forall|j: int|
                        0 <= j < k ==> (#[trigger] cs[j]).id != id@,
                    None => forall|j: int| 0 <= j < cs.len() ==> (#[trigger] cs[j]).id != id@,
                },
            decreases self.commands.len() - i,
        {
            if str_eq(self.commands[i].id.as_str(), id) {
                proof {
                    assert(cs[i as int].id == id@);
                    match first_with_id(cs, id@) {
                        Some(k) => {
                            if k > i {
                                assert(cs[i as int].id != id@);
                            }
                        },
                        None => {
                            assert(cs[i as int].id != id@);
                        },
                    }
                }
                return Some(i);
            }
            i += 1;
        }
        None
    }

    /// Records a run of the selected command at `now`: one more use, last
    /// used now, moved to the front of the list, which is recomputed with its
    /// top selected. Gives the command's text, or nothing when no row is
    /// selected.
    pub fn mark_executed_at(&mut self, now: i64) -> (r: Option<String>)
        requires
            count_fits(command_views(old(self).commands@), selected_command_index(*old(self))),
        ensures
            match selected_command_index(*old(self)) {
                None => r is None && *final(self) == *old(self),
                Some(i) => r is Some && (r->0)@ == command_views(old(self).commands@)[i].text
                    && executed(*old(self), *final(self), i, now),
            },
    {
        if self.selected_index >= self.filtered.len() {
            return None;
        }
        let id = self.filtered[self.selected_index].id.clone();
        let idx = match self.position_of_id(id.as_str()) {
            Some(i) => i,
            None => return None,
        };
        let ghost cs = command_views(self.commands@);
        let mut cmd = self.commands.remove(idx);
        assert(command_views(self.commands@) =~= cs.remove(idx as int));
        assert(cmd@ == cs[idx as int]);
        cmd.use_count = cmd.use_count + 1;
        cmd.last_used = Some(now);
        let text = cmd.text.clone();
        self.commands.insert(0, cmd);
        assert(command_views(self.commands@) =~= seq![self.commands@[0]@] + cs.remove(idx as int));
        self.filter_commands_at(now);
        self.selected_index = 0;
        self.list_state.select(Some(0));
        Some(text)
    }

    /// Stars or unstars the selected command and recomputes the list as of
    /// `now`. Gives its text and new state, or nothing when no row is
    /// selected.
    pub fn toggle_favorite_at(&mut self, now: i64) -> (r: Option<(String, bool)>)
        ensures
            match selected_command_index(*old(self)) {
                None => r is None && refiltered(*old(self), *final(self), now as int),
                Some(i) => {
                    let c = command_views(old(self).commands@)[i];
                    &&& r is Some && (r->0).0@ == c.text && (r->0).1 == !c.favorite
                    &&& command_views(final(self).commands@) == command_views(old(self).commands@).update(
                        i,
                        CommandView { favorite: !c.favorite, ..c },
                    )
                    &&& refiltered(
                        AppState { commands: final(self).commands, ..*old(self) },
                        *final(self),
                        now as int,
                    )
                },
            },
    {
        let found: Option<usize> = if self.selected_index < self.filtered.len() {
            let id = self.filtered[self.selected_index].id.clone();
            self.position_of_id(id.as_str())
        } else {
            None
        };
        match found {
            None => {
                self.filter_commands_at(now);
                None
            },
            Some(idx) => {
                let ghost cs = command_views(self.commands@);
                let mut cmd = self.commands.remove(idx);
                cmd.favorite = !cmd.favorite;
                let result = (cmd.text.clone(), cmd.favorite);
                self.commands.insert(idx, cmd);
                assert(command_views(self.commands@) =~= cs.update(
                    idx as int,
                    CommandView { favorite: !cs[idx as int].favorite, ..cs[idx as int] },
                ));
                self.filter_commands_at(now);
                Some(result)
            },
        }
    }
}

// ---------------------------------------------------------------------------
// Tags
// ---------------------------------------------------------------------------

/// The tag being typed: the text after the last comma, trimmed.
pub open spec fn tag_fragment(input: Seq<char>) -> Seq<char> {
    trim(split_char(input, ',').last())
}

/// Every tag of every command, in order, with repeats.
pub open spec fn tag_pool(cs: Seq<CommandView>) -> Seq<Seq<char>>
    decreases cs.len(),
{
    if cs.len() == 0 {
        Seq::empty()
    } else {
        tag_pool(cs.drop_last()) + cs.last().tags
    }
}

/// The distinct tags in use, sorted.
pub open spec fn known_tags(cs: Seq<CommandView>) -> Seq<Seq<char>> {
    sorted_union(tag_pool(cs))
}

/// The tags whose lowercase form contains `f`.
pub open spec fn tags_containing(tags: Seq<Seq<char>>, f: Seq<char>) -> Seq<Seq<char>>
    decreases tags.len(),
{
    if tags.len() == 0 {
        tags
    } else if contains(lowercased(tags.last()), f) {
        tags_containing(tags.drop_last(), f).push(tags.last())
    } else {
        tags_containing(tags.drop_last(), f)
    }
}

/// The suggestions for the tag being typed: every known tag while nothing
/// is typed, else those containing it, ignoring case.
pub open spec fn tag_suggestions(cs: Seq<CommandView>, input: Seq<char>) -> Seq<Seq<char>> {
    let f = lowercased(tag_fragment(input));
    if f.len() == 0 {
        known_tags(cs)
    } else {
        tags_containing(known_tags(cs), f)
    }
}

/// The editor's text once a suggestion replaces the tag being typed: the
/// earlier tags, trimmed, then `tag`, each followed by a comma.
pub open spec fn with_tag_applied(input: Seq<char>, tag: Seq<char>) -> Seq<char> {
    let parts = split_char(input, ',').map_values(|p: Seq<char>| trim(p));
    join(parts.drop_last().push(tag), ", "@) + ", "@
}

/// The keyboard context of a pane.
pub open spec fn context_of_pane(pane: ActivePane) -> KeyContext {
    match pane {
        ActivePane::Search => KeyContext::Search,
        ActivePane::History => KeyContext::History,
        ActivePane::CollectionsList => KeyContext::CollectionsList,
        ActivePane::CollectionItems => KeyContext::CollectionItems,
    }
}

/// The context a key lands in with no overlay open; also the view the help
/// popup describes.
pub fn pane_context(pane: ActivePane) -> (r: KeyContext)
    ensures
        r == context_of_pane(pane),
{
    match pane {
        ActivePane::Search => KeyContext::Search,
        ActivePane::History => KeyContext::History,
        ActivePane::CollectionsList => KeyContext::CollectionsList,
        ActivePane::CollectionItems => KeyContext::CollectionItems,
    }
}

/// The overlays that can take the keys, topmost first.
pub struct Overlays {
    pub integration_popup_open: bool,
    pub context_menu_open: bool,
    pub theme_popup_open: bool,
    pub help_open: bool,
    pub export_popup_open: bool,
    pub import_popup_open: bool,
}

/// Which context a key lands in: the startup offer, then the context menu,
/// the theme picker, help, the import/export dialog, then the input mode,
/// and with nothing open the focused pane.
pub open spec fn context_for(o: Overlays, mode: InputMode, pane: ActivePane) -> KeyContext {
    if o.integration_popup_open {
        KeyContext::IntegrationPopup
    } else if o.context_menu_open {
        KeyContext::ContextMenu
    } else if o.theme_popup_open {
        KeyContext::ThemePopup
    } else if o.help_open {
        KeyContext::Help
    } else if o.export_popup_open || o.import_popup_open {
        KeyContext::ImportExport
    } else {
        match mode {
            InputMode::TagInput => KeyContext::TagInput,
            InputMode::CollectionInput => KeyContext::CollectionInput,
            InputMode::ImportExport => KeyContext::ImportExport,
            InputMode::Normal => context_of_pane(pane),
        }
    }
}

pub fn active_context(o: &Overlays, mode: InputMode, pane: ActivePane) -> (r: KeyContext)
    ensures
        r == context_for(*o, mode, pane),
{
    if o.integration_popup_open {
        return KeyContext::IntegrationPopup;
    }
    if o.context_menu_open {
        return KeyContext::ContextMenu;
    }
    if o.theme_popup_open {
        return KeyContext::ThemePopup;
    }
    if o.help_open {
        return KeyContext::Help;
    }
    if o.export_popup_open || o.import_popup_open {
        return KeyContext::ImportExport;
    }
    match mode {
        InputMode::TagInput => KeyContext::TagInput,
        InputMode::CollectionInput => KeyContext::CollectionInput,
        InputMode::ImportExport => KeyContext::ImportExport,
        InputMode::Normal => pane_context(pane),
    }
}

/// What a cancel key closes: the layer that has the keys.
#[derive(Clone, Copy, Debug, PartialEq, Eq, Structural)]
pub enum CancelStep {
    IntegrationPopup,
    ContextMenu,
    ThemePopup,
    Help,
    ImportExport,
    /// The tag or collection prompt.
    Input,
    /// Nothing is open: the pane clears the query, or ctrlr exits.
    Pane,
}

/// The layer a cancel key closes: the topmost overlay, then a prompt, then
/// the pane itself.
pub open spec fn cancel_target(o: Overlays, mode: InputMode) -> CancelStep {
    if o.integration_popup_open {
        CancelStep::IntegrationPopup
    } else if o.context_menu_open {
        CancelStep::ContextMenu
    } else if o.theme_popup_open {
        CancelStep::ThemePopup
    } else if o.help_open {
        CancelStep::Help
    } else if o.export_popup_open || o.import_popup_open {
        CancelStep::ImportExport
    } else if mode != InputMode::Normal {
        CancelStep::Input
    } else {
        CancelStep::Pane
    }
}

/// Which layer Esc or Ctrl+C closes.
pub fn cancel_step(o: &Overlays, mode: InputMode) -> (r: CancelStep)
    ensures
        r == cancel_target(*o, mode),
{
    if o.integration_popup_open {
        CancelStep::IntegrationPopup
    } else if o.context_menu_open {
        CancelStep::ContextMenu
    } else if o.theme_popup_open {
        CancelStep::ThemePopup
    } else if o.help_open {
        CancelStep::Help
    } else if o.export_popup_open || o.import_popup_open {
        CancelStep::ImportExport
    } else if mode != InputMode::Normal {
        CancelStep::Input
    } else {
        CancelStep::Pane
    }
}

/// Cancel closes the layer that has the keys: it reaches the pane, where it
/// clears the query and then exits, only when the keys would go to the pane.
pub proof fn law_cancel_closes_what_has_the_keys(o: Overlays, mode: InputMode, pane: ActivePane)
    ensures
        (cancel_target(o, mode) == CancelStep::Pane) == (context_for(o, mode, pane)
            == context_of_pane(pane)),
{
}

/// The last piece of `input` split at commas.
fn last_piece(input: &str) -> (r: Vec<char>)
    ensures
        r@ == split_char(input@, ',').last(),
{
    let v = chars_of(input);
    let pieces = split_chars(v.as_slice(), ',');
    proof {
        lemma_split_char_nonempty(input@, ',');
    }
    let n = pieces.len();
    let last = &pieces[n - 1];
    crate::text::slice_to_vec(last.as_slice(), 0, last.len())
}

impl AppState {
    /// The tag being typed in the tag editor.
    pub fn current_tag_fragment(&self) -> (r: String)
        ensures
            r@ == tag_fragment(self.tag_input@),
    {
        let piece = last_piece(self.tag_input.as_str());
        let t = trim_chars(piece.as_slice());
        string_of(t.as_slice())
    }

    /// Every tag in use, sorted, each once.
    pub fn get_all_tags(&self) -> (r: Vec<String>)
        ensures
            views(r@) == known_tags(command_views(self.commands@)),
    {
        let ghost cs = command_views(self.commands@);
        let mut out: Vec<String> = Vec::new();
        let mut i: usize = 0;
        while i < self.commands.len()
            invariant
                i <= self.commands@.len(),
                cs == command_views(self.commands@),
                views(out@) == sorted_union(tag_pool(cs.take(i as int))),
            decreases self.commands.len() - i,
        {
            let ghost before = tag_pool(cs.take(i as int));
            assert(cs.take(i + 1).drop_last() =~= cs.take(i as int));
            assert(cs.take(i + 1).last() == self.commands@[i as int]@);
            let tags = &self.commands[i].tags;
            let mut j: usize = 0;
            while j < tags.len()
                invariant
                    j <= tags@.len(),
                    views(out@) == sorted_union(before + views(tags@).take(j as int)),
                decreases tags.len() - j,
            {
                assert((before + views(tags@).take(j + 1)).drop_last() =~= before + views(
                    tags@,
                ).take(j as int));
                assert((before + views(tags@).take(j + 1)).last() == tags@[j as int]@);
                insert_sorted(&mut out, tags[j].clone());
                j += 1;
            }
            assert(views(tags@).take(tags@.len() as int) =~= views(tags@));
            assert(tag_pool(cs.take(i + 1)) == before + views(tags@));
            i += 1;
        }
        assert(cs.take(self.commands@.len() as int) =~= cs);
        out
    }

    /// The suggestions for the tag being typed.
    pub fn filtered_tags(&self) -> (r: Vec<String>)
        ensures
            views(r@) == tag_suggestions(command_views(self.commands@), self.tag_input@),
    {
        let fragment = to_lowercase(self.current_tag_fragment().as_str());
        let tags = self.get_all_tags();
        if fragment.as_str().is_empty() {
            return tags;
        }
        let mut out: Vec<String> = Vec::new();
        let mut i: usize = 0;
        while i < tags.len()
            invariant
                i <= tags@.len(),
                views(out@) == tags_containing(views(tags@).take(i as int), fragment@),
            decreases tags.len() - i,
        {
            assert(views(tags@).take(i + 1).drop_last() =~= views(tags@).take(i as int));
            assert(views(tags@).take(i + 1).last() == tags@[i as int]@);
            let lower = to_lowercase(tags[i].as_str());
            if str_contains(lower.as_str(), fragment.as_str()) {
                let ghost before = views(out@);
                out.push(tags[i].clone());
                assert(views(out@) =~= before.push(tags@[i as int]@));
            }
            i += 1;
        }
        assert(views(tags@).take(tags@.len() as int) =~= views(tags@));
        out
    }

    /// Replaces the tag being typed with `tag` and starts the next one.
    pub fn apply_selected_tag(&mut self, tag: String)
        ensures
            *final(self) == (AppState { tag_input: final(self).tag_input, ..*old(self) }),
            final(self).tag_input@ == with_tag_applied(old(self).tag_input@, tag@),
    {
        let v = chars_of(self.tag_input.as_str());
        let pieces = split_chars(v.as_slice(), ',');
        let ghost parts = split_char(self.tag_input@, ',').map_values(|p: Seq<char>| trim(p));
        proof {
            lemma_split_char_nonempty(self.tag_input@, ',');
        }
        let ghost kept = parts.drop_last().push(tag@);
        let mut out = String::new();
        let mut k: usize = 0;
        let n = pieces.len() - 1;
        while k < n
            invariant
                n + 1 == pieces@.len(),
                pieces@.len() == split_char(v@, ',').len(),
                forall|i: int| 0 <= i < pieces@.len() ==> #[trigger] pieces@[i]@ == split_char(v@, ',')[i],
                v@ == old(self).tag_input@,
                parts == split_char(v@, ',').map_values(|p: Seq<char>| trim(p)),
                kept == parts.drop_last().push(tag@),
                k <= n,
                out@ == join(kept.take(k as int), ", "@),
            decreases n - k,
        {
            let piece = trim_chars(pieces[k].as_slice());
            proof {
                lemma_join_push(kept.take(k as int), kept[k as int], ", "@);
                assert(kept.take(k + 1) =~= kept.take(k as int).push(kept[k as int]));
            }
            if k > 0 {
                push_str(&mut out, ", ");
            }
            let ps = string_of(piece.as_slice());
            push_str(&mut out, ps.as_str());
            k += 1;
        }
        proof {
            lemma_join_push(kept.take(n as int), tag@, ", "@);
            assert(kept =~= kept.take(n as int).push(tag@));
        }
        if n > 0 {
            push_str(&mut out, ", ");
        }
        push_str(&mut out, tag.as_str());
        push_str(&mut out, ", ");
        self.tag_input = out;
    }
}

impl AppState {
    /// Gives the selected command the tags `tags`, recomputes the list as of
    /// `now` and keeps that command selected where it lands. Gives the
    /// command's text when one was changed.
    pub fn set_tags_at(&mut self, tags: Vec<String>, now: i64) -> (r: Option<String>)
        ensures
            match selected_command_index(*old(self)) {
                Some(i) => {
                    let c = command_views(old(self).commands@)[i];
                    &&& r is Some && (r->0)@ == c.text
                    &&& command_views(final(self).commands@) == command_views(old(self).commands@).update(
                        i,
                        CommandView { tags: views(tags@), ..c },
                    )
                },
                None => r is None && final(self).commands == old(self).commands,
            },
            relisted(
                AppState { commands: final(self).commands, ..*old(self) },
                *final(self),
                now as int,
            ),
            old(self).selected_index < old(self).filtered@.len() ==> final(self).selected_index == (
            match first_with_id(
                command_views(final(self).filtered@),
                old(self).filtered@[old(self).selected_index as int].id@,
            ) {
                Some(p) => p,
                None => 0,
            }),
            old(self).selected_index >= old(self).filtered@.len() ==> final(self).selected_index == (
            if old(self).search_query@.len() > 0 {
                0
            } else {
                old(self).selected_index
            }),
    {
        let current: Option<String> = if self.selected_index < self.filtered.len() {
            Some(self.filtered[self.selected_index].id.clone())
        } else {
            None
        };
        let mut changed: Option<String> = None;
        if let Some(id) = &current {
            if let Some(idx) = self.position_of_id(id.as_str()) {
                let ghost cs = command_views(self.commands@);
                let mut cmd = self.commands.remove(idx);
                let ghost tv = views(tags@);
                cmd.tags = tags;
                changed = Some(cmd.text.clone());
                self.commands.insert(idx, cmd);
                assert(command_views(self.commands@) =~= cs.update(
                    idx as int,
                    CommandView { tags: tv, ..cs[idx as int] },
                ));
            }
        }
        self.filter_commands_at(now);
        if let Some(id) = current {
            let ghost fv = command_views(self.filtered@);
            proof {
                lemma_first_with_id(fv, id@);
            }
            let mut p: usize = 0;
            let mut found = false;
            while p < self.filtered.len() && !found
                invariant
                    p <= self.filtered@.len(),
                    fv == command_views(self.filtered@),
                    forall|j: int| 0 <= j < p ==> (#[trigger] fv[j]).id != id@,
                    found ==> p < fv.len() && fv[p as int].id == id@,
                    match first_with_id(fv, id@) {
                        Some(k) => 0 <= k < fv.len() && fv[k].id == id@ && forall|j: int|
                            0 <= j < k ==> (#[trigger] fv[j]).id != id@,
                        None => forall|j: int| 0 <= j < fv.len() ==> (#[trigger] fv[j]).id != id@,
                    },
                decreases self.filtered.len() - p + (if found { 0int } else { 1int }),
            {
                if str_eq(self.filtered[p].id.as_str(), id.as_str()) {
                    found = true;
                } else {
                    p += 1;
                }
            }
            proof {
                if found {
                    match first_with_id(fv, id@) {
                        Some(k) => {
                            if k > p {
                                assert(fv[p as int].id != id@);
                            }
                        },
                        None => {
                            assert(fv[p as int].id != id@);
                        },
                    }
                }
            }
            self.selected_index = if found {
                p
            } else {
                0
            };
        }
        changed
    }
}

/// The collections whose name contains `search`, ignoring case, in order;
/// all of them for an empty search.
pub open spec fn collections_matching(cs: Seq<Collection>, search: Seq<char>) -> Seq<Collection>
    decreases cs.len(),
{
    if cs.len() == 0 {
        cs
    } else {
        let before = collections_matching(cs.drop_last(), search);
        if search.len() == 0 || contains(lowercased(cs.last().name@), lowercased(search)) {
            before.push(cs.last())
        } else {
            before
        }
    }
}

pub open spec fn derefs(v: Seq<&Collection>) -> Seq<Collection> {
    v.map_values(|c: &Collection| *c)
}

impl AppState {
    /// The collections whose name contains `search`, ignoring case.
    pub fn filtered_collections(&self, search: &str) -> (r: Vec<&Collection>)
        ensures
            derefs(r@) == collections_matching(self.collections@, search@),
    {
        let ghost cs = self.collections@;
        let needle = to_lowercase(search);
        let mut out: Vec<&Collection> = Vec::new();
        let mut i: usize = 0;
        while i < self.collections.len()
            invariant
                i <= self.collections@.len(),
                cs == self.collections@,
                needle@ == lowercased(search@),
                derefs(out@) == collections_matching(cs.take(i as int), search@),
            decreases self.collections.len() - i,
        {
            let ghost before = derefs(out@);
            assert(cs.take(i + 1).drop_last() =~= cs.take(i as int));
            assert(cs.take(i + 1).last() == cs[i as int]);
            let keep = if search.is_empty() {
                true
            } else {
                let lower = to_lowercase(self.collections[i].name.as_str());
                str_contains(lower.as_str(), needle.as_str())
            };
            if keep {
                out.push(&self.collections[i]);
                assert(derefs(out@) =~= before.push(cs[i as int]));
            }
            i += 1;
        }
        assert(cs.take(self.collections@.len() as int) =~= cs);
        out
    }
}

// ---------------------------------------------------------------------------
// Moving through the panes from the keyboard
// ---------------------------------------------------------------------------

/// The first command with the text `t`.
pub open spec fn first_with_text(cs: Seq<CommandView>, t: Seq<char>) -> Option<int>
    decreases cs.len(),
{
    if cs.len() == 0 {
        None
    } else {
        match first_with_text(cs.drop_last(), t) {
            Some(i) => Some(i),
            None => if cs.last().text == t {
                Some(cs.len() - 1)
            } else {
                None
            },
        }
    }
}

proof fn lemma_first_with_text(cs: Seq<CommandView>, t: Seq<char>)
    ensures
        match first_with_text(cs, t) {
            Some(i) => 0 <= i < cs.len() && cs[i].text == t && forall|j: int|
                0 <= j < i ==> (#[trigger] cs[j]).text != t,
            None => forall|j: int| 0 <= j < cs.len() ==> (#[trigger] cs[j]).text != t,
        },
    decreases cs.len(),
{
    if cs.len() > 0 {
        lemma_first_with_text(cs.drop_last(), t);
        match first_with_text(cs.drop_last(), t) {
            Some(i) => {
                assert forall|j: int| 0 <= j < i implies (#[trigger] cs[j]).text != t by {
                    assert(cs[j] == cs.drop_last()[j]);
                }
                assert(cs[i] == cs.drop_last()[i]);
            },
            None => {
                assert forall|j: int| 0 <= j < cs.len() - 1 implies (#[trigger] cs[j]).text != t by {
                    assert(cs[j] == cs.drop_last()[j]);
                }
            },
        }
    }
}

/// The list pane takes the keyboard from the search box.
pub open spec fn focus_list(st: AppState) -> AppState {
    if st.active_pane == ActivePane::Search {
        AppState { active_pane: ActivePane::History, ..st }
    } else {
        st
    }
}

/// `st` with row `i` of the command list selected.
pub open spec fn moved_to(st: AppState, i: usize) -> AppState {
    AppState { selected_index: i, list_state: selecting(st.list_state, i), ..st }
}

pub open spec fn up_index(st: AppState) -> usize {
    (if st.selected_index == 0 {
        if st.filtered@.len() > 0 {
            st.filtered@.len() - 1
        } else {
            0
        }
    } else {
        st.selected_index - 1
    }) as usize
}

pub open spec fn down_index(st: AppState) -> usize {
    wrapped_down(
        st.selected_index,
        if st.filtered@.len() > 0 {
            st.filtered@.len() as int
        } else {
            1
        },
    )
}

pub open spec fn page_down_index(st: AppState) -> usize {
    if st.filtered@.len() == 0 {
        st.selected_index
    } else {
        paged_down(st.selected_index, page_size(st.terminal_height), st.filtered@.len() as int)
    }
}

pub open spec fn page_up_index(st: AppState) -> usize {
    paged_up(st.selected_index, page_size(st.terminal_height))
}

/// The collections list has the keyboard on the Collections tab.
pub open spec fn on_collection_list(st: AppState) -> bool {
    st.view_mode == ViewMode::Collections && st.active_pane == ActivePane::CollectionsList
}

/// `new` is `old` with collection `k` selected, its list state set to `ls`,
/// and the list recomputed at some time.
pub open spec fn collection_moved(old: AppState, new: AppState, k: usize, ls: ListState) -> bool {
    exists|now: int|
        #[trigger] refiltered(
            with_collection(old, k, old.collection_list_state),
            with_collection_list_state(new, old.collection_list_state),
            now,
        ) && new.collection_list_state == ls
}

/// `st` with the collections list's widget state `ls`.
pub open spec fn with_collection_list_state(st: AppState, ls: ListState) -> AppState {
    AppState { collection_list_state: ls, ..st }
}

/// `st` showing `view`, with the pane a tab switch focuses.
pub open spec fn with_view(st: AppState, view: ViewMode) -> AppState {
    AppState {
        view_mode: view,
        active_pane: if view == ViewMode::Collections {
            ActivePane::CollectionsList
        } else {
            ActivePane::History
        },
        ..st
    }
}

impl AppState {
    /// Up from anywhere: the collections list moves its own selection;
    /// elsewhere the command list does, taking the keyboard from the search
    /// box.
    pub fn handle_navigation_up(&mut self)
        ensures
            on_collection_list(*old(self)) ==> collection_moved(
                *old(self),
                *final(self),
                stepped_up(old(self).selected_collection_index),
                old(self).collection_list_state,
            ),
            !on_collection_list(*old(self)) ==> *final(self) == moved_to(
                focus_list(*old(self)),
                up_index(*old(self)),
            ),
    {
        if self.view_mode == ViewMode::Collections && self.active_pane == ActivePane::CollectionsList {
            self.navigate_collection_up();
            return;
        }
        if self.active_pane == ActivePane::Search {
            self.active_pane = ActivePane::History;
        }
        self.navigate_up();
        self.list_state.select(Some(self.selected_index));
    }

    /// Down from anywhere.
    pub fn handle_navigation_down(&mut self)
        requires
            !on_collection_list(*old(self)) ==> old(self).selected_index < usize::MAX,
            on_collection_list(*old(self)) && old(self).collections@.len() > 0
                ==> old(self).selected_collection_index < usize::MAX,
        ensures
            on_collection_list(*old(self)) && old(self).collections@.len() == 0 ==> *final(self)
                == (AppState {
                collection_list_state: selecting(
                    old(self).collection_list_state,
                    old(self).selected_collection_index,
                ),
                ..*old(self)
            }),
            on_collection_list(*old(self)) && old(self).collections@.len() > 0 ==> collection_moved(
                *old(self),
                *final(self),
                wrapped_down(
                    old(self).selected_collection_index,
                    old(self).collections@.len() as int,
                ),
                selecting(
                    old(self).collection_list_state,
                    wrapped_down(
                        old(self).selected_collection_index,
                        old(self).collections@.len() as int,
                    ),
                ),
            ),
            !on_collection_list(*old(self)) ==> *final(self) == moved_to(
                focus_list(*old(self)),
                down_index(*old(self)),
            ),
    {
        if self.view_mode == ViewMode::Collections && self.active_pane == ActivePane::CollectionsList {
            self.navigate_collection_down();
            self.collection_list_state.select(Some(self.selected_collection_index));
            return;
        }
        if self.active_pane == ActivePane::Search {
            self.active_pane = ActivePane::History;
        }
        self.navigate_down();
        self.list_state.select(Some(self.selected_index));
    }

    /// Page down from anywhere.
    pub fn handle_page_down(&mut self)
        requires
            !on_collection_list(*old(self)) && old(self).filtered@.len() > 0
                ==> old(self).selected_index + page_size(old(self).terminal_height) <= usize::MAX,
            on_collection_list(*old(self)) && old(self).collections@.len() > 0
                ==> old(self).selected_collection_index + page_size(old(self).terminal_height)
                <= usize::MAX,
        ensures
            on_collection_list(*old(self)) && old(self).collections@.len() == 0 ==> *final(self)
                == (AppState {
                collection_list_state: selecting(
                    old(self).collection_list_state,
                    old(self).selected_collection_index,
                ),
                ..*old(self)
            }),
            on_collection_list(*old(self)) && old(self).collections@.len() > 0 ==> collection_moved(
                *old(self),
                *final(self),
                paged_down(
                    old(self).selected_collection_index,
                    page_size(old(self).terminal_height),
                    old(self).collections@.len() as int,
                ),
                selecting(
                    old(self).collection_list_state,
                    paged_down(
                        old(self).selected_collection_index,
                        page_size(old(self).terminal_height),
                        old(self).collections@.len() as int,
                    ),
                ),
            ),
            !on_collection_list(*old(self)) ==> *final(self) == moved_to(
                focus_list(*old(self)),
                page_down_index(*old(self)),
            ),
    {
        if self.view_mode == ViewMode::Collections && self.active_pane == ActivePane::CollectionsList {
            self.navigate_collection_page_down();
            self.collection_list_state.select(Some(self.selected_collection_index));
            return;
        }
        if self.active_pane == ActivePane::Search {
            self.active_pane = ActivePane::History;
        }
        self.navigate_page_down();
        self.list_state.select(Some(self.selected_index));
    }

    /// Page up from anywhere.
    pub fn handle_page_up(&mut self)
        ensures
            on_collection_list(*old(self)) && old(self).collections@.len() == 0 ==> *final(self)
                == (AppState {
                collection_list_state: selecting(
                    old(self).collection_list_state,
                    old(self).selected_collection_index,
                ),
                ..*old(self)
            }),
            on_collection_list(*old(self)) && old(self).collections@.len() > 0 ==> collection_moved(
                *old(self),
                *final(self),
                paged_up(old(self).selected_collection_index, page_size(old(self).terminal_height)),
                selecting(
                    old(self).collection_list_state,
                    paged_up(
                        old(self).selected_collection_index,
                        page_size(old(self).terminal_height),
                    ),
                ),
            ),
            !on_collection_list(*old(self)) ==> *final(self) == moved_to(
                focus_list(*old(self)),
                page_up_index(*old(self)),
            ),
    {
        if self.view_mode == ViewMode::Collections && self.active_pane == ActivePane::CollectionsList {
            self.navigate_collection_page_up();
            self.collection_list_state.select(Some(self.selected_collection_index));
            return;
        }
        if self.active_pane == ActivePane::Search {
            self.active_pane = ActivePane::History;
        }
        self.navigate_page_up();
        self.list_state.select(Some(self.selected_index));
    }

    /// To the first row from anywhere.
    pub fn handle_go_to_top(&mut self)
        ensures
            on_collection_list(*old(self)) ==> collection_moved(
                *old(self),
                *final(self),
                0,
                selecting(old(self).collection_list_state, 0),
            ),
            !on_collection_list(*old(self)) ==> *final(self) == moved_to(focus_list(*old(self)), 0),
    {
        if self.view_mode == ViewMode::Collections && self.active_pane == ActivePane::CollectionsList {
            let ghost before = *self;
            self.go_to_collection_top();
            proof {
                let ls = selecting(before.collection_list_state, 0);
                let now = choose|now: int|
                    #[trigger] refiltered(with_collection(before, 0, ls), *self, now);
                assert(refiltered(
                    with_collection(before, 0, before.collection_list_state),
                    with_collection_list_state(*self, before.collection_list_state),
                    now,
                ));
            }
            return;
        }
        if self.active_pane == ActivePane::Search {
            self.active_pane = ActivePane::History;
        }
        self.go_to_top();
    }

    /// To the last row from anywhere.
    pub fn handle_go_to_bottom(&mut self)
        ensures
            on_collection_list(*old(self)) && old(self).collections@.len() == 0 ==> *final(self)
                == *old(self),
            on_collection_list(*old(self)) && old(self).collections@.len() > 0 ==> collection_moved(
                *old(self),
                *final(self),
                last_index(old(self).collections@.len() as int),
                selecting(
                    old(self).collection_list_state,
                    last_index(old(self).collections@.len() as int),
                ),
            ),
            !on_collection_list(*old(self)) && old(self).filtered@.len() == 0 ==> *final(self)
                == focus_list(*old(self)),
            !on_collection_list(*old(self)) && old(self).filtered@.len() > 0 ==> *final(self)
                == moved_to(focus_list(*old(self)), last_index(old(self).filtered@.len() as int)),
    {
        if self.view_mode == ViewMode::Collections && self.active_pane == ActivePane::CollectionsList {
            let ghost before = *self;
            self.go_to_collection_bottom();
            proof {
                if before.collections@.len() > 0 {
                    let k = last_index(before.collections@.len() as int);
                    let ls = selecting(before.collection_list_state, k);
                    let now = choose|now: int|
                        #[trigger] refiltered(with_collection(before, k, ls), *self, now);
                    assert(refiltered(
                        with_collection(before, k, before.collection_list_state),
                        with_collection_list_state(*self, before.collection_list_state),
                        now,
                    ));
                }
            }
            return;
        }
        if self.active_pane == ActivePane::Search {
            self.active_pane = ActivePane::History;
        }
        self.go_to_bottom();
    }

    /// Shows `view` with the command list focused, or the collections list
    /// on the Collections tab, and recomputes the list.
    pub fn switch_view(&mut self, view: ViewMode)
        ensures
            exists|now: int|
                #[trigger] refiltered(with_view(*old(self), view), *final(self), now),
    {
        self.view_mode = view;
        self.active_pane = if view == ViewMode::Collections {
            ActivePane::CollectionsList
        } else {
            ActivePane::History
        };
        self.filter_commands();
    }
}

impl AppState {
    /// Where the first command with this text sits in `commands`.
    fn position_of_text(&self, text: &str) -> (r: Option<usize>)
        ensures
            match r {
                Some(i) => i < self.commands@.len() && first_with_text(command_views(self.commands@), text@)
                    == Some(i as int),
                None => first_with_text(command_views(self.commands@), text@) is None,
            },
    {
        let ghost cs = command_views(self.commands@);
        proof {
            lemma_first_with_text(cs, text@);
        }
        let mut i: usize = 0;
        while i < self.commands.len()
            invariant
                i <= self.commands@.len(),
                cs == command_views(self.commands@),
                forall|j: int| 0 <= j < i ==> (#[trigger] cs[j]).text != text@,
                match first_with_text(cs, text@) {
                    Some(k) => 0 <= k < cs.len() && cs[k].text == text@ && forall|j: int|
                        0 <= j < k ==> (#[trigger] cs[j]).text != text@,
                    None => forall|j: int| 0 <= j < cs.len() ==> (#[trigger] cs[j]).text != text@,
                },
            decreases self.commands.len() - i,
        {
            if str_eq(self.commands[i].text.as_str(), text) {
                proof {
                    assert(cs[i as int].text == text@);
                    match first_with_text(cs, text@) {
                        Some(k) => {
                            if k > i {
                                assert(cs[i as int].text != text@);
                            }
                        },
                        None => {
                            assert(cs[i as int].text != text@);
                        },
                    }
                }
                return Some(i);
            }
            i += 1;
        }
        None
    }

    /// Records a run of the first command with this text at `now`, like
    /// `mark_executed_at`. Whether there was one.
    pub fn mark_executed_for_text_at(&mut self, text: &str, now: i64) -> (r: bool)
        requires
            count_fits(
                command_views(old(self).commands@),
                first_with_text(command_views(old(self).commands@), text@),
            ),
        ensures
            match first_with_text(command_views(old(self).commands@), text@) {
                None => !r && *final(self) == *old(self),
                Some(i) => r && executed(*old(self), *final(self), i, now),
            },
    {
        let idx = match self.position_of_text(text) {
            Some(i) => i,
            None => return false,
        };
        let ghost cs = command_views(self.commands@);
        let mut cmd = self.commands.remove(idx);
        assert(command_views(self.commands@) =~= cs.remove(idx as int));
        assert(cmd@ == cs[idx as int]);
        cmd.use_count = cmd.use_count + 1;
        cmd.last_used = Some(now);
        self.commands.insert(0, cmd);
        assert(command_views(self.commands@) =~= seq![self.commands@[0]@] + cs.remove(idx as int));
        self.filter_commands_at(now);
        self.selected_index = 0;
        self.list_state.select(Some(0));
        true
    }

    /// Enter on the selection: into the selected collection from the list of
    /// collections; else the selected command is recorded as run at `now`
    /// and handed back to run. Also gives the text whose run was recorded.
    pub fn activate_selected_at(&mut self, now: i64) -> (r: (Action, Option<String>))
        requires
            count_fits(command_views(old(self).commands@), activation_target(*old(self))),
        ensures
            on_collection_list(*old(self)) ==> r.0 == Action::Continue && r.1 is None && *final(self)
                == (AppState {
                active_pane: ActivePane::CollectionItems,
                ..moved_to(*old(self), 0)
            }),
            old(self).view_mode == ViewMode::Collections && old(self).active_pane
                == ActivePane::CollectionItems ==> if old(self).selected_index < old(self).filtered@.len() {
                let t = old(self).filtered@[old(self).selected_index as int].text@;
                &&& r.0 is Execute && (r.0->0)@ == t
                &&& match first_with_text(command_views(old(self).commands@), t) {
                    None => r.1 is None && *final(self) == *old(self),
                    Some(i) => r.1 is Some && (r.1->0)@ == t && executed(*old(self), *final(self), i, now),
                }
            } else {
                r.0 == Action::Continue && r.1 is None && *final(self) == *old(self)
            },
            !(old(self).view_mode == ViewMode::Collections && (old(self).active_pane
                == ActivePane::CollectionsList || old(self).active_pane == ActivePane::CollectionItems))
                ==> {
                &&& old(self).selected_index < old(self).filtered@.len() ==> r.0 is Execute && (r.0->0)@
                    == old(self).filtered@[old(self).selected_index as int].text@
                &&& old(self).selected_index >= old(self).filtered@.len() ==> r.0 == Action::Continue
                &&& match selected_command_index(*old(self)) {
                    None => r.1 is None && *final(self) == *old(self),
                    Some(i) => r.1 is Some && (r.1->0)@ == command_views(old(self).commands@)[i].text
                        && executed(*old(self), *final(self), i, now),
                }
            },
    {
        if self.view_mode == ViewMode::Collections {
            if self.active_pane == ActivePane::CollectionsList {
                self.active_pane = ActivePane::CollectionItems;
                self.selected_index = 0;
                self.list_state.select(Some(0));
                return (Action::Continue, None);
            }
            if self.active_pane == ActivePane::CollectionItems {
                if self.selected_index >= self.filtered.len() {
                    return (Action::Continue, None);
                }
                let text = self.filtered[self.selected_index].text.clone();
                let recorded = if self.mark_executed_for_text_at(text.as_str(), now) {
                    Some(text.clone())
                } else {
                    None
                };
                return (Action::Execute(text), recorded);
            }
        }
        let cmd = self.selected_command();
        let recorded = self.mark_executed_at(now);
        match cmd {
            Some(t) => (Action::Execute(t), recorded),
            None => (Action::Continue, recorded),
        }
    }
}

impl AppState {
    /// Whether Enter can record a run without the use count overflowing.
    pub fn can_record_run(&self) -> (r: bool)
        ensures
            r == count_fits(command_views(self.commands@), activation_target(*self)),
    {
        let target = if self.view_mode == ViewMode::Collections && self.active_pane
            == ActivePane::CollectionsList {
            None
        } else if self.view_mode == ViewMode::Collections && self.active_pane
            == ActivePane::CollectionItems {
            if self.selected_index < self.filtered.len() {
                self.position_of_text(self.filtered[self.selected_index].text.as_str())
            } else {
                None
            }
        } else if self.selected_index < self.filtered.len() {
            self.position_of_id(self.filtered[self.selected_index].id.as_str())
        } else {
            None
        };
        match target {
            Some(i) => self.commands[i].use_count < i32::MAX,
            None => true,
        }
    }
}

// ---------------------------------------------------------------------------
// Collections in memory
// ---------------------------------------------------------------------------

/// `x` placed before the first collection whose name sorts after its own.
pub open spec fn insert_by_name(s: Seq<Collection>, x: Collection) -> Seq<Collection>
    decreases s.len(),
{
    if s.len() == 0 {
        seq![x]
    } else if str_lt(x.name@, s[0].name@) {
        seq![x] + s
    } else {
        seq![s[0]] + insert_by_name(s.drop_first(), x)
    }
}

/// The collections sorted by name; equal names keep their order.
pub open spec fn sorted_by_name(s: Seq<Collection>) -> Seq<Collection>
    decreases s.len(),
{
    if s.len() == 0 {
        s
    } else {
        insert_by_name(sorted_by_name(s.drop_last()), s.last())
    }
}

/// No collection's name sorts before that of one ahead of it.
pub open spec fn ascending_names(s: Seq<Collection>) -> bool {
    forall|i: int, j: int| 0 <= i < j < s.len() ==> !str_lt((#[trigger] s[j]).name@, (#[trigger] s[i]).name@)
}

proof fn lemma_name_insert_keeps_order(s: Seq<Collection>, x: Collection)
    requires
        ascending_names(s),
    ensures
        ascending_names(insert_by_name(s, x)),
        insert_by_name(s, x).to_multiset() == s.to_multiset().insert(x),
    decreases s.len(),
{
    broadcast use vstd::seq_lib::group_to_multiset_ensures;
    broadcast use vstd::multiset::group_multiset_axioms;

    let r = insert_by_name(s, x);
    if s.len() == 0 {
        assert(r == s.insert(0, x));
    } else if str_lt(x.name@, s[0].name@) {
        assert(r == s.insert(0, x));
        assert forall|i: int, j: int| 0 <= i < j < r.len() implies !str_lt(
            (#[trigger] r[j]).name@,
            (#[trigger] r[i]).name@,
        ) by {
            if i > 0 {
                assert(r[i] == s[i - 1] && r[j] == s[j - 1]);
            } else {
                assert(r[j] == s[j - 1]);
                if str_lt(s[j - 1].name@, x.name@) {
                    lemma_str_lt_trans(s[j - 1].name@, x.name@, s[0].name@);
                    if j - 1 == 0 {
                        lemma_str_lt_irrefl(s[0].name@);
                    }
                }
            }
        }
    } else {
        let t = s.drop_first();
        assert forall|i: int, j: int| 0 <= i < j < t.len() implies !str_lt(
            (#[trigger] t[j]).name@,
            (#[trigger] t[i]).name@,
        ) by {
            assert(t[i] == s[i + 1] && t[j] == s[j + 1]);
        }
        lemma_name_insert_keeps_order(t, x);
        let rt = insert_by_name(t, x);
        assert(r == rt.insert(0, s[0]));
        assert(s == t.insert(0, s[0]));
        assert(r.to_multiset() =~= s.to_multiset().insert(x));
        assert forall|j: int| 0 <= j < rt.len() implies !str_lt((#[trigger] rt[j]).name@, s[0].name@) by {
            assert(rt.contains(rt[j]));
            assert(rt.to_multiset().count(rt[j]) > 0);
            if rt[j] != x {
                assert(t.to_multiset().count(rt[j]) > 0);
                assert(t.contains(rt[j]));
                let m = choose|m: int| 0 <= m < t.len() && t[m] == rt[j];
                assert(s[m + 1] == rt[j]);
            }
        }
        assert forall|i: int, j: int| 0 <= i < j < r.len() implies !str_lt(
            (#[trigger] r[j]).name@,
            (#[trigger] r[i]).name@,
        ) by {
            if i == 0 {
                assert(r[j] == rt[j - 1]);
            } else {
                assert(r[i] == rt[i - 1] && r[j] == rt[j - 1]);
            }
        }
    }
}

/// The collection list, sorted by name, is in ascending order of name and keeps every collection.
pub proof fn law_collections_sorted_by_name(s: Seq<Collection>)
    ensures
        ascending_names(sorted_by_name(s)),
        sorted_by_name(s).to_multiset() == s.to_multiset(),
    decreases s.len(),
{
    broadcast use vstd::seq_lib::group_to_multiset_ensures;

    if s.len() > 0 {
        law_collections_sorted_by_name(s.drop_last());
        lemma_name_insert_keeps_order(sorted_by_name(s.drop_last()), s.last());
        assert(s == s.drop_last().push(s.last()));
    }
}

proof fn lemma_insert_by_name_at(s: Seq<Collection>, x: Collection, p: int)
    requires
        0 <= p <= s.len(),
        forall|j: int| 0 <= j < p ==> !str_lt(x.name@, (#[trigger] s[j]).name@),
        p < s.len() ==> str_lt(x.name@, s[p].name@),
    ensures
        insert_by_name(s, x) == s.take(p) + seq![x] + s.skip(p),
    decreases s.len(),
{
    if s.len() == 0 {
        assert(s.take(p) + seq![x] + s.skip(p) =~= seq![x]);
    } else if p == 0 {
        assert(s.take(0) + seq![x] + s.skip(0) =~= seq![x] + s);
    } else {
        let t = s.drop_first();
        assert forall|j: int| 0 <= j < p - 1 implies !str_lt(x.name@, (#[trigger] t[j]).name@) by {
            assert(t[j] == s[j + 1]);
        }
        if p - 1 < t.len() {
            assert(t[p - 1] == s[p]);
        }
        lemma_insert_by_name_at(t, x, p - 1);
        assert(seq![s[0]] + (t.take(p - 1) + seq![x] + t.skip(p - 1)) =~= s.take(p) + seq![x]
            + s.skip(p));
    }
}

/// Sorts collections by name, stably.
fn sort_collections(v: Vec<Collection>) -> (r: Vec<Collection>)
    ensures
        r@ == sorted_by_name(v@),
{
    let ghost orig = v@;
    let mut input = v;
    let mut out: Vec<Collection> = Vec::new();
    let n = input.len();
    let mut i: usize = 0;
    while i < n
        invariant
            i <= n,
            n == orig.len(),
            input@ == orig.skip(i as int),
            out@ == sorted_by_name(orig.take(i as int)),
        decreases n - i,
    {
        let x = input.remove(0);
        assert(x == orig[i as int]);
        assert(input@ =~= orig.skip(i + 1));
        let ghost s = out@;
        let mut p: usize = 0;
        while p < out.len() && !crate::history::dedup::str_less(x.name.as_str(), out[p].name.as_str())
            invariant
                p <= out@.len(),
                out@ == s,
                forall|j: int| 0 <= j < p ==> !str_lt(x.name@, (#[trigger] s[j]).name@),
            decreases out@.len() - p,
        {
            p += 1;
        }
        proof {
            lemma_insert_by_name_at(s, x, p as int);
            assert(orig.take(i + 1).drop_last() =~= orig.take(i as int));
            assert(orig.take(i + 1).last() == x);
        }
        out.insert(p, x);
        assert(out@ =~= s.take(p as int) + seq![x] + s.skip(p as int));
        i += 1;
    }
    assert(orig.take(n as int) =~= orig);
    out
}

/// The ids other than `id`, in order.
pub open spec fn ids_without(ids: Seq<Seq<char>>, id: Seq<char>) -> Seq<Seq<char>>
    decreases ids.len(),
{
    if ids.len() == 0 {
        ids
    } else if ids.last() == id {
        ids_without(ids.drop_last(), id)
    } else {
        ids_without(ids.drop_last(), id).push(ids.last())
    }
}

/// The collections other than `id`, in order.
pub open spec fn collections_without(cs: Seq<Collection>, id: Seq<char>) -> Seq<Collection>
    decreases cs.len(),
{
    if cs.len() == 0 {
        cs
    } else if cs.last().id@ == id {
        collections_without(cs.drop_last(), id)
    } else {
        collections_without(cs.drop_last(), id).push(cs.last())
    }
}

/// A command no longer in the collection `id`.
pub open spec fn out_of(c: CommandView, id: Seq<char>) -> CommandView {
    CommandView { collection_ids: ids_without(c.collection_ids, id), ..c }
}

fn strings_without(v: &Vec<String>, id: &str) -> (r: Vec<String>)
    ensures
        views(r@) == ids_without(views(v@), id@),
{
    let mut out: Vec<String> = Vec::new();
    let mut i: usize = 0;
    while i < v.len()
        invariant
            i <= v@.len(),
            views(out@) == ids_without(views(v@).take(i as int), id@),
        decreases v.len() - i,
    {
        assert(views(v@).take(i + 1).drop_last() =~= views(v@).take(i as int));
        assert(views(v@).take(i + 1).last() == v@[i as int]@);
        if !str_eq(v[i].as_str(), id) {
            let ghost before = views(out@);
            out.push(v[i].clone());
            assert(views(out@) =~= before.push(v@[i as int]@));
        }
        i += 1;
    }
    assert(views(v@).take(v@.len() as int) =~= views(v@));
    out
}

impl AppState {
    /// Lists a newly created collection, keeping the list sorted by name.
    pub fn insert_collection(&mut self, id: String, name: String)
        ensures
            final(self).collections@ == sorted_by_name(old(self).collections@.push(
                Collection { id, name },
            )),
            *final(self) == (AppState { collections: final(self).collections, ..*old(self) }),
    {
        let mut all: Vec<Collection> = Vec::new();
        std::mem::swap(&mut all, &mut self.collections);
        all.push(Collection { id, name });
        self.collections = sort_collections(all);
    }

    /// Renames the first collection with this id, keeping the list sorted by
    /// name.
    pub fn rename_collection_in_list(&mut self, id: &str, new_name: String)
        ensures
            final(self).collections@ == sorted_by_name(
                match first_collection_with_id(old(self).collections@, id@) {
                    Some(i) => old(self).collections@.update(
                        i,
                        Collection { id: old(self).collections@[i].id, name: new_name },
                    ),
                    None => old(self).collections@,
                },
            ),
            *final(self) == (AppState { collections: final(self).collections, ..*old(self) }),
    {
        let mut all: Vec<Collection> = Vec::new();
        std::mem::swap(&mut all, &mut self.collections);
        let ghost before = all@;
        let mut i: usize = 0;
        while i < all.len()
            invariant
                i <= all@.len(),
                all@ == before,
                forall|j: int| 0 <= j < i ==> (#[trigger] before[j]).id@ != id@,
            ensures
                i <= all@.len(),
                all@ == before,
                forall|j: int| 0 <= j < i ==> (#[trigger] before[j]).id@ != id@,
                i < all@.len() ==> before[i as int].id@ == id@,
            decreases all.len() - i,
        {
            if str_eq(all[i].id.as_str(), id) {
                break;
            }
            i += 1;
        }
        proof {
            lemma_first_collection_with_id(before, id@);
            if i < before.len() {
                match first_collection_with_id(before, id@) {
                    Some(k) => {
                        if k < i {
                            assert(before[k].id@ != id@);
                        } else if i < k {
                            assert(before[i as int].id@ != id@);
                        }
                    },
                    None => {
                        assert(before[i as int].id@ != id@);
                    },
                }
            }
        }
        if i < all.len() {
            let old_entry = all.remove(i);
            let Collection { id: cid, name: _ } = old_entry;
            all.insert(i, Collection { id: cid, name: new_name });
            assert(all@ =~= before.update(i as int, Collection { id: before[i as int].id, name: new_name }));
        }
        self.collections = sort_collections(all);
    }
}

/// Every command with the collection `id` dropped from its collections.
pub open spec fn all_out_of(cs: Seq<CommandView>, id: Seq<char>) -> Seq<CommandView> {
    cs.map_values(|c: CommandView| out_of(c, id))
}

/// Where the collection selection stands once the list has `len` entries: it
/// stays unless it is past the end, and then goes to the last entry.
pub open spec fn clamped_index(index: usize, len: nat) -> usize {
    if index >= len {
        if len == 0 {
            0
        } else {
            (len - 1) as usize
        }
    } else {
        index
    }
}

fn commands_out_of(v: &Vec<Command>, id: &str) -> (r: Vec<Command>)
    ensures
        command_views(r@) == all_out_of(command_views(v@), id@),
{
    let mut out: Vec<Command> = Vec::new();
    let mut i: usize = 0;
    while i < v.len()
        invariant
            i <= v@.len(),
            command_views(out@) == all_out_of(command_views(v@).take(i as int), id@),
        decreases v.len() - i,
    {
        let c = v[i].duplicate();
        let d = Command { collection_ids: strings_without(&v[i].collection_ids, id), ..c };
        let ghost before = command_views(out@);
        out.push(d);
        assert(command_views(out@) =~= before.push(out_of(v@[i as int]@, id@)));
        assert(all_out_of(command_views(v@).take(i + 1), id@) =~= all_out_of(
            command_views(v@).take(i as int),
            id@,
        ).push(out_of(v@[i as int]@, id@)));
        i += 1;
    }
    assert(command_views(v@).take(v@.len() as int) =~= command_views(v@));
    out
}

fn drop_collection(v: Vec<Collection>, id: &str) -> (r: Vec<Collection>)
    ensures
        r@ == collections_without(v@, id@),
{
    let ghost orig = v@;
    let mut input = v;
    let mut out: Vec<Collection> = Vec::new();
    let n = input.len();
    let mut i: usize = 0;
    while i < n
        invariant
            i <= n,
            n == orig.len(),
            input@ == orig.skip(i as int),
            out@ == collections_without(orig.take(i as int), id@),
        decreases n - i,
    {
        let x = input.remove(0);
        assert(x == orig[i as int]);
        assert(input@ =~= orig.skip(i + 1));
        assert(orig.take(i + 1).drop_last() =~= orig.take(i as int));
        assert(orig.take(i + 1).last() == x);
        if !str_eq(x.id.as_str(), id) {
            out.push(x);
        }
        i += 1;
    }
    assert(orig.take(n as int) =~= orig);
    out
}

impl AppState {
    /// Forgets the collection `id` once storage has deleted it: no command
    /// belongs to it any more, it leaves the list, the selection stays within
    /// the list, and the list is recomputed as of `now`.
    pub fn forget_collection_at(&mut self, id: &str, now: i64)
        ensures
            command_views(final(self).commands@) == all_out_of(
                command_views(old(self).commands@),
                id@,
            ),
            final(self).collections@ == collections_without(old(self).collections@, id@),
            final(self).selected_collection_index == clamped_index(
                old(self).selected_collection_index,
                final(self).collections@.len(),
            ),
            refiltered(
                AppState {
                    commands: final(self).commands,
                    collections: final(self).collections,
                    selected_collection_index: final(self).selected_collection_index,
                    ..*old(self)
                },
                *final(self),
                now as int,
            ),
    {
        self.commands = commands_out_of(&self.commands, id);
        let mut all: Vec<Collection> = Vec::new();
        std::mem::swap(&mut all, &mut self.collections);
        self.collections = drop_collection(all, id);
        if self.selected_collection_index >= self.collections.len() {
            self.selected_collection_index = if self.collections.len() == 0 {
                0
            } else {
                self.collections.len() - 1
            };
        }
        self.filter_commands_at(now);
    }
}

/// A command seen for the first time: only its id and text are known.
pub open spec fn fresh_command(text: Seq<char>) -> CommandView {
    CommandView {
        id: sha1_hex_of(normalized(text)),
        text,
        tags: Seq::empty(),
        collection_ids: Seq::empty(),
        favorite: false,
        context: Seq::empty(),
        use_count: 0,
        last_used: None,
        runs_here: 0,
    }
}

/// The commands with `text` among them, appended when it is new.
pub open spec fn with_text(cs: Seq<CommandView>, text: Seq<char>) -> Seq<CommandView> {
    if first_with_text(cs, text) is None {
        cs.push(fresh_command(text))
    } else {
        cs
    }
}

/// The commands once the first one with `text` (added if new) belongs to the
/// collection `id`: the id is appended unless it is already there.
pub open spec fn noted_in(cs: Seq<CommandView>, text: Seq<char>, id: Seq<char>) -> Seq<CommandView> {
    let all = with_text(cs, text);
    let k = first_with_text(all, text)->0;
    if all[k].collection_ids.contains(id) {
        all
    } else {
        all.update(k, CommandView { collection_ids: all[k].collection_ids.push(id), ..all[k] })
    }
}

/// The name of the first collection with the id `id`.
pub open spec fn collection_name(cs: Seq<Collection>, id: Seq<char>) -> Option<Seq<char>> {
    match first_collection_with_id(cs, id) {
        Some(i) => Some(cs[i].name@),
        None => None,
    }
}

/// Where the first command with this text sits in `v`.
fn find_text(v: &Vec<Command>, text: &str) -> (r: Option<usize>)
    ensures
        match r {
            Some(i) => first_with_text(command_views(v@), text@) == Some(i as int),
            None => first_with_text(command_views(v@), text@) is None,
        },
{
    let ghost cs = command_views(v@);
    proof {
        lemma_first_with_text(cs, text@);
    }
    let mut i: usize = 0;
    while i < v.len()
        invariant
            i <= v@.len(),
            cs == command_views(v@),
            forall|j: int| 0 <= j < i ==> (#[trigger] cs[j]).text != text@,
            match first_with_text(cs, text@) {
                Some(k) => 0 <= k < cs.len() && cs[k].text == text@ && forall|j: int|
                    0 <= j < k ==> (#[trigger] cs[j]).text != text@,
                None => forall|j: int| 0 <= j < cs.len() ==> (#[trigger] cs[j]).text != text@,
            },
        decreases v.len() - i,
    {
        if str_eq(v[i].text.as_str(), text) {
            proof {
                assert(cs[i as int].text == text@);
                match first_with_text(cs, text@) {
                    Some(k) => {
                        if k > i {
                            assert(cs[i as int].text != text@);
                        }
                    },
                    None => {
                        assert(cs[i as int].text != text@);
                    },
                }
            }
            return Some(i);
        }
        i += 1;
    }
    None
}

/// The name of the first collection with this id.
pub(crate) fn find_collection_name(v: &Vec<Collection>, id: &str) -> (r: Option<String>)
    ensures
        match r {
            Some(n) => collection_name(v@, id@) == Some(n@),
            None => collection_name(v@, id@) is None,
        },
{
    proof {
        lemma_first_collection_with_id(v@, id@);
    }
    let mut i: usize = 0;
    while i < v.len()
        invariant
            i <= v@.len(),
            forall|j: int| 0 <= j < i ==> (#[trigger] v@[j]).id@ != id@,
            match first_collection_with_id(v@, id@) {
                Some(k) => 0 <= k < v@.len() && v@[k].id@ == id@ && forall|j: int|
                    0 <= j < k ==> (#[trigger] v@[j]).id@ != id@,
                None => forall|j: int| 0 <= j < v@.len() ==> (#[trigger] v@[j]).id@ != id@,
            },
        decreases v.len() - i,
    {
        if str_eq(v[i].id.as_str(), id) {
            proof {
                match first_collection_with_id(v@, id@) {
                    Some(k) => {
                        if k < i {
                            assert(v@[k].id@ != id@);
                        } else if i < k {
                            assert(v@[i as int].id@ != id@);
                        }
                    },
                    None => {
                        assert(v@[i as int].id@ != id@);
                    },
                }
            }
            return Some(v[i].name.clone());
        }
        i += 1;
    }
    None
}

proof fn lemma_first_with_text_push(cs: Seq<CommandView>, c: CommandView)
    requires
        first_with_text(cs, c.text) is None,
    ensures
        first_with_text(cs.push(c), c.text) == Some(cs.len() as int),
{
    assert(cs.push(c).drop_last() =~= cs);
}

impl AppState {
    /// Puts the first command with this text (recorded as new if it is
    /// unknown) into the collection `id`; nothing else changes.
    fn note_in_collection(&mut self, text: &str, id: &str)
        ensures
            command_views(final(self).commands@) == noted_in(
                command_views(old(self).commands@),
                text@,
                id@,
            ),
            *final(self) == (AppState { commands: final(self).commands, ..*old(self) }),
    {
        let ghost cs0 = command_views(self.commands@);
        if self.position_of_text(text).is_none() {
            let ghost before = command_views(self.commands@);
            let fresh = Command {
                id: hash_command(text),
                text: text.to_string(),
                tags: Vec::new(),
                collection_ids: Vec::new(),
                favorite: false,
                _context: Vec::new(),
                use_count: 0,
                last_used: None,
                runs_here: 0,
            };
            assert(fresh@.tags =~= Seq::<Seq<char>>::empty());
            assert(fresh@.collection_ids =~= Seq::<Seq<char>>::empty());
            assert(fresh@.context =~= Seq::<Seq<char>>::empty());
            self.commands.push(fresh);
            assert(command_views(self.commands@) =~= before.push(fresh_command(text@)));
            proof {
                lemma_first_with_text_push(before, fresh_command(text@));
            }
        }
        let ghost cs1 = command_views(self.commands@);
        assert(cs1 == with_text(cs0, text@));
        proof {
            lemma_first_with_text(cs1, text@);
        }
        let k = match self.position_of_text(text) {
            Some(k) => k,
            None => {
                assert(false);
                0
            },
        };
        if !in_collection_id(&self.commands[k], id) {
            let mut cmd = self.commands.remove(k);
            assert(cmd@ == cs1[k as int]);
            let ghost ids = cmd@.collection_ids;
            cmd.collection_ids.push(id.to_string());
            assert(cmd@.collection_ids =~= ids.push(id@));
            self.commands.insert(k, cmd);
            assert(command_views(self.commands@) =~= cs1.update(
                k as int,
                CommandView { collection_ids: cs1[k as int].collection_ids.push(id@), ..cs1[k as int] },
            ));
        }
    }

    /// Puts the command with this text (recorded as new if it is unknown)
    /// into the collection `id` once storage has done so, recomputes the list
    /// as of `now` and selects the command there if it is shown. Gives the
    /// collection's name when it is listed.
    pub fn add_command_to_collection_at(&mut self, text: &str, id: &str, now: i64) -> (r: Option<String>)
        ensures
            command_views(final(self).commands@) == noted_in(
                command_views(old(self).commands@),
                text@,
                id@,
            ),
            match r {
                Some(n) => collection_name(old(self).collections@, id@) == Some(n@),
                None => collection_name(old(self).collections@, id@) is None,
            },
            relisted(
                AppState { commands: final(self).commands, ..*old(self) },
                *final(self),
                now as int,
            ),
            final(self).selected_index == match first_with_text(
                command_views(final(self).filtered@),
                text@,
            ) {
                Some(p) => p as usize,
                None => if old(self).search_query@.len() > 0 {
                    0
                } else {
                    old(self).selected_index
                },
            },
    {
        self.note_in_collection(text, id);
        let name = find_collection_name(&self.collections, id);
        self.filter_commands_at(now);
        match find_text(&self.filtered, text) {
            Some(p) => {
                self.selected_index = p;
            },
            None => {},
        }
        name
    }

    /// Puts the command with this text (recorded as new if it is unknown)
    /// into the selected collection once storage has done so, and recomputes
    /// the list as of `now`. Whether a collection was selected; with none,
    /// nothing changes.
    pub fn add_command_to_collection_by_text_at(&mut self, text: &str, now: i64) -> (r: bool)
        ensures
            r == (selected_collection_id(*old(self)) is Some),
            match selected_collection_id(*old(self)) {
                Some(id) => command_views(final(self).commands@) == noted_in(
                    command_views(old(self).commands@),
                    text@,
                    id,
                ) && refiltered(
                    AppState { commands: final(self).commands, ..*old(self) },
                    *final(self),
                    now as int,
                ),
                None => *final(self) == *old(self),
            },
    {
        let id = match self.selected_collection_id() {
            Some(id) => id.to_string(),
            None => return false,
        };
        self.note_in_collection(text, id.as_str());
        self.filter_commands_at(now);
        true
    }
}

/// The commands not in the collection `id`, in order.
pub open spec fn outside_collection(s: Seq<CommandView>, id: Seq<char>) -> Seq<CommandView>
    decreases s.len(),
{
    if s.len() == 0 {
        s
    } else if s.last().collection_ids.contains(id) {
        outside_collection(s.drop_last(), id)
    } else {
        outside_collection(s.drop_last(), id).push(s.last())
    }
}

/// The commands whose text matches `q`, with their scores, in order.
pub open spec fn text_hits(s: Seq<CommandView>, q: Seq<char>) -> Seq<(i64, CommandView)>
    decreases s.len(),
{
    if s.len() == 0 {
        Seq::empty()
    } else {
        match skim_indices(s.last().text, q) {
            Some((score, _)) => text_hits(s.drop_last(), q).push((score, s.last())),
            None => text_hits(s.drop_last(), q),
        }
    }
}

/// `x` placed before the first entry with a lower score.
pub open spec fn insert_scored(s: Seq<(i64, CommandView)>, x: (i64, CommandView)) -> Seq<(i64, CommandView)>
    decreases s.len(),
{
    if s.len() == 0 {
        seq![x]
    } else if s[0].0 < x.0 {
        seq![x] + s
    } else {
        seq![s[0]] + insert_scored(s.drop_first(), x)
    }
}

/// The entries by falling score; equal scores keep their order.
pub open spec fn by_falling_score(s: Seq<(i64, CommandView)>) -> Seq<(i64, CommandView)>
    decreases s.len(),
{
    if s.len() == 0 {
        s
    } else {
        insert_scored(by_falling_score(s.drop_last()), s.last())
    }
}

proof fn lemma_insert_scored_at(s: Seq<(i64, CommandView)>, x: (i64, CommandView), p: int)
    requires
        0 <= p <= s.len(),
        forall|j: int| 0 <= j < p ==> !((#[trigger] s[j]).0 < x.0),
        p < s.len() ==> s[p].0 < x.0,
    ensures
        insert_scored(s, x) == s.take(p) + seq![x] + s.skip(p),
    decreases s.len(),
{
    if s.len() == 0 {
        assert(s.take(p) + seq![x] + s.skip(p) =~= seq![x]);
    } else if p == 0 {
        assert(s.take(0) + seq![x] + s.skip(0) =~= seq![x] + s);
    } else {
        let t = s.drop_first();
        assert forall|j: int| 0 <= j < p - 1 implies !((#[trigger] t[j]).0 < x.0) by {
            assert(t[j] == s[j + 1]);
        }
        if p - 1 < t.len() {
            assert(t[p - 1] == s[p]);
        }
        lemma_insert_scored_at(t, x, p - 1);
        assert(seq![s[0]] + (t.take(p - 1) + seq![x] + t.skip(p - 1)) =~= s.take(p) + seq![x]
            + s.skip(p));
    }
}

/// What the search for a command to add to the selected collection offers:
/// the commands not already in it (in no collection's sense, an empty id,
/// when none is selected); for a query that is not blank once trimmed, only
/// those whose text matches it, best score first.
pub open spec fn add_candidates(st: AppState, query: Seq<char>) -> Seq<CommandView> {
    let id = match selected_collection_id(st) {
        Some(id) => id,
        None => Seq::empty(),
    };
    let base = outside_collection(command_views(st.commands@), id);
    let q = trim(query);
    if q.len() == 0 {
        base
    } else {
        by_falling_score(text_hits(base, q)).map_values(|h: (i64, CommandView)| h.1)
    }
}

pub open spec fn command_refs(v: Seq<&Command>) -> Seq<CommandView> {
    v.map_values(|c: &Command| c@)
}

pub open spec fn scored_refs(v: Seq<(i64, &Command)>) -> Seq<(i64, CommandView)> {
    v.map_values(|p: (i64, &Command)| (p.0, p.1@))
}

impl AppState {
    /// The commands offered for adding to the selected collection for the
    /// search text `query`.
    pub fn search_results_for_add_command(&self, query: &str) -> (r: Vec<&Command>)
        ensures
            command_refs(r@) == add_candidates(*self, query@),
    {
        let ghost cs = command_views(self.commands@);
        let empty = String::new();
        let id: &str = match self.selected_collection_id() {
            Some(id) => id,
            None => empty.as_str(),
        };
        let ghost gid = id@;
        assert(gid == match selected_collection_id(*self) {
            Some(i) => i,
            None => Seq::<char>::empty(),
        });
        let q = trim_str(query);
        let blank = q.as_str().is_empty();
        assert(blank == (q@.len() == 0));
        let mut plain: Vec<&Command> = Vec::new();
        let mut scored: Vec<(i64, &Command)> = Vec::new();
        let mut i: usize = 0;
        while i < self.commands.len()
            invariant
                i <= self.commands@.len(),
                cs == command_views(self.commands@),
                id@ == gid,
                q@ == trim(query@),
                command_refs(plain@) == outside_collection(cs.take(i as int), gid),
                !blank ==> scored_refs(scored@) == by_falling_score(
                    text_hits(outside_collection(cs.take(i as int), gid), q@),
                ),
            decreases self.commands.len() - i,
        {
            assert(cs.take(i + 1).drop_last() =~= cs.take(i as int));
            assert(cs.take(i + 1).last() == cs[i as int]);
            let c: &Command = &self.commands[i];
            if !in_collection_id(c, id) {
                let ghost before = outside_collection(cs.take(i as int), gid);
                let ghost pb = command_refs(plain@);
                plain.push(c);
                assert(command_refs(plain@) =~= pb.push(cs[i as int]));
                let ghost after = before.push(cs[i as int]);
                assert(after.drop_last() =~= before);
                if !blank {
                    match fuzzy_indices(c.text.as_str(), q.as_str()) {
                        Some((score, _)) => {
                            let ghost sb = scored_refs(scored@);
                            let mut p: usize = 0;
                            while p < scored.len() && !(scored[p].0 < score)
                                invariant
                                    p <= scored@.len(),
                                    scored_refs(scored@) == sb,
                                    forall|j: int| 0 <= j < p ==> !((#[trigger] sb[j]).0 < score),
                                decreases scored@.len() - p,
                            {
                                assert(sb[p as int].0 == scored@[p as int].0);
                                p += 1;
                            }
                            proof {
                                if p < scored@.len() {
                                    assert(sb[p as int].0 == scored@[p as int].0);
                                }
                                lemma_insert_scored_at(sb, (score, cs[i as int]), p as int);
                            }
                            scored.insert(p, (score, c));
                            assert(scored_refs(scored@) =~= sb.take(p as int) + seq![(score, cs[i as int])]
                                + sb.skip(p as int));
                            proof {
                                let th = text_hits(before, q@);
                                assert(text_hits(after, q@) == th.push((score, cs[i as int])));
                                assert(th.push((score, cs[i as int])).drop_last() =~= th);
                            }
                        },
                        None => {
                            assert(text_hits(after, q@) == text_hits(before, q@));
                        },
                    }
                }
            }
            i += 1;
        }
        assert(cs.take(self.commands@.len() as int) =~= cs);
        if blank {
            return plain;
        }
        let mut out: Vec<&Command> = Vec::new();
        let mut k: usize = 0;
        let ghost sv = scored_refs(scored@);
        while k < scored.len()
            invariant
                k <= scored@.len(),
                sv == scored_refs(scored@),
                command_refs(out@) == sv.take(k as int).map_values(|h: (i64, CommandView)| h.1),
            decreases scored.len() - k,
        {
            let ghost ob = command_refs(out@);
            out.push(scored[k].1);
            assert(command_refs(out@) =~= ob.push(sv[k as int].1));
            assert(sv.take(k + 1).map_values(|h: (i64, CommandView)| h.1) =~= sv.take(k as int).map_values(
                |h: (i64, CommandView)| h.1,
            ).push(sv[k as int].1));
            k += 1;
        }
        assert(sv.take(scored@.len() as int) =~= sv);
        out
    }
}

/// The commands once the first one with `text` has left the collection `id`.
pub open spec fn dropped_from(cs: Seq<CommandView>, text: Seq<char>, id: Seq<char>) -> Seq<CommandView> {
    match first_with_text(cs, text) {
        Some(k) => cs.update(k, out_of(cs[k], id)),
        None => cs,
    }
}

impl AppState {
    /// Takes the first command with this text out of the collection `id` once
    /// storage has done so, and recomputes the list as of `now`.
    pub fn drop_from_collection_at(&mut self, text: &str, id: &str, now: i64)
        ensures
            command_views(final(self).commands@) == dropped_from(
                command_views(old(self).commands@),
                text@,
                id@,
            ),
            refiltered(
                AppState { commands: final(self).commands, ..*old(self) },
                *final(self),
                now as int,
            ),
    {
        let ghost cs = command_views(self.commands@);
        match self.position_of_text(text) {
            Some(k) => {
                let cmd = self.commands.remove(k);
                assert(cmd@ == cs[k as int]);
                let kept = Command { collection_ids: strings_without(&cmd.collection_ids, id), ..cmd };
                self.commands.insert(k, kept);
                assert(command_views(self.commands@) =~= cs.update(k as int, out_of(cs[k as int], id@)));
            },
            None => {},
        }
        self.filter_commands_at(now);
    }
}

proof fn lemma_ids_without_absent(ids: Seq<Seq<char>>, id: Seq<char>)
    requires
        !ids.contains(id),
    ensures
        ids_without(ids, id) == ids,
    decreases ids.len(),
{
    if ids.len() > 0 {
        assert(!ids.drop_last().contains(id)) by {
            if ids.drop_last().contains(id) {
                let k = choose|k: int| 0 <= k < ids.drop_last().len() && ids.drop_last()[k] == id;
                assert(ids[k] == id);
            }
        }
        assert(ids.last() != id) by {
            assert(ids[ids.len() - 1] == ids.last());
        }
        lemma_ids_without_absent(ids.drop_last(), id);
        assert(ids.drop_last().push(ids.last()) =~= ids);
    }
}

proof fn lemma_ids_without_drops(ids: Seq<Seq<char>>, id: Seq<char>)
    ensures
        !ids_without(ids, id).contains(id),
    decreases ids.len(),
{
    if ids.len() > 0 {
        lemma_ids_without_drops(ids.drop_last(), id);
        let before = ids_without(ids.drop_last(), id);
        if ids.last() != id {
            assert forall|k: int| 0 <= k < before.push(ids.last()).len() implies before.push(
                ids.last(),
            )[k] != id by {
                if k < before.len() {
                    assert(before.push(ids.last())[k] == before[k]);
                }
            }
        }
    }
}

/// Taking a command out of a collection it was just put in gives back the
/// command as it was before.
pub proof fn law_remove_undoes_add(c: CommandView, id: Seq<char>)
    requires
        !c.collection_ids.contains(id),
    ensures
        out_of(CommandView { collection_ids: c.collection_ids.push(id), ..c }, id) == c,
{
    let ids = c.collection_ids;
    assert(ids.push(id).drop_last() =~= ids);
    lemma_ids_without_absent(ids, id);
}

/// Once a collection is forgotten, no command belongs to it, and every
/// command is still there.
pub proof fn law_forgotten_collection_has_no_members(cs: Seq<CommandView>, id: Seq<char>)
    ensures
        all_out_of(cs, id).len() == cs.len(),
        forall|k: int| 0 <= k < cs.len() ==> !(#[trigger] all_out_of(cs, id)[k]).collection_ids.contains(id),
        forall|k: int| 0 <= k < cs.len() ==> (#[trigger] all_out_of(cs, id)[k]).text == cs[k].text,
{
    assert forall|k: int| 0 <= k < cs.len() implies !(#[trigger] all_out_of(cs, id)[k]).collection_ids.contains(id) by {
        lemma_ids_without_drops(cs[k].collection_ids, id);
    }
}

/// A recorded run keeps every command once: the one that ran comes first,
/// counted once more, and the others follow in their order.
pub proof fn law_run_keeps_every_command(old: AppState, new: AppState, i: int, now: i64)
    requires
        0 <= i < old.commands@.len(),
        command_views(old.commands@)[i].use_count < i32::MAX,
        executed(old, new, i, now),
    ensures
        new.commands@.len() == old.commands@.len(),
        command_views(new.commands@)[0].text == command_views(old.commands@)[i].text,
        command_views(new.commands@)[0].use_count == command_views(old.commands@)[i].use_count + 1,
        forall|j: int| 0 <= j < i ==> command_views(new.commands@)[j + 1] == #[trigger] command_views(old.commands@)[j],
        forall|j: int| i < j < old.commands@.len() ==> command_views(new.commands@)[j] == #[trigger] command_views(old.commands@)[j],
{
    let cs = command_views(old.commands@);
    let ns = command_views(new.commands@);
    assert(ns.len() == new.commands@.len());
    assert(ns.len() == 1 + cs.remove(i).len());
    assert forall|j: int| 0 <= j < i implies ns[j + 1] == #[trigger] cs[j] by {
        assert(ns[j + 1] == cs.remove(i)[j]);
    }
    assert forall|j: int| i < j < old.commands@.len() implies ns[j] == #[trigger] cs[j] by {
        assert(ns[j] == cs.remove(i)[j - 1]);
    }
}

/// The first collection with the id `id`.
pub open spec fn first_collection_with_id(cs: Seq<Collection>, id: Seq<char>) -> Option<int>
    decreases cs.len(),
{
    if cs.len() == 0 {
        None
    } else {
        match first_collection_with_id(cs.drop_last(), id) {
            Some(i) => Some(i),
            None => if cs.last().id@ == id {
                Some(cs.len() - 1)
            } else {
                None
            },
        }
    }
}

pub(crate) proof fn lemma_first_collection_with_id(cs: Seq<Collection>, id: Seq<char>)
    ensures
        match first_collection_with_id(cs, id) {
            Some(i) => 0 <= i < cs.len() && cs[i].id@ == id && forall|j: int|
                0 <= j < i ==> (#[trigger] cs[j]).id@ != id,
            None => forall|j: int| 0 <= j < cs.len() ==> (#[trigger] cs[j]).id@ != id,
        },
    decreases cs.len(),
{
    if cs.len() > 0 {
        lemma_first_collection_with_id(cs.drop_last(), id);
        match first_collection_with_id(cs.drop_last(), id) {
            Some(i) => {
                assert forall|j: int| 0 <= j < i implies (#[trigger] cs[j]).id@ != id by {
                    assert(cs[j] == cs.drop_last()[j]);
                }
                assert(cs[i] == cs.drop_last()[i]);
            },
            None => {
                assert forall|j: int| 0 <= j < cs.len() - 1 implies (#[trigger] cs[j]).id@ != id by {
                    assert(cs[j] == cs.drop_last()[j]);
                }
            },
        }
    }
}

} // verus!
