//! Merging the commands read from several places into one list: one entry per
//! canonical form, in order of first occurrence.
use vstd::prelude::*;
use crate::hash::{normalize, normalized};
use crate::state::{command_views, Command, CommandView};
use crate::text::{chars_of, owned, position_of, str_eq, views};

verus! {

// ---------------------------------------------------------------------------
// Ordering texts
// ---------------------------------------------------------------------------

/// Lexicographic order by code point: the order of `<` on `String`, since
/// UTF-8 keeps the order of code points.
pub open spec fn str_lt(a: Seq<char>, b: Seq<char>) -> bool
    decreases a.len(),
{
    if a.len() == 0 {
        b.len() > 0
    } else if b.len() == 0 {
        false
    } else if a[0] != b[0] {
        (a[0] as int) < (b[0] as int)
    } else {
        str_lt(a.skip(1), b.skip(1))
    }
}

/// Each text strictly before the next.
pub open spec fn strictly_sorted(r: Seq<Seq<char>>) -> bool {
    forall|i: int, j: int| 0 <= i < j < r.len() ==> str_lt(#[trigger] r[i], #[trigger] r[j])
}

/// `t` put into its place in `r`, unless it is there already.
pub open spec fn sorted_insert(r: Seq<Seq<char>>, t: Seq<char>) -> Seq<Seq<char>>
    decreases r.len(),
{
    if r.len() == 0 {
        seq![t]
    } else if r[0] == t {
        r
    } else if str_lt(t, r[0]) {
        seq![t] + r
    } else {
        seq![r[0]] + sorted_insert(r.skip(1), t)
    }
}

/// The distinct texts of `xs`, sorted.
pub open spec fn sorted_union(xs: Seq<Seq<char>>) -> Seq<Seq<char>>
    decreases xs.len(),
{
    if xs.len() == 0 {
        Seq::empty()
    } else {
        sorted_insert(sorted_union(xs.drop_last()), xs.last())
    }
}

/// `e` followed by each item of `c` it does not hold yet, in `c`'s order.
pub open spec fn context_union(e: Seq<Seq<char>>, c: Seq<Seq<char>>) -> Seq<Seq<char>>
    decreases c.len(),
{
    if c.len() == 0 {
        e
    } else {
        let m = context_union(e, c.drop_last());
        if m.contains(c.last()) {
            m
        } else {
            m.push(c.last())
        }
    }
}

/// The later of two times, where a time at all is later than none.
pub open spec fn later(a: Option<i64>, b: Option<i64>) -> Option<i64> {
    match b {
        None => a,
        Some(y) => match a {
            None => b,
            Some(x) => if y > x {
                b
            } else {
                a
            },
        },
    }
}

/// `c` merged into the entry `e` of its canonical form: counts added, tags
/// united and sorted, favourite if either is, the later time, contexts
/// appended. Id, text, collections and local runs stay `e`'s.
pub open spec fn merged(e: CommandView, c: CommandView) -> CommandView {
    CommandView {
        id: e.id,
        text: e.text,
        tags: sorted_union(e.tags + c.tags),
        collection_ids: e.collection_ids,
        favorite: e.favorite || c.favorite,
        context: context_union(e.context, c.context),
        use_count: (e.use_count + c.use_count) as i32,
        last_used: later(e.last_used, c.last_used),
        runs_here: e.runs_here,
    }
}

/// Index of the first entry from `from` on whose text has canonical form `key`.
pub open spec fn entry_for(prev: Seq<CommandView>, key: Seq<char>, from: int) -> Option<int>
    decreases prev.len() - from,
{
    if from < 0 || from >= prev.len() {
        None
    } else if normalized(prev[from].text) == key {
        Some(from)
    } else {
        entry_for(prev, key, from + 1)
    }
}

/// The merged list: each command merged into the entry of its canonical form,
/// or appended as a new entry when it is the first of its form.
pub open spec fn dedup_fold(cs: Seq<CommandView>) -> Seq<CommandView>
    decreases cs.len(),
{
    if cs.len() == 0 {
        Seq::empty()
    } else {
        let prev = dedup_fold(cs.drop_last());
        let c = cs.last();
        match entry_for(prev, normalized(c.text), 0) {
            Some(k) => prev.update(k, merged(prev[k], c)),
            None => prev.push(c),
        }
    }
}

/// Every merge adds counts that fit in an `i32`.
pub open spec fn counts_fit(cs: Seq<CommandView>) -> bool
    decreases cs.len(),
{
    cs.len() == 0 || (counts_fit(cs.drop_last()) && {
        let prev = dedup_fold(cs.drop_last());
        match entry_for(prev, normalized(cs.last().text), 0) {
            Some(k) => i32::MIN <= prev[k].use_count + cs.last().use_count <= i32::MAX,
            None => true,
        }
    })
}

proof fn lemma_entry_for(prev: Seq<CommandView>, key: Seq<char>, from: int)
    requires
        0 <= from,
    ensures
        match entry_for(prev, key, from) {
            Some(k) => from <= k < prev.len() && normalized(prev[k].text) == key,
            None => forall|j: int| from <= j < prev.len() ==> normalized(#[trigger] prev[j].text) != key,
        },
    decreases prev.len() - from,
{
    if from < prev.len() && normalized(prev[from].text) != key {
        lemma_entry_for(prev, key, from + 1);
    }
}

proof fn lemma_entry_for_at(prev: Seq<CommandView>, key: Seq<char>, from: int, k: int)
    requires
        0 <= from <= k <= prev.len(),
        forall|j: int| from <= j < k ==> normalized(#[trigger] prev[j].text) != key,
        k < prev.len() ==> normalized(prev[k].text) == key,
    ensures
        entry_for(prev, key, from) == (if k < prev.len() {
            Some(k)
        } else {
            None::<int>
        }),
    decreases k - from,
{
    if from < k {
        lemma_entry_for_at(prev, key, from + 1, k);
    }
}

proof fn lemma_counts_fit_prefix(cs: Seq<CommandView>, k: int)
    requires
        counts_fit(cs),
        0 <= k <= cs.len(),
    ensures
        counts_fit(cs.take(k)),
    decreases cs.len() - k,
{
    if k < cs.len() {
        assert(cs.drop_last() =~= cs.take(cs.len() - 1));
        lemma_counts_fit_prefix(cs.drop_last(), k);
        assert(cs.drop_last().take(k) =~= cs.take(k));
    } else {
        assert(cs.take(k) =~= cs);
    }
}

// ---------------------------------------------------------------------------
// Laws
// ---------------------------------------------------------------------------

pub(crate) proof fn lemma_str_lt_irrefl(a: Seq<char>)
    ensures
        !str_lt(a, a),
    decreases a.len(),
{
    if a.len() > 0 {
        lemma_str_lt_irrefl(a.skip(1));
    }
}

pub(crate) proof fn lemma_str_lt_trans(a: Seq<char>, b: Seq<char>, c: Seq<char>)
    requires
        str_lt(a, b),
        str_lt(b, c),
    ensures
        str_lt(a, c),
    decreases a.len(),
{
    if a.len() > 0 && b.len() > 0 && c.len() > 0 && a[0] == b[0] && b[0] == c[0] {
        lemma_str_lt_trans(a.skip(1), b.skip(1), c.skip(1));
    }
}

proof fn lemma_str_lt_total(a: Seq<char>, b: Seq<char>)
    requires
        a != b,
    ensures
        str_lt(a, b) || str_lt(b, a),
    decreases a.len(),
{
    if a.len() == 0 && b.len() == 0 {
        assert(a =~= b);
    } else if a.len() > 0 && b.len() > 0 && a[0] == b[0] {
        if a.skip(1) == b.skip(1) {
            assert(a =~= seq![a[0]] + a.skip(1));
            assert(b =~= seq![b[0]] + b.skip(1));
        }
        lemma_str_lt_total(a.skip(1), b.skip(1));
    } else if a.len() > 0 && b.len() > 0 {
        assert((a[0] as int) != (b[0] as int));
    }
}

proof fn lemma_sorted_insert(r: Seq<Seq<char>>, t: Seq<char>)
    requires
        strictly_sorted(r),
    ensures
        strictly_sorted(sorted_insert(r, t)),
        sorted_insert(r, t).to_set() == r.to_set().insert(t),
    decreases r.len(),
{
    let s = sorted_insert(r, t);
    if r.len() == 0 {
        assert(s.to_set() =~= r.to_set().insert(t)) by {
            assert(s[0] == t);
        }
    } else if r[0] == t {
        assert(s.to_set() =~= r.to_set().insert(t)) by {
            assert(r.contains(r[0]));
        }
    } else if str_lt(t, r[0]) {
        assert forall|i: int, j: int| 0 <= i < j < s.len() implies str_lt(#[trigger] s[i], #[trigger] s[j]) by {
            if i == 0 {
                if j > 1 {
                    lemma_str_lt_trans(t, r[0], r[j - 1]);
                }
            } else {
                assert(s[i] == r[i - 1] && s[j] == r[j - 1]);
            }
        }
        assert(s.to_set() =~= r.to_set().insert(t)) by {
            assert(s[0] == t);
            assert forall|x: Seq<char>| r.contains(x) implies s.contains(x) by {
                let k = choose|k: int| 0 <= k < r.len() && r[k] == x;
                assert(s[k + 1] == x);
            }
            assert forall|x: Seq<char>| s.contains(x) implies x == t || r.contains(x) by {
                let k = choose|k: int| 0 <= k < s.len() && s[k] == x;
                if k > 0 {
                    assert(r[k - 1] == x);
                }
            }
        }
    } else {
        lemma_str_lt_total(t, r[0]);
        let rest = r.skip(1);
        assert(strictly_sorted(rest)) by {
            assert forall|i: int, j: int| 0 <= i < j < rest.len() implies str_lt(#[trigger] rest[i], #[trigger] rest[j]) by {
                assert(rest[i] == r[i + 1] && rest[j] == r[j + 1]);
            }
        }
        lemma_sorted_insert(rest, t);
        let tail = sorted_insert(rest, t);
        assert(s == seq![r[0]] + tail);
        assert forall|x: Seq<char>| tail.contains(x) implies str_lt(r[0], x) by {
            assert(tail.to_set().contains(x));
            if x != t {
                let k = choose|k: int| 0 <= k < rest.len() && rest[k] == x;
                assert(r[k + 1] == x);
            }
        }
        assert forall|i: int, j: int| 0 <= i < j < s.len() implies str_lt(#[trigger] s[i], #[trigger] s[j]) by {
            if i == 0 {
                assert(tail.contains(tail[j - 1]));
            } else {
                assert(s[i] == tail[i - 1] && s[j] == tail[j - 1]);
            }
        }
        assert(s.to_set() =~= r.to_set().insert(t)) by {
            assert forall|x: Seq<char>| r.to_set().insert(t).contains(x) implies s.contains(x) by {
                if x == r[0] {
                    assert(s[0] == x);
                } else if x != t {
                    let k = choose|k: int| 0 <= k < r.len() && r[k] == x;
                    assert(rest[k - 1] == x);
                    assert(tail.to_set().contains(x));
                    let m = choose|m: int| 0 <= m < tail.len() && tail[m] == x;
                    assert(s[m + 1] == x);
                } else {
                    assert(tail.to_set().contains(x));
                    let m = choose|m: int| 0 <= m < tail.len() && tail[m] == x;
                    assert(s[m + 1] == x);
                }
            }
            assert forall|x: Seq<char>| s.contains(x) implies r.to_set().insert(t).contains(x) by {
                let k = choose|k: int| 0 <= k < s.len() && s[k] == x;
                if k == 0 {
                    assert(r[0] == x);
                } else {
                    assert(tail[k - 1] == x);
                    assert(tail.to_set().contains(x));
                    if x != t {
                        let m = choose|m: int| 0 <= m < rest.len() && rest[m] == x;
                        assert(r[m + 1] == x);
                    }
                }
            }
        }
    }
}

/// The tags of a merged command are the distinct tags of both, each once,
/// in ascending order.
pub proof fn law_sorted_union(xs: Seq<Seq<char>>)
    ensures
        strictly_sorted(sorted_union(xs)),
        sorted_union(xs).to_set() == xs.to_set(),
    decreases xs.len(),
{
    if xs.len() > 0 {
        law_sorted_union(xs.drop_last());
        lemma_sorted_insert(sorted_union(xs.drop_last()), xs.last());
        assert(xs.to_set() =~= xs.drop_last().to_set().insert(xs.last())) by {
            assert forall|x: Seq<char>| xs.contains(x) implies xs.drop_last().contains(x) || x == xs.last() by {
                let k = choose|k: int| 0 <= k < xs.len() && xs[k] == x;
                if k < xs.len() - 1 {
                    assert(xs.drop_last()[k] == x);
                }
            }
            assert forall|x: Seq<char>| xs.drop_last().contains(x) implies xs.contains(x) by {
                let k = choose|k: int| 0 <= k < xs.len() - 1 && xs.drop_last()[k] == x;
                assert(xs[k] == x);
            }
        }
    } else {
        assert(xs.to_set() =~= Set::empty());
        assert(sorted_union(xs).to_set() =~= Set::empty());
    }
}

/// After merging, no two entries share a canonical form.
pub proof fn law_dedup_forms_distinct(cs: Seq<CommandView>)
    ensures
        forall|i: int, j: int|
            0 <= i < j < dedup_fold(cs).len() ==> normalized(#[trigger] dedup_fold(cs)[i].text)
                != normalized(#[trigger] dedup_fold(cs)[j].text),
    decreases cs.len(),
{
    if cs.len() > 0 {
        law_dedup_forms_distinct(cs.drop_last());
        let prev = dedup_fold(cs.drop_last());
        lemma_entry_for(prev, normalized(cs.last().text), 0);
        let r = dedup_fold(cs);
        assert forall|i: int, j: int| 0 <= i < j < r.len() implies normalized(#[trigger] r[i].text)
            != normalized(#[trigger] r[j].text) by {
            if j < prev.len() {
                assert(r[i].text == prev[i].text && r[j].text == prev[j].text);
            }
        }
    }
}

/// Every canonical form of the input has its entry after merging.
pub proof fn law_dedup_keeps_every_form(cs: Seq<CommandView>)
    ensures
        forall|i: int|
            0 <= i < cs.len() ==> exists|k: int|
                0 <= k < dedup_fold(cs).len() && normalized(#[trigger] dedup_fold(cs)[k].text)
                    == normalized(#[trigger] cs[i].text),
    decreases cs.len(),
{
    if cs.len() > 0 {
        law_dedup_keeps_every_form(cs.drop_last());
        let prev = dedup_fold(cs.drop_last());
        lemma_entry_for(prev, normalized(cs.last().text), 0);
        let r = dedup_fold(cs);
        assert forall|i: int| 0 <= i < cs.len() implies exists|k: int|
            0 <= k < r.len() && normalized(#[trigger] r[k].text) == normalized(#[trigger] cs[i].text) by {
            if i < cs.len() - 1 {
                assert(cs.drop_last()[i] == cs[i]);
                let k = choose|k: int|
                    0 <= k < prev.len() && normalized(#[trigger] prev[k].text) == normalized(
                        cs.drop_last()[i].text,
                    );
                assert(r[k].text == prev[k].text);
            } else {
                match entry_for(prev, normalized(cs.last().text), 0) {
                    Some(k) => {
                        assert(r[k].text == prev[k].text);
                    },
                    None => {
                        assert(r[prev.len() as int] == cs.last());
                    },
                }
            }
        }
    }
}

/// The sum of the use counts of a list of commands.
pub open spec fn use_total(s: Seq<CommandView>) -> int
    decreases s.len(),
{
    if s.len() == 0 {
        0
    } else {
        use_total(s.drop_last()) + s.last().use_count
    }
}

proof fn lemma_use_total_update(s: Seq<CommandView>, k: int, v: CommandView)
    requires
        0 <= k < s.len(),
    ensures
        use_total(s.update(k, v)) == use_total(s) - s[k].use_count + v.use_count,
    decreases s.len(),
{
    if k < s.len() - 1 {
        assert(s.update(k, v).drop_last() =~= s.drop_last().update(k, v));
        lemma_use_total_update(s.drop_last(), k, v);
    } else {
        assert(s.update(k, v).drop_last() =~= s.drop_last());
    }
}

/// Merging loses no use: the counts after add up to the counts before.
pub proof fn law_dedup_keeps_total_use(cs: Seq<CommandView>)
    requires
        counts_fit(cs),
    ensures
        use_total(dedup_fold(cs)) == use_total(cs),
    decreases cs.len(),
{
    if cs.len() > 0 {
        law_dedup_keeps_total_use(cs.drop_last());
        let prev = dedup_fold(cs.drop_last());
        lemma_entry_for(prev, normalized(cs.last().text), 0);
        if let Some(k) = entry_for(prev, normalized(cs.last().text), 0) {
            lemma_use_total_update(prev, k, merged(prev[k], cs.last()));
        } else {
            assert(prev.push(cs.last()).drop_last() =~= prev);
        }
    }
}

// ---------------------------------------------------------------------------
// Executable parts
// ---------------------------------------------------------------------------

/// Whether `a` sorts strictly before `b`.
pub fn str_less(a: &str, b: &str) -> (r: bool)
    ensures
        r == str_lt(a@, b@),
{
    let va = chars_of(a);
    let vb = chars_of(b);
    let mut i: usize = 0;
    assert(va@.skip(0) =~= va@);
    assert(vb@.skip(0) =~= vb@);
    while i < va.len() && i < vb.len() && va[i] == vb[i]
        invariant
            i <= va@.len(),
            i <= vb@.len(),
            str_lt(a@, b@) == str_lt(va@.skip(i as int), vb@.skip(i as int)),
        decreases va.len() - i,
    {
        assert(va@.skip(i as int).skip(1) =~= va@.skip(i + 1));
        assert(vb@.skip(i as int).skip(1) =~= vb@.skip(i + 1));
        i += 1;
    }
    if i == va.len() {
        i < vb.len()
    } else if i == vb.len() {
        false
    } else {
        va[i] < vb[i]
    }
}

/// Puts `t` into its place in the sorted list `r`, unless it is there.
pub(crate) fn insert_sorted(r: &mut Vec<String>, t: String)
    ensures
        views(final(r)@) == sorted_insert(views(old(r)@), t@),
{
    let ghost big_r = views(r@);
    let mut p: usize = 0;
    assert(big_r.take(0) + big_r.skip(0) =~= big_r);
    while p < r.len()
        invariant
            p <= r@.len(),
            views(r@) == big_r,
            big_r == views(old(r)@),
            sorted_insert(big_r, t@) == big_r.take(p as int) + sorted_insert(big_r.skip(p as int), t@),
        decreases r.len() - p,
    {
        let ghost here = big_r.skip(p as int);
        assert(here[0] == r@[p as int]@);
        if str_eq(r[p].as_str(), t.as_str()) {
            assert(big_r.take(p as int) + here =~= big_r);
            return;
        }
        if str_less(t.as_str(), r[p].as_str()) {
            r.insert(p, t);
            assert(views(r@) =~= big_r.take(p as int) + (seq![t@] + here));
            return;
        }
        assert(here.skip(1) =~= big_r.skip(p + 1));
        assert(big_r.take(p + 1) =~= big_r.take(p as int).push(big_r[p as int]));
        assert(big_r.take(p as int) + (seq![big_r[p as int]] + sorted_insert(big_r.skip(p + 1), t@))
            =~= big_r.take(p + 1) + sorted_insert(big_r.skip(p + 1), t@));
        p += 1;
    }
    assert(big_r.take(p as int) =~= big_r);
    assert(big_r.skip(p as int) =~= Seq::<Seq<char>>::empty());
    r.push(t);
    assert(views(r@) =~= big_r + seq![t@]);
}

/// The distinct texts of `a` and `b` together, sorted.
fn merge_tags(a: &Vec<String>, b: &Vec<String>) -> (r: Vec<String>)
    ensures
        views(r@) == sorted_union(views(a@) + views(b@)),
{
    let ghost xs = views(a@) + views(b@);
    let mut r: Vec<String> = Vec::new();
    let mut i: usize = 0;
    while i < a.len()
        invariant
            i <= a@.len(),
            xs == views(a@) + views(b@),
            views(r@) == sorted_union(xs.take(i as int)),
        decreases a.len() - i,
    {
        let t = owned(a[i].as_str());
        assert(t@ == xs[i as int]);
        assert(xs.take(i + 1).drop_last() =~= xs.take(i as int));
        insert_sorted(&mut r, t);
        i += 1;
    }
    let mut j: usize = 0;
    while j < b.len()
        invariant
            i == a@.len(),
            j <= b@.len(),
            xs == views(a@) + views(b@),
            views(r@) == sorted_union(xs.take(i + j)),
        decreases b.len() - j,
    {
        let t = owned(b[j].as_str());
        assert(t@ == xs[i + j]);
        assert(xs.take(i + j + 1).drop_last() =~= xs.take(i + j));
        insert_sorted(&mut r, t);
        j += 1;
    }
    assert(xs.take(i + j) =~= xs);
    r
}

/// Whether `v` holds the text `s`.
fn holds(v: &Vec<String>, s: &str) -> (r: bool)
    ensures
        r == views(v@).contains(s@),
{
    let mut i: usize = 0;
    while i < v.len()
        invariant
            i <= v@.len(),
            forall|j: int| 0 <= j < i ==> views(v@)[j] != s@,
        decreases v.len() - i,
    {
        if str_eq(v[i].as_str(), s) {
            assert(views(v@)[i as int] == s@);
            return true;
        }
        i += 1;
    }
    false
}

/// Appends each item of `c` that `e` does not hold yet.
fn merge_context(e: &mut Vec<String>, c: &Vec<String>)
    ensures
        views(final(e)@) == context_union(views(old(e)@), views(c@)),
{
    let ghost start = views(e@);
    let mut i: usize = 0;
    while i < c.len()
        invariant
            i <= c@.len(),
            start == views(old(e)@),
            views(e@) == context_union(start, views(c@).take(i as int)),
        decreases c.len() - i,
    {
        assert(views(c@).take(i + 1).drop_last() =~= views(c@).take(i as int));
        if !holds(e, c[i].as_str()) {
            let ghost before = views(e@);
            e.push(owned(c[i].as_str()));
            assert(views(e@) =~= before.push(c@[i as int]@));
        }
        i += 1;
    }
    assert(views(c@).take(c@.len() as int) =~= views(c@));
}

/// `c` merged into `e`.
fn merge_command(e: Command, c: Command) -> (m: Command)
    requires
        i32::MIN <= e.use_count + c.use_count <= i32::MAX,
    ensures
        m@ == merged(e@, c@),
{
    let tags = merge_tags(&e.tags, &c.tags);
    let mut context = e._context;
    merge_context(&mut context, &c._context);
    let last_used = match c.last_used {
        None => e.last_used,
        Some(y) => match e.last_used {
            None => c.last_used,
            Some(x) => if y > x {
                c.last_used
            } else {
                e.last_used
            },
        },
    };
    Command {
        id: e.id,
        text: e.text,
        tags,
        collection_ids: e.collection_ids,
        favorite: e.favorite || c.favorite,
        _context: context,
        use_count: e.use_count + c.use_count,
        last_used,
        runs_here: e.runs_here,
    }
}

/// Merges commands that share a canonical form. The first occurrence keeps
/// its place, text and id; the others add their counts, tags, favourite mark,
/// time and contexts to it.
pub fn deduplicate(commands: Vec<Command>) -> (r: Vec<Command>)
    requires
        counts_fit(command_views(commands@)),
    ensures
        command_views(r@) == dedup_fold(command_views(commands@)),
{
    let ghost cs = command_views(commands@);
    let ghost orig = commands@;
    let n = commands.len();
    let mut src = commands;
    let mut rev: Vec<Command> = Vec::new();
    while src.len() > 0
        invariant
            src@.len() + rev@.len() == n,
            n == orig.len(),
            src@ == orig.take(src@.len() as int),
            forall|j: int| 0 <= j < rev@.len() ==> #[trigger] rev@[j] == orig[n - 1 - j],
        decreases src.len(),
    {
        let c = src.pop().unwrap();
        rev.push(c);
    }
    let mut out: Vec<Command> = Vec::new();
    let mut keys: Vec<Vec<char>> = Vec::new();
    let mut i: usize = 0;
    while rev.len() > 0
        invariant
            rev@.len() + i == n,
            n == orig.len(),
            cs == command_views(orig),
            counts_fit(cs),
            forall|j: int| 0 <= j < rev@.len() ==> #[trigger] rev@[j] == orig[n - 1 - j],
            command_views(out@) == dedup_fold(cs.take(i as int)),
            keys@.len() == out@.len(),
            forall|k: int| 0 <= k < keys@.len() ==> #[trigger] keys@[k]@ == normalized(out@[k].text@),
        decreases rev.len(),
    {
        let ghost prev = dedup_fold(cs.take(i as int));
        assert(cs.take(i + 1).drop_last() =~= cs.take(i as int));
        assert(cs.take(i + 1).last() == cs[i as int]);
        proof {
            lemma_counts_fit_prefix(cs, i + 1);
        }
        let c = rev.pop().unwrap();
        assert(c == orig[i as int]);
        assert(c@ == cs[i as int]);
        let key_s = normalize(c.text.as_str());
        let key = chars_of(key_s.as_str());
        let pos = position_of(&keys, key.as_slice());
        proof {
            let lim = match pos {
                Some(k) => k as int,
                None => prev.len() as int,
            };
            assert forall|j: int| 0 <= j < lim implies normalized(#[trigger] prev[j].text) != key@ by {
                assert(command_views(out@)[j] == prev[j]);
                assert(keys@[j]@ != key@);
            }
            if let Some(k) = pos {
                assert(command_views(out@)[k as int] == prev[k as int]);
            }
            lemma_entry_for_at(prev, key@, 0, lim);
        }
        match pos {
            Some(k) => {
                let e = out.remove(k);
                assert(e@ == prev[k as int]);
                let m = merge_command(e, c);
                out.insert(k, m);
                assert(command_views(out@) =~= prev.update(k as int, merged(prev[k as int], cs[i as int])));
            },
            None => {
                let ghost before = command_views(out@);
                out.push(c);
                keys.push(key);
                assert(command_views(out@) =~= before.push(cs[i as int]));
            },
        }
        i += 1;
    }
    assert(cs.take(n as int) =~= cs);
    out
}

} // verus!
