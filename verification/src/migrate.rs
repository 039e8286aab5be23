//! Re-keying stored commands to the canonical id of their text: which rows
//! merge, and what the merged row holds.
use vstd::prelude::*;
use crate::hash::{hash_command, normalize, normalized, sha1_hex_of};
use crate::history::dedup::{insert_sorted, sorted_union, str_less, str_lt};
use crate::text::{str_eq, views};

verus! {

/// A row of the commands table as stored.
#[derive(Debug)]
pub struct StoredCommand {
    pub id: String,
    pub text: String,
    pub favorite: i64,
    pub last_used: Option<i64>,
    pub use_count: i64,
    pub created_at: Option<i64>,
}

/// A stored row as plain values.
pub struct StoredView {
    pub id: Seq<char>,
    pub text: Seq<char>,
    pub favorite: i64,
    pub last_used: Option<i64>,
    pub use_count: i64,
    pub created_at: Option<i64>,
}

impl View for StoredCommand {
    type V = StoredView;

    open spec fn view(&self) -> StoredView {
        StoredView {
            id: self.id@,
            text: self.text@,
            favorite: self.favorite,
            last_used: self.last_used,
            use_count: self.use_count,
            created_at: self.created_at,
        }
    }
}

pub open spec fn stored_views(v: Seq<StoredCommand>) -> Seq<StoredView> {
    v.map_values(|r: StoredCommand| r@)
}

/// One canonical row to write, and the rows it replaces.
#[derive(Debug, PartialEq, Eq)]
pub struct Rekey {
    /// The canonical id: the hash of the group's canonical text.
    pub id: String,
    pub text: String,
    pub favorite: bool,
    pub last_used: Option<i64>,
    pub use_count: i64,
    pub created_at: Option<i64>,
    /// The ids of the group's other rows, in table order; their links move to
    /// `id` and the rows go.
    pub retired: Vec<String>,
}

// ---------------------------------------------------------------------------
// The plan, as plain values
// ---------------------------------------------------------------------------

/// The canonical texts of the rows.
pub open spec fn norms(rows: Seq<StoredView>) -> Seq<Seq<char>> {
    rows.map_values(|r: StoredView| normalized(r.text))
}

/// The rows whose canonical text is `k`, in table order.
pub open spec fn group(rows: Seq<StoredView>, k: Seq<char>) -> Seq<StoredView>
    decreases rows.len(),
{
    if rows.len() == 0 {
        rows
    } else if normalized(rows.last().text) == k {
        group(rows.drop_last(), k).push(rows.last())
    } else {
        group(rows.drop_last(), k)
    }
}

proof fn lemma_group_len(rows: Seq<StoredView>, k: Seq<char>)
    ensures
        group(rows, k).len() <= rows.len(),
    decreases rows.len(),
{
    if rows.len() > 0 {
        lemma_group_len(rows.drop_last(), k);
    }
}

/// The id a group is re-keyed to.
pub open spec fn canonical_id(k: Seq<char>) -> Seq<char> {
    sha1_hex_of(normalized(k))
}

/// A group already in order: a single row under the canonical id.
pub open spec fn settled(g: Seq<StoredView>, k: Seq<char>) -> bool {
    g.len() == 1 && g[0].id == canonical_id(k)
}

pub open spec fn any_favorite(g: Seq<StoredView>) -> bool {
    exists|i: int| 0 <= i < g.len() && (#[trigger] g[i]).favorite != 0
}

pub open spec fn total_use(g: Seq<StoredView>) -> int
    decreases g.len(),
{
    if g.len() == 0 {
        0
    } else {
        total_use(g.drop_last()) + g.last().use_count
    }
}

/// The greater of two optional times; nothing only when both are nothing.
pub open spec fn latest(a: Option<i64>, b: Option<i64>) -> Option<i64> {
    match (a, b) {
        (Some(x), Some(y)) => Some(if x >= y {
            x
        } else {
            y
        }),
        (Some(x), None) => Some(x),
        (None, y) => y,
    }
}

/// The smaller of two optional times; nothing only when both are nothing.
pub open spec fn earliest(a: Option<i64>, b: Option<i64>) -> Option<i64> {
    match (a, b) {
        (Some(x), Some(y)) => Some(if x <= y {
            x
        } else {
            y
        }),
        (Some(x), None) => Some(x),
        (None, y) => y,
    }
}

pub open spec fn last_used_of(g: Seq<StoredView>) -> Option<i64>
    decreases g.len(),
{
    if g.len() == 0 {
        None
    } else {
        latest(last_used_of(g.drop_last()), g.last().last_used)
    }
}

pub open spec fn created_of(g: Seq<StoredView>) -> Option<i64>
    decreases g.len(),
{
    if g.len() == 0 {
        None
    } else {
        earliest(created_of(g.drop_last()), g.last().created_at)
    }
}

/// `a` is older than `b`: an earlier creation time (an unknown one first),
/// then the smaller id.
pub open spec fn older(a: StoredView, b: StoredView) -> bool {
    match (a.created_at, b.created_at) {
        (None, Some(_)) => true,
        (Some(_), None) => false,
        (Some(x), Some(y)) => x < y || (x == y && str_lt(a.id, b.id)),
        (None, None) => str_lt(a.id, b.id),
    }
}

/// The oldest row of a non-empty group; the first of equally old ones.
pub open spec fn oldest(g: Seq<StoredView>) -> StoredView
    decreases g.len(),
{
    if g.len() <= 1 {
        g[0]
    } else {
        let best = oldest(g.drop_last());
        if older(g.last(), best) {
            g.last()
        } else {
            best
        }
    }
}

/// The first row under the canonical id, if any.
pub open spec fn keyed_row(g: Seq<StoredView>, id: Seq<char>) -> Option<StoredView>
    decreases g.len(),
{
    if g.len() == 0 {
        None
    } else {
        match keyed_row(g.drop_last(), id) {
            Some(r) => Some(r),
            None => if g.last().id == id {
                Some(g.last())
            } else {
                None
            },
        }
    }
}

/// The text the merged row keeps: the user's own casing, from the row
/// already under the canonical id, else from the oldest.
pub open spec fn kept_text(g: Seq<StoredView>, k: Seq<char>) -> Seq<char> {
    match keyed_row(g, canonical_id(k)) {
        Some(r) => r.text,
        None => if g.len() > 0 {
            oldest(g).text
        } else {
            k
        },
    }
}

/// The ids of the rows that are not under the canonical id, in order.
pub open spec fn retired_ids(g: Seq<StoredView>, id: Seq<char>) -> Seq<Seq<char>>
    decreases g.len(),
{
    if g.len() == 0 {
        Seq::empty()
    } else if g.last().id != id {
        retired_ids(g.drop_last(), id).push(g.last().id)
    } else {
        retired_ids(g.drop_last(), id)
    }
}

/// The merged row for the group `k`, as plain values.
pub struct RekeyView {
    pub id: Seq<char>,
    pub text: Seq<char>,
    pub favorite: bool,
    pub last_used: Option<i64>,
    pub use_count: int,
    pub created_at: Option<i64>,
    pub retired: Seq<Seq<char>>,
}

pub open spec fn rekey_for(rows: Seq<StoredView>, k: Seq<char>) -> RekeyView {
    let g = group(rows, k);
    RekeyView {
        id: canonical_id(k),
        text: kept_text(g, k),
        favorite: any_favorite(g),
        last_used: last_used_of(g),
        use_count: total_use(g),
        created_at: created_of(g),
        retired: retired_ids(g, canonical_id(k)),
    }
}

/// The rewrites, one per canonical text that is not settled yet, in the
/// order of the canonical texts.
pub open spec fn plan_for(rows: Seq<StoredView>, keys: Seq<Seq<char>>) -> Seq<RekeyView>
    decreases keys.len(),
{
    if keys.len() == 0 {
        Seq::empty()
    } else {
        let before = plan_for(rows, keys.drop_last());
        let k = keys.last();
        if settled(group(rows, k), k) {
            before
        } else {
            before.push(rekey_for(rows, k))
        }
    }
}

pub open spec fn migration_plan(rows: Seq<StoredView>) -> Seq<RekeyView> {
    plan_for(rows, sorted_union(norms(rows)))
}

pub open spec fn rekey_view(r: Rekey) -> RekeyView {
    RekeyView {
        id: r.id@,
        text: r.text@,
        favorite: r.favorite,
        last_used: r.last_used,
        use_count: r.use_count as int,
        created_at: r.created_at,
        retired: views(r.retired@),
    }
}

/// Every running total of a group's use counts, in table order, fits in an
/// `i64`.
pub open spec fn uses_fit(rows: Seq<StoredView>) -> bool {
    forall|k: Seq<char>, j: int|
        0 <= j <= rows.len() ==> i64::MIN <= #[trigger] total_use(group(rows.take(j), k))
            <= i64::MAX
}

// ---------------------------------------------------------------------------
// Computing the plan
// ---------------------------------------------------------------------------

/// Whether `a` is older than `b`.
fn is_older(a: &StoredCommand, b: &StoredCommand) -> (r: bool)
    ensures
        r == older(a@, b@),
{
    match (a.created_at, b.created_at) {
        (None, Some(_)) => true,
        (Some(_), None) => false,
        (Some(x), Some(y)) => x < y || (x == y && str_less(a.id.as_str(), b.id.as_str())),
        (None, None) => str_less(a.id.as_str(), b.id.as_str()),
    }
}

/// The rewrite for the canonical text `k`, or nothing when its group is
/// settled.
fn rekey_group(rows: &Vec<StoredCommand>, k: &str) -> (r: Option<Rekey>)
    requires
        uses_fit(stored_views(rows@)),
    ensures
        match r {
            Some(x) => !settled(group(stored_views(rows@), k@), k@) && rekey_view(x) == rekey_for(
                stored_views(rows@),
                k@,
            ),
            None => settled(group(stored_views(rows@), k@), k@),
        },
{
    let ghost rv = stored_views(rows@);
    let canon = hash_command(k);
    assert(canon@ == canonical_id(k@));
    let mut count: usize = 0;
    let mut first_is_canon = false;
    let mut favorite = false;
    let mut total: i64 = 0;
    let mut last_used: Option<i64> = None;
    let mut created_at: Option<i64> = None;
    let mut keyed: Option<usize> = None;
    let mut best: Option<usize> = None;
    let mut retired: Vec<String> = Vec::new();
    let mut i: usize = 0;
    while i < rows.len()
        invariant
            i <= rows@.len(),
            rv == stored_views(rows@),
            uses_fit(rv),
            canon@ == canonical_id(k@),
            count == group(rv.take(i as int), k@).len(),
            count > 0 ==> first_is_canon == (group(rv.take(i as int), k@)[0].id == canon@),
            favorite == any_favorite(group(rv.take(i as int), k@)),
            total == total_use(group(rv.take(i as int), k@)),
            last_used == last_used_of(group(rv.take(i as int), k@)),
            created_at == created_of(group(rv.take(i as int), k@)),
            match keyed {
                Some(j) => j < rows@.len() && keyed_row(group(rv.take(i as int), k@), canon@)
                    == Some(rv[j as int]),
                None => keyed_row(group(rv.take(i as int), k@), canon@) is None,
            },
            count > 0 ==> best is Some,
            match best {
                Some(j) => j < rows@.len() && count > 0 && oldest(group(rv.take(i as int), k@))
                    == rv[j as int],
                None => count == 0,
            },
            views(retired@) == retired_ids(group(rv.take(i as int), k@), canon@),
        decreases rows.len() - i,
    {
        let ghost g = group(rv.take(i as int), k@);
        proof {
            lemma_group_len(rv.take(i as int), k@);
        }
        assert(rv.take(i + 1).drop_last() =~= rv.take(i as int));
        assert(rv.take(i + 1).last() == rv[i as int]);
        assert(rv[i as int] == rows@[i as int]@);
        let n = normalize(rows[i].text.as_str());
        if str_eq(n.as_str(), k) {
            let ghost x = rv[i as int];
            assert(group(rv.take(i + 1), k@) == g.push(x));
            assert(g.push(x).drop_last() =~= g);
            if count == 0 {
                first_is_canon = str_eq(rows[i].id.as_str(), canon.as_str());
            }
            count += 1;
            if rows[i].favorite != 0 {
                favorite = true;
                assert(g.push(x)[g.len() as int] == x);
            } else if favorite {
                let ghost w = choose|w: int| 0 <= w < g.len() && (#[trigger] g[w]).favorite != 0;
                assert(g.push(x)[w] == g[w]);
            } else {
                assert forall|w: int| 0 <= w < g.len() + 1 implies (#[trigger] g.push(x)[w]).favorite
                    == 0 by {
                    if w < g.len() {
                        assert(g.push(x)[w] == g[w]);
                    }
                }
            }
            assert(total_use(g.push(x)) == total + x.use_count);
            assert(i64::MIN <= total_use(group(rv.take(i + 1), k@)) <= i64::MAX);
            total = total + rows[i].use_count;
            last_used = match (last_used, rows[i].last_used) {
                (Some(a), Some(b)) => Some(if a >= b {
                    a
                } else {
                    b
                }),
                (Some(a), None) => Some(a),
                (None, b) => b,
            };
            created_at = match (created_at, rows[i].created_at) {
                (Some(a), Some(b)) => Some(if a <= b {
                    a
                } else {
                    b
                }),
                (Some(a), None) => Some(a),
                (None, b) => b,
            };
            if keyed.is_none() && str_eq(rows[i].id.as_str(), canon.as_str()) {
                keyed = Some(i);
            }
            best = match best {
                None => Some(i),
                Some(j) => if is_older(&rows[i], &rows[j]) {
                    Some(i)
                } else {
                    Some(j)
                },
            };
            if !str_eq(rows[i].id.as_str(), canon.as_str()) {
                let ghost before = views(retired@);
                retired.push(rows[i].id.clone());
                assert(views(retired@) =~= before.push(x.id));
            }
        } else {
            assert(group(rv.take(i + 1), k@) == g);
        }
        i += 1;
    }
    assert(rv.take(rows@.len() as int) =~= rv);
    if count == 1 && first_is_canon {
        return None;
    }
    let text = match keyed {
        Some(j) => rows[j].text.clone(),
        None => match best {
            Some(j) => rows[j].text.clone(),
            None => String::from_str(k),
        },
    };
    Some(Rekey { id: canon, text, favorite, last_used, use_count: total, created_at, retired })
}

/// The rewrites that give every stored command the canonical id of its text:
/// one per canonical text whose rows are not a single row under that id yet,
/// in the order of the canonical texts. Each holds the user's own casing, a
/// favourite if any row was one, the summed use count, the latest use and
/// the earliest creation, and the ids of the rows it replaces.
pub fn plan_migration(rows: &Vec<StoredCommand>) -> (r: Vec<Rekey>)
    requires
        uses_fit(stored_views(rows@)),
    ensures
        r@.map_values(|x: Rekey| rekey_view(x)) == migration_plan(stored_views(rows@)),
{
    let ghost rv = stored_views(rows@);
    let mut keys: Vec<String> = Vec::new();
    let mut i: usize = 0;
    while i < rows.len()
        invariant
            i <= rows@.len(),
            rv == stored_views(rows@),
            views(keys@) == sorted_union(norms(rv).take(i as int)),
        decreases rows.len() - i,
    {
        assert(norms(rv).take(i + 1).drop_last() =~= norms(rv).take(i as int));
        assert(norms(rv)[i as int] == normalized(rows@[i as int].text@));
        insert_sorted(&mut keys, normalize(rows[i].text.as_str()));
        i += 1;
    }
    assert(norms(rv).take(rows@.len() as int) =~= norms(rv));
    let ghost ks = views(keys@);
    let mut out: Vec<Rekey> = Vec::new();
    let mut j: usize = 0;
    while j < keys.len()
        invariant
            j <= keys@.len(),
            rv == stored_views(rows@),
            uses_fit(rv),
            ks == views(keys@),
            ks == sorted_union(norms(rv)),
            out@.map_values(|x: Rekey| rekey_view(x)) == plan_for(rv, ks.take(j as int)),
        decreases keys.len() - j,
    {
        assert(ks.take(j + 1).drop_last() =~= ks.take(j as int));
        assert(ks.take(j + 1).last() == keys@[j as int]@);
        let ghost before = out@.map_values(|x: Rekey| rekey_view(x));
        match rekey_group(rows, keys[j].as_str()) {
            Some(x) => {
                let ghost xv = rekey_view(x);
                out.push(x);
                assert(out@.map_values(|x: Rekey| rekey_view(x)) =~= before.push(xv));
            },
            None => {},
        }
        j += 1;
    }
    assert(ks.take(keys@.len() as int) =~= ks);
    out
}

} // verus!
