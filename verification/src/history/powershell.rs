//! PSReadLine's `ConsoleHost_history.txt`: one physical line per input line,
//! a trailing backtick on every line of a multi-line command but its last.
use vstd::prelude::*;
use super::{fold_repeats, fold_repeats_exec, EntryModel, HistoryEntry};
use crate::text::{chars_of, lines, lines_of, slice_to_vec};

verus! {

/// The text with every leading byte-order mark removed.
pub open spec fn strip_bom(s: Seq<char>) -> Seq<char>
    decreases s.len(),
{
    if s.len() > 0 && s[0] == '\u{feff}' {
        strip_bom(s.skip(1))
    } else {
        s
    }
}

/// How many backticks end the text.
pub open spec fn trailing_ticks(s: Seq<char>) -> nat
    decreases s.len(),
{
    if s.len() > 0 && s.last() == '`' {
        1 + trailing_ticks(s.drop_last())
    } else {
        0
    }
}

/// A line continues on the next one when an odd number of backticks ends it:
/// two of them are an escaped backtick.
pub open spec fn continues(s: Seq<char>) -> bool {
    trailing_ticks(s) % 2 == 1
}

/// The commands finished so far, and the one still being continued.
pub type Folding = (Seq<Seq<char>>, Option<Seq<char>>);

/// One physical line: joined to the pending command by a newline, then either
/// pending again without its marker, or finished.
pub open spec fn ps_step(acc: Folding, line: Seq<char>) -> Folding {
    let joined = match acc.1 {
        Some(p) => p.push('\n') + line,
        None => line,
    };
    if continues(joined) {
        (acc.0, Some(joined.drop_last()))
    } else {
        (acc.0.push(joined), None)
    }
}

pub open spec fn ps_fold(ls: Seq<Seq<char>>) -> Folding
    decreases ls.len(),
{
    if ls.len() == 0 {
        (Seq::empty(), None)
    } else {
        ps_step(ps_fold(ls.drop_last()), ls.last())
    }
}

/// The commands of the file, oldest first; a command cut off mid-way is kept.
pub open spec fn ps_commands(content: Seq<char>) -> Seq<Seq<char>> {
    let f = ps_fold(lines(strip_bom(content)));
    match f.1 {
        Some(p) => f.0.push(p),
        None => f.0,
    }
}

/// The entries of the file, newest first, repeats counted. PSReadLine records
/// no timestamps.
pub open spec fn ps_entries(content: Seq<char>) -> Seq<EntryModel> {
    fold_repeats(ps_commands(content).map_values(|c: Seq<char>| (c, None::<i64>)).reverse())
}

/// Whether an odd number of backticks ends `v`.
fn continues_chars(v: &[char]) -> (r: bool)
    ensures
        r == continues(v@),
{
    let mut n: usize = 0;
    let mut k: usize = v.len();
    let mut odd = false;
    assert(v@.take(k as int) =~= v@);
    while k > 0 && v[k - 1] == '`'
        invariant
            k <= v@.len(),
            n + k == v@.len(),
            trailing_ticks(v@) == n + trailing_ticks(v@.take(k as int)),
            odd == (n % 2 == 1),
        decreases k,
    {
        assert(v@.take(k as int).drop_last() =~= v@.take(k - 1));
        k -= 1;
        n += 1;
        odd = !odd;
    }
    assert(trailing_ticks(v@.take(k as int)) == 0);
    odd
}

/// Reads the file's text: leading marks dropped, continued lines joined,
/// then folded newest first.
pub fn parse_history(content: &str) -> (r: Vec<HistoryEntry>)
    requires
        ps_commands(content@).len() < i32::MAX,
    ensures
        r@.len() == ps_entries(content@).len(),
        forall|i: int| 0 <= i < r@.len() ==> super::entry_model(#[trigger] r@[i]) == ps_entries(content@)[i],
{
    let v = chars_of(content);
    let mut s: usize = 0;
    assert(v@.skip(0) =~= v@);
    while s < v.len() && v[s] == '\u{feff}'
        invariant
            s <= v@.len(),
            strip_bom(v@) == strip_bom(v@.skip(s as int)),
        decreases v.len() - s,
    {
        assert(v@.skip(s as int).skip(1) =~= v@.skip(s + 1));
        s += 1;
    }
    let body = slice_to_vec(v.as_slice(), s, v.len());
    assert(body@ =~= v@.skip(s as int));
    assert(strip_bom(body@) == body@);
    let ls = lines_of(body.as_slice());
    let ghost all = lines(strip_bom(content@));
    let mut done: Vec<Vec<char>> = Vec::new();
    let mut pending: Option<Vec<char>> = None;
    let mut i: usize = 0;
    while i < ls.len()
        invariant
            i <= ls@.len(),
            ls@.len() == all.len(),
            forall|j: int| 0 <= j < ls@.len() ==> #[trigger] ls@[j]@ == all[j],
            done@.map_values(|c: Vec<char>| c@) == ps_fold(all.take(i as int)).0,
            match pending {
                Some(p) => ps_fold(all.take(i as int)).1 == Some(p@),
                None => ps_fold(all.take(i as int)).1 is None,
            },
        decreases ls.len() - i,
    {
        assert(all.take(i + 1).drop_last() =~= all.take(i as int));
        let ghost before = done@.map_values(|c: Vec<char>| c@);
        let line = ls[i].as_slice();
        let mut joined: Vec<char> = match pending {
            Some(p) => {
                let mut q = p;
                q.push('\n');
                q
            },
            None => Vec::new(),
        };
        let ghost head = joined@;
        let mut j: usize = 0;
        while j < line.len()
            invariant
                j <= line@.len(),
                joined@ == head + line@.take(j as int),
            decreases line.len() - j,
        {
            joined.push(line[j]);
            j += 1;
            assert(head + line@.take(j as int) =~= (head + line@.take(j - 1)).push(line@[j - 1]));
        }
        assert(line@.take(line@.len() as int) =~= line@);
        if continues_chars(joined.as_slice()) {
            joined.pop();
            pending = Some(joined);
        } else {
            done.push(joined);
            pending = None;
            assert(done@.map_values(|c: Vec<char>| c@) =~= before.push(head + line@));
        }
        i += 1;
    }
    assert(all.take(all.len() as int) =~= all);
    let ghost cmds = ps_commands(content@);
    if let Some(p) = pending {
        let ghost before = done@.map_values(|c: Vec<char>| c@);
        done.push(p);
        assert(done@.map_values(|c: Vec<char>| c@) =~= before.push(p@));
    }
    assert(done@.map_values(|c: Vec<char>| c@) == cmds);
    let mut items: Vec<(Vec<char>, Option<i64>)> = Vec::new();
    let n = done.len();
    let ghost want = cmds.map_values(|c: Seq<char>| (c, None::<i64>)).reverse();
    let mut k: usize = n;
    while k > 0
        invariant
            k <= n,
            n == done@.len(),
            done@.map_values(|c: Vec<char>| c@) == cmds,
            want == cmds.map_values(|c: Seq<char>| (c, None::<i64>)).reverse(),
            items@.len() == n - k,
            forall|j: int| 0 <= j < items@.len() ==> (#[trigger] items@[j]).0@ == want[j] .0 && items@[j].1 is None,
        decreases k,
    {
        k -= 1;
        let c = slice_to_vec(done[k].as_slice(), 0, done[k].len());
        assert(c@ =~= done@[k as int]@);
        items.push((c, None));
    }
    let ghost m = items@.map_values(|p: (Vec<char>, Option<i64>)| (p.0@, p.1));
    assert(m =~= want);
    fold_repeats_exec(&items)
}

} // verus!
