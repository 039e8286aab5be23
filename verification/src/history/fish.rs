//! fish's `fish_history`: `- cmd:` per entry, an optional `  when:`, an
//! optional `  paths:` block. Both keys match at their exact indent.
use vstd::prelude::*;
use super::{fold_repeats, fold_repeats_exec, EntryModel, HistoryEntry};
use crate::history::runs::opt_i64;
use crate::text::{
    chars_of, lines, lines_of, parse_i64, parse_int, slice_to_vec, starts_with,
    starts_with_chars, string_of, trim, trim_chars, trim_start, trim_start_chars, unescape_chars,
    unescape_spec,
};

verus! {

/// fish escapes two characters and no others: `\\` is a backslash, `\n` a
/// newline. A backslash before anything else is not an escape.
pub fn unescape(value: &str) -> (r: String)
    ensures
        r@ == unescape_spec(value@, false),
{
    let v = chars_of(value);
    let u = unescape_chars(v.as_slice(), false);
    string_of(u.as_slice())
}

/// One line of the file: a `- cmd:` starts an entry, a `  when:` dates the
/// latest one, and anything else belongs to a `paths:` block.
pub open spec fn fish_step(acc: Seq<(Seq<char>, Option<i64>)>, line: Seq<char>) -> Seq<(Seq<char>, Option<i64>)> {
    if starts_with(line, "- cmd:"@) {
        acc.push((unescape_spec(trim_start(line.skip(6)), false), None))
    } else if starts_with(line, "  when:"@) && acc.len() > 0 {
        acc.update(
            acc.len() - 1,
            (acc.last().0, opt_i64(parse_int(trim(line.skip(7)), true, i64::MIN as int, i64::MAX as int))),
        )
    } else {
        acc
    }
}

/// The `(command, timestamp)` pairs of the given lines, oldest first.
pub open spec fn fish_parsed(ls: Seq<Seq<char>>) -> Seq<(Seq<char>, Option<i64>)>
    decreases ls.len(),
{
    if ls.len() == 0 {
        Seq::empty()
    } else {
        fish_step(fish_parsed(ls.drop_last()), ls.last())
    }
}

/// The entries of a `fish_history`, newest first, repeats counted.
pub open spec fn fish_entries(content: Seq<char>) -> Seq<EntryModel> {
    fold_repeats(fish_parsed(lines(content)).reverse())
}

/// Parses a `fish_history`, newest first.
pub fn parse_history(content: &str) -> (r: Vec<HistoryEntry>)
    requires
        fish_parsed(lines(content@)).len() < i32::MAX,
    ensures
        r@.len() == fish_entries(content@).len(),
        forall|i: int| 0 <= i < r@.len() ==> super::entry_model(#[trigger] r@[i]) == fish_entries(content@)[i],
{
    let v = chars_of(content);
    let ls = lines_of(v.as_slice());
    let ghost all = lines(content@);
    let cmd_key = chars_of("- cmd:");
    let when_key = chars_of("  when:");
    proof {
        reveal_strlit("- cmd:");
        reveal_strlit("  when:");
    }
    let mut parsed: Vec<(Vec<char>, Option<i64>)> = Vec::new();
    let mut i: usize = 0;
    while i < ls.len()
        invariant
            i <= ls@.len(),
            ls@.len() == all.len(),
            forall|j: int| 0 <= j < ls@.len() ==> #[trigger] ls@[j]@ == all[j],
            cmd_key@ == "- cmd:"@,
            when_key@ == "  when:"@,
            cmd_key@.len() == 6,
            when_key@.len() == 7,
            parsed@.map_values(|p: (Vec<char>, Option<i64>)| (p.0@, p.1)) == fish_parsed(all.take(i as int)),
        decreases ls.len() - i,
    {
        let line = ls[i].as_slice();
        assert(all.take(i + 1).drop_last() =~= all.take(i as int));
        assert(all.take(i + 1).last() == line@);
        let ghost before = parsed@.map_values(|p: (Vec<char>, Option<i64>)| (p.0@, p.1));
        if starts_with_chars(line, cmd_key.as_slice()) {
            let rest = slice_to_vec(line, 6, line.len());
            assert(rest@ =~= line@.skip(6));
            let t = trim_start_chars(rest.as_slice());
            let u = unescape_chars(t.as_slice(), false);
            parsed.push((u, None));
            assert(parsed@.map_values(|p: (Vec<char>, Option<i64>)| (p.0@, p.1)) =~= before.push(
                (u@, None),
            ));
        } else if starts_with_chars(line, when_key.as_slice()) && parsed.len() > 0 {
            let rest = slice_to_vec(line, 7, line.len());
            assert(rest@ =~= line@.skip(7));
            let t = trim_chars(rest.as_slice());
            let ts = parse_i64(t.as_slice());
            let last = parsed.len() - 1;
            let (cmd, _) = parsed.remove(last);
            let ghost c = cmd@;
            parsed.push((cmd, ts));
            assert(parsed@.map_values(|p: (Vec<char>, Option<i64>)| (p.0@, p.1)) =~= before.update(
                last as int,
                (before.last().0, ts),
            ));
        }
        i += 1;
    }
    assert(all.take(all.len() as int) =~= all);
    let mut newest_first: Vec<(Vec<char>, Option<i64>)> = Vec::new();
    let n = parsed.len();
    let ghost pm = parsed@.map_values(|p: (Vec<char>, Option<i64>)| (p.0@, p.1));
    let mut k: usize = n;
    while k > 0
        invariant
            k <= n,
            n == parsed@.len(),
            pm == parsed@.map_values(|p: (Vec<char>, Option<i64>)| (p.0@, p.1)),
            newest_first@.map_values(|p: (Vec<char>, Option<i64>)| (p.0@, p.1)) == pm.subrange(
                k as int,
                n as int,
            ).reverse(),
        decreases k,
    {
        k -= 1;
        let ghost before = newest_first@.map_values(|p: (Vec<char>, Option<i64>)| (p.0@, p.1));
        let c = slice_to_vec(parsed[k].0.as_slice(), 0, parsed[k].0.len());
        assert(c@ =~= parsed@[k as int].0@);
        let ts = parsed[k].1;
        newest_first.push((c, ts));
        assert(pm[k as int] == (c@, ts));
        assert(newest_first@.map_values(|p: (Vec<char>, Option<i64>)| (p.0@, p.1)) =~= before.push(
            (c@, ts),
        ));
        assert(pm.subrange(k as int, n as int).reverse() =~= pm.subrange(k + 1, n as int).reverse().push(
            pm[k as int],
        ));
    }
    assert(pm.subrange(0, n as int) =~= pm);
    fold_repeats_exec(&newest_first)
}

} // verus!
