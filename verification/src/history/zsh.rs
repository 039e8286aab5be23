//! zsh's `.zsh_history`: plain lines, or `: <epoch>:<elapsed>;<command>` with
//! extended history.
use vstd::prelude::*;
use super::HistoryEntry;
use crate::text::{chars_of, find_char, find_char_from, lemma_find_char_from, lemma_split_char_nonempty, lines, lines_of, parse_i64, parse_int, slice_to_vec, split_char, split_chars, string_of, trim, trim_chars};

verus! {

/// The timestamp of an extended-history header: its second `:`-separated
/// field, when that parses as an `i64`.
pub open spec fn header_timestamp(header: Seq<char>) -> Option<i64> {
    let parts = split_char(header, ':');
    if parts.len() > 1 {
        match parse_int(parts[1], true, i64::MIN as int, i64::MAX as int) {
            Some(v) => Some(v as i64),
            None => None,
        }
    } else {
        None
    }
}

/// The command and timestamp a history line stands for.
pub open spec fn zsh_line(line: Seq<char>) -> (Seq<char>, Option<i64>) {
    if !(line.len() > 0 && line[0] == ':') {
        (line, None)
    } else {
        match find_char_from(line, ';', 0) {
            None => (line, None),
            Some(p) => (line.skip(p + 1), header_timestamp(line.take(p))),
        }
    }
}

/// Parses one line of `.zsh_history`. Never fails: a line that is not in
/// the extended format is a plain command.
pub fn parse_zsh_line(line: &str) -> (r: Option<HistoryEntry>)
    ensures
        r matches Some(e) && e.command@ == zsh_line(line@).0 && e.timestamp == zsh_line(line@).1
            && e.use_count == 1,
{
    let v = chars_of(line);
    Some(parse_line_chars(v.as_slice()))
}

fn parse_line_chars(v: &[char]) -> (e: HistoryEntry)
    ensures
        e.command@ == zsh_line(v@).0,
        e.timestamp == zsh_line(v@).1,
        e.use_count == 1,
{
    if !(v.len() > 0 && v[0] == ':') {
        return HistoryEntry { command: string_of(v), timestamp: None, use_count: 1 };
    }
    match find_char(v, ';', 0) {
        None => HistoryEntry { command: string_of(v), timestamp: None, use_count: 1 },
        Some(p) => {
            let header = slice_to_vec(v, 0, p);
            assert(header@ =~= v@.take(p as int));
            let cmd = slice_to_vec(v, p + 1, v.len());
            assert(cmd@ =~= v@.skip(p + 1));
            let parts = split_chars(header.as_slice(), ':');
            let timestamp = if parts.len() > 1 {
                parse_i64(parts[1].as_slice())
            } else {
                None
            };
            HistoryEntry { command: string_of(cmd.as_slice()), timestamp, use_count: 1 }
        },
    }
}

/// Splitting on `c` at an occurrence of `c` splits the two sides apart.
proof fn lemma_split_at(x: Seq<char>, y: Seq<char>, c: char)
    ensures
        split_char(x + seq![c] + y, c) == split_char(x, c) + split_char(y, c),
    decreases y.len(),
{
    let z = x + seq![c] + y;
    if y.len() == 0 {
        assert(z.drop_last() =~= x);
        assert(split_char(y, c) =~= seq![Seq::<char>::empty()]);
        assert(split_char(x, c).push(Seq::<char>::empty()) =~= split_char(x, c) + split_char(y, c));
    } else {
        assert(z.drop_last() =~= x + seq![c] + y.drop_last());
        lemma_split_at(x, y.drop_last(), c);
        lemma_split_char_nonempty(y.drop_last(), c);
        let a = split_char(x, c);
        let b = split_char(y.drop_last(), c);
        assert(z.last() == y.last());
        if y.last() == c {
            assert((a + b).push(Seq::<char>::empty()) =~= a + b.push(Seq::<char>::empty()));
        } else {
            assert((a + b).update((a + b).len() - 1, (a + b).last().push(y.last())) =~= a + b.update(
                b.len() - 1,
                b.last().push(y.last()),
            ));
        }
    }
}

/// Text without `c` is one piece.
proof fn lemma_split_none(a: Seq<char>, c: char)
    requires
        forall|i: int| 0 <= i < a.len() ==> a[i] != c,
    ensures
        split_char(a, c) == seq![a],
    decreases a.len(),
{
    if a.len() > 0 {
        lemma_split_none(a.drop_last(), c);
        assert(a.drop_last().push(a.last()) =~= a);
        assert(seq![a.drop_last()].update(0, a.drop_last().push(a.last())) =~= seq![a]);
    } else {
        assert(a =~= Seq::<char>::empty());
    }
}

/// The first `c` of `h + [c] + t`, when `h` holds none, is right after `h`.
proof fn lemma_first_at(h: Seq<char>, t: Seq<char>, c: char)
    requires
        forall|i: int| 0 <= i < h.len() ==> h[i] != c,
    ensures
        find_char_from(h + seq![c] + t, c, 0) == Some(h.len() as int),
{
    let s = h + seq![c] + t;
    lemma_find_char_from(s, c, 0);
    assert(s[h.len() as int] == c);
    match find_char_from(s, c, 0) {
        Some(i) => {
            if i < h.len() {
                assert(s[i] == h[i]);
            }
        },
        None => {},
    }
}

/// An extended-history line `:<start>:<elapsed>;<command>` (or one with no
/// elapsed field) stands for its command, at the time its first header field
/// gives: the field between the first and the second `:`, whatever follows.
pub proof fn law_zsh_time_is_the_first_header_field(ts: Seq<char>, elapsed: Seq<char>, cmd: Seq<char>)
    requires
        forall|i: int| 0 <= i < ts.len() ==> ts[i] != ':' && ts[i] != ';',
        forall|i: int| 0 <= i < elapsed.len() ==> elapsed[i] != ';',
    ensures
        zsh_line(seq![':'] + ts + seq![':'] + elapsed + seq![';'] + cmd) == (
            cmd,
            match parse_int(ts, true, i64::MIN as int, i64::MAX as int) {
                Some(v) => Some(v as i64),
                None => None::<i64>,
            },
        ),
        zsh_line(seq![':'] + ts + seq![';'] + cmd) == (
            cmd,
            match parse_int(ts, true, i64::MIN as int, i64::MAX as int) {
                Some(v) => Some(v as i64),
                None => None::<i64>,
            },
        ),
{
    let e = Seq::<char>::empty();
    // Two header fields.
    let h2 = seq![':'] + ts + seq![':'] + elapsed;
    let l2 = h2 + seq![';'] + cmd;
    assert(seq![':'] + ts + seq![':'] + elapsed + seq![';'] + cmd =~= l2);
    assert forall|i: int| 0 <= i < h2.len() implies h2[i] != ';' by {
        if i == 0 {
        } else if i < ts.len() + 1 {
            assert(h2[i] == ts[i - 1]);
        } else if i == ts.len() + 1 {
        } else {
            assert(h2[i] == elapsed[i - ts.len() - 2]);
        }
    }
    lemma_first_at(h2, cmd, ';');
    assert(l2.take(h2.len() as int) =~= h2);
    assert(l2.skip(h2.len() as int + 1) =~= cmd);
    assert(h2 =~= e + seq![':'] + (ts + seq![':'] + elapsed));
    lemma_split_at(e, ts + seq![':'] + elapsed, ':');
    lemma_split_at(ts, elapsed, ':');
    lemma_split_none(ts, ':');
    lemma_split_none(e, ':');
    lemma_split_char_nonempty(elapsed, ':');
    assert(split_char(h2, ':')[1] == ts);
    // One header field.
    let h1 = seq![':'] + ts;
    let l1 = h1 + seq![';'] + cmd;
    assert(seq![':'] + ts + seq![';'] + cmd =~= l1);
    assert forall|i: int| 0 <= i < h1.len() implies h1[i] != ';' by {
        if i > 0 {
            assert(h1[i] == ts[i - 1]);
        }
    }
    lemma_first_at(h1, cmd, ';');
    assert(l1.take(h1.len() as int) =~= h1);
    assert(l1.skip(h1.len() as int + 1) =~= cmd);
    assert(h1 =~= e + seq![':'] + ts);
    lemma_split_at(e, ts, ':');
    assert(split_char(h1, ':')[1] == ts);
}

/// The entries of a whole `.zsh_history`, newest first: each line trimmed,
/// blank lines skipped.
pub open spec fn zsh_entries(content: Seq<char>) -> Seq<(Seq<char>, Option<i64>)> {
    let ls = lines(content).reverse().map_values(|l: Seq<char>| trim(l)).filter(
        |l: Seq<char>| l.len() > 0,
    );
    ls.map_values(|l: Seq<char>| zsh_line(l))
}

/// Parses a whole `.zsh_history`, newest first.
pub fn parse_history(content: &str) -> (r: Vec<HistoryEntry>)
    ensures
        r@.len() == zsh_entries(content@).len(),
        forall|i: int|
            0 <= i < r@.len() ==> (#[trigger] r@[i]).command@ == zsh_entries(content@)[i].0
                && r@[i].timestamp == zsh_entries(content@)[i].1 && r@[i].use_count == 1,
{
    let v = chars_of(content);
    let ls = lines_of(v.as_slice());
    let ghost all = lines(content@);
    let ghost kept = all.reverse().map_values(|l: Seq<char>| trim(l)).filter(
        |l: Seq<char>| l.len() > 0,
    );
    let mut out: Vec<HistoryEntry> = Vec::new();
    let mut i = ls.len();
    let ghost mut seen: Seq<Seq<char>> = Seq::empty();
    while i > 0
        invariant
            i <= ls@.len(),
            ls@.len() == all.len(),
            forall|j: int| 0 <= j < ls@.len() ==> #[trigger] ls@[j]@ == all[j],
            seen == all.subrange(i as int, all.len() as int).reverse().map_values(
                |l: Seq<char>| trim(l),
            ).filter(|l: Seq<char>| l.len() > 0),
            out@.len() == seen.len(),
            forall|j: int|
                0 <= j < out@.len() ==> (#[trigger] out@[j]).command@ == zsh_line(seen[j]).0
                    && out@[j].timestamp == zsh_line(seen[j]).1 && out@[j].use_count == 1,
        decreases i,
    {
        i -= 1;
        let t = trim_chars(ls[i].as_slice());
        proof {
            reveal(Seq::filter);
            let prev = all.subrange(i + 1, all.len() as int).reverse().map_values(
                |l: Seq<char>| trim(l),
            );
            let next = all.subrange(i as int, all.len() as int).reverse().map_values(
                |l: Seq<char>| trim(l),
            );
            assert(next =~= prev.push(trim(all[i as int])));
            assert(next.drop_last() =~= prev);
        }
        if t.len() > 0 {
            out.push(parse_line_chars(t.as_slice()));
            proof {
                seen = seen.push(t@);
            }
        }
    }
    assert(all.subrange(0, all.len() as int) =~= all);
    out
}

} // verus!
