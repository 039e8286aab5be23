//! Rewriting a shell config: cutting out old integration blocks and putting
//! the current one at the end. Reading and writing the file is the
//! application's side.
use vstd::prelude::*;
use crate::shells::{END_MARKER, START_MARKER};
use crate::text::{chars_of, lines, lines_of, push_char, push_str, starts_with, starts_with_chars, string_of, trim_start, trim_start_chars};

verus! {

/// Where an install wrote, and where it saved the previous config.
pub struct InstallOutcome {
    pub config_path: String,
    pub backup: Option<String>,
}

pub open spec fn is_block_start(l: Seq<char>) -> bool {
    starts_with(trim_start(l), START_MARKER@)
}

pub open spec fn is_block_end(l: Seq<char>) -> bool {
    starts_with(trim_start(l), END_MARKER@)
}

/// The key binding every older, unterminated block ended with.
pub open spec fn is_legacy_end(l: Seq<char>) -> bool {
    let t = trim_start(l);
    starts_with(t, "bind -x"@) || starts_with(t, "bindkey"@) || starts_with(t, "bind \\"@)
}

/// The first index at or after `from` whose line satisfies `p`.
pub open spec fn first_from(ls: Seq<Seq<char>>, from: int, p: spec_fn(Seq<char>) -> bool) -> Option<int>
    decreases ls.len() - from,
{
    if from < 0 || from >= ls.len() {
        None
    } else if p(ls[from]) {
        Some(from)
    } else {
        first_from(ls, from + 1, p)
    }
}

/// Where the block opened at line `i` ends: its end marker, else the key
/// binding an older block ended with.
pub open spec fn block_end(ls: Seq<Seq<char>>, i: int) -> Option<int> {
    match first_from(ls, i + 1, |l: Seq<char>| is_block_end(l)) {
        Some(j) => Some(j),
        None => first_from(ls, i + 1, |l: Seq<char>| is_legacy_end(l)),
    }
}

/// The lines kept from `i` on: blocks are dropped through their end, and a
/// marker with no end drops only itself.
pub open spec fn kept_from(ls: Seq<Seq<char>>, i: int) -> Seq<Seq<char>>
    decreases ls.len() - i,
{
    if i < 0 || i >= ls.len() {
        Seq::empty()
    } else if !is_block_start(ls[i]) {
        seq![ls[i]] + kept_from(ls, i + 1)
    } else {
        match block_end(ls, i) {
            Some(j) => if i < j < ls.len() {
                kept_from(ls, j + 1)
            } else {
                kept_from(ls, i + 1)
            },
            None => kept_from(ls, i + 1),
        }
    }
}

/// `[a, b, c].join(sep)`.
pub open spec fn join(parts: Seq<Seq<char>>, sep: Seq<char>) -> Seq<char>
    decreases parts.len(),
{
    if parts.len() == 0 {
        Seq::empty()
    } else if parts.len() == 1 {
        parts[0]
    } else {
        join(parts.drop_last(), sep) + sep + parts.last()
    }
}

/// The config with every integration block cut out.
pub open spec fn strip_spec(content: Seq<char>) -> Seq<char> {
    join(kept_from(lines(content), 0), "\n"@)
}

fn line_is(l: &[char], marker: &str) -> (r: bool)
    ensures
        r == starts_with(trim_start(l@), marker@),
{
    let t = trim_start_chars(l);
    let m = chars_of(marker);
    starts_with_chars(t.as_slice(), m.as_slice())
}

fn line_is_legacy_end(l: &[char]) -> (r: bool)
    ensures
        r == is_legacy_end(l@),
{
    line_is(l, "bind -x") || line_is(l, "bindkey") || line_is(l, "bind \\")
}

fn find_end(ls: &Vec<Vec<char>>, from: usize, legacy: bool) -> (r: Option<usize>)
    ensures
        ({
            let v = ls@.map_values(|l: Vec<char>| l@);
            let want = if legacy {
                first_from(v, from as int, |l: Seq<char>| is_legacy_end(l))
            } else {
                first_from(v, from as int, |l: Seq<char>| is_block_end(l))
            };
            match r {
                Some(j) => want == Some(j as int) && j < ls@.len(),
                None => want is None,
            }
        }),
{
    let ghost v = ls@.map_values(|l: Vec<char>| l@);
    let ghost p = if legacy {
        |l: Seq<char>| is_legacy_end(l)
    } else {
        |l: Seq<char>| is_block_end(l)
    };
    let mut j = from;
    while j < ls.len()
        invariant
            from <= j,
            v == ls@.map_values(|l: Vec<char>| l@),
            p == (if legacy {
                |l: Seq<char>| is_legacy_end(l)
            } else {
                |l: Seq<char>| is_block_end(l)
            }),
            first_from(v, from as int, p) == first_from(v, j as int, p),
        decreases ls.len() - j,
    {
        let hit = if legacy {
            line_is_legacy_end(ls[j].as_slice())
        } else {
            line_is(ls[j].as_slice(), END_MARKER)
        };
        assert(v[j as int] == ls@[j as int]@);
        if hit {
            return Some(j);
        }
        j += 1;
    }
    None
}

/// Strips the integration block from a shell config.
///
/// Blocks written by current versions are delimited by [`END_MARKER`]. Older
/// ones are not, so they are cut at their last line — the key binding. A
/// marker with neither drops only itself rather than guessing at a length.
pub fn strip_integration(content: &str) -> (r: String)
    ensures
        r@ == strip_spec(content@),
{
    let cv = chars_of(content);
    let ls = lines_of(cv.as_slice());
    let ghost v = ls@.map_values(|l: Vec<char>| l@);
    assert(v =~= lines(content@));
    let mut out: Vec<char> = Vec::new();
    let mut count: usize = 0;
    let ghost mut kept: Seq<Seq<char>> = Seq::empty();
    let mut i: usize = 0;
    while i < ls.len()
        invariant
            i <= ls@.len(),
            v == ls@.map_values(|l: Vec<char>| l@),
            kept + kept_from(v, i as int) == kept_from(v, 0),
            out@ == join(kept, "\n"@),
            count == kept.len(),
            count <= i,
        decreases ls.len() - i,
    {
        let line = &ls[i];
        assert(v[i as int] == line@);
        if !line_is(line.as_slice(), START_MARKER) {
            proof {
                lemma_join_push(kept, line@, "\n"@);
            }
            if count > 0 {
                out.push('\n');
            }
            let mut k: usize = 0;
            let ghost before = out@;
            while k < line.len()
                invariant
                    k <= line@.len(),
                    out@ == before + line@.take(k as int),
                decreases line.len() - k,
            {
                out.push(line[k]);
                k += 1;
                assert(out@ =~= before + line@.take(k as int));
            }
            assert(line@.take(line@.len() as int) =~= line@);
            proof {
                assert(kept + seq![line@] + kept_from(v, i + 1) =~= kept + kept_from(v, i as int));
                kept = kept.push(line@);
                if count > 0 {
                    assert(out@ =~= join(kept.drop_last(), "\n"@) + "\n"@ + line@) by {
                        reveal_strlit("\n");
                    }
                } else {
                    assert(out@ =~= line@);
                }
            }
            count = count + 1;
            i += 1;
        } else {
            let end = match find_end(&ls, i + 1, false) {
                Some(j) => Some(j),
                None => find_end(&ls, i + 1, true),
            };
            assert(end matches Some(j) ==> block_end(v, i as int) == Some(j as int));
            assert(end is None ==> block_end(v, i as int) is None);
            match end {
                Some(j) => {
                    proof {
                        lemma_first_from_at_least(v, i + 1, |l: Seq<char>| is_block_end(l));
                        lemma_first_from_at_least(v, i + 1, |l: Seq<char>| is_legacy_end(l));
                    }
                    i = j + 1;
                },
                None => {
                    i = i + 1;
                },
            }
        }
    }
    assert(kept_from(v, i as int) =~= Seq::<Seq<char>>::empty());
    assert(kept =~= kept + Seq::<Seq<char>>::empty());
    string_of(out.as_slice())
}

proof fn lemma_first_from_at_least(ls: Seq<Seq<char>>, from: int, p: spec_fn(Seq<char>) -> bool)
    ensures
        first_from(ls, from, p) matches Some(j) ==> from <= j < ls.len(),
    decreases ls.len() - from,
{
    if 0 <= from < ls.len() && !p(ls[from]) {
        lemma_first_from_at_least(ls, from + 1, p);
    }
}

pub proof fn lemma_join_push(parts: Seq<Seq<char>>, l: Seq<char>, sep: Seq<char>)
    ensures
        parts.len() == 0 ==> join(parts.push(l), sep) == l,
        parts.len() > 0 ==> join(parts.push(l), sep) == join(parts, sep) + sep + l,
{
    assert(parts.push(l).drop_last() =~= parts);
    if parts.len() == 0 {
        assert(parts.push(l)[0] == l);
    }
}

/// No kept line opens an integration block: stripping removes every block.
pub proof fn law_strip_leaves_no_block_start(ls: Seq<Seq<char>>, i: int)
    ensures
        forall|k: int| 0 <= k < kept_from(ls, i).len() ==> !is_block_start(#[trigger] kept_from(ls, i)[k]),
    decreases ls.len() - i,
{
    if 0 <= i < ls.len() {
        if !is_block_start(ls[i]) {
            law_strip_leaves_no_block_start(ls, i + 1);
            let rest = kept_from(ls, i + 1);
            let all = kept_from(ls, i);
            assert(all == seq![ls[i]] + rest);
            assert forall|k: int| 0 <= k < all.len() implies !is_block_start(#[trigger] all[k]) by {
                if k > 0 {
                    assert(all[k] == rest[k - 1]);
                } else {
                    assert(all[0] == ls[i]);
                }
            }
        } else {
            let next = match block_end(ls, i) {
                Some(j) => if i < j < ls.len() {
                    j + 1
                } else {
                    i + 1
                },
                None => i + 1,
            };
            assert(kept_from(ls, i) == kept_from(ls, next));
            law_strip_leaves_no_block_start(ls, next);
        }
    }
}

/// Drops trailing newlines.
pub open spec fn drop_trailing_newlines(s: Seq<char>) -> Seq<char>
    decreases s.len(),
{
    if s.len() > 0 && s.last() == '\n' {
        drop_trailing_newlines(s.drop_last())
    } else {
        s
    }
}

/// The config after installing `script`: the old blocks stripped, the rest
/// kept, one blank line, the script, and a final newline.
pub open spec fn installed_config(content: Seq<char>, script: Seq<char>) -> Seq<char> {
    let base = drop_trailing_newlines(strip_spec(content));
    let head = if base.len() > 0 {
        base + "\n"@
    } else {
        base
    };
    let body = head + "\n"@ + script;
    if body.len() > 0 && body.last() == '\n' {
        body
    } else {
        body + "\n"@
    }
}

/// The new content of a shell config once `script` is installed in it. The
/// strip and the append are one value, so a write of it cannot leave the old
/// block removed and nothing in its place.
pub fn install_content(content: &str, script: &str) -> (r: String)
    ensures
        r@ == installed_config(content@, script@),
{
    let stripped = strip_integration(content);
    let v = chars_of(stripped.as_str());
    let mut n = v.len();
    assert(v@.take(v.len() as int) =~= v@);
    while n > 0 && v[n - 1] == '\n'
        invariant
            n <= v.len(),
            drop_trailing_newlines(v@) == drop_trailing_newlines(v@.take(n as int)),
        decreases n,
    {
        assert(v@.take(n as int).drop_last() =~= v@.take(n - 1));
        n -= 1;
    }
    let base = crate::text::slice_to_vec(v.as_slice(), 0, n);
    assert(base@ =~= v@.take(n as int));
    let mut r = string_of(base.as_slice());
    proof {
        reveal_strlit("\n");
    }
    if n > 0 {
        push_char(&mut r, '\n');
        assert(r@ =~= base@ + "\n"@);
    }
    push_char(&mut r, '\n');
    push_str(&mut r, script);
    let rv = chars_of(r.as_str());
    if !(rv.len() > 0 && rv[rv.len() - 1] == '\n') {
        push_char(&mut r, '\n');
    }
    r
}

} // verus!
