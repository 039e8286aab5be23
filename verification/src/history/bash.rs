//! bash's `.bash_history`: one command per line, in file order.
use vstd::prelude::*;
use super::HistoryEntry;
use crate::text::{chars_of, lines, lines_of, string_of, trim, trim_chars};

verus! {

/// The commands of a `.bash_history`: each line trimmed, blank ones skipped.
pub open spec fn bash_commands(content: Seq<char>) -> Seq<Seq<char>> {
    lines(content).map_values(|l: Seq<char>| trim(l)).filter(|l: Seq<char>| l.len() > 0)
}

/// Parses a `.bash_history`. bash records no timestamps here.
pub fn parse_history(content: &str) -> (r: Vec<HistoryEntry>)
    ensures
        r@.len() == bash_commands(content@).len(),
        forall|i: int|
            0 <= i < r@.len() ==> (#[trigger] r@[i]).command@ == bash_commands(content@)[i]
                && r@[i].timestamp is None && r@[i].use_count == 1,
{
    let v = chars_of(content);
    let ls = lines_of(v.as_slice());
    let ghost all = lines(content@);
    let mut out: Vec<HistoryEntry> = Vec::new();
    let mut i: usize = 0;
    while i < ls.len()
        invariant
            i <= ls@.len(),
            ls@.len() == all.len(),
            forall|j: int| 0 <= j < ls@.len() ==> #[trigger] ls@[j]@ == all[j],
            out@.len() == all.take(i as int).map_values(|l: Seq<char>| trim(l)).filter(
                |l: Seq<char>| l.len() > 0,
            ).len(),
            forall|j: int|
                0 <= j < out@.len() ==> (#[trigger] out@[j]).command@ == all.take(i as int).map_values(
                    |l: Seq<char>| trim(l),
                ).filter(|l: Seq<char>| l.len() > 0)[j] && out@[j].timestamp is None
                    && out@[j].use_count == 1,
        decreases ls.len() - i,
    {
        let t = trim_chars(ls[i].as_slice());
        proof {
            reveal(Seq::filter);
            let prev = all.take(i as int).map_values(|l: Seq<char>| trim(l));
            let next = all.take(i + 1).map_values(|l: Seq<char>| trim(l));
            assert(next =~= prev.push(trim(all[i as int])));
            assert(next.drop_last() =~= prev);
        }
        if t.len() > 0 {
            out.push(HistoryEntry { command: string_of(t.as_slice()), timestamp: None, use_count: 1 });
        }
        i += 1;
    }
    assert(all.take(all.len() as int) =~= all);
    out
}

} // verus!
