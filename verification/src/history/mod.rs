//! Shell history: the entries each shell's file yields, and merging them into
//! one list of commands.
pub mod bash;
pub mod dedup;
pub mod fish;
pub mod powershell;
pub mod runs;
pub mod zsh;

use vstd::prelude::*;
use crate::text::{
    chars_of, lowercased, position_of, string_of, to_lowercase, trim, trim_chars,
};

verus! {

/// One command read from a history file.
#[derive(Debug)]
pub struct HistoryEntry {
    pub command: String,
    pub timestamp: Option<i64>,
    pub use_count: i32,
}

/// The model of a history entry: command, timestamp, count.
pub type EntryModel = (Seq<char>, Option<i64>, int);

pub open spec fn entry_model(e: HistoryEntry) -> EntryModel {
    (e.command@, e.timestamp, e.use_count as int)
}

/// Index of the first entry whose command lowercases to `key`.
pub open spec fn key_index_from(prev: Seq<EntryModel>, key: Seq<char>, from: int) -> Option<int>
    decreases prev.len() - from,
{
    if from < 0 || from >= prev.len() {
        None
    } else if lowercased(prev[from].0) == key {
        Some(from)
    } else {
        key_index_from(prev, key, from + 1)
    }
}

/// Folds commands, newest first, into entries: each command trimmed, blank
/// ones skipped, and a repeat (ignoring case) counted on the entry of its
/// newest occurrence, which keeps that occurrence's timestamp.
pub open spec fn fold_repeats(items: Seq<(Seq<char>, Option<i64>)>) -> Seq<EntryModel>
    decreases items.len(),
{
    if items.len() == 0 {
        Seq::empty()
    } else {
        let prev = fold_repeats(items.drop_last());
        let t = trim(items.last().0);
        if t.len() == 0 {
            prev
        } else {
            match key_index_from(prev, lowercased(t), 0) {
                Some(k) => prev.update(k, (prev[k].0, prev[k].1, prev[k].2 + 1)),
                None => prev.push((t, items.last().1, 1)),
            }
        }
    }
}

proof fn lemma_fold_counts(items: Seq<(Seq<char>, Option<i64>)>)
    ensures
        fold_repeats(items).len() <= items.len(),
        forall|k: int|
            0 <= k < fold_repeats(items).len() ==> 1 <= #[trigger] fold_repeats(items)[k].2
                <= items.len(),
    decreases items.len(),
{
    if items.len() > 0 {
        lemma_fold_counts(items.drop_last());
        let prev = fold_repeats(items.drop_last());
        let t = trim(items.last().0);
        if t.len() > 0 {
            lemma_key_index(prev, lowercased(t), 0);
        }
    }
}

proof fn lemma_key_index(prev: Seq<EntryModel>, key: Seq<char>, from: int)
    requires
        0 <= from,
    ensures
        match key_index_from(prev, key, from) {
            Some(k) => from <= k < prev.len() && lowercased(prev[k].0) == key,
            None => forall|j: int| from <= j < prev.len() ==> lowercased(#[trigger] prev[j].0) != key,
        },
    decreases prev.len() - from,
{
    if from < prev.len() && lowercased(prev[from].0) != key {
        lemma_key_index(prev, key, from + 1);
    }
}

proof fn lemma_key_index_matches(prev: Seq<EntryModel>, key: Seq<char>, from: int, k: int)
    requires
        0 <= from <= k <= prev.len(),
        forall|j: int| from <= j < k ==> lowercased(#[trigger] prev[j].0) != key,
        k < prev.len() ==> lowercased(prev[k].0) == key,
    ensures
        key_index_from(prev, key, from) == (if k < prev.len() {
            Some(k)
        } else {
            None::<int>
        }),
    decreases k - from,
{
    if from < k {
        lemma_key_index_matches(prev, key, from + 1, k);
    }
}

/// Folds `(command, timestamp)` pairs, newest first, into entries.
pub fn fold_repeats_exec(items: &Vec<(Vec<char>, Option<i64>)>) -> (r: Vec<HistoryEntry>)
    requires
        items@.len() < i32::MAX,
    ensures
        ({
            let m = items@.map_values(|p: (Vec<char>, Option<i64>)| (p.0@, p.1));
            &&& r@.len() == fold_repeats(m).len()
            &&& forall|k: int| 0 <= k < r@.len() ==> entry_model(#[trigger] r@[k]) == fold_repeats(m)[k]
        }),
{
    let ghost m = items@.map_values(|p: (Vec<char>, Option<i64>)| (p.0@, p.1));
    let mut entries: Vec<HistoryEntry> = Vec::new();
    let mut keys: Vec<Vec<char>> = Vec::new();
    let mut i: usize = 0;
    while i < items.len()
        invariant
            i <= items@.len() < i32::MAX,
            m == items@.map_values(|p: (Vec<char>, Option<i64>)| (p.0@, p.1)),
            entries@.len() == fold_repeats(m.take(i as int)).len(),
            keys@.len() == entries@.len(),
            forall|k: int| 0 <= k < entries@.len() ==> entry_model(#[trigger] entries@[k]) == fold_repeats(m.take(i as int))[k],
            forall|k: int| 0 <= k < keys@.len() ==> #[trigger] keys@[k]@ == lowercased(entries@[k].command@),
        decreases items.len() - i,
    {
        let ghost prev = fold_repeats(m.take(i as int));
        assert(m.take(i + 1).drop_last() =~= m.take(i as int));
        assert(m.take(i + 1).last() == m[i as int]);
        proof {
            lemma_fold_counts(m.take(i as int));
        }
        let t = trim_chars(items[i].0.as_slice());
        if t.len() > 0 {
            let ts = string_of(t.as_slice());
            let key_s = to_lowercase(ts.as_str());
            let key = chars_of(key_s.as_str());
            assert(key@ == lowercased(t@));
            let pos = position_of(&keys, key.as_slice());
            proof {
                let lim = match pos {
                    Some(k) => k as int,
                    None => prev.len() as int,
                };
                assert forall|j: int| 0 <= j < lim implies lowercased(#[trigger] prev[j].0) != key@ by {
                    assert(entry_model(entries@[j]) == prev[j]);
                    assert(keys@[j]@ != key@);
                }
                if let Some(k) = pos {
                    assert(entry_model(entries@[k as int]) == prev[k as int]);
                }
                lemma_key_index_matches(prev, key@, 0, match pos {
                    Some(k) => k as int,
                    None => prev.len() as int,
                });
            }
            if let Some(k) = pos {
                assert(key_index_from(prev, key@, 0) == Some(k as int));
                let c = entries[k].use_count;
                assert(entry_model(entries@[k as int]) == prev[k as int]);
                assert(c <= i);
                let mut e = entries.remove(k);
                e.use_count = c + 1;
                entries.insert(k, e);
                assert(entries@.len() == prev.len());
                proof {
                    let next = prev.update(k as int, (prev[k as int].0, prev[k as int].1, prev[k as int].2 + 1));
                    assert(fold_repeats(m.take(i + 1)) == next);
                    assert forall|j: int| 0 <= j < entries@.len() implies entry_model(#[trigger] entries@[j]) == next[j] by {
                        if j != k {
                        }
                    }
                }
            } else {
                assert(key_index_from(prev, key@, 0) is None);
                entries.push(HistoryEntry { command: ts, timestamp: items[i].1, use_count: 1 });
                keys.push(key);
            }
        }
        i += 1;
    }
    assert(m.take(items@.len() as int) =~= m);
    entries
}

} // verus!
