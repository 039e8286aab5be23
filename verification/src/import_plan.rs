//! What an import writes: which collections and commands are new, each once,
//! and which collections each new command joins.
use vstd::prelude::*;
use crate::hash::{hash_collection_name, hash_command, normalized, sha1_hex_of};
use crate::storage::{ExportCollection, ExportCommand, ExportData};
use crate::text::{copy_strings, str_eq, views};

verus! {

/// A command an import inserts, under its canonical id.
pub struct PlannedCommand {
    pub id: String,
    pub text: String,
    pub favorite: bool,
    pub use_count: i32,
    pub last_used: Option<i64>,
    pub tags: Vec<String>,
    /// The ids of the collections it joins.
    pub collection_ids: Vec<String>,
}

/// The rows an import writes, and how many commands of the file it skips.
pub struct ImportPlan {
    pub collections: Vec<ExportCollection>,
    pub commands: Vec<PlannedCommand>,
    pub skipped_commands: usize,
}

/// A planned command as values: id, text, favourite, uses, last use, tags
/// and collection ids.
pub type PlannedView = (
    Seq<char>,
    Seq<char>,
    bool,
    i32,
    Option<i64>,
    Seq<Seq<char>>,
    Seq<Seq<char>>,
);

pub open spec fn planned_view(p: PlannedCommand) -> PlannedView {
    (p.id@, p.text@, p.favorite, p.use_count, p.last_used, views(p.tags@), views(p.collection_ids@))
}

pub open spec fn planned_views(v: Seq<PlannedCommand>) -> Seq<PlannedView> {
    v.map_values(|p: PlannedCommand| planned_view(p))
}

pub open spec fn collection_views(v: Seq<ExportCollection>) -> Seq<(Seq<char>, Seq<char>)> {
    v.map_values(|c: ExportCollection| (c.id@, c.name@))
}

/// The collections a command of the file joins: the ids it carries, or, in a
/// file written before exports carried them, the ids its collection names
/// hash to.
pub open spec fn membership_of(c: ExportCommand) -> Seq<Seq<char>> {
    if c.collection_ids@.len() > 0 {
        views(c.collection_ids@)
    } else {
        views(c.collections@).map_values(|n: Seq<char>| sha1_hex_of(n))
    }
}

/// A command of the file as it would be inserted: under the id of its
/// canonical form.
pub open spec fn planned_of(c: ExportCommand) -> PlannedView {
    (
        sha1_hex_of(normalized(c.text@)),
        c.text@,
        c.favorite,
        c.use_count,
        c.last_used,
        views(c.tags@),
        membership_of(c),
    )
}

pub open spec fn planned_ids(s: Seq<PlannedView>) -> Seq<Seq<char>> {
    s.map_values(|p: PlannedView| p.0)
}

/// The commands of the file to insert, in file order: each whose id is
/// neither `known` nor taken by an earlier command of the file.
pub open spec fn plan_commands(cs: Seq<ExportCommand>, known: Set<Seq<char>>) -> Seq<PlannedView>
    decreases cs.len(),
{
    if cs.len() == 0 {
        Seq::empty()
    } else {
        let before = plan_commands(cs.drop_last(), known);
        let p = planned_of(cs.last());
        if known.contains(p.0) || planned_ids(before).contains(p.0) {
            before
        } else {
            before.push(p)
        }
    }
}

/// The collections of the file to insert, in file order: each whose id is
/// neither `known` nor taken by an earlier one of the file.
pub open spec fn plan_collections(cs: Seq<(Seq<char>, Seq<char>)>, known: Set<Seq<char>>) -> Seq<
    (Seq<char>, Seq<char>),
>
    decreases cs.len(),
{
    if cs.len() == 0 {
        Seq::empty()
    } else {
        let before = plan_collections(cs.drop_last(), known);
        let c = cs.last();
        if known.contains(c.0) || before.map_values(|b: (Seq<char>, Seq<char>)| b.0).contains(c.0) {
            before
        } else {
            before.push(c)
        }
    }
}

fn has_id(v: &Vec<String>, id: &str) -> (r: bool)
    ensures
        r == views(v@).contains(id@),
{
    let mut i: usize = 0;
    while i < v.len()
        invariant
            i <= v@.len(),
            forall|j: int| 0 <= j < i ==> views(v@)[j] != id@,
        decreases v.len() - i,
    {
        if str_eq(v[i].as_str(), id) {
            assert(views(v@)[i as int] == id@);
            return true;
        }
        i += 1;
    }
    false
}

fn membership(c: &ExportCommand) -> (r: Vec<String>)
    ensures
        views(r@) == membership_of(*c),
{
    if c.collection_ids.len() > 0 {
        return copy_strings(&c.collection_ids);
    }
    let mut out: Vec<String> = Vec::new();
    let mut i: usize = 0;
    while i < c.collections.len()
        invariant
            i <= c.collections@.len(),
            views(out@) == views(c.collections@).take(i as int).map_values(|n: Seq<char>| sha1_hex_of(n)),
        decreases c.collections.len() - i,
    {
        let ghost before = views(out@);
        out.push(hash_collection_name(c.collections[i].as_str()));
        assert(views(out@) =~= before.push(sha1_hex_of(c.collections@[i as int]@)));
        assert(views(c.collections@).take(i + 1).map_values(|n: Seq<char>| sha1_hex_of(n))
            =~= views(c.collections@).take(i as int).map_values(|n: Seq<char>| sha1_hex_of(n)).push(
            sha1_hex_of(c.collections@[i as int]@),
        ));
        i += 1;
    }
    assert(views(c.collections@).take(c.collections@.len() as int) =~= views(c.collections@));
    out
}

/// What importing `data` writes over a database that holds the command ids
/// `known_commands` and the collection ids `known_collections` (none, for a
/// replace). No command is inserted twice, so commands of the file that
/// differ only in case or surrounding whitespace become one; every command
/// joins its collections by id.
pub fn plan_import(
    data: &ExportData,
    known_commands: &Vec<String>,
    known_collections: &Vec<String>,
) -> (r: ImportPlan)
    ensures
        planned_views(r.commands@) == plan_commands(data.commands@, views(known_commands@).to_set()),
        collection_views(r.collections@) == plan_collections(
            collection_views(data.collections@),
            views(known_collections@).to_set(),
        ),
        r.skipped_commands == data.commands@.len() - r.commands@.len(),
{
    let ghost known = views(known_commands@).to_set();
    let ghost cs = data.commands@;
    let mut commands: Vec<PlannedCommand> = Vec::new();
    let mut taken: Vec<String> = Vec::new();
    let mut i: usize = 0;
    while i < data.commands.len()
        invariant
            i <= cs.len(),
            cs == data.commands@,
            known == views(known_commands@).to_set(),
            planned_views(commands@) == plan_commands(cs.take(i as int), known),
            views(taken@) == planned_ids(planned_views(commands@)),
            commands@.len() <= i,
        decreases data.commands.len() - i,
    {
        assert(cs.take(i + 1).drop_last() =~= cs.take(i as int));
        assert(cs.take(i + 1).last() == cs[i as int]);
        let c = &data.commands[i];
        let id = hash_command(c.text.as_str());
        let in_db = has_id(known_commands, id.as_str());
        assert(in_db == known.contains(id@)) by {
            assert(views(known_commands@).to_set().contains(id@) == views(known_commands@).contains(id@));
        }
        if !in_db && !has_id(&taken, id.as_str()) {
            let p = PlannedCommand {
                id: id.clone(),
                text: c.text.clone(),
                favorite: c.favorite,
                use_count: c.use_count,
                last_used: c.last_used,
                tags: copy_strings(&c.tags),
                collection_ids: membership(c),
            };
            let ghost before = planned_views(commands@);
            let ghost tb = views(taken@);
            commands.push(p);
            taken.push(id);
            assert(planned_views(commands@) =~= before.push(planned_of(cs[i as int])));
            assert(views(taken@) =~= tb.push(planned_of(cs[i as int]).0));
            assert(planned_ids(before.push(planned_of(cs[i as int]))) =~= planned_ids(before).push(
                planned_of(cs[i as int]).0,
            ));
        }
        i += 1;
    }
    assert(cs.take(cs.len() as int) =~= cs);
    let ghost kc = views(known_collections@).to_set();
    let ghost cols = collection_views(data.collections@);
    let mut collections: Vec<ExportCollection> = Vec::new();
    let mut col_ids: Vec<String> = Vec::new();
    let mut k: usize = 0;
    while k < data.collections.len()
        invariant
            k <= cols.len(),
            cols == collection_views(data.collections@),
            kc == views(known_collections@).to_set(),
            collection_views(collections@) == plan_collections(cols.take(k as int), kc),
            views(col_ids@) == collection_views(collections@).map_values(
                |b: (Seq<char>, Seq<char>)| b.0,
            ),
        decreases data.collections.len() - k,
    {
        assert(cols.take(k + 1).drop_last() =~= cols.take(k as int));
        assert(cols.take(k + 1).last() == cols[k as int]);
        let c = &data.collections[k];
        let in_db = has_id(known_collections, c.id.as_str());
        assert(in_db == kc.contains(c.id@)) by {
            assert(views(known_collections@).to_set().contains(c.id@) == views(known_collections@).contains(c.id@));
        }
        if !in_db && !has_id(&col_ids, c.id.as_str()) {
            let ghost before = collection_views(collections@);
            let ghost ib = views(col_ids@);
            collections.push(ExportCollection { id: c.id.clone(), name: c.name.clone() });
            col_ids.push(c.id.clone());
            assert(collection_views(collections@) =~= before.push(cols[k as int]));
            assert(views(col_ids@) =~= ib.push(cols[k as int].0));
            assert(before.push(cols[k as int]).map_values(|b: (Seq<char>, Seq<char>)| b.0)
                =~= before.map_values(|b: (Seq<char>, Seq<char>)| b.0).push(cols[k as int].0));
        }
        k += 1;
    }
    assert(cols.take(cols.len() as int) =~= cols);
    let skipped = data.commands.len() - commands.len();
    ImportPlan { collections, commands, skipped_commands: skipped }
}

/// The id a command of the file is inserted under: that of its canonical form.
pub open spec fn file_command_id(c: ExportCommand) -> Seq<char> {
    sha1_hex_of(normalized(c.text@))
}

/// `p` is the `j`-th command of the file as the file has it (same text,
/// favourite flag, use count, last use and tags, under its id), and no
/// earlier command of the file has that id.
pub open spec fn carried_from(p: PlannedView, cs: Seq<ExportCommand>, j: int) -> bool {
    &&& 0 <= j < cs.len()
    &&& p.0 == file_command_id(cs[j])
    &&& p.1 == cs[j].text@
    &&& p.2 == cs[j].favorite
    &&& p.3 == cs[j].use_count
    &&& p.4 == cs[j].last_used
    &&& p.5 == views(cs[j].tags@)
    &&& forall|k: int| 0 <= k < j ==> file_command_id(#[trigger] cs[k]) != p.0
}

/// The first index from `k` on at which the file has a command with id `id`
/// (the file's length if none).
pub open spec fn first_with_id(cs: Seq<ExportCommand>, id: Seq<char>, k: int) -> int
    decreases cs.len() - k,
{
    if k < 0 || k >= cs.len() {
        cs.len() as int
    } else if file_command_id(cs[k]) == id {
        k
    } else {
        first_with_id(cs, id, k + 1)
    }
}

proof fn lemma_first_with_id(cs: Seq<ExportCommand>, id: Seq<char>, k: int, j: int)
    requires
        0 <= k <= j < cs.len(),
        file_command_id(cs[j]) == id,
        forall|m: int| k <= m < j ==> file_command_id(#[trigger] cs[m]) != id,
    ensures
        first_with_id(cs, id, k) == j,
    decreases j - k,
{
    if k < j {
        lemma_first_with_id(cs, id, k + 1, j);
    }
}

/// Each command an import inserts is the first command of the file with its
/// id, carried over as the file has it: same text, favourite flag, use count,
/// last use and tags. And every command of the file whose id the database
/// does not hold has its id among those inserted.
pub proof fn law_import_keeps_what_the_file_says(cs: Seq<ExportCommand>, known: Set<Seq<char>>)
    ensures
        forall|i: int|
            0 <= i < plan_commands(cs, known).len() ==> carried_from(
                #[trigger] plan_commands(cs, known)[i],
                cs,
                first_with_id(cs, plan_commands(cs, known)[i].0, 0),
            ),
        forall|j: int|
            0 <= j < cs.len() && !known.contains(file_command_id(#[trigger] cs[j])) ==> planned_ids(
                plan_commands(cs, known),
            ).contains(file_command_id(cs[j])),
    decreases cs.len(),
{
    if cs.len() > 0 {
        let d = cs.drop_last();
        law_import_keeps_what_the_file_says(d, known);
        let before = plan_commands(d, known);
        let last = cs.last();
        let p = planned_of(last);
        let r = plan_commands(cs, known);
        let pushed = !(known.contains(p.0) || planned_ids(before).contains(p.0));
        if pushed {
            assert(r == before.push(p));
            assert(planned_ids(r) =~= planned_ids(before).push(p.0));
        } else {
            assert(r == before);
        }
        assert forall|i: int| 0 <= i < r.len() implies carried_from(
            #[trigger] r[i],
            cs,
            first_with_id(cs, r[i].0, 0),
        ) by {
            if i < before.len() {
                assert(r[i] == before[i]);
                let j = first_with_id(d, before[i].0, 0);
                assert(carried_from(before[i], d, j));
                assert(cs[j] == d[j]);
                assert forall|k: int| 0 <= k < j implies file_command_id(#[trigger] cs[k]) != r[i].0 by {
                    assert(cs[k] == d[k]);
                }
                lemma_first_with_id(cs, r[i].0, 0, j);
                assert(carried_from(r[i], cs, j));
            } else {
                let j = cs.len() - 1;
                assert(r[i] == p);
                assert(cs[j] == last);
                assert forall|k: int| 0 <= k < j implies file_command_id(#[trigger] cs[k]) != r[i].0 by {
                    assert(cs[k] == d[k]);
                    if file_command_id(d[k]) == p.0 {
                        assert(planned_ids(before).contains(file_command_id(d[k])));
                    }
                }
                lemma_first_with_id(cs, r[i].0, 0, j);
                assert(carried_from(r[i], cs, j));
            }
        }
        assert forall|j: int|
            0 <= j < cs.len() && !known.contains(file_command_id(#[trigger] cs[j])) implies planned_ids(
            r,
        ).contains(file_command_id(cs[j])) by {
            if j < d.len() {
                assert(cs[j] == d[j]);
                assert(!known.contains(file_command_id(d[j])));
                let k = choose|k: int| 0 <= k < planned_ids(before).len() && planned_ids(before)[k]
                    == file_command_id(d[j]);
                if pushed {
                    assert(planned_ids(r)[k] == planned_ids(before)[k]);
                }
            } else {
                assert(cs[j] == last);
                if pushed {
                    assert(planned_ids(r)[before.len() as int] == p.0);
                }
            }
        }
    }
}

/// An import never inserts a command id twice, nor one the database holds:
/// the planned ids are distinct and none is known.
pub proof fn law_import_ids_are_fresh(cs: Seq<ExportCommand>, known: Set<Seq<char>>)
    ensures
        forall|i: int, j: int|
            0 <= i < j < plan_commands(cs, known).len() ==> (#[trigger] plan_commands(cs, known)[i]).0
                != (#[trigger] plan_commands(cs, known)[j]).0,
        forall|i: int|
            0 <= i < plan_commands(cs, known).len() ==> !known.contains(
                (#[trigger] plan_commands(cs, known)[i]).0,
            ),
    decreases cs.len(),
{
    if cs.len() > 0 {
        law_import_ids_are_fresh(cs.drop_last(), known);
        let before = plan_commands(cs.drop_last(), known);
        let p = planned_of(cs.last());
        if !(known.contains(p.0) || planned_ids(before).contains(p.0)) {
            let r = before.push(p);
            assert forall|i: int, j: int| 0 <= i < j < r.len() implies (#[trigger] r[i]).0 != (
            #[trigger] r[j]).0 by {
                if j == before.len() {
                    assert(planned_ids(before)[i] == before[i].0);
                }
            }
        }
    }
}

} // verus!
