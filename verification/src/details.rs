//! What the details pane says about the selected command.
use vstd::prelude::*;
use crate::keymap::keys::decimal;
use crate::state::{Command, CommandView};
use crate::storage::{push_decimal, Collection, RunSummary};
use crate::picker::collection_name;
use crate::text::{push_char, push_str};

verus! {

/// How a line of the details pane is drawn.
#[derive(Clone, Copy, Debug, PartialEq, Eq, Structural)]
pub enum DetailKind {
    /// A heading.
    Section,
    /// Ordinary text.
    Plain,
    /// A tag, drawn as a chip.
    Tag,
    /// Something that went wrong, such as a failed run.
    Alert,
    /// The favourite mark.
    Favorite,
}

/// One line of the details pane.
pub struct DetailLine {
    pub kind: DetailKind,
    pub text: String,
}

pub open spec fn line_view(l: DetailLine) -> (DetailKind, Seq<char>) {
    (l.kind, l.text@)
}

pub open spec fn line_views(v: Seq<DetailLine>) -> Seq<(DetailKind, Seq<char>)> {
    v.map_values(|l: DetailLine| line_view(l))
}

/// `n` in decimal, with a minus sign when it is negative.
pub open spec fn int_text(n: int) -> Seq<char> {
    if n < 0 {
        seq!['-'] + decimal((-n) as nat)
    } else {
        decimal(n as nat)
    }
}

/// How long ago something happened, `d` seconds back, in the coarsest unit
/// that fits: seconds under a minute, minutes under an hour, hours under a
/// day, else days.
pub open spec fn ago_text(d: int) -> Seq<char> {
    if d < 60 {
        int_text(d) + "s ago"@
    } else if d < 3600 {
        int_text(d / 60) + "m ago"@
    } else if d < 86400 {
        int_text(d / 3600) + "h ago"@
    } else {
        int_text(d / 86400) + "d ago"@
    }
}

fn push_int(out: &mut String, n: i64)
    ensures
        final(out)@ == old(out)@ + int_text(n as int),
{
    if n < 0 {
        push_char(out, '-');
        let m: u64 = if n == i64::MIN {
            9223372036854775808u64
        } else {
            (-n) as u64
        };
        push_decimal(out, m);
        assert(out@ =~= old(out)@ + int_text(n as int));
    } else {
        push_decimal(out, n as u64);
    }
}

/// Appends `n` in decimal.
fn push_wide_decimal(out: &mut String, n: u128)
    ensures
        final(out)@ == old(out)@ + decimal(n as nat),
    decreases n,
{
    if n >= 10 {
        push_wide_decimal(out, n / 10);
    }
    let d = (n % 10) as u8;
    push_char(out, (d + 48) as char);
}

/// Appends `n` in decimal, with a minus sign when it is negative.
fn push_wide_int(out: &mut String, n: i128)
    requires
        -0x1_0000_0000_0000_0000_0000_0000_0000 < n,
    ensures
        final(out)@ == old(out)@ + int_text(n as int),
{
    if n < 0 {
        push_char(out, '-');
        push_wide_decimal(out, (-n) as u128);
        assert(out@ =~= old(out)@ + int_text(n as int));
    } else {
        push_wide_decimal(out, n as u128);
    }
}

/// How long ago `ts` was at `now`, both in seconds since the epoch.
pub fn time_ago(now: i64, ts: i64) -> (r: String)
    ensures
        r@ == ago_text(now - ts),
{
    let d: i128 = now as i128 - ts as i128;
    let mut out = String::new();
    if d < 60 {
        push_wide_int(&mut out, d);
        push_str(&mut out, "s ago");
    } else if d < 3600 {
        push_wide_int(&mut out, d / 60);
        push_str(&mut out, "m ago");
    } else if d < 86400 {
        push_wide_int(&mut out, d / 3600);
        push_str(&mut out, "h ago");
    } else {
        push_wide_int(&mut out, d / 86400);
        push_str(&mut out, "d ago");
    }
    out
}

pub open spec fn blank() -> (DetailKind, Seq<char>) {
    (DetailKind::Plain, Seq::empty())
}

pub open spec fn section(title: Seq<char>) -> (DetailKind, Seq<char>) {
    (DetailKind::Section, title)
}

pub open spec fn plain(text: Seq<char>) -> (DetailKind, Seq<char>) {
    (DetailKind::Plain, text)
}

/// The lines for the command's collections: the name of each one it belongs
/// to that is listed.
pub open spec fn collection_lines(ids: Seq<Seq<char>>, cols: Seq<Collection>) -> Seq<(DetailKind, Seq<char>)>
    decreases ids.len(),
{
    if ids.len() == 0 {
        Seq::empty()
    } else {
        let before = collection_lines(ids.drop_last(), cols);
        match collection_name(cols, ids.last()) {
            Some(name) => before.push(plain("- "@ + name)),
            None => before,
        }
    }
}

/// The lines for the directories a command ran in.
pub open spec fn dir_lines(dirs: Seq<(String, i32)>) -> Seq<(DetailKind, Seq<char>)>
    decreases dirs.len(),
{
    if dirs.len() == 0 {
        Seq::empty()
    } else {
        dir_lines(dirs.drop_last()).push(
            plain("- "@ + dirs.last().0@ + " ("@ + int_text(dirs.last().1 as int) + "x)"@),
        )
    }
}

/// The lines about recorded runs.
pub open spec fn run_lines(c: CommandView, s: RunSummary, now: int) -> Seq<(DetailKind, Seq<char>)> {
    seq![section("Runs"@), plain("Recorded: "@ + int_text(s.total as int) + "x"@)] + (if c.runs_here
        > 0 {
        seq![plain("Here: "@ + int_text(c.runs_here as int) + "x"@)]
    } else {
        Seq::empty()
    }) + match s.last_exit {
        Some(code) => seq![
            (
                if code == 0 {
                    DetailKind::Plain
                } else {
                    DetailKind::Alert
                },
                "Last exit: "@ + int_text(code as int),
            ),
        ],
        None => Seq::empty(),
    } + match s.last_run {
        Some(ts) => seq![plain("Last run: "@ + ago_text(now - ts))],
        None => Seq::empty(),
    } + dir_lines(s.top_dirs@) + seq![blank()]
}

/// The tags, under a heading, when there are any.
pub open spec fn tag_lines(c: CommandView) -> Seq<(DetailKind, Seq<char>)> {
    if c.tags.len() > 0 {
        seq![section("Tags"@)] + c.tags.map_values(|t: Seq<char>| (DetailKind::Tag, t)) + seq![
            blank(),
        ]
    } else {
        Seq::empty()
    }
}

/// The collections, under a heading, when the command belongs to any.
pub open spec fn collections_block(c: CommandView, cols: Seq<Collection>) -> Seq<(DetailKind, Seq<char>)> {
    if c.collection_ids.len() > 0 {
        seq![section("Collections"@)] + collection_lines(c.collection_ids, cols) + seq![blank()]
    } else {
        Seq::empty()
    }
}

/// How often and how lately the command was used.
pub open spec fn usage_lines(c: CommandView, now: int) -> Seq<(DetailKind, Seq<char>)> {
    seq![section("Usage"@), plain("Used: "@ + int_text(c.use_count as int) + "x"@)] + match c.last_used {
        Some(ts) => seq![plain("Last used: "@ + ago_text(now - ts))],
        None => Seq::empty(),
    } + seq![blank()]
}

/// Whether the command is a favourite.
pub open spec fn favorite_lines(c: CommandView) -> Seq<(DetailKind, Seq<char>)> {
    seq![
        section("Favorite"@),
        if c.favorite {
            (DetailKind::Favorite, "* yes"@)
        } else {
            plain("○ no"@)
        },
    ]
}

/// Everything the details pane says about a command at time `now`: the
/// text, its tags, its collections, how often and how lately it was used,
/// its recorded runs when there is a summary, and whether it is a favourite.
pub open spec fn detail_text(
    c: CommandView,
    cols: Seq<Collection>,
    summary: Option<RunSummary>,
    now: int,
) -> Seq<(DetailKind, Seq<char>)> {
    seq![section("Command"@), plain(c.text), blank()] + tag_lines(c) + collections_block(c, cols)
        + usage_lines(c, now) + match summary {
        Some(s) => run_lines(c, s, now),
        None => Seq::empty(),
    } + favorite_lines(c)
}

fn line(kind: DetailKind, text: String) -> (r: DetailLine)
    ensures
        line_view(r) == (kind, text@),
{
    DetailLine { kind, text }
}

fn labelled(label: &str, n: i64, unit: &str) -> (r: String)
    ensures
        r@ == label@ + int_text(n as int) + unit@,
{
    let mut s = String::new();
    push_str(&mut s, label);
    push_int(&mut s, n);
    push_str(&mut s, unit);
    s
}

fn push_line(out: &mut Vec<DetailLine>, kind: DetailKind, text: String)
    ensures
        line_views(final(out)@) == line_views(old(out)@).push((kind, text@)),
{
    out.push(DetailLine { kind, text });
    assert(line_views(out@) =~= line_views(old(out)@).push((kind, text@)));
}

fn push_tags(out: &mut Vec<DetailLine>, c: &Command)
    ensures
        line_views(final(out)@) == line_views(old(out)@) + tag_lines(c@),
{
    if c.tags.len() > 0 {
        push_line(out, DetailKind::Section, "Tags".to_string());
        let ghost start = line_views(out@);
        let mut i: usize = 0;
        while i < c.tags.len()
            invariant
                i <= c.tags@.len(),
                line_views(out@) == start + c@.tags.take(i as int).map_values(
                    |t: Seq<char>| (DetailKind::Tag, t),
                ),
            decreases c.tags.len() - i,
        {
            push_line(out, DetailKind::Tag, c.tags[i].clone());
            assert(c@.tags.take(i + 1).map_values(|t: Seq<char>| (DetailKind::Tag, t))
                =~= c@.tags.take(i as int).map_values(|t: Seq<char>| (DetailKind::Tag, t)).push(
                (DetailKind::Tag, c@.tags[i as int]),
            ));
            i += 1;
        }
        assert(c@.tags.take(c@.tags.len() as int) =~= c@.tags);
        push_line(out, DetailKind::Plain, String::new());
    }
    assert(line_views(out@) =~= line_views(old(out)@) + tag_lines(c@));
}

fn push_collections(out: &mut Vec<DetailLine>, c: &Command, cols: &Vec<Collection>)
    ensures
        line_views(final(out)@) == line_views(old(out)@) + collections_block(c@, cols@),
{
    if c.collection_ids.len() > 0 {
        push_line(out, DetailKind::Section, "Collections".to_string());
        let ghost start = line_views(out@);
        let mut i: usize = 0;
        while i < c.collection_ids.len()
            invariant
                i <= c.collection_ids@.len(),
                line_views(out@) == start + collection_lines(c@.collection_ids.take(i as int), cols@),
            decreases c.collection_ids.len() - i,
        {
            let ghost ids = c@.collection_ids.take(i + 1);
            assert(ids.drop_last() =~= c@.collection_ids.take(i as int));
            assert(ids.last() == c@.collection_ids[i as int]);
            let ghost before = line_views(out@);
            match crate::picker::find_collection_name(cols, c.collection_ids[i].as_str()) {
                Some(name) => {
                    let mut t = String::new();
                    push_str(&mut t, "- ");
                    push_str(&mut t, name.as_str());
                    push_line(out, DetailKind::Plain, t);
                    assert(line_views(out@) =~= start + collection_lines(ids, cols@));
                },
                None => {},
            }
            i += 1;
        }
        assert(c@.collection_ids.take(c@.collection_ids.len() as int) =~= c@.collection_ids);
        push_line(out, DetailKind::Plain, String::new());
    }
    assert(line_views(out@) =~= line_views(old(out)@) + collections_block(c@, cols@));
}

fn push_usage(out: &mut Vec<DetailLine>, c: &Command, now: i64)
    ensures
        line_views(final(out)@) == line_views(old(out)@) + usage_lines(c@, now as int),
{
    push_line(out, DetailKind::Section, "Usage".to_string());
    push_line(out, DetailKind::Plain, labelled("Used: ", c.use_count as i64, "x"));
    match c.last_used {
        Some(ts) => {
            let mut t = String::new();
            push_str(&mut t, "Last used: ");
            let a = time_ago(now, ts);
            push_str(&mut t, a.as_str());
            push_line(out, DetailKind::Plain, t);
        },
        None => {},
    }
    push_line(out, DetailKind::Plain, String::new());
    assert(line_views(out@) =~= line_views(old(out)@) + usage_lines(c@, now as int));
}

fn push_dirs(out: &mut Vec<DetailLine>, dirs: &Vec<(String, i32)>)
    ensures
        line_views(final(out)@) == line_views(old(out)@) + dir_lines(dirs@),
{
    let ghost start = line_views(out@);
    let mut i: usize = 0;
    while i < dirs.len()
        invariant
            i <= dirs@.len(),
            line_views(out@) == start + dir_lines(dirs@.take(i as int)),
        decreases dirs.len() - i,
    {
        let ghost ds = dirs@.take(i + 1);
        assert(ds.drop_last() =~= dirs@.take(i as int));
        let mut t = String::new();
        push_str(&mut t, "- ");
        push_str(&mut t, dirs[i].0.as_str());
        push_str(&mut t, " (");
        push_int(&mut t, dirs[i].1 as i64);
        push_str(&mut t, "x)");
        push_line(out, DetailKind::Plain, t);
        assert(line_views(out@) =~= start + dir_lines(ds));
        i += 1;
    }
    assert(dirs@.take(dirs@.len() as int) =~= dirs@);
}

fn push_runs(out: &mut Vec<DetailLine>, c: &Command, s: &RunSummary, now: i64)
    ensures
        line_views(final(out)@) == line_views(old(out)@) + run_lines(c@, *s, now as int),
{
    push_line(out, DetailKind::Section, "Runs".to_string());
    push_line(out, DetailKind::Plain, labelled("Recorded: ", s.total as i64, "x"));
    if c.runs_here > 0 {
        push_line(out, DetailKind::Plain, labelled("Here: ", c.runs_here as i64, "x"));
    }
    match s.last_exit {
        Some(code) => {
            let kind = if code == 0 {
                DetailKind::Plain
            } else {
                DetailKind::Alert
            };
            push_line(out, kind, labelled("Last exit: ", code as i64, ""));
            assert(""@.len() == 0) by {
                reveal_strlit("");
            }
            assert("Last exit: "@ + int_text(code as int) + ""@ =~= "Last exit: "@ + int_text(code as int));
        },
        None => {},
    }
    match s.last_run {
        Some(ts) => {
            let mut t = String::new();
            push_str(&mut t, "Last run: ");
            let a = time_ago(now, ts);
            push_str(&mut t, a.as_str());
            push_line(out, DetailKind::Plain, t);
        },
        None => {},
    }
    let ghost mid = line_views(out@);
    push_dirs(out, &s.top_dirs);
    push_line(out, DetailKind::Plain, String::new());
    assert(line_views(out@) =~= line_views(old(out)@) + run_lines(c@, *s, now as int));
}

impl DetailLine {
    /// The lines of the details pane for `c` at time `now`, naming its
    /// collections from `cols` and its runs from `summary`.
    pub fn for_command(
        c: &Command,
        cols: &Vec<Collection>,
        summary: Option<&RunSummary>,
        now: i64,
    ) -> (r: Vec<DetailLine>)
        ensures
            line_views(r@) == detail_text(c@, cols@, match summary {
                Some(s) => Some(*s),
                None => None,
            }, now as int),
    {
        let ghost sum = match summary {
            Some(s) => Some(*s),
            None => None,
        };
        let mut out: Vec<DetailLine> = Vec::new();
        push_line(&mut out, DetailKind::Section, "Command".to_string());
        push_line(&mut out, DetailKind::Plain, c.text.clone());
        push_line(&mut out, DetailKind::Plain, String::new());
        let ghost l1 = line_views(out@);
        push_tags(&mut out, c);
        let ghost l2 = line_views(out@);
        push_collections(&mut out, c, cols);
        let ghost l3 = line_views(out@);
        push_usage(&mut out, c, now);
        let ghost l4 = line_views(out@);
        match summary {
            Some(s) => push_runs(&mut out, c, s, now),
            None => {},
        }
        let ghost l5 = line_views(out@);
        let ghost runs = match sum {
            Some(s) => run_lines(c@, s, now as int),
            None => Seq::empty(),
        };
        assert(l5 =~= l4 + runs);
        push_line(&mut out, DetailKind::Section, "Favorite".to_string());
        if c.favorite {
            push_line(&mut out, DetailKind::Favorite, "* yes".to_string());
        } else {
            push_line(&mut out, DetailKind::Plain, "○ no".to_string());
        }
        assert(line_views(out@) =~= l5 + favorite_lines(c@));
        assert(l1 =~= seq![section("Command"@), plain(c@.text), blank()]);
        assert(line_views(out@) =~= detail_text(c@, cols@, sum, now as int));
        out
    }
}

} // verus!
