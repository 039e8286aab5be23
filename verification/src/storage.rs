//! What the database holds and hands back, and the arithmetic around it that
//! needs no database: counting an import, and the export's timestamp.
use vstd::prelude::*;
use crate::hash::{hash_command, normalized};
use crate::hash::sha1_hex_of;
use crate::text::{push_char, views};

verus! {

/// A named group of commands.
#[derive(Debug)]
pub struct Collection {
    pub id: String,
    pub name: String,
}

/// What the database knows of a command besides its text.
#[derive(Debug, Clone, Copy, PartialEq, Eq, Structural)]
pub struct CommandMeta {
    pub favorite: bool,
    pub last_used: Option<i64>,
    pub use_count: i32,
}

/// What the details panel shows of a command's recorded runs.
#[derive(Debug, PartialEq, Eq)]
pub struct RunSummary {
    pub total: i32,
    pub last_exit: Option<i32>,
    pub last_run: Option<i64>,
    /// Directories the command ran in, most frequent first.
    pub top_dirs: Vec<(String, i32)>,
}

/// The version written into every export.
pub const EXPORT_VERSION: u32 = 1;

/// Everything an export file holds.
#[derive(Debug)]
pub struct ExportData {
    pub version: u32,
    pub exported_at: String,
    pub commands: Vec<ExportCommand>,
    pub collections: Vec<ExportCollection>,
    pub tags: Vec<String>,
}

/// One command of an export file.
#[derive(Debug)]
pub struct ExportCommand {
    pub id: String,
    pub text: String,
    pub context: Vec<String>,
    pub favorite: bool,
    pub use_count: i32,
    pub last_used: Option<i64>,
    pub tags: Vec<String>,
    /// The names of its collections.
    pub collections: Vec<String>,
    /// The ids of its collections; empty in files written before exports
    /// carried them.
    pub collection_ids: Vec<String>,
}

/// One collection of an export file.
#[derive(Debug)]
pub struct ExportCollection {
    pub id: String,
    pub name: String,
}

/// How an import treats what is already there.
#[derive(Debug, Clone, Copy, PartialEq, Eq, Structural)]
pub enum ImportMode {
    Merge,
    Replace,
    DryRun,
}

/// What an import would add and skip.
#[derive(Debug, Clone, Copy, PartialEq, Eq, Structural)]
pub struct ImportPreview {
    pub new_commands: usize,
    pub new_collections: usize,
    pub duplicates: usize,
}

/// What an import did.
#[derive(Debug, Clone, Copy, PartialEq, Eq, Structural)]
pub struct ImportResult {
    pub imported_commands: usize,
    pub imported_collections: usize,
    pub skipped_commands: usize,
    pub is_dry_run: bool,
}

/// How many of `items` lie in `known`.
pub open spec fn count_in(items: Seq<Seq<char>>, known: Set<Seq<char>>) -> nat
    decreases items.len(),
{
    if items.len() == 0 {
        0
    } else {
        count_in(items.drop_last(), known) + if known.contains(items.last()) {
            1nat
        } else {
            0
        }
    }
}

proof fn lemma_count_in_le(items: Seq<Seq<char>>, known: Set<Seq<char>>)
    ensures
        count_in(items, known) <= items.len(),
    decreases items.len(),
{
    if items.len() > 0 {
        lemma_count_in_le(items.drop_last(), known);
    }
}

fn member(v: &Vec<String>, s: &str) -> (r: bool)
    ensures
        r == views(v@).to_set().contains(s@),
{
    let mut i: usize = 0;
    while i < v.len()
        invariant
            i <= v@.len(),
            forall|j: int| 0 <= j < i ==> views(v@)[j] != s@,
        decreases v.len() - i,
    {
        if crate::text::str_eq(v[i].as_str(), s) {
            assert(views(v@).contains(s@)) by {
                assert(views(v@)[i as int] == s@);
            }
            return true;
        }
        i += 1;
    }
    assert(!views(v@).contains(s@)) by {
        if views(v@).contains(s@) {
            let j = choose|j: int| 0 <= j < views(v@).len() && views(v@)[j] == s@;
            assert(views(v@)[j] != s@);
        }
    }
    false
}

/// The ids the commands of an export would get.
pub open spec fn command_ids(data_texts: Seq<Seq<char>>) -> Seq<Seq<char>> {
    data_texts.map_values(|t: Seq<char>| sha1_hex_of(normalized(t)))
}

/// What importing `data` over a database holding the given command and
/// collection ids would do: a command whose id is known is a duplicate, any
/// other is new; a collection whose id is not known is new.
pub fn preview_counts(data: &ExportData, command_ids_known: &Vec<String>, collection_ids_known: &Vec<String>) -> (r: ImportPreview)
    ensures
        ({
            let texts = data.commands@.map_values(|c: ExportCommand| c.text@);
            let known = views(command_ids_known@).to_set();
            let ids = command_ids(texts);
            let colls = data.collections@.map_values(|c: ExportCollection| c.id@);
            &&& r.duplicates == count_in(ids, known)
            &&& r.new_commands == data.commands@.len() - count_in(ids, known)
            &&& r.new_collections == data.collections@.len() - count_in(colls, views(collection_ids_known@).to_set())
        }),
{
    let ghost texts = data.commands@.map_values(|c: ExportCommand| c.text@);
    let ghost known = views(command_ids_known@).to_set();
    let ghost ids = command_ids(texts);
    let mut new_commands: usize = 0;
    let mut duplicates: usize = 0;
    let mut i: usize = 0;
    while i < data.commands.len()
        invariant
            i <= data.commands@.len(),
            texts == data.commands@.map_values(|c: ExportCommand| c.text@),
            known == views(command_ids_known@).to_set(),
            ids == command_ids(texts),
            duplicates == count_in(ids.take(i as int), known),
            new_commands + duplicates == i,
        decreases data.commands.len() - i,
    {
        assert(ids.take(i + 1).drop_last() =~= ids.take(i as int));
        let h = hash_command(data.commands[i].text.as_str());
        assert(h@ == ids[i as int]);
        if member(command_ids_known, h.as_str()) {
            duplicates += 1;
        } else {
            new_commands += 1;
        }
        i += 1;
    }
    assert(ids.take(ids.len() as int) =~= ids);
    let ghost colls = data.collections@.map_values(|c: ExportCollection| c.id@);
    let ghost known_c = views(collection_ids_known@).to_set();
    let mut seen: usize = 0;
    let mut new_collections: usize = 0;
    let mut k: usize = 0;
    while k < data.collections.len()
        invariant
            k <= data.collections@.len(),
            colls == data.collections@.map_values(|c: ExportCollection| c.id@),
            known_c == views(collection_ids_known@).to_set(),
            seen == count_in(colls.take(k as int), known_c),
            new_collections + seen == k,
        decreases data.collections.len() - k,
    {
        assert(colls.take(k + 1).drop_last() =~= colls.take(k as int));
        if member(collection_ids_known, data.collections[k].id.as_str()) {
            seen += 1;
        } else {
            new_collections += 1;
        }
        k += 1;
    }
    assert(colls.take(colls.len() as int) =~= colls);
    ImportPreview { new_commands, new_collections, duplicates }
}

/// What a dry run reports: nothing imported, the duplicates skipped.
pub fn dry_run_result(preview: ImportPreview) -> (r: ImportResult)
    ensures
        r == (ImportResult {
            imported_commands: 0,
            imported_collections: 0,
            skipped_commands: preview.duplicates,
            is_dry_run: true,
        }),
{
    ImportResult {
        imported_commands: 0,
        imported_collections: 0,
        skipped_commands: preview.duplicates,
        is_dry_run: true,
    }
}

// ---------------------------------------------------------------------------
// The export's timestamp
// ---------------------------------------------------------------------------

/// Gregorian leap years: every fourth, but not every hundredth, but every
/// four hundredth.
pub open spec fn leap(year: int) -> bool {
    (year % 4 == 0 && year % 100 != 0) || year % 400 == 0
}

pub fn is_leap_year(year: u32) -> (r: bool)
    ensures
        r == leap(year as int),
{
    (year % 4 == 0 && year % 100 != 0) || year % 400 == 0
}

pub open spec fn year_days(year: int) -> int {
    if leap(year) {
        366
    } else {
        365
    }
}

/// The year `days` days after the start of `year`, and the day within it.
pub open spec fn year_and_day(year: int, days: int) -> (int, int)
    decreases days,
{
    if days < year_days(year) || days < 0 {
        (year, days)
    } else {
        year_and_day(year + 1, days - year_days(year))
    }
}

pub open spec fn month_days(leap_year: bool, m: int) -> int {
    if m == 1 {
        if leap_year {
            29
        } else {
            28
        }
    } else if m == 3 || m == 5 || m == 8 || m == 10 {
        30
    } else {
        31
    }
}

/// The month (counted from 1 at `m + 1`) and the day within it, `days` days
/// into the year from the start of month `m` (counted from 0).
pub open spec fn month_and_day(leap_year: bool, m: int, days: int) -> (int, int)
    decreases 12 - m,
{
    if m >= 12 || days < month_days(leap_year, m) {
        (m + 1, days)
    } else {
        month_and_day(leap_year, m + 1, days - month_days(leap_year, m))
    }
}

/// The day of the year (from 0) on which month `mo` (from 1) begins, as the
/// Gregorian calendar has it; month 13 begins the next year.
pub open spec fn calendar_month_start(leap_year: bool, mo: int) -> int {
    let l: int = if leap_year {
        1
    } else {
        0
    };
    if mo <= 1 {
        0
    } else if mo == 2 {
        31
    } else if mo == 3 {
        59 + l
    } else if mo == 4 {
        90 + l
    } else if mo == 5 {
        120 + l
    } else if mo == 6 {
        151 + l
    } else if mo == 7 {
        181 + l
    } else if mo == 8 {
        212 + l
    } else if mo == 9 {
        243 + l
    } else if mo == 10 {
        273 + l
    } else if mo == 11 {
        304 + l
    } else if mo == 12 {
        334 + l
    } else {
        365 + l
    }
}

/// Every day of a year falls in the month the calendar puts it in, on the
/// day of that month the calendar gives: day `d` of the year is day
/// `d - start` of the month that starts at `start <= d` and ends after it.
pub proof fn law_months_follow_the_calendar(leap_year: bool, d: int)
    requires
        0 <= d < calendar_month_start(leap_year, 13),
    ensures
        1 <= month_and_day(leap_year, 0, d).0 <= 12,
        calendar_month_start(leap_year, month_and_day(leap_year, 0, d).0) <= d,
        d < calendar_month_start(leap_year, month_and_day(leap_year, 0, d).0 + 1),
        month_and_day(leap_year, 0, d).1 == d - calendar_month_start(
            leap_year,
            month_and_day(leap_year, 0, d).0,
        ),
{
    reveal_with_fuel(month_and_day, 13);
}

proof fn lemma_year_and_day_in_year(year: int, days: int)
    requires
        days >= 0,
    ensures
        0 <= year_and_day(year, days).1 < year_days(year_and_day(year, days).0),
    decreases days,
{
    if !(days < year_days(year)) {
        lemma_year_and_day_in_year(year + 1, days - year_days(year));
    }
}

/// Every date the export's timestamp shows is a real calendar date: its
/// month is one of the twelve, and its day of the month is at least 1 and
/// no more than that month has in that year.
pub proof fn law_utc_dates_are_calendar_dates(secs: nat)
    ensures
        ({
            let yd = year_and_day(1970, secs as int / 86400);
            let md = month_and_day(leap(yd.0), 0, yd.1);
            &&& 1 <= md.0 <= 12
            &&& 1 <= md.1 + 1 <= calendar_month_start(leap(yd.0), md.0 + 1) - calendar_month_start(
                leap(yd.0),
                md.0,
            )
        }),
{
    let yd = year_and_day(1970, secs as int / 86400);
    lemma_year_and_day_in_year(1970, secs as int / 86400);
    law_months_follow_the_calendar(leap(yd.0), yd.1);
}

/// `n` in decimal, padded with zeros to at least `width` digits.
pub open spec fn padded(n: nat, width: nat) -> Seq<char>
    decreases width,
{
    let d = crate::keymap::keys::decimal(n);
    if d.len() >= width {
        d
    } else {
        seq!['0'] + padded(n, (width - 1) as nat)
    }
}

/// The UTC time `secs` seconds after the epoch, as `YYYY-MM-DDTHH:MM:SSZ`.
pub open spec fn utc_text(secs: nat) -> Seq<char> {
    let yd = year_and_day(1970, secs as int / 86400);
    let md = month_and_day(leap(yd.0), 0, yd.1);
    padded(yd.0 as nat, 4) + seq!['-'] + padded(md.0 as nat, 2) + seq!['-'] + padded(
        (md.1 + 1) as nat,
        2,
    ) + seq!['T'] + padded(((secs / 3600) % 24) as nat, 2) + seq![':'] + padded(
        ((secs / 60) % 60) as nat,
        2,
    ) + seq![':'] + padded((secs % 60) as nat, 2) + seq!['Z']
}

proof fn lemma_decimal_len(n: nat)
    ensures
        crate::keymap::keys::decimal(n).len() >= 1,
        n >= 10 ==> crate::keymap::keys::decimal(n).len() >= 2,
        n >= 100 ==> crate::keymap::keys::decimal(n).len() >= 3,
        n >= 1000 ==> crate::keymap::keys::decimal(n).len() >= 4,
        n < 10 ==> crate::keymap::keys::decimal(n).len() == 1,
        n < 100 ==> crate::keymap::keys::decimal(n).len() <= 2,
        n < 1000 ==> crate::keymap::keys::decimal(n).len() <= 3,
    decreases n,
{
    if n >= 10 {
        lemma_decimal_len(n / 10);
    }
}

fn digit_of(d: u64) -> (r: char)
    requires
        d < 10,
    ensures
        r == crate::keymap::keys::digit_char(d as int),
{
    (d as u8 + 48) as char
}

/// Appends `n` in decimal.
pub(crate) fn push_decimal(out: &mut String, n: u64)
    ensures
        final(out)@ == old(out)@ + crate::keymap::keys::decimal(n as nat),
    decreases n,
{
    if n >= 10 {
        push_decimal(out, n / 10);
    }
    push_char(out, digit_of(n % 10));
}

/// Appends `n` in decimal, zero-padded to `width` digits.
fn push_padded(out: &mut String, n: u64, width: u64)
    requires
        width <= 4,
    ensures
        final(out)@ == old(out)@ + padded(n as nat, width as nat),
{
    proof {
        lemma_decimal_len(n as nat);
    }
    let digits: u64 = if n >= 1000 {
        4
    } else if n >= 100 {
        3
    } else if n >= 10 {
        2
    } else {
        1
    };
    let ghost start = out@;
    let mut pad = width;
    while pad > digits
        invariant
            digits <= 4,
            pad <= width <= 4,
            crate::keymap::keys::decimal(n as nat).len() >= digits,
            digits >= 4 || crate::keymap::keys::decimal(n as nat).len() == digits,
            out@ + padded(n as nat, pad as nat) == start + padded(n as nat, width as nat),
        decreases pad,
    {
        push_char(out, '0');
        pad -= 1;
        assert(out@ + padded(n as nat, pad as nat) =~= start + padded(n as nat, width as nat));
    }
    assert(padded(n as nat, pad as nat) == crate::keymap::keys::decimal(n as nat));
    push_decimal(out, n);
}

/// Formats `secs` seconds after the epoch as `YYYY-MM-DDTHH:MM:SSZ`, in UTC.
pub fn format_utc(secs: u64) -> (r: String)
    requires
        year_and_day(1970, secs as int / 86400).0 <= u32::MAX,
    ensures
        r@ == utc_text(secs as nat),
{
    let s = secs % 60;
    let mins = (secs / 60) % 60;
    let hours = (secs / 3600) % 24;
    let days = secs / 86400;
    let mut year: u32 = 1970;
    let mut remaining: u64 = days;
    while remaining >= year_length(year)
        invariant
            1970 <= year,
            year_and_day(year as int, remaining as int) == year_and_day(1970, days as int),
            year_and_day(1970, days as int).0 <= u32::MAX,
        decreases remaining,
    {
        let diy: u64 = year_length(year);
        assert(year_and_day(year as int, remaining as int).0 >= year + 1) by {
            lemma_year_and_day_grows(year as int + 1, remaining - diy);
        }
        remaining = remaining - diy;
        year = year + 1;
    }
    let leap_year = is_leap_year(year);
    let mut month: u64 = 1;
    let mut m: u64 = 0;
    while m < 12 && remaining >= month_length(leap_year, m)
        invariant
            m <= 12,
            month == m + 1,
            remaining < 366,
            month_and_day(leap_year, m as int, remaining as int) == month_and_day(
                leap(year as int),
                0,
                year_and_day(1970, days as int).1,
            ),
            leap_year == leap(year as int),
        decreases 12 - m,
    {
        remaining = remaining - month_length(leap_year, m);
        m += 1;
        month += 1;
    }
    let mut out = String::new();
    push_padded(&mut out, year as u64, 4);
    push_char(&mut out, '-');
    push_padded(&mut out, month, 2);
    push_char(&mut out, '-');
    push_padded(&mut out, remaining + 1, 2);
    push_char(&mut out, 'T');
    push_padded(&mut out, hours, 2);
    push_char(&mut out, ':');
    push_padded(&mut out, mins, 2);
    push_char(&mut out, ':');
    push_padded(&mut out, s, 2);
    push_char(&mut out, 'Z');
    out
}

proof fn lemma_year_and_day_grows(year: int, days: int)
    ensures
        year_and_day(year, days).0 >= year,
    decreases days,
{
    if !(days < year_days(year) || days < 0) {
        lemma_year_and_day_grows(year + 1, days - year_days(year));
    }
}

fn year_length(year: u32) -> (r: u64)
    ensures
        r == year_days(year as int),
{
    if is_leap_year(year) {
        366
    } else {
        365
    }
}

fn month_length(leap_year: bool, m: u64) -> (r: u64)
    ensures
        r == month_days(leap_year, m as int),
{
    if m == 1 {
        if leap_year {
            29
        } else {
            28
        }
    } else if m == 3 || m == 5 || m == 8 || m == 10 {
        30
    } else {
        31
    }
}

} // verus!
