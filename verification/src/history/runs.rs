//! The run log written by the shell integration: one line per command,
//! `v1<TAB>epoch<TAB>exit<TAB>host<TAB>cwd<TAB>command`, with the command
//! escaped so a line always holds a single run.
use vstd::prelude::*;
use crate::text::{
    chars_of, lines, lines_of, owned, parse_i32, parse_i64, parse_int, push_str, splitn_chars,
    splitn_spec, string_of, trim, trim_chars, unescape_chars, unescape_spec,
};

verus! {

/// One recorded execution.
#[derive(Debug, Clone, PartialEq, Eq)]
pub struct RunEntry {
    pub command: String,
    pub cwd: String,
    pub exit_code: Option<i32>,
    pub ran_at: i64,
    pub host: Option<String>,
}

/// Lines beyond this are not read.
pub const MAX_LINES: usize = 50_000;

/// Suffix of the staging file the log is renamed to before it is read.
pub const INGEST_SUFFIX: &'static str = ".ingest";

/// The staging file for a run log.
pub fn ingest_path(path: &str) -> (r: String)
    ensures
        r@ == path@ + INGEST_SUFFIX@,
{
    let mut r = owned(path);
    push_str(&mut r, INGEST_SUFFIX);
    r
}

/// Inverse of the hook's escaping. A trailing lone backslash is kept verbatim.
pub fn unescape(s: &str) -> (r: String)
    ensures
        r@ == unescape_spec(s@, true),
{
    let v = chars_of(s);
    let u = unescape_chars(v.as_slice(), true);
    string_of(u.as_slice())
}

/// How the shell hook writes one character of a command: a backslash
/// doubled, a newline, tab or carriage return as a backslash and a letter,
/// anything else as itself.
pub open spec fn hook_escape_char(c: char) -> Seq<char> {
    if c == '\\' {
        seq!['\\', '\\']
    } else if c == '\n' {
        seq!['\\', 'n']
    } else if c == '\t' {
        seq!['\\', 't']
    } else if c == '\r' {
        seq!['\\', 'r']
    } else {
        seq![c]
    }
}

/// A command as the shell hook escapes it for the run log.
pub open spec fn hook_escape(s: Seq<char>) -> Seq<char>
    decreases s.len(),
{
    if s.len() == 0 {
        s
    } else {
        hook_escape_char(s[0]) + hook_escape(s.drop_first())
    }
}

/// Unescaping undoes the hook's escaping: every command comes back as it
/// was run.
pub proof fn law_unescape_undoes_hook_escape(s: Seq<char>)
    ensures
        unescape_spec(hook_escape(s), true) == s,
    decreases s.len(),
{
    if s.len() > 0 {
        law_unescape_undoes_hook_escape(s.drop_first());
        let e = hook_escape_char(s[0]);
        let rest = hook_escape(s.drop_first());
        let all = e + rest;
        if e.len() == 1 {
            assert(all.drop_first() =~= rest);
            assert(all[0] == s[0]);
        } else {
            assert(all.skip(2) =~= rest);
            assert(all[0] == '\\');
        }
        assert(s =~= seq![s[0]] + s.drop_first());
    }
}

pub open spec fn opt_i64(o: Option<int>) -> Option<i64> {
    match o {
        Some(v) => Some(v as i64),
        None => None,
    }
}

pub open spec fn opt_i32(o: Option<int>) -> Option<i32> {
    match o {
        Some(v) => Some(v as i32),
        None => None,
    }
}

/// What a log line records: `(command, cwd, exit_code, ran_at, host)`, or
/// nothing for a malformed line, a bad timestamp, or an empty command or
/// directory. A missing or unparseable exit code is `None`.
pub open spec fn run_line(line: Seq<char>) -> Option<(Seq<char>, Seq<char>, Option<i32>, i64, Option<Seq<char>>)> {
    let f = splitn_spec(line, 6, '\t');
    if f.len() != 6 || f[0] != "v1"@ {
        None
    } else {
        match parse_int(f[1], true, i64::MIN as int, i64::MAX as int) {
            None => None,
            Some(ran_at) => {
                let command = unescape_spec(f[5], true);
                if f[4].len() == 0 || trim(command).len() == 0 {
                    None
                } else {
                    Some(
                        (
                            command,
                            f[4],
                            opt_i32(parse_int(f[2], true, i32::MIN as int, i32::MAX as int)),
                            ran_at as i64,
                            if f[3].len() > 0 {
                                Some(f[3])
                            } else {
                                None
                            },
                        ),
                    )
                }
            },
        }
    }
}

pub open spec fn entry_is(e: RunEntry, m: (Seq<char>, Seq<char>, Option<i32>, i64, Option<Seq<char>>)) -> bool {
    &&& e.command@ == m.0
    &&& e.cwd@ == m.1
    &&& e.exit_code == m.2
    &&& e.ran_at == m.3
    &&& match e.host {
        Some(h) => m.4 == Some(h@),
        None => m.4 is None,
    }
}

fn is_v1(f: &[char]) -> (r: bool)
    ensures
        r == (f@ == "v1"@),
{
    proof {
        reveal_strlit("v1");
    }
    if f.len() == 2 && f[0] == 'v' && f[1] == '1' {
        assert(f@ =~= "v1"@);
        true
    } else {
        false
    }
}

/// Parses one log line, skipping anything malformed.
pub fn parse_run_line(line: &str) -> (r: Option<RunEntry>)
    ensures
        match run_line(line@) {
            Some(m) => r matches Some(e) && entry_is(e, m),
            None => r is None,
        },
{
    let v = chars_of(line);
    parse_run_chars(v.as_slice())
}

fn parse_run_chars(v: &[char]) -> (r: Option<RunEntry>)
    ensures
        match run_line(v@) {
            Some(m) => r matches Some(e) && entry_is(e, m),
            None => r is None,
        },
{
    let f = splitn_chars(v, 6, '\t');
    if f.len() != 6 || !is_v1(f[0].as_slice()) {
        return None;
    }
    let ran_at = match parse_i64(f[1].as_slice()) {
        Some(t) => t,
        None => return None,
    };
    let exit_code = parse_i32(f[2].as_slice());
    let host = if f[3].len() > 0 {
        Some(string_of(f[3].as_slice()))
    } else {
        None
    };
    let command = unescape_chars(f[5].as_slice(), true);
    let t = trim_chars(command.as_slice());
    if f[4].len() == 0 || t.len() == 0 {
        return None;
    }
    Some(
        RunEntry {
            command: string_of(command.as_slice()),
            cwd: string_of(f[4].as_slice()),
            exit_code,
            ran_at,
            host,
        },
    )
}

/// The runs a log holds: its first [`MAX_LINES`] lines, malformed ones
/// skipped.
pub open spec fn runs_of(content: Seq<char>) -> Seq<(Seq<char>, Seq<char>, Option<i32>, i64, Option<Seq<char>>)>
{
    let ls = lines(content);
    let first = if ls.len() > MAX_LINES {
        ls.take(MAX_LINES as int)
    } else {
        ls
    };
    first.map_values(|l: Seq<char>| run_line(l)).filter(|o: Option<(Seq<char>, Seq<char>, Option<i32>, i64, Option<Seq<char>>)>| o is Some).map_values(
        |o: Option<(Seq<char>, Seq<char>, Option<i32>, i64, Option<Seq<char>>)>| o->0,
    )
}

/// Parses a run log's content.
pub fn parse_runs(content: &str) -> (r: Vec<RunEntry>)
    ensures
        r@.len() == runs_of(content@).len(),
        forall|i: int| 0 <= i < r@.len() ==> entry_is(#[trigger] r@[i], runs_of(content@)[i]),
{
    let v = chars_of(content);
    let ls = lines_of(v.as_slice());
    let ghost all = lines(content@);
    let n = if ls.len() > MAX_LINES { MAX_LINES } else { ls.len() };
    let ghost first = all.take(n as int);
    assert(first =~= (if all.len() > MAX_LINES { all.take(MAX_LINES as int) } else { all }));
    let mut out: Vec<RunEntry> = Vec::new();
    let mut i: usize = 0;
    let ghost mut got: Seq<Option<(Seq<char>, Seq<char>, Option<i32>, i64, Option<Seq<char>>)>> = Seq::empty();
    while i < n
        invariant
            i <= n <= ls@.len(),
            ls@.len() == all.len(),
            forall|j: int| 0 <= j < ls@.len() ==> #[trigger] ls@[j]@ == all[j],
            got == all.take(i as int).map_values(|l: Seq<char>| run_line(l)).filter(
                |o: Option<(Seq<char>, Seq<char>, Option<i32>, i64, Option<Seq<char>>)>| o is Some,
            ),
            out@.len() == got.len(),
            forall|j: int| 0 <= j < out@.len() ==> got[j] is Some && entry_is(#[trigger] out@[j], got[j]->0),
        decreases n - i,
    {
        let e = parse_run_chars(ls[i].as_slice());
        proof {
            reveal(Seq::filter);
            let prev = all.take(i as int).map_values(|l: Seq<char>| run_line(l));
            let next = all.take(i + 1).map_values(|l: Seq<char>| run_line(l));
            assert(next =~= prev.push(run_line(all[i as int])));
            assert(next.drop_last() =~= prev);
        }
        match e {
            Some(entry) => {
                out.push(entry);
                proof {
                    got = got.push(run_line(all[i as int]));
                }
            },
            None => {},
        }
        i += 1;
    }
    proof {
        let m = got.map_values(|o: Option<(Seq<char>, Seq<char>, Option<i32>, i64, Option<Seq<char>>)>| o->0);
        assert(runs_of(content@) == m);
    }
    out
}

} // verus!
