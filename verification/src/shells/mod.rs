//! The shells ctrlr integrates with: naming and detecting them, and the
//! integration block each one's config carries.
pub mod bash;
pub mod fish;
pub mod powershell;
pub mod zsh;

use vstd::prelude::*;
use crate::hash::{sha1_hex, sha1_hex_of};
use crate::paths::runs_log_path;
use crate::text::{ascii_lower, chars_of, contains, match_at, starts_with, is_ascii_str, lowercased, push_str, replace_all, replace_chars, split_char, split_chars, str_contains, str_eq, string_of, to_lowercase};

verus! {

#[derive(Debug, Clone, Copy, PartialEq, Eq, Structural)]
pub enum Shell {
    Bash,
    Zsh,
    Fish,
    PowerShell,
}

/// Opens every block ctrlr writes into a shell config.
pub const START_MARKER: &'static str = "# ctrlr integration";

/// Closes every block ctrlr writes into a shell config.
pub const END_MARKER: &'static str = "# ctrlr integration end";

/// The placeholder each script carries for the run log path.
pub const LOG_PLACEHOLDER: &'static str = "{LOG}";

pub open spec fn shell_index(s: Shell) -> int {
    match s {
        Shell::Bash => 0,
        Shell::Zsh => 1,
        Shell::Fish => 2,
        Shell::PowerShell => 3,
    }
}

/// The name ctrlr shows for a shell, and the first name it accepts.
pub open spec fn shell_name(s: Shell) -> Seq<char> {
    match s {
        Shell::Bash => "bash"@,
        Shell::Zsh => "zsh"@,
        Shell::Fish => "fish"@,
        Shell::PowerShell => "powershell"@,
    }
}

/// The shell a lowercase name stands for: the display names, plus `pwsh` and
/// `ps` for PowerShell.
pub open spec fn shell_named(n: Seq<char>) -> Option<Shell> {
    if n == "bash"@ {
        Some(Shell::Bash)
    } else if n == "zsh"@ {
        Some(Shell::Zsh)
    } else if n == "fish"@ {
        Some(Shell::Fish)
    } else if n == "powershell"@ || n == "pwsh"@ || n == "ps"@ {
        Some(Shell::PowerShell)
    } else {
        None
    }
}

/// What follows the opening marker line in the template of a shell.
pub open spec fn body(s: Shell) -> Seq<char> {
    match s {
        Shell::Bash => bash::BODY@,
        Shell::Zsh => zsh::BODY@,
        Shell::Fish => fish::BODY@,
        Shell::PowerShell => powershell::BODY@,
    }
}

/// Every name a shell goes by, its display name first.
pub open spec fn alias_list(s: Shell) -> Seq<Seq<char>> {
    match s {
        Shell::Bash => seq!["bash"@],
        Shell::Zsh => seq!["zsh"@],
        Shell::Fish => seq!["fish"@],
        Shell::PowerShell => seq!["powershell"@, "pwsh"@, "ps"@],
    }
}

/// The integration template of a shell, before the log path is filled in:
/// the opening marker on a line of its own, then the shell's body.
pub open spec fn template(s: Shell) -> Seq<char> {
    START_MARKER@.push('\n') + body(s)
}

/// The integration block for a shell writing its runs to `log`.
pub open spec fn script_for(s: Shell, log: Seq<char>) -> Seq<char> {
    replace_all(template(s), LOG_PLACEHOLDER@, log)
}

impl Shell {
    /// Every variant, in declaration order.
    pub fn all() -> (r: Vec<Shell>)
        ensures
            r@ == seq![Shell::Bash, Shell::Zsh, Shell::Fish, Shell::PowerShell],
    {
        let mut r = Vec::new();
        r.push(Shell::Bash);
        r.push(Shell::Zsh);
        r.push(Shell::Fish);
        r.push(Shell::PowerShell);
        assert(r@ =~= seq![Shell::Bash, Shell::Zsh, Shell::Fish, Shell::PowerShell]);
        r
    }

    /// What `--shell` accepts, and what `$SHELL` basenames are matched
    /// against.
    pub fn aliases(&self) -> (r: Vec<&'static str>)
        ensures
            forall|i: int| 0 <= i < r@.len() ==> shell_named(#[trigger] r@[i]@) == Some(*self),
            r@.len() == alias_list(*self).len(),
            forall|i: int| 0 <= i < r@.len() ==> #[trigger] r@[i]@ == alias_list(*self)[i],
            r@[0]@ == shell_name(*self),
    {
        let mut r = Vec::new();
        match self {
            Shell::Bash => r.push("bash"),
            Shell::Zsh => r.push("zsh"),
            Shell::Fish => r.push("fish"),
            Shell::PowerShell => {
                r.push("powershell");
                r.push("pwsh");
                r.push("ps");
            },
        }
        proof {
            lemma_name_shapes();
        }
        r
    }

    /// How to make the shell write its in-memory history to its file. `None`
    /// for PowerShell, whose history is saved as it goes.
    pub fn flush_argv(&self) -> (r: Option<(&'static str, &'static str)>)
        ensures
            match r {
                Some((prog, arg)) => *self != Shell::PowerShell && prog@ == shell_name(*self),
                None => *self == Shell::PowerShell,
            },
    {
        match self {
            Shell::Bash => Some(("bash", "history -a")),
            Shell::Zsh => Some(("zsh", "fc -W")),
            Shell::Fish => Some(("fish", "history save")),
            Shell::PowerShell => None,
        }
    }

    /// The shell a name stands for, ignoring case.
    pub fn from_str(s: &str) -> (r: Option<Shell>)
        ensures
            r == shell_named(lowercased(s@)),
    {
        let l = to_lowercase(s);
        let ls = l.as_str();
        if str_eq(ls, "bash") {
            Some(Shell::Bash)
        } else if str_eq(ls, "zsh") {
            Some(Shell::Zsh)
        } else if str_eq(ls, "fish") {
            Some(Shell::Fish)
        } else if str_eq(ls, "powershell") || str_eq(ls, "pwsh") || str_eq(ls, "ps") {
            Some(Shell::PowerShell)
        } else {
            None
        }
    }

    pub fn display_name(&self) -> (r: &'static str)
        ensures
            r@ == shell_name(*self),
    {
        match self {
            Shell::Bash => "bash",
            Shell::Zsh => "zsh",
            Shell::Fish => "fish",
            Shell::PowerShell => "powershell",
        }
    }

    /// Which shell is in use, from `CTRLR_SHELL`, whether `PSModulePath` is
    /// set, `$SHELL`, and whether this is Windows.
    ///
    /// An explicit `CTRLR_SHELL` decides alone, even when it names nothing.
    /// `PSModulePath` is set only by pwsh on unix. `$SHELL` names the login
    /// shell, so it is checked last; unset, it means PowerShell on Windows.
    pub fn detect_from(
        ctrlr_shell: Option<&str>,
        ps_module_path: bool,
        shell: Option<&str>,
        windows: bool,
    ) -> (r: Option<Shell>)
        ensures
            r == detect_spec(
                match ctrlr_shell {
                    Some(n) => Some(n@),
                    None => None,
                },
                ps_module_path,
                match shell {
                    Some(n) => Some(n@),
                    None => None,
                },
                windows,
            ),
    {
        if let Some(name) = ctrlr_shell {
            return Shell::from_str(name);
        }
        if ps_module_path && !windows {
            return Some(Shell::PowerShell);
        }
        match shell {
            Some(sh) => match file_name(sh) {
                Some(base) => Shell::from_str(base.as_str()),
                None => None,
            },
            None => if windows {
                Some(Shell::PowerShell)
            } else {
                None
            },
        }
    }
}

pub open spec fn detect_spec(
    ctrlr_shell: Option<Seq<char>>,
    ps_module_path: bool,
    shell: Option<Seq<char>>,
    windows: bool,
) -> Option<Shell> {
    match ctrlr_shell {
        Some(name) => shell_named(lowercased(name)),
        None => if ps_module_path && !windows {
            Some(Shell::PowerShell)
        } else {
            match shell {
                Some(sh) => match file_name_spec(sh) {
                    Some(base) => shell_named(lowercased(base)),
                    None => None,
                },
                None => if windows {
                    Some(Shell::PowerShell)
                } else {
                    None
                },
            }
        },
    }
}

/// The components `Path::components` yields between separators: empty pieces
/// and `.` are not components.
pub open spec fn path_parts(s: Seq<char>) -> Seq<Seq<char>> {
    split_char(s, '/').filter(|p: Seq<char>| p.len() > 0 && p != "."@)
}

/// `Path::file_name` on unix: the last component, unless there is none or it
/// is `..`.
pub open spec fn file_name_spec(s: Seq<char>) -> Option<Seq<char>> {
    let parts = path_parts(s);
    if parts.len() == 0 || parts.last() == ".."@ {
        None
    } else {
        Some(parts.last())
    }
}

/// `Path::file_name` on unix.
pub fn file_name(path: &str) -> (r: Option<String>)
    ensures
        match r {
            Some(n) => file_name_spec(path@) == Some(n@),
            None => file_name_spec(path@) is None,
        },
{
    let v = chars_of(path);
    let pieces = split_chars(v.as_slice(), '/');
    let ghost all = split_char(path@, '/');
    let ghost pred = |p: Seq<char>| p.len() > 0 && p != "."@;
    // The last piece that is a component.
    let mut i = pieces.len();
    while i > 0 && !is_component(pieces[i - 1].as_slice())
        invariant
            i <= pieces@.len(),
            pieces@.len() == all.len(),
            forall|j: int| 0 <= j < pieces@.len() ==> #[trigger] pieces@[j]@ == all[j],
            forall|j: int| i <= j < all.len() ==> !pred(#[trigger] all[j]),
            forall|q: Seq<char>| #[trigger] pred(q) == (q.len() > 0 && q != "."@),
        decreases i,
    {
        assert(!pred(all[i - 1]));
        i -= 1;
    }
    proof {
        lemma_filter_last(all, pred, i as int);
    }
    if i == 0 {
        return None;
    }
    let p = &pieces[i - 1];
    proof {
        reveal_strlit("..");
    }
    if p.len() == 2 && p[0] == '.' && p[1] == '.' {
        assert(p@ =~= ".."@);
        None
    } else {
        assert(p@ != ".."@);
        Some(string_of(p.as_slice()))
    }
}

/// A piece between separators that is a path component: not empty, not `.`.
fn is_component(p: &[char]) -> (r: bool)
    ensures
        r == (p@.len() > 0 && p@ != "."@),
{
    proof {
        reveal_strlit(".");
    }
    if p.len() == 1 && p[0] == '.' {
        assert(p@ =~= "."@);
        false
    } else {
        p.len() > 0
    }
}

/// The last element a filter keeps is the last element satisfying it.
proof fn lemma_filter_last(s: Seq<Seq<char>>, pred: spec_fn(Seq<char>) -> bool, i: int)
    requires
        0 <= i <= s.len(),
        forall|j: int| i <= j < s.len() ==> !pred(#[trigger] s[j]),
        i > 0 ==> pred(s[i - 1]),
    ensures
        i == 0 ==> s.filter(pred).len() == 0,
        i > 0 ==> s.filter(pred).len() > 0 && s.filter(pred).last() == s[i - 1],
    decreases s.len(),
{
    reveal(Seq::filter);
    if s.len() > 0 {
        if i == s.len() {
            if i == 0 {
            } else {
                assert(pred(s.last()));
            }
        } else {
            assert(!pred(s.last()));
            lemma_filter_last(s.drop_last(), pred, i);
            if i > 0 {
                assert(s.drop_last()[i - 1] == s[i - 1]);
            }
        }
    }
}

/// The length and first letters of each name a shell goes by, which tell
/// them apart.
proof fn lemma_name_shapes()
    ensures
        "bash"@.len() == 4 && "bash"@[0] == 'b' && "bash"@[1] == 'a',
        "zsh"@.len() == 3 && "zsh"@[0] == 'z' && "zsh"@[1] == 's',
        "fish"@.len() == 4 && "fish"@[0] == 'f' && "fish"@[1] == 'i',
        "powershell"@.len() == 10 && "powershell"@[0] == 'p' && "powershell"@[1] == 'o',
        "pwsh"@.len() == 4 && "pwsh"@[0] == 'p' && "pwsh"@[1] == 'w',
        "ps"@.len() == 2 && "ps"@[0] == 'p' && "ps"@[1] == 's',
{
    assert("bash"@.len() == 4 && "bash"@[0] == 'b' && "bash"@[1] == 'a') by {
        reveal_strlit("bash");
    }
    assert("zsh"@.len() == 3 && "zsh"@[0] == 'z' && "zsh"@[1] == 's') by {
        reveal_strlit("zsh");
    }
    assert("fish"@.len() == 4 && "fish"@[0] == 'f' && "fish"@[1] == 'i') by {
        reveal_strlit("fish");
    }
    assert("powershell"@.len() == 10 && "powershell"@[0] == 'p' && "powershell"@[1] == 'o') by {
        reveal_strlit("powershell");
    }
    assert("pwsh"@.len() == 4 && "pwsh"@[0] == 'p' && "pwsh"@[1] == 'w') by {
        reveal_strlit("pwsh");
    }
    assert("ps"@.len() == 2 && "ps"@[0] == 'p' && "ps"@[1] == 's') by {
        reveal_strlit("ps");
    }
}

/// Every shell's display name reads back as that shell, whatever its case.
pub proof fn law_from_str_round_trips_display_name(s: Shell)
    ensures
        shell_named(lowercased(shell_name(s))) == Some(s),
{
    lemma_name_shapes();
    match s {
        Shell::Bash => reveal_strlit("bash"),
        Shell::Zsh => reveal_strlit("zsh"),
        Shell::Fish => reveal_strlit("fish"),
        Shell::PowerShell => reveal_strlit("powershell"),
    }
    let n = shell_name(s);
    assert(is_ascii_str(n));
    assert(ascii_lower(n) =~= n);
}

/// A lowercase name stands for a shell exactly when it is one of that
/// shell's aliases; so `from_str` finds the shell whose aliases hold the
/// name in lower case, and no other.
pub proof fn law_named_exactly_by_aliases(s: Shell, n: Seq<char>)
    ensures
        shell_named(n) == Some(s) <==> alias_list(s).contains(n),
{
    lemma_name_shapes();
    if alias_list(s).contains(n) {
        let i = choose|i: int| 0 <= i < alias_list(s).len() && alias_list(s)[i] == n;
        assert(n == alias_list(s)[i]);
    }
    if shell_named(n) == Some(s) {
        match s {
            Shell::Bash => assert(alias_list(s)[0] == n),
            Shell::Zsh => assert(alias_list(s)[0] == n),
            Shell::Fish => assert(alias_list(s)[0] == n),
            Shell::PowerShell => {
                if n == "powershell"@ {
                    assert(alias_list(s)[0] == n);
                } else if n == "pwsh"@ {
                    assert(alias_list(s)[1] == n);
                } else {
                    assert(alias_list(s)[2] == n);
                }
            },
        }
    }
}

/// Any ASCII spelling of a shell's display name, in any mix of upper and
/// lower case, reads back as that shell.
pub proof fn law_from_str_ignores_case(s: Shell, spelled: Seq<char>)
    requires
        is_ascii_str(spelled),
        ascii_lower(spelled) == shell_name(s),
    ensures
        shell_named(lowercased(spelled)) == Some(s),
{
    law_from_str_round_trips_display_name(s);
    lemma_name_shapes();
    match s {
        Shell::Bash => reveal_strlit("bash"),
        Shell::Zsh => reveal_strlit("zsh"),
        Shell::Fish => reveal_strlit("fish"),
        Shell::PowerShell => reveal_strlit("powershell"),
    }
    let n = shell_name(s);
    assert(is_ascii_str(n));
    assert(ascii_lower(n) =~= n);
}

/// The integration block with `log` as the run log path.
pub fn generate_script_with(shell: Shell, log: &str) -> (r: String)
    ensures
        r@ == script_for(shell, log@),
{
    let b = match shell {
        Shell::Bash => bash::BODY,
        Shell::Zsh => zsh::BODY,
        Shell::Fish => fish::BODY,
        Shell::PowerShell => powershell::BODY,
    };
    let mut tv = chars_of(START_MARKER);
    tv.push('\n');
    let mut bv = chars_of(b);
    tv.append(&mut bv);
    let pv = chars_of(LOG_PLACEHOLDER);
    let lv = chars_of(log);
    proof {
        reveal_strlit("{LOG}");
    }
    let r = replace_chars(tv.as_slice(), pv.as_slice(), lv.as_slice());
    string_of(r.as_slice())
}

/// The integration block, with this installation's run log path.
pub fn generate_script(shell: Shell) -> (r: String)
    ensures
        exists|log: Seq<char>| r@ == script_for(shell, log),
{
    let log = runs_log_path();
    let r = generate_script_with(shell, log.as_str());
    assert(r@ == script_for(shell, log@));
    r
}

/// Identifies the exact script a config was last offered.
pub fn script_fingerprint(shell: Shell) -> (r: String)
    ensures
        exists|log: Seq<char>| r@ == sha1_hex_of(script_for(shell, log)),
{
    let s = generate_script(shell);
    sha1_hex(s.as_str())
}

/// Whether a config holds a ctrlr block of any version. Every script opens
/// with the same marker, whatever the shell.
pub fn is_installed(shell: Shell, config_content: &str) -> (r: bool)
    ensures
        r == contains(config_content@, START_MARKER@),
{
    str_contains(config_content, START_MARKER)
}

/// Whether a config holds exactly the block for `log`.
pub fn is_up_to_date_with(shell: Shell, config_content: &str, log: &str) -> (r: bool)
    ensures
        r == contains(config_content@, script_for(shell, log@)),
        r ==> contains(config_content@, START_MARKER@),
{
    let s = generate_script_with(shell, log);
    proof {
        law_up_to_date_implies_installed(shell, log@, config_content@);
    }
    str_contains(config_content, s.as_str())
}

/// Whether a config holds exactly the block this installation writes.
pub fn is_up_to_date(shell: Shell, config_content: &str) -> (r: bool)
    ensures
        exists|log: Seq<char>| r == contains(config_content@, script_for(shell, log)),
        r ==> contains(config_content@, START_MARKER@),
{
    let s = generate_script(shell);
    let r = str_contains(config_content, s.as_str());
    proof {
        let log = choose|log: Seq<char>| s@ == script_for(shell, log);
        law_up_to_date_implies_installed(shell, log, config_content@);
    }
    r
}

/// Replacing in text whose head holds no first character of the pattern
/// leaves that head as it was.
proof fn lemma_replace_keeps_head(a: Seq<char>, b: Seq<char>, pat: Seq<char>, rep: Seq<char>)
    requires
        pat.len() > 0,
        forall|i: int| 0 <= i < a.len() ==> a[i] != pat[0],
    ensures
        replace_all(a + b, pat, rep) == a + replace_all(b, pat, rep),
    decreases a.len(),
{
    if a.len() > 0 {
        let s = a + b;
        assert(s[0] == a[0]);
        assert(!starts_with(s, pat)) by {
            if starts_with(s, pat) {
                assert(s.subrange(0, pat.len() as int)[0] == pat[0]);
            }
        }
        assert(s.drop_first() =~= a.drop_first() + b);
        lemma_replace_keeps_head(a.drop_first(), b, pat, rep);
        assert(seq![a[0]] + (a.drop_first() + replace_all(b, pat, rep)) =~= a + replace_all(b, pat, rep));
    } else {
        assert(a + b =~= b);
        assert(a + replace_all(b, pat, rep) =~= replace_all(b, pat, rep));
    }
}

/// Occurrence is transitive: what occurs in a part of a text occurs in it.
proof fn lemma_contains_within(text: Seq<char>, part: Seq<char>, pat: Seq<char>)
    requires
        contains(text, part),
        contains(part, pat),
    ensures
        contains(text, pat),
{
    let i = choose|i: int| match_at(text, part, i);
    let j = choose|j: int| match_at(part, pat, j);
    assert(text.subrange(i + j, i + j + pat.len()) =~= part.subrange(j, j + pat.len()));
    assert(match_at(text, pat, i + j));
}

/// Every integration block opens with the marker, whatever the shell and the
/// run log path; so a config that holds the current block also counts as one
/// with ctrlr installed.
pub proof fn law_up_to_date_implies_installed(shell: Shell, log: Seq<char>, content: Seq<char>)
    ensures
        starts_with(script_for(shell, log), START_MARKER@),
        contains(content, script_for(shell, log)) ==> contains(content, START_MARKER@),
{
    reveal_strlit("# ctrlr integration");
    reveal_strlit("{LOG}");
    let head = START_MARKER@.push('\n');
    assert forall|i: int| 0 <= i < head.len() implies head[i] != LOG_PLACEHOLDER@[0] by {}
    lemma_replace_keeps_head(head, body(shell), LOG_PLACEHOLDER@, log);
    let sc = script_for(shell, log);
    assert(sc == head + replace_all(body(shell), LOG_PLACEHOLDER@, log));
    assert(sc.subrange(0, START_MARKER@.len() as int) =~= START_MARKER@);
    assert(match_at(sc, START_MARKER@, 0));
    if contains(content, sc) {
        lemma_contains_within(content, sc, START_MARKER@);
    }
}

/// What the shell config currently holds, from ctrlr's side.
#[derive(Debug, Clone, Copy, PartialEq, Eq, Structural)]
pub enum IntegrationState {
    Missing,
    Outdated,
    Current,
}

pub open spec fn integration_state_spec(content: Seq<char>, log: Seq<char>, shell: Shell) -> IntegrationState {
    if !contains(content, START_MARKER@) {
        IntegrationState::Missing
    } else if !contains(content, script_for(shell, log)) {
        IntegrationState::Outdated
    } else {
        IntegrationState::Current
    }
}

/// The state of a config for a shell writing its runs to `log`.
pub fn integration_state_with(shell: Shell, config_content: &str, log: &str) -> (r: IntegrationState)
    ensures
        r == integration_state_spec(config_content@, log@, shell),
{
    if !is_installed(shell, config_content) {
        IntegrationState::Missing
    } else if !is_up_to_date_with(shell, config_content, log) {
        IntegrationState::Outdated
    } else {
        IntegrationState::Current
    }
}

/// The state of a config for this installation.
pub fn integration_state(shell: Shell, config_content: &str) -> (r: IntegrationState)
    ensures
        exists|log: Seq<char>| r == integration_state_spec(config_content@, log, shell),
{
    let log = runs_log_path();
    integration_state_with(shell, config_content, log.as_str())
}

/// The shell to load history for when none could be told apart: PowerShell
/// on Windows, bash elsewhere.
pub fn detect_or_default(detected: Option<Shell>, windows: bool) -> (r: Shell)
    ensures
        r == match detected {
            Some(s) => s,
            None => if windows {
                Shell::PowerShell
            } else {
                Shell::Bash
            },
        },
{
    match detected {
        Some(s) => s,
        None => if windows {
            Shell::PowerShell
        } else {
            Shell::Bash
        },
    }
}

/// The shell in use and the state of its config, from what detecting the
/// shell and reading its config gave: `None` for an unsupported shell or an
/// unreadable config (`config` is `None`). A config that does not exist yet
/// (`Some(None)`) reads as empty, so it is `Missing`.
pub fn detect_integration_state(shell: Option<Shell>, config: Option<Option<String>>) -> (r: Option<(Shell, IntegrationState)>)
    ensures
        shell is None || config is None ==> r is None,
        shell is Some && config is Some ==> r is Some && (r->0).0 == shell->0 && exists|log: Seq<char>|
            (r->0).1 == integration_state_spec(config_text(config->0), log, shell->0),
{
    let sh = match shell {
        Some(s) => s,
        None => return None,
    };
    let ghost cfg = config->0;
    let content = match config {
        Some(c) => c,
        None => return None,
    };
    let text = match content {
        Some(c) => c,
        None => String::new(),
    };
    assert(text@ == config_text(cfg));
    let st = integration_state(sh, text.as_str());
    Some((sh, st))
}

/// The text of a config as read: empty when there is no file yet.
pub open spec fn config_text(c: Option<String>) -> Seq<char> {
    match c {
        Some(s) => s@,
        None => Seq::empty(),
    }
}

/// The command that replaces the running shell with a fresh one, so a
/// just-installed integration takes effect.
pub fn reload_command(shell: Shell) -> (r: &'static str)
    ensures
        match shell {
            Shell::PowerShell => r@ == ". $PROFILE"@,
            _ => r@ == "exec "@ + shell_name(shell),
        },
{
    proof {
        reveal_strlit("exec ");
    }
    match shell {
        Shell::Bash => {
            assert("exec bash"@ =~= "exec "@ + "bash"@) by {
                reveal_strlit("exec bash");
                reveal_strlit("bash");
            }
            "exec bash"
        },
        Shell::Zsh => {
            assert("exec zsh"@ =~= "exec "@ + "zsh"@) by {
                reveal_strlit("exec zsh");
                reveal_strlit("zsh");
            }
            "exec zsh"
        },
        Shell::Fish => {
            assert("exec fish"@ =~= "exec "@ + "fish"@) by {
                reveal_strlit("exec fish");
                reveal_strlit("fish");
            }
            "exec fish"
        },
        Shell::PowerShell => ". $PROFILE",
    }
}

/// One `  - name` line per shell, for "Supported:" lists.
pub fn supported_list() -> (r: String)
    ensures
        r@ == "  - "@ + shell_name(Shell::Bash) + "\n"@ + "  - "@ + shell_name(Shell::Zsh) + "\n"@
            + "  - "@ + shell_name(Shell::Fish) + "\n"@ + "  - "@ + shell_name(Shell::PowerShell),
{
    let mut r = String::new();
    push_str(&mut r, "  - ");
    push_str(&mut r, Shell::Bash.display_name());
    push_str(&mut r, "\n");
    push_str(&mut r, "  - ");
    push_str(&mut r, Shell::Zsh.display_name());
    push_str(&mut r, "\n");
    push_str(&mut r, "  - ");
    push_str(&mut r, Shell::Fish.display_name());
    push_str(&mut r, "\n");
    push_str(&mut r, "  - ");
    push_str(&mut r, Shell::PowerShell.display_name());
    r
}

} // verus!
