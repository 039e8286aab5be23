//! The command line: which subcommand and flags were given, and the help
//! texts. Acting on them is the application's side.
use vstd::prelude::*;
use crate::shells::{Shell, shell_name, shell_named, supported_list};
use crate::text::{lowercased, owned, push_str, starts_with, str_eq, str_starts_with, views};

verus! {

/// The version this library reports.
pub const VERSION: &'static str = "0.8.0";

/// `ctrlr <version>`, answered before anything can reach the TUI.
pub fn version_line() -> (r: String)
    ensures
        r@ == "ctrlr "@ + VERSION@,
{
    let mut r = owned("ctrlr ");
    push_str(&mut r, VERSION);
    r
}

pub open spec fn is_flag(a: Seq<char>) -> bool {
    starts_with(a, "-"@)
}

/// The subcommand, if there is one: the first argument after the program
/// name, unless it is a flag.
pub fn subcommand(args: &[String]) -> (r: Option<&str>)
    ensures
        match r {
            Some(s) => args@.len() > 1 && !is_flag(args@[1]@) && s@ == args@[1]@,
            None => args@.len() <= 1 || is_flag(args@[1]@),
        },
{
    if args.len() > 1 && !str_starts_with(args[1].as_str(), "-") {
        Some(args[1].as_str())
    } else {
        None
    }
}

/// The first index holding `a` or `b`.
pub open spec fn first_of(args: Seq<Seq<char>>, a: Seq<char>, b: Seq<char>) -> Option<int> {
    if exists|i: int| 0 <= i < args.len() && (args[i] == a || args[i] == b) {
        Some(
            choose|i: int|
                0 <= i < args.len() && (args[i] == a || args[i] == b) && forall|j: int|
                    0 <= j < i ==> args[j] != a && args[j] != b,
        )
    } else {
        None
    }
}

/// Index of the first argument equal to `a` or to `b`.
pub fn position(args: &[String], a: &str, b: &str) -> (r: Option<usize>)
    ensures
        match r {
            Some(i) => i < args@.len() && first_of(views(args@), a@, b@) == Some(i as int),
            None => first_of(views(args@), a@, b@) is None,
        },
{
    let ghost v = views(args@);
    let mut i: usize = 0;
    while i < args.len()
        invariant
            i <= args@.len(),
            v == views(args@),
            forall|j: int| 0 <= j < i ==> v[j] != a@ && v[j] != b@,
        decreases args.len() - i,
    {
        if str_eq(args[i].as_str(), a) || str_eq(args[i].as_str(), b) {
            proof {
                let k = choose|k: int|
                    0 <= k < v.len() && (v[k] == a@ || v[k] == b@) && forall|j: int|
                        0 <= j < k ==> v[j] != a@ && v[j] != b@;
                assert(0 <= i < v.len() && (v[i as int] == a@ || v[i as int] == b@) && forall|j: int|
                    0 <= j < i ==> v[j] != a@ && v[j] != b@);
                if k < i {
                } else if k > i {
                }
                assert(k == i);
            }
            return Some(i);
        }
        i += 1;
    }
    None
}

/// `--shell` with no name, or a name ctrlr does not know. Both are kept apart
/// from "not given", which means auto-detect.
#[derive(Debug, PartialEq, Eq)]
pub enum ShellFlagError {
    Missing,
    Unknown(String),
}

impl ShellFlagError {
    /// What `ctrlr init` prints for the error, with the supported shells.
    pub fn message(&self) -> (r: String)
        ensures
            r@ == (match self {
                ShellFlagError::Missing => "Error: --shell needs a shell name"@,
                ShellFlagError::Unknown(name) => "Error: unknown shell: "@ + name@,
            }) + "\n\nSupported:\n"@ + supported_list_spec(),
    {
        let mut r = match self {
            ShellFlagError::Missing => owned("Error: --shell needs a shell name"),
            ShellFlagError::Unknown(name) => {
                let mut m = owned("Error: unknown shell: ");
                push_str(&mut m, name.as_str());
                m
            },
        };
        push_str(&mut r, "\n\nSupported:\n");
        let l = supported_list();
        push_str(&mut r, l.as_str());
        r
    }
}

pub open spec fn supported_list_spec() -> Seq<char> {
    "  - "@ + shell_name(Shell::Bash) + "\n"@ + "  - "@ + shell_name(Shell::Zsh) + "\n"@ + "  - "@
        + shell_name(Shell::Fish) + "\n"@ + "  - "@ + shell_name(Shell::PowerShell)
}

/// `--shell NAME`: absent is `Ok(None)`, a known name `Ok(Some)`, no name
/// `Missing`, an unknown one `Unknown`.
pub fn get_shell_flag(args: &[String]) -> (r: Result<Option<Shell>, ShellFlagError>)
    ensures
        ({
            let v = views(args@);
            match first_of(v, "--shell"@, "--shell"@) {
                None => r == Ok::<Option<Shell>, ShellFlagError>(None),
                Some(i) => if i + 1 >= v.len() {
                    r == Err::<Option<Shell>, ShellFlagError>(ShellFlagError::Missing)
                } else {
                    match shell_named(lowercased(v[i + 1])) {
                        Some(s) => r == Ok::<Option<Shell>, ShellFlagError>(Some(s)),
                        None => r matches Err(ShellFlagError::Unknown(n)) && n@ == v[i + 1],
                    }
                },
            }
        }),
{
    let i = match position(args, "--shell", "--shell") {
        None => return Ok(None),
        Some(i) => i,
    };
    if i >= args.len() - 1 {
        return Err(ShellFlagError::Missing);
    }
    let name = args[i + 1].as_str();
    match Shell::from_str(name) {
        Some(s) => Ok(Some(s)),
        None => Err(ShellFlagError::Unknown(owned(name))),
    }
}

/// The argument after `--output-file` or `-o`, if both are there.
pub fn get_output_file_flag(args: &[String]) -> (r: Option<String>)
    ensures
        ({
            let v = views(args@);
            match first_of(v, "--output-file"@, "-o"@) {
                Some(i) if i + 1 < v.len() => r matches Some(s) && s@ == v[i + 1],
                _ => r is None,
            }
        }),
{
    match position(args, "--output-file", "-o") {
        Some(i) => if i < args.len() - 1 {
            Some(owned(args[i + 1].as_str()))
        } else {
            None
        },
        None => None,
    }
}

/// The second argument after the program name, unless it is a flag.
pub open spec fn path_arg(v: Seq<Seq<char>>) -> Option<Seq<char>> {
    if v.len() > 2 && !is_flag(v[2]) {
        Some(v[2])
    } else {
        None
    }
}

fn path_argument(args: &[String]) -> (r: Option<String>)
    ensures
        match path_arg(views(args@)) {
            Some(p) => r matches Some(s) && s@ == p,
            None => r is None,
        },
{
    if args.len() > 2 && !str_starts_with(args[2].as_str(), "-") {
        Some(owned(args[2].as_str()))
    } else {
        None
    }
}

/// `ctrlr export [FILE]`: the file, if one was given.
pub fn get_export_output_path(args: &[String]) -> (r: Option<String>)
    ensures
        match path_arg(views(args@)) {
            Some(p) => r matches Some(s) && s@ == p,
            None => r is None,
        },
{
    path_argument(args)
}

/// `ctrlr import FILE`: the file, if one was given.
pub fn get_import_input_path(args: &[String]) -> (r: Option<String>)
    ensures
        match path_arg(views(args@)) {
            Some(p) => r matches Some(s) && s@ == p,
            None => r is None,
        },
{
    path_argument(args)
}

pub const HELP_TEXT: &'static str = "\
ctrlr - Command history picker

Usage: ctrlr [COMMAND]

Commands:
  init              Add shell integration
  config            Print the config file path (--print dumps the defaults)
  export [FILE]     Export data to JSON (stdout if no file)
  import FILE       Import data from JSON

Options:
  --help, -h        Show this help
  --version, -V     Show the version
  --output-file, -o Write the selected command to this file. The shell
                    integration sets it; without it nothing is printed.

Examples:
  ctrlr             Open the TUI
  ctrlr init        Add shell integration (Ctrl+R)
  ctrlr init --print   Print integration script
  ctrlr config --print > ~/.config/ctrlr/config.toml   Customise keybindings
  ctrlr --output-file /tmp/cmd  Write output to file
  ctrlr export      Export all data to stdout
  ctrlr export backup.json  Export to file
  ctrlr import backup.json  Import (merge mode)
  ctrlr import backup.json --dry-run  Preview import
  ctrlr import backup.json --replace  Replace all data
";

pub const INIT_HELP_HEAD: &'static str = "\
ctrlr init - Add shell integration

Usage: ctrlr init [OPTIONS]

Options:
  --shell <SHELL>   Force a specific shell (";

pub const INIT_HELP_TAIL: &'static str = ")
  --print           Only print the integration script, don't install
  --help, -h        Show this help
";

pub const CONFIG_HELP_TEXT: &'static str = "\
ctrlr config - Show the config file path

Usage: ctrlr config [OPTIONS]

Options:
  --print           Dump the default keymap as TOML instead of the path
  --help, -h        Show this help

Examples:
  ctrlr config      Print where the config file is read from
  ctrlr config --print > ~/.config/ctrlr/config.toml   Start from the defaults
";

pub const EXPORT_HELP_TEXT: &'static str = "\
ctrlr export - Export data to JSON

Usage: ctrlr export [FILE]

Without a file the JSON goes to stdout.

Options:
  --help, -h        Show this help

Examples:
  ctrlr export      Export all data to stdout
  ctrlr export backup.json  Export to file
";

pub const IMPORT_HELP_TEXT: &'static str = "\
ctrlr import - Import data from JSON

Usage: ctrlr import FILE [OPTIONS]

Options:
  --merge           Merge with existing data (default)
  --replace         Replace all existing data
  --dry-run         Preview changes without applying
  --help, -h        Show this help
";

pub open spec fn shell_names_joined() -> Seq<char> {
    shell_name(Shell::Bash) + ", "@ + shell_name(Shell::Zsh) + ", "@ + shell_name(Shell::Fish)
        + ", "@ + shell_name(Shell::PowerShell)
}

pub open spec fn init_help_spec() -> Seq<char> {
    INIT_HELP_HEAD@ + shell_names_joined() + INIT_HELP_TAIL@
}

pub fn help_text() -> (r: String)
    ensures
        r@ == HELP_TEXT@,
{
    owned(HELP_TEXT)
}

/// The help for `ctrlr init`, listing every shell `--shell` accepts.
pub fn init_help_text() -> (r: String)
    ensures
        r@ == init_help_spec(),
{
    let mut r = owned(INIT_HELP_HEAD);
    push_str(&mut r, Shell::Bash.display_name());
    push_str(&mut r, ", ");
    push_str(&mut r, Shell::Zsh.display_name());
    push_str(&mut r, ", ");
    push_str(&mut r, Shell::Fish.display_name());
    push_str(&mut r, ", ");
    push_str(&mut r, Shell::PowerShell.display_name());
    push_str(&mut r, INIT_HELP_TAIL);
    r
}

pub fn config_help_text() -> (r: String)
    ensures
        r@ == CONFIG_HELP_TEXT@,
{
    owned(CONFIG_HELP_TEXT)
}

pub fn export_help_text() -> (r: String)
    ensures
        r@ == EXPORT_HELP_TEXT@,
{
    owned(EXPORT_HELP_TEXT)
}

pub fn import_help_text() -> (r: String)
    ensures
        r@ == IMPORT_HELP_TEXT@,
{
    owned(IMPORT_HELP_TEXT)
}

pub open spec fn help_for(sub: Option<Seq<char>>) -> Seq<char> {
    match sub {
        Some(s) => if s == "init"@ {
            init_help_spec()
        } else if s == "config"@ {
            CONFIG_HELP_TEXT@
        } else if s == "export"@ {
            EXPORT_HELP_TEXT@
        } else if s == "import"@ {
            IMPORT_HELP_TEXT@
        } else {
            HELP_TEXT@
        },
        None => HELP_TEXT@,
    }
}

/// The help that follows the subcommand: `ctrlr init --help` answers with
/// the init help, anything unknown with the general one.
pub fn help_text_for(subcommand: Option<&str>) -> (r: String)
    ensures
        r@ == help_for(
            match subcommand {
                Some(s) => Some(s@),
                None => None,
            },
        ),
{
    match subcommand {
        Some(s) => if str_eq(s, "init") {
            init_help_text()
        } else if str_eq(s, "config") {
            config_help_text()
        } else if str_eq(s, "export") {
            export_help_text()
        } else if str_eq(s, "import") {
            import_help_text()
        } else {
            help_text()
        },
        None => help_text(),
    }
}

} // verus!
