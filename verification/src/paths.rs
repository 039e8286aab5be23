//! Where ctrlr keeps its files, built from the platform directories.
use vstd::prelude::*;
use crate::text::{chars_of, owned, push_str};

verus! {

/// `dirs::data_dir`, as text.
///
/// Calls `dirs::data_dir` and converts the path lossily; the answer depends on
/// the environment, so nothing is promised about it.
#[verifier::external_body]
fn data_dir() -> (r: Option<String>) {
    dirs::data_dir().map(|p| p.to_string_lossy().into_owned())
}

/// `dirs::config_dir`, as text.
///
/// Calls `dirs::config_dir` and converts the path lossily; the answer depends
/// on the environment, so nothing is promised about it.
#[verifier::external_body]
fn config_dir() -> (r: Option<String>) {
    dirs::config_dir().map(|p| p.to_string_lossy().into_owned())
}

/// `dirs::home_dir`, as text.
///
/// Calls `dirs::home_dir` and converts the path lossily; the answer depends on
/// the environment, so nothing is promised about it.
#[verifier::external_body]
pub(crate) fn home_dir() -> (r: Option<String>) {
    dirs::home_dir().map(|p| p.to_string_lossy().into_owned())
}

/// `Path::join` on unix for a relative component: a separator is added unless
/// the base already ends with one.
pub open spec fn join_spec(base: Seq<char>, part: Seq<char>) -> Seq<char> {
    if base.len() > 0 && base.last() == '/' {
        base + part
    } else {
        base + seq!['/'] + part
    }
}

pub fn join(base: &str, part: &str) -> (r: String)
    ensures
        r@ == join_spec(base@, part@),
{
    let b = chars_of(base);
    let mut r = owned(base);
    if !(b.len() > 0 && b[b.len() - 1] == '/') {
        crate::text::push_char(&mut r, '/');
    }
    push_str(&mut r, part);
    r
}

/// The run log inside ctrlr's data directory.
pub open spec fn runs_log_in(data: Seq<char>) -> Seq<char> {
    join_spec(join_spec(data, "ctrlr"@), "runs.log"@)
}

/// `<data dir>/ctrlr/runs.log`, or `./ctrlr/runs.log` without a data
/// directory.
pub fn runs_log_path() -> (r: String)
    ensures
        exists|data: Seq<char>| r@ == runs_log_in(data),
{
    let base = match data_dir() {
        Some(d) => d,
        None => owned("."),
    };
    let dir = join(base.as_str(), "ctrlr");
    let r = join(dir.as_str(), "runs.log");
    assert(r@ == runs_log_in(base@));
    r
}

/// The config file inside a config directory.
pub open spec fn config_file_in(config: Seq<char>) -> Seq<char> {
    join_spec(join_spec(config, "ctrlr"@), "config.toml"@)
}

/// `<config>/ctrlr/config.toml` for the config directory `config`, if there
/// is one.
pub fn config_path_in(config: Option<&str>) -> (r: Option<String>)
    ensures
        match config {
            Some(d) => r is Some && (r->0)@ == config_file_in(d@),
            None => r is None,
        },
{
    match config {
        Some(d) => {
            let dir = join(d, "ctrlr");
            let p = join(dir.as_str(), "config.toml");
            Some(p)
        },
        None => None,
    }
}

/// `<config dir>/ctrlr/config.toml`, when the platform has a config
/// directory. Whether it has one is the environment's to say.
pub fn config_path() -> (r: Option<String>)
    ensures
        r matches Some(p) ==> exists|config: Seq<char>| p@ == config_file_in(config),
{
    let dir = config_dir();
    let r = match &dir {
        Some(d) => config_path_in(Some(d.as_str())),
        None => config_path_in(None),
    };
    proof {
        if let Some(d) = dir {
            assert((r->0)@ == config_file_in(d@));
        }
    }
    r
}

/// The backup a rewrite leaves next to a file: `.ctrlr.bak` appended rather
/// than substituted, so `~/.bashrc` becomes `~/.bashrc.ctrlr.bak` rather than
/// `~/.bak`.
pub fn backup_path(path: &str) -> (r: String)
    ensures
        r@ == path@ + ".ctrlr.bak"@,
{
    let mut r = owned(path);
    push_str(&mut r, ".ctrlr.bak");
    r
}

} // verus!
