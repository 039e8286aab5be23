//! The fish integration: `--on-event` handlers and a `Ctrl+R` binding.
use vstd::prelude::*;
use crate::shells::{Shell, generate_script, is_installed as installed_in, is_up_to_date as current_in, script_for};
use crate::text::contains;

verus! {

/// The integration block after its opening marker line; `{LOG}` is
/// substituted with the run log path at generation time.
pub const BODY: &'static str = r#"set -g _ctrlr_log '{LOG}'
set -g _ctrlr_cwd ''
set -g _ctrlr_cmd ''

if not test -d (dirname $_ctrlr_log)
    mkdir -p (dirname $_ctrlr_log) 2>/dev/null
end
if not test -e $_ctrlr_log
    begin
        umask 077
        touch $_ctrlr_log 2>/dev/null
    end
end

# $PWD here is where the command was typed; fish_postexec runs after a `cd`.
function _ctrlr_preexec --on-event fish_preexec
    set -g _ctrlr_cwd $PWD
    set -g _ctrlr_cmd $argv[1]
end

function _ctrlr_postexec --on-event fish_postexec
    set -l ret $status
    test -n "$_ctrlr_cmd"; or return
    set -l cmd (string replace -a -- \\ \\\\ $_ctrlr_cmd \
        | string replace -a -- \t '\t' \
        | string replace -a -- \r '\r' \
        | string split \n | string join '\n' \
        | string sub -l 4000)
    printf 'v1\t%s\t%s\t%s\t%s\t%s\n' (date +%s) $ret $hostname $_ctrlr_cwd $cmd \
        >> $_ctrlr_log 2>/dev/null
    set -g _ctrlr_cmd ''
end

function _ctrlr_widget
    set -l tmpfile (mktemp)
    ctrlr --output-file $tmpfile
    if test -s $tmpfile
        commandline --replace (cat $tmpfile)
    end
    rm -f $tmpfile
end
bind \cr _ctrlr_widget
# ctrlr integration end
"#;

/// The integration block for this shell, with the run log path filled in.
pub fn generate() -> (r: String)
    ensures
        exists|log: Seq<char>| r@ == script_for(Shell::Fish, log),
{
    generate_script(Shell::Fish)
}

/// Whether a config already holds a ctrlr block of any version.
pub fn is_installed(config_content: &str) -> (r: bool)
    ensures
        r == contains(config_content@, crate::shells::START_MARKER@),
{
    installed_in(Shell::Fish, config_content)
}

/// Whether a config holds exactly the block this version writes.
pub fn is_up_to_date(config_content: &str) -> (r: bool)
    ensures
        exists|log: Seq<char>| r == contains(config_content@, script_for(Shell::Fish, log)),
{
    current_in(Shell::Fish, config_content)
}

} // verus!
