//! The zsh integration: `add-zsh-hook` preexec/precmd hooks and a `Ctrl+R`
//! widget.
use vstd::prelude::*;
use crate::shells::{Shell, generate_script, is_installed as installed_in, is_up_to_date as current_in, script_for};
use crate::text::contains;

verus! {

/// The integration block after its opening marker line; `{LOG}` is
/// substituted with the run log path at generation time.
pub const BODY: &'static str = r#"autoload -Uz add-zsh-hook
zmodload -i zsh/datetime

typeset -g _CTRLR_LOG='{LOG}'
typeset -g _CTRLR_CWD=
typeset -g _CTRLR_CMD=

[[ -d ${_CTRLR_LOG:h} ]] || mkdir -p ${_CTRLR_LOG:h} 2>/dev/null
[[ -e $_CTRLR_LOG ]] || ( umask 077; : >> $_CTRLR_LOG ) 2>/dev/null

# $PWD here is where the command was typed; by precmd a `cd` has already moved.
_ctrlr_preexec() {
    _CTRLR_CWD=$PWD
    _CTRLR_CMD=$1
}

_ctrlr_precmd() {
    local ret=$?
    [[ -n $_CTRLR_CMD ]] || return
    local t=$'\t'
    local cmd=${_CTRLR_CMD//\\/\\\\}
    cmd=${cmd//$'\n'/\\n}
    cmd=${cmd//$'\t'/\\t}
    cmd=${cmd//$'\r'/\\r}
    print -r -- "v1$t$EPOCHSECONDS$t$ret$t$HOST$t$_CTRLR_CWD$t${cmd[1,4000]}" >> $_CTRLR_LOG 2>/dev/null
    _CTRLR_CMD=
}

_flush_zsh_history() { fc -W }

add-zsh-hook preexec _ctrlr_preexec
add-zsh-hook precmd _flush_zsh_history
# Prepended rather than appended: $? in a precmd hook is whatever the previous
# hook returned, so this has to run before any other tool's.
precmd_functions=(_ctrlr_precmd ${precmd_functions:#_ctrlr_precmd})

_ctrlr_widget() {
    local tmpfile=$(mktemp)
    ctrlr --output-file "$tmpfile"
    if [[ -s "$tmpfile" ]]; then
        BUFFER=$(cat "$tmpfile")
        CURSOR=$#BUFFER
    fi
    rm -f "$tmpfile"
}
zle -N _ctrlr_widget
bindkey '^R' _ctrlr_widget
# ctrlr integration end
"#;

/// The integration block for this shell, with the run log path filled in.
pub fn generate() -> (r: String)
    ensures
        exists|log: Seq<char>| r@ == script_for(Shell::Zsh, log),
{
    generate_script(Shell::Zsh)
}

/// Whether a config already holds a ctrlr block of any version.
pub fn is_installed(config_content: &str) -> (r: bool)
    ensures
        r == contains(config_content@, crate::shells::START_MARKER@),
{
    installed_in(Shell::Zsh, config_content)
}

/// Whether a config holds exactly the block this version writes.
pub fn is_up_to_date(config_content: &str) -> (r: bool)
    ensures
        exists|log: Seq<char>| r == contains(config_content@, script_for(Shell::Zsh, log)),
{
    current_in(Shell::Zsh, config_content)
}

} // verus!
