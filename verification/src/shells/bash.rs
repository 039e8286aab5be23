//! The bash integration: a `PROMPT_COMMAND` hook, bash-preexec when present, and
//! a `Ctrl+R` widget.
use vstd::prelude::*;
use crate::shells::{Shell, generate_script, is_installed as installed_in, is_up_to_date as current_in, script_for};
use crate::text::contains;

verus! {

/// The integration block after its opening marker line; `{LOG}` is
/// substituted with the run log path at generation time.
pub const BODY: &'static str = r#"_ctrlr_log='{LOG}'
[ -d "${_ctrlr_log%/*}" ] || mkdir -p "${_ctrlr_log%/*}" 2>/dev/null
[ -e "$_ctrlr_log" ] || ( umask 077; : >> "$_ctrlr_log" ) 2>/dev/null
_ctrlr_cwd=
_ctrlr_cmd=
_ctrlr_mode=
_ctrlr_last_hist=

# Assigns rather than prints: capturing output would fork. EPOCHSECONDS needs
# bash 5, printf %()T needs 4.2, and macOS still ships 3.2.
if [ -n "${EPOCHSECONDS+x}" ]; then
    _ctrlr_now() { _ctrlr_ts=$EPOCHSECONDS; }
elif printf -v _ctrlr_ts '%(%s)T' -1 2>/dev/null; then
    _ctrlr_now() { printf -v _ctrlr_ts '%(%s)T' -1; }
else
    _ctrlr_now() { _ctrlr_ts=$(date +%s); }
fi

# Escapes in place rather than through a helper: a command substitution here
# would fork on every prompt.
_ctrlr_write() {
    local ret=$1 cwd=$2 cmd=$3
    cmd=${cmd//\\/\\\\}
    cmd=${cmd//$'\n'/\\n}
    cmd=${cmd//$'\t'/\\t}
    cmd=${cmd//$'\r'/\\r}
    _ctrlr_now
    printf 'v1\t%s\t%s\t%s\t%s\t%s\n' \
        "$_ctrlr_ts" "$ret" "$HOSTNAME" "$cwd" "${cmd:0:4000}" \
        >> "$_ctrlr_log" 2>/dev/null
}

_ctrlr_preexec() {
    _ctrlr_cwd=$PWD
    _ctrlr_cmd=$1
}

_ctrlr_precmd() {
    local ret=$?
    [ -n "$_ctrlr_cmd" ] || return
    _ctrlr_write "$ret" "$_ctrlr_cwd" "$_ctrlr_cmd"
    _ctrlr_cmd=
}

_ctrlr_prompt() {
    local ret=$?

    # Deferred to the first prompt, not source time: bash-preexec may be loaded
    # by a line further down .bashrc than ctrlr's.
    if [ -z "$_ctrlr_mode" ]; then
        # declare -p rather than a set-test on the name: that expands element 0
        # and so reports an existing but empty array as unset.
        if declare -p preexec_functions >/dev/null 2>&1; then
            preexec_functions+=(_ctrlr_preexec)
            precmd_functions+=(_ctrlr_precmd)
            _ctrlr_mode=preexec
        else
            _ctrlr_mode=prompt
        fi
    fi

    if [ "$_ctrlr_mode" = prompt ]; then
        local line
        line=$(HISTTIMEFORMAT= history 1)
        if [[ $line =~ ^[[:space:]]*([0-9]+)[[:space:]]+(.*)$ ]]; then
            local n=${BASH_REMATCH[1]} cmd=${BASH_REMATCH[2]}
            # A bare Enter re-reports the previous entry; the index tells them
            # apart.
            if [ "$n" != "$_ctrlr_last_hist" ]; then
                _ctrlr_last_hist=$n
                _ctrlr_write "$ret" "$PWD" "$cmd"
            fi
        fi
    fi

    history -a
}

# Not exported: an exported PROMPT_COMMAND is inherited by child shells, which
# installs the hook a second time in every subshell.
PROMPT_COMMAND="_ctrlr_prompt${PROMPT_COMMAND:+; $PROMPT_COMMAND}"

_ctrlr_widget() {
    local tmpfile=$(mktemp)
    ctrlr --output-file "$tmpfile"
    if [[ -s "$tmpfile" ]]; then
        READLINE_LINE=$(cat "$tmpfile")
        READLINE_POINT=${#READLINE_LINE}
    fi
    rm -f "$tmpfile"
}
bind -x '"\C-r": _ctrlr_widget'
# ctrlr integration end
"#;

/// The integration block for this shell, with the run log path filled in.
pub fn generate() -> (r: String)
    ensures
        exists|log: Seq<char>| r@ == script_for(Shell::Bash, log),
{
    generate_script(Shell::Bash)
}

/// Whether a config already holds a ctrlr block of any version.
pub fn is_installed(config_content: &str) -> (r: bool)
    ensures
        r == contains(config_content@, crate::shells::START_MARKER@),
{
    installed_in(Shell::Bash, config_content)
}

/// Whether a config holds exactly the block this version writes.
pub fn is_up_to_date(config_content: &str) -> (r: bool)
    ensures
        exists|log: Seq<char>| r == contains(config_content@, script_for(Shell::Bash, log)),
{
    current_in(Shell::Bash, config_content)
}

} // verus!
