//! The answer to a copy request. The copying itself talks to the system and
//! happens outside the library.
use vstd::prelude::*;
use crate::text::owned;

verus! {

/// What the status line says when no clipboard could be reached.
pub open spec fn clipboard_failure(linux: bool) -> Seq<char> {
    if linux {
        "\u{26a0} Clipboard tool not found (install xclip or wl-copy)"@
    } else {
        "\u{26a0} Failed to access clipboard"@
    }
}

/// Whether the copy worked, and if not what to tell the user: on Linux the
/// message names the tools that would have done it.
pub fn clipboard_outcome(copied: bool, linux: bool) -> (r: (bool, Option<String>))
    ensures
        r.0 == copied,
        copied ==> r.1 is None,
        !copied ==> (r.1 matches Some(m) && m@ == clipboard_failure(linux)),
{
    if copied {
        (true, None)
    } else if linux {
        (false, Some(owned("\u{26a0} Clipboard tool not found (install xclip or wl-copy)")))
    } else {
        (false, Some(owned("\u{26a0} Failed to access clipboard")))
    }
}

} // verus!
