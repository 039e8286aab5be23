//! Identities: the canonical form of a command and the SHA-1 ids derived from
//! it.
use vstd::prelude::*;
use sha1::Digest;
use crate::text::{ascii_lower, is_ascii_str, is_ws, lead_ws, lemma_lead_ws_bound, lemma_trail_ws_bound, trail_ws, trim, trim_end, trim_start, trim_str, to_lowercase, lowercased};

verus! {

/// What `sha1_hex` returns for a text: the lowercase hex SHA-1 digest of its
/// UTF-8 bytes.
pub uninterp spec fn sha1_hex_of(s: Seq<char>) -> Seq<char>;

pub open spec fn is_lower_hex(c: char) -> bool {
    (48 <= (c as u32) && (c as u32) <= 57) || (97 <= (c as u32) && (c as u32) <= 102)
}

/// SHA-1 hex of the raw bytes.
///
/// Calls `sha1::Sha1` over the UTF-8 bytes and formats the 20-byte digest
/// with `{:x}`: forty lowercase hex digits.
#[verifier::external_body]
pub fn sha1_hex(s: &str) -> (r: String)
    ensures
        r@ == sha1_hex_of(s@),
        r@.len() == 40,
        forall|i: int| 0 <= i < r@.len() ==> is_lower_hex(#[trigger] r@[i]),
{
    let mut hasher = <sha1::Sha1 as Digest>::new();
    Digest::update(&mut hasher, s.as_bytes());
    format!("{:x}", Digest::finalize(hasher))
}

/// The canonical form of a command: trimmed, then lowercased.
pub open spec fn normalized(s: Seq<char>) -> Seq<char> {
    lowercased(trim(s))
}

/// Canonical form of a command, for both identity and history dedup.
pub fn normalize(s: &str) -> (r: String)
    ensures
        r@ == normalized(s@),
{
    let t = trim_str(s);
    to_lowercase(t.as_str())
}

/// The id of a command: the SHA-1 of its canonical form.
pub fn hash_command(text: &str) -> (r: String)
    ensures
        r@ == sha1_hex_of(normalized(text@)),
        r@.len() == 40,
        forall|i: int| 0 <= i < r@.len() ==> is_lower_hex(#[trigger] r@[i]),
{
    let n = normalize(text);
    sha1_hex(n.as_str())
}

/// Collection ids hash the raw name, unlike command ids: renaming keeps the
/// old id, so two collections may differ only by case.
pub fn hash_collection_name(name: &str) -> (r: String)
    ensures
        r@ == sha1_hex_of(name@),
        r@.len() == 40,
{
    sha1_hex(name)
}

proof fn lemma_ascii_lower_keeps_ascii(s: Seq<char>)
    requires
        is_ascii_str(s),
    ensures
        is_ascii_str(ascii_lower(s)),
        ascii_lower(ascii_lower(s)) == ascii_lower(s),
{
    assert(ascii_lower(ascii_lower(s)) =~= ascii_lower(s));
}

proof fn lemma_trim_keeps_ascii(s: Seq<char>)
    requires
        is_ascii_str(s),
    ensures
        is_ascii_str(trim(s)),
{
    lemma_lead_ws_bound(s);
    let t = trim_start(s);
    assert forall|i: int| 0 <= i < t.len() implies (#[trigger] t[i] as u32) < 128 by {
        assert(t[i] == s[i + lead_ws(s)]);
    }
    lemma_trail_ws_bound(t);
    let u = trim_end(t);
    assert forall|i: int| 0 <= i < u.len() implies (#[trigger] u[i] as u32) < 128 by {
        assert(u[i] == t[i]);
    }
}

/// A trimmed ASCII text stays trimmed when lowercased: no letter is
/// whitespace, and lowercasing changes only letters.
proof fn lemma_trim_of_lowered_trimmed(t: Seq<char>)
    requires
        is_ascii_str(t),
        trim(t) == t,
    ensures
        trim(ascii_lower(t)) == ascii_lower(t),
{
    let l = ascii_lower(t);
    lemma_lead_ws_bound(t);
    lemma_trail_ws_bound(t);
    lemma_trail_ws_bound(trim_start(t));
    if t.len() > 0 {
        // The first and last characters of `t` are not whitespace.
        if lead_ws(t) > 0 {
            assert(trim_start(t).len() < t.len());
            assert(trim(t).len() < t.len());
        }
        assert(lead_ws(t) == 0);
        assert(trim_start(t) =~= t);
        if trail_ws(t) > 0 {
            assert(trim(t).len() < t.len());
        }
        assert(!is_ws(t[0]));
        assert(!is_ws(t.last()));
        assert(!is_ws(l[0]));
        assert(!is_ws(l.last()));
        assert(lead_ws(l) == 0);
        assert(l.skip(0) =~= l);
        assert(trail_ws(l) == 0);
        assert(l.take(l.len() as int) =~= l);
    } else {
        assert(l =~= t);
    }
}

/// Normalizing twice is normalizing once, for ASCII text.
///
/// Stated for ASCII only: beyond ASCII it would rest on properties of the
/// Unicode lowercase mapping that are not specified here.
pub proof fn law_normalize_idempotent_ascii(s: Seq<char>)
    requires
        is_ascii_str(s),
    ensures
        normalized(normalized(s)) == normalized(s),
{
    lemma_trim_keeps_ascii(s);
    let t = trim(s);
    lemma_trim_idempotent(s);
    lemma_trim_of_lowered_trimmed(t);
    lemma_ascii_lower_keeps_ascii(t);
}

/// Trimming twice is trimming once.
pub proof fn lemma_trim_idempotent(s: Seq<char>)
    ensures
        trim(trim(s)) == trim(s),
{
    let a = trim_start(s);
    lemma_lead_ws_bound(s);
    lemma_trail_ws_bound(a);
    let b = trim_end(a);
    if b.len() > 0 {
        assert(b[0] == a[0]);
        assert(a[0] == s[lead_ws(s) as int]);
        assert(!is_ws(b[0]));
        assert(lead_ws(b) == 0);
        assert(b.skip(0) =~= b);
        assert(b.last() == a[a.len() - trail_ws(a) - 1]);
        assert(trail_ws(b) == 0);
        assert(b.take(b.len() as int) =~= b);
    } else {
        assert(trim(b) =~= b);
    }
}

/// Texts with the same canonical form, such as ones differing only in case
/// or surrounding whitespace, get the same id, so they share one entry in
/// storage.
pub proof fn law_same_form_same_id(a: Seq<char>, b: Seq<char>)
    requires
        normalized(a) == normalized(b),
    ensures
        sha1_hex_of(normalized(a)) == sha1_hex_of(normalized(b)),
{
}
} // verus!
