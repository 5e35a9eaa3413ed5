//! Calls into std's text routines that vstd gives no specification.
//!
//! Each routine's result is named by an uninterpreted function of its input,
//! so callers can state exactly which text they hand on.

use vstd::prelude::*;
use vstd::utf8::{decode_utf8, valid_utf8};

verus! {

/// What `String::from_utf8_lossy` yields for `bytes`.
pub uninterp spec fn lossy_utf8_chars(bytes: Seq<u8>) -> Seq<char>;

/// What `str::to_lowercase` yields for `s`.
pub uninterp spec fn lowercase_chars(s: Seq<char>) -> Seq<char>;

/// `c` has the Unicode `White_Space` property, which is what
/// `char::is_whitespace` and therefore `str::trim` go by.
pub open spec fn is_white_space(c: char) -> bool {
    let u = c as int;
    ||| 0x09 <= u <= 0x0D
    ||| u == 0x20
    ||| u == 0x85
    ||| u == 0xA0
    ||| u == 0x1680
    ||| 0x2000 <= u <= 0x200A
    ||| u == 0x2028
    ||| u == 0x2029
    ||| u == 0x202F
    ||| u == 0x205F
    ||| u == 0x3000
}

/// `s` without its leading whitespace.
pub open spec fn trim_start_chars(s: Seq<char>) -> Seq<char>
    decreases s.len(),
{
    if s.len() > 0 && is_white_space(s[0]) {
        trim_start_chars(s.drop_first())
    } else {
        s
    }
}

/// `s` without its trailing whitespace.
pub open spec fn trim_end_chars(s: Seq<char>) -> Seq<char>
    decreases s.len(),
{
    if s.len() > 0 && is_white_space(s.last()) {
        trim_end_chars(s.drop_last())
    } else {
        s
    }
}

/// `s` without leading and trailing whitespace, as `str::trim` returns it.
pub open spec fn trimmed_chars(s: Seq<char>) -> Seq<char> {
    trim_end_chars(trim_start_chars(s))
}

/// `c` lowercased if it is an ASCII capital letter, otherwise unchanged.
pub open spec fn ascii_lower(c: char) -> char {
    if 'A' <= c && c <= 'Z' {
        ((c as int) + 32) as char
    } else {
        c
    }
}

/// Every character of `s` is ASCII.
pub open spec fn all_ascii(s: Seq<char>) -> bool {
    forall|i: int| 0 <= i < s.len() ==> (s[i] as int) < 128
}

/// What `format!("{:?}", s)` yields for a string `s`.
pub uninterp spec fn debug_quoted_chars(s: Seq<char>) -> Seq<char>;

/// Calls `String::from_utf8_lossy`. Claimed: the result depends on the bytes
/// alone, and valid UTF-8 comes back decoded unchanged (as its documentation
/// states); how invalid sequences are replaced is left to the name.
#[verifier::external_body]
pub(crate) fn utf8_lossy(bytes: &[u8]) -> (r: String)
    ensures
        r@ == lossy_utf8_chars(bytes@),
        valid_utf8(bytes@) ==> r@ == decode_utf8(bytes@),
{
    String::from_utf8_lossy(bytes).into_owned()
}

/// Calls `str::to_lowercase`. Claimed: the result depends on `s` alone, and
/// ASCII text maps A–Z to a–z and keeps every other character (the Unicode
/// lowercase mapping restricted to ASCII); the full Unicode mapping is left
/// to the name.
#[verifier::external_body]
pub(crate) fn to_lowercase(s: &str) -> (r: String)
    ensures
        r@ == lowercase_chars(s@),
        all_ascii(s@) ==> r@ == s@.map_values(|c: char| ascii_lower(c)),
{
    s.to_lowercase()
}

/// Calls `str::trim`. Claimed: it removes leading and trailing characters
/// with the Unicode `White_Space` property, as its documentation states.
#[verifier::external_body]
pub(crate) fn trim(s: &str) -> (r: &str)
    ensures
        r@ == trimmed_chars(s@),
{
    s.trim()
}

/// Calls `<str as Debug>::fmt` through `format!("{:?}", s)`. Claimed: the
/// result depends on `s` alone; the quoting and escaping are left to the name.
#[verifier::external_body]
pub(crate) fn debug_quoted(s: &str) -> (r: String)
    ensures
        r@ == debug_quoted_chars(s@),
{
    format!("{:?}", s)
}

} // verus!
