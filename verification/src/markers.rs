//! Recovering the login shell's `PATH` from noisy shell output.
//!
//! Interactive shells may print to stdout while they start (greetings, version
//! managers), so the probe prints `PATH` between two copies of a marker and the
//! value is cut out from between them.

use vstd::prelude::*;
use crate::std_text::{lossy_utf8_chars, utf8_lossy};
use crate::text::{
    char_vec, contains_seq, find_chars, first_occurrence, lemma_contains_first, lemma_search_finds,
    lemma_search_from, occurs_at, suffix_from,
};

verus! {

/// Marker printed on both sides of the captured `PATH`. Alphanumeric only, so it
/// is safe inside shell single quotes.
pub const PATH_MARK: &'static str = "VPATHMARK7c3f";

/// The text between the first `start` marker in `s` and the first `end` marker after it.
pub open spec fn spec_between_markers(s: Seq<char>, start: Seq<char>, end: Seq<char>) -> Option<Seq<char>> {
    match first_occurrence(s, start) {
        None => None,
        Some(p) => {
            let after = s.skip(p + start.len());
            match first_occurrence(after, end) {
                None => None,
                Some(e) => Some(after.take(e)),
            }
        },
    }
}

/// Slice `s` between the first `start` and the following `end`, tolerating
/// noise before `start`. Returns `None` if either marker is absent.
pub fn extract_between_markers<'a>(s: &'a str, start: &str, end: &str) -> (r: Option<&'a str>)
    ensures
        r is Some == spec_between_markers(s@, start@, end@) is Some,
        r matches Some(x) ==> x@ == spec_between_markers(s@, start@, end@).unwrap(),
{
    let sv = char_vec(s);
    let start_v = char_vec(start);
    let end_v = char_vec(end);
    let s_pos = match find_chars(&sv, &start_v) {
        Some(p) => p,
        None => return None,
    };
    proof {
        lemma_search_from(s@, start@, 0);
        assert(occurs_at(s@, start@, s_pos as int));
    }
    let n = sv.len();
    assert(s_pos + start_v.len() <= n);
    let from = s_pos + start_v.len();
    let after = suffix_from(&sv, from);
    let e_pos = match find_chars(&after, &end_v) {
        Some(e) => e,
        None => return None,
    };
    proof {
        lemma_search_from(after@, end@, 0);
        assert(occurs_at(after@, end@, e_pos as int));
    }
    let r = s.substring_char(from, from + e_pos);
    assert(r@ =~= after@.take(e_pos as int));
    Some(r)
}


/// The shell command that prints `PATH` between two copies of `PATH_MARK`.
pub open spec fn spec_path_probe_script() -> Seq<char> {
    "printf '"@ + PATH_MARK@ + "%s"@ + PATH_MARK@ + "' \"$PATH\""@
}

/// The command handed to the user's login and interactive shell to learn its `PATH`.
pub fn path_probe_script() -> (r: String)
    ensures
        r@ == spec_path_probe_script(),
{
    String::from_str("printf '").concat(PATH_MARK).concat("%s").concat(PATH_MARK).concat("' \"$PATH\"")
}

/// The `PATH` read from the probe's output: the text between the markers,
/// unless a marker is missing or nothing stands between them.
pub open spec fn spec_path_from_probe(stdout: Seq<u8>) -> Option<Seq<char>> {
    match spec_between_markers(lossy_utf8_chars(stdout), PATH_MARK@, PATH_MARK@) {
        Some(p) => if p.len() == 0 { None } else { Some(p) },
        None => None,
    }
}

/// The login shell's `PATH` from the probe's raw stdout; `None` (which
/// surfaces as "not installed") when it cannot be read.
pub fn path_from_probe_output(stdout: &[u8]) -> (r: Option<String>)
    ensures
        r is Some == spec_path_from_probe(stdout@) is Some,
        r matches Some(p) ==> p@ == spec_path_from_probe(stdout@).unwrap(),
{
    let text = utf8_lossy(stdout);
    match extract_between_markers(text.as_str(), PATH_MARK, PATH_MARK) {
        Some(p) => if p.is_empty() { None } else { Some(String::from_str(p)) },
        None => None,
    }
}

/// Shell output made of noise, the start marker, a value, the end marker and
/// any trailing text yields exactly the value, provided the start marker does
/// not begin inside the noise and the end marker does not begin inside the value.
pub proof fn lemma_value_amid_noise(
    noise: Seq<char>,
    start: Seq<char>,
    value: Seq<char>,
    end: Seq<char>,
    tail: Seq<char>,
)
    requires
        forall|i: int| 0 <= i < noise.len() ==> !occurs_at(noise + start + value + end + tail, start, i),
        forall|j: int| 0 <= j < value.len() ==> !occurs_at(value + end + tail, end, j),
    ensures
        spec_between_markers(noise + start + value + end + tail, start, end) == Some(value),
{
    let s = noise + start + value + end + tail;
    let p = noise.len() as int;
    assert(s.subrange(p, p + start.len()) =~= start);
    lemma_search_finds(s, start, 0, p);
    let after = s.skip(p + start.len());
    assert(after =~= value + end + tail);
    let e = value.len() as int;
    assert(after.subrange(e, e + end.len()) =~= end);
    lemma_search_finds(after, end, 0, e);
    assert(after.take(e) =~= value);
}


/// The probe's `PATH` is read whatever the shell prints before the first
/// marker or after the second: for output that decodes to noise, the marker,
/// a non-empty value, the marker and any tail, with no marker beginning
/// inside the noise or the value, the `PATH` read is exactly the value.
pub proof fn lemma_path_amid_noise(stdout: Seq<u8>, noise: Seq<char>, value: Seq<char>, tail: Seq<char>)
    requires
        lossy_utf8_chars(stdout) == noise + PATH_MARK@ + value + PATH_MARK@ + tail,
        forall|i: int| 0 <= i < noise.len() ==> !occurs_at(lossy_utf8_chars(stdout), PATH_MARK@, i),
        forall|j: int| 0 <= j < value.len() ==> !occurs_at(value + PATH_MARK@ + tail, PATH_MARK@, j),
        value.len() > 0,
    ensures
        spec_path_from_probe(stdout) == Some(value),
{
    lemma_value_amid_noise(noise, PATH_MARK@, value, PATH_MARK@, tail);
}

/// Probe output without the marker yields no `PATH`.
pub proof fn lemma_path_needs_marker(stdout: Seq<u8>)
    requires
        !contains_seq(lossy_utf8_chars(stdout), PATH_MARK@),
    ensures
        spec_path_from_probe(stdout) is None,
{
    lemma_missing_start_marker(lossy_utf8_chars(stdout), PATH_MARK@, PATH_MARK@);
}

/// Output without the start marker yields nothing.
pub proof fn lemma_missing_start_marker(s: Seq<char>, start: Seq<char>, end: Seq<char>)
    requires
        !contains_seq(s, start),
    ensures
        spec_between_markers(s, start, end) is None,
{
    lemma_contains_first(s, start);
}

} // verus!
