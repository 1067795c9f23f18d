//! The regular expressions that submissions are checked with, and the
//! trusted calls into the `regex` crate that apply them.

use vstd::prelude::*;

verus! {

/// A device id: 64 upper-case hexadecimal digits and nothing else.
pub const DEVICE_ID_PATTERN: &'static str = "^[0-9A-F]{64}$";

/// A version string starts with its version code, such as `21.0-`; the
/// code is the first capture group.
pub const VERSION_CODE_PATTERN: &'static str = "^(\\d\\d\\.\\d)-";

/// A nightly build: version code, build date and `-NIGHTLY-`, anywhere in
/// the version string.
pub const NIGHTLY_PATTERN: &'static str = "\\d\\d\\.\\d-\\d{8}-NIGHTLY-.*";

/// A version string that starts with a dotted version number.
pub const DOTTED_VERSION_PATTERN: &'static str = "^\\d+\\.\\d+";

/// A version string marked as an unofficial build.
pub const UNOFFICIAL_PATTERN: &'static str = "-(?:UNOFFICIAL|unofficial)";

/// The patterns that this library compiles; each is a valid regular
/// expression.
pub open spec fn is_known_pattern(p: Seq<char>) -> bool {
    ||| p == DEVICE_ID_PATTERN@
    ||| p == VERSION_CODE_PATTERN@
    ||| p == NIGHTLY_PATTERN@
    ||| p == DOTTED_VERSION_PATTERN@
    ||| p == UNOFFICIAL_PATTERN@
}

/// An ASCII decimal digit (each of which the class `\d` matches).
pub open spec fn is_ascii_digit(c: char) -> bool {
    '0' <= c <= '9'
}

/// A character of the class `[0-9A-F]`.
pub open spec fn is_upper_hex(c: char) -> bool {
    ('0' <= c <= '9') || ('A' <= c <= 'F')
}

/// What [`DEVICE_ID_PATTERN`] accepts.
pub open spec fn device_id_shape(s: Seq<char>) -> bool {
    s.len() == 64 && forall|i: int| 0 <= i < 64 ==> #[trigger] is_upper_hex(s[i])
}

/// The version string starts with an ASCII version code such as `21.0-`.
pub open spec fn ascii_version_prefix(s: Seq<char>) -> bool {
    &&& s.len() >= 5
    &&& is_ascii_digit(s[0])
    &&& is_ascii_digit(s[1])
    &&& s[2] == '.'
    &&& is_ascii_digit(s[3])
    &&& s[4] == '-'
}

/// The marker that follows the build date of a nightly build.
pub open spec fn nightly_marker() -> Seq<char> {
    seq!['-', 'N', 'I', 'G', 'H', 'T', 'L', 'Y', '-']
}

/// At position `i` the string holds an ASCII match of [`NIGHTLY_PATTERN`].
pub open spec fn ascii_nightly_at(s: Seq<char>, i: int) -> bool {
    &&& 0 <= i
    &&& i + 22 <= s.len()
    &&& is_ascii_digit(s[i])
    &&& is_ascii_digit(s[i + 1])
    &&& s[i + 2] == '.'
    &&& is_ascii_digit(s[i + 3])
    &&& s[i + 4] == '-'
    &&& forall|k: int| 5 <= k < 13 ==> #[trigger] is_ascii_digit(s[i + k])
    &&& s.subrange(i + 13, i + 22) == nightly_marker()
}

/// At position `i` the string has the punctuation of a match of
/// [`NIGHTLY_PATTERN`] (whatever digits stand between).
pub open spec fn nightly_shape_at(s: Seq<char>, i: int) -> bool {
    &&& 0 <= i
    &&& i + 22 <= s.len()
    &&& s[i + 2] == '.'
    &&& s[i + 4] == '-'
    &&& s.subrange(i + 13, i + 22) == nightly_marker()
}

/// The string starts with ASCII digits, a dot and an ASCII digit.
pub open spec fn ascii_dotted_prefix(s: Seq<char>) -> bool {
    exists|k: int| 1 <= k && k + 2 <= s.len() && s[k] == '.' && is_ascii_digit(#[trigger] s[k + 1])
        && forall|j: int| 0 <= j < k ==> #[trigger] is_ascii_digit(s[j])
}

/// The string contains `-UNOFFICIAL` or `-unofficial`.
pub open spec fn marked_unofficial(s: Seq<char>) -> bool {
    exists|i: int| 0 <= i && i + 11 <= s.len() && (#[trigger] s.subrange(i, i + 11) == seq!['-', 'U', 'N', 'O', 'F', 'F', 'I', 'C', 'I', 'A', 'L']
        || s.subrange(i, i + 11) == seq!['-', 'u', 'n', 'o', 'f', 'f', 'i', 'c', 'i', 'a', 'l'])
}

/// Whether the regular expression `pattern` matches somewhere in `haystack`
/// (what `regex::Regex::is_match` returns).
pub uninterp spec fn regex_matches(pattern: Seq<char>, haystack: Seq<char>) -> bool;

/// The text of the first capture group of the leftmost match of `pattern` in
/// `haystack`, if there is a match (what `regex::Regex::captures` gives for
/// group 1).
pub uninterp spec fn regex_first_group(pattern: Seq<char>, haystack: Seq<char>) -> Option<Seq<char>>;

/// The text of the leftmost match of `pattern` in `haystack`, if there is
/// one (what `regex::Regex::find` returns).
pub uninterp spec fn regex_leftmost(pattern: Seq<char>, haystack: Seq<char>) -> Option<Seq<char>>;

/// What a captured version code looks like: the first four characters of
/// the version string, which holds a dot and a dash where the pattern has
/// them.
pub open spec fn version_code_shape(haystack: Seq<char>, code: Seq<char>) -> bool {
    &&& haystack.len() >= 5
    &&& code == haystack.take(4)
    &&& haystack[2] == '.'
    &&& haystack[4] == '-'
}

/// Calls `regex::Regex::new(pattern)` and `Regex::is_match(haystack)`.
///
/// Trusted: the result is named [`regex_matches`]. For the device-id
/// pattern the contract states the whole answer (`^`, `$`, a character
/// range and a repetition count, all in their regex-crate meaning); for the
/// nightly pattern it states that an ASCII match is found and that a match
/// has the pattern's punctuation; for the unofficial pattern it states the
/// whole answer. What `\d` matches beyond ASCII digits (all Unicode decimal
/// digits) is left to the name.
#[verifier::external_body]
pub fn regex_is_match(pattern: &str, haystack: &str) -> (r: bool)
    requires
        is_known_pattern(pattern@),
    ensures
        r == regex_matches(pattern@, haystack@),
        pattern@ == DEVICE_ID_PATTERN@ ==> (r == device_id_shape(haystack@)),
        pattern@ == NIGHTLY_PATTERN@ ==> ((exists|i: int| ascii_nightly_at(haystack@, i)) ==> r),
        pattern@ == NIGHTLY_PATTERN@ ==> (r ==> exists|i: int| nightly_shape_at(haystack@, i)),
        pattern@ == UNOFFICIAL_PATTERN@ ==> (r == marked_unofficial(haystack@)),
{
    regex::Regex::new(pattern).unwrap().is_match(haystack)
}

/// Calls `regex::Regex::new(pattern)` and `Regex::captures(haystack)`, and
/// hands out capture group 1 as a `String`.
///
/// Trusted: the result is named [`regex_first_group`]. For the version-code
/// pattern the contract states that a capture is the first four characters,
/// with a dot and a dash where the pattern has them, and that a version
/// string with an ASCII version code is captured.
#[verifier::external_body]
pub fn regex_capture_first(pattern: &str, haystack: &str) -> (r: Option<String>)
    requires
        is_known_pattern(pattern@),
    ensures
        crate::database::opt_chars(r) == regex_first_group(pattern@, haystack@),
        pattern@ == VERSION_CODE_PATTERN@ ==> (r matches Some(code) ==> version_code_shape(haystack@, code@)),
        pattern@ == VERSION_CODE_PATTERN@ ==> (ascii_version_prefix(haystack@) ==> r is Some),
{
    match regex::Regex::new(pattern).unwrap().captures(haystack) {
        Some(caps) => match caps.get(1) {
            Some(m) => Some(m.as_str().to_string()),
            None => None,
        },
        None => None,
    }
}

/// Calls `regex::Regex::new(pattern)` and `Regex::find(haystack)`, and hands
/// out the matched text as a `String`.
///
/// Trusted: the result is named [`regex_leftmost`]. For the dotted-version
/// pattern the contract states that a match is a prefix of the haystack
/// holding a dot, and that a haystack with an ASCII dotted prefix matches.
#[verifier::external_body]
pub fn regex_find(pattern: &str, haystack: &str) -> (r: Option<String>)
    requires
        is_known_pattern(pattern@),
    ensures
        crate::database::opt_chars(r) == regex_leftmost(pattern@, haystack@),
        pattern@ == DOTTED_VERSION_PATTERN@ ==> (r matches Some(m) ==> {
            &&& m@.len() >= 3
            &&& m@ == haystack@.take(m@.len() as int)
            &&& m@.contains('.')
        }),
        pattern@ == DOTTED_VERSION_PATTERN@ ==> (ascii_dotted_prefix(haystack@) ==> r is Some),
{
    match regex::Regex::new(pattern).unwrap().find(haystack) {
        Some(m) => Some(m.as_str().to_string()),
        None => None,
    }
}

} // verus!
