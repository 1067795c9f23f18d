//! Byte- and character-level comparisons on strings.
//!
//! `str::starts_with`, `str::ends_with` and `str::len` compare and count the
//! UTF-8 bytes of a string; the functions here do the same, on the bytes that
//! `str::as_bytes` hands out (`encode_utf8` of the characters).

use vstd::prelude::*;
use vstd::utf8::{decode_utf8, encode_utf8, encode_utf8_decode_utf8};

verus! {

/// `prefix` is a prefix of `s`.
pub open spec fn is_prefix<T>(prefix: Seq<T>, s: Seq<T>) -> bool {
    prefix.len() <= s.len() && s.take(prefix.len() as int) == prefix
}

/// `suffix` is a suffix of `s`.
pub open spec fn is_suffix<T>(suffix: Seq<T>, s: Seq<T>) -> bool {
    suffix.len() <= s.len() && s.skip(s.len() - suffix.len()) == suffix
}

/// The UTF-8 bytes of a character sequence.
pub open spec fn utf8(s: Seq<char>) -> Seq<u8> {
    encode_utf8(s)
}

/// Whether `prefix` starts `s`, compared byte by byte.
pub fn bytes_start_with(s: &[u8], prefix: &[u8]) -> (r: bool)
    ensures
        r == is_prefix(prefix@, s@),
{
    if prefix.len() > s.len() {
        return false;
    }
    let mut i: usize = 0;
    while i < prefix.len()
        invariant
            prefix@.len() <= s@.len(),
            i <= prefix@.len(),
            forall|j: int| 0 <= j < i ==> s@[j] == prefix@[j],
        decreases prefix@.len() - i,
    {
        if s[i] != prefix[i] {
            assert(s@.take(prefix@.len() as int)[i as int] != prefix@[i as int]);
            return false;
        }
        i = i + 1;
    }
    assert(s@.take(prefix@.len() as int) =~= prefix@);
    true
}

/// Whether `suffix` ends `s`, compared byte by byte.
pub fn bytes_end_with(s: &[u8], suffix: &[u8]) -> (r: bool)
    ensures
        r == is_suffix(suffix@, s@),
{
    if suffix.len() > s.len() {
        return false;
    }
    let off: usize = s.len() - suffix.len();
    let mut i: usize = 0;
    while i < suffix.len()
        invariant
            suffix@.len() <= s@.len(),
            off == s@.len() - suffix@.len(),
            s@.len() == s.len(),
            i <= suffix@.len(),
            forall|j: int| 0 <= j < i ==> s@[off + j] == suffix@[j],
        decreases suffix@.len() - i,
    {
        if s[off + i] != suffix[i] {
            assert(s@.skip(off as int)[i as int] != suffix@[i as int]);
            return false;
        }
        i = i + 1;
    }
    assert(s@.skip(off as int) =~= suffix@);
    true
}

/// Whether the string `s` holds exactly the characters of `lit`.
pub fn string_is(s: &String, lit: &str) -> (r: bool)
    ensures
        r == (s@ == lit@),
{
    let other = String::from_str(lit);
    s.eq(&other)
}

/// Whether two byte slices are equal.
pub fn bytes_equal(a: &[u8], b: &[u8]) -> (r: bool)
    ensures
        r == (a@ == b@),
{
    if a.len() != b.len() {
        return false;
    }
    let r = bytes_start_with(a, b);
    proof {
        assert(a@.take(b@.len() as int) =~= a@);
    }
    r
}

/// Whether two strings hold the same characters.
pub fn str_eq(a: &str, b: &str) -> (r: bool)
    ensures
        r == (a@ == b@),
{
    let ab = a.as_bytes();
    let bb = b.as_bytes();
    let r = bytes_equal(ab, bb);
    proof {
        assert(ab@ == encode_utf8(a@));
        assert(bb@ == encode_utf8(b@));
        encode_utf8_decode_utf8(a@);
        encode_utf8_decode_utf8(b@);
        if r {
            assert(ab@ == bb@);
            assert(decode_utf8(encode_utf8(a@)) == decode_utf8(encode_utf8(b@)));
            assert(a@ == b@);
        } else {
            assert(ab@ != bb@);
            assert(a@ != b@);
        }
    }
    r
}

/// Whether `s` starts with `prefix`, as `str::starts_with` decides it.
pub fn str_starts_with(s: &str, prefix: &str) -> (r: bool)
    ensures
        r == is_prefix(utf8(prefix@), utf8(s@)),
{
    bytes_start_with(s.as_bytes(), prefix.as_bytes())
}

/// Whether `s` ends with `suffix`, as `str::ends_with` decides it.
pub fn str_ends_with(s: &str, suffix: &str) -> (r: bool)
    ensures
        r == is_suffix(utf8(suffix@), utf8(s@)),
{
    bytes_end_with(s.as_bytes(), suffix.as_bytes())
}

/// The number of UTF-8 bytes of `s`, as `str::len` counts them.
pub fn byte_len(s: &str) -> (n: usize)
    ensures
        n == utf8(s@).len(),
{
    s.as_bytes().len()
}

/// `prefix` starts `s` exactly when `s` is `prefix` followed by something.
pub proof fn lemma_prefix_meaning<T>(prefix: Seq<T>, s: Seq<T>)
    ensures
        is_prefix(prefix, s) <==> exists|rest: Seq<T>| s == prefix + rest,
{
    if is_prefix(prefix, s) {
        assert(s =~= prefix + s.skip(prefix.len() as int));
    }
    if exists|rest: Seq<T>| s == prefix + rest {
        let rest = choose|rest: Seq<T>| s == prefix + rest;
        assert(s.take(prefix.len() as int) =~= prefix);
    }
}

/// `suffix` ends `s` exactly when `s` is something followed by `suffix`.
pub proof fn lemma_suffix_meaning<T>(suffix: Seq<T>, s: Seq<T>)
    ensures
        is_suffix(suffix, s) <==> exists|front: Seq<T>| s == front + suffix,
{
    if is_suffix(suffix, s) {
        assert(s =~= s.take(s.len() - suffix.len()) + suffix);
    }
    if exists|front: Seq<T>| s == front + suffix {
        let front = choose|front: Seq<T>| s == front + suffix;
        assert(s.skip(s.len() - suffix.len()) =~= suffix);
    }
}

} // verus!
