//! The two Unicode conversions of the standard library that this crate calls.
use vstd::prelude::*;
use vstd::string::*;
use vstd::utf8::*;

verus! {

/// The lower case of a text, as `str::to_lowercase` of the standard library
/// gives it.
pub uninterp spec fn lowercase(s: Seq<char>) -> Seq<char>;

/// The text that `String::from_utf8_lossy` of the standard library reads in
/// bytes.
pub uninterp spec fn lossy_text(bytes: Seq<u8>) -> Seq<char>;

/// `c` in lower case if it is an ASCII letter.
pub open spec fn ascii_lower(c: char) -> char {
    if 'A' <= c <= 'Z' {
        (c as u8 + 32) as u8 as char
    } else {
        c
    }
}

/// Calls `str::to_lowercase`. Its result depends on the text alone, and of an
/// ASCII text it maps the letters `A` to `Z` to `a` to `z` and keeps the rest.
/// What it does to other characters is left to the Unicode tables.
#[verifier::external_body]
pub(crate) fn to_lowercase(s: &str) -> (res: String)
    ensures
        res@ == lowercase(s@),
        is_ascii_chars(s@) ==> res@ == s@.map_values(|c: char| ascii_lower(c)),
{
    s.to_lowercase()
}

/// Calls `String::from_utf8_lossy`. Its result depends on the bytes alone, and
/// bytes that are valid UTF-8 are decoded as such. Where in other input the
/// replacement characters stand is not stated.
#[verifier::external_body]
pub(crate) fn from_utf8_lossy(bytes: &[u8]) -> (res: String)
    ensures
        res@ == lossy_text(bytes@),
        valid_utf8(bytes@) ==> res@ == decode_utf8(bytes@),
{
    String::from_utf8_lossy(bytes).into_owned()
}

} // verus!
