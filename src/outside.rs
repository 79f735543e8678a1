//! The calls this library makes into `regex` and into parts of `std`
//! that vstd does not specify, each with the contract relied on.

use std::collections::HashSet;
use vstd::prelude::*;
use vstd::utf8::{encode_utf8, valid_utf8};

verus! {

#[verifier::external_type_specification]
#[verifier::external_body]
pub struct ExRegex(regex::Regex);

#[verifier::external_type_specification]
#[verifier::external_body]
pub struct ExRegexError(regex::Error);

/// The pattern text a compiled regular expression was built from.
pub uninterp spec fn regex_source(re: regex::Regex) -> Seq<char>;

/// Whether `regex::Regex::new` accepts a pattern.
pub uninterp spec fn pattern_compiles(pattern: Seq<char>) -> bool;

/// Whether a regular expression built from `pattern` with the default
/// options matches somewhere in `text`.
pub uninterp spec fn pattern_matches(pattern: Seq<char>, text: Seq<char>) -> bool;

/// Whether a compiled regular expression matches somewhere in `text`.
pub uninterp spec fn regex_matches(re: regex::Regex, text: Seq<char>) -> bool;

/// Relies on `regex::Regex::new`: it builds with the default options, so
/// success depends on the pattern alone, the regex keeps the pattern text
/// (`Regex::as_str` returns it), and it matches as the default-option
/// regex of that pattern does.
#[verifier::external_body]
pub(crate) fn compile_regex(pattern: &str) -> (r: Result<regex::Regex, regex::Error>)
    ensures
        r is Ok <==> pattern_compiles(pattern@),
        r matches Ok(re) ==> regex_source(re) == pattern@,
        r matches Ok(re) ==> forall|t: Seq<char>| #[trigger]
            regex_matches(re, t) == pattern_matches(pattern@, t),
{
    regex::Regex::new(pattern)
}

/// Relies on `regex::Regex::is_match`: whether the regex matches anywhere
/// in the haystack.
#[verifier::external_body]
pub(crate) fn regex_is_match(re: &regex::Regex, text: &str) -> (r: bool)
    ensures
        r == regex_matches(*re, text@),
{
    re.is_match(text)
}

/// Relies on `regex::Regex::as_str`: the original pattern text.
pub assume_specification[ regex::Regex::as_str ](re: &regex::Regex) -> (r: &str)
    ensures
        r@ == regex_source(*re),
;

/// The lower-case mapping of a character sequence.
pub uninterp spec fn lower_of(s: Seq<char>) -> Seq<char>;

/// The upper-case mapping of a character sequence.
pub uninterp spec fn upper_of(s: Seq<char>) -> Seq<char>;

/// Whether a character has the Unicode White_Space property.
pub open spec fn is_white_space(c: char) -> bool {
    ('\u{9}' <= c && c <= '\u{d}') || c == ' ' || c == '\u{85}' || c == '\u{a0}'
        || c == '\u{1680}' || ('\u{2000}' <= c && c <= '\u{200a}') || c == '\u{2028}'
        || c == '\u{2029}' || c == '\u{202f}' || c == '\u{205f}' || c == '\u{3000}'
}

/// A character sequence without its leading White_Space characters.
pub open spec fn trim_start_of(s: Seq<char>) -> Seq<char>
    decreases s.len(),
{
    if s.len() > 0 && is_white_space(s[0]) {
        trim_start_of(s.skip(1))
    } else {
        s
    }
}

/// A character sequence without its trailing White_Space characters.
pub open spec fn trim_end_of(s: Seq<char>) -> Seq<char>
    decreases s.len(),
{
    if s.len() > 0 && is_white_space(s.last()) {
        trim_end_of(s.drop_last())
    } else {
        s
    }
}

/// A character sequence with leading and trailing White_Space removed.
pub open spec fn trim_of(s: Seq<char>) -> Seq<char> {
    trim_end_of(trim_start_of(s))
}

/// Relies on `str::to_lowercase`: the result depends on the characters
/// alone.
#[verifier::external_body]
pub(crate) fn to_lower(s: &str) -> (r: String)
    ensures
        r@ == lower_of(s@),
{
    s.to_lowercase()
}

/// Relies on `str::to_uppercase`: the result depends on the characters
/// alone.
#[verifier::external_body]
pub(crate) fn to_upper(s: &str) -> (r: String)
    ensures
        r@ == upper_of(s@),
{
    s.to_uppercase()
}

/// Relies on `str::trim`: leading and trailing whitespace removed, where
/// whitespace is the Unicode White_Space property.
#[verifier::external_body]
pub(crate) fn trim_ends(s: &str) -> (r: String)
    ensures
        r@ == trim_of(s@),
{
    s.trim().to_string()
}

/// The character sequences held by a set of strings.
pub open spec fn string_set_view(set: HashSet<String>) -> Set<Seq<char>> {
    set@.map(|k: String| k@)
}

/// Relies on `HashSet::contains`: whether an equal string is in the set;
/// strings are equal when their characters are.
#[verifier::external_body]
pub(crate) fn set_contains(set: &HashSet<String>, v: &String) -> (r: bool)
    ensures
        r == string_set_view(*set).contains(v@),
{
    set.contains(v)
}

/// Relies on `HashSet::insert`: afterwards the set holds the value, and
/// nothing else changed.
#[verifier::external_body]
pub(crate) fn set_insert(set: &mut HashSet<String>, v: String)
    ensures
        string_set_view(*final(set)) == string_set_view(*old(set)).insert(v@),
{
    set.insert(v);
}

/// Relies on `std::str::from_utf8`: it succeeds exactly on valid UTF-8,
/// and the text it gives is made of those very bytes.
#[verifier::external_body]
pub(crate) fn decode_text(bytes: &[u8]) -> (r: Option<&str>)
    ensures
        r is Some <==> valid_utf8(bytes@),
        r matches Some(s) ==> encode_utf8(s@) == bytes@,
{
    std::str::from_utf8(bytes).ok()
}

} // verus!
