//! Path patterns: compiled regular expressions and what the library assumes
//! about them.
//!
//! Route matching is delegated to the `regex` crate. The compiled value and
//! the two calls the library makes (`Regex::new`, `Regex::is_match`) are
//! taken on trust here, named so that every contract above can speak about
//! them precisely.

use vstd::prelude::*;
use regex::Regex;

verus! {

#[verifier::external_type_specification]
#[verifier::external_body]
pub struct ExRegex(Regex);

/// Whether `regex::Regex::new` accepts `pattern` as regular-expression syntax.
pub uninterp spec fn pattern_valid(pattern: Seq<char>) -> bool;

/// The pattern string a compiled `regex::Regex` was built from
/// (what `Regex::as_str` returns).
pub uninterp spec fn regex_pattern(re: Regex) -> Seq<char>;

/// Whether the regular expression `pattern` matches anywhere inside `text`
/// (search, not anchored full-match). The result depends on the pattern and
/// the text alone.
pub uninterp spec fn pattern_matches(pattern: Seq<char>, text: Seq<char>) -> bool;

/// Relies on `regex::Regex::new`: it compiles `pattern`, returning `Ok`
/// exactly when the pattern is valid syntax, and the compiled value remembers
/// the pattern string it was built from (`Regex::as_str`).
#[verifier::external_body]
pub(crate) fn regex_compile(pattern: &str) -> (r: Option<Regex>)
    ensures
        r is Some <==> pattern_valid(pattern@),
        r matches Some(re) ==> regex_pattern(re) == pattern@,
{
    Regex::new(pattern).ok()
}

/// Relies on `regex::Regex::is_match`: true if and only if there is a match
/// for the regex anywhere in `text`.
#[verifier::external_body]
pub(crate) fn regex_is_match(re: &Regex, text: &str) -> (b: bool)
    ensures
        b == pattern_matches(regex_pattern(*re), text@),
{
    re.is_match(text)
}

} // verus!
