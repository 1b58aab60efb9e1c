//! Regular expressions, evaluated by the `regex` crate.

use vstd::prelude::*;

verus! {

/// The error that the `regex` crate reports for a pattern it cannot compile.
#[verifier::external_type_specification]
#[verifier::external_body]
pub struct ExRegexError(regex::Error);

/// Whether `regex::Regex::new` compiles `pattern` to a regular expression,
/// rather than reporting an error for it.
pub uninterp spec fn regex_compiles(pattern: Seq<char>) -> bool;

/// Whether the regular expression `pattern` has a match anywhere in
/// `haystack`: the answer of `regex::Regex::is_match` for the expression that
/// `regex::Regex::new` compiles from `pattern`.
pub uninterp spec fn regex_is_match(pattern: Seq<char>, haystack: Seq<char>) -> bool;

/// What searching `haystack` for `pattern` gives: whether the pattern
/// matches somewhere in it, or nothing where the pattern does not compile.
pub open spec fn pattern_search(pattern: Seq<char>, haystack: Seq<char>) -> Option<bool> {
    if regex_compiles(pattern) {
        Some(regex_is_match(pattern, haystack))
    } else {
        None
    }
}

/// Compiles `pattern` with `regex::Regex::new` and searches `haystack` with
/// `regex::Regex::is_match`. An error is the one that `Regex::new` gave for the
/// pattern; whether it gives one depends on the pattern alone. An answer is
/// that of `is_match`, which depends on the pattern and the haystack alone.
#[verifier::external_body]
pub(crate) fn search(pattern: &str, haystack: &str) -> (found: Result<bool, regex::Error>)
    ensures
        found is Ok == regex_compiles(pattern@),
        found matches Ok(hit) ==> hit == regex_is_match(pattern@, haystack@),
{
    match regex::Regex::new(pattern) {
        Ok(compiled) => Ok(compiled.is_match(haystack)),
        Err(error) => Err(error),
    }
}

/// Whether `pattern` matches somewhere in `haystack`; `None` where the
/// pattern does not compile.
pub fn is_match(pattern: &str, haystack: &str) -> (found: Option<bool>)
    ensures
        found == pattern_search(pattern@, haystack@),
{
    match search(pattern, haystack) {
        Ok(hit) => Some(hit),
        Err(_) => None,
    }
}

} // verus!
