//! Regular-expression search, delegated to the `regex` crate.

use regex::Regex;
use vstd::prelude::*;

verus! {

/// What compiling `pattern` and searching `haystack` for it gives: `None`
/// when the pattern does not compile, otherwise whether some part of
/// `haystack` matches.
pub uninterp spec fn regex_search(pattern: Seq<char>, haystack: Seq<char>) -> Option<bool>;

/// Whether `pattern` compiles and occurs in `haystack`.
pub open spec fn found(pattern: Seq<char>, haystack: Seq<char>) -> bool {
    regex_search(pattern, haystack) == Some(true)
}

/// Declares `regex::Error`, the error with which a pattern is refused. It is
/// carried as it comes; nothing of it is read.
#[verifier::external_type_specification]
#[verifier::external_body]
pub struct ExRegexError(regex::Error);

/// Calls `regex::Regex::new` on `pattern` and `Regex::is_match` on the
/// characters of `haystack`. Trusted: the outcome depends on the two texts
/// alone, which is all that `regex_search` records; an error means that the
/// pattern was refused.
#[verifier::external_body]
pub(crate) fn search(pattern: &str, haystack: &[char]) -> (r: Result<bool, regex::Error>)
    ensures
        match r {
            Ok(hit) => regex_search(pattern@, haystack@) == Some(hit),
            Err(_) => regex_search(pattern@, haystack@) is None,
        },
{
    let text: String = haystack.iter().collect();
    Ok(Regex::new(pattern)?.is_match(&text))
}

/// Reads a search outcome as a yes or no: a pattern that was refused matches
/// nothing.
pub fn hit<E>(outcome: Result<bool, E>) -> (b: bool)
    ensures
        b == (outcome == Ok::<bool, E>(true)),
{
    match outcome {
        Ok(hit) => hit,
        Err(_) => false,
    }
}

/// Whether `pattern` is a valid regular expression that matches somewhere in
/// `haystack`.
pub fn occurs(pattern: &str, haystack: &[char]) -> (b: bool)
    ensures
        b == found(pattern@, haystack@),
{
    hit(search(pattern, haystack))
}

} // verus!
