//! Regular expressions, searched for by the `regex` crate.

use regex::Regex;
use vstd::prelude::*;

verus! {

#[verifier::external_type_specification]
#[verifier::external_body]
pub struct ExPatternError(regex::Error);

/// What a search of `haystack` for the regular expression `pattern` gives:
/// whether the expression matches anywhere in `haystack`, and nothing where
/// `pattern` is not an expression that the engine accepts.
pub uninterp spec fn search_result(pattern: Seq<char>, haystack: Seq<char>) -> Option<bool>;

/// Compiles `pattern` with `regex::Regex::new` and asks `Regex::is_match`
/// whether it matches anywhere in `haystack`.
///
/// Believed, not proved: the answer depends on the two texts alone, so it
/// is the same at every call. The error is the one that `Regex::new` gave.
/// The expression is compiled anew at every call.
#[verifier::external_body]
pub(crate) fn search(pattern: &str, haystack: &str) -> (found: Result<bool, regex::Error>)
    ensures
        match found {
            Ok(anywhere) => search_result(pattern@, haystack@) == Some(anywhere),
            Err(_) => search_result(pattern@, haystack@) is None,
        },
{
    match Regex::new(pattern) {
        Ok(expression) => Ok(expression.is_match(haystack)),
        Err(error) => Err(error),
    }
}

} // verus!
