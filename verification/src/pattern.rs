//! Regular expressions, as the `regex` crate compiles and runs them.
//!
//! Nothing in this file is proved: it states what the rest of the library
//! takes from `regex`. Whether a pattern compiles and whether a compiled
//! pattern matches a text are decided by that crate alone, so each is known
//! here only by a name.

use regex::Error as RegexError;
use regex::Regex;
use vstd::prelude::*;

verus! {

/// A compiled regular expression.
#[verifier::external_type_specification]
#[verifier::external_body]
pub struct ExRegex(Regex);

/// The reason why a pattern did not compile.
#[verifier::external_type_specification]
#[verifier::external_body]
pub struct ExRegexError(RegexError);

/// Whether `Regex::new` accepts `pattern`.
pub uninterp spec fn compiles(pattern: Seq<char>) -> bool;

/// Whether the regular expression written as `pattern` matches somewhere in
/// `haystack`: what `Regex::is_match` answers.
pub uninterp spec fn is_match(pattern: Seq<char>, haystack: Seq<char>) -> bool;

/// The pattern that `regex` was compiled from: what `Regex::as_str` returns.
pub uninterp spec fn source(regex: Regex) -> Seq<char>;

/// Calls `Regex::new`, which compiles `pattern` and fails where the pattern
/// is malformed or its program is too large. The contract claims that the
/// outcome depends on the pattern alone, and that the compiled expression
/// remembers the pattern it came from.
#[verifier::external_body]
pub(crate) fn compile(pattern: &str) -> (compiled: Result<Regex, RegexError>)
    ensures
        compiled is Ok <==> compiles(pattern@),
        compiled matches Ok(regex) ==> source(regex) == pattern@,
{
    Regex::new(pattern)
}

/// Calls `Regex::is_match`, which is true if and only if the expression
/// matches anywhere in `haystack`. The contract claims that the answer
/// depends on the pattern and the haystack alone.
#[verifier::external_body]
pub(crate) fn matches(regex: &Regex, haystack: &str) -> (found: bool)
    ensures
        found == is_match(source(*regex), haystack@),
{
    regex.is_match(haystack)
}

} // verus!
