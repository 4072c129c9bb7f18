//! Regular-expression rewrites, carried out by the `regex` crate.
//!
//! What a rewrite returns is not spelled out here: it is given a name, and the
//! rest of the library reasons about that name.

use regex::Regex;
use vstd::prelude::*;

verus! {

/// `regex::Regex`, a compiled expression. Nothing is known of what it holds
/// but the pattern it was compiled from.
#[verifier::external_type_specification]
#[verifier::external_body]
pub struct ExRegex(regex::Regex);

/// `regex::Error`, why a pattern was refused. Nothing is read from it.
#[verifier::external_type_specification]
#[verifier::external_body]
pub struct ExRegexError(regex::Error);

/// The pattern text that `re` was compiled from.
pub uninterp spec fn pattern_of(re: Regex) -> Seq<char>;

/// Whether `regex::Regex::new` accepts `pattern`.
pub uninterp spec fn pattern_compiles(pattern: Seq<char>) -> bool;

/// What `regex::Regex::replace_all` returns for an expression compiled from
/// `pattern`: `haystack` with every non-overlapping match replaced by the
/// expansion of `replacement`.
pub uninterp spec fn replaced_all(
    pattern: Seq<char>,
    haystack: Seq<char>,
    replacement: Seq<char>,
) -> Seq<char>;

/// What `regex::Regex::replace` returns for an expression compiled from
/// `pattern`: `haystack` with the leftmost match replaced by the expansion of
/// `replacement`.
pub uninterp spec fn replaced_first(
    pattern: Seq<char>,
    haystack: Seq<char>,
    replacement: Seq<char>,
) -> Seq<char>;

/// Calls `regex::Regex::new`. Trusted: the call succeeds exactly on the
/// patterns that [`pattern_compiles`] names, and the expression it returns
/// remembers the pattern it was given.
#[verifier::external_body]
pub(crate) fn compile(pattern: &str) -> (r: Result<Regex, regex::Error>)
    ensures
        r is Ok <==> pattern_compiles(pattern@),
        r matches Ok(re) ==> pattern_of(re) == pattern@,
{
    Regex::new(pattern)
}

/// Calls `regex::Regex::replace_all` with a replacement string. Trusted: the
/// result is the one [`replaced_all`] names for the pattern of `re`.
#[verifier::external_body]
pub(crate) fn replace_all(re: &Regex, haystack: &str, replacement: &str) -> (r: String)
    ensures
        r@ == replaced_all(pattern_of(*re), haystack@, replacement@),
{
    re.replace_all(haystack, replacement).into_owned()
}

/// Calls `regex::Regex::replace` with a replacement string. Trusted: the
/// result is the one [`replaced_first`] names for the pattern of `re`.
#[verifier::external_body]
pub(crate) fn replace_first(re: &Regex, haystack: &str, replacement: &str) -> (r: String)
    ensures
        r@ == replaced_first(pattern_of(*re), haystack@, replacement@),
{
    re.replace(haystack, replacement).into_owned()
}

} // verus!
