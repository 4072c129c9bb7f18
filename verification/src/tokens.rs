//! The check that a text can be read as a stream of Rust tokens, carried out
//! by the `proc-macro2` crate.

use std::str::FromStr;
use vstd::prelude::*;

verus! {

/// Whether `proc_macro2::TokenStream::from_str` reads `source` as a token
/// stream.
pub uninterp spec fn lexes(source: Seq<char>) -> bool;

/// Calls `proc_macro2::TokenStream::from_str` and drops the tokens. Trusted:
/// the call succeeds exactly on the texts that [`lexes`] names.
#[verifier::external_body]
pub(crate) fn is_lexable(source: &str) -> (r: bool)
    ensures
        r == lexes(source@),
{
    proc_macro2::TokenStream::from_str(source).is_ok()
}

} // verus!
