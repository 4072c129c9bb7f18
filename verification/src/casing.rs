//! Case conversion of names, carried out by the `convert_case` crate.

use convert_case::{Case, Casing};
use vstd::prelude::*;
use vstd::utf8::is_ascii_chars;

verus! {

/// The two ways in which a name is written.
#[derive(Debug, Clone, Copy, PartialEq, Eq, Structural)]
pub enum Style {
    /// Lower-case words joined by underscores.
    Snake,
    /// Capitalized words, joined without a delimiter.
    UpperCamel,
}

/// What `convert_case::Casing::to_case` makes of `text` in the given style.
pub uninterp spec fn cased(text: Seq<char>, style: Style) -> Seq<char>;

/// Calls `convert_case::Casing::to_case` with `Case::Snake` or
/// `Case::UpperCamel`. Trusted: the result is the one [`cased`] names. The
/// text is ASCII, since the crate cuts words at character counts that it
/// takes for byte offsets.
#[verifier::external_body]
pub(crate) fn to_case(text: &str, style: Style) -> (r: String)
    requires
        is_ascii_chars(text@),
    ensures
        r@ == cased(text@, style),
{
    match style {
        Style::Snake => text.to_case(Case::Snake),
        Style::UpperCamel => text.to_case(Case::UpperCamel),
    }
}

} // verus!
