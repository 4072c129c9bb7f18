//! The identifier deriver: from a collection's prefix and an asset's file
//! name to the names under which the icon is known.

use crate::casing::{cased, to_case, Style};
use crate::text::{append, chars_of, position, slice, string_of};
use crate::text::first_index;
use vstd::prelude::*;
use vstd::utf8::is_ascii_chars;

verus! {

/// Why no identity can be derived.
#[derive(Debug, Clone, Copy, PartialEq, Eq, Structural)]
pub enum NamingError {
    /// The prefix or the file's stem holds a character outside ASCII.
    NotAscii,
    /// One of the derived names is no identifier.
    NotAnIdentifier,
}

/// The names of one icon.
pub struct SymbolIdentity {
    /// The icon's variant in the registry's enumeration, which is also the
    /// name of its feature flag.
    pub variant_name: String,
    /// The name of the icon's callable.
    pub symbol_name: String,
    /// The collection's namespace and the callable's name, joined by `/`.
    pub unit_path: String,
}

/// What a [`SymbolIdentity`] holds, as plain text.
pub struct IdentityView {
    pub variant_name: Seq<char>,
    pub symbol_name: Seq<char>,
    pub unit_path: Seq<char>,
}

impl View for SymbolIdentity {
    type V = IdentityView;

    open spec fn view(&self) -> IdentityView {
        IdentityView {
            variant_name: self.variant_name@,
            symbol_name: self.symbol_name@,
            unit_path: self.unit_path@,
        }
    }
}

/// A letter of ASCII or an underscore.
pub open spec fn is_identifier_start(c: char) -> bool {
    c == '_' || ('a' <= c && c <= 'z') || ('A' <= c && c <= 'Z')
}

/// A letter or a digit of ASCII, or an underscore.
pub open spec fn is_identifier_part(c: char) -> bool {
    is_identifier_start(c) || ('0' <= c && c <= '9')
}

/// `text` is an identifier of ASCII: a letter or an underscore, followed by
/// letters, digits and underscores.
pub open spec fn is_identifier(text: Seq<char>) -> bool {
    &&& text.len() > 0
    &&& is_identifier_start(text[0])
    &&& forall|i: int| 0 < i < text.len() ==> is_identifier_part(#[trigger] text[i])
}

/// The stem of a file name: what stands before its first dot.
pub open spec fn stem(file_name: Seq<char>) -> Seq<char> {
    file_name.take(first_index(file_name, '.'))
}

/// The name from which an icon's names are derived: the prefix, a hyphen and
/// the stem.
pub open spec fn qualified_name(prefix: Seq<char>, file_name: Seq<char>) -> Seq<char> {
    prefix + "-"@ + stem(file_name)
}

/// The namespace of a collection, which is also the name of its feature
/// flag: the prefix in snake case.
pub open spec fn namespace_of(prefix: Seq<char>) -> Seq<char> {
    cased(prefix, Style::Snake)
}

/// The names that [`derive`] gives an icon, apart from the checks it makes.
pub open spec fn identity_of(prefix: Seq<char>, file_name: Seq<char>) -> IdentityView {
    let name = qualified_name(prefix, file_name);
    IdentityView {
        variant_name: cased(name, Style::UpperCamel),
        symbol_name: cased(name, Style::Snake),
        unit_path: namespace_of(prefix) + "/"@ + cased(name, Style::Snake),
    }
}

/// What [`derive`] returns.
pub open spec fn derived(prefix: Seq<char>, file_name: Seq<char>) -> Result<
    IdentityView,
    NamingError,
> {
    let identity = identity_of(prefix, file_name);
    if !is_ascii_chars(prefix) || !is_ascii_chars(stem(file_name)) {
        Err(NamingError::NotAscii)
    } else if !is_identifier(namespace_of(prefix)) || !is_identifier(identity.variant_name)
        || !is_identifier(identity.symbol_name) {
        Err(NamingError::NotAnIdentifier)
    } else {
        Ok(identity)
    }
}

/// What [`collection_flag`] returns.
pub open spec fn flag_of(prefix: Seq<char>) -> Result<Seq<char>, NamingError> {
    if !is_ascii_chars(prefix) {
        Err(NamingError::NotAscii)
    } else if !is_identifier(namespace_of(prefix)) {
        Err(NamingError::NotAnIdentifier)
    } else {
        Ok(namespace_of(prefix))
    }
}

/// Tells whether `text` is an identifier of ASCII.
pub fn check_identifier(text: &Vec<char>) -> (r: bool)
    ensures
        r == is_identifier(text@),
{
    if text.len() == 0 {
        return false;
    }
    let first = text[0];
    if !(first == '_' || ('a' <= first && first <= 'z') || ('A' <= first && first <= 'Z')) {
        return false;
    }
    let mut i: usize = 1;
    while i < text.len()
        invariant
            1 <= i <= text.len(),
            forall|j: int| 0 < j < i ==> is_identifier_part(#[trigger] text@[j]),
        decreases text.len() - i,
    {
        let c = text[i];
        if !(c == '_' || ('a' <= c && c <= 'z') || ('A' <= c && c <= 'Z') || ('0' <= c && c
            <= '9')) {
            return false;
        }
        i += 1;
    }
    true
}

/// The stem of a file name.
pub fn stem_of(file_name: &Vec<char>) -> (r: Vec<char>)
    ensures
        r@ == stem(file_name@),
{
    let at = match position(file_name, '.') {
        Some(at) => at,
        None => file_name.len(),
    };
    slice(file_name, 0, at)
}

/// The feature flag of a collection, which is also its namespace.
pub fn collection_flag(prefix: &str) -> (r: Result<String, NamingError>)
    ensures
        match r {
            Ok(flag) => flag_of(prefix@) == Ok::<Seq<char>, NamingError>(flag@),
            Err(error) => flag_of(prefix@) == Err::<Seq<char>, NamingError>(error),
        },
{
    if !prefix.is_ascii() {
        return Err(NamingError::NotAscii);
    }
    let flag = to_case(prefix, Style::Snake);
    if check_identifier(&chars_of(flag.as_str())) {
        Ok(flag)
    } else {
        Err(NamingError::NotAnIdentifier)
    }
}

/// Derives the names of the icon in `file_name` of the collection with the
/// given prefix. The result depends on the two texts alone.
pub fn derive(prefix: &str, file_name: &str) -> (r: Result<SymbolIdentity, NamingError>)
    ensures
        match r {
            Ok(identity) => derived(prefix@, file_name@) == Ok::<IdentityView, NamingError>(
                identity@,
            ),
            Err(error) => derived(prefix@, file_name@) == Err::<IdentityView, NamingError>(error),
        },
{
    let stem = string_of(&stem_of(&chars_of(file_name)));
    if !prefix.is_ascii() || !stem.as_str().is_ascii() {
        return Err(NamingError::NotAscii);
    }
    let mut name = chars_of(prefix);
    append(&mut name, &chars_of("-"));
    append(&mut name, &chars_of(stem.as_str()));
    let name = string_of(&name);
    proof {
        lemma_qualified_name_is_ascii(prefix@, file_name@);
    }
    let namespace = to_case(prefix, Style::Snake);
    let variant_name = to_case(name.as_str(), Style::UpperCamel);
    let symbol_name = to_case(name.as_str(), Style::Snake);
    if !check_identifier(&chars_of(namespace.as_str())) || !check_identifier(
        &chars_of(variant_name.as_str()),
    ) || !check_identifier(&chars_of(symbol_name.as_str())) {
        return Err(NamingError::NotAnIdentifier);
    }
    let mut unit_path = chars_of(namespace.as_str());
    append(&mut unit_path, &chars_of("/"));
    append(&mut unit_path, &chars_of(symbol_name.as_str()));
    Ok(SymbolIdentity { variant_name, symbol_name, unit_path: string_of(&unit_path) })
}

/// Deriving is deterministic: what [`derive`] returns is a function of the
/// prefix and the file name alone, so the same two texts give the same names,
/// or the same refusal, at every call.
pub proof fn lemma_derive_is_deterministic(
    prefix: Seq<char>,
    file_name: Seq<char>,
    prefix_again: Seq<char>,
    file_name_again: Seq<char>,
)
    requires
        prefix_again == prefix,
        file_name_again == file_name,
    ensures
        derived(prefix_again, file_name_again) == derived(prefix, file_name),
{
}

/// A prefix and a stem of ASCII make a qualified name of ASCII.
pub proof fn lemma_qualified_name_is_ascii(prefix: Seq<char>, file_name: Seq<char>)
    requires
        is_ascii_chars(prefix),
        is_ascii_chars(stem(file_name)),
    ensures
        is_ascii_chars(qualified_name(prefix, file_name)),
{
    reveal_strlit("-");
    let name = qualified_name(prefix, file_name);
    assert forall|i: int| 0 <= i < name.len() implies '\0' <= #[trigger] name[i] <= '\u{7f}' by {
        if i < prefix.len() {
            assert(name[i] == prefix[i]);
        } else if i == prefix.len() {
            assert(name[i] == '-');
        } else {
            assert(name[i] == stem(file_name)[i - prefix.len() - 1]);
        }
    }
}

} // verus!
