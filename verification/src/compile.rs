//! The asset compiler: one icon's names and fragment become the definition of
//! the callable that renders it.

use crate::identity::{IdentityView, SymbolIdentity};
use crate::normalize::{FragmentView, NormalizedFragment};
use vstd::prelude::*;

verus! {

/// What stands before the callable's name.
pub const UNIT_HEAD: &'static str = "use crate::IconProps;\n\n#[inline(never)]\npub fn ";

/// The callable's parameter, a bundle whose fields the fragment's template
/// parameters are bound to, and what opens its body.
pub const UNIT_SIGNATURE: &'static str =
    "(IconProps { icon_id: _, title, width, height, onclick, oncontextmenu, class, style }: &IconProps) -> yew::Html {\n    yew::html! {\n        ";

/// What closes the callable's body.
pub const UNIT_TAIL: &'static str = "\n    }\n}\n";

/// One icon, ready to be written: its names and the definition of its
/// callable. The callable is compiled in where the feature named after the
/// icon's variant is enabled.
pub struct CompiledAsset {
    /// The icon's names.
    pub identity: SymbolIdentity,
    /// The source text of the callable's definition.
    pub source: String,
}

/// What a [`CompiledAsset`] holds, as plain text.
pub struct CompiledView {
    pub identity: IdentityView,
    pub source: Seq<char>,
}

impl View for CompiledAsset {
    type V = CompiledView;

    open spec fn view(&self) -> CompiledView {
        CompiledView { identity: self.identity@, source: self.source@ }
    }
}

/// The definition of the callable named `symbol_name` that renders `markup`.
pub open spec fn unit_source(symbol_name: Seq<char>, markup: Seq<char>) -> Seq<char> {
    UNIT_HEAD@ + symbol_name + UNIT_SIGNATURE@ + markup + UNIT_TAIL@
}

/// What [`compile`] makes of an icon's names and fragment.
pub open spec fn compiled(identity: IdentityView, fragment: FragmentView) -> CompiledView {
    CompiledView { identity, source: unit_source(identity.symbol_name, fragment.markup()) }
}

/// Compiles one icon: wraps its fragment in the definition of a callable that
/// bears its symbol name.
pub fn compile(identity: SymbolIdentity, fragment: &NormalizedFragment) -> (r: CompiledAsset)
    ensures
        r@ == compiled(identity@, fragment@),
{
    let mut source = String::from_str(UNIT_HEAD);
    source.append(identity.symbol_name.as_str());
    source.append(UNIT_SIGNATURE);
    source.append(fragment.text().as_str());
    source.append(UNIT_TAIL);
    CompiledAsset { identity, source }
}

} // verus!
