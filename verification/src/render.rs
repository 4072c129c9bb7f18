//! The text of what a run writes: the module of each collection, the unit of
//! the registry, the lines of the feature manifest and the diagnostics.

use crate::collection::{CollectionView, CompiledCollection, Failure, PipelineError};
use crate::compile::CompiledView;
use crate::identity::NamingError;
use crate::normalize::MarkupError;
use crate::registry::{arm_views, feature_views, inclusion_views, texts};
use crate::registry::{ArmView, DispatchArm, Feature, FeatureView, InclusionView, Inclusion, Registry};
use crate::registry::RegistryView;
use vstd::prelude::*;

verus! {

/// What opens the attribute that binds an item to a feature.
pub const FLAG_OPEN: &'static str = "#[cfg(feature = \"";

/// What closes the attribute that binds an item to a feature.
pub const FLAG_CLOSE: &'static str = "\")]\n";

/// What opens the enumeration of the variants.
pub const ENUM_HEAD: &'static str =
    "/// Identifies which icon to render. Variants are all disabled by default, but can be\n/// enabled by adding the feature flag of the same name.\n#[derive(Copy, Clone, Eq, PartialEq, Debug)]\n#[cfg_attr(feature = \"iterate_icon_id\", derive(enum_iterator::IntoEnumIterator))]\n#[non_exhaustive]\npub enum IconId {\n";

/// What closes the enumeration and opens the dispatch.
pub const DISPATCH_HEAD: &'static str =
    "}\n\n/// Helper function to get SVG HTML. Made public just in case you don't want the overhead\n/// of a component.\npub fn get_svg(props: &crate::IconProps) -> yew::Html {\n    match props.icon_id {\n";

/// What closes the dispatch.
pub const DISPATCH_TAIL: &'static str = "    }\n}\n\n";

/// The note that stands at the head of every formatted unit.
pub const ORIGIN_NOTE: &'static str = "Generated file, do not edit by hand, see `src/generator.rs`";

/// A formatted unit with the note before it: as a plain comment where the
/// unit is included in another, as the unit's own documentation otherwise.
pub open spec fn noted(formatted: Seq<char>, included: bool) -> Seq<char> {
    (if included {
        "//"@
    } else {
        "//!"@
    }) + " "@ + ORIGIN_NOTE@ + "\n\n"@ + formatted
}

/// The parts, one after the other.
pub open spec fn concatenated(parts: Seq<Seq<char>>) -> Seq<char>
    decreases parts.len(),
{
    if parts.len() == 0 {
        Seq::empty()
    } else {
        concatenated(parts.drop_last()) + parts.last()
    }
}

/// The parts, with the separator between each two.
pub open spec fn joined(parts: Seq<Seq<char>>, separator: Seq<char>) -> Seq<char>
    decreases parts.len(),
{
    if parts.len() == 0 {
        Seq::empty()
    } else if parts.len() == 1 {
        parts[0]
    } else {
        joined(parts.drop_last(), separator) + separator + parts.last()
    }
}

/// A name between double quotes.
pub open spec fn quoted(name: Seq<char>) -> Seq<char> {
    "\""@ + name + "\""@
}

/// The names, each between double quotes, separated by a comma and a space.
pub open spec fn quoted_list(names: Seq<Seq<char>>) -> Seq<char> {
    joined(names.map_values(|name: Seq<char>| quoted(name)), ", "@)
}

/// The line of the manifest that defines a feature: its name, an equals sign
/// and the list of its members in square brackets.
pub open spec fn manifest_line(feature: FeatureView) -> Seq<char> {
    feature.name + " = ["@ + quoted_list(feature.members) + "]"@
}

/// The lines of the manifest, one for each grouping, in the registry's order.
pub open spec fn manifest_of(registry: RegistryView) -> Seq<Seq<char>> {
    registry.groupings.map_values(|feature: FeatureView| manifest_line(feature))
}

/// The declaration of one icon's module, bound to the icon's flag.
pub open spec fn module_entry(asset: CompiledView) -> Seq<char> {
    FLAG_OPEN@ + asset.identity.variant_name + FLAG_CLOSE@ + "pub mod "@
        + asset.identity.symbol_name + ";\n"@
}

/// The module of a collection: the declarations of its icons' modules.
pub open spec fn module_source_of(collection: CollectionView) -> Seq<char> {
    concatenated(collection.assets.map_values(|asset: CompiledView| module_entry(asset)))
}

/// One variant of the enumeration, bound to the flag of its name.
pub open spec fn variant_entry(name: Seq<char>) -> Seq<char> {
    "    "@ + FLAG_OPEN@ + name + FLAG_CLOSE@ + "    "@ + name + ",\n"@
}

/// One arm of the dispatch, bound to the variant's flag: the variant goes to
/// the callable in the module of its name, in the module of its collection.
pub open spec fn arm_entry(arm: ArmView) -> Seq<char> {
    "        "@ + FLAG_OPEN@ + arm.variant + FLAG_CLOSE@ + "        IconId::"@ + arm.variant
        + " => "@ + arm.module + "::"@ + arm.symbol + "::"@ + arm.symbol + "(props),\n"@
}

/// The condition that one of the members is enabled.
pub open spec fn any_of(members: Seq<Seq<char>>) -> Seq<char> {
    joined(members.map_values(|name: Seq<char>| "feature = "@ + quoted(name)), ", "@)
}

/// The declaration of a collection's module, compiled in where one of its
/// members is enabled.
pub open spec fn inclusion_entry(inclusion: InclusionView) -> Seq<char> {
    "#[cfg(any("@ + any_of(inclusion.members) + "))]\nmod "@ + inclusion.module + ";\n"@
}

/// The unit of the registry: the enumeration of the variants, the dispatch
/// and the declarations of the collections' modules.
pub open spec fn registry_source_of(registry: RegistryView) -> Seq<char> {
    ENUM_HEAD@ + concatenated(registry.variants.map_values(|name: Seq<char>| variant_entry(name)))
        + DISPATCH_HEAD@ + concatenated(registry.arms.map_values(|arm: ArmView| arm_entry(arm)))
        + DISPATCH_TAIL@ + concatenated(
        registry.inclusions.map_values(|inclusion: InclusionView| inclusion_entry(inclusion)),
    )
}

/// What is wrong with a markup, in words.
pub open spec fn markup_reason(reason: MarkupError) -> Seq<char> {
    match reason {
        MarkupError::ExistingTitle => "the markup already holds a title attribute"@,
        MarkupError::ExistingClass => "the markup still holds a class attribute"@,
        MarkupError::UnclosedRootTag => "the root tag is not closed"@,
        MarkupError::RootTagTooShort => "the root tag is too short"@,
        MarkupError::Unparsable => "the fragment cannot be read as template tokens"@,
    }
}

/// What is wrong with a name, in words.
pub open spec fn naming_reason(error: NamingError) -> Seq<char> {
    match error {
        NamingError::NotAscii => "the name holds a character outside ASCII"@,
        NamingError::NotAnIdentifier => "the name gives no identifier"@,
    }
}

/// The diagnostic of a failure: the path or the name at fault, and what is
/// wrong with it.
pub open spec fn message_of(failure: Failure) -> Seq<char> {
    match failure {
        Failure::Collection { prefix, error } => prefix + ": "@ + naming_reason(error),
        Failure::Extension { path } => path + ": "@ + "the file is no icon file"@,
        Failure::Markup { path, reason } => path + ": "@ + markup_reason(reason),
        Failure::Naming { path, error } => path + ": "@ + naming_reason(error),
        Failure::Collision { variant_name } => variant_name + ": "@
            + "two icons bear this variant name"@,
        Failure::SymbolCollision { slot } => slot + ": "@ + "two icons go to this unit"@,
    }
}

/// Puts the note before a formatted unit.
pub fn with_note(formatted: &str, included: bool) -> (r: String)
    ensures
        r@ == noted(formatted@, included),
{
    let mut out = String::from_str(if included {
        "//"
    } else {
        "//!"
    });
    out.append(" ");
    out.append(ORIGIN_NOTE);
    out.append("\n\n");
    out.append(formatted);
    out
}

/// Puts the parts one after the other.
pub fn concat_all(parts: &Vec<String>) -> (r: String)
    ensures
        r@ == concatenated(texts(parts@)),
{
    let mut out = String::new();
    let mut i: usize = 0;
    assert(texts(parts@).take(0) =~= Seq::<Seq<char>>::empty());
    while i < parts.len()
        invariant
            i <= parts.len(),
            out@ == concatenated(texts(parts@).take(i as int)),
        decreases parts.len() - i,
    {
        out.append(parts[i].as_str());
        assert(texts(parts@).take(i + 1).drop_last() =~= texts(parts@).take(i as int));
        i += 1;
    }
    assert(texts(parts@).take(i as int) =~= texts(parts@));
    out
}

/// Puts the parts one after the other, with the separator between each two.
pub fn join(parts: &Vec<String>, separator: &str) -> (r: String)
    ensures
        r@ == joined(texts(parts@), separator@),
{
    let mut out = String::new();
    let mut i: usize = 0;
    assert(texts(parts@).take(0) =~= Seq::<Seq<char>>::empty());
    while i < parts.len()
        invariant
            i <= parts.len(),
            out@ == joined(texts(parts@).take(i as int), separator@),
        decreases parts.len() - i,
    {
        if i > 0 {
            out.append(separator);
        }
        out.append(parts[i].as_str());
        assert(texts(parts@).take(i + 1).drop_last() =~= texts(parts@).take(i as int));
        i += 1;
    }
    assert(texts(parts@).take(i as int) =~= texts(parts@));
    out
}

/// Puts a name between double quotes.
pub fn quote(name: &str) -> (r: String)
    ensures
        r@ == quoted(name@),
{
    let mut out = String::from_str("\"");
    out.append(name);
    out.append("\"");
    out
}

/// Writes the names between double quotes, separated by a comma and a space.
pub fn quote_list(names: &Vec<String>) -> (r: String)
    ensures
        r@ == quoted_list(texts(names@)),
{
    let ghost wanted = texts(names@).map_values(|name: Seq<char>| quoted(name));
    let mut parts: Vec<String> = Vec::new();
    let mut i: usize = 0;
    while i < names.len()
        invariant
            i <= names.len(),
            wanted == texts(names@).map_values(|name: Seq<char>| quoted(name)),
            texts(parts@) == wanted.take(i as int),
        decreases names.len() - i,
    {
        let ghost before = texts(parts@);
        let part = quote(names[i].as_str());
        parts.push(part);
        assert(texts(parts@) =~= before.push(part@));
        assert(wanted.take(i + 1) =~= wanted.take(i as int).push(wanted[i as int]));
        i += 1;
    }
    assert(wanted.take(i as int) =~= wanted);
    join(&parts, ", ")
}

/// Writes the condition that one of the members is enabled.
pub fn any_feature(members: &Vec<String>) -> (r: String)
    ensures
        r@ == any_of(texts(members@)),
{
    let ghost wanted = texts(members@).map_values(|name: Seq<char>| "feature = "@ + quoted(name));
    let mut parts: Vec<String> = Vec::new();
    let mut i: usize = 0;
    while i < members.len()
        invariant
            i <= members.len(),
            wanted == texts(members@).map_values(|name: Seq<char>| "feature = "@ + quoted(name)),
            texts(parts@) == wanted.take(i as int),
        decreases members.len() - i,
    {
        let ghost before = texts(parts@);
        let mut part = String::from_str("feature = ");
        part.append(quote(members[i].as_str()).as_str());
        parts.push(part);
        assert(texts(parts@) =~= before.push(part@));
        assert(wanted.take(i + 1) =~= wanted.take(i as int).push(wanted[i as int]));
        i += 1;
    }
    assert(wanted.take(i as int) =~= wanted);
    join(&parts, ", ")
}

impl Feature {
    /// The line of the manifest that defines the feature.
    pub fn line(&self) -> (r: String)
        ensures
            r@ == manifest_line(self@),
    {
        let mut out = self.name.clone();
        out.append(" = [");
        out.append(quote_list(&self.members).as_str());
        out.append("]");
        out
    }
}

impl DispatchArm {
    /// The arm, as source text.
    pub fn entry(&self) -> (r: String)
        ensures
            r@ == arm_entry(self@),
    {
        let mut out = String::from_str("        ");
        out.append(FLAG_OPEN);
        out.append(self.variant.as_str());
        out.append(FLAG_CLOSE);
        out.append("        IconId::");
        out.append(self.variant.as_str());
        out.append(" => ");
        out.append(self.module.as_str());
        out.append("::");
        out.append(self.symbol.as_str());
        out.append("::");
        out.append(self.symbol.as_str());
        out.append("(props),\n");
        out
    }
}

impl Inclusion {
    /// The declaration of the module, as source text.
    pub fn entry(&self) -> (r: String)
        ensures
            r@ == inclusion_entry(self@),
    {
        let mut out = String::from_str("#[cfg(any(");
        out.append(any_feature(&self.members).as_str());
        out.append("))]\nmod ");
        out.append(self.module.as_str());
        out.append(";\n");
        out
    }
}

/// One variant of the enumeration, as source text.
pub fn write_variant(name: &str) -> (r: String)
    ensures
        r@ == variant_entry(name@),
{
    let mut out = String::from_str("    ");
    out.append(FLAG_OPEN);
    out.append(name);
    out.append(FLAG_CLOSE);
    out.append("    ");
    out.append(name);
    out.append(",\n");
    out
}

impl CompiledCollection {
    /// The source text of the collection's module.
    pub fn module_source(&self) -> (r: String)
        ensures
            r@ == module_source_of(self@),
    {
        let ghost wanted = self@.assets.map_values(|asset: CompiledView| module_entry(asset));
        let mut parts: Vec<String> = Vec::new();
        let mut i: usize = 0;
        while i < self.assets.len()
            invariant
                i <= self.assets.len(),
                wanted == self@.assets.map_values(|asset: CompiledView| module_entry(asset)),
                texts(parts@) == wanted.take(i as int),
            decreases self.assets.len() - i,
        {
            let ghost before = texts(parts@);
            let mut part = String::from_str(FLAG_OPEN);
            part.append(self.assets[i].identity.variant_name.as_str());
            part.append(FLAG_CLOSE);
            part.append("pub mod ");
            part.append(self.assets[i].identity.symbol_name.as_str());
            part.append(";\n");
            parts.push(part);
            assert(texts(parts@) =~= before.push(part@));
            assert(wanted.take(i + 1) =~= wanted.take(i as int).push(wanted[i as int]));
            i += 1;
        }
        assert(wanted.take(i as int) =~= wanted);
        concat_all(&parts)
    }
}

impl Registry {
    /// The lines of the feature manifest, one for each grouping, in order.
    pub fn manifest(&self) -> (r: Vec<String>)
        ensures
            texts(r@) == manifest_of(self@),
    {
        let ghost wanted = manifest_of(self@);
        let mut lines: Vec<String> = Vec::new();
        let mut i: usize = 0;
        while i < self.groupings.len()
            invariant
                i <= self.groupings.len(),
                wanted == manifest_of(self@),
                texts(lines@) == wanted.take(i as int),
            decreases self.groupings.len() - i,
        {
            let ghost before = texts(lines@);
            let line = self.groupings[i].line();
            lines.push(line);
            assert(texts(lines@) =~= before.push(line@));
            assert(wanted.take(i + 1) =~= wanted.take(i as int).push(wanted[i as int]));
            i += 1;
        }
        assert(wanted.take(i as int) =~= wanted);
        lines
    }

    /// The source text of the registry's unit.
    pub fn source(&self) -> (r: String)
        ensures
            r@ == registry_source_of(self@),
    {
        let ghost variants = self@.variants.map_values(|name: Seq<char>| variant_entry(name));
        let ghost arms = self@.arms.map_values(|arm: ArmView| arm_entry(arm));
        let ghost inclusions = self@.inclusions.map_values(|inclusion: InclusionView| inclusion_entry(inclusion));
        let mut variant_parts: Vec<String> = Vec::new();
        let mut i: usize = 0;
        while i < self.variants.len()
            invariant
                i <= self.variants.len(),
                variants == self@.variants.map_values(|name: Seq<char>| variant_entry(name)),
                texts(variant_parts@) == variants.take(i as int),
            decreases self.variants.len() - i,
        {
            let ghost before = texts(variant_parts@);
            let part = write_variant(self.variants[i].as_str());
            variant_parts.push(part);
            assert(texts(variant_parts@) =~= before.push(part@));
            assert(variants.take(i + 1) =~= variants.take(i as int).push(variants[i as int]));
            i += 1;
        }
        assert(variants.take(i as int) =~= variants);
        let mut arm_parts: Vec<String> = Vec::new();
        let mut j: usize = 0;
        while j < self.arms.len()
            invariant
                j <= self.arms.len(),
                arms == self@.arms.map_values(|arm: ArmView| arm_entry(arm)),
                texts(arm_parts@) == arms.take(j as int),
            decreases self.arms.len() - j,
        {
            let ghost before = texts(arm_parts@);
            let part = self.arms[j].entry();
            arm_parts.push(part);
            assert(texts(arm_parts@) =~= before.push(part@));
            assert(arms.take(j + 1) =~= arms.take(j as int).push(arms[j as int]));
            j += 1;
        }
        assert(arms.take(j as int) =~= arms);
        let mut inclusion_parts: Vec<String> = Vec::new();
        let mut k: usize = 0;
        while k < self.inclusions.len()
            invariant
                k <= self.inclusions.len(),
                inclusions == self@.inclusions.map_values(|inclusion: InclusionView| inclusion_entry(inclusion)),
                texts(inclusion_parts@) == inclusions.take(k as int),
            decreases self.inclusions.len() - k,
        {
            let ghost before = texts(inclusion_parts@);
            let part = self.inclusions[k].entry();
            inclusion_parts.push(part);
            assert(texts(inclusion_parts@) =~= before.push(part@));
            assert(inclusions.take(k + 1) =~= inclusions.take(k as int).push(inclusions[k as int]));
            k += 1;
        }
        assert(inclusions.take(k as int) =~= inclusions);
        let mut out = String::from_str(ENUM_HEAD);
        out.append(concat_all(&variant_parts).as_str());
        out.append(DISPATCH_HEAD);
        out.append(concat_all(&arm_parts).as_str());
        out.append(DISPATCH_TAIL);
        out.append(concat_all(&inclusion_parts).as_str());
        out
    }
}

impl MarkupError {
    /// What is wrong with the markup, in words.
    pub fn reason(&self) -> (r: &'static str)
        ensures
            r@ == markup_reason(*self),
    {
        match self {
            MarkupError::ExistingTitle => "the markup already holds a title attribute",
            MarkupError::ExistingClass => "the markup still holds a class attribute",
            MarkupError::UnclosedRootTag => "the root tag is not closed",
            MarkupError::RootTagTooShort => "the root tag is too short",
            MarkupError::Unparsable => "the fragment cannot be read as template tokens",
        }
    }
}

impl NamingError {
    /// What is wrong with the name, in words.
    pub fn reason(&self) -> (r: &'static str)
        ensures
            r@ == naming_reason(*self),
    {
        match self {
            NamingError::NotAscii => "the name holds a character outside ASCII",
            NamingError::NotAnIdentifier => "the name gives no identifier",
        }
    }
}

impl PipelineError {
    /// The diagnostic: the path or the name at fault, and what is wrong with
    /// it.
    pub fn message(&self) -> (r: String)
        ensures
            r@ == message_of(self@),
    {
        match self {
            PipelineError::Collection { prefix, error } => {
                let mut out = prefix.clone();
                out.append(": ");
                out.append(error.reason());
                out
            },
            PipelineError::Extension { path } => {
                let mut out = path.clone();
                out.append(": ");
                out.append("the file is no icon file");
                out
            },
            PipelineError::Markup { path, reason } => {
                let mut out = path.clone();
                out.append(": ");
                out.append(reason.reason());
                out
            },
            PipelineError::Naming { path, error } => {
                let mut out = path.clone();
                out.append(": ");
                out.append(error.reason());
                out
            },
            PipelineError::Collision { variant_name } => {
                let mut out = variant_name.clone();
                out.append(": ");
                out.append("two icons bear this variant name");
                out
            },
            PipelineError::SymbolCollision { slot } => {
                let mut out = slot.clone();
                out.append(": ");
                out.append("two icons go to this unit");
                out
            },
        }
    }
}

} // verus!
