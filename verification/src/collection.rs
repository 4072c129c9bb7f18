//! The collection processor: the assets of one collection are put in order
//! and compiled one by one, and the first failure ends the run.

use crate::compile::{compile, compiled, CompiledAsset, CompiledView};
use crate::identity::{collection_flag, derived, flag_of, NamingError};
use crate::normalize::{normalized, MarkupError, Normalizer};
use crate::order::{by_name, distinct_by, sort_by_name, sorted_by, Named};
use crate::order::lemma_sorted_ignores_given_order;
use crate::text::{chars_of, ends_with, has_suffix};
use vstd::prelude::*;

verus! {

/// The extension by which an icon file is recognized.
pub const EXTENSION: &'static str = ".svg";

/// A named source of icons that share a license and a prefix.
pub struct IconCollection {
    /// The name from which the collection's namespace and the names of its
    /// icons are derived.
    pub prefix: String,
    /// Where the collection's files lie.
    pub source_directory: String,
    /// The license under which the icons are used.
    pub license_text: String,
}

/// One raw icon.
pub struct IconAsset {
    /// The name of the icon's file, without its directory.
    pub file_name: String,
    /// The contents of the file.
    pub raw_markup: String,
}

impl Named for IconAsset {
    open spec fn name(&self) -> Seq<char> {
        self.file_name@
    }

    fn name_text(&self) -> (r: &str) {
        self.file_name.as_str()
    }
}

/// The compiled icons of one collection, in the order of their file names.
pub struct CompiledCollection {
    /// The collection's feature flag, which is also its namespace.
    pub flag: String,
    /// The icons.
    pub assets: Vec<CompiledAsset>,
}

/// What a [`CompiledCollection`] holds, as plain text.
pub struct CollectionView {
    pub flag: Seq<char>,
    pub assets: Seq<CompiledView>,
}

/// The views of compiled icons.
pub open spec fn asset_views(assets: Seq<CompiledAsset>) -> Seq<CompiledView> {
    assets.map_values(|asset: CompiledAsset| asset@)
}

impl View for CompiledCollection {
    type V = CollectionView;

    open spec fn view(&self) -> CollectionView {
        CollectionView { flag: self.flag@, assets: asset_views(self.assets@) }
    }
}

/// Why a run ends without a registry.
#[derive(Debug)]
pub enum PipelineError {
    /// No feature flag can be derived from a collection's prefix.
    Collection { prefix: String, error: NamingError },
    /// A file does not bear the extension of an icon file.
    Extension { path: String },
    /// A file's markup is refused.
    Markup { path: String, reason: MarkupError },
    /// No names can be derived for a file.
    Naming { path: String, error: NamingError },
    /// Two icons have the same variant name.
    Collision { variant_name: String },
    /// Two icons of one module have the same symbol name, so that their
    /// units would be written to the same slot.
    SymbolCollision { slot: String },
}

/// What a [`PipelineError`] holds, as plain text.
pub enum Failure {
    Collection { prefix: Seq<char>, error: NamingError },
    Extension { path: Seq<char> },
    Markup { path: Seq<char>, reason: MarkupError },
    Naming { path: Seq<char>, error: NamingError },
    Collision { variant_name: Seq<char> },
    SymbolCollision { slot: Seq<char> },
}

impl View for PipelineError {
    type V = Failure;

    open spec fn view(&self) -> Failure {
        match *self {
            PipelineError::Collection { prefix, error } => Failure::Collection {
                prefix: prefix@,
                error,
            },
            PipelineError::Extension { path } => Failure::Extension { path: path@ },
            PipelineError::Markup { path, reason } => Failure::Markup { path: path@, reason },
            PipelineError::Naming { path, error } => Failure::Naming { path: path@, error },
            PipelineError::Collision { variant_name } => Failure::Collision {
                variant_name: variant_name@,
            },
            PipelineError::SymbolCollision { slot } => Failure::SymbolCollision { slot: slot@ },
        }
    }
}

/// Whether a file name bears the extension of an icon file.
pub open spec fn is_icon_name(file_name: Seq<char>) -> bool {
    has_suffix(file_name, EXTENSION@)
}

/// The path of a file of a collection: the directory, a slash and the file's
/// name.
pub open spec fn path_of(collection: IconCollection, asset: IconAsset) -> Seq<char> {
    collection.source_directory@ + "/"@ + asset.file_name@
}

/// What compiling one asset gives. The extension is looked at first, then
/// the markup, then the names.
pub open spec fn compiled_asset(collection: IconCollection, asset: IconAsset) -> Result<
    CompiledView,
    Failure,
> {
    let path = path_of(collection, asset);
    if !is_icon_name(asset.file_name@) {
        Err(Failure::Extension { path })
    } else {
        match normalized(asset.raw_markup@, collection.license_text@) {
            Err(reason) => Err(Failure::Markup { path, reason }),
            Ok(fragment) => match derived(collection.prefix@, asset.file_name@) {
                Err(error) => Err(Failure::Naming { path, error }),
                Ok(identity) => Ok(compiled(identity, fragment)),
            },
        }
    }
}

/// What compiling the first `count` of `assets` in turn gives: the compiled
/// icons, or the first failure.
pub open spec fn compiled_upto(collection: IconCollection, assets: Seq<IconAsset>, count: int)
    -> Result<Seq<CompiledView>, Failure>
    decreases count,
{
    if count <= 0 {
        Ok(Seq::empty())
    } else {
        match compiled_upto(collection, assets, count - 1) {
            Err(failure) => Err(failure),
            Ok(done) => match compiled_asset(collection, assets[count - 1]) {
                Err(failure) => Err(failure),
                Ok(asset) => Ok(done.push(asset)),
            },
        }
    }
}

/// What [`process`] returns.
pub open spec fn processed(collection: IconCollection, assets: Seq<IconAsset>) -> Result<
    CollectionView,
    Failure,
> {
    let sorted = sorted_by(assets, by_name::<IconAsset>());
    match flag_of(collection.prefix@) {
        Err(error) => Err(Failure::Collection { prefix: collection.prefix@, error }),
        Ok(flag) => match compiled_upto(collection, sorted, sorted.len() as int) {
            Err(failure) => Err(failure),
            Ok(compiled) => Ok(CollectionView { flag, assets: compiled }),
        },
    }
}

/// Tells whether a file name bears the extension of an icon file. A file
/// that does not is refused before its contents are looked at.
pub fn is_icon_file(file_name: &str) -> (r: bool)
    ensures
        r == is_icon_name(file_name@),
{
    ends_with(&chars_of(file_name), &chars_of(EXTENSION))
}

/// The path of a file of a collection.
pub fn path(collection: &IconCollection, asset: &IconAsset) -> (r: String)
    ensures
        r@ == path_of(*collection, *asset),
{
    let mut path = collection.source_directory.clone();
    path.append("/");
    path.append(asset.file_name.as_str());
    path
}

/// Compiles one asset of a collection.
pub fn compile_asset(normalizer: &Normalizer, collection: &IconCollection, asset: &IconAsset) -> (r:
    Result<CompiledAsset, PipelineError>)
    ensures
        match r {
            Ok(done) => compiled_asset(*collection, *asset) == Ok::<CompiledView, Failure>(done@),
            Err(error) => compiled_asset(*collection, *asset) == Err::<CompiledView, Failure>(
                error@,
            ),
        },
{
    if !is_icon_file(asset.file_name.as_str()) {
        return Err(PipelineError::Extension { path: path(collection, asset) });
    }
    let fragment = match normalizer.normalize(
        asset.raw_markup.as_str(),
        collection.license_text.as_str(),
    ) {
        Err(reason) => {
            return Err(PipelineError::Markup { path: path(collection, asset), reason });
        },
        Ok(fragment) => fragment,
    };
    match crate::identity::derive(collection.prefix.as_str(), asset.file_name.as_str()) {
        Err(error) => Err(PipelineError::Naming { path: path(collection, asset), error }),
        Ok(identity) => Ok(compile(identity, &fragment)),
    }
}

/// Processes one collection: sorts its assets by file name and compiles them
/// in that order. The first asset that fails ends the run.
pub fn process(normalizer: &Normalizer, collection: &IconCollection, assets: Vec<IconAsset>) -> (r:
    Result<CompiledCollection, PipelineError>)
    ensures
        match r {
            Ok(done) => processed(*collection, assets@) == Ok::<CollectionView, Failure>(done@),
            Err(error) => processed(*collection, assets@) == Err::<CollectionView, Failure>(
                error@,
            ),
        },
{
    let flag = match collection_flag(collection.prefix.as_str()) {
        Err(error) => {
            return Err(PipelineError::Collection { prefix: collection.prefix.clone(), error });
        },
        Ok(flag) => flag,
    };
    let sorted = sort_by_name(assets);
    let mut compiled: Vec<CompiledAsset> = Vec::new();
    let mut i: usize = 0;
    assert(asset_views(compiled@) =~= Seq::<CompiledView>::empty());
    while i < sorted.len()
        invariant
            i <= sorted.len(),
            sorted@ == sorted_by(assets@, by_name::<IconAsset>()),
            flag_of(collection.prefix@) == Ok::<Seq<char>, NamingError>(flag@),
            compiled_upto(*collection, sorted@, i as int) == Ok::<Seq<CompiledView>, Failure>(
                asset_views(compiled@),
            ),
        decreases sorted.len() - i,
    {
        match compile_asset(normalizer, collection, &sorted[i]) {
            Err(error) => {
                proof {
                    lemma_failure_stays(*collection, sorted@, i as int + 1, sorted@.len() as int);
                }
                return Err(error);
            },
            Ok(asset) => {
                let ghost before = asset_views(compiled@);
                compiled.push(asset);
                assert(asset_views(compiled@) =~= before.push(asset@));
            },
        }
        i += 1;
    }
    Ok(CompiledCollection { flag, assets: compiled })
}

/// A failure among the first assets is the failure of every longer run.
pub proof fn lemma_failure_stays(
    collection: IconCollection,
    assets: Seq<IconAsset>,
    count: int,
    longer: int,
)
    requires
        count <= longer,
        compiled_upto(collection, assets, count) is Err,
    ensures
        compiled_upto(collection, assets, longer) == compiled_upto(collection, assets, count),
    decreases longer - count,
{
    if count < longer {
        lemma_failure_stays(collection, assets, count, longer - 1);
    }
}

/// What processing a collection gives does not depend on the order in which
/// its files were found, where no two of them bear the same name: the same
/// files always give the same compiled collection, or the same failure.
pub proof fn lemma_process_ignores_discovery_order(
    collection: IconCollection,
    found: Seq<IconAsset>,
    found_again: Seq<IconAsset>,
)
    requires
        distinct_by(found, by_name::<IconAsset>()),
        found.to_multiset() == found_again.to_multiset(),
    ensures
        processed(collection, found) == processed(collection, found_again),
{
    lemma_sorted_ignores_given_order(found, found_again, by_name::<IconAsset>());
}

} // verus!
