//! The registry assembler: the compiled collections become one enumeration of
//! variants, one dispatch arm per variant, one conditional module per collection and
//! the sorted list of feature groupings.

use crate::collection::{CollectionView, CompiledCollection, Failure, PipelineError};
use crate::compile::CompiledView;
use crate::order::{by_name, ordered_by, sort_by_name, sorted_by, Named};
use crate::order::{lemma_sorted_commutes_with_map, lemma_sorted_is_ordered};
use vstd::hash_set::StringHashSet;
use vstd::prelude::*;

verus! {

/// A named unit of build configuration, with the flags it switches on.
pub struct Feature {
    /// The name of the flag.
    pub name: String,
    /// The flags that it enables.
    pub members: Vec<String>,
}

/// What a [`Feature`] holds, as plain text.
pub struct FeatureView {
    pub name: Seq<char>,
    pub members: Seq<Seq<char>>,
}

/// One arm of the dispatch: the variant and the callable that renders it.
pub struct DispatchArm {
    /// The variant, which is also the flag under which the arm is compiled in.
    pub variant: String,
    /// The module of the collection.
    pub module: String,
    /// The name of the callable, and of the module that holds it.
    pub symbol: String,
}

/// What a [`DispatchArm`] holds, as plain text.
pub struct ArmView {
    pub variant: Seq<char>,
    pub module: Seq<char>,
    pub symbol: Seq<char>,
}

/// The module of one collection, compiled in where one of its members is
/// enabled.
pub struct Inclusion {
    /// The module of the collection.
    pub module: String,
    /// The flags of which one must be enabled.
    pub members: Vec<String>,
}

/// What a [`Inclusion`] holds, as plain text.
pub struct InclusionView {
    pub module: Seq<char>,
    pub members: Seq<Seq<char>>,
}

/// All that is known of the icons of a run.
pub struct Registry {
    /// The variants of the enumeration, each compiled in under the flag of its name.
    pub variants: Vec<String>,
    /// The dispatch: one arm for each variant, in the same order.
    pub arms: Vec<DispatchArm>,
    /// The modules of the collections.
    pub inclusions: Vec<Inclusion>,
    /// The groupings, one for each icon and one for each collection, sorted
    /// by name.
    pub groupings: Vec<Feature>,
}

/// What a [`Registry`] holds, as plain text.
pub struct RegistryView {
    pub variants: Seq<Seq<char>>,
    pub arms: Seq<ArmView>,
    pub inclusions: Seq<InclusionView>,
    pub groupings: Seq<FeatureView>,
}

/// The texts of strings.
pub open spec fn texts(strings: Seq<String>) -> Seq<Seq<char>> {
    strings.map_values(|s: String| s@)
}

impl View for Feature {
    type V = FeatureView;

    open spec fn view(&self) -> FeatureView {
        FeatureView { name: self.name@, members: texts(self.members@) }
    }
}

impl Named for Feature {
    open spec fn name(&self) -> Seq<char> {
        self.name@
    }

    fn name_text(&self) -> (r: &str) {
        self.name.as_str()
    }
}

impl View for DispatchArm {
    type V = ArmView;

    open spec fn view(&self) -> ArmView {
        ArmView { variant: self.variant@, module: self.module@, symbol: self.symbol@ }
    }
}

impl View for Inclusion {
    type V = InclusionView;

    open spec fn view(&self) -> InclusionView {
        InclusionView { module: self.module@, members: texts(self.members@) }
    }
}

/// The function that takes a feature to its view.
pub open spec fn feature_view() -> spec_fn(Feature) -> FeatureView {
    |feature: Feature| feature@
}

/// The key by which groupings are sorted: their name.
pub open spec fn feature_name() -> spec_fn(FeatureView) -> Seq<char> {
    |feature: FeatureView| feature.name
}

/// The views of features.
pub open spec fn feature_views(features: Seq<Feature>) -> Seq<FeatureView> {
    features.map_values(feature_view())
}

/// The views of dispatch arms.
pub open spec fn arm_views(arms: Seq<DispatchArm>) -> Seq<ArmView> {
    arms.map_values(|arm: DispatchArm| arm@)
}

/// The views of module inclusions.
pub open spec fn inclusion_views(inclusions: Seq<Inclusion>) -> Seq<InclusionView> {
    inclusions.map_values(|inclusion: Inclusion| inclusion@)
}

/// The views of compiled collections.
pub open spec fn collection_views(collections: Seq<CompiledCollection>) -> Seq<CollectionView> {
    collections.map_values(|collection: CompiledCollection| collection@)
}

impl View for Registry {
    type V = RegistryView;

    open spec fn view(&self) -> RegistryView {
        RegistryView {
            variants: texts(self.variants@),
            arms: arm_views(self.arms@),
            inclusions: inclusion_views(self.inclusions@),
            groupings: feature_views(self.groupings@),
        }
    }
}

impl RegistryView {
    /// The registry is consistent: no variant occurs twice, every variant has
    /// its arm, no two arms go to the same slot, and the groupings are in the
    /// order of their names.
    pub open spec fn well_formed(self) -> bool {
        &&& self.variants.no_duplicates()
        &&& self.arms.len() == self.variants.len()
        &&& forall|i: int|
            0 <= i < self.arms.len() ==> (#[trigger] self.arms[i]).variant == self.variants[i]
        &&& slots_of(self.arms).no_duplicates()
        &&& ordered_by(self.groupings, feature_name())
    }
}

/// The slot to which the unit of an arm's callable is written: the module,
/// a slash and the symbol.
pub open spec fn slot_of(arm: ArmView) -> Seq<char> {
    arm.module + "/"@ + arm.symbol
}

/// The function that takes an arm to its slot.
pub open spec fn slot_part() -> spec_fn(ArmView) -> Seq<char> {
    |arm: ArmView| slot_of(arm)
}

/// The slots of the arms, in order.
pub open spec fn slots_of(arms: Seq<ArmView>) -> Seq<Seq<char>> {
    arms.map_values(slot_part())
}

/// The variant names of a collection's icons, in order.
pub open spec fn variants_of(collection: CollectionView) -> Seq<Seq<char>> {
    collection.assets.map_values(|asset: CompiledView| asset.identity.variant_name)
}

/// The dispatch arms of a collection's icons, in order.
pub open spec fn arms_of(collection: CollectionView) -> Seq<ArmView> {
    collection.assets.map_values(
        |asset: CompiledView|
            ArmView {
                variant: asset.identity.variant_name,
                module: collection.flag,
                symbol: asset.identity.symbol_name,
            },
    )
}

/// How a collection's module is included: it is compiled in where one of the
/// collection's icons is enabled.
pub open spec fn inclusion_of(collection: CollectionView) -> InclusionView {
    InclusionView { module: collection.flag, members: variants_of(collection) }
}

/// The grouping of a collection: its flag enables every icon of it.
pub open spec fn grouping_of(collection: CollectionView) -> FeatureView {
    FeatureView { name: collection.flag, members: variants_of(collection) }
}

/// The features that a collection brings: one for each icon, which enables
/// nothing else, and then its grouping.
pub open spec fn features_of(collection: CollectionView) -> Seq<FeatureView> {
    variants_of(collection).map_values(
        |name: Seq<char>| FeatureView { name, members: Seq::empty() },
    ).push(grouping_of(collection))
}

/// What the first `count` collections bring, one after the other.
pub open spec fn gathered<T>(
    collections: Seq<CollectionView>,
    part: spec_fn(CollectionView) -> Seq<T>,
    count: int,
) -> Seq<T>
    decreases count,
{
    if count <= 0 {
        Seq::empty()
    } else {
        gathered(collections, part, count - 1) + part(collections[count - 1])
    }
}

/// The function that takes a collection to its variant names.
pub open spec fn variants_part() -> spec_fn(CollectionView) -> Seq<Seq<char>> {
    |c: CollectionView| variants_of(c)
}

/// The function that takes a collection to its dispatch arms.
pub open spec fn arms_part() -> spec_fn(CollectionView) -> Seq<ArmView> {
    |c: CollectionView| arms_of(c)
}

/// The function that takes a collection to its features.
pub open spec fn features_part() -> spec_fn(CollectionView) -> Seq<FeatureView> {
    |c: CollectionView| features_of(c)
}

/// The function that takes a collection to the inclusion of its module.
pub open spec fn inclusion_part() -> spec_fn(CollectionView) -> InclusionView {
    |c: CollectionView| inclusion_of(c)
}

/// All variant names of the collections, in the order in which the icons were
/// compiled.
pub open spec fn all_variants(collections: Seq<CollectionView>) -> Seq<Seq<char>> {
    gathered(collections, variants_part(), collections.len() as int)
}

/// All dispatch arms of the collections.
pub open spec fn all_arms(collections: Seq<CollectionView>) -> Seq<ArmView> {
    gathered(collections, arms_part(), collections.len() as int)
}

/// All features of the collections, unsorted.
pub open spec fn all_features(collections: Seq<CollectionView>) -> Seq<FeatureView> {
    gathered(collections, features_part(), collections.len() as int)
}

/// The name at index `at` stands at an earlier index too.
pub open spec fn is_repeat(names: Seq<Seq<char>>, at: int) -> bool {
    exists|i: int| 0 <= i < at && names[i] == names[at]
}

/// The least index from `from` on whose name occurred before it, or the
/// length of `names` where there is none.
pub open spec fn first_repeat(names: Seq<Seq<char>>, from: int) -> int
    decreases names.len() - from,
{
    if from < 0 || from >= names.len() {
        names.len() as int
    } else if is_repeat(names, from) {
        from
    } else {
        first_repeat(names, from + 1)
    }
}

/// What [`assemble`] returns: the registry, or the first variant name that an
/// earlier icon bears already, or, where the variants are distinct, the
/// first slot that an earlier icon takes already.
pub open spec fn assembled(collections: Seq<CollectionView>) -> Result<RegistryView, Failure> {
    let names = all_variants(collections);
    let at = first_repeat(names, 0);
    let slots = slots_of(all_arms(collections));
    let taken = first_repeat(slots, 0);
    if at < names.len() {
        Err(Failure::Collision { variant_name: names[at] })
    } else if taken < slots.len() {
        Err(Failure::SymbolCollision { slot: slots[taken] })
    } else {
        Ok(
            RegistryView {
                variants: names,
                arms: all_arms(collections),
                inclusions: collections.map_values(inclusion_part()),
                groupings: sorted_by(all_features(collections), feature_name()),
            },
        )
    }
}

/// Finds the first name that occurred before it.
pub fn find_repeat(names: &Vec<String>) -> (r: Option<usize>)
    ensures
        match r {
            Some(at) => at < names.len() && at == first_repeat(texts(names@), 0),
            None => first_repeat(texts(names@), 0) == names.len(),
        },
{
    let mut seen = StringHashSet::new();
    let mut at: usize = 0;
    while at < names.len()
        invariant
            at <= names.len(),
            first_repeat(texts(names@), 0) == first_repeat(texts(names@), at as int),
            forall|t: Seq<char>|
                seen@.contains(t) <==> exists|i: int| 0 <= i < at && texts(names@)[i] == t,
        decreases names.len() - at,
    {
        let ghost before = seen@;
        if !seen.insert(names[at].clone()) {
            assert(is_repeat(texts(names@), at as int));
            return Some(at);
        }
        assert(!is_repeat(texts(names@), at as int));
        assert forall|t: Seq<char>| seen@.contains(t) <==> exists|i: int|
            0 <= i < at + 1 && texts(names@)[i] == t by {
            if seen@.contains(t) {
                if before.contains(t) {
                    let i = choose|i: int| 0 <= i < at && texts(names@)[i] == t;
                    assert(0 <= i < at + 1 && texts(names@)[i] == t);
                } else {
                    assert(texts(names@)[at as int] == t);
                }
            }
        }
        at += 1;
    }
    None
}

impl DispatchArm {
    /// The slot to which the unit of the arm's callable is written.
    pub fn slot(&self) -> (r: String)
        ensures
            r@ == slot_of(self@),
    {
        let mut out = self.module.clone();
        out.append("/");
        out.append(self.symbol.as_str());
        out
    }
}

/// The slots of the arms, in order.
pub fn slots(arms: &Vec<DispatchArm>) -> (r: Vec<String>)
    ensures
        texts(r@) == slots_of(arm_views(arms@)),
{
    let ghost wanted = slots_of(arm_views(arms@));
    let mut out: Vec<String> = Vec::new();
    let mut i: usize = 0;
    while i < arms.len()
        invariant
            i <= arms.len(),
            wanted == slots_of(arm_views(arms@)),
            texts(out@) == wanted.take(i as int),
        decreases arms.len() - i,
    {
        let ghost before = texts(out@);
        let slot = arms[i].slot();
        out.push(slot);
        assert(texts(out@) =~= before.push(slot@));
        assert(wanted.take(i + 1) =~= wanted.take(i as int).push(wanted[i as int]));
        i += 1;
    }
    assert(wanted.take(i as int) =~= wanted);
    out
}

impl CompiledCollection {
    /// The variant names of the collection's icons, in order.
    pub fn variant_names(&self) -> (r: Vec<String>)
        ensures
            texts(r@) == variants_of(self@),
    {
        let mut names: Vec<String> = Vec::new();
        let mut i: usize = 0;
        while i < self.assets.len()
            invariant
                i <= self.assets.len(),
                texts(names@) == variants_of(self@).take(i as int),
            decreases self.assets.len() - i,
        {
            let ghost before = texts(names@);
            names.push(self.assets[i].identity.variant_name.clone());
            assert(texts(names@) =~= before.push(self.assets@[i as int].identity.variant_name@));
            assert(variants_of(self@).take(i + 1) =~= variants_of(self@).take(i as int).push(
                variants_of(self@)[i as int],
            ));
            i += 1;
        }
        assert(variants_of(self@).take(i as int) =~= variants_of(self@));
        names
    }

    /// The dispatch arms of the collection's icons, in order.
    pub fn arms(&self) -> (r: Vec<DispatchArm>)
        ensures
            arm_views(r@) == arms_of(self@),
    {
        let mut arms: Vec<DispatchArm> = Vec::new();
        let mut i: usize = 0;
        while i < self.assets.len()
            invariant
                i <= self.assets.len(),
                arm_views(arms@) == arms_of(self@).take(i as int),
            decreases self.assets.len() - i,
        {
            let ghost before = arm_views(arms@);
            let arm = DispatchArm {
                variant: self.assets[i].identity.variant_name.clone(),
                module: self.flag.clone(),
                symbol: self.assets[i].identity.symbol_name.clone(),
            };
            arms.push(arm);
            assert(arm_views(arms@) =~= before.push(arm@));
            assert(arms_of(self@).take(i + 1) =~= arms_of(self@).take(i as int).push(
                arms_of(self@)[i as int],
            ));
            i += 1;
        }
        assert(arms_of(self@).take(i as int) =~= arms_of(self@));
        arms
    }

    /// How the collection's module is included.
    pub fn inclusion(&self) -> (r: Inclusion)
        ensures
            r@ == inclusion_of(self@),
    {
        Inclusion { module: self.flag.clone(), members: self.variant_names() }
    }

    /// The grouping of the collection, by which all its icons are enabled at
    /// once.
    pub fn grouping(&self) -> (r: Feature)
        ensures
            r@ == grouping_of(self@),
    {
        Feature { name: self.flag.clone(), members: self.variant_names() }
    }

    /// The features that the collection brings: one for each icon, then its
    /// grouping.
    pub fn features(&self) -> (r: Vec<Feature>)
        ensures
            feature_views(r@) == features_of(self@),
    {
        let ghost icons = variants_of(self@).map_values(
            |name: Seq<char>| FeatureView { name, members: Seq::empty() },
        );
        let mut features: Vec<Feature> = Vec::new();
        let mut i: usize = 0;
        while i < self.assets.len()
            invariant
                i <= self.assets.len(),
                icons == variants_of(self@).map_values(
                    |name: Seq<char>| FeatureView { name, members: Seq::empty() },
                ),
                feature_views(features@) == icons.take(i as int),
            decreases self.assets.len() - i,
        {
            let ghost before = feature_views(features@);
            let feature = Feature {
                name: self.assets[i].identity.variant_name.clone(),
                members: Vec::new(),
            };
            assert(texts(feature.members@) =~= Seq::<Seq<char>>::empty());
            features.push(feature);
            assert(feature_views(features@) =~= before.push(feature@));
            assert(icons.take(i + 1) =~= icons.take(i as int).push(icons[i as int]));
            i += 1;
        }
        assert(icons.take(i as int) =~= icons);
        let ghost before = feature_views(features@);
        let grouping = self.grouping();
        features.push(grouping);
        assert(feature_views(features@) =~= before.push(grouping@));
        features
    }
}

/// Assembles the registry of a run from its compiled collections, in the
/// order given. Either the whole registry is returned or, where two icons
/// bear the same variant name or go to the same slot, nothing but that name
/// or slot.
pub fn assemble(collections: &Vec<CompiledCollection>) -> (r: Result<Registry, PipelineError>)
    ensures
        match r {
            Ok(registry) => {
                &&& assembled(collection_views(collections@)) == Ok::<RegistryView, Failure>(
                    registry@,
                )
                &&& registry@.well_formed()
            },
            Err(error) => assembled(collection_views(collections@)) == Err::<
                RegistryView,
                Failure,
            >(error@),
        },
{
    let ghost views = collection_views(collections@);
    let mut variants: Vec<String> = Vec::new();
    let mut arms: Vec<DispatchArm> = Vec::new();
    let mut inclusions: Vec<Inclusion> = Vec::new();
    let mut features: Vec<Feature> = Vec::new();
    let mut i: usize = 0;
    assert(texts(variants@) =~= gathered(views, variants_part(), 0));
    assert(arm_views(arms@) =~= gathered(views, arms_part(), 0));
    assert(feature_views(features@) =~= gathered(views, features_part(), 0));
    assert(inclusion_views(inclusions@) =~= views.map_values(inclusion_part()).take(0));
    while i < collections.len()
        invariant
            i <= collections.len(),
            views == collection_views(collections@),
            texts(variants@) == gathered(views, variants_part(), i as int),
            arm_views(arms@) == gathered(views, arms_part(), i as int),
            feature_views(features@) == gathered(views, features_part(), i as int),
            inclusion_views(inclusions@) == views.map_values(inclusion_part()).take(
                i as int,
            ),
        decreases collections.len() - i,
    {
        let collection = &collections[i];
        assert(collection@ == views[i as int]);
        let ghost old_variants = texts(variants@);
        let ghost old_arms = arm_views(arms@);
        let ghost old_features = feature_views(features@);
        let ghost old_inclusions = inclusion_views(inclusions@);
        let mut more_variants = collection.variant_names();
        let mut more_arms = collection.arms();
        let mut more_features = collection.features();
        let inclusion = collection.inclusion();
        let ghost new_variants = texts(more_variants@);
        let ghost new_arms = arm_views(more_arms@);
        let ghost new_features = feature_views(more_features@);
        variants.append(&mut more_variants);
        arms.append(&mut more_arms);
        features.append(&mut more_features);
        inclusions.push(inclusion);
        assert(texts(variants@) =~= old_variants + new_variants);
        assert(arm_views(arms@) =~= old_arms + new_arms);
        assert(feature_views(features@) =~= old_features + new_features);
        assert(inclusion_views(inclusions@) =~= old_inclusions.push(inclusion@));
        assert(views.map_values(inclusion_part()).take(i + 1) =~= views.map_values(inclusion_part()).take(i as int).push(inclusion_of(views[i as int])));
        i += 1;
    }
    assert(views.map_values(inclusion_part()).take(i as int) =~= views.map_values(inclusion_part()));
    if let Some(at) = find_repeat(&variants) {
        return Err(PipelineError::Collision { variant_name: variants[at].clone() });
    }
    let slots = slots(&arms);
    match find_repeat(&slots) {
        Some(at) => Err(PipelineError::SymbolCollision { slot: slots[at].clone() }),
        None => {
            let ghost unsorted = features@;
            let groupings = sort_by_name(features);
            proof {
                lemma_sorted_commutes_with_map(
                    unsorted,
                    by_name::<Feature>(),
                    feature_view(),
                    feature_name(),
                );
                lemma_sorted_is_ordered(feature_views(unsorted), feature_name());
                lemma_no_repeat_is_no_duplicates(texts(variants@));
                lemma_no_repeat_is_no_duplicates(texts(slots@));
                lemma_arms_follow_variants(views, views.len() as int);
            }
            Ok(Registry { variants, arms, inclusions, groupings })
        },
    }
}

/// A sequence of names without a repeat holds no name twice, and the other
/// way round.
pub proof fn lemma_no_repeat_is_no_duplicates(names: Seq<Seq<char>>)
    ensures
        first_repeat(names, 0) == names.len() <==> names.no_duplicates(),
{
    lemma_first_repeat(names, 0);
    if names.no_duplicates() {
        if first_repeat(names, 0) < names.len() {
            let at = first_repeat(names, 0);
            let i = choose|i: int| 0 <= i < at && names[i] == names[at];
            assert(names[i] == names[at]);
        }
    } else {
        let (i, j) = choose|i: int, j: int|
            0 <= i < names.len() && 0 <= j < names.len() && i != j && names[i] == names[j];
        if i < j {
            assert(is_repeat(names, j));
        } else {
            assert(is_repeat(names, i));
        }
    }
}

/// The first repeat from `from` on is one, and no index between is.
pub proof fn lemma_first_repeat(names: Seq<Seq<char>>, from: int)
    requires
        0 <= from <= names.len(),
    ensures
        from <= first_repeat(names, from) <= names.len(),
        first_repeat(names, from) < names.len() ==> is_repeat(names, first_repeat(names, from)),
        forall|k: int| from <= k < first_repeat(names, from) ==> !is_repeat(names, k),
    decreases names.len() - from,
{
    if from < names.len() && !is_repeat(names, from) {
        lemma_first_repeat(names, from + 1);
    }
}

/// The arms of the first `count` collections are as many as their variants,
/// and each bears the variant at its index.
pub proof fn lemma_arms_follow_variants(collections: Seq<CollectionView>, count: int)
    requires
        count <= collections.len(),
    ensures
        ({
            let arms = gathered(collections, arms_part(), count);
            let names = gathered(collections, variants_part(), count);
            &&& arms.len() == names.len()
            &&& forall|i: int| 0 <= i < arms.len() ==> (#[trigger] arms[i]).variant == names[i]
        }),
    decreases count,
{
    if count > 0 {
        lemma_arms_follow_variants(collections, count - 1);
    }
}

/// The variants of a registry are pairwise distinct: where two icons of a run
/// bear the same variant name there is no registry, only the failure that
/// names the first name borne twice.
pub proof fn lemma_variants_are_distinct(collections: Seq<CollectionView>)
    ensures
        assembled(collections) matches Ok(registry) ==> {
            &&& registry.variants == all_variants(collections)
            &&& registry.variants.no_duplicates()
        },
        !all_variants(collections).no_duplicates() ==> {
            &&& assembled(collections) matches Err(Failure::Collision { variant_name })
            &&& exists|i: int, j: int|
                0 <= i < j < all_variants(collections).len() && all_variants(collections)[i]
                    == variant_name && all_variants(collections)[j] == variant_name
        },
{
    let names = all_variants(collections);
    lemma_no_repeat_is_no_duplicates(names);
    lemma_first_repeat(names, 0);
    let at = first_repeat(names, 0);
    if at < names.len() {
        let i = choose|i: int| 0 <= i < at && names[i] == names[at];
        assert(0 <= i < at < names.len() && names[i] == names[at] && names[at] == names[at]);
    }
}

/// The symbols of a registry are pairwise distinct within each module: no two
/// arms go to the same module and the same symbol, so no unit is written
/// over another. Where two icons of a run with distinct variants go to the
/// same slot there is no registry, only the failure that names the slot.
pub proof fn lemma_symbols_are_distinct_within_a_module(collections: Seq<CollectionView>)
    ensures
        assembled(collections) matches Ok(registry) ==> forall|i: int, j: int|
            0 <= i < j < registry.arms.len() ==> !((#[trigger] registry.arms[i]).module == (
            #[trigger] registry.arms[j]).module && registry.arms[i].symbol
                == registry.arms[j].symbol),
        all_variants(collections).no_duplicates() && !slots_of(
            all_arms(collections),
        ).no_duplicates() ==> assembled(collections) matches Err(
            Failure::SymbolCollision { slot },
        ),
{
    let names = all_variants(collections);
    let arms = all_arms(collections);
    let slots = slots_of(arms);
    lemma_no_repeat_is_no_duplicates(names);
    lemma_no_repeat_is_no_duplicates(slots);
    lemma_first_repeat(slots, 0);
    if assembled(collections) is Ok {
        assert forall|i: int, j: int| 0 <= i < j < arms.len() implies !((#[trigger] arms[i]).module
            == (#[trigger] arms[j]).module && arms[i].symbol == arms[j].symbol) by {
            assert(slots[i] == slot_of(arms[i]));
            assert(slots[j] == slot_of(arms[j]));
            assert(slots[i] != slots[j]);
        }
    }
}

} // verus!
