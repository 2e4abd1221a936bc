//! What a package declares of itself: its dependencies with the versions it
//! requires of them, and its features. Merging this into a catalogue tells
//! the catalogue's crates which versions are required of them.

use vstd::prelude::*;
use vstd::hash_map::StringHashMap;
use crate::api::clone_text;
use crate::api::clone_texts;
use crate::api::text_view;
use crate::api::texts_view;
use crate::api::AnyFeatureView;
use crate::api::Api;
use crate::api::ApiView;
use crate::api::CrateId;
use crate::api::CrateView;
use crate::api::Crates;
use crate::api::FeatureView;
use crate::api::OptionalDependencyView;
use crate::diff::first_named;
use crate::diff::first_of_name;
use crate::diff::has_name;
use crate::diff::lemma_first_named;
use crate::diff::lemma_name_has_first;
use crate::version::comparators_of;
use crate::version::ComparatorView;

verus! {

/// A feature as the manifest declares it.
#[derive(Debug, PartialEq, Eq)]
#[non_exhaustive]
pub struct Feature {
    pub name: String,
    pub dependencies: Vec<String>,
}

impl View for Feature {
    type V = FeatureView;

    open spec fn view(&self) -> FeatureView {
        FeatureView { name: self.name@, dependencies: texts_view(self.dependencies@) }
    }
}

impl Feature {
    /// The feature `name` that switches on `deps`.
    pub fn new(name: &str, deps: &Vec<String>) -> (feature: Feature)
        ensures
            feature@ == (FeatureView { name: name@, dependencies: texts_view(deps@) }),
    {
        Feature { name: name.to_owned(), dependencies: clone_texts(deps) }
    }
}

/// A dependency as the manifest declares it.
#[derive(Debug)]
#[non_exhaustive]
pub struct Dependency {
    /// The name of the package depended on.
    pub name: String,
    /// The versions of it that are accepted.
    pub version: semver::VersionReq,
    /// The name under which the package is used, where that is another.
    pub rename: Option<String>,
}

/// A `Dependency` as the contracts see it.
pub struct DependencyView {
    pub name: Seq<char>,
    pub version: Seq<ComparatorView>,
    pub rename: Option<Seq<char>>,
}

impl View for Dependency {
    type V = DependencyView;

    open spec fn view(&self) -> DependencyView {
        DependencyView {
            name: self.name@,
            version: comparators_of(self.version),
            rename: text_view(self.rename),
        }
    }
}

impl Clone for Dependency {
    fn clone(&self) -> (copy: Dependency)
        ensures
            copy@ == self@,
    {
        Dependency {
            name: self.name.clone(),
            version: self.version.clone(),
            rename: clone_text(&self.rename),
        }
    }
}

impl Dependency {
    /// The dependency on the package `name` that accepts `version` and is
    /// used under the name `rename`, where that is another.
    pub fn new(name: String, version: semver::VersionReq, rename: Option<String>) -> (dependency:
        Dependency)
        ensures
            dependency.name == name,
            dependency.version == version,
            dependency.rename == rename,
    {
        Dependency { name, version, rename }
    }
}

/// What a feature name of the manifest stands for: a feature proper, or an
/// optional dependency.
#[derive(Debug)]
pub enum AnyFeature {
    Feature(Feature),
    Dependency(Dependency),
}

/// The catalogue's feature for a feature of the manifest.
pub open spec fn feature_moved(other: Feature) -> crate::api::Feature {
    crate::api::Feature { name: other.name, dependencies: other.dependencies }
}

/// The catalogue's optional dependency for a dependency of the manifest: it is
/// activated by the name under which the package is used.
pub open spec fn dependency_moved(other: Dependency) -> crate::api::OptionalDependency {
    match other.rename {
        Some(rename) => crate::api::OptionalDependency { name: rename, package: Some(other.name) },
        None => crate::api::OptionalDependency { name: other.name, package: None },
    }
}

/// What a feature name of the manifest stands for in the catalogue.
pub open spec fn any_feature_moved(other: AnyFeature) -> crate::api::AnyFeature {
    match other {
        AnyFeature::Feature(f) => crate::api::AnyFeature::Feature(feature_moved(f)),
        AnyFeature::Dependency(f) => crate::api::AnyFeature::OptionalDependency(
            dependency_moved(f),
        ),
    }
}

impl From<Feature> for crate::api::Feature {
    fn from(other: Feature) -> (feature: crate::api::Feature) {
        crate::api::Feature { name: other.name, dependencies: other.dependencies }
    }
}

impl vstd::std_specs::convert::FromSpecImpl<Feature> for crate::api::Feature {
    open spec fn obeys_from_spec() -> bool {
        true
    }

    open spec fn from_spec(other: Feature) -> crate::api::Feature {
        feature_moved(other)
    }
}

impl From<Dependency> for crate::api::OptionalDependency {
    fn from(other: Dependency) -> (optional: crate::api::OptionalDependency) {
        let name = other.name;
        let rename = other.rename;
        if let Some(rename) = rename {
            crate::api::OptionalDependency { name: rename, package: Some(name) }
        } else {
            crate::api::OptionalDependency { name, package: None }
        }
    }
}

impl vstd::std_specs::convert::FromSpecImpl<Dependency> for crate::api::OptionalDependency {
    open spec fn obeys_from_spec() -> bool {
        true
    }

    open spec fn from_spec(other: Dependency) -> crate::api::OptionalDependency {
        dependency_moved(other)
    }
}

impl From<AnyFeature> for crate::api::AnyFeature {
    fn from(other: AnyFeature) -> (feature: crate::api::AnyFeature) {
        match other {
            AnyFeature::Feature(f) => crate::api::AnyFeature::Feature(crate::api::Feature::from(f)),
            AnyFeature::Dependency(f) => crate::api::AnyFeature::OptionalDependency(
                crate::api::OptionalDependency::from(f),
            ),
        }
    }
}

impl vstd::std_specs::convert::FromSpecImpl<AnyFeature> for crate::api::AnyFeature {
    open spec fn obeys_from_spec() -> bool {
        true
    }

    open spec fn from_spec(other: AnyFeature) -> crate::api::AnyFeature {
        any_feature_moved(other)
    }
}

/// The views of a list of dependencies.
pub open spec fn dependency_views(list: Seq<Dependency>) -> Seq<DependencyView> {
    Seq::new(list.len(), |i: int| list[i]@)
}

/// Whether exactly one crate has the given name.
pub open spec fn only_one_named(crates: Seq<CrateView>, name: Seq<char>) -> bool {
    has_name(crates, name) && forall|j: int|
        0 <= j < crates.len() && (#[trigger] crates[j]).name == name ==> j == first_named(
            crates,
            name,
        )
}

/// The crates after one dependency was merged in: where exactly one crate has
/// the dependency's name, that crate now requires what the dependency
/// requires; else nothing has changed.
pub open spec fn requirement_merged(crates: Seq<CrateView>, dependency: DependencyView) -> Seq<
    CrateView,
> {
    if only_one_named(crates, dependency.name) {
        let at = first_named(crates, dependency.name);
        crates.update(at, CrateView { version: Some(dependency.version), ..crates[at] })
    } else {
        crates
    }
}

/// The crates after the dependencies were merged in, one after the other.
pub open spec fn requirements_merged(crates: Seq<CrateView>, dependencies: Seq<DependencyView>) -> Seq<
    CrateView,
>
    decreases dependencies.len(),
{
    if dependencies.len() == 0 {
        crates
    } else {
        requirement_merged(
            requirements_merged(crates, dependencies.drop_last()),
            dependencies.last(),
        )
    }
}


/// What a list of features of the manifest says of the catalogue's features:
/// each name with what it stands for there.
pub open spec fn feature_entries(list: Seq<(String, AnyFeature)>) -> Seq<
    (Seq<char>, AnyFeatureView),
> {
    Seq::new(list.len(), |i: int| (list[i].0@, any_feature_moved(list[i].1)@))
}

/// The features after the entries were put in, one after the other, each in
/// place of what its name stood for before.
pub open spec fn features_merged(
    features: Map<Seq<char>, AnyFeatureView>,
    entries: Seq<(Seq<char>, AnyFeatureView)>,
) -> Map<Seq<char>, AnyFeatureView>
    decreases entries.len(),
{
    if entries.len() == 0 {
        features
    } else {
        features_merged(features, entries.drop_last()).insert(entries.last().0, entries.last().1)
    }
}

/// What a package declares of itself.
#[derive(Debug)]
#[non_exhaustive]
pub struct Manifest {
    pub name: String,
    pub version: semver::Version,
    pub dependencies: Vec<Dependency>,
    /// The features by name. Where a name occurs twice, the later entry counts.
    pub features: Vec<(String, AnyFeature)>,
}

/// Two lists of crates with the same names in the same places agree on which
/// crate is the first, and which the only one, of a name.
pub proof fn lemma_same_names(a: Seq<CrateView>, b: Seq<CrateView>, name: Seq<char>)
    requires
        a.len() == b.len(),
        forall|i: int| 0 <= i < a.len() ==> (#[trigger] a[i]).name == b[i].name,
    ensures
        has_name(a, name) == has_name(b, name),
        has_name(a, name) ==> first_named(a, name) == first_named(b, name),
        only_one_named(a, name) == only_one_named(b, name),
{
    if has_name(a, name) {
        let j = choose|j: int| 0 <= j < a.len() && (#[trigger] a[j]).name == name;
        assert(b[j].name == name);
    }
    if has_name(b, name) {
        let j = choose|j: int| 0 <= j < b.len() && (#[trigger] b[j]).name == name;
        assert(a[j].name == name);
    }
    if has_name(a, name) {
        lemma_name_has_first(a, name);
        lemma_name_has_first(b, name);
        let first = first_named(a, name);
        assert(first_of_name(b, first)) by {
            assert forall|j: int| 0 <= j < first implies (#[trigger] b[j]).name != b[first].name by {
                assert(a[j].name != a[first].name);
            }
        }
        lemma_first_named(b, first);
        if only_one_named(a, name) {
            assert forall|j: int| 0 <= j < b.len() && (#[trigger] b[j]).name == name implies j
                == first by {
                assert(a[j].name == name);
            }
        }
        if only_one_named(b, name) {
            assert forall|j: int| 0 <= j < a.len() && (#[trigger] a[j]).name == name implies j
                == first by {
                assert(b[j].name == name);
            }
        }
    }
}

/// For each name among `crates`, the id of the first crate of that name and
/// whether another crate has the name too.
fn names_in_use(crates: &Crates) -> (uses: StringHashMap<(CrateId, bool)>)
    ensures
        forall|name: Seq<char>| #[trigger] uses@.contains_key(name) <==> has_name(crates@, name),
        forall|name: Seq<char>| #[trigger]
            uses@.contains_key(name) ==> uses@[name].0.0 == first_named(crates@, name)
                && uses@[name].1 == !only_one_named(crates@, name),
{
    let mut uses: StringHashMap<(CrateId, bool)> = StringHashMap::new();
    let mut i: usize = 0;
    while i < crates.len()
        invariant
            i <= crates@.len(),
            forall|name: Seq<char>| #[trigger]
                uses@.contains_key(name) <==> exists|j: int|
                    0 <= j < i && (#[trigger] crates@[j]).name == name,
            forall|name: Seq<char>| #[trigger]
                uses@.contains_key(name) ==> 0 <= uses@[name].0.0 < i && crates@[uses@[name].0.0 as int].name
                    == name && first_of_name(crates@, uses@[name].0.0 as int) && (uses@[name].1
                    <==> exists|j: int|
                    0 <= j < i && j != uses@[name].0.0 && (#[trigger] crates@[j]).name == name),
        decreases crates@.len() - i,
    {
        let crate_ = crates.get(CrateId(i)).unwrap();
        proof {
            assert(crates@[i as int].name == crate_.name@);
        }
        let first = match uses.get(crate_.name.as_str()) {
            Some(held) => Some(held.0),
            None => None,
        };
        match first {
            Some(first) => {
                uses.insert(crate_.name.clone(), (first, true));
            },
            None => {
                uses.insert(crate_.name.clone(), (CrateId(i), false));
            },
        }
        i = i + 1;
    }
    proof {
        assert forall|name: Seq<char>| #[trigger] uses@.contains_key(name) implies uses@[name].0.0
            == first_named(crates@, name) && uses@[name].1 == !only_one_named(crates@, name) by {
            lemma_first_named(crates@, uses@[name].0.0 as int);
        }
    }
    uses
}

impl Manifest {
    /// Merges what the package declares into the catalogue `api`. Each
    /// dependency, in its order, sets the version requirement of the crate of
    /// its name, provided exactly one crate has that name; a dependency whose
    /// name no crate has, or more than one, is passed over. Then each feature,
    /// in its order, takes its place among the catalogue's features.
    pub fn into_api(self, api: &mut Api)
        ensures
            final(api)@ == (ApiView {
                crates: requirements_merged(old(api)@.crates, dependency_views(self.dependencies@)),
                features: features_merged(old(api)@.features, feature_entries(self.features@)),
                ..old(api)@
            }),
    {
        let uses = names_in_use(&api.crates);
        let ghost crates = api@.crates;
        let ghost dependencies = dependency_views(self.dependencies@);
        assert(dependencies.take(0) =~= Seq::empty());
        for dependency in it: self.dependencies
            invariant
                it.seq() == self.dependencies@,
                dependencies == dependency_views(self.dependencies@),
                crates == old(api)@.crates,
                forall|name: Seq<char>| #[trigger] uses@.contains_key(name) <==> has_name(crates, name),
                forall|name: Seq<char>| #[trigger]
                    uses@.contains_key(name) ==> uses@[name].0.0 == first_named(crates, name)
                        && uses@[name].1 == !only_one_named(crates, name),
                api@.crates.len() == crates.len(),
                forall|i: int| 0 <= i < crates.len() ==> (#[trigger] api@.crates[i]).name == crates[i].name,
                api@ == (ApiView {
                    crates: requirements_merged(crates, dependencies.take(it.index())),
                    ..old(api)@
                }),
        {
            let ghost held = api@.crates;
            proof {
                assert(dependencies.take(it.index() + 1).drop_last() =~= dependencies.take(
                    it.index(),
                ));
                assert(dependencies.take(it.index() + 1).last() == dependency@);
                lemma_same_names(held, crates, dependency.name@);
                if has_name(crates, dependency.name@) {
                    lemma_name_has_first(crates, dependency.name@);
                }
            }
            let only = match uses.get(dependency.name.as_str()) {
                Some(held) => if held.1 {
                    None
                } else {
                    Some(held.0)
                },
                None => None,
            };
            if let Some(crate_id) = only {
                match api.crates.get_mut(crate_id) {
                    Some(crate_) => {
                        crate_.version = Some(dependency.version);
                    },
                    None => {},
                }
            }
            assert(api@.crates =~= requirement_merged(held, dependency@));
        }
        assert(dependencies.take(dependencies.len() as int) =~= dependencies);

        let ghost entries = feature_entries(self.features@);
        let ghost features = api@.features;
        assert(entries.take(0) =~= Seq::empty());
        for entry in it: self.features
            invariant
                it.seq() == self.features@,
                entries == feature_entries(self.features@),
                features == old(api)@.features,
                api@ == (ApiView {
                    crates: requirements_merged(old(api)@.crates, dependencies),
                    features: features_merged(features, entries.take(it.index())),
                    ..old(api)@
                }),
        {
            proof {
                assert(entries.take(it.index() + 1).drop_last() =~= entries.take(it.index()));
                assert(entries.take(it.index() + 1).last() == entries[it.index()]);
            }
            let (name, feature) = entry;
            api.features.insert(name, crate::api::AnyFeature::from(feature));
        }
        assert(entries.take(entries.len() as int) =~= entries);
    }
}

/// A dependency as a package's metadata lists it.
#[derive(Debug)]
pub struct PackageDependency {
    pub name: String,
    pub req: semver::VersionReq,
    /// Whether the dependency is only there when asked for by name.
    pub optional: bool,
    pub rename: Option<String>,
}

/// A `PackageDependency` as the contracts see it.
pub struct PackageDependencyView {
    pub name: Seq<char>,
    pub req: Seq<ComparatorView>,
    pub optional: bool,
    pub rename: Option<Seq<char>>,
}

impl View for PackageDependency {
    type V = PackageDependencyView;

    open spec fn view(&self) -> PackageDependencyView {
        PackageDependencyView {
            name: self.name@,
            req: comparators_of(self.req),
            optional: self.optional,
            rename: text_view(self.rename),
        }
    }
}

/// What a package's metadata says of it, as far as a manifest is made of it.
#[derive(Debug)]
pub struct Package {
    pub name: String,
    pub version: semver::Version,
    pub dependencies: Vec<PackageDependency>,
    /// Each feature with the names it switches on.
    pub features: Vec<(String, Vec<String>)>,
}

/// The views of a package's dependencies.
pub open spec fn package_dependency_views(list: Seq<PackageDependency>) -> Seq<
    PackageDependencyView,
> {
    Seq::new(list.len(), |i: int| list[i]@)
}

/// The manifest's dependency for a dependency of the package.
pub open spec fn declared_dependency(d: PackageDependencyView) -> DependencyView {
    DependencyView { name: d.name, version: d.req, rename: d.rename }
}

/// The catalogue's entry for a feature of the package.
pub open spec fn feature_entry(name: Seq<char>, switches: Seq<Seq<char>>) -> (
    Seq<char>,
    AnyFeatureView,
) {
    (name, AnyFeatureView::Feature(FeatureView { name, dependencies: switches }))
}

/// The catalogue's entry for an optional dependency of the package: it stands
/// under the package's name and is activated by the name it is used under.
pub open spec fn optional_entry(d: PackageDependencyView) -> (Seq<char>, AnyFeatureView) {
    (
        d.name,
        AnyFeatureView::OptionalDependency(
            match d.rename {
                Some(rename) => OptionalDependencyView { name: rename, package: Some(d.name) },
                None => OptionalDependencyView { name: d.name, package: None },
            },
        ),
    )
}

/// The catalogue's entries for the features of a package.
pub open spec fn declared_features(features: Seq<(String, Vec<String>)>) -> Seq<
    (Seq<char>, AnyFeatureView),
> {
    Seq::new(features.len(), |i: int| feature_entry(features[i].0@, texts_view(features[i].1@)))
}

/// Whether `entries` has an entry under `name`.
pub open spec fn has_entry(entries: Seq<(Seq<char>, AnyFeatureView)>, name: Seq<char>) -> bool {
    exists|i: int| 0 <= i < entries.len() && (#[trigger] entries[i]).0 == name
}

/// `entries` followed by an entry for each optional dependency, in their
/// order, whose name has no entry yet.
pub open spec fn with_optional(
    entries: Seq<(Seq<char>, AnyFeatureView)>,
    dependencies: Seq<PackageDependencyView>,
) -> Seq<(Seq<char>, AnyFeatureView)>
    decreases dependencies.len(),
{
    if dependencies.len() == 0 {
        entries
    } else {
        let before = with_optional(entries, dependencies.drop_last());
        let last = dependencies.last();
        if last.optional && !has_entry(before, last.name) {
            before.push(optional_entry(last))
        } else {
            before
        }
    }
}

/// Whether `features` has an entry under `name`.
fn names_feature(features: &Vec<(String, AnyFeature)>, name: &String) -> (named: bool)
    ensures
        named == has_entry(feature_entries(features@), name@),
{
    let mut i: usize = 0;
    while i < features.len()
        invariant
            i <= features@.len(),
            forall|k: int| 0 <= k < i ==> (#[trigger] feature_entries(features@)[k]).0 != name@,
        decreases features@.len() - i,
    {
        if features[i].0 == *name {
            assert(feature_entries(features@)[i as int].0 == name@);
            return true;
        }
        i = i + 1;
    }
    false
}

impl Manifest {
    /// The manifest of a package: its name and version, its dependencies in
    /// their order, and as features first the package's features and then
    /// each optional dependency whose name is not taken.
    pub fn from_package(pkg: Package) -> (manifest: Manifest)
        ensures
            manifest.name == pkg.name,
            manifest.version == pkg.version,
            dependency_views(manifest.dependencies@) == package_dependency_views(
                pkg.dependencies@,
            ).map_values(|d: PackageDependencyView| declared_dependency(d)),
            feature_entries(manifest.features@) == with_optional(
                declared_features(pkg.features@),
                package_dependency_views(pkg.dependencies@),
            ),
    {
        let mut features: Vec<(String, AnyFeature)> = Vec::new();
        let ghost declared = declared_features(pkg.features@);
        for entry in it: pkg.features
            invariant
                it.seq() == pkg.features@,
                declared == declared_features(pkg.features@),
                feature_entries(features@) == declared.take(it.index()),
        {
            let ghost held = features@;
            let (name, switches) = entry;
            let feature = Feature::new(name.as_str(), &switches);
            features.push((name, AnyFeature::Feature(feature)));
            assert(feature_entries(features@) =~= feature_entries(held).push(
                declared[it.index()],
            ));
            assert(declared.take(it.index() + 1) =~= declared.take(it.index()).push(
                declared[it.index()],
            ));
        }
        assert(declared.take(declared.len() as int) =~= declared);

        let ghost listed = package_dependency_views(pkg.dependencies@);
        let ghost wanted = listed.map_values(|d: PackageDependencyView| declared_dependency(d));
        let mut dependencies: Vec<Dependency> = Vec::new();
        assert(listed.take(0) =~= Seq::empty());
        assert(dependency_views(dependencies@) =~= wanted.take(0));
        for dep in it: pkg.dependencies
            invariant
                it.seq() == pkg.dependencies@,
                listed == package_dependency_views(pkg.dependencies@),
                wanted == listed.map_values(|d: PackageDependencyView| declared_dependency(d)),
                dependency_views(dependencies@) == wanted.take(it.index()),
                feature_entries(features@) == with_optional(declared, listed.take(it.index())),
        {
            let ghost held = features@;
            let ghost made = dependencies@;
            proof {
                assert(listed.take(it.index() + 1).drop_last() =~= listed.take(it.index()));
                assert(listed.take(it.index() + 1).last() == dep@);
            }
            let optional = dep.optional;
            let dependency = Dependency::new(dep.name, dep.req, dep.rename);
            if optional && !names_feature(&features, &dependency.name) {
                features.push((dependency.name.clone(), AnyFeature::Dependency(dependency.clone())));
                assert(feature_entries(features@) =~= feature_entries(held).push(
                    optional_entry(dep@),
                ));
            }
            dependencies.push(dependency);
            assert(dependency_views(dependencies@) =~= dependency_views(made).push(
                declared_dependency(dep@),
            ));
            assert(wanted.take(it.index() + 1) =~= wanted.take(it.index()).push(
                declared_dependency(dep@),
            ));
        }
        assert(listed.take(listed.len() as int) =~= listed);
        assert(wanted.take(wanted.len() as int) =~= wanted);
        Manifest { name: pkg.name, version: pkg.version, dependencies, features }
    }
}

/// Merging dependencies keeps every crate's name and place.
pub proof fn lemma_merged_names(crates: Seq<CrateView>, dependencies: Seq<DependencyView>)
    ensures
        requirements_merged(crates, dependencies).len() == crates.len(),
        forall|i: int|
            0 <= i < crates.len() ==> (#[trigger] requirements_merged(crates, dependencies)[i]).name
                == crates[i].name,
    decreases dependencies.len(),
{
    if dependencies.len() > 0 {
        lemma_merged_names(crates, dependencies.drop_last());
        let held = requirements_merged(crates, dependencies.drop_last());
        if has_name(held, dependencies.last().name) {
            lemma_name_has_first(held, dependencies.last().name);
        }
    }
}

/// A crate that shares its name with another crate of the catalogue keeps the
/// version requirement it had, whatever the manifest declares: the merge
/// passes over a name that more than one crate has.
pub proof fn lemma_shared_name_is_passed_over(
    crates: Seq<CrateView>,
    dependencies: Seq<DependencyView>,
    i: int,
    j: int,
)
    requires
        0 <= i < crates.len(),
        0 <= j < crates.len(),
        i != j,
        crates[i].name == crates[j].name,
    ensures
        requirements_merged(crates, dependencies)[i].version == crates[i].version,
    decreases dependencies.len(),
{
    if dependencies.len() > 0 {
        lemma_shared_name_is_passed_over(crates, dependencies.drop_last(), i, j);
        lemma_merged_names(crates, dependencies.drop_last());
        let held = requirements_merged(crates, dependencies.drop_last());
        let name = dependencies.last().name;
        if only_one_named(held, name) {
            lemma_name_has_first(held, name);
            if first_named(held, name) == i {
                assert(held[j].name == name);
            }
        }
    }
}

/// A crate whose name no dependency of the manifest has keeps the version
/// requirement it had.
pub proof fn lemma_unnamed_is_passed_over(
    crates: Seq<CrateView>,
    dependencies: Seq<DependencyView>,
    i: int,
)
    requires
        0 <= i < crates.len(),
        forall|k: int|
            0 <= k < dependencies.len() ==> (#[trigger] dependencies[k]).name != crates[i].name,
    ensures
        requirements_merged(crates, dependencies)[i].version == crates[i].version,
    decreases dependencies.len(),
{
    if dependencies.len() > 0 {
        let shorter = dependencies.drop_last();
        assert forall|k: int| 0 <= k < shorter.len() implies (#[trigger] shorter[k]).name
            != crates[i].name by {
            assert(shorter[k] == dependencies[k]);
        }
        lemma_unnamed_is_passed_over(crates, shorter, i);
        lemma_merged_names(crates, shorter);
        let held = requirements_merged(crates, shorter);
        let name = dependencies.last().name;
        assert(dependencies[dependencies.len() - 1].name != crates[i].name);
        if only_one_named(held, name) {
            lemma_name_has_first(held, name);
        }
    }
}

/// The only crate of its name requires, after the merge, what the last
/// dependency of that name requires.
pub proof fn lemma_last_dependency_counts(
    crates: Seq<CrateView>,
    dependencies: Seq<DependencyView>,
    i: int,
    k: int,
)
    requires
        0 <= i < crates.len(),
        only_one_named(crates, crates[i].name),
        0 <= k < dependencies.len(),
        dependencies[k].name == crates[i].name,
        forall|later: int|
            k < later < dependencies.len() ==> (#[trigger] dependencies[later]).name
                != crates[i].name,
    ensures
        requirements_merged(crates, dependencies)[i].version == Some(dependencies[k].version),
    decreases dependencies.len(),
{
    let shorter = dependencies.drop_last();
    lemma_merged_names(crates, shorter);
    let held = requirements_merged(crates, shorter);
    let name = dependencies.last().name;
    lemma_same_names(held, crates, name);
    if k == dependencies.len() - 1 {
        lemma_name_has_first(crates, name);
        assert(first_named(crates, name) == i);
    } else {
        assert forall|later: int| k < later < shorter.len() implies (#[trigger] shorter[later]).name
            != crates[i].name by {
            assert(shorter[later] == dependencies[later]);
        }
        assert(shorter[k] == dependencies[k]);
        lemma_last_dependency_counts(crates, shorter, i, k);
        assert(dependencies[dependencies.len() - 1].name != crates[i].name);
        if only_one_named(held, name) {
            lemma_name_has_first(held, name);
        }
    }
}

} // verus!
