use crate_api::manifest::AnyFeature;
use crate_api::manifest::Dependency;
use crate_api::manifest::Feature;
use crate_api::manifest::Manifest;
use crate_api::manifest::Package;
use crate_api::manifest::PackageDependency;
use crate_api::Api;
use crate_api::Crate;
use crate_api::CrateId;

fn req(text: &str) -> semver::VersionReq {
    semver::VersionReq::parse(text).unwrap()
}

fn package(
    dependencies: Vec<PackageDependency>,
    features: Vec<(String, Vec<String>)>,
) -> Package {
    Package {
        name: "pkg".to_owned(),
        version: semver::Version::new(1, 2, 3),
        dependencies,
        features,
    }
}

fn depends(name: &str, version: &str, optional: bool, rename: Option<&str>) -> PackageDependency {
    PackageDependency {
        name: name.to_owned(),
        req: req(version),
        optional,
        rename: rename.map(|r| r.to_owned()),
    }
}

fn api_with(names: &[&str]) -> Api {
    let mut api = Api::new();
    for name in names {
        api.crates.push(Crate::new(name));
    }
    api
}

fn version_of(api: &Api, id: usize) -> Option<semver::VersionReq> {
    api.crates.get(CrateId(id)).unwrap().version.clone()
}

#[test]
fn manifest_feature_copies_its_parts() {
    let f = Feature::new("full", &vec!["std".to_owned(), "serde".to_owned()]);
    assert_eq!(f.name, "full");
    assert_eq!(f.dependencies, vec!["std".to_owned(), "serde".to_owned()]);
}

#[test]
fn feature_converts_as_it_is() {
    let f = Feature::new("full", &vec!["std".to_owned()]);
    let converted = crate_api::Feature::from(f);
    assert_eq!(converted.name, "full");
    assert_eq!(converted.dependencies, vec!["std".to_owned()]);
}

#[test]
fn dependency_converts_to_its_own_name() {
    let d = Dependency::new("serde".to_owned(), req("^1"), None);
    let converted = crate_api::OptionalDependency::from(d);
    assert_eq!(converted.name, "serde");
    assert_eq!(converted.package, None);
}

#[test]
fn renamed_dependency_converts_to_the_name_it_is_used_under() {
    let d = Dependency::new("serde".to_owned(), req("^1"), Some("serde1".to_owned()));
    let converted = crate_api::OptionalDependency::from(d);
    assert_eq!(converted.name, "serde1");
    assert_eq!(converted.package, Some("serde".to_owned()));
}

#[test]
fn any_feature_converts_by_its_kind() {
    let f = AnyFeature::Feature(Feature::new("a", &vec![]));
    assert_eq!(
        crate_api::AnyFeature::from(f),
        crate_api::AnyFeature::Feature(crate_api::Feature::new("a"))
    );
    let d = AnyFeature::Dependency(Dependency::new("b".to_owned(), req("*"), None));
    assert_eq!(
        crate_api::AnyFeature::from(d),
        crate_api::AnyFeature::OptionalDependency(crate_api::OptionalDependency::new("b"))
    );
}

#[test]
fn dependency_clone_is_the_same() {
    let d = Dependency::new("serde".to_owned(), req(">=1.2, <2"), Some("s".to_owned()));
    let copy = d.clone();
    assert_eq!(copy.name, "serde");
    assert_eq!(copy.version, req(">=1.2, <2"));
    assert_eq!(copy.rename, Some("s".to_owned()));
}

#[test]
fn merge_sets_the_requirement_of_the_only_crate_of_a_name() {
    let mut api = api_with(&["a", "b"]);
    let manifest = Manifest::from_package(package(
        vec![depends("b", "^2.1", false, None), depends("c", "^3", false, None)],
        vec![],
    ));
    manifest.into_api(&mut api);
    assert_eq!(version_of(&api, 0), None);
    assert_eq!(version_of(&api, 1), Some(req("^2.1")));
    assert_eq!(api.crates.len(), 2);
    assert_eq!(api.crates.get(CrateId(0)).unwrap().name, "a");
    assert_eq!(api.crates.get(CrateId(1)).unwrap().name, "b");
}

#[test]
fn merge_passes_over_a_name_that_two_crates_have() {
    let mut api = api_with(&["a", "b", "a"]);
    let manifest = Manifest::from_package(package(
        vec![depends("a", "^1", false, None), depends("b", "^2", false, None)],
        vec![],
    ));
    manifest.into_api(&mut api);
    assert_eq!(version_of(&api, 0), None);
    assert_eq!(version_of(&api, 1), Some(req("^2")));
    assert_eq!(version_of(&api, 2), None);
}

#[test]
fn merge_lets_the_last_dependency_of_a_name_count() {
    let mut api = api_with(&["a"]);
    let manifest = Manifest::from_package(package(
        vec![depends("a", "^1", false, None), depends("a", "^2", false, None)],
        vec![],
    ));
    manifest.into_api(&mut api);
    assert_eq!(version_of(&api, 0), Some(req("^2")));
}

#[test]
fn merge_leaves_paths_items_and_root_alone() {
    let mut api = api_with(&["a"]);
    let root = api.paths.push(crate_api::Path::new(crate_api::PathKind::Module, "pkg"));
    api.root_id = Some(root);
    api.items.push(crate_api::Item::new());
    let manifest = Manifest::from_package(package(vec![depends("a", "^1", false, None)], vec![]));
    manifest.into_api(&mut api);
    assert_eq!(api.root_id, Some(root));
    assert_eq!(api.paths.len(), 1);
    assert_eq!(api.paths.get(root).unwrap().path, "pkg");
    assert_eq!(api.items.len(), 1);
}

#[test]
fn merge_copies_the_features() {
    let mut api = api_with(&[]);
    api.features.insert(
        "old".to_owned(),
        crate_api::AnyFeature::Feature(crate_api::Feature::new("old")),
    );
    api.features.insert(
        "std".to_owned(),
        crate_api::AnyFeature::Feature(crate_api::Feature::new("std")),
    );
    let manifest = Manifest::from_package(package(
        vec![depends("serde", "^1", true, Some("serde1"))],
        vec![("std".to_owned(), vec!["alloc".to_owned()])],
    ));
    manifest.into_api(&mut api);
    assert_eq!(api.features.len(), 3);
    assert_eq!(
        api.features.get("old"),
        Some(&crate_api::AnyFeature::Feature(crate_api::Feature::new("old")))
    );
    let mut std = crate_api::Feature::new("std");
    std.dependencies = vec!["alloc".to_owned()];
    assert_eq!(api.features.get("std"), Some(&crate_api::AnyFeature::Feature(std)));
    let mut serde = crate_api::OptionalDependency::new("serde1");
    serde.package = Some("serde".to_owned());
    assert_eq!(
        api.features.get("serde"),
        Some(&crate_api::AnyFeature::OptionalDependency(serde))
    );
}

#[test]
fn manifest_of_a_package_lists_its_dependencies_in_order() {
    let manifest = Manifest::from_package(package(
        vec![depends("b", "^2", false, Some("bee")), depends("a", "^1", true, None)],
        vec![],
    ));
    assert_eq!(manifest.name, "pkg");
    assert_eq!(manifest.version, semver::Version::new(1, 2, 3));
    assert_eq!(manifest.dependencies.len(), 2);
    assert_eq!(manifest.dependencies[0].name, "b");
    assert_eq!(manifest.dependencies[0].version, req("^2"));
    assert_eq!(manifest.dependencies[0].rename, Some("bee".to_owned()));
    assert_eq!(manifest.dependencies[1].name, "a");
    assert_eq!(manifest.dependencies[1].version, req("^1"));
    assert_eq!(manifest.dependencies[1].rename, None);
}

#[test]
fn manifest_of_a_package_adds_optional_dependencies_to_the_features() {
    let manifest = Manifest::from_package(package(
        vec![
            depends("plain", "^1", false, None),
            depends("extra", "^2", true, None),
            depends("taken", "^3", true, None),
            depends("extra", "^4", true, None),
        ],
        vec![
            ("std".to_owned(), vec![]),
            ("taken".to_owned(), vec!["extra".to_owned()]),
        ],
    ));
    assert_eq!(manifest.features.len(), 3);
    assert_eq!(manifest.features[0].0, "std");
    assert_eq!(manifest.features[1].0, "taken");
    assert_eq!(manifest.features[2].0, "extra");
    match &manifest.features[0].1 {
        AnyFeature::Feature(f) => {
            assert_eq!(f.name, "std");
            assert!(f.dependencies.is_empty());
        }
        AnyFeature::Dependency(_) => panic!("`std` is a feature"),
    }
    match &manifest.features[1].1 {
        AnyFeature::Feature(f) => {
            assert_eq!(f.name, "taken");
            assert_eq!(f.dependencies, vec!["extra".to_owned()]);
        }
        AnyFeature::Dependency(_) => panic!("`taken` is a feature"),
    }
    match &manifest.features[2].1 {
        AnyFeature::Dependency(d) => {
            assert_eq!(d.name, "extra");
            assert_eq!(d.version, req("^2"));
        }
        AnyFeature::Feature(_) => panic!("`extra` is an optional dependency"),
    }
}
