use crate_api::AnyFeature;
use crate_api::Api;
use crate_api::Crate;
use crate_api::CrateId;
use crate_api::Crates;
use crate_api::Error;
use crate_api::ErrorKind;
use crate_api::Feature;
use crate_api::Features;
use crate_api::Item;
use crate_api::ItemId;
use crate_api::Items;
use crate_api::OptionalDependency;
use crate_api::Path;
use crate_api::PathId;
use crate_api::PathKind;
use crate_api::Paths;
use crate_api::Span;

#[test]
fn path_new_is_bare() {
    let p = Path::new(PathKind::Struct, "a::B");
    assert_eq!(p.path, "a::B");
    assert_eq!(p.kind, PathKind::Struct);
    assert_eq!(p.crate_id, None);
    assert_eq!(p.span, None);
    assert_eq!(p.item_id, None);
    assert!(p.children.is_empty());
}

#[test]
fn item_new_is_bare() {
    let i = Item::new();
    assert_eq!(i.crate_id, None);
    assert_eq!(i.name, None);
    assert_eq!(i.span, None);
}

#[test]
fn crate_new_has_no_requirement() {
    let c = Crate::new("serde");
    assert_eq!(c.name, "serde");
    assert!(c.version.is_none());
}

#[test]
fn feature_new_switches_nothing_on() {
    let f = Feature::new("std");
    assert_eq!(f.name, "std");
    assert!(f.dependencies.is_empty());
}

#[test]
fn optional_dependency_new_is_not_renamed() {
    let d = OptionalDependency::new("serde");
    assert_eq!(d.name, "serde");
    assert_eq!(d.package, None);
}

#[test]
fn paths_ids_are_positions() {
    let mut paths = Paths::new();
    assert!(paths.is_empty());
    assert_eq!(paths.len(), 0);
    let a = paths.push(Path::new(PathKind::Module, "a"));
    let b = paths.push(Path::new(PathKind::Function, "a::f"));
    assert_eq!(a, PathId(0));
    assert_eq!(b, PathId(1));
    assert_eq!(paths.len(), 2);
    assert!(!paths.is_empty());
    assert_eq!(paths.get(a).unwrap().path, "a");
    assert_eq!(paths.get(b).unwrap().path, "a::f");
    assert!(paths.get(PathId(2)).is_none());
}

#[test]
fn paths_get_mut_changes_one_path() {
    let mut paths = Paths::new();
    let a = paths.push(Path::new(PathKind::Module, "a"));
    let b = paths.push(Path::new(PathKind::Function, "a::f"));
    paths.get_mut(a).unwrap().children.push(b);
    paths.get_mut(b).unwrap().item_id = Some(ItemId(7));
    assert_eq!(paths.get(a).unwrap().children, vec![b]);
    assert_eq!(paths.get(a).unwrap().item_id, None);
    assert_eq!(paths.get(b).unwrap().item_id, Some(ItemId(7)));
    assert!(paths.get(b).unwrap().children.is_empty());
    assert!(paths.get_mut(PathId(2)).is_none());
}

#[test]
fn paths_iter_goes_in_id_order() {
    let mut paths = Paths::new();
    paths.push(Path::new(PathKind::Module, "a"));
    paths.push(Path::new(PathKind::Function, "a::f"));
    paths.push(Path::new(PathKind::Struct, "a::S"));
    let all = paths.iter();
    assert_eq!(all.len(), 3);
    assert_eq!(all[0].0, PathId(0));
    assert_eq!(all[1].0, PathId(1));
    assert_eq!(all[2].0, PathId(2));
    assert_eq!(all[0].1.path, "a");
    assert_eq!(all[1].1.path, "a::f");
    assert_eq!(all[2].1.path, "a::S");
}

#[test]
fn items_ids_are_positions() {
    let mut items = Items::new();
    assert!(items.is_empty());
    let mut first = Item::new();
    first.name = Some("first".to_owned());
    let mut second = Item::new();
    second.name = Some("second".to_owned());
    assert_eq!(items.push(first), ItemId(0));
    assert_eq!(items.push(second), ItemId(1));
    assert_eq!(items.len(), 2);
    assert_eq!(items.get(ItemId(1)).unwrap().name.as_deref(), Some("second"));
    assert!(items.get(ItemId(2)).is_none());
    items.get_mut(ItemId(0)).unwrap().crate_id = Some(CrateId(3));
    assert_eq!(items.get(ItemId(0)).unwrap().crate_id, Some(CrateId(3)));
    assert_eq!(items.get(ItemId(0)).unwrap().name.as_deref(), Some("first"));
    assert!(items.get_mut(ItemId(2)).is_none());
    let all = items.iter();
    assert_eq!(all.len(), 2);
    assert_eq!(all[0].0, ItemId(0));
    assert_eq!(all[1].1.name.as_deref(), Some("second"));
}

#[test]
fn crates_ids_are_positions() {
    let mut crates = Crates::new();
    assert!(crates.is_empty());
    assert_eq!(crates.push(Crate::new("a")), CrateId(0));
    assert_eq!(crates.push(Crate::new("b")), CrateId(1));
    assert_eq!(crates.len(), 2);
    assert_eq!(crates.get(CrateId(0)).unwrap().name, "a");
    assert_eq!(crates.get(CrateId(1)).unwrap().name, "b");
    assert!(crates.get(CrateId(2)).is_none());
    crates.get_mut(CrateId(1)).unwrap().version = Some(semver::VersionReq::parse("^1").unwrap());
    assert!(crates.get(CrateId(0)).unwrap().version.is_none());
    assert_eq!(
        crates.get(CrateId(1)).unwrap().version,
        Some(semver::VersionReq::parse("^1").unwrap())
    );
    let all = crates.iter();
    assert_eq!(all.len(), 2);
    assert_eq!(all[0].0, CrateId(0));
    assert_eq!(all[1].0, CrateId(1));
    assert_eq!(all[1].1.name, "b");
}

#[test]
fn span_clone_is_equal() {
    let span = Span { filename: "src/lib.rs".to_owned(), begin: (1, 2), end: (3, 4) };
    let copy = span.clone();
    assert_eq!(copy, span);
    assert_eq!(copy.filename, "src/lib.rs");
    assert_eq!(copy.begin, (1, 2));
    assert_eq!(copy.end, (3, 4));
}

#[test]
fn features_insert_then_get() {
    let mut features = Features::new();
    assert!(features.is_empty());
    assert_eq!(features.len(), 0);
    assert!(features.get("std").is_none());
    features.insert("std".to_owned(), AnyFeature::Feature(Feature::new("std")));
    features.insert(
        "serde".to_owned(),
        AnyFeature::OptionalDependency(OptionalDependency::new("serde")),
    );
    assert!(!features.is_empty());
    assert_eq!(features.len(), 2);
    assert_eq!(features.get("std"), Some(&AnyFeature::Feature(Feature::new("std"))));
    assert_eq!(
        features.get("serde"),
        Some(&AnyFeature::OptionalDependency(OptionalDependency::new("serde")))
    );
    assert!(features.get("alloc").is_none());
}

#[test]
fn features_insert_replaces_in_place() {
    let mut features = Features::new();
    features.insert("a".to_owned(), AnyFeature::Feature(Feature::new("a")));
    features.insert("b".to_owned(), AnyFeature::Feature(Feature::new("b")));
    let mut renamed = OptionalDependency::new("a");
    renamed.package = Some("real-a".to_owned());
    features.insert("a".to_owned(), AnyFeature::OptionalDependency(renamed.clone()));
    assert_eq!(features.len(), 2);
    assert_eq!(features.get("a"), Some(&AnyFeature::OptionalDependency(renamed.clone())));
    let first = features.entry(0).unwrap();
    assert_eq!(first.0, "a");
    assert_eq!(first.1, &AnyFeature::OptionalDependency(renamed));
    let second = features.entry(1).unwrap();
    assert_eq!(second.0, "b");
    assert_eq!(second.1, &AnyFeature::Feature(Feature::new("b")));
    assert!(features.entry(2).is_none());
}

#[test]
fn features_clone_holds_the_same() {
    let mut features = Features::new();
    let mut f = Feature::new("full");
    f.dependencies = vec!["std".to_owned(), "serde".to_owned()];
    features.insert("full".to_owned(), AnyFeature::Feature(f.clone()));
    let copy = features.clone();
    assert_eq!(copy.len(), 1);
    assert_eq!(copy.get("full"), Some(&AnyFeature::Feature(f)));
}

#[test]
fn api_new_is_empty() {
    let api = Api::new();
    assert_eq!(api.root_id, None);
    assert!(api.paths.is_empty());
    assert!(api.items.is_empty());
    assert!(api.crates.is_empty());
    assert!(api.features.is_empty());
    let other = Api::default();
    assert_eq!(other.root_id, None);
    assert!(other.paths.is_empty());
}

#[test]
fn error_keeps_kind_and_text() {
    let e = Error::new(ErrorKind::ApiParse, "bad tree");
    assert_eq!(e.kind(), ErrorKind::ApiParse);
    assert_eq!(e.to_string(), "bad tree");
    assert_eq!(e.source(), None);
    let e = e.set_source("unexpected end of input");
    assert_eq!(e.kind(), ErrorKind::ApiParse);
    assert_eq!(e.to_string(), "bad tree");
    assert_eq!(e.source(), Some("unexpected end of input".to_owned()));
    let u = Error::new(ErrorKind::Unknown, "");
    assert_eq!(u.kind(), ErrorKind::Unknown);
    assert_eq!(u.to_string(), "");
}
