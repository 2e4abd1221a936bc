use crate_api::diff::all_ids;
use crate_api::diff::compare_requirements;
use crate_api::diff::dependency_added;
use crate_api::diff::dependency_ambiguous;
use crate_api::diff::dependency_removed;
use crate_api::diff::dependency_requirement;
use crate_api::diff::diff;
use crate_api::diff::public_dependencies;
use crate_api::diff::Category;
use crate_api::diff::Diff;
use crate_api::diff::Location;
use crate_api::diff::Severity;
use crate_api::Api;
use crate_api::Crate;
use crate_api::CrateId;

fn api_of(crates: &[(&str, Option<&str>)]) -> Api {
    let mut api = Api::new();
    for (name, version) in crates {
        let mut crate_ = Crate::new(name);
        crate_.version = version.map(|v| semver::VersionReq::parse(v).unwrap());
        api.crates.push(crate_);
    }
    api
}

fn at(id: usize) -> Option<Location> {
    let mut location = Location::default();
    location.crate_id = Some(CrateId(id));
    Some(location)
}

fn diffs_of(before: &[(&str, Option<&str>)], after: &[(&str, Option<&str>)]) -> Vec<Diff> {
    let mut changes = Vec::new();
    diff(&api_of(before), &api_of(after), &mut changes);
    changes
}

#[test]
fn rules_are_what_they_are() {
    let removed = dependency_removed();
    assert_eq!(removed.name, "dependency-removed");
    assert_eq!(removed.explanation, "Public dependency removed because of an API change");
    assert_eq!(removed.category, Category::Removed);
    assert_eq!(removed.default_severity, Severity::Allow);
    let added = dependency_added();
    assert_eq!(added.name, "dependency-added");
    assert_eq!(added.category, Category::Added);
    assert_eq!(added.default_severity, Severity::Report);
    let ambiguous = dependency_ambiguous();
    assert_eq!(ambiguous.name, "dependency-ambiguous");
    assert_eq!(ambiguous.explanation, "Could not determine the dependency version to check it");
    assert_eq!(ambiguous.category, Category::Unknown);
    assert_eq!(ambiguous.default_severity, Severity::Allow);
    let requirement = dependency_requirement();
    assert_eq!(requirement.name, "dependency-requirement");
    assert_eq!(
        requirement.explanation,
        "Changing the major version requirements breaks compatibility"
    );
    assert_eq!(requirement.category, Category::Changed);
    assert_eq!(requirement.default_severity, Severity::Warn);
    assert_eq!(all_ids(), vec![removed, added, ambiguous, requirement]);
}

#[test]
fn severities_and_categories_are_ordered() {
    assert!(Severity::Allow < Severity::Report);
    assert!(Severity::Report < Severity::Warn);
    assert!(Category::Unknown < Category::Added);
    assert!(Category::Added < Category::Removed);
    assert!(Category::Removed < Category::Changed);
}

#[test]
fn default_location_names_nothing() {
    let location = Location::default();
    assert_eq!(location.crate_id, None);
    assert_eq!(location.path_id, None);
    assert_eq!(location.item_id, None);
}

#[test]
fn nothing_changes_between_empty_catalogues() {
    assert!(diffs_of(&[], &[]).is_empty());
}

#[test]
fn crate_only_after_is_added_once() {
    let changes = diffs_of(&[("a", Some("^1"))], &[("a", Some("^1")), ("b", Some("^1"))]);
    assert_eq!(changes.len(), 1);
    assert_eq!(changes[0].id, dependency_added());
    assert_eq!(changes[0].id.category, Category::Added);
    assert_eq!(changes[0].severity, Severity::Report);
    assert_eq!(changes[0].before, None);
    assert_eq!(changes[0].after, at(1));
}

#[test]
fn crate_only_before_is_removed_once() {
    let changes = diffs_of(&[("a", Some("^1")), ("b", None)], &[("a", Some("^1"))]);
    assert_eq!(changes.len(), 1);
    assert_eq!(changes[0].id, dependency_removed());
    assert_eq!(changes[0].id.category, Category::Removed);
    assert_eq!(changes[0].severity, Severity::Allow);
    assert_eq!(changes[0].before, at(1));
    assert_eq!(changes[0].after, None);
}

#[test]
fn crate_without_requirements_is_ambiguous_once() {
    let changes = diffs_of(&[("x", None), ("a", None)], &[("a", None)]);
    let about_a: Vec<&Diff> =
        changes.iter().filter(|d| d.id == dependency_ambiguous()).collect();
    assert_eq!(about_a.len(), 1);
    assert_eq!(about_a[0].severity, Severity::Allow);
    assert_eq!(about_a[0].id.category, Category::Unknown);
    assert_eq!(about_a[0].before, at(1));
    assert_eq!(about_a[0].after, at(0));
    assert_eq!(about_a[0].before.unwrap().path_id, None);
    assert_eq!(about_a[0].before.unwrap().item_id, None);
    assert_eq!(about_a[0].after.unwrap().path_id, None);
    assert_eq!(about_a[0].after.unwrap().item_id, None);
    assert_eq!(changes.len(), 2);
}

#[test]
fn crate_with_one_requirement_missing_is_ambiguous() {
    let changes = diffs_of(&[("a", Some("^1"))], &[("a", None)]);
    assert_eq!(changes.len(), 1);
    assert_eq!(changes[0].id, dependency_ambiguous());
    let changes = diffs_of(&[("a", None)], &[("a", Some("^1"))]);
    assert_eq!(changes.len(), 1);
    assert_eq!(changes[0].id, dependency_ambiguous());
}

#[test]
fn major_bump_breaks() {
    let changes = diffs_of(&[("a", Some("^1.0.0"))], &[("a", Some("^2.0.0"))]);
    assert_eq!(changes.len(), 1);
    assert_eq!(changes[0].id, dependency_requirement());
    assert_eq!(changes[0].severity, Severity::Warn);
    assert_eq!(changes[0].id.category, Category::Changed);
    assert_eq!(changes[0].before, at(0));
    assert_eq!(changes[0].after, at(0));
}

#[test]
fn minor_bump_above_one_does_not_break() {
    assert!(diffs_of(&[("a", Some("^1.0.0"))], &[("a", Some("^1.9.0"))]).is_empty());
}

#[test]
fn equal_requirements_do_not_break() {
    assert!(diffs_of(&[("a", Some("=1.0.0"))], &[("a", Some("=1.0.0"))]).is_empty());
}

#[test]
fn minor_bump_below_one_breaks() {
    let changes = diffs_of(&[("a", Some(">=0.3.0"))], &[("a", Some(">=0.4.0"))]);
    assert_eq!(changes.len(), 1);
    assert_eq!(changes[0].id, dependency_requirement());
    assert_eq!(changes[0].severity, Severity::Warn);
}

#[test]
fn lowered_upper_bound_breaks() {
    let changes = diffs_of(&[("a", Some("<3"))], &[("a", Some("<2"))]);
    assert_eq!(changes.len(), 1);
    assert_eq!(changes[0].id, dependency_requirement());
}

#[test]
fn widened_requirement_does_not_break() {
    assert!(diffs_of(&[("a", Some("<2"))], &[("a", Some("<3"))]).is_empty());
    assert!(diffs_of(&[("a", Some(">2"))], &[("a", Some(">1"))]).is_empty());
    assert!(diffs_of(&[("a", Some("^1"))], &[("a", Some("*"))]).is_empty());
}

#[test]
fn narrowed_from_unconstrained_breaks() {
    let changes = diffs_of(&[("a", Some("*"))], &[("a", Some("^1"))]);
    assert_eq!(changes.len(), 1);
    assert_eq!(changes[0].id, dependency_requirement());
}

#[test]
fn prerelease_alone_does_not_break() {
    assert!(diffs_of(&[("a", Some("^1.0.0-alpha"))], &[("a", Some("^1.0.0-beta"))]).is_empty());
}

#[test]
fn first_crate_of_a_name_counts() {
    let changes = diffs_of(
        &[("a", Some("^1")), ("a", Some("^5"))],
        &[("b", None), ("a", Some("^2")), ("a", Some("^1"))],
    );
    assert_eq!(changes.len(), 2);
    assert_eq!(changes[0].id, dependency_added());
    assert_eq!(changes[0].after, at(0));
    assert_eq!(changes[1].id, dependency_requirement());
    assert_eq!(changes[1].before, at(0));
    assert_eq!(changes[1].after, at(1));
}

#[test]
fn removals_come_first_then_additions_then_the_rest() {
    let changes = diffs_of(
        &[("gone1", None), ("kept", None), ("gone2", None), ("moved", Some("^1"))],
        &[("new1", None), ("moved", Some("^2")), ("kept", None), ("new2", None)],
    );
    assert_eq!(changes.len(), 6);
    assert_eq!(changes[0].id, dependency_removed());
    assert_eq!(changes[0].before, at(0));
    assert_eq!(changes[1].id, dependency_removed());
    assert_eq!(changes[1].before, at(2));
    assert_eq!(changes[2].id, dependency_added());
    assert_eq!(changes[2].after, at(0));
    assert_eq!(changes[3].id, dependency_added());
    assert_eq!(changes[3].after, at(3));
    assert_eq!(changes[4].id, dependency_requirement());
    assert_eq!(changes[4].before, at(3));
    assert_eq!(changes[4].after, at(1));
    assert_eq!(changes[5].id, dependency_ambiguous());
    assert_eq!(changes[5].before, at(1));
    assert_eq!(changes[5].after, at(2));
}

#[test]
fn differences_are_appended() {
    let before = api_of(&[("a", None)]);
    let after = api_of(&[]);
    let mut changes = Vec::new();
    public_dependencies(&before, &after, &mut changes);
    public_dependencies(&before, &after, &mut changes);
    assert_eq!(changes.len(), 2);
    assert_eq!(changes[0], changes[1]);
    assert_eq!(changes[0].id, dependency_removed());
}

#[test]
fn one_crate_is_compared_by_its_requirements() {
    let mut old = Crate::new("a");
    let mut new = Crate::new("a");
    let found = compare_requirements(&old, CrateId(4), &new, CrateId(6)).unwrap();
    assert_eq!(found.id, dependency_ambiguous());
    assert_eq!(found.before, at(4));
    assert_eq!(found.after, at(6));
    old.version = Some(semver::VersionReq::parse("^0.3").unwrap());
    new.version = Some(semver::VersionReq::parse("^0.3.7").unwrap());
    assert_eq!(compare_requirements(&old, CrateId(4), &new, CrateId(6)), None);
    new.version = Some(semver::VersionReq::parse("^0.4").unwrap());
    let found = compare_requirements(&old, CrateId(4), &new, CrateId(6)).unwrap();
    assert_eq!(found.id, dependency_requirement());
    assert_eq!(found.severity, Severity::Warn);
    assert_eq!(found.before, at(4));
    assert_eq!(found.after, at(6));
}
