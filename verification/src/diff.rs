//! Comparison of two catalogues. One family of checks exists: the crates that
//! a package exposes, and the versions it requires of them.

use vstd::prelude::*;
use vstd::hash_map::StringHashMap;
use crate::api::Api;
use crate::api::Crate;
use crate::api::CrateId;
use crate::api::CrateView;
use crate::api::Crates;
use crate::api::ItemId;
use crate::api::PathId;
use crate::interval::breaking;
use crate::interval::parts_less;
use crate::interval::requirement_breaks;
use crate::version::same_requirement;

verus! {

/// What a difference does to the surface.
#[derive(Copy, Clone, Debug, PartialEq, Eq, PartialOrd, Ord, Structural)]
pub enum Category {
    Unknown,
    Added,
    Removed,
    Changed,
}

/// How loudly a difference is reported, from quietest to loudest.
#[derive(Copy, Clone, Debug, PartialEq, Eq, PartialOrd, Ord, Structural)]
pub enum Severity {
    Allow,
    Report,
    Warn,
}

/// The rule that found a difference.
#[derive(Copy, Clone, Debug, PartialEq, Eq)]
#[non_exhaustive]
pub struct Id {
    pub name: &'static str,
    pub explanation: &'static str,
    pub category: Category,
    pub default_severity: Severity,
}

/// An `Id` as the contracts see it.
pub struct IdView {
    pub name: Seq<char>,
    pub explanation: Seq<char>,
    pub category: Category,
    pub default_severity: Severity,
}

impl View for Id {
    type V = IdView;

    open spec fn view(&self) -> IdView {
        IdView {
            name: self.name@,
            explanation: self.explanation@,
            category: self.category,
            default_severity: self.default_severity,
        }
    }
}

/// Where in a catalogue a difference lies.
#[derive(Copy, Clone, Debug, PartialEq, Eq, Structural)]
#[non_exhaustive]
pub struct Location {
    pub crate_id: Option<CrateId>,
    pub path_id: Option<PathId>,
    pub item_id: Option<ItemId>,
}

impl Default for Location {
    fn default() -> (location: Location)
        ensures
            location == (Location { crate_id: None, path_id: None, item_id: None }),
    {
        Location { crate_id: None, path_id: None, item_id: None }
    }
}

/// One difference between two catalogues.
#[derive(Clone, Debug, PartialEq, Eq)]
#[non_exhaustive]
pub struct Diff {
    pub severity: Severity,
    pub id: Id,
    pub before: Option<Location>,
    pub after: Option<Location>,
}

/// A `Diff` as the contracts see it.
pub struct DiffView {
    pub severity: Severity,
    pub id: IdView,
    pub before: Option<Location>,
    pub after: Option<Location>,
}

impl View for Diff {
    type V = DiffView;

    open spec fn view(&self) -> DiffView {
        DiffView { severity: self.severity, id: self.id@, before: self.before, after: self.after }
    }
}

/// The views of a list of differences.
pub open spec fn diff_views(list: Seq<Diff>) -> Seq<DiffView> {
    Seq::new(list.len(), |i: int| list[i]@)
}

/// The rule for a public dependency that is no longer exposed.
pub open spec fn removed_rule() -> IdView {
    IdView {
        name: "dependency-removed"@,
        explanation: "Public dependency removed because of an API change"@,
        category: Category::Removed,
        default_severity: Severity::Allow,
    }
}

/// The rule for a public dependency that was not exposed before.
pub open spec fn added_rule() -> IdView {
    IdView {
        name: "dependency-added"@,
        explanation: "Public dependency removed because of an API change"@,
        category: Category::Added,
        default_severity: Severity::Report,
    }
}

/// The rule for a public dependency whose version requirement is not known on
/// one side or the other.
pub open spec fn ambiguous_rule() -> IdView {
    IdView {
        name: "dependency-ambiguous"@,
        explanation: "Could not determine the dependency version to check it"@,
        category: Category::Unknown,
        default_severity: Severity::Allow,
    }
}

/// The rule for a public dependency whose version requirement moved to another
/// band.
pub open spec fn requirement_rule() -> IdView {
    IdView {
        name: "dependency-requirement"@,
        explanation: "Changing the major version requirements breaks compatibility"@,
        category: Category::Changed,
        default_severity: Severity::Warn,
    }
}

/// A public dependency was removed. This follows from a change of the surface
/// and is no change of its own, so it is allowed by default.
pub fn dependency_removed() -> (id: Id)
    ensures
        id@ == removed_rule(),
{
    Id {
        name: "dependency-removed",
        explanation: "Public dependency removed because of an API change",
        category: Category::Removed,
        default_severity: Severity::Allow,
    }
}

/// A public dependency was added. Reported by default, in case it was exposed
/// unawares.
pub fn dependency_added() -> (id: Id)
    ensures
        id@ == added_rule(),
{
    Id {
        name: "dependency-added",
        explanation: "Public dependency removed because of an API change",
        category: Category::Added,
        default_severity: Severity::Report,
    }
}

/// The version requirement of a public dependency could not be determined.
pub fn dependency_ambiguous() -> (id: Id)
    ensures
        id@ == ambiguous_rule(),
{
    Id {
        name: "dependency-ambiguous",
        explanation: "Could not determine the dependency version to check it",
        category: Category::Unknown,
        default_severity: Severity::Allow,
    }
}

/// The version requirement of a public dependency moved to another band.
pub fn dependency_requirement() -> (id: Id)
    ensures
        id@ == requirement_rule(),
{
    Id {
        name: "dependency-requirement",
        explanation: "Changing the major version requirements breaks compatibility",
        category: Category::Changed,
        default_severity: Severity::Warn,
    }
}

/// Every rule, in the order removed, added, ambiguous, requirement.
pub fn all_ids() -> (ids: Vec<Id>)
    ensures
        ids@.len() == 4,
        ids@[0]@ == removed_rule(),
        ids@[1]@ == added_rule(),
        ids@[2]@ == ambiguous_rule(),
        ids@[3]@ == requirement_rule(),
{
    let mut ids: Vec<Id> = Vec::new();
    ids.push(dependency_removed());
    ids.push(dependency_added());
    ids.push(dependency_ambiguous());
    ids.push(dependency_requirement());
    ids
}


/// Whether no crate before position `i` has the name of the crate at `i`.
pub open spec fn first_of_name(crates: Seq<CrateView>, i: int) -> bool {
    forall|j: int| 0 <= j < i ==> (#[trigger] crates[j]).name != crates[i].name
}

/// Whether some crate has the given name.
pub open spec fn has_name(crates: Seq<CrateView>, name: Seq<char>) -> bool {
    exists|j: int| 0 <= j < crates.len() && (#[trigger] crates[j]).name == name
}

/// The position of the first crate of the given name, where there is one.
pub open spec fn first_named(crates: Seq<CrateView>, name: Seq<char>) -> int {
    choose|j: int|
        0 <= j < crates.len() && (#[trigger] crates[j]).name == name && first_of_name(crates, j)
}

/// The location that names the crate at position `i` and nothing else.
pub open spec fn crate_location(i: int) -> Location {
    Location { crate_id: Some(CrateId(i as usize)), path_id: None, item_id: None }
}

/// The difference reported for the crate at position `i` of the earlier
/// catalogue when the later one has no crate of its name.
pub open spec fn removed_diff(i: int) -> DiffView {
    DiffView {
        severity: Severity::Allow,
        id: removed_rule(),
        before: Some(crate_location(i)),
        after: None,
    }
}

/// The difference reported for the crate at position `i` of the later
/// catalogue when the earlier one has no crate of its name.
pub open spec fn added_diff(i: int) -> DiffView {
    DiffView {
        severity: Severity::Report,
        id: added_rule(),
        before: None,
        after: Some(crate_location(i)),
    }
}

/// What is reported of a crate that is at position `b` of the earlier catalogue
/// and at position `a` of the later one: that nothing can be said where either
/// side lacks a version requirement; else that the requirement breaks
/// compatibility, if it does; else nothing.
pub open spec fn common_diff(earlier: CrateView, b: int, later: CrateView, a: int) -> Option<
    DiffView,
> {
    if earlier.version is None || later.version is None {
        Some(
            DiffView {
                severity: Severity::Allow,
                id: ambiguous_rule(),
                before: Some(crate_location(b)),
                after: Some(crate_location(a)),
            },
        )
    } else if requirement_breaks(earlier.version.unwrap(), later.version.unwrap()) {
        Some(
            DiffView {
                severity: Severity::Warn,
                id: requirement_rule(),
                before: Some(crate_location(b)),
                after: Some(crate_location(a)),
            },
        )
    } else {
        None
    }
}

/// The removals among the first `n` crates of `before`, in their order: one for
/// each crate that is the first of its name and whose name `after` lacks.
pub open spec fn removed_diffs(before: Seq<CrateView>, after: Seq<CrateView>, n: int) -> Seq<
    DiffView,
>
    decreases n,
{
    if n <= 0 {
        Seq::empty()
    } else {
        let rest = removed_diffs(before, after, n - 1);
        if first_of_name(before, n - 1) && !has_name(after, before[n - 1].name) {
            rest.push(removed_diff(n - 1))
        } else {
            rest
        }
    }
}

/// The additions among the first `n` crates of `after`, in their order: one for
/// each crate that is the first of its name and whose name `before` lacks.
pub open spec fn added_diffs(before: Seq<CrateView>, after: Seq<CrateView>, n: int) -> Seq<
    DiffView,
>
    decreases n,
{
    if n <= 0 {
        Seq::empty()
    } else {
        let rest = added_diffs(before, after, n - 1);
        if first_of_name(after, n - 1) && !has_name(before, after[n - 1].name) {
            rest.push(added_diff(n - 1))
        } else {
            rest
        }
    }
}

/// What is reported of the names that both sides have, going through the first
/// `n` crates of `after` in their order: each crate that is the first of its
/// name is held against the first crate of that name in `before`.
pub open spec fn common_diffs(before: Seq<CrateView>, after: Seq<CrateView>, n: int) -> Seq<
    DiffView,
>
    decreases n,
{
    if n <= 0 {
        Seq::empty()
    } else {
        let rest = common_diffs(before, after, n - 1);
        let name = after[n - 1].name;
        if first_of_name(after, n - 1) && has_name(before, name) {
            let b = first_named(before, name);
            match common_diff(before[b], b, after[n - 1], n - 1) {
                Some(d) => rest.push(d),
                None => rest,
            }
        } else {
            rest
        }
    }
}

/// Everything that is reported of the crates of two catalogues: the removals,
/// then the additions, then what is found of the names that both have. Of
/// several crates of one name in one catalogue only the first counts.
pub open spec fn dependency_diffs(before: Seq<CrateView>, after: Seq<CrateView>) -> Seq<DiffView> {
    removed_diffs(before, after, before.len() as int) + added_diffs(
        before,
        after,
        after.len() as int,
    ) + common_diffs(before, after, after.len() as int)
}

/// The first crate of a name is the only one that is first of its name.
pub proof fn lemma_first_named(crates: Seq<CrateView>, i: int)
    requires
        0 <= i < crates.len(),
        first_of_name(crates, i),
    ensures
        has_name(crates, crates[i].name),
        first_named(crates, crates[i].name) == i,
{
    let name = crates[i].name;
    let j = first_named(crates, name);
    assert(0 <= j < crates.len() && crates[j].name == name && first_of_name(crates, j));
    if j < i {
        assert(crates[j].name != crates[i].name);
    } else if i < j {
        assert(crates[i].name != crates[j].name);
    }
}

/// A name that some crate has is the name of a crate that is the first of it.
pub proof fn lemma_name_has_first(crates: Seq<CrateView>, name: Seq<char>)
    requires
        has_name(crates, name),
    ensures
        0 <= first_named(crates, name) < crates.len(),
        crates[first_named(crates, name)].name == name,
        first_of_name(crates, first_named(crates, name)),
{
    let j = choose|j: int| 0 <= j < crates.len() && (#[trigger] crates[j]).name == name;
    lemma_first_up_to(crates, name, j);
}

/// Among the crates up to one of the given name there is one that is the first
/// of that name.
proof fn lemma_first_up_to(crates: Seq<CrateView>, name: Seq<char>, j: int)
    requires
        0 <= j < crates.len(),
        crates[j].name == name,
    ensures
        exists|k: int|
            0 <= k < crates.len() && (#[trigger] crates[k]).name == name && first_of_name(
                crates,
                k,
            ),
    decreases j,
{
    if !first_of_name(crates, j) {
        let k = choose|k: int| 0 <= k < j && (#[trigger] crates[k]).name == crates[j].name;
        lemma_first_up_to(crates, name, k);
    }
}

/// For each name among `crates`, the id of the first crate of that name.
fn index_by_name(crates: &Crates) -> (index: StringHashMap<CrateId>)
    ensures
        forall|name: Seq<char>| #[trigger] index@.contains_key(name) <==> has_name(crates@, name),
        forall|name: Seq<char>| #[trigger]
            index@.contains_key(name) ==> index@[name].0 == first_named(crates@, name),
{
    let mut index: StringHashMap<CrateId> = StringHashMap::new();
    let mut i: usize = 0;
    while i < crates.len()
        invariant
            i <= crates@.len(),
            forall|name: Seq<char>| #[trigger]
                index@.contains_key(name) <==> exists|j: int|
                    0 <= j < i && (#[trigger] crates@[j]).name == name,
            forall|name: Seq<char>| #[trigger]
                index@.contains_key(name) ==> 0 <= index@[name].0 < i && crates@[index@[name].0 as int].name
                    == name && first_of_name(crates@, index@[name].0 as int),
        decreases crates@.len() - i,
    {
        let crate_ = crates.get(CrateId(i)).unwrap();
        if !index.contains_key(crate_.name.as_str()) {
            index.insert(crate_.name.clone(), CrateId(i));
        }
        proof {
            assert(crates@[i as int].name == crate_.name@);
        }
        i = i + 1;
    }
    proof {
        assert forall|name: Seq<char>| #[trigger] index@.contains_key(name) implies index@[name].0
            == first_named(crates@, name) by {
            lemma_first_named(crates@, index@[name].0 as int);
        }
    }
    index
}

/// The location that names the crate with the given id and nothing else.
fn at_crate(id: CrateId) -> (location: Option<Location>)
    ensures
        location == Some(crate_location(id.0 as int)),
{
    Some(Location { crate_id: Some(id), path_id: None, item_id: None })
}

/// Whether the crate at position `i` is the first of its name, as `index` knows it.
fn leads_its_name(index: &StringHashMap<CrateId>, crates: &Crates, crate_: &Crate, i: usize) -> (leads:
    bool)
    requires
        i < crates@.len(),
        crate_@ == crates@[i as int],
        forall|name: Seq<char>| #[trigger] index@.contains_key(name) <==> has_name(crates@, name),
        forall|name: Seq<char>| #[trigger]
            index@.contains_key(name) ==> index@[name].0 == first_named(crates@, name),
    ensures
        leads == first_of_name(crates@, i as int),
{
    let name = crate_.name.as_str();
    proof {
        assert(crates@[i as int].name == name@);
        assert(has_name(crates@, name@));
        lemma_name_has_first(crates@, name@);
        let first = first_named(crates@, name@);
        if first_of_name(crates@, i as int) {
            lemma_first_named(crates@, i as int);
        }
        if first == i {
            assert(first_of_name(crates@, i as int));
        }
    }
    match index.get(name) {
        Some(first) => first.0 == i,
        None => false,
    }
}

/// Appends to `changes` what has changed among the crates that the surface
/// exposes: removals, then additions, then the crates on both sides whose
/// version requirement is unknown or has moved to another band.
pub fn public_dependencies(before: &Api, after: &Api, changes: &mut Vec<Diff>)
    ensures
        diff_views(final(changes)@) == diff_views(old(changes)@) + dependency_diffs(
            before@.crates,
            after@.crates,
        ),
{
    let before_by_name = index_by_name(&before.crates);
    let after_by_name = index_by_name(&after.crates);
    let ghost held = diff_views(changes@);
    let ghost earlier = before@.crates;
    let ghost later = after@.crates;

    let mut i: usize = 0;
    assert(diff_views(changes@) =~= held + removed_diffs(earlier, later, 0));
    while i < before.crates.len()
        invariant
            i <= earlier.len(),
            earlier == before.crates@,
            later == after.crates@,
            forall|name: Seq<char>| #[trigger]
                before_by_name@.contains_key(name) <==> has_name(earlier, name),
            forall|name: Seq<char>| #[trigger]
                before_by_name@.contains_key(name) ==> before_by_name@[name].0 == first_named(
                    earlier,
                    name,
                ),
            forall|name: Seq<char>| #[trigger]
                after_by_name@.contains_key(name) <==> has_name(later, name),
            diff_views(changes@) == held + removed_diffs(earlier, later, i as int),
        decreases earlier.len() - i,
    {
        let crate_ = before.crates.get(CrateId(i)).unwrap();
        if leads_its_name(&before_by_name, &before.crates, crate_, i) && !after_by_name.contains_key(
            crate_.name.as_str(),
        ) {
            let ghost listed = changes@;
            let rule = dependency_removed();
            changes.push(
                Diff {
                    severity: rule.default_severity,
                    id: rule,
                    before: at_crate(CrateId(i)),
                    after: None,
                },
            );
            assert(diff_views(changes@) =~= diff_views(listed).push(removed_diff(i as int)));
        }
        i = i + 1;
    }

    let ghost held = diff_views(changes@);
    let mut i: usize = 0;
    assert(diff_views(changes@) =~= held + added_diffs(earlier, later, 0));
    while i < after.crates.len()
        invariant
            i <= later.len(),
            earlier == before.crates@,
            later == after.crates@,
            forall|name: Seq<char>| #[trigger]
                before_by_name@.contains_key(name) <==> has_name(earlier, name),
            forall|name: Seq<char>| #[trigger]
                after_by_name@.contains_key(name) <==> has_name(later, name),
            forall|name: Seq<char>| #[trigger]
                after_by_name@.contains_key(name) ==> after_by_name@[name].0 == first_named(
                    later,
                    name,
                ),
            diff_views(changes@) == held + added_diffs(earlier, later, i as int),
        decreases later.len() - i,
    {
        let crate_ = after.crates.get(CrateId(i)).unwrap();
        if leads_its_name(&after_by_name, &after.crates, crate_, i) && !before_by_name.contains_key(
            crate_.name.as_str(),
        ) {
            let ghost listed = changes@;
            let rule = dependency_added();
            changes.push(
                Diff {
                    severity: rule.default_severity,
                    id: rule,
                    before: None,
                    after: at_crate(CrateId(i)),
                },
            );
            assert(diff_views(changes@) =~= diff_views(listed).push(added_diff(i as int)));
        }
        i = i + 1;
    }

    let ghost held_then = diff_views(changes@);
    let mut i: usize = 0;
    assert(diff_views(changes@) =~= held_then + common_diffs(earlier, later, 0));
    while i < after.crates.len()
        invariant
            i <= later.len(),
            earlier == before.crates@,
            later == after.crates@,
            forall|name: Seq<char>| #[trigger]
                before_by_name@.contains_key(name) <==> has_name(earlier, name),
            forall|name: Seq<char>| #[trigger]
                before_by_name@.contains_key(name) ==> before_by_name@[name].0 == first_named(
                    earlier,
                    name,
                ),
            forall|name: Seq<char>| #[trigger]
                after_by_name@.contains_key(name) <==> has_name(later, name),
            forall|name: Seq<char>| #[trigger]
                after_by_name@.contains_key(name) ==> after_by_name@[name].0 == first_named(
                    later,
                    name,
                ),
            diff_views(changes@) == held_then + common_diffs(earlier, later, i as int),
        decreases later.len() - i,
    {
        let after_crate = after.crates.get(CrateId(i)).unwrap();
        if leads_its_name(&after_by_name, &after.crates, after_crate, i) {
            match before_by_name.get(after_crate.name.as_str()) {
                Some(before_crate_id) => {
                    let before_crate_id = *before_crate_id;
                    proof {
                        let b = first_named(earlier, after_crate.name@);
                        assert(has_name(earlier, after_crate.name@));
                        lemma_name_has_first(earlier, after_crate.name@);
                    }
                    let before_crate = before.crates.get(before_crate_id).unwrap();
                    let ghost listed = changes@;
                    match compare_requirements(before_crate, before_crate_id, after_crate, CrateId(i)) {
                        Some(found) => {
                            changes.push(found);
                            assert(diff_views(changes@) =~= diff_views(listed).push(found@));
                        },
                        None => {},
                    }
                },
                None => {},
            }
        }
        i = i + 1;
    }
    assert((held + removed_diffs(earlier, later, earlier.len() as int)) + added_diffs(
        earlier,
        later,
        later.len() as int,
    ) + common_diffs(earlier, later, later.len() as int) =~= held + dependency_diffs(
        earlier,
        later,
    ));
}

/// What is reported of one crate that both catalogues expose.
pub fn compare_requirements(
    before_crate: &Crate,
    before_crate_id: CrateId,
    after_crate: &Crate,
    after_crate_id: CrateId,
) -> (found: Option<Diff>)
    ensures
        found.is_some() == common_diff(
            before_crate@,
            before_crate_id.0 as int,
            after_crate@,
            after_crate_id.0 as int,
        ).is_some(),
        found matches Some(d) ==> Some(d@) == common_diff(
            before_crate@,
            before_crate_id.0 as int,
            after_crate@,
            after_crate_id.0 as int,
        ),
{
    match (&before_crate.version, &after_crate.version) {
        (Some(before_version), Some(after_version)) => {
            if same_requirement(before_version, after_version) {
                return None;
            }
            let (before_lower, before_upper) = breaking(before_version);
            let before_lower = before_lower.unwrap_or((0, 0, 0));
            let before_upper = before_upper.unwrap_or((u64::MAX, u64::MAX, u64::MAX));

            let (after_lower, after_upper) = breaking(after_version);
            let after_lower = after_lower.unwrap_or((0, 0, 0));
            let after_upper = after_upper.unwrap_or((u64::MAX, u64::MAX, u64::MAX));

            if parts_less(before_lower, after_lower) || parts_less(after_upper, before_upper) {
                let rule = dependency_requirement();
                Some(
                    Diff {
                        severity: rule.default_severity,
                        id: rule,
                        before: at_crate(before_crate_id),
                        after: at_crate(after_crate_id),
                    },
                )
            } else {
                None
            }
        },
        _ => {
            let rule = dependency_ambiguous();
            Some(
                Diff {
                    severity: rule.default_severity,
                    id: rule,
                    before: at_crate(before_crate_id),
                    after: at_crate(after_crate_id),
                },
            )
        },
    }
}

/// Appends to `changes` every difference between `before` and `after` that the
/// library knows how to find.
pub fn diff(before: &Api, after: &Api, changes: &mut Vec<Diff>)
    ensures
        diff_views(final(changes)@) == diff_views(old(changes)@) + dependency_diffs(
            before@.crates,
            after@.crates,
        ),
{
    public_dependencies(before, after, changes);
}

/// Whether a difference speaks of a crate of the given name, on either side.
pub open spec fn concerns(
    d: DiffView,
    before: Seq<CrateView>,
    after: Seq<CrateView>,
    name: Seq<char>,
) -> bool {
    ||| (d.before matches Some(at) && at.crate_id matches Some(id) && id.0 < before.len()
        && before[id.0 as int].name == name)
    ||| (d.after matches Some(at) && at.crate_id matches Some(id) && id.0 < after.len()
        && after[id.0 as int].name == name)
}

/// How many of `diffs` speak of a crate of the given name.
pub open spec fn count_concerning(
    diffs: Seq<DiffView>,
    before: Seq<CrateView>,
    after: Seq<CrateView>,
    name: Seq<char>,
) -> nat
    decreases diffs.len(),
{
    if diffs.len() == 0 {
        0
    } else {
        let rest = count_concerning(diffs.drop_last(), before, after, name);
        if concerns(diffs.last(), before, after, name) {
            rest + 1
        } else {
            rest
        }
    }
}

/// The difference reported of a crate on both sides of which one side or the
/// other lacks a version requirement.
pub open spec fn ambiguous_diff(b: int, a: int) -> DiffView {
    DiffView {
        severity: Severity::Allow,
        id: ambiguous_rule(),
        before: Some(crate_location(b)),
        after: Some(crate_location(a)),
    }
}

/// The difference reported of a crate on both sides whose version requirement
/// breaks compatibility.
pub open spec fn requirement_diff(b: int, a: int) -> DiffView {
    DiffView {
        severity: Severity::Warn,
        id: requirement_rule(),
        before: Some(crate_location(b)),
        after: Some(crate_location(a)),
    }
}

proof fn lemma_count_push(
    diffs: Seq<DiffView>,
    d: DiffView,
    before: Seq<CrateView>,
    after: Seq<CrateView>,
    name: Seq<char>,
)
    ensures
        count_concerning(diffs.push(d), before, after, name) == count_concerning(
            diffs,
            before,
            after,
            name,
        ) + if concerns(d, before, after, name) {
            1nat
        } else {
            0nat
        },
{
    assert(diffs.push(d).drop_last() =~= diffs);
}

proof fn lemma_count_add(
    first: Seq<DiffView>,
    second: Seq<DiffView>,
    before: Seq<CrateView>,
    after: Seq<CrateView>,
    name: Seq<char>,
)
    ensures
        count_concerning(first + second, before, after, name) == count_concerning(
            first,
            before,
            after,
            name,
        ) + count_concerning(second, before, after, name),
    decreases second.len(),
{
    if second.len() == 0 {
        assert(first + second =~= first);
    } else {
        lemma_count_add(first, second.drop_last(), before, after, name);
        assert((first + second).drop_last() =~= first + second.drop_last());
    }
}

proof fn lemma_removed_count(before: Seq<CrateView>, after: Seq<CrateView>, name: Seq<char>, n: int)
    requires
        0 <= n <= before.len() <= usize::MAX,
    ensures
        count_concerning(removed_diffs(before, after, n), before, after, name) == if has_name(
            before,
            name,
        ) && !has_name(after, name) && first_named(before, name) < n {
            1nat
        } else {
            0nat
        },
    decreases n,
{
    if has_name(before, name) {
        lemma_name_has_first(before, name);
    }
    if n > 0 {
        lemma_removed_count(before, after, name, n - 1);
        let rest = removed_diffs(before, after, n - 1);
        if first_of_name(before, n - 1) {
            lemma_first_named(before, n - 1);
        }
        if first_of_name(before, n - 1) && !has_name(after, before[n - 1].name) {
            lemma_count_push(rest, removed_diff(n - 1), before, after, name);
        }
    }
}

proof fn lemma_added_count(before: Seq<CrateView>, after: Seq<CrateView>, name: Seq<char>, n: int)
    requires
        0 <= n <= after.len() <= usize::MAX,
    ensures
        count_concerning(added_diffs(before, after, n), before, after, name) == if has_name(
            after,
            name,
        ) && !has_name(before, name) && first_named(after, name) < n {
            1nat
        } else {
            0nat
        },
    decreases n,
{
    if has_name(after, name) {
        lemma_name_has_first(after, name);
    }
    if n > 0 {
        lemma_added_count(before, after, name, n - 1);
        let rest = added_diffs(before, after, n - 1);
        if first_of_name(after, n - 1) {
            lemma_first_named(after, n - 1);
        }
        if first_of_name(after, n - 1) && !has_name(before, after[n - 1].name) {
            lemma_count_push(rest, added_diff(n - 1), before, after, name);
        }
    }
}

proof fn lemma_common_count(before: Seq<CrateView>, after: Seq<CrateView>, name: Seq<char>, n: int)
    requires
        0 <= n <= after.len() <= usize::MAX,
        before.len() <= usize::MAX,
    ensures
        count_concerning(common_diffs(before, after, n), before, after, name) == if has_name(
            before,
            name,
        ) && has_name(after, name) && first_named(after, name) < n && common_diff(
            before[first_named(before, name)],
            first_named(before, name),
            after[first_named(after, name)],
            first_named(after, name),
        ) is Some {
            1nat
        } else {
            0nat
        },
    decreases n,
{
    if has_name(after, name) {
        lemma_name_has_first(after, name);
    }
    if has_name(before, name) {
        lemma_name_has_first(before, name);
    }
    if n > 0 {
        lemma_common_count(before, after, name, n - 1);
        let rest = common_diffs(before, after, n - 1);
        let here = after[n - 1].name;
        if first_of_name(after, n - 1) {
            lemma_first_named(after, n - 1);
        }
        if first_of_name(after, n - 1) && has_name(before, here) {
            lemma_name_has_first(before, here);
            let b = first_named(before, here);
            match common_diff(before[b], b, after[n - 1], n - 1) {
                Some(d) => {
                    lemma_count_push(rest, d, before, after, name);
                },
                None => {},
            }
        }
    }
}

proof fn lemma_removed_listed(before: Seq<CrateView>, after: Seq<CrateView>, i: int, n: int)
    requires
        0 <= i < n <= before.len(),
        first_of_name(before, i),
        !has_name(after, before[i].name),
    ensures
        removed_diffs(before, after, n).contains(removed_diff(i)),
    decreases n,
{
    let rest = removed_diffs(before, after, n - 1);
    if i < n - 1 {
        lemma_removed_listed(before, after, i, n - 1);
        let k = choose|k: int| 0 <= k < rest.len() && rest[k] == removed_diff(i);
        assert(removed_diffs(before, after, n)[k] == removed_diff(i));
    } else {
        assert(removed_diffs(before, after, n)[rest.len() as int] == removed_diff(i));
    }
}

proof fn lemma_added_listed(before: Seq<CrateView>, after: Seq<CrateView>, i: int, n: int)
    requires
        0 <= i < n <= after.len(),
        first_of_name(after, i),
        !has_name(before, after[i].name),
    ensures
        added_diffs(before, after, n).contains(added_diff(i)),
    decreases n,
{
    let rest = added_diffs(before, after, n - 1);
    if i < n - 1 {
        lemma_added_listed(before, after, i, n - 1);
        let k = choose|k: int| 0 <= k < rest.len() && rest[k] == added_diff(i);
        assert(added_diffs(before, after, n)[k] == added_diff(i));
    } else {
        assert(added_diffs(before, after, n)[rest.len() as int] == added_diff(i));
    }
}

proof fn lemma_common_listed(before: Seq<CrateView>, after: Seq<CrateView>, i: int, n: int)
    requires
        0 <= i < n <= after.len(),
        first_of_name(after, i),
        has_name(before, after[i].name),
        common_diff(
            before[first_named(before, after[i].name)],
            first_named(before, after[i].name),
            after[i],
            i,
        ) is Some,
    ensures
        common_diffs(before, after, n).contains(
            common_diff(
                before[first_named(before, after[i].name)],
                first_named(before, after[i].name),
                after[i],
                i,
            ).unwrap(),
        ),
    decreases n,
{
    let rest = common_diffs(before, after, n - 1);
    let b = first_named(before, after[i].name);
    let d = common_diff(before[b], b, after[i], i).unwrap();
    if i < n - 1 {
        lemma_common_listed(before, after, i, n - 1);
        let k = choose|k: int| 0 <= k < rest.len() && rest[k] == d;
        assert(common_diffs(before, after, n)[k] == d);
    } else {
        assert(common_diffs(before, after, n)[rest.len() as int] == d);
    }
}

/// How many differences speak of a crate of the given name: one where only
/// one side has the name; where both have it, one if a version requirement is
/// unknown or breaks compatibility, else none; none where neither has it.
pub proof fn lemma_diffs_of_name(before: Seq<CrateView>, after: Seq<CrateView>, name: Seq<char>)
    requires
        before.len() <= usize::MAX,
        after.len() <= usize::MAX,
    ensures
        count_concerning(dependency_diffs(before, after), before, after, name) == if has_name(
            before,
            name,
        ) != has_name(after, name) {
            1nat
        } else if has_name(before, name) && common_diff(
            before[first_named(before, name)],
            first_named(before, name),
            after[first_named(after, name)],
            first_named(after, name),
        ) is Some {
            1nat
        } else {
            0nat
        },
{
    let removed = removed_diffs(before, after, before.len() as int);
    let added = added_diffs(before, after, after.len() as int);
    let common = common_diffs(before, after, after.len() as int);
    lemma_removed_count(before, after, name, before.len() as int);
    lemma_added_count(before, after, name, after.len() as int);
    lemma_common_count(before, after, name, after.len() as int);
    lemma_count_add(removed, added, before, after, name);
    lemma_count_add(removed + added, common, before, after, name);
    if has_name(before, name) {
        lemma_name_has_first(before, name);
    }
    if has_name(after, name) {
        lemma_name_has_first(after, name);
    }
}

/// A crate whose name only the later catalogue has gives exactly one
/// difference: an addition, reported by default, that names the crate on the
/// later side and nothing on the earlier.
pub proof fn lemma_added_once(before: Seq<CrateView>, after: Seq<CrateView>, name: Seq<char>)
    requires
        before.len() <= usize::MAX,
        after.len() <= usize::MAX,
        has_name(after, name),
        !has_name(before, name),
    ensures
        count_concerning(dependency_diffs(before, after), before, after, name) == 1,
        dependency_diffs(before, after).contains(added_diff(first_named(after, name))),
        concerns(added_diff(first_named(after, name)), before, after, name),
        added_diff(first_named(after, name)).id.category == Category::Added,
        added_diff(first_named(after, name)).severity == Severity::Report,
        added_diff(first_named(after, name)).before is None,
{
    lemma_diffs_of_name(before, after, name);
    lemma_name_has_first(after, name);
    let a = first_named(after, name);
    lemma_added_listed(before, after, a, after.len() as int);
    let added = added_diffs(before, after, after.len() as int);
    let k = choose|k: int| 0 <= k < added.len() && added[k] == added_diff(a);
    let removed = removed_diffs(before, after, before.len() as int);
    assert(dependency_diffs(before, after)[removed.len() + k] == added_diff(a));
}

/// A crate whose name only the earlier catalogue has gives exactly one
/// difference: a removal, allowed by default, that names the crate on the
/// earlier side and nothing on the later.
pub proof fn lemma_removed_once(before: Seq<CrateView>, after: Seq<CrateView>, name: Seq<char>)
    requires
        before.len() <= usize::MAX,
        after.len() <= usize::MAX,
        has_name(before, name),
        !has_name(after, name),
    ensures
        count_concerning(dependency_diffs(before, after), before, after, name) == 1,
        dependency_diffs(before, after).contains(removed_diff(first_named(before, name))),
        concerns(removed_diff(first_named(before, name)), before, after, name),
        removed_diff(first_named(before, name)).id.category == Category::Removed,
        removed_diff(first_named(before, name)).severity == Severity::Allow,
        removed_diff(first_named(before, name)).after is None,
{
    lemma_diffs_of_name(before, after, name);
    lemma_name_has_first(before, name);
    let b = first_named(before, name);
    lemma_removed_listed(before, after, b, before.len() as int);
    let removed = removed_diffs(before, after, before.len() as int);
    let k = choose|k: int| 0 <= k < removed.len() && removed[k] == removed_diff(b);
    assert(dependency_diffs(before, after)[k] == removed_diff(b));
}

/// A crate that both catalogues have, and of which one or the other does not
/// know the version requirement, gives exactly one difference: the ambiguous
/// one, which names the crate on both sides and nothing else.
pub proof fn lemma_ambiguous_once(before: Seq<CrateView>, after: Seq<CrateView>, name: Seq<char>)
    requires
        before.len() <= usize::MAX,
        after.len() <= usize::MAX,
        has_name(before, name),
        has_name(after, name),
        before[first_named(before, name)].version is None || after[first_named(
            after,
            name,
        )].version is None,
    ensures
        count_concerning(dependency_diffs(before, after), before, after, name) == 1,
        dependency_diffs(before, after).contains(
            ambiguous_diff(first_named(before, name), first_named(after, name)),
        ),
        concerns(
            ambiguous_diff(first_named(before, name), first_named(after, name)),
            before,
            after,
            name,
        ),
{
    lemma_diffs_of_name(before, after, name);
    lemma_name_has_first(before, name);
    lemma_name_has_first(after, name);
    let a = first_named(after, name);
    let b = first_named(before, name);
    lemma_common_listed(before, after, a, after.len() as int);
    let common = common_diffs(before, after, after.len() as int);
    let k = choose|k: int| 0 <= k < common.len() && common[k] == ambiguous_diff(b, a);
    let removed = removed_diffs(before, after, before.len() as int);
    let added = added_diffs(before, after, after.len() as int);
    assert(dependency_diffs(before, after)[removed.len() + added.len() + k] == ambiguous_diff(
        b,
        a,
    ));
}

/// A crate that both catalogues have with known version requirements gives
/// one difference, the breaking one, if the requirement has moved to another
/// band, and none if it has not.
pub proof fn lemma_requirement_once(before: Seq<CrateView>, after: Seq<CrateView>, name: Seq<char>)
    requires
        before.len() <= usize::MAX,
        after.len() <= usize::MAX,
        has_name(before, name),
        has_name(after, name),
        before[first_named(before, name)].version is Some,
        after[first_named(after, name)].version is Some,
    ensures
        count_concerning(dependency_diffs(before, after), before, after, name) == if requirement_breaks(
            before[first_named(before, name)].version.unwrap(),
            after[first_named(after, name)].version.unwrap(),
        ) {
            1nat
        } else {
            0nat
        },
        requirement_breaks(
            before[first_named(before, name)].version.unwrap(),
            after[first_named(after, name)].version.unwrap(),
        ) ==> dependency_diffs(before, after).contains(
            requirement_diff(first_named(before, name), first_named(after, name)),
        ),
{
    lemma_diffs_of_name(before, after, name);
    lemma_name_has_first(before, name);
    lemma_name_has_first(after, name);
    let a = first_named(after, name);
    let b = first_named(before, name);
    if requirement_breaks(before[b].version.unwrap(), after[a].version.unwrap()) {
        lemma_common_listed(before, after, a, after.len() as int);
        let common = common_diffs(before, after, after.len() as int);
        let k = choose|k: int| 0 <= k < common.len() && common[k] == requirement_diff(b, a);
        let removed = removed_diffs(before, after, before.len() as int);
        let added = added_diffs(before, after, after.len() as int);
        assert(dependency_diffs(before, after)[removed.len() + added.len() + k]
            == requirement_diff(b, a));
    }
}

/// A requirement does not break compatibility with itself.
pub proof fn lemma_same_requirement_keeps(requirement: Seq<crate::version::ComparatorView>)
    ensures
        !requirement_breaks(requirement, requirement),
{
}

} // verus!
