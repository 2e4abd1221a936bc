//! A catalogue, and the differences between two, written as markdown.

use vstd::prelude::*;
use vstd::string::StringExecFns;
use crate::api::AnyFeature;
use crate::api::AnyFeatureView;
use crate::api::Api;
use crate::api::Crates;
use crate::api::Features;
use crate::api::ApiView;
use crate::api::Crate;
use crate::api::CrateId;
use crate::api::CrateView;
use crate::api::Path;
use crate::api::PathId;
use crate::api::PathKind;
use crate::api::PathView;
use crate::diff::requirement_rule;
use crate::diff::Category;
use crate::diff::Diff;
use crate::diff::DiffView;
use crate::diff::Id;
use crate::diff::Location;
use crate::diff::Severity;
use crate::order::key_views;
use crate::order::ordered;
use crate::order::sorted_order;
use crate::order::SortKey;
use crate::order::SortKeyView;
use crate::text::append_repeated;
use crate::text::count_separators;
use crate::text::repeated;
use crate::text::same_text;
use crate::text::separators;
use crate::version::requirement_shown;
use crate::version::requirement_text;

verus! {

/// The name of what a location names: the path's where it names a path, else
/// the item's where it names an item, else the crate's; nothing where it names
/// nothing, or something that the catalogue does not hold, or an item without
/// a name.
pub open spec fn location_named(api: ApiView, location: Location) -> Option<Seq<char>> {
    match location.path_id {
        Some(path_id) => if path_id.0 < api.paths.len() {
            Some(api.paths[path_id.0 as int].path)
        } else {
            None
        },
        None => match location.item_id {
            Some(item_id) => if item_id.0 < api.items.len() {
                api.items[item_id.0 as int].name
            } else {
                None
            },
            None => match location.crate_id {
                Some(crate_id) => if crate_id.0 < api.crates.len() {
                    Some(api.crates[crate_id.0 as int].name)
                } else {
                    None
                },
                None => None,
            },
        },
    }
}

/// The name of what `location` names in `api`.
pub fn location_name<'a>(api: &'a Api, location: Location) -> (name: Option<&'a str>)
    ensures
        match location_named(api@, location) {
            Some(named) => name matches Some(text) && text@ == named,
            None => name is None,
        },
{
    if let Some(path_id) = location.path_id {
        match api.paths.get(path_id) {
            Some(path) => Some(path.path.as_str()),
            None => None,
        }
    } else if let Some(item_id) = location.item_id {
        match api.items.get(item_id) {
            Some(item) => match &item.name {
                Some(name) => Some(name.as_str()),
                None => None,
            },
            None => None,
        }
    } else if let Some(crate_id) = location.crate_id {
        match api.crates.get(crate_id) {
            Some(crate_) => Some(crate_.name.as_str()),
            None => None,
        }
    } else {
        None
    }
}

/// The place of a severity among the severities.
pub open spec fn severity_rank(severity: Severity) -> u8 {
    match severity {
        Severity::Allow => 0,
        Severity::Report => 1,
        Severity::Warn => 2,
    }
}

/// The place of a category among the categories.
pub open spec fn category_rank(category: Category) -> u8 {
    match category {
        Category::Unknown => 0,
        Category::Added => 1,
        Category::Removed => 2,
        Category::Changed => 3,
    }
}

/// What a difference is ordered by: its severity, then the category of its
/// rule, then the name of its rule.
pub open spec fn diff_key(d: DiffView) -> SortKeyView {
    SortKeyView {
        first: severity_rank(d.severity),
        second: category_rank(d.id.category),
        text: d.id.name,
    }
}

/// What each of a list of differences is ordered by.
pub open spec fn diff_keys(diffs: Seq<DiffView>) -> Seq<SortKeyView> {
    Seq::new(diffs.len(), |i: int| diff_key(diffs[i]))
}

/// The heading that opens the differences of a severity.
pub open spec fn severity_heading(severity: Severity) -> Seq<char> {
    match severity {
        Severity::Allow => Seq::empty(),
        Severity::Report => "## Changes\n\n"@,
        Severity::Warn => "## Breaking Changes\n\n"@,
    }
}

/// The line that opens the differences of a category.
pub open spec fn category_heading(category: Category) -> Seq<char> {
    match category {
        Category::Unknown => Seq::empty(),
        Category::Added => "**Added**\n"@,
        Category::Removed => "**Removed**\n"@,
        Category::Changed => "**Changed**\n"@,
    }
}

/// The crate that a location names, where it names one that the catalogue
/// holds.
pub open spec fn crate_at(api: ApiView, at: Option<Location>) -> Option<CrateView> {
    match at {
        Some(location) => match location.crate_id {
            Some(crate_id) => if crate_id.0 < api.crates.len() {
                Some(api.crates[crate_id.0 as int])
            } else {
                None
            },
            None => None,
        },
        None => None,
    }
}

/// The line for one difference. A changed requirement is written with the
/// crate's name and both requirements; anything else with the name of what it
/// is about, on the later side if it has one, and the explanation of its rule.
/// Nothing where the difference does not say what it is about.
pub open spec fn diff_line(before: ApiView, after: ApiView, d: DiffView) -> Option<Seq<char>> {
    if d.id == requirement_rule() {
        match (crate_at(before, d.before), crate_at(after, d.after)) {
            (Some(earlier), Some(later)) => if earlier.version is Some && later.version is Some {
                Some(
                    "- `"@ + later.name
                        + "` (public dependency): changed version requirement from "@
                        + requirement_shown(earlier.version.unwrap()) + " to "@
                        + requirement_shown(later.version.unwrap()) + "\n"@,
                )
            } else {
                None
            },
            _ => None,
        }
    } else {
        let name = match d.after {
            Some(location) => location_named(after, location),
            None => match d.before {
                Some(location) => location_named(before, location),
                None => None,
            },
        };
        match name {
            Some(named) => Some("- `"@ + named + "`: "@ + d.id.explanation + "\n"@),
            None => None,
        }
    }
}

/// How far the writing of the differences has got: the text so far, and the
/// severity and the category last written under.
pub struct Written {
    pub text: Seq<char>,
    pub severity: Severity,
    pub category: Option<Category>,
}

/// The first `n` of `diffs` written one after the other, a heading wherever
/// the severity changes and a line wherever the category does. Nothing where
/// one of them does not say what it is about.
pub open spec fn diffs_written(before: ApiView, after: ApiView, diffs: Seq<DiffView>, n: int) -> Option<
    Written,
>
    decreases n,
{
    if n <= 0 {
        Some(Written { text: Seq::empty(), severity: Severity::Allow, category: None })
    } else {
        match (diffs_written(before, after, diffs, n - 1), diff_line(before, after, diffs[n - 1])) {
            (Some(so_far), Some(line)) => {
                let d = diffs[n - 1];
                let heading = if d.severity != so_far.severity {
                    severity_heading(d.severity)
                } else {
                    Seq::empty()
                };
                let opening = if Some(d.id.category) != so_far.category {
                    category_heading(d.id.category)
                } else {
                    Seq::empty()
                };
                Some(
                    Written {
                        text: so_far.text + heading + opening + line,
                        severity: d.severity,
                        category: Some(d.id.category),
                    },
                )
            },
            _ => None,
        }
    }
}

/// `diffs` in the order in which they are written: by severity, then by
/// category, then by the name of the rule; as they came where all three agree.
pub open spec fn diffs_in_order(diffs: Seq<DiffView>) -> Seq<DiffView> {
    let order = ordered(diff_keys(diffs), diffs.len() as int);
    Seq::new(diffs.len(), |i: int| diffs[order[i] as int])
}

/// The differences between two catalogues as markdown. Nothing where one of
/// them does not say what it is about.
pub open spec fn diff_markdown(before: ApiView, after: ApiView, diffs: Seq<DiffView>) -> Option<
    Seq<char>,
> {
    match diffs_written(before, after, diffs_in_order(diffs), diffs.len() as int) {
        Some(written) => Some(written.text),
        None => None,
    }
}

/// The place of `severity` among the severities.
pub fn rank_of_severity(severity: Severity) -> (rank: u8)
    ensures
        rank == severity_rank(severity),
{
    match severity {
        Severity::Allow => 0,
        Severity::Report => 1,
        Severity::Warn => 2,
    }
}

/// The place of `category` among the categories.
pub fn rank_of_category(category: Category) -> (rank: u8)
    ensures
        rank == category_rank(category),
{
    match category {
        Category::Unknown => 0,
        Category::Added => 1,
        Category::Removed => 2,
        Category::Changed => 3,
    }
}

/// Whether two rules are the same in every part.
pub fn same_rule(a: &Id, b: &Id) -> (same: bool)
    ensures
        same == (a@ == b@),
{
    same_text(a.name, b.name) && same_text(a.explanation, b.explanation) && a.category
        == b.category && a.default_severity == b.default_severity
}

/// The crate that `at` names in `api`, where it names one that `api` holds.
fn crate_named<'a>(api: &'a Api, at: Option<Location>) -> (found: Option<&'a Crate>)
    ensures
        match crate_at(api@, at) {
            Some(named) => found matches Some(c) && c@ == named,
            None => found is None,
        },
{
    match at {
        Some(location) => match location.crate_id {
            Some(crate_id) => api.crates.get(crate_id),
            None => None,
        },
        None => None,
    }
}

/// The line for one difference, or nothing where the difference does not say
/// what it is about.
pub fn render_diff_line(before: &Api, after: &Api, diff: &Diff) -> (line: Option<String>)
    ensures
        match diff_line(before@, after@, diff@) {
            Some(text) => line matches Some(written) && written@ == text,
            None => line is None,
        },
{
    if same_rule(&diff.id, &crate::diff::dependency_requirement()) {
        let before_crate = match crate_named(before, diff.before) {
            Some(named) => named,
            None => {
                return None;
            },
        };
        let after_crate = match crate_named(after, diff.after) {
            Some(named) => named,
            None => {
                return None;
            },
        };
        match (&before_crate.version, &after_crate.version) {
            (Some(before_version), Some(after_version)) => {
                let mut line = "- `".to_owned();
                line.append(after_crate.name.as_str());
                line.append("` (public dependency): changed version requirement from ");
                line.append(requirement_text(before_version).as_str());
                line.append(" to ");
                line.append(requirement_text(after_version).as_str());
                line.append("\n");
                Some(line)
            },
            _ => None,
        }
    } else {
        let name = match diff.after {
            Some(location) => location_name(after, location),
            None => match diff.before {
                Some(location) => location_name(before, location),
                None => None,
            },
        };
        match name {
            Some(named) => {
                let mut line = "- `".to_owned();
                line.append(named);
                line.append("`: ");
                line.append(diff.id.explanation);
                line.append("\n");
                Some(line)
            },
            None => None,
        }
    }
}

/// The differences `diffs` between `before` and `after` as markdown: ordered
/// by severity, category and rule, with a heading for the changes and one for
/// the breaking changes, and under each a line for each category. Nothing
/// comes back where a difference does not say what it is about.
pub fn render_diff_markdown(before: &Api, after: &Api, diffs: &Vec<Diff>) -> (markdown: Option<
    String,
>)
    ensures
        match diff_markdown(before@, after@, crate::diff::diff_views(diffs@)) {
            Some(text) => markdown matches Some(written) && written@ == text,
            None => markdown is None,
        },
{
    let ghost views = crate::diff::diff_views(diffs@);
    let mut keys: Vec<SortKey> = Vec::new();
    let mut i: usize = 0;
    while i < diffs.len()
        invariant
            i <= diffs@.len(),
            views == crate::diff::diff_views(diffs@),
            key_views(keys@) == diff_keys(views).take(i as int),
        decreases diffs@.len() - i,
    {
        let ghost held = keys@;
        keys.push(
            SortKey {
                first: rank_of_severity(diffs[i].severity),
                second: rank_of_category(diffs[i].id.category),
                text: diffs[i].id.name,
            },
        );
        assert(key_views(keys@) =~= key_views(held).push(diff_key(views[i as int])));
        assert(diff_keys(views).take(i + 1) =~= diff_keys(views).take(i as int).push(
            diff_key(views[i as int]),
        ));
        i = i + 1;
    }
    assert(diff_keys(views).take(diffs@.len() as int) =~= diff_keys(views));
    let order = sorted_order(&keys);
    let ghost sorted = diffs_in_order(views);

    let mut text = String::new();
    let mut last_severity = Severity::Allow;
    let mut last_category: Option<Category> = None;
    let mut i: usize = 0;
    while i < order.len()
        invariant
            i <= order@.len(),
            order@.len() == diffs@.len(),
            views == crate::diff::diff_views(diffs@),
            order@ == ordered(diff_keys(views), diffs@.len() as int),
            forall|k: int| 0 <= k < order@.len() ==> (#[trigger] order@[k]) < diffs@.len(),
            sorted == diffs_in_order(views),
            diffs_written(before@, after@, sorted, i as int) == Some(
                Written { text: text@, severity: last_severity, category: last_category },
            ),
        decreases order@.len() - i,
    {
        let diff = &diffs[order[i]];
        assert(sorted[i as int] == diff@);
        let line = match render_diff_line(before, after, diff) {
            Some(line) => line,
            None => {
                proof {
                    lemma_unwritten_stays(before@, after@, sorted, i + 1, diffs@.len() as int);
                }
                return None;
            },
        };
        let ghost so_far = text@;
        if !(diff.severity == last_severity) {
            match diff.severity {
                Severity::Allow => {},
                Severity::Report => {
                    text.append("## Changes\n\n");
                },
                Severity::Warn => {
                    text.append("## Breaking Changes\n\n");
                },
            }
            last_severity = diff.severity;
        }
        let ghost headed = text@;
        let opens = match last_category {
            Some(category) => !(category == diff.id.category),
            None => true,
        };
        if opens {
            match diff.id.category {
                Category::Unknown => {},
                Category::Added => {
                    text.append("**Added**\n");
                },
                Category::Removed => {
                    text.append("**Removed**\n");
                },
                Category::Changed => {
                    text.append("**Changed**\n");
                },
            }
            last_category = Some(diff.id.category);
        }
        text.append(line.as_str());
        proof {
            assert(headed =~= so_far + if diff@.severity != diffs_written(
                before@,
                after@,
                sorted,
                i as int,
            ).unwrap().severity {
                severity_heading(diff@.severity)
            } else {
                Seq::empty()
            });
        }
        i = i + 1;
    }
    Some(text)
}

/// Once a difference could not be written, nothing is written of any list
/// that holds it.
proof fn lemma_unwritten_stays(
    before: ApiView,
    after: ApiView,
    diffs: Seq<DiffView>,
    n: int,
    m: int,
)
    requires
        0 <= n <= m,
        diffs_written(before, after, diffs, n) is None,
    ensures
        diffs_written(before, after, diffs, m) is None,
    decreases m,
{
    if n < m {
        lemma_unwritten_stays(before, after, diffs, n, m - 1);
    }
}

/// The place of a kind among the kinds.
pub open spec fn kind_rank(kind: PathKind) -> u8 {
    match kind {
        PathKind::Module => 0,
        PathKind::ExternCrate => 1,
        PathKind::Import => 2,
        PathKind::Struct => 3,
        PathKind::Union => 4,
        PathKind::Enum => 5,
        PathKind::Variant => 6,
        PathKind::Function => 7,
        PathKind::Typedef => 8,
        PathKind::OpaqueTy => 9,
        PathKind::Constant => 10,
        PathKind::Trait => 11,
        PathKind::TraitAlias => 12,
        PathKind::Method => 13,
        PathKind::Impl => 14,
        PathKind::Static => 15,
        PathKind::ForeignType => 16,
        PathKind::Macro => 17,
        PathKind::ProcAttribute => 18,
        PathKind::ProcDerive => 19,
        PathKind::AssocConst => 20,
        PathKind::AssocType => 21,
        PathKind::Primitive => 22,
        PathKind::Keyword => 23,
    }
}

/// The name of a kind.
pub open spec fn kind_name(kind: PathKind) -> Seq<char> {
    match kind {
        PathKind::Module => "Module"@,
        PathKind::ExternCrate => "ExternCrate"@,
        PathKind::Import => "Import"@,
        PathKind::Struct => "Struct"@,
        PathKind::Union => "Union"@,
        PathKind::Enum => "Enum"@,
        PathKind::Variant => "Variant"@,
        PathKind::Function => "Function"@,
        PathKind::Typedef => "Typedef"@,
        PathKind::OpaqueTy => "OpaqueTy"@,
        PathKind::Constant => "Constant"@,
        PathKind::Trait => "Trait"@,
        PathKind::TraitAlias => "TraitAlias"@,
        PathKind::Method => "Method"@,
        PathKind::Impl => "Impl"@,
        PathKind::Static => "Static"@,
        PathKind::ForeignType => "ForeignType"@,
        PathKind::Macro => "Macro"@,
        PathKind::ProcAttribute => "ProcAttribute"@,
        PathKind::ProcDerive => "ProcDerive"@,
        PathKind::AssocConst => "AssocConst"@,
        PathKind::AssocType => "AssocType"@,
        PathKind::Primitive => "Primitive"@,
        PathKind::Keyword => "Keyword"@,
    }
}

/// The place of `kind` among the kinds.
pub fn rank_of_kind(kind: PathKind) -> (rank: u8)
    ensures
        rank == kind_rank(kind),
{
    match kind {
        PathKind::Module => 0,
        PathKind::ExternCrate => 1,
        PathKind::Import => 2,
        PathKind::Struct => 3,
        PathKind::Union => 4,
        PathKind::Enum => 5,
        PathKind::Variant => 6,
        PathKind::Function => 7,
        PathKind::Typedef => 8,
        PathKind::OpaqueTy => 9,
        PathKind::Constant => 10,
        PathKind::Trait => 11,
        PathKind::TraitAlias => 12,
        PathKind::Method => 13,
        PathKind::Impl => 14,
        PathKind::Static => 15,
        PathKind::ForeignType => 16,
        PathKind::Macro => 17,
        PathKind::ProcAttribute => 18,
        PathKind::ProcDerive => 19,
        PathKind::AssocConst => 20,
        PathKind::AssocType => 21,
        PathKind::Primitive => 22,
        PathKind::Keyword => 23,
    }
}

/// The name of `kind`.
pub fn name_of_kind(kind: PathKind) -> (name: &'static str)
    ensures
        name@ == kind_name(kind),
{
    match kind {
        PathKind::Module => "Module",
        PathKind::ExternCrate => "ExternCrate",
        PathKind::Import => "Import",
        PathKind::Struct => "Struct",
        PathKind::Union => "Union",
        PathKind::Enum => "Enum",
        PathKind::Variant => "Variant",
        PathKind::Function => "Function",
        PathKind::Typedef => "Typedef",
        PathKind::OpaqueTy => "OpaqueTy",
        PathKind::Constant => "Constant",
        PathKind::Trait => "Trait",
        PathKind::TraitAlias => "TraitAlias",
        PathKind::Method => "Method",
        PathKind::Impl => "Impl",
        PathKind::Static => "Static",
        PathKind::ForeignType => "ForeignType",
        PathKind::Macro => "Macro",
        PathKind::ProcAttribute => "ProcAttribute",
        PathKind::ProcDerive => "ProcDerive",
        PathKind::AssocConst => "AssocConst",
        PathKind::AssocType => "AssocType",
        PathKind::Primitive => "Primitive",
        PathKind::Keyword => "Keyword",
    }
}

/// Whether every one of `ids` addresses one of `paths`.
pub open spec fn all_paths_in(paths: Seq<PathView>, ids: Seq<PathId>) -> bool {
    forall|i: int| 0 <= i < ids.len() ==> (#[trigger] ids[i]).0 < paths.len()
}

/// What each of the paths `ids` is ordered by: its kind, then its name.
pub open spec fn path_keys(paths: Seq<PathView>, ids: Seq<PathId>) -> Seq<SortKeyView> {
    Seq::new(
        ids.len(),
        |i: int|
            SortKeyView {
                first: kind_rank(paths[ids[i].0 as int].kind),
                second: 0,
                text: paths[ids[i].0 as int].path,
            },
    )
}

/// The paths `ids` in the order in which they are written: by kind, then by
/// name; as they came where both agree.
pub open spec fn paths_in_order(paths: Seq<PathView>, ids: Seq<PathId>) -> Seq<PathId> {
    let order = ordered(path_keys(paths, ids), ids.len() as int);
    Seq::new(ids.len(), |i: int| ids[order[i] as int])
}

/// Those of the first `n` of `ids` that are modules, if `modules` is set, or
/// that are none, if it is not; in their order.
pub open spec fn chosen(paths: Seq<PathView>, ids: Seq<PathId>, n: int, modules: bool) -> Seq<
    PathId,
>
    decreases n,
{
    if n <= 0 {
        Seq::empty()
    } else {
        let rest = chosen(paths, ids, n - 1, modules);
        if (paths[ids[n - 1].0 as int].kind == PathKind::Module) == modules {
            rest.push(ids[n - 1])
        } else {
            rest
        }
    }
}

/// The line that says which crate something is from; no line for what is
/// from the package itself; nothing where the catalogue does not hold the
/// crate.
pub open spec fn crate_note(api: ApiView, crate_id: Option<CrateId>) -> Option<Seq<char>> {
    match crate_id {
        Some(id) => if id.0 < api.crates.len() {
            Some("*from crate `"@ + api.crates[id.0 as int].name + "`*\n\n"@)
        } else {
            None
        },
        None => Some(Seq::empty()),
    }
}

/// The path `id` and all that stands under it, written down to `depth`
/// levels. A module is written as a heading as deep as its name has parts,
/// followed by what stands under it that is no module and then by its
/// modules, each lot in the order of kind and name. Anything else is written
/// as a line with its name and kind, followed by what stands under it in that
/// order. Nothing where a path or a crate is named that the catalogue does
/// not hold, or where there are more levels than `depth`.
pub open spec fn path_written(api: ApiView, id: PathId, depth: nat) -> Option<Seq<char>>
    decreases depth, 0nat,
{
    if id.0 >= api.paths.len() || depth == 0 {
        None
    } else {
        let path = api.paths[id.0 as int];
        let below = (depth - 1) as nat;
        if !all_paths_in(api.paths, path.children) {
            None
        } else if path.kind == PathKind::Module {
            let modules = chosen(api.paths, path.children, path.children.len() as int, true);
            let others = chosen(api.paths, path.children, path.children.len() as int, false);
            match (
                crate_note(api, path.crate_id),
                paths_written(api, paths_in_order(api.paths, others), below),
                paths_written(api, paths_in_order(api.paths, modules), below),
            ) {
                (Some(note), Some(first), Some(second)) => Some(
                    repeated("#"@, separators(path.path) + 1) + " `"@ + path.path + "`\n\n"@ + note
                        + first + second,
                ),
                _ => None,
            }
        } else {
            match (
                crate_note(api, path.crate_id),
                paths_written(api, paths_in_order(api.paths, path.children), below),
            ) {
                (Some(note), Some(under)) => Some(
                    "**`"@ + path.path + "`** *("@ + kind_name(path.kind) + ")*\n\n"@ + note
                        + under,
                ),
                _ => None,
            }
        }
    }
}

/// The paths `ids` and all that stands under them, written one after the
/// other down to `depth` levels.
pub open spec fn paths_written(api: ApiView, ids: Seq<PathId>, depth: nat) -> Option<Seq<char>>
    decreases depth, 1 + ids.len(),
{
    if ids.len() == 0 {
        Some(Seq::empty())
    } else {
        match (paths_written(api, ids.drop_last(), depth), path_written(api, ids.last(), depth)) {
            (Some(before), Some(last)) => Some(before + last),
            _ => None,
        }
    }
}

/// Once a path could not be written, nothing is written of any list that
/// holds it.
proof fn lemma_unwritten_paths_stay(api: ApiView, ids: Seq<PathId>, n: int, depth: nat)
    requires
        0 <= n <= ids.len(),
        paths_written(api, ids.take(n), depth) is None,
    ensures
        paths_written(api, ids, depth) is None,
    decreases ids.len() - n,
{
    if n < ids.len() {
        assert(ids.take(n + 1).drop_last() =~= ids.take(n));
        lemma_unwritten_paths_stay(api, ids, n + 1, depth);
    } else {
        assert(ids.take(n) =~= ids);
    }
}

/// The paths `ids` in the order in which they are written, or nothing where
/// one of them is not in `api`.
fn order_paths(api: &Api, ids: &Vec<PathId>) -> (sorted: Option<Vec<PathId>>)
    ensures
        sorted.is_some() == all_paths_in(api@.paths, ids@),
        sorted matches Some(list) ==> list@ == paths_in_order(api@.paths, ids@),
{
    let ghost wanted = path_keys(api@.paths, ids@);
    let mut keys: Vec<SortKey> = Vec::new();
    let mut i: usize = 0;
    while i < ids.len()
        invariant
            i <= ids@.len(),
            wanted == path_keys(api@.paths, ids@),
            key_views(keys@) == wanted.take(i as int),
            forall|k: int| 0 <= k < i ==> (#[trigger] ids@[k]).0 < api@.paths.len(),
        decreases ids@.len() - i,
    {
        let ghost held = keys@;
        match api.paths.get(ids[i]) {
            Some(path) => {
                keys.push(
                    SortKey { first: rank_of_kind(path.kind), second: 0, text: path.path.as_str() },
                );
            },
            None => {
                return None;
            },
        }
        assert(key_views(keys@) =~= key_views(held).push(wanted[i as int]));
        assert(wanted.take(i + 1) =~= wanted.take(i as int).push(wanted[i as int]));
        i = i + 1;
    }
    assert(wanted.take(ids@.len() as int) =~= wanted);
    let order = sorted_order(&keys);
    let mut sorted: Vec<PathId> = Vec::new();
    let mut i: usize = 0;
    while i < order.len()
        invariant
            i <= order@.len(),
            order@.len() == ids@.len(),
            forall|k: int| 0 <= k < order@.len() ==> (#[trigger] order@[k]) < ids@.len(),
            sorted@.len() == i,
            forall|k: int| 0 <= k < i ==> (#[trigger] sorted@[k]) == ids@[order@[k] as int],
        decreases order@.len() - i,
    {
        sorted.push(ids[order[i]]);
        i = i + 1;
    }
    assert(sorted@ =~= paths_in_order(api@.paths, ids@));
    Some(sorted)
}

/// Those of `ids` that are modules, if `modules` is set, or that are none, if
/// it is not; nothing where one of `ids` is not in `api`.
fn choose_paths(api: &Api, ids: &Vec<PathId>, modules: bool) -> (found: Option<Vec<PathId>>)
    ensures
        found.is_some() == all_paths_in(api@.paths, ids@),
        found matches Some(list) ==> list@ == chosen(
            api@.paths,
            ids@,
            ids@.len() as int,
            modules,
        ),
{
    let mut found: Vec<PathId> = Vec::new();
    let mut i: usize = 0;
    while i < ids.len()
        invariant
            i <= ids@.len(),
            found@ == chosen(api@.paths, ids@, i as int, modules),
            forall|k: int| 0 <= k < i ==> (#[trigger] ids@[k]).0 < api@.paths.len(),
        decreases ids@.len() - i,
    {
        match api.paths.get(ids[i]) {
            Some(path) => {
                let is_module = match path.kind {
                    PathKind::Module => true,
                    _ => false,
                };
                if is_module == modules {
                    found.push(ids[i]);
                }
            },
            None => {
                return None;
            },
        }
        i = i + 1;
    }
    Some(found)
}

/// Appends the line that says which crate something is from.
fn note_crate(api: &Api, crate_id: Option<CrateId>, text: &mut String) -> (ok: bool)
    ensures
        match crate_note(api@, crate_id) {
            Some(note) => ok && final(text)@ == old(text)@ + note,
            None => !ok,
        },
{
    match crate_id {
        Some(id) => match api.crates.get(id) {
            Some(crate_) => {
                text.append("*from crate `");
                text.append(crate_.name.as_str());
                text.append("`*\n\n");
                assert(text@ =~= old(text)@ + crate_note(api@, crate_id).unwrap());
                true
            },
            None => false,
        },
        None => {
            assert(text@ =~= old(text)@ + Seq::<char>::empty());
            true
        },
    }
}

/// Appends to `text` the path `id` and all that stands under it, down to
/// `depth` levels. Says whether that could be done; where it could not, what
/// was appended is of no use.
pub fn render_path(api: &Api, id: PathId, depth: usize, text: &mut String) -> (ok: bool)
    ensures
        match path_written(api@, id, depth as nat) {
            Some(written) => ok && final(text)@ == old(text)@ + written,
            None => !ok,
        },
    decreases depth, 1nat,
{
    if depth == 0 {
        return false;
    }
    let path = match api.paths.get(id) {
        Some(path) => path,
        None => {
            return false;
        },
    };
    match path.kind {
        PathKind::Module => render_module(api, id, path, depth, text),
        _ => render_other(api, id, path, depth, text),
    }
}

/// Appends to `text` the module `id` and all that stands under it.
fn render_module(api: &Api, id: PathId, path: &Path, depth: usize, text: &mut String) -> (ok: bool)
    requires
        depth > 0,
        id.0 < api@.paths.len(),
        path@ == api@.paths[id.0 as int],
        path.kind == PathKind::Module,
    ensures
        match path_written(api@, id, depth as nat) {
            Some(written) => ok && final(text)@ == old(text)@ + written,
            None => !ok,
        },
    decreases depth, 0nat,
{
    let others = match choose_paths(api, &path.children, false) {
        Some(others) => others,
        None => {
            return false;
        },
    };
    let modules = match choose_paths(api, &path.children, true) {
        Some(modules) => modules,
        None => {
            return false;
        },
    };
    proof {
        lemma_chosen_in(api@.paths, path.children@, path.children@.len() as int, false);
        lemma_chosen_in(api@.paths, path.children@, path.children@.len() as int, true);
    }
    let others = match order_paths(api, &others) {
        Some(others) => others,
        None => {
            return false;
        },
    };
    let modules = match order_paths(api, &modules) {
        Some(modules) => modules,
        None => {
            return false;
        },
    };
    let ghost heading = repeated("#"@, separators(path@.path) + 1) + " `"@ + path@.path
        + "`\n\n"@;
    append_repeated(text, "#", count_separators(path.path.as_str()) + 1);
    text.append(" `");
    text.append(path.path.as_str());
    text.append("`\n\n");
    assert(text@ =~= old(text)@ + heading);
    if !note_crate(api, path.crate_id, text) {
        return false;
    }
    let ghost note = crate_note(api@, path@.crate_id).unwrap();
    assert(text@ =~= old(text)@ + (heading + note));
    if !render_paths(api, &others, depth - 1, text) {
        return false;
    }
    let ghost first = paths_written(api@, others@, (depth - 1) as nat).unwrap();
    assert(text@ =~= old(text)@ + (heading + note + first));
    if !render_paths(api, &modules, depth - 1, text) {
        return false;
    }
    let ghost second = paths_written(api@, modules@, (depth - 1) as nat).unwrap();
    assert(text@ =~= old(text)@ + (heading + note + first + second));
    assert(path_written(api@, id, depth as nat) == Some(heading + note + first + second));
    true
}

/// Appends to `text` the path `id`, which is no module, and all that stands
/// under it.
fn render_other(api: &Api, id: PathId, path: &Path, depth: usize, text: &mut String) -> (ok: bool)
    requires
        depth > 0,
        id.0 < api@.paths.len(),
        path@ == api@.paths[id.0 as int],
        path.kind != PathKind::Module,
    ensures
        match path_written(api@, id, depth as nat) {
            Some(written) => ok && final(text)@ == old(text)@ + written,
            None => !ok,
        },
    decreases depth, 0nat,
{
    let under = match order_paths(api, &path.children) {
        Some(under) => under,
        None => {
            return false;
        },
    };
    let ghost line = "**`"@ + path@.path + "`** *("@ + kind_name(path@.kind) + ")*\n\n"@;
    text.append("**`");
    text.append(path.path.as_str());
    text.append("`** *(");
    text.append(name_of_kind(path.kind));
    text.append(")*\n\n");
    assert(text@ =~= old(text)@ + line);
    if !note_crate(api, path.crate_id, text) {
        return false;
    }
    let ghost note = crate_note(api@, path@.crate_id).unwrap();
    assert(text@ =~= old(text)@ + (line + note));
    if !render_paths(api, &under, depth - 1, text) {
        return false;
    }
    let ghost below = paths_written(api@, under@, (depth - 1) as nat).unwrap();
    assert(text@ =~= old(text)@ + (line + note + below));
    assert(path_written(api@, id, depth as nat) == Some(line + note + below));
    true
}

/// Appends to `text` the paths `ids` and all that stands under them, down to
/// `depth` levels. Says whether that could be done.
pub fn render_paths(api: &Api, ids: &Vec<PathId>, depth: usize, text: &mut String) -> (ok: bool)
    ensures
        match paths_written(api@, ids@, depth as nat) {
            Some(written) => ok && final(text)@ == old(text)@ + written,
            None => !ok,
        },
    decreases depth, 2 + ids@.len(),
{
    let mut i: usize = 0;
    assert(ids@.take(0) =~= Seq::empty());
    assert(text@ =~= old(text)@ + Seq::<char>::empty());
    while i < ids.len()
        invariant
            i <= ids@.len(),
            paths_written(api@, ids@.take(i as int), depth as nat) is Some,
            text@ == old(text)@ + paths_written(api@, ids@.take(i as int), depth as nat).unwrap(),
        decreases ids@.len() - i,
    {
        proof {
            assert(ids@.take(i + 1).drop_last() =~= ids@.take(i as int));
            assert(ids@.take(i + 1).last() == ids@[i as int]);
        }
        if !render_path(api, ids[i], depth, text) {
            proof {
                lemma_unwritten_paths_stay(api@, ids@, i + 1, depth as nat);
            }
            return false;
        }
        assert(text@ =~= old(text)@ + paths_written(
            api@,
            ids@.take(i + 1),
            depth as nat,
        ).unwrap());
        i = i + 1;
    }
    assert(ids@.take(ids@.len() as int) =~= ids@);
    true
}

/// What is chosen of paths that the catalogue holds is held by it too.
proof fn lemma_chosen_in(paths: Seq<PathView>, ids: Seq<PathId>, n: int, modules: bool)
    requires
        0 <= n <= ids.len(),
        all_paths_in(paths, ids),
    ensures
        all_paths_in(paths, chosen(paths, ids, n, modules)),
    decreases n,
{
    if n > 0 {
        lemma_chosen_in(paths, ids, n - 1, modules);
    }
}

/// The first `n` of the names that a feature switches on, a line each.
pub open spec fn switches_written(names: Seq<Seq<char>>, n: int) -> Seq<char>
    decreases n,
{
    if n <= 0 {
        Seq::empty()
    } else {
        switches_written(names, n - 1) + "- `"@ + names[n - 1] + "`\n"@
    }
}

/// One feature: its name and what it switches on, or, for an optional
/// dependency, its name and the package it stands for; then an empty line.
pub open spec fn feature_written(feature: AnyFeatureView) -> Seq<char> {
    match feature {
        AnyFeatureView::Feature(f) => "`"@ + f.name + "`\n"@ + switches_written(
            f.dependencies,
            f.dependencies.len() as int,
        ) + "\n"@,
        AnyFeatureView::OptionalDependency(d) => match d.package {
            Some(package) => "`"@ + d.name + "` *(dependency `"@ + package + "`)*\n\n"@,
            None => "`"@ + d.name + "` *(dependency)*\n\n"@,
        },
    }
}

/// What each of the features is ordered by: the name it stands under.
pub open spec fn feature_keys(entries: Seq<(Seq<char>, AnyFeatureView)>) -> Seq<SortKeyView> {
    Seq::new(entries.len(), |i: int| SortKeyView { first: 0, second: 0, text: entries[i].0 })
}

/// The features in the order of the names they stand under.
pub open spec fn features_in_order(entries: Seq<(Seq<char>, AnyFeatureView)>) -> Seq<
    AnyFeatureView,
> {
    let order = ordered(feature_keys(entries), entries.len() as int);
    Seq::new(entries.len(), |i: int| entries[order[i] as int].1)
}

/// The first `n` of `features`, written one after the other.
pub open spec fn features_written(features: Seq<AnyFeatureView>, n: int) -> Seq<char>
    decreases n,
{
    if n <= 0 {
        Seq::empty()
    } else {
        features_written(features, n - 1) + feature_written(features[n - 1])
    }
}

/// The line for one crate: its name and the version required of it, if that
/// is known.
pub open spec fn crate_line(crate_: CrateView) -> Seq<char> {
    "- `"@ + crate_.name + "` (version "@ + match crate_.version {
        Some(version) => requirement_shown(version),
        None => "unknown"@,
    } + ")\n"@
}

/// The first `n` of `crates`, a line each.
pub open spec fn crates_written(crates: Seq<CrateView>, n: int) -> Seq<char>
    decreases n,
{
    if n <= 0 {
        Seq::empty()
    } else {
        crates_written(crates, n - 1) + crate_line(crates[n - 1])
    }
}

/// The part of the markdown that lists the features; empty where there are
/// none.
pub open spec fn feature_section(entries: Seq<(Seq<char>, AnyFeatureView)>) -> Seq<char> {
    if entries.len() == 0 {
        Seq::empty()
    } else {
        "## Feature Flags\n\n"@ + features_written(
            features_in_order(entries),
            entries.len() as int,
        )
    }
}

/// The part of the markdown that lists the crates; empty where there are
/// none.
pub open spec fn crate_section(crates: Seq<CrateView>) -> Seq<char> {
    if crates.len() == 0 {
        Seq::empty()
    } else {
        "## Public Dependencies\n\n"@ + crates_written(crates, crates.len() as int) + "\n"@
    }
}

/// A catalogue as markdown: the root as the title, what stands under it in
/// the order in which it was declared, each with all that stands under it,
/// then the features, which come as `features`, and the crates. A catalogue
/// without a root is written as nothing at all. Nothing where the catalogue
/// names a path or a crate that it does not hold, or where a path stands
/// under itself.
pub open spec fn api_markdown(api: ApiView, features: Seq<(Seq<char>, AnyFeatureView)>) -> Option<
    Seq<char>,
> {
    match api.root_id {
        None => Some(Seq::empty()),
        Some(root_id) => if root_id.0 >= api.paths.len() {
            None
        } else {
            let root = api.paths[root_id.0 as int];
            match paths_written(api, root.children, api.paths.len()) {
                Some(tree) => Some(
                    "# `"@ + root.path + "`\n\n"@ + tree + feature_section(features)
                        + crate_section(api.crates),
                ),
                None => None,
            }
        },
    }
}

/// Appends one feature to `text`.
fn render_feature(feature: &AnyFeature, text: &mut String)
    ensures
        final(text)@ == old(text)@ + feature_written(feature@),
{
    match feature {
        AnyFeature::Feature(f) => {
            text.append("`");
            text.append(f.name.as_str());
            text.append("`\n");
            let ghost named = text@;
            let ghost names = f@.dependencies;
            let mut i: usize = 0;
            assert(text@ =~= named + switches_written(names, 0));
            while i < f.dependencies.len()
                invariant
                    i <= f.dependencies@.len(),
                    names == f@.dependencies,
                    text@ == named + switches_written(names, i as int),
                decreases f.dependencies@.len() - i,
            {
                text.append("- `");
                text.append(f.dependencies[i].as_str());
                text.append("`\n");
                assert(names[i as int] == f.dependencies@[i as int]@);
                assert(text@ =~= named + switches_written(names, i + 1));
                i = i + 1;
            }
            text.append("\n");
            assert(text@ =~= old(text)@ + feature_written(feature@));
        },
        AnyFeature::OptionalDependency(d) => {
            text.append("`");
            text.append(d.name.as_str());
            match &d.package {
                Some(package) => {
                    text.append("` *(dependency `");
                    text.append(package.as_str());
                    text.append("`)*\n\n");
                },
                None => {
                    text.append("` *(dependency)*\n\n");
                },
            }
            assert(text@ =~= old(text)@ + feature_written(feature@));
        },
    }
}

/// Appends to `text` the part that lists the features.
fn render_features(features: &Features, text: &mut String)
    ensures
        final(text)@ == old(text)@ + feature_section(features.entries()),
{
    let count = features.len();
    if count == 0 {
        assert(text@ =~= old(text)@ + feature_section(features.entries()));
        return ;
    }
    let ghost entries = features.entries();
    let ghost wanted = feature_keys(entries);
    let mut keys: Vec<SortKey> = Vec::new();
    let mut i: usize = 0;
    while i < count
        invariant
            i <= count,
            count == entries.len(),
            entries == features.entries(),
            wanted == feature_keys(entries),
            key_views(keys@) == wanted.take(i as int),
        decreases count - i,
    {
        let ghost held = keys@;
        match features.entry(i) {
            Some(entry) => {
                keys.push(SortKey { first: 0, second: 0, text: entry.0.as_str() });
            },
            None => {},
        }
        assert(key_views(keys@) =~= key_views(held).push(wanted[i as int]));
        assert(wanted.take(i + 1) =~= wanted.take(i as int).push(wanted[i as int]));
        i = i + 1;
    }
    assert(wanted.take(count as int) =~= wanted);
    let order = sorted_order(&keys);
    let ghost sorted = features_in_order(entries);
    text.append("## Feature Flags\n\n");
    let ghost headed = text@;
    let mut i: usize = 0;
    assert(text@ =~= headed + features_written(sorted, 0));
    while i < order.len()
        invariant
            i <= order@.len(),
            order@.len() == count,
            count == entries.len(),
            entries == features.entries(),
            order@ == ordered(feature_keys(entries), entries.len() as int),
            forall|k: int| 0 <= k < order@.len() ==> (#[trigger] order@[k]) < count,
            sorted == features_in_order(entries),
            text@ == headed + features_written(sorted, i as int),
        decreases order@.len() - i,
    {
        match features.entry(order[i]) {
            Some(entry) => {
                assert(entry.1@ == sorted[i as int]);
                render_feature(entry.1, text);
            },
            None => {},
        }
        assert(text@ =~= headed + features_written(sorted, i + 1));
        i = i + 1;
    }
    assert(text@ =~= old(text)@ + feature_section(features.entries()));
}

/// Appends to `text` the part that lists the crates.
fn render_crates(crates: &Crates, text: &mut String)
    ensures
        final(text)@ == old(text)@ + crate_section(crates@),
{
    if crates.is_empty() {
        assert(text@ =~= old(text)@ + crate_section(crates@));
        return ;
    }
    text.append("## Public Dependencies\n\n");
    let ghost headed = text@;
    let mut i: usize = 0;
    assert(text@ =~= headed + crates_written(crates@, 0));
    while i < crates.len()
        invariant
            i <= crates@.len(),
            text@ == headed + crates_written(crates@, i as int),
        decreases crates@.len() - i,
    {
        match crates.get(CrateId(i)) {
            Some(crate_) => {
                text.append("- `");
                text.append(crate_.name.as_str());
                text.append("` (version ");
                match &crate_.version {
                    Some(version) => {
                        text.append(requirement_text(version).as_str());
                    },
                    None => {
                        text.append("unknown");
                    },
                }
                text.append(")\n");
            },
            None => {},
        }
        assert(text@ =~= headed + crates_written(crates@, i + 1));
        i = i + 1;
    }
    text.append("\n");
    assert(text@ =~= old(text)@ + crate_section(crates@));
}

/// The catalogue `api` as markdown: the root as the title, then everything
/// under it, then the features in the order of their names, then the crates.
/// A catalogue without a root is written as nothing at all. Nothing comes
/// back where the catalogue names a path or a crate that it does not hold, or
/// where a path stands under itself.
pub fn render_api_markdown(api: &Api) -> (markdown: Option<String>)
    ensures
        match api_markdown(api@, api.features.entries()) {
            Some(text) => markdown matches Some(written) && written@ == text,
            None => markdown is None,
        },
{
    let root_id = match api.root_id {
        Some(root_id) => root_id,
        None => {
            return Some(String::new());
        },
    };
    let root = match api.paths.get(root_id) {
        Some(root) => root,
        None => {
            return None;
        },
    };
    let mut text = "# `".to_owned();
    text.append(root.path.as_str());
    text.append("`\n\n");
    let ghost title = text@;
    if !render_paths(api, &root.children, api.paths.len(), &mut text) {
        return None;
    }
    let ghost tree = paths_written(api@, root@.children, api@.paths.len()).unwrap();
    assert(text@ =~= title + tree);
    render_features(&api.features, &mut text);
    render_crates(&api.crates, &mut text);
    assert(text@ =~= title + tree + feature_section(api.features.entries()) + crate_section(
        api@.crates,
    ));
    Some(text)
}

} // verus!
