//! What building a catalogue from a documentation tree means, step by step:
//! the state of the builder as plain values and what each step makes of it.

use vstd::prelude::*;
use crate::api::empty_api;
use crate::api::ApiView;
use crate::api::CrateId;
use crate::api::CrateView;
use crate::api::ItemId;
use crate::api::ItemView;
use crate::api::PathId;
use crate::api::PathKind;
use crate::api::PathView;
use crate::raw::DocumentView;
use crate::raw::RawShapeView;
use crate::text::joined;

verus! {

/// The state of a builder as the contracts see it.
pub struct ParserView {
    /// The ids still to visit, each with the path under which it was found.
    pub unprocessed: Seq<(Option<PathId>, Seq<char>)>,
    /// The re-exports met so far: the path that owns each, the name it
    /// exposes, and the id of what it re-exports.
    pub deferred_imports: Seq<(PathId, Seq<char>, Seq<char>)>,
    /// What has been built.
    pub api: ApiView,
    /// The crate made for each crate number seen; none for the package itself.
    pub crate_ids: Map<u32, Option<CrateId>>,
    /// The path made for each id seen; none where the path table has no entry.
    pub path_ids: Map<Seq<char>, Option<PathId>>,
    /// The item made for each id seen; none where the id is no terminal.
    pub item_ids: Map<Seq<char>, Option<ItemId>>,
}

/// The state in which nothing has been seen and nothing is to be visited.
pub open spec fn fresh() -> ParserView {
    ParserView {
        unprocessed: Seq::empty(),
        deferred_imports: Seq::empty(),
        api: empty_api(),
        crate_ids: Map::empty(),
        path_ids: Map::empty(),
        item_ids: Map::empty(),
    }
}

/// The kind that a summary's kind name stands for. A struct field has no kind
/// of path, and neither has a name that is none of these.
pub open spec fn path_kind_named(name: Seq<char>) -> Option<PathKind> {
    if name == "Module"@ {
        Some(PathKind::Module)
    } else if name == "ExternCrate"@ {
        Some(PathKind::ExternCrate)
    } else if name == "Import"@ {
        Some(PathKind::Import)
    } else if name == "Struct"@ {
        Some(PathKind::Struct)
    } else if name == "Union"@ {
        Some(PathKind::Union)
    } else if name == "Enum"@ {
        Some(PathKind::Enum)
    } else if name == "Variant"@ {
        Some(PathKind::Variant)
    } else if name == "Function"@ {
        Some(PathKind::Function)
    } else if name == "Typedef"@ {
        Some(PathKind::Typedef)
    } else if name == "OpaqueTy"@ {
        Some(PathKind::OpaqueTy)
    } else if name == "Constant"@ {
        Some(PathKind::Constant)
    } else if name == "Trait"@ {
        Some(PathKind::Trait)
    } else if name == "TraitAlias"@ {
        Some(PathKind::TraitAlias)
    } else if name == "Method"@ {
        Some(PathKind::Method)
    } else if name == "Impl"@ {
        Some(PathKind::Impl)
    } else if name == "Static"@ {
        Some(PathKind::Static)
    } else if name == "ForeignType"@ {
        Some(PathKind::ForeignType)
    } else if name == "Macro"@ {
        Some(PathKind::Macro)
    } else if name == "ProcAttribute"@ {
        Some(PathKind::ProcAttribute)
    } else if name == "ProcDerive"@ {
        Some(PathKind::ProcDerive)
    } else if name == "AssocConst"@ {
        Some(PathKind::AssocConst)
    } else if name == "AssocType"@ {
        Some(PathKind::AssocType)
    } else if name == "Primitive"@ {
        Some(PathKind::Primitive)
    } else if name == "Keyword"@ {
        Some(PathKind::Keyword)
    } else {
        None
    }
}

/// Whether `id` addresses one of `paths`.
pub open spec fn path_in(paths: Seq<PathView>, id: Option<PathId>) -> bool {
    id matches Some(p) ==> p.0 < paths.len()
}

/// `paths` with `child` added as the last child of `parent`.
pub open spec fn with_child(paths: Seq<PathView>, parent: PathId, child: PathId) -> Seq<PathView> {
    let held = paths[parent.0 as int];
    paths.update(parent.0 as int, PathView { children: held.children.push(child), ..held })
}

/// `paths` with `item` as the item of the path `at`.
pub open spec fn with_item(paths: Seq<PathView>, at: PathId, item: ItemId) -> Seq<PathView> {
    let held = paths[at.0 as int];
    paths.update(at.0 as int, PathView { item_id: Some(item), ..held })
}

/// The queue entries for `members` found under `parent`.
pub open spec fn queued(parent: Option<PathId>, members: Seq<Seq<char>>) -> Seq<
    (Option<PathId>, Seq<char>),
> {
    Seq::new(members.len(), |i: int| (parent, members[i]))
}

/// What resolving the crate number `number` makes of the state `s`, and the
/// crate it gives; nothing where the tree does not name that crate.
///
/// A number seen before gives what it gave then and leaves the state as it is.
/// The number 0 is the package itself and gives no crate. Any other number
/// gives a new crate with the name that the tree has for it, unless no
/// further id can be given.
pub open spec fn crate_resolved(d: DocumentView, s: ParserView, number: u32) -> Option<
    (ParserView, Option<CrateId>),
> {
    if s.crate_ids.contains_key(number) {
        Some((s, s.crate_ids[number]))
    } else if number == 0 {
        Some((ParserView { crate_ids: s.crate_ids.insert(number, None), ..s }, None))
    } else if !d.crates.contains_key(number) || s.api.crates.len() >= usize::MAX {
        None
    } else {
        let id = CrateId(s.api.crates.len() as usize);
        let made = CrateView { name: d.crates[number], version: None };
        Some(
            (
                ParserView {
                    api: ApiView { crates: s.api.crates.push(made), ..s.api },
                    crate_ids: s.crate_ids.insert(number, Some(id)),
                    ..s
                },
                Some(id),
            ),
        )
    }
}

/// What resolving the path of the id `raw_id`, found under `parent` and
/// belonging to `crate_id`, makes of the state `s`, and the path it gives;
/// nothing where the tree is malformed.
///
/// An id seen before gives what it gave then and leaves the state as it is. An
/// id without a summary gives no path. Any other id gives a new path, which
/// becomes the last child of `parent` and, if it is the first path of all, the
/// root. The tree is malformed where it has a summary but no item for the id,
/// or a summary whose kind is no kind of path. Nothing is given either where
/// no further id can be given.
pub open spec fn path_resolved(
    d: DocumentView,
    s: ParserView,
    parent: Option<PathId>,
    raw_id: Seq<char>,
    crate_id: Option<CrateId>,
) -> Option<(ParserView, Option<PathId>)> {
    if s.path_ids.contains_key(raw_id) {
        Some((s, s.path_ids[raw_id]))
    } else if !d.paths.contains_key(raw_id) {
        Some((ParserView { path_ids: s.path_ids.insert(raw_id, None), ..s }, None))
    } else if !d.items.contains_key(raw_id) || path_kind_named(d.paths[raw_id].kind) is None
        || !path_in(s.api.paths, parent) || s.api.paths.len() >= usize::MAX {
        None
    } else {
        let id = PathId(s.api.paths.len() as usize);
        let made = PathView {
            crate_id,
            path: joined(d.paths[raw_id].path, "::"@),
            kind: path_kind_named(d.paths[raw_id].kind).unwrap(),
            span: d.items[raw_id].span,
            item_id: None,
            children: Seq::empty(),
        };
        let added = s.api.paths.push(made);
        let linked = match parent {
            Some(p) => with_child(added, p, id),
            None => added,
        };
        let root_id = if s.api.root_id is None {
            Some(id)
        } else {
            s.api.root_id
        };
        Some(
            (
                ParserView {
                    api: ApiView { root_id, paths: linked, ..s.api },
                    path_ids: s.path_ids.insert(raw_id, Some(id)),
                    ..s
                },
                Some(id),
            ),
        )
    }
}

/// The state `s` with `members` queued under `path_id` and `raw_id` marked as
/// seen without an item.
pub open spec fn members_queued(
    s: ParserView,
    raw_id: Seq<char>,
    path_id: Option<PathId>,
    members: Seq<Seq<char>>,
) -> ParserView {
    ParserView {
        unprocessed: s.unprocessed + queued(path_id, members),
        item_ids: s.item_ids.insert(raw_id, None),
        ..s
    }
}

/// What resolving the item of the id `raw_id`, whose path is `path_id` and
/// which belongs to `crate_id`, makes of the state `s`, and the item it gives;
/// nothing where the tree is malformed.
///
/// An id seen before gives what it gave then and leaves the state as it is. A
/// module, trait, impl or enum gives no item and queues its members under
/// `path_id`. A re-export gives no item, queues its target under `path_id` and
/// is noted for later; one without a target does nothing. Anything else gives
/// a new item, which becomes the item of `path_id`. The tree is malformed
/// where it has no item for the id, a re-export under no path, or a terminal
/// before any path was made. Nothing is given either where no further id can
/// be given.
pub open spec fn item_resolved(
    d: DocumentView,
    s: ParserView,
    raw_id: Seq<char>,
    path_id: Option<PathId>,
    crate_id: Option<CrateId>,
) -> Option<(ParserView, Option<ItemId>)> {
    if s.item_ids.contains_key(raw_id) {
        Some((s, s.item_ids[raw_id]))
    } else if !d.items.contains_key(raw_id) {
        None
    } else {
        match d.items[raw_id].inner {
            RawShapeView::Module(members) => Some(
                (members_queued(s, raw_id, path_id, members), None),
            ),
            RawShapeView::Trait(members) => Some(
                (members_queued(s, raw_id, path_id, members), None),
            ),
            RawShapeView::Impl(members) => Some((members_queued(s, raw_id, path_id, members), None)),
            RawShapeView::Enum(members) => Some((members_queued(s, raw_id, path_id, members), None)),
            RawShapeView::Import { name, id } => match id {
                None => Some((ParserView { item_ids: s.item_ids.insert(raw_id, None), ..s }, None)),
                Some(target) => match path_id {
                    None => None,
                    Some(owner) => Some(
                        (
                            ParserView {
                                unprocessed: s.unprocessed.push((path_id, target)),
                                deferred_imports: s.deferred_imports.push((owner, name, target)),
                                item_ids: s.item_ids.insert(raw_id, None),
                                ..s
                            },
                            None,
                        ),
                    ),
                },
            },
            RawShapeView::Terminal => if s.api.root_id is None || !path_in(s.api.paths, path_id)
                || s.api.items.len() >= usize::MAX {
                None
            } else {
                let id = ItemId(s.api.items.len() as usize);
                let made = ItemView {
                    crate_id,
                    name: d.items[raw_id].name,
                    span: d.items[raw_id].span,
                };
                let paths = match path_id {
                    Some(p) => with_item(s.api.paths, p, id),
                    None => s.api.paths,
                };
                Some(
                    (
                        ParserView {
                            api: ApiView { paths, items: s.api.items.push(made), ..s.api },
                            item_ids: s.item_ids.insert(raw_id, Some(id)),
                            ..s
                        },
                        Some(id),
                    ),
                )
            },
        }
    }
}

/// What visiting the first id of the queue makes of the state `s`: the id
/// leaves the queue, then its crate, its path and its item are resolved, the
/// item under its own path or else under the path it was found under. Nothing
/// where the tree is malformed; `s` itself where the queue is empty.
pub open spec fn visited(d: DocumentView, s: ParserView) -> Option<ParserView> {
    if s.unprocessed.len() == 0 {
        Some(s)
    } else {
        let (parent, raw_id) = s.unprocessed[0];
        let taken = ParserView { unprocessed: s.unprocessed.drop_first(), ..s };
        if !d.items.contains_key(raw_id) {
            None
        } else {
            match crate_resolved(d, taken, d.items[raw_id].crate_id) {
                None => None,
                Some((with_crate, crate_id)) => match path_resolved(
                    d,
                    with_crate,
                    parent,
                    raw_id,
                    crate_id,
                ) {
                    None => None,
                    Some((with_path, path_id)) => {
                        let under = if path_id is Some {
                            path_id
                        } else {
                            parent
                        };
                        match item_resolved(d, with_path, raw_id, under, crate_id) {
                            None => None,
                            Some((with_item, _)) => Some(with_item),
                        }
                    },
                },
            }
        }
    }
}

/// The state after `n` visits from `from`; nothing once the tree has shown
/// itself malformed.
pub open spec fn visited_times(d: DocumentView, from: Option<ParserView>, n: nat) -> Option<
    ParserView,
>
    decreases n,
{
    if n == 0 {
        from
    } else {
        match visited_times(d, from, (n - 1) as nat) {
            Some(s) => visited(d, s),
            None => None,
        }
    }
}

/// Whether nothing is left to visit: the queue is empty or the tree has shown
/// itself malformed.
pub open spec fn settled(state: Option<ParserView>) -> bool {
    match state {
        Some(s) => s.unprocessed.len() == 0,
        None => true,
    }
}

/// The state `s` with the root of the tree added to the queue.
pub open spec fn seeded(d: DocumentView, s: ParserView) -> ParserView {
    ParserView { unprocessed: s.unprocessed.push((None, d.root)), ..s }
}

/// The state after everything in the queue of `s`, and everything that comes
/// into it on the way, was visited; nothing where the tree is malformed.
pub open spec fn traversed(d: DocumentView, s: ParserView) -> Option<ParserView> {
    visited_times(d, Some(s), choose|n: nat| settled(visited_times(d, Some(s), n)))
}

/// What resolving one re-export makes of the state `s`: a new path of kind
/// `Import`, named after its owner and the exposed name, in the owner's crate,
/// with the target's item and a copy of the target's children, added as the
/// owner's last child. Nothing where the target has no path, or where no
/// further id can be given.
pub open spec fn import_resolved(s: ParserView, entry: (PathId, Seq<char>, Seq<char>)) -> Option<
    ParserView,
> {
    let (owner, name, target) = entry;
    if !s.path_ids.contains_key(target) || s.path_ids[target] is None || !path_in(
        s.api.paths,
        s.path_ids[target],
    ) || owner.0 >= s.api.paths.len() || s.api.paths.len() >= usize::MAX {
        None
    } else {
        let target_path = s.api.paths[s.path_ids[target].unwrap().0 as int];
        let owner_path = s.api.paths[owner.0 as int];
        let id = PathId(s.api.paths.len() as usize);
        let made = PathView {
            crate_id: owner_path.crate_id,
            path: owner_path.path + "::"@ + name,
            kind: PathKind::Import,
            span: None,
            item_id: target_path.item_id,
            children: target_path.children,
        };
        Some(
            ParserView {
                api: ApiView { paths: with_child(s.api.paths.push(made), owner, id), ..s.api },
                ..s
            },
        )
    }
}

/// What resolving every noted re-export, in the order in which they were
/// noted, makes of the state `s`. None is left noted afterwards.
pub open spec fn imports_resolved(s: ParserView) -> Option<ParserView>
    decreases s.deferred_imports.len(),
{
    if s.deferred_imports.len() == 0 {
        Some(s)
    } else {
        let rest = ParserView { deferred_imports: s.deferred_imports.drop_first(), ..s };
        match import_resolved(rest, s.deferred_imports[0]) {
            Some(next) => imports_resolved(next),
            None => None,
        }
    }
}

/// The catalogue that a builder in the state `s` makes of a documentation
/// tree: it visits the root and all that can be reached from it, then resolves
/// the re-exports. Nothing where the tree is malformed.
pub open spec fn built_from(d: DocumentView, s: ParserView) -> Option<ApiView> {
    match traversed(d, seeded(d, s)) {
        Some(seen) => match imports_resolved(seen) {
            Some(done) => Some(done.api),
            None => None,
        },
        None => None,
    }
}

/// The catalogue that a documentation tree stands for; nothing where the tree
/// is malformed.
pub open spec fn built(d: DocumentView) -> Option<ApiView> {
    built_from(d, fresh())
}

/// Once nothing is left to visit, further visits change nothing.
pub proof fn lemma_settled_stays(d: DocumentView, from: Option<ParserView>, n: nat, m: nat)
    requires
        settled(visited_times(d, from, n)),
        n <= m,
    ensures
        visited_times(d, from, m) == visited_times(d, from, n),
    decreases m,
{
    if n < m {
        lemma_settled_stays(d, from, n, (m - 1) as nat);
    }
}

/// The traversal ends in the state in which nothing is left to visit,
/// however many visits it took to get there.
pub proof fn lemma_traversed(d: DocumentView, s: ParserView, n: nat)
    requires
        settled(visited_times(d, Some(s), n)),
    ensures
        traversed(d, s) == visited_times(d, Some(s), n),
{
    let m = choose|m: nat| settled(visited_times(d, Some(s), m));
    if m <= n {
        lemma_settled_stays(d, Some(s), m, n);
    } else {
        lemma_settled_stays(d, Some(s), n, m);
    }
}

/// The ids of the tree that no visit has reached yet.
pub open spec fn unvisited(d: DocumentView, s: ParserView) -> Set<Seq<char>> {
    d.items.dom().difference(s.item_ids.dom())
}

/// Every visit gets closer to the end: it reaches an id that none had
/// reached, or it leaves the reached ids as they are and shortens the queue.
pub proof fn lemma_visit_progress(d: DocumentView, s: ParserView)
    requires
        d.items.dom().finite(),
        s.unprocessed.len() > 0,
        visited(d, s) is Some,
    ensures
        unvisited(d, visited(d, s).unwrap()).len() < unvisited(d, s).len() || (unvisited(
            d,
            visited(d, s).unwrap(),
        ) == unvisited(d, s) && visited(d, s).unwrap().unprocessed.len() < s.unprocessed.len()),
{
    let (parent, raw_id) = s.unprocessed[0];
    let taken = ParserView { unprocessed: s.unprocessed.drop_first(), ..s };
    let (with_crate, crate_id) = crate_resolved(d, taken, d.items[raw_id].crate_id).unwrap();
    let (with_path, path_id) = path_resolved(d, with_crate, parent, raw_id, crate_id).unwrap();
    let under = if path_id is Some {
        path_id
    } else {
        parent
    };
    let (with_item, _) = item_resolved(d, with_path, raw_id, under, crate_id).unwrap();
    assert(with_path.item_ids == s.item_ids);
    assert(with_path.unprocessed == s.unprocessed.drop_first());
    if s.item_ids.contains_key(raw_id) {
        assert(with_item == with_path);
    } else {
        assert(with_item.item_ids.dom() =~= s.item_ids.dom().insert(raw_id));
        d.items.dom().lemma_set_insert_diff_decreases(s.item_ids.dom(), raw_id);
    }
}

/// Resolving the re-exports leaves none noted, so that resolving them once
/// more changes nothing.
pub proof fn lemma_imports_resolved_once(s: ParserView)
    requires
        imports_resolved(s) is Some,
    ensures
        imports_resolved(s).unwrap().deferred_imports.len() == 0,
        imports_resolved(imports_resolved(s).unwrap()) == imports_resolved(s),
    decreases s.deferred_imports.len(),
{
    if s.deferred_imports.len() > 0 {
        let rest = ParserView { deferred_imports: s.deferred_imports.drop_first(), ..s };
        lemma_imports_resolved_once(import_resolved(rest, s.deferred_imports[0]).unwrap());
    }
}

} // verus!
