//! What holds of every build: each id of the tree is built once, and the
//! paths of the catalogue form a tree.

use vstd::prelude::*;
use crate::api::CrateId;
use crate::api::ItemId;
use crate::api::PathId;
use crate::api::PathKind;
use crate::api::PathView;
use crate::graph::built;
use crate::graph::crate_resolved;
use crate::graph::fresh;
use crate::graph::import_resolved;
use crate::graph::imports_resolved;
use crate::graph::item_resolved;
use crate::graph::lemma_traversed;
use crate::graph::lemma_visit_progress;
use crate::graph::path_resolved;
use crate::graph::seeded;
use crate::graph::settled;
use crate::graph::traversed;
use crate::graph::unvisited;
use crate::graph::visited;
use crate::graph::visited_times;
use crate::graph::ParserView;
use crate::raw::DocumentView;
use crate::raw::RawShapeView;

verus! {

/// Whether the crate at position `c` was made for some crate number.
pub open spec fn crate_made_for(s: ParserView, c: int) -> bool {
    exists|n: u32| s.crate_ids.contains_key(n) && #[trigger] s.crate_ids[n] == Some(
        CrateId(c as usize),
    )
}

/// Whether the path at position `p` was made for some id.
pub open spec fn path_made_for(s: ParserView, p: int) -> bool {
    exists|r: Seq<char>| s.path_ids.contains_key(r) && #[trigger] s.path_ids[r] == Some(
        PathId(p as usize),
    )
}

/// Whether the item at position `i` was made for some id.
pub open spec fn item_made_for(s: ParserView, i: int) -> bool {
    exists|r: Seq<char>| s.item_ids.contains_key(r) && #[trigger] s.item_ids[r] == Some(
        ItemId(i as usize),
    )
}

/// Whether the crates were built once each: every crate number that has a
/// crate has one of the catalogue's, no two numbers have the same, and every
/// crate of the catalogue was made for some number.
pub open spec fn crates_built_once(s: ParserView) -> bool {
    &&& s.api.crates.len() <= usize::MAX
    &&& forall|n: u32|
        s.crate_ids.contains_key(n) && (#[trigger] s.crate_ids[n]) is Some
            ==> s.crate_ids[n].unwrap().0 < s.api.crates.len()
    &&& forall|n1: u32, n2: u32|
        s.crate_ids.contains_key(n1) && s.crate_ids.contains_key(n2) && (
        #[trigger] s.crate_ids[n1]) is Some && s.crate_ids[n1] == (#[trigger] s.crate_ids[n2])
            ==> n1 == n2
    &&& forall|c: int| 0 <= c < s.api.crates.len() ==> #[trigger] crate_made_for(s, c)
}

/// Whether the paths were built once each: every id that has a path has one
/// of the catalogue's, no two ids have the same, and every path of the
/// catalogue was made for some id.
pub open spec fn paths_built_once(s: ParserView) -> bool {
    &&& s.api.paths.len() <= usize::MAX
    &&& forall|r: Seq<char>|
        s.path_ids.contains_key(r) && (#[trigger] s.path_ids[r]) is Some
            ==> s.path_ids[r].unwrap().0 < s.api.paths.len()
    &&& forall|r1: Seq<char>, r2: Seq<char>|
        s.path_ids.contains_key(r1) && s.path_ids.contains_key(r2) && (
        #[trigger] s.path_ids[r1]) is Some && s.path_ids[r1] == (#[trigger] s.path_ids[r2])
            ==> r1 == r2
    &&& forall|p: int| 0 <= p < s.api.paths.len() ==> #[trigger] path_made_for(s, p)
}

/// Whether the items were built once each: every id that has an item has one
/// of the catalogue's, no two ids have the same, and every item of the
/// catalogue was made for some id.
pub open spec fn items_built_once(s: ParserView) -> bool {
    &&& s.api.items.len() <= usize::MAX
    &&& forall|r: Seq<char>|
        s.item_ids.contains_key(r) && (#[trigger] s.item_ids[r]) is Some
            ==> s.item_ids[r].unwrap().0 < s.api.items.len()
    &&& forall|r1: Seq<char>, r2: Seq<char>|
        s.item_ids.contains_key(r1) && s.item_ids.contains_key(r2) && (
        #[trigger] s.item_ids[r1]) is Some && s.item_ids[r1] == (#[trigger] s.item_ids[r2])
            ==> r1 == r2
    &&& forall|i: int| 0 <= i < s.api.items.len() ==> #[trigger] item_made_for(s, i)
}

/// Whether every crate, path and item was built once.
pub open spec fn built_once(s: ParserView) -> bool {
    crates_built_once(s) && paths_built_once(s) && items_built_once(s)
}

/// Resolving a crate number a second time gives the crate it gave the first
/// time and changes nothing.
pub proof fn lemma_crate_resolved_again(d: DocumentView, s: ParserView, number: u32)
    requires
        crate_resolved(d, s, number) is Some,
    ensures
        crate_resolved(d, crate_resolved(d, s, number).unwrap().0, number) == crate_resolved(
            d,
            s,
            number,
        ),
{
}

/// Resolving the path of an id a second time, wherever it is found, gives
/// the path it gave the first time and changes nothing.
pub proof fn lemma_path_resolved_again(
    d: DocumentView,
    s: ParserView,
    parent: Option<PathId>,
    raw_id: Seq<char>,
    crate_id: Option<CrateId>,
    other_parent: Option<PathId>,
    other_crate: Option<CrateId>,
)
    requires
        path_resolved(d, s, parent, raw_id, crate_id) is Some,
    ensures
        path_resolved(
            d,
            path_resolved(d, s, parent, raw_id, crate_id).unwrap().0,
            other_parent,
            raw_id,
            other_crate,
        ) == path_resolved(d, s, parent, raw_id, crate_id),
{
}

/// Resolving the item of an id a second time, under whatever path, gives the
/// item it gave the first time and changes nothing.
pub proof fn lemma_item_resolved_again(
    d: DocumentView,
    s: ParserView,
    raw_id: Seq<char>,
    path_id: Option<PathId>,
    crate_id: Option<CrateId>,
    other_path: Option<PathId>,
    other_crate: Option<CrateId>,
)
    requires
        item_resolved(d, s, raw_id, path_id, crate_id) is Some,
    ensures
        item_resolved(
            d,
            item_resolved(d, s, raw_id, path_id, crate_id).unwrap().0,
            raw_id,
            other_path,
            other_crate,
        ) == item_resolved(d, s, raw_id, path_id, crate_id),
{
}

proof fn lemma_crate_step_once(d: DocumentView, s: ParserView, number: u32)
    requires
        built_once(s),
        crate_resolved(d, s, number) is Some,
    ensures
        built_once(crate_resolved(d, s, number).unwrap().0),
{
    let t = crate_resolved(d, s, number).unwrap().0;
    if !s.crate_ids.contains_key(number) {
        assert forall|c: int| 0 <= c < t.api.crates.len() implies #[trigger] crate_made_for(
            t,
            c,
        ) by {
            if c < s.api.crates.len() {
                assert(crate_made_for(s, c));
                let n = choose|n: u32|
                    s.crate_ids.contains_key(n) && #[trigger] s.crate_ids[n] == Some(
                        CrateId(c as usize),
                    );
                assert(t.crate_ids.contains_key(n) && t.crate_ids[n] == Some(CrateId(c as usize)));
            } else {
                assert(t.crate_ids.contains_key(number) && t.crate_ids[number] == Some(
                    CrateId(c as usize),
                ));
            }
        }
        assert forall|p: int| 0 <= p < t.api.paths.len() implies #[trigger] path_made_for(t, p) by {
            assert(path_made_for(s, p));
        }
        assert forall|i: int| 0 <= i < t.api.items.len() implies #[trigger] item_made_for(t, i) by {
            assert(item_made_for(s, i));
        }
    }
}

proof fn lemma_path_step_once(
    d: DocumentView,
    s: ParserView,
    parent: Option<PathId>,
    raw_id: Seq<char>,
    crate_id: Option<CrateId>,
)
    requires
        built_once(s),
        path_resolved(d, s, parent, raw_id, crate_id) is Some,
    ensures
        built_once(path_resolved(d, s, parent, raw_id, crate_id).unwrap().0),
{
    let t = path_resolved(d, s, parent, raw_id, crate_id).unwrap().0;
    if !s.path_ids.contains_key(raw_id) {
        assert forall|p: int| 0 <= p < t.api.paths.len() implies #[trigger] path_made_for(t, p) by {
            if p < s.api.paths.len() {
                assert(path_made_for(s, p));
                let r = choose|r: Seq<char>|
                    s.path_ids.contains_key(r) && #[trigger] s.path_ids[r] == Some(
                        PathId(p as usize),
                    );
                assert(t.path_ids.contains_key(r) && t.path_ids[r] == Some(PathId(p as usize)));
            } else {
                assert(t.path_ids.contains_key(raw_id) && t.path_ids[raw_id] == Some(
                    PathId(p as usize),
                ));
            }
        }
        assert forall|c: int| 0 <= c < t.api.crates.len() implies #[trigger] crate_made_for(
            t,
            c,
        ) by {
            assert(crate_made_for(s, c));
        }
        assert forall|i: int| 0 <= i < t.api.items.len() implies #[trigger] item_made_for(t, i) by {
            assert(item_made_for(s, i));
        }
    }
}

proof fn lemma_item_step_once(
    d: DocumentView,
    s: ParserView,
    raw_id: Seq<char>,
    path_id: Option<PathId>,
    crate_id: Option<CrateId>,
)
    requires
        built_once(s),
        item_resolved(d, s, raw_id, path_id, crate_id) is Some,
    ensures
        built_once(item_resolved(d, s, raw_id, path_id, crate_id).unwrap().0),
{
    let t = item_resolved(d, s, raw_id, path_id, crate_id).unwrap().0;
    if !s.item_ids.contains_key(raw_id) {
        assert forall|i: int| 0 <= i < t.api.items.len() implies #[trigger] item_made_for(t, i) by {
            if i < s.api.items.len() {
                assert(item_made_for(s, i));
                let r = choose|r: Seq<char>|
                    s.item_ids.contains_key(r) && #[trigger] s.item_ids[r] == Some(
                        ItemId(i as usize),
                    );
                assert(t.item_ids.contains_key(r) && t.item_ids[r] == Some(ItemId(i as usize)));
            } else {
                assert(t.item_ids.contains_key(raw_id) && t.item_ids[raw_id] == Some(
                    ItemId(i as usize),
                ));
            }
        }
        assert forall|c: int| 0 <= c < t.api.crates.len() implies #[trigger] crate_made_for(
            t,
            c,
        ) by {
            assert(crate_made_for(s, c));
        }
        assert forall|p: int| 0 <= p < t.api.paths.len() implies #[trigger] path_made_for(t, p) by {
            assert(path_made_for(s, p));
        }
    }
}

/// A visit keeps every crate, path and item built once.
pub proof fn lemma_visit_once(d: DocumentView, s: ParserView)
    requires
        built_once(s),
        visited(d, s) is Some,
    ensures
        built_once(visited(d, s).unwrap()),
{
    if s.unprocessed.len() > 0 {
        let (parent, raw_id) = s.unprocessed[0];
        let taken = ParserView { unprocessed: s.unprocessed.drop_first(), ..s };
        assert(built_once(taken)) by {
            assert forall|c: int| 0 <= c < taken.api.crates.len() implies #[trigger] crate_made_for(
                taken,
                c,
            ) by {
                assert(crate_made_for(s, c));
            }
            assert forall|p: int| 0 <= p < taken.api.paths.len() implies #[trigger] path_made_for(
                taken,
                p,
            ) by {
                assert(path_made_for(s, p));
            }
            assert forall|i: int| 0 <= i < taken.api.items.len() implies #[trigger] item_made_for(
                taken,
                i,
            ) by {
                assert(item_made_for(s, i));
            }
        }
        let number = d.items[raw_id].crate_id;
        lemma_crate_step_once(d, taken, number);
        let (with_crate, crate_id) = crate_resolved(d, taken, number).unwrap();
        lemma_path_step_once(d, with_crate, parent, raw_id, crate_id);
        let (with_path, path_id) = path_resolved(d, with_crate, parent, raw_id, crate_id).unwrap();
        let under = if path_id is Some {
            path_id
        } else {
            parent
        };
        lemma_item_step_once(d, with_path, raw_id, under, crate_id);
    }
}

/// Whether `k` is a place among the children of the path at position `q`.
pub open spec fn is_edge(paths: Seq<PathView>, q: int, k: int) -> bool {
    0 <= q < paths.len() && 0 <= k < paths[q].children.len()
}

/// Whether one of the first `n` paths has the path at position `p` among its
/// children.
pub open spec fn owned(paths: Seq<PathView>, n: int, p: int) -> bool {
    exists|q: int, k: int|
        0 <= q < n && is_edge(paths, q, k) && (#[trigger] paths[q].children[k]).0 == p
}

/// Whether `paths` form a tree under the children of the first `n` of them,
/// which are the paths that the traversal made; the others are the re-exports
/// made afterwards.
///
/// The first path is the root. Every child is one of the paths. A child of one
/// of the first `n` paths comes after its parent, so that no path is its own
/// ancestor and the root is nobody's child. No path is a child of two of the
/// first `n` paths, nor twice a child of one, and every path but the root is
/// the child of one of them. The children of each of the first `n` paths
/// stand in rising order, so that what the traversal found comes before the
/// re-exports, each in the order in which it was met. A re-export made
/// afterwards has the kind `Import`; its own children are a copy of another
/// path's and are not counted here.
pub open spec fn tree_shaped(paths: Seq<PathView>, n: int) -> bool {
    &&& 1 <= n <= paths.len() <= usize::MAX
    &&& forall|q: int, k: int|
        is_edge(paths, q, k) ==> (#[trigger] paths[q].children[k]).0 < paths.len()
    &&& forall|q: int, k: int|
        0 <= q < n && is_edge(paths, q, k) ==> q < (#[trigger] paths[q].children[k]).0
    &&& forall|q: int, k: int, q2: int, k2: int|
        0 <= q < n && 0 <= q2 < n && is_edge(paths, q, k) && is_edge(paths, q2, k2) && (
        #[trigger] paths[q].children[k]) == (#[trigger] paths[q2].children[k2]) ==> q == q2 && k
            == k2
    &&& forall|p: int| 1 <= p < paths.len() ==> #[trigger] owned(paths, n, p)
    &&& forall|q: int, k: int, later: int|
        0 <= q < n && 0 <= k < later < paths[q].children.len() ==> (
        #[trigger] paths[q].children[k]).0 < (#[trigger] paths[q].children[later]).0
    &&& forall|p: int| n <= p < paths.len() ==> (#[trigger] paths[p]).kind == PathKind::Import
}

/// Whether the state `s` of a traversal is in order: before the first path is
/// made only the root waits; afterwards the paths form a tree, and whatever
/// waits or was noted stands under one of them.
pub open spec fn orderly(d: DocumentView, s: ParserView) -> bool {
    if s.api.paths.len() == 0 {
        &&& s.api.root_id is None
        &&& s.unprocessed == seq![(None::<PathId>, d.root)]
        &&& !s.path_ids.contains_key(d.root)
        &&& s.deferred_imports.len() == 0
    } else {
        &&& s.api.root_id == Some(PathId(0))
        &&& tree_shaped(s.api.paths, s.api.paths.len() as int)
        &&& forall|i: int|
            0 <= i < s.unprocessed.len() ==> (#[trigger] s.unprocessed[i]).0 is Some
                && s.unprocessed[i].0.unwrap().0 < s.api.paths.len()
        &&& forall|i: int|
            0 <= i < s.deferred_imports.len() ==> (#[trigger] s.deferred_imports[i]).0.0
                < s.api.paths.len()
    }
}

proof fn lemma_child_added(paths: Seq<PathView>, made: PathView, parent: PathId)
    requires
        tree_shaped(paths, paths.len() as int),
        paths.len() < usize::MAX,
        parent.0 < paths.len(),
        made.children.len() == 0,
    ensures
        tree_shaped(
            crate::graph::with_child(paths.push(made), parent, PathId(paths.len() as usize)),
            (paths.len() + 1) as int,
        ),
{
    let n = paths.len() as int;
    let id = PathId(n as usize);
    let after = crate::graph::with_child(paths.push(made), parent, id);
    assert(after.len() == n + 1);
    assert forall|q: int| 0 <= q < n && q != parent.0 implies #[trigger] after[q] == paths[q] by {}
    assert(after[n].children.len() == 0);
    assert(after[parent.0 as int].children =~= paths[parent.0 as int].children.push(id));
    assert forall|q: int, k: int| is_edge(after, q, k) implies (
    #[trigger] after[q].children[k]).0 < after.len() by {
        if q == parent.0 {
            if k < paths[q].children.len() {
                assert(is_edge(paths, q, k));
                assert(after[q].children[k] == paths[q].children[k]);
            }
        } else {
            assert(is_edge(paths, q, k));
            assert(after[q].children[k] == paths[q].children[k]);
        }
    }
    assert forall|q: int, k: int| 0 <= q < n + 1 && is_edge(after, q, k) implies q < (
    #[trigger] after[q].children[k]).0 by {
        if q == parent.0 {
            if k < paths[q].children.len() {
                assert(is_edge(paths, q, k));
                assert(after[q].children[k] == paths[q].children[k]);
            }
        } else {
            assert(is_edge(paths, q, k));
            assert(after[q].children[k] == paths[q].children[k]);
        }
    }
    assert forall|q: int, k: int, q2: int, k2: int|
        0 <= q < n + 1 && 0 <= q2 < n + 1 && is_edge(after, q, k) && is_edge(after, q2, k2) && (
        #[trigger] after[q].children[k]) == (#[trigger] after[q2].children[k2]) implies q == q2
        && k == k2 by {
        let fresh_one = q == parent.0 && k == paths[q].children.len();
        let fresh_two = q2 == parent.0 && k2 == paths[q2].children.len();
        if !fresh_one {
            assert(is_edge(paths, q, k));
            assert(after[q].children[k] == paths[q].children[k]);
            assert(paths[q].children[k].0 < n);
        }
        if !fresh_two {
            assert(is_edge(paths, q2, k2));
            assert(after[q2].children[k2] == paths[q2].children[k2]);
            assert(paths[q2].children[k2].0 < n);
        }
    }
    assert forall|p: int| 1 <= p < after.len() implies #[trigger] owned(after, n + 1, p) by {
        if p < n {
            assert(owned(paths, n, p));
            let (q, k) = choose|q: int, k: int|
                0 <= q < n && is_edge(paths, q, k) && (#[trigger] paths[q].children[k]).0 == p;
            assert(is_edge(after, q, k));
            assert(after[q].children[k] == paths[q].children[k]);
        } else {
            let q = parent.0 as int;
            let k = paths[q].children.len() as int;
            assert(is_edge(after, q, k));
            assert(after[q].children[k].0 == p);
        }
    }
    assert forall|q: int, k: int, later: int|
        0 <= q < n + 1 && 0 <= k < later < after[q].children.len() implies (
    #[trigger] after[q].children[k]).0 < (#[trigger] after[q].children[later]).0 by {
        assert(is_edge(paths, q, k));
        assert(after[q].children[k] == paths[q].children[k]);
        if q == parent.0 && later == paths[q].children.len() {
            assert(paths[q].children[k].0 < n);
        } else {
            assert(after[q].children[later] == paths[q].children[later]);
        }
    }
}

proof fn lemma_item_set(paths: Seq<PathView>, n: int, at: PathId, item: ItemId)
    requires
        tree_shaped(paths, n),
        at.0 < paths.len(),
    ensures
        tree_shaped(crate::graph::with_item(paths, at, item), n),
{
    let after = crate::graph::with_item(paths, at, item);
    assert forall|q: int| 0 <= q < paths.len() implies (#[trigger] after[q]).children
        == paths[q].children && after[q].kind == paths[q].kind by {}
    assert forall|q: int, k: int| is_edge(after, q, k) implies (
    #[trigger] after[q].children[k]).0 < after.len() by {
        assert(is_edge(paths, q, k));
        assert(after[q].children[k] == paths[q].children[k]);
    }
    assert forall|q: int, k: int| 0 <= q < n && is_edge(after, q, k) implies q < (
    #[trigger] after[q].children[k]).0 by {
        assert(is_edge(paths, q, k));
        assert(after[q].children[k] == paths[q].children[k]);
    }
    assert forall|q: int, k: int, q2: int, k2: int|
        0 <= q < n && 0 <= q2 < n && is_edge(after, q, k) && is_edge(after, q2, k2) && (
        #[trigger] after[q].children[k]) == (#[trigger] after[q2].children[k2]) implies q == q2
        && k == k2 by {
        assert(is_edge(paths, q, k));
        assert(is_edge(paths, q2, k2));
        assert(after[q].children[k] == paths[q].children[k]);
        assert(after[q2].children[k2] == paths[q2].children[k2]);
    }
    assert forall|p: int| 1 <= p < after.len() implies #[trigger] owned(after, n, p) by {
        assert(owned(paths, n, p));
        let (q, k) = choose|q: int, k: int|
            0 <= q < n && is_edge(paths, q, k) && (#[trigger] paths[q].children[k]).0 == p;
        assert(is_edge(after, q, k));
        assert(after[q].children[k] == paths[q].children[k]);
    }
    assert forall|p: int| n <= p < after.len() implies (#[trigger] after[p]).kind
        == PathKind::Import by {
        assert(paths[p].kind == PathKind::Import);
    }
    assert forall|q: int, k: int, later: int|
        0 <= q < n && 0 <= k < later < after[q].children.len() implies (
    #[trigger] after[q].children[k]).0 < (#[trigger] after[q].children[later]).0 by {
        assert(after[q].children[k] == paths[q].children[k]);
        assert(after[q].children[later] == paths[q].children[later]);
    }
}

proof fn lemma_path_step_orderly(
    d: DocumentView,
    s: ParserView,
    parent: Option<PathId>,
    raw_id: Seq<char>,
    crate_id: Option<CrateId>,
)
    requires
        d.paths.contains_key(d.root),
        path_resolved(d, s, parent, raw_id, crate_id) is Some,
        s.deferred_imports.len() > 0 ==> s.api.paths.len() > 0,
        if s.api.paths.len() == 0 {
            s.api.root_id is None && parent is None && raw_id == d.root && !s.path_ids.contains_key(
                d.root,
            ) && s.unprocessed.len() == 0
        } else {
            orderly(d, s) && parent is Some && parent.unwrap().0 < s.api.paths.len()
        },
    ensures
        ({
            let t = path_resolved(d, s, parent, raw_id, crate_id).unwrap().0;
            orderly(d, t) && t.api.paths.len() > 0 && t.unprocessed == s.unprocessed
                && t.deferred_imports == s.deferred_imports
        }),
{
    let t = path_resolved(d, s, parent, raw_id, crate_id).unwrap().0;
    if s.api.paths.len() == 0 {
        let made = t.api.paths[0];
        assert(t.api.paths.len() == 1);
        assert(made.children.len() == 0);
        assert(tree_shaped(t.api.paths, 1));
    } else if !s.path_ids.contains_key(raw_id) && d.paths.contains_key(raw_id) {
        let made = t.api.paths[s.api.paths.len() as int];
        lemma_child_added(s.api.paths, s.api.paths.push(made)[s.api.paths.len() as int], parent.unwrap());
        assert(s.api.paths.push(made)[s.api.paths.len() as int] == made);
    }
}

proof fn lemma_item_step_orderly(
    d: DocumentView,
    s: ParserView,
    raw_id: Seq<char>,
    path_id: Option<PathId>,
    crate_id: Option<CrateId>,
)
    requires
        item_resolved(d, s, raw_id, path_id, crate_id) is Some,
        orderly(d, s),
        s.api.paths.len() > 0,
        path_id is Some,
        path_id.unwrap().0 < s.api.paths.len(),
    ensures
        orderly(d, item_resolved(d, s, raw_id, path_id, crate_id).unwrap().0),
{
    let t = item_resolved(d, s, raw_id, path_id, crate_id).unwrap().0;
    if !s.item_ids.contains_key(raw_id) {
        match d.items[raw_id].inner {
            RawShapeView::Terminal => {
                lemma_item_set(
                    s.api.paths,
                    s.api.paths.len() as int,
                    path_id.unwrap(),
                    ItemId(s.api.items.len() as usize),
                );
            },
            _ => {},
        }
    }
}

/// A visit keeps a traversal in order, provided the root of the tree has a
/// summary.
pub proof fn lemma_visit_orderly(d: DocumentView, s: ParserView)
    requires
        d.paths.contains_key(d.root),
        orderly(d, s),
        paths_built_once(s),
        visited(d, s) is Some,
    ensures
        orderly(d, visited(d, s).unwrap()),
{
    if s.unprocessed.len() > 0 {
        let (parent, raw_id) = s.unprocessed[0];
        let taken = ParserView { unprocessed: s.unprocessed.drop_first(), ..s };
        let number = d.items[raw_id].crate_id;
        let (with_crate, crate_id) = crate_resolved(d, taken, number).unwrap();
        assert(with_crate.api.paths == s.api.paths);
        assert(with_crate.api.root_id == s.api.root_id);
        assert(with_crate.unprocessed == taken.unprocessed);
        assert(with_crate.deferred_imports == s.deferred_imports);
        assert(with_crate.path_ids == s.path_ids);
        if s.api.paths.len() > 0 {
            assert(orderly(d, with_crate)) by {
                assert forall|i: int| 0 <= i < with_crate.unprocessed.len() implies (
                #[trigger] with_crate.unprocessed[i]).0 is Some
                    && with_crate.unprocessed[i].0.unwrap().0 < with_crate.api.paths.len() by {
                    assert(with_crate.unprocessed[i] == s.unprocessed[i + 1]);
                }
            }
        } else {
            assert(taken.unprocessed =~= Seq::empty());
        }
        lemma_path_step_orderly(d, with_crate, parent, raw_id, crate_id);
        let (with_path, path_id) = path_resolved(d, with_crate, parent, raw_id, crate_id).unwrap();
        let under = if path_id is Some {
            path_id
        } else {
            parent
        };
        assert(under is Some && under.unwrap().0 < with_path.api.paths.len()) by {
            if s.api.paths.len() > 0 && s.path_ids.contains_key(raw_id) {
                assert(with_path == with_crate);
                if s.path_ids[raw_id] is Some {
                    assert(s.path_ids[raw_id].unwrap().0 < s.api.paths.len());
                }
            }
        }
        lemma_item_step_orderly(d, with_path, raw_id, under, crate_id);
    }
}

/// Visiting `n + 1` times is visiting once and then `n` times.
proof fn lemma_visit_first(d: DocumentView, s: ParserView, n: nat)
    ensures
        visited_times(d, Some(s), n + 1) == visited_times(d, visited(d, s), n),
    decreases n,
{
    assert(visited_times(d, Some(s), 0) == Some(s));
    if n > 0 {
        lemma_visit_first(d, s, (n - 1) as nat);
        assert(visited_times(d, Some(s), n) == visited_times(d, visited(d, s), (n - 1) as nat));
    } else {
        assert(visited_times(d, Some(s), 1) == visited(d, s));
    }
}

/// A traversal of a tree with finitely many items comes to an end, and what
/// holds at its start and is kept by every visit holds at its end.
pub proof fn lemma_traversal_keeps(
    d: DocumentView,
    s: ParserView,
    kept: spec_fn(ParserView) -> bool,
)
    requires
        d.items.dom().finite(),
        kept(s),
        forall|x: ParserView|
            kept(x) && (#[trigger] visited(d, x)) is Some ==> kept(visited(d, x).unwrap()),
    ensures
        settled(traversed(d, s)),
        traversed(d, s) matches Some(t) ==> kept(t),
    decreases unvisited(d, s).len(), s.unprocessed.len(),
{
    if s.unprocessed.len() == 0 {
        lemma_traversed(d, s, 0);
    } else {
        match visited(d, s) {
            None => {
                assert(visited_times(d, Some(s), 0) == Some(s));
                assert(visited_times(d, Some(s), 1) == visited(d, s));
                lemma_traversed(d, s, 1);
            },
            Some(t) => {
                lemma_visit_progress(d, s);
                lemma_traversal_keeps(d, t, kept);
                let m = choose|m: nat| settled(visited_times(d, Some(t), m));
                assert(traversed(d, t) == visited_times(d, Some(t), m));
                lemma_visit_first(d, s, m);
                lemma_traversed(d, s, m + 1);
            },
        }
    }
}

/// Whether the state `s` of a builder that is resolving its re-exports is in
/// order: the paths form a tree under the first `n`, and every re-export
/// still noted stands under one of those.
pub open spec fn grafted(s: ParserView, n: int) -> bool {
    &&& s.api.root_id == Some(PathId(0))
    &&& tree_shaped(s.api.paths, n)
    &&& forall|i: int|
        0 <= i < s.deferred_imports.len() ==> (#[trigger] s.deferred_imports[i]).0.0 < n
}

proof fn lemma_import_grafted(s: ParserView, n: int, entry: (PathId, Seq<char>, Seq<char>))
    requires
        grafted(s, n),
        entry.0.0 < n,
        import_resolved(s, entry) is Some,
    ensures
        grafted(import_resolved(s, entry).unwrap(), n),
{
    let (owner, name, target) = entry;
    let paths = s.api.paths;
    let t = import_resolved(s, entry).unwrap();
    let after = t.api.paths;
    let len = paths.len() as int;
    let id = PathId(len as usize);
    let from = s.path_ids[target].unwrap().0 as int;
    assert(after.len() == len + 1);
    assert forall|q: int| 0 <= q < len && q != owner.0 implies #[trigger] after[q] == paths[q] by {}
    assert(after[len].children == paths[from].children);
    assert(after[owner.0 as int].children =~= paths[owner.0 as int].children.push(id));
    assert forall|q: int, k: int| is_edge(after, q, k) implies (
    #[trigger] after[q].children[k]).0 < after.len() by {
        if q == len {
            assert(is_edge(paths, from, k));
            assert(after[q].children[k] == paths[from].children[k]);
        } else if q == owner.0 {
            if k < paths[q].children.len() {
                assert(is_edge(paths, q, k));
                assert(after[q].children[k] == paths[q].children[k]);
            }
        } else {
            assert(is_edge(paths, q, k));
            assert(after[q].children[k] == paths[q].children[k]);
        }
    }
    assert forall|q: int, k: int| 0 <= q < n && is_edge(after, q, k) implies q < (
    #[trigger] after[q].children[k]).0 by {
        if q == owner.0 {
            if k < paths[q].children.len() {
                assert(is_edge(paths, q, k));
                assert(after[q].children[k] == paths[q].children[k]);
            }
        } else {
            assert(is_edge(paths, q, k));
            assert(after[q].children[k] == paths[q].children[k]);
        }
    }
    assert forall|q: int, k: int, q2: int, k2: int|
        0 <= q < n && 0 <= q2 < n && is_edge(after, q, k) && is_edge(after, q2, k2) && (
        #[trigger] after[q].children[k]) == (#[trigger] after[q2].children[k2]) implies q == q2
        && k == k2 by {
        let fresh_one = q == owner.0 && k == paths[q].children.len();
        let fresh_two = q2 == owner.0 && k2 == paths[q2].children.len();
        if !fresh_one {
            assert(is_edge(paths, q, k));
            assert(after[q].children[k] == paths[q].children[k]);
            assert(paths[q].children[k].0 < len);
        }
        if !fresh_two {
            assert(is_edge(paths, q2, k2));
            assert(after[q2].children[k2] == paths[q2].children[k2]);
            assert(paths[q2].children[k2].0 < len);
        }
    }
    assert forall|p: int| 1 <= p < after.len() implies #[trigger] owned(after, n, p) by {
        if p < len {
            assert(owned(paths, n, p));
            let (q, k) = choose|q: int, k: int|
                0 <= q < n && is_edge(paths, q, k) && (#[trigger] paths[q].children[k]).0 == p;
            assert(is_edge(after, q, k));
            assert(after[q].children[k] == paths[q].children[k]);
        } else {
            let q = owner.0 as int;
            let k = paths[q].children.len() as int;
            assert(is_edge(after, q, k));
            assert(after[q].children[k].0 == p);
        }
    }
    assert forall|p: int| n <= p < after.len() implies (#[trigger] after[p]).kind
        == PathKind::Import by {
        if p < len {
            assert(paths[p].kind == PathKind::Import);
        }
    }
    assert forall|q: int, k: int, later: int|
        0 <= q < n && 0 <= k < later < after[q].children.len() implies (
    #[trigger] after[q].children[k]).0 < (#[trigger] after[q].children[later]).0 by {
        assert(is_edge(paths, q, k));
        assert(after[q].children[k] == paths[q].children[k]);
        if q == owner.0 && later == paths[q].children.len() {
            assert(paths[q].children[k].0 < len);
        } else {
            assert(after[q].children[later] == paths[q].children[later]);
        }
    }
}

/// Resolving the re-exports adds one path for each of them and nothing else:
/// it touches neither crates nor items, nor what was made for which id.
pub proof fn lemma_imports_add_paths_only(s: ParserView)
    requires
        imports_resolved(s) is Some,
    ensures
        imports_resolved(s).unwrap().api.crates == s.api.crates,
        imports_resolved(s).unwrap().api.items == s.api.items,
        imports_resolved(s).unwrap().api.root_id == s.api.root_id,
        imports_resolved(s).unwrap().crate_ids == s.crate_ids,
        imports_resolved(s).unwrap().path_ids == s.path_ids,
        imports_resolved(s).unwrap().item_ids == s.item_ids,
        imports_resolved(s).unwrap().api.paths.len() == s.api.paths.len()
            + s.deferred_imports.len(),
    decreases s.deferred_imports.len(),
{
    if s.deferred_imports.len() > 0 {
        let rest = ParserView { deferred_imports: s.deferred_imports.drop_first(), ..s };
        lemma_imports_add_paths_only(import_resolved(rest, s.deferred_imports[0]).unwrap());
    }
}

/// Resolving the re-exports keeps the paths a tree under the paths that the
/// traversal made.
pub proof fn lemma_imports_grafted(s: ParserView, n: int)
    requires
        grafted(s, n),
        imports_resolved(s) is Some,
    ensures
        grafted(imports_resolved(s).unwrap(), n),
    decreases s.deferred_imports.len(),
{
    if s.deferred_imports.len() > 0 {
        let rest = ParserView { deferred_imports: s.deferred_imports.drop_first(), ..s };
        let entry = s.deferred_imports[0];
        assert(grafted(rest, n)) by {
            assert forall|i: int| 0 <= i < rest.deferred_imports.len() implies (
            #[trigger] rest.deferred_imports[i]).0.0 < n by {
                assert(rest.deferred_imports[i] == s.deferred_imports[i + 1]);
            }
        }
        lemma_import_grafted(rest, n, entry);
        lemma_imports_grafted(import_resolved(rest, entry).unwrap(), n);
    }
}

/// The number of paths that the traversal of a tree makes, before the
/// re-exports are resolved.
pub open spec fn structural_paths(d: DocumentView) -> int {
    match traversed(d, seeded(d, fresh())) {
        Some(s) => s.api.paths.len() as int,
        None => 0,
    }
}

/// In every build, each crate number, and each id of the tree, is built at
/// most once, and nothing is built that no number or id stands for: when the
/// traversal ends, the crates, paths and items made correspond one to one to
/// the numbers and ids that have one.
pub proof fn lemma_built_once(d: DocumentView)
    requires
        d.items.dom().finite(),
    ensures
        settled(traversed(d, seeded(d, fresh()))),
        traversed(d, seeded(d, fresh())) matches Some(s) ==> built_once(s),
{
    let start = seeded(d, fresh());
    let kept = |x: ParserView| built_once(x);
    assert forall|x: ParserView| kept(x) && (#[trigger] visited(d, x)) is Some implies kept(
        visited(d, x).unwrap(),
    ) by {
        lemma_visit_once(d, x);
    }
    lemma_traversal_keeps(d, start, kept);
}

/// The paths of the catalogue built from a tree whose root has a summary form
/// a tree: the first path is the root, and every other path is a child of
/// exactly one of the paths that the traversal made, which comes before it.
/// The paths made for re-exports copy the children of their targets; those
/// copies are the one exception and are not counted as parents.
pub proof fn lemma_paths_form_tree(d: DocumentView)
    requires
        d.items.dom().finite(),
        d.paths.contains_key(d.root),
        built(d) is Some,
    ensures
        built(d).unwrap().root_id == Some(PathId(0)),
        tree_shaped(built(d).unwrap().paths, structural_paths(d)),
{
    let start = seeded(d, fresh());
    assert(start.unprocessed =~= seq![(None::<PathId>, d.root)]);
    let kept = |x: ParserView| built_once(x) && orderly(d, x);
    assert forall|x: ParserView| kept(x) && (#[trigger] visited(d, x)) is Some implies kept(
        visited(d, x).unwrap(),
    ) by {
        lemma_visit_once(d, x);
        lemma_visit_orderly(d, x);
    }
    lemma_traversal_keeps(d, start, kept);
    let seen = traversed(d, start).unwrap();
    assert(seen.api.paths.len() > 0);
    lemma_imports_grafted(seen, seen.api.paths.len() as int);
}

} // verus!
