//! The catalogue itself: paths, items and crates held in append-only arenas and
//! addressed by small integer ids, plus the package's features by name.

use vstd::prelude::*;
use crate::version::comparators_of;
use crate::version::ComparatorView;

verus! {

/// Address of a `Path` within one `Api`.
#[derive(Copy, Clone, Debug, PartialEq, Eq, Hash, Structural)]
pub struct PathId(pub usize);

/// Address of an `Item` within one `Api`.
#[derive(Copy, Clone, Debug, PartialEq, Eq, Hash, Structural)]
pub struct ItemId(pub usize);

/// Address of a `Crate` within one `Api`.
#[derive(Copy, Clone, Debug, PartialEq, Eq, Hash, Structural)]
pub struct CrateId(pub usize);

/// What kind of thing a path names.
#[derive(Copy, Clone, Debug, PartialEq, Eq, PartialOrd, Ord, Structural)]
#[non_exhaustive]
pub enum PathKind {
    Module,
    ExternCrate,
    Import,
    Struct,
    Union,
    Enum,
    Variant,
    Function,
    Typedef,
    OpaqueTy,
    Constant,
    Trait,
    TraitAlias,
    Method,
    Impl,
    Static,
    ForeignType,
    Macro,
    ProcAttribute,
    ProcDerive,
    AssocConst,
    AssocType,
    Primitive,
    Keyword,
}

/// A stretch of a source file.
#[derive(Debug, PartialEq, Eq)]
pub struct Span {
    /// The relative path to the source file for this span
    pub filename: String,
    /// Zero indexed line and column of the first character
    pub begin: (usize, usize),
    /// Zero indexed line and column of the last character
    pub end: (usize, usize),
}

/// A `Span` as the contracts see it.
pub struct SpanView {
    pub filename: Seq<char>,
    pub begin: (usize, usize),
    pub end: (usize, usize),
}

impl View for Span {
    type V = SpanView;

    open spec fn view(&self) -> SpanView {
        SpanView { filename: self.filename@, begin: self.begin, end: self.end }
    }
}

impl Clone for Span {
    fn clone(&self) -> (copy: Span)
        ensures
            copy@ == self@,
    {
        Span {
            filename: self.filename.clone(),
            begin: (self.begin.0, self.begin.1),
            end: (self.end.0, self.end.1),
        }
    }
}

/// The view of a span that may be absent.
pub open spec fn span_view(span: Option<Span>) -> Option<SpanView> {
    match span {
        Some(s) => Some(s@),
        None => None,
    }
}

/// The view of a text that may be absent.
pub open spec fn text_view(text: Option<String>) -> Option<Seq<char>> {
    match text {
        Some(s) => Some(s@),
        None => None,
    }
}

/// The views of a list of texts.
pub open spec fn texts_view(texts: Seq<String>) -> Seq<Seq<char>> {
    Seq::new(texts.len(), |i: int| texts[i]@)
}

/// A named location in the module and type hierarchy.
#[derive(Clone, Debug)]
#[non_exhaustive]
pub struct Path {
    pub crate_id: Option<CrateId>,
    pub path: String,
    pub kind: PathKind,
    pub span: Option<Span>,
    pub item_id: Option<ItemId>,
    pub children: Vec<PathId>,
}

/// A `Path` as the contracts see it.
pub struct PathView {
    pub crate_id: Option<CrateId>,
    pub path: Seq<char>,
    pub kind: PathKind,
    pub span: Option<SpanView>,
    pub item_id: Option<ItemId>,
    pub children: Seq<PathId>,
}

impl View for Path {
    type V = PathView;

    open spec fn view(&self) -> PathView {
        PathView {
            crate_id: self.crate_id,
            path: self.path@,
            kind: self.kind,
            span: span_view(self.span),
            item_id: self.item_id,
            children: self.children@,
        }
    }
}

impl Path {
    /// A path of the given kind and name that belongs to no crate, has no span,
    /// points to no item and has no children.
    pub fn new(kind: PathKind, path: &str) -> (p: Path)
        ensures
            p@ == (PathView {
                crate_id: None,
                path: path@,
                kind,
                span: None,
                item_id: None,
                children: Seq::empty(),
            }),
    {
        Path {
            crate_id: None,
            path: path.to_owned(),
            kind,
            span: None,
            item_id: None,
            children: Vec::new(),
        }
    }
}

/// The payload that one or more paths point to.
#[derive(Clone, Debug)]
#[non_exhaustive]
pub struct Item {
    pub crate_id: Option<CrateId>,
    pub name: Option<String>,
    pub span: Option<Span>,
}

/// An `Item` as the contracts see it.
pub struct ItemView {
    pub crate_id: Option<CrateId>,
    pub name: Option<Seq<char>>,
    pub span: Option<SpanView>,
}

impl View for Item {
    type V = ItemView;

    open spec fn view(&self) -> ItemView {
        ItemView {
            crate_id: self.crate_id,
            name: text_view(self.name),
            span: span_view(self.span),
        }
    }
}

impl Item {
    /// An item with no crate, no name and no span.
    pub fn new() -> (item: Item)
        ensures
            item@ == (ItemView { crate_id: None, name: None, span: None }),
    {
        Item { crate_id: None, name: None, span: None }
    }
}

/// A dependency that the public surface reaches.
#[derive(Clone, Debug)]
#[non_exhaustive]
pub struct Crate {
    pub name: String,
    pub version: Option<semver::VersionReq>,
}

/// A `Crate` as the contracts see it: its name and the comparators of its
/// version requirement, where it has one.
pub struct CrateView {
    pub name: Seq<char>,
    pub version: Option<Seq<ComparatorView>>,
}

impl View for Crate {
    type V = CrateView;

    open spec fn view(&self) -> CrateView {
        CrateView {
            name: self.name@,
            version: match self.version {
                Some(req) => Some(comparators_of(req)),
                None => None,
            },
        }
    }
}

impl Crate {
    /// A crate of the given name whose version requirement is not known.
    pub fn new(name: &str) -> (c: Crate)
        ensures
            c@ == (CrateView { name: name@, version: None }),
    {
        Crate { name: name.to_owned(), version: None }
    }
}

/// A copy of a list of texts.
pub fn clone_texts(texts: &Vec<String>) -> (copy: Vec<String>)
    ensures
        texts_view(copy@) == texts_view(texts@),
{
    let mut copy: Vec<String> = Vec::new();
    let mut i: usize = 0;
    while i < texts.len()
        invariant
            i <= texts@.len(),
            copy@.len() == i,
            forall|k: int| 0 <= k < i ==> (#[trigger] copy@[k])@ == texts@[k]@,
        decreases texts@.len() - i,
    {
        copy.push(texts[i].clone());
        i = i + 1;
    }
    assert(texts_view(copy@) =~= texts_view(texts@));
    copy
}

/// A copy of a text that may be absent.
pub fn clone_text(text: &Option<String>) -> (copy: Option<String>)
    ensures
        text_view(copy) == text_view(*text),
{
    match text {
        Some(t) => Some(t.clone()),
        None => None,
    }
}

/// A feature of the package and what it switches on.
#[derive(Debug, PartialEq, Eq)]
#[non_exhaustive]
pub struct Feature {
    pub name: String,
    pub dependencies: Vec<String>,
}

/// A `Feature` as the contracts see it.
pub struct FeatureView {
    pub name: Seq<char>,
    pub dependencies: Seq<Seq<char>>,
}

impl View for Feature {
    type V = FeatureView;

    open spec fn view(&self) -> FeatureView {
        FeatureView { name: self.name@, dependencies: texts_view(self.dependencies@) }
    }
}

impl Clone for Feature {
    fn clone(&self) -> (copy: Feature)
        ensures
            copy@ == self@,
    {
        Feature { name: self.name.clone(), dependencies: clone_texts(&self.dependencies) }
    }
}

impl Feature {
    /// A feature of the given name that switches nothing on.
    pub fn new(name: &str) -> (f: Feature)
        ensures
            f@ == (FeatureView { name: name@, dependencies: Seq::empty() }),
    {
        let f = Feature { name: name.to_owned(), dependencies: Vec::new() };
        assert(texts_view(f.dependencies@) =~= Seq::<Seq<char>>::empty());
        f
    }
}

/// A dependency that is switched on by name, like a feature.
#[derive(Debug, PartialEq, Eq)]
#[non_exhaustive]
pub struct OptionalDependency {
    /// The name used to activate this dependency
    pub name: String,
    /// If renamed, the actual dependency name
    pub package: Option<String>,
}

/// An `OptionalDependency` as the contracts see it.
pub struct OptionalDependencyView {
    pub name: Seq<char>,
    pub package: Option<Seq<char>>,
}

impl View for OptionalDependency {
    type V = OptionalDependencyView;

    open spec fn view(&self) -> OptionalDependencyView {
        OptionalDependencyView { name: self.name@, package: text_view(self.package) }
    }
}

impl Clone for OptionalDependency {
    fn clone(&self) -> (copy: OptionalDependency)
        ensures
            copy@ == self@,
    {
        OptionalDependency { name: self.name.clone(), package: clone_text(&self.package) }
    }
}

impl OptionalDependency {
    /// An optional dependency that is activated by its own package name.
    pub fn new(name: &str) -> (d: OptionalDependency)
        ensures
            d@ == (OptionalDependencyView { name: name@, package: None }),
    {
        OptionalDependency { name: name.to_owned(), package: None }
    }
}

/// Either of the two things that a feature name can stand for.
#[derive(Debug, PartialEq, Eq)]
pub enum AnyFeature {
    Feature(Feature),
    OptionalDependency(OptionalDependency),
}

/// An `AnyFeature` as the contracts see it.
pub enum AnyFeatureView {
    Feature(FeatureView),
    OptionalDependency(OptionalDependencyView),
}

impl View for AnyFeature {
    type V = AnyFeatureView;

    open spec fn view(&self) -> AnyFeatureView {
        match *self {
            AnyFeature::Feature(f) => AnyFeatureView::Feature(f@),
            AnyFeature::OptionalDependency(d) => AnyFeatureView::OptionalDependency(d@),
        }
    }
}


/// The paths of one catalogue, in the order in which they were added. The id of
/// a path is its position.
#[derive(Clone, Debug)]
pub struct Paths {
    paths: Vec<Path>,
}

impl View for Paths {
    type V = Seq<PathView>;

    closed spec fn view(&self) -> Seq<PathView> {
        path_views(self.paths@)
    }
}

/// The views of a list of paths.
pub open spec fn path_views(list: Seq<Path>) -> Seq<PathView> {
    Seq::new(list.len(), |i: int| list[i]@)
}

impl Paths {
    /// An arena that holds nothing.
    pub fn new() -> (arena: Paths)
        ensures
            arena@ == Seq::<PathView>::empty(),
    {
        let arena = Paths { paths: Vec::new() };
        assert(arena@ =~= Seq::<PathView>::empty());
        arena
    }

    /// Adds `path_` at the end and returns its id, which is the number of
    /// paths held before.
    pub fn push(&mut self, path_: Path) -> (id: PathId)
        ensures
            id.0 == old(self)@.len(),
            final(self)@ == old(self)@.push(path_@),
    {
        let id = PathId(self.paths.len());
        self.paths.push(path_);
        assert(self@ =~= old(self)@.push(path_@));
        id
    }

    /// The path with the given id, if this arena holds one.
    pub fn get(&self, id: PathId) -> (found: Option<&Path>)
        ensures
            found.is_some() == (id.0 < self@.len()),
            found matches Some(r) ==> r@ == self@[id.0 as int],
    {
        if id.0 < self.paths.len() {
            Some(&self.paths[id.0])
        } else {
            None
        }
    }

    /// The path with the given id, for changing in place. Whatever the caller
    /// leaves behind the reference takes that path's place; the others stay.
    pub fn get_mut(&mut self, id: PathId) -> (found: Option<&mut Path>)
        ensures
            found.is_some() == (id.0 < old(self)@.len()),
            found matches Some(r) ==> (*r)@ == old(self)@[id.0 as int] && final(self)@ == old(
                self,
            )@.update(id.0 as int, (*final(r))@),
            found is None ==> final(self)@ == old(self)@,
    {
        if id.0 < self.paths.len() {
            let ghost before = self.paths@;
            assert forall|changed: Path|
                path_views(#[trigger] before.update(id.0 as int, changed))
                    == path_views(before).update(id.0 as int, changed@) by {
                assert(path_views(before.update(id.0 as int, changed))
                    =~= path_views(before).update(id.0 as int, changed@));
            }
            Some(&mut self.paths[id.0])
        } else {
            None
        }
    }

    /// Every path with its id, in id order.
    pub fn iter(&self) -> (all: Vec<(PathId, &Path)>)
        ensures
            all@.len() == self@.len(),
            forall|i: int|
                0 <= i < all@.len() ==> (#[trigger] all@[i]).0.0 == i && all@[i].1@ == self@[i],
    {
        let mut all: Vec<(PathId, &Path)> = Vec::new();
        let mut i: usize = 0;
        while i < self.paths.len()
            invariant
                i <= self.paths@.len(),
                all@.len() == i,
                forall|k: int|
                    0 <= k < i ==> (#[trigger] all@[k]).0.0 == k && all@[k].1@ == self@[k],
            decreases self.paths@.len() - i,
        {
            all.push((PathId(i), &self.paths[i]));
            i = i + 1;
        }
        all
    }

    /// The number of paths held.
    pub fn len(&self) -> (n: usize)
        ensures
            n == self@.len(),
    {
        self.paths.len()
    }

    /// Whether nothing is held.
    pub fn is_empty(&self) -> (empty: bool)
        ensures
            empty == (self@.len() == 0),
    {
        self.paths.len() == 0
    }
}

/// The items of one catalogue, in the order in which they were added. The id of
/// a item is its position.
#[derive(Clone, Debug)]
pub struct Items {
    items: Vec<Item>,
}

impl View for Items {
    type V = Seq<ItemView>;

    closed spec fn view(&self) -> Seq<ItemView> {
        item_views(self.items@)
    }
}

/// The views of a list of items.
pub open spec fn item_views(list: Seq<Item>) -> Seq<ItemView> {
    Seq::new(list.len(), |i: int| list[i]@)
}

impl Items {
    /// An arena that holds nothing.
    pub fn new() -> (arena: Items)
        ensures
            arena@ == Seq::<ItemView>::empty(),
    {
        let arena = Items { items: Vec::new() };
        assert(arena@ =~= Seq::<ItemView>::empty());
        arena
    }

    /// Adds `item_` at the end and returns its id, which is the number of
    /// items held before.
    pub fn push(&mut self, item_: Item) -> (id: ItemId)
        ensures
            id.0 == old(self)@.len(),
            final(self)@ == old(self)@.push(item_@),
    {
        let id = ItemId(self.items.len());
        self.items.push(item_);
        assert(self@ =~= old(self)@.push(item_@));
        id
    }

    /// The item with the given id, if this arena holds one.
    pub fn get(&self, id: ItemId) -> (found: Option<&Item>)
        ensures
            found.is_some() == (id.0 < self@.len()),
            found matches Some(r) ==> r@ == self@[id.0 as int],
    {
        if id.0 < self.items.len() {
            Some(&self.items[id.0])
        } else {
            None
        }
    }

    /// The item with the given id, for changing in place. Whatever the caller
    /// leaves behind the reference takes that item's place; the others stay.
    pub fn get_mut(&mut self, id: ItemId) -> (found: Option<&mut Item>)
        ensures
            found.is_some() == (id.0 < old(self)@.len()),
            found matches Some(r) ==> (*r)@ == old(self)@[id.0 as int] && final(self)@ == old(
                self,
            )@.update(id.0 as int, (*final(r))@),
            found is None ==> final(self)@ == old(self)@,
    {
        if id.0 < self.items.len() {
            let ghost before = self.items@;
            assert forall|changed: Item|
                item_views(#[trigger] before.update(id.0 as int, changed))
                    == item_views(before).update(id.0 as int, changed@) by {
                assert(item_views(before.update(id.0 as int, changed))
                    =~= item_views(before).update(id.0 as int, changed@));
            }
            Some(&mut self.items[id.0])
        } else {
            None
        }
    }

    /// Every item with its id, in id order.
    pub fn iter(&self) -> (all: Vec<(ItemId, &Item)>)
        ensures
            all@.len() == self@.len(),
            forall|i: int|
                0 <= i < all@.len() ==> (#[trigger] all@[i]).0.0 == i && all@[i].1@ == self@[i],
    {
        let mut all: Vec<(ItemId, &Item)> = Vec::new();
        let mut i: usize = 0;
        while i < self.items.len()
            invariant
                i <= self.items@.len(),
                all@.len() == i,
                forall|k: int|
                    0 <= k < i ==> (#[trigger] all@[k]).0.0 == k && all@[k].1@ == self@[k],
            decreases self.items@.len() - i,
        {
            all.push((ItemId(i), &self.items[i]));
            i = i + 1;
        }
        all
    }

    /// The number of items held.
    pub fn len(&self) -> (n: usize)
        ensures
            n == self@.len(),
    {
        self.items.len()
    }

    /// Whether nothing is held.
    pub fn is_empty(&self) -> (empty: bool)
        ensures
            empty == (self@.len() == 0),
    {
        self.items.len() == 0
    }
}

/// The crates of one catalogue, in the order in which they were added. The id of
/// a crate is its position.
#[derive(Clone, Debug)]
pub struct Crates {
    crates: Vec<Crate>,
}

impl View for Crates {
    type V = Seq<CrateView>;

    closed spec fn view(&self) -> Seq<CrateView> {
        crate_views(self.crates@)
    }
}

/// The views of a list of crates.
pub open spec fn crate_views(list: Seq<Crate>) -> Seq<CrateView> {
    Seq::new(list.len(), |i: int| list[i]@)
}

impl Crates {
    /// An arena that holds nothing.
    pub fn new() -> (arena: Crates)
        ensures
            arena@ == Seq::<CrateView>::empty(),
    {
        let arena = Crates { crates: Vec::new() };
        assert(arena@ =~= Seq::<CrateView>::empty());
        arena
    }

    /// Adds `crate_` at the end and returns its id, which is the number of
    /// crates held before.
    pub fn push(&mut self, crate_: Crate) -> (id: CrateId)
        ensures
            id.0 == old(self)@.len(),
            final(self)@ == old(self)@.push(crate_@),
    {
        let id = CrateId(self.crates.len());
        self.crates.push(crate_);
        assert(self@ =~= old(self)@.push(crate_@));
        id
    }

    /// The crate with the given id, if this arena holds one.
    pub fn get(&self, id: CrateId) -> (found: Option<&Crate>)
        ensures
            found.is_some() == (id.0 < self@.len()),
            found matches Some(r) ==> r@ == self@[id.0 as int],
    {
        if id.0 < self.crates.len() {
            Some(&self.crates[id.0])
        } else {
            None
        }
    }

    /// The crate with the given id, for changing in place. Whatever the caller
    /// leaves behind the reference takes that crate's place; the others stay.
    pub fn get_mut(&mut self, id: CrateId) -> (found: Option<&mut Crate>)
        ensures
            found.is_some() == (id.0 < old(self)@.len()),
            found matches Some(r) ==> (*r)@ == old(self)@[id.0 as int] && final(self)@ == old(
                self,
            )@.update(id.0 as int, (*final(r))@),
            found is None ==> final(self)@ == old(self)@,
    {
        if id.0 < self.crates.len() {
            let ghost before = self.crates@;
            assert forall|changed: Crate|
                crate_views(#[trigger] before.update(id.0 as int, changed))
                    == crate_views(before).update(id.0 as int, changed@) by {
                assert(crate_views(before.update(id.0 as int, changed))
                    =~= crate_views(before).update(id.0 as int, changed@));
            }
            Some(&mut self.crates[id.0])
        } else {
            None
        }
    }

    /// Every crate with its id, in id order.
    pub fn iter(&self) -> (all: Vec<(CrateId, &Crate)>)
        ensures
            all@.len() == self@.len(),
            forall|i: int|
                0 <= i < all@.len() ==> (#[trigger] all@[i]).0.0 == i && all@[i].1@ == self@[i],
    {
        let mut all: Vec<(CrateId, &Crate)> = Vec::new();
        let mut i: usize = 0;
        while i < self.crates.len()
            invariant
                i <= self.crates@.len(),
                all@.len() == i,
                forall|k: int|
                    0 <= k < i ==> (#[trigger] all@[k]).0.0 == k && all@[k].1@ == self@[k],
            decreases self.crates@.len() - i,
        {
            all.push((CrateId(i), &self.crates[i]));
            i = i + 1;
        }
        all
    }

    /// The number of crates held.
    pub fn len(&self) -> (n: usize)
        ensures
            n == self@.len(),
    {
        self.crates.len()
    }

    /// Whether nothing is held.
    pub fn is_empty(&self) -> (empty: bool)
        ensures
            empty == (self@.len() == 0),
    {
        self.crates.len() == 0
    }
}


impl Clone for AnyFeature {
    fn clone(&self) -> (copy: AnyFeature)
        ensures
            copy@ == self@,
    {
        match self {
            AnyFeature::Feature(f) => AnyFeature::Feature(f.clone()),
            AnyFeature::OptionalDependency(d) => AnyFeature::OptionalDependency(d.clone()),
        }
    }
}

/// The features of a package by name. No name occurs twice; an entry keeps the
/// place at which its name first came in.
#[derive(Debug)]
pub struct Features {
    entries: Vec<(String, AnyFeature)>,
}

/// The entries of a feature list as the contracts see them.
pub open spec fn entry_views(list: Seq<(String, AnyFeature)>) -> Seq<(Seq<char>, AnyFeatureView)> {
    Seq::new(list.len(), |i: int| (list[i].0@, list[i].1@))
}

/// Whether no name occurs twice in `entries`.
pub open spec fn distinct_names(entries: Seq<(Seq<char>, AnyFeatureView)>) -> bool {
    forall|i: int, j: int|
        0 <= i < entries.len() && 0 <= j < entries.len() && i != j ==> (#[trigger] entries[i]).0
            != (#[trigger] entries[j]).0
}

/// The map that a list of entries stands for.
pub open spec fn entries_map(entries: Seq<(Seq<char>, AnyFeatureView)>) -> Map<
    Seq<char>,
    AnyFeatureView,
> {
    Map::new(
        |name: Seq<char>| exists|i: int| 0 <= i < entries.len() && (#[trigger] entries[i]).0 == name,
        |name: Seq<char>|
            entries[choose|i: int| 0 <= i < entries.len() && (#[trigger] entries[i]).0 == name].1,
    )
}

impl View for Features {
    type V = Map<Seq<char>, AnyFeatureView>;

    closed spec fn view(&self) -> Map<Seq<char>, AnyFeatureView> {
        entries_map(self.entries())
    }
}

impl Clone for Features {
    fn clone(&self) -> (copy: Features)
        ensures
            copy@ == self@,
            copy.entries() == self.entries(),
    {
        proof {
            use_type_invariant(self);
        }
        let mut entries: Vec<(String, AnyFeature)> = Vec::new();
        let mut i: usize = 0;
        while i < self.entries.len()
            invariant
                i <= self.entries@.len(),
                entries@.len() == i,
                forall|k: int|
                    0 <= k < i ==> (#[trigger] entries@[k]).0@ == self.entries@[k].0@
                        && entries@[k].1@ == self.entries@[k].1@,
            decreases self.entries@.len() - i,
        {
            entries.push((self.entries[i].0.clone(), self.entries[i].1.clone()));
            i = i + 1;
        }
        assert(entry_views(entries@) =~= entry_views(self.entries@));
        Features { entries }
    }
}

impl Features {
    #[verifier::type_invariant]
    spec fn names_are_distinct(&self) -> bool {
        distinct_names(entry_views(self.entries@))
    }

    /// The entries in the order in which their names first came in.
    pub closed spec fn entries(&self) -> Seq<(Seq<char>, AnyFeatureView)> {
        entry_views(self.entries@)
    }

    /// The entries name each name once, and the map holds exactly them.
    pub proof fn lemma_entries(&self)
        requires
            distinct_names(self.entries()),
        ensures
            forall|i: int|
                0 <= i < self.entries().len() ==> self@.contains_key(
                    (#[trigger] self.entries()[i]).0,
                ) && self@[self.entries()[i].0] == self.entries()[i].1,
            forall|name: Seq<char>|
                self@.contains_key(name) ==> exists|i: int|
                    0 <= i < self.entries().len() && (#[trigger] self.entries()[i]).0 == name,
    {
        let entries = self.entries();
        assert forall|i: int| 0 <= i < entries.len() implies self@.contains_key(
            (#[trigger] entries[i]).0,
        ) && self@[entries[i].0] == entries[i].1 by {
            let name = entries[i].0;
            let j = choose|j: int| 0 <= j < entries.len() && (#[trigger] entries[j]).0 == name;
            assert(j == i);
        }
    }

    /// A feature list that holds nothing.
    pub fn new() -> (features: Features)
        ensures
            features@ == Map::<Seq<char>, AnyFeatureView>::empty(),
            features.entries() == Seq::<(Seq<char>, AnyFeatureView)>::empty(),
    {
        let features = Features { entries: Vec::new() };
        assert(features.entries() =~= Seq::<(Seq<char>, AnyFeatureView)>::empty());
        assert(features@ =~= Map::<Seq<char>, AnyFeatureView>::empty());
        features
    }

    /// The number of names held.
    pub fn len(&self) -> (n: usize)
        ensures
            n == self.entries().len(),
            distinct_names(self.entries()),
    {
        proof {
            use_type_invariant(self);
        }
        self.entries.len()
    }

    /// Whether no name is held.
    pub fn is_empty(&self) -> (empty: bool)
        ensures
            empty == (self.entries().len() == 0),
            empty == (self@ == Map::<Seq<char>, AnyFeatureView>::empty()),
    {
        proof {
            use_type_invariant(self);
            self.lemma_entries();
            if self.entries().len() == 0 {
                assert(self@ =~= Map::<Seq<char>, AnyFeatureView>::empty());
            } else {
                assert(self@.contains_key(self.entries()[0].0));
            }
        }
        self.entries.len() == 0
    }

    /// The name and the feature at position `i`.
    pub fn entry(&self, i: usize) -> (found: Option<(&String, &AnyFeature)>)
        ensures
            found.is_some() == (i < self.entries().len()),
            found matches Some(e) ==> (e.0@, e.1@) == self.entries()[i as int]
                && self@.contains_key(e.0@) && self@[e.0@] == e.1@,
    {
        proof {
            use_type_invariant(self);
            self.lemma_entries();
        }
        if i < self.entries.len() {
            let e = &self.entries[i];
            Some((&e.0, &e.1))
        } else {
            None
        }
    }

    /// The position at which `name` is held, if it is held.
    fn position(&self, name: &String) -> (found: Option<usize>)
        ensures
            found matches Some(i) ==> i < self.entries().len() && self.entries()[i as int].0
                == name@,
            found is None ==> forall|i: int|
                0 <= i < self.entries().len() ==> (#[trigger] self.entries()[i]).0 != name@,
    {
        let mut i: usize = 0;
        while i < self.entries.len()
            invariant
                i <= self.entries@.len(),
                forall|k: int| 0 <= k < i ==> (#[trigger] self.entries()[k]).0 != name@,
            decreases self.entries@.len() - i,
        {
            if self.entries[i].0 == *name {
                return Some(i);
            }
            i = i + 1;
        }
        None
    }

    /// The feature that `name` stands for, if it stands for one.
    pub fn get(&self, name: &str) -> (found: Option<&AnyFeature>)
        ensures
            found.is_some() == self@.contains_key(name@),
            found matches Some(f) ==> f@ == self@[name@],
    {
        proof {
            use_type_invariant(self);
            self.lemma_entries();
        }
        let name = name.to_owned();
        match self.position(&name) {
            Some(i) => Some(&self.entries[i].1),
            None => None,
        }
    }

    /// Lets `name` stand for `feature`, whatever it stood for before. A name
    /// that is new comes last; one that was held keeps its place.
    pub fn insert(&mut self, name: String, feature: AnyFeature)
        ensures
            final(self)@ == old(self)@.insert(name@, feature@),
            !old(self)@.contains_key(name@) ==> final(self).entries() == old(self).entries().push(
                (name@, feature@),
            ),
            old(self)@.contains_key(name@) ==> exists|i: int|
                0 <= i < old(self).entries().len() && (#[trigger] old(self).entries()[i]).0
                    == name@ && final(self).entries() == old(self).entries().update(
                    i,
                    (name@, feature@),
                ),
    {
        proof {
            use_type_invariant(&*self);
            self.lemma_entries();
        }
        let ghost before = self.entries();
        match self.position(&name) {
            Some(i) => {
                let mut entries: Vec<(String, AnyFeature)> = Vec::new();
                assert(entry_views(entries@) =~= Seq::empty());
                core::mem::swap(&mut self.entries, &mut entries);
                entries[i] = (name, feature);
                assert(entry_views(entries@) =~= before.update(i as int, (name@, feature@)));
                core::mem::swap(&mut self.entries, &mut entries);
                proof {
                    let after = self.entries();
                    assert(after =~= before.update(i as int, (name@, feature@)));
                    assert(distinct_names(after));
                    self.lemma_entries();
                    assert(self@ =~= old(self)@.insert(name@, feature@)) by {
                        assert forall|key: Seq<char>| old(self)@.insert(name@, feature@).contains_key(key)
                            implies #[trigger] self@.contains_key(key) by {
                            if key != name@ {
                                let k = choose|k: int| 0 <= k < before.len() && (#[trigger] before[k]).0 == key;
                                assert(after[k].0 == key);
                            } else {
                                assert(after[i as int].0 == key);
                            }
                        }
                        assert forall|key: Seq<char>| self@.contains_key(key)
                            implies #[trigger] old(self)@.insert(name@, feature@).contains_key(key)
                            && old(self)@.insert(name@, feature@)[key] == self@[key] by {
                            let k = choose|k: int| 0 <= k < after.len() && (#[trigger] after[k]).0 == key;
                            if k != i {
                                assert(before[k].0 == key);
                            }
                        }
                    }
                }
            },
            None => {
                let mut entries: Vec<(String, AnyFeature)> = Vec::new();
                assert(entry_views(entries@) =~= Seq::empty());
                core::mem::swap(&mut self.entries, &mut entries);
                entries.push((name, feature));
                assert(entry_views(entries@) =~= before.push((name@, feature@)));
                core::mem::swap(&mut self.entries, &mut entries);
                proof {
                    let after = self.entries();
                    assert(after =~= before.push((name@, feature@)));
                    assert(distinct_names(after));
                    self.lemma_entries();
                    assert(self@ =~= old(self)@.insert(name@, feature@)) by {
                        assert forall|key: Seq<char>| old(self)@.insert(name@, feature@).contains_key(key)
                            implies #[trigger] self@.contains_key(key) by {
                            if key != name@ {
                                let k = choose|k: int| 0 <= k < before.len() && (#[trigger] before[k]).0 == key;
                                assert(after[k].0 == key);
                            } else {
                                assert(after[before.len() as int].0 == key);
                            }
                        }
                        assert forall|key: Seq<char>| self@.contains_key(key)
                            implies #[trigger] old(self)@.insert(name@, feature@).contains_key(key)
                            && old(self)@.insert(name@, feature@)[key] == self@[key] by {
                            let k = choose|k: int| 0 <= k < after.len() && (#[trigger] after[k]).0 == key;
                            if k != before.len() {
                                assert(before[k].0 == key);
                            }
                        }
                    }
                }
            },
        }
    }
}

/// The public surface of one package: its paths, the items and crates they
/// refer to, and its features.
#[derive(Clone, Debug)]
#[non_exhaustive]
pub struct Api {
    pub root_id: Option<PathId>,
    pub paths: Paths,
    pub items: Items,
    pub crates: Crates,
    pub features: Features,
}

/// An `Api` as the contracts see it.
pub struct ApiView {
    pub root_id: Option<PathId>,
    pub paths: Seq<PathView>,
    pub items: Seq<ItemView>,
    pub crates: Seq<CrateView>,
    pub features: Map<Seq<char>, AnyFeatureView>,
}

impl View for Api {
    type V = ApiView;

    open spec fn view(&self) -> ApiView {
        ApiView {
            root_id: self.root_id,
            paths: self.paths@,
            items: self.items@,
            crates: self.crates@,
            features: self.features@,
        }
    }
}

/// The catalogue that holds nothing.
pub open spec fn empty_api() -> ApiView {
    ApiView {
        root_id: None,
        paths: Seq::empty(),
        items: Seq::empty(),
        crates: Seq::empty(),
        features: Map::empty(),
    }
}

impl Api {
    /// A catalogue that holds nothing.
    pub fn new() -> (api: Api)
        ensures
            api@ == empty_api(),
    {
        Api {
            root_id: None,
            paths: Paths::new(),
            items: Items::new(),
            crates: Crates::new(),
            features: Features::new(),
        }
    }
}

impl Default for Api {
    fn default() -> (api: Api)
        ensures
            api@ == empty_api(),
    {
        Api::new()
    }
}

} // verus!
