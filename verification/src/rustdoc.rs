//! The builder: from a documentation tree to a catalogue.

use vstd::prelude::*;
use vstd::hash_map::StringHashMap;
use vstd::std_specs::hash::group_hash_axioms;
use vstd::string::StringExecFns;
use std::collections::HashMap;
use std::collections::VecDeque;
use rustdoc_types::Crate as Document;
use crate::api::clone_text;
use crate::api::text_view;
use crate::api::texts_view;
use crate::api::Api;
use crate::api::Crate;
use crate::api::CrateId;
use crate::api::Item;
use crate::api::ItemId;
use crate::api::Path;
use crate::api::PathId;
use crate::api::PathKind;
use crate::error::Error;
use crate::error::ErrorKind;
use crate::graph::crate_resolved;
use crate::graph::fresh;
use crate::graph::built;
use crate::graph::built_from;
use crate::graph::import_resolved;
use crate::graph::imports_resolved;
use crate::graph::item_resolved;
use crate::graph::lemma_traversed;
use crate::graph::lemma_visit_progress;
use crate::graph::traversed;
use crate::graph::unvisited;
use crate::graph::visited_times;
use crate::graph::path_kind_named;
use crate::graph::queued;
use crate::graph::visited;
use crate::graph::path_resolved;
use crate::graph::ParserView;
use crate::raw::crate_name_of;
use crate::raw::decode;
use crate::raw::decoded;
use crate::raw::document_root;
use crate::raw::document_view;
use crate::raw::item_count;
use crate::raw::root_of;
use crate::raw::item_head;
use crate::raw::item_shape;
use crate::raw::RawShape;
use crate::raw::summary_of;
use crate::text::join;
use crate::toml::decode_manifest;
use crate::toml::manifest_decoded;
use crate::toml::manifest_entry;
use crate::toml::manifest_text;
use crate::text::same_text;

verus! {

/// How the documentation tree of a package is to be produced.
#[derive(Clone, Debug, PartialEq, Eq)]
pub struct RustDocBuilder {
    deps: bool,
    target_directory: Option<String>,
}

impl RustDocBuilder {
    /// Whether dependencies are documented too.
    pub closed spec fn includes_deps(&self) -> bool {
        self.deps
    }

    /// The directory to build in, where one was chosen.
    pub closed spec fn target(&self) -> Option<Seq<char>> {
        text_view(self.target_directory)
    }

    /// A builder that leaves dependencies out and builds where the package's
    /// metadata says.
    pub fn new() -> (builder: RustDocBuilder)
        ensures
            !builder.includes_deps(),
            builder.target() is None,
    {
        RustDocBuilder { deps: false, target_directory: None }
    }

    /// Include dependencies
    ///
    /// Reasons to have this disabled:
    /// - Faster API extraction
    /// - Less likely to hit bugs in rustdoc
    ///
    /// Reasons to have this enabled:
    /// - Check for accidental inclusion of dependencies in your API
    /// - Detect breaking changes from dependencies in your API
    pub fn deps(self, yes: bool) -> (builder: RustDocBuilder)
        ensures
            builder.includes_deps() == yes,
            builder.target() == self.target(),
    {
        RustDocBuilder { deps: yes, target_directory: self.target_directory }
    }

    /// Build in the directory `path`.
    pub fn target_directory(self, path: &str) -> (builder: RustDocBuilder)
        ensures
            builder.includes_deps() == self.includes_deps(),
            builder.target() == Some(path@),
    {
        RustDocBuilder { deps: self.deps, target_directory: Some(path.to_owned()) }
    }

    /// Whether dependencies are documented too.
    pub fn with_deps(&self) -> (yes: bool)
        ensures
            yes == self.includes_deps(),
    {
        self.deps
    }

    /// The directory to build in, where one was chosen.
    pub fn chosen_target_directory(&self) -> (path: Option<String>)
        ensures
            text_view(path) == self.target(),
    {
        clone_text(&self.target_directory)
    }

    /// The arguments with which the documentation generator is run on the
    /// manifest at `manifest_path`, building in `target_dir`.
    pub fn doc_arguments(&self, manifest_path: &str, target_dir: &str) -> (arguments: Vec<String>)
        ensures
            texts_view(arguments@) == doc_command(manifest_path@, target_dir@, self.includes_deps()),
    {
        let mut arguments: Vec<String> = Vec::new();
        arguments.push("+nightly".to_owned());
        arguments.push("doc".to_owned());
        arguments.push("--all-features".to_owned());
        arguments.push("--manifest-path".to_owned());
        arguments.push(manifest_path.to_owned());
        arguments.push("--target-dir".to_owned());
        arguments.push(target_dir.to_owned());
        if !self.deps {
            arguments.push("--no-deps".to_owned());
        }
        assert(texts_view(arguments@) =~= doc_command(
            manifest_path@,
            target_dir@,
            self.includes_deps(),
        ));
        arguments
    }

    /// The name of the package whose manifest is the text `manifest`, found at
    /// `manifest_path`. Fails where the text is no TOML, and says why; fails
    /// where the manifest names no package.
    pub fn crate_name(manifest: &str, manifest_path: &str) -> (name: Result<String, Error>)
        ensures
            match manifest_decoded(manifest@) {
                Ok(document) => match manifest_entry(document, "package"@, "name"@) {
                    Some(found) => name matches Ok(text) && text@ == found,
                    None => name matches Err(e) && e.kind() == ErrorKind::ApiParse && e.context()
                        == unparsed(manifest_path@, "invalid package.name"@),
                },
                Err(why) => name matches Err(e) && e.kind() == ErrorKind::ApiParse && e.context()
                    == unparsed(manifest_path@, why),
            },
    {
        let why = match decode_manifest(manifest) {
            Ok(document) => match manifest_text(&document, "package", "name") {
                Some(name) => {
                    return Ok(name);
                },
                None => "invalid package.name".to_owned(),
            },
            Err(why) => why,
        };
        let mut words = "Failed to parse ".to_owned();
        words.append(manifest_path);
        words.append(": ");
        words.append(why.as_str());
        Err(Error::new(ErrorKind::ApiParse, words.as_str()))
    }

    /// Where, below the directory built in, the tree of the crate `crate_name`
    /// is written.
    pub fn doc_file(crate_name: &str) -> (path: String)
        ensures
            path@ == "doc/"@ + crate_name@ + ".json"@,
    {
        let mut path = "doc/".to_owned();
        path.append(crate_name);
        path.append(".json");
        path
    }
}

impl Default for RustDocBuilder {
    fn default() -> (builder: RustDocBuilder)
        ensures
            !builder.includes_deps(),
            builder.target() is None,
    {
        RustDocBuilder::new()
    }
}

/// The words for a manifest that could not be made sense of.
pub open spec fn unparsed(manifest_path: Seq<char>, why: Seq<char>) -> Seq<char> {
    "Failed to parse "@ + manifest_path + ": "@ + why
}

/// The arguments of the documentation run: the toolchain, the command, every
/// feature, the manifest, the directory to build in, and, unless dependencies
/// are wanted, the request to leave them out.
pub open spec fn doc_command(manifest_path: Seq<char>, target_dir: Seq<char>, deps: bool) -> Seq<
    Seq<char>,
> {
    let always = seq![
        "+nightly"@,
        "doc"@,
        "--all-features"@,
        "--manifest-path"@,
        manifest_path,
        "--target-dir"@,
        target_dir,
    ];
    if deps {
        always
    } else {
        always.push("--no-deps"@)
    }
}

/// The queue of a builder as the contracts see it.
pub open spec fn queue_view(queue: Seq<(Option<PathId>, String)>) -> Seq<
    (Option<PathId>, Seq<char>),
> {
    Seq::new(queue.len(), |i: int| (queue[i].0, queue[i].1@))
}

/// The noted re-exports of a builder as the contracts see them.
pub open spec fn noted_view(noted: Seq<(PathId, String, String)>) -> Seq<
    (PathId, Seq<char>, Seq<char>),
> {
    Seq::new(noted.len(), |i: int| (noted[i].0, noted[i].1@, noted[i].2@))
}

/// The working state of one build.
pub struct RustDocParser {
    pub unprocessed: VecDeque<(Option<PathId>, String)>,
    pub deferred_imports: Vec<(PathId, String, String)>,
    pub api: Api,
    pub crate_ids: HashMap<u32, Option<CrateId>>,
    pub path_ids: StringHashMap<Option<PathId>>,
    pub item_ids: StringHashMap<Option<ItemId>>,
}

impl View for RustDocParser {
    type V = ParserView;

    open spec fn view(&self) -> ParserView {
        ParserView {
            unprocessed: queue_view(self.unprocessed@),
            deferred_imports: noted_view(self.deferred_imports@),
            api: self.api@,
            crate_ids: self.crate_ids@,
            path_ids: self.path_ids@,
            item_ids: self.item_ids@,
        }
    }
}

/// The kind of path that a summary's kind name stands for.
pub fn _convert_path_kind(kind: &str) -> (found: Option<PathKind>)
    ensures
        found == path_kind_named(kind@),
{
    if same_text(kind, "Module") {
        Some(PathKind::Module)
    } else if same_text(kind, "ExternCrate") {
        Some(PathKind::ExternCrate)
    } else if same_text(kind, "Import") {
        Some(PathKind::Import)
    } else if same_text(kind, "Struct") {
        Some(PathKind::Struct)
    } else if same_text(kind, "Union") {
        Some(PathKind::Union)
    } else if same_text(kind, "Enum") {
        Some(PathKind::Enum)
    } else if same_text(kind, "Variant") {
        Some(PathKind::Variant)
    } else if same_text(kind, "Function") {
        Some(PathKind::Function)
    } else if same_text(kind, "Typedef") {
        Some(PathKind::Typedef)
    } else if same_text(kind, "OpaqueTy") {
        Some(PathKind::OpaqueTy)
    } else if same_text(kind, "Constant") {
        Some(PathKind::Constant)
    } else if same_text(kind, "Trait") {
        Some(PathKind::Trait)
    } else if same_text(kind, "TraitAlias") {
        Some(PathKind::TraitAlias)
    } else if same_text(kind, "Method") {
        Some(PathKind::Method)
    } else if same_text(kind, "Impl") {
        Some(PathKind::Impl)
    } else if same_text(kind, "Static") {
        Some(PathKind::Static)
    } else if same_text(kind, "ForeignType") {
        Some(PathKind::ForeignType)
    } else if same_text(kind, "Macro") {
        Some(PathKind::Macro)
    } else if same_text(kind, "ProcAttribute") {
        Some(PathKind::ProcAttribute)
    } else if same_text(kind, "ProcDerive") {
        Some(PathKind::ProcDerive)
    } else if same_text(kind, "AssocConst") {
        Some(PathKind::AssocConst)
    } else if same_text(kind, "AssocType") {
        Some(PathKind::AssocType)
    } else if same_text(kind, "Primitive") {
        Some(PathKind::Primitive)
    } else if same_text(kind, "Keyword") {
        Some(PathKind::Keyword)
    } else {
        None
    }
}

/// The error for a tree that is structurally incomplete.
fn malformed(what: &str) -> (e: Error)
    ensures
        e.kind() == ErrorKind::ApiParse,
        e.context() == what@,
{
    Error::new(ErrorKind::ApiParse, what)
}

impl RustDocParser {
    /// A builder that has seen nothing.
    pub fn new() -> (parser: RustDocParser)
        ensures
            parser@ == fresh(),
    {
        let parser = RustDocParser {
            unprocessed: VecDeque::new(),
            deferred_imports: Vec::new(),
            api: Api::new(),
            crate_ids: HashMap::new(),
            path_ids: StringHashMap::new(),
            item_ids: StringHashMap::new(),
        };
        assert(queue_view(parser.unprocessed@) =~= Seq::empty());
        assert(noted_view(parser.deferred_imports@) =~= Seq::empty());
        parser
    }

    /// Resolves the crate with the number `raw_crate_id`: the crate made for
    /// it before, or a new one; none for the number 0, which is the package
    /// itself. Fails where the tree names no crate of that number.
    pub fn _parse_crate(&mut self, raw: &Document, raw_crate_id: u32) -> (found: Result<
        Option<CrateId>,
        Error,
    >)
        ensures
            match crate_resolved(document_view(*raw), old(self)@, raw_crate_id) {
                Some((then, id)) => found matches Ok(got) && got == id && final(self)@ == then,
                None => found matches Err(e) && e.kind() == ErrorKind::ApiParse,
            },
    {
        broadcast use group_hash_axioms;

        if let Some(crate_id) = self.crate_ids.get(&raw_crate_id) {
            return Ok(*crate_id);
        }
        let crate_id = if raw_crate_id != 0 {
            match crate_name_of(raw, raw_crate_id) {
                Some(name) => {
                    if self.api.crates.len() == usize::MAX {
                        return Err(malformed("no further crate can be added"));
                    }
                    Some(self.api.crates.push(Crate::new(name.as_str())))
                },
                None => {
                    return Err(malformed("a crate id is not in `external_crates`"));
                },
            }
        } else {
            None
        };
        self.crate_ids.insert(raw_crate_id, crate_id);
        Ok(crate_id)
    }

    /// Resolves the path of the id `raw_item_id`, found under
    /// `parent_path_id`: the path made for it before, or a new one where the
    /// path table has a summary for it, or none. A new path becomes the last
    /// child of its parent and, if it is the first path of all, the root.
    /// Fails where the tree has a summary but no item for the id, or a summary
    /// whose kind is no kind of path.
    pub fn _parse_path(
        &mut self,
        raw: &Document,
        parent_path_id: Option<PathId>,
        raw_item_id: &str,
        crate_id: Option<CrateId>,
    ) -> (found: Result<Option<PathId>, Error>)
        ensures
            match path_resolved(
                document_view(*raw),
                old(self)@,
                parent_path_id,
                raw_item_id@,
                crate_id,
            ) {
                Some((then, id)) => found matches Ok(got) && got == id && final(self)@ == then,
                None => found matches Err(e) && e.kind() == ErrorKind::ApiParse,
            },
    {
        if let Some(path_id) = self.path_ids.get(raw_item_id) {
            return Ok(*path_id);
        }
        let summary = match summary_of(raw, raw_item_id) {
            Some(summary) => summary,
            None => {
                self.path_ids.insert(raw_item_id.to_owned(), None);
                return Ok(None);
            },
        };
        let head = match item_head(raw, raw_item_id) {
            Some(head) => head,
            None => {
                return Err(malformed("an item id is not in `index`"));
            },
        };
        let kind = match _convert_path_kind(summary.kind.as_str()) {
            Some(kind) => kind,
            None => {
                return Err(malformed("a summary has a kind that no path has"));
            },
        };
        if let Some(parent) = parent_path_id {
            if parent.0 >= self.api.paths.len() {
                return Err(malformed("a parent path does not exist"));
            }
        }
        if self.api.paths.len() == usize::MAX {
            return Err(malformed("no further path can be added"));
        }
        let mut path = Path::new(kind, join(&summary.path, "::").as_str());
        path.crate_id = crate_id;
        path.span = head.span;
        let path_id = self.api.paths.push(path);
        if let Some(parent) = parent_path_id {
            match self.api.paths.get_mut(parent) {
                Some(parent_path) => {
                    parent_path.children.push(path_id);
                },
                None => {},
            }
        }
        if self.api.root_id.is_none() {
            self.api.root_id = Some(path_id);
        }
        self.path_ids.insert(raw_item_id.to_owned(), Some(path_id));
        Ok(Some(path_id))
    }

    /// Queues `members` under `parent`, in their order.
    fn enqueue(&mut self, parent: Option<PathId>, members: &Vec<String>)
        ensures
            final(self)@ == (ParserView {
                unprocessed: old(self)@.unprocessed + queued(parent, texts_view(members@)),
                ..old(self)@
            }),
    {
        let ghost all = queued(parent, texts_view(members@));
        let mut i: usize = 0;
        assert(self@.unprocessed =~= old(self)@.unprocessed + all.take(0));
        while i < members.len()
            invariant
                i <= members@.len(),
                all == queued(parent, texts_view(members@)),
                self@ == (ParserView {
                    unprocessed: old(self)@.unprocessed + all.take(i as int),
                    ..old(self)@
                }),
            decreases members@.len() - i,
        {
            let ghost waiting = self@.unprocessed;
            self.unprocessed.push_back((parent, members[i].clone()));
            assert(self@.unprocessed =~= waiting.push((parent, members@[i as int]@)));
            assert(all.take(i + 1) =~= all.take(i as int).push(all[i as int]));
            assert(self@.unprocessed =~= old(self)@.unprocessed + all.take(i + 1));
            i = i + 1;
        }
        assert(all.take(members@.len() as int) =~= all);
    }

    /// Resolves the item of the id `raw_item_id`, whose path is `path_id`: the
    /// item made for it before, or a new one where the id is a terminal, or
    /// none. A module, trait, impl or enum queues its members under
    /// `path_id`; a re-export queues its target and is noted for later. A new
    /// item becomes the item of `path_id`. Fails where the tree has no item
    /// for the id, a re-export under no path, or a terminal before any path.
    pub fn _parse_item(
        &mut self,
        raw: &Document,
        raw_item_id: &str,
        path_id: Option<PathId>,
        crate_id: Option<CrateId>,
    ) -> (found: Result<Option<ItemId>, Error>)
        ensures
            match item_resolved(document_view(*raw), old(self)@, raw_item_id@, path_id, crate_id) {
                Some((then, id)) => found matches Ok(got) && got == id && final(self)@ == then,
                None => found matches Err(e) && e.kind() == ErrorKind::ApiParse,
            },
    {
        if let Some(item_id) = self.item_ids.get(raw_item_id) {
            return Ok(*item_id);
        }
        let shape = match item_shape(raw, raw_item_id) {
            Some(shape) => shape,
            None => {
                return Err(malformed("an item id is not in `index`"));
            },
        };
        let item_id = match shape {
            RawShape::Module(items) => {
                self.enqueue(path_id, &items);
                None
            },
            RawShape::Import { name, id } => {
                match id {
                    Some(target) => {
                        match path_id {
                            Some(owner) => {
                                self.unprocessed.push_back((path_id, target.clone()));
                                self.deferred_imports.push((owner, name, target));
                                assert(self@.unprocessed =~= old(self)@.unprocessed.push(
                                    (path_id, target@),
                                ));
                                assert(self@.deferred_imports =~= old(self)@.deferred_imports.push(
                                    (owner, name@, target@),
                                ));
                            },
                            None => {
                                return Err(malformed("an import stands under no path"));
                            },
                        }
                    },
                    None => {},
                }
                None
            },
            RawShape::Trait(items) => {
                self.enqueue(path_id, &items);
                None
            },
            RawShape::Impl(items) => {
                self.enqueue(path_id, &items);
                None
            },
            RawShape::Enum(variants) => {
                self.enqueue(path_id, &variants);
                None
            },
            RawShape::Terminal => {
                if self.api.root_id.is_none() {
                    return Err(malformed("Module should be root"));
                }
                if let Some(at) = path_id {
                    if at.0 >= self.api.paths.len() {
                        return Err(malformed("a path does not exist"));
                    }
                }
                if self.api.items.len() == usize::MAX {
                    return Err(malformed("no further item can be added"));
                }
                let mut item = Item::new();
                item.crate_id = crate_id;
                match item_head(raw, raw_item_id) {
                    Some(head) => {
                        item.name = head.name;
                        item.span = head.span;
                    },
                    None => {},
                }
                let item_id = self.api.items.push(item);
                if let Some(at) = path_id {
                    match self.api.paths.get_mut(at) {
                        Some(path) => {
                            path.item_id = Some(item_id);
                        },
                        None => {},
                    }
                }
                Some(item_id)
            },
        };
        self.item_ids.insert(raw_item_id.to_owned(), item_id);
        Ok(item_id)
    }

    /// Visits the first id of the queue: takes it from the queue and resolves
    /// its crate, its path and its item. Does nothing where the queue is empty.
    pub fn visit_next(&mut self, raw: &Document) -> (done: Result<(), Error>)
        ensures
            match visited(document_view(*raw), old(self)@) {
                Some(then) => done is Ok && final(self)@ == then,
                None => done matches Err(e) && e.kind() == ErrorKind::ApiParse,
            },
    {
        let (parent_path_id, raw_item_id) = match self.unprocessed.pop_front() {
            Some(next) => next,
            None => {
                assert(self@ == old(self)@);
                return Ok(());
            },
        };
        assert(self@.unprocessed =~= old(self)@.unprocessed.drop_first());
        let raw_crate_id = match item_head(raw, raw_item_id.as_str()) {
            Some(head) => head.crate_id,
            None => {
                return Err(malformed("an item id is not in `index`"));
            },
        };
        let crate_id = match self._parse_crate(raw, raw_crate_id) {
            Ok(crate_id) => crate_id,
            Err(e) => {
                return Err(e);
            },
        };
        let path_id = match self._parse_path(raw, parent_path_id, raw_item_id.as_str(), crate_id) {
            Ok(path_id) => path_id,
            Err(e) => {
                return Err(e);
            },
        };
        let under = if path_id.is_some() {
            path_id
        } else {
            parent_path_id
        };
        match self._parse_item(raw, raw_item_id.as_str(), under, crate_id) {
            Ok(_) => Ok(()),
            Err(e) => Err(e),
        }
    }

    /// Visits everything in the queue and everything that comes into it on the
    /// way, first come first served.
    pub fn visit_all(&mut self, raw: &Document) -> (done: Result<(), Error>)
        ensures
            match traversed(document_view(*raw), old(self)@) {
                Some(then) => done is Ok && final(self)@ == then,
                None => done matches Err(e) && e.kind() == ErrorKind::ApiParse,
            },
    {
        let ghost d = document_view(*raw);
        let ghost start = self@;
        let ghost mut visits: nat = 0;
        // The index holds finitely many ids, and every visit either reaches
        // one of them for the first time or shortens the queue.
        let _ = item_count(raw);
        while self.unprocessed.len() > 0
            invariant
                d == document_view(*raw),
                d.items.dom().finite(),
                start == old(self)@,
                visited_times(d, Some(start), visits) == Some(self@),
            decreases unvisited(d, self@).len(), self.unprocessed@.len(),
        {
            let ghost before = self@;
            match self.visit_next(raw) {
                Ok(()) => {
                    proof {
                        visits = visits + 1;
                        lemma_visit_progress(d, before);
                    }
                },
                Err(e) => {
                    proof {
                        assert(visited_times(d, Some(start), visits + 1) is None);
                        lemma_traversed(d, start, visits + 1);
                    }
                    return Err(e);
                },
            }
        }
        proof {
            lemma_traversed(d, start, visits);
        }
        Ok(())
    }

    /// Resolves one re-export: makes a path of kind `Import` named after its
    /// owner and `name`, in the owner's crate, with the item of the target and
    /// a copy of the target's children, and adds it as the owner's last child.
    /// Fails where the target has no path.
    pub fn _resolve_import(&mut self, owner: PathId, name: &str, target: &str) -> (done: Result<
        (),
        Error,
    >)
        ensures
            match import_resolved(old(self)@, (owner, name@, target@)) {
                Some(then) => done is Ok && final(self)@ == then,
                None => done matches Err(e) && e.kind() == ErrorKind::ApiParse,
            },
    {
        let target_path_id = match self.path_ids.get(target) {
            Some(found) => match *found {
                Some(id) => id,
                None => {
                    return Err(malformed("the target of an import has no path"));
                },
            },
            None => {
                return Err(malformed("the target of an import was never seen"));
            },
        };
        let (item_id, children) = match self.api.paths.get(target_path_id) {
            Some(target_path) => (target_path.item_id, target_path.children.clone()),
            None => {
                return Err(malformed("a path does not exist"));
            },
        };
        let (crate_id, mut full_name) = match self.api.paths.get(owner) {
            Some(owner_path) => (owner_path.crate_id, owner_path.path.clone()),
            None => {
                return Err(malformed("a parent path does not exist"));
            },
        };
        if self.api.paths.len() == usize::MAX {
            return Err(malformed("no further path can be added"));
        }
        full_name.append("::");
        full_name.append(name);
        let mut path = Path::new(PathKind::Import, full_name.as_str());
        path.crate_id = crate_id;
        path.item_id = item_id;
        path.children = children;
        assert(path.children@ =~= self@.api.paths[target_path_id.0 as int].children);
        let path_id = self.api.paths.push(path);
        match self.api.paths.get_mut(owner) {
            Some(owner_path) => {
                owner_path.children.push(path_id);
            },
            None => {},
        }
        Ok(())
    }

    /// Resolves every noted re-export, in the order in which they were noted,
    /// and leaves none noted.
    pub fn resolve_deferred_imports(&mut self) -> (done: Result<(), Error>)
        ensures
            match imports_resolved(old(self)@) {
                Some(then) => done is Ok && final(self)@ == then,
                None => done matches Err(e) && e.kind() == ErrorKind::ApiParse,
            },
    {
        let ghost goal = imports_resolved(self@);
        let mut noted: Vec<(PathId, String, String)> = Vec::new();
        assert(noted_view(noted@) =~= Seq::empty());
        core::mem::swap(&mut self.deferred_imports, &mut noted);
        let ghost entries = noted_view(noted@);
        assert(entries.skip(0) =~= entries);
        let mut i: usize = 0;
        while i < noted.len()
            invariant
                i <= noted@.len(),
                entries == noted_view(noted@),
                goal == imports_resolved(old(self)@),
                self@.deferred_imports == Seq::<(PathId, Seq<char>, Seq<char>)>::empty(),
                imports_resolved(
                    ParserView { deferred_imports: entries.skip(i as int), ..self@ },
                ) == goal,
            decreases noted@.len() - i,
        {
            let ghost before = self@;
            let ghost waiting = ParserView { deferred_imports: entries.skip(i as int), ..before };
            let ghost rest = ParserView { deferred_imports: entries.skip(i + 1), ..before };
            proof {
                assert(waiting.deferred_imports.drop_first() =~= entries.skip(i + 1));
                assert(waiting.deferred_imports[0] == entries[i as int]);
                assert(ParserView {
                    deferred_imports: waiting.deferred_imports.drop_first(),
                    ..waiting
                } == rest);
            }
            let entry = &noted[i];
            match self._resolve_import(entry.0, entry.1.as_str(), entry.2.as_str()) {
                Ok(()) => {},
                Err(e) => {
                    assert(import_resolved(rest, entries[i as int]) is None);
                    return Err(e);
                },
            }
            proof {
                assert(import_resolved(rest, entries[i as int]) == Some(
                    ParserView { deferred_imports: entries.skip(i + 1), ..self@ },
                ));
            }
            i = i + 1;
        }
        proof {
            assert(entries.skip(noted@.len() as int) =~= Seq::empty());
            assert(ParserView { deferred_imports: entries.skip(i as int), ..self@ } == self@);
        }
        Ok(())
    }

    /// Builds the catalogue of a documentation tree: queues its root, visits
    /// whatever can be reached from there, then resolves the re-exports. Fails
    /// where the tree is malformed.
    pub fn parse(self, raw: &Document) -> (outcome: Result<Api, Error>)
        ensures
            match built_from(document_view(*raw), self@) {
                Some(api) => outcome matches Ok(got) && got@ == api,
                None => outcome matches Err(e) && e.kind() == ErrorKind::ApiParse,
            },
    {
        let mut parser = self;
        parser.unprocessed.push_back((None, root_of(raw)));
        assert(parser@.unprocessed =~= self@.unprocessed.push((None, document_root(*raw))));
        match parser.visit_all(raw) {
            Ok(()) => {},
            Err(e) => {
                return Err(e);
            },
        }
        match parser.resolve_deferred_imports() {
            Ok(()) => {},
            Err(e) => {
                return Err(e);
            },
        }
        Ok(parser.api)
    }
}

/// The words for a text that is no documentation tree.
pub open spec fn unreadable(manifest_path: Seq<char>, why: Seq<char>) -> Seq<char> {
    "Failed when parsing json for "@ + manifest_path + ": "@ + why
}

/// Reads `raw` as the documentation tree of the package whose manifest is at
/// `manifest_path` and builds its catalogue. Fails where the text is no
/// documentation tree, and says why; fails where the tree is malformed.
pub fn parse_raw(raw: &str, manifest_path: &str) -> (outcome: Result<Api, Error>)
    ensures
        match decoded(raw@) {
            Ok(doc) => match built(document_view(doc)) {
                Some(api) => outcome matches Ok(got) && got@ == api,
                None => outcome matches Err(e) && e.kind() == ErrorKind::ApiParse,
            },
            Err(why) => outcome matches Err(e) && e.kind() == ErrorKind::ApiParse && e.context()
                == unreadable(manifest_path@, why),
        },
{
    match decode(raw) {
        Ok(doc) => RustDocParser::new().parse(&doc),
        Err(why) => {
            let mut words = "Failed when parsing json for ".to_owned();
            words.append(manifest_path);
            words.append(": ");
            words.append(why.as_str());
            Err(Error::new(ErrorKind::ApiParse, words.as_str()))
        },
    }
}

} // verus!
