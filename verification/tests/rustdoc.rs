use std::collections::HashMap;

use crate_api::rustdoc::_convert_path_kind;
use crate_api::rustdoc::parse_raw;
use crate_api::rustdoc::RustDocParser;
use crate_api::Api;
use crate_api::CrateId;
use crate_api::ErrorKind;
use crate_api::ItemId;
use crate_api::PathId;
use crate_api::PathKind;
use crate_api::RustDocBuilder;
use rustdoc_types::Id;
use rustdoc_types::ItemEnum;
use rustdoc_types::ItemKind;

fn id(text: &str) -> Id {
    Id(text.to_owned())
}

fn ids(texts: &[&str]) -> Vec<Id> {
    texts.iter().map(|t| id(t)).collect()
}

fn no_generics() -> rustdoc_types::Generics {
    rustdoc_types::Generics { params: Vec::new(), where_predicates: Vec::new() }
}

fn module(items: &[&str]) -> ItemEnum {
    ItemEnum::Module(rustdoc_types::Module { is_crate: false, items: ids(items) })
}

fn import(name: &str, target: Option<&str>) -> ItemEnum {
    ItemEnum::Import(rustdoc_types::Import {
        source: name.to_owned(),
        name: name.to_owned(),
        id: target.map(id),
        glob: false,
    })
}

fn trait_(items: &[&str]) -> ItemEnum {
    ItemEnum::Trait(rustdoc_types::Trait {
        is_auto: false,
        is_unsafe: false,
        items: ids(items),
        generics: no_generics(),
        bounds: Vec::new(),
        implementations: Vec::new(),
    })
}

fn impl_(items: &[&str]) -> ItemEnum {
    ItemEnum::Impl(rustdoc_types::Impl {
        is_unsafe: false,
        generics: no_generics(),
        provided_trait_methods: Vec::new(),
        trait_: None,
        for_: rustdoc_types::Type::Primitive("u8".to_owned()),
        items: ids(items),
        negative: false,
        synthetic: false,
        blanket_impl: None,
    })
}

fn enum_(variants: &[&str]) -> ItemEnum {
    ItemEnum::Enum(rustdoc_types::Enum {
        generics: no_generics(),
        variants_stripped: false,
        variants: ids(variants),
        impls: Vec::new(),
    })
}

fn terminal() -> ItemEnum {
    ItemEnum::Macro("macro_rules! m {}".to_owned())
}

struct Tree {
    doc: rustdoc_types::Crate,
}

impl Tree {
    fn new(root: &str) -> Tree {
        Tree {
            doc: rustdoc_types::Crate {
                root: id(root),
                crate_version: None,
                includes_private: false,
                index: HashMap::new(),
                paths: HashMap::new(),
                external_crates: HashMap::new(),
                format_version: rustdoc_types::FORMAT_VERSION,
            },
        }
    }

    fn item(mut self, raw: &str, crate_id: u32, name: Option<&str>, inner: ItemEnum) -> Tree {
        self.doc.index.insert(
            id(raw),
            rustdoc_types::Item {
                id: id(raw),
                crate_id,
                name: name.map(|n| n.to_owned()),
                span: None,
                visibility: rustdoc_types::Visibility::Public,
                docs: None,
                links: HashMap::new(),
                attrs: Vec::new(),
                deprecation: None,
                inner,
            },
        );
        self
    }

    fn spanned(mut self, raw: &str, file: &str, begin: (usize, usize), end: (usize, usize)) -> Tree {
        self.doc.index.get_mut(&id(raw)).unwrap().span =
            Some(rustdoc_types::Span { filename: file.into(), begin, end });
        self
    }

    fn path(mut self, raw: &str, kind: ItemKind, path: &[&str]) -> Tree {
        self.doc.paths.insert(
            id(raw),
            rustdoc_types::ItemSummary {
                crate_id: 0,
                path: path.iter().map(|p| p.to_string()).collect(),
                kind,
            },
        );
        self
    }

    fn external(mut self, number: u32, name: &str) -> Tree {
        self.doc.external_crates.insert(
            number,
            rustdoc_types::ExternalCrate { name: name.to_owned(), html_root_url: None },
        );
        self
    }

    fn build(&self) -> Result<Api, crate_api::Error> {
        RustDocParser::new().parse(&self.doc)
    }

    fn text(&self) -> String {
        serde_json::to_string(&self.doc).unwrap()
    }
}

fn children(api: &Api, at: usize) -> Vec<PathId> {
    api.paths.get(PathId(at)).unwrap().children.clone()
}

fn sample() -> Tree {
    Tree::new("0:0")
        .item("0:0", 0, Some("my_crate"), module(&["0:1", "0:2", "0:3", "20:5"]))
        .path("0:0", ItemKind::Module, &["my_crate"])
        .item("0:1", 0, Some("Foo"), terminal())
        .spanned("0:1", "src/lib.rs", (3, 0), (5, 1))
        .path("0:1", ItemKind::Struct, &["my_crate", "Foo"])
        .item("0:2", 0, Some("inner"), module(&["0:4"]))
        .path("0:2", ItemKind::Module, &["my_crate", "inner"])
        .item("0:3", 0, None, import("Bar", Some("0:4")))
        .item("0:4", 0, Some("Bar"), terminal())
        .path("0:4", ItemKind::Function, &["my_crate", "inner", "Bar"])
        .item("20:5", 20, Some("Thing"), terminal())
        .path("20:5", ItemKind::Struct, &["other", "Thing"])
        .external(20, "other")
}

fn check_sample(api: &Api) {
    assert_eq!(api.root_id, Some(PathId(0)));
    assert_eq!(api.paths.len(), 6);
    assert_eq!(api.items.len(), 3);
    assert_eq!(api.crates.len(), 1);
    assert!(api.features.is_empty());

    let root = api.paths.get(PathId(0)).unwrap();
    assert_eq!(root.path, "my_crate");
    assert_eq!(root.kind, PathKind::Module);
    assert_eq!(root.crate_id, None);
    assert_eq!(root.item_id, None);
    assert_eq!(root.span, None);
    assert_eq!(root.children, vec![PathId(1), PathId(2), PathId(3), PathId(5)]);

    let foo = api.paths.get(PathId(1)).unwrap();
    assert_eq!(foo.path, "my_crate::Foo");
    assert_eq!(foo.kind, PathKind::Struct);
    assert_eq!(foo.item_id, Some(ItemId(0)));
    assert_eq!(
        foo.span,
        Some(crate_api::Span { filename: "src/lib.rs".to_owned(), begin: (3, 0), end: (5, 1) })
    );
    assert!(foo.children.is_empty());

    let inner = api.paths.get(PathId(2)).unwrap();
    assert_eq!(inner.path, "my_crate::inner");
    assert_eq!(inner.kind, PathKind::Module);
    assert_eq!(inner.item_id, None);
    assert_eq!(inner.children, vec![PathId(4)]);

    let thing = api.paths.get(PathId(3)).unwrap();
    assert_eq!(thing.path, "other::Thing");
    assert_eq!(thing.kind, PathKind::Struct);
    assert_eq!(thing.crate_id, Some(CrateId(0)));
    assert_eq!(thing.item_id, Some(ItemId(1)));

    let bar = api.paths.get(PathId(4)).unwrap();
    assert_eq!(bar.path, "my_crate::inner::Bar");
    assert_eq!(bar.kind, PathKind::Function);
    assert_eq!(bar.item_id, Some(ItemId(2)));

    let reexport = api.paths.get(PathId(5)).unwrap();
    assert_eq!(reexport.path, "my_crate::Bar");
    assert_eq!(reexport.kind, PathKind::Import);
    assert_eq!(reexport.crate_id, None);
    assert_eq!(reexport.span, None);
    assert_eq!(reexport.item_id, Some(ItemId(2)));
    assert!(reexport.children.is_empty());

    let foo_item = api.items.get(ItemId(0)).unwrap();
    assert_eq!(foo_item.name.as_deref(), Some("Foo"));
    assert_eq!(foo_item.crate_id, None);
    assert_eq!(
        foo_item.span,
        Some(crate_api::Span { filename: "src/lib.rs".to_owned(), begin: (3, 0), end: (5, 1) })
    );
    let thing_item = api.items.get(ItemId(1)).unwrap();
    assert_eq!(thing_item.name.as_deref(), Some("Thing"));
    assert_eq!(thing_item.crate_id, Some(CrateId(0)));
    assert_eq!(api.items.get(ItemId(2)).unwrap().name.as_deref(), Some("Bar"));

    let other = api.crates.get(CrateId(0)).unwrap();
    assert_eq!(other.name, "other");
    assert!(other.version.is_none());
}

#[test]
fn builds_the_sample_tree() {
    check_sample(&sample().build().unwrap());
}

#[test]
fn reads_the_sample_tree_from_text() {
    check_sample(&parse_raw(&sample().text(), "Cargo.toml").unwrap());
}

#[test]
fn text_that_is_no_tree_is_refused() {
    let e = parse_raw("{", "some/Cargo.toml").unwrap_err();
    assert_eq!(e.kind(), ErrorKind::ApiParse);
    let expected = format!(
        "Failed when parsing json for some/Cargo.toml: {}",
        serde_json::from_str::<rustdoc_types::Crate>("{").unwrap_err()
    );
    assert_eq!(e.to_string(), expected);
}

#[test]
fn tree_with_a_missing_field_is_refused() {
    let e = parse_raw("{\"root\": \"0:0\"}", "Cargo.toml").unwrap_err();
    assert_eq!(e.kind(), ErrorKind::ApiParse);
    assert!(e.to_string().starts_with("Failed when parsing json for Cargo.toml: "));
}

#[test]
fn root_that_is_not_in_the_index_is_refused() {
    let e = Tree::new("0:0").build().unwrap_err();
    assert_eq!(e.kind(), ErrorKind::ApiParse);
}

#[test]
fn member_that_is_not_in_the_index_is_refused() {
    let tree = Tree::new("0:0")
        .item("0:0", 0, Some("c"), module(&["0:9"]))
        .path("0:0", ItemKind::Module, &["c"]);
    assert_eq!(tree.build().unwrap_err().kind(), ErrorKind::ApiParse);
}

#[test]
fn crate_that_the_tree_does_not_name_is_refused() {
    let tree = Tree::new("0:0")
        .item("0:0", 0, Some("c"), module(&["7:1"]))
        .path("0:0", ItemKind::Module, &["c"])
        .item("7:1", 7, Some("T"), terminal());
    assert_eq!(tree.build().unwrap_err().kind(), ErrorKind::ApiParse);
}

#[test]
fn summary_of_a_struct_field_is_refused() {
    let tree = Tree::new("0:0")
        .item("0:0", 0, Some("c"), module(&["0:1"]))
        .path("0:0", ItemKind::Module, &["c"])
        .item("0:1", 0, Some("f"), terminal())
        .path("0:1", ItemKind::StructField, &["c", "S", "f"]);
    assert_eq!(tree.build().unwrap_err().kind(), ErrorKind::ApiParse);
}

#[test]
fn terminal_before_any_path_is_refused() {
    let tree = Tree::new("0:0").item("0:0", 0, Some("c"), terminal());
    assert_eq!(tree.build().unwrap_err().kind(), ErrorKind::ApiParse);
}

#[test]
fn import_under_no_path_is_refused() {
    let tree = Tree::new("0:0")
        .item("0:0", 0, None, import("x", Some("0:1")))
        .item("0:1", 0, Some("x"), terminal());
    assert_eq!(tree.build().unwrap_err().kind(), ErrorKind::ApiParse);
}

#[test]
fn import_of_what_has_no_path_is_refused() {
    let tree = Tree::new("0:0")
        .item("0:0", 0, Some("c"), module(&["0:1"]))
        .path("0:0", ItemKind::Module, &["c"])
        .item("0:1", 0, None, import("x", Some("0:2")))
        .item("0:2", 0, Some("x"), terminal());
    assert_eq!(tree.build().unwrap_err().kind(), ErrorKind::ApiParse);
}

#[test]
fn import_without_a_target_is_passed_over() {
    let tree = Tree::new("0:0")
        .item("0:0", 0, Some("c"), module(&["0:1", "0:2"]))
        .path("0:0", ItemKind::Module, &["c"])
        .item("0:1", 0, None, import("x", None))
        .item("0:2", 0, Some("f"), terminal())
        .path("0:2", ItemKind::Function, &["c", "f"]);
    let api = tree.build().unwrap();
    assert_eq!(api.paths.len(), 2);
    assert_eq!(children(&api, 0), vec![PathId(1)]);
    assert_eq!(api.items.len(), 1);
}

#[test]
fn root_alone_is_the_whole_tree() {
    let tree = Tree::new("0:0")
        .item("0:0", 0, Some("c"), module(&[]))
        .path("0:0", ItemKind::Module, &["c"]);
    let api = tree.build().unwrap();
    assert_eq!(api.root_id, Some(PathId(0)));
    assert_eq!(api.paths.len(), 1);
    assert!(children(&api, 0).is_empty());
    assert!(api.items.is_empty());
    assert!(api.crates.is_empty());
}

#[test]
fn traits_impls_and_enums_hold_their_members() {
    let tree = Tree::new("0:0")
        .item("0:0", 0, Some("c"), module(&["0:1", "0:2", "0:3"]))
        .path("0:0", ItemKind::Module, &["c"])
        .item("0:1", 0, Some("T"), trait_(&["0:4"]))
        .path("0:1", ItemKind::Trait, &["c", "T"])
        .item("0:2", 0, None, impl_(&["0:5"]))
        .item("0:3", 0, Some("E"), enum_(&["0:6", "0:7"]))
        .path("0:3", ItemKind::Enum, &["c", "E"])
        .item("0:4", 0, Some("m"), terminal())
        .path("0:4", ItemKind::Method, &["c", "T", "m"])
        .item("0:5", 0, Some("n"), terminal())
        .path("0:5", ItemKind::Method, &["c", "n"])
        .item("0:6", 0, Some("A"), terminal())
        .path("0:6", ItemKind::Variant, &["c", "E", "A"])
        .item("0:7", 0, Some("B"), terminal())
        .path("0:7", ItemKind::Variant, &["c", "E", "B"]);
    let api = tree.build().unwrap();
    assert_eq!(api.paths.len(), 7);
    assert_eq!(api.paths.get(PathId(1)).unwrap().kind, PathKind::Trait);
    assert_eq!(api.paths.get(PathId(2)).unwrap().kind, PathKind::Enum);
    // the impl has no path of its own, so its member stands under the root
    assert_eq!(children(&api, 0), vec![PathId(1), PathId(2), PathId(4)]);
    assert_eq!(children(&api, 1), vec![PathId(3)]);
    assert_eq!(children(&api, 2), vec![PathId(5), PathId(6)]);
    assert_eq!(api.paths.get(PathId(3)).unwrap().path, "c::T::m");
    assert_eq!(api.paths.get(PathId(3)).unwrap().kind, PathKind::Method);
    assert_eq!(api.paths.get(PathId(4)).unwrap().path, "c::n");
    assert_eq!(api.paths.get(PathId(5)).unwrap().path, "c::E::A");
    assert_eq!(api.paths.get(PathId(5)).unwrap().kind, PathKind::Variant);
    assert_eq!(api.paths.get(PathId(6)).unwrap().path, "c::E::B");
    assert_eq!(api.items.len(), 4);
}

#[test]
fn each_crate_is_made_once() {
    let tree = Tree::new("0:0")
        .item("0:0", 0, Some("c"), module(&["5:1", "9:1", "5:2"]))
        .path("0:0", ItemKind::Module, &["c"])
        .item("5:1", 5, Some("A"), terminal())
        .path("5:1", ItemKind::Struct, &["five", "A"])
        .item("9:1", 9, Some("B"), terminal())
        .path("9:1", ItemKind::Struct, &["nine", "B"])
        .item("5:2", 5, Some("C"), terminal())
        .path("5:2", ItemKind::Struct, &["five", "C"])
        .external(5, "five")
        .external(9, "nine");
    let api = tree.build().unwrap();
    assert_eq!(api.crates.len(), 2);
    assert_eq!(api.crates.get(CrateId(0)).unwrap().name, "five");
    assert_eq!(api.crates.get(CrateId(1)).unwrap().name, "nine");
    assert_eq!(api.paths.get(PathId(1)).unwrap().crate_id, Some(CrateId(0)));
    assert_eq!(api.paths.get(PathId(2)).unwrap().crate_id, Some(CrateId(1)));
    assert_eq!(api.paths.get(PathId(3)).unwrap().crate_id, Some(CrateId(0)));
    assert_eq!(api.items.get(ItemId(2)).unwrap().crate_id, Some(CrateId(0)));
}

#[test]
fn each_id_is_built_once() {
    let tree = Tree::new("0:0")
        .item("0:0", 0, Some("c"), module(&["0:1", "0:2", "0:1"]))
        .path("0:0", ItemKind::Module, &["c"])
        .item("0:1", 0, Some("f"), terminal())
        .path("0:1", ItemKind::Function, &["c", "f"])
        .item("0:2", 0, Some("m"), module(&["0:1", "0:0"]))
        .path("0:2", ItemKind::Module, &["c", "m"]);
    let api = tree.build().unwrap();
    assert_eq!(api.paths.len(), 3);
    assert_eq!(api.items.len(), 1);
    assert_eq!(children(&api, 0), vec![PathId(1), PathId(2)]);
    assert!(children(&api, 2).is_empty());
}

#[test]
fn resolving_again_gives_what_was_made() {
    let tree = sample();
    let mut parser = RustDocParser::new();
    let first = parser._parse_crate(&tree.doc, 20).unwrap();
    assert_eq!(first, Some(CrateId(0)));
    assert_eq!(parser._parse_crate(&tree.doc, 20).unwrap(), first);
    assert_eq!(parser._parse_crate(&tree.doc, 0).unwrap(), None);
    assert_eq!(parser._parse_crate(&tree.doc, 0).unwrap(), None);
    assert_eq!(parser.api.crates.len(), 1);

    let root = parser._parse_path(&tree.doc, None, "0:0", None).unwrap();
    assert_eq!(root, Some(PathId(0)));
    let foo = parser._parse_path(&tree.doc, root, "0:1", None).unwrap();
    assert_eq!(foo, Some(PathId(1)));
    assert_eq!(parser._parse_path(&tree.doc, None, "0:1", first).unwrap(), foo);
    assert_eq!(parser._parse_path(&tree.doc, root, "0:3", None).unwrap(), None);
    assert_eq!(parser._parse_path(&tree.doc, root, "0:3", None).unwrap(), None);
    assert_eq!(parser.api.paths.len(), 2);
    assert_eq!(parser.api.root_id, root);
    assert_eq!(parser.api.paths.get(PathId(0)).unwrap().children, vec![PathId(1)]);

    let item = parser._parse_item(&tree.doc, "0:1", foo, None).unwrap();
    assert_eq!(item, Some(ItemId(0)));
    assert_eq!(parser._parse_item(&tree.doc, "0:1", root, first).unwrap(), item);
    assert_eq!(parser.api.items.len(), 1);
    assert_eq!(parser.api.paths.get(PathId(1)).unwrap().item_id, item);
    assert_eq!(parser.api.paths.get(PathId(0)).unwrap().item_id, None);

    assert_eq!(parser._parse_item(&tree.doc, "0:2", root, None).unwrap(), None);
    assert_eq!(parser.unprocessed.len(), 1);
    assert_eq!(parser._parse_item(&tree.doc, "0:2", root, None).unwrap(), None);
    assert_eq!(parser.unprocessed.len(), 1);
    assert_eq!(parser.unprocessed[0], (root, "0:4".to_owned()));
}

#[test]
fn visits_go_first_come_first_served() {
    let tree = sample();
    let mut parser = RustDocParser::new();
    parser.unprocessed.push_back((None, "0:0".to_owned()));
    parser.visit_next(&tree.doc).unwrap();
    assert_eq!(parser.api.paths.len(), 1);
    assert_eq!(parser.unprocessed.len(), 4);
    assert_eq!(parser.unprocessed[0], (Some(PathId(0)), "0:1".to_owned()));
    assert_eq!(parser.unprocessed[3], (Some(PathId(0)), "20:5".to_owned()));
    parser.visit_next(&tree.doc).unwrap();
    parser.visit_next(&tree.doc).unwrap();
    assert_eq!(parser.unprocessed.len(), 3);
    assert_eq!(parser.unprocessed[2], (Some(PathId(2)), "0:4".to_owned()));
    parser.visit_next(&tree.doc).unwrap();
    assert_eq!(parser.unprocessed.len(), 3);
    assert_eq!(parser.unprocessed[2], (Some(PathId(0)), "0:4".to_owned()));
    assert_eq!(
        parser.deferred_imports,
        vec![(PathId(0), "Bar".to_owned(), "0:4".to_owned())]
    );
    parser.visit_all(&tree.doc).unwrap();
    assert!(parser.unprocessed.is_empty());
    assert_eq!(parser.api.paths.len(), 5);
    parser.visit_next(&tree.doc).unwrap();
    assert_eq!(parser.api.paths.len(), 5);
}

#[test]
fn resolving_the_imports_twice_is_resolving_them_once() {
    let tree = sample();
    let mut parser = RustDocParser::new();
    parser.unprocessed.push_back((None, "0:0".to_owned()));
    parser.visit_all(&tree.doc).unwrap();
    assert_eq!(parser.deferred_imports.len(), 1);
    parser.resolve_deferred_imports().unwrap();
    assert!(parser.deferred_imports.is_empty());
    assert_eq!(parser.api.paths.len(), 6);
    parser.resolve_deferred_imports().unwrap();
    assert!(parser.deferred_imports.is_empty());
    check_sample(&parser.api);
}

#[test]
fn reexport_of_a_module_copies_its_children() {
    let tree = Tree::new("0:0")
        .item("0:0", 0, Some("c"), module(&["0:3", "0:1", "0:2"]))
        .path("0:0", ItemKind::Module, &["c"])
        .item("0:1", 0, None, import("again", Some("0:3")))
        .item("0:2", 0, None, import("f", Some("0:4")))
        .item("0:3", 0, Some("m"), module(&["0:4", "0:5"]))
        .path("0:3", ItemKind::Module, &["c", "m"])
        .item("0:4", 0, Some("f"), terminal())
        .path("0:4", ItemKind::Function, &["c", "m", "f"])
        .item("0:5", 0, None, import("up", Some("0:0")));
    let api = tree.build().unwrap();
    // made by the traversal: c, c::m, c::m::f; then the re-exports in the
    // order in which they were met: again, f, up
    assert_eq!(api.paths.len(), 6);
    assert_eq!(api.paths.get(PathId(1)).unwrap().path, "c::m");
    assert_eq!(api.paths.get(PathId(2)).unwrap().path, "c::m::f");
    let again = api.paths.get(PathId(3)).unwrap();
    assert_eq!(again.path, "c::again");
    assert_eq!(again.kind, PathKind::Import);
    assert_eq!(again.item_id, None);
    assert_eq!(again.children, vec![PathId(2)]);
    let f = api.paths.get(PathId(4)).unwrap();
    assert_eq!(f.path, "c::f");
    assert_eq!(f.item_id, Some(ItemId(0)));
    assert!(f.children.is_empty());
    let up = api.paths.get(PathId(5)).unwrap();
    assert_eq!(up.path, "c::m::up");
    assert_eq!(up.kind, PathKind::Import);
    assert_eq!(up.children, vec![PathId(1), PathId(3), PathId(4)]);
    assert_eq!(children(&api, 0), vec![PathId(1), PathId(3), PathId(4)]);
    assert_eq!(children(&api, 1), vec![PathId(2), PathId(5)]);
}

#[test]
fn reexport_stands_in_the_crate_of_its_owner() {
    let tree = Tree::new("0:0")
        .item("0:0", 0, Some("c"), module(&["3:1"]))
        .path("0:0", ItemKind::Module, &["c"])
        .item("3:1", 3, Some("m"), module(&["3:2", "3:3"]))
        .path("3:1", ItemKind::Module, &["dep", "m"])
        .item("3:2", 3, None, import("g", Some("3:3")))
        .item("3:3", 3, Some("f"), terminal())
        .path("3:3", ItemKind::Function, &["dep", "m", "f"])
        .external(3, "dep");
    let api = tree.build().unwrap();
    assert_eq!(api.paths.len(), 4);
    let reexport = api.paths.get(PathId(3)).unwrap();
    assert_eq!(reexport.path, "dep::m::g");
    assert_eq!(reexport.crate_id, Some(CrateId(0)));
    assert_eq!(reexport.item_id, Some(ItemId(0)));
    assert_eq!(children(&api, 1), vec![PathId(2), PathId(3)]);
}

#[test]
fn every_path_but_the_root_has_one_parent_among_the_paths_made_first() {
    let api = sample().build().unwrap();
    let made_first = 5;
    for child in 1..api.paths.len() {
        let mut parents = 0;
        for parent in 0..made_first {
            for c in children(&api, parent) {
                if c == PathId(child) {
                    parents += 1;
                    assert!(parent < child);
                }
            }
        }
        assert_eq!(parents, 1);
    }
    for parent in 0..api.paths.len() {
        assert!(!children(&api, parent).contains(&PathId(0)));
    }
}

#[test]
fn kinds_are_told_by_their_names() {
    assert_eq!(_convert_path_kind("Module"), Some(PathKind::Module));
    assert_eq!(_convert_path_kind("ExternCrate"), Some(PathKind::ExternCrate));
    assert_eq!(_convert_path_kind("Import"), Some(PathKind::Import));
    assert_eq!(_convert_path_kind("Struct"), Some(PathKind::Struct));
    assert_eq!(_convert_path_kind("Union"), Some(PathKind::Union));
    assert_eq!(_convert_path_kind("Enum"), Some(PathKind::Enum));
    assert_eq!(_convert_path_kind("Variant"), Some(PathKind::Variant));
    assert_eq!(_convert_path_kind("Function"), Some(PathKind::Function));
    assert_eq!(_convert_path_kind("Typedef"), Some(PathKind::Typedef));
    assert_eq!(_convert_path_kind("OpaqueTy"), Some(PathKind::OpaqueTy));
    assert_eq!(_convert_path_kind("Constant"), Some(PathKind::Constant));
    assert_eq!(_convert_path_kind("Trait"), Some(PathKind::Trait));
    assert_eq!(_convert_path_kind("TraitAlias"), Some(PathKind::TraitAlias));
    assert_eq!(_convert_path_kind("Method"), Some(PathKind::Method));
    assert_eq!(_convert_path_kind("Impl"), Some(PathKind::Impl));
    assert_eq!(_convert_path_kind("Static"), Some(PathKind::Static));
    assert_eq!(_convert_path_kind("ForeignType"), Some(PathKind::ForeignType));
    assert_eq!(_convert_path_kind("Macro"), Some(PathKind::Macro));
    assert_eq!(_convert_path_kind("ProcAttribute"), Some(PathKind::ProcAttribute));
    assert_eq!(_convert_path_kind("ProcDerive"), Some(PathKind::ProcDerive));
    assert_eq!(_convert_path_kind("AssocConst"), Some(PathKind::AssocConst));
    assert_eq!(_convert_path_kind("AssocType"), Some(PathKind::AssocType));
    assert_eq!(_convert_path_kind("Primitive"), Some(PathKind::Primitive));
    assert_eq!(_convert_path_kind("Keyword"), Some(PathKind::Keyword));
    assert_eq!(_convert_path_kind("StructField"), None);
    assert_eq!(_convert_path_kind("module"), None);
    assert_eq!(_convert_path_kind(""), None);
}

#[test]
fn every_kind_of_the_tree_is_read_by_its_name() {
    let kinds = [
        (ItemKind::Module, PathKind::Module),
        (ItemKind::ExternCrate, PathKind::ExternCrate),
        (ItemKind::Import, PathKind::Import),
        (ItemKind::Struct, PathKind::Struct),
        (ItemKind::Union, PathKind::Union),
        (ItemKind::Enum, PathKind::Enum),
        (ItemKind::Variant, PathKind::Variant),
        (ItemKind::Function, PathKind::Function),
        (ItemKind::Typedef, PathKind::Typedef),
        (ItemKind::OpaqueTy, PathKind::OpaqueTy),
        (ItemKind::Constant, PathKind::Constant),
        (ItemKind::Trait, PathKind::Trait),
        (ItemKind::TraitAlias, PathKind::TraitAlias),
        (ItemKind::Method, PathKind::Method),
        (ItemKind::Impl, PathKind::Impl),
        (ItemKind::Static, PathKind::Static),
        (ItemKind::ForeignType, PathKind::ForeignType),
        (ItemKind::Macro, PathKind::Macro),
        (ItemKind::ProcAttribute, PathKind::ProcAttribute),
        (ItemKind::ProcDerive, PathKind::ProcDerive),
        (ItemKind::AssocConst, PathKind::AssocConst),
        (ItemKind::AssocType, PathKind::AssocType),
        (ItemKind::Primitive, PathKind::Primitive),
        (ItemKind::Keyword, PathKind::Keyword),
    ];
    for (raw, expected) in kinds {
        let tree = Tree::new("0:0")
            .item("0:0", 0, Some("c"), module(&["0:1"]))
            .path("0:0", ItemKind::Module, &["c"])
            .item("0:1", 0, Some("x"), terminal())
            .path("0:1", raw, &["c", "x"]);
        let api = tree.build().unwrap();
        assert_eq!(api.paths.get(PathId(1)).unwrap().kind, expected);
    }
}

#[test]
fn path_with_no_components_has_no_name() {
    let tree = Tree::new("0:0")
        .item("0:0", 0, Some("c"), module(&[]))
        .path("0:0", ItemKind::Module, &[]);
    let api = tree.build().unwrap();
    assert_eq!(api.paths.get(PathId(0)).unwrap().path, "");
}

#[test]
fn builder_remembers_what_it_is_told() {
    let builder = RustDocBuilder::new();
    assert!(!builder.with_deps());
    assert_eq!(builder.chosen_target_directory(), None);
    assert_eq!(builder, RustDocBuilder::default());
    let builder = builder.deps(true);
    assert!(builder.with_deps());
    assert_eq!(builder.chosen_target_directory(), None);
    let builder = builder.target_directory("target/doc");
    assert!(builder.with_deps());
    assert_eq!(builder.chosen_target_directory(), Some("target/doc".to_owned()));
    let builder = builder.deps(false);
    assert!(!builder.with_deps());
    assert_eq!(builder.chosen_target_directory(), Some("target/doc".to_owned()));
}

#[test]
fn documentation_run_has_its_arguments() {
    let without = RustDocBuilder::new().doc_arguments("a/Cargo.toml", "a/target");
    assert_eq!(
        without,
        vec![
            "+nightly",
            "doc",
            "--all-features",
            "--manifest-path",
            "a/Cargo.toml",
            "--target-dir",
            "a/target",
            "--no-deps"
        ]
    );
    let with = RustDocBuilder::new().deps(true).doc_arguments("a/Cargo.toml", "a/target");
    assert_eq!(
        with,
        vec![
            "+nightly",
            "doc",
            "--all-features",
            "--manifest-path",
            "a/Cargo.toml",
            "--target-dir",
            "a/target"
        ]
    );
    assert_eq!(RustDocBuilder::doc_file("my_crate"), "doc/my_crate.json");
}

#[test]
fn texts_are_joined_with_the_separator_between() {
    assert_eq!(crate_api::text::join(&vec![], "::"), "");
    assert_eq!(crate_api::text::join(&vec!["a".to_owned()], "::"), "a");
    assert_eq!(crate_api::text::join(&vec!["a".to_owned(), "b".to_owned()], "::"), "a::b");
    assert_eq!(
        crate_api::text::join(&vec!["a".to_owned(), "".to_owned(), "c".to_owned()], "-"),
        "a--c"
    );
}

#[test]
fn target_met_through_a_reexport_first_stands_where_the_reexport_stands() {
    let tree = Tree::new("0:0")
        .item("0:0", 0, Some("c"), module(&["0:1", "0:3"]))
        .path("0:0", ItemKind::Module, &["c"])
        .item("0:1", 0, None, import("f", Some("0:4")))
        .item("0:3", 0, Some("m"), module(&["0:4"]))
        .path("0:3", ItemKind::Module, &["c", "m"])
        .item("0:4", 0, Some("f"), terminal())
        .path("0:4", ItemKind::Function, &["c", "m", "f"]);
    let api = tree.build().unwrap();
    assert_eq!(api.paths.len(), 4);
    assert_eq!(api.paths.get(PathId(1)).unwrap().path, "c::m");
    assert_eq!(api.paths.get(PathId(2)).unwrap().path, "c::m::f");
    assert_eq!(api.paths.get(PathId(3)).unwrap().path, "c::f");
    assert_eq!(children(&api, 0), vec![PathId(1), PathId(2), PathId(3)]);
    assert!(children(&api, 1).is_empty());
}

#[test]
fn package_is_named_by_its_manifest() {
    let manifest = "[package]\nname = \"my-crate\"\nversion = \"1.0.0\"\n";
    assert_eq!(RustDocBuilder::crate_name(manifest, "Cargo.toml").unwrap(), "my-crate");
}

#[test]
fn manifest_without_a_package_name_is_refused() {
    for manifest in ["", "[workspace]\nmembers = []\n", "[package]\nversion = \"1\"\n", "[package]\nname = 3\n", "package = 1\n"] {
        let e = RustDocBuilder::crate_name(manifest, "a/Cargo.toml").unwrap_err();
        assert_eq!(e.kind(), ErrorKind::ApiParse);
        assert_eq!(e.to_string(), "Failed to parse a/Cargo.toml: invalid package.name");
    }
}

#[test]
fn manifest_that_is_no_toml_is_refused() {
    let e = RustDocBuilder::crate_name("[package", "a/Cargo.toml").unwrap_err();
    assert_eq!(e.kind(), ErrorKind::ApiParse);
    let why = "[package".parse::<toml_edit::Document>().unwrap_err();
    assert_eq!(e.to_string(), format!("Failed to parse a/Cargo.toml: {}", why));
}
