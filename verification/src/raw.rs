//! The documentation tree as the builder reads it: a root id, an index from
//! ids to items, a table from ids to summaries, and the names of the other
//! crates. The tree itself is held by `rustdoc_types::Crate`; what is declared
//! here is what the builder may ask of it.

use vstd::prelude::*;
use rustdoc_types::Crate as Document;
use rustdoc_types::Id;
use rustdoc_types::ItemEnum;
use crate::api::span_view;
use crate::api::text_view;
use crate::api::texts_view;
use crate::api::Span;
use crate::api::SpanView;

verus! {

/// A documentation tree. Its contents are `document_root`, `document_items`,
/// `document_paths` and `document_crates`.
#[verifier::external_type_specification]
#[verifier::external_body]
pub struct ExDocument(Document);

/// What an item of the tree is, as far as the builder tells items apart.
#[derive(Debug)]
pub enum RawShape {
    /// A module with the ids of its members.
    Module(Vec<String>),
    /// A re-export under `name` of the item with the id `id`.
    Import { name: String, id: Option<String> },
    /// A trait with the ids of its associated items.
    Trait(Vec<String>),
    /// An impl block with the ids of its members.
    Impl(Vec<String>),
    /// An enum with the ids of its variants.
    Enum(Vec<String>),
    /// Anything else: a struct, a function, a constant and so on.
    Terminal,
}

/// A `RawShape` as the contracts see it.
pub enum RawShapeView {
    Module(Seq<Seq<char>>),
    Import { name: Seq<char>, id: Option<Seq<char>> },
    Trait(Seq<Seq<char>>),
    Impl(Seq<Seq<char>>),
    Enum(Seq<Seq<char>>),
    Terminal,
}

impl View for RawShape {
    type V = RawShapeView;

    open spec fn view(&self) -> RawShapeView {
        match *self {
            RawShape::Module(items) => RawShapeView::Module(texts_view(items@)),
            RawShape::Import { name, id } => RawShapeView::Import { name: name@, id: text_view(id) },
            RawShape::Trait(items) => RawShapeView::Trait(texts_view(items@)),
            RawShape::Impl(items) => RawShapeView::Impl(texts_view(items@)),
            RawShape::Enum(variants) => RawShapeView::Enum(texts_view(variants@)),
            RawShape::Terminal => RawShapeView::Terminal,
        }
    }
}

/// What every item of the tree carries, whatever its shape.
#[derive(Debug)]
pub struct RawHead {
    /// The crate that the item came from; 0 is the documented package itself.
    pub crate_id: u32,
    pub name: Option<String>,
    pub span: Option<Span>,
}

/// One item of the tree as the contracts see it.
pub struct RawItemView {
    pub crate_id: u32,
    pub name: Option<Seq<char>>,
    pub span: Option<SpanView>,
    pub inner: RawShapeView,
}

/// What the path table says of one id.
#[derive(Debug)]
pub struct RawSummary {
    /// The name of the kind, spelled as `rustdoc_types::ItemKind` spells its variants.
    pub kind: String,
    /// The components of the fully qualified path.
    pub path: Vec<String>,
}

/// A `RawSummary` as the contracts see it.
pub struct RawSummaryView {
    pub kind: Seq<char>,
    pub path: Seq<Seq<char>>,
}

impl View for RawSummary {
    type V = RawSummaryView;

    open spec fn view(&self) -> RawSummaryView {
        RawSummaryView { kind: self.kind@, path: texts_view(self.path@) }
    }
}

/// A documentation tree as the contracts see it.
pub struct DocumentView {
    pub root: Seq<char>,
    pub items: Map<Seq<char>, RawItemView>,
    pub paths: Map<Seq<char>, RawSummaryView>,
    pub crates: Map<u32, Seq<char>>,
}

/// The id of the root item of a tree.
pub uninterp spec fn document_root(doc: Document) -> Seq<char>;

/// The index of a tree: its items by id.
pub uninterp spec fn document_items(doc: Document) -> Map<Seq<char>, RawItemView>;

/// The path table of a tree: kind and path components by id.
pub uninterp spec fn document_paths(doc: Document) -> Map<Seq<char>, RawSummaryView>;

/// The names of the other crates that a tree mentions, by their number.
pub uninterp spec fn document_crates(doc: Document) -> Map<u32, Seq<char>>;

/// What reading a text as a documentation tree gives: the tree, or the words
/// in which the reader says why the text is none.
pub uninterp spec fn decoded(text: Seq<char>) -> Result<Document, Seq<char>>;

/// Whether the index holds exactly `count` items.
pub open spec fn numbers(items: Map<Seq<char>, RawItemView>, count: usize) -> bool {
    items.dom().finite() && items.dom().len() == count
}

/// Everything that the builder reads of a tree.
pub open spec fn document_view(doc: Document) -> DocumentView {
    DocumentView {
        root: document_root(doc),
        items: document_items(doc),
        paths: document_paths(doc),
        crates: document_crates(doc),
    }
}

/// `serde_json::from_str` at the type `rustdoc_types::Crate`: reads a JSON text
/// as a documentation tree. The same text always gives the same tree or the same
/// complaint; the complaint is handed out as the error's text.
#[verifier::external_body]
pub(crate) fn decode(text: &str) -> (outcome: Result<Document, String>)
    ensures
        outcome matches Ok(doc) ==> (decoded(text@) matches Ok(tree) && tree == doc),
        outcome matches Err(why) ==> (decoded(text@) matches Err(words) && words == why@),
{
    serde_json::from_str::<Document>(text).map_err(|e| e.to_string())
}

/// The field `root` of `rustdoc_types::Crate`.
#[verifier::external_body]
pub(crate) fn root_of(doc: &Document) -> (root: String)
    ensures
        root@ == document_root(*doc),
{
    doc.root.0.clone()
}

/// `len` of the field `index` of `rustdoc_types::Crate`: the index holds finitely
/// many items, and this is their number.
#[verifier::external_body]
pub(crate) fn item_count(doc: &Document) -> (count: usize)
    ensures
        numbers(document_items(*doc), count),
{
    doc.index.len()
}

/// `get` on the field `index` of `rustdoc_types::Crate`, for what every item
/// carries: the number of its crate, its name and its span. Nothing comes back
/// exactly when the index has no item of that id.
#[verifier::external_body]
pub(crate) fn item_head(doc: &Document, id: &str) -> (head: Option<RawHead>)
    ensures
        head.is_some() == document_items(*doc).contains_key(id@),
        head matches Some(h) ==> h.crate_id == document_items(*doc)[id@].crate_id && text_view(
            h.name,
        ) == document_items(*doc)[id@].name && span_view(h.span) == document_items(
            *doc,
        )[id@].span,
{
    let item = doc.index.get(&Id(id.to_owned()))?;
    let span = item.span.as_ref().map(
        |s| Span { filename: s.filename.to_string_lossy().into_owned(), begin: s.begin, end: s.end },
    );
    Some(RawHead { crate_id: item.crate_id, name: item.name.clone(), span })
}

/// `get` on the field `index` of `rustdoc_types::Crate`, for the shape of the
/// item: which of the variants of `rustdoc_types::ItemEnum` it is, with the ids
/// that a module, trait, impl or enum lists and the name and target of an
/// import. Nothing comes back exactly when the index has no item of that id.
#[verifier::external_body]
pub(crate) fn item_shape(doc: &Document, id: &str) -> (shape: Option<RawShape>)
    ensures
        shape.is_some() == document_items(*doc).contains_key(id@),
        shape matches Some(s) ==> s@ == document_items(*doc)[id@].inner,
{
    let ids = |l: &Vec<Id>| l.iter().map(|i| i.0.clone()).collect();
    Some(match &doc.index.get(&Id(id.to_owned()))?.inner {
        ItemEnum::Module(m) => RawShape::Module(ids(&m.items)),
        ItemEnum::Import(i) => RawShape::Import {
            name: i.name.clone(),
            id: i.id.as_ref().map(|t| t.0.clone()),
        },
        ItemEnum::Trait(t) => RawShape::Trait(ids(&t.items)),
        ItemEnum::Impl(i) => RawShape::Impl(ids(&i.items)),
        ItemEnum::Enum(e) => RawShape::Enum(ids(&e.variants)),
        _ => RawShape::Terminal,
    })
}

/// `get` on the field `paths` of `rustdoc_types::Crate`: the kind of the
/// summary, spelled as the derived `Debug` of `rustdoc_types::ItemKind` spells
/// it, which is the variant's name, and its path components. Nothing comes back
/// exactly when the table has no summary of that id.
#[verifier::external_body]
pub(crate) fn summary_of(doc: &Document, id: &str) -> (summary: Option<RawSummary>)
    ensures
        summary.is_some() == document_paths(*doc).contains_key(id@),
        summary matches Some(s) ==> s@ == document_paths(*doc)[id@],
{
    let summary = doc.paths.get(&Id(id.to_owned()))?;
    Some(RawSummary { kind: format!("{:?}", summary.kind), path: summary.path.clone() })
}

/// `get` on the field `external_crates` of `rustdoc_types::Crate`: the name of
/// the crate with the given number. Nothing comes back exactly when the tree
/// names no crate of that number.
#[verifier::external_body]
pub(crate) fn crate_name_of(doc: &Document, number: u32) -> (name: Option<String>)
    ensures
        name.is_some() == document_crates(*doc).contains_key(number),
        name matches Some(n) ==> n@ == document_crates(*doc)[number],
{
    doc.external_crates.get(&number).map(|c| c.name.clone())
}

} // verus!
