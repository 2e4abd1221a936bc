//! The manifest of a package as text, read as TOML as far as the library
//! needs it.

use vstd::prelude::*;
use crate::api::text_view;

verus! {

/// A manifest that was read. Its contents are reached through `manifest_text`.
#[verifier::external_type_specification]
#[verifier::external_body]
pub struct ExManifestDocument(toml_edit::Document);

/// What reading a text as TOML gives: the document, or the words in which the
/// reader says why the text is none.
pub uninterp spec fn manifest_decoded(text: Seq<char>) -> Result<toml_edit::Document, Seq<char>>;

/// The text that a document holds under `key` in its table `table`; nothing
/// where it has no such table, no such key, or something else than a text
/// under it.
pub uninterp spec fn manifest_entry(
    document: toml_edit::Document,
    table: Seq<char>,
    key: Seq<char>,
) -> Option<Seq<char>>;

/// `toml_edit::Document`'s `from_str`: reads a text as TOML. The same text
/// always gives the same document or the same complaint; the complaint is
/// handed out as the error's text.
#[verifier::external_body]
pub(crate) fn decode_manifest(text: &str) -> (outcome: Result<toml_edit::Document, String>)
    ensures
        outcome matches Ok(document) ==> (manifest_decoded(text@) matches Ok(read) && read
            == document),
        outcome matches Err(why) ==> (manifest_decoded(text@) matches Err(words) && words == why@),
{
    text.parse::<toml_edit::Document>().map_err(|e| e.to_string())
}

/// `get` on the root table of a `toml_edit::Document` and on the item found
/// there, then `as_str`: the text under `key` in the table `table`, where the
/// document has one.
#[verifier::external_body]
pub(crate) fn manifest_text(document: &toml_edit::Document, table: &str, key: &str) -> (found:
    Option<String>)
    ensures
        text_view(found) == manifest_entry(*document, table@, key@),
{
    document.as_table().get(table)?.get(key)?.as_str().map(|text| text.to_owned())
}

} // verus!
