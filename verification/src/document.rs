//! The manifest document as the TOML editing crate holds it, and the few
//! operations on it that the manifest store is built from.
//!
//! Nothing in this file is proved: each function states what the crate's call
//! does, over the names `document_sections` and `table_entries`. A document
//! comes into being in `parse_document` only, so its root is a table, as these
//! calls expect.

use vstd::prelude::*;
use crate::keyed::Key;
use crate::keyed::Props;
use crate::keyed::Entries;
use crate::keyed::Sections;
use crate::keyed::keys_distinct;
use crate::keyed::lookup;
use crate::keyed::has_key;
use crate::keyed::without;
use crate::keyed::is_put;

verus! {

/// An editable TOML document.
#[verifier::external_type_specification]
#[verifier::external_body]
pub struct ExDocumentMut(toml_edit::DocumentMut);

/// A standard TOML table.
#[verifier::external_type_specification]
#[verifier::external_body]
pub struct ExTable(toml_edit::Table);

/// The error of a text that is no TOML document.
#[verifier::external_type_specification]
#[verifier::external_body]
pub struct ExTomlError(toml_edit::TomlError);

/// What `toml_edit::Table::iter` walks, in its order: each key, with the
/// pairs that `toml_edit::TableLike::iter` walks where the item under the key
/// is a table or an inline table (`toml_edit::Item::as_table_like`), and no
/// pairs where it is anything else. A pair's value is what
/// `toml_edit::Item::as_str` gives for it: `None` for all but a string.
pub uninterp spec fn table_entries(table: toml_edit::Table) -> Seq<(Seq<char>, Seq<(Seq<char>, Option<Seq<char>>)>)>;

/// What `toml_edit::DocumentMut::iter` walks, in its order: each top-level
/// key, with the entries of the item under it where that item is a standard
/// table, and `None` where it is anything else.
pub uninterp spec fn document_sections(doc: toml_edit::DocumentMut) -> Seq<(Seq<char>, Option<Seq<(Seq<char>, Seq<(Seq<char>, Option<Seq<char>>)>)>>)>;

/// The text that `to_string` gives for a document.
pub uninterp spec fn document_text(doc: toml_edit::DocumentMut) -> Seq<char>;

/// The sections of the document that a text parses to, `None` where the text
/// is no TOML document.
pub uninterp spec fn parsed_sections(text: Seq<char>) -> Option<Seq<(Seq<char>, Option<Seq<(Seq<char>, Seq<(Seq<char>, Option<Seq<char>>)>)>>)>>;

/// No key occurs twice among the sections, among the entries of a section,
/// or among the properties of an entry.
pub open spec fn well_formed(sections: Sections) -> bool {
    &&& keys_distinct(sections)
    &&& forall|i: int|
        0 <= i < sections.len() && (#[trigger] sections[i]).1 is Some ==> entries_well_formed(
            sections[i].1->Some_0,
        )
}

/// No key occurs twice among the entries, or among the properties of one.
pub open spec fn entries_well_formed(entries: Entries) -> bool {
    &&& keys_distinct(entries)
    &&& forall|j: int| 0 <= j < entries.len() ==> keys_distinct((#[trigger] entries[j]).1)
}

/// The properties that a list of string pairs stands for.
pub open spec fn pairs_props(pairs: Seq<(String, String)>) -> Props {
    Seq::new(pairs.len(), |i: int| (pairs[i].0@, Some(pairs[i].1@)))
}

/// The properties that a list of pairs read from a document stands for.
pub open spec fn read_props(pairs: Seq<(String, Option<String>)>) -> Props {
    Seq::new(
        pairs.len(),
        |i: int|
            (
                pairs[i].0@,
                match pairs[i].1 {
                    Some(value) => Some(value@),
                    None => None,
                },
            ),
    )
}

/// The keys that a list of strings stands for.
pub open spec fn names_of(names: Seq<String>) -> Seq<Key> {
    Seq::new(names.len(), |i: int| names[i]@)
}

/// The keys of a keyed sequence, in its order.
pub open spec fn keys_of<V>(s: Seq<(Key, V)>) -> Seq<Key> {
    Seq::new(s.len(), |i: int| s[i].0)
}

/// What a document holds under a top-level key.
pub(crate) enum Section {
    /// Nothing is stored under the key.
    Absent,
    /// Something other than a standard table is stored under the key.
    NotTable,
    /// A copy of the standard table stored under the key.
    Table(toml_edit::Table),
}

/// `str::parse::<toml_edit::DocumentMut>`: the document that the text
/// denotes, or the crate's error where the text is no TOML document. The
/// contract claims that the outcome depends on the text alone, and that a
/// document's keys are distinct on every level.
#[verifier::external_body]
pub(crate) fn parse_document(text: &str) -> (parsed: Result<toml_edit::DocumentMut, toml_edit::TomlError>)
    ensures
        match parsed {
            Ok(doc) => parsed_sections(text@) == Some(document_sections(doc)) && well_formed(
                document_sections(doc),
            ),
            Err(_) => parsed_sections(text@) is None,
        },
{
    text.parse::<toml_edit::DocumentMut>()
}

/// `toml_edit::TomlError::to_string`: the error's message with the place in
/// the text. Nothing is claimed of it.
#[verifier::external_body]
pub(crate) fn error_message(error: &toml_edit::TomlError) -> (message: String) {
    error.to_string()
}

/// `toml_edit::DocumentMut::to_string`: the document as text. The contract
/// claims only that the text depends on the document alone.
#[verifier::external_body]
pub(crate) fn render_document(doc: &toml_edit::DocumentMut) -> (text: String)
    ensures
        text@ == document_text(*doc),
{
    doc.to_string()
}

/// `toml_edit::Table::new`: a table without entries.
#[verifier::external_body]
pub(crate) fn new_table() -> (table: toml_edit::Table)
    ensures
        table_entries(table) == Seq::<(Key, Props)>::empty(),
{
    toml_edit::Table::new()
}

/// `toml_edit::Table::get` on the document's root: tells apart a key that is
/// absent, one that holds a standard table (of which a copy is returned), and
/// one that holds anything else. The keys of the table returned are
/// distinct on every level.
#[verifier::external_body]
pub(crate) fn find_section(doc: &toml_edit::DocumentMut, name: &str) -> (found: Section)
    ensures
        match found {
            Section::Absent => !has_key(document_sections(*doc), name@),
            Section::NotTable => lookup(document_sections(*doc), name@) == Some(
                None::<Entries>,
            ),
            Section::Table(table) => lookup(document_sections(*doc), name@) == Some(
                Some(table_entries(table)),
            ) && entries_well_formed(table_entries(table)),
        },
{
    match doc.get(name) {
        None => Section::Absent,
        Some(toml_edit::Item::Table(table)) => Section::Table(table.clone()),
        Some(_) => Section::NotTable,
    }
}

/// `toml_edit::Table::insert` on the document's root, with a standard table
/// as the item: afterwards the key holds that table; a key that was there
/// keeps its place, and all other sections stay as they were, in their order.
/// Keys stay distinct on every level.
#[verifier::external_body]
pub(crate) fn insert_section(doc: &mut toml_edit::DocumentMut, name: &str, table: toml_edit::Table)
    ensures
        is_put(
            document_sections(*old(doc)),
            document_sections(*final(doc)),
            name@,
            Some(table_entries(table)),
        ),
        well_formed(document_sections(*final(doc))),
{
    doc.insert(name, toml_edit::Item::Table(table));
}

/// `toml_edit::Table::insert` with an inline table of string values as the
/// item, made from the pairs by `toml_edit::InlineTable::from_iter`:
/// afterwards the key holds exactly these pairs; a key that was there keeps
/// its place, and all other entries stay as they were, in their order. Keys
/// stay distinct on every level.
#[verifier::external_body]
pub(crate) fn insert_entry(table: &mut toml_edit::Table, name: &str, pairs: &Vec<(String, String)>)
    requires
        keys_distinct(pairs_props(pairs@)),
    ensures
        is_put(
            table_entries(*old(table)),
            table_entries(*final(table)),
            name@,
            pairs_props(pairs@),
        ),
        entries_well_formed(table_entries(*final(table))),
{
    let properties: toml_edit::InlineTable =
        pairs.iter().map(|pair| (pair.0.as_str(), pair.1.as_str())).collect();
    table.insert(name, toml_edit::Item::Value(toml_edit::Value::InlineTable(properties)));
}

/// `toml_edit::Table::remove`: afterwards the key is gone, and all other
/// entries stay as they were, in their order. Keys stay distinct on every
/// level.
#[verifier::external_body]
pub(crate) fn remove_entry(table: &mut toml_edit::Table, name: &str)
    ensures
        table_entries(*final(table)) == without(table_entries(*old(table)), name@),
        entries_well_formed(table_entries(*final(table))),
{
    table.remove(name);
}

/// `toml_edit::DocumentMut::iter`: the top-level keys, in the document's
/// order, none of them twice.
#[verifier::external_body]
pub(crate) fn section_names(doc: &toml_edit::DocumentMut) -> (names: Vec<String>)
    ensures
        names_of(names@) == keys_of(document_sections(*doc)),
        names_of(names@).no_duplicates(),
{
    doc.iter().map(|(key, _)| key.to_owned()).collect()
}

/// `toml_edit::Table::iter`: the table's keys, in its order, none of them
/// twice.
#[verifier::external_body]
pub(crate) fn entry_names(table: &toml_edit::Table) -> (names: Vec<String>)
    ensures
        names_of(names@) == keys_of(table_entries(*table)),
        names_of(names@).no_duplicates(),
{
    table.iter().map(|(key, _)| key.to_owned()).collect()
}

/// `toml_edit::Table::get`, `toml_edit::Item::as_table_like` and
/// `toml_edit::TableLike::iter`: the pairs of the table or inline table
/// stored under the key, each value as `toml_edit::Item::as_str` gives it; no
/// pairs where the key is absent or holds anything else. No key comes twice.
#[verifier::external_body]
pub(crate) fn entry_properties(table: &toml_edit::Table, name: &str) -> (pairs: Vec<(String, Option<String>)>)
    ensures
        read_props(pairs@) == match lookup(table_entries(*table), name@) {
            Some(props) => props,
            None => Seq::<(Key, Option<Seq<char>>)>::empty(),
        },
        keys_distinct(read_props(pairs@)),
{
    match table.get(name).and_then(|item| item.as_table_like()) {
        Some(held) => held
            .iter()
            .map(|(key, value)| (key.to_owned(), value.as_str().map(|text| text.to_owned())))
            .collect(),
        None => Vec::new(),
    }
}

} // verus!
