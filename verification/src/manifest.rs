//! The manifest store: the document of wanted packages, one section per
//! backend, each section a table from package name to properties.

use vstd::prelude::*;
use vstd::string::StringExecFns;
use crate::keyed::Key;
use crate::keyed::Props;
use crate::keyed::Entries;
use crate::keyed::Sections;
use crate::keyed::has_key;
use crate::keyed::index_of;
use crate::keyed::keys_distinct;
use crate::keyed::lookup;
use crate::keyed::without;
use crate::keyed::is_put;
use crate::keyed::lemma_lookup_at;
use crate::document::document_sections;
use crate::document::document_text;
use crate::document::parsed_sections;
use crate::document::table_entries;
use crate::document::well_formed;
use crate::document::entries_well_formed;
use crate::document::names_of;
use crate::document::keys_of;
use crate::document::pairs_props;
use crate::document::read_props;
use crate::document::Section;
use crate::document::parse_document;
use crate::document::error_message;
use crate::document::render_document;
use crate::document::new_table;
use crate::document::find_section;
use crate::document::insert_section;
use crate::document::insert_entry;
use crate::document::remove_entry;
use crate::document::section_names;
use crate::document::entry_names;
use crate::document::entry_properties;
use crate::entry::InstallationEntry;
use crate::entry::Properties;
use crate::entry::stored;
use crate::error::Error;
use crate::text::same_text;

verus! {

/// Holds when the manifest has something other than a table under the
/// backend's name.
pub open spec fn is_corrupt(sections: Sections, backend: Key) -> bool {
    lookup(sections, backend) == Some(None::<Entries>)
}

/// The entries recorded for a backend: those of its section, none where the
/// manifest has no such section. Meaningful where the section is not corrupt.
pub open spec fn section_entries(sections: Sections, backend: Key) -> Entries {
    match lookup(sections, backend) {
        Some(Some(entries)) => entries,
        _ => Seq::empty(),
    }
}

/// `after` is `before` with `props` recorded for `name` in the section of
/// `backend`: that section is a table in which `name` holds `props`, its
/// other entries are as before and in the same order, and every other section
/// is as before and in the same order. A section and an entry that were there
/// keep their places. No key occurs twice, before or after.
pub open spec fn is_upsert(
    before: Sections,
    after: Sections,
    backend: Key,
    name: Key,
    props: Props,
) -> bool {
    &&& !is_corrupt(before, backend)
    &&& entries_well_formed(section_entries(before, backend))
    &&& well_formed(after)
    &&& is_put(before, after, backend, Some(section_entries(after, backend)))
    &&& is_put(section_entries(before, backend), section_entries(after, backend), name, props)
}

/// `after` is `before` without the entry for `name` in the section of
/// `backend`; everything else is as before and in the same order.
pub open spec fn is_removal(before: Sections, after: Sections, backend: Key, name: Key) -> bool {
    &&& entries_well_formed(section_entries(before, backend))
    &&& well_formed(after)
    &&& is_put(before, after, backend, Some(without(section_entries(before, backend), name)))
}

/// The string-valued properties among `props`, in their order.
pub open spec fn strings_of(props: Props) -> Seq<(Key, Seq<char>)>
    decreases props.len(),
{
    if props.len() == 0 {
        Seq::empty()
    } else if props.last().1 is Some {
        strings_of(props.drop_last()).push((props.last().0, props.last().1->Some_0))
    } else {
        strings_of(props.drop_last())
    }
}

/// Every string-valued key of `props` is a key of `props`.
pub proof fn lemma_strings_of_keys(props: Props)
    ensures
        forall|key: Key| has_key(strings_of(props), key) ==> has_key(props, key),
    decreases props.len(),
{
    if props.len() > 0 {
        let rest = props.drop_last();
        lemma_strings_of_keys(rest);
        assert forall|key: Key| has_key(strings_of(props), key) implies has_key(props, key) by {
            let i = index_of(strings_of(props), key);
            if i < strings_of(rest).len() {
                assert(strings_of(rest)[i].0 == key);
                assert(has_key(rest, key));
                let j = index_of(rest, key);
                assert(props[j].0 == key);
            } else {
                assert(props[props.len() - 1].0 == key);
            }
        }
    }
}

/// The entries read from a section stand for what is recorded there: the
/// same names in the same order, each with its string-valued properties.
pub open spec fn entries_match(entries: Seq<InstallationEntry>, recorded: Entries) -> bool {
    &&& entries.len() == recorded.len()
    &&& forall|i: int|
        0 <= i < entries.len() ==> (#[trigger] entries[i]).name@ == recorded[i].0
            && entries[i].properties@ == strings_of(recorded[i].1)
}

/// The text of a manifest that has just been created: an empty section for
/// the backend that manages the backends.
pub open spec fn initial_text() -> Seq<char> {
    "[module]"@
}

/// The manifest's place below a user's home directory.
pub open spec fn path_below(home: Seq<char>) -> Seq<char> {
    home + "/.config/darling/darling.toml"@
}

/// The directory of the manifest below a user's home directory.
pub open spec fn directory_below(home: Seq<char>) -> Seq<char> {
    home + "/.config/darling/"@
}

/// The manifest of wanted packages, as a document that keeps the user's
/// comments and layout.
pub struct Manifest {
    doc: toml_edit::DocumentMut,
}

/// A manifest as `Manifest::load` hands it out.
pub struct Loaded {
    /// The manifest.
    pub manifest: Manifest,
    /// The text to write first where no manifest existed yet.
    pub created: Option<String>,
}

impl View for Manifest {
    type V = Sections;

    closed spec fn view(&self) -> Sections {
        document_sections(self.doc)
    }
}

impl Manifest {
    /// The manifest as text, as it is written to its file.
    pub closed spec fn text(&self) -> Seq<char> {
        document_text(self.doc)
    }

    /// The file of the manifest of the user whose home directory is `home`.
    pub fn path(home: &str) -> (path: String)
        ensures
            path@ == path_below(home@),
    {
        String::from_str(home).concat("/.config/darling/darling.toml")
    }

    /// The directory that holds the manifest of the user whose home directory
    /// is `home`.
    pub fn directory(home: &str) -> (path: String)
        ensures
            path@ == directory_below(home@),
    {
        String::from_str(home).concat("/.config/darling/")
    }

    /// Reads a manifest from its text.
    pub fn parse(text: &str) -> (parsed: Result<Manifest, Error>)
        ensures
            match parsed {
                Ok(manifest) => parsed_sections(text@) == Some(manifest@) && well_formed(manifest@),
                Err(error) => parsed_sections(text@) is None && error is MalformedManifest,
            },
    {
        match parse_document(text) {
            Ok(doc) => Ok(Manifest { doc }),
            Err(error) => Err(Error::MalformedManifest(error_message(&error))),
        }
    }

    /// The manifest of a user: read from `existing`, the text of the
    /// manifest's file, or a new one where there is no such file yet. A text
    /// that is no document is an error and never repaired.
    pub fn load(existing: Option<&str>) -> (loaded: Result<Loaded, Error>)
        ensures
            match existing {
                Some(text) => match loaded {
                    Ok(l) => parsed_sections(text@) == Some(l.manifest@) && well_formed(
                        l.manifest@,
                    ) && l.created is None,
                    Err(error) => parsed_sections(text@) is None && error is MalformedManifest,
                },
                None => match loaded {
                    Ok(l) => parsed_sections(initial_text()) == Some(l.manifest@) && well_formed(
                        l.manifest@,
                    ) && l.created is Some && l.created->Some_0@ == initial_text(),
                    Err(error) => parsed_sections(initial_text()) is None
                        && error is MalformedManifest,
                },
            },
    {
        match existing {
            Some(text) => {
                match Manifest::parse(text) {
                    Ok(manifest) => Ok(Loaded { manifest, created: None }),
                    Err(error) => Err(error),
                }
            },
            None => {
                let text = "[module]";
                match Manifest::parse(text) {
                    Ok(manifest) => Ok(Loaded { manifest, created: Some(text.to_owned()) }),
                    Err(error) => Err(error),
                }
            },
        }
    }

    /// The manifest as text.
    pub fn render(&self) -> (text: String)
        ensures
            text@ == self.text(),
    {
        render_document(&self.doc)
    }

    /// The names of the sections, in the manifest's order.
    pub fn section_names(&self) -> (names: Vec<String>)
        ensures
            names_of(names@) == keys_of(self@),
            names@.len() == self@.len(),
            keys_distinct(self@),
    {
        let names = section_names(&self.doc);
        proof {
            lemma_names_distinct(names@, self@);
        }
        names
    }

    /// The packages recorded for `backend`, in the manifest's order: none
    /// where the manifest has no section for it. Fails where the section is
    /// corrupt.
    pub fn section(&self, backend: &str) -> (read: Result<Vec<InstallationEntry>, Error>)
        ensures
            match read {
                Ok(entries) => !is_corrupt(self@, backend@) && entries_match(
                    entries@,
                    section_entries(self@, backend@),
                ) && keys_distinct(section_entries(self@, backend@)),
                Err(error) => is_corrupt(self@, backend@) && error is CorruptManifest
                    && error.subject() == backend@,
            },
    {
        let table = match find_section(&self.doc, backend) {
            Section::Absent => {
                return Ok(Vec::new());
            },
            Section::NotTable => {
                return Err(Error::CorruptManifest(backend.to_owned()));
            },
            Section::Table(table) => table,
        };
        let names = entry_names(&table);
        let ghost recorded = table_entries(table);
        proof {
            lemma_names_distinct(names@, recorded);
        }
        let mut entries: Vec<InstallationEntry> = Vec::new();
        let mut i: usize = 0;
        while i < names.len()
            invariant
                i <= names.len(),
                recorded == table_entries(table),
                names_of(names@) == keys_of(recorded),
                keys_distinct(recorded),
                names@.len() == recorded.len(),
                entries_match(entries@, recorded.take(i as int)),
            decreases names.len() - i,
        {
            let pairs = entry_properties(&table, names[i].as_str());
            proof {
                assert(names_of(names@)[i as int] == names@[i as int]@);
                assert(keys_of(recorded)[i as int] == recorded[i as int].0);
                lemma_lookup_at(recorded, i as int);
            }
            let properties = string_properties(&pairs);
            let ghost before = entries@;
            entries.push(InstallationEntry { name: names[i].clone(), properties });
            proof {
                let now = recorded.take(i as int + 1);
                assert forall|k: int| 0 <= k < entries@.len() implies (#[trigger] entries@[k]).name@
                    == now[k].0 && entries@[k].properties@ == strings_of(now[k].1) by {
                    if k < i {
                        assert(entries@[k] == before[k]);
                        assert(recorded.take(i as int)[k] == now[k]);
                    }
                }
            }
            i += 1;
        }
        assert(recorded.take(i as int) == recorded);
        Ok(entries)
    }

    /// Deletes the entry for `package` from the section of `backend`. Fails,
    /// and changes nothing, where the section is corrupt, where there is no
    /// such section, and where the section has no such entry.
    pub fn remove(&mut self, backend: &str, package: &str) -> (done: Result<(), Error>)
        ensures
            match done {
                Ok(_) => lookup(old(self)@, backend@) is Some && !is_corrupt(old(self)@, backend@)
                    && has_key(section_entries(old(self)@, backend@), package@) && is_removal(
                    old(self)@,
                    final(self)@,
                    backend@,
                    package@,
                ),
                Err(error) => *final(self) == *old(self) && match error {
                    Error::CorruptManifest(name) => is_corrupt(old(self)@, backend@) && name@
                        == backend@,
                    Error::MissingSection(name) => lookup(old(self)@, backend@) is None && name@
                        == backend@,
                    Error::MissingEntry(name) => lookup(old(self)@, backend@) is Some
                        && !is_corrupt(old(self)@, backend@) && !has_key(
                        section_entries(old(self)@, backend@),
                        package@,
                    ) && name@ == package@,
                    _ => false,
                },
            },
    {
        let mut table = match find_section(&self.doc, backend) {
            Section::Absent => {
                return Err(Error::MissingSection(backend.to_owned()));
            },
            Section::NotTable => {
                return Err(Error::CorruptManifest(backend.to_owned()));
            },
            Section::Table(table) => table,
        };
        let names = entry_names(&table);
        let ghost recorded = table_entries(table);
        proof {
            lemma_names_distinct(names@, recorded);
        }
        if !contains_name(&names, package) {
            proof {
                if has_key(recorded, package@) {
                    let i = index_of(recorded, package@);
                    assert(names_of(names@)[i] == names@[i]@);
                    assert(keys_of(recorded)[i] == recorded[i].0);
                }
            }
            return Err(Error::MissingEntry(package.to_owned()));
        }
        proof {
            let i = choose|i: int| 0 <= i < names@.len() && (#[trigger] names@[i])@ == package@;
            assert(names_of(names@)[i] == names@[i]@);
            assert(keys_of(recorded)[i] == recorded[i].0);
            assert(recorded[i].0 == package@);
        }
        remove_entry(&mut table, package);
        insert_section(&mut self.doc, backend, table);
        Ok(())
    }

    /// Records `entry` for `backend`, in place of what was recorded under the
    /// entry's name. Fails, and changes nothing, where the backend's section
    /// is corrupt.
    pub fn upsert(&mut self, backend: &str, entry: &InstallationEntry) -> (done: Result<(), Error>)
        ensures
            match done {
                Ok(_) => is_upsert(
                    old(self)@,
                    final(self)@,
                    backend@,
                    entry.name@,
                    stored(entry.properties@),
                ),
                Err(error) => is_corrupt(old(self)@, backend@) && *final(self) == *old(self)
                    && error is CorruptManifest && error.subject() == backend@,
            },
    {
        let mut table = match find_section(&self.doc, backend) {
            Section::Absent => new_table(),
            Section::NotTable => {
                return Err(Error::CorruptManifest(backend.to_owned()));
            },
            Section::Table(table) => table,
        };
        let pairs = entry.properties.pairs();
        assert(pairs_props(pairs@) =~= stored(entry.properties@));
        assert(keys_distinct(stored(entry.properties@))) by {
            let p = entry.properties@;
            let s = stored(p);
            assert forall|i: int, j: int|
                0 <= i < s.len() && 0 <= j < s.len() && (#[trigger] s[i]).0 == (#[trigger] s[j]).0 implies i
                == j by {
                assert(p[i].0 == p[j].0);
            }
        }
        insert_entry(&mut table, entry.name.as_str(), pairs);
        insert_section(&mut self.doc, backend, table);
        Ok(())
    }
}

/// Whether `name` is among `names`.
pub fn contains_name(names: &Vec<String>, name: &str) -> (found: bool)
    ensures
        found == exists|i: int| 0 <= i < names@.len() && (#[trigger] names@[i])@ == name@,
{
    let mut i: usize = 0;
    while i < names.len()
        invariant
            i <= names.len(),
            forall|k: int| 0 <= k < i ==> (#[trigger] names@[k])@ != name@,
        decreases names.len() - i,
    {
        if same_text(names[i].as_str(), name) {
            return true;
        }
        i += 1;
    }
    false
}

/// Names that are distinct are the keys of a sequence with distinct keys.
proof fn lemma_names_distinct<V>(names: Seq<String>, s: Seq<(Key, V)>)
    requires
        names_of(names) == keys_of(s),
        names_of(names).no_duplicates(),
    ensures
        keys_distinct(s),
        names.len() == s.len(),
{
    assert(names_of(names).len() == names.len());
    assert(keys_of(s).len() == s.len());
    assert forall|i: int, j: int|
        0 <= i < s.len() && 0 <= j < s.len() && (#[trigger] s[i]).0 == (#[trigger] s[j]).0 implies i
        == j by {
        assert(keys_of(s)[i] == s[i].0);
        assert(keys_of(s)[j] == s[j].0);
    }
}

/// The string-valued pairs among those read from an entry, as properties.
fn string_properties(pairs: &Vec<(String, Option<String>)>) -> (properties: Properties)
    requires
        keys_distinct(read_props(pairs@)),
    ensures
        properties@ == strings_of(read_props(pairs@)),
{
    let mut properties = Properties::new();
    let mut i: usize = 0;
    let ghost all = read_props(pairs@);
    assert(all.take(0) =~= Seq::<(Key, Option<Seq<char>>)>::empty());
    while i < pairs.len()
        invariant
            i <= pairs.len(),
            all == read_props(pairs@),
            keys_distinct(all),
            properties@ == strings_of(all.take(i as int)),
        decreases pairs.len() - i,
    {
        proof {
            let next = all.take(i as int + 1);
            assert(next.drop_last() =~= all.take(i as int));
            assert(next.last() == all[i as int]);
            lemma_strings_of_keys(all.take(i as int));
            if has_key(all.take(i as int), all[i as int].0) {
                let j = index_of(all.take(i as int), all[i as int].0);
                assert(all[j].0 == all[i as int].0);
            }
        }
        match &pairs[i].1 {
            Some(value) => {
                properties.insert(pairs[i].0.clone(), value.clone());
            },
            None => {},
        }
        i += 1;
    }
    assert(all.take(i as int) =~= all);
    properties
}

} // verus!
