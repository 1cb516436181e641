//! The operations that keep the manifest in step with the system: install,
//! remove, rebuild and the import of what is installed already. A backend
//! changes the system; the manifest is changed only once the backend has
//! succeeded.

use vstd::prelude::*;
use crate::keyed::Key;
use crate::keyed::Props;
use crate::keyed::Entries;
use crate::keyed::Sections;
use crate::keyed::has_key;
use crate::keyed::index_of;
use crate::keyed::keys_distinct;
use crate::keyed::lookup;
use crate::keyed::put;
use crate::keyed::without;
use crate::keyed::lemma_is_put_others;
use crate::keyed::lemma_lookup_at;
use crate::document::well_formed;
use crate::document::names_of;
use crate::document::keys_of;
use crate::entry::Context;
use crate::entry::InstallationEntry;
use crate::entry::Properties;
use crate::entry::pairs_of;
use crate::entry::stored;
use crate::backend::PackageManager;
use crate::backend::Registry;
use crate::error::Error;
use crate::manifest::Manifest;
use crate::manifest::is_corrupt;
use crate::manifest::is_upsert;
use crate::manifest::is_removal;
use crate::manifest::section_entries;
use crate::text::same_text;

verus! {

/// The property that holds a package's version.
pub open spec fn version_key() -> Key {
    "version"@
}

/// The version recorded for a package of which no version is known.
pub open spec fn latest() -> Seq<char> {
    "latest"@
}

/// The characters of an optional text.
pub open spec fn text_of(text: Option<String>) -> Option<Seq<char>> {
    match text {
        Some(t) => Some(t@),
        None => None,
    }
}

/// The properties to record for a package that was installed: the reported
/// version takes the place of a version among the properties, and where there
/// is neither, the version is `latest`.
pub open spec fn with_version(properties: Seq<(Key, Seq<char>)>, reported: Option<Seq<char>>) -> Seq<
    (Key, Seq<char>),
> {
    let merged = match reported {
        Some(version) => put(properties, version_key(), version),
        None => properties,
    };
    if has_key(merged, version_key()) {
        merged
    } else {
        put(merged, version_key(), latest())
    }
}

/// `after` is `before` with the entry for `name` taken out of the section of
/// `backend`, where there is such an entry, and `before` itself where there
/// is none.
pub open spec fn is_forgotten(before: Sections, after: Sections, backend: Key, name: Key) -> bool {
    if has_key(section_entries(before, backend), name) {
        is_removal(before, after, backend, name)
    } else {
        after == before
    }
}

/// The package with the version to record for it.
pub fn versioned(package: InstallationEntry, reported: Option<String>) -> (entry: InstallationEntry)
    ensures
        entry.name@ == package.name@,
        entry.properties@ == with_version(package.properties@, text_of(reported)),
{
    let InstallationEntry { name, mut properties } = package;
    match reported {
        Some(version) => {
            properties.insert("version".to_owned(), version);
        },
        None => {},
    }
    if properties.get("version").is_none() {
        properties.insert("version".to_owned(), "latest".to_owned());
    }
    InstallationEntry { name, properties }
}

/// Records in the manifest that `package` is installed for `backend`, with
/// the version that was reported for it. Fails, and changes nothing, exactly
/// where the backend's section is corrupt.
pub fn record(
    manifest: &mut Manifest,
    backend: &str,
    package: InstallationEntry,
    reported: Option<String>,
) -> (done: Result<(), Error>)
    ensures
        match done {
            Ok(_) => is_upsert(
                old(manifest)@,
                final(manifest)@,
                backend@,
                package.name@,
                stored(with_version(package.properties@, text_of(reported))),
            ),
            Err(error) => is_corrupt(old(manifest)@, backend@) && *final(manifest) == *old(manifest)
                && error is CorruptManifest && error.subject() == backend@,
        },
{
    let entry = versioned(package, reported);
    manifest.upsert(backend, &entry)
}

/// Takes the entry for `package` out of the section of `backend`, where
/// there is one. Fails, and changes nothing, exactly where the section is
/// corrupt.
pub fn forget(manifest: &mut Manifest, backend: &str, package: &str) -> (done: Result<(), Error>)
    ensures
        match done {
            Ok(_) => !is_corrupt(old(manifest)@, backend@) && is_forgotten(
                old(manifest)@,
                final(manifest)@,
                backend@,
                package@,
            ) && (!has_key(section_entries(old(manifest)@, backend@), package@) ==> *final(manifest)
                == *old(manifest)),
            Err(error) => is_corrupt(old(manifest)@, backend@) && *final(manifest) == *old(manifest)
                && error is CorruptManifest && error.subject() == backend@,
        },
{
    match manifest.remove(backend, package) {
        Ok(_) => Ok(()),
        Err(Error::MissingSection(_)) => Ok(()),
        Err(Error::MissingEntry(_)) => Ok(()),
        Err(error) => Err(error),
    }
}

/// Installs `package` through `backend`, where `with_system` says so, and
/// then records it in the manifest under `section`. The manifest is changed
/// only after the backend has succeeded, and not at all where anything
/// fails.
pub fn install<B: PackageManager>(
    backend: &B,
    context: &Context,
    manifest: &mut Manifest,
    section: &str,
    package: InstallationEntry,
    with_system: bool,
) -> (done: Result<(), Error>)
    ensures
        match done {
            Ok(_) => exists|reported: Option<Seq<char>>|
                (with_system || reported is None) && #[trigger] is_upsert(
                    old(manifest)@,
                    final(manifest)@,
                    section@,
                    package.name@,
                    stored(with_version(package.properties@, reported)),
                ),
            Err(error) => *final(manifest) == *old(manifest) && if error is CorruptManifest {
                is_corrupt(old(manifest)@, section@) && error.subject() == section@
            } else {
                with_system && error is BackendExecution
            },
        },
        !with_system ==> (done is Ok <==> !is_corrupt(old(manifest)@, section@)),
{
    let mut reported: Option<String> = None;
    if with_system {
        match backend.install(context, &package) {
            Ok(version) => {
                reported = version;
            },
            Err(failure) => {
                return Err(Error::BackendExecution(failure.message));
            },
        }
        match backend.post_install(context) {
            Ok(_) => {},
            Err(failure) => {
                return Err(Error::BackendExecution(failure.message));
            },
        }
    }
    let ghost told = text_of(reported);
    let done = record(manifest, section, package, reported);
    proof {
        if done is Ok {
            assert(is_upsert(
                old(manifest)@,
                manifest@,
                section@,
                package.name@,
                stored(with_version(package.properties@, told)),
            ));
        }
    }
    done
}

/// Removes the package from the system through `backend`, and then takes its
/// entry out of the manifest's section, where there is one. The manifest is
/// changed only after the backend has succeeded.
pub fn remove<B: PackageManager>(
    backend: &B,
    context: &Context,
    manifest: &mut Manifest,
    section: &str,
    package_name: &str,
) -> (done: Result<(), Error>)
    ensures
        match done {
            Ok(_) => !is_corrupt(old(manifest)@, section@) && is_forgotten(
                old(manifest)@,
                final(manifest)@,
                section@,
                package_name@,
            ) && (!has_key(section_entries(old(manifest)@, section@), package_name@)
                ==> *final(manifest) == *old(manifest)),
            Err(error) => *final(manifest) == *old(manifest) && if error is CorruptManifest {
                is_corrupt(old(manifest)@, section@) && error.subject() == section@
            } else {
                error is BackendExecution
            },
        },
{
    let package = InstallationEntry { name: package_name.to_owned(), properties: Properties::new() };
    match backend.uninstall(context, &package) {
        Ok(_) => {},
        Err(failure) => {
            return Err(Error::BackendExecution(failure.message));
        },
    }
    forget(manifest, section, package_name)
}

/// The names that a backend lists as installed.
pub open spec fn listed_names(explicit: Seq<(String, String)>) -> Set<Key> {
    Set::new(|name: Key| exists|i: int| 0 <= i < explicit.len() && (#[trigger] explicit[i]).0@ == name)
}

/// The pairs of `s` whose key is not among `listed`, in their order: what a
/// rebuild still has to install.
pub open spec fn unsatisfied<V>(s: Seq<(Key, V)>, listed: Set<Key>) -> Seq<(Key, V)>
    decreases s.len(),
{
    if s.len() == 0 {
        s
    } else if listed.contains(s.last().0) {
        unsatisfied(s.drop_last(), listed)
    } else {
        unsatisfied(s.drop_last(), listed).push(s.last())
    }
}

/// Each package as the contracts see it: its name with its properties.
pub open spec fn entry_models(entries: Seq<InstallationEntry>) -> Seq<(Key, Seq<(Key, Seq<char>)>)> {
    Seq::new(entries.len(), |i: int| (entries[i].name@, entries[i].properties@))
}

/// `installed` is what a rebuild installs for a section with the entries
/// `recorded`: the names that some listing of a backend leaves unsatisfied.
pub open spec fn is_rebuilt<V>(recorded: Seq<(Key, V)>, installed: Seq<Key>) -> bool {
    exists|listed: Set<Key>| installed == keys_of(#[trigger] unsatisfied(recorded, listed))
}

/// A section that a rebuild can work on: a backend is registered under its
/// name, and it is a table.
pub open spec fn is_usable(section: (Key, Option<Entries>), registered: Seq<Key>) -> bool {
    registered.contains(section.0) && section.1 is Some
}

/// The first `count` sections are all usable.
pub open spec fn usable_before(sections: Sections, registered: Seq<Key>, count: int) -> bool {
    forall|j: int| 0 <= j < count && j < sections.len() ==> is_usable(#[trigger] sections[j], registered)
}

/// `report` is what a rebuild that went through says of the sections: every
/// section is usable, and the report names them in order, each with what was
/// installed for it.
pub open spec fn is_rebuild_report(sections: Sections, registered: Seq<Key>, report: Seq<Rebuilt>) -> bool {
    &&& report.len() == sections.len()
    &&& forall|i: int|
        0 <= i < report.len() ==> (#[trigger] report[i]).module@ == sections[i].0 && is_usable(
            sections[i],
            registered,
        ) && is_rebuilt(sections[i].1->Some_0, names_of(report[i].installed@))
}

/// `error` is a failure that a rebuild can end in: the first section that is
/// not usable, named with what is wrong with it, or a failure of the backend
/// of a section up to which all are usable.
pub open spec fn is_rebuild_failure(sections: Sections, registered: Seq<Key>, error: Error) -> bool {
    match error {
        Error::BackendNotFound(name) => exists|i: int|
            0 <= i < sections.len() && (#[trigger] sections[i]).0 == name@ && !registered.contains(
                name@,
            ) && usable_before(sections, registered, i),
        Error::CorruptManifest(name) => exists|i: int|
            0 <= i < sections.len() && (#[trigger] sections[i]).0 == name@ && registered.contains(
                name@,
            ) && sections[i].1 is None && usable_before(sections, registered, i),
        Error::BackendExecution(_) => exists|i: int|
            0 <= i < sections.len() && is_usable(#[trigger] sections[i], registered)
                && usable_before(sections, registered, i),
        _ => false,
    }
}

/// Which entries are unsatisfied depends on their names alone.
pub proof fn lemma_unsatisfied_keys<V, W>(a: Seq<(Key, V)>, b: Seq<(Key, W)>, listed: Set<Key>)
    requires
        keys_of(a) == keys_of(b),
    ensures
        keys_of(unsatisfied(a, listed)) == keys_of(unsatisfied(b, listed)),
    decreases a.len(),
{
    assert(keys_of(a).len() == a.len());
    assert(keys_of(b).len() == b.len());
    if a.len() > 0 {
        assert(keys_of(a)[a.len() - 1] == a.last().0);
        assert(keys_of(b)[b.len() - 1] == b.last().0);
        assert(keys_of(a.drop_last()) =~= keys_of(a).drop_last());
        assert(keys_of(b.drop_last()) =~= keys_of(b).drop_last());
        lemma_unsatisfied_keys(a.drop_last(), b.drop_last(), listed);
        let ua = unsatisfied(a.drop_last(), listed);
        let ub = unsatisfied(b.drop_last(), listed);
        if !listed.contains(a.last().0) {
            assert(keys_of(ua.push(a.last())) =~= keys_of(ua).push(a.last().0));
            assert(keys_of(ub.push(b.last())) =~= keys_of(ub).push(b.last().0));
        }
    } else {
        assert(keys_of(unsatisfied(a, listed)) =~= keys_of(unsatisfied(b, listed)));
    }
}

/// The version that a listing gives for `name`: that of the first pair with
/// this name.
pub open spec fn listed_version(explicit: Seq<(String, String)>, name: Key) -> Option<Seq<char>>
    decreases explicit.len(),
{
    if explicit.len() == 0 {
        None
    } else if explicit[0].0@ == name {
        Some(explicit[0].1@)
    } else {
        listed_version(explicit.drop_first(), name)
    }
}

/// The version that the backend's listing gives for the package `name`, if
/// the listing holds it.
pub fn reported_version(explicit: &Vec<(String, String)>, name: &str) -> (version: Option<String>)
    ensures
        text_of(version) == listed_version(explicit@, name@),
{
    let mut i: usize = 0;
    assert(explicit@.skip(0) =~= explicit@);
    while i < explicit.len()
        invariant
            i <= explicit.len(),
            listed_version(explicit@, name@) == listed_version(explicit@.skip(i as int), name@),
        decreases explicit.len() - i,
    {
        proof {
            let rest = explicit@.skip(i as int);
            assert(rest[0] == explicit@[i as int]);
            assert(rest.drop_first() =~= explicit@.skip(i as int + 1));
        }
        if same_text(explicit[i].0.as_str(), name) {
            return Some(explicit[i].1.clone());
        }
        i += 1;
    }
    assert(explicit@.skip(i as int).len() == 0);
    None
}

/// Whether the backend's listing holds `name`.
pub fn is_listed(explicit: &Vec<(String, String)>, name: &str) -> (listed: bool)
    ensures
        listed == listed_names(explicit@).contains(name@),
{
    let mut i: usize = 0;
    while i < explicit.len()
        invariant
            i <= explicit.len(),
            forall|k: int| 0 <= k < i ==> (#[trigger] explicit@[k]).0@ != name@,
        decreases explicit.len() - i,
    {
        if same_text(explicit[i].0.as_str(), name) {
            return true;
        }
        i += 1;
    }
    false
}

/// The packages among `entries` that the backend's listing does not hold,
/// in their order: those that a rebuild has to install.
pub fn pending(entries: &Vec<InstallationEntry>, explicit: &Vec<(String, String)>) -> (todo: Vec<
    InstallationEntry,
>)
    ensures
        entry_models(todo@) == unsatisfied(entry_models(entries@), listed_names(explicit@)),
{
    let mut todo: Vec<InstallationEntry> = Vec::new();
    let mut i: usize = 0;
    let ghost all = entry_models(entries@);
    let ghost listed = listed_names(explicit@);
    assert(all.take(0) =~= Seq::<(Key, Seq<(Key, Seq<char>)>)>::empty());
    assert(entry_models(todo@) =~= unsatisfied(all.take(0), listed));
    while i < entries.len()
        invariant
            i <= entries.len(),
            all == entry_models(entries@),
            listed == listed_names(explicit@),
            entry_models(todo@) == unsatisfied(all.take(i as int), listed),
        decreases entries.len() - i,
    {
        proof {
            let next = all.take(i as int + 1);
            assert(next.drop_last() =~= all.take(i as int));
            assert(next.last() == all[i as int]);
        }
        if !is_listed(explicit, entries[i].name.as_str()) {
            let ghost before = entry_models(todo@);
            todo.push(entries[i].clone());
            assert(entry_models(todo@) =~= before.push(all[i as int]));
        }
        i += 1;
    }
    assert(all.take(i as int) =~= all);
    todo
}

/// Brings the system up to one section of the manifest: asks the backend once
/// what is installed, installs every entry that its listing does not hold,
/// in order, and lets the backend finish. Stops at the first failure.
/// Returns the names of the packages that were installed.
pub fn rebuild_section<B: PackageManager>(
    backend: &B,
    context: &Context,
    entries: &Vec<InstallationEntry>,
) -> (done: Result<Vec<String>, Error>)
    ensures
        match done {
            Ok(installed) => is_rebuilt(entry_models(entries@), names_of(installed@)),
            Err(error) => error is BackendExecution,
        },
{
    let explicit = match backend.get_all_explicit(context) {
        Ok(explicit) => explicit,
        Err(failure) => {
            return Err(Error::BackendExecution(failure.message));
        },
    };
    let todo = pending(entries, &explicit);
    let mut installed: Vec<String> = Vec::new();
    let mut i: usize = 0;
    while i < todo.len()
        invariant
            i <= todo.len(),
            installed@.len() == i,
            forall|k: int| 0 <= k < i ==> (#[trigger] installed@[k])@ == todo@[k].name@,
        decreases todo.len() - i,
    {
        match backend.install(context, &todo[i]) {
            Ok(_) => {},
            Err(failure) => {
                return Err(Error::BackendExecution(failure.message));
            },
        }
        installed.push(todo[i].name.clone());
        i += 1;
    }
    match backend.post_install(context) {
        Ok(_) => {},
        Err(failure) => {
            return Err(Error::BackendExecution(failure.message));
        },
    }
    proof {
        let listed = listed_names(explicit@);
        assert(names_of(installed@) =~= keys_of(entry_models(todo@)));
        assert(names_of(installed@) == keys_of(unsatisfied(entry_models(entries@), listed)));
    }
    Ok(installed)
}

/// What a rebuild did for one section of the manifest.
pub struct Rebuilt {
    /// The section's name, which is its backend's.
    pub module: String,
    /// The names of the packages that were installed, in order.
    pub installed: Vec<String>,
}

/// Brings the system up to the manifest: section by section in the
/// manifest's order, each through the backend registered under the section's
/// name. Stops at the first section without a backend, at the first corrupt
/// section and at the first failure of a backend. The manifest is only read.
pub fn rebuild<B: PackageManager>(registry: &Registry<B>, context: &Context, manifest: &Manifest) -> (done:
    Result<Vec<Rebuilt>, Error>)
    ensures
        match done {
            Ok(report) => is_rebuild_report(manifest@, registry.names(), report@),
            Err(error) => is_rebuild_failure(manifest@, registry.names(), error),
        },
{
    let names = manifest.section_names();
    let ghost sections = manifest@;
    let mut report: Vec<Rebuilt> = Vec::new();
    let mut i: usize = 0;
    while i < names.len()
        invariant
            i <= names.len(),
            sections == manifest@,
            names@.len() == sections.len(),
            names_of(names@) == keys_of(sections),
            keys_distinct(sections),
            report@.len() == i,
            usable_before(sections, registry.names(), i as int),
            forall|k: int|
                0 <= k < i ==> (#[trigger] report@[k]).module@ == sections[k].0 && is_usable(
                    sections[k],
                    registry.names(),
                ) && is_rebuilt(sections[k].1->Some_0, names_of(report@[k].installed@)),
        decreases names.len() - i,
    {
        let name = names[i].as_str();
        proof {
            assert(names_of(names@)[i as int] == names@[i as int]@);
            assert(keys_of(sections)[i as int] == sections[i as int].0);
            lemma_lookup_at(sections, i as int);
        }
        let backend = match registry.require(name) {
            Ok(backend) => backend,
            Err(error) => {
                assert(sections[i as int].0 == error.subject());
                return Err(error);
            },
        };
        let entries = match manifest.section(name) {
            Ok(entries) => entries,
            Err(error) => {
                assert(sections[i as int].0 == error.subject());
                return Err(error);
            },
        };
        let installed = match rebuild_section(backend, context, &entries) {
            Ok(installed) => installed,
            Err(error) => {
                assert(is_usable(sections[i as int], registry.names()));
                return Err(error);
            },
        };
        proof {
            let recorded = sections[i as int].1->Some_0;
            assert(recorded == section_entries(sections, name@));
            let listed = choose|listed: Set<Key>|
                names_of(installed@) == keys_of(
                    #[trigger] unsatisfied(entry_models(entries@), listed),
                );
            assert(keys_of(entry_models(entries@)) =~= keys_of(recorded));
            lemma_unsatisfied_keys(entry_models(entries@), recorded, listed);
            assert(names_of(installed@) == keys_of(unsatisfied(recorded, listed)));
        }
        let ghost before = report@;
        report.push(Rebuilt { module: names[i].clone(), installed });
        assert(forall|k: int| 0 <= k < i ==> report@[k] == before[k]);
        i += 1;
    }
    Ok(report)
}

/// The properties recorded for a package that was found installed: its
/// version.
pub open spec fn version_only(version: Seq<char>) -> Props {
    seq![(version_key(), Some(version))]
}

/// What is recorded for `name` once the packages `pairs`, each a name with
/// its version, have been imported in order into a section that held
/// `recorded`.
pub open spec fn imported(recorded: Entries, pairs: Seq<(Key, Seq<char>)>, name: Key) -> Option<Props>
    decreases pairs.len(),
{
    if pairs.len() == 0 {
        lookup(recorded, name)
    } else if pairs.last().0 == name {
        Some(version_only(pairs.last().1))
    } else {
        imported(recorded, pairs.drop_last(), name)
    }
}

/// `after` is `before` with the packages `pairs` imported into the section of
/// `backend`: that section is a table that holds, for every name, what
/// `imported` says; every other section is as before and in the same order;
/// the section keeps its place if it was there. With nothing to import the
/// manifest stays as it is.
pub open spec fn is_import(
    before: Sections,
    after: Sections,
    backend: Key,
    pairs: Seq<(Key, Seq<char>)>,
) -> bool {
    if pairs.len() == 0 {
        after == before
    } else {
        &&& !is_corrupt(before, backend)
        &&& well_formed(after)
        &&& has_key(after, backend)
        &&& !is_corrupt(after, backend)
        &&& without(after, backend) == without(before, backend)
        &&& has_key(before, backend) ==> index_of(after, backend) == index_of(before, backend)
        &&& forall|name: Key|
            lookup(section_entries(after, backend), name) == #[trigger] imported(
                section_entries(before, backend),
                pairs,
                name,
            )
    }
}

/// `text` is the text of a manifest that is `before` with the packages
/// `pairs` imported into the section of `backend`.
pub open spec fn is_snapshot(
    before: Sections,
    text: Seq<char>,
    backend: Key,
    pairs: Seq<(Key, Seq<char>)>,
) -> bool {
    exists|manifest: Manifest| #[trigger]
        manifest.text() == text && is_import(before, manifest@, backend, pairs)
}

/// Each text is the manifest after one more package of `pairs` was
/// imported.
pub open spec fn are_snapshots(
    before: Sections,
    writes: Seq<String>,
    backend: Key,
    pairs: Seq<(Key, Seq<char>)>,
) -> bool {
    forall|k: int|
        0 <= k < writes.len() ==> is_snapshot(
            before,
            (#[trigger] writes[k])@,
            backend,
            pairs.take(k + 1),
        )
}

/// Records every package of `installed`, each a name with its version, in
/// the section of `backend`, in order, without asking the backend again.
/// Returns the text of the manifest after each package: what to write to the
/// manifest's file, in this order. Fails, and changes nothing, exactly where
/// there is something to import and the section is corrupt.
pub fn import_all(manifest: &mut Manifest, backend: &str, installed: &Vec<(String, String)>) -> (done:
    Result<Vec<String>, Error>)
    ensures
        match done {
            Ok(writes) => is_import(
                old(manifest)@,
                final(manifest)@,
                backend@,
                pairs_of(installed@),
            ) && writes@.len() == installed@.len() && (installed@.len() == 0 ==> *final(manifest)
                == *old(manifest)) && (installed@.len() > 0 ==> writes@.last()@ == final(
                manifest).text()) && are_snapshots(
                old(manifest)@,
                writes@,
                backend@,
                pairs_of(installed@),
            ),
            Err(error) => installed@.len() > 0 && is_corrupt(old(manifest)@, backend@)
                && *final(manifest) == *old(manifest) && error is CorruptManifest
                && error.subject() == backend@,
        },
        done is Err <==> installed@.len() > 0 && is_corrupt(old(manifest)@, backend@),
{
    let mut writes: Vec<String> = Vec::new();
    let mut i: usize = 0;
    let ghost pairs = pairs_of(installed@);
    assert(pairs.take(0) =~= Seq::<(Key, Seq<char>)>::empty());
    while i < installed.len()
        invariant
            i <= installed.len(),
            pairs == pairs_of(installed@),
            writes@.len() == i,
            i == 0 ==> *manifest == *old(manifest),
            i > 0 ==> writes@.last()@ == manifest.text(),
            is_import(old(manifest)@, manifest@, backend@, pairs.take(i as int)),
            are_snapshots(old(manifest)@, writes@, backend@, pairs),
        decreases installed.len() - i,
    {
        let ghost current = manifest@;
        let mut properties = Properties::new();
        properties.insert("version".to_owned(), installed[i].1.clone());
        let package = InstallationEntry { name: installed[i].0.clone(), properties };
        let ghost props = stored(with_version(package.properties@, None));
        proof {
            let held = package.properties@;
            assert(held =~= seq![(version_key(), installed@[i as int].1@)]);
            assert(held[0].0 == version_key());
            assert(has_key(held, version_key()));
            assert(props =~= version_only(pairs[i as int].1));
        }
        match record(manifest, backend, package, None) {
            Ok(_) => {},
            Err(error) => {
                proof {
                    if i > 0 {
                        assert(!is_corrupt(current, backend@));
                    }
                }
                return Err(error);
            },
        }
        proof {
            let next = pairs.take(i as int + 1);
            let name = pairs[i as int].0;
            assert(next.drop_last() =~= pairs.take(i as int));
            assert(next.last() == pairs[i as int]);
            let first = section_entries(old(manifest)@, backend@);
            let held = section_entries(current, backend@);
            let now = section_entries(manifest@, backend@);
            assert(is_upsert(current, manifest@, backend@, name, props));
            lemma_lookup_at(manifest@, index_of(manifest@, backend@));
            assert forall|other: Key|
                lookup(now, other) == #[trigger] imported(first, next, other) by {
                if other != name {
                    lemma_is_put_others(held, now, name, props, other);
                    assert(lookup(held, other) == imported(first, pairs.take(i as int), other));
                }
            }
        }
        let ghost written = writes@;
        writes.push(manifest.render());
        proof {
            assert(is_import(old(manifest)@, manifest@, backend@, pairs.take(i as int + 1)));
            assert forall|k: int| 0 <= k < writes@.len() implies is_snapshot(
                old(manifest)@,
                (#[trigger] writes@[k])@,
                backend@,
                pairs.take(k + 1),
            ) by {
                if k < i {
                    assert(writes@[k] == written[k]);
                } else {
                    assert(manifest.text() == writes@[k]@);
                }
            }
        }
        i += 1;
    }
    assert(pairs.take(i as int) =~= pairs);
    Ok(writes)
}

/// Records in the manifest every package that the backend lists as
/// installed, each with its version, without installing anything. Returns
/// the text of the manifest after each package: what to write to the
/// manifest's file, in this order.
pub fn import_installed<B: PackageManager>(
    backend: &B,
    context: &Context,
    manifest: &mut Manifest,
    section: &str,
) -> (done: Result<Vec<String>, Error>)
    ensures
        match done {
            Ok(writes) => exists|pairs: Seq<(Key, Seq<char>)>|
                #[trigger] is_import(old(manifest)@, final(manifest)@, section@, pairs)
                    && writes@.len() == pairs.len() && (pairs.len() > 0 ==> writes@.last()@
                    == final(manifest).text()) && (pairs.len() == 0 ==> *final(manifest)
                    == *old(manifest)) && are_snapshots(old(manifest)@, writes@, section@, pairs),
            Err(error) => *final(manifest) == *old(manifest) && if error is CorruptManifest {
                is_corrupt(old(manifest)@, section@) && error.subject() == section@
            } else {
                error is BackendExecution
            },
        },
{
    let installed = match backend.get_all_explicit(context) {
        Ok(installed) => installed,
        Err(failure) => {
            return Err(Error::BackendExecution(failure.message));
        },
    };
    let done = import_all(manifest, section, &installed);
    proof {
        if done is Ok {
            assert(is_import(old(manifest)@, manifest@, section@, pairs_of(installed@)));
            assert(pairs_of(installed@).len() == installed@.len());
        }
    }
    done
}

/// What the user asks for, of one backend.
pub enum Command {
    /// Install a package and record it.
    Install { package_name: String },
    /// Remove a package and take it out of the manifest.
    Remove { package_name: String },
    /// Install whatever the manifest records and the system lacks.
    Rebuild,
    /// Record whatever the backend lists as installed.
    LoadInstalled,
}

/// What a command did, and what is left to do for the caller.
pub struct Outcome {
    /// The texts to write to the manifest's file, in this order. A text that
    /// cannot be written is a failure of the kind `Error::Persist`: the
    /// system was changed already.
    pub writes: Vec<String>,
    /// What a rebuild installed, section by section.
    pub rebuilt: Vec<Rebuilt>,
}

/// The outcome says to write the manifest once, as it is now.
pub open spec fn writes_once(outcome: Outcome, manifest: Manifest) -> bool {
    outcome.writes@.len() == 1 && outcome.writes@[0]@ == manifest.text() && outcome.rebuilt@.len()
        == 0
}

/// Carries out `command` for the backend `distro`, which is registered under
/// `module`. The manifest is changed only after the backend has succeeded,
/// and whenever the command fails the manifest is as it was and nothing is
/// to be written.
pub fn run<B: PackageManager>(
    distro: &B,
    registry: &Registry<B>,
    context: &Context,
    manifest: &mut Manifest,
    module: &str,
    command: Command,
) -> (done: Result<Outcome, Error>)
    ensures
        match done {
            Ok(outcome) => match command {
                Command::Install { package_name } => writes_once(outcome, *final(manifest))
                    && exists|reported: Option<Seq<char>>| #[trigger]
                        is_upsert(
                            old(manifest)@,
                            final(manifest)@,
                            module@,
                            package_name@,
                            stored(with_version(Seq::empty(), reported)),
                        ),
                Command::Remove { package_name } => writes_once(outcome, *final(manifest))
                    && is_forgotten(old(manifest)@, final(manifest)@, module@, package_name@),
                Command::Rebuild => *final(manifest) == *old(manifest) && outcome.writes@.len() == 0
                    && is_rebuild_report(old(manifest)@, registry.names(), outcome.rebuilt@),
                Command::LoadInstalled => outcome.rebuilt@.len() == 0 && exists|
                    pairs: Seq<(Key, Seq<char>)>,
                |
                    #[trigger] is_import(old(manifest)@, final(manifest)@, module@, pairs)
                        && outcome.writes@.len() == pairs.len() && (pairs.len() > 0
                        ==> outcome.writes@.last()@ == final(manifest).text()) && (pairs.len() == 0
                        ==> *final(manifest) == *old(manifest)) && are_snapshots(
                        old(manifest)@,
                        outcome.writes@,
                        module@,
                        pairs,
                    ),
            },
            Err(error) => *final(manifest) == *old(manifest) && if command is Rebuild {
                is_rebuild_failure(old(manifest)@, registry.names(), error)
            } else if error is CorruptManifest {
                is_corrupt(old(manifest)@, module@) && error.subject() == module@
            } else {
                error is BackendExecution
            },
        },
{
    match command {
        Command::Install { package_name } => {
            let package = InstallationEntry { name: package_name, properties: Properties::new() };
            match install(distro, context, manifest, module, package, true) {
                Ok(_) => {},
                Err(error) => {
                    return Err(error);
                },
            }
            let mut writes: Vec<String> = Vec::new();
            writes.push(manifest.render());
            Ok(Outcome { writes, rebuilt: Vec::new() })
        },
        Command::Remove { package_name } => {
            match remove(distro, context, manifest, module, package_name.as_str()) {
                Ok(_) => {},
                Err(error) => {
                    return Err(error);
                },
            }
            let mut writes: Vec<String> = Vec::new();
            writes.push(manifest.render());
            Ok(Outcome { writes, rebuilt: Vec::new() })
        },
        Command::Rebuild => {
            match rebuild(registry, context, manifest) {
                Ok(rebuilt) => Ok(Outcome { writes: Vec::new(), rebuilt }),
                Err(error) => Err(error),
            }
        },
        Command::LoadInstalled => {
            match import_installed(distro, context, manifest, module) {
                Ok(writes) => Ok(Outcome { writes, rebuilt: Vec::new() }),
                Err(error) => Err(error),
            }
        },
    }
}

} // verus!
