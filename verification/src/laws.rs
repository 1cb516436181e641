//! What holds of the operations taken together, stated over the relations
//! that their contracts use.

use vstd::prelude::*;
use crate::keyed::Key;
use crate::keyed::Props;
use crate::keyed::Entries;
use crate::keyed::Sections;
use crate::keyed::has_key;
use crate::keyed::index_of;
use crate::keyed::keys_distinct;
use crate::keyed::lookup;
use crate::keyed::without;
use crate::keyed::lemma_lookup_at;
use crate::keyed::lemma_lookup_without;
use crate::keyed::lemma_put_is_put;
use crate::keyed::lemma_without_members;
use crate::document::well_formed;
use crate::document::keys_of;
use crate::entry::stored;
use crate::manifest::is_upsert;
use crate::manifest::section_entries;
use crate::reconciler::imported;
use crate::reconciler::is_forgotten;
use crate::reconciler::is_import;
use crate::reconciler::latest;
use crate::reconciler::unsatisfied;
use crate::reconciler::version_key;
use crate::reconciler::version_only;
use crate::reconciler::with_version;

verus! {

/// The version that is recorded for a package: the reported one, else the
/// one among its properties, else `latest`.
pub open spec fn recorded_version(properties: Seq<(Key, Seq<char>)>, reported: Option<Seq<char>>) -> Seq<
    char,
> {
    match reported {
        Some(version) => version,
        None => match lookup(properties, version_key()) {
            Some(version) => version,
            None => latest(),
        },
    }
}

/// What is found among stored properties is what was found before they were
/// stored.
pub proof fn lemma_stored_lookup(properties: Seq<(Key, Seq<char>)>, key: Key)
    requires
        keys_distinct(properties),
    ensures
        keys_distinct(stored(properties)),
        lookup(stored(properties), key) == match lookup(properties, key) {
            Some(value) => Some(Some(value)),
            None => None,
        },
{
    let s = stored(properties);
    assert forall|i: int, j: int|
        0 <= i < s.len() && 0 <= j < s.len() && (#[trigger] s[i]).0 == (#[trigger] s[j]).0 implies i
        == j by {
        assert(properties[i].0 == properties[j].0);
    }
    if has_key(properties, key) {
        let i = index_of(properties, key);
        assert(s[i].0 == key);
        lemma_lookup_at(s, i);
    } else if has_key(s, key) {
        let i = index_of(s, key);
        assert(properties[i].0 == key);
    }
}

/// The properties to record hold the version to record.
pub proof fn lemma_with_version(properties: Seq<(Key, Seq<char>)>, reported: Option<Seq<char>>)
    requires
        keys_distinct(properties),
    ensures
        keys_distinct(with_version(properties, reported)),
        lookup(with_version(properties, reported), version_key()) == Some(
            recorded_version(properties, reported),
        ),
{
    match reported {
        Some(version) => {
            lemma_put_is_put(properties, version_key(), version);
        },
        None => {
            if !has_key(properties, version_key()) {
                lemma_put_is_put(properties, version_key(), latest());
            }
        },
    }
}

/// A package that was installed is recorded: the section of its backend is a
/// table that holds the package, with a version among its properties that is
/// not empty. This is stated for a backend that does not report an empty
/// version, and a package that does not come with one.
pub proof fn lemma_installed_is_recorded(
    before: Sections,
    after: Sections,
    backend: Key,
    name: Key,
    properties: Seq<(Key, Seq<char>)>,
    reported: Option<Seq<char>>,
)
    requires
        keys_distinct(properties),
        is_upsert(before, after, backend, name, stored(with_version(properties, reported))),
        reported != Some(Seq::<char>::empty()),
        lookup(properties, version_key()) != Some(Seq::<char>::empty()),
    ensures
        lookup(after, backend) is Some,
        lookup(after, backend)->Some_0 is Some,
        lookup(section_entries(after, backend), name) is Some,
        lookup(lookup(section_entries(after, backend), name)->Some_0, version_key()) == Some(
            Some(recorded_version(properties, reported)),
        ),
        recorded_version(properties, reported).len() > 0,
{
    lemma_with_version(properties, reported);
    lemma_stored_lookup(with_version(properties, reported), version_key());
    reveal_strlit("latest");
    if recorded_version(properties, reported).len() == 0 {
        assert(recorded_version(properties, reported) =~= Seq::<char>::empty());
    }
}

/// Removing a package that was installed leaves no entry for it, and
/// removing it once more leaves the manifest as it is.
pub proof fn lemma_remove_after_install(
    first: Sections,
    installed: Sections,
    removed: Sections,
    again: Sections,
    backend: Key,
    name: Key,
    props: Props,
)
    requires
        is_upsert(first, installed, backend, name, props),
        is_forgotten(installed, removed, backend, name),
        is_forgotten(removed, again, backend, name),
    ensures
        !has_key(section_entries(removed, backend), name),
        again == removed,
{
    let held = section_entries(installed, backend);
    assert(has_key(held, name));
    lemma_without_members(held, name);
}

/// A rebuild has nothing to install where the backend lists every entry.
pub proof fn lemma_rebuild_satisfied<V>(recorded: Seq<(Key, V)>, listed: Set<Key>)
    requires
        forall|i: int| 0 <= i < recorded.len() ==> listed.contains((#[trigger] recorded[i]).0),
    ensures
        unsatisfied(recorded, listed) == Seq::<(Key, V)>::empty(),
    decreases recorded.len(),
{
    if recorded.len() > 0 {
        let rest = recorded.drop_last();
        assert forall|i: int| 0 <= i < rest.len() implies listed.contains((#[trigger] rest[i]).0) by {
            assert(rest[i] == recorded[i]);
        }
        lemma_rebuild_satisfied(rest, listed);
        assert(listed.contains(recorded[recorded.len() - 1].0));
    }
}

/// Every entry is either listed or among the unsatisfied ones.
pub proof fn lemma_unsatisfied_covers<V>(recorded: Seq<(Key, V)>, listed: Set<Key>)
    ensures
        forall|i: int|
            0 <= i < recorded.len() ==> listed.contains((#[trigger] recorded[i]).0) || keys_of(
                unsatisfied(recorded, listed),
            ).contains(recorded[i].0),
    decreases recorded.len(),
{
    if recorded.len() > 0 {
        let rest = recorded.drop_last();
        lemma_unsatisfied_covers(rest, listed);
        let todo = unsatisfied(recorded, listed);
        assert forall|i: int| 0 <= i < recorded.len() implies listed.contains(
            (#[trigger] recorded[i]).0,
        ) || keys_of(todo).contains(recorded[i].0) by {
            if !listed.contains(recorded[i].0) {
                if i < rest.len() {
                    assert(rest[i] == recorded[i]);
                    let earlier = keys_of(unsatisfied(rest, listed));
                    assert(earlier.contains(rest[i].0));
                    let k = choose|k: int| 0 <= k < earlier.len() && earlier[k] == rest[i].0;
                    assert(unsatisfied(rest, listed)[k].0 == rest[i].0);
                    if listed.contains(recorded.last().0) {
                        assert(keys_of(todo)[k] == recorded[i].0);
                    } else {
                        assert(todo[k] == unsatisfied(rest, listed)[k]);
                        assert(keys_of(todo)[k] == recorded[i].0);
                    }
                } else {
                    assert(todo.last() == recorded[i]);
                    assert(keys_of(todo)[todo.len() - 1] == recorded[i].0);
                }
            }
        }
    }
}

/// A second rebuild installs nothing: where the backend still lists what it
/// listed at the first rebuild, and now lists what the first rebuild
/// installed, no entry is left unsatisfied.
pub proof fn lemma_rebuild_twice<V>(recorded: Seq<(Key, V)>, first: Set<Key>, second: Set<Key>)
    requires
        first.subset_of(second),
        forall|k: int|
            0 <= k < unsatisfied(recorded, first).len() ==> second.contains(
                (#[trigger] unsatisfied(recorded, first)[k]).0,
            ),
    ensures
        unsatisfied(recorded, second) == Seq::<(Key, V)>::empty(),
{
    lemma_unsatisfied_covers(recorded, first);
    let todo = unsatisfied(recorded, first);
    assert forall|i: int| 0 <= i < recorded.len() implies second.contains(
        (#[trigger] recorded[i]).0,
    ) by {
        if !first.contains(recorded[i].0) {
            assert(keys_of(todo).contains(recorded[i].0));
            let k = choose|k: int| 0 <= k < keys_of(todo).len() && keys_of(todo)[k] == recorded[i].0;
            assert(todo[k].0 == recorded[i].0);
        }
    }
    lemma_rebuild_satisfied(recorded, second);
}

/// What an import records for a name that is not among the imported ones is
/// what was recorded before.
pub proof fn lemma_imported_other(recorded: Entries, pairs: Seq<(Key, Seq<char>)>, name: Key)
    requires
        !has_key(pairs, name),
    ensures
        imported(recorded, pairs, name) == lookup(recorded, name),
    decreases pairs.len(),
{
    if pairs.len() > 0 {
        let rest = pairs.drop_last();
        assert(pairs[pairs.len() - 1].0 != name);
        assert forall|i: int| 0 <= i < rest.len() implies (#[trigger] rest[i]).0 != name by {
            assert(rest[i] == pairs[i]);
        }
        lemma_imported_other(recorded, rest, name);
    }
}

/// What an import records for one of the imported names is its version,
/// where no name is imported twice.
pub proof fn lemma_imported_named(recorded: Entries, pairs: Seq<(Key, Seq<char>)>, i: int)
    requires
        keys_distinct(pairs),
        0 <= i < pairs.len(),
    ensures
        imported(recorded, pairs, pairs[i].0) == Some(version_only(pairs[i].1)),
    decreases pairs.len(),
{
    if i < pairs.len() - 1 {
        let rest = pairs.drop_last();
        assert(pairs[pairs.len() - 1].0 != pairs[i].0);
        assert forall|a: int, b: int|
            0 <= a < rest.len() && 0 <= b < rest.len() && (#[trigger] rest[a]).0 == (#[trigger] rest[b]).0 implies a
            == b by {
            assert(rest[a] == pairs[a]);
            assert(rest[b] == pairs[b]);
        }
        assert(rest[i] == pairs[i]);
        lemma_imported_named(recorded, rest, i);
    }
}

/// What an import records for one of the imported names does not depend on
/// what was recorded before.
pub proof fn lemma_imported_fresh(
    recorded: Entries,
    other: Entries,
    pairs: Seq<(Key, Seq<char>)>,
    name: Key,
)
    requires
        has_key(pairs, name),
    ensures
        imported(recorded, pairs, name) == imported(other, pairs, name),
    decreases pairs.len(),
{
    if pairs.len() > 0 && pairs.last().0 != name {
        let rest = pairs.drop_last();
        let i = index_of(pairs, name);
        assert(rest[i] == pairs[i]);
        assert(has_key(rest, name));
        lemma_imported_fresh(recorded, other, rest, name);
    }
}

/// Importing the same listing once more changes no entry of the section.
pub proof fn lemma_import_settles(
    first: Sections,
    once: Sections,
    twice: Sections,
    backend: Key,
    pairs: Seq<(Key, Seq<char>)>,
)
    requires
        is_import(first, once, backend, pairs),
        is_import(once, twice, backend, pairs),
    ensures
        forall|name: Key|
            #[trigger] lookup(section_entries(twice, backend), name) == lookup(
                section_entries(once, backend),
                name,
            ),
        without(twice, backend) == without(once, backend),
{
    if pairs.len() > 0 {
        let held = section_entries(first, backend);
        let now = section_entries(once, backend);
        let then = section_entries(twice, backend);
        assert forall|name: Key| #[trigger] lookup(then, name) == lookup(now, name) by {
            assert(lookup(then, name) == imported(now, pairs, name));
            assert(lookup(now, name) == imported(held, pairs, name));
            if has_key(pairs, name) {
                lemma_imported_fresh(now, held, pairs, name);
            } else {
                lemma_imported_other(now, pairs, name);
            }
        }
    }
}

/// An import converges on what the backend lists: afterwards the backend's
/// section holds every listed package with exactly its version, every other
/// entry of the section is as before, and every other section is untouched.
/// So a section that was empty holds exactly the listed packages.
pub proof fn lemma_import_converges(
    before: Sections,
    after: Sections,
    backend: Key,
    pairs: Seq<(Key, Seq<char>)>,
)
    requires
        well_formed(before),
        keys_distinct(pairs),
        is_import(before, after, backend, pairs),
    ensures
        forall|i: int|
            0 <= i < pairs.len() ==> lookup(
                section_entries(after, backend),
                (#[trigger] pairs[i]).0,
            ) == Some(version_only(pairs[i].1)),
        forall|name: Key|
            !has_key(pairs, name) ==> #[trigger] lookup(section_entries(after, backend), name)
                == lookup(section_entries(before, backend), name),
        forall|other: Key| other != backend ==> #[trigger] lookup(after, other) == lookup(before, other),
        without(after, backend) == without(before, backend),
{
    let held = section_entries(before, backend);
    let now = section_entries(after, backend);
    if pairs.len() > 0 {
        assert forall|i: int| 0 <= i < pairs.len() implies lookup(now, (#[trigger] pairs[i]).0)
            == Some(version_only(pairs[i].1)) by {
            lemma_imported_named(held, pairs, i);
            assert(lookup(now, pairs[i].0) == imported(held, pairs, pairs[i].0));
        }
        assert forall|name: Key| !has_key(pairs, name) implies #[trigger] lookup(now, name)
            == lookup(held, name) by {
            lemma_imported_other(held, pairs, name);
            assert(lookup(now, name) == imported(held, pairs, name));
        }
        assert forall|other: Key| other != backend implies #[trigger] lookup(after, other)
            == lookup(before, other) by {
            lemma_lookup_without(before, backend, other);
            lemma_lookup_without(after, backend, other);
        }
    }
}

} // verus!
