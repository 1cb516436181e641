//! What is asked of a backend: a package by name, with its properties, and
//! the settings that every backend call receives.

use vstd::prelude::*;
use vstd::string::StringExecFns;
use crate::keyed::Key;
use crate::keyed::Props;
use crate::keyed::keys_distinct;
use crate::keyed::has_key;
use crate::keyed::index_of;
use crate::keyed::lookup;
use crate::keyed::put;
use crate::keyed::lemma_lookup_at;
use crate::keyed::lemma_put_is_put;
use crate::text::same_text;

verus! {

/// The properties as a manifest entry holds them: every value is a string.
pub open spec fn stored(properties: Seq<(Key, Seq<char>)>) -> Props {
    Seq::new(properties.len(), |i: int| (properties[i].0, Some(properties[i].1)))
}

/// The pairs that a list of strings stands for.
pub open spec fn pairs_of(pairs: Seq<(String, String)>) -> Seq<(Key, Seq<char>)> {
    Seq::new(pairs.len(), |i: int| (pairs[i].0@, pairs[i].1@))
}

/// String properties of a package, each key at most once, in the order in
/// which the keys were first set.
pub struct Properties {
    pairs: Vec<(String, String)>,
}

impl View for Properties {
    type V = Seq<(Key, Seq<char>)>;

    closed spec fn view(&self) -> Seq<(Key, Seq<char>)> {
        pairs_of(self.pairs@)
    }
}

impl Properties {
    #[verifier::type_invariant]
    spec fn distinct(&self) -> bool {
        keys_distinct(pairs_of(self.pairs@))
    }

    /// No properties.
    pub fn new() -> (properties: Properties)
        ensures
            properties@ == Seq::<(Key, Seq<char>)>::empty(),
    {
        let properties = Properties { pairs: Vec::new() };
        assert(properties@ =~= Seq::<(Key, Seq<char>)>::empty());
        properties
    }

    /// The number of properties.
    pub fn len(&self) -> (n: usize)
        ensures
            n == self@.len(),
    {
        self.pairs.len()
    }

    /// The position of `key` among the pairs, if it is there.
    fn position(&self, key: &str) -> (found: Option<usize>)
        ensures
            keys_distinct(self@),
            match found {
                Some(i) => i < self@.len() && self@[i as int].0 == key@ && has_key(self@, key@)
                    && index_of(self@, key@) == i,
                None => !has_key(self@, key@),
            },
    {
        proof {
            use_type_invariant(self);
        }
        let mut i: usize = 0;
        while i < self.pairs.len()
            invariant
                i <= self.pairs.len(),
                keys_distinct(self@),
                forall|k: int| 0 <= k < i ==> (#[trigger] self@[k]).0 != key@,
            decreases self.pairs.len() - i,
        {
            if same_text(self.pairs[i].0.as_str(), key) {
                proof {
                    lemma_lookup_at(self@, i as int);
                }
                return Some(i);
            }
            i += 1;
        }
        None
    }

    /// The value stored under `key`, if any.
    pub fn get(&self, key: &str) -> (value: Option<&String>)
        ensures
            match value {
                Some(text) => lookup(self@, key@) == Some(text@),
                None => lookup(self@, key@) is None,
            },
    {
        match self.position(key) {
            Some(i) => Some(&self.pairs[i].1),
            None => None,
        }
    }

    /// Stores `value` under `key`, in place of what was stored there.
    pub fn insert(&mut self, key: String, value: String)
        ensures
            final(self)@ == put(old(self)@, key@, value@),
            keys_distinct(final(self)@),
    {
        let found = self.position(key.as_str());
        proof {
            lemma_put_is_put(self@, key@, value@);
        }
        let mut taken = Properties::new();
        core::mem::swap(self, &mut taken);
        let Properties { mut pairs } = taken;
        match found {
            Some(i) => {
                pairs.set(i, (key, value));
            },
            None => {
                pairs.push((key, value));
            },
        }
        assert(pairs_of(pairs@) =~= put(old(self)@, key@, value@));
        *self = Properties { pairs };
    }

    /// The pairs, in order.
    pub fn pairs(&self) -> (pairs: &Vec<(String, String)>)
        ensures
            pairs_of(pairs@) == self@,
            keys_distinct(self@),
    {
        proof {
            use_type_invariant(self);
        }
        &self.pairs
    }
}

impl Clone for Properties {
    fn clone(&self) -> (copy: Properties)
        ensures
            copy@ == self@,
    {
        proof {
            use_type_invariant(self);
        }
        let mut pairs: Vec<(String, String)> = Vec::new();
        let mut i: usize = 0;
        while i < self.pairs.len()
            invariant
                i <= self.pairs.len(),
                pairs@.len() == i,
                forall|k: int| 0 <= k < i ==> (#[trigger] pairs@[k]) == self.pairs@[k],
            decreases self.pairs.len() - i,
        {
            pairs.push((self.pairs[i].0.clone(), self.pairs[i].1.clone()));
            i += 1;
        }
        assert(pairs@ =~= self.pairs@);
        Properties { pairs }
    }
}

/// A package handed to a backend: its name, and the properties that go with
/// it, such as the source to install it from.
pub struct InstallationEntry {
    pub name: String,
    pub properties: Properties,
}

impl Clone for InstallationEntry {
    fn clone(&self) -> (copy: InstallationEntry)
        ensures
            copy.name@ == self.name@,
            copy.properties@ == self.properties@,
    {
        InstallationEntry { name: self.name.clone(), properties: self.properties.clone() }
    }
}

/// Where the sources of the program and of its backends are kept.
pub struct DarlingConfig {
    pub source_location: String,
}

impl DarlingConfig {
    /// The sources' place below a user's home directory.
    pub open spec fn source_below(home: Seq<char>) -> Seq<char> {
        home + "/.local/share/darling/source"@
    }

    /// The settings of the user whose home directory is `home`.
    pub fn for_home(home: &str) -> (config: DarlingConfig)
        ensures
            config.source_location@ == Self::source_below(home@),
    {
        DarlingConfig {
            source_location: String::from_str(home).concat("/.local/share/darling/source"),
        }
    }
}

/// What every backend call receives.
pub struct Context {
    pub config: DarlingConfig,
}

} // verus!
