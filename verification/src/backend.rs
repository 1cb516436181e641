//! What a backend has to offer, and the registry that finds a backend by its
//! name.

use vstd::prelude::*;
use crate::keyed::Key;
use crate::entry::Context;
use crate::entry::InstallationEntry;
use crate::error::Error;
use crate::text::same_text;

verus! {

/// Why a backend could not do what was asked.
pub struct BackendFailure {
    pub message: String,
}

/// One package ecosystem: installs, removes and lists packages on the real
/// system. A backend never touches the manifest.
pub trait PackageManager: Send + Sync {
    /// The backend's name: what the user selects it by, and the name of its
    /// section in the manifest.
    fn name(&self) -> String;

    /// Installs the package on the system. Returns the version that was
    /// installed where the backend can tell.
    fn install(&self, context: &Context, package: &InstallationEntry) -> Result<
        Option<String>,
        BackendFailure,
    >;

    /// Finishes a run of installs.
    fn post_install(&self, context: &Context) -> Result<(), BackendFailure>;

    /// Removes the package from the system.
    fn uninstall(&self, context: &Context, package: &InstallationEntry) -> Result<
        (),
        BackendFailure,
    >;

    /// The packages that were installed on the system by request, not as
    /// dependencies of others: each name with its version.
    fn get_all_explicit(&self, context: &Context) -> Result<Vec<(String, String)>, BackendFailure>;
}

/// The names under which backends are registered.
pub open spec fn registered_names<B>(entries: Seq<(String, B)>) -> Seq<Key> {
    Seq::new(entries.len(), |i: int| entries[i].0@)
}

/// The backends of this process, each under its own name.
pub struct Registry<B> {
    entries: Vec<(String, B)>,
}

impl<B> Registry<B> {
    /// The registered names, in the order of registration.
    pub closed spec fn names(&self) -> Seq<Key> {
        registered_names(self.entries@)
    }

    /// The registered backends, in the order of registration.
    pub closed spec fn backends(&self) -> Seq<B> {
        Seq::new(self.entries@.len(), |i: int| self.entries@[i].1)
    }

    #[verifier::type_invariant]
    spec fn distinct(&self) -> bool {
        registered_names(self.entries@).no_duplicates()
    }

    /// A registry without backends.
    pub fn new() -> (registry: Registry<B>)
        ensures
            registry.names() == Seq::<Key>::empty(),
            registry.backends() == Seq::<B>::empty(),
    {
        let registry = Registry { entries: Vec::new() };
        assert(registry.names() =~= Seq::<Key>::empty());
        assert(registry.backends() =~= Seq::<B>::empty());
        registry
    }

    /// The number of registered backends.
    pub fn len(&self) -> (n: usize)
        ensures
            n == self.names().len(),
            n == self.backends().len(),
    {
        self.entries.len()
    }

    /// The position of `name` among the registered names.
    pub fn position(&self, name: &str) -> (found: Option<usize>)
        ensures
            self.names().no_duplicates(),
            self.names().len() == self.backends().len(),
            match found {
                Some(i) => i < self.names().len() && self.names()[i as int] == name@,
                None => !self.names().contains(name@),
            },
    {
        proof {
            use_type_invariant(self);
        }
        let mut i: usize = 0;
        while i < self.entries.len()
            invariant
                i <= self.entries.len(),
                self.names().no_duplicates(),
                self.names().len() == self.backends().len(),
                forall|k: int| 0 <= k < i ==> (#[trigger] self.names()[k]) != name@,
            decreases self.entries.len() - i,
        {
            if same_text(self.entries[i].0.as_str(), name) {
                return Some(i);
            }
            i += 1;
        }
        None
    }

    /// The backend registered under `name`.
    pub fn resolve(&self, name: &str) -> (found: Option<&B>)
        ensures
            match found {
                Some(backend) => self.names().contains(name@) && *backend
                    == self.backends()[self.names().index_of(name@)],
                None => !self.names().contains(name@),
            },
    {
        match self.position(name) {
            Some(i) => {
                assert(self.names().index_of(name@) == i);
                Some(&self.entries[i].1)
            },
            None => None,
        }
    }

    /// The backend registered under `name`, or the error that says that
    /// there is none.
    pub fn require(&self, name: &str) -> (found: Result<&B, Error>)
        ensures
            match found {
                Ok(backend) => self.names().contains(name@) && *backend
                    == self.backends()[self.names().index_of(name@)],
                Err(error) => !self.names().contains(name@) && error is BackendNotFound
                    && error.subject() == name@,
            },
    {
        match self.resolve(name) {
            Some(backend) => Ok(backend),
            None => Err(Error::BackendNotFound(name.to_owned())),
        }
    }

    /// Registers `backend` under `name`, unless a backend is registered under
    /// that name already: then the registry stays as it is and the backend is
    /// handed back.
    pub fn register_as(&mut self, name: String, backend: B) -> (refused: Option<B>)
        ensures
            final(self).names().no_duplicates(),
            match refused {
                Some(back) => old(self).names().contains(name@) && back == backend
                    && final(self).names() == old(self).names() && final(self).backends() == old(
                    self,
                ).backends(),
                None => !old(self).names().contains(name@) && final(self).names() == old(
                    self,
                ).names().push(name@) && final(self).backends() == old(self).backends().push(
                    backend,
                ),
            },
    {
        let found = self.position(name.as_str());
        match found {
            Some(_) => Some(backend),
            None => {
                let mut taken: Registry<B> = Registry::new();
                core::mem::swap(self, &mut taken);
                let Registry { mut entries } = taken;
                entries.push((name, backend));
                assert(registered_names(entries@) =~= old(self).names().push(name@));
                *self = Registry { entries };
                assert(self.backends() =~= old(self).backends().push(backend));
                None
            },
        }
    }
}

impl<B: PackageManager> Registry<B> {
    /// Registers `backend` under the name that it gives itself, unless a
    /// backend is registered under that name already: then the registry stays
    /// as it is and the backend is handed back.
    pub fn register(&mut self, backend: B) -> (refused: Option<B>)
        ensures
            final(self).names().no_duplicates(),
            match refused {
                Some(back) => back == backend && final(self).names() == old(self).names()
                    && final(self).backends() == old(self).backends(),
                None => final(self).names().drop_last() == old(self).names()
                    && final(self).names().len() == old(self).names().len() + 1
                    && final(self).backends() == old(self).backends().push(backend),
            },
    {
        let name = backend.name();
        let refused = self.register_as(name, backend);
        proof {
            if refused is None {
                assert(self.names().drop_last() =~= old(self).names());
            }
        }
        refused
    }
}

} // verus!
