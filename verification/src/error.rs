//! The ways in which an operation on the manifest can fail.

use vstd::prelude::*;
use vstd::string::StringExecFns;

verus! {

/// Why an operation stopped.
pub enum Error {
    /// No backend is registered under the given name.
    BackendNotFound(String),
    /// The manifest's text is no document at all; the text holds the parser's
    /// message.
    MalformedManifest(String),
    /// The manifest holds something other than a table under the given
    /// backend's name.
    CorruptManifest(String),
    /// The manifest has no section for the given backend.
    MissingSection(String),
    /// The section has no entry for the given package.
    MissingEntry(String),
    /// A backend could not do what was asked; the text holds its message.
    BackendExecution(String),
    /// The backend did its work, but the manifest could not be written: the
    /// system and the manifest now disagree. The text holds the cause.
    Persist(String),
}

impl Error {
    /// The text that the failure carries: the name of what it is about, or
    /// the cause as text.
    pub open spec fn subject(&self) -> Seq<char> {
        match self {
            Error::BackendNotFound(name) => name@,
            Error::MalformedManifest(cause) => cause@,
            Error::CorruptManifest(name) => name@,
            Error::MissingSection(name) => name@,
            Error::MissingEntry(name) => name@,
            Error::BackendExecution(cause) => cause@,
            Error::Persist(cause) => cause@,
        }
    }

    /// The text that `message` gives.
    pub open spec fn description(&self) -> Seq<char> {
        match self {
            Error::BackendNotFound(name) => "Module \""@ + name@ + "\" not found"@,
            Error::MalformedManifest(cause) => "Malformed manifest: "@ + cause@ + ""@,
            Error::CorruptManifest(name) => "Corrupted manifest: \""@ + name@
                + "\" is not a table"@,
            Error::MissingSection(name) => "No packages recorded for module \""@ + name@ + "\""@,
            Error::MissingEntry(name) => "Package \""@ + name@ + "\" is not recorded"@,
            Error::BackendExecution(cause) => "Backend failure: "@ + cause@ + ""@,
            Error::Persist(cause) =>
                "The system was changed, but the manifest could not be written: "@ + cause@ + ""@,
        }
    }

    /// A description of the failure.
    pub fn message(&self) -> (text: String)
        ensures
            text@ == self.description(),
    {
        match self {
            Error::BackendNotFound(name) => describe("Module \"", name.as_str(), "\" not found"),
            Error::MalformedManifest(cause) => describe("Malformed manifest: ", cause.as_str(), ""),
            Error::CorruptManifest(name) => describe(
                "Corrupted manifest: \"",
                name.as_str(),
                "\" is not a table",
            ),
            Error::MissingSection(name) => describe(
                "No packages recorded for module \"",
                name.as_str(),
                "\"",
            ),
            Error::MissingEntry(name) => describe("Package \"", name.as_str(), "\" is not recorded"),
            Error::BackendExecution(cause) => describe("Backend failure: ", cause.as_str(), ""),
            Error::Persist(cause) => describe(
                "The system was changed, but the manifest could not be written: ",
                cause.as_str(),
                "",
            ),
        }
    }

    /// Whether the failure came after a backend had already changed the
    /// system, so that manifest and system now disagree.
    pub fn left_inconsistent(&self) -> (inconsistent: bool)
        ensures
            inconsistent == (self is Persist),
    {
        match self {
            Error::Persist(_) => true,
            _ => false,
        }
    }
}

/// `subject` between two fixed texts.
fn describe(before: &str, subject: &str, after: &str) -> (text: String)
    ensures
        text@ == before@ + subject@ + after@,
{
    String::from_str(before).concat(subject).concat(after)
}

} // verus!
