//! Declarative package bookkeeping: a manifest of the packages a user wants,
//! one section per backend, and the operations that keep it in step with what
//! each backend reports as installed.

pub mod keyed;
pub mod text;
pub mod document;
pub mod entry;
pub mod error;
pub mod manifest;
pub mod backend;
pub mod reconciler;
pub mod laws;
pub mod bootstrap;

pub use backend::BackendFailure;
pub use backend::PackageManager;
pub use backend::Registry;
pub use bootstrap::Darling;
pub use entry::Context;
pub use entry::DarlingConfig;
pub use entry::InstallationEntry;
pub use entry::Properties;
pub use error::Error;
pub use manifest::Loaded;
pub use manifest::Manifest;
pub use reconciler::Command;
pub use reconciler::Outcome;
pub use reconciler::Rebuilt;
