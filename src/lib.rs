//! Dependency management for engine-project addons.
//!
//! The library holds the decisions of the fetch-resolve-install pipeline:
//! where fetched sources live in the cache (`fetch`), which directory of a
//! snapshot is the addon (`locate`), which dependencies a manifest selects
//! (`manifest`), how located addons merge into one installable set
//! (`resolve`), and which files an install links and which paths it
//! refuses (`project`, `dependency`). The file system, network and process
//! work is left to the caller, which hands in what it found.

pub mod text;
pub mod paths;
pub mod reference;
pub mod version;
pub mod source;
pub mod fetch;
pub mod args;
pub mod dependency;
pub mod project;
pub mod manifest;
pub mod locate;
pub mod resolve;
