//! Which installed binaries have a newer release.
//!
//! The library reads the record that the package manager keeps of the binaries it
//! installed, finds for a package name the file of the package index that lists its
//! published versions, reads such a file, and decides whether a package is out of
//! date. Fetching the file and running the installer are the caller's business.

pub mod cli;
pub mod package;
pub mod registry;
pub mod report;
pub mod text;
pub mod version;
