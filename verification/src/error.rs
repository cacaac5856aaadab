//! Errors reported by the library.

use vstd::prelude::*;

verus! {

/// What went wrong.
#[derive(Debug, Clone)]
pub enum Error {
    /// A git command failed.
    Git { reason: String },
    /// The path does not name a manifest the library knows.
    InvalidManifestPath { path: String },
    /// The agent does not manage packages (Tauri).
    NotPackageManager,
    /// The text of a manifest does not parse in its format.
    InvalidManifest,
    /// The operation is not implemented.
    Unimplemented,
    /// The text is not a valid semantic version, requirement or identifier.
    Semver { input: String },
    /// A glob pattern could not be compiled.
    InvalidGlob { glob: String },
    /// The text names no release type.
    InvalidRelease { input: String },
    /// Packages were to be parsed before a release type was given.
    ReleaseNotSpecified,
    /// No package was found, or none was left after filtering.
    NoPackageFound,
    /// The part of the version that a release increments is already the greatest
    /// number it can hold.
    VersionOverflow,
}

} // verus!
