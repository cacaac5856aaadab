//! The types of manifest, told apart by the file name in their path.

use crate::error::Error;
use crate::glob::{answers, first_answer, glob_answers, resolve};
use vstd::prelude::*;

verus! {

/// A type of manifest.
#[derive(Clone, Copy, Debug, PartialEq, Eq, Structural)]
pub enum ManifestType {
    CargoToml,
    PackageJson,
    TauriConfJson,
}

/// The pattern that the path of a manifest of each kind matches.
pub open spec fn manifest_type_glob(kind: ManifestType) -> Seq<char> {
    match kind {
        ManifestType::CargoToml => "**/Cargo.toml"@,
        ManifestType::PackageJson => "**/package.json"@,
        ManifestType::TauriConfJson => "**/tauri.conf.json"@,
    }
}

/// The file name of a manifest of each kind.
pub open spec fn manifest_type_filename(kind: ManifestType) -> Seq<char> {
    match kind {
        ManifestType::CargoToml => "Cargo.toml"@,
        ManifestType::PackageJson => "package.json"@,
        ManifestType::TauriConfJson => "tauri.conf.json"@,
    }
}

/// The kinds, in the order in which a path is tested against them.
pub open spec fn manifest_type_order_of_tests() -> Seq<ManifestType> {
    seq![ManifestType::CargoToml, ManifestType::PackageJson, ManifestType::TauriConfJson]
}

/// The patterns of the kinds, in the order in which they are tried.
pub open spec fn manifest_type_globs() -> Seq<Seq<char>> {
    seq![manifest_type_glob(ManifestType::CargoToml), manifest_type_glob(ManifestType::PackageJson), manifest_type_glob(ManifestType::TauriConfJson)]
}

/// The kind of manifest at `path`: the first kind, in the order Cargo.toml,
/// package.json, tauri.conf.json, whose pattern the path matches. `Some(None)` where
/// none matches; `None` where a pattern does not compile.
pub open spec fn manifest_type_of_path(path: Seq<char>) -> Option<Option<ManifestType>> {
    manifest_type_of_answers(glob_answers(manifest_type_globs(), path))
}

/// The kind that the answers of the patterns, tried in order, give.
pub open spec fn manifest_type_of_answers(answers: Seq<Option<bool>>) -> Option<Option<ManifestType>> {
    match first_answer(answers) {
        None => None,
        Some(None) => Some(None),
        Some(Some(i)) => Some(Some(manifest_type_order_of_tests()[i])),
    }
}

impl ManifestType {
    /// The pattern that the path of a manifest of this kind matches.
    pub fn glob(&self) -> (r: &'static str)
        ensures
            r@ == manifest_type_glob(*self),
    {
        match self {
            ManifestType::CargoToml => "**/Cargo.toml",
            ManifestType::PackageJson => "**/package.json",
            ManifestType::TauriConfJson => "**/tauri.conf.json",
        }
    }

    /// The file name of a manifest of this kind.
    pub fn filename(&self) -> (r: &'static str)
        ensures
            r@ == manifest_type_filename(*self),
    {
        match self {
            ManifestType::CargoToml => "Cargo.toml",
            ManifestType::PackageJson => "package.json",
            ManifestType::TauriConfJson => "tauri.conf.json",
        }
    }

    /// Reads the answers of the patterns of the kinds, tried in order, for the
    /// manifest at `path`: the first kind whose pattern matches. Fails with
    /// `InvalidManifestPath` where none matches, and with `InvalidGlob` where a
    /// pattern tried before does not compile.
    pub fn from_answers(answers: &[Option<bool>], path: &str) -> (r: Result<ManifestType, Error>)
        requires
            answers@.len() == 3,
        ensures
            match manifest_type_of_answers(answers@) {
                Some(Some(k)) => r == Ok::<ManifestType, Error>(k),
                Some(None) => r matches Err(Error::InvalidManifestPath { path: p }) && p@ == path@,
                None => r matches Err(Error::InvalidGlob { .. }),
            },
    {
        match resolve(answers) {
            None => Err(Error::InvalidGlob { glob: String::new() }),
            Some(None) => Err(Error::InvalidManifestPath { path: path.to_string() }),
            Some(Some(i)) => {
                if i == 0 {
                    Ok(ManifestType::CargoToml)
                } else if i == 1 {
                    Ok(ManifestType::PackageJson)
                } else {
                    Ok(ManifestType::TauriConfJson)
                }
            },
        }
    }

    /// The kind of the manifest at `path`: the first kind whose pattern the path
    /// matches. Fails with `InvalidManifestPath` where none matches.
    pub fn try_from(path: &str) -> (r: Result<ManifestType, Error>)
        ensures
            match manifest_type_of_path(path@) {
                Some(Some(k)) => r == Ok::<ManifestType, Error>(k),
                Some(None) => r matches Err(Error::InvalidManifestPath { path: p }) && p@ == path@,
                None => r matches Err(Error::InvalidGlob { .. }),
            },
    {
        let globs = [ManifestType::CargoToml.glob(), ManifestType::PackageJson.glob(), ManifestType::TauriConfJson.glob()];
        assert(crate::glob::glob_views(globs@) == manifest_type_globs());
        let found = answers(&globs, path);
        ManifestType::from_answers(found.as_slice(), path)
    }
}

} // verus!
