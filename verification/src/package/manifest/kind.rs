//! The kinds of manifest, told apart by the file name in their path.

use crate::error::Error;
use crate::glob::{answers, first_answer, glob_answers, resolve};
use vstd::prelude::*;

verus! {

/// A kind of manifest.
#[derive(Clone, Copy, Debug, PartialEq, Eq, Structural)]
pub enum Kind {
    CargoToml,
    PackageJson,
    TauriConfJson,
}

/// The pattern that the path of a manifest of each kind matches.
pub open spec fn kind_glob(kind: Kind) -> Seq<char> {
    match kind {
        Kind::CargoToml => "**/Cargo.toml"@,
        Kind::PackageJson => "**/package.json"@,
        Kind::TauriConfJson => "**/tauri.conf.json"@,
    }
}

/// The file name of a manifest of each kind.
pub open spec fn kind_filename(kind: Kind) -> Seq<char> {
    match kind {
        Kind::CargoToml => "Cargo.toml"@,
        Kind::PackageJson => "package.json"@,
        Kind::TauriConfJson => "tauri.conf.json"@,
    }
}

/// The kinds, in the order in which a path is tested against them.
pub open spec fn kind_order_of_tests() -> Seq<Kind> {
    seq![Kind::CargoToml, Kind::PackageJson, Kind::TauriConfJson]
}

/// The patterns of the kinds, in the order in which they are tried.
pub open spec fn kind_globs() -> Seq<Seq<char>> {
    seq![kind_glob(Kind::CargoToml), kind_glob(Kind::PackageJson), kind_glob(Kind::TauriConfJson)]
}

/// The kind of manifest at `path`: the first kind, in the order Cargo.toml,
/// package.json, tauri.conf.json, whose pattern the path matches. `Some(None)` where
/// none matches; `None` where a pattern does not compile.
pub open spec fn kind_of_path(path: Seq<char>) -> Option<Option<Kind>> {
    kind_of_answers(glob_answers(kind_globs(), path))
}

/// The kind that the answers of the patterns, tried in order, give.
pub open spec fn kind_of_answers(answers: Seq<Option<bool>>) -> Option<Option<Kind>> {
    match first_answer(answers) {
        None => None,
        Some(None) => Some(None),
        Some(Some(i)) => Some(Some(kind_order_of_tests()[i])),
    }
}

impl Kind {
    /// The pattern that the path of a manifest of this kind matches.
    pub fn glob(&self) -> (r: &'static str)
        ensures
            r@ == kind_glob(*self),
    {
        match self {
            Kind::CargoToml => "**/Cargo.toml",
            Kind::PackageJson => "**/package.json",
            Kind::TauriConfJson => "**/tauri.conf.json",
        }
    }

    /// The file name of a manifest of this kind.
    pub fn filename(&self) -> (r: &'static str)
        ensures
            r@ == kind_filename(*self),
    {
        match self {
            Kind::CargoToml => "Cargo.toml",
            Kind::PackageJson => "package.json",
            Kind::TauriConfJson => "tauri.conf.json",
        }
    }

    /// Reads the answers of the patterns of the kinds, tried in order, for the
    /// manifest at `path`: the first kind whose pattern matches. Fails with
    /// `InvalidManifestPath` where none matches, and with `InvalidGlob` where a
    /// pattern tried before does not compile.
    pub fn from_answers(answers: &[Option<bool>], path: &str) -> (r: Result<Kind, Error>)
        requires
            answers@.len() == 3,
        ensures
            match kind_of_answers(answers@) {
                Some(Some(k)) => r == Ok::<Kind, Error>(k),
                Some(None) => r matches Err(Error::InvalidManifestPath { path: p }) && p@ == path@,
                None => r matches Err(Error::InvalidGlob { .. }),
            },
    {
        match resolve(answers) {
            None => Err(Error::InvalidGlob { glob: String::new() }),
            Some(None) => Err(Error::InvalidManifestPath { path: path.to_string() }),
            Some(Some(i)) => {
                if i == 0 {
                    Ok(Kind::CargoToml)
                } else if i == 1 {
                    Ok(Kind::PackageJson)
                } else {
                    Ok(Kind::TauriConfJson)
                }
            },
        }
    }

    /// The kind of the manifest at `path`: the first kind whose pattern the path
    /// matches. Fails with `InvalidManifestPath` where none matches.
    pub fn try_from(path: &str) -> (r: Result<Kind, Error>)
        ensures
            match kind_of_path(path@) {
                Some(Some(k)) => r == Ok::<Kind, Error>(k),
                Some(None) => r matches Err(Error::InvalidManifestPath { path: p }) && p@ == path@,
                None => r matches Err(Error::InvalidGlob { .. }),
            },
    {
        let globs = [Kind::CargoToml.glob(), Kind::PackageJson.glob(), Kind::TauriConfJson.glob()];
        assert(crate::glob::glob_views(globs@) == kind_globs());
        let found = answers(&globs, path);
        Kind::from_answers(found.as_slice(), path)
    }
}

} // verus!
