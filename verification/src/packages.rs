//! Packages told apart by the name of their manifest, numbered in the order found.

pub mod cargo_toml;
pub mod package_json;

use crate::error::Error;
use crate::glob::{glob_outcome, is_match};
use crate::version::{Version, VersionView, semver_version};
use vstd::prelude::*;

verus! {

/// The pattern that the path of a `Cargo.toml` matches.
pub const GLOB_CARGO_TOML: &'static str = "**/Cargo.toml";

/// The pattern that the path of a `package.json` matches.
pub const GLOB_PACKAGE_JSON: &'static str = "**/package.json";

/// The type of a package, named after its manifest.
#[derive(Clone, Copy, Debug, PartialEq, Eq, Structural)]
pub enum PackageType {
    CargoToml,
    PackageJson,
}

/// The pattern of each type.
pub open spec fn type_glob(t: PackageType) -> Seq<char> {
    match t {
        PackageType::CargoToml => "**/Cargo.toml"@,
        PackageType::PackageJson => "**/package.json"@,
    }
}

/// The type of the package at `path`: Cargo.toml first, then package.json.
/// `Some(None)` where neither pattern matches, `None` where a pattern tried does
/// not compile.
pub open spec fn type_of_path(path: Seq<char>) -> Option<Option<PackageType>> {
    match glob_outcome(type_glob(PackageType::CargoToml), path) {
        None => None,
        Some(true) => Some(Some(PackageType::CargoToml)),
        Some(false) => match glob_outcome(type_glob(PackageType::PackageJson), path) {
            None => None,
            Some(true) => Some(Some(PackageType::PackageJson)),
            Some(false) => Some(None),
        },
    }
}

/// Whether the package at `path` is of type `package_type`. Fails with
/// `InvalidGlob` where the pattern does not compile.
pub fn is_package(package_type: PackageType, path: &str) -> (r: Result<bool, Error>)
    ensures
        match glob_outcome(type_glob(package_type), path@) {
            Some(b) => r == Ok::<bool, Error>(b),
            None => r matches Err(Error::InvalidGlob { .. }),
        },
{
    let glob = match package_type {
        PackageType::CargoToml => GLOB_CARGO_TOML,
        PackageType::PackageJson => GLOB_PACKAGE_JSON,
    };
    match is_match(glob, path) {
        Some(b) => Ok(b),
        None => Err(Error::InvalidGlob { glob: glob.to_string() }),
    }
}

/// The type that the answers of the two patterns, Cargo.toml first, give.
pub open spec fn type_of_answers(cargo: Option<bool>, json: Option<bool>) -> Option<Option<PackageType>> {
    match cargo {
        None => None,
        Some(true) => Some(Some(PackageType::CargoToml)),
        Some(false) => match json {
            None => None,
            Some(true) => Some(Some(PackageType::PackageJson)),
            Some(false) => Some(None),
        },
    }
}

/// Reads the answers of the patterns of `Cargo.toml` and `package.json` for the
/// package at `path`. Fails with `InvalidManifestPath` where neither matches.
pub fn package_type_from_answers(cargo: Option<bool>, json: Option<bool>, path: &str) -> (r: Result<PackageType, Error>)
    ensures
        match type_of_answers(cargo, json) {
            Some(Some(t)) => r == Ok::<PackageType, Error>(t),
            Some(None) => r matches Err(Error::InvalidManifestPath { path: p }) && p@ == path@,
            None => r matches Err(Error::InvalidGlob { .. }),
        },
{
    match cargo {
        None => Err(Error::InvalidGlob { glob: GLOB_CARGO_TOML.to_string() }),
        Some(true) => Ok(PackageType::CargoToml),
        Some(false) => match json {
            None => Err(Error::InvalidGlob { glob: GLOB_PACKAGE_JSON.to_string() }),
            Some(true) => Ok(PackageType::PackageJson),
            Some(false) => Err(Error::InvalidManifestPath { path: path.to_string() }),
        },
    }
}

/// The type of the package at `path`. Fails with `InvalidManifestPath` where the
/// path names no manifest.
pub fn parse_package_type(path: &str) -> (r: Result<PackageType, Error>)
    ensures
        match type_of_path(path@) {
            Some(Some(t)) => r == Ok::<PackageType, Error>(t),
            Some(None) => r matches Err(Error::InvalidManifestPath { path: p }) && p@ == path@,
            None => r matches Err(Error::InvalidGlob { .. }),
        },
{
    let cargo = is_match(GLOB_CARGO_TOML, path);
    let json = is_match(GLOB_PACKAGE_JSON, path);
    package_type_from_answers(cargo, json, path)
}

/// A package, numbered in the order found.
#[derive(Debug)]
pub struct Package {
    pub id: u32,
    pub package_type: PackageType,
    pub name: String,
    pub version: Version,
    pub path: String,
}

/// The path of a manifest with the name and version text read from it.
#[derive(Debug, Clone)]
pub struct ManifestEntry {
    pub path: String,
    pub name: String,
    pub version: String,
}

/// Whether a manifest entry makes a package: its path names a manifest and its
/// version parses.
pub open spec fn entry_is_package(e: ManifestEntry) -> bool {
    &&& type_of_path(e.path@) matches Some(Some(_))
    &&& semver_version(e.version@) is Some
}

/// Whether `p` is the package made of `e`, numbered `id`.
pub open spec fn package_of_entry(p: Package, e: ManifestEntry, id: int) -> bool {
    &&& p.id == id
    &&& type_of_path(e.path@) == Some(Some(p.package_type))
    &&& semver_version(e.version@) == Some(p.version@)
    &&& p.name@ == e.name@
    &&& p.path@ == e.path@
}

/// Whether `e` is the error that the manifest entry gives: the path's, where it
/// names no manifest (or a pattern does not compile), else the version's.
pub open spec fn entry_error(e: Error, entry: ManifestEntry) -> bool {
    match type_of_path(entry.path@) {
        None => e is InvalidGlob,
        Some(None) => e matches Error::InvalidManifestPath { path } && path@ == entry.path@,
        Some(Some(_)) => e matches Error::Semver { input } && input@ == entry.version@,
    }
}

impl Package {
    /// The package made of the manifest at `path`, whose name and version text are
    /// `name` and `version`, numbered `id`.
    pub fn new(id: u32, entry: &ManifestEntry) -> (r: Result<Package, Error>)
        ensures
            match r {
                Ok(p) => entry_is_package(*entry) && package_of_entry(p, *entry, id as int),
                Err(e) => !entry_is_package(*entry) && entry_error(e, *entry),
            },
    {
        let package_type = match parse_package_type(entry.path.as_str()) {
            Ok(t) => t,
            Err(e) => return Err(e),
        };
        let version = match Version::parse(entry.version.as_str()) {
            Ok(v) => v,
            Err(e) => return Err(e),
        };
        Ok(Package { id, package_type, name: entry.name.clone(), version, path: entry.path.clone() })
    }
}

/// The packages made of the manifest entries, numbered from 0 in order. Fails at
/// the first entry that makes no package.
pub fn create_packages(entries: Vec<ManifestEntry>) -> (r: Result<Vec<Package>, Error>)
    requires
        entries@.len() <= u32::MAX,
    ensures
        match r {
            Ok(ps) => ps@.len() == entries@.len() && forall|i: int|
                0 <= i < ps@.len() ==> package_of_entry(#[trigger] ps@[i], entries@[i], i),
            Err(e) => exists|i: int|
                0 <= i < entries@.len() && !entry_is_package(#[trigger] entries@[i]) && entry_error(
                    e,
                    entries@[i],
                ) && forall|j: int| 0 <= j < i ==> entry_is_package(#[trigger] entries@[j]),
        },
{
    let mut id: u32 = 0;
    let mut packages: Vec<Package> = Vec::new();
    let mut i: usize = 0;
    while i < entries.len()
        invariant
            i <= entries.len() <= u32::MAX,
            id == i,
            packages@.len() == i,
            forall|j: int| 0 <= j < i ==> package_of_entry(#[trigger] packages@[j], entries@[j], j),
            forall|j: int| 0 <= j < i ==> entry_is_package(#[trigger] entries@[j]),
        decreases entries.len() - i,
    {
        let pkg = match Package::new(id, &entries[i]) {
            Ok(p) => p,
            Err(e) => {
                assert(!entry_is_package(entries@[i as int]));
                assert(entry_error(e, entries@[i as int]));
                return Err(e);
            },
        };
        let ghost before = packages@;
        packages.push(pkg);
        assert forall|j: int| 0 <= j < i + 1 implies package_of_entry(#[trigger] packages@[j], entries@[j], j) by {
            if j < i {
                assert(packages@[j] == before[j]);
            }
        }
        i = i + 1;
        id = id + 1;
    }
    Ok(packages)
}

} // verus!
