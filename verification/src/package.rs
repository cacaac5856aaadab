//! Packages and their manifests.

pub mod action;
pub mod agent;
pub mod builder;
pub mod dependency;

pub use agent::Agent;

use crate::dependency::{DependencyTree, dependency_views};
use crate::error::Error;
use crate::order::{lex_compare, lex_order};
use crate::version::{Release, Version, VersionView, bumped, can_bump, semver_version, version_order};
use manifest::{
    Kind, Manifest, manifest_agent, manifest_dependencies, manifest_is_readable, manifest_kind,
    manifest_name, manifest_version_text,
};
use manifest::kind::{kind_filename, kind_of_path};
use vstd::prelude::*;
pub mod manifest;
pub mod package_type;
pub mod parser;
pub mod search;
pub mod transaction;

pub use package_type::PackageType;
pub use parser::PackageParser;
pub use transaction::{Operation, Transaction};
pub use search::SearchBuilder;

verus! {

/// A package: the manifest at a path, with the name and version it gives.
#[derive(Debug, Clone)]
pub struct Package {
    pub name: String,
    pub version: Version,
    pub path: String,
    pub manifest: Manifest,
}

/// The order of packages: by name, then version, then path.
pub open spec fn package_order(a: Package, b: Package) -> int {
    if lex_order(a.name@, b.name@) != 0 {
        lex_order(a.name@, b.name@)
    } else if version_order(a.version@, b.version@) != 0 {
        version_order(a.version@, b.version@)
    } else {
        lex_order(a.path@, b.path@)
    }
}

/// Packages are ordered by name first, by version only among packages of one
/// name, and by path only among those of one name and an equal version.
pub proof fn lemma_package_order_by_name_version_path(a: Package, b: Package)
    ensures
        a.name@ != b.name@ ==> package_order(a, b) == lex_order(a.name@, b.name@),
        a.name@ == b.name@ && version_order(a.version@, b.version@) != 0 ==> package_order(a, b)
            == version_order(a.version@, b.version@),
        a.name@ == b.name@ && version_order(a.version@, b.version@) == 0 ==> package_order(a, b)
            == lex_order(a.path@, b.path@),
{
    crate::order::lemma_lex_order(a.name@, b.name@);
}

fn package_order_value(a: &Package, b: &Package) -> (r: i8)
    ensures
        r == package_order(*a, *b),
        package_order(*b, *a) == -r,
        -1 <= r <= 1,
{
    proof {
        crate::order::lemma_lex_order(a.name@, b.name@);
        crate::order::lemma_lex_order(a.path@, b.path@);
    }
    let n = lex_compare(a.name.as_str(), b.name.as_str());
    if n != 0 {
        return n;
    }
    let v = crate::version::order_sign(&a.version, &b.version);
    if v != 0 {
        return v;
    }
    lex_compare(a.path.as_str(), b.path.as_str())
}

impl crate::order::Ranked for Package {
    open spec fn rank_order(&self, other: &Self) -> int {
        package_order(*self, *other)
    }

    fn compare_rank(&self, other: &Self) -> (r: i8) {
        package_order_value(self, other)
    }
}

impl Package {
    /// Creates a representation of the package based on the manifest read at `path`.
    /// Fails where the path names no manifest kind, where the manifest is not of
    /// the kind the path names, or where the version of the manifest does not
    /// parse.
    pub fn new(path: &str, manifest: Manifest) -> (r: Result<Package, Error>)
        ensures
            match r {
                Ok(p) => {
                    &&& kind_of_path(path@) == Some(Some(manifest_kind(manifest)))
                    &&& semver_version(manifest_version_text(manifest)) == Some(p.version@)
                    &&& p.name@ == manifest_name(manifest)
                    &&& p.path@ == path@
                    &&& p.manifest == manifest
                },
                Err(e) => match kind_of_path(path@) {
                    Some(Some(k)) => if k == manifest_kind(manifest) {
                        semver_version(manifest_version_text(manifest)) is None && e is Semver
                    } else {
                        e matches Error::InvalidManifestPath { path: q } && q@ == path@
                    },
                    Some(None) => e is InvalidManifestPath,
                    None => e is InvalidGlob,
                },
            },
    {
        match Kind::try_from(path) {
            Err(e) => Err(e),
            Ok(k) => {
                if k != manifest.kind() {
                    return Err(Error::InvalidManifestPath { path: path.to_string() });
                }
                let version = match manifest.version() {
                    Ok(v) => v,
                    Err(e) => return Err(e),
                };
                let name = manifest.name().clone();
                Ok(Package { name, version, path: path.to_string(), manifest })
            },
        }
    }

    /// The agent responsible for the package.
    pub fn agent(&self) -> (r: Agent)
        ensures
            r == manifest_agent(self.manifest),
    {
        self.manifest.agent()
    }

    /// The version the package has after `release`.
    pub fn bump(&self, release: Release) -> (r: Version)
        requires
            can_bump(self.version@, release),
        ensures
            r@ == bumped(self.version@, release),
            r.pre@.len() == 0,
            r.build@.len() == 0,
    {
        self.version.inc(release)
    }

    /// The dependencies the manifest lists.
    pub fn dependency_tree(&self) -> (r: DependencyTree)
        requires
            manifest_is_readable(self.manifest),
        ensures
            r.agent == manifest_agent(self.manifest),
            dependency_views(r.dependencies@) == manifest_dependencies(self.manifest),
    {
        self.manifest.dependency_tree()
    }

    /// The file name of the manifest.
    pub fn filename(&self) -> (r: &'static str)
        ensures
            r@ == kind_filename(manifest_kind(self.manifest)),
    {
        self.manifest.filename()
    }

    /// How the package is shown: its name, then its agent in brackets.
    pub fn to_string(&self) -> (r: String)
        ensures
            r@ == self.name@ + " ("@ + agent::agent_name(manifest_agent(self.manifest)) + ")"@,
    {
        let mut r = self.name.clone();
        r.append(" (");
        let agent = self.agent().to_string();
        r.append(agent.as_str());
        r.append(")");
        r
    }

    /// Whether two packages are the same: they are at the same path.
    pub fn same_as(&self, other: &Package) -> (b: bool)
        ensures
            b == (self.path@ == other.path@),
    {
        self.path == other.path
    }

    /// Compares two packages: by name, then version, then path.
    pub fn cmp(&self, other: &Package) -> (r: core::cmp::Ordering)
        ensures
            crate::order::ordering_value(r) == package_order(*self, *other),
    {
        crate::order::to_ordering(package_order_value(self, other))
    }
}

/// The packages whose version is not `placeholder`, in order.
pub open spec fn not_placeholder(ps: Seq<Package>, placeholder: VersionView) -> Seq<Package>
    decreases ps.len(),
{
    if ps.len() == 0 {
        seq![]
    } else {
        let rest = not_placeholder(ps.drop_last(), placeholder);
        if ps.last().version@ != placeholder {
            rest.push(ps.last())
        } else {
            rest
        }
    }
}

/// Exactly the packages whose version differs from the placeholder in some part
/// are kept.
pub proof fn lemma_not_placeholder(ps: Seq<Package>, placeholder: VersionView, p: Package)
    ensures
        not_placeholder(ps, placeholder).contains(p) <==> (ps.contains(p) && p.version@ != placeholder),
    decreases ps.len(),
{
    if ps.len() > 0 {
        let rest = ps.drop_last();
        let n = ps.len() - 1;
        let r = not_placeholder(rest, placeholder);
        lemma_not_placeholder(rest, placeholder, p);
        if rest.contains(p) {
            let i = choose|i: int| 0 <= i < rest.len() && rest[i] == p;
            assert(ps[i] == p);
        }
        if ps.contains(p) && p != ps.last() {
            let i = choose|i: int| 0 <= i < ps.len() && ps[i] == p;
            assert(i < n);
            assert(rest[i] == p);
        }
        if p == ps.last() {
            assert(ps[n] == p);
        }
        if ps.last().version@ != placeholder {
            let q = r.push(ps.last());
            if r.contains(p) {
                let i = choose|i: int| 0 <= i < r.len() && r[i] == p;
                assert(q[i] == p);
            }
            if p == ps.last() {
                assert(q[r.len() as int] == p);
            }
            if q.contains(p) && p != ps.last() {
                let i = choose|i: int| 0 <= i < q.len() && q[i] == p;
                assert(r[i] == p);
            }
        }
    }
}

fn same_version(a: &Version, b: &Version) -> (r: bool)
    ensures
        r == (a@ == b@),
{
    a.major == b.major && a.minor == b.minor && a.patch == b.patch && crate::text::same_text(
        a.pre.as_str(),
        b.pre.as_str(),
    ) && crate::text::same_text(a.build.as_str(), b.build.as_str())
}

/// The packages that carry a version of their own: those whose version is not
/// `placeholder` (all of its parts compared), in order. The others are neither
/// shown nor bumped.
pub fn without_placeholder(packages: Vec<Package>, placeholder: &Version) -> (r: Vec<Package>)
    ensures
        r@ == not_placeholder(packages@, placeholder@),
{
    let ghost all = packages@;
    let mut rest = packages;
    let mut kept: Vec<Package> = Vec::new();
    let ghost mut i: int = 0;
    while rest.len() > 0
        invariant
            0 <= i <= all.len(),
            rest@ == all.skip(i),
            kept@ == not_placeholder(all.take(i), placeholder@),
        decreases rest.len(),
    {
        let p = rest.remove(0);
        assert(all.take(i + 1).drop_last() == all.take(i));
        assert(all.take(i + 1).last() == p);
        if !same_version(&p.version, placeholder) {
            kept.push(p);
        }
        proof {
            i = i + 1;
        }
    }
    assert(all.take(i) == all);
    kept
}

} // verus!
