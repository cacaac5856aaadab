//! Manifests: the files that describe a package.

pub mod cargo_toml;
pub mod edit;
pub mod kind;
pub mod manifest_type;
pub mod package_json;
pub mod tauri_conf_json;

use crate::dependency::{DependencyKind, DependencyTree, DependencyView, dependency_views};
use crate::error::Error;
use crate::package::agent::agent_of_package_manager;
use crate::package::Agent;
use crate::text::opt_view;
use crate::version::{Version, semver_version};
use cargo_toml::{CargoToml, cargo_dependencies, cargo_is_readable};
pub use kind::Kind;
pub use manifest_type::ManifestType;
use package_json::{PackageJson, package_json_dependencies};
pub use tauri_conf_json::TauriConfJson;
use vstd::prelude::*;

verus! {

/// A manifest read from disk, of one of the kinds the library knows.
#[derive(Debug, Clone)]
pub enum Manifest {
    CargoToml(CargoToml),
    PackageJson(PackageJson),
    TauriConfJson(TauriConfJson),
}

/// The agent responsible for a manifest.
pub open spec fn manifest_agent(m: Manifest) -> Agent {
    match m {
        Manifest::CargoToml(_) => Agent::Cargo,
        Manifest::PackageJson(p) => agent_of_package_manager(opt_view(p.package_manager)),
        Manifest::TauriConfJson(_) => Agent::Tauri,
    }
}

/// The name a manifest gives its package.
pub open spec fn manifest_name(m: Manifest) -> Seq<char> {
    match m {
        Manifest::CargoToml(c) => c.package.name@,
        Manifest::PackageJson(p) => p.name@,
        Manifest::TauriConfJson(t) => t.product_name@,
    }
}

/// The version text a manifest gives its package.
pub open spec fn manifest_version_text(m: Manifest) -> Seq<char> {
    match m {
        Manifest::CargoToml(c) => c.package.version@,
        Manifest::PackageJson(p) => p.version@,
        Manifest::TauriConfJson(t) => t.version@,
    }
}

/// The kind of a manifest.
pub open spec fn manifest_kind(m: Manifest) -> Kind {
    match m {
        Manifest::CargoToml(_) => Kind::CargoToml,
        Manifest::PackageJson(_) => Kind::PackageJson,
        Manifest::TauriConfJson(_) => Kind::TauriConfJson,
    }
}

/// Whether the dependency tables of a manifest can be read.
pub open spec fn manifest_is_readable(m: Manifest) -> bool {
    match m {
        Manifest::CargoToml(c) => cargo_is_readable(c),
        _ => true,
    }
}

/// The dependencies a manifest lists; a `tauri.conf.json` lists none.
pub open spec fn manifest_dependencies(m: Manifest) -> Seq<DependencyView> {
    match m {
        Manifest::CargoToml(c) => cargo_dependencies(c),
        Manifest::PackageJson(p) => package_json_dependencies(p),
        Manifest::TauriConfJson(_) => seq![],
    }
}

/// The table of a `Cargo.toml` that lists dependencies of a kind; peer and
/// package-manager dependencies have none.
pub open spec fn cargo_section(kind: DependencyKind) -> Option<Seq<char>> {
    match kind {
        DependencyKind::Normal => Some("dependencies"@),
        DependencyKind::Development => Some("dev-dependencies"@),
        DependencyKind::Build => Some("build-dependencies"@),
        _ => None,
    }
}

/// The field of a `package.json` that lists dependencies of a kind; build and
/// package-manager dependencies have none.
pub open spec fn npm_section(kind: DependencyKind) -> Option<Seq<char>> {
    match kind {
        DependencyKind::Normal => Some("dependencies"@),
        DependencyKind::Development => Some("devDependencies"@),
        DependencyKind::Peer => Some("peerDependencies"@),
        _ => None,
    }
}

/// The table of a `Cargo.toml` that lists dependencies of `kind`.
pub fn cargo_section_of(kind: DependencyKind) -> (r: Option<&'static str>)
    ensures
        match r {
            Some(s) => cargo_section(kind) == Some(s@),
            None => cargo_section(kind) is None,
        },
{
    match kind {
        DependencyKind::Normal => Some("dependencies"),
        DependencyKind::Development => Some("dev-dependencies"),
        DependencyKind::Build => Some("build-dependencies"),
        _ => None,
    }
}

/// The field of a `package.json` that lists dependencies of `kind`.
pub fn npm_section_of(kind: DependencyKind) -> (r: Option<&'static str>)
    ensures
        match r {
            Some(s) => npm_section(kind) == Some(s@),
            None => npm_section(kind) is None,
        },
{
    match kind {
        DependencyKind::Normal => Some("dependencies"),
        DependencyKind::Development => Some("devDependencies"),
        DependencyKind::Peer => Some("peerDependencies"),
        _ => None,
    }
}

/// The requirement written into a `Cargo.toml` for a target: its text without a
/// leading `^`, which Cargo takes as the default operator.
pub open spec fn cargo_requirement(target: Seq<char>) -> Seq<char> {
    if target.len() > 0 && target[0] == '^' {
        target.drop_first()
    } else {
        target
    }
}

/// Only a leading `^` is dropped from a target: a target that does not begin with
/// `^` is written as it is, and one that does loses exactly that first character
/// and keeps all the others, in order.
pub proof fn lemma_cargo_requirement(target: Seq<char>)
    ensures
        (target.len() == 0 || target[0] != '^') ==> cargo_requirement(target) == target,
        (target.len() > 0 && target[0] == '^') ==> (cargo_requirement(target).len() == target.len()
            - 1 && forall|i: int|
            0 <= i < cargo_requirement(target).len() ==> #[trigger] cargo_requirement(target)[i]
                == target[i + 1]),
{
}

/// The requirement to write into a `Cargo.toml` for the target `target`.
pub fn cargo_requirement_of(target: &str) -> (r: String)
    ensures
        r@ == cargo_requirement(target@),
        (target@.len() == 0 || target@[0] != '^') ==> r@ == target@,
        (target@.len() > 0 && target@[0] == '^') ==> r@ == target@.drop_first(),
{
    let mut chars = crate::text::chars_of(target);
    if chars.len() > 0 && chars[0] == '^' {
        let _ = chars.remove(0);
        assert(chars@ == target@.drop_first());
        crate::text::string_of(chars.as_slice())
    } else {
        target.to_string()
    }
}

impl Manifest {
    /// The agent responsible for the manifest.
    pub fn agent(&self) -> (r: Agent)
        ensures
            r == manifest_agent(*self),
    {
        match self {
            Manifest::CargoToml(c) => c.agent(),
            Manifest::PackageJson(p) => p.agent(),
            Manifest::TauriConfJson(t) => t.agent(),
        }
    }

    /// The name of the package.
    pub fn name(&self) -> (r: &String)
        ensures
            r@ == manifest_name(*self),
    {
        match self {
            Manifest::CargoToml(c) => c.name(),
            Manifest::PackageJson(p) => p.name(),
            Manifest::TauriConfJson(t) => t.name(),
        }
    }

    /// The version of the package, parsed.
    pub fn version(&self) -> (r: Result<Version, Error>)
        ensures
            match r {
                Ok(v) => semver_version(manifest_version_text(*self)) == Some(v@),
                Err(e) => semver_version(manifest_version_text(*self)) is None && e is Semver,
            },
    {
        match self {
            Manifest::CargoToml(c) => Version::parse(c.package.version.as_str()),
            Manifest::PackageJson(p) => Version::parse(p.version.as_str()),
            Manifest::TauriConfJson(t) => Version::parse(t.version.as_str()),
        }
    }

    /// The kind of the manifest.
    pub fn kind(&self) -> (r: Kind)
        ensures
            r == manifest_kind(*self),
    {
        match self {
            Manifest::CargoToml(_) => Kind::CargoToml,
            Manifest::PackageJson(_) => Kind::PackageJson,
            Manifest::TauriConfJson(_) => Kind::TauriConfJson,
        }
    }

    /// The file name of the manifest.
    pub fn filename(&self) -> (r: &'static str)
        ensures
            r@ == kind::kind_filename(manifest_kind(*self)),
    {
        self.kind().filename()
    }

    /// Whether the dependency tables of the manifest can be read.
    pub fn is_readable(&self) -> (b: bool)
        ensures
            b == manifest_is_readable(*self),
    {
        match self {
            Manifest::CargoToml(c) => c.is_readable(),
            _ => true,
        }
    }

    /// The dependencies the manifest lists, under its agent.
    pub fn dependency_tree(&self) -> (r: DependencyTree)
        requires
            manifest_is_readable(*self),
        ensures
            r.agent == manifest_agent(*self),
            dependency_views(r.dependencies@) == manifest_dependencies(*self),
    {
        match self {
            Manifest::CargoToml(c) => c.dependency_tree(),
            Manifest::PackageJson(p) => p.dependency_tree(),
            Manifest::TauriConfJson(t) => {
                let tree = DependencyTree::new(t.agent());
                assert(dependency_views(tree.dependencies@) == Seq::<DependencyView>::empty());
                tree
            },
        }
    }
}

} // verus!
