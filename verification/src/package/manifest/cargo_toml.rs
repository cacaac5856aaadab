//! The `Cargo.toml` manifest.

use crate::dependency::{DependencyKind, DependencyTree, DependencyView, dependency_views, entry_views, parsed_entries};
use crate::package::Agent;
use vstd::prelude::*;

verus! {

/// The `[package]` table of a `Cargo.toml`.
#[derive(Debug, Clone)]
pub struct CargoPackage {
    pub name: String,
    pub version: String,
}

/// The value of an entry of a dependency table, as far as the library reads it.
#[derive(Debug, Clone)]
pub enum DependencyValue {
    /// The requirement written as a string: `serde = "1.0"`.
    Text(String),
    /// A table whose `version` key holds a string: `serde = { version = "1.0" }`.
    TableWithVersion(String),
    /// A table whose `version` key holds something other than a string.
    TableWithOtherVersion,
    /// A table without a `version` key, such as `{ path = "../core" }`.
    TableWithoutVersion,
    /// Any value that is neither a string nor a table.
    Other,
}

/// Whether the value can be indexed by `version`: a string, or a table that holds
/// the key. The manifest library panics when asked for a missing key.
pub open spec fn value_is_readable(value: DependencyValue) -> bool {
    !(value is TableWithoutVersion || value is Other)
}

/// The requirement that a value gives: the string itself, or the string under the
/// `version` key of a table.
pub open spec fn value_requirement(value: DependencyValue) -> Option<Seq<char>> {
    match value {
        DependencyValue::Text(s) => Some(s@),
        DependencyValue::TableWithVersion(s) => Some(s@),
        _ => None,
    }
}

/// Every value of a dependency table is readable.
pub open spec fn table_is_readable(deps: Seq<(String, DependencyValue)>) -> bool {
    forall|i: int| 0 <= i < deps.len() ==> value_is_readable(#[trigger] deps[i].1)
}

/// The entries of a table that give a requirement, as pairs of name and requirement.
pub open spec fn table_requirements(deps: Seq<(String, DependencyValue)>) -> Seq<(Seq<char>, Seq<char>)>
    decreases deps.len(),
{
    if deps.len() == 0 {
        seq![]
    } else {
        let rest = table_requirements(deps.drop_last());
        match value_requirement(deps.last().1) {
            Some(r) => rest.push((deps.last().0@, r)),
            None => rest,
        }
    }
}

/// The requirement that a dependency table entry gives.
pub fn parse_version(value: &DependencyValue) -> (r: Option<String>)
    requires
        value_is_readable(*value),
    ensures
        opt_view_eq(r, value_requirement(*value)),
{
    match value {
        DependencyValue::Text(s) => Some(s.clone()),
        DependencyValue::TableWithVersion(s) => Some(s.clone()),
        _ => None,
    }
}

/// Whether `after` is what an update to the requirement `req` makes of the entry
/// `before`: a string becomes `req`; a table with a `version` key gets `req`
/// there; any other value stays as it is.
pub open spec fn updated_to(before: DependencyValue, after: DependencyValue, req: Seq<char>) -> bool {
    match before {
        DependencyValue::Text(_) => after matches DependencyValue::Text(s) && s@ == req,
        DependencyValue::Other => after is Other,
        _ => after matches DependencyValue::TableWithVersion(s) && s@ == req,
    }
}

/// The entry of a dependency table after an update to the target `target`, which
/// is written without a leading `^`. A table without a `version` key cannot be
/// updated: the manifest library panics when asked for the missing key.
pub fn updated_value(value: &DependencyValue, target: &str) -> (r: DependencyValue)
    requires
        !(*value is TableWithoutVersion),
    ensures
        updated_to(*value, r, crate::package::manifest::cargo_requirement(target@)),
{
    let req = crate::package::manifest::cargo_requirement_of(target);
    match value {
        DependencyValue::Text(_) => DependencyValue::Text(req),
        DependencyValue::Other => DependencyValue::Other,
        _ => DependencyValue::TableWithVersion(req),
    }
}

/// Whether an optional string holds the characters of `o`.
pub open spec fn opt_view_eq(r: Option<String>, o: Option<Seq<char>>) -> bool {
    match (r, o) {
        (Some(s), Some(t)) => s@ == t,
        (None, None) => true,
        _ => false,
    }
}

/// The entries of a dependency table that give a requirement, with it.
pub fn parse_dependencies(deps: &Vec<(String, DependencyValue)>) -> (r: Vec<(String, String)>)
    requires
        table_is_readable(deps@),
    ensures
        entry_views(r@) == table_requirements(deps@),
{
    let mut r: Vec<(String, String)> = Vec::new();
    let mut i: usize = 0;
    while i < deps.len()
        invariant
            i <= deps.len(),
            table_is_readable(deps@),
            entry_views(r@) == table_requirements(deps@.take(i as int)),
        decreases deps.len() - i,
    {
        assert(deps@.take(i + 1).drop_last() == deps@.take(i as int));
        assert(deps@.take(i + 1).last() == deps@[i as int]);
        let (name, value) = &deps[i];
        match parse_version(value) {
            Some(version) => {
                let ghost before = entry_views(r@);
                r.push((name.clone(), version));
                assert(entry_views(r@) =~= before.push((name@, version@)));
            },
            None => {},
        }
        i = i + 1;
    }
    assert(deps@.take(deps.len() as int) == deps@);
    r
}

/// The entries of an optional table that give a requirement.
pub open spec fn optional_requirements(deps: Option<Vec<(String, DependencyValue)>>) -> Seq<(Seq<char>, Seq<char>)> {
    match deps {
        Some(d) => table_requirements(d@),
        None => seq![],
    }
}

/// Every table of the manifest that is present is readable.
pub open spec fn optional_is_readable(deps: Option<Vec<(String, DependencyValue)>>) -> bool {
    match deps {
        Some(d) => table_is_readable(d@),
        None => true,
    }
}

/// A `Cargo.toml` manifest, as far as the library reads it.
#[derive(Debug, Clone)]
pub struct CargoToml {
    pub package: CargoPackage,
    pub dependencies: Option<Vec<(String, DependencyValue)>>,
    pub dev_dependencies: Option<Vec<(String, DependencyValue)>>,
    pub build_dependencies: Option<Vec<(String, DependencyValue)>>,
}

/// The dependencies a `Cargo.toml` lists: normal ones, then development ones, then
/// build ones, each with a requirement that parses.
pub open spec fn cargo_dependencies(m: CargoToml) -> Seq<DependencyView> {
    parsed_entries(optional_requirements(m.dependencies), DependencyKind::Normal) + parsed_entries(
        optional_requirements(m.dev_dependencies),
        DependencyKind::Development,
    ) + parsed_entries(optional_requirements(m.build_dependencies), DependencyKind::Build)
}

/// Whether every dependency table of the manifest can be read.
pub open spec fn cargo_is_readable(m: CargoToml) -> bool {
    &&& optional_is_readable(m.dependencies)
    &&& optional_is_readable(m.dev_dependencies)
    &&& optional_is_readable(m.build_dependencies)
}

fn table_readable(deps: &Option<Vec<(String, DependencyValue)>>) -> (b: bool)
    ensures
        b == optional_is_readable(*deps),
{
    match deps {
        Some(d) => {
            let mut i: usize = 0;
            while i < d.len()
                invariant
                    i <= d.len(),
                    *deps == Some(*d),
                    forall|j: int| 0 <= j < i ==> value_is_readable(#[trigger] d@[j].1),
                decreases d.len() - i,
            {
                match &d[i].1 {
                    DependencyValue::TableWithoutVersion | DependencyValue::Other => {
                        assert(!value_is_readable(d@[i as int].1));
                        return false;
                    },
                    _ => {},
                }
                i = i + 1;
            }
            true
        },
        None => true,
    }
}

fn add_table(
    tree: &mut DependencyTree,
    deps: &Option<Vec<(String, DependencyValue)>>,
    kind: DependencyKind,
)
    requires
        optional_is_readable(*deps),
    ensures
        final(tree).agent == old(tree).agent,
        dependency_views(final(tree).dependencies@) == dependency_views(old(tree).dependencies@)
            + parsed_entries(optional_requirements(*deps), kind),
{
    match deps {
        Some(d) => {
            let entries = parse_dependencies(d);
            tree.add_many(&entries, kind);
        },
        None => {
            assert(dependency_views(tree.dependencies@) == dependency_views(tree.dependencies@)
                + parsed_entries(optional_requirements(*deps), kind));
        },
    }
}

impl CargoToml {
    /// Cargo manages the package.
    pub fn agent(&self) -> (r: Agent)
        ensures
            r == Agent::Cargo,
    {
        Agent::Cargo
    }

    /// The name of the package.
    pub fn name(&self) -> (r: &String)
        ensures
            r@ == self.package.name@,
    {
        &self.package.name
    }

    /// Whether every dependency table of the manifest can be read: no entry is a
    /// table without a `version` key or a value that is neither string nor table.
    pub fn is_readable(&self) -> (b: bool)
        ensures
            b == cargo_is_readable(*self),
    {
        table_readable(&self.dependencies) && table_readable(&self.dev_dependencies)
            && table_readable(&self.build_dependencies)
    }

    /// The dependencies the manifest lists: normal, development and build ones, in
    /// that order, each table in its own order, those whose requirement does not
    /// parse left out.
    pub fn dependency_tree(&self) -> (r: DependencyTree)
        requires
            cargo_is_readable(*self),
        ensures
            r.agent == Agent::Cargo,
            dependency_views(r.dependencies@) == cargo_dependencies(*self),
    {
        let mut tree = DependencyTree::new(self.agent());
        assert(dependency_views(tree.dependencies@) == Seq::<DependencyView>::empty());
        add_table(&mut tree, &self.dependencies, DependencyKind::Normal);
        add_table(&mut tree, &self.dev_dependencies, DependencyKind::Development);
        add_table(&mut tree, &self.build_dependencies, DependencyKind::Build);
        tree
    }
}

} // verus!
