//! The `package.json` manifest.

use crate::dependency::{DependencyKind, DependencyTree, DependencyView, EntryView, dependency_views, entry_views, parsed_entries};
use crate::package::agent::{Agent, agent_of_package_manager};
use crate::text::opt_view;
use vstd::prelude::*;

verus! {

/// A `package.json` manifest, as far as the library reads it.
#[derive(Debug, Clone)]
pub struct PackageJson {
    pub name: String,
    pub version: String,
    pub package_manager: Option<String>,
    pub dependencies: Option<Vec<(String, String)>>,
    pub dev_dependencies: Option<Vec<(String, String)>>,
    pub peer_dependencies: Option<Vec<(String, String)>>,
}

/// The entries of an optional table.
pub open spec fn optional_entries(deps: Option<Vec<(String, String)>>) -> Seq<EntryView> {
    match deps {
        Some(d) => entry_views(d@),
        None => seq![],
    }
}

/// The dependencies a `package.json` lists: normal ones, then development ones,
/// then peer ones, each with a requirement that parses.
pub open spec fn package_json_dependencies(m: PackageJson) -> Seq<DependencyView> {
    parsed_entries(optional_entries(m.dependencies), DependencyKind::Normal) + parsed_entries(
        optional_entries(m.dev_dependencies),
        DependencyKind::Development,
    ) + parsed_entries(optional_entries(m.peer_dependencies), DependencyKind::Peer)
}

fn add_table(tree: &mut DependencyTree, deps: &Option<Vec<(String, String)>>, kind: DependencyKind)
    ensures
        final(tree).agent == old(tree).agent,
        dependency_views(final(tree).dependencies@) == dependency_views(old(tree).dependencies@)
            + parsed_entries(optional_entries(*deps), kind),
{
    match deps {
        Some(d) => {
            tree.add_many(d, kind);
        },
        None => {
            assert(dependency_views(tree.dependencies@) == dependency_views(tree.dependencies@)
                + parsed_entries(optional_entries(*deps), kind));
        },
    }
}

impl PackageJson {
    /// The agent named by the `packageManager` field: pnpm or yarn where it begins
    /// with their name, npm otherwise.
    pub fn agent(&self) -> (r: Agent)
        ensures
            r == agent_of_package_manager(opt_view(self.package_manager)),
    {
        match &self.package_manager {
            Some(pm) => Agent::from_package_manager(Some(pm.as_str())),
            None => Agent::from_package_manager(None),
        }
    }

    /// The name of the package.
    pub fn name(&self) -> (r: &String)
        ensures
            r@ == self.name@,
    {
        &self.name
    }

    /// The dependencies the manifest lists: normal, development and peer ones, in
    /// that order, each table in its own order, those whose requirement does not
    /// parse left out.
    pub fn dependency_tree(&self) -> (r: DependencyTree)
        ensures
            r.agent == agent_of_package_manager(opt_view(self.package_manager)),
            dependency_views(r.dependencies@) == package_json_dependencies(*self),
    {
        let mut tree = DependencyTree::new(self.agent());
        assert(dependency_views(tree.dependencies@) == Seq::<DependencyView>::empty());
        add_table(&mut tree, &self.dependencies, DependencyKind::Normal);
        add_table(&mut tree, &self.dev_dependencies, DependencyKind::Development);
        add_table(&mut tree, &self.peer_dependencies, DependencyKind::Peer);
        tree
    }
}

} // verus!
