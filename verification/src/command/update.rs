//! The options of the command that updates dependencies.

use super::PromptResult;
use crate::dependency::{Dependency, DependencyKind, DependencyTree};
use crate::order::{is_sorted, sort_ranked, Ranked};
use crate::package::{package_order, Agent, Package};
use crate::text::views;
use vstd::prelude::*;

verus! {

/// The options of the update command, as given on the command line or in the
/// configuration file.
#[derive(Debug, Default)]
pub struct UpdateOptions {
    /// Type of the release.
    pub release: Option<String>,
    /// Include untracked files with `git add <PATHSPEC>`.
    pub add: Option<String>,
    /// Only update packages with the specified agent.
    pub agent: Option<Vec<String>>,
    /// Commit the modified packages.
    pub commit_message: Option<String>,
    /// Dependencies to update.
    pub dependency: Option<Vec<String>>,
    /// Show preview and exit without updating.
    pub dry_run: bool,
    /// Update global dependencies.
    pub global: bool,
    /// Do not ask for consent before updating.
    pub no_ask: bool,
    /// Do not commit the modified packages.
    pub no_commit: bool,
    /// Do not push the commit.
    pub no_push: bool,
    /// Bypass `pre-commit` and `commit-msg` hooks.
    pub skip_hooks: bool,
    /// Package to update.
    pub package: Option<Vec<String>>,
    /// Where to search for packages.
    pub path: Option<Vec<String>>,
    /// Whether to only update peer dependencies.
    pub peer: bool,
    /// Select all dependencies.
    pub select_all: bool,
    /// Skip updating dependencies.
    pub skip_dependency: Option<Vec<String>>,
}

/// An option kept where it is set, else taken from the other.
pub open spec fn kept_or_taken<T>(mine: Option<T>, theirs: Option<T>) -> Option<T> {
    if mine is Some {
        mine
    } else {
        theirs
    }
}

/// What is left of the other's option: nothing where it was taken.
pub open spec fn left_after<T>(mine: Option<T>, theirs: Option<T>) -> Option<T> {
    if mine is Some {
        theirs
    } else {
        None
    }
}

fn take_if_unset<T>(mine: &mut Option<T>, theirs: &mut Option<T>)
    ensures
        *final(mine) == kept_or_taken(*old(mine), *old(theirs)),
        *final(theirs) == left_after(*old(mine), *old(theirs)),
{
    if mine.is_none() {
        *mine = theirs.take();
    }
}

/// Whether `names` holds `name`.
pub open spec fn names_hold(names: Option<Vec<String>>, name: Seq<char>) -> bool {
    match names {
        Some(n) => views(n@).contains(name),
        None => false,
    }
}

/// A list holds a name exactly when one of its names, wherever it stands in the
/// list, is that name; no list holds a name where no list is given.
pub proof fn lemma_names_hold(names: Option<Vec<String>>, name: Seq<char>)
    ensures
        names_hold(names, name) <==> (names matches Some(n) && exists|i: int|
            0 <= i < n@.len() && #[trigger] n@[i]@ == name),
{
    if let Some(n) = names {
        if views(n@).contains(name) {
            let i = choose|i: int| 0 <= i < views(n@).len() && views(n@)[i] == name;
            assert(n@[i]@ == name);
        }
        if exists|i: int| 0 <= i < n@.len() && #[trigger] n@[i]@ == name {
            let i = choose|i: int| 0 <= i < n@.len() && #[trigger] n@[i]@ == name;
            assert(views(n@)[i] == name);
        }
    }
}

/// Whether `names` is absent or empty.
pub open spec fn names_empty(names: Option<Vec<String>>) -> bool {
    match names {
        Some(n) => n@.len() == 0,
        None => true,
    }
}

/// Whether the options let a dependency through: it is not skipped, it is among
/// those chosen where some are, and it is a peer dependency exactly when only peer
/// dependencies are asked for.
pub open spec fn lets_through(o: UpdateOptions, name: Seq<char>, kind: DependencyKind) -> bool {
    &&& !names_hold(o.skip_dependency, name)
    &&& (names_empty(o.dependency) || names_hold(o.dependency, name))
    &&& (o.peer <==> kind == DependencyKind::Peer)
}

fn holds(names: &Option<Vec<String>>, name: &String) -> (b: bool)
    ensures
        b == names_hold(*names, name@),
{
    match names {
        Some(n) => {
            let mut i: usize = 0;
            while i < n.len()
                invariant
                    i <= n.len(),
                    *names == Some(*n),
                    forall|j: int| 0 <= j < i ==> n@[j]@ != name@,
                decreases n.len() - i,
            {
                if n[i] == *name {
                    assert(views(n@)[i as int] == name@);
                    assert(views(n@).contains(name@));
                    return true;
                }
                i = i + 1;
            }
            assert forall|j: int| 0 <= j < views(n@).len() implies views(n@)[j] != name@ by {
                assert(views(n@)[j] == n@[j]@);
            }
            false
        },
        None => false,
    }
}

impl UpdateOptions {
    /// Completes these options with `value`: each option not set here is taken from
    /// `value` (and left unset there); each flag set in either is set.
    pub fn merge(&mut self, value: &mut UpdateOptions)
        ensures
            final(self).release == kept_or_taken(old(self).release, old(value).release),
            final(self).add == kept_or_taken(old(self).add, old(value).add),
            final(self).agent == kept_or_taken(old(self).agent, old(value).agent),
            final(self).commit_message == kept_or_taken(
                old(self).commit_message,
                old(value).commit_message,
            ),
            final(self).dependency == kept_or_taken(old(self).dependency, old(value).dependency),
            final(self).package == kept_or_taken(old(self).package, old(value).package),
            final(self).skip_dependency == kept_or_taken(
                old(self).skip_dependency,
                old(value).skip_dependency,
            ),
            final(value).release == left_after(old(self).release, old(value).release),
            final(value).add == left_after(old(self).add, old(value).add),
            final(value).agent == left_after(old(self).agent, old(value).agent),
            final(value).commit_message == left_after(
                old(self).commit_message,
                old(value).commit_message,
            ),
            final(value).dependency == left_after(old(self).dependency, old(value).dependency),
            final(value).package == left_after(old(self).package, old(value).package),
            final(value).skip_dependency == left_after(
                old(self).skip_dependency,
                old(value).skip_dependency,
            ),
            final(self).dry_run == (old(self).dry_run || old(value).dry_run),
            final(self).global == (old(self).global || old(value).global),
            final(self).no_ask == (old(self).no_ask || old(value).no_ask),
            final(self).no_commit == (old(self).no_commit || old(value).no_commit),
            final(self).no_push == (old(self).no_push || old(value).no_push),
            final(self).skip_hooks == (old(self).skip_hooks || old(value).skip_hooks),
            final(self).peer == (old(self).peer || old(value).peer),
            final(self).select_all == (old(self).select_all || old(value).select_all),
            final(self).path == old(self).path,
            final(value).path == old(value).path,
            final(value).dry_run == old(value).dry_run,
            final(value).global == old(value).global,
            final(value).no_ask == old(value).no_ask,
            final(value).no_commit == old(value).no_commit,
            final(value).no_push == old(value).no_push,
            final(value).skip_hooks == old(value).skip_hooks,
            final(value).peer == old(value).peer,
            final(value).select_all == old(value).select_all,
    {
        take_if_unset(&mut self.release, &mut value.release);
        take_if_unset(&mut self.add, &mut value.add);
        take_if_unset(&mut self.agent, &mut value.agent);
        take_if_unset(&mut self.commit_message, &mut value.commit_message);
        take_if_unset(&mut self.dependency, &mut value.dependency);
        take_if_unset(&mut self.package, &mut value.package);
        take_if_unset(&mut self.skip_dependency, &mut value.skip_dependency);

        self.dry_run = self.dry_run || value.dry_run;
        self.global = self.global || value.global;
        self.no_ask = self.no_ask || value.no_ask;
        self.no_commit = self.no_commit || value.no_commit;
        self.no_push = self.no_push || value.no_push;
        self.skip_hooks = self.skip_hooks || value.skip_hooks;
        self.peer = self.peer || value.peer;
        self.select_all = self.select_all || value.select_all;
    }

    /// Whether the options let `dependency` through, before its registry is asked
    /// whether it can be updated.
    pub fn lets_through(&self, name: &String, kind: DependencyKind) -> (b: bool)
        ensures
            b == lets_through(*self, name@, kind),
    {
        if holds(&self.skip_dependency, name) {
            return false;
        }
        let chosen_empty = match &self.dependency {
            Some(n) => n.len() == 0,
            None => true,
        };
        if !chosen_empty && !holds(&self.dependency, name) {
            return false;
        }
        if self.peer && !kind.is_peer() {
            return false;
        }
        if !self.peer && kind.is_peer() {
            return false;
        }
        true
    }
}

/// The dependencies that the options let through and that have a version to move
/// to (`updatable`, one flag per dependency), in order.
pub open spec fn kept_dependencies(o: UpdateOptions, ds: Seq<Dependency>, updatable: Seq<bool>) -> Seq<
    Dependency,
>
    decreases ds.len(),
{
    if ds.len() == 0 {
        seq![]
    } else {
        let rest = kept_dependencies(o, ds.drop_last(), updatable);
        let d = ds.last();
        if lets_through(o, d@.0, d@.2) && updatable[ds.len() - 1] {
            rest.push(d)
        } else {
            rest
        }
    }
}

/// The filter keeps exactly the dependencies that the options let through and
/// that have a version to move to: a dependency is kept where one at an index
/// with both holds it, and every such one is kept.
pub proof fn lemma_kept_dependencies(o: UpdateOptions, ds: Seq<Dependency>, updatable: Seq<bool>, d: Dependency)
    requires
        updatable.len() == ds.len(),
    ensures
        kept_dependencies(o, ds, updatable).contains(d) <==> exists|i: int|
            0 <= i < ds.len() && ds[i] == d && lets_through(o, d@.0, d@.2) && #[trigger] updatable[i],
    decreases ds.len(),
{
    if ds.len() > 0 {
        let rest = ds.drop_last();
        let n = ds.len() - 1;
        let r = kept_dependencies(o, rest, updatable);
        lemma_kept_dependencies(o, rest, updatable.take(n), d);
        assert(kept_dependencies(o, rest, updatable.take(n)) == r) by {
            lemma_kept_prefix(o, rest, updatable, updatable.take(n));
        }
        let keep = lets_through(o, ds.last()@.0, ds.last()@.2) && updatable[n];
        if exists|i: int| 0 <= i < ds.len() && ds[i] == d && lets_through(o, d@.0, d@.2) && #[trigger] updatable[i] {
            let i = choose|i: int| 0 <= i < ds.len() && ds[i] == d && lets_through(o, d@.0, d@.2) && #[trigger] updatable[i];
            if i < n {
                assert(rest[i] == d && updatable.take(n)[i]);
                assert(r.contains(d));
                if keep {
                    let k = choose|k: int| 0 <= k < r.len() && r[k] == d;
                    assert(r.push(ds.last())[k] == d);
                }
            } else {
                assert(keep);
                assert(r.push(ds.last())[r.len() as int] == d);
            }
        }
        if kept_dependencies(o, ds, updatable).contains(d) {
            if keep && d == ds.last() {
                assert(ds[n] == d && updatable[n]);
            } else {
                if keep {
                    let k = choose|k: int| 0 <= k < r.len() + 1 && r.push(ds.last())[k] == d;
                    assert(k < r.len());
                    assert(r[k] == d);
                }
                assert(r.contains(d));
                let i = choose|i: int| 0 <= i < rest.len() && rest[i] == d && lets_through(o, d@.0, d@.2) && #[trigger] updatable.take(n)[i];
                assert(ds[i] == d && updatable[i]);
            }
        }
    }
}

proof fn lemma_kept_prefix(o: UpdateOptions, ds: Seq<Dependency>, u: Seq<bool>, w: Seq<bool>)
    requires
        ds.len() <= u.len(),
        ds.len() <= w.len(),
        forall|i: int| 0 <= i < ds.len() ==> u[i] == w[i],
    ensures
        kept_dependencies(o, ds, u) == kept_dependencies(o, ds, w),
    decreases ds.len(),
{
    if ds.len() > 0 {
        lemma_kept_prefix(o, ds.drop_last(), u, w);
    }
}

/// A package with the dependencies of it that are to be updated.
#[derive(Debug)]
pub struct PackageTree {
    pub package: Package,
    pub tree: DependencyTree,
}

impl Ranked for PackageTree {
    open spec fn rank_order(&self, other: &Self) -> int {
        package_order(self.package, other.package)
    }

    fn compare_rank(&self, other: &Self) -> (r: i8) {
        self.package.compare_rank(&other.package)
    }
}

impl UpdateOptions {
    /// Keeps the dependencies of `tree` that the options let through and that have
    /// a version to move to, as `updatable` tells for each, in order.
    pub fn filter_dependencies(&self, tree: &mut DependencyTree, updatable: &Vec<bool>)
        requires
            updatable@.len() == old(tree).dependencies@.len(),
        ensures
            final(tree).agent == old(tree).agent,
            final(tree).dependencies@ == kept_dependencies(
                *self,
                old(tree).dependencies@,
                updatable@,
            ),
    {
        let mut rest: Vec<Dependency> = Vec::new();
        core::mem::swap(&mut rest, &mut tree.dependencies);
        let ghost all = rest@;
        let n = rest.len();
        let mut kept: Vec<Dependency> = Vec::new();
        let mut i: usize = 0;
        while rest.len() > 0
            invariant
                i <= all.len(),
                all.len() == n,
                rest@ == all.skip(i as int),
                updatable@.len() == all.len(),
                kept@ == kept_dependencies(*self, all.take(i as int), updatable@),
            decreases rest.len(),
        {
            let d = rest.remove(0);
            assert(all.take(i + 1).drop_last() == all.take(i as int));
            assert(all.take(i + 1).last() == d);
            if self.lets_through(d.name(), d.kind()) && updatable[i] {
                kept.push(d);
            }
            i = i + 1;
        }
        assert(all.take(i as int) == all);
        tree.dependencies = kept;
    }

    /// The package with the dependencies of it to update, in order, or `None` where
    /// none is left.
    pub fn filter_tree(&self, package: Package, tree: DependencyTree, updatable: &Vec<bool>) -> (r:
        Option<PackageTree>)
        requires
            updatable@.len() == tree.dependencies@.len(),
        ensures
            match r {
                Some(t) => {
                    let kept = kept_dependencies(*self, tree.dependencies@, updatable@);
                    &&& kept.len() > 0
                    &&& t.package == package
                    &&& t.tree.agent == tree.agent
                    &&& t.tree.dependencies@.to_multiset() == kept.to_multiset()
                    &&& is_sorted(t.tree.dependencies@)
                },
                None => kept_dependencies(*self, tree.dependencies@, updatable@).len() == 0,
            },
    {
        let mut tree = tree;
        self.filter_dependencies(&mut tree, updatable);
        if tree.dependencies.len() == 0 {
            None
        } else {
            tree.sort();
            Some(PackageTree { package, tree })
        }
    }
}

/// The trees with some dependency left, in order.
pub open spec fn chosen_trees(ts: Seq<PackageTree>) -> Seq<PackageTree>
    decreases ts.len(),
{
    if ts.len() == 0 {
        seq![]
    } else {
        let rest = chosen_trees(ts.drop_last());
        if ts.last().tree.dependencies@.len() > 0 {
            rest.push(ts.last())
        } else {
            rest
        }
    }
}

/// After a choice, exactly the trees with some dependency left are kept.
pub proof fn lemma_chosen_trees(ts: Seq<PackageTree>, t: PackageTree)
    ensures
        chosen_trees(ts).contains(t) <==> (ts.contains(t) && t.tree.dependencies@.len() > 0),
    decreases ts.len(),
{
    if ts.len() > 0 {
        let rest = ts.drop_last();
        let n = ts.len() - 1;
        let r = chosen_trees(rest);
        lemma_chosen_trees(rest, t);
        if rest.contains(t) {
            let i = choose|i: int| 0 <= i < rest.len() && rest[i] == t;
            assert(ts[i] == t);
        }
        if ts.contains(t) && t != ts.last() {
            let i = choose|i: int| 0 <= i < ts.len() && ts[i] == t;
            assert(i < n);
            assert(rest[i] == t);
        }
        if t == ts.last() {
            assert(ts[n] == t);
        }
        if ts.last().tree.dependencies@.len() > 0 {
            let q = r.push(ts.last());
            if r.contains(t) {
                let i = choose|i: int| 0 <= i < r.len() && r[i] == t;
                assert(q[i] == t);
            }
            if t == ts.last() {
                assert(q[r.len() as int] == t);
            }
            if q.contains(t) && t != ts.last() {
                let i = choose|i: int| 0 <= i < q.len() && q[i] == t;
                assert(r[i] == t);
            }
        }
    }
}

/// After the user chose dependencies: the trees with some dependency left, in
/// order, and whether to go on (`Abort` where none is left).
pub fn keep_chosen(trees: Vec<PackageTree>) -> (r: (Vec<PackageTree>, PromptResult))
    ensures
        r.0@ == chosen_trees(trees@),
        r.1 == if r.0@.len() == 0 {
            PromptResult::Abort
        } else {
            PromptResult::Continue
        },
{
    let ghost all = trees@;
    let mut rest = trees;
    let mut kept: Vec<PackageTree> = Vec::new();
    let ghost mut i: int = 0;
    while rest.len() > 0
        invariant
            0 <= i <= all.len(),
            rest@ == all.skip(i),
            kept@ == chosen_trees(all.take(i)),
        decreases rest.len(),
    {
        let t = rest.remove(0);
        assert(all.take(i + 1).drop_last() == all.take(i));
        assert(all.take(i + 1).last() == t);
        if t.tree.dependencies.len() > 0 {
            kept.push(t);
        }
        proof {
            i = i + 1;
        }
    }
    assert(all.take(i) == all);
    let result = if kept.len() == 0 {
        PromptResult::Abort
    } else {
        PromptResult::Continue
    };
    (kept, result)
}

/// The first agent of the Node.js ecosystem among `agents`.
pub open spec fn first_node_agent(agents: Seq<Agent>) -> Option<Agent>
    decreases agents.len(),
{
    if agents.len() == 0 {
        None
    } else {
        match first_node_agent(agents.drop_last()) {
            Some(a) => Some(a),
            None => if agents.last() == Agent::Npm || agents.last() == Agent::Pnpm
                || agents.last() == Agent::Yarn {
                Some(agents.last())
            } else {
                None
            },
        }
    }
}

/// The installer is an agent of the Node.js ecosystem found among the agents, and
/// no such agent comes before it; there is none exactly where no agent is one.
pub proof fn lemma_first_node_agent(agents: Seq<Agent>)
    ensures
        first_node_agent(agents) is None <==> forall|i: int|
            0 <= i < agents.len() ==> !(#[trigger] agents[i] == Agent::Npm || agents[i] == Agent::Pnpm
                || agents[i] == Agent::Yarn),
        first_node_agent(agents) matches Some(a) ==> exists|i: int|
            0 <= i < agents.len() && #[trigger] agents[i] == a && (a == Agent::Npm || a == Agent::Pnpm
                || a == Agent::Yarn) && forall|j: int|
                0 <= j < i ==> !(#[trigger] agents[j] == Agent::Npm || agents[j] == Agent::Pnpm
                    || agents[j] == Agent::Yarn),
    decreases agents.len(),
{
    if agents.len() > 0 {
        let rest = agents.drop_last();
        let n = agents.len() - 1;
        lemma_first_node_agent(rest);
        assert forall|i: int| 0 <= i < n implies #[trigger] rest[i] == agents[i] by {}
        match first_node_agent(rest) {
            Some(a) => {
                let i = choose|i: int|
                    0 <= i < rest.len() && #[trigger] rest[i] == a && (a == Agent::Npm || a == Agent::Pnpm
                        || a == Agent::Yarn) && forall|j: int|
                        0 <= j < i ==> !(#[trigger] rest[j] == Agent::Npm || rest[j] == Agent::Pnpm
                            || rest[j] == Agent::Yarn);
                assert(agents[i] == a);
                assert forall|j: int| 0 <= j < i implies !(#[trigger] agents[j] == Agent::Npm
                    || agents[j] == Agent::Pnpm || agents[j] == Agent::Yarn) by {
                    assert(rest[j] == agents[j]);
                }
            },
            None => {
                assert forall|j: int| 0 <= j < n implies !(#[trigger] agents[j] == Agent::Npm
                    || agents[j] == Agent::Pnpm || agents[j] == Agent::Yarn) by {
                    assert(rest[j] == agents[j]);
                }
            },
        }
    }
}

/// The agent that installs the Node.js packages after an update: the first of
/// that ecosystem among `agents`.
pub fn node_installer(agents: &Vec<Agent>) -> (r: Option<Agent>)
    ensures
        r == first_node_agent(agents@),
{
    let mut i: usize = 0;
    while i < agents.len()
        invariant
            i <= agents.len(),
            first_node_agent(agents@.take(i as int)) is None,
        decreases agents.len() - i,
    {
        assert(agents@.take(i + 1).drop_last() == agents@.take(i as int));
        if agents[i].is_node() {
            proof {
                lemma_first_node_agent_prefix(agents@, i as int + 1);
            }
            return Some(agents[i]);
        }
        i = i + 1;
    }
    assert(agents@.take(i as int) == agents@);
    None
}

proof fn lemma_first_node_agent_prefix(agents: Seq<Agent>, n: int)
    requires
        0 <= n <= agents.len(),
        first_node_agent(agents.take(n)) is Some,
    ensures
        first_node_agent(agents) == first_node_agent(agents.take(n)),
    decreases agents.len() - n,
{
    if n < agents.len() {
        assert(agents.take(n + 1).drop_last() == agents.take(n));
        lemma_first_node_agent_prefix(agents, n + 1);
    } else {
        assert(agents.take(n) == agents);
    }
}

} // verus!
