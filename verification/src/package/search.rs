//! Choosing, among the packages found under some paths, those that a search asks for.

use crate::error::Error;
use crate::package::agent::{Agent, agent_named};
use crate::package::manifest::manifest_agent;
use crate::package::Package;
use crate::text::{upper, views};
use itertools::Itertools;
use vstd::prelude::*;

verus! {

/// The elements of `s` in order, each kept only where it occurs for the first time.
pub open spec fn first_occurrences<A>(s: Seq<A>) -> Seq<A>
    decreases s.len(),
{
    if s.len() == 0 {
        seq![]
    } else {
        let r = first_occurrences(s.drop_last());
        if r.contains(s.last()) {
            r
        } else {
            r.push(s.last())
        }
    }
}

/// Keeping first occurrences loses no element and repeats none: the result holds
/// exactly the elements of `s`, each once.
pub proof fn lemma_first_occurrences<A>(s: Seq<A>)
    ensures
        forall|x: A| first_occurrences(s).contains(x) <==> s.contains(x),
        forall|i: int, j: int|
            0 <= i < j < first_occurrences(s).len() ==> first_occurrences(s)[i] != first_occurrences(
                s,
            )[j],
    decreases s.len(),
{
    if s.len() > 0 {
        let rest = s.drop_last();
        lemma_first_occurrences(rest);
        let r = first_occurrences(rest);
        assert forall|x: A| first_occurrences(s).contains(x) <==> s.contains(x) by {
            if s.contains(x) && x != s.last() {
                let i = choose|i: int| 0 <= i < s.len() && s[i] == x;
                assert(rest[i] == x);
            }
            if rest.contains(x) {
                let i = choose|i: int| 0 <= i < rest.len() && rest[i] == x;
                assert(s[i] == x);
            }
            if x == s.last() {
                assert(s[s.len() - 1] == x);
            }
            if !r.contains(s.last()) {
                let q = r.push(s.last());
                if r.contains(x) {
                    let i = choose|i: int| 0 <= i < r.len() && r[i] == x;
                    assert(q[i] == x);
                }
                if x == s.last() {
                    assert(q[r.len() as int] == x);
                }
                if q.contains(x) && x != s.last() {
                    let i = choose|i: int| 0 <= i < q.len() && q[i] == x;
                    assert(r[i] == x);
                }
            }
        }
        if !r.contains(s.last()) {
            let q = r.push(s.last());
            assert forall|i: int, j: int| 0 <= i < j < q.len() implies q[i] != q[j] by {
                if j == r.len() {
                    assert(q[i] == r[i]);
                    assert(q[j] == s.last());
                } else {
                    assert(q[i] == r[i] && q[j] == r[j]);
                }
            }
        }
    }
}

proof fn lemma_distinct_paths_unique(ps: Seq<Package>)
    ensures
        forall|i: int, j: int|
            0 <= i < j < distinct_paths(ps).len() ==> distinct_paths(ps)[i].path@ != distinct_paths(
                ps,
            )[j].path@,
    decreases ps.len(),
{
    if ps.len() > 0 {
        let rest = ps.drop_last();
        lemma_distinct_paths_unique(rest);
        let r = distinct_paths(rest);
        if !(exists|i: int| 0 <= i < r.len() && r[i].path@ == ps.last().path@) {
            let q = r.push(ps.last());
            assert(distinct_paths(ps) == q);
            assert forall|i: int, j: int| 0 <= i < j < q.len() implies q[i].path@ != q[j].path@ by {
                if j == r.len() {
                    assert(q[i] == r[i]);
                } else {
                    assert(q[i] == r[i] && q[j] == r[j]);
                }
            }
        }
    }
}

proof fn lemma_distinct_paths_cover(ps: Seq<Package>)
    ensures
        forall|i: int|
            0 <= i < ps.len() ==> exists|j: int|
                0 <= j < distinct_paths(ps).len() && #[trigger] distinct_paths(ps)[j].path@ == (
                #[trigger] ps[i]).path@,
    decreases ps.len(),
{
    if ps.len() > 0 {
        let rest = ps.drop_last();
        let n = ps.len() - 1;
        lemma_distinct_paths_cover(rest);
        let r = distinct_paths(rest);
        if exists|i: int| 0 <= i < r.len() && r[i].path@ == ps.last().path@ {
            let w = choose|i: int| 0 <= i < r.len() && r[i].path@ == ps.last().path@;
            assert(distinct_paths(ps) == r);
            assert forall|i: int| 0 <= i < ps.len() implies exists|j: int|
                0 <= j < r.len() && #[trigger] r[j].path@ == (#[trigger] ps[i]).path@ by {
                if i < n {
                    assert(rest[i] == ps[i]);
                } else {
                    assert(r[w].path@ == ps[i].path@);
                }
            }
        } else {
            let q = r.push(ps.last());
            assert(distinct_paths(ps) == q);
            assert forall|i: int| 0 <= i < ps.len() implies exists|j: int|
                0 <= j < q.len() && #[trigger] q[j].path@ == (#[trigger] ps[i]).path@ by {
                if i < n {
                    assert(rest[i] == ps[i]);
                    let j = choose|j: int| 0 <= j < r.len() && #[trigger] r[j].path@ == rest[i].path@;
                    assert(q[j] == r[j]);
                } else {
                    assert(q[r.len() as int] == ps[i]);
                }
            }
        }
    }
}

proof fn lemma_distinct_paths_found(ps: Seq<Package>)
    ensures
        forall|j: int|
            0 <= j < distinct_paths(ps).len() ==> ps.contains(#[trigger] distinct_paths(ps)[j]),
    decreases ps.len(),
{
    if ps.len() > 0 {
        let rest = ps.drop_last();
        let n = ps.len() - 1;
        lemma_distinct_paths_found(rest);
        let r = distinct_paths(rest);
        assert forall|j: int| 0 <= j < r.len() implies ps.contains(#[trigger] r[j]) by {
            let k = choose|k: int| 0 <= k < rest.len() && rest[k] == r[j];
            assert(ps[k] == r[j]);
        }
        if !(exists|i: int| 0 <= i < r.len() && r[i].path@ == ps.last().path@) {
            let q = r.push(ps.last());
            assert(distinct_paths(ps) == q);
            assert forall|j: int| 0 <= j < q.len() implies ps.contains(#[trigger] q[j]) by {
                if j < r.len() {
                    assert(q[j] == r[j]);
                } else {
                    assert(ps[n] == q[j]);
                }
            }
        } else {
            assert(distinct_paths(ps) == r);
        }
    }
}

/// Dropping repeated paths keeps one package for every path found and no two with
/// the same path; each kept package was found.
pub proof fn lemma_distinct_paths(ps: Seq<Package>)
    ensures
        forall|i: int, j: int|
            0 <= i < j < distinct_paths(ps).len() ==> distinct_paths(ps)[i].path@ != distinct_paths(
                ps,
            )[j].path@,
        forall|i: int|
            0 <= i < ps.len() ==> exists|j: int|
                0 <= j < distinct_paths(ps).len() && #[trigger] distinct_paths(ps)[j].path@ == (
                #[trigger] ps[i]).path@,
        forall|j: int|
            0 <= j < distinct_paths(ps).len() ==> ps.contains(#[trigger] distinct_paths(ps)[j]),
{
    lemma_distinct_paths_unique(ps);
    lemma_distinct_paths_cover(ps);
    lemma_distinct_paths_found(ps);
}

/// Calls `Itertools::unique`, which drops every element equal to one produced
/// before it and keeps the others in order. Claims exactly that: the result is the
/// first occurrence of each agent, in order.
#[verifier::external_body]
fn unique_agents(agents: Vec<Agent>) -> (r: Vec<Agent>)
    ensures
        r@ == first_occurrences(agents@),
{
    agents.into_iter().unique().collect()
}

/// The agents named by `names`, read in capitals; names of no agent are dropped.
pub open spec fn named_agents(names: Seq<Seq<char>>) -> Seq<Agent>
    decreases names.len(),
{
    if names.len() == 0 {
        seq![]
    } else {
        let r = named_agents(names.drop_last());
        match agent_named(upper(names.last())) {
            Some(a) => r.push(a),
            None => r,
        }
    }
}

/// The packages of `ps` whose path no earlier package has.
pub open spec fn distinct_paths(ps: Seq<Package>) -> Seq<Package>
    decreases ps.len(),
{
    if ps.len() == 0 {
        seq![]
    } else {
        let r = distinct_paths(ps.drop_last());
        if exists|i: int| 0 <= i < r.len() && r[i].path@ == ps.last().path@ {
            r
        } else {
            r.push(ps.last())
        }
    }
}

/// The packages of `ps` whose name is one of `names`; all of them where `names` is
/// empty.
pub open spec fn with_names(ps: Seq<Package>, names: Seq<Seq<char>>) -> Seq<Package>
    decreases ps.len(),
{
    if names.len() == 0 || ps.len() == 0 {
        ps
    } else {
        let r = with_names(ps.drop_last(), names);
        if names.contains(ps.last().name@) {
            r.push(ps.last())
        } else {
            r
        }
    }
}

/// The name filter keeps a package exactly when it was found and, where names
/// are asked for, its name is one of them, wherever that name stands among them.
pub proof fn lemma_with_names(ps: Seq<Package>, names: Seq<Seq<char>>, p: Package)
    ensures
        with_names(ps, names).contains(p) <==> (ps.contains(p) && (names.len() == 0 || exists|k: int|
            0 <= k < names.len() && #[trigger] names[k] == p.name@)),
    decreases ps.len(),
{
    if names.len() > 0 && ps.len() > 0 {
        let rest = ps.drop_last();
        lemma_with_names(rest, names, p);
        let r = with_names(rest, names);
        if rest.contains(p) {
            let i = choose|i: int| 0 <= i < rest.len() && rest[i] == p;
            assert(ps[i] == p);
        }
        if ps.contains(p) && p != ps.last() {
            let i = choose|i: int| 0 <= i < ps.len() && ps[i] == p;
            assert(i != ps.len() - 1);
            assert(rest[i] == p);
        }
        if names.contains(ps.last().name@) {
            let k = choose|k: int| 0 <= k < names.len() && names[k] == ps.last().name@;
            assert(names[k] == ps.last().name@);
        }
        if exists|k: int| 0 <= k < names.len() && #[trigger] names[k] == ps.last().name@ {
            let k = choose|k: int| 0 <= k < names.len() && #[trigger] names[k] == ps.last().name@;
            assert(names.contains(ps.last().name@));
        }
        if names.contains(ps.last().name@) {
            let q = r.push(ps.last());
            if r.contains(p) {
                let i = choose|i: int| 0 <= i < r.len() && r[i] == p;
                assert(q[i] == p);
            }
            if p == ps.last() {
                assert(q[r.len() as int] == p);
            }
            if q.contains(p) && p != ps.last() {
                let i = choose|i: int| 0 <= i < q.len() && q[i] == p;
                assert(i < r.len());
                assert(r[i] == p);
            }
        }
        assert(ps.contains(p) ==> (rest.contains(p) || p == ps.last()));
        if p == ps.last() {
            assert(ps[ps.len() - 1] == p);
        }
    }
}

/// The agent filter keeps a package exactly when it was found and, where agents
/// are asked for, its agent is one of them.
pub proof fn lemma_with_agents(ps: Seq<Package>, agents: Seq<Agent>, p: Package)
    ensures
        with_agents(ps, agents).contains(p) <==> (ps.contains(p) && (agents.len() == 0 || exists|k: int|
            0 <= k < agents.len() && #[trigger] agents[k] == manifest_agent(p.manifest))),
    decreases ps.len(),
{
    if agents.len() > 0 && ps.len() > 0 {
        let rest = ps.drop_last();
        lemma_with_agents(rest, agents, p);
        let r = with_agents(rest, agents);
        let a = manifest_agent(ps.last().manifest);
        if rest.contains(p) {
            let i = choose|i: int| 0 <= i < rest.len() && rest[i] == p;
            assert(ps[i] == p);
        }
        if ps.contains(p) && p != ps.last() {
            let i = choose|i: int| 0 <= i < ps.len() && ps[i] == p;
            assert(i != ps.len() - 1);
            assert(rest[i] == p);
        }
        if agents.contains(a) {
            let k = choose|k: int| 0 <= k < agents.len() && agents[k] == a;
            assert(agents[k] == a);
        }
        if exists|k: int| 0 <= k < agents.len() && #[trigger] agents[k] == a {
            let k = choose|k: int| 0 <= k < agents.len() && #[trigger] agents[k] == a;
            assert(agents.contains(a));
        }
        if agents.contains(a) {
            let q = r.push(ps.last());
            if r.contains(p) {
                let i = choose|i: int| 0 <= i < r.len() && r[i] == p;
                assert(q[i] == p);
            }
            if p == ps.last() {
                assert(q[r.len() as int] == p);
            }
            if q.contains(p) && p != ps.last() {
                let i = choose|i: int| 0 <= i < q.len() && q[i] == p;
                assert(i < r.len());
                assert(r[i] == p);
            }
        }
        assert(ps.contains(p) ==> (rest.contains(p) || p == ps.last()));
        if p == ps.last() {
            assert(ps[ps.len() - 1] == p);
        }
    }
}

/// The packages of `ps` whose agent is one of `agents`; all of them where `agents`
/// is empty.
pub open spec fn with_agents(ps: Seq<Package>, agents: Seq<Agent>) -> Seq<Package>
    decreases ps.len(),
{
    if agents.len() == 0 || ps.len() == 0 {
        ps
    } else {
        let r = with_agents(ps.drop_last(), agents);
        if agents.contains(manifest_agent(ps.last().manifest)) {
            r.push(ps.last())
        } else {
            r
        }
    }
}

/// A search for packages under some paths, narrowed to some names and agents.
#[derive(Debug)]
pub struct SearchBuilder {
    path: Vec<String>,
    packages: Vec<String>,
    agents: Vec<Agent>,
}

/// A search seen as its paths, the names it keeps and the agents it keeps.
pub type SearchView = (Seq<Seq<char>>, Seq<Seq<char>>, Seq<Agent>);

impl View for SearchBuilder {
    type V = SearchView;

    closed spec fn view(&self) -> SearchView {
        (views(self.path@), views(self.packages@), self.agents@)
    }
}

fn strs_to_strings(items: &[&str]) -> (r: Vec<String>)
    ensures
        views(r@) == items@.map_values(|s: &str| s@),
{
    let mut r: Vec<String> = Vec::new();
    let mut i: usize = 0;
    while i < items.len()
        invariant
            i <= items.len(),
            views(r@) == items@.take(i as int).map_values(|s: &str| s@),
        decreases items.len() - i,
    {
        r.push(items[i].to_string());
        assert(items@.take(i + 1).map_values(|s: &str| s@) =~= items@.take(i as int).map_values(
            |s: &str| s@,
        ).push(items@[i as int]@));
        assert(views(r@) =~= views(r@.drop_last()).push(r@.last()@));
        i = i + 1;
    }
    assert(items@.take(items.len() as int) == items@);
    r
}

fn append_strings(dst: &mut Vec<String>, src: Vec<String>)
    ensures
        views(final(dst)@) == views(old(dst)@) + views(src@),
{
    let mut i: usize = 0;
    while i < src.len()
        invariant
            i <= src.len(),
            views(dst@) == views(old(dst)@) + views(src@).take(i as int),
        decreases src.len() - i,
    {
        let ghost before = views(dst@);
        dst.push(src[i].clone());
        assert(views(dst@) =~= before.push(src@[i as int]@));
        assert(views(src@).take(i + 1) =~= views(src@).take(i as int).push(src@[i as int]@));
        i = i + 1;
    }
    assert(views(src@).take(src.len() as int) == views(src@));
}

fn contains_name(names: &Vec<String>, name: &String) -> (b: bool)
    ensures
        b == views(names@).contains(name@),
{
    let mut i: usize = 0;
    while i < names.len()
        invariant
            i <= names.len(),
            forall|j: int| 0 <= j < i ==> names@[j]@ != name@,
        decreases names.len() - i,
    {
        if names[i] == *name {
            assert(views(names@)[i as int] == name@);
            return true;
        }
        i = i + 1;
    }
    assert forall|j: int| 0 <= j < views(names@).len() implies views(names@)[j] != name@ by {
        assert(views(names@)[j] == names@[j]@);
    }
    false
}

fn contains_agent(agents: &Vec<Agent>, agent: Agent) -> (b: bool)
    ensures
        b == agents@.contains(agent),
{
    let mut i: usize = 0;
    while i < agents.len()
        invariant
            i <= agents.len(),
            forall|j: int| 0 <= j < i ==> agents@[j] != agent,
        decreases agents.len() - i,
    {
        if agents[i] == agent {
            return true;
        }
        i = i + 1;
    }
    false
}

impl SearchBuilder {
    /// A search under `path`, keeping every package.
    pub fn new(path: &[&str]) -> (r: SearchBuilder)
        ensures
            r@ == (path@.map_values(|s: &str| s@), Seq::<Seq<char>>::empty(), Seq::<Agent>::empty()),
    {
        let r = SearchBuilder { path: strs_to_strings(path), packages: Vec::new(), agents: Vec::new() };
        assert(views(r.packages@) =~= Seq::<Seq<char>>::empty());
        r
    }

    /// Keeps, besides the names given before, the packages named `name`.
    pub fn package(self, name: &[&str]) -> (r: SearchBuilder)
        ensures
            r@ == (self@.0, self@.1 + name@.map_values(|s: &str| s@), self@.2),
    {
        let mut r = self;
        let extra = strs_to_strings(name);
        append_strings(&mut r.packages, extra);
        r
    }

    /// Keeps, besides the agents given before, those that `agents` name, read in
    /// capitals; each agent is added once, names of no agent are ignored.
    pub fn agent(self, agents: &[&str]) -> (r: SearchBuilder)
        ensures
            r@ == (self@.0, self@.1, self@.2 + first_occurrences(
                named_agents(agents@.map_values(|s: &str| s@)),
            )),
    {
        let ghost names = agents@.map_values(|s: &str| s@);
        let mut found: Vec<Agent> = Vec::new();
        let mut i: usize = 0;
        while i < agents.len()
            invariant
                i <= agents.len(),
                names == agents@.map_values(|s: &str| s@),
                found@ == named_agents(names.take(i as int)),
            decreases agents.len() - i,
        {
            assert(names.take(i + 1).drop_last() == names.take(i as int));
            assert(names.take(i + 1).last() == agents@[i as int]@);
            let name = crate::text::to_uppercase(agents[i]);
            match Agent::from_name(name.as_str()) {
                Some(a) => found.push(a),
                None => {},
            }
            i = i + 1;
        }
        assert(names.take(agents.len() as int) == names);
        let unique = unique_agents(found);
        let mut r = self;
        let mut k: usize = 0;
        while k < unique.len()
            invariant
                k <= unique.len(),
                views(r.path@) == self@.0,
                views(r.packages@) == self@.1,
                r.agents@ == self@.2 + unique@.take(k as int),
            decreases unique.len() - k,
        {
            r.agents.push(unique[k]);
            assert(unique@.take(k + 1) == unique@.take(k as int).push(unique@[k as int]));
            k = k + 1;
        }
        assert(unique@.take(unique.len() as int) == unique@);
        r
    }

    /// The paths to search under.
    pub fn paths(&self) -> (r: &Vec<String>)
        ensures
            views(r@) == self@.0,
    {
        &self.path
    }

    /// Among the packages found, in the order found: drops those at a path found
    /// before, keeps those with one of the names and one of the agents asked for
    /// (each only where some were asked for), and puts the rest in order. Fails
    /// with `NoPackageFound` where none is left. A search without paths finds
    /// nothing and gives the empty list.
    pub fn select(&self, found: Vec<Package>) -> (r: Result<Vec<Package>, Error>)
        ensures
            self@.0.len() == 0 ==> (r matches Ok(ps) && ps@.len() == 0),
            self@.0.len() > 0 ==> ({
                let kept = with_agents(with_names(distinct_paths(found@), self@.1), self@.2);
                match r {
                    Ok(ps) => kept.len() > 0 && ps@.to_multiset() == kept.to_multiset()
                        && crate::order::is_sorted(ps@),
                    Err(e) => kept.len() == 0 && e is NoPackageFound,
                }
            }),
    {
        if self.path.len() == 0 {
            return Ok(Vec::new());
        }
        let distinct = keep_distinct_paths(found);
        let named = self.keep_names(distinct);
        let kept = self.keep_agents(named);
        if kept.len() == 0 {
            return Err(Error::NoPackageFound);
        }
        Ok(crate::order::sort_ranked(kept))
    }

    fn keep_names(&self, ps: Vec<Package>) -> (r: Vec<Package>)
        ensures
            r@ == with_names(ps@, self@.1),
    {
        if self.packages.len() == 0 {
            return ps;
        }
        let ghost all = ps@;
        let n = ps.len();
        let mut rest = ps;
        let mut r: Vec<Package> = Vec::new();
        let mut i: usize = 0;
        while rest.len() > 0
            invariant
                i <= all.len(),
                rest@ == all.skip(i as int),
                all.len() == n,
                self.packages.len() > 0,
                r@ == with_names(all.take(i as int), self@.1),
            decreases rest.len(),
        {
            assert(all.take(i + 1).drop_last() == all.take(i as int));
            assert(all.take(i + 1).last() == all[i as int]);
            let p = rest.remove(0);
            assert(rest@ == all.skip(i + 1));
            if contains_name(&self.packages, &p.name) {
                r.push(p);
            }
            i = i + 1;
        }
        assert(all.take(i as int) == all);
        r
    }

    fn keep_agents(&self, ps: Vec<Package>) -> (r: Vec<Package>)
        ensures
            r@ == with_agents(ps@, self@.2),
    {
        if self.agents.len() == 0 {
            return ps;
        }
        let ghost all = ps@;
        let n = ps.len();
        let mut rest = ps;
        let mut r: Vec<Package> = Vec::new();
        let mut i: usize = 0;
        while rest.len() > 0
            invariant
                i <= all.len(),
                rest@ == all.skip(i as int),
                all.len() == n,
                self.agents.len() > 0,
                r@ == with_agents(all.take(i as int), self@.2),
            decreases rest.len(),
        {
            assert(all.take(i + 1).drop_last() == all.take(i as int));
            assert(all.take(i + 1).last() == all[i as int]);
            let p = rest.remove(0);
            assert(rest@ == all.skip(i + 1));
            if contains_agent(&self.agents, p.agent()) {
                r.push(p);
            }
            i = i + 1;
        }
        assert(all.take(i as int) == all);
        r
    }
}

fn path_seen(r: &Vec<Package>, p: &Package) -> (b: bool)
    ensures
        b == exists|k: int| 0 <= k < r@.len() && r@[k].path@ == p.path@,
{
    let mut j: usize = 0;
    while j < r.len()
        invariant
            j <= r.len(),
            forall|k: int| 0 <= k < j ==> r@[k].path@ != p.path@,
        decreases r.len() - j,
    {
        if r[j].same_as(p) {
            return true;
        }
        j = j + 1;
    }
    false
}

fn keep_distinct_paths(ps: Vec<Package>) -> (r: Vec<Package>)
    ensures
        r@ == distinct_paths(ps@),
{
    let ghost all = ps@;
    let n = ps.len();
    let mut rest = ps;
    let mut r: Vec<Package> = Vec::new();
    let mut i: usize = 0;
    while rest.len() > 0
        invariant
            i <= all.len(),
            rest@ == all.skip(i as int),
            all.len() == n,
            r@ == distinct_paths(all.take(i as int)),
        decreases rest.len(),
    {
        assert(all.take(i + 1).drop_last() == all.take(i as int));
        assert(all.take(i + 1).last() == all[i as int]);
        let p = rest.remove(0);
        assert(rest@ == all.skip(i + 1));
        if !path_seen(&r, &p) {
            r.push(p);
        }
        i = i + 1;
    }
    assert(all.take(i as int) == all);
    r
}

} // verus!
