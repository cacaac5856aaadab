//! Dependencies of a package, the versions their registry offers, and the cache of
//! those versions.

use crate::error::Error;
use crate::order::{compare_u64, lex_compare, lex_order, ordering_value, sign_of_diff, to_ordering, Ranked};
use crate::package::Agent;
use crate::text::{opt_view, views};
use crate::version::{Comparator, ComparatorView, Version, VersionView, precedence, semver_comparator};
use core::cmp::Ordering;
use vstd::prelude::*;

verus! {

/// Where a dependency is listed.
#[derive(Clone, Copy, Debug, PartialEq, Eq, Structural)]
pub enum DependencyKind {
    Build,
    Development,
    Normal,
    Peer,
    PackageManager,
}

/// The rank of a kind: normal, development, build, peer, package manager.
pub open spec fn dependency_kind_rank(kind: DependencyKind) -> u8 {
    match kind {
        DependencyKind::Normal => 0,
        DependencyKind::Development => 1,
        DependencyKind::Build => 2,
        DependencyKind::Peer => 3,
        DependencyKind::PackageManager => 4,
    }
}

/// The order of two kinds: by rank.
pub open spec fn dependency_kind_order(a: DependencyKind, b: DependencyKind) -> int {
    sign_of_diff(dependency_kind_rank(a) as int, dependency_kind_rank(b) as int)
}

/// How a kind is shown.
pub open spec fn dependency_kind_label(kind: DependencyKind) -> Seq<char> {
    match kind {
        DependencyKind::Build => seq!['b', 'u', 'i', 'l', 'd'],
        DependencyKind::Development => seq!['d', 'e', 'v'],
        DependencyKind::Normal => seq![],
        DependencyKind::Peer => seq!['p', 'e', 'e', 'r'],
        DependencyKind::PackageManager => seq![
            'p',
            'a',
            'c',
            'k',
            'a',
            'g',
            'e',
            '-',
            'm',
            'a',
            'n',
            'a',
            'g',
            'e',
            'r',
        ],
    }
}

/// Kinds are totally ordered by rank, and only equal kinds compare equal.
pub proof fn lemma_dependency_kind_order(a: DependencyKind, b: DependencyKind, c: DependencyKind)
    ensures
        dependency_kind_order(a, b) == 0 <==> a == b,
        dependency_kind_order(b, a) == -dependency_kind_order(a, b),
        dependency_kind_order(a, b) <= 0 && dependency_kind_order(b, c) <= 0
            ==> dependency_kind_order(a, c) <= 0,
{
}

fn dependency_kind_order_value(a: &DependencyKind, b: &DependencyKind) -> (r: i8)
    ensures
        r == dependency_kind_order(*a, *b),
        -1 <= r <= 1,
{
    compare_u64(a.precedence() as u64, b.precedence() as u64)
}

impl DependencyKind {
    /// The rank of the kind, by which kinds are ordered.
    pub fn precedence(&self) -> (r: u8)
        ensures
            r == dependency_kind_rank(*self),
    {
        match self {
            DependencyKind::Normal => 0,
            DependencyKind::Development => 1,
            DependencyKind::Build => 2,
            DependencyKind::Peer => 3,
            DependencyKind::PackageManager => 4,
        }
    }

    /// Compares two kinds by rank.
    pub fn cmp(&self, other: &DependencyKind) -> (r: Ordering)
        ensures
            ordering_value(r) == dependency_kind_order(*self, *other),
    {
        to_ordering(dependency_kind_order_value(self, other))
    }

    /// Whether the kind is `Peer`.
    pub fn is_peer(&self) -> (b: bool)
        ensures
            b == (*self == DependencyKind::Peer),
    {
        matches!(self, DependencyKind::Peer)
    }

    /// How the kind is shown: `build`, `dev`, nothing for a normal dependency, `peer`,
    /// `package-manager`.
    pub fn to_string(&self) -> (r: String)
        ensures
            r@ == dependency_kind_label(*self),
    {
        match self {
            DependencyKind::Build => crate::text::string_of(&['b', 'u', 'i', 'l', 'd']),
            DependencyKind::Development => crate::text::string_of(&['d', 'e', 'v']),
            DependencyKind::Normal => String::new(),
            DependencyKind::Peer => crate::text::string_of(&['p', 'e', 'e', 'r']),
            DependencyKind::PackageManager => crate::text::string_of(
                &['p', 'a', 'c', 'k', 'a', 'g', 'e', '-', 'm', 'a', 'n', 'a', 'g', 'e', 'r'],
            ),
        }
    }
}

/// The versions of a sequence seen as their parts.
pub open spec fn version_views(vs: Seq<Version>) -> Seq<VersionView> {
    vs.map_values(|v: Version| v@)
}

/// The index that `Iterator::max_by` picks under precedence: the greatest version,
/// the last of several equally great ones; `None` for no version.
pub open spec fn latest_index(vs: Seq<VersionView>) -> Option<int>
    decreases vs.len(),
{
    if vs.len() == 0 {
        None
    } else {
        match latest_index(vs.drop_last()) {
            None => Some(vs.len() - 1),
            Some(i) => if precedence(vs[i], vs.last()) == 1 {
                Some(i)
            } else {
                Some(vs.len() - 1)
            },
        }
    }
}

proof fn lemma_latest_index_bounds(vs: Seq<VersionView>)
    ensures
        latest_index(vs) is Some <==> vs.len() > 0,
        latest_index(vs) matches Some(i) ==> 0 <= i < vs.len(),
    decreases vs.len(),
{
    if vs.len() > 0 {
        lemma_latest_index_bounds(vs.drop_last());
    }
}

/// How `semver` orders the pre-release identifiers of two versions, as a number;
/// 0 where it cannot order them.
pub open spec fn pre_rel(a: VersionView, b: VersionView) -> int {
    crate::version::or_equal(crate::version::semver_pre_order(a.3, b.3))
}

/// Whether `semver` orders the pre-release identifiers of the versions of `vs`
/// as a total order does: by -1, 0 or 1, swapping two negates the result, and the
/// order is transitive.
pub open spec fn pre_order_total(vs: Seq<VersionView>) -> bool {
    &&& forall|i: int, j: int|
        0 <= i < vs.len() && 0 <= j < vs.len() ==> -1 <= #[trigger] pre_rel(vs[i], vs[j]) <= 1
    &&& forall|i: int, j: int|
        0 <= i < vs.len() && 0 <= j < vs.len() ==> #[trigger] pre_rel(vs[j], vs[i]) == -pre_rel(
            vs[i],
            vs[j],
        )
    &&& forall|i: int, j: int, k: int|
        0 <= i < vs.len() && 0 <= j < vs.len() && 0 <= k < vs.len() && #[trigger] pre_rel(vs[i], vs[j])
            <= 0 && #[trigger] pre_rel(vs[j], vs[k]) <= 0 ==> pre_rel(vs[i], vs[k]) <= 0
}

proof fn lemma_precedence_antisymmetric(a: VersionView, b: VersionView)
    requires
        pre_rel(b, a) == -pre_rel(a, b),
    ensures
        precedence(b, a) == -precedence(a, b),
{
}

proof fn lemma_precedence_transitive(a: VersionView, b: VersionView, c: VersionView)
    requires
        precedence(a, b) <= 0,
        precedence(b, c) <= 0,
        pre_rel(a, b) <= 0 && pre_rel(b, c) <= 0 ==> pre_rel(a, c) <= 0,
    ensures
        precedence(a, c) <= 0,
{
}

/// Where `semver` orders the pre-release identifiers on offer as a total order,
/// the version that `latest_index` picks has the greatest precedence of all:
/// none on offer is greater, whatever its pre-release identifier.
pub proof fn lemma_latest_index_greatest(vs: Seq<VersionView>)
    requires
        pre_order_total(vs),
    ensures
        latest_index(vs) matches Some(i) ==> forall|j: int|
            0 <= j < vs.len() ==> precedence(#[trigger] vs[j], vs[i]) <= 0,
    decreases vs.len(),
{
    if vs.len() > 0 {
        let rest = vs.drop_last();
        let n = vs.len() - 1;
        assert forall|i: int| 0 <= i < n implies #[trigger] rest[i] == vs[i] by {}
        assert(pre_order_total(rest)) by {
            assert forall|i: int, j: int|
                0 <= i < rest.len() && 0 <= j < rest.len() implies -1 <= #[trigger] pre_rel(rest[i], rest[j])
                <= 1 by {
                assert(rest[i] == vs[i] && rest[j] == vs[j]);
                assert(-1 <= pre_rel(vs[i], vs[j]) <= 1);
            }
            assert forall|i: int, j: int|
                0 <= i < rest.len() && 0 <= j < rest.len() implies #[trigger] pre_rel(rest[j], rest[i])
                == -pre_rel(rest[i], rest[j]) by {
                assert(rest[i] == vs[i] && rest[j] == vs[j]);
                assert(pre_rel(vs[j], vs[i]) == -pre_rel(vs[i], vs[j]));
            }
            assert forall|i: int, j: int, k: int|
                0 <= i < rest.len() && 0 <= j < rest.len() && 0 <= k < rest.len() && #[trigger] pre_rel(
                    rest[i],
                    rest[j],
                ) <= 0 && #[trigger] pre_rel(rest[j], rest[k]) <= 0 implies pre_rel(rest[i], rest[k])
                <= 0 by {
                assert(rest[i] == vs[i] && rest[j] == vs[j] && rest[k] == vs[k]);
                assert(pre_rel(vs[i], vs[j]) <= 0 && pre_rel(vs[j], vs[k]) <= 0);
            }
        }
        lemma_latest_index_greatest(rest);
        lemma_latest_index_bounds(rest);
        assert(-1 <= pre_rel(vs[n], vs[n]) <= 1);
        assert(pre_rel(vs[n], vs[n]) == -pre_rel(vs[n], vs[n]));
        match latest_index(rest) {
            None => {
                assert forall|j: int| 0 <= j < vs.len() implies precedence(#[trigger] vs[j], vs[n]) <= 0 by {
                    assert(j == n);
                }
            },
            Some(k) => {
                assert(-1 <= pre_rel(vs[k], vs[n]) <= 1);
                assert(pre_rel(vs[n], vs[k]) == -pre_rel(vs[k], vs[n]));
                lemma_precedence_antisymmetric(vs[k], vs[n]);
                if precedence(vs[k], vs.last()) == 1 {
                    assert forall|j: int| 0 <= j < vs.len() implies precedence(#[trigger] vs[j], vs[k]) <= 0 by {
                        if j < n {
                            assert(precedence(rest[j], rest[k]) <= 0);
                        }
                    }
                } else {
                    assert forall|j: int| 0 <= j < vs.len() implies precedence(#[trigger] vs[j], vs[n]) <= 0 by {
                        if j < n {
                            assert(precedence(rest[j], rest[k]) <= 0);
                            assert(pre_rel(vs[j], vs[k]) <= 0 && pre_rel(vs[k], vs[n]) <= 0 ==> pre_rel(
                                vs[j],
                                vs[n],
                            ) <= 0);
                            lemma_precedence_transitive(vs[j], vs[k], vs[n]);
                        }
                    }
                }
            },
        }
    }
}

/// Whether the release of `a` (major, minor, patch) is at most that of `b`, in
/// that order of importance.
pub open spec fn release_le(a: VersionView, b: VersionView) -> bool {
    ||| a.0 < b.0
    ||| (a.0 == b.0 && a.1 < b.1)
    ||| (a.0 == b.0 && a.1 == b.1 && a.2 <= b.2)
}

/// The version that `latest_index` picks has the greatest release of all.
proof fn lemma_latest_index_greatest_release(vs: Seq<VersionView>)
    ensures
        latest_index(vs) matches Some(i) ==> forall|j: int|
            0 <= j < vs.len() ==> release_le(#[trigger] vs[j], vs[i]),
    decreases vs.len(),
{
    if vs.len() > 0 {
        let rest = vs.drop_last();
        lemma_latest_index_greatest_release(rest);
        lemma_latest_index_bounds(rest);
        match latest_index(rest) {
            None => {
                assert forall|j: int| 0 <= j < vs.len() implies release_le(#[trigger] vs[j], vs[vs.len() - 1]) by {
                    assert(j == vs.len() - 1);
                }
            },
            Some(k) => {
                assert forall|j: int| 0 <= j < vs.len() - 1 implies release_le(#[trigger] vs[j], vs[k]) by {
                    assert(rest[j] == vs[j]);
                    assert(release_le(rest[j], rest[k]));
                }
                if precedence(vs[k], vs.last()) == 1 {
                    assert forall|j: int| 0 <= j < vs.len() implies release_le(#[trigger] vs[j], vs[k]) by {
                        if j < vs.len() - 1 {
                            assert(rest[j] == vs[j]);
                            assert(release_le(rest[j], rest[k]));
                        }
                    }
                } else {
                    assert(release_le(vs[k], vs.last()));
                    assert forall|j: int| 0 <= j < vs.len() implies release_le(#[trigger] vs[j], vs[vs.len() - 1]) by {
                        if j < vs.len() - 1 {
                            assert(rest[j] == vs[j]);
                            assert(release_le(rest[j], rest[k]));
                        }
                    }
                }
            },
        }
    }
}

/// Whether `semver` finds that `v` meets the requirement `req`.
pub open spec fn meets(req: Seq<char>, v: VersionView) -> bool {
    crate::version::semver_req_matches(req, v) == Some(true)
}

/// The index that `Iterator::max_by` picks under precedence among the versions
/// that meet `req`: the greatest, the last of several equally great ones; `None`
/// where none meets it.
pub open spec fn latest_meeting_index(vs: Seq<VersionView>, req: Seq<char>) -> Option<int>
    decreases vs.len(),
{
    if vs.len() == 0 {
        None
    } else {
        let rest = latest_meeting_index(vs.drop_last(), req);
        if meets(req, vs.last()) {
            match rest {
                None => Some(vs.len() - 1),
                Some(i) => if precedence(vs[i], vs.last()) == 1 {
                    Some(i)
                } else {
                    Some(vs.len() - 1)
                },
            }
        } else {
            rest
        }
    }
}

/// The version that `latest_meeting_index` picks meets the requirement, and no
/// version that meets it has a greater release; it picks none exactly where no
/// version meets the requirement.
proof fn lemma_latest_meeting(vs: Seq<VersionView>, req: Seq<char>)
    ensures
        latest_meeting_index(vs, req) is None <==> forall|j: int|
            0 <= j < vs.len() ==> !meets(req, #[trigger] vs[j]),
        latest_meeting_index(vs, req) matches Some(i) ==> {
            &&& 0 <= i < vs.len()
            &&& meets(req, vs[i])
            &&& forall|j: int| 0 <= j < vs.len() && meets(req, #[trigger] vs[j]) ==> release_le(vs[j], vs[i])
        },
    decreases vs.len(),
{
    if vs.len() > 0 {
        let rest = vs.drop_last();
        let n = vs.len() - 1;
        lemma_latest_meeting(rest, req);
        assert forall|j: int| 0 <= j < n implies #[trigger] rest[j] == vs[j] by {}
        match latest_meeting_index(rest, req) {
            None => {
                if meets(req, vs[n]) {
                    assert forall|j: int| 0 <= j < vs.len() && meets(req, #[trigger] vs[j]) implies release_le(
                        vs[j],
                        vs[n],
                    ) by {
                        if j < n {
                            assert(!meets(req, rest[j]));
                        }
                    }
                } else {
                    assert forall|j: int| 0 <= j < vs.len() implies !meets(req, #[trigger] vs[j]) by {
                        if j < n {
                            assert(!meets(req, rest[j]));
                        }
                    }
                }
            },
            Some(k) => {
                assert(meets(req, rest[k]));
                assert(!(forall|j: int| 0 <= j < vs.len() ==> !meets(req, #[trigger] vs[j]))) by {
                    assert(meets(req, vs[k]));
                }
                if meets(req, vs[n]) && precedence(vs[k], vs[n]) != 1 {
                    assert(release_le(vs[k], vs[n]));
                    assert forall|j: int| 0 <= j < vs.len() && meets(req, #[trigger] vs[j]) implies release_le(
                        vs[j],
                        vs[n],
                    ) by {
                        if j < n {
                            assert(release_le(rest[j], rest[k]));
                        }
                    }
                } else {
                    assert forall|j: int| 0 <= j < vs.len() && meets(req, #[trigger] vs[j]) implies release_le(
                        vs[j],
                        vs[k],
                    ) by {
                        if j < n {
                            assert(release_le(rest[j], rest[k]));
                        }
                    }
                }
            },
        }
    }
}

/// Where `semver` orders the pre-release identifiers on offer as a total order,
/// the version that `latest_meeting_index` picks has the greatest precedence of
/// all versions that meet the requirement, whatever their pre-release
/// identifiers.
pub proof fn lemma_latest_meeting_greatest(vs: Seq<VersionView>, req: Seq<char>)
    requires
        pre_order_total(vs),
    ensures
        latest_meeting_index(vs, req) matches Some(i) ==> forall|j: int|
            0 <= j < vs.len() && meets(req, #[trigger] vs[j]) ==> precedence(vs[j], vs[i]) <= 0,
    decreases vs.len(),
{
    if vs.len() > 0 {
        let rest = vs.drop_last();
        let n = vs.len() - 1;
        assert forall|i: int| 0 <= i < n implies #[trigger] rest[i] == vs[i] by {}
        assert(pre_order_total(rest)) by {
            assert forall|i: int, j: int|
                0 <= i < rest.len() && 0 <= j < rest.len() implies -1 <= #[trigger] pre_rel(rest[i], rest[j])
                <= 1 by {
                assert(rest[i] == vs[i] && rest[j] == vs[j]);
                assert(-1 <= pre_rel(vs[i], vs[j]) <= 1);
            }
            assert forall|i: int, j: int|
                0 <= i < rest.len() && 0 <= j < rest.len() implies #[trigger] pre_rel(rest[j], rest[i])
                == -pre_rel(rest[i], rest[j]) by {
                assert(rest[i] == vs[i] && rest[j] == vs[j]);
                assert(pre_rel(vs[j], vs[i]) == -pre_rel(vs[i], vs[j]));
            }
            assert forall|i: int, j: int, k: int|
                0 <= i < rest.len() && 0 <= j < rest.len() && 0 <= k < rest.len() && #[trigger] pre_rel(
                    rest[i],
                    rest[j],
                ) <= 0 && #[trigger] pre_rel(rest[j], rest[k]) <= 0 implies pre_rel(rest[i], rest[k])
                <= 0 by {
                assert(rest[i] == vs[i] && rest[j] == vs[j] && rest[k] == vs[k]);
                assert(pre_rel(vs[i], vs[j]) <= 0 && pre_rel(vs[j], vs[k]) <= 0);
            }
        }
        lemma_latest_meeting_greatest(rest, req);
        lemma_latest_meeting(rest, req);
        assert(-1 <= pre_rel(vs[n], vs[n]) <= 1);
        assert(pre_rel(vs[n], vs[n]) == -pre_rel(vs[n], vs[n]));
        if meets(req, vs[n]) {
            match latest_meeting_index(rest, req) {
                None => {
                    assert forall|j: int| 0 <= j < vs.len() && meets(req, #[trigger] vs[j]) implies precedence(
                        vs[j],
                        vs[n],
                    ) <= 0 by {
                        if j < n {
                            assert(!meets(req, rest[j]));
                        }
                    }
                },
                Some(k) => {
                    assert(-1 <= pre_rel(vs[k], vs[n]) <= 1);
                    assert(pre_rel(vs[n], vs[k]) == -pre_rel(vs[k], vs[n]));
                    lemma_precedence_antisymmetric(vs[k], vs[n]);
                    if precedence(vs[k], vs[n]) == 1 {
                        assert forall|j: int| 0 <= j < vs.len() && meets(req, #[trigger] vs[j]) implies precedence(
                            vs[j],
                            vs[k],
                        ) <= 0 by {
                            if j < n {
                                assert(meets(req, rest[j]));
                            }
                        }
                    } else {
                        assert forall|j: int| 0 <= j < vs.len() && meets(req, #[trigger] vs[j]) implies precedence(
                            vs[j],
                            vs[n],
                        ) <= 0 by {
                            if j < n {
                                assert(meets(req, rest[j]));
                                assert(precedence(rest[j], rest[k]) <= 0);
                                assert(pre_rel(vs[j], vs[k]) <= 0 && pre_rel(vs[k], vs[n]) <= 0
                                    ==> pre_rel(vs[j], vs[n]) <= 0);
                                lemma_precedence_transitive(vs[j], vs[k], vs[n]);
                            }
                        }
                    }
                },
            }
        } else {
            match latest_meeting_index(rest, req) {
                None => {},
                Some(k) => {
                    assert forall|j: int| 0 <= j < vs.len() && meets(req, #[trigger] vs[j]) implies precedence(
                        vs[j],
                        vs[k],
                    ) <= 0 by {
                        if j < n {
                            assert(meets(req, rest[j]));
                        }
                    }
                },
            }
        }
    }
}

/// A dependency seen as its name, requirement, kind and the versions on offer.
pub type DependencyView = (Seq<char>, ComparatorView, DependencyKind, Seq<VersionView>);

/// A dependency of a package.
#[derive(Debug)]
pub struct Dependency {
    pub name: String,
    pub comparator: Comparator,
    pub kind: DependencyKind,
    versions: Vec<Version>,
}

impl View for Dependency {
    type V = DependencyView;

    closed spec fn view(&self) -> DependencyView {
        (self.name@, self.comparator@, self.kind, version_views(self.versions@))
    }
}

/// The order of two dependencies: by kind, then by name.
pub open spec fn dependency_order(a: DependencyView, b: DependencyView) -> int {
    if dependency_kind_order(a.2, b.2) != 0 {
        dependency_kind_order(a.2, b.2)
    } else {
        lex_order(a.0, b.0)
    }
}

/// The order of dependencies is antisymmetric.
pub proof fn lemma_dependency_order(a: DependencyView, b: DependencyView)
    ensures
        dependency_order(b, a) == -dependency_order(a, b),
        -1 <= dependency_order(a, b) <= 1,
{
    crate::order::lemma_lex_order(a.0, b.0);
}

/// Dependencies are ordered by kind first (normal, development, build, peer,
/// package manager) and by name only among those of one kind.
pub proof fn lemma_dependency_order_by_kind_then_name(a: DependencyView, b: DependencyView)
    ensures
        dependency_kind_rank(a.2) < dependency_kind_rank(b.2) ==> dependency_order(a, b) == -1,
        dependency_kind_rank(a.2) > dependency_kind_rank(b.2) ==> dependency_order(a, b) == 1,
        a.2 == b.2 ==> dependency_order(a, b) == lex_order(a.0, b.0),
{
}

/// The order of dependencies is transitive.
pub proof fn lemma_dependency_order_transitive(a: DependencyView, b: DependencyView, c: DependencyView)
    requires
        dependency_order(a, b) <= 0,
        dependency_order(b, c) <= 0,
    ensures
        dependency_order(a, c) <= 0,
{
    lemma_dependency_kind_order(a.2, b.2, c.2);
    if dependency_kind_order(a.2, b.2) == 0 && dependency_kind_order(b.2, c.2) == 0 {
        crate::order::lemma_lex_order_transitive(a.0, b.0, c.0);
    }
}

fn latest_position(versions: &Vec<Version>) -> (r: Option<usize>)
    ensures
        match r {
            Some(i) => latest_index(version_views(versions@)) == Some(i as int) && i < versions.len(),
            None => latest_index(version_views(versions@)) is None,
        },
{
    proof {
        lemma_latest_index_bounds(version_views(versions@));
    }
    if versions.len() == 0 {
        return None;
    }
    let ghost vs = version_views(versions@);
    let mut best: usize = 0;
    let mut i: usize = 1;
    assert(vs.take(1).drop_last() == Seq::<VersionView>::empty());
    assert(latest_index(vs.take(1).drop_last()) is None);
    assert(latest_index(vs.take(1)) == Some(0int));
    while i < versions.len()
        invariant
            1 <= i <= versions.len(),
            best < i,
            vs == version_views(versions@),
            latest_index(vs.take(i as int)) == Some(best as int),
        decreases versions.len() - i,
    {
        assert(vs.take(i + 1).drop_last() == vs.take(i as int));
        assert(vs.take(i + 1)[best as int] == vs[best as int]);
        if crate::version::precedence_sign(&versions[best], &versions[i]) != 1 {
            best = i;
        }
        i = i + 1;
    }
    assert(vs.take(versions.len() as int) == vs);
    Some(best)
}

pub(crate) fn dependency_order_value(a: &Dependency, b: &Dependency) -> (r: i8)
    ensures
        r == dependency_order(a@, b@),
        -1 <= r <= 1,
{
    let k = dependency_kind_order_value(&a.kind, &b.kind);
    if k != 0 {
        k
    } else {
        lex_compare(a.name.as_str(), b.name.as_str())
    }
}

impl Dependency {
    /// A dependency with no version known yet.
    pub fn new(name: String, comparator: Comparator, kind: DependencyKind) -> (r: Dependency)
        ensures
            r@ == (name@, comparator@, kind, Seq::<VersionView>::empty()),
    {
        let r = Dependency { name, comparator, kind, versions: Vec::new() };
        assert(version_views(r.versions@) == Seq::<VersionView>::empty());
        r
    }

    /// The name of the dependency.
    pub fn name(&self) -> (r: &String)
        ensures
            r@ == self@.0,
    {
        &self.name
    }

    /// The kind of the dependency.
    pub fn kind(&self) -> (r: DependencyKind)
        ensures
            r == self@.2,
    {
        self.kind
    }

    /// The versions on offer.
    pub fn versions(&self) -> (r: &Vec<Version>)
        ensures
            version_views(r@) == self@.3,
    {
        &self.versions
    }

    /// Replaces the versions on offer.
    pub fn set_versions(&mut self, versions: Vec<Version>)
        ensures
            final(self)@ == (old(self)@.0, old(self)@.1, old(self)@.2, version_views(versions@)),
    {
        self.versions = versions;
    }

    /// The version of greatest precedence on offer, the last of several equally
    /// great ones, or `None` when no version is on offer. No version on offer has
    /// a greater release (major, minor, patch).
    pub fn latest(&self) -> (r: Option<&Version>)
        ensures
            r is Some <==> self@.3.len() > 0,
            r matches Some(v) ==> (latest_index(self@.3) matches Some(i) && v@ == self@.3[i]),
            r matches Some(v) ==> forall|j: int|
                0 <= j < self@.3.len() ==> release_le(#[trigger] self@.3[j], v@),
    {
        proof {
            lemma_latest_index_bounds(self@.3);
            lemma_latest_index_greatest_release(self@.3);
        }
        match latest_position(&self.versions) {
            Some(i) => Some(&self.versions[i]),
            None => None,
        }
    }

    /// The version of greatest precedence on offer that meets the requirement
    /// `req`, as `semver::VersionReq::matches` judges it: the last of several
    /// equally great ones, or `None` where none meets it (also where `req` does not
    /// parse). No version that meets it has a greater release.
    pub fn latest_with_req(&self, req: &str) -> (r: Option<&Version>)
        ensures
            r is None <==> forall|j: int| 0 <= j < self@.3.len() ==> !meets(req@, #[trigger] self@.3[j]),
            r matches Some(v) ==> {
                &&& latest_meeting_index(self@.3, req@) matches Some(i) && v@ == self@.3[i]
                &&& meets(req@, v@)
                &&& forall|j: int|
                    0 <= j < self@.3.len() && meets(req@, #[trigger] self@.3[j]) ==> release_le(
                        self@.3[j],
                        v@,
                    )
            },
    {
        let ghost vs = self@.3;
        proof {
            lemma_latest_meeting(vs, req@);
        }
        let mut best: Option<usize> = None;
        let mut i: usize = 0;
        while i < self.versions.len()
            invariant
                i <= self.versions.len(),
                vs == version_views(self.versions@),
                match best {
                    Some(b) => b < i && latest_meeting_index(vs.take(i as int), req@) == Some(b as int),
                    None => latest_meeting_index(vs.take(i as int), req@) is None,
                },
            decreases self.versions.len() - i,
        {
            assert(vs.take(i + 1).drop_last() == vs.take(i as int));
            assert(vs.take(i + 1).last() == vs[i as int]);
            if crate::version::semver_matches(req, &self.versions[i]) == Some(true) {
                match best {
                    None => {
                        best = Some(i);
                    },
                    Some(b) => {
                        assert(vs.take(i + 1)[b as int] == vs[b as int]);
                        if crate::version::precedence_sign(&self.versions[b], &self.versions[i]) != 1 {
                            best = Some(i);
                        }
                    },
                }
            }
            i = i + 1;
        }
        assert(vs.take(self.versions.len() as int) == vs);
        match best {
            Some(b) => Some(&self.versions[b]),
            None => None,
        }
    }

    /// Whether two dependencies have the same name, requirement and kind.
    pub fn same_as(&self, other: &Dependency) -> (b: bool)
        ensures
            b == (self@.0 == other@.0 && self@.1 == other@.1 && self@.2 == other@.2),
    {
        self.name == other.name && self.comparator.same_as(&other.comparator) && self.kind
            == other.kind
    }

    /// Compares two dependencies: by kind, then by name.
    pub fn cmp(&self, other: &Dependency) -> (r: Ordering)
        ensures
            ordering_value(r) == dependency_order(self@, other@),
    {
        to_ordering(dependency_order_value(self, other))
    }
}

} // verus!

verus! {

/// An entry of a manifest's dependency table: a name and the requirement text.
pub type EntryView = (Seq<char>, Seq<char>);

/// The dependencies that the entries give: those whose requirement parses as a
/// comparator, in order, with no version on offer yet.
pub open spec fn parsed_entries(entries: Seq<EntryView>, kind: DependencyKind) -> Seq<DependencyView>
    decreases entries.len(),
{
    if entries.len() == 0 {
        seq![]
    } else {
        let rest = parsed_entries(entries.drop_last(), kind);
        let (name, requirement) = entries.last();
        match semver_comparator(requirement) {
            Some(c) => rest.push((name, c, kind, seq![])),
            None => rest,
        }
    }
}

/// Reading a dependency table keeps exactly the entries whose requirement parses:
/// each dependency read is the name of such an entry with its comparator, of the
/// table's kind and with no version on offer, and each such entry is read.
pub proof fn lemma_parsed_entries(entries: Seq<EntryView>, kind: DependencyKind)
    ensures
        forall|j: int|
            0 <= j < parsed_entries(entries, kind).len() ==> exists|i: int|
                0 <= i < entries.len() && #[trigger] semver_comparator(entries[i].1) == Some(
                    parsed_entries(entries, kind)[j].1,
                ) && (#[trigger] parsed_entries(entries, kind)[j]) == (
                    entries[i].0,
                    parsed_entries(entries, kind)[j].1,
                    kind,
                    Seq::<VersionView>::empty(),
                ),
        forall|i: int|
            0 <= i < entries.len() && (#[trigger] semver_comparator(entries[i].1)) is Some ==> parsed_entries(
                entries,
                kind,
            ).contains((entries[i].0, semver_comparator(entries[i].1)->0, kind, Seq::<VersionView>::empty())),
    decreases entries.len(),
{
    if entries.len() > 0 {
        let rest = entries.drop_last();
        let n = entries.len() - 1;
        lemma_parsed_entries(rest, kind);
        let r = parsed_entries(rest, kind);
        assert forall|i: int| 0 <= i < n implies #[trigger] rest[i] == entries[i] by {}
        let (name, req) = entries.last();
        match semver_comparator(req) {
            Some(c) => {
                let q = r.push((name, c, kind, seq![]));
                assert forall|j: int| 0 <= j < q.len() implies exists|i: int|
                    0 <= i < entries.len() && #[trigger] semver_comparator(entries[i].1) == Some(q[j].1)
                        && (#[trigger] q[j]) == (entries[i].0, q[j].1, kind, Seq::<VersionView>::empty()) by {
                    if j < r.len() {
                        assert(q[j] == r[j]);
                        let i = choose|i: int|
                            0 <= i < rest.len() && #[trigger] semver_comparator(rest[i].1) == Some(r[j].1)
                                && (#[trigger] r[j]) == (rest[i].0, r[j].1, kind, Seq::<VersionView>::empty());
                        assert(entries[i] == rest[i]);
                    } else {
                        assert(entries[n] == (name, req));
                    }
                }
                assert forall|i: int|
                    0 <= i < entries.len() && (#[trigger] semver_comparator(entries[i].1)) is Some implies q.contains(
                        (entries[i].0, semver_comparator(entries[i].1)->0, kind, Seq::<VersionView>::empty()),
                    ) by {
                    if i < n {
                        assert(entries[i] == rest[i]);
                        let e = (rest[i].0, semver_comparator(rest[i].1)->0, kind, Seq::<VersionView>::empty());
                        assert(r.contains(e));
                        let k = choose|k: int| 0 <= k < r.len() && r[k] == e;
                        assert(q[k] == e);
                    } else {
                        assert(q[r.len() as int] == (name, c, kind, Seq::<VersionView>::empty()));
                    }
                }
            },
            None => {
                assert forall|i: int|
                    0 <= i < entries.len() && (#[trigger] semver_comparator(entries[i].1)) is Some implies r.contains(
                        (entries[i].0, semver_comparator(entries[i].1)->0, kind, Seq::<VersionView>::empty()),
                    ) by {
                    if i < n {
                        assert(entries[i] == rest[i]);
                    }
                }
                assert forall|j: int| 0 <= j < r.len() implies exists|i: int|
                    0 <= i < entries.len() && #[trigger] semver_comparator(entries[i].1) == Some(r[j].1)
                        && (#[trigger] r[j]) == (entries[i].0, r[j].1, kind, Seq::<VersionView>::empty()) by {
                    let i = choose|i: int|
                        0 <= i < rest.len() && #[trigger] semver_comparator(rest[i].1) == Some(r[j].1)
                            && (#[trigger] r[j]) == (rest[i].0, r[j].1, kind, Seq::<VersionView>::empty());
                    assert(entries[i] == rest[i]);
                }
            },
        }
    }
}

/// The entries seen as pairs of character sequences.
pub open spec fn entry_views(entries: Seq<(String, String)>) -> Seq<EntryView> {
    entries.map_values(|e: (String, String)| (e.0@, e.1@))
}

/// The dependencies of a package, all managed by one agent.
#[derive(Debug)]
pub struct DependencyTree {
    pub agent: Agent,
    pub dependencies: Vec<Dependency>,
}

/// The dependencies of a tree seen as their views.
pub open spec fn dependency_views(ds: Seq<Dependency>) -> Seq<DependencyView> {
    ds.map_values(|d: Dependency| d@)
}

impl DependencyTree {
    /// An empty tree.
    pub fn new(agent: Agent) -> (r: DependencyTree)
        ensures
            r.agent == agent,
            r.dependencies@.len() == 0,
    {
        DependencyTree { agent, dependencies: Vec::new() }
    }

    /// Adds a dependency with no version on offer yet.
    pub fn add(&mut self, name: &str, comparator: Comparator, kind: DependencyKind)
        ensures
            final(self).agent == old(self).agent,
            dependency_views(final(self).dependencies@) == dependency_views(
                old(self).dependencies@,
            ).push((name@, comparator@, kind, Seq::<VersionView>::empty())),
    {
        let dependency = Dependency::new(name.to_string(), comparator, kind);
        self.dependencies.push(dependency);
        assert(dependency_views(self.dependencies@).drop_last() == dependency_views(
            old(self).dependencies@,
        ));
    }

    /// Adds the entries whose requirement parses as a comparator, in order; the
    /// others are skipped.
    pub fn add_many(&mut self, entries: &Vec<(String, String)>, kind: DependencyKind)
        ensures
            final(self).agent == old(self).agent,
            dependency_views(final(self).dependencies@) == dependency_views(
                old(self).dependencies@,
            ) + parsed_entries(entry_views(entries@), kind),
    {
        let mut i: usize = 0;
        while i < entries.len()
            invariant
                i <= entries.len(),
                self.agent == old(self).agent,
                dependency_views(self.dependencies@) == dependency_views(old(self).dependencies@)
                    + parsed_entries(entry_views(entries@).take(i as int), kind),
            decreases entries.len() - i,
        {
            let ghost es = entry_views(entries@);
            assert(es.take(i + 1).drop_last() == es.take(i as int));
            assert(es.take(i + 1).last() == (entries@[i as int].0@, entries@[i as int].1@));
            let (name, version) = &entries[i];
            match Comparator::parse(version.as_str()) {
                Ok(comparator) => {
                    let ghost before = dependency_views(self.dependencies@);
                    self.add(name.as_str(), comparator, kind);
                    assert(dependency_views(self.dependencies@) == before.push(
                        (name@, comparator@, kind, Seq::<VersionView>::empty()),
                    ));
                },
                Err(_) => {},
            }
            i = i + 1;
        }
        assert(entry_views(entries@).take(entries.len() as int) == entry_views(entries@));
    }
}

/// The versions a registry offers for a dependency, kept so that each dependency is
/// fetched once per agent.
#[derive(Debug)]
pub struct DependencyCache {
    pub agent: Agent,
    pub name: String,
    pub versions: Vec<Version>,
}

/// The index of the entry of the cache for `name` and `agent`, if any: the first.
pub open spec fn cached_index(cache: Seq<DependencyCache>, name: Seq<char>, agent: Agent) -> Option<int>
    decreases cache.len(),
{
    if cache.len() == 0 {
        None
    } else {
        match cached_index(cache.drop_last(), name, agent) {
            Some(i) => Some(i),
            None => if cache.last().name@ == name && cache.last().agent == agent {
                Some(cache.len() - 1)
            } else {
                None
            },
        }
    }
}

/// A lookup in the cache finds the first entry for the name and the agent, and
/// finds none exactly where no entry is for both.
pub proof fn lemma_cached_index(cache: Seq<DependencyCache>, name: Seq<char>, agent: Agent)
    ensures
        match cached_index(cache, name, agent) {
            Some(i) => 0 <= i < cache.len() && cache[i].name@ == name && cache[i].agent == agent
                && forall|j: int| 0 <= j < i ==> !(cache[j].name@ == name && cache[j].agent == agent),
            None => forall|j: int|
                0 <= j < cache.len() ==> !(#[trigger] cache[j].name@ == name && cache[j].agent
                    == agent),
        },
    decreases cache.len(),
{
    if cache.len() > 0 {
        lemma_cached_index(cache.drop_last(), name, agent);
        match cached_index(cache.drop_last(), name, agent) {
            Some(i) => {
                assert(cache.drop_last()[i] == cache[i]);
                assert forall|j: int| 0 <= j < i implies !(cache[j].name@ == name && cache[j].agent
                    == agent) by {
                    assert(cache.drop_last()[j] == cache[j]);
                }
            },
            None => {
                assert forall|j: int| 0 <= j < cache.len() - 1 implies !(cache[j].name@ == name
                    && cache[j].agent == agent) by {
                    assert(cache.drop_last()[j] == cache[j]);
                }
            },
        }
    }
}

/// No two entries of the cache are for the same name and agent.
pub open spec fn cache_is_unique(cache: Seq<DependencyCache>) -> bool {
    forall|i: int, j: int|
        0 <= i < j < cache.len() ==> !(#[trigger] cache[i].name@ == #[trigger] cache[j].name@
            && cache[i].agent == cache[j].agent)
}

/// Looks up the entry of the cache for `name` and `agent`.
pub fn find_cached<'a>(cache: &'a Vec<DependencyCache>, name: &str, agent: Agent) -> (r: Option<
    &'a DependencyCache,
>)
    ensures
        match cached_index(cache@, name@, agent) {
            Some(i) => r == Some(&cache@[i]),
            None => r is None,
        },
{
    let mut i: usize = 0;
    while i < cache.len()
        invariant
            i <= cache.len(),
            cached_index(cache@.take(i as int), name@, agent) is None,
        decreases cache.len() - i,
    {
        assert(cache@.take(i + 1).drop_last() == cache@.take(i as int));
        if crate::text::same_text(cache[i].name.as_str(), name) && cache[i].agent == agent {
            assert(cached_index(cache@.take(i + 1), name@, agent) == Some(i as int));
            proof {
                lemma_cached_index(cache@.take(i + 1), name@, agent);
                lemma_cached_index(cache@, name@, agent);
                lemma_cached_prefix(cache@, i + 1, name@, agent);
            }
            return Some(&cache[i]);
        }
        i = i + 1;
    }
    assert(cache@.take(cache.len() as int) == cache@);
    None
}

proof fn lemma_cached_prefix(cache: Seq<DependencyCache>, k: int, name: Seq<char>, agent: Agent)
    requires
        0 <= k <= cache.len(),
        cached_index(cache.take(k), name, agent) is Some,
    ensures
        cached_index(cache, name, agent) == cached_index(cache.take(k), name, agent),
    decreases cache.len() - k,
{
    if k < cache.len() {
        assert(cache.take(k + 1).drop_last() == cache.take(k));
        lemma_cached_prefix(cache, k + 1, name, agent);
    } else {
        assert(cache.take(k) == cache);
    }
}

/// Records the versions of `name` for `agent`, unless the cache has them already.
pub fn add_to_cache(cache: &mut Vec<DependencyCache>, name: &str, agent: Agent, versions: &Vec<Version>)
    ensures
        cached_index(old(cache)@, name@, agent) is Some ==> final(cache)@ == old(cache)@,
        cached_index(old(cache)@, name@, agent) is None ==> {
            &&& final(cache)@.len() == old(cache)@.len() + 1
            &&& final(cache)@.drop_last() == old(cache)@
            &&& final(cache)@.last().name@ == name@
            &&& final(cache)@.last().agent == agent
            &&& version_views(final(cache)@.last().versions@) == version_views(versions@)
        },
        cache_is_unique(old(cache)@) ==> cache_is_unique(final(cache)@),
{
    proof {
        lemma_cached_index(cache@, name@, agent);
    }
    if find_cached(cache, name, agent).is_none() {
        let entry = DependencyCache {
            agent,
            name: name.to_string(),
            versions: crate::version::copy_versions(versions),
        };
        cache.push(entry);
        assert(cache@.drop_last() == old(cache)@);
    }
}

/// A version as the crates.io registry lists it.
#[derive(Debug, Clone)]
pub struct CargoVersionEntry {
    /// The `yanked` field, where it is a boolean.
    pub yanked: Option<bool>,
    /// The `num` field, where it is a string.
    pub num: Option<String>,
}

/// A version as the npm registry lists it.
#[derive(Debug, Clone)]
pub struct NpmVersionEntry {
    /// The `deprecated` field, where it is a string.
    pub deprecated: Option<String>,
    /// The `version` field, where it is a string.
    pub version: Option<String>,
}

/// The version a crates.io entry offers: none when it is yanked, else its number
/// where it parses.
pub open spec fn cargo_entry_version(yanked: Option<bool>, num: Option<Seq<char>>) -> Option<VersionView> {
    if yanked == Some(true) {
        None
    } else {
        match num {
            Some(n) => crate::version::semver_version(n),
            None => None,
        }
    }
}

/// The version an npm entry offers: none when it is deprecated with a message,
/// else its version where it parses.
pub open spec fn npm_entry_version(deprecated: Option<Seq<char>>, version: Option<Seq<char>>) -> Option<VersionView> {
    if deprecated matches Some(d) && d.len() > 0 {
        None
    } else {
        match version {
            Some(v) => crate::version::semver_version(v),
            None => None,
        }
    }
}

fn parse_optional(text: &Option<String>) -> (r: Option<Version>)
    ensures
        match text {
            Some(t) => match r {
                Some(v) => crate::version::semver_version(t@) == Some(v@),
                None => crate::version::semver_version(t@) is None,
            },
            None => r is None,
        },
{
    match text {
        Some(t) => match Version::parse(t.as_str()) {
            Ok(v) => Some(v),
            Err(_) => None,
        },
        None => None,
    }
}

impl DependencyTree {
    /// The version that a crates.io entry offers.
    pub fn parse_cargo_version(entry: &CargoVersionEntry) -> (r: Option<Version>)
        ensures
            match r {
                Some(v) => cargo_entry_version(entry.yanked, opt_view(entry.num)) == Some(v@),
                None => cargo_entry_version(entry.yanked, opt_view(entry.num)) is None,
            },
    {
        if entry.yanked == Some(true) {
            return None;
        }
        parse_optional(&entry.num)
    }

    /// The version that an npm entry offers.
    pub fn parse_npm_version(entry: &NpmVersionEntry) -> (r: Option<Version>)
        ensures
            match r {
                Some(v) => npm_entry_version(opt_view(entry.deprecated), opt_view(entry.version)) == Some(v@),
                None => npm_entry_version(opt_view(entry.deprecated), opt_view(entry.version)) is None,
            },
    {
        if let Some(d) = &entry.deprecated {
            if !d.as_str().is_empty() {
                return None;
            }
        }
        parse_optional(&entry.version)
    }

    /// The address at which the registry of `agent` lists the versions of `name`:
    /// crates.io for Cargo, the npm registry for npm, pnpm and yarn; Tauri manages
    /// no package.
    pub fn registry_url(agent: Agent, name: &str) -> (r: Result<String, Error>)
        ensures
            agent == Agent::Cargo ==> (r matches Ok(u) && u@ == "https://crates.io/api/v1/crates/"@
                + name@ + "/versions"@),
            (agent == Agent::Npm || agent == Agent::Pnpm || agent == Agent::Yarn) ==> (r matches Ok(
                u,
            ) && u@ == "https://registry.npmjs.org/"@ + name@),
            agent == Agent::Tauri ==> r matches Err(Error::NotPackageManager),
    {
        match agent {
            Agent::Cargo => {
                let mut url = "https://crates.io/api/v1/crates/".to_string();
                url.append(name);
                url.append("/versions");
                Ok(url)
            },
            Agent::Npm | Agent::Pnpm | Agent::Yarn => {
                let mut url = "https://registry.npmjs.org/".to_string();
                url.append(name);
                Ok(url)
            },
            Agent::Tauri => Err(Error::NotPackageManager),
        }
    }
}

} // verus!

verus! {

impl Ranked for Dependency {
    open spec fn rank_order(&self, other: &Self) -> int {
        dependency_order(self@, other@)
    }

    fn compare_rank(&self, other: &Self) -> (r: i8) {
        proof {
            lemma_dependency_order(self@, other@);
        }
        dependency_order_value(self, other)
    }
}

/// In a sorted sequence of dependencies, every dependency is at most each one
/// after it, not only the next.
pub proof fn lemma_sorted_dependencies(s: Seq<Dependency>)
    requires
        crate::order::is_sorted(s),
    ensures
        forall|i: int, j: int|
            0 <= i < j < s.len() ==> dependency_order(#[trigger] s[i]@, #[trigger] s[j]@) <= 0,
    decreases s.len(),
{
    if s.len() > 1 {
        let t = s.drop_last();
        assert forall|i: int| 0 <= i < t.len() - 1 implies #[trigger] t[i].rank_order(&t[i + 1]) <= 0 by {
            assert(t[i] == s[i] && t[i + 1] == s[i + 1]);
            assert(s[i].rank_order(&s[i + 1]) <= 0);
        }
        lemma_sorted_dependencies(t);
        let n = s.len() - 1;
        assert forall|i: int, j: int| 0 <= i < j < s.len() implies dependency_order(
            #[trigger] s[i]@,
            #[trigger] s[j]@,
        ) <= 0 by {
            if j < n {
                assert(t[i] == s[i] && t[j] == s[j]);
            } else {
                assert(s[n - 1].rank_order(&s[(n - 1) + 1]) <= 0);
                if i < n - 1 {
                    assert(t[i] == s[i] && t[n - 1] == s[n - 1]);
                    assert(dependency_order(t[i]@, t[n - 1]@) <= 0);
                    lemma_dependency_order_transitive(s[i]@, s[n - 1]@, s[n]@);
                }
            }
        }
    }
}

impl DependencyTree {
    /// Puts the dependencies in order: by kind, then by name.
    pub fn sort(&mut self)
        ensures
            final(self).agent == old(self).agent,
            final(self).dependencies@.to_multiset() == old(self).dependencies@.to_multiset(),
            crate::order::is_sorted(final(self).dependencies@),
            forall|i: int, j: int|
                0 <= i < j < final(self).dependencies@.len() ==> dependency_order(
                    #[trigger] final(self).dependencies@[i]@,
                    #[trigger] final(self).dependencies@[j]@,
                ) <= 0,
    {
        let mut dependencies = Vec::new();
        core::mem::swap(&mut dependencies, &mut self.dependencies);
        self.dependencies = crate::order::sort_ranked(dependencies);
        proof {
            lemma_sorted_dependencies(self.dependencies@);
        }
    }
}

} // verus!

verus! {

/// The versions that crates.io entries offer, in order: those neither yanked nor
/// unparsable.
pub open spec fn cargo_offered(entries: Seq<CargoVersionEntry>) -> Seq<VersionView>
    decreases entries.len(),
{
    if entries.len() == 0 {
        seq![]
    } else {
        let rest = cargo_offered(entries.drop_last());
        match cargo_entry_version(entries.last().yanked, opt_view(entries.last().num)) {
            Some(v) => rest.push(v),
            None => rest,
        }
    }
}

/// crates.io offers exactly the versions of the entries that are not yanked and
/// whose number parses: each version offered is such an entry's, and each such
/// entry's version is offered.
pub proof fn lemma_cargo_offered(entries: Seq<CargoVersionEntry>)
    ensures
        forall|v: VersionView|
            cargo_offered(entries).contains(v) <==> exists|i: int|
                0 <= i < entries.len() && entries[i].yanked != Some(true) && #[trigger] cargo_entry_version(
                    entries[i].yanked,
                    opt_view(entries[i].num),
                ) == Some(v),
    decreases entries.len(),
{
    if entries.len() > 0 {
        let rest = entries.drop_last();
        let n = entries.len() - 1;
        lemma_cargo_offered(rest);
        let r = cargo_offered(rest);
        assert forall|i: int| 0 <= i < n implies #[trigger] rest[i] == entries[i] by {}
        let last = cargo_entry_version(entries[n].yanked, opt_view(entries[n].num));
        assert forall|v: VersionView|
            cargo_offered(entries).contains(v) <==> exists|i: int|
                0 <= i < entries.len() && entries[i].yanked != Some(true) && #[trigger] cargo_entry_version(
                    entries[i].yanked,
                    opt_view(entries[i].num),
                ) == Some(v) by {
            if exists|i: int|
                0 <= i < entries.len() && entries[i].yanked != Some(true) && #[trigger] cargo_entry_version(
                    entries[i].yanked,
                    opt_view(entries[i].num),
                ) == Some(v) {
                let i = choose|i: int|
                    0 <= i < entries.len() && entries[i].yanked != Some(true) && #[trigger] cargo_entry_version(
                        entries[i].yanked,
                        opt_view(entries[i].num),
                    ) == Some(v);
                if i < n {
                    assert(rest[i] == entries[i]);
                    assert(r.contains(v));
                    if let Some(w) = last {
                        let k = choose|k: int| 0 <= k < r.len() && r[k] == v;
                        assert(r.push(w)[k] == v);
                    }
                } else {
                    assert(r.push(v)[r.len() as int] == v);
                }
            }
            if cargo_offered(entries).contains(v) {
                match last {
                    Some(w) => {
                        let k = choose|k: int| 0 <= k < r.len() + 1 && r.push(w)[k] == v;
                        if k < r.len() {
                            assert(r[k] == v);
                            assert(r.contains(v));
                            let i = choose|i: int|
                                0 <= i < rest.len() && rest[i].yanked != Some(true) && #[trigger] cargo_entry_version(
                                    rest[i].yanked,
                                    opt_view(rest[i].num),
                                ) == Some(v);
                            assert(entries[i] == rest[i]);
                        } else {
                            assert(entries[n].yanked != Some(true));
                        }
                    },
                    None => {
                        assert(cargo_offered(entries) == r);
                        assert(r.contains(v));
                        let i = choose|i: int|
                            0 <= i < rest.len() && rest[i].yanked != Some(true) && #[trigger] cargo_entry_version(
                                rest[i].yanked,
                                opt_view(rest[i].num),
                            ) == Some(v);
                        assert(entries[i] == rest[i]);
                    },
                }
            }
        }
    }
}

/// The versions that npm entries offer, in order: those neither deprecated nor
/// unparsable.
pub open spec fn npm_offered(entries: Seq<NpmVersionEntry>) -> Seq<VersionView>
    decreases entries.len(),
{
    if entries.len() == 0 {
        seq![]
    } else {
        let rest = npm_offered(entries.drop_last());
        match npm_entry_version(opt_view(entries.last().deprecated), opt_view(entries.last().version)) {
            Some(v) => rest.push(v),
            None => rest,
        }
    }
}

/// Whether the npm entry `e` offers `v`: it is not deprecated with a message and
/// its version parses as `v`.
pub open spec fn npm_offers(e: NpmVersionEntry, v: VersionView) -> bool {
    &&& !(e.deprecated matches Some(d) && d@.len() > 0)
    &&& npm_entry_version(opt_view(e.deprecated), opt_view(e.version)) == Some(v)
}

/// npm offers exactly the versions of the entries that are not deprecated with a
/// message and whose version parses: each version offered is such an entry's, and
/// each such entry's version is offered.
pub proof fn lemma_npm_offered(entries: Seq<NpmVersionEntry>)
    ensures
        forall|v: VersionView|
            npm_offered(entries).contains(v) <==> exists|i: int|
                0 <= i < entries.len() && #[trigger] npm_offers(entries[i], v),
    decreases entries.len(),
{
    if entries.len() > 0 {
        let rest = entries.drop_last();
        let n = entries.len() - 1;
        lemma_npm_offered(rest);
        let r = npm_offered(rest);
        assert forall|i: int| 0 <= i < n implies #[trigger] rest[i] == entries[i] by {}
        let last = npm_entry_version(opt_view(entries[n].deprecated), opt_view(entries[n].version));
        assert forall|v: VersionView|
            npm_offered(entries).contains(v) <==> exists|i: int|
                0 <= i < entries.len() && #[trigger] npm_offers(entries[i], v) by {
            if exists|i: int|
                0 <= i < entries.len() && #[trigger] npm_offers(entries[i], v) {
                let i = choose|i: int|
                    0 <= i < entries.len() && #[trigger] npm_offers(entries[i], v);
                if i < n {
                    assert(rest[i] == entries[i]);
                    assert(r.contains(v));
                    if let Some(w) = last {
                        let k = choose|k: int| 0 <= k < r.len() && r[k] == v;
                        assert(r.push(w)[k] == v);
                    }
                } else {
                    assert(r.push(v)[r.len() as int] == v);
                }
            }
            if npm_offered(entries).contains(v) {
                match last {
                    Some(w) => {
                        let k = choose|k: int| 0 <= k < r.len() + 1 && r.push(w)[k] == v;
                        if k < r.len() {
                            assert(r[k] == v);
                            assert(r.contains(v));
                            let i = choose|i: int|
                                0 <= i < rest.len() && #[trigger] npm_offers(rest[i], v);
                            assert(entries[i] == rest[i]);
                        } else {
                            assert(npm_offers(entries[n], v));
                        }
                    },
                    None => {
                        assert(npm_offered(entries) == r);
                        assert(r.contains(v));
                        let i = choose|i: int|
                            0 <= i < rest.len() && #[trigger] npm_offers(rest[i], v);
                        assert(entries[i] == rest[i]);
                    },
                }
            }
        }
    }
}


/// The versions that the texts give, in order: those that parse.
pub open spec fn parsed_versions(texts: Seq<Seq<char>>) -> Seq<VersionView>
    decreases texts.len(),
{
    if texts.len() == 0 {
        seq![]
    } else {
        let rest = parsed_versions(texts.drop_last());
        match crate::version::semver_version(texts.last()) {
            Some(v) => rest.push(v),
            None => rest,
        }
    }
}

/// The versions that the texts give, in order; those that do not parse are
/// skipped.
pub fn parse_versions(texts: &Vec<String>) -> (r: Vec<Version>)
    ensures
        version_views(r@) == parsed_versions(views(texts@)),
{
    let mut out: Vec<Version> = Vec::new();
    let mut i: usize = 0;
    while i < texts.len()
        invariant
            i <= texts.len(),
            version_views(out@) == parsed_versions(views(texts@).take(i as int)),
        decreases texts.len() - i,
    {
        let ghost ts = views(texts@);
        assert(ts.take(i + 1).drop_last() == ts.take(i as int));
        assert(ts.take(i + 1).last() == texts@[i as int]@);
        let ghost before = out@;
        match Version::parse(texts[i].as_str()) {
            Ok(v) => {
                out.push(v);
                assert(version_views(out@) == version_views(before).push(v@));
            },
            Err(_) => {},
        }
        i = i + 1;
    }
    assert(views(texts@).take(texts.len() as int) == views(texts@));
    out
}

impl DependencyTree {
    /// The versions that crates.io entries offer, in order.
    pub fn parse_cargo_versions(entries: &Vec<CargoVersionEntry>) -> (r: Vec<Version>)
        ensures
            version_views(r@) == cargo_offered(entries@),
    {
        let mut out: Vec<Version> = Vec::new();
        let mut i: usize = 0;
        while i < entries.len()
            invariant
                i <= entries.len(),
                version_views(out@) == cargo_offered(entries@.take(i as int)),
            decreases entries.len() - i,
        {
            assert(entries@.take(i + 1).drop_last() == entries@.take(i as int));
            assert(entries@.take(i + 1).last() == entries@[i as int]);
            let ghost before = out@;
            match DependencyTree::parse_cargo_version(&entries[i]) {
                Some(v) => {
                    out.push(v);
                    assert(version_views(out@) == version_views(before).push(v@));
                },
                None => {},
            }
            i = i + 1;
        }
        assert(entries@.take(entries.len() as int) == entries@);
        out
    }

    /// The versions that npm entries offer, in order.
    pub fn parse_npm_versions(entries: &Vec<NpmVersionEntry>) -> (r: Vec<Version>)
        ensures
            version_views(r@) == npm_offered(entries@),
    {
        let mut out: Vec<Version> = Vec::new();
        let mut i: usize = 0;
        while i < entries.len()
            invariant
                i <= entries.len(),
                version_views(out@) == npm_offered(entries@.take(i as int)),
            decreases entries.len() - i,
        {
            assert(entries@.take(i + 1).drop_last() == entries@.take(i as int));
            assert(entries@.take(i + 1).last() == entries@[i as int]);
            let ghost before = out@;
            match DependencyTree::parse_npm_version(&entries[i]) {
                Some(v) => {
                    out.push(v);
                    assert(version_views(out@) == version_views(before).push(v@));
                },
                None => {},
            }
            i = i + 1;
        }
        assert(entries@.take(entries.len() as int) == entries@);
        out
    }
}

/// The dependencies whose versions the cache holds for `agent`, in order, each
/// with the versions of the cache.
pub open spec fn from_cache(ds: Seq<DependencyView>, cache: Seq<DependencyCache>, agent: Agent) -> Seq<
    DependencyView,
>
    decreases ds.len(),
{
    if ds.len() == 0 {
        seq![]
    } else {
        let rest = from_cache(ds.drop_last(), cache, agent);
        let d = ds.last();
        match cached_index(cache, d.0, agent) {
            Some(i) => rest.push((d.0, d.1, d.2, version_views(cache[i].versions@))),
            None => rest,
        }
    }
}

/// The dependencies whose versions the cache does not hold for `agent`, in order.
pub open spec fn not_cached(ds: Seq<Dependency>, cache: Seq<DependencyCache>, agent: Agent) -> Seq<
    Dependency,
>
    decreases ds.len(),
{
    if ds.len() == 0 {
        seq![]
    } else {
        let rest = not_cached(ds.drop_last(), cache, agent);
        if cached_index(cache, ds.last()@.0, agent) is None {
            rest.push(ds.last())
        } else {
            rest
        }
    }
}

/// The dependencies for which some version is on offer, in order.
pub open spec fn offered(ds: Seq<Dependency>) -> Seq<Dependency>
    decreases ds.len(),
{
    if ds.len() == 0 {
        seq![]
    } else {
        let rest = offered(ds.drop_last());
        if ds.last()@.3.len() > 0 {
            rest.push(ds.last())
        } else {
            rest
        }
    }
}

/// The cache lookup loses and duplicates no dependency: every dependency is
/// either kept with the cached versions or handed out to be fetched.
pub proof fn lemma_split_cached_partitions(ds: Seq<Dependency>, cache: Seq<DependencyCache>, agent: Agent)
    ensures
        from_cache(dependency_views(ds), cache, agent).len() + not_cached(ds, cache, agent).len()
            == ds.len(),
    decreases ds.len(),
{
    if ds.len() > 0 {
        lemma_split_cached_partitions(ds.drop_last(), cache, agent);
        assert(dependency_views(ds).drop_last() == dependency_views(ds.drop_last()));
        assert(dependency_views(ds).last() == ds.last()@);
    }
}

impl DependencyTree {
    /// Gives each dependency whose versions the cache holds for the tree's agent
    /// those versions, and keeps it; hands back the others, in order, to be
    /// fetched.
    pub fn split_cached(&mut self, cache: &Vec<DependencyCache>) -> (to_fetch: Vec<Dependency>)
        ensures
            final(self).agent == old(self).agent,
            dependency_views(final(self).dependencies@) == from_cache(
                dependency_views(old(self).dependencies@),
                cache@,
                old(self).agent,
            ),
            to_fetch@ == not_cached(old(self).dependencies@, cache@, old(self).agent),
    {
        let mut rest: Vec<Dependency> = Vec::new();
        core::mem::swap(&mut rest, &mut self.dependencies);
        let ghost all = rest@;
        let agent = self.agent;
        let mut to_fetch: Vec<Dependency> = Vec::new();
        let ghost mut i: int = 0;
        while rest.len() > 0
            invariant
                0 <= i <= all.len(),
                rest@ == all.skip(i),
                self.agent == agent,
                agent == old(self).agent,
                all == old(self).dependencies@,
                dependency_views(self.dependencies@) == from_cache(
                    dependency_views(all.take(i)),
                    cache@,
                    agent,
                ),
                to_fetch@ == not_cached(all.take(i), cache@, agent),
            decreases rest.len(),
        {
            let mut d = rest.remove(0);
            assert(all.take(i + 1).drop_last() == all.take(i));
            assert(all.take(i + 1).last() == d);
            assert(dependency_views(all.take(i + 1)).drop_last() == dependency_views(all.take(i)));
            assert(dependency_views(all.take(i + 1)).last() == d@);
            match find_cached(cache, d.name().as_str(), agent) {
                Some(c) => {
                    proof {
                        lemma_cached_index(cache@, d@.0, agent);
                    }
                    let versions = crate::version::copy_versions(&c.versions);
                    d.set_versions(versions);
                    let ghost before = dependency_views(self.dependencies@);
                    self.dependencies.push(d);
                    assert(dependency_views(self.dependencies@) == before.push(d@));
                },
                None => {
                    to_fetch.push(d);
                },
            }
            proof {
                i = i + 1;
            }
        }
        assert(all.take(i) == all);
        to_fetch
    }

    /// Adds the fetched dependencies for which some version is on offer, in order.
    pub fn absorb(&mut self, fetched: Vec<Dependency>)
        ensures
            final(self).agent == old(self).agent,
            final(self).dependencies@ == old(self).dependencies@ + offered(fetched@),
    {
        let ghost all = fetched@;
        let mut rest = fetched;
        let ghost mut i: int = 0;
        while rest.len() > 0
            invariant
                0 <= i <= all.len(),
                rest@ == all.skip(i),
                self.agent == old(self).agent,
                self.dependencies@ == old(self).dependencies@ + offered(all.take(i)),
            decreases rest.len(),
        {
            let d = rest.remove(0);
            assert(all.take(i + 1).drop_last() == all.take(i));
            assert(all.take(i + 1).last() == d);
            if d.versions().len() > 0 {
                self.dependencies.push(d);
            }
            proof {
                i = i + 1;
            }
        }
        assert(all.take(i) == all);
    }
}

} // verus!
