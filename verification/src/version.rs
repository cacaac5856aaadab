//! Semantic versions, comparators and releases.
//!
//! Parsing and the ordering of pre-release and build identifiers are done by the
//! `semver` crate; the library keeps the parts of a version as plain values.

use crate::error::Error;
use crate::order::{compare_u64, ordering_value, sign_of_diff, to_ordering};
use core::cmp::Ordering;
use vstd::prelude::*;

verus! {

/// A version seen as its parts: major, minor, patch, pre-release and build metadata.
pub type VersionView = (u64, u64, u64, Seq<char>, Seq<char>);

/// What `semver::Version::parse` gives for `text`: `None` where it fails, else the
/// parts of the version it parsed.
pub uninterp spec fn semver_version(text: Seq<char>) -> Option<VersionView>;

/// How `semver::Prerelease` orders the identifiers `a` and `b` (-1, 0 or 1), or
/// `None` where `Prerelease::new` rejects one of them.
pub uninterp spec fn semver_pre_order(a: Seq<char>, b: Seq<char>) -> Option<int>;

/// How `semver::BuildMetadata` orders the identifiers `a` and `b` (-1, 0 or 1), or
/// `None` where `BuildMetadata::new` rejects one of them.
pub uninterp spec fn semver_build_order(a: Seq<char>, b: Seq<char>) -> Option<int>;

/// Whether `semver::Prerelease::new` accepts `text`.
pub uninterp spec fn semver_prerelease(text: Seq<char>) -> bool;

/// Whether `semver::BuildMetadata::new` accepts `text`.
pub uninterp spec fn semver_build_metadata(text: Seq<char>) -> bool;

/// A semantic version `major.minor.patch[-pre][+build]`; an empty `pre` or `build`
/// means that the version has none.
#[derive(Debug, Clone)]
pub struct Version {
    pub major: u64,
    pub minor: u64,
    pub patch: u64,
    pub pre: String,
    pub build: String,
}

impl View for Version {
    type V = VersionView;

    open spec fn view(&self) -> VersionView {
        (self.major, self.minor, self.patch, self.pre@, self.build@)
    }
}

/// Calls `semver::Version::parse` and hands out the parts of the version. Claims
/// that the result is what `semver_version` names for the text.
#[verifier::external_body]
fn semver_parse_version(text: &str) -> (r: Option<Version>)
    ensures
        match r {
            Some(v) => semver_version(text@) == Some(v@),
            None => semver_version(text@) is None,
        },
{
    match semver::Version::parse(text) {
        Ok(v) => Some(
            Version {
                major: v.major,
                minor: v.minor,
                patch: v.patch,
                pre: v.pre.as_str().to_string(),
                build: v.build.as_str().to_string(),
            },
        ),
        Err(_) => None,
    }
}

/// Compares two pre-release identifiers with `Ord for semver::Prerelease`, after
/// `Prerelease::new` on each. Claims that the result is what `semver_pre_order`
/// names, that it is -1, 0 or 1, and that swapping the arguments negates it: the
/// crate documents a total order on versions.
#[verifier::external_body]
fn semver_order_pre(a: &str, b: &str) -> (r: Option<i8>)
    ensures
        match r {
            Some(x) => {
                &&& semver_pre_order(a@, b@) matches Some(y) && y == x
                &&& semver_pre_order(b@, a@) == Some(-x)
                &&& -1 <= x <= 1
            },
            None => semver_pre_order(a@, b@) is None && semver_pre_order(b@, a@) is None,
        },
{
    match (semver::Prerelease::new(a), semver::Prerelease::new(b)) {
        (Ok(x), Ok(y)) => match x.cmp(&y) {
            Ordering::Less => Some(-1),
            Ordering::Equal => Some(0),
            Ordering::Greater => Some(1),
        },
        _ => None,
    }
}

/// Compares two build-metadata identifiers with `Ord for semver::BuildMetadata`,
/// after `BuildMetadata::new` on each. Claims what `semver_order_pre` claims, over
/// `semver_build_order`.
#[verifier::external_body]
fn semver_order_build(a: &str, b: &str) -> (r: Option<i8>)
    ensures
        match r {
            Some(x) => {
                &&& semver_build_order(a@, b@) matches Some(y) && y == x
                &&& semver_build_order(b@, a@) == Some(-x)
                &&& -1 <= x <= 1
            },
            None => semver_build_order(a@, b@) is None && semver_build_order(b@, a@) is None,
        },
{
    match (semver::BuildMetadata::new(a), semver::BuildMetadata::new(b)) {
        (Ok(x), Ok(y)) => match x.cmp(&y) {
            Ordering::Less => Some(-1),
            Ordering::Equal => Some(0),
            Ordering::Greater => Some(1),
        },
        _ => None,
    }
}

/// Calls `semver::Prerelease::new` and tells whether it succeeds. Claims that the
/// answer is `semver_prerelease` of the text.
#[verifier::external_body]
fn semver_check_prerelease(text: &str) -> (r: bool)
    ensures
        r == semver_prerelease(text@),
{
    semver::Prerelease::new(text).is_ok()
}

/// Calls `semver::BuildMetadata::new` and tells whether it succeeds. Claims that the
/// answer is `semver_build_metadata` of the text.
#[verifier::external_body]
fn semver_check_build(text: &str) -> (r: bool)
    ensures
        r == semver_build_metadata(text@),
{
    semver::BuildMetadata::new(text).is_ok()
}

/// What `semver::VersionReq::matches` answers for the requirement `req` and the
/// version `v`: `None` where `VersionReq::parse` rejects the requirement, or where
/// the pre-release or build metadata of `v` is not valid for `semver`.
pub uninterp spec fn semver_req_matches(req: Seq<char>, v: VersionView) -> Option<bool>;

/// Parses `req` with `semver::VersionReq::parse`, builds the `semver::Version` of
/// the parts of `v` and asks `VersionReq::matches`. Claims that the answer is what
/// `semver_req_matches` names for the requirement and the version.
#[verifier::external_body]
pub(crate) fn semver_matches(req: &str, v: &Version) -> (r: Option<bool>)
    ensures
        r == semver_req_matches(req@, v@),
{
    let req = semver::VersionReq::parse(req).ok()?;
    let pre = semver::Prerelease::new(&v.pre).ok()?;
    let build = semver::BuildMetadata::new(&v.build).ok()?;
    let version = semver::Version { major: v.major, minor: v.minor, patch: v.patch, pre, build };
    Some(req.matches(&version))
}

/// Precedence: major, minor and patch compared as numbers, then the pre-release;
/// build metadata plays no part.
pub open spec fn precedence(a: VersionView, b: VersionView) -> int {
    precedence_given(a, b, semver_pre_order(a.3, b.3))
}

/// Precedence compares the major, then the minor, then the patch numbers, and the
/// pre-release identifiers only between versions equal in all three.
pub proof fn lemma_precedence_by_parts(a: VersionView, b: VersionView)
    ensures
        a.0 < b.0 ==> precedence(a, b) == -1,
        a.0 == b.0 && a.1 < b.1 ==> precedence(a, b) == -1,
        a.0 == b.0 && a.1 == b.1 && a.2 < b.2 ==> precedence(a, b) == -1,
        a.0 > b.0 ==> precedence(a, b) == 1,
        a.0 == b.0 && a.1 > b.1 ==> precedence(a, b) == 1,
        a.0 == b.0 && a.1 == b.1 && a.2 > b.2 ==> precedence(a, b) == 1,
        a.0 == b.0 && a.1 == b.1 && a.2 == b.2 ==> precedence(a, b) == match semver_pre_order(a.3, b.3) {
            Some(x) => x,
            None => 0,
        },
{
}

/// The total order of versions: precedence, then build metadata.
pub open spec fn version_order(a: VersionView, b: VersionView) -> int {
    order_given(a, b, semver_pre_order(a.3, b.3), semver_build_order(a.4, b.4))
}

/// The value of an optional order; an order that could not be found counts as equal.
pub open spec fn or_equal(o: Option<int>) -> int {
    match o {
        Some(x) => x,
        None => 0,
    }
}

/// Precedence, given the order of the pre-release identifiers: major, minor and
/// patch compared as numbers, then the pre-release order.
pub open spec fn precedence_given(a: VersionView, b: VersionView, pre: Option<int>) -> int {
    if a.0 != b.0 {
        sign_of_diff(a.0 as int, b.0 as int)
    } else if a.1 != b.1 {
        sign_of_diff(a.1 as int, b.1 as int)
    } else if a.2 != b.2 {
        sign_of_diff(a.2 as int, b.2 as int)
    } else {
        or_equal(pre)
    }
}

/// The total order, given the orders of the pre-release and build identifiers.
pub open spec fn order_given(a: VersionView, b: VersionView, pre: Option<int>, build: Option<int>) -> int {
    if precedence_given(a, b, pre) != 0 {
        precedence_given(a, b, pre)
    } else {
        or_equal(build)
    }
}

/// Whether an optional order is -1, 0 or 1.
pub open spec fn is_sign(o: Option<i8>) -> bool {
    o matches Some(x) ==> -1 <= x <= 1
}

/// Widens an optional order to an integer.
pub open spec fn wide(o: Option<i8>) -> Option<int> {
    match o {
        Some(x) => Some(x as int),
        None => None,
    }
}

/// Compares the parts of two versions for precedence, given the order of their
/// pre-release identifiers.
pub fn precedence_of_parts(a: &Version, b: &Version, pre: Option<i8>) -> (r: i8)
    requires
        is_sign(pre),
    ensures
        r == precedence_given(a@, b@, wide(pre)),
        -1 <= r <= 1,
{
    if a.major != b.major {
        compare_u64(a.major, b.major)
    } else if a.minor != b.minor {
        compare_u64(a.minor, b.minor)
    } else if a.patch != b.patch {
        compare_u64(a.patch, b.patch)
    } else {
        match pre {
            Some(x) => x,
            None => 0,
        }
    }
}

/// Compares the parts of two versions totally, given the orders of their
/// pre-release and build identifiers.
pub fn order_of_parts(a: &Version, b: &Version, pre: Option<i8>, build: Option<i8>) -> (r: i8)
    requires
        is_sign(pre),
        is_sign(build),
    ensures
        r == order_given(a@, b@, wide(pre), wide(build)),
        -1 <= r <= 1,
{
    let p = precedence_of_parts(a, b, pre);
    if p != 0 {
        p
    } else {
        match build {
            Some(x) => x,
            None => 0,
        }
    }
}

/// The precedence of `a` against `b`, as -1, 0 or 1.
pub fn precedence_sign(a: &Version, b: &Version) -> (r: i8)
    ensures
        r == precedence(a@, b@),
        precedence(b@, a@) == -r,
        -1 <= r <= 1,
{
    let pre = semver_order_pre(a.pre.as_str(), b.pre.as_str());
    assert(wide(pre) == semver_pre_order(a@.3, b@.3));
    precedence_of_parts(a, b, pre)
}

/// The total order of `a` against `b`, as -1, 0 or 1.
pub fn order_sign(a: &Version, b: &Version) -> (r: i8)
    ensures
        r == version_order(a@, b@),
        version_order(b@, a@) == -r,
        -1 <= r <= 1,
{
    let pre = semver_order_pre(a.pre.as_str(), b.pre.as_str());
    let build = semver_order_build(a.build.as_str(), b.build.as_str());
    assert(wide(pre) == semver_pre_order(a@.3, b@.3));
    assert(wide(build) == semver_build_order(a@.4, b@.4));
    order_of_parts(a, b, pre, build)
}

/// Both orders are antisymmetric: swapping the versions negates the result.
pub proof fn lemma_order_antisymmetric(a: VersionView, b: VersionView)
    requires
        semver_pre_order(b.3, a.3) == match semver_pre_order(a.3, b.3) {
            Some(x) => Some(-x),
            None => None::<int>,
        },
        semver_build_order(b.4, a.4) == match semver_build_order(a.4, b.4) {
            Some(x) => Some(-x),
            None => None::<int>,
        },
    ensures
        precedence(b, a) == -precedence(a, b),
        version_order(b, a) == -version_order(a, b),
{
}

impl Version {
    /// Parses `text` as a semantic version.
    pub fn parse(text: &str) -> (r: Result<Version, Error>)
        ensures
            match r {
                Ok(v) => semver_version(text@) == Some(v@),
                Err(e) => semver_version(text@) is None && (e matches Error::Semver { input }
                    && input@ == text@),
            },
    {
        match semver_parse_version(text) {
            Some(v) => Ok(v),
            None => Err(Error::Semver { input: text.to_string() }),
        }
    }

    /// Compares the major, minor, patch and pre-release parts, disregarding the
    /// build metadata, as the SemVer specification defines precedence.
    pub fn cmp_precedence(&self, other: &Version) -> (r: Ordering)
        ensures
            ordering_value(r) == precedence(self@, other@),
    {
        to_ordering(precedence_sign(self, other))
    }

    /// Compares two versions totally: precedence first, then build metadata.
    pub fn cmp(&self, other: &Version) -> (r: Ordering)
        ensures
            ordering_value(r) == version_order(self@, other@),
    {
        to_ordering(order_sign(self, other))
    }
}

} // verus!

verus! {

/// The kind of release a version is bumped to.
#[derive(Debug, Clone, Copy, PartialEq, Eq, Structural)]
pub enum Release {
    Major,
    Minor,
    Patch,
}

/// Whether the part that `release` increments can grow by one in a `u64`.
pub open spec fn can_bump(v: VersionView, release: Release) -> bool {
    match release {
        Release::Major => v.0 < u64::MAX,
        Release::Minor => v.1 < u64::MAX,
        Release::Patch => v.2 < u64::MAX,
    }
}

/// The version after a release: the part it names grows by one, the parts after it
/// are reset to zero, and the pre-release and build metadata are dropped.
pub open spec fn bumped(v: VersionView, release: Release) -> VersionView {
    match release {
        Release::Major => ((v.0 + 1) as u64, 0, 0, seq![], seq![]),
        Release::Minor => (v.0, (v.1 + 1) as u64, 0, seq![], seq![]),
        Release::Patch => (v.0, v.1, (v.2 + 1) as u64, seq![], seq![]),
    }
}

/// A release always gives a version of greater precedence.
pub proof fn lemma_bump_increases(v: VersionView, release: Release)
    requires
        can_bump(v, release),
    ensures
        precedence(v, bumped(v, release)) == -1,
        precedence(bumped(v, release), v) == 1,
{
}

/// A release gives a release version: whatever the version bumped, the result
/// carries neither a pre-release identifier nor build metadata. A major release
/// keeps nothing of the old minor and patch, a minor release keeps the major and
/// drops the patch, and a patch release keeps the major and the minor; the part
/// the release names grows by exactly one.
pub proof fn lemma_bump_gives_release(v: VersionView, release: Release)
    requires
        can_bump(v, release),
    ensures
        bumped(v, release).3 == Seq::<char>::empty(),
        bumped(v, release).4 == Seq::<char>::empty(),
        release == Release::Major ==> bumped(v, release).0 == v.0 + 1 && bumped(v, release).1 == 0
            && bumped(v, release).2 == 0,
        release == Release::Minor ==> bumped(v, release).0 == v.0 && bumped(v, release).1 == v.1 + 1
            && bumped(v, release).2 == 0,
        release == Release::Patch ==> bumped(v, release).0 == v.0 && bumped(v, release).1 == v.1
            && bumped(v, release).2 == v.2 + 1,
{
}

impl Release {
    /// Reads a release type: `major`, `minor` or `patch`.
    pub fn parse(text: &str) -> (r: Result<Release, Error>)
        ensures
            text@ == seq!['m', 'a', 'j', 'o', 'r'] ==> r == Ok::<Release, Error>(Release::Major),
            text@ == seq!['m', 'i', 'n', 'o', 'r'] ==> r == Ok::<Release, Error>(Release::Minor),
            text@ == seq!['p', 'a', 't', 'c', 'h'] ==> r == Ok::<Release, Error>(Release::Patch),
            r is Err <==> (text@ != seq!['m', 'a', 'j', 'o', 'r'] && text@ != seq![
                'm',
                'i',
                'n',
                'o',
                'r',
            ] && text@ != seq!['p', 'a', 't', 'c', 'h']),
            r matches Err(e) ==> (e matches Error::InvalidRelease { input } && input@ == text@),
    {
        if crate::text::equals(text, &['m', 'a', 'j', 'o', 'r']) {
            Ok(Release::Major)
        } else if crate::text::equals(text, &['m', 'i', 'n', 'o', 'r']) {
            Ok(Release::Minor)
        } else if crate::text::equals(text, &['p', 'a', 't', 'c', 'h']) {
            Ok(Release::Patch)
        } else {
            Err(Error::InvalidRelease { input: text.to_string() })
        }
    }
}

/// Checks that `text` is a valid pre-release identifier.
pub fn check_prerelease(text: &str) -> (r: Result<(), Error>)
    ensures
        r is Ok <==> semver_prerelease(text@),
        r matches Err(e) ==> (e matches Error::Semver { input } && input@ == text@),
{
    if semver_check_prerelease(text) {
        Ok(())
    } else {
        Err(Error::Semver { input: text.to_string() })
    }
}

/// Checks that `text` is valid build metadata.
pub fn check_build_metadata(text: &str) -> (r: Result<(), Error>)
    ensures
        r is Ok <==> semver_build_metadata(text@),
        r matches Err(e) ==> (e matches Error::Semver { input } && input@ == text@),
{
    if semver_check_build(text) {
        Ok(())
    } else {
        Err(Error::Semver { input: text.to_string() })
    }
}

/// A copy of `v`.
pub fn copy_version(v: &Version) -> (r: Version)
    ensures
        r == *v,
{
    Version { major: v.major, minor: v.minor, patch: v.patch, pre: v.pre.clone(), build: v.build.clone() }
}

/// A copy of every version of `vs`.
pub fn copy_versions(vs: &Vec<Version>) -> (r: Vec<Version>)
    ensures
        r@.map_values(|v: Version| v@) == vs@.map_values(|v: Version| v@),
{
    let mut r: Vec<Version> = Vec::new();
    let mut i: usize = 0;
    while i < vs.len()
        invariant
            i <= vs.len(),
            r@.map_values(|v: Version| v@) == vs@.take(i as int).map_values(|v: Version| v@),
        decreases vs.len() - i,
    {
        let c = copy_version(&vs[i]);
        r.push(c);
        assert(vs@.take(i + 1) == vs@.take(i as int).push(vs@[i as int]));
        assert(r@.map_values(|v: Version| v@) =~= vs@.take(i + 1).map_values(|v: Version| v@)) by {
            assert(r@.drop_last().map_values(|v: Version| v@) == vs@.take(i as int).map_values(
                |v: Version| v@,
            ));
            assert forall|k: int| 0 <= k < i implies r@[k]@ == vs@[k]@ by {
                assert(r@.drop_last()[k] == r@[k]);
                assert(r@.drop_last().map_values(|v: Version| v@)[k] == vs@.take(i as int).map_values(
                    |v: Version| v@,
                )[k]);
            }
        }
        i = i + 1;
    }
    assert(vs@.take(vs.len() as int) == vs@);
    r
}

impl Version {
    /// The version `major.minor.patch`, with neither pre-release nor build metadata.
    pub fn new(major: u64, minor: u64, patch: u64) -> (r: Version)
        ensures
            r@ == (major, minor, patch, Seq::<char>::empty(), Seq::<char>::empty()),
    {
        Version { major, minor, patch, pre: String::new(), build: String::new() }
    }

    /// The version after `release`.
    pub fn inc(&self, release: Release) -> (r: Version)
        requires
            can_bump(self@, release),
        ensures
            r@ == bumped(self@, release),
            r.pre@.len() == 0,
            r.build@.len() == 0,
            release == Release::Major ==> r.major == self.major + 1 && r.minor == 0 && r.patch == 0,
            release == Release::Minor ==> r.major == self.major && r.minor == self.minor + 1 && r.patch
                == 0,
            release == Release::Patch ==> r.major == self.major && r.minor == self.minor && r.patch
                == self.patch + 1,
    {
        match release {
            Release::Major => Version::new(self.major + 1, 0, 0),
            Release::Minor => Version::new(self.major, self.minor + 1, 0),
            Release::Patch => Version::new(self.major, self.minor, self.patch + 1),
        }
    }

    /// The version after `release`, marked with the pre-release identifier `pre`.
    pub fn inc_with_pre(&self, release: Release, pre: &str) -> (r: Version)
        requires
            can_bump(self@, release),
        ensures
            r@ == (bumped(self@, release).0, bumped(self@, release).1, bumped(self@, release).2,
                pre@, Seq::<char>::empty()),
    {
        let mut v = self.inc(release);
        v.pre = pre.to_string();
        v
    }
}

/// The operator of a comparator.
#[derive(Debug, Clone, Copy, PartialEq, Eq, Structural)]
pub enum Op {
    Exact,
    Greater,
    GreaterEq,
    Less,
    LessEq,
    Tilde,
    Caret,
    Wildcard,
}

/// A comparator seen as its parts: operator, major, minor, patch and pre-release.
pub type ComparatorView = (Op, u64, Option<u64>, Option<u64>, Seq<char>);

/// What `semver::Comparator::parse` gives for `text`: `None` where it fails (or where
/// the operator is one the library does not know), else the parts of the comparator.
pub uninterp spec fn semver_comparator(text: Seq<char>) -> Option<ComparatorView>;

/// A version requirement of one comparison, such as `^1.2` or `>=0.4.1`.
#[derive(Debug, Clone)]
pub struct Comparator {
    pub op: Op,
    pub major: u64,
    pub minor: Option<u64>,
    pub patch: Option<u64>,
    pub pre: String,
}

impl View for Comparator {
    type V = ComparatorView;

    open spec fn view(&self) -> ComparatorView {
        (self.op, self.major, self.minor, self.patch, self.pre@)
    }
}

/// Calls `semver::Comparator::parse` and hands out the parts of the comparator.
/// Claims that the result is what `semver_comparator` names for the text.
#[verifier::external_body]
fn semver_parse_comparator(text: &str) -> (r: Option<Comparator>)
    ensures
        match r {
            Some(c) => semver_comparator(text@) == Some(c@),
            None => semver_comparator(text@) is None,
        },
{
    let c = semver::Comparator::parse(text).ok()?;
    let op = match c.op {
        semver::Op::Exact => Op::Exact,
        semver::Op::Greater => Op::Greater,
        semver::Op::GreaterEq => Op::GreaterEq,
        semver::Op::Less => Op::Less,
        semver::Op::LessEq => Op::LessEq,
        semver::Op::Tilde => Op::Tilde,
        semver::Op::Caret => Op::Caret,
        semver::Op::Wildcard => Op::Wildcard,
        _ => return None,
    };
    Some(Comparator { op, major: c.major, minor: c.minor, patch: c.patch, pre: c.pre.to_string() })
}

impl Comparator {
    /// Parses `text` as a comparator, such as `^1.2.3`.
    pub fn parse(text: &str) -> (r: Result<Comparator, Error>)
        ensures
            match r {
                Ok(c) => semver_comparator(text@) == Some(c@),
                Err(e) => semver_comparator(text@) is None && (e matches Error::Semver { input }
                    && input@ == text@),
            },
    {
        match semver_parse_comparator(text) {
            Some(c) => Ok(c),
            None => Err(Error::Semver { input: text.to_string() }),
        }
    }

    /// Tells whether two comparators are the same in every part.
    pub fn same_as(&self, other: &Comparator) -> (b: bool)
        ensures
            b == (self@ == other@),
    {
        self.op == other.op && self.major == other.major && self.minor == other.minor
            && self.patch == other.patch && self.pre == other.pre
    }
}

} // verus!
