//! The versions that packages are bumped to.

use crate::error::Error;
use crate::packages::Package;
use crate::version::{Release, VersionView, Version, bumped, can_bump, check_prerelease, semver_prerelease};
use vstd::prelude::*;

verus! {

/// The version `v` is bumped to by `release`, marked with `pre_id` where given.
pub open spec fn new_version(v: VersionView, release: Release, pre_id: Option<Seq<char>>) -> VersionView {
    let b = bumped(v, release);
    match pre_id {
        Some(p) => (b.0, b.1, b.2, p, seq![]),
        None => b,
    }
}

fn bump_one(v: &Version, release: Release, pre_id: Option<&str>) -> (r: Result<Version, Error>)
    ensures
        match r {
            Ok(n) => can_bump(v@, release) && n@ == new_version(
                v@,
                release,
                match pre_id {
                    Some(p) => Some(p@),
                    None => None,
                },
            ),
            Err(e) => !can_bump(v@, release) && e is VersionOverflow,
        },
{
    let ok = match release {
        Release::Major => v.major < u64::MAX,
        Release::Minor => v.minor < u64::MAX,
        Release::Patch => v.patch < u64::MAX,
    };
    if !ok {
        return Err(Error::VersionOverflow);
    }
    match pre_id {
        Some(p) => Ok(v.inc_with_pre(release, p)),
        None => Ok(v.inc(release)),
    }
}

/// The version each package is bumped to by `release`, marked with the
/// pre-release identifier `pre_id` where given, in the order of the packages.
/// Fails where `pre_id` is not a valid identifier, or where a package's version
/// cannot grow.
pub fn bump(packages: &Vec<Package>, release: Release, pre_id: Option<&str>) -> (r: Result<Vec<Version>, Error>)
    ensures
        match r {
            Ok(vs) => (pre_id matches Some(p) ==> semver_prerelease(p@)) && vs@.len() == packages@.len()
                && forall|i: int|
                0 <= i < vs@.len() ==> #[trigger] vs@[i]@ == new_version(
                    packages@[i].version@,
                    release,
                    match pre_id {
                        Some(p) => Some(p@),
                        None => None,
                    },
                ) && forall|i: int|
                0 <= i < vs@.len() ==> #[trigger] vs@[i].build@.len() == 0 && (pre_id is None
                    ==> vs@[i].pre@.len() == 0),
            Err(e) => if pre_id matches Some(p) && !semver_prerelease(p@) {
                e matches Error::Semver { input } && pre_id matches Some(p) && input@ == p@
            } else {
                &&& e is VersionOverflow
                &&& exists|i: int|
                    0 <= i < packages@.len() && !can_bump(#[trigger] packages@[i].version@, release)
            },
        },
{
    if let Some(p) = pre_id {
        if check_prerelease(p).is_err() {
            return Err(Error::Semver { input: p.to_string() });
        }
    }
    let ghost pre = match pre_id {
        Some(p) => Some(p@),
        None => None,
    };
    let mut out: Vec<Version> = Vec::new();
    let mut i: usize = 0;
    while i < packages.len()
        invariant
            i <= packages.len(),
            pre == match pre_id {
                Some(p) => Some(p@),
                None => None::<Seq<char>>,
            },
            pre_id matches Some(p) ==> semver_prerelease(p@),
            out@.len() == i,
            forall|j: int| 0 <= j < i ==> #[trigger] out@[j]@ == new_version(packages@[j].version@, release, pre),
        decreases packages.len() - i,
    {
        let v = match bump_one(&packages[i].version, release, pre_id) {
            Ok(v) => v,
            Err(e) => return Err(e),
        };
        let ghost before = out@;
        out.push(v);
        assert forall|j: int| 0 <= j < i + 1 implies #[trigger] out@[j]@ == new_version(packages@[j].version@, release, pre) by {
            if j < i {
                assert(out@[j] == before[j]);
            }
        }
        i = i + 1;
    }
    assert forall|j: int| 0 <= j < out@.len() implies #[trigger] out@[j].build@.len() == 0 && (pre_id
        is None ==> out@[j].pre@.len() == 0) by {
        assert(out@[j]@ == new_version(packages@[j].version@, release, pre));
    }
    Ok(out)
}

} // verus!
