//! Bumping the version of a package.

use super::Action;
use crate::error::Error;
use crate::package::Package;
use crate::version::{Release, Version, VersionView, bumped, can_bump, check_build_metadata, check_prerelease, semver_build_metadata, semver_prerelease};
use vstd::prelude::*;

verus! {

/// Bumps a package to a release, marked with a pre-release identifier and build
/// metadata where they are given.
pub struct Bump {
    package: Package,
    release: Release,
    pre: String,
    build: String,
}

/// The version a bump gives: the release applied, then the pre-release identifier
/// (where not empty) and the build metadata (where not empty).
pub open spec fn bumped_with(v: VersionView, release: Release, pre: Seq<char>, build: Seq<char>) -> VersionView {
    let b = bumped(v, release);
    (b.0, b.1, b.2, pre, build)
}

impl Bump {
    /// Bumps `package` to `release`, with neither pre-release nor build metadata.
    pub fn new(package: Package, release: Release) -> (r: Bump)
        ensures
            r.package() == package,
            r.release() == release,
            r.pre_id()@.len() == 0,
            r.build_metadata()@.len() == 0,
    {
        Bump { package, release, pre: String::new(), build: String::new() }
    }

    /// The package to bump.
    pub closed spec fn package(&self) -> Package {
        self.package
    }

    /// The release.
    pub closed spec fn release(&self) -> Release {
        self.release
    }

    /// The pre-release identifier; empty for none.
    pub closed spec fn pre_id(&self) -> String {
        self.pre
    }

    /// The build metadata; empty for none.
    pub closed spec fn build_metadata(&self) -> String {
        self.build
    }

    /// Sets the prerelease version. Fails, changing nothing, where `pre` is not a
    /// valid pre-release identifier.
    pub fn pre(&mut self, pre: &str) -> (r: Result<(), Error>)
        ensures
            r is Ok <==> semver_prerelease(pre@),
            r is Ok ==> final(self).pre_id()@ == pre@,
            r is Err ==> final(self).pre_id() == old(self).pre_id(),
            r matches Err(e) ==> e is Semver,
            final(self).package() == old(self).package(),
            final(self).release() == old(self).release(),
            final(self).build_metadata() == old(self).build_metadata(),
    {
        match check_prerelease(pre) {
            Ok(()) => {
                self.pre = pre.to_string();
                Ok(())
            },
            Err(e) => Err(e),
        }
    }

    /// Sets the build metadata. Fails, changing nothing, where `build` is not valid
    /// build metadata.
    pub fn build(&mut self, build: &str) -> (r: Result<(), Error>)
        ensures
            r is Ok <==> semver_build_metadata(build@),
            r is Ok ==> final(self).build_metadata()@ == build@,
            r is Err ==> final(self).build_metadata() == old(self).build_metadata(),
            r matches Err(e) ==> e is Semver,
            final(self).package() == old(self).package(),
            final(self).release() == old(self).release(),
            final(self).pre_id() == old(self).pre_id(),
    {
        match check_build_metadata(build) {
            Ok(()) => {
                self.build = build.to_string();
                Ok(())
            },
            Err(e) => Err(e),
        }
    }
}

impl Action for Bump {
    type Output = Result<(Package, Version), Error>;

    /// The package and the version it is bumped to. Fails with `VersionOverflow`
    /// where the part the release increments cannot grow.
    fn execute(self) -> (r: Result<(Package, Version), Error>)
        ensures
            match r {
                Ok((p, v)) => can_bump(self.package().version@, self.release()) && p == self.package()
                    && v@ == bumped_with(
                    self.package().version@,
                    self.release(),
                    self.pre_id()@,
                    self.build_metadata()@,
                ),
                Err(e) => !can_bump(self.package().version@, self.release()) && e is VersionOverflow,
            },
    {
        let ok = match self.release {
            Release::Major => self.package.version.major < u64::MAX,
            Release::Minor => self.package.version.minor < u64::MAX,
            Release::Patch => self.package.version.patch < u64::MAX,
        };
        if !ok {
            return Err(Error::VersionOverflow);
        }
        let mut new_version = if self.pre.as_str().is_empty() {
            self.package.version.inc(self.release)
        } else {
            self.package.version.inc_with_pre(self.release, self.pre.as_str())
        };
        if !self.build.as_str().is_empty() {
            new_version.build = self.build;
        }
        Ok((self.package, new_version))
    }
}

} // verus!
