//! Collecting the manifests to bump, with the release to bump them to.

use crate::error::Error;
use crate::text::views;
use crate::version::Release;
use vstd::prelude::*;

verus! {

/// A manifest to bump: its path, the release, and a pre-release identifier.
#[derive(Debug, Clone)]
pub struct PackageEntry {
    pub path: String,
    pub release: Release,
    pub pre_id: Option<String>,
}

/// Gathers the paths of the manifests to bump with the release and pre-release
/// identifier to bump them with.
#[derive(Debug)]
pub struct PackageParser {
    entries: Vec<String>,
    release_type: Option<Release>,
    pre_id: Option<String>,
}

/// A parser seen as its paths, its release and its pre-release identifier.
pub type ParserView = (Seq<Seq<char>>, Option<Release>, Option<Seq<char>>);

impl View for PackageParser {
    type V = ParserView;

    closed spec fn view(&self) -> ParserView {
        (views(self.entries@), self.release_type, crate::text::opt_view(self.pre_id))
    }
}

impl PackageParser {
    /// A parser of the manifests at `entries`, with no release yet.
    pub fn new(entries: Vec<String>) -> (r: PackageParser)
        ensures
            r@ == (views(entries@), None::<Release>, None::<Seq<char>>),
    {
        PackageParser { entries, release_type: None, pre_id: None }
    }

    /// Define a release type for the packages.
    pub fn release(&mut self, release_type: Release)
        ensures
            final(self)@ == (old(self)@.0, Some(release_type), old(self)@.2),
    {
        self.release_type = Some(release_type);
    }

    /// Define a pre-release identifier for the packages.
    pub fn pre_id(&mut self, pre_id: &str)
        ensures
            final(self)@ == (old(self)@.0, old(self)@.1, Some(pre_id@)),
    {
        self.pre_id = Some(pre_id.to_string());
    }

    /// One entry per path, in order, each with the release and pre-release
    /// identifier. Fails with `ReleaseNotSpecified` where no release was given.
    pub fn parse(self) -> (r: Result<Vec<PackageEntry>, Error>)
        ensures
            match r {
                Ok(es) => self@.1 matches Some(release) && es@.len() == self@.0.len() && forall|i: int|
                    0 <= i < es@.len() ==> entry_is(#[trigger] es@[i], self@.0[i], release, self@.2),
                Err(e) => self@.1 is None && e is ReleaseNotSpecified,
            },
    {
        let release = match self.release_type {
            Some(r) => r,
            None => return Err(Error::ReleaseNotSpecified),
        };
        let ghost paths = views(self.entries@);
        let ghost pre = crate::text::opt_view(self.pre_id);
        let mut out: Vec<PackageEntry> = Vec::new();
        let mut i: usize = 0;
        while i < self.entries.len()
            invariant
                i <= self.entries.len(),
                paths == views(self.entries@),
                pre == crate::text::opt_view(self.pre_id),
                out@.len() == i,
                forall|j: int| 0 <= j < i ==> entry_is(#[trigger] out@[j], paths[j], release, pre),
            decreases self.entries.len() - i,
        {
            let pre_id = match &self.pre_id {
                Some(p) => Some(p.clone()),
                None => None,
            };
            let path = self.entries[i].clone();
            let ghost before = out@;
            out.push(PackageEntry { path, release, pre_id });
            assert forall|j: int| 0 <= j < i + 1 implies entry_is(#[trigger] out@[j], paths[j], release, pre) by {
                if j < i {
                    assert(out@[j] == before[j]);
                }
            }
            i = i + 1;
        }
        Ok(out)
    }
}

/// Whether an entry has the path, release and pre-release identifier given.
pub open spec fn entry_is(e: PackageEntry, path: Seq<char>, release: Release, pre: Option<Seq<char>>) -> bool {
    &&& e.path@ == path
    &&& e.release == release
    &&& crate::text::opt_view(e.pre_id) == pre
}

} // verus!
