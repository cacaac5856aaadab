//! A batch of packages bumped together.

use crate::package::Package;
use crate::version::{Release, Version};
use vstd::prelude::*;

verus! {

/// How a package is bumped: the release, the pre-release identifier, and the
/// version that results.
#[derive(Debug)]
pub struct Operation {
    pub release_type: Release,
    pub pre_id: Option<String>,
    pub new_version: Version,
}

/// Packages bumped together.
#[derive(Debug)]
pub struct Transaction {
    pub packages: Vec<Package>,
}

impl Transaction {
    /// A transaction over `packages`.
    pub fn new(packages: Vec<Package>) -> (r: Transaction)
        ensures
            r.packages == packages,
    {
        Transaction { packages }
    }
}

} // verus!
