//! The `package.json` manifest, as far as the name and version of its package.

use vstd::prelude::*;

verus! {

/// A `package.json` manifest: its name and version.
#[derive(Debug, Clone)]
pub struct PackageJson {
    pub name: String,
    pub version: String,
}

} // verus!
