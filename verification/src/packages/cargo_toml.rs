//! The `Cargo.toml` manifest, as far as the name and version of its package.

pub use crate::package::manifest::cargo_toml::CargoPackage;
use vstd::prelude::*;

verus! {

/// A `Cargo.toml` manifest: its `[package]` table.
#[derive(Debug, Clone)]
pub struct CargoToml {
    pub package: CargoPackage,
}

} // verus!
