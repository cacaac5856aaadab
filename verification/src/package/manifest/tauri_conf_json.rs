//! The `tauri.conf.json` manifest.

use crate::package::Agent;
use vstd::prelude::*;

verus! {

/// A `tauri.conf.json` manifest, as far as the library reads it.
#[derive(Debug, Clone)]
pub struct TauriConfJson {
    pub product_name: String,
    pub version: String,
}

impl TauriConfJson {
    /// Tauri is responsible for the manifest.
    pub fn agent(&self) -> (r: Agent)
        ensures
            r == Agent::Tauri,
    {
        Agent::Tauri
    }

    /// The name of the package: its product name.
    pub fn name(&self) -> (r: &String)
        ensures
            r@ == self.product_name@,
    {
        &self.product_name
    }
}

} // verus!
