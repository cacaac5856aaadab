//! Builders of work on packages.

pub mod update;

pub use update::Update;

use vstd::prelude::*;

verus! {

/// Something that, once set up, is run once.
pub trait Builder {
    type Output;

    fn execute(self) -> Self::Output;
}

} // verus!
