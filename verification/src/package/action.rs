//! Actions on a package.

pub mod bump;
pub mod update;

pub use bump::Bump;
pub use update::Update;

use vstd::prelude::*;

verus! {

/// Something done to a package.
pub trait Action {
    type Output;

    fn execute(self) -> Self::Output;
}

} // verus!
