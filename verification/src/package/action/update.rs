//! Updating the dependencies of a package.

use super::Action;
use crate::error::Error;
use vstd::prelude::*;

verus! {

/// Updates the dependencies of a package; not implemented.
pub struct Update;

impl Action for Update {
    type Output = Result<(), Error>;

    /// Always fails with `Unimplemented`.
    fn execute(self) -> (r: Result<(), Error>)
        ensures
            r matches Err(Error::Unimplemented),
    {
        Err(Error::Unimplemented)
    }
}

impl Update {
    pub fn new() -> Self {
        Update
    }
}

} // verus!
