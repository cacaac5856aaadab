//! Updating dependencies; not implemented.

use super::Builder;
use crate::error::Error;
use vstd::prelude::*;

verus! {

/// Updates dependencies; not implemented.
pub struct Update;

impl Builder for Update {
    type Output = Result<(), Error>;

    /// Always fails with `Unimplemented`.
    fn execute(self) -> (r: Result<(), Error>)
        ensures
            r matches Err(Error::Unimplemented),
    {
        Err(Error::Unimplemented)
    }
}

impl Update {
    pub fn new() -> Self {
        Update
    }
}

} // verus!
