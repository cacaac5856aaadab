//! Where the standard streams of a child process go.

use vstd::prelude::*;

verus! {

/// Where a standard stream of a child process goes.
#[derive(Copy, Clone, Debug, PartialEq, Eq, Structural)]
pub enum MihoStdio {
    Null,
    Piped,
    Inherit,
}

impl MihoStdio {
    /// Reads a stream setting: `null`, `piped`, and anything else inherits.
    pub fn from(val: &str) -> (r: MihoStdio)
        ensures
            r == if val@ == "null"@ {
                MihoStdio::Null
            } else if val@ == "piped"@ {
                MihoStdio::Piped
            } else {
                MihoStdio::Inherit
            },
    {
        proof {
            reveal_strlit("null");
            reveal_strlit("piped");
            assert("null"@ =~= seq!['n', 'u', 'l', 'l']);
            assert("piped"@ =~= seq!['p', 'i', 'p', 'e', 'd']);
        }
        if crate::text::equals(val, &['n', 'u', 'l', 'l']) {
            MihoStdio::Null
        } else if crate::text::equals(val, &['p', 'i', 'p', 'e', 'd']) {
            MihoStdio::Piped
        } else {
            MihoStdio::Inherit
        }
    }
}

} // verus!
