//! Flags of git commands.

use vstd::prelude::*;

verus! {

/// A flag of a git command.
#[derive(Copy, Clone, Debug, PartialEq, Eq, Structural)]
pub enum Flag {
    All,
    Message,
    NoVerify,
    Porcelain,
}

/// How a flag is written on the command line.
pub open spec fn flag_text(flag: Flag) -> Seq<char> {
    match flag {
        Flag::All => "--all"@,
        Flag::Message => "--message"@,
        Flag::NoVerify => "--no-verify"@,
        Flag::Porcelain => "--porcelain"@,
    }
}

impl Flag {
    /// How the flag is written on the command line.
    pub fn as_str(self) -> (r: &'static str)
        ensures
            r@ == flag_text(self),
    {
        match self {
            Flag::All => "--all",
            Flag::Message => "--message",
            Flag::NoVerify => "--no-verify",
            Flag::Porcelain => "--porcelain",
        }
    }

    /// How the flag is written on the command line, as an owned string.
    pub fn to_string(self) -> (r: String)
        ensures
            r@ == flag_text(self),
    {
        self.as_str().to_string()
    }
}

} // verus!
