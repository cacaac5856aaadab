//! The git commands the library runs, as the arguments handed to `git`.

pub mod add;
pub mod commit;
pub mod flag;
pub mod push;
pub mod status;

pub use add::Add;
pub use commit::Commit;
pub use push::Push;
pub use status::Status;

use vstd::prelude::*;

verus! {

/// A flag of a git command.
#[derive(Copy, Clone, Debug, PartialEq, Eq, Structural)]
pub enum Flag {
    All,
    Message,
    NoVerify,
}

/// How a flag is written on the command line.
pub open spec fn flag_text(flag: Flag) -> Seq<char> {
    match flag {
        Flag::All => "--all"@,
        Flag::Message => "--message"@,
        Flag::NoVerify => "--no-verify"@,
    }
}

impl Flag {
    /// How the flag is written on the command line: `--all`, `--message`,
    /// `--no-verify`.
    pub fn to_string(&self) -> (r: String)
        ensures
            r@ == flag_text(*self),
    {
        match self {
            Flag::All => "--all".to_string(),
            Flag::Message => "--message".to_string(),
            Flag::NoVerify => "--no-verify".to_string(),
        }
    }
}

/// The program that runs every command of this module.
pub fn program() -> (r: &'static str)
    ensures
        r@ == "git"@,
{
    "git"
}

} // verus!
