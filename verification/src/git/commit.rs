//! <https://git-scm.com/docs/git-commit>

use super::flag_text;
use super::Flag;
use crate::text::views;
use vstd::prelude::*;

verus! {

/// `git commit --message <message>`, with more flags.
#[derive(Debug)]
pub struct Commit {
    args: Vec<String>,
}

impl View for Commit {
    type V = Seq<Seq<char>>;

    closed spec fn view(&self) -> Seq<Seq<char>> {
        views(self.args@)
    }
}

impl Commit {
    /// Commits with `message`.
    pub fn new(message: &str) -> (r: Commit)
        ensures
            r@ == seq!["commit"@, flag_text(Flag::Message), message@],
    {
        let args = vec!["commit".to_string(), Flag::Message.to_string(), message.to_string()];
        assert(views(args@) =~= seq!["commit"@, flag_text(Flag::Message), message@]);
        Commit { args }
    }

    /// <https://git-scm.com/docs/git-commit#Documentation/git-commit.txt---all>
    pub fn all(&mut self)
        ensures
            final(self)@ == old(self)@.push(flag_text(Flag::All)),
    {
        self.args.push(Flag::All.to_string());
        assert(views(self.args@) =~= views(old(self).args@).push(flag_text(Flag::All)));
    }

    /// <https://git-scm.com/docs/git-commit#Documentation/git-commit.txt---no-verify>
    pub fn bypass_hooks(&mut self)
        ensures
            final(self)@ == old(self)@.push(flag_text(Flag::NoVerify)),
    {
        self.args.push(Flag::NoVerify.to_string());
        assert(views(self.args@) =~= views(old(self).args@).push(flag_text(Flag::NoVerify)));
    }

    /// The arguments handed to `git`.
    pub fn args(&self) -> (r: &Vec<String>)
        ensures
            views(r@) == self@,
    {
        &self.args
    }
}

} // verus!
