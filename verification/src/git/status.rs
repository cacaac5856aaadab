//! <https://git-scm.com/docs/git-status>

use super::flag::{Flag, flag_text};
use crate::text::views;
use vstd::prelude::*;

verus! {

/// `git status`, with more flags.
#[derive(Debug)]
pub struct Status {
    args: Vec<String>,
}

impl View for Status {
    type V = Seq<Seq<char>>;

    closed spec fn view(&self) -> Seq<Seq<char>> {
        views(self.args@)
    }
}

impl Status {
    /// Shows the working tree status.
    pub fn new() -> (r: Status)
        ensures
            r@ == seq!["status"@],
    {
        let args = vec!["status".to_string()];
        assert(views(args@) =~= seq!["status"@]);
        Status { args }
    }

    /// <https://git-scm.com/docs/git-status#Documentation/git-status.txt---porcelainltversiongt>
    pub fn porcelain(&mut self)
        ensures
            final(self)@ == old(self)@.push(flag_text(Flag::Porcelain)),
    {
        self.args.push(Flag::Porcelain.to_string());
        assert(views(self.args@) =~= views(old(self).args@).push(flag_text(Flag::Porcelain)));
    }

    /// The arguments handed to `git`.
    pub fn args(&self) -> (r: &Vec<String>)
        ensures
            views(r@) == self@,
    {
        &self.args
    }
}

impl Default for Status {
    fn default() -> (r: Status)
        ensures
            r@ == seq!["status"@],
    {
        Status::new()
    }
}

} // verus!
