//! <https://git-scm.com/docs/git-push>

use crate::text::views;
use vstd::prelude::*;

verus! {

/// `git push`.
#[derive(Debug)]
pub struct Push {
    args: Vec<String>,
}

impl View for Push {
    type V = Seq<Seq<char>>;

    closed spec fn view(&self) -> Seq<Seq<char>> {
        views(self.args@)
    }
}

impl Push {
    /// Pushes the current branch.
    pub fn new() -> (r: Push)
        ensures
            r@ == seq!["push"@],
    {
        let args = vec!["push".to_string()];
        assert(views(args@) =~= seq!["push"@]);
        Push { args }
    }

    /// The arguments handed to `git`.
    pub fn args(&self) -> (r: &Vec<String>)
        ensures
            views(r@) == self@,
    {
        &self.args
    }
}

impl Default for Push {
    fn default() -> (r: Push)
        ensures
            r@ == seq!["push"@],
    {
        Push::new()
    }
}

} // verus!
