//! <https://git-scm.com/docs/git-add>

use crate::text::views;
use vstd::prelude::*;

verus! {

/// `git add <pathspec>`.
#[derive(Debug)]
pub struct Add {
    args: Vec<String>,
}

impl View for Add {
    type V = Seq<Seq<char>>;

    closed spec fn view(&self) -> Seq<Seq<char>> {
        views(self.args@)
    }
}

impl Add {
    /// Adds the files that `pathspec` matches to the index.
    pub fn new(pathspec: &str) -> (r: Add)
        ensures
            r@ == seq!["add"@, pathspec@],
    {
        let args = vec!["add".to_string(), pathspec.to_string()];
        assert(views(args@) =~= seq!["add"@, pathspec@]);
        Add { args }
    }

    /// The arguments handed to `git`.
    pub fn args(&self) -> (r: &Vec<String>)
        ensures
            views(r@) == self@,
    {
        &self.args
    }
}

} // verus!
