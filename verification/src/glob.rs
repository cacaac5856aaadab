//! Matching paths against glob patterns, done by the `globset` crate.

use vstd::prelude::*;

verus! {

/// What `globset` answers when `path` is tested against `glob`: `None` where
/// `Glob::new` rejects the pattern or `GlobSetBuilder::build` cannot build a
/// matcher for it, else whether the built set matches.
pub uninterp spec fn glob_match(glob: Seq<char>, path: Seq<char>) -> Option<bool>;

/// The longest pattern, in characters, that is handed to `globset`. A character
/// takes at most four bytes, so such a pattern stays far below the number of
/// automaton states at which the `aho-corasick` matcher that `globset` builds
/// for literal prefixes and suffixes gives up by panicking.
pub const GLOB_LIMIT: usize = 0x1000_0000;

/// The answer for `path` and `glob`: `globset`'s, for a pattern within the limit;
/// `None` for a longer one, which is not compiled.
pub open spec fn glob_outcome(glob: Seq<char>, path: Seq<char>) -> Option<bool> {
    if glob.len() < GLOB_LIMIT {
        glob_match(glob, path)
    } else {
        None
    }
}

/// Parses `glob` with `globset::Glob::new`, builds a set of it alone with
/// `GlobSetBuilder::build`, which reports a regular expression too large to
/// compile as an error, and tests `path` with `GlobSet::is_match`. Claims that
/// the answer is what `glob_match` names for the pattern and the path. Patterns of
/// `GLOB_LIMIT` characters or more are left out: for them the literal matcher
/// that `build` makes could run out of state identifiers and panic.
#[verifier::external_body]
fn globset_is_match(glob: &str, path: &str) -> (r: Option<bool>)
    requires
        glob@.len() < GLOB_LIMIT,
    ensures
        r == glob_match(glob@, path@),
{
    let mut builder = globset::GlobSetBuilder::new();
    builder.add(globset::Glob::new(glob).ok()?);
    let set = builder.build().ok()?;
    Some(set.is_match(path))
}

/// Tests `path` against `glob`: `None` where the pattern does not compile or is
/// longer than `GLOB_LIMIT` characters.
pub fn is_match(glob: &str, path: &str) -> (r: Option<bool>)
    ensures
        r == glob_outcome(glob@, path@),
{
    let chars = crate::text::chars_of(glob);
    if chars.len() >= GLOB_LIMIT {
        return None;
    }
    globset_is_match(glob, path)
}

/// The patterns seen as character sequences.
pub open spec fn glob_views(globs: Seq<&str>) -> Seq<Seq<char>> {
    globs.map_values(|g: &str| g@)
}

/// The answers of the patterns, tried in order, for `path`.
pub open spec fn glob_answers(globs: Seq<Seq<char>>, path: Seq<char>) -> Seq<Option<bool>> {
    globs.map_values(|g: Seq<char>| glob_outcome(g, path))
}

/// Reads the answers of patterns tried in order: `Some(Some(i))` where the pattern
/// at `i` is the first to match, `Some(None)` where none matches, and `None` where a
/// pattern tried before the first match does not compile.
pub open spec fn first_answer(answers: Seq<Option<bool>>) -> Option<Option<int>>
    decreases answers.len(),
{
    if answers.len() == 0 {
        Some(None)
    } else {
        match answers[0] {
            None => None,
            Some(true) => Some(Some(0)),
            Some(false) => match first_answer(answers.drop_first()) {
                None => None,
                Some(None) => Some(None),
                Some(Some(i)) => Some(Some(i + 1)),
            },
        }
    }
}

proof fn lemma_first_answer_skip(answers: Seq<Option<bool>>, i: int)
    requires
        0 <= i <= answers.len(),
        forall|j: int| 0 <= j < i ==> #[trigger] answers[j] == Some(false),
    ensures
        first_answer(answers) == match first_answer(answers.skip(i)) {
            None => None,
            Some(None) => Some(None),
            Some(Some(j)) => Some(Some(j + i)),
        },
    decreases i,
{
    if i == 0 {
        assert(answers.skip(0) == answers);
        match first_answer(answers) {
            None => {},
            Some(None) => {},
            Some(Some(j)) => {},
        }
    } else {
        lemma_first_answer_skip(answers, i - 1);
        assert(answers.skip(i - 1).drop_first() == answers.skip(i));
        assert(answers.skip(i - 1)[0] == answers[i - 1]);
    }
}

proof fn lemma_first_answer_bound(answers: Seq<Option<bool>>)
    ensures
        first_answer(answers) matches Some(Some(i)) ==> 0 <= i < answers.len(),
    decreases answers.len(),
{
    if answers.len() > 0 {
        lemma_first_answer_bound(answers.drop_first());
    }
}

/// Patterns are tried in order: where one matches first, every pattern before it
/// compiled and did not match; where none matches, every pattern compiled and
/// none matched; a pattern that does not compile before the first match makes the
/// whole answer `None`.
pub proof fn lemma_first_answer(answers: Seq<Option<bool>>)
    ensures
        first_answer(answers) matches Some(Some(i)) ==> 0 <= i < answers.len() && answers[i] == Some(
            true,
        ) && forall|j: int| 0 <= j < i ==> #[trigger] answers[j] == Some(false),
        first_answer(answers) == Some(None::<int>) ==> forall|j: int|
            0 <= j < answers.len() ==> #[trigger] answers[j] == Some(false),
        first_answer(answers) is None ==> exists|i: int|
            0 <= i < answers.len() && #[trigger] answers[i] is None && forall|j: int|
                0 <= j < i ==> #[trigger] answers[j] == Some(false),
    decreases answers.len(),
{
    if answers.len() > 0 {
        let t = answers.drop_first();
        lemma_first_answer(t);
        assert forall|j: int| 0 <= j < t.len() implies #[trigger] t[j] == answers[j + 1] by {}
        match first_answer(t) {
            Some(Some(i)) => {
                if answers[0] == Some(false) {
                    assert(answers[i + 1] == t[i]);
                    assert forall|j: int| 0 <= j < i + 1 implies #[trigger] answers[j] == Some(false) by {
                        if j > 0 {
                            assert(answers[j] == t[j - 1]);
                        }
                    }
                }
            },
            Some(None) => {
                if answers[0] == Some(false) {
                    assert forall|j: int| 0 <= j < answers.len() implies #[trigger] answers[j] == Some(false) by {
                        if j > 0 {
                            assert(answers[j] == t[j - 1]);
                        }
                    }
                }
            },
            None => {
                if answers[0] == Some(false) {
                    let i = choose|i: int|
                        0 <= i < t.len() && #[trigger] t[i] is None && forall|j: int|
                            0 <= j < i ==> #[trigger] t[j] == Some(false);
                    assert(answers[i + 1] == t[i]);
                    assert forall|j: int| 0 <= j < i + 1 implies #[trigger] answers[j] == Some(false) by {
                        if j > 0 {
                            assert(answers[j] == t[j - 1]);
                        }
                    }
                }
            },
        }
    }
}

/// Reads the answers of patterns tried in order: the index of the first that
/// matches; none where none matches; `None` where one tried before it does not
/// compile.
pub fn resolve(answers: &[Option<bool>]) -> (r: Option<Option<usize>>)
    ensures
        first_answer(answers@) == match r {
            None => None,
            Some(None) => Some(None),
            Some(Some(i)) => Some(Some(i as int)),
        },
        r matches Some(Some(i)) ==> i < answers@.len(),
{
    proof {
        lemma_first_answer_bound(answers@);
    }
    let mut i: usize = 0;
    while i < answers.len()
        invariant
            i <= answers.len(),
            forall|j: int| 0 <= j < i ==> #[trigger] answers@[j] == Some(false),
        decreases answers.len() - i,
    {
        proof {
            lemma_first_answer_skip(answers@, i as int);
            assert(answers@.skip(i as int)[0] == answers@[i as int]);
        }
        match answers[i] {
            None => {
                return None;
            },
            Some(true) => {
                return Some(Some(i));
            },
            Some(false) => {},
        }
        i = i + 1;
    }
    proof {
        lemma_first_answer_skip(answers@, i as int);
        assert(answers@.skip(i as int).len() == 0);
    }
    Some(None)
}

/// Tests `path` against each pattern, in order.
pub fn answers(globs: &[&str], path: &str) -> (r: Vec<Option<bool>>)
    ensures
        r@ == glob_answers(glob_views(globs@), path@),
{
    let mut r: Vec<Option<bool>> = Vec::new();
    let mut i: usize = 0;
    while i < globs.len()
        invariant
            i <= globs.len(),
            r@ == glob_answers(glob_views(globs@), path@).take(i as int),
        decreases globs.len() - i,
    {
        r.push(is_match(globs[i], path));
        assert(glob_answers(glob_views(globs@), path@).take(i + 1) =~= glob_answers(
            glob_views(globs@),
            path@,
        ).take(i as int).push(glob_outcome(globs@[i as int]@, path@)));
        i = i + 1;
    }
    assert(glob_answers(glob_views(globs@), path@).take(globs.len() as int) =~= glob_answers(
        glob_views(globs@),
        path@,
    ));
    r
}

} // verus!
