//! The options of the commands, and the choices they offer.

pub mod stdio;
pub mod update;

use crate::git::flag_text;
use crate::git::{Add, Commit, Flag, Push};
use vstd::prelude::*;

verus! {

/// What to do with several packages or dependencies: all of them, some of them
/// (shown as "Some"), or none (shown as "None").
#[derive(Copy, Clone, Debug, PartialEq, Eq, Structural)]
pub enum Choice {
    All,
    Partial,
    Nothing,
}

/// How a choice is shown.
pub open spec fn choice_label(c: Choice) -> Seq<char> {
    match c {
        Choice::All => "All"@,
        Choice::Partial => "Some"@,
        Choice::Nothing => "None"@,
    }
}

impl Choice {
    /// The choices, in the order they are offered.
    pub fn iter() -> (r: Vec<Choice>)
        ensures
            r@ == seq![Choice::All, Choice::Partial, Choice::Nothing],
    {
        vec![Choice::All, Choice::Partial, Choice::Nothing]
    }

    /// How the choice is shown: `All`, `Some` or `None`.
    pub fn to_string(&self) -> (r: String)
        ensures
            r@ == choice_label(*self),
    {
        match self {
            Choice::All => "All".to_string(),
            Choice::Partial => "Some".to_string(),
            Choice::Nothing => "None".to_string(),
        }
    }
}

/// The message of a commit: the one given, trimmed, where it is not blank; the
/// default otherwise.
pub open spec fn chosen_message(given: Option<Seq<char>>, default_message: Seq<char>) -> Seq<char> {
    match given {
        Some(m) => if crate::text::trimmed(m).len() > 0 {
            crate::text::trimmed(m)
        } else {
            default_message
        },
        None => default_message,
    }
}

/// The message chosen is the given one with the whitespace at both ends removed
/// (see `lemma_trimmed`), where anything is left of it; otherwise, and where none
/// is given, it is the default.
pub proof fn lemma_chosen_message(given: Option<Seq<char>>, default_message: Seq<char>)
    ensures
        given is None ==> chosen_message(given, default_message) == default_message,
        given matches Some(m) ==> (crate::text::trimmed(m).len() > 0 ==> chosen_message(
            given,
            default_message,
        ) == crate::text::trimmed(m)) && (crate::text::trimmed(m).len() == 0 ==> chosen_message(
            given,
            default_message,
        ) == default_message),
{
}

/// Whether the user is asked for the commit message: unless asked not to ask, or
/// a message was given.
pub fn asks_message(no_ask: bool, commit_message: &Option<String>) -> (b: bool)
    ensures
        b == (!no_ask && commit_message is None),
{
    !no_ask && commit_message.is_none()
}

/// The message of a commit: `given`, trimmed, where it is not blank; else
/// `default_message`.
pub fn commit_message(given: Option<&str>, default_message: &str) -> (r: String)
    ensures
        r@ == chosen_message(
            match given {
                Some(m) => Some(m@),
                None => None,
            },
            default_message@,
        ),
{
    match given {
        Some(m) => {
            let t = crate::text::trim(m);
            if t.as_str().is_empty() {
                default_message.to_string()
            } else {
                t
            }
        },
        None => default_message.to_string(),
    }
}

/// Whether to go on after a prompt.
#[derive(Copy, Clone, Debug, PartialEq, Eq, Structural)]
pub enum PromptResult {
    Continue,
    Abort,
}

/// What a command does next.
#[derive(Copy, Clone, Debug, PartialEq, Eq, Structural)]
pub enum Step {
    /// Show what would change.
    Preview,
    /// Change what was found or chosen.
    Apply,
    /// Ask which changes to make.
    Prompt,
    /// Commit the changes.
    Commit,
    /// Stop.
    Finish,
}

/// What the step before brought about.
#[derive(Copy, Clone, Debug, PartialEq, Eq, Structural)]
pub enum Event {
    /// The search ended; whether it found anything to change.
    Found(bool),
    /// The preview was shown.
    Previewed,
    /// The changes were made.
    Applied,
    /// The user answered the prompt.
    Answered(PromptResult),
    /// The commit was made.
    Committed,
}

/// How a command runs: whether it only previews, whether it asks before
/// changing, and whether it commits what it changed.
#[derive(Copy, Clone, Debug)]
pub struct Flow {
    pub dry_run: bool,
    pub no_ask: bool,
    pub commits: bool,
}

/// The step that follows `event` in a command that runs as `flow`.
pub open spec fn step_after(flow: Flow, event: Event) -> Step {
    match event {
        Event::Found(any) => if any {
            Step::Preview
        } else {
            Step::Finish
        },
        Event::Previewed => if flow.dry_run {
            Step::Finish
        } else if flow.no_ask {
            Step::Apply
        } else {
            Step::Prompt
        },
        Event::Answered(PromptResult::Continue) => Step::Apply,
        Event::Answered(PromptResult::Abort) => Step::Finish,
        Event::Applied => if flow.commits {
            Step::Commit
        } else {
            Step::Finish
        },
        Event::Committed => Step::Finish,
    }
}

impl Flow {
    /// The step that follows `event`: a search that found nothing, a dry run, an
    /// aborted prompt and a commit end the command; a preview leads to the changes
    /// (without asking) or to the prompt; the changes lead to a commit where the
    /// command commits.
    pub fn next(&self, event: Event) -> (r: Step)
        ensures
            r == step_after(*self, event),
    {
        match event {
            Event::Found(any) => if any {
                Step::Preview
            } else {
                Step::Finish
            },
            Event::Previewed => if self.dry_run {
                Step::Finish
            } else if self.no_ask {
                Step::Apply
            } else {
                Step::Prompt
            },
            Event::Answered(PromptResult::Continue) => Step::Apply,
            Event::Answered(PromptResult::Abort) => Step::Finish,
            Event::Applied => if self.commits {
                Step::Commit
            } else {
                Step::Finish
            },
            Event::Committed => Step::Finish,
        }
    }
}

/// The event that a step brings about, where the user answers prompts with
/// `answer`.
pub open spec fn event_after(step: Step, answer: PromptResult) -> Event {
    match step {
        Step::Preview => Event::Previewed,
        Step::Prompt => Event::Answered(answer),
        Step::Apply => Event::Applied,
        Step::Commit => Event::Committed,
        Step::Finish => Event::Committed,
    }
}

/// The steps a command takes from `event` on, at most `fuel` more after the
/// first, where the user answers prompts with `answer`; it ends at `Finish`.
pub open spec fn steps_from(flow: Flow, answer: PromptResult, event: Event, fuel: nat) -> Seq<Step>
    decreases fuel,
{
    let step = step_after(flow, event);
    if step == Step::Finish || fuel == 0 {
        seq![step]
    } else {
        seq![step] + steps_from(flow, answer, event_after(step, answer), (fuel - 1) as nat)
    }
}

/// The steps of a whole run: from the end of the search, which found something
/// to change where `any`.
pub open spec fn run_steps(flow: Flow, answer: PromptResult, any: bool) -> Seq<Step> {
    steps_from(flow, answer, Event::Found(any), 5)
}

/// Every run ends: it takes at most five steps, the last of them `Finish`. A run
/// that found nothing finishes at once; a dry run only previews. The changes are
/// made exactly when something was found, it is no dry run, and either no one is
/// asked or the answer is to go on; they are committed exactly when they are made
/// and the command commits.
pub proof fn lemma_runs(flow: Flow, answer: PromptResult, any: bool)
    ensures
        run_steps(flow, answer, any).len() <= 5,
        run_steps(flow, answer, any).last() == Step::Finish,
        !any ==> run_steps(flow, answer, any) == seq![Step::Finish],
        any && flow.dry_run ==> run_steps(flow, answer, any) == seq![Step::Preview, Step::Finish],
        run_steps(flow, answer, any).contains(Step::Apply) <==> (any && !flow.dry_run && (flow.no_ask
            || answer == PromptResult::Continue)),
        run_steps(flow, answer, any).contains(Step::Commit) <==> (run_steps(
            flow,
            answer,
            any,
        ).contains(Step::Apply) && flow.commits),
{
    reveal_with_fuel(steps_from, 6);
    let r = run_steps(flow, answer, any);
    if !any {
        assert(r =~= seq![Step::Finish]);
    } else if flow.dry_run {
        assert(r =~= seq![Step::Preview, Step::Finish]);
    } else if flow.no_ask {
        if flow.commits {
            assert(r =~= seq![Step::Preview, Step::Apply, Step::Commit, Step::Finish]);
            assert(r[1] == Step::Apply && r[2] == Step::Commit);
        } else {
            assert(r =~= seq![Step::Preview, Step::Apply, Step::Finish]);
            assert(r[1] == Step::Apply);
            assert(!r.contains(Step::Commit));
        }
    } else if answer == PromptResult::Continue {
        if flow.commits {
            assert(r =~= seq![Step::Preview, Step::Prompt, Step::Apply, Step::Commit, Step::Finish]);
            assert(r[2] == Step::Apply && r[3] == Step::Commit);
        } else {
            assert(r =~= seq![Step::Preview, Step::Prompt, Step::Apply, Step::Finish]);
            assert(r[2] == Step::Apply);
            assert(!r.contains(Step::Commit));
        }
    } else {
        assert(r =~= seq![Step::Preview, Step::Prompt, Step::Finish]);
        assert(!r.contains(Step::Apply));
        assert(!r.contains(Step::Commit));
    }
}

/// The git commands that commit the changes: `git add` where a pathspec is given,
/// the commit of all tracked changes, and `git push` where the commit is pushed.
#[derive(Debug)]
pub struct CommitPlan {
    pub add: Option<Add>,
    pub commit: Commit,
    pub push: Option<Push>,
}

/// The arguments of the commit: the message, all tracked changes, and the flag
/// that bypasses the hooks where asked.
pub open spec fn commit_args(message: Seq<char>, bypass_hooks: bool) -> Seq<Seq<char>> {
    seq!["commit"@, flag_text(Flag::Message), message, flag_text(Flag::All)] + if bypass_hooks {
        seq![flag_text(Flag::NoVerify)]
    } else {
        seq![]
    }
}

/// The commands that commit the changes with the message chosen from `given` and
/// `default_message`, after adding the files that `add` matches, and push them
/// unless `no_push`.
pub fn commit_plan(
    add: Option<&str>,
    given: Option<&str>,
    default_message: &str,
    bypass_hooks: bool,
    no_push: bool,
) -> (r: CommitPlan)
    ensures
        match add {
            Some(p) => r.add matches Some(a) && a@ == seq!["add"@, p@],
            None => r.add is None,
        },
        r.commit@ == commit_args(
            chosen_message(
                match given {
                    Some(m) => Some(m@),
                    None => None,
                },
                default_message@,
            ),
            bypass_hooks,
        ),
        r.push is Some <==> !no_push,
        r.push matches Some(p) ==> p@ == seq!["push"@],
{
    let add = match add {
        Some(p) => Some(Add::new(p)),
        None => None,
    };
    let message = commit_message(given, default_message);
    let mut commit = Commit::new(message.as_str());
    commit.all();
    if bypass_hooks {
        commit.bypass_hooks();
    }
    let push = if no_push {
        None
    } else {
        Some(Push::new())
    };
    proof {
        let m = chosen_message(
            match given {
                Some(m) => Some(m@),
                None => None,
            },
            default_message@,
        );
        if bypass_hooks {
            assert(commit@ =~= commit_args(m, bypass_hooks));
        } else {
            assert(commit@ =~= commit_args(m, bypass_hooks));
        }
    }
    CommitPlan { add, commit, push }
}

} // verus!
