//! A task: a line of words split into commands at each `&&`.

use crate::text::{clean_words, string_of, split_whitespace, views, words_of};
use vstd::prelude::*;

verus! {

/// The separator between two commands of a task.
pub open spec fn and_then() -> Seq<char> {
    seq!['&', '&']
}

/// The commands found so far in `words`, and the command being read at its end.
pub open spec fn task_state(words: Seq<Seq<char>>) -> (Seq<Seq<Seq<char>>>, Seq<Seq<char>>)
    decreases words.len(),
{
    if words.len() == 0 {
        (seq![], seq![])
    } else {
        let (commands, cur) = task_state(words.drop_last());
        let w = words.last();
        if w == and_then() {
            (if cur.len() > 0 { commands.push(cur) } else { commands }, seq![])
        } else {
            (commands, cur.push(w))
        }
    }
}

/// The commands of the task written as `text`: its words, grouped between the `&&`
/// separators, with empty groups dropped.
pub open spec fn task_commands(text: Seq<char>) -> Seq<Seq<Seq<char>>> {
    let (commands, cur) = task_state(words_of(text));
    if cur.len() > 0 {
        commands.push(cur)
    } else {
        commands
    }
}

/// The words of `commands`, one command after the other.
pub open spec fn flatten(commands: Seq<Seq<Seq<char>>>) -> Seq<Seq<char>>
    decreases commands.len(),
{
    if commands.len() == 0 {
        seq![]
    } else {
        flatten(commands.drop_last()) + commands.last()
    }
}

/// The words of `words` that are not the separator.
pub open spec fn non_separators(words: Seq<Seq<char>>) -> Seq<Seq<char>>
    decreases words.len(),
{
    if words.len() == 0 {
        seq![]
    } else if words.last() == and_then() {
        non_separators(words.drop_last())
    } else {
        non_separators(words.drop_last()).push(words.last())
    }
}

/// A task runs a list of commands, each a program followed by its arguments.
#[derive(Debug)]
pub struct Task {
    commands: Vec<Vec<String>>,
}

impl View for Task {
    type V = Seq<Seq<Seq<char>>>;

    closed spec fn view(&self) -> Seq<Seq<Seq<char>>> {
        self.commands@.map_values(|c: Vec<String>| views(c@))
    }
}

proof fn lemma_task_state(words: Seq<Seq<char>>)
    ensures
        ({
            let (commands, cur) = task_state(words);
            &&& flatten(commands) + cur == non_separators(words)
            &&& forall|i: int| 0 <= i < commands.len() ==> #[trigger] commands[i].len() > 0
        }),
    decreases words.len(),
{
    if words.len() > 0 {
        lemma_task_state(words.drop_last());
        let (commands, cur) = task_state(words.drop_last());
        if words.last() == and_then() {
            if cur.len() > 0 {
                assert(commands.push(cur).drop_last() == commands);
            }
            assert(flatten(commands) + cur == flatten(commands) + seq![] + cur);
        } else {
            assert(flatten(commands) + cur.push(words.last()) == (flatten(commands) + cur).push(
                words.last(),
            ));
        }
    }
}

/// Every command of a task has at least one word, no word of a command is the
/// separator `&&`, and the commands hold, in order, exactly the words of the text
/// that are not separators.
pub proof fn lemma_task_commands(text: Seq<char>)
    ensures
        forall|i: int|
            0 <= i < task_commands(text).len() ==> #[trigger] task_commands(text)[i].len() > 0,
        flatten(task_commands(text)) == non_separators(words_of(text)),
        clean_words(flatten(task_commands(text))),
{
    let words = words_of(text);
    lemma_task_state(words);
    let (commands, cur) = task_state(words);
    if cur.len() > 0 {
        assert(commands.push(cur).drop_last() == commands);
    } else {
        assert(flatten(commands) + cur == flatten(commands));
    }
    crate::text::lemma_words_clean(text);
    lemma_non_separators_clean(words);
}

proof fn lemma_non_separators_clean(words: Seq<Seq<char>>)
    requires
        clean_words(words),
    ensures
        clean_words(non_separators(words)),
        forall|i: int|
            0 <= i < non_separators(words).len() ==> #[trigger] non_separators(words)[i]
                != and_then(),
    decreases words.len(),
{
    if words.len() > 0 {
        assert(clean_words(words.drop_last())) by {
            assert forall|i: int| 0 <= i < words.drop_last().len() implies #[trigger] words.drop_last()[i].len() > 0
                && forall|j: int| 0 <= j < words.drop_last()[i].len() ==> !crate::text::is_white(
                #[trigger] words.drop_last()[i][j],
            ) by {
                assert(words.drop_last()[i] == words[i]);
            }
        }
        lemma_non_separators_clean(words.drop_last());
        let last = words.last();
        assert(last == words[words.len() - 1]);
    }
}

impl Task {
    /// Reads a task from a line of text: its whitespace-separated words, split into
    /// commands at each `&&`, empty commands dropped.
    pub fn new(task: &str) -> (r: Self)
        ensures
            r@ == task_commands(task@),
    {
        let words = split_whitespace(task);
        let sep = string_of(&['&', '&']);
        let mut commands: Vec<Vec<String>> = Vec::new();
        let mut command: Vec<String> = Vec::new();
        let mut i: usize = 0;
        while i < words.len()
            invariant
                i <= words.len(),
                views(words@) == words_of(task@),
                sep@ == and_then(),
                (commands@.map_values(|c: Vec<String>| views(c@)), views(command@)) == task_state(
                    views(words@).take(i as int),
                ),
            decreases words.len() - i,
        {
            let ghost ws = views(words@);
            assert(ws.take(i + 1).drop_last() == ws.take(i as int));
            assert(ws.take(i + 1).last() == words@[i as int]@);
            let word = words[i].clone();
            if word == sep {
                if command.len() > 0 {
                    let cmd = command;
                    commands.push(cmd);
                    assert(commands@.map_values(|c: Vec<String>| views(c@)) == commands@.drop_last().map_values(
                        |c: Vec<String>| views(c@),
                    ).push(views(cmd@)));
                }
                command = Vec::new();
                assert(views(command@) == Seq::<Seq<char>>::empty());
            } else {
                command.push(word);
                assert(views(command@) == views(command@.drop_last()).push(word@));
            }
            i = i + 1;
        }
        assert(views(words@).take(words.len() as int) == views(words@));
        if command.len() > 0 {
            let cmd = command;
            commands.push(cmd);
            assert(commands@.map_values(|c: Vec<String>| views(c@)) == commands@.drop_last().map_values(
                |c: Vec<String>| views(c@),
            ).push(views(cmd@)));
        }
        Task { commands }
    }

    /// The commands of the task, each a program followed by its arguments.
    pub fn commands(&self) -> (r: &Vec<Vec<String>>)
        ensures
            r@.map_values(|c: Vec<String>| views(c@)) == self@,
    {
        &self.commands
    }
}

} // verus!
