use miho::lua::task::Task;
use miho::text::{split_whitespace, trim};

fn commands(text: &str) -> Vec<Vec<String>> {
    Task::new(text).commands().clone()
}

#[test]
fn task_splits_commands_at_separators() {
    let got = commands("cargo build && cargo test --all");
    assert_eq!(got, vec![vec!["cargo", "build"], vec!["cargo", "test", "--all"]]);
}

#[test]
fn task_drops_empty_commands() {
    let got = commands("&& echo a && && echo b &&");
    assert_eq!(got, vec![vec!["echo", "a"], vec!["echo", "b"]]);
}

#[test]
fn task_of_blank_text_has_no_command() {
    assert!(commands("   \t\n ").is_empty());
    assert!(commands("").is_empty());
}

#[test]
fn task_words_never_hold_the_separator() {
    let got = commands("a&&b && c");
    assert_eq!(got, vec![vec!["a&&b"], vec!["c"]]);
    for command in &got {
        assert!(!command.is_empty());
        assert!(command.iter().all(|w| w != "&&"));
    }
}

#[test]
fn split_whitespace_agrees_with_std() {
    for text in ["  a  b\tc\n", "x", "", "\u{3000}wide\u{a0}space\u{2028}", "tab\u{b}vt"] {
        let ours = split_whitespace(text);
        let std: Vec<String> = text.split_whitespace().map(str::to_string).collect();
        assert_eq!(ours, std, "text {text:?}");
    }
}

#[test]
fn trim_agrees_with_std() {
    for text in ["  a b  ", "\t\n", "", "x", "\u{2003} y \u{205f}"] {
        assert_eq!(trim(text), text.trim());
    }
}
