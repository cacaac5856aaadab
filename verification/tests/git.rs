use miho::git::flag::Flag as CommandFlag;
use miho::git::{program, Add, Commit, Flag, Push, Status};

fn strings(args: &[String]) -> Vec<&str> {
    args.iter().map(String::as_str).collect()
}

#[test]
fn git_is_the_program() {
    assert_eq!(program(), "git");
}

#[test]
fn flags_are_written_as_on_the_command_line() {
    assert_eq!(Flag::All.to_string(), "--all");
    assert_eq!(Flag::Message.to_string(), "--message");
    assert_eq!(Flag::NoVerify.to_string(), "--no-verify");
    assert_eq!(CommandFlag::All.as_str(), "--all");
    assert_eq!(CommandFlag::Message.as_str(), "--message");
    assert_eq!(CommandFlag::NoVerify.as_str(), "--no-verify");
    assert_eq!(CommandFlag::Porcelain.to_string(), "--porcelain");
}

#[test]
fn add_names_the_pathspec() {
    let add = Add::new("src/*.rs");
    assert_eq!(strings(add.args()), vec!["add", "src/*.rs"]);
}

#[test]
fn commit_carries_its_message_and_flags_in_order() {
    let mut commit = Commit::new("chore: bump version");
    assert_eq!(strings(commit.args()), vec!["commit", "--message", "chore: bump version"]);
    commit.all();
    commit.bypass_hooks();
    assert_eq!(
        strings(commit.args()),
        vec!["commit", "--message", "chore: bump version", "--all", "--no-verify"]
    );
}

#[test]
fn push_and_status_arguments() {
    assert_eq!(strings(Push::new().args()), vec!["push"]);
    assert_eq!(strings(Push::default().args()), vec!["push"]);
    let mut status = Status::new();
    assert_eq!(strings(status.args()), vec!["status"]);
    status.porcelain();
    assert_eq!(strings(status.args()), vec!["status", "--porcelain"]);
    assert_eq!(strings(Status::default().args()), vec!["status"]);
}
