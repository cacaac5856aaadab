use miho::command::stdio::MihoStdio;
use miho::command::update::UpdateOptions;
use miho::command::{asks_message, commit_message, Choice};
use miho::dependency::DependencyKind;

#[test]
fn choices_come_in_order_with_their_labels() {
    let labels: Vec<String> = Choice::iter().iter().map(|c| c.to_string()).collect();
    assert_eq!(labels, vec!["All", "Some", "None"]);
}

#[test]
fn stdio_settings_are_read_by_name() {
    assert_eq!(MihoStdio::from("null"), MihoStdio::Null);
    assert_eq!(MihoStdio::from("piped"), MihoStdio::Piped);
    assert_eq!(MihoStdio::from("inherit"), MihoStdio::Inherit);
    assert_eq!(MihoStdio::from("Null"), MihoStdio::Inherit);
    assert_eq!(MihoStdio::from(""), MihoStdio::Inherit);
}

#[test]
fn the_message_is_asked_only_when_needed() {
    assert!(asks_message(false, &None));
    assert!(!asks_message(true, &None));
    assert!(!asks_message(false, &Some("m".to_string())));
}

#[test]
fn commit_message_is_trimmed_or_defaults() {
    assert_eq!(commit_message(Some("  fix: typo \n"), "chore: bump"), "fix: typo");
    assert_eq!(commit_message(Some("   "), "chore: bump"), "chore: bump");
    assert_eq!(commit_message(Some(""), "chore: bump"), "chore: bump");
    assert_eq!(commit_message(None, "chore: bump"), "chore: bump");
}

#[test]
fn merge_keeps_what_is_set_and_takes_the_rest() {
    let mut mine = UpdateOptions {
        release: Some("minor".to_string()),
        dry_run: true,
        no_commit: true,
        path: Some(vec!["a".to_string()]),
        ..UpdateOptions::default()
    };
    let mut theirs = UpdateOptions {
        release: Some("major".to_string()),
        add: Some(".".to_string()),
        peer: true,
        no_commit: false,
        path: Some(vec!["b".to_string()]),
        ..UpdateOptions::default()
    };
    mine.merge(&mut theirs);
    assert_eq!(mine.release.as_deref(), Some("minor"));
    assert_eq!(theirs.release.as_deref(), Some("major"));
    assert_eq!(mine.add.as_deref(), Some("."));
    assert_eq!(theirs.add, None);
    assert!(mine.dry_run);
    assert!(mine.peer);
    assert!(mine.no_commit);
    assert_eq!(mine.path, Some(vec!["a".to_string()]));
    assert_eq!(theirs.path, Some(vec!["b".to_string()]));
}

#[test]
fn options_filter_dependencies() {
    let name = "serde".to_string();
    let all = UpdateOptions::default();
    assert!(all.lets_through(&name, DependencyKind::Normal));
    assert!(!all.lets_through(&name, DependencyKind::Peer));

    let peer = UpdateOptions { peer: true, ..UpdateOptions::default() };
    assert!(peer.lets_through(&name, DependencyKind::Peer));
    assert!(!peer.lets_through(&name, DependencyKind::Normal));

    let skip = UpdateOptions { skip_dependency: Some(vec!["serde".to_string()]), ..UpdateOptions::default() };
    assert!(!skip.lets_through(&name, DependencyKind::Normal));

    let only = UpdateOptions { dependency: Some(vec!["tokio".to_string()]), ..UpdateOptions::default() };
    assert!(!only.lets_through(&name, DependencyKind::Normal));
    assert!(only.lets_through(&"tokio".to_string(), DependencyKind::Normal));

    let empty = UpdateOptions { dependency: Some(vec![]), ..UpdateOptions::default() };
    assert!(empty.lets_through(&name, DependencyKind::Normal));
}
