use miho::command::update::{keep_chosen, node_installer, PackageTree, UpdateOptions};
use miho::command::{commit_plan, Event, Flow, PromptResult, Step};
use miho::dependency::{DependencyKind, DependencyTree};
use miho::package::manifest::package_json::PackageJson;
use miho::package::manifest::Manifest;
use miho::package::{Agent, Package};

fn strings(args: &[String]) -> Vec<&str> {
    args.iter().map(String::as_str).collect()
}

#[test]
fn a_dry_run_stops_after_the_preview() {
    let flow = Flow { dry_run: true, no_ask: false, commits: true };
    assert_eq!(flow.next(Event::Found(true)), Step::Preview);
    assert_eq!(flow.next(Event::Previewed), Step::Finish);
}

#[test]
fn nothing_found_ends_the_command() {
    let flow = Flow { dry_run: false, no_ask: true, commits: true };
    assert_eq!(flow.next(Event::Found(false)), Step::Finish);
}

#[test]
fn asking_leads_to_the_prompt_and_its_answer_decides() {
    let flow = Flow { dry_run: false, no_ask: false, commits: true };
    assert_eq!(flow.next(Event::Previewed), Step::Prompt);
    assert_eq!(flow.next(Event::Answered(PromptResult::Continue)), Step::Apply);
    assert_eq!(flow.next(Event::Answered(PromptResult::Abort)), Step::Finish);
    assert_eq!(flow.next(Event::Applied), Step::Commit);
    assert_eq!(flow.next(Event::Committed), Step::Finish);
}

#[test]
fn without_asking_the_changes_are_applied_and_may_not_be_committed() {
    let flow = Flow { dry_run: false, no_ask: true, commits: false };
    assert_eq!(flow.next(Event::Previewed), Step::Apply);
    assert_eq!(flow.next(Event::Applied), Step::Finish);
}

#[test]
fn commit_plan_with_every_step() {
    let plan = commit_plan(Some("."), Some("  release v2 "), "chore: bump version", true, false);
    assert_eq!(strings(plan.add.as_ref().unwrap().args()), vec!["add", "."]);
    assert_eq!(
        strings(plan.commit.args()),
        vec!["commit", "--message", "release v2", "--all", "--no-verify"]
    );
    assert_eq!(strings(plan.push.as_ref().unwrap().args()), vec!["push"]);
}

#[test]
fn commit_plan_with_the_default_message_and_no_push() {
    let plan = commit_plan(None, None, "chore: bump dependencies", false, true);
    assert!(plan.add.is_none());
    assert_eq!(strings(plan.commit.args()), vec!["commit", "--message", "chore: bump dependencies", "--all"]);
    assert!(plan.push.is_none());
}

fn package(name: &str) -> Package {
    let manifest = Manifest::PackageJson(PackageJson {
        name: name.to_string(),
        version: "1.0.0".to_string(),
        package_manager: None,
        dependencies: None,
        dev_dependencies: None,
        peer_dependencies: None,
    });
    Package::new(&format!("/w/{name}/package.json"), manifest).unwrap()
}

fn tree(entries: &[(&str, DependencyKind)]) -> DependencyTree {
    let mut tree = DependencyTree::new(Agent::Npm);
    for (name, kind) in entries {
        tree.add_many(&vec![(name.to_string(), "^1.0.0".to_string())], *kind);
    }
    tree
}

fn names(tree: &DependencyTree) -> Vec<&str> {
    tree.dependencies.iter().map(|d| d.name.as_str()).collect()
}

#[test]
fn filter_tree_keeps_updatable_dependencies_in_order() {
    let options = UpdateOptions { skip_dependency: Some(vec!["vite".to_string()]), ..UpdateOptions::default() };
    let t = tree(&[
        ("vue", DependencyKind::Normal),
        ("vite", DependencyKind::Development),
        ("eslint", DependencyKind::Development),
        ("axios", DependencyKind::Normal),
        ("react", DependencyKind::Peer),
        ("lodash", DependencyKind::Normal),
    ]);
    let kept = options.filter_tree(package("web"), t, &vec![true, true, true, true, true, false]).unwrap();
    assert_eq!(kept.package.name, "web");
    assert_eq!(names(&kept.tree), vec!["axios", "vue", "eslint"]);
}

#[test]
fn filter_tree_drops_a_tree_with_nothing_left() {
    let options = UpdateOptions::default();
    let t = tree(&[("vue", DependencyKind::Normal)]);
    assert!(options.filter_tree(package("web"), t, &vec![false]).is_none());
}

#[test]
fn keep_chosen_drops_empty_trees_and_aborts_when_none_is_left() {
    let full = PackageTree { package: package("a"), tree: tree(&[("vue", DependencyKind::Normal)]) };
    let empty = PackageTree { package: package("b"), tree: tree(&[]) };
    let (kept, result) = keep_chosen(vec![empty, full]);
    assert_eq!(result, PromptResult::Continue);
    assert_eq!(kept.len(), 1);
    assert_eq!(kept[0].package.name, "a");

    let (kept, result) = keep_chosen(vec![PackageTree { package: package("c"), tree: tree(&[]) }]);
    assert!(kept.is_empty());
    assert_eq!(result, PromptResult::Abort);
}

#[test]
fn the_first_node_agent_installs() {
    assert_eq!(node_installer(&vec![Agent::Cargo, Agent::Pnpm, Agent::Npm]), Some(Agent::Pnpm));
    assert_eq!(node_installer(&vec![Agent::Cargo, Agent::Tauri]), None);
    assert_eq!(node_installer(&vec![]), None);
}

fn run(flow: Flow, answer: PromptResult, any: bool) -> Vec<Step> {
    let mut steps = Vec::new();
    let mut event = Event::Found(any);
    loop {
        let step = flow.next(event);
        steps.push(step);
        event = match step {
            Step::Preview => Event::Previewed,
            Step::Prompt => Event::Answered(answer),
            Step::Apply => Event::Applied,
            Step::Commit => Event::Committed,
            Step::Finish => return steps,
        };
    }
}

#[test]
fn every_run_ends_and_changes_only_when_allowed() {
    for dry_run in [false, true] {
        for no_ask in [false, true] {
            for commits in [false, true] {
                for answer in [PromptResult::Continue, PromptResult::Abort] {
                    for any in [false, true] {
                        let flow = Flow { dry_run, no_ask, commits };
                        let steps = run(flow, answer, any);
                        assert!(steps.len() <= 5);
                        assert_eq!(steps.last(), Some(&Step::Finish));
                        let applies = any && !dry_run && (no_ask || answer == PromptResult::Continue);
                        assert_eq!(steps.contains(&Step::Apply), applies);
                        assert_eq!(steps.contains(&Step::Commit), applies && commits);
                    }
                }
            }
        }
    }
    let asked = Flow { dry_run: false, no_ask: false, commits: true };
    assert_eq!(
        run(asked, PromptResult::Continue, true),
        vec![Step::Preview, Step::Prompt, Step::Apply, Step::Commit, Step::Finish]
    );
}
