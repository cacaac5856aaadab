use miho::dependency::{
    add_to_cache, find_cached, parse_versions, CargoVersionEntry, Dependency, DependencyCache, DependencyKind,
    DependencyTree, NpmVersionEntry,
};
use miho::error::Error;
use miho::package::dependency::Kind;
use miho::package::Agent;
use miho::version::{Comparator, Version};
use std::cmp::Ordering;

fn versions(texts: &[&str]) -> Vec<Version> {
    texts.iter().map(|t| Version::parse(t).unwrap()).collect()
}

#[test]
fn dependency_kinds_are_ordered_by_rank() {
    let ordered = [
        DependencyKind::Normal,
        DependencyKind::Development,
        DependencyKind::Build,
        DependencyKind::Peer,
        DependencyKind::PackageManager,
    ];
    for (i, a) in ordered.iter().enumerate() {
        assert_eq!(a.precedence() as usize, i);
        for (j, b) in ordered.iter().enumerate() {
            assert_eq!(a.cmp(b), i.cmp(&j));
        }
    }
    assert!(DependencyKind::Peer.is_peer());
    assert!(!DependencyKind::Normal.is_peer());
}

#[test]
fn dependency_kinds_are_shown_in_kebab_case() {
    assert_eq!(DependencyKind::Build.to_string(), "build");
    assert_eq!(DependencyKind::Development.to_string(), "dev");
    assert_eq!(DependencyKind::Normal.to_string(), "");
    assert_eq!(DependencyKind::Peer.to_string(), "peer");
    assert_eq!(DependencyKind::PackageManager.to_string(), "package-manager");
}

#[test]
fn manifest_kinds_are_ordered_by_rank() {
    assert_eq!(Kind::Normal.cmp(&Kind::Development), Ordering::Less);
    assert_eq!(Kind::Peer.cmp(&Kind::Build), Ordering::Greater);
    assert_eq!(Kind::Build.cmp(&Kind::Build), Ordering::Equal);
    assert_eq!(Kind::Peer.precedence(), 3);
    assert_eq!(Kind::Development.to_string(), "dev");
    assert_eq!(Kind::Normal.to_string(), "");
}

#[test]
fn latest_is_the_last_of_the_greatest() {
    let mut dep = Dependency::new("serde".to_string(), Comparator::parse("^1").unwrap(), DependencyKind::Normal);
    assert!(dep.latest().is_none());
    dep.set_versions(versions(&["1.0.0", "1.2.0-rc.1", "1.1.0", "1.2.0", "0.9.0"]));
    let latest = dep.latest().unwrap();
    assert_eq!((latest.major, latest.minor, latest.patch), (1, 2, 0));
    assert!(latest.pre.is_empty());
    dep.set_versions(versions(&["2.0.0+a", "1.0.0", "2.0.0+b"]));
    assert_eq!(dep.latest().unwrap().build, "b");
}

#[test]
fn tree_skips_requirements_that_do_not_parse() {
    let mut tree = DependencyTree::new(Agent::Npm);
    let entries = vec![
        ("react".to_string(), "^18.2.0".to_string()),
        ("local".to_string(), "file:../local".to_string()),
        ("vite".to_string(), "~5.0".to_string()),
    ];
    tree.add_many(&entries, DependencyKind::Development);
    let names: Vec<&str> = tree.dependencies.iter().map(|d| d.name.as_str()).collect();
    assert_eq!(names, ["react", "vite"]);
    assert!(tree.dependencies.iter().all(|d| d.kind == DependencyKind::Development));
    assert!(tree.dependencies.iter().all(|d| d.versions().is_empty()));
    assert_eq!(tree.agent, Agent::Npm);
}

#[test]
fn tree_sorts_by_kind_then_name() {
    let mut tree = DependencyTree::new(Agent::Cargo);
    tree.add("zeta", Comparator::parse("1").unwrap(), DependencyKind::Normal);
    tree.add("alpha", Comparator::parse("1").unwrap(), DependencyKind::Build);
    tree.add("beta", Comparator::parse("1").unwrap(), DependencyKind::Normal);
    tree.add("gamma", Comparator::parse("1").unwrap(), DependencyKind::Development);
    tree.sort();
    let got: Vec<(&str, DependencyKind)> = tree.dependencies.iter().map(|d| (d.name.as_str(), d.kind)).collect();
    assert_eq!(
        got,
        [
            ("beta", DependencyKind::Normal),
            ("zeta", DependencyKind::Normal),
            ("gamma", DependencyKind::Development),
            ("alpha", DependencyKind::Build),
        ]
    );
    let a = &tree.dependencies[0];
    let b = &tree.dependencies[1];
    assert_eq!(a.cmp(b), Ordering::Less);
    assert!(a.same_as(a) && !a.same_as(b));
}

#[test]
fn cache_keeps_one_entry_per_name_and_agent() {
    let mut cache: Vec<DependencyCache> = Vec::new();
    add_to_cache(&mut cache, "serde", Agent::Cargo, &versions(&["1.0.0"]));
    add_to_cache(&mut cache, "serde", Agent::Cargo, &versions(&["2.0.0"]));
    add_to_cache(&mut cache, "serde", Agent::Npm, &versions(&["3.0.0"]));
    assert_eq!(cache.len(), 2);
    assert_eq!(find_cached(&cache, "serde", Agent::Cargo).unwrap().versions[0].major, 1);
    assert_eq!(find_cached(&cache, "serde", Agent::Npm).unwrap().versions[0].major, 3);
    assert!(find_cached(&cache, "tokio", Agent::Cargo).is_none());
}

#[test]
fn registry_entries_are_read_as_the_registry_marks_them() {
    let yanked = CargoVersionEntry { yanked: Some(true), num: Some("1.0.0".to_string()) };
    assert!(DependencyTree::parse_cargo_version(&yanked).is_none());
    let kept = CargoVersionEntry { yanked: Some(false), num: Some("1.0.1".to_string()) };
    assert_eq!(DependencyTree::parse_cargo_version(&kept).unwrap().patch, 1);
    let unmarked = CargoVersionEntry { yanked: None, num: Some("bad".to_string()) };
    assert!(DependencyTree::parse_cargo_version(&unmarked).is_none());
    let deprecated = NpmVersionEntry { deprecated: Some("use v2".to_string()), version: Some("1.0.0".to_string()) };
    assert!(DependencyTree::parse_npm_version(&deprecated).is_none());
    let blank = NpmVersionEntry { deprecated: Some(String::new()), version: Some("1.0.0".to_string()) };
    assert_eq!(DependencyTree::parse_npm_version(&blank).unwrap().major, 1);
    let missing = NpmVersionEntry { deprecated: None, version: None };
    assert!(DependencyTree::parse_npm_version(&missing).is_none());
}

#[test]
fn registry_url_depends_on_the_agent() {
    assert_eq!(
        DependencyTree::registry_url(Agent::Cargo, "serde").unwrap(),
        "https://crates.io/api/v1/crates/serde/versions"
    );
    assert_eq!(DependencyTree::registry_url(Agent::Pnpm, "vite").unwrap(), "https://registry.npmjs.org/vite");
    assert_eq!(DependencyTree::registry_url(Agent::Yarn, "vite").unwrap(), "https://registry.npmjs.org/vite");
    assert!(matches!(DependencyTree::registry_url(Agent::Tauri, "x"), Err(Error::NotPackageManager)));
}

fn texts(vs: &[Version]) -> Vec<String> {
    vs.iter().map(|v| format!("{}.{}.{}", v.major, v.minor, v.patch)).collect()
}

#[test]
fn version_lists_skip_what_does_not_parse() {
    let list: Vec<String> = ["1.0.0", "nope", "2.1.0", "3"].iter().map(|s| s.to_string()).collect();
    assert_eq!(texts(&parse_versions(&list)), vec!["1.0.0", "2.1.0"]);

    let cargo = vec![
        CargoVersionEntry { yanked: Some(false), num: Some("0.2.0".to_string()) },
        CargoVersionEntry { yanked: Some(true), num: Some("0.3.0".to_string()) },
        CargoVersionEntry { yanked: None, num: None },
        CargoVersionEntry { yanked: None, num: Some("0.4.0".to_string()) },
    ];
    assert_eq!(texts(&DependencyTree::parse_cargo_versions(&cargo)), vec!["0.2.0", "0.4.0"]);

    let npm = vec![
        NpmVersionEntry { deprecated: Some("use 2".to_string()), version: Some("1.0.0".to_string()) },
        NpmVersionEntry { deprecated: Some(String::new()), version: Some("1.1.0".to_string()) },
        NpmVersionEntry { deprecated: None, version: Some("2.0.0".to_string()) },
    ];
    assert_eq!(texts(&DependencyTree::parse_npm_versions(&npm)), vec!["1.1.0", "2.0.0"]);
}

#[test]
fn cached_dependencies_are_kept_and_the_others_handed_out() {
    let mut cache: Vec<DependencyCache> = Vec::new();
    add_to_cache(&mut cache, "serde", Agent::Cargo, &versions(&["1.0.0", "1.0.1"]));
    add_to_cache(&mut cache, "tokio", Agent::Npm, &versions(&["9.0.0"]));

    let mut tree = DependencyTree::new(Agent::Cargo);
    let entries = vec![
        ("tokio".to_string(), "1".to_string()),
        ("serde".to_string(), "1".to_string()),
        ("anyhow".to_string(), "1".to_string()),
    ];
    tree.add_many(&entries, DependencyKind::Normal);
    let to_fetch = tree.split_cached(&cache);

    let fetched: Vec<&str> = to_fetch.iter().map(|d| d.name.as_str()).collect();
    assert_eq!(fetched, vec!["tokio", "anyhow"]);
    assert_eq!(tree.dependencies.len(), 1);
    assert_eq!(tree.dependencies[0].name, "serde");
    assert_eq!(texts(tree.dependencies[0].versions()), vec!["1.0.0", "1.0.1"]);

    let mut to_fetch = to_fetch;
    to_fetch[1].set_versions(versions(&["1.0.80"]));
    tree.absorb(to_fetch);
    let names: Vec<&str> = tree.dependencies.iter().map(|d| d.name.as_str()).collect();
    assert_eq!(names, vec!["serde", "anyhow"]);
}

#[test]
fn latest_with_req_picks_the_greatest_that_meets_the_requirement() {
    let mut d = Dependency::new("serde".to_string(), Comparator::parse("^1.0").unwrap(), DependencyKind::Normal);
    d.set_versions(versions(&["1.0.0", "1.9.2", "2.0.0", "1.10.0-rc.1", "1.4.0", "0.9.0"]));
    let v = d.latest_with_req("^1.2").unwrap();
    assert_eq!((v.major, v.minor, v.patch), (1, 9, 2));
    let v = d.latest_with_req("*").unwrap();
    assert_eq!((v.major, v.minor, v.patch), (2, 0, 0));
    let v = d.latest_with_req("~1.4").unwrap();
    assert_eq!((v.major, v.minor, v.patch), (1, 4, 0));
    assert!(d.latest_with_req(">=3").is_none());
    assert!(d.latest_with_req("not a requirement").is_none());
}
