use miho::error::Error;
use miho::package::manifest::package_json::PackageJson;
use miho::package::manifest::{Manifest, TauriConfJson};
use miho::package::{without_placeholder, Agent, Package, SearchBuilder};
use miho::version::{Release, Version};
use std::cmp::Ordering;

fn npm(name: &str, version: &str, pm: Option<&str>) -> Manifest {
    Manifest::PackageJson(PackageJson {
        name: name.to_string(),
        version: version.to_string(),
        package_manager: pm.map(str::to_string),
        dependencies: None,
        dev_dependencies: None,
        peer_dependencies: None,
    })
}

fn tauri(name: &str, version: &str) -> Manifest {
    Manifest::TauriConfJson(TauriConfJson { product_name: name.to_string(), version: version.to_string() })
}

fn pkg(path: &str, m: Manifest) -> Package {
    Package::new(path, m).unwrap()
}

#[test]
fn package_takes_name_and_version_from_its_manifest() {
    let p = pkg("/w/web/package.json", npm("web", "1.4.0", Some("yarn@4")));
    assert_eq!(p.name, "web");
    assert_eq!((p.version.major, p.version.minor, p.version.patch), (1, 4, 0));
    assert_eq!(p.path, "/w/web/package.json");
    assert_eq!(p.agent(), Agent::Yarn);
    assert_eq!(p.filename(), "package.json");
    assert_eq!(p.to_string(), "web (YARN)");
}

#[test]
fn package_refuses_bad_paths_and_versions() {
    assert!(matches!(Package::new("/w/web/other.json", npm("web", "1.0.0", None)), Err(Error::InvalidManifestPath { .. })));
    assert!(matches!(Package::new("/w/web/package.json", npm("web", "latest", None)), Err(Error::Semver { .. })));
}

#[test]
fn package_bump_applies_the_release() {
    let p = pkg("a/package.json", npm("a", "1.2.3", None));
    let next = p.bump(Release::Minor);
    assert_eq!((next.major, next.minor, next.patch), (1, 3, 0));
}

#[test]
fn packages_are_ordered_by_name_version_and_path() {
    let a1 = pkg("z/package.json", npm("a", "1.0.0", None));
    let a2 = pkg("y/package.json", npm("a", "2.0.0", None));
    let a2b = pkg("x/package.json", npm("a", "2.0.0", None));
    let b = pkg("a/package.json", npm("b", "0.1.0", None));
    assert_eq!(a1.cmp(&a2), Ordering::Less);
    assert_eq!(a2b.cmp(&a2), Ordering::Less);
    assert_eq!(b.cmp(&a1), Ordering::Greater);
    assert!(a2.same_as(&pkg("y/package.json", npm("zzz", "9.9.9", None))));
}

fn found() -> Vec<Package> {
    vec![
        pkg("/r/b/package.json", npm("beta", "1.0.0", Some("pnpm@8"))),
        pkg("/r/a/tauri.conf.json", tauri("alpha", "0.2.0")),
        pkg("/r/b/package.json", npm("beta-again", "1.0.0", None)),
        pkg("/r/c/package.json", npm("alpha", "0.1.0", None)),
    ]
}

#[test]
fn search_keeps_each_path_once_and_sorts() {
    let search = SearchBuilder::new(&["/r"]);
    let got = search.select(found()).unwrap();
    let names: Vec<(&str, &str)> = got.iter().map(|p| (p.name.as_str(), p.path.as_str())).collect();
    assert_eq!(
        names,
        [("alpha", "/r/c/package.json"), ("alpha", "/r/a/tauri.conf.json"), ("beta", "/r/b/package.json")]
    );
    assert_eq!(search.paths(), &vec!["/r".to_string()]);
}

#[test]
fn search_keeps_asked_names_and_agents() {
    let by_name = SearchBuilder::new(&["."]).package(&["beta", "gamma"]);
    let got = by_name.select(found()).unwrap();
    assert_eq!(got.len(), 1);
    assert_eq!(got[0].name, "beta");
    let by_agent = SearchBuilder::new(&["."]).agent(&["tauri", "Npm", "nothing", "TAURI"]);
    let got = by_agent.select(found()).unwrap();
    let names: Vec<&str> = got.iter().map(|p| p.name.as_str()).collect();
    assert_eq!(names, ["alpha", "alpha"]);
    let none = SearchBuilder::new(&["."]).agent(&["cargo"]);
    assert!(matches!(none.select(found()), Err(Error::NoPackageFound)));
    assert!(matches!(SearchBuilder::new(&["."]).select(Vec::new()), Err(Error::NoPackageFound)));
}

#[test]
fn agent_names_are_read_in_capitals() {
    assert_eq!(Agent::from_name("CARGO"), Some(Agent::Cargo));
    assert_eq!(Agent::from_name("cargo"), None);
    for agent in [Agent::Cargo, Agent::Npm, Agent::Pnpm, Agent::Tauri, Agent::Yarn] {
        assert_eq!(Agent::from_name(&agent.to_string()), Some(agent));
    }
    assert!(Agent::Pnpm.is_node() && Agent::Yarn.is_node() && Agent::Npm.is_node());
    assert!(!Agent::Cargo.is_node() && !Agent::Tauri.is_node());
}

#[test]
fn package_refuses_a_manifest_of_another_kind() {
    let result = Package::new("/w/core/Cargo.toml", npm("core", "1.0.0", None));
    assert!(matches!(result, Err(Error::InvalidManifestPath { path }) if path == "/w/core/Cargo.toml"));
    assert!(matches!(Package::new("/w/app/package.json", tauri("app", "1.0.0")), Err(Error::InvalidManifestPath { .. })));
}

#[test]
fn search_without_paths_finds_nothing() {
    let selected = SearchBuilder::new(&[]).package(&["alpha"]).agent(&["npm"]).select(found()).unwrap();
    assert!(selected.is_empty());
}

#[test]
fn packages_at_the_placeholder_version_are_left_alone() {
    let ps = vec![
        pkg("/r/a/package.json", npm("a", "0.0.0", None)),
        pkg("/r/b/package.json", npm("b", "1.0.0", None)),
        pkg("/r/c/package.json", npm("c", "0.0.0-rc", None)),
    ];
    let kept = without_placeholder(ps, &Version::new(0, 0, 0));
    let names: Vec<&str> = kept.iter().map(|p| p.name.as_str()).collect();
    assert_eq!(names, ["b", "c"]);
}
