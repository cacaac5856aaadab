use miho::bump::bump;
use miho::error::Error;
use miho::package::action::{Action, Bump, Update};
use miho::package::builder::{Builder, Update as UpdateBuilder};
use miho::package::manifest::package_json::PackageJson;
use miho::package::manifest::Manifest;
use miho::package::{Package, PackageParser, Transaction};
use miho::packages::{
    create_packages, is_package, package_type_from_answers, parse_package_type, ManifestEntry, PackageType,
};
use miho::version::{Release, Version};

fn npm_package(version: &str) -> Package {
    let manifest = Manifest::PackageJson(PackageJson {
        name: "web".to_string(),
        version: version.to_string(),
        package_manager: None,
        dependencies: None,
        dev_dependencies: None,
        peer_dependencies: None,
    });
    Package::new("/w/web/package.json", manifest).unwrap()
}

fn parts(v: &Version) -> (u64, u64, u64, &str, &str) {
    (v.major, v.minor, v.patch, v.pre.as_str(), v.build.as_str())
}

#[test]
fn bump_action_applies_release_pre_and_build() {
    let mut action = Bump::new(npm_package("1.2.3"), Release::Minor);
    action.pre("beta.1").unwrap();
    action.build("sha.5114f85").unwrap();
    let (package, version) = action.execute().unwrap();
    assert_eq!(package.name, "web");
    assert_eq!(parts(&version), (1, 3, 0, "beta.1", "sha.5114f85"));
}

#[test]
fn bump_action_without_marks() {
    let (_, version) = Bump::new(npm_package("1.2.3"), Release::Major).execute().unwrap();
    assert_eq!(parts(&version), (2, 0, 0, "", ""));
    let (_, version) = Bump::new(npm_package("1.2.3-alpha"), Release::Patch).execute().unwrap();
    assert_eq!(parts(&version), (1, 2, 4, "", ""));
}

#[test]
fn bump_action_refuses_bad_marks() {
    let mut action = Bump::new(npm_package("1.2.3"), Release::Patch);
    assert!(matches!(action.pre("01"), Err(Error::Semver { .. })));
    assert!(matches!(action.pre("a b"), Err(Error::Semver { .. })));
    assert!(matches!(action.build("a..b"), Err(Error::Semver { .. })));
    let (_, version) = action.execute().unwrap();
    assert_eq!(parts(&version), (1, 2, 4, "", ""));
}

#[test]
fn bump_action_reports_overflow() {
    let top = format!("1.{}.0", u64::MAX);
    let action = Bump::new(npm_package(&top), Release::Minor);
    assert!(matches!(action.execute(), Err(Error::VersionOverflow)));
    let (_, version) = Bump::new(npm_package(&top), Release::Major).execute().unwrap();
    assert_eq!(parts(&version), (2, 0, 0, "", ""));
}

#[test]
fn update_is_not_implemented() {
    assert!(matches!(Update::new().execute(), Err(Error::Unimplemented)));
    assert!(matches!(UpdateBuilder::new().execute(), Err(Error::Unimplemented)));
}

#[test]
fn parser_needs_a_release() {
    let parser = PackageParser::new(vec!["a/Cargo.toml".to_string()]);
    assert!(matches!(parser.parse(), Err(Error::ReleaseNotSpecified)));
}

#[test]
fn parser_gives_one_entry_per_path() {
    let mut parser = PackageParser::new(vec!["a/Cargo.toml".to_string(), "b/package.json".to_string()]);
    parser.release(Release::Patch);
    parser.pre_id("rc");
    let entries = parser.parse().unwrap();
    assert_eq!(entries.len(), 2);
    assert_eq!(entries[0].path, "a/Cargo.toml");
    assert_eq!(entries[1].path, "b/package.json");
    assert!(entries.iter().all(|e| e.release == Release::Patch && e.pre_id.as_deref() == Some("rc")));
}

#[test]
fn transaction_holds_its_packages() {
    let t = Transaction::new(vec![npm_package("0.1.0")]);
    assert_eq!(t.packages.len(), 1);
    assert_eq!(t.packages[0].name, "web");
}

fn entry(path: &str, version: &str) -> ManifestEntry {
    ManifestEntry { path: path.to_string(), name: "pkg".to_string(), version: version.to_string() }
}

#[test]
fn package_types_follow_the_manifest_name() {
    assert_eq!(is_package(PackageType::CargoToml, "crates/a/Cargo.toml").unwrap(), true);
    assert_eq!(is_package(PackageType::PackageJson, "crates/a/Cargo.toml").unwrap(), false);
    assert_eq!(parse_package_type("web/package.json").unwrap(), PackageType::PackageJson);
    assert!(matches!(parse_package_type("web/deno.json"), Err(Error::InvalidManifestPath { path }) if path == "web/deno.json"));
    assert_eq!(package_type_from_answers(Some(false), Some(true), "x").unwrap(), PackageType::PackageJson);
    assert!(matches!(package_type_from_answers(None, Some(true), "x"), Err(Error::InvalidGlob { .. })));
}

#[test]
fn packages_are_numbered_in_order() {
    let packages = create_packages(vec![entry("a/Cargo.toml", "0.1.0"), entry("b/package.json", "2.0.0-rc.1")]).unwrap();
    assert_eq!(packages.len(), 2);
    assert_eq!((packages[0].id, packages[0].package_type), (0, PackageType::CargoToml));
    assert_eq!((packages[1].id, packages[1].package_type), (1, PackageType::PackageJson));
    assert_eq!(parts(&packages[1].version), (2, 0, 0, "rc.1", ""));
}

#[test]
fn packages_fail_at_a_bad_entry() {
    assert!(matches!(create_packages(vec![entry("a/Cargo.toml", "x")]), Err(Error::Semver { .. })));
    assert!(matches!(create_packages(vec![entry("a/pom.xml", "1.0.0")]), Err(Error::InvalidManifestPath { .. })));
}

#[test]
fn bump_gives_each_version_in_order() {
    let packages = create_packages(vec![entry("a/Cargo.toml", "0.1.9"), entry("b/package.json", "3.4.5")]).unwrap();
    let versions = bump(&packages, Release::Patch, None).unwrap();
    assert_eq!(parts(&versions[0]), (0, 1, 10, "", ""));
    assert_eq!(parts(&versions[1]), (3, 4, 6, "", ""));
    let versions = bump(&packages, Release::Major, Some("alpha")).unwrap();
    assert_eq!(parts(&versions[0]), (1, 0, 0, "alpha", ""));
    assert_eq!(parts(&versions[1]), (4, 0, 0, "alpha", ""));
    assert!(matches!(bump(&packages, Release::Major, Some("01")), Err(Error::Semver { .. })));
}
