use miho::error::Error;
use miho::glob::{is_match, resolve};
use miho::package::manifest::{Kind, ManifestType};
use miho::package::PackageType;
use miho::packages::{is_package, package_type_from_answers, parse_package_type};

#[test]
fn kind_is_read_from_the_file_name() {
    assert_eq!(Kind::try_from("/work/app/Cargo.toml").unwrap(), Kind::CargoToml);
    assert_eq!(Kind::try_from("web/package.json").unwrap(), Kind::PackageJson);
    assert_eq!(Kind::try_from("src-tauri/tauri.conf.json").unwrap(), Kind::TauriConfJson);
    assert_eq!(Kind::try_from("Cargo.toml").unwrap(), Kind::CargoToml);
}

#[test]
fn kind_refuses_other_files() {
    for path in ["/work/Cargo.lock", "package.json.bak", "docs/readme.md"] {
        match Kind::try_from(path) {
            Err(Error::InvalidManifestPath { path: p }) => assert_eq!(p, path),
            other => panic!("{path}: {other:?}"),
        }
    }
}

#[test]
fn kind_reads_the_first_matching_answer() {
    assert_eq!(Kind::from_answers(&[Some(false), Some(true), Some(true)], "x").unwrap(), Kind::PackageJson);
    assert_eq!(Kind::from_answers(&[Some(true), None, None], "x").unwrap(), Kind::CargoToml);
    assert!(matches!(Kind::from_answers(&[Some(false), None, Some(true)], "x"), Err(Error::InvalidGlob { .. })));
    assert!(matches!(
        Kind::from_answers(&[Some(false), Some(false), Some(false)], "x"),
        Err(Error::InvalidManifestPath { .. })
    ));
}

#[test]
fn manifest_type_and_package_type_agree_with_kind() {
    assert_eq!(ManifestType::try_from("a/b/tauri.conf.json").unwrap(), ManifestType::TauriConfJson);
    assert_eq!(PackageType::try_from("a/b/package.json").unwrap(), PackageType::PackageJson);
    assert!(ManifestType::try_from("a/b/c").is_err());
    assert_eq!(Kind::CargoToml.glob(), "**/Cargo.toml");
    assert_eq!(ManifestType::PackageJson.glob(), "**/package.json");
    assert_eq!(PackageType::TauriConfJson.glob(), "**/tauri.conf.json");
    assert_eq!(Kind::TauriConfJson.filename(), "tauri.conf.json");
}

#[test]
fn resolve_finds_the_first_match() {
    assert_eq!(resolve(&[]), Some(None));
    assert_eq!(resolve(&[Some(false), Some(true)]), Some(Some(1)));
    assert_eq!(resolve(&[None, Some(true)]), None);
    assert_eq!(resolve(&[Some(true), None]), Some(Some(0)));
}

#[test]
fn glob_matching_is_done_by_globset() {
    assert_eq!(is_match("**/Cargo.toml", "x/y/Cargo.toml"), Some(true));
    assert_eq!(is_match("**/Cargo.toml", "x/y/cargo.toml"), Some(false));
    assert_eq!(is_match("[", "x"), None);
}

#[test]
fn old_package_types_come_from_two_patterns() {
    assert_eq!(parse_package_type("a/Cargo.toml").unwrap(), miho::packages::PackageType::CargoToml);
    assert_eq!(parse_package_type("a/package.json").unwrap(), miho::packages::PackageType::PackageJson);
    match parse_package_type("a/tauri.conf.json") {
        Err(Error::InvalidManifestPath { path }) => assert_eq!(path, "a/tauri.conf.json"),
        other => panic!("{other:?}"),
    }
    assert!(is_package(miho::packages::PackageType::CargoToml, "Cargo.toml").unwrap());
    assert!(!is_package(miho::packages::PackageType::PackageJson, "Cargo.toml").unwrap());
    assert!(matches!(package_type_from_answers(None, Some(true), "p"), Err(Error::InvalidGlob { .. })));
    assert!(matches!(
        package_type_from_answers(Some(false), Some(true), "p"),
        Ok(miho::packages::PackageType::PackageJson)
    ));
}
