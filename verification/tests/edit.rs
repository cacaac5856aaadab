use miho::dependency::DependencyKind;
use miho::error::Error;
use miho::package::manifest::edit::{
    checked_update_cargo_manifest, checked_update_manifest, checked_with_version, update_cargo_manifest,
    update_package_json, with_version, Change,
};
use miho::package::manifest::Kind;

const CARGO: &str = r#"
[package]
name = "app"
version = "0.1.0"

[dependencies]
serde = "1.0"
tokio = { version = "1", features = ["full"] }

[dev-dependencies]
insta = "1"
"#;

fn change(name: &str, kind: DependencyKind, target: &str) -> Change {
    Change { name: name.to_string(), kind, target: target.to_string() }
}

#[test]
fn cargo_requirements_are_rewritten_without_the_caret() {
    let changes = vec![
        change("serde", DependencyKind::Normal, "^1.0.200"),
        change("tokio", DependencyKind::Normal, "^1.40.0"),
        change("insta", DependencyKind::Development, "~1.39"),
        change("react", DependencyKind::Peer, "^18"),
        change("absent", DependencyKind::Build, "^1"),
    ];
    let text = update_cargo_manifest(CARGO, &changes).unwrap();
    let doc: toml::Value = toml::from_str(&text).unwrap();
    assert_eq!(doc["dependencies"]["serde"].as_str(), Some("1.0.200"));
    assert_eq!(doc["dependencies"]["tokio"]["version"].as_str(), Some("1.40.0"));
    assert_eq!(doc["dependencies"]["tokio"]["features"][0].as_str(), Some("full"));
    assert_eq!(doc["dev-dependencies"]["insta"].as_str(), Some("~1.39"));
    assert_eq!(doc["package"]["version"].as_str(), Some("0.1.0"));
    assert!(doc.get("build-dependencies").is_none());
}

#[test]
fn cargo_tables_without_a_version_cannot_take_a_requirement() {
    let text = "[package]\nname = \"a\"\nversion = \"1.0.0\"\n\n[dependencies]\ncore = { path = \"../core\" }\n";
    let changes = vec![change("core", DependencyKind::Normal, "^2")];
    assert!(matches!(checked_update_cargo_manifest(text, &changes), Ok(None)));
    assert!(matches!(checked_update_cargo_manifest("not [ toml", &changes), Err(Error::InvalidManifest)));
}

#[test]
fn package_json_requirements_are_inserted() {
    let text = r#"{ "name": "web", "version": "1.0.0", "dependencies": { "vue": "^3.0.0" }, "peerDependencies": {} }"#;
    let changes = vec![
        change("vue", DependencyKind::Normal, "^3.4.0"),
        change("react", DependencyKind::Peer, "^18.0.0"),
        change("vite", DependencyKind::Development, "^5.0.0"),
        change("cc", DependencyKind::Build, "1"),
    ];
    let out = update_package_json(text, &changes).unwrap();
    let doc: serde_json::Value = serde_json::from_str(&out).unwrap();
    assert_eq!(doc["dependencies"]["vue"], "^3.4.0");
    assert_eq!(doc["peerDependencies"]["react"], "^18.0.0");
    assert!(doc.get("devDependencies").is_none());
    assert!(matches!(update_package_json("{", &changes), Err(Error::InvalidManifest)));
    assert!(matches!(checked_update_manifest(Kind::TauriConfJson, text, &changes), Err(Error::NotPackageManager)));
}

#[test]
fn versions_are_written_where_each_kind_keeps_them() {
    let cargo = with_version(CARGO, Kind::CargoToml, "0.2.0").unwrap();
    let doc: toml::Value = toml::from_str(&cargo).unwrap();
    assert_eq!(doc["package"]["version"].as_str(), Some("0.2.0"));
    assert_eq!(doc["dependencies"]["serde"].as_str(), Some("1.0"));

    let json = with_version(r#"{ "name": "web", "version": "1.0.0" }"#, Kind::PackageJson, "1.1.0").unwrap();
    let doc: serde_json::Value = serde_json::from_str(&json).unwrap();
    assert_eq!(doc["version"], "1.1.0");
    assert_eq!(doc["name"], "web");

    let tauri = with_version(r#"{ "productName": "app" }"#, Kind::TauriConfJson, "2.0.0").unwrap();
    let doc: serde_json::Value = serde_json::from_str(&tauri).unwrap();
    assert_eq!(doc["version"], "2.0.0");
}

#[test]
fn versions_need_a_place_in_the_document() {
    assert!(matches!(checked_with_version("[workspace]\nmembers = []\n", Kind::CargoToml, "1.0.0"), Ok(None)));
    assert!(matches!(checked_with_version("[1, 2]", Kind::PackageJson, "1.0.0"), Ok(None)));
    assert!(matches!(checked_with_version("= nope", Kind::CargoToml, "1.0.0"), Err(Error::InvalidManifest)));
}
