use miho::dependency::DependencyKind;
use miho::error::Error;
use miho::package::manifest::cargo_toml::{
    parse_dependencies, parse_version, updated_value, CargoPackage, CargoToml, DependencyValue,
};
use miho::package::manifest::package_json::PackageJson;
use miho::package::manifest::{cargo_requirement_of, cargo_section_of, npm_section_of, Manifest, TauriConfJson};
use miho::package::Agent;

fn cargo(deps: Option<Vec<(String, DependencyValue)>>, dev: Option<Vec<(String, DependencyValue)>>) -> CargoToml {
    CargoToml {
        package: CargoPackage { name: "app".to_string(), version: "0.1.0".to_string() },
        dependencies: deps,
        dev_dependencies: dev,
        build_dependencies: Some(vec![("cc".to_string(), DependencyValue::Text("1".to_string()))]),
    }
}

fn json(pm: Option<&str>) -> PackageJson {
    PackageJson {
        name: "web".to_string(),
        version: "2.0.0-beta.1".to_string(),
        package_manager: pm.map(str::to_string),
        dependencies: Some(vec![("react".to_string(), "^18.0.0".to_string())]),
        dev_dependencies: None,
        peer_dependencies: Some(vec![("vue".to_string(), ">=3".to_string())]),
    }
}

#[test]
fn cargo_values_give_their_requirement() {
    assert_eq!(parse_version(&DependencyValue::Text("1.0".to_string())), Some("1.0".to_string()));
    assert_eq!(parse_version(&DependencyValue::TableWithVersion("0.3".to_string())), Some("0.3".to_string()));
    assert_eq!(parse_version(&DependencyValue::TableWithOtherVersion), None);
    let table = vec![
        ("a".to_string(), DependencyValue::Text("1".to_string())),
        ("b".to_string(), DependencyValue::TableWithOtherVersion),
        ("c".to_string(), DependencyValue::TableWithVersion("2".to_string())),
    ];
    assert_eq!(
        parse_dependencies(&table),
        vec![("a".to_string(), "1".to_string()), ("c".to_string(), "2".to_string())]
    );
}

#[test]
fn cargo_tree_lists_normal_then_dev_then_build() {
    let m = cargo(
        Some(vec![
            ("serde".to_string(), DependencyValue::TableWithVersion("1.0".to_string())),
            ("weird".to_string(), DependencyValue::Text("not a version".to_string())),
        ]),
        Some(vec![("insta".to_string(), DependencyValue::Text("^1.30".to_string()))]),
    );
    let tree = m.dependency_tree();
    assert_eq!(tree.agent, Agent::Cargo);
    let got: Vec<(&str, DependencyKind)> = tree.dependencies.iter().map(|d| (d.name.as_str(), d.kind)).collect();
    assert_eq!(
        got,
        [("serde", DependencyKind::Normal), ("insta", DependencyKind::Development), ("cc", DependencyKind::Build)]
    );
}

#[test]
fn package_json_agent_comes_from_the_package_manager() {
    assert_eq!(json(None).agent(), Agent::Npm);
    assert_eq!(json(Some("pnpm@9.1.0")).agent(), Agent::Pnpm);
    assert_eq!(json(Some("yarn@4.0.0")).agent(), Agent::Yarn);
    assert_eq!(json(Some("npm@10")).agent(), Agent::Npm);
    assert_eq!(json(Some("bun@1")).agent(), Agent::Npm);
    assert_eq!(Agent::from_package_manager(Some("pnp")), Agent::Npm);
}

#[test]
fn package_json_tree_lists_normal_then_dev_then_peer() {
    let tree = json(Some("pnpm@9")).dependency_tree();
    assert_eq!(tree.agent, Agent::Pnpm);
    let got: Vec<(&str, DependencyKind)> = tree.dependencies.iter().map(|d| (d.name.as_str(), d.kind)).collect();
    assert_eq!(got, [("react", DependencyKind::Normal), ("vue", DependencyKind::Peer)]);
}

#[test]
fn manifest_reports_name_version_agent_and_file() {
    let tauri = Manifest::TauriConfJson(TauriConfJson { product_name: "Desk".to_string(), version: "1.0.0".to_string() });
    assert_eq!(tauri.agent(), Agent::Tauri);
    assert_eq!(tauri.name(), "Desk");
    assert_eq!(tauri.filename(), "tauri.conf.json");
    assert!(tauri.dependency_tree().dependencies.is_empty());
    let web = Manifest::PackageJson(json(None));
    assert_eq!(web.version().unwrap().pre, "beta.1");
    assert_eq!(web.filename(), "package.json");
    let bad = Manifest::CargoToml(CargoToml {
        package: CargoPackage { name: "x".to_string(), version: "1.0".to_string() },
        dependencies: None,
        dev_dependencies: None,
        build_dependencies: None,
    });
    assert!(matches!(bad.version(), Err(Error::Semver { .. })));
    assert_eq!(bad.filename(), "Cargo.toml");
}

#[test]
fn update_sections_and_requirements() {
    assert_eq!(cargo_section_of(DependencyKind::Normal), Some("dependencies"));
    assert_eq!(cargo_section_of(DependencyKind::Development), Some("dev-dependencies"));
    assert_eq!(cargo_section_of(DependencyKind::Build), Some("build-dependencies"));
    assert_eq!(cargo_section_of(DependencyKind::Peer), None);
    assert_eq!(npm_section_of(DependencyKind::Development), Some("devDependencies"));
    assert_eq!(npm_section_of(DependencyKind::Peer), Some("peerDependencies"));
    assert_eq!(npm_section_of(DependencyKind::Build), None);
    assert_eq!(cargo_requirement_of("^1.2.3"), "1.2.3");
    assert_eq!(cargo_requirement_of("~1.2"), "~1.2");
    assert_eq!(cargo_requirement_of("^"), "");
    assert_eq!(cargo_requirement_of(""), "");
}

#[test]
fn cargo_entries_take_the_target_without_its_caret() {
    match updated_value(&DependencyValue::Text("1.0".to_string()), "^1.2.0") {
        DependencyValue::Text(s) => assert_eq!(s, "1.2.0"),
        other => panic!("unexpected {other:?}"),
    }
    match updated_value(&DependencyValue::TableWithOtherVersion, "~0.4") {
        DependencyValue::TableWithVersion(s) => assert_eq!(s, "~0.4"),
        other => panic!("unexpected {other:?}"),
    }
    match updated_value(&DependencyValue::TableWithVersion("1".to_string()), "=2.0.0") {
        DependencyValue::TableWithVersion(s) => assert_eq!(s, "=2.0.0"),
        other => panic!("unexpected {other:?}"),
    }
    assert!(matches!(updated_value(&DependencyValue::Other, "^3"), DependencyValue::Other));
}

#[test]
fn manifests_know_whether_their_tables_can_be_read() {
    let readable = cargo(Some(vec![("serde".to_string(), DependencyValue::Text("1".to_string()))]), None);
    assert!(readable.is_readable());
    assert!(Manifest::CargoToml(readable).is_readable());
    let pathed = cargo(None, Some(vec![("core".to_string(), DependencyValue::TableWithoutVersion)]));
    assert!(!pathed.is_readable());
    let odd = cargo(Some(vec![("x".to_string(), DependencyValue::Other)]), None);
    assert!(!Manifest::CargoToml(odd).is_readable());
}
