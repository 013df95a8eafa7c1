use srclib_rust::model::{Dependency, DependencyKind, Metadata, Package, ResolveNode, Source};
use srclib_rust::scan::{construct_source_unit, extract_self_packages, Batch, DataMode, ScanConfig};
use srclib_rust::types::{ScanError, SourceUnit, UnitData, DEFAULT_REGISTRY, UNIT_TYPE};

const FOO_ID: &str = "foo 0.1.0 (path+file:///ws/foo)";
const BAR_ID: &str = "bar 1.2.0 (registry+https://github.com/rust-lang/crates.io-index)";

fn dep(name: &str, req: &str, source: Option<Source>) -> Dependency {
    Dependency {
        name: name.to_string(),
        req: req.to_string(),
        kind: DependencyKind::Normal,
        optional: false,
        uses_default_features: true,
        features: vec![],
        target: None,
        source,
    }
}

fn package(name: &str, id: &str, manifest: &str, deps: Vec<Dependency>) -> Package {
    Package {
        id: id.to_string(),
        name: name.to_string(),
        manifest_path: manifest.to_string(),
        license: Some("MIT".to_string()),
        repository: Some("https://example.com/foo".to_string()),
        dependencies: deps,
    }
}

fn metadata(pkg_ids: &[&str], graph: Vec<(&str, Vec<&str>)>) -> Metadata {
    Metadata {
        packages: vec![],
        workspace_members: pkg_ids.iter().map(|s| s.to_string()).collect(),
        resolve: Some(
            graph
                .into_iter()
                .map(|(id, deps)| ResolveNode {
                    id: id.to_string(),
                    dependencies: deps.into_iter().map(|d| d.to_string()).collect(),
                })
                .collect(),
        ),
    }
}

fn config(root: &str) -> ScanConfig {
    ScanConfig { root: root.to_string(), repo: None, data_mode: DataMode::LicenseOnly }
}

fn strings(v: &[&str]) -> Vec<String> {
    v.iter().map(|s| s.to_string()).collect()
}

fn build(meta: &Metadata, pkg: &Package, root: &str, entries: &[&str]) -> Result<SourceUnit, ScanError> {
    construct_source_unit(meta, pkg, &config(root), &strings(entries), &None)
}

#[test]
fn scenario_single_package_without_dependencies() {
    let pkg = package("foo", FOO_ID, "/ws/foo/Cargo.toml", vec![]);
    let meta = metadata(&[FOO_ID], vec![(FOO_ID, vec![])]);
    let unit = build(&meta, &pkg, "/ws/foo", &["/ws/foo/src/lib.x"]).unwrap();
    assert_eq!(unit.name, "foo");
    assert_eq!(unit.unit_type, UNIT_TYPE);
    assert_eq!(unit.files, vec!["src/lib.x".to_string()]);
    let deps = unit.deps.expect("dependencies are present even when empty");
    assert!(deps.is_empty());
}

#[test]
fn scenario_dependency_resolves_to_graph_version() {
    let pkg = package("foo", FOO_ID, "/ws/foo/Cargo.toml", vec![dep("bar", "^1.0", None)]);
    let meta = metadata(&[FOO_ID], vec![(FOO_ID, vec![BAR_ID])]);
    let unit = build(&meta, &pkg, "/ws", &[]).unwrap();
    let deps = unit.deps.unwrap();
    assert_eq!(deps.len(), 1);
    assert_eq!(deps[0].name, "bar");
    assert_eq!(deps[0].version, Some("1.2.0".to_string()));
}

#[test]
fn scenario_dependency_missing_from_graph() {
    let mut bar = dep("bar", "^1.0", None);
    bar.optional = true;
    bar.features = strings(&["serde"]);
    bar.target = Some("cfg(unix)".to_string());
    let pkg = package("foo", FOO_ID, "/ws/foo/Cargo.toml", vec![bar]);
    let meta = metadata(&[FOO_ID], vec![(FOO_ID, vec![])]);
    let unit = build(&meta, &pkg, "/ws", &[]).unwrap();
    let deps = unit.deps.unwrap();
    assert_eq!(deps.len(), 1);
    let d = &deps[0];
    assert_eq!(d.name, "bar");
    assert_eq!(d.version, None);
    assert!(d.optional);
    assert_eq!(d.source, DEFAULT_REGISTRY);
    assert_eq!(d.scope, Some("normal".to_string()));
    assert!(d.default_features);
    assert_eq!(d.features, strings(&["serde"]));
    assert_eq!(d.platform, Some("cfg(unix)".to_string()));
    assert_eq!(d.cargo_toml_path, Some("/ws/foo/Cargo.toml".to_string()));
}

#[test]
fn scenario_missing_path_dependency_uses_registry() {
    let sibling = Source::Path { dir: "/ws/sibling".to_string(), present: false };
    let pkg = package("foo", FOO_ID, "/ws/foo/Cargo.toml", vec![dep("sibling", "^0.3", Some(sibling))]);
    let meta = metadata(&[FOO_ID], vec![(FOO_ID, vec![])]);
    let unit = build(&meta, &pkg, "/ws", &[]).unwrap();
    let deps = unit.deps.unwrap();
    assert_eq!(deps[0].source, DEFAULT_REGISTRY);
    assert_ne!(deps[0].source, "path+file:///ws/sibling");
}

#[test]
fn present_path_dependency_keeps_its_locator() {
    let sibling = Source::Path { dir: "/ws/sibling".to_string(), present: true };
    let pkg = package("foo", FOO_ID, "/ws/foo/Cargo.toml", vec![dep("sibling", "^0.3", Some(sibling))]);
    let meta = metadata(&[FOO_ID], vec![(FOO_ID, vec!["sibling 0.3.1 (path+file:///ws/sibling)"])]);
    let unit = build(&meta, &pkg, "/ws", &[]).unwrap();
    let deps = unit.deps.unwrap();
    assert_eq!(deps[0].source, "path+file:///ws/sibling");
    assert_eq!(deps[0].version, Some("0.3.1".to_string()));
}

#[test]
fn files_are_sorted_and_under_the_package_directory() {
    let pkg = package("foo", FOO_ID, "/ws/foo/Cargo.toml", vec![]);
    let meta = metadata(&[FOO_ID], vec![(FOO_ID, vec![])]);
    let entries = [
        "/ws/foo/src/main.rs",
        "/ws/other/src/lib.rs",
        "/ws/foo/build.rs",
        "/ws/foobar/src/lib.rs",
        "/ws/foo/src/a/mod.rs",
    ];
    let unit = build(&meta, &pkg, "/ws", &entries).unwrap();
    assert_eq!(unit.files, strings(&["foo/build.rs", "foo/src/a/mod.rs", "foo/src/main.rs"]));
}

#[test]
fn scanning_twice_gives_the_same_unit() {
    let pkg = package("foo", FOO_ID, "/ws/foo/Cargo.toml", vec![dep("bar", "^1.0", None)]);
    let meta = metadata(&[FOO_ID], vec![(FOO_ID, vec![BAR_ID])]);
    let first = build(&meta, &pkg, "/ws", &["/ws/foo/src/b.rs", "/ws/foo/src/a.rs"]).unwrap();
    let second = build(&meta, &pkg, "/ws", &["/ws/foo/src/a.rs", "/ws/foo/src/b.rs"]).unwrap();
    assert_eq!(format!("{:?}", first), format!("{:?}", second));
    assert_eq!(first.files, strings(&["foo/src/a.rs", "foo/src/b.rs"]));
}

#[test]
fn a_package_reached_twice_gets_one_unit() {
    let pkg = package("foo", FOO_ID, "/ws/foo/Cargo.toml", vec![]);
    let first_ws = metadata(&[FOO_ID], vec![(FOO_ID, vec![])]);
    let second_ws = metadata(&[FOO_ID], vec![(FOO_ID, vec![])]);
    let cfg = config("/ws");
    let mut batch = Batch::new();
    assert!(!batch.contains(&pkg.manifest_path));
    assert_eq!(batch.add_package(&first_ws, &pkg, &cfg, &vec![], &None).unwrap(), true);
    assert!(batch.contains(&pkg.manifest_path));
    assert_eq!(batch.add_package(&second_ws, &pkg, &cfg, &vec![], &None).unwrap(), false);
    let units = batch.into_units();
    assert_eq!(units.len(), 1);
    assert_eq!(units[0].name, "foo");
}

#[test]
fn a_failed_package_leaves_the_batch_unchanged() {
    let pkg = package("foo", FOO_ID, "/elsewhere/foo/Cargo.toml", vec![]);
    let meta = metadata(&[FOO_ID], vec![(FOO_ID, vec![])]);
    let mut batch = Batch::new();
    let r = batch.add_package(&meta, &pkg, &config("/ws"), &vec![], &None);
    assert!(matches!(r, Err(ScanError::OutsideRoot(_))));
    assert!(!batch.contains(&pkg.manifest_path));
    assert!(batch.into_units().is_empty());
}

#[test]
fn package_outside_the_root_is_refused() {
    let pkg = package("foo", FOO_ID, "/other/foo/Cargo.toml", vec![]);
    let meta = metadata(&[FOO_ID], vec![(FOO_ID, vec![])]);
    match build(&meta, &pkg, "/ws", &[]) {
        Err(ScanError::OutsideRoot(dir)) => assert_eq!(dir, "/other/foo"),
        other => panic!("unexpected result: {:?}", other),
    }
}

#[test]
fn metadata_without_a_graph_is_refused() {
    let pkg = package("foo", FOO_ID, "/ws/foo/Cargo.toml", vec![]);
    let mut meta = metadata(&[FOO_ID], vec![]);
    meta.resolve = None;
    assert!(matches!(build(&meta, &pkg, "/ws", &[]), Err(ScanError::NoResolveGraph)));
}

#[test]
fn package_missing_from_its_graph_is_refused() {
    let pkg = package("foo", FOO_ID, "/ws/foo/Cargo.toml", vec![]);
    let meta = metadata(&[FOO_ID], vec![(BAR_ID, vec![])]);
    match build(&meta, &pkg, "/ws", &[]) {
        Err(ScanError::MissingRootNode(name)) => assert_eq!(name, "foo"),
        other => panic!("unexpected result: {:?}", other),
    }
}

#[test]
fn repo_is_stamped_over_the_declared_one() {
    let pkg = package("foo", FOO_ID, "/ws/foo/Cargo.toml", vec![]);
    let meta = metadata(&[FOO_ID], vec![(FOO_ID, vec![])]);
    let stamped = ScanConfig {
        root: "/ws".to_string(),
        repo: Some("https://example.com/mono".to_string()),
        data_mode: DataMode::LicenseOnly,
    };
    let unit = construct_source_unit(&meta, &pkg, &stamped, &vec![], &None).unwrap();
    assert_eq!(unit.repo, Some("https://example.com/mono".to_string()));
    let plain = build(&meta, &pkg, "/ws", &[]).unwrap();
    assert_eq!(plain.repo, Some("https://example.com/foo".to_string()));
}

#[test]
fn license_payload_and_full_payload() {
    let pkg = package("foo", FOO_ID, "/ws/foo/Cargo.toml", vec![]);
    let meta = metadata(&[FOO_ID], vec![(FOO_ID, vec![])]);
    let unit = build(&meta, &pkg, "/ws", &[]).unwrap();
    match unit.data {
        Some(UnitData::License(l)) => assert_eq!(l.value, "MIT"),
        other => panic!("unexpected payload: {:?}", other),
    }
    let full = ScanConfig { root: "/ws".to_string(), repo: None, data_mode: DataMode::Full };
    let export = Some("{\"packages\":[]}".to_string());
    let unit = construct_source_unit(&meta, &pkg, &full, &vec![], &export).unwrap();
    match unit.data {
        Some(UnitData::Full(m)) => {
            assert_eq!(m.export_info, export);
            assert_eq!(m.license, Some("MIT".to_string()));
        }
        other => panic!("unexpected payload: {:?}", other),
    }
    let mut unlicensed = package("foo", FOO_ID, "/ws/foo/Cargo.toml", vec![]);
    unlicensed.license = None;
    assert!(build(&meta, &unlicensed, "/ws", &[]).unwrap().data.is_none());
}

#[test]
fn self_packages_are_the_workspace_members_in_order() {
    let meta = Metadata {
        packages: vec![
            package("a", "a 1.0.0", "/ws/a/Cargo.toml", vec![]),
            package("serde", "serde 1.0.0", "/reg/serde/Cargo.toml", vec![]),
            package("b", "b 1.0.0", "/ws/b/Cargo.toml", vec![]),
        ],
        workspace_members: strings(&["b 1.0.0", "a 1.0.0"]),
        resolve: None,
    };
    assert_eq!(extract_self_packages(&meta), vec![0, 2]);
}
