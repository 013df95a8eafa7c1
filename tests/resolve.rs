use srclib_rust::model::{Dependency, DependencyKind, Metadata, Package, ResolveNode, Source};
use srclib_rust::resolve::{
    find_root_node, normalize_dependency, override_path_dependencies, resolve_dependencies,
    resolve_dependency,
};
use srclib_rust::types::{
    get_metadata, get_output_metadata_options, License, ResolvedDependency, ScanError,
    SourceUnit, SourceUnitMetadata, DEFAULT_REGISTRY,
};
use srclib_rust::text::starts_with;
use srclib_rust::version::{select_version, version_candidates};

fn strings(v: &[&str]) -> Vec<String> {
    v.iter().map(|s| s.to_string()).collect()
}

fn dep(name: &str, req: &str, kind: DependencyKind, source: Option<Source>) -> Dependency {
    Dependency {
        name: name.to_string(),
        req: req.to_string(),
        kind,
        optional: false,
        uses_default_features: false,
        features: strings(&["std", "derive"]),
        target: None,
        source,
    }
}

#[test]
fn version_is_read_from_graph_identifiers() {
    let ids = strings(&[
        "bar 1.2.0 (registry+https://github.com/rust-lang/crates.io-index)",
        "baz 0.4.11 (registry+https://github.com/rust-lang/crates.io-index)",
        "bar-derive 1.2.3 (registry+https://github.com/rust-lang/crates.io-index)",
        "bar",
    ]);
    let found = version_candidates(&ids, &"bar".to_string());
    assert_eq!(found, strings(&["1.2.0", "1.2.3"]));
}

#[test]
fn version_text_takes_whole_digit_runs() {
    let ids = strings(&["x 10.20.300-beta (path+file:///1.2)", "x v1.2 then 3.4.5"]);
    assert_eq!(version_candidates(&ids, &"x".to_string()), strings(&["10.20.300", "3.4.5"]));
}

#[test]
fn first_satisfying_version_is_selected() {
    let versions = strings(&["0.9.0", "1.4.2", "1.7.0"]);
    assert_eq!(select_version(&"^1.0".to_string(), &versions), Some("1.4.2".to_string()));
    assert_eq!(select_version(&">=1.5".to_string(), &versions), Some("1.7.0".to_string()));
    assert_eq!(select_version(&"^2".to_string(), &versions), None);
    assert_eq!(select_version(&"not a requirement".to_string(), &versions), None);
    assert_eq!(select_version(&"*".to_string(), &vec![]), None);
}

#[test]
fn resolved_version_satisfies_the_requirement() {
    let graph = strings(&[
        "rand 0.7.3 (registry+https://github.com/rust-lang/crates.io-index)",
        "rand 0.8.5 (registry+https://github.com/rust-lang/crates.io-index)",
    ]);
    let d = dep("rand", "^0.8", DependencyKind::Normal, None);
    let r = resolve_dependency(&d, &graph, &"/ws/Cargo.toml".to_string());
    assert_eq!(r.version, Some("0.8.5".to_string()));
    let old = dep("rand", "=0.6.0", DependencyKind::Normal, None);
    let r = resolve_dependency(&old, &graph, &"/ws/Cargo.toml".to_string());
    assert_eq!(r.version, None);
}

#[test]
fn scopes_are_named_by_kind() {
    let graph = vec![];
    let path = "/ws/Cargo.toml".to_string();
    let dev = resolve_dependency(&dep("a", "*", DependencyKind::Development, None), &graph, &path);
    let build = resolve_dependency(&dep("a", "*", DependencyKind::Build, None), &graph, &path);
    let normal = resolve_dependency(&dep("a", "*", DependencyKind::Normal, None), &graph, &path);
    assert_eq!(dev.scope, Some("dev".to_string()));
    assert_eq!(build.scope, Some("build".to_string()));
    assert_eq!(normal.scope, Some("normal".to_string()));
    assert!(!dev.default_features);
    assert_eq!(dev.features, strings(&["std", "derive"]));
}

#[test]
fn remote_sources_are_kept() {
    let git = Source::Remote("git+https://example.com/a.git".to_string());
    let r = ResolvedDependency::new(&dep("a", "*", DependencyKind::Normal, Some(git)), None, None);
    assert_eq!(r.source, "git+https://example.com/a.git");
    assert_eq!(r.cargo_toml_path, None);
    assert_eq!(r.version, None);
}

#[test]
fn missing_path_dependency_is_pointed_at_the_registry() {
    let missing = Source::Path { dir: "/gone".to_string(), present: false };
    let d = normalize_dependency(&dep("gone", "^1", DependencyKind::Build, Some(missing)));
    assert_eq!(d.name, "gone");
    assert_eq!(d.req, "^1");
    assert_eq!(d.kind, DependencyKind::Build);
    match d.source {
        Some(Source::Remote(s)) => assert_eq!(s, DEFAULT_REGISTRY),
        other => panic!("unexpected source: {:?}", other),
    }
}

#[test]
fn override_keeps_other_dependencies() {
    let package = Package {
        id: "foo 0.1.0".to_string(),
        name: "foo".to_string(),
        manifest_path: "/ws/foo/Cargo.toml".to_string(),
        license: None,
        repository: None,
        dependencies: vec![
            dep("here", "^1", DependencyKind::Normal, Some(Source::Path { dir: "/ws/here".to_string(), present: true })),
            dep("gone", "^1", DependencyKind::Normal, Some(Source::Path { dir: "/ws/gone".to_string(), present: false })),
            dep("reg", "^1", DependencyKind::Normal, None),
        ],
    };
    let out = override_path_dependencies(&package);
    assert_eq!(out.name, "foo");
    assert_eq!(out.dependencies.len(), 3);
    assert!(matches!(&out.dependencies[0].source, Some(Source::Path { dir, present: true }) if dir == "/ws/here"));
    assert!(matches!(&out.dependencies[1].source, Some(Source::Remote(s)) if s == DEFAULT_REGISTRY));
    assert!(out.dependencies[2].source.is_none());
}

#[test]
fn dependencies_are_resolved_in_declaration_order() {
    let package = Package {
        id: "foo 0.1.0".to_string(),
        name: "foo".to_string(),
        manifest_path: "/ws/foo/Cargo.toml".to_string(),
        license: None,
        repository: None,
        dependencies: vec![
            dep("log", "^0.4", DependencyKind::Normal, None),
            dep("nothere", "^1", DependencyKind::Normal, None),
            dep("cc", "^1", DependencyKind::Build, None),
        ],
    };
    let meta = Metadata {
        packages: vec![],
        workspace_members: strings(&["foo 0.1.0"]),
        resolve: Some(vec![
            ResolveNode { id: "cc 1.0.83".to_string(), dependencies: vec![] },
            ResolveNode {
                id: "foo 0.1.0".to_string(),
                dependencies: strings(&["cc 1.0.83", "log 0.4.20"]),
            },
        ]),
    };
    let deps = resolve_dependencies(&meta, &package).unwrap();
    let names: Vec<&str> = deps.iter().map(|d| d.name.as_str()).collect();
    assert_eq!(names, vec!["log", "nothere", "cc"]);
    assert_eq!(deps[0].version, Some("0.4.20".to_string()));
    assert_eq!(deps[1].version, None);
    assert_eq!(deps[2].version, Some("1.0.83".to_string()));
    let mut no_graph = meta;
    no_graph.resolve = None;
    assert!(matches!(resolve_dependencies(&no_graph, &package), Err(ScanError::NoResolveGraph)));
}

#[test]
fn root_node_is_found_by_identifier() {
    let nodes = vec![
        ResolveNode { id: "a".to_string(), dependencies: vec![] },
        ResolveNode { id: "b".to_string(), dependencies: vec![] },
    ];
    assert_eq!(find_root_node(&nodes, &"b".to_string()), Some(1));
    assert_eq!(find_root_node(&nodes, &"c".to_string()), None);
}

#[test]
fn prefixes_are_compared_by_character() {
    assert!(starts_with("serde_json 1.0.0", "serde"));
    assert!(starts_with("abc", ""));
    assert!(!starts_with("ser", "serde"));
    assert!(!starts_with("tokio 1.0.0", "serde"));
}

#[test]
fn provider_options_ask_for_the_full_graph() {
    let o = get_output_metadata_options();
    assert!(o.features.is_empty());
    assert!(!o.no_default_features);
    assert!(!o.all_features);
    assert!(!o.no_deps);
    assert_eq!(o.version, 1);
}

#[test]
fn metadata_payload_holds_its_parts() {
    let m = get_metadata(Some("{}".to_string()), Some("MIT".to_string()));
    assert_eq!(m.export_info, Some("{}".to_string()));
    assert_eq!(m.license, Some("MIT".to_string()));
    let n = SourceUnitMetadata::new(None, Some("Apache-2.0".to_string()));
    assert_eq!(n.export_info, None);
    assert_eq!(n.license, Some("Apache-2.0".to_string()));
    let l = License::from("MIT".to_string());
    assert_eq!(l.value, "MIT");
}

#[test]
fn unit_constructor_keeps_its_fields() {
    let u = SourceUnit::new(
        "foo".to_string(),
        "RustCargoPackage".to_string(),
        None,
        strings(&["src/lib.rs"]),
        Some(vec![]),
        None,
    );
    assert_eq!(u.name, "foo");
    assert_eq!(u.unit_type, "RustCargoPackage");
    assert_eq!(u.files, strings(&["src/lib.rs"]));
    assert!(u.deps.unwrap().is_empty());
}
