//! The records a scan produces: one source unit per package, with its
//! resolved dependencies and its metadata payload.

use vstd::prelude::*;

use crate::model::{copy_opt, copy_strings, opt_view, Dependency, DependencyKind, Source};

verus! {

/// The type tag of every unit this library builds.
pub const UNIT_TYPE: &'static str = "RustCargoPackage";

/// The registry locator used where a dependency names no source of its own.
pub const DEFAULT_REGISTRY: &'static str = "registry+https://github.com/rust-lang/crates.io-index";

/// The scheme that a local directory takes as a source locator.
pub const PATH_SCHEME: &'static str = "path+file://";

/// The source locator of a dependency: its remote locator, its directory
/// under the path scheme, or the default registry where it names none.
pub open spec fn locator(source: Option<Source>) -> Seq<char> {
    match source {
        Some(Source::Remote(s)) => s@,
        Some(Source::Path { dir, .. }) => PATH_SCHEME@ + dir@,
        None => DEFAULT_REGISTRY@,
    }
}

/// The name under which a dependency kind is reported.
pub open spec fn scope_name(kind: DependencyKind) -> Seq<char> {
    match kind {
        DependencyKind::Normal => "normal"@,
        DependencyKind::Development => "dev"@,
        DependencyKind::Build => "build"@,
    }
}

/// The source locator of a dependency, as a string.
pub fn source_locator(source: &Option<Source>) -> (r: String)
    ensures
        r@ == locator(*source),
{
    match source {
        Some(Source::Remote(s)) => s.clone(),
        Some(Source::Path { dir, .. }) => String::from_str(PATH_SCHEME).concat(dir.as_str()),
        None => String::from_str(DEFAULT_REGISTRY),
    }
}

/// The name under which a dependency kind is reported, as a string.
pub fn scope_of(kind: DependencyKind) -> (r: String)
    ensures
        r@ == scope_name(kind),
{
    match kind {
        DependencyKind::Normal => String::from_str("normal"),
        DependencyKind::Development => String::from_str("dev"),
        DependencyKind::Build => String::from_str("build"),
    }
}

/// A declared dependency together with the concrete version it resolved to.
#[derive(Debug)]
pub struct ResolvedDependency {
    pub name: String,
    /// The resolved version; `None` where the graph holds no version that
    /// satisfies the requirement.
    pub version: Option<String>,
    pub optional: bool,
    pub source: String,
    pub scope: Option<String>,
    pub default_features: bool,
    pub features: Vec<String>,
    /// The manifest the dependency was resolved against.
    pub cargo_toml_path: Option<String>,
    pub platform: Option<String>,
}

impl ResolvedDependency {
    /// This record reports `dep` with the given version and manifest path,
    /// every other field but the source copied from the declaration.
    pub open spec fn reports(
        &self,
        dep: &Dependency,
        version: Option<Seq<char>>,
        manifest_path: Option<Seq<char>>,
    ) -> bool {
        &&& self.name@ == dep.name@
        &&& opt_view(self.version) == version
        &&& self.optional == dep.optional
        &&& opt_view(self.scope) == Some(scope_name(dep.kind))
        &&& self.default_features == dep.uses_default_features
        &&& self.features@ == dep.features@
        &&& self.platform == dep.target
        &&& opt_view(self.cargo_toml_path) == manifest_path
    }

    /// This record reports `dep` with the given version and manifest path,
    /// every other field copied from the declaration.
    pub open spec fn describes(
        &self,
        dep: &Dependency,
        version: Option<Seq<char>>,
        manifest_path: Option<Seq<char>>,
    ) -> bool {
        &&& self.reports(dep, version, manifest_path)
        &&& self.source@ == locator(dep.source)
    }

    pub fn new(dependency: &Dependency, version: Option<String>, manifest_path: Option<String>) -> (r:
        ResolvedDependency)
        ensures
            r.describes(dependency, opt_view(version), opt_view(manifest_path)),
    {
        ResolvedDependency {
            name: dependency.name.clone(),
            version,
            optional: dependency.optional,
            source: source_locator(&dependency.source),
            scope: Some(scope_of(dependency.kind)),
            default_features: dependency.uses_default_features,
            features: copy_strings(&dependency.features),
            cargo_toml_path: manifest_path,
            platform: copy_opt(&dependency.target),
        }
    }
}

/// A package's license, as the payload of its unit.
#[derive(Debug)]
pub struct License {
    pub value: String,
}

impl From<String> for License {
    fn from(value: String) -> (r: License) {
        License { value }
    }
}

impl vstd::std_specs::convert::FromSpecImpl<String> for License {
    open spec fn obeys_from_spec() -> bool {
        true
    }

    open spec fn from_spec(value: String) -> License {
        License { value }
    }
}

/// The full payload of a unit: the provider's whole answer, as JSON text,
/// and the package's license.
#[derive(Debug)]
pub struct SourceUnitMetadata {
    pub export_info: Option<String>,
    pub license: Option<String>,
}

impl SourceUnitMetadata {
    pub fn new(exportinfo: Option<String>, license: Option<String>) -> (r: SourceUnitMetadata)
        ensures
            r.export_info == exportinfo,
            r.license == license,
    {
        SourceUnitMetadata { export_info: exportinfo, license }
    }
}

/// What a unit carries beside its files and dependencies.
#[derive(Debug)]
pub enum UnitData {
    License(License),
    Full(SourceUnitMetadata),
}

/// The record of one package.
#[derive(Debug)]
pub struct SourceUnit {
    pub name: String,
    pub unit_type: String,
    pub repo: Option<String>,
    /// The package's source files, relative to the scan root, in
    /// lexicographic order.
    pub files: Vec<String>,
    /// One entry per declared dependency, in declaration order.
    pub deps: Option<Vec<ResolvedDependency>>,
    pub data: Option<UnitData>,
}

impl SourceUnit {
    pub fn new(
        name: String,
        kind: String,
        repo: Option<String>,
        files: Vec<String>,
        dependencies: Option<Vec<ResolvedDependency>>,
        data: Option<UnitData>,
    ) -> (r: SourceUnit)
        ensures
            r.name == name,
            r.unit_type == kind,
            r.repo == repo,
            r.files == files,
            r.deps == dependencies,
            r.data == data,
    {
        SourceUnit { name, unit_type: kind, repo, files, deps: dependencies, data }
    }
}

/// Why a package could not be turned into a unit.
#[derive(Debug)]
pub enum ScanError {
    /// The provider's answer holds no resolved dependency graph.
    NoResolveGraph,
    /// The named package is missing from its own resolved graph.
    MissingRootNode(String),
    /// The package directory lies outside the scan root.
    OutsideRoot(String),
}

/// The options of a query to the metadata provider.
#[derive(Debug)]
pub struct OutputMetadataOptions {
    pub features: Vec<String>,
    pub no_default_features: bool,
    pub all_features: bool,
    /// Whether to skip resolving the dependency graph.
    pub no_deps: bool,
    pub version: u32,
}

/// The options of the one provider query a scan makes: default features
/// only, and the dependency graph resolved in full.
pub fn get_output_metadata_options() -> (r: OutputMetadataOptions)
    ensures
        r.features@.len() == 0,
        !r.no_default_features,
        !r.all_features,
        !r.no_deps,
        r.version == 1,
{
    OutputMetadataOptions {
        features: Vec::new(),
        no_default_features: false,
        all_features: false,
        no_deps: false,
        version: 1,
    }
}

/// The payload of a unit in full mode: the provider's answer, where the
/// query gave one, and the package's license.
pub fn get_metadata(export: Option<String>, license: Option<String>) -> (r: SourceUnitMetadata)
    ensures
        r.export_info == export,
        r.license == license,
{
    SourceUnitMetadata::new(export, license)
}

} // verus!
