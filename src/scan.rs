//! Assembling units: one per workspace package, each emitted once however
//! many workspaces reach it.

use vstd::prelude::*;

use crate::model::{copy_opt, opt_view, views, Dependency, Metadata, Package};
use crate::paths::{
    get_source_files, lemma_source_files_ignore_walk_order, package_dir, parent_dir, relative_to,
    source_files,
};
use crate::resolve::{
    is_missing_path, node_index, normalizes, override_path_dependencies, resolve_dependencies,
    resolution, resolved_version,
};
use crate::text::has_prefix;
use crate::types::{
    get_metadata, locator, PATH_SCHEME, License, ResolvedDependency, ScanError, SourceUnit, SourceUnitMetadata,
    UnitData, DEFAULT_REGISTRY, UNIT_TYPE,
};

verus! {

/// What a unit carries beside its files and dependencies.
#[derive(Clone, Copy, Debug, PartialEq, Eq, Structural)]
pub enum DataMode {
    /// The package's license alone, where it declares one.
    LicenseOnly,
    /// The provider's whole answer and the package's license.
    Full,
}

/// The settings of a scan.
#[derive(Debug)]
pub struct ScanConfig {
    /// The directory that file paths are given relative to.
    pub root: String,
    /// The repository URL to stamp onto every unit, in place of the one the
    /// package declares.
    pub repo: Option<String>,
    pub data_mode: DataMode,
}

/// The indices of the packages of `packages` whose identifier is among
/// `members`, in order.
pub open spec fn member_indices(packages: Seq<Package>, members: Seq<Seq<char>>) -> Seq<int>
    decreases packages.len(),
{
    if packages.len() == 0 {
        seq![]
    } else {
        let rest = member_indices(packages.drop_last(), members);
        if members.contains(packages.last().id@) {
            rest.push(packages.len() - 1)
        } else {
            rest
        }
    }
}

/// Whether `s` is one of `v`.
pub fn contains_string(v: &Vec<String>, s: &String) -> (r: bool)
    ensures
        r == views(v@).contains(s@),
{
    let n = v.len();
    for i in 0..n
        invariant
            n == v@.len(),
            forall|j: int| 0 <= j < i ==> views(v@)[j] != s@,
    {
        if v[i] == *s {
            assert(views(v@)[i as int] == s@);
            return true;
        }
    }
    false
}

/// The positions in `meta.packages` of the workspace's own packages, in order.
pub fn extract_self_packages(meta: &Metadata) -> (r: Vec<usize>)
    ensures
        r@.map_values(|i: usize| i as int) == member_indices(
            meta.packages@,
            views(meta.workspace_members@),
        ),
{
    let mut r: Vec<usize> = Vec::new();
    let n = meta.packages.len();
    for i in 0..n
        invariant
            n == meta.packages@.len(),
            r@.map_values(|i: usize| i as int) == member_indices(
                meta.packages@.subrange(0, i as int),
                views(meta.workspace_members@),
            ),
    {
        assert(meta.packages@.subrange(0, i + 1).drop_last() =~= meta.packages@.subrange(
            0,
            i as int,
        ));
        if contains_string(&meta.workspace_members, &meta.packages[i].id) {
            r.push(i);
        }
        assert(r@.map_values(|i: usize| i as int) =~= member_indices(
            meta.packages@.subrange(0, i + 1),
            views(meta.workspace_members@),
        ));
    }
    assert(meta.packages@.subrange(0, n as int) =~= meta.packages@);
    r
}

/// The source locator that the unit reports for `dep`: the default registry
/// where `dep` points at a missing directory, its own locator otherwise.
pub open spec fn unit_locator(dep: Dependency) -> Seq<char> {
    if is_missing_path(dep) {
        DEFAULT_REGISTRY@
    } else {
        locator(dep.source)
    }
}

/// `deps` reports each dependency that `package` declares, in order,
/// resolved against `graph_deps`, with missing local directories replaced
/// by the default registry.
pub open spec fn unit_dependencies(
    deps: Seq<ResolvedDependency>,
    package: Package,
    graph_deps: Seq<String>,
) -> bool {
    &&& deps.len() == package.dependencies@.len()
    &&& forall|i: int|
        0 <= i < deps.len() ==> {
            &&& #[trigger] deps[i].reports(
                &package.dependencies@[i],
                resolved_version(package.dependencies@[i], graph_deps),
                Some(package.manifest_path@),
            )
            &&& deps[i].source@ == unit_locator(package.dependencies@[i])
        }
}

/// Once the path dependencies of a package are normalized, a dependency
/// whose directory is missing is reported from the default registry, not a
/// path, and one whose directory is present keeps its path locator.
pub proof fn lemma_path_dependency_locator(
    dep: Dependency,
    normalized: Dependency,
    r: ResolvedDependency,
    version: Option<Seq<char>>,
    manifest_path: Option<Seq<char>>,
)
    requires
        normalizes(normalized, dep),
        r.describes(&normalized, version, manifest_path),
    ensures
        r.source@ == unit_locator(dep),
        is_missing_path(dep) ==> r.source@ == DEFAULT_REGISTRY@ && !has_prefix(
            r.source@,
            PATH_SCHEME@,
        ),
        match dep.source {
            Some(crate::model::Source::Path { dir, present: true }) => r.source@ == PATH_SCHEME@
                + dir@,
            _ => true,
        },
{
    reveal_strlit("registry+https://github.com/rust-lang/crates.io-index");
    reveal_strlit("path+file://");
    if is_missing_path(dep) {
        assert(r.source@[0] == 'r');
        assert(PATH_SCHEME@[0] == 'p');
        assert(r.source@.subrange(0, PATH_SCHEME@.len() as int)[0] == 'r');
    }
}

/// The payload that a unit of `package` carries in the given mode.
pub open spec fn unit_data(
    d: Option<UnitData>,
    package: Package,
    mode: DataMode,
    export: Option<String>,
) -> bool {
    match mode {
        DataMode::LicenseOnly => match package.license {
            Some(l) => d == Some(UnitData::License(License { value: l })),
            None => d is None,
        },
        DataMode::Full => d == Some(
            UnitData::Full(SourceUnitMetadata { export_info: export, license: package.license }),
        ),
    }
}

/// What assembling the unit of `package` gives: the package directory must
/// lie under the scan root, and the package must be in its own resolved
/// graph; the unit then holds the package's name, the stamped or declared
/// repository, its file list, one resolved entry per declared dependency,
/// and its payload.
pub open spec fn assembled(
    meta: Metadata,
    package: Package,
    config: ScanConfig,
    entries: Seq<String>,
    export: Option<String>,
    r: Result<SourceUnit, ScanError>,
) -> bool {
    let dir = parent_dir(package.manifest_path@);
    if relative_to(dir, config.root@) is None {
        match r {
            Err(ScanError::OutsideRoot(d)) => d@ == dir,
            _ => false,
        }
    } else {
        match meta.resolve {
            None => r matches Err(ScanError::NoResolveGraph),
            Some(nodes) => match node_index(nodes@, package.id@) {
                None => match r {
                    Err(ScanError::MissingRootNode(n)) => n@ == package.name@,
                    _ => false,
                },
                Some(k) => match r {
                    Ok(u) => {
                        &&& u.name == package.name
                        &&& u.unit_type@ == UNIT_TYPE@
                        &&& u.repo == (if config.repo is Some {
                            config.repo
                        } else {
                            package.repository
                        })
                        &&& views(u.files@) == source_files(views(entries), dir, config.root@)
                        &&& u.deps matches Some(deps) && unit_dependencies(
                            deps@,
                            package,
                            nodes@[k].dependencies@,
                        )
                        &&& unit_data(u.data, package, config.data_mode, export)
                    },
                    _ => false,
                },
            },
        }
    }
}

/// Two resolved dependencies report the same values.
pub open spec fn same_dependency(a: ResolvedDependency, b: ResolvedDependency) -> bool {
    &&& a.name@ == b.name@
    &&& opt_view(a.version) == opt_view(b.version)
    &&& a.optional == b.optional
    &&& a.source@ == b.source@
    &&& opt_view(a.scope) == opt_view(b.scope)
    &&& a.default_features == b.default_features
    &&& a.features@ == b.features@
    &&& opt_view(a.cargo_toml_path) == opt_view(b.cargo_toml_path)
    &&& a.platform == b.platform
}

/// Two results of assembling a unit report the same values.
pub open spec fn same_result(a: Result<SourceUnit, ScanError>, b: Result<SourceUnit, ScanError>) -> bool {
    match (a, b) {
        (Ok(u), Ok(v)) => {
            &&& u.name == v.name
            &&& u.unit_type@ == v.unit_type@
            &&& u.repo == v.repo
            &&& views(u.files@) == views(v.files@)
            &&& u.data == v.data
            &&& u.deps matches Some(du) && v.deps matches Some(dv) && du@.len() == dv@.len() && forall|
                i: int,
            | 0 <= i < du@.len() ==> same_dependency(#[trigger] du@[i], dv@[i])
        },
        (Err(ScanError::NoResolveGraph), Err(ScanError::NoResolveGraph)) => true,
        (Err(ScanError::MissingRootNode(m)), Err(ScanError::MissingRootNode(n))) => m@ == n@,
        (Err(ScanError::OutsideRoot(m)), Err(ScanError::OutsideRoot(n))) => m@ == n@,
        _ => false,
    }
}

/// Scanning a package twice, from the same provider answer and the same
/// paths on disk, found in any order, reports the same unit or the same error.
pub proof fn lemma_scan_is_repeatable(
    meta: Metadata,
    package: Package,
    config: ScanConfig,
    first_walk: Seq<String>,
    second_walk: Seq<String>,
    export: Option<String>,
    first: Result<SourceUnit, ScanError>,
    second: Result<SourceUnit, ScanError>,
)
    requires
        views(first_walk).to_multiset() == views(second_walk).to_multiset(),
        assembled(meta, package, config, first_walk, export, first),
        assembled(meta, package, config, second_walk, export, second),
    ensures
        same_result(first, second),
{
    let dir = parent_dir(package.manifest_path@);
    lemma_source_files_ignore_walk_order(views(first_walk), views(second_walk), dir, config.root@);
    if let (Ok(u), Ok(v)) = (first, second) {
        let nodes = meta.resolve->Some_0@;
        let graph_deps = nodes[node_index(nodes, package.id@)->Some_0].dependencies@;
        let du = u.deps->Some_0@;
        let dv = v.deps->Some_0@;
        assert(unit_dependencies(du, package, graph_deps));
        assert(unit_dependencies(dv, package, graph_deps));
        assert forall|i: int| 0 <= i < du.len() implies same_dependency(#[trigger] du[i], dv[i]) by {
            assert(du[i].reports(
                &package.dependencies@[i],
                resolved_version(package.dependencies@[i], graph_deps),
                Some(package.manifest_path@),
            ));
            assert(dv[i].reports(
                &package.dependencies@[i],
                resolved_version(package.dependencies@[i], graph_deps),
                Some(package.manifest_path@),
            ));
        }
    }
}

proof fn lemma_normalized_resolution(
    meta: Metadata,
    package: Package,
    normalized: Package,
    r: Result<Vec<ResolvedDependency>, ScanError>,
)
    requires
        normalized.id == package.id,
        normalized.name == package.name,
        normalized.manifest_path == package.manifest_path,
        normalized.dependencies@.len() == package.dependencies@.len(),
        forall|i: int|
            0 <= i < normalized.dependencies@.len() ==> normalizes(
                #[trigger] normalized.dependencies@[i],
                package.dependencies@[i],
            ),
        resolution(meta, normalized, r),
        r is Ok,
        meta.resolve is Some,
        node_index(meta.resolve->Some_0@, package.id@) is Some,
    ensures
        unit_dependencies(
            r->Ok_0@,
            package,
            meta.resolve->Some_0@[node_index(meta.resolve->Some_0@, package.id@)->Some_0].dependencies@,
        ),
{
    let deps = r->Ok_0@;
    let graph_deps = meta.resolve->Some_0@[node_index(
        meta.resolve->Some_0@,
        package.id@,
    )->Some_0].dependencies@;
    assert forall|i: int| 0 <= i < deps.len() implies {
        &&& #[trigger] deps[i].reports(
            &package.dependencies@[i],
            resolved_version(package.dependencies@[i], graph_deps),
            Some(package.manifest_path@),
        )
        &&& deps[i].source@ == unit_locator(package.dependencies@[i])
    } by {
        assert(normalizes(normalized.dependencies@[i], package.dependencies@[i]));
        assert(deps[i].describes(
            &normalized.dependencies@[i],
            resolved_version(normalized.dependencies@[i], graph_deps),
            Some(normalized.manifest_path@),
        ));
    }
}

/// Builds the unit of `package`, one of the packages of `meta`, from the
/// paths that a walk of its directory found (`entries`) and, in full mode,
/// the provider's whole answer (`export`). Path dependencies whose directory
/// is missing are reported from the default registry.
pub fn construct_source_unit(
    meta: &Metadata,
    package: &Package,
    config: &ScanConfig,
    entries: &Vec<String>,
    export: &Option<String>,
) -> (r: Result<SourceUnit, ScanError>)
    ensures
        assembled(*meta, *package, *config, entries@, *export, r),
{
    let dir = package_dir(&package.manifest_path);
    let files = match get_source_files(&dir, &config.root, entries) {
        Ok(files) => files,
        Err(e) => {
            return Err(e);
        },
    };
    let normalized = override_path_dependencies(package);
    let rd = resolve_dependencies(meta, &normalized);
    let deps = match rd {
        Ok(deps) => deps,
        Err(e) => {
            return Err(e);
        },
    };
    proof {
        lemma_normalized_resolution(*meta, *package, normalized, rd);
    }
    let repo = match &config.repo {
        Some(url) => Some(url.clone()),
        None => copy_opt(&package.repository),
    };
    let data = match config.data_mode {
        DataMode::LicenseOnly => match &package.license {
            Some(l) => Some(UnitData::License(License::from(l.clone()))),
            None => None,
        },
        DataMode::Full => Some(
            UnitData::Full(get_metadata(copy_opt(export), copy_opt(&package.license))),
        ),
    };
    Ok(
        SourceUnit::new(
            package.name.clone(),
            String::from_str(UNIT_TYPE),
            repo,
            files,
            Some(deps),
            data,
        ),
    )
}

/// The units of a scan so far, with the manifest path of the package that
/// each unit came from.
pub struct Batch {
    visited: Vec<String>,
    units: Vec<SourceUnit>,
}

impl Batch {
    /// The manifest paths of the packages that have a unit, in order.
    pub closed spec fn paths(&self) -> Seq<Seq<char>> {
        views(self.visited@)
    }

    /// The units built so far, in order.
    pub closed spec fn units(&self) -> Seq<SourceUnit> {
        self.units@
    }

    /// Each unit has one manifest path, and no manifest path has two units.
    pub open spec fn wf(&self) -> bool {
        &&& self.paths().len() == self.units().len()
        &&& self.paths().no_duplicates()
    }

    pub fn new() -> (r: Batch)
        ensures
            r.wf(),
            r.paths().len() == 0,
            r.units().len() == 0,
    {
        let r = Batch { visited: Vec::new(), units: Vec::new() };
        assert(r.paths() =~= Seq::<Seq<char>>::empty());
        r
    }

    /// Whether the package with this manifest already has a unit.
    pub fn contains(&self, manifest_path: &String) -> (r: bool)
        ensures
            r == self.paths().contains(manifest_path@),
    {
        contains_string(&self.visited, manifest_path)
    }

    /// Adds the unit of `package` unless its manifest already has one.
    /// Returns whether a unit was added; on an error nothing changes.
    pub fn add_package(
        &mut self,
        meta: &Metadata,
        package: &Package,
        config: &ScanConfig,
        entries: &Vec<String>,
        export: &Option<String>,
    ) -> (r: Result<bool, ScanError>)
        requires
            old(self).wf(),
        ensures
            final(self).wf(),
            old(self).paths().contains(package.manifest_path@) ==> r == Ok::<bool, ScanError>(false)
                && *final(self) == *old(self),
            !old(self).paths().contains(package.manifest_path@) ==> match r {
                Ok(added) => {
                    &&& added
                    &&& final(self).paths() == old(self).paths().push(package.manifest_path@)
                    &&& final(self).units().drop_last() == old(self).units()
                    &&& final(self).units().len() == old(self).units().len() + 1
                    &&& assembled(
                        *meta,
                        *package,
                        *config,
                        entries@,
                        *export,
                        Ok(final(self).units().last()),
                    )
                },
                Err(e) => {
                    &&& *final(self) == *old(self)
                    &&& assembled(*meta, *package, *config, entries@, *export, Err(e))
                },
            },
    {
        if self.contains(&package.manifest_path) {
            return Ok(false);
        }
        match construct_source_unit(meta, package, config, entries, export) {
            Ok(unit) => {
                let ghost old_paths = self.paths();
                let ghost old_units = self.units();
                self.visited.push(package.manifest_path.clone());
                self.units.push(unit);
                assert(self.paths() =~= old_paths.push(package.manifest_path@));
                assert(self.units().drop_last() =~= old_units);
                Ok(true)
            },
            Err(e) => Err(e),
        }
    }

    /// The units built, in the order their packages were added.
    pub fn into_units(self) -> (r: Vec<SourceUnit>)
        ensures
            r@ == self.units(),
    {
        self.units
    }
}

} // verus!
