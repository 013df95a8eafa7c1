//! Dependency resolution against the workspace graph, and the rewriting of
//! path dependencies whose directory is missing.

use vstd::prelude::*;

use crate::model::{views, Dependency, Metadata, Package, ResolveNode, Source};
use crate::types::{ResolvedDependency, ScanError, DEFAULT_REGISTRY};
use crate::version::{
    candidate_versions, first_satisfying, lemma_selected_version_satisfies, satisfies,
    select_version, version_candidates,
};

verus! {

/// The index of the first graph node at or after `from` whose identifier is `id`.
pub open spec fn node_index_from(nodes: Seq<ResolveNode>, id: Seq<char>, from: int) -> Option<int>
    decreases nodes.len() - from,
{
    if from < 0 || from >= nodes.len() {
        None
    } else if nodes[from].id@ == id {
        Some(from)
    } else {
        node_index_from(nodes, id, from + 1)
    }
}

/// The index of the graph node of the package with identifier `id`.
pub open spec fn node_index(nodes: Seq<ResolveNode>, id: Seq<char>) -> Option<int> {
    node_index_from(nodes, id, 0)
}

/// The version that `dep` resolves to among the identifiers `graph_deps` of
/// the declaring package's dependencies in the graph.
pub open spec fn resolved_version(dep: Dependency, graph_deps: Seq<String>) -> Option<Seq<char>> {
    first_satisfying(dep.req@, candidate_versions(views(graph_deps), dep.name@))
}

/// `deps` holds one entry per dependency that `package` declares, in order,
/// each resolved against the node's dependencies `graph_deps`.
pub open spec fn resolves_all(
    deps: Seq<ResolvedDependency>,
    package: Package,
    graph_deps: Seq<String>,
) -> bool {
    &&& deps.len() == package.dependencies@.len()
    &&& forall|i: int|
        0 <= i < deps.len() ==> #[trigger] deps[i].describes(
            &package.dependencies@[i],
            resolved_version(package.dependencies@[i], graph_deps),
            Some(package.manifest_path@),
        )
}

/// What resolving the dependencies of `package` against `meta` gives.
pub open spec fn resolution(
    meta: Metadata,
    package: Package,
    r: Result<Vec<ResolvedDependency>, ScanError>,
) -> bool {
    match meta.resolve {
        None => r matches Err(ScanError::NoResolveGraph),
        Some(nodes) => match node_index(nodes@, package.id@) {
            None => match r {
                Err(ScanError::MissingRootNode(n)) => n@ == package.name@,
                _ => false,
            },
            Some(k) => match r {
                Ok(deps) => resolves_all(deps@, package, nodes@[k].dependencies@),
                _ => false,
            },
        },
    }
}

/// The position of the node with identifier `id` in the graph `nodes`.
pub fn find_root_node(nodes: &Vec<ResolveNode>, id: &String) -> (r: Option<usize>)
    ensures
        match r {
            Some(k) => node_index(nodes@, id@) == Some(k as int) && k < nodes@.len(),
            None => node_index(nodes@, id@) is None,
        },
{
    let n = nodes.len();
    let mut i: usize = 0;
    while i < n
        invariant
            n == nodes@.len(),
            i <= n,
            node_index(nodes@, id@) == node_index_from(nodes@, id@, i as int),
        decreases n - i,
    {
        if nodes[i].id == *id {
            return Some(i);
        }
        i = i + 1;
    }
    None
}

/// Resolves one declared dependency against the identifiers `graph_deps` of
/// the declaring package's dependencies in the graph.
pub fn resolve_dependency(dep: &Dependency, graph_deps: &Vec<String>, manifest_path: &String) -> (r:
    ResolvedDependency)
    ensures
        r.describes(dep, resolved_version(*dep, graph_deps@), Some(manifest_path@)),
{
    let candidates = version_candidates(graph_deps, &dep.name);
    let version = select_version(&dep.req, &candidates);
    ResolvedDependency::new(dep, version, Some(manifest_path.clone()))
}

/// Resolves each dependency that `package` declares against the graph of
/// `meta`: one entry per declaration, in order, without a version where the
/// graph holds none that satisfies the requirement.
pub fn resolve_dependencies(meta: &Metadata, package: &Package) -> (r: Result<
    Vec<ResolvedDependency>,
    ScanError,
>)
    ensures
        resolution(*meta, *package, r),
{
    let nodes = match &meta.resolve {
        Some(nodes) => nodes,
        None => {
            return Err(ScanError::NoResolveGraph);
        },
    };
    let k = match find_root_node(nodes, &package.id) {
        Some(k) => k,
        None => {
            return Err(ScanError::MissingRootNode(package.name.clone()));
        },
    };
    let graph_deps = &nodes[k].dependencies;
    let mut deps: Vec<ResolvedDependency> = Vec::new();
    let n = package.dependencies.len();
    for i in 0..n
        invariant
            n == package.dependencies@.len(),
            deps@.len() == i,
            forall|j: int|
                0 <= j < i ==> #[trigger] deps@[j].describes(
                    &package.dependencies@[j],
                    resolved_version(package.dependencies@[j], graph_deps@),
                    Some(package.manifest_path@),
                ),
    {
        let d = resolve_dependency(&package.dependencies[i], graph_deps, &package.manifest_path);
        deps.push(d);
    }
    Ok(deps)
}

/// A resolved dependency either has no version or one that satisfies the
/// requirement of the dependency it was resolved from.
pub proof fn lemma_resolved_version_satisfies(
    r: ResolvedDependency,
    dep: Dependency,
    graph_deps: Seq<String>,
    manifest_path: Option<Seq<char>>,
)
    requires
        r.reports(&dep, resolved_version(dep, graph_deps), manifest_path),
    ensures
        match r.version {
            Some(v) => satisfies(dep.req@, v@),
            None => true,
        },
{
    lemma_selected_version_satisfies(dep.req@, candidate_versions(views(graph_deps), dep.name@));
}

/// `dep` points at a local directory that was not found on disk.
pub open spec fn is_missing_path(dep: Dependency) -> bool {
    dep.source matches Some(Source::Path { present: false, .. })
}

/// `r` is `dep` with a missing path replaced by the default registry, and
/// `dep` itself otherwise.
pub open spec fn normalizes(r: Dependency, dep: Dependency) -> bool {
    &&& r.agrees_with(&dep)
    &&& if is_missing_path(dep) {
        r.source matches Some(Source::Remote(s)) && s@ == DEFAULT_REGISTRY@
    } else {
        r.source == dep.source
    }
}

/// `dep`, pointed at the default registry where its local directory is missing.
pub fn normalize_dependency(dep: &Dependency) -> (r: Dependency)
    ensures
        normalizes(r, *dep),
{
    let mut r = dep.copy();
    if let Some(Source::Path { present: false, .. }) = &dep.source {
        r.source = Some(Source::Remote(String::from_str(DEFAULT_REGISTRY)));
    }
    r
}

/// `package` with each path dependency whose directory is missing pointed
/// at the default registry; every other dependency and field is kept.
pub fn override_path_dependencies(package: &Package) -> (r: Package)
    ensures
        r.id == package.id,
        r.name == package.name,
        r.manifest_path == package.manifest_path,
        r.license == package.license,
        r.repository == package.repository,
        r.dependencies@.len() == package.dependencies@.len(),
        forall|i: int|
            0 <= i < r.dependencies@.len() ==> normalizes(
                #[trigger] r.dependencies@[i],
                package.dependencies@[i],
            ),
{
    let mut deps: Vec<Dependency> = Vec::new();
    let n = package.dependencies.len();
    for i in 0..n
        invariant
            n == package.dependencies@.len(),
            deps@.len() == i,
            forall|j: int|
                0 <= j < i ==> normalizes(#[trigger] deps@[j], package.dependencies@[j]),
    {
        deps.push(normalize_dependency(&package.dependencies[i]));
    }
    Package {
        id: package.id.clone(),
        name: package.name.clone(),
        manifest_path: package.manifest_path.clone(),
        license: crate::model::copy_opt(&package.license),
        repository: crate::model::copy_opt(&package.repository),
        dependencies: deps,
    }
}

} // verus!
