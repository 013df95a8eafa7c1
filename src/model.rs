//! The package data that a scan reads: packages as the metadata provider
//! describes them, their declared dependencies and the resolved graph.

use vstd::prelude::*;

verus! {

/// How a dependency is used by the package that declares it.
#[derive(Clone, Copy, Debug, PartialEq, Eq, Structural)]
pub enum DependencyKind {
    Normal,
    Development,
    Build,
}

/// Where a declared dependency comes from.
#[derive(Debug)]
pub enum Source {
    /// A registry or remote locator, written out in full
    /// (`registry+https://...`, `git+https://...`).
    Remote(String),
    /// A directory on the local filesystem, and whether that directory was
    /// found on disk when the package was read.
    Path { dir: String, present: bool },
}

/// A dependency as a manifest declares it.
#[derive(Debug)]
pub struct Dependency {
    pub name: String,
    /// The version requirement, in semver syntax (`^1.0`, `>=0.3, <0.5`).
    pub req: String,
    pub kind: DependencyKind,
    pub optional: bool,
    pub uses_default_features: bool,
    pub features: Vec<String>,
    /// The platform filter, if the dependency is specific to one.
    pub target: Option<String>,
    pub source: Option<Source>,
}

/// A package of the workspace, as the metadata provider reports it.
#[derive(Debug)]
pub struct Package {
    /// The package's identifier in the resolved graph.
    pub id: String,
    pub name: String,
    /// The absolute path of the package's manifest file.
    pub manifest_path: String,
    pub license: Option<String>,
    pub repository: Option<String>,
    pub dependencies: Vec<Dependency>,
}

/// A node of the resolved graph: one package and the identifiers of the
/// packages it depends on.
#[derive(Debug)]
pub struct ResolveNode {
    pub id: String,
    pub dependencies: Vec<String>,
}

/// What one query of the metadata provider returns.
#[derive(Debug)]
pub struct Metadata {
    pub packages: Vec<Package>,
    /// The identifiers of the workspace's own packages.
    pub workspace_members: Vec<String>,
    /// The resolved dependency graph, when it was asked for.
    pub resolve: Option<Vec<ResolveNode>>,
}

impl Source {
    pub fn copy(&self) -> (r: Source)
        ensures
            r == *self,
    {
        match self {
            Source::Remote(s) => Source::Remote(s.clone()),
            Source::Path { dir, present } => Source::Path { dir: dir.clone(), present: *present },
        }
    }
}

impl Dependency {
    /// `self` and `other` agree on every field but possibly the source.
    pub open spec fn agrees_with(&self, other: &Dependency) -> bool {
        &&& self.name == other.name
        &&& self.req == other.req
        &&& self.kind == other.kind
        &&& self.optional == other.optional
        &&& self.uses_default_features == other.uses_default_features
        &&& self.features@ == other.features@
        &&& self.target == other.target
    }

    pub fn copy(&self) -> (r: Dependency)
        ensures
            r.agrees_with(self),
            r.source == self.source,
    {
        Dependency {
            name: self.name.clone(),
            req: self.req.clone(),
            kind: self.kind,
            optional: self.optional,
            uses_default_features: self.uses_default_features,
            features: copy_strings(&self.features),
            target: copy_opt(&self.target),
            source: match &self.source {
                Some(s) => Some(s.copy()),
                None => None,
            },
        }
    }
}

/// The characters of an optional string.
pub open spec fn opt_view(o: Option<String>) -> Option<Seq<char>> {
    match o {
        Some(s) => Some(s@),
        None => None,
    }
}

/// The characters of each string of a sequence.
pub open spec fn views(v: Seq<String>) -> Seq<Seq<char>> {
    v.map_values(|s: String| s@)
}

/// A copy of an optional string.
pub fn copy_opt(o: &Option<String>) -> (r: Option<String>)
    ensures
        r == *o,
{
    match o {
        Some(s) => Some(s.clone()),
        None => None,
    }
}

/// A copy of a list of strings.
pub fn copy_strings(v: &Vec<String>) -> (r: Vec<String>)
    ensures
        r@ == v@,
{
    let mut r: Vec<String> = Vec::new();
    let n = v.len();
    for i in 0..n
        invariant
            n == v@.len(),
            r@ == v@.subrange(0, i as int),
    {
        r.push(v[i].clone());
    }
    assert(r@ =~= v@);
    r
}

} // verus!
