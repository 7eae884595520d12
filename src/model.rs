use vstd::prelude::*;

verus! {

/// A (group, artifact, version) triple naming a build artifact.
#[derive(Clone, Debug)]
pub struct Coordinate {
    pub group_id: Option<String>,
    pub artifact_id: String,
    pub version: Option<String>,
}

/// A coordinate as it appears in a descriptor, with what resolution and
/// reporting learn about it.
///
/// After resolution `version` is either a concrete version or `None`, which
/// marks the version as unresolved. `resolved_from` names the ancestor that
/// supplied the version, if it was not stated by the project itself.
#[derive(Clone, Debug)]
pub struct Artifact {
    pub group_id: Option<String>,
    pub artifact_id: String,
    pub version: Option<String>,
    pub latest_version: Option<String>,
    pub resolved_from: Option<Coordinate>,
}

/// One sub-project of a multi-module layout.
#[derive(Clone, Debug)]
pub struct Module {
    pub artifact: Artifact,
    pub dependencies: Vec<Artifact>,
    pub source: String,
}

/// A loaded project descriptor: the root project, or one of its ancestors.
#[derive(Clone, Debug)]
pub struct Pom {
    pub root: Artifact,
    pub parent: Option<Artifact>,
    pub modules: Vec<Module>,
    pub dependencies: Vec<Artifact>,
    pub source: String,
    pub skip_group: Option<String>,
}

/// The characters of an optional string.
pub open spec fn opt_view(o: Option<String>) -> Option<Seq<char>> {
    match o {
        Some(s) => Some(s@),
        None => None,
    }
}

/// The coordinate part of an artifact.
pub open spec fn coordinate_of(a: Artifact) -> Coordinate {
    Coordinate { group_id: a.group_id, artifact_id: a.artifact_id, version: a.version }
}

/// Copies an optional string.
pub fn copy_text(o: &Option<String>) -> (r: Option<String>)
    ensures
        r == *o,
{
    match o {
        Some(s) => Some(s.clone()),
        None => None,
    }
}

/// Copies a coordinate.
pub fn copy_coordinate(c: &Coordinate) -> (r: Coordinate)
    ensures
        r == *c,
{
    Coordinate {
        group_id: copy_text(&c.group_id),
        artifact_id: c.artifact_id.clone(),
        version: copy_text(&c.version),
    }
}

/// Copies an artifact with everything known of it.
pub fn copy_artifact(a: &Artifact) -> (r: Artifact)
    ensures
        r == *a,
{
    let resolved_from = match &a.resolved_from {
        Some(c) => Some(copy_coordinate(c)),
        None => None,
    };
    Artifact {
        group_id: copy_text(&a.group_id),
        artifact_id: a.artifact_id.clone(),
        version: copy_text(&a.version),
        latest_version: copy_text(&a.latest_version),
        resolved_from,
    }
}

impl Coordinate {
    /// The coordinate part of `a`.
    pub fn of(a: &Artifact) -> (r: Coordinate)
        ensures
            r == coordinate_of(*a),
    {
        Coordinate {
            group_id: copy_text(&a.group_id),
            artifact_id: a.artifact_id.clone(),
            version: copy_text(&a.version),
        }
    }
}

impl Artifact {
    /// An artifact known by its artifact id alone.
    pub fn new(artifact_id: &str) -> (r: Artifact)
        ensures
            r.group_id is None,
            r.artifact_id@ == artifact_id@,
            r.version is None,
            r.latest_version is None,
            r.resolved_from is None,
    {
        Artifact {
            group_id: None,
            artifact_id: String::from_str(artifact_id),
            version: None,
            latest_version: None,
            resolved_from: None,
        }
    }
}

} // verus!
