//! Resolution of placeholder versions against a chain of ancestors.

use crate::loader::property_value;
use crate::loader::find_property;
use crate::model::{coordinate_of, copy_text, opt_view, Artifact, Coordinate, Module, Pom};
use crate::text::{default_placeholder, default_placeholder_of, is_placeholder, starts_with_sigil};
use vstd::prelude::*;

verus! {

/// What resolution reads of an ancestor: its own coordinate, its normalized
/// text (for its properties) and its dependency list.
pub type Scope = (Artifact, Seq<char>, Seq<Artifact>);

pub open spec fn scope_of(p: Pom) -> Scope {
    (p.root, p.source@, p.dependencies@)
}

pub open spec fn scopes(ps: Seq<Pom>) -> Seq<Scope> {
    ps.map_values(|p: Pom| scope_of(p))
}

/// The ancestors searched, nearest first: `near`, if given, then `parents`.
pub open spec fn chain_of(near: Option<&Pom>, parents: Seq<Pom>) -> Seq<Scope> {
    match near {
        Some(p) => seq![scope_of(*p)] + scopes(parents),
        None => scopes(parents),
    }
}

/// The version that the last entry for `artifact_id` in `deps` declares.
pub open spec fn managed_version(artifact_id: Seq<char>, deps: Seq<Artifact>) -> Option<Seq<char>>
    decreases deps.len(),
{
    if deps.len() == 0 {
        None
    } else if deps.last().artifact_id@ == artifact_id {
        opt_view(deps.last().version)
    } else {
        managed_version(artifact_id, deps.drop_last())
    }
}

/// `o`, where it holds a concrete version.
pub open spec fn concrete(o: Option<Seq<char>>) -> Option<Seq<char>> {
    match o {
        Some(v) => if is_placeholder(v) {
            None
        } else {
            Some(v)
        },
        None => None,
    }
}

/// The concrete version that one ancestor gives to the placeholder
/// `version` of `artifact_id`: its property of that name, else the version
/// that its own dependency list pins for the artifact.
pub open spec fn version_from(artifact_id: Seq<char>, version: Seq<char>, s: Scope) -> Option<Seq<char>> {
    match concrete(property_value(version, s.1)) {
        Some(v) => Some(v),
        None => concrete(managed_version(artifact_id, s.2)),
    }
}

/// The first ancestor from index `i` on that gives a concrete version, with
/// that version and its index.
pub open spec fn resolution(artifact_id: Seq<char>, version: Seq<char>, chain: Seq<Scope>, i: nat) -> Option<(Seq<char>, nat)>
    decreases chain.len() - i,
{
    if i >= chain.len() {
        None
    } else {
        match version_from(artifact_id, version, chain[i as int]) {
            Some(v) => Some((v, i)),
            None => resolution(artifact_id, version, chain, i + 1),
        }
    }
}

/// Whether the artifact states a concrete version itself.
pub open spec fn has_literal_version(a: Artifact) -> bool {
    a.version is Some && !is_placeholder(a.version->0@)
}

/// The placeholder that an artifact without a concrete version is resolved
/// by: its own, or `${artifact_id.version}` where it declares none.
pub open spec fn requested_version(a: Artifact) -> Seq<char> {
    match a.version {
        Some(v) => v@,
        None => default_placeholder(a.artifact_id@),
    }
}

/// Who supplied a version found at index `i` of `chain_of(near, parents)`:
/// nobody is recorded where that is `near`, the project itself; otherwise
/// the ancestor's coordinate.
pub open spec fn supplier(near: Option<&Pom>, parents: Seq<Pom>, i: nat) -> Option<Coordinate> {
    if near is Some && i == 0 {
        None
    } else {
        Some(coordinate_of(chain_of(near, parents)[i as int].0))
    }
}

/// `new` is `old` with its version resolved: a concrete version is kept;
/// otherwise the property of the descriptor's own text `own` wins, then the
/// first scope of `chain_of(near, parents)` that gives a concrete version;
/// where none does, the version is `None` (unresolved).
pub open spec fn resolved_as(old: Artifact, new: Artifact, own: Seq<char>, near: Option<&Pom>, parents: Seq<Pom>) -> bool {
    &&& new.group_id == old.group_id
    &&& new.artifact_id == old.artifact_id
    &&& new.latest_version == old.latest_version
    &&& if has_literal_version(old) {
        new.version == old.version && new.resolved_from == old.resolved_from
    } else {
        match concrete(property_value(requested_version(old), own)) {
            Some(v) => opt_view(new.version) == Some(v) && new.resolved_from is None,
            None => match resolution(old.artifact_id@, requested_version(old), chain_of(near, parents), 0) {
                Some(found) => opt_view(new.version) == Some(found.0)
                    && new.resolved_from == supplier(near, parents, found.1),
                None => new.version is None && new.resolved_from is None,
            },
        }
    }
}

/// Each artifact of `new` is the one of `old` resolved as `resolved_as` says.
pub open spec fn all_resolved_as(old: Seq<Artifact>, new: Seq<Artifact>, own: Seq<char>, near: Option<&Pom>, parents: Seq<Pom>) -> bool {
    &&& new.len() == old.len()
    &&& forall|i: int| 0 <= i < old.len() ==> resolved_as(old[i], #[trigger] new[i], own, near, parents)
}

/// `new` is `old` with the versions of its dependencies, and then of its
/// modules' dependencies, resolved. The project's own: by its own
/// properties, then against `parents`. Each module's: by the module's own
/// properties, then against the resolved project (recorded as no ancestor),
/// then `parents`.
pub open spec fn filled(old: Pom, new: Pom, parents: Seq<Pom>) -> bool {
    &&& new.root == old.root
    &&& new.parent == old.parent
    &&& new.source == old.source
    &&& new.skip_group == old.skip_group
    &&& all_resolved_as(old.dependencies@, new.dependencies@, old.source@, None, parents)
    &&& new.modules@.len() == old.modules@.len()
    &&& forall|i: int| 0 <= i < old.modules@.len() ==> {
        &&& (#[trigger] new.modules@[i]).artifact == old.modules@[i].artifact
        &&& new.modules@[i].source == old.modules@[i].source
        &&& all_resolved_as(
            old.modules@[i].dependencies@,
            new.modules@[i].dependencies@,
            old.modules@[i].source@,
            Some(&new),
            parents,
        )
    }
}

/// The version that the last entry for `artifact_id` in `deps` declares.
fn managed_version_in(artifact_id: &String, deps: &Vec<Artifact>) -> (r: Option<String>)
    ensures
        opt_view(r) == managed_version(artifact_id@, deps@),
{
    let mut found: Option<String> = None;
    let mut i: usize = 0;
    while i < deps.len()
        invariant
            i <= deps@.len(),
            opt_view(found) == managed_version(artifact_id@, deps@.subrange(0, i as int)),
        decreases deps.len() - i,
    {
        assert(deps@.subrange(0, i + 1).drop_last() =~= deps@.subrange(0, i as int));
        if deps[i].artifact_id == *artifact_id {
            found = copy_text(&deps[i].version);
        }
        i = i + 1;
    }
    assert(deps@.subrange(0, deps@.len() as int) =~= deps@);
    found
}

/// The concrete version that the ancestor `p` gives to the placeholder
/// `version` of `artifact_id`.
fn version_from_ancestor(artifact_id: &String, version: &String, p: &Pom) -> (r: Option<String>)
    ensures
        opt_view(r) == version_from(artifact_id@, version@, scope_of(*p)),
{
    match find_property(version.as_str(), p.source.as_str()) {
        Some(v) => if !starts_with_sigil(v.as_str()) {
            return Some(v);
        },
        None => {},
    }
    match managed_version_in(artifact_id, &p.dependencies) {
        Some(v) => if starts_with_sigil(v.as_str()) {
            None
        } else {
            Some(v)
        },
        None => None,
    }
}

/// Searches `near`, then `parents`, for the first ancestor that gives a
/// concrete version; returns it with that ancestor's coordinate.
fn resolve_version(artifact_id: &String, version: &String, near: Option<&Pom>, parents: &[Pom]) -> (r: Option<(String, Option<Coordinate>)>)
    ensures
        match resolution(artifact_id@, version@, chain_of(near, parents@), 0) {
            Some(found) => match r {
                Some(pair) => pair.0@ == found.0
                    && pair.1 == supplier(near, parents@, found.1),
                None => false,
            },
            None => r is None,
        },
{
    let ghost chain = chain_of(near, parents@);
    let mut offset: usize = 0;
    match near {
        Some(p) => {
            match version_from_ancestor(artifact_id, version, p) {
                Some(v) => {
                    return Some((v, None));
                },
                None => {},
            }
            offset = 1;
        },
        None => {},
    }
    assert(resolution(artifact_id@, version@, chain, 0) == resolution(artifact_id@, version@, chain, offset as nat));
    let mut i: usize = 0;
    while i < parents.len()
        invariant
            chain == chain_of(near, parents@),
            offset == (if near is Some { 1usize } else { 0usize }),
            i <= parents@.len(),
            chain.len() == offset + parents@.len(),
            forall|k: int| 0 <= k < parents@.len() ==> chain[offset + k] == scope_of(#[trigger] parents@[k]),
            resolution(artifact_id@, version@, chain, 0) == resolution(artifact_id@, version@, chain, (offset + i) as nat),
        decreases parents.len() - i,
    {
        let p = &parents[i];
        assert(chain[offset + i] == scope_of(parents@[i as int]));
        match version_from_ancestor(artifact_id, version, p) {
            Some(v) => {
                return Some((v, Some(Coordinate::of(&p.root))));
            },
            None => {},
        }
        i = i + 1;
    }
    None
}

/// Resolves the version of one dependency: by the properties of `own`,
/// then against `near`, then `parents`.
fn resolve_dependency(dep: &mut Artifact, own: &String, near: Option<&Pom>, parents: &[Pom])
    ensures
        resolved_as(*old(dep), *final(dep), own@, near, parents@),
{
    let literal = match &dep.version {
        Some(v) => !starts_with_sigil(v.as_str()),
        None => false,
    };
    if literal {
        return;
    }
    let requested = match &dep.version {
        Some(v) => v.clone(),
        None => default_placeholder_of(dep.artifact_id.as_str()),
    };
    match find_property(requested.as_str(), own.as_str()) {
        Some(v) => if !starts_with_sigil(v.as_str()) {
            dep.version = Some(v);
            dep.resolved_from = None;
            return;
        },
        None => {},
    }
    match resolve_version(&dep.artifact_id, &requested, near, parents) {
        Some((v, c)) => {
            dep.version = Some(v);
            dep.resolved_from = c;
        },
        None => {
            dep.version = None;
            dep.resolved_from = None;
        },
    }
}

/// Resolves every dependency of `deps`: by the properties of `own`, then
/// against `near`, then `parents`.
fn resolve_all(deps: &mut Vec<Artifact>, own: &String, near: Option<&Pom>, parents: &[Pom])
    ensures
        all_resolved_as(old(deps)@, final(deps)@, own@, near, parents@),
{
    let ghost before = deps@;
    let mut i: usize = 0;
    while i < deps.len()
        invariant
            deps@.len() == before.len(),
            i <= deps@.len(),
            forall|k: int| 0 <= k < i ==> resolved_as(before[k], #[trigger] deps@[k], own@, near, parents@),
            forall|k: int| i <= k < deps@.len() ==> #[trigger] deps@[k] == before[k],
        decreases deps.len() - i,
    {
        resolve_dependency(&mut deps[i], own, near, parents);
        i = i + 1;
    }
}

impl Pom {
    /// Resolves the versions of the project's dependencies against the
    /// ancestor chain `parents` (nearest first), then those of each module
    /// against the resolved project and then `parents`. A concrete version
    /// is kept; an unresolved one becomes `None`.
    pub fn fill_missing_properties(&mut self, parents: &[Pom]) -> (r: &mut Self)
        ensures
            filled(*old(self), *r, parents@),
            *final(self) == *final(r),
    {
        let own = self.source.clone();
        resolve_all(&mut self.dependencies, &own, None, parents);
        let mut modules: Vec<Module> = Vec::new();
        std::mem::swap(&mut self.modules, &mut modules);
        let ghost before = modules@;
        let ghost resolved = *self;
        let mut i: usize = 0;
        while i < modules.len()
            invariant
                *self == resolved,
                modules@.len() == before.len(),
                i <= modules@.len(),
                forall|k: int| 0 <= k < i ==> {
                    &&& (#[trigger] modules@[k]).artifact == before[k].artifact
                    &&& modules@[k].source == before[k].source
                    &&& all_resolved_as(before[k].dependencies@, modules@[k].dependencies@, before[k].source@, Some(&resolved), parents@)
                },
                forall|k: int| i <= k < modules@.len() ==> #[trigger] modules@[k] == before[k],
            decreases modules.len() - i,
        {
            let own = modules[i].source.clone();
            resolve_all(&mut modules[i].dependencies, &own, Some(&*self), parents);
            i = i + 1;
        }
        self.modules = modules;
        assert(scope_of(*self) == scope_of(resolved));
        assert(chain_of(Some(&*self), parents@) == chain_of(Some(&resolved), parents@));
        self
    }
}

} // verus!
