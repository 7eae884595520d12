//! General properties of loading, resolution, the ancestor walk and the
//! selection of lookups, proved over the models that the contracts use.

use crate::loader::property_value;
use crate::model::{coordinate_of, opt_view, Artifact, Pom};
use crate::report::{lookup_targets_of, module_targets, targets, wants_lookup};
use crate::resolve::{
    chain_of, concrete, filled, has_literal_version, requested_version, resolution, resolved_as, scope_of,
    scopes, version_from, Scope,
};
use crate::text::{has_prefix, is_placeholder};
use crate::walk::{wants, walk_run, walk_step, WalkState, MAX_DEPTH};
use vstd::prelude::*;

verus! {

/// Resolving a project leaves every concrete version, of the project's own
/// dependencies and of its modules', as it was.
pub proof fn lemma_literal_version_kept(old: Pom, new: Pom, parents: Seq<Pom>)
    requires
        filled(old, new, parents),
    ensures
        forall|i: int| 0 <= i < old.dependencies@.len() && has_literal_version(old.dependencies@[i])
            ==> #[trigger] new.dependencies@[i].version == old.dependencies@[i].version,
        forall|m: int, i: int| 0 <= m < old.modules@.len() && 0 <= i < old.modules@[m].dependencies@.len()
            && has_literal_version(old.modules@[m].dependencies@[i])
            ==> #[trigger] new.modules@[m].dependencies@[i].version == old.modules@[m].dependencies@[i].version,
{
    assert forall|m: int, i: int| 0 <= m < old.modules@.len() && 0 <= i < old.modules@[m].dependencies@.len()
        && has_literal_version(old.modules@[m].dependencies@[i])
        implies #[trigger] new.modules@[m].dependencies@[i].version == old.modules@[m].dependencies@[i].version by {
        let nm = new.modules@[m];
        assert(resolved_as(old.modules@[m].dependencies@[i], nm.dependencies@[i], old.modules@[m].source@, Some(&new), parents));
    }
}

/// The search up a chain ends at the first ancestor from `i` on that gives
/// a concrete version, and finds nothing only where none does.
pub proof fn lemma_resolution_is_first(artifact_id: Seq<char>, version: Seq<char>, chain: Seq<Scope>, i: nat)
    ensures
        match resolution(artifact_id, version, chain, i) {
            Some(found) => {
                &&& i <= found.1 < chain.len()
                &&& version_from(artifact_id, version, chain[found.1 as int]) == Some(found.0)
                &&& forall|j: int| i <= j < found.1 ==> (#[trigger] version_from(artifact_id, version, chain[j])) is None
            },
            None => forall|j: int| i <= j < chain.len() ==> (#[trigger] version_from(artifact_id, version, chain[j])) is None,
        },
    decreases chain.len() - i,
{
    if i < chain.len() {
        lemma_resolution_is_first(artifact_id, version, chain, i + 1);
    }
}

/// A placeholder that the descriptor's own properties define as a concrete
/// value resolves to that value, whatever any ancestor defines, and no
/// ancestor is recorded as its source.
pub proof fn lemma_root_property_wins(
    old: Artifact,
    new: Artifact,
    own: Seq<char>,
    near: Option<&Pom>,
    parents: Seq<Pom>,
    value: Seq<char>,
)
    requires
        !has_literal_version(old),
        resolved_as(old, new, own, near, parents),
        concrete(property_value(requested_version(old), own)) == Some(value),
    ensures
        opt_view(new.version) == Some(value),
        new.resolved_from is None,
{
}

/// A module dependency that the project itself resolves (by its properties
/// or its dependency list) takes that value with no ancestor recorded: the
/// project is no ancestor.
pub proof fn lemma_project_scope_not_recorded(
    old: Artifact,
    new: Artifact,
    own: Seq<char>,
    project: Pom,
    parents: Seq<Pom>,
    value: Seq<char>,
)
    requires
        !has_literal_version(old),
        resolved_as(old, new, own, Some(&project), parents),
        concrete(property_value(requested_version(old), own)) is None,
        version_from(old.artifact_id@, requested_version(old), scope_of(project)) == Some(value),
    ensures
        opt_view(new.version) == Some(value),
        new.resolved_from is None,
{
    let chain = chain_of(Some(&project), parents);
    assert(chain[0] == scope_of(project));
}

/// A placeholder of the project's own that its properties leave open and
/// the property table of ancestor `k` defines as a concrete value, where no
/// nearer ancestor gives a version, resolves to that value, recorded as
/// supplied by ancestor `k`; a farther ancestor that defines the same
/// property does not count.
pub proof fn lemma_nearest_ancestor_wins(
    old: Artifact,
    new: Artifact,
    own: Seq<char>,
    parents: Seq<Pom>,
    k: int,
    value: Seq<char>,
)
    requires
        !has_literal_version(old),
        resolved_as(old, new, own, None, parents),
        concrete(property_value(requested_version(old), own)) is None,
        0 <= k < parents.len(),
        concrete(property_value(requested_version(old), parents[k].source@)) == Some(value),
        forall|j: int| 0 <= j < k ==> (#[trigger] version_from(old.artifact_id@, requested_version(old), scope_of(parents[j]))) is None,
    ensures
        opt_view(new.version) == Some(value),
        new.resolved_from == Some(coordinate_of(parents[k].root)),
{
    let aid = old.artifact_id@;
    let v = requested_version(old);
    let chain = chain_of(None, parents);
    assert(chain == scopes(parents));
    assert(chain.len() == parents.len());
    assert(chain[k] == scope_of(parents[k]));
    lemma_resolution_is_first(aid, v, chain, 0);
    assert(version_from(aid, v, chain[k]) == Some(value));
    match resolution(aid, v, chain, 0) {
        Some(found) => {
            if found.1 > k {
                assert(version_from(aid, v, chain[k]) is None);
            }
            if found.1 < k {
                assert(chain[found.1 as int] == scope_of(parents[found.1 as int]));
                assert(version_from(aid, v, chain[found.1 as int]) is None);
            }
        },
        None => {
            assert(version_from(aid, v, chain[k]) is None);
        },
    }
}

/// After resolution a version is concrete or `None` (unresolved), never a
/// placeholder; where neither the descriptor's own properties nor any scope
/// of the chain gives a version, it is `None` and nothing is recorded.
pub proof fn lemma_no_placeholder_left(old: Artifact, new: Artifact, own: Seq<char>, near: Option<&Pom>, parents: Seq<Pom>)
    requires
        resolved_as(old, new, own, near, parents),
    ensures
        new.version is None || !is_placeholder(new.version->0@),
        !has_literal_version(old) && concrete(property_value(requested_version(old), own)) is None
            && (forall|j: int| 0 <= j < chain_of(near, parents).len()
                ==> (#[trigger] version_from(old.artifact_id@, requested_version(old), chain_of(near, parents)[j])) is None)
            ==> new.version is None && new.resolved_from is None,
{
    let aid = old.artifact_id@;
    let v = requested_version(old);
    let chain = chain_of(near, parents);
    lemma_resolution_is_first(aid, v, chain, 0);
    match resolution(aid, v, chain, 0) {
        Some(found) => {
            if !has_literal_version(old) {
                assert(version_from(aid, v, chain[found.1 as int]) == Some(found.0));
            }
        },
        None => {},
    }
}

/// The answers that a chain of descriptors gives to a walk, one per fetch.
pub open spec fn answers(chain: Seq<Pom>) -> Seq<Option<Pom>> {
    chain.map_values(|p: Pom| Some(p))
}

proof fn lemma_walk_prefix(start: Option<Artifact>, chain: Seq<Pom>, k: int)
    requires
        chain.len() <= MAX_DEPTH,
        (start is None) <==> chain.len() == 0,
        forall|i: int| 0 <= i < chain.len() - 1 ==> (#[trigger] chain[i]).parent is Some,
        0 <= k <= chain.len(),
    ensures
        walk_run((Seq::empty(), start), answers(chain).take(k)) == (chain.take(k), if k == 0 {
            start
        } else {
            chain[k - 1].parent
        }),
    decreases k,
{
    if k > 0 {
        lemma_walk_prefix(start, chain, k - 1);
        assert(answers(chain).take(k).drop_last() =~= answers(chain).take(k - 1));
        assert(chain.take(k - 1).push(chain[k - 1]) =~= chain.take(k));
        if k >= 2 {
            assert(chain[k - 2].parent is Some);
        }
    }
}

/// Walking a chain of `n` descriptors, each but the last declaring a parent,
/// with `n` within the depth bound: the walk fetches once for each of them,
/// gathers them in order, nearest first, and after the `n`th fetch is done.
pub proof fn lemma_walk_follows_chain(start: Option<Artifact>, chain: Seq<Pom>)
    requires
        chain.len() <= MAX_DEPTH,
        (start is None) <==> chain.len() == 0,
        forall|i: int| 0 <= i < chain.len() - 1 ==> (#[trigger] chain[i]).parent is Some,
        chain.len() > 0 ==> chain.last().parent is None,
    ensures
        forall|k: int| 0 <= k < chain.len()
            ==> (#[trigger] wants(walk_run((Seq::empty(), start), answers(chain).take(k)))) is Some,
        walk_run((Seq::empty(), start), answers(chain)).0 == chain,
        wants(walk_run((Seq::empty(), start), answers(chain))) is None,
{
    assert forall|k: int| 0 <= k < chain.len()
        implies (#[trigger] wants(walk_run((Seq::empty(), start), answers(chain).take(k)))) is Some by {
        lemma_walk_prefix(start, chain, k);
        if k > 0 {
            assert(chain[k - 1].parent is Some);
        }
    }
    lemma_walk_prefix(start, chain, chain.len() as int);
    assert(answers(chain).take(chain.len() as int) =~= answers(chain));
    assert(chain.take(chain.len() as int) =~= chain);
}

/// Whatever the fetches give, a walk never gathers more ancestors than the
/// depth bound, and after that many fetches it is done.
pub proof fn lemma_walk_bounded(start: Option<Artifact>, answers: Seq<Option<Pom>>)
    ensures
        walk_run((Seq::empty(), start), answers).0.len() <= MAX_DEPTH,
        answers.len() >= MAX_DEPTH ==> wants(walk_run((Seq::empty(), start), answers)) is None,
{
    lemma_walk_bounded_count(start, answers);
}

proof fn lemma_walk_bounded_count(start: Option<Artifact>, answers: Seq<Option<Pom>>)
    ensures
        walk_run((Seq::empty(), start), answers).0.len() <= MAX_DEPTH,
        wants(walk_run((Seq::empty(), start), answers)) is None
            || walk_run((Seq::empty(), start), answers).0.len() == answers.len(),
    decreases answers.len(),
{
    if answers.len() > 0 {
        lemma_walk_bounded_count(start, answers.drop_last());
    }
}

proof fn lemma_targets_looked_up(deps: Seq<Artifact>, skip: Option<String>)
    ensures
        forall|i: int| 0 <= i < targets(deps, skip).len() ==> wants_lookup(#[trigger] targets(deps, skip)[i], skip),
    decreases deps.len(),
{
    if deps.len() > 0 {
        lemma_targets_looked_up(deps.drop_last(), skip);
        let prev = targets(deps.drop_last(), skip);
        if wants_lookup(deps.last(), skip) {
            assert forall|i: int| 0 <= i < prev.push(deps.last()).len()
                implies wants_lookup(#[trigger] prev.push(deps.last())[i], skip) by {
                if i < prev.len() {
                    assert(prev.push(deps.last())[i] == prev[i]);
                }
            }
        }
    }
}

proof fn lemma_module_targets_looked_up(ms: Seq<crate::model::Module>, skip: Option<String>)
    ensures
        forall|i: int| 0 <= i < module_targets(ms, skip).len() ==> wants_lookup(#[trigger] module_targets(ms, skip)[i], skip),
    decreases ms.len(),
{
    if ms.len() > 0 {
        lemma_module_targets_looked_up(ms.drop_last(), skip);
        lemma_targets_looked_up(ms.last().dependencies@, skip);
        let a = module_targets(ms.drop_last(), skip);
        let b = targets(ms.last().dependencies@, skip);
        assert forall|i: int| 0 <= i < (a + b).len() implies wants_lookup(#[trigger] (a + b)[i], skip) by {
            if i >= a.len() {
                assert((a + b)[i] == b[i - a.len()]);
            }
        }
    }
}

/// No dependency whose group begins with the excluded prefix is looked up:
/// each one looked up has a group id outside that prefix.
pub proof fn lemma_excluded_never_looked_up(p: Pom)
    ensures
        forall|i: int| 0 <= i < lookup_targets_of(p).len() ==> {
            &&& (#[trigger] lookup_targets_of(p)[i]).group_id is Some
            &&& p.skip_group is Some
            &&& !has_prefix(lookup_targets_of(p)[i].group_id->0@, p.skip_group->0@)
        },
        forall|a: Artifact| a.group_id is Some && p.skip_group is Some
            && has_prefix(a.group_id->0@, p.skip_group->0@) ==> !(#[trigger] lookup_targets_of(p).contains(a)),
{
    let a = targets(p.dependencies@, p.skip_group);
    let b = module_targets(p.modules@, p.skip_group);
    lemma_targets_looked_up(p.dependencies@, p.skip_group);
    lemma_module_targets_looked_up(p.modules@, p.skip_group);
    assert forall|i: int| 0 <= i < (a + b).len() implies wants_lookup(#[trigger] (a + b)[i], p.skip_group) by {
        if i >= a.len() {
            assert((a + b)[i] == b[i - a.len()]);
        }
    }
}

} // verus!
