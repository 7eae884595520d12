//! Which dependencies are looked up for their latest published version, and
//! how each lookup is reported.

use crate::model::{copy_artifact, copy_text, opt_view, Artifact, Module, Pom};
use crate::text::{has_prefix, starts_with};
use vstd::prelude::*;

verus! {

/// Whether the latest version of `a` is looked up: it has a group id, and
/// that group does not begin with the excluded prefix `skip`.
pub open spec fn wants_lookup(a: Artifact, skip: Option<String>) -> bool {
    &&& a.group_id is Some
    &&& skip is Some
    &&& !has_prefix(a.group_id->0@, skip->0@)
}

/// The dependencies of `deps` that are looked up, in order.
pub open spec fn targets(deps: Seq<Artifact>, skip: Option<String>) -> Seq<Artifact>
    decreases deps.len(),
{
    if deps.len() == 0 {
        Seq::empty()
    } else if wants_lookup(deps.last(), skip) {
        targets(deps.drop_last(), skip).push(deps.last())
    } else {
        targets(deps.drop_last(), skip)
    }
}

/// The module dependencies that are looked up, module by module.
pub open spec fn module_targets(ms: Seq<Module>, skip: Option<String>) -> Seq<Artifact>
    decreases ms.len(),
{
    if ms.len() == 0 {
        Seq::empty()
    } else {
        module_targets(ms.drop_last(), skip) + targets(ms.last().dependencies@, skip)
    }
}

/// Every dependency of the project that is looked up: its own, then its
/// modules'.
pub open spec fn lookup_targets_of(p: Pom) -> Seq<Artifact> {
    targets(p.dependencies@, p.skip_group) + module_targets(p.modules@, p.skip_group)
}

/// Whether a resolved version counts as current against the latest one; a
/// failed lookup flags nothing.
pub open spec fn is_up_to_date(version: Option<Seq<char>>, latest: Option<Seq<char>>) -> bool {
    latest is None || version == latest
}

/// Whether the latest version of `a` is looked up.
pub fn needs_lookup(a: &Artifact, skip_group: &Option<String>) -> (r: bool)
    ensures
        r == wants_lookup(*a, *skip_group),
{
    match (&a.group_id, skip_group) {
        (Some(g), Some(s)) => !starts_with(g.as_str(), s.as_str()),
        _ => false,
    }
}

/// Appends to `out` the dependencies of `deps` that are looked up.
fn collect_targets(deps: &Vec<Artifact>, skip_group: &Option<String>, out: &mut Vec<Artifact>)
    ensures
        final(out)@ == old(out)@ + targets(deps@, *skip_group),
{
    let ghost start = out@;
    let mut i: usize = 0;
    while i < deps.len()
        invariant
            i <= deps@.len(),
            out@ == start + targets(deps@.subrange(0, i as int), *skip_group),
        decreases deps.len() - i,
    {
        let ghost sub = deps@.subrange(0, i + 1);
        assert(sub.drop_last() =~= deps@.subrange(0, i as int));
        assert(sub.last() == deps@[i as int]);
        if needs_lookup(&deps[i], skip_group) {
            out.push(copy_artifact(&deps[i]));
            assert(out@ =~= start + targets(sub, *skip_group));
        }
        i = i + 1;
    }
    assert(deps@.subrange(0, deps@.len() as int) =~= deps@);
}

/// What a lookup of one dependency's latest version found.
#[derive(Clone, Debug)]
pub struct DependencyReport {
    pub dependency: Artifact,
    pub latest_version: Option<String>,
    pub up_to_date: bool,
}

impl DependencyReport {
    /// The report on `dependency`, whose lookup found `latest` (`None`: the
    /// lookup failed).
    pub fn new(dependency: Artifact, latest: Option<String>) -> (r: DependencyReport)
        ensures
            r.dependency == (Artifact { latest_version: latest, ..dependency }),
            r.latest_version == latest,
            r.up_to_date == is_up_to_date(opt_view(dependency.version), opt_view(latest)),
    {
        let up_to_date = match (&latest, &dependency.version) {
            (None, _) => true,
            (Some(l), Some(v)) => *l == *v,
            (Some(_), None) => false,
        };
        let mut dependency = dependency;
        dependency.latest_version = copy_text(&latest);
        DependencyReport { dependency, latest_version: latest, up_to_date }
    }
}

/// The reports on dependencies whose version nobody else supplied, in order.
pub open spec fn standalone(rs: Seq<DependencyReport>) -> Seq<DependencyReport>
    decreases rs.len(),
{
    if rs.len() == 0 {
        Seq::empty()
    } else if rs.last().dependency.resolved_from is None {
        standalone(rs.drop_last()).push(rs.last())
    } else {
        standalone(rs.drop_last())
    }
}

/// The reports on dependencies whose version an ancestor supplied, in order.
pub open spec fn inherited(rs: Seq<DependencyReport>) -> Seq<DependencyReport>
    decreases rs.len(),
{
    if rs.len() == 0 {
        Seq::empty()
    } else if rs.last().dependency.resolved_from is Some {
        inherited(rs.drop_last()).push(rs.last())
    } else {
        inherited(rs.drop_last())
    }
}

fn copy_report(r: &DependencyReport) -> (c: DependencyReport)
    ensures
        c == *r,
{
    DependencyReport {
        dependency: copy_artifact(&r.dependency),
        latest_version: copy_text(&r.latest_version),
        up_to_date: r.up_to_date,
    }
}

/// The reports in the order they are presented: those on standalone
/// versions first, then those on versions an ancestor supplied, each part
/// in its original order.
pub fn standalone_first(reports: &Vec<DependencyReport>) -> (r: Vec<DependencyReport>)
    ensures
        r@ == standalone(reports@) + inherited(reports@),
{
    let mut own: Vec<DependencyReport> = Vec::new();
    let mut other: Vec<DependencyReport> = Vec::new();
    let mut i: usize = 0;
    while i < reports.len()
        invariant
            i <= reports@.len(),
            own@ == standalone(reports@.subrange(0, i as int)),
            other@ == inherited(reports@.subrange(0, i as int)),
        decreases reports.len() - i,
    {
        assert(reports@.subrange(0, i + 1).drop_last() =~= reports@.subrange(0, i as int));
        let c = copy_report(&reports[i]);
        if c.dependency.resolved_from.is_none() {
            own.push(c);
        } else {
            other.push(c);
        }
        i = i + 1;
    }
    assert(reports@.subrange(0, reports@.len() as int) =~= reports@);
    own.append(&mut other);
    own
}

impl Pom {
    /// The dependencies whose latest version is looked up: the project's
    /// own, then each module's, each only if it has a group id outside the
    /// excluded prefix.
    pub fn lookup_targets(&self) -> (r: Vec<Artifact>)
        ensures
            r@ == lookup_targets_of(*self),
    {
        let mut out: Vec<Artifact> = Vec::new();
        collect_targets(&self.dependencies, &self.skip_group, &mut out);
        let ghost own = out@;
        let mut i: usize = 0;
        while i < self.modules.len()
            invariant
                i <= self.modules@.len(),
                own == targets(self.dependencies@, self.skip_group),
                out@ == own + module_targets(self.modules@.subrange(0, i as int), self.skip_group),
            decreases self.modules.len() - i,
        {
            let ghost sub = self.modules@.subrange(0, i + 1);
            assert(sub.drop_last() =~= self.modules@.subrange(0, i as int));
            collect_targets(&self.modules[i].dependencies, &self.skip_group, &mut out);
            assert(out@ =~= own + module_targets(sub, self.skip_group));
            i = i + 1;
        }
        assert(self.modules@.subrange(0, self.modules@.len() as int) =~= self.modules@);
        out
    }
}

} // verus!
