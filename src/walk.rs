//! The walk up a project's chain of parent descriptors. Fetching a
//! descriptor is left to the caller: the walk says which coordinate it wants
//! next and takes what the fetch gave.

use crate::loader::{declared, loads_as, root_region};
use crate::model::{coordinate_of, copy_artifact, Artifact, Coordinate, Pom};
use vstd::prelude::*;

verus! {

/// The most ancestors a walk gathers; a longer chain is cut off there.
pub const MAX_DEPTH: usize = 20;

/// The state of a walk: the ancestors gathered so far, nearest first, and the
/// parent coordinate that the last of them declared.
pub struct ParentWalk {
    pub parents: Vec<Pom>,
    pub next: Option<Artifact>,
}

pub type WalkState = (Seq<Pom>, Option<Artifact>);

/// The coordinate that a walk in this state fetches next; none once it is done.
pub open spec fn wants(s: WalkState) -> Option<Artifact> {
    if s.0.len() < MAX_DEPTH {
        s.1
    } else {
        None
    }
}

/// One step: a fetched descriptor is appended and its own parent becomes the
/// next coordinate; a fetch that gave nothing ends the walk. A walk that is
/// done stays as it is.
pub open spec fn walk_step(s: WalkState, fetched: Option<Pom>) -> WalkState {
    if wants(s) is None {
        s
    } else {
        match fetched {
            Some(p) => (s.0.push(p), p.parent),
            None => (s.0, None),
        }
    }
}

/// The state after answering each fetch of a walk in turn.
pub open spec fn walk_run(s: WalkState, answers: Seq<Option<Pom>>) -> WalkState
    decreases answers.len(),
{
    if answers.len() == 0 {
        s
    } else {
        walk_step(walk_run(s, answers.drop_last()), answers.last())
    }
}

pub open spec fn state_of(w: ParentWalk) -> WalkState {
    (w.parents@, w.next)
}

impl Pom {
    /// Starts the walk up this project's ancestors at its declared parent.
    pub fn fetch_parents(&self) -> (r: ParentWalk)
        ensures
            r.parents@ == Seq::<Pom>::empty(),
            r.next == self.parent,
    {
        let next = match &self.parent {
            Some(a) => Some(copy_artifact(a)),
            None => None,
        };
        ParentWalk { parents: Vec::new(), next }
    }
}

impl ParentWalk {
    /// The coordinate to fetch next, or `None` once the walk is done.
    pub fn next_fetch(&self) -> (r: Option<Coordinate>)
        ensures
            match wants(state_of(*self)) {
                Some(a) => r == Some(coordinate_of(a)),
                None => r is None,
            },
    {
        if self.parents.len() >= MAX_DEPTH {
            return None;
        }
        match &self.next {
            Some(a) => Some(Coordinate::of(a)),
            None => None,
        }
    }

    /// Whether the walk stopped at the depth bound with a parent still
    /// declared: the chain is longer than the walk follows.
    pub fn hit_depth_bound(&self) -> (r: bool)
        ensures
            r == (self.parents@.len() >= MAX_DEPTH && self.next is Some),
    {
        self.parents.len() >= MAX_DEPTH && self.next.is_some()
    }

    /// Takes the descriptor that the fetch of `next_fetch` gave, if any.
    pub fn advance(&mut self, fetched: Option<Pom>)
        ensures
            state_of(*final(self)) == walk_step(state_of(*old(self)), fetched),
    {
        if self.parents.len() >= MAX_DEPTH || self.next.is_none() {
            return;
        }
        match fetched {
            Some(p) => {
                let next = match &p.parent {
                    Some(a) => Some(copy_artifact(a)),
                    None => None,
                };
                self.parents.push(p);
                self.next = next;
            },
            None => {
                self.next = None;
            },
        }
    }

    /// Takes the text that the fetch of `next_fetch` gave, if any. A text
    /// that does not load as a descriptor ends the walk like a failed fetch.
    pub fn advance_with_text(&mut self, fetched: Option<&str>)
        ensures
            wants(state_of(*old(self))) is None ==> *final(self) == *old(self),
            wants(state_of(*old(self))) is Some ==> match fetched {
                Some(t) => if declared(root_region(t@)) is Some {
                    exists|p: Pom| loads_as(t@, p) && p.modules@.len() == 0 && p.skip_group is None
                        && state_of(*final(self)) == walk_step(state_of(*old(self)), Some(p))
                } else {
                    state_of(*final(self)) == walk_step(state_of(*old(self)), None)
                },
                None => state_of(*final(self)) == walk_step(state_of(*old(self)), None),
            },
    {
        if self.parents.len() >= MAX_DEPTH || self.next.is_none() {
            return;
        }
        let pom = match fetched {
            Some(t) => match Pom::from_str(t) {
                Ok(p) => Some(p),
                Err(_) => None,
            },
            None => None,
        };
        self.advance(pom);
    }

    /// The ancestors gathered, nearest first.
    pub fn into_parents(self) -> (r: Vec<Pom>)
        ensures
            r@ == self.parents@,
    {
        self.parents
    }
}

} // verus!
