//! Loop unwinding as a sub-analysis: a state that follows the location of a
//! location analysis, remembers the locations visited on the current path,
//! and counts a back-edge each time it returns to one of them.
use crate::analysis::unwinding::counts::{AddressSet, BackEdge, BackEdgeCounts, max_usize};
use crate::analysis::unwinding::StrengthenOutcome;
use crate::modeling::machine::cpu::concrete::ConcretePcodeAddress;
use std::cmp::Ordering;
use vstd::prelude::*;
use vstd::std_specs::cmp::{PartialEqSpecImpl, PartialOrdSpecImpl};

verus! {

/// The current location, the locations visited on the path to it, the number
/// of times each back-edge was taken, and the bound on those numbers.
#[derive(Debug)]
pub struct BackEdgeCountState {
    location: Option<ConcretePcodeAddress>,
    visited: AddressSet,
    back_edge_counts: BackEdgeCounts,
    max_count: usize,
}

impl BackEdgeCountState {
    pub closed spec fn spec_location(self) -> Option<ConcretePcodeAddress> {
        self.location
    }

    pub closed spec fn spec_visited(self) -> AddressSet {
        self.visited
    }

    pub closed spec fn spec_counts(self) -> BackEdgeCounts {
        self.back_edge_counts
    }

    pub closed spec fn spec_max_count(self) -> usize {
        self.max_count
    }

    pub open spec fn wf(self) -> bool {
        self.spec_visited().wf() && self.spec_counts().wf()
    }

    /// Some back-edge has been taken at least `max_count` times.
    pub open spec fn spec_terminated(self) -> bool {
        exists|i: int|
            0 <= i < self.spec_counts().entries().len() && #[trigger] self.spec_counts().entries()[i].1
                >= self.spec_max_count()
    }

    /// A fresh path that starts at `location`.
    pub fn with_location(location: ConcretePcodeAddress, max_count: usize) -> (r: Self)
        ensures
            r.wf(),
            r.spec_location() == Some(location),
            r.spec_visited()@ == set![location],
            r.spec_counts().entries() == Seq::<(BackEdge, usize)>::empty(),
            r.spec_max_count() == max_count,
    {
        let mut visited = AddressSet::new();
        visited.insert(&location);
        assert(visited@ =~= set![location]);
        BackEdgeCountState {
            location: Some(location),
            visited,
            back_edge_counts: BackEdgeCounts::new(),
            max_count,
        }
    }

    pub fn terminated(&self) -> (r: bool)
        ensures
            r == self.spec_terminated(),
    {
        let r = self.back_edge_counts.any_at_least(self.max_count);
        proof {
            if r {
                let i = choose|i: int|
                    0 <= i < self.back_edge_counts.entries().len()
                        && #[trigger] self.back_edge_counts.entries()[i].1 >= self.max_count;
                assert(self.spec_counts().entries()[i].1 >= self.spec_max_count());
            }
        }
        r
    }

    pub fn duplicate(&self) -> (r: Self)
        ensures
            r.spec_location() == self.spec_location(),
            r.spec_visited().items() == self.spec_visited().items(),
            r.spec_counts().entries() == self.spec_counts().entries(),
            r.spec_max_count() == self.spec_max_count(),
    {
        BackEdgeCountState {
            location: self.location,
            visited: self.visited.duplicate(),
            back_edge_counts: self.back_edge_counts.duplicate(),
            max_count: self.max_count,
        }
    }

    /// The count of edge `e` after moving to `new_location`: returning to a
    /// visited location from the current one takes the back-edge between them
    /// once more (an edge first taken now counts 1).
    pub open spec fn moved_count(self, new_location: ConcretePcodeAddress, e: BackEdge) -> Option<
        usize,
    > {
        match self.spec_location() {
            Some(from) => if self.spec_visited()@.contains(new_location) && e == (
                from,
                new_location,
            ) {
                match self.spec_counts().count(e) {
                    Some(c) => Some((c + 1) as usize),
                    None => Some(1usize),
                }
            } else {
                self.spec_counts().count(e)
            },
            None => self.spec_counts().count(e),
        }
    }

    /// The state after moving to `new_location`.
    pub fn move_to(&self, new_location: ConcretePcodeAddress) -> (r: Self)
        requires
            self.wf(),
            forall|from: ConcretePcodeAddress|
                self.spec_location() == Some(from) ==> (self.spec_counts().count(
                    (from, new_location),
                ) matches Some(c) ==> c < usize::MAX),
        ensures
            r.wf(),
            r.spec_location() == Some(new_location),
            r.spec_visited()@ == self.spec_visited()@.insert(new_location),
            r.spec_max_count() == self.spec_max_count(),
            forall|e: BackEdge| #[trigger] r.spec_counts().count(e) == self.moved_count(new_location, e),
    {
        let mut new_state = self.duplicate();
        if self.visited.contains(&new_location) {
            match self.location {
                Some(from) => {
                    let edge = (from, new_location);
                    let c = match new_state.back_edge_counts.get(&edge) {
                        Some(c) => c,
                        None => 0,
                    };
                    new_state.back_edge_counts.set(&edge, c + 1);
                },
                None => {},
            }
        }
        new_state.visited.insert(&new_location);
        new_state.location = Some(new_location);
        new_state
    }

    /// Joins `other` into this state: each back-edge takes the larger of the
    /// two counts, and the visited sets are united.
    pub fn join(&mut self, other: &Self)
        requires
            old(self).wf(),
            other.wf(),
        ensures
            final(self).wf(),
            final(self).spec_location() == old(self).spec_location(),
            final(self).spec_max_count() == old(self).spec_max_count(),
            final(self).spec_visited()@ == old(self).spec_visited()@.union(other.spec_visited()@),
            forall|x: BackEdge| #[trigger]
                final(self).spec_counts().count(x) == match (
                    old(self).spec_counts().count(x),
                    other.spec_counts().count(x),
                ) {
                    (Some(a), Some(b)) => Some(max_usize(a, b)),
                    (Some(a), None) => Some(a),
                    (None, Some(b)) => Some(max_usize(0, b)),
                    (None, None) => None,
                },
    {
        self.back_edge_counts.join_max(&other.back_edge_counts);
        self.visited.extend(&other.visited);
    }

    /// No successor once some back-edge reached the bound; otherwise the state
    /// itself: it moves only when strengthened by the location analysis.
    pub fn transfer(&self) -> (r: Vec<Self>)
        ensures
            self.spec_terminated() ==> r@.len() == 0,
            !self.spec_terminated() ==> r@.len() == 1 && r@[0].spec_location()
                == self.spec_location() && r@[0].spec_visited().items()
                == self.spec_visited().items() && r@[0].spec_counts().entries()
                == self.spec_counts().entries() && r@[0].spec_max_count() == self.spec_max_count(),
    {
        let mut v: Vec<Self> = Vec::new();
        if !self.terminated() {
            v.push(self.duplicate());
        }
        v
    }

    /// Follows the location analysis: a new location moves this state there.
    pub fn strengthen(&mut self, other_location: Option<ConcretePcodeAddress>) -> (r:
        StrengthenOutcome)
        requires
            old(self).wf(),
            forall|from: ConcretePcodeAddress, to: ConcretePcodeAddress|
                old(self).spec_location() == Some(from) && other_location == Some(to) ==> (old(
                    self,
                ).spec_counts().count((from, to)) matches Some(c) ==> c < usize::MAX),
        ensures
            final(self).wf(),
            match other_location {
                Some(l) => if old(self).spec_location() != Some(l) {
                    r == StrengthenOutcome::Changed && final(self).spec_location() == Some(l)
                        && final(self).spec_visited()@ == old(self).spec_visited()@.insert(l)
                        && final(self).spec_max_count() == old(self).spec_max_count() && forall|
                        e: BackEdge,
                    | #[trigger] final(self).spec_counts().count(e) == old(self).moved_count(l, e)
                } else {
                    r == StrengthenOutcome::Unchanged && *final(self) == *old(self)
                },
                None => r == StrengthenOutcome::Unchanged && *final(self) == *old(self),
            },
    {
        match other_location {
            Some(new_loc) => {
                if self.location != Some(new_loc) {
                    *self = self.move_to(new_loc);
                    return StrengthenOutcome::Changed;
                }
                StrengthenOutcome::Unchanged
            },
            None => StrengthenOutcome::Unchanged,
        }
    }

    /// Whether both stand at the same location with the same counts.
    pub fn same_state(&self, other: &Self) -> (r: bool)
        ensures
            r == (self.spec_location() == other.spec_location() && self.spec_counts().entries()
                == other.spec_counts().entries()),
    {
        self.location == other.location && self.back_edge_counts.same(&other.back_edge_counts)
    }
}

impl PartialOrd for BackEdgeCountState {
    /// States are comparable only at the same location with the same counts;
    /// then they are equal.
    fn partial_cmp(&self, other: &Self) -> (r: Option<Ordering>) {
        if self.same_state(other) {
            Some(Ordering::Equal)
        } else {
            None
        }
    }
}

impl PartialEq for BackEdgeCountState {
    fn eq(&self, other: &Self) -> (r: bool) {
        self.same_state(other)
    }
}

impl PartialEqSpecImpl for BackEdgeCountState {
    open spec fn obeys_eq_spec() -> bool {
        true
    }

    open spec fn eq_spec(&self, other: &Self) -> bool {
        self.spec_location() == other.spec_location() && self.spec_counts().entries()
            == other.spec_counts().entries()
    }
}

impl PartialOrdSpecImpl for BackEdgeCountState {
    open spec fn obeys_partial_cmp_spec() -> bool {
        true
    }

    open spec fn partial_cmp_spec(&self, other: &Self) -> Option<Ordering> {
        if self.spec_location() == other.spec_location() && self.spec_counts().entries()
            == other.spec_counts().entries() {
            Some(Ordering::Equal)
        } else {
            None
        }
    }
}

/// The analysis of back-edge counts, with its bound.
#[derive(Debug, Clone, Copy, PartialEq, Eq, Structural)]
pub struct BackEdgeCountCPA {
    max_count: usize,
}

impl BackEdgeCountCPA {
    pub closed spec fn spec_max_count(self) -> usize {
        self.max_count
    }

    pub fn new(max_count: usize) -> (r: Self)
        ensures
            r.spec_max_count() == max_count,
    {
        BackEdgeCountCPA { max_count }
    }

    /// The initial state at `addr`.
    pub fn into_state(&self, addr: ConcretePcodeAddress) -> (r: BackEdgeCountState)
        ensures
            r.wf(),
            r.spec_location() == Some(addr),
            r.spec_visited()@ == set![addr],
            r.spec_counts().entries() == Seq::<(BackEdge, usize)>::empty(),
            r.spec_max_count() == self.spec_max_count(),
    {
        BackEdgeCountState::with_location(addr, self.max_count)
    }
}

/// The residue of the back-edge count analysis: it collects nothing.
#[derive(Debug, Clone, Copy, PartialEq, Eq, Structural)]
pub struct EmptyBackEdgeReducer;

impl EmptyBackEdgeReducer {
    pub fn new() -> (r: Self)
        ensures
            r == EmptyBackEdgeReducer,
    {
        EmptyBackEdgeReducer
    }

    pub fn finalize(self) {
    }
}

/// Pairs an analysis with back-edge counting bounded by `bound`.
pub trait UnwindExt: Sized {
    fn unwind(self, bound: usize) -> (r: (BackEdgeCountCPA, Self))
        ensures
            r.0.spec_max_count() == bound,
            r.1 == self,
    {
        (BackEdgeCountCPA::new(bound), self)
    }
}

impl<T> UnwindExt for T {
}

} // verus!
