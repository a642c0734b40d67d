//! Bounded loop unwinding: states that count how often each back-edge of the
//! control-flow graph has been taken, and the locations of the unwound graph
//! that they name.
pub mod cfg;
pub mod counts;

use crate::analysis::unwinding::counts::{BackEdge, BackEdgeCounts};
use crate::modeling::machine::cpu::concrete::{ConcretePcodeAddress, FlatLattice};
use std::cmp::Ordering;
use vstd::prelude::*;
use vstd::std_specs::cmp::{PartialEqSpecImpl, PartialOrdSpecImpl};

verus! {

/// Whether a strengthening step changed the state.
#[derive(Debug, Clone, Copy, PartialEq, Eq, Structural)]
pub enum StrengthenOutcome {
    Changed,
    Unchanged,
}

/// A location of the unwound graph: the back-edge counts with which the
/// original location was reached, or the location at which unwinding stopped.
#[derive(Debug, Clone, PartialEq, Eq, Hash)]
pub enum UnwoundLocation {
    UnwindError(ConcretePcodeAddress),
    Location(Vec<usize>, FlatLattice<ConcretePcodeAddress>),
}

impl UnwoundLocation {
    /// The original address, where there is one.
    pub open spec fn spec_location(self) -> Option<ConcretePcodeAddress> {
        match self {
            UnwoundLocation::UnwindError(a) => Some(a),
            UnwoundLocation::Location(_, FlatLattice::Value(a)) => Some(a),
            UnwoundLocation::Location(_, FlatLattice::Top) => None,
        }
    }

    pub fn location(&self) -> (r: Option<ConcretePcodeAddress>)
        ensures
            r == self.spec_location(),
    {
        match self {
            UnwoundLocation::UnwindError(a) => Some(*a),
            UnwoundLocation::Location(_, FlatLattice::Value(a)) => Some(*a),
            UnwoundLocation::Location(_, FlatLattice::Top) => None,
        }
    }

    pub fn is_unwind_error(&self) -> (r: bool)
        ensures
            r == (*self is UnwindError),
    {
        match self {
            UnwoundLocation::UnwindError(_) => true,
            _ => false,
        }
    }

    /// The unwound location of a state at `location` with the visit counts of
    /// `state`: an unwinding error once some back-edge reached the bound, else
    /// the location tagged with the counts in edge order.
    pub fn from_cpa_state(
        state: &BackEdgeVisitCountState,
        location: ConcretePcodeAddress,
        _max: usize,
    ) -> (r: Self)
        ensures
            state.spec_terminated() ==> r == UnwoundLocation::UnwindError(location),
            !state.spec_terminated() ==> (r matches UnwoundLocation::Location(tag, l) && tag@
                == state.spec_visits().counts_in_order() && l == FlatLattice::Value(location)),
    {
        if state.terminated() {
            UnwoundLocation::UnwindError(location)
        } else {
            UnwoundLocation::Location(state.back_edge_str(), FlatLattice::Value(location))
        }
    }

    /// Whether this location stands for address `other`.
    pub fn eq_address(&self, other: &ConcretePcodeAddress) -> (r: bool)
        ensures
            r == (self.spec_location() == Some(*other)),
    {
        match self.location() {
            Some(a) => a == *other,
            None => false,
        }
    }
}

/// The number of times each back-edge has been taken, and the bound on it.
#[derive(Debug)]
pub struct BackEdgeVisitCountState {
    back_edge_visits: BackEdgeCounts,
    max: usize,
}

impl BackEdgeVisitCountState {
    pub closed spec fn spec_visits(self) -> BackEdgeCounts {
        self.back_edge_visits
    }

    pub closed spec fn spec_max(self) -> usize {
        self.max
    }

    pub open spec fn wf(self) -> bool {
        self.spec_visits().wf()
    }

    /// Some back-edge has been taken at least `max` times.
    pub open spec fn spec_terminated(self) -> bool {
        exists|i: int|
            0 <= i < self.spec_visits().entries().len() && #[trigger] self.spec_visits().entries()[i].1
                >= self.spec_max()
    }

    /// Every edge of `back_edges` with a count of zero.
    pub fn new(back_edges: &Vec<BackEdge>, max: usize) -> (r: Self)
        ensures
            r.wf(),
            r.spec_max() == max,
            forall|e: BackEdge| #[trigger]
                r.spec_visits().count(e) == if back_edges@.contains(e) {
                    Some(0usize)
                } else {
                    None
                },
    {
        let visits = BackEdgeCounts::zeros(back_edges);
        BackEdgeVisitCountState { back_edge_visits: visits, max }
    }

    /// The counts, in edge order: the tag of an unwound location.
    pub fn back_edge_str(&self) -> (r: Vec<usize>)
        ensures
            r@ == self.spec_visits().counts_in_order(),
    {
        self.back_edge_visits.counts()
    }

    pub fn back_edge_count(&self, be: BackEdge) -> (r: Option<usize>)
        requires
            self.wf(),
        ensures
            r == self.spec_visits().count(be),
    {
        self.back_edge_visits.get(&be)
    }

    /// Counts one more traversal of `be`; an edge that is not a back-edge is
    /// ignored.
    pub fn increment_back_edge_count(&mut self, be: BackEdge)
        requires
            old(self).wf(),
            old(self).spec_visits().count(be) matches Some(c) ==> c < usize::MAX,
        ensures
            final(self).wf(),
            final(self).spec_max() == old(self).spec_max(),
            forall|e: BackEdge| #[trigger]
                final(self).spec_visits().count(e) == if e == be {
                    match old(self).spec_visits().count(be) {
                        Some(c) => Some((c + 1) as usize),
                        None => None,
                    }
                } else {
                    old(self).spec_visits().count(e)
                },
    {
        match self.back_edge_visits.get(&be) {
            Some(c) => {
                self.back_edge_visits.set(&be, c + 1);
            },
            None => {},
        }
    }

    pub fn terminated(&self) -> (r: bool)
        ensures
            r == self.spec_terminated(),
    {
        let r = self.back_edge_visits.any_at_least(self.max);
        proof {
            if r {
                let i = choose|i: int|
                    0 <= i < self.back_edge_visits.entries().len()
                        && #[trigger] self.back_edge_visits.entries()[i].1 >= self.max;
                assert(self.spec_visits().entries()[i].1 >= self.spec_max());
            }
        }
        r
    }

    /// Whether both hold the same counts for the same edges.
    pub fn same_visit_counts(&self, other: &Self) -> (r: bool)
        ensures
            r == (self.spec_visits().entries() == other.spec_visits().entries()),
    {
        self.back_edge_visits.same(&other.back_edge_visits)
    }

    pub fn max(&self) -> (r: usize)
        ensures
            r == self.spec_max(),
    {
        self.max
    }

    pub fn duplicate(&self) -> (r: Self)
        ensures
            r.spec_visits().entries() == self.spec_visits().entries(),
            r.spec_max() == self.spec_max(),
    {
        BackEdgeVisitCountState { back_edge_visits: self.back_edge_visits.duplicate(), max: self.max }
    }

    /// The same edges, each counted the larger number of times of the two
    /// states (an edge that `other` lacks counts 0 there).
    pub fn partial_join(&self, other: &Self) -> (r: Option<Self>)
        requires
            self.wf(),
            other.wf(),
        ensures
            r matches Some(s) && s.wf() && s.spec_max() == self.spec_max()
                && s.spec_visits().entries() == self.spec_visits().spec_max_with(other.spec_visits()),
    {
        Some(
            BackEdgeVisitCountState {
                back_edge_visits: self.back_edge_visits.max_with(&other.back_edge_visits),
                max: self.max,
            },
        )
    }

    /// Takes `other`'s count for each of this state's edges (0 where `other`
    /// lacks the edge).
    pub fn join(&mut self, other: &Self)
        requires
            old(self).wf(),
            other.wf(),
        ensures
            final(self).wf(),
            final(self).spec_max() == old(self).spec_max(),
            final(self).spec_visits().entries() == old(self).spec_visits().spec_take_from(
                other.spec_visits(),
            ),
    {
        self.back_edge_visits = self.back_edge_visits.take_from(&other.back_edge_visits);
    }

    /// Counts the step from `from` to `to` when it follows a back-edge.
    pub fn strengthen(
        &mut self,
        from: Option<ConcretePcodeAddress>,
        to: Option<ConcretePcodeAddress>,
    ) -> (r: StrengthenOutcome)
        requires
            old(self).wf(),
            forall|a: ConcretePcodeAddress, b: ConcretePcodeAddress|
                from == Some(a) && to == Some(b) && old(self).spec_visits().count((a, b)) is Some
                    ==> old(self).spec_visits().count((a, b))->0 < usize::MAX,
        ensures
            final(self).wf(),
            final(self).spec_max() == old(self).spec_max(),
            match (from, to) {
                (Some(a), Some(b)) => if old(self).spec_visits().count((a, b)) is Some {
                    r == StrengthenOutcome::Changed && forall|e: BackEdge| #[trigger]
                        final(self).spec_visits().count(e) == if e == (a, b) {
                            Some((old(self).spec_visits().count((a, b))->0 + 1) as usize)
                        } else {
                            old(self).spec_visits().count(e)
                        }
                } else {
                    r == StrengthenOutcome::Unchanged && final(self).spec_visits()
                        == old(self).spec_visits()
                },
                _ => r == StrengthenOutcome::Unchanged && final(self).spec_visits() == old(
                    self,
                ).spec_visits(),
            },
    {
        match (from, to) {
            (Some(a), Some(b)) => {
                let edge = (a, b);
                if self.back_edge_visits.contains(&edge) {
                    self.increment_back_edge_count(edge);
                    StrengthenOutcome::Changed
                } else {
                    StrengthenOutcome::Unchanged
                }
            },
            _ => StrengthenOutcome::Unchanged,
        }
    }

    /// The successor of this state under any operation is itself: the counts
    /// change only by strengthening.
    pub fn transfer(&self) -> (r: Vec<Self>)
        ensures
            r@.len() == 1,
            r@[0].spec_visits().entries() == self.spec_visits().entries(),
            r@[0].spec_max() == self.spec_max(),
    {
        let mut v: Vec<Self> = Vec::new();
        v.push(self.duplicate());
        v
    }
}

impl PartialEq for BackEdgeVisitCountState {
    fn eq(&self, other: &Self) -> (r: bool) {
        self.same_visit_counts(other)
    }
}

impl PartialEqSpecImpl for BackEdgeVisitCountState {
    open spec fn obeys_eq_spec() -> bool {
        true
    }

    open spec fn eq_spec(&self, other: &Self) -> bool {
        self.spec_visits().entries() == other.spec_visits().entries()
    }
}

impl PartialOrd for BackEdgeVisitCountState {
    /// States are comparable only when they hold the same counts; then they
    /// are equal.
    fn partial_cmp(&self, other: &Self) -> (r: Option<Ordering>) {
        if self.same_visit_counts(other) {
            Some(Ordering::Equal)
        } else {
            None
        }
    }
}

impl PartialOrdSpecImpl for BackEdgeVisitCountState {
    open spec fn obeys_partial_cmp_spec() -> bool {
        true
    }

    open spec fn partial_cmp_spec(&self, other: &Self) -> Option<Ordering> {
        if self.spec_visits().entries() == other.spec_visits().entries() {
            Some(Ordering::Equal)
        } else {
            None
        }
    }
}

/// An analysis `A` whose states also count back-edge traversals, bounded by
/// `max`.
pub struct BoundedBackEdgeVisitAnalysis<A> {
    inner: A,
    back_edges: Vec<BackEdge>,
    max: usize,
}

impl<A> BoundedBackEdgeVisitAnalysis<A> {
    pub closed spec fn spec_inner(self) -> A {
        self.inner
    }

    pub closed spec fn spec_back_edges(self) -> Seq<BackEdge> {
        self.back_edges@
    }

    pub closed spec fn spec_max(self) -> usize {
        self.max
    }

    /// Wraps `inner`, bounding each of `back_edges` (as found by a back-edge
    /// analysis from the start address) to `max` traversals.
    pub fn new(inner: A, back_edges: Vec<BackEdge>, max: usize) -> (r: Self)
        ensures
            r.spec_inner() == inner,
            r.spec_back_edges() == back_edges@,
            r.spec_max() == max,
    {
        BoundedBackEdgeVisitAnalysis { inner, back_edges, max }
    }

    pub fn inner(&self) -> (r: &A)
        ensures
            *r == self.spec_inner(),
    {
        &self.inner
    }

    /// The initial state at `location`: every back-edge counted zero times.
    pub fn into_state<L>(&self, location: L) -> (r: cfg::BackEdgeVisitCountState<L>)
        ensures
            r.location == location,
            r.back_edge_visits.wf(),
            r.max == self.spec_max(),
            forall|e: BackEdge| #[trigger]
                r.back_edge_visits.count(e) == if self.spec_back_edges().contains(e) {
                    Some(0usize)
                } else {
                    None
                },
    {
        cfg::BackEdgeVisitCountState::new(location, &self.back_edges, self.max)
    }
}

} // verus!
