//! Back-edge visit counting layered over any analysis whose states know
//! their program location.
use crate::analysis::unwinding::counts::{BackEdge, BackEdgeCounts, bumped};
use crate::modeling::machine::cpu::concrete::{ConcretePcodeAddress, FlatLattice, flat_successors};
use crate::sleigh::PcodeOperation;
use vstd::prelude::*;
use vstd::std_specs::cmp::PartialEqSpecImpl;

verus! {

/// An analysis state that knows at which program location it stands.
pub trait LocationState: Sized {
    /// The location, if the state stands at one.
    spec fn spec_location(&self) -> Option<ConcretePcodeAddress>;

    /// The states that follow this one under `op`.
    spec fn spec_successors(&self, op: PcodeOperation) -> Seq<Self>;

    fn get_location(&self) -> (r: Option<ConcretePcodeAddress>)
        ensures
            r == self.spec_location(),
    ;

    fn transfer_location(&self, op: &PcodeOperation) -> (r: Vec<Self>)
        ensures
            r@ == self.spec_successors(*op),
    ;

    /// Whether the two states are the same.
    fn same_state(&self, other: &Self) -> (r: bool)
        ensures
            r == (*self == *other),
    ;
}

impl LocationState for FlatLattice<ConcretePcodeAddress> {
    open spec fn spec_location(&self) -> Option<ConcretePcodeAddress> {
        match *self {
            FlatLattice::Value(a) => Some(a),
            FlatLattice::Top => None,
        }
    }

    open spec fn spec_successors(&self, op: PcodeOperation) -> Seq<Self> {
        flat_successors(*self, op)
    }

    fn get_location(&self) -> (r: Option<ConcretePcodeAddress>) {
        match self {
            FlatLattice::Value(a) => Some(*a),
            FlatLattice::Top => None,
        }
    }

    fn transfer_location(&self, op: &PcodeOperation) -> (r: Vec<Self>) {
        self.transfer(op)
    }

    fn same_state(&self, other: &Self) -> (r: bool) {
        *self == *other
    }
}

/// A state of the location analysis `L`, with the number of times each
/// back-edge has been taken on the way to it, and the bound on those counts.
#[derive(Debug)]
pub struct BackEdgeVisitCountState<L> {
    pub location: L,
    pub back_edge_visits: BackEdgeCounts,
    pub max: usize,
}

impl<L: LocationState> BackEdgeVisitCountState<L> {
    /// Some back-edge has been taken at least `max` times.
    pub open spec fn spec_terminated(self) -> bool {
        exists|i: int|
            0 <= i < self.back_edge_visits.entries().len()
                && #[trigger] self.back_edge_visits.entries()[i].1 >= self.max
    }

    /// The counts after a step from location `from` to location `to`: the edge
    /// between them counts once more when it is a back-edge.
    pub open spec fn stepped_count(
        self,
        from: Option<ConcretePcodeAddress>,
        to: Option<ConcretePcodeAddress>,
        e: BackEdge,
    ) -> Option<usize> {
        match (from, to) {
            (Some(a), Some(b)) => if e == (a, b) {
                bumped(self.back_edge_visits.count(e))
            } else {
                self.back_edge_visits.count(e)
            },
            _ => self.back_edge_visits.count(e),
        }
    }
}

impl<L> BackEdgeVisitCountState<L> {
    /// The state at `location` with every edge of `back_edges` counted zero
    /// times.
    pub fn new(location: L, back_edges: &Vec<BackEdge>, max: usize) -> (r: Self)
        ensures
            r.location == location,
            r.back_edge_visits.wf(),
            r.max == max,
            forall|e: BackEdge| #[trigger]
                r.back_edge_visits.count(e) == if back_edges@.contains(e) {
                    Some(0usize)
                } else {
                    None
                },
    {
        BackEdgeVisitCountState { location, back_edge_visits: BackEdgeCounts::zeros(back_edges), max }
    }

    /// The counts, in edge order.
    pub fn back_edge_str(&self) -> (r: Vec<usize>)
        ensures
            r@ == self.back_edge_visits.counts_in_order(),
    {
        self.back_edge_visits.counts()
    }

    pub fn back_edge_count(&self, be: BackEdge) -> (r: Option<usize>)
        requires
            self.back_edge_visits.wf(),
        ensures
            r == self.back_edge_visits.count(be),
    {
        self.back_edge_visits.get(&be)
    }

    /// Counts one more traversal of `be`; an edge that is not a back-edge is
    /// ignored.
    pub fn increment_back_edge_count(&mut self, be: BackEdge)
        requires
            old(self).back_edge_visits.wf(),
            old(self).back_edge_visits.count(be) matches Some(c) ==> c < usize::MAX,
        ensures
            final(self).back_edge_visits.wf(),
            final(self).location == old(self).location,
            final(self).max == old(self).max,
            is_increment(old(self).back_edge_visits, final(self).back_edge_visits, be),
    {
        match self.back_edge_visits.get(&be) {
            Some(c) => {
                self.back_edge_visits.set(&be, c + 1);
            },
            None => {},
        }
    }

    pub fn terminated(&self) -> (r: bool)
        ensures
            r == exists|i: int|
                0 <= i < self.back_edge_visits.entries().len()
                    && #[trigger] self.back_edge_visits.entries()[i].1 >= self.max,
    {
        self.back_edge_visits.any_at_least(self.max)
    }

    /// Whether both hold the same counts for the same edges.
    pub fn same_visit_counts(&self, other: &Self) -> (r: bool)
        ensures
            r == (self.back_edge_visits.entries() == other.back_edge_visits.entries()),
    {
        self.back_edge_visits.same(&other.back_edge_visits)
    }

    pub fn max(&self) -> (r: usize)
        ensures
            r == self.max,
    {
        self.max
    }
}

impl<L: LocationState + Copy> BackEdgeVisitCountState<L> {
    /// The same location and edges, each counted the larger number of times
    /// of the two states (0 where `other` lacks the edge).
    pub fn partial_join(&self, other: &Self) -> (r: Option<Self>)
        requires
            self.back_edge_visits.wf(),
            other.back_edge_visits.wf(),
        ensures
            r matches Some(s) && s.location == self.location && s.max == self.max
                && s.back_edge_visits.wf() && s.back_edge_visits.entries()
                == self.back_edge_visits.spec_max_with(other.back_edge_visits),
    {
        Some(
            BackEdgeVisitCountState {
                location: self.location,
                back_edge_visits: self.back_edge_visits.max_with(&other.back_edge_visits),
                max: self.max,
            },
        )
    }

    /// Takes `other`'s count for each of this state's edges (0 where `other`
    /// lacks the edge).
    pub fn join(&mut self, other: &Self)
        requires
            old(self).back_edge_visits.wf(),
            other.back_edge_visits.wf(),
        ensures
            final(self).location == old(self).location,
            final(self).max == old(self).max,
            final(self).back_edge_visits.wf(),
            final(self).back_edge_visits.entries() == old(self).back_edge_visits.spec_take_from(
                other.back_edge_visits,
            ),
    {
        self.back_edge_visits = self.back_edge_visits.take_from(&other.back_edge_visits);
    }

    /// No successor once some back-edge reached the bound; otherwise one
    /// state per successor location of `L`, in order, where the step from the
    /// current location to the new one counts once more when it is a
    /// back-edge.
    pub fn transfer(&self, op: &PcodeOperation) -> (r: Vec<Self>)
        requires
            self.back_edge_visits.wf(),
        ensures
            self.spec_terminated() ==> r@.len() == 0,
            !self.spec_terminated() ==> r@.len() == self.location.spec_successors(*op).len(),
            !self.spec_terminated() ==> forall|i: int|
                0 <= i < r@.len() ==> {
                    &&& (#[trigger] r@[i]).location == self.location.spec_successors(*op)[i]
                    &&& r@[i].max == self.max
                    &&& r@[i].back_edge_visits.wf()
                    &&& forall|e: BackEdge| #[trigger]
                        r@[i].back_edge_visits.count(e) == self.stepped_count(
                            self.location.spec_location(),
                            r@[i].location.spec_location(),
                            e,
                        )
                },
    {
        let mut result: Vec<Self> = Vec::new();
        if self.terminated() {
            return result;
        }
        let succs = self.location.transfer_location(op);
        let from = self.location.get_location();
        let n = succs.len();
        let mut i: usize = 0;
        while i < n
            invariant
                n == succs@.len(),
                succs@ == self.location.spec_successors(*op),
                from == self.location.spec_location(),
                self.back_edge_visits.wf(),
                !self.spec_terminated(),
                i <= n,
                result@.len() == i,
                forall|k: int|
                    0 <= k < i ==> {
                        &&& (#[trigger] result@[k]).location == succs@[k]
                        &&& result@[k].max == self.max
                        &&& result@[k].back_edge_visits.wf()
                        &&& forall|e: BackEdge| #[trigger]
                            result@[k].back_edge_visits.count(e) == self.stepped_count(
                                from,
                                result@[k].location.spec_location(),
                                e,
                            )
                    },
            decreases n - i,
        {
            let new_location = succs[i];
            let mut new_state = BackEdgeVisitCountState {
                location: new_location,
                back_edge_visits: self.back_edge_visits.duplicate(),
                max: self.max,
            };
            let to = new_location.get_location();
            match (from, to) {
                (Some(a), Some(b)) => {
                    let edge = (a, b);
                    if new_state.back_edge_visits.contains(&edge) {
                        proof {
                            let c = self.back_edge_visits.count(edge)->0;
                            let k = crate::analysis::unwinding::counts::index_of_edge(
                                self.back_edge_visits.entries(),
                                edge,
                            );
                            assert(self.back_edge_visits.entries()[k].1 < self.max);
                        }
                        new_state.increment_back_edge_count(edge);
                    }
                },
                _ => {},
            }
            result.push(new_state);
            i += 1;
        }
        result
    }
}

impl<L: LocationState> PartialEq for BackEdgeVisitCountState<L> {
    fn eq(&self, other: &Self) -> (r: bool) {
        self.location.same_state(&other.location) && self.same_visit_counts(other)
    }
}

impl<L: LocationState> PartialEqSpecImpl for BackEdgeVisitCountState<L> {
    open spec fn obeys_eq_spec() -> bool {
        true
    }

    open spec fn eq_spec(&self, other: &Self) -> bool {
        self.location == other.location && self.back_edge_visits.entries()
            == other.back_edge_visits.entries()
    }
}

/// `after` holds the counts of `before` with `be` counted once more, as
/// `increment_back_edge_count` leaves them.
pub open spec fn is_increment(before: BackEdgeCounts, after: BackEdgeCounts, be: BackEdge) -> bool {
    forall|e: BackEdge| #[trigger] after.count(e) == if e == be {
        bumped(before.count(be))
    } else {
        before.count(e)
    }
}

/// How many times `e` occurs in `edges`.
pub open spec fn occurrences(edges: Seq<BackEdge>, e: BackEdge) -> nat
    decreases edges.len(),
{
    if edges.len() == 0 {
        0
    } else {
        occurrences(edges.drop_last(), e) + if edges.last() == e { 1nat } else { 0nat }
    }
}

/// Increments count, whatever their order: after increments of the edges
/// `edges`, in order and in any interleaving, each as
/// `increment_back_edge_count` makes it, every counted edge has grown by the
/// number of its increments (so an edge that started at 0 and was
/// incremented `k` times is counted `k` times), and an edge that was not
/// tracked is still not tracked, however often it was incremented.
pub proof fn lemma_increments(states: Seq<BackEdgeCounts>, edges: Seq<BackEdge>)
    requires
        states.len() == edges.len() + 1,
        forall|i: int| 0 <= i < edges.len() ==> #[trigger] is_increment(states[i], states[i + 1], edges[i]),
        forall|e: BackEdge| #[trigger] states[0].count(e) matches Some(n) ==> n + occurrences(edges, e) <= usize::MAX,
    ensures
        forall|e: BackEdge| #[trigger] states.last().count(e) == match states[0].count(e) {
            Some(n) => Some((n + occurrences(edges, e)) as usize),
            None => None,
        },
    decreases edges.len(),
{
    if edges.len() > 0 {
        let p = states.drop_last();
        let q = edges.drop_last();
        assert forall|i: int| 0 <= i < q.len() implies #[trigger] is_increment(p[i], p[i + 1], q[i]) by {
            assert(p[i] == states[i] && p[i + 1] == states[i + 1] && q[i] == edges[i]);
            assert(is_increment(states[i], states[i + 1], edges[i]));
        }
        assert(p[0] == states[0]);
        assert forall|e: BackEdge| (#[trigger] p[0].count(e) matches Some(n) ==> n + occurrences(q, e) <= usize::MAX) by {
            assert(states[0].count(e) matches Some(n) ==> n + occurrences(edges, e) <= usize::MAX);
        }
        lemma_increments(p, q);
        let k = edges.len() - 1;
        assert(is_increment(states[k], states[k + 1], edges[k]));
        assert(p.last() == states[k]);
        assert(states.last() == states[k + 1]);
        assert forall|e: BackEdge| #[trigger] states.last().count(e) == match states[0].count(e) {
            Some(n) => Some((n + occurrences(edges, e)) as usize),
            None => None,
        } by {
            assert(p.last().count(e) == match p[0].count(e) {
                Some(n) => Some((n + occurrences(q, e)) as usize),
                None => None,
            });
            assert(states[0].count(e) matches Some(n) ==> n + occurrences(edges, e) <= usize::MAX);
        }
    }
}

} // verus!
