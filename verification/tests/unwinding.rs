use jingle::analysis::unwinding::cfg::BackEdgeVisitCountState as LocatedVisitCounts;
use jingle::analysis::unwinding::counts::{BackEdge, BackEdgeCounts};
use jingle::analysis::unwinding::{
    BackEdgeVisitCountState, BoundedBackEdgeVisitAnalysis, StrengthenOutcome, UnwoundLocation,
};
use jingle::analysis::unwinding2::{BackEdgeCountCPA, BackEdgeCountState, EmptyBackEdgeReducer, UnwindExt};
use jingle::modeling::machine::cpu::concrete::{ConcretePcodeAddress, FlatLattice};
use jingle::sleigh::{PcodeOperation, VarNode};

fn addr(machine: u64, pcode: u8) -> ConcretePcodeAddress {
    ConcretePcodeAddress { machine, pcode }
}

fn edges() -> Vec<BackEdge> {
    vec![
        (addr(0x20, 0), addr(0x10, 0)),
        (addr(0x08, 1), addr(0x04, 0)),
        (addr(0x20, 0), addr(0x10, 0)),
    ]
}

#[test]
fn visit_counts_start_at_zero_in_edge_order() {
    let s = BackEdgeVisitCountState::new(&edges(), 2);
    assert_eq!(s.back_edge_str(), vec![0, 0]);
    assert_eq!(s.back_edge_count((addr(0x08, 1), addr(0x04, 0))), Some(0));
    assert_eq!(s.back_edge_count((addr(0x10, 0), addr(0x20, 0))), None);
    assert_eq!(s.max(), 2);
    assert!(!s.terminated());
}

#[test]
fn visit_counts_increment_and_terminate() {
    let mut s = BackEdgeVisitCountState::new(&edges(), 2);
    let e = (addr(0x20, 0), addr(0x10, 0));
    s.increment_back_edge_count(e);
    assert_eq!(s.back_edge_str(), vec![0, 1]);
    assert!(!s.terminated());
    s.increment_back_edge_count(e);
    assert_eq!(s.back_edge_count(e), Some(2));
    assert!(s.terminated());
    // not a back-edge: ignored
    s.increment_back_edge_count((addr(1, 0), addr(2, 0)));
    assert_eq!(s.back_edge_str(), vec![0, 2]);
}

#[test]
fn visit_counts_strengthen_only_on_back_edges() {
    let mut s = BackEdgeVisitCountState::new(&edges(), 5);
    assert_eq!(
        s.strengthen(Some(addr(0x08, 1)), Some(addr(0x04, 0))),
        StrengthenOutcome::Changed
    );
    assert_eq!(
        s.strengthen(Some(addr(0x04, 0)), Some(addr(0x08, 1))),
        StrengthenOutcome::Unchanged
    );
    assert_eq!(s.strengthen(None, Some(addr(0x04, 0))), StrengthenOutcome::Unchanged);
    assert_eq!(s.back_edge_str(), vec![1, 0]);
}

#[test]
fn visit_counts_join_and_partial_join() {
    let e1 = (addr(0x08, 1), addr(0x04, 0));
    let e2 = (addr(0x20, 0), addr(0x10, 0));
    let mut a = BackEdgeVisitCountState::new(&edges(), 9);
    a.increment_back_edge_count(e1);
    a.increment_back_edge_count(e1);
    let mut b = BackEdgeVisitCountState::new(&vec![e2], 9);
    b.increment_back_edge_count(e2);
    let j = a.partial_join(&b).unwrap();
    assert_eq!(j.back_edge_str(), vec![2, 1]);
    a.join(&b);
    assert_eq!(a.back_edge_str(), vec![0, 1]);
    assert!(a != b);
    assert!(a.partial_cmp(&b).is_none());
    let c = a.partial_join(&a).unwrap();
    assert!(c == a);
    assert_eq!(a.partial_cmp(&c), Some(std::cmp::Ordering::Equal));
    assert!(a.same_visit_counts(&c));
    assert_eq!(a.transfer().len(), 1);
}

#[test]
fn unwound_location_from_state() {
    let mut s = BackEdgeVisitCountState::new(&edges(), 1);
    let here = addr(0x10, 0);
    let l = UnwoundLocation::from_cpa_state(&s, here, 1);
    assert_eq!(l, UnwoundLocation::Location(vec![0, 0], FlatLattice::Value(here)));
    assert_eq!(l.location(), Some(here));
    assert!(!l.is_unwind_error());
    assert!(l.eq_address(&here));
    s.increment_back_edge_count((addr(0x20, 0), addr(0x10, 0)));
    let stop = UnwoundLocation::from_cpa_state(&s, here, 1);
    assert_eq!(stop, UnwoundLocation::UnwindError(here));
    assert!(stop.is_unwind_error());
    assert_eq!(UnwoundLocation::Location(vec![], FlatLattice::Top).location(), None);
}

#[test]
fn located_counts_transfer_counts_back_edges() {
    let loop_edge = (addr(0x40, 0), addr(0x10, 0));
    let s = LocatedVisitCounts::new(FlatLattice::Value(addr(0x40, 0)), &vec![loop_edge], 2);
    let jump = PcodeOperation::Branch { input: VarNode::new(0x10, 8, 1) };
    let next = s.transfer(&jump);
    assert_eq!(next.len(), 1);
    assert_eq!(next[0].location, FlatLattice::Value(addr(0x10, 0)));
    assert_eq!(next[0].back_edge_str(), vec![1]);
    let stay = PcodeOperation::Copy {
        input: VarNode::new(0x0, 8, 2),
        output: VarNode::new(0x8, 8, 2),
    };
    let after = next[0].transfer(&stay);
    assert_eq!(after[0].back_edge_str(), vec![1]);
    assert_eq!(after[0].location, FlatLattice::Value(addr(0x10, 1)));
    let mut done = LocatedVisitCounts::new(FlatLattice::Value(addr(0x40, 0)), &vec![loop_edge], 1);
    done.increment_back_edge_count(loop_edge);
    assert!(done.terminated());
    assert!(done.transfer(&jump).is_empty());
}

#[test]
fn bounded_analysis_initial_state() {
    let analysis = BoundedBackEdgeVisitAnalysis::new(7u32, edges(), 3);
    assert_eq!(*analysis.inner(), 7);
    let st = analysis.into_state(FlatLattice::Value(addr(0, 0)));
    assert_eq!(st.back_edge_str(), vec![0, 0]);
    assert_eq!(st.max(), 3);
}

#[test]
fn back_edge_count_state_moves_and_counts() {
    let cpa = BackEdgeCountCPA::new(2);
    let s = cpa.into_state(addr(0x10, 0));
    let s = s.move_to(addr(0x14, 0));
    assert!(!s.terminated());
    let s = s.move_to(addr(0x10, 0));
    assert!(!s.terminated());
    let s = s.move_to(addr(0x14, 0));
    let s = s.move_to(addr(0x10, 0));
    assert!(s.terminated());
    assert!(s.transfer().is_empty());
}

#[test]
fn back_edge_count_state_strengthen_and_join() {
    let mut s = BackEdgeCountState::with_location(addr(1, 0), 10);
    assert_eq!(s.strengthen(Some(addr(1, 0))), StrengthenOutcome::Unchanged);
    assert_eq!(s.strengthen(None), StrengthenOutcome::Unchanged);
    assert_eq!(s.strengthen(Some(addr(2, 0))), StrengthenOutcome::Changed);
    let before = s.move_to(addr(2, 0));
    let mut t = BackEdgeCountState::with_location(addr(2, 0), 10);
    t.join(&before);
    assert_eq!(t.partial_cmp(&before), Some(std::cmp::Ordering::Equal));
    assert_eq!(s.transfer().len(), 1);
}

#[test]
fn unwind_pairs_analysis_with_bound() {
    let (cpa, inner) = 5u8.unwind(4);
    assert_eq!(inner, 5);
    assert_eq!(cpa, BackEdgeCountCPA::new(4));
    let reducer = EmptyBackEdgeReducer::new();
    reducer.finalize();
}

#[test]
fn counts_join_is_pointwise_max_both_ways() {
    let es = edges();
    let mut a = BackEdgeCounts::new();
    let mut b = BackEdgeCounts::new();
    a.set(&es[0], 3);
    a.set(&es[1], 1);
    b.set(&es[1], 4);
    let mut ab = a.duplicate();
    ab.join_max(&b);
    let mut ba = b.duplicate();
    ba.join_max(&a);
    for e in es.iter().take(2) {
        assert_eq!(ab.get(e), ba.get(e));
    }
    assert_eq!(ab.get(&es[0]), Some(3));
    assert_eq!(ab.get(&es[1]), Some(4));
    let mut aa = a.duplicate();
    aa.join_max(&a);
    assert_eq!(aa.get(&es[0]), Some(3));
    assert_eq!(aa.get(&es[1]), Some(1));
}

#[test]
fn repeated_increments_count_each_one() {
    let mut s = BackEdgeVisitCountState::new(&edges(), 100);
    let e = (addr(0x08, 1), addr(0x04, 0));
    let untracked = (addr(0x30, 0), addr(0x31, 0));
    for _ in 0..7 {
        s.increment_back_edge_count(e);
        s.increment_back_edge_count(untracked);
    }
    assert_eq!(s.back_edge_count(e), Some(7));
    assert_eq!(s.back_edge_count(untracked), None);
    assert_eq!(s.back_edge_count((addr(0x20, 0), addr(0x10, 0))), Some(0));
}

#[test]
fn interleaved_increments_count_each_edge() {
    let mut s = BackEdgeVisitCountState::new(&edges(), 100);
    let a = (addr(0x08, 1), addr(0x04, 0));
    let b = (addr(0x20, 0), addr(0x10, 0));
    let untracked = (addr(0x30, 0), addr(0x31, 0));
    for i in 0..9 {
        if i % 3 == 0 {
            s.increment_back_edge_count(b);
        }
        s.increment_back_edge_count(untracked);
        s.increment_back_edge_count(a);
    }
    assert_eq!(s.back_edge_count(a), Some(9));
    assert_eq!(s.back_edge_count(b), Some(3));
    assert_eq!(s.back_edge_count(untracked), None);
}
