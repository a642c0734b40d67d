use jingle::analysis::structuring::graph::IndexGraph;
use jingle::modeling::machine::cpu::concrete::ConcretePcodeAddress;
use jingle::analysis::structuring::{
    StructuredCfg, StructuringError, check_reducibility, compute_sccs, flatten, natural_loop_body,
};

fn graph(n: usize, edges: &[(usize, usize)]) -> IndexGraph {
    IndexGraph::from_edges(n, &edges.to_vec())
}

fn sorted(mut comps: Vec<Vec<usize>>) -> Vec<Vec<usize>> {
    comps.sort();
    comps
}

#[test]
fn sccs_of_a_line_are_single_nodes() {
    let g = graph(3, &[(0, 1), (1, 2)]);
    assert_eq!(sorted(compute_sccs(&g)), vec![vec![0], vec![1], vec![2]]);
}

#[test]
fn sccs_of_a_natural_loop() {
    // A→B, B→C, C→B, C→D
    let g = graph(4, &[(0, 1), (1, 2), (2, 1), (2, 3)]);
    assert_eq!(sorted(compute_sccs(&g)), vec![vec![0], vec![1, 2], vec![3]]);
}

#[test]
fn sccs_of_an_empty_graph() {
    let g = graph(0, &[]);
    assert!(compute_sccs(&g).is_empty());
}

#[test]
fn sccs_of_a_nested_cycle() {
    let g = graph(5, &[(0, 1), (1, 2), (2, 3), (3, 1), (3, 4), (4, 0)]);
    assert_eq!(sorted(compute_sccs(&g)), vec![vec![0, 1, 2, 3, 4]]);
}

#[test]
fn natural_loop_is_reducible() {
    let g = graph(4, &[(0, 1), (1, 2), (2, 1), (2, 3)]);
    assert_eq!(check_reducibility(&g), Ok(()));
}

#[test]
fn diamond_is_reducible() {
    let g = graph(4, &[(0, 1), (0, 2), (1, 3), (2, 3)]);
    assert_eq!(check_reducibility(&g), Ok(()));
}

#[test]
fn two_entry_cycle_is_irreducible() {
    // A→B, A→C, B→C, C→B
    let g = graph(3, &[(0, 1), (0, 2), (1, 2), (2, 1)]);
    assert_eq!(check_reducibility(&g), Err(StructuringError::Irreducible));
}

#[test]
fn cycle_without_entry_is_reducible() {
    let g = graph(2, &[(0, 1), (1, 0)]);
    assert_eq!(check_reducibility(&g), Ok(()));
}

#[test]
fn structuring_error_messages() {
    assert_eq!(StructuringError::Irreducible.message(), "irreducible control flow");
    assert_eq!(StructuringError::Empty.message(), "empty CFG");
}

#[test]
fn flatten_splices_sequences() {
    let inner = StructuredCfg::Sequence(vec![StructuredCfg::Block(1u32), StructuredCfg::Block(2)]);
    let r = flatten(vec![StructuredCfg::Block(0u32), inner, StructuredCfg::Block(3)]);
    let StructuredCfg::Sequence(items) = r else {
        panic!("expected a sequence");
    };
    assert_eq!(items.len(), 4);
    for (i, item) in items.iter().enumerate() {
        assert!(matches!(item, StructuredCfg::Block(n) if *n as usize == i));
    }
}

#[test]
fn flatten_single_part_stands_alone() {
    let r = flatten(vec![StructuredCfg::Block(7u32), StructuredCfg::Sequence(vec![])]);
    assert!(matches!(r, StructuredCfg::Block(7)));
}

#[test]
fn flatten_nothing_is_empty_sequence() {
    let r: StructuredCfg<u32> = flatten(vec![]);
    assert!(matches!(r, StructuredCfg::Sequence(ref v) if v.is_empty()));
}

#[test]
fn graph_lists_edges() {
    let g = graph(3, &[(0, 1), (0, 2), (2, 1)]);
    assert_eq!(g.node_count(), 3);
    assert_eq!(g.successors(0), &vec![1, 2]);
    assert_eq!(g.predecessors(1), &vec![0, 2]);
    assert!(g.reach_set(0, true).iter().all(|b| *b));
    assert_eq!(g.reach_set(1, false), vec![true, true, true]);
    assert_eq!(g.reach_set(1, true), vec![false, true, false]);
}

fn n(m: u64) -> ConcretePcodeAddress {
    ConcretePcodeAddress { machine: m, pcode: 0 }
}

#[test]
fn text_of_a_sequence() {
    let cfg = StructuredCfg::Sequence(vec![StructuredCfg::Block(n(0)), StructuredCfg::Block(n(1))]);
    assert_eq!(cfg.to_string(), "block(0:0)\nblock(1:0)\n");
}

#[test]
fn text_of_an_if_else() {
    let cfg = StructuredCfg::Sequence(vec![
        StructuredCfg::IfElse {
            header: n(0),
            then_branch: Box::new(StructuredCfg::Block(n(1))),
            else_branch: Box::new(StructuredCfg::Block(n(2))),
        },
        StructuredCfg::Block(n(3)),
    ]);
    let s = cfg.to_string();
    assert!(s.contains("if 0:0 {"), "missing if header: {s}");
    assert!(s.contains("  block(1:0)"), "missing then-branch: {s}");
    assert!(s.contains("} else {"), "missing else: {s}");
    assert!(s.contains("  block(2:0)"), "missing else-branch: {s}");
    assert!(s.contains("block(3:0)"), "missing merge: {s}");
    assert_eq!(s, "if 0:0 {\n  block(1:0)\n} else {\n  block(2:0)\n}\nblock(3:0)\n");
}

#[test]
fn text_of_a_loop() {
    let cfg = StructuredCfg::Sequence(vec![
        StructuredCfg::Block(n(0)),
        StructuredCfg::Loop {
            header: n(1),
            body: Box::new(StructuredCfg::Block(n(2))),
        },
        StructuredCfg::Block(n(3)),
    ]);
    assert_eq!(cfg.to_string(), "block(0:0)\nloop 1:0 {\n  block(2:0)\n}\nblock(3:0)\n");
}

#[test]
fn text_of_index_nodes() {
    let cfg = StructuredCfg::Loop {
        header: 4usize,
        body: Box::new(StructuredCfg::Loop {
            header: 5usize,
            body: Box::new(StructuredCfg::Block(6usize)),
        }),
    };
    assert_eq!(cfg.to_string(), "loop 4 {\n  loop 5 {\n    block(6)\n  }\n}\n");
}

/// A dominance matrix from, for each node, the nodes that dominate it.
fn dominance(n: usize, dominators_of: &[&[usize]]) -> Vec<Vec<bool>> {
    let mut dom = vec![vec![false; n]; n];
    for (b, ds) in dominators_of.iter().enumerate() {
        for a in ds.iter() {
            dom[*a][b] = true;
        }
    }
    dom
}

#[test]
fn natural_loop_body_of_a_simple_loop() {
    // A→B, B→C, C→B, C→D; header B, latch C.
    let g = graph(4, &[(0, 1), (1, 2), (2, 1), (2, 3)]);
    let dom = dominance(4, &[&[0], &[0, 1], &[0, 1, 2], &[0, 1, 2, 3]]);
    assert_eq!(
        natural_loop_body(1, &vec![2], &g, &dom),
        vec![false, true, true, false]
    );
}

#[test]
fn natural_loop_body_with_a_branch_inside() {
    let g = graph(
        7,
        &[(0, 1), (1, 2), (1, 6), (2, 3), (2, 4), (3, 5), (4, 5), (5, 1)],
    );
    let dom = dominance(
        7,
        &[
            &[0],
            &[0, 1],
            &[0, 1, 2],
            &[0, 1, 2, 3],
            &[0, 1, 2, 4],
            &[0, 1, 2, 5],
            &[0, 1, 6],
        ],
    );
    assert_eq!(
        natural_loop_body(1, &vec![5], &g, &dom),
        vec![false, true, true, true, true, true, false]
    );
}

#[test]
fn natural_loop_body_stops_at_undominated_nodes() {
    // 0→1, 1→2, 2→1, 3→2: node 3 is not dominated by the header 1.
    let g = graph(4, &[(0, 1), (1, 2), (2, 1), (3, 2)]);
    let dom = dominance(4, &[&[0], &[1], &[2], &[3]]);
    let body = natural_loop_body(1, &vec![2], &g, &dom);
    assert_eq!(body, vec![false, true, true, false]);
}
