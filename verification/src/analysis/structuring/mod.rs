//! Control-flow graph analyses used for structuring: strongly connected
//! components, reducibility checks and natural loop bodies, and the
//! representation of structured control flow (blocks, sequences, two-way
//! branches and loops).
pub mod graph;
pub mod text;

use crate::analysis::structuring::graph::{
    IndexGraph, count_true, dir_reach, lemma_count_le, lemma_count_update, lemma_count_zero,
    lemma_reach_refl, lemma_reach_reverse, lemma_reach_trans, mutual,
};
use vstd::prelude::*;

verus! {

/// Structured control flow over nodes of type `N`.
#[derive(Debug)]
pub enum StructuredCfg<N> {
    Block(N),
    Sequence(Vec<StructuredCfg<N>>),
    IfElse { header: N, then_branch: Box<StructuredCfg<N>>, else_branch: Box<StructuredCfg<N>> },
    Loop { header: N, body: Box<StructuredCfg<N>> },
}

/// Why a graph could not be structured.
#[derive(Debug, Clone, Copy, PartialEq, Eq, Structural)]
pub enum StructuringError {
    /// The control flow is irreducible.
    Irreducible,
    /// The graph has no entry.
    Empty,
}

impl StructuringError {
    /// The error's message.
    pub fn message(&self) -> (r: &'static str)
        ensures
            r@ == match *self {
                StructuringError::Irreducible => "irreducible control flow"@,
                StructuringError::Empty => "empty CFG"@,
            },
    {
        match self {
            StructuringError::Irreducible => "irreducible control flow",
            StructuringError::Empty => "empty CFG",
        }
    }
}

/// What an item contributes to a flattened sequence: a sequence its items,
/// anything else itself.
pub open spec fn flat_parts<N>(item: StructuredCfg<N>) -> Seq<StructuredCfg<N>> {
    match item {
        StructuredCfg::Sequence(inner) => inner@,
        other => seq![other],
    }
}

/// The parts of a list of items, in order.
pub open spec fn flat_all<N>(items: Seq<StructuredCfg<N>>) -> Seq<StructuredCfg<N>>
    decreases items.len(),
{
    if items.len() == 0 {
        Seq::empty()
    } else {
        flat_all(items.drop_last()) + flat_parts(items.last())
    }
}

/// Joins items into one: nested sequences are spliced in; a single part
/// stands alone; otherwise the parts form a sequence.
pub fn flatten<N>(items: Vec<StructuredCfg<N>>) -> (r: StructuredCfg<N>)
    ensures
        flat_all(items@).len() == 1 ==> r == flat_all(items@)[0],
        flat_all(items@).len() != 1 ==> (r matches StructuredCfg::Sequence(v) && v@ == flat_all(
            items@,
        )),
{
    let total = items.len();
    let ghost all = items@;
    let ghost n = all.len();
    let mut result: Vec<StructuredCfg<N>> = Vec::new();
    let mut rest = items;
    let mut i: usize = 0;
    while rest.len() > 0
        invariant
            n == all.len(),
            n == total,
            i + rest@.len() == n,
            rest@ == all.subrange(i as int, n as int),
            result@ == flat_all(all.subrange(0, i as int)),
        decreases rest@.len(),
    {
        let item = rest.remove(0);
        proof {
            assert(item == all[i as int]);
            assert(all.subrange(0, i + 1).drop_last() =~= all.subrange(0, i as int));
            assert(rest@ =~= all.subrange(i + 1, n as int));
        }
        let ghost res0 = result@;
        match item {
            StructuredCfg::Sequence(inner) => {
                let mut inner = inner;
                result.append(&mut inner);
            },
            other => {
                result.push(other);
            },
        }
        proof {
            assert(result@ =~= res0 + flat_parts(all[i as int]));
        }
        i += 1;
    }
    proof {
        assert(all.subrange(0, n as int) =~= all);
    }
    if result.len() == 1 {
        result.pop().unwrap()
    } else {
        StructuredCfg::Sequence(result)
    }
}

/// Some component holds `u`.
pub open spec fn in_some(comps: Seq<Vec<usize>>, u: usize) -> bool {
    exists|c: int| 0 <= c < comps.len() && #[trigger] comps[c]@.contains(u)
}

/// The components are the strongly connected components of `g`: every node
/// lies in exactly one; two nodes share one exactly when each reaches the
/// other; each lists its nodes once, in increasing order.
pub open spec fn are_sccs(g: IndexGraph, comps: Seq<Vec<usize>>) -> bool {
    &&& forall|c: int| 0 <= c < comps.len() ==> (#[trigger] comps[c])@.len() > 0
    &&& forall|c: int, i: int, j: int|
        0 <= c < comps.len() && 0 <= i < j < comps[c]@.len() ==> (#[trigger] comps[c]@[i]) < #[trigger] comps[c]@[j]
    &&& forall|c: int, i: int| 0 <= c < comps.len() && 0 <= i < comps[c]@.len() ==> #[trigger] comps[c]@[i] < g.spec_n()
    &&& forall|u: usize| u < g.spec_n() ==> #[trigger] in_some(comps, u)
    &&& forall|c1: int, c2: int, u: usize|
        0 <= c1 < comps.len() && 0 <= c2 < comps.len() && #[trigger] comps[c1]@.contains(u) && #[trigger] comps[c2]@.contains(u)
            ==> c1 == c2
    &&& forall|c: int, u: usize, w: usize|
        0 <= c < comps.len() && #[trigger] comps[c]@.contains(u) && #[trigger] comps[c]@.contains(w) ==> mutual(g, u as int, w as int)
    &&& forall|c: int, u: usize, w: usize|
        0 <= c < comps.len() && #[trigger] comps[c]@.contains(u) && w < g.spec_n() && #[trigger] mutual(g, u as int, w as int)
            ==> comps[c]@.contains(w)
}

proof fn lemma_mutual_trans(g: IndexGraph, a: int, b: int, c: int)
    requires
        mutual(g, a, b),
        mutual(g, b, c),
    ensures
        mutual(g, a, c),
        mutual(g, c, a),
{
    lemma_reach_trans(g, true, a, b, c);
    lemma_reach_trans(g, true, c, b, a);
}

/// The strongly connected components of `g`, those of lower nodes first.
pub fn compute_sccs(g: &IndexGraph) -> (r: Vec<Vec<usize>>)
    requires
        g.wf(),
    ensures
        are_sccs(*g, r@),
{
    let n = g.node_count();
    let mut assigned: Vec<bool> = Vec::new();
    let mut i: usize = 0;
    while i < n
        invariant
            i <= n,
            assigned@.len() == i,
            forall|k: int| 0 <= k < i ==> !(#[trigger] assigned@[k]),
        decreases n - i,
    {
        assigned.push(false);
        i += 1;
    }
    let mut comps: Vec<Vec<usize>> = Vec::new();
    let ghost mut roots: Seq<int> = Seq::empty();
    let mut v: usize = 0;
    while v < n
        invariant
            g.wf(),
            n == g.spec_n(),
            v <= n,
            assigned@.len() == n,
            comps@.len() == roots.len(),
            forall|c: int| 0 <= c < roots.len() ==> 0 <= #[trigger] roots[c] < n,
            forall|c: int| 0 <= c < comps@.len() ==> (#[trigger] comps@[c])@.len() > 0,
            forall|c: int, i: int, j: int|
                0 <= c < comps@.len() && 0 <= i < j < comps@[c]@.len() ==> (#[trigger] comps@[c]@[i])
                    < #[trigger] comps@[c]@[j],
            forall|c: int, i: int|
                0 <= c < comps@.len() && 0 <= i < comps@[c]@.len() ==> #[trigger] comps@[c]@[i] < n,
            forall|c: int, u: usize|
                0 <= c < comps@.len() ==> (#[trigger] comps@[c]@.contains(u) <==> (u < n && mutual(
                    *g,
                    roots[c],
                    u as int,
                ))),
            forall|c: int, u: usize| 0 <= c < comps@.len() && #[trigger] comps@[c]@.contains(u) ==> assigned@[u as int],
            forall|u: usize| u < n && #[trigger] assigned@[u as int] ==> in_some(comps@, u),
            forall|c1: int, c2: int|
                0 <= c1 < roots.len() && 0 <= c2 < roots.len() && c1 != c2 ==> !mutual(*g, #[trigger] roots[c1], #[trigger] roots[c2]),
            forall|u: int| 0 <= u < v ==> #[trigger] assigned@[u],
        decreases n - v,
    {
        if !assigned[v] {
            let fw = g.reach_set(v, true);
            let bw = g.reach_set(v, false);
            proof {
                assert forall|c: int| 0 <= c < roots.len() implies !mutual(*g, #[trigger] roots[c], v as int) by {
                    if mutual(*g, roots[c], v as int) {
                        assert(comps@[c]@.contains(v));
                    }
                }
            }
            let mut comp: Vec<usize> = Vec::new();
            let ghost a0 = assigned@;
            let mut u: usize = 0;
            while u < n
                invariant
                    g.wf(),
                    n == g.spec_n(),
                    v < n,
                    u <= n,
                    fw@.len() == n,
                    bw@.len() == n,
                    forall|w: int| 0 <= w < n ==> (fw@[w] <==> dir_reach(*g, true, v as int, w)),
                    forall|w: int| 0 <= w < n ==> (bw@[w] <==> dir_reach(*g, false, v as int, w)),
                    assigned@.len() == n,
                    forall|i: int, j: int| 0 <= i < j < comp@.len() ==> (#[trigger] comp@[i]) < #[trigger] comp@[j],
                    forall|i: int| 0 <= i < comp@.len() ==> #[trigger] comp@[i] < u,
                    forall|w: usize| #[trigger] comp@.contains(w) <==> (w < u && fw@[w as int] && bw@[w as int]),
                    forall|w: int| 0 <= w < n ==> (#[trigger] assigned@[w] <==> (a0[w] || comp@.contains(w as usize))),
                decreases n - u,
            {
                if fw[u] && bw[u] {
                    let ghost c0 = comp@;
                    assert(forall|w: usize| #[trigger] c0.contains(w) <==> (w < u && fw@[w as int] && bw@[w as int]));
                    comp.push(u);
                    assigned.set(u, true);
                    proof {
                        assert(comp@ =~= c0.push(u));
                        assert forall|w: usize| #[trigger] comp@.contains(w) <==> (w < u + 1 && fw@[w as int] && bw@[w as int]) by {
                            broadcast use vstd::seq_lib::group_seq_properties;

                            assert(comp@.contains(w) <==> (c0.contains(w) || w == u));
                            assert(c0.contains(w) <==> (w < u && fw@[w as int] && bw@[w as int]));
                        }
                    }
                }
                u += 1;
            }
            proof {
                lemma_reach_refl(*g, true, v as int);
                lemma_reach_refl(*g, false, v as int);
                lemma_reach_reverse(*g, v as int, v as int);
                assert(comp@.contains(v));
                assert forall|w: usize| #[trigger] comp@.contains(w) <==> (w < n && mutual(*g, v as int, w as int)) by {
                    if w < n {
                        lemma_reach_reverse(*g, v as int, w as int);
                    }
                }
            }
            let ghost cs0 = comps@;
            comps.push(comp);
            proof {
                roots = roots.push(v as int);
                assert forall|u: usize| u < n && #[trigger] assigned@[u as int] implies in_some(comps@, u) by {
                    if a0[u as int] {
                        let c = choose|c: int| 0 <= c < cs0.len() && #[trigger] cs0[c]@.contains(u);
                        assert(comps@[c] == cs0[c]);
                        assert(comps@[c]@.contains(u));
                    } else {
                        assert(comps@[cs0.len() as int]@.contains(u));
                    }
                }
                assert forall|c: int, u: usize| 0 <= c < comps@.len() && #[trigger] comps@[c]@.contains(u) implies assigned@[u as int] by {
                    if c < cs0.len() {
                        assert(comps@[c] == cs0[c]);
                    }
                }
                assert forall|c: int, u: usize|
                    0 <= c < comps@.len() implies (#[trigger] comps@[c]@.contains(u) <==> (u < n && mutual(
                        *g,
                        roots[c],
                        u as int,
                    ))) by {
                    if c < cs0.len() {
                        assert(comps@[c] == cs0[c]);
                    }
                }
                assert forall|c1: int, c2: int|
                    0 <= c1 < roots.len() && 0 <= c2 < roots.len() && c1 != c2 implies !mutual(*g, #[trigger] roots[c1], #[trigger] roots[c2]) by {
                    if c2 == cs0.len() {
                        assert(!mutual(*g, roots[c1], v as int));
                    } else if c1 == cs0.len() {
                        assert(!mutual(*g, roots[c2], v as int));
                    }
                }
            }
        }
        v += 1;
    }
    proof {
        let cs = comps@;
        assert forall|u: usize| u < n implies #[trigger] in_some(cs, u) by {
            assert(assigned@[u as int]);
        }
        assert forall|c1: int, c2: int, u: usize|
            0 <= c1 < cs.len() && 0 <= c2 < cs.len() && #[trigger] cs[c1]@.contains(u) && #[trigger] cs[c2]@.contains(u)
                implies c1 == c2 by {
            if c1 != c2 {
                lemma_mutual_trans(*g, roots[c1], u as int, roots[c2]);
            }
        }
        assert forall|c: int, u: usize, w: usize|
            0 <= c < cs.len() && #[trigger] cs[c]@.contains(u) && #[trigger] cs[c]@.contains(w) implies mutual(*g, u as int, w as int) by {
            lemma_mutual_trans(*g, u as int, roots[c], w as int);
        }
        assert forall|c: int, u: usize, w: usize|
            0 <= c < cs.len() && #[trigger] cs[c]@.contains(u) && w < g.spec_n() && #[trigger] mutual(*g, u as int, w as int)
                implies cs[c]@.contains(w) by {
            lemma_mutual_trans(*g, roots[c], u as int, w as int);
        }
    }
    comps
}

/// `u` has a predecessor outside its strongly connected component: control
/// can enter that component at `u`.
pub open spec fn is_entry(g: IndexGraph, u: usize) -> bool {
    exists|p: usize| #[trigger] g.edge(p as int, u as int) && !mutual(g, p as int, u as int)
}

/// Some strongly connected component can be entered at two different nodes.
pub open spec fn irreducible(g: IndexGraph) -> bool {
    exists|u: usize, w: usize|
        u != w && u < g.spec_n() && w < g.spec_n() && mutual(g, u as int, w as int) && #[trigger] is_entry(g, u)
            && #[trigger] is_entry(g, w)
}

/// `x` has a predecessor that `comp` does not hold.
pub open spec fn has_outside_pred(g: IndexGraph, comp: Seq<usize>, x: usize) -> bool {
    exists|p: usize| #[trigger] g.edge(p as int, x as int) && !comp.contains(p)
}

fn vec_contains(v: &Vec<usize>, x: usize) -> (r: bool)
    ensures
        r == v@.contains(x),
{
    let mut i: usize = 0;
    while i < v.len()
        invariant
            i <= v@.len(),
            forall|k: int| 0 <= k < i ==> v@[k] != x,
        decreases v@.len() - i,
    {
        if v[i] == x {
            return true;
        }
        i += 1;
    }
    false
}

fn outside_pred_exec(g: &IndexGraph, comp: &Vec<usize>, x: usize) -> (r: bool)
    requires
        g.wf(),
        x < g.spec_n(),
    ensures
        r == has_outside_pred(*g, comp@, x),
{
    let preds = g.predecessors(x);
    let mut i: usize = 0;
    while i < preds.len()
        invariant
            g.wf(),
            x < g.spec_n(),
            preds@ == g.adj(false, x as int),
            i <= preds@.len(),
            forall|k: int| 0 <= k < i ==> comp@.contains(#[trigger] preds@[k]),
        decreases preds@.len() - i,
    {
        let p = preds[i];
        proof {
            g.lemma_wf();
            assert(preds@[i as int] < g.spec_n());
        }
        if !vec_contains(comp, p) {
            proof {
                assert(g.dir_edge(false, x as int, p as int));
                assert(g.dir_edge(true, p as int, x as int));
                assert(g.edge(p as int, x as int));
            }
            return true;
        }
        i += 1;
    }
    proof {
        g.lemma_wf();
        assert forall|p: usize| #[trigger] g.edge(p as int, x as int) implies comp@.contains(p) by {
            assert(g.dir_edge(false, x as int, p as int));
            let k = choose|k: int| 0 <= k < preds@.len() && preds@[k] == p;
            assert(comp@.contains(preds@[k]));
        }
    }
    false
}

proof fn lemma_entry_in_comp(g: IndexGraph, comps: Seq<Vec<usize>>, c: int, x: usize)
    requires
        g.wf(),
        are_sccs(g, comps),
        0 <= c < comps.len(),
        comps[c]@.contains(x),
    ensures
        has_outside_pred(g, comps[c]@, x) == is_entry(g, x),
{
    if has_outside_pred(g, comps[c]@, x) {
        let p = choose|p: usize| #[trigger] g.edge(p as int, x as int) && !comps[c]@.contains(p);
        assert(p < g.spec_n());
        if mutual(g, p as int, x as int) {
            assert(mutual(g, x as int, p as int));
        }
        assert(!mutual(g, p as int, x as int));
    }
    if is_entry(g, x) {
        let p = choose|p: usize| #[trigger] g.edge(p as int, x as int) && !mutual(g, p as int, x as int);
        if comps[c]@.contains(p) {
            assert(mutual(g, p as int, x as int));
        }
    }
}

/// Control flow is reducible when no strongly connected component can be
/// entered at two different nodes; otherwise `Irreducible`.
pub fn check_reducibility(g: &IndexGraph) -> (r: Result<(), StructuringError>)
    requires
        g.wf(),
    ensures
        r == (if irreducible(*g) {
            Err::<(), StructuringError>(StructuringError::Irreducible)
        } else {
            Ok(())
        }),
{
    let sccs = compute_sccs(g);
    let mut ci: usize = 0;
    while ci < sccs.len()
        invariant
            g.wf(),
            are_sccs(*g, sccs@),
            ci <= sccs@.len(),
            forall|c: int, u: usize, w: usize|
                0 <= c < ci && #[trigger] sccs@[c]@.contains(u) && #[trigger] sccs@[c]@.contains(w) && is_entry(*g, u)
                    && is_entry(*g, w) ==> u == w,
        decreases sccs@.len() - ci,
    {
        let comp = &sccs[ci];
        if comp.len() > 1 {
            let mut found = false;
            let ghost mut first: usize = 0;
            let ghost mut first_idx: int = 0;
            let mut k: usize = 0;
            while k < comp.len()
                invariant
                    g.wf(),
                    are_sccs(*g, sccs@),
                    ci < sccs@.len(),
                    *comp == sccs@[ci as int],
                    k <= comp@.len(),
                    found ==> 0 <= first_idx < k && comp@[first_idx] == first && is_entry(*g, first),
                    forall|j: int| 0 <= j < k && is_entry(*g, #[trigger] comp@[j]) ==> found && comp@[j] == first,
                decreases comp@.len() - k,
            {
                let x = comp[k];
                proof {
                    assert(comp@.contains(x));
                    lemma_entry_in_comp(*g, sccs@, ci as int, x);
                }
                if outside_pred_exec(g, comp, x) {
                    if found {
                        proof {
                            assert(first != x) by {
                                assert(comp@[first_idx] < comp@[k as int]);
                            }
                            assert(comp@.contains(first));
                            assert(mutual(*g, first as int, x as int));
                            assert(irreducible(*g));
                        }
                        return Err(StructuringError::Irreducible);
                    }
                    found = true;
                    proof {
                        first = x;
                        first_idx = k as int;
                    }
                }
                k += 1;
            }
            proof {
                assert forall|u: usize, w: usize|
                    #[trigger] sccs@[ci as int]@.contains(u) && #[trigger] sccs@[ci as int]@.contains(w) && is_entry(*g, u)
                        && is_entry(*g, w) implies u == w by {
                    let ju = choose|j: int| 0 <= j < comp@.len() && comp@[j] == u;
                    let jw = choose|j: int| 0 <= j < comp@.len() && comp@[j] == w;
                    assert(is_entry(*g, comp@[ju]));
                    assert(is_entry(*g, comp@[jw]));
                }
            }
        } else {
            proof {
                assert forall|u: usize, w: usize|
                    #[trigger] sccs@[ci as int]@.contains(u) && #[trigger] sccs@[ci as int]@.contains(w) implies u == w by {
                    let ju = choose|j: int| 0 <= j < comp@.len() && comp@[j] == u;
                    let jw = choose|j: int| 0 <= j < comp@.len() && comp@[j] == w;
                }
            }
        }
        ci += 1;
    }
    proof {
        if irreducible(*g) {
            let (u, w) = choose|u: usize, w: usize|
                u != w && u < g.spec_n() && w < g.spec_n() && mutual(*g, u as int, w as int) && #[trigger] is_entry(*g, u)
                    && #[trigger] is_entry(*g, w);
            assert(in_some(sccs@, u));
            let c = choose|c: int| 0 <= c < sccs@.len() && #[trigger] sccs@[c]@.contains(u);
            assert(sccs@[c]@.contains(w));
        }
    }
    Ok(())
}

/// `dom` is a dominance relation on the nodes `0..n`: `dom[a][b]` when `a`
/// dominates `b`.
pub open spec fn dom_wf(dom: Seq<Vec<bool>>, n: int) -> bool {
    dom.len() == n && forall|a: int| 0 <= a < n ==> (#[trigger] dom[a])@.len() == n
}

/// A walk of a loop body: from a latch, each step to a predecessor that
/// the header dominates, never continuing from the header.
pub open spec fn is_body_walk(
    g: IndexGraph,
    header: int,
    latches: Seq<usize>,
    dom: Seq<Vec<bool>>,
    p: Seq<int>,
) -> bool {
    &&& p.len() >= 1
    &&& latches.contains(p[0] as usize)
    &&& 0 <= p[0] < g.spec_n()
    &&& forall|i: int|
        0 <= i < p.len() - 1 ==> #[trigger] g.edge(p[i + 1], p[i]) && dom[header]@[p[i + 1]] && p[i]
            != header
}

/// `u` is in the natural loop of `header`: the header itself, or the end of
/// a body walk.
pub open spec fn in_loop_body(g: IndexGraph, header: int, latches: Seq<usize>, dom: Seq<Vec<bool>>, u: int) -> bool {
    u == header || exists|p: Seq<int>| #[trigger] is_body_walk(g, header, latches, dom, p) && p.last() == u
}

proof fn lemma_walk_push(
    g: IndexGraph,
    header: int,
    latches: Seq<usize>,
    dom: Seq<Vec<bool>>,
    p: Seq<int>,
    y: int,
)
    requires
        is_body_walk(g, header, latches, dom, p),
        g.edge(y, p.last()),
        dom[header]@[y],
        p.last() != header,
    ensures
        is_body_walk(g, header, latches, dom, p.push(y)),
        p.push(y).last() == y,
{
    let q = p.push(y);
    assert forall|i: int| 0 <= i < q.len() - 1 implies #[trigger] g.edge(q[i + 1], q[i]) && dom[header]@[q[i
        + 1]] && q[i] != header by {
        if i < p.len() - 1 {
            assert(q[i] == p[i] && q[i + 1] == p[i + 1]);
            assert(g.edge(p[i + 1], p[i]));
        }
    }
}

proof fn lemma_walk_closed(
    g: IndexGraph,
    header: int,
    latches: Seq<usize>,
    dom: Seq<Vec<bool>>,
    body: Seq<bool>,
    p: Seq<int>,
)
    requires
        g.wf(),
        g.spec_n() <= usize::MAX,
        body.len() == g.spec_n(),
        0 <= header < g.spec_n(),
        dom_wf(dom, g.spec_n()),
        is_body_walk(g, header, latches, dom, p),
        forall|l: int| 0 <= l < latches.len() ==> body[#[trigger] latches[l] as int],
        forall|x: int, y: int|
            0 <= x < g.spec_n() && body[x] && x != header && #[trigger] g.edge(y, x) && dom[header]@[y]
                ==> body[y],
    ensures
        body[p.last()],
    decreases p.len(),
{
    if p.len() == 1 {
        let k = choose|k: int| 0 <= k < latches.len() && latches[k] == p[0] as usize;
        assert(body[latches[k] as int]);
        assert(latches[k] as int == p[0]);
        assert(p.last() == p[0]);
    } else {
        let q = p.drop_last();
        assert forall|i: int| 0 <= i < q.len() - 1 implies #[trigger] g.edge(q[i + 1], q[i]) && dom[header]@[q[i
            + 1]] && q[i] != header by {
            assert(g.edge(p[i + 1], p[i]));
        }
        lemma_walk_closed(g, header, latches, dom, body, q);
        let i = p.len() - 2;
        assert(g.edge(p[i + 1], p[i]));
        assert(q.last() == p[i]);
    }
}

/// The natural loop of `header` with the given latches, as a flag per
/// node: the header, and every node from which a latch is reached through
/// nodes that the header dominates, without passing through the header.
pub fn natural_loop_body(header: usize, latches: &Vec<usize>, g: &IndexGraph, dom: &Vec<Vec<bool>>) -> (r: Vec<bool>)
    requires
        g.wf(),
        header < g.spec_n(),
        forall|l: int| 0 <= l < latches@.len() ==> #[trigger] latches@[l] < g.spec_n(),
        dom_wf(dom@, g.spec_n()),
    ensures
        r@.len() == g.spec_n(),
        forall|u: int| 0 <= u < g.spec_n() ==> (r@[u] <==> in_loop_body(*g, header as int, latches@, dom@, u)),
{
    let n = g.node_count();
    let mut body: Vec<bool> = Vec::new();
    let mut i: usize = 0;
    while i < n
        invariant
            i <= n,
            body@.len() == i,
            forall|k: int| 0 <= k < i ==> !(#[trigger] body@[k]),
        decreases n - i,
    {
        body.push(false);
        i += 1;
    }
    let ghost b0 = body@;
    proof {
        assert(body@ =~= Seq::new(n as nat, |k: int| false));
        lemma_count_zero(n as nat);
        lemma_count_update(body@, header as int);
    }
    body.set(header, true);
    let mut work: Vec<usize> = Vec::new();
    let mut k: usize = 0;
    while k < latches.len()
        invariant
            k <= latches@.len(),
            work@ == latches@.subrange(0, k as int),
        decreases latches@.len() - k,
    {
        work.push(latches[k]);
        k += 1;
        proof {
            assert(work@ =~= latches@.subrange(0, k as int));
        }
    }
    proof {
        assert(work@ =~= latches@);
    }
    let ghost mut added: nat = 1;
    let ghost hd = header as int;
    let ghost ls = latches@;
    let ghost dm = dom@;
    proof {
        assert forall|j: int| 0 <= j < work@.len() implies (#[trigger] work@[j]) < n && in_loop_body(*g, hd, ls, dm, work@[j] as int) by {
            let w = seq![work@[j] as int];
            assert(ls[j] == work@[j]);
            assert(ls.contains(w[0] as usize));
            assert(is_body_walk(*g, hd, ls, dm, w));
        }
        assert forall|l: int| 0 <= l < ls.len() implies body@[#[trigger] ls[l] as int] || work@.contains(ls[l]) by {
            assert(work@[l] == ls[l]);
        }
        assert forall|u: int| 0 <= u < n && #[trigger] body@[u] implies in_loop_body(*g, hd, ls, dm, u) by {
            if u != hd {
                assert(!b0[u]);
            }
        }
        assert forall|x: int, y: int|
            0 <= x < n && body@[x] && x != hd && #[trigger] g.edge(y, x) && dm[hd]@[y] implies body@[y]
                || work@.contains(y as usize) by {
            assert(!b0[x]);
        }
    }
    while work.len() > 0
        invariant
            g.wf(),
            n == g.spec_n(),
            hd == header as int,
            header < n,
            ls == latches@,
            forall|l: int| 0 <= l < ls.len() ==> #[trigger] ls[l] < n,
            dm == dom@,
            dom_wf(dm, n as int),
            body@.len() == n,
            body@[hd],
            count_true(body@) == added,
            added <= n,
            forall|j: int| 0 <= j < work@.len() ==> (#[trigger] work@[j]) < n && in_loop_body(*g, hd, ls, dm, work@[j] as int),
            forall|l: int| 0 <= l < ls.len() ==> body@[#[trigger] ls[l] as int] || work@.contains(ls[l]),
            forall|u: int| 0 <= u < n && #[trigger] body@[u] ==> in_loop_body(*g, hd, ls, dm, u),
            forall|x: int, y: int|
                0 <= x < n && body@[x] && x != hd && #[trigger] g.edge(y, x) && dm[hd]@[y] ==> body@[y]
                    || work@.contains(y as usize),
        decreases n - added, work@.len(),
    {
        let ghost w0 = work@;
        let node = work.pop().unwrap();
        proof {
            assert(work@ =~= w0.drop_last());
            assert(node == w0.last());
        }
        if body[node] {
            proof {
                assert forall|l: int| 0 <= l < ls.len() implies body@[#[trigger] ls[l] as int] || work@.contains(ls[l]) by {
                    if !body@[ls[l] as int] {
                        let j = choose|j: int| 0 <= j < w0.len() && w0[j] == ls[l];
                        if j < w0.len() - 1 {
                            assert(work@[j] == w0[j]);
                        }
                    }
                }
                assert forall|x: int, y: int|
                    0 <= x < n && body@[x] && x != hd && #[trigger] g.edge(y, x) && dm[hd]@[y] implies body@[y]
                        || work@.contains(y as usize) by {
                    if !body@[y] {
                        let j = choose|j: int| 0 <= j < w0.len() && w0[j] == y as usize;
                        if j < w0.len() - 1 {
                            assert(work@[j] == w0[j]);
                        }
                    }
                }
            }
        } else {
            let ghost bb = body@;
            proof {
                lemma_count_update(body@, node as int);
                lemma_count_le(body@.update(node as int, true));
            }
            body.set(node, true);
            proof {
                added = added + 1;
            }
            let ghost wk = work@;
            let preds = g.predecessors(node);
            let mut j: usize = 0;
            while j < preds.len()
                invariant
                    g.wf(),
                    n == g.spec_n(),
                    hd == header as int,
                    header < n,
                    node < n,
                    node as int != hd,
                    preds@ == g.adj(false, node as int),
                    j <= preds@.len(),
                    dm == dom@,
                    ls == latches@,
                    forall|l: int| 0 <= l < ls.len() ==> #[trigger] ls[l] < n,
                    dom_wf(dm, n as int),
                    body@ == bb.update(node as int, true),
                    wk == w0.drop_last(),
                    node == w0.last(),
                    body@.len() == n,
                    body@[hd],
                    body@[node as int],
                    count_true(body@) == added,
                    added <= n,
                    in_loop_body(*g, hd, ls, dm, node as int),
                    forall|q: int| 0 <= q < work@.len() ==> (#[trigger] work@[q]) < n && in_loop_body(*g, hd, ls, dm, work@[q] as int),
                    forall|q: int| 0 <= q < wk.len() ==> #[trigger] work@[q] == wk[q],
                    wk.len() <= work@.len(),
                    forall|u: int| 0 <= u < n && #[trigger] body@[u] ==> in_loop_body(*g, hd, ls, dm, u),
                    forall|q: int| 0 <= q < j ==> !dm[hd]@[#[trigger] preds@[q] as int] || body@[preds@[q] as int]
                        || work@.contains(preds@[q]),
                decreases preds@.len() - j,
            {
                let p = preds[j];
                proof {
                    g.lemma_wf();
                    assert(g.adj(false, node as int)[j as int] < n);
                    assert(preds@[j as int] < n);
                    assert(g.dir_edge(false, node as int, p as int));
                    assert(g.edge(p as int, node as int));
                }
                if dom[header][p] && !body[p] {
                    let ghost wq = work@;
                    proof {
                        assert(node as int != hd);
                        if node as int != hd {
                            let wit = choose|w: Seq<int>| #[trigger] is_body_walk(*g, hd, ls, dm, w) && w.last() == node as int;
                            lemma_walk_push(*g, hd, ls, dm, wit, p as int);
                        }
                    }
                    work.push(p);
                    proof {
                        assert(work@ =~= wq.push(p));
                        assert(work@.contains(p)) by {
                            assert(work@[work@.len() - 1] == p);
                        }
                        assert forall|q: int| 0 <= q < work@.len() implies (#[trigger] work@[q]) < n && in_loop_body(*g, hd, ls, dm, work@[q] as int) by {
                            if q < wq.len() {
                                assert(work@[q] == wq[q]);
                            }
                        }
                        assert forall|q: int| 0 <= q < j + 1 implies !dm[hd]@[#[trigger] preds@[q] as int] || body@[preds@[q] as int]
                            || work@.contains(preds@[q]) by {
                            if q < j && !dm[hd]@[preds@[q] as int] == false && !body@[preds@[q] as int] {
                                if wq.contains(preds@[q]) {
                                    let z = choose|z: int| 0 <= z < wq.len() && wq[z] == preds@[q];
                                    assert(work@[z] == wq[z]);
                                }
                            }
                        }
                    }
                }
                j += 1;
            }
            proof {
                g.lemma_wf();
                assert forall|l: int| 0 <= l < ls.len() implies body@[#[trigger] ls[l] as int] || work@.contains(ls[l]) by {
                    if !body@[ls[l] as int] {
                        assert(!bb[ls[l] as int]);
                        let z = choose|z: int| 0 <= z < w0.len() && w0[z] == ls[l];
                        if z == w0.len() - 1 {
                            assert(ls[l] == node);
                        } else {
                            assert(work@[z] == wk[z]);
                        }
                    }
                }
                assert forall|x: int, y: int|
                    0 <= x < n && body@[x] && x != hd && #[trigger] g.edge(y, x) && dm[hd]@[y] implies body@[y]
                        || work@.contains(y as usize) by {
                    if x == node as int {
                        assert(g.dir_edge(false, x, y));
                        let q = choose|q: int| 0 <= q < preds@.len() && preds@[q] == y as usize;
                        assert(!dm[hd]@[preds@[q] as int] || body@[preds@[q] as int] || work@.contains(preds@[q]));
                    } else {
                        assert(bb[x]);
                        if !body@[y] {
                            assert(!bb[y]);
                            let z = choose|z: int| 0 <= z < w0.len() && w0[z] == y as usize;
                            if z == w0.len() - 1 {
                                assert(y == node as int);
                            } else {
                                assert(work@[z] == wk[z]);
                            }
                        }
                    }
                }
            }
        }
    }
    proof {
        assert forall|u: int| 0 <= u < n && in_loop_body(*g, hd, ls, dm, u) implies body@[u] by {
            if u != hd {
                assert forall|l: int| 0 <= l < ls.len() implies body@[#[trigger] ls[l] as int] by {
                    assert(body@[ls[l] as int] || work@.contains(ls[l]));
                }
                let p = choose|p: Seq<int>| #[trigger] is_body_walk(*g, hd, ls, dm, p) && p.last() == u;
                lemma_walk_closed(*g, hd, ls, dm, body@, p);
            }
        }
    }
    body
}

} // verus!
