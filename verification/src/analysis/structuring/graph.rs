//! A control-flow graph over the node indices `0..n`, with successor and
//! predecessor lists, and reachability along its edges.
use vstd::prelude::*;

verus! {

/// A directed graph on the nodes `0..n`: each node's successors and
/// predecessors.
pub struct IndexGraph {
    succs: Vec<Vec<usize>>,
    preds: Vec<Vec<usize>>,
}

/// A path of `g`, walked forwards (`fwd`) or against the edges.
pub open spec fn is_dir_path(g: IndexGraph, fwd: bool, p: Seq<int>) -> bool {
    &&& p.len() >= 1
    &&& forall|i: int| 0 <= i < p.len() ==> 0 <= #[trigger] p[i] < g.spec_n()
    &&& forall|i: int| 0 <= i < p.len() - 1 ==> #[trigger] g.dir_edge(fwd, p[i], p[i + 1])
}

/// `b` can be reached from `a` in the given direction.
pub open spec fn dir_reach(g: IndexGraph, fwd: bool, a: int, b: int) -> bool {
    exists|p: Seq<int>| #[trigger] is_dir_path(g, fwd, p) && p[0] == a && p.last() == b
}

/// `b` can be reached from `a` along the edges.
pub open spec fn reach(g: IndexGraph, a: int, b: int) -> bool {
    dir_reach(g, true, a, b)
}

/// `a` and `b` reach each other: they lie in one strongly connected
/// component.
pub open spec fn mutual(g: IndexGraph, a: int, b: int) -> bool {
    reach(g, a, b) && reach(g, b, a)
}

impl IndexGraph {
    /// The number of nodes.
    pub closed spec fn spec_n(self) -> int {
        self.succs@.len() as int
    }

    /// The neighbours of `x` forwards (its successors) or backwards (its
    /// predecessors).
    pub closed spec fn adj(self, fwd: bool, x: int) -> Seq<usize> {
        if fwd {
            self.succs@[x]@
        } else {
            self.preds@[x]@
        }
    }

    /// An edge from `a` to `b` forwards, or from `b` to `a` backwards.
    pub open spec fn dir_edge(self, fwd: bool, a: int, b: int) -> bool {
        0 <= a < self.spec_n() && 0 <= b < self.spec_n() && self.adj(fwd, a).contains(b as usize)
    }

    /// An edge from `a` to `b`.
    pub open spec fn edge(self, a: int, b: int) -> bool {
        self.dir_edge(true, a, b)
    }

    /// The two lists describe the same edges, over the nodes `0..n`.
    pub closed spec fn wf(self) -> bool {
        &&& self.succs@.len() == self.preds@.len()
        &&& forall|x: int, i: int|
            0 <= x < self.spec_n() && 0 <= i < self.succs@[x]@.len() ==> #[trigger] self.succs@[x]@[i]
                < self.spec_n()
        &&& forall|x: int, i: int|
            0 <= x < self.spec_n() && 0 <= i < self.preds@[x]@.len() ==> #[trigger] self.preds@[x]@[i]
                < self.spec_n()
        &&& forall|a: int, b: int| #[trigger] self.dir_edge(true, a, b) <==> #[trigger] self.dir_edge(false, b, a)
    }

    /// The neighbour lists name nodes of the graph, and an edge walked
    /// backwards is the same edge.
    pub proof fn lemma_wf(self)
        requires
            self.wf(),
        ensures
            forall|fwd: bool, x: int, k: int|
                0 <= x < self.spec_n() && 0 <= k < self.adj(fwd, x).len() ==> #[trigger] self.adj(fwd, x)[k]
                    < self.spec_n(),
            forall|a: int, b: int| #[trigger] self.dir_edge(true, a, b) <==> #[trigger] self.dir_edge(false, b, a),
    {
    }

    proof fn lemma_adj_in_range(self, fwd: bool, x: int, i: int)
        requires
            self.wf(),
            0 <= x < self.spec_n(),
            0 <= i < self.adj(fwd, x).len(),
        ensures
            self.adj(fwd, x)[i] < self.spec_n(),
            self.dir_edge(fwd, x, self.adj(fwd, x)[i] as int),
    {
    }

    /// The graph on the nodes `0..n` with the given edges.
    pub fn from_edges(n: usize, edges: &Vec<(usize, usize)>) -> (r: Self)
        requires
            forall|i: int| 0 <= i < edges@.len() ==> (#[trigger] edges@[i]).0 < n && edges@[i].1 < n,
        ensures
            r.wf(),
            r.spec_n() == n,
            forall|a: usize, b: usize| #[trigger] r.edge(a as int, b as int) <==> edges@.contains((a, b)),
    {
        let mut succs: Vec<Vec<usize>> = Vec::new();
        let mut preds: Vec<Vec<usize>> = Vec::new();
        let mut i: usize = 0;
        while i < n
            invariant
                i <= n,
                succs@.len() == i,
                preds@.len() == i,
                forall|x: int| 0 <= x < i ==> (#[trigger] succs@[x])@.len() == 0,
                forall|x: int| 0 <= x < i ==> (#[trigger] preds@[x])@.len() == 0,
            decreases n - i,
        {
            succs.push(Vec::new());
            preds.push(Vec::new());
            i += 1;
        }
        let mut j: usize = 0;
        while j < edges.len()
            invariant
                j <= edges@.len(),
                succs@.len() == n,
                preds@.len() == n,
                forall|e: int| 0 <= e < edges@.len() ==> (#[trigger] edges@[e]).0 < n && edges@[e].1 < n,
                forall|x: usize, y: usize|
                    x < n && y < n ==> (#[trigger] succs@[x as int]@.contains(y)
                        <==> edges@.subrange(0, j as int).contains((x, y))),
                forall|x: usize, y: usize|
                    x < n && y < n ==> (#[trigger] preds@[y as int]@.contains(x)
                        <==> edges@.subrange(0, j as int).contains((x, y))),
                forall|x: int, k: int|
                    0 <= x < n && 0 <= k < succs@[x]@.len() ==> #[trigger] succs@[x]@[k] < n,
                forall|x: int, k: int|
                    0 <= x < n && 0 <= k < preds@[x]@.len() ==> #[trigger] preds@[x]@[k] < n,
            decreases edges@.len() - j,
        {
            let (a, b) = edges[j];
            let ghost s0 = succs@;
            let ghost p0 = preds@;
            let mut sa = Vec::new();
            std::mem::swap(&mut sa, &mut succs[a]);
            sa.push(b);
            succs.set(a, sa);
            let mut pb = Vec::new();
            std::mem::swap(&mut pb, &mut preds[b]);
            pb.push(a);
            preds.set(b, pb);
            proof {
                broadcast use vstd::seq_lib::group_seq_properties;

                let pre = edges@.subrange(0, j as int);
                let post = edges@.subrange(0, j + 1);
                assert(post =~= pre.push((a, b)));
                assert forall|x: usize, y: usize|
                    x < n && y < n implies (#[trigger] succs@[x as int]@.contains(y)
                        <==> post.contains((x, y))) by {
                    if x == a {
                        assert(succs@[x as int]@ =~= s0[x as int]@.push(b));
                    } else {
                        assert(succs@[x as int] == s0[x as int]);
                    }
                }
                assert forall|x: usize, y: usize|
                    x < n && y < n implies (#[trigger] preds@[y as int]@.contains(x)
                        <==> post.contains((x, y))) by {
                    if y == b {
                        assert(preds@[y as int]@ =~= p0[y as int]@.push(a));
                    } else {
                        assert(preds@[y as int] == p0[y as int]);
                    }
                }
                assert forall|x: int, k: int|
                    0 <= x < n && 0 <= k < succs@[x]@.len() implies #[trigger] succs@[x]@[k] < n by {
                    if x == a {
                        assert(succs@[x]@ =~= s0[x]@.push(b));
                        if k < s0[x]@.len() {
                            assert(succs@[x]@[k] == s0[x]@[k]);
                        }
                    } else {
                        assert(succs@[x] == s0[x]);
                    }
                }
                assert forall|x: int, k: int|
                    0 <= x < n && 0 <= k < preds@[x]@.len() implies #[trigger] preds@[x]@[k] < n by {
                    if x == b {
                        assert(preds@[x]@ =~= p0[x]@.push(a));
                        if k < p0[x]@.len() {
                            assert(preds@[x]@[k] == p0[x]@[k]);
                        }
                    } else {
                        assert(preds@[x] == p0[x]);
                    }
                }
            }
            j += 1;
        }
        let r = IndexGraph { succs, preds };
        proof {
            assert(edges@.subrange(0, edges@.len() as int) =~= edges@);
            assert forall|a: int, b: int| #[trigger] r.dir_edge(true, a, b) <==> #[trigger] r.dir_edge(false, b, a) by {
                if 0 <= a < n && 0 <= b < n {
                    let x = a as usize;
                    let y = b as usize;
                    assert(r.succs@[x as int]@.contains(y) <==> edges@.contains((x, y)));
                    assert(r.preds@[y as int]@.contains(x) <==> edges@.contains((x, y)));
                }
            }
            assert forall|a: usize, b: usize| #[trigger] r.edge(a as int, b as int) <==> edges@.contains((a, b)) by {
                if edges@.contains((a, b)) {
                    let k = choose|k: int| 0 <= k < edges@.len() && edges@[k] == (a, b);
                    assert(edges@[k].0 < n && edges@[k].1 < n);
                    assert(r.succs@[a as int]@.contains(b));
                }
            }
        }
        r
    }

    /// The number of nodes.
    pub fn node_count(&self) -> (r: usize)
        ensures
            r == self.spec_n(),
    {
        self.succs.len()
    }

    /// The successors of `x`.
    pub fn successors(&self, x: usize) -> (r: &Vec<usize>)
        requires
            x < self.spec_n(),
        ensures
            r@ == self.adj(true, x as int),
    {
        &self.succs[x]
    }

    /// The predecessors of `x`.
    pub fn predecessors(&self, x: usize) -> (r: &Vec<usize>)
        requires
            self.wf(),
            x < self.spec_n(),
        ensures
            r@ == self.adj(false, x as int),
    {
        &self.preds[x]
    }
}

/// The number of `true` entries.
pub open spec fn count_true(s: Seq<bool>) -> nat
    decreases s.len(),
{
    if s.len() == 0 {
        0
    } else {
        count_true(s.drop_last()) + if s.last() {
            1nat
        } else {
            0nat
        }
    }
}

pub proof fn lemma_count_le(s: Seq<bool>)
    ensures
        count_true(s) <= s.len(),
    decreases s.len(),
{
    if s.len() > 0 {
        lemma_count_le(s.drop_last());
    }
}

pub proof fn lemma_count_update(s: Seq<bool>, i: int)
    requires
        0 <= i < s.len(),
        !s[i],
    ensures
        count_true(s.update(i, true)) == count_true(s) + 1,
    decreases s.len(),
{
    let t = s.update(i, true);
    if i == s.len() - 1 {
        assert(t.drop_last() =~= s.drop_last());
    } else {
        assert(t.drop_last() =~= s.drop_last().update(i, true));
        lemma_count_update(s.drop_last(), i);
    }
}

/// Every node reaches itself.
pub proof fn lemma_reach_refl(g: IndexGraph, fwd: bool, a: int)
    requires
        0 <= a < g.spec_n(),
    ensures
        dir_reach(g, fwd, a, a),
{
    let p = seq![a];
    assert(is_dir_path(g, fwd, p));
}

/// A path followed by one more edge is a path.
proof fn lemma_path_push(g: IndexGraph, fwd: bool, p: Seq<int>, y: int)
    requires
        is_dir_path(g, fwd, p),
        g.dir_edge(fwd, p.last(), y),
    ensures
        is_dir_path(g, fwd, p.push(y)),
        p.push(y)[0] == p[0],
        p.push(y).last() == y,
{
    let q = p.push(y);
    assert forall|i: int| 0 <= i < q.len() - 1 implies #[trigger] g.dir_edge(fwd, q[i], q[i + 1]) by {
        if i < p.len() - 1 {
            assert(q[i] == p[i] && q[i + 1] == p[i + 1]);
        }
    }
}

/// Reachability is transitive.
pub proof fn lemma_reach_trans(g: IndexGraph, fwd: bool, a: int, b: int, c: int)
    requires
        dir_reach(g, fwd, a, b),
        dir_reach(g, fwd, b, c),
    ensures
        dir_reach(g, fwd, a, c),
{
    let p1 = choose|p: Seq<int>| #[trigger] is_dir_path(g, fwd, p) && p[0] == a && p.last() == b;
    let p2 = choose|p: Seq<int>| #[trigger] is_dir_path(g, fwd, p) && p[0] == b && p.last() == c;
    let q = p1 + p2.subrange(1, p2.len() as int);
    assert forall|i: int| 0 <= i < q.len() implies 0 <= #[trigger] q[i] < g.spec_n() by {
        if i >= p1.len() {
            assert(q[i] == p2[i - p1.len() + 1]);
        }
    }
    assert forall|i: int| 0 <= i < q.len() - 1 implies #[trigger] g.dir_edge(fwd, q[i], q[i + 1]) by {
        if i < p1.len() - 1 {
            assert(q[i] == p1[i] && q[i + 1] == p1[i + 1]);
        } else if i == p1.len() - 1 {
            assert(q[i] == p2[0] && q[i + 1] == p2[1]);
        } else {
            assert(q[i] == p2[i - p1.len() + 1] && q[i + 1] == p2[i - p1.len() + 2]);
        }
    }
    if p2.len() == 1 {
        assert(q.last() == p1.last());
    } else {
        assert(q.last() == p2.last());
    }
    assert(is_dir_path(g, fwd, q));
}

/// Walking against the edges from `a` to `b` is walking along them from `b`
/// to `a`.
pub proof fn lemma_reach_reverse(g: IndexGraph, a: int, b: int)
    requires
        g.wf(),
    ensures
        dir_reach(g, false, a, b) <==> reach(g, b, a),
{
    if dir_reach(g, false, a, b) {
        let p = choose|p: Seq<int>| #[trigger] is_dir_path(g, false, p) && p[0] == a && p.last() == b;
        let q = Seq::new(p.len(), |i: int| p[p.len() - 1 - i]);
        assert forall|i: int| 0 <= i < q.len() implies 0 <= #[trigger] q[i] < g.spec_n() by {
            assert(q[i] == p[p.len() - 1 - i]);
        }
        assert forall|i: int| 0 <= i < q.len() - 1 implies #[trigger] g.dir_edge(true, q[i], q[i + 1]) by {
            let j = p.len() - 2 - i;
            assert(g.dir_edge(false, p[j], p[j + 1]));
        }
        assert(is_dir_path(g, true, q));
    }
    if reach(g, b, a) {
        let p = choose|p: Seq<int>| #[trigger] is_dir_path(g, true, p) && p[0] == b && p.last() == a;
        let q = Seq::new(p.len(), |i: int| p[p.len() - 1 - i]);
        assert forall|i: int| 0 <= i < q.len() implies 0 <= #[trigger] q[i] < g.spec_n() by {
            assert(q[i] == p[p.len() - 1 - i]);
        }
        assert forall|i: int| 0 <= i < q.len() - 1 implies #[trigger] g.dir_edge(false, q[i], q[i + 1]) by {
            let j = p.len() - 2 - i;
            assert(g.dir_edge(true, p[j], p[j + 1]));
        }
        assert(is_dir_path(g, false, q));
    }
}

/// A set of nodes that holds the start of a path and is closed under the
/// edges holds its end.
proof fn lemma_closed_reach(g: IndexGraph, fwd: bool, seen: Seq<bool>, p: Seq<int>)
    requires
        seen.len() == g.spec_n(),
        is_dir_path(g, fwd, p),
        seen[p[0]],
        forall|x: int, y: int| 0 <= x < g.spec_n() && seen[x] && #[trigger] g.dir_edge(fwd, x, y) ==> seen[y],
    ensures
        seen[p.last()],
    decreases p.len(),
{
    if p.len() > 1 {
        let q = p.drop_last();
        assert forall|i: int| 0 <= i < q.len() - 1 implies #[trigger] g.dir_edge(fwd, q[i], q[i + 1]) by {
            assert(g.dir_edge(fwd, p[i], p[i + 1]));
        }
        lemma_closed_reach(g, fwd, seen, q);
        let i = p.len() - 2;
        assert(g.dir_edge(fwd, p[i], p[i + 1]));
        assert(q.last() == p[i]);
    }
}

impl IndexGraph {
    /// The nodes reachable from `start`, forwards (`fwd`) or backwards, as
    /// a flag per node.
    pub fn reach_set(&self, start: usize, fwd: bool) -> (r: Vec<bool>)
        requires
            self.wf(),
            start < self.spec_n(),
        ensures
            r@.len() == self.spec_n(),
            forall|u: int| 0 <= u < self.spec_n() ==> (r@[u] <==> dir_reach(*self, fwd, start as int, u)),
    {
        let n = self.succs.len();
        let mut seen: Vec<bool> = Vec::new();
        let mut i: usize = 0;
        while i < n
            invariant
                i <= n,
                seen@.len() == i,
                forall|k: int| 0 <= k < i ==> !(#[trigger] seen@[k]),
            decreases n - i,
        {
            seen.push(false);
            i += 1;
        }
        proof {
            assert(seen@ =~= Seq::new(n as nat, |k: int| false));
            lemma_count_zero(n as nat);
            lemma_count_update(seen@, start as int);
            lemma_reach_refl(*self, fwd, start as int);
        }
        let ghost s_init = seen@;
        seen.set(start, true);
        let mut work: Vec<usize> = Vec::new();
        work.push(start);
        let ghost mut marked: nat = 1;
        proof {
            assert(work@ =~= seq![start]);
            assert(work@[0] == start);
            assert(work@.contains(start));
            assert forall|x: int, y: int|
                0 <= x < n && seen@[x] && !work@.contains(x as usize) && #[trigger] self.dir_edge(fwd, x, y)
                    implies seen@[y] by {
                if x != start {
                    assert(!s_init[x]);
                }
            }
            assert forall|u: int| 0 <= u < n && #[trigger] seen@[u] implies dir_reach(*self, fwd, start as int, u) by {
                if u != start {
                    assert(!s_init[u]);
                }
            }
        }
        while work.len() > 0
            invariant
                self.wf(),
                n == self.spec_n(),
                start < n,
                seen@.len() == n,
                count_true(seen@) == marked,
                marked <= n,
                seen@[start as int],
                forall|k: int| 0 <= k < work@.len() ==> (#[trigger] work@[k]) < n && seen@[work@[k] as int],
                work@.no_duplicates(),
                forall|u: int| 0 <= u < n && #[trigger] seen@[u] ==> dir_reach(*self, fwd, start as int, u),
                forall|x: int, y: int|
                    0 <= x < n && seen@[x] && !work@.contains(x as usize) && #[trigger] self.dir_edge(fwd, x, y)
                        ==> seen@[y],
            decreases n - marked, work@.len(),
        {
            let ghost w0 = work@;
            let ghost m0 = marked;
            let x = work.pop().unwrap();
            proof {
                assert(work@ =~= w0.drop_last());
                assert(x == w0.last());
                if work@.contains(x) {
                    let k = choose|k: int| 0 <= k < work@.len() && work@[k] == x;
                    assert(w0[k] == w0[w0.len() - 1]);
                }
            }
            let ghost wl = work@.len();
            proof {
                assert forall|x2: int, y: int|
                    0 <= x2 < n && x2 != x && seen@[x2] && !work@.contains(x2 as usize) && #[trigger] self.dir_edge(
                        fwd,
                        x2,
                        y,
                    ) implies seen@[y] by {
                    if w0.contains(x2 as usize) {
                        let k = choose|k: int| 0 <= k < w0.len() && w0[k] == x2 as usize;
                        if k < w0.len() - 1 {
                            assert(work@[k] == w0[k]);
                        }
                    }
                }
            }
            let adj = if fwd {
                &self.succs[x]
            } else {
                &self.preds[x]
            };
            proof {
                assert(adj@ == self.adj(fwd, x as int));
            }
            let mut j: usize = 0;
            while j < adj.len()
                invariant
                    self.wf(),
                    n == self.spec_n(),
                    x < n,
                    adj@ == self.adj(fwd, x as int),
                    j <= adj@.len(),
                    start < n,
                    seen@.len() == n,
                    count_true(seen@) == marked,
                    marked <= n,
                    m0 <= marked,
                    work@.len() == wl + (marked - m0),
                    seen@[start as int],
                    seen@[x as int],
                    !work@.contains(x),
                    forall|k: int| 0 <= k < work@.len() ==> (#[trigger] work@[k]) < n && seen@[work@[k] as int],
                    work@.no_duplicates(),
                    forall|u: int| 0 <= u < n && #[trigger] seen@[u] ==> dir_reach(*self, fwd, start as int, u),
                    forall|k: int| 0 <= k < j ==> seen@[#[trigger] adj@[k] as int],
                    forall|x2: int, y: int|
                        0 <= x2 < n && x2 != x && seen@[x2] && !work@.contains(x2 as usize) && #[trigger] self.dir_edge(
                            fwd,
                            x2,
                            y,
                        ) ==> seen@[y],
                decreases adj@.len() - j,
            {
                let y = adj[j];
                proof {
                    self.lemma_adj_in_range(fwd, x as int, j as int);
                }
                if !seen[y] {
                    let ghost s0 = seen@;
                    let ghost wk = work@;
                    proof {
                        lemma_count_update(seen@, y as int);
                        lemma_count_le(seen@.update(y as int, true));
                        let p = choose|p: Seq<int>| #[trigger] is_dir_path(*self, fwd, p) && p[0] == start as int && p.last() == x as int;
                        lemma_path_push(*self, fwd, p, y as int);
                    }
                    seen.set(y, true);
                    work.push(y);
                    proof {
                        marked = marked + 1;
                        assert(work@ =~= wk.push(y));
                        assert forall|k: int| 0 <= k < work@.len() implies (#[trigger] work@[k]) < n && seen@[work@[k] as int] by {
                            if k < wk.len() {
                                assert(work@[k] == wk[k]);
                            }
                        }
                        assert forall|u: int| 0 <= u < n && #[trigger] seen@[u] implies dir_reach(*self, fwd, start as int, u) by {
                            if u != y {
                                assert(s0[u]);
                            }
                        }
                        assert forall|x2: int, y2: int|
                            0 <= x2 < n && x2 != x && seen@[x2] && !work@.contains(x2 as usize) && #[trigger] self.dir_edge(
                                fwd,
                                x2,
                                y2,
                            ) implies seen@[y2] by {
                            if x2 != y {
                                assert(s0[x2]);
                                if !wk.contains(x2 as usize) {
                                    assert(s0[y2]);
                                } else {
                                    let k = choose|k: int| 0 <= k < wk.len() && wk[k] == x2 as usize;
                                    assert(work@[k] == wk[k]);
                                }
                            } else {
                                assert(work@[work@.len() - 1] == y);
                            }
                        }
                        assert forall|k: int| 0 <= k < j + 1 implies seen@[#[trigger] adj@[k] as int] by {
                            if k < j {
                                assert(s0[adj@[k] as int]);
                            }
                        }
                        if work@.contains(x) {
                            let k = choose|k: int| 0 <= k < work@.len() && work@[k] == x;
                            if k < wk.len() {
                                assert(wk[k] == x);
                            }
                        }
                    }
                }
                j += 1;
            }
            proof {
                assert forall|x2: int, y: int|
                    0 <= x2 < n && seen@[x2] && !work@.contains(x2 as usize) && #[trigger] self.dir_edge(fwd, x2, y)
                        implies seen@[y] by {
                    if x2 == x {
                        let k = choose|k: int| 0 <= k < adj@.len() && adj@[k] == y as usize;
                        assert(seen@[adj@[k] as int]);
                    }
                }
            }
        }
        proof {
            assert forall|u: int| 0 <= u < n && dir_reach(*self, fwd, start as int, u) implies seen@[u] by {
                let p = choose|p: Seq<int>| #[trigger] is_dir_path(*self, fwd, p) && p[0] == start as int && p.last() == u;
                lemma_closed_reach(*self, fwd, seen@, p);
            }
        }
        seen
    }
}

pub proof fn lemma_count_zero(m: nat)
    ensures
        count_true(Seq::new(m, |k: int| false)) == 0,
    decreases m,
{
    if m > 0 {
        assert(Seq::new(m, |k: int| false).drop_last() =~= Seq::new((m - 1) as nat, |k: int| false));
        lemma_count_zero((m - 1) as nat);
    }
}

} // verus!
