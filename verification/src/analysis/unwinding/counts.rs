//! Visit counts per back-edge, kept sorted by edge so that two count maps with
//! the same contents have the same representation.
use crate::modeling::machine::cpu::concrete::ConcretePcodeAddress;
use vstd::prelude::*;

verus! {

/// A back-edge of the control-flow graph: (from, to).
pub type BackEdge = (ConcretePcodeAddress, ConcretePcodeAddress);

/// The order of addresses: by machine address, then by p-code index.
pub open spec fn addr_lt(a: ConcretePcodeAddress, b: ConcretePcodeAddress) -> bool {
    a.machine < b.machine || (a.machine == b.machine && a.pcode < b.pcode)
}

/// The order of edges: by source, then by target.
pub open spec fn edge_lt(a: BackEdge, b: BackEdge) -> bool {
    addr_lt(a.0, b.0) || (a.0 == b.0 && addr_lt(a.1, b.1))
}

pub fn addr_less(a: &ConcretePcodeAddress, b: &ConcretePcodeAddress) -> (r: bool)
    ensures
        r == addr_lt(*a, *b),
{
    a.machine < b.machine || (a.machine == b.machine && a.pcode < b.pcode)
}

pub fn edge_less(a: &BackEdge, b: &BackEdge) -> (r: bool)
    ensures
        r == edge_lt(*a, *b),
{
    addr_less(&a.0, &b.0) || (a.0 == b.0 && addr_less(&a.1, &b.1))
}

pub fn edge_eq(a: &BackEdge, b: &BackEdge) -> (r: bool)
    ensures
        r == (*a == *b),
{
    a.0 == b.0 && a.1 == b.1
}

/// Entries strictly increasing by edge: no edge occurs twice.
pub open spec fn sorted_entries(s: Seq<(BackEdge, usize)>) -> bool {
    forall|i: int, j: int| 0 <= i < j < s.len() ==> edge_lt(#[trigger] s[i].0, #[trigger] s[j].0)
}

/// Whether edge `e` has an entry in `s`.
pub open spec fn has_edge(s: Seq<(BackEdge, usize)>, e: BackEdge) -> bool {
    exists|i: int| 0 <= i < s.len() && #[trigger] s[i].0 == e
}

/// The index of the entry of `e` in `s` (meaningful when `has_edge(s, e)`).
pub open spec fn index_of_edge(s: Seq<(BackEdge, usize)>, e: BackEdge) -> int {
    choose|i: int| 0 <= i < s.len() && #[trigger] s[i].0 == e
}

/// The count recorded for `e` in `s`, if any.
pub open spec fn count_of(s: Seq<(BackEdge, usize)>, e: BackEdge) -> Option<usize> {
    if has_edge(s, e) {
        Some(s[index_of_edge(s, e)].1)
    } else {
        None
    }
}

/// In sorted entries, an edge found at index `i` is the entry that
/// `count_of` reads.
pub proof fn lemma_count_at(s: Seq<(BackEdge, usize)>, i: int)
    requires
        sorted_entries(s),
        0 <= i < s.len(),
    ensures
        has_edge(s, s[i].0),
        index_of_edge(s, s[i].0) == i,
        count_of(s, s[i].0) == Some(s[i].1),
{
    let e = s[i].0;
    assert(has_edge(s, e));
    let k = index_of_edge(s, e);
    if k != i {
        assert(edge_lt(s[k].0, s[i].0) || edge_lt(s[i].0, s[k].0));
    }
}

/// Back-edge visit counts, one entry per edge, in edge order.
#[derive(Debug)]
pub struct BackEdgeCounts {
    entries: Vec<(BackEdge, usize)>,
}

impl BackEdgeCounts {
    /// The entries, sorted by edge.
    pub closed spec fn entries(self) -> Seq<(BackEdge, usize)> {
        self.entries@
    }

    pub open spec fn wf(self) -> bool {
        sorted_entries(self.entries())
    }

    pub open spec fn has(self, e: BackEdge) -> bool {
        has_edge(self.entries(), e)
    }

    pub open spec fn count(self, e: BackEdge) -> Option<usize> {
        count_of(self.entries(), e)
    }

    /// The counts, in edge order.
    pub open spec fn counts_in_order(self) -> Seq<usize> {
        self.entries().map_values(|p: (BackEdge, usize)| p.1)
    }

    /// No edge.
    pub fn new() -> (r: Self)
        ensures
            r.wf(),
            r.entries() == Seq::<(BackEdge, usize)>::empty(),
    {
        BackEdgeCounts { entries: Vec::new() }
    }

    pub fn duplicate(&self) -> (r: Self)
        ensures
            r.entries() == self.entries(),
    {
        let mut v: Vec<(BackEdge, usize)> = Vec::new();
        let n = self.entries.len();
        let mut i: usize = 0;
        while i < n
            invariant
                n == self.entries@.len(),
                i <= n,
                v@ == self.entries@.subrange(0, i as int),
            decreases n - i,
        {
            v.push(self.entries[i]);
            i += 1;
        }
        assert(v@ =~= self.entries@);
        BackEdgeCounts { entries: v }
    }

    /// The position of the first entry whose edge is not below `e`.
    fn lower_bound(&self, e: &BackEdge) -> (r: usize)
        requires
            self.wf(),
        ensures
            r <= self.entries().len(),
            forall|i: int| 0 <= i < r ==> edge_lt(#[trigger] self.entries()[i].0, *e),
            forall|i: int|
                r <= i < self.entries().len() ==> !edge_lt(#[trigger] self.entries()[i].0, *e),
    {
        let n = self.entries.len();
        let mut i: usize = 0;
        while i < n
            invariant
                n == self.entries@.len(),
                i <= n,
                sorted_entries(self.entries@),
                forall|k: int| 0 <= k < i ==> edge_lt(#[trigger] self.entries@[k].0, *e),
            decreases n - i,
        {
            if !edge_less(&self.entries[i].0, e) {
                assert forall|k: int| i <= k < n implies !edge_lt(
                    #[trigger] self.entries@[k].0,
                    *e,
                ) by {
                    if k > i {
                        assert(edge_lt(self.entries@[i as int].0, self.entries@[k].0));
                    }
                };
                return i;
            }
            i += 1;
        }
        i
    }

    /// The entry index of `e`, if it has one.
    fn find(&self, e: &BackEdge) -> (r: Option<usize>)
        requires
            self.wf(),
        ensures
            match r {
                Some(i) => i < self.entries().len() && self.entries()[i as int].0 == *e,
                None => !self.has(*e),
            },
    {
        let i = self.lower_bound(e);
        if i < self.entries.len() && edge_eq(&self.entries[i].0, e) {
            Some(i)
        } else {
            assert(!self.has(*e)) by {
                if self.has(*e) {
                    let k = index_of_edge(self.entries(), *e);
                    if k < i {
                        assert(edge_lt(self.entries()[k].0, *e));
                    } else if k > i {
                        assert(edge_lt(self.entries()[i as int].0, self.entries()[k].0));
                        assert(!edge_lt(self.entries()[i as int].0, *e));
                    }
                }
            };
            None
        }
    }

    /// The count of `e`, if it has an entry.
    pub fn get(&self, e: &BackEdge) -> (r: Option<usize>)
        requires
            self.wf(),
        ensures
            r == self.count(*e),
    {
        match self.find(e) {
            Some(i) => {
                proof {
                    lemma_count_at(self.entries(), i as int);
                }
                Some(self.entries[i].1)
            },
            None => None,
        }
    }

    pub fn contains(&self, e: &BackEdge) -> (r: bool)
        requires
            self.wf(),
        ensures
            r == self.has(*e),
    {
        self.find(e).is_some()
    }

    /// Sets the count of `e` to `c`, adding an entry if there is none; all
    /// other entries stay as they are.
    pub fn set(&mut self, e: &BackEdge, c: usize)
        requires
            old(self).wf(),
        ensures
            final(self).wf(),
            forall|x: BackEdge| #[trigger]
                final(self).count(x) == if x == *e {
                    Some(c)
                } else {
                    old(self).count(x)
                },
    {
        let i = self.lower_bound(e);
        let ghost s0 = self.entries@;
        if i < self.entries.len() && edge_eq(&self.entries[i].0, e) {
            self.entries.set(i, (*e, c));
            proof {
                let s1 = self.entries@;
                assert(sorted_entries(s1)) by {
                    assert forall|a: int, b: int| 0 <= a < b < s1.len() implies edge_lt(
                        #[trigger] s1[a].0,
                        #[trigger] s1[b].0,
                    ) by {
                        assert(s1[a].0 == s0[a].0 && s1[b].0 == s0[b].0);
                    };
                };
                assert forall|x: BackEdge| #[trigger]
                    count_of(s1, x) == if x == *e {
                        Some(c)
                    } else {
                        count_of(s0, x)
                    } by {
                    if has_edge(s0, x) {
                        let k = index_of_edge(s0, x);
                        lemma_count_at(s0, k);
                        lemma_count_at(s1, k);
                    } else {
                        if has_edge(s1, x) {
                            let k = index_of_edge(s1, x);
                            assert(s0[k].0 == s1[k].0);
                        }
                    }
                    if x == *e {
                        lemma_count_at(s1, i as int);
                    }
                };
            }
        } else {
            self.entries.insert(i, (*e, c));
            proof {
                let s1 = self.entries@;
                assert(s1 == s0.insert(i as int, (*e, c)));
                assert forall|k: int| 0 <= k < s1.len() implies #[trigger] s1[k] == if k < i {
                    s0[k]
                } else if k == i {
                    (*e, c)
                } else {
                    s0[k - 1]
                } by {};
                assert(!has_edge(s0, *e)) by {
                    if has_edge(s0, *e) {
                        let k = index_of_edge(s0, *e);
                        if k < i {
                            assert(edge_lt(s0[k].0, *e));
                        } else if k > i {
                            assert(edge_lt(s0[i as int].0, s0[k].0));
                        }
                    }
                };
                assert(sorted_entries(s1)) by {
                    assert forall|a: int, b: int| 0 <= a < b < s1.len() implies edge_lt(
                        #[trigger] s1[a].0,
                        #[trigger] s1[b].0,
                    ) by {
                        if a < i && b == i {
                        } else if a == i && b > i {
                            assert(!edge_lt(s0[b - 1].0, *e));
                            assert(s0[b - 1].0 != *e);
                            assert(addr_lt(s0[b - 1].0.0, e.0) || addr_lt(e.0, s0[b - 1].0.0)
                                || s0[b - 1].0.0 == e.0);
                        } else if a < i && b > i {
                            assert(edge_lt(s0[a].0, s0[b - 1].0));
                        } else if a > i {
                            assert(edge_lt(s0[a - 1].0, s0[b - 1].0));
                        } else {
                            assert(edge_lt(s0[a].0, s0[b].0));
                        }
                    };
                };
                assert forall|x: BackEdge| #[trigger]
                    count_of(s1, x) == if x == *e {
                        Some(c)
                    } else {
                        count_of(s0, x)
                    } by {
                    if x == *e {
                        lemma_count_at(s1, i as int);
                    } else if has_edge(s0, x) {
                        let k = index_of_edge(s0, x);
                        lemma_count_at(s0, k);
                        if k < i {
                            lemma_count_at(s1, k);
                        } else {
                            assert(s1[k + 1] == s0[k]);
                            lemma_count_at(s1, k + 1);
                        }
                    } else if has_edge(s1, x) {
                        let k = index_of_edge(s1, x);
                        if k < i {
                            assert(s0[k].0 == x);
                        } else if k > i {
                            assert(s0[k - 1].0 == x);
                        }
                    }
                };
            }
        }
    }

    /// The counts, in edge order.
    pub fn counts(&self) -> (r: Vec<usize>)
        ensures
            r@ == self.counts_in_order(),
    {
        let mut v: Vec<usize> = Vec::new();
        let n = self.entries.len();
        let mut i: usize = 0;
        while i < n
            invariant
                n == self.entries@.len(),
                i <= n,
                v@ == self.entries@.subrange(0, i as int).map_values(|p: (BackEdge, usize)| p.1),
            decreases n - i,
        {
            v.push(self.entries[i].1);
            i += 1;
            assert(self.entries@.subrange(0, i as int).map_values(|p: (BackEdge, usize)| p.1)
                =~= v@);
        }
        assert(self.entries@.subrange(0, n as int) =~= self.entries@);
        v
    }

    /// The edges, in order.
    pub fn edges(&self) -> (r: Vec<BackEdge>)
        ensures
            r@ == self.entries().map_values(|p: (BackEdge, usize)| p.0),
    {
        let mut v: Vec<BackEdge> = Vec::new();
        let n = self.entries.len();
        let mut i: usize = 0;
        while i < n
            invariant
                n == self.entries@.len(),
                i <= n,
                v@ == self.entries@.subrange(0, i as int).map_values(|p: (BackEdge, usize)| p.0),
            decreases n - i,
        {
            v.push(self.entries[i].0);
            i += 1;
            assert(self.entries@.subrange(0, i as int).map_values(|p: (BackEdge, usize)| p.0)
                =~= v@);
        }
        assert(self.entries@.subrange(0, n as int) =~= self.entries@);
        v
    }

    /// Whether some count is at least `bound`.
    pub fn any_at_least(&self, bound: usize) -> (r: bool)
        ensures
            r == exists|i: int|
                0 <= i < self.entries().len() && #[trigger] self.entries()[i].1 >= bound,
    {
        let n = self.entries.len();
        let mut i: usize = 0;
        while i < n
            invariant
                n == self.entries@.len(),
                i <= n,
                forall|k: int| 0 <= k < i ==> #[trigger] self.entries@[k].1 < bound,
            decreases n - i,
        {
            if self.entries[i].1 >= bound {
                assert(self.entries()[i as int].1 >= bound);
                return true;
            }
            i += 1;
        }
        false
    }

    /// Whether both hold the same entries.
    pub fn same(&self, other: &Self) -> (r: bool)
        ensures
            r == (self.entries() == other.entries()),
    {
        let n = self.entries.len();
        if n != other.entries.len() {
            return false;
        }
        let mut i: usize = 0;
        while i < n
            invariant
                n == self.entries@.len(),
                n == other.entries@.len(),
                i <= n,
                forall|k: int| 0 <= k < i ==> self.entries@[k] == other.entries@[k],
            decreases n - i,
        {
            let a = self.entries[i];
            let b = other.entries[i];
            if !(edge_eq(&a.0, &b.0) && a.1 == b.1) {
                return false;
            }
            i += 1;
        }
        assert(self.entries@ =~= other.entries@);
        true
    }
}


/// The count, or 0 for an edge without an entry.
pub open spec fn count_or_zero(c: Option<usize>) -> usize {
    match c {
        Some(n) => n,
        None => 0,
    }
}

pub open spec fn max_usize(a: usize, b: usize) -> usize {
    if a >= b { a } else { b }
}

/// The count of an edge in a join: the larger of the two, an edge that one
/// side lacks taking the other's count.
pub open spec fn joined_count(a: Option<usize>, b: Option<usize>) -> Option<usize> {
    match (a, b) {
        (Some(x), Some(y)) => Some(max_usize(x, y)),
        (Some(x), None) => Some(x),
        (None, Some(y)) => Some(max_usize(0, y)),
        (None, None) => None,
    }
}

/// Joining counts is commutative, idempotent, and bounds both sides from
/// above.
pub proof fn lemma_joined_count_laws(a: Option<usize>, b: Option<usize>)
    ensures
        joined_count(a, b) == joined_count(b, a),
        joined_count(a, a) == a,
        a matches Some(x) ==> joined_count(a, b) matches Some(z) && x <= z,
        b matches Some(y) ==> joined_count(a, b) matches Some(z) && y <= z,
{
}

impl BackEdgeCounts {
    /// Same edges as `self`, each with the larger of its two counts (an edge
    /// that `other` lacks counts 0 there).
    pub open spec fn spec_max_with(self, other: Self) -> Seq<(BackEdge, usize)> {
        self.entries().map_values(
            |p: (BackEdge, usize)| (p.0, max_usize(p.1, count_or_zero(other.count(p.0)))),
        )
    }

    /// Same edges as `self`, each with `other`'s count (0 where `other` lacks it).
    pub open spec fn spec_take_from(self, other: Self) -> Seq<(BackEdge, usize)> {
        self.entries().map_values(|p: (BackEdge, usize)| (p.0, count_or_zero(other.count(p.0))))
    }

    pub fn max_with(&self, other: &Self) -> (r: Self)
        requires
            self.wf(),
            other.wf(),
        ensures
            r.wf(),
            r.entries() == self.spec_max_with(*other),
    {
        let mut v: Vec<(BackEdge, usize)> = Vec::new();
        let n = self.entries.len();
        let mut i: usize = 0;
        while i < n
            invariant
                n == self.entries@.len(),
                i <= n,
                other.wf(),
                v@ == self.entries@.subrange(0, i as int).map_values(
                    |p: (BackEdge, usize)| (p.0, max_usize(p.1, count_or_zero(other.count(p.0)))),
                ),
            decreases n - i,
        {
            let (e, c) = self.entries[i];
            let o = match other.get(&e) {
                Some(x) => x,
                None => 0,
            };
            let m = if c >= o { c } else { o };
            v.push((e, m));
            i += 1;
            assert(self.entries@.subrange(0, i as int).map_values(
                |p: (BackEdge, usize)| (p.0, max_usize(p.1, count_or_zero(other.count(p.0)))),
            ) =~= v@);
        }
        assert(self.entries@.subrange(0, n as int) =~= self.entries@);
        let r = BackEdgeCounts { entries: v };
        assert(sorted_entries(r.entries@)) by {
            assert forall|a: int, b: int| 0 <= a < b < r.entries@.len() implies edge_lt(
                #[trigger] r.entries@[a].0,
                #[trigger] r.entries@[b].0,
            ) by {
                assert(r.entries@[a].0 == self.entries@[a].0);
                assert(r.entries@[b].0 == self.entries@[b].0);
            };
        };
        r
    }

    pub fn take_from(&self, other: &Self) -> (r: Self)
        requires
            self.wf(),
            other.wf(),
        ensures
            r.wf(),
            r.entries() == self.spec_take_from(*other),
    {
        let mut v: Vec<(BackEdge, usize)> = Vec::new();
        let n = self.entries.len();
        let mut i: usize = 0;
        while i < n
            invariant
                n == self.entries@.len(),
                i <= n,
                other.wf(),
                v@ == self.entries@.subrange(0, i as int).map_values(
                    |p: (BackEdge, usize)| (p.0, count_or_zero(other.count(p.0))),
                ),
            decreases n - i,
        {
            let e = self.entries[i].0;
            let o = match other.get(&e) {
                Some(x) => x,
                None => 0,
            };
            v.push((e, o));
            i += 1;
            assert(self.entries@.subrange(0, i as int).map_values(
                |p: (BackEdge, usize)| (p.0, count_or_zero(other.count(p.0))),
            ) =~= v@);
        }
        assert(self.entries@.subrange(0, n as int) =~= self.entries@);
        let r = BackEdgeCounts { entries: v };
        assert(sorted_entries(r.entries@)) by {
            assert forall|a: int, b: int| 0 <= a < b < r.entries@.len() implies edge_lt(
                #[trigger] r.entries@[a].0,
                #[trigger] r.entries@[b].0,
            ) by {
                assert(r.entries@[a].0 == self.entries@[a].0);
                assert(r.entries@[b].0 == self.entries@[b].0);
            };
        };
        r
    }

    /// Raises each count of `self` to `other`'s where that is larger, adding
    /// the edges that only `other` has.
    pub fn join_max(&mut self, other: &Self)
        requires
            old(self).wf(),
            other.wf(),
        ensures
            final(self).wf(),
            forall|x: BackEdge| #[trigger]
                final(self).count(x) == joined_count(old(self).count(x), other.count(x)),
    {
        let ghost start = *self;
        let n = other.entries.len();
        let mut i: usize = 0;
        while i < n
            invariant
                n == other.entries@.len(),
                i <= n,
                other.wf(),
                self.wf(),
                start.wf(),
                forall|x: BackEdge| #[trigger]
                    self.count(x) == if exists|k: int| 0 <= k < i && other.entries@[k].0 == x {
                        match (start.count(x), other.count(x)) {
                            (Some(a), Some(b)) => Some(max_usize(a, b)),
                            (None, Some(b)) => Some(max_usize(0, b)),
                            _ => start.count(x),
                        }
                    } else {
                        start.count(x)
                    },
            decreases n - i,
        {
            let (e, c) = other.entries[i];
            proof {
                lemma_count_at(other.entries@, i as int);
            }
            let cur = match self.get(&e) {
                Some(x) => x,
                None => 0,
            };
            let m = if cur >= c { cur } else { c };
            let ghost before = *self;
            self.set(&e, m);
            assert forall|x: BackEdge| #[trigger]
                self.count(x) == if exists|k: int| 0 <= k < i + 1 && other.entries@[k].0 == x {
                    match (start.count(x), other.count(x)) {
                        (Some(a), Some(b)) => Some(max_usize(a, b)),
                        (None, Some(b)) => Some(max_usize(0, b)),
                        _ => start.count(x),
                    }
                } else {
                    start.count(x)
                } by {
                if x == e {
                    assert(other.entries@[i as int].0 == x);
                    if exists|k: int| 0 <= k < i && other.entries@[k].0 == x {
                        let k = choose|k: int| 0 <= k < i && other.entries@[k].0 == x;
                        assert(edge_lt(other.entries@[k].0, other.entries@[i as int].0));
                    }
                } else {
                    if exists|k: int| 0 <= k < i + 1 && other.entries@[k].0 == x {
                        let k = choose|k: int| 0 <= k < i + 1 && other.entries@[k].0 == x;
                        assert(k != i);
                    }
                }
            };
            i += 1;
        }
        assert forall|x: BackEdge| #[trigger]
            self.count(x) == match (start.count(x), other.count(x)) {
                (Some(a), Some(b)) => Some(max_usize(a, b)),
                (Some(a), None) => Some(a),
                (None, Some(b)) => Some(max_usize(0, b)),
                (None, None) => None,
            } by {
            if other.count(x) is Some {
                let k = index_of_edge(other.entries@, x);
                assert(0 <= k < n && other.entries@[k].0 == x);
            } else {
                if exists|k: int| 0 <= k < n && other.entries@[k].0 == x {
                    let k = choose|k: int| 0 <= k < n && other.entries@[k].0 == x;
                    assert(has_edge(other.entries@, x));
                }
            }
        };
    }
}

/// A set of addresses, kept sorted.
#[derive(Debug)]
pub struct AddressSet {
    items: Vec<ConcretePcodeAddress>,
}

impl AddressSet {
    pub closed spec fn items(self) -> Seq<ConcretePcodeAddress> {
        self.items@
    }

    pub open spec fn wf(self) -> bool {
        forall|i: int, j: int|
            0 <= i < j < self.items().len() ==> addr_lt(
                #[trigger] self.items()[i],
                #[trigger] self.items()[j],
            )
    }

    /// The addresses in the set.
    pub open spec fn view(self) -> Set<ConcretePcodeAddress> {
        self.items().to_set()
    }

    pub fn new() -> (r: Self)
        ensures
            r.wf(),
            r@ == Set::<ConcretePcodeAddress>::empty(),
    {
        let r = AddressSet { items: Vec::new() };
        assert(r@ =~= Set::<ConcretePcodeAddress>::empty());
        r
    }

    pub fn duplicate(&self) -> (r: Self)
        ensures
            r.items() == self.items(),
    {
        let mut v: Vec<ConcretePcodeAddress> = Vec::new();
        let n = self.items.len();
        let mut i: usize = 0;
        while i < n
            invariant
                n == self.items@.len(),
                i <= n,
                v@ == self.items@.subrange(0, i as int),
            decreases n - i,
        {
            v.push(self.items[i]);
            i += 1;
        }
        assert(v@ =~= self.items@);
        AddressSet { items: v }
    }

    fn lower_bound(&self, a: &ConcretePcodeAddress) -> (r: usize)
        requires
            self.wf(),
        ensures
            r <= self.items().len(),
            forall|i: int| 0 <= i < r ==> addr_lt(#[trigger] self.items()[i], *a),
            forall|i: int| r <= i < self.items().len() ==> !addr_lt(#[trigger] self.items()[i], *a),
    {
        let n = self.items.len();
        let mut i: usize = 0;
        while i < n
            invariant
                n == self.items@.len(),
                i <= n,
                self.wf(),
                forall|k: int| 0 <= k < i ==> addr_lt(#[trigger] self.items@[k], *a),
            decreases n - i,
        {
            if !addr_less(&self.items[i], a) {
                assert forall|k: int| i <= k < n implies !addr_lt(#[trigger] self.items@[k], *a) by {
                    if k > i {
                        assert(addr_lt(self.items()[i as int], self.items()[k]));
                    }
                };
                return i;
            }
            i += 1;
        }
        i
    }

    pub fn contains(&self, a: &ConcretePcodeAddress) -> (r: bool)
        requires
            self.wf(),
        ensures
            r == self@.contains(*a),
    {
        let i = self.lower_bound(a);
        if i < self.items.len() && self.items[i] == *a {
            assert(self.items()[i as int] == *a);
            true
        } else {
            assert(!self@.contains(*a)) by {
                if self.items().contains(*a) {
                    let k = choose|k: int| 0 <= k < self.items().len() && self.items()[k] == *a;
                    if k > i {
                        assert(addr_lt(self.items()[i as int], self.items()[k]));
                    }
                }
            };
            false
        }
    }

    pub fn insert(&mut self, a: &ConcretePcodeAddress)
        requires
            old(self).wf(),
        ensures
            final(self).wf(),
            final(self)@ == old(self)@.insert(*a),
    {
        let i = self.lower_bound(a);
        let ghost s0 = self.items@;
        if i < self.items.len() && self.items[i] == *a {
            assert(self@ =~= self@.insert(*a));
        } else {
            self.items.insert(i, *a);
            proof {
                let s1 = self.items@;
                assert forall|k: int| 0 <= k < s1.len() implies #[trigger] s1[k] == if k < i {
                    s0[k]
                } else if k == i {
                    *a
                } else {
                    s0[k - 1]
                } by {};
                assert forall|x: int, y: int| 0 <= x < y < s1.len() implies addr_lt(
                    #[trigger] s1[x],
                    #[trigger] s1[y],
                ) by {
                    if x < i && y > i {
                        assert(addr_lt(s0[x], s0[y - 1]));
                    } else if x > i {
                        assert(addr_lt(s0[x - 1], s0[y - 1]));
                    } else if x == i && y > i {
                        assert(!addr_lt(s0[y - 1], *a));
                        assert(s0[y - 1] != *a) by {
                            if y - 1 > i {
                                assert(addr_lt(s0[i as int], s0[y - 1]));
                            }
                        };
                    } else if x < i && y < i {
                        assert(addr_lt(s0[x], s0[y]));
                    }
                };
                assert(s1.to_set() =~= s0.to_set().insert(*a)) by {
                    assert forall|z: ConcretePcodeAddress| s1.to_set().contains(z) implies s0.to_set().insert(*a).contains(z) by {
                        let k = choose|k: int| 0 <= k < s1.len() && s1[k] == z;
                        if k < i {
                            assert(s0[k] == z);
                        } else if k > i {
                            assert(s0[k - 1] == z);
                        }
                    };
                    assert forall|z: ConcretePcodeAddress| s0.to_set().insert(*a).contains(z) implies s1.to_set().contains(z) by {
                        if z == *a {
                            assert(s1[i as int] == z);
                        } else {
                            let k = choose|k: int| 0 <= k < s0.len() && s0[k] == z;
                            if k < i {
                                assert(s1[k] == z);
                            } else {
                                assert(s1[k + 1] == z);
                            }
                        }
                    };
                };
            }
        }
    }

    /// Adds every address of `other`.
    pub fn extend(&mut self, other: &Self)
        requires
            old(self).wf(),
        ensures
            final(self).wf(),
            final(self)@ == old(self)@.union(other@),
    {
        let ghost start = self@;
        let n = other.items.len();
        let mut i: usize = 0;
        while i < n
            invariant
                n == other.items@.len(),
                i <= n,
                self.wf(),
                self@ == start.union(other.items@.subrange(0, i as int).to_set()),
            decreases n - i,
        {
            let a = other.items[i];
            self.insert(&a);
            i += 1;
            assert(other.items@.subrange(0, i as int).to_set() =~= other.items@.subrange(
                0,
                i - 1,
            ).to_set().insert(a)) by {
                assert(other.items@.subrange(0, i as int) =~= other.items@.subrange(
                    0,
                    i - 1,
                ).push(a));
                other.items@.subrange(0, i - 1).lemma_push_to_set_commute(a);
            };
            assert(self@ =~= start.union(other.items@.subrange(0, i as int).to_set()));
        }
        assert(other.items@.subrange(0, n as int) =~= other.items@);
    }
}


impl BackEdgeCounts {
    /// Every edge of `edges` with a count of zero.
    pub fn zeros(edges: &Vec<BackEdge>) -> (r: Self)
        ensures
            r.wf(),
            forall|e: BackEdge| #[trigger]
                r.count(e) == if edges@.contains(e) {
                    Some(0usize)
                } else {
                    None
                },
    {
        let mut visits = BackEdgeCounts::new();
        let n = edges.len();
        let mut i: usize = 0;
        while i < n
            invariant
                n == edges@.len(),
                i <= n,
                visits.wf(),
                forall|e: BackEdge| #[trigger]
                    visits.count(e) == if edges@.subrange(0, i as int).contains(e) {
                        Some(0usize)
                    } else {
                        None
                    },
            decreases n - i,
        {
            let e = edges[i];
            visits.set(&e, 0);
            i += 1;
            assert forall|x: BackEdge| #[trigger]
                visits.count(x) == if edges@.subrange(0, i as int).contains(x) {
                    Some(0usize)
                } else {
                    None
                } by {
                assert(edges@.subrange(0, i as int) =~= edges@.subrange(0, i - 1).push(e));
                if edges@.subrange(0, i - 1).contains(x) {
                    let k = choose|k: int| 0 <= k < i - 1 && #[trigger] edges@.subrange(0, i - 1)[k] == x;
                    assert(edges@.subrange(0, i as int)[k] == x);
                }
                if x == e {
                    assert(edges@.subrange(0, i as int)[i - 1] == x);
                }
            };
        }
        assert(edges@.subrange(0, n as int) =~= edges@);
        visits
    }
}

/// One more traversal of an edge that has a count.
pub open spec fn bumped(c: Option<usize>) -> Option<usize> {
    match c {
        Some(n) => Some((n + 1) as usize),
        None => None,
    }
}

} // verus!
