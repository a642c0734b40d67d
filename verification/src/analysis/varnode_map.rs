//! A compact map keyed by varnodes, kept as a sorted vector of keys beside a
//! vector of values.
use crate::sleigh::VarNode;
use vstd::prelude::*;

verus! {

/// Varnodes are ordered by space index, then offset, then size.
pub open spec fn vn_lt(a: VarNode, b: VarNode) -> bool {
    ||| a.space_index < b.space_index
    ||| (a.space_index == b.space_index && a.offset < b.offset)
    ||| (a.space_index == b.space_index && a.offset == b.offset && a.size < b.size)
}

/// A key together with its position in the map.
#[derive(Clone, Copy, Debug, PartialEq, Eq, Hash, Structural)]
struct VnWrapper(pub VarNode, pub usize);

/// A map from varnodes to values, kept sorted by key.
#[derive(Clone, Debug, PartialEq, Eq, Hash)]
pub struct VarNodeMap<T> {
    vns: Vec<VnWrapper>,
    data: Vec<T>,
}

/// The keys are strictly increasing.
pub open spec fn keys_sorted(k: Seq<VarNode>) -> bool {
    forall|i: int, j: int| 0 <= i < j < k.len() ==> vn_lt(#[trigger] k[i], #[trigger] k[j])
}

proof fn lemma_vn_lt_trans(a: VarNode, b: VarNode, c: VarNode)
    requires
        vn_lt(a, b),
        vn_lt(b, c),
    ensures
        vn_lt(a, c),
{
}

impl<T> VarNodeMap<T> {
    /// The keys, in order.
    pub closed spec fn keys(self) -> Seq<VarNode> {
        self.vns@.map_values(|w: VnWrapper| w.0)
    }

    /// The values, position by position.
    pub closed spec fn values(self) -> Seq<T> {
        self.data@
    }

    /// The keys are sorted, the two vectors align, and every key records its
    /// own position.
    pub closed spec fn wf(self) -> bool {
        &&& self.vns@.len() == self.data@.len()
        &&& keys_sorted(self.keys())
        &&& forall|i: int| 0 <= i < self.vns@.len() ==> (#[trigger] self.vns@[i]).1 == i
    }

    /// The value stored for `k`, if any.
    pub open spec fn lookup(self, k: VarNode) -> Option<T> {
        if exists|i: int| 0 <= i < self.keys().len() && #[trigger] self.keys()[i] == k {
            let i = choose|i: int| 0 <= i < self.keys().len() && #[trigger] self.keys()[i] == k;
            Some(self.values()[i])
        } else {
            None
        }
    }

    /// The number of entries, as a mathematical integer.
    pub open spec fn spec_len(self) -> nat {
        self.keys().len()
    }

    proof fn lemma_lookup_at(self, i: int)
        requires
            self.wf(),
            0 <= i < self.keys().len(),
        ensures
            self.lookup(self.keys()[i]) == Some(self.values()[i]),
    {
        let k = self.keys()[i];
        let j = choose|j: int| 0 <= j < self.keys().len() && #[trigger] self.keys()[j] == k;
        if j < i {
            assert(vn_lt(self.keys()[j], self.keys()[i]));
        }
        if i < j {
            assert(vn_lt(self.keys()[i], self.keys()[j]));
        }
    }

    /// Create an empty map.
    pub fn new() -> (r: Self)
        ensures
            r.wf(),
            r.keys() == Seq::<VarNode>::empty(),
            forall|k: VarNode| #[trigger] r.lookup(k) is None,
    {
        VarNodeMap { vns: Vec::new(), data: Vec::new() }
    }

    /// Number of entries.
    pub fn len(&self) -> (r: usize)
        requires
            self.wf(),
        ensures
            r == self.spec_len(),
    {
        proof {
            assert(self.keys().len() == self.vns@.len());
        }
        self.data.len()
    }

    /// Is the map empty?
    pub fn is_empty(&self) -> (r: bool)
        requires
            self.wf(),
        ensures
            r == (self.spec_len() == 0),
    {
        proof {
            assert(self.keys().len() == self.vns@.len());
        }
        self.data.len() == 0
    }

    /// Whether `a` comes before `b` in key order.
    fn vn_less(a: &VarNode, b: &VarNode) -> (r: bool)
        ensures
            r == vn_lt(*a, *b),
    {
        if a.space_index != b.space_index {
            a.space_index < b.space_index
        } else if a.offset != b.offset {
            a.offset < b.offset
        } else {
            a.size < b.size
        }
    }

    /// Find the position of `vn` among the keys: `Ok(index)` if present, or
    /// `Err(insertion_index)`, the position that keeps the keys sorted.
    fn position_of(&self, vn: &VarNode) -> (r: Result<usize, usize>)
        requires
            self.wf(),
        ensures
            match r {
                Ok(i) => i < self.keys().len() && self.keys()[i as int] == *vn,
                Err(i) => i <= self.keys().len()
                    && (forall|j: int| 0 <= j < i ==> vn_lt(#[trigger] self.keys()[j], *vn))
                    && (forall|j: int| i <= j < self.keys().len() ==> vn_lt(*vn, #[trigger] self.keys()[j])),
            },
    {
        let ghost k = self.keys();
        let mut lo: usize = 0;
        let mut hi: usize = self.vns.len();
        while lo < hi
            invariant
                self.wf(),
                k == self.keys(),
                k.len() == self.vns@.len(),
                lo <= hi <= k.len(),
                forall|j: int| 0 <= j < lo ==> vn_lt(#[trigger] k[j], *vn),
                forall|j: int| hi <= j < k.len() ==> vn_lt(*vn, #[trigger] k[j]),
            decreases hi - lo,
        {
            let mid = lo + (hi - lo) / 2;
            let key = self.vns[mid].0;
            assert(k[mid as int] == key);
            if Self::vn_less(&key, vn) {
                proof {
                    assert forall|j: int| 0 <= j < mid + 1 implies vn_lt(#[trigger] k[j], *vn) by {
                        if j < mid {
                            lemma_vn_lt_trans(k[j], k[mid as int], *vn);
                        }
                    }
                }
                lo = mid + 1;
            } else if Self::vn_less(vn, &key) {
                proof {
                    assert forall|j: int| mid <= j < k.len() implies vn_lt(*vn, #[trigger] k[j]) by {
                        if j > mid {
                            lemma_vn_lt_trans(*vn, k[mid as int], k[j]);
                        }
                    }
                }
                hi = mid;
            } else {
                return Ok(mid);
            }
        }
        Err(lo)
    }
}

impl<T> VarNodeMap<T> {
    proof fn lemma_absent(self, vn: VarNode, i: int)
        requires
            self.wf(),
            0 <= i <= self.keys().len(),
            forall|j: int| 0 <= j < i ==> vn_lt(#[trigger] self.keys()[j], vn),
            forall|j: int| i <= j < self.keys().len() ==> vn_lt(vn, #[trigger] self.keys()[j]),
        ensures
            self.lookup(vn) is None,
    {
        if exists|j: int| 0 <= j < self.keys().len() && #[trigger] self.keys()[j] == vn {
            let j = choose|j: int| 0 <= j < self.keys().len() && #[trigger] self.keys()[j] == vn;
            if j < i {
                assert(vn_lt(self.keys()[j], vn));
            } else {
                assert(vn_lt(vn, self.keys()[j]));
            }
        }
    }

    /// Returns true if the map contains the given varnode.
    pub fn contains(&self, vn: &VarNode) -> (r: bool)
        requires
            self.wf(),
        ensures
            r == (self.lookup(*vn) is Some),
    {
        match self.position_of(vn) {
            Ok(i) => {
                proof {
                    self.lemma_lookup_at(i as int);
                }
                true
            }
            Err(i) => {
                proof {
                    self.lemma_absent(*vn, i as int);
                }
                false
            }
        }
    }

    /// Get a reference to a value by varnode.
    pub fn get(&self, vn: &VarNode) -> (r: Option<&T>)
        requires
            self.wf(),
        ensures
            r is Some == self.lookup(*vn) is Some,
            r matches Some(v) ==> self.lookup(*vn) == Some(*v),
    {
        match self.position_of(vn) {
            Ok(i) => {
                proof {
                    self.lemma_lookup_at(i as int);
                    assert(self.values()[i as int] == self.data@[i as int]);
                }
                Some(&self.data[i])
            }
            Err(i) => {
                proof {
                    self.lemma_absent(*vn, i as int);
                }
                None
            }
        }
    }

    /// Insert a value for `vn`. If the key already exists the old value is
    /// returned and replaced. Otherwise the key is inserted at the position
    /// that keeps the keys sorted, and `None` is returned.
    pub fn insert(&mut self, vn: VarNode, value: T) -> (r: Option<T>)
        requires
            old(self).wf(),
        ensures
            final(self).wf(),
            r == old(self).lookup(vn),
            forall|k: VarNode| #[trigger] final(self).lookup(k) == if k == vn { Some(value) } else { old(self).lookup(k) },
    {
        let ghost k0 = self.keys();
        let ghost v0 = self.values();
        match self.position_of(&vn) {
            Ok(idx) => {
                proof {
                    self.lemma_lookup_at(idx as int);
                }
                let mut value = value;
                std::mem::swap(&mut self.data[idx], &mut value);
                proof {
                    assert(self.keys() == k0);
                    assert forall|k: VarNode| #[trigger] self.lookup(k) == if k == vn { Some(self.values()[idx as int]) } else { old(self).lookup(k) } by {
                        if exists|j: int| 0 <= j < k0.len() && #[trigger] k0[j] == k {
                            let j = choose|j: int| 0 <= j < k0.len() && #[trigger] k0[j] == k;
                            self.lemma_lookup_at(j);
                            old(self).lemma_lookup_at(j);
                        }
                    }
                }
                Some(value)
            }
            Err(idx) => {
                proof {
                    self.lemma_absent(vn, idx as int);
                }
                self.vns.insert(idx, VnWrapper(vn, idx));
                self.data.insert(idx, value);
                let n = self.vns.len();
                let mut j: usize = idx + 1;
                while j < n
                    invariant
                        idx < j <= n == self.vns@.len() == self.data@.len(),
                        self.keys() == k0.insert(idx as int, vn),
                        self.values() == v0.insert(idx as int, value),
                        forall|x: int| 0 <= x < j ==> (#[trigger] self.vns@[x]).1 == x,
                    decreases n - j,
                {
                    let w = self.vns[j];
                    let ghost before = self.vns@;
                    self.vns.set(j, VnWrapper(w.0, j));
                    proof {
                        assert(self.vns@ == before.update(j as int, VnWrapper(w.0, j)));
                        assert(self.keys() =~= k0.insert(idx as int, vn)) by {
                            assert forall|x: int| 0 <= x < self.vns@.len() implies #[trigger] self.keys()[x] == k0.insert(idx as int, vn)[x] by {
                                if x == j {
                                    assert(before[x].0 == w.0);
                                }
                            }
                        }
                    }
                    j = j + 1;
                }
                proof {
                    let k1 = self.keys();
                    assert forall|a: int, b: int| 0 <= a < b < k1.len() implies vn_lt(#[trigger] k1[a], #[trigger] k1[b]) by {
                        if b < idx {
                            assert(k1[a] == k0[a] && k1[b] == k0[b]);
                        } else if b == idx {
                            assert(k1[a] == k0[a]);
                        } else if a > idx {
                            assert(k1[a] == k0[a - 1] && k1[b] == k0[b - 1]);
                        } else if a == idx {
                            assert(k1[b] == k0[b - 1]);
                        } else {
                            assert(k1[a] == k0[a] && k1[b] == k0[b - 1]);
                            lemma_vn_lt_trans(k0[a], vn, k0[b - 1]);
                        }
                    }
                    assert(self.wf());
                    assert forall|k: VarNode| #[trigger] self.lookup(k) == if k == vn { Some(value) } else { old(self).lookup(k) } by {
                        self.lemma_lookup_at(idx as int);
                        if k != vn {
                            if exists|x: int| 0 <= x < k0.len() && #[trigger] k0[x] == k {
                                let x = choose|x: int| 0 <= x < k0.len() && #[trigger] k0[x] == k;
                                old(self).lemma_lookup_at(x);
                                let y = if x < idx { x } else { x + 1 };
                                assert(k1[y] == k);
                                self.lemma_lookup_at(y);
                            } else {
                                assert forall|y: int| 0 <= y < k1.len() implies #[trigger] k1[y] != k by {
                                    if y < idx {
                                        assert(k1[y] == k0[y]);
                                    } else if y > idx {
                                        assert(k1[y] == k0[y - 1]);
                                    }
                                }
                            }
                        }
                    }
                }
                None
            }
        }
    }

    /// Remove a mapping by varnode. Returns the removed value if present.
    pub fn remove(&mut self, vn: &VarNode) -> (r: Option<T>)
        requires
            old(self).wf(),
        ensures
            final(self).wf(),
            r == old(self).lookup(*vn),
            forall|k: VarNode| #[trigger] final(self).lookup(k) == if k == *vn { None } else { old(self).lookup(k) },
    {
        let ghost k0 = self.keys();
        let ghost v0 = self.values();
        match self.position_of(vn) {
            Ok(idx) => {
                proof {
                    self.lemma_lookup_at(idx as int);
                }
                self.vns.remove(idx);
                let removed = self.data.remove(idx);
                let n = self.vns.len();
                let mut j: usize = idx;
                while j < n
                    invariant
                        idx <= j <= n == self.vns@.len() == self.data@.len(),
                        self.keys() == k0.remove(idx as int),
                        self.values() == v0.remove(idx as int),
                        forall|x: int| 0 <= x < j ==> (#[trigger] self.vns@[x]).1 == x,
                    decreases n - j,
                {
                    let w = self.vns[j];
                    let ghost before = self.vns@;
                    self.vns.set(j, VnWrapper(w.0, j));
                    proof {
                        assert(self.keys() =~= k0.remove(idx as int)) by {
                            assert forall|x: int| 0 <= x < self.vns@.len() implies #[trigger] self.keys()[x] == k0.remove(idx as int)[x] by {
                                if x == j {
                                    assert(before[x].0 == w.0);
                                }
                            }
                        }
                    }
                    j = j + 1;
                }
                proof {
                    let k1 = self.keys();
                    assert forall|a: int, b: int| 0 <= a < b < k1.len() implies vn_lt(#[trigger] k1[a], #[trigger] k1[b]) by {
                        let a0 = if a < idx { a } else { a + 1 };
                        let b0 = if b < idx { b } else { b + 1 };
                        assert(k1[a] == k0[a0] && k1[b] == k0[b0]);
                    }
                    assert(self.wf());
                    assert forall|k: VarNode| #[trigger] self.lookup(k) == if k == *vn { None } else { old(self).lookup(k) } by {
                        if exists|x: int| 0 <= x < k1.len() && #[trigger] k1[x] == k {
                            let x = choose|x: int| 0 <= x < k1.len() && #[trigger] k1[x] == k;
                            let x0 = if x < idx { x } else { x + 1 };
                            assert(k0[x0] == k);
                            self.lemma_lookup_at(x);
                            old(self).lemma_lookup_at(x0);
                            assert(x0 != idx);
                            if k == *vn {
                                if x0 < idx {
                                    assert(vn_lt(k0[x0], k0[idx as int]));
                                } else {
                                    assert(vn_lt(k0[idx as int], k0[x0]));
                                }
                            }
                        } else if k != *vn {
                            if exists|x: int| 0 <= x < k0.len() && #[trigger] k0[x] == k {
                                let x = choose|x: int| 0 <= x < k0.len() && #[trigger] k0[x] == k;
                                assert(x != idx);
                                let y = if x < idx { x } else { x - 1 };
                                assert(k1[y] == k);
                            }
                        }
                    }
                }
                Some(removed)
            }
            Err(i) => {
                proof {
                    self.lemma_absent(*vn, i as int);
                }
                None
            }
        }
    }
}

impl<T> VarNodeMap<T> {
    /// The entries as (key, value) references, in key order.
    pub fn items(&self) -> (r: Vec<(&VarNode, &T)>)
        requires
            self.wf(),
        ensures
            r@.len() == self.spec_len(),
            forall|i: int| 0 <= i < r@.len() ==> *(#[trigger] r@[i]).0 == self.keys()[i] && *r@[i].1 == self.values()[i],
    {
        let mut out: Vec<(&VarNode, &T)> = Vec::new();
        let n = self.vns.len();
        let mut i: usize = 0;
        while i < n
            invariant
                i <= n == self.vns@.len() == self.data@.len(),
                self.keys().len() == n,
                out@.len() == i,
                forall|x: int| 0 <= x < i ==> *(#[trigger] out@[x]).0 == self.keys()[x] && *out@[x].1 == self.values()[x],
            decreases n - i,
        {
            let ghost before = out@;
            out.push((&self.vns[i].0, &self.data[i]));
            proof {
                assert forall|x: int| 0 <= x < i + 1 implies *(#[trigger] out@[x]).0 == self.keys()[x] && *out@[x].1 == self.values()[x] by {
                    if x < i {
                        assert(out@[x] == before[x]);
                    }
                }
            }
            i = i + 1;
        }
        out
    }

    /// Same as `items`.
    pub fn iter(&self) -> (r: Vec<(&VarNode, &T)>)
        requires
            self.wf(),
        ensures
            r@.len() == self.spec_len(),
            forall|i: int| 0 <= i < r@.len() ==> *(#[trigger] r@[i]).0 == self.keys()[i] && *r@[i].1 == self.values()[i],
    {
        self.items()
    }

    /// Consumes the map into its (key, value) pairs, in key order.
    pub fn into_vec(self) -> (r: Vec<(VarNode, T)>)
        requires
            self.wf(),
        ensures
            r@.len() == self.spec_len(),
            forall|i: int| 0 <= i < r@.len() ==> (#[trigger] r@[i]).0 == self.keys()[i] && r@[i].1 == self.values()[i],
    {
        let ghost k = self.keys();
        let ghost v = self.values();
        let VarNodeMap { vns, data } = self;
        let mut data = data;
        let mut out: Vec<(VarNode, T)> = Vec::new();
        let n = vns.len();
        let mut i: usize = 0;
        while i < n
            invariant
                i <= n == vns@.len() == k.len() == v.len(),
                k == vns@.map_values(|w: VnWrapper| w.0),
                data@ == v.skip(i as int),
                out@.len() == i,
                forall|x: int| 0 <= x < i ==> (#[trigger] out@[x]).0 == k[x] && out@[x].1 == v[x],
            decreases n - i,
        {
            let value = data.remove(0);
            let ghost before = out@;
            out.push((vns[i].0, value));
            proof {
                assert(v.skip(i as int)[0] == v[i as int]);
                assert(v.skip(i + 1) =~= v.skip(i as int).remove(0));
                assert forall|x: int| 0 <= x < i + 1 implies (#[trigger] out@[x]).0 == k[x] && out@[x].1 == v[x] by {
                    if x < i {
                        assert(out@[x] == before[x]);
                    }
                }
            }
            i = i + 1;
        }
        out
    }

    /// Retain only the entries for which `f` answers `true`; the others are
    /// removed, one after another.
    pub fn retain<F: Fn(&VarNode, &T) -> bool>(&mut self, f: F)
        requires
            old(self).wf(),
            forall|k: VarNode, v: T| #[trigger] f.requires((&k, &v)),
        ensures
            final(self).wf(),
            forall|k: VarNode| #[trigger] final(self).lookup(k) is Some ==> final(self).lookup(k) == old(self).lookup(k)
                && f.ensures((&k, &old(self).lookup(k).unwrap()), true),
            forall|k: VarNode| (#[trigger] final(self).lookup(k) is None && old(self).lookup(k) is Some)
                ==> f.ensures((&k, &old(self).lookup(k).unwrap()), false),
    {
        let ghost s0 = *self;
        let mut to_remove: Vec<VarNode> = Vec::new();
        let n = self.vns.len();
        let mut i: usize = 0;
        while i < n
            invariant
                i <= n == self.vns@.len() == self.data@.len() == self.keys().len(),
                *self == s0,
                self.wf(),
                forall|k: VarNode, v: T| #[trigger] f.requires((&k, &v)),
                forall|x: int| 0 <= x < to_remove@.len() ==> exists|y: int| 0 <= y < i && (#[trigger] to_remove@[x]) == self.keys()[y]
                    && f.ensures((&self.keys()[y], &self.values()[y]), false),
                forall|y: int| 0 <= y < i ==> (to_remove@.contains(#[trigger] self.keys()[y])
                    || f.ensures((&self.keys()[y], &self.values()[y]), true)),
            decreases n - i,
        {
            let key = self.vns[i].0;
            assert(self.keys()[i as int] == key);
            let keep = f(&key, &self.data[i]);
            if !keep {
                let ghost before = to_remove@;
                to_remove.push(key);
                proof {
                    assert forall|x: int| 0 <= x < to_remove@.len() implies exists|y: int| 0 <= y < i + 1 && (#[trigger] to_remove@[x]) == self.keys()[y]
                        && f.ensures((&self.keys()[y], &self.values()[y]), false) by {
                        if x < before.len() {
                            assert(to_remove@[x] == before[x]);
                        } else {
                            assert(to_remove@[x] == self.keys()[i as int]);
                        }
                    }
                    assert forall|y: int| 0 <= y < i + 1 implies (to_remove@.contains(#[trigger] self.keys()[y])
                        || f.ensures((&self.keys()[y], &self.values()[y]), true)) by {
                        if y < i && before.contains(self.keys()[y]) {
                            let z = choose|z: int| 0 <= z < before.len() && before[z] == self.keys()[y];
                            assert(to_remove@[z] == self.keys()[y]);
                        }
                        if y == i {
                            assert(to_remove@[before.len() as int] == key);
                        }
                    }
                }
            }
            i = i + 1;
        }
        let m = to_remove.len();
        let mut j: usize = 0;
        while j < m
            invariant
                j <= m == to_remove@.len(),
                self.wf(),
                forall|k: VarNode| #[trigger] self.lookup(k) == if to_remove@.take(j as int).contains(k) { None } else { s0.lookup(k) },
            decreases m - j,
        {
            let k = to_remove[j];
            let ghost before = *self;
            self.remove(&k);
            proof {
                assert(to_remove@.take(j + 1) == to_remove@.take(j as int).push(k));
                assert forall|q: VarNode| #[trigger] self.lookup(q) == if to_remove@.take(j + 1).contains(q) { None } else { s0.lookup(q) } by {
                    assert(before.lookup(q) == if to_remove@.take(j as int).contains(q) { None } else { s0.lookup(q) });
                    assert(self.lookup(q) == if q == k { None } else { before.lookup(q) });
                    if to_remove@.take(j + 1).contains(q) && !to_remove@.take(j as int).contains(q) {
                        let z = choose|z: int| 0 <= z < j + 1 && #[trigger] to_remove@.take(j + 1)[z] == q;
                        if z < j {
                            assert(to_remove@.take(j as int)[z] == q);
                        }
                        assert(q == k);
                    }
                    if q == k {
                        assert(to_remove@.take(j + 1)[j as int] == k);
                    }
                    if to_remove@.take(j as int).contains(q) {
                        let z = choose|z: int| 0 <= z < j && to_remove@.take(j as int)[z] == q;
                        assert(to_remove@.take(j + 1)[z] == q);
                    }
                }
            }
            j = j + 1;
        }
        proof {
            assert(to_remove@.take(m as int) == to_remove@);
            assert forall|k: VarNode| #[trigger] self.lookup(k) is Some implies self.lookup(k) == s0.lookup(k)
                && f.ensures((&k, &s0.lookup(k).unwrap()), true) by {
                let y = choose|y: int| 0 <= y < s0.keys().len() && #[trigger] s0.keys()[y] == k;
                s0.lemma_lookup_at(y);
                assert(!to_remove@.contains(s0.keys()[y]));
            }
            assert forall|k: VarNode| (#[trigger] self.lookup(k) is None && s0.lookup(k) is Some)
                implies f.ensures((&k, &s0.lookup(k).unwrap()), false) by {
                assert(to_remove@.contains(k));
                let x = choose|x: int| 0 <= x < to_remove@.len() && to_remove@[x] == k;
                let y = choose|y: int| 0 <= y < n && (#[trigger] to_remove@[x]) == s0.keys()[y]
                    && f.ensures((&s0.keys()[y], &s0.values()[y]), false);
                s0.lemma_lookup_at(y);
            }
        }
    }
}

impl<T> Default for VarNodeMap<T> {
    fn default() -> (r: Self)
        ensures
            r.wf(),
            forall|k: VarNode| #[trigger] r.lookup(k) is None,
    {
        Self::new()
    }
}


/// Two strictly increasing sequences of varnodes with the same elements
/// are equal.
proof fn lemma_sorted_unique(s: Seq<VarNode>, t: Seq<VarNode>)
    requires
        keys_sorted(s),
        keys_sorted(t),
        forall|x: VarNode| s.contains(x) <==> t.contains(x),
    ensures
        s == t,
    decreases s.len(),
{
    if s.len() == 0 {
        if t.len() > 0 {
            assert(t.contains(t[0]));
        }
        assert(s =~= t);
    } else {
        if t.len() == 0 {
            assert(s.contains(s[0]));
        }
        let a = s.last();
        let b = t.last();
        assert(s.contains(a)) by {
            assert(s[s.len() - 1] == a);
        }
        assert(t.contains(b)) by {
            assert(t[t.len() - 1] == b);
        }
        if a != b {
            let j = choose|j: int| 0 <= j < t.len() && t[j] == a;
            let i = choose|i: int| 0 <= i < s.len() && s[i] == b;
            assert(vn_lt(t[j], t[t.len() - 1]));
            assert(vn_lt(s[i], s[s.len() - 1]));
            lemma_vn_lt_trans(a, b, a);
        }
        let s2 = s.drop_last();
        let t2 = t.drop_last();
        assert forall|x: VarNode| s2.contains(x) <==> t2.contains(x) by {
            if s2.contains(x) {
                let i = choose|i: int| 0 <= i < s2.len() && s2[i] == x;
                assert(s[i] == x);
                assert(vn_lt(s[i], s[s.len() - 1]));
                assert(t.contains(x));
                let j = choose|j: int| 0 <= j < t.len() && t[j] == x;
                if j == t.len() - 1 {
                    lemma_vn_lt_trans(x, a, x);
                }
                assert(t2[j] == x);
            }
            if t2.contains(x) {
                let j = choose|j: int| 0 <= j < t2.len() && t2[j] == x;
                assert(t[j] == x);
                assert(vn_lt(t[j], t[t.len() - 1]));
                assert(s.contains(x));
                let i = choose|i: int| 0 <= i < s.len() && s[i] == x;
                if i == s.len() - 1 {
                    lemma_vn_lt_trans(x, b, x);
                }
                assert(s2[i] == x);
            }
        }
        lemma_sorted_unique(s2, t2);
        assert(s =~= s2.push(a));
        assert(t =~= t2.push(b));
    }
}

impl<T> VarNodeMap<T> {
    /// Two well-formed maps with the same lookups have the same keys and
    /// values.
    pub proof fn lemma_ext(self, other: Self)
        requires
            self.wf(),
            other.wf(),
            forall|k: VarNode| #[trigger] self.lookup(k) == other.lookup(k),
        ensures
            self.keys() == other.keys(),
            self.values() == other.values(),
    {
        self.lemma_keys();
        other.lemma_keys();
        assert forall|x: VarNode| self.keys().contains(x) <==> other.keys().contains(x) by {
            assert(self.lookup(x) == other.lookup(x));
        }
        lemma_sorted_unique(self.keys(), other.keys());
        assert forall|i: int| 0 <= i < self.values().len() implies self.values()[i] == other.values()[i] by {
            assert(self.lookup(self.keys()[i]) == Some(self.values()[i]));
            assert(other.lookup(other.keys()[i]) == Some(other.values()[i]));
        }
        assert(self.values() =~= other.values());
    }

    /// A key has a value exactly when it is one of the keys; the keys are
    /// sorted.
    pub proof fn lemma_keys(self)
        requires
            self.wf(),
        ensures
            keys_sorted(self.keys()),
            forall|k: VarNode| #[trigger] self.lookup(k) is Some <==> self.keys().contains(k),
            self.spec_len() == self.keys().len(),
            self.keys().len() == self.values().len(),
            forall|i: int|
                0 <= i < self.keys().len() ==> #[trigger] self.lookup(self.keys()[i]) == Some(
                    self.values()[i],
                ),
    {
        assert forall|i: int| 0 <= i < self.keys().len() implies #[trigger] self.lookup(
            self.keys()[i],
        ) == Some(self.values()[i]) by {
            self.lemma_lookup_at(i);
        }
    }

    /// The value stored for `vn`, for changing in place; the keys stay.
    pub fn get_mut(&mut self, vn: &VarNode) -> (r: Option<&mut T>)
        requires
            old(self).wf(),
        ensures
            r is Some == old(self).lookup(*vn) is Some,
            final(self).keys() == old(self).keys(),
            final(self).wf(),
            match r {
                Some(v) => {
                    &&& old(self).lookup(*vn) == Some(*v)
                    &&& exists|i: int|
                        0 <= i < old(self).keys().len() && old(self).keys()[i] == *vn
                            && final(self).values() == old(self).values().update(i, *final(v))
                },
                None => final(self).values() == old(self).values(),
            },
    {
        match self.position_of(vn) {
            Ok(i) => {
                proof {
                    self.lemma_lookup_at(i as int);
                }
                let r = &mut self.data[i];
                Some(r)
            },
            Err(i) => {
                proof {
                    self.lemma_absent(*vn, i as int);
                }
                None
            },
        }
    }

    /// The values, in key order, for changing in place; the keys stay.
    pub fn values_mut(&mut self) -> (r: &mut Vec<T>)
        ensures
            r@ == old(self).values(),
            final(self).keys() == old(self).keys(),
            final(self).values() == final(r)@,
            final(r)@.len() == r@.len() ==> (old(self).wf() ==> final(self).wf()),
    {
        &mut self.data
    }

    /// The keys, in order.
    pub fn key_list(&self) -> (r: Vec<VarNode>)
        requires
            self.wf(),
        ensures
            r@ == self.keys(),
    {
        let mut out: Vec<VarNode> = Vec::new();
        let n = self.vns.len();
        let mut i: usize = 0;
        while i < n
            invariant
                n == self.vns@.len(),
                i <= n,
                out@ == self.keys().subrange(0, i as int),
            decreases n - i,
        {
            out.push(self.vns[i].0);
            i += 1;
            assert(out@ =~= self.keys().subrange(0, i as int));
        }
        assert(out@ =~= self.keys());
        out
    }
}


impl VarNodeMap<crate::analysis::valuation::value::Value> {
    /// A copy of the map, entry by entry.
    pub fn duplicate(&self) -> (r: Self)
        ensures
            r.keys() == self.keys(),
            r.values() == self.values(),
            r.wf() == self.wf(),
    {
        let mut vns: Vec<VnWrapper> = Vec::new();
        let mut data: Vec<crate::analysis::valuation::value::Value> = Vec::new();
        let n = self.vns.len();
        let m = self.data.len();
        let mut i: usize = 0;
        while i < n
            invariant
                n == self.vns@.len(),
                i <= n,
                vns@ == self.vns@.subrange(0, i as int),
            decreases n - i,
        {
            vns.push(self.vns[i]);
            i += 1;
            assert(vns@ =~= self.vns@.subrange(0, i as int));
        }
        let mut j: usize = 0;
        while j < m
            invariant
                m == self.data@.len(),
                j <= m,
                data@ == self.data@.subrange(0, j as int),
            decreases m - j,
        {
            data.push(crate::analysis::valuation::value::duplicate(&self.data[j]));
            j += 1;
            assert(data@ =~= self.data@.subrange(0, j as int));
        }
        assert(vns@ =~= self.vns@);
        assert(data@ =~= self.data@);
        VarNodeMap { vns, data }
    }
}

} // verus!
