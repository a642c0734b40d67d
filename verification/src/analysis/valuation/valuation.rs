//! What a state knows: the value of each written register (direct writes)
//! and of each memory location written through a pointer (indirect writes).
use crate::analysis::valuation::order::{lemma_lex_asym, lemma_lex_trans, lex_lt_of, value_key, value_key_of, value_lt};
use crate::analysis::valuation::simplify::simplified;
use crate::analysis::valuation::value::{Entry, Load, Value, duplicate, spec_insert_bytes, values_equal};
use crate::analysis::varnode_map::{VarNodeMap, keys_sorted, vn_lt};
use crate::sleigh::VarNode;
use vstd::prelude::*;
use vstd::std_specs::convert::FromSpecImpl;

verus! {

/// A varnode whose end fits in 64 bits.
pub open spec fn vn_ok(vn: VarNode) -> bool {
    vn.end() <= u64::MAX
}

/// Every key of the map ends within 64 bits.
pub open spec fn map_ok(m: VarNodeMap<Value>) -> bool {
    forall|k: VarNode| #[trigger] m.lookup(k) is Some ==> vn_ok(k)
}

/// The value of `k` after `val` is written to `vn`: `vn` takes `val`; the
/// entries that `vn` covers are dropped; an entry that covers `vn` gets the
/// bytes of `val` written into its value; other entries stay.
pub open spec fn after_write(old_k: Option<Value>, vn: VarNode, val: Value, k: VarNode) -> Option<
    Value,
> {
    if k == vn {
        Some(val)
    } else if vn.spec_covers(k) {
        None
    } else if k.spec_covers(vn) && old_k is Some {
        Some(simplified(spec_insert_bytes(old_k->0, val, (vn.offset - k.offset) as usize)))
    } else {
        old_k
    }
}

/// Writes `val` to `vn` in `m`, as `after_write` describes.
pub fn write_map(m: &mut VarNodeMap<Value>, vn: VarNode, val: Value)
    requires
        old(m).wf(),
        map_ok(*old(m)),
        vn_ok(vn),
    ensures
        final(m).wf(),
        map_ok(*final(m)),
        forall|k: VarNode| #[trigger] final(m).lookup(k) == after_write(old(m).lookup(k), vn, val, k),
{
    let ghost m0 = *m;
    let keep = |existing: &VarNode, _v: &Value| -> (b: bool)
        ensures
            b == (!vn.spec_covers(*existing) || *existing == vn),
        {
            if existing.space_index != vn.space_index {
                true
            } else {
                !(vn.offset <= existing.offset && (existing.offset as u128) + (existing.size as u128)
                    <= (vn.offset as u128) + (vn.size as u128)) || *existing == vn
            }
        };
    m.retain(keep);
    let ghost m1 = *m;
    assert forall|k: VarNode| #[trigger]
        m1.lookup(k) == if m0.lookup(k) is Some && !(vn.spec_covers(k) && k != vn) {
            m0.lookup(k)
        } else {
            None
        } by {};
    proof {
        m1.lemma_keys();
    }
    let ks = m.key_list();
    let n = ks.len();
    let mut i: usize = 0;
    while i < n
        invariant
            n == ks@.len(),
            ks@ == m1.keys(),
            keys_sorted(ks@),
            i <= n,
            m.wf(),
            m1.wf(),
            map_ok(m0),
            vn_ok(vn),
            forall|k: VarNode| #[trigger] m1.lookup(k) is Some <==> m1.keys().contains(k),
            forall|k: VarNode| #[trigger] m1.lookup(k) is Some ==> m0.lookup(k) is Some,
            forall|k: VarNode| #[trigger]
                m.lookup(k) == if ks@.subrange(0, i as int).contains(k) && k.spec_covers(vn) && k
                    != vn {
                    Some(
                        simplified(
                            spec_insert_bytes(m1.lookup(k)->0, val, (vn.offset - k.offset) as usize),
                        ),
                    )
                } else {
                    m1.lookup(k)
                },
        decreases n - i,
    {
        let k = ks[i];
        proof {
            assert(ks@.contains(k));
            assert(m1.lookup(k) is Some);
            assert(!ks@.subrange(0, i as int).contains(k)) by {
                if ks@.subrange(0, i as int).contains(k) {
                    let j = choose|j: int| 0 <= j < i && ks@.subrange(0, i as int)[j] == k;
                    assert(vn_lt(ks@[j], ks@[i as int]));
                }
            };
        }
        if k.covers(&vn) && k != vn {
            let pv = duplicate(m.get(&k).unwrap());
            let merged = Value::insert_bytes(pv, duplicate(&val), (vn.offset - k.offset) as usize).into_simplified();
            m.insert(k, merged);
        }
        proof {
            assert forall|x: VarNode| #[trigger]
                m.lookup(x) == if ks@.subrange(0, i + 1).contains(x) && x.spec_covers(vn) && x
                    != vn {
                    Some(
                        simplified(
                            spec_insert_bytes(m1.lookup(x)->0, val, (vn.offset - x.offset) as usize),
                        ),
                    )
                } else {
                    m1.lookup(x)
                } by {
                assert(ks@.subrange(0, i + 1) =~= ks@.subrange(0, i as int).push(k));
                if x == k {
                    assert(ks@.subrange(0, i + 1)[i as int] == x);
                }
            };
        }
        i += 1;
    }
    assert(ks@.subrange(0, n as int) =~= ks@);
    let ghost m2 = *m;
    m.insert(vn, val);
    assert forall|k: VarNode| #[trigger] m.lookup(k) == after_write(m0.lookup(k), vn, val, k) by {
        if k != vn {
            if vn.spec_covers(k) && k.spec_covers(vn) {
                assert(k == vn);
            }
            if m1.lookup(k) is Some {
                assert(m1.keys().contains(k));
            }
        }
    };
    assert forall|k: VarNode| #[trigger] m.lookup(k) is Some implies vn_ok(k) by {
        if k != vn {
            assert(m0.lookup(k) is Some);
        }
    };
}


/// A location that a state values: a varnode, or a memory location given by a
/// `Load` value (pointer, size, space).
#[derive(Debug, Hash)]
pub enum Location {
    Direct(VarNode),
    Indirect(Value),
}

impl Clone for Location {
    fn clone(&self) -> (r: Self)
        ensures
            r == *self,
    {
        match self {
            Location::Direct(vn) => Location::Direct(*vn),
            Location::Indirect(v) => Location::Indirect(duplicate(v)),
        }
    }
}

impl PartialEq for Location {
    fn eq(&self, other: &Self) -> (r: bool) {
        match (self, other) {
            (Location::Direct(a), Location::Direct(b)) => *a == *b,
            (Location::Indirect(a), Location::Indirect(b)) => values_equal(a, b),
            _ => false,
        }
    }
}

impl Eq for Location {
}

impl vstd::std_specs::cmp::PartialEqSpecImpl for Location {
    open spec fn obeys_eq_spec() -> bool {
        true
    }

    open spec fn eq_spec(&self, other: &Self) -> bool {
        *self == *other
    }
}

impl Location {
    pub fn new_direct(vn: VarNode) -> (r: Self)
        ensures
            r == Location::Direct(vn),
    {
        Location::Direct(vn)
    }

    /// A memory location; `loc` is the `Load` value that reads it.
    pub fn new_indirect(loc: Value) -> (r: Self)
        ensures
            r == Location::Indirect(loc),
    {
        Location::Indirect(loc)
    }

    /// Whether both are varnodes and this one covers the other.
    pub fn direct_covers(&self, other: &Self) -> (r: bool)
        requires
            *self matches Location::Direct(a) ==> vn_ok(a),
            *other matches Location::Direct(b) ==> vn_ok(b),
        ensures
            r == match (*self, *other) {
                (Location::Direct(a), Location::Direct(b)) => a.spec_covers(b),
                _ => false,
            },
    {
        match (self, other) {
            (Location::Direct(a), Location::Direct(b)) => a.covers(b),
            _ => false,
        }
    }

    pub fn indirect(&self) -> (r: Option<&Value>)
        ensures
            r == match *self {
                Location::Indirect(v) => Some(&v),
                _ => None,
            },
    {
        match self {
            Location::Indirect(v) => Some(v),
            _ => None,
        }
    }

    pub fn is_direct(&self) -> (r: bool)
        ensures
            r == (*self is Direct),
    {
        match self {
            Location::Direct(_) => true,
            _ => false,
        }
    }

    pub fn is_indirect(&self) -> (r: bool)
        ensures
            r == (*self is Indirect),
    {
        match self {
            Location::Indirect(_) => true,
            _ => false,
        }
    }

    /// The size in bytes of a varnode or of a load; none for another value.
    pub fn size(&self) -> (r: Option<usize>)
        ensures
            r == match *self {
                Location::Direct(vn) => Some(vn.size),
                Location::Indirect(Value::Load(l)) => Some(l.1),
                _ => None,
            },
    {
        match self {
            Location::Direct(vn) => Some(vn.size),
            Location::Indirect(Value::Load(l)) => Some(l.1),
            _ => None,
        }
    }

    /// The value that reads this location: a load, or the entry of a varnode.
    pub fn as_value(&self) -> (r: Value)
        ensures
            r == match *self {
                Location::Indirect(v) => v,
                Location::Direct(vn) => Value::Entry(Entry(vn)),
            },
    {
        match self {
            Location::Indirect(v) => duplicate(v),
            Location::Direct(vn) => Value::entry(*vn),
        }
    }
}

impl From<VarNode> for Location {
    fn from(vn: VarNode) -> (r: Self) {
        Location::Direct(vn)
    }
}

impl FromSpecImpl<VarNode> for Location {
    open spec fn obeys_from_spec() -> bool {
        true
    }

    open spec fn from_spec(v: VarNode) -> Self {
        Location::Direct(v)
    }
}

impl From<Value> for Location {
    fn from(ptr: Value) -> (r: Self) {
        Location::Indirect(ptr)
    }
}

impl FromSpecImpl<Value> for Location {
    open spec fn obeys_from_spec() -> bool {
        true
    }

    open spec fn from_spec(v: Value) -> Self {
        Location::Indirect(v)
    }
}

/// One valued location.
#[derive(Debug, Hash)]
pub struct Valuation {
    pub location: Location,
    pub value: Value,
}

impl Valuation {
    pub closed spec fn spec_location(self) -> Location {
        self.location
    }

    pub closed spec fn spec_value(self) -> Value {
        self.value
    }

    pub fn new(location: Location, value: Value) -> (r: Self)
        ensures
            r.spec_location() == location,
            r.spec_value() == value,
    {
        Valuation { location, value }
    }

    pub fn new_direct(vn: VarNode, value: Value) -> (r: Self)
        ensures
            r.spec_location() == Location::Direct(vn),
            r.spec_value() == value,
    {
        Valuation { location: Location::Direct(vn), value }
    }

    /// A memory write; `loc` is the `Load` value of the location.
    pub fn new_indirect(loc: Value, value: Value) -> (r: Self)
        ensures
            r.spec_location() == Location::Indirect(loc),
            r.spec_value() == value,
    {
        Valuation { location: Location::Indirect(loc), value }
    }

    pub fn location(&self) -> (r: &Location)
        ensures
            *r == self.spec_location(),
    {
        &self.location
    }

    pub fn value(&self) -> (r: &Value)
        ensures
            *r == self.spec_value(),
    {
        &self.value
    }

    pub fn into_parts(self) -> (r: (Location, Value))
        ensures
            r == (self.spec_location(), self.spec_value()),
    {
        (self.location, self.value)
    }
}

/// The varnode under which a memory location of `size` bytes in `space` is
/// filed in the map of its pointer.
pub open spec fn access_vn(size: usize, space: u8) -> VarNode {
    VarNode { space_index: space as usize, offset: 0, size }
}

/// The load value that reads the location filed under `vn` for `ptr`.
pub open spec fn load_of(ptr: Value, vn: VarNode) -> Value {
    Value::Load(Load(Box::new(ptr), vn.size, vn.space_index as u8))
}

/// The values of the direct writes, and of the indirect writes by pointer.
/// Each pointer occurs once.
pub struct ValuationSet {
    pub direct_writes: VarNodeMap<Value>,
    pub indirect_writes: Vec<(Value, VarNodeMap<Value>)>,
}

pub open spec fn pointers_distinct(s: Seq<(Value, VarNodeMap<Value>)>) -> bool {
    forall|i: int, j: int| 0 <= i < j < s.len() ==> (#[trigger] s[i]).0 != (#[trigger] s[j]).0
}

/// The pointers come in the order of values (`value_lt`), as the original
/// ordered map keeps them.
pub open spec fn pointers_sorted(s: Seq<(Value, VarNodeMap<Value>)>) -> bool {
    forall|i: int, j: int| 0 <= i < j < s.len() ==> !value_lt(#[trigger] s[j].0, #[trigger] s[i].0)
}

pub open spec fn inner_maps_ok(s: Seq<(Value, VarNodeMap<Value>)>) -> bool {
    forall|i: int| 0 <= i < s.len() ==> (#[trigger] s[i]).1.wf() && map_ok(s[i].1)
}

/// The number of entries of the pointer maps.
pub open spec fn inner_total(s: Seq<(Value, VarNodeMap<Value>)>) -> nat
    decreases s.len(),
{
    if s.len() == 0 {
        0
    } else {
        inner_total(s.drop_last()) + s.last().1.spec_len()
    }
}

impl ValuationSet {
    pub open spec fn wf(self) -> bool {
        &&& self.direct_writes.wf()
        &&& map_ok(self.direct_writes)
        &&& inner_maps_ok(self.indirect_writes@)
        &&& pointers_distinct(self.indirect_writes@)
        &&& pointers_sorted(self.indirect_writes@)
    }

    pub open spec fn has_pointer(self, ptr: Value) -> bool {
        exists|i: int|
            0 <= i < self.indirect_writes@.len() && (#[trigger] self.indirect_writes@[i]).0 == ptr
    }

    pub open spec fn pointer_index(self, ptr: Value) -> int {
        choose|i: int|
            0 <= i < self.indirect_writes@.len() && (#[trigger] self.indirect_writes@[i]).0 == ptr
    }

    /// The value of the memory location filed under `k` for `ptr`.
    pub open spec fn indirect_lookup(self, ptr: Value, k: VarNode) -> Option<Value> {
        if self.has_pointer(ptr) {
            self.indirect_writes@[self.pointer_index(ptr)].1.lookup(k)
        } else {
            None
        }
    }

    /// The number of valued locations.
    pub open spec fn spec_total(self) -> nat {
        self.direct_writes.spec_len() + inner_total(self.indirect_writes@)
    }

    pub fn new() -> (r: Self)
        ensures
            r.wf(),
            forall|k: VarNode| #[trigger] r.direct_writes.lookup(k) is None,
            forall|p: Value, k: VarNode| #[trigger] r.indirect_lookup(p, k) is None,
            r.spec_total() == 0,
            r.direct_writes.spec_len() == 0,
            r.indirect_writes@.len() == 0,
    {
        let r = ValuationSet { direct_writes: VarNodeMap::new(), indirect_writes: Vec::new() };
        proof {
            r.direct_writes.lemma_keys();
        }
        r
    }

    /// A set with the given maps.
    pub fn with_contents(
        direct_writes: VarNodeMap<Value>,
        indirect_writes: Vec<(Value, VarNodeMap<Value>)>,
    ) -> (r: Self)
        ensures
            r.direct_writes == direct_writes,
            r.indirect_writes@ == indirect_writes@,
    {
        ValuationSet { direct_writes, indirect_writes }
    }

    /// The index of the map of `ptr`, if it has one.
    pub fn find_pointer(&self, ptr: &Value) -> (r: Option<usize>)
        requires
            self.wf(),
        ensures
            match r {
                Some(i) => i < self.indirect_writes@.len() && self.indirect_writes@[i as int].0
                    == *ptr && self.pointer_index(*ptr) == i,
                None => !self.has_pointer(*ptr),
            },
    {
        let n = self.indirect_writes.len();
        let mut i: usize = 0;
        while i < n
            invariant
                n == self.indirect_writes@.len(),
                i <= n,
                self.wf(),
                forall|j: int| 0 <= j < i ==> (#[trigger] self.indirect_writes@[j]).0 != *ptr,
            decreases n - i,
        {
            if values_equal(&self.indirect_writes[i].0, ptr) {
                proof {
                    assert(self.indirect_writes@[i as int].0 == *ptr);
                    assert(self.has_pointer(*ptr));
                    let k = self.pointer_index(*ptr);
                    assert(self.indirect_writes@[k].0 == *ptr);
                    if k < i {
                        assert(self.indirect_writes@[k].0 != self.indirect_writes@[i as int].0);
                    } else if k > i {
                        assert(self.indirect_writes@[i as int].0 != self.indirect_writes@[k].0);
                    }
                }
                return Some(i);
            }
            i += 1;
        }
        None
    }

    /// The value of a location, if it is valued.
    pub fn get(&self, loc: &Location) -> (r: Option<&Value>)
        requires
            self.wf(),
        ensures
            r == match *loc {
                Location::Direct(vn) => match self.direct_writes.lookup(vn) {
                    Some(v) => Some(&v),
                    None => None,
                },
                Location::Indirect(Value::Load(l)) => match self.indirect_lookup(
                    *l.0,
                    access_vn(l.1, l.2),
                ) {
                    Some(v) => Some(&v),
                    None => None,
                },
                _ => None,
            },
    {
        match loc {
            Location::Direct(vn) => self.direct_writes.get(vn),
            Location::Indirect(Value::Load(l)) => {
                let Load(ptr, size, space) = l;
                match self.find_pointer(ptr) {
                    Some(i) => {
                        let vn = VarNode::new(0, *size, *space as usize);
                        self.indirect_writes[i].1.get(&vn)
                    },
                    None => None,
                }
            },
            _ => None,
        }
    }

    /// The number of valued locations, direct and indirect.
    pub fn len(&self) -> (r: usize)
        requires
            self.wf(),
            self.spec_total() <= usize::MAX,
        ensures
            r == self.spec_total(),
    {
        let n = self.indirect_writes.len();
        let mut total: usize = self.direct_writes.len();
        let mut i: usize = 0;
        proof {
            assert(self.indirect_writes@.subrange(0, 0) =~= Seq::<(Value, VarNodeMap<Value>)>::empty());
        }
        while i < n
            invariant
                n == self.indirect_writes@.len(),
                i <= n,
                self.wf(),
                self.spec_total() <= usize::MAX,
                total == self.direct_writes.spec_len() + inner_total(
                    self.indirect_writes@.subrange(0, i as int),
                ),
            decreases n - i,
        {
            proof {
                lemma_inner_total_prefix(self.indirect_writes@, i as int + 1);
                assert(self.indirect_writes@.subrange(0, i + 1).drop_last()
                    =~= self.indirect_writes@.subrange(0, i as int));
            }
            total = total + self.indirect_writes[i].1.len();
            i += 1;
        }
        assert(self.indirect_writes@.subrange(0, n as int) =~= self.indirect_writes@);
        total
    }

    /// Whether no location is valued.
    pub fn is_empty(&self) -> (r: bool)
        requires
            self.wf(),
        ensures
            r == (self.spec_total() == 0),
    {
        if !self.direct_writes.is_empty() {
            return false;
        }
        let n = self.indirect_writes.len();
        let mut i: usize = 0;
        proof {
            assert(self.indirect_writes@.subrange(0, 0) =~= Seq::<(Value, VarNodeMap<Value>)>::empty());
        }
        while i < n
            invariant
                n == self.indirect_writes@.len(),
                i <= n,
                self.wf(),
                self.direct_writes.spec_len() == 0,
                inner_total(self.indirect_writes@.subrange(0, i as int)) == 0,
            decreases n - i,
        {
            proof {
                assert(self.indirect_writes@.subrange(0, i + 1).drop_last()
                    =~= self.indirect_writes@.subrange(0, i as int));
                lemma_inner_total_prefix(self.indirect_writes@, i as int + 1);
            }
            if !self.indirect_writes[i].1.is_empty() {
                proof {
                    lemma_inner_total_prefix(self.indirect_writes@, n as int);
                    assert(self.indirect_writes@.subrange(0, n as int) =~= self.indirect_writes@);
                }
                return false;
            }
            i += 1;
        }
        assert(self.indirect_writes@.subrange(0, n as int) =~= self.indirect_writes@);
        true
    }
}

/// Prefix sums of the map sizes only grow.
pub proof fn lemma_inner_total_prefix(s: Seq<(Value, VarNodeMap<Value>)>, j: int)
    requires
        0 <= j <= s.len(),
    ensures
        inner_total(s.subrange(0, j)) <= inner_total(s),
    decreases s.len() - j,
{
    if j < s.len() {
        lemma_inner_total_prefix(s, j + 1);
        assert(s.subrange(0, j + 1).drop_last() =~= s.subrange(0, j));
    } else {
        assert(s.subrange(0, j) =~= s);
    }
}


impl ValuationSet {
    /// Files an empty map for `ptr`, which has none, at its place in the
    /// order of pointers; returns its index.
    fn insert_pointer(&mut self, ptr: Value) -> (i: usize)
        requires
            old(self).wf(),
            !old(self).has_pointer(ptr),
        ensures
            final(self).wf(),
            final(self).direct_writes == old(self).direct_writes,
            i < final(self).indirect_writes@.len(),
            final(self).indirect_writes@[i as int].0 == ptr,
            forall|p: Value| #[trigger] final(self).has_pointer(p) <==> (old(self).has_pointer(p) || p == ptr),
            forall|p: Value, k: VarNode| #[trigger] final(self).indirect_lookup(p, k) == old(self).indirect_lookup(p, k),
    {
        let ghost s0 = self.indirect_writes@;
        let ghost old_self = *self;
        let key = value_key_of(&ptr);
        let n = self.indirect_writes.len();
        let mut q: usize = 0;
        while q < n && !lex_lt_of(&key, &value_key_of(&self.indirect_writes[q].0))
            invariant
                q <= n == s0.len(),
                s0 == self.indirect_writes@,
                key@ == value_key(ptr),
                forall|x: int| 0 <= x < q ==> !value_lt(ptr, #[trigger] s0[x].0),
            decreases n - q,
        {
            q = q + 1;
        }
        proof {
            assert(q < n ==> value_lt(ptr, s0[q as int].0));
        }
        let m = VarNodeMap::new();
        proof {
            m.lemma_keys();
        }
        self.indirect_writes.insert(q, (ptr, m));
        proof {
            let s1 = self.indirect_writes@;
            assert(s1 == s0.insert(q as int, (ptr, m)));
            assert forall|j: int| 0 <= j < s1.len() implies #[trigger] s1[j] == if j < q {
                s0[j]
            } else if j == q {
                (ptr, m)
            } else {
                s0[j - 1]
            } by {};
            assert forall|x: int| 0 <= x < s0.len() implies (#[trigger] s0[x]).0 != ptr by {};
            assert(pointers_distinct(s1)) by {
                assert forall|a: int, b: int| 0 <= a < b < s1.len() implies (#[trigger] s1[a]).0
                    != (#[trigger] s1[b]).0 by {
                    if a != q && b != q {
                        let a0 = if a < q { a } else { a - 1 };
                        let b0 = if b < q { b } else { b - 1 };
                        assert(s0[a0].0 != s0[b0].0);
                    }
                };
            };
            assert(pointers_sorted(s1)) by {
                assert forall|a: int, b: int| 0 <= a < b < s1.len() implies !value_lt(#[trigger] s1[b].0, #[trigger] s1[a].0) by {
                    if a == q {
                        // b > q: s1[b] = s0[b - 1], which does not come before s0[q]
                        lemma_lex_asym(value_key(ptr), value_key(s0[q as int].0), 0);
                        if b - 1 > q {
                            assert(!value_lt(s0[b - 1].0, s0[q as int].0));
                        }
                        if value_lt(s0[b - 1].0, ptr) {
                            lemma_lex_trans(value_key(s0[b - 1].0), value_key(ptr), value_key(s0[q as int].0), 0);
                        }
                    } else if b == q {
                        assert(!value_lt(ptr, s0[a].0));
                    } else {
                        let a0 = if a < q { a } else { a - 1 };
                        let b0 = if b < q { b } else { b - 1 };
                        assert(!value_lt(s0[b0].0, s0[a0].0));
                    }
                };
            };
            assert(inner_maps_ok(s1)) by {
                assert forall|j: int| 0 <= j < s1.len() implies (#[trigger] s1[j]).1.wf() && map_ok(s1[j].1) by {
                    if j < q {
                        assert(s0[j].1.wf());
                    } else if j > q {
                        assert(s0[j - 1].1.wf());
                    }
                };
            };
            assert forall|p: Value| #[trigger] self.has_pointer(p) <==> (old_self.has_pointer(p) || p == ptr) by {
                if self.has_pointer(p) {
                    let j = self.pointer_index(p);
                    if j < q {
                        assert(s0[j].0 == p);
                    } else if j > q {
                        assert(s0[j - 1].0 == p);
                    }
                }
                if old_self.has_pointer(p) {
                    let j0 = old_self.pointer_index(p);
                    if j0 < q {
                        assert(s1[j0].0 == p);
                    } else {
                        assert(s1[j0 + 1].0 == p);
                    }
                }
                if p == ptr {
                    assert(s1[q as int].0 == p);
                }
            };
            assert forall|p: Value, k: VarNode| #[trigger] self.indirect_lookup(p, k) == old_self.indirect_lookup(p, k) by {
                if self.has_pointer(p) {
                    let j = self.pointer_index(p);
                    if j == q {
                        assert(!old_self.has_pointer(p));
                    } else {
                        let j1 = if j < q { j } else { j - 1 };
                        assert(s0[j1].0 == p);
                        let j0 = old_self.pointer_index(p);
                        assert(s0[j0].0 == p);
                        if j0 != j1 {
                            assert(s0[j0].0 != s0[j1].0);
                        }
                    }
                }
            };
        }
        q
    }

    /// Writes the already simplified `val` to memory location `vn` of the map
    /// of `ptr`, creating that map if needed.
    fn write_indirect(&mut self, ptr: Value, vn: VarNode, val: Value)
        requires
            old(self).wf(),
            vn_ok(vn),
        ensures
            final(self).wf(),
            final(self).direct_writes == old(self).direct_writes,
            final(self).has_pointer(ptr),
            forall|p: Value| #[trigger] final(self).has_pointer(p) <==> (old(self).has_pointer(p) || p == ptr),
            forall|p: Value, k: VarNode| #[trigger]
                final(self).indirect_lookup(p, k) == if p == ptr {
                    after_write(old(self).indirect_lookup(ptr, k), vn, val, k)
                } else {
                    old(self).indirect_lookup(p, k)
                },
    {
        let ghost s0 = self.indirect_writes@;
        let ghost old_self = *self;
        let i = match self.find_pointer(&ptr) {
            Some(i) => i,
            None => self.insert_pointer(ptr),
        };
        let ghost s1 = self.indirect_writes@;
        let ghost mid = *self;
        proof {
            assert(forall|p: Value| #[trigger] mid.has_pointer(p) <==> (old_self.has_pointer(p) || p == ptr));
            assert(forall|p: Value, k: VarNode| #[trigger] mid.indirect_lookup(p, k) == old_self.indirect_lookup(p, k));
            assert(self.has_pointer(ptr));
            let k = self.pointer_index(ptr);
            if k != i {
                assert(self.indirect_writes@[k].0 == ptr);
                assert(self.indirect_writes@[i as int].0 == ptr);
            }
        }
        let (p, mut inner) = self.indirect_writes.remove(i);
        write_map(&mut inner, vn, val);
        self.indirect_writes.insert(i, (p, inner));
        proof {
            let s2 = self.indirect_writes@;
            assert forall|j: int| 0 <= j < s2.len() implies #[trigger] s2[j] == if j == i {
                (p, inner)
            } else {
                s1[j]
            } by {};
            assert(pointers_distinct(s2)) by {
                assert forall|a: int, b: int| 0 <= a < b < s2.len() implies (#[trigger] s2[a]).0
                    != (#[trigger] s2[b]).0 by {
                    assert(s2[a].0 == s1[a].0 && s2[b].0 == s1[b].0);
                };
            };
            assert(inner_maps_ok(s2)) by {
                assert forall|j: int| 0 <= j < s2.len() implies (#[trigger] s2[j]).1.wf() && map_ok(
                    s2[j].1,
                ) by {
                    if j != i {
                        assert(s2[j] == s1[j]);
                    }
                };
            };
            assert(self.indirect_writes@[i as int].0 == ptr);
            assert(pointers_sorted(s2)) by {
                assert forall|a: int, b: int| 0 <= a < b < s2.len() implies !value_lt(#[trigger] s2[b].0, #[trigger] s2[a].0) by {
                    assert(s2[a].0 == s1[a].0 && s2[b].0 == s1[b].0);
                };
            };
            assert forall|q: Value| #[trigger] self.has_pointer(q) <==> (old_self.has_pointer(q) || q == ptr) by {
                if self.has_pointer(q) {
                    let j = self.pointer_index(q);
                    assert(s1[j].0 == q);
                    assert(mid.has_pointer(q));
                }
                if mid.has_pointer(q) {
                    let j = mid.pointer_index(q);
                    assert(s2[j].0 == q);
                }
            };
            assert forall|q: Value, k: VarNode| #[trigger]
                self.indirect_lookup(q, k) == if q == ptr {
                    after_write(old_self.indirect_lookup(ptr, k), vn, val, k)
                } else {
                    old_self.indirect_lookup(q, k)
                } by {
                assert(mid.indirect_lookup(q, k) == old_self.indirect_lookup(q, k));
                if self.has_pointer(q) {
                    let j = self.pointer_index(q);
                    assert(s2[j].0 == q);
                    assert(mid.has_pointer(q)) by {
                        assert(s1[j].0 == q);
                    };
                    let jm = mid.pointer_index(q);
                    assert(s1[jm].0 == q);
                    if jm != j {
                        assert(s1[jm].0 == s1[j].0);
                    }
                    if q == ptr {
                        let ji = mid.pointer_index(ptr);
                        assert(s1[ji].0 == ptr);
                        if ji != i {
                            assert(s1[ji].0 == s1[i as int].0);
                        }
                    } else {
                        assert(j != i);
                    }
                } else {
                    if mid.has_pointer(q) {
                        let jm = mid.pointer_index(q);
                        assert(s2[jm].0 == q);
                    }
                }
            };
        }
    }

    /// Values `loc` with `value`, simplified: a varnode write drops the
    /// entries it covers and is spliced into the entries that cover it; a
    /// write through a `Load` value is filed under its pointer; a write to
    /// any other value is ignored.
    pub fn add(&mut self, loc: Location, value: Value)
        requires
            old(self).wf(),
            loc matches Location::Direct(vn) ==> vn_ok(vn),
        ensures
            final(self).wf(),
            match loc {
                Location::Direct(vn) => {
                    &&& forall|k: VarNode| #[trigger]
                        final(self).direct_writes.lookup(k) == after_write(
                            old(self).direct_writes.lookup(k),
                            vn,
                            simplified(value),
                            k,
                        )
                    &&& final(self).indirect_writes@ == old(self).indirect_writes@
                },
                Location::Indirect(Value::Load(l)) => {
                    &&& final(self).direct_writes == old(self).direct_writes
                    &&& forall|p: Value, k: VarNode| #[trigger]
                        final(self).indirect_lookup(p, k) == if p == *l.0 {
                            after_write(
                                old(self).indirect_lookup(p, k),
                                access_vn(l.1, l.2),
                                simplified(value),
                                k,
                            )
                        } else {
                            old(self).indirect_lookup(p, k)
                        }
                },
                _ => final(self).direct_writes == old(self).direct_writes
                    && final(self).indirect_writes@ == old(self).indirect_writes@,
            },
            loc matches Location::Direct(vn) ==> final(self).direct_writes.lookup(vn) == Some(
                simplified(value),
            ),
            loc matches Location::Indirect(Value::Load(l)) ==> final(self).indirect_lookup(
                *l.0,
                access_vn(l.1, l.2),
            ) == Some(simplified(value)),
    {
        let val = value.into_simplified();
        match loc {
            Location::Direct(vn) => {
                write_map(&mut self.direct_writes, vn, val);
            },
            Location::Indirect(Value::Load(l)) => {
                let Load(ptr, size, space) = l;
                let vn = VarNode::new(0, size, space as usize);
                self.write_indirect(*ptr, vn, val);
            },
            _ => {},
        }
    }

    /// Values a varnode.
    pub fn add_direct(&mut self, vn: VarNode, value: Value)
        requires
            old(self).wf(),
            vn_ok(vn),
        ensures
            final(self).wf(),
            forall|k: VarNode| #[trigger]
                final(self).direct_writes.lookup(k) == after_write(
                    old(self).direct_writes.lookup(k),
                    vn,
                    simplified(value),
                    k,
                ),
            final(self).indirect_writes@ == old(self).indirect_writes@,
    {
        self.add(Location::Direct(vn), value);
    }
}


/// The valued varnodes with their values, in varnode order.
pub open spec fn direct_pairs(m: VarNodeMap<Value>) -> Seq<(Location, Value)> {
    Seq::new(m.keys().len(), |i: int| (Location::Direct(m.keys()[i]), m.values()[i]))
}

/// The memory locations of one pointer with their values.
pub open spec fn map_pairs(ptr: Value, m: VarNodeMap<Value>) -> Seq<(Location, Value)> {
    Seq::new(
        m.keys().len(),
        |i: int| (Location::Indirect(load_of(ptr, m.keys()[i])), m.values()[i]),
    )
}

/// The memory locations of all pointers, pointer by pointer.
pub open spec fn indirect_pairs(s: Seq<(Value, VarNodeMap<Value>)>) -> Seq<(Location, Value)>
    decreases s.len(),
{
    if s.len() == 0 {
        Seq::empty()
    } else {
        indirect_pairs(s.drop_last()) + map_pairs(s.last().0, s.last().1)
    }
}

impl ValuationSet {
    /// Every valued location with its value: the varnodes first, in varnode
    /// order, then the memory locations, pointer by pointer.
    pub open spec fn spec_entries(self) -> Seq<(Location, Value)> {
        direct_pairs(self.direct_writes) + indirect_pairs(self.indirect_writes@)
    }

    /// The valued locations with their values, as `spec_entries` orders them.
    pub fn iter(&self) -> (r: Vec<(Location, Value)>)
        requires
            self.wf(),
        ensures
            r@ == self.spec_entries(),
    {
        let mut out: Vec<(Location, Value)> = Vec::new();
        let items = self.direct_writes.items();
        let n = items.len();
        let mut i: usize = 0;
        proof {
            self.direct_writes.lemma_keys();
        }
        while i < n
            invariant
                n == items@.len() == self.direct_writes.keys().len(),
                forall|x: int| 0 <= x < n ==> *(#[trigger] items@[x]).0 == self.direct_writes.keys()[x]
                    && *items@[x].1 == self.direct_writes.values()[x],
                i <= n,
                out@ == direct_pairs(self.direct_writes).subrange(0, i as int),
            decreases n - i,
        {
            let (k, v) = items[i];
            out.push((Location::Direct(*k), duplicate(v)));
            i += 1;
            assert(out@ =~= direct_pairs(self.direct_writes).subrange(0, i as int));
        }
        assert(out@ =~= direct_pairs(self.direct_writes));
        let m = self.indirect_writes.len();
        let mut j: usize = 0;
        assert(self.indirect_writes@.subrange(0, 0) =~= Seq::<(Value, VarNodeMap<Value>)>::empty());
        while j < m
            invariant
                m == self.indirect_writes@.len(),
                j <= m,
                self.wf(),
                out@ == direct_pairs(self.direct_writes) + indirect_pairs(
                    self.indirect_writes@.subrange(0, j as int),
                ),
            decreases m - j,
        {
            let ghost base = out@;
            let ptr = &self.indirect_writes[j].0;
            let inner = &self.indirect_writes[j].1;
            assert(inner_maps_ok(self.indirect_writes@));
            assert(self.indirect_writes@[j as int].1.wf());
            let its = inner.items();
            let n2 = its.len();
            let mut x: usize = 0;
            while x < n2
                invariant
                    n2 == its@.len() == inner.keys().len(),
                    forall|y: int| 0 <= y < n2 ==> *(#[trigger] its@[y]).0 == inner.keys()[y]
                        && *its@[y].1 == inner.values()[y],
                    x <= n2,
                    out@ == base + map_pairs(*ptr, *inner).subrange(0, x as int),
                decreases n2 - x,
            {
                let (k, v) = its[x];
                let load = Value::load(duplicate(ptr), k.size, k.space_index as u8);
                out.push((Location::Indirect(load), duplicate(v)));
                x += 1;
                assert(out@ =~= base + map_pairs(*ptr, *inner).subrange(0, x as int));
            }
            assert(map_pairs(*ptr, *inner).subrange(0, n2 as int) =~= map_pairs(*ptr, *inner));
            assert(self.indirect_writes@.subrange(0, j + 1).drop_last() =~= self.indirect_writes@.subrange(
                0,
                j as int,
            ));
            j += 1;
            assert(out@ =~= direct_pairs(self.direct_writes) + indirect_pairs(
                self.indirect_writes@.subrange(0, j as int),
            ));
        }
        assert(self.indirect_writes@.subrange(0, m as int) =~= self.indirect_writes@);
        out
    }

    /// The valued locations with their values as single valuations, in the
    /// order of `iter`.
    pub fn into_iter(self) -> (r: Vec<Valuation>)
        requires
            self.wf(),
        ensures
            r@.len() == self.spec_entries().len(),
            forall|i: int|
                0 <= i < r@.len() ==> (#[trigger] r@[i]).spec_location() == self.spec_entries()[i].0
                    && r@[i].spec_value() == self.spec_entries()[i].1,
    {
        let items = self.iter();
        let mut out: Vec<Valuation> = Vec::new();
        let n = items.len();
        let mut i: usize = 0;
        while i < n
            invariant
                n == items@.len(),
                items@ == self.spec_entries(),
                i <= n,
                out@.len() == i,
                forall|x: int|
                    0 <= x < i ==> (#[trigger] out@[x]).spec_location() == items@[x].0
                        && out@[x].spec_value() == items@[x].1,
            decreases n - i,
        {
            let loc = items[i].0.clone();
            let val = duplicate(&items[i].1);
            out.push(Valuation::new(loc, val));
            i += 1;
        }
        out
    }

    /// The valued locations, in the order of `iter`.
    pub fn keys(&self) -> (r: Vec<Location>)
        requires
            self.wf(),
        ensures
            r@ == self.spec_entries().map_values(|e: (Location, Value)| e.0),
    {
        let all = self.iter();
        let mut out: Vec<Location> = Vec::new();
        let n = all.len();
        let mut i: usize = 0;
        while i < n
            invariant
                n == all@.len(),
                all@ == self.spec_entries(),
                i <= n,
                out@ == all@.subrange(0, i as int).map_values(|e: (Location, Value)| e.0),
            decreases n - i,
        {
            out.push(all[i].0.clone());
            i += 1;
            assert(out@ =~= all@.subrange(0, i as int).map_values(|e: (Location, Value)| e.0));
        }
        assert(all@.subrange(0, n as int) =~= all@);
        out
    }

    /// Same as `keys`.
    pub fn locations(&self) -> (r: Vec<Location>)
        requires
            self.wf(),
        ensures
            r@ == self.spec_entries().map_values(|e: (Location, Value)| e.0),
    {
        self.keys()
    }

    /// The values, in the order of `iter`.
    pub fn values(&self) -> (r: Vec<Value>)
        requires
            self.wf(),
        ensures
            r@ == self.spec_entries().map_values(|e: (Location, Value)| e.1),
    {
        let all = self.iter();
        let mut out: Vec<Value> = Vec::new();
        let n = all.len();
        let mut i: usize = 0;
        while i < n
            invariant
                n == all@.len(),
                all@ == self.spec_entries(),
                i <= n,
                out@ == all@.subrange(0, i as int).map_values(|e: (Location, Value)| e.1),
            decreases n - i,
        {
            out.push(duplicate(&all[i].1));
            i += 1;
            assert(out@ =~= all@.subrange(0, i as int).map_values(|e: (Location, Value)| e.1));
        }
        assert(all@.subrange(0, n as int) =~= all@);
        out
    }
}


impl ValuationSet {
    /// Drops the value of `loc`; a pointer left with no memory location is
    /// dropped too.
    pub fn remove_value_from(&mut self, loc: &Location)
        requires
            old(self).wf(),
        ensures
            final(self).wf(),
            match *loc {
                Location::Direct(vn) => {
                    &&& forall|k: VarNode| #[trigger]
                        final(self).direct_writes.lookup(k) == if k == vn {
                            None
                        } else {
                            old(self).direct_writes.lookup(k)
                        }
                    &&& final(self).indirect_writes@ == old(self).indirect_writes@
                },
                Location::Indirect(Value::Load(l)) => {
                    &&& final(self).direct_writes == old(self).direct_writes
                    &&& forall|p: Value, k: VarNode| #[trigger]
                        final(self).indirect_lookup(p, k) == if p == *l.0 && k == access_vn(
                            l.1,
                            l.2,
                        ) {
                            None
                        } else {
                            old(self).indirect_lookup(p, k)
                        }
                },
                _ => final(self).direct_writes == old(self).direct_writes
                    && final(self).indirect_writes@ == old(self).indirect_writes@,
            },
    {
        match loc {
            Location::Direct(vn) => {
                self.direct_writes.remove(vn);
                assert forall|k: VarNode| #[trigger] self.direct_writes.lookup(k) is Some implies vn_ok(k) by {
                };
            },
            Location::Indirect(Value::Load(l)) => {
                let Load(ptr, size, space) = l;
                let vn = VarNode::new(0, *size, *space as usize);
                match self.find_pointer(ptr) {
                    Some(i) => {
                        let ghost old_self = *self;
                        let ghost s0 = self.indirect_writes@;
                        let (p, mut inner) = self.indirect_writes.remove(i);
                        inner.remove(&vn);
                        assert forall|k: VarNode| #[trigger] inner.lookup(k) is Some implies vn_ok(k) by {
                            assert(s0[i as int].1.lookup(k) is Some);
                        };
                        if !inner.is_empty() {
                            self.indirect_writes.insert(i, (p, inner));
                            proof {
                                let s2 = self.indirect_writes@;
                                assert forall|j: int| 0 <= j < s2.len() implies #[trigger] s2[j] == if j == i {
                                    (p, inner)
                                } else {
                                    s0[j]
                                } by {};
                                assert(pointers_distinct(s2)) by {
                                    assert forall|a: int, b: int| 0 <= a < b < s2.len() implies (#[trigger] s2[a]).0
                                        != (#[trigger] s2[b]).0 by {
                                        assert(s2[a].0 == s0[a].0 && s2[b].0 == s0[b].0);
                                    };
                                };
                                assert(inner_maps_ok(s2)) by {
                                    assert forall|j: int| 0 <= j < s2.len() implies (#[trigger] s2[j]).1.wf()
                                        && map_ok(s2[j].1) by {
                                        if j != i {
                                            assert(s2[j] == s0[j]);
                                        }
                                    };
                                };
                                assert forall|q: Value, k: VarNode| #[trigger]
                                    self.indirect_lookup(q, k) == if q == **ptr && k == vn {
                                        None
                                    } else {
                                        old_self.indirect_lookup(q, k)
                                    } by {
                                    if self.has_pointer(q) {
                                        let j = self.pointer_index(q);
                                        assert(s0[j].0 == q);
                                        let j0 = old_self.pointer_index(q);
                                        assert(s0[j0].0 == q);
                                        if j0 != j {
                                            assert(s0[j0].0 == s0[j].0);
                                        }
                                        if q == **ptr {
                                            assert(s0[i as int].0 == q);
                                            if j != i {
                                                assert(s0[i as int].0 == s0[j].0);
                                            }
                                        }
                                    } else if old_self.has_pointer(q) {
                                        let j0 = old_self.pointer_index(q);
                                        assert(s2[j0].0 == q);
                                    }
                                };
                            }
                        } else {
                            proof {
                                let s2 = self.indirect_writes@;
                                assert(s2 == s0.remove(i as int));
                                assert forall|j: int| 0 <= j < s2.len() implies #[trigger] s2[j] == if j < i {
                                    s0[j]
                                } else {
                                    s0[j + 1]
                                } by {};
                                assert(pointers_distinct(s2)) by {
                                    assert forall|a: int, b: int| 0 <= a < b < s2.len() implies (#[trigger] s2[a]).0
                                        != (#[trigger] s2[b]).0 by {
                                        let a0 = if a < i { a } else { a + 1 };
                                        let b0 = if b < i { b } else { b + 1 };
                                        assert(s2[a] == s0[a0] && s2[b] == s0[b0]);
                                    };
                                };
                                assert(inner_maps_ok(s2)) by {
                                    assert forall|j: int| 0 <= j < s2.len() implies (#[trigger] s2[j]).1.wf()
                                        && map_ok(s2[j].1) by {
                                        let j0 = if j < i { j } else { j + 1 };
                                        assert(s2[j] == s0[j0]);
                                    };
                                };
                                inner.lemma_keys();
                                assert(s0[i as int].0 == **ptr);
                                assert forall|q: Value, k: VarNode| #[trigger]
                                    self.indirect_lookup(q, k) == if q == **ptr && k == vn {
                                        None
                                    } else {
                                        old_self.indirect_lookup(q, k)
                                    } by {
                                    if self.has_pointer(q) {
                                        let j = self.pointer_index(q);
                                        let j0 = if j < i { j } else { j + 1 };
                                        assert(s2[j] == s0[j0]);
                                        assert(s0[j0].0 == q);
                                        assert(old_self.has_pointer(q));
                                        let jo = old_self.pointer_index(q);
                                        assert(s0[jo].0 == q);
                                        if jo != j0 {
                                            assert(s0[jo].0 == s0[j0].0);
                                            assert(false);
                                        }
                                        if q == **ptr {
                                            assert(j0 != i);
                                            assert(s0[i as int].0 == s0[j0].0);
                                            assert(false);
                                        }
                                        assert(self.indirect_lookup(q, k) == s2[j].1.lookup(k));
                                        assert(old_self.indirect_lookup(q, k) == s0[jo].1.lookup(k));
                                    } else if old_self.has_pointer(q) {
                                        let jo = old_self.pointer_index(q);
                                        assert(s0[jo].0 == q);
                                        if q == **ptr {
                                            if jo != i {
                                                assert(s0[jo].0 == s0[i as int].0);
                                                assert(false);
                                            }
                                            assert(inner.keys().len() == 0);
                                            assert(inner.lookup(k) is None);
                                            assert(old_self.indirect_lookup(q, k) == s0[i as int].1.lookup(k));
                                            assert(self.indirect_lookup(q, k) is None);
                                        } else {
                                            assert(jo != i);
                                            let j = if jo < i { jo } else { jo - 1 };
                                            assert(s2[j] == s0[jo]);
                                            assert(s2[j].0 == q);
                                            assert(false);
                                        }
                                    }
                                };
                            }
                        }
                    },
                    None => {},
                }
            },
            _ => {},
        }
    }
}


impl ValuationSet {
    /// A copy of the set, entry by entry.
    pub fn duplicate(&self) -> (r: Self)
        requires
            self.wf(),
        ensures
            r.wf(),
            r.direct_writes.keys() == self.direct_writes.keys(),
            r.direct_writes.values() == self.direct_writes.values(),
            r.indirect_writes@.len() == self.indirect_writes@.len(),
            forall|i: int|
                0 <= i < r.indirect_writes@.len() ==> (#[trigger] r.indirect_writes@[i]).0
                    == self.indirect_writes@[i].0 && r.indirect_writes@[i].1.keys()
                    == self.indirect_writes@[i].1.keys() && r.indirect_writes@[i].1.values()
                    == self.indirect_writes@[i].1.values(),
            forall|p: Value| #[trigger] r.has_pointer(p) == self.has_pointer(p),
            forall|p: Value, k: VarNode| #[trigger]
                r.indirect_lookup(p, k) == self.indirect_lookup(p, k),
            forall|k: VarNode| #[trigger] r.direct_writes.lookup(k) == self.direct_writes.lookup(k),
    {
        let direct = self.direct_writes.duplicate();
        let mut ind: Vec<(Value, VarNodeMap<Value>)> = Vec::new();
        let n = self.indirect_writes.len();
        let mut i: usize = 0;
        while i < n
            invariant
                n == self.indirect_writes@.len(),
                i <= n,
                self.wf(),
                ind@.len() == i,
                forall|j: int|
                    0 <= j < i ==> (#[trigger] ind@[j]).0 == self.indirect_writes@[j].0
                        && ind@[j].1.keys() == self.indirect_writes@[j].1.keys()
                        && ind@[j].1.values() == self.indirect_writes@[j].1.values()
                        && ind@[j].1.wf() == self.indirect_writes@[j].1.wf(),
            decreases n - i,
        {
            let p = duplicate(&self.indirect_writes[i].0);
            let m = self.indirect_writes[i].1.duplicate();
            ind.push((p, m));
            i += 1;
        }
        let r = ValuationSet { direct_writes: direct, indirect_writes: ind };
        assert(forall|k: VarNode| #[trigger] r.direct_writes.lookup(k) == self.direct_writes.lookup(k));
        assert(pointers_distinct(r.indirect_writes@)) by {
            assert forall|a: int, b: int| 0 <= a < b < r.indirect_writes@.len() implies (#[trigger] r.indirect_writes@[a]).0
                != (#[trigger] r.indirect_writes@[b]).0 by {
                assert(self.indirect_writes@[a].0 != self.indirect_writes@[b].0);
            };
        };
        assert(inner_maps_ok(r.indirect_writes@)) by {
            assert forall|j: int| 0 <= j < r.indirect_writes@.len() implies (#[trigger] r.indirect_writes@[j]).1.wf()
                && map_ok(r.indirect_writes@[j].1) by {
                assert(self.indirect_writes@[j].1.wf());
                assert forall|k: VarNode| #[trigger] r.indirect_writes@[j].1.lookup(k) is Some implies vn_ok(k) by {
                    assert(self.indirect_writes@[j].1.lookup(k) is Some);
                };
            };
        };
        assert forall|k: VarNode| #[trigger] r.direct_writes.lookup(k) is Some implies vn_ok(k) by {
            assert(self.direct_writes.lookup(k) is Some);
        };
        assert forall|p: Value| #[trigger] r.has_pointer(p) == self.has_pointer(p) by {
            if r.has_pointer(p) {
                let j = r.pointer_index(p);
                assert(self.indirect_writes@[j].0 == p);
            }
            if self.has_pointer(p) {
                let j = self.pointer_index(p);
                assert(r.indirect_writes@[j].0 == p);
            }
        };
        assert forall|p: Value, k: VarNode| #[trigger]
            r.indirect_lookup(p, k) == self.indirect_lookup(p, k) by {
            if r.has_pointer(p) {
                let j = r.pointer_index(p);
                let j0 = self.pointer_index(p);
                assert(r.indirect_writes@[j].0 == p);
                assert(self.indirect_writes@[j].0 == p);
                assert(self.indirect_writes@[j0].0 == p);
                if j != j0 {
                    assert(self.indirect_writes@[j].0 == self.indirect_writes@[j0].0);
                }
            }
        };
        r
    }
}


impl ValuationSet {
    /// The map of the pointer at index `i` is well formed.
    pub open spec fn inner_maps_ok_at(self, i: int) -> bool {
        0 <= i < self.indirect_writes@.len() ==> self.indirect_writes@[i].1.wf()
    }
}


impl ValuationSet {
    /// Replaces the value of memory location `vn` of pointer `ptr`, which is
    /// valued.
    pub fn replace_indirect(&mut self, ptr: &Value, vn: &VarNode, v: Value)
        requires
            old(self).wf(),
            old(self).indirect_lookup(*ptr, *vn) is Some,
        ensures
            final(self).wf(),
            final(self).direct_writes == old(self).direct_writes,
            forall|p: Value, k: VarNode| #[trigger]
                final(self).indirect_lookup(p, k) == if p == *ptr && k == *vn {
                    Some(v)
                } else {
                    old(self).indirect_lookup(p, k)
                },
    {
        let ghost old_self = *self;
        let ghost s0 = self.indirect_writes@;
        let i = self.find_pointer(ptr).unwrap();
        let (p, mut inner) = self.indirect_writes.remove(i);
        inner.insert(*vn, v);
        assert forall|k: VarNode| #[trigger] inner.lookup(k) is Some implies vn_ok(k) by {
            assert(s0[i as int].1.lookup(k) is Some);
        };
        self.indirect_writes.insert(i, (p, inner));
        proof {
            let s2 = self.indirect_writes@;
            assert forall|j: int| 0 <= j < s2.len() implies #[trigger] s2[j] == if j == i {
                (p, inner)
            } else {
                s0[j]
            } by {};
            assert(pointers_distinct(s2)) by {
                assert forall|a: int, b: int| 0 <= a < b < s2.len() implies (#[trigger] s2[a]).0
                    != (#[trigger] s2[b]).0 by {
                    assert(s2[a].0 == s0[a].0 && s2[b].0 == s0[b].0);
                };
            };
            assert(inner_maps_ok(s2)) by {
                assert forall|j: int| 0 <= j < s2.len() implies (#[trigger] s2[j]).1.wf() && map_ok(
                    s2[j].1,
                ) by {
                    if j != i {
                        assert(s2[j] == s0[j]);
                    }
                };
            };
            assert forall|q: Value, k: VarNode| #[trigger]
                self.indirect_lookup(q, k) == if q == *ptr && k == *vn {
                    Some(v)
                } else {
                    old_self.indirect_lookup(q, k)
                } by {
                if self.has_pointer(q) {
                    let j = self.pointer_index(q);
                    assert(s2[j].0 == q);
                    assert(s0[j].0 == q);
                    let j0 = old_self.pointer_index(q);
                    assert(s0[j0].0 == q);
                    if j0 != j {
                        assert(s0[j0].0 == s0[j].0);
                    }
                    if q == *ptr && j != i {
                        assert(s0[i as int].0 == s0[j].0);
                    }
                } else if old_self.has_pointer(q) {
                    let j0 = old_self.pointer_index(q);
                    assert(s2[j0].0 == q);
                }
            };
        }
    }
}

} // verus!
