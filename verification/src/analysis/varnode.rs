//! Sets of varnodes, kept per address space as sorted lists of byte ranges.
use crate::sleigh::VarNode;
use std::cmp::Ordering;
use vstd::prelude::*;

verus! {

/// A half-open byte range `start..end`, written as a pair.
pub type ByteRange = (u64, u64);

/// `a` lies in the range `r`.
pub open spec fn in_range(r: ByteRange, a: int) -> bool {
    r.0 <= a < r.1
}

/// The stored ranges are ordered by start, no two share a start, every range
/// has `start <= end`, and a range ends no later than the next one starts.
pub open spec fn ranges_wf(s: Seq<ByteRange>) -> bool {
    &&& forall|i: int| 0 <= i < s.len() ==> #[trigger] s[i].0 <= s[i].1
    &&& forall|i: int, j: int|
        0 <= i < j < s.len() ==> #[trigger] s[i].1 <= #[trigger] s[j].0 && s[i].0 < s[j].0
}

/// Address `a` is stored in one of the ranges.
pub open spec fn covered(s: Seq<ByteRange>, a: int) -> bool {
    exists|i: int| 0 <= i < s.len() && #[trigger] in_range(s[i], a)
}

/// A stored range `x` meets the query `r`: it ends at or after the start of
/// `r` and starts before the end of `r`.
pub open spec fn meets(x: ByteRange, r: ByteRange) -> bool {
    x.1 >= r.0 && x.0 < r.1
}

/// A stored range `x` touches `r`: it ends at or after the start of `r` and
/// starts at or before the end of `r`.
pub open spec fn touches(x: ByteRange, r: ByteRange) -> bool {
    x.1 >= r.0 && x.0 <= r.1
}

/// Some stored range meets `r`.
pub open spec fn any_meets(s: Seq<ByteRange>, r: ByteRange) -> bool {
    exists|i: int| 0 <= i < s.len() && #[trigger] meets(s[i], r)
}

/// What `covers` answers for the range `r`: some stored range meets `r`,
/// and every address of `r` is stored.
pub open spec fn covers_spec(s: Seq<ByteRange>, r: ByteRange) -> bool {
    any_meets(s, r) && forall|a: int| r.0 <= a < r.1 ==> covered(s, a)
}

/// The set of varnodes of one address space.
#[derive(Clone, Debug, PartialEq, Eq)]
pub struct VarNodeSpaceSet {
    ranges: Vec<ByteRange>,
}

impl VarNodeSpaceSet {
    pub closed spec fn spec_ranges(self) -> Seq<ByteRange> {
        self.ranges@
    }

    /// The stored ranges are well formed, and none of them is empty.
    pub open spec fn wf(self) -> bool {
        ranges_wf(self.spec_ranges()) && ranges_nonempty(self.spec_ranges())
    }

    /// Address `a` belongs to the set.
    pub open spec fn contains(self, a: int) -> bool {
        covered(self.spec_ranges(), a)
    }

    pub fn new() -> (r: Self)
        ensures
            r.wf(),
            r.spec_ranges() == Seq::<ByteRange>::empty(),
    {
        VarNodeSpaceSet { ranges: Vec::new() }
    }

    /// The stored ranges `[i, j)` are exactly those meeting `r`.
    fn meeting_span(&self, r: ByteRange) -> (res: (usize, usize))
        requires
            self.wf(),
        ensures
            res.0 <= res.1 <= self.spec_ranges().len(),
            forall|k: int| 0 <= k < res.0 ==> #[trigger] self.spec_ranges()[k].1 < r.0,
            forall|k: int|
                res.0 <= k < res.1 ==> #[trigger] meets(self.spec_ranges()[k], r),
            forall|k: int|
                res.1 <= k < self.spec_ranges().len() ==> #[trigger] self.spec_ranges()[k].0
                    >= r.1,
            forall|k: int|
                res.1 <= k < self.spec_ranges().len() ==> #[trigger] self.spec_ranges()[k].1
                    >= r.0,
    {
        let n = self.ranges.len();
        let mut i: usize = 0;
        while i < n && self.ranges[i].1 < r.0
            invariant
                i <= n,
                n == self.spec_ranges().len(),
                self.wf(),
                forall|k: int| 0 <= k < i ==> #[trigger] self.spec_ranges()[k].1 < r.0,
            decreases n - i,
        {
            i = i + 1;
        }
        let mut j: usize = i;
        while j < n && self.ranges[j].0 < r.1
            invariant
                i <= j <= n,
                n == self.spec_ranges().len(),
                self.wf(),
                i < n ==> self.spec_ranges()[i as int].1 >= r.0,
                forall|k: int| i <= k < j ==> #[trigger] meets(self.spec_ranges()[k], r),
            decreases n - j,
        {
            proof {
                if j > i {
                    assert(self.spec_ranges()[i as int].1 <= self.spec_ranges()[j as int].0);
                }
            }
            j = j + 1;
        }
        proof {
            assert forall|k: int| j <= k < n implies #[trigger] self.spec_ranges()[k].0 >= r.1
                && self.spec_ranges()[k].1 >= r.0 by {
                if k > j {
                    assert(self.spec_ranges()[j as int].0 < self.spec_ranges()[k].0);
                }
                if i < n && k > i {
                    assert(self.spec_ranges()[i as int].1 <= self.spec_ranges()[k].0);
                }
            }
        }
        (i, j)
    }
}


impl VarNodeSpaceSet {
    /// Adds the addresses of `vn` to the set. Stored ranges that touch `vn`
    /// (end at or after its start, start at or before its end) are merged
    /// with it into one range, so ranges that meet end to start become one,
    /// whatever the order of insertion. An empty `vn` that would make an
    /// empty range adds nothing.
    pub fn insert(&mut self, vn: ByteRange)
        requires
            old(self).wf(),
            vn.0 <= vn.1,
        ensures
            final(self).wf(),
            forall|a: int| #[trigger] final(self).contains(a) <==> (old(self).contains(a) || in_range(vn, a)),
            final(self).spec_ranges() == insert_spec(old(self).spec_ranges(), vn),
    {
        let ghost s = self.spec_ranges();
        let (i, j0) = self.meeting_span(vn);
        let n = self.ranges.len();
        let j = if j0 < n && self.ranges[j0].0 == vn.1 { j0 + 1 } else { j0 };
        proof {
            assert forall|k: int| j <= k < n implies #[trigger] s[k].0 > vn.1 by {
                if j0 < n && k > j0 {
                    assert(s[j0 as int].0 < s[k].0);
                }
            }
            assert forall|k: int| i <= k < j implies #[trigger] touches(s[k], vn) by {
                if k < j0 {
                    assert(meets(s[k], vn));
                } else {
                    assert(s[k].0 <= s[k].1);
                }
            }
            assert(is_merge_span(s, vn, i as int, j as int));
        }
        let lo = if i < j && self.ranges[i].0 < vn.0 { self.ranges[i].0 } else { vn.0 };
        let hi = if i < j && self.ranges[j - 1].1 > vn.1 { self.ranges[j - 1].1 } else { vn.1 };
        if lo == hi {
            proof {
                lemma_insert_result(s, vn, i as int, j as int);
                lemma_insert_spec(s, vn, i as int, j as int);
            }
            return;
        }
        let mut out: Vec<ByteRange> = Vec::new();
        let mut k: usize = 0;
        while k < i
            invariant
                k <= i <= j <= n,
                n == s.len(),
                self.spec_ranges() == s,
                out@ == s.subrange(0, k as int),
            decreases i - k,
        {
            out.push(self.ranges[k]);
            k = k + 1;
        }
        out.push((lo, hi));
        let mut k: usize = j;
        while k < n
            invariant
                j <= k <= n,
                n == s.len(),
                self.spec_ranges() == s,
                out@ == s.subrange(0, i as int).push((lo, hi)) + s.subrange(j as int, k as int),
            decreases n - k,
        {
            out.push(self.ranges[k]);
            proof {
                assert(s.subrange(j as int, k + 1) == s.subrange(j as int, k as int).push(s[k as int]));
            }
            k = k + 1;
        }
        self.ranges = out;
        proof {
            assert(s.subrange(j as int, n as int) == s.skip(j as int));
            assert(self.spec_ranges() == insert_result(s, vn, i as int, j as int));
            lemma_insert_result(s, vn, i as int, j as int);
            lemma_insert_spec(s, vn, i as int, j as int);
        }
    }
}

impl VarNodeSpaceSet {
    /// Whether every address of `range` is stored. The answer is `false`
    /// when no stored range meets `range`, also for an empty `range`.
    pub fn covers(&self, range: &ByteRange) -> (r: bool)
        requires
            self.wf(),
        ensures
            r == covers_spec(self.spec_ranges(), *range),
    {
        let ghost s = self.spec_ranges();
        let (i, j) = self.meeting_span(*range);
        if i == j {
            proof {
                assert forall|k: int| 0 <= k < s.len() implies !#[trigger] meets(s[k], *range) by {
                    if k < i { assert(s[k].1 < range.0); } else { assert(s[k].0 >= range.1); }
                }
            }
            return false;
        }
        assert(meets(s[i as int], *range));
        let mut cur: u64 = range.0;
        let mut k: usize = i;
        while k < j
            invariant
                i <= k <= j <= s.len(),
                i < j,
                self.spec_ranges() == s,
                ranges_wf(s),
                is_meeting_span(s, *range, i as int, j as int),
                k == i ==> cur == range.0,
                k > i ==> cur == s[k - 1].1,
                cur >= range.0,
                forall|a: int| range.0 <= a < cur ==> covered(s, a),
            decreases j - k,
        {
            let o = self.ranges[k];
            assert(meets(s[k as int], *range));
            if o.0 > cur {
                proof {
                    assert(cur < range.1) by {
                        assert(meets(s[k as int], *range));
                    }
                    assert forall|x: int| 0 <= x < s.len() implies !#[trigger] in_range(s[x], cur as int) by {
                        if x < i {
                            assert(s[x].1 < range.0);
                        } else if x < k - 1 {
                            assert(s[x].1 <= s[k - 1].0);
                            assert(s[k - 1].0 <= s[k - 1].1);
                        } else if x > k {
                            assert(s[k as int].0 < s[x].0);
                        }
                    }
                    assert(!covered(s, cur as int));
                }
                return false;
            }
            proof {
                assert(s[k as int] == o);
                assert forall|a: int| range.0 <= a < o.1 implies covered(s, a) by {
                    if a >= cur {
                        assert(in_range(s[k as int], a));
                    }
                }
            }
            if o.1 > cur {
                cur = o.1;
            } else {
                proof {
                    // a stored range never ends before the previous one
                    if k > i {
                        assert(s[k - 1].1 <= s[k as int].0);
                    }
                    assert(s[k as int].0 <= s[k as int].1);
                }
                cur = o.1;
            }
            k = k + 1;
        }
        if cur < range.1 {
            proof {
                assert forall|x: int| 0 <= x < s.len() implies !#[trigger] in_range(s[x], cur as int) by {
                    if x < i {
                        assert(s[x].1 < range.0);
                    } else if x < j - 1 {
                        assert(s[x].1 <= s[j - 1].0);
                        assert(s[j - 1].0 <= s[j - 1].1);
                    } else if x >= j {
                        assert(s[x].0 >= range.1);
                    }
                }
                assert(!covered(s, cur as int));
            }
            false
        } else {
            assert(any_meets(s, *range)) by {
                assert(meets(s[i as int], *range));
            }
            true
        }
    }

    /// The stored ranges, in order.
    pub fn ranges(&self) -> (r: Vec<std::ops::Range<u64>>)
        ensures
            r@.len() == self.spec_ranges().len(),
            forall|k: int| 0 <= k < r@.len() ==> #[trigger] r@[k].start == self.spec_ranges()[k].0
                && r@[k].end == self.spec_ranges()[k].1,
    {
        let mut out: Vec<std::ops::Range<u64>> = Vec::new();
        let mut k: usize = 0;
        while k < self.ranges.len()
            invariant
                k <= self.spec_ranges().len(),
                out@.len() == k,
                forall|x: int| 0 <= x < k ==> #[trigger] out@[x].start == self.spec_ranges()[x].0
                    && out@[x].end == self.spec_ranges()[x].1,
            decreases self.spec_ranges().len() - k,
        {
            let (a, b) = self.ranges[k];
            assert(self.spec_ranges()[k as int] == (a, b));
            let ghost prev = out@;
            let item = std::ops::Range { start: a, end: b };
            assert(item.start == a && item.end == b);
            out.push(item);
            assert(out@[k as int] == item);
            proof {
                assert forall|x: int| 0 <= x < k + 1 implies #[trigger] out@[x].start
                    == self.spec_ranges()[x].0 && out@[x].end == self.spec_ranges()[x].1 by {
                    if x < k {
                        assert(out@[x] == prev[x]);
                    }
                }
            }
            k = k + 1;
        }
        out
    }
}

/// The span of stored ranges meeting `vn` (unique when the ranges are well
/// formed, see `lemma_meeting_span_unique`).
pub open spec fn meeting_span_of(s: Seq<ByteRange>, vn: ByteRange) -> (int, int) {
    choose|i: int, j: int| is_meeting_span(s, vn, i, j)
}

/// The span of stored ranges touching `vn` (unique when the ranges are well
/// formed, see `lemma_merge_span_unique`).
pub open spec fn merge_span_of(s: Seq<ByteRange>, vn: ByteRange) -> (int, int) {
    choose|i: int, j: int| is_merge_span(s, vn, i, j)
}

/// The stored ranges after inserting `vn`.
pub open spec fn insert_spec(s: Seq<ByteRange>, vn: ByteRange) -> Seq<ByteRange> {
    let (i, j) = merge_span_of(s, vn);
    insert_result(s, vn, i, j)
}

proof fn lemma_meeting_span_unique(s: Seq<ByteRange>, vn: ByteRange, i: int, j: int, i2: int, j2: int)
    requires
        ranges_wf(s),
        vn.0 <= vn.1,
        is_meeting_span(s, vn, i, j),
        is_meeting_span(s, vn, i2, j2),
    ensures
        i == i2,
        j == j2,
{
    if i < i2 {
        assert(s[i].1 < vn.0);
        assert(s[i].0 <= s[i].1);
        if i < j {
            assert(meets(s[i], vn));
        }
    }
    if i2 < i {
        assert(s[i2].1 < vn.0);
        assert(s[i2].0 <= s[i2].1);
        if i2 < j2 {
            assert(meets(s[i2], vn));
        }
    }
    if j < j2 {
        assert(s[j].0 >= vn.1);
        assert(s[j].0 <= s[j].1);
        if j >= i2 {
            assert(meets(s[j], vn));
        }
    }
    if j2 < j {
        assert(s[j2].0 >= vn.1);
        assert(s[j2].0 <= s[j2].1);
        if j2 >= i {
            assert(meets(s[j2], vn));
        }
    }
}

proof fn lemma_meeting_span_of(s: Seq<ByteRange>, vn: ByteRange, i: int, j: int)
    requires
        ranges_wf(s),
        vn.0 <= vn.1,
        is_meeting_span(s, vn, i, j),
    ensures
        meeting_span_of(s, vn) == (i, j),
{
    let (i2, j2) = meeting_span_of(s, vn);
    lemma_meeting_span_unique(s, vn, i, j, i2, j2);
}

proof fn lemma_merge_span_unique(s: Seq<ByteRange>, vn: ByteRange, i: int, j: int, i2: int, j2: int)
    requires
        ranges_wf(s),
        vn.0 <= vn.1,
        is_merge_span(s, vn, i, j),
        is_merge_span(s, vn, i2, j2),
    ensures
        i == i2,
        j == j2,
{
    if i < i2 {
        assert(s[i].1 < vn.0);
        assert(s[i].0 <= s[i].1);
        if i < j {
            assert(touches(s[i], vn));
        }
    }
    if i2 < i {
        assert(s[i2].1 < vn.0);
        assert(s[i2].0 <= s[i2].1);
        if i2 < j2 {
            assert(touches(s[i2], vn));
        }
    }
    if j < j2 {
        assert(s[j].0 > vn.1);
        assert(s[j].0 <= s[j].1);
        if j >= i2 {
            assert(touches(s[j], vn));
        }
    }
    if j2 < j {
        assert(s[j2].0 > vn.1);
        assert(s[j2].0 <= s[j2].1);
        if j2 >= i {
            assert(touches(s[j2], vn));
        }
    }
}

proof fn lemma_insert_spec(s: Seq<ByteRange>, vn: ByteRange, i: int, j: int)
    requires
        ranges_wf(s),
        vn.0 <= vn.1,
        is_merge_span(s, vn, i, j),
    ensures
        merge_span_of(s, vn) == (i, j),
        insert_spec(s, vn) == insert_result(s, vn, i, j),
{
    let (i2, j2) = merge_span_of(s, vn);
    lemma_merge_span_unique(s, vn, i, j, i2, j2);
}

/// The stored ranges after inserting each range of `o`, in order.
pub open spec fn union_spec(s: Seq<ByteRange>, o: Seq<ByteRange>) -> Seq<ByteRange>
    decreases o.len(),
{
    if o.len() == 0 {
        s
    } else {
        insert_spec(union_spec(s, o.drop_last()), o.last())
    }
}

/// The pieces that `r` cuts from the stored ranges meeting it.
pub open spec fn span_pieces(s: Seq<ByteRange>, r: ByteRange) -> Seq<ByteRange> {
    let (i, j) = meeting_span_of(s, r);
    s.subrange(i, j).map_values(|x: ByteRange| clip(x, r))
}

/// `x` cut down to `r`.
pub open spec fn clip(x: ByteRange, r: ByteRange) -> ByteRange {
    (if x.0 > r.0 { x.0 } else { r.0 }, if x.1 < r.1 { x.1 } else { r.1 })
}

/// The pieces that the ranges of `o`, in order, cut from the stored ranges.
pub open spec fn intersect_pieces(s: Seq<ByteRange>, o: Seq<ByteRange>) -> Seq<ByteRange>
    decreases o.len(),
{
    if o.len() == 0 {
        Seq::empty()
    } else {
        intersect_pieces(s, o.drop_last()) + span_pieces(s, o.last())
    }
}

/// The stored ranges after removing the addresses of `r`: the ranges meeting
/// `r` are taken out, then what lies before `r` of the first of them and what
/// lies after `r` of the last of them are inserted again.
pub open spec fn subtract_one(s: Seq<ByteRange>, r: ByteRange) -> Seq<ByteRange> {
    let (i, j) = meeting_span_of(s, r);
    let t0 = s.take(i) + s.skip(j);
    let t1 = if i < j && s[i].0 < r.0 { insert_spec(t0, (s[i].0, r.0)) } else { t0 };
    if i < j && s[j - 1].1 > r.1 { insert_spec(t1, (r.1, s[j - 1].1)) } else { t1 }
}

/// The stored ranges after removing each range of `o`, in order.
pub open spec fn subtract_spec(s: Seq<ByteRange>, o: Seq<ByteRange>) -> Seq<ByteRange>
    decreases o.len(),
{
    if o.len() == 0 {
        s
    } else {
        subtract_one(subtract_spec(s, o.drop_last()), o.last())
    }
}

impl VarNodeSpaceSet {
    /// Adds every range of `other`, in order.
    pub fn union(&mut self, other: &Self)
        requires
            old(self).wf(),
            other.wf(),
        ensures
            final(self).wf(),
            forall|a: int| #[trigger] final(self).contains(a) <==> (old(self).contains(a) || other.contains(a)),
            final(self).spec_ranges() == union_spec(old(self).spec_ranges(), other.spec_ranges()),
    {
        let ghost s0 = self.spec_ranges();
        let ghost o = other.spec_ranges();
        let n = other.ranges.len();
        let mut k: usize = 0;
        while k < n
            invariant
                k <= n == o.len(),
                o == other.spec_ranges(),
                other.wf(),
                self.wf(),
                self.spec_ranges() == union_spec(s0, o.take(k as int)),
                forall|a: int| #[trigger] self.contains(a) <==> (covered(s0, a) || covered(o.take(k as int), a)),
            decreases n - k,
        {
            let r = other.ranges[k];
            assert(o[k as int].0 <= o[k as int].1);
            let ghost before = self.spec_ranges();
            self.insert(r);
            proof {
                assert(o.take(k + 1).drop_last() == o.take(k as int));
                assert(o.take(k + 1).last() == r);
                assert forall|a: int| #[trigger] self.contains(a) <==> (covered(s0, a) || covered(o.take(k + 1), a)) by {
                    if covered(o.take(k + 1), a) {
                        let x = choose|x: int| 0 <= x < o.take(k + 1).len() && #[trigger] in_range(o.take(k + 1)[x], a);
                        if x < k {
                            assert(o.take(k as int)[x] == o.take(k + 1)[x]);
                        }
                    }
                    if covered(o.take(k as int), a) {
                        let x = choose|x: int| 0 <= x < o.take(k as int).len() && #[trigger] in_range(o.take(k as int)[x], a);
                        assert(o.take(k as int)[x] == o.take(k + 1)[x]);
                    }
                    if in_range(r, a) {
                        assert(o.take(k + 1)[k as int] == r);
                    }
                }
            }
            k = k + 1;
        }
        proof {
            assert(o.take(n as int) == o);
        }
    }

    /// The ranges `[0, i)` and `[j, len)` of the stored list.
    fn without_span(&self, i: usize, j: usize) -> (r: Vec<ByteRange>)
        requires
            self.wf(),
            i <= j <= self.spec_ranges().len(),
        ensures
            r@ == self.spec_ranges().take(i as int) + self.spec_ranges().skip(j as int),
            ranges_wf(r@),
            ranges_nonempty(r@),
    {
        let ghost s = self.spec_ranges();
        let n = self.ranges.len();
        let mut out: Vec<ByteRange> = Vec::new();
        let mut k: usize = 0;
        while k < i
            invariant
                k <= i <= j <= n == s.len(),
                s == self.spec_ranges(),
                out@ == s.take(k as int),
            decreases i - k,
        {
            out.push(self.ranges[k]);
            proof {
                assert(s.take(k + 1) == s.take(k as int).push(s[k as int]));
            }
            k = k + 1;
        }
        let mut k: usize = j;
        while k < n
            invariant
                j <= k <= n == s.len(),
                s == self.spec_ranges(),
                out@ == s.take(i as int) + s.subrange(j as int, k as int),
            decreases n - k,
        {
            out.push(self.ranges[k]);
            proof {
                assert(s.subrange(j as int, k + 1) == s.subrange(j as int, k as int).push(s[k as int]));
            }
            k = k + 1;
        }
        proof {
            assert(s.subrange(j as int, n as int) == s.skip(j as int));
            let t = out@;
            assert forall|x: int| 0 <= x < t.len() implies #[trigger] t[x].0 < t[x].1 by {
                if x < i {
                    assert(t[x] == s[x]);
                } else {
                    assert(t[x] == s[x - i + j]);
                }
            }
            assert forall|x: int, y: int| 0 <= x < y < t.len() implies #[trigger] t[x].1
                <= #[trigger] t[y].0 && t[x].0 < t[y].0 by {
                let xs = if x < i { x } else { x - i + j };
                let ys = if y < i { y } else { y - i + j };
                assert(t[x] == s[xs] && t[y] == s[ys]);
                assert(xs < ys);
            }
        }
        out
    }
}

impl VarNodeSpaceSet {
    /// Removes the addresses of every range of `other`, in order.
    pub fn subtract(&mut self, other: &Self)
        requires
            old(self).wf(),
            other.wf(),
        ensures
            final(self).wf(),
            forall|a: int| #[trigger] final(self).contains(a) <==> (old(self).contains(a) && !other.contains(a)),
            final(self).spec_ranges() == subtract_spec(old(self).spec_ranges(), other.spec_ranges()),
    {
        let ghost s0 = self.spec_ranges();
        let ghost o = other.spec_ranges();
        let n = other.ranges.len();
        let mut k: usize = 0;
        while k < n
            invariant
                k <= n == o.len(),
                o == other.spec_ranges(),
                other.wf(),
                self.wf(),
                self.spec_ranges() == subtract_spec(s0, o.take(k as int)),
                forall|a: int| #[trigger] self.contains(a) <==> (covered(s0, a) && !covered(o.take(k as int), a)),
            decreases n - k,
        {
            let r = other.ranges[k];
            assert(o[k as int].0 <= o[k as int].1);
            let ghost s = self.spec_ranges();
            self.subtract_range(r);
            proof {
                assert(o.take(k + 1).drop_last() == o.take(k as int));
                assert(o.take(k + 1).last() == r);
                assert forall|a: int| #[trigger] self.contains(a) <==> (covered(s0, a) && !covered(o.take(k + 1), a)) by {
                    if covered(o.take(k + 1), a) {
                        let x = choose|x: int| 0 <= x < o.take(k + 1).len() && #[trigger] in_range(o.take(k + 1)[x], a);
                        if x < k {
                            assert(o.take(k as int)[x] == o.take(k + 1)[x]);
                        }
                    }
                    if covered(o.take(k as int), a) {
                        let x = choose|x: int| 0 <= x < o.take(k as int).len() && #[trigger] in_range(o.take(k as int)[x], a);
                        assert(o.take(k as int)[x] == o.take(k + 1)[x]);
                    }
                    if in_range(r, a) {
                        assert(o.take(k + 1)[k as int] == r);
                    }
                }
            }
            k = k + 1;
        }
        proof {
            assert(o.take(n as int) == o);
        }
    }

    /// Removes the addresses of `r`.
    fn subtract_range(&mut self, r: ByteRange)
        requires
            old(self).wf(),
            r.0 <= r.1,
        ensures
            final(self).wf(),
            forall|a: int| #[trigger] final(self).contains(a) <==> (old(self).contains(a) && !in_range(r, a)),
            final(self).spec_ranges() == subtract_one(old(self).spec_ranges(), r),
    {
        let ghost s = self.spec_ranges();
        let (i, j) = self.meeting_span(r);
        proof {
            assert(is_meeting_span(s, r, i as int, j as int));
            lemma_meeting_span_of(s, r, i as int, j as int);
        }
        let t0 = self.without_span(i, j);
        let mut t = VarNodeSpaceSet { ranges: t0 };
        let ghost g0 = t.spec_ranges();
        proof {
            assert forall|a: int| #[trigger] covered(g0, a) <==> (covered(s, a)
                && exists|x: int| 0 <= x < s.len() && (x < i || x >= j) && #[trigger] in_range(s[x], a)) by {
                if covered(g0, a) {
                    let y = choose|y: int| 0 <= y < g0.len() && #[trigger] in_range(g0[y], a);
                    if y < i {
                        assert(g0[y] == s[y]);
                        assert(in_range(s[y], a));
                    } else {
                        assert(g0[y] == s[y - i + j]);
                        assert(in_range(s[y - i + j], a));
                    }
                }
                if exists|x: int| 0 <= x < s.len() && (x < i || x >= j) && #[trigger] in_range(s[x], a) {
                    let x = choose|x: int| 0 <= x < s.len() && (x < i || x >= j) && #[trigger] in_range(s[x], a);
                    if x < i {
                        assert(g0[x] == s[x]);
                        assert(in_range(g0[x], a));
                    } else {
                        assert(g0[x - j + i] == s[x]);
                        assert(in_range(g0[x - j + i], a));
                    }
                }
            }
        }
        let ghost have_l = i < j && s[i as int].0 < r.0;
        let ghost have_r = i < j && s[j - 1].1 > r.1;
        let ghost left = if i < j { (s[i as int].0, r.0) } else { (0u64, 0u64) };
        let ghost right = if i < j { (r.1, s[j - 1].1) } else { (0u64, 0u64) };
        if i < j && self.ranges[i].0 < r.0 {
            t.insert((self.ranges[i].0, r.0));
            assert forall|a: int| #[trigger] covered(t.spec_ranges(), a) <==> (covered(g0, a) || (have_l && in_range(left, a))) by {
                assert(t.contains(a) <==> covered(g0, a) || in_range(left, a));
            }
        }
        let ghost g1 = t.spec_ranges();
        assert(forall|a: int| #[trigger] covered(g1, a) <==> (covered(g0, a) || (have_l && in_range(left, a))));
        if i < j && self.ranges[j - 1].1 > r.1 {
            assert(s[j - 1].0 <= s[j - 1].1);
            t.insert((r.1, self.ranges[j - 1].1));
            assert forall|a: int| #[trigger] covered(t.spec_ranges(), a) <==> (covered(g1, a) || (have_r && in_range(right, a))) by {
                assert(t.contains(a) <==> covered(g1, a) || in_range(right, a));
            }
        }
        let ghost g2 = t.spec_ranges();
        assert(forall|a: int| #[trigger] covered(g2, a) <==> (covered(g1, a) || (have_r && in_range(right, a))));
        proof {
            assert forall|a: int| #[trigger] covered(g2, a) <==> (covered(s, a) && !in_range(r, a)) by {
                if covered(s, a) && !in_range(r, a) {
                    let x = choose|x: int| 0 <= x < s.len() && #[trigger] in_range(s[x], a);
                    if i <= x < j {
                        assert(meets(s[x], r));
                        if a < r.0 {
                            if x > i {
                                assert(s[i as int].1 <= s[x].0);
                                assert(meets(s[i as int], r));
                            }
                            if x < i {
                            } else {
                                assert(s[i as int].0 <= a);
                            }
                            assert(have_l && in_range(left, a));
                        } else {
                            if x < j - 1 {
                                assert(s[x].1 <= s[j - 1].0);
                                assert(meets(s[j - 1], r));
                            }
                            assert(have_r && in_range(right, a));
                        }
                    } else {
                        assert(covered(g0, a));
                    }
                }
                if covered(g2, a) {
                    if covered(g0, a) {
                        let x = choose|x: int| 0 <= x < s.len() && (x < i || x >= j) && #[trigger] in_range(s[x], a);
                        if x < i {
                            assert(s[x].1 < r.0);
                        } else {
                            assert(s[x].0 >= r.1);
                        }
                    } else if have_l && in_range(left, a) {
                        assert(meets(s[i as int], r));
                        assert(in_range(s[i as int], a));
                    } else {
                        assert(have_r && in_range(right, a));
                        assert(meets(s[j - 1], r));
                        assert(in_range(s[j - 1], a));
                    }
                }
            }
        }
        *self = t;
    }

    /// Keeps only the addresses that `other` also holds: the set becomes the
    /// pieces that the ranges of `other`, in order, cut from the stored ranges
    /// meeting them, inserted in that order into an empty set.
    pub fn intersect(&mut self, other: &Self)
        requires
            old(self).wf(),
            other.wf(),
        ensures
            final(self).wf(),
            forall|a: int| #[trigger] final(self).contains(a) <==> (old(self).contains(a) && other.contains(a)),
            final(self).spec_ranges() == union_spec(Seq::empty(), intersect_pieces(old(self).spec_ranges(), other.spec_ranges())),
    {
        let ghost s = self.spec_ranges();
        let ghost o = other.spec_ranges();
        let mut res = VarNodeSpaceSet::new();
        let n = other.ranges.len();
        let mut k: usize = 0;
        while k < n
            invariant
                k <= n == o.len(),
                o == other.spec_ranges(),
                s == self.spec_ranges(),
                other.wf(),
                self.wf(),
                res.wf(),
                res.spec_ranges() == union_spec(Seq::empty(), intersect_pieces(s, o.take(k as int))),
                forall|a: int| #[trigger] res.contains(a) <==> (covered(s, a) && covered(o.take(k as int), a)),
            decreases n - k,
        {
            let r = other.ranges[k];
            assert(o[k as int].0 <= o[k as int].1);
            let (i, j) = self.meeting_span(r);
            proof {
                assert(is_meeting_span(s, r, i as int, j as int));
                lemma_meeting_span_of(s, r, i as int, j as int);
            }
            let ghost p0 = intersect_pieces(s, o.take(k as int));
            let ghost pieces = span_pieces(s, r);
            assert(pieces.len() == j - i);
            let mut m: usize = i;
            while m < j
                invariant
                    i <= m <= j <= s.len(),
                    k < n == o.len(),
                    o == other.spec_ranges(),
                    s == self.spec_ranges(),
                    r == o[k as int],
                    r.0 <= r.1,
                    self.wf(),
                    res.wf(),
                    is_meeting_span(s, r, i as int, j as int),
                    pieces == span_pieces(s, r),
                    pieces == s.subrange(i as int, j as int).map_values(|x: ByteRange| clip(x, r)),
                    res.spec_ranges() == union_spec(Seq::empty(), p0 + pieces.take(m - i)),
                    forall|a: int| #[trigger] res.contains(a) <==> ((covered(s, a) && covered(o.take(k as int), a))
                        || exists|x: int| i <= x < m && #[trigger] in_range(clip(s[x], r), a)),
                decreases j - m,
            {
                let x = self.ranges[m];
                let lo = if x.0 > r.0 { x.0 } else { r.0 };
                let hi = if x.1 < r.1 { x.1 } else { r.1 };
                proof {
                    assert(meets(s[m as int], r));
                    assert(s[m as int].0 <= s[m as int].1);
                    assert(clip(s[m as int], r) == (lo, hi));
                    assert(pieces[m - i] == (lo, hi));
                    assert((p0 + pieces.take(m + 1 - i)).drop_last() == p0 + pieces.take(m - i));
                    assert((p0 + pieces.take(m + 1 - i)).last() == (lo, hi));
                }
                res.insert((lo, hi));
                proof {
                    assert forall|a: int| #[trigger] res.contains(a) <==> ((covered(s, a) && covered(o.take(k as int), a))
                        || exists|y: int| i <= y < m + 1 && #[trigger] in_range(clip(s[y], r), a)) by {
                        if in_range((lo, hi), a) {
                            assert(in_range(clip(s[m as int], r), a));
                        }
                        if exists|y: int| i <= y < m + 1 && #[trigger] in_range(clip(s[y], r), a) {
                            let y = choose|y: int| i <= y < m + 1 && #[trigger] in_range(clip(s[y], r), a);
                            if y < m {
                            } else {
                                assert(in_range((lo, hi), a));
                            }
                        }
                    }
                }
                m = m + 1;
            }
            proof {
                assert(pieces.take(j - i) == pieces);
                assert(o.take(k + 1).drop_last() == o.take(k as int));
                assert(o.take(k + 1).last() == r);
                assert(intersect_pieces(s, o.take(k + 1)) == p0 + pieces);
                assert forall|a: int| #[trigger] res.contains(a) <==> (covered(s, a) && covered(o.take(k + 1), a)) by {
                    if exists|y: int| i <= y < j && #[trigger] in_range(clip(s[y], r), a) {
                        let y = choose|y: int| i <= y < j && #[trigger] in_range(clip(s[y], r), a);
                        assert(in_range(s[y], a));
                        assert(in_range(o.take(k + 1)[k as int], a));
                    }
                    if covered(s, a) && covered(o.take(k + 1), a) {
                        let y = choose|y: int| 0 <= y < o.take(k + 1).len() && #[trigger] in_range(o.take(k + 1)[y], a);
                        if y < k {
                            assert(o.take(k as int)[y] == o.take(k + 1)[y]);
                        } else {
                            assert(in_range(r, a));
                            let x = choose|x: int| 0 <= x < s.len() && #[trigger] in_range(s[x], a);
                            if x < i {
                                assert(s[x].1 < r.0);
                            } else if x >= j {
                                assert(s[x].0 >= r.1);
                            } else {
                                assert(in_range(clip(s[x], r), a));
                            }
                        }
                    }
                    if covered(o.take(k as int), a) {
                        let y = choose|y: int| 0 <= y < o.take(k as int).len() && #[trigger] in_range(o.take(k as int)[y], a);
                        assert(o.take(k as int)[y] == o.take(k + 1)[y]);
                    }
                }
            }
            k = k + 1;
        }
        proof {
            assert(o.take(n as int) == o);
        }
        *self = res;
    }
}

/// Every range of `o` is covered by the ranges `s` (in the sense of
/// `covers`).
pub open spec fn covers_all(s: Seq<ByteRange>, o: Seq<ByteRange>) -> bool {
    forall|k: int| 0 <= k < o.len() ==> covers_spec(s, #[trigger] o[k])
}

/// How two space sets compare: `Equal` when each covers every range of the
/// other, `Less` when only `s` covers the ranges of `o`, `Greater` when only
/// `o` covers those of `s`.
pub open spec fn space_order(s: Seq<ByteRange>, o: Seq<ByteRange>) -> Option<Ordering> {
    if covers_all(s, o) && covers_all(o, s) {
        Some(Ordering::Equal)
    } else if covers_all(s, o) {
        Some(Ordering::Less)
    } else if covers_all(o, s) {
        Some(Ordering::Greater)
    } else {
        None
    }
}

impl VarNodeSpaceSet {
    /// The stored ranges that meet `vn`, in order.
    fn get_overlaps(&self, vn: &ByteRange) -> (r: Vec<ByteRange>)
        requires
            self.wf(),
            vn.0 <= vn.1,
        ensures
            forall|i: int, j: int| #[trigger] is_meeting_span(self.spec_ranges(), *vn, i, j)
                ==> r@ == self.spec_ranges().subrange(i, j),
            forall|k: int| 0 <= k < r@.len() ==> #[trigger] meets(r@[k], *vn),
    {
        let ghost s = self.spec_ranges();
        let (i, j) = self.meeting_span(*vn);
        let mut out: Vec<ByteRange> = Vec::new();
        let mut k: usize = i;
        while k < j
            invariant
                i <= k <= j <= s.len(),
                s == self.spec_ranges(),
                out@ == s.subrange(i as int, k as int),
                forall|x: int| i <= x < j ==> #[trigger] meets(s[x], *vn),
            decreases j - k,
        {
            out.push(self.ranges[k]);
            proof {
                assert(s.subrange(i as int, k + 1) == s.subrange(i as int, k as int).push(s[k as int]));
            }
            k = k + 1;
        }
        proof {
            assert(is_meeting_span(s, *vn, i as int, j as int));
            assert forall|i2: int, j2: int| #[trigger] is_meeting_span(s, *vn, i2, j2)
                implies out@ == s.subrange(i2, j2) by {
                lemma_meeting_span_unique(s, *vn, i as int, j as int, i2, j2);
            }
            assert forall|x: int| 0 <= x < out@.len() implies #[trigger] meets(out@[x], *vn) by {
                assert(out@[x] == s[i + x]);
            }
        }
        out
    }

    /// Every range of `other` is covered by this set.
    fn covers_all_of(&self, other: &Self) -> (r: bool)
        requires
            self.wf(),
            other.wf(),
        ensures
            r == covers_all(self.spec_ranges(), other.spec_ranges()),
    {
        let n = other.ranges.len();
        let mut k: usize = 0;
        while k < n
            invariant
                k <= n == other.spec_ranges().len(),
                self.wf(),
                forall|x: int| 0 <= x < k ==> covers_spec(self.spec_ranges(), #[trigger] other.spec_ranges()[x]),
            decreases n - k,
        {
            let r = other.ranges[k];
            if !self.covers(&r) {
                assert(!covers_spec(self.spec_ranges(), other.spec_ranges()[k as int]));
                return false;
            }
            k = k + 1;
        }
        true
    }

    /// Compares two space sets by which one covers the ranges of the other;
    /// the set that covers the other's ranges is the lesser one.
    pub fn partial_cmp(&self, other: &Self) -> (r: Option<Ordering>)
        requires
            self.wf(),
            other.wf(),
        ensures
            r == space_order(self.spec_ranges(), other.spec_ranges()),
    {
        let all_covered = self.covers_all_of(other);
        let other_covered = other.covers_all_of(self);
        if all_covered && other_covered {
            Some(Ordering::Equal)
        } else if all_covered {
            Some(Ordering::Less)
        } else if other_covered {
            Some(Ordering::Greater)
        } else {
            None
        }
    }
}

/// A set of varnodes: for each address space, the set of its stored bytes.
#[derive(Clone, Debug, PartialEq, Eq)]
pub struct VarNodeSet {
    space_map: Vec<(usize, VarNodeSpaceSet)>,
}

/// The entries are ordered by space index, one per space, each well formed.
pub open spec fn space_map_wf(m: Seq<(usize, VarNodeSpaceSet)>) -> bool {
    &&& forall|i: int, j: int| 0 <= i < j < m.len() ==> #[trigger] m[i].0 < #[trigger] m[j].0
    &&& forall|i: int| 0 <= i < m.len() ==> (#[trigger] m[i]).1.wf()
}

/// The position of the entry for `space`, if there is one.
pub open spec fn entry_of(m: Seq<(usize, VarNodeSpaceSet)>, space: usize) -> Option<int> {
    if exists|i: int| 0 <= i < m.len() && #[trigger] m[i].0 == space {
        Some(choose|i: int| 0 <= i < m.len() && #[trigger] m[i].0 == space)
    } else {
        None
    }
}

impl VarNodeSet {
    pub closed spec fn spec_map(self) -> Seq<(usize, VarNodeSpaceSet)> {
        self.space_map@
    }

    pub open spec fn wf(self) -> bool {
        space_map_wf(self.spec_map())
    }

    /// The set holds an entry for `space` (possibly an empty one).
    pub open spec fn has_space(self, space: usize) -> bool {
        entry_of(self.spec_map(), space) is Some
    }

    /// The stored ranges of `space` (none when there is no entry).
    pub open spec fn space_ranges(self, space: usize) -> Seq<ByteRange> {
        match entry_of(self.spec_map(), space) {
            Some(i) => self.spec_map()[i].1.spec_ranges(),
            None => Seq::empty(),
        }
    }

    /// Address `a` of `space` belongs to the set.
    pub open spec fn contains(self, space: usize, a: int) -> bool {
        covered(self.space_ranges(space), a)
    }

    pub fn new() -> (r: Self)
        ensures
            r.wf(),
            forall|sp: usize| !(#[trigger] r.has_space(sp)),
    {
        VarNodeSet { space_map: Vec::new() }
    }

    /// The position of the entry for `space`, if any.
    fn find(&self, space: usize) -> (r: Option<usize>)
        requires
            self.wf(),
        ensures
            r == (match entry_of(self.spec_map(), space) {
                Some(i) => Some(i as usize),
                None => None::<usize>,
            }),
            r matches Some(i) ==> i < self.spec_map().len() && self.spec_map()[i as int].0 == space,
    {
        let n = self.space_map.len();
        let mut k: usize = 0;
        while k < n
            invariant
                k <= n == self.spec_map().len(),
                self.wf(),
                forall|x: int| 0 <= x < k ==> #[trigger] self.spec_map()[x].0 != space,
            decreases n - k,
        {
            if self.space_map[k].0 == space {
                proof {
                    lemma_entry_of(self.spec_map(), space, k as int);
                }
                return Some(k);
            }
            k = k + 1;
        }
        None
    }

    /// Makes sure an entry for `s` exists (adding an empty one where there was
    /// none) and returns its position.
    fn get_map_mut(&mut self, s: usize) -> (idx: usize)
        requires
            old(self).wf(),
        ensures
            final(self).wf(),
            idx < final(self).spec_map().len(),
            final(self).spec_map()[idx as int].0 == s,
            forall|sp: usize| #[trigger] final(self).has_space(sp) <==> (old(self).has_space(sp) || sp == s),
            forall|sp: usize| #[trigger] final(self).space_ranges(sp) == old(self).space_ranges(sp),
            entry_of(final(self).spec_map(), s) == Some(idx as int),
    {
        let ghost m0 = self.spec_map();
        let n = self.space_map.len();
        let mut k: usize = 0;
        while k < n && self.space_map[k].0 < s
            invariant
                k <= n == m0.len(),
                m0 == self.spec_map(),
                forall|x: int| 0 <= x < k ==> #[trigger] m0[x].0 < s,
            decreases n - k,
        {
            k = k + 1;
        }
        if k < n && self.space_map[k].0 == s {
            proof {
                lemma_entry_of(m0, s, k as int);
            }
            return k;
        }
        self.space_map.insert(k, (s, VarNodeSpaceSet::new()));
        proof {
            let m = self.spec_map();
            assert(m.len() == n + 1);
            assert forall|x: int| 0 <= x < k implies #[trigger] m[x] == m0[x] by {}
            assert forall|x: int| k < x < m.len() implies #[trigger] m[x] == m0[x - 1] by {}
            assert forall|x: int| k < x < m.len() implies #[trigger] m[x].0 > s by {
                assert(m[x] == m0[x - 1]);
                if x - 1 > k {
                    assert(m0[k as int].0 < m0[x - 1].0);
                }
            }
            assert forall|i: int, j: int| 0 <= i < j < m.len() implies #[trigger] m[i].0 < #[trigger] m[j].0 by {
                if j < k {
                    assert(m[i] == m0[i] && m[j] == m0[j]);
                } else if j == k {
                    assert(m[i] == m0[i]);
                } else if i < k {
                    assert(m[i] == m0[i]);
                    assert(m[j] == m0[j - 1]);
                    assert(m0[i].0 < s);
                } else if i > k {
                    assert(m[i] == m0[i - 1] && m[j] == m0[j - 1]);
                }
            }
            assert forall|i: int| 0 <= i < m.len() implies (#[trigger] m[i]).1.wf() by {
                if i < k {
                    assert(m[i] == m0[i]);
                } else if i > k {
                    assert(m[i] == m0[i - 1]);
                }
            }
            lemma_entry_of(m, s, k as int);
            assert(m[k as int].1.spec_ranges() == Seq::<ByteRange>::empty());
            assert forall|sp: usize| (#[trigger] self.has_space(sp) <==> (old(self).has_space(sp) || sp == s))
                && self.space_ranges(sp) == old(self).space_ranges(sp) by {
                if sp != s {
                    if exists|i: int| 0 <= i < m0.len() && #[trigger] m0[i].0 == sp {
                        let i = choose|i: int| 0 <= i < m0.len() && #[trigger] m0[i].0 == sp;
                        lemma_entry_of(m0, sp, i);
                        let i2 = if i < k { i } else { i + 1 };
                        assert(m[i2] == m0[i]);
                        lemma_entry_of(m, sp, i2);
                    } else {
                        assert forall|i: int| 0 <= i < m.len() implies #[trigger] m[i].0 != sp by {
                            if i < k {
                                assert(m[i] == m0[i]);
                            } else if i > k {
                                assert(m[i] == m0[i - 1]);
                            }
                        }
                    }
                } else {
                    if exists|i: int| 0 <= i < m0.len() && #[trigger] m0[i].0 == sp {
                        let i = choose|i: int| 0 <= i < m0.len() && #[trigger] m0[i].0 == sp;
                        if i >= k {
                            if i > k {
                                assert(m0[k as int].0 < m0[i].0);
                            }
                        }
                        assert(false);
                    }
                    assert(entry_of(m0, sp) is None);
                }
            }
            assert forall|sp: usize| #[trigger] self.space_ranges(sp) == old(self).space_ranges(sp) by {
                assert((self.has_space(sp) <==> (old(self).has_space(sp) || sp == s))
                && self.space_ranges(sp) == old(self).space_ranges(sp));
            }
        }
        k
    }
}

impl VarNodeSpaceSet {
    /// A copy of the set.
    fn duplicate(&self) -> (r: Self)
        ensures
            r.spec_ranges() == self.spec_ranges(),
    {
        let mut out: Vec<ByteRange> = Vec::new();
        let mut k: usize = 0;
        while k < self.ranges.len()
            invariant
                k <= self.spec_ranges().len(),
                out@ == self.spec_ranges().take(k as int),
            decreases self.spec_ranges().len() - k,
        {
            out.push(self.ranges[k]);
            proof {
                assert(self.spec_ranges().take(k + 1) == self.spec_ranges().take(k as int).push(self.spec_ranges()[k as int]));
            }
            k = k + 1;
        }
        proof {
            assert(self.spec_ranges().take(self.spec_ranges().len() as int) == self.spec_ranges());
        }
        VarNodeSpaceSet { ranges: out }
    }
}

proof fn lemma_replace_entry(m0: Seq<(usize, VarNodeSpaceSet)>, idx: int, set: VarNodeSpaceSet)
    requires
        space_map_wf(m0),
        0 <= idx < m0.len(),
        set.wf(),
    ensures
        space_map_wf(m0.update(idx, (m0[idx].0, set))),
        forall|sp: usize| #[trigger] entry_of(m0.update(idx, (m0[idx].0, set)), sp) == entry_of(m0, sp),
{
    let m = m0.update(idx, (m0[idx].0, set));
    assert forall|i: int, j: int| 0 <= i < j < m.len() implies #[trigger] m[i].0 < #[trigger] m[j].0 by {
        assert(m0[i].0 < m0[j].0);
        assert(m[i].0 == m0[i].0);
        assert(m[j].0 == m0[j].0);
    }
    assert forall|i: int| 0 <= i < m.len() implies (#[trigger] m[i]).1.wf() by {
        assert(m[i].0 == m0[i].0);
    }
    assert forall|sp: usize| #[trigger] entry_of(m, sp) == entry_of(m0, sp) by {
        if exists|i: int| 0 <= i < m0.len() && #[trigger] m0[i].0 == sp {
            let i = choose|i: int| 0 <= i < m0.len() && #[trigger] m0[i].0 == sp;
            lemma_entry_of(m0, sp, i);
            assert(m[i].0 == m0[i].0);
            assert(m[i].0 == sp);
            lemma_entry_of(m, sp, i);
        } else {
            assert forall|i: int| 0 <= i < m.len() implies #[trigger] m[i].0 != sp by {
                assert(m[i].0 == m0[i].0);
            }
        }
    }
}

/// The varnodes of a list of space entries: for each space in order, one
/// varnode per stored range.
pub open spec fn varnodes_of(m: Seq<(usize, VarNodeSpaceSet)>) -> Seq<VarNode>
    decreases m.len(),
{
    if m.len() == 0 {
        Seq::empty()
    } else {
        varnodes_of(m.drop_last()) + ranges_as_varnodes(m.last().0, m.last().1.spec_ranges())
    }
}

/// One varnode of the space `sp` per range.
pub open spec fn ranges_as_varnodes(sp: usize, rs: Seq<ByteRange>) -> Seq<VarNode> {
    rs.map_values(|r: ByteRange| VarNode { space_index: sp, offset: r.0, size: (r.1 - r.0) as usize })
}

/// How the sets of one space compare (a missing entry counts as empty).
pub open spec fn order_at(a: VarNodeSet, b: VarNodeSet, sp: usize) -> Option<Ordering> {
    space_order(a.space_ranges(sp), b.space_ranges(sp))
}

/// How two varnode sets compare: over the spaces that either has an entry
/// for, `None` when some space is incomparable or when one space compares
/// `Less` and another `Greater`; otherwise the one non-`Equal` answer, or
/// `Equal`.
pub open spec fn set_order(a: VarNodeSet, b: VarNodeSet) -> Option<Ordering> {
    let key = |sp: usize| a.has_space(sp) || b.has_space(sp);
    if exists|sp: usize| key(sp) && #[trigger] order_at(a, b, sp) is None {
        None
    } else if (exists|sp: usize| key(sp) && #[trigger] order_at(a, b, sp) == Some(Ordering::Less))
        && (exists|sp: usize| key(sp) && #[trigger] order_at(a, b, sp) == Some(Ordering::Greater)) {
        None
    } else if exists|sp: usize| key(sp) && #[trigger] order_at(a, b, sp) == Some(Ordering::Less) {
        Some(Ordering::Less)
    } else if exists|sp: usize| key(sp) && #[trigger] order_at(a, b, sp) == Some(Ordering::Greater) {
        Some(Ordering::Greater)
    } else {
        Some(Ordering::Equal)
    }
}

impl VarNodeSet {
    /// Adds the bytes of `vn`.
    pub fn insert(&mut self, vn: &VarNode)
        requires
            old(self).wf(),
            vn.end() <= u64::MAX,
        ensures
            final(self).wf(),
            forall|sp: usize| #[trigger] final(self).has_space(sp) <==> (old(self).has_space(sp) || sp == vn.space_index),
            forall|sp: usize| #[trigger] final(self).space_ranges(sp) == if sp == vn.space_index {
                insert_spec(old(self).space_ranges(sp), (vn.offset, (vn.offset + vn.size) as u64))
            } else {
                old(self).space_ranges(sp)
            },
            forall|sp: usize, a: int| #[trigger] final(self).contains(sp, a) <==> (old(self).contains(sp, a)
                || (sp == vn.space_index && vn.contains_addr(a))),
    {
        let r: ByteRange = (vn.offset, vn.offset + vn.size as u64);
        let idx = self.get_map_mut(vn.space_index);
        let ghost mid = *self;
        let ghost m1 = self.spec_map();
        let (sp, mut set) = self.space_map.remove(idx);
        assert(m1[idx as int].1.wf());
        set.insert(r);
        self.space_map.insert(idx, (sp, set));
        proof {
            assert(self.spec_map() == m1.update(idx as int, (m1[idx as int].0, set)));
            lemma_replace_entry(m1, idx as int, set);
            assert forall|q: usize| #[trigger] self.has_space(q) == mid.has_space(q) by {
                assert(entry_of(self.spec_map(), q) == entry_of(m1, q));
            }
            assert forall|q: usize| #[trigger] self.space_ranges(q) == if q == vn.space_index {
                insert_spec(mid.space_ranges(q), r)
            } else {
                mid.space_ranges(q)
            } by {
                assert(entry_of(self.spec_map(), q) == entry_of(m1, q));
            }
            assert forall|q: usize| #[trigger] self.has_space(q) <==> (old(self).has_space(q) || q == vn.space_index) by {
                assert(mid.has_space(q) <==> (old(self).has_space(q) || q == vn.space_index));
            }
            assert forall|q: usize| #[trigger] self.space_ranges(q) == if q == vn.space_index {
                insert_spec(old(self).space_ranges(q), r)
            } else {
                old(self).space_ranges(q)
            } by {
                assert(mid.space_ranges(q) == old(self).space_ranges(q));
            }
            assert forall|q: usize, a: int| #[trigger] self.contains(q, a) <==> (old(self).contains(q, a)
                || (q == vn.space_index && vn.contains_addr(a))) by {
                assert(mid.space_ranges(q) == old(self).space_ranges(q));
                if q == vn.space_index {
                    assert(set.contains(a) <==> (covered(m1[idx as int].1.spec_ranges(), a) || in_range(r, a)));
                }
            }
        }
    }

    /// Adds every varnode of `other`.
    pub fn union(&mut self, other: &Self)
        requires
            old(self).wf(),
            other.wf(),
        ensures
            final(self).wf(),
            forall|sp: usize| #[trigger] final(self).has_space(sp) <==> (old(self).has_space(sp) || other.has_space(sp)),
            forall|sp: usize| #[trigger] final(self).space_ranges(sp) == if other.has_space(sp) {
                union_spec(old(self).space_ranges(sp), other.space_ranges(sp))
            } else {
                old(self).space_ranges(sp)
            },
            forall|sp: usize, a: int| #[trigger] final(self).contains(sp, a) <==> (old(self).contains(sp, a)
                || other.contains(sp, a)),
    {
        let ghost s0 = *self;
        let om = &other.space_map;
        let n = om.len();
        let mut k: usize = 0;
        while k < n
            invariant
                k <= n == other.spec_map().len(),
                om@ == other.spec_map(),
                other.wf(),
                self.wf(),
                forall|sp: usize| #[trigger] self.has_space(sp) <==> (s0.has_space(sp)
                    || exists|x: int| 0 <= x < k && #[trigger] other.spec_map()[x].0 == sp),
                forall|sp: usize| #[trigger] self.space_ranges(sp) == if exists|x: int| 0 <= x < k && #[trigger] other.spec_map()[x].0 == sp {
                    union_spec(s0.space_ranges(sp), other.space_ranges(sp))
                } else {
                    s0.space_ranges(sp)
                },
                forall|sp: usize, a: int| #[trigger] self.contains(sp, a) <==> (s0.contains(sp, a)
                    || ((exists|x: int| 0 <= x < k && #[trigger] other.spec_map()[x].0 == sp) && other.contains(sp, a))),
            decreases n - k,
        {
            let sp = om[k].0;
            proof {
                lemma_entry_of(other.spec_map(), sp, k as int);
                assert(other.spec_map()[k as int].1.wf());
            }
            let ghost prev = *self;
            let idx = self.get_map_mut(sp);
            let ghost mid = *self;
            let ghost m1 = self.spec_map();
            let (sp2, mut set) = self.space_map.remove(idx);
            assert(m1[idx as int].1.wf());
            set.union(&om[k].1);
            self.space_map.insert(idx, (sp2, set));
            proof {
                assert(self.spec_map() == m1.update(idx as int, (m1[idx as int].0, set)));
                lemma_replace_entry(m1, idx as int, set);
                assert(other.space_ranges(sp) == other.spec_map()[k as int].1.spec_ranges());
                assert forall|q: usize| #[trigger] self.has_space(q) == (prev.has_space(q) || q == sp)
                    && self.space_ranges(q) == (if q == sp { union_spec(prev.space_ranges(q), other.space_ranges(q)) } else { prev.space_ranges(q) })
                    by {
                    assert(entry_of(self.spec_map(), q) == entry_of(m1, q));
                    assert(mid.has_space(q) <==> (prev.has_space(q) || q == sp));
                    assert(mid.space_ranges(q) == prev.space_ranges(q));
                }
                assert forall|q: usize| #[trigger] self.has_space(q) <==> (s0.has_space(q)
                    || exists|x: int| 0 <= x < k + 1 && #[trigger] other.spec_map()[x].0 == q) by {
                    if q == sp {
                        assert(other.spec_map()[k as int].0 == q);
                    } else if exists|x: int| 0 <= x < k + 1 && #[trigger] other.spec_map()[x].0 == q {
                        let x = choose|x: int| 0 <= x < k + 1 && #[trigger] other.spec_map()[x].0 == q;
                        assert(x != k);
                    }
                }
                assert forall|q: usize| #[trigger] self.space_ranges(q) == if exists|x: int| 0 <= x < k + 1 && #[trigger] other.spec_map()[x].0 == q {
                    union_spec(s0.space_ranges(q), other.space_ranges(q))
                } else {
                    s0.space_ranges(q)
                } by {
                    assert(self.has_space(q) == (prev.has_space(q) || q == sp));
                    assert(prev.space_ranges(q) == if exists|x: int| 0 <= x < k && #[trigger] other.spec_map()[x].0 == q {
                        union_spec(s0.space_ranges(q), other.space_ranges(q))
                    } else {
                        s0.space_ranges(q)
                    });
                    if q == sp {
                        assert(other.spec_map()[k as int].0 == q);
                        if exists|x: int| 0 <= x < k && #[trigger] other.spec_map()[x].0 == q {
                            let x = choose|x: int| 0 <= x < k && #[trigger] other.spec_map()[x].0 == q;
                            assert(other.spec_map()[x].0 < other.spec_map()[k as int].0);
                        }
                    } else if exists|x: int| 0 <= x < k + 1 && #[trigger] other.spec_map()[x].0 == q {
                        let x = choose|x: int| 0 <= x < k + 1 && #[trigger] other.spec_map()[x].0 == q;
                        assert(x != k);
                    }
                }
                assert forall|q: usize, a: int| #[trigger] self.contains(q, a) <==> (s0.contains(q, a)
                    || ((exists|x: int| 0 <= x < k + 1 && #[trigger] other.spec_map()[x].0 == q) && other.contains(q, a))) by {
                    assert(self.has_space(q) == (prev.has_space(q) || q == sp));
                    assert(prev.contains(q, a) <==> (s0.contains(q, a)
                        || ((exists|x: int| 0 <= x < k && #[trigger] other.spec_map()[x].0 == q) && other.contains(q, a))));
                    if q == sp {
                        assert(other.spec_map()[k as int].0 == q);
                        assert(set.contains(a) <==> covered(m1[idx as int].1.spec_ranges(), a) || covered(other.spec_map()[k as int].1.spec_ranges(), a));
                        assert(entry_of(self.spec_map(), q) == Some(idx as int));
                        assert(self.space_ranges(q) == set.spec_ranges());
                        assert(mid.space_ranges(q) == m1[idx as int].1.spec_ranges());
                        assert(mid.space_ranges(q) == prev.space_ranges(q));
                        if exists|x: int| 0 <= x < k && #[trigger] other.spec_map()[x].0 == q {
                            let x = choose|x: int| 0 <= x < k && #[trigger] other.spec_map()[x].0 == q;
                            assert(other.spec_map()[x].0 < other.spec_map()[k as int].0);
                        }
                        assert(prev.space_ranges(q) == s0.space_ranges(q));
                    } else {
                        assert(self.space_ranges(q) == prev.space_ranges(q));
                        if exists|x: int| 0 <= x < k + 1 && #[trigger] other.spec_map()[x].0 == q {
                            let x = choose|x: int| 0 <= x < k + 1 && #[trigger] other.spec_map()[x].0 == q;
                            assert(x != k);
                        }
                    }
                }
            }
            k = k + 1;
        }
        proof {
            assert forall|sp: usize| other.has_space(sp) <==> exists|x: int| 0 <= x < n && #[trigger] other.spec_map()[x].0 == sp by {}
        }
    }
}

proof fn lemma_same_keys(m0: Seq<(usize, VarNodeSpaceSet)>, m: Seq<(usize, VarNodeSpaceSet)>)
    requires
        space_map_wf(m0),
        m.len() == m0.len(),
        forall|x: int| 0 <= x < m.len() ==> #[trigger] m[x].0 == m0[x].0 && m[x].1.wf(),
    ensures
        space_map_wf(m),
        forall|sp: usize| #[trigger] entry_of(m, sp) == entry_of(m0, sp),
{
    assert forall|i: int, j: int| 0 <= i < j < m.len() implies #[trigger] m[i].0 < #[trigger] m[j].0 by {
        assert(m0[i].0 < m0[j].0);
        assert(m[i].0 == m0[i].0);
        assert(m[j].0 == m0[j].0);
    }
    assert forall|i: int| 0 <= i < m.len() implies (#[trigger] m[i]).1.wf() by {
        assert(m[i].0 == m0[i].0);
    }
    assert forall|sp: usize| #[trigger] entry_of(m, sp) == entry_of(m0, sp) by {
        if exists|i: int| 0 <= i < m0.len() && #[trigger] m0[i].0 == sp {
            let i = choose|i: int| 0 <= i < m0.len() && #[trigger] m0[i].0 == sp;
            lemma_entry_of(m0, sp, i);
            assert(m[i].0 == m0[i].0);
            assert(m[i].0 == sp);
            lemma_entry_of(m, sp, i);
        } else {
            assert forall|i: int| 0 <= i < m.len() implies #[trigger] m[i].0 != sp by {
                assert(m[i].0 == m0[i].0);
            }
        }
    }
}

impl VarNodeSet {
    /// For each space of this set, the bytes that `other` also holds there;
    /// a space that `other` has no entry for counts as empty there, so its
    /// entry is left with no bytes.
    pub fn intersect(&self, other: &Self) -> (r: Self)
        requires
            self.wf(),
            other.wf(),
        ensures
            r.wf(),
            forall|sp: usize| #[trigger] r.has_space(sp) <==> self.has_space(sp),
            forall|sp: usize| #[trigger] r.space_ranges(sp) == if self.has_space(sp) && other.has_space(sp) {
                union_spec(Seq::empty(), intersect_pieces(self.space_ranges(sp), other.space_ranges(sp)))
            } else {
                Seq::empty()
            },
            forall|sp: usize, a: int| #[trigger] r.contains(sp, a) <==> (self.contains(sp, a)
                && other.contains(sp, a)),
    {
        let ghost m0 = self.spec_map();
        let n = self.space_map.len();
        let mut out: Vec<(usize, VarNodeSpaceSet)> = Vec::new();
        let mut k: usize = 0;
        while k < n
            invariant
                k <= n == m0.len(),
                m0 == self.spec_map(),
                self.wf(),
                other.wf(),
                out@.len() == k,
                forall|x: int| 0 <= x < k ==> (#[trigger] out@[x]).0 == m0[x].0 && out@[x].1.wf()
                    && out@[x].1.spec_ranges() == if other.has_space(m0[x].0) {
                        union_spec(Seq::empty(), intersect_pieces(m0[x].1.spec_ranges(), other.space_ranges(m0[x].0)))
                    } else {
                        Seq::empty()
                    },
                forall|x: int, a: int| 0 <= x < k ==> (#[trigger] out@[x].1.contains(a) <==> (m0[x].1.contains(a)
                    && other.contains(m0[x].0, a))),
            decreases n - k,
        {
            let sp = self.space_map[k].0;
            assert(m0[k as int].1.wf());
            let mut c = self.space_map[k].1.duplicate();
            match other.find(sp) {
                Some(j) => {
                    assert(other.spec_map()[j as int].1.wf());
                    assert(entry_of(other.spec_map(), sp) == Some(j as int));
                    c.intersect(&other.space_map[j].1);
                }
                None => {
                    c = VarNodeSpaceSet::new();
                }
            }
            let ghost prev = out@;
            out.push((sp, c));
            proof {
                assert forall|x: int| 0 <= x < k + 1 implies (#[trigger] out@[x]).0 == m0[x].0 && out@[x].1.wf()
                    && out@[x].1.spec_ranges() == if other.has_space(m0[x].0) {
                        union_spec(Seq::empty(), intersect_pieces(m0[x].1.spec_ranges(), other.space_ranges(m0[x].0)))
                    } else {
                        Seq::empty()
                    } by {
                    if x < k {
                        assert(out@[x] == prev[x]);
                    }
                }
                assert forall|x: int, a: int| 0 <= x < k + 1 implies (#[trigger] out@[x].1.contains(a) <==> (m0[x].1.contains(a)
                    && other.contains(m0[x].0, a))) by {
                    if x < k {
                        assert(out@[x] == prev[x]);
                    } else {
                        assert(out@[x].1 == c);
                        if other.has_space(sp) {
                            let j = entry_of(other.spec_map(), sp).unwrap();
                            assert(other.space_ranges(sp) == other.spec_map()[j].1.spec_ranges());
                        }
                    }
                }
            }
            k = k + 1;
        }
        let r = VarNodeSet { space_map: out };
        proof {
            lemma_same_keys(m0, out@);
            assert forall|sp: usize| #[trigger] r.space_ranges(sp) == if self.has_space(sp) && other.has_space(sp) {
                union_spec(Seq::empty(), intersect_pieces(self.space_ranges(sp), other.space_ranges(sp)))
            } else {
                Seq::empty()
            } by {
                assert(entry_of(out@, sp) == entry_of(m0, sp));
                if let Some(x) = entry_of(m0, sp) {
                    assert(out@[x].0 == m0[x].0);
                }
            }
            assert forall|sp: usize, a: int| #[trigger] r.contains(sp, a) <==> (self.contains(sp, a)
                && other.contains(sp, a)) by {
                assert(entry_of(out@, sp) == entry_of(m0, sp));
                if let Some(x) = entry_of(m0, sp) {
                    assert(out@[x].0 == m0[x].0);
                    assert(r.space_ranges(sp) == out@[x].1.spec_ranges());
                    assert(out@[x].1.contains(a) <==> (m0[x].1.contains(a)
                        && other.contains(m0[x].0, a)));
                }
            }
        }
        r
    }
}

impl VarNodeSet {
    /// Removes, space by space, the bytes that `other` holds.
    pub fn subtract(&mut self, other: &Self)
        requires
            old(self).wf(),
            other.wf(),
        ensures
            final(self).wf(),
            forall|sp: usize| #[trigger] final(self).has_space(sp) <==> old(self).has_space(sp),
            forall|sp: usize| #[trigger] final(self).space_ranges(sp) == if old(self).has_space(sp) && other.has_space(sp) {
                subtract_spec(old(self).space_ranges(sp), other.space_ranges(sp))
            } else {
                old(self).space_ranges(sp)
            },
            forall|sp: usize, a: int| #[trigger] final(self).contains(sp, a) <==> (old(self).contains(sp, a)
                && !other.contains(sp, a)),
    {
        let ghost m0 = self.spec_map();
        let n = self.space_map.len();
        let mut out: Vec<(usize, VarNodeSpaceSet)> = Vec::new();
        let mut k: usize = 0;
        while k < n
            invariant
                k <= n == m0.len(),
                m0 == self.spec_map(),
                self.wf(),
                other.wf(),
                out@.len() == k,
                forall|x: int| 0 <= x < k ==> (#[trigger] out@[x]).0 == m0[x].0 && out@[x].1.wf()
                    && out@[x].1.spec_ranges() == if other.has_space(m0[x].0) {
                        subtract_spec(m0[x].1.spec_ranges(), other.space_ranges(m0[x].0))
                    } else {
                        m0[x].1.spec_ranges()
                    },
                forall|x: int, a: int| 0 <= x < k ==> (#[trigger] out@[x].1.contains(a) <==> (m0[x].1.contains(a)
                    && !other.contains(m0[x].0, a))),
            decreases n - k,
        {
            let sp = self.space_map[k].0;
            assert(m0[k as int].1.wf());
            let mut c = self.space_map[k].1.duplicate();
            match other.find(sp) {
                Some(j) => {
                    assert(other.spec_map()[j as int].1.wf());
                    assert(entry_of(other.spec_map(), sp) == Some(j as int));
                    c.subtract(&other.space_map[j].1);
                }
                None => {}
            }
            let ghost prev = out@;
            out.push((sp, c));
            proof {
                assert forall|x: int| 0 <= x < k + 1 implies (#[trigger] out@[x]).0 == m0[x].0 && out@[x].1.wf()
                    && out@[x].1.spec_ranges() == if other.has_space(m0[x].0) {
                        subtract_spec(m0[x].1.spec_ranges(), other.space_ranges(m0[x].0))
                    } else {
                        m0[x].1.spec_ranges()
                    } by {
                    if x < k {
                        assert(out@[x] == prev[x]);
                    }
                }
                assert forall|x: int, a: int| 0 <= x < k + 1 implies (#[trigger] out@[x].1.contains(a) <==> (m0[x].1.contains(a)
                    && !other.contains(m0[x].0, a))) by {
                    if x < k {
                        assert(out@[x] == prev[x]);
                    } else {
                        assert(out@[x].1 == c);
                        if other.has_space(sp) {
                            let j = entry_of(other.spec_map(), sp).unwrap();
                            assert(other.space_ranges(sp) == other.spec_map()[j].1.spec_ranges());
                        }
                    }
                }
            }
            k = k + 1;
        }
        let ghost s0 = *self;
        self.space_map = out;
        proof {
            lemma_same_keys(m0, out@);
            assert forall|sp: usize| #[trigger] self.has_space(sp) <==> s0.has_space(sp) by {
                assert(entry_of(out@, sp) == entry_of(m0, sp));
            }
            assert forall|sp: usize| #[trigger] self.space_ranges(sp) == if s0.has_space(sp) && other.has_space(sp) {
                subtract_spec(s0.space_ranges(sp), other.space_ranges(sp))
            } else {
                s0.space_ranges(sp)
            } by {
                assert(entry_of(out@, sp) == entry_of(m0, sp));
                if let Some(x) = entry_of(m0, sp) {
                    assert(out@[x].0 == m0[x].0);
                }
            }
            assert forall|sp: usize, a: int| #[trigger] self.contains(sp, a) <==> (s0.contains(sp, a)
                && !other.contains(sp, a)) by {
                assert(entry_of(out@, sp) == entry_of(m0, sp));
                if let Some(x) = entry_of(m0, sp) {
                    assert(out@[x].0 == m0[x].0);
                    assert(self.space_ranges(sp) == out@[x].1.spec_ranges());
                    assert(out@[x].1.contains(a) <==> (m0[x].1.contains(a) && !other.contains(m0[x].0, a)));
                }
            }
        }
    }

    /// Whether every byte of `vn` is held (see `covers` on a space set).
    pub fn covers(&self, vn: &VarNode) -> (r: bool)
        requires
            self.wf(),
            vn.end() <= u64::MAX,
        ensures
            r == covers_spec(self.space_ranges(vn.space_index), (vn.offset, (vn.offset + vn.size) as u64)),
    {
        match self.find(vn.space_index) {
            Some(idx) => {
                assert(self.spec_map()[idx as int].1.wf());
                self.space_map[idx].1.covers(&(vn.offset, vn.offset + vn.size as u64))
            }
            None => {
                false
            }
        }
    }

    /// The held bytes as varnodes: for each space in order of index, one
    /// varnode per stored range.
    pub fn varnodes(&self) -> (r: Vec<VarNode>)
        requires
            self.wf(),
        ensures
            r@ == varnodes_of(self.spec_map()),
    {
        let ghost m = self.spec_map();
        let mut out: Vec<VarNode> = Vec::new();
        let n = self.space_map.len();
        let mut k: usize = 0;
        while k < n
            invariant
                k <= n == m.len(),
                m == self.spec_map(),
                self.wf(),
                out@ == varnodes_of(m.take(k as int)),
            decreases n - k,
        {
            let sp = self.space_map[k].0;
            let set = &self.space_map[k].1;
            let ghost base = out@;
            let ghost rs = set.spec_ranges();
            assert(m[k as int].1.wf());
            let mut t: usize = 0;
            while t < set.ranges.len()
                invariant
                    t <= rs.len(),
                    rs == set.spec_ranges(),
                    set.wf(),
                    out@ == base + ranges_as_varnodes(sp, rs.take(t as int)),
                decreases rs.len() - t,
            {
                let (a, b) = set.ranges[t];
                assert(rs[t as int].0 <= rs[t as int].1);
                out.push(VarNode { space_index: sp, offset: a, size: (b - a) as usize });
                proof {
                    assert(rs.take(t + 1) == rs.take(t as int).push(rs[t as int]));
                    assert(ranges_as_varnodes(sp, rs.take(t + 1)) == ranges_as_varnodes(sp, rs.take(t as int)).push(
                        VarNode { space_index: sp, offset: a, size: (b - a) as usize }));
                }
                t = t + 1;
            }
            proof {
                assert(rs.take(rs.len() as int) == rs);
                assert(m.take(k + 1).drop_last() == m.take(k as int));
                assert(m.take(k + 1).last() == m[k as int]);
            }
            k = k + 1;
        }
        proof {
            assert(m.take(n as int) == m);
        }
        out
    }
}

impl VarNodeSet {
    /// The stored ranges of `sp` in this set, or an empty set.
    fn space_or_empty<'a>(&'a self, sp: usize, empty: &'a VarNodeSpaceSet) -> (r: &'a VarNodeSpaceSet)
        requires
            self.wf(),
            empty.wf(),
            empty.spec_ranges() == Seq::<ByteRange>::empty(),
        ensures
            r.wf(),
            r.spec_ranges() == self.space_ranges(sp),
    {
        match self.find(sp) {
            Some(j) => {
                assert(self.spec_map()[j as int].1.wf());
                &self.space_map[j].1
            }
            None => empty,
        }
    }

    /// Compares two varnode sets space by space (see `set_order`).
    pub fn partial_cmp(&self, other: &Self) -> (r: Option<Ordering>)
        requires
            self.wf(),
            other.wf(),
        ensures
            r == set_order(*self, *other),
    {
        let empty = VarNodeSpaceSet::new();
        let ghost m = self.spec_map();
        let ghost m2 = other.spec_map();
        let mut saw_less = false;
        let mut saw_greater = false;
        let n = self.space_map.len();
        let mut k: usize = 0;
        while k < n
            invariant
                k <= n == m.len(),
                m == self.spec_map(),
                m2 == other.spec_map(),
                self.wf(),
                other.wf(),
                empty.wf(),
                empty.spec_ranges() == Seq::<ByteRange>::empty(),
                forall|x: int| 0 <= x < k ==> (#[trigger] order_at(*self, *other, m[x].0)) is Some,
                saw_less == exists|x: int| 0 <= x < k && #[trigger] order_at(*self, *other, m[x].0) == Some(Ordering::Less),
                saw_greater == exists|x: int| 0 <= x < k && #[trigger] order_at(*self, *other, m[x].0) == Some(Ordering::Greater),
                !(saw_less && saw_greater),
            decreases n - k,
        {
            let sp = self.space_map[k].0;
            let mine = self.space_or_empty(sp, &empty);
            let theirs = other.space_or_empty(sp, &empty);
            let o = mine.partial_cmp(theirs);
            assert(o == order_at(*self, *other, space_at(m, k)));
            match o {
                None => {
                    proof {
                        assert(self.has_space(sp)) by {
                            lemma_entry_of_at(m, sp, k);
                        }
                    }
                    return None;
                }
                Some(Ordering::Less) => {
                    saw_less = true;
                }
                Some(Ordering::Greater) => {
                    saw_greater = true;
                }
                Some(Ordering::Equal) => {}
            }
            if saw_less && saw_greater {
                proof {
                    let x1 = choose|x: int| 0 <= x < k + 1 && #[trigger] order_at(*self, *other, m[x].0) == Some(Ordering::Less);
                    let x2 = choose|x: int| 0 <= x < k + 1 && #[trigger] order_at(*self, *other, m[x].0) == Some(Ordering::Greater);
                    lemma_entry_of(m, m[x1].0, x1);
                    lemma_entry_of(m, m[x2].0, x2);
                    assert(self.has_space(m[x1].0));
                    assert(self.has_space(m[x2].0));
                }
                return None;
            }
            k = k + 1;
        }
        let n2 = other.space_map.len();
        let mut k2: usize = 0;
        while k2 < n2
            invariant
                k2 <= n2 == m2.len(),
                n == m.len(),
                m == self.spec_map(),
                m2 == other.spec_map(),
                self.wf(),
                other.wf(),
                empty.wf(),
                empty.spec_ranges() == Seq::<ByteRange>::empty(),
                forall|x: int| 0 <= x < n ==> (#[trigger] order_at(*self, *other, m[x].0)) is Some,
                forall|x: int| 0 <= x < k2 ==> (#[trigger] order_at(*self, *other, m2[x].0)) is Some,
                saw_less == ((exists|x: int| 0 <= x < n && #[trigger] order_at(*self, *other, m[x].0) == Some(Ordering::Less))
                    || (exists|x: int| 0 <= x < k2 && #[trigger] order_at(*self, *other, m2[x].0) == Some(Ordering::Less))),
                saw_greater == ((exists|x: int| 0 <= x < n && #[trigger] order_at(*self, *other, m[x].0) == Some(Ordering::Greater))
                    || (exists|x: int| 0 <= x < k2 && #[trigger] order_at(*self, *other, m2[x].0) == Some(Ordering::Greater))),
                !(saw_less && saw_greater),
            decreases n2 - k2,
        {
            let sp = other.space_map[k2].0;
            let mine = self.space_or_empty(sp, &empty);
            let theirs = other.space_or_empty(sp, &empty);
            let o = mine.partial_cmp(theirs);
            assert(o == order_at(*self, *other, space_at(m2, k2)));
            proof {
                lemma_entry_of_at(m2, sp, k2);
                assert(other.has_space(sp));
            }
            match o {
                None => {
                    return None;
                }
                Some(Ordering::Less) => {
                    saw_less = true;
                }
                Some(Ordering::Greater) => {
                    saw_greater = true;
                }
                Some(Ordering::Equal) => {}
            }
            if saw_less && saw_greater {
                proof {
                    if exists|x: int| 0 <= x < n && #[trigger] order_at(*self, *other, m[x].0) == Some(Ordering::Less) {
                        let x1 = choose|x: int| 0 <= x < n && #[trigger] order_at(*self, *other, m[x].0) == Some(Ordering::Less);
                        lemma_entry_of(m, m[x1].0, x1);
                        assert(self.has_space(m[x1].0));
                    } else {
                        let x1 = choose|x: int| 0 <= x < k2 + 1 && #[trigger] order_at(*self, *other, m2[x].0) == Some(Ordering::Less);
                        lemma_entry_of(m2, m2[x1].0, x1);
                        assert(other.has_space(m2[x1].0));
                    }
                    if exists|x: int| 0 <= x < n && #[trigger] order_at(*self, *other, m[x].0) == Some(Ordering::Greater) {
                        let x1 = choose|x: int| 0 <= x < n && #[trigger] order_at(*self, *other, m[x].0) == Some(Ordering::Greater);
                        lemma_entry_of(m, m[x1].0, x1);
                        assert(self.has_space(m[x1].0));
                    } else {
                        let x1 = choose|x: int| 0 <= x < k2 + 1 && #[trigger] order_at(*self, *other, m2[x].0) == Some(Ordering::Greater);
                        lemma_entry_of(m2, m2[x1].0, x1);
                        assert(other.has_space(m2[x1].0));
                    }
                }
                return None;
            }
            k2 = k2 + 1;
        }
        proof {
            // every key is an entry of one of the two lists
            assert forall|sp: usize| (self.has_space(sp) || other.has_space(sp)) implies
                (exists|x: int| 0 <= x < n && #[trigger] m[x].0 == sp) || (exists|x: int| 0 <= x < n2 && #[trigger] m2[x].0 == sp) by {}
            assert forall|x: int| 0 <= x < n implies #[trigger] self.has_space(m[x].0) by {
                lemma_entry_of(m, m[x].0, x);
            }
            assert forall|x: int| 0 <= x < n2 implies #[trigger] other.has_space(m2[x].0) by {
                lemma_entry_of(m2, m2[x].0, x);
            }
            if exists|sp: usize| (self.has_space(sp) || other.has_space(sp)) && #[trigger] order_at(*self, *other, sp) is None {
                let sp = choose|sp: usize| (self.has_space(sp) || other.has_space(sp)) && #[trigger] order_at(*self, *other, sp) is None;
                if exists|x: int| 0 <= x < n && #[trigger] m[x].0 == sp {
                    let x = choose|x: int| 0 <= x < n && #[trigger] m[x].0 == sp;
                    assert(order_at(*self, *other, m[x].0) is Some);
                } else {
                    let x = choose|x: int| 0 <= x < n2 && #[trigger] m2[x].0 == sp;
                    assert(order_at(*self, *other, m2[x].0) is Some);
                }
            }
            if exists|sp: usize| (self.has_space(sp) || other.has_space(sp)) && #[trigger] order_at(*self, *other, sp) == Some(Ordering::Less) {
                let sp = choose|sp: usize| (self.has_space(sp) || other.has_space(sp)) && #[trigger] order_at(*self, *other, sp) == Some(Ordering::Less);
                if exists|x: int| 0 <= x < n && #[trigger] m[x].0 == sp {
                    let x = choose|x: int| 0 <= x < n && #[trigger] m[x].0 == sp;
                    assert(order_at(*self, *other, m[x].0) == Some(Ordering::Less));
                } else {
                    let x = choose|x: int| 0 <= x < n2 && #[trigger] m2[x].0 == sp;
                    assert(order_at(*self, *other, m2[x].0) == Some(Ordering::Less));
                }
            }
            if exists|sp: usize| (self.has_space(sp) || other.has_space(sp)) && #[trigger] order_at(*self, *other, sp) == Some(Ordering::Greater) {
                let sp = choose|sp: usize| (self.has_space(sp) || other.has_space(sp)) && #[trigger] order_at(*self, *other, sp) == Some(Ordering::Greater);
                if exists|x: int| 0 <= x < n && #[trigger] m[x].0 == sp {
                    let x = choose|x: int| 0 <= x < n && #[trigger] m[x].0 == sp;
                    assert(order_at(*self, *other, m[x].0) == Some(Ordering::Greater));
                } else {
                    let x = choose|x: int| 0 <= x < n2 && #[trigger] m2[x].0 == sp;
                    assert(order_at(*self, *other, m2[x].0) == Some(Ordering::Greater));
                }
            }
        }
        if saw_less {
            Some(Ordering::Less)
        } else if saw_greater {
            Some(Ordering::Greater)
        } else {
            Some(Ordering::Equal)
        }
    }
}

impl Default for VarNodeSpaceSet {
    fn default() -> (r: Self)
        ensures
            r.wf(),
            r.spec_ranges() == Seq::<ByteRange>::empty(),
    {
        VarNodeSpaceSet::new()
    }
}

impl Default for VarNodeSet {
    fn default() -> (r: Self)
        ensures
            r.wf(),
            forall|sp: usize| !(#[trigger] r.has_space(sp)),
    {
        VarNodeSet::new()
    }
}

/// The space of the entry at position `k`.
pub open spec fn space_at(m: Seq<(usize, VarNodeSpaceSet)>, k: usize) -> usize {
    m[k as int].0
}

proof fn lemma_entry_of_at(m: Seq<(usize, VarNodeSpaceSet)>, space: usize, k: usize)
    requires
        forall|i: int, j: int| 0 <= i < j < m.len() ==> #[trigger] m[i].0 < #[trigger] m[j].0,
        k < m.len(),
        m[k as int].0 == space,
    ensures
        entry_of(m, space) == Some(k as int),
{
    lemma_entry_of(m, space, k as int);
}

proof fn lemma_entry_of(m: Seq<(usize, VarNodeSpaceSet)>, space: usize, k: int)
    requires
        forall|i: int, j: int| 0 <= i < j < m.len() ==> #[trigger] m[i].0 < #[trigger] m[j].0,
        0 <= k < m.len(),
        m[k].0 == space,
    ensures
        entry_of(m, space) == Some(k),
{
    let i = choose|i: int| 0 <= i < m.len() && #[trigger] m[i].0 == space;
    if i < k {
        assert(m[i].0 < m[k].0);
    }
    if k < i {
        assert(m[k].0 < m[i].0);
    }
}

/// The low end of the range that replaces the span `[i, j)`.
pub open spec fn merged_lo(s: Seq<ByteRange>, vn: ByteRange, i: int, j: int) -> u64 {
    if i < j && s[i].0 < vn.0 { s[i].0 } else { vn.0 }
}

/// The high end of the range that replaces the span `[i, j)`.
pub open spec fn merged_hi(s: Seq<ByteRange>, vn: ByteRange, i: int, j: int) -> u64 {
    if i < j && s[j - 1].1 > vn.1 { s[j - 1].1 } else { vn.1 }
}

proof fn lemma_insert_result(s: Seq<ByteRange>, vn: ByteRange, i: int, j: int)
    requires
        ranges_wf(s),
        is_merge_span(s, vn, i, j),
        vn.0 <= vn.1,
    ensures
        ranges_wf(insert_result(s, vn, i, j)),
        ranges_nonempty(s) ==> ranges_nonempty(insert_result(s, vn, i, j)),
        forall|a: int| #[trigger] covered(insert_result(s, vn, i, j), a) <==> (covered(s, a) || in_range(vn, a)),
{
    let lo = merged_lo(s, vn, i, j);
    let hi = merged_hi(s, vn, i, j);
    if lo == hi {
        assert forall|a: int| #[trigger] covered(s, a) <==> (covered(s, a) || in_range(vn, a)) by {
            if in_range(vn, a) {
                assert(lo <= vn.0 && vn.1 <= hi);
                assert(false);
            }
        }
        return;
    }
    let t = insert_result(s, vn, i, j);
    assert(t == s.take(i).push((lo, hi)) + s.skip(j));
    assert(t.len() == i + 1 + (s.len() - j));
    assert(t[i] == (lo, hi));
    assert forall|x: int| 0 <= x < t.len() implies #[trigger] t[x].0 <= t[x].1 by {
        if x < i {
            assert(t[x] == s[x]);
        } else if x > i {
            assert(t[x] == s[x - i - 1 + j]);
        } else if i < j {
            assert(s[i].0 <= s[i].1);
            assert(s[j - 1].0 <= s[j - 1].1);
            if i < j - 1 {
                assert(s[i].0 < s[j - 1].0);
            }
        }
    }
    assert forall|x: int, y: int| 0 <= x < y < t.len() implies #[trigger] t[x].1
        <= #[trigger] t[y].0 && t[x].0 < t[y].0 by {
        if y < i {
            assert(t[x] == s[x] && t[y] == s[y]);
        } else if y == i {
            assert(t[x] == s[x]);
            assert(s[x].0 <= s[x].1);
            if i < j {
                assert(s[x].1 <= s[i].0);
                assert(s[x].0 < s[i].0);
            }
        } else if x > i {
            assert(t[x] == s[x - i - 1 + j] && t[y] == s[y - i - 1 + j]);
        } else if x == i {
            assert(t[y] == s[y - i - 1 + j]);
            if i < j {
                assert(s[j - 1].1 <= s[y - i - 1 + j].0);
            }
            if y - i - 1 + j > j {
                assert(s[j].0 < s[y - i - 1 + j].0);
            }
        } else {
            assert(t[x] == s[x] && t[y] == s[y - i - 1 + j]);
            assert(s[x].1 <= s[y - i - 1 + j].0);
            assert(s[x].0 < s[y - i - 1 + j].0);
        }
    }
    assert forall|a: int| #[trigger] covered(t, a) <==> (covered(s, a) || in_range(vn, a)) by {
        if covered(t, a) {
            let x = choose|x: int| 0 <= x < t.len() && #[trigger] in_range(t[x], a);
            if x < i {
                assert(t[x] == s[x]);
                assert(in_range(s[x], a));
            } else if x > i {
                assert(t[x] == s[x - i - 1 + j]);
                assert(in_range(s[x - i - 1 + j], a));
            } else if !in_range(vn, a) {
                if a < vn.0 {
                    assert(touches(s[i], vn));
                    assert(in_range(s[i], a));
                } else {
                    assert(touches(s[j - 1], vn));
                    assert(in_range(s[j - 1], a));
                }
            }
        }
        if covered(s, a) {
            let x = choose|x: int| 0 <= x < s.len() && #[trigger] in_range(s[x], a);
            if x < i {
                assert(t[x] == s[x]);
                assert(in_range(t[x], a));
            } else if x >= j {
                assert(t[x - j + i + 1] == s[x]);
                assert(in_range(t[x - j + i + 1], a));
            } else {
                assert(touches(s[x], vn));
                if i < x {
                    assert(s[i].0 < s[x].0);
                }
                if x < j - 1 {
                    assert(s[x].1 <= s[j - 1].0);
                    assert(s[j - 1].0 <= s[j - 1].1);
                }
                assert(in_range(t[i], a));
            }
        }
        if in_range(vn, a) {
            assert(in_range(t[i], a));
        }
    }
    if ranges_nonempty(s) {
        assert forall|x: int| 0 <= x < t.len() implies #[trigger] t[x].0 < t[x].1 by {
            if x < i {
                assert(t[x] == s[x]);
            } else if x > i {
                assert(t[x] == s[x - i - 1 + j]);
            } else {
                assert(lo <= vn.0 && vn.1 <= hi);
            }
        }
    }
}

/// `[i, j)` are the positions of the stored ranges that meet `vn`: the
/// ranges before `i` end before `vn` starts, those from `j` on start at or
/// after its end.
pub open spec fn is_meeting_span(s: Seq<ByteRange>, vn: ByteRange, i: int, j: int) -> bool {
    &&& 0 <= i <= j <= s.len()
    &&& forall|k: int| 0 <= k < i ==> #[trigger] s[k].1 < vn.0
    &&& forall|k: int| i <= k < j ==> #[trigger] meets(s[k], vn)
    &&& forall|k: int| j <= k < s.len() ==> #[trigger] s[k].0 >= vn.1
}

/// `[i, j)` are the positions of the stored ranges that touch `vn`: the
/// ranges before `i` end before `vn` starts, those from `j` on start after
/// its end.
pub open spec fn is_merge_span(s: Seq<ByteRange>, vn: ByteRange, i: int, j: int) -> bool {
    &&& 0 <= i <= j <= s.len()
    &&& forall|k: int| 0 <= k < i ==> #[trigger] s[k].1 < vn.0
    &&& forall|k: int| i <= k < j ==> #[trigger] touches(s[k], vn)
    &&& forall|k: int| j <= k < s.len() ==> #[trigger] s[k].0 > vn.1
}

/// Every stored range holds at least one address.
pub open spec fn ranges_nonempty(s: Seq<ByteRange>) -> bool {
    forall|i: int| 0 <= i < s.len() ==> #[trigger] s[i].0 < s[i].1
}

/// The stored ranges after inserting `vn`, where `[i, j)` is the span of
/// ranges touching it: they are replaced by one range spanning them and
/// `vn`, unless that range is empty.
pub open spec fn insert_result(s: Seq<ByteRange>, vn: ByteRange, i: int, j: int) -> Seq<ByteRange> {
    let lo = if i < j && s[i].0 < vn.0 { s[i].0 } else { vn.0 };
    let hi = if i < j && s[j - 1].1 > vn.1 { s[j - 1].1 } else { vn.1 };
    if lo == hi {
        s
    } else {
        s.take(i).push((lo, hi)) + s.skip(j)
    }
}

} // verus!
