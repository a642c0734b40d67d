//! Stack offset analysis: tracks the offset of the stack pointer relative to
//! its initial value, as a lattice of concrete offsets and ranges.
use crate::sleigh::{GeneralizedVarNode, PcodeOperation, VarNode};
use std::cmp::Ordering;
use vstd::prelude::*;
use vstd::arithmetic::power2::{pow2, lemma2_to64, lemma2_to64_rest};

verus! {

/// A range of possible stack offset values.
#[derive(Debug, Clone, Copy, Eq, PartialEq, Structural)]
pub enum StackOffsetLattice {
    /// No information (bottom of lattice)
    Bottom,
    /// A concrete offset value
    Offset(i64),
    /// A range of possible offsets [min, max]
    Range(i64, i64),
    /// Unknown offset (top of lattice)
    Top,
}

/// The order of the lattice: `Bottom` below everything, `Top` above
/// everything, an offset below a range that contains it, a range below a
/// range that contains it; equal values are `Equal`, others incomparable.
pub open spec fn stack_order(a: StackOffsetLattice, b: StackOffsetLattice) -> Option<Ordering> {
    match (a, b) {
        (StackOffsetLattice::Bottom, StackOffsetLattice::Bottom) => Some(Ordering::Equal),
        (StackOffsetLattice::Bottom, _) => Some(Ordering::Less),
        (_, StackOffsetLattice::Bottom) => Some(Ordering::Greater),
        (StackOffsetLattice::Top, StackOffsetLattice::Top) => Some(Ordering::Equal),
        (StackOffsetLattice::Top, _) => Some(Ordering::Greater),
        (_, StackOffsetLattice::Top) => Some(Ordering::Less),
        (StackOffsetLattice::Offset(x), StackOffsetLattice::Offset(y)) => if x == y {
            Some(Ordering::Equal)
        } else {
            None
        },
        (StackOffsetLattice::Range(min1, max1), StackOffsetLattice::Range(min2, max2)) => {
            if min1 == min2 && max1 == max2 {
                Some(Ordering::Equal)
            } else if min1 >= min2 && max1 <= max2 {
                Some(Ordering::Less)
            } else if min2 >= min1 && max2 <= max1 {
                Some(Ordering::Greater)
            } else {
                None
            }
        },
        (StackOffsetLattice::Offset(v), StackOffsetLattice::Range(min, max)) => if min <= v <= max {
            Some(Ordering::Less)
        } else {
            None
        },
        (StackOffsetLattice::Range(min, max), StackOffsetLattice::Offset(v)) => if min <= v <= max {
            Some(Ordering::Greater)
        } else {
            None
        },
    }
}

pub open spec fn min_i64(a: i64, b: i64) -> i64 {
    if a <= b { a } else { b }
}

pub open spec fn max_i64(a: i64, b: i64) -> i64 {
    if a >= b { a } else { b }
}

/// The least element above both: ranges grow to hold both sides.
pub open spec fn stack_join(a: StackOffsetLattice, b: StackOffsetLattice) -> StackOffsetLattice {
    match (a, b) {
        (StackOffsetLattice::Bottom, x) => x,
        (x, StackOffsetLattice::Bottom) => x,
        (StackOffsetLattice::Top, _) => StackOffsetLattice::Top,
        (_, StackOffsetLattice::Top) => StackOffsetLattice::Top,
        (StackOffsetLattice::Offset(x), StackOffsetLattice::Offset(y)) => if x == y {
            StackOffsetLattice::Offset(x)
        } else {
            StackOffsetLattice::Range(min_i64(x, y), max_i64(x, y))
        },
        (StackOffsetLattice::Offset(v), StackOffsetLattice::Range(lo, hi)) => StackOffsetLattice::Range(
            min_i64(v, lo),
            max_i64(v, hi),
        ),
        (StackOffsetLattice::Range(lo, hi), StackOffsetLattice::Offset(v)) => StackOffsetLattice::Range(
            min_i64(v, lo),
            max_i64(v, hi),
        ),
        (StackOffsetLattice::Range(lo1, hi1), StackOffsetLattice::Range(lo2, hi2)) => StackOffsetLattice::Range(
            min_i64(lo1, lo2),
            max_i64(hi1, hi2),
        ),
    }
}

/// Every offset shifted by `delta`, wrapping around.
pub open spec fn stack_add(a: StackOffsetLattice, delta: i64) -> StackOffsetLattice {
    match a {
        StackOffsetLattice::Bottom => StackOffsetLattice::Bottom,
        StackOffsetLattice::Offset(v) => StackOffsetLattice::Offset(v.wrapping_add(delta)),
        StackOffsetLattice::Range(lo, hi) => StackOffsetLattice::Range(lo.wrapping_add(delta), hi.wrapping_add(delta)),
        StackOffsetLattice::Top => StackOffsetLattice::Top,
    }
}

/// Every offset shifted by `-delta`, wrapping around.
pub open spec fn stack_sub(a: StackOffsetLattice, delta: i64) -> StackOffsetLattice {
    match a {
        StackOffsetLattice::Bottom => StackOffsetLattice::Bottom,
        StackOffsetLattice::Offset(v) => StackOffsetLattice::Offset(v.wrapping_sub(delta)),
        StackOffsetLattice::Range(lo, hi) => StackOffsetLattice::Range(lo.wrapping_sub(delta), hi.wrapping_sub(delta)),
        StackOffsetLattice::Top => StackOffsetLattice::Top,
    }
}

impl StackOffsetLattice {
    /// Create a new concrete offset
    pub fn new(offset: i64) -> (r: Self)
        ensures
            r == StackOffsetLattice::Offset(offset),
    {
        StackOffsetLattice::Offset(offset)
    }

    /// Add a constant to the offset
    pub fn add(&self, delta: i64) -> (r: Self)
        ensures
            r == stack_add(*self, delta),
    {
        match self {
            StackOffsetLattice::Bottom => StackOffsetLattice::Bottom,
            StackOffsetLattice::Offset(v) => StackOffsetLattice::Offset(v.wrapping_add(delta)),
            StackOffsetLattice::Range(min, max) => StackOffsetLattice::Range(
                min.wrapping_add(delta),
                max.wrapping_add(delta),
            ),
            StackOffsetLattice::Top => StackOffsetLattice::Top,
        }
    }

    /// Subtract a constant from the offset
    pub fn sub(&self, delta: i64) -> (r: Self)
        ensures
            r == stack_sub(*self, delta),
    {
        match self {
            StackOffsetLattice::Bottom => StackOffsetLattice::Bottom,
            StackOffsetLattice::Offset(v) => StackOffsetLattice::Offset(v.wrapping_sub(delta)),
            StackOffsetLattice::Range(min, max) => StackOffsetLattice::Range(
                min.wrapping_sub(delta),
                max.wrapping_sub(delta),
            ),
            StackOffsetLattice::Top => StackOffsetLattice::Top,
        }
    }

    /// Check if this is a concrete value
    pub fn is_concrete(&self) -> (r: bool)
        ensures
            r == (*self is Offset),
    {
        matches!(self, StackOffsetLattice::Offset(_))
    }

    /// Get the concrete value if it exists
    pub fn concrete_value(&self) -> (r: Option<i64>)
        ensures
            r == match *self {
                StackOffsetLattice::Offset(v) => Some(v),
                _ => None,
            },
    {
        match self {
            StackOffsetLattice::Offset(v) => Some(*v),
            _ => None,
        }
    }

    /// Joins `other` into this value (least upper bound).
    pub fn join(&mut self, other: &Self)
        ensures
            *final(self) == stack_join(*old(self), *other),
    {
        let s = *self;
        *self = match (s, *other) {
            (StackOffsetLattice::Bottom, x) => x,
            (x, StackOffsetLattice::Bottom) => x,
            (StackOffsetLattice::Top, _) => StackOffsetLattice::Top,
            (_, StackOffsetLattice::Top) => StackOffsetLattice::Top,
            (StackOffsetLattice::Offset(a), StackOffsetLattice::Offset(b)) => if a == b {
                StackOffsetLattice::Offset(a)
            } else {
                StackOffsetLattice::Range(min_of(a, b), max_of(a, b))
            },
            (StackOffsetLattice::Offset(v), StackOffsetLattice::Range(lo, hi)) => StackOffsetLattice::Range(
                min_of(v, lo),
                max_of(v, hi),
            ),
            (StackOffsetLattice::Range(lo, hi), StackOffsetLattice::Offset(v)) => StackOffsetLattice::Range(
                min_of(v, lo),
                max_of(v, hi),
            ),
            (StackOffsetLattice::Range(lo1, hi1), StackOffsetLattice::Range(lo2, hi2)) => StackOffsetLattice::Range(
                min_of(lo1, lo2),
                max_of(hi1, hi2),
            ),
        };
    }
}

fn min_of(a: i64, b: i64) -> (r: i64)
    ensures
        r == min_i64(a, b),
{
    if a <= b { a } else { b }
}

fn max_of(a: i64, b: i64) -> (r: i64)
    ensures
        r == max_i64(a, b),
{
    if a >= b { a } else { b }
}

impl PartialOrd for StackOffsetLattice {
    fn partial_cmp(&self, other: &Self) -> (r: Option<Ordering>) {
        match (self, other) {
            (StackOffsetLattice::Bottom, StackOffsetLattice::Bottom) => Some(Ordering::Equal),
            (StackOffsetLattice::Bottom, _) => Some(Ordering::Less),
            (_, StackOffsetLattice::Bottom) => Some(Ordering::Greater),
            (StackOffsetLattice::Top, StackOffsetLattice::Top) => Some(Ordering::Equal),
            (StackOffsetLattice::Top, _) => Some(Ordering::Greater),
            (_, StackOffsetLattice::Top) => Some(Ordering::Less),
            (StackOffsetLattice::Offset(a), StackOffsetLattice::Offset(b)) => {
                if *a == *b {
                    Some(Ordering::Equal)
                } else {
                    None
                }
            },
            (StackOffsetLattice::Range(min1, max1), StackOffsetLattice::Range(min2, max2)) => {
                if *min1 == *min2 && *max1 == *max2 {
                    Some(Ordering::Equal)
                } else if *min1 >= *min2 && *max1 <= *max2 {
                    Some(Ordering::Less)
                } else if *min2 >= *min1 && *max2 <= *max1 {
                    Some(Ordering::Greater)
                } else {
                    None
                }
            },
            (StackOffsetLattice::Offset(v), StackOffsetLattice::Range(min, max)) => {
                if *v >= *min && *v <= *max {
                    Some(Ordering::Less)
                } else {
                    None
                }
            },
            (StackOffsetLattice::Range(min, max), StackOffsetLattice::Offset(v)) => {
                if *v >= *min && *v <= *max {
                    Some(Ordering::Greater)
                } else {
                    None
                }
            },
        }
    }
}

impl vstd::std_specs::cmp::PartialOrdSpecImpl for StackOffsetLattice {
    open spec fn obeys_partial_cmp_spec() -> bool {
        true
    }

    open spec fn partial_cmp_spec(&self, other: &Self) -> Option<Ordering> {
        stack_order(*self, *other)
    }
}

/// Abstract state for stack offset analysis: the offset of the stack pointer
/// relative to its initial value, and the varnode of the stack pointer.
#[derive(Debug, Clone, Copy, Eq, PartialEq, Structural)]
pub struct StackOffsetState {
    offset: StackOffsetLattice,
    stack_pointer: VarNode,
}

/// `value` read as a two's-complement number of `size` bytes. A value of
/// eight bytes or more, or of no bytes, is read as a 64-bit signed number.
pub open spec fn sign_extend(value: u64, size: usize) -> i64 {
    if 1 <= size < 8 {
        let w = pow2(8 * (size as nat)) as int;
        let m = value as int % w;
        (if m >= w / 2 { m - w } else { m }) as i64
    } else {
        value as i64
    }
}

/// The constant held by a varnode of the constant space, read as a signed
/// integer of the varnode's own size.
pub open spec fn spec_extract_constant(vn: VarNode) -> Option<i64> {
    if vn.space_index == crate::sleigh::CONST_SPACE_INDEX {
        Some(sign_extend(vn.offset, vn.size))
    } else {
        None
    }
}

/// The operation writes directly to `v`.
pub open spec fn spec_writes_to_varnode(op: PcodeOperation, v: VarNode) -> bool {
    match op.spec_output() {
        Some(GeneralizedVarNode::Direct(vn)) => v == vn,
        _ => false,
    }
}

/// The stack offset after `op`, when the stack pointer is `sp` and its offset
/// before is `off`: adding or subtracting a constant to the stack pointer
/// shifts the offset, copying the stack pointer to itself keeps it, and any
/// other write to the stack pointer makes it unknown.
pub open spec fn stack_transfer(off: StackOffsetLattice, sp: VarNode, op: PcodeOperation) -> StackOffsetLattice {
    match op {
        PcodeOperation::IntAdd { output, input0, input1 } => {
            if output == sp && input0 == sp && spec_extract_constant(input1) is Some {
                stack_add(off, spec_extract_constant(input1).unwrap())
            } else if output == sp && input0 != sp && input1 == sp && spec_extract_constant(input0) is Some {
                stack_add(off, spec_extract_constant(input0).unwrap())
            } else if output == sp {
                StackOffsetLattice::Top
            } else {
                off
            }
        },
        PcodeOperation::IntSub { output, input0, input1 } => {
            if output == sp && input0 == sp && spec_extract_constant(input1) is Some {
                stack_sub(off, spec_extract_constant(input1).unwrap())
            } else if output == sp {
                StackOffsetLattice::Top
            } else {
                off
            }
        },
        PcodeOperation::Copy { output, input } => {
            if output == sp {
                if input == sp { off } else { StackOffsetLattice::Top }
            } else {
                off
            }
        },
        _ => if spec_writes_to_varnode(op, sp) {
            StackOffsetLattice::Top
        } else {
            off
        },
    }
}

impl StackOffsetState {
    pub closed spec fn spec_offset(self) -> StackOffsetLattice {
        self.offset
    }

    pub closed spec fn spec_stack_pointer(self) -> VarNode {
        self.stack_pointer
    }

    /// Create a new stack offset state with initial offset 0
    pub fn new(stack_pointer: VarNode) -> (r: Self)
        ensures
            r.spec_offset() == StackOffsetLattice::Offset(0),
            r.spec_stack_pointer() == stack_pointer,
    {
        StackOffsetState { offset: StackOffsetLattice::Offset(0), stack_pointer }
    }

    /// Create a new stack offset state with a specific initial offset
    pub fn with_offset(stack_pointer: VarNode, offset: i64) -> (r: Self)
        ensures
            r.spec_offset() == StackOffsetLattice::Offset(offset),
            r.spec_stack_pointer() == stack_pointer,
    {
        StackOffsetState { offset: StackOffsetLattice::Offset(offset), stack_pointer }
    }

    /// Get the current stack offset
    pub fn offset(&self) -> (r: &StackOffsetLattice)
        ensures
            *r == self.spec_offset(),
    {
        &self.offset
    }

    /// Get the stack pointer varnode
    pub fn stack_pointer(&self) -> (r: &VarNode)
        ensures
            *r == self.spec_stack_pointer(),
    {
        &self.stack_pointer
    }

    /// Extract a constant value from a varnode if it's in the constant space
    fn extract_constant(vn: &VarNode) -> (r: Option<i64>)
        ensures
            r == spec_extract_constant(*vn),
    {
        if vn.space_index != crate::sleigh::CONST_SPACE_INDEX {
            return None;
        }
        let size = vn.size;
        if 1 <= size && size < 8 {
            let w: u64 = if size == 1 {
                0x100
            } else if size == 2 {
                0x1_0000
            } else if size == 3 {
                0x100_0000
            } else if size == 4 {
                0x1_0000_0000
            } else if size == 5 {
                0x100_0000_0000
            } else if size == 6 {
                0x1_0000_0000_0000
            } else {
                0x100_0000_0000_0000
            };
            proof {
                lemma2_to64();
                lemma2_to64_rest();
                assert(w == pow2(8 * (size as nat)));
            }
            let m = vn.offset % w;
            if m >= w / 2 {
                Some((m as i64) - (w as i64))
            } else {
                Some(m as i64)
            }
        } else {
            Some(vn.offset as i64)
        }
    }

    /// Check if an operation writes to a specific varnode
    fn writes_to_varnode(op: &PcodeOperation, v: &VarNode) -> (r: bool)
        ensures
            r == spec_writes_to_varnode(*op, *v),
    {
        match op.output() {
            Some(GeneralizedVarNode::Direct(vn)) => *v == vn,
            _ => false,
        }
    }

    /// Transfer function for stack offset analysis
    fn transfer_impl(&self, op: &PcodeOperation) -> (r: StackOffsetLattice)
        ensures
            r == stack_transfer(self.offset, self.stack_pointer, *op),
    {
        let sp = self.stack_pointer;
        match op {
            PcodeOperation::IntAdd { output, input0, input1 } => {
                if *output == sp && *input0 == sp {
                    if let Some(delta) = Self::extract_constant(input1) {
                        return self.offset.add(delta);
                    }
                } else if *output == sp && *input1 == sp {
                    if let Some(delta) = Self::extract_constant(input0) {
                        return self.offset.add(delta);
                    }
                }
                if *output == sp {
                    return StackOffsetLattice::Top;
                }
                self.offset
            },
            PcodeOperation::IntSub { output, input0, input1 } => {
                if *output == sp && *input0 == sp {
                    if let Some(delta) = Self::extract_constant(input1) {
                        return self.offset.sub(delta);
                    }
                }
                if *output == sp {
                    return StackOffsetLattice::Top;
                }
                self.offset
            },
            PcodeOperation::Copy { output, input } => {
                if *output == sp {
                    if *input == sp {
                        self.offset
                    } else {
                        StackOffsetLattice::Top
                    }
                } else {
                    self.offset
                }
            },
            _ => {
                if Self::writes_to_varnode(op, &sp) {
                    StackOffsetLattice::Top
                } else {
                    self.offset
                }
            },
        }
    }

    /// The state after `opcode`: same stack pointer, offset moved by the
    /// transfer function.
    pub fn transfer(&self, opcode: &PcodeOperation) -> (r: Self)
        ensures
            r.spec_stack_pointer() == self.spec_stack_pointer(),
            r.spec_offset() == stack_transfer(self.spec_offset(), self.spec_stack_pointer(), *opcode),
    {
        let new_offset = self.transfer_impl(opcode);
        StackOffsetState { offset: new_offset, stack_pointer: self.stack_pointer }
    }

    /// Joins `other` into this state: offsets are joined when both track the
    /// same stack pointer, otherwise the offset becomes `Top`.
    pub fn join(&mut self, other: &Self)
        ensures
            final(self).spec_stack_pointer() == old(self).spec_stack_pointer(),
            final(self).spec_offset() == if old(self).spec_stack_pointer() == other.spec_stack_pointer() {
                stack_join(old(self).spec_offset(), other.spec_offset())
            } else {
                StackOffsetLattice::Top
            },
    {
        if self.stack_pointer == other.stack_pointer {
            self.offset.join(&other.offset);
        } else {
            self.offset = StackOffsetLattice::Top;
        }
    }
}

/// States tracking different stack pointers are incomparable; otherwise
/// they compare by offset.
pub open spec fn state_order(a: StackOffsetState, b: StackOffsetState) -> Option<Ordering> {
    if a.spec_stack_pointer() != b.spec_stack_pointer() {
        None
    } else {
        stack_order(a.spec_offset(), b.spec_offset())
    }
}

impl PartialOrd for StackOffsetState {
    fn partial_cmp(&self, other: &Self) -> (r: Option<Ordering>) {
        if self.stack_pointer != other.stack_pointer {
            None
        } else {
            self.offset.partial_cmp(&other.offset)
        }
    }
}

impl vstd::std_specs::cmp::PartialOrdSpecImpl for StackOffsetState {
    open spec fn obeys_partial_cmp_spec() -> bool {
        true
    }

    open spec fn partial_cmp_spec(&self, other: &Self) -> Option<Ordering> {
        state_order(*self, *other)
    }
}

/// A value is at or below another in the lattice order.
pub open spec fn stack_le(a: StackOffsetLattice, b: StackOffsetLattice) -> bool {
    stack_order(a, b) == Some(Ordering::Less) || stack_order(a, b) == Some(Ordering::Equal)
}

/// The join of two values lies at or above each of them.
pub proof fn lemma_join_upper_bound(a: StackOffsetLattice, b: StackOffsetLattice)
    ensures
        stack_le(a, stack_join(a, b)),
        stack_le(b, stack_join(a, b)),
{
}

/// Joining is commutative.
pub proof fn lemma_join_commutative(a: StackOffsetLattice, b: StackOffsetLattice)
    ensures
        stack_join(a, b) == stack_join(b, a),
{
}

/// Joining a value with itself gives it back.
pub proof fn lemma_join_idempotent(a: StackOffsetLattice)
    ensures
        stack_join(a, a) == a,
{
}

/// The order answers `Equal` exactly for equal values, and `Less` one way
/// exactly when it answers `Greater` the other way.
pub proof fn lemma_order_equal_and_converse(a: StackOffsetLattice, b: StackOffsetLattice)
    ensures
        stack_order(a, b) == Some(Ordering::Equal) <==> a == b,
        stack_order(a, b) == Some(Ordering::Less) <==> stack_order(b, a) == Some(Ordering::Greater),
        stack_order(a, b) is None <==> stack_order(b, a) is None,
{
}

/// Subtracting a constant undoes adding it.
pub proof fn lemma_sub_undoes_add(a: StackOffsetLattice, delta: i64)
    ensures
        stack_sub(stack_add(a, delta), delta) == a,
{
    match a {
        StackOffsetLattice::Offset(v) => {
            lemma_wrapping_roundtrip(v, delta);
        },
        StackOffsetLattice::Range(lo, hi) => {
            lemma_wrapping_roundtrip(lo, delta);
            lemma_wrapping_roundtrip(hi, delta);
        },
        _ => {},
    }
}

proof fn lemma_wrapping_roundtrip(v: i64, d: i64)
    ensures
        v.wrapping_add(d).wrapping_sub(d) == v,
{
    assert(v.wrapping_add(d).wrapping_sub(d) == v) by (bit_vector);
}

/// An operation that does not write the stack pointer leaves the tracked
/// offset as it was, whatever it writes instead (a copy of the stack
/// pointer into another register, such as a frame pointer, included).
pub proof fn lemma_transfer_keeps_offset(off: StackOffsetLattice, sp: VarNode, op: PcodeOperation)
    requires
        !spec_writes_to_varnode(op, sp),
    ensures
        stack_transfer(off, sp, op) == off,
{
}

/// Adding a 64-bit constant `c` to the stack pointer moves a known offset
/// `o` to `o + c`, and subtracting it moves `o` to `o - c` (wrapping); the
/// constant may stand on either side of the addition.
pub proof fn lemma_transfer_moves_offset(o: i64, sp: VarNode, c: VarNode)
    requires
        c.space_index == crate::sleigh::CONST_SPACE_INDEX,
        c.size == 8,
        sp != c,
    ensures
        stack_transfer(StackOffsetLattice::Offset(o), sp, PcodeOperation::IntAdd { output: sp, input0: sp, input1: c })
            == StackOffsetLattice::Offset(o.wrapping_add(c.offset as i64)),
        stack_transfer(StackOffsetLattice::Offset(o), sp, PcodeOperation::IntAdd { output: sp, input0: c, input1: sp })
            == StackOffsetLattice::Offset(o.wrapping_add(c.offset as i64)),
        stack_transfer(StackOffsetLattice::Offset(o), sp, PcodeOperation::IntSub { output: sp, input0: sp, input1: c })
            == StackOffsetLattice::Offset(o.wrapping_sub(c.offset as i64)),
{
}

/// Any other write to the stack pointer makes its offset unknown: a copy
/// from another location, and every operation other than an addition, a
/// subtraction or a copy that writes it.
pub proof fn lemma_transfer_loses_offset(off: StackOffsetLattice, sp: VarNode, op: PcodeOperation)
    requires
        spec_writes_to_varnode(op, sp),
        !(op is IntAdd),
        !(op is IntSub),
        (op matches PcodeOperation::Copy { input, .. } ==> input != sp),
    ensures
        stack_transfer(off, sp, op) == StackOffsetLattice::Top,
{
}

/// Whether the stack offset `v` is one that `l` allows: none for `Bottom`,
/// exactly `x` for `Offset(x)`, those from `lo` to `hi` for `Range(lo, hi)`,
/// all for `Top`.
pub open spec fn allows(l: StackOffsetLattice, v: i64) -> bool {
    match l {
        StackOffsetLattice::Bottom => false,
        StackOffsetLattice::Offset(x) => v == x,
        StackOffsetLattice::Range(lo, hi) => lo <= v && v <= hi,
        StackOffsetLattice::Top => true,
    }
}

/// The join allows every offset that either side allows, is the same in
/// either order, gives a value back when joined with itself and leaves a
/// value as it is when joined with `Bottom`; two distinct known offsets
/// join to exactly the offsets between them.
pub proof fn lemma_join_laws(a: StackOffsetLattice, b: StackOffsetLattice, x: i64, y: i64, v: i64)
    ensures
        (allows(a, v) || allows(b, v)) ==> allows(stack_join(a, b), v),
        stack_join(a, b) == stack_join(b, a),
        stack_join(a, a) == a,
        stack_join(a, StackOffsetLattice::Bottom) == a,
        stack_join(a, StackOffsetLattice::Top) == StackOffsetLattice::Top,
        allows(stack_join(StackOffsetLattice::Offset(x), StackOffsetLattice::Offset(y)), v) <==> (
            (x <= v && v <= y) || (y <= v && v <= x)),
{
}

/// The order says what the values allow: a value below or equal to another
/// allows no offset that the other does not; values are equal in the order
/// exactly when they are the same; `Bottom` is below and `Top` above every
/// other value.
pub proof fn lemma_order_laws(a: StackOffsetLattice, b: StackOffsetLattice, v: i64)
    ensures
        (stack_order(a, b) == Some(Ordering::Less) || stack_order(a, b) == Some(Ordering::Equal)) ==> (allows(a, v)
            ==> allows(b, v)),
        (stack_order(a, b) == Some(Ordering::Greater)) ==> (allows(b, v) ==> allows(a, v)),
        (stack_order(a, b) == Some(Ordering::Equal)) <==> a == b,
        a != StackOffsetLattice::Bottom ==> stack_order(StackOffsetLattice::Bottom, a) == Some(Ordering::Less),
        a != StackOffsetLattice::Top ==> stack_order(a, StackOffsetLattice::Top) == Some(Ordering::Less),
{
}

} // verus!
