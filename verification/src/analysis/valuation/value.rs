//! Symbolic values: trees over the entry values of varnodes, constants and
//! p-code operators, with the sizes of their results in bytes.
use crate::sleigh::{CONST_SPACE_INDEX, VarNode};
use vstd::prelude::*;
use vstd::std_specs::cmp::PartialEqSpecImpl;
use vstd::std_specs::ops::{
    AddSpecImpl, BitAndSpecImpl, BitOrSpecImpl, BitXorSpecImpl, MulSpecImpl, SubSpecImpl,
};

verus! {

/// The value that a direct location held on entry.
#[derive(Debug, Copy, Clone, Eq, PartialEq, Hash, Structural)]
pub struct Entry(pub VarNode);

/// A constant: the offset of a varnode in the constant space; its size is the
/// size of the constant in bytes.
#[derive(Debug, Copy, Clone, Eq, PartialEq, Hash, Structural)]
pub struct Const(pub VarNode);

impl Entry {
    pub fn from_varnode(vn: VarNode) -> (r: Self)
        ensures
            r.0 == vn,
    {
        Entry(vn)
    }

    pub fn varnode(&self) -> (r: &VarNode)
        ensures
            *r == self.0,
    {
        &self.0
    }
}

impl Const {
    pub fn from_varnode(vn: VarNode) -> (r: Self)
        ensures
            r.0 == vn,
    {
        Const(vn)
    }

    pub fn varnode(&self) -> (r: &VarNode)
        ensures
            *r == self.0,
    {
        &self.0
    }
}

/// The bytes that start `offset.0.offset` bytes past the address that the
/// entry value of `base` points to; the constant's size is the number of bytes
/// covered.
#[derive(Debug, Copy, Clone, Eq, PartialEq, Hash, Structural)]
pub struct Offset(pub Entry, pub Const);

impl Offset {
    pub closed spec fn spec_base(self) -> Entry {
        self.0
    }

    pub closed spec fn spec_offset(self) -> Const {
        self.1
    }

    pub fn new(base: Entry, offset: Const) -> (r: Self)
        ensures
            r.spec_base() == base,
            r.spec_offset() == offset,
    {
        Offset(base, offset)
    }

    pub fn base_vn(&self) -> (r: &Entry)
        ensures
            *r == self.spec_base(),
    {
        &self.0
    }

    pub fn offset(&self) -> (r: &Const)
        ensures
            *r == self.spec_offset(),
    {
        &self.1
    }

    /// The covered bytes, as signed offsets from the base: `start .. end`.
    pub open spec fn start(self) -> int {
        (self.spec_offset().0.offset as i64) as int
    }

    pub open spec fn end(self) -> int {
        self.start() + (self.spec_offset().0.size as i64)
    }

    /// Two offsets overlap when they share the base and their byte ranges
    /// intersect.
    pub fn overlaps(&self, other: &Self) -> (r: bool)
        requires
            i64::MIN <= self.end() <= i64::MAX,
            i64::MIN <= other.end() <= i64::MAX,
        ensures
            r == (self.spec_base() == other.spec_base() && !(self.end() <= other.start()
                || other.end() <= self.start())),
    {
        if self.0 != other.0 {
            return false;
        }
        let self_start = self.1.0.offset as i64;
        let self_end = self_start + self.1.0.size as i64;
        let other_start = other.1.0.offset as i64;
        let other_end = other_start + other.1.0.size as i64;
        !(self_end <= other_start || other_end <= self_start)
    }
}

/// An opaque value with an identifier and a size in bytes.
#[derive(Debug, Copy, Clone, Eq, PartialEq, Hash, Structural)]
pub struct Bind(u64, usize);

impl Bind {
    pub closed spec fn spec_id(self) -> u64 {
        self.0
    }

    pub closed spec fn spec_size(self) -> usize {
        self.1
    }

    pub fn id(&self) -> (r: u64)
        ensures
            r == self.spec_id(),
    {
        self.0
    }

    pub fn size(&self) -> (r: usize)
        ensures
            r == self.spec_size(),
    {
        self.1
    }

    pub fn from_id_size(id: u64, size: usize) -> (r: Self)
        ensures
            r.spec_id() == id,
            r.spec_size() == size,
    {
        Bind(id, size)
    }

    /// A bind is determined by its identifier and its size: two binds are
    /// equal exactly when both their identifiers and their sizes are equal.
    pub proof fn lemma_identity(a: Bind, b: Bind)
        ensures
            a == b <==> (a.spec_id() == b.spec_id() && a.spec_size() == b.spec_size()),
    {
    }
}

/// Multiplication, with the size of the result in bytes.
#[derive(Debug, Hash)]
pub struct MulExpr(pub Box<Value>, pub Box<Value>, pub usize);

/// Addition, with the size of the result in bytes.
#[derive(Debug, Hash)]
pub struct AddExpr(pub Box<Value>, pub Box<Value>, pub usize);

/// Subtraction, with the size of the result in bytes.
#[derive(Debug, Hash)]
pub struct SubExpr(pub Box<Value>, pub Box<Value>, pub usize);

/// Either of two values (a join of abstract states), with its size in bytes.
#[derive(Debug, Hash)]
pub struct Choice(pub Box<Value>, pub Box<Value>, pub usize);

/// Bitwise exclusive or, with the size of the result in bytes.
#[derive(Debug, Hash)]
pub struct XorExpr(pub Box<Value>, pub Box<Value>, pub usize);

/// Bitwise or, with the size of the result in bytes.
#[derive(Debug, Hash)]
pub struct OrExpr(pub Box<Value>, pub Box<Value>, pub usize);

/// Bitwise and, with the size of the result in bytes.
#[derive(Debug, Hash)]
pub struct AndExpr(pub Box<Value>, pub Box<Value>, pub usize);

/// Boolean negation.
#[derive(Debug, Hash)]
pub struct BoolNegateExpr(pub Box<Value>);

/// Boolean and.
#[derive(Debug, Hash)]
pub struct BoolAndExpr(pub Box<Value>, pub Box<Value>);

/// Boolean or.
#[derive(Debug, Hash)]
pub struct BoolOrExpr(pub Box<Value>, pub Box<Value>);

/// Boolean exclusive or.
#[derive(Debug, Hash)]
pub struct BoolXorExpr(pub Box<Value>, pub Box<Value>);

/// Left shift of the first value by the second (in bits), with the size of the result in bytes.
#[derive(Debug, Hash)]
pub struct IntLeftShiftExpr(pub Box<Value>, pub Box<Value>, pub usize);

/// Logical right shift, with the size of the result in bytes.
#[derive(Debug, Hash)]
pub struct IntRightShiftExpr(pub Box<Value>, pub Box<Value>, pub usize);

/// Arithmetic right shift, with the size of the result in bytes.
#[derive(Debug, Hash)]
pub struct IntSignedRightShiftExpr(pub Box<Value>, pub Box<Value>, pub usize);

/// A load through a pointer value: the size in bytes and the space index.
#[derive(Debug, Hash)]
pub struct Load(pub Box<Value>, pub usize, pub u8);

/// Zero extension to a size in bytes.
#[derive(Debug, Hash)]
pub struct ZeroExtend(pub Box<Value>, pub usize);

/// Sign extension to a size in bytes.
#[derive(Debug, Hash)]
pub struct SignExtend(pub Box<Value>, pub usize);

/// The bytes `offset .. offset + size` of a value: (value, byte offset, size).
#[derive(Debug, Hash)]
pub struct Extract(pub Box<Value>, pub usize, pub usize);

/// Signed less-than.
#[derive(Debug, Hash)]
pub struct IntSLess(pub Box<Value>, pub Box<Value>);

/// Equality.
#[derive(Debug, Hash)]
pub struct IntEqual(pub Box<Value>, pub Box<Value>);

/// Unsigned less-than.
#[derive(Debug, Hash)]
pub struct IntLess(pub Box<Value>, pub Box<Value>);

/// The number of one bits.
#[derive(Debug, Hash)]
pub struct PopCount(pub Box<Value>);

/// Two's complement negation, with the size of the result in bytes.
#[derive(Debug, Hash)]
pub struct Int2CompExpr(pub Box<Value>, pub usize);

/// Inequality.
#[derive(Debug, Hash)]
pub struct IntNotEqual(pub Box<Value>, pub Box<Value>);

/// Unsigned less-or-equal.
#[derive(Debug, Hash)]
pub struct IntLessEqual(pub Box<Value>, pub Box<Value>);

/// Signed less-or-equal.
#[derive(Debug, Hash)]
pub struct IntSLessEqual(pub Box<Value>, pub Box<Value>);

/// Whether the unsigned addition of the two values carries.
#[derive(Debug, Hash)]
pub struct IntCarry(pub Box<Value>, pub Box<Value>);

/// Whether the signed addition of the two values overflows.
#[derive(Debug, Hash)]
pub struct IntSCarry(pub Box<Value>, pub Box<Value>);

/// Whether the signed subtraction of the two values overflows.
#[derive(Debug, Hash)]
pub struct IntSBorrow(pub Box<Value>, pub Box<Value>);

/// A symbolic value: a tree over varnode entries, constants and operators.
#[derive(Debug, Hash)]
pub enum Value {
    /// The value a location held on entry.
    Entry(Entry),
    /// A constant: the offset of a varnode in the constant space, of its size.
    Const(Const),
    Offset(Offset),
    Mul(MulExpr),
    Add(AddExpr),
    Sub(SubExpr),
    Choice(Choice),
    Xor(XorExpr),
    Or(OrExpr),
    And(AndExpr),
    BoolNegate(BoolNegateExpr),
    BoolAnd(BoolAndExpr),
    BoolOr(BoolOrExpr),
    BoolXor(BoolXorExpr),
    IntLeftShift(IntLeftShiftExpr),
    IntRightShift(IntRightShiftExpr),
    IntSignedRightShift(IntSignedRightShiftExpr),
    Load(Load),
    ZeroExtend(ZeroExtend),
    SignExtend(SignExtend),
    Extract(Extract),
    IntSLess(IntSLess),
    IntEqual(IntEqual),
    IntLess(IntLess),
    PopCount(PopCount),
    Int2Comp(Int2CompExpr),
    IntNotEqual(IntNotEqual),
    IntLessEqual(IntLessEqual),
    IntSLessEqual(IntSLessEqual),
    IntCarry(IntCarry),
    IntSCarry(IntSCarry),
    IntSBorrow(IntSBorrow),
    /// An opaque value with an identifier.
    Bind(Bind),
    /// Any value at all.
    Top,
}

impl Clone for MulExpr {
    fn clone(&self) -> (r: Self)
        ensures
            r == *self,
    {
        MulExpr(Box::new(duplicate(&self.0)), Box::new(duplicate(&self.1)), self.2)
    }
}

impl Clone for AddExpr {
    fn clone(&self) -> (r: Self)
        ensures
            r == *self,
    {
        AddExpr(Box::new(duplicate(&self.0)), Box::new(duplicate(&self.1)), self.2)
    }
}

impl Clone for SubExpr {
    fn clone(&self) -> (r: Self)
        ensures
            r == *self,
    {
        SubExpr(Box::new(duplicate(&self.0)), Box::new(duplicate(&self.1)), self.2)
    }
}

impl Clone for Choice {
    fn clone(&self) -> (r: Self)
        ensures
            r == *self,
    {
        Choice(Box::new(duplicate(&self.0)), Box::new(duplicate(&self.1)), self.2)
    }
}

impl Clone for XorExpr {
    fn clone(&self) -> (r: Self)
        ensures
            r == *self,
    {
        XorExpr(Box::new(duplicate(&self.0)), Box::new(duplicate(&self.1)), self.2)
    }
}

impl Clone for OrExpr {
    fn clone(&self) -> (r: Self)
        ensures
            r == *self,
    {
        OrExpr(Box::new(duplicate(&self.0)), Box::new(duplicate(&self.1)), self.2)
    }
}

impl Clone for AndExpr {
    fn clone(&self) -> (r: Self)
        ensures
            r == *self,
    {
        AndExpr(Box::new(duplicate(&self.0)), Box::new(duplicate(&self.1)), self.2)
    }
}

impl Clone for BoolNegateExpr {
    fn clone(&self) -> (r: Self)
        ensures
            r == *self,
    {
        BoolNegateExpr(Box::new(duplicate(&self.0)))
    }
}

impl Clone for BoolAndExpr {
    fn clone(&self) -> (r: Self)
        ensures
            r == *self,
    {
        BoolAndExpr(Box::new(duplicate(&self.0)), Box::new(duplicate(&self.1)))
    }
}

impl Clone for BoolOrExpr {
    fn clone(&self) -> (r: Self)
        ensures
            r == *self,
    {
        BoolOrExpr(Box::new(duplicate(&self.0)), Box::new(duplicate(&self.1)))
    }
}

impl Clone for BoolXorExpr {
    fn clone(&self) -> (r: Self)
        ensures
            r == *self,
    {
        BoolXorExpr(Box::new(duplicate(&self.0)), Box::new(duplicate(&self.1)))
    }
}

impl Clone for IntLeftShiftExpr {
    fn clone(&self) -> (r: Self)
        ensures
            r == *self,
    {
        IntLeftShiftExpr(Box::new(duplicate(&self.0)), Box::new(duplicate(&self.1)), self.2)
    }
}

impl Clone for IntRightShiftExpr {
    fn clone(&self) -> (r: Self)
        ensures
            r == *self,
    {
        IntRightShiftExpr(Box::new(duplicate(&self.0)), Box::new(duplicate(&self.1)), self.2)
    }
}

impl Clone for IntSignedRightShiftExpr {
    fn clone(&self) -> (r: Self)
        ensures
            r == *self,
    {
        IntSignedRightShiftExpr(Box::new(duplicate(&self.0)), Box::new(duplicate(&self.1)), self.2)
    }
}

impl Clone for Load {
    fn clone(&self) -> (r: Self)
        ensures
            r == *self,
    {
        Load(Box::new(duplicate(&self.0)), self.1, self.2)
    }
}

impl Clone for ZeroExtend {
    fn clone(&self) -> (r: Self)
        ensures
            r == *self,
    {
        ZeroExtend(Box::new(duplicate(&self.0)), self.1)
    }
}

impl Clone for SignExtend {
    fn clone(&self) -> (r: Self)
        ensures
            r == *self,
    {
        SignExtend(Box::new(duplicate(&self.0)), self.1)
    }
}

impl Clone for Extract {
    fn clone(&self) -> (r: Self)
        ensures
            r == *self,
    {
        Extract(Box::new(duplicate(&self.0)), self.1, self.2)
    }
}

impl Clone for IntSLess {
    fn clone(&self) -> (r: Self)
        ensures
            r == *self,
    {
        IntSLess(Box::new(duplicate(&self.0)), Box::new(duplicate(&self.1)))
    }
}

impl Clone for IntEqual {
    fn clone(&self) -> (r: Self)
        ensures
            r == *self,
    {
        IntEqual(Box::new(duplicate(&self.0)), Box::new(duplicate(&self.1)))
    }
}

impl Clone for IntLess {
    fn clone(&self) -> (r: Self)
        ensures
            r == *self,
    {
        IntLess(Box::new(duplicate(&self.0)), Box::new(duplicate(&self.1)))
    }
}

impl Clone for PopCount {
    fn clone(&self) -> (r: Self)
        ensures
            r == *self,
    {
        PopCount(Box::new(duplicate(&self.0)))
    }
}

impl Clone for Int2CompExpr {
    fn clone(&self) -> (r: Self)
        ensures
            r == *self,
    {
        Int2CompExpr(Box::new(duplicate(&self.0)), self.1)
    }
}

impl Clone for IntNotEqual {
    fn clone(&self) -> (r: Self)
        ensures
            r == *self,
    {
        IntNotEqual(Box::new(duplicate(&self.0)), Box::new(duplicate(&self.1)))
    }
}

impl Clone for IntLessEqual {
    fn clone(&self) -> (r: Self)
        ensures
            r == *self,
    {
        IntLessEqual(Box::new(duplicate(&self.0)), Box::new(duplicate(&self.1)))
    }
}

impl Clone for IntSLessEqual {
    fn clone(&self) -> (r: Self)
        ensures
            r == *self,
    {
        IntSLessEqual(Box::new(duplicate(&self.0)), Box::new(duplicate(&self.1)))
    }
}

impl Clone for IntCarry {
    fn clone(&self) -> (r: Self)
        ensures
            r == *self,
    {
        IntCarry(Box::new(duplicate(&self.0)), Box::new(duplicate(&self.1)))
    }
}

impl Clone for IntSCarry {
    fn clone(&self) -> (r: Self)
        ensures
            r == *self,
    {
        IntSCarry(Box::new(duplicate(&self.0)), Box::new(duplicate(&self.1)))
    }
}

impl Clone for IntSBorrow {
    fn clone(&self) -> (r: Self)
        ensures
            r == *self,
    {
        IntSBorrow(Box::new(duplicate(&self.0)), Box::new(duplicate(&self.1)))
    }
}

impl Clone for Value {
    fn clone(&self) -> (r: Self)
        ensures
            r == *self,
    {
        duplicate(self)
    }
}

impl PartialEq for Value {
    fn eq(&self, other: &Self) -> (r: bool) {
        values_equal(self, other)
    }
}

impl Eq for Value {
}

impl PartialEqSpecImpl for Value {
    open spec fn obeys_eq_spec() -> bool {
        true
    }

    open spec fn eq_spec(&self, other: &Self) -> bool {
        *self == *other
    }
}

/// Structural equality of values.
pub fn values_equal(a: &Value, b: &Value) -> (r: bool)
    ensures
        r == (*a == *b),
    decreases a,
{
    match (a, b) {
        (Value::Entry(x), Value::Entry(y)) => x.0 == y.0,
        (Value::Const(x), Value::Const(y)) => x.0 == y.0,
        (Value::Offset(x), Value::Offset(y)) => x.0 == y.0 && x.1 == y.1,
        (Value::Bind(x), Value::Bind(y)) => x.0 == y.0 && x.1 == y.1,
        (Value::Top, Value::Top) => true,
        (Value::Mul(x), Value::Mul(y)) => values_equal(&x.0, &y.0) && values_equal(&x.1, &y.1) && x.2 == y.2,
        (Value::Add(x), Value::Add(y)) => values_equal(&x.0, &y.0) && values_equal(&x.1, &y.1) && x.2 == y.2,
        (Value::Sub(x), Value::Sub(y)) => values_equal(&x.0, &y.0) && values_equal(&x.1, &y.1) && x.2 == y.2,
        (Value::Choice(x), Value::Choice(y)) => values_equal(&x.0, &y.0) && values_equal(&x.1, &y.1) && x.2 == y.2,
        (Value::Xor(x), Value::Xor(y)) => values_equal(&x.0, &y.0) && values_equal(&x.1, &y.1) && x.2 == y.2,
        (Value::Or(x), Value::Or(y)) => values_equal(&x.0, &y.0) && values_equal(&x.1, &y.1) && x.2 == y.2,
        (Value::And(x), Value::And(y)) => values_equal(&x.0, &y.0) && values_equal(&x.1, &y.1) && x.2 == y.2,
        (Value::BoolNegate(x), Value::BoolNegate(y)) => values_equal(&x.0, &y.0),
        (Value::BoolAnd(x), Value::BoolAnd(y)) => values_equal(&x.0, &y.0) && values_equal(&x.1, &y.1),
        (Value::BoolOr(x), Value::BoolOr(y)) => values_equal(&x.0, &y.0) && values_equal(&x.1, &y.1),
        (Value::BoolXor(x), Value::BoolXor(y)) => values_equal(&x.0, &y.0) && values_equal(&x.1, &y.1),
        (Value::IntLeftShift(x), Value::IntLeftShift(y)) => values_equal(&x.0, &y.0) && values_equal(&x.1, &y.1) && x.2 == y.2,
        (Value::IntRightShift(x), Value::IntRightShift(y)) => values_equal(&x.0, &y.0) && values_equal(&x.1, &y.1) && x.2 == y.2,
        (Value::IntSignedRightShift(x), Value::IntSignedRightShift(y)) => values_equal(&x.0, &y.0) && values_equal(&x.1, &y.1) && x.2 == y.2,
        (Value::Load(x), Value::Load(y)) => values_equal(&x.0, &y.0) && x.1 == y.1 && x.2 == y.2,
        (Value::ZeroExtend(x), Value::ZeroExtend(y)) => values_equal(&x.0, &y.0) && x.1 == y.1,
        (Value::SignExtend(x), Value::SignExtend(y)) => values_equal(&x.0, &y.0) && x.1 == y.1,
        (Value::Extract(x), Value::Extract(y)) => values_equal(&x.0, &y.0) && x.1 == y.1 && x.2 == y.2,
        (Value::IntSLess(x), Value::IntSLess(y)) => values_equal(&x.0, &y.0) && values_equal(&x.1, &y.1),
        (Value::IntEqual(x), Value::IntEqual(y)) => values_equal(&x.0, &y.0) && values_equal(&x.1, &y.1),
        (Value::IntLess(x), Value::IntLess(y)) => values_equal(&x.0, &y.0) && values_equal(&x.1, &y.1),
        (Value::PopCount(x), Value::PopCount(y)) => values_equal(&x.0, &y.0),
        (Value::Int2Comp(x), Value::Int2Comp(y)) => values_equal(&x.0, &y.0) && x.1 == y.1,
        (Value::IntNotEqual(x), Value::IntNotEqual(y)) => values_equal(&x.0, &y.0) && values_equal(&x.1, &y.1),
        (Value::IntLessEqual(x), Value::IntLessEqual(y)) => values_equal(&x.0, &y.0) && values_equal(&x.1, &y.1),
        (Value::IntSLessEqual(x), Value::IntSLessEqual(y)) => values_equal(&x.0, &y.0) && values_equal(&x.1, &y.1),
        (Value::IntCarry(x), Value::IntCarry(y)) => values_equal(&x.0, &y.0) && values_equal(&x.1, &y.1),
        (Value::IntSCarry(x), Value::IntSCarry(y)) => values_equal(&x.0, &y.0) && values_equal(&x.1, &y.1),
        (Value::IntSBorrow(x), Value::IntSBorrow(y)) => values_equal(&x.0, &y.0) && values_equal(&x.1, &y.1),
        _ => false,
    }
}

/// A copy of a value.
pub fn duplicate(v: &Value) -> (r: Value)
    ensures
        r == *v,
    decreases v,
{
    match v {
        Value::Entry(x) => Value::Entry(*x),
        Value::Const(x) => Value::Const(*x),
        Value::Offset(x) => Value::Offset(*x),
        Value::Bind(x) => Value::Bind(*x),
        Value::Top => Value::Top,
        Value::Mul(x) => Value::Mul(MulExpr(Box::new(duplicate(&x.0)), Box::new(duplicate(&x.1)), x.2)),
        Value::Add(x) => Value::Add(AddExpr(Box::new(duplicate(&x.0)), Box::new(duplicate(&x.1)), x.2)),
        Value::Sub(x) => Value::Sub(SubExpr(Box::new(duplicate(&x.0)), Box::new(duplicate(&x.1)), x.2)),
        Value::Choice(x) => Value::Choice(Choice(Box::new(duplicate(&x.0)), Box::new(duplicate(&x.1)), x.2)),
        Value::Xor(x) => Value::Xor(XorExpr(Box::new(duplicate(&x.0)), Box::new(duplicate(&x.1)), x.2)),
        Value::Or(x) => Value::Or(OrExpr(Box::new(duplicate(&x.0)), Box::new(duplicate(&x.1)), x.2)),
        Value::And(x) => Value::And(AndExpr(Box::new(duplicate(&x.0)), Box::new(duplicate(&x.1)), x.2)),
        Value::BoolNegate(x) => Value::BoolNegate(BoolNegateExpr(Box::new(duplicate(&x.0)))),
        Value::BoolAnd(x) => Value::BoolAnd(BoolAndExpr(Box::new(duplicate(&x.0)), Box::new(duplicate(&x.1)))),
        Value::BoolOr(x) => Value::BoolOr(BoolOrExpr(Box::new(duplicate(&x.0)), Box::new(duplicate(&x.1)))),
        Value::BoolXor(x) => Value::BoolXor(BoolXorExpr(Box::new(duplicate(&x.0)), Box::new(duplicate(&x.1)))),
        Value::IntLeftShift(x) => Value::IntLeftShift(IntLeftShiftExpr(Box::new(duplicate(&x.0)), Box::new(duplicate(&x.1)), x.2)),
        Value::IntRightShift(x) => Value::IntRightShift(IntRightShiftExpr(Box::new(duplicate(&x.0)), Box::new(duplicate(&x.1)), x.2)),
        Value::IntSignedRightShift(x) => Value::IntSignedRightShift(IntSignedRightShiftExpr(Box::new(duplicate(&x.0)), Box::new(duplicate(&x.1)), x.2)),
        Value::Load(x) => Value::Load(Load(Box::new(duplicate(&x.0)), x.1, x.2)),
        Value::ZeroExtend(x) => Value::ZeroExtend(ZeroExtend(Box::new(duplicate(&x.0)), x.1)),
        Value::SignExtend(x) => Value::SignExtend(SignExtend(Box::new(duplicate(&x.0)), x.1)),
        Value::Extract(x) => Value::Extract(Extract(Box::new(duplicate(&x.0)), x.1, x.2)),
        Value::IntSLess(x) => Value::IntSLess(IntSLess(Box::new(duplicate(&x.0)), Box::new(duplicate(&x.1)))),
        Value::IntEqual(x) => Value::IntEqual(IntEqual(Box::new(duplicate(&x.0)), Box::new(duplicate(&x.1)))),
        Value::IntLess(x) => Value::IntLess(IntLess(Box::new(duplicate(&x.0)), Box::new(duplicate(&x.1)))),
        Value::PopCount(x) => Value::PopCount(PopCount(Box::new(duplicate(&x.0)))),
        Value::Int2Comp(x) => Value::Int2Comp(Int2CompExpr(Box::new(duplicate(&x.0)), x.1)),
        Value::IntNotEqual(x) => Value::IntNotEqual(IntNotEqual(Box::new(duplicate(&x.0)), Box::new(duplicate(&x.1)))),
        Value::IntLessEqual(x) => Value::IntLessEqual(IntLessEqual(Box::new(duplicate(&x.0)), Box::new(duplicate(&x.1)))),
        Value::IntSLessEqual(x) => Value::IntSLessEqual(IntSLessEqual(Box::new(duplicate(&x.0)), Box::new(duplicate(&x.1)))),
        Value::IntCarry(x) => Value::IntCarry(IntCarry(Box::new(duplicate(&x.0)), Box::new(duplicate(&x.1)))),
        Value::IntSCarry(x) => Value::IntSCarry(IntSCarry(Box::new(duplicate(&x.0)), Box::new(duplicate(&x.1)))),
        Value::IntSBorrow(x) => Value::IntSBorrow(IntSBorrow(Box::new(duplicate(&x.0)), Box::new(duplicate(&x.1)))),
    }
}

/// A constant of `size` bytes holding `v` (the size is stored as a 32-bit
/// number, as SLEIGH stores it).
pub open spec fn const_value(v: i64, size: usize) -> Value {
    Value::Const(Const(VarNode { space_index: CONST_SPACE_INDEX, offset: v as u64, size: (size as u32) as usize }))
}

pub open spec fn max_size(a: usize, b: usize) -> usize {
    if a >= b { a } else { b }
}

pub fn max_usize(a: usize, b: usize) -> (r: usize)
    ensures
        r == max_size(a, b),
{
    if a >= b { a } else { b }
}

impl Value {
    /// The size in bytes of this value.
    pub open spec fn spec_size(self) -> usize {
        match self {
            Value::Entry(e) => e.0.size,
            Value::Const(c) => c.0.size,
            Value::Offset(o) => o.spec_offset().0.size,
            Value::Mul(x) => x.2,
            Value::Add(x) => x.2,
            Value::Sub(x) => x.2,
            Value::Choice(x) => x.2,
            Value::Xor(x) => x.2,
            Value::Or(x) => x.2,
            Value::And(x) => x.2,
            Value::BoolNegate(_) => 1,
            Value::BoolAnd(_) => 1,
            Value::BoolOr(_) => 1,
            Value::BoolXor(_) => 1,
            Value::IntLeftShift(x) => x.2,
            Value::IntRightShift(x) => x.2,
            Value::IntSignedRightShift(x) => x.2,
            Value::Load(x) => x.1,
            Value::ZeroExtend(x) => x.1,
            Value::SignExtend(x) => x.1,
            Value::Extract(x) => x.2,
            Value::IntSLess(_) => 1,
            Value::IntEqual(_) => 1,
            Value::IntLess(_) => 1,
            Value::PopCount(_) => 1,
            Value::Int2Comp(x) => x.1,
            Value::IntNotEqual(_) => 1,
            Value::IntLessEqual(_) => 1,
            Value::IntSLessEqual(_) => 1,
            Value::IntCarry(_) => 1,
            Value::IntSCarry(_) => 1,
            Value::IntSBorrow(_) => 1,
            Value::Bind(b) => b.spec_size(),
            Value::Top => 8,
        }
    }

    pub fn size(&self) -> (r: usize)
        ensures
            r == self.spec_size(),
    {
        match self {
            Value::Entry(e) => e.0.size,
            Value::Const(c) => c.0.size,
            Value::Offset(o) => o.1.0.size,
            Value::Mul(x) => x.2,
            Value::Add(x) => x.2,
            Value::Sub(x) => x.2,
            Value::Choice(x) => x.2,
            Value::Xor(x) => x.2,
            Value::Or(x) => x.2,
            Value::And(x) => x.2,
            Value::BoolNegate(_) => 1,
            Value::BoolAnd(_) => 1,
            Value::BoolOr(_) => 1,
            Value::BoolXor(_) => 1,
            Value::IntLeftShift(x) => x.2,
            Value::IntRightShift(x) => x.2,
            Value::IntSignedRightShift(x) => x.2,
            Value::Load(x) => x.1,
            Value::ZeroExtend(x) => x.1,
            Value::SignExtend(x) => x.1,
            Value::Extract(x) => x.2,
            Value::IntSLess(_) => 1,
            Value::IntEqual(_) => 1,
            Value::IntLess(_) => 1,
            Value::PopCount(_) => 1,
            Value::Int2Comp(x) => x.1,
            Value::IntNotEqual(_) => 1,
            Value::IntLessEqual(_) => 1,
            Value::IntSLessEqual(_) => 1,
            Value::IntCarry(_) => 1,
            Value::IntSCarry(_) => 1,
            Value::IntSBorrow(_) => 1,
            Value::Bind(b) => b.1,
            Value::Top => 8,
        }
    }

    /// The varnode of a constant.
    pub open spec fn spec_as_const(self) -> Option<VarNode> {
        match self {
            Value::Const(c) => Some(c.0),
            _ => None,
        }
    }

    pub fn as_const(&self) -> (r: Option<&VarNode>)
        ensures
            r == (match self.spec_as_const() {
                Some(vn) => Some(&vn),
                None => None,
            }),
    {
        match self {
            Value::Const(c) => Some(&c.0),
            _ => None,
        }
    }

    /// The value of a constant, read as a signed 64-bit number.
    pub fn as_const_value(&self) -> (r: Option<i64>)
        ensures
            r == (match self.spec_as_const() {
                Some(vn) => Some(vn.offset as i64),
                None => None,
            }),
    {
        match self {
            Value::Const(c) => Some(c.0.offset as i64),
            _ => None,
        }
    }

    pub fn as_entry(&self) -> (r: Option<&Entry>)
        ensures
            r == (match *self {
                Value::Entry(e) => Some(&e),
                _ => None,
            }),
    {
        match self {
            Value::Entry(e) => Some(e),
            _ => None,
        }
    }

    pub fn as_offset(&self) -> (r: Option<&Offset>)
        ensures
            r == (match *self {
                Value::Offset(o) => Some(&o),
                _ => None,
            }),
    {
        match self {
            Value::Offset(o) => Some(o),
            _ => None,
        }
    }

    pub fn as_bind(&self) -> (r: Option<&Bind>)
        ensures
            r == (match *self {
                Value::Bind(b) => Some(&b),
                _ => None,
            }),
    {
        match self {
            Value::Bind(b) => Some(b),
            _ => None,
        }
    }

    pub fn as_extract(&self) -> (r: Option<&Extract>)
        ensures
            r == (match *self {
                Value::Extract(x) => Some(&x),
                _ => None,
            }),
    {
        match self {
            Value::Extract(x) => Some(x),
            _ => None,
        }
    }

    pub fn as_mul(&self) -> (r: Option<&MulExpr>)
        ensures
            r == (match *self {
                Value::Mul(x) => Some(&x),
                _ => None,
            }),
    {
        match self {
            Value::Mul(x) => Some(x),
            _ => None,
        }
    }

    pub fn as_add(&self) -> (r: Option<&AddExpr>)
        ensures
            r == (match *self {
                Value::Add(x) => Some(&x),
                _ => None,
            }),
    {
        match self {
            Value::Add(x) => Some(x),
            _ => None,
        }
    }

    pub fn as_sub(&self) -> (r: Option<&SubExpr>)
        ensures
            r == (match *self {
                Value::Sub(x) => Some(&x),
                _ => None,
            }),
    {
        match self {
            Value::Sub(x) => Some(x),
            _ => None,
        }
    }

    pub fn as_choice(&self) -> (r: Option<&Choice>)
        ensures
            r == (match *self {
                Value::Choice(x) => Some(&x),
                _ => None,
            }),
    {
        match self {
            Value::Choice(x) => Some(x),
            _ => None,
        }
    }

    pub fn as_xor(&self) -> (r: Option<&XorExpr>)
        ensures
            r == (match *self {
                Value::Xor(x) => Some(&x),
                _ => None,
            }),
    {
        match self {
            Value::Xor(x) => Some(x),
            _ => None,
        }
    }

    pub fn as_or(&self) -> (r: Option<&OrExpr>)
        ensures
            r == (match *self {
                Value::Or(x) => Some(&x),
                _ => None,
            }),
    {
        match self {
            Value::Or(x) => Some(x),
            _ => None,
        }
    }

    pub fn as_and(&self) -> (r: Option<&AndExpr>)
        ensures
            r == (match *self {
                Value::And(x) => Some(&x),
                _ => None,
            }),
    {
        match self {
            Value::And(x) => Some(x),
            _ => None,
        }
    }

    pub fn as_bool_negate(&self) -> (r: Option<&BoolNegateExpr>)
        ensures
            r == (match *self {
                Value::BoolNegate(x) => Some(&x),
                _ => None,
            }),
    {
        match self {
            Value::BoolNegate(x) => Some(x),
            _ => None,
        }
    }

    pub fn as_bool_and(&self) -> (r: Option<&BoolAndExpr>)
        ensures
            r == (match *self {
                Value::BoolAnd(x) => Some(&x),
                _ => None,
            }),
    {
        match self {
            Value::BoolAnd(x) => Some(x),
            _ => None,
        }
    }

    pub fn as_bool_or(&self) -> (r: Option<&BoolOrExpr>)
        ensures
            r == (match *self {
                Value::BoolOr(x) => Some(&x),
                _ => None,
            }),
    {
        match self {
            Value::BoolOr(x) => Some(x),
            _ => None,
        }
    }

    pub fn as_bool_xor(&self) -> (r: Option<&BoolXorExpr>)
        ensures
            r == (match *self {
                Value::BoolXor(x) => Some(&x),
                _ => None,
            }),
    {
        match self {
            Value::BoolXor(x) => Some(x),
            _ => None,
        }
    }

    pub fn as_load(&self) -> (r: Option<&Load>)
        ensures
            r == (match *self {
                Value::Load(x) => Some(&x),
                _ => None,
            }),
    {
        match self {
            Value::Load(x) => Some(x),
            _ => None,
        }
    }

    pub fn as_zext(&self) -> (r: Option<&ZeroExtend>)
        ensures
            r == (match *self {
                Value::ZeroExtend(x) => Some(&x),
                _ => None,
            }),
    {
        match self {
            Value::ZeroExtend(x) => Some(x),
            _ => None,
        }
    }

    pub fn as_sext(&self) -> (r: Option<&SignExtend>)
        ensures
            r == (match *self {
                Value::SignExtend(x) => Some(&x),
                _ => None,
            }),
    {
        match self {
            Value::SignExtend(x) => Some(x),
            _ => None,
        }
    }

    pub fn as_int_sless(&self) -> (r: Option<&IntSLess>)
        ensures
            r == (match *self {
                Value::IntSLess(x) => Some(&x),
                _ => None,
            }),
    {
        match self {
            Value::IntSLess(x) => Some(x),
            _ => None,
        }
    }

    pub fn as_int_equal(&self) -> (r: Option<&IntEqual>)
        ensures
            r == (match *self {
                Value::IntEqual(x) => Some(&x),
                _ => None,
            }),
    {
        match self {
            Value::IntEqual(x) => Some(x),
            _ => None,
        }
    }

    pub fn as_int_less(&self) -> (r: Option<&IntLess>)
        ensures
            r == (match *self {
                Value::IntLess(x) => Some(&x),
                _ => None,
            }),
    {
        match self {
            Value::IntLess(x) => Some(x),
            _ => None,
        }
    }

    pub fn as_popcount(&self) -> (r: Option<&PopCount>)
        ensures
            r == (match *self {
                Value::PopCount(x) => Some(&x),
                _ => None,
            }),
    {
        match self {
            Value::PopCount(x) => Some(x),
            _ => None,
        }
    }

    pub fn as_int_2comp(&self) -> (r: Option<&Int2CompExpr>)
        ensures
            r == (match *self {
                Value::Int2Comp(x) => Some(&x),
                _ => None,
            }),
    {
        match self {
            Value::Int2Comp(x) => Some(x),
            _ => None,
        }
    }

    pub fn as_int_not_equal(&self) -> (r: Option<&IntNotEqual>)
        ensures
            r == (match *self {
                Value::IntNotEqual(x) => Some(&x),
                _ => None,
            }),
    {
        match self {
            Value::IntNotEqual(x) => Some(x),
            _ => None,
        }
    }

    pub fn as_int_less_equal(&self) -> (r: Option<&IntLessEqual>)
        ensures
            r == (match *self {
                Value::IntLessEqual(x) => Some(&x),
                _ => None,
            }),
    {
        match self {
            Value::IntLessEqual(x) => Some(x),
            _ => None,
        }
    }

    pub fn as_int_sless_equal(&self) -> (r: Option<&IntSLessEqual>)
        ensures
            r == (match *self {
                Value::IntSLessEqual(x) => Some(&x),
                _ => None,
            }),
    {
        match self {
            Value::IntSLessEqual(x) => Some(x),
            _ => None,
        }
    }

    pub fn as_int_carry(&self) -> (r: Option<&IntCarry>)
        ensures
            r == (match *self {
                Value::IntCarry(x) => Some(&x),
                _ => None,
            }),
    {
        match self {
            Value::IntCarry(x) => Some(x),
            _ => None,
        }
    }

    pub fn as_int_scarry(&self) -> (r: Option<&IntSCarry>)
        ensures
            r == (match *self {
                Value::IntSCarry(x) => Some(&x),
                _ => None,
            }),
    {
        match self {
            Value::IntSCarry(x) => Some(x),
            _ => None,
        }
    }

    pub fn as_int_sborrow(&self) -> (r: Option<&IntSBorrow>)
        ensures
            r == (match *self {
                Value::IntSBorrow(x) => Some(&x),
                _ => None,
            }),
    {
        match self {
            Value::IntSBorrow(x) => Some(x),
            _ => None,
        }
    }

    /// Whether this value is built by an operator from other values (and so
    /// is printed in parentheses as an operand).
    pub open spec fn spec_is_compound(self) -> bool {
        !(self is Entry || self is Const || self is Offset || self is Load || self is Bind
            || self is Top)
    }

    pub fn is_compound(&self) -> (r: bool)
        ensures
            r == self.spec_is_compound(),
    {
        match self {
            Value::Entry(_) | Value::Const(_) | Value::Offset(_) | Value::Load(_) | Value::Bind(
                _,
            ) | Value::Top => false,
            _ => true,
        }
    }

    // Constructors.

    pub fn entry(vn: VarNode) -> (r: Self)
        ensures
            r == Value::Entry(Entry(vn)),
    {
        Value::Entry(Entry(vn))
    }

    pub fn offset(vn: VarNode, offset: VarNode) -> (r: Self)
        ensures
            r == Value::Offset(Offset(Entry(vn), Const(offset))),
    {
        Value::Offset(Offset(Entry(vn), Const(offset)))
    }

    /// The constant `v` of `size` bytes.
    pub fn const_(v: i64, size: usize) -> (r: Self)
        ensures
            r == const_value(v, size),
    {
        Value::Const(Const(VarNode::new_const(v as u64, (size as u32) as usize)))
    }

    /// The constant `value` of `size` bytes.
    pub fn make_const(value: i64, size: usize) -> (r: Self)
        ensures
            r == const_value(value, size),
    {
        Value::const_(value, size)
    }

    pub fn const_from_varnode(vn: VarNode) -> (r: Self)
        ensures
            r == Value::Const(Const(vn)),
    {
        Value::Const(Const(vn))
    }

    /// The opaque value with identifier `id` and `size` bytes.
    pub fn bind(id: u64, size: usize) -> (r: Self)
        ensures
            r matches Value::Bind(b) && b.spec_id() == id && b.spec_size() == size,
    {
        Value::Bind(Bind(id, size))
    }

    pub fn choice(left: Value, right: Value) -> (r: Self)
        ensures
            r == Value::Choice(Choice(Box::new(left), Box::new(right), max_size(left.spec_size(), right.spec_size()))),
    {
        let s = max_usize(left.size(), right.size());
        Value::Choice(Choice(Box::new(left), Box::new(right), s))
    }

    pub fn xor(left: Value, right: Value) -> (r: Self)
        ensures
            r == Value::Xor(XorExpr(Box::new(left), Box::new(right), max_size(left.spec_size(), right.spec_size()))),
    {
        let s = max_usize(left.size(), right.size());
        Value::Xor(XorExpr(Box::new(left), Box::new(right), s))
    }

    pub fn or(left: Value, right: Value) -> (r: Self)
        ensures
            r == Value::Or(OrExpr(Box::new(left), Box::new(right), max_size(left.spec_size(), right.spec_size()))),
    {
        let s = max_usize(left.size(), right.size());
        Value::Or(OrExpr(Box::new(left), Box::new(right), s))
    }

    pub fn and(left: Value, right: Value) -> (r: Self)
        ensures
            r == Value::And(AndExpr(Box::new(left), Box::new(right), max_size(left.spec_size(), right.spec_size()))),
    {
        let s = max_usize(left.size(), right.size());
        Value::And(AndExpr(Box::new(left), Box::new(right), s))
    }

    pub fn mul_rc(left: Value, right: Value) -> (r: Self)
        ensures
            r == Value::Mul(MulExpr(Box::new(left), Box::new(right), max_size(left.spec_size(), right.spec_size()))),
    {
        let s = max_usize(left.size(), right.size());
        Value::Mul(MulExpr(Box::new(left), Box::new(right), s))
    }

    pub fn add_rc(left: Value, right: Value) -> (r: Self)
        ensures
            r == Value::Add(AddExpr(Box::new(left), Box::new(right), max_size(left.spec_size(), right.spec_size()))),
    {
        let s = max_usize(left.size(), right.size());
        Value::Add(AddExpr(Box::new(left), Box::new(right), s))
    }

    pub fn sub_rc(left: Value, right: Value) -> (r: Self)
        ensures
            r == Value::Sub(SubExpr(Box::new(left), Box::new(right), max_size(left.spec_size(), right.spec_size()))),
    {
        let s = max_usize(left.size(), right.size());
        Value::Sub(SubExpr(Box::new(left), Box::new(right), s))
    }

    pub fn xor_rc(left: Value, right: Value) -> (r: Self)
        ensures
            r == Value::Xor(XorExpr(Box::new(left), Box::new(right), max_size(left.spec_size(), right.spec_size()))),
    {
        Value::xor(left, right)
    }

    pub fn or_rc(left: Value, right: Value) -> (r: Self)
        ensures
            r == Value::Or(OrExpr(Box::new(left), Box::new(right), max_size(left.spec_size(), right.spec_size()))),
    {
        Value::or(left, right)
    }

    pub fn and_rc(left: Value, right: Value) -> (r: Self)
        ensures
            r == Value::And(AndExpr(Box::new(left), Box::new(right), max_size(left.spec_size(), right.spec_size()))),
    {
        Value::and(left, right)
    }

    pub fn bool_negate(child: Value) -> (r: Self)
        ensures
            r == Value::BoolNegate(BoolNegateExpr(Box::new(child))),
    {
        Value::BoolNegate(BoolNegateExpr(Box::new(child)))
    }

    pub fn bool_and(left: Value, right: Value) -> (r: Self)
        ensures
            r == Value::BoolAnd(BoolAndExpr(Box::new(left), Box::new(right))),
    {
        Value::BoolAnd(BoolAndExpr(Box::new(left), Box::new(right)))
    }

    pub fn bool_or(left: Value, right: Value) -> (r: Self)
        ensures
            r == Value::BoolOr(BoolOrExpr(Box::new(left), Box::new(right))),
    {
        Value::BoolOr(BoolOrExpr(Box::new(left), Box::new(right)))
    }

    pub fn bool_xor(left: Value, right: Value) -> (r: Self)
        ensures
            r == Value::BoolXor(BoolXorExpr(Box::new(left), Box::new(right))),
    {
        Value::BoolXor(BoolXorExpr(Box::new(left), Box::new(right)))
    }

    pub fn load(child: Value, size: usize, space: u8) -> (r: Self)
        ensures
            r == Value::Load(Load(Box::new(child), size, space)),
    {
        Value::Load(Load(Box::new(child), size, space))
    }

    pub fn int_equal(left: Value, right: Value) -> (r: Self)
        ensures
            r == Value::IntEqual(IntEqual(Box::new(left), Box::new(right))),
    {
        Value::IntEqual(IntEqual(Box::new(left), Box::new(right)))
    }

    pub fn int_less(left: Value, right: Value) -> (r: Self)
        ensures
            r == Value::IntLess(IntLess(Box::new(left), Box::new(right))),
    {
        Value::IntLess(IntLess(Box::new(left), Box::new(right)))
    }

    pub fn int_sless(left: Value, right: Value) -> (r: Self)
        ensures
            r == Value::IntSLess(IntSLess(Box::new(left), Box::new(right))),
    {
        Value::IntSLess(IntSLess(Box::new(left), Box::new(right)))
    }

    pub fn popcount(child: Value) -> (r: Self)
        ensures
            r == Value::PopCount(PopCount(Box::new(child))),
    {
        Value::PopCount(PopCount(Box::new(child)))
    }

    /// Two's complement negation; the result has the size of `child`.
    pub fn int_2comp(child: Value) -> (r: Self)
        ensures
            r == Value::Int2Comp(Int2CompExpr(Box::new(child), child.spec_size())),
    {
        let s = child.size();
        Value::Int2Comp(Int2CompExpr(Box::new(child), s))
    }

    pub fn int_not_equal(left: Value, right: Value) -> (r: Self)
        ensures
            r == Value::IntNotEqual(IntNotEqual(Box::new(left), Box::new(right))),
    {
        Value::IntNotEqual(IntNotEqual(Box::new(left), Box::new(right)))
    }

    pub fn int_less_equal(left: Value, right: Value) -> (r: Self)
        ensures
            r == Value::IntLessEqual(IntLessEqual(Box::new(left), Box::new(right))),
    {
        Value::IntLessEqual(IntLessEqual(Box::new(left), Box::new(right)))
    }

    pub fn int_sless_equal(left: Value, right: Value) -> (r: Self)
        ensures
            r == Value::IntSLessEqual(IntSLessEqual(Box::new(left), Box::new(right))),
    {
        Value::IntSLessEqual(IntSLessEqual(Box::new(left), Box::new(right)))
    }

    pub fn int_carry(left: Value, right: Value) -> (r: Self)
        ensures
            r == Value::IntCarry(IntCarry(Box::new(left), Box::new(right))),
    {
        Value::IntCarry(IntCarry(Box::new(left), Box::new(right)))
    }

    pub fn int_scarry(left: Value, right: Value) -> (r: Self)
        ensures
            r == Value::IntSCarry(IntSCarry(Box::new(left), Box::new(right))),
    {
        Value::IntSCarry(IntSCarry(Box::new(left), Box::new(right)))
    }

    pub fn int_sborrow(left: Value, right: Value) -> (r: Self)
        ensures
            r == Value::IntSBorrow(IntSBorrow(Box::new(left), Box::new(right))),
    {
        Value::IntSBorrow(IntSBorrow(Box::new(left), Box::new(right)))
    }

    pub fn zero_extend(inner: Value, output_size: usize) -> (r: Self)
        ensures
            r == Value::ZeroExtend(ZeroExtend(Box::new(inner), output_size)),
    {
        Value::ZeroExtend(ZeroExtend(Box::new(inner), output_size))
    }

    pub fn sign_extend(inner: Value, output_size: usize) -> (r: Self)
        ensures
            r == Value::SignExtend(SignExtend(Box::new(inner), output_size)),
    {
        Value::SignExtend(SignExtend(Box::new(inner), output_size))
    }

    /// The `output_size` bytes of `inner` that start at `byte_offset`.
    pub fn extract(inner: Value, byte_offset: usize, output_size: usize) -> (r: Self)
        ensures
            r == Value::Extract(Extract(Box::new(inner), byte_offset, output_size)),
    {
        Value::Extract(Extract(Box::new(inner), byte_offset, output_size))
    }

    /// `inner` shifted left by `shift_amount` bits, of `output_size` bytes.
    pub fn int_left_shift(inner: Value, shift_amount: Value, output_size: usize) -> (r: Self)
        ensures
            r == Value::IntLeftShift(IntLeftShiftExpr(Box::new(inner), Box::new(shift_amount), output_size)),
    {
        Value::IntLeftShift(IntLeftShiftExpr(Box::new(inner), Box::new(shift_amount), output_size))
    }
}


/// A mask of the low `size_bytes` bytes (all bits from 8 bytes on).
pub open spec fn spec_mask_for_size(size_bytes: usize) -> u64 {
    if size_bytes >= 8 {
        u64::MAX
    } else {
        ((1u64 << ((size_bytes * 8) as u64)) - 1) as u64
    }
}

pub fn mask_for_size(size_bytes: usize) -> (r: u64)
    ensures
        r == spec_mask_for_size(size_bytes),
{
    if size_bytes >= 8 {
        u64::MAX
    } else {
        let bits: u64 = (size_bytes * 8) as u64;
        assert(1u64 << bits >= 1) by (bit_vector)
            requires
                bits < 64,
        ;
        (1u64 << bits) - 1
    }
}

/// The bits known to be zero in `val` (a one bit means "zero in `val`"); 0
/// where nothing is known.
pub open spec fn spec_known_zero_bits(val: Value) -> u64
    decreases val,
{
    match val {
        Value::Const(c) => !c.0.offset,
        Value::ZeroExtend(z) => !spec_mask_for_size(z.0.spec_size()),
        Value::IntLeftShift(IntLeftShiftExpr(inner, shift, _)) => match shift.spec_as_const() {
            Some(c) => {
                let s: u64 = if c.offset <= 63 { c.offset } else { 63 };
                let lower: u64 = if s == 0 { 0u64 } else { ((1u64 << s) - 1) as u64 };
                let inner_z = spec_known_zero_bits(*inner);
                lower | checked_shl_or_max(inner_z, s)
            },
            None => 0,
        },
        Value::And(AndExpr(_, right, _)) => match right.spec_as_const() {
            Some(c) => !c.offset,
            None => 0,
        },
        Value::Or(OrExpr(l, r, _)) => spec_known_zero_bits(*l) & spec_known_zero_bits(*r),
        _ => 0,
    }
}

/// `x << s` for a shift of less than 64 bits; all ones otherwise.
pub open spec fn checked_shl_or_max(x: u64, s: u64) -> u64 {
    if s < 64 {
        x << s
    } else {
        u64::MAX
    }
}

pub fn known_zero_bits(val: &Value) -> (r: u64)
    ensures
        r == spec_known_zero_bits(*val),
    decreases val,
{
    match val {
        Value::Const(c) => !c.0.offset,
        Value::ZeroExtend(z) => !mask_for_size(z.0.size()),
        Value::IntLeftShift(IntLeftShiftExpr(inner, shift, _)) => match shift.as_const() {
            Some(c) => {
                let s: u64 = if c.offset <= 63 { c.offset } else { 63 };
                let lower: u64 = if s == 0 {
                    0u64
                } else {
                    assert(1u64 << s >= 1) by (bit_vector)
                        requires
                            s < 64,
                    ;
                    (1u64 << s) - 1
                };
                let inner_z = known_zero_bits(inner);
                let shifted: u64 = if s < 64 { inner_z << s } else { u64::MAX };
                lower | shifted
            },
            None => 0,
        },
        Value::And(AndExpr(_, right, _)) => match right.as_const() {
            Some(c) => !c.offset,
            None => 0,
        },
        Value::Or(OrExpr(l, r, _)) => known_zero_bits(l) & known_zero_bits(r),
        _ => 0,
    }
}

/// The number of one bits of `x`.
pub open spec fn spec_popcount(x: u64) -> nat
    decreases x,
{
    if x == 0 {
        0
    } else {
        (x % 2) as nat + spec_popcount(x / 2)
    }
}

pub fn popcount(x: u64) -> (r: u64)
    ensures
        r == spec_popcount(x),
{
    let mut y = x;
    let mut n: u64 = 0;
    proof {
        lemma_popcount_le(x);
    }
    while y != 0
        invariant
            n + spec_popcount(y) == spec_popcount(x),
            spec_popcount(x) <= x,
        decreases y,
    {
        n = n + y % 2;
        y = y / 2;
    }
    n
}

proof fn lemma_popcount_le(x: u64)
    ensures
        spec_popcount(x) <= x,
    decreases x,
{
    if x != 0 {
        lemma_popcount_le((x / 2) as u64);
    }
}


impl std::ops::Add for Value {
    type Output = Value;

    /// The node `self add rhs`, of the larger of the two sizes.
    fn add(self, rhs: Value) -> (r: Value) {
        let s = max_usize(self.size(), rhs.size());
        Value::Add(AddExpr(Box::new(self), Box::new(rhs), s))
    }
}

impl AddSpecImpl for Value {
    open spec fn obeys_add_spec() -> bool {
        true
    }

    open spec fn add_req(self, rhs: Value) -> bool {
        true
    }

    open spec fn add_spec(self, rhs: Value) -> Value {
        Value::Add(AddExpr(Box::new(self), Box::new(rhs), max_size(self.spec_size(), rhs.spec_size())))
    }
}

impl std::ops::Sub for Value {
    type Output = Value;

    /// The node `self sub rhs`, of the larger of the two sizes.
    fn sub(self, rhs: Value) -> (r: Value) {
        let s = max_usize(self.size(), rhs.size());
        Value::Sub(SubExpr(Box::new(self), Box::new(rhs), s))
    }
}

impl SubSpecImpl for Value {
    open spec fn obeys_sub_spec() -> bool {
        true
    }

    open spec fn sub_req(self, rhs: Value) -> bool {
        true
    }

    open spec fn sub_spec(self, rhs: Value) -> Value {
        Value::Sub(SubExpr(Box::new(self), Box::new(rhs), max_size(self.spec_size(), rhs.spec_size())))
    }
}

impl std::ops::Mul for Value {
    type Output = Value;

    /// The node `self mul rhs`, of the larger of the two sizes.
    fn mul(self, rhs: Value) -> (r: Value) {
        let s = max_usize(self.size(), rhs.size());
        Value::Mul(MulExpr(Box::new(self), Box::new(rhs), s))
    }
}

impl MulSpecImpl for Value {
    open spec fn obeys_mul_spec() -> bool {
        true
    }

    open spec fn mul_req(self, rhs: Value) -> bool {
        true
    }

    open spec fn mul_spec(self, rhs: Value) -> Value {
        Value::Mul(MulExpr(Box::new(self), Box::new(rhs), max_size(self.spec_size(), rhs.spec_size())))
    }
}

impl std::ops::BitXor for Value {
    type Output = Value;

    /// The node `self bitxor rhs`, of the larger of the two sizes.
    fn bitxor(self, rhs: Value) -> (r: Value) {
        let s = max_usize(self.size(), rhs.size());
        Value::Xor(XorExpr(Box::new(self), Box::new(rhs), s))
    }
}

impl BitXorSpecImpl for Value {
    open spec fn obeys_bitxor_spec() -> bool {
        true
    }

    open spec fn bitxor_req(self, rhs: Value) -> bool {
        true
    }

    open spec fn bitxor_spec(self, rhs: Value) -> Value {
        Value::Xor(XorExpr(Box::new(self), Box::new(rhs), max_size(self.spec_size(), rhs.spec_size())))
    }
}

impl std::ops::BitAnd for Value {
    type Output = Value;

    /// The node `self bitand rhs`, of the larger of the two sizes.
    fn bitand(self, rhs: Value) -> (r: Value) {
        let s = max_usize(self.size(), rhs.size());
        Value::And(AndExpr(Box::new(self), Box::new(rhs), s))
    }
}

impl BitAndSpecImpl for Value {
    open spec fn obeys_bitand_spec() -> bool {
        true
    }

    open spec fn bitand_req(self, rhs: Value) -> bool {
        true
    }

    open spec fn bitand_spec(self, rhs: Value) -> Value {
        Value::And(AndExpr(Box::new(self), Box::new(rhs), max_size(self.spec_size(), rhs.spec_size())))
    }
}

impl std::ops::BitOr for Value {
    type Output = Value;

    /// The node `self bitor rhs`, of the larger of the two sizes.
    fn bitor(self, rhs: Value) -> (r: Value) {
        let s = max_usize(self.size(), rhs.size());
        Value::Or(OrExpr(Box::new(self), Box::new(rhs), s))
    }
}

impl BitOrSpecImpl for Value {
    open spec fn obeys_bitor_spec() -> bool {
        true
    }

    open spec fn bitor_req(self, rhs: Value) -> bool {
        true
    }

    open spec fn bitor_spec(self, rhs: Value) -> Value {
        Value::Or(OrExpr(Box::new(self), Box::new(rhs), max_size(self.spec_size(), rhs.spec_size())))
    }
}

/// The mask of the bytes that `insert_bytes` writes: `sub_size` bytes at
/// `byte_offset`, computed with the machine's wrapping shifts.
pub open spec fn insert_clear_mask(sub_size: usize, byte_offset: usize) -> u64 {
    let sub_bits = vstd::wrapping::usize_specs::wrapping_mul(sub_size, 8);
    let ones = vstd::wrapping::u64_specs::wrapping_sub(
        vstd::wrapping::u64_specs::wrapping_shl(1, sub_bits as u32),
        1,
    );
    vstd::wrapping::u64_specs::wrapping_shl(
        ones,
        vstd::wrapping::usize_specs::wrapping_mul(byte_offset, 8) as u32,
    )
}

/// `parent` with the bytes of `sub` written at `byte_offset`:
/// `(parent & keep_mask) | (zext(sub) << (byte_offset * 8))`, where the keep
/// mask clears the written bytes.
pub open spec fn spec_insert_bytes(parent: Value, sub: Value, byte_offset: usize) -> Value {
    let parent_size = parent.spec_size();
    let keep = const_value((!insert_clear_mask(sub.spec_size(), byte_offset)) as i64, parent_size);
    let cleared = Value::And(
        AndExpr(Box::new(parent), Box::new(keep), max_size(parent_size, keep.spec_size())),
    );
    let extended = Value::ZeroExtend(ZeroExtend(Box::new(sub), parent_size));
    let shifted = if byte_offset > 0 {
        Value::IntLeftShift(
            IntLeftShiftExpr(
                Box::new(extended),
                Box::new(
                    const_value(
                        vstd::wrapping::usize_specs::wrapping_mul(byte_offset, 8) as i64,
                        parent_size,
                    ),
                ),
                parent_size,
            ),
        )
    } else {
        extended
    };
    Value::Or(
        OrExpr(Box::new(cleared), Box::new(shifted), max_size(cleared.spec_size(), shifted.spec_size())),
    )
}

impl Value {
    /// Writes the bytes of `sub` into `parent` at `byte_offset`. The masks are
    /// computed with wrapping shifts, so a `sub` as wide as 8 bytes or more
    /// clears nothing.
    pub fn insert_bytes(parent: Value, sub: Value, byte_offset: usize) -> (r: Value)
        ensures
            r == spec_insert_bytes(parent, sub, byte_offset),
    {
        let parent_size = parent.size();
        let sub_size = sub.size();
        let sub_bits = sub_size.wrapping_mul(8);
        let ones = 1u64.wrapping_shl(sub_bits as u32).wrapping_sub(1);
        let shift = byte_offset.wrapping_mul(8);
        let clear_mask_bits: u64 = ones.wrapping_shl(shift as u32);
        let keep_mask_bits: u64 = !clear_mask_bits;
        let mask_val = Value::const_(keep_mask_bits as i64, parent_size);
        let cleared_parent = Value::and(parent, mask_val);
        let extended_sub = Value::zero_extend(sub, parent_size);
        let shifted_sub = if byte_offset > 0 {
            Value::int_left_shift(extended_sub, Value::const_(shift as i64, parent_size), parent_size)
        } else {
            extended_sub
        };
        Value::or(cleared_parent, shifted_sub)
    }
}

} // verus!
