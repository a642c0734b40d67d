//! Bit-vector terms: the expressions over the modelled machine state that
//! p-code operations build, in the theory of arrays and bit-vectors.
use vstd::prelude::*;

verus! {

/// A bit-vector operation of one argument.
#[derive(Debug, Clone, Copy, PartialEq, Eq, Structural)]
pub enum UnaryOp {
    /// Two's-complement negation.
    Neg,
}

/// A bit-vector operation of two arguments of equal width (`Concat` takes
/// any widths and puts its first argument in the high bits).
#[derive(Debug, Clone, Copy, PartialEq, Eq, Structural)]
pub enum BinaryOp {
    Add,
    Sub,
    Mul,
    UDiv,
    SDiv,
    URem,
    SRem,
    And,
    Or,
    Xor,
    Shl,
    LShr,
    AShr,
    Concat,
}

/// A predicate on two bit-vectors of equal width.
#[derive(Debug, Clone, Copy, PartialEq, Eq, Structural)]
pub enum Predicate {
    Eq,
    Ne,
    ULt,
    ULe,
    SLt,
    SLe,
    /// The unsigned sum does not overflow.
    AddNoOverflow,
    /// The signed sum does not overflow.
    SignedAddNoOverflow,
    /// The signed difference does not underflow.
    SignedSubNoUnderflow,
}

/// Which array a selection reads: the data bytes or the one-bit metadata
/// per byte of a space, in the original or the current state, after the
/// first `version` stores of that state's store log. `base` names the
/// initial contents: states with different bases start from unrelated
/// arrays.
#[derive(Debug, Clone, Copy, PartialEq, Eq, Structural)]
pub struct ArrayRef {
    pub base: u64,
    pub original: bool,
    pub space: usize,
    pub meta: bool,
    pub version: usize,
}

/// A bit-vector term.
#[derive(Debug, PartialEq, Eq)]
pub enum Term {
    /// The constant `value` truncated to `bits` bits.
    Const { value: u64, bits: u32 },
    /// The initial program counter of the machine state named `base`: its
    /// machine address (64 bits), or its p-code offset (8 bits) when `pcode`.
    InitialPc { base: u64, pcode: bool },
    /// The element of an array at `offset`.
    Select { array: ArrayRef, offset: Box<Term> },
    Unary { op: UnaryOp, arg: Box<Term> },
    Binary { op: BinaryOp, lhs: Box<Term>, rhs: Box<Term> },
    /// Bits `low..=high` of `arg`.
    Extract { high: u32, low: u32, arg: Box<Term> },
    /// `arg` with `bits` zero bits added at the top.
    ZeroExt { bits: u32, arg: Box<Term> },
    /// `arg` with `bits` copies of its sign bit added at the top.
    SignExt { bits: u32, arg: Box<Term> },
    /// `if_true` when `pred` holds of `lhs` and `rhs`, else `if_false`.
    Ite { pred: Predicate, lhs: Box<Term>, rhs: Box<Term>, if_true: Box<Term>, if_false: Box<Term> },
}

impl Term {
    /// A copy of the term.
    pub fn copy(&self) -> (r: Term)
        ensures
            r == *self,
        decreases self,
    {
        match self {
            Term::Const { value, bits } => Term::Const { value: *value, bits: *bits },
            Term::InitialPc { base, pcode } => Term::InitialPc { base: *base, pcode: *pcode },
            Term::Select { array, offset } => Term::Select { array: *array, offset: Box::new(offset.copy()) },
            Term::Unary { op, arg } => Term::Unary { op: *op, arg: Box::new(arg.copy()) },
            Term::Binary { op, lhs, rhs } => Term::Binary {
                op: *op,
                lhs: Box::new(lhs.copy()),
                rhs: Box::new(rhs.copy()),
            },
            Term::Extract { high, low, arg } => Term::Extract { high: *high, low: *low, arg: Box::new(arg.copy()) },
            Term::ZeroExt { bits, arg } => Term::ZeroExt { bits: *bits, arg: Box::new(arg.copy()) },
            Term::SignExt { bits, arg } => Term::SignExt { bits: *bits, arg: Box::new(arg.copy()) },
            Term::Ite { pred, lhs, rhs, if_true, if_false } => Term::Ite {
                pred: *pred,
                lhs: Box::new(lhs.copy()),
                rhs: Box::new(rhs.copy()),
                if_true: Box::new(if_true.copy()),
                if_false: Box::new(if_false.copy()),
            },
        }
    }
}

/// `Term::Const`.
pub open spec fn cst(value: u64, bits: u32) -> Term {
    Term::Const { value, bits }
}

/// `Term::Binary`.
pub open spec fn bin(op: BinaryOp, lhs: Term, rhs: Term) -> Term {
    Term::Binary { op, lhs: Box::new(lhs), rhs: Box::new(rhs) }
}

/// `Term::Ite`.
pub open spec fn ite(pred: Predicate, lhs: Term, rhs: Term, if_true: Term, if_false: Term) -> Term {
    Term::Ite {
        pred,
        lhs: Box::new(lhs),
        rhs: Box::new(rhs),
        if_true: Box::new(if_true),
        if_false: Box::new(if_false),
    }
}

/// `offset + i`, the constant `i` taking the width `bits` of the offset.
pub open spec fn plus(offset: Term, i: u64, bits: u32) -> Term {
    bin(BinaryOp::Add, offset, cst(i, bits))
}

} // verus!
