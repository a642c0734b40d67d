//! The values that p-code operations compute, as terms over their inputs.
use crate::modeling::term::{BinaryOp, Predicate, Term, UnaryOp, bin, cst, ite};
use vstd::prelude::*;
use vstd::arithmetic::power2::pow2;

verus! {

/// The operations of two inputs and one output.
#[derive(Debug, Clone, Copy, PartialEq, Eq, Structural)]
pub enum BinKind {
    Add,
    Sub,
    And,
    Xor,
    Or,
    Mult,
    Div,
    SignedDiv,
    Rem,
    SignedRem,
    RightShift,
    SignedRightShift,
    LeftShift,
    /// Left shift with the amount cut or zero-extended to the width of the
    /// shifted value, like the right shifts.
    FittedLeftShift,
    Carry,
    SignedCarry,
    SignedBorrow,
    SignedLess,
    SignedLessEqual,
    Less,
    LessEqual,
    Equal,
    NotEqual,
    BoolAnd,
    BoolOr,
    BoolXor,
}

/// The operations of one input and one output.
#[derive(Debug, Clone, Copy, PartialEq, Eq, Structural)]
pub enum UnKind {
    Negate,
    TwosComplement,
    BoolNegate,
    ZeroExtend,
    SignExtend,
}

/// `1` when `pred` holds of `a` and `b`, else `0`, eight bits wide.
pub open spec fn flag(pred: Predicate, a: Term, b: Term) -> Term {
    ite(pred, a, b, cst(1, 8), cst(0, 8))
}

/// `0` when `pred` holds of `a` and `b`, else `1`, eight bits wide.
pub open spec fn inverse_flag(pred: Predicate, a: Term, b: Term) -> Term {
    ite(pred, a, b, cst(0, 8), cst(1, 8))
}

/// `b`, `w1` bits wide, brought to the width `w0`: cut to its low bits or
/// extended with zeros.
pub open spec fn fit_shift(b: Term, w0: u32, w1: u32) -> Term {
    if w0 < w1 {
        Term::Extract { high: (w0 - 1) as u32, low: 0, arg: Box::new(b) }
    } else if w0 > w1 {
        Term::ZeroExt { bits: (w0 - w1) as u32, arg: Box::new(b) }
    } else {
        b
    }
}

/// The value of a two-input operation on `a` (`w0` bits wide) and `b`
/// (`w1` bits wide), with an output of `out_bytes` bytes, and its width.
pub open spec fn bin_value(k: BinKind, a: Term, b: Term, w0: u32, w1: u32, out_bytes: usize) -> (Term, u32) {
    match k {
        BinKind::Add => (bin(BinaryOp::Add, a, b), w0),
        BinKind::Sub => (bin(BinaryOp::Sub, a, b), w0),
        BinKind::And => (bin(BinaryOp::And, a, b), w0),
        BinKind::Xor => (bin(BinaryOp::Xor, a, b), w0),
        BinKind::Or => (bin(BinaryOp::Or, a, b), w0),
        BinKind::Mult => (bin(BinaryOp::Mul, a, b), w0),
        BinKind::Div => (bin(BinaryOp::UDiv, a, b), w0),
        BinKind::SignedDiv => (bin(BinaryOp::SDiv, a, b), w0),
        BinKind::Rem => (bin(BinaryOp::URem, a, b), w0),
        BinKind::SignedRem => (bin(BinaryOp::SRem, a, b), w0),
        BinKind::RightShift => (bin(BinaryOp::LShr, a, fit_shift(b, w0, w1)), w0),
        BinKind::SignedRightShift => (bin(BinaryOp::AShr, a, fit_shift(b, w0, w1)), w0),
        BinKind::FittedLeftShift => (bin(BinaryOp::Shl, a, fit_shift(b, w0, w1)), w0),
        BinKind::LeftShift => if w0 < w1 {
            (bin(BinaryOp::Shl, Term::ZeroExt { bits: (w1 - w0) as u32, arg: Box::new(a) }, b), w1)
        } else if w0 > w1 {
            (bin(BinaryOp::Shl, a, Term::ZeroExt { bits: (w0 - w1) as u32, arg: Box::new(b) }), w0)
        } else {
            (bin(BinaryOp::Shl, a, b), w0)
        },
        BinKind::Carry => (inverse_flag(Predicate::AddNoOverflow, a, b), 8),
        BinKind::SignedCarry => (inverse_flag(Predicate::SignedAddNoOverflow, a, b), 8),
        BinKind::SignedBorrow => (inverse_flag(Predicate::SignedSubNoUnderflow, a, b), 8),
        BinKind::SignedLess => (flag(Predicate::SLt, a, b), 8),
        BinKind::SignedLessEqual => (flag(Predicate::SLe, a, b), 8),
        BinKind::Less => (flag(Predicate::ULt, a, b), 8),
        BinKind::LessEqual => (flag(Predicate::ULe, a, b), 8),
        BinKind::Equal => {
            let bits = (out_bytes * 8) as u32;
            (ite(Predicate::Eq, a, b, cst(1, bits), cst(0, bits)), bits)
        },
        BinKind::NotEqual => {
            let bits = (out_bytes * 8) as u32;
            (ite(Predicate::Ne, a, b, cst(1, bits), cst(0, bits)), bits)
        },
        BinKind::BoolAnd => (bin(BinaryOp::And, bin(BinaryOp::And, a, b), cst(1, w0)), w0),
        BinKind::BoolOr => (bin(BinaryOp::And, bin(BinaryOp::Or, a, b), cst(1, w0)), w0),
        BinKind::BoolXor => (bin(BinaryOp::And, bin(BinaryOp::Xor, a, b), cst(1, w0)), w0),
    }
}

/// The value of a one-input operation on `a`, `w` bits wide, from an input
/// of `in_bytes` bytes to an output of `out_bytes` bytes, and its width.
pub open spec fn un_value(k: UnKind, a: Term, w: u32, in_bytes: usize, out_bytes: usize) -> (Term, u32) {
    let neg = Term::Unary { op: UnaryOp::Neg, arg: Box::new(a) };
    let grow = ((out_bytes - in_bytes) * 8) as u32;
    match k {
        UnKind::Negate => (neg, w),
        UnKind::TwosComplement => (bin(BinaryOp::Add, neg, cst(1, w)), w),
        UnKind::BoolNegate => (bin(BinaryOp::And, neg, cst(1, w)), w),
        UnKind::ZeroExtend => (Term::ZeroExt { bits: grow, arg: Box::new(a) }, (w + grow) as u32),
        UnKind::SignExtend => (Term::SignExt { bits: grow, arg: Box::new(a) }, (w + grow) as u32),
    }
}

/// The sum of bits `0 .. n` of `a`, each extended to `bits` bits, added to
/// zero in that order.
pub open spec fn popcount_term(a: Term, n: nat, bits: u32) -> Term
    decreases n,
{
    if n == 0 {
        cst(0, bits)
    } else {
        let bit = Term::Extract { high: (n - 1) as u32, low: (n - 1) as u32, arg: Box::new(a) };
        bin(BinaryOp::Add, popcount_term(a, (n - 1) as nat, bits), Term::ZeroExt { bits: (bits - 1) as u32, arg: Box::new(bit) })
    }
}

/// `n` one-bits, joined first to last.
pub open spec fn ones(n: nat) -> Term
    decreases n,
{
    if n <= 1 {
        cst(1, 1)
    } else {
        bin(BinaryOp::Concat, ones((n - 1) as nat), cst(1, 1))
    }
}

/// `bin(op, a, b)` built.
fn mk_bin(op: BinaryOp, a: Term, b: Term) -> (r: Term)
    ensures
        r == bin(op, a, b),
{
    Term::Binary { op, lhs: Box::new(a), rhs: Box::new(b) }
}

/// `ite(pred, a, b, yes, no)` built for constants `yes` and `no`.
fn mk_flag(pred: Predicate, a: Term, b: Term, yes: u64, no: u64, bits: u32) -> (r: Term)
    ensures
        r == ite(pred, a, b, cst(yes, bits), cst(no, bits)),
{
    Term::Ite {
        pred,
        lhs: Box::new(a),
        rhs: Box::new(b),
        if_true: Box::new(Term::Const { value: yes, bits }),
        if_false: Box::new(Term::Const { value: no, bits }),
    }
}

/// Computes `bin_value`.
pub fn bin_value_of(k: BinKind, a: Term, b: Term, w0: u32, w1: u32, out_bytes: usize) -> (r: (Term, u32))
    requires
        1 <= w0,
        1 <= w1,
        out_bytes * 8 <= u32::MAX,
    ensures
        r == bin_value(k, a, b, w0, w1, out_bytes),
{
    match k {
        BinKind::Add => (mk_bin(BinaryOp::Add, a, b), w0),
        BinKind::Sub => (mk_bin(BinaryOp::Sub, a, b), w0),
        BinKind::And => (mk_bin(BinaryOp::And, a, b), w0),
        BinKind::Xor => (mk_bin(BinaryOp::Xor, a, b), w0),
        BinKind::Or => (mk_bin(BinaryOp::Or, a, b), w0),
        BinKind::Mult => (mk_bin(BinaryOp::Mul, a, b), w0),
        BinKind::Div => (mk_bin(BinaryOp::UDiv, a, b), w0),
        BinKind::SignedDiv => (mk_bin(BinaryOp::SDiv, a, b), w0),
        BinKind::Rem => (mk_bin(BinaryOp::URem, a, b), w0),
        BinKind::SignedRem => (mk_bin(BinaryOp::SRem, a, b), w0),
        BinKind::RightShift | BinKind::SignedRightShift | BinKind::FittedLeftShift => {
            let op = if k == BinKind::RightShift {
                BinaryOp::LShr
            } else if k == BinKind::SignedRightShift {
                BinaryOp::AShr
            } else {
                BinaryOp::Shl
            };
            let fitted = if w0 < w1 {
                Term::Extract { high: w0 - 1, low: 0, arg: Box::new(b) }
            } else if w0 > w1 {
                Term::ZeroExt { bits: w0 - w1, arg: Box::new(b) }
            } else {
                b
            };
            (mk_bin(op, a, fitted), w0)
        },
        BinKind::LeftShift => {
            if w0 < w1 {
                (mk_bin(BinaryOp::Shl, Term::ZeroExt { bits: w1 - w0, arg: Box::new(a) }, b), w1)
            } else if w0 > w1 {
                (mk_bin(BinaryOp::Shl, a, Term::ZeroExt { bits: w0 - w1, arg: Box::new(b) }), w0)
            } else {
                (mk_bin(BinaryOp::Shl, a, b), w0)
            }
        },
        BinKind::Carry => (mk_flag(Predicate::AddNoOverflow, a, b, 0, 1, 8), 8),
        BinKind::SignedCarry => (mk_flag(Predicate::SignedAddNoOverflow, a, b, 0, 1, 8), 8),
        BinKind::SignedBorrow => (mk_flag(Predicate::SignedSubNoUnderflow, a, b, 0, 1, 8), 8),
        BinKind::SignedLess => (mk_flag(Predicate::SLt, a, b, 1, 0, 8), 8),
        BinKind::SignedLessEqual => (mk_flag(Predicate::SLe, a, b, 1, 0, 8), 8),
        BinKind::Less => (mk_flag(Predicate::ULt, a, b, 1, 0, 8), 8),
        BinKind::LessEqual => (mk_flag(Predicate::ULe, a, b, 1, 0, 8), 8),
        BinKind::Equal => {
            let bits = (out_bytes * 8) as u32;
            (mk_flag(Predicate::Eq, a, b, 1, 0, bits), bits)
        },
        BinKind::NotEqual => {
            let bits = (out_bytes * 8) as u32;
            (mk_flag(Predicate::Ne, a, b, 1, 0, bits), bits)
        },
        BinKind::BoolAnd => (mk_bin(BinaryOp::And, mk_bin(BinaryOp::And, a, b), Term::Const { value: 1, bits: w0 }), w0),
        BinKind::BoolOr => (mk_bin(BinaryOp::And, mk_bin(BinaryOp::Or, a, b), Term::Const { value: 1, bits: w0 }), w0),
        BinKind::BoolXor => (mk_bin(BinaryOp::And, mk_bin(BinaryOp::Xor, a, b), Term::Const { value: 1, bits: w0 }), w0),
    }
}

/// Computes `un_value`.
pub fn un_value_of(k: UnKind, a: Term, w: u32, in_bytes: usize, out_bytes: usize) -> (r: (Term, u32))
    requires
        w == in_bytes * 8,
        k is ZeroExtend || k is SignExtend ==> in_bytes <= out_bytes,
        out_bytes * 8 <= u32::MAX,
    ensures
        r == un_value(k, a, w, in_bytes, out_bytes),
{
    let grow = if in_bytes <= out_bytes { ((out_bytes - in_bytes) * 8) as u32 } else { 0 };
    match k {
        UnKind::Negate => (Term::Unary { op: UnaryOp::Neg, arg: Box::new(a) }, w),
        UnKind::TwosComplement => (mk_bin(BinaryOp::Add, Term::Unary { op: UnaryOp::Neg, arg: Box::new(a) }, Term::Const { value: 1, bits: w }), w),
        UnKind::BoolNegate => (mk_bin(BinaryOp::And, Term::Unary { op: UnaryOp::Neg, arg: Box::new(a) }, Term::Const { value: 1, bits: w }), w),
        UnKind::ZeroExtend => (Term::ZeroExt { bits: grow, arg: Box::new(a) }, w + grow),
        UnKind::SignExtend => (Term::SignExt { bits: grow, arg: Box::new(a) }, w + grow),
    }
}

/// Computes `popcount_term(a, bits, bits)`.
pub fn popcount_of(a: &Term, bits: u32) -> (r: Term)
    requires
        1 <= bits,
    ensures
        r == popcount_term(*a, bits as nat, bits),
{
    let mut acc = Term::Const { value: 0, bits };
    let mut i: u32 = 0;
    while i < bits
        invariant
            i <= bits,
            1 <= bits,
            acc == popcount_term(*a, i as nat, bits),
        decreases bits - i,
    {
        let bit = Term::Extract { high: i, low: i, arg: Box::new(a.copy()) };
        acc = mk_bin(BinaryOp::Add, acc, Term::ZeroExt { bits: bits - 1, arg: Box::new(bit) });
        i = i + 1;
    }
    acc
}

/// Computes `ones(n)`.
pub fn ones_of(n: usize) -> (r: Term)
    requires
        1 <= n,
    ensures
        r == ones(n as nat),
{
    let mut acc = Term::Const { value: 1, bits: 1 };
    let mut i: usize = 1;
    while i < n
        invariant
            1 <= i <= n,
            acc == ones(i as nat),
        decreases n - i,
    {
        acc = mk_bin(BinaryOp::Concat, acc, Term::Const { value: 1, bits: 1 });
        i = i + 1;
    }
    acc
}

/// `x`, a `w`-bit pattern, read as a two's-complement number.
pub open spec fn to_signed(x: int, w: nat) -> int {
    if x >= pow2((w - 1) as nat) { x - pow2(w) } else { x }
}

/// Whether `pred` holds of the `w`-bit patterns `x` and `y` (as the SMT
/// solver reads the predicates: the signed-overflow checks look at one
/// direction each).
pub open spec fn pred_holds(pred: Predicate, x: int, y: int, w: nat) -> bool {
    match pred {
        Predicate::Eq => x == y,
        Predicate::Ne => x != y,
        Predicate::ULt => x < y,
        Predicate::ULe => x <= y,
        Predicate::SLt => to_signed(x, w) < to_signed(y, w),
        Predicate::SLe => to_signed(x, w) <= to_signed(y, w),
        Predicate::AddNoOverflow => x + y < pow2(w),
        Predicate::SignedAddNoOverflow => to_signed(x, w) + to_signed(y, w) < pow2((w - 1) as nat),
        Predicate::SignedSubNoUnderflow => to_signed(x, w) - to_signed(y, w) >= -pow2((w - 1) as nat),
    }
}

/// What a flag term over `a` and `b` evaluates to when `a` is the pattern
/// `x` and `b` the pattern `y`, both `w` bits wide: the first constant when
/// its predicate holds, the second otherwise; `None` for a term of another
/// shape or over other operands.
pub open spec fn flag_meaning(t: Term, a: Term, b: Term, x: int, y: int, w: nat) -> Option<int> {
    match t {
        Term::Ite { pred, lhs, rhs, if_true, if_false } => match (*if_true, *if_false) {
            (Term::Const { value: v1, .. }, Term::Const { value: v0, .. }) => if *lhs == a && *rhs == b {
                Some(if pred_holds(pred, x, y, w) { v1 as int } else { v0 as int })
            } else {
                None
            },
            _ => None,
        },
        _ => None,
    }
}

/// The comparison and carry operations give, for inputs `a` and `b` that
/// hold the `w`-bit patterns `x` and `y`, a flag that is 1 exactly when:
/// `x < y` (INT_LESS, strict: equal inputs give 0), `x <= y`
/// (INT_LESSEQUAL), the same read as signed numbers (INT_SLESS,
/// INT_SLESSEQUAL), `x == y` (INT_EQUAL), `x != y` (INT_NOTEQUAL), the
/// unsigned sum does not fit `w` bits (INT_CARRY), the signed sum exceeds
/// the largest signed value (INT_SCARRY), or the signed difference falls
/// below the smallest (INT_SBORROW); and 0 otherwise. The flag is one byte,
/// but the output's size for equality and inequality.
pub proof fn lemma_flag_meanings(a: Term, b: Term, w: u32, out: usize, x: int, y: int)
    ensures
        bin_value(BinKind::Less, a, b, w, w, out).1 == 8,
        flag_meaning(bin_value(BinKind::Less, a, b, w, w, out).0, a, b, x, y, w as nat) == Some(if x < y { 1int } else { 0 }),
        flag_meaning(bin_value(BinKind::LessEqual, a, b, w, w, out).0, a, b, x, y, w as nat) == Some(if x <= y { 1int } else { 0 }),
        flag_meaning(bin_value(BinKind::SignedLess, a, b, w, w, out).0, a, b, x, y, w as nat)
            == Some(if to_signed(x, w as nat) < to_signed(y, w as nat) { 1int } else { 0 }),
        flag_meaning(bin_value(BinKind::SignedLessEqual, a, b, w, w, out).0, a, b, x, y, w as nat)
            == Some(if to_signed(x, w as nat) <= to_signed(y, w as nat) { 1int } else { 0 }),
        flag_meaning(bin_value(BinKind::Equal, a, b, w, w, out).0, a, b, x, y, w as nat) == Some(if x == y { 1int } else { 0 }),
        flag_meaning(bin_value(BinKind::NotEqual, a, b, w, w, out).0, a, b, x, y, w as nat) == Some(if x != y { 1int } else { 0 }),
        flag_meaning(bin_value(BinKind::Carry, a, b, w, w, out).0, a, b, x, y, w as nat)
            == Some(if x + y >= pow2(w as nat) { 1int } else { 0 }),
        flag_meaning(bin_value(BinKind::SignedCarry, a, b, w, w, out).0, a, b, x, y, w as nat)
            == Some(if to_signed(x, w as nat) + to_signed(y, w as nat) >= pow2((w - 1) as nat) { 1int } else { 0 }),
        flag_meaning(bin_value(BinKind::SignedBorrow, a, b, w, w, out).0, a, b, x, y, w as nat)
            == Some(if to_signed(x, w as nat) - to_signed(y, w as nat) < -pow2((w - 1) as nat) { 1int } else { 0 }),
        bin_value(BinKind::LessEqual, a, b, w, w, out).1 == 8,
        bin_value(BinKind::SignedLess, a, b, w, w, out).1 == 8,
        bin_value(BinKind::SignedLessEqual, a, b, w, w, out).1 == 8,
        bin_value(BinKind::Equal, a, b, w, w, out).1 == (out * 8) as u32,
        bin_value(BinKind::NotEqual, a, b, w, w, out).1 == (out * 8) as u32,
{
}

/// What the arithmetic operation `op` gives on the `w`-bit patterns `x` and
/// `y`, as a `w`-bit pattern (division by zero giving all ones, remainder
/// by zero the dividend); `None` for the other operations.
pub open spec fn arith_meaning(op: BinaryOp, x: int, y: int, w: nat) -> Option<int> {
    match op {
        BinaryOp::Add => Some((x + y) % (pow2(w) as int)),
        BinaryOp::Sub => Some((x - y) % (pow2(w) as int)),
        BinaryOp::Mul => Some((x * y) % (pow2(w) as int)),
        BinaryOp::UDiv => Some(if y == 0 { pow2(w) - 1 } else { x / y }),
        BinaryOp::URem => Some(if y == 0 { x } else { x % y }),
        _ => None,
    }
}

/// What a term applying an arithmetic operation to `a` and `b`, in that
/// order, gives when `a` holds `x` and `b` holds `y`; `None` for a term of
/// another shape or over other operands.
pub open spec fn term_meaning(t: Term, a: Term, b: Term, x: int, y: int, w: nat) -> Option<int> {
    match t {
        Term::Binary { op, lhs, rhs } => if *lhs == a && *rhs == b { arith_meaning(op, x, y, w) } else { None },
        _ => None,
    }
}

/// The arithmetic operations give, for inputs `a` and `b` that hold the
/// `w`-bit patterns `x` and `y`, a `w`-bit value that is: the sum, the
/// difference `x - y` (first input minus second), the product, the unsigned
/// quotient `x / y` and the unsigned remainder `x % y`, each modulo 2^w.
pub proof fn lemma_arith_meanings(a: Term, b: Term, w: u32, out: usize, x: int, y: int)
    ensures
        term_meaning(bin_value(BinKind::Add, a, b, w, w, out).0, a, b, x, y, w as nat) == Some((x + y) % (pow2(w as nat) as int)),
        term_meaning(bin_value(BinKind::Sub, a, b, w, w, out).0, a, b, x, y, w as nat) == Some((x - y) % (pow2(w as nat) as int)),
        term_meaning(bin_value(BinKind::Mult, a, b, w, w, out).0, a, b, x, y, w as nat) == Some((x * y) % (pow2(w as nat) as int)),
        term_meaning(bin_value(BinKind::Div, a, b, w, w, out).0, a, b, x, y, w as nat)
            == Some(if y == 0 { pow2(w as nat) - 1 } else { x / y }),
        term_meaning(bin_value(BinKind::Rem, a, b, w, w, out).0, a, b, x, y, w as nat)
            == Some(if y == 0 { x } else { x % y }),
        bin_value(BinKind::Add, a, b, w, w, out).1 == w,
        bin_value(BinKind::Sub, a, b, w, w, out).1 == w,
        bin_value(BinKind::Mult, a, b, w, w, out).1 == w,
        bin_value(BinKind::Div, a, b, w, w, out).1 == w,
        bin_value(BinKind::Rem, a, b, w, w, out).1 == w,
{
}

/// What a term applying a bitwise or shift operation to `a` and `b`, in
/// that order, gives on 64-bit patterns when `a` holds `x` and `b` holds
/// `y`: bit by bit and, or, exclusive or; `x` shifted left, right with
/// zeros, or right with copies of its sign bit by `y` places (all bits
/// shifted out at 64 or more); `None` for a term of another shape or over
/// other operands.
pub open spec fn word_meaning(t: Term, a: Term, b: Term, x: u64, y: u64) -> Option<u64> {
    match t {
        Term::Binary { op, lhs, rhs } => if *lhs == a && *rhs == b {
            match op {
                BinaryOp::And => Some(x & y),
                BinaryOp::Or => Some(x | y),
                BinaryOp::Xor => Some(x ^ y),
                BinaryOp::Shl => Some(if y < 64 { x << y } else { 0 }),
                BinaryOp::LShr => Some(if y < 64 { x >> y } else { 0 }),
                BinaryOp::AShr => Some(
                    if y < 64 {
                        ((x as i64) >> y) as u64
                    } else if (x as i64) < 0 {
                        u64::MAX
                    } else {
                        0
                    },
                ),
                _ => None,
            }
        } else {
            None
        },
        _ => None,
    }
}

/// On two 64-bit inputs `a` and `b` that hold `x` and `y`, the bitwise
/// operations give `x & y`, `x | y` and `x ^ y`, and the shifts move the
/// first input by the second: left, right with zeros, right keeping the
/// sign; each result 64 bits wide.
pub proof fn lemma_word_meanings(a: Term, b: Term, out: usize, x: u64, y: u64)
    ensures
        word_meaning(bin_value(BinKind::And, a, b, 64, 64, out).0, a, b, x, y) == Some(x & y),
        word_meaning(bin_value(BinKind::Or, a, b, 64, 64, out).0, a, b, x, y) == Some(x | y),
        word_meaning(bin_value(BinKind::Xor, a, b, 64, 64, out).0, a, b, x, y) == Some(x ^ y),
        word_meaning(bin_value(BinKind::LeftShift, a, b, 64, 64, out).0, a, b, x, y)
            == Some(if y < 64 { x << y } else { 0 }),
        word_meaning(bin_value(BinKind::FittedLeftShift, a, b, 64, 64, out).0, a, b, x, y)
            == Some(if y < 64 { x << y } else { 0 }),
        word_meaning(bin_value(BinKind::RightShift, a, b, 64, 64, out).0, a, b, x, y)
            == Some(if y < 64 { x >> y } else { 0 }),
        word_meaning(bin_value(BinKind::SignedRightShift, a, b, 64, 64, out).0, a, b, x, y)
            == Some(if y < 64 { ((x as i64) >> y) as u64 } else if (x as i64) < 0 { u64::MAX } else { 0 }),
        bin_value(BinKind::And, a, b, 64, 64, out).1 == 64,
        bin_value(BinKind::Or, a, b, 64, 64, out).1 == 64,
        bin_value(BinKind::Xor, a, b, 64, 64, out).1 == 64,
        bin_value(BinKind::LeftShift, a, b, 64, 64, out).1 == 64,
        bin_value(BinKind::RightShift, a, b, 64, 64, out).1 == 64,
        bin_value(BinKind::SignedRightShift, a, b, 64, 64, out).1 == 64,
{
}

} // verus!
