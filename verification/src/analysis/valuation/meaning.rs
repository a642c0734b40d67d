//! What the arithmetic values of the valuation analysis mean: under a choice
//! of numbers for the locations' entry values, an entry is its number, a
//! constant its offset, and a sum, difference or product the sum,
//! difference or product of what its operands mean (as integers, before
//! any wrapping to the value's size). Read as 64-bit patterns, the bitwise
//! operations, shifts and comparisons get their meaning too.
use crate::analysis::valuation::state::ValuationState;
use crate::analysis::valuation::value::{
    AddExpr, AndExpr, Const, Entry, IntEqual, IntLeftShiftExpr, IntLess, IntLessEqual, IntNotEqual,
    IntRightShiftExpr, IntSLess, IntSLessEqual, MulExpr, OrExpr, SubExpr, Value, XorExpr,
};
use crate::sleigh::{PcodeOperation, VarNode};
use vstd::prelude::*;
use vstd::wrapping::u64_specs;

verus! {

/// The number that `v` stands for when each location's entry value is
/// `env` of it; `None` for values outside this arithmetic.
pub open spec fn eval_value(v: Value, env: spec_fn(VarNode) -> int) -> Option<int>
    decreases v,
{
    match v {
        Value::Entry(Entry(vn)) => Some(env(vn)),
        Value::Const(Const(vn)) => Some(vn.offset as int),
        Value::Add(AddExpr(a, b, _)) => match (eval_value(*a, env), eval_value(*b, env)) {
            (Some(x), Some(y)) => Some(x + y),
            _ => None,
        },
        Value::Sub(SubExpr(a, b, _)) => match (eval_value(*a, env), eval_value(*b, env)) {
            (Some(x), Some(y)) => Some(x - y),
            _ => None,
        },
        Value::Mul(MulExpr(a, b, _)) => match (eval_value(*a, env), eval_value(*b, env)) {
            (Some(x), Some(y)) => Some(x * y),
            _ => None,
        },
        _ => None,
    }
}

/// Both numbers, combined by `f`, when both are known.
pub open spec fn both(x: Option<int>, y: Option<int>, f: spec_fn(int, int) -> int) -> Option<int> {
    match (x, y) {
        (Some(a), Some(b)) => Some(f(a, b)),
        _ => None,
    }
}

/// A subtraction writes, to its output, a value that means what `input0`
/// reads minus what `input1` reads (minuend first), whatever the entry
/// values are.
pub proof fn lemma_sub_meaning(st: ValuationState, output: VarNode, input0: VarNode, input1: VarNode, env: spec_fn(VarNode) -> int)
    ensures
        st.spec_op_write(PcodeOperation::IntSub { output, input0, input1 }) matches Some((o, v)) && o == output
            && eval_value(v, env) == both(
            eval_value(st.spec_read_vn(input0), env),
            eval_value(st.spec_read_vn(input1), env),
            |a: int, b: int| a - b,
        ),
{
    reveal(ValuationState::spec_op_write);
}

/// An addition writes, to its output, a value that means the sum of what
/// `input0` and `input1` read, whatever the entry values are.
pub proof fn lemma_add_meaning(st: ValuationState, output: VarNode, input0: VarNode, input1: VarNode, env: spec_fn(VarNode) -> int)
    ensures
        st.spec_op_write(PcodeOperation::IntAdd { output, input0, input1 }) matches Some((o, v)) && o == output
            && eval_value(v, env) == both(
            eval_value(st.spec_read_vn(input0), env),
            eval_value(st.spec_read_vn(input1), env),
            |a: int, b: int| a + b,
        ),
{
    reveal(ValuationState::spec_op_write);
}

/// A multiplication writes, to its output, a value that means the product
/// of what `input0` and `input1` read, whatever the entry values are.
pub proof fn lemma_mult_meaning(st: ValuationState, output: VarNode, input0: VarNode, input1: VarNode, env: spec_fn(VarNode) -> int)
    ensures
        st.spec_op_write(PcodeOperation::IntMult { output, input0, input1 }) matches Some((o, v)) && o == output
            && eval_value(v, env) == both(
            eval_value(st.spec_read_vn(input0), env),
            eval_value(st.spec_read_vn(input1), env),
            |a: int, b: int| a * b,
        ),
{
    reveal(ValuationState::spec_op_write);
}

/// A copy from a location that is not a constant writes what its input
/// reads.
pub proof fn lemma_copy_meaning(st: ValuationState, output: VarNode, input: VarNode)
    requires
        input.space_index != crate::sleigh::CONST_SPACE_INDEX,
    ensures
        st.spec_op_write(PcodeOperation::Copy { output, input }) == Some((output, st.spec_read_vn(input))),
{
    reveal(ValuationState::spec_op_write);
}

/// The 64-bit pattern that `v` stands for when each location's entry value
/// is the pattern `env` of it: arithmetic wraps modulo 2^64, `^`, `&` and
/// `|` act bit by bit, shifts by 64 or more give zero, and a comparison is
/// 1 when it holds and 0 when not (signed ones read the patterns as signed
/// 64-bit numbers); `None` for values outside these operations.
pub open spec fn eval_bits(v: Value, env: spec_fn(VarNode) -> u64) -> Option<u64>
    decreases v,
{
    match v {
        Value::Entry(Entry(vn)) => Some(env(vn)),
        Value::Const(Const(vn)) => Some(vn.offset),
        Value::Add(AddExpr(a, b, _)) => match (eval_bits(*a, env), eval_bits(*b, env)) {
            (Some(x), Some(y)) => Some(u64_specs::wrapping_add(x, y)),
            _ => None,
        },
        Value::Sub(SubExpr(a, b, _)) => match (eval_bits(*a, env), eval_bits(*b, env)) {
            (Some(x), Some(y)) => Some(u64_specs::wrapping_sub(x, y)),
            _ => None,
        },
        Value::Mul(MulExpr(a, b, _)) => match (eval_bits(*a, env), eval_bits(*b, env)) {
            (Some(x), Some(y)) => Some(u64_specs::wrapping_mul(x, y)),
            _ => None,
        },
        Value::Xor(XorExpr(a, b, _)) => match (eval_bits(*a, env), eval_bits(*b, env)) {
            (Some(x), Some(y)) => Some(x ^ y),
            _ => None,
        },
        Value::And(AndExpr(a, b, _)) => match (eval_bits(*a, env), eval_bits(*b, env)) {
            (Some(x), Some(y)) => Some(x & y),
            _ => None,
        },
        Value::Or(OrExpr(a, b, _)) => match (eval_bits(*a, env), eval_bits(*b, env)) {
            (Some(x), Some(y)) => Some(x | y),
            _ => None,
        },
        Value::IntLeftShift(IntLeftShiftExpr(a, b, _)) => match (eval_bits(*a, env), eval_bits(*b, env)) {
            (Some(x), Some(y)) => Some(if y < 64 { x << y } else { 0 }),
            _ => None,
        },
        Value::IntRightShift(IntRightShiftExpr(a, b, _)) => match (eval_bits(*a, env), eval_bits(*b, env)) {
            (Some(x), Some(y)) => Some(if y < 64 { x >> y } else { 0 }),
            _ => None,
        },
        Value::IntEqual(IntEqual(a, b)) => match (eval_bits(*a, env), eval_bits(*b, env)) {
            (Some(x), Some(y)) => Some(if x == y { 1 } else { 0 }),
            _ => None,
        },
        Value::IntNotEqual(IntNotEqual(a, b)) => match (eval_bits(*a, env), eval_bits(*b, env)) {
            (Some(x), Some(y)) => Some(if x != y { 1 } else { 0 }),
            _ => None,
        },
        Value::IntLess(IntLess(a, b)) => match (eval_bits(*a, env), eval_bits(*b, env)) {
            (Some(x), Some(y)) => Some(if x < y { 1 } else { 0 }),
            _ => None,
        },
        Value::IntLessEqual(IntLessEqual(a, b)) => match (eval_bits(*a, env), eval_bits(*b, env)) {
            (Some(x), Some(y)) => Some(if x <= y { 1 } else { 0 }),
            _ => None,
        },
        Value::IntSLess(IntSLess(a, b)) => match (eval_bits(*a, env), eval_bits(*b, env)) {
            (Some(x), Some(y)) => Some(if (x as i64) < (y as i64) { 1 } else { 0 }),
            _ => None,
        },
        Value::IntSLessEqual(IntSLessEqual(a, b)) => match (eval_bits(*a, env), eval_bits(*b, env)) {
            (Some(x), Some(y)) => Some(if (x as i64) <= (y as i64) { 1 } else { 0 }),
            _ => None,
        },
        _ => None,
    }
}

/// Both patterns, combined by `f`, when both are known.
pub open spec fn both_bits(x: Option<u64>, y: Option<u64>, f: spec_fn(u64, u64) -> u64) -> Option<u64> {
    match (x, y) {
        (Some(a), Some(b)) => Some(f(a, b)),
        _ => None,
    }
}

/// On 64-bit patterns, the two-input operations write a value that means
/// the operation applied to what `input0` and `input1` read, in that order:
/// wrapping sum, difference (minuend first) and product, and bitwise
/// exclusive or, and, or.
pub proof fn lemma_op_write_bits(st: ValuationState, output: VarNode, input0: VarNode, input1: VarNode, env: spec_fn(VarNode) -> u64)
    ensures
        ({
            let x = eval_bits(st.spec_read_vn(input0), env);
            let y = eval_bits(st.spec_read_vn(input1), env);
            &&& st.spec_op_write(PcodeOperation::IntAdd { output, input0, input1 }) matches Some((o, v)) && o == output
                && eval_bits(v, env) == both_bits(x, y, |a: u64, b: u64| u64_specs::wrapping_add(a, b))
            &&& st.spec_op_write(PcodeOperation::IntSub { output, input0, input1 }) matches Some((o, v)) && o == output
                && eval_bits(v, env) == both_bits(x, y, |a: u64, b: u64| u64_specs::wrapping_sub(a, b))
            &&& st.spec_op_write(PcodeOperation::IntMult { output, input0, input1 }) matches Some((o, v)) && o == output
                && eval_bits(v, env) == both_bits(x, y, |a: u64, b: u64| u64_specs::wrapping_mul(a, b))
            &&& st.spec_op_write(PcodeOperation::IntXor { output, input0, input1 }) matches Some((o, v)) && o == output
                && eval_bits(v, env) == both_bits(x, y, |a: u64, b: u64| a ^ b)
            &&& st.spec_op_write(PcodeOperation::IntAnd { output, input0, input1 }) matches Some((o, v)) && o == output
                && eval_bits(v, env) == both_bits(x, y, |a: u64, b: u64| a & b)
            &&& st.spec_op_write(PcodeOperation::IntOr { output, input0, input1 }) matches Some((o, v)) && o == output
                && eval_bits(v, env) == both_bits(x, y, |a: u64, b: u64| a | b)
        }),
{
    reveal(ValuationState::spec_op_write);
}

/// On 64-bit patterns, shifts and comparisons write a value that means the
/// operation applied to what `input0` and `input1` read, in that order: the
/// first input is shifted by the second, and the comparisons are 1 exactly
/// when `x == y`, `x != y`, `x < y` (strict), `x <= y`, and the same two
/// read as signed numbers, for `x` read from `input0` and `y` from `input1`.
pub proof fn lemma_op_write_compare_bits(st: ValuationState, output: VarNode, input0: VarNode, input1: VarNode, env: spec_fn(VarNode) -> u64)
    ensures
        ({
            let x = eval_bits(st.spec_read_vn(input0), env);
            let y = eval_bits(st.spec_read_vn(input1), env);
            &&& st.spec_op_write(PcodeOperation::IntLeftShift { output, input0, input1 }) matches Some((o, v)) && o == output
                && eval_bits(v, env) == both_bits(x, y, |a: u64, b: u64| if b < 64 { a << b } else { 0 })
            &&& st.spec_op_write(PcodeOperation::IntRightShift { output, input0, input1 }) matches Some((o, v)) && o == output
                && eval_bits(v, env) == both_bits(x, y, |a: u64, b: u64| if b < 64 { a >> b } else { 0 })
            &&& st.spec_op_write(PcodeOperation::IntEqual { output, input0, input1 }) matches Some((o, v)) && o == output
                && eval_bits(v, env) == both_bits(x, y, |a: u64, b: u64| if a == b { 1 } else { 0 })
            &&& st.spec_op_write(PcodeOperation::IntNotEqual { output, input0, input1 }) matches Some((o, v)) && o == output
                && eval_bits(v, env) == both_bits(x, y, |a: u64, b: u64| if a != b { 1 } else { 0 })
            &&& st.spec_op_write(PcodeOperation::IntLess { output, input0, input1 }) matches Some((o, v)) && o == output
                && eval_bits(v, env) == both_bits(x, y, |a: u64, b: u64| if a < b { 1 } else { 0 })
            &&& st.spec_op_write(PcodeOperation::IntLessEqual { output, input0, input1 }) matches Some((o, v)) && o == output
                && eval_bits(v, env) == both_bits(x, y, |a: u64, b: u64| if a <= b { 1 } else { 0 })
            &&& st.spec_op_write(PcodeOperation::IntSignedLess { output, input0, input1 }) matches Some((o, v)) && o == output
                && eval_bits(v, env) == both_bits(x, y, |a: u64, b: u64| if (a as i64) < (b as i64) { 1 } else { 0 })
            &&& st.spec_op_write(PcodeOperation::IntSignedLessEqual { output, input0, input1 }) matches Some((o, v)) && o == output
                && eval_bits(v, env) == both_bits(x, y, |a: u64, b: u64| if (a as i64) <= (b as i64) { 1 } else { 0 })
        }),
{
    reveal(ValuationState::spec_op_write);
}

} // verus!
