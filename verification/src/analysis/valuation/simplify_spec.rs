//! The rewrite rules of the simplifier, as a function on values: constant
//! folding, identities, canonical operand order, and the rules that see
//! through the masks and shifts that partial register writes leave.
//!
//! `simp(v, fuel)` is the simplified form of `v`, and whether it differs from
//! `v` as a node (`false` means `v` itself came back). Each step down the
//! term, and each re-simplification of a rewritten term, spends one unit of
//! `fuel`; a term met with no fuel left comes back unchanged.
use crate::analysis::valuation::value::{
    AddExpr, AndExpr, BoolNegateExpr, BoolXorExpr, Choice, Entry, Extract, Int2CompExpr,
    IntEqual, IntLess, IntLessEqual, IntNotEqual, IntSLess, IntSLessEqual, IntLeftShiftExpr,
    IntRightShiftExpr, IntSignedRightShiftExpr, Load, MulExpr, OrExpr, PopCount, SignExtend,
    SubExpr, Value, XorExpr, ZeroExtend, const_value, max_size, spec_known_zero_bits,
    spec_mask_for_size, spec_popcount, BoolAndExpr, BoolOrExpr, IntCarry, IntSCarry, IntSBorrow,
    Offset, Const,
};
use crate::sleigh::{CONST_SPACE_INDEX, VarNode};
use vstd::prelude::*;
use vstd::wrapping::{i64_specs, u64_specs};

verus! {

pub open spec fn derive_size(v: Value) -> usize {
    if v.spec_size() == 0 { 8 } else { v.spec_size() }
}

/// The constant of a value, read as a signed 64-bit number.
pub open spec fn const_i64(v: Value) -> i64 {
    v.spec_as_const()->0.offset as i64
}

/// The constant of a value, as its raw 64 bits.
pub open spec fn const_u64(v: Value) -> u64 {
    v.spec_as_const()->0.offset
}

pub open spec fn is_const(v: Value) -> bool {
    v.spec_as_const() is Some
}

/// Puts a constant operand of a commutative operator on the right; the flag
/// says whether the operands were swapped.
pub open spec fn normalize_commutative(l: Value, r: Value) -> (Value, Value, bool) {
    if is_const(l) && !is_const(r) {
        (r, l, true)
    } else {
        (l, r, false)
    }
}

/// Puts a choice operand of a choice on the right.
pub open spec fn normalize_choice(l: Value, r: Value) -> (Value, Value, bool) {
    if l is Choice && !(r is Choice) {
        (r, l, true)
    } else {
        (l, r, false)
    }
}

/// The rank of a value's kind, which orders the operands of a choice.
pub open spec fn variant_rank(v: Value) -> u8 {
    match v {
        Value::Const(_) => 0,
        Value::Entry(_) => 1,
        Value::Offset(_) => 2,
        Value::Mul(_) => 3,
        Value::Add(_) => 4,
        Value::Sub(_) => 5,
        Value::Choice(_) => 6,
        Value::Xor(_) => 7,
        Value::Or(_) => 8,
        Value::And(_) => 9,
        Value::BoolNegate(_) => 10,
        Value::BoolAnd(_) => 11,
        Value::BoolOr(_) => 12,
        Value::BoolXor(_) => 13,
        Value::IntLeftShift(_) => 14,
        Value::IntRightShift(_) => 15,
        Value::IntSignedRightShift(_) => 16,
        Value::Load(_) => 17,
        Value::ZeroExtend(_) => 18,
        Value::SignExtend(_) => 19,
        Value::Extract(_) => 20,
        Value::Top => 21,
        Value::IntSLess(_) => 22,
        Value::IntEqual(_) => 23,
        Value::IntLess(_) => 24,
        Value::PopCount(_) => 25,
        Value::Int2Comp(_) => 26,
        Value::IntNotEqual(_) => 27,
        Value::IntLessEqual(_) => 28,
        Value::IntSLessEqual(_) => 29,
        Value::IntCarry(_) => 30,
        Value::IntSCarry(_) => 31,
        Value::IntSBorrow(_) => 32,
        Value::Bind(_) => 33,
    }
}

/// A one-byte constant read as a boolean.
pub open spec fn as_boolean_const(v: Value) -> Option<bool> {
    match v.spec_as_const() {
        Some(vn) => if vn.size == 1 {
            Some(vn.offset != 0)
        } else {
            None
        },
        None => None,
    }
}

/// Whether a value is a boolean: a one-byte constant, a boolean operator or a
/// comparison.
pub open spec fn is_boolean_valued(v: Value) -> bool {
    match v {
        Value::Const(c) => c.0.size == 1,
        Value::BoolNegate(_) | Value::BoolAnd(_) | Value::BoolOr(_) | Value::BoolXor(_)
        | Value::IntSLess(_) | Value::IntEqual(_) | Value::IntLess(_) | Value::IntNotEqual(_)
        | Value::IntLessEqual(_) | Value::IntSLessEqual(_) | Value::IntCarry(_) | Value::IntSCarry(
            _,
        ) | Value::IntSBorrow(_) => true,
        _ => false,
    }
}

pub open spec fn bool_const(b: bool) -> Value {
    const_value(if b { 1i64 } else { 0i64 }, 1)
}

/// All ones for the sizes of machine words.
pub open spec fn all_ones(size: usize) -> Option<u64> {
    if size == 1 {
        Some(0xFFu64)
    } else if size == 2 {
        Some(0xFFFFu64)
    } else if size == 4 {
        Some(0xFFFF_FFFFu64)
    } else if size == 8 {
        Some(u64::MAX)
    } else {
        None
    }
}

pub open spec fn bx(v: Value) -> Box<Value> {
    Box::new(v)
}

/// The simplified form of `v` and whether it is a new node.
pub open spec fn simp(v: Value, fuel: nat) -> (Value, bool)
    decreases fuel, 0nat,
{
    if fuel == 0 {
        (v, false)
    } else {
        let f = (fuel - 1) as nat;
        match v {
            Value::Add(x) => simp_add(*x.0, *x.1, x.2, f),
            Value::Sub(x) => simp_sub(*x.0, *x.1, x.2, f),
            Value::Mul(x) => simp_mul(*x.0, *x.1, x.2, f),
            Value::Choice(x) => simp_choice(*x.0, *x.1, x.2, f),
            Value::Xor(x) => simp_xor(*x.0, *x.1, x.2, f),
            Value::And(x) => simp_and(*x.0, *x.1, x.2, f),
            Value::Or(x) => simp_or(*x.0, *x.1, x.2, f),
            Value::BoolNegate(x) => simp_bool_negate(*x.0, f),
            Value::BoolAnd(x) => simp_bool_and(*x.0, *x.1, f),
            Value::BoolOr(x) => simp_bool_or(*x.0, *x.1, f),
            Value::BoolXor(x) => simp_bool_xor(*x.0, *x.1, f),
            Value::IntLeftShift(x) => simp_shl(*x.0, *x.1, x.2, f),
            Value::IntRightShift(x) => simp_shr(*x.0, *x.1, x.2, f),
            Value::IntSignedRightShift(x) => simp_sar(*x.0, *x.1, x.2, f),
            Value::Load(x) => simp_load(*x.0, x.1, x.2, f),
            Value::ZeroExtend(x) => simp_zext(*x.0, x.1, f),
            Value::SignExtend(x) => simp_sext(*x.0, x.1, f),
            Value::Extract(x) => simp_extract(*x.0, x.1, x.2, f),
            Value::IntEqual(x) => simp_comparison(Comparison::Equal, *x.0, *x.1, f),
            Value::IntNotEqual(x) => simp_comparison(Comparison::NotEqual, *x.0, *x.1, f),
            Value::IntLess(x) => simp_comparison(Comparison::Less, *x.0, *x.1, f),
            Value::IntLessEqual(x) => simp_comparison(Comparison::LessEqual, *x.0, *x.1, f),
            Value::IntSLess(x) => simp_comparison(Comparison::SLess, *x.0, *x.1, f),
            Value::IntSLessEqual(x) => simp_comparison(Comparison::SLessEqual, *x.0, *x.1, f),
            Value::IntCarry(x) => simp_carry(*x.0, *x.1, f),
            Value::IntSCarry(x) => simp_scarry(*x.0, *x.1, f),
            Value::IntSBorrow(x) => simp_sborrow(*x.0, *x.1, f),
            Value::PopCount(x) => simp_popcount(*x.0, f),
            Value::Int2Comp(x) => simp_2comp(*x.0, x.1, f),
            _ => (v, false),
        }
    }
}

pub open spec fn sv(v: Value, f: nat) -> Value
    decreases f, 1nat,
{
    simp(v, f).0
}

// Addition.
pub open spec fn simp_add(a: Value, b: Value, s: usize, f: nat) -> (Value, bool)
    decreases f, 3nat,
{
    let (na, ca) = simp(a, f);
    let (nb, cb) = simp(b, f);
    if na is Top || nb is Top {
        (Value::Top, true)
    } else if is_const(na) && is_const(nb) {
        (
            const_value(
                i64_specs::wrapping_add(const_i64(na), const_i64(nb)),
                max_size(derive_size(na), derive_size(nb)),
            ),
            true,
        )
    } else {
        let (left, right, swapped) = normalize_commutative(na, nb);
        if is_const(right) && const_i64(right) == 0 {
            (left, true)
        } else if left is Add && is_const(*left->Add_0.1) && is_const(right) {
            // ((x + #a) + #b) -> (x + #(a + b))
            let lli = *left->Add_0.0;
            let inner_c = left->Add_0.1.spec_as_const()->0;
            let res = i64_specs::wrapping_add(inner_c.offset as i64, const_i64(right));
            let size = max_size(lli.spec_size(), inner_c.size);
            (sv(Value::Add(AddExpr(bx(lli), bx(const_value(res, size)), size)), f), true)
        } else if left is Sub && is_const(*left->Sub_0.1) && is_const(right) {
            // ((x - #a) + #b) -> (x - #(a - b)) or (x + #(b - a))
            let expr = *left->Sub_0.0;
            let res = i64_specs::wrapping_sub(const_i64(*left->Sub_0.1), const_i64(right));
            let size = max_size(expr.spec_size(), left.spec_size());
            if res < 0 {
                (
                    sv(
                        Value::Add(
                            AddExpr(bx(expr), bx(const_value(i64_specs::wrapping_sub(0, res), size)), size),
                        ),
                        f,
                    ),
                    true,
                )
            } else {
                (sv(Value::Sub(SubExpr(bx(expr), bx(const_value(res, size)), size)), f), true)
            }
        } else if !swapped && !ca && !cb {
            (Value::Add(AddExpr(bx(a), bx(b), s)), false)
        } else {
            (
                Value::Add(AddExpr(bx(left), bx(right), max_size(left.spec_size(), right.spec_size()))),
                true,
            )
        }
    }
}


// Subtraction.
pub open spec fn simp_sub(a: Value, b: Value, s: usize, f: nat) -> (Value, bool)
    decreases f, 3nat,
{
    let (left, ca) = simp(a, f);
    let (right, cb) = simp(b, f);
    if left is Top || right is Top {
        (Value::Top, true)
    } else if is_const(left) && is_const(right) {
        (
            const_value(
                i64_specs::wrapping_sub(const_i64(left), const_i64(right)),
                max_size(derive_size(left), derive_size(right)),
            ),
            true,
        )
    } else if is_const(right) && const_i64(right) == 0 {
        (left, true)
    } else if is_const(right) && const_i64(right) < 0 {
        // x - (-a) -> x + a
        let size = left.spec_size();
        (
            sv(
                Value::Add(
                    AddExpr(
                        bx(left),
                        bx(const_value(i64_specs::wrapping_sub(0, const_i64(right)), size)),
                        size,
                    ),
                ),
                f,
            ),
            true,
        )
    } else if left == right {
        (const_value(0, derive_size(left)), true)
    } else if left is Add && is_const(*left->Add_0.1) && is_const(right) {
        // ((x + #a) - #b) -> (x + #(a - b)) or (x - #(b - a))
        let expr = *left->Add_0.0;
        let res = i64_specs::wrapping_sub(const_i64(*left->Add_0.1), const_i64(right));
        let size = max_size(expr.spec_size(), left.spec_size());
        if res < 0 {
            (
                sv(
                    Value::Sub(
                        SubExpr(bx(expr), bx(const_value(i64_specs::wrapping_sub(0, res), size)), size),
                    ),
                    f,
                ),
                true,
            )
        } else {
            (sv(Value::Add(AddExpr(bx(expr), bx(const_value(res, size)), size)), f), true)
        }
    } else if left is Sub && is_const(*left->Sub_0.1) && is_const(right) {
        // ((x - #a) - #b) -> (x - #(a + b))
        let expr = *left->Sub_0.0;
        let res = i64_specs::wrapping_add(const_i64(*left->Sub_0.1), const_i64(right));
        let size = max_size(expr.spec_size(), left.spec_size());
        (sv(Value::Sub(SubExpr(bx(expr), bx(const_value(res, size)), size)), f), true)
    } else if !ca && !cb {
        (Value::Sub(SubExpr(bx(a), bx(b), s)), false)
    } else {
        (
            Value::Sub(SubExpr(bx(left), bx(right), max_size(left.spec_size(), right.spec_size()))),
            true,
        )
    }
}

// Multiplication.
pub open spec fn simp_mul(a: Value, b: Value, s: usize, f: nat) -> (Value, bool)
    decreases f, 3nat,
{
    let (na, ca) = simp(a, f);
    let (nb, cb) = simp(b, f);
    if na is Top || nb is Top {
        (Value::Top, true)
    } else {
        let (left, right, swapped) = normalize_commutative(na, nb);
        if is_const(left) && is_const(right) {
            (
                const_value(
                    i64_specs::wrapping_mul(const_i64(left), const_i64(right)),
                    max_size(derive_size(left), derive_size(right)),
                ),
                true,
            )
        } else if is_const(right) && const_i64(right) == 1 {
            (left, true)
        } else if is_const(right) && const_i64(right) == 0 {
            (const_value(0, derive_size(left)), true)
        } else if !swapped && !ca && !cb {
            (Value::Mul(MulExpr(bx(a), bx(b), s)), false)
        } else {
            (
                Value::Mul(MulExpr(bx(left), bx(right), max_size(left.spec_size(), right.spec_size()))),
                true,
            )
        }
    }
}

/// `common` or a choice among `x` and `y`, simplified.
pub open spec fn choice_factored(common: Value, x: Value, y: Value, f: nat) -> Value
    decreases f, 2nat,
{
    let inner = sv(Value::Choice(Choice(bx(x), bx(y), max_size(x.spec_size(), y.spec_size()))), f);
    sv(
        Value::Choice(Choice(bx(common), bx(inner), max_size(common.spec_size(), inner.spec_size()))),
        f,
    )
}

/// The operands of a choice after canonical ordering: a choice operand goes
/// right; otherwise the operand of lower rank goes left.
pub open spec fn choice_order(na: Value, nb: Value) -> (Value, Value, bool) {
    let (l0, r0, s0) = normalize_choice(na, nb);
    if !(l0 is Choice) && !(r0 is Choice) && variant_rank(l0) > variant_rank(r0) {
        (r0, l0, !s0)
    } else {
        (l0, r0, s0)
    }
}

// Choice.
pub open spec fn simp_choice(a: Value, b: Value, s: usize, f: nat) -> (Value, bool)
    decreases f, 3nat,
{
    let (na, ca) = simp(a, f);
    let (nb, cb) = simp(b, f);
    if na is Top || nb is Top {
        (Value::Top, true)
    } else {
        let (left, right, swapped) = choice_order(na, nb);
        if left == right {
            (left, true)
        } else if right is Choice && *right->Choice_0.0 == left {
            // Choice(a, Choice(a, b)) -> Choice(a, b)
            (
                sv(Value::Choice(Choice(bx(left), right->Choice_0.1, right.spec_size())), f),
                true,
            )
        } else if right is Choice && *right->Choice_0.1 == left {
            (
                sv(Value::Choice(Choice(bx(left), right->Choice_0.0, right.spec_size())), f),
                true,
            )
        } else if left is Choice && right is Choice && left->Choice_0.0 == right->Choice_0.0 {
            (
                choice_factored(*left->Choice_0.0, *left->Choice_0.1, *right->Choice_0.1, f),
                true,
            )
        } else if left is Choice && right is Choice && left->Choice_0.0 == right->Choice_0.1 {
            (
                choice_factored(*left->Choice_0.0, *left->Choice_0.1, *right->Choice_0.0, f),
                true,
            )
        } else if left is Choice && right is Choice && left->Choice_0.1 == right->Choice_0.0 {
            (
                choice_factored(*left->Choice_0.1, *left->Choice_0.0, *right->Choice_0.1, f),
                true,
            )
        } else if left is Choice && right is Choice && left->Choice_0.1 == right->Choice_0.1 {
            (
                choice_factored(*left->Choice_0.1, *left->Choice_0.0, *right->Choice_0.0, f),
                true,
            )
        } else if !swapped && !ca && !cb {
            (Value::Choice(Choice(bx(a), bx(b), s)), false)
        } else {
            (
                Value::Choice(Choice(bx(left), bx(right), max_size(left.spec_size(), right.spec_size()))),
                true,
            )
        }
    }
}

// Exclusive or.
pub open spec fn simp_xor(a: Value, b: Value, s: usize, f: nat) -> (Value, bool)
    decreases f, 3nat,
{
    let (na, ca) = simp(a, f);
    let (nb, cb) = simp(b, f);
    if na is Top || nb is Top {
        (Value::Top, true)
    } else {
        let (left, right, swapped) = normalize_commutative(na, nb);
        if is_const(left) && is_const(right) {
            (
                const_value(
                    (const_u64(left) ^ const_u64(right)) as i64,
                    max_size(derive_size(left), derive_size(right)),
                ),
                true,
            )
        } else if left == right {
            (const_value(0, derive_size(left)), true)
        } else if is_const(right) && const_u64(right) == 0 {
            (left, true)
        } else if !swapped && !ca && !cb {
            (Value::Xor(XorExpr(bx(a), bx(b), s)), false)
        } else {
            (
                Value::Xor(XorExpr(bx(left), bx(right), max_size(left.spec_size(), right.spec_size()))),
                true,
            )
        }
    }
}

/// Rule C: a constant mask distributed over an or with known structure.
pub open spec fn and_distribute(or_l: Value, or_r: Value, right: Value, f: nat) -> Value
    decreases f, 2nat,
{
    let new_l = sv(
        Value::And(AndExpr(bx(or_l), bx(right), max_size(or_l.spec_size(), right.spec_size()))),
        f,
    );
    let new_r = sv(
        Value::And(AndExpr(bx(or_r), bx(right), max_size(or_r.spec_size(), right.spec_size()))),
        f,
    );
    if new_l == new_r {
        new_l
    } else {
        Value::Or(OrExpr(bx(new_l), bx(new_r), max_size(new_l.spec_size(), new_r.spec_size())))
    }
}

// Bitwise and.
pub open spec fn simp_and(a: Value, b: Value, s: usize, f: nat) -> (Value, bool)
    decreases f, 3nat,
{
    let (na, ca) = simp(a, f);
    let (nb, cb) = simp(b, f);
    if na is Top || nb is Top {
        (Value::Top, true)
    } else {
        let (left, right, swapped) = normalize_commutative(na, nb);
        if is_const(left) && is_const(right) {
            (
                const_value(
                    (const_u64(left) & const_u64(right)) as i64,
                    max_size(derive_size(left), derive_size(right)),
                ),
                true,
            )
        } else if left == right {
            (left, true)
        } else if is_const(right) && const_u64(right) == 0 {
            (const_value(0, derive_size(left)), true)
        } else if all_ones(left.spec_size()) is Some && is_const(right) && const_u64(right)
            == all_ones(left.spec_size())->0 {
            (left, true)
        } else if is_const(right) && left is And && is_const(*left->And_0.1) {
            // Rule A: And(And(x, c1), c2) -> And(x, c1 & c2)
            let folded = (const_u64(right) & const_u64(*left->And_0.1)) as i64;
            let sz = left.spec_size();
            (
                sv(Value::And(AndExpr(left->And_0.0, bx(const_value(folded, sz)), sz)), f),
                true,
            )
        } else if is_const(right) && (!const_u64(right) & !spec_known_zero_bits(left)) == 0 {
            // Rule B: the mask clears only bits that are already zero
            (left, true)
        } else if left is Or && is_const(right) && (spec_known_zero_bits(*left->Or_0.0) != 0
            || spec_known_zero_bits(*left->Or_0.1) != 0) {
            (and_distribute(*left->Or_0.0, *left->Or_0.1, right, f), true)
        } else if !swapped && !ca && !cb {
            (Value::And(AndExpr(bx(a), bx(b), s)), false)
        } else {
            (
                Value::And(AndExpr(bx(left), bx(right), max_size(left.spec_size(), right.spec_size()))),
                true,
            )
        }
    }
}

// Bitwise or.
pub open spec fn simp_or(a: Value, b: Value, s: usize, f: nat) -> (Value, bool)
    decreases f, 3nat,
{
    let (na, ca) = simp(a, f);
    let (nb, cb) = simp(b, f);
    if na is Top || nb is Top {
        (Value::Top, true)
    } else {
        let (left, right, swapped) = normalize_commutative(na, nb);
        if is_const(left) && is_const(right) {
            (
                const_value(
                    (const_u64(left) | const_u64(right)) as i64,
                    max_size(derive_size(left), derive_size(right)),
                ),
                true,
            )
        } else if left == right {
            (left, true)
        } else if is_const(right) && const_u64(right) == 0 {
            (left, true)
        } else if all_ones(left.spec_size()) is Some && is_const(right) && const_u64(right)
            == all_ones(left.spec_size())->0 {
            (const_value(all_ones(left.spec_size())->0 as i64, derive_size(left)), true)
        } else if !swapped && !ca && !cb {
            (Value::Or(OrExpr(bx(a), bx(b), s)), false)
        } else {
            (
                Value::Or(OrExpr(bx(left), bx(right), max_size(left.spec_size(), right.spec_size()))),
                true,
            )
        }
    }
}

// Boolean negation.
pub open spec fn simp_bool_negate(c: Value, f: nat) -> (Value, bool)
    decreases f, 3nat,
{
    let (nc, cc) = simp(c, f);
    if nc is Top {
        (Value::Top, true)
    } else if as_boolean_const(nc) is Some {
        (bool_const(!as_boolean_const(nc)->0), true)
    } else if nc is BoolNegate && is_boolean_valued(*nc->BoolNegate_0.0) {
        (*nc->BoolNegate_0.0, true)
    } else {
        match nc {
            Value::IntEqual(IntEqual(x, y)) => (Value::IntNotEqual(IntNotEqual(x, y)), true),
            Value::IntNotEqual(IntNotEqual(x, y)) => (Value::IntEqual(IntEqual(x, y)), true),
            Value::IntLess(IntLess(x, y)) => (Value::IntLessEqual(IntLessEqual(y, x)), true),
            Value::IntLessEqual(IntLessEqual(x, y)) => (Value::IntLess(IntLess(y, x)), true),
            Value::IntSLess(IntSLess(x, y)) => (Value::IntSLessEqual(IntSLessEqual(y, x)), true),
            Value::IntSLessEqual(IntSLessEqual(x, y)) => (Value::IntSLess(IntSLess(y, x)), true),
            _ => if !cc {
                (Value::BoolNegate(BoolNegateExpr(bx(c))), false)
            } else {
                (Value::BoolNegate(BoolNegateExpr(bx(nc))), true)
            },
        }
    }
}

// Boolean and.
pub open spec fn simp_bool_and(a: Value, b: Value, f: nat) -> (Value, bool)
    decreases f, 3nat,
{
    let (na, ca) = simp(a, f);
    let (nb, cb) = simp(b, f);
    if na is Top || nb is Top {
        (Value::Top, true)
    } else {
        let (left, right, swapped) = normalize_commutative(na, nb);
        if as_boolean_const(left) is Some && as_boolean_const(right) is Some {
            (bool_const(as_boolean_const(left)->0 && as_boolean_const(right)->0), true)
        } else if left == right && is_boolean_valued(left) {
            (left, true)
        } else if as_boolean_const(right) == Some(false) {
            (bool_const(false), true)
        } else if as_boolean_const(right) == Some(true) && is_boolean_valued(left) {
            (left, true)
        } else if !swapped && !ca && !cb {
            (Value::BoolAnd(BoolAndExpr(bx(a), bx(b))), false)
        } else {
            (Value::BoolAnd(BoolAndExpr(bx(left), bx(right))), true)
        }
    }
}

// Boolean or.
pub open spec fn simp_bool_or(a: Value, b: Value, f: nat) -> (Value, bool)
    decreases f, 3nat,
{
    let (na, ca) = simp(a, f);
    let (nb, cb) = simp(b, f);
    if na is Top || nb is Top {
        (Value::Top, true)
    } else {
        let (left, right, swapped) = normalize_commutative(na, nb);
        if as_boolean_const(left) is Some && as_boolean_const(right) is Some {
            (bool_const(as_boolean_const(left)->0 || as_boolean_const(right)->0), true)
        } else if left == right && is_boolean_valued(left) {
            (left, true)
        } else if as_boolean_const(right) == Some(false) && is_boolean_valued(left) {
            (left, true)
        } else if as_boolean_const(right) == Some(true) {
            (bool_const(true), true)
        } else if !swapped && !ca && !cb {
            (Value::BoolOr(BoolOrExpr(bx(a), bx(b))), false)
        } else {
            (Value::BoolOr(BoolOrExpr(bx(left), bx(right))), true)
        }
    }
}

// Boolean exclusive or.
pub open spec fn simp_bool_xor(a: Value, b: Value, f: nat) -> (Value, bool)
    decreases f, 3nat,
{
    let (na, ca) = simp(a, f);
    let (nb, cb) = simp(b, f);
    if na is Top || nb is Top {
        (Value::Top, true)
    } else {
        let (left, right, swapped) = normalize_commutative(na, nb);
        if as_boolean_const(left) is Some && as_boolean_const(right) is Some {
            (bool_const(as_boolean_const(left)->0 != as_boolean_const(right)->0), true)
        } else if left == right && is_boolean_valued(left) {
            (bool_const(false), true)
        } else if as_boolean_const(right) == Some(false) && is_boolean_valued(left) {
            (left, true)
        } else if as_boolean_const(right) == Some(true) && is_boolean_valued(left) {
            (sv(Value::BoolNegate(BoolNegateExpr(bx(left))), f), true)
        } else if !swapped && !ca && !cb {
            (Value::BoolXor(BoolXorExpr(bx(a), bx(b))), false)
        } else {
            (Value::BoolXor(BoolXorExpr(bx(left), bx(right))), true)
        }
    }
}

/// The width in bits of a constant of `size` bytes, as the machine computes
/// it (wrapping).
pub open spec fn bit_width(size: usize) -> usize {
    vstd::wrapping::usize_specs::wrapping_mul(size, 8)
}

// Left shift.
pub open spec fn simp_shl(a: Value, b: Value, s: usize, f: nat) -> (Value, bool)
    decreases f, 3nat,
{
    let (na, ca) = simp(a, f);
    let (nb, cb) = simp(b, f);
    if na is Top || nb is Top {
        (Value::Top, true)
    } else if is_const(na) && is_const(nb) {
        let lv = na.spec_as_const()->0;
        let shift_amt = const_u64(nb);
        if shift_amt >= bit_width(lv.size) as u64 {
            (const_value(0, derive_size(na)), true)
        } else {
            let masked = u64_specs::wrapping_shl(lv.offset, shift_amt as u32) & spec_mask_for_size(
                lv.size,
            );
            (const_value(masked as i64, derive_size(na)), true)
        }
    } else if is_const(nb) && const_u64(nb) == 0 {
        (na, true)
    } else if !ca && !cb {
        (Value::IntLeftShift(IntLeftShiftExpr(bx(a), bx(b), s)), false)
    } else {
        (
            Value::IntLeftShift(
                IntLeftShiftExpr(bx(na), bx(nb), max_size(na.spec_size(), nb.spec_size())),
            ),
            true,
        )
    }
}

// Logical right shift.
pub open spec fn simp_shr(a: Value, b: Value, s: usize, f: nat) -> (Value, bool)
    decreases f, 3nat,
{
    let (na, ca) = simp(a, f);
    let (nb, cb) = simp(b, f);
    if na is Top || nb is Top {
        (Value::Top, true)
    } else if is_const(na) && is_const(nb) {
        let lv = na.spec_as_const()->0;
        let shift_amt = const_u64(nb);
        if shift_amt >= bit_width(lv.size) as u64 {
            (const_value(0, derive_size(na)), true)
        } else {
            (
                const_value(u64_specs::wrapping_shr(lv.offset, shift_amt as u32) as i64, derive_size(na)),
                true,
            )
        }
    } else if is_const(nb) && const_u64(nb) == 0 {
        (na, true)
    } else if !ca && !cb {
        (Value::IntRightShift(IntRightShiftExpr(bx(a), bx(b), s)), false)
    } else {
        (
            Value::IntRightShift(
                IntRightShiftExpr(bx(na), bx(nb), max_size(na.spec_size(), nb.spec_size())),
            ),
            true,
        )
    }
}

/// A constant of `size_bits` bits read as signed (sign-extended to 64 bits).
pub open spec fn sign_extended_i64(v: u64, size_bits: u32) -> i64 {
    if size_bits < 64 {
        let sign_bit = u64_specs::wrapping_shl(1, vstd::wrapping::u32_specs::wrapping_sub(size_bits, 1));
        if v & sign_bit != 0 {
            (v | (u64::MAX << size_bits)) as i64
        } else {
            v as i64
        }
    } else {
        v as i64
    }
}

// Arithmetic right shift.
pub open spec fn simp_sar(a: Value, b: Value, s: usize, f: nat) -> (Value, bool)
    decreases f, 3nat,
{
    let (na, ca) = simp(a, f);
    let (nb, cb) = simp(b, f);
    if na is Top || nb is Top {
        (Value::Top, true)
    } else if is_const(na) && is_const(nb) {
        let lv = na.spec_as_const()->0;
        let shift_amt = const_u64(nb);
        let size_bits = bit_width(lv.size) as u32;
        let signed_val = sign_extended_i64(lv.offset, size_bits);
        if shift_amt >= size_bits as u64 {
            (const_value(if signed_val < 0 { -1i64 } else { 0i64 }, derive_size(na)), true)
        } else {
            let masked = (i64_specs::wrapping_shr(signed_val, shift_amt as u32) as u64)
                & spec_mask_for_size(lv.size);
            (const_value(masked as i64, derive_size(na)), true)
        }
    } else if is_const(nb) && const_u64(nb) == 0 {
        (na, true)
    } else if !ca && !cb {
        (Value::IntSignedRightShift(IntSignedRightShiftExpr(bx(a), bx(b), s)), false)
    } else {
        (
            Value::IntSignedRightShift(
                IntSignedRightShiftExpr(bx(na), bx(nb), max_size(na.spec_size(), nb.spec_size())),
            ),
            true,
        )
    }
}

// Load.
pub open spec fn simp_load(c: Value, size: usize, space: u8, f: nat) -> (Value, bool)
    decreases f, 3nat,
{
    let (nc, cc) = simp(c, f);
    if !cc {
        (Value::Load(Load(bx(c), size, space)), false)
    } else {
        (Value::Load(Load(bx(nc), size, space)), true)
    }
}

// Zero extension.
pub open spec fn simp_zext(c: Value, out: usize, f: nat) -> (Value, bool)
    decreases f, 3nat,
{
    let (nc, cc) = simp(c, f);
    if nc is Top {
        (Value::Top, true)
    } else if nc.spec_size() == out {
        (nc, true)
    } else if is_const(nc) {
        let vn = nc.spec_as_const()->0;
        (const_value((vn.offset & spec_mask_for_size(vn.size)) as i64, out), true)
    } else if nc is ZeroExtend && out >= nc->ZeroExtend_0.1 {
        (sv(Value::ZeroExtend(ZeroExtend(nc->ZeroExtend_0.0, out)), f), true)
    } else if !cc {
        (Value::ZeroExtend(ZeroExtend(bx(c), out)), false)
    } else {
        (Value::ZeroExtend(ZeroExtend(bx(nc), out)), true)
    }
}

/// A constant of `src_size` bytes sign-extended to 64 bits.
pub open spec fn sign_extend_raw(raw: u64, src_size: usize) -> u64 {
    if src_size > 0 && src_size < 8 {
        let sign_bit = 1u64 << ((src_size * 8 - 1) as u64);
        if raw & sign_bit != 0 {
            raw | (u64::MAX << ((src_size * 8) as u64))
        } else {
            raw
        }
    } else {
        raw
    }
}

// Sign extension.
pub open spec fn simp_sext(c: Value, out: usize, f: nat) -> (Value, bool)
    decreases f, 3nat,
{
    let (nc, cc) = simp(c, f);
    if nc is Top {
        (Value::Top, true)
    } else if nc.spec_size() == out {
        (nc, true)
    } else if is_const(nc) {
        let vn = nc.spec_as_const()->0;
        (
            const_value(
                (sign_extend_raw(vn.offset, vn.size) & spec_mask_for_size(out)) as i64,
                out,
            ),
            true,
        )
    } else if nc is SignExtend && out >= nc->SignExtend_0.1 {
        (sv(Value::SignExtend(SignExtend(nc->SignExtend_0.0, out)), f), true)
    } else if !cc {
        (Value::SignExtend(SignExtend(bx(c), out)), false)
    } else {
        (Value::SignExtend(SignExtend(bx(nc), out)), true)
    }
}

/// `byte_offset * 8`, saturating.
pub open spec fn saturating_bits(byte_offset: usize) -> usize {
    if byte_offset * 8 > usize::MAX {
        usize::MAX
    } else {
        (byte_offset * 8) as usize
    }
}

/// The bits of a 64-bit value read by an extraction.
pub open spec fn extraction_mask(byte_offset: usize, out: usize) -> u64 {
    let amt = bit_width(byte_offset) as u32;
    if amt < 64 {
        spec_mask_for_size(out) << amt
    } else {
        0
    }
}

// Extraction of bytes.
pub open spec fn simp_extract(c: Value, byte_offset: usize, out: usize, f: nat) -> (Value, bool)
    decreases f, 3nat,
{
    let (nc, cc) = simp(c, f);
    if nc is Top {
        (Value::Top, true)
    } else if byte_offset == 0 && nc.spec_size() == out {
        (nc, true)
    } else if byte_offset == 0 && nc is Entry {
        let vn = nc->Entry_0.0;
        (Value::Entry(Entry(VarNode { space_index: vn.space_index, offset: vn.offset, size: out })), true)
    } else if byte_offset == 0 && nc is Offset {
        let o = nc->Offset_0;
        (
            Value::Offset(
                Offset(o.0, Const(VarNode { space_index: CONST_SPACE_INDEX, offset: o.1.0.offset, size: out })),
            ),
            true,
        )
    } else if byte_offset == 0 && nc is ZeroExtend && out == nc->ZeroExtend_0.0.spec_size() {
        (*nc->ZeroExtend_0.0, true)
    } else if byte_offset == 0 && nc is ZeroExtend && out < nc->ZeroExtend_0.0.spec_size() {
        (sv(Value::Extract(Extract(nc->ZeroExtend_0.0, 0, out)), f), true)
    } else if byte_offset == 0 && nc is ZeroExtend && out <= nc->ZeroExtend_0.1 {
        (sv(Value::ZeroExtend(ZeroExtend(nc->ZeroExtend_0.0, out)), f), true)
    } else if byte_offset == 0 && nc is Add {
        (extract_add(*nc->Add_0.0, *nc->Add_0.1, out, f), true)
    } else if byte_offset == 0 && nc is SignExtend && out == nc->SignExtend_0.0.spec_size() {
        (*nc->SignExtend_0.0, true)
    } else if byte_offset == 0 && nc is SignExtend && out < nc->SignExtend_0.0.spec_size() {
        (sv(Value::Extract(Extract(nc->SignExtend_0.0, 0, out)), f), true)
    } else if byte_offset == 0 && nc is SignExtend && out <= nc->SignExtend_0.1 {
        (sv(Value::SignExtend(SignExtend(nc->SignExtend_0.0, out)), f), true)
    } else if extract_shift_applies(nc, byte_offset, out) {
        (extract_shift(nc, byte_offset, out, f), true)
    } else if nc is Or && (spec_known_zero_bits(*nc->Or_0.0) & extraction_mask(byte_offset, out))
        == extraction_mask(byte_offset, out) {
        // Rule D: only the right side has bits in the extracted range
        (sv(Value::Extract(Extract(nc->Or_0.1, byte_offset, out)), f), true)
    } else if nc is Or && (spec_known_zero_bits(*nc->Or_0.1) & extraction_mask(byte_offset, out))
        == extraction_mask(byte_offset, out) {
        (sv(Value::Extract(Extract(nc->Or_0.0, byte_offset, out)), f), true)
    } else if is_const(nc) {
        let amt = saturating_bits(byte_offset) as u32;
        let shifted: u64 = if amt < 64 { const_u64(nc) >> amt } else { 0 };
        (const_value((shifted & spec_mask_for_size(out)) as i64, out), true)
    } else if !cc {
        (Value::Extract(Extract(bx(c), byte_offset, out)), false)
    } else {
        (Value::Extract(Extract(bx(nc), byte_offset, out)), true)
    }
}

/// The low bytes of a sum: the sum of the low bytes.
pub open spec fn extract_add(l: Value, r: Value, out: usize, f: nat) -> Value
    decreases f, 2nat,
{
    let ls = sv(Value::Extract(Extract(bx(l), 0, out)), f);
    let rs = sv(Value::Extract(Extract(bx(r), 0, out)), f);
    sv(Value::Add(AddExpr(bx(ls), bx(rs), max_size(ls.spec_size(), rs.spec_size()))), f)
}

/// Rule E applies: an extraction from a byte-aligned left shift that lies
/// inside the shifted value or entirely below it.
pub open spec fn extract_shift_applies(nc: Value, byte_offset: usize, out: usize) -> bool {
    nc is IntLeftShift && is_const(*nc->IntLeftShift_0.1) && const_u64(*nc->IntLeftShift_0.1) % 8
        == 0 && {
        let shift_bytes = #[verifier::truncate] ((const_u64(*nc->IntLeftShift_0.1) / 8) as usize);
        let inner_size = nc->IntLeftShift_0.0.spec_size();
        let end = vstd::wrapping::usize_specs::wrapping_add(byte_offset, out);
        (byte_offset >= shift_bytes && end <= vstd::wrapping::usize_specs::wrapping_add(
            shift_bytes,
            inner_size,
        )) || end <= shift_bytes
    }
}

/// Rule E: the extraction reads the shifted value, or only the zero bits
/// below it.
pub open spec fn extract_shift(nc: Value, byte_offset: usize, out: usize, f: nat) -> Value
    decreases f, 2nat,
{
    let shift_bytes = #[verifier::truncate] ((const_u64(*nc->IntLeftShift_0.1) / 8) as usize);
    let inner_size = nc->IntLeftShift_0.0.spec_size();
    let end = vstd::wrapping::usize_specs::wrapping_add(byte_offset, out);
    if byte_offset >= shift_bytes && end <= vstd::wrapping::usize_specs::wrapping_add(
        shift_bytes,
        inner_size,
    ) {
        sv(Value::Extract(Extract(nc->IntLeftShift_0.0, (byte_offset - shift_bytes) as usize, out)), f)
    } else {
        const_value(0, out)
    }
}

/// The six comparisons that share one set of rules.
#[derive(Clone, Copy, Debug, PartialEq, Eq, Structural)]
pub enum Comparison {
    Equal,
    NotEqual,
    Less,
    LessEqual,
    SLess,
    SLessEqual,
}

pub open spec fn compare_consts(k: Comparison, a: u64, b: u64) -> bool {
    match k {
        Comparison::Equal => a == b,
        Comparison::NotEqual => a != b,
        Comparison::Less => a < b,
        Comparison::LessEqual => a <= b,
        Comparison::SLess => (a as i64) < (b as i64),
        Comparison::SLessEqual => (a as i64) <= (b as i64),
    }
}

/// The result of comparing a value with itself.
pub open spec fn compare_same(k: Comparison) -> bool {
    match k {
        Comparison::Equal | Comparison::LessEqual | Comparison::SLessEqual => true,
        _ => false,
    }
}

pub open spec fn comparison_node(k: Comparison, a: Box<Value>, b: Box<Value>) -> Value {
    match k {
        Comparison::Equal => Value::IntEqual(IntEqual(a, b)),
        Comparison::NotEqual => Value::IntNotEqual(IntNotEqual(a, b)),
        Comparison::Less => Value::IntLess(IntLess(a, b)),
        Comparison::LessEqual => Value::IntLessEqual(IntLessEqual(a, b)),
        Comparison::SLess => Value::IntSLess(IntSLess(a, b)),
        Comparison::SLessEqual => Value::IntSLessEqual(IntSLessEqual(a, b)),
    }
}

// Comparisons.
pub open spec fn simp_comparison(k: Comparison, a: Value, b: Value, f: nat) -> (Value, bool)
    decreases f, 3nat,
{
    let (na, ca) = simp(a, f);
    let (nb, cb) = simp(b, f);
    if na is Top || nb is Top {
        (Value::Top, true)
    } else if is_const(na) && is_const(nb) {
        (bool_const(compare_consts(k, const_u64(na), const_u64(nb))), true)
    } else if na == nb {
        (bool_const(compare_same(k)), true)
    } else if !ca && !cb {
        (comparison_node(k, bx(a), bx(b)), false)
    } else {
        (comparison_node(k, bx(na), bx(nb)), true)
    }
}

// Unsigned carry.
pub open spec fn simp_carry(a: Value, b: Value, f: nat) -> (Value, bool)
    decreases f, 3nat,
{
    let (na, ca) = simp(a, f);
    let (nb, cb) = simp(b, f);
    if na is Top || nb is Top {
        (Value::Top, true)
    } else if is_const(na) && is_const(nb) {
        let bits = bit_width(na.spec_as_const()->0.size) as u32;
        let sum = (const_u64(na) as u128 + const_u64(nb) as u128) as u128;
        (bool_const(vstd::wrapping::u128_specs::wrapping_shr(sum, bits) != 0), true)
    } else if !ca && !cb {
        (Value::IntCarry(IntCarry(bx(a), bx(b))), false)
    } else {
        (Value::IntCarry(IntCarry(bx(na), bx(nb))), true)
    }
}

/// The mask of the low `n` bits (`n` a bit width, all ones at 64), and the
/// sign bit, as the machine computes them.
pub open spec fn width_mask(n: usize) -> u64 {
    if n == 64 {
        u64::MAX
    } else {
        u64_specs::wrapping_sub(u64_specs::wrapping_shl(1, n as u32), 1)
    }
}

pub open spec fn sign_mask(n: usize) -> u64 {
    u64_specs::wrapping_shl(1, vstd::wrapping::usize_specs::wrapping_sub(n, 1) as u32)
}

pub open spec fn signed_add_overflows(a: u64, b: u64, n: usize) -> bool {
    let mask = width_mask(n);
    let av = a & mask;
    let bv = b & mask;
    let sum = u64_specs::wrapping_add(av, bv) & mask;
    ((av ^ sum) & (bv ^ sum) & sign_mask(n)) != 0
}

pub open spec fn signed_sub_overflows(a: u64, b: u64, n: usize) -> bool {
    let mask = width_mask(n);
    let av = a & mask;
    let bv = b & mask;
    let diff = u64_specs::wrapping_sub(av, bv) & mask;
    ((av ^ bv) & (av ^ diff) & sign_mask(n)) != 0
}

// Signed carry.
pub open spec fn simp_scarry(a: Value, b: Value, f: nat) -> (Value, bool)
    decreases f, 3nat,
{
    let (na, ca) = simp(a, f);
    let (nb, cb) = simp(b, f);
    if na is Top || nb is Top {
        (Value::Top, true)
    } else if is_const(na) && is_const(nb) {
        (
            bool_const(
                signed_add_overflows(const_u64(na), const_u64(nb), bit_width(na.spec_as_const()->0.size)),
            ),
            true,
        )
    } else if !ca && !cb {
        (Value::IntSCarry(IntSCarry(bx(a), bx(b))), false)
    } else {
        (Value::IntSCarry(IntSCarry(bx(na), bx(nb))), true)
    }
}

// Signed borrow.
pub open spec fn simp_sborrow(a: Value, b: Value, f: nat) -> (Value, bool)
    decreases f, 3nat,
{
    let (na, ca) = simp(a, f);
    let (nb, cb) = simp(b, f);
    if na is Top || nb is Top {
        (Value::Top, true)
    } else if is_const(na) && is_const(nb) {
        (
            bool_const(
                signed_sub_overflows(const_u64(na), const_u64(nb), bit_width(na.spec_as_const()->0.size)),
            ),
            true,
        )
    } else if na == nb {
        (bool_const(false), true)
    } else if !ca && !cb {
        (Value::IntSBorrow(IntSBorrow(bx(a), bx(b))), false)
    } else {
        (Value::IntSBorrow(IntSBorrow(bx(na), bx(nb))), true)
    }
}

// Population count.
pub open spec fn simp_popcount(c: Value, f: nat) -> (Value, bool)
    decreases f, 3nat,
{
    let (nc, cc) = simp(c, f);
    if nc is Top {
        (Value::Top, true)
    } else if is_const(nc) {
        (const_value(spec_popcount(const_u64(nc)) as i64, 1), true)
    } else if !cc {
        (Value::PopCount(PopCount(bx(c))), false)
    } else {
        (Value::PopCount(PopCount(bx(nc))), true)
    }
}

// Two's complement negation.
pub open spec fn simp_2comp(c: Value, out: usize, f: nat) -> (Value, bool)
    decreases f, 3nat,
{
    let (nc, cc) = simp(c, f);
    if nc is Top {
        (Value::Top, true)
    } else if is_const(nc) {
        (const_value(i64_specs::wrapping_sub(0, const_i64(nc)), out), true)
    } else if nc is Int2Comp {
        (*nc->Int2Comp_0.0, true)
    } else if !cc {
        (Value::Int2Comp(Int2CompExpr(bx(c), out)), false)
    } else {
        (Value::Int2Comp(Int2CompExpr(bx(nc), out)), true)
    }
}

} // verus!
