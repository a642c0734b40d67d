//! The simplifier: rewrites a value by the rules of `simplify_spec`, taking
//! the value apart and reusing its nodes.
use crate::analysis::valuation::simplify_spec::{
    derive_size, const_i64, const_u64, is_const, normalize_commutative, choice_order,
    variant_rank, as_boolean_const, is_boolean_valued, bool_const, all_ones, simp, simp_add,
    simp_sub, simp_mul, choice_factored, simp_choice, simp_xor, and_distribute, simp_and,
    simp_or, simp_bool_negate, simp_bool_and, simp_bool_or, simp_bool_xor, bit_width, simp_shl,
    simp_shr, sign_extended_i64, simp_sar, simp_load, simp_zext, sign_extend_raw, simp_sext,
    extraction_mask, simp_extract, extract_add, extract_shift_applies, extract_shift,
    Comparison, simp_comparison, simp_carry, width_mask, sign_mask, simp_scarry, simp_sborrow,
    simp_popcount, simp_2comp,
};
use crate::analysis::valuation::value::{
    AddExpr, AndExpr, BoolAndExpr, BoolNegateExpr, BoolOrExpr, BoolXorExpr, Choice, Const,
    Entry, Extract, Int2CompExpr, IntCarry, IntEqual, IntLeftShiftExpr, IntLess, IntLessEqual,
    IntNotEqual, IntRightShiftExpr, IntSBorrow, IntSCarry, IntSLess, IntSLessEqual,
    IntSignedRightShiftExpr, Load, MulExpr, Offset, OrExpr, PopCount, SignExtend, SubExpr, Value,
    XorExpr, ZeroExtend, duplicate, known_zero_bits, mask_for_size, max_usize, popcount, values_equal,
};
use crate::sleigh::VarNode;
use vstd::prelude::*;
use vstd::wrapping::{i64_specs, u64_specs};

verus! {

/// A node that comes back unchanged is the node itself.
pub proof fn lemma_unchanged(v: Value, fuel: nat)
    ensures
        !simp(v, fuel).1 ==> simp(v, fuel).0 == v,
{
}

fn is_top(v: &Value) -> (r: bool)
    ensures
        r == (*v is Top),
{
    match v {
        Value::Top => true,
        _ => false,
    }
}

fn const_of(v: &Value) -> (r: Option<VarNode>)
    ensures
        r == v.spec_as_const(),
{
    match v {
        Value::Const(c) => Some(c.0),
        _ => None,
    }
}

fn is_const_value(v: &Value) -> (r: bool)
    ensures
        r == is_const(*v),
{
    match v {
        Value::Const(_) => true,
        _ => false,
    }
}

fn const_u64_of(v: &Value) -> (r: u64)
    requires
        is_const(*v),
    ensures
        r == const_u64(*v),
{
    match v {
        Value::Const(c) => c.0.offset,
        _ => 0,
    }
}

fn const_i64_of(v: &Value) -> (r: i64)
    requires
        is_const(*v),
    ensures
        r == const_i64(*v),
{
    match v {
        Value::Const(c) => c.0.offset as i64,
        _ => 0,
    }
}

fn derive_size_of(v: &Value) -> (r: usize)
    ensures
        r == derive_size(*v),
{
    let s = v.size();
    if s == 0 {
        8
    } else {
        s
    }
}

fn normalize_comm(l: Value, r: Value) -> (res: (Value, Value, bool))
    ensures
        res == normalize_commutative(l, r),
{
    if is_const_value(&l) && !is_const_value(&r) {
        (r, l, true)
    } else {
        (l, r, false)
    }
}

fn variant_rank_of(v: &Value) -> (r: u8)
    ensures
        r == variant_rank(*v),
{
    match v {
        Value::Const(_) => 0,
        Value::Entry(_) => 1,
        Value::Offset(_) => 2,
        Value::Mul(_) => 3,
        Value::Add(_) => 4,
        Value::Sub(_) => 5,
        Value::Choice(_) => 6,
        Value::Xor(_) => 7,
        Value::Or(_) => 8,
        Value::And(_) => 9,
        Value::BoolNegate(_) => 10,
        Value::BoolAnd(_) => 11,
        Value::BoolOr(_) => 12,
        Value::BoolXor(_) => 13,
        Value::IntLeftShift(_) => 14,
        Value::IntRightShift(_) => 15,
        Value::IntSignedRightShift(_) => 16,
        Value::Load(_) => 17,
        Value::ZeroExtend(_) => 18,
        Value::SignExtend(_) => 19,
        Value::Extract(_) => 20,
        Value::Top => 21,
        Value::IntSLess(_) => 22,
        Value::IntEqual(_) => 23,
        Value::IntLess(_) => 24,
        Value::PopCount(_) => 25,
        Value::Int2Comp(_) => 26,
        Value::IntNotEqual(_) => 27,
        Value::IntLessEqual(_) => 28,
        Value::IntSLessEqual(_) => 29,
        Value::IntCarry(_) => 30,
        Value::IntSCarry(_) => 31,
        Value::IntSBorrow(_) => 32,
        Value::Bind(_) => 33,
    }
}

fn is_choice(v: &Value) -> (r: bool)
    ensures
        r == (*v is Choice),
{
    match v {
        Value::Choice(_) => true,
        _ => false,
    }
}

fn choice_order_of(na: Value, nb: Value) -> (res: (Value, Value, bool))
    ensures
        res == choice_order(na, nb),
{
    let (l0, r0, s0) = if is_choice(&na) && !is_choice(&nb) {
        (nb, na, true)
    } else {
        (na, nb, false)
    };
    if !is_choice(&l0) && !is_choice(&r0) && variant_rank_of(&l0) > variant_rank_of(&r0) {
        (r0, l0, !s0)
    } else {
        (l0, r0, s0)
    }
}

fn as_boolean_const_of(v: &Value) -> (r: Option<bool>)
    ensures
        r == as_boolean_const(*v),
{
    match v {
        Value::Const(c) => if c.0.size == 1 {
            Some(c.0.offset != 0)
        } else {
            None
        },
        _ => None,
    }
}

fn is_boolean_valued_of(v: &Value) -> (r: bool)
    ensures
        r == is_boolean_valued(*v),
{
    match v {
        Value::Const(c) => c.0.size == 1,
        Value::BoolNegate(_) | Value::BoolAnd(_) | Value::BoolOr(_) | Value::BoolXor(_)
        | Value::IntSLess(_) | Value::IntEqual(_) | Value::IntLess(_) | Value::IntNotEqual(_)
        | Value::IntLessEqual(_) | Value::IntSLessEqual(_) | Value::IntCarry(_) | Value::IntSCarry(
            _,
        ) | Value::IntSBorrow(_) => true,
        _ => false,
    }
}

fn bool_const_of(b: bool) -> (r: Value)
    ensures
        r == bool_const(b),
{
    Value::make_const(if b { 1i64 } else { 0i64 }, 1)
}

fn all_ones_of(size: usize) -> (r: Option<u64>)
    ensures
        r == all_ones(size),
{
    if size == 1 {
        Some(0xFFu64)
    } else if size == 2 {
        Some(0xFFFFu64)
    } else if size == 4 {
        Some(0xFFFF_FFFFu64)
    } else if size == 8 {
        Some(u64::MAX)
    } else {
        None
    }
}

/// The simplified form of `v` (spending at most `fuel` steps), and whether
/// it is a new node.
pub fn simplify_value(v: Value, fuel: u64) -> (r: (Value, bool))
    ensures
        r == simp(v, fuel as nat),
    decreases fuel, 0nat,
{
    if fuel == 0 {
        return (v, false);
    }
    let f = fuel - 1;
    match v {
        Value::Add(x) => simplify_add(*x.0, *x.1, x.2, f),
        Value::Sub(x) => simplify_sub(*x.0, *x.1, x.2, f),
        Value::Mul(x) => simplify_mul(*x.0, *x.1, x.2, f),
        Value::Choice(x) => simplify_choice(*x.0, *x.1, x.2, f),
        Value::Xor(x) => simplify_xor(*x.0, *x.1, x.2, f),
        Value::And(x) => simplify_and(*x.0, *x.1, x.2, f),
        Value::Or(x) => simplify_or(*x.0, *x.1, x.2, f),
        Value::BoolNegate(x) => simplify_bool_negate(*x.0, f),
        Value::BoolAnd(x) => simplify_bool_and(*x.0, *x.1, f),
        Value::BoolOr(x) => simplify_bool_or(*x.0, *x.1, f),
        Value::BoolXor(x) => simplify_bool_xor(*x.0, *x.1, f),
        Value::IntLeftShift(x) => simplify_shl(*x.0, *x.1, x.2, f),
        Value::IntRightShift(x) => simplify_shr(*x.0, *x.1, x.2, f),
        Value::IntSignedRightShift(x) => simplify_sar(*x.0, *x.1, x.2, f),
        Value::Load(x) => simplify_load(*x.0, x.1, x.2, f),
        Value::ZeroExtend(x) => simplify_zext(*x.0, x.1, f),
        Value::SignExtend(x) => simplify_sext(*x.0, x.1, f),
        Value::Extract(x) => simplify_extract(*x.0, x.1, x.2, f),
        Value::IntEqual(x) => simplify_comparison(Comparison::Equal, *x.0, *x.1, f),
        Value::IntNotEqual(x) => simplify_comparison(Comparison::NotEqual, *x.0, *x.1, f),
        Value::IntLess(x) => simplify_comparison(Comparison::Less, *x.0, *x.1, f),
        Value::IntLessEqual(x) => simplify_comparison(Comparison::LessEqual, *x.0, *x.1, f),
        Value::IntSLess(x) => simplify_comparison(Comparison::SLess, *x.0, *x.1, f),
        Value::IntSLessEqual(x) => simplify_comparison(Comparison::SLessEqual, *x.0, *x.1, f),
        Value::IntCarry(x) => simplify_carry(*x.0, *x.1, f),
        Value::IntSCarry(x) => simplify_scarry(*x.0, *x.1, f),
        Value::IntSBorrow(x) => simplify_sborrow(*x.0, *x.1, f),
        Value::PopCount(x) => simplify_popcount(*x.0, f),
        Value::Int2Comp(x) => simplify_2comp(*x.0, x.1, f),
        other => (other, false),
    }
}

fn simplify_add(a: Value, b: Value, s: usize, f: u64) -> (r: (Value, bool))
    ensures
        r == simp_add(a, b, s, f as nat),
    decreases f, 3nat,
{
    let ghost ga = a;
    let ghost gb = b;
    let (na, ca) = simplify_value(a, f);
    let (nb, cb) = simplify_value(b, f);
    if is_top(&na) || is_top(&nb) {
        return (Value::Top, true);
    }
    if is_const_value(&na) && is_const_value(&nb) {
        let x = const_i64_of(&na);
        let y = const_i64_of(&nb);
        let size = max_usize(derive_size_of(&na), derive_size_of(&nb));
        return (Value::make_const(x.wrapping_add(y), size), true);
    }
    let (left, right, swapped) = normalize_comm(na, nb);
    if is_const_value(&right) && const_i64_of(&right) == 0 {
        return (left, true);
    }
    let add_fold = match &left {
        Value::Add(x) => is_const_value(&x.1) && is_const_value(&right),
        _ => false,
    };
    if add_fold {
        let rc = const_i64_of(&right);
        match left {
            Value::Add(x) => {
                let AddExpr(lli, llr, _) = x;
                let inner_c = const_of(&llr).unwrap();
                let res = (inner_c.offset as i64).wrapping_add(rc);
                let size = max_usize(lli.size(), inner_c.size);
                let rebuilt = Value::Add(AddExpr(lli, Box::new(Value::make_const(res, size)), size));
                let (rv, _) = simplify_value(rebuilt, f);
                return (rv, true);
            },
            _ => {
                proof {
                    assert(false);
                }
                return (Value::Top, true);
            },
        }
    }
    let sub_fold = match &left {
        Value::Sub(x) => is_const_value(&x.1) && is_const_value(&right),
        _ => false,
    };
    if sub_fold {
        let rc = const_i64_of(&right);
        let lsize = left.size();
        match left {
            Value::Sub(x) => {
                let SubExpr(expr, a2, _) = x;
                let res = const_i64_of(&a2).wrapping_sub(rc);
                let size = max_usize(expr.size(), lsize);
                if res < 0 {
                    let rebuilt = Value::Add(
                        AddExpr(expr, Box::new(Value::make_const(0i64.wrapping_sub(res), size)), size),
                    );
                    let (rv, _) = simplify_value(rebuilt, f);
                    return (rv, true);
                } else {
                    let rebuilt = Value::Sub(SubExpr(expr, Box::new(Value::make_const(res, size)), size));
                    let (rv, _) = simplify_value(rebuilt, f);
                    return (rv, true);
                }
            },
            _ => {
                proof {
                    assert(false);
                }
                return (Value::Top, true);
            },
        }
    }
    if !swapped && !ca && !cb {
        proof {
            lemma_unchanged(ga, f as nat);
            lemma_unchanged(gb, f as nat);
        }
        return (Value::Add(AddExpr(Box::new(left), Box::new(right), s)), false);
    }
    let sz = max_usize(left.size(), right.size());
    (Value::Add(AddExpr(Box::new(left), Box::new(right), sz)), true)
}

fn simplify_sub(a: Value, b: Value, s: usize, f: u64) -> (r: (Value, bool))
    ensures
        r == simp_sub(a, b, s, f as nat),
    decreases f, 3nat,
{
    let ghost ga = a;
    let ghost gb = b;
    let (left, ca) = simplify_value(a, f);
    let (right, cb) = simplify_value(b, f);
    if is_top(&left) || is_top(&right) {
        return (Value::Top, true);
    }
    if is_const_value(&left) && is_const_value(&right) {
        let x = const_i64_of(&left);
        let y = const_i64_of(&right);
        let size = max_usize(derive_size_of(&left), derive_size_of(&right));
        return (Value::make_const(x.wrapping_sub(y), size), true);
    }
    if is_const_value(&right) && const_i64_of(&right) == 0 {
        return (left, true);
    }
    if is_const_value(&right) && const_i64_of(&right) < 0 {
        let a2 = const_i64_of(&right);
        let size = left.size();
        let rebuilt = Value::Add(
            AddExpr(Box::new(left), Box::new(Value::make_const(0i64.wrapping_sub(a2), size)), size),
        );
        let (rv, _) = simplify_value(rebuilt, f);
        return (rv, true);
    }
    if values_equal(&left, &right) {
        let size = derive_size_of(&left);
        return (Value::make_const(0, size), true);
    }
    let add_fold = match &left {
        Value::Add(x) => is_const_value(&x.1) && is_const_value(&right),
        _ => false,
    };
    if add_fold {
        let rc = const_i64_of(&right);
        let lsize = left.size();
        match left {
            Value::Add(x) => {
                let AddExpr(expr, a2, _) = x;
                let res = const_i64_of(&a2).wrapping_sub(rc);
                let size = max_usize(expr.size(), lsize);
                if res < 0 {
                    let rebuilt = Value::Sub(
                        SubExpr(expr, Box::new(Value::make_const(0i64.wrapping_sub(res), size)), size),
                    );
                    let (rv, _) = simplify_value(rebuilt, f);
                    return (rv, true);
                } else {
                    let rebuilt = Value::Add(AddExpr(expr, Box::new(Value::make_const(res, size)), size));
                    let (rv, _) = simplify_value(rebuilt, f);
                    return (rv, true);
                }
            },
            _ => {
                proof {
                    assert(false);
                }
                return (Value::Top, true);
            },
        }
    }
    let sub_fold = match &left {
        Value::Sub(x) => is_const_value(&x.1) && is_const_value(&right),
        _ => false,
    };
    if sub_fold {
        let rc = const_i64_of(&right);
        let lsize = left.size();
        match left {
            Value::Sub(x) => {
                let SubExpr(expr, a2, _) = x;
                let res = const_i64_of(&a2).wrapping_add(rc);
                let size = max_usize(expr.size(), lsize);
                let rebuilt = Value::Sub(SubExpr(expr, Box::new(Value::make_const(res, size)), size));
                let (rv, _) = simplify_value(rebuilt, f);
                return (rv, true);
            },
            _ => {
                proof {
                    assert(false);
                }
                return (Value::Top, true);
            },
        }
    }
    if !ca && !cb {
        proof {
            lemma_unchanged(ga, f as nat);
            lemma_unchanged(gb, f as nat);
        }
        return (Value::Sub(SubExpr(Box::new(left), Box::new(right), s)), false);
    }
    let sz = max_usize(left.size(), right.size());
    (Value::Sub(SubExpr(Box::new(left), Box::new(right), sz)), true)
}

fn simplify_mul(a: Value, b: Value, s: usize, f: u64) -> (r: (Value, bool))
    ensures
        r == simp_mul(a, b, s, f as nat),
    decreases f, 3nat,
{
    let ghost ga = a;
    let ghost gb = b;
    let (na, ca) = simplify_value(a, f);
    let (nb, cb) = simplify_value(b, f);
    if is_top(&na) || is_top(&nb) {
        return (Value::Top, true);
    }
    let (left, right, swapped) = normalize_comm(na, nb);
    if is_const_value(&left) && is_const_value(&right) {
        let x = const_i64_of(&left);
        let y = const_i64_of(&right);
        let size = max_usize(derive_size_of(&left), derive_size_of(&right));
        return (Value::make_const(x.wrapping_mul(y), size), true);
    }
    if is_const_value(&right) && const_i64_of(&right) == 1 {
        return (left, true);
    }
    if is_const_value(&right) && const_i64_of(&right) == 0 {
        let size = derive_size_of(&left);
        return (Value::make_const(0, size), true);
    }
    if !swapped && !ca && !cb {
        proof {
            lemma_unchanged(ga, f as nat);
            lemma_unchanged(gb, f as nat);
        }
        return (Value::Mul(MulExpr(Box::new(left), Box::new(right), s)), false);
    }
    let sz = max_usize(left.size(), right.size());
    (Value::Mul(MulExpr(Box::new(left), Box::new(right), sz)), true)
}


fn factored(common: Value, x: Value, y: Value, f: u64) -> (r: Value)
    ensures
        r == choice_factored(common, x, y, f as nat),
    decreases f, 2nat,
{
    let inner_s = max_usize(x.size(), y.size());
    let (inner, _) = simplify_value(Value::Choice(Choice(Box::new(x), Box::new(y), inner_s)), f);
    let s = max_usize(common.size(), inner.size());
    let (top, _) = simplify_value(Value::Choice(Choice(Box::new(common), Box::new(inner), s)), f);
    top
}

fn simplify_choice(a: Value, b: Value, s: usize, f: u64) -> (r: (Value, bool))
    ensures
        r == simp_choice(a, b, s, f as nat),
    decreases f, 3nat,
{
    let ghost ga = a;
    let ghost gb = b;
    let (na, ca) = simplify_value(a, f);
    let (nb, cb) = simplify_value(b, f);
    if is_top(&na) || is_top(&nb) {
        return (Value::Top, true);
    }
    let (left, right, swapped) = choice_order_of(na, nb);
    if values_equal(&left, &right) {
        return (left, true);
    }
    let (dup_first, dup_second) = match &right {
        Value::Choice(x) => (values_equal(&x.0, &left), values_equal(&x.1, &left)),
        _ => (false, false),
    };
    if dup_first || dup_second {
        let rsize = right.size();
        match right {
            Value::Choice(x) => {
                let Choice(ia, ib, _) = x;
                let keep = if dup_first { ib } else { ia };
                let (rv, _) = simplify_value(Value::Choice(Choice(Box::new(left), keep, rsize)), f);
                return (rv, true);
            },
            _ => {
                proof {
                    assert(false);
                }
                return (Value::Top, true);
            },
        }
    }
    let common = match (&left, &right) {
        (Value::Choice(l), Value::Choice(r)) => if values_equal(&l.0, &r.0) {
            1u8
        } else if values_equal(&l.0, &r.1) {
            2u8
        } else if values_equal(&l.1, &r.0) {
            3u8
        } else if values_equal(&l.1, &r.1) {
            4u8
        } else {
            0u8
        },
        _ => 0u8,
    };
    if common != 0 {
        match (left, right) {
            (Value::Choice(l), Value::Choice(r)) => {
                let Choice(l1, l2, _) = l;
                let Choice(r1, r2, _) = r;
                let v = if common == 1 {
                    factored(*l1, *l2, *r2, f)
                } else if common == 2 {
                    factored(*l1, *l2, *r1, f)
                } else if common == 3 {
                    factored(*l2, *l1, *r2, f)
                } else {
                    factored(*l2, *l1, *r1, f)
                };
                return (v, true);
            },
            _ => {
                proof {
                    assert(false);
                }
                return (Value::Top, true);
            },
        }
    }
    if !swapped && !ca && !cb {
        proof {
            lemma_unchanged(ga, f as nat);
            lemma_unchanged(gb, f as nat);
        }
        return (Value::Choice(Choice(Box::new(left), Box::new(right), s)), false);
    }
    let sz = max_usize(left.size(), right.size());
    (Value::Choice(Choice(Box::new(left), Box::new(right), sz)), true)
}

fn simplify_xor(a: Value, b: Value, s: usize, f: u64) -> (r: (Value, bool))
    ensures
        r == simp_xor(a, b, s, f as nat),
    decreases f, 3nat,
{
    let ghost ga = a;
    let ghost gb = b;
    let (na, ca) = simplify_value(a, f);
    let (nb, cb) = simplify_value(b, f);
    if is_top(&na) || is_top(&nb) {
        return (Value::Top, true);
    }
    let (left, right, swapped) = normalize_comm(na, nb);
    if is_const_value(&left) && is_const_value(&right) {
        let x = const_u64_of(&left);
        let y = const_u64_of(&right);
        let size = max_usize(derive_size_of(&left), derive_size_of(&right));
        return (Value::make_const((x ^ y) as i64, size), true);
    }
    if values_equal(&left, &right) {
        let size = derive_size_of(&left);
        return (Value::make_const(0, size), true);
    }
    if is_const_value(&right) && const_u64_of(&right) == 0 {
        return (left, true);
    }
    if !swapped && !ca && !cb {
        proof {
            lemma_unchanged(ga, f as nat);
            lemma_unchanged(gb, f as nat);
        }
        return (Value::Xor(XorExpr(Box::new(left), Box::new(right), s)), false);
    }
    let sz = max_usize(left.size(), right.size());
    (Value::Xor(XorExpr(Box::new(left), Box::new(right), sz)), true)
}

fn distribute(or_l: Value, or_r: Value, right: Value, f: u64) -> (r: Value)
    ensures
        r == and_distribute(or_l, or_r, right, f as nat),
    decreases f, 2nat,
{
    let right2 = duplicate(&right);
    let sl = max_usize(or_l.size(), right.size());
    let (new_l, _) = simplify_value(Value::And(AndExpr(Box::new(or_l), Box::new(right), sl)), f);
    let sr = max_usize(or_r.size(), right2.size());
    let (new_r, _) = simplify_value(Value::And(AndExpr(Box::new(or_r), Box::new(right2), sr)), f);
    if values_equal(&new_l, &new_r) {
        return new_l;
    }
    let s = max_usize(new_l.size(), new_r.size());
    Value::Or(OrExpr(Box::new(new_l), Box::new(new_r), s))
}

fn simplify_and(a: Value, b: Value, s: usize, f: u64) -> (r: (Value, bool))
    ensures
        r == simp_and(a, b, s, f as nat),
    decreases f, 3nat,
{
    let ghost ga = a;
    let ghost gb = b;
    let (na, ca) = simplify_value(a, f);
    let (nb, cb) = simplify_value(b, f);
    if is_top(&na) || is_top(&nb) {
        return (Value::Top, true);
    }
    let (left, right, swapped) = normalize_comm(na, nb);
    if is_const_value(&left) && is_const_value(&right) {
        let x = const_u64_of(&left);
        let y = const_u64_of(&right);
        let size = max_usize(derive_size_of(&left), derive_size_of(&right));
        return (Value::make_const((x & y) as i64, size), true);
    }
    if values_equal(&left, &right) {
        return (left, true);
    }
    if is_const_value(&right) && const_u64_of(&right) == 0 {
        let size = derive_size_of(&left);
        return (Value::make_const(0, size), true);
    }
    match all_ones_of(left.size()) {
        Some(mask) => {
            if is_const_value(&right) && const_u64_of(&right) == mask {
                return (left, true);
            }
        },
        None => {},
    }
    let rule_a = is_const_value(&right) && match &left {
        Value::And(x) => is_const_value(&x.1),
        _ => false,
    };
    if rule_a {
        let rv = const_u64_of(&right);
        let sz = left.size();
        match left {
            Value::And(x) => {
                let AndExpr(inner_x, inner_m, _) = x;
                let folded = (rv & const_u64_of(&inner_m)) as i64;
                let (v, _) = simplify_value(
                    Value::And(AndExpr(inner_x, Box::new(Value::make_const(folded, sz)), sz)),
                    f,
                );
                return (v, true);
            },
            _ => {
                proof {
                    assert(false);
                }
                return (Value::Top, true);
            },
        }
    }
    if is_const_value(&right) && (!const_u64_of(&right) & !known_zero_bits(&left)) == 0 {
        return (left, true);
    }
    let rule_c = is_const_value(&right) && match &left {
        Value::Or(x) => known_zero_bits(&x.0) != 0 || known_zero_bits(&x.1) != 0,
        _ => false,
    };
    if rule_c {
        match left {
            Value::Or(x) => {
                let OrExpr(or_l, or_r, _) = x;
                return (distribute(*or_l, *or_r, right, f), true);
            },
            _ => {
                proof {
                    assert(false);
                }
                return (Value::Top, true);
            },
        }
    }
    if !swapped && !ca && !cb {
        proof {
            lemma_unchanged(ga, f as nat);
            lemma_unchanged(gb, f as nat);
        }
        return (Value::And(AndExpr(Box::new(left), Box::new(right), s)), false);
    }
    let sz = max_usize(left.size(), right.size());
    (Value::And(AndExpr(Box::new(left), Box::new(right), sz)), true)
}

fn simplify_or(a: Value, b: Value, s: usize, f: u64) -> (r: (Value, bool))
    ensures
        r == simp_or(a, b, s, f as nat),
    decreases f, 3nat,
{
    let ghost ga = a;
    let ghost gb = b;
    let (na, ca) = simplify_value(a, f);
    let (nb, cb) = simplify_value(b, f);
    if is_top(&na) || is_top(&nb) {
        return (Value::Top, true);
    }
    let (left, right, swapped) = normalize_comm(na, nb);
    if is_const_value(&left) && is_const_value(&right) {
        let x = const_u64_of(&left);
        let y = const_u64_of(&right);
        let size = max_usize(derive_size_of(&left), derive_size_of(&right));
        return (Value::make_const((x | y) as i64, size), true);
    }
    if values_equal(&left, &right) {
        return (left, true);
    }
    if is_const_value(&right) && const_u64_of(&right) == 0 {
        return (left, true);
    }
    match all_ones_of(left.size()) {
        Some(mask) => {
            if is_const_value(&right) && const_u64_of(&right) == mask {
                let size = derive_size_of(&left);
                return (Value::make_const(mask as i64, size), true);
            }
        },
        None => {},
    }
    if !swapped && !ca && !cb {
        proof {
            lemma_unchanged(ga, f as nat);
            lemma_unchanged(gb, f as nat);
        }
        return (Value::Or(OrExpr(Box::new(left), Box::new(right), s)), false);
    }
    let sz = max_usize(left.size(), right.size());
    (Value::Or(OrExpr(Box::new(left), Box::new(right), sz)), true)
}

fn simplify_bool_negate(c: Value, f: u64) -> (r: (Value, bool))
    ensures
        r == simp_bool_negate(c, f as nat),
    decreases f, 3nat,
{
    let ghost gc = c;
    let (nc, cc) = simplify_value(c, f);
    if is_top(&nc) {
        return (Value::Top, true);
    }
    match as_boolean_const_of(&nc) {
        Some(b) => {
            return (bool_const_of(!b), true);
        },
        None => {},
    }
    let double = match &nc {
        Value::BoolNegate(x) => is_boolean_valued_of(&x.0),
        _ => false,
    };
    if double {
        match nc {
            Value::BoolNegate(x) => {
                return (*x.0, true);
            },
            _ => {
                proof {
                    assert(false);
                }
                return (Value::Top, true);
            },
        }
    }
    match nc {
        Value::IntEqual(IntEqual(x, y)) => (Value::IntNotEqual(IntNotEqual(x, y)), true),
        Value::IntNotEqual(IntNotEqual(x, y)) => (Value::IntEqual(IntEqual(x, y)), true),
        Value::IntLess(IntLess(x, y)) => (Value::IntLessEqual(IntLessEqual(y, x)), true),
        Value::IntLessEqual(IntLessEqual(x, y)) => (Value::IntLess(IntLess(y, x)), true),
        Value::IntSLess(IntSLess(x, y)) => (Value::IntSLessEqual(IntSLessEqual(y, x)), true),
        Value::IntSLessEqual(IntSLessEqual(x, y)) => (Value::IntSLess(IntSLess(y, x)), true),
        other => if !cc {
            proof {
                lemma_unchanged(gc, f as nat);
            }
            (Value::BoolNegate(BoolNegateExpr(Box::new(other))), false)
        } else {
            (Value::BoolNegate(BoolNegateExpr(Box::new(other))), true)
        },
    }
}

fn simplify_bool_and(a: Value, b: Value, f: u64) -> (r: (Value, bool))
    ensures
        r == simp_bool_and(a, b, f as nat),
    decreases f, 3nat,
{
    let ghost ga = a;
    let ghost gb = b;
    let (na, ca) = simplify_value(a, f);
    let (nb, cb) = simplify_value(b, f);
    if is_top(&na) || is_top(&nb) {
        return (Value::Top, true);
    }
    let (left, right, swapped) = normalize_comm(na, nb);
    let lb = as_boolean_const_of(&left);
    let rb = as_boolean_const_of(&right);
    if lb.is_some() && rb.is_some() {
        return (bool_const_of(lb.unwrap() && rb.unwrap()), true);
    }
    if values_equal(&left, &right) && is_boolean_valued_of(&left) {
        return (left, true);
    }
    if rb == Some(false) {
        return (bool_const_of(false), true);
    }
    if rb == Some(true) && is_boolean_valued_of(&left) {
        return (left, true);
    }
    if !swapped && !ca && !cb {
        proof {
            lemma_unchanged(ga, f as nat);
            lemma_unchanged(gb, f as nat);
        }
        return (Value::BoolAnd(BoolAndExpr(Box::new(left), Box::new(right))), false);
    }
    (Value::BoolAnd(BoolAndExpr(Box::new(left), Box::new(right))), true)
}

fn simplify_bool_or(a: Value, b: Value, f: u64) -> (r: (Value, bool))
    ensures
        r == simp_bool_or(a, b, f as nat),
    decreases f, 3nat,
{
    let ghost ga = a;
    let ghost gb = b;
    let (na, ca) = simplify_value(a, f);
    let (nb, cb) = simplify_value(b, f);
    if is_top(&na) || is_top(&nb) {
        return (Value::Top, true);
    }
    let (left, right, swapped) = normalize_comm(na, nb);
    let lb = as_boolean_const_of(&left);
    let rb = as_boolean_const_of(&right);
    if lb.is_some() && rb.is_some() {
        return (bool_const_of(lb.unwrap() || rb.unwrap()), true);
    }
    if values_equal(&left, &right) && is_boolean_valued_of(&left) {
        return (left, true);
    }
    if rb == Some(false) && is_boolean_valued_of(&left) {
        return (left, true);
    }
    if rb == Some(true) {
        return (bool_const_of(true), true);
    }
    if !swapped && !ca && !cb {
        proof {
            lemma_unchanged(ga, f as nat);
            lemma_unchanged(gb, f as nat);
        }
        return (Value::BoolOr(BoolOrExpr(Box::new(left), Box::new(right))), false);
    }
    (Value::BoolOr(BoolOrExpr(Box::new(left), Box::new(right))), true)
}

fn simplify_bool_xor(a: Value, b: Value, f: u64) -> (r: (Value, bool))
    ensures
        r == simp_bool_xor(a, b, f as nat),
    decreases f, 3nat,
{
    let ghost ga = a;
    let ghost gb = b;
    let (na, ca) = simplify_value(a, f);
    let (nb, cb) = simplify_value(b, f);
    if is_top(&na) || is_top(&nb) {
        return (Value::Top, true);
    }
    let (left, right, swapped) = normalize_comm(na, nb);
    let lb = as_boolean_const_of(&left);
    let rb = as_boolean_const_of(&right);
    if lb.is_some() && rb.is_some() {
        return (bool_const_of(lb.unwrap() != rb.unwrap()), true);
    }
    if values_equal(&left, &right) && is_boolean_valued_of(&left) {
        return (bool_const_of(false), true);
    }
    if rb == Some(false) && is_boolean_valued_of(&left) {
        return (left, true);
    }
    if rb == Some(true) && is_boolean_valued_of(&left) {
        let (v, _) = simplify_value(Value::BoolNegate(BoolNegateExpr(Box::new(left))), f);
        return (v, true);
    }
    if !swapped && !ca && !cb {
        proof {
            lemma_unchanged(ga, f as nat);
            lemma_unchanged(gb, f as nat);
        }
        return (Value::BoolXor(BoolXorExpr(Box::new(left), Box::new(right))), false);
    }
    (Value::BoolXor(BoolXorExpr(Box::new(left), Box::new(right))), true)
}

fn bit_width_of(size: usize) -> (r: usize)
    ensures
        r == bit_width(size),
{
    size.wrapping_mul(8)
}

fn simplify_shl(a: Value, b: Value, s: usize, f: u64) -> (r: (Value, bool))
    ensures
        r == simp_shl(a, b, s, f as nat),
    decreases f, 3nat,
{
    let ghost ga = a;
    let ghost gb = b;
    let (na, ca) = simplify_value(a, f);
    let (nb, cb) = simplify_value(b, f);
    if is_top(&na) || is_top(&nb) {
        return (Value::Top, true);
    }
    if is_const_value(&na) && is_const_value(&nb) {
        let lv = const_of(&na).unwrap();
        let shift_amt = const_u64_of(&nb);
        let size = derive_size_of(&na);
        if shift_amt >= bit_width_of(lv.size) as u64 {
            return (Value::make_const(0, size), true);
        }
        let masked = lv.offset.wrapping_shl(shift_amt as u32) & mask_for_size(lv.size);
        return (Value::make_const(masked as i64, size), true);
    }
    if is_const_value(&nb) && const_u64_of(&nb) == 0 {
        return (na, true);
    }
    if !ca && !cb {
        proof {
            lemma_unchanged(ga, f as nat);
            lemma_unchanged(gb, f as nat);
        }
        return (Value::IntLeftShift(IntLeftShiftExpr(Box::new(na), Box::new(nb), s)), false);
    }
    let sz = max_usize(na.size(), nb.size());
    (Value::IntLeftShift(IntLeftShiftExpr(Box::new(na), Box::new(nb), sz)), true)
}

fn simplify_shr(a: Value, b: Value, s: usize, f: u64) -> (r: (Value, bool))
    ensures
        r == simp_shr(a, b, s, f as nat),
    decreases f, 3nat,
{
    let ghost ga = a;
    let ghost gb = b;
    let (na, ca) = simplify_value(a, f);
    let (nb, cb) = simplify_value(b, f);
    if is_top(&na) || is_top(&nb) {
        return (Value::Top, true);
    }
    if is_const_value(&na) && is_const_value(&nb) {
        let lv = const_of(&na).unwrap();
        let shift_amt = const_u64_of(&nb);
        let size = derive_size_of(&na);
        if shift_amt >= bit_width_of(lv.size) as u64 {
            return (Value::make_const(0, size), true);
        }
        let result = lv.offset.wrapping_shr(shift_amt as u32);
        return (Value::make_const(result as i64, size), true);
    }
    if is_const_value(&nb) && const_u64_of(&nb) == 0 {
        return (na, true);
    }
    if !ca && !cb {
        proof {
            lemma_unchanged(ga, f as nat);
            lemma_unchanged(gb, f as nat);
        }
        return (Value::IntRightShift(IntRightShiftExpr(Box::new(na), Box::new(nb), s)), false);
    }
    let sz = max_usize(na.size(), nb.size());
    (Value::IntRightShift(IntRightShiftExpr(Box::new(na), Box::new(nb), sz)), true)
}

fn sign_extended(v: u64, size_bits: u32) -> (r: i64)
    ensures
        r == sign_extended_i64(v, size_bits),
{
    if size_bits < 64 {
        let sign_bit = 1u64.wrapping_shl(size_bits.wrapping_sub(1));
        if v & sign_bit != 0 {
            (v | (u64::MAX << size_bits)) as i64
        } else {
            v as i64
        }
    } else {
        v as i64
    }
}

fn simplify_sar(a: Value, b: Value, s: usize, f: u64) -> (r: (Value, bool))
    ensures
        r == simp_sar(a, b, s, f as nat),
    decreases f, 3nat,
{
    let ghost ga = a;
    let ghost gb = b;
    let (na, ca) = simplify_value(a, f);
    let (nb, cb) = simplify_value(b, f);
    if is_top(&na) || is_top(&nb) {
        return (Value::Top, true);
    }
    if is_const_value(&na) && is_const_value(&nb) {
        let lv = const_of(&na).unwrap();
        let shift_amt = const_u64_of(&nb);
        let size = derive_size_of(&na);
        let size_bits = bit_width_of(lv.size) as u32;
        let signed_val = sign_extended(lv.offset, size_bits);
        if shift_amt >= size_bits as u64 {
            return (Value::make_const(if signed_val < 0 { -1i64 } else { 0i64 }, size), true);
        }
        let masked = (signed_val.wrapping_shr(shift_amt as u32) as u64) & mask_for_size(lv.size);
        return (Value::make_const(masked as i64, size), true);
    }
    if is_const_value(&nb) && const_u64_of(&nb) == 0 {
        return (na, true);
    }
    if !ca && !cb {
        proof {
            lemma_unchanged(ga, f as nat);
            lemma_unchanged(gb, f as nat);
        }
        return (
            Value::IntSignedRightShift(IntSignedRightShiftExpr(Box::new(na), Box::new(nb), s)),
            false,
        );
    }
    let sz = max_usize(na.size(), nb.size());
    (Value::IntSignedRightShift(IntSignedRightShiftExpr(Box::new(na), Box::new(nb), sz)), true)
}

fn simplify_load(c: Value, size: usize, space: u8, f: u64) -> (r: (Value, bool))
    ensures
        r == simp_load(c, size, space, f as nat),
    decreases f, 3nat,
{
    let ghost gc = c;
    let (nc, cc) = simplify_value(c, f);
    if !cc {
        proof {
            lemma_unchanged(gc, f as nat);
        }
        return (Value::Load(Load(Box::new(nc), size, space)), false);
    }
    (Value::Load(Load(Box::new(nc), size, space)), true)
}

fn simplify_zext(c: Value, out: usize, f: u64) -> (r: (Value, bool))
    ensures
        r == simp_zext(c, out, f as nat),
    decreases f, 3nat,
{
    let ghost gc = c;
    let (nc, cc) = simplify_value(c, f);
    if is_top(&nc) {
        return (Value::Top, true);
    }
    if nc.size() == out {
        return (nc, true);
    }
    if is_const_value(&nc) {
        let vn = const_of(&nc).unwrap();
        return (Value::make_const((vn.offset & mask_for_size(vn.size)) as i64, out), true);
    }
    let chain = match &nc {
        Value::ZeroExtend(x) => out >= x.1,
        _ => false,
    };
    if chain {
        match nc {
            Value::ZeroExtend(x) => {
                let (v, _) = simplify_value(Value::ZeroExtend(ZeroExtend(x.0, out)), f);
                return (v, true);
            },
            _ => {
                proof {
                    assert(false);
                }
                return (Value::Top, true);
            },
        }
    }
    if !cc {
        proof {
            lemma_unchanged(gc, f as nat);
        }
        return (Value::ZeroExtend(ZeroExtend(Box::new(nc), out)), false);
    }
    (Value::ZeroExtend(ZeroExtend(Box::new(nc), out)), true)
}

fn sign_extend_raw_of(raw: u64, src_size: usize) -> (r: u64)
    ensures
        r == sign_extend_raw(raw, src_size),
{
    if src_size > 0 && src_size < 8 {
        let sign_bit = 1u64 << ((src_size * 8 - 1) as u64);
        if raw & sign_bit != 0 {
            raw | (u64::MAX << ((src_size * 8) as u64))
        } else {
            raw
        }
    } else {
        raw
    }
}

fn simplify_sext(c: Value, out: usize, f: u64) -> (r: (Value, bool))
    ensures
        r == simp_sext(c, out, f as nat),
    decreases f, 3nat,
{
    let ghost gc = c;
    let (nc, cc) = simplify_value(c, f);
    if is_top(&nc) {
        return (Value::Top, true);
    }
    if nc.size() == out {
        return (nc, true);
    }
    if is_const_value(&nc) {
        let vn = const_of(&nc).unwrap();
        let masked = sign_extend_raw_of(vn.offset, vn.size) & mask_for_size(out);
        return (Value::make_const(masked as i64, out), true);
    }
    let chain = match &nc {
        Value::SignExtend(x) => out >= x.1,
        _ => false,
    };
    if chain {
        match nc {
            Value::SignExtend(x) => {
                let (v, _) = simplify_value(Value::SignExtend(SignExtend(x.0, out)), f);
                return (v, true);
            },
            _ => {
                proof {
                    assert(false);
                }
                return (Value::Top, true);
            },
        }
    }
    if !cc {
        proof {
            lemma_unchanged(gc, f as nat);
        }
        return (Value::SignExtend(SignExtend(Box::new(nc), out)), false);
    }
    (Value::SignExtend(SignExtend(Box::new(nc), out)), true)
}

fn simplify_comparison(k: Comparison, a: Value, b: Value, f: u64) -> (r: (Value, bool))
    ensures
        r == simp_comparison(k, a, b, f as nat),
    decreases f, 3nat,
{
    let ghost ga = a;
    let ghost gb = b;
    let (na, ca) = simplify_value(a, f);
    let (nb, cb) = simplify_value(b, f);
    if is_top(&na) || is_top(&nb) {
        return (Value::Top, true);
    }
    if is_const_value(&na) && is_const_value(&nb) {
        let x = const_u64_of(&na);
        let y = const_u64_of(&nb);
        let res = match k {
            Comparison::Equal => x == y,
            Comparison::NotEqual => x != y,
            Comparison::Less => x < y,
            Comparison::LessEqual => x <= y,
            Comparison::SLess => (x as i64) < (y as i64),
            Comparison::SLessEqual => (x as i64) <= (y as i64),
        };
        return (bool_const_of(res), true);
    }
    if values_equal(&na, &nb) {
        let same = match k {
            Comparison::Equal | Comparison::LessEqual | Comparison::SLessEqual => true,
            _ => false,
        };
        return (bool_const_of(same), true);
    }
    let changed = ca || cb;
    if !changed {
        proof {
            lemma_unchanged(ga, f as nat);
            lemma_unchanged(gb, f as nat);
        }
    }
    let x = Box::new(na);
    let y = Box::new(nb);
    let node = match k {
        Comparison::Equal => Value::IntEqual(IntEqual(x, y)),
        Comparison::NotEqual => Value::IntNotEqual(IntNotEqual(x, y)),
        Comparison::Less => Value::IntLess(IntLess(x, y)),
        Comparison::LessEqual => Value::IntLessEqual(IntLessEqual(x, y)),
        Comparison::SLess => Value::IntSLess(IntSLess(x, y)),
        Comparison::SLessEqual => Value::IntSLessEqual(IntSLessEqual(x, y)),
    };
    (node, changed)
}

fn simplify_carry(a: Value, b: Value, f: u64) -> (r: (Value, bool))
    ensures
        r == simp_carry(a, b, f as nat),
    decreases f, 3nat,
{
    let ghost ga = a;
    let ghost gb = b;
    let (na, ca) = simplify_value(a, f);
    let (nb, cb) = simplify_value(b, f);
    if is_top(&na) || is_top(&nb) {
        return (Value::Top, true);
    }
    if is_const_value(&na) && is_const_value(&nb) {
        let av = const_of(&na).unwrap();
        let bits = bit_width_of(av.size) as u32;
        let sum: u128 = av.offset as u128 + const_u64_of(&nb) as u128;
        return (bool_const_of(sum.wrapping_shr(bits) != 0), true);
    }
    if !ca && !cb {
        proof {
            lemma_unchanged(ga, f as nat);
            lemma_unchanged(gb, f as nat);
        }
        return (Value::IntCarry(IntCarry(Box::new(na), Box::new(nb))), false);
    }
    (Value::IntCarry(IntCarry(Box::new(na), Box::new(nb))), true)
}

fn width_mask_of(n: usize) -> (r: u64)
    ensures
        r == width_mask(n),
{
    if n == 64 {
        u64::MAX
    } else {
        1u64.wrapping_shl(n as u32).wrapping_sub(1)
    }
}

fn sign_mask_of(n: usize) -> (r: u64)
    ensures
        r == sign_mask(n),
{
    1u64.wrapping_shl(n.wrapping_sub(1) as u32)
}

fn simplify_scarry(a: Value, b: Value, f: u64) -> (r: (Value, bool))
    ensures
        r == simp_scarry(a, b, f as nat),
    decreases f, 3nat,
{
    let ghost ga = a;
    let ghost gb = b;
    let (na, ca) = simplify_value(a, f);
    let (nb, cb) = simplify_value(b, f);
    if is_top(&na) || is_top(&nb) {
        return (Value::Top, true);
    }
    if is_const_value(&na) && is_const_value(&nb) {
        let n = bit_width_of(const_of(&na).unwrap().size);
        let mask = width_mask_of(n);
        let av = const_u64_of(&na) & mask;
        let bv = const_u64_of(&nb) & mask;
        let sum = av.wrapping_add(bv) & mask;
        let overflow = ((av ^ sum) & (bv ^ sum) & sign_mask_of(n)) != 0;
        return (bool_const_of(overflow), true);
    }
    if !ca && !cb {
        proof {
            lemma_unchanged(ga, f as nat);
            lemma_unchanged(gb, f as nat);
        }
        return (Value::IntSCarry(IntSCarry(Box::new(na), Box::new(nb))), false);
    }
    (Value::IntSCarry(IntSCarry(Box::new(na), Box::new(nb))), true)
}

fn simplify_sborrow(a: Value, b: Value, f: u64) -> (r: (Value, bool))
    ensures
        r == simp_sborrow(a, b, f as nat),
    decreases f, 3nat,
{
    let ghost ga = a;
    let ghost gb = b;
    let (na, ca) = simplify_value(a, f);
    let (nb, cb) = simplify_value(b, f);
    if is_top(&na) || is_top(&nb) {
        return (Value::Top, true);
    }
    if is_const_value(&na) && is_const_value(&nb) {
        let n = bit_width_of(const_of(&na).unwrap().size);
        let mask = width_mask_of(n);
        let av = const_u64_of(&na) & mask;
        let bv = const_u64_of(&nb) & mask;
        let diff = av.wrapping_sub(bv) & mask;
        let overflow = ((av ^ bv) & (av ^ diff) & sign_mask_of(n)) != 0;
        return (bool_const_of(overflow), true);
    }
    if values_equal(&na, &nb) {
        return (bool_const_of(false), true);
    }
    if !ca && !cb {
        proof {
            lemma_unchanged(ga, f as nat);
            lemma_unchanged(gb, f as nat);
        }
        return (Value::IntSBorrow(IntSBorrow(Box::new(na), Box::new(nb))), false);
    }
    (Value::IntSBorrow(IntSBorrow(Box::new(na), Box::new(nb))), true)
}

fn simplify_popcount(c: Value, f: u64) -> (r: (Value, bool))
    ensures
        r == simp_popcount(c, f as nat),
    decreases f, 3nat,
{
    let ghost gc = c;
    let (nc, cc) = simplify_value(c, f);
    if is_top(&nc) {
        return (Value::Top, true);
    }
    if is_const_value(&nc) {
        let n = popcount(const_u64_of(&nc));
        return (Value::make_const(n as i64, 1), true);
    }
    if !cc {
        proof {
            lemma_unchanged(gc, f as nat);
        }
        return (Value::PopCount(PopCount(Box::new(nc))), false);
    }
    (Value::PopCount(PopCount(Box::new(nc))), true)
}

fn simplify_2comp(c: Value, out: usize, f: u64) -> (r: (Value, bool))
    ensures
        r == simp_2comp(c, out, f as nat),
    decreases f, 3nat,
{
    let ghost gc = c;
    let (nc, cc) = simplify_value(c, f);
    if is_top(&nc) {
        return (Value::Top, true);
    }
    if is_const_value(&nc) {
        let v = 0i64.wrapping_sub(const_i64_of(&nc));
        return (Value::make_const(v, out), true);
    }
    match nc {
        Value::Int2Comp(x) => (*x.0, true),
        other => if !cc {
            proof {
                lemma_unchanged(gc, f as nat);
            }
            (Value::Int2Comp(Int2CompExpr(Box::new(other), out)), false)
        } else {
            (Value::Int2Comp(Int2CompExpr(Box::new(other), out)), true)
        },
    }
}


fn extraction_mask_of(byte_offset: usize, out: usize) -> (r: u64)
    ensures
        r == extraction_mask(byte_offset, out),
{
    let amt = bit_width_of(byte_offset) as u32;
    if amt < 64 {
        mask_for_size(out) << amt
    } else {
        0
    }
}

fn sum_of_low_bytes(l: Value, r: Value, out: usize, f: u64) -> (res: Value)
    ensures
        res == extract_add(l, r, out, f as nat),
    decreases f, 2nat,
{
    let (ls, _) = simplify_value(Value::Extract(Extract(Box::new(l), 0, out)), f);
    let (rs, _) = simplify_value(Value::Extract(Extract(Box::new(r), 0, out)), f);
    let size = max_usize(ls.size(), rs.size());
    let (v, _) = simplify_value(Value::Add(AddExpr(Box::new(ls), Box::new(rs), size)), f);
    v
}

fn shift_applies(nc: &Value, byte_offset: usize, out: usize) -> (r: bool)
    ensures
        r == extract_shift_applies(*nc, byte_offset, out),
{
    match nc {
        Value::IntLeftShift(x) => {
            if !is_const_value(&x.1) {
                return false;
            }
            let bits = const_u64_of(&x.1);
            if bits % 8 != 0 {
                return false;
            }
            let shift_bytes = #[verifier::truncate] ((bits / 8) as usize);
            let inner_size = x.0.size();
            let end = byte_offset.wrapping_add(out);
            (byte_offset >= shift_bytes && end <= shift_bytes.wrapping_add(inner_size)) || end
                <= shift_bytes
        },
        _ => false,
    }
}

fn extract_through_shift(nc: Value, byte_offset: usize, out: usize, f: u64) -> (r: Value)
    requires
        extract_shift_applies(nc, byte_offset, out),
    ensures
        r == extract_shift(nc, byte_offset, out, f as nat),
    decreases f, 2nat,
{
    match nc {
        Value::IntLeftShift(x) => {
            let IntLeftShiftExpr(inner, n, _) = x;
            let shift_bytes = #[verifier::truncate] ((const_u64_of(&n) / 8) as usize);
            let inner_size = inner.size();
            let end = byte_offset.wrapping_add(out);
            if byte_offset >= shift_bytes && end <= shift_bytes.wrapping_add(inner_size) {
                let (v, _) = simplify_value(
                    Value::Extract(Extract(inner, byte_offset - shift_bytes, out)),
                    f,
                );
                v
            } else {
                Value::make_const(0, out)
            }
        },
        _ => {
            proof {
                assert(false);
            }
            Value::Top
        },
    }
}

fn simplify_extract(c: Value, byte_offset: usize, out: usize, f: u64) -> (r: (Value, bool))
    ensures
        r == simp_extract(c, byte_offset, out, f as nat),
    decreases f, 3nat,
{
    let ghost gc = c;
    let (nc, cc) = simplify_value(c, f);
    if is_top(&nc) {
        return (Value::Top, true);
    }
    if byte_offset == 0 && nc.size() == out {
        return (nc, true);
    }
    if byte_offset == 0 {
        match &nc {
            Value::Entry(e) => {
                let vn = e.0;
                return (Value::entry(VarNode::new(vn.offset, out, vn.space_index)), true);
            },
            Value::Offset(o) => {
                let base = o.0;
                let off = o.1.0.offset;
                return (Value::Offset(Offset(base, Const(VarNode::new_const(off, out)))), true);
            },
            _ => {},
        }
        let zext_case: u8 = match &nc {
            Value::ZeroExtend(x) => if out == x.0.size() {
                1
            } else if out < x.0.size() {
                2
            } else if out <= x.1 {
                3
            } else {
                0
            },
            _ => 0,
        };
        if zext_case != 0 {
            match nc {
                Value::ZeroExtend(x) => {
                    if zext_case == 1 {
                        return (*x.0, true);
                    } else if zext_case == 2 {
                        let (v, _) = simplify_value(Value::Extract(Extract(x.0, 0, out)), f);
                        return (v, true);
                    } else {
                        let (v, _) = simplify_value(Value::ZeroExtend(ZeroExtend(x.0, out)), f);
                        return (v, true);
                    }
                },
                _ => {
                    proof {
                        assert(false);
                    }
                    return (Value::Top, true);
                },
            }
        }
        let is_add = match &nc {
            Value::Add(_) => true,
            _ => false,
        };
        if is_add {
            match nc {
                Value::Add(x) => {
                    let AddExpr(l, r, _) = x;
                    return (sum_of_low_bytes(*l, *r, out, f), true);
                },
                _ => {
                    proof {
                        assert(false);
                    }
                    return (Value::Top, true);
                },
            }
        }
        let sext_case: u8 = match &nc {
            Value::SignExtend(x) => if out == x.0.size() {
                1
            } else if out < x.0.size() {
                2
            } else if out <= x.1 {
                3
            } else {
                0
            },
            _ => 0,
        };
        if sext_case != 0 {
            match nc {
                Value::SignExtend(x) => {
                    if sext_case == 1 {
                        return (*x.0, true);
                    } else if sext_case == 2 {
                        let (v, _) = simplify_value(Value::Extract(Extract(x.0, 0, out)), f);
                        return (v, true);
                    } else {
                        let (v, _) = simplify_value(Value::SignExtend(SignExtend(x.0, out)), f);
                        return (v, true);
                    }
                },
                _ => {
                    proof {
                        assert(false);
                    }
                    return (Value::Top, true);
                },
            }
        }
    }
    if shift_applies(&nc, byte_offset, out) {
        return (extract_through_shift(nc, byte_offset, out, f), true);
    }
    let em = extraction_mask_of(byte_offset, out);
    let or_side: u8 = match &nc {
        Value::Or(x) => if known_zero_bits(&x.0) & em == em {
            1
        } else if known_zero_bits(&x.1) & em == em {
            2
        } else {
            0
        },
        _ => 0,
    };
    if or_side != 0 {
        match nc {
            Value::Or(x) => {
                let OrExpr(l, r, _) = x;
                let side = if or_side == 1 { r } else { l };
                let (v, _) = simplify_value(Value::Extract(Extract(side, byte_offset, out)), f);
                return (v, true);
            },
            _ => {
                proof {
                    assert(false);
                }
                return (Value::Top, true);
            },
        }
    }
    if is_const_value(&nc) {
        let bits: usize = if byte_offset > usize::MAX / 8 {
            usize::MAX
        } else {
            byte_offset * 8
        };
        let amt = bits as u32;
        let shifted: u64 = if amt < 64 { const_u64_of(&nc) >> amt } else { 0 };
        return (Value::make_const((shifted & mask_for_size(out)) as i64, out), true);
    }
    if !cc {
        proof {
            lemma_unchanged(gc, f as nat);
        }
        return (Value::Extract(Extract(Box::new(nc), byte_offset, out)), false);
    }
    (Value::Extract(Extract(Box::new(nc), byte_offset, out)), true)
}


/// The recursion budget of the simplifier: every step down a term and every
/// re-simplification of a rewritten term spends one unit.
pub const SIMPLIFY_FUEL: u64 = 0xFFFF_FFFF_FFFF_FFFF;

/// The simplified form of `v`.
pub open spec fn simplified(v: Value) -> Value {
    simp(v, SIMPLIFY_FUEL as nat).0
}

impl Value {
    /// The simplified form of this value: constants folded, identities
    /// applied, commutative operands in canonical order.
    pub fn simplify(&self) -> (r: Value)
        ensures
            r == simplified(*self),
    {
        simplify_value(duplicate(self), SIMPLIFY_FUEL).0
    }

    /// Simplifies a value that the caller gives up.
    pub fn into_simplified(self) -> (r: Value)
        ensures
            r == simplified(self),
    {
        simplify_value(self, SIMPLIFY_FUEL).0
    }
}

/// An operator with a `Top` operand simplifies to `Top`, whatever the other
/// operand and the sizes (a load of `Top` excepted: it is a memory read).
pub proof fn lemma_top_absorbs(x: Value, s: usize, t: usize)
    ensures
        simplified(Value::Add(AddExpr(Box::new(Value::Top), Box::new(x), s))) == Value::Top,
        simplified(Value::Add(AddExpr(Box::new(x), Box::new(Value::Top), s))) == Value::Top,
        simplified(Value::Sub(SubExpr(Box::new(Value::Top), Box::new(x), s))) == Value::Top,
        simplified(Value::Sub(SubExpr(Box::new(x), Box::new(Value::Top), s))) == Value::Top,
        simplified(Value::Mul(MulExpr(Box::new(Value::Top), Box::new(x), s))) == Value::Top,
        simplified(Value::Mul(MulExpr(Box::new(x), Box::new(Value::Top), s))) == Value::Top,
        simplified(Value::Choice(Choice(Box::new(Value::Top), Box::new(x), s))) == Value::Top,
        simplified(Value::Choice(Choice(Box::new(x), Box::new(Value::Top), s))) == Value::Top,
        simplified(Value::Xor(XorExpr(Box::new(Value::Top), Box::new(x), s))) == Value::Top,
        simplified(Value::Xor(XorExpr(Box::new(x), Box::new(Value::Top), s))) == Value::Top,
        simplified(Value::And(AndExpr(Box::new(Value::Top), Box::new(x), s))) == Value::Top,
        simplified(Value::And(AndExpr(Box::new(x), Box::new(Value::Top), s))) == Value::Top,
        simplified(Value::Or(OrExpr(Box::new(Value::Top), Box::new(x), s))) == Value::Top,
        simplified(Value::Or(OrExpr(Box::new(x), Box::new(Value::Top), s))) == Value::Top,
        simplified(Value::IntLeftShift(IntLeftShiftExpr(Box::new(Value::Top), Box::new(x), s))) == Value::Top,
        simplified(Value::IntLeftShift(IntLeftShiftExpr(Box::new(x), Box::new(Value::Top), s))) == Value::Top,
        simplified(Value::IntRightShift(IntRightShiftExpr(Box::new(Value::Top), Box::new(x), s))) == Value::Top,
        simplified(Value::IntRightShift(IntRightShiftExpr(Box::new(x), Box::new(Value::Top), s))) == Value::Top,
        simplified(Value::IntSignedRightShift(IntSignedRightShiftExpr(Box::new(Value::Top), Box::new(x), s))) == Value::Top,
        simplified(Value::IntSignedRightShift(IntSignedRightShiftExpr(Box::new(x), Box::new(Value::Top), s))) == Value::Top,
        simplified(Value::BoolAnd(BoolAndExpr(Box::new(Value::Top), Box::new(x)))) == Value::Top,
        simplified(Value::BoolAnd(BoolAndExpr(Box::new(x), Box::new(Value::Top)))) == Value::Top,
        simplified(Value::BoolOr(BoolOrExpr(Box::new(Value::Top), Box::new(x)))) == Value::Top,
        simplified(Value::BoolOr(BoolOrExpr(Box::new(x), Box::new(Value::Top)))) == Value::Top,
        simplified(Value::BoolXor(BoolXorExpr(Box::new(Value::Top), Box::new(x)))) == Value::Top,
        simplified(Value::BoolXor(BoolXorExpr(Box::new(x), Box::new(Value::Top)))) == Value::Top,
        simplified(Value::IntEqual(IntEqual(Box::new(Value::Top), Box::new(x)))) == Value::Top,
        simplified(Value::IntEqual(IntEqual(Box::new(x), Box::new(Value::Top)))) == Value::Top,
        simplified(Value::IntNotEqual(IntNotEqual(Box::new(Value::Top), Box::new(x)))) == Value::Top,
        simplified(Value::IntNotEqual(IntNotEqual(Box::new(x), Box::new(Value::Top)))) == Value::Top,
        simplified(Value::IntLess(IntLess(Box::new(Value::Top), Box::new(x)))) == Value::Top,
        simplified(Value::IntLess(IntLess(Box::new(x), Box::new(Value::Top)))) == Value::Top,
        simplified(Value::IntLessEqual(IntLessEqual(Box::new(Value::Top), Box::new(x)))) == Value::Top,
        simplified(Value::IntLessEqual(IntLessEqual(Box::new(x), Box::new(Value::Top)))) == Value::Top,
        simplified(Value::IntSLess(IntSLess(Box::new(Value::Top), Box::new(x)))) == Value::Top,
        simplified(Value::IntSLess(IntSLess(Box::new(x), Box::new(Value::Top)))) == Value::Top,
        simplified(Value::IntSLessEqual(IntSLessEqual(Box::new(Value::Top), Box::new(x)))) == Value::Top,
        simplified(Value::IntSLessEqual(IntSLessEqual(Box::new(x), Box::new(Value::Top)))) == Value::Top,
        simplified(Value::IntCarry(IntCarry(Box::new(Value::Top), Box::new(x)))) == Value::Top,
        simplified(Value::IntCarry(IntCarry(Box::new(x), Box::new(Value::Top)))) == Value::Top,
        simplified(Value::IntSCarry(IntSCarry(Box::new(Value::Top), Box::new(x)))) == Value::Top,
        simplified(Value::IntSCarry(IntSCarry(Box::new(x), Box::new(Value::Top)))) == Value::Top,
        simplified(Value::IntSBorrow(IntSBorrow(Box::new(Value::Top), Box::new(x)))) == Value::Top,
        simplified(Value::IntSBorrow(IntSBorrow(Box::new(x), Box::new(Value::Top)))) == Value::Top,
        simplified(Value::BoolNegate(BoolNegateExpr(Box::new(Value::Top)))) == Value::Top,
        simplified(Value::ZeroExtend(ZeroExtend(Box::new(Value::Top), s))) == Value::Top,
        simplified(Value::SignExtend(SignExtend(Box::new(Value::Top), s))) == Value::Top,
        simplified(Value::Extract(Extract(Box::new(Value::Top), s, t))) == Value::Top,
        simplified(Value::PopCount(PopCount(Box::new(Value::Top)))) == Value::Top,
        simplified(Value::Int2Comp(Int2CompExpr(Box::new(Value::Top), s))) == Value::Top,
{
    assert(simp(Value::Top, (SIMPLIFY_FUEL - 1) as nat).0 == Value::Top);
}

/// The constant `offset` of `size` bytes.
pub open spec fn konst(offset: u64, size: usize) -> Value {
    Value::Const(Const(VarNode { space_index: crate::sleigh::CONST_SPACE_INDEX, offset, size }))
}

/// Rewrite laws of simplification, stated on a location's entry value `x`
/// and on constants of one size `s` (one that fits 32 bits):
/// sums, differences and exclusive ors of two constants fold to the
/// constant of their wrapping result; adding or subtracting zero, or
/// exclusive-or with zero, gives `x`; multiplying by one gives `x` and by
/// zero gives zero; `x - x` and `x ^ x` give zero of `x`'s size; a choice
/// between `x` and itself is `x`.
pub proof fn lemma_rewrite_laws(vn: VarNode, a: u64, b: u64, s: usize, t: usize)
    requires
        s < 0x1_0000_0000,
        1 <= vn.size < 0x1_0000_0000,
    ensures
        ({
            let x = Value::Entry(Entry(vn));
            &&& simplified(Value::Add(AddExpr(Box::new(konst(a, s)), Box::new(konst(b, s)), t)))
                == konst(u64_specs::wrapping_add(a, b), derive_size(konst(a, s)))
            &&& simplified(Value::Sub(SubExpr(Box::new(konst(a, s)), Box::new(konst(b, s)), t)))
                == konst(u64_specs::wrapping_sub(a, b), derive_size(konst(a, s)))
            &&& simplified(Value::Xor(XorExpr(Box::new(konst(a, s)), Box::new(konst(b, s)), t)))
                == konst(a ^ b, derive_size(konst(a, s)))
            &&& simplified(Value::Add(AddExpr(Box::new(x), Box::new(konst(0, s)), t))) == x
            &&& simplified(Value::Add(AddExpr(Box::new(konst(0, s)), Box::new(x), t))) == x
            &&& simplified(Value::Sub(SubExpr(Box::new(x), Box::new(konst(0, s)), t))) == x
            &&& simplified(Value::Xor(XorExpr(Box::new(x), Box::new(konst(0, s)), t))) == x
            &&& simplified(Value::Mul(MulExpr(Box::new(x), Box::new(konst(1, s)), t))) == x
            &&& simplified(Value::Mul(MulExpr(Box::new(konst(1, s)), Box::new(x), t))) == x
            &&& simplified(Value::Mul(MulExpr(Box::new(x), Box::new(konst(0, s)), t))) == konst(0, vn.size)
            &&& simplified(Value::Sub(SubExpr(Box::new(x), Box::new(x), t))) == konst(0, vn.size)
            &&& simplified(Value::Xor(XorExpr(Box::new(x), Box::new(x), t))) == konst(0, vn.size)
            &&& simplified(Value::Choice(Choice(Box::new(x), Box::new(x), t))) == x
        }),
{
    let f = (SIMPLIFY_FUEL - 1) as nat;
    let x = Value::Entry(Entry(vn));
    assert(simp(x, f) == (x, false));
    assert(simp(konst(a, s), f) == (konst(a, s), false));
    assert(simp(konst(b, s), f) == (konst(b, s), false));
    assert(simp(konst(0, s), f) == (konst(0, s), false));
    assert(simp(konst(1, s), f) == (konst(1, s), false));
    assert((i64_specs::wrapping_add(a as i64, b as i64)) as u64 == u64_specs::wrapping_add(a, b)) by (bit_vector);
    assert((i64_specs::wrapping_sub(a as i64, b as i64)) as u64 == u64_specs::wrapping_sub(a, b)) by (bit_vector);
    assert(((a ^ b) as i64) as u64 == a ^ b) by (bit_vector);
    assert(((0u64 as i64) as u64) == 0) by (bit_vector);
    assert((0u64 as i64) == 0) by (bit_vector);
    assert((1u64 as i64) == 1) by (bit_vector);
}

/// `1` of one byte when `c` holds, else `0` of one byte.
pub open spec fn flag_const(c: bool) -> Value {
    konst(if c { 1 } else { 0 }, 1)
}

/// Comparisons of two constants fold to the truth of the comparison, as a
/// one-byte 0 or 1: equality, inequality, unsigned `<` and `<=` on the raw
/// 64-bit constants, and signed `<` and `<=` on them read as signed 64-bit
/// numbers. A comparison of an entry value with itself folds to the truth
/// of `x op x`: true for `==`, `<=` and signed `<=`, false for the others.
pub proof fn lemma_comparison_laws(vn: VarNode, a: u64, b: u64, s: usize, t: usize)
    ensures
        ({
            let ka = konst(a, s);
            let kb = konst(b, t);
            let x = Value::Entry(Entry(vn));
            &&& simplified(Value::IntEqual(IntEqual(Box::new(ka), Box::new(kb)))) == flag_const(a == b)
            &&& simplified(Value::IntNotEqual(IntNotEqual(Box::new(ka), Box::new(kb)))) == flag_const(a != b)
            &&& simplified(Value::IntLess(IntLess(Box::new(ka), Box::new(kb)))) == flag_const(a < b)
            &&& simplified(Value::IntLessEqual(IntLessEqual(Box::new(ka), Box::new(kb)))) == flag_const(a <= b)
            &&& simplified(Value::IntSLess(IntSLess(Box::new(ka), Box::new(kb)))) == flag_const((a as i64) < (b as i64))
            &&& simplified(Value::IntSLessEqual(IntSLessEqual(Box::new(ka), Box::new(kb)))) == flag_const((a as i64) <= (b as i64))
            &&& simplified(Value::IntEqual(IntEqual(Box::new(x), Box::new(x)))) == flag_const(true)
            &&& simplified(Value::IntNotEqual(IntNotEqual(Box::new(x), Box::new(x)))) == flag_const(false)
            &&& simplified(Value::IntLess(IntLess(Box::new(x), Box::new(x)))) == flag_const(false)
            &&& simplified(Value::IntLessEqual(IntLessEqual(Box::new(x), Box::new(x)))) == flag_const(true)
            &&& simplified(Value::IntSLess(IntSLess(Box::new(x), Box::new(x)))) == flag_const(false)
            &&& simplified(Value::IntSLessEqual(IntSLessEqual(Box::new(x), Box::new(x)))) == flag_const(true)
        }),
{
    let f = (SIMPLIFY_FUEL - 1) as nat;
    let x = Value::Entry(Entry(vn));
    assert(simp(x, f) == (x, false));
    assert(simp(konst(a, s), f) == (konst(a, s), false));
    assert(simp(konst(b, t), f) == (konst(b, t), false));
    assert(((1u64 as i64) as u64) == 1u64) by (bit_vector);
    assert(((0u64 as i64) as u64) == 0u64) by (bit_vector);
    assert(((1usize as u32) as usize) == 1usize);
}

/// Bitwise laws of simplification, on an entry value `x` and constants of
/// one size `s` (one that fits 32 bits): `&` and `|` of two constants fold
/// to the constant of `a & b` and `a | b`; `x & x` and `x | x` give `x`;
/// `x & 0` gives zero of `x`'s size and `x | 0` gives `x`; shifting `x` by
/// a zero amount, either way, gives `x`.
pub proof fn lemma_bitwise_laws(vn: VarNode, a: u64, b: u64, s: usize, t: usize)
    requires
        s < 0x1_0000_0000,
        1 <= vn.size < 0x1_0000_0000,
    ensures
        ({
            let x = Value::Entry(Entry(vn));
            &&& simplified(Value::And(AndExpr(Box::new(konst(a, s)), Box::new(konst(b, s)), t)))
                == konst(a & b, derive_size(konst(a, s)))
            &&& simplified(Value::Or(OrExpr(Box::new(konst(a, s)), Box::new(konst(b, s)), t)))
                == konst(a | b, derive_size(konst(a, s)))
            &&& simplified(Value::And(AndExpr(Box::new(x), Box::new(x), t))) == x
            &&& simplified(Value::Or(OrExpr(Box::new(x), Box::new(x), t))) == x
            &&& simplified(Value::And(AndExpr(Box::new(x), Box::new(konst(0, s)), t))) == konst(0, vn.size)
            &&& simplified(Value::Or(OrExpr(Box::new(x), Box::new(konst(0, s)), t))) == x
            &&& simplified(Value::IntLeftShift(IntLeftShiftExpr(Box::new(x), Box::new(konst(0, s)), t))) == x
            &&& simplified(Value::IntRightShift(IntRightShiftExpr(Box::new(x), Box::new(konst(0, s)), t))) == x
        }),
{
    let f = (SIMPLIFY_FUEL - 1) as nat;
    let x = Value::Entry(Entry(vn));
    assert(simp(x, f) == (x, false));
    assert(simp(konst(a, s), f) == (konst(a, s), false));
    assert(simp(konst(b, s), f) == (konst(b, s), false));
    assert(simp(konst(0, s), f) == (konst(0, s), false));
    assert((((a & b) as i64) as u64) == a & b) by (bit_vector);
    assert((((a | b) as i64) as u64) == a | b) by (bit_vector);
    assert(((0u64 as i64) as u64) == 0u64) by (bit_vector);
    assert((0u64 as i64) == 0) by (bit_vector);
}

/// Folding of eight-byte constants `a` and `b`: a product folds to the
/// wrapping product; shifting `a` left or right (logically) by `k` below 64
/// folds to `a << k` and `a >> k`, and by 64 or more to zero; widening the
/// four-byte constant `a` with zeros to eight bytes keeps its low 32 bits;
/// the unsigned carry of `a + b` folds to 1 exactly when the sum does not
/// fit 64 bits.
pub proof fn lemma_word_folding(a: u64, b: u64, k: u64, t: usize)
    ensures
        ({
            let ka = konst(a, 8);
            let kb = konst(b, 8);
            &&& simplified(Value::Mul(MulExpr(Box::new(ka), Box::new(kb), t)))
                == konst(u64_specs::wrapping_mul(a, b), 8)
            &&& k < 64 ==> simplified(Value::IntLeftShift(IntLeftShiftExpr(Box::new(ka), Box::new(konst(k, 8)), t)))
                == konst(a << k, 8)
            &&& k < 64 ==> simplified(Value::IntRightShift(IntRightShiftExpr(Box::new(ka), Box::new(konst(k, 8)), t)))
                == konst(a >> k, 8)
            &&& k >= 64 ==> simplified(Value::IntLeftShift(IntLeftShiftExpr(Box::new(ka), Box::new(konst(k, 8)), t)))
                == konst(0, 8)
            &&& k >= 64 ==> simplified(Value::IntRightShift(IntRightShiftExpr(Box::new(ka), Box::new(konst(k, 8)), t)))
                == konst(0, 8)
            &&& simplified(Value::ZeroExtend(ZeroExtend(Box::new(konst(a, 4)), 8)))
                == konst(a & 0xffff_ffff, 8)
            &&& simplified(Value::IntCarry(IntCarry(Box::new(ka), Box::new(kb))))
                == flag_const(a + b > u64::MAX)
        }),
{
    let f = (SIMPLIFY_FUEL - 1) as nat;
    assert(simp(konst(a, 8), f) == (konst(a, 8), false));
    assert(simp(konst(b, 8), f) == (konst(b, 8), false));
    assert(simp(konst(k, 8), f) == (konst(k, 8), false));
    assert(simp(konst(a, 4), f) == (konst(a, 4), false));
    assert((i64_specs::wrapping_mul(a as i64, b as i64)) as u64 == u64_specs::wrapping_mul(a, b)) by (bit_vector);
    assert(crate::analysis::valuation::value::spec_mask_for_size(8) == u64::MAX);
    assert(((1u64 << 32u64) - 1) as u64 == 0xffff_ffffu64) by (bit_vector);
    assert(crate::analysis::valuation::value::spec_mask_for_size(4) == 0xffff_ffff);
    vstd::arithmetic::div_mod::lemma_small_mod(64, (usize::MAX - usize::MIN + 1) as nat);
    assert(bit_width(8) == 64);
    if k < 64 {
        let kk = k as u32;
        assert(u64_specs::wrapping_shl(a, kk) == a << ((kk % 64) as u64));
        assert((((a << ((kk % 64) as u64)) & u64::MAX) as i64) as u64 == a << k) by (bit_vector)
            requires k < 64, kk == k;
        assert((u64_specs::wrapping_shr(a, k as u32) as i64) as u64 == a >> k) by (bit_vector)
            requires k < 64;
    }
    assert(((a & 0xffff_ffff) as i64) as u64 == a & 0xffff_ffff) by (bit_vector);
    assert(((0u64 as i64) as u64) == 0u64) by (bit_vector);
    assert(((1u64 as i64) as u64) == 1u64) by (bit_vector);
    assert(((1usize as u32) as usize) == 1usize);
    let sum = (a as u128 + b as u128) as u128;
    assert((vstd::wrapping::u128_specs::wrapping_shr(sum, 64) != 0) == (a + b > u64::MAX)) by {
        assert(vstd::wrapping::u128_specs::wrapping_shr(sum, 64) == sum >> 64u128) by (bit_vector);
        assert((sum >> 64u128 != 0) == (sum > 0xffff_ffff_ffff_ffffu128)) by (bit_vector);
    }
}

/// A comparison of the entry values of two different locations is left as
/// it is, operands in their order: nothing is known of its truth.
pub proof fn lemma_comparison_kept(v1: VarNode, v2: VarNode)
    requires
        v1 != v2,
    ensures
        ({
            let x = Box::new(Value::Entry(Entry(v1)));
            let y = Box::new(Value::Entry(Entry(v2)));
            &&& simplified(Value::IntEqual(IntEqual(x, y))) == Value::IntEqual(IntEqual(x, y))
            &&& simplified(Value::IntNotEqual(IntNotEqual(x, y))) == Value::IntNotEqual(IntNotEqual(x, y))
            &&& simplified(Value::IntLess(IntLess(x, y))) == Value::IntLess(IntLess(x, y))
            &&& simplified(Value::IntLessEqual(IntLessEqual(x, y))) == Value::IntLessEqual(IntLessEqual(x, y))
            &&& simplified(Value::IntSLess(IntSLess(x, y))) == Value::IntSLess(IntSLess(x, y))
            &&& simplified(Value::IntSLessEqual(IntSLessEqual(x, y))) == Value::IntSLessEqual(IntSLessEqual(x, y))
        }),
{
    let f = (SIMPLIFY_FUEL - 1) as nat;
    let x = Value::Entry(Entry(v1));
    let y = Value::Entry(Entry(v2));
    assert(simp(x, f) == (x, false));
    assert(simp(y, f) == (y, false));
}

} // verus!
