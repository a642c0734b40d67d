//! The order of values: by kind, in the order in which `Value` declares its
//! kinds, then part by part, as `derive(Ord)` orders `Value`. It is given by
//! a key, the sequence of numbers that lists a value's kind and parts in
//! order, compared lexicographically.
use crate::analysis::valuation::value::{AddExpr, AndExpr, BoolAndExpr, BoolNegateExpr, BoolOrExpr, BoolXorExpr, Choice, Const, Entry, Extract, Int2CompExpr, IntCarry, IntEqual, IntLeftShiftExpr, IntLess, IntLessEqual, IntNotEqual, IntRightShiftExpr, IntSBorrow, IntSCarry, IntSLess, IntSLessEqual, IntSignedRightShiftExpr, Load, MulExpr, Offset, OrExpr, PopCount, SignExtend, SubExpr, Value, XorExpr, ZeroExtend};
use crate::sleigh::VarNode;
use vstd::prelude::*;

verus! {

/// The key of a varnode: its space, offset and size.
pub open spec fn vn_key(vn: VarNode) -> Seq<u64> {
    seq![vn.space_index as u64, vn.offset, vn.size as u64]
}

/// The key of a value: its kind's position in `Value`, then the keys of its
/// parts in order.
pub open spec fn value_key(v: Value) -> Seq<u64>
    decreases v,
{
    match v {
        Value::Entry(Entry(vn)) => seq![0u64] + vn_key(vn),
        Value::Const(Const(vn)) => seq![1u64] + vn_key(vn),
        Value::Offset(Offset(Entry(e), Const(c))) => seq![2u64] + vn_key(e) + vn_key(c),
        Value::Mul(MulExpr(a, b, n)) => seq![3u64] + value_key(*a) + value_key(*b) + seq![n as u64],
        Value::Add(AddExpr(a, b, n)) => seq![4u64] + value_key(*a) + value_key(*b) + seq![n as u64],
        Value::Sub(SubExpr(a, b, n)) => seq![5u64] + value_key(*a) + value_key(*b) + seq![n as u64],
        Value::Choice(Choice(a, b, n)) => seq![6u64] + value_key(*a) + value_key(*b) + seq![n as u64],
        Value::Xor(XorExpr(a, b, n)) => seq![7u64] + value_key(*a) + value_key(*b) + seq![n as u64],
        Value::Or(OrExpr(a, b, n)) => seq![8u64] + value_key(*a) + value_key(*b) + seq![n as u64],
        Value::And(AndExpr(a, b, n)) => seq![9u64] + value_key(*a) + value_key(*b) + seq![n as u64],
        Value::IntLeftShift(IntLeftShiftExpr(a, b, n)) => seq![14u64] + value_key(*a) + value_key(*b) + seq![n as u64],
        Value::IntRightShift(IntRightShiftExpr(a, b, n)) => seq![15u64] + value_key(*a) + value_key(*b) + seq![n as u64],
        Value::IntSignedRightShift(IntSignedRightShiftExpr(a, b, n)) => seq![16u64] + value_key(*a) + value_key(*b) + seq![n as u64],
        Value::BoolAnd(BoolAndExpr(a, b)) => seq![11u64] + value_key(*a) + value_key(*b),
        Value::BoolOr(BoolOrExpr(a, b)) => seq![12u64] + value_key(*a) + value_key(*b),
        Value::BoolXor(BoolXorExpr(a, b)) => seq![13u64] + value_key(*a) + value_key(*b),
        Value::IntSLess(IntSLess(a, b)) => seq![21u64] + value_key(*a) + value_key(*b),
        Value::IntEqual(IntEqual(a, b)) => seq![22u64] + value_key(*a) + value_key(*b),
        Value::IntLess(IntLess(a, b)) => seq![23u64] + value_key(*a) + value_key(*b),
        Value::IntNotEqual(IntNotEqual(a, b)) => seq![26u64] + value_key(*a) + value_key(*b),
        Value::IntLessEqual(IntLessEqual(a, b)) => seq![27u64] + value_key(*a) + value_key(*b),
        Value::IntSLessEqual(IntSLessEqual(a, b)) => seq![28u64] + value_key(*a) + value_key(*b),
        Value::IntCarry(IntCarry(a, b)) => seq![29u64] + value_key(*a) + value_key(*b),
        Value::IntSCarry(IntSCarry(a, b)) => seq![30u64] + value_key(*a) + value_key(*b),
        Value::IntSBorrow(IntSBorrow(a, b)) => seq![31u64] + value_key(*a) + value_key(*b),
        Value::BoolNegate(BoolNegateExpr(a)) => seq![10u64] + value_key(*a),
        Value::PopCount(PopCount(a)) => seq![24u64] + value_key(*a),
        Value::ZeroExtend(ZeroExtend(a, n)) => seq![18u64] + value_key(*a) + seq![n as u64],
        Value::SignExtend(SignExtend(a, n)) => seq![19u64] + value_key(*a) + seq![n as u64],
        Value::Int2Comp(Int2CompExpr(a, n)) => seq![25u64] + value_key(*a) + seq![n as u64],
        Value::Load(Load(a, size, space)) => seq![17u64] + value_key(*a) + seq![size as u64, space as u64],
        Value::Extract(Extract(a, x, y)) => seq![20u64] + value_key(*a) + seq![x as u64, y as u64],
        Value::Bind(b) => seq![32u64, b.spec_id(), b.spec_size() as u64],
        Value::Top => seq![33u64],
    }
}

/// `a` comes before `b` from position `i` on: at the first position from
/// `i` where they differ, `a` is smaller, or `a` ends first.
pub open spec fn lex_lt_from(a: Seq<u64>, b: Seq<u64>, i: nat) -> bool
    decreases a.len() - i,
{
    if i >= a.len() {
        i < b.len()
    } else if i >= b.len() {
        false
    } else if a[i as int] < b[i as int] {
        true
    } else if a[i as int] > b[i as int] {
        false
    } else {
        lex_lt_from(a, b, i + 1)
    }
}

/// `a` comes before `b` lexicographically.
pub open spec fn lex_lt(a: Seq<u64>, b: Seq<u64>) -> bool {
    lex_lt_from(a, b, 0)
}

/// Value `a` comes strictly before value `b`.
pub open spec fn value_lt(a: Value, b: Value) -> bool {
    lex_lt(value_key(a), value_key(b))
}

/// Lexicographic order is transitive.
pub proof fn lemma_lex_trans(a: Seq<u64>, b: Seq<u64>, c: Seq<u64>, i: nat)
    requires
        lex_lt_from(a, b, i),
        lex_lt_from(b, c, i),
    ensures
        lex_lt_from(a, c, i),
    decreases a.len() - i,
{
    if i < a.len() && i < b.len() && i < c.len() && a[i as int] == b[i as int] && b[i as int] == c[i as int] {
        lemma_lex_trans(a, b, c, i + 1);
    }
}

/// Lexicographic order is asymmetric.
pub proof fn lemma_lex_asym(a: Seq<u64>, b: Seq<u64>, i: nat)
    requires
        lex_lt_from(a, b, i),
    ensures
        !lex_lt_from(b, a, i),
    decreases a.len() - i,
{
    if i < a.len() && i < b.len() && a[i as int] == b[i as int] {
        lemma_lex_asym(a, b, i + 1);
    }
}

fn push_vn_key(out: &mut Vec<u64>, vn: &VarNode)
    ensures
        final(out)@ == old(out)@ + vn_key(*vn),
{
    out.push(vn.space_index as u64);
    out.push(vn.offset);
    out.push(vn.size as u64);
}

/// Appends the key of `v` to `out`.
fn push_value_key(out: &mut Vec<u64>, v: &Value)
    ensures
        final(out)@ == old(out)@ + value_key(*v),
    decreases v,
{
    let ghost o = out@;
    match v {
        Value::Entry(Entry(vn)) => {
            out.push(0);
            push_vn_key(out, vn);
        },
        Value::Const(Const(vn)) => {
            out.push(1);
            push_vn_key(out, vn);
        },
        Value::Offset(Offset(Entry(e), Const(c))) => {
            out.push(2);
            push_vn_key(out, e);
            push_vn_key(out, c);
        },
        Value::Mul(MulExpr(a, b, n)) => {
            out.push(3);
            push_value_key(out, a);
            push_value_key(out, b);
            out.push(*n as u64);
        },
        Value::Add(AddExpr(a, b, n)) => {
            out.push(4);
            push_value_key(out, a);
            push_value_key(out, b);
            out.push(*n as u64);
        },
        Value::Sub(SubExpr(a, b, n)) => {
            out.push(5);
            push_value_key(out, a);
            push_value_key(out, b);
            out.push(*n as u64);
        },
        Value::Choice(Choice(a, b, n)) => {
            out.push(6);
            push_value_key(out, a);
            push_value_key(out, b);
            out.push(*n as u64);
        },
        Value::Xor(XorExpr(a, b, n)) => {
            out.push(7);
            push_value_key(out, a);
            push_value_key(out, b);
            out.push(*n as u64);
        },
        Value::Or(OrExpr(a, b, n)) => {
            out.push(8);
            push_value_key(out, a);
            push_value_key(out, b);
            out.push(*n as u64);
        },
        Value::And(AndExpr(a, b, n)) => {
            out.push(9);
            push_value_key(out, a);
            push_value_key(out, b);
            out.push(*n as u64);
        },
        Value::IntLeftShift(IntLeftShiftExpr(a, b, n)) => {
            out.push(14);
            push_value_key(out, a);
            push_value_key(out, b);
            out.push(*n as u64);
        },
        Value::IntRightShift(IntRightShiftExpr(a, b, n)) => {
            out.push(15);
            push_value_key(out, a);
            push_value_key(out, b);
            out.push(*n as u64);
        },
        Value::IntSignedRightShift(IntSignedRightShiftExpr(a, b, n)) => {
            out.push(16);
            push_value_key(out, a);
            push_value_key(out, b);
            out.push(*n as u64);
        },
        Value::BoolAnd(BoolAndExpr(a, b)) => {
            out.push(11);
            push_value_key(out, a);
            push_value_key(out, b);
        },
        Value::BoolOr(BoolOrExpr(a, b)) => {
            out.push(12);
            push_value_key(out, a);
            push_value_key(out, b);
        },
        Value::BoolXor(BoolXorExpr(a, b)) => {
            out.push(13);
            push_value_key(out, a);
            push_value_key(out, b);
        },
        Value::IntSLess(IntSLess(a, b)) => {
            out.push(21);
            push_value_key(out, a);
            push_value_key(out, b);
        },
        Value::IntEqual(IntEqual(a, b)) => {
            out.push(22);
            push_value_key(out, a);
            push_value_key(out, b);
        },
        Value::IntLess(IntLess(a, b)) => {
            out.push(23);
            push_value_key(out, a);
            push_value_key(out, b);
        },
        Value::IntNotEqual(IntNotEqual(a, b)) => {
            out.push(26);
            push_value_key(out, a);
            push_value_key(out, b);
        },
        Value::IntLessEqual(IntLessEqual(a, b)) => {
            out.push(27);
            push_value_key(out, a);
            push_value_key(out, b);
        },
        Value::IntSLessEqual(IntSLessEqual(a, b)) => {
            out.push(28);
            push_value_key(out, a);
            push_value_key(out, b);
        },
        Value::IntCarry(IntCarry(a, b)) => {
            out.push(29);
            push_value_key(out, a);
            push_value_key(out, b);
        },
        Value::IntSCarry(IntSCarry(a, b)) => {
            out.push(30);
            push_value_key(out, a);
            push_value_key(out, b);
        },
        Value::IntSBorrow(IntSBorrow(a, b)) => {
            out.push(31);
            push_value_key(out, a);
            push_value_key(out, b);
        },
        Value::BoolNegate(BoolNegateExpr(a)) => {
            out.push(10);
            push_value_key(out, a);
        },
        Value::PopCount(PopCount(a)) => {
            out.push(24);
            push_value_key(out, a);
        },
        Value::ZeroExtend(ZeroExtend(a, n)) => {
            out.push(18);
            push_value_key(out, a);
            out.push(*n as u64);
        },
        Value::SignExtend(SignExtend(a, n)) => {
            out.push(19);
            push_value_key(out, a);
            out.push(*n as u64);
        },
        Value::Int2Comp(Int2CompExpr(a, n)) => {
            out.push(25);
            push_value_key(out, a);
            out.push(*n as u64);
        },
        Value::Load(Load(a, size, space)) => {
            out.push(17);
            push_value_key(out, a);
            out.push(*size as u64);
            out.push(*space as u64);
        },
        Value::Extract(Extract(a, x, y)) => {
            out.push(20);
            push_value_key(out, a);
            out.push(*x as u64);
            out.push(*y as u64);
        },
        Value::Bind(b) => {
            out.push(32);
            out.push(b.id());
            out.push(b.size() as u64);
        },
        Value::Top => {
            out.push(33);
        },
    }
    proof {
        assert(out@ =~= o + value_key(*v));
    }
}

/// The key of `v`.
pub fn value_key_of(v: &Value) -> (r: Vec<u64>)
    ensures
        r@ == value_key(*v),
{
    let mut out: Vec<u64> = Vec::new();
    push_value_key(&mut out, v);
    proof {
        assert(out@ =~= value_key(*v));
    }
    out
}

/// Whether `a` comes before `b` lexicographically.
pub fn lex_lt_of(a: &Vec<u64>, b: &Vec<u64>) -> (r: bool)
    ensures
        r == lex_lt(a@, b@),
{
    let mut i: usize = 0;
    while i < a.len() && i < b.len() && a[i] == b[i]
        invariant
            i <= a@.len(),
            i <= b@.len(),
            lex_lt(a@, b@) == lex_lt_from(a@, b@, i as nat),
        decreases a@.len() - i,
    {
        i = i + 1;
    }
    if i >= a.len() {
        i < b.len()
    } else if i >= b.len() {
        false
    } else {
        a[i] < b[i]
    }
}

} // verus!
