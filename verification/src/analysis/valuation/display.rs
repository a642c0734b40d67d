//! Text forms of varnodes, values, locations and valuations.
use crate::analysis::valuation::valuation::{Location, ValuationSet};
use crate::analysis::valuation::value::{
    AddExpr, AndExpr, Bind, BoolAndExpr, BoolNegateExpr, BoolOrExpr, BoolXorExpr, Choice, Const,
    Entry, Extract, Int2CompExpr, IntCarry, IntEqual, IntLeftShiftExpr, IntLess, IntLessEqual,
    IntNotEqual, IntRightShiftExpr, IntSBorrow, IntSCarry, IntSLess, IntSLessEqual,
    IntSignedRightShiftExpr, Load, MulExpr, Offset, OrExpr, PopCount, SignExtend, SubExpr, Value,
    XorExpr, ZeroExtend,
};
use crate::sleigh::VarNode;
use vstd::prelude::*;

verus! {

/// The text of one digit, `0`-`9` then `a`-`f`.
pub open spec fn digit_text(d: nat) -> Seq<char> {
    if d == 0 {
        "0"@
    } else if d == 1 {
        "1"@
    } else if d == 2 {
        "2"@
    } else if d == 3 {
        "3"@
    } else if d == 4 {
        "4"@
    } else if d == 5 {
        "5"@
    } else if d == 6 {
        "6"@
    } else if d == 7 {
        "7"@
    } else if d == 8 {
        "8"@
    } else if d == 9 {
        "9"@
    } else if d == 10 {
        "a"@
    } else if d == 11 {
        "b"@
    } else if d == 12 {
        "c"@
    } else if d == 13 {
        "d"@
    } else if d == 14 {
        "e"@
    } else {
        "f"@
    }
}

/// `n` in decimal.
pub open spec fn dec_text(n: nat) -> Seq<char>
    decreases n,
{
    if n < 10 {
        digit_text(n)
    } else {
        dec_text(n / 10) + digit_text(n % 10)
    }
}

/// `n` in lower-case hexadecimal, without a prefix.
pub open spec fn hex_text(n: nat) -> Seq<char>
    decreases n,
{
    if n < 16 {
        digit_text(n)
    } else {
        hex_text(n / 16) + digit_text(n % 16)
    }
}

/// A varnode as `space[offset]:size`, in decimal.
pub open spec fn vn_text(vn: VarNode) -> Seq<char> {
    dec_text(vn.space_index as nat) + "["@ + dec_text(vn.offset as nat) + "]:"@ + dec_text(
        vn.size as nat,
    )
}

/// An operand: in parentheses when it is built from other values.
pub open spec fn operand_text(v: Value) -> Seq<char>
    decreases v, 1nat,
{
    if v.spec_is_compound() {
        "("@ + value_text(v) + ")"@
    } else {
        value_text(v)
    }
}

/// The text of a value.
pub open spec fn value_text(v: Value) -> Seq<char>
    decreases v, 0nat,
{
    match v {
        Value::Entry(Entry(vn)) => vn_text(vn),
        Value::Const(Const(vn)) => "0x"@ + hex_text(vn.offset as nat),
        Value::Offset(Offset(Entry(vn), Const(c))) => "offset("@ + vn_text(vn) + ", "@ + vn_text(c)
            + ")"@,
        Value::Mul(MulExpr(a, b, _)) => operand_text(*a) + "*"@ + operand_text(*b),
        Value::Add(AddExpr(a, b, _)) => operand_text(*a) + "+"@ + operand_text(*b),
        Value::Sub(SubExpr(a, b, _)) => operand_text(*a) + "-"@ + operand_text(*b),
        Value::Choice(Choice(a, b, _)) => operand_text(*a) + "||"@ + operand_text(*b),
        Value::Xor(XorExpr(a, b, _)) => operand_text(*a) + "^"@ + operand_text(*b),
        Value::Or(OrExpr(a, b, _)) => operand_text(*a) + "|"@ + operand_text(*b),
        Value::And(AndExpr(a, b, _)) => operand_text(*a) + "&"@ + operand_text(*b),
        Value::BoolNegate(BoolNegateExpr(a)) => "!"@ + operand_text(*a),
        Value::BoolAnd(BoolAndExpr(a, b)) => operand_text(*a) + "&&"@ + operand_text(*b),
        Value::BoolOr(BoolOrExpr(a, b)) => operand_text(*a) + "||"@ + operand_text(*b),
        Value::BoolXor(BoolXorExpr(a, b)) => operand_text(*a) + "^^"@ + operand_text(*b),
        Value::IntLeftShift(IntLeftShiftExpr(a, b, _)) => operand_text(*a) + "<<"@ + operand_text(
            *b,
        ),
        Value::IntRightShift(IntRightShiftExpr(a, b, _)) => operand_text(*a) + ">>"@
            + operand_text(*b),
        Value::IntSignedRightShift(IntSignedRightShiftExpr(a, b, _)) => operand_text(*a) + "s>>"@
            + operand_text(*b),
        Value::Load(Load(a, size, space)) => "*["@ + dec_text(space as nat) + "]"@ + operand_text(*a)
            + ":"@ + dec_text(size as nat),
        Value::ZeroExtend(ZeroExtend(a, s)) => "zext("@ + value_text(*a) + ", "@ + dec_text(
            s as nat,
        ) + ")"@,
        Value::SignExtend(SignExtend(a, s)) => "sext("@ + value_text(*a) + ", "@ + dec_text(
            s as nat,
        ) + ")"@,
        Value::Extract(Extract(a, off, s)) => "extract("@ + value_text(*a) + ", "@ + dec_text(
            off as nat,
        ) + ":"@ + dec_text(s as nat) + ")"@,
        Value::IntSLess(IntSLess(a, b)) => operand_text(*a) + "s<"@ + operand_text(*b),
        Value::IntEqual(IntEqual(a, b)) => operand_text(*a) + "=="@ + operand_text(*b),
        Value::IntLess(IntLess(a, b)) => operand_text(*a) + "u<"@ + operand_text(*b),
        Value::PopCount(PopCount(a)) => "popcount("@ + value_text(*a) + ")"@,
        Value::Int2Comp(Int2CompExpr(a, _)) => "int_2comp("@ + value_text(*a) + ")"@,
        Value::IntNotEqual(IntNotEqual(a, b)) => operand_text(*a) + "!="@ + operand_text(*b),
        Value::IntLessEqual(IntLessEqual(a, b)) => operand_text(*a) + "u<="@ + operand_text(*b),
        Value::IntSLessEqual(IntSLessEqual(a, b)) => operand_text(*a) + "s<="@ + operand_text(*b),
        Value::IntCarry(IntCarry(a, b)) => "carry("@ + value_text(*a) + ", "@ + value_text(*b)
            + ")"@,
        Value::IntSCarry(IntSCarry(a, b)) => "scarry("@ + value_text(*a) + ", "@ + value_text(*b)
            + ")"@,
        Value::IntSBorrow(IntSBorrow(a, b)) => "sborrow("@ + value_text(*a) + ", "@ + value_text(
            *b,
        ) + ")"@,
        Value::Bind(u) => "bind("@ + dec_text(u.spec_id() as nat) + ", "@ + dec_text(
            u.spec_size() as nat,
        ) + ")"@,
        Value::Top => "⊤"@,
    }
}

fn digit_str(d: u64) -> (r: &'static str)
    requires
        d < 16,
    ensures
        r@ == digit_text(d as nat),
{
    match d {
        0 => "0",
        1 => "1",
        2 => "2",
        3 => "3",
        4 => "4",
        5 => "5",
        6 => "6",
        7 => "7",
        8 => "8",
        9 => "9",
        10 => "a",
        11 => "b",
        12 => "c",
        13 => "d",
        14 => "e",
        _ => "f",
    }
}

/// Appends `n` in decimal.
pub fn push_dec(s: &mut String, n: u64)
    ensures
        final(s)@ == old(s)@ + dec_text(n as nat),
    decreases n,
{
    if n >= 10 {
        push_dec(s, n / 10);
    }
    s.append(digit_str(n % 10));
    proof {
        assert(old(s)@ + dec_text(n as nat) =~= if n >= 10 {
            old(s)@ + dec_text((n / 10) as nat) + digit_text((n % 10) as nat)
        } else {
            old(s)@ + digit_text((n % 10) as nat)
        });
    }
}

/// Appends `n` in lower-case hexadecimal.
pub fn push_hex(s: &mut String, n: u64)
    ensures
        final(s)@ == old(s)@ + hex_text(n as nat),
    decreases n,
{
    if n >= 16 {
        push_hex(s, n / 16);
    }
    s.append(digit_str(n % 16));
    proof {
        assert(old(s)@ + hex_text(n as nat) =~= if n >= 16 {
            old(s)@ + hex_text((n / 16) as nat) + digit_text((n % 16) as nat)
        } else {
            old(s)@ + digit_text((n % 16) as nat)
        });
    }
}

/// Appends a varnode as `space[offset]:size`.
pub fn push_vn(s: &mut String, vn: &VarNode)
    ensures
        final(s)@ == old(s)@ + vn_text(*vn),
{
    push_dec(s, vn.space_index as u64);
    s.append("[");
    push_dec(s, vn.offset);
    s.append("]:");
    push_dec(s, vn.size as u64);
    proof {
        assert(final(s)@ =~= old(s)@ + vn_text(*vn));
    }
}

fn push_operand(s: &mut String, v: &Value)
    ensures
        final(s)@ == old(s)@ + operand_text(*v),
    decreases *v, 3nat,
{
    if v.is_compound() {
        s.append("(");
        push_value(s, v);
        s.append(")");
        proof {
            assert(final(s)@ =~= old(s)@ + operand_text(*v));
        }
    } else {
        push_value(s, v);
    }
}

fn push_infix(s: &mut String, a: &Value, op: &str, b: &Value, Ghost(parent): Ghost<Value>)
    requires
        decreases_to!(parent => *a),
        decreases_to!(parent => *b),
    ensures
        final(s)@ == old(s)@ + operand_text(*a) + op@ + operand_text(*b),
    decreases parent, 1nat,
{
    push_operand(s, a);
    s.append(op);
    push_operand(s, b);
    proof {
        assert(final(s)@ =~= old(s)@ + operand_text(*a) + op@ + operand_text(*b));
    }
}

/// Appends the text of a value.
#[verifier::spinoff_prover]
#[verifier::rlimit(60)]
pub fn push_value(s: &mut String, v: &Value)
    ensures
        final(s)@ == old(s)@ + value_text(*v),
    decreases *v, 2nat,
{
    let ghost s0 = s@;
    match v {
        Value::Entry(Entry(vn)) => push_vn(s, vn),
        Value::Const(Const(vn)) => {
            s.append("0x");
            push_hex(s, vn.offset);
        },
        Value::Offset(Offset(Entry(vn), Const(c))) => {
            s.append("offset(");
            push_vn(s, vn);
            s.append(", ");
            push_vn(s, c);
            s.append(")");
        },
        Value::Mul(MulExpr(a, b, _)) => push_infix(s, a, "*", b, Ghost(*v)),
        Value::Add(AddExpr(a, b, _)) => push_infix(s, a, "+", b, Ghost(*v)),
        Value::Sub(SubExpr(a, b, _)) => push_infix(s, a, "-", b, Ghost(*v)),
        Value::Choice(Choice(a, b, _)) => push_infix(s, a, "||", b, Ghost(*v)),
        Value::Xor(XorExpr(a, b, _)) => push_infix(s, a, "^", b, Ghost(*v)),
        Value::Or(OrExpr(a, b, _)) => push_infix(s, a, "|", b, Ghost(*v)),
        Value::And(AndExpr(a, b, _)) => push_infix(s, a, "&", b, Ghost(*v)),
        Value::BoolNegate(BoolNegateExpr(a)) => {
            s.append("!");
            push_operand(s, a);
        },
        Value::BoolAnd(BoolAndExpr(a, b)) => push_infix(s, a, "&&", b, Ghost(*v)),
        Value::BoolOr(BoolOrExpr(a, b)) => push_infix(s, a, "||", b, Ghost(*v)),
        Value::BoolXor(BoolXorExpr(a, b)) => push_infix(s, a, "^^", b, Ghost(*v)),
        Value::IntLeftShift(IntLeftShiftExpr(a, b, _)) => push_infix(s, a, "<<", b, Ghost(*v)),
        Value::IntRightShift(IntRightShiftExpr(a, b, _)) => push_infix(s, a, ">>", b, Ghost(*v)),
        Value::IntSignedRightShift(IntSignedRightShiftExpr(a, b, _)) => push_infix(
            s,
            a,
            "s>>",
            b,
            Ghost(*v),
        ),
        Value::Load(Load(a, size, space)) => {
            s.append("*[");
            push_dec(s, *space as u64);
            s.append("]");
            push_operand(s, a);
            s.append(":");
            push_dec(s, *size as u64);
        },
        Value::ZeroExtend(ZeroExtend(a, sz)) => {
            s.append("zext(");
            push_value(s, a);
            s.append(", ");
            push_dec(s, *sz as u64);
            s.append(")");
        },
        Value::SignExtend(SignExtend(a, sz)) => {
            s.append("sext(");
            push_value(s, a);
            s.append(", ");
            push_dec(s, *sz as u64);
            s.append(")");
        },
        Value::Extract(Extract(a, off, sz)) => {
            s.append("extract(");
            push_value(s, a);
            s.append(", ");
            push_dec(s, *off as u64);
            s.append(":");
            push_dec(s, *sz as u64);
            s.append(")");
        },
        Value::IntSLess(IntSLess(a, b)) => push_infix(s, a, "s<", b, Ghost(*v)),
        Value::IntEqual(IntEqual(a, b)) => push_infix(s, a, "==", b, Ghost(*v)),
        Value::IntLess(IntLess(a, b)) => push_infix(s, a, "u<", b, Ghost(*v)),
        Value::PopCount(PopCount(a)) => {
            s.append("popcount(");
            push_value(s, a);
            s.append(")");
        },
        Value::Int2Comp(Int2CompExpr(a, _)) => {
            s.append("int_2comp(");
            push_value(s, a);
            s.append(")");
        },
        Value::IntNotEqual(IntNotEqual(a, b)) => push_infix(s, a, "!=", b, Ghost(*v)),
        Value::IntLessEqual(IntLessEqual(a, b)) => push_infix(s, a, "u<=", b, Ghost(*v)),
        Value::IntSLessEqual(IntSLessEqual(a, b)) => push_infix(s, a, "s<=", b, Ghost(*v)),
        Value::IntCarry(IntCarry(a, b)) => {
            s.append("carry(");
            push_value(s, a);
            s.append(", ");
            push_value(s, b);
            s.append(")");
        },
        Value::IntSCarry(IntSCarry(a, b)) => {
            s.append("scarry(");
            push_value(s, a);
            s.append(", ");
            push_value(s, b);
            s.append(")");
        },
        Value::IntSBorrow(IntSBorrow(a, b)) => {
            s.append("sborrow(");
            push_value(s, a);
            s.append(", ");
            push_value(s, b);
            s.append(")");
        },
        Value::Bind(u) => {
            s.append("bind(");
            push_dec(s, u.id());
            s.append(", ");
            push_dec(s, u.size() as u64);
            s.append(")");
        },
        Value::Top => {
            s.append("⊤");
        },
    }
    proof {
        assert(s@ =~= s0 + value_text(*v));
    }
}

impl Value {
    /// The value's text: operators between their operands (compound
    /// operands in parentheses), constants in hexadecimal, varnodes as
    /// `space[offset]:size`, `⊤` for `Top`.
    pub fn to_string(&self) -> (r: String)
        ensures
            r@ == value_text(*self),
    {
        let mut s = String::new();
        push_value(&mut s, self);
        proof {
            assert(s@ =~= value_text(*self));
        }
        s
    }
}

/// The text of a location: its varnode, or its load value.
pub open spec fn location_text(l: Location) -> Seq<char> {
    match l {
        Location::Direct(vn) => vn_text(vn),
        Location::Indirect(v) => value_text(v),
    }
}

impl Location {
    /// The location's text: its varnode, or its load value.
    pub fn to_string(&self) -> (r: String)
        ensures
            r@ == location_text(*self),
    {
        let mut s = String::new();
        match self {
            Location::Direct(vn) => push_vn(&mut s, vn),
            Location::Indirect(v) => push_value(&mut s, v),
        }
        proof {
            assert(s@ =~= location_text(*self));
        }
        s
    }
}

/// One valued location as `location = value`, a memory location in
/// brackets.
pub open spec fn entry_text(e: (Location, Value)) -> Seq<char> {
    match e.0 {
        Location::Direct(vn) => vn_text(vn) + " = "@ + value_text(e.1),
        Location::Indirect(lk) => "["@ + value_text(lk) + "] = "@ + value_text(e.1),
    }
}

/// The entries, separated by commas.
pub open spec fn entries_text(s: Seq<(Location, Value)>) -> Seq<char>
    decreases s.len(),
{
    if s.len() == 0 {
        Seq::empty()
    } else if s.len() == 1 {
        entry_text(s[0])
    } else {
        entries_text(s.drop_last()) + ", "@ + entry_text(s.last())
    }
}

fn push_entry(s: &mut String, e: &(Location, Value))
    ensures
        final(s)@ == old(s)@ + entry_text(*e),
{
    match &e.0 {
        Location::Direct(vn) => {
            push_vn(s, vn);
            s.append(" = ");
        },
        Location::Indirect(lk) => {
            s.append("[");
            push_value(s, lk);
            s.append("] = ");
        },
    }
    push_value(s, &e.1);
    proof {
        assert(final(s)@ =~= old(s)@ + entry_text(*e));
    }
}

impl ValuationSet {
    /// `Valuation {` and the valued locations as `location = value`,
    /// separated by commas, in the order of `iter`, then `}`.
    pub fn to_string(&self) -> (r: String)
        requires
            self.wf(),
        ensures
            r@ == "Valuation {"@ + entries_text(self.spec_entries()) + "}"@,
    {
        let items = self.iter();
        let mut s = String::from_str("Valuation {");
        let n = items.len();
        let mut i: usize = 0;
        while i < n
            invariant
                n == items@.len(),
                i <= n,
                s@ == "Valuation {"@ + entries_text(items@.subrange(0, i as int)),
            decreases n - i,
        {
            let ghost before = s@;
            if i > 0 {
                s.append(", ");
            }
            push_entry(&mut s, &items[i]);
            proof {
                let sub = items@.subrange(0, i + 1);
                assert(sub.drop_last() =~= items@.subrange(0, i as int));
                assert(sub.last() == items@[i as int]);
                if i == 0 {
                    assert(s@ =~= "Valuation {"@ + entries_text(sub));
                } else {
                    assert(s@ =~= "Valuation {"@ + entries_text(sub));
                }
            }
            i += 1;
        }
        s.append("}");
        proof {
            assert(items@.subrange(0, n as int) =~= items@);
        }
        s
    }
}

/// A varnode with its space, offset and size in hexadecimal:
/// `space[offset]:size`.
pub open spec fn vn_hex_text(vn: VarNode) -> Seq<char> {
    hex_text(vn.space_index as nat) + "["@ + hex_text(vn.offset as nat) + "]:"@ + hex_text(
        vn.size as nat,
    )
}

/// An operand of the hexadecimal text: in parentheses when it is built from
/// other values.
pub open spec fn operand_hex(v: Value) -> Seq<char>
    decreases v, 1nat,
{
    if v.spec_is_compound() {
        "("@ + value_hex_text(v) + ")"@
    } else {
        value_hex_text(v)
    }
}

/// The hexadecimal text of a value: constants without a prefix, varnodes
/// of offsets in hexadecimal, entries as in `value_text`.
pub open spec fn value_hex_text(v: Value) -> Seq<char>
    decreases v, 0nat,
{
    match v {
        Value::Entry(Entry(vn)) => vn_text(vn),
        Value::Const(Const(vn)) => hex_text(vn.offset as nat),
        Value::Offset(Offset(Entry(vn), Const(c))) => "offset("@ + vn_hex_text(vn) + ", "@
            + vn_hex_text(c) + ")"@,
        Value::Mul(MulExpr(a, b, _)) => operand_hex(*a) + "*"@ + operand_hex(*b),
        Value::Add(AddExpr(a, b, _)) => operand_hex(*a) + "+"@ + operand_hex(*b),
        Value::Sub(SubExpr(a, b, _)) => operand_hex(*a) + "-"@ + operand_hex(*b),
        Value::Choice(Choice(a, b, _)) => operand_hex(*a) + "||"@ + operand_hex(*b),
        Value::Xor(XorExpr(a, b, _)) => operand_hex(*a) + "^"@ + operand_hex(*b),
        Value::Or(OrExpr(a, b, _)) => operand_hex(*a) + "|"@ + operand_hex(*b),
        Value::And(AndExpr(a, b, _)) => operand_hex(*a) + "&"@ + operand_hex(*b),
        Value::BoolAnd(BoolAndExpr(a, b)) => operand_hex(*a) + "&&"@ + operand_hex(*b),
        Value::BoolOr(BoolOrExpr(a, b)) => operand_hex(*a) + "||"@ + operand_hex(*b),
        Value::BoolXor(BoolXorExpr(a, b)) => operand_hex(*a) + "^^"@ + operand_hex(*b),
        Value::IntLeftShift(IntLeftShiftExpr(a, b, _)) => operand_hex(*a) + "<<"@ + operand_hex(*b),
        Value::IntRightShift(IntRightShiftExpr(a, b, _)) => operand_hex(*a) + ">>"@ + operand_hex(*b),
        Value::IntSignedRightShift(IntSignedRightShiftExpr(a, b, _)) => operand_hex(*a) + "s>>"@ + operand_hex(*b),
        Value::IntEqual(IntEqual(a, b)) => operand_hex(*a) + "=="@ + operand_hex(*b),
        Value::IntSLess(IntSLess(a, b)) => operand_hex(*a) + "s<"@ + operand_hex(*b),
        Value::IntLess(IntLess(a, b)) => operand_hex(*a) + "u<"@ + operand_hex(*b),
        Value::IntNotEqual(IntNotEqual(a, b)) => operand_hex(*a) + "!="@ + operand_hex(*b),
        Value::IntLessEqual(IntLessEqual(a, b)) => operand_hex(*a) + "u<="@ + operand_hex(*b),
        Value::IntSLessEqual(IntSLessEqual(a, b)) => operand_hex(*a) + "s<="@ + operand_hex(*b),
        Value::BoolNegate(BoolNegateExpr(a)) => "!"@ + operand_hex(*a),
        Value::Load(Load(a, size, space)) => "*["@ + hex_text(space as nat) + "]"@ + value_hex_text(
            *a,
        ) + ":"@ + hex_text(size as nat),
        Value::ZeroExtend(ZeroExtend(a, s)) => "zext("@ + value_hex_text(*a) + ", "@ + dec_text(
            s as nat,
        ) + ")"@,
        Value::SignExtend(SignExtend(a, s)) => "sext("@ + value_hex_text(*a) + ", "@ + dec_text(
            s as nat,
        ) + ")"@,
        Value::Extract(Extract(a, off, s)) => "extract("@ + value_hex_text(*a) + ", "@ + dec_text(
            off as nat,
        ) + ":"@ + dec_text(s as nat) + ")"@,
        Value::PopCount(PopCount(a)) => "popcount("@ + value_hex_text(*a) + ")"@,
        Value::Int2Comp(Int2CompExpr(a, _)) => "int_2comp("@ + value_hex_text(*a) + ")"@,
        Value::IntCarry(IntCarry(a, b)) => "carry("@ + value_hex_text(*a) + ", "@ + value_hex_text(
            *b,
        ) + ")"@,
        Value::IntSCarry(IntSCarry(a, b)) => "scarry("@ + value_hex_text(*a) + ", "@
            + value_hex_text(*b) + ")"@,
        Value::IntSBorrow(IntSBorrow(a, b)) => "sborrow("@ + value_hex_text(*a) + ", "@
            + value_hex_text(*b) + ")"@,
        Value::Bind(u) => "bind("@ + hex_text(u.spec_id() as nat) + ", "@ + dec_text(
            u.spec_size() as nat,
        ) + ")"@,
        Value::Top => "⊤"@,
    }
}

fn push_vn_hex(s: &mut String, vn: &VarNode)
    ensures
        final(s)@ == old(s)@ + vn_hex_text(*vn),
{
    push_hex(s, vn.space_index as u64);
    s.append("[");
    push_hex(s, vn.offset);
    s.append("]:");
    push_hex(s, vn.size as u64);
    proof {
        assert(final(s)@ =~= old(s)@ + vn_hex_text(*vn));
    }
}

fn push_operand_hex(s: &mut String, v: &Value)
    ensures
        final(s)@ == old(s)@ + operand_hex(*v),
    decreases *v, 3nat,
{
    if v.is_compound() {
        s.append("(");
        push_value_hex(s, v);
        s.append(")");
        proof {
            assert(final(s)@ =~= old(s)@ + operand_hex(*v));
        }
    } else {
        push_value_hex(s, v);
    }
}

fn push_infix_hex(s: &mut String, a: &Value, op: &str, b: &Value, Ghost(parent): Ghost<Value>)
    requires
        decreases_to!(parent => *a),
        decreases_to!(parent => *b),
    ensures
        final(s)@ == old(s)@ + operand_hex(*a) + op@ + operand_hex(*b),
    decreases parent, 1nat,
{
    push_operand_hex(s, a);
    s.append(op);
    push_operand_hex(s, b);
    proof {
        assert(final(s)@ =~= old(s)@ + operand_hex(*a) + op@ + operand_hex(*b));
    }
}

fn push_call_hex(s: &mut String, name: &str, a: &Value, close: &str, Ghost(parent): Ghost<Value>)
    requires
        decreases_to!(parent => *a),
    ensures
        final(s)@ == old(s)@ + name@ + value_hex_text(*a) + close@,
    decreases parent, 1nat,
{
    s.append(name);
    push_value_hex(s, a);
    s.append(close);
    proof {
        assert(final(s)@ =~= old(s)@ + name@ + value_hex_text(*a) + close@);
    }
}

/// Appends the hexadecimal text of a value.
#[verifier::spinoff_prover]
#[verifier::rlimit(60)]
pub fn push_value_hex(s: &mut String, v: &Value)
    ensures
        final(s)@ == old(s)@ + value_hex_text(*v),
    decreases *v, 2nat,
{
    let ghost s0 = s@;
    match v {
        Value::Entry(Entry(vn)) => push_vn(s, vn),
        Value::Const(Const(vn)) => push_hex(s, vn.offset),
        Value::Offset(Offset(Entry(vn), Const(c))) => {
            s.append("offset(");
            push_vn_hex(s, vn);
            s.append(", ");
            push_vn_hex(s, c);
            s.append(")");
            proof {
                assert(s@ =~= s0 + value_hex_text(*v));
            }
        },
        Value::Mul(MulExpr(a, b, _)) => push_infix_hex(s, a, "*", b, Ghost(*v)),
        Value::Add(AddExpr(a, b, _)) => push_infix_hex(s, a, "+", b, Ghost(*v)),
        Value::Sub(SubExpr(a, b, _)) => push_infix_hex(s, a, "-", b, Ghost(*v)),
        Value::Choice(Choice(a, b, _)) => push_infix_hex(s, a, "||", b, Ghost(*v)),
        Value::Xor(XorExpr(a, b, _)) => push_infix_hex(s, a, "^", b, Ghost(*v)),
        Value::Or(OrExpr(a, b, _)) => push_infix_hex(s, a, "|", b, Ghost(*v)),
        Value::And(AndExpr(a, b, _)) => push_infix_hex(s, a, "&", b, Ghost(*v)),
        Value::BoolAnd(BoolAndExpr(a, b)) => push_infix_hex(s, a, "&&", b, Ghost(*v)),
        Value::BoolOr(BoolOrExpr(a, b)) => push_infix_hex(s, a, "||", b, Ghost(*v)),
        Value::BoolXor(BoolXorExpr(a, b)) => push_infix_hex(s, a, "^^", b, Ghost(*v)),
        Value::IntLeftShift(IntLeftShiftExpr(a, b, _)) => push_infix_hex(s, a, "<<", b, Ghost(*v)),
        Value::IntRightShift(IntRightShiftExpr(a, b, _)) => push_infix_hex(s, a, ">>", b, Ghost(*v)),
        Value::IntSignedRightShift(IntSignedRightShiftExpr(a, b, _)) => push_infix_hex(s, a, "s>>", b, Ghost(*v)),
        Value::IntEqual(IntEqual(a, b)) => push_infix_hex(s, a, "==", b, Ghost(*v)),
        Value::IntSLess(IntSLess(a, b)) => push_infix_hex(s, a, "s<", b, Ghost(*v)),
        Value::IntLess(IntLess(a, b)) => push_infix_hex(s, a, "u<", b, Ghost(*v)),
        Value::IntNotEqual(IntNotEqual(a, b)) => push_infix_hex(s, a, "!=", b, Ghost(*v)),
        Value::IntLessEqual(IntLessEqual(a, b)) => push_infix_hex(s, a, "u<=", b, Ghost(*v)),
        Value::IntSLessEqual(IntSLessEqual(a, b)) => push_infix_hex(s, a, "s<=", b, Ghost(*v)),
        Value::BoolNegate(BoolNegateExpr(a)) => {
            s.append("!");
            push_operand_hex(s, a);
        },
        Value::Load(Load(a, size, space)) => {
            s.append("*[");
            push_hex(s, *space as u64);
            s.append("]");
            push_value_hex(s, a);
            s.append(":");
            push_hex(s, *size as u64);
            proof {
                assert(s@ =~= s0 + value_hex_text(*v));
            }
        },
        Value::ZeroExtend(ZeroExtend(a, sz)) => {
            push_call_hex(s, "zext(", a, ", ", Ghost(*v));
            push_dec(s, *sz as u64);
            s.append(")");
            proof {
                assert(s@ =~= s0 + value_hex_text(*v));
            }
        },
        Value::SignExtend(SignExtend(a, sz)) => {
            push_call_hex(s, "sext(", a, ", ", Ghost(*v));
            push_dec(s, *sz as u64);
            s.append(")");
            proof {
                assert(s@ =~= s0 + value_hex_text(*v));
            }
        },
        Value::Extract(Extract(a, off, sz)) => {
            push_call_hex(s, "extract(", a, ", ", Ghost(*v));
            push_dec(s, *off as u64);
            s.append(":");
            push_dec(s, *sz as u64);
            s.append(")");
            proof {
                assert(s@ =~= s0 + value_hex_text(*v));
            }
        },
        Value::PopCount(PopCount(a)) => push_call_hex(s, "popcount(", a, ")", Ghost(*v)),
        Value::Int2Comp(Int2CompExpr(a, _)) => push_call_hex(s, "int_2comp(", a, ")", Ghost(*v)),
        Value::IntCarry(IntCarry(a, b)) => {
            push_call_hex(s, "carry(", a, ", ", Ghost(*v));
            push_value_hex(s, b);
            s.append(")");
            proof {
                assert(s@ =~= s0 + value_hex_text(*v));
            }
        },
        Value::IntSCarry(IntSCarry(a, b)) => {
            push_call_hex(s, "scarry(", a, ", ", Ghost(*v));
            push_value_hex(s, b);
            s.append(")");
            proof {
                assert(s@ =~= s0 + value_hex_text(*v));
            }
        },
        Value::IntSBorrow(IntSBorrow(a, b)) => {
            push_call_hex(s, "sborrow(", a, ", ", Ghost(*v));
            push_value_hex(s, b);
            s.append(")");
            proof {
                assert(s@ =~= s0 + value_hex_text(*v));
            }
        },
        Value::Bind(u) => {
            s.append("bind(");
            push_hex(s, u.id());
            s.append(", ");
            push_dec(s, u.size() as u64);
            s.append(")");
            proof {
                assert(s@ =~= s0 + value_hex_text(*v));
            }
        },
        Value::Top => {
            s.append("⊤");
        },
    }
}

impl Value {
    /// The value's hexadecimal text (see `value_hex_text`).
    pub fn to_hex_string(&self) -> (r: String)
        ensures
            r@ == value_hex_text(*self),
    {
        let mut s = String::new();
        push_value_hex(&mut s, self);
        proof {
            assert(s@ =~= value_hex_text(*self));
        }
        s
    }
}

} // verus!
