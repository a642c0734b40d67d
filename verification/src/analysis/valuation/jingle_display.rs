//! Text forms that name spaces and registers after an architecture.
use crate::analysis::valuation::display::{dec_text, hex_text, push_dec, push_hex};
use crate::analysis::valuation::state::SpaceType;
use crate::analysis::valuation::valuation::Location;
use crate::analysis::valuation::value::{
    AddExpr, AndExpr, BoolAndExpr, BoolNegateExpr, BoolOrExpr, BoolXorExpr, Choice, Const, Entry,
    Extract, Int2CompExpr, IntCarry, IntEqual, IntLeftShiftExpr, IntLess, IntLessEqual,
    IntNotEqual, IntRightShiftExpr, IntSBorrow, IntSCarry, IntSLess, IntSLessEqual,
    IntSignedRightShiftExpr, Load, MulExpr, Offset, OrExpr, PopCount, SignExtend, SubExpr, Value,
    XorExpr, ZeroExtend,
};
use crate::sleigh::{CONST_SPACE_INDEX, VarNode};
use vstd::prelude::*;

verus! {

/// An address space's name and kind.
pub struct SpaceName {
    pub name: String,
    pub space_type: SpaceType,
}

/// The names an architecture gives its address spaces (by index) and its
/// registers.
pub struct ArchNames {
    pub spaces: Vec<SpaceName>,
    pub registers: Vec<(VarNode, String)>,
}

/// The name of the register at exactly `vn`: that of its first entry.
pub open spec fn register_name(regs: Seq<(VarNode, String)>, vn: VarNode) -> Option<Seq<char>>
    decreases regs.len(),
{
    if regs.len() == 0 {
        None
    } else if regs[0].0 == vn {
        Some(regs[0].1@)
    } else {
        register_name(regs.drop_first(), vn)
    }
}

/// Both texts joined, when both exist.
pub open spec fn cat(a: Option<Seq<char>>, b: Option<Seq<char>>) -> Option<Seq<char>> {
    match (a, b) {
        (Some(x), Some(y)) => Some(x + y),
        _ => None,
    }
}

/// A varnode named after the architecture: a constant as `0x..:size`, a
/// register by its name, an internal varnode as `$U..:size`, any other as
/// `[space]0x..:size`; nothing when its space is unknown.
pub open spec fn vn_jingle(vn: VarNode, names: ArchNames) -> Option<Seq<char>> {
    let tail = hex_text(vn.offset as nat) + ":"@ + dec_text(vn.size as nat);
    if vn.space_index == CONST_SPACE_INDEX {
        Some("0x"@ + tail)
    } else if register_name(names.registers@, vn) is Some {
        register_name(names.registers@, vn)
    } else if vn.space_index < names.spaces@.len() {
        let sp = names.spaces@[vn.space_index as int];
        if sp.space_type == SpaceType::Internal {
            Some("$U"@ + tail)
        } else {
            Some("["@ + sp.name@ + "]"@ + "0x"@ + tail)
        }
    } else {
        None
    }
}

/// An operand: in parentheses when it is built from other values.
pub open spec fn operand_jingle(v: Value, names: ArchNames) -> Option<Seq<char>>
    decreases v, 1nat,
{
    if v.spec_is_compound() {
        cat(cat(Some("("@), value_jingle(v, names)), Some(")"@))
    } else {
        value_jingle(v, names)
    }
}

/// `a op b`, the operands as `operand_jingle` gives them.
pub open spec fn infix_jingle(a: Option<Seq<char>>, op: Seq<char>, b: Option<Seq<char>>) -> Option<
    Seq<char>,
> {
    cat(cat(a, Some(op)), b)
}

/// `name(a)` or `name(a, b)`-shaped text.
pub open spec fn call_jingle(name: Seq<char>, inner: Option<Seq<char>>, close: Seq<char>) -> Option<
    Seq<char>,
> {
    cat(cat(Some(name), inner), Some(close))
}

/// The text of a value with the architecture's names; nothing when a space
/// it names is unknown.
pub closed spec fn value_jingle(v: Value, names: ArchNames) -> Option<Seq<char>>
    decreases v, 0nat,
{
    match v {
        Value::Entry(Entry(vn)) => vn_jingle(vn, names),
        Value::Const(Const(vn)) => Some("0x"@ + hex_text(vn.offset as nat)),
        Value::Offset(Offset(Entry(vn), Const(c))) => call_jingle(
            "offset("@,
            infix_jingle(vn_jingle(vn, names), ","@, vn_jingle(c, names)),
            ")"@,
        ),
        Value::Mul(MulExpr(a, b, _)) => infix_jingle(
            operand_jingle(*a, names),
            "*"@,
            operand_jingle(*b, names),
        ),
        Value::Add(AddExpr(a, b, _)) => infix_jingle(
            operand_jingle(*a, names),
            "+"@,
            operand_jingle(*b, names),
        ),
        Value::Sub(SubExpr(a, b, _)) => infix_jingle(
            operand_jingle(*a, names),
            "-"@,
            operand_jingle(*b, names),
        ),
        Value::Choice(Choice(a, b, _)) => infix_jingle(
            operand_jingle(*a, names),
            "||"@,
            operand_jingle(*b, names),
        ),
        Value::Xor(XorExpr(a, b, _)) => infix_jingle(
            operand_jingle(*a, names),
            "^"@,
            operand_jingle(*b, names),
        ),
        Value::Or(OrExpr(a, b, _)) => infix_jingle(
            operand_jingle(*a, names),
            "|"@,
            operand_jingle(*b, names),
        ),
        Value::And(AndExpr(a, b, _)) => infix_jingle(
            operand_jingle(*a, names),
            "&"@,
            operand_jingle(*b, names),
        ),
        Value::BoolNegate(BoolNegateExpr(a)) => cat(Some("!"@), operand_jingle(*a, names)),
        Value::BoolAnd(BoolAndExpr(a, b)) => infix_jingle(
            operand_jingle(*a, names),
            "&&"@,
            operand_jingle(*b, names),
        ),
        Value::BoolOr(BoolOrExpr(a, b)) => infix_jingle(
            operand_jingle(*a, names),
            "||"@,
            operand_jingle(*b, names),
        ),
        Value::BoolXor(BoolXorExpr(a, b)) => infix_jingle(
            operand_jingle(*a, names),
            "^^"@,
            operand_jingle(*b, names),
        ),
        Value::IntLeftShift(IntLeftShiftExpr(a, b, _)) => infix_jingle(
            operand_jingle(*a, names),
            "<<"@,
            operand_jingle(*b, names),
        ),
        Value::IntRightShift(IntRightShiftExpr(a, b, _)) => infix_jingle(
            operand_jingle(*a, names),
            ">>"@,
            operand_jingle(*b, names),
        ),
        Value::IntSignedRightShift(IntSignedRightShiftExpr(a, b, _)) => infix_jingle(
            operand_jingle(*a, names),
            "s>>"@,
            operand_jingle(*b, names),
        ),
        Value::Load(Load(a, size, space)) => if (space as int) < names.spaces@.len() {
            cat(
                infix_jingle(
                    Some("*["@ + names.spaces@[space as int].name@),
                    "]"@,
                    operand_jingle(*a, names),
                ),
                Some(":"@ + dec_text(size as nat)),
            )
        } else {
            None
        },
        Value::ZeroExtend(ZeroExtend(a, s)) => call_jingle(
            "zext("@,
            value_jingle(*a, names),
            ", "@ + dec_text(s as nat) + ")"@,
        ),
        Value::SignExtend(SignExtend(a, s)) => call_jingle(
            "sext("@,
            value_jingle(*a, names),
            ", "@ + dec_text(s as nat) + ")"@,
        ),
        Value::Extract(Extract(a, off, s)) => call_jingle(
            "extract("@,
            value_jingle(*a, names),
            ", "@ + dec_text(off as nat) + ":"@ + dec_text(s as nat) + ")"@,
        ),
        Value::IntSLess(IntSLess(a, b)) => infix_jingle(
            operand_jingle(*a, names),
            "s<"@,
            operand_jingle(*b, names),
        ),
        Value::IntEqual(IntEqual(a, b)) => infix_jingle(
            operand_jingle(*a, names),
            "=="@,
            operand_jingle(*b, names),
        ),
        Value::IntLess(IntLess(a, b)) => infix_jingle(
            operand_jingle(*a, names),
            "u<"@,
            operand_jingle(*b, names),
        ),
        Value::PopCount(PopCount(a)) => call_jingle("popcount("@, value_jingle(*a, names), ")"@),
        Value::Int2Comp(Int2CompExpr(a, _)) => call_jingle(
            "int_2comp("@,
            value_jingle(*a, names),
            ")"@,
        ),
        Value::IntNotEqual(IntNotEqual(a, b)) => infix_jingle(
            operand_jingle(*a, names),
            "!="@,
            operand_jingle(*b, names),
        ),
        Value::IntLessEqual(IntLessEqual(a, b)) => infix_jingle(
            operand_jingle(*a, names),
            "u<="@,
            operand_jingle(*b, names),
        ),
        Value::IntSLessEqual(IntSLessEqual(a, b)) => infix_jingle(
            operand_jingle(*a, names),
            "s<="@,
            operand_jingle(*b, names),
        ),
        Value::IntCarry(IntCarry(a, b)) => call_jingle(
            "carry("@,
            infix_jingle(value_jingle(*a, names), ","@, value_jingle(*b, names)),
            ")"@,
        ),
        Value::IntSCarry(IntSCarry(a, b)) => call_jingle(
            "scarry("@,
            infix_jingle(value_jingle(*a, names), ","@, value_jingle(*b, names)),
            ")"@,
        ),
        Value::IntSBorrow(IntSBorrow(a, b)) => call_jingle(
            "sborrow("@,
            infix_jingle(value_jingle(*a, names), ","@, value_jingle(*b, names)),
            ")"@,
        ),
        Value::Bind(u) => Some(
            "bind("@ + dec_text(u.spec_id() as nat) + ", "@ + dec_text(u.spec_size() as nat)
                + ")"@,
        ),
        Value::Top => Some("⊤"@),
    }
}

impl ArchNames {
    /// The name of the register at exactly `vn`, if one is.
    pub fn register_name(&self, vn: &VarNode) -> (r: Option<&String>)
        ensures
            match r {
                Some(n) => register_name(self.registers@, *vn) == Some(n@),
                None => register_name(self.registers@, *vn) is None,
            },
    {
        let n = self.registers.len();
        let mut i: usize = 0;
        proof {
            assert(self.registers@.subrange(0, n as int) =~= self.registers@);
        }
        while i < n
            invariant
                n == self.registers@.len(),
                i <= n,
                register_name(self.registers@, *vn) == register_name(
                    self.registers@.subrange(i as int, n as int),
                    *vn,
                ),
            decreases n - i,
        {
            proof {
                let rest = self.registers@.subrange(i as int, n as int);
                assert(rest.drop_first() =~= self.registers@.subrange(i + 1, n as int));
                assert(rest[0] == self.registers@[i as int]);
            }
            if self.registers[i].0 == *vn {
                return Some(&self.registers[i].1);
            }
            i += 1;
        }
        None
    }
}

fn push_tail(s: &mut String, vn: &VarNode)
    ensures
        final(s)@ == old(s)@ + hex_text(vn.offset as nat) + ":"@ + dec_text(vn.size as nat),
{
    push_hex(s, vn.offset);
    s.append(":");
    push_dec(s, vn.size as u64);
    proof {
        assert(final(s)@ =~= old(s)@ + hex_text(vn.offset as nat) + ":"@ + dec_text(vn.size as nat));
    }
}

/// Appends a varnode named after the architecture; `false` when its space
/// is unknown.
pub fn push_vn_jingle(s: &mut String, vn: &VarNode, names: &ArchNames) -> (ok: bool)
    ensures
        ok == vn_jingle(*vn, *names) is Some,
        ok ==> final(s)@ == old(s)@ + vn_jingle(*vn, *names)->0,
{
    if vn.space_index == CONST_SPACE_INDEX {
        s.append("0x");
        push_tail(s, vn);
        proof {
            assert(final(s)@ =~= old(s)@ + vn_jingle(*vn, *names)->0);
        }
        return true;
    }
    match names.register_name(vn) {
        Some(n) => {
            s.append(n.as_str());
            return true;
        },
        None => {},
    }
    if vn.space_index < names.spaces.len() {
        let sp = &names.spaces[vn.space_index];
        match sp.space_type {
            SpaceType::Internal => {
                s.append("$U");
                push_tail(s, vn);
            },
            _ => {
                s.append("[");
                s.append(sp.name.as_str());
                s.append("]");
                s.append("0x");
                push_tail(s, vn);
            },
        }
        proof {
            assert(final(s)@ =~= old(s)@ + vn_jingle(*vn, *names)->0);
        }
        true
    } else {
        false
    }
}

fn push_operand_jingle(s: &mut String, v: &Value, names: &ArchNames) -> (ok: bool)
    ensures
        ok == operand_jingle(*v, *names) is Some,
        ok ==> final(s)@ == old(s)@ + operand_jingle(*v, *names)->0,
    decreases *v, 3nat,
{
    if v.is_compound() {
        s.append("(");
        let ok = push_value_jingle(s, v, names);
        if !ok {
            return false;
        }
        s.append(")");
        proof {
            assert(final(s)@ =~= old(s)@ + operand_jingle(*v, *names)->0);
        }
        true
    } else {
        push_value_jingle(s, v, names)
    }
}

fn push_infix_jingle(
    s: &mut String,
    a: &Value,
    op: &str,
    b: &Value,
    names: &ArchNames,
    Ghost(parent): Ghost<Value>,
) -> (ok: bool)
    requires
        decreases_to!(parent => *a),
        decreases_to!(parent => *b),
    ensures
        ok == infix_jingle(operand_jingle(*a, *names), op@, operand_jingle(*b, *names)) is Some,
        ok ==> final(s)@ == old(s)@ + infix_jingle(
            operand_jingle(*a, *names),
            op@,
            operand_jingle(*b, *names),
        )->0,
    decreases parent, 0nat,
{
    if !push_operand_jingle(s, a, names) {
        return false;
    }
    s.append(op);
    if !push_operand_jingle(s, b, names) {
        return false;
    }
    proof {
        assert(final(s)@ =~= old(s)@ + infix_jingle(
            operand_jingle(*a, *names),
            op@,
            operand_jingle(*b, *names),
        )->0);
    }
    true
}

fn push_call_jingle(
    s: &mut String,
    name: &str,
    a: &Value,
    close_a: &str,
    b: Option<&Value>,
    close_b: &str,
    names: &ArchNames,
    Ghost(parent): Ghost<Value>,
) -> (ok: bool)
    requires
        decreases_to!(parent => *a),
        b matches Some(bv) ==> decreases_to!(parent => *bv),
    ensures
        ok == match b {
            None => call_jingle(name@, value_jingle(*a, *names), close_a@) is Some,
            Some(bv) => call_jingle(
                name@,
                infix_jingle(value_jingle(*a, *names), close_a@, value_jingle(*bv, *names)),
                close_b@,
            ) is Some,
        },
        ok ==> final(s)@ == old(s)@ + match b {
            None => call_jingle(name@, value_jingle(*a, *names), close_a@)->0,
            Some(bv) => call_jingle(
                name@,
                infix_jingle(value_jingle(*a, *names), close_a@, value_jingle(*bv, *names)),
                close_b@,
            )->0,
        },
    decreases parent, 0nat,
{
    s.append(name);
    if !push_value_jingle(s, a, names) {
        return false;
    }
    s.append(close_a);
    match b {
        None => {},
        Some(bv) => {
            if !push_value_jingle(s, bv, names) {
                return false;
            }
            s.append(close_b);
        },
    }
    proof {
        match b {
            None => {
                assert(final(s)@ =~= old(s)@ + call_jingle(name@, value_jingle(*a, *names), close_a@)->0);
            },
            Some(bv) => {
                assert(final(s)@ =~= old(s)@ + call_jingle(
                    name@,
                    infix_jingle(value_jingle(*a, *names), close_a@, value_jingle(*bv, *names)),
                    close_b@,
                )->0);
            },
        }
    }
    true
}


#[verifier::spinoff_prover]
#[verifier::rlimit(80)]
fn push_special_jingle(s: &mut String, v: &Value, names: &ArchNames) -> (ok: bool)
    requires
        v is Load || v is ZeroExtend || v is SignExtend || v is Extract || v is PopCount
            || v is Int2Comp || v is IntCarry || v is IntSCarry || v is IntSBorrow || v is Bind
            || v is Top,
    ensures
        ok == value_jingle(*v, *names) is Some,
        ok ==> final(s)@ == old(s)@ + value_jingle(*v, *names)->0,
    decreases *v, 1nat,
{
    let ghost s0 = s@;
    let ok = match v {
        Value::Load(Load(a, size, space)) => {
            if (*space as usize) < names.spaces.len() {
                s.append("*[");
                s.append(names.spaces[*space as usize].name.as_str());
                s.append("]");
                if !push_operand_jingle(s, a, names) {
                    return false;
                }
                s.append(":");
                push_dec(s, *size as u64);
                proof {
                    assert(s@ =~= s0 + value_jingle(*v, *names)->0);
                }
                true
            } else {
                false
            }
        },
        Value::ZeroExtend(ZeroExtend(a, sz)) => {
            s.append("zext(");
            if !push_value_jingle(s, a, names) {
                return false;
            }
            s.append(", ");
            push_dec(s, *sz as u64);
            s.append(")");
            proof {
                assert(s@ =~= s0 + value_jingle(*v, *names)->0);
            }
            true
        },
        Value::SignExtend(SignExtend(a, sz)) => {
            s.append("sext(");
            if !push_value_jingle(s, a, names) {
                return false;
            }
            s.append(", ");
            push_dec(s, *sz as u64);
            s.append(")");
            proof {
                assert(s@ =~= s0 + value_jingle(*v, *names)->0);
            }
            true
        },
        Value::Extract(Extract(a, off, sz)) => {
            s.append("extract(");
            if !push_value_jingle(s, a, names) {
                return false;
            }
            s.append(", ");
            push_dec(s, *off as u64);
            s.append(":");
            push_dec(s, *sz as u64);
            s.append(")");
            proof {
                assert(s@ =~= s0 + value_jingle(*v, *names)->0);
            }
            true
        },
        Value::PopCount(PopCount(a)) => push_call_jingle(
            s,
            "popcount(",
            a,
            ")",
            None,
            "",
            names,
            Ghost(*v),
        ),
        Value::Int2Comp(Int2CompExpr(a, _)) => push_call_jingle(
            s,
            "int_2comp(",
            a,
            ")",
            None,
            "",
            names,
            Ghost(*v),
        ),
        Value::IntCarry(IntCarry(a, b)) => push_call_jingle(
            s,
            "carry(",
            a,
            ",",
            Some(&**b),
            ")",
            names,
            Ghost(*v),
        ),
        Value::IntSCarry(IntSCarry(a, b)) => push_call_jingle(
            s,
            "scarry(",
            a,
            ",",
            Some(&**b),
            ")",
            names,
            Ghost(*v),
        ),
        Value::IntSBorrow(IntSBorrow(a, b)) => push_call_jingle(
            s,
            "sborrow(",
            a,
            ",",
            Some(&**b),
            ")",
            names,
            Ghost(*v),
        ),
        Value::Bind(u) => {
            s.append("bind(");
            push_dec(s, u.id());
            s.append(", ");
            push_dec(s, u.size() as u64);
            s.append(")");
            proof {
                assert(s@ =~= s0 + value_jingle(*v, *names)->0);
            }
            true
        },
        Value::Top => {
            s.append("⊤");
            proof {
                assert(s@ =~= s0 + value_jingle(*v, *names)->0);
            }
            true
        },
        _ => false,
    };
    ok
}

/// Appends the text of a value with the architecture's names; `false` when
/// a space it names is unknown.
#[verifier::spinoff_prover]
#[verifier::rlimit(80)]
pub fn push_value_jingle(s: &mut String, v: &Value, names: &ArchNames) -> (ok: bool)
    ensures
        ok == value_jingle(*v, *names) is Some,
        ok ==> final(s)@ == old(s)@ + value_jingle(*v, *names)->0,
    decreases *v, 2nat,
{
    let ghost s0 = s@;
    let ok = match v {
        Value::Entry(Entry(vn)) => push_vn_jingle(s, vn, names),
        Value::Const(Const(vn)) => {
            s.append("0x");
            push_hex(s, vn.offset);
            true
        },
        Value::Offset(Offset(Entry(vn), Const(c))) => {
            s.append("offset(");
            if !push_vn_jingle(s, vn, names) {
                return false;
            }
            s.append(",");
            if !push_vn_jingle(s, c, names) {
                return false;
            }
            s.append(")");
            true
        },
        Value::Mul(MulExpr(a, b, _)) => push_infix_jingle(s, a, "*", b, names, Ghost(*v)),
        Value::Add(AddExpr(a, b, _)) => push_infix_jingle(s, a, "+", b, names, Ghost(*v)),
        Value::Sub(SubExpr(a, b, _)) => push_infix_jingle(s, a, "-", b, names, Ghost(*v)),
        Value::Choice(Choice(a, b, _)) => push_infix_jingle(s, a, "||", b, names, Ghost(*v)),
        Value::Xor(XorExpr(a, b, _)) => push_infix_jingle(s, a, "^", b, names, Ghost(*v)),
        Value::Or(OrExpr(a, b, _)) => push_infix_jingle(s, a, "|", b, names, Ghost(*v)),
        Value::And(AndExpr(a, b, _)) => push_infix_jingle(s, a, "&", b, names, Ghost(*v)),
        Value::BoolNegate(BoolNegateExpr(a)) => {
            s.append("!");
            push_operand_jingle(s, a, names)
        },
        Value::BoolAnd(BoolAndExpr(a, b)) => push_infix_jingle(s, a, "&&", b, names, Ghost(*v)),
        Value::BoolOr(BoolOrExpr(a, b)) => push_infix_jingle(s, a, "||", b, names, Ghost(*v)),
        Value::BoolXor(BoolXorExpr(a, b)) => push_infix_jingle(s, a, "^^", b, names, Ghost(*v)),
        Value::IntLeftShift(IntLeftShiftExpr(a, b, _)) => push_infix_jingle(
            s,
            a,
            "<<",
            b,
            names,
            Ghost(*v),
        ),
        Value::IntRightShift(IntRightShiftExpr(a, b, _)) => push_infix_jingle(
            s,
            a,
            ">>",
            b,
            names,
            Ghost(*v),
        ),
        Value::IntSignedRightShift(IntSignedRightShiftExpr(a, b, _)) => push_infix_jingle(
            s,
            a,
            "s>>",
            b,
            names,
            Ghost(*v),
        ),
        Value::IntSLess(IntSLess(a, b)) => push_infix_jingle(s, a, "s<", b, names, Ghost(*v)),
        Value::IntEqual(IntEqual(a, b)) => push_infix_jingle(s, a, "==", b, names, Ghost(*v)),
        Value::IntLess(IntLess(a, b)) => push_infix_jingle(s, a, "u<", b, names, Ghost(*v)),
        Value::IntNotEqual(IntNotEqual(a, b)) => push_infix_jingle(s, a, "!=", b, names, Ghost(*v)),
        Value::IntLessEqual(IntLessEqual(a, b)) => push_infix_jingle(
            s,
            a,
            "u<=",
            b,
            names,
            Ghost(*v),
        ),
        Value::IntSLessEqual(IntSLessEqual(a, b)) => push_infix_jingle(
            s,
            a,
            "s<=",
            b,
            names,
            Ghost(*v),
        ),
        _ => push_special_jingle(s, v, names),
    };
    proof {
        if ok {
            assert(s@ =~= s0 + value_jingle(*v, *names)->0);
        }
    }
    ok
}

impl Value {
    /// The value's text with the architecture's names (see
    /// `value_jingle`); `None` when a space it names is unknown.
    pub fn fmt_jingle(&self, info: &ArchNames) -> (r: Option<String>)
        ensures
            match r {
                Some(t) => value_jingle(*self, *info) == Some(t@),
                None => value_jingle(*self, *info) is None,
            },
    {
        let mut s = String::new();
        if push_value_jingle(&mut s, self, info) {
            proof {
                assert(s@ =~= value_jingle(*self, *info)->0);
            }
            Some(s)
        } else {
            None
        }
    }
}

/// A location with the architecture's names.
pub open spec fn location_jingle(l: Location, names: ArchNames) -> Option<Seq<char>> {
    match l {
        Location::Direct(vn) => vn_jingle(vn, names),
        Location::Indirect(v) => value_jingle(v, names),
    }
}

impl Location {
    /// The location's text with the architecture's names; `None` when a
    /// space it names is unknown.
    pub fn fmt_jingle(&self, info: &ArchNames) -> (r: Option<String>)
        ensures
            match r {
                Some(t) => location_jingle(*self, *info) == Some(t@),
                None => location_jingle(*self, *info) is None,
            },
    {
        let mut s = String::new();
        let ok = match self {
            Location::Direct(vn) => push_vn_jingle(&mut s, vn, info),
            Location::Indirect(v) => push_value_jingle(&mut s, v, info),
        };
        if ok {
            proof {
                assert(s@ =~= location_jingle(*self, *info)->0);
            }
            Some(s)
        } else {
            None
        }
    }
}

} // verus!
