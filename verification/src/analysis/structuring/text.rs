//! The indented text of structured control flow.
use crate::analysis::structuring::StructuredCfg;
use crate::analysis::valuation::display::{dec_text, push_dec};
use crate::modeling::machine::cpu::concrete::ConcretePcodeAddress;
use vstd::prelude::*;

verus! {

/// A node that can be written as text.
pub trait NodeText {
    /// The node's text.
    spec fn node_text(&self) -> Seq<char>;

    /// Appends the node's text.
    fn push_text(&self, s: &mut String)
        ensures
            final(s)@ == old(s)@ + self.node_text(),
    ;
}

impl NodeText for ConcretePcodeAddress {
    /// `machine:pcode`, both in decimal.
    open spec fn node_text(&self) -> Seq<char> {
        dec_text(self.machine as nat) + ":"@ + dec_text(self.pcode as nat)
    }

    fn push_text(&self, s: &mut String) {
        push_dec(s, self.machine);
        s.append(":");
        push_dec(s, self.pcode as u64);
        proof {
            assert(final(s)@ =~= old(s)@ + self.node_text());
        }
    }
}

impl NodeText for usize {
    open spec fn node_text(&self) -> Seq<char> {
        dec_text(*self as nat)
    }

    fn push_text(&self, s: &mut String) {
        push_dec(s, *self as u64);
    }
}

/// The text of structured control flow with each line indented by `pad`: a
/// line per block, `if h {` / `} else {` / `}` around the branches,
/// `loop h {` / `}` around a body, inner parts indented two spaces more.
pub open spec fn cfg_text<N: NodeText>(c: StructuredCfg<N>, pad: Seq<char>) -> Seq<char>
    decreases c, 1nat,
{
    match c {
        StructuredCfg::Block(n) => pad + "block("@ + n.node_text() + ")\n"@,
        StructuredCfg::Sequence(items) => seq_text(items@, pad),
        StructuredCfg::IfElse { header, then_branch, else_branch } => pad + "if "@
            + header.node_text() + " {\n"@ + cfg_text(*then_branch, pad + "  "@) + pad
            + "} else {\n"@ + cfg_text(*else_branch, pad + "  "@) + pad + "}\n"@,
        StructuredCfg::Loop { header, body } => pad + "loop "@ + header.node_text() + " {\n"@
            + cfg_text(*body, pad + "  "@) + pad + "}\n"@,
    }
}

/// The texts of the items, one after another.
pub open spec fn seq_text<N: NodeText>(items: Seq<StructuredCfg<N>>, pad: Seq<char>) -> Seq<char>
    decreases items, 0nat,
{
    if items.len() == 0 {
        Seq::empty()
    } else {
        seq_text(items.drop_last(), pad) + cfg_text(items.last(), pad)
    }
}

fn push_cfg<N: NodeText>(s: &mut String, c: &StructuredCfg<N>, pad: &str)
    ensures
        final(s)@ == old(s)@ + cfg_text(*c, pad@),
    decreases *c,
{
    match c {
        StructuredCfg::Block(n) => {
            s.append(pad);
            s.append("block(");
            n.push_text(s);
            s.append(")\n");
        },
        StructuredCfg::Sequence(items) => {
            let len = items.len();
            let mut i: usize = 0;
            while i < len
                invariant
                    *c == StructuredCfg::<N>::Sequence(*items),
                    len == items@.len(),
                    i <= len,
                    s@ == old(s)@ + seq_text(items@.subrange(0, i as int), pad@),
                decreases len - i,
            {
                proof {
                    assert(decreases_to!(*c => c->Sequence_0));
                    assert(c->Sequence_0 == *items);
                    assert(decreases_to!(*items => items@));
                    assert(decreases_to!(items@ => items@[i as int]));
                }
                push_cfg(s, &items[i], pad);
                proof {
                    let sub = items@.subrange(0, i + 1);
                    assert(sub.drop_last() =~= items@.subrange(0, i as int));
                    assert(sub.last() == items@[i as int]);
                    assert(s@ =~= old(s)@ + seq_text(sub, pad@));
                }
                i += 1;
            }
            proof {
                assert(items@.subrange(0, len as int) =~= items@);
            }
        },
        StructuredCfg::IfElse { header, then_branch, else_branch } => {
            let mut inner = String::from_str(pad);
            inner.append("  ");
            s.append(pad);
            s.append("if ");
            header.push_text(s);
            s.append(" {\n");
            push_cfg(s, then_branch, inner.as_str());
            s.append(pad);
            s.append("} else {\n");
            push_cfg(s, else_branch, inner.as_str());
            s.append(pad);
            s.append("}\n");
        },
        StructuredCfg::Loop { header, body } => {
            let mut inner = String::from_str(pad);
            inner.append("  ");
            s.append(pad);
            s.append("loop ");
            header.push_text(s);
            s.append(" {\n");
            push_cfg(s, body, inner.as_str());
            s.append(pad);
            s.append("}\n");
        },
    }
    proof {
        assert(final(s)@ =~= old(s)@ + cfg_text(*c, pad@));
    }
}

impl<N: NodeText> StructuredCfg<N> {
    /// The indented text: a line per block, `if`/`else` and `loop` around
    /// their parts, each level of nesting two spaces deeper.
    pub fn to_string(&self) -> (r: String)
        ensures
            r@ == cfg_text(*self, Seq::empty()),
    {
        let mut s = String::new();
        push_cfg(&mut s, self, "");
        proof {
            reveal_strlit("");
            assert(""@ =~= Seq::<char>::empty());
            assert(s@ =~= cfg_text(*self, Seq::empty()));
        }
        s
    }
}

} // verus!
