//! The valuation analysis: a state maps written locations to symbolic values;
//! the transfer function evaluates p-code operations over those values, and
//! the join merges two states.
use crate::analysis::valuation::simplify::simplified;
use crate::analysis::valuation::value::{Choice, values_equal};
use crate::analysis::valuation::simplify_spec::bx;
use crate::analysis::valuation::valuation::{
    Location, ValuationSet, access_vn, after_write, inner_maps_ok, map_ok, vn_ok,
};
use crate::analysis::valuation::value::{
    AddExpr, AndExpr, BoolAndExpr, BoolNegateExpr, BoolOrExpr, BoolXorExpr, Const, Entry, Extract,
    Int2CompExpr, IntCarry, IntEqual, IntLeftShiftExpr, IntLess, IntLessEqual, IntNotEqual,
    IntRightShiftExpr, IntSBorrow, IntSCarry, IntSLess, IntSLessEqual, IntSignedRightShiftExpr,
    Load, MulExpr, OrExpr, PopCount, SignExtend, SubExpr, Value, XorExpr, ZeroExtend, const_value,
    duplicate, max_size, max_usize, spec_insert_bytes,
};
use crate::analysis::varnode_map::VarNodeMap;
use crate::sleigh::{CONST_SPACE_INDEX, GeneralizedVarNode, IndirectVarNode, PcodeOperation, VarNode};
use std::cmp::Ordering;
use vstd::prelude::*;

verus! {

/// How differing values of one location are merged by a join.
#[derive(Debug, Clone, Copy, PartialEq, Eq, Hash, Structural)]
pub enum MergeBehavior {
    /// A `Choice` of the two values (more precise).
    Choice,
    /// `Top` (less precise).
    Top,
}

/// The kind of an address space.
#[derive(Debug, Clone, Copy, PartialEq, Eq, Hash, Structural)]
pub enum SpaceType {
    Constant,
    Processor,
    SpaceBase,
    Internal,
    Fspec,
    Iop,
    Join,
}

/// The kinds of the address spaces of an architecture, by space index.
#[derive(Debug, Clone)]
pub struct ArchSpaces {
    pub space_types: Vec<SpaceType>,
}

impl ArchSpaces {
    pub open spec fn spec_space_type(self, index: usize) -> Option<SpaceType> {
        if index < self.space_types@.len() {
            Some(self.space_types@[index as int])
        } else {
            None
        }
    }

    pub fn new(space_types: Vec<SpaceType>) -> (r: Self)
        ensures
            r.space_types@ == space_types@,
    {
        ArchSpaces { space_types }
    }

    /// The kind of the space with this index, if there is one.
    pub fn space_type(&self, index: usize) -> (r: Option<SpaceType>)
        ensures
            r == self.spec_space_type(index),
    {
        if index < self.space_types.len() {
            Some(self.space_types[index])
        } else {
            None
        }
    }

    pub fn duplicate(&self) -> (r: Self)
        ensures
            r.space_types@ == self.space_types@,
    {
        let mut v: Vec<SpaceType> = Vec::new();
        let n = self.space_types.len();
        let mut i: usize = 0;
        while i < n
            invariant
                n == self.space_types@.len(),
                i <= n,
                v@ == self.space_types@.subrange(0, i as int),
            decreases n - i,
        {
            v.push(self.space_types[i]);
            i += 1;
            assert(v@ =~= self.space_types@.subrange(0, i as int));
        }
        assert(v@ =~= self.space_types@);
        ArchSpaces { space_types: v }
    }
}

/// The first entry from index `i` on whose varnode strictly covers `vn`.
pub open spec fn cover_from(ks: Seq<VarNode>, vs: Seq<Value>, vn: VarNode, i: int) -> Option<
    (VarNode, Value),
>
    decreases ks.len() - i,
{
    if i < 0 || i >= ks.len() {
        None
    } else if ks[i].spec_covers(vn) && ks[i] != vn {
        Some((ks[i], vs[i]))
    } else {
        cover_from(ks, vs, vn, i + 1)
    }
}

/// The entry value of `vn` with the values of the first `n` entries that
/// `vn` strictly covers written into it, in order.
pub open spec fn assemble(ks: Seq<VarNode>, vs: Seq<Value>, vn: VarNode, n: int) -> Value
    decreases n,
{
    if n <= 0 {
        Value::Entry(Entry(vn))
    } else {
        let base = assemble(ks, vs, vn, n - 1);
        let w = ks[n - 1];
        if vn.spec_covers(w) && w != vn {
            simplified(spec_insert_bytes(base, vs[n - 1], (w.offset - vn.offset) as usize))
        } else {
            base
        }
    }
}

/// The value of `vn` in the direct writes `m`: a constant for a constant
/// varnode; the written value; the bytes of a wider written varnode that
/// covers it; or its entry value with the written parts that it covers.
pub open spec fn spec_read(m: VarNodeMap<Value>, vn: VarNode) -> Value {
    if vn.space_index == CONST_SPACE_INDEX {
        Value::Const(Const(vn))
    } else if m.lookup(vn) is Some {
        m.lookup(vn)->0
    } else {
        match cover_from(m.keys(), m.values(), vn, 0) {
            Some((w, v)) => Value::Extract(
                Extract(Box::new(v), (vn.offset - w.offset) as usize, vn.size),
            ),
            None => assemble(m.keys(), m.values(), vn, m.keys().len() as int),
        }
    }
}

/// A state of the valuation analysis.
pub struct ValuationState {
    pub valuation: ValuationSet,
    arch_info: ArchSpaces,
    merge_behavior: MergeBehavior,
}

impl ValuationState {
    pub closed spec fn spec_valuation(self) -> ValuationSet {
        self.valuation
    }

    pub closed spec fn spec_arch(self) -> ArchSpaces {
        self.arch_info
    }

    pub closed spec fn spec_merge_behavior(self) -> MergeBehavior {
        self.merge_behavior
    }

    pub open spec fn wf(self) -> bool {
        self.spec_valuation().wf()
    }

    /// The value that `vn` reads in this state.
    pub open spec fn spec_read_vn(self, vn: VarNode) -> Value {
        spec_read(self.spec_valuation().direct_writes, vn)
    }

    /// An empty state that merges by `Choice`.
    pub fn new(arch_info: ArchSpaces) -> (r: Self)
        ensures
            r.wf(),
            r.spec_arch() == arch_info,
            r.spec_merge_behavior() == MergeBehavior::Choice,
            r.spec_valuation().spec_total() == 0,
            forall|k: VarNode| #[trigger] r.spec_valuation().direct_writes.lookup(k) is None,
            forall|p: Value, k: VarNode| #[trigger] r.spec_valuation().indirect_lookup(p, k) is None,
    {
        ValuationState {
            valuation: ValuationSet::new(),
            arch_info,
            merge_behavior: MergeBehavior::Choice,
        }
    }

    pub fn new_with_behavior(arch_info: ArchSpaces, merge_behavior: MergeBehavior) -> (r: Self)
        ensures
            r.wf(),
            r.spec_arch() == arch_info,
            r.spec_merge_behavior() == merge_behavior,
            r.spec_valuation().spec_total() == 0,
            forall|k: VarNode| #[trigger] r.spec_valuation().direct_writes.lookup(k) is None,
            forall|p: Value, k: VarNode| #[trigger] r.spec_valuation().indirect_lookup(p, k) is None,
    {
        ValuationState { valuation: ValuationSet::new(), arch_info, merge_behavior }
    }

    /// The written value of `varnode`, if it has one.
    pub fn get_value(&self, varnode: &VarNode) -> (r: Option<&Value>)
        requires
            self.wf(),
        ensures
            r == match self.spec_valuation().direct_writes.lookup(*varnode) {
                Some(v) => Some(&v),
                None => None,
            },
    {
        self.valuation.direct_writes.get(varnode)
    }

    pub fn written_locations(&self) -> (r: &VarNodeMap<Value>)
        ensures
            *r == self.spec_valuation().direct_writes,
    {
        &self.valuation.direct_writes
    }

    pub fn valuation(&self) -> (r: &ValuationSet)
        ensures
            *r == self.spec_valuation(),
    {
        &self.valuation
    }

    pub fn arch_info(&self) -> (r: &ArchSpaces)
        ensures
            *r == self.spec_arch(),
    {
        &self.arch_info
    }

    /// The value that `vn` reads: see `spec_read`.
    pub fn read_vn(&self, vn: &VarNode) -> (r: Value)
        requires
            self.wf(),
            vn_ok(*vn),
        ensures
            r == self.spec_read_vn(*vn),
    {
        let m = &self.valuation.direct_writes;
        if vn.is_const() {
            return Value::const_from_varnode(*vn);
        }
        match m.get(vn) {
            Some(v) => {
                return duplicate(v);
            },
            None => {},
        }
        let items = m.items();
        let n = items.len();
        proof {
            m.lemma_keys();
        }
        let mut i: usize = 0;
        while i < n
            invariant
                n == items@.len() == m.keys().len(),
                forall|x: int| 0 <= x < n ==> *(#[trigger] items@[x]).0 == m.keys()[x]
                    && *items@[x].1 == m.values()[x],
                i <= n,
                vn_ok(*vn),
                vn.space_index != CONST_SPACE_INDEX,
                *m == self.spec_valuation().direct_writes,
                m.lookup(*vn) is None,
                map_ok(*m),
                m.wf(),
                forall|k: VarNode| #[trigger] m.lookup(k) is Some <==> m.keys().contains(k),
                cover_from(m.keys(), m.values(), *vn, 0) == cover_from(
                    m.keys(),
                    m.values(),
                    *vn,
                    i as int,
                ),
            decreases n - i,
        {
            let (w, v) = items[i];
            proof {
                assert(m.keys()[i as int] == *w);
                assert(m.keys().contains(*w));
                assert(m.lookup(*w) is Some);
            }
            if w.covers(vn) && *w != *vn {
                assert(cover_from(m.keys(), m.values(), *vn, i as int) == Some((*w, *v)));
                assert(cover_from(m.keys(), m.values(), *vn, 0) == Some((*w, *v)));
                return Value::extract(duplicate(v), (vn.offset - w.offset) as usize, vn.size);
            }
            i += 1;
        }
        let mut base = Value::entry(*vn);
        let mut j: usize = 0;
        while j < n
            invariant
                n == items@.len() == m.keys().len(),
                forall|x: int| 0 <= x < n ==> *(#[trigger] items@[x]).0 == m.keys()[x]
                    && *items@[x].1 == m.values()[x],
                j <= n,
                vn_ok(*vn),
                vn.space_index != CONST_SPACE_INDEX,
                *m == self.spec_valuation().direct_writes,
                m.lookup(*vn) is None,
                cover_from(m.keys(), m.values(), *vn, 0) is None,
                map_ok(*m),
                forall|k: VarNode| #[trigger] m.lookup(k) is Some <==> m.keys().contains(k),
                base == assemble(m.keys(), m.values(), *vn, j as int),
            decreases n - j,
        {
            let (w, v) = items[j];
            proof {
                assert(m.keys()[j as int] == *w);
                assert(m.keys().contains(*w));
                assert(m.lookup(*w) is Some);
            }
            if vn.covers(w) && *w != *vn {
                base = Value::insert_bytes(base, duplicate(v), (w.offset - vn.offset) as usize).into_simplified();
            }
            j += 1;
        }
        base
    }
}

/// Every varnode of the operation ends within 64 bits.
pub open spec fn op_ok(op: PcodeOperation) -> bool {
    match op {
        PcodeOperation::Copy { input, output, .. } => vn_ok(input) && vn_ok(output),
        PcodeOperation::Load { input, output, .. } => vn_ok(input.pointer_location) && vn_ok(output),
        PcodeOperation::Store { output, input, .. } => vn_ok(output.pointer_location) && vn_ok(input),
        PcodeOperation::Branch { input, .. } => vn_ok(input),
        PcodeOperation::Fallthrough { input, .. } => vn_ok(input),
        PcodeOperation::CBranch { input0, input1, .. } => vn_ok(input0) && vn_ok(input1),
        PcodeOperation::BranchInd { input, .. } => vn_ok(input.pointer_location),
        PcodeOperation::Call { dest, .. } => vn_ok(dest),
        PcodeOperation::CallInd { input, .. } => vn_ok(input.pointer_location),
        PcodeOperation::CallOther { output, .. } => (output matches Some(o) ==> vn_ok(o)),
        PcodeOperation::Return { input, .. } => vn_ok(input.pointer_location),
        PcodeOperation::IntEqual { output, input0, input1, .. } => vn_ok(output) && vn_ok(input0) && vn_ok(input1),
        PcodeOperation::IntNotEqual { output, input0, input1, .. } => vn_ok(output) && vn_ok(input0) && vn_ok(input1),
        PcodeOperation::IntSignedLess { output, input0, input1, .. } => vn_ok(output) && vn_ok(input0) && vn_ok(input1),
        PcodeOperation::IntSignedLessEqual { output, input0, input1, .. } => vn_ok(output) && vn_ok(input0) && vn_ok(input1),
        PcodeOperation::IntLess { output, input0, input1, .. } => vn_ok(output) && vn_ok(input0) && vn_ok(input1),
        PcodeOperation::IntLessEqual { output, input0, input1, .. } => vn_ok(output) && vn_ok(input0) && vn_ok(input1),
        PcodeOperation::IntSExt { input, output, .. } => vn_ok(input) && vn_ok(output),
        PcodeOperation::IntZExt { input, output, .. } => vn_ok(input) && vn_ok(output),
        PcodeOperation::IntAdd { output, input0, input1, .. } => vn_ok(output) && vn_ok(input0) && vn_ok(input1),
        PcodeOperation::IntSub { output, input0, input1, .. } => vn_ok(output) && vn_ok(input0) && vn_ok(input1),
        PcodeOperation::IntCarry { output, input0, input1, .. } => vn_ok(output) && vn_ok(input0) && vn_ok(input1),
        PcodeOperation::IntSignedCarry { output, input0, input1, .. } => vn_ok(output) && vn_ok(input0) && vn_ok(input1),
        PcodeOperation::IntSignedBorrow { output, input0, input1, .. } => vn_ok(output) && vn_ok(input0) && vn_ok(input1),
        PcodeOperation::Int2Comp { output, input, .. } => vn_ok(output) && vn_ok(input),
        PcodeOperation::IntNegate { output, input, .. } => vn_ok(output) && vn_ok(input),
        PcodeOperation::IntXor { output, input0, input1, .. } => vn_ok(output) && vn_ok(input0) && vn_ok(input1),
        PcodeOperation::IntAnd { output, input0, input1, .. } => vn_ok(output) && vn_ok(input0) && vn_ok(input1),
        PcodeOperation::IntOr { output, input0, input1, .. } => vn_ok(output) && vn_ok(input0) && vn_ok(input1),
        PcodeOperation::IntLeftShift { output, input0, input1, .. } => vn_ok(output) && vn_ok(input0) && vn_ok(input1),
        PcodeOperation::IntRightShift { output, input0, input1, .. } => vn_ok(output) && vn_ok(input0) && vn_ok(input1),
        PcodeOperation::IntSignedRightShift { output, input0, input1, .. } => vn_ok(output) && vn_ok(input0) && vn_ok(input1),
        PcodeOperation::IntMult { output, input0, input1, .. } => vn_ok(output) && vn_ok(input0) && vn_ok(input1),
        PcodeOperation::IntDiv { output, input0, input1, .. } => vn_ok(output) && vn_ok(input0) && vn_ok(input1),
        PcodeOperation::IntSignedDiv { output, input0, input1, .. } => vn_ok(output) && vn_ok(input0) && vn_ok(input1),
        PcodeOperation::IntRem { output, input0, input1, .. } => vn_ok(output) && vn_ok(input0) && vn_ok(input1),
        PcodeOperation::IntSignedRem { output, input0, input1, .. } => vn_ok(output) && vn_ok(input0) && vn_ok(input1),
        PcodeOperation::BoolNegate { output, input, .. } => vn_ok(output) && vn_ok(input),
        PcodeOperation::BoolXor { output, input0, input1, .. } => vn_ok(output) && vn_ok(input0) && vn_ok(input1),
        PcodeOperation::BoolAnd { output, input0, input1, .. } => vn_ok(output) && vn_ok(input0) && vn_ok(input1),
        PcodeOperation::BoolOr { output, input0, input1, .. } => vn_ok(output) && vn_ok(input0) && vn_ok(input1),
        PcodeOperation::FloatEqual { output, input0, input1, .. } => vn_ok(output) && vn_ok(input0) && vn_ok(input1),
        PcodeOperation::FloatNotEqual { output, input0, input1, .. } => vn_ok(output) && vn_ok(input0) && vn_ok(input1),
        PcodeOperation::FloatLess { output, input0, input1, .. } => vn_ok(output) && vn_ok(input0) && vn_ok(input1),
        PcodeOperation::FloatLessEqual { output, input0, input1, .. } => vn_ok(output) && vn_ok(input0) && vn_ok(input1),
        PcodeOperation::FloatNaN { output, input, .. } => vn_ok(output) && vn_ok(input),
        PcodeOperation::FloatAdd { output, input0, input1, .. } => vn_ok(output) && vn_ok(input0) && vn_ok(input1),
        PcodeOperation::FloatDiv { output, input0, input1, .. } => vn_ok(output) && vn_ok(input0) && vn_ok(input1),
        PcodeOperation::FloatMult { output, input0, input1, .. } => vn_ok(output) && vn_ok(input0) && vn_ok(input1),
        PcodeOperation::FloatSub { output, input0, input1, .. } => vn_ok(output) && vn_ok(input0) && vn_ok(input1),
        PcodeOperation::FloatNeg { output, input, .. } => vn_ok(output) && vn_ok(input),
        PcodeOperation::FloatAbs { output, input, .. } => vn_ok(output) && vn_ok(input),
        PcodeOperation::FloatSqrt { output, input, .. } => vn_ok(output) && vn_ok(input),
        PcodeOperation::Int2Float { output, input, .. } => vn_ok(output) && vn_ok(input),
        PcodeOperation::Float2Float { output, input, .. } => vn_ok(output) && vn_ok(input),
        PcodeOperation::FloatTrunc { output, input, .. } => vn_ok(output) && vn_ok(input),
        PcodeOperation::FloatCeil { output, input, .. } => vn_ok(output) && vn_ok(input),
        PcodeOperation::FloatFloor { output, input, .. } => vn_ok(output) && vn_ok(input),
        PcodeOperation::FloatRound { output, input, .. } => vn_ok(output) && vn_ok(input),
        PcodeOperation::Piece { output, input0, input1, .. } => vn_ok(output) && vn_ok(input0) && vn_ok(input1),
        PcodeOperation::SubPiece { output, input0, input1, .. } => vn_ok(output) && vn_ok(input0) && vn_ok(input1),
        PcodeOperation::Cast { output, input, .. } => vn_ok(output) && vn_ok(input),
        PcodeOperation::PtrAdd { output, input0, input1, .. } => vn_ok(output) && vn_ok(input0) && vn_ok(input1),
        PcodeOperation::PtrSub { output, input0, input1, .. } => vn_ok(output) && vn_ok(input0) && vn_ok(input1),
        PcodeOperation::CPoolRef { input0, input1, output, .. } => vn_ok(input0) && vn_ok(input1) && vn_ok(output),
        PcodeOperation::New { output, input, .. } => vn_ok(output) && vn_ok(input),
        PcodeOperation::Insert { output, input0, input1, .. } => vn_ok(output) && vn_ok(input0) && vn_ok(input1),
        PcodeOperation::Extract { output, input0, .. } => vn_ok(output) && vn_ok(input0),
        PcodeOperation::PopCount { input, output, .. } => vn_ok(input) && vn_ok(output),
        PcodeOperation::LzCount { output, input, .. } => vn_ok(output) && vn_ok(input),
    }
}

impl ValuationState {
    /// The value a load of `output.size` bytes through `input` reads: what a
    /// store through the same simplified pointer wrote there, else a `Load` of
    /// the simplified pointer.
    pub open spec fn spec_load_value(self, input: IndirectVarNode, output: VarNode) -> Value {
        let ptr = simplified(self.spec_read_vn(input.pointer_location));
        let access = VarNode { space_index: input.pointer_space_index, offset: 0, size: output.size };
        match self.spec_valuation().indirect_lookup(ptr, access) {
            Some(v) => v,
            None => Value::Load(Load(bx(ptr), output.size, input.pointer_space_index as u8)),
        }
    }

    /// The direct write of `op` and its value before simplification: the
    /// operator applied to the values its inputs read; `Top` for an operation
    /// that the analysis does not model.
    #[verifier::opaque]
    pub open spec fn spec_op_write(self, op: PcodeOperation) -> Option<(VarNode, Value)> {
        match op {
            PcodeOperation::Store { .. } => None,
            PcodeOperation::Copy { input, output } => Some(
                (
                    output,
                    if input.space_index == CONST_SPACE_INDEX {
                        const_value(input.offset as i64, input.size)
                    } else {
                        self.spec_read_vn(input)
                    },
                ),
            ),
            PcodeOperation::IntAdd { output, input0, input1 } => {
                let a = self.spec_read_vn(input0);
                let b = self.spec_read_vn(input1);
                Some((output, Value::Add(AddExpr(bx(a), bx(b), max_size(a.spec_size(), b.spec_size())))))
            },
            PcodeOperation::IntSub { output, input0, input1 } => {
                let a = self.spec_read_vn(input0);
                let b = self.spec_read_vn(input1);
                Some((output, Value::Sub(SubExpr(bx(a), bx(b), max_size(a.spec_size(), b.spec_size())))))
            },
            PcodeOperation::IntXor { output, input0, input1 } => {
                let a = self.spec_read_vn(input0);
                let b = self.spec_read_vn(input1);
                Some((output, Value::Xor(XorExpr(bx(a), bx(b), max_size(a.spec_size(), b.spec_size())))))
            },
            PcodeOperation::IntMult { output, input0, input1 } => {
                let a = self.spec_read_vn(input0);
                let b = self.spec_read_vn(input1);
                Some((output, Value::Mul(MulExpr(bx(a), bx(b), max_size(a.spec_size(), b.spec_size())))))
            },
            PcodeOperation::IntOr { output, input0, input1 } => {
                let a = self.spec_read_vn(input0);
                let b = self.spec_read_vn(input1);
                Some((output, Value::Or(OrExpr(bx(a), bx(b), max_size(a.spec_size(), b.spec_size())))))
            },
            PcodeOperation::IntAnd { output, input0, input1 } => {
                let a = self.spec_read_vn(input0);
                let b = self.spec_read_vn(input1);
                Some((output, Value::And(AndExpr(bx(a), bx(b), max_size(a.spec_size(), b.spec_size())))))
            },
            PcodeOperation::BoolAnd { output, input0, input1 } => {
                let a = self.spec_read_vn(input0);
                let b = self.spec_read_vn(input1);
                Some((output, Value::BoolAnd(BoolAndExpr(bx(a), bx(b)))))
            },
            PcodeOperation::BoolOr { output, input0, input1 } => {
                let a = self.spec_read_vn(input0);
                let b = self.spec_read_vn(input1);
                Some((output, Value::BoolOr(BoolOrExpr(bx(a), bx(b)))))
            },
            PcodeOperation::BoolXor { output, input0, input1 } => {
                let a = self.spec_read_vn(input0);
                let b = self.spec_read_vn(input1);
                Some((output, Value::BoolXor(BoolXorExpr(bx(a), bx(b)))))
            },
            PcodeOperation::IntLeftShift { output, input0, input1 } => {
                let a = self.spec_read_vn(input0);
                let b = self.spec_read_vn(input1);
                Some((output, Value::IntLeftShift(IntLeftShiftExpr(bx(a), bx(b), max_size(a.spec_size(), b.spec_size())))))
            },
            PcodeOperation::IntRightShift { output, input0, input1 } => {
                let a = self.spec_read_vn(input0);
                let b = self.spec_read_vn(input1);
                Some((output, Value::IntRightShift(IntRightShiftExpr(bx(a), bx(b), max_size(a.spec_size(), b.spec_size())))))
            },
            PcodeOperation::IntSignedRightShift { output, input0, input1 } => {
                let a = self.spec_read_vn(input0);
                let b = self.spec_read_vn(input1);
                Some((output, Value::IntSignedRightShift(IntSignedRightShiftExpr(bx(a), bx(b), max_size(a.spec_size(), b.spec_size())))))
            },
            PcodeOperation::IntEqual { output, input0, input1 } => {
                let a = self.spec_read_vn(input0);
                let b = self.spec_read_vn(input1);
                Some((output, Value::IntEqual(IntEqual(bx(a), bx(b)))))
            },
            PcodeOperation::IntSignedLess { output, input0, input1 } => {
                let a = self.spec_read_vn(input0);
                let b = self.spec_read_vn(input1);
                Some((output, Value::IntSLess(IntSLess(bx(a), bx(b)))))
            },
            PcodeOperation::IntLess { output, input0, input1 } => {
                let a = self.spec_read_vn(input0);
                let b = self.spec_read_vn(input1);
                Some((output, Value::IntLess(IntLess(bx(a), bx(b)))))
            },
            PcodeOperation::IntNotEqual { output, input0, input1 } => {
                let a = self.spec_read_vn(input0);
                let b = self.spec_read_vn(input1);
                Some((output, Value::IntNotEqual(IntNotEqual(bx(a), bx(b)))))
            },
            PcodeOperation::IntLessEqual { output, input0, input1 } => {
                let a = self.spec_read_vn(input0);
                let b = self.spec_read_vn(input1);
                Some((output, Value::IntLessEqual(IntLessEqual(bx(a), bx(b)))))
            },
            PcodeOperation::IntSignedLessEqual { output, input0, input1 } => {
                let a = self.spec_read_vn(input0);
                let b = self.spec_read_vn(input1);
                Some((output, Value::IntSLessEqual(IntSLessEqual(bx(a), bx(b)))))
            },
            PcodeOperation::IntCarry { output, input0, input1 } => {
                let a = self.spec_read_vn(input0);
                let b = self.spec_read_vn(input1);
                Some((output, Value::IntCarry(IntCarry(bx(a), bx(b)))))
            },
            PcodeOperation::IntSignedCarry { output, input0, input1 } => {
                let a = self.spec_read_vn(input0);
                let b = self.spec_read_vn(input1);
                Some((output, Value::IntSCarry(IntSCarry(bx(a), bx(b)))))
            },
            PcodeOperation::IntSignedBorrow { output, input0, input1 } => {
                let a = self.spec_read_vn(input0);
                let b = self.spec_read_vn(input1);
                Some((output, Value::IntSBorrow(IntSBorrow(bx(a), bx(b)))))
            },
            PcodeOperation::BoolNegate { output, input } => {
                let a = self.spec_read_vn(input);
                Some((output, Value::BoolNegate(BoolNegateExpr(bx(a)))))
            },
            PcodeOperation::Int2Comp { output, input } => {
                let a = self.spec_read_vn(input);
                Some((output, Value::Int2Comp(Int2CompExpr(bx(a), a.spec_size()))))
            },
            PcodeOperation::PopCount { output, input } => {
                let a = self.spec_read_vn(input);
                Some((output, Value::PopCount(PopCount(bx(a)))))
            },
            PcodeOperation::IntNegate { output, input } => {
                let a = self.spec_read_vn(input);
                let z = const_value(0, input.size);
                Some((output, Value::Sub(SubExpr(bx(z), bx(a), max_size(z.spec_size(), a.spec_size())))))
            },
            PcodeOperation::Load { input, output } => Some((output, self.spec_load_value(input, output))),
            PcodeOperation::IntZExt { input, output } => Some(
                (output, Value::ZeroExtend(ZeroExtend(bx(self.spec_read_vn(input)), output.size))),
            ),
            PcodeOperation::IntSExt { input, output } => Some(
                (output, Value::SignExtend(SignExtend(bx(self.spec_read_vn(input)), output.size))),
            ),
            PcodeOperation::SubPiece { output, input0, input1 } => Some(
                (
                    output,
                    Value::Extract(
                        Extract(bx(self.spec_read_vn(input0)), input1.offset as usize, output.size),
                    ),
                ),
            ),
            _ => match op.spec_output() {
                Some(GeneralizedVarNode::Direct(vn)) => Some((vn, Value::Top)),
                _ => None,
            },
        }
    }

    /// Whether a control transfer by `op` drops the value of `k`: a branch to
    /// a computed target drops every varnode outside a known non-constant
    /// space; an indirect branch or call drops the internal varnodes other
    /// than its target.
    pub open spec fn spec_cleared(self, op: PcodeOperation, k: VarNode) -> bool {
        match op {
            PcodeOperation::Branch { input } | PcodeOperation::CBranch { input0: input, .. }
            | PcodeOperation::Fallthrough { input } => input.space_index != CONST_SPACE_INDEX && !(
            self.spec_arch().spec_space_type(k.space_index) matches Some(t) && t
                != SpaceType::Constant),
            PcodeOperation::BranchInd { input } | PcodeOperation::CallInd { input } => k
                != input.pointer_location && self.spec_arch().spec_space_type(k.space_index)
                == Some(SpaceType::Internal),
            _ => false,
        }
    }

    /// The value of varnode `k` after the direct write of `op`.
    pub open spec fn spec_written_direct(self, op: PcodeOperation, k: VarNode) -> Option<Value> {
        let l0 = self.spec_valuation().direct_writes.lookup(k);
        match self.spec_op_write(op) {
            Some((vn, v)) => after_write(l0, vn, simplified(v), k),
            None => l0,
        }
    }

    /// The value of varnode `k` after `op`.
    pub open spec fn spec_transfer_direct(self, op: PcodeOperation, k: VarNode) -> Option<Value> {
        let l2 = if self.spec_cleared(op, k) {
            None
        } else {
            self.spec_written_direct(op, k)
        };
        match op {
            PcodeOperation::CallOther { output: Some(a), .. } => after_write(
                l2,
                a,
                simplified(Value::Top),
                k,
            ),
            _ => l2,
        }
    }

    /// The value of memory location `k` of pointer `p` after `op`: only a
    /// store writes memory.
    pub open spec fn spec_transfer_indirect(self, op: PcodeOperation, p: Value, k: VarNode) -> Option<
        Value,
    > {
        let l0 = self.spec_valuation().indirect_lookup(p, k);
        match op {
            PcodeOperation::Store { output, input } => {
                let ptr = simplified(self.spec_read_vn(output.pointer_location));
                if p == ptr {
                    after_write(
                        l0,
                        access_vn(input.size, output.pointer_space_index as u8),
                        simplified(self.spec_read_vn(input)),
                        k,
                    )
                } else {
                    l0
                }
            },
            _ => l0,
        }
    }

    /// The value of a load of `output.size` bytes through `input`.
    fn load_value(&self, input: &IndirectVarNode, output: &VarNode) -> (r: Value)
        requires
            self.wf(),
            vn_ok(input.pointer_location),
        ensures
            r == self.spec_load_value(*input, *output),
    {
        let ptr = self.read_vn(&input.pointer_location).into_simplified();
        let access = VarNode::new(0, output.size, input.pointer_space_index);
        match self.valuation.find_pointer(&ptr) {
            Some(i) => {
                proof {
                    assert(self.valuation.inner_maps_ok_at(i as int));
                }
                match self.valuation.indirect_writes[i].1.get(&access) {
                    Some(v) => duplicate(v),
                    None => Value::load(ptr, output.size, input.pointer_space_index as u8),
                }
            },
            None => Value::load(ptr, output.size, input.pointer_space_index as u8),
        }
    }

    /// The direct write of `op`, as `spec_op_write` gives it.
    fn op_write(&self, op: &PcodeOperation) -> (r: Option<(VarNode, Value)>)
        requires
            self.wf(),
            op_ok(*op),
        ensures
            r == self.spec_op_write(*op),
    {
        reveal(ValuationState::spec_op_write);
        match op {
            PcodeOperation::Store { .. } => None,
            PcodeOperation::Copy { input, output } => {
                let v = if input.is_const() {
                    Value::const_(input.offset as i64, input.size)
                } else {
                    self.read_vn(input)
                };
                Some((*output, v))
            },
            PcodeOperation::IntAdd { output, input0, input1 } => {
                let a = self.read_vn(input0);
                let b = self.read_vn(input1);
                Some((*output, Value::add_rc(a, b)))
            },
            PcodeOperation::IntSub { output, input0, input1 } => {
                let a = self.read_vn(input0);
                let b = self.read_vn(input1);
                Some((*output, Value::sub_rc(a, b)))
            },
            PcodeOperation::IntXor { output, input0, input1 } => {
                let a = self.read_vn(input0);
                let b = self.read_vn(input1);
                Some((*output, Value::xor_rc(a, b)))
            },
            PcodeOperation::IntMult { output, input0, input1 } => {
                let a = self.read_vn(input0);
                let b = self.read_vn(input1);
                Some((*output, Value::mul_rc(a, b)))
            },
            PcodeOperation::IntOr { output, input0, input1 } => {
                let a = self.read_vn(input0);
                let b = self.read_vn(input1);
                Some((*output, Value::or_rc(a, b)))
            },
            PcodeOperation::IntAnd { output, input0, input1 } => {
                let a = self.read_vn(input0);
                let b = self.read_vn(input1);
                Some((*output, Value::and_rc(a, b)))
            },
            PcodeOperation::BoolAnd { output, input0, input1 } => {
                let a = self.read_vn(input0);
                let b = self.read_vn(input1);
                Some((*output, Value::bool_and(a, b)))
            },
            PcodeOperation::BoolOr { output, input0, input1 } => {
                let a = self.read_vn(input0);
                let b = self.read_vn(input1);
                Some((*output, Value::bool_or(a, b)))
            },
            PcodeOperation::BoolXor { output, input0, input1 } => {
                let a = self.read_vn(input0);
                let b = self.read_vn(input1);
                Some((*output, Value::bool_xor(a, b)))
            },
            PcodeOperation::IntLeftShift { output, input0, input1 } => {
                let a = self.read_vn(input0);
                let b = self.read_vn(input1);
                Some((*output, { let s = max_usize(a.size(), b.size()); Value::IntLeftShift(IntLeftShiftExpr(Box::new(a), Box::new(b), s)) }))
            },
            PcodeOperation::IntRightShift { output, input0, input1 } => {
                let a = self.read_vn(input0);
                let b = self.read_vn(input1);
                Some((*output, { let s = max_usize(a.size(), b.size()); Value::IntRightShift(IntRightShiftExpr(Box::new(a), Box::new(b), s)) }))
            },
            PcodeOperation::IntSignedRightShift { output, input0, input1 } => {
                let a = self.read_vn(input0);
                let b = self.read_vn(input1);
                Some((*output, { let s = max_usize(a.size(), b.size()); Value::IntSignedRightShift(IntSignedRightShiftExpr(Box::new(a), Box::new(b), s)) }))
            },
            PcodeOperation::IntEqual { output, input0, input1 } => {
                let a = self.read_vn(input0);
                let b = self.read_vn(input1);
                Some((*output, Value::int_equal(a, b)))
            },
            PcodeOperation::IntSignedLess { output, input0, input1 } => {
                let a = self.read_vn(input0);
                let b = self.read_vn(input1);
                Some((*output, Value::int_sless(a, b)))
            },
            PcodeOperation::IntLess { output, input0, input1 } => {
                let a = self.read_vn(input0);
                let b = self.read_vn(input1);
                Some((*output, Value::int_less(a, b)))
            },
            PcodeOperation::IntNotEqual { output, input0, input1 } => {
                let a = self.read_vn(input0);
                let b = self.read_vn(input1);
                Some((*output, Value::int_not_equal(a, b)))
            },
            PcodeOperation::IntLessEqual { output, input0, input1 } => {
                let a = self.read_vn(input0);
                let b = self.read_vn(input1);
                Some((*output, Value::int_less_equal(a, b)))
            },
            PcodeOperation::IntSignedLessEqual { output, input0, input1 } => {
                let a = self.read_vn(input0);
                let b = self.read_vn(input1);
                Some((*output, Value::int_sless_equal(a, b)))
            },
            PcodeOperation::IntCarry { output, input0, input1 } => {
                let a = self.read_vn(input0);
                let b = self.read_vn(input1);
                Some((*output, Value::int_carry(a, b)))
            },
            PcodeOperation::IntSignedCarry { output, input0, input1 } => {
                let a = self.read_vn(input0);
                let b = self.read_vn(input1);
                Some((*output, Value::int_scarry(a, b)))
            },
            PcodeOperation::IntSignedBorrow { output, input0, input1 } => {
                let a = self.read_vn(input0);
                let b = self.read_vn(input1);
                Some((*output, Value::int_sborrow(a, b)))
            },
            PcodeOperation::BoolNegate { output, input } => {
                let a = self.read_vn(input);
                Some((*output, Value::bool_negate(a)))
            },
            PcodeOperation::Int2Comp { output, input } => {
                let a = self.read_vn(input);
                Some((*output, Value::int_2comp(a)))
            },
            PcodeOperation::PopCount { output, input } => {
                let a = self.read_vn(input);
                Some((*output, Value::popcount(a)))
            },
            PcodeOperation::IntNegate { output, input } => {
                let z = Value::const_(0, input.size);
                let a = self.read_vn(input);
                Some((*output, Value::sub_rc(z, a)))
            },
            PcodeOperation::Load { input, output } => Some((*output, self.load_value(input, output))),
            PcodeOperation::IntZExt { input, output } => Some(
                (*output, Value::zero_extend(self.read_vn(input), output.size)),
            ),
            PcodeOperation::IntSExt { input, output } => Some(
                (*output, Value::sign_extend(self.read_vn(input), output.size)),
            ),
            PcodeOperation::SubPiece { output, input0, input1 } => Some(
                (*output, Value::extract(self.read_vn(input0), input1.offset as usize, output.size)),
            ),
            _ => match op.output() {
                Some(GeneralizedVarNode::Direct(vn)) => Some((vn, Value::Top)),
                _ => None,
            },
        }
    }

    /// A copy of the state.
    pub fn duplicate(&self) -> (r: Self)
        requires
            self.wf(),
        ensures
            r.wf(),
            r.spec_arch().space_types@ == self.spec_arch().space_types@,
            r.spec_merge_behavior() == self.spec_merge_behavior(),
            r.spec_valuation().direct_writes.keys() == self.spec_valuation().direct_writes.keys(),
            r.spec_valuation().direct_writes.values() == self.spec_valuation().direct_writes.values(),
            forall|k: VarNode| #[trigger]
                r.spec_valuation().direct_writes.lookup(k) == self.spec_valuation().direct_writes.lookup(k),
            forall|p: Value, k: VarNode| #[trigger]
                r.spec_valuation().indirect_lookup(p, k) == self.spec_valuation().indirect_lookup(p, k),
    {
        ValuationState {
            valuation: self.valuation.duplicate(),
            arch_info: self.arch_info.duplicate(),
            merge_behavior: self.merge_behavior,
        }
    }

    /// A store writes no varnode.
    pub proof fn lemma_store_writes_no_varnode(self, op: PcodeOperation)
        requires
            op is Store,
        ensures
            self.spec_op_write(op) is None,
    {
        reveal(ValuationState::spec_op_write);
    }

    /// Writes through a store's pointer in `st`.
    fn store_stage(&self, st: &mut ValuationState, output: &IndirectVarNode, input: &VarNode)
        requires
            self.wf(),
            vn_ok(output.pointer_location),
            vn_ok(*input),
            old(st).wf(),
        ensures
            final(st).wf(),
            final(st).spec_arch() == old(st).spec_arch(),
            final(st).spec_merge_behavior() == old(st).spec_merge_behavior(),
            final(st).spec_valuation().direct_writes == old(st).spec_valuation().direct_writes,
            forall|p: Value, k: VarNode| #[trigger]
                final(st).spec_valuation().indirect_lookup(p, k) == if p == simplified(
                    self.spec_read_vn(output.pointer_location),
                ) {
                    after_write(
                        old(st).spec_valuation().indirect_lookup(p, k),
                        access_vn(input.size, output.pointer_space_index as u8),
                        simplified(self.spec_read_vn(*input)),
                        k,
                    )
                } else {
                    old(st).spec_valuation().indirect_lookup(p, k)
                },
    {
        let val = self.read_vn(input);
        let pv = self.read_vn(&output.pointer_location).into_simplified();
        let loc = Value::load(pv, input.size, output.pointer_space_index as u8);
        st.valuation.add(Location::Indirect(loc), val);
    }

    /// Writes a varnode in `st`.
    fn direct_stage(&self, st: &mut ValuationState, w: Option<(VarNode, Value)>)
        requires
            old(st).wf(),
            w matches Some((vn, _)) ==> vn_ok(vn),
        ensures
            final(st).wf(),
            final(st).spec_arch() == old(st).spec_arch(),
            final(st).spec_merge_behavior() == old(st).spec_merge_behavior(),
            forall|p: Value, k: VarNode| #[trigger]
                final(st).spec_valuation().indirect_lookup(p, k) == old(st).spec_valuation().indirect_lookup(p, k),
            forall|k: VarNode| #[trigger]
                final(st).spec_valuation().direct_writes.lookup(k) == match w {
                    Some((vn, v)) => after_write(
                        old(st).spec_valuation().direct_writes.lookup(k),
                        vn,
                        simplified(v),
                        k,
                    ),
                    None => old(st).spec_valuation().direct_writes.lookup(k),
                },
    {
        match w {
            Some((vn, v)) => {
                st.valuation.add(Location::Direct(vn), v);
            },
            None => {},
        }
    }

    /// The output varnode of a direct write ends within 64 bits.
    proof fn lemma_write_vn_ok(self, op: PcodeOperation)
        requires
            op_ok(op),
        ensures
            self.spec_op_write(op) matches Some((vn, _)) ==> vn_ok(vn),
    {
        reveal(ValuationState::spec_op_write);
    }

    /// Applies the write of `op` to `st`, a copy of this state.
    fn write_stage(&self, st: &mut ValuationState, op: &PcodeOperation)
        requires
            self.wf(),
            op_ok(*op),
            old(st).wf(),
            forall|k: VarNode| #[trigger]
                old(st).spec_valuation().direct_writes.lookup(k) == self.spec_valuation().direct_writes.lookup(k),
            forall|p: Value, k: VarNode| #[trigger]
                old(st).spec_valuation().indirect_lookup(p, k) == self.spec_valuation().indirect_lookup(p, k),
        ensures
            final(st).wf(),
            final(st).spec_arch() == old(st).spec_arch(),
            final(st).spec_merge_behavior() == old(st).spec_merge_behavior(),
            forall|k: VarNode| #[trigger]
                final(st).spec_valuation().direct_writes.lookup(k) == self.spec_written_direct(*op, k),
            forall|p: Value, k: VarNode| #[trigger]
                final(st).spec_valuation().indirect_lookup(p, k) == self.spec_transfer_indirect(*op, p, k),
    {
        if let PcodeOperation::Store { output, input } = op {
            self.store_stage(st, output, input);
            proof {
                self.lemma_store_writes_no_varnode(*op);
            }
        } else {
            let w = self.op_write(op);
            proof {
                self.lemma_write_vn_ok(*op);
            }
            self.direct_stage(st, w);
        }
    }

    /// Drops the values that the control transfer `op` drops from `st`, then
    /// writes the `Top` output of an opaque call.
    fn clear_stage(&self, st: &mut ValuationState, op: &PcodeOperation)
        requires
            old(st).wf(),
            op_ok(*op),
        ensures
            final(st).wf(),
            final(st).spec_arch() == old(st).spec_arch(),
            final(st).spec_merge_behavior() == old(st).spec_merge_behavior(),
            forall|p: Value, k: VarNode| #[trigger]
                final(st).spec_valuation().indirect_lookup(p, k) == old(st).spec_valuation().indirect_lookup(p, k),
            forall|k: VarNode| #[trigger]
                final(st).spec_valuation().direct_writes.lookup(k) == {
                    let l2 = if self.spec_cleared(*op, k) {
                        None
                    } else {
                        old(st).spec_valuation().direct_writes.lookup(k)
                    };
                    match *op {
                        PcodeOperation::CallOther { output: Some(a), .. } => after_write(
                            l2,
                            a,
                            simplified(Value::Top),
                            k,
                        ),
                        _ => l2,
                    }
                },
    {
        let ghost st0 = *st;
        match op {
            PcodeOperation::Branch { input } | PcodeOperation::CBranch { input0: input, .. }
            | PcodeOperation::Fallthrough { input } => {
                if !input.is_const() {
                    let arch = &self.arch_info;
                    let keep = |k: &VarNode, _v: &Value| -> (b: bool)
                        ensures
                            b == (arch.spec_space_type(k.space_index) matches Some(t) && t
                                != SpaceType::Constant),
                        {
                            match arch.space_type(k.space_index) {
                                Some(t) => t != SpaceType::Constant,
                                None => false,
                            }
                        };
                    st.valuation.direct_writes.retain(keep);
                    assert forall|k: VarNode| #[trigger] st.valuation.direct_writes.lookup(k) is Some implies vn_ok(k) by {
                        assert(st0.valuation.direct_writes.lookup(k) is Some);
                    };
                }
            },
            PcodeOperation::BranchInd { input } | PcodeOperation::CallInd { input } => {
                let arch = &self.arch_info;
                let target = input.pointer_location;
                let keep = |k: &VarNode, _v: &Value| -> (b: bool)
                    ensures
                        b == (*k == target || arch.spec_space_type(k.space_index) != Some(
                            SpaceType::Internal,
                        )),
                    {
                        if *k == target {
                            true
                        } else {
                            match arch.space_type(k.space_index) {
                                Some(t) => t != SpaceType::Internal,
                                None => true,
                            }
                        }
                    };
                st.valuation.direct_writes.retain(keep);
                assert forall|k: VarNode| #[trigger] st.valuation.direct_writes.lookup(k) is Some implies vn_ok(k) by {
                    assert(st0.valuation.direct_writes.lookup(k) is Some);
                };
            },
            PcodeOperation::CallOther { output: Some(a), .. } => {
                st.valuation.add(Location::Direct(*a), Value::Top);
            },
            _ => {},
        }
    }

    /// The state after `op`: its direct write (simplified, spliced into the
    /// wider varnodes that cover it), a store's memory write, the values that
    /// a control transfer drops, and the `Top` output of an opaque call.
    pub fn transfer_impl(&self, op: &PcodeOperation) -> (r: Self)
        requires
            self.wf(),
            op_ok(*op),
        ensures
            r.wf(),
            r.spec_arch().space_types@ == self.spec_arch().space_types@,
            r.spec_merge_behavior() == self.spec_merge_behavior(),
            forall|k: VarNode| #[trigger]
                r.spec_valuation().direct_writes.lookup(k) == self.spec_transfer_direct(*op, k),
            forall|p: Value, k: VarNode| #[trigger]
                r.spec_valuation().indirect_lookup(p, k) == self.spec_transfer_indirect(*op, p, k),
    {
        let mut new_state = self.duplicate();
        self.write_stage(&mut new_state, op);
        self.clear_stage(&mut new_state, op);
        new_state
    }
}


/// After an operation writes a varnode, the varnode reads the written
/// value, simplified: `t` is the state after `op`, as `transfer_impl`
/// describes it.
pub proof fn lemma_write_then_read(s: ValuationState, t: ValuationState, op: PcodeOperation)
    requires
        forall|k: VarNode| #[trigger]
            t.spec_valuation().direct_writes.lookup(k) == s.spec_transfer_direct(op, k),
    ensures
        s.spec_op_write(op) matches Some((vn, v)) ==> (vn.space_index != CONST_SPACE_INDEX
            ==> t.spec_read_vn(vn) == simplified(v)),
{
    reveal(ValuationState::spec_op_write);
    if let Some((vn, v)) = s.spec_op_write(op) {
        if vn.space_index != CONST_SPACE_INDEX {
            assert(!s.spec_cleared(op, vn));
            assert(t.spec_valuation().direct_writes.lookup(vn) == s.spec_transfer_direct(op, vn));
        }
    }
}

/// After a store, a load through the same pointer location of the stored
/// size reads the stored value, simplified: `t` is the state after the
/// store, as `transfer_impl` describes it.
pub proof fn lemma_store_then_load(
    s: ValuationState,
    t: ValuationState,
    at: IndirectVarNode,
    input: VarNode,
    out: VarNode,
)
    requires
        s.wf(),
        t.wf(),
        forall|k: VarNode| #[trigger]
            t.spec_valuation().direct_writes.lookup(k) == s.spec_transfer_direct(
                PcodeOperation::Store { output: at, input },
                k,
            ),
        forall|p: Value, k: VarNode| #[trigger]
            t.spec_valuation().indirect_lookup(p, k) == s.spec_transfer_indirect(
                PcodeOperation::Store { output: at, input },
                p,
                k,
            ),
        out.size == input.size,
        at.pointer_space_index < 256,
    ensures
        t.spec_load_value(at, out) == simplified(s.spec_read_vn(input)),
{
    reveal(ValuationState::spec_op_write);
    let op = PcodeOperation::Store { output: at, input };
    assert forall|k: VarNode| #[trigger] t.spec_valuation().direct_writes.lookup(k)
        == s.spec_valuation().direct_writes.lookup(k) by {
        assert(s.spec_op_write(op) is None);
        assert(!s.spec_cleared(op, k));
    }
    t.spec_valuation().direct_writes.lemma_ext(s.spec_valuation().direct_writes);
    assert(t.spec_read_vn(at.pointer_location) == s.spec_read_vn(at.pointer_location));
    let ptr = simplified(s.spec_read_vn(at.pointer_location));
    let access = VarNode { space_index: at.pointer_space_index, offset: 0, size: out.size };
    assert(access == access_vn(input.size, at.pointer_space_index as u8));
    assert(t.spec_valuation().indirect_lookup(ptr, access) == s.spec_transfer_indirect(op, ptr, access));
}

/// The merge of two values of one location: `Top` if either is `Top`; the
/// value itself if they agree; otherwise their simplified `Choice`, or `Top`.
pub open spec fn merged(mb: MergeBehavior, my: Value, ov: Value) -> Value {
    if my is Top || ov is Top {
        Value::Top
    } else if my != ov {
        match mb {
            MergeBehavior::Choice => simplified(
                Value::Choice(Choice(bx(my), bx(ov), max_size(my.spec_size(), ov.spec_size()))),
            ),
            MergeBehavior::Top => Value::Top,
        }
    } else {
        my
    }
}

/// The value given to a location that only the other state values: a
/// `Choice` of what it reads here and the other value, or `Top`.
pub open spec fn fresh_merge(mb: MergeBehavior, here: Value, ov: Value) -> Value {
    match mb {
        MergeBehavior::Choice => Value::Choice(
            Choice(bx(here), bx(ov), max_size(here.spec_size(), ov.spec_size())),
        ),
        MergeBehavior::Top => Value::Top,
    }
}

pub fn merge_values(mb: MergeBehavior, my: &Value, ov: &Value) -> (r: Value)
    ensures
        r == merged(mb, *my, *ov),
{
    let my_top = match my {
        Value::Top => true,
        _ => false,
    };
    let ov_top = match ov {
        Value::Top => true,
        _ => false,
    };
    if my_top || ov_top {
        Value::Top
    } else if !values_equal(my, ov) {
        match mb {
            MergeBehavior::Choice => Value::choice(duplicate(my), duplicate(ov)).into_simplified(),
            MergeBehavior::Top => Value::Top,
        }
    } else {
        duplicate(my)
    }
}

/// One step of a join: varnode `key` with value `ov` in the other state.
pub open spec fn join_direct_step(
    before: ValuationState,
    after: ValuationState,
    key: VarNode,
    ov: Value,
) -> bool {
    let mb = before.spec_merge_behavior();
    &&& after.wf()
    &&& after.spec_arch() == before.spec_arch()
    &&& after.spec_merge_behavior() == mb
    &&& forall|p: Value, k: VarNode| #[trigger]
        after.spec_valuation().indirect_lookup(p, k) == before.spec_valuation().indirect_lookup(p, k)
    &&& forall|k: VarNode| #[trigger]
        after.spec_valuation().direct_writes.lookup(k) == match before.spec_valuation().direct_writes.lookup(key) {
            Some(my) => if k == key {
                Some(merged(mb, my, ov))
            } else {
                before.spec_valuation().direct_writes.lookup(k)
            },
            None => after_write(
                before.spec_valuation().direct_writes.lookup(k),
                key,
                simplified(fresh_merge(mb, before.spec_read_vn(key), ov)),
                k,
            ),
        }
}

/// One step of a join: memory location `vn` of pointer `ptr`, with value
/// `ov` in the other state.
pub open spec fn join_indirect_step(
    before: ValuationState,
    after: ValuationState,
    ptr: Value,
    vn: VarNode,
    ov: Value,
) -> bool {
    let mb = before.spec_merge_behavior();
    let load_key = Value::Load(Load(bx(ptr), vn.size, vn.space_index as u8));
    &&& after.wf()
    &&& after.spec_arch() == before.spec_arch()
    &&& after.spec_merge_behavior() == mb
    &&& after.spec_valuation().direct_writes == before.spec_valuation().direct_writes
    &&& forall|p: Value, k: VarNode| #[trigger]
        after.spec_valuation().indirect_lookup(p, k) == match before.spec_valuation().indirect_lookup(ptr, vn) {
            Some(my) => if p == ptr && k == vn {
                Some(merged(mb, my, ov))
            } else {
                before.spec_valuation().indirect_lookup(p, k)
            },
            None => if p == ptr {
                after_write(
                    before.spec_valuation().indirect_lookup(p, k),
                    access_vn(vn.size, vn.space_index as u8),
                    simplified(fresh_merge(mb, load_key, ov)),
                    k,
                )
            } else {
                before.spec_valuation().indirect_lookup(p, k)
            },
        }
}

/// The two valuations value the same locations with the same values.
pub open spec fn same_lookups(a: ValuationSet, b: ValuationSet) -> bool {
    &&& forall|k: VarNode| #[trigger] a.direct_writes.lookup(k) == b.direct_writes.lookup(k)
    &&& forall|p: Value, k: VarNode| #[trigger] a.indirect_lookup(p, k) == b.indirect_lookup(p, k)
}

/// The memory locations of a list of pointer maps, pointer by pointer:
/// (pointer, location, value).
pub open spec fn indirect_triples(s: Seq<(Value, VarNodeMap<Value>)>) -> Seq<(Value, VarNode, Value)>
    decreases s.len(),
{
    if s.len() == 0 {
        Seq::empty()
    } else {
        indirect_triples(s.drop_last()) + Seq::new(
            s.last().1.keys().len(),
            |i: int| (s.last().0, s.last().1.keys()[i], s.last().1.values()[i]),
        )
    }
}

impl ValuationState {
    /// Joins the value `ov` of varnode `key` into this state.
    fn join_direct_one(&mut self, key: &VarNode, ov: &Value)
        requires
            old(self).wf(),
            vn_ok(*key),
        ensures
            join_direct_step(*old(self), *final(self), *key, *ov),
    {
        let ghost before = *self;
        match self.valuation.direct_writes.get(key) {
            Some(my) => {
                let m = merge_values(self.merge_behavior, my, ov);
                self.valuation.direct_writes.insert(*key, m);
                assert forall|k: VarNode| #[trigger] self.valuation.direct_writes.lookup(k) is Some implies vn_ok(k) by {
                    assert(before.valuation.direct_writes.lookup(k) is Some);
                };
            },
            None => {
                let nv = match self.merge_behavior {
                    MergeBehavior::Choice => Value::choice(self.read_vn(key), duplicate(ov)),
                    MergeBehavior::Top => Value::Top,
                };
                self.valuation.add(Location::Direct(*key), nv);
            },
        }
    }

    /// Joins the value `ov` of memory location `vn` of pointer `ptr` into this
    /// state.
    fn join_indirect_one(&mut self, ptr: &Value, vn: &VarNode, ov: &Value)
        requires
            old(self).wf(),
        ensures
            join_indirect_step(*old(self), *final(self), *ptr, *vn, *ov),
    {
        let ghost before = *self;
        let mine: Option<Value> = match self.valuation.find_pointer(ptr) {
            Some(i) => {
                proof {
                    assert(inner_maps_ok(self.valuation.indirect_writes@));
                    assert(self.valuation.indirect_writes@[i as int].1.wf());
                }
                match self.valuation.indirect_writes[i].1.get(vn) {
                    Some(my) => Some(duplicate(my)),
                    None => None,
                }
            },
            None => None,
        };
        match mine {
            Some(my) => {
                let m = merge_values(self.merge_behavior, &my, ov);
                self.valuation.replace_indirect(ptr, vn, m);
            },
            None => {
                let load_key = Value::load(duplicate(ptr), vn.size, vn.space_index as u8);
                let nv = match self.merge_behavior {
                    MergeBehavior::Choice => Value::choice(duplicate(&load_key), duplicate(ov)),
                    MergeBehavior::Top => Value::Top,
                };
                self.valuation.add(Location::Indirect(load_key), nv);
            },
        }
    }

    /// Joins `other` into this state: first each varnode of `other` in
    /// varnode order, then each memory location of `other`, pointer by
    /// pointer; each step as `join_direct_step` and `join_indirect_step`
    /// describe, on the state that the steps before it left.
    pub fn join(&mut self, other: &Self)
        requires
            old(self).wf(),
            other.wf(),
        ensures
            final(self).wf(),
            same_lookups(other.spec_valuation(), old(self).spec_valuation()) ==> same_lookups(
                final(self).spec_valuation(),
                old(self).spec_valuation(),
            ),
            exists|trace: Seq<ValuationState>|
                #![trigger trace.len()]
                {
                    let d = other.spec_valuation().direct_writes;
                    let t = indirect_triples(other.spec_valuation().indirect_writes@);
                    &&& trace.len() == d.keys().len() + t.len() + 1
                    &&& trace[0] == *old(self)
                    &&& trace.last() == *final(self)
                    &&& forall|i: int|
                        0 <= i < d.keys().len() ==> join_direct_step(
                            #[trigger] trace[i],
                            trace[i + 1],
                            d.keys()[i],
                            d.values()[i],
                        )
                    &&& forall|j: int|
                        0 <= j < t.len() ==> join_indirect_step(
                            #[trigger] trace[d.keys().len() + j],
                            trace[d.keys().len() + j + 1],
                            t[j].0,
                            t[j].1,
                            t[j].2,
                        )
                },
    {
        let ghost d = other.valuation.direct_writes;
        let ghost t = indirect_triples(other.valuation.indirect_writes@);
        let ghost s0 = self.valuation;
        let ghost same = same_lookups(other.valuation, s0);
        let ghost mut trace: Seq<ValuationState> = seq![*self];
        let items = other.valuation.direct_writes.items();
        let n = items.len();
        proof {
            d.lemma_keys();
        }
        let mut i: usize = 0;
        while i < n
            invariant
                n == items@.len() == d.keys().len(),
                d == other.spec_valuation().direct_writes,
                other.wf(),
                forall|x: int| 0 <= x < n ==> *(#[trigger] items@[x]).0 == d.keys()[x]
                    && *items@[x].1 == d.values()[x],
                forall|k: VarNode| #[trigger] d.lookup(k) is Some <==> d.keys().contains(k),
                i <= n,
                self.wf(),
                s0 == old(self).spec_valuation(),
                same == same_lookups(other.spec_valuation(), s0),
                same ==> same_lookups(self.spec_valuation(), s0),
                forall|x: int| 0 <= x < n ==> #[trigger] d.lookup(d.keys()[x]) == Some(d.values()[x]),
                trace.len() == i + 1,
                trace[0] == *old(self),
                trace.last() == *self,
                forall|x: int|
                    0 <= x < i ==> join_direct_step(
                        #[trigger] trace[x],
                        trace[x + 1],
                        d.keys()[x],
                        d.values()[x],
                    ),
            decreases n - i,
        {
            let (k, v) = items[i];
            proof {
                assert(d.keys().contains(*k));
                assert(d.lookup(*k) is Some);
            }
            let ghost pre = *self;
            self.join_direct_one(k, v);
            proof {
                if same {
                    assert(d.lookup(d.keys()[i as int]) == Some(d.values()[i as int]));
                    assert(pre.spec_valuation().direct_writes.lookup(*k) == Some(*v));
                    assert forall|k2: VarNode| #[trigger] self.spec_valuation().direct_writes.lookup(k2)
                        == s0.direct_writes.lookup(k2) by {
                        assert(pre.spec_valuation().direct_writes.lookup(k2) == s0.direct_writes.lookup(k2));
                    }
                    assert forall|p: Value, k2: VarNode| #[trigger] self.spec_valuation().indirect_lookup(p, k2)
                        == s0.indirect_lookup(p, k2) by {
                        assert(pre.spec_valuation().indirect_lookup(p, k2) == s0.indirect_lookup(p, k2));
                    }
                }
                let tr0 = trace;
                trace = trace.push(*self);
                assert forall|x: int|
                    0 <= x < i + 1 implies join_direct_step(
                        #[trigger] trace[x],
                        trace[x + 1],
                        d.keys()[x],
                        d.values()[x],
                    ) by {
                    if x < i {
                        assert(trace[x] == tr0[x] && trace[x + 1] == tr0[x + 1]);
                    }
                };
            }
            i += 1;
        }
        let ind = &other.valuation.indirect_writes;
        let m = ind.len();
        let mut j: usize = 0;
        let ghost mut done: int = 0;
        proof {
            assert(ind@.subrange(0, 0) =~= Seq::<(Value, VarNodeMap<Value>)>::empty());
        }
        while j < m
            invariant
                m == ind@.len(),
                *ind == other.spec_valuation().indirect_writes,
                t == indirect_triples(ind@),
                n == d.keys().len(),
                other.wf(),
                j <= m,
                self.wf(),
                s0 == old(self).spec_valuation(),
                same == same_lookups(other.spec_valuation(), s0),
                same ==> same_lookups(self.spec_valuation(), s0),
                done == indirect_triples(ind@.subrange(0, j as int)).len(),
                trace.len() == n + done + 1,
                trace[0] == *old(self),
                trace.last() == *self,
                forall|x: int|
                    0 <= x < n ==> join_direct_step(
                        #[trigger] trace[x],
                        trace[x + 1],
                        d.keys()[x],
                        d.values()[x],
                    ),
                forall|y: int|
                    0 <= y < done ==> join_indirect_step(
                        #[trigger] trace[n + y],
                        trace[n + y + 1],
                        indirect_triples(ind@.subrange(0, j as int))[y].0,
                        indirect_triples(ind@.subrange(0, j as int))[y].1,
                        indirect_triples(ind@.subrange(0, j as int))[y].2,
                    ),
            decreases m - j,
        {
            let ptr = &ind[j].0;
            let inner = &ind[j].1;
            proof {
                assert(inner_maps_ok(ind@));
                assert(ind@[j as int].1.wf());
                lemma_pointer_index(other.spec_valuation(), j as int);
                inner.lemma_keys();
            }
            let its = inner.items();
            let n2 = its.len();
            let ghost prefix = indirect_triples(ind@.subrange(0, j as int));
            let ghost extra = Seq::new(
                inner.keys().len(),
                |x: int| (*ptr, inner.keys()[x], inner.values()[x]),
            );
            let mut x: usize = 0;
            while x < n2
                invariant
                    n2 == its@.len() == inner.keys().len(),
                    forall|y: int| 0 <= y < n2 ==> *(#[trigger] its@[y]).0 == inner.keys()[y]
                        && *its@[y].1 == inner.values()[y],
                    extra == Seq::new(
                        inner.keys().len(),
                        |y: int| (*ptr, inner.keys()[y], inner.values()[y]),
                    ),
                    x <= n2,
                    self.wf(),
                    s0 == old(self).spec_valuation(),
                    same == same_lookups(other.spec_valuation(), s0),
                    same ==> same_lookups(self.spec_valuation(), s0),
                    *ptr == other.spec_valuation().indirect_writes@[j as int].0,
                    forall|y: int| 0 <= y < n2 ==> #[trigger] other.spec_valuation().indirect_lookup(
                        *ptr,
                        inner.keys()[y],
                    ) == Some(inner.values()[y]),
                    n == d.keys().len(),
                    trace.len() == n + prefix.len() + x + 1,
                    trace[0] == *old(self),
                    trace.last() == *self,
                    forall|z: int|
                        0 <= z < n ==> join_direct_step(
                            #[trigger] trace[z],
                            trace[z + 1],
                            d.keys()[z],
                            d.values()[z],
                        ),
                    forall|y: int|
                        0 <= y < prefix.len() + x ==> join_indirect_step(
                            #[trigger] trace[n + y],
                            trace[n + y + 1],
                            (prefix + extra)[y].0,
                            (prefix + extra)[y].1,
                            (prefix + extra)[y].2,
                        ),
                decreases n2 - x,
            {
                let (k, v) = its[x];
                let ghost pre = *self;
                self.join_indirect_one(ptr, k, v);
                proof {
                    if same {
                        assert(other.spec_valuation().indirect_lookup(*ptr, inner.keys()[x as int]) == Some(
                            inner.values()[x as int],
                        ));
                        assert(pre.spec_valuation().indirect_lookup(*ptr, *k) == Some(*v));
                        assert forall|k2: VarNode| #[trigger] self.spec_valuation().direct_writes.lookup(k2)
                            == s0.direct_writes.lookup(k2) by {
                            assert(pre.spec_valuation().direct_writes.lookup(k2) == s0.direct_writes.lookup(k2));
                        }
                        assert forall|p: Value, k2: VarNode| #[trigger] self.spec_valuation().indirect_lookup(
                            p,
                            k2,
                        ) == s0.indirect_lookup(p, k2) by {
                            assert(pre.spec_valuation().indirect_lookup(p, k2) == s0.indirect_lookup(p, k2));
                        }
                    }
                    let tr0 = trace;
                    trace = trace.push(*self);
                    assert((prefix + extra)[prefix.len() + x] == (*ptr, *k, *v));
                    assert forall|z: int|
                        0 <= z < n implies join_direct_step(
                            #[trigger] trace[z],
                            trace[z + 1],
                            d.keys()[z],
                            d.values()[z],
                        ) by {
                        assert(trace[z] == tr0[z] && trace[z + 1] == tr0[z + 1]);
                    };
                    assert forall|y: int|
                        0 <= y < prefix.len() + x + 1 implies join_indirect_step(
                            #[trigger] trace[n + y],
                            trace[n + y + 1],
                            (prefix + extra)[y].0,
                            (prefix + extra)[y].1,
                            (prefix + extra)[y].2,
                        ) by {
                        if y < prefix.len() + x {
                            assert(trace[n + y] == tr0[n + y] && trace[n + y + 1] == tr0[n + y + 1]);
                        }
                    };
                }
                x += 1;
            }
            proof {
                assert(ind@.subrange(0, j + 1).drop_last() =~= ind@.subrange(0, j as int));
                assert(ind@.subrange(0, j + 1).last() == ind@[j as int]);
                assert(indirect_triples(ind@.subrange(0, j + 1)) =~= prefix + extra);
                done = done + n2;
            }
            j += 1;
        }
        proof {
            assert(ind@.subrange(0, m as int) =~= ind@);
        }
    }
}


/// Every valued key of `a` has the same value in `b`.
pub open spec fn map_within(a: VarNodeMap<Value>, b: VarNodeMap<Value>) -> bool {
    forall|k: VarNode| #[trigger] a.lookup(k) is Some ==> b.lookup(k) == a.lookup(k)
}

/// Every valued memory location of `a` has the same value in `b`.
pub open spec fn indirect_within(a: ValuationSet, b: ValuationSet) -> bool {
    forall|p: Value, k: VarNode| #[trigger] a.indirect_lookup(p, k) is Some ==> b.indirect_lookup(p, k)
        == a.indirect_lookup(p, k)
}

/// Every pointer that `a` files memory under is one of `b` too.
pub open spec fn pointers_within(a: ValuationSet, b: ValuationSet) -> bool {
    forall|i: int| 0 <= i < a.indirect_writes@.len() ==> b.has_pointer(#[trigger] a.indirect_writes@[i].0)
}

/// Two valuations are comparable when they value the same locations with
/// the same values, and every pointer of `b` is a pointer of `a`.
pub open spec fn valuations_comparable(a: ValuationSet, b: ValuationSet) -> bool {
    &&& forall|k: VarNode| #[trigger] a.direct_writes.lookup(k) == b.direct_writes.lookup(k)
    &&& forall|p: Value, k: VarNode| #[trigger] a.indirect_lookup(p, k) == b.indirect_lookup(p, k)
    &&& pointers_within(b, a)
}

/// Every valuation is comparable with itself, so a state compares `Equal`
/// to itself.
pub proof fn lemma_comparable_refl(s: ValuationSet)
    requires
        s.wf(),
    ensures
        valuations_comparable(s, s),
{
    assert forall|i: int| 0 <= i < s.indirect_writes@.len() implies s.has_pointer(
        #[trigger] s.indirect_writes@[i].0,
    ) by {
        lemma_pointer_index(s, i);
    }
}

/// The map of the `j`-th pointer is the one that `indirect_lookup` reads.
pub proof fn lemma_pointer_index(s: ValuationSet, j: int)
    requires
        s.wf(),
        0 <= j < s.indirect_writes@.len(),
    ensures
        s.has_pointer(s.indirect_writes@[j].0),
        s.pointer_index(s.indirect_writes@[j].0) == j,
        forall|k: VarNode| #[trigger] s.indirect_lookup(s.indirect_writes@[j].0, k) == s.indirect_writes@[j].1.lookup(k),
{
    let p = s.indirect_writes@[j].0;
    assert(s.has_pointer(p));
    let i = s.pointer_index(p);
    if i < j {
        assert(s.indirect_writes@[i].0 != s.indirect_writes@[j].0);
    } else if j < i {
        assert(s.indirect_writes@[j].0 != s.indirect_writes@[i].0);
    }
}

fn map_within_exec(a: &VarNodeMap<Value>, b: &VarNodeMap<Value>) -> (r: bool)
    requires
        a.wf(),
        b.wf(),
    ensures
        r == map_within(*a, *b),
{
    let items = a.items();
    let n = items.len();
    proof {
        a.lemma_keys();
    }
    let mut i: usize = 0;
    while i < n
        invariant
            a.wf(),
            b.wf(),
            n == items@.len() == a.keys().len(),
            forall|x: int| 0 <= x < n ==> *(#[trigger] items@[x]).0 == a.keys()[x] && *items@[x].1
                == a.values()[x],
            forall|k: VarNode| #[trigger] a.lookup(k) is Some <==> a.keys().contains(k),
            forall|x: int| 0 <= x < n ==> #[trigger] a.lookup(a.keys()[x]) == Some(a.values()[x]),
            i <= n,
            forall|x: int| 0 <= x < i ==> b.lookup(#[trigger] a.keys()[x]) == Some(a.values()[x]),
        decreases n - i,
    {
        let (k, v) = items[i];
        match b.get(k) {
            Some(w) => {
                if !values_equal(w, v) {
                    proof {
                        assert(a.lookup(a.keys()[i as int]) == Some(a.values()[i as int]));
                    }
                    return false;
                }
            },
            None => {
                proof {
                    assert(a.lookup(a.keys()[i as int]) == Some(a.values()[i as int]));
                }
                return false;
            },
        }
        i += 1;
    }
    proof {
        assert forall|k: VarNode| #[trigger] a.lookup(k) is Some implies b.lookup(k) == a.lookup(k) by {
            assert(a.keys().contains(k));
            let x = choose|x: int| 0 <= x < a.keys().len() && a.keys()[x] == k;
            assert(a.lookup(a.keys()[x]) == Some(a.values()[x]));
        }
    }
    true
}

fn pointers_within_exec(a: &ValuationSet, b: &ValuationSet) -> (r: bool)
    requires
        a.wf(),
        b.wf(),
    ensures
        r == pointers_within(*a, *b),
{
    let n = a.indirect_writes.len();
    let mut i: usize = 0;
    while i < n
        invariant
            a.wf(),
            b.wf(),
            n == a.indirect_writes@.len(),
            i <= n,
            forall|x: int| 0 <= x < i ==> b.has_pointer(#[trigger] a.indirect_writes@[x].0),
        decreases n - i,
    {
        match b.find_pointer(&a.indirect_writes[i].0) {
            Some(_) => {},
            None => {
                return false;
            },
        }
        i += 1;
    }
    true
}

fn indirect_within_exec(a: &ValuationSet, b: &ValuationSet) -> (r: bool)
    requires
        a.wf(),
        b.wf(),
    ensures
        r == indirect_within(*a, *b),
{
    let n = a.indirect_writes.len();
    let mut j: usize = 0;
    while j < n
        invariant
            a.wf(),
            b.wf(),
            n == a.indirect_writes@.len(),
            j <= n,
            forall|x: int, k: VarNode|
                0 <= x < j && #[trigger] a.indirect_lookup(a.indirect_writes@[x].0, k) is Some
                    ==> b.indirect_lookup(a.indirect_writes@[x].0, k) == a.indirect_lookup(
                    a.indirect_writes@[x].0,
                    k,
                ),
        decreases n - j,
    {
        let ptr = &a.indirect_writes[j].0;
        let inner = &a.indirect_writes[j].1;
        proof {
            assert(inner_maps_ok(a.indirect_writes@));
            assert(a.indirect_writes@[j as int].1.wf());
            inner.lemma_keys();
            lemma_pointer_index(*a, j as int);
        }
        match b.find_pointer(ptr) {
            Some(i) => {
                proof {
                    assert(inner_maps_ok(b.indirect_writes@));
                    assert(b.indirect_writes@[i as int].1.wf());
                    lemma_pointer_index(*b, i as int);
                }
                if !map_within_exec(inner, &b.indirect_writes[i].1) {
                    proof {
                        let k = choose|k: VarNode| #[trigger] inner.lookup(k) is Some && !(b.indirect_writes@[i as int].1.lookup(k) == inner.lookup(k));
                        assert(a.indirect_lookup(*ptr, k) is Some);
                    }
                    return false;
                }
            },
            None => {
                if inner.len() > 0 {
                    proof {
                        let k = inner.keys()[0];
                        assert(inner.keys().contains(k));
                        assert(a.indirect_lookup(*ptr, k) is Some);
                        assert(b.indirect_lookup(*ptr, k) is None);
                    }
                    return false;
                }
                proof {
                    assert forall|k: VarNode| !(#[trigger] inner.lookup(k) is Some) by {
                        if inner.lookup(k) is Some {
                            assert(inner.keys().contains(k));
                        }
                    }
                }
            },
        }
        j += 1;
    }
    proof {
        assert forall|p: Value, k: VarNode| #[trigger] a.indirect_lookup(p, k) is Some implies b.indirect_lookup(p, k)
            == a.indirect_lookup(p, k) by {
            let x = a.pointer_index(p);
            lemma_pointer_index(*a, x);
        }
    }
    true
}

impl ValuationState {
    /// Whether the two states are comparable (see `valuations_comparable`).
    pub fn same_valuation(&self, other: &Self) -> (r: bool)
        requires
            self.wf(),
            other.wf(),
        ensures
            r == valuations_comparable(self.spec_valuation(), other.spec_valuation()),
    {
        let a = &self.valuation;
        let b = &other.valuation;
        let r = map_within_exec(&a.direct_writes, &b.direct_writes)
            && map_within_exec(&b.direct_writes, &a.direct_writes)
            && indirect_within_exec(a, b) && indirect_within_exec(b, a)
            && pointers_within_exec(b, a);
        proof {
            if r {
                assert forall|k: VarNode| #[trigger] a.direct_writes.lookup(k) == b.direct_writes.lookup(k) by {
                    if a.direct_writes.lookup(k) is Some {
                    } else if b.direct_writes.lookup(k) is Some {
                    }
                }
                assert forall|p: Value, k: VarNode| #[trigger] a.indirect_lookup(p, k) == b.indirect_lookup(p, k) by {
                    if a.indirect_lookup(p, k) is Some {
                    } else if b.indirect_lookup(p, k) is Some {
                    }
                }
            } else {
                if map_within(a.direct_writes, b.direct_writes) && map_within(b.direct_writes, a.direct_writes)
                    && indirect_within(*a, *b) && indirect_within(*b, *a) {
                    assert(!pointers_within(*b, *a));
                } else if !map_within(a.direct_writes, b.direct_writes) {
                    let k = choose|k: VarNode| #[trigger] a.direct_writes.lookup(k) is Some && !(b.direct_writes.lookup(k) == a.direct_writes.lookup(k));
                    assert(a.direct_writes.lookup(k) != b.direct_writes.lookup(k));
                } else if !map_within(b.direct_writes, a.direct_writes) {
                    let k = choose|k: VarNode| #[trigger] b.direct_writes.lookup(k) is Some && !(a.direct_writes.lookup(k) == b.direct_writes.lookup(k));
                    assert(a.direct_writes.lookup(k) != b.direct_writes.lookup(k));
                } else if !indirect_within(*a, *b) {
                    let (p, k) = choose|p: Value, k: VarNode| #[trigger] a.indirect_lookup(p, k) is Some && !(b.indirect_lookup(p, k) == a.indirect_lookup(p, k));
                    assert(a.indirect_lookup(p, k) != b.indirect_lookup(p, k));
                } else {
                    let (p, k) = choose|p: Value, k: VarNode| #[trigger] b.indirect_lookup(p, k) is Some && !(a.indirect_lookup(p, k) == b.indirect_lookup(p, k));
                    assert(a.indirect_lookup(p, k) != b.indirect_lookup(p, k));
                }
            }
        }
        r
    }
}

impl ValuationState {
    /// Two states are comparable, and then equal, when they value the same
    /// locations with the same values; otherwise they are incomparable.
    pub fn partial_cmp(&self, other: &Self) -> (r: Option<Ordering>)
        requires
            self.wf(),
            other.wf(),
        ensures
            r == (if valuations_comparable(self.spec_valuation(), other.spec_valuation()) {
                Some(Ordering::Equal)
            } else {
                None
            }),
    {
        if self.same_valuation(other) {
            Some(Ordering::Equal)
        } else {
            None
        }
    }
}

/// The valuation analysis: the architecture's spaces and how its states
/// merge.
pub struct ValuationAnalysis {
    arch_info: ArchSpaces,
    merge_behavior: MergeBehavior,
}

impl ValuationAnalysis {
    pub closed spec fn spec_arch(self) -> ArchSpaces {
        self.arch_info
    }

    pub closed spec fn spec_merge_behavior(self) -> MergeBehavior {
        self.merge_behavior
    }

    pub fn new(arch_info: ArchSpaces, merge_behavior: MergeBehavior) -> (r: Self)
        ensures
            r.spec_arch() == arch_info,
            r.spec_merge_behavior() == merge_behavior,
    {
        ValuationAnalysis { arch_info, merge_behavior }
    }

    /// The analysis' initial state at any address: nothing written yet.
    pub fn into_state(&self) -> (r: ValuationState)
        ensures
            r.wf(),
            r.spec_arch().space_types@ == self.spec_arch().space_types@,
            r.spec_merge_behavior() == self.spec_merge_behavior(),
            r.spec_valuation().spec_total() == 0,
            forall|k: VarNode| #[trigger] r.spec_valuation().direct_writes.lookup(k) is None,
            forall|p: Value, k: VarNode| #[trigger] r.spec_valuation().indirect_lookup(p, k) is None,
    {
        ValuationState::new_with_behavior(self.arch_info.duplicate(), self.merge_behavior)
    }
}

} // verus!
