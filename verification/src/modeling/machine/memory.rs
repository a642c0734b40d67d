//! The memory of a modelled machine: for each address space an array of
//! bytes, given as its initial contents and the stores made since; p-code
//! operations are steps from one memory state to the next.
use crate::modeling::model::{call_other_hash, hash_inputs, lemma_stores_extend, model_op_ok};
use crate::modeling::ops::{BinKind, UnKind, bin_value, bin_value_of, popcount_of, popcount_term, un_value, un_value_of};
use crate::modeling::state::{ModelError, SpaceDesc, Store, TraceModel, copy_log, index_bits, push_stores, read_array, stores_of, vn_sized};
use crate::modeling::term::{ArrayRef, Term, cst};
use crate::sleigh::{CONST_SPACE_INDEX, GeneralizedVarNode, IndirectVarNode, PcodeOperation, VarNode};
use vstd::prelude::*;

verus! {

/// The memory of a machine state: the spaces, the name `base` of their
/// initial contents, and the stores made since, in order.
#[derive(Debug)]
pub struct MemoryState {
    pub spaces: Vec<SpaceDesc>,
    pub base: u64,
    pub log: Vec<Store>,
}

/// The mathematical content of a `MemoryState`.
pub struct MemoryView {
    pub spaces: Seq<SpaceDesc>,
    pub base: u64,
    pub log: Seq<Store>,
}

impl MemoryState {
    pub open spec fn view(&self) -> MemoryView {
        MemoryView { spaces: self.spaces@, base: self.base, log: self.log@ }
    }

    pub open spec fn wf(&self) -> bool {
        memory_wf(self.view())
    }
}

/// The constant space is space 0 and every space has addresses of one to
/// eight bytes.
pub open spec fn memory_wf(m: MemoryView) -> bool {
    &&& CONST_SPACE_INDEX < m.spaces.len()
    &&& m.spaces[CONST_SPACE_INDEX as int].is_constant
    &&& forall|i: int| 0 <= i < m.spaces.len() ==> 1 <= #[trigger] m.spaces[i].index_size_bytes <= 8
}

/// The description of space `s` of `m`, if it is declared.
pub open spec fn mem_space(m: MemoryView, s: usize) -> Option<SpaceDesc> {
    if s < m.spaces.len() { Some(m.spaces[s as int]) } else { None }
}

/// The current data array of `space`.
pub open spec fn mem_array(m: MemoryView, space: usize) -> ArrayRef {
    ArrayRef { base: m.base, original: false, space, meta: false, version: m.log.len() as usize }
}

/// The value of `vn` in `m`.
pub open spec fn spec_mem_read_varnode(m: MemoryView, vn: VarNode) -> Result<Term, ModelError> {
    match mem_space(m, vn.space_index) {
        None => Err(ModelError::UnmodeledSpace),
        Some(d) => if d.is_constant {
            Ok(cst(vn.offset, (vn.size * 8) as u32))
        } else {
            read_array(d, mem_array(m, vn.space_index), cst(vn.offset, index_bits(d)), index_bits(d), vn.size)
        },
    }
}

/// The value reached through the pointer of `ind` in `m`.
pub open spec fn spec_mem_read_indirect(m: MemoryView, ind: IndirectVarNode) -> Result<Term, ModelError> {
    match mem_space(m, ind.pointer_space_index) {
        None => Err(ModelError::UnmodeledSpace),
        Some(d) => if d.is_constant {
            Err(ModelError::IndirectConstantRead)
        } else {
            match spec_mem_read_varnode(m, ind.pointer_location) {
                Err(e) => Err(e),
                Ok(p) => read_array(
                    d,
                    mem_array(m, ind.pointer_space_index),
                    p,
                    (ind.pointer_location.size * 8) as u32,
                    ind.access_size_bytes,
                ),
            }
        },
    }
}

/// The value of `g` in `m`.
pub open spec fn spec_mem_read(m: MemoryView, g: GeneralizedVarNode) -> Result<Term, ModelError> {
    match g {
        GeneralizedVarNode::Direct(d) => spec_mem_read_varnode(m, d),
        GeneralizedVarNode::Indirect(i) => spec_mem_read_indirect(m, i),
    }
}

/// The store log after writing `value`, `bits` wide, to `g` in `m`.
pub open spec fn spec_mem_write(m: MemoryView, g: GeneralizedVarNode, value: Term, bits: u32) -> Result<Seq<Store>, ModelError> {
    match g {
        GeneralizedVarNode::Direct(dest) => if dest.size * 8 != bits {
            Err(ModelError::MismatchedWordSize)
        } else {
            match mem_space(m, dest.space_index) {
                None => Err(ModelError::UnmodeledSpace),
                Some(d) => if d.is_constant {
                    Err(ModelError::ConstantWrite)
                } else {
                    Ok(stores_of(m.log, dest.space_index, false, cst(dest.offset, index_bits(d)), index_bits(d), value, bits, 8, d.big_endian, (bits / 8) as nat))
                },
            }
        },
        GeneralizedVarNode::Indirect(dest) => match mem_space(m, dest.pointer_space_index) {
            None => Err(ModelError::UnmodeledSpace),
            Some(d) => if d.is_constant {
                Err(ModelError::ConstantWrite)
            } else {
                match spec_mem_read_varnode(m, dest.pointer_location) {
                    Err(e) => Err(e),
                    Ok(p) => if (dest.pointer_location.size * 8) as u32 != index_bits(d) {
                        Err(ModelError::MismatchedAddressSize)
                    } else {
                        Ok(stores_of(m.log, dest.pointer_space_index, false, p, (dest.pointer_location.size * 8) as u32, value, bits, 8, d.big_endian, (bits / 8) as nat))
                    },
                }
            },
        },
    }
}

/// `m` after writing the value read (if the read succeeded), `bits` wide,
/// to `g`.
pub open spec fn mem_then_write(m: MemoryView, read: Result<Term, ModelError>, g: GeneralizedVarNode, bits: u32) -> Result<MemoryView, ModelError> {
    match read {
        Err(e) => Err(e),
        Ok(t) => match spec_mem_write(m, g, t, bits) {
            Err(e) => Err(e),
            Ok(log) => Ok(MemoryView { log, ..m }),
        },
    }
}

/// A two-input operation on `m`.
pub open spec fn spec_mem_bin(m: MemoryView, in0: VarNode, in1: VarNode, out: VarNode, k: BinKind) -> Result<MemoryView, ModelError> {
    match spec_mem_read_varnode(m, in0) {
        Err(e) => Err(e),
        Ok(a) => match spec_mem_read_varnode(m, in1) {
            Err(e) => Err(e),
            Ok(b) => {
                let (t, bits) = bin_value(k, a, b, (in0.size * 8) as u32, (in1.size * 8) as u32, out.size);
                mem_then_write(m, Ok(t), GeneralizedVarNode::Direct(out), bits)
            },
        },
    }
}

/// A one-input operation on `m`.
pub open spec fn spec_mem_un(m: MemoryView, input: VarNode, out: VarNode, k: UnKind) -> Result<MemoryView, ModelError> {
    match spec_mem_read_varnode(m, input) {
        Err(e) => Err(e),
        Ok(a) => {
            let (t, bits) = un_value(k, a, (input.size * 8) as u32, input.size, out.size);
            mem_then_write(m, Ok(t), GeneralizedVarNode::Direct(out), bits)
        },
    }
}

/// The bytes of `in0` from byte `in1.offset` on, cut or zero-extended to the
/// size of the output.
pub open spec fn spec_mem_subpiece(m: MemoryView, in0: VarNode, in1: VarNode, out: VarNode) -> Result<MemoryView, ModelError> {
    match spec_mem_read_varnode(m, in0) {
        Err(e) => Err(e),
        Ok(a) => {
            let low = in1.offset as u32;
            let input_size = (in0.size - low) as u32;
            let output_size = out.size as u32;
            let size = if input_size < output_size { input_size } else { output_size };
            let piece = Term::Extract { high: ((low + size) * 8 - 1) as u32, low: (low * 8) as u32, arg: Box::new(a) };
            if size < output_size {
                mem_then_write(
                    m,
                    Ok(Term::ZeroExt { bits: ((output_size - size) * 8) as u32, arg: Box::new(piece) }),
                    GeneralizedVarNode::Direct(out),
                    (output_size * 8) as u32,
                )
            } else {
                mem_then_write(m, Ok(piece), GeneralizedVarNode::Direct(out), (size * 8) as u32)
            }
        },
    }
}

/// The memory after `op`: every input is read from `m`, then the result is
/// written. A user-defined operation writes its hash to its output, if it
/// has one; branches, calls and returns leave the memory as it is.
pub open spec fn spec_memory_apply(m: MemoryView, op: PcodeOperation) -> Result<MemoryView, ModelError> {
    match op {
        PcodeOperation::Copy { input, output } => mem_then_write(
            m,
            spec_mem_read_varnode(m, input),
            GeneralizedVarNode::Direct(output),
            (input.size * 8) as u32,
        ),
        PcodeOperation::IntZExt { input, output } => spec_mem_un(m, input, output, UnKind::ZeroExtend),
        PcodeOperation::IntSExt { input, output } => spec_mem_un(m, input, output, UnKind::SignExtend),
        PcodeOperation::Store { output, input } => mem_then_write(
            m,
            spec_mem_read_varnode(m, input),
            GeneralizedVarNode::Indirect(output),
            (input.size * 8) as u32,
        ),
        PcodeOperation::Load { input, output } => mem_then_write(
            m,
            spec_mem_read_indirect(m, input),
            GeneralizedVarNode::Direct(output),
            (input.access_size_bytes * 8) as u32,
        ),
        PcodeOperation::IntAdd { input0, input1, output } => spec_mem_bin(m, input0, input1, output, BinKind::Add),
        PcodeOperation::IntSub { input0, input1, output } => spec_mem_bin(m, input0, input1, output, BinKind::Sub),
        PcodeOperation::IntAnd { input0, input1, output } => spec_mem_bin(m, input0, input1, output, BinKind::And),
        PcodeOperation::IntXor { input0, input1, output } => spec_mem_bin(m, input0, input1, output, BinKind::Xor),
        PcodeOperation::IntOr { input0, input1, output } => spec_mem_bin(m, input0, input1, output, BinKind::Or),
        PcodeOperation::IntNegate { input, output } => spec_mem_un(m, input, output, UnKind::Negate),
        PcodeOperation::IntMult { input0, input1, output } => spec_mem_bin(m, input0, input1, output, BinKind::Mult),
        PcodeOperation::IntDiv { input0, input1, output } => spec_mem_bin(m, input0, input1, output, BinKind::Div),
        PcodeOperation::IntSignedDiv { input0, input1, output } => spec_mem_bin(m, input0, input1, output, BinKind::SignedDiv),
        PcodeOperation::IntRem { input0, input1, output } => spec_mem_bin(m, input0, input1, output, BinKind::Rem),
        PcodeOperation::IntSignedRem { input0, input1, output } => spec_mem_bin(m, input0, input1, output, BinKind::SignedRem),
        PcodeOperation::IntRightShift { input0, input1, output } => spec_mem_bin(m, input0, input1, output, BinKind::RightShift),
        PcodeOperation::IntSignedRightShift { input0, input1, output } => spec_mem_bin(m, input0, input1, output, BinKind::SignedRightShift),
        PcodeOperation::IntLeftShift { input0, input1, output } => spec_mem_bin(m, input0, input1, output, BinKind::FittedLeftShift),
        PcodeOperation::IntCarry { input0, input1, output } => spec_mem_bin(m, input0, input1, output, BinKind::Carry),
        PcodeOperation::IntSignedCarry { input0, input1, output } => spec_mem_bin(m, input0, input1, output, BinKind::SignedCarry),
        PcodeOperation::IntSignedBorrow { input0, input1, output } => spec_mem_bin(m, input0, input1, output, BinKind::SignedBorrow),
        PcodeOperation::Int2Comp { input, output } => spec_mem_un(m, input, output, UnKind::TwosComplement),
        PcodeOperation::IntSignedLess { input0, input1, output } => spec_mem_bin(m, input0, input1, output, BinKind::SignedLess),
        PcodeOperation::IntSignedLessEqual { input0, input1, output } => spec_mem_bin(m, input0, input1, output, BinKind::SignedLessEqual),
        PcodeOperation::IntLess { input0, input1, output } => spec_mem_bin(m, input0, input1, output, BinKind::Less),
        PcodeOperation::IntLessEqual { input0, input1, output } => spec_mem_bin(m, input0, input1, output, BinKind::LessEqual),
        PcodeOperation::IntEqual { input0, input1, output } => spec_mem_bin(m, input0, input1, output, BinKind::Equal),
        PcodeOperation::IntNotEqual { input0, input1, output } => spec_mem_bin(m, input0, input1, output, BinKind::NotEqual),
        PcodeOperation::BoolAnd { input0, input1, output } => spec_mem_bin(m, input0, input1, output, BinKind::BoolAnd),
        PcodeOperation::BoolNegate { input, output } => spec_mem_un(m, input, output, UnKind::BoolNegate),
        PcodeOperation::BoolOr { input0, input1, output } => spec_mem_bin(m, input0, input1, output, BinKind::BoolOr),
        PcodeOperation::BoolXor { input0, input1, output } => spec_mem_bin(m, input0, input1, output, BinKind::BoolXor),
        PcodeOperation::PopCount { input, output } => match spec_mem_read_varnode(m, input) {
            Err(e) => Err(e),
            Ok(a) => {
                let bits = (output.size * 8) as u32;
                mem_then_write(m, Ok(popcount_term(a, bits as nat, bits)), GeneralizedVarNode::Direct(output), bits)
            },
        },
        PcodeOperation::SubPiece { input0, input1, output } => spec_mem_subpiece(m, input0, input1, output),
        PcodeOperation::CallOther { inputs, output } => match output {
            None => Ok(m),
            Some(out) => {
                let bits = (out.size * 8) as u32;
                mem_then_write(m, Ok(cst(call_other_hash(inputs@), bits)), GeneralizedVarNode::Direct(out), bits)
            },
        },
        PcodeOperation::Branch { .. } => Ok(m),
        PcodeOperation::CBranch { .. } => Ok(m),
        PcodeOperation::BranchInd { .. } => Ok(m),
        PcodeOperation::Call { .. } => Ok(m),
        PcodeOperation::CallInd { .. } => Ok(m),
        PcodeOperation::Return { .. } => Ok(m),
        _ => Err(ModelError::UnmodeledInstruction),
    }
}

/// The locations that `op` writes lie in declared spaces.
pub open spec fn writes_declared(m: MemoryView, op: PcodeOperation) -> bool {
    match op.spec_output() {
        Some(GeneralizedVarNode::Direct(d)) => d.space_index < m.spaces.len(),
        Some(GeneralizedVarNode::Indirect(i)) => i.pointer_space_index < m.spaces.len(),
        None => true,
    }
}

/// `op` can be applied to `m` without a panic of the SMT library or of a
/// lookup of a space.
pub open spec fn memory_op_ok(m: MemoryView, op: PcodeOperation) -> bool {
    model_op_ok(op) && writes_declared(m, op)
}

impl MemoryState {
    /// A memory whose spaces hold the initial contents named `base`.
    pub fn fresh(spaces: Vec<SpaceDesc>, base: u64) -> (r: Self)
        ensures
            r.view() == (MemoryView { spaces: spaces@, base, log: Seq::empty() }),
    {
        MemoryState { spaces, base, log: Vec::new() }
    }

    /// A copy of the memory.
    pub fn duplicate(&self) -> (r: Self)
        ensures
            r.view() == self.view(),
    {
        let mut spaces: Vec<SpaceDesc> = Vec::new();
        let mut k: usize = 0;
        while k < self.spaces.len()
            invariant
                k <= self.spaces@.len(),
                spaces@ == self.spaces@.take(k as int),
            decreases self.spaces@.len() - k,
        {
            spaces.push(self.spaces[k]);
            proof {
                assert(self.spaces@.take(k + 1) == self.spaces@.take(k as int).push(self.spaces@[k as int]));
            }
            k = k + 1;
        }
        proof {
            assert(self.spaces@.take(self.spaces@.len() as int) == self.spaces@);
        }
        MemoryState { spaces, base: self.base, log: copy_log(&self.log) }
    }

    fn space(&self, s: usize) -> (r: Option<SpaceDesc>)
        ensures
            r == mem_space(self.view(), s),
    {
        if s < self.spaces.len() {
            Some(self.spaces[s])
        } else {
            None
        }
    }

    /// The value of `vn`.
    pub fn read_varnode(&self, vn: &VarNode) -> (r: Result<Term, ModelError>)
        requires
            self.wf(),
            vn.size * 8 <= u32::MAX,
        ensures
            r == spec_mem_read_varnode(self.view(), *vn),
    {
        match self.space(vn.space_index) {
            None => Err(ModelError::UnmodeledSpace),
            Some(d) => {
                if d.is_constant {
                    Ok(Term::Const { value: vn.offset, bits: (vn.size * 8) as u32 })
                } else {
                    let bits = d.index_size_bytes * 8;
                    let array = ArrayRef { base: self.base, original: false, space: vn.space_index, meta: false, version: self.log.len() };
                    TraceModel::read_array(d, array, &Term::Const { value: vn.offset, bits }, bits, vn.size)
                }
            },
        }
    }

    /// The value reached through the pointer of `ind`.
    pub fn read_indirect(&self, ind: &IndirectVarNode) -> (r: Result<Term, ModelError>)
        requires
            self.wf(),
            ind.pointer_location.size * 8 <= u32::MAX,
        ensures
            r == spec_mem_read_indirect(self.view(), *ind),
    {
        match self.space(ind.pointer_space_index) {
            None => Err(ModelError::UnmodeledSpace),
            Some(d) => {
                if d.is_constant {
                    return Err(ModelError::IndirectConstantRead);
                }
                let p = match self.read_varnode(&ind.pointer_location) {
                    Ok(p) => p,
                    Err(e) => return Err(e),
                };
                let array = ArrayRef { base: self.base, original: false, space: ind.pointer_space_index, meta: false, version: self.log.len() };
                TraceModel::read_array(d, array, &p, (ind.pointer_location.size * 8) as u32, ind.access_size_bytes)
            },
        }
    }

    /// The value of `g`.
    pub fn read(&self, g: &GeneralizedVarNode) -> (r: Result<Term, ModelError>)
        requires
            self.wf(),
            match *g {
                GeneralizedVarNode::Direct(d) => d.size * 8 <= u32::MAX,
                GeneralizedVarNode::Indirect(i) => i.pointer_location.size * 8 <= u32::MAX,
            },
        ensures
            r == spec_mem_read(self.view(), *g),
    {
        match g {
            GeneralizedVarNode::Direct(d) => self.read_varnode(d),
            GeneralizedVarNode::Indirect(i) => self.read_indirect(i),
        }
    }

    /// Writes `value`, `bits` wide, to `g`; on failure nothing is written.
    pub fn write(&mut self, g: &GeneralizedVarNode, value: &Term, bits: u32) -> (r: Result<(), ModelError>)
        requires
            old(self).wf(),
            match *g {
                GeneralizedVarNode::Direct(d) => true,
                GeneralizedVarNode::Indirect(i) => i.pointer_location.size * 8 <= u32::MAX,
            },
        ensures
            final(self).wf(),
            match spec_mem_write(old(self).view(), *g, *value, bits) {
                Ok(log) => r is Ok && final(self).view() == (MemoryView { log, ..old(self).view() }),
                Err(e) => r == Err::<(), ModelError>(e) && final(self).view() == old(self).view(),
            },
    {
        match g {
            GeneralizedVarNode::Direct(dest) => {
                if dest.size as u64 > 0x2000_0000 || (dest.size as u64) * 8 != bits as u64 {
                    return Err(ModelError::MismatchedWordSize);
                }
                match self.space(dest.space_index) {
                    None => Err(ModelError::UnmodeledSpace),
                    Some(d) => {
                        if d.is_constant {
                            return Err(ModelError::ConstantWrite);
                        }
                        let ib = d.index_size_bytes * 8;
                        push_stores(&mut self.log, dest.space_index, false, &Term::Const { value: dest.offset, bits: ib }, ib, value, bits, d.big_endian);
                        Ok(())
                    },
                }
            },
            GeneralizedVarNode::Indirect(dest) => {
                match self.space(dest.pointer_space_index) {
                    None => Err(ModelError::UnmodeledSpace),
                    Some(d) => {
                        if d.is_constant {
                            return Err(ModelError::ConstantWrite);
                        }
                        let p = match self.read_varnode(&dest.pointer_location) {
                            Ok(p) => p,
                            Err(e) => return Err(e),
                        };
                        let pb = (dest.pointer_location.size * 8) as u32;
                        if pb != d.index_size_bytes * 8 {
                            return Err(ModelError::MismatchedAddressSize);
                        }
                        push_stores(&mut self.log, dest.pointer_space_index, false, &p, pb, value, bits, d.big_endian);
                        Ok(())
                    },
                }
            },
        }
    }

    /// A copy of this memory with `value`, `bits` wide, written to `g`.
    fn written(&self, g: &GeneralizedVarNode, value: &Term, bits: u32) -> (r: Result<MemoryState, ModelError>)
        requires
            self.wf(),
            match *g {
                GeneralizedVarNode::Direct(d) => true,
                GeneralizedVarNode::Indirect(i) => i.pointer_location.size * 8 <= u32::MAX,
            },
        ensures
            match r {
                Ok(m) => m.wf() && mem_then_write(self.view(), Ok(*value), *g, bits) == Ok::<MemoryView, ModelError>(m.view()),
                Err(e) => mem_then_write(self.view(), Ok(*value), *g, bits) == Err::<MemoryView, ModelError>(e),
            },
    {
        let mut out = self.duplicate();
        match out.write(g, value, bits) {
            Ok(_) => Ok(out),
            Err(e) => Err(e),
        }
    }

    fn apply_bin(&self, in0: &VarNode, in1: &VarNode, out: &VarNode, k: BinKind) -> (r: Result<MemoryState, ModelError>)
        requires
            self.wf(),
            vn_sized_pair(*in0, *in1, *out),
        ensures
            match r {
                Ok(m) => m.wf() && spec_mem_bin(self.view(), *in0, *in1, *out, k) == Ok::<MemoryView, ModelError>(m.view()),
                Err(e) => spec_mem_bin(self.view(), *in0, *in1, *out, k) == Err::<MemoryView, ModelError>(e),
            },
    {
        let a = match self.read_varnode(in0) {
            Ok(a) => a,
            Err(e) => return Err(e),
        };
        let b = match self.read_varnode(in1) {
            Ok(b) => b,
            Err(e) => return Err(e),
        };
        let (t, bits) = bin_value_of(k, a, b, (in0.size * 8) as u32, (in1.size * 8) as u32, out.size);
        self.written(&GeneralizedVarNode::Direct(*out), &t, bits)
    }

    fn apply_un(&self, input: &VarNode, out: &VarNode, k: UnKind) -> (r: Result<MemoryState, ModelError>)
        requires
            self.wf(),
            vn_sized(*input),
            vn_sized(*out),
            k is ZeroExtend || k is SignExtend ==> input.size <= out.size,
        ensures
            match r {
                Ok(m) => m.wf() && spec_mem_un(self.view(), *input, *out, k) == Ok::<MemoryView, ModelError>(m.view()),
                Err(e) => spec_mem_un(self.view(), *input, *out, k) == Err::<MemoryView, ModelError>(e),
            },
    {
        let a = match self.read_varnode(input) {
            Ok(a) => a,
            Err(e) => return Err(e),
        };
        let (t, bits) = un_value_of(k, a, (input.size * 8) as u32, input.size, out.size);
        self.written(&GeneralizedVarNode::Direct(*out), &t, bits)
    }

    fn apply_subpiece(&self, in0: &VarNode, in1: &VarNode, out: &VarNode) -> (r: Result<MemoryState, ModelError>)
        requires
            self.wf(),
            vn_sized_pair(*in0, *in1, *out),
            in1.offset < in0.size,
        ensures
            match r {
                Ok(m) => m.wf() && spec_mem_subpiece(self.view(), *in0, *in1, *out) == Ok::<MemoryView, ModelError>(m.view()),
                Err(e) => spec_mem_subpiece(self.view(), *in0, *in1, *out) == Err::<MemoryView, ModelError>(e),
            },
    {
        let a = match self.read_varnode(in0) {
            Ok(a) => a,
            Err(e) => return Err(e),
        };
        let low = in1.offset as u32;
        let input_size = (in0.size as u32) - low;
        let output_size = out.size as u32;
        let size = if input_size < output_size { input_size } else { output_size };
        let piece = Term::Extract { high: (low + size) * 8 - 1, low: low * 8, arg: Box::new(a) };
        if size < output_size {
            self.written(
                &GeneralizedVarNode::Direct(*out),
                &Term::ZeroExt { bits: (output_size - size) * 8, arg: Box::new(piece) },
                output_size * 8,
            )
        } else {
            self.written(&GeneralizedVarNode::Direct(*out), &piece, size * 8)
        }
    }

    /// The memory after `op`, or why `op` cannot be applied.
    pub fn apply(&self, op: &PcodeOperation) -> (r: Result<MemoryState, ModelError>)
        requires
            self.wf(),
            memory_op_ok(self.view(), *op),
        ensures
            match r {
                Ok(m) => m.wf() && spec_memory_apply(self.view(), *op) == Ok::<MemoryView, ModelError>(m.view()),
                Err(e) => spec_memory_apply(self.view(), *op) == Err::<MemoryView, ModelError>(e),
            },
    {
        match op {
            PcodeOperation::Copy { input, output } => {
                let a = match self.read_varnode(input) {
                    Ok(a) => a,
                    Err(e) => return Err(e),
                };
                self.written(&GeneralizedVarNode::Direct(*output), &a, (input.size * 8) as u32)
            },
            PcodeOperation::IntZExt { input, output } => self.apply_un(input, output, UnKind::ZeroExtend),
            PcodeOperation::IntSExt { input, output } => self.apply_un(input, output, UnKind::SignExtend),
            PcodeOperation::Store { output, input } => {
                let a = match self.read_varnode(input) {
                    Ok(a) => a,
                    Err(e) => return Err(e),
                };
                self.written(&GeneralizedVarNode::Indirect(*output), &a, (input.size * 8) as u32)
            },
            PcodeOperation::Load { input, output } => {
                let a = match self.read_indirect(input) {
                    Ok(a) => a,
                    Err(e) => return Err(e),
                };
                self.written(&GeneralizedVarNode::Direct(*output), &a, (input.access_size_bytes * 8) as u32)
            },
            PcodeOperation::IntAdd { input0, input1, output } => self.apply_bin(input0, input1, output, BinKind::Add),
            PcodeOperation::IntSub { input0, input1, output } => self.apply_bin(input0, input1, output, BinKind::Sub),
            PcodeOperation::IntAnd { input0, input1, output } => self.apply_bin(input0, input1, output, BinKind::And),
            PcodeOperation::IntXor { input0, input1, output } => self.apply_bin(input0, input1, output, BinKind::Xor),
            PcodeOperation::IntOr { input0, input1, output } => self.apply_bin(input0, input1, output, BinKind::Or),
            PcodeOperation::IntNegate { input, output } => self.apply_un(input, output, UnKind::Negate),
            PcodeOperation::IntMult { input0, input1, output } => self.apply_bin(input0, input1, output, BinKind::Mult),
            PcodeOperation::IntDiv { input0, input1, output } => self.apply_bin(input0, input1, output, BinKind::Div),
            PcodeOperation::IntSignedDiv { input0, input1, output } => self.apply_bin(input0, input1, output, BinKind::SignedDiv),
            PcodeOperation::IntRem { input0, input1, output } => self.apply_bin(input0, input1, output, BinKind::Rem),
            PcodeOperation::IntSignedRem { input0, input1, output } => self.apply_bin(input0, input1, output, BinKind::SignedRem),
            PcodeOperation::IntRightShift { input0, input1, output } => self.apply_bin(input0, input1, output, BinKind::RightShift),
            PcodeOperation::IntSignedRightShift { input0, input1, output } => self.apply_bin(input0, input1, output, BinKind::SignedRightShift),
            PcodeOperation::IntLeftShift { input0, input1, output } => self.apply_bin(input0, input1, output, BinKind::FittedLeftShift),
            PcodeOperation::IntCarry { input0, input1, output } => self.apply_bin(input0, input1, output, BinKind::Carry),
            PcodeOperation::IntSignedCarry { input0, input1, output } => self.apply_bin(input0, input1, output, BinKind::SignedCarry),
            PcodeOperation::IntSignedBorrow { input0, input1, output } => self.apply_bin(input0, input1, output, BinKind::SignedBorrow),
            PcodeOperation::Int2Comp { input, output } => self.apply_un(input, output, UnKind::TwosComplement),
            PcodeOperation::IntSignedLess { input0, input1, output } => self.apply_bin(input0, input1, output, BinKind::SignedLess),
            PcodeOperation::IntSignedLessEqual { input0, input1, output } => self.apply_bin(input0, input1, output, BinKind::SignedLessEqual),
            PcodeOperation::IntLess { input0, input1, output } => self.apply_bin(input0, input1, output, BinKind::Less),
            PcodeOperation::IntLessEqual { input0, input1, output } => self.apply_bin(input0, input1, output, BinKind::LessEqual),
            PcodeOperation::IntEqual { input0, input1, output } => self.apply_bin(input0, input1, output, BinKind::Equal),
            PcodeOperation::IntNotEqual { input0, input1, output } => self.apply_bin(input0, input1, output, BinKind::NotEqual),
            PcodeOperation::BoolAnd { input0, input1, output } => self.apply_bin(input0, input1, output, BinKind::BoolAnd),
            PcodeOperation::BoolNegate { input, output } => self.apply_un(input, output, UnKind::BoolNegate),
            PcodeOperation::BoolOr { input0, input1, output } => self.apply_bin(input0, input1, output, BinKind::BoolOr),
            PcodeOperation::BoolXor { input0, input1, output } => self.apply_bin(input0, input1, output, BinKind::BoolXor),
            PcodeOperation::PopCount { input, output } => {
                let a = match self.read_varnode(input) {
                    Ok(a) => a,
                    Err(e) => return Err(e),
                };
                let bits = (output.size * 8) as u32;
                let t = popcount_of(&a, bits);
                self.written(&GeneralizedVarNode::Direct(*output), &t, bits)
            },
            PcodeOperation::SubPiece { input0, input1, output } => self.apply_subpiece(input0, input1, output),
            PcodeOperation::CallOther { inputs, output } => match output {
                None => Ok(self.duplicate()),
                Some(out) => {
                    let hash = hash_inputs(inputs);
                    let bits = (out.size * 8) as u32;
                    self.written(&GeneralizedVarNode::Direct(*out), &Term::Const { value: hash, bits }, bits)
                },
            },
            PcodeOperation::Branch { .. }
            | PcodeOperation::CBranch { .. }
            | PcodeOperation::BranchInd { .. }
            | PcodeOperation::Call { .. }
            | PcodeOperation::CallInd { .. }
            | PcodeOperation::Return { .. } => Ok(self.duplicate()),
            _ => Err(ModelError::UnmodeledInstruction),
        }
    }
}

/// Three sized varnodes.
pub open spec fn vn_sized_pair(a: VarNode, b: VarNode, out: VarNode) -> bool {
    vn_sized(a) && vn_sized(b) && vn_sized(out)
}

/// `b` continues `a`: same spaces and initial contents, and the stores of
/// `a` at the front of those of `b`, in order.
pub open spec fn mem_extends(a: MemoryView, b: MemoryView) -> bool {
    &&& b.spaces == a.spaces
    &&& b.base == a.base
    &&& a.log.len() <= b.log.len()
    &&& forall|i: int| 0 <= i < a.log.len() ==> #[trigger] b.log[i] == a.log[i]
}

proof fn lemma_then_write_extends(m: MemoryView, read: Result<Term, ModelError>, g: GeneralizedVarNode, bits: u32)
    ensures
        mem_then_write(m, read, g, bits) matches Ok(m2) ==> mem_extends(m, m2),
{
    if let Ok(t) = read {
        match g {
            GeneralizedVarNode::Direct(dest) => {
                if let Some(d) = mem_space(m, dest.space_index) {
                    lemma_stores_extend(m.log, dest.space_index, false, cst(dest.offset, index_bits(d)), index_bits(d), t, bits, 8, d.big_endian, (bits / 8) as nat);
                }
            },
            GeneralizedVarNode::Indirect(dest) => {
                if let Some(d) = mem_space(m, dest.pointer_space_index) {
                    if let Ok(p) = spec_mem_read_varnode(m, dest.pointer_location) {
                        lemma_stores_extend(m.log, dest.pointer_space_index, false, p, (dest.pointer_location.size * 8) as u32, t, bits, 8, d.big_endian, (bits / 8) as nat);
                    }
                }
            },
        }
    }
}

/// A step only adds to memory: whatever the operation, the memory after it
/// has the same spaces and initial contents and keeps the stores made
/// before it, in order, at the front; so a term read before the step keeps
/// its meaning after it.
pub proof fn lemma_memory_apply_extends(m: MemoryView, op: PcodeOperation)
    ensures
        spec_memory_apply(m, op) matches Ok(m2) ==> mem_extends(m, m2),
{
    match op {
        PcodeOperation::Copy { input, output } => lemma_then_write_extends(m, spec_mem_read_varnode(m, input), GeneralizedVarNode::Direct(output), (input.size * 8) as u32),
        PcodeOperation::Store { output, input } => lemma_then_write_extends(m, spec_mem_read_varnode(m, input), GeneralizedVarNode::Indirect(output), (input.size * 8) as u32),
        PcodeOperation::Load { input, output } => lemma_then_write_extends(m, spec_mem_read_indirect(m, input), GeneralizedVarNode::Direct(output), (input.access_size_bytes * 8) as u32),
        PcodeOperation::PopCount { input, output } => {
            if let Ok(a) = spec_mem_read_varnode(m, input) {
                let bits = (output.size * 8) as u32;
                lemma_then_write_extends(m, Ok(popcount_term(a, bits as nat, bits)), GeneralizedVarNode::Direct(output), bits);
            }
        },
        PcodeOperation::SubPiece { input0, input1, output } => {
            if let Ok(a) = spec_mem_read_varnode(m, input0) {
                let low = input1.offset as u32;
                let input_size = (input0.size - low) as u32;
                let output_size = output.size as u32;
                let size = if input_size < output_size { input_size } else { output_size };
                let piece = Term::Extract { high: ((low + size) * 8 - 1) as u32, low: (low * 8) as u32, arg: Box::new(a) };
                lemma_then_write_extends(m, Ok(Term::ZeroExt { bits: ((output_size - size) * 8) as u32, arg: Box::new(piece) }), GeneralizedVarNode::Direct(output), (output_size * 8) as u32);
                lemma_then_write_extends(m, Ok(piece), GeneralizedVarNode::Direct(output), (size * 8) as u32);
            }
        },
        PcodeOperation::CallOther { inputs, output } => {
            if let Some(out) = output {
                let bits = (out.size * 8) as u32;
                lemma_then_write_extends(m, Ok(cst(call_other_hash(inputs@), bits)), GeneralizedVarNode::Direct(out), bits);
            }
        },
        PcodeOperation::IntZExt { input, output } => lemma_un_extends(m, input, output, UnKind::ZeroExtend),
        PcodeOperation::IntSExt { input, output } => lemma_un_extends(m, input, output, UnKind::SignExtend),
        PcodeOperation::IntNegate { input, output } => lemma_un_extends(m, input, output, UnKind::Negate),
        PcodeOperation::Int2Comp { input, output } => lemma_un_extends(m, input, output, UnKind::TwosComplement),
        PcodeOperation::BoolNegate { input, output } => lemma_un_extends(m, input, output, UnKind::BoolNegate),
        PcodeOperation::IntAdd { input0, input1, output } => lemma_bin_extends(m, input0, input1, output, BinKind::Add),
        PcodeOperation::IntSub { input0, input1, output } => lemma_bin_extends(m, input0, input1, output, BinKind::Sub),
        PcodeOperation::IntAnd { input0, input1, output } => lemma_bin_extends(m, input0, input1, output, BinKind::And),
        PcodeOperation::IntXor { input0, input1, output } => lemma_bin_extends(m, input0, input1, output, BinKind::Xor),
        PcodeOperation::IntOr { input0, input1, output } => lemma_bin_extends(m, input0, input1, output, BinKind::Or),
        PcodeOperation::IntMult { input0, input1, output } => lemma_bin_extends(m, input0, input1, output, BinKind::Mult),
        PcodeOperation::IntDiv { input0, input1, output } => lemma_bin_extends(m, input0, input1, output, BinKind::Div),
        PcodeOperation::IntSignedDiv { input0, input1, output } => lemma_bin_extends(m, input0, input1, output, BinKind::SignedDiv),
        PcodeOperation::IntRem { input0, input1, output } => lemma_bin_extends(m, input0, input1, output, BinKind::Rem),
        PcodeOperation::IntSignedRem { input0, input1, output } => lemma_bin_extends(m, input0, input1, output, BinKind::SignedRem),
        PcodeOperation::IntRightShift { input0, input1, output } => lemma_bin_extends(m, input0, input1, output, BinKind::RightShift),
        PcodeOperation::IntSignedRightShift { input0, input1, output } => lemma_bin_extends(m, input0, input1, output, BinKind::SignedRightShift),
        PcodeOperation::IntLeftShift { input0, input1, output } => lemma_bin_extends(m, input0, input1, output, BinKind::FittedLeftShift),
        PcodeOperation::IntCarry { input0, input1, output } => lemma_bin_extends(m, input0, input1, output, BinKind::Carry),
        PcodeOperation::IntSignedCarry { input0, input1, output } => lemma_bin_extends(m, input0, input1, output, BinKind::SignedCarry),
        PcodeOperation::IntSignedBorrow { input0, input1, output } => lemma_bin_extends(m, input0, input1, output, BinKind::SignedBorrow),
        PcodeOperation::IntSignedLess { input0, input1, output } => lemma_bin_extends(m, input0, input1, output, BinKind::SignedLess),
        PcodeOperation::IntSignedLessEqual { input0, input1, output } => lemma_bin_extends(m, input0, input1, output, BinKind::SignedLessEqual),
        PcodeOperation::IntLess { input0, input1, output } => lemma_bin_extends(m, input0, input1, output, BinKind::Less),
        PcodeOperation::IntLessEqual { input0, input1, output } => lemma_bin_extends(m, input0, input1, output, BinKind::LessEqual),
        PcodeOperation::IntEqual { input0, input1, output } => lemma_bin_extends(m, input0, input1, output, BinKind::Equal),
        PcodeOperation::IntNotEqual { input0, input1, output } => lemma_bin_extends(m, input0, input1, output, BinKind::NotEqual),
        PcodeOperation::BoolAnd { input0, input1, output } => lemma_bin_extends(m, input0, input1, output, BinKind::BoolAnd),
        PcodeOperation::BoolOr { input0, input1, output } => lemma_bin_extends(m, input0, input1, output, BinKind::BoolOr),
        PcodeOperation::BoolXor { input0, input1, output } => lemma_bin_extends(m, input0, input1, output, BinKind::BoolXor),
        _ => {},
    }
}

proof fn lemma_bin_extends(m: MemoryView, in0: VarNode, in1: VarNode, out: VarNode, k: BinKind)
    ensures
        spec_mem_bin(m, in0, in1, out, k) matches Ok(m2) ==> mem_extends(m, m2),
{
    if let Ok(a) = spec_mem_read_varnode(m, in0) {
        if let Ok(b) = spec_mem_read_varnode(m, in1) {
            let (t, bits) = bin_value(k, a, b, (in0.size * 8) as u32, (in1.size * 8) as u32, out.size);
            lemma_then_write_extends(m, Ok(t), GeneralizedVarNode::Direct(out), bits);
        }
    }
}

proof fn lemma_un_extends(m: MemoryView, input: VarNode, out: VarNode, k: UnKind)
    ensures
        spec_mem_un(m, input, out, k) matches Ok(m2) ==> mem_extends(m, m2),
{
    if let Ok(a) = spec_mem_read_varnode(m, input) {
        let (t, bits) = un_value(k, a, (input.size * 8) as u32, input.size, out.size);
        lemma_then_write_extends(m, Ok(t), GeneralizedVarNode::Direct(out), bits);
    }
}

} // verus!
