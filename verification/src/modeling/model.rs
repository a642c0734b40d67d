//! Modelling p-code operations: each operation reads its inputs from the
//! current state, records what it read and wrote, and stores the term of its
//! result; branches also record how the trace ends.
use crate::modeling::branch::{BlockConditionalBranchInfo, BlockEndBehavior};
use crate::modeling::ops::{flag_meaning, lemma_flag_meanings, to_signed, BinKind, UnKind, bin_value, bin_value_of, ones, ones_of, popcount_of, popcount_term, un_value, un_value_of};
use crate::modeling::state::{
    ModelError, ResolvedVarnode, SpaceDesc, Step, Store, TraceModel, TraceView, index_bits, space_of,
    spec_read_and_track, spec_read_original_metadata, spec_read_varnode, spec_write, spec_write_array,
    spec_write_indirect, spec_write_metadata, spec_write_varnode, stores_of, vn_sized, with_output,
};
use crate::modeling::term::{Term, cst};
use crate::sleigh::{CONST_SPACE_INDEX, GeneralizedVarNode, PcodeOperation, VarNode};
use std::hash::{DefaultHasher, Hasher};
use vstd::bytes::{spec_u64_to_le_bytes, u64_to_le_bytes};
use vstd::std_specs::hash::DefaultHasherAdditionalSpecFns;
use vstd::prelude::*;

verus! {

/// The byte strings fed to the hasher for one input of a user-defined
/// operation: its space index, offset and size, each as eight
/// little-endian bytes (as the derived `Hash` of a varnode feeds them on a
/// 64-bit little-endian machine).
pub open spec fn varnode_hash_writes(vn: VarNode) -> Seq<Seq<u8>> {
    seq![
        spec_u64_to_le_bytes(vn.space_index as u64),
        spec_u64_to_le_bytes(vn.offset),
        spec_u64_to_le_bytes(vn.size as u64),
    ]
}

/// The byte strings fed to the hasher for `inputs`, in order.
pub open spec fn hash_writes(inputs: Seq<VarNode>) -> Seq<Seq<u8>>
    decreases inputs.len(),
{
    if inputs.len() == 0 {
        Seq::empty()
    } else {
        hash_writes(inputs.drop_last()) + varnode_hash_writes(inputs.last())
    }
}

/// The hash that stands for a user-defined operation on `inputs`: what a
/// fresh `DefaultHasher` finishes with after being fed `hash_writes(inputs)`.
pub open spec fn call_other_hash(inputs: Seq<VarNode>) -> u64 {
    DefaultHasher::spec_finish(hash_writes(inputs))
}

/// The hash used when modelling `op` (0 for anything but a user-defined
/// operation, where no hash is used).
pub open spec fn op_hash(op: PcodeOperation) -> u64 {
    match op {
        PcodeOperation::CallOther { inputs, .. } => call_other_hash(inputs@),
        _ => 0,
    }
}

/// Computes `call_other_hash(inputs@)`.
pub fn hash_inputs(inputs: &Vec<VarNode>) -> (h: u64)
    ensures
        h == call_other_hash(inputs@),
{
    let mut hasher = DefaultHasher::new();
    let mut k: usize = 0;
    while k < inputs.len()
        invariant
            k <= inputs@.len(),
            hasher@ == hash_writes(inputs@.take(k as int)),
        decreases inputs@.len() - k,
    {
        let vn = inputs[k];
        let space = u64_to_le_bytes(vn.space_index as u64);
        hasher.write(space.as_slice());
        let offset = u64_to_le_bytes(vn.offset);
        hasher.write(offset.as_slice());
        let size = u64_to_le_bytes(vn.size as u64);
        hasher.write(size.as_slice());
        proof {
            assert(inputs@.take(k + 1).drop_last() == inputs@.take(k as int));
            assert(inputs@.take(k + 1).last() == vn);
            assert(hasher@ == hash_writes(inputs@.take(k as int)) + varnode_hash_writes(vn));
        }
        k = k + 1;
    }
    proof {
        assert(inputs@.take(inputs@.len() as int) == inputs@);
    }
    hasher.finish()
}

/// Drops the value of a step.
pub open spec fn unit<T>(s: Step<T>) -> Step<()> {
    (s.0, match s.1 {
        Ok(_) => Ok(()),
        Err(e) => Err(e),
    })
}

/// Reading `a`, then writing `f` of it (`bits` wide) to `out`.
pub open spec fn spec_then_write(s: Step<Term>, out: GeneralizedVarNode, bits: u32) -> Step<()> {
    match s.1 {
        Err(e) => (s.0, Err(e)),
        Ok(a) => spec_write(s.0, out, a, bits),
    }
}

/// A two-input operation: both inputs are read, in order, then the value is
/// written to the output.
pub open spec fn spec_bin(v: TraceView, in0: VarNode, in1: VarNode, out: VarNode, k: BinKind) -> Step<()> {
    let (v1, r0) = spec_read_and_track(v, GeneralizedVarNode::Direct(in0));
    match r0 {
        Err(e) => (v1, Err(e)),
        Ok(a) => {
            let (v2, r1) = spec_read_and_track(v1, GeneralizedVarNode::Direct(in1));
            match r1 {
                Err(e) => (v2, Err(e)),
                Ok(b) => {
                    let (t, bits) = bin_value(k, a, b, (in0.size * 8) as u32, (in1.size * 8) as u32, out.size);
                    spec_write(v2, GeneralizedVarNode::Direct(out), t, bits)
                },
            }
        },
    }
}

/// A one-input operation.
pub open spec fn spec_un(v: TraceView, input: VarNode, out: VarNode, k: UnKind) -> Step<()> {
    let (v1, r0) = spec_read_and_track(v, GeneralizedVarNode::Direct(input));
    match r0 {
        Err(e) => (v1, Err(e)),
        Ok(a) => {
            let (t, bits) = un_value(k, a, (input.size * 8) as u32, input.size, out.size);
            spec_write(v1, GeneralizedVarNode::Direct(out), t, bits)
        },
    }
}

/// A copy: the value is read, the input's metadata in the original state is
/// written as the output's metadata, then the value is written.
pub open spec fn spec_copy(v: TraceView, input: VarNode, out: VarNode) -> Step<()> {
    let (v1, r0) = spec_read_and_track(v, GeneralizedVarNode::Direct(input));
    match r0 {
        Err(e) => (v1, Err(e)),
        Ok(a) => match spec_read_original_metadata(v1, input) {
            Err(e) => (v1, Err(e)),
            Ok(m) => {
                let (v2, r2) = spec_write_metadata(v1, out, m, input.size as u32);
                match r2 {
                    Err(e) => (v2, Err(e)),
                    Ok(_) => spec_write(v2, GeneralizedVarNode::Direct(out), a, (input.size * 8) as u32),
                }
            },
        },
    }
}

/// The trace ends with a branch to `target`; `read` is read.
pub open spec fn spec_branch(v: TraceView, target: GeneralizedVarNode, read: VarNode) -> Step<()> {
    unit(spec_read_and_track(
        TraceView { last: BlockEndBehavior::UnconditionalBranch(target), ..v },
        GeneralizedVarNode::Direct(read),
    ))
}

/// A conditional branch to `dest` on `cond` is recorded, then both are read.
pub open spec fn spec_cbranch(v: TraceView, dest: VarNode, cond: VarNode) -> Step<()> {
    let v1 = TraceView {
        conds: v.conds.push(BlockConditionalBranchInfo { condition: cond, destination: GeneralizedVarNode::Direct(dest) }),
        ..v
    };
    let (v2, r) = spec_read_and_track(v1, GeneralizedVarNode::Direct(dest));
    match r {
        Err(e) => (v2, Err(e)),
        Ok(_) => unit(spec_read_and_track(v2, GeneralizedVarNode::Direct(cond))),
    }
}

/// The bytes of `in0` from byte `in1.offset` on, cut or zero-extended to the
/// size of the output.
pub open spec fn spec_subpiece(v: TraceView, in0: VarNode, in1: VarNode, out: VarNode) -> Step<()> {
    let (v1, r0) = spec_read_and_track(v, GeneralizedVarNode::Direct(in0));
    match r0 {
        Err(e) => (v1, Err(e)),
        Ok(a) => {
            let low = in1.offset as u32;
            let input_size = (in0.size - low) as u32;
            let output_size = out.size as u32;
            let size = if input_size < output_size { input_size } else { output_size };
            let piece = Term::Extract { high: ((low + size) * 8 - 1) as u32, low: (low * 8) as u32, arg: Box::new(a) };
            if size < output_size {
                spec_write(
                    v1,
                    GeneralizedVarNode::Direct(out),
                    Term::ZeroExt { bits: ((output_size - size) * 8) as u32, arg: Box::new(piece) },
                    (output_size * 8) as u32,
                )
            } else {
                spec_write(v1, GeneralizedVarNode::Direct(out), piece, (size * 8) as u32)
            }
        },
    }
}

/// The number of set bits among the low bits of the input, as many as the
/// output has.
pub open spec fn spec_popcount(v: TraceView, input: VarNode, out: VarNode) -> Step<()> {
    let (v1, r0) = spec_read_and_track(v, GeneralizedVarNode::Direct(input));
    match r0 {
        Err(e) => (v1, Err(e)),
        Ok(a) => {
            let bits = (out.size * 8) as u32;
            spec_write(v1, GeneralizedVarNode::Direct(out), popcount_term(a, bits as nat, bits), bits)
        },
    }
}

/// Reading the first `k` of `inputs`, in order, until one fails.
pub open spec fn spec_read_all(v: TraceView, inputs: Seq<VarNode>, k: nat) -> Step<()>
    decreases k,
{
    if k == 0 {
        (v, Ok(()))
    } else {
        let (v1, r) = spec_read_all(v, inputs, (k - 1) as nat);
        match r {
            Err(e) => (v1, Err(e)),
            Ok(_) => unit(spec_read_and_track(v1, GeneralizedVarNode::Direct(inputs[k - 1]))),
        }
    }
}

/// The constant varnode of the code space's address size holding `hash`.
pub open spec fn hash_varnode_of(v: TraceView, hash: u64) -> VarNode {
    VarNode {
        space_index: CONST_SPACE_INDEX,
        offset: hash,
        size: v.spaces[v.code_space as int].index_size_bytes as usize,
    }
}

/// A user-defined operation, stood for by `hash`: the inputs are read; the
/// hash, as a constant, is marked as such in the metadata and ends the
/// trace as a branch target; the output, if any, is marked likewise and
/// receives the hash.
pub open spec fn spec_call_other(v: TraceView, output: Option<VarNode>, inputs: Seq<VarNode>, hash: u64) -> Step<()> {
    let (v1, r) = spec_read_all(v, inputs, inputs.len());
    match r {
        Err(e) => (v1, Err(e)),
        Ok(_) => {
            let hv = hash_varnode_of(v1, hash);
            let (v2, r2) = spec_write_metadata(v1, hv, ones(hv.size as nat), hv.size as u32);
            match r2 {
                Err(e) => (v2, Err(e)),
                Ok(_) => {
                    let v3 = TraceView { last: BlockEndBehavior::UnconditionalBranch(GeneralizedVarNode::Direct(hv)), ..v2 };
                    match output {
                        None => (v3, Ok(())),
                        Some(out) => {
                            let (v4, r4) = spec_write_metadata(v3, out, ones(out.size as nat), out.size as u32);
                            match r4 {
                                Err(e) => (v4, Err(e)),
                                Ok(_) => spec_write(v4, GeneralizedVarNode::Direct(out), cst(hash, (out.size * 8) as u32), (out.size * 8) as u32),
                            }
                        },
                    }
                },
            }
        },
    }
}

/// The state after modelling `op` on `v`, and whether it succeeded; a
/// user-defined operation is stood for by `hash`. A failed operation leaves
/// what it had done before failing.
pub open spec fn spec_model_op(v: TraceView, op: PcodeOperation, hash: u64) -> Step<()> {
    match op {
        PcodeOperation::Copy { input, output } => spec_copy(v, input, output),
        PcodeOperation::IntZExt { input, output } => spec_un(v, input, output, UnKind::ZeroExtend),
        PcodeOperation::IntSExt { input, output } => spec_un(v, input, output, UnKind::SignExtend),
        PcodeOperation::Store { output, input } => spec_then_write(
            spec_read_and_track(v, GeneralizedVarNode::Direct(input)),
            GeneralizedVarNode::Indirect(output),
            (input.size * 8) as u32,
        ),
        PcodeOperation::Load { input, output } => spec_then_write(
            spec_read_and_track(v, GeneralizedVarNode::Indirect(input)),
            GeneralizedVarNode::Direct(output),
            (input.access_size_bytes * 8) as u32,
        ),
        PcodeOperation::IntAdd { input0, input1, output } => spec_bin(v, input0, input1, output, BinKind::Add),
        PcodeOperation::IntSub { input0, input1, output } => spec_bin(v, input0, input1, output, BinKind::Sub),
        PcodeOperation::IntAnd { input0, input1, output } => spec_bin(v, input0, input1, output, BinKind::And),
        PcodeOperation::IntXor { input0, input1, output } => spec_bin(v, input0, input1, output, BinKind::Xor),
        PcodeOperation::IntOr { input0, input1, output } => spec_bin(v, input0, input1, output, BinKind::Or),
        PcodeOperation::IntNegate { input, output } => spec_un(v, input, output, UnKind::Negate),
        PcodeOperation::IntMult { input0, input1, output } => spec_bin(v, input0, input1, output, BinKind::Mult),
        PcodeOperation::IntDiv { input0, input1, output } => spec_bin(v, input0, input1, output, BinKind::Div),
        PcodeOperation::IntSignedDiv { input0, input1, output } => spec_bin(v, input0, input1, output, BinKind::SignedDiv),
        PcodeOperation::IntRem { input0, input1, output } => spec_bin(v, input0, input1, output, BinKind::Rem),
        PcodeOperation::IntSignedRem { input0, input1, output } => spec_bin(v, input0, input1, output, BinKind::SignedRem),
        PcodeOperation::IntRightShift { input0, input1, output } => spec_bin(v, input0, input1, output, BinKind::RightShift),
        PcodeOperation::IntSignedRightShift { input0, input1, output } => spec_bin(v, input0, input1, output, BinKind::SignedRightShift),
        PcodeOperation::IntLeftShift { input0, input1, output } => spec_bin(v, input0, input1, output, BinKind::LeftShift),
        PcodeOperation::IntCarry { input0, input1, output } => spec_bin(v, input0, input1, output, BinKind::Carry),
        PcodeOperation::IntSignedCarry { input0, input1, output } => spec_bin(v, input0, input1, output, BinKind::SignedCarry),
        PcodeOperation::IntSignedBorrow { input0, input1, output } => spec_bin(v, input0, input1, output, BinKind::SignedBorrow),
        PcodeOperation::Int2Comp { input, output } => spec_un(v, input, output, UnKind::TwosComplement),
        PcodeOperation::IntSignedLess { input0, input1, output } => spec_bin(v, input0, input1, output, BinKind::SignedLess),
        PcodeOperation::IntSignedLessEqual { input0, input1, output } => spec_bin(v, input0, input1, output, BinKind::SignedLessEqual),
        PcodeOperation::IntLess { input0, input1, output } => spec_bin(v, input0, input1, output, BinKind::Less),
        PcodeOperation::IntLessEqual { input0, input1, output } => spec_bin(v, input0, input1, output, BinKind::LessEqual),
        PcodeOperation::IntEqual { input0, input1, output } => spec_bin(v, input0, input1, output, BinKind::Equal),
        PcodeOperation::IntNotEqual { input0, input1, output } => spec_bin(v, input0, input1, output, BinKind::NotEqual),
        PcodeOperation::BoolAnd { input0, input1, output } => spec_bin(v, input0, input1, output, BinKind::BoolAnd),
        PcodeOperation::BoolNegate { input, output } => spec_un(v, input, output, UnKind::BoolNegate),
        PcodeOperation::BoolOr { input0, input1, output } => spec_bin(v, input0, input1, output, BinKind::BoolOr),
        PcodeOperation::BoolXor { input0, input1, output } => spec_bin(v, input0, input1, output, BinKind::BoolXor),
        PcodeOperation::PopCount { input, output } => spec_popcount(v, input, output),
        PcodeOperation::Branch { input } => spec_branch(v, GeneralizedVarNode::Direct(input), input),
        PcodeOperation::BranchInd { input } => spec_branch(v, GeneralizedVarNode::Indirect(input), input.pointer_location),
        PcodeOperation::Call { dest } => spec_branch(v, GeneralizedVarNode::Direct(dest), dest),
        PcodeOperation::CBranch { input0, input1 } => spec_cbranch(v, input0, input1),
        PcodeOperation::SubPiece { input0, input1, output } => spec_subpiece(v, input0, input1, output),
        PcodeOperation::CallOther { output, inputs } => spec_call_other(v, output, inputs@, hash),
        PcodeOperation::CallInd { input } => spec_branch(v, GeneralizedVarNode::Indirect(input), input.pointer_location),
        PcodeOperation::Return { input } => spec_branch(v, GeneralizedVarNode::Indirect(input), input.pointer_location),
        _ => (v, Err(ModelError::UnmodeledInstruction)),
    }
}

/// The sizes of the operation's varnodes are such that building its terms
/// cannot fail: widths are non-zero and fit a `u32`, inputs that are
/// combined have one width, extensions do not shrink, and a piece or a
/// count stays within its input.
pub open spec fn model_op_ok(op: PcodeOperation) -> bool {
    match op {
        PcodeOperation::Copy { input, output } => vn_sized(input) && vn_sized(output),
        PcodeOperation::IntZExt { input, output } => vn_sized(input) && vn_sized(output) && input.size <= output.size,
        PcodeOperation::IntSExt { input, output } => vn_sized(input) && vn_sized(output) && input.size <= output.size,
        PcodeOperation::Store { output, input } => vn_sized(input) && vn_sized(output.pointer_location),
        PcodeOperation::Load { input, output } => vn_sized(input.pointer_location) && vn_sized(output)
            && 1 <= input.access_size_bytes && input.access_size_bytes * 8 <= u32::MAX,
        PcodeOperation::IntRightShift { input0, input1, output } => vn_sized(input0) && vn_sized(input1) && vn_sized(output),
        PcodeOperation::IntSignedRightShift { input0, input1, output } => vn_sized(input0) && vn_sized(input1) && vn_sized(output),
        PcodeOperation::IntLeftShift { input0, input1, output } => vn_sized(input0) && vn_sized(input1) && vn_sized(output),
        PcodeOperation::IntAdd { input0, input1, output } => same_width(input0, input1, output),
        PcodeOperation::IntSub { input0, input1, output } => same_width(input0, input1, output),
        PcodeOperation::IntAnd { input0, input1, output } => same_width(input0, input1, output),
        PcodeOperation::IntXor { input0, input1, output } => same_width(input0, input1, output),
        PcodeOperation::IntOr { input0, input1, output } => same_width(input0, input1, output),
        PcodeOperation::IntMult { input0, input1, output } => same_width(input0, input1, output),
        PcodeOperation::IntDiv { input0, input1, output } => same_width(input0, input1, output),
        PcodeOperation::IntSignedDiv { input0, input1, output } => same_width(input0, input1, output),
        PcodeOperation::IntRem { input0, input1, output } => same_width(input0, input1, output),
        PcodeOperation::IntSignedRem { input0, input1, output } => same_width(input0, input1, output),
        PcodeOperation::IntCarry { input0, input1, output } => same_width(input0, input1, output),
        PcodeOperation::IntSignedCarry { input0, input1, output } => same_width(input0, input1, output),
        PcodeOperation::IntSignedBorrow { input0, input1, output } => same_width(input0, input1, output),
        PcodeOperation::IntSignedLess { input0, input1, output } => same_width(input0, input1, output),
        PcodeOperation::IntSignedLessEqual { input0, input1, output } => same_width(input0, input1, output),
        PcodeOperation::IntLess { input0, input1, output } => same_width(input0, input1, output),
        PcodeOperation::IntLessEqual { input0, input1, output } => same_width(input0, input1, output),
        PcodeOperation::IntEqual { input0, input1, output } => same_width(input0, input1, output),
        PcodeOperation::IntNotEqual { input0, input1, output } => same_width(input0, input1, output),
        PcodeOperation::BoolAnd { input0, input1, output } => same_width(input0, input1, output),
        PcodeOperation::BoolOr { input0, input1, output } => same_width(input0, input1, output),
        PcodeOperation::BoolXor { input0, input1, output } => same_width(input0, input1, output),
        PcodeOperation::IntNegate { input, output } => vn_sized(input) && vn_sized(output),
        PcodeOperation::Int2Comp { input, output } => vn_sized(input) && vn_sized(output),
        PcodeOperation::BoolNegate { input, output } => vn_sized(input) && vn_sized(output),
        PcodeOperation::PopCount { input, output } => vn_sized(input) && vn_sized(output) && output.size <= input.size,
        PcodeOperation::Branch { input } => vn_sized(input),
        PcodeOperation::Call { dest } => vn_sized(dest),
        PcodeOperation::BranchInd { input } => vn_sized(input.pointer_location),
        PcodeOperation::CallInd { input } => vn_sized(input.pointer_location),
        PcodeOperation::Return { input } => vn_sized(input.pointer_location),
        PcodeOperation::CBranch { input0, input1 } => vn_sized(input0) && vn_sized(input1),
        PcodeOperation::SubPiece { input0, input1, output } => vn_sized(input0) && vn_sized(input1) && vn_sized(output)
            && input1.offset < input0.size,
        PcodeOperation::CallOther { output, inputs } => (forall|i: int| 0 <= i < inputs@.len() ==> vn_sized(#[trigger] inputs@[i]))
            && (output matches Some(o) ==> vn_sized(o)),
        _ => true,
    }
}

/// Two inputs of one width and a sized output.
pub open spec fn same_width(a: VarNode, b: VarNode, out: VarNode) -> bool {
    vn_sized(a) && vn_sized(b) && vn_sized(out) && a.size == b.size
}

proof fn lemma_read_all_stops(v: TraceView, inputs: Seq<VarNode>, k: nat, n: nat)
    requires
        k <= n,
        spec_read_all(v, inputs, k).1 is Err,
    ensures
        spec_read_all(v, inputs, n) == spec_read_all(v, inputs, k),
    decreases n - k,
{
    if k < n {
        lemma_read_all_stops(v, inputs, k, (n - 1) as nat);
    }
}

impl TraceModel {
    /// Reads `vn`, recording it.
    fn read_direct(&mut self, vn: &VarNode) -> (r: Result<Term, ModelError>)
        requires
            old(self).wf(),
            vn.size * 8 <= u32::MAX,
        ensures
            (final(self).view(), r) == spec_read_and_track(old(self).view(), GeneralizedVarNode::Direct(*vn)),
            final(self).wf(),
    {
        self.read_and_track(&GeneralizedVarNode::Direct(*vn))
    }

    fn model_bin(&mut self, in0: &VarNode, in1: &VarNode, out: &VarNode, k: BinKind) -> (r: Result<(), ModelError>)
        requires
            old(self).wf(),
            vn_sized(*in0),
            vn_sized(*in1),
            vn_sized(*out),
        ensures
            (final(self).view(), r) == spec_bin(old(self).view(), *in0, *in1, *out, k),
            final(self).wf(),
    {
        let a = match self.read_direct(in0) {
            Ok(a) => a,
            Err(e) => return Err(e),
        };
        let b = match self.read_direct(in1) {
            Ok(b) => b,
            Err(e) => return Err(e),
        };
        let (t, bits) = bin_value_of(k, a, b, (in0.size * 8) as u32, (in1.size * 8) as u32, out.size);
        self.write(&GeneralizedVarNode::Direct(*out), &t, bits)
    }

    fn model_un(&mut self, input: &VarNode, out: &VarNode, k: UnKind) -> (r: Result<(), ModelError>)
        requires
            old(self).wf(),
            vn_sized(*input),
            vn_sized(*out),
            k is ZeroExtend || k is SignExtend ==> input.size <= out.size,
        ensures
            (final(self).view(), r) == spec_un(old(self).view(), *input, *out, k),
            final(self).wf(),
    {
        let a = match self.read_direct(input) {
            Ok(a) => a,
            Err(e) => return Err(e),
        };
        let (t, bits) = un_value_of(k, a, (input.size * 8) as u32, input.size, out.size);
        self.write(&GeneralizedVarNode::Direct(*out), &t, bits)
    }

    fn model_copy(&mut self, input: &VarNode, out: &VarNode) -> (r: Result<(), ModelError>)
        requires
            old(self).wf(),
            vn_sized(*input),
            vn_sized(*out),
        ensures
            (final(self).view(), r) == spec_copy(old(self).view(), *input, *out),
            final(self).wf(),
    {
        let a = match self.read_direct(input) {
            Ok(a) => a,
            Err(e) => return Err(e),
        };
        let m = match self.read_original_metadata(input) {
            Ok(m) => m,
            Err(e) => return Err(e),
        };
        match self.write_metadata(out, &m, input.size as u32) {
            Ok(_) => {},
            Err(e) => return Err(e),
        }
        self.write(&GeneralizedVarNode::Direct(*out), &a, (input.size * 8) as u32)
    }

    fn model_branch(&mut self, target: &GeneralizedVarNode, read: &VarNode) -> (r: Result<(), ModelError>)
        requires
            old(self).wf(),
            vn_sized(*read),
        ensures
            (final(self).view(), r) == spec_branch(old(self).view(), *target, *read),
            final(self).wf(),
    {
        self.branch.set_last(target);
        match self.read_direct(read) {
            Ok(_) => Ok(()),
            Err(e) => Err(e),
        }
    }

    fn model_cbranch(&mut self, dest: &VarNode, cond: &VarNode) -> (r: Result<(), ModelError>)
        requires
            old(self).wf(),
            vn_sized(*dest),
            vn_sized(*cond),
        ensures
            (final(self).view(), r) == spec_cbranch(old(self).view(), *dest, *cond),
            final(self).wf(),
    {
        self.branch.push_conditional(&BlockConditionalBranchInfo { condition: *cond, destination: GeneralizedVarNode::Direct(*dest) });
        match self.read_direct(dest) {
            Ok(_) => {},
            Err(e) => return Err(e),
        }
        match self.read_direct(cond) {
            Ok(_) => Ok(()),
            Err(e) => Err(e),
        }
    }

    fn model_subpiece(&mut self, in0: &VarNode, in1: &VarNode, out: &VarNode) -> (r: Result<(), ModelError>)
        requires
            old(self).wf(),
            vn_sized(*in0),
            vn_sized(*in1),
            vn_sized(*out),
            in1.offset < in0.size,
        ensures
            (final(self).view(), r) == spec_subpiece(old(self).view(), *in0, *in1, *out),
            final(self).wf(),
    {
        let a = match self.read_direct(in0) {
            Ok(a) => a,
            Err(e) => return Err(e),
        };
        let low = in1.offset as u32;
        let input_size = (in0.size as u32) - low;
        let output_size = out.size as u32;
        let size = if input_size < output_size { input_size } else { output_size };
        let piece = Term::Extract { high: (low + size) * 8 - 1, low: low * 8, arg: Box::new(a) };
        if size < output_size {
            self.write(
                &GeneralizedVarNode::Direct(*out),
                &Term::ZeroExt { bits: (output_size - size) * 8, arg: Box::new(piece) },
                output_size * 8,
            )
        } else {
            self.write(&GeneralizedVarNode::Direct(*out), &piece, size * 8)
        }
    }

    fn model_popcount(&mut self, input: &VarNode, out: &VarNode) -> (r: Result<(), ModelError>)
        requires
            old(self).wf(),
            vn_sized(*input),
            vn_sized(*out),
        ensures
            (final(self).view(), r) == spec_popcount(old(self).view(), *input, *out),
            final(self).wf(),
    {
        let a = match self.read_direct(input) {
            Ok(a) => a,
            Err(e) => return Err(e),
        };
        let bits = (out.size * 8) as u32;
        let t = popcount_of(&a, bits);
        self.write(&GeneralizedVarNode::Direct(*out), &t, bits)
    }

    fn model_call_other(&mut self, output: &Option<VarNode>, inputs: &Vec<VarNode>, hash: u64) -> (r: Result<(), ModelError>)
        requires
            old(self).wf(),
            forall|i: int| 0 <= i < inputs@.len() ==> vn_sized(#[trigger] inputs@[i]),
            *output matches Some(o) ==> vn_sized(o),
        ensures
            (final(self).view(), r) == spec_call_other(old(self).view(), *output, inputs@, hash),
            final(self).wf(),
    {
        let ghost v0 = self.view();
        let n = inputs.len();
        let mut k: usize = 0;
        while k < n
            invariant
                k <= n == inputs@.len(),
                v0 == old(self).view(),
                forall|i: int| 0 <= i < inputs@.len() ==> vn_sized(#[trigger] inputs@[i]),
                self.wf(),
                spec_read_all(v0, inputs@, k as nat) == (self.view(), Ok::<(), ModelError>(())),
            decreases n - k,
        {
            assert(vn_sized(inputs@[k as int]));
            let ghost before = self.view();
            match self.read_direct(&inputs[k]) {
                Ok(_) => {},
                Err(e) => {
                    proof {
                        assert(spec_read_all(v0, inputs@, (k + 1) as nat)
                            == unit(spec_read_and_track(before, GeneralizedVarNode::Direct(inputs@[k as int]))));
                        assert(spec_read_all(v0, inputs@, (k + 1) as nat) == (self.view(), Err::<(), ModelError>(e)));
                        lemma_read_all_stops(v0, inputs@, (k + 1) as nat, inputs@.len());
                    }
                    return Err(e);
                },
            }
            k = k + 1;
        }
        let size = self.spaces[self.code_space].index_size_bytes as usize;
        let hv = VarNode { space_index: CONST_SPACE_INDEX, offset: hash, size };
        match self.write_metadata(&hv, &ones_of(size), size as u32) {
            Ok(_) => {},
            Err(e) => return Err(e),
        }
        self.branch.set_last(&GeneralizedVarNode::Direct(hv));
        match output {
            None => Ok(()),
            Some(out) => {
                match self.write_metadata(out, &ones_of(out.size), out.size as u32) {
                    Ok(_) => {},
                    Err(e) => return Err(e),
                }
                let bits = (out.size * 8) as u32;
                self.write(&GeneralizedVarNode::Direct(*out), &Term::Const { value: hash, bits }, bits)
            },
        }
    }

    /// Models `op` on top of the trace, with `hash` standing for a
    /// user-defined operation.
    pub fn model_pcode_op_with_hash(&mut self, op: &PcodeOperation, hash: u64) -> (r: Result<(), ModelError>)
        requires
            old(self).wf(),
            model_op_ok(*op),
        ensures
            (final(self).view(), r) == spec_model_op(old(self).view(), *op, hash),
            final(self).wf(),
    {
        match op {
            PcodeOperation::Copy { input, output } => self.model_copy(input, output),
            PcodeOperation::IntZExt { input, output } => self.model_un(input, output, UnKind::ZeroExtend),
            PcodeOperation::IntSExt { input, output } => self.model_un(input, output, UnKind::SignExtend),
            PcodeOperation::Store { output, input } => {
                let a = match self.read_direct(input) {
                    Ok(a) => a,
                    Err(e) => return Err(e),
                };
                self.write(&GeneralizedVarNode::Indirect(*output), &a, (input.size * 8) as u32)
            },
            PcodeOperation::Load { input, output } => {
                let a = match self.read_and_track(&GeneralizedVarNode::Indirect(*input)) {
                    Ok(a) => a,
                    Err(e) => return Err(e),
                };
                self.write(&GeneralizedVarNode::Direct(*output), &a, (input.access_size_bytes * 8) as u32)
            },
            PcodeOperation::IntAdd { input0, input1, output } => self.model_bin(input0, input1, output, BinKind::Add),
            PcodeOperation::IntSub { input0, input1, output } => self.model_bin(input0, input1, output, BinKind::Sub),
            PcodeOperation::IntAnd { input0, input1, output } => self.model_bin(input0, input1, output, BinKind::And),
            PcodeOperation::IntXor { input0, input1, output } => self.model_bin(input0, input1, output, BinKind::Xor),
            PcodeOperation::IntOr { input0, input1, output } => self.model_bin(input0, input1, output, BinKind::Or),
            PcodeOperation::IntNegate { input, output } => self.model_un(input, output, UnKind::Negate),
            PcodeOperation::IntMult { input0, input1, output } => self.model_bin(input0, input1, output, BinKind::Mult),
            PcodeOperation::IntDiv { input0, input1, output } => self.model_bin(input0, input1, output, BinKind::Div),
            PcodeOperation::IntSignedDiv { input0, input1, output } => self.model_bin(input0, input1, output, BinKind::SignedDiv),
            PcodeOperation::IntRem { input0, input1, output } => self.model_bin(input0, input1, output, BinKind::Rem),
            PcodeOperation::IntSignedRem { input0, input1, output } => self.model_bin(input0, input1, output, BinKind::SignedRem),
            PcodeOperation::IntRightShift { input0, input1, output } => self.model_bin(input0, input1, output, BinKind::RightShift),
            PcodeOperation::IntSignedRightShift { input0, input1, output } => self.model_bin(input0, input1, output, BinKind::SignedRightShift),
            PcodeOperation::IntLeftShift { input0, input1, output } => self.model_bin(input0, input1, output, BinKind::LeftShift),
            PcodeOperation::IntCarry { input0, input1, output } => self.model_bin(input0, input1, output, BinKind::Carry),
            PcodeOperation::IntSignedCarry { input0, input1, output } => self.model_bin(input0, input1, output, BinKind::SignedCarry),
            PcodeOperation::IntSignedBorrow { input0, input1, output } => self.model_bin(input0, input1, output, BinKind::SignedBorrow),
            PcodeOperation::Int2Comp { input, output } => self.model_un(input, output, UnKind::TwosComplement),
            PcodeOperation::IntSignedLess { input0, input1, output } => self.model_bin(input0, input1, output, BinKind::SignedLess),
            PcodeOperation::IntSignedLessEqual { input0, input1, output } => self.model_bin(input0, input1, output, BinKind::SignedLessEqual),
            PcodeOperation::IntLess { input0, input1, output } => self.model_bin(input0, input1, output, BinKind::Less),
            PcodeOperation::IntLessEqual { input0, input1, output } => self.model_bin(input0, input1, output, BinKind::LessEqual),
            PcodeOperation::IntEqual { input0, input1, output } => self.model_bin(input0, input1, output, BinKind::Equal),
            PcodeOperation::IntNotEqual { input0, input1, output } => self.model_bin(input0, input1, output, BinKind::NotEqual),
            PcodeOperation::BoolAnd { input0, input1, output } => self.model_bin(input0, input1, output, BinKind::BoolAnd),
            PcodeOperation::BoolNegate { input, output } => self.model_un(input, output, UnKind::BoolNegate),
            PcodeOperation::BoolOr { input0, input1, output } => self.model_bin(input0, input1, output, BinKind::BoolOr),
            PcodeOperation::BoolXor { input0, input1, output } => self.model_bin(input0, input1, output, BinKind::BoolXor),
            PcodeOperation::PopCount { input, output } => self.model_popcount(input, output),
            PcodeOperation::Branch { input } => self.model_branch(&GeneralizedVarNode::Direct(*input), input),
            PcodeOperation::BranchInd { input } => self.model_branch(&GeneralizedVarNode::Indirect(*input), &input.pointer_location),
            PcodeOperation::Call { dest } => self.model_branch(&GeneralizedVarNode::Direct(*dest), dest),
            PcodeOperation::CBranch { input0, input1 } => self.model_cbranch(input0, input1),
            PcodeOperation::SubPiece { input0, input1, output } => self.model_subpiece(input0, input1, output),
            PcodeOperation::CallOther { output, inputs } => self.model_call_other(output, inputs, hash),
            PcodeOperation::CallInd { input } => self.model_branch(&GeneralizedVarNode::Indirect(*input), &input.pointer_location),
            PcodeOperation::Return { input } => self.model_branch(&GeneralizedVarNode::Indirect(*input), &input.pointer_location),
            _ => Err(ModelError::UnmodeledInstruction),
        }
    }

    /// Models `op` on top of the trace. A user-defined operation is stood
    /// for by the hash of its inputs (`op_hash`).
    pub fn model_pcode_op(&mut self, op: &PcodeOperation) -> (r: Result<(), ModelError>)
        requires
            old(self).wf(),
            model_op_ok(*op),
        ensures
            (final(self).view(), r) == spec_model_op(old(self).view(), *op, op_hash(*op)),
            final(self).wf(),
    {
        let hash = match op {
            PcodeOperation::CallOther { inputs, .. } => hash_inputs(inputs),
            _ => 0,
        };
        self.model_pcode_op_with_hash(op, hash)
    }
}

/// `b` continues `a`: the spaces and the original state are the same, and
/// the store log, the locations read and written and the conditional
/// branches of `a` are prefixes of those of `b`.
pub open spec fn extends(a: TraceView, b: TraceView) -> bool {
    &&& b.spaces == a.spaces
    &&& b.code_space == a.code_space
    &&& b.original == a.original
    &&& a.log.len() <= b.log.len()
    &&& forall|i: int| 0 <= i < a.log.len() ==> #[trigger] b.log[i] == a.log[i]
    &&& a.inputs.len() <= b.inputs.len()
    &&& forall|i: int| 0 <= i < a.inputs.len() ==> #[trigger] b.inputs[i] == a.inputs[i]
    &&& a.outputs.len() <= b.outputs.len()
    &&& forall|i: int| 0 <= i < a.outputs.len() ==> #[trigger] b.outputs[i] == a.outputs[i]
    &&& a.conds.len() <= b.conds.len()
    &&& forall|i: int| 0 <= i < a.conds.len() ==> #[trigger] b.conds[i] == a.conds[i]
}

pub proof fn lemma_stores_extend(
    log: Seq<Store>,
    space: usize,
    meta: bool,
    offset: Term,
    offset_bits: u32,
    value: Term,
    bits: u32,
    w: u32,
    big: bool,
    k: nat,
)
    ensures
        stores_of(log, space, meta, offset, offset_bits, value, bits, w, big, k).len() == log.len() + k,
        forall|i: int| 0 <= i < log.len() ==> #[trigger] stores_of(log, space, meta, offset, offset_bits, value, bits, w, big, k)[i] == log[i],
    decreases k,
{
    if k > 0 {
        lemma_stores_extend(log, space, meta, offset, offset_bits, value, bits, w, big, (k - 1) as nat);
    }
}

proof fn lemma_write_array_extends(v: TraceView, space: usize, d: SpaceDesc, meta: bool, offset: Term, offset_bits: u32, value: Term, bits: u32)
    ensures
        extends(v, spec_write_array(v, space, d, meta, offset, offset_bits, value, bits).0),
{
    let w: u32 = if meta { 1 } else { 8 };
    lemma_stores_extend(v.log, space, meta, offset, offset_bits, value, bits, w, d.big_endian, (bits / w) as nat);
}

proof fn lemma_write_varnode_extends(v: TraceView, dest: VarNode, value: Term, bits: u32)
    ensures
        extends(v, spec_write_varnode(v, dest, value, bits).0),
{
    if let Some(d) = space_of(v, dest.space_index) {
        lemma_write_array_extends(v, dest.space_index, d, false, cst(dest.offset, index_bits(d)), index_bits(d), value, bits);
    }
}

proof fn lemma_write_metadata_extends(v: TraceView, dest: VarNode, value: Term, bits: u32)
    ensures
        extends(v, spec_write_metadata(v, dest, value, bits).0),
{
    if let Some(d) = space_of(v, dest.space_index) {
        lemma_write_array_extends(v, dest.space_index, d, true, cst(dest.offset, index_bits(d)), index_bits(d), value, bits);
    }
}

proof fn lemma_write_extends(v: TraceView, g: GeneralizedVarNode, value: Term, bits: u32)
    ensures
        extends(v, spec_write(v, g, value, bits).0),
{
    match g {
        GeneralizedVarNode::Direct(d) => {
            let v1 = with_output(v, ResolvedVarnode::Direct(d));
            lemma_write_varnode_extends(v1, d, value, bits);
        },
        GeneralizedVarNode::Indirect(ind) => {
            let (v1, r) = spec_read_and_track(v, GeneralizedVarNode::Direct(ind.pointer_location));
            if let Ok(p) = r {
                let v2 = with_output(v1, ResolvedVarnode::Indirect {
                    pointer: p,
                    pointer_location: ind.pointer_location,
                    access_size_bytes: ind.access_size_bytes,
                    pointer_space_idx: ind.pointer_space_index,
                });
                if let Some(d) = space_of(v2, ind.pointer_space_index) {
                    if let Ok(q) = spec_read_varnode(v2, ind.pointer_location) {
                        lemma_write_array_extends(v2, ind.pointer_space_index, d, false, q, (ind.pointer_location.size * 8) as u32, value, bits);
                    }
                }
                assert(extends(v2, spec_write_indirect(v2, ind, value, bits).0));
            }
        },
    }
}

proof fn lemma_then_write_extends(v: TraceView, s: Step<Term>, out: GeneralizedVarNode, bits: u32)
    requires
        extends(v, s.0),
    ensures
        extends(v, spec_then_write(s, out, bits).0),
{
    if let Ok(a) = s.1 {
        lemma_write_extends(s.0, out, a, bits);
    }
}

proof fn lemma_read_all_extends(v: TraceView, inputs: Seq<VarNode>, k: nat)
    ensures
        extends(v, spec_read_all(v, inputs, k).0),
    decreases k,
{
    if k > 0 {
        lemma_read_all_extends(v, inputs, (k - 1) as nat);
    }
}

/// Modelling an operation only adds: whatever the operation and whether it
/// succeeds, the spaces and the original state stay as they were, and the
/// stores, the locations read and written and the conditional branches
/// recorded so far stay, in their order, at the front of what is recorded
/// after it; so a term read earlier keeps its meaning.
pub proof fn lemma_model_op_extends(v: TraceView, op: PcodeOperation, hash: u64)
    ensures
        extends(v, spec_model_op(v, op, hash).0),
{
    match op {
        PcodeOperation::Copy { input, output } => {
            let (v1, r0) = spec_read_and_track(v, GeneralizedVarNode::Direct(input));
            if let Ok(a) = r0 {
                if let Ok(m) = spec_read_original_metadata(v1, input) {
                    lemma_write_metadata_extends(v1, output, m, input.size as u32);
                    let (v2, r2) = spec_write_metadata(v1, output, m, input.size as u32);
                    lemma_write_extends(v2, GeneralizedVarNode::Direct(output), a, (input.size * 8) as u32);
                }
            }
        },
        PcodeOperation::Store { output, input } => {
            lemma_then_write_extends(v, spec_read_and_track(v, GeneralizedVarNode::Direct(input)), GeneralizedVarNode::Indirect(output), (input.size * 8) as u32);
        },
        PcodeOperation::Load { input, output } => {
            lemma_then_write_extends(v, spec_read_and_track(v, GeneralizedVarNode::Indirect(input)), GeneralizedVarNode::Direct(output), (input.access_size_bytes * 8) as u32);
        },
        PcodeOperation::IntZExt { input, output } => lemma_un_extends(v, input, output, UnKind::ZeroExtend),
        PcodeOperation::IntSExt { input, output } => lemma_un_extends(v, input, output, UnKind::SignExtend),
        PcodeOperation::IntNegate { input, output } => lemma_un_extends(v, input, output, UnKind::Negate),
        PcodeOperation::Int2Comp { input, output } => lemma_un_extends(v, input, output, UnKind::TwosComplement),
        PcodeOperation::BoolNegate { input, output } => lemma_un_extends(v, input, output, UnKind::BoolNegate),
        PcodeOperation::IntAdd { input0, input1, output } => lemma_bin_extends(v, input0, input1, output, BinKind::Add),
        PcodeOperation::IntSub { input0, input1, output } => lemma_bin_extends(v, input0, input1, output, BinKind::Sub),
        PcodeOperation::IntAnd { input0, input1, output } => lemma_bin_extends(v, input0, input1, output, BinKind::And),
        PcodeOperation::IntXor { input0, input1, output } => lemma_bin_extends(v, input0, input1, output, BinKind::Xor),
        PcodeOperation::IntOr { input0, input1, output } => lemma_bin_extends(v, input0, input1, output, BinKind::Or),
        PcodeOperation::IntMult { input0, input1, output } => lemma_bin_extends(v, input0, input1, output, BinKind::Mult),
        PcodeOperation::IntDiv { input0, input1, output } => lemma_bin_extends(v, input0, input1, output, BinKind::Div),
        PcodeOperation::IntSignedDiv { input0, input1, output } => lemma_bin_extends(v, input0, input1, output, BinKind::SignedDiv),
        PcodeOperation::IntRem { input0, input1, output } => lemma_bin_extends(v, input0, input1, output, BinKind::Rem),
        PcodeOperation::IntSignedRem { input0, input1, output } => lemma_bin_extends(v, input0, input1, output, BinKind::SignedRem),
        PcodeOperation::IntRightShift { input0, input1, output } => lemma_bin_extends(v, input0, input1, output, BinKind::RightShift),
        PcodeOperation::IntSignedRightShift { input0, input1, output } => lemma_bin_extends(v, input0, input1, output, BinKind::SignedRightShift),
        PcodeOperation::IntLeftShift { input0, input1, output } => lemma_bin_extends(v, input0, input1, output, BinKind::LeftShift),
        PcodeOperation::IntCarry { input0, input1, output } => lemma_bin_extends(v, input0, input1, output, BinKind::Carry),
        PcodeOperation::IntSignedCarry { input0, input1, output } => lemma_bin_extends(v, input0, input1, output, BinKind::SignedCarry),
        PcodeOperation::IntSignedBorrow { input0, input1, output } => lemma_bin_extends(v, input0, input1, output, BinKind::SignedBorrow),
        PcodeOperation::IntSignedLess { input0, input1, output } => lemma_bin_extends(v, input0, input1, output, BinKind::SignedLess),
        PcodeOperation::IntSignedLessEqual { input0, input1, output } => lemma_bin_extends(v, input0, input1, output, BinKind::SignedLessEqual),
        PcodeOperation::IntLess { input0, input1, output } => lemma_bin_extends(v, input0, input1, output, BinKind::Less),
        PcodeOperation::IntLessEqual { input0, input1, output } => lemma_bin_extends(v, input0, input1, output, BinKind::LessEqual),
        PcodeOperation::IntEqual { input0, input1, output } => lemma_bin_extends(v, input0, input1, output, BinKind::Equal),
        PcodeOperation::IntNotEqual { input0, input1, output } => lemma_bin_extends(v, input0, input1, output, BinKind::NotEqual),
        PcodeOperation::BoolAnd { input0, input1, output } => lemma_bin_extends(v, input0, input1, output, BinKind::BoolAnd),
        PcodeOperation::BoolOr { input0, input1, output } => lemma_bin_extends(v, input0, input1, output, BinKind::BoolOr),
        PcodeOperation::BoolXor { input0, input1, output } => lemma_bin_extends(v, input0, input1, output, BinKind::BoolXor),
        PcodeOperation::PopCount { input, output } => {
            let (v1, r0) = spec_read_and_track(v, GeneralizedVarNode::Direct(input));
            if let Ok(a) = r0 {
                let bits = (output.size * 8) as u32;
                lemma_write_extends(v1, GeneralizedVarNode::Direct(output), popcount_term(a, bits as nat, bits), bits);
            }
        },
        PcodeOperation::SubPiece { input0, input1, output } => {
            let (v1, r0) = spec_read_and_track(v, GeneralizedVarNode::Direct(input0));
            if let Ok(a) = r0 {
                let low = input1.offset as u32;
                let input_size = (input0.size - low) as u32;
                let output_size = output.size as u32;
                let size = if input_size < output_size { input_size } else { output_size };
                let piece = Term::Extract { high: ((low + size) * 8 - 1) as u32, low: (low * 8) as u32, arg: Box::new(a) };
                lemma_write_extends(v1, GeneralizedVarNode::Direct(output), Term::ZeroExt { bits: ((output_size - size) * 8) as u32, arg: Box::new(piece) }, (output_size * 8) as u32);
                lemma_write_extends(v1, GeneralizedVarNode::Direct(output), piece, (size * 8) as u32);
            }
        },
        PcodeOperation::CBranch { input0, input1 } => {
            let v1 = TraceView {
                conds: v.conds.push(BlockConditionalBranchInfo { condition: input1, destination: GeneralizedVarNode::Direct(input0) }),
                ..v
            };
            assert(extends(v, v1));
        },
        PcodeOperation::CallOther { output, inputs } => {
            lemma_read_all_extends(v, inputs@, inputs@.len());
            let (v1, r) = spec_read_all(v, inputs@, inputs@.len());
            let hv = hash_varnode_of(v1, hash);
            lemma_write_metadata_extends(v1, hv, ones(hv.size as nat), hv.size as u32);
            let (v2, r2) = spec_write_metadata(v1, hv, ones(hv.size as nat), hv.size as u32);
            let v3 = TraceView { last: BlockEndBehavior::UnconditionalBranch(GeneralizedVarNode::Direct(hv)), ..v2 };
            if let Some(out) = output {
                lemma_write_metadata_extends(v3, out, ones(out.size as nat), out.size as u32);
                let (v4, r4) = spec_write_metadata(v3, out, ones(out.size as nat), out.size as u32);
                lemma_write_extends(v4, GeneralizedVarNode::Direct(out), cst(hash, (out.size * 8) as u32), (out.size * 8) as u32);
            }
        },
        _ => {},
    }
}

proof fn lemma_bin_extends(v: TraceView, in0: VarNode, in1: VarNode, out: VarNode, k: BinKind)
    ensures
        extends(v, spec_bin(v, in0, in1, out, k).0),
{
    let (v1, r0) = spec_read_and_track(v, GeneralizedVarNode::Direct(in0));
    if let Ok(a) = r0 {
        let (v2, r1) = spec_read_and_track(v1, GeneralizedVarNode::Direct(in1));
        if let Ok(b) = r1 {
            let (t, bits) = bin_value(k, a, b, (in0.size * 8) as u32, (in1.size * 8) as u32, out.size);
            lemma_write_extends(v2, GeneralizedVarNode::Direct(out), t, bits);
        }
    }
}

proof fn lemma_un_extends(v: TraceView, input: VarNode, out: VarNode, k: UnKind)
    ensures
        extends(v, spec_un(v, input, out, k).0),
{
    let (v1, r0) = spec_read_and_track(v, GeneralizedVarNode::Direct(input));
    if let Ok(a) = r0 {
        let (t, bits) = un_value(k, a, (input.size * 8) as u32, input.size, out.size);
        lemma_write_extends(v1, GeneralizedVarNode::Direct(out), t, bits);
    }
}

/// For a comparison operation, whether it holds of the `w`-bit patterns
/// `x` (first input) and `y` (second input): unsigned `<` and `<=`, signed
/// `<` and `<=`, equality and inequality; `None` for other operations.
pub open spec fn comparison_truth(op: PcodeOperation, x: int, y: int, w: nat) -> Option<bool> {
    match op {
        PcodeOperation::IntLess { .. } => Some(x < y),
        PcodeOperation::IntLessEqual { .. } => Some(x <= y),
        PcodeOperation::IntSignedLess { .. } => Some(to_signed(x, w) < to_signed(y, w)),
        PcodeOperation::IntSignedLessEqual { .. } => Some(to_signed(x, w) <= to_signed(y, w)),
        PcodeOperation::IntEqual { .. } => Some(x == y),
        PcodeOperation::IntNotEqual { .. } => Some(x != y),
        _ => None,
    }
}

/// The inputs and the output of a comparison operation.
pub open spec fn comparison_operands(op: PcodeOperation) -> (VarNode, VarNode, VarNode) {
    match op {
        PcodeOperation::IntLess { input0, input1, output } => (input0, input1, output),
        PcodeOperation::IntLessEqual { input0, input1, output } => (input0, input1, output),
        PcodeOperation::IntSignedLess { input0, input1, output } => (input0, input1, output),
        PcodeOperation::IntSignedLessEqual { input0, input1, output } => (input0, input1, output),
        PcodeOperation::IntEqual { input0, input1, output } => (input0, input1, output),
        PcodeOperation::IntNotEqual { input0, input1, output } => (input0, input1, output),
        _ => arbitrary(),
    }
}

/// Modelling a comparison on a trace reads its two inputs, in order, and
/// writes to its output a flag over the terms read that is 1 exactly when
/// the comparison holds of the values those terms take (so INT_LESS is 0 on
/// equal inputs) and 0 otherwise.
pub proof fn lemma_model_comparison(v: TraceView, op: PcodeOperation, hash: u64)
    requires
        comparison_truth(op, 0, 0, 0) is Some,
    ensures
        ({
            let (in0, in1, out) = comparison_operands(op);
            let (v1, r0) = spec_read_and_track(v, GeneralizedVarNode::Direct(in0));
            let (v2, r1) = spec_read_and_track(v1, GeneralizedVarNode::Direct(in1));
            let w = (in0.size * 8) as u32;
            (r0 is Ok && r1 is Ok) ==> exists|t: Term, bits: u32|
                spec_model_op(v, op, hash) == spec_write(v2, GeneralizedVarNode::Direct(out), t, bits)
                && forall|x: int, y: int| #[trigger] flag_meaning(t, r0->Ok_0, r1->Ok_0, x, y, w as nat)
                    == Some(if comparison_truth(op, x, y, w as nat)->0 { 1int } else { 0 })
        }),
{
    let (in0, in1, out) = comparison_operands(op);
    let (v1, r0) = spec_read_and_track(v, GeneralizedVarNode::Direct(in0));
    let (v2, r1) = spec_read_and_track(v1, GeneralizedVarNode::Direct(in1));
    let w = (in0.size * 8) as u32;
    let w1 = (in1.size * 8) as u32;
    if let (Ok(a), Ok(b)) = (r0, r1) {
        let k = match op {
            PcodeOperation::IntLess { .. } => BinKind::Less,
            PcodeOperation::IntLessEqual { .. } => BinKind::LessEqual,
            PcodeOperation::IntSignedLess { .. } => BinKind::SignedLess,
            PcodeOperation::IntSignedLessEqual { .. } => BinKind::SignedLessEqual,
            PcodeOperation::IntEqual { .. } => BinKind::Equal,
            _ => BinKind::NotEqual,
        };
        let (t, bits) = bin_value(k, a, b, w, w1, out.size);
        assert(spec_model_op(v, op, hash) == spec_write(v2, GeneralizedVarNode::Direct(out), t, bits));
        assert forall|x: int, y: int| #[trigger] flag_meaning(t, a, b, x, y, w as nat)
            == Some(if comparison_truth(op, x, y, w as nat)->0 { 1int } else { 0 }) by {
            lemma_flag_meanings(a, b, w, out.size, x, y);
        }
    }
}

} // verus!
