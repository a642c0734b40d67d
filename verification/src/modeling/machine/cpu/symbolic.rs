//! The program counter of a modelled machine as terms: a 64-bit machine
//! address and an 8-bit p-code offset within the instruction.
use crate::modeling::machine::cpu::concrete::ConcretePcodeAddress;
use crate::modeling::machine::memory::{MemoryState, MemoryView, spec_mem_read};
use crate::modeling::state::{ModelError, vn_sized};
use crate::modeling::term::{BinaryOp, Predicate, Term, bin, cst, ite};
use crate::sleigh::{CONST_SPACE_INDEX, GeneralizedVarNode, PcodeOperation, VarNode};
use vstd::prelude::*;

verus! {

/// A symbolic program counter.
#[derive(Debug, PartialEq, Eq)]
pub struct SymbolicPcodeAddress {
    pub machine: Term,
    pub pcode: Term,
}

/// The width of a machine address, in bits.
pub const MACHINE_SIZE_BITS: u32 = 64;

/// The width of a p-code offset, in bits.
pub const PCODE_SIZE_BITS: u32 = 8;

/// The address `offset` p-code operations further in the same instruction.
pub open spec fn spec_add_pcode_offset(pc: SymbolicPcodeAddress, offset: u64) -> SymbolicPcodeAddress {
    SymbolicPcodeAddress { machine: pc.machine, pcode: bin(BinaryOp::Add, pc.pcode, cst(offset, PCODE_SIZE_BITS)) }
}

/// Where a branch to `vn` goes from `pc`: a constant is a p-code offset
/// relative to `pc`, any other varnode names a machine address (p-code
/// offset 0).
pub open spec fn spec_branch_dest(pc: SymbolicPcodeAddress, vn: VarNode) -> SymbolicPcodeAddress {
    if vn.space_index == CONST_SPACE_INDEX {
        spec_add_pcode_offset(pc, vn.offset)
    } else {
        SymbolicPcodeAddress { machine: cst(vn.offset, MACHINE_SIZE_BITS), pcode: cst(0, PCODE_SIZE_BITS) }
    }
}

/// The program counter after `op`, in the memory `m` before `op`: direct
/// branches and calls go to their destination; a conditional branch goes
/// there when bit 0 of its condition is 1 and to the next p-code operation
/// otherwise; indirect branches, calls and returns go to the 64-bit machine
/// address they read (a target of another width is an error); every other
/// operation goes to the next p-code operation.
pub open spec fn spec_apply_control_flow(pc: SymbolicPcodeAddress, m: MemoryView, op: PcodeOperation) -> Result<SymbolicPcodeAddress, ModelError> {
    match op {
        PcodeOperation::Branch { input } => Ok(spec_branch_dest(pc, input)),
        PcodeOperation::Call { dest } => Ok(spec_branch_dest(pc, dest)),
        PcodeOperation::CBranch { input0, input1 } => match spec_mem_read(m, GeneralizedVarNode::Direct(input1)) {
            Err(e) => Err(e),
            Ok(c) => {
                let fall = spec_add_pcode_offset(pc, 1);
                let dest = spec_branch_dest(pc, input0);
                let bit = Term::Extract { high: 0, low: 0, arg: Box::new(c) };
                Ok(SymbolicPcodeAddress {
                    machine: ite(Predicate::Eq, bit, cst(1, 1), dest.machine, fall.machine),
                    pcode: ite(Predicate::Eq, bit, cst(1, 1), dest.pcode, fall.pcode),
                })
            },
        },
        PcodeOperation::BranchInd { input } => indirect_dest(m, input),
        PcodeOperation::CallInd { input } => indirect_dest(m, input),
        PcodeOperation::Return { input } => indirect_dest(m, input),
        _ => Ok(spec_add_pcode_offset(pc, 1)),
    }
}

/// The machine address read through `input`, at p-code offset 0.
pub open spec fn indirect_dest(m: MemoryView, input: crate::sleigh::IndirectVarNode) -> Result<SymbolicPcodeAddress, ModelError> {
    match spec_mem_read(m, GeneralizedVarNode::Indirect(input)) {
        Err(e) => Err(e),
        Ok(d) => if input.access_size_bytes * 8 != MACHINE_SIZE_BITS {
            Err(ModelError::InvalidBranchTargetSize)
        } else {
            Ok(SymbolicPcodeAddress { machine: d, pcode: cst(0, PCODE_SIZE_BITS) })
        },
    }
}

/// The varnodes that `op` reads to decide where control goes are sized.
pub open spec fn control_flow_ok(op: PcodeOperation) -> bool {
    match op {
        PcodeOperation::CBranch { input1, .. } => vn_sized(input1),
        PcodeOperation::BranchInd { input } => vn_sized(input.pointer_location),
        PcodeOperation::CallInd { input } => vn_sized(input.pointer_location),
        PcodeOperation::Return { input } => vn_sized(input.pointer_location),
        _ => true,
    }
}

impl SymbolicPcodeAddress {
    /// The initial program counter of the machine state named `base`.
    pub open spec fn fresh_spec(base: u64) -> Self {
        SymbolicPcodeAddress { machine: Term::InitialPc { base, pcode: false }, pcode: Term::InitialPc { base, pcode: true } }
    }

    /// The concrete address `addr` as terms.
    pub open spec fn symbolize_spec(addr: ConcretePcodeAddress) -> Self {
        SymbolicPcodeAddress { machine: cst(addr.machine, MACHINE_SIZE_BITS), pcode: cst(addr.pcode as u64, PCODE_SIZE_BITS) }
    }

    /// The initial program counter of the machine state named `base`.
    pub fn fresh(base: u64) -> (r: Self)
        ensures
            r == Self::fresh_spec(base),
    {
        SymbolicPcodeAddress { machine: Term::InitialPc { base, pcode: false }, pcode: Term::InitialPc { base, pcode: true } }
    }

    /// The concrete address `addr` as terms.
    pub fn symbolize(addr: &ConcretePcodeAddress) -> (r: Self)
        ensures
            r == Self::symbolize_spec(*addr),
    {
        SymbolicPcodeAddress {
            machine: Term::Const { value: addr.machine, bits: MACHINE_SIZE_BITS },
            pcode: Term::Const { value: addr.pcode as u64, bits: PCODE_SIZE_BITS },
        }
    }

    /// A copy of the address.
    pub fn copy(&self) -> (r: Self)
        ensures
            r == *self,
    {
        SymbolicPcodeAddress { machine: self.machine.copy(), pcode: self.pcode.copy() }
    }

    fn add_pcode_offset(&self, offset: u64) -> (r: Self)
        ensures
            r == spec_add_pcode_offset(*self, offset),
    {
        SymbolicPcodeAddress {
            machine: self.machine.copy(),
            pcode: Term::Binary {
                op: BinaryOp::Add,
                lhs: Box::new(self.pcode.copy()),
                rhs: Box::new(Term::Const { value: offset, bits: PCODE_SIZE_BITS }),
            },
        }
    }

    /// The next p-code operation of the same instruction.
    pub fn increment_pcode(&self) -> (r: Self)
        ensures
            r == spec_add_pcode_offset(*self, 1),
    {
        self.add_pcode_offset(1)
    }

    /// Where a branch to `vn` goes from this address.
    pub fn interpret_branch_dest_varnode(&self, vn: &VarNode) -> (r: Self)
        ensures
            r == spec_branch_dest(*self, *vn),
    {
        if vn.space_index == CONST_SPACE_INDEX {
            self.add_pcode_offset(vn.offset)
        } else {
            SymbolicPcodeAddress {
                machine: Term::Const { value: vn.offset, bits: MACHINE_SIZE_BITS },
                pcode: Term::Const { value: 0, bits: PCODE_SIZE_BITS },
            }
        }
    }

    /// The program counter after `op`, in the memory before `op`.
    pub fn apply_op(&self, memory: &MemoryState, op: &PcodeOperation) -> (r: Result<Self, ModelError>)
        requires
            memory.wf(),
            control_flow_ok(*op),
        ensures
            r == spec_apply_control_flow(*self, memory.view(), *op),
    {
        match op {
            PcodeOperation::Branch { input } => Ok(self.interpret_branch_dest_varnode(input)),
            PcodeOperation::Call { dest } => Ok(self.interpret_branch_dest_varnode(dest)),
            PcodeOperation::CBranch { input0, input1 } => {
                let c = match memory.read(&GeneralizedVarNode::Direct(*input1)) {
                    Ok(c) => c,
                    Err(e) => return Err(e),
                };
                let fall = self.increment_pcode();
                let dest = self.interpret_branch_dest_varnode(input0);
                let bit = Term::Extract { high: 0, low: 0, arg: Box::new(c) };
                let machine = Term::Ite {
                    pred: Predicate::Eq,
                    lhs: Box::new(bit.copy()),
                    rhs: Box::new(Term::Const { value: 1, bits: 1 }),
                    if_true: Box::new(dest.machine),
                    if_false: Box::new(fall.machine),
                };
                let pcode = Term::Ite {
                    pred: Predicate::Eq,
                    lhs: Box::new(bit),
                    rhs: Box::new(Term::Const { value: 1, bits: 1 }),
                    if_true: Box::new(dest.pcode),
                    if_false: Box::new(fall.pcode),
                };
                Ok(SymbolicPcodeAddress { machine, pcode })
            },
            PcodeOperation::BranchInd { input } | PcodeOperation::CallInd { input } | PcodeOperation::Return { input } => {
                let d = match memory.read(&GeneralizedVarNode::Indirect(*input)) {
                    Ok(d) => d,
                    Err(e) => return Err(e),
                };
                if input.access_size_bytes as u64 != 8 {
                    return Err(ModelError::InvalidBranchTargetSize);
                }
                Ok(SymbolicPcodeAddress { machine: d, pcode: Term::Const { value: 0, bits: PCODE_SIZE_BITS } })
            },
            _ => Ok(self.increment_pcode()),
        }
    }
}

} // verus!
