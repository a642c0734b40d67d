//! A concrete program-counter value: a machine address and the index of a
//! p-code operation within the instruction at that address.
use crate::sleigh::{PcodeOperation, VarNode};
use vstd::prelude::*;
use vstd::std_specs::convert::FromSpecImpl;

verus! {

/// A machine address: the address of an instruction.
pub type PcodeMachineAddress = u64;

/// The index of a p-code operation within an instruction.
pub type PcodeOffset = u8;

/// A concrete program counter: `machine` selects the instruction, `pcode` the
/// p-code operation within it.
#[derive(Copy, Clone, Debug, Eq, PartialEq, Hash, Ord, PartialOrd, Structural)]
pub struct ConcretePcodeAddress {
    pub machine: PcodeMachineAddress,
    pub pcode: PcodeOffset,
}

/// The p-code index `pcode + off`, wrapping modulo 256.
pub open spec fn wrapped_pcode(pcode: PcodeOffset, off: PcodeOffset) -> PcodeOffset {
    ((pcode + off) % 256) as u8
}

impl ConcretePcodeAddress {
    /// The same address with `off` added to the p-code index (wrapping); the
    /// machine address never changes.
    pub open spec fn spec_add_pcode_offset(self, off: PcodeOffset) -> Self {
        ConcretePcodeAddress { machine: self.machine, pcode: wrapped_pcode(self.pcode, off) }
    }

    /// The next p-code operation of the same instruction.
    pub fn next_pcode(&self) -> (r: Self)
        ensures
            r == self.spec_add_pcode_offset(1),
    {
        self.add_pcode_offset(1)
    }

    pub fn machine(&self) -> (r: PcodeMachineAddress)
        ensures
            r == self.machine,
    {
        self.machine
    }

    pub fn pcode(&self) -> (r: PcodeOffset)
        ensures
            r == self.pcode,
    {
        self.pcode
    }

    /// Moves the p-code index by `off` (wrapping); a relative p-code branch by
    /// `-1` is an offset of `255`.
    pub fn add_pcode_offset(&self, off: PcodeOffset) -> (r: Self)
        ensures
            r == self.spec_add_pcode_offset(off),
    {
        ConcretePcodeAddress { machine: self.machine, pcode: self.pcode.wrapping_add(off) }
    }

    /// The target of a branch to `vn` taken at `loc`: a constant varnode is a
    /// relative p-code branch (its offset truncated to a p-code offset), any
    /// other varnode names the machine address of the target instruction.
    pub open spec fn spec_resolve_from_varnode(vn: VarNode, loc: ConcretePcodeAddress) -> Self {
        if vn.space_index == crate::sleigh::CONST_SPACE_INDEX {
            loc.spec_add_pcode_offset(vn.offset as u8)
        } else {
            ConcretePcodeAddress { machine: vn.offset, pcode: 0 }
        }
    }

    pub fn resolve_from_varnode(vn: &VarNode, loc: ConcretePcodeAddress) -> (r: Self)
        ensures
            r == Self::spec_resolve_from_varnode(*vn, loc),
    {
        if vn.is_const() {
            loc.add_pcode_offset(vn.offset as u8)
        } else {
            ConcretePcodeAddress { machine: vn.offset, pcode: 0 }
        }
    }
}

impl From<PcodeMachineAddress> for ConcretePcodeAddress {
    fn from(value: PcodeMachineAddress) -> (r: Self) {
        ConcretePcodeAddress { machine: value, pcode: 0 }
    }
}

impl FromSpecImpl<PcodeMachineAddress> for ConcretePcodeAddress {
    open spec fn obeys_from_spec() -> bool {
        true
    }

    open spec fn from_spec(v: PcodeMachineAddress) -> Self {
        ConcretePcodeAddress { machine: v, pcode: 0 }
    }
}

/// A value of `T`, or `Top`: any value at all.
#[derive(Copy, Clone, Debug, Eq, PartialEq, Hash, Structural)]
pub enum FlatLattice<T> {
    Value(T),
    Top,
}

/// The successors of a concrete program counter under one p-code operation,
/// assuming that calls return, that both sides of a conditional branch can be
/// taken, and that indirect branches and returns go anywhere (`Top`).
pub open spec fn flat_successors(
    state: FlatLattice<ConcretePcodeAddress>,
    op: PcodeOperation,
) -> Seq<FlatLattice<ConcretePcodeAddress>> {
    match state {
        FlatLattice::Top => Seq::empty(),
        FlatLattice::Value(addr) => match op {
            PcodeOperation::Branch { input } => seq![
                FlatLattice::Value(ConcretePcodeAddress { machine: input.offset, pcode: 0 }),
            ],
            PcodeOperation::CBranch { input0, .. } => seq![
                FlatLattice::Value(ConcretePcodeAddress::spec_resolve_from_varnode(input0, addr)),
                FlatLattice::Value(addr.spec_add_pcode_offset(1)),
            ],
            PcodeOperation::Return { .. }
            | PcodeOperation::CallInd { .. }
            | PcodeOperation::BranchInd { .. } => seq![FlatLattice::Top],
            _ => seq![FlatLattice::Value(addr.spec_add_pcode_offset(1))],
        },
    }
}

impl FlatLattice<ConcretePcodeAddress> {
    /// The states that follow this one under `op`, in order (for a conditional
    /// branch: the branch target, then the fallthrough).
    pub fn transfer(&self, op: &PcodeOperation) -> (r: Vec<FlatLattice<ConcretePcodeAddress>>)
        ensures
            r@ == flat_successors(*self, *op),
    {
        let mut out: Vec<FlatLattice<ConcretePcodeAddress>> = Vec::new();
        match self {
            FlatLattice::Value(addr) => match op {
                PcodeOperation::Branch { input } => {
                    out.push(FlatLattice::Value(ConcretePcodeAddress::from(input.offset)));
                },
                PcodeOperation::CBranch { input0, .. } => {
                    let dest = ConcretePcodeAddress::resolve_from_varnode(input0, *addr);
                    let fallthrough = addr.next_pcode();
                    out.push(FlatLattice::Value(dest));
                    out.push(FlatLattice::Value(fallthrough));
                },
                PcodeOperation::Return { .. }
                | PcodeOperation::CallInd { .. }
                | PcodeOperation::BranchInd { .. } => {
                    out.push(FlatLattice::Top);
                },
                _ => {
                    out.push(FlatLattice::Value(addr.next_pcode()));
                },
            },
            FlatLattice::Top => {},
        }
        assert(out@ =~= flat_successors(*self, *op));
        out
    }
}

/// The successors of a known program counter `addr`: an operation that
/// does not transfer control (a direct call too, which is assumed to
/// return) leads only to the next p-code operation of the same instruction;
/// a direct branch leads only to the start of the instruction at its target
/// address; a conditional branch leads to its target and then to the next
/// p-code operation; indirect branches, indirect calls and returns lead
/// anywhere. An unknown program counter has no successors.
pub proof fn lemma_successor_laws(addr: ConcretePcodeAddress, op: PcodeOperation)
    ensures
        !(op is Branch || op is CBranch || op is Return || op is CallInd || op is BranchInd)
            ==> flat_successors(FlatLattice::Value(addr), op) == seq![
            FlatLattice::Value(ConcretePcodeAddress { machine: addr.machine, pcode: ((addr.pcode + 1) % 256) as u8 }),
        ],
        op matches PcodeOperation::Branch { input } ==> flat_successors(FlatLattice::Value(addr), op) == seq![
            FlatLattice::Value(ConcretePcodeAddress { machine: input.offset, pcode: 0 }),
        ],
        op is CBranch ==> flat_successors(FlatLattice::Value(addr), op).len() == 2
            && flat_successors(FlatLattice::Value(addr), op)[1]
            == FlatLattice::Value(ConcretePcodeAddress { machine: addr.machine, pcode: ((addr.pcode + 1) % 256) as u8 }),
        (op is Return || op is CallInd || op is BranchInd) ==> flat_successors(FlatLattice::Value(addr), op)
            == seq![FlatLattice::<ConcretePcodeAddress>::Top],
        flat_successors(FlatLattice::Top, op).len() == 0,
{
}

} // verus!
