//! The program counter of the bounded model checker: a machine address and a
//! p-code index.
use vstd::prelude::*;
use vstd::std_specs::convert::FromSpecImpl;

verus! {

pub type PcodeMachineAddress = u64;

pub type PcodeOffset = u8;

/// A concrete program counter: the machine address, then the p-code index.
#[derive(Copy, Clone, Debug, Eq, PartialEq, Structural)]
pub struct ConcretePcodeAddress(PcodeMachineAddress, PcodeOffset);

impl ConcretePcodeAddress {
    /// The machine address.
    pub closed spec fn spec_machine(self) -> PcodeMachineAddress {
        self.0
    }

    /// The p-code index within the instruction.
    pub closed spec fn spec_pcode(self) -> PcodeOffset {
        self.1
    }
}

impl From<PcodeMachineAddress> for ConcretePcodeAddress {
    /// The first p-code operation of the instruction at `value`.
    fn from(value: PcodeMachineAddress) -> (r: Self) {
        ConcretePcodeAddress(value, 0)
    }
}

impl FromSpecImpl<PcodeMachineAddress> for ConcretePcodeAddress {
    open spec fn obeys_from_spec() -> bool {
        true
    }

    closed spec fn from_spec(v: PcodeMachineAddress) -> Self {
        ConcretePcodeAddress(v, 0)
    }
}

} // verus!
