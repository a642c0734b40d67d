//! The machine model: a machine state is a memory and a program counter,
//! and a p-code operation steps from one machine state to the next.
pub mod cpu;
pub mod memory;

use crate::modeling::machine::cpu::concrete::ConcretePcodeAddress;
use crate::modeling::machine::cpu::symbolic::{SymbolicPcodeAddress, control_flow_ok, spec_apply_control_flow};
use crate::modeling::machine::memory::{MemoryState, MemoryView, memory_op_ok, spec_memory_apply};
use crate::modeling::state::{ModelError, SpaceDesc};
use crate::sleigh::PcodeOperation;
use vstd::prelude::*;

verus! {

/// A modelled machine state.
#[derive(Debug)]
pub struct MachineState {
    pub memory: MemoryState,
    pub pc: SymbolicPcodeAddress,
}

/// The machine state after `op`: the memory as `spec_memory_apply` gives
/// it, and the program counter as `spec_apply_control_flow` gives it from
/// the memory before `op`. A failure of the memory step comes first.
pub open spec fn spec_machine_apply(memory: MemoryView, pc: SymbolicPcodeAddress, op: PcodeOperation) -> Result<(MemoryView, SymbolicPcodeAddress), ModelError> {
    match spec_memory_apply(memory, op) {
        Err(e) => Err(e),
        Ok(m) => match spec_apply_control_flow(pc, memory, op) {
            Err(e) => Err(e),
            Ok(p) => Ok((m, p)),
        },
    }
}

impl MachineState {
    pub open spec fn wf(&self) -> bool {
        self.memory.wf()
    }

    /// A machine with memory and program counter both fresh, named `base`.
    pub fn fresh(spaces: Vec<SpaceDesc>, base: u64) -> (r: Self)
        ensures
            r.memory.view() == (MemoryView { spaces: spaces@, base, log: Seq::empty() }),
            r.pc == SymbolicPcodeAddress::fresh_spec(base),
    {
        MachineState { memory: MemoryState::fresh(spaces, base), pc: SymbolicPcodeAddress::fresh(base) }
    }

    /// A machine with fresh memory, named `base`, standing at `addr`.
    pub fn fresh_for_address(spaces: Vec<SpaceDesc>, base: u64, addr: &ConcretePcodeAddress) -> (r: Self)
        ensures
            r.memory.view() == (MemoryView { spaces: spaces@, base, log: Seq::empty() }),
            r.pc == SymbolicPcodeAddress::symbolize_spec(*addr),
    {
        MachineState { memory: MemoryState::fresh(spaces, base), pc: SymbolicPcodeAddress::symbolize(addr) }
    }

    /// The machine state after `op`.
    pub fn apply(&self, op: &PcodeOperation) -> (r: Result<Self, ModelError>)
        requires
            self.wf(),
            memory_op_ok(self.memory.view(), *op),
            control_flow_ok(*op),
        ensures
            match r {
                Ok(s) => s.wf() && spec_machine_apply(self.memory.view(), self.pc, *op) == Ok::<(MemoryView, SymbolicPcodeAddress), ModelError>((s.memory.view(), s.pc)),
                Err(e) => spec_machine_apply(self.memory.view(), self.pc, *op) == Err::<(MemoryView, SymbolicPcodeAddress), ModelError>(e),
            },
    {
        let memory = match self.memory.apply(op) {
            Ok(m) => m,
            Err(e) => return Err(e),
        };
        let pc = match self.pc.apply_op(&self.memory, op) {
            Ok(p) => p,
            Err(e) => return Err(e),
        };
        Ok(MachineState { memory, pc })
    }
}

} // verus!
