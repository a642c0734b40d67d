//! Where p-code programs begin.
use crate::modeling::machine::cpu::concrete::ConcretePcodeAddress;
use vstd::prelude::*;

verus! {

/// Something with an entry address, such as a loaded program.
pub trait EntryPoint {
    fn get_entry(&self) -> ConcretePcodeAddress;
}

} // verus!
