//! The bounded model checker's machine model.
pub mod cpu;
