//! The CPU's program counter, as a machine address and a p-code index.
pub mod concrete;
pub mod symbolic;
