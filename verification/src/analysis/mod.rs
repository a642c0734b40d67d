//! Program analyses over p-code.
pub mod pcode_store;
pub mod stack_offset;
pub mod structuring;
pub mod unwinding;
pub mod valuation;
pub mod unwinding2;
pub mod varnode;
pub mod varnode_map;
