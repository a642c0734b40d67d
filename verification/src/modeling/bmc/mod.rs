//! Addresses used by the bounded model checker.
pub mod address;
pub mod machine;
