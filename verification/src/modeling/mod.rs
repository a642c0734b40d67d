//! Models of the machine: p-code operations as terms over a modelled
//! state, both along a trace and as steps between machine states,
//! program-counter addresses and block-ending branches.
pub mod bmc;
pub mod branch;
pub mod machine;
pub mod model;
pub mod ops;
pub mod state;
pub mod term;
