//! Verified core of a p-code modeling and analysis library.
pub mod analysis;
pub mod modeling;
pub mod sleigh;
