//! Valuation analysis: symbolic values of locations.
pub mod display;
pub mod jingle_display;
pub mod jingle_set;
pub mod meaning;
pub mod order;
pub mod sealed;
pub mod simplify;
pub mod state;
pub mod simplify_spec;
pub mod valuation;
pub mod value;
