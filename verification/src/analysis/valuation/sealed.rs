//! The marker of the types that may stand as operands of value constructors.
use crate::analysis::valuation::value::Value;
use vstd::prelude::*;

verus! {

/// Implemented by `Value` and the ways of holding one; not meant for other
/// types.
pub trait Sealed {}

impl Sealed for Value {}

impl Sealed for Box<Value> {}

impl<'a> Sealed for &'a Value {}

impl<'a> Sealed for &'a Box<Value> {}

} // verus!
