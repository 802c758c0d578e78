//! Seal for the machine primitives that the call convention carries.
use vstd::prelude::*;

verus! {

/// Implemented only by the machine primitive types of this crate.
pub trait Sealed {}

impl Sealed for u32 {}

impl Sealed for i32 {}

impl Sealed for u64 {}

impl Sealed for i64 {}

} // verus!
