//! Seal for the flat lists of machine primitives.
use vstd::prelude::*;

verus! {

/// Implemented only by the primitive lists of this crate.
pub trait Sealed {}

} // verus!
