//! Errors reported by the memory accessor and the call adapters.
use vstd::prelude::*;

verus! {

/// Why bytes or primitives did not form a value of the expected type.
#[derive(Debug, Clone, Copy, PartialEq, Eq, Structural)]
pub enum Malformed {
    /// The bytes of a string are not valid UTF-8.
    Utf8,
    /// The boundary values do not match the primitive signature in number or
    /// kind.
    Signature,
    /// The argument at this position did not decode.
    Argument(usize),
    /// The values a guest call returned did not decode.
    Results,
}

#[derive(Debug, Clone, Copy, PartialEq, Eq, Structural)]
pub enum MarshalError {
    /// The range `base .. base + len` (`len` in units of the accessed type) leaves
    /// guest memory or overflows 32 bits.
    OutOfBounds { base: u32, len: u32 },
    /// Bytes or primitives that are no valid value of the target type.
    MalformedValue(Malformed),
    /// The function table has no function of the expected signature at `index`.
    TableResolution { index: u32 },
    /// The guest allocator failed, or gave space that cannot hold the value.
    Allocation,
    /// The called function reported an error or trapped.
    Call,
}

} // verus!
