//! A binary64 (IEEE 754 double precision) number carried by its bit pattern.

use vstd::prelude::*;

verus! {

/// A double-precision number, held by its IEEE 754 bit pattern.
///
/// The API reports a few quantities (retry delays, review ratings, percentage
/// changes) as JSON numbers with a fractional part. The library never computes
/// with them; it carries them unchanged, bit for bit, from the decoded response
/// to the caller. Callers convert with the standard `from_bits` / `to_bits`.
#[derive(Debug, Clone, Copy, PartialEq, Eq, Hash, Structural)]
pub struct Binary64 {
    /// The IEEE 754 bit pattern of the number.
    pub bits: u64,
}

impl Binary64 {
    /// Positive zero.
    pub fn zero() -> (res: Binary64)
        ensures
            res.bits == 0,
    {
        Binary64 { bits: 0 }
    }
}

} // verus!
