use vstd::prelude::*;

verus! {

/// A 32-byte account identifier, held as two 128-bit halves.
///
/// Records refer to one another by `Address`; it serves as a lookup key
/// only and carries no cryptographic meaning.
#[derive(Clone, Copy, Debug, PartialEq, Eq, Structural)]
pub struct Address {
    pub hi: u128,
    pub lo: u128,
}

impl Address {
    /// Builds an address from its two halves.
    pub fn new(hi: u128, lo: u128) -> (r: Address)
        ensures
            r.hi == hi,
            r.lo == lo,
    {
        Address { hi, lo }
    }
}

} // verus!
