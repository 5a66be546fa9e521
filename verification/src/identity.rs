use vstd::prelude::*;

verus! {

/// A fixed-size 32-byte principal identifier, held as four 64-bit words.
///
/// Principals are compared only for equality; the vault never inspects the
/// words beyond that.
#[derive(Clone, Copy, PartialEq, Eq, Structural, Debug)]
pub struct PrincipalId {
    pub w0: u64,
    pub w1: u64,
    pub w2: u64,
    pub w3: u64,
}

impl PrincipalId {
    pub fn new(w0: u64, w1: u64, w2: u64, w3: u64) -> (r: PrincipalId)
        ensures
            r == (PrincipalId { w0, w1, w2, w3 }),
    {
        PrincipalId { w0, w1, w2, w3 }
    }
}

} // verus!
