use vstd::prelude::*;

verus! {

/// A 256-bit account identity (a public key), held as four 64-bit words.
#[derive(Clone, Copy, Debug, PartialEq, Eq, Structural)]
pub struct Identity {
    pub w0: u64,
    pub w1: u64,
    pub w2: u64,
    pub w3: u64,
}

impl Identity {
    /// Builds an identity from its four words, least significant first.
    pub fn new(w0: u64, w1: u64, w2: u64, w3: u64) -> (r: Identity)
        ensures
            r == (Identity { w0, w1, w2, w3 }),
    {
        Identity { w0, w1, w2, w3 }
    }

    /// The all-zero identity.
    pub fn zero() -> (r: Identity)
        ensures
            r == (Identity { w0: 0, w1: 0, w2: 0, w3: 0 }),
    {
        Identity { w0: 0, w1: 0, w2: 0, w3: 0 }
    }
}

} // verus!
