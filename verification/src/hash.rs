//! A 256-bit hash held as four 64-bit words.
use vstd::prelude::*;

verus! {

/// A 256-bit block hash or state root; `w0` holds bytes 0..8 in little-endian order, and so on.
#[derive(PartialEq, Eq, Structural, Clone, Copy, Debug)]
pub struct Hash256 {
    pub w0: u64,
    pub w1: u64,
    pub w2: u64,
    pub w3: u64,
}

impl Hash256 {
    /// The hash whose four words are given.
    pub fn new(w0: u64, w1: u64, w2: u64, w3: u64) -> (h: Hash256)
        ensures
            h == (Hash256 { w0, w1, w2, w3 }),
    {
        Hash256 { w0, w1, w2, w3 }
    }

    /// The hash as a tuple of its words.
    pub open spec fn words(self) -> (u64, u64, u64, u64) {
        (self.w0, self.w1, self.w2, self.w3)
    }
}

} // verus!
