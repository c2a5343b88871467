//! A counter that hands out identifiers, and the storage prefix of counted maps.
use vstd::prelude::*;

verus! {

/// Counter to generate a relatively unique identifier for macros. This is necessary because
/// declarative macros get hoisted to the crate root, which shares the namespace with other pallets
/// containing the very same macros.
pub struct Counter(pub u64);

impl Counter {
    /// Returns the current value and advances the counter by one.
    pub fn inc(&mut self) -> (ret: u64)
        requires
            old(self).0 < u64::MAX,
        ensures
            ret == old(self).0,
            final(self).0 == old(self).0 + 1,
    {
        let ret = self.0;
        self.0 = self.0 + 1;
        ret
    }
}

/// The counter prefix of a counted storage map: `CounterFor` followed by the map's prefix.
pub fn counter_prefix(prefix: &str) -> (r: String)
    ensures
        r@ == "CounterFor"@ + prefix@,
{
    String::from_str("CounterFor").concat(prefix)
}

} // verus!
