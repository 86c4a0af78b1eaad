//! The identifier allocator: one counter shared by every entity kind.

use vstd::prelude::*;

verus! {

/// Issues monotonically increasing identifiers, unique across the whole
/// system. The counter starts at 0 and is pre-incremented, so the first
/// identifier handed out is 1, and no identifier is ever reused, even after
/// the record it named is deleted.
pub struct IdAllocator {
    pub counter: u64,
}

impl IdAllocator {
    /// A fresh allocator whose first allocation will return 1.
    pub fn new() -> (r: IdAllocator)
        ensures
            r.counter == 0,
    {
        IdAllocator { counter: 0 }
    }

    /// Increments the counter and returns the new value.
    pub fn next_id(&mut self) -> (r: u64)
        requires
            old(self).counter < u64::MAX,
        ensures
            final (self).counter == old(self).counter + 1,
            r == final (self).counter,
    {
        self.counter = self.counter + 1;
        self.counter
    }
}

} // verus!
