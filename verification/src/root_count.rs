//! The number of rooted pointers to a box.
use vstd::prelude::*;

verus! {

/// How many rooted pointers keep an object alive.
pub struct RootCount {
    count: usize,
}

impl View for RootCount {
    type V = usize;

    closed spec fn view(&self) -> usize {
        self.count
    }
}

impl RootCount {
    /// Creates a new un-rooted `RootCount`.
    pub fn new() -> (count: RootCount)
        ensures
            count@ == 0,
    {
        RootCount { count: 0 }
    }

    /// Whether there is at least one root.
    pub fn is_rooted(&self) -> (rooted: bool)
        ensures
            rooted == (self@ > 0),
    {
        self.count > 0
    }

    /// Whether there is no room for another root.
    pub fn is_full(&self) -> (full: bool)
        ensures
            full == (self@ == usize::MAX),
    {
        self.count == usize::MAX
    }

    /// Adds one root.
    pub fn increment(&mut self)
        requires
            old(self)@ < usize::MAX,
        ensures
            final(self)@ == old(self)@ + 1,
    {
        self.count = self.count + 1;
    }

    /// Takes one root away.
    pub fn decrement(&mut self)
        requires
            old(self)@ > 0,
        ensures
            final(self)@ == old(self)@ - 1,
    {
        self.count = self.count - 1;
    }
}

} // verus!
