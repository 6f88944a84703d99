//! The dynamic borrow state of a box.
use vstd::prelude::*;

verus! {

/// What the guards that are out on an object allow.
#[derive(Copy, Clone, Debug, Eq, PartialEq, Structural)]
pub enum BorrowMode {
    /// At least one read guard is out.
    Reading,
    /// A write guard is out.
    Writing,
    /// No guard is out.
    Unused,
}

/// The guards that are out on an object.  The counter is zero when there is none, the number of
/// read guards when there are some, and the largest machine word while a write guard is out.
pub struct BorrowState {
    counter: usize,
}

/// The mode that a counter stands for.
pub open spec fn mode_of(counter: nat) -> BorrowMode {
    if counter == 0 {
        BorrowMode::Unused
    } else if counter == usize::MAX {
        BorrowMode::Writing
    } else {
        BorrowMode::Reading
    }
}

impl View for BorrowState {
    type V = usize;

    /// The counter.
    closed spec fn view(&self) -> usize {
        self.counter
    }
}

impl BorrowState {
    /// Creates a new `BorrowState` in mode `Unused`.
    pub fn new() -> (state: BorrowState)
        ensures
            state@ == 0,
    {
        BorrowState { counter: 0 }
    }

    /// The current mode.
    pub fn mode(&self) -> (mode: BorrowMode)
        ensures
            mode == mode_of(self@ as nat),
            mode is Unused <==> self@ == 0,
            mode is Writing <==> self@ == usize::MAX,
    {
        if self.counter == 0 {
            BorrowMode::Unused
        } else if self.counter == usize::MAX {
            BorrowMode::Writing
        } else {
            BorrowMode::Reading
        }
    }

    /// Goes to mode `Unused`, whatever the mode was.
    pub fn set_unused(&mut self)
        ensures
            final(self)@ == 0,
    {
        self.counter = 0;
    }

    /// Goes to mode `Writing`, whatever the mode was.
    pub fn set_writing(&mut self)
        ensures
            final(self)@ == usize::MAX,
    {
        self.counter = usize::MAX;
    }

    /// Counts one more read guard.  Only call when the mode is not `BorrowMode::Writing`.
    pub fn inc_reading(&mut self)
        requires
            mode_of(old(self)@ as nat) != BorrowMode::Writing,
        ensures
            final(self)@ == old(self)@ + 1,
    {
        self.counter = self.counter + 1;
    }

    /// Counts one read guard less.  Only call when the mode is `BorrowMode::Reading`.
    pub fn dec_reading(&mut self)
        requires
            mode_of(old(self)@ as nat) == BorrowMode::Reading,
        ensures
            final(self)@ == old(self)@ - 1,
    {
        self.counter = self.counter - 1;
    }
}

} // verus!
