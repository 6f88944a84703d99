//! The header of a box, and how the gray queue takes boxes in.
use vstd::prelude::*;

use crate::borrow_state::BorrowState;
use crate::flags::{GcColor, GcFlags};
use crate::root_count::RootCount;

verus! {

/// If the color of a box is white or black, says only that the box is in no part of the gray
/// queue.  If the color is light-gray or dark-gray, holds the next box of the part that it is in.
#[derive(Copy, Clone, Debug, Eq, PartialEq)]
pub enum GrayLink {
    /// The box is not in the queue.
    Queue,
    /// The box is in the queue, and this is the index of the box behind it.
    Next(Option<usize>),
}

/// What the collector keeps of an object besides its value.
pub struct GcBoxHeader {
    /// The color.
    pub flags: GcFlags,
    /// The rooted pointers to the object.
    pub root_count: RootCount,
    /// The guards that are out on the object.
    pub borrow_state: BorrowState,
    /// The next box of the list of all boxes.
    pub next_all: Option<usize>,
    /// The link of the gray queue.
    pub gray_link: GrayLink,
}

/// All light-gray or dark-gray objects are held in the gray queue, and the gray queue holds no
/// white or black objects.  The gray queue is split into two parts, linked through the headers of
/// the boxes.  The primary part primarily holds objects that enter the queue by becoming dark-gray
/// and are processed with first priority.  The secondary part holds objects that enter the queue
/// by becoming rooted, and are processed secondarily, to give rooted objects the time to become
/// un-rooted before processing.
pub struct GrayQueue {
    /// Whether a black object may have no white or light-gray sub-objects.
    pub uphold_invariant: bool,
    /// The index of the first box of the primary part.
    pub primary: Option<usize>,
    /// The index of the first box of the secondary part.
    pub secondary: Option<usize>,
}

impl GcBoxHeader {
    /// `after` is this header turned to a color and linked to the box `next` of a part of the gray
    /// queue, but for the root count; nothing else changes.
    pub open spec fn turned(self, after: GcBoxHeader, color: GcColor, next: Option<usize>) -> bool {
        &&& after.flags.valid()
        &&& after.flags@ == color
        &&& after.flags.upper() == self.flags.upper()
        &&& after.borrow_state == self.borrow_state
        &&& after.next_all == self.next_all
        &&& after.gray_link == GrayLink::Next(next)
    }
}

impl GrayQueue {
    /// An empty queue, with no invariant to uphold.
    pub fn new() -> (queue: GrayQueue)
        ensures
            queue.primary is None,
            queue.secondary is None,
            !queue.uphold_invariant,
    {
        GrayQueue { uphold_invariant: false, primary: None, secondary: None }
    }

    /// Roots the box at `index`.  If it is white, it turns light-gray and enters the secondary
    /// part in front.
    pub fn root(&mut self, index: usize, header: &mut GcBoxHeader)
        requires
            old(header).flags.valid(),
            old(header).root_count@ < usize::MAX,
        ensures
            final(header).root_count@ == old(header).root_count@ + 1,
            old(header).flags@.white() ==> {
                &&& old(header).turned(*final(header), GcColor::LightGray, old(self).secondary)
                &&& *final(self) == (GrayQueue { secondary: Some(index), ..*old(self) })
            },
            !old(header).flags@.white() ==> {
                &&& *final(header) == (GcBoxHeader {
                    root_count: final(header).root_count,
                    ..*old(header)
                })
                &&& *final(self) == *old(self)
            },
    {
        if header.flags.color().is_white() {
            header.flags.set_color(GcColor::LightGray);
            header.gray_link = GrayLink::Next(self.secondary);
            self.secondary = Some(index);
        }
        header.root_count.increment();
    }

    /// Executes the write barrier on the box at `index`.  While the invariant is upheld, a black
    /// box turns dark-gray and enters the primary part in front.
    pub fn write_barrier(&mut self, index: usize, header: &mut GcBoxHeader)
        requires
            old(header).flags.valid(),
        ensures
            final(header).root_count == old(header).root_count,
            old(header).flags@ == GcColor::Black && old(self).uphold_invariant ==> {
                &&& old(header).turned(*final(header), GcColor::DarkGray, old(self).primary)
                &&& *final(self) == (GrayQueue { primary: Some(index), ..*old(self) })
            },
            !(old(header).flags@ == GcColor::Black && old(self).uphold_invariant) ==> {
                &&& *final(header) == *old(header)
                &&& *final(self) == *old(self)
            },
    {
        if header.flags.color() == GcColor::Black {
            if self.uphold_invariant {
                header.flags.set_color(GcColor::DarkGray);
                header.gray_link = GrayLink::Next(self.primary);
                self.primary = Some(index);
            }
        }
    }

    /// Traces the box at `index`.  A light-gray box is already in the queue and just turns
    /// dark-gray; a white one turns dark-gray and enters the primary part in front.
    pub fn trace(&mut self, index: usize, header: &mut GcBoxHeader)
        requires
            old(header).flags.valid(),
        ensures
            final(header).root_count == old(header).root_count,
            old(header).flags@.reached() ==> {
                &&& *final(header) == *old(header)
                &&& *final(self) == *old(self)
            },
            old(header).flags@ == GcColor::LightGray ==> {
                &&& *final(header) == (GcBoxHeader { flags: final(header).flags, ..*old(header) })
                &&& final(header).flags.valid()
                &&& final(header).flags@ == GcColor::DarkGray
                &&& final(header).flags.upper() == old(header).flags.upper()
                &&& *final(self) == *old(self)
            },
            old(header).flags@.white() ==> {
                &&& old(header).turned(*final(header), GcColor::DarkGray, old(self).primary)
                &&& *final(self) == (GrayQueue { primary: Some(index), ..*old(self) })
            },
    {
        match header.flags.color() {
            GcColor::Black | GcColor::DarkGray => {},
            GcColor::LightGray => {
                header.flags.set_color(GcColor::DarkGray);
            },
            GcColor::White1 | GcColor::White2 => {
                header.flags.set_color(GcColor::DarkGray);
                header.gray_link = GrayLink::Next(self.primary);
                self.primary = Some(index);
            },
        }
    }
}

} // verus!
