//! The mark color of a box and the flag byte that holds it.
use vstd::prelude::*;

verus! {

/// The mark color of a garbage collected object.
#[derive(Copy, Clone, Eq, PartialEq, Debug, Structural)]
pub enum GcColor {
    /// White objects are unmarked and un-rooted.  At the end of the mark phase, all white objects
    /// are unused and may be freed in the sweep phase.  The white color is swapped during sweeping
    /// to distinguish between newly created white objects and unreachable white objects.
    White1,
    /// The other white, see `White1`.
    White2,
    /// When a white object is rooted, it becomes light-gray and is placed in the gray queue.  When
    /// it is processed in the gray queue, if it is still rooted at the time of processing, its
    /// sub-objects are traced and it becomes black.  If it is not rooted at the time of processing
    /// it is turned white.
    LightGray,
    /// When a white or light-gray object is traced, it becomes dark-gray.  When a dark-gray object
    /// is processed, its sub-objects are traced and it becomes black.
    DarkGray,
    /// Black objects have been marked and their sub-objects must all be dark-gray or black.  If a
    /// white or light-gray object is made a child of a black object (and the black invariant is
    /// currently being held), a write barrier must be executed that either turns that child
    /// dark-gray (forward) or turns the black object back dark-gray (back).
    Black,
}

impl GcColor {
    /// One of the two whites.
    pub open spec fn white(self) -> bool {
        self == GcColor::White1 || self == GcColor::White2
    }

    /// Light-gray or dark-gray: the colors of the objects in the gray queue.
    pub open spec fn gray(self) -> bool {
        self == GcColor::LightGray || self == GcColor::DarkGray
    }

    /// Dark-gray or black: the colors of the objects that a trace has reached.
    pub open spec fn reached(self) -> bool {
        self == GcColor::DarkGray || self == GcColor::Black
    }

    /// Whether this is one of the two whites.
    pub fn is_white(self) -> (white: bool)
        ensures
            white == self.white(),
            white == (self is White1 || self is White2),
    {
        match self {
            GcColor::White1 | GcColor::White2 => true,
            _ => false,
        }
    }
}

/// The flag byte of a box.  Its low three bits hold the color, the other five are free.
pub struct GcFlags {
    bits: u8,
}

impl View for GcFlags {
    type V = GcColor;

    /// The color that the low three bits stand for, for a `valid` flag byte.
    closed spec fn view(&self) -> GcColor {
        let low = self.bits % 8;
        if low == 0 {
            GcColor::White1
        } else if low == 1 {
            GcColor::White2
        } else if low == 2 {
            GcColor::LightGray
        } else if low == 3 {
            GcColor::DarkGray
        } else {
            GcColor::Black
        }
    }
}

impl GcFlags {
    /// The low three bits stand for a color.
    pub closed spec fn valid(&self) -> bool {
        self.bits % 8 <= 4
    }

    /// The five bits above the color, as a number.
    pub closed spec fn upper(&self) -> int {
        self.bits as int / 8
    }

    /// A flag byte is made of its color and its upper bits, and of nothing else.
    pub proof fn law_flags_are_a_color_and_upper_bits(&self, other: &GcFlags)
        requires
            self.valid(),
            other.valid(),
        ensures
            0 <= self.upper() < 32,
            *self == *other <==> self@ == other@ && self.upper() == other.upper(),
    {
    }

    /// A flag byte of the given color, with its other bits clear.
    pub fn new(color: GcColor) -> (flags: GcFlags)
        ensures
            flags.valid(),
            flags@ == color,
            flags.upper() == 0,
    {
        let mut flags = GcFlags { bits: 0 };
        flags.set_color(color);
        flags
    }

    /// The color.
    pub fn color(&self) -> (color: GcColor)
        requires
            self.valid(),
        ensures
            color == self@,
    {
        let bits: u8 = self.bits;
        assert(bits & 0x7 == bits % 8) by (bit_vector);
        match bits & 0x7 {
            0x0 => GcColor::White1,
            0x1 => GcColor::White2,
            0x2 => GcColor::LightGray,
            0x3 => GcColor::DarkGray,
            _ => GcColor::Black,
        }
    }

    /// Sets the color and leaves the other bits as they are.
    pub fn set_color(&mut self, color: GcColor)
        ensures
            final(self).valid(),
            final(self)@ == color,
            final(self).upper() == old(self).upper(),
    {
        let bits: u8 = self.bits;
        let code: u8 = match color {
            GcColor::White1 => 0x0,
            GcColor::White2 => 0x1,
            GcColor::LightGray => 0x2,
            GcColor::DarkGray => 0x3,
            GcColor::Black => 0x4,
        };
        assert(((bits & !0x7) | code) % 8 == code && ((bits & !0x7) | code) / 8 == bits / 8)
            by (bit_vector)
            requires
                code <= 4,
        ;
        self.bits = (bits & !0x7) | code;
    }
}

} // verus!
