//! The sixteen text-mode colors and the attribute byte that combines two.
use vstd::prelude::*;

verus! {

#[derive(Clone, Copy, Debug, PartialEq, Eq, Structural)]
pub enum Color {
    Black,
    Blue,
    Green,
    Cyan,
    Red,
    Magenta,
    Brown,
    LightGray,
    DarkGray,
    LightBlue,
    LightGreen,
    LightCyan,
    LightRed,
    Pink,
    Yellow,
    White,
}

impl Color {
    /// The hardware's 4-bit number for the color.
    pub open spec fn index(self) -> u8 {
        match self {
            Color::Black => 0x0,
            Color::Blue => 0x1,
            Color::Green => 0x2,
            Color::Cyan => 0x3,
            Color::Red => 0x4,
            Color::Magenta => 0x5,
            Color::Brown => 0x6,
            Color::LightGray => 0x7,
            Color::DarkGray => 0x8,
            Color::LightBlue => 0x9,
            Color::LightGreen => 0xA,
            Color::LightCyan => 0xB,
            Color::LightRed => 0xC,
            Color::Pink => 0xD,
            Color::Yellow => 0xE,
            Color::White => 0xF,
        }
    }

    pub fn to_u8(self) -> (r: u8)
        ensures
            r == self.index(),
            r < 16,
    {
        match self {
            Color::Black => 0x0,
            Color::Blue => 0x1,
            Color::Green => 0x2,
            Color::Cyan => 0x3,
            Color::Red => 0x4,
            Color::Magenta => 0x5,
            Color::Brown => 0x6,
            Color::LightGray => 0x7,
            Color::DarkGray => 0x8,
            Color::LightBlue => 0x9,
            Color::LightGreen => 0xA,
            Color::LightCyan => 0xB,
            Color::LightRed => 0xC,
            Color::Pink => 0xD,
            Color::Yellow => 0xE,
            Color::White => 0xF,
        }
    }
}

/// Attribute byte: background in the high four bits, foreground in the low.
pub fn color_code(foreground: Color, background: Color) -> (r: u8)
    ensures
        r == background.index() * 16 + foreground.index(),
{
    let f = foreground.to_u8();
    let b = background.to_u8();
    assert(b << 4u8 | f == b * 16 + f) by (bit_vector)
        requires
            b < 16,
            f < 16,
    ;
    b << 4 | f
}

} // verus!
