use vstd::prelude::*;

verus! {

/// Brightness is held in fixed point: this value stands for 1.0 (full white).
/// It is 256 · 10000, so that the luminance weights 0.2126, 0.7152 and 0.0722
/// of an 8-bit colour divided by 256 are whole numbers of units.
pub const BRIGHTNESS_ONE: u32 = 2_560_000;

/// What one output character stands for.
#[derive(Clone, Copy, Debug)]
pub struct CharacterData {
    pub direction: Direction,
    /// In units of `1 / BRIGHTNESS_ONE`.
    pub brightness: u32,
    /// Red, green, blue.
    pub color: [u8; 3],
}

#[derive(Clone, Copy, Debug, PartialEq, Eq, Structural)]
pub enum Direction {
    NoEdge,
    Slash,
    Backslash,
    Dash,
    Bar,
    Underscore,
}

impl Direction {
    /// The direction with code `code`, as the shader numbers them (0 to 5).
    pub fn from_int(code: u32) -> (d: Direction)
        requires
            code <= 5,
        ensures
            code == 0 ==> d == Direction::NoEdge,
            code == 1 ==> d == Direction::Slash,
            code == 2 ==> d == Direction::Backslash,
            code == 3 ==> d == Direction::Dash,
            code == 4 ==> d == Direction::Bar,
            code == 5 ==> d == Direction::Underscore,
    {
        match code {
            0 => Direction::NoEdge,
            1 => Direction::Slash,
            2 => Direction::Backslash,
            3 => Direction::Dash,
            4 => Direction::Bar,
            _ => Direction::Underscore,
        }
    }
}

} // verus!
