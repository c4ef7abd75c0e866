use vstd::prelude::*;

verus! {

/// One sample of the picture after edge detection.
#[derive(Clone, Copy, Debug)]
pub struct PixelData {
    pub direction: Direction,
    /// In units of `1 / BRIGHTNESS_ONE`.
    pub brightness: u32,
    /// Red, green, blue.
    pub color: [u8; 3],
}

#[derive(Clone, Copy, Debug, PartialEq, Eq, Structural)]
pub enum Direction {
    NoEdge,
    TopToBottom,
    ToprightToBotleft,
    LeftToRight,
    TopleftToBotright,
}

impl Direction {
    /// The direction with code `code` (0 to 4), as the shader numbers them.
    pub fn test(code: u32) -> (d: Direction)
        requires
            code <= 4,
        ensures
            code == 0 ==> d == Direction::NoEdge,
            code == 1 ==> d == Direction::TopToBottom,
            code == 2 ==> d == Direction::ToprightToBotleft,
            code == 3 ==> d == Direction::LeftToRight,
            code == 4 ==> d == Direction::TopleftToBotright,
    {
        match code {
            0 => Direction::NoEdge,
            1 => Direction::TopToBottom,
            2 => Direction::ToprightToBotleft,
            3 => Direction::LeftToRight,
            _ => Direction::TopleftToBotright,
        }
    }
}

} // verus!
