//! The cursor: a column and a line, and how both are kept in range.

use vstd::prelude::*;

verus! {

/// `v` brought into `[0, max]`.
pub open spec fn clamp(v: int, max: int) -> int {
    if v < 0 {
        0
    } else if v > max {
        max
    } else {
        v
    }
}

/// A position in a text: `x` is the column, counted in characters from the
/// start of the line, and `y` is the line, counted from zero.
#[derive(Clone, Copy, Debug, PartialEq, Eq, Structural)]
pub struct Coordinates {
    pub x: u16,
    pub y: u16,
}

impl Default for Coordinates {
    fn default() -> (c: Self)
        ensures
            c.x == 0,
            c.y == 0,
    {
        Self { x: 0, y: 0 }
    }
}

impl Coordinates {
    /// The column `x` brought into `[0, max_x]`, where `max_x` is the length
    /// of the line the cursor stands in.
    pub fn clamp_column(x: u16, max_x: usize) -> (r: u16)
        ensures
            r == clamp(x as int, max_x as int),
    {
        if x as usize > max_x {
            max_x as u16
        } else {
            x
        }
    }

    /// The line `y` brought into `[0, max_y]`, where `max_y` is the index of
    /// the last line.
    pub fn clamp_line(y: u16, max_y: usize) -> (r: u16)
        ensures
            r == clamp(y as int, max_y as int),
    {
        if y as usize > max_y {
            max_y as u16
        } else {
            y
        }
    }
}

} // verus!
