//! Where popups and their rows stand on the screen, and how large they are.

use vstd::prelude::*;
use crate::chars::{split, to_chars, rows};
use crate::lines::split_lines;
use crate::navigation::RequestMethod;

verus! {

/// A rectangle of the screen: its upper left corner and its size, in cells.
#[derive(Clone, Copy, Debug, PartialEq, Eq, Structural)]
pub struct Area {
    pub x: u16,
    pub y: u16,
    pub width: u16,
    pub height: u16,
}

/// `n` as a screen coordinate: the largest coordinate where `n` exceeds it,
/// and zero where `n` is negative.
pub open spec fn capped(n: int) -> u16 {
    if n < 0 {
        0
    } else if n > u16::MAX {
        u16::MAX
    } else {
        n as u16
    }
}

/// `a + b`, as a screen coordinate.
pub fn plus(a: u16, b: u16) -> (r: u16)
    ensures
        r == capped(a + b),
{
    if a > 0xffff - b {
        0xffff
    } else {
        a + b
    }
}

/// `a - b`, as a screen coordinate.
pub fn minus(a: u16, b: u16) -> (r: u16)
    ensures
        r == capped(a - b),
{
    if a < b {
        0
    } else {
        a - b
    }
}

/// `n` rows of three cells each, as a screen coordinate.
pub fn rows_of_three(n: usize) -> (r: u16)
    ensures
        r == capped(n * 3),
{
    if n > 0xffff / 3 {
        0xffff
    } else {
        (n * 3) as u16
    }
}

/// The width of the pane that shows the method: its name and two cells on
/// either side.
pub fn method_width(method: RequestMethod) -> (r: u16)
    ensures
        r == method.name().len() + 4,
{
    proof {
        reveal_strlit("GET");
        reveal_strlit("POST");
        reveal_strlit("PUT");
        reveal_strlit("PATCH");
        reveal_strlit("DELETE");
    }
    match method {
        RequestMethod::Get => 7,
        RequestMethod::Post => 8,
        RequestMethod::Put => 7,
        RequestMethod::Patch => 9,
        RequestMethod::Delete => 10,
    }
}

/// The space on either side of something of the size `size` that stands in
/// the middle of `total` cells; none where it does not fit.
pub fn margin(total: u16, size: u16) -> (r: u16)
    ensures
        r == capped(total - size) / 2,
{
    minus(total, size) / 2
}

/// The height of a popup that shows `rows` rows between its borders, with
/// room for a line of help.
pub fn popup_height(rows: usize) -> (r: u16)
    ensures
        r == capped(capped(rows * 3) + 4),
{
    plus(rows_of_three(rows), 4)
}

/// The place of row `index` in a popup that stands at `area`: three cells
/// high, two cells in from the left border, and `width` cells wide less two
/// on either side.
pub fn popup_row(area: Area, index: usize, width: u16) -> (r: Area)
    ensures
        r == (Area {
            x: capped(area.x + 2),
            y: capped(capped(area.y + capped(index * 3)) + 1),
            width: capped(width - 4),
            height: 3,
        }),
{
    Area {
        x: plus(area.x, 2),
        y: plus(plus(area.y, rows_of_three(index)), 1),
        width: minus(width, 4),
        height: 3,
    }
}

/// The place of the line of help in a popup that stands at `area` and shows
/// `rows` rows: two cells below the last row.
pub fn popup_help_line(area: Area, rows: usize, width: u16) -> (r: Area)
    ensures
        r == (Area {
            x: capped(area.x + 2),
            y: capped(capped(area.y + capped(rows * 3)) + 2),
            width: capped(width - 4),
            height: 1,
        }),
{
    Area {
        x: plus(area.x, 2),
        y: plus(plus(area.y, rows_of_three(rows)), 2),
        width: minus(width, 4),
        height: 1,
    }
}

/// The number of lines that a text shows: one for each newline, and one more
/// for what follows the last newline, unless nothing follows it.
pub open spec fn shown_lines(text: Seq<char>) -> nat {
    let ls = split_lines(text);
    if ls.last().len() > 0 {
        ls.len()
    } else {
        (ls.len() - 1) as nat
    }
}

/// The number of lines of a response for scrolling: the number of lines
/// that its text shows, or one where that number is no coordinate.
pub fn response_line_count(text: &str) -> (r: u16)
    ensures
        r == if shown_lines(text@) <= u16::MAX {
            shown_lines(text@) as u16
        } else {
            1u16
        },
{
    let cs = to_chars(text);
    let ls = split(&cs);
    assert(rows(ls@).len() == ls@.len());
    assert(rows(ls@)[ls.len() - 1] == ls@[ls.len() - 1]@);
    let n = if ls[ls.len() - 1].len() > 0 {
        ls.len()
    } else {
        ls.len() - 1
    };
    if n <= 0xffff {
        n as u16
    } else {
        1
    }
}

} // verus!
