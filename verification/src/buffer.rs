//! The mathematical model of an editable text with a cursor.
//!
//! A [`Buffer`] is what an [`crate::input::Input`] stands for: its text as a
//! sequence of characters and its cursor as two naturals. Every editing
//! operation is a function from buffer to buffer, defined here.

use vstd::prelude::*;
use crate::cursor::clamp;
use crate::lines::{join_lines, merge_at, newline, split_lines};

verus! {

/// The largest column or line that a cursor can hold.
pub open spec fn max_coordinate() -> nat {
    u16::MAX as nat
}

/// One step of editing: what a key press asks of a text field.
#[derive(Clone, Copy, Debug, PartialEq, Eq, Structural)]
pub enum EditCommand {
    MoveLeft,
    MoveRight,
    MoveUp,
    MoveDown,
    StartOfLine,
    EndOfSingleLine,
    EndOfMultiLine,
    Insert(char),
    Newline,
    Remove,
    RemoveInSingleLine,
}

/// A text and the position of the cursor in it.
pub struct Buffer {
    pub text: Seq<char>,
    pub x: nat,
    pub y: nat,
}

impl Buffer {
    /// The lines of the text.
    pub open spec fn lines(self) -> Seq<Seq<char>> {
        split_lines(self.text)
    }

    /// The text is a single line.
    pub open spec fn is_single_line(self) -> bool {
        self.lines().len() <= 1
    }

    /// The cursor stands in a line of the text, at one of its characters or
    /// just behind the last one.
    pub open spec fn wf(self) -> bool {
        &&& self.y < self.lines().len()
        &&& self.x <= self.lines()[self.y as int].len()
    }

    /// The cursor can be held: neither its column nor its line exceeds the
    /// largest coordinate.
    pub open spec fn can_hold(self) -> bool {
        self.x <= max_coordinate() && self.y <= max_coordinate()
    }

    /// The line that the cursor stands in; the whole text where the cursor's
    /// line does not exist.
    pub open spec fn current_line(self) -> Seq<char> {
        if self.y < self.lines().len() {
            self.lines()[self.y as int]
        } else {
            self.text
        }
    }

    /// The same text with the cursor at `(x, y)`.
    pub open spec fn with_cursor(self, x: nat, y: nat) -> Buffer {
        Buffer { text: self.text, x, y }
    }

    /// The same text with the cursor brought into range: first the line, then
    /// the column within that line.
    pub open spec fn clamped(self) -> Buffer {
        let y = clamp(self.y as int, self.lines().len() - 1);
        let x = clamp(self.x as int, self.lines()[y].len() as int);
        self.with_cursor(x as nat, y as nat)
    }

    /// One column to the left, stopping at column zero.
    pub open spec fn move_left(self) -> Buffer {
        self.with_cursor(clamp(self.x - 1, self.text.len() as int) as nat, self.y)
    }

    /// One column to the right, stopping just behind the last character of
    /// the current line.
    pub open spec fn move_right(self) -> Buffer {
        self.with_cursor(clamp(self.x as int + 1, self.current_line().len() as int) as nat, self.y)
    }

    /// One line up, stopping at the first line; the column becomes zero.
    pub open spec fn move_up(self) -> Buffer {
        self.with_cursor(0, clamp(self.y - 1, self.y as int) as nat)
    }

    /// One line down, stopping at the last line; the column becomes zero.
    pub open spec fn move_down(self) -> Buffer {
        self.with_cursor(0, clamp(self.y as int + 1, self.lines().len() - 1) as nat)
    }

    /// To column zero of the same line.
    pub open spec fn move_to_start_of_line(self) -> Buffer {
        self.with_cursor(0, self.y)
    }

    /// Behind the last character of a text that is one line.
    pub open spec fn move_to_end_single_line(self) -> Buffer {
        self.with_cursor(self.text.len(), self.y)
    }

    /// One column past the position behind the last character of the current
    /// line.
    pub open spec fn move_to_end_multi_line(self) -> Buffer {
        self.with_cursor(self.current_line().len() + 1, self.y)
    }

    /// The text taken as one line: `c` goes in at the cursor's column, and the
    /// cursor stands before it.
    pub open spec fn with_char_single_line(self, c: char) -> Buffer {
        let k = clamp(self.x as int, self.text.len() as int);
        Buffer { text: self.text.insert(k, c), x: k as nat, y: self.y }
    }

    /// `c` goes into the cursor's line at the cursor's column, the other lines
    /// stay, and the cursor stands before it.
    pub open spec fn with_char_multi_line(self, c: char) -> Buffer {
        let p = self.clamped();
        let ls = self.lines();
        let line = ls[p.y as int].insert(p.x as int, c);
        Buffer { text: join_lines(ls.update(p.y as int, line)), x: p.x, y: p.y }
    }

    /// `c` goes in at the cursor, and the cursor stands before it.
    pub open spec fn with_char(self, c: char) -> Buffer {
        if self.is_single_line() {
            self.with_char_single_line(c)
        } else {
            self.with_char_multi_line(c)
        }
    }

    /// The text taken as one line: `c` goes in at the cursor's column, and the
    /// cursor moves right.
    pub open spec fn add_char_single_line(self, c: char) -> Buffer {
        self.with_char_single_line(c).move_right()
    }

    /// `c` goes into the cursor's line at the cursor's column, the other lines
    /// stay, and the cursor moves right.
    pub open spec fn add_char_multi_line(self, c: char) -> Buffer {
        self.with_char_multi_line(c).move_right()
    }

    /// `c` goes in at the cursor.
    pub open spec fn add_char(self, c: char) -> Buffer {
        if self.is_single_line() {
            self.add_char_single_line(c)
        } else {
            self.add_char_multi_line(c)
        }
    }

    /// The current line is cut in two at the cursor, and the cursor goes to
    /// the start of the second part.
    pub open spec fn add_newline(self) -> Buffer {
        self.add_char(newline()).move_to_start_of_line().move_down()
    }

    /// The text taken as one line: the character before the cursor leaves, and
    /// the cursor moves left. Nothing happens at column zero.
    pub open spec fn remove_char_single_line(self) -> Buffer {
        let k = clamp(self.x as int, self.text.len() as int);
        if self.x == 0 {
            self
        } else if k == 0 {
            self.move_left()
        } else {
            Buffer { text: self.text.remove(k - 1), x: k as nat, y: self.y }.move_left()
        }
    }

    /// At column zero of a line that has one before it, the two lines become
    /// one and the cursor goes to where they meet. Elsewhere the character
    /// before the cursor leaves its line and the cursor moves left. Nothing
    /// happens at the very start of the text.
    pub open spec fn remove_char_multi_line(self) -> Buffer {
        let p = self.clamped();
        let ls = self.lines();
        if p.x == 0 && p.y == 0 {
            p
        } else if p.x == 0 {
            Buffer {
                text: join_lines(merge_at(ls, p.y as int)),
                x: ls[p.y - 1].len(),
                y: (p.y - 1) as nat,
            }
        } else {
            let line = ls[p.y as int].remove(p.x - 1);
            Buffer { text: join_lines(ls.update(p.y as int, line)), x: (p.x - 1) as nat, y: p.y }
        }
    }

    /// The character or line break before the cursor leaves.
    pub open spec fn remove_char(self) -> Buffer {
        if self.is_single_line() {
            self.remove_char_single_line()
        } else {
            self.remove_char_multi_line()
        }
    }

    /// The buffer after `command`.
    pub open spec fn apply(self, command: EditCommand) -> Buffer {
        match command {
            EditCommand::MoveLeft => self.move_left(),
            EditCommand::MoveRight => self.move_right(),
            EditCommand::MoveUp => self.move_up(),
            EditCommand::MoveDown => self.move_down(),
            EditCommand::StartOfLine => self.move_to_start_of_line(),
            EditCommand::EndOfSingleLine => self.move_to_end_single_line(),
            EditCommand::EndOfMultiLine => self.move_to_end_multi_line(),
            EditCommand::Insert(c) => self.add_char(c),
            EditCommand::Newline => self.add_newline(),
            EditCommand::Remove => self.remove_char(),
            EditCommand::RemoveInSingleLine => self.remove_char_single_line(),
        }
    }

    /// The cursor that `command` leads to can be held.
    pub open spec fn admits(self, command: EditCommand) -> bool {
        self.apply(command).can_hold()
    }

    /// The buffer after `command`, where the command is admitted; the buffer
    /// as it is, where it is not.
    pub open spec fn edit(self, command: EditCommand) -> Buffer {
        if self.admits(command) {
            self.apply(command)
        } else {
            self
        }
    }
}

} // verus!
