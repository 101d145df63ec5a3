//! The editable text field: a string and the cursor in it.

use vstd::prelude::*;
use vstd::string::StrSliceExecFns;
use crate::buffer::{Buffer, EditCommand};
use crate::chars::{from_chars, join, rows, split, to_chars};
use crate::cursor::Coordinates;
use crate::laws::{
    in_place, lemma_add_newline_in_range, lemma_add_then_remove, lemma_apply_keeps_range,
    lemma_edits_restore_range, lemma_left_then_right, lemma_moves_keep_range,
    lemma_moves_restore_range, lemma_newline_then_remove, lemma_remove_char_in_range,
};
use crate::lines::newline;

verus! {

/// A text that can be edited at a cursor. The text is cut into lines at its
/// newline characters; the cursor names a line and a column in it.
pub struct Input {
    pub text: String,
    pub cursor_position: Coordinates,
}

impl View for Input {
    type V = Buffer;

    open spec fn view(&self) -> Buffer {
        Buffer {
            text: self.text@,
            x: self.cursor_position.x as nat,
            y: self.cursor_position.y as nat,
        }
    }
}

impl Default for Input {
    /// The empty text with the cursor at its start.
    fn default() -> (r: Self)
        ensures
            r@ == (Buffer { text: Seq::<char>::empty(), x: 0, y: 0 }),
    {
        Self { text: String::new(), cursor_position: Coordinates::default() }
    }
}

impl Clone for Input {
    fn clone(&self) -> (r: Self)
        ensures
            r@ == self@,
    {
        Self { text: self.text.clone(), cursor_position: self.cursor_position }
    }
}

impl Input {
    /// The text `text` with the cursor at its start.
    pub fn new(text: String) -> (r: Self)
        ensures
            r@ == (Buffer { text: text@, x: 0, y: 0 }),
    {
        Self { text, cursor_position: Coordinates::default() }
    }

    /// The number of lines of the text.
    pub fn line_count(&self) -> (n: usize)
        ensures
            n == self@.lines().len(),
            n >= 1,
    {
        let cs = to_chars(self.text.as_str());
        let ls = split(&cs);
        assert(rows(ls@).len() == ls@.len());
        ls.len()
    }

    /// The length of the line that the cursor stands in; that of the whole
    /// text where the cursor's line does not exist.
    pub fn current_line_len(&self) -> (n: usize)
        ensures
            n == self@.current_line().len(),
    {
        let cs = to_chars(self.text.as_str());
        let ls = split(&cs);
        assert(rows(ls@).len() == ls@.len());
        let y = self.cursor_position.y as usize;
        if y < ls.len() {
            assert(rows(ls@)[y as int] == ls@[y as int]@);
            ls[y].len()
        } else {
            cs.len()
        }
    }

    /// Moves the cursor one column to the left; at column zero it stays.
    pub fn move_cursor_left(&mut self)
        ensures
            final(self)@ == old(self)@.move_left(),
            old(self)@.wf() ==> final(self)@.wf(),
            old(self)@.wf() && old(self)@.x > 0 ==> final(self)@.move_right() == old(self)@,
    {
        proof {
            if old(self)@.wf() {
                lemma_moves_keep_range(old(self)@);
                if old(self)@.x > 0 {
                    lemma_left_then_right(old(self)@);
                }
            }
        }
        let total = self.text.as_str().unicode_len();
        let x = self.cursor_position.x;
        let moved: u16 = if x == 0 { 0 } else { x - 1 };
        self.cursor_position.x = Coordinates::clamp_column(moved, total);
    }

    /// Moves the cursor one column to the right; behind the last character of
    /// its line it stays. The column it leads to must be one that a cursor
    /// can hold.
    pub fn move_cursor_right(&mut self)
        requires
            old(self)@.move_right().can_hold(),
        ensures
            final(self)@ == old(self)@.move_right(),
            old(self)@.y < old(self)@.lines().len() ==> final(self)@.wf(),
    {
        proof {
            lemma_moves_restore_range(old(self)@);
        }
        let len = self.current_line_len();
        let x = self.cursor_position.x;
        if (x as usize) < len {
            self.cursor_position.x = x + 1;
        } else {
            self.cursor_position.x = len as u16;
        }
    }

    /// Moves the cursor to the start of the line above; in the first line, to
    /// the start of that line.
    pub fn move_cursor_up(&mut self)
        ensures
            final(self)@ == old(self)@.move_up(),
            old(self)@.y < old(self)@.lines().len() ==> final(self)@.wf(),
    {
        proof {
            lemma_moves_restore_range(old(self)@);
        }
        let y = self.cursor_position.y;
        self.cursor_position.y = if y == 0 { 0 } else { y - 1 };
        self.cursor_position.x = 0;
    }

    /// Moves the cursor to the start of the line below; in the last line, to
    /// the start of that line. The line it leads to must be one that a cursor
    /// can hold. Wherever the cursor was, it is in range afterwards.
    pub fn move_cursor_down(&mut self)
        requires
            old(self)@.move_down().can_hold(),
        ensures
            final(self)@ == old(self)@.move_down(),
            final(self)@.wf(),
    {
        proof {
            lemma_moves_restore_range(old(self)@);
        }
        self.cursor_position.x = 0;
        let last = self.line_count() - 1;
        let y = self.cursor_position.y;
        if (y as usize) < last {
            self.cursor_position.y = y + 1;
        } else {
            self.cursor_position.y = last as u16;
        }
    }

    /// Moves the cursor to column zero.
    pub fn move_cursor_to_start_of_line(&mut self)
        ensures
            final(self)@ == old(self)@.move_to_start_of_line(),
            old(self)@.y < old(self)@.lines().len() ==> final(self)@.wf(),
    {
        proof {
            lemma_moves_restore_range(old(self)@);
        }
        self.cursor_position.x = 0;
    }

    /// Moves the cursor behind the last character of a text that is one line.
    /// The column it leads to must be one that a cursor can hold.
    pub fn move_cursor_to_end_single_line(&mut self)
        requires
            old(self)@.move_to_end_single_line().can_hold(),
        ensures
            final(self)@ == old(self)@.move_to_end_single_line(),
            old(self)@.wf() && old(self)@.is_single_line() ==> final(self)@.wf(),
    {
        proof {
            if old(self)@.wf() && old(self)@.is_single_line() {
                lemma_moves_keep_range(old(self)@);
            }
        }
        self.cursor_position.x = self.text.as_str().unicode_len() as u16;
    }

    /// Moves the cursor one column past the position behind the last
    /// character of its line. The column it leads to must be one that a
    /// cursor can hold.
    pub fn move_cursor_to_end_multi_line(&mut self)
        requires
            old(self)@.move_to_end_multi_line().can_hold(),
        ensures
            final(self)@ == old(self)@.move_to_end_multi_line(),
    {
        let len = self.current_line_len();
        self.cursor_position.x = (len + 1) as u16;
    }
}

impl Input {
    /// Puts `c` into the text at the cursor's column, the text taken as one
    /// line, and leaves the cursor before it.
    fn insert_single_line(&mut self, c: char)
        ensures
            final(self)@ == old(self)@.with_char_single_line(c),
    {
        let mut cs = to_chars(self.text.as_str());
        let k = Coordinates::clamp_column(self.cursor_position.x, cs.len());
        cs.insert(k as usize, c);
        self.text = from_chars(&cs);
        self.cursor_position.x = k;
    }

    /// Puts `c` into the cursor's line at the cursor's column and leaves the
    /// cursor before it.
    fn insert_multi_line(&mut self, c: char)
        ensures
            final(self)@ == old(self)@.with_char_multi_line(c),
    {
        let cs = to_chars(self.text.as_str());
        let mut ls = split(&cs);
        let ghost before = rows(ls@);
        assert(before.len() == ls@.len());
        let y = Coordinates::clamp_line(self.cursor_position.y, ls.len() - 1);
        let mut line = ls.remove(y as usize);
        assert(line@ == before[y as int]);
        let x = Coordinates::clamp_column(self.cursor_position.x, line.len());
        line.insert(x as usize, c);
        ls.insert(y as usize, line);
        assert(rows(ls@) =~= before.update(y as int, before[y as int].insert(x as int, c)));
        let joined = join(&ls);
        self.text = from_chars(&joined);
        self.cursor_position.x = x;
        self.cursor_position.y = y;
    }

    /// Puts `c` into the text at the cursor and leaves the cursor before it.
    fn insert(&mut self, c: char)
        ensures
            final(self)@ == old(self)@.with_char(c),
    {
        if self.line_count() <= 1 {
            self.insert_single_line(c);
        } else {
            self.insert_multi_line(c);
        }
    }

    /// Inserts `c` at the cursor, in a text taken as one line, and moves the
    /// cursor right.
    pub fn add_char_at_cursor_single_line(&mut self, c: char)
        requires
            old(self)@.add_char_single_line(c).can_hold(),
        ensures
            final(self)@ == old(self)@.add_char_single_line(c),
            old(self)@.wf() && old(self)@.is_single_line() ==> final(self)@.wf(),
    {
        proof {
            if old(self)@.wf() && old(self)@.is_single_line() {
                lemma_apply_keeps_range(old(self)@, EditCommand::Insert(c));
            }
        }
        self.insert_single_line(c);
        self.move_cursor_right();
    }

    /// Inserts `c` into the cursor's line at the cursor's column and moves the
    /// cursor right. The other lines stay as they are.
    pub fn add_char_at_cursor_multi_line(&mut self, c: char)
        requires
            old(self)@.add_char_multi_line(c).can_hold(),
        ensures
            final(self)@ == old(self)@.add_char_multi_line(c),
            old(self)@.wf() && !old(self)@.is_single_line() ==> final(self)@.wf(),
    {
        proof {
            if old(self)@.wf() && !old(self)@.is_single_line() {
                lemma_apply_keeps_range(old(self)@, EditCommand::Insert(c));
            }
        }
        self.insert_multi_line(c);
        self.move_cursor_right();
    }

    /// Inserts `c` at the cursor and moves the cursor right. The column that
    /// the cursor moves to must be one that a cursor can hold; the text may
    /// be of any length. With the cursor in range, a removal takes back what
    /// was inserted.
    pub fn add_char_at_cursor(&mut self, c: char)
        requires
            old(self)@.add_char(c).can_hold(),
        ensures
            final(self)@ == old(self)@.add_char(c),
            old(self)@.wf() || !old(self)@.is_single_line() ==> final(self)@.wf(),
            old(self)@.wf() && c != newline() ==> final(self)@.remove_char() == old(self)@,
    {
        proof {
            if old(self)@.wf() {
                lemma_apply_keeps_range(old(self)@, EditCommand::Insert(c));
                if c != newline() {
                    lemma_add_then_remove(old(self)@, c);
                }
            } else if !old(self)@.is_single_line() {
                lemma_edits_restore_range(old(self)@, c);
            }
        }
        if self.line_count() <= 1 {
            self.add_char_at_cursor_single_line(c);
        } else {
            self.add_char_at_cursor_multi_line(c);
        }
    }
}

impl Input {
    /// Cuts the current line in two at the cursor and moves the cursor to the
    /// start of the second part. The line that the cursor moves to must be
    /// one that a cursor can hold. With the cursor in range, a removal makes
    /// the line whole again.
    pub fn add_newline_at_cursor(&mut self)
        requires
            old(self)@.add_newline().can_hold(),
        ensures
            final(self)@ == old(self)@.add_newline(),
            old(self)@.wf() || !old(self)@.is_single_line() ==> final(self)@.wf(),
            old(self)@.wf() ==> final(self)@.x == 0 && final(self)@.y == old(self)@.y + 1,
            old(self)@.wf() ==> final(self)@.remove_char() == old(self)@,
    {
        proof {
            if old(self)@.wf() {
                lemma_add_newline_in_range(old(self)@);
                lemma_newline_then_remove(old(self)@);
            } else if !old(self)@.is_single_line() {
                lemma_edits_restore_range(old(self)@, 'a');
            }
        }
        self.insert('\n');
        self.move_cursor_to_start_of_line();
        assert(self@ == old(self)@.add_char('\n').move_to_start_of_line());
        self.move_cursor_down();
    }

    /// Removes the character before the cursor, in a text taken as one line,
    /// and moves the cursor left. At column zero nothing happens.
    pub fn remove_char_before_cursor_single_line(&mut self)
        ensures
            final(self)@ == old(self)@.remove_char_single_line(),
            old(self)@.wf() && old(self)@.is_single_line() ==> final(self)@.wf(),
    {
        proof {
            if old(self)@.wf() && old(self)@.is_single_line() {
                lemma_remove_char_in_range(old(self)@);
            }
        }
        if self.cursor_position.x == 0 {
            return ;
        }
        let mut cs = to_chars(self.text.as_str());
        let k = Coordinates::clamp_column(self.cursor_position.x, cs.len());
        if k > 0 {
            cs.remove(k as usize - 1);
            self.text = from_chars(&cs);
            self.cursor_position.x = k;
        }
        self.move_cursor_left();
    }

    /// Removes what stands before the cursor: at column zero the break
    /// between the line above and the cursor's line, so that the two become
    /// one and the cursor stands where they meet; elsewhere the character
    /// before the cursor, after which the cursor moves left. At the very start
    /// of the text nothing happens.
    pub fn remove_char_before_cursor_multi_line(&mut self)
        requires
            old(self)@.remove_char_multi_line().can_hold(),
        ensures
            final(self)@ == old(self)@.remove_char_multi_line(),
            old(self)@.wf() && !old(self)@.is_single_line() ==> final(self)@.wf(),
    {
        proof {
            if old(self)@.wf() && !old(self)@.is_single_line() {
                lemma_remove_char_in_range(old(self)@);
            }
        }
        let cs = to_chars(self.text.as_str());
        let mut ls = split(&cs);
        let ghost before = rows(ls@);
        assert(before.len() == ls@.len());
        let y = Coordinates::clamp_line(self.cursor_position.y, ls.len() - 1);
        assert(before[y as int] == ls@[y as int]@);
        let x = Coordinates::clamp_column(self.cursor_position.x, ls[y as usize].len());
        self.cursor_position.y = y;
        self.cursor_position.x = x;
        if x == 0 && y == 0 {
            return ;
        }
        if x == 0 {
            let mut below = ls.remove(y as usize);
            let mut above = ls.remove(y as usize - 1);
            assert(below@ == before[y as int]);
            assert(above@ == before[y - 1]);
            let meet = above.len();
            above.append(&mut below);
            ls.insert(y as usize - 1, above);
            assert(rows(ls@) =~= before.take(y - 1).push(before[y - 1] + before[y as int])
                + before.skip(y + 1));
            let joined = join(&ls);
            self.text = from_chars(&joined);
            self.cursor_position.x = meet as u16;
            self.cursor_position.y = y - 1;
        } else {
            let mut line = ls.remove(y as usize);
            assert(line@ == before[y as int]);
            line.remove(x as usize - 1);
            ls.insert(y as usize, line);
            assert(rows(ls@) =~= before.update(y as int, before[y as int].remove(x - 1)));
            let joined = join(&ls);
            self.text = from_chars(&joined);
            self.cursor_position.x = x - 1;
        }
    }

    /// Removes the character or line break before the cursor. Where two lines
    /// become one, the column at which they meet must be one that a cursor
    /// can hold.
    pub fn remove_char_before_cursor(&mut self)
        requires
            old(self)@.remove_char().can_hold(),
        ensures
            final(self)@ == old(self)@.remove_char(),
            old(self)@.wf() || !old(self)@.is_single_line() ==> final(self)@.wf(),
    {
        proof {
            if old(self)@.wf() {
                lemma_remove_char_in_range(old(self)@);
            } else if !old(self)@.is_single_line() {
                lemma_edits_restore_range(old(self)@, 'a');
            }
        }
        if self.line_count() <= 1 {
            self.remove_char_before_cursor_single_line();
        } else {
            self.remove_char_before_cursor_multi_line();
        }
    }
}

impl Input {
    /// Whether `command` is admitted: whether the cursor it leads to can be
    /// held.
    pub fn admits(&self, command: EditCommand) -> (r: bool)
        ensures
            r == self@.admits(command),
    {
        match command {
            EditCommand::MoveLeft => true,
            EditCommand::MoveRight => self.admits_right(),
            EditCommand::MoveUp => true,
            EditCommand::MoveDown => self.admits_down(),
            EditCommand::StartOfLine => true,
            EditCommand::EndOfSingleLine => self.text.as_str().unicode_len() <= 0xffff,
            EditCommand::EndOfMultiLine => self.current_line_len() < 0xffff,
            EditCommand::Insert(c) => {
                let mut after = self.clone();
                after.insert(c);
                after.admits_right()
            },
            EditCommand::Newline => {
                let mut after = self.clone();
                after.insert('\n');
                after.move_cursor_to_start_of_line();
                after.admits_down()
            },
            EditCommand::Remove => self.admits_removal(),
            EditCommand::RemoveInSingleLine => true,
        }
    }

    /// Whether the column to the right of the cursor can be held.
    fn admits_right(&self) -> (r: bool)
        ensures
            r == self@.move_right().can_hold(),
    {
        self.cursor_position.x < 0xffff || self.current_line_len() <= 0xffff
    }

    /// Whether the line below the cursor can be held.
    fn admits_down(&self) -> (r: bool)
        ensures
            r == self@.move_down().can_hold(),
    {
        let last = self.line_count() - 1;
        let y = self.cursor_position.y;
        assert(self@.move_down().y == crate::cursor::clamp(y + 1, last as int));
        y < 0xffff || last <= 0xffff
    }

    /// Whether the cursor can be held after what stands before it was
    /// removed: where two lines become one, whether the column at which they
    /// meet can be held.
    fn admits_removal(&self) -> (r: bool)
        ensures
            r == self@.remove_char().can_hold(),
    {
        let cs = to_chars(self.text.as_str());
        let ls = split(&cs);
        assert(rows(ls@).len() == ls@.len());
        if ls.len() <= 1 {
            return true;
        }
        let y = Coordinates::clamp_line(self.cursor_position.y, ls.len() - 1);
        assert(rows(ls@)[y as int] == ls@[y as int]@);
        let x = Coordinates::clamp_column(self.cursor_position.x, ls[y as usize].len());
        if x == 0 && y > 0 {
            assert(rows(ls@)[y - 1] == ls@[y - 1]@);
            ls[y as usize - 1].len() <= 0xffff
        } else {
            true
        }
    }

    /// Carries out `command`.
    pub fn apply(&mut self, command: EditCommand)
        requires
            old(self)@.admits(command),
        ensures
            final(self)@ == old(self)@.apply(command),
            old(self)@.wf() && in_place(old(self)@, command) ==> final(self)@.wf(),
    {
        proof {
            if old(self)@.wf() && in_place(old(self)@, command) {
                lemma_apply_keeps_range(old(self)@, command);
            }
        }
        match command {
            EditCommand::MoveLeft => self.move_cursor_left(),
            EditCommand::MoveRight => self.move_cursor_right(),
            EditCommand::MoveUp => self.move_cursor_up(),
            EditCommand::MoveDown => self.move_cursor_down(),
            EditCommand::StartOfLine => self.move_cursor_to_start_of_line(),
            EditCommand::EndOfSingleLine => self.move_cursor_to_end_single_line(),
            EditCommand::EndOfMultiLine => self.move_cursor_to_end_multi_line(),
            EditCommand::Insert(c) => self.add_char_at_cursor(c),
            EditCommand::Newline => self.add_newline_at_cursor(),
            EditCommand::Remove => self.remove_char_before_cursor(),
            EditCommand::RemoveInSingleLine => self.remove_char_before_cursor_single_line(),
        }
    }

    /// Carries out `command` where it is admitted, and says whether it was.
    /// A command that is not admitted leaves text and cursor as they are.
    pub fn edit(&mut self, command: EditCommand) -> (done: bool)
        ensures
            done == old(self)@.admits(command),
            final(self)@ == old(self)@.edit(command),
            old(self)@.wf() && in_place(old(self)@, command) ==> final(self)@.wf(),
    {
        if self.admits(command) {
            self.apply(command);
            true
        } else {
            false
        }
    }
}

} // verus!
