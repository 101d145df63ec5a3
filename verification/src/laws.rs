//! What holds of the editing operations, proved over the model.

use vstd::prelude::*;
use crate::buffer::{max_coordinate, Buffer, EditCommand};
use crate::lines::{
    cut_at, lemma_cut_are_lines, lemma_cut_line, lemma_insert_in_line_len,
    lemma_insert_keeps_line, lemma_join_cut, lemma_join_split, lemma_line_count_bounds,
    lemma_merge_are_lines, lemma_remove_keeps_line, lemma_single_line, lemma_split_are_lines,
    lemma_split_concat, lemma_split_injective, lemma_split_join, lemma_split_line,
    lemma_split_newline, lemma_update_are_lines, merge_at, newline, split_lines,
};

verus! {

/// Inserting a character makes the text one character longer.
pub proof fn lemma_text_len_after_add(b: Buffer, c: char)
    ensures
        b.add_char(c).text.len() == b.text.len() + 1,
        b.add_char_single_line(c).text.len() == b.text.len() + 1,
        b.add_char_multi_line(c).text.len() == b.text.len() + 1,
{
    let p = b.clamped();
    lemma_line_count_bounds(b.text);
    lemma_join_split(b.text);
    lemma_insert_in_line_len(b.lines(), p.y as int, p.x as int, c);
}

/// With the cursor in range, inserting a character other than the newline
/// puts it into the cursor's line at the cursor's column, leaves the other
/// lines alone, and moves the cursor one column to the right. This holds of
/// a text of one line and of a text of several lines alike.
pub proof fn lemma_add_char_in_range(b: Buffer, c: char)
    requires
        b.wf(),
        c != newline(),
    ensures
        b.add_char(c).lines() == b.lines().update(
            b.y as int,
            b.lines()[b.y as int].insert(b.x as int, c),
        ),
        b.add_char(c).x == b.x + 1,
        b.add_char(c).y == b.y,
        b.add_char(c).wf(),
{
    let ls = b.lines();
    let y = b.y as int;
    let x = b.x as int;
    lemma_split_are_lines(b.text);
    lemma_insert_keeps_line(ls[y], x, c);
    if b.is_single_line() {
        lemma_single_line(b.text);
        let grown = b.text.insert(x, c);
        lemma_split_line(grown);
        assert(seq![grown] =~= ls.update(y, ls[y].insert(x, c)));
    } else {
        assert(b.clamped() == b);
        let changed = ls.update(y, ls[y].insert(x, c));
        lemma_update_are_lines(ls, y, ls[y].insert(x, c));
        lemma_split_join(changed);
    }
}

/// With the cursor in range, inserting a newline cuts the cursor's line in
/// two at the cursor's column and puts the cursor at the start of the second
/// part.
pub proof fn lemma_add_newline_in_range(b: Buffer)
    requires
        b.wf(),
    ensures
        b.add_newline().lines() == cut_at(b.lines(), b.y as int, b.x as int),
        b.add_newline().x == 0,
        b.add_newline().y == b.y + 1,
        b.add_newline().wf(),
        b.add_char(newline()).wf(),
{
    let ls = b.lines();
    let y = b.y as int;
    let x = b.x as int;
    let cut = cut_at(ls, y, x);
    lemma_split_are_lines(b.text);
    lemma_cut_are_lines(ls, y, x);
    if b.is_single_line() {
        lemma_single_line(b.text);
        let left = b.text.take(x);
        let right = b.text.skip(x);
        let grown = b.text.insert(x, newline());
        lemma_cut_line(b.text, x);
        lemma_split_line(left);
        lemma_split_line(right);
        lemma_split_newline();
        lemma_split_concat(left, seq![newline()]);
        lemma_split_concat(left + seq![newline()], right);
        assert(grown =~= left + seq![newline()] + right);
        assert(left + Seq::<char>::empty() =~= left);
        assert(Seq::<char>::empty() + right =~= right);
        assert(split_lines(grown) =~= seq![left, right]);
        assert(cut =~= seq![left, right]);
    } else {
        assert(b.clamped() == b);
        lemma_join_cut(ls, y, x);
        lemma_split_join(cut);
    }
    assert(b.add_char(newline()).lines() == cut);
    assert(cut[y] == ls[y].take(x));
}

/// With the cursor in range, removing before the cursor does one of three
/// things. At the very start of the text, nothing. At column zero of a later
/// line, the line and the one above it become one, and the cursor stands
/// where they meet. Elsewhere, the character before the cursor leaves its
/// line and the cursor moves one column to the left.
pub proof fn lemma_remove_char_in_range(b: Buffer)
    requires
        b.wf(),
    ensures
        b.x == 0 && b.y == 0 ==> b.remove_char() == b,
        b.x == 0 && b.y > 0 ==> {
            &&& b.remove_char().lines() == merge_at(b.lines(), b.y as int)
            &&& b.remove_char().x == b.lines()[b.y - 1].len()
            &&& b.remove_char().y == b.y - 1
        },
        b.x > 0 ==> {
            &&& b.remove_char().lines() == b.lines().update(
                b.y as int,
                b.lines()[b.y as int].remove(b.x - 1),
            )
            &&& b.remove_char().x == b.x - 1
            &&& b.remove_char().y == b.y
        },
        b.remove_char().wf(),
{
    let ls = b.lines();
    let y = b.y as int;
    let x = b.x as int;
    lemma_split_are_lines(b.text);
    if b.is_single_line() {
        lemma_single_line(b.text);
        if x > 0 {
            let less = b.text.remove(x - 1);
            lemma_remove_keeps_line(b.text, x - 1);
            lemma_split_line(less);
            assert(seq![less] =~= ls.update(y, ls[y].remove(x - 1)));
        }
    } else {
        assert(b.clamped() == b);
        if x == 0 && y > 0 {
            lemma_merge_are_lines(ls, y);
            lemma_split_join(merge_at(ls, y));
            assert(merge_at(ls, y)[y - 1] == ls[y - 1] + ls[y]);
        } else if x > 0 {
            lemma_remove_keeps_line(ls[y], x - 1);
            lemma_update_are_lines(ls, y, ls[y].remove(x - 1));
            lemma_split_join(ls.update(y, ls[y].remove(x - 1)));
        }
    }
}

/// With the cursor in range, every move but the two to the end of a line
/// leaves it in range.
pub proof fn lemma_moves_keep_range(b: Buffer)
    requires
        b.wf(),
    ensures
        b.move_left().wf(),
        b.move_right().wf(),
        b.move_up().wf(),
        b.move_down().wf(),
        b.move_to_start_of_line().wf(),
        b.is_single_line() ==> b.move_to_end_single_line().wf(),
{
    lemma_line_count_bounds(b.text);
    if b.is_single_line() {
        lemma_single_line(b.text);
    }
}

/// Some moves bring a cursor into range that was not. A move down does so
/// from anywhere. A move to the right, a move up and a move to the start of
/// the line do so from any column of a line that is there.
pub proof fn lemma_moves_restore_range(b: Buffer)
    ensures
        b.move_down().wf(),
        b.y < b.lines().len() ==> b.move_right().wf(),
        b.y < b.lines().len() ==> b.move_up().wf(),
        b.y < b.lines().len() ==> b.move_to_start_of_line().wf(),
{
    lemma_line_count_bounds(b.text);
}

/// In a text of several lines, inserting and removing bring a cursor into
/// range that was not: both start from the cursor brought into range.
pub proof fn lemma_edits_restore_range(b: Buffer, c: char)
    requires
        !b.is_single_line(),
    ensures
        b.add_char(c).wf(),
        b.add_newline().wf(),
        b.remove_char().wf(),
{
    let p = b.clamped();
    lemma_line_count_bounds(b.text);
    assert(p.lines() == b.lines());
    assert(p.wf());
    assert(p.clamped() == p);
    assert(b.add_char(c) == p.add_char(c));
    assert(b.add_char(newline()) == p.add_char(newline()));
    assert(b.remove_char() == p.remove_char());
    lemma_apply_keeps_range(p, EditCommand::Insert(c));
    lemma_add_newline_in_range(p);
    lemma_remove_char_in_range(p);
}

/// When the cursor that an operation leads to can be held. A move to the
/// left, up or to the start of the line never leads out of what can be held,
/// and neither does a removal in a text taken as one line. A move to the
/// right and an insertion add one to the column at most, a move down and a
/// newline add one to the line at most. With the cursor in range, a removal
/// leads out only where two lines are made one.
pub proof fn lemma_what_can_be_held(b: Buffer, c: char)
    requires
        b.can_hold(),
    ensures
        b.move_left().can_hold(),
        b.move_up().can_hold(),
        b.move_to_start_of_line().can_hold(),
        b.remove_char_single_line().can_hold(),
        b.x < max_coordinate() ==> b.move_right().can_hold(),
        b.x < max_coordinate() ==> b.add_char(c).can_hold(),
        b.y < max_coordinate() ==> b.move_down().can_hold(),
        b.y < max_coordinate() ==> b.add_newline().can_hold(),
        b.wf() && (b.x > 0 || b.y == 0) ==> b.remove_char().can_hold(),
{
    lemma_line_count_bounds(b.text);
    lemma_line_count_bounds(b.add_char(newline()).text);
    if b.wf() {
        lemma_remove_char_in_range(b);
    }
}

/// Left, then right, from a column other than zero: the cursor is back where
/// it was.
pub proof fn lemma_left_then_right(b: Buffer)
    requires
        b.wf(),
        b.x > 0,
    ensures
        b.move_left().move_right() == b,
{
    crate::lines::lemma_line_len_bound(b.text, b.y as int);
}

/// Right, then left, from a column before the end of the line: the cursor is
/// back where it was.
pub proof fn lemma_right_then_left(b: Buffer)
    requires
        b.wf(),
        b.x < b.lines()[b.y as int].len(),
    ensures
        b.move_right().move_left() == b,
{
    crate::lines::lemma_line_len_bound(b.text, b.y as int);
}

/// Inserting a character other than the newline and then removing before the
/// cursor restores text and cursor.
pub proof fn lemma_add_then_remove(b: Buffer, c: char)
    requires
        b.wf(),
        c != newline(),
    ensures
        b.add_char(c).remove_char() == b,
{
    let ls = b.lines();
    let y = b.y as int;
    let x = b.x as int;
    let added = b.add_char(c);
    lemma_add_char_in_range(b, c);
    lemma_remove_char_in_range(added);
    let back = added.remove_char();
    assert(ls[y].insert(x, c).remove(x) =~= ls[y]);
    assert(back.lines() =~= ls);
    lemma_split_injective(back.text, b.text);
}

/// Inserting a newline and then removing before the cursor restores text and
/// cursor: the cut line is whole again.
pub proof fn lemma_newline_then_remove(b: Buffer)
    requires
        b.wf(),
    ensures
        b.add_newline().remove_char() == b,
{
    let ls = b.lines();
    let y = b.y as int;
    let x = b.x as int;
    let cut = b.add_newline();
    lemma_add_newline_in_range(b);
    lemma_remove_char_in_range(cut);
    let back = cut.remove_char();
    let cl = cut.lines();
    assert(cl[y] + cl[y + 1] =~= ls[y]);
    assert(merge_at(cl, y + 1) =~= ls);
    lemma_split_injective(back.text, b.text);
}

/// The buffer after the commands `commands`, carried out in order.
pub open spec fn run(b: Buffer, commands: Seq<EditCommand>) -> Buffer
    decreases commands.len(),
{
    if commands.len() == 0 {
        b
    } else {
        run(b, commands.drop_last()).apply(commands.last())
    }
}

/// `command` is used where it is meant to be used: the two commands that
/// take the text as one line on a text of one line, and the move past the
/// end of a line not at all, since it leaves the line by design.
pub open spec fn in_place(b: Buffer, command: EditCommand) -> bool {
    match command {
        EditCommand::EndOfMultiLine => false,
        EditCommand::EndOfSingleLine => b.is_single_line(),
        EditCommand::RemoveInSingleLine => b.is_single_line(),
        _ => true,
    }
}

/// A command used in its place leaves a cursor that is in range in range.
pub proof fn lemma_apply_keeps_range(b: Buffer, command: EditCommand)
    requires
        b.wf(),
        in_place(b, command),
    ensures
        b.apply(command).wf(),
{
    lemma_moves_keep_range(b);
    lemma_add_newline_in_range(b);
    lemma_remove_char_in_range(b);
    match command {
        EditCommand::Insert(c) => {
            if c != newline() {
                lemma_add_char_in_range(b, c);
            }
        },
        _ => {},
    }
}

/// After any sequence of commands, each used in its place, the cursor is in
/// range: it stands in a line of the text, at one of its characters or just
/// behind the last one.
pub proof fn lemma_run_keeps_range(b: Buffer, commands: Seq<EditCommand>)
    requires
        b.wf(),
        forall|i: int|
            0 <= i < commands.len() ==> in_place(run(b, commands.take(i)), #[trigger] commands[i]),
    ensures
        run(b, commands).wf(),
    decreases commands.len(),
{
    if commands.len() > 0 {
        let front = commands.drop_last();
        assert forall|i: int| 0 <= i < front.len() implies in_place(
            run(b, front.take(i)),
            #[trigger] front[i],
        ) by {
            assert(front.take(i) =~= commands.take(i));
            assert(front[i] == commands[i]);
        }
        lemma_run_keeps_range(b, front);
        assert(commands.take(commands.len() - 1) =~= front);
        assert(in_place(run(b, front), commands[commands.len() - 1]));
        lemma_apply_keeps_range(run(b, front), commands.last());
    }
}

} // verus!
