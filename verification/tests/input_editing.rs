use restui::buffer::EditCommand;
use restui::cursor::Coordinates;
use restui::input::Input;

fn input(text: &str, x: u16, y: u16) -> Input {
    Input { text: text.to_string(), cursor_position: Coordinates { x, y } }
}

fn cursor(input: &Input) -> (u16, u16) {
    (input.cursor_position.x, input.cursor_position.y)
}

fn in_range(input: &Input) -> bool {
    let lines: Vec<&str> = input.text.split('\n').collect();
    let (x, y) = cursor(input);
    (y as usize) < lines.len() && (x as usize) <= lines[y as usize].chars().count()
}

#[test]
fn insert_at_end_of_single_line() {
    let mut i = input("abc", 3, 0);
    i.add_char_at_cursor('d');
    assert_eq!(i.text, "abcd");
    assert_eq!(cursor(&i), (4, 0));
}

#[test]
fn remove_at_line_start_joins_lines() {
    let mut i = input("ab\ncd", 0, 1);
    i.remove_char_before_cursor();
    assert_eq!(i.text, "abcd");
    assert_eq!(cursor(&i), (2, 0));
}

#[test]
fn move_right_at_end_stays() {
    let mut i = input("hello", 5, 0);
    i.move_cursor_right();
    assert_eq!(cursor(&i), (5, 0));
    assert_eq!(i.text, "hello");
}

#[test]
fn move_down_in_single_line_resets_column() {
    let mut i = input("x", 1, 0);
    i.move_cursor_down();
    assert_eq!(cursor(&i), (0, 0));
    assert_eq!(i.text, "x");
}

#[test]
fn default_input_is_empty_at_origin() {
    let i = Input::default();
    assert_eq!(i.text, "");
    assert_eq!(cursor(&i), (0, 0));
    let c = Coordinates::default();
    assert_eq!((c.x, c.y), (0, 0));
}

#[test]
fn new_input_starts_at_origin() {
    let i = Input::new("hello\nworld".to_string());
    assert_eq!(i.text, "hello\nworld");
    assert_eq!(cursor(&i), (0, 0));
    assert_eq!(i.line_count(), 2);
}

#[test]
fn clamp_column_and_line() {
    assert_eq!(Coordinates::clamp_column(3, 5), 3);
    assert_eq!(Coordinates::clamp_column(7, 5), 5);
    assert_eq!(Coordinates::clamp_column(0, 0), 0);
    assert_eq!(Coordinates::clamp_column(65535, 70000), 65535);
    assert_eq!(Coordinates::clamp_line(2, 2), 2);
    assert_eq!(Coordinates::clamp_line(9, 2), 2);
}

#[test]
fn move_left_stops_at_column_zero() {
    let mut i = input("abc", 2, 0);
    i.move_cursor_left();
    assert_eq!(cursor(&i), (1, 0));
    i.move_cursor_left();
    assert_eq!(cursor(&i), (0, 0));
    i.move_cursor_left();
    assert_eq!(cursor(&i), (0, 0));
    assert_eq!(i.text, "abc");
}

#[test]
fn move_left_keeps_line() {
    let mut i = input("ab\ncd", 1, 1);
    i.move_cursor_left();
    assert_eq!(cursor(&i), (0, 1));
}

#[test]
fn move_right_counts_in_current_line() {
    let mut i = input("ab\ncdef", 2, 0);
    i.move_cursor_right();
    assert_eq!(cursor(&i), (2, 0));
    let mut j = input("ab\ncdef", 2, 1);
    j.move_cursor_right();
    assert_eq!(cursor(&j), (3, 1));
}

#[test]
fn move_right_without_matching_line_uses_whole_text() {
    let mut i = input("ab\ncd", 3, 7);
    i.move_cursor_right();
    assert_eq!(cursor(&i), (4, 7));
    i.move_cursor_right();
    assert_eq!(cursor(&i), (5, 7));
    i.move_cursor_right();
    assert_eq!(cursor(&i), (5, 7));
}

#[test]
fn move_up_resets_column_and_stops_at_first_line() {
    let mut i = input("ab\ncd\nef", 2, 2);
    i.move_cursor_up();
    assert_eq!(cursor(&i), (0, 1));
    i.move_cursor_up();
    assert_eq!(cursor(&i), (0, 0));
    i.move_cursor_up();
    assert_eq!(cursor(&i), (0, 0));
}

#[test]
fn move_down_resets_column_and_stops_at_last_line() {
    let mut i = input("ab\ncd\nef", 2, 0);
    i.move_cursor_down();
    assert_eq!(cursor(&i), (0, 1));
    i.move_cursor_down();
    assert_eq!(cursor(&i), (0, 2));
    i.move_cursor_down();
    assert_eq!(cursor(&i), (0, 2));
}

#[test]
fn move_down_in_empty_text() {
    let mut i = input("", 0, 0);
    i.move_cursor_down();
    assert_eq!(cursor(&i), (0, 0));
}

#[test]
fn move_to_start_of_line() {
    let mut i = input("ab\ncd", 2, 1);
    i.move_cursor_to_start_of_line();
    assert_eq!(cursor(&i), (0, 1));
}

#[test]
fn move_to_end_of_single_line() {
    let mut i = input("hello", 1, 0);
    i.move_cursor_to_end_single_line();
    assert_eq!(cursor(&i), (5, 0));
    let mut e = input("", 0, 0);
    e.move_cursor_to_end_single_line();
    assert_eq!(cursor(&e), (0, 0));
}

#[test]
fn move_to_end_of_multi_line_is_one_past() {
    let mut i = input("ab\ncdef", 0, 1);
    i.move_cursor_to_end_multi_line();
    assert_eq!(cursor(&i), (5, 1));
    let mut j = input("ab\ncdef", 0, 0);
    j.move_cursor_to_end_multi_line();
    assert_eq!(cursor(&j), (3, 0));
}

#[test]
fn end_of_line_counts_characters_not_bytes() {
    let mut i = input("h\u{e9}llo", 0, 0);
    i.move_cursor_to_end_single_line();
    assert_eq!(cursor(&i), (5, 0));
}

#[test]
fn insert_in_the_middle_of_single_line() {
    let mut i = input("ac", 1, 0);
    i.add_char_at_cursor('b');
    assert_eq!(i.text, "abc");
    assert_eq!(cursor(&i), (2, 0));
}

#[test]
fn insert_after_a_wide_character() {
    let mut i = input("\u{e9}\u{e9}", 1, 0);
    i.add_char_at_cursor('x');
    assert_eq!(i.text, "\u{e9}x\u{e9}");
    assert_eq!(cursor(&i), (2, 0));
    i.remove_char_before_cursor();
    assert_eq!(i.text, "\u{e9}\u{e9}");
    assert_eq!(cursor(&i), (1, 0));
}

#[test]
fn insert_into_empty_text() {
    let mut i = input("", 0, 0);
    i.add_char_at_cursor('a');
    assert_eq!(i.text, "a");
    assert_eq!(cursor(&i), (1, 0));
}

#[test]
fn insert_touches_only_the_line_of_the_cursor() {
    let mut i = input("ab\ncd\nef", 1, 1);
    i.add_char_at_cursor('X');
    assert_eq!(i.text, "ab\ncXd\nef");
    assert_eq!(cursor(&i), (2, 1));
}

#[test]
fn insert_at_end_of_last_line() {
    let mut i = input("ab\ncd", 2, 1);
    i.add_char_at_cursor('e');
    assert_eq!(i.text, "ab\ncde");
    assert_eq!(cursor(&i), (3, 1));
}

#[test]
fn single_and_multi_line_insert_agree_on_one_line() {
    let mut a = input("abc", 1, 0);
    let mut b = input("abc", 1, 0);
    a.add_char_at_cursor_single_line('x');
    b.add_char_at_cursor_multi_line('x');
    assert_eq!(a.text, b.text);
    assert_eq!(cursor(&a), cursor(&b));
    assert_eq!(a.text, "axbc");
}

#[test]
fn insert_with_cursor_past_the_line_goes_to_its_end() {
    let mut i = input("ab\ncd", 9, 0);
    i.add_char_at_cursor('x');
    assert_eq!(i.text, "abx\ncd");
    assert_eq!(cursor(&i), (3, 0));
    assert!(in_range(&i));
}

#[test]
fn newline_splits_the_line_at_the_cursor() {
    let mut i = input("abcd", 2, 0);
    i.add_newline_at_cursor();
    assert_eq!(i.text, "ab\ncd");
    assert_eq!(cursor(&i), (0, 1));
}

#[test]
fn newline_in_the_middle_of_several_lines() {
    let mut i = input("ab\ncdef\ngh", 1, 1);
    i.add_newline_at_cursor();
    assert_eq!(i.text, "ab\nc\ndef\ngh");
    assert_eq!(cursor(&i), (0, 2));
}

#[test]
fn newline_at_end_of_text_opens_empty_line() {
    let mut i = input("ab", 2, 0);
    i.add_newline_at_cursor();
    assert_eq!(i.text, "ab\n");
    assert_eq!(cursor(&i), (0, 1));
    i.add_char_at_cursor('c');
    assert_eq!(i.text, "ab\nc");
    assert_eq!(cursor(&i), (1, 1));
}

#[test]
fn remove_in_single_line() {
    let mut i = input("abc", 2, 0);
    i.remove_char_before_cursor_single_line();
    assert_eq!(i.text, "ac");
    assert_eq!(cursor(&i), (1, 0));
}

#[test]
fn remove_at_column_zero_of_single_line_does_nothing() {
    let mut i = input("abc", 0, 0);
    i.remove_char_before_cursor_single_line();
    assert_eq!(i.text, "abc");
    assert_eq!(cursor(&i), (0, 0));
    i.remove_char_before_cursor();
    assert_eq!(i.text, "abc");
    assert_eq!(cursor(&i), (0, 0));
}

#[test]
fn remove_at_start_of_multi_line_text_does_nothing() {
    let mut i = input("ab\ncd", 0, 0);
    i.remove_char_before_cursor();
    assert_eq!(i.text, "ab\ncd");
    assert_eq!(cursor(&i), (0, 0));
}

#[test]
fn remove_within_a_line_of_several() {
    let mut i = input("ab\ncde\nfg", 2, 1);
    i.remove_char_before_cursor();
    assert_eq!(i.text, "ab\nce\nfg");
    assert_eq!(cursor(&i), (1, 1));
}

#[test]
fn remove_joins_with_an_empty_line_above() {
    let mut i = input("\ncd", 0, 1);
    i.remove_char_before_cursor();
    assert_eq!(i.text, "cd");
    assert_eq!(cursor(&i), (0, 0));
}

#[test]
fn remove_joins_the_last_two_of_three_lines() {
    let mut i = input("ab\ncd\nef", 0, 2);
    i.remove_char_before_cursor_multi_line();
    assert_eq!(i.text, "ab\ncdef");
    assert_eq!(cursor(&i), (2, 1));
}

#[test]
fn left_then_right_returns() {
    let mut i = input("ab\ncdef", 2, 1);
    i.move_cursor_left();
    i.move_cursor_right();
    assert_eq!(cursor(&i), (2, 1));
    assert_eq!(i.text, "ab\ncdef");
}

#[test]
fn insert_then_remove_restores() {
    for (text, x, y) in [("abc", 0u16, 0u16), ("abc", 3, 0), ("ab\ncd", 1, 1), ("ab\n\ncd", 0, 1)] {
        let mut i = input(text, x, y);
        i.add_char_at_cursor('z');
        i.remove_char_before_cursor();
        assert_eq!(i.text, text);
        assert_eq!(cursor(&i), (x, y));
    }
}

#[test]
fn newline_then_remove_restores() {
    for (text, x, y) in [("abc", 0u16, 0u16), ("abc", 2, 0), ("abc", 3, 0), ("ab\ncd", 1, 1), ("", 0, 0)] {
        let mut i = input(text, x, y);
        i.add_newline_at_cursor();
        i.remove_char_before_cursor();
        assert_eq!(i.text, text);
        assert_eq!(cursor(&i), (x, y));
    }
}

#[test]
fn cursor_stays_in_range_through_a_session() {
    let mut i = input("", 0, 0);
    let commands = [
        EditCommand::Insert('a'),
        EditCommand::Insert('b'),
        EditCommand::Newline,
        EditCommand::Insert('c'),
        EditCommand::MoveUp,
        EditCommand::MoveRight,
        EditCommand::MoveRight,
        EditCommand::MoveRight,
        EditCommand::Newline,
        EditCommand::MoveDown,
        EditCommand::MoveDown,
        EditCommand::Remove,
        EditCommand::Remove,
        EditCommand::MoveLeft,
        EditCommand::StartOfLine,
        EditCommand::Remove,
        EditCommand::Insert('\n'),
        EditCommand::Remove,
    ];
    for command in commands {
        assert!(i.admits(command));
        i.apply(command);
        assert!(in_range(&i));
    }
    assert_eq!(i.text, "\nabc");
    assert_eq!(cursor(&i), (0, 0));
}

#[test]
fn apply_runs_the_named_operation() {
    let mut a = input("ab\ncd", 1, 1);
    let mut b = input("ab\ncd", 1, 1);
    a.apply(EditCommand::EndOfMultiLine);
    b.move_cursor_to_end_multi_line();
    assert_eq!(cursor(&a), cursor(&b));
    a.apply(EditCommand::RemoveInSingleLine);
    b.remove_char_before_cursor_single_line();
    assert_eq!(a.text, b.text);
    assert_eq!(cursor(&a), cursor(&b));
    a.apply(EditCommand::EndOfSingleLine);
    assert_eq!(cursor(&a), (4, 1));
}

#[test]
fn edit_refuses_a_column_that_cannot_be_held() {
    let full: String = std::iter::repeat('a').take(65535).collect();
    let mut i = Input::new(full.clone());
    assert!(i.edit(EditCommand::EndOfSingleLine));
    assert_eq!(cursor(&i), (65535, 0));
    assert!(!i.admits(EditCommand::Insert('b')));
    assert!(!i.edit(EditCommand::Insert('b')));
    assert_eq!(i.text, full);
    assert_eq!(cursor(&i), (65535, 0));
    assert!(i.edit(EditCommand::Remove));
    assert_eq!(i.text.chars().count(), 65534);
    assert_eq!(cursor(&i), (65534, 0));
    assert!(i.edit(EditCommand::Insert('b')));
    assert_eq!(cursor(&i), (65535, 0));
    assert!(i.text.ends_with('b'));
}

#[test]
fn a_long_text_is_edited_where_the_cursor_can_be_held() {
    let full: String = std::iter::repeat('a').take(65535).collect();
    let mut i = Input::new(full.clone());
    assert!(i.edit(EditCommand::Insert('b')));
    assert_eq!(i.text.chars().count(), 65536);
    assert!(i.text.starts_with("ba"));
    assert_eq!(cursor(&i), (1, 0));
    assert!(!i.edit(EditCommand::EndOfSingleLine));
    assert_eq!(cursor(&i), (1, 0));
    assert!(i.edit(EditCommand::MoveRight));
    assert_eq!(cursor(&i), (2, 0));
    assert!(i.edit(EditCommand::Remove));
    assert_eq!(i.text.chars().count(), 65535);
    assert!(i.text.starts_with("baa"));
    assert_eq!(cursor(&i), (1, 0));
}

#[test]
fn a_full_line_can_still_be_cut() {
    let full: String = std::iter::repeat('a').take(65535).collect();
    let mut i = Input::new(full.clone());
    assert!(i.edit(EditCommand::EndOfSingleLine));
    assert!(i.edit(EditCommand::Newline));
    assert_eq!(i.text.chars().count(), 65536);
    assert!(i.text.ends_with('\n'));
    assert_eq!(cursor(&i), (0, 1));
    assert!(i.edit(EditCommand::Insert('x')));
    assert_eq!(cursor(&i), (1, 1));
    assert!(i.edit(EditCommand::Remove));
    assert!(i.edit(EditCommand::Remove));
    assert_eq!(i.text, full);
    assert_eq!(cursor(&i), (65535, 0));
}

#[test]
fn lines_are_not_joined_where_the_cursor_cannot_be_held() {
    let long: String = std::iter::repeat('a').take(65536).collect();
    let text = format!("{}\nb", long);
    let mut i = Input { text: text.clone(), cursor_position: Coordinates { x: 0, y: 1 } };
    assert!(!i.admits(EditCommand::Remove));
    assert!(!i.edit(EditCommand::Remove));
    assert_eq!(i.text, text);
    assert_eq!(cursor(&i), (0, 1));
    assert!(i.edit(EditCommand::MoveRight));
    assert!(i.edit(EditCommand::Remove));
    assert_eq!(i.text, format!("{}\n", long));
    assert_eq!(cursor(&i), (0, 1));
    assert!(i.edit(EditCommand::MoveUp));
    assert!(!i.edit(EditCommand::EndOfMultiLine));
    assert_eq!(cursor(&i), (0, 0));
}

#[test]
fn line_lengths_are_reported() {
    let i = input("ab\ncdef", 0, 1);
    assert_eq!(i.current_line_len(), 4);
    assert_eq!(i.line_count(), 2);
    let j = input("ab\ncdef", 0, 5);
    assert_eq!(j.current_line_len(), 7);
    let k = input("", 0, 0);
    assert_eq!(k.line_count(), 1);
    assert_eq!(k.current_line_len(), 0);
}

#[test]
fn clone_keeps_text_and_cursor() {
    let i = input("ab\ncd", 1, 1);
    let c = i.clone();
    assert_eq!(c.text, "ab\ncd");
    assert_eq!(cursor(&c), (1, 1));
}
