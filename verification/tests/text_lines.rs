use restui::chars::{from_chars, from_chars_range, join, split, to_chars};

fn chars(s: &str) -> Vec<char> {
    s.chars().collect()
}

#[test]
fn to_chars_and_back() {
    assert_eq!(to_chars("h\u{e9}\n"), vec!['h', '\u{e9}', '\n']);
    assert_eq!(from_chars(&chars("h\u{e9}\n")), "h\u{e9}\n");
    assert_eq!(to_chars(""), Vec::<char>::new());
    assert_eq!(from_chars_range(&chars("hello"), 1, 3), "el");
    assert_eq!(from_chars_range(&chars("hello"), 2, 2), "");
}

#[test]
fn split_cuts_at_every_newline() {
    assert_eq!(split(&chars("")), vec![chars("")]);
    assert_eq!(split(&chars("abc")), vec![chars("abc")]);
    assert_eq!(split(&chars("ab\ncd")), vec![chars("ab"), chars("cd")]);
    assert_eq!(split(&chars("\n")), vec![chars(""), chars("")]);
    assert_eq!(split(&chars("a\n\nb\n")), vec![chars("a"), chars(""), chars("b"), chars("")]);
}

#[test]
fn join_puts_newlines_between_lines() {
    assert_eq!(join(&vec![chars("ab"), chars("cd")]), chars("ab\ncd"));
    assert_eq!(join(&vec![chars("ab")]), chars("ab"));
    assert_eq!(join(&vec![chars(""), chars("")]), chars("\n"));
    assert_eq!(join(&Vec::new()), chars(""));
}

#[test]
fn join_undoes_split() {
    for text in ["", "abc", "a\nb", "\n\n", "x\ny\n", "\nz"] {
        assert_eq!(join(&split(&chars(text))), chars(text));
    }
}
