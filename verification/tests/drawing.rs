use restui::app::{App, AppPopup, InputMode, Response};
use restui::cursor::Coordinates;
use restui::input::Input;
use restui::layout::{
    margin, method_width, minus, plus, popup_height, popup_help_line, popup_row,
    response_line_count, rows_of_three, Area,
};
use restui::navigation::{AppBlock, RequestMethod};
use restui::render::{
    border_colour, choice_border_colour, clamp_scroll, create_input, cursor_spans,
    field_border_colour, max_scroll, method_colour,
    plain_spans, row_spans, status_colour, status_text, translate_colour, Colour, Rgba, Segment,
    SpanStyle, StyledSpan,
};

fn input(text: &str, x: u16, y: u16) -> Input {
    Input { text: text.to_string(), cursor_position: Coordinates { x, y } }
}

fn seg(text: &str, r: u8) -> Segment {
    Segment { colour: Rgba { r, g: 0, b: 0, a: 255 }, text: text.to_string() }
}

fn shown(spans: &[StyledSpan]) -> Vec<(String, SpanStyle, bool)> {
    spans.iter().map(|s| (s.text.clone(), s.style, s.cursor)).collect()
}

fn text_of(spans: &[StyledSpan]) -> String {
    spans.iter().map(|s| s.text.as_str()).collect()
}

fn cursor_cells(spans: &[StyledSpan]) -> Vec<String> {
    spans.iter().filter(|s| s.cursor).map(|s| s.text.clone()).collect()
}

fn raw(text: &str) -> (String, SpanStyle, bool) {
    (text.to_string(), SpanStyle::Default, false)
}

fn fg(text: &str, r: u8) -> (String, SpanStyle, bool) {
    (text.to_string(), SpanStyle::Foreground(r, 0, 0), false)
}

fn cell(text: &str, style: SpanStyle) -> (String, SpanStyle, bool) {
    (text.to_string(), style, true)
}

#[test]
fn input_is_cut_around_the_cursor() {
    let app = App::default();
    let spans = create_input(&input("hello", 1, 0), &app, true);
    assert_eq!(shown(&spans), vec![raw("h"), cell("e", SpanStyle::Default), raw("llo")]);
}

#[test]
fn input_cursor_at_the_end_is_a_blank() {
    let app = App::default();
    let spans = create_input(&input("hello", 5, 0), &app, true);
    assert_eq!(shown(&spans), vec![raw("hello"), cell(" ", SpanStyle::Default), raw("")]);
    let empty = create_input(&input("", 0, 0), &app, false);
    assert_eq!(shown(&empty), vec![raw(""), cell(" ", SpanStyle::Default), raw("")]);
    let past = create_input(&input("ab", 9, 0), &app, false);
    assert_eq!(shown(&past), vec![raw("ab"), cell(" ", SpanStyle::Default), raw("")]);
}

#[test]
fn input_cursor_is_highlighted_while_typing_in_the_selected_field() {
    let mut app = App::default();
    app.input_mode = InputMode::Insert;
    let spans = create_input(&input("h\u{e9}llo", 1, 0), &app, true);
    assert_eq!(shown(&spans), vec![raw("h"), cell("\u{e9}", SpanStyle::Highlight), raw("llo")]);
    let other = create_input(&input("hello", 0, 0), &app, false);
    assert_eq!(shown(&other), vec![raw(""), cell("h", SpanStyle::Default), raw("ello")]);
}

#[test]
fn plain_rows_have_one_span_for_each_segment() {
    let spans = plain_spans(&vec![seg("ab", 1), seg("cd", 2)]);
    assert_eq!(shown(&spans), vec![fg("ab", 1), fg("cd", 2)]);
    assert_eq!(shown(&row_spans(&vec![seg("ab", 1)], false, 0, true)), vec![fg("ab", 1)]);
    assert!(plain_spans(&Vec::new()).is_empty());
}

#[test]
fn transparent_colours_are_not_drawn() {
    assert_eq!(translate_colour(Rgba { r: 1, g: 2, b: 3, a: 4 }), Some((1, 2, 3)));
    assert_eq!(translate_colour(Rgba { r: 1, g: 2, b: 3, a: 0 }), None);
    let spans =
        plain_spans(&vec![Segment { colour: Rgba { r: 9, g: 9, b: 9, a: 0 }, text: "x".to_string() }]);
    assert_eq!(shown(&spans), vec![raw("x")]);
}

#[test]
fn cursor_inside_a_segment_cuts_it() {
    let spans = cursor_spans(&vec![seg("ab", 1), seg("cde", 2)], 3, true);
    assert_eq!(
        shown(&spans),
        vec![
            raw(""),
            fg("ab", 1),
            raw(""),
            fg("c", 2),
            cell("d", SpanStyle::Highlight),
            fg("e", 2),
        ]
    );
    assert_eq!(text_of(&spans), "abcde");
    assert_eq!(cursor_cells(&spans), vec!["d"]);
}

#[test]
fn cursor_on_a_segment_boundary_marks_the_first_cell_of_the_next() {
    let spans = cursor_spans(&vec![seg("ab", 1), seg("cde", 2)], 2, false);
    assert_eq!(
        shown(&spans),
        vec![
            raw(""),
            fg("ab", 1),
            raw(""),
            fg("", 2),
            cell("c", SpanStyle::Default),
            fg("de", 2),
        ]
    );
    assert_eq!(text_of(&spans), "abcde");
    assert_eq!(cursor_cells(&spans), vec!["c"]);
}

#[test]
fn cursor_at_the_start_marks_the_first_cell() {
    let spans = cursor_spans(&vec![seg("ab", 1), seg("cde", 2)], 0, false);
    assert_eq!(text_of(&spans), "abcde");
    assert_eq!(cursor_cells(&spans), vec!["a"]);
}

#[test]
fn cursor_at_the_end_of_the_line_gets_a_blank() {
    let spans = cursor_spans(&vec![seg("ab", 1), seg("cde", 2)], 5, true);
    assert_eq!(
        shown(&spans),
        vec![
            raw(""),
            fg("ab", 1),
            raw(""),
            raw(""),
            fg("cde", 2),
            cell(" ", SpanStyle::Highlight),
        ]
    );
    assert_eq!(cursor_cells(&spans), vec![" "]);
}

#[test]
fn cursor_in_an_empty_line_is_a_blank() {
    let spans = cursor_spans(&Vec::new(), 0, true);
    assert_eq!(shown(&spans), vec![cell(" ", SpanStyle::Highlight)]);
    assert_eq!(shown(&row_spans(&Vec::new(), true, 0, false)), vec![cell(" ", SpanStyle::Default)]);
}

#[test]
fn cursor_past_the_line_is_not_shown() {
    let spans = cursor_spans(&vec![seg("ab", 1)], 3, true);
    assert_eq!(text_of(&spans), "ab");
    assert!(cursor_cells(&spans).is_empty());
}

#[test]
fn every_column_of_a_line_has_exactly_one_cursor_cell() {
    let line = "abcdef";
    let cuts: Vec<Vec<Segment>> = vec![
        vec![seg("abcdef", 1)],
        vec![seg("a", 1), seg("bcdef", 2)],
        vec![seg("abc", 1), seg("def", 2)],
        vec![seg("ab", 1), seg("c", 2), seg("def", 3)],
    ];
    for segments in &cuts {
        for x in 0..=6u16 {
            let spans = cursor_spans(segments, x, true);
            let expected_text = if x == 6 { "abcdef ".to_string() } else { line.to_string() };
            assert_eq!(text_of(&spans), expected_text);
            let expected_cell =
                if x == 6 { " ".to_string() } else { line[x as usize..x as usize + 1].to_string() };
            assert_eq!(cursor_cells(&spans), vec![expected_cell]);
            let before: usize = spans.iter().take_while(|s| !s.cursor).map(|s| s.text.len()).sum();
            assert_eq!(before, x as usize);
        }
    }
}

#[test]
fn methods_and_statuses_have_their_colours() {
    assert_eq!(method_colour(RequestMethod::Get), Colour::Green);
    assert_eq!(method_colour(RequestMethod::Post), Colour::Blue);
    assert_eq!(method_colour(RequestMethod::Put), Colour::Yellow);
    assert_eq!(method_colour(RequestMethod::Delete), Colour::Red);
    assert_eq!(method_colour(RequestMethod::Patch), Colour::Magenta);
    assert_eq!(status_colour(200), Colour::Green);
    assert_eq!(status_colour(299), Colour::Green);
    assert_eq!(status_colour(301), Colour::Blue);
    assert_eq!(status_colour(404), Colour::Yellow);
    assert_eq!(status_colour(500), Colour::Red);
    assert_eq!(status_colour(599), Colour::Red);
    assert_eq!(status_colour(600), Colour::White);
    assert_eq!(status_colour(199), Colour::White);
    assert_eq!(status_colour(0), Colour::White);
}

#[test]
fn borders_tell_the_selected_pane() {
    let mut app = App::default();
    assert_eq!(border_colour(AppBlock::Endpoint, &app), Colour::Blue);
    assert_eq!(border_colour(AppBlock::Method, &app), Colour::White);
    app.input_mode = InputMode::Insert;
    assert_eq!(border_colour(AppBlock::Endpoint, &app), Colour::Green);
    assert_eq!(border_colour(AppBlock::Response, &app), Colour::White);
    app.popup = Some(AppPopup::ChangeMethod);
    assert_eq!(border_colour(AppBlock::Endpoint, &app), Colour::White);
}

#[test]
fn status_line_text() {
    let mut app = App::default();
    assert_eq!(status_text(&app), "Press <Enter> to send request");
    app.is_loading = true;
    assert_eq!(status_text(&app), "Loading...");
    app.receive(Some(Response {
        status_code: 404,
        content_type: "text/plain".to_string(),
        text: String::new(),
    }));
    assert_eq!(status_text(&app), "404");
    app.is_loading = true;
    assert_eq!(status_text(&app), "Loading...");
}

#[test]
fn scrolling_is_limited_by_the_text() {
    assert_eq!(max_scroll(10, 20), 0);
    assert_eq!(max_scroll(20, 20), 0);
    assert_eq!(max_scroll(30, 20), 12);
    assert_eq!(max_scroll(5, 1), 6);
    assert_eq!(max_scroll(65535, 0), 65535);
    let mut app = App::default();
    app.response_scroll = (40, 3);
    clamp_scroll(&mut app, 30, 20);
    assert_eq!(app.response_scroll, (12, 3));
    clamp_scroll(&mut app, 100, 20);
    assert_eq!(app.response_scroll, (12, 3));
    clamp_scroll(&mut app, 5, 20);
    assert_eq!(app.response_scroll, (0, 3));
}

#[test]
fn screen_arithmetic_saturates() {
    assert_eq!(plus(2, 3), 5);
    assert_eq!(plus(65535, 3), 65535);
    assert_eq!(minus(5, 3), 2);
    assert_eq!(minus(3, 5), 0);
    assert_eq!(rows_of_three(5), 15);
    assert_eq!(rows_of_three(30000), 65535);
    assert_eq!(margin(80, 40), 20);
    assert_eq!(margin(81, 40), 20);
    assert_eq!(margin(30, 40), 0);
}

#[test]
fn popup_geometry() {
    assert_eq!(method_width(RequestMethod::Get), 7);
    assert_eq!(method_width(RequestMethod::Post), 8);
    assert_eq!(method_width(RequestMethod::Put), 7);
    assert_eq!(method_width(RequestMethod::Patch), 9);
    assert_eq!(method_width(RequestMethod::Delete), 10);
    assert_eq!(popup_height(5), 19);
    assert_eq!(popup_height(2), 10);
    let area = Area { x: 20, y: 3, width: 40, height: 19 };
    assert_eq!(popup_row(area, 0, 40), Area { x: 22, y: 4, width: 36, height: 3 });
    assert_eq!(popup_row(area, 2, 40), Area { x: 22, y: 10, width: 36, height: 3 });
    assert_eq!(popup_help_line(area, 5, 40), Area { x: 22, y: 20, width: 36, height: 1 });
    assert_eq!(popup_row(area, 1, 2), Area { x: 22, y: 7, width: 0, height: 3 });
}

#[test]
fn response_lines_are_counted() {
    assert_eq!(response_line_count(""), 0);
    assert_eq!(response_line_count("a"), 1);
    assert_eq!(response_line_count("a\n"), 1);
    assert_eq!(response_line_count("a\nb"), 2);
    assert_eq!(response_line_count("\n\n"), 2);
    let long: String = std::iter::repeat("x\n").take(70000).collect();
    assert_eq!(response_line_count(&long), 1);
    for text in ["", "a", "a\n", "a\nb", "\n\n", "a\r\nb\r\n"] {
        assert_eq!(response_line_count(text) as usize, text.lines().count());
    }
}

#[test]
fn popup_borders_tell_the_choice_and_the_field() {
    assert_eq!(choice_border_colour(true), Colour::Green);
    assert_eq!(choice_border_colour(false), Colour::White);
    let mut app = App::default();
    assert_eq!(field_border_colour(true, &app), Colour::Blue);
    assert_eq!(field_border_colour(false, &app), Colour::White);
    app.input_mode = InputMode::Insert;
    assert_eq!(field_border_colour(true, &app), Colour::Green);
    assert_eq!(field_border_colour(false, &app), Colour::White);
}
