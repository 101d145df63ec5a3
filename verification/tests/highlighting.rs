use restui::app::{App, BodyContentType, BodyType, InputMode, Request};
use restui::cursor::Coordinates;
use restui::input::Input;
use restui::navigation::AppBlock;
use restui::render::{Rgba, Segment, SpanStyle, StyledSpan};
use restui::request::{
    content_type_for, content_type_of, is_json, payload, payload_for, response_of, Payload,
};
use restui::cache::HighlightCache;
use restui::request::contains;
use restui::syntax::{
    cached_rows, check_segments, clone_rows, create_textarea, highlight_response, makes_up,
    same_text, segment, syntax_name, to_segments, Highlighting,
};

fn input(text: &str, x: u16, y: u16) -> Input {
    Input { text: text.to_string(), cursor_position: Coordinates { x, y } }
}

fn chars(s: &str) -> Vec<char> {
    s.chars().collect()
}

fn seg(text: &str) -> Segment {
    Segment { colour: Rgba { r: 1, g: 2, b: 3, a: 255 }, text: text.to_string() }
}

fn text_of(spans: &[StyledSpan]) -> String {
    spans.iter().map(|s| s.text.as_str()).collect()
}

fn cursor_cells(spans: &[StyledSpan]) -> Vec<(String, SpanStyle)> {
    spans.iter().filter(|s| s.cursor).map(|s| (s.text.clone(), s.style)).collect()
}

fn colours(rows: &[Vec<StyledSpan>]) -> Vec<SpanStyle> {
    let mut found = Vec::new();
    for row in rows {
        for span in row {
            if let SpanStyle::Foreground(..) = span.style {
                if !found.contains(&span.style) {
                    found.push(span.style);
                }
            }
        }
    }
    found
}

#[test]
fn segments_are_checked_against_the_line() {
    assert!(makes_up(&vec![seg("ab"), seg("c")], &chars("abc")));
    assert!(makes_up(&Vec::new(), &chars("")));
    assert!(!makes_up(&Vec::new(), &chars("a")));
    assert!(!makes_up(&vec![seg("ab")], &chars("abc")));
    assert!(!makes_up(&vec![seg("abcd")], &chars("abc")));
    assert!(!makes_up(&vec![seg("ab"), seg(""), seg("c")], &chars("abc")));
    assert!(!makes_up(&vec![seg("ab"), seg("x")], &chars("abc")));
    assert!(!makes_up(&vec![seg("abc"), seg("d")], &chars("abc")));
}

#[test]
fn segments_that_do_not_fit_are_replaced_by_the_plain_line() {
    let kept = check_segments(Some(vec![seg("ab"), seg("c")]), &chars("abc"));
    assert_eq!(kept.len(), 2);
    assert_eq!(kept[0].text, "ab");
    assert_eq!(kept[0].colour, Rgba { r: 1, g: 2, b: 3, a: 255 });
    let replaced = check_segments(Some(vec![seg("ab")]), &chars("abc"));
    assert_eq!(replaced.len(), 1);
    assert_eq!(replaced[0].text, "abc");
    assert_eq!(replaced[0].colour.a, 0);
    let missing = check_segments(None, &chars("abc"));
    assert_eq!(missing.len(), 1);
    assert_eq!(missing[0].text, "abc");
    assert!(check_segments(None, &chars("")).is_empty());
    assert!(check_segments(Some(vec![seg("x")]), &chars("")).is_empty());
}

#[test]
fn a_segment_is_built_from_its_parts() {
    let s = segment(1, 2, 3, 4, "ab");
    assert_eq!(s.colour, Rgba { r: 1, g: 2, b: 3, a: 4 });
    assert_eq!(s.text, "ab");
}

#[test]
fn textarea_shows_each_line_with_one_cursor_cell() {
    let highlighting = Highlighting::load();
    let mut app = App::default();
    app.selected_block = AppBlock::RequestContent;
    app.input_mode = InputMode::Insert;
    let text = "{\n  \"name\": \"ada\",\n  \"n\": 12\n}";
    let lines: Vec<&str> = text.split('\n').collect();
    for y in 0..lines.len() {
        let len = lines[y].chars().count();
        for x in 0..=len {
            let rows = create_textarea(&input(text, x as u16, y as u16), &app, &highlighting);
            assert_eq!(rows.len(), lines.len());
            let highlighted: Vec<(usize, &StyledSpan)> = rows
                .iter()
                .enumerate()
                .flat_map(|(j, row)| row.iter().map(move |s| (j, s)))
                .filter(|(_, s)| s.style == SpanStyle::Highlight)
                .collect();
            assert_eq!(highlighted.len(), 1);
            assert_eq!(highlighted[0].0, y);
            assert!(highlighted[0].1.cursor);
            assert_eq!(highlighted[0].1.text.chars().count(), 1);
            for (j, row) in rows.iter().enumerate() {
                if j == y {
                    let cell: String = if x == len {
                        " ".to_string()
                    } else {
                        lines[y].chars().skip(x).take(1).collect()
                    };
                    let expected =
                        if x == len { format!("{} ", lines[j]) } else { lines[j].to_string() };
                    assert_eq!(text_of(row), expected);
                    assert_eq!(cursor_cells(row), vec![(cell, SpanStyle::Highlight)]);
                    let before: usize =
                        row.iter().take_while(|s| !s.cursor).map(|s| s.text.chars().count()).sum();
                    assert_eq!(before, x);
                } else {
                    assert_eq!(text_of(row), lines[j]);
                    assert!(cursor_cells(row).is_empty());
                }
            }
        }
    }
}

#[test]
fn textarea_is_coloured_by_the_highlighter() {
    let highlighting = Highlighting::load();
    let app = App::default();
    let rows = create_textarea(&input("{\"name\": 12, \"b\": true}", 0, 0), &app, &highlighting);
    assert_eq!(rows.len(), 1);
    assert!(colours(&rows).len() >= 2);
    assert!(rows[0].len() > 3);
    assert_eq!(cursor_cells(&rows[0]), vec![("{".to_string(), SpanStyle::Default)]);
}

#[test]
fn textarea_of_an_empty_text_shows_the_cursor() {
    let highlighting = Highlighting::load();
    let app = App::default();
    let rows = create_textarea(&input("", 0, 0), &app, &highlighting);
    assert_eq!(rows.len(), 1);
    assert_eq!(text_of(&rows[0]), " ");
    assert_eq!(cursor_cells(&rows[0]), vec![(" ".to_string(), SpanStyle::Default)]);
    let rows = create_textarea(&input("a\n", 0, 1), &app, &highlighting);
    assert_eq!(rows.len(), 2);
    assert_eq!(text_of(&rows[0]), "a");
    assert_eq!(text_of(&rows[1]), " ");
}

#[test]
fn response_is_shown_line_by_line_with_endings() {
    let highlighting = Highlighting::load();
    let text = "{\n  \"a\": [1, 2],\n  \"b\": null\n}\n";
    let rows = highlight_response(text, "application/json", &highlighting);
    let shown: Vec<String> = rows.iter().map(|r| text_of(r)).collect();
    assert_eq!(shown, vec!["{\n", "  \"a\": [1, 2],\n", "  \"b\": null\n", "}\n"]);
    assert!(rows.iter().all(|r| cursor_cells(r).is_empty()));
    assert!(rows.iter().all(|r| r.iter().all(|s| s.style != SpanStyle::Highlight)));
    assert!(colours(&rows).len() >= 2);
}

#[test]
fn response_without_final_newline_and_empty_response() {
    let highlighting = Highlighting::load();
    let rows = highlight_response("<a>\n<b/>", "text/html", &highlighting);
    let shown: Vec<String> = rows.iter().map(|r| text_of(r)).collect();
    assert_eq!(shown, vec!["<a>\n", "<b/>"]);
    assert!(highlight_response("", "text/plain", &highlighting).is_empty());
    let blank = highlight_response("\n\n", "unknown/type", &highlighting);
    let shown: Vec<String> = blank.iter().map(|r| text_of(r)).collect();
    assert_eq!(shown, vec!["\n", "\n"]);
}

#[test]
fn syntaxes_are_named_by_content_type() {
    assert_eq!(syntax_name("application/json"), "json");
    assert_eq!(syntax_name("application/xml"), "xml");
    assert_eq!(syntax_name("text/html"), "html");
    assert_eq!(syntax_name("text/plain"), "txt");
    assert_eq!(syntax_name("image/png"), "txt");
    assert_eq!(syntax_name(""), "txt");
    assert!(same_text("a", "a"));
    assert!(!same_text("a", "b"));
    assert!(!same_text("a", "ab"));
}

fn request_with(body: &str, kind: BodyContentType) -> Request {
    let mut app = App::default();
    app.raw_body.text = body.to_string();
    app.body_content_type = kind;
    Request::from_app(&app)
}

#[test]
fn blank_bodies_are_not_sent() {
    let text = BodyContentType::Text(BodyType::Json);
    assert_eq!(payload(&request_with("", text)), Payload::Nothing);
    assert_eq!(payload(&request_with(" \n\t ", text)), Payload::Nothing);
    assert_eq!(payload(&request_with(" {} ", text)), Payload::Text);
    assert_eq!(payload(&request_with("", BodyContentType::Form)), Payload::Form);
    assert_eq!(payload(&request_with("x", BodyContentType::Form)), Payload::Form);
    assert_eq!(payload_for(BodyContentType::Text(BodyType::Raw), true), Payload::Nothing);
    assert_eq!(payload_for(BodyContentType::Text(BodyType::Xml), false), Payload::Text);
    assert_eq!(payload_for(BodyContentType::Form, true), Payload::Form);
}

#[test]
fn content_types_are_recognised() {
    assert!(is_json("application/json"));
    assert!(is_json("Application/JSON; charset=utf-8"));
    assert!(!is_json("text/html"));
    assert!(!is_json(""));
    assert_eq!(content_type_of("Application/JSON; charset=utf-8"), "application/json");
    assert_eq!(content_type_of("Text/HTML; charset=UTF-8"), "text/html; charset=utf-8");
    assert_eq!(content_type_for("text/xml".to_string(), false), "text/xml");
    assert_eq!(content_type_for("text/xml".to_string(), true), "application/json");
    let r = response_of(201, "Text/Plain", "hi".to_string());
    assert_eq!(r.status_code, 201);
    assert_eq!(r.content_type, "text/plain");
    assert_eq!(r.text, "hi");
}

#[test]
fn pieces_become_segments() {
    let segments = to_segments(vec![(1, 2, 3, 4, "ab".to_string()), (5, 6, 7, 0, "c".to_string())]);
    assert_eq!(segments.len(), 2);
    assert_eq!(segments[0].colour, Rgba { r: 1, g: 2, b: 3, a: 4 });
    assert_eq!(segments[0].text, "ab");
    assert_eq!(segments[1].colour, Rgba { r: 5, g: 6, b: 7, a: 0 });
    assert_eq!(segments[1].text, "c");
    assert!(to_segments(Vec::new()).is_empty());
}

fn texts(rows: &[Vec<StyledSpan>]) -> Vec<String> {
    rows.iter().map(|r| text_of(r)).collect()
}

#[test]
fn rows_are_copied() {
    let highlighting = Highlighting::load();
    let rows = highlight_response("{\"a\": 1}\n[]", "application/json", &highlighting);
    let copy = clone_rows(&rows);
    assert_eq!(texts(&copy), texts(&rows));
    assert_eq!(colours(&copy), colours(&rows));
    assert_eq!(copy.len(), 2);
}

#[test]
fn drawn_responses_are_kept_and_found_again() {
    let highlighting = Highlighting::load();
    let mut cache: HighlightCache<Vec<Vec<StyledSpan>>> = HighlightCache::new(2);
    let first = cached_rows(&mut cache, "{\"a\": 1}\n", "application/json", &highlighting);
    assert_eq!(texts(&first), vec!["{\"a\": 1}\n"]);
    assert_eq!(cache.len(), 1);
    let again = cached_rows(&mut cache, "{\"a\": 1}\n", "application/json", &highlighting);
    assert_eq!(texts(&again), texts(&first));
    assert_eq!(colours(&again), colours(&first));
    assert_eq!(cache.len(), 1);
    let other = cached_rows(&mut cache, "<a/>", "text/html", &highlighting);
    assert_eq!(texts(&other), vec!["<a/>"]);
    assert_eq!(cache.len(), 2);
    assert_eq!(cache.newest().map(|rows| texts(rows)), Some(vec!["<a/>".to_string()]));
    let third = cached_rows(&mut cache, "x\ny", "text/plain", &highlighting);
    assert_eq!(texts(&third), vec!["x\n", "y"]);
    assert_eq!(cache.len(), 2);
    assert!(!cache.touch("{\"a\": 1}\n", "application/json"));
    assert!(cache.touch("<a/>", "text/html"));
    assert!(cache.touch("x\ny", "text/plain"));
}

#[test]
fn a_found_response_is_handed_out_as_it_was_stored() {
    let highlighting = Highlighting::load();
    let mut cache: HighlightCache<Vec<Vec<StyledSpan>>> = HighlightCache::new(2);
    let marker = vec![vec![StyledSpan {
        text: "kept".to_string(),
        style: SpanStyle::Default,
        cursor: false,
    }]];
    cache.put("abc".to_string(), "text/plain".to_string(), marker);
    let found = cached_rows(&mut cache, "abc", "text/plain", &highlighting);
    assert_eq!(texts(&found), vec!["kept"]);
    let fresh = cached_rows(&mut cache, "abc", "text/html", &highlighting);
    assert_eq!(texts(&fresh), vec!["abc"]);
}

#[test]
fn texts_are_searched() {
    assert!(contains("application/json", "json"));
    assert!(contains("application/json", "application/json"));
    assert!(contains("abc", ""));
    assert!(contains("", ""));
    assert!(contains("xxabxx", "ab"));
    assert!(contains("aab", "ab"));
    assert!(!contains("abc", "abcd"));
    assert!(!contains("abc", "ac"));
    assert!(!contains("", "a"));
    assert!(contains("h\u{e9}llo", "\u{e9}l"));
    for (h, n) in [("hello", "ll"), ("hello", "lo"), ("hello", "ol"), ("", "x"), ("aaa", "aa")] {
        assert_eq!(contains(h, n), h.contains(n));
    }
}

#[test]
fn markup_responses_are_drawn_line_by_line() {
    let highlighting = Highlighting::load();
    let xml = "<?xml version=\"1.0\"?>\n<a b=\"c\">\n  <d/>text &amp; more\n</a>\n";
    let rows = highlight_response(xml, "application/xml", &highlighting);
    assert_eq!(texts(&rows).concat(), xml);
    assert_eq!(rows.len(), 4);
    assert!(colours(&rows).len() >= 2);
    let html = "<html>\n<style>p { color: red; }</style>\n<script>var x = 1;</script>\n<p class=\"a\">hi</p>\n</html>";
    let rows = highlight_response(html, "text/html", &highlighting);
    assert_eq!(texts(&rows).concat(), html);
    assert_eq!(rows.len(), 5);
    assert!(colours(&rows).len() >= 2);
}
