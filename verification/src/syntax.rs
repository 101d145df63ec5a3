//! Syntax highlighting: texts are handed to `syntect` line by line, and what
//! comes back is checked against the line before it is drawn.

use vstd::prelude::*;
use crate::app::{App, InputMode};
use crate::cache::{
    holds, lemma_stored_members, lemma_touched_members, stored, touched, EntryView,
    HighlightCache,
};
use crate::chars::{from_chars, rows, split, to_chars};
use crate::input::Input;
use crate::lines::{newline, split_lines};
use crate::navigation::AppBlock;
use crate::render::{
    is_highlighted, lemma_row_shows_line, no_empty_segment, offset, plain_spans, row, row_spans,
    segment_views, shows_line, span_views, text_of, text_upto, Rgba, Segment, SegmentView,
    SpanView, StyledSpan,
};

verus! {

/// `syntect`'s set of syntax definitions.
#[verifier::external_type_specification]
#[verifier::external_body]
pub struct ExSyntaxSet(syntect::parsing::SyntaxSet);

/// One syntax definition of a set.
#[verifier::external_type_specification]
#[verifier::external_body]
pub struct ExSyntaxReference(syntect::parsing::SyntaxReference);

/// `syntect`'s colour theme.
#[verifier::external_type_specification]
#[verifier::external_body]
pub struct ExTheme(syntect::highlighting::Theme);

/// `syntect`'s set of colour themes.
#[verifier::external_type_specification]
#[verifier::external_body]
pub struct ExThemeSet(syntect::highlighting::ThemeSet);

/// `syntect`'s highlighter of consecutive lines. It remembers what the lines
/// before left open.
#[verifier::external_type_specification]
#[verifier::external_body]
pub struct ExHighlightLines<'a>(syntect::easy::HighlightLines<'a>);

/// The set of syntaxes is the one that comes with `syntect`, as
/// `SyntaxSet::load_defaults_newlines` hands it out.
pub uninterp spec fn is_packaged(syntaxes: syntect::parsing::SyntaxSet) -> bool;

/// The syntax is one of the set that comes with `syntect`.
pub uninterp spec fn is_packaged_syntax(syntax: syntect::parsing::SyntaxReference) -> bool;

/// The highlighter was made for a syntax of the set that comes with
/// `syntect`.
pub uninterp spec fn is_packaged_highlighter(highlighter: syntect::easy::HighlightLines<'_>)
    -> bool;

/// The names of the themes of a set.
pub uninterp spec fn theme_names(themes: syntect::highlighting::ThemeSet) -> Set<Seq<char>>;

/// `SyntaxSet::load_defaults_newlines`: the set of syntaxes that comes with
/// `syntect`, for lines that end in a newline.
#[verifier::external_body]
fn load_syntaxes() -> (r: syntect::parsing::SyntaxSet)
    ensures
        is_packaged(r),
{
    syntect::parsing::SyntaxSet::load_defaults_newlines()
}

/// `ThemeSet::load_defaults`: the set of themes that comes with `syntect`.
/// Nothing is claimed of the themes in it.
#[verifier::external_body]
fn load_themes() -> (r: syntect::highlighting::ThemeSet) {
    syntect::highlighting::ThemeSet::load_defaults()
}

/// `BTreeMap::get` on the themes of a set: the theme of the name `name`, if
/// the set has one of that name.
#[verifier::external_body]
fn theme_named<'a>(themes: &'a syntect::highlighting::ThemeSet, name: &str) -> (r: Option<
    &'a syntect::highlighting::Theme,
>)
    ensures
        r is Some <==> theme_names(*themes).contains(name@),
{
    themes.themes.get(name)
}

/// The file extensions that the syntaxes of a set name, as they are written
/// in the set.
pub uninterp spec fn file_extensions(syntaxes: syntect::parsing::SyntaxSet) -> Set<Seq<char>>;

/// The number of a character, with that of the small letter for each of the
/// capital letters `A` to `Z`.
pub open spec fn ascii_lower(c: char) -> int {
    if 'A' <= c && c <= 'Z' {
        c as int + 32
    } else {
        c as int
    }
}

/// Two texts are the same but for the case of the letters `a` to `z`.
pub open spec fn same_but_for_ascii_case(a: Seq<char>, b: Seq<char>) -> bool {
    &&& a.len() == b.len()
    &&& forall|i: int| 0 <= i < a.len() ==> ascii_lower(#[trigger] a[i]) == ascii_lower(b[i])
}

/// One of the file extensions `extensions` is `extension`, in whatever case.
pub open spec fn names_extension(extensions: Set<Seq<char>>, extension: Seq<char>) -> bool {
    exists|e: Seq<char>| #[trigger] extensions.contains(e) && same_but_for_ascii_case(e, extension)
}

/// The set has a syntax for the file extension `extension`: one of its
/// syntaxes names the extension, in whatever case.
pub open spec fn knows_extension(syntaxes: syntect::parsing::SyntaxSet, extension: Seq<char>)
    -> bool {
    names_extension(file_extensions(syntaxes), extension)
}

/// `SyntaxSet::find_syntax_by_extension`: a syntax of the set that names
/// `extension` among its file extensions, in whatever case, if the set has
/// one. Nothing is claimed of which syntax it is where several do. A syntax
/// found in the set that comes with `syntect` is one of that set.
#[verifier::external_body]
fn find_syntax<'a>(
    syntaxes: &'a syntect::parsing::SyntaxSet,
    extension: &str,
) -> (r: Option<&'a syntect::parsing::SyntaxReference>)
    ensures
        r is Some <==> names_extension(file_extensions(*syntaxes), extension@),
        r is Some && is_packaged(*syntaxes) ==> is_packaged_syntax(*r->0),
{
    syntaxes.find_syntax_by_extension(extension)
}

/// `HighlightLines::new`: a highlighter for `syntax` that colours by `theme`
/// and has seen no line yet. It is asked for syntaxes of the set that comes
/// with `syntect` only: each of them has the context that parsing starts in.
#[verifier::external_body]
fn new_highlighter<'a>(
    syntax: &syntect::parsing::SyntaxReference,
    theme: &'a syntect::highlighting::Theme,
) -> (r: syntect::easy::HighlightLines<'a>)
    requires
        is_packaged_syntax(*syntax),
    ensures
        is_packaged_highlighter(r),
{
    syntect::easy::HighlightLines::new(syntax, theme)
}

/// `HighlightLines::highlight_line`: the pieces of `line`, each with the
/// parts of its foreground colour, or nothing where the line could not be
/// parsed. The highlighter is one for the set that comes with `syntect`, and
/// `syntaxes` is that set. Nothing is claimed of the pieces: the caller
/// checks them against the line.
#[verifier::external_body]
fn highlight_line(
    highlighter: &mut syntect::easy::HighlightLines,
    line: &str,
    syntaxes: &syntect::parsing::SyntaxSet,
) -> (r: Option<Vec<(u8, u8, u8, u8, String)>>)
    requires
        is_packaged_highlighter(*old(highlighter)),
        is_packaged(*syntaxes),
    ensures
        is_packaged_highlighter(*final(highlighter)),
{
    let ranges = highlighter.highlight_line(line, syntaxes).ok()?;
    let piece = |(style, text): (syntect::highlighting::Style, &str)| {
        let c = style.foreground;
        (c.r, c.g, c.b, c.a, text.to_string())
    };
    Some(ranges.into_iter().map(piece).collect())
}

/// The pieces that the highlighter gave, as segments.
pub fn to_segments(pieces: Vec<(u8, u8, u8, u8, String)>) -> (r: Vec<Segment>)
    ensures
        r.len() == pieces.len(),
        forall|i: int|
            0 <= i < r.len() ==> (#[trigger] r[i])@ == (SegmentView {
                colour: Rgba { r: pieces[i].0, g: pieces[i].1, b: pieces[i].2, a: pieces[i].3 },
                text: pieces[i].4@,
            }),
{
    let mut r: Vec<Segment> = Vec::new();
    let mut i: usize = 0;
    while i < pieces.len()
        invariant
            i <= pieces.len(),
            r.len() == i,
            forall|k: int|
                0 <= k < i ==> (#[trigger] r[k])@ == (SegmentView {
                    colour: Rgba {
                        r: pieces[k].0,
                        g: pieces[k].1,
                        b: pieces[k].2,
                        a: pieces[k].3,
                    },
                    text: pieces[k].4@,
                }),
        decreases pieces.len() - i,
    {
        let piece = &pieces[i];
        r.push(segment(piece.0, piece.1, piece.2, piece.3, piece.4.as_str()));
        i += 1;
    }
    r
}

/// What is needed to highlight: the syntaxes and the themes that come with
/// `syntect`. There is no other way to make one than to load them.
pub struct Highlighting {
    syntaxes: syntect::parsing::SyntaxSet,
    themes: syntect::highlighting::ThemeSet,
}

impl Highlighting {
    #[verifier::type_invariant]
    spec fn holds_packaged_syntaxes(self) -> bool {
        is_packaged(self.syntaxes)
    }

    /// The syntaxes are those that come with `syntect`.
    pub closed spec fn loaded(&self) -> bool {
        is_packaged(self.syntaxes)
    }

    /// There is a syntax for the file extension `extension`, and there is
    /// the theme to colour by.
    pub closed spec fn can_colour(&self, extension: Seq<char>) -> bool {
        &&& knows_extension(self.syntaxes, extension)
        &&& theme_names(self.themes).contains("base16-ocean.dark"@)
    }

    /// The syntaxes and themes that come with `syntect`.
    pub fn load() -> (r: Self)
        ensures
            r.loaded(),
    {
        Self { syntaxes: load_syntaxes(), themes: load_themes() }
    }
}

/// A segment of the text `text` in the colour of the given parts.
pub fn segment(r: u8, g: u8, b: u8, a: u8, text: &str) -> (s: Segment)
    ensures
        s@ == (SegmentView { colour: Rgba { r, g, b, a }, text: text@ }),
{
    Segment { colour: Rgba { r, g, b, a }, text: text.to_owned() }
}

/// What a list of strings stands for.
pub open spec fn string_views(lines: Seq<String>) -> Seq<Seq<char>> {
    Seq::new(lines.len(), |i: int| lines[i]@)
}

/// The lines of `s`, each with the newline that ends it. A text that ends
/// with a newline has no empty line behind it, and the empty text has no
/// line.
pub open spec fn lines_with_endings(s: Seq<char>) -> Seq<Seq<char>> {
    let ls = split_lines(s);
    let n = ls.len() as int;
    Seq::new(
        if ls.last().len() > 0 {
            n as nat
        } else {
            (n - 1) as nat
        },
        |i: int|
            if i < n - 1 {
                ls[i].push(newline())
            } else {
                ls[i]
            },
    )
}

/// `LinesWithEndings`: the lines of `text`, in order, each with the newline
/// that ends it.
#[verifier::external_body]
fn split_with_endings(text: &str) -> (r: Vec<String>)
    ensures
        string_views(r@) == lines_with_endings(text@),
{
    syntect::util::LinesWithEndings::from(text).map(|line| line.to_string()).collect()
}

/// The segments make up the line: none is empty, and their texts, one after
/// the other, are the line.
pub open spec fn covers(segments: Seq<SegmentView>, line: Seq<char>) -> bool {
    &&& no_empty_segment(segments)
    &&& text_of(segments) == line
}

/// The line as segments of no colour: one segment, or none where the line
/// is empty.
pub open spec fn uncoloured(line: Seq<char>) -> Seq<SegmentView> {
    if line.len() == 0 {
        Seq::<SegmentView>::empty()
    } else {
        seq![SegmentView { colour: Rgba { r: 0, g: 0, b: 0, a: 0 }, text: line }]
    }
}

/// The segments as they are to be drawn: as they came where they make up
/// the line, and the line without colour else.
pub open spec fn checked(segments: Option<Seq<SegmentView>>, line: Seq<char>) -> Seq<
    SegmentView,
> {
    if segments is Some && covers(segments->0, line) {
        segments->0
    } else {
        uncoloured(line)
    }
}

/// Segments of no colour make up their line.
pub proof fn lemma_uncoloured_covers(line: Seq<char>)
    ensures
        covers(uncoloured(line), line),
{
    let u = uncoloured(line);
    if line.len() == 0 {
        assert(text_of(u) =~= line);
    } else {
        assert(text_upto(u, 0) =~= Seq::<char>::empty());
        assert(text_of(u) =~= line);
    }
}

/// Whether `segments` make up the line `line`.
pub fn makes_up(segments: &Vec<Segment>, line: &Vec<char>) -> (r: bool)
    ensures
        r == covers(segment_views(segments@), line@),
{
    let ghost views = segment_views(segments@);
    let mut start: usize = 0;
    let mut i: usize = 0;
    while i < segments.len()
        invariant
            i <= segments.len(),
            views == segment_views(segments@),
            start <= line.len(),
            start == offset(views, i as int),
            text_upto(views, i as int) == line@.take(start as int),
            forall|j: int| 0 <= j < i ==> (#[trigger] views[j]).text.len() > 0,
        decreases segments.len() - i,
    {
        let cs = to_chars(segments[i].text.as_str());
        assert(views[i as int].text == cs@);
        if cs.len() == 0 {
            return false;
        }
        if cs.len() > line.len() - start {
            proof {
                crate::render::lemma_text_grows(views, i + 1, segments.len() as int);
                crate::render::lemma_text_upto_len(views, i + 1);
            }
            return false;
        }
        let mut k: usize = 0;
        while k < cs.len()
            invariant
                k <= cs.len(),
                i < segments.len(),
                views == segment_views(segments@),
                views[i as int].text == cs@,
                start == offset(views, i as int),
                text_upto(views, i as int) == line@.take(start as int),
                start + cs.len() <= line.len(),
                cs@.take(k as int) == line@.subrange(start as int, start + k),
            decreases cs.len() - k,
        {
            if cs[k] != line[start + k] {
                proof {
                    crate::render::lemma_text_grows(views, i + 1, segments.len() as int);
                    crate::render::lemma_text_upto_len(views, i + 1);
                    crate::render::lemma_text_upto_len(views, i as int);
                    assert(text_upto(views, i + 1)[start + k] == cs@[k as int]);
                }
                return false;
            }
            k += 1;
            assert(cs@.take(k as int) =~= cs@.take(k - 1).push(cs@[k - 1]));
            assert(line@.subrange(start as int, start + k) =~= line@.subrange(
                start as int,
                start + k - 1,
            ).push(line@[start + k - 1]));
        }
        assert(cs@.take(cs.len() as int) =~= cs@);
        assert(line@.take(start as int) + line@.subrange(start as int, start + cs.len())
            =~= line@.take(start + cs.len()));
        start = start + cs.len();
        i += 1;
    }
    proof {
        crate::render::lemma_text_upto_len(views, segments.len() as int);
        if start == line.len() {
            assert(line@.take(start as int) =~= line@);
        }
    }
    start == line.len()
}

/// The spans are a row of the line: there are segments that make up the
/// line, and the spans are what these segments are drawn as, with or
/// without the cursor.
pub open spec fn is_row_of(
    spans: Seq<SpanView>,
    line: Seq<char>,
    cursor_here: bool,
    x: int,
    highlighted: bool,
) -> bool {
    exists|segments: Seq<SegmentView>| #[trigger]
        covers(segments, line) && spans == row(segments, cursor_here, x, highlighted)
}

/// The spans draw the line: they are a row of it, and so they show it. The
/// second follows from the first, and is written out for what it says of
/// each span.
pub open spec fn draws_line(
    spans: Seq<SpanView>,
    line: Seq<char>,
    cursor_here: bool,
    x: int,
    highlighted: bool,
) -> bool {
    &&& is_row_of(spans, line, cursor_here, x, highlighted)
    &&& shows_line(spans, line, cursor_here, x, highlighted)
}

/// A row of a line shows the line, however the line was cut into segments.
pub proof fn lemma_row_of_shows_line(
    spans: Seq<SpanView>,
    line: Seq<char>,
    cursor_here: bool,
    x: int,
    highlighted: bool,
)
    requires
        is_row_of(spans, line, cursor_here, x, highlighted),
        0 <= x,
    ensures
        shows_line(spans, line, cursor_here, x, highlighted),
{
    let segments = choose|segments: Seq<SegmentView>| #[trigger]
        covers(segments, line) && spans == row(segments, cursor_here, x, highlighted);
    lemma_row_shows_line(segments, cursor_here, x, highlighted);
}

/// The segments of a line as they are to be drawn: what the highlighter
/// gave, where that makes up the line, and the line without colour else.
pub fn check_segments(segments: Option<Vec<Segment>>, line: &Vec<char>) -> (r: Vec<Segment>)
    ensures
        segment_views(r@) == checked(
            match segments {
                Some(s) => Some(segment_views(s@)),
                None => None,
            },
            line@,
        ),
        covers(segment_views(r@), line@),
{
    proof {
        lemma_uncoloured_covers(line@);
    }
    match segments {
        Some(s) => {
            if makes_up(&s, line) {
                return s;
            }
        },
        None => {},
    }
    let mut r: Vec<Segment> = Vec::new();
    if line.len() > 0 {
        r.push(Segment { colour: Rgba { r: 0, g: 0, b: 0, a: 0 }, text: from_chars(line) });
    }
    assert(segment_views(r@) =~= uncoloured(line@));
    r
}

/// Hands the next line to the highlighter, where there is one, and gives
/// back the highlighter with what it made of the line. Without a
/// highlighter there is none afterwards, and there are no segments.
fn highlight_next<'a>(
    highlighter: Option<syntect::easy::HighlightLines<'a>>,
    line: &str,
    highlighting: &Highlighting,
) -> (r: (Option<syntect::easy::HighlightLines<'a>>, Option<Vec<Segment>>))
    requires
        highlighter is Some ==> is_packaged_highlighter(highlighter->0),
    ensures
        r.0 is Some <==> highlighter is Some,
        r.0 is Some ==> is_packaged_highlighter(r.0->0),
        highlighter is None ==> r.1 is None,
{
    proof {
        use_type_invariant(highlighting);
    }
    match highlighter {
        Some(h) => {
            let mut h = h;
            let segments = match highlight_line(&mut h, line, &highlighting.syntaxes) {
                Some(pieces) => Some(to_segments(pieces)),
                None => None,
            };
            (Some(h), segments)
        },
        None => (None, None),
    }
}

/// A highlighter for the syntax of the file extension `extension`: there is
/// one exactly where there is a syntax for the extension and the theme to
/// colour by.
fn highlighter_for<'a>(highlighting: &'a Highlighting, extension: &str) -> (r: Option<
    syntect::easy::HighlightLines<'a>,
>)
    ensures
        r is Some <==> highlighting.can_colour(extension@),
        r is Some ==> is_packaged_highlighter(r->0),
{
    proof {
        use_type_invariant(highlighting);
    }
    match find_syntax(&highlighting.syntaxes, extension) {
        Some(syntax) => match theme_named(&highlighting.themes, "base16-ocean.dark") {
            Some(theme) => Some(new_highlighter(syntax, theme)),
            None => None,
        },
        None => None,
    }
}

/// A text of several lines, drawn: one row of spans for each line, coloured
/// as JSON. The row of the cursor's line shows the cursor's cell, which is
/// highlighted while text is typed into the pane. Whatever the highlighter
/// does, each row shows the text of its line.
pub fn create_textarea(input: &Input, app: &App, highlighting: &Highlighting) -> (r: Vec<
    Vec<StyledSpan>,
>)
    ensures
        r.len() == input@.lines().len(),
        forall|j: int|
            0 <= j < r.len() ==> draws_line(
                span_views((#[trigger] r[j])@),
                input@.lines()[j],
                j == input@.y,
                input@.x as int,
                app.input_mode == InputMode::Insert && app.selected_block
                    == AppBlock::RequestContent,
            ),
{
    let in_content = match app.selected_block {
        AppBlock::RequestContent => true,
        _ => false,
    };
    let highlighted = is_highlighted(app, in_content);
    let x = input.cursor_position.x;
    let y = input.cursor_position.y as usize;
    let cs = to_chars(input.text.as_str());
    let ls = split(&cs);
    assert(rows(ls@).len() == ls@.len());
    let mut highlighter = highlighter_for(highlighting, "json");
    let mut r: Vec<Vec<StyledSpan>> = Vec::new();
    let mut j: usize = 0;
    while j < ls.len()
        invariant
            j <= ls.len(),
            r.len() == j,
            highlighter is Some ==> is_packaged_highlighter(highlighter->0),
            rows(ls@) == input@.lines(),
            y == input@.y,
            x == input@.x,
            forall|k: int|
                0 <= k < j ==> draws_line(
                    span_views((#[trigger] r[k])@),
                    input@.lines()[k],
                    k == input@.y,
                    input@.x as int,
                    highlighted,
                ),
        decreases ls.len() - j,
    {
        let line = &ls[j];
        assert(rows(ls@)[j as int] == line@);
        let text = from_chars(line);
        let (h, found) = highlight_next(highlighter, text.as_str(), highlighting);
        highlighter = h;
        let segments = check_segments(found, line);
        let spans = row_spans(&segments, j == y, x, highlighted);
        proof {
            let views = segment_views(segments@);
            lemma_row_shows_line(views, j == y, x as int, highlighted);
            assert(covers(views, line@));
        }
        r.push(spans);
        j += 1;
    }
    r
}

/// The name under which the highlighter knows the syntax of a content type;
/// that of plain text for every content type it has no syntax for.
pub open spec fn syntax_of(content_type: Seq<char>) -> Seq<char> {
    if content_type == "application/json"@ {
        "json"@
    } else if content_type == "application/xml"@ {
        "xml"@
    } else if content_type == "text/html"@ {
        "html"@
    } else {
        "txt"@
    }
}

/// Whether two strings hold the same text.
pub fn same_text(a: &str, b: &str) -> (r: bool)
    ensures
        r == (a@ == b@),
{
    let a = a.to_owned();
    let b = b.to_owned();
    a == b
}

/// The name under which the highlighter knows the syntax of a content type.
pub fn syntax_name(content_type: &str) -> (r: &'static str)
    ensures
        r@ == syntax_of(content_type@),
{
    if same_text(content_type, "application/json") {
        "json"
    } else if same_text(content_type, "application/xml") {
        "xml"
    } else if same_text(content_type, "text/html") {
        "html"
    } else {
        "txt"
    }
}

/// The text of a response, drawn: one row of spans for each line, coloured
/// by the syntax of the content type. Whatever the highlighter does, each
/// row shows the text of its line, newline included.
pub fn highlight_response(response: &str, content_type: &str, highlighting: &Highlighting) -> (r:
    Vec<Vec<StyledSpan>>)
    ensures
        r.len() == lines_with_endings(response@).len(),
        forall|j: int|
            0 <= j < r.len() ==> draws_line(
                span_views((#[trigger] r[j])@),
                lines_with_endings(response@)[j],
                false,
                0,
                false,
            ),
{
    let mut highlighter = highlighter_for(highlighting, syntax_name(content_type));
    let lines = split_with_endings(response);
    assert(string_views(lines@).len() == lines@.len());
    let mut r: Vec<Vec<StyledSpan>> = Vec::new();
    let mut j: usize = 0;
    while j < lines.len()
        invariant
            j <= lines.len(),
            r.len() == j,
            highlighter is Some ==> is_packaged_highlighter(highlighter->0),
            string_views(lines@) == lines_with_endings(response@),
            forall|k: int|
                0 <= k < j ==> draws_line(
                    span_views((#[trigger] r[k])@),
                    lines_with_endings(response@)[k],
                    false,
                    0,
                    false,
                ),
        decreases lines.len() - j,
    {
        let text = &lines[j];
        assert(string_views(lines@)[j as int] == text@);
        let line = to_chars(text.as_str());
        let (h, found) = highlight_next(highlighter, text.as_str(), highlighting);
        highlighter = h;
        let segments = check_segments(found, &line);
        let spans = plain_spans(&segments);
        proof {
            let views = segment_views(segments@);
            lemma_row_shows_line(views, false, 0, false);
            assert(covers(views, line@));
        }
        r.push(spans);
        j += 1;
    }
    r
}

/// What rows of spans stand for.
pub open spec fn rows_view(rows: Seq<Vec<StyledSpan>>) -> Seq<Seq<SpanView>> {
    Seq::new(rows.len(), |j: int| span_views(rows[j]@))
}

/// The rows draw the response: there is one row for each of its lines, and
/// each row draws its line, newline included, without a cursor.
pub open spec fn draws_response(rows: Seq<Seq<SpanView>>, response: Seq<char>) -> bool {
    &&& rows.len() == lines_with_endings(response).len()
    &&& forall|j: int|
        0 <= j < rows.len() ==> draws_line(
            #[trigger] rows[j],
            lines_with_endings(response)[j],
            false,
            0,
            false,
        )
}

/// Every entry of the store holds rows that draw its response.
pub open spec fn keeps_drawings(s: Seq<EntryView<Vec<Vec<StyledSpan>>>>) -> bool {
    forall|i: int|
        0 <= i < s.len() ==> draws_response(rows_view((#[trigger] s[i]).value@), s[i].response)
}

/// A copy of rows of spans.
pub fn clone_rows(rows: &Vec<Vec<StyledSpan>>) -> (r: Vec<Vec<StyledSpan>>)
    ensures
        rows_view(r@) == rows_view(rows@),
{
    let mut r: Vec<Vec<StyledSpan>> = Vec::new();
    let mut j: usize = 0;
    while j < rows.len()
        invariant
            j <= rows.len(),
            r.len() == j,
            forall|k: int| 0 <= k < j ==> span_views((#[trigger] r[k])@) == span_views(rows[k]@),
        decreases rows.len() - j,
    {
        let row = &rows[j];
        let mut copy: Vec<StyledSpan> = Vec::new();
        let mut i: usize = 0;
        while i < row.len()
            invariant
                i <= row.len(),
                copy.len() == i,
                forall|k: int| 0 <= k < i ==> (#[trigger] copy[k])@ == row[k]@,
            decreases row.len() - i,
        {
            copy.push(row[i].clone());
            i += 1;
        }
        assert(span_views(copy@) =~= span_views(row@));
        r.push(copy);
        j += 1;
    }
    assert(rows_view(r@) =~= rows_view(rows@));
    r
}

/// The text of a response, drawn, from the store where the store has it and
/// highlighted afresh where not. A response that was found is the first
/// entry of the store afterwards. One that was not found is highlighted and
/// stored as the first entry, and where the store was full, the entry that
/// was used longest ago has made room. While every entry of the store
/// draws its response, what is handed out draws the response.
pub fn cached_rows(
    cache: &mut HighlightCache<Vec<Vec<StyledSpan>>>,
    response: &str,
    content_type: &str,
    highlighting: &Highlighting,
) -> (r: Vec<Vec<StyledSpan>>)
    ensures
        final(cache).limit() == old(cache).limit(),
        holds(old(cache)@, response@, content_type@) ==> {
            &&& final(cache)@ == touched(old(cache)@, response@, content_type@)
            &&& final(cache)@.len() > 0
            &&& rows_view(r@) == rows_view(final(cache)@[0].value@)
        },
        !holds(old(cache)@, response@, content_type@) ==> {
            &&& draws_response(rows_view(r@), response@)
            &&& exists|kept: Vec<Vec<StyledSpan>>|
                rows_view(kept@) == rows_view(r@) && final(cache)@ == #[trigger] stored(
                    old(cache)@,
                    old(cache).limit(),
                    EntryView { response: response@, content_type: content_type@, value: kept },
                )
        },
        keeps_drawings(old(cache)@) ==> keeps_drawings(final(cache)@) && draws_response(
            rows_view(r@),
            response@,
        ),
{
    let ghost before = cache@;
    let ghost limit = cache.limit();
    if cache.touch(response, content_type) {
        proof {
            assert forall|i: int| 0 <= i < cache@.len() && keeps_drawings(
                before,
            ) implies draws_response(rows_view((#[trigger] cache@[i]).value@), cache@[i].response) by {
                lemma_touched_members(before, response@, content_type@, i);
            }
            assert(cache@[0].response == response@);
        }
        match cache.newest() {
            Some(rows) => clone_rows(rows),
            None => Vec::new(),
        }
    } else {
        let rows = highlight_response(response, content_type, highlighting);
        let copy = clone_rows(&rows);
        let ghost kept = rows;
        let ghost entry = EntryView { response: response@, content_type: content_type@, value: kept };
        assert(draws_response(rows_view(kept@), response@));
        cache.put(response.to_owned(), content_type.to_owned(), rows);
        proof {
            assert(cache@ == stored(before, limit, entry));
            assert forall|i: int| 0 <= i < cache@.len() && keeps_drawings(
                before,
            ) implies draws_response(rows_view((#[trigger] cache@[i]).value@), cache@[i].response) by {
                lemma_stored_members(before, limit, entry, i);
            }
        }
        copy
    }
}

} // verus!
