//! What is drawn: texts cut into styled spans, with one cell marked as the
//! cursor, and the colours that tell states apart.

use vstd::prelude::*;
use crate::app::{App, InputMode};
use crate::chars::{from_chars_range, to_chars};
use crate::input::Input;
use crate::navigation::{AppBlock, RequestMethod};

verus! {

/// A colour of the terminal's palette.
#[derive(Clone, Copy, Debug, PartialEq, Eq, Structural)]
pub enum Colour {
    Green,
    Blue,
    Yellow,
    Red,
    Magenta,
    White,
    Black,
}

/// A colour by its parts, the last of which says how opaque it is.
#[derive(Clone, Copy, Debug, PartialEq, Eq, Structural)]
pub struct Rgba {
    pub r: u8,
    pub g: u8,
    pub b: u8,
    pub a: u8,
}

/// How a span is drawn: as the terminal draws by default, in a colour of its
/// own, or as the cursor of a field that is being typed in.
#[derive(Clone, Copy, Debug, PartialEq, Eq, Structural)]
pub enum SpanStyle {
    Default,
    Foreground(u8, u8, u8),
    Highlight,
}

/// A run of text of one style. `cursor` marks the cell of the cursor.
#[derive(Debug)]
pub struct StyledSpan {
    pub text: String,
    pub style: SpanStyle,
    pub cursor: bool,
}

/// What a [`StyledSpan`] stands for.
pub struct SpanView {
    pub text: Seq<char>,
    pub style: SpanStyle,
    pub cursor: bool,
}

impl View for StyledSpan {
    type V = SpanView;

    open spec fn view(&self) -> SpanView {
        SpanView { text: self.text@, style: self.style, cursor: self.cursor }
    }
}

impl Clone for StyledSpan {
    fn clone(&self) -> (r: Self)
        ensures
            r@ == self@,
    {
        Self { text: self.text.clone(), style: self.style, cursor: self.cursor }
    }
}

/// What a list of spans stands for.
pub open spec fn span_views(spans: Seq<StyledSpan>) -> Seq<SpanView> {
    Seq::new(spans.len(), |i: int| spans[i]@)
}

/// A run of text that a highlighter gave one colour.
#[derive(Debug)]
pub struct Segment {
    pub colour: Rgba,
    pub text: String,
}

/// What a [`Segment`] stands for.
pub struct SegmentView {
    pub colour: Rgba,
    pub text: Seq<char>,
}

impl View for Segment {
    type V = SegmentView;

    open spec fn view(&self) -> SegmentView {
        SegmentView { colour: self.colour, text: self.text@ }
    }
}

impl Clone for Segment {
    fn clone(&self) -> (r: Self)
        ensures
            r@ == self@,
    {
        Self { colour: self.colour, text: self.text.clone() }
    }
}

/// What a list of segments stands for.
pub open spec fn segment_views(segments: Seq<Segment>) -> Seq<SegmentView> {
    Seq::new(segments.len(), |i: int| segments[i]@)
}

/// The style that draws in `colour`: the default style where the colour is
/// fully transparent.
pub open spec fn colour_style(colour: Rgba) -> SpanStyle {
    if colour.a > 0 {
        SpanStyle::Foreground(colour.r, colour.g, colour.b)
    } else {
        SpanStyle::Default
    }
}

/// The style of the cursor's cell.
pub open spec fn cursor_style(highlighted: bool) -> SpanStyle {
    if highlighted {
        SpanStyle::Highlight
    } else {
        SpanStyle::Default
    }
}

/// A span of the default style.
pub open spec fn raw(text: Seq<char>) -> SpanView {
    SpanView { text, style: SpanStyle::Default, cursor: false }
}

/// A span in the colour of a segment.
pub open spec fn painted(text: Seq<char>, colour: Rgba) -> SpanView {
    SpanView { text, style: colour_style(colour), cursor: false }
}

/// The cell of the cursor, showing `text`.
pub open spec fn cell(text: Seq<char>, highlighted: bool) -> SpanView {
    SpanView { text, style: cursor_style(highlighted), cursor: true }
}

/// The cell of a cursor that stands behind the last character.
pub open spec fn blank() -> Seq<char> {
    seq![' ']
}

/// A text of one line as three spans: what is before the cursor, the
/// cursor's cell, and what is behind it. A cursor past the end is drawn at
/// the end.
pub open spec fn input_spans(text: Seq<char>, x: nat, highlighted: bool) -> Seq<SpanView> {
    if x < text.len() {
        seq![
            raw(text.take(x as int)),
            cell(seq![text[x as int]], highlighted),
            raw(text.skip(x as int + 1)),
        ]
    } else {
        seq![raw(text), cell(blank(), highlighted), raw(Seq::<char>::empty())]
    }
}

/// The number of characters in the first `n` of the segments.
pub open spec fn offset(segments: Seq<SegmentView>, n: int) -> int
    decreases n,
{
    if n <= 0 {
        0
    } else {
        offset(segments, n - 1) + segments[n - 1].text.len()
    }
}

/// The spans of one segment that starts at column `start`, in the line of
/// the cursor. The segment that holds the cursor's column is cut in three:
/// before the cursor, the cursor's cell, behind the cursor. Any other
/// segment is one span, between two places for a blank cursor cell: one
/// before the first segment and one behind the last, each taken where the
/// cursor stands just there and in no segment.
pub open spec fn segment_spans(
    segment: SegmentView,
    start: int,
    x: int,
    first: bool,
    last: bool,
    highlighted: bool,
) -> Seq<SpanView> {
    let end = start + segment.text.len();
    if start <= x < end {
        seq![
            painted(segment.text.take(x - start), segment.colour),
            cell(seq![segment.text[x - start]], highlighted),
            painted(segment.text.skip(x - start + 1), segment.colour),
        ]
    } else {
        seq![
            if first && x == start {
                cell(blank(), highlighted)
            } else {
                raw(Seq::<char>::empty())
            },
            painted(segment.text, segment.colour),
            if last && x == end {
                cell(blank(), highlighted)
            } else {
                raw(Seq::<char>::empty())
            },
        ]
    }
}

/// The spans of the first `n` of the segments, in the line of the cursor.
pub open spec fn spans_upto(segments: Seq<SegmentView>, n: int, x: int, highlighted: bool) -> Seq<
    SpanView,
>
    decreases n,
{
    if n <= 0 {
        Seq::<SpanView>::empty()
    } else {
        spans_upto(segments, n - 1, x, highlighted) + segment_spans(
            segments[n - 1],
            offset(segments, n - 1),
            x,
            n - 1 == 0,
            n == segments.len(),
            highlighted,
        )
    }
}

/// The spans of a line without the cursor: one for each segment.
pub open spec fn plain_row(segments: Seq<SegmentView>) -> Seq<SpanView> {
    Seq::new(segments.len(), |i: int| painted(segments[i].text, segments[i].colour))
}

/// The spans of the cursor's line: those of its segments, or the blank cell
/// alone where the line is empty.
pub open spec fn cursor_row(segments: Seq<SegmentView>, x: int, highlighted: bool) -> Seq<
    SpanView,
> {
    if segments.len() == 0 {
        seq![cell(blank(), highlighted)]
    } else {
        spans_upto(segments, segments.len() as int, x, highlighted)
    }
}

/// The spans of a line.
pub open spec fn row(segments: Seq<SegmentView>, cursor_here: bool, x: int, highlighted: bool)
    -> Seq<SpanView> {
    if cursor_here {
        cursor_row(segments, x, highlighted)
    } else {
        plain_row(segments)
    }
}

/// The colour in which a highlighter's colour is drawn, if it is drawn in
/// one: a fully transparent colour is not.
pub fn translate_colour(colour: Rgba) -> (r: Option<(u8, u8, u8)>)
    ensures
        r == if colour.a > 0 {
            Some((colour.r, colour.g, colour.b))
        } else {
            None::<(u8, u8, u8)>
        },
{
    if colour.a > 0 {
        Some((colour.r, colour.g, colour.b))
    } else {
        None
    }
}

/// The style that draws in `colour`.
pub fn style_of(colour: Rgba) -> (r: SpanStyle)
    ensures
        r == colour_style(colour),
{
    match translate_colour(colour) {
        Some((r, g, b)) => SpanStyle::Foreground(r, g, b),
        None => SpanStyle::Default,
    }
}

/// The style of the cursor's cell.
pub fn style_of_cursor(highlighted: bool) -> (r: SpanStyle)
    ensures
        r == cursor_style(highlighted),
{
    if highlighted {
        SpanStyle::Highlight
    } else {
        SpanStyle::Default
    }
}

/// Whether the cursor of a pane is highlighted: while text is typed into the
/// pane.
pub fn is_highlighted(app: &App, is_selected: bool) -> (r: bool)
    ensures
        r == (app.input_mode == InputMode::Insert && is_selected),
{
    match app.input_mode {
        InputMode::Insert => is_selected,
        InputMode::Normal => false,
    }
}

/// The text of a field of one line, cut into spans around the cursor's cell.
/// The cell is highlighted while text is typed into the field.
pub fn create_input(input: &Input, app: &App, is_selected: bool) -> (r: Vec<StyledSpan>)
    ensures
        span_views(r@) == input_spans(
            input@.text,
            input@.x,
            app.input_mode == InputMode::Insert && is_selected,
        ),
{
    let highlighted = is_highlighted(app, is_selected);
    let cs = to_chars(input.text.as_str());
    let x = input.cursor_position.x as usize;
    let len = cs.len();
    let mut r: Vec<StyledSpan> = Vec::new();
    if x < len {
        r.push(
            StyledSpan {
                text: from_chars_range(&cs, 0, x),
                style: SpanStyle::Default,
                cursor: false,
            },
        );
        r.push(
            StyledSpan {
                text: from_chars_range(&cs, x, x + 1),
                style: style_of_cursor(highlighted),
                cursor: true,
            },
        );
        r.push(
            StyledSpan {
                text: from_chars_range(&cs, x + 1, len),
                style: SpanStyle::Default,
                cursor: false,
            },
        );
        proof {
            assert(cs@.subrange(0, x as int) =~= cs@.take(x as int));
            assert(cs@.subrange(x as int, x + 1) =~= seq![cs@[x as int]]);
            assert(cs@.subrange(x + 1, len as int) =~= cs@.skip(x + 1));
        }
    } else {
        let mut space = String::new();
        space.push(' ');
        r.push(
            StyledSpan {
                text: from_chars_range(&cs, 0, len),
                style: SpanStyle::Default,
                cursor: false,
            },
        );
        r.push(StyledSpan { text: space, style: style_of_cursor(highlighted), cursor: true });
        r.push(StyledSpan { text: String::new(), style: SpanStyle::Default, cursor: false });
        proof {
            assert(cs@.subrange(0, len as int) =~= cs@);
            assert(space@ =~= blank());
        }
    }
    assert(span_views(r@) =~= input_spans(
        input@.text,
        input@.x,
        app.input_mode == InputMode::Insert && is_selected,
    ));
    r
}

/// A span that holds the characters of `cs` from `from` up to `to`.
fn span_of(cs: &Vec<char>, from: usize, to: usize, style: SpanStyle, cursor: bool) -> (r:
    StyledSpan)
    requires
        from <= to <= cs.len(),
    ensures
        r@ == (SpanView { text: cs@.subrange(from as int, to as int), style, cursor }),
{
    StyledSpan { text: from_chars_range(cs, from, to), style, cursor }
}

/// The cell of a cursor that stands behind the last character, or the empty
/// span that takes its place.
fn blank_or_nothing(wanted: bool, highlighted: bool) -> (r: StyledSpan)
    ensures
        r@ == if wanted {
            cell(blank(), highlighted)
        } else {
            raw(Seq::<char>::empty())
        },
{
    if wanted {
        let mut space = String::new();
        space.push(' ');
        assert(space@ =~= blank());
        StyledSpan { text: space, style: style_of_cursor(highlighted), cursor: true }
    } else {
        StyledSpan { text: String::new(), style: SpanStyle::Default, cursor: false }
    }
}

/// The spans of a line without the cursor: one for each segment, in the
/// segment's colour.
pub fn plain_spans(segments: &Vec<Segment>) -> (r: Vec<StyledSpan>)
    ensures
        span_views(r@) == plain_row(segment_views(segments@)),
{
    let mut r: Vec<StyledSpan> = Vec::new();
    let mut i: usize = 0;
    while i < segments.len()
        invariant
            i <= segments.len(),
            span_views(r@) == plain_row(segment_views(segments@)).take(i as int),
        decreases segments.len() - i,
    {
        let ghost before = span_views(r@);
        let segment = &segments[i];
        r.push(
            StyledSpan {
                text: segment.text.clone(),
                style: style_of(segment.colour),
                cursor: false,
            },
        );
        assert(span_views(r@) =~= before.push(painted(segment@.text, segment@.colour)));
        i += 1;
        assert(span_views(r@) =~= plain_row(segment_views(segments@)).take(i as int));
    }
    assert(plain_row(segment_views(segments@)).take(i as int) =~= plain_row(
        segment_views(segments@),
    ));
    r
}

/// The spans of the cursor's line. The segment that holds the cursor's
/// column is cut around the cursor's cell; a cursor behind the last
/// character gets a blank cell of its own.
pub fn cursor_spans(segments: &Vec<Segment>, x: u16, highlighted: bool) -> (r: Vec<StyledSpan>)
    ensures
        span_views(r@) == cursor_row(segment_views(segments@), x as int, highlighted),
{
    let mut r: Vec<StyledSpan> = Vec::new();
    if segments.len() == 0 {
        r.push(blank_or_nothing(true, highlighted));
        assert(span_views(r@) =~= seq![cell(blank(), highlighted)]);
        return r;
    }
    let ghost views = segment_views(segments@);
    let cap: usize = 0x10000;
    let at = x as usize;
    let mut start: usize = 0;
    let mut i: usize = 0;
    while i < segments.len()
        invariant
            i <= segments.len(),
            views == segment_views(segments@),
            cap == 0x10000,
            at == x,
            start <= cap,
            start == if offset(views, i as int) > cap {
                cap as int
            } else {
                offset(views, i as int)
            },
            span_views(r@) == spans_upto(views, i as int, x as int, highlighted),
        decreases segments.len() - i,
    {
        let ghost before = span_views(r@);
        let segment = &segments[i];
        let cs = to_chars(segment.text.as_str());
        let len = cs.len();
        let end = if len >= cap - start {
            cap
        } else {
            start + len
        };
        let paint = style_of(segment.colour);
        assert(views[i as int] == segment@);
        let ghost expected = segment_spans(
            segment@,
            offset(views, i as int),
            x as int,
            i == 0,
            i + 1 == segments.len(),
            highlighted,
        );
        if start <= at && at < end {
            let k = at - start;
            r.push(span_of(&cs, 0, k, paint, false));
            r.push(span_of(&cs, k, k + 1, style_of_cursor(highlighted), true));
            r.push(span_of(&cs, k + 1, len, paint, false));
            proof {
                assert(cs@.subrange(0, k as int) =~= cs@.take(k as int));
                assert(cs@.subrange(k as int, k + 1) =~= seq![cs@[k as int]]);
                assert(cs@.subrange(k + 1, len as int) =~= cs@.skip(k + 1));
            }
        } else {
            r.push(blank_or_nothing(i == 0 && at == start, highlighted));
            r.push(span_of(&cs, 0, len, paint, false));
            r.push(blank_or_nothing(i + 1 == segments.len() && at == end, highlighted));
            proof {
                assert(cs@.subrange(0, len as int) =~= cs@);
            }
        }
        assert(span_views(r@) =~= before + expected);
        start = end;
        i += 1;
    }
    r
}

/// The spans of a line: those of the cursor's line where the cursor stands
/// in it, one span for each segment else.
pub fn row_spans(segments: &Vec<Segment>, cursor_here: bool, x: u16, highlighted: bool) -> (r:
    Vec<StyledSpan>)
    ensures
        span_views(r@) == row(segment_views(segments@), cursor_here, x as int, highlighted),
{
    if cursor_here {
        cursor_spans(segments, x, highlighted)
    } else {
        plain_spans(segments)
    }
}

/// The colour in which a method is shown.
pub fn method_colour(method: RequestMethod) -> (c: Colour)
    ensures
        c == match method {
            RequestMethod::Get => Colour::Green,
            RequestMethod::Post => Colour::Blue,
            RequestMethod::Put => Colour::Yellow,
            RequestMethod::Delete => Colour::Red,
            RequestMethod::Patch => Colour::Magenta,
        },
{
    match method {
        RequestMethod::Get => Colour::Green,
        RequestMethod::Post => Colour::Blue,
        RequestMethod::Put => Colour::Yellow,
        RequestMethod::Delete => Colour::Red,
        RequestMethod::Patch => Colour::Magenta,
    }
}

/// The colour that tells the class of a status code.
pub open spec fn colour_of_status(status_code: u16) -> Colour {
    if 200 <= status_code <= 299 {
        Colour::Green
    } else if 300 <= status_code <= 399 {
        Colour::Blue
    } else if 400 <= status_code <= 499 {
        Colour::Yellow
    } else if 500 <= status_code <= 599 {
        Colour::Red
    } else {
        Colour::White
    }
}

/// The colour in which a status code is shown.
pub fn status_colour(status_code: u16) -> (c: Colour)
    ensures
        c == colour_of_status(status_code),
{
    if 200 <= status_code && status_code <= 299 {
        Colour::Green
    } else if 300 <= status_code && status_code <= 399 {
        Colour::Blue
    } else if 400 <= status_code && status_code <= 499 {
        Colour::Yellow
    } else if 500 <= status_code && status_code <= 599 {
        Colour::Red
    } else {
        Colour::White
    }
}

/// What the status line says: that the client waits, or the status code of
/// the response, or how to send a request where there is no response yet.
pub open spec fn text_of_status(is_loading: bool, status_code: Option<u16>) -> Seq<char> {
    if is_loading {
        "Loading..."@
    } else {
        match status_code {
            Some(code) => crate::transitions::decimal(code as nat),
            None => "Press <Enter> to send request"@,
        }
    }
}

/// What the status line says.
pub fn status_text(app: &App) -> (r: String)
    ensures
        r@ == text_of_status(
            app.is_loading,
            match app.response {
                Some(response) => Some(response.status_code),
                None => None,
            },
        ),
{
    if app.is_loading {
        "Loading...".to_owned()
    } else {
        match &app.response {
            Some(response) => crate::events::to_decimal(response.status_code),
            None => "Press <Enter> to send request".to_owned(),
        }
    }
}

/// The colour of a pane's border: green while text is typed into the
/// selected pane, blue for the selected pane else, white for the others and
/// for every pane while a popup is shown.
pub open spec fn colour_of_border(
    block: AppBlock,
    selected_block: AppBlock,
    popup_shown: bool,
    input_mode: InputMode,
) -> Colour {
    let is_selected = block == selected_block && !popup_shown;
    if is_selected && input_mode == InputMode::Insert {
        Colour::Green
    } else if is_selected {
        Colour::Blue
    } else {
        Colour::White
    }
}

/// The colour of the border of the pane `block`.
pub fn border_colour(block: AppBlock, app: &App) -> (c: Colour)
    ensures
        c == colour_of_border(block, app.selected_block, app.popup is Some, app.input_mode),
{
    let is_selected = block == app.selected_block && app.popup.is_none();
    let inserting = match app.input_mode {
        InputMode::Insert => true,
        InputMode::Normal => false,
    };
    if is_selected && inserting {
        Colour::Green
    } else if is_selected {
        Colour::Blue
    } else {
        Colour::White
    }
}

/// The colour of the border of a choice in a popup: green for the choice
/// that is in force, white for the others.
pub open spec fn colour_of_choice(is_current: bool) -> Colour {
    if is_current {
        Colour::Green
    } else {
        Colour::White
    }
}

/// The colour of the border of a choice in a popup.
pub fn choice_border_colour(is_current: bool) -> (c: Colour)
    ensures
        c == colour_of_choice(is_current),
{
    if is_current {
        Colour::Green
    } else {
        Colour::White
    }
}

/// The colour of the border of a field of a form: green while text is typed
/// into the selected field, blue for the selected field else, white for the
/// others.
pub open spec fn colour_of_field(is_selected: bool, input_mode: InputMode) -> Colour {
    if is_selected && input_mode == InputMode::Insert {
        Colour::Green
    } else if is_selected {
        Colour::Blue
    } else {
        Colour::White
    }
}

/// The colour of the border of a field of a form.
pub fn field_border_colour(is_selected: bool, app: &App) -> (c: Colour)
    ensures
        c == colour_of_field(is_selected, app.input_mode),
{
    let inserting = match app.input_mode {
        InputMode::Insert => true,
        InputMode::Normal => false,
    };
    if is_selected && inserting {
        Colour::Green
    } else if is_selected {
        Colour::Blue
    } else {
        Colour::White
    }
}

/// The furthest that a text of `lines_count` lines scrolls in a pane of the
/// height `height`: not at all where the text fits, else by the lines that do
/// not fit and two more, as far as a coordinate can hold that.
pub open spec fn scroll_limit(lines_count: u16, height: u16) -> u16 {
    if lines_count > height {
        let limit = lines_count - height + 2;
        if limit > u16::MAX {
            u16::MAX
        } else {
            limit as u16
        }
    } else {
        0
    }
}

/// The furthest that a text of `lines_count` lines scrolls in a pane of the
/// height `height`.
pub fn max_scroll(lines_count: u16, height: u16) -> (r: u16)
    ensures
        r == scroll_limit(lines_count, height),
{
    if lines_count > height {
        let over = lines_count - height;
        if over > 0xffff - 2 {
            0xffff
        } else {
            over + 2
        }
    } else {
        0
    }
}

/// Keeps the scroll position of the response within what its text allows.
pub fn clamp_scroll(app: &mut App, lines_count: u16, height: u16)
    ensures
        final(app).response_scroll.0 == crate::cursor::clamp(
            old(app).response_scroll.0 as int,
            scroll_limit(lines_count, height) as int,
        ),
        final(app)@ == (crate::app::AppView {
            response_scroll: final(app).response_scroll,
            ..old(app)@
        }),
        final(app).response_scroll.1 == old(app).response_scroll.1,
{
    let limit = max_scroll(lines_count, height);
    if app.response_scroll.0 > limit {
        app.response_scroll.0 = limit;
    }
}

/// The cells that spans fill, one for each character, each with the mark of
/// its span.
pub open spec fn cells(spans: Seq<SpanView>) -> Seq<(char, bool)>
    decreases spans.len(),
{
    if spans.len() == 0 {
        Seq::<(char, bool)>::empty()
    } else {
        cells(spans.drop_last()) + span_cells(spans.last())
    }
}

/// The cells that one span fills.
pub open spec fn span_cells(span: SpanView) -> Seq<(char, bool)> {
    Seq::new(span.text.len(), |i: int| (span.text[i], span.cursor))
}

/// The text of the first `n` of the segments.
pub open spec fn text_upto(segments: Seq<SegmentView>, n: int) -> Seq<char>
    decreases n,
{
    if n <= 0 {
        Seq::<char>::empty()
    } else {
        text_upto(segments, n - 1) + segments[n - 1].text
    }
}

/// The text that the segments make together.
pub open spec fn text_of(segments: Seq<SegmentView>) -> Seq<char> {
    text_upto(segments, segments.len() as int)
}

/// No segment is empty.
pub open spec fn no_empty_segment(segments: Seq<SegmentView>) -> bool {
    forall|i: int| 0 <= i < segments.len() ==> (#[trigger] segments[i]).text.len() > 0
}

/// The cells of a line with the cursor at column `x`: the characters of the
/// line, of which the one at `x` is marked, and behind them one marked blank
/// where `x` is the length of the line.
pub open spec fn marked_line(line: Seq<char>, x: int) -> Seq<(char, bool)> {
    Seq::new(
        if x == line.len() {
            line.len() + 1
        } else {
            line.len()
        },
        |i: int|
            (
                if i < line.len() {
                    line[i]
                } else {
                    ' '
                },
                i == x,
            ),
    )
}

/// The cells of the cursor's line: those of `marked_line`, but for the empty
/// line, which shows the marked blank wherever the cursor is said to be.
pub open spec fn cursor_line(line: Seq<char>, x: int) -> Seq<(char, bool)> {
    if line.len() == 0 {
        seq![(' ', true)]
    } else {
        marked_line(line, x)
    }
}

/// The cells of a line, with or without the cursor.
pub open spec fn line_cells(line: Seq<char>, cursor_here: bool, x: int) -> Seq<(char, bool)> {
    if cursor_here {
        cursor_line(line, x)
    } else {
        unmarked_line(line)
    }
}

/// Every span that is marked as the cursor has the cursor's style.
pub open spec fn cursor_is_styled(spans: Seq<SpanView>, highlighted: bool) -> bool {
    forall|i: int|
        0 <= i < spans.len() && (#[trigger] spans[i]).cursor ==> spans[i].style == cursor_style(
            highlighted,
        )
}

/// The cells of a line without cursor: its characters, none marked.
pub open spec fn unmarked_line(line: Seq<char>) -> Seq<(char, bool)> {
    Seq::new(line.len(), |i: int| (line[i], false))
}

/// The cells of spans written one after the other.
pub proof fn lemma_cells_concat(a: Seq<SpanView>, b: Seq<SpanView>)
    ensures
        cells(a + b) == cells(a) + cells(b),
    decreases b.len(),
{
    if b.len() == 0 {
        assert(a + b =~= a);
        assert(cells(a) + cells(b) =~= cells(a));
    } else {
        lemma_cells_concat(a, b.drop_last());
        assert((a + b).drop_last() =~= a + b.drop_last());
        assert((a + b).last() == b.last());
        assert(cells(a + b) =~= cells(a) + cells(b));
    }
}

/// The cells of three spans.
pub proof fn lemma_cells_of_three(a: SpanView, b: SpanView, c: SpanView)
    ensures
        cells(seq![a, b, c]) == span_cells(a) + span_cells(b) + span_cells(c),
{
    let three = seq![a, b, c];
    let two = seq![a, b];
    let one = seq![a];
    assert(three.drop_last() =~= two);
    assert(two.drop_last() =~= one);
    assert(one.drop_last() =~= Seq::<SpanView>::empty());
    assert(cells(one.drop_last()) =~= Seq::<(char, bool)>::empty());
    assert(cells(one) =~= span_cells(a));
    assert(cells(two) =~= span_cells(a) + span_cells(b));
}

/// The text of the first `n` segments has the length that `offset` counts.
pub proof fn lemma_text_upto_len(segments: Seq<SegmentView>, n: int)
    requires
        0 <= n <= segments.len(),
    ensures
        text_upto(segments, n).len() == offset(segments, n),
        offset(segments, n) >= 0,
    decreases n,
{
    if n > 0 {
        lemma_text_upto_len(segments, n - 1);
    }
}

/// The first `n` segments of the cursor's line fill the cells of their text,
/// of which the one at the cursor's column is marked; behind the last
/// segment stands the marked blank of a cursor at the end of the line.
pub proof fn lemma_spans_upto_cells(segments: Seq<SegmentView>, n: int, x: int, highlighted: bool)
    requires
        no_empty_segment(segments),
        1 <= n <= segments.len(),
        0 <= x,
    ensures
        n < segments.len() ==> cells(spans_upto(segments, n, x, highlighted)) == Seq::new(
            text_upto(segments, n).len(),
            |i: int| (text_upto(segments, n)[i], i == x),
        ),
        n == segments.len() ==> cells(spans_upto(segments, n, x, highlighted)) == marked_line(
            text_of(segments),
            x,
        ),
    decreases n,
{
    let before = spans_upto(segments, n - 1, x, highlighted);
    let segment = segments[n - 1];
    let start = offset(segments, n - 1);
    let end = start + segment.text.len();
    let here = segment_spans(segment, start, x, n - 1 == 0, n == segments.len(), highlighted);
    let head = text_upto(segments, n - 1);
    let whole = text_upto(segments, n);
    lemma_text_upto_len(segments, n - 1);
    lemma_text_upto_len(segments, n);
    lemma_cells_concat(before, here);
    lemma_cells_of_three(here[0], here[1], here[2]);
    assert(here =~= seq![here[0], here[1], here[2]]);
    assert(segment.text.len() > 0);
    if n > 1 {
        lemma_spans_upto_cells(segments, n - 1, x, highlighted);
    } else {
        assert(cells(before) =~= Seq::<(char, bool)>::empty());
        assert(head =~= Seq::<char>::empty());
    }
    let head_cells = Seq::new(head.len(), |i: int| (head[i], i == x));
    assert(cells(before) =~= head_cells);
    let got = cells(before + here);
    if n < segments.len() {
        let want = Seq::new(whole.len(), |i: int| (whole[i], i == x));
        assert(got =~= want);
    } else {
        assert(got =~= marked_line(whole, x));
    }
}

/// Among the spans of the first `n` segments, those marked as the cursor
/// have the cursor's style.
pub proof fn lemma_spans_upto_styled(
    segments: Seq<SegmentView>,
    n: int,
    x: int,
    highlighted: bool,
)
    requires
        0 <= n <= segments.len(),
    ensures
        cursor_is_styled(spans_upto(segments, n, x, highlighted), highlighted),
    decreases n,
{
    if n > 0 {
        lemma_spans_upto_styled(segments, n - 1, x, highlighted);
    }
}

/// The cursor's line, drawn: its spans fill the cells of the line's text,
/// with the cell at the cursor's column marked and no other. A cursor at the
/// end of the line has a blank cell of its own behind the text, and so has
/// the cursor of an empty line. This holds whichever way the line is cut
/// into segments that are not empty. The marked span has the cursor's style.
pub proof fn lemma_cursor_row_cells(segments: Seq<SegmentView>, x: int, highlighted: bool)
    requires
        no_empty_segment(segments),
        0 <= x,
    ensures
        cells(cursor_row(segments, x, highlighted)) == cursor_line(text_of(segments), x),
        0 < text_of(segments).len() ==> cursor_line(text_of(segments), x) == marked_line(
            text_of(segments),
            x,
        ),
        x == 0 ==> cursor_line(text_of(segments), x) == marked_line(text_of(segments), x),
        cursor_is_styled(cursor_row(segments, x, highlighted), highlighted),
{
    lemma_spans_upto_styled(segments, segments.len() as int, x, highlighted);
    if segments.len() == 0 {
        let one = seq![cell(blank(), highlighted)];
        assert(one.drop_last() =~= Seq::<SpanView>::empty());
        assert(cells(one.drop_last()) =~= Seq::<(char, bool)>::empty());
        assert(cells(one) =~= span_cells(cell(blank(), highlighted)));
        assert(text_of(segments) =~= Seq::<char>::empty());
        assert(cells(one) =~= cursor_line(text_of(segments), x));
        if x == 0 {
            assert(cursor_line(text_of(segments), x) =~= marked_line(text_of(segments), x));
        }
    } else {
        lemma_spans_upto_cells(segments, segments.len() as int, x, highlighted);
        lemma_text_upto_len(segments, segments.len() as int);
        lemma_text_upto_len(segments, segments.len() - 1);
        assert(segments[segments.len() - 1].text.len() > 0);
    }
}

/// A line without the cursor, drawn: its spans fill the cells of the line's
/// text, none of them marked.
pub proof fn lemma_plain_row_cells(segments: Seq<SegmentView>, n: int)
    requires
        0 <= n <= segments.len(),
    ensures
        cells(plain_row(segments).take(n)) == unmarked_line(text_upto(segments, n)),
    decreases n,
{
    let shown = plain_row(segments).take(n);
    if n == 0 {
        assert(cells(shown) =~= unmarked_line(text_upto(segments, n)));
    } else {
        lemma_plain_row_cells(segments, n - 1);
        assert(shown.drop_last() =~= plain_row(segments).take(n - 1));
        assert(cells(shown) =~= unmarked_line(text_upto(segments, n)));
    }
}

/// The text of more segments starts with the text of fewer.
pub proof fn lemma_text_grows(segments: Seq<SegmentView>, n: int, m: int)
    requires
        0 <= n <= m <= segments.len(),
    ensures
        text_upto(segments, n).len() <= text_upto(segments, m).len(),
        text_upto(segments, m).take(text_upto(segments, n).len() as int) == text_upto(segments, n),
    decreases m - n,
{
    if n == m {
        assert(text_upto(segments, m).take(text_upto(segments, n).len() as int) =~= text_upto(
            segments,
            n,
        ));
    } else {
        lemma_text_grows(segments, n, m - 1);
        assert(text_upto(segments, m).take(text_upto(segments, n).len() as int) =~= text_upto(
            segments,
            m - 1,
        ).take(text_upto(segments, n).len() as int));
    }
}

/// The character of a segment, found in the text that the segments make
/// together.
pub proof fn lemma_text_at(segments: Seq<SegmentView>, m: int, k: int)
    requires
        0 <= m < segments.len(),
        0 <= k < segments[m].text.len(),
    ensures
        0 <= offset(segments, m) + k < text_of(segments).len(),
        text_of(segments)[offset(segments, m) + k] == segments[m].text[k],
{
    lemma_text_upto_len(segments, m);
    lemma_text_upto_len(segments, m + 1);
    lemma_text_grows(segments, m + 1, segments.len() as int);
    let upto = text_upto(segments, m + 1);
    assert(upto[offset(segments, m) + k] == segments[m].text[k]);
    assert(text_of(segments).take(upto.len() as int)[offset(segments, m) + k] == text_of(
        segments,
    )[offset(segments, m) + k]);
}

/// What the cell of the cursor shows in a line: the character at the
/// cursor's column, or a blank where the cursor stands behind the line.
pub open spec fn cursor_text(line: Seq<char>, x: int) -> Seq<char> {
    if 0 <= x < line.len() {
        seq![line[x]]
    } else {
        blank()
    }
}

/// One span of a drawn line is as it should be. The span that is marked as
/// the cursor stands in the cursor's line, has the cursor's style, and shows
/// what the cursor's cell shows. A span that is not marked is never drawn
/// like a highlighted cursor.
pub open spec fn well_drawn(
    span: SpanView,
    line: Seq<char>,
    cursor_here: bool,
    x: int,
    highlighted: bool,
) -> bool {
    if span.cursor {
        cursor_here && span.style == cursor_style(highlighted) && span.text == cursor_text(
            line,
            x,
        )
    } else {
        span.style != SpanStyle::Highlight
    }
}

/// The line can show the cursor at column `x`: the column lies in the line
/// or just behind it. An empty line shows its cursor wherever it is said to
/// be.
pub open spec fn cursor_is_shown(line: Seq<char>, x: int) -> bool {
    x <= line.len() || line.len() == 0
}

/// The spans draw the line. Their cells are the characters of the line, with
/// the mark on the cursor's cell. Every span is well drawn. At most one span
/// is marked as the cursor, and one is exactly where the line is the
/// cursor's and can show it.
pub open spec fn shows_line(
    spans: Seq<SpanView>,
    line: Seq<char>,
    cursor_here: bool,
    x: int,
    highlighted: bool,
) -> bool {
    &&& cells(spans) == line_cells(line, cursor_here, x)
    &&& forall|i: int|
        0 <= i < spans.len() ==> well_drawn(#[trigger] spans[i], line, cursor_here, x, highlighted)
    &&& forall|i: int, k: int|
        0 <= i < spans.len() && 0 <= k < spans.len() && (#[trigger] spans[i]).cursor && (
        #[trigger] spans[k]).cursor ==> i == k
    &&& (exists|i: int| 0 <= i < spans.len() && (#[trigger] spans[i]).cursor) <==> (cursor_here
        && cursor_is_shown(line, x))
}

/// The spans of the first `n` segments of the cursor's line: three for each
/// segment, each well drawn, at most one of them marked as the cursor, and
/// one exactly where the cursor's column lies in these segments or, behind
/// the last segment of the line, at its end.
pub proof fn lemma_spans_upto_marks(segments: Seq<SegmentView>, n: int, x: int, highlighted: bool)
    requires
        no_empty_segment(segments),
        0 <= n <= segments.len(),
        segments.len() >= 1,
        0 <= x,
    ensures
        spans_upto(segments, n, x, highlighted).len() == 3 * n,
        forall|i: int|
            0 <= i < 3 * n ==> well_drawn(
                #[trigger] spans_upto(segments, n, x, highlighted)[i],
                text_of(segments),
                true,
                x,
                highlighted,
            ),
        forall|i: int, k: int|
            0 <= i < 3 * n && 0 <= k < 3 * n && (#[trigger] spans_upto(
                segments,
                n,
                x,
                highlighted,
            )[i]).cursor && (#[trigger] spans_upto(segments, n, x, highlighted)[k]).cursor ==> i
                == k,
        (exists|i: int|
            0 <= i < 3 * n && (#[trigger] spans_upto(segments, n, x, highlighted)[i]).cursor) <==> (
        n >= 1 && (x < offset(segments, n) || (n == segments.len() && x == offset(segments, n)))),
    decreases n,
{
    if n > 0 {
        lemma_spans_upto_marks(segments, n - 1, x, highlighted);
        let line = text_of(segments);
        let before = spans_upto(segments, n - 1, x, highlighted);
        let segment = segments[n - 1];
        let start = offset(segments, n - 1);
        let end = offset(segments, n);
        let here = segment_spans(segment, start, x, n - 1 == 0, n == segments.len(), highlighted);
        let all = spans_upto(segments, n, x, highlighted);
        lemma_text_upto_len(segments, n - 1);
        lemma_text_upto_len(segments, n);
        lemma_text_upto_len(segments, segments.len() as int);
        assert(segment.text.len() > 0);
        assert(end == start + segment.text.len());
        assert(all == before + here);
        assert(here.len() == 3);
        let base = 3 * (n - 1);
        assert forall|i: int| 0 <= i < 3 * n implies all[i] == if i < base {
            before[i]
        } else {
            here[i - base]
        } by {}
        let before_marked = exists|i: int| 0 <= i < base && (#[trigger] before[i]).cursor;
        assert(before_marked <==> (n - 1 >= 1 && x < start));
        if start <= x < end {
            lemma_text_at(segments, n - 1, x - start);
            assert(here[1].cursor && !here[0].cursor && !here[2].cursor);
            assert(here[1].text == cursor_text(line, x));
            assert(all[base + 1].cursor);
        } else {
            assert(!here[0].cursor);
            assert(!here[1].cursor);
            if n == segments.len() && x == end {
                assert(here[2].cursor);
                assert(cursor_text(line, x) == blank());
                assert(all[base + 2].cursor);
            } else {
                assert(!here[2].cursor);
            }
        }
        assert forall|i: int| 0 <= i < 3 * n implies well_drawn(
            #[trigger] all[i],
            line,
            true,
            x,
            highlighted,
        ) by {
            if i < base {
                assert(well_drawn(before[i], line, true, x, highlighted));
            }
        }
        assert forall|i: int, k: int|
            0 <= i < 3 * n && 0 <= k < 3 * n && (#[trigger] all[i]).cursor && (
            #[trigger] all[k]).cursor implies i == k by {
            if i < base {
                assert(before[i].cursor);
            }
            if k < base {
                assert(before[k].cursor);
            }
        }
        if exists|i: int| 0 <= i < 3 * n && (#[trigger] all[i]).cursor {
            let i = choose|i: int| 0 <= i < 3 * n && (#[trigger] all[i]).cursor;
            if i < base {
                assert(before[i].cursor);
            }
        }
        if x < start && n - 1 >= 1 {
            let i = choose|i: int| 0 <= i < base && (#[trigger] before[i]).cursor;
            assert(all[i].cursor);
        }
    }
}

/// A line, drawn from segments that make it up, shows that line.
pub proof fn lemma_row_shows_line(
    segments: Seq<SegmentView>,
    cursor_here: bool,
    x: int,
    highlighted: bool,
)
    requires
        no_empty_segment(segments),
        0 <= x,
    ensures
        shows_line(
            row(segments, cursor_here, x, highlighted),
            text_of(segments),
            cursor_here,
            x,
            highlighted,
        ),
{
    let line = text_of(segments);
    let spans = row(segments, cursor_here, x, highlighted);
    lemma_text_upto_len(segments, segments.len() as int);
    if cursor_here {
        lemma_cursor_row_cells(segments, x, highlighted);
        if segments.len() == 0 {
            assert(line =~= Seq::<char>::empty());
            assert(spans[0].cursor);
        } else {
            lemma_spans_upto_marks(segments, segments.len() as int, x, highlighted);
            lemma_text_upto_len(segments, segments.len() - 1);
            assert(segments[segments.len() - 1].text.len() > 0);
        }
    } else {
        lemma_plain_row_cells(segments, segments.len() as int);
        assert(plain_row(segments).take(segments.len() as int) =~= plain_row(segments));
    }
}

} // verus!
