//! Styled text of the terminal interface.

use vstd::prelude::*;

verus! {

/// A terminal colour.
#[derive(Debug, Clone, Copy, PartialEq, Eq, Structural)]
pub enum Color {
    Black,
    White,
    Red,
    Green,
    Yellow,
    Blue,
    Magenta,
    Cyan,
    Gray,
    DarkGray,
    LightRed,
    LightGreen,
    LightYellow,
    LightBlue,
    LightMagenta,
    Rgb(u8, u8, u8),
}

/// How a piece of text looks.
#[derive(Debug, Clone, Copy, PartialEq, Eq, Structural)]
pub struct Style {
    pub fg: Option<Color>,
    pub bg: Option<Color>,
    pub bold: bool,
}

/// The terminal's own look.
#[verifier::allow_in_spec]
pub fn unstyled() -> (s: Style)
    returns
        (Style { fg: None, bg: None, bold: false }),
{
    Style { fg: None, bg: None, bold: false }
}

/// A text colour.
#[verifier::allow_in_spec]
pub fn fg(c: Color) -> (s: Style)
    returns
        (Style { fg: Some(c), bg: None, bold: false }),
{
    Style { fg: Some(c), bg: None, bold: false }
}

/// A text colour, in bold.
#[verifier::allow_in_spec]
pub fn bold(c: Color) -> (s: Style)
    returns
        (Style { fg: Some(c), bg: None, bold: true }),
{
    Style { fg: Some(c), bg: None, bold: true }
}

/// A text colour on a background.
#[verifier::allow_in_spec]
pub fn on(c: Color, bg: Color) -> (s: Style)
    returns
        (Style { fg: Some(c), bg: Some(bg), bold: false }),
{
    Style { fg: Some(c), bg: Some(bg), bold: false }
}

/// A text colour on a background, in bold.
#[verifier::allow_in_spec]
pub fn badge(c: Color, bg: Color) -> (s: Style)
    returns
        (Style { fg: Some(c), bg: Some(bg), bold: true }),
{
    Style { fg: Some(c), bg: Some(bg), bold: true }
}

/// A piece of text in one style.
#[derive(Debug)]
pub struct Span {
    pub text: String,
    pub style: Style,
}

/// The contents of a [`Span`].
pub struct SpanView {
    pub text: Seq<char>,
    pub style: Style,
}

impl View for Span {
    type V = SpanView;

    open spec fn view(&self) -> SpanView {
        SpanView { text: self.text@, style: self.style }
    }
}

/// The contents of every span of a list.
#[verifier::opaque]
pub open spec fn span_views(spans: Seq<Span>) -> Seq<SpanView> {
    spans.map_values(|s: Span| s@)
}

/// A line of spans.
#[derive(Debug)]
pub struct Line {
    pub spans: Vec<Span>,
    pub centered: bool,
}

/// The contents of a [`Line`].
pub struct LineView {
    pub spans: Seq<SpanView>,
    pub centered: bool,
}

impl View for Line {
    type V = LineView;

    open spec fn view(&self) -> LineView {
        LineView { spans: span_views(self.spans@), centered: self.centered }
    }
}

/// An empty line.
pub open spec fn blank() -> LineView {
    LineView { spans: Seq::empty(), centered: false }
}

impl LineView {
    /// Whether the line has a value right behind a label.
    pub open spec fn says(self, label: Seq<char>, value: Seq<char>) -> bool {
        exists|i: int|
            0 <= i < self.spans.len() - 1 && (#[trigger] self.spans[i]).text == label
                && self.spans[i + 1].text == value
    }

    /// With one more span at the end.
    pub open spec fn with(self, text: Seq<char>, style: Style) -> Self {
        LineView { spans: self.spans.push(SpanView { text, style }), ..self }
    }

    /// In the middle of its area.
    pub open spec fn in_the_middle(self) -> Self {
        LineView { centered: true, ..self }
    }
}

/// Lists of spans grow as what they say does.
pub proof fn span_views_follow(spans: Seq<Span>, s: Span)
    ensures
        span_views(spans).len() == spans.len(),
        span_views(spans.push(s)) == span_views(spans).push(s@),
        span_views(Seq::empty()) == Seq::<SpanView>::empty(),
        forall|i: int| 0 <= i < spans.len() ==> #[trigger] span_views(spans)[i] == spans[i]@,
{
    reveal(span_views);
    assert(span_views(spans.push(s)) =~= span_views(spans).push(s@));
    assert(span_views(Seq::empty()) =~= Seq::<SpanView>::empty());
}

impl Line {
    /// An empty line.
    pub fn new() -> (l: Self)
        ensures
            l@ == blank(),
    {
        let l = Line { spans: Vec::new(), centered: false };
        assert(span_views(l.spans@) =~= Seq::empty()) by {
            reveal(span_views);
        }
        l
    }

    /// Appends a span.
    pub fn put(&mut self, text: &str, style: Style)
        ensures
            final(self)@ == old(self)@.with(text@, style),
    {
        let s = Span { text: text.to_owned(), style };
        proof {
            span_views_follow(self.spans@, s);
        }
        self.spans.push(s);
    }

    /// Puts the line in the middle of its area.
    pub fn center(&mut self)
        ensures
            final(self)@ == old(self)@.in_the_middle(),
    {
        self.centered = true;
    }
}

/// A line of one span.
pub fn line_of(text: &str, style: Style) -> (l: Line)
    ensures
        l@ == blank().with(text@, style),
{
    let mut l = Line::new();
    l.put(text, style);
    l
}

/// A line of one span, in the middle of its area.
pub fn centered_line(text: &str, style: Style) -> (l: Line)
    ensures
        l@ == blank().with(text@, style).in_the_middle(),
{
    let mut l = Line::new();
    l.put(text, style);
    l.center();
    l
}

/// The contents of every line of a text.
#[verifier::opaque]
pub open spec fn line_views(lines: Seq<Line>) -> Seq<LineView> {
    lines.map_values(|l: Line| l@)
}

/// A text without lines.
pub fn no_lines() -> (t: Vec<Line>)
    ensures
        line_views(t@) == Seq::<LineView>::empty(),
{
    let t: Vec<Line> = Vec::new();
    assert(line_views(t@) =~= Seq::<LineView>::empty()) by {
        reveal(line_views);
    }
    t
}

/// Appends a line to a text.
pub fn add_line(text: &mut Vec<Line>, line: Line)
    ensures
        line_views(final(text)@) == line_views(old(text)@).push(line@),
{
    let ghost before = text@;
    let ghost l = line;
    text.push(line);
    assert(line_views(text@) =~= line_views(before).push(l@)) by {
        reveal(line_views);
    }
}

/// The contents of an optional line.
pub open spec fn opt_line(line: Option<Line>) -> Option<LineView> {
    match line {
        Some(l) => Some(l@),
        None => None,
    }
}

/// A style has the colours it is made of and no others, and is bold where its name
/// says so.
pub proof fn styles_are_what_they_are_called(c: Color, b: Color)
    ensures
        fg(c).fg == Some(c) && fg(c).bg is None && !fg(c).bold,
        bold(c).fg == Some(c) && bold(c).bg is None && bold(c).bold,
        on(c, b).fg == Some(c) && on(c, b).bg == Some(b) && !on(c, b).bold,
        badge(c, b).fg == Some(c) && badge(c, b).bg == Some(b) && badge(c, b).bold,
        unstyled().fg is None && unstyled().bg is None && !unstyled().bold,
{
}

/// A line grows at its end, one piece at a time, and keeps what it has.
pub proof fn lines_grow_at_their_end(l: LineView, text: Seq<char>, style: Style)
    ensures
        l.with(text, style).spans.drop_last() == l.spans,
        l.with(text, style).spans.last() == (SpanView { text, style }),
        l.with(text, style).centered == l.centered,
        l.in_the_middle().spans == l.spans && l.in_the_middle().centered,
        blank().spans.len() == 0 && !blank().centered,
{
    assert(l.with(text, style).spans.drop_last() =~= l.spans);
}

} // verus!
