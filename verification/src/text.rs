//! Styled text: spans, lines, and how many terminal columns they take.

use unicode_width::UnicodeWidthStr;
use vstd::prelude::*;
use vstd::string::*;

verus! {

/// A terminal color.
#[derive(Clone, Copy, Debug, PartialEq, Eq)]
pub enum Color {
    Reset,
    Black,
    Red,
    Green,
    Yellow,
    Blue,
    Magenta,
    Cyan,
    Gray,
    DarkGray,
    LightRed,
    LightGreen,
    LightYellow,
    LightBlue,
    LightMagenta,
    LightCyan,
    White,
    Rgb(u8, u8, u8),
    Indexed(u8),
}

/// How text is drawn. The modifiers are bit sets: those to add and those to remove.
#[derive(Clone, Copy, Debug, PartialEq, Eq)]
pub struct Style {
    pub fg: Option<Color>,
    pub bg: Option<Color>,
    pub underline_color: Option<Color>,
    pub add_modifier: u16,
    pub sub_modifier: u16,
}

/// The style that changes nothing.
pub open spec fn plain() -> Style {
    Style { fg: None, bg: None, underline_color: None, add_modifier: 0, sub_modifier: 0 }
}

impl Default for Style {
    fn default() -> (r: Style)
        ensures
            r == plain(),
    {
        Style { fg: None, bg: None, underline_color: None, add_modifier: 0, sub_modifier: 0 }
    }
}

impl Style {
    /// This style with the foreground `color`.
    pub fn fg(self, color: Color) -> (r: Style)
        ensures
            r == (Style { fg: Some(color), ..self }),
    {
        Style { fg: Some(color), ..self }
    }

    /// This style with the background `color`.
    pub fn bg(self, color: Color) -> (r: Style)
        ensures
            r == (Style { bg: Some(color), ..self }),
    {
        Style { bg: Some(color), ..self }
    }
}

/// A piece of text in one style.
#[derive(Debug, PartialEq, Eq)]
pub struct Span {
    pub content: String,
    pub style: Style,
}

/// The model of a [`Span`].
pub struct SpanView {
    pub content: Seq<char>,
    pub style: Style,
}

impl View for Span {
    type V = SpanView;

    open spec fn view(&self) -> SpanView {
        SpanView { content: self.content@, style: self.style }
    }
}

/// A span in the plain style.
pub open spec fn raw(content: Seq<char>) -> SpanView {
    SpanView { content, style: plain() }
}

/// A span in a given style.
pub open spec fn styled(content: Seq<char>, style: Style) -> SpanView {
    SpanView { content, style }
}

impl Span {
    /// A span of `content` in the plain style.
    pub fn raw(content: String) -> (r: Span)
        ensures
            r@ == raw(content@),
    {
        Span { content, style: Style::default() }
    }

    /// A span of `content` in `style`.
    pub fn styled(content: String, style: Style) -> (r: Span)
        ensures
            r@ == styled(content@, style),
    {
        Span { content, style }
    }
}

impl Clone for Span {
    fn clone(&self) -> (r: Span)
        ensures
            r@ == self@,
    {
        Span { content: self.content.clone(), style: self.style }
    }
}

/// The models of a sequence of spans.
pub open spec fn span_views(spans: Seq<Span>) -> Seq<SpanView> {
    Seq::new(spans.len(), |i: int| spans[i]@)
}

/// A copy of `spans`.
pub fn clone_spans(spans: &Vec<Span>) -> (r: Vec<Span>)
    ensures
        span_views(r@) == span_views(spans@),
{
    let mut r: Vec<Span> = Vec::new();
    for i in 0..spans.len()
        invariant
            r@.len() == i,
            forall|k: int| 0 <= k < i ==> (#[trigger] r@[k])@ == spans@[k]@,
    {
        r.push(spans[i].clone());
    }
    proof {
        assert(span_views(r@) =~= span_views(spans@));
    }
    r
}

/// One line of styled text. The style of the line lies below those of its spans.
#[derive(Debug, PartialEq, Eq)]
pub struct Line {
    pub spans: Vec<Span>,
    pub style: Style,
}

/// The model of a [`Line`].
pub struct LineView {
    pub spans: Seq<SpanView>,
    pub style: Style,
}

impl View for Line {
    type V = LineView;

    open spec fn view(&self) -> LineView {
        LineView { spans: span_views(self.spans@), style: self.style }
    }
}

/// A line of spans in the plain line style.
pub open spec fn line_of(spans: Seq<SpanView>) -> LineView {
    LineView { spans, style: plain() }
}

impl Line {
    /// A line of `spans` in the plain line style.
    pub fn from_spans(spans: Vec<Span>) -> (r: Line)
        ensures
            r@ == line_of(span_views(spans@)),
    {
        Line { spans, style: Style::default() }
    }

    /// This line in the line style `style`.
    pub fn style(self, style: Style) -> (r: Line)
        ensures
            r@ == (LineView { style, ..self@ }),
    {
        Line { spans: self.spans, style }
    }

    /// The number of terminal columns that the line takes.
    pub fn width(&self) -> (r: usize)
        ensures
            r == spans_width(self@.spans),
    {
        line_width(self)
    }
}

impl Clone for Line {
    fn clone(&self) -> (r: Line)
        ensures
            r@ == self@,
    {
        Line { spans: clone_spans(&self.spans), style: self.style }
    }
}

/// The number of terminal columns of a text, as `unicode_width` counts them.
pub uninterp spec fn text_width(text: Seq<char>) -> nat;

/// True of printable ASCII characters and of the strokes of rules, borders and gutters.
pub open spec fn narrow_char(c: char) -> bool {
    ' ' <= c <= '~' || c == '─' || c == '│' || c == '┊' || c == '╮' || c == '╯'
}

/// True of a text of such characters.
pub open spec fn narrow(text: Seq<char>) -> bool {
    forall|i: int| 0 <= i < text.len() ==> narrow_char(#[trigger] text[i])
}

/// Calls `<str as unicode_width::UnicodeWidthStr>::width`. The result is a function of the
/// text. A printable ASCII character takes one column, and so does each of the strokes of
/// [`narrow_char`], which the tables of the crate give one column outside of CJK contexts. What
/// other characters take is left to those tables.
#[verifier::external_body]
pub(crate) fn str_width(text: &str) -> (r: usize)
    ensures
        r == text_width(text@),
        narrow(text@) ==> r == text@.len(),
{
    text.width()
}

/// The sum of the widths of the spans.
pub open spec fn spans_width(spans: Seq<SpanView>) -> nat
    decreases spans.len(),
{
    if spans.len() == 0 {
        0
    } else {
        spans_width(spans.drop_last()) + text_width(spans.last().content)
    }
}

/// The text of the spans, one after the other.
pub open spec fn spans_text(spans: Seq<SpanView>) -> Seq<char>
    decreases spans.len(),
{
    if spans.len() == 0 {
        Seq::empty()
    } else {
        spans_text(spans.drop_last()) + spans.last().content
    }
}

/// Calls `ratatui::text::Line::width`, which adds up what `unicode_width` counts for the
/// content of each span. Styles have no part in it.
#[verifier::external_body]
fn line_width(line: &Line) -> (r: usize)
    ensures
        r == spans_width(line@.spans),
{
    line.spans.iter().map(|span| span.content.as_str()).collect::<ratatui::text::Line>().width()
}

/// `count` spaces.
pub open spec fn spaces(count: nat) -> Seq<char> {
    Seq::new(count, |i: int| ' ')
}

/// A text of `count` spaces.
pub fn spaces_text(count: u32) -> (r: String)
    ensures
        r@ == spaces(count as nat),
{
    let mut text = String::new();
    proof {
        reveal_strlit(" ");
    }
    for i in 0..count
        invariant
            text@ == spaces(i as nat),
            " "@ =~= seq![' '],
    {
        text.append(" ");
        proof {
            assert(text@ =~= spaces((i + 1) as nat));
        }
    }
    text
}

} // verus!
