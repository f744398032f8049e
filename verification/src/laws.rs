//! What the details view promises: what is seen of a commit, told from what was read of it.

pub mod files;
pub mod hunks;
pub mod notation;
pub mod view;

use crate::text::{
    line_of, plain, raw, spans_text, spans_width, styled, text_width, SpanView, Style,
};
use vstd::prelude::*;

verus! {

/// `text` as it is seen: each character in the style `style`.
pub open spec fn paint(text: Seq<char>, style: Style) -> Seq<(char, Style)> {
    Seq::new(text.len(), |i: int| (text[i], style))
}

/// Spans as they are seen: the characters of one after those of the other, each in its style.
pub open spec fn cells(spans: Seq<SpanView>) -> Seq<(char, Style)>
    decreases spans.len(),
{
    if spans.len() == 0 {
        Seq::empty()
    } else {
        cells(spans.drop_last()) + paint(spans.last().content, spans.last().style)
    }
}

/// One span as it is seen.
pub open spec fn cell(span: SpanView) -> Seq<(char, Style)> {
    paint(span.content, span.style)
}

/// A few spans are seen one after the other.
pub(crate) proof fn lemma_cells(s: Seq<SpanView>)
    ensures
        s.len() == 0 ==> cells(s) == Seq::<(char, Style)>::empty(),
        s.len() == 1 ==> cells(s) == cell(s[0]),
        s.len() == 2 ==> cells(s) == cell(s[0]) + cell(s[1]),
        s.len() == 4 ==> cells(s) == cell(s[0]) + cell(s[1]) + cell(s[2]) + cell(s[3]),
        s.len() == 6 ==> cells(s) == cell(s[0]) + cell(s[1]) + cell(s[2]) + cell(s[3]) + cell(
            s[4],
        ) + cell(s[5]),
        s.len() == 7 ==> cells(s) == cell(s[0]) + cell(s[1]) + cell(s[2]) + cell(s[3]) + cell(
            s[4],
        ) + cell(s[5]) + cell(s[6]),
{
    reveal_with_fuel(cells, 8);
    if s.len() > 0 {
        assert(Seq::<(char, Style)>::empty() + cell(s[0]) =~= cell(s[0]));
    }
}

/// Spans behind others are seen behind them.
pub(crate) proof fn lemma_cells_of_both(a: Seq<SpanView>, b: Seq<SpanView>)
    ensures
        cells(a + b) == cells(a) + cells(b),
    decreases b.len(),
{
    if b.len() == 0 {
        assert(a + b =~= a);
        assert(cells(a) + cells(b) =~= cells(a));
    } else {
        lemma_cells_of_both(a, b.drop_last());
        assert((a + b).drop_last() =~= a + b.drop_last());
        assert(cells(a + b) =~= cells(a) + cells(b));
    }
}

/// What is seen of spans reads as their text.
pub proof fn law_cells_read_as_text(spans: Seq<SpanView>)
    ensures
        cells(spans).len() == spans_text(spans).len(),
        forall|i: int|
            0 <= i < cells(spans).len() ==> (#[trigger] cells(spans)[i]).0 == spans_text(spans)[i],
    decreases spans.len(),
{
    if spans.len() > 0 {
        law_cells_read_as_text(spans.drop_last());
    }
}

/// A span keeps its text and its style, and a line its spans.
pub proof fn law_text_is_kept(text: Seq<char>, style: Style, spans: Seq<SpanView>)
    ensures
        styled(text, style).content == text,
        styled(text, style).style == style,
        raw(text).content == text,
        raw(text).style == plain(),
        line_of(spans).spans == spans,
        line_of(spans).style == plain(),
{
}

/// A line takes the columns of its spans together.
pub proof fn law_width_adds_up(spans: Seq<SpanView>, span: SpanView)
    ensures
        spans_width(Seq::empty()) == 0,
        spans_width(spans.push(span)) == spans_width(spans) + text_width(span.content),
{
    assert(spans.push(span).drop_last() =~= spans);
}

/// The plain style sets nothing.
pub proof fn law_plain_sets_nothing()
    ensures
        plain().fg is None,
        plain().bg is None,
        plain().underline_color is None,
        plain().add_modifier == 0,
        plain().sub_modifier == 0,
{
}

} // verus!
