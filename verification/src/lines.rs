//! The lines of the details view, and where they are written to.

use crate::ids::SectionId;
use crate::text::{span_views, Color, Line, LineView, Span, SpanView};
use std::sync::Arc;
use vstd::prelude::*;

verus! {

/// A line of the details view.
#[derive(Debug, PartialEq, Eq)]
pub enum DetailsLine {
    /// Styled text.
    Text { id: SectionId, line: Line },
    /// Plain text of any length.
    TextToWrap { id: SectionId, text: String },
    /// A line of source code behind its line numbers.
    RawCode {
        id: SectionId,
        line_numbers: Vec<Span>,
        code: String,
        /// The path of the file that the code stands in.
        path: Arc<Vec<u8>>,
        /// The line as it is drawn: line numbers and highlighted code. It is made when the
        /// line is first drawn, and then kept.
        highlighted_line: Option<Line>,
        bg: Option<Color>,
    },
    /// Nothing.
    EmptyLine,
}

/// The model of a [`DetailsLine`].
pub enum DetailsLineView {
    Text { id: Seq<char>, line: LineView },
    TextToWrap { id: Seq<char>, text: Seq<char> },
    RawCode {
        id: Seq<char>,
        line_numbers: Seq<SpanView>,
        code: Seq<char>,
        path: Seq<u8>,
        highlighted_line: Option<LineView>,
        bg: Option<Color>,
    },
    EmptyLine,
}

/// The model of a line that may be there.
pub open spec fn line_view(line: Option<Line>) -> Option<LineView> {
    match line {
        Some(line) => Some(line@),
        None => None,
    }
}

impl View for DetailsLine {
    type V = DetailsLineView;

    open spec fn view(&self) -> DetailsLineView {
        match self {
            DetailsLine::Text { id, line } => DetailsLineView::Text { id: id@, line: line@ },
            DetailsLine::TextToWrap { id, text } => DetailsLineView::TextToWrap {
                id: id@,
                text: text@,
            },
            DetailsLine::RawCode { id, line_numbers, code, path, highlighted_line, bg } => {
                DetailsLineView::RawCode {
                    id: id@,
                    line_numbers: span_views(line_numbers@),
                    code: code@,
                    path: path@,
                    highlighted_line: line_view(*highlighted_line),
                    bg: *bg,
                }
            },
            DetailsLine::EmptyLine => DetailsLineView::EmptyLine,
        }
    }
}

/// The models of a sequence of lines.
pub open spec fn lines_view(lines: Seq<DetailsLine>) -> Seq<DetailsLineView> {
    Seq::new(lines.len(), |i: int| lines[i]@)
}

/// Takes lines, one after the other.
pub trait LineWriter {
    /// The lines written so far.
    spec fn written(&self) -> Seq<DetailsLineView>;

    /// Writes a line of styled text.
    fn push_text(&mut self, id: SectionId, line: Line)
        ensures
            final(self).written() == old(self).written().push(
                DetailsLineView::Text { id: id@, line: line@ },
            ),
    ;

    /// Writes an empty line.
    fn push_empty_line(&mut self)
        ensures
            final(self).written() == old(self).written().push(DetailsLineView::EmptyLine),
    ;

    /// Writes plain text.
    fn push_text_to_wrap(&mut self, id: SectionId, text: String)
        ensures
            final(self).written() == old(self).written().push(
                DetailsLineView::TextToWrap { id: id@, text: text@ },
            ),
    ;

    /// Writes a line of source code that was not drawn yet.
    fn push_raw_code(
        &mut self,
        id: SectionId,
        line_numbers: Vec<Span>,
        code: String,
        bg: Option<Color>,
        path: Arc<Vec<u8>>,
    )
        ensures
            final(self).written() == old(self).written().push(
                DetailsLineView::RawCode {
                    id: id@,
                    line_numbers: span_views(line_numbers@),
                    code: code@,
                    path: path@,
                    highlighted_line: None,
                    bg,
                },
            ),
    ;
}

/// Keeps the lines it is given.
#[derive(Debug, PartialEq, Eq)]
pub struct BufferLineWriter {
    pub buf: Vec<DetailsLine>,
}

impl Default for BufferLineWriter {
    fn default() -> (r: BufferLineWriter)
        ensures
            r.written() == Seq::<DetailsLineView>::empty(),
    {
        let r = BufferLineWriter { buf: Vec::new() };
        proof {
            assert(r.written() =~= Seq::<DetailsLineView>::empty());
        }
        r
    }
}

impl LineWriter for BufferLineWriter {
    open spec fn written(&self) -> Seq<DetailsLineView> {
        lines_view(self.buf@)
    }

    fn push_text(&mut self, id: SectionId, line: Line) {
        self.buf.push(DetailsLine::Text { id, line });
        proof {
            assert(self.written() =~= old(self).written().push(
                DetailsLineView::Text { id: id@, line: line@ },
            ));
        }
    }

    fn push_empty_line(&mut self) {
        self.buf.push(DetailsLine::EmptyLine);
        proof {
            assert(self.written() =~= old(self).written().push(DetailsLineView::EmptyLine));
        }
    }

    fn push_text_to_wrap(&mut self, id: SectionId, text: String) {
        self.buf.push(DetailsLine::TextToWrap { id, text });
        proof {
            assert(self.written() =~= old(self).written().push(
                DetailsLineView::TextToWrap { id: id@, text: text@ },
            ));
        }
    }

    fn push_raw_code(
        &mut self,
        id: SectionId,
        line_numbers: Vec<Span>,
        code: String,
        bg: Option<Color>,
        path: Arc<Vec<u8>>,
    ) {
        self.buf.push(
            DetailsLine::RawCode { id, line_numbers, code, path, highlighted_line: None, bg },
        );
        proof {
            assert(self.written() =~= old(self).written().push(
                DetailsLineView::RawCode {
                    id: id@,
                    line_numbers: span_views(line_numbers@),
                    code: code@,
                    path: path@,
                    highlighted_line: None,
                    bg,
                },
            ));
        }
    }
}

} // verus!
