//! What is selected, what is drawn, and in which colors.

use super::notation::{law_file_in_directory, law_file_without_extension};
use crate::cli_id::{CliId, CliIdView};
use crate::details::{
    color_with, drawn, lines_drawable, load, prepared, row_area, rows_in_range, select,
    step_changed, widget_of, DetailsView, Draw, DrawView, Rect, StepView, UpdateStep, Widget,
    WidgetView,
};
use crate::git::{CommitDetails, ObjectId};
use crate::highlight::{
    chosen_syntax, code_spans, drawable, drawn_code, highlightable, highlighted, is_drawing,
    law_clean_is_portable, law_portable_path_syntax, path_syntax, plain_text, ranges_view,
    syntax_for_extension, syntax_name, syntaxes, text_view, HighlightedRange, RangeView,
};
use crate::lines::{BufferLineWriter, DetailsLine, DetailsLineView, LineWriter};
use crate::rendering::{commit_lines, commit_paths};
use crate::text::{plain, Color, Line, LineView, Span, SpanView};
use syntect::highlighting::Theme as SyntaxTheme;
use syntect::parsing::{SyntaxReference, SyntaxSet};
use vstd::prelude::*;
use vstd::std_specs::cmp::PartialEqSpec;
use vstd::utf8::{decode_utf8, encode_utf8, valid_utf8};

verus! {

/// Each piece of highlighted code keeps its text and the color that the highlighter gave it,
/// and lies on the background of the line, whatever that is and whether or not there is one;
/// nothing else is set. So the colors do not depend on the background.
pub proof fn law_pieces_keep_their_colors(
    code: Seq<char>,
    bg: Option<Color>,
    other: Option<Color>,
    pieces: Seq<RangeView>,
    i: int,
)
    requires
        0 <= i < pieces.len(),
    ensures
        ({
            let spans = code_spans(code, bg, Some(pieces));
            let others = code_spans(code, other, Some(pieces));
            &&& spans.len() == pieces.len()
            &&& spans[i].content == pieces[i].text
            &&& spans[i].style.fg == Some(Color::Rgb(pieces[i].r, pieces[i].g, pieces[i].b))
            &&& spans[i].style.bg == bg
            &&& spans[i].style.underline_color is None
            &&& spans[i].style.add_modifier == 0
            &&& spans[i].style.sub_modifier == 0
            &&& spans[i].style.fg == others[i].style.fg
            &&& spans[i].content == others[i].content
        }),
{
}

/// Code that the highlighter could not parse is shown as it is, in no color and on no
/// background.
pub proof fn law_unparsed_code_is_plain(code: Seq<char>, bg: Option<Color>)
    ensures
        ({
            let spans = code_spans(code, bg, None);
            &&& spans.len() == 1
            &&& spans[0].content == code
            &&& spans[0].style.fg is None
            &&& spans[0].style.bg is None
            &&& spans[0].style.underline_color is None
            &&& spans[0].style.add_modifier == 0
            &&& spans[0].style.sub_modifier == 0
        }),
{
}

/// The grammar of a file is the one for its extension; without one, the one for its whole name,
/// taken as an extension; without that either, the one for plain text.
pub proof fn law_choice_of_grammar(
    set: SyntaxSet,
    extension: Option<Seq<char>>,
    name: Option<Seq<char>>,
)
    ensures
        ({
            let all = syntaxes(set);
            let chosen = chosen_syntax(set, extension, name);
            let by_extension = match extension {
                Some(e) => syntax_for_extension(all, e),
                None => None,
            };
            let by_name = match name {
                Some(n) => syntax_for_extension(all, n),
                None => None,
            };
            &&& by_extension is Some ==> chosen == by_extension
            &&& by_extension is None && by_name is Some ==> chosen == by_name
            &&& by_extension is None && by_name is None ==> chosen == plain_text(set)
        }),
{
}

/// True of a path that is written plainly: in UTF-8, without backslashes, and beginning neither
/// with a drive nor with two slashes.
pub open spec fn plainly_written(path: Seq<u8>) -> bool {
    &&& valid_utf8(path)
    &&& !path.contains(92)
    &&& path.len() >= 2 ==> path[1] != 58 && !(path[0] == 47 && path[1] == 47)
}

/// A plainly written path has one grammar: the one for the extension that stands behind the
/// last dot of its last component, else the one for that component, else the one for plain text.
pub proof fn law_grammar_of_a_file(
    set: SyntaxSet,
    dir: Seq<u8>,
    stem: Seq<u8>,
    extension: Seq<u8>,
    syntax: SyntaxReference,
)
    requires
        stem.len() > 0,
        !stem.contains(47),
        extension.len() > 0,
        !extension.contains(47),
        !extension.contains(46),
        plainly_written(dir.push(47) + (stem.push(46) + extension)),
        path_syntax(set, dir.push(47) + (stem.push(46) + extension), syntax),
    ensures
        ({
            let all = syntaxes(set);
            let by_extension = syntax_for_extension(all, decode_utf8(extension));
            let by_name = syntax_for_extension(all, decode_utf8(stem.push(46) + extension));
            &&& by_extension is Some ==> by_extension == Some(syntax)
            &&& by_extension is None && by_name is Some ==> by_name == Some(syntax)
            &&& by_extension is None && by_name is None ==> plain_text(set) == Some(syntax)
        }),
{
    let path = dir.push(47) + (stem.push(46) + extension);
    law_file_in_directory(dir, stem, extension);
    law_clean_is_portable(path);
    law_portable_path_syntax(set, path, syntax);
}

/// A file without a dot in its name has the grammar for its name, else the one for plain text.
pub proof fn law_grammar_of_a_name(
    set: SyntaxSet,
    name: Seq<u8>,
    syntax: SyntaxReference,
)
    requires
        name.len() > 0,
        !name.contains(47),
        !name.contains(46),
        plainly_written(name),
        path_syntax(set, name, syntax),
    ensures
        ({
            let by_name = syntax_for_extension(syntaxes(set), decode_utf8(name));
            &&& by_name is Some ==> by_name == Some(syntax)
            &&& by_name is None ==> plain_text(set) == Some(syntax)
        }),
{
    law_file_without_extension(name);
    law_clean_is_portable(name);
    law_portable_path_syntax(set, name, syntax);
}

/// Any line of a file with a plainly written path and the grammar for plain text can be drawn.
pub proof fn law_plain_text_can_be_drawn(
    set: SyntaxSet,
    path: Seq<u8>,
    syntax: SyntaxReference,
    code: Seq<char>,
)
    requires
        plainly_written(path),
        path_syntax(set, path, syntax),
        syntax_name(syntax) == "Plain Text"@,
    ensures
        drawable(set, path, code),
{
    law_clean_is_portable(path);
    law_portable_path_syntax(set, path, syntax);
}

/// A line of source code is drawn as its line numbers, span by span, and behind them the spans
/// of its code as the highlighter splits it in a grammar for its path.
pub proof fn law_drawn_code(
    set: SyntaxSet,
    theme: SyntaxTheme,
    numbers: Seq<SpanView>,
    code: Seq<char>,
    path: Seq<u8>,
    bg: Option<Color>,
    line: LineView,
)
    requires
        is_drawing(set, theme, numbers, code, path, bg, line),
    ensures
        line.style == plain(),
        line.spans.len() >= numbers.len(),
        line.spans.take(numbers.len() as int) == numbers,
        exists|syntax: SyntaxReference| #[trigger]
            path_syntax(set, path, syntax) && line.spans.skip(numbers.len() as int) == code_spans(
                code,
                bg,
                highlighted(set, syntax, theme, code),
            ),
{
    let syntax = choose|syntax: SyntaxReference| #[trigger]
        path_syntax(set, path, syntax) && line == drawn_code(
            set,
            theme,
            syntax,
            numbers,
            code,
            bg,
        );
    let rest = code_spans(code, bg, highlighted(set, syntax, theme, code));
    assert(line.spans.take(numbers.len() as int) =~= numbers);
    assert(line.spans.skip(numbers.len() as int) =~= rest);
}

/// A line can be highlighted in any grammar if it takes no more than 262,144 bytes, and so can
/// every line of a file whose path is read alike everywhere and whose grammar is named
/// `Plain Text`.
pub proof fn law_short_lines_can_be_drawn(
    set: SyntaxSet,
    syntax: SyntaxReference,
    path: Seq<u8>,
    code: Seq<char>,
)
    ensures
        encode_utf8(code).len() <= 262144 ==> highlightable(syntax, code) && drawable(
            set,
            path,
            code,
        ),
        syntax_name(syntax) == "Plain Text"@ ==> highlightable(syntax, code),
        encode_utf8(code).len() > 262144 && highlightable(syntax, code)
            ==> syntax_name(syntax) == "Plain Text"@,
{
}

/// Each row that is drawn shows the line of the view with its number: styled text with the same
/// spans in the same style; text to wrap as that text; an empty line as nothing; and source
/// code as the drawing that was kept, or as one that is made and kept now. The rows are as many
/// as there are lines and as the area is high, whichever is less, and lie one below the other.
pub proof fn law_rows_show_their_lines(
    before: DetailsView,
    area: Rect,
    after: DetailsView,
    draws: Seq<DrawView>,
    n: int,
)
    requires
        before.lines is Some,
        drawn(before, area, after, draws),
        0 <= n < draws.len(),
    ensures
        draws.len() == if before.lines->0.len() < area.height {
            before.lines->0.len() as int
        } else {
            area.height as int
        },
        area.y + n <= 65535 ==> draws[n].area.y == area.y + n,
        draws[n].area.x == area.x,
        draws[n].area.width == area.width,
        draws[n].area.height == 1,
        match before.lines->0[n] {
            DetailsLineView::Text { line, .. } => draws[n].widget matches WidgetView::Line(shown)
                && shown.spans == line.spans && shown.style == line.style,
            DetailsLineView::TextToWrap { text, .. } => draws[n].widget matches WidgetView::Text(
                shown,
            ) && shown == text,
            DetailsLineView::EmptyLine => draws[n].widget matches WidgetView::Text(shown)
                && shown.len() == 0,
            DetailsLineView::RawCode { highlighted_line: Some(kept), .. } => {
                draws[n].widget matches WidgetView::Line(shown) && shown == kept
            },
            DetailsLineView::RawCode {
                line_numbers,
                code,
                path,
                highlighted_line: None,
                bg,
                ..
            } => {
                &&& draws[n].widget matches WidgetView::Line(shown)
                &&& is_drawing(
                    after.syntax_set->0,
                    before.syntax_theme->0,
                    line_numbers,
                    code,
                    path,
                    bg,
                    shown,
                )
                &&& after.lines->0[n] matches DetailsLineView::RawCode { highlighted_line, .. }
                &&& highlighted_line == Some(shown)
            },
        },
{
    assert(prepared(
        after.syntax_set->0,
        before.syntax_theme->0,
        before.lines->0[n],
        after.lines->0[n],
    ));
    assert(draws[n] == (DrawView {
        area: row_area(area, n as nat),
        widget: widget_of(after.lines->0[n]),
    }));
}

/// Without lines, the whole area is cleared, and nothing else is drawn.
pub proof fn law_nothing_to_show_clears(
    before: DetailsView,
    area: Rect,
    after: DetailsView,
    draws: Seq<DrawView>,
)
    requires
        before.lines is None,
        drawn(before, area, after, draws),
    ensures
        draws.len() == 1,
        draws[0].area == area,
        draws[0].widget matches WidgetView::Text(shown) && shown.len() == 0,
        after.lines is None,
{
}

/// A selection that differs from the last one is remembered, and any other is ignored. A commit
/// is asked for, and until it is read the lines stay; everything else empties the view. Nothing
/// else changes.
pub proof fn law_selection(view: DetailsView, selection: Option<CliIdView>)
    ensures
        ({
            let (next, step) = select(view, selection);
            let news = selection is Some && selection != view.selection;
            &&& !news ==> next == view && step is Unchanged
            &&& news ==> next.selection == selection
            &&& news ==> match selection->0 {
                CliIdView::Commit { commit_id, .. } => step == StepView::LoadCommit(commit_id)
                    && next.lines == view.lines,
                _ => step is Cleared && next.lines is None,
            }
            &&& next.theme == view.theme
            &&& next.ids == view.ids
            &&& next.syntax_set == view.syntax_set
            &&& next.syntax_theme == view.syntax_theme
            &&& next.selected_section == view.selected_section
            &&& step_changed(step) == if step is LoadCommit {
                None
            } else {
                Some(news)
            }
        }),
{
}

/// Once a commit is read, its lines take the place of those shown before, and its identifiers
/// join those handed out before. Nothing else changes.
pub proof fn law_loading(view: DetailsView, commit: Seq<u8>, details: CommitDetails)
    ensures
        ({
            let next = load(view, commit, details);
            &&& next.lines == Some(commit_lines("details"@, commit, details, view.theme))
            &&& forall|p: Seq<char>| #[trigger]
                next.ids.contains(p) <==> view.ids.contains(p) || commit_paths(
                    "details"@,
                    commit,
                    details,
                ).contains(p)
            &&& next.theme == view.theme
            &&& next.selection == view.selection
            &&& next.syntax_set == view.syntax_set
            &&& next.syntax_theme == view.syntax_theme
            &&& next.selected_section == view.selected_section
        }),
{
}

/// The colors of source code that were given first stay, and giving them changes nothing else.
pub proof fn law_first_colors_stay(view: DetailsView, first: SyntaxTheme, second: SyntaxTheme)
    ensures
        view.syntax_theme is None ==> color_with(view, first).syntax_theme == Some(first),
        view.syntax_theme is Some ==> color_with(view, first) == view,
        color_with(color_with(view, first), second) == color_with(view, first),
        color_with(view, first) == (DetailsView {
            syntax_theme: color_with(view, first).syntax_theme,
            ..view
        }),
{
}

/// The rows that are drawn stay in range unless a row that shows a line lies beyond the last
/// number of 16 bits.
pub proof fn law_rows_in_range(view: DetailsView, area: Rect)
    ensures
        rows_in_range(view, area) <==> (view.lines matches Some(lines) ==> forall|n: int|
            0 <= n < lines.len() && n < area.height ==> #[trigger] row_number(area, n) <= 65535),
{
    if let Some(lines) = view.lines {
        let count = if lines.len() < area.height {
            lines.len() as int
        } else {
            area.height as int
        };
        if count > 0 {
            assert(row_number(area, count - 1) == area.y + count - 1);
        }
    }
}

/// The number of the row `n` of an area.
pub open spec fn row_number(area: Rect, n: int) -> int {
    area.y + n
}

/// A view can be drawn unless a row would show a line of source code that was not drawn before
/// and cannot be highlighted. Lines of up to 262,144 bytes never stand in the way.
pub proof fn law_lines_drawable(view: DetailsView, area: Rect)
    ensures
        lines_drawable(view, area) <==> (view.lines matches Some(lines) ==> forall|n: int|
            0 <= n < lines.len() && n < area.height ==> (#[trigger] lines[n] matches
                DetailsLineView::RawCode { code, path, highlighted_line: None, .. } ==> encode_utf8(
                code,
            ).len() <= 262144 || (view.syntax_set is Some && drawable(
                view.syntax_set->0,
                path,
                code,
            )))),
{
}

/// Two entities are the same exactly if they are of one kind and their fields are equal.
pub proof fn law_same_entity(a: CliId, b: CliId)
    ensures
        a.eq_spec(&b) == (a@ == b@),
        a@ == b@ <==> match (a, b) {
            (CliId::UncommittedHunkOrFile { id }, CliId::UncommittedHunkOrFile { id: other }) => id@
                == other@,
            (CliId::PathPrefix { id }, CliId::PathPrefix { id: other }) => id@ == other@,
            (CliId::CommittedFile { id }, CliId::CommittedFile { id: other }) => id@ == other@,
            (CliId::Branch { id }, CliId::Branch { id: other }) => id@ == other@,
            (
                CliId::Commit { commit_id, id },
                CliId::Commit { commit_id: other_commit, id: other },
            ) => commit_id.bytes@ == other_commit.bytes@ && id@ == other@,
            (CliId::Uncommitted { id }, CliId::Uncommitted { id: other }) => id@ == other@,
            (CliId::Stack { id }, CliId::Stack { id: other }) => id@ == other@,
            _ => false,
        },
{
}

/// The model of a piece of source code holds its color and its text.
pub proof fn law_piece_model(piece: HighlightedRange, pieces: Vec<HighlightedRange>)
    ensures
        piece@.r == piece.r && piece@.g == piece.g && piece@.b == piece.b,
        piece@.text == piece.text@,
        ranges_view(None) is None,
        ranges_view(Some(pieces)) matches Some(views) && views.len() == pieces@.len() && forall|
            i: int,
        |
            0 <= i < views.len() ==> #[trigger] views[i] == pieces@[i]@,
{
}

/// The model of what has to be done names the commit that has to be read.
pub proof fn law_step_model(step: UpdateStep, id: ObjectId, text: Option<String>)
    ensures
        match step {
            UpdateStep::Unchanged => step@ is Unchanged,
            UpdateStep::Cleared => step@ is Cleared,
            UpdateStep::LoadCommit(commit) => step@ == StepView::LoadCommit(commit.bytes@),
        },
        id@ == id.bytes@,
        text is None <==> text_view(text) is None,
        text matches Some(t) ==> text_view(text) == Some(t@),
{
}

/// The model of styled text holds the text and the style of each span, in order, and the style
/// of the line.
pub proof fn law_line_model(line: Line, span: Span, i: int)
    requires
        0 <= i < line.spans@.len(),
    ensures
        line@.spans.len() == line.spans@.len(),
        line@.spans[i].content == line.spans@[i].content@,
        line@.spans[i].style == line.spans@[i].style,
        line@.style == line.style,
        span@.content == span.content@,
        span@.style == span.style,
{
}

/// The model of a line of the view holds all of its fields.
pub proof fn law_details_line_model(line: DetailsLine)
    ensures
        match line {
            DetailsLine::Text { id, line: text } => line@ matches DetailsLineView::Text {
                id: i,
                line: t,
            } && i == id.0@ && t == text@,
            DetailsLine::TextToWrap { id, text } => line@ matches DetailsLineView::TextToWrap {
                id: i,
                text: t,
            } && i == id.0@ && t == text@,
            DetailsLine::RawCode { id, line_numbers, code, path, highlighted_line, bg } => {
                &&& line@ matches DetailsLineView::RawCode {
                    id: i,
                    line_numbers: l,
                    code: c,
                    path: p,
                    highlighted_line: h,
                    bg: b,
                }
                &&& i == id.0@ && c == code@ && p == path@ && b == bg
                &&& l.len() == line_numbers@.len()
                &&& forall|k: int| 0 <= k < l.len() ==> #[trigger] l[k] == line_numbers@[k]@
                &&& h is Some <==> highlighted_line is Some
                &&& highlighted_line matches Some(drawing) ==> h == Some(drawing@)
            },
            DetailsLine::EmptyLine => line@ is EmptyLine,
        },
{
}

/// The model of something to draw holds its area and what is drawn.
pub proof fn law_draw_model(draw: Draw)
    ensures
        draw@.area == draw.area,
        match draw.widget {
            Widget::Line(line) => draw@.widget == WidgetView::Line(line@),
            Widget::Text(text) => draw@.widget == WidgetView::Text(text@),
        },
{
}

/// What was written to a buffer is what it holds, line by line.
pub proof fn law_buffer_holds_what_was_written(buffer: BufferLineWriter, i: int)
    ensures
        buffer.written().len() == buffer.buf@.len(),
        0 <= i < buffer.buf@.len() ==> buffer.written()[i] == buffer.buf@[i]@,
{
}

} // verus!
