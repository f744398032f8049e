//! What is seen of a commit and of its changed files.

use super::hunks::{body, first_row, law_hunk_layout, law_hunk_row};
use super::{cell, cells, lemma_cells, lemma_cells_of_both, paint};
use crate::bytes::displayed;
use crate::digits::decimal;
use crate::git::{
    formatted_time, hex, CommitDetails, DiffHunk, Signature, TreeChange, TreeStatus, UnifiedPatch,
};
use crate::hunk::{hunk_lines, numbers_fit};
use crate::ids::path_in;
use crate::lines::DetailsLineView;
use crate::rendering::{
    boxed, change_fits, change_lines, change_paths, changes_fit, changes_lines, changes_paths,
    commit_lines, commit_paths, hunk_section, hunk_sections, nth_path, nth_paths, path_header,
    path_spans, signature_spans, status_span, ShortIdOrTreeStatus,
};
use crate::text::{plain, spans_width, text_width, LineView, SpanView, Style};
use crate::theme::Theme;
use vstd::prelude::*;

verus! {

/// A signature as it is seen.
pub open spec fn seen_signature(sig: Signature, theme: Theme) -> Seq<(char, Style)> {
    paint(displayed(sig.name@), theme.user) + paint(" <"@, plain()) + paint(
        displayed(sig.email@),
        theme.user,
    ) + paint(">"@, plain()) + paint(" ("@, plain()) + paint(
        formatted_time(sig.time.seconds, sig.time.offset),
        theme.time,
    ) + paint(")"@, plain())
}

/// A signature shows the name, the address in angle brackets and the time in round ones: name
/// and address in the style of users, the time in that of times.
pub proof fn law_signature(sig: Signature, theme: Theme)
    ensures
        cells(signature_spans(sig, theme)) == seen_signature(sig, theme),
{
    lemma_cells(signature_spans(sig, theme));
}

/// What happened to a file is told by a word of its own in a style of its own.
pub proof fn law_status(theme: Theme)
    ensures
        cell(status_span(TreeStatus::Addition, theme)) == paint("added"@, theme.addition),
        cell(status_span(TreeStatus::Deletion, theme)) == paint("deleted"@, theme.deletion),
        cell(status_span(TreeStatus::Modification, theme)) == paint(
            "modified"@,
            theme.modification,
        ),
        cell(status_span(TreeStatus::Rename, theme)) == paint("renamed"@, theme.renaming),
{
}

/// `count` times the same stroke.
pub open spec fn strokes(stroke: char, count: nat) -> Seq<char> {
    Seq::new(count, |i: int| stroke)
}

/// Spans that each hold one and the same stroke are seen as these strokes.
proof fn lemma_strokes(spans: Seq<SpanView>, stroke: char, style: Style)
    requires
        forall|i: int|
            0 <= i < spans.len() ==> (#[trigger] spans[i]).content == seq![stroke]
                && spans[i].style == style,
    ensures
        cells(spans) == paint(strokes(stroke, spans.len()), style),
    decreases spans.len(),
{
    if spans.len() > 0 {
        assert forall|i: int| 0 <= i < spans.drop_last().len() implies (
        #[trigger] spans.drop_last()[i]).content == seq![stroke] && spans.drop_last()[i].style
            == style by {
            assert(spans.drop_last()[i] == spans[i]);
        }
        lemma_strokes(spans.drop_last(), stroke, style);
    }
    assert(cells(spans) =~= paint(strokes(stroke, spans.len()), style));
}

/// A box around a text is three lines of one section: the text, with a space and an upright
/// stroke behind it, between two rules that are one stroke longer than the text has columns,
/// with a corner at the end. The rules lie in the style of borders, the text keeps its own.
pub proof fn law_box(id: Seq<char>, text: LineView, theme: Theme)
    ensures
        ({
            let lines = boxed(id, text, theme);
            let rule = strokes('─', spans_width(text.spans) + 1);
            &&& lines.len() == 3
            &&& lines[0] matches DetailsLineView::Text { id: id0, line: upper }
            &&& lines[1] matches DetailsLineView::Text { id: id1, line: middle }
            &&& lines[2] matches DetailsLineView::Text { id: id2, line: lower }
            &&& id0 == id && id1 == id && id2 == id
            &&& upper.style == theme.border && lower.style == theme.border
            &&& middle.style == text.style
            &&& cells(upper.spans) == paint(rule.push('╮'), plain())
            &&& cells(lower.spans) == paint(rule.push('╯'), plain())
            &&& cells(middle.spans) == cells(text.spans) + paint(" "@, plain()) + paint(
                "│"@,
                theme.border,
            )
        }),
{
    let lines = boxed(id, text, theme);
    let upper = lines[0]->Text_line.spans;
    let lower = lines[2]->Text_line.spans;
    let middle = lines[1]->Text_line.spans;
    let width = spans_width(text.spans);
    let rule = strokes('─', width + 1);
    reveal_strlit("─");
    reveal_strlit("╮");
    reveal_strlit("╯");
    assert("─"@ =~= seq!['─']);
    lemma_strokes(upper.drop_last(), '─', plain());
    lemma_strokes(lower.drop_last(), '─', plain());
    assert(cells(upper) =~= paint(rule.push('╮'), plain()));
    assert(cells(lower) =~= paint(rule.push('╯'), plain()));
    let rest = middle.skip(text.spans.len() as int);
    assert(middle =~= text.spans + rest);
    lemma_cells_of_both(text.spans, rest);
    lemma_cells(rest);
    assert(cells(middle) =~= cells(text.spans) + paint(" "@, plain()) + paint("│"@, theme.border));
}

/// What stands before the path of a file, as it is seen.
pub open spec fn seen_mark(mark: ShortIdOrTreeStatus, theme: Theme) -> Seq<(char, Style)> {
    match mark {
        ShortIdOrTreeStatus::ShortId(id) => paint(id@, theme.cli_id),
        ShortIdOrTreeStatus::TreeStatus(status) => match *status {
            TreeStatus::Addition => paint("added"@, theme.addition),
            TreeStatus::Deletion => paint("deleted"@, theme.deletion),
            TreeStatus::Modification => paint("modified"@, theme.modification),
            TreeStatus::Rename => paint("renamed"@, theme.renaming),
        },
    }
}

/// The word that stands before the path of a file.
pub open spec fn mark_word(mark: ShortIdOrTreeStatus) -> Seq<char> {
    match mark {
        ShortIdOrTreeStatus::ShortId(id) => id@,
        ShortIdOrTreeStatus::TreeStatus(status) => match *status {
            TreeStatus::Addition => "added"@,
            TreeStatus::Deletion => "deleted"@,
            TreeStatus::Modification => "modified"@,
            TreeStatus::Rename => "renamed"@,
        },
    }
}

/// The path of a file is written in a box with an empty line under it, all of one section:
/// behind a space, and behind what happened to the file, if that is told.
pub proof fn law_path_header(
    id: Seq<char>,
    path: Seq<u8>,
    mark: Option<ShortIdOrTreeStatus>,
    theme: Theme,
)
    ensures
        ({
            let lines = path_header(id, path, mark, theme);
            let text = match mark {
                Some(mark) => paint(" "@, plain()) + seen_mark(mark, theme) + paint(" "@, plain()),
                None => paint(" "@, plain()),
            } + paint(displayed(path), plain());
            let width = match mark {
                Some(mark) => text_width(" "@) + text_width(mark_word(mark))
                    + text_width(" "@),
                None => text_width(" "@),
            } + text_width(displayed(path));
            let rule = strokes('─', width + 1);
            &&& lines.len() == 4
            &&& lines[0] matches DetailsLineView::Text { id: id0, line: upper }
            &&& lines[1] matches DetailsLineView::Text { id: id1, line: middle }
            &&& lines[2] matches DetailsLineView::Text { id: id2, line: lower }
            &&& lines[3] matches DetailsLineView::Text { id: id3, line: below }
            &&& id0 == id && id1 == id && id2 == id && id3 == id
            &&& upper.style == theme.border && lower.style == theme.border
            &&& middle.style == plain() && below.style == plain()
            &&& cells(upper.spans) == paint(rule.push('╮'), plain())
            &&& cells(lower.spans) == paint(rule.push('╯'), plain())
            &&& cells(middle.spans) == text + paint(" "@, plain()) + paint("│"@, theme.border)
            &&& cells(below.spans).len() == 0
        }),
{
    let spans = path_spans(path, mark, theme);
    let lines = path_header(id, path, mark, theme);
    law_box(id, LineView { spans, style: plain() }, theme);
    law_status(theme);
    lemma_cells(spans);
    lemma_cells(lines[3]->Text_line.spans);
    reveal_with_fuel(spans_width, 5);
}

/// The number of rows of source code among `lines`.
pub open spec fn code_rows(lines: Seq<DetailsLineView>) -> nat
    decreases lines.len(),
{
    if lines.len() == 0 {
        0
    } else {
        code_rows(lines.drop_last()) + if lines.last() is RawCode {
            1nat
        } else {
            0nat
        }
    }
}

/// Rows are counted on both sides.
proof fn lemma_code_rows_of_both(a: Seq<DetailsLineView>, b: Seq<DetailsLineView>)
    ensures
        code_rows(a + b) == code_rows(a) + code_rows(b),
    decreases b.len(),
{
    if b.len() == 0 {
        assert(a + b =~= a);
    } else {
        lemma_code_rows_of_both(a, b.drop_last());
        assert((a + b).drop_last() =~= a + b.drop_last());
    }
}

/// Lines of which all are rows of source code, or none, count as that.
proof fn lemma_code_rows_alike(lines: Seq<DetailsLineView>, code: bool)
    requires
        forall|i: int| 0 <= i < lines.len() ==> (#[trigger] lines[i] is RawCode <==> code),
    ensures
        code_rows(lines) == if code {
            lines.len()
        } else {
            0
        },
    decreases lines.len(),
{
    if lines.len() > 0 {
        assert forall|i: int| 0 <= i < lines.drop_last().len() implies (
        #[trigger] lines.drop_last()[i] is RawCode <==> code) by {
            assert(lines.drop_last()[i] == lines[i]);
        }
        lemma_code_rows_alike(lines.drop_last(), code);
    }
}

/// A hunk takes as many rows of source code as it has lines behind its header.
proof fn lemma_code_rows_of_hunk(
    id: Seq<char>,
    path: Seq<u8>,
    hunk: DiffHunk,
    converted: bool,
    theme: Theme,
)
    ensures
        code_rows(hunk_lines(id, path, hunk, converted, theme)) == body(hunk).len(),
{
    let lines = hunk_lines(id, path, hunk, converted, theme);
    let at = first_row(hunk, converted);
    law_hunk_layout(id, path, hunk, converted, theme);
    let front = lines.take(at);
    let rows = lines.skip(at);
    assert(lines =~= front + rows);
    lemma_code_rows_of_both(front, rows);
    assert forall|i: int| 0 <= i < front.len() implies !(#[trigger] front[i] is RawCode) by {
        assert(front[i] == lines[i]);
    }
    lemma_code_rows_alike(front, false);
    assert forall|i: int| 0 <= i < rows.len() implies #[trigger] rows[i] is RawCode by {
        law_hunk_row(id, path, hunk, converted, theme, i);
        assert(rows[i] == lines[at + i]);
    }
    lemma_code_rows_alike(rows, true);
}

/// The lines behind the headers of the first `n` hunks, counted together.
pub open spec fn body_lines(hunks: Seq<DiffHunk>, n: int) -> nat
    decreases n,
{
    if n <= 0 {
        0
    } else {
        body_lines(hunks, n - 1) + body(hunks[n - 1]).len()
    }
}

/// Where the hunk `j` of a file begins among the lines of the file: behind the boxed path, and
/// behind the hunks before it, each with an empty line under it.
pub open spec fn hunk_start(
    scope: Seq<char>,
    path: Seq<u8>,
    hunks: Seq<DiffHunk>,
    converted: bool,
    theme: Theme,
    j: int,
) -> int
    decreases j,
{
    if j <= 0 {
        4
    } else {
        hunk_start(scope, path, hunks, converted, theme, j - 1) + hunk_lines(
            path_in(path_in(scope, "hunks"@), decimal((j - 1) as nat)),
            path,
            hunks[j - 1],
            converted,
            theme,
        ).len() + 1
    }
}

/// Sections are counted and placed one after the other.
proof fn lemma_sections(
    scope: Seq<char>,
    change: TreeChange,
    hunks: Seq<DiffHunk>,
    converted: bool,
    theme: Theme,
    n: nat,
)
    requires
        n <= hunks.len(),
    ensures
        ({
            let inner = path_in(scope, "hunks"@);
            let lines = hunk_sections(inner, change, hunks, converted, theme, n);
            &&& n == 0 ==> lines.len() == 0
            &&& n > 0 ==> lines.len() == hunk_start(
                scope,
                change.path_bytes@,
                hunks,
                converted,
                theme,
                n as int,
            )
            &&& code_rows(lines) == body_lines(hunks, n as int)
        }),
    decreases n,
{
    if n > 0 {
        let j = (n - 1) as nat;
        let inner = path_in(scope, "hunks"@);
        let id = nth_path(inner, j);
        lemma_sections(scope, change, hunks, converted, theme, j);
        let before = hunk_sections(inner, change, hunks, converted, theme, j);
        let section = hunk_section(inner, change, hunks, converted, theme, j);
        let shown = hunk_lines(id, change.path_bytes@, hunks[j as int], converted, theme);
        let header = path_header(
            id,
            change.path@,
            Some(ShortIdOrTreeStatus::TreeStatus(&change.status)),
            theme,
        );
        law_path_header(
            id,
            change.path@,
            Some(ShortIdOrTreeStatus::TreeStatus(&change.status)),
            theme,
        );
        let end = seq![DetailsLineView::EmptyLine];
        lemma_code_rows_of_both(before, section);
        lemma_code_rows_alike(end, false);
        lemma_code_rows_of_hunk(id, change.path_bytes@, hunks[j as int], converted, theme);
        if j == 0 {
            assert(section =~= header + shown + end);
            lemma_code_rows_of_both(header + shown, end);
            lemma_code_rows_of_both(header, shown);
            assert forall|i: int| 0 <= i < header.len() implies !(#[trigger] header[i]
                is RawCode) by {
                assert(i == 0 || i == 1 || i == 2 || i == 3);
            }
            lemma_code_rows_alike(header, false);
            reveal_with_fuel(hunk_start, 2);
        } else {
            assert(section =~= shown + end);
            lemma_code_rows_of_both(shown, end);
        }
    }
}

/// More sections begin with the same lines as fewer.
proof fn lemma_sections_grow(
    scope: Seq<char>,
    change: TreeChange,
    hunks: Seq<DiffHunk>,
    converted: bool,
    theme: Theme,
    m: nat,
    n: nat,
)
    requires
        m <= n,
    ensures
        ({
            let fewer = hunk_sections(scope, change, hunks, converted, theme, m);
            let more = hunk_sections(scope, change, hunks, converted, theme, n);
            fewer.len() <= more.len() && more.take(fewer.len() as int) == fewer
        }),
    decreases n,
{
    let fewer = hunk_sections(scope, change, hunks, converted, theme, m);
    let more = hunk_sections(scope, change, hunks, converted, theme, n);
    if m < n {
        lemma_sections_grow(scope, change, hunks, converted, theme, m, (n - 1) as nat);
        let last = hunk_sections(scope, change, hunks, converted, theme, (n - 1) as nat);
        assert(more.take(fewer.len() as int) =~= last.take(fewer.len() as int));
    } else {
        assert(more.take(fewer.len() as int) =~= fewer);
    }
}

/// What stands in the middle of a beginning stands there in the whole.
proof fn lemma_middle(
    lines: Seq<DetailsLineView>,
    front: Seq<DetailsLineView>,
    shown: Seq<DetailsLineView>,
    end: DetailsLineView,
)
    requires
        front.len() + shown.len() + 1 <= lines.len(),
        lines.take((front.len() + shown.len() + 1) as int) == front + shown + seq![end],
    ensures
        lines.take(front.len() as int) == front,
        lines.subrange(front.len() as int, (front.len() + shown.len()) as int) == shown,
        lines[(front.len() + shown.len()) as int] == end,
{
    let upto = front + shown + seq![end];
    assert forall|i: int| 0 <= i < upto.len() implies #[trigger] lines[i] == upto[i] by {
        assert(lines.take(upto.len() as int)[i] == lines[i]);
    }
    assert(lines.take(front.len() as int) =~= front);
    assert(lines.subrange(front.len() as int, (front.len() + shown.len()) as int) =~= shown);
}

/// The hunk `j` stands where it is said to stand.
proof fn lemma_hunk_is_placed(
    scope: Seq<char>,
    change: TreeChange,
    hunks: Seq<DiffHunk>,
    converted: bool,
    theme: Theme,
    j: int,
)
    requires
        0 <= j < hunks.len(),
    ensures
        ({
            let inner = path_in(scope, "hunks"@);
            let path = change.path_bytes@;
            let lines = hunk_sections(inner, change, hunks, converted, theme, hunks.len());
            let shown = hunk_lines(nth_path(inner, j as nat), path, hunks[j], converted, theme);
            let at = hunk_start(scope, path, hunks, converted, theme, j);
            &&& 4 <= at
            &&& at + shown.len() < lines.len()
            &&& lines.subrange(at, at + shown.len()) == shown
            &&& lines[at + shown.len()] is EmptyLine
            &&& j == 0 ==> lines.take(4) == path_header(
                nth_path(inner, 0),
                change.path@,
                Some(ShortIdOrTreeStatus::TreeStatus(&change.status)),
                theme,
            )
        }),
{
    let inner = path_in(scope, "hunks"@);
    let path = change.path_bytes@;
    let mark = Some(ShortIdOrTreeStatus::TreeStatus(&change.status));
    let lines = hunk_sections(inner, change, hunks, converted, theme, hunks.len());
    let upto = hunk_sections(inner, change, hunks, converted, theme, (j + 1) as nat);
    let before = hunk_sections(inner, change, hunks, converted, theme, j as nat);
    let section = hunk_section(inner, change, hunks, converted, theme, j as nat);
    let shown = hunk_lines(nth_path(inner, j as nat), path, hunks[j], converted, theme);
    let header = path_header(nth_path(inner, 0), change.path@, mark, theme);
    let end = DetailsLineView::EmptyLine;
    law_path_header(nth_path(inner, 0), change.path@, mark, theme);
    lemma_sections(scope, change, hunks, converted, theme, j as nat);
    lemma_sections_grow(inner, change, hunks, converted, theme, (j + 1) as nat, hunks.len());
    assert(upto == before + section);
    if j == 0 {
        assert(upto =~= header + shown + seq![end]);
        lemma_middle(lines, header, shown, end);
    } else {
        lemma_start_grows(scope, path, hunks, converted, theme, j);
        assert(upto =~= before + shown + seq![end]);
        lemma_middle(lines, before, shown, end);
    }
}

/// No hunk begins before the end of the boxed path.
proof fn lemma_start_grows(
    scope: Seq<char>,
    path: Seq<u8>,
    hunks: Seq<DiffHunk>,
    converted: bool,
    theme: Theme,
    j: int,
)
    ensures
        4 <= hunk_start(scope, path, hunks, converted, theme, j),
    decreases j,
{
    if j > 0 {
        lemma_start_grows(scope, path, hunks, converted, theme, j - 1);
    }
}

/// Every hunk of a changed file is shown, in order and under an identifier of its own, with an
/// empty line behind it; the boxed path stands above the first one. Nothing else is written for
/// the file, and it takes as many rows of source code as its hunks have lines together.
pub proof fn law_every_hunk_is_shown(
    scope: Seq<char>,
    change: TreeChange,
    hunks: Seq<DiffHunk>,
    converted: bool,
    theme: Theme,
    j: int,
)
    requires
        change.patch matches Ok(Some(UnifiedPatch::Patch {
            hunks: h,
            is_result_of_binary_to_text_conversion: c,
            ..
        })) && h@ == hunks && c == converted,
        0 <= j < hunks.len(),
    ensures
        ({
            let lines = change_lines(scope, change, theme);
            let path = change.path_bytes@;
            let id = path_in(path_in(scope, "hunks"@), decimal(j as nat));
            let shown = hunk_lines(id, path, hunks[j], converted, theme);
            let at = hunk_start(scope, path, hunks, converted, theme, j);
            &&& lines.len() == hunk_start(
                scope,
                path,
                hunks,
                converted,
                theme,
                hunks.len() as int,
            )
            &&& 4 <= at
            &&& at + shown.len() < lines.len()
            &&& lines.subrange(at, at + shown.len()) == shown
            &&& lines[at + shown.len()] is EmptyLine
            &&& lines.take(4) == path_header(
                path_in(path_in(scope, "hunks"@), decimal(0)),
                change.path@,
                Some(ShortIdOrTreeStatus::TreeStatus(&change.status)),
                theme,
            )
            &&& code_rows(lines) == body_lines(hunks, hunks.len() as int)
        }),
{
    lemma_sections(scope, change, hunks, converted, theme, hunks.len());
    lemma_hunk_is_placed(scope, change, hunks, converted, theme, 0);
    lemma_hunk_is_placed(scope, change, hunks, converted, theme, j);
}

/// Every line behind the header of every hunk of a changed file has a row of source code of its
/// own, in order, with the identifier of the hunk and the path of the file.
pub proof fn law_every_line_is_shown(
    scope: Seq<char>,
    change: TreeChange,
    hunks: Seq<DiffHunk>,
    converted: bool,
    theme: Theme,
    j: int,
    k: int,
)
    requires
        change.patch matches Ok(Some(UnifiedPatch::Patch {
            hunks: h,
            is_result_of_binary_to_text_conversion: c,
            ..
        })) && h@ == hunks && c == converted,
        0 <= j < hunks.len(),
        0 <= k < body(hunks[j]).len(),
    ensures
        ({
            let lines = change_lines(scope, change, theme);
            let at = hunk_start(scope, change.path_bytes@, hunks, converted, theme, j)
                + first_row(hunks[j], converted) + k;
            &&& 0 <= at < lines.len()
            &&& lines[at] matches DetailsLineView::RawCode { id, path, .. }
            &&& id == path_in(path_in(scope, "hunks"@), decimal(j as nat))
            &&& path == change.path_bytes@
        }),
{
    let lines = change_lines(scope, change, theme);
    let id = path_in(path_in(scope, "hunks"@), decimal(j as nat));
    let path = change.path_bytes@;
    let shown = hunk_lines(id, path, hunks[j], converted, theme);
    let at = hunk_start(scope, path, hunks, converted, theme, j);
    law_every_hunk_is_shown(scope, change, hunks, converted, theme, j);
    law_hunk_layout(id, path, hunks[j], converted, theme);
    law_hunk_row(id, path, hunks[j], converted, theme, k);
    assert(lines.subrange(at, at + shown.len())[first_row(hunks[j], converted) + k]
        == shown[first_row(hunks[j], converted) + k]);
}

/// A changed file without hunks to show takes no line; a binary file and one that is too large
/// show their boxed path and say why there is no diff.
pub proof fn law_files_without_hunks(scope: Seq<char>, change: TreeChange, theme: Theme)
    ensures
        ({
            let lines = change_lines(scope, change, theme);
            let mark = Some(ShortIdOrTreeStatus::TreeStatus(&change.status));
            match change.patch {
                Ok(Some(UnifiedPatch::Patch { hunks, .. })) => hunks@.len() == 0 ==> lines.len()
                    == 0,
                Ok(Some(UnifiedPatch::Binary)) => {
                    let id = path_in(scope, "binary"@);
                    &&& lines.len() == 6
                    &&& lines.take(4) == path_header(id, change.path@, mark, theme)
                    &&& lines[4] matches DetailsLineView::Text { id: i, line }
                    &&& i == id && line.style == plain()
                    &&& cells(line.spans) == paint("Binary file - no diff available"@, plain())
                    &&& lines[5] is EmptyLine
                },
                Ok(Some(UnifiedPatch::TooLarge { size_in_bytes })) => {
                    let id = path_in(scope, "too_large"@);
                    &&& lines.len() == 6
                    &&& lines.take(4) == path_header(id, change.path@, mark, theme)
                    &&& lines[4] matches DetailsLineView::Text { id: i, line }
                    &&& i == id && line.style == plain()
                    &&& cells(line.spans) == paint("File too large ("@, plain()) + paint(
                        decimal(size_in_bytes as nat),
                        plain(),
                    ) + paint(" bytes) - no diff available"@, plain())
                    &&& lines[5] is EmptyLine
                },
                _ => lines.len() == 0,
            }
        }),
{
    let lines = change_lines(scope, change, theme);
    let mark = Some(ShortIdOrTreeStatus::TreeStatus(&change.status));
    match change.patch {
        Ok(Some(UnifiedPatch::Binary)) => {
            let id = path_in(scope, "binary"@);
            law_path_header(id, change.path@, mark, theme);
            assert(lines.take(4) =~= path_header(id, change.path@, mark, theme));
            lemma_cells(lines[4]->Text_line.spans);
        },
        Ok(Some(UnifiedPatch::TooLarge { size_in_bytes })) => {
            let id = path_in(scope, "too_large"@);
            law_path_header(id, change.path@, mark, theme);
            assert(lines.take(4) =~= path_header(id, change.path@, mark, theme));
            lemma_cells(lines[4]->Text_line.spans);
            assert(cells(lines[4]->Text_line.spans) =~= paint("File too large ("@, plain())
                + paint(decimal(size_in_bytes as nat), plain()) + paint(
                " bytes) - no diff available"@,
                plain(),
            ));
        },
        _ => {},
    }
}

/// Where the changed file `i` begins among the lines of all of them.
pub open spec fn change_start(
    scope: Seq<char>,
    changes: Seq<TreeChange>,
    theme: Theme,
    i: int,
) -> int
    decreases i,
{
    if i <= 0 {
        0
    } else {
        change_start(scope, changes, theme, i - 1) + change_lines(
            path_in(scope, decimal((i - 1) as nat)),
            changes[i - 1],
            theme,
        ).len()
    }
}

/// More files begin with the same lines as fewer.
proof fn lemma_changes_grow(
    scope: Seq<char>,
    changes: Seq<TreeChange>,
    theme: Theme,
    m: nat,
    n: nat,
)
    requires
        m <= n,
    ensures
        ({
            let fewer = changes_lines(scope, changes, theme, m);
            let more = changes_lines(scope, changes, theme, n);
            &&& fewer.len() <= more.len()
            &&& more.take(fewer.len() as int) == fewer
            &&& more.len() == change_start(scope, changes, theme, n as int)
            &&& fewer.len() == change_start(scope, changes, theme, m as int)
        }),
    decreases n,
{
    let fewer = changes_lines(scope, changes, theme, m);
    let more = changes_lines(scope, changes, theme, n);
    if m < n {
        lemma_changes_grow(scope, changes, theme, m, (n - 1) as nat);
        let last = changes_lines(scope, changes, theme, (n - 1) as nat);
        assert(more.take(fewer.len() as int) =~= last.take(fewer.len() as int));
    } else {
        assert(more.take(fewer.len() as int) =~= fewer);
        if n > 0 {
            lemma_changes_grow(scope, changes, theme, (n - 1) as nat, (n - 1) as nat);
        }
    }
}

/// Every changed file is shown, in order and in a scope of its own, and nothing else.
pub proof fn law_every_file_is_shown(
    scope: Seq<char>,
    changes: Seq<TreeChange>,
    theme: Theme,
    i: int,
)
    requires
        0 <= i < changes.len(),
    ensures
        ({
            let lines = changes_lines(scope, changes, theme, changes.len());
            let shown = change_lines(path_in(scope, decimal(i as nat)), changes[i], theme);
            let at = change_start(scope, changes, theme, i);
            &&& lines.len() == change_start(scope, changes, theme, changes.len() as int)
            &&& 0 <= at
            &&& at + shown.len() <= lines.len()
            &&& lines.subrange(at, at + shown.len()) == shown
        }),
{
    let lines = changes_lines(scope, changes, theme, changes.len());
    let shown = change_lines(path_in(scope, decimal(i as nat)), changes[i], theme);
    let at = change_start(scope, changes, theme, i);
    lemma_changes_grow(scope, changes, theme, (i + 1) as nat, changes.len());
    lemma_changes_grow(scope, changes, theme, i as nat, changes.len());
    let upto = changes_lines(scope, changes, theme, (i + 1) as nat);
    assert forall|k: int| 0 <= k < upto.len() implies #[trigger] lines[k] == upto[k] by {
        assert(lines.take(upto.len() as int)[k] == lines[k]);
    }
    assert(upto == changes_lines(scope, changes, theme, i as nat) + change_lines(
        nth_path(scope, i as nat),
        changes[i],
        theme,
    ));
    assert(lines.subrange(at, at + shown.len()) =~= shown);
}

/// The number of lines that the head of a commit and its message take.
pub open spec fn head_len(details: CommitDetails) -> int {
    if displayed(details.message@).len() == 0 {
        4
    } else {
        6
    }
}

/// A commit shows its digest, its author and its committer, each behind its label; then an
/// empty line; then its message and another empty line, if it has a message; then its changed
/// files. The line of the author tells the author alone, that of the committer the committer.
pub proof fn law_commit(scope: Seq<char>, commit: Seq<u8>, details: CommitDetails, theme: Theme)
    ensures
        ({
            let lines = commit_lines(scope, commit, details, theme);
            let inner = path_in(scope, hex(commit));
            let header = path_in(inner, "header"@);
            let message = displayed(details.message@);
            &&& lines.len() >= head_len(details)
            &&& lines[0] matches DetailsLineView::Text { id: id0, line: name }
            &&& lines[1] matches DetailsLineView::Text { id: id1, line: author }
            &&& lines[2] matches DetailsLineView::Text { id: id2, line: committer }
            &&& lines[3] is EmptyLine
            &&& id0 == header && id1 == header && id2 == header
            &&& name.style == plain() && author.style == plain() && committer.style == plain()
            &&& cells(name.spans) == paint("Commit ID: "@, plain()) + paint(
                hex(commit),
                theme.commit_id,
            )
            &&& cells(author.spans) == paint("Author:    "@, plain()) + seen_signature(
                details.author,
                theme,
            )
            &&& cells(committer.spans) == paint("Committer: "@, plain()) + seen_signature(
                details.committer,
                theme,
            )
            &&& message.len() > 0 ==> lines[4] == (DetailsLineView::TextToWrap {
                id: path_in(inner, "message"@),
                text: message,
            }) && lines[5] is EmptyLine
            &&& lines.skip(head_len(details)) == changes_lines(
                path_in(inner, "tree_changes"@),
                details.changes@,
                theme,
                details.changes@.len(),
            )
        }),
{
    let lines = commit_lines(scope, commit, details, theme);
    let inner = path_in(scope, hex(commit));
    let name = lines[0]->Text_line.spans;
    let author = lines[1]->Text_line.spans;
    let committer = lines[2]->Text_line.spans;
    lemma_cells(name);
    law_signature(details.author, theme);
    law_signature(details.committer, theme);
    let of_author = signature_spans(details.author, theme);
    let of_committer = signature_spans(details.committer, theme);
    assert(author =~= author.take(1) + of_author);
    assert(committer =~= committer.take(1) + of_committer);
    lemma_cells_of_both(author.take(1), of_author);
    lemma_cells_of_both(committer.take(1), of_committer);
    lemma_cells(author.take(1));
    lemma_cells(committer.take(1));
    assert(lines.skip(head_len(details)) =~= changes_lines(
        path_in(inner, "tree_changes"@),
        details.changes@,
        theme,
        details.changes@.len(),
    ));
}

/// What a commit shows of its author does not depend on its committer, nor the other way round,
/// and neither depends on its message or its changes.
pub proof fn law_people_are_shown_apart(
    scope: Seq<char>,
    commit: Seq<u8>,
    a: CommitDetails,
    b: CommitDetails,
    theme: Theme,
)
    ensures
        ({
            let first = commit_lines(scope, commit, a, theme);
            let second = commit_lines(scope, commit, b, theme);
            &&& first[0] == second[0]
            &&& a.author == b.author ==> first[1] == second[1]
            &&& a.committer == b.committer ==> first[2] == second[2]
        }),
{
}

/// The identifiers that are handed out for hunks are those of each of them.
proof fn lemma_nth_paths(scope: Seq<char>, n: nat, p: Seq<char>)
    ensures
        nth_paths(scope, n).contains(p) <==> exists|j: nat|
            j < n && p == path_in(scope, #[trigger] decimal(j)),
    decreases n,
{
    if n > 0 {
        lemma_nth_paths(scope, (n - 1) as nat, p);
        if p == nth_path(scope, (n - 1) as nat) {
            assert(p == path_in(scope, decimal((n - 1) as nat)));
        }
    }
}

/// True if `p` is handed out for a changed file with the scope `scope`, besides that scope.
pub open spec fn path_of_change(scope: Seq<char>, change: TreeChange, p: Seq<char>) -> bool {
    match change.patch {
        Ok(Some(UnifiedPatch::Patch { hunks, .. })) => p == path_in(scope, "hunks"@) || exists|
            j: nat,
        |
            j < hunks@.len() && p == path_in(path_in(scope, "hunks"@), #[trigger] decimal(j)),
        Ok(Some(UnifiedPatch::Binary)) => p == path_in(scope, "binary"@),
        Ok(Some(UnifiedPatch::TooLarge { .. })) => p == path_in(scope, "too_large"@),
        _ => false,
    }
}

/// The identifiers of changed files are those of each of them.
proof fn lemma_changes_paths(scope: Seq<char>, changes: Seq<TreeChange>, n: nat, p: Seq<char>)
    ensures
        changes_paths(scope, changes, n).contains(p) <==> exists|i: nat|
            i < n && (p == path_in(scope, #[trigger] decimal(i)) || path_of_change(
                path_in(scope, decimal(i)),
                changes[i as int],
                p,
            )),
    decreases n,
{
    if n > 0 {
        let i = (n - 1) as nat;
        let inner = path_in(scope, decimal(i));
        lemma_changes_paths(scope, changes, i, p);
        assert(change_paths(inner, changes[i as int]).contains(p) <==> path_of_change(
            inner,
            changes[i as int],
            p,
        )) by {
            if let Ok(Some(UnifiedPatch::Patch { hunks, .. })) = changes[i as int].patch {
                lemma_nth_paths(path_in(inner, "hunks"@), hunks@.len(), p);
            }
        }
    }
}

/// The identifiers that are handed out for a commit: those of the commit, its head, its message
/// and its files, that of each file, whether or not it is shown, and those of its sections. No
/// others are.
pub proof fn law_commit_paths(
    scope: Seq<char>,
    commit: Seq<u8>,
    details: CommitDetails,
    p: Seq<char>,
)
    ensures
        ({
            let inner = path_in(scope, hex(commit));
            let files = path_in(inner, "tree_changes"@);
            commit_paths(scope, commit, details).contains(p) <==> p == inner || p == path_in(
                inner,
                "header"@,
            ) || p == path_in(inner, "message"@) || p == files || exists|i: nat|
                i < details.changes@.len() && (p == path_in(files, #[trigger] decimal(i))
                    || path_of_change(
                    path_in(files, decimal(i)),
                    details.changes@[i as int],
                    p,
                ))
        }),
{
    let files = path_in(path_in(scope, hex(commit)), "tree_changes"@);
    lemma_changes_paths(files, details.changes@, details.changes@.len(), p);
}

/// The line numbers of a commit fit if those of every hunk of every changed file do, and only
/// then.
pub proof fn law_changes_fit(changes: Seq<TreeChange>)
    ensures
        changes_fit(changes) <==> forall|i: int, j: int|
            0 <= i < changes.len() && 0 <= j ==> (#[trigger] hunk_of(changes[i], j) matches Some(
                hunk,
            ) ==> numbers_fit(hunk)),
{
    if changes_fit(changes) {
        assert forall|i: int, j: int| 0 <= i < changes.len() && 0 <= j implies (
        #[trigger] hunk_of(changes[i], j) matches Some(hunk) ==> numbers_fit(
            hunk,
        )) by {
            assert(change_fits(changes[i]));
        }
    } else {
        let i = choose|i: int|
            0 <= i < changes.len() && !change_fits(#[trigger] changes[i]);
        if let Ok(Some(UnifiedPatch::Patch { hunks, .. })) = changes[i].patch {
            let j = choose|j: int|
                0 <= j < hunks@.len() && !numbers_fit(#[trigger] hunks@[j]);
            assert(hunk_of(changes[i], j) == Some(hunks@[j]));
        }
    }
}

/// The hunk `j` of a changed file, if it has one.
pub open spec fn hunk_of(change: TreeChange, j: int) -> Option<DiffHunk> {
    match change.patch {
        Ok(Some(UnifiedPatch::Patch { hunks, .. })) => if 0 <= j < hunks@.len() {
            Some(hunks@[j])
        } else {
            None
        },
        _ => None,
    }
}

} // verus!
