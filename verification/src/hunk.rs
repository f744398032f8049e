//! A hunk of a diff as numbered lines of source code.

use crate::bytes::{byte_lines, lines, lossy, lossy_text, slice_views};
use crate::digits::{
    decimal, decimal_text, digit_count, law_decimal_is_digits, law_decimal_length,
    law_digit_count_monotonic, num_digits,
};
use crate::git::DiffHunk;
use crate::ids::SectionId;
use crate::lines::{DetailsLineView, LineWriter};
use crate::text::{
    line_of, narrow, raw, spaces, spaces_text, span_views, spans_text,
    spans_width, str_width, styled, text_width, Color, Line, LineView, Span, SpanView,
};
use crate::theme::Theme;
use std::sync::Arc;
use vstd::prelude::*;
use vstd::slice::slice_subrange;
use vstd::utf8::{decode_utf8_encode_utf8, encode_utf8, valid_utf8};

verus! {

/// The byte before a line that only the new file has.
pub const PLUS: u8 = 43;

/// The byte before a line that only the old file has.
pub const MINUS: u8 = 45;

/// The byte before a line that both files have.
pub const SPACE: u8 = 32;

/// True of a line that only the new file has.
pub open spec fn is_added(line: Seq<u8>) -> bool {
    line.len() > 0 && line[0] == PLUS
}

/// True of a line that only the old file has.
pub open spec fn is_removed(line: Seq<u8>) -> bool {
    line.len() > 0 && line[0] == MINUS
}

/// The content of a line that both files have. The space before it may be missing.
pub open spec fn context_content(line: Seq<u8>) -> Seq<u8> {
    if line.len() > 0 && line[0] == SPACE {
        line.skip(1)
    } else {
        line
    }
}

/// The lines of a hunk after its header.
pub open spec fn hunk_body(hunk: DiffHunk) -> Seq<Seq<u8>> {
    let all = byte_lines(hunk.diff@);
    if all.len() == 0 {
        all
    } else {
        all.drop_first()
    }
}

/// How many of the first `k` lines the old file has.
pub open spec fn old_count(body: Seq<Seq<u8>>, k: nat) -> nat
    decreases k,
{
    if k == 0 {
        0
    } else {
        old_count(body, (k - 1) as nat) + if is_added(body[k - 1]) {
            0nat
        } else {
            1nat
        }
    }
}

/// How many of the first `k` lines the new file has.
pub open spec fn new_count(body: Seq<Seq<u8>>, k: nat) -> nat
    decreases k,
{
    if k == 0 {
        0
    } else {
        new_count(body, (k - 1) as nat) + if is_removed(body[k - 1]) {
            0nat
        } else {
            1nat
        }
    }
}

/// The number that the line `k` of the body has, or would have, in the old file.
pub open spec fn old_number(hunk: DiffHunk, k: nat) -> nat {
    hunk.old_start as nat + old_count(hunk_body(hunk), k)
}

/// The number that the line `k` of the body has, or would have, in the new file.
pub open spec fn new_number(hunk: DiffHunk, k: nat) -> nat {
    hunk.new_start as nat + new_count(hunk_body(hunk), k)
}

/// True if the line numbers of the hunk, and those just behind it, fit in 32 bits.
pub open spec fn numbers_fit(hunk: DiffHunk) -> bool {
    &&& old_number(hunk, hunk_body(hunk).len()) <= u32::MAX
    &&& new_number(hunk, hunk_body(hunk).len()) <= u32::MAX
}

/// The columns for the line numbers of the old file: as many as the number behind its last
/// line has digits.
pub open spec fn old_width(hunk: DiffHunk) -> nat {
    digit_count(old_number(hunk, hunk_body(hunk).len()))
}

/// The columns for the line numbers of the new file.
pub open spec fn new_width(hunk: DiffHunk) -> nat {
    digit_count(new_number(hunk, hunk_body(hunk).len()))
}

/// The spaces that bring the number `n` to `width` columns.
pub open spec fn padding(width: nat, n: nat) -> Seq<char> {
    spaces((width - digit_count(n)) as nat)
}

/// The line numbers in front of a line of a hunk, and the sign of the line.
pub open spec fn gutter(
    line: Seq<u8>,
    old: nat,
    new: nat,
    old_width: nat,
    new_width: nat,
    theme: Theme,
) -> Seq<SpanView> {
    if is_added(line) {
        seq![
            raw(spaces(old_width)),
            styled(" ┊ "@, theme.border),
            raw(padding(new_width, new)),
            styled(decimal(new), theme.addition),
            styled(" │ "@, theme.border),
            styled("+"@, theme.addition_rich),
        ]
    } else if is_removed(line) {
        seq![
            raw(padding(old_width, old)),
            styled(decimal(old), theme.deletion),
            styled(" ┊ "@, theme.border),
            raw(spaces(new_width)),
            styled(" │ "@, theme.border),
            styled("-"@, theme.deletion_rich),
        ]
    } else {
        seq![
            raw(padding(old_width, old)),
            styled(decimal(old), theme.hint),
            styled(" ┊ "@, theme.border),
            raw(padding(new_width, new)),
            styled(decimal(new), theme.hint),
            styled(" │  "@, theme.border),
        ]
    }
}

/// The source code of a line of a hunk.
pub open spec fn code_of(line: Seq<u8>) -> Seq<char> {
    if is_added(line) || is_removed(line) {
        lossy(line.skip(1))
    } else {
        lossy(context_content(line))
    }
}

/// The background of a line of a hunk.
pub open spec fn background_of(line: Seq<u8>, theme: Theme) -> Option<Color> {
    if is_added(line) {
        theme.addition_rich.bg
    } else if is_removed(line) {
        theme.deletion_rich.bg
    } else {
        None
    }
}

/// What stands in front of the line `k` of the body of a hunk.
pub open spec fn row_gutter(hunk: DiffHunk, theme: Theme, k: nat) -> Seq<SpanView> {
    gutter(
        hunk_body(hunk)[k as int],
        old_number(hunk, k),
        new_number(hunk, k),
        old_width(hunk),
        new_width(hunk),
        theme,
    )
}

/// The columns in front of every line of a hunk.
pub open spec fn gutter_columns(hunk: DiffHunk) -> nat {
    old_width(hunk) + new_width(hunk) + 7
}

/// True if what stands in front of the first `n` lines of a hunk takes one and the same number
/// of columns.
pub open spec fn gutters_aligned(hunk: DiffHunk, theme: Theme, n: nat) -> bool {
    forall|k: nat|
        k < n ==> spans_width(#[trigger] row_gutter(hunk, theme, k)) == gutter_columns(hunk)
}

/// True if every span is narrow.
pub open spec fn all_narrow(spans: Seq<SpanView>) -> bool {
    forall|i: int| 0 <= i < spans.len() ==> narrow((#[trigger] spans[i]).content)
}

/// True if every character of every span takes one column.
pub open spec fn one_column_each(spans: Seq<SpanView>) -> bool {
    forall|i: int|
        0 <= i < spans.len() ==> text_width((#[trigger] spans[i]).content)
            == spans[i].content.len()
}

/// The line `k` of the body of a hunk as it is shown.
pub open spec fn hunk_row(
    id: Seq<char>,
    path: Seq<u8>,
    hunk: DiffHunk,
    theme: Theme,
    k: nat,
) -> DetailsLineView {
    let line = hunk_body(hunk)[k as int];
    DetailsLineView::RawCode {
        id,
        line_numbers: row_gutter(hunk, theme, k),
        code: code_of(line),
        path,
        highlighted_line: None,
        bg: background_of(line, theme),
    }
}

/// The body of a hunk as it is shown.
pub open spec fn hunk_rows(
    id: Seq<char>,
    path: Seq<u8>,
    hunk: DiffHunk,
    theme: Theme,
) -> Seq<DetailsLineView> {
    Seq::new(hunk_body(hunk).len(), |k: int| hunk_row(id, path, hunk, theme, k as nat))
}

/// A horizontal rule of `width` columns.
pub open spec fn rule(width: nat) -> Seq<SpanView> {
    Seq::new(width, |i: int| raw("─"@))
}

/// The header of a hunk, underlined, if the diff holds one.
pub open spec fn hunk_header(id: Seq<char>, hunk: DiffHunk, theme: Theme) -> Seq<DetailsLineView> {
    let all = byte_lines(hunk.diff@);
    if all.len() == 0 {
        Seq::empty()
    } else {
        seq![
            DetailsLineView::Text { id, line: line_of(seq![styled(lossy(all[0]), theme.hint)]) },
            DetailsLineView::Text {
                id,
                line: LineView { spans: rule(text_width(lossy(all[0]))), style: theme.border },
            },
        ]
    }
}

/// The remark above a hunk whose text was made from binary content.
pub open spec fn conversion_remark(id: Seq<char>, converted: bool) -> Seq<DetailsLineView> {
    if converted {
        seq![
            DetailsLineView::Text {
                id,
                line: line_of(seq![raw("(diff generated from binary-to-text conversion)"@)]),
            },
        ]
    } else {
        Seq::empty()
    }
}

/// A hunk as it is shown.
pub open spec fn hunk_lines(
    id: Seq<char>,
    path: Seq<u8>,
    hunk: DiffHunk,
    converted: bool,
    theme: Theme,
) -> Seq<DetailsLineView> {
    conversion_remark(id, converted) + hunk_header(id, hunk, theme) + hunk_rows(
        id,
        path,
        hunk,
        theme,
    )
}

/// The counts grow with the number of lines.
pub(crate) proof fn lemma_counts_monotonic(body: Seq<Seq<u8>>, j: nat, k: nat)
    requires
        j <= k,
    ensures
        old_count(body, j) <= old_count(body, k),
        new_count(body, j) <= new_count(body, k),
    decreases k,
{
    if j < k {
        lemma_counts_monotonic(body, j, (k - 1) as nat);
    }
}

/// Shares `path`. Calls `std::sync::Arc::clone`, which gives another pointer to the same value.
#[verifier::external_body]
fn share(path: &Arc<Vec<u8>>) -> (r: Arc<Vec<u8>>)
    ensures
        r == *path,
{
    Arc::clone(path)
}

/// True if `line` begins with `byte`.
fn begins_with(line: &[u8], byte: u8) -> (r: bool)
    ensures
        r == (line@.len() > 0 && line@[0] == byte),
{
    line.len() > 0 && line[0] == byte
}

/// `width` columns of a horizontal rule.
pub(crate) fn rule_spans(width: usize) -> (r: Vec<Span>)
    ensures
        span_views(r@) == rule(width as nat),
{
    let mut spans: Vec<Span> = Vec::new();
    for i in 0..width
        invariant
            spans@.len() == i,
            forall|k: int| 0 <= k < i ==> (#[trigger] spans@[k])@ == raw("─"@),
    {
        spans.push(Span::raw("─".to_owned()));
    }
    proof {
        assert(span_views(spans@) =~= rule(width as nat));
    }
    spans
}

/// True if the line numbers of `hunk` fit in 32 bits.
pub fn hunk_numbers_fit(hunk: &DiffHunk) -> (r: bool)
    ensures
        r == numbers_fit(*hunk),
{
    let all = lines(hunk.diff.as_slice());
    let mut old: u32 = hunk.old_start;
    let mut new: u32 = hunk.new_start;
    let ghost body = hunk_body(*hunk);
    let mut i: usize = 1;
    while i < all.len()
        invariant
            1 <= i,
            i <= all@.len() || i == 1,
            body == hunk_body(*hunk),
            slice_views(all@) == byte_lines(hunk.diff@),
            old == old_number(*hunk, (i - 1) as nat),
            new == new_number(*hunk, (i - 1) as nat),
        decreases all@.len() - i,
    {
        let line = all[i];
        proof {
            assert(slice_views(all@)[i as int] == line@);
            assert(body[i - 1] == line@);
            assert(body.len() == all@.len() - 1);
            lemma_counts_monotonic(body, i as nat, body.len());
        }
        if begins_with(line, PLUS) {
            if new == u32::MAX {
                return false;
            }
            new = new + 1;
        } else if begins_with(line, MINUS) {
            if old == u32::MAX {
                return false;
            }
            old = old + 1;
        } else {
            if old == u32::MAX || new == u32::MAX {
                return false;
            }
            old = old + 1;
            new = new + 1;
        }
        i = i + 1;
    }
    proof {
        assert(slice_views(all@).len() == all@.len());
    }
    true
}

/// Measures `spans`: each of their characters takes one column.
fn measure(spans: &Vec<Span>)
    requires
        all_narrow(span_views(spans@)),
    ensures
        one_column_each(span_views(spans@)),
{
    for i in 0..spans.len()
        invariant
            all_narrow(span_views(spans@)),
            forall|k: int|
                0 <= k < i ==> text_width((#[trigger] span_views(spans@)[k]).content)
                    == span_views(spans@)[k].content.len(),
    {
        proof {
            assert(narrow(span_views(spans@)[i as int].content));
        }
        str_width(spans[i].content.as_str());
    }
}

/// The line numbers in front of `line`, and its sign.
fn gutter_spans(
    line: &[u8],
    old: u32,
    new: u32,
    old_width: u32,
    new_width: u32,
    theme: &Theme,
) -> (r: Vec<Span>)
    requires
        digit_count(old as nat) <= old_width,
        digit_count(new as nat) <= new_width,
    ensures
        span_views(r@) == gutter(
            line@,
            old as nat,
            new as nat,
            old_width as nat,
            new_width as nat,
            *theme,
        ),
        one_column_each(span_views(r@)),
{
    let mut spans: Vec<Span> = Vec::new();
    if begins_with(line, PLUS) {
        spans.push(Span::raw(spaces_text(old_width)));
        spans.push(Span::styled(" ┊ ".to_owned(), theme.border));
        spans.push(Span::raw(spaces_text(new_width - num_digits(new))));
        spans.push(Span::styled(decimal_text(new as u64), theme.addition));
        spans.push(Span::styled(" │ ".to_owned(), theme.border));
        spans.push(Span::styled("+".to_owned(), theme.addition_rich));
    } else if begins_with(line, MINUS) {
        spans.push(Span::raw(spaces_text(old_width - num_digits(old))));
        spans.push(Span::styled(decimal_text(old as u64), theme.deletion));
        spans.push(Span::styled(" ┊ ".to_owned(), theme.border));
        spans.push(Span::raw(spaces_text(new_width)));
        spans.push(Span::styled(" │ ".to_owned(), theme.border));
        spans.push(Span::styled("-".to_owned(), theme.deletion_rich));
    } else {
        spans.push(Span::raw(spaces_text(old_width - num_digits(old))));
        spans.push(Span::styled(decimal_text(old as u64), theme.hint));
        spans.push(Span::styled(" ┊ ".to_owned(), theme.border));
        spans.push(Span::raw(spaces_text(new_width - num_digits(new))));
        spans.push(Span::styled(decimal_text(new as u64), theme.hint));
        spans.push(Span::styled(" │  ".to_owned(), theme.border));
    }
    proof {
        assert(span_views(spans@) =~= gutter(
            line@,
            old as nat,
            new as nat,
            old_width as nat,
            new_width as nat,
            *theme,
        ));
        lemma_gutter_is_narrow(
            line@,
            old as nat,
            new as nat,
            old_width as nat,
            new_width as nat,
            *theme,
        );
    }
    measure(&spans);
    spans
}

/// True if `code` holds what `line` holds: in UTF-8, behind the sign or the space that the line
/// begins with, it is the line, as long as what follows is UTF-8.
#[verifier::opaque]
pub open spec fn code_keeps(line: Seq<u8>, code: Seq<char>) -> bool {
    if line.len() > 0 && (line[0] == '+' as u8 || line[0] == '-' as u8 || line[0] == ' ' as u8) {
        valid_utf8(line.skip(1)) ==> seq![line[0]] + encode_utf8(code) == line
    } else {
        valid_utf8(line) ==> encode_utf8(code) == line
    }
}

/// True of a row of source code that holds what `line` holds.
pub open spec fn row_keeps(line: Seq<u8>, row: DetailsLineView) -> bool {
    row matches DetailsLineView::RawCode { code, .. } && code_keeps(line, code)
}

/// True if there is a row for each line, in order, that holds what the line holds.
pub open spec fn rows_keep(lines: Seq<Seq<u8>>, rows: Seq<DetailsLineView>) -> bool {
    &&& rows.len() == lines.len()
    &&& forall|k: int| 0 <= k < lines.len() ==> row_keeps(lines[k], #[trigger] rows[k])
}

/// The source code of `line`.
fn code_text(line: &[u8]) -> (r: String)
    ensures
        r@ == code_of(line@),
        code_keeps(line@, r@),
{
    proof {
        reveal(code_keeps);
        if valid_utf8(line@.skip(1)) {
            decode_utf8_encode_utf8(line@.skip(1));
        }
        if valid_utf8(line@) {
            decode_utf8_encode_utf8(line@);
        }
        if line@.len() > 0 {
            assert(seq![line@[0]] + line@.skip(1) =~= line@);
        }
    }
    if begins_with(line, PLUS) || begins_with(line, MINUS) || begins_with(line, SPACE) {
        let rest = slice_subrange(line, 1, line.len());
        proof {
            assert(rest@ =~= line@.skip(1));
        }
        lossy_text(rest)
    } else {
        lossy_text(line)
    }
}

/// Writes the row of `line`, which has the numbers `old_line` and `new_line` in the files that
/// have it.
fn write_row<W: LineWriter>(
    id: &SectionId,
    path: &Arc<Vec<u8>>,
    line: &[u8],
    old_line: u32,
    new_line: u32,
    old_digits: u32,
    new_digits: u32,
    theme: &Theme,
    out: &mut W,
)
    requires
        digit_count(old_line as nat) <= old_digits,
        digit_count(new_line as nat) <= new_digits,
    ensures
        ({
            let numbers = gutter(
                line@,
                old_line as nat,
                new_line as nat,
                old_digits as nat,
                new_digits as nat,
                *theme,
            );
            let row = DetailsLineView::RawCode {
                id: id@,
                line_numbers: numbers,
                code: code_of(line@),
                path: path@,
                highlighted_line: None,
                bg: background_of(line@, *theme),
            };
            &&& final(out).written() == old(out).written().push(row)
            &&& row_keeps(line@, row)
            &&& one_column_each(numbers)
        }),
{
    let line_numbers = gutter_spans(line, old_line, new_line, old_digits, new_digits, theme);
    let code = code_text(line);
    let mut bg: Option<Color> = None;
    if begins_with(line, PLUS) {
        bg = theme.addition_rich.bg;
    } else if begins_with(line, MINUS) {
        bg = theme.deletion_rich.bg;
    }
    out.push_raw_code(id.clone(), line_numbers, code, bg, share(path));
}

/// Writes `hunk`: a remark if its text was made from binary content, its header, and its
/// lines, each behind its numbers in the old and the new file. What stands in front of a line
/// takes as many columns on every line.
pub fn build_unified_patch<W: LineWriter>(
    id: &SectionId,
    path: &Arc<Vec<u8>>,
    hunk: &DiffHunk,
    is_result_of_binary_to_text_conversion: bool,
    theme: &Theme,
    out: &mut W,
)
    requires
        numbers_fit(*hunk),
    ensures
        final(out).written() == old(out).written() + hunk_lines(
            id@,
            path@,
            *hunk,
            is_result_of_binary_to_text_conversion,
            *theme,
        ),
        gutters_aligned(*hunk, *theme, hunk_body(*hunk).len()),
        rows_keep(
            hunk_body(*hunk),
            final(out).written().skip(final(out).written().len() - hunk_body(*hunk).len()),
        ),
{
    let ghost start = out.written();
    let ghost remark = conversion_remark(id@, is_result_of_binary_to_text_conversion);
    let ghost header = hunk_header(id@, *hunk, *theme);
    let ghost rows = hunk_rows(id@, path@, *hunk, *theme);
    let ghost body = hunk_body(*hunk);

    if is_result_of_binary_to_text_conversion {
        let mut spans: Vec<Span> = Vec::new();
        spans.push(Span::raw("(diff generated from binary-to-text conversion)".to_owned()));
        proof {
            assert(span_views(spans@) =~= seq![
                raw("(diff generated from binary-to-text conversion)"@),
            ]);
        }
        out.push_text(id.clone(), Line::from_spans(spans));
    }
    proof {
        assert(out.written() =~= start + remark);
    }

    let all = lines(hunk.diff.as_slice());
    proof {
        assert(slice_views(all@).len() == all@.len());
    }
    if all.len() > 0 {
        let headers = lossy_text(all[0]);
        let width = str_width(headers.as_str());
        proof {
            assert(slice_views(all@)[0] == all@[0]@);
        }
        let mut spans: Vec<Span> = Vec::new();
        spans.push(Span::styled(headers, theme.hint));
        proof {
            assert(span_views(spans@) =~= seq![styled(lossy(all@[0]@), theme.hint)]);
        }
        out.push_text(id.clone(), Line::from_spans(spans));
        out.push_text(id.clone(), Line::from_spans(rule_spans(width)).style(theme.border));
    }
    proof {
        assert(out.written() =~= start + remark + header);
        assert(body.len() == if all@.len() == 0 { 0 } else { all@.len() - 1 });
    }

    let mut old_line: u32 = hunk.old_start;
    let mut new_line: u32 = hunk.new_start;
    let mut i: usize = 1;
    while i < all.len()
        invariant
            1 <= i,
            i <= all@.len() || i == 1,
            body == hunk_body(*hunk),
            body.len() == (if all@.len() == 0 { 0 } else { all@.len() - 1 }),
            slice_views(all@) == byte_lines(hunk.diff@),
            numbers_fit(*hunk),
            old_line == old_number(*hunk, (i - 1) as nat),
            new_line == new_number(*hunk, (i - 1) as nat),
        decreases all@.len() - i,
    {
        let line = all[i];
        proof {
            assert(slice_views(all@)[i as int] == line@);
            assert(body[i - 1] == line@);
            lemma_counts_monotonic(body, i as nat, body.len());
        }
        if begins_with(line, PLUS) {
            new_line = new_line + 1;
        } else if begins_with(line, MINUS) {
            old_line = old_line + 1;
        } else {
            old_line = old_line + 1;
            new_line = new_line + 1;
        }
        i = i + 1;
    }
    let old_digits = num_digits(old_line);
    let new_digits = num_digits(new_line);
    proof {
        assert((i - 1) as nat == body.len());
    }

    let mut old_line_num: u32 = hunk.old_start;
    let mut new_line_num: u32 = hunk.new_start;
    let mut k: usize = 1;
    while k < all.len()
        invariant
            1 <= k,
            k <= all@.len() || k == 1,
            body == hunk_body(*hunk),
            body.len() == (if all@.len() == 0 { 0 } else { all@.len() - 1 }),
            slice_views(all@) == byte_lines(hunk.diff@),
            numbers_fit(*hunk),
            old_digits == old_width(*hunk),
            new_digits == new_width(*hunk),
            old_line_num == old_number(*hunk, (k - 1) as nat),
            new_line_num == new_number(*hunk, (k - 1) as nat),
            rows == hunk_rows(id@, path@, *hunk, *theme),
            out.written() == start + remark + header + rows.take(k - 1),
            gutters_aligned(*hunk, *theme, (k - 1) as nat),
            forall|j: int| 0 <= j < k - 1 ==> row_keeps(body[j], #[trigger] rows[j]),
        decreases all@.len() - k,
    {
        let line = all[k];
        proof {
            assert(slice_views(all@)[k as int] == line@);
            assert(body[k - 1] == line@);
            lemma_counts_monotonic(body, (k - 1) as nat, k as nat);
            lemma_counts_monotonic(body, k as nat, body.len());
            law_digit_count_monotonic(
                old_line_num as nat,
                old_number(*hunk, body.len()),
            );
            law_digit_count_monotonic(
                new_line_num as nat,
                new_number(*hunk, body.len()),
            );
        }
        let ghost before = out.written();
        write_row(
            id,
            path,
            line,
            old_line_num,
            new_line_num,
            old_digits,
            new_digits,
            theme,
            out,
        );
        proof {
            law_gutter_aligned(*hunk, *theme, (k - 1) as nat);
            let row = hunk_row(id@, path@, *hunk, *theme, (k - 1) as nat);
            assert(rows[k - 1] == row);
            assert(out.written() == before.push(row));
            assert(row_keeps(body[k - 1], row));
            assert(rows.take(k as int) =~= rows.take(k - 1).push(row));
            assert(out.written() =~= start + remark + header + rows.take(k as int));
        }
        if begins_with(line, PLUS) {
            new_line_num = new_line_num + 1;
        } else if begins_with(line, MINUS) {
            old_line_num = old_line_num + 1;
        } else {
            old_line_num = old_line_num + 1;
            new_line_num = new_line_num + 1;
        }
        k = k + 1;
    }
    proof {
        assert(rows.take(k - 1) =~= rows);
        assert(out.written() =~= start + hunk_lines(
            id@,
            path@,
            *hunk,
            is_result_of_binary_to_text_conversion,
            *theme,
        ));
        assert(out.written().skip(out.written().len() - body.len()) =~= rows);
    }
}

/// The text of six spans is as long as their texts together, and it takes as many columns if
/// that is so of each of them.
proof fn lemma_six_spans(spans: Seq<SpanView>)
    requires
        spans.len() == 6,
    ensures
        spans_text(spans).len() == spans[0].content.len() + spans[1].content.len()
            + spans[2].content.len() + spans[3].content.len() + spans[4].content.len()
            + spans[5].content.len(),
        one_column_each(spans) ==> spans_width(spans) == spans_text(spans).len(),
{
    reveal_with_fuel(spans_text, 7);
    reveal_with_fuel(spans_width, 7);
}

/// A number in decimal notation is narrow.
proof fn lemma_decimal_is_narrow(n: nat)
    ensures
        narrow(decimal(n)),
{
    assert forall|k: int| 0 <= k < decimal(n).len() implies ' ' <= #[trigger] decimal(n)[k]
        <= '~' by {
        law_decimal_is_digits(n, k);
    }
}

/// The spans in front of a line are narrow.
proof fn lemma_gutter_is_narrow(
    line: Seq<u8>,
    old: nat,
    new: nat,
    old_width: nat,
    new_width: nat,
    theme: Theme,
)
    ensures
        all_narrow(gutter(line, old, new, old_width, new_width, theme)),
{
    lemma_decimal_is_narrow(old);
    lemma_decimal_is_narrow(new);
    reveal_strlit(" ┊ ");
    reveal_strlit(" │ ");
    reveal_strlit(" │  ");
    reveal_strlit("+");
    reveal_strlit("-");
}

/// The line numbers of a hunk are aligned: in front of each of its lines stands a text of one
/// and the same length. It takes as many columns where each of its characters takes one.
pub proof fn law_gutter_aligned(hunk: DiffHunk, theme: Theme, k: nat)
    requires
        k < hunk_body(hunk).len(),
    ensures
        spans_text(row_gutter(hunk, theme, k)).len() == gutter_columns(hunk),
        one_column_each(row_gutter(hunk, theme, k)) ==> spans_width(row_gutter(hunk, theme, k))
            == gutter_columns(hunk),
{
    let body = hunk_body(hunk);
    let old = old_number(hunk, k);
    let new = new_number(hunk, k);
    lemma_counts_monotonic(body, k, body.len());
    law_digit_count_monotonic(old, old_number(hunk, body.len()));
    law_digit_count_monotonic(new, new_number(hunk, body.len()));
    law_decimal_length(old);
    law_decimal_length(new);
    reveal_strlit(" ┊ ");
    reveal_strlit(" │ ");
    reveal_strlit(" │  ");
    reveal_strlit("+");
    reveal_strlit("-");
    lemma_six_spans(row_gutter(hunk, theme, k));
}

/// No two lines of the old file have the same number, nor do two lines of the new file: the
/// numbers grow from one line to the next.
pub proof fn law_numbers_increase(hunk: DiffHunk, j: nat, k: nat)
    requires
        j < k < hunk_body(hunk).len(),
    ensures
        !is_added(hunk_body(hunk)[j as int]) ==> old_number(hunk, j) < old_number(hunk, k),
        !is_removed(hunk_body(hunk)[j as int]) ==> new_number(hunk, j) < new_number(hunk, k),
{
    let body = hunk_body(hunk);
    assert(body[(j + 1) - 1] == body[j as int]);
    lemma_counts_monotonic(body, j + 1, k);
}

/// A line that both files have moves both numbers on by one, and a line that one of them has
/// moves that number alone.
pub proof fn law_numbers_step(hunk: DiffHunk, k: nat)
    requires
        k < hunk_body(hunk).len(),
    ensures
        is_added(hunk_body(hunk)[k as int]) ==> old_number(hunk, k + 1) == old_number(hunk, k)
            && new_number(hunk, k + 1) == new_number(hunk, k) + 1,
        is_removed(hunk_body(hunk)[k as int]) ==> old_number(hunk, k + 1) == old_number(hunk, k)
            + 1 && new_number(hunk, k + 1) == new_number(hunk, k),
        !is_added(hunk_body(hunk)[k as int]) && !is_removed(hunk_body(hunk)[k as int])
            ==> old_number(hunk, k + 1) == old_number(hunk, k) + 1 && new_number(hunk, k + 1)
            == new_number(hunk, k) + 1,
        old_number(hunk, 0) == hunk.old_start,
        new_number(hunk, 0) == hunk.new_start,
{
    assert(hunk_body(hunk)[(k + 1) - 1] == hunk_body(hunk)[k as int]);
}

} // verus!
