//! What is seen of a hunk of a diff.

use super::{cell, cells, lemma_cells, paint};
use crate::bytes::{byte_lines, lossy};
use crate::digits::{decimal, law_decimal_length, law_digit_count_monotonic};
use crate::git::DiffHunk;
use crate::hunk::{
    hunk_body, hunk_lines, hunk_row, hunk_rows, lemma_counts_monotonic, new_count, new_number,
    new_width, numbers_fit, old_count, old_number, old_width, row_gutter,
};
use crate::lines::DetailsLineView;
use crate::text::{plain, text_width, Style};
use crate::theme::Theme;
use vstd::prelude::*;
use vstd::utf8::{decode_utf8, decode_utf8_encode_utf8, encode_utf8, valid_utf8};

verus! {

/// The sign of a line of a diff: `+` if only the new file has it, `-` if only the old file has
/// it, and a space if both have it, whether or not the line begins with one.
pub open spec fn sign(line: Seq<u8>) -> char {
    if line.len() > 0 && line[0] == '+' as u8 {
        '+'
    } else if line.len() > 0 && line[0] == '-' as u8 {
        '-'
    } else {
        ' '
    }
}

/// The number of lines of a diff that have none of the given sign.
pub open spec fn count_without(lines: Seq<Seq<u8>>, without: char) -> nat
    decreases lines.len(),
{
    if lines.len() == 0 {
        0
    } else if sign(lines.last()) == without {
        count_without(lines.drop_last(), without)
    } else {
        count_without(lines.drop_last(), without) + 1
    }
}

/// The lines of a hunk behind its header.
pub open spec fn body(hunk: DiffHunk) -> Seq<Seq<u8>> {
    let all = byte_lines(hunk.diff@);
    if all.len() == 0 {
        all
    } else {
        all.skip(1)
    }
}

/// The number of the first of the lines of the old file that stand at or behind the line `k`.
pub open spec fn old_at(hunk: DiffHunk, k: int) -> nat {
    hunk.old_start as nat + count_without(body(hunk).take(k), '+')
}

/// The number of the first of the lines of the new file that stand at or behind the line `k`.
pub open spec fn new_at(hunk: DiffHunk, k: int) -> nat {
    hunk.new_start as nat + count_without(body(hunk).take(k), '-')
}

/// The number of lines of the remark above a hunk.
pub open spec fn remark_len(converted: bool) -> int {
    if converted {
        1
    } else {
        0
    }
}

/// Where the rows of a hunk begin among its lines: behind the remark, if there is one, and
/// behind the header and the rule under it, if the diff holds a header.
pub open spec fn first_row(hunk: DiffHunk, converted: bool) -> int {
    remark_len(converted) + (if byte_lines(hunk.diff@).len() > 0 {
        2int
    } else {
        0int
    })
}

/// `text` in the style `style` at the right end of `width` columns.
pub open spec fn right_aligned(text: Seq<char>, width: int, style: Style) -> Seq<(char, Style)> {
    paint(Seq::new((width - text.len()) as nat, |i: int| ' '), plain()) + paint(text, style)
}

/// Counting goes on line by line.
proof fn lemma_counts(hunk: DiffHunk, k: nat)
    requires
        k <= body(hunk).len(),
    ensures
        old_at(hunk, k as int) == old_number(hunk, k),
        new_at(hunk, k as int) == new_number(hunk, k),
        hunk_body(hunk) == body(hunk),
    decreases k,
{
    let lines = body(hunk);
    assert(hunk_body(hunk) =~= lines);
    if k > 0 {
        lemma_counts(hunk, (k - 1) as nat);
        assert(lines.take(k as int).drop_last() =~= lines.take(k - 1));
        assert(lines.take(k as int).last() == lines[k - 1]);
        assert(old_count(lines, k) == old_count(lines, (k - 1) as nat) + if sign(lines[k - 1])
            == '+' {
            0nat
        } else {
            1nat
        });
        assert(new_count(lines, k) == new_count(lines, (k - 1) as nat) + if sign(lines[k - 1])
            == '-' {
            0nat
        } else {
            1nat
        });
    }
}

/// A hunk is written as a remark, if its text was made from binary content; its header, if it
/// has one, with a rule under it that takes as many columns; and one row for each line behind
/// the header, no more and no less.
pub proof fn law_hunk_layout(
    id: Seq<char>,
    path: Seq<u8>,
    hunk: DiffHunk,
    converted: bool,
    theme: Theme,
)
    ensures
        ({
            let lines = hunk_lines(id, path, hunk, converted, theme);
            let all = byte_lines(hunk.diff@);
            let at = remark_len(converted);
            &&& lines.len() == first_row(hunk, converted) + body(hunk).len()
            &&& converted ==> (lines[0] matches DetailsLineView::Text { id: i, line } && i == id
                && line.style == plain() && cells(line.spans) == paint(
                "(diff generated from binary-to-text conversion)"@,
                plain(),
            ))
            &&& all.len() > 0 ==> (lines[at] matches DetailsLineView::Text { id: i, line } && i
                == id && line.style == plain() && cells(line.spans) == paint(
                lossy(all[0]),
                theme.hint,
            ))
            &&& all.len() > 0 ==> (lines[at + 1] matches DetailsLineView::Text { id: i, line } && i
                == id && line.style == theme.border && line.spans.len() == text_width(
                lossy(all[0]),
            ) && forall|n: int|
                0 <= n < line.spans.len() ==> (#[trigger] line.spans[n]).content == "─"@
                    && line.spans[n].style == plain())
        }),
{
    let lines = hunk_lines(id, path, hunk, converted, theme);
    let all = byte_lines(hunk.diff@);
    lemma_counts(hunk, 0);
    if converted {
        lemma_cells(lines[0]->Text_line.spans);
    }
    if all.len() > 0 {
        let at = remark_len(converted);
        lemma_cells(lines[at]->Text_line.spans);
    }
}

/// The row of a line of a hunk shows the number that the line has in each file that has it,
/// each at the right end of columns as wide as the number behind the last line; a bar; the sign
/// of the line; and its code, on the background of its kind. A line that one file lacks leaves
/// the columns of that file blank. The row is not highlighted yet.
pub proof fn law_hunk_row(
    id: Seq<char>,
    path: Seq<u8>,
    hunk: DiffHunk,
    converted: bool,
    theme: Theme,
    k: int,
)
    requires
        0 <= k < body(hunk).len(),
    ensures
        ({
            let line = body(hunk)[k];
            let old = if sign(line) == '+' {
                Seq::empty()
            } else {
                decimal(old_at(hunk, k))
            };
            let new = if sign(line) == '-' {
                Seq::empty()
            } else {
                decimal(new_at(hunk, k))
            };
            let old_columns = decimal(old_at(hunk, body(hunk).len() as int)).len() as int;
            let new_columns = decimal(new_at(hunk, body(hunk).len() as int)).len() as int;
            let (number_style, sign_style) = if sign(line) == '+' {
                (theme.addition, theme.addition_rich)
            } else if sign(line) == '-' {
                (theme.deletion, theme.deletion_rich)
            } else {
                (theme.hint, theme.border)
            };
            let row = hunk_lines(id, path, hunk, converted, theme)[first_row(hunk, converted) + k];
            &&& old.len() <= old_columns
            &&& new.len() <= new_columns
            &&& row matches DetailsLineView::RawCode {
                id: row_id,
                line_numbers,
                code,
                path: row_path,
                highlighted_line,
                bg,
            }
            &&& row_id == id
            &&& row_path == path
            &&& highlighted_line is None
            &&& code == lossy(
                if line.len() > 0 && (line[0] == '+' as u8 || line[0] == '-' as u8 || line[0]
                    == ' ' as u8) {
                    line.skip(1)
                } else {
                    line
                },
            )
            &&& bg == if sign(line) == ' ' {
                None
            } else {
                sign_style.bg
            }
            &&& cells(line_numbers) == right_aligned(old, old_columns, number_style) + paint(
                " ┊ "@,
                theme.border,
            ) + right_aligned(new, new_columns, number_style) + paint(" │ "@, theme.border)
                + paint(seq![sign(line)], sign_style)
        }),
{
    let n = body(hunk).len();
    let line = body(hunk)[k];
    lemma_counts(hunk, k as nat);
    lemma_counts(hunk, n);
    let old = old_number(hunk, k as nat);
    let new = new_number(hunk, k as nat);
    lemma_counts_monotonic(body(hunk), k as nat, n);
    law_digit_count_monotonic(old, old_number(hunk, n));
    law_digit_count_monotonic(new, new_number(hunk, n));
    law_decimal_length(old);
    law_decimal_length(new);
    law_decimal_length(old_number(hunk, n));
    law_decimal_length(new_number(hunk, n));
    let lines = hunk_lines(id, path, hunk, converted, theme);
    let row = lines[first_row(hunk, converted) + k];
    assert(row == hunk_rows(id, path, hunk, theme)[k]);
    assert(row == hunk_row(id, path, hunk, theme, k as nat));
    let spans = row_gutter(hunk, theme, k as nat);
    lemma_cells(spans);
    reveal_strlit(" ┊ ");
    reveal_strlit(" │ ");
    reveal_strlit(" │  ");
    reveal_strlit("+");
    reveal_strlit("-");
    let old_text = if sign(line) == '+' {
        Seq::empty()
    } else {
        decimal(old)
    };
    let new_text = if sign(line) == '-' {
        Seq::empty()
    } else {
        decimal(new)
    };
    let number_style = if sign(line) == '+' {
        theme.addition
    } else if sign(line) == '-' {
        theme.deletion
    } else {
        theme.hint
    };
    let sign_style = if sign(line) == '+' {
        theme.addition_rich
    } else if sign(line) == '-' {
        theme.deletion_rich
    } else {
        theme.border
    };
    let left = right_aligned(old_text, old_width(hunk) as int, number_style);
    let right = right_aligned(new_text, new_width(hunk) as int, number_style);
    let seen = left + paint(" ┊ "@, theme.border) + right + paint(" │ "@, theme.border) + paint(
        seq![sign(line)],
        sign_style,
    );
    if sign(line) == '+' {
        assert(left =~= cell(spans[0]));
        assert(right =~= cell(spans[2]) + cell(spans[3]));
    } else if sign(line) == '-' {
        assert(left =~= cell(spans[0]) + cell(spans[1]));
        assert(right =~= cell(spans[3]));
    } else {
        assert(left =~= cell(spans[0]) + cell(spans[1]));
        assert(right =~= cell(spans[3]) + cell(spans[4]));
        assert(cell(spans[5]) =~= paint(" │ "@, theme.border) + paint(seq![' '], theme.border));
    }
    assert(cells(spans) =~= seen);
}

/// The sign of an added or removed line, followed by the code of its row in UTF-8, gives the
/// line of the diff back, as far as the line reads as it is written. So does the code of any
/// other row, behind the space of the line, if it has one.
pub proof fn law_code_reads_back(
    id: Seq<char>,
    path: Seq<u8>,
    hunk: DiffHunk,
    converted: bool,
    theme: Theme,
    k: int,
)
    requires
        0 <= k < body(hunk).len(),
    ensures
        ({
            let line = body(hunk)[k];
            let row = hunk_lines(id, path, hunk, converted, theme)[first_row(hunk, converted) + k];
            let signed = line.len() > 0 && (line[0] == '+' as u8 || line[0] == '-' as u8
                || line[0] == ' ' as u8);
            let rest = line.skip(1);
            &&& signed && valid_utf8(rest) && lossy(rest) == decode_utf8(rest) ==> seq![line[0]]
                + encode_utf8(row->RawCode_code) == line
            &&& !signed && valid_utf8(line) && lossy(line) == decode_utf8(line) ==> encode_utf8(
                row->RawCode_code,
            ) == line
        }),
{
    let line = body(hunk)[k];
    law_hunk_row(id, path, hunk, converted, theme, k);
    if valid_utf8(line.skip(1)) {
        decode_utf8_encode_utf8(line.skip(1));
    }
    if valid_utf8(line) {
        decode_utf8_encode_utf8(line);
    }
    if line.len() > 0 {
        assert(seq![line[0]] + line.skip(1) =~= line);
    }
}

/// The numbers of a hunk fit exactly if the starts and the lines behind them stay within 32
/// bits in both files.
pub proof fn law_numbers_fit(hunk: DiffHunk)
    ensures
        numbers_fit(hunk) <==> hunk.old_start + count_without(body(hunk), '+') <= 0xffff_ffff
            && hunk.new_start + count_without(body(hunk), '-') <= 0xffff_ffff,
{
    let n = body(hunk).len();
    lemma_counts(hunk, n);
    assert(body(hunk).take(n as int) =~= body(hunk));
}

} // verus!
