use details::git::DiffHunk;
use details::hunk::{build_unified_patch, hunk_numbers_fit};
use details::ids::SectionId;
use details::lines::{BufferLineWriter, DetailsLine};
use details::text::{Color, Line, Span, Style};
use details::theme::Theme;
use std::sync::Arc;

fn theme() -> Theme {
    let style = |n: u8| Style::default().fg(Color::Indexed(n));
    Theme {
        commit_id: style(1),
        user: style(2),
        time: style(3),
        cli_id: style(4),
        addition: style(5),
        deletion: style(6),
        modification: style(7),
        renaming: style(8),
        border: style(9),
        hint: style(10),
        addition_rich: style(11).bg(Color::Green),
        deletion_rich: style(12).bg(Color::Red),
    }
}

fn hunk(old_start: u32, new_start: u32, diff: &[u8]) -> DiffHunk {
    DiffHunk { old_start, old_lines: 0, new_start, new_lines: 0, diff: diff.to_vec() }
}

fn write(hunk: &DiffHunk, converted: bool) -> Vec<DetailsLine> {
    assert!(hunk_numbers_fit(hunk));
    let mut out = BufferLineWriter::default();
    build_unified_patch(
        &SectionId("id".to_owned()),
        &Arc::new(b"src/a.rs".to_vec()),
        hunk,
        converted,
        &theme(),
        &mut out,
    );
    out.buf
}

fn raw(text: &str) -> Span {
    Span::raw(text.to_owned())
}

fn styled(text: &str, style: Style) -> Span {
    Span::styled(text.to_owned(), style)
}

fn text(spans: Vec<Span>) -> DetailsLine {
    DetailsLine::Text { id: SectionId("id".to_owned()), line: Line::from_spans(spans) }
}

fn code(line_numbers: Vec<Span>, code: &str, bg: Option<Color>) -> DetailsLine {
    DetailsLine::RawCode {
        id: SectionId("id".to_owned()),
        line_numbers,
        code: code.to_owned(),
        path: Arc::new(b"src/a.rs".to_vec()),
        highlighted_line: None,
        bg,
    }
}

#[test]
fn lines_are_numbered_and_aligned() {
    let t = theme();
    let lines = write(&hunk(8, 9, b"@@ -8,2 +9,2 @@\n same\n-gone\n+here\r\nbare"), false);
    let expected = vec![
        text(vec![styled("@@ -8,2 +9,2 @@", t.hint)]),
        DetailsLine::Text {
            id: SectionId("id".to_owned()),
            line: Line { spans: (0..15).map(|_| raw("─")).collect(), style: t.border },
        },
        code(
            vec![
                raw(" "),
                styled("8", t.hint),
                styled(" ┊ ", t.border),
                raw(" "),
                styled("9", t.hint),
                styled(" │  ", t.border),
            ],
            "same",
            None,
        ),
        code(
            vec![
                raw(" "),
                styled("9", t.deletion),
                styled(" ┊ ", t.border),
                raw("  "),
                styled(" │ ", t.border),
                styled("-", t.deletion_rich),
            ],
            "gone",
            Some(Color::Red),
        ),
        code(
            vec![
                raw("  "),
                styled(" ┊ ", t.border),
                raw(""),
                styled("10", t.addition),
                styled(" │ ", t.border),
                styled("+", t.addition_rich),
            ],
            "here",
            Some(Color::Green),
        ),
        code(
            vec![
                raw(""),
                styled("10", t.hint),
                styled(" ┊ ", t.border),
                raw(""),
                styled("11", t.hint),
                styled(" │  ", t.border),
            ],
            "bare",
            None,
        ),
    ];
    assert_eq!(lines, expected);
}

#[test]
fn gutters_have_one_length_and_width() {
    let lines = write(&hunk(98, 7, b"@@\n a\n-b\n-c\n+d\n+e\n+f\n+g\n h\n"), false);
    let mut lengths: Vec<usize> = Vec::new();
    for line in lines {
        if let DetailsLine::RawCode { line_numbers, .. } = line {
            let length: usize = line_numbers.iter().map(|s| s.content.chars().count()).sum();
            assert_eq!(Line::from_spans(line_numbers).width(), length);
            lengths.push(length);
        }
    }
    assert_eq!(lengths, vec![3 + 2 + 7; 8]);
}

#[test]
fn a_converted_hunk_has_a_remark() {
    let lines = write(&hunk(1, 1, b""), true);
    assert_eq!(lines, vec![text(vec![raw("(diff generated from binary-to-text conversion)")])]);
    assert_eq!(write(&hunk(1, 1, b""), false), Vec::new());
}

#[test]
fn invalid_text_is_replaced() {
    let lines = write(&hunk(1, 1, b"@@\n+\xFFx\n"), false);
    assert_eq!(lines.len(), 3);
    match &lines[2] {
        DetailsLine::RawCode { code, .. } => assert_eq!(code, "\u{FFFD}x"),
        _ => panic!("a line of code"),
    }
}

#[test]
fn the_header_is_underlined_by_columns() {
    let lines = write(&hunk(1, 1, "@ 日本\n".as_bytes()), false);
    match &lines[1] {
        DetailsLine::Text { line, .. } => assert_eq!(line.spans.len(), 6),
        _ => panic!("a rule"),
    }
}

#[test]
fn an_unterminated_line_keeps_its_return() {
    let lines = write(&hunk(1, 1, b"@@\n+a\r"), false);
    match &lines[2] {
        DetailsLine::RawCode { code, .. } => assert_eq!(code, "a\r"),
        _ => panic!("a line of code"),
    }
}

#[test]
fn numbers_that_do_not_fit_are_told() {
    assert!(hunk_numbers_fit(&hunk(u32::MAX, u32::MAX, b"@@\n")));
    assert!(hunk_numbers_fit(&hunk(u32::MAX, u32::MAX - 1, b"@@\n+a\n")));
    assert!(!hunk_numbers_fit(&hunk(u32::MAX, 1, b"@@\n-a\n")));
    assert!(!hunk_numbers_fit(&hunk(1, u32::MAX, b"@@\n+a\n")));
    assert!(!hunk_numbers_fit(&hunk(1, u32::MAX, b"@@\n a\n")));
}
