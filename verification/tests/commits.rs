use details::git::{
    CommitDetails, DiffHunk, ObjectId, ReadError, Signature, Time, TreeChange, TreeStatus,
    UnifiedPatch,
};
use details::ids::{IdGen, IdStorage, SectionId};
use details::lines::{BufferLineWriter, DetailsLine};
use details::rendering::{
    bordered_line_top_right_bottom, change_status, commit_numbers_fit, render_commit,
    render_hunk_path_header, render_signature, ShortIdOrTreeStatus,
};
use details::text::{Color, Line, Span, Style};
use details::theme::Theme;
use std::sync::Arc;

fn theme() -> Theme {
    let style = |n: u8| Style::default().fg(Color::Indexed(n));
    Theme {
        commit_id: style(1),
        user: style(2),
        time: style(3),
        cli_id: style(4),
        addition: style(5),
        deletion: style(6),
        modification: style(7),
        renaming: style(8),
        border: style(9),
        hint: style(10),
        addition_rich: style(11).bg(Color::Green),
        deletion_rich: style(12).bg(Color::Red),
    }
}

fn raw(text: &str) -> Span {
    Span::raw(text.to_owned())
}

fn styled(text: &str, style: Style) -> Span {
    Span::styled(text.to_owned(), style)
}

fn id(text: &str) -> SectionId {
    SectionId(text.to_owned())
}

fn text(section: &str, spans: Vec<Span>) -> DetailsLine {
    DetailsLine::Text { id: id(section), line: Line::from_spans(spans) }
}

fn border(section: &str, strokes: usize, corner: &str) -> DetailsLine {
    let mut spans: Vec<Span> = (0..strokes).map(|_| raw("─")).collect();
    spans.push(raw(corner));
    DetailsLine::Text { id: id(section), line: Line { spans, style: theme().border } }
}

fn header(section: &str, status: Span, path: &str, columns: usize) -> Vec<DetailsLine> {
    vec![
        border(section, columns + 1, "╮"),
        text(
            section,
            vec![raw(" "), status, raw(" "), raw(path), raw(" "), styled("│", theme().border)],
        ),
        border(section, columns + 1, "╯"),
        text(section, Vec::new()),
    ]
}

fn signature(name: &[u8], seconds: i64, offset: i32) -> Signature {
    Signature { name: name.to_vec(), email: b"a@b.c".to_vec(), time: Time { seconds, offset } }
}

fn change(
    path: &str,
    status: TreeStatus,
    patch: Result<Option<UnifiedPatch>, ReadError>,
) -> TreeChange {
    TreeChange {
        path: path.as_bytes().to_vec(),
        path_bytes: path.as_bytes().to_vec(),
        status,
        patch,
    }
}

fn hunk(old_start: u32, new_start: u32, diff: &[u8]) -> DiffHunk {
    DiffHunk { old_start, old_lines: 0, new_start, new_lines: 0, diff: diff.to_vec() }
}

fn patch(hunks: Vec<DiffHunk>) -> Result<Option<UnifiedPatch>, ReadError> {
    Ok(Some(UnifiedPatch::Patch {
        hunks,
        is_result_of_binary_to_text_conversion: false,
        lines_added: 0,
        lines_removed: 0,
    }))
}

fn signature_spans(name: &str, time: &str) -> Vec<Span> {
    vec![
        styled(name, theme().user),
        raw(" <"),
        styled("a@b.c", theme().user),
        raw(">"),
        raw(" ("),
        styled(time, theme().time),
        raw(")"),
    ]
}

#[test]
fn signatures_show_name_address_and_time() {
    assert_eq!(
        render_signature(&signature(b"Ann", 0, 0), &theme()),
        signature_spans("Ann", "Thu Jan 1 00:00:00 1970 +0000"),
    );
    assert_eq!(
        render_signature(&signature(b"B\xFFb", 1_662_302_706, -14_400), &theme()),
        signature_spans("B\u{FFFD}b", "Sun Sep 4 10:45:06 2022 -0400"),
    );
}

#[test]
fn a_time_without_a_date_is_shown_in_seconds() {
    let spans = render_signature(&signature(b"Ann", i64::MAX, 0), &theme());
    assert_eq!(spans[5], styled("9223372036854775807", theme().time));
}

#[test]
fn statuses_have_words_and_styles() {
    let t = theme();
    assert_eq!(change_status(&TreeStatus::Addition, &t), styled("added", t.addition));
    assert_eq!(change_status(&TreeStatus::Deletion, &t), styled("deleted", t.deletion));
    assert_eq!(change_status(&TreeStatus::Modification, &t), styled("modified", t.modification));
    assert_eq!(change_status(&TreeStatus::Rename, &t), styled("renamed", t.renaming));
}

#[test]
fn a_line_is_boxed_by_its_columns() {
    let mut out = BufferLineWriter::default();
    let line = Line::from_spans(vec![raw("日本"), raw("x")]);
    bordered_line_top_right_bottom(&id("s"), line, &mut out, &theme());
    assert_eq!(
        out.buf,
        vec![
            border("s", 6, "╮"),
            text("s", vec![raw("日本"), raw("x"), raw(" "), styled("│", theme().border)]),
            border("s", 6, "╯"),
        ],
    );
    for line in &out.buf {
        match line {
            DetailsLine::Text { line, .. } => assert_eq!(line.width(), 7),
            _ => panic!("a line of text"),
        }
    }
}

#[test]
fn a_path_may_have_a_short_name_or_nothing_before_it() {
    let mut out = BufferLineWriter::default();
    let t = theme();
    render_hunk_path_header(&id("s"), b"a", None, &mut out, &t);
    assert_eq!(
        out.buf,
        vec![
            border("s", 3, "╮"),
            text("s", vec![raw(" "), raw("a"), raw(" "), styled("│", t.border)]),
            border("s", 3, "╯"),
            text("s", Vec::new()),
        ],
    );
    let mut out = BufferLineWriter::default();
    let short = Some(ShortIdOrTreeStatus::ShortId("g0"));
    render_hunk_path_header(&id("s"), b"a\xFF", short, &mut out, &t);
    assert_eq!(out.buf, header("s", styled("g0", t.cli_id), "a\u{FFFD}", 6));
}

const COMMIT: &str = "details/00010203040506070809feff0000000000000000";

fn commit() -> ObjectId {
    let mut bytes = [0u8; 20];
    for i in 0..10 {
        bytes[i] = i as u8;
    }
    bytes[10] = 0xFE;
    bytes[11] = 0xFF;
    ObjectId { bytes }
}

fn head() -> Vec<DetailsLine> {
    let section = format!("{COMMIT}/header");
    let mut author = vec![raw("Author:    ")];
    author.extend(signature_spans("Ann", "Thu Jan 1 00:00:00 1970 +0000"));
    let mut committer = vec![raw("Committer: ")];
    committer.extend(signature_spans("Bob", "Thu Jan 1 01:00:01 1970 +0100"));
    vec![
        text(
            &section,
            vec![
                raw("Commit ID: "),
                styled("00010203040506070809feff0000000000000000", theme().commit_id),
            ],
        ),
        text(&section, author),
        text(&section, committer),
        DetailsLine::EmptyLine,
    ]
}

fn details(message: &[u8], changes: Vec<TreeChange>) -> CommitDetails {
    CommitDetails {
        author: signature(b"Ann", 0, 0),
        committer: signature(b"Bob", 1, 3600),
        message: message.to_vec(),
        changes,
    }
}

fn render(details: &CommitDetails, storage: &mut IdStorage) -> Vec<DetailsLine> {
    assert!(commit_numbers_fit(details));
    let mut ids = IdGen::new(storage, "details");
    let mut out = BufferLineWriter::default();
    render_commit(commit(), details, &theme(), &mut ids, &mut out);
    out.buf
}

#[test]
fn a_commit_without_message_and_changes_is_its_head() {
    let mut storage = IdStorage::new();
    assert_eq!(render(&details(b"", Vec::new()), &mut storage), head());
    assert_eq!(storage.len(), 4);
    for name in ["", "/header", "/message", "/tree_changes"] {
        assert!(storage.contains(&format!("{COMMIT}{name}")));
    }
}

#[test]
fn a_message_is_shown_lossily() {
    let mut storage = IdStorage::new();
    let mut expected = head();
    expected.push(DetailsLine::TextToWrap {
        id: id(&format!("{COMMIT}/message")),
        text: "Fix\n\nit\u{FFFD}".to_owned(),
    });
    expected.push(DetailsLine::EmptyLine);
    assert_eq!(render(&details(b"Fix\n\nit\xFF", Vec::new()), &mut storage), expected);
}

#[test]
fn changes_are_shown_by_kind() {
    let t = theme();
    let error = ReadError { message: "gone".to_owned() };
    let changes = vec![
        change("lost", TreeStatus::Addition, Err(error)),
        change("sub", TreeStatus::Addition, Ok(None)),
        change("a.bin", TreeStatus::Deletion, Ok(Some(UnifiedPatch::Binary))),
        change(
            "b.txt",
            TreeStatus::Rename,
            Ok(Some(UnifiedPatch::TooLarge { size_in_bytes: 1234567890123 })),
        ),
        change(
            "c.rs",
            TreeStatus::Modification,
            patch(vec![hunk(1, 1, b"@@\n+x\n"), hunk(9, 10, b"@@\n")]),
        ),
    ];
    let mut expected = head();
    let files = format!("{COMMIT}/tree_changes");
    let binary = format!("{files}/2/binary");
    expected.extend(header(&binary, styled("deleted", t.deletion), "a.bin", 14));
    expected.push(text(&binary, vec![raw("Binary file - no diff available")]));
    expected.push(DetailsLine::EmptyLine);
    let large = format!("{files}/3/too_large");
    expected.extend(header(&large, styled("renamed", t.renaming), "b.txt", 14));
    expected.push(text(
        &large,
        vec![raw("File too large (1234567890123 bytes) - no diff available")],
    ));
    expected.push(DetailsLine::EmptyLine);
    let first = format!("{files}/4/hunks/0");
    expected.extend(header(&first, styled("modified", t.modification), "c.rs", 14));
    expected.push(text(&first, vec![styled("@@", t.hint)]));
    expected.push(DetailsLine::Text {
        id: id(&first),
        line: Line { spans: vec![raw("─"), raw("─")], style: t.border },
    });
    expected.push(DetailsLine::RawCode {
        id: id(&first),
        line_numbers: vec![
            raw(" "),
            styled(" ┊ ", t.border),
            raw(""),
            styled("1", t.addition),
            styled(" │ ", t.border),
            styled("+", t.addition_rich),
        ],
        code: "x".to_owned(),
        path: Arc::new(b"c.rs".to_vec()),
        highlighted_line: None,
        bg: Some(Color::Green),
    });
    expected.push(DetailsLine::EmptyLine);
    let second = format!("{files}/4/hunks/1");
    expected.push(text(&second, vec![styled("@@", t.hint)]));
    expected.push(DetailsLine::Text {
        id: id(&second),
        line: Line { spans: vec![raw("─"), raw("─")], style: t.border },
    });
    expected.push(DetailsLine::EmptyLine);

    let mut storage = IdStorage::new();
    assert_eq!(render(&details(b"", changes), &mut storage), expected);
    assert_eq!(storage.len(), 4 + 5 + 2 + 3);
    for name in ["0", "1", "2", "3", "4", "2/binary", "3/too_large", "4/hunks", "4/hunks/1"] {
        assert!(storage.contains(&format!("{files}/{name}")));
    }
}

#[test]
fn every_line_has_an_id_that_was_handed_out() {
    let changes = vec![
        change("a", TreeStatus::Addition, patch(vec![hunk(0, 1, b"@@\n+x\n+y\n")])),
        change("b", TreeStatus::Addition, Ok(Some(UnifiedPatch::Binary))),
    ];
    let mut storage = IdStorage::new();
    for line in render(&details(b"m", changes), &mut storage) {
        match line {
            DetailsLine::Text { id, .. }
            | DetailsLine::TextToWrap { id, .. }
            | DetailsLine::RawCode { id, .. } => assert!(storage.contains(&id.0)),
            DetailsLine::EmptyLine => {}
        }
    }
}

#[test]
fn a_commit_with_a_number_out_of_range_is_told() {
    let good = change("a", TreeStatus::Addition, patch(vec![hunk(0, 1, b"@@\n+x\n")]));
    let bad = change(
        "b",
        TreeStatus::Addition,
        patch(vec![hunk(0, 1, b"@@\n"), hunk(0, u32::MAX, b"@@\n+x\n")]),
    );
    assert!(!commit_numbers_fit(&details(b"", vec![good, bad])));
}
