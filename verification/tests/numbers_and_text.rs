use details::digits::{decimal_text, num_digits};
use details::git::ObjectId;
use details::ids::{IdGen, IdStorage, SectionId};
use details::text::{clone_spans, spaces_text, Color, Line, Span, Style};

#[test]
fn digits_of_small_and_large_numbers() {
    assert_eq!(num_digits(0), 1);
    assert_eq!(num_digits(9), 1);
    assert_eq!(num_digits(10), 2);
    assert_eq!(num_digits(99), 2);
    assert_eq!(num_digits(100), 3);
    assert_eq!(num_digits(999_999_999), 9);
    assert_eq!(num_digits(1_000_000_000), 10);
    assert_eq!(num_digits(u32::MAX), 10);
}

#[test]
fn decimal_notation_is_that_of_the_standard_library() {
    for n in [0u64, 7, 10, 42, 100, 1009, 4_294_967_295, u64::MAX] {
        assert_eq!(decimal_text(n), n.to_string());
    }
    for n in 0u32..2000 {
        assert_eq!(decimal_text(n as u64).len(), num_digits(n) as usize);
    }
}

#[test]
fn spaces_are_counted() {
    assert_eq!(spaces_text(0), "");
    assert_eq!(spaces_text(3), "   ");
}

#[test]
fn widths_count_columns() {
    let ascii = Line::from_spans(vec![Span::raw("abc".to_owned()), Span::raw(" d".to_owned())]);
    assert_eq!(ascii.width(), 5);
    let wide = Line::from_spans(vec![Span::raw("日本".to_owned()), Span::raw("x".to_owned())]);
    assert_eq!(wide.width(), 5);
    assert_eq!(Line::from_spans(Vec::new()).width(), 0);
    let strokes = Line::from_spans(vec![Span::raw(" ─│┊╮╯".to_owned())]);
    assert_eq!(strokes.width(), 6);
    let printable: String = (' '..='~').chain("┊─╯│╮".chars()).collect();
    assert_eq!(Line::from_spans(vec![Span::raw(printable)]).width(), 95 + 5);
}

#[test]
fn styles_are_set_one_field_at_a_time() {
    let style = Style::default().fg(Color::Rgb(1, 2, 3)).bg(Color::Red);
    assert_eq!(style.fg, Some(Color::Rgb(1, 2, 3)));
    assert_eq!(style.bg, Some(Color::Red));
    assert_eq!(style.underline_color, None);
    assert_eq!(style.add_modifier, 0);
    let line = Line::from_spans(vec![Span::styled("a".to_owned(), style)]).style(style);
    assert_eq!(line.style, style);
    assert_eq!(line.clone(), line);
    assert_eq!(clone_spans(&line.spans), line.spans);
}

#[test]
fn ids_are_paths_and_are_kept_once() {
    let mut storage = IdStorage::new();
    {
        let mut ids = IdGen::new(&mut storage, "details");
        assert_eq!(ids.new_id("header"), SectionId("details/header".to_owned()));
        assert_eq!(ids.new_id("header"), SectionId("details/header".to_owned()));
        let mut inner = ids.scoped("abc");
        assert_eq!(inner.new_id("0"), SectionId("details/abc/0".to_owned()));
        let mut innermost = inner.scoped("x");
        assert_eq!(innermost.new_id("1"), SectionId("details/abc/x/1".to_owned()));
        assert_eq!(ids.get_or_alloc("other".to_owned()), "other");
        assert_eq!(ids.scope, "details");
    }
    assert_eq!(storage.len(), 6);
    for path in [
        "details/header",
        "details/abc",
        "details/abc/0",
        "details/abc/x",
        "details/abc/x/1",
        "other",
    ] {
        assert!(storage.contains(path));
    }
    assert!(!storage.contains("details"));
}

#[test]
fn object_ids_are_compared_byte_by_byte() {
    let a = ObjectId { bytes: [7; 20] };
    let mut b = a;
    assert!(a.same(&b));
    b.bytes[19] = 8;
    assert!(!a.same(&b));
}
