use details::highlight::{
    choose_syntax, code_fits, color_ranges, draw_code, line_fits, syntax_for_path,
    syntax_highlight, HighlightedRange, LONGEST_HIGHLIGHTED,
};
use details::text::{Color, Span, Style};
use syntect::highlighting::{Theme, ThemeSet};
use syntect::parsing::SyntaxSet;

fn theme() -> Theme {
    ThemeSet::load_defaults().themes["base16-ocean.dark"].clone()
}

fn name(set: &SyntaxSet, path: &[u8]) -> String {
    syntax_for_path(set, path).name.clone()
}

#[test]
fn grammars_are_found_by_extension_then_by_name() {
    let set = SyntaxSet::load_defaults_newlines();
    assert_eq!(name(&set, b"src/main.rs"), "Rust");
    assert_eq!(name(&set, b"SRC/MAIN.RS"), "Rust");
    assert_eq!(name(&set, b"Makefile"), "Makefile");
    assert_eq!(name(&set, b"sub/Makefile"), "Makefile");
    assert_eq!(name(&set, b".bashrc"), "Bourne Again Shell (bash)");
    assert_eq!(name(&set, b"a.tar.py"), "Python");
    assert_eq!(name(&set, b"unknown.zzz"), "Plain Text");
    assert_eq!(name(&set, b""), "Plain Text");
    assert_eq!(name(&set, b"dir/.."), "Plain Text");
    assert_eq!(name(&set, b"x.r\xFF"), "Plain Text");
    assert_eq!(name(&set, b"/src/main.rs"), "Rust");
    assert_eq!(name(&set, b"/Makefile"), "Makefile");
    assert_eq!(name(&set, b"dir/a:b.rs"), "Rust");
    assert_eq!(name(&set, b"\xFF/main.rs"), "Rust");
    assert_eq!(name(&set, b"\xFF/Makefile"), "Makefile");
    assert_eq!(name(&set, b"\xFF.rs"), "Rust");
    assert_eq!(name(&set, b"main.rs/"), "Rust");
    assert_eq!(name(&set, b"a:b.rs"), "Rust");
    assert_eq!(name(&set, b"c:\\dir\\b.rs"), "Rust");
    assert_eq!(name(&set, b"dir\\b.rs"), "Rust");
    assert_eq!(name(&set, b"c:/dir/Makefile"), "Makefile");
    assert_eq!(name(&set, b"main.rs/.//"), "Rust");
    assert_eq!(name(&set, b"main.rs/.."), "Plain Text");
    assert_eq!(name(&set, b"/"), "Plain Text");
    assert_eq!(name(&set, b"."), "Plain Text");
    assert_eq!(name(&set, b"main.rs/."), "Rust");
    assert_eq!(name(&set, b"rs."), "Plain Text");
}

#[test]
fn the_extension_goes_before_the_name() {
    let set = SyntaxSet::load_defaults_newlines();
    let some = |text: &str| Some(text.to_owned());
    assert_eq!(choose_syntax(&set, &some("rs"), &some("Makefile")).name, "Rust");
    assert_eq!(choose_syntax(&set, &some("zzz"), &some("Makefile")).name, "Makefile");
    assert_eq!(choose_syntax(&set, &None, &some("Makefile")).name, "Makefile");
    assert_eq!(choose_syntax(&set, &None, &some("zzz")).name, "Plain Text");
    assert_eq!(choose_syntax(&set, &None, &None).name, "Plain Text");
}

#[test]
fn pieces_are_colored_on_the_background() {
    let piece = |text: &str, r: u8| HighlightedRange { r, g: 2, b: 3, text: text.to_owned() };
    let spans = color_ranges("ab", None, Some(vec![piece("a", 1), piece("b", 9)]));
    assert_eq!(
        spans,
        vec![
            Span::styled("a".to_owned(), Style::default().fg(Color::Rgb(1, 2, 3))),
            Span::styled("b".to_owned(), Style::default().fg(Color::Rgb(9, 2, 3))),
        ],
    );
    let spans = color_ranges("a", Some(Color::Red), Some(vec![piece("a", 1)]));
    assert_eq!(
        spans,
        vec![Span::styled(
            "a".to_owned(),
            Style::default().fg(Color::Rgb(1, 2, 3)).bg(Color::Red),
        )],
    );
}

#[test]
fn code_that_cannot_be_parsed_is_shown_as_it_is() {
    let spans = color_ranges("a b", Some(Color::Red), None);
    assert_eq!(spans, vec![Span::raw("a b".to_owned())]);
}

#[test]
fn highlighting_keeps_the_text() {
    let set = SyntaxSet::load_defaults_newlines();
    let theme = theme();
    for (path, code) in [
        ("a.rs", "fn main() { let s = \"x\"; } // é"),
        ("a.py", "def f(x): return x + 1"),
        ("a.html", "<a href='x'>y</a>"),
        ("a.md", "# Title *b*"),
        ("a.txt", "plain"),
        ("a.rs", ""),
        ("a.rs", "\"unterminated"),
        ("a.js", "/* open"),
        ("Makefile", "all: a\tb"),
    ] {
        let syntax = syntax_for_path(&set, path.as_bytes());
        let spans = syntax_highlight(code, None, syntax, &theme, &set);
        let text: String = spans.iter().map(|s| s.content.as_str()).collect();
        assert_eq!(text, code);
    }
}

#[test]
fn colors_are_those_of_the_highlighter() {
    let set = SyntaxSet::load_defaults_newlines();
    let theme = theme();
    let syntax = syntax_for_path(&set, b"a.rs");
    let spans = syntax_highlight("let x", None, syntax, &theme, &set);
    let mut lines = syntect::easy::HighlightLines::new(syntax, &theme);
    let expected: Vec<Span> = lines
        .highlight_line("let x", &set)
        .unwrap()
        .into_iter()
        .map(|(style, text)| {
            let c = style.foreground;
            Span::styled(text.to_owned(), Style::default().fg(Color::Rgb(c.r, c.g, c.b)))
        })
        .collect();
    assert_eq!(spans, expected);
    assert!(spans.len() > 1);
}

#[test]
fn a_drawn_line_begins_with_its_numbers() {
    let set = SyntaxSet::load_defaults_newlines();
    let numbers = vec![Span::raw("1 ".to_owned()), Span::raw("+".to_owned())];
    let line = draw_code(&set, &theme(), &numbers, "let x", b"a.rs", Some(Color::Red));
    assert_eq!(line.spans[..2], numbers[..]);
    let text: String = line.spans.iter().map(|s| s.content.as_str()).collect();
    assert_eq!(text, "1 +let x");
    assert_eq!(line.style, Style::default());
}

#[test]
fn any_line_of_plain_text_is_highlighted() {
    let set = SyntaxSet::load_defaults_newlines();
    let theme = theme();
    let syntax = syntax_for_path(&set, b"a.txt");
    let code = "é".repeat(LONGEST_HIGHLIGHTED);
    assert!(code_fits(syntax, &code));
    let spans = syntax_highlight(&code, Some(Color::Red), syntax, &theme, &set);
    assert!(spans.iter().all(|s| matches!(s.style.fg, Some(Color::Rgb(_, _, _)))));
    assert!(spans.iter().all(|s| s.style.bg == Some(Color::Red)));
    let text: String = spans.iter().map(|s| s.content.as_str()).collect();
    assert_eq!(text, code);
}

#[test]
fn a_long_start_of_a_string_is_highlighted() {
    let set = SyntaxSet::load_defaults_newlines();
    let theme = theme();
    let lua = format!("[{}[ text", "=".repeat(LONGEST_HIGHLIGHTED - 7));
    let ruby = format!("<<~A{} + b", "\u{10400}".repeat(LONGEST_HIGHLIGHTED / 4 - 2));
    for (path, code) in [("a.lua", lua), ("a.rb", ruby)] {
        assert_eq!(code.len(), LONGEST_HIGHLIGHTED);
        let syntax = syntax_for_path(&set, path.as_bytes());
        assert!(code_fits(syntax, &code));
        let spans = syntax_highlight(&code, Some(Color::Red), syntax, &theme, &set);
        let text: String = spans.iter().map(|s| s.content.as_str()).collect();
        assert_eq!(text, code);
        assert!(spans.iter().all(|s| s.style.fg.is_some() && s.style.bg == Some(Color::Red)));
    }
}

#[test]
fn lines_that_are_too_long_are_told() {
    let set = SyntaxSet::load_defaults_newlines();
    let longest = "=".repeat(LONGEST_HIGHLIGHTED);
    let longer = format!("{longest}=");
    let lua = syntax_for_path(&set, b"a.lua");
    assert!(code_fits(lua, &longest));
    assert!(!code_fits(lua, &longer));
    assert!(!code_fits(lua, &"é".repeat(LONGEST_HIGHLIGHTED / 2 + 1)));
    assert!(code_fits(syntax_for_path(&set, b"unknown"), &longer));

    assert!(line_fits(&set, b"a.lua", &longest));
    assert!(!line_fits(&set, b"a.lua", &longer));
    assert!(line_fits(&set, b"dir/a.txt", &longer));
    assert!(line_fits(&set, b"dir/unknown", &longer));
    assert!(line_fits(&set, b"/\xC3\xA9", &longer));
    for path in [&b"dir\\a.txt"[..], b"c:a.txt", b"//a/b/c.txt", b"\xFF.txt"] {
        assert!(line_fits(&set, path, &longest));
        assert!(!line_fits(&set, path, &longer));
    }
}
