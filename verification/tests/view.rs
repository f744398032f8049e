use details::cli_id::CliId;
use details::details::{Details2, DetailsMessage, Draw, Rect, UpdateStep, Widget};
use details::git::{
    CommitDetails, DiffHunk, ObjectId, ReadError, Signature, Time, TreeChange, TreeStatus,
    UnifiedPatch,
};
use details::highlight::LONGEST_HIGHLIGHTED;
use details::text::{Color, Style};
use details::theme::Theme;

fn theme() -> &'static Theme {
    let style = Style::default();
    Box::leak(Box::new(Theme {
        commit_id: style,
        user: style,
        time: style,
        cli_id: style,
        addition: style,
        deletion: style,
        modification: style,
        renaming: style,
        border: style,
        hint: style,
        addition_rich: style.bg(Color::Green),
        deletion_rich: style.bg(Color::Red),
    }))
}

fn view() -> Details2 {
    let themes = syntect::highlighting::ThemeSet::load_defaults();
    let mut view = Details2::new(theme());
    assert!(!view.has_syntax_theme());
    view.set_syntax_theme(themes.themes["base16-ocean.dark"].clone());
    assert!(view.has_syntax_theme());
    view
}

fn object(n: u8) -> ObjectId {
    ObjectId { bytes: [n; 20] }
}

fn commit(n: u8) -> CliId {
    CliId::Commit { commit_id: object(n), id: "c".to_owned() }
}

fn details(message: &str) -> CommitDetails {
    changed(message, b"src/main.rs", b"@@ -1 +1,2 @@\n fn main() {}\n+let x = 1;\n")
}

fn changed(message: &str, path: &[u8], diff: &[u8]) -> CommitDetails {
    let time = Time { seconds: 0, offset: 0 };
    let hunk = DiffHunk {
        old_start: 1,
        old_lines: 1,
        new_start: 1,
        new_lines: 2,
        diff: diff.to_vec(),
    };
    CommitDetails {
        author: Signature { name: b"A".to_vec(), email: b"a".to_vec(), time },
        committer: Signature { name: b"A".to_vec(), email: b"a".to_vec(), time },
        message: message.as_bytes().to_vec(),
        changes: vec![TreeChange {
            path: path.to_vec(),
            path_bytes: path.to_vec(),
            status: TreeStatus::Modification,
            patch: Ok(Some(UnifiedPatch::Patch {
                hunks: vec![hunk],
                is_result_of_binary_to_text_conversion: false,
                lines_added: 1,
                lines_removed: 0,
            })),
        }],
    }
}

fn area(height: u16) -> Rect {
    Rect { x: 2, y: 5, width: 40, height }
}

fn draw(view: &mut Details2, area: Rect) -> Vec<Draw> {
    assert!(view.rows_fit(area));
    assert!(view.lines_fit(area));
    view.render(false, true, area)
}

fn show(view: &mut Details2, n: u8) {
    assert_eq!(view.update(Some(&commit(n))), UpdateStep::LoadCommit(object(n)));
    let loaded: Result<CommitDetails, ReadError> = Ok(details("Message"));
    assert_eq!(view.commit_loaded(object(n), loaded), Ok(true));
}

#[test]
fn an_empty_view_clears_its_area() {
    let mut view = view();
    let draws = draw(&mut view, area(3));
    assert_eq!(draws, vec![Draw { area: area(3), widget: Widget::Text(String::new()) }]);
}

#[test]
fn only_a_new_selection_counts() {
    let mut view = view();
    assert_eq!(view.update(None), UpdateStep::Unchanged);
    let branch = CliId::Branch { id: "b".to_owned() };
    assert_eq!(view.update(Some(&branch)), UpdateStep::Cleared);
    assert_eq!(view.update(Some(&branch)), UpdateStep::Unchanged);
    assert_eq!(view.update(None), UpdateStep::Unchanged);
    let stack = CliId::Stack { id: "b".to_owned() };
    assert_eq!(view.update(Some(&stack)), UpdateStep::Cleared);
    assert_eq!(view.update(Some(&branch)), UpdateStep::Cleared);
}

#[test]
fn every_kind_but_a_commit_clears() {
    let kinds = [
        CliId::UncommittedHunkOrFile { id: "a".to_owned() },
        CliId::PathPrefix { id: "a".to_owned() },
        CliId::CommittedFile { id: "a".to_owned() },
        CliId::Branch { id: "a".to_owned() },
        CliId::Uncommitted { id: "a".to_owned() },
        CliId::Stack { id: "a".to_owned() },
    ];
    for kind in &kinds {
        let mut view = view();
        show(&mut view, 1);
        assert_eq!(view.update(Some(kind)).changed(), Some(true));
        assert_eq!(draw(&mut view, area(3)).len(), 1);
    }
}

#[test]
fn steps_tell_whether_the_view_changed() {
    assert_eq!(UpdateStep::Unchanged.changed(), Some(false));
    assert_eq!(UpdateStep::Cleared.changed(), Some(true));
    assert_eq!(UpdateStep::LoadCommit(object(1)).changed(), None);
}

#[test]
fn entities_are_equal_field_by_field() {
    assert!(commit(1) == commit(1));
    assert!(commit(1) != commit(2));
    assert!(commit(1) != CliId::Commit { commit_id: object(1), id: "d".to_owned() });
    assert!(CliId::Stack { id: "a".to_owned() } != CliId::Branch { id: "a".to_owned() });
    assert!(commit(3).clone() == commit(3));
}

#[test]
fn a_commit_that_cannot_be_read_leaves_the_lines_and_is_not_read_again() {
    let mut view = view();
    show(&mut view, 1);
    let before = draw(&mut view, area(50));
    assert_eq!(view.update(Some(&commit(2))), UpdateStep::LoadCommit(object(2)));
    let error = ReadError { message: "gone".to_owned() };
    let lost: Result<CommitDetails, ReadError> = Err(error);
    assert_eq!(
        view.commit_loaded(object(2), lost),
        Err(ReadError { message: "gone".to_owned() }),
    );
    assert_eq!(draw(&mut view, area(50)), before);
    assert_eq!(view.update(Some(&commit(2))), UpdateStep::Unchanged);
}

#[test]
fn rows_are_drawn_one_below_the_other() {
    let mut view = view();
    show(&mut view, 1);
    let all = draw(&mut view, area(50));
    assert_eq!(all.len(), 15);
    for (n, draw) in all.iter().enumerate() {
        assert_eq!(draw.area, Rect { x: 2, y: 5 + n as u16, width: 40, height: 1 });
    }
    assert_eq!(all[3].widget, Widget::Text(String::new()));
    assert_eq!(all[4].widget, Widget::Text("Message".to_owned()));
    let few = draw(&mut view, area(4));
    assert_eq!(few.len(), 4);
    assert_eq!(draw(&mut view, area(0)), Vec::new());
}

#[test]
fn source_code_is_highlighted_when_drawn() {
    let mut view = view();
    show(&mut view, 1);
    let draws = draw(&mut view, area(50));
    match &draws[13].widget {
        Widget::Line(line) => {
            let text: String = line.spans.iter().map(|s| s.content.as_str()).collect();
            assert_eq!(text, "  ┊ 2 │ +let x = 1;");
            assert!(line.spans.len() > 7);
            for span in &line.spans[6..] {
                assert_eq!(span.style.bg, Some(Color::Green));
                assert!(matches!(span.style.fg, Some(Color::Rgb(_, _, _))));
            }
        }
        _ => panic!("a line"),
    }
}

#[test]
fn drawing_twice_gives_the_same_picture() {
    let mut view = view();
    show(&mut view, 1);
    let few = draw(&mut view, area(13));
    let all = draw(&mut view, area(50));
    assert_eq!(few[..], all[..13]);
    assert_eq!(draw(&mut view, area(50)), all);
}

#[test]
fn rows_beyond_the_last_number_are_told() {
    let mut view = view();
    let low = Rect { x: 0, y: u16::MAX, width: 1, height: 9 };
    assert!(view.rows_fit(low));
    show(&mut view, 1);
    assert!(!view.rows_fit(low));
    assert!(view.rows_fit(Rect { x: 0, y: u16::MAX, width: 1, height: 1 }));
    assert!(view.rows_fit(Rect { x: 0, y: u16::MAX - 14, width: 1, height: 99 }));
    assert!(!view.rows_fit(Rect { x: 0, y: u16::MAX - 13, width: 1, height: 99 }));
}

#[test]
fn requests_change_nothing() {
    let mut view = view();
    show(&mut view, 1);
    let before = draw(&mut view, area(50));
    let mut messages: Vec<u8> = vec![1];
    for msg in [
        DetailsMessage::ScrollUp(1),
        DetailsMessage::ScrollDown(1),
        DetailsMessage::SelectNextSection,
        DetailsMessage::SelectPrevSection,
        DetailsMessage::Deselect,
        DetailsMessage::SelectFirstSection,
        DetailsMessage::CopyCurrentHunk,
        DetailsMessage::GotoTop,
        DetailsMessage::GotoBottom,
        DetailsMessage::StartRub,
        DetailsMessage::Unlock,
    ] {
        assert_eq!(view.try_handle_message(msg, area(50), &mut messages), Ok(()));
    }
    assert_eq!(messages, vec![1]);
    assert_eq!(draw(&mut view, area(50)), before);
}

#[test]
fn the_first_colors_stay() {
    let themes = syntect::highlighting::ThemeSet::load_defaults();
    let mut first = view();
    show(&mut first, 1);
    let mut second = view();
    second.set_syntax_theme(themes.themes["InspiredGitHub"].clone());
    show(&mut second, 1);
    let mut other = Details2::new(theme());
    other.set_syntax_theme(themes.themes["InspiredGitHub"].clone());
    show(&mut other, 1);
    let picture = draw(&mut first, area(50));
    assert_eq!(draw(&mut second, area(50)), picture);
    assert_ne!(draw(&mut other, area(50)), picture);
}

#[test]
fn lines_too_long_to_be_drawn_are_told() {
    let code = "x".repeat(LONGEST_HIGHLIGHTED + 1);
    let diff = format!("@@\n+{code}\n");
    for (path, fits) in [("a.rs", false), ("a.txt", true)] {
        let mut view = view();
        view.update(Some(&commit(1)));
        let loaded: Result<CommitDetails, ReadError> =
            Ok(changed("", path.as_bytes(), diff.as_bytes()));
        assert_eq!(view.commit_loaded(object(1), loaded), Ok(true));
        assert_eq!(view.lines_fit(area(50)), fits);
        assert_eq!(draw(&mut view, area(10)).len(), 10);
        if fits {
            let draws = draw(&mut view, area(50));
            match &draws[10].widget {
                Widget::Line(line) => {
                    let text: String = line.spans.iter().map(|s| s.content.as_str()).collect();
                    assert!(text.ends_with(&code));
                    assert!(line.spans[6..].iter().all(|s| s.style.bg == Some(Color::Green)));
                    assert!(line.spans[6..].iter().all(|s| s.style.fg.is_some()));
                }
                _ => panic!("a line"),
            }
        }
    }
}
