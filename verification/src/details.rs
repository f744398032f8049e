//! The details view: what is selected, the lines that show it, and what of them is drawn.

use crate::cli_id::{CliId, CliIdView};
use crate::git::{CommitDetails, ObjectId};
use crate::highlight::{
    bundled, draw_code, drawable, is_drawing, line_fits, plain_text, LONGEST_HIGHLIGHTED,
};
use crate::ids::{IdGen, IdStorage, SectionId};
use crate::lines::{lines_view, BufferLineWriter, DetailsLine, DetailsLineView};
use crate::rendering::{
    changes_fit, commit_lines, commit_paths, law_commit_undrawn, render_commit,
};
use crate::sections::{identified_by, law_lines_are_identified, line_id};
use crate::text::{spans_text, Line, LineView};
use crate::theme::Theme;
use syntect::highlighting::Theme as SyntaxTheme;
use syntect::parsing::SyntaxSet;
use vstd::prelude::*;
use vstd::utf8::encode_utf8;

verus! {

/// An area of the terminal.
#[derive(Clone, Copy, Debug, PartialEq, Eq)]
pub struct Rect {
    pub x: u16,
    pub y: u16,
    pub width: u16,
    pub height: u16,
}

/// What is drawn in an area.
#[derive(Debug, PartialEq, Eq)]
pub enum Widget {
    Line(Line),
    Text(String),
}

/// The model of a [`Widget`].
pub enum WidgetView {
    Line(LineView),
    Text(Seq<char>),
}

impl View for Widget {
    type V = WidgetView;

    open spec fn view(&self) -> WidgetView {
        match self {
            Widget::Line(line) => WidgetView::Line(line@),
            Widget::Text(text) => WidgetView::Text(text@),
        }
    }
}

/// Something to draw, and where.
#[derive(Debug, PartialEq, Eq)]
pub struct Draw {
    pub area: Rect,
    pub widget: Widget,
}

/// The model of a [`Draw`].
pub struct DrawView {
    pub area: Rect,
    pub widget: WidgetView,
}

impl View for Draw {
    type V = DrawView;

    open spec fn view(&self) -> DrawView {
        DrawView { area: self.area, widget: self.widget@ }
    }
}

/// The models of what is to be drawn.
pub open spec fn draws_view(draws: Seq<Draw>) -> Seq<DrawView> {
    Seq::new(draws.len(), |i: int| draws[i]@)
}

/// A request to the details view.
#[derive(Clone, Copy, Debug, PartialEq, Eq)]
pub enum DetailsMessage {
    ScrollUp(usize),
    ScrollDown(usize),
    SelectNextSection,
    SelectPrevSection,
    Deselect,
    SelectFirstSection,
    CopyCurrentHunk,
    GotoTop,
    GotoBottom,
    StartRub,
    Unlock,
}

/// Why a request was not carried out.
#[derive(Debug, PartialEq, Eq)]
pub struct MessageError {
    pub message: String,
}

/// What has to be done after an update of the selection.
#[derive(Clone, Copy, Debug, PartialEq, Eq)]
pub enum UpdateStep {
    /// Nothing; the view is as it was.
    Unchanged,
    /// Nothing; the view was emptied.
    Cleared,
    /// The commit has to be read and handed to [`Details2::commit_loaded`].
    LoadCommit(ObjectId),
}

/// The model of an [`UpdateStep`].
pub enum StepView {
    Unchanged,
    Cleared,
    LoadCommit(Seq<u8>),
}

impl View for UpdateStep {
    type V = StepView;

    open spec fn view(&self) -> StepView {
        match self {
            UpdateStep::Unchanged => StepView::Unchanged,
            UpdateStep::Cleared => StepView::Cleared,
            UpdateStep::LoadCommit(id) => StepView::LoadCommit(id@),
        }
    }
}

/// Whether the view changed, as far as a step tells it: that of a commit is known once the
/// commit was read.
pub open spec fn step_changed(step: StepView) -> Option<bool> {
    match step {
        StepView::Unchanged => Some(false),
        StepView::Cleared => Some(true),
        StepView::LoadCommit(_) => None,
    }
}

impl UpdateStep {
    /// Whether the view changed; nothing as long as a commit has to be read.
    pub fn changed(&self) -> (r: Option<bool>)
        ensures
            r == step_changed(self@),
    {
        match self {
            UpdateStep::Unchanged => Some(false),
            UpdateStep::Cleared => Some(true),
            UpdateStep::LoadCommit(_) => None,
        }
    }
}

/// The details view.
pub struct Details2 {
    theme: &'static Theme,
    selection: Option<CliId>,
    lines: Option<Vec<DetailsLine>>,
    syntax_set: Option<SyntaxSet>,
    syntax_theme: Option<SyntaxTheme>,
    id_storage: IdStorage,
    selected_section: Option<SectionId>,
}

/// The model of the details view.
pub struct DetailsView {
    /// The styles it is drawn in.
    pub theme: Theme,
    /// What was selected last.
    pub selection: Option<CliIdView>,
    /// The lines that show the selection, if it can be shown.
    pub lines: Option<Seq<DetailsLineView>>,
    /// The grammars, once they are loaded.
    pub syntax_set: Option<SyntaxSet>,
    /// The colors of source code, once they are known.
    pub syntax_theme: Option<SyntaxTheme>,
    /// The paths that were handed out as identifiers.
    pub ids: Set<Seq<char>>,
    /// The section that is selected, if there is one.
    pub selected_section: Option<Seq<char>>,
}

impl View for Details2 {
    type V = DetailsView;

    closed spec fn view(&self) -> DetailsView {
        DetailsView {
            theme: *self.theme,
            selection: match self.selection {
                Some(selection) => Some(selection@),
                None => None,
            },
            lines: match self.lines {
                Some(lines) => Some(lines_view(lines@)),
                None => None,
            },
            syntax_set: self.syntax_set,
            syntax_theme: self.syntax_theme,
            ids: self.id_storage@,
            selected_section: match self.selected_section {
                Some(id) => Some(id@),
                None => None,
            },
        }
    }
}

/// True of a line whose kept drawing, if there is one, is what the line is drawn as.
pub open spec fn cache_coherent(
    set: Option<SyntaxSet>,
    theme: Option<SyntaxTheme>,
    line: DetailsLineView,
) -> bool {
    match line {
        DetailsLineView::RawCode {
            line_numbers,
            code,
            path,
            highlighted_line: Some(drawn),
            bg,
            ..
        } => set is Some && theme is Some && is_drawing(
            set->0,
            theme->0,
            line_numbers,
            code,
            path,
            bg,
            drawn,
        ),
        _ => true,
    }
}

impl DetailsView {
    /// What always holds of a details view: its grammars are those that come with the
    /// highlighter, every kept drawing is what its line is drawn as, and every identifier on
    /// a line was handed out.
    pub open spec fn wf(self) -> bool {
        &&& self.syntax_set matches Some(set) ==> bundled(set) && plain_text(set) is Some
        &&& self.lines matches Some(lines) ==> forall|i: int|
            0 <= i < lines.len() ==> cache_coherent(
                self.syntax_set,
                self.syntax_theme,
                #[trigger] lines[i],
            )
        &&& self.lines matches Some(lines) ==> identified_by(lines, self.ids)
    }
}

/// True if `new` is a selection that differs from `old`.
pub open spec fn is_news(old: Option<CliIdView>, new: Option<CliIdView>) -> bool {
    new is Some && new != old
}

/// The view after an update of the selection, and what has to be done. Only a selection that
/// differs from the last one counts. A commit has to be read before its lines can be made, and
/// until then the lines stay; anything else empties the view.
pub open spec fn select(view: DetailsView, selection: Option<CliIdView>) -> (
    DetailsView,
    StepView,
) {
    if !is_news(view.selection, selection) {
        (view, StepView::Unchanged)
    } else {
        match selection {
            Some(CliIdView::Commit { commit_id, .. }) => (
                DetailsView { selection, ..view },
                StepView::LoadCommit(commit_id),
            ),
            _ => (DetailsView { selection, lines: None, ..view }, StepView::Cleared),
        }
    }
}

/// The view after a commit was read.
pub open spec fn load(view: DetailsView, commit: Seq<u8>, details: CommitDetails) -> DetailsView {
    DetailsView {
        lines: Some(commit_lines("details"@, commit, details, view.theme)),
        ids: view.ids.union(commit_paths("details"@, commit, details)),
        ..view
    }
}

/// The view after the colors of source code were given. The first ones given stay.
pub open spec fn color_with(view: DetailsView, syntax_theme: SyntaxTheme) -> DetailsView {
    if view.syntax_theme is Some {
        view
    } else {
        DetailsView { syntax_theme: Some(syntax_theme), ..view }
    }
}

/// The number of lines that fit in `area`.
pub open spec fn rows(count: nat, area: Rect) -> nat {
    if count <= area.height {
        count
    } else {
        area.height as nat
    }
}

/// True if every row that is drawn in `area` has a number that fits in 16 bits.
pub open spec fn rows_in_range(view: DetailsView, area: Rect) -> bool {
    view.lines matches Some(lines) ==> area.y + rows(lines.len(), area) <= u16::MAX + 1
}

/// True of a line that can be drawn: one that was drawn before, and source code that can be
/// highlighted. As long as no grammars are loaded, that is code that is not too long.
pub open spec fn line_drawable(set: Option<SyntaxSet>, line: DetailsLineView) -> bool {
    match line {
        DetailsLineView::RawCode { code, path, highlighted_line: None, .. } => match set {
            Some(set) => drawable(set, path, code),
            None => encode_utf8(code).len() <= LONGEST_HIGHLIGHTED,
        },
        _ => true,
    }
}

/// True if every line that is drawn in `area` can be drawn.
pub open spec fn lines_drawable(view: DetailsView, area: Rect) -> bool {
    view.lines matches Some(lines) ==> forall|n: int|
        0 <= n < rows(lines.len(), area) ==> line_drawable(view.syntax_set, #[trigger] lines[n])
}

/// The row `n` of `area`.
pub open spec fn row_area(area: Rect, n: nat) -> Rect {
    Rect { x: area.x, y: (area.y + n) as u16, width: area.width, height: 1 }
}

/// What is drawn for a line whose drawing is made.
pub open spec fn widget_of(line: DetailsLineView) -> WidgetView {
    match line {
        DetailsLineView::Text { line, .. } => WidgetView::Line(line),
        DetailsLineView::TextToWrap { text, .. } => WidgetView::Text(text),
        DetailsLineView::RawCode { highlighted_line, .. } => WidgetView::Line(highlighted_line->0),
        DetailsLineView::EmptyLine => WidgetView::Text(Seq::empty()),
    }
}

/// True if `after` is `before` with its drawing made, in case there was none.
pub open spec fn prepared(
    set: SyntaxSet,
    theme: SyntaxTheme,
    before: DetailsLineView,
    after: DetailsLineView,
) -> bool {
    match before {
        DetailsLineView::RawCode {
            id,
            line_numbers,
            code,
            path,
            highlighted_line: None,
            bg,
        } => after matches DetailsLineView::RawCode { highlighted_line: Some(drawn), .. }
            && is_drawing(set, theme, line_numbers, code, path, bg, drawn) && after
            == DetailsLineView::RawCode {
            id,
            line_numbers,
            code,
            path,
            highlighted_line: Some(drawn),
            bg,
        },
        _ => after == before,
    }
}

/// True if drawing the lines `before` in `area` leaves the lines `after` and gives `draws`:
/// one row for each line that fits, in order. The drawings of these lines are made, and the
/// other lines are left alone.
pub open spec fn lines_drawn(
    set: SyntaxSet,
    theme: SyntaxTheme,
    before: Seq<DetailsLineView>,
    area: Rect,
    after: Seq<DetailsLineView>,
    draws: Seq<DrawView>,
) -> bool {
    &&& after.len() == before.len()
    &&& draws.len() == rows(before.len(), area)
    &&& forall|n: int|
        0 <= n < draws.len() ==> prepared(set, theme, #[trigger] before[n], after[n])
    &&& forall|n: int|
        0 <= n < draws.len() ==> #[trigger] draws[n] == (DrawView {
            area: row_area(area, n as nat),
            widget: widget_of(after[n]),
        })
    &&& forall|n: int| draws.len() <= n < before.len() ==> #[trigger] after[n] == before[n]
}

/// True if drawing `before` in `area` leaves `after` and gives `draws`. The grammars are loaded
/// at the first drawing. Without lines the area is cleared.
pub open spec fn drawn(
    before: DetailsView,
    area: Rect,
    after: DetailsView,
    draws: Seq<DrawView>,
) -> bool {
    &&& after.syntax_set is Some
    &&& before.syntax_set is Some ==> after.syntax_set == before.syntax_set
    &&& after == (DetailsView { syntax_set: after.syntax_set, lines: after.lines, ..before })
    &&& match before.lines {
        None => after.lines is None && draws == seq![
            DrawView { area, widget: WidgetView::Text(Seq::empty()) },
        ],
        Some(lines) => after.lines is Some && lines_drawn(
            after.syntax_set->0,
            before.syntax_theme->0,
            lines,
            area,
            after.lines->0,
            draws,
        ),
    }
}

/// Makes the drawing of `line` if there is none yet, and gives what is drawn.
fn draw_line(set: &SyntaxSet, theme: &SyntaxTheme, line: &mut DetailsLine) -> (r: Widget)
    requires
        bundled(*set),
        plain_text(*set) is Some,
        line_drawable(Some(*set), old(line)@),
    ensures
        prepared(*set, *theme, old(line)@, final(line)@),
        r@ == widget_of(final(line)@),
{
    match line {
        DetailsLine::Text { line, .. } => Widget::Line(line.clone()),
        DetailsLine::TextToWrap { text, .. } => Widget::Text(text.clone()),
        DetailsLine::RawCode { line_numbers, code, path, highlighted_line, bg, .. } => {
            match highlighted_line {
                Some(drawn) => Widget::Line(drawn.clone()),
                None => {
                    let drawn = draw_code(
                        set,
                        theme,
                        line_numbers,
                        code.as_str(),
                        path.as_slice(),
                        *bg,
                    );
                    let copy = drawn.clone();
                    *highlighted_line = Some(drawn);
                    Widget::Line(copy)
                },
            }
        },
        DetailsLine::EmptyLine => Widget::Text(String::new()),
    }
}

/// True if every line that is drawn in `area` can be drawn.
fn all_lines_fit(set: &SyntaxSet, lines: &Vec<DetailsLine>, area: Rect) -> (r: bool)
    requires
        plain_text(*set) is Some,
    ensures
        r == forall|n: int|
            0 <= n < rows(lines@.len(), area) ==> line_drawable(
                Some(*set),
                #[trigger] lines_view(lines@)[n],
            ),
{
    let ghost views = lines_view(lines@);
    let mut n: u16 = 0;
    while n < area.height && (n as usize) < lines.len()
        invariant
            plain_text(*set) is Some,
            views == lines_view(lines@),
            n <= rows(lines@.len(), area),
            forall|k: int| 0 <= k < n ==> line_drawable(Some(*set), #[trigger] views[k]),
        decreases area.height - n,
    {
        let line = &lines[n as usize];
        if let DetailsLine::RawCode { code, path, highlighted_line: None, .. } = line {
            if !line_fits(set, path.as_slice(), code.as_str()) {
                proof {
                    assert(!line_drawable(Some(*set), views[n as int]));
                }
                return false;
            }
        }
        n = n + 1;
    }
    true
}

/// Draws the lines that fit in `area`, one to a row.
fn draw_lines(
    set: &SyntaxSet,
    theme: &SyntaxTheme,
    lines: &mut Vec<DetailsLine>,
    area: Rect,
) -> (r: Vec<Draw>)
    requires
        bundled(*set),
        plain_text(*set) is Some,
        area.y + rows(old(lines)@.len(), area) <= u16::MAX + 1,
        forall|n: int|
            0 <= n < rows(old(lines)@.len(), area) ==> line_drawable(
                Some(*set),
                #[trigger] lines_view(old(lines)@)[n],
            ),
    ensures
        lines_drawn(
            *set,
            *theme,
            lines_view(old(lines)@),
            area,
            lines_view(final(lines)@),
            draws_view(r@),
        ),
{
    let ghost before = lines_view(lines@);
    let mut draws: Vec<Draw> = Vec::new();
    let mut n: u16 = 0;
    while n < area.height && (n as usize) < lines.len()
        invariant
            bundled(*set),
            plain_text(*set) is Some,
            before == lines_view(old(lines)@),
            lines@.len() == before.len(),
            n <= rows(before.len(), area),
            area.y + rows(before.len(), area) <= u16::MAX + 1,
            forall|k: int|
                0 <= k < rows(before.len(), area) ==> line_drawable(
                    Some(*set),
                    #[trigger] before[k],
                ),
            draws@.len() == n,
            forall|k: int|
                0 <= k < n ==> prepared(*set, *theme, #[trigger] before[k], lines@[k]@),
            forall|k: int|
                0 <= k < n ==> (#[trigger] draws@[k])@ == (DrawView {
                    area: row_area(area, k as nat),
                    widget: widget_of(lines@[k]@),
                }),
            forall|k: int| n <= k < before.len() ==> (#[trigger] lines@[k])@ == before[k],
        decreases area.height - n,
    {
        let y = area.y + n;
        let widget = draw_line(set, theme, &mut lines[n as usize]);
        draws.push(
            Draw { area: Rect { x: area.x, y, width: area.width, height: 1 }, widget },
        );
        n = n + 1;
    }
    proof {
        let after = lines_view(lines@);
        let shown = draws_view(draws@);
        assert(shown.len() == rows(before.len(), area));
        assert forall|k: int| 0 <= k < shown.len() implies #[trigger] shown[k] == (DrawView {
            area: row_area(area, k as nat),
            widget: widget_of(after[k]),
        }) by {
            assert(shown[k] == draws@[k]@);
        }
        assert forall|k: int| shown.len() <= k < before.len() implies #[trigger] after[k]
            == before[k] by {
            assert(after[k] == lines@[k]@);
        }
    }
    draws
}

impl Details2 {
    /// A view that shows nothing, in the styles of `theme`.
    pub fn new(theme: &'static Theme) -> (r: Details2)
        ensures
            r@ == (DetailsView {
                theme: *theme,
                selection: None,
                lines: None,
                syntax_set: None,
                syntax_theme: None,
                ids: Set::empty(),
                selected_section: None,
            }),
            r@.wf(),
    {
        Details2 {
            theme,
            selection: None,
            lines: None,
            syntax_set: None,
            syntax_theme: None,
            id_storage: IdStorage::new(),
            selected_section: None,
        }
    }

    /// Takes note of what is selected, and tells what has to be done about it.
    pub fn update(&mut self, selection: Option<&CliId>) -> (r: UpdateStep)
        ensures
            (final(self)@, r@) == select(
                old(self)@,
                match selection {
                    Some(selection) => Some(selection@),
                    None => None,
                },
            ),
            old(self)@.wf() ==> final(self)@.wf(),
    {
        let selection = match (&self.selection, selection) {
            (_, None) => {
                return UpdateStep::Unchanged;
            },
            (None, Some(new)) => new,
            (Some(old), Some(new)) => {
                if *old == *new {
                    return UpdateStep::Unchanged;
                }
                new
            },
        };
        self.selection = Some(selection.clone());
        match selection {
            CliId::Commit { commit_id, .. } => UpdateStep::LoadCommit(*commit_id),
            CliId::UncommittedHunkOrFile { .. }
            | CliId::PathPrefix { .. }
            | CliId::CommittedFile { .. }
            | CliId::Branch { .. }
            | CliId::Uncommitted { .. }
            | CliId::Stack { .. } => {
                self.lines = None;
                UpdateStep::Cleared
            },
        }
    }

    /// Takes what reading `commit` gave. The lines of a commit that was read take the place of
    /// those shown so far; an error is handed on, and the view stays as it is.
    pub fn commit_loaded<E>(
        &mut self,
        commit: ObjectId,
        loaded: Result<CommitDetails, E>,
    ) -> (r: Result<bool, E>)
        requires
            loaded matches Ok(details) ==> changes_fit(details.changes@),
        ensures
            match loaded {
                Ok(details) => r == Ok::<bool, E>(true) && final(self)@ == load(
                    old(self)@,
                    commit@,
                    details,
                ),
                Err(error) => r == Err::<bool, E>(error) && *final(self) == *old(self),
            },
            old(self)@.wf() ==> final(self)@.wf(),
    {
        let details = match loaded {
            Ok(details) => details,
            Err(error) => {
                return Err(error);
            },
        };
        let mut out = BufferLineWriter::default();
        {
            let mut id_gen = IdGen::new(&mut self.id_storage, "details");
            render_commit(commit, &details, self.theme, &mut id_gen, &mut out);
        }
        self.lines = Some(out.buf);
        proof {
            law_commit_undrawn("details"@, commit@, details, *self.theme);
            law_lines_are_identified("details"@, commit@, details, *self.theme);
            assert(lines_view(out.buf@) =~= commit_lines(
                "details"@,
                commit@,
                details,
                *self.theme,
            ));
        }
        Ok(true)
    }

    /// True if the colors of source code are known.
    pub fn has_syntax_theme(&self) -> (r: bool)
        ensures
            r == (self@.syntax_theme is Some),
    {
        self.syntax_theme.is_some()
    }

    /// Takes the colors of source code, which have to be known before anything is drawn. The
    /// first ones given stay.
    pub fn set_syntax_theme(&mut self, syntax_theme: SyntaxTheme)
        ensures
            final(self)@ == color_with(old(self)@, syntax_theme),
            old(self)@.wf() ==> final(self)@.wf(),
    {
        if self.syntax_theme.is_none() {
            self.syntax_theme = Some(syntax_theme);
        }
    }

    /// Loads the grammars if that was not done yet, and tells whether every line that would be
    /// drawn in `area` can be drawn.
    pub fn lines_fit(&mut self, area: Rect) -> (r: bool)
        requires
            old(self)@.wf(),
        ensures
            r == lines_drawable(final(self)@, area),
            final(self)@.syntax_set is Some,
            old(self)@.syntax_set is Some ==> final(self)@ == old(self)@,
            final(self)@ == (DetailsView { syntax_set: final(self)@.syntax_set, ..old(self)@ }),
            final(self)@.wf(),
    {
        self.load_syntax_set();
        match (&self.syntax_set, &self.lines) {
            (Some(set), Some(lines)) => all_lines_fit(set, lines, area),
            _ => true,
        }
    }

    /// Loads the grammars if that was not done yet.
    fn load_syntax_set(&mut self)
        requires
            old(self)@.wf(),
        ensures
            final(self)@.syntax_set is Some,
            old(self)@.syntax_set is Some ==> final(self)@ == old(self)@,
            final(self)@ == (DetailsView { syntax_set: final(self)@.syntax_set, ..old(self)@ }),
            final(self)@.wf(),
    {
        if self.syntax_set.is_none() {
            self.syntax_set = Some(SyntaxSet::load_defaults_newlines());
        }
        proof {
            if let Some(lines) = self@.lines {
                assert forall|i: int| 0 <= i < lines.len() implies cache_coherent(
                    self@.syntax_set,
                    self@.syntax_theme,
                    #[trigger] lines[i],
                ) by {
                    assert(cache_coherent(
                        old(self)@.syntax_set,
                        old(self)@.syntax_theme,
                        lines[i],
                    ));
                }
            }
        }
    }

    /// True if every row that would be drawn in `area` has a number that fits in 16 bits.
    pub fn rows_fit(&self, area: Rect) -> (r: bool)
        ensures
            r == rows_in_range(self@, area),
    {
        match &self.lines {
            None => true,
            Some(lines) => {
                let mut count: usize = area.height as usize;
                if lines.len() < count {
                    count = lines.len();
                }
                area.y as u64 + count as u64 <= 65536
            },
        }
    }

    /// What is to be drawn in `area`: a row for each line that fits in it. Source code is
    /// highlighted when it is first drawn.
    pub fn render(&mut self, _help_shown: bool, _has_focus: bool, area: Rect) -> (r: Vec<Draw>)
        requires
            old(self)@.wf(),
            old(self)@.syntax_theme is Some,
            rows_in_range(old(self)@, area),
            lines_drawable(old(self)@, area),
        ensures
            drawn(old(self)@, area, final(self)@, draws_view(r@)),
            final(self)@.wf(),
    {
        self.load_syntax_set();
        proof {
            if let Some(lines) = self@.lines {
                assert forall|n: int| 0 <= n < rows(lines.len(), area) implies line_drawable(
                    self@.syntax_set,
                    #[trigger] lines[n],
                ) by {
                    assert(line_drawable(old(self)@.syntax_set, lines[n]));
                }
            }
        }
        let mut draws: Vec<Draw> = Vec::new();
        match (&self.syntax_set, &self.syntax_theme, &mut self.lines) {
            (Some(set), Some(theme), Some(lines)) => {
                draws = draw_lines(set, theme, lines, area);
            },
            _ => {
                draws.push(Draw { area, widget: Widget::Text(String::new()) });
                proof {
                    assert(draws_view(draws@) =~= seq![
                        DrawView { area, widget: WidgetView::Text(Seq::empty()) },
                    ]);
                }
            },
        }
        proof {
            assert(self@ == (DetailsView {
                syntax_set: self@.syntax_set,
                lines: self@.lines,
                ..old(self)@
            }));
            law_drawing_keeps_wf(old(self)@, area, self@, draws_view(draws@));
        }
        draws
    }

    /// Handles a request. No request changes the view yet, nor asks for anything else.
    pub fn try_handle_message<M>(
        &mut self,
        msg: DetailsMessage,
        _viewport: Rect,
        _messages: &mut Vec<M>,
    ) -> (r: Result<(), MessageError>)
        ensures
            r == Ok::<(), MessageError>(()),
            *final(self) == *old(self),
            final(_messages)@ == old(_messages)@,
    {
        match msg {
            DetailsMessage::ScrollUp(_) => {},
            DetailsMessage::ScrollDown(_) => {},
            DetailsMessage::SelectNextSection => {},
            DetailsMessage::SelectPrevSection => {},
            DetailsMessage::Deselect => {},
            DetailsMessage::SelectFirstSection => {},
            DetailsMessage::CopyCurrentHunk => {},
            DetailsMessage::GotoTop => {},
            DetailsMessage::GotoBottom => {},
            DetailsMessage::StartRub => {},
            DetailsMessage::Unlock => {},
        }
        Ok(())
    }
}

/// The model of the view holds what the view holds.
proof fn law_view_model(view: Details2)
    ensures
        view@.theme == *view.theme,
        view@.selection is Some <==> view.selection is Some,
        view.selection matches Some(selection) ==> view@.selection == Some(selection@),
        view@.lines is Some <==> view.lines is Some,
        view.lines matches Some(lines) ==> view@.lines->0.len() == lines@.len() && forall|i: int|
            0 <= i < lines@.len() ==> view@.lines->0[i] == #[trigger] lines@[i]@,
        view@.syntax_set == view.syntax_set,
        view@.syntax_theme == view.syntax_theme,
        view@.ids == view.id_storage@,
        view@.selected_section is Some <==> view.selected_section is Some,
        view.selected_section matches Some(id) ==> view@.selected_section == Some(id.0@),
{
}

/// Drawing keeps every drawing true to its line, given the grammars that come with the
/// highlighter.
pub proof fn law_drawing_keeps_wf(
    before: DetailsView,
    area: Rect,
    after: DetailsView,
    draws: Seq<DrawView>,
)
    requires
        before.wf(),
        before.syntax_theme is Some,
        drawn(before, area, after, draws),
        after.syntax_set matches Some(set) ==> bundled(set) && plain_text(set) is Some,
    ensures
        after.wf(),
{
    if let Some(lines) = after.lines {
        let old_lines = before.lines->0;
        assert forall|i: int| 0 <= i < lines.len() implies cache_coherent(
            after.syntax_set,
            after.syntax_theme,
            #[trigger] lines[i],
        ) by {
            assert(cache_coherent(before.syntax_set, before.syntax_theme, old_lines[i]));
            if i < draws.len() {
                assert(prepared(
                    after.syntax_set->0,
                    before.syntax_theme->0,
                    old_lines[i],
                    lines[i],
                ));
            } else {
                assert(lines[i] == old_lines[i]);
            }
        }
        assert forall|i: int| 0 <= i < lines.len() implies (line_id(
            #[trigger] lines[i],
        ) matches Some(id) ==> after.ids.contains(id)) by {
            assert(line_id(old_lines[i]) == line_id(lines[i])) by {
                if i >= draws.len() {
                    assert(lines[i] == old_lines[i]);
                }
            }
        }
    }
}

/// Updating with no selection changes nothing, nor does updating with the last selection.
pub proof fn law_update_without_news(view: DetailsView)
    ensures
        select(view, None) == (view, StepView::Unchanged),
        select(view, view.selection) == (view, StepView::Unchanged),
{
}

/// A selection is acted on once: a second update with it changes nothing and asks for
/// nothing, whether or not a commit was read in between.
pub proof fn law_update_idempotent(
    view: DetailsView,
    selection: Option<CliIdView>,
    commit: Seq<u8>,
    details: CommitDetails,
)
    ensures
        ({
            let next = select(view, selection).0;
            let read = load(next, commit, details);
            &&& select(next, selection) == (next, StepView::Unchanged)
            &&& select(read, selection) == (read, StepView::Unchanged)
        }),
{
}

/// After a commit was selected and read, the view shows that commit, whatever it showed
/// before, and remembers the selection.
pub proof fn law_commit_is_shown(
    view: DetailsView,
    commit: Seq<u8>,
    id: Seq<char>,
    details: CommitDetails,
)
    requires
        view.selection != Some(CliIdView::Commit { commit_id: commit, id }),
    ensures
        ({
            let selection = Some(CliIdView::Commit { commit_id: commit, id });
            let (next, step) = select(view, selection);
            let shown = load(next, commit, details);
            &&& step == StepView::LoadCommit(commit)
            &&& shown.lines == Some(commit_lines("details"@, commit, details, view.theme))
            &&& shown.selection == selection
            &&& select(shown, selection) == (shown, StepView::Unchanged)
        }),
{
}

/// Selecting anything but a commit empties the view.
pub proof fn law_other_selection_clears(view: DetailsView, selection: CliIdView)
    requires
        selection !is Commit,
        view.selection != Some(selection),
    ensures
        select(view, Some(selection)).0.lines is None,
        select(view, Some(selection)).1 == StepView::Cleared,
{
}

/// Identifiers are never given up: neither an update nor reading a commit forgets one.
pub proof fn law_ids_are_kept(
    view: DetailsView,
    selection: Option<CliIdView>,
    commit: Seq<u8>,
    details: CommitDetails,
)
    ensures
        select(view, selection).0.ids == view.ids,
        view.ids.subset_of(load(view, commit, details).ids),
{
}

/// Reading the same commit again shows the same lines and hands out no new identifier.
pub proof fn law_load_idempotent(view: DetailsView, commit: Seq<u8>, details: CommitDetails)
    ensures
        ({
            let once = load(view, commit, details);
            load(once, commit, details) == once
        }),
{
    let once = load(view, commit, details);
    assert(load(once, commit, details).ids =~= once.ids);
}

/// Each row lies in the area that was asked for, below the one before it, and is one row high.
pub proof fn law_rows_stay_in_area(
    before: DetailsView,
    area: Rect,
    after: DetailsView,
    draws: Seq<DrawView>,
    n: int,
)
    requires
        before.lines is Some,
        rows_in_range(before, area),
        drawn(before, area, after, draws),
        0 <= n < draws.len(),
    ensures
        draws.len() <= area.height,
        draws[n].area == (Rect { x: area.x, y: (area.y + n) as u16, width: area.width, height: 1 }),
        draws[n].area.y == area.y + n,
        area.y <= draws[n].area.y < area.y + area.height,
{
}

/// True if two lines differ at most in their kept drawing.
pub open spec fn same_but_drawing(a: DetailsLineView, b: DetailsLineView) -> bool {
    match (a, b) {
        (
            DetailsLineView::RawCode { id, line_numbers, code, path, bg, .. },
            DetailsLineView::RawCode {
                id: id2,
                line_numbers: line_numbers2,
                code: code2,
                path: path2,
                bg: bg2,
                ..
            },
        ) => id == id2 && line_numbers == line_numbers2 && code == code2 && path == path2 && bg
            == bg2,
        _ => a == b,
    }
}

/// Drawing changes nothing of the lines but the kept drawings, and nothing else of the view but
/// that the grammars are loaded.
pub proof fn law_drawing_keeps_content(
    before: DetailsView,
    area: Rect,
    after: DetailsView,
    draws: Seq<DrawView>,
)
    requires
        drawn(before, area, after, draws),
    ensures
        after == (DetailsView { syntax_set: after.syntax_set, lines: after.lines, ..before }),
        before.lines is None <==> after.lines is None,
        before.lines is Some ==> before.lines->0.len() == after.lines->0.len(),
        forall|i: int|
            before.lines is Some && 0 <= i < before.lines->0.len() ==> same_but_drawing(
                #[trigger] before.lines->0[i],
                after.lines->0[i],
            ),
{
    if let Some(lines) = before.lines {
        assert forall|i: int| 0 <= i < lines.len() implies same_but_drawing(
            #[trigger] lines[i],
            after.lines->0[i],
        ) by {
            if i >= draws.len() {
                assert(after.lines->0[i] == lines[i]);
            }
        }
    }
}

/// What is drawn for a line of source code reads as its line numbers followed by its code:
/// highlighting adds no text, drops none and moves none.
pub proof fn law_drawing_shows_the_code(
    before: DetailsView,
    area: Rect,
    after: DetailsView,
    draws: Seq<DrawView>,
    n: int,
)
    requires
        before.wf(),
        before.lines is Some,
        drawn(before, area, after, draws),
        0 <= n < draws.len(),
    ensures
        before.lines->0[n] matches DetailsLineView::RawCode { line_numbers, code, .. } ==> (
        draws[n].widget matches WidgetView::Line(line) && spans_text(line.spans) == spans_text(
            line_numbers,
        ) + code),
{
    let lines = before.lines->0;
    assert(cache_coherent(before.syntax_set, before.syntax_theme, lines[n]));
    assert(prepared(after.syntax_set->0, before.syntax_theme->0, lines[n], after.lines->0[n]));
    assert(draws[n].widget == widget_of(after.lines->0[n]));
}

/// A line that was drawn once is drawn the same way ever after, whatever the area.
pub proof fn law_drawn_line_stays(
    first: DetailsView,
    area: Rect,
    second: DetailsView,
    draws: Seq<DrawView>,
    other_area: Rect,
    third: DetailsView,
    other_draws: Seq<DrawView>,
    n: int,
)
    requires
        first.lines is Some,
        drawn(first, area, second, draws),
        drawn(second, other_area, third, other_draws),
        0 <= n < draws.len(),
        n < other_draws.len(),
    ensures
        other_draws[n].widget == draws[n].widget,
{
    let lines = first.lines->0;
    let made = second.lines->0;
    assert(prepared(second.syntax_set->0, first.syntax_theme->0, lines[n], made[n]));
    assert(prepared(third.syntax_set->0, second.syntax_theme->0, made[n], third.lines->0[n]));
    assert(draws[n].widget == widget_of(made[n]));
    assert(other_draws[n].widget == widget_of(third.lines->0[n]));
}

/// Drawing a second time in the same area gives the same picture and changes nothing.
pub proof fn law_drawing_idempotent(
    first: DetailsView,
    area: Rect,
    second: DetailsView,
    draws: Seq<DrawView>,
    third: DetailsView,
    other_draws: Seq<DrawView>,
)
    requires
        drawn(first, area, second, draws),
        drawn(second, area, third, other_draws),
    ensures
        other_draws == draws,
        third == second,
{
    if let Some(lines) = first.lines {
        let made = second.lines->0;
        let kept = third.lines->0;
        assert forall|n: int| 0 <= n < made.len() implies #[trigger] kept[n] == made[n] by {
            if n < draws.len() {
                assert(prepared(second.syntax_set->0, first.syntax_theme->0, lines[n], made[n]));
                assert(prepared(third.syntax_set->0, second.syntax_theme->0, made[n], kept[n]));
            }
        }
        assert(kept =~= made);
        assert(other_draws =~= draws);
    }
}

} // verus!
