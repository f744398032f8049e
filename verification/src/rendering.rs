//! A commit as lines of the details view.

use crate::bytes::{displayed, displayed_text};
use crate::digits::{decimal, decimal_text};
use crate::git::{
    formatted_time, hex, hex_text, time_text, CommitDetails, DiffHunk, ObjectId, Signature,
    TreeChange, TreeStatus, UnifiedPatch,
};
use crate::hunk::{
    build_unified_patch, hunk_lines, hunk_numbers_fit, hunk_row, hunk_rows, numbers_fit, rule,
    rule_spans,
};
use crate::ids::{path_in, IdGen, SectionId};
use crate::lines::{DetailsLineView, LineWriter};
use crate::text::{
    line_of, raw, span_views, spans_width, str_width, styled, text_width, Line, LineView, Span,
    SpanView,
};
use crate::theme::Theme;
use std::sync::Arc;
use vstd::prelude::*;
use vstd::string::*;

verus! {

/// A signature as it is shown: name, address and time.
pub open spec fn signature_spans(sig: Signature, theme: Theme) -> Seq<SpanView> {
    seq![
        styled(displayed(sig.name@), theme.user),
        raw(" <"@),
        styled(displayed(sig.email@), theme.user),
        raw(">"@),
        raw(" ("@),
        styled(formatted_time(sig.time.seconds, sig.time.offset), theme.time),
        raw(")"@),
    ]
}

/// The spans that show `sig`.
pub fn render_signature(sig: &Signature, theme: &Theme) -> (r: Vec<Span>)
    ensures
        span_views(r@) == signature_spans(*sig, *theme),
{
    let mut spans: Vec<Span> = Vec::new();
    spans.push(Span::styled(displayed_text(sig.name.as_slice()), theme.user));
    spans.push(Span::raw(" <".to_owned()));
    spans.push(Span::styled(displayed_text(sig.email.as_slice()), theme.user));
    spans.push(Span::raw(">".to_owned()));
    spans.push(Span::raw(" (".to_owned()));
    spans.push(Span::styled(time_text(&sig.time), theme.time));
    spans.push(Span::raw(")".to_owned()));
    proof {
        assert(span_views(spans@) =~= signature_spans(*sig, *theme));
    }
    spans
}

/// What happened to a file, as it is shown.
pub open spec fn status_span(status: TreeStatus, theme: Theme) -> SpanView {
    match status {
        TreeStatus::Addition => styled("added"@, theme.addition),
        TreeStatus::Deletion => styled("deleted"@, theme.deletion),
        TreeStatus::Modification => styled("modified"@, theme.modification),
        TreeStatus::Rename => styled("renamed"@, theme.renaming),
    }
}

/// The span that shows `status`.
pub fn change_status(status: &TreeStatus, theme: &Theme) -> (r: Span)
    ensures
        r@ == status_span(*status, *theme),
{
    match status {
        TreeStatus::Addition => Span::styled("added".to_owned(), theme.addition),
        TreeStatus::Deletion => Span::styled("deleted".to_owned(), theme.deletion),
        TreeStatus::Modification => Span::styled("modified".to_owned(), theme.modification),
        TreeStatus::Rename => Span::styled("renamed".to_owned(), theme.renaming),
    }
}

/// What stands before the path of a file: a short name, or what happened to the file.
pub enum ShortIdOrTreeStatus<'a> {
    ShortId(&'a str),
    TreeStatus(&'a TreeStatus),
}

/// What stands before the path of a file, as it is shown.
pub open spec fn mark_span(mark: ShortIdOrTreeStatus, theme: Theme) -> SpanView {
    match mark {
        ShortIdOrTreeStatus::ShortId(id) => styled(id@, theme.cli_id),
        ShortIdOrTreeStatus::TreeStatus(status) => status_span(*status, theme),
    }
}

/// A horizontal rule over or under a text of `width` columns that is boxed to the right.
pub open spec fn border(width: nat, corner: Seq<char>, theme: Theme) -> LineView {
    LineView { spans: rule(width + 1).push(raw(corner)), style: theme.border }
}

/// A line with a border above, to the right and below.
pub open spec fn boxed(id: Seq<char>, text: LineView, theme: Theme) -> Seq<DetailsLineView> {
    let width = spans_width(text.spans);
    seq![
        DetailsLineView::Text { id, line: border(width, "╮"@, theme) },
        DetailsLineView::Text {
            id,
            line: LineView {
                spans: text.spans + seq![raw(" "@), styled("│"@, theme.border)],
                style: text.style,
            },
        },
        DetailsLineView::Text { id, line: border(width, "╯"@, theme) },
    ]
}

/// The rule of a box around a text of `width` columns, with `corner` at its end.
fn border_line(width: usize, corner: &str, theme: &Theme) -> (r: Line)
    ensures
        r@ == border(width as nat, corner@, *theme),
{
    let mut spans = rule_spans(width);
    let ghost dashes = spans@;
    spans.push(Span::raw("─".to_owned()));
    spans.push(Span::raw(corner.to_owned()));
    proof {
        let w = width as nat;
        assert(span_views(spans@) =~= span_views(dashes).push(raw("─"@)).push(raw(corner@)));
        assert(rule(w + 1) =~= rule(w).push(raw("─"@)));
    }
    Line::from_spans(spans).style(theme.border)
}

/// True if a space and every stroke of a border take one column.
pub open spec fn strokes_are_narrow() -> bool {
    &&& text_width(" "@) == 1
    &&& text_width("─"@) == 1
    &&& text_width("│"@) == 1
    &&& text_width("╮"@) == 1
    &&& text_width("╯"@) == 1
}

/// Measures a space and the strokes of a border: each takes one column.
fn measure_strokes()
    ensures
        strokes_are_narrow(),
{
    proof {
        reveal_strlit(" ");
        reveal_strlit("─");
        reveal_strlit("│");
        reveal_strlit("╮");
        reveal_strlit("╯");
    }
    str_width(" ");
    str_width("─");
    str_width("│");
    str_width("╮");
    str_width("╯");
}

/// True if the box around a text is as wide above and below the text as beside it.
pub open spec fn rectangular(text: LineView, theme: Theme) -> bool {
    let width = spans_width(text.spans);
    let beside = spans_width(text.spans + seq![raw(" "@), styled("│"@, theme.border)]);
    &&& spans_width(border(width, "╮"@, theme).spans) == beside
    &&& spans_width(border(width, "╯"@, theme).spans) == beside
}

/// Writes `text` with a border above, to the right and below. The box is rectangular.
pub fn bordered_line_top_right_bottom<W: LineWriter>(
    id: &SectionId,
    text: Line,
    out: &mut W,
    theme: &Theme,
)
    ensures
        final(out).written() == old(out).written() + boxed(id@, text@, *theme),
        rectangular(text@, *theme),
{
    let ghost start = out.written();
    measure_strokes();
    let width = text.width();
    out.push_text(id.clone(), border_line(width, "╮", theme));

    let mut line = text;
    let ghost spans = line.spans@;
    line.spans.push(Span::raw(" ".to_owned()));
    line.spans.push(Span::styled("│".to_owned(), theme.border));
    proof {
        assert(span_views(line.spans@) =~= span_views(spans) + seq![
            raw(" "@),
            styled("│"@, theme.border),
        ]);
    }
    out.push_text(id.clone(), line);

    out.push_text(id.clone(), border_line(width, "╯", theme));
    proof {
        assert(out.written() =~= start + boxed(id@, text@, *theme));
        law_box_is_rectangular(text@, *theme);
    }
}

/// The path of a file behind what stands before it.
pub open spec fn path_spans(
    path: Seq<u8>,
    mark: Option<ShortIdOrTreeStatus>,
    theme: Theme,
) -> Seq<SpanView> {
    match mark {
        Some(mark) => seq![
            raw(" "@),
            mark_span(mark, theme),
            raw(" "@),
            raw(displayed(path)),
        ],
        None => seq![raw(" "@), raw(displayed(path))],
    }
}

/// The boxed path of a file with an empty line under it.
pub open spec fn path_header(
    id: Seq<char>,
    path: Seq<u8>,
    mark: Option<ShortIdOrTreeStatus>,
    theme: Theme,
) -> Seq<DetailsLineView> {
    boxed(id, line_of(path_spans(path, mark, theme)), theme).push(
        DetailsLineView::Text { id, line: line_of(Seq::empty()) },
    )
}

/// Writes the path of a file in a box, with `status` before it.
pub fn render_hunk_path_header<W: LineWriter>(
    id: &SectionId,
    path: &[u8],
    status: Option<ShortIdOrTreeStatus<'_>>,
    out: &mut W,
    theme: &Theme,
)
    ensures
        final(out).written() == old(out).written() + path_header(id@, path@, status, *theme),
{
    let ghost start = out.written();
    let mut spans: Vec<Span> = Vec::new();
    spans.push(Span::raw(" ".to_owned()));
    match status {
        Some(ShortIdOrTreeStatus::ShortId(short)) => {
            spans.push(Span::styled(short.to_owned(), theme.cli_id));
            spans.push(Span::raw(" ".to_owned()));
        },
        Some(ShortIdOrTreeStatus::TreeStatus(status)) => {
            spans.push(change_status(status, theme));
            spans.push(Span::raw(" ".to_owned()));
        },
        None => {},
    }
    spans.push(Span::raw(displayed_text(path)));
    proof {
        assert(span_views(spans@) =~= path_spans(path@, status, *theme));
    }
    bordered_line_top_right_bottom(id, Line::from_spans(spans), out, theme);

    let empty: Vec<Span> = Vec::new();
    proof {
        assert(span_views(empty@) =~= Seq::<SpanView>::empty());
    }
    out.push_text(id.clone(), Line::from_spans(empty));
    proof {
        assert(out.written() =~= start + path_header(id@, path@, status, *theme));
    }
}

/// The identifier of the section `j` of a scope.
pub open spec fn nth_path(scope: Seq<char>, j: nat) -> Seq<char> {
    path_in(scope, decimal(j))
}

/// The identifiers of the first `n` sections of a scope.
pub open spec fn nth_paths(scope: Seq<char>, n: nat) -> Set<Seq<char>>
    decreases n,
{
    if n == 0 {
        Set::empty()
    } else {
        nth_paths(scope, (n - 1) as nat).insert(nth_path(scope, (n - 1) as nat))
    }
}

/// What stands before the path of a changed file.
pub open spec fn change_mark(change: TreeChange) -> Option<ShortIdOrTreeStatus<'static>> {
    Some(ShortIdOrTreeStatus::TreeStatus(&change.status))
}

/// The hunk `j` of a changed file as it is shown: the path stands above the first one.
pub open spec fn hunk_section(
    scope: Seq<char>,
    change: TreeChange,
    hunks: Seq<DiffHunk>,
    converted: bool,
    theme: Theme,
    j: nat,
) -> Seq<DetailsLineView> {
    let id = nth_path(scope, j);
    let header = if j == 0 {
        path_header(id, change.path@, change_mark(change), theme)
    } else {
        Seq::empty()
    };
    header + hunk_lines(id, change.path_bytes@, hunks[j as int], converted, theme) + seq![
        DetailsLineView::EmptyLine,
    ]
}

/// The first `n` hunks of a changed file as they are shown.
pub open spec fn hunk_sections(
    scope: Seq<char>,
    change: TreeChange,
    hunks: Seq<DiffHunk>,
    converted: bool,
    theme: Theme,
    n: nat,
) -> Seq<DetailsLineView>
    decreases n,
{
    if n == 0 {
        Seq::empty()
    } else {
        hunk_sections(scope, change, hunks, converted, theme, (n - 1) as nat) + hunk_section(
            scope,
            change,
            hunks,
            converted,
            theme,
            (n - 1) as nat,
        )
    }
}

/// A changed file without hunks as it is shown: its path and a remark.
pub open spec fn remark_section(
    id: Seq<char>,
    change: TreeChange,
    remark: Seq<char>,
    theme: Theme,
) -> Seq<DetailsLineView> {
    path_header(id, change.path@, change_mark(change), theme) + seq![
        DetailsLineView::Text { id, line: line_of(seq![raw(remark)]) },
        DetailsLineView::EmptyLine,
    ]
}

/// The remark on a file that is too large for a diff.
pub open spec fn too_large_remark(size_in_bytes: u64) -> Seq<char> {
    "File too large ("@ + decimal(size_in_bytes as nat) + " bytes) - no diff available"@
}

/// A changed file as it is shown. A file without a patch, or whose patch could not be read,
/// is not shown.
pub open spec fn change_lines(scope: Seq<char>, change: TreeChange, theme: Theme) -> Seq<
    DetailsLineView,
> {
    match change.patch {
        Ok(Some(UnifiedPatch::Patch { hunks, is_result_of_binary_to_text_conversion, .. })) => {
            hunk_sections(
                path_in(scope, "hunks"@),
                change,
                hunks@,
                is_result_of_binary_to_text_conversion,
                theme,
                hunks@.len(),
            )
        },
        Ok(Some(UnifiedPatch::Binary)) => remark_section(
            path_in(scope, "binary"@),
            change,
            "Binary file - no diff available"@,
            theme,
        ),
        Ok(Some(UnifiedPatch::TooLarge { size_in_bytes })) => remark_section(
            path_in(scope, "too_large"@),
            change,
            too_large_remark(size_in_bytes),
            theme,
        ),
        _ => Seq::empty(),
    }
}

/// The paths that are handed out for a changed file inside its scope.
pub open spec fn change_paths(scope: Seq<char>, change: TreeChange) -> Set<Seq<char>> {
    match change.patch {
        Ok(Some(UnifiedPatch::Patch { hunks, .. })) => {
            nth_paths(path_in(scope, "hunks"@), hunks@.len()).insert(path_in(scope, "hunks"@))
        },
        Ok(Some(UnifiedPatch::Binary)) => set![path_in(scope, "binary"@)],
        Ok(Some(UnifiedPatch::TooLarge { .. })) => set![path_in(scope, "too_large"@)],
        _ => Set::empty(),
    }
}

/// The first `n` changed files as they are shown, each in a scope of its own.
pub open spec fn changes_lines(
    scope: Seq<char>,
    changes: Seq<TreeChange>,
    theme: Theme,
    n: nat,
) -> Seq<DetailsLineView>
    decreases n,
{
    if n == 0 {
        Seq::empty()
    } else {
        changes_lines(scope, changes, theme, (n - 1) as nat) + change_lines(
            nth_path(scope, (n - 1) as nat),
            changes[n - 1],
            theme,
        )
    }
}

/// The paths that are handed out for the first `n` changed files.
pub open spec fn changes_paths(
    scope: Seq<char>,
    changes: Seq<TreeChange>,
    n: nat,
) -> Set<Seq<char>>
    decreases n,
{
    if n == 0 {
        Set::empty()
    } else {
        let inner = nth_path(scope, (n - 1) as nat);
        changes_paths(scope, changes, (n - 1) as nat).insert(inner).union(
            change_paths(inner, changes[n - 1]),
        )
    }
}

/// True if the line numbers of every hunk of the change fit in 32 bits.
pub open spec fn change_fits(change: TreeChange) -> bool {
    match change.patch {
        Ok(Some(UnifiedPatch::Patch { hunks, .. })) => {
            forall|j: int| 0 <= j < hunks@.len() ==> numbers_fit(#[trigger] hunks@[j])
        },
        _ => true,
    }
}

/// True if the line numbers of every hunk of every change fit in 32 bits.
pub open spec fn changes_fit(changes: Seq<TreeChange>) -> bool {
    forall|i: int| 0 <= i < changes.len() ==> change_fits(#[trigger] changes[i])
}

/// True if the line numbers of each of `hunks` fit in 32 bits.
fn all_numbers_fit(hunks: &Vec<DiffHunk>) -> (r: bool)
    ensures
        r == forall|j: int| 0 <= j < hunks@.len() ==> numbers_fit(#[trigger] hunks@[j]),
{
    for j in 0..hunks.len()
        invariant
            forall|k: int| 0 <= k < j ==> numbers_fit(#[trigger] hunks@[k]),
    {
        if !hunk_numbers_fit(&hunks[j]) {
            return false;
        }
    }
    true
}

/// True if the line numbers of every hunk of `change` fit in 32 bits.
fn change_numbers_fit(change: &TreeChange) -> (r: bool)
    ensures
        r == change_fits(*change),
{
    match &change.patch {
        Ok(Some(UnifiedPatch::Patch { hunks, .. })) => all_numbers_fit(hunks),
        _ => true,
    }
}

/// True if the line numbers of every hunk of `details` fit in 32 bits.
pub fn commit_numbers_fit(details: &CommitDetails) -> (r: bool)
    ensures
        r == changes_fit(details.changes@),
{
    for i in 0..details.changes.len()
        invariant
            forall|k: int| 0 <= k < i ==> change_fits(#[trigger] details.changes@[k]),
    {
        if !change_numbers_fit(&details.changes[i]) {
            return false;
        }
    }
    true
}

/// Writes a changed file without hunks: its path and `remark`.
fn render_remark<W: LineWriter>(
    id: &SectionId,
    change: &TreeChange,
    remark: String,
    out: &mut W,
    theme: &Theme,
)
    ensures
        final(out).written() == old(out).written() + remark_section(
            id@,
            *change,
            remark@,
            *theme,
        ),
{
    let ghost start = out.written();
    render_hunk_path_header(
        id,
        change.path.as_slice(),
        Some(ShortIdOrTreeStatus::TreeStatus(&change.status)),
        out,
        theme,
    );
    let mut spans: Vec<Span> = Vec::new();
    spans.push(Span::raw(remark));
    proof {
        assert(span_views(spans@) =~= seq![raw(remark@)]);
    }
    out.push_text(id.clone(), Line::from_spans(spans));
    out.push_empty_line();
    proof {
        assert(out.written() =~= start + remark_section(id@, *change, remark@, *theme));
    }
}

/// Writes the hunks of a changed file, the path of the file above the first one.
fn render_hunks<W: LineWriter>(
    change: &TreeChange,
    hunks: &Vec<DiffHunk>,
    is_result_of_binary_to_text_conversion: bool,
    theme: &Theme,
    id_gen: &mut IdGen<'_>,
    out: &mut W,
)
    requires
        forall|j: int| 0 <= j < hunks@.len() ==> numbers_fit(#[trigger] hunks@[j]),
    ensures
        final(out).written() == old(out).written() + hunk_sections(
            old(id_gen).scope@,
            *change,
            hunks@,
            is_result_of_binary_to_text_conversion,
            *theme,
            hunks@.len(),
        ),
        final(id_gen).storage@ == old(id_gen).storage@.union(
            nth_paths(old(id_gen).scope@, hunks@.len()),
        ),
        final(id_gen).scope@ == old(id_gen).scope@,
        *final(final(id_gen).storage) == *final(old(id_gen).storage),
{
    let ghost start = out.written();
    let ghost kept = id_gen.storage@;
    let ghost scope = id_gen.scope@;
    let path = Arc::new(clone_bytes(&change.path_bytes));
    let mut j: usize = 0;
    proof {
        assert(kept.union(nth_paths(scope, 0)) =~= kept);
        assert(start + Seq::<DetailsLineView>::empty() =~= start);
    }
    while j < hunks.len()
        invariant
            0 <= j <= hunks@.len(),
            forall|k: int| 0 <= k < hunks@.len() ==> numbers_fit(#[trigger] hunks@[k]),
            path@ == change.path_bytes@,
            scope == old(id_gen).scope@,
            id_gen.scope@ == scope,
            id_gen.storage@ == kept.union(nth_paths(scope, j as nat)),
            *final(id_gen.storage) == *final(old(id_gen).storage),
            out.written() == start + hunk_sections(
                scope,
                *change,
                hunks@,
                is_result_of_binary_to_text_conversion,
                *theme,
                j as nat,
            ),
        decreases hunks@.len() - j,
    {
        let ghost before = out.written();
        let hunk_id = id_gen.new_id(decimal_text(j as u64).as_str());
        if j == 0 {
            render_hunk_path_header(
                &hunk_id,
                change.path.as_slice(),
                Some(ShortIdOrTreeStatus::TreeStatus(&change.status)),
                out,
                theme,
            );
        }
        build_unified_patch(
            &hunk_id,
            &path,
            &hunks[j],
            is_result_of_binary_to_text_conversion,
            theme,
            out,
        );
        out.push_empty_line();
        proof {
            assert(out.written() =~= before + hunk_section(
                scope,
                *change,
                hunks@,
                is_result_of_binary_to_text_conversion,
                *theme,
                j as nat,
            ));
            assert(id_gen.storage@ =~= kept.union(nth_paths(scope, (j + 1) as nat)));
            assert(out.written() =~= start + hunk_sections(
                scope,
                *change,
                hunks@,
                is_result_of_binary_to_text_conversion,
                *theme,
                (j + 1) as nat,
            ));
        }
        j = j + 1;
    }
}

/// A copy of `bytes`.
fn clone_bytes(bytes: &Vec<u8>) -> (r: Vec<u8>)
    ensures
        r@ == bytes@,
{
    let r = bytes.clone();
    proof {
        assert(r@ =~= bytes@);
    }
    r
}

/// Writes one changed file; the scope of `id_gen` is the scope of the file.
fn render_change<W: LineWriter>(
    change: &TreeChange,
    theme: &Theme,
    id_gen: &mut IdGen<'_>,
    out: &mut W,
)
    requires
        change_fits(*change),
    ensures
        final(out).written() == old(out).written() + change_lines(
            old(id_gen).scope@,
            *change,
            *theme,
        ),
        final(id_gen).storage@ == old(id_gen).storage@.union(
            change_paths(old(id_gen).scope@, *change),
        ),
        final(id_gen).scope@ == old(id_gen).scope@,
        *final(final(id_gen).storage) == *final(old(id_gen).storage),
{
    let ghost start = out.written();
    let ghost kept = id_gen.storage@;
    let ghost scope = id_gen.scope@;
    match &change.patch {
        Ok(Some(UnifiedPatch::Patch { hunks, is_result_of_binary_to_text_conversion, .. })) => {
            let mut hunk_ids = id_gen.scoped("hunks");
            render_hunks(
                change,
                hunks,
                *is_result_of_binary_to_text_conversion,
                theme,
                &mut hunk_ids,
                out,
            );
        },
        Ok(Some(UnifiedPatch::Binary)) => {
            let patch_id = id_gen.new_id("binary");
            render_remark(
                &patch_id,
                change,
                "Binary file - no diff available".to_owned(),
                out,
                theme,
            );
        },
        Ok(Some(UnifiedPatch::TooLarge { size_in_bytes })) => {
            let patch_id = id_gen.new_id("too_large");
            let mut remark = "File too large (".to_owned();
            remark.append(decimal_text(*size_in_bytes).as_str());
            remark.append(" bytes) - no diff available");
            render_remark(&patch_id, change, remark, out, theme);
        },
        _ => {},
    }
    proof {
        assert(out.written() =~= start + change_lines(scope, *change, *theme));
        assert(id_gen.storage@ =~= kept.union(change_paths(scope, *change)));
    }
}

/// Writes the changed files of a commit, each in a scope of its own.
pub fn build_tree_changes<W: LineWriter>(
    tree_changes: &Vec<TreeChange>,
    theme: &Theme,
    id_gen: &mut IdGen<'_>,
    out: &mut W,
)
    requires
        changes_fit(tree_changes@),
    ensures
        final(out).written() == old(out).written() + changes_lines(
            path_in(old(id_gen).scope@, "tree_changes"@),
            tree_changes@,
            *theme,
            tree_changes@.len(),
        ),
        final(id_gen).storage@ == old(id_gen).storage@.insert(
            path_in(old(id_gen).scope@, "tree_changes"@),
        ).union(
            changes_paths(
                path_in(old(id_gen).scope@, "tree_changes"@),
                tree_changes@,
                tree_changes@.len(),
            ),
        ),
        final(id_gen).scope@ == old(id_gen).scope@,
        *final(final(id_gen).storage) == *final(old(id_gen).storage),
{
    let ghost start = out.written();
    let mut ids = id_gen.scoped("tree_changes");
    let ghost kept = ids.storage@;
    let ghost scope = ids.scope@;
    let ghost after = *final(ids.storage);
    let mut i: usize = 0;
    proof {
        assert(kept.union(changes_paths(scope, tree_changes@, 0)) =~= kept);
        assert(start + Seq::<DetailsLineView>::empty() =~= start);
    }
    while i < tree_changes.len()
        invariant
            0 <= i <= tree_changes@.len(),
            changes_fit(tree_changes@),
            ids.scope@ == scope,
            ids.storage@ == kept.union(changes_paths(scope, tree_changes@, i as nat)),
            *final(ids.storage) == after,
            out.written() == start + changes_lines(scope, tree_changes@, *theme, i as nat),
        decreases tree_changes@.len() - i,
    {
        let ghost before = out.written();
        let ghost inner = nth_path(scope, i as nat);
        {
            let mut change_ids = ids.scoped(decimal_text(i as u64).as_str());
            render_change(&tree_changes[i], theme, &mut change_ids, out);
        }
        proof {
            assert(ids.storage@ =~= kept.union(
                changes_paths(scope, tree_changes@, (i + 1) as nat),
            ));
            assert(out.written() =~= start + changes_lines(
                scope,
                tree_changes@,
                *theme,
                (i + 1) as nat,
            ));
        }
        i = i + 1;
    }
}

/// The head of a commit as it is shown: its name, its author and its committer.
pub open spec fn commit_header(
    id: Seq<char>,
    commit: Seq<u8>,
    details: CommitDetails,
    theme: Theme,
) -> Seq<DetailsLineView> {
    seq![
        DetailsLineView::Text {
            id,
            line: line_of(seq![raw("Commit ID: "@), styled(hex(commit), theme.commit_id)]),
        },
        DetailsLineView::Text {
            id,
            line: line_of(
                seq![raw("Author:    "@)] + signature_spans(details.author, theme),
            ),
        },
        DetailsLineView::Text {
            id,
            line: line_of(
                seq![raw("Committer: "@)] + signature_spans(details.committer, theme),
            ),
        },
        DetailsLineView::EmptyLine,
    ]
}

/// The message of a commit as it is shown; an empty message takes no line.
pub open spec fn message_lines(id: Seq<char>, message: Seq<char>) -> Seq<DetailsLineView> {
    if message.len() == 0 {
        Seq::empty()
    } else {
        seq![DetailsLineView::TextToWrap { id, text: message }, DetailsLineView::EmptyLine]
    }
}

/// The scope of a commit inside `scope`.
pub open spec fn commit_scope(scope: Seq<char>, commit: Seq<u8>) -> Seq<char> {
    path_in(scope, hex(commit))
}

/// The scope of the changed files of a commit.
pub open spec fn files_scope(scope: Seq<char>, commit: Seq<u8>) -> Seq<char> {
    path_in(commit_scope(scope, commit), "tree_changes"@)
}

/// A commit as it is shown: its head, its message and its changed files.
pub open spec fn commit_lines(
    scope: Seq<char>,
    commit: Seq<u8>,
    details: CommitDetails,
    theme: Theme,
) -> Seq<DetailsLineView> {
    let inner = commit_scope(scope, commit);
    commit_header(path_in(inner, "header"@), commit, details, theme) + message_lines(
        path_in(inner, "message"@),
        displayed(details.message@),
    ) + changes_lines(
        files_scope(scope, commit),
        details.changes@,
        theme,
        details.changes@.len(),
    )
}

/// The paths that are handed out for a commit.
pub open spec fn commit_paths(
    scope: Seq<char>,
    commit: Seq<u8>,
    details: CommitDetails,
) -> Set<Seq<char>> {
    let inner = commit_scope(scope, commit);
    let files = files_scope(scope, commit);
    set![inner, path_in(inner, "header"@), path_in(inner, "message"@), files].union(
        changes_paths(files, details.changes@, details.changes@.len()),
    )
}

/// Writes the head of a commit.
fn render_header<W: LineWriter>(
    id: &SectionId,
    commit: &ObjectId,
    details: &CommitDetails,
    theme: &Theme,
    out: &mut W,
)
    ensures
        final(out).written() == old(out).written() + commit_header(
            id@,
            commit@,
            *details,
            *theme,
        ),
{
    let ghost start = out.written();
    let mut name: Vec<Span> = Vec::new();
    name.push(Span::raw("Commit ID: ".to_owned()));
    name.push(Span::styled(hex_text(commit), theme.commit_id));
    proof {
        assert(span_views(name@) =~= seq![
            raw("Commit ID: "@),
            styled(hex(commit@), theme.commit_id),
        ]);
    }
    out.push_text(id.clone(), Line::from_spans(name));

    let mut author: Vec<Span> = Vec::new();
    author.push(Span::raw("Author:    ".to_owned()));
    let mut author_spans = render_signature(&details.author, theme);
    let ghost author_rest = author_spans@;
    author.append(&mut author_spans);
    proof {
        assert(span_views(author@) =~= seq![raw("Author:    "@)] + span_views(author_rest));
    }
    out.push_text(id.clone(), Line::from_spans(author));

    let mut committer: Vec<Span> = Vec::new();
    committer.push(Span::raw("Committer: ".to_owned()));
    let mut committer_spans = render_signature(&details.committer, theme);
    let ghost committer_rest = committer_spans@;
    committer.append(&mut committer_spans);
    proof {
        assert(span_views(committer@) =~= seq![raw("Committer: "@)] + span_views(
            committer_rest,
        ));
    }
    out.push_text(id.clone(), Line::from_spans(committer));

    out.push_empty_line();
    proof {
        assert(out.written() =~= start + commit_header(id@, commit@, *details, *theme));
    }
}

/// Writes the commit `commit`: its head, its message and its changed files.
pub fn render_commit<W: LineWriter>(
    commit: ObjectId,
    details: &CommitDetails,
    theme: &Theme,
    id_gen: &mut IdGen<'_>,
    out: &mut W,
)
    requires
        changes_fit(details.changes@),
    ensures
        final(out).written() == old(out).written() + commit_lines(
            old(id_gen).scope@,
            commit@,
            *details,
            *theme,
        ),
        final(id_gen).storage@ == old(id_gen).storage@.union(
            commit_paths(old(id_gen).scope@, commit@, *details),
        ),
        final(id_gen).scope@ == old(id_gen).scope@,
        *final(final(id_gen).storage) == *final(old(id_gen).storage),
{
    let ghost start = out.written();
    let ghost kept = id_gen.storage@;
    let ghost scope = id_gen.scope@;
    {
        let mut ids = id_gen.scoped(hex_text(&commit).as_str());
        let header_id = ids.new_id("header");
        render_header(&header_id, &commit, details, theme, out);

        let message_id = ids.new_id("message");
        let message = displayed_text(details.message.as_slice());
        if !message.as_str().is_empty() {
            out.push_text_to_wrap(message_id, message);
            out.push_empty_line();
        }
        build_tree_changes(&details.changes, theme, &mut ids, out);
    }
    proof {
        assert(out.written() =~= start + commit_lines(scope, commit@, *details, *theme));
        assert(id_gen.storage@ =~= kept.union(commit_paths(scope, commit@, *details)));
    }
}

/// True of lines of which none was drawn yet.
pub open spec fn undrawn(lines: Seq<DetailsLineView>) -> bool {
    forall|i: int|
        0 <= i < lines.len() ==> (#[trigger] lines[i] matches DetailsLineView::RawCode {
            highlighted_line,
            ..
        } ==> highlighted_line is None)
}

/// The lines of a hunk are written undrawn.
proof fn lemma_hunk_undrawn(
    id: Seq<char>,
    path: Seq<u8>,
    hunk: DiffHunk,
    converted: bool,
    theme: Theme,
)
    ensures
        undrawn(hunk_lines(id, path, hunk, converted, theme)),
{
    let rows = hunk_rows(id, path, hunk, theme);
    assert forall|k: int| 0 <= k < rows.len() implies (#[trigger] rows[k] matches
        DetailsLineView::RawCode { highlighted_line, .. } ==> highlighted_line is None) by {
        assert(rows[k] == hunk_row(id, path, hunk, theme, k as nat));
    }
}

/// The lines of hunks are written undrawn.
proof fn lemma_hunks_undrawn(
    scope: Seq<char>,
    change: TreeChange,
    hunks: Seq<DiffHunk>,
    converted: bool,
    theme: Theme,
    n: nat,
)
    ensures
        undrawn(hunk_sections(scope, change, hunks, converted, theme, n)),
    decreases n,
{
    if n > 0 {
        let j = (n - 1) as nat;
        lemma_hunks_undrawn(scope, change, hunks, converted, theme, j);
        lemma_hunk_undrawn(
            nth_path(scope, j),
            change.path_bytes@,
            hunks[j as int],
            converted,
            theme,
        );
    }
}

/// The lines of changed files are written undrawn.
proof fn lemma_changes_undrawn(
    scope: Seq<char>,
    changes: Seq<TreeChange>,
    theme: Theme,
    n: nat,
)
    ensures
        undrawn(changes_lines(scope, changes, theme, n)),
    decreases n,
{
    if n > 0 {
        let i = (n - 1) as nat;
        lemma_changes_undrawn(scope, changes, theme, i);
        let change = changes[i as int];
        if let Ok(Some(
            UnifiedPatch::Patch { hunks, is_result_of_binary_to_text_conversion, .. },
        )) = change.patch {
            lemma_hunks_undrawn(
                path_in(nth_path(scope, i), "hunks"@),
                change,
                hunks@,
                is_result_of_binary_to_text_conversion,
                theme,
                hunks@.len(),
            );
        }
    }
}

/// The lines of a commit are written undrawn: highlighting is left to the first drawing.
pub proof fn law_commit_undrawn(
    scope: Seq<char>,
    commit: Seq<u8>,
    details: CommitDetails,
    theme: Theme,
)
    ensures
        undrawn(commit_lines(scope, commit, details, theme)),
{
    lemma_changes_undrawn(
        files_scope(scope, commit),
        details.changes@,
        theme,
        details.changes@.len(),
    );
}

/// A rule takes as many columns as its strokes together.
proof fn lemma_rule_width(width: nat)
    ensures
        text_width("─"@) == 1 ==> spans_width(rule(width)) == width,
    decreases width,
{
    if width > 0 {
        lemma_rule_width((width - 1) as nat);
        assert(rule(width).drop_last() =~= rule((width - 1) as nat));
    }
}

/// The box around a text is as wide above and below the text as beside it, given that its
/// strokes take one column each.
pub proof fn law_box_is_rectangular(text: LineView, theme: Theme)
    ensures
        strokes_are_narrow() ==> rectangular(text, theme),
{
    let width = spans_width(text.spans);
    lemma_rule_width(width + 1);
    let upper = rule(width + 1).push(raw("╮"@));
    let lower = rule(width + 1).push(raw("╯"@));
    let spaced = text.spans.push(raw(" "@));
    let middle = text.spans + seq![raw(" "@), styled("│"@, theme.border)];
    assert(upper.drop_last() =~= rule(width + 1));
    assert(lower.drop_last() =~= rule(width + 1));
    assert(middle.drop_last() =~= spaced);
    assert(spaced.drop_last() =~= text.spans);
    assert(spans_width(spaced) == width + text_width(" "@));
    assert(spans_width(middle) == spans_width(spaced) + text_width("│"@));
    assert(spans_width(upper) == spans_width(rule(width + 1)) + text_width("╮"@));
    assert(spans_width(lower) == spans_width(rule(width + 1)) + text_width("╯"@));
}

/// A changed file whose patch is missing or could not be read takes no line.
pub proof fn law_unread_change_is_hidden(scope: Seq<char>, change: TreeChange, theme: Theme)
    requires
        !(change.patch matches Ok(Some(_))),
    ensures
        change_lines(scope, change, theme) == Seq::<DetailsLineView>::empty(),
        change_paths(scope, change) == Set::<Seq<char>>::empty(),
{
}

} // verus!
