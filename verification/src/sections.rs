//! What holds of the identifiers of the sections of a commit.

use crate::digits::{decimal, law_decimal_injective, law_decimal_is_digits};
use crate::git::{hex, hex_digit, CommitDetails, DiffHunk, TreeChange, UnifiedPatch};
use crate::hunk::{hunk_lines, hunk_row, hunk_rows};
use crate::ids::{law_path_injective, law_path_splits, path_in};
use crate::lines::DetailsLineView;
use crate::rendering::{
    change_lines, change_paths, changes_lines, changes_paths, commit_lines, commit_paths,
    commit_scope, files_scope, hunk_sections, nth_path, nth_paths,
};
use crate::theme::Theme;
use vstd::prelude::*;

verus! {

/// The identifier of a line, if it has one.
pub open spec fn line_id(line: DetailsLineView) -> Option<Seq<char>> {
    match line {
        DetailsLineView::Text { id, .. } => Some(id),
        DetailsLineView::TextToWrap { id, .. } => Some(id),
        DetailsLineView::RawCode { id, .. } => Some(id),
        DetailsLineView::EmptyLine => None,
    }
}

/// True if every line that has an identifier has one of `ids`.
pub open spec fn identified_by(lines: Seq<DetailsLineView>, ids: Set<Seq<char>>) -> bool {
    forall|i: int|
        0 <= i < lines.len() ==> (line_id(#[trigger] lines[i]) matches Some(id) ==> ids.contains(
            id,
        ))
}

/// The identifier of the hunk `j` of the changed file `i` of a commit.
pub open spec fn hunk_id(scope: Seq<char>, commit: Seq<u8>, i: nat, j: nat) -> Seq<char> {
    nth_path(path_in(nth_path(files_scope(scope, commit), i), "hunks"@), j)
}

/// A number in decimal notation holds no slash.
proof fn lemma_decimal_has_no_slash(n: nat)
    ensures
        !decimal(n).contains('/'),
{
    if decimal(n).contains('/') {
        let k = choose|k: int| 0 <= k < decimal(n).len() && decimal(n)[k] == '/';
        law_decimal_is_digits(n, k);
    }
}

/// Each hunk of a commit is a section of its own.
pub proof fn law_hunk_ids_distinct(
    scope: Seq<char>,
    commit: Seq<u8>,
    i: nat,
    j: nat,
    k: nat,
    l: nat,
)
    requires
        hunk_id(scope, commit, i, j) == hunk_id(scope, commit, k, l),
    ensures
        i == k,
        j == l,
{
    let files = files_scope(scope, commit);
    lemma_decimal_has_no_slash(i);
    lemma_decimal_has_no_slash(j);
    lemma_decimal_has_no_slash(k);
    lemma_decimal_has_no_slash(l);
    reveal_strlit("hunks");
    law_path_splits(
        path_in(nth_path(files, i), "hunks"@),
        decimal(j),
        path_in(nth_path(files, k), "hunks"@),
        decimal(l),
    );
    law_path_splits(nth_path(files, i), "hunks"@, nth_path(files, k), "hunks"@);
    law_path_injective(files, decimal(i), decimal(k));
    law_decimal_injective(i, k);
    law_decimal_injective(j, l);
}

/// The paths of the first sections of a scope are among those of more sections.
proof fn lemma_nth_paths_contain(scope: Seq<char>, j: nat, n: nat)
    requires
        j < n,
    ensures
        nth_paths(scope, n).contains(nth_path(scope, j)),
    decreases n,
{
    if j < n - 1 {
        lemma_nth_paths_contain(scope, j, (n - 1) as nat);
    }
}

/// Every line of a hunk has the identifier of the hunk.
proof fn lemma_hunk_identified(
    id: Seq<char>,
    path: Seq<u8>,
    hunk: DiffHunk,
    converted: bool,
    theme: Theme,
    ids: Set<Seq<char>>,
)
    requires
        ids.contains(id),
    ensures
        identified_by(hunk_lines(id, path, hunk, converted, theme), ids),
{
    let rows = hunk_rows(id, path, hunk, theme);
    assert forall|k: int| 0 <= k < rows.len() implies (line_id(#[trigger] rows[k]) matches Some(
        found,
    ) ==> ids.contains(found)) by {
        assert(rows[k] == hunk_row(id, path, hunk, theme, k as nat));
    }
}

/// The lines of the hunks of a file have identifiers that were handed out.
proof fn lemma_hunks_identified(
    scope: Seq<char>,
    change: TreeChange,
    hunks: Seq<DiffHunk>,
    converted: bool,
    theme: Theme,
    n: nat,
    ids: Set<Seq<char>>,
)
    requires
        nth_paths(scope, n).subset_of(ids),
    ensures
        identified_by(hunk_sections(scope, change, hunks, converted, theme, n), ids),
    decreases n,
{
    if n > 0 {
        let j = (n - 1) as nat;
        lemma_nth_paths_contain(scope, j, n);
        assert(nth_paths(scope, j).subset_of(ids));
        lemma_hunks_identified(scope, change, hunks, converted, theme, j, ids);
        lemma_hunk_identified(
            nth_path(scope, j),
            change.path_bytes@,
            hunks[j as int],
            converted,
            theme,
            ids,
        );
    }
}

/// The lines of a changed file have identifiers that were handed out.
proof fn lemma_change_identified(
    scope: Seq<char>,
    change: TreeChange,
    theme: Theme,
    ids: Set<Seq<char>>,
)
    requires
        change_paths(scope, change).subset_of(ids),
    ensures
        identified_by(change_lines(scope, change, theme), ids),
{
    match change.patch {
        Ok(Some(
            UnifiedPatch::Patch { hunks, is_result_of_binary_to_text_conversion, .. },
        )) => {
            let inner = path_in(scope, "hunks"@);
            assert(nth_paths(inner, hunks@.len()).subset_of(ids));
            lemma_hunks_identified(
                inner,
                change,
                hunks@,
                is_result_of_binary_to_text_conversion,
                theme,
                hunks@.len(),
                ids,
            );
        },
        Ok(Some(UnifiedPatch::Binary)) => {
            assert(change_paths(scope, change).contains(path_in(scope, "binary"@)));
        },
        Ok(Some(UnifiedPatch::TooLarge { .. })) => {
            assert(change_paths(scope, change).contains(path_in(scope, "too_large"@)));
        },
        _ => {},
    }
}

/// The lines of changed files have identifiers that were handed out.
proof fn lemma_changes_identified(
    scope: Seq<char>,
    changes: Seq<TreeChange>,
    theme: Theme,
    n: nat,
    ids: Set<Seq<char>>,
)
    requires
        changes_paths(scope, changes, n).subset_of(ids),
    ensures
        identified_by(changes_lines(scope, changes, theme, n), ids),
    decreases n,
{
    if n > 0 {
        let i = (n - 1) as nat;
        let inner = nth_path(scope, i);
        assert(changes_paths(scope, changes, i).subset_of(ids));
        assert(change_paths(inner, changes[i as int]).subset_of(ids));
        lemma_changes_identified(scope, changes, theme, i, ids);
        lemma_change_identified(inner, changes[i as int], theme, ids);
    }
}

/// Every identifier on a line of a commit was handed out for that commit.
pub proof fn law_lines_are_identified(
    scope: Seq<char>,
    commit: Seq<u8>,
    details: CommitDetails,
    theme: Theme,
)
    ensures
        identified_by(
            commit_lines(scope, commit, details, theme),
            commit_paths(scope, commit, details),
        ),
{
    let ids = commit_paths(scope, commit, details);
    let files = files_scope(scope, commit);
    assert(changes_paths(files, details.changes@, details.changes@.len()).subset_of(ids));
    lemma_changes_identified(files, details.changes@, theme, details.changes@.len(), ids);
}

/// True if every text of `set` begins with `prefix`.
pub open spec fn all_begin_with(set: Set<Seq<char>>, prefix: Seq<char>) -> bool {
    forall|p: Seq<char>| #[trigger] set.contains(p) ==> begins_with(p, prefix)
}

/// True if `text` begins with `prefix`.
pub open spec fn begins_with(text: Seq<char>, prefix: Seq<char>) -> bool {
    prefix.len() <= text.len() && text.take(prefix.len() as int) == prefix
}

/// The path of a name begins with whatever its scope begins with.
proof fn lemma_path_begins(scope: Seq<char>, name: Seq<char>, prefix: Seq<char>)
    requires
        begins_with(scope, prefix),
    ensures
        begins_with(path_in(scope, name), prefix),
{
    assert(path_in(scope, name).take(prefix.len() as int) =~= scope.take(prefix.len() as int));
}

/// The paths of sections begin with whatever their scope begins with.
proof fn lemma_nth_paths_begin(scope: Seq<char>, n: nat, prefix: Seq<char>)
    requires
        begins_with(scope, prefix),
    ensures
        all_begin_with(nth_paths(scope, n), prefix),
    decreases n,
{
    if n > 0 {
        lemma_nth_paths_begin(scope, (n - 1) as nat, prefix);
        lemma_path_begins(scope, decimal((n - 1) as nat), prefix);
    }
}

/// The paths of changed files begin with whatever their scope begins with.
proof fn lemma_changes_paths_begin(
    scope: Seq<char>,
    changes: Seq<TreeChange>,
    n: nat,
    prefix: Seq<char>,
)
    requires
        begins_with(scope, prefix),
    ensures
        all_begin_with(changes_paths(scope, changes, n), prefix),
    decreases n,
{
    if n > 0 {
        let i = (n - 1) as nat;
        let inner = nth_path(scope, i);
        lemma_changes_paths_begin(scope, changes, i, prefix);
        lemma_path_begins(scope, decimal(i), prefix);
        lemma_path_begins(inner, "hunks"@, prefix);
        lemma_path_begins(inner, "binary"@, prefix);
        lemma_path_begins(inner, "too_large"@, prefix);
        if let Ok(Some(UnifiedPatch::Patch { hunks, .. })) = changes[i as int].patch {
            lemma_nth_paths_begin(path_in(inner, "hunks"@), hunks@.len(), prefix);
        }
    }
}

/// Every path that is handed out for a commit begins with the scope of the commit.
pub proof fn law_commit_paths_in_scope(scope: Seq<char>, commit: Seq<u8>, details: CommitDetails)
    ensures
        all_begin_with(commit_paths(scope, commit, details), commit_scope(scope, commit)),
{
    let inner = commit_scope(scope, commit);
    let files = files_scope(scope, commit);
    assert(inner.take(inner.len() as int) =~= inner);
    lemma_path_begins(inner, "header"@, inner);
    lemma_path_begins(inner, "message"@, inner);
    lemma_path_begins(inner, "tree_changes"@, inner);
    lemma_changes_paths_begin(files, details.changes@, details.changes@.len(), inner);
}

/// Bytes that are written alike in hexadecimal notation are the same bytes.
pub proof fn law_hex_injective(a: Seq<u8>, b: Seq<u8>)
    requires
        hex(a) == hex(b),
    ensures
        a == b,
{
    assert(hex(a).len() == 2 * a.len());
    assert(hex(b).len() == 2 * b.len());
    assert forall|i: int| 0 <= i < a.len() implies a[i] == b[i] by {
        assert(hex(a)[2 * i] == hex_digit(a[i] as int / 16));
        assert(hex(b)[2 * i] == hex_digit(b[i] as int / 16));
        assert(hex(a)[2 * i + 1] == hex_digit(a[i] as int % 16));
        assert(hex(b)[2 * i + 1] == hex_digit(b[i] as int % 16));
        assert(a[i] as int / 16 == b[i] as int / 16);
        assert(a[i] as int % 16 == b[i] as int % 16);
    }
    assert(a =~= b);
}

/// Two commits never share a section: the paths that are handed out for them are apart.
pub proof fn law_commits_are_apart(
    scope: Seq<char>,
    commit: Seq<u8>,
    details: CommitDetails,
    other: Seq<u8>,
    other_details: CommitDetails,
)
    requires
        commit.len() == other.len(),
        commit != other,
    ensures
        commit_paths(scope, commit, details).disjoint(
            commit_paths(scope, other, other_details),
        ),
{
    law_commit_paths_in_scope(scope, commit, details);
    law_commit_paths_in_scope(scope, other, other_details);
    let a = commit_scope(scope, commit);
    let b = commit_scope(scope, other);
    assert(hex(commit).len() == hex(other).len());
    assert(a.len() == b.len());
    assert forall|p: Seq<char>|
        commit_paths(scope, commit, details).contains(p) implies !commit_paths(
        scope,
        other,
        other_details,
    ).contains(p) by {
        if commit_paths(scope, other, other_details).contains(p) {
            assert(begins_with(p, a));
            assert(begins_with(p, b));
            law_path_injective(scope, hex(commit), hex(other));
            law_hex_injective(commit, other);
        }
    }
}

} // verus!
