//! Highlighting of source code.

use crate::text::{
    clone_spans, line_of, plain, raw, span_views, spans_text, Color, Line, LineView, Span, SpanView,
    Style,
};
use bstr::ByteSlice;
use syntect::easy::HighlightLines;
use syntect::highlighting::Theme as SyntaxTheme;
use syntect::parsing::{SyntaxReference, SyntaxSet};
use vstd::prelude::*;
use vstd::utf8::{
    decode_utf8, encode_utf8, is_char_boundary_iff_is_leading_byte, is_leading_byte_width_1,
    pop_first_scalar, valid_utf8, valid_utf8_split,
};

verus! {

/// `syntect::parsing::SyntaxSet`: the grammars that are known.
#[verifier::external_type_specification]
#[verifier::external_body]
pub struct ExSyntaxSet(SyntaxSet);

/// `syntect::parsing::SyntaxReference`: one grammar.
#[verifier::external_type_specification]
#[verifier::external_body]
pub struct ExSyntaxReference(SyntaxReference);

/// `syntect::highlighting::Theme`: the colors of the parts of source code.
#[verifier::external_type_specification]
#[verifier::external_body]
pub struct ExSyntaxTheme(SyntaxTheme);

/// The grammars of a set, in their order.
pub uninterp spec fn syntaxes(set: SyntaxSet) -> Seq<SyntaxReference>;

/// The file extensions that a grammar is for.
pub uninterp spec fn file_extensions(syntax: SyntaxReference) -> Seq<Seq<char>>;

/// The name of a grammar.
pub uninterp spec fn syntax_name(syntax: SyntaxReference) -> Seq<char>;

/// True of the set that comes with `syntect`.
pub uninterp spec fn bundled(set: SyntaxSet) -> bool;

/// An ASCII letter in lower case, and any other character as it is.
pub open spec fn ascii_lower(c: char) -> char {
    if 'A' <= c <= 'Z' {
        (c as int + 32) as char
    } else {
        c
    }
}

/// True if two texts differ at most in the case of ASCII letters.
pub open spec fn eq_ignoring_case(a: Seq<char>, b: Seq<char>) -> bool {
    &&& a.len() == b.len()
    &&& forall|i: int| 0 <= i < a.len() ==> ascii_lower(#[trigger] a[i]) == ascii_lower(b[i])
}

/// True if `extension` is among `extensions`, whatever the case of ASCII letters.
pub open spec fn has_extension(extensions: Seq<Seq<char>>, extension: Seq<char>) -> bool {
    exists|i: int|
        0 <= i < extensions.len() && eq_ignoring_case(#[trigger] extensions[i], extension)
}

/// The last grammar that is for files with the given extension.
pub open spec fn syntax_for_extension(all: Seq<SyntaxReference>, extension: Seq<char>) -> Option<
    SyntaxReference,
>
    decreases all.len(),
{
    if all.len() == 0 {
        None
    } else if has_extension(file_extensions(all.last()), extension) {
        Some(all.last())
    } else {
        syntax_for_extension(all.drop_last(), extension)
    }
}

/// The last grammar of the given name.
pub open spec fn syntax_named(all: Seq<SyntaxReference>, name: Seq<char>) -> Option<
    SyntaxReference,
>
    decreases all.len(),
{
    if all.len() == 0 {
        None
    } else if syntax_name(all.last()) == name {
        Some(all.last())
    } else {
        syntax_named(all.drop_last(), name)
    }
}

/// The grammar without rules.
pub open spec fn plain_text(set: SyntaxSet) -> Option<SyntaxReference> {
    syntax_named(syntaxes(set), "Plain Text"@)
}

/// `syntect::parsing::SyntaxSet::load_defaults_newlines` gives the set that comes with the
/// crate. It holds a grammar for plain text.
pub assume_specification[ SyntaxSet::load_defaults_newlines ]() -> (r: SyntaxSet)
    ensures
        bundled(r),
        plain_text(r) is Some,
;

/// `syntect::parsing::SyntaxSet::find_syntax_by_extension` gives the last grammar that has the
/// extension among its own, whatever the case of ASCII letters.
pub assume_specification<'a>[ SyntaxSet::find_syntax_by_extension ](
    set: &'a SyntaxSet,
    extension: &str,
) -> (r: Option<&'a SyntaxReference>)
    ensures
        match r {
            Some(syntax) => syntax_for_extension(syntaxes(*set), extension@) == Some(*syntax),
            None => syntax_for_extension(syntaxes(*set), extension@) is None,
        },
        r matches Some(syntax) ==> has_extension(file_extensions(*syntax), extension@),
;

/// `syntect::parsing::SyntaxSet::find_syntax_plain_text` gives the last grammar that is named
/// `Plain Text`. There has to be one.
pub assume_specification[ SyntaxSet::find_syntax_plain_text ](set: &SyntaxSet) -> (r:
    &SyntaxReference)
    requires
        plain_text(*set) is Some,
    ensures
        plain_text(*set) == Some(*r),
        syntax_name(*r) == "Plain Text"@,
;

/// What is looked up is one of the grammars.
proof fn lemma_found_is_member(all: Seq<SyntaxReference>, key: Seq<char>)
    ensures
        syntax_for_extension(all, key) matches Some(s) ==> all.contains(s),
        syntax_named(all, key) matches Some(s) ==> all.contains(s),
    decreases all.len(),
{
    if all.len() > 0 {
        lemma_found_is_member(all.drop_last(), key);
        assert(all.contains(all.last()));
        assert forall|s: SyntaxReference| all.drop_last().contains(s) implies all.contains(s) by {
            let i = choose|i: int| 0 <= i < all.drop_last().len() && all.drop_last()[i] == s;
            assert(all[i] == s);
        }
    }
}

/// The model of a text that may be there.
pub open spec fn text_view(text: Option<String>) -> Option<Seq<char>> {
    match text {
        Some(text) => Some(text@),
        None => None,
    }
}

/// The byte that separates the components of a path.
pub const SLASH: u8 = 47;

/// The byte that separates the components of a path on some platforms only.
pub const BACKSLASH: u8 = 92;

/// The byte behind the name of a drive.
pub const COLON: u8 = 58;

/// The byte before an extension.
pub const DOT: u8 = 46;

/// What follows the last `separator`, or all if there is none.
pub open spec fn after_last(bytes: Seq<u8>, separator: u8) -> Seq<u8>
    decreases bytes.len(),
{
    if bytes.len() == 0 || bytes.last() == separator {
        Seq::empty()
    } else {
        after_last(bytes.drop_last(), separator).push(bytes.last())
    }
}

/// A path without the slashes and the components `.` at its end.
pub open spec fn trim_end(path: Seq<u8>) -> Seq<u8>
    decreases path.len(),
{
    if path.len() > 0 && path.last() == SLASH {
        trim_end(path.drop_last())
    } else if path.len() > 1 && path.last() == DOT && path[path.len() - 2] == SLASH {
        trim_end(path.drop_last())
    } else {
        path
    }
}

/// The file name of a path that is written with slashes: its last component, unless that is
/// `..` or the path has none but `.`.
pub open spec fn file_name_of(path: Seq<u8>) -> Option<Seq<u8>> {
    let name = after_last(trim_end(path), SLASH);
    if name.len() == 0 || name == seq![DOT] || name == seq![DOT, DOT] {
        None
    } else {
        Some(name)
    }
}

/// The extension of a file name: what follows its last dot, unless that dot is its first
/// byte.
pub open spec fn extension_in(name: Seq<u8>) -> Option<Seq<u8>> {
    let extension = after_last(name, DOT);
    if extension.len() + 1 >= name.len() {
        None
    } else {
        Some(extension)
    }
}

/// The extension of the file name of a path that is written with slashes.
pub open spec fn extension_of(path: Seq<u8>) -> Option<Seq<u8>> {
    match file_name_of(path) {
        Some(name) => extension_in(name),
        None => None,
    }
}

/// True of a byte that separates components on some platform.
pub open spec fn is_separator(byte: u8) -> bool {
    byte == SLASH || byte == BACKSLASH
}

/// True of a path that begins with two separators, and so with the name of a server or a device
/// on some platforms.
pub open spec fn rooted_twice(path: Seq<u8>) -> bool {
    path.len() >= 2 && is_separator(path[0]) && is_separator(path[1])
}

/// True of a path that may begin with a drive.
pub open spec fn has_drive(path: Seq<u8>) -> bool {
    path.len() >= 2 && path[1] == COLON
}

/// True of a path whose last component is the same on every platform: the path holds no
/// backslash, does not begin with two slashes, and a slash stands between a drive and the last
/// component.
pub open spec fn split_alike(path: Seq<u8>) -> bool {
    &&& !path.contains(BACKSLASH)
    &&& !rooted_twice(path)
    &&& has_drive(path) ==> trim_end(path).contains(SLASH)
}

/// What follows the last slash, backslash or colon. It is the end of the last component,
/// whichever of these a platform splits at.
pub open spec fn tail(path: Seq<u8>) -> Seq<u8> {
    after_last(after_last(after_last(path, SLASH), BACKSLASH), COLON)
}

/// The extension of a path that its tail tells: there is one on every platform, whichever bytes
/// it splits at.
pub open spec fn tail_extension(path: Seq<u8>) -> Option<Seq<u8>> {
    if rooted_twice(path) || tail(path) == seq![DOT, DOT] {
        None
    } else {
        extension_in(tail(path))
    }
}

/// True if `text` is what `bytes` read as. Bytes that are not UTF-8 have no text on some
/// platforms, and a replacement on others.
pub open spec fn reads_as(bytes: Option<Seq<u8>>, text: Option<Seq<char>>) -> bool {
    match bytes {
        Some(bytes) => valid_utf8(bytes) ==> text == Some(decode_utf8(bytes)),
        None => text is None,
    }
}

/// What a lookup of the extension of `path` may give.
pub open spec fn extension_outcome(path: Seq<u8>, extension: Option<Seq<char>>) -> bool {
    &&& split_alike(path) ==> reads_as(extension_of(path), extension)
    &&& tail_extension(path) is Some ==> reads_as(tail_extension(path), extension)
    &&& extension matches Some(e) ==> !e.contains('.')
}

/// What a lookup of the file name of `path` may give.
pub open spec fn file_name_outcome(path: Seq<u8>, name: Option<Seq<char>>) -> bool {
    split_alike(path) ==> reads_as(file_name_of(path), name)
}

/// Calls `bstr::ByteSlice::to_path_lossy`, `extension` of the path and `to_str` of the
/// extension. An extension holds no dot. How a path is split into components, and what becomes
/// of bytes that are not UTF-8, depends on the platform. The result is stated for a path whose
/// last component is the same on every platform, and for one whose last dot follows every byte
/// that a platform may split at, as long as the extension is UTF-8; else it is left open.
#[verifier::external_body]
fn path_extension(path: &[u8]) -> (r: Option<String>)
    ensures
        extension_outcome(path@, text_view(r)),
{
    path.to_path_lossy().extension().and_then(|e| e.to_str()).map(|e| e.to_owned())
}

/// Calls `bstr::ByteSlice::to_path_lossy`, `file_name` of the path and `to_str` of the name.
/// The result is stated for a path whose last component is the same on every platform, as long
/// as its file name is UTF-8; else it is left open, for the reasons given at
/// [`path_extension`].
#[verifier::external_body]
fn path_file_name(path: &[u8]) -> (r: Option<String>)
    ensures
        file_name_outcome(path@, text_view(r)),
{
    path.to_path_lossy().file_name().and_then(|n| n.to_str()).map(|n| n.to_owned())
}

/// The grammar for a file with the given extension and name: one for its extension, else one
/// for its whole name, else the one for plain text.
pub open spec fn chosen_syntax(
    set: SyntaxSet,
    extension: Option<Seq<char>>,
    file_name: Option<Seq<char>>,
) -> Option<SyntaxReference> {
    let all = syntaxes(set);
    if extension is Some && syntax_for_extension(all, extension->0) is Some {
        syntax_for_extension(all, extension->0)
    } else if file_name is Some && syntax_for_extension(all, file_name->0) is Some {
        syntax_for_extension(all, file_name->0)
    } else {
        plain_text(set)
    }
}

/// The grammar of `set` for a file with the given extension and name.
pub fn choose_syntax<'a>(
    set: &'a SyntaxSet,
    extension: &Option<String>,
    file_name: &Option<String>,
) -> (r: &'a SyntaxReference)
    requires
        plain_text(*set) is Some,
    ensures
        chosen_syntax(*set, text_view(*extension), text_view(*file_name)) == Some(*r),
        syntaxes(*set).contains(*r),
{
    proof {
        if let Some(e) = extension {
            lemma_found_is_member(syntaxes(*set), e@);
        }
        if let Some(n) = file_name {
            lemma_found_is_member(syntaxes(*set), n@);
        }
        lemma_found_is_member(syntaxes(*set), "Plain Text"@);
    }
    if let Some(extension) = extension {
        if let Some(syntax) = set.find_syntax_by_extension(extension.as_str()) {
            return syntax;
        }
    }
    if let Some(file_name) = file_name {
        if let Some(syntax) = set.find_syntax_by_extension(file_name.as_str()) {
            return syntax;
        }
    }
    set.find_syntax_plain_text()
}

/// True of the grammars that the file at `path` may be highlighted with. For a path that every
/// platform reads alike there is one.
pub open spec fn path_syntax(set: SyntaxSet, path: Seq<u8>, syntax: SyntaxReference) -> bool {
    exists|extension: Option<Seq<char>>, file_name: Option<Seq<char>>|
        #![trigger chosen_syntax(set, extension, file_name)]
        {
            &&& extension_outcome(path, extension)
            &&& file_name_outcome(path, file_name)
            &&& chosen_syntax(set, extension, file_name) == Some(syntax)
        }
}

/// The grammar of `set` for the file at `path`.
pub fn syntax_for_path<'a>(set: &'a SyntaxSet, path: &[u8]) -> (r: &'a SyntaxReference)
    requires
        plain_text(*set) is Some,
    ensures
        path_syntax(*set, path@, *r),
        syntaxes(*set).contains(*r),
{
    let extension = path_extension(path);
    let file_name = path_file_name(path);
    choose_syntax(set, &extension, &file_name)
}

/// True of a path that every platform reads alike: its last component is the same everywhere,
/// and its file name, if it has one, is UTF-8.
pub open spec fn portable(path: Seq<u8>) -> bool {
    &&& split_alike(path)
    &&& file_name_of(path) matches Some(name) ==> valid_utf8(name)
}

/// The text of bytes in UTF-8 that may be there.
pub open spec fn decoded(bytes: Option<Seq<u8>>) -> Option<Seq<char>> {
    match bytes {
        Some(bytes) => Some(decode_utf8(bytes)),
        None => None,
    }
}

/// What follows the last `separator` is the end of the bytes, and the separator stands before
/// it unless it is all of them.
proof fn lemma_after_last(bytes: Seq<u8>, separator: u8)
    ensures
        ({
            let end = after_last(bytes, separator);
            let start = bytes.len() - end.len();
            &&& 0 <= start
            &&& end == bytes.skip(start)
            &&& start > 0 ==> bytes[start - 1] == separator
        }),
    decreases bytes.len(),
{
    let end = after_last(bytes, separator);
    if bytes.len() > 0 && bytes.last() != separator {
        lemma_after_last(bytes.drop_last(), separator);
    }
    assert(end =~= bytes.skip(bytes.len() - end.len()));
}

/// What follows the last ASCII `separator` of a text in UTF-8 is UTF-8.
proof fn lemma_after_last_is_text(bytes: Seq<u8>, separator: u8)
    requires
        valid_utf8(bytes),
        separator < 128,
    ensures
        valid_utf8(after_last(bytes, separator)),
{
    let end = after_last(bytes, separator);
    lemma_after_last(bytes, separator);
    let start = bytes.len() - end.len();
    if start == 0 {
        assert(end =~= bytes);
    } else {
        let rest = bytes.subrange(start - 1, bytes.len() as int);
        is_char_boundary_iff_is_leading_byte(bytes, start - 1);
        assert(is_leading_byte_width_1(bytes[start - 1]));
        valid_utf8_split(bytes, start - 1);
        assert(rest[0] == separator);
        assert(pop_first_scalar(rest) =~= end);
    }
}

/// A path in UTF-8 is UTF-8 without the end that is trimmed.
proof fn lemma_trim_end_is_text(path: Seq<u8>)
    requires
        valid_utf8(path),
    ensures
        valid_utf8(trim_end(path)),
    decreases path.len(),
{
    if trim_end(path) != path {
        let last = path.len() - 1;
        is_char_boundary_iff_is_leading_byte(path, last);
        assert(is_leading_byte_width_1(path[last]));
        valid_utf8_split(path, last);
        assert(path.drop_last() =~= path.subrange(0, last));
        lemma_trim_end_is_text(path.drop_last());
    }
}

/// The extension of a file name in UTF-8 is UTF-8.
proof fn lemma_extension_is_text(name: Seq<u8>)
    requires
        valid_utf8(name),
    ensures
        extension_in(name) matches Some(extension) ==> valid_utf8(extension),
{
    lemma_after_last_is_text(name, DOT);
}

/// For a path that every platform reads alike the grammar is the one for its extension and
/// its file name.
pub proof fn law_portable_path_syntax(set: SyntaxSet, path: Seq<u8>, syntax: SyntaxReference)
    requires
        portable(path),
        path_syntax(set, path, syntax),
    ensures
        chosen_syntax(set, decoded(extension_of(path)), decoded(file_name_of(path))) == Some(
            syntax,
        ),
{
    if let Some(name) = file_name_of(path) {
        lemma_extension_is_text(name);
    }
}

/// True of a path in UTF-8 that holds no backslash and begins neither with a drive nor with two
/// slashes.
pub open spec fn clean(path: Seq<u8>) -> bool {
    &&& valid_utf8(path)
    &&& !path.contains(BACKSLASH)
    &&& !rooted_twice(path)
    &&& !has_drive(path)
}

/// Every platform reads a clean path alike.
pub proof fn law_clean_is_portable(path: Seq<u8>)
    requires
        clean(path),
    ensures
        portable(path),
{
    lemma_trim_end_is_text(path);
    lemma_after_last_is_text(trim_end(path), SLASH);
}

/// Calls `std::str::from_utf8`, which succeeds on UTF-8 and on nothing else.
#[verifier::external_body]
fn is_utf8(bytes: &[u8]) -> (r: bool)
    ensures
        r == valid_utf8(bytes@),
{
    std::str::from_utf8(bytes).is_ok()
}

/// True if `path` is clean.
fn is_clean(path: &[u8]) -> (r: bool)
    ensures
        r == clean(path@),
{
    if !is_utf8(path) {
        return false;
    }
    for i in 0..path.len()
        invariant
            forall|k: int| 0 <= k < i ==> path@[k] != BACKSLASH,
    {
        if path[i] == BACKSLASH {
            return false;
        }
    }
    path.len() < 2 || (path[1] != COLON && !(path[0] == SLASH && path[1] == SLASH))
}

/// True if the file at `path` is highlighted as plain text, and the path is clean.
pub open spec fn surely_plain(set: SyntaxSet, path: Seq<u8>) -> bool {
    clean(path) && syntax_name(
        chosen_syntax(set, decoded(extension_of(path)), decoded(file_name_of(path)))->0,
    ) == "Plain Text"@
}

/// True if a line of the file at `path` can be highlighted, whatever platform reads the path:
/// one that is not too long, and any line of a file that is surely plain text.
pub open spec fn drawable(set: SyntaxSet, path: Seq<u8>, code: Seq<char>) -> bool {
    encode_utf8(code).len() <= LONGEST_HIGHLIGHTED || surely_plain(set, path)
}

/// True if `code` in the file at `path` can be highlighted.
pub fn line_fits(set: &SyntaxSet, path: &[u8], code: &str) -> (r: bool)
    requires
        plain_text(*set) is Some,
    ensures
        r == drawable(*set, path@, code@),
{
    if is_short(code) {
        return true;
    }
    if !is_clean(path) {
        return false;
    }
    let syntax = syntax_for_path(set, path);
    proof {
        law_clean_is_portable(path@);
        law_portable_path_syntax(*set, path@, *syntax);
    }
    is_plain_text(syntax)
}

/// An extension that is known decides, whatever the rest of the file name holds.
pub proof fn law_known_extension_decides(
    set: SyntaxSet,
    path: Seq<u8>,
    syntax: SyntaxReference,
    extension: Seq<u8>,
)
    requires
        tail_extension(path) == Some(extension) || split_alike(path) && extension_of(path) == Some(
            extension,
        ),
        valid_utf8(extension),
        syntax_for_extension(syntaxes(set), decode_utf8(extension)) is Some,
        path_syntax(set, path, syntax),
    ensures
        syntax_for_extension(syntaxes(set), decode_utf8(extension)) == Some(syntax),
{
}

/// A piece of source code in one color.
#[derive(Debug, PartialEq, Eq)]
pub struct HighlightedRange {
    pub r: u8,
    pub g: u8,
    pub b: u8,
    pub text: String,
}

/// The model of a [`HighlightedRange`].
pub struct RangeView {
    pub r: u8,
    pub g: u8,
    pub b: u8,
    pub text: Seq<char>,
}

impl View for HighlightedRange {
    type V = RangeView;

    open spec fn view(&self) -> RangeView {
        RangeView { r: self.r, g: self.g, b: self.b, text: self.text@ }
    }
}

/// The models of pieces that may be there.
pub open spec fn ranges_view(ranges: Option<Vec<HighlightedRange>>) -> Option<Seq<RangeView>> {
    match ranges {
        Some(ranges) => Some(Seq::new(ranges@.len(), |i: int| ranges@[i]@)),
        None => None,
    }
}

/// The text of the pieces, one after the other.
pub open spec fn ranges_text(ranges: Seq<RangeView>) -> Seq<char>
    decreases ranges.len(),
{
    if ranges.len() == 0 {
        Seq::empty()
    } else {
        ranges_text(ranges.drop_last()) + ranges.last().text
    }
}

/// The pieces that `syntect` splits the first line of a file into, with the foreground color
/// of each; nothing if it reports an error.
pub uninterp spec fn highlighted(
    set: SyntaxSet,
    syntax: SyntaxReference,
    theme: SyntaxTheme,
    code: Seq<char>,
) -> Option<Seq<RangeView>>;

/// The most bytes of a line that every grammar can be trusted with. Some grammars end a string
/// or a comment at a text that its start sets, and the highlighter then compiles a pattern with
/// that text in it. The automaton of a pattern may take ten mebibytes, and the highlighter
/// panics where one needs more. A pattern that holds the text once, and tells upper from lower
/// case, takes one state of 32 bytes for each byte of it; the patterns of the bundled grammars
/// that refer to such a text are all of that kind. So a text of this many bytes takes eight
/// mebibytes, and leaves two for the rest of its pattern.
pub const LONGEST_HIGHLIGHTED: usize = 262144;

/// True of a line that the highlighter can be handed in the grammar `syntax`: one that is not
/// too long, and any line in the grammar for plain text, which holds no such pattern.
pub open spec fn highlightable(syntax: SyntaxReference, code: Seq<char>) -> bool {
    encode_utf8(code).len() <= LONGEST_HIGHLIGHTED || syntax_name(syntax) == "Plain Text"@
}

/// Reads the field `name` of a `syntect::parsing::SyntaxReference`.
#[verifier::external_body]
fn name_text(syntax: &SyntaxReference) -> (r: String)
    ensures
        r@ == syntax_name(*syntax),
{
    syntax.name.clone()
}

/// True if `syntax` is named as the grammar for plain text is.
fn is_plain_text(syntax: &SyntaxReference) -> (r: bool)
    ensures
        r == (syntax_name(*syntax) == "Plain Text"@),
{
    name_text(syntax) == "Plain Text".to_owned()
}

/// True if `code` is not too long for every grammar.
fn is_short(code: &str) -> (r: bool)
    ensures
        r == (encode_utf8(code@).len() <= LONGEST_HIGHLIGHTED),
{
    code.as_bytes().len() <= LONGEST_HIGHLIGHTED
}

/// True if `code` can be highlighted in the grammar `syntax`.
pub fn code_fits(syntax: &SyntaxReference, code: &str) -> (r: bool)
    ensures
        r == highlightable(*syntax, code@),
{
    is_short(code) || is_plain_text(syntax)
}

/// Calls `syntect::easy::HighlightLines::new` and `highlight_line` of what it gives. The result
/// is a function of the grammars, the theme and the code. The pieces make up the code. The
/// grammar has to be one of the set, and the set the one that comes with the crate: of others
/// the crate does not say that they are free of faults. The code has to be
/// [`highlightable`]: on some longer lines the call panics.
#[verifier::external_body]
fn highlight_line(
    set: &SyntaxSet,
    syntax: &SyntaxReference,
    theme: &SyntaxTheme,
    code: &str,
) -> (r: Option<Vec<HighlightedRange>>)
    requires
        bundled(*set),
        syntaxes(*set).contains(*syntax),
        highlightable(*syntax, code@),
    ensures
        ranges_view(r) == highlighted(*set, *syntax, *theme, code@),
        ranges_view(r) matches Some(ranges) ==> ranges_text(ranges) == code@,
{
    let mut lines = HighlightLines::new(syntax, theme);
    let ranges = lines.highlight_line(code, set).ok()?;
    let convert = |(style, text): (syntect::highlighting::Style, &str)| HighlightedRange {
        r: style.foreground.r,
        g: style.foreground.g,
        b: style.foreground.b,
        text: text.to_owned(),
    };
    Some(ranges.into_iter().map(convert).collect())
}

/// A piece of source code as it is shown.
pub open spec fn range_span(range: RangeView, bg: Option<Color>) -> SpanView {
    SpanView {
        content: range.text,
        style: Style { fg: Some(Color::Rgb(range.r, range.g, range.b)), bg, ..plain() },
    }
}

/// Source code as it is shown: its pieces in their colors, or, where there are none, the code
/// as it is.
pub open spec fn code_spans(
    code: Seq<char>,
    bg: Option<Color>,
    ranges: Option<Seq<RangeView>>,
) -> Seq<SpanView> {
    match ranges {
        Some(ranges) => Seq::new(ranges.len(), |i: int| range_span(ranges[i], bg)),
        None => seq![raw(code)],
    }
}

/// The spans that show `code`, given the pieces that it was split into.
pub fn color_ranges(
    code: &str,
    bg: Option<Color>,
    ranges: Option<Vec<HighlightedRange>>,
) -> (r: Vec<Span>)
    ensures
        span_views(r@) == code_spans(code@, bg, ranges_view(ranges)),
{
    let mut spans: Vec<Span> = Vec::new();
    match &ranges {
        None => {
            spans.push(Span::raw(code.to_owned()));
            proof {
                assert(span_views(spans@) =~= seq![raw(code@)]);
            }
        },
        Some(pieces) => {
            for i in 0..pieces.len()
                invariant
                    spans@.len() == i,
                    forall|k: int|
                        0 <= k < i ==> (#[trigger] spans@[k])@ == range_span(pieces@[k]@, bg),
            {
                let piece = &pieces[i];
                let mut style = Style::default().fg(Color::Rgb(piece.r, piece.g, piece.b));
                if let Some(background) = bg {
                    style = style.bg(background);
                }
                spans.push(Span::styled(piece.text.clone(), style));
            }
            proof {
                assert(span_views(spans@) =~= code_spans(code@, bg, ranges_view(ranges)));
            }
        },
    }
    spans
}

/// Coloring pieces does not change their text.
pub proof fn law_coloring_keeps_text(
    code: Seq<char>,
    bg: Option<Color>,
    ranges: Option<Seq<RangeView>>,
)
    requires
        ranges matches Some(pieces) ==> ranges_text(pieces) == code,
    ensures
        spans_text(code_spans(code, bg, ranges)) == code,
{
    match ranges {
        Some(pieces) => {
            lemma_pieces_text(pieces, bg);
        },
        None => {
            assert(seq![raw(code)].drop_last() =~= Seq::<SpanView>::empty());
            reveal_with_fuel(spans_text, 2);
            assert(spans_text(seq![raw(code)]) =~= code);
        },
    }
}

/// The spans of pieces hold the text of the pieces.
proof fn lemma_pieces_text(pieces: Seq<RangeView>, bg: Option<Color>)
    ensures
        spans_text(Seq::new(pieces.len(), |i: int| range_span(pieces[i], bg))) == ranges_text(
            pieces,
        ),
    decreases pieces.len(),
{
    if pieces.len() > 0 {
        let spans = Seq::new(pieces.len(), |i: int| range_span(pieces[i], bg));
        let init = pieces.drop_last();
        lemma_pieces_text(init, bg);
        assert(spans.drop_last() =~= Seq::new(init.len(), |i: int| range_span(init[i], bg)));
    }
}

/// The spans that show `code` in the grammar `syntax`: each piece in the color that the theme
/// gives it, on the background `bg`. Code that cannot be parsed is shown as it is.
pub fn syntax_highlight(
    code: &str,
    bg: Option<Color>,
    syntax: &SyntaxReference,
    syntax_theme: &SyntaxTheme,
    syntax_set: &SyntaxSet,
) -> (r: Vec<Span>)
    requires
        bundled(*syntax_set),
        syntaxes(*syntax_set).contains(*syntax),
        highlightable(*syntax, code@),
    ensures
        span_views(r@) == code_spans(
            code@,
            bg,
            highlighted(*syntax_set, *syntax, *syntax_theme, code@),
        ),
        spans_text(span_views(r@)) == code@,
{
    let ranges = highlight_line(syntax_set, syntax, syntax_theme, code);
    proof {
        law_coloring_keeps_text(code@, bg, ranges_view(ranges));
    }
    color_ranges(code, bg, ranges)
}

/// A line of source code behind its line numbers, highlighted in the grammar `syntax`.
pub open spec fn drawn_code(
    set: SyntaxSet,
    theme: SyntaxTheme,
    syntax: SyntaxReference,
    line_numbers: Seq<SpanView>,
    code: Seq<char>,
    bg: Option<Color>,
) -> LineView {
    line_of(line_numbers + code_spans(code, bg, highlighted(set, syntax, theme, code)))
}

/// True of the lines that a line of source code in the file at `path` may be drawn as: the text
/// is that of the line numbers and the code. For a path that every platform reads alike there
/// is one.
pub open spec fn is_drawing(
    set: SyntaxSet,
    theme: SyntaxTheme,
    line_numbers: Seq<SpanView>,
    code: Seq<char>,
    path: Seq<u8>,
    bg: Option<Color>,
    drawn: LineView,
) -> bool {
    &&& spans_text(drawn.spans) == spans_text(line_numbers) + code
    &&& exists|syntax: SyntaxReference|
        #![trigger path_syntax(set, path, syntax)]
        path_syntax(set, path, syntax) && drawn == drawn_code(
            set,
            theme,
            syntax,
            line_numbers,
            code,
            bg,
        )
}

/// The text of spans behind others is the text of both.
proof fn lemma_text_of_both(a: Seq<SpanView>, b: Seq<SpanView>)
    ensures
        spans_text(a + b) == spans_text(a) + spans_text(b),
    decreases b.len(),
{
    if b.len() == 0 {
        assert(a + b =~= a);
        assert(spans_text(a) + spans_text(b) =~= spans_text(a));
    } else {
        lemma_text_of_both(a, b.drop_last());
        assert((a + b).drop_last() =~= a + b.drop_last());
        assert(spans_text(a + b) =~= spans_text(a) + spans_text(b));
    }
}

/// `code` behind its line numbers, highlighted as the file at `path` is.
pub fn draw_code(
    syntax_set: &SyntaxSet,
    syntax_theme: &SyntaxTheme,
    line_numbers: &Vec<Span>,
    code: &str,
    path: &[u8],
    bg: Option<Color>,
) -> (r: Line)
    requires
        bundled(*syntax_set),
        plain_text(*syntax_set) is Some,
        drawable(*syntax_set, path@, code@),
    ensures
        is_drawing(
            *syntax_set,
            *syntax_theme,
            span_views(line_numbers@),
            code@,
            path@,
            bg,
            r@,
        ),
{
    let syntax = syntax_for_path(syntax_set, path);
    proof {
        if surely_plain(*syntax_set, path@) {
            law_clean_is_portable(path@);
            law_portable_path_syntax(*syntax_set, path@, *syntax);
        }
    }
    let mut spans = clone_spans(line_numbers);
    let ghost numbers = spans@;
    let mut colored = syntax_highlight(code, bg, syntax, syntax_theme, syntax_set);
    let ghost rest = colored@;
    spans.append(&mut colored);
    proof {
        assert(span_views(spans@) =~= span_views(numbers) + span_views(rest));
        assert(path_syntax(*syntax_set, path@, *syntax));
        lemma_text_of_both(span_views(numbers), span_views(rest));
    }
    Line::from_spans(spans)
}

} // verus!
