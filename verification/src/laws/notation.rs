//! What holds of numbers, digests, paths and lines of bytes as they are written.

use crate::bytes::{byte_lines, line_len};
use crate::digits::{decimal, digit_count, law_decimal_is_digits, law_decimal_length};
use crate::git::hex;
use crate::highlight::{after_last, extension_of, file_name_of, trim_end};
use crate::ids::path_in;
use crate::text::spaces;
use vstd::prelude::*;

verus! {

/// The number that a text of digits stands for.
pub open spec fn number_of(digits: Seq<char>) -> int
    decreases digits.len(),
{
    if digits.len() == 0 {
        0
    } else {
        10 * number_of(digits.drop_last()) + (digits.last() as int - '0' as int)
    }
}

/// A number in decimal notation reads back as the number, holds nothing but digits, and begins
/// with a zero only if it is zero.
pub proof fn law_decimal_reads_back(n: nat)
    ensures
        number_of(decimal(n)) == n,
        decimal(n).len() > 0,
        decimal(n).len() == digit_count(n),
        forall|k: int| 0 <= k < decimal(n).len() ==> '0' <= #[trigger] decimal(n)[k] <= '9',
        n > 0 ==> decimal(n)[0] != '0',
        n == 0 ==> decimal(n).len() == 1,
    decreases n,
{
    law_decimal_length(n);
    assert forall|k: int| 0 <= k < decimal(n).len() implies '0' <= #[trigger] decimal(n)[k]
        <= '9' by {
        law_decimal_is_digits(n, k);
    }
    if n >= 10 {
        law_decimal_reads_back(n / 10);
        assert(decimal(n).drop_last() =~= decimal(n / 10));
    } else {
        reveal_with_fuel(number_of, 2);
        assert(decimal(n).drop_last() =~= Seq::<char>::empty());
    }
}

/// The number that a lower-case hexadecimal digit stands for.
pub open spec fn hex_value(c: char) -> int {
    if '0' <= c <= '9' {
        c as int - '0' as int
    } else if 'a' <= c <= 'f' {
        c as int - 'a' as int + 10
    } else {
        -1
    }
}

/// A digest in hexadecimal notation reads back byte by byte from pairs of lower-case digits.
pub proof fn law_hex_reads_back(bytes: Seq<u8>, i: int)
    requires
        0 <= i < bytes.len(),
    ensures
        hex(bytes).len() == 2 * bytes.len(),
        0 <= hex_value(hex(bytes)[2 * i]) < 16,
        0 <= hex_value(hex(bytes)[2 * i + 1]) < 16,
        16 * hex_value(hex(bytes)[2 * i]) + hex_value(hex(bytes)[2 * i + 1]) == bytes[i],
{
    assert((2 * i) % 2 == 0 && (2 * i) / 2 == i);
    assert((2 * i + 1) % 2 == 1 && (2 * i + 1) / 2 == i);
}

/// The path of a name reads as its scope, a slash and the name.
pub proof fn law_path_reads(scope: Seq<char>, name: Seq<char>)
    ensures
        path_in(scope, name).len() == scope.len() + 1 + name.len(),
        path_in(scope, name).take(scope.len() as int) == scope,
        path_in(scope, name)[scope.len() as int] == '/',
        path_in(scope, name).skip(scope.len() as int + 1) == name,
{
    assert(path_in(scope, name).take(scope.len() as int) =~= scope);
    assert(path_in(scope, name).skip(scope.len() as int + 1) =~= name);
}

/// Padding is made of as many spaces as were asked for.
pub proof fn law_spaces(count: nat)
    ensures
        spaces(count).len() == count,
        forall|i: int| 0 <= i < count ==> #[trigger] spaces(count)[i] == ' ',
{
}

/// Lines put back together, each with a line feed behind it.
pub open spec fn joined(lines: Seq<Seq<u8>>) -> Seq<u8>
    decreases lines.len(),
{
    if lines.len() == 0 {
        Seq::empty()
    } else {
        lines[0] + seq![10u8] + joined(lines.drop_first())
    }
}

/// What stands before the first line feed holds none, and the line feed stands behind it.
proof fn lemma_line_len(bytes: Seq<u8>)
    ensures
        line_len(bytes) <= bytes.len(),
        line_len(bytes) < bytes.len() ==> bytes[line_len(bytes) as int] == 10,
        forall|i: int| 0 <= i < line_len(bytes) ==> #[trigger] bytes[i] != 10,
    decreases bytes.len(),
{
    if bytes.len() > 0 && bytes[0] != 10 {
        lemma_line_len(bytes.drop_first());
        assert forall|i: int| 0 <= i < line_len(bytes) implies #[trigger] bytes[i] != 10 by {
            if i > 0 {
                assert(bytes.drop_first()[i - 1] == bytes[i]);
            }
        }
    }
}

/// Splitting bytes into lines loses nothing but the ends of lines: without carriage returns,
/// the lines put back together are the bytes, with a line feed at the end. No line holds a
/// line feed.
pub proof fn law_lines_join(bytes: Seq<u8>)
    ensures
        forall|k: int|
            0 <= k < byte_lines(bytes).len() ==> !(#[trigger] byte_lines(bytes)[k]).contains(10),
        !bytes.contains(13) ==> joined(byte_lines(bytes)) == if bytes.len() == 0 || bytes.last()
            == 10 {
            bytes
        } else {
            bytes.push(10)
        },
    decreases bytes.len(),
{
    lemma_line_len(bytes);
    let lines = byte_lines(bytes);
    let end = line_len(bytes) as int;
    if bytes.len() > 0 {
        if end >= bytes.len() {
            assert(lines =~= seq![bytes]);
            assert(lines.drop_first() =~= Seq::<Seq<u8>>::empty());
            reveal_with_fuel(joined, 2);
            assert(bytes + seq![10u8] + Seq::<u8>::empty() =~= bytes.push(10));
            assert(!bytes.contains(10));
        } else {
            let rest = bytes.skip(end + 1);
            law_lines_join(rest);
            assert(lines.drop_first() =~= byte_lines(rest));
            let first = lines[0];
            assert forall|k: int| 0 <= k < lines.len() implies !(#[trigger] lines[k]).contains(
                10,
            ) by {
                if k > 0 {
                    assert(lines[k] == byte_lines(rest)[k - 1]);
                } else if first.contains(10) {
                    let i = choose|i: int| 0 <= i < first.len() && first[i] == 10;
                    assert(bytes[i] == 10);
                }
            }
            if !bytes.contains(13) {
                assert(forall|i: int| 0 <= i < bytes.len() ==> bytes[i] != 13);
                assert(!rest.contains(13));
                if end > 0 {
                    assert(bytes.take(end).last() == bytes[end - 1]);
                }
                assert(first =~= bytes.take(end));
                let whole = if rest.len() == 0 || rest.last() == 10 {
                    rest
                } else {
                    rest.push(10)
                };
                assert(joined(lines) == first + seq![10u8] + whole);
                if rest.len() > 0 {
                    assert(rest.last() == bytes.last());
                }
                assert(bytes.take(end) + seq![10u8] + rest =~= bytes);
                assert(joined(lines) =~= if bytes.last() == 10 {
                    bytes
                } else {
                    bytes.push(10)
                });
            }
        }
    }
}

/// The first of several lines is what stands before the first line feed, without the carriage
/// return that may stand before it; the other lines are those of the rest. Bytes without a line
/// feed are one line.
pub proof fn law_first_line(line: Seq<u8>, rest: Seq<u8>)
    requires
        !line.contains(10),
    ensures
        ({
            let first = if line.len() > 0 && line.last() == 13 {
                line.drop_last()
            } else {
                line
            };
            let lines = byte_lines(line.push(10) + rest);
            &&& lines.len() == 1 + byte_lines(rest).len()
            &&& lines[0] == first
            &&& lines.drop_first() == byte_lines(rest)
            &&& line.len() > 0 ==> byte_lines(line) == seq![line]
        }),
{
    let all = line.push(10) + rest;
    lemma_line_len(all);
    lemma_line_len(line);
    let end = line_len(all) as int;
    assert(all[line.len() as int] == 10);
    if end < line.len() {
        assert(line[end] == all[end]);
        assert(line.contains(line[end]));
    }
    if line_len(line) < line.len() {
        assert(line.contains(line[line_len(line) as int]));
    }
    assert(all.take(end) =~= line);
    assert(all.skip(end + 1) =~= rest);
    assert(byte_lines(all).drop_first() =~= byte_lines(rest));
}

/// What follows a separator that the rest does not hold is that rest.
proof fn lemma_after_last_of(front: Seq<u8>, separator: u8, end: Seq<u8>)
    requires
        !end.contains(separator),
    ensures
        after_last(front.push(separator) + end, separator) == end,
        after_last(end, separator) == end,
    decreases end.len(),
{
    let all = front.push(separator) + end;
    if end.len() == 0 {
        assert(all.last() == separator);
        assert(after_last(all, separator) =~= end);
    } else {
        assert(end[end.len() - 1] == end.last());
        assert(end.last() != separator);
        assert(all.last() == end.last());
        assert(all.drop_last() =~= front.push(separator) + end.drop_last());
        assert forall|i: int| 0 <= i < end.drop_last().len() implies end.drop_last()[i]
            != separator by {
            assert(end.contains(end[i]));
        }
        lemma_after_last_of(front, separator, end.drop_last());
        assert(after_last(all, separator) =~= end);
        assert(after_last(end, separator) =~= end);
    }
}

/// A file in a directory has the name that stands behind the last slash, and the extension that
/// stands behind the last dot of a name that begins with something else.
pub proof fn law_file_in_directory(dir: Seq<u8>, stem: Seq<u8>, extension: Seq<u8>)
    requires
        stem.len() > 0,
        !stem.contains(47),
        extension.len() > 0,
        !extension.contains(47),
        !extension.contains(46),
    ensures
        ({
            let name = stem.push(46) + extension;
            let path = dir.push(47) + name;
            &&& file_name_of(path) == Some(name)
            &&& extension_of(path) == Some(extension)
            &&& file_name_of(name) == Some(name)
            &&& extension_of(name) == Some(extension)
        }),
{
    let name = stem.push(46) + extension;
    let path = dir.push(47) + name;
    assert(extension.contains(extension.last()));
    assert(name.last() == extension.last());
    assert(path.last() == extension.last());
    assert(trim_end(path) == path);
    assert(trim_end(name) == name);
    assert(!name.contains(47)) by {
        if name.contains(47) {
            let i = choose|i: int| 0 <= i < name.len() && name[i] == 47;
            if i < stem.len() {
                assert(stem.contains(stem[i]));
            } else if i > stem.len() {
                assert(extension.contains(extension[i - stem.len() - 1]));
            }
        }
    }
    lemma_after_last_of(dir, 47, name);
    lemma_after_last_of(stem, 46, extension);
    assert(name.len() == stem.len() + 1 + extension.len());
}

/// A name that holds neither slash nor dot is a file name without an extension.
pub proof fn law_file_without_extension(name: Seq<u8>)
    requires
        name.len() > 0,
        !name.contains(47),
        !name.contains(46),
    ensures
        file_name_of(name) == Some(name),
        extension_of(name) is None,
{
    assert(name.contains(name.last()));
    assert(trim_end(name) == name);
    lemma_after_last_of(name, 47, name);
    lemma_after_last_of(name, 46, name);
    assert(name.contains(name[0]));
}

} // verus!
