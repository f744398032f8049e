//! What the details view is told about a commit.

use vstd::prelude::*;

verus! {

/// The digest that names an object.
#[derive(Clone, Copy, Debug, PartialEq, Eq)]
pub struct ObjectId {
    pub bytes: [u8; 20],
}

impl View for ObjectId {
    type V = Seq<u8>;

    open spec fn view(&self) -> Seq<u8> {
        self.bytes@
    }
}

impl ObjectId {
    /// True if both name the same object.
    pub fn same(&self, other: &ObjectId) -> (r: bool)
        ensures
            r == (self@ == other@),
    {
        for i in 0..20
            invariant
                forall|k: int| 0 <= k < i ==> self@[k] == other@[k],
        {
            if self.bytes[i] != other.bytes[i] {
                return false;
            }
        }
        proof {
            assert(self@ =~= other@);
        }
        true
    }
}

/// The lower-case hexadecimal digit of a number below sixteen.
pub open spec fn hex_digit(d: int) -> char {
    if d < 10 {
        ('0' as int + d) as char
    } else {
        ('a' as int + d - 10) as char
    }
}

/// Bytes in lower-case hexadecimal notation, two digits for each byte.
pub open spec fn hex(bytes: Seq<u8>) -> Seq<char> {
    Seq::new(
        2 * bytes.len(),
        |i: int|
            if i % 2 == 0 {
                hex_digit(bytes[i / 2] as int / 16)
            } else {
                hex_digit(bytes[i / 2] as int % 16)
            },
    )
}

/// Calls `to_hex` of `gix::ObjectId` and turns the result into a string. `Display` of
/// `gix::ObjectId` writes the same text.
#[verifier::external_body]
pub(crate) fn hex_text(id: &ObjectId) -> (r: String)
    ensures
        r@ == hex(id@),
{
    gix::ObjectId::from(id.bytes).to_hex().to_string()
}

/// A point in time with the offset from UTC of the clock it was read from.
#[derive(Clone, Copy, Debug, PartialEq, Eq)]
pub struct Time {
    /// Seconds since the start of 1970.
    pub seconds: i64,
    /// Offset in seconds.
    pub offset: i32,
}

/// The time in the default notation of `gix::date`, such as `Thu Sep 4 10:45:06 2022 -0400`,
/// or its seconds where it has no such notation, as `gix::date::Time::format_or_unix` gives it.
pub uninterp spec fn formatted_time(seconds: i64, offset: i32) -> Seq<char>;

/// Calls `gix::date::Time::format_or_unix` with `gix::date::time::format::DEFAULT`. The result
/// is a function of the seconds and the offset.
#[verifier::external_body]
pub(crate) fn time_text(time: &Time) -> (r: String)
    ensures
        r@ == formatted_time(time.seconds, time.offset),
{
    gix::date::Time { seconds: time.seconds, offset: time.offset }
        .format_or_unix(gix::date::time::format::DEFAULT)
}

/// Who did something, and when.
#[derive(Debug, PartialEq, Eq)]
pub struct Signature {
    pub name: Vec<u8>,
    pub email: Vec<u8>,
    pub time: Time,
}

/// What happened to a file.
#[derive(Clone, Copy, Debug, PartialEq, Eq)]
pub enum TreeStatus {
    Addition,
    Deletion,
    Modification,
    Rename,
}

/// A run of changed lines.
#[derive(Debug, PartialEq, Eq)]
pub struct DiffHunk {
    /// The number of the first line in the old file.
    pub old_start: u32,
    pub old_lines: u32,
    /// The number of the first line in the new file.
    pub new_start: u32,
    pub new_lines: u32,
    /// The hunk header, then the lines, each behind `+`, `-` or a space.
    pub diff: Vec<u8>,
}

/// How the content of a file changed.
#[derive(Debug, PartialEq, Eq)]
pub enum UnifiedPatch {
    /// The file is binary.
    Binary,
    /// The file is too large for a diff.
    TooLarge { size_in_bytes: u64 },
    /// The changed lines.
    Patch {
        hunks: Vec<DiffHunk>,
        is_result_of_binary_to_text_conversion: bool,
        lines_added: u32,
        lines_removed: u32,
    },
}

/// Why something could not be read.
#[derive(Debug, PartialEq, Eq)]
pub struct ReadError {
    pub message: String,
}

/// A change of one file.
#[derive(Debug, PartialEq, Eq)]
pub struct TreeChange {
    /// The path as it is shown.
    pub path: Vec<u8>,
    /// The path as it is stored.
    pub path_bytes: Vec<u8>,
    pub status: TreeStatus,
    /// What reading the patch gave; there is none for, say, a submodule.
    pub patch: Result<Option<UnifiedPatch>, ReadError>,
}

/// A commit and its changes against its first parent.
#[derive(Debug, PartialEq, Eq)]
pub struct CommitDetails {
    pub author: Signature,
    pub committer: Signature,
    pub message: Vec<u8>,
    pub changes: Vec<TreeChange>,
}

} // verus!
