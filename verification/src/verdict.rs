//! The result of a validation: accepted, or rejected for a stated reason.

use vstd::prelude::*;

verus! {

/// The longest file or folder name, in bytes, that every major file system
/// can hold.
pub const MAX_NAME_LEN: usize = 255;

/// The longest path, in bytes, that FAT32 and exFAT can hold.
pub const MAX_PATH_LEN: usize = 32760;

/// Why a candidate was turned down.
#[derive(Clone, Debug, PartialEq, Eq)]
pub enum Rejection {
    /// The name holds a NUL byte, which ends a string on every C interface.
    NulByte,
    /// The name is longer than [`MAX_NAME_LEN`] bytes.
    NameTooLong { len: usize },
    /// The name has no bytes at all.
    NameEmpty,
    /// The name is not valid UTF-8.
    NotText,
    /// The name ends in a space or a period.
    TrailingSpaceOrPeriod,
    /// The name holds a control character or one of `" * < > ? |`.
    ForbiddenCharacter,
    /// The name holds one of `/`, `\` or `:`.
    PathSeparator,
    /// The name's stem is a DOS device name.
    ReservedName,
    /// The path has no bytes at all.
    PathEmpty,
    /// The path is longer than [`MAX_PATH_LEN`] bytes.
    PathTooLong { len: usize },
    /// The path names a directory where a file is wanted.
    IsDirectory,
    /// The file could not be opened; `cause` is the system's own message.
    Unreadable { cause: String },
    /// The path does not name a directory.
    NotDirectory,
    /// The directory cannot be written to.
    NotWritable,
}

/// Accepted, or rejected with the first rule that the candidate broke.
pub type Verdict = Result<(), Rejection>;

impl Rejection {
    /// The reason in words, as [`Rejection::reason`] gives it.
    pub open spec fn reason_text(self) -> Seq<char> {
        match self {
            Rejection::NulByte => "File/folder names cannot contain NUL bytes"@,
            Rejection::NameTooLong { .. } => "File/folder name is too long"@,
            Rejection::NameEmpty => "File/folder name is empty"@,
            Rejection::NotText => "File/folder names containing non-UTF8 characters aren't portable"@,
            Rejection::TrailingSpaceOrPeriod => "Windows forbids path components ending with spaces/periods"@,
            Rejection::ForbiddenCharacter => "Path component contains invalid characters"@,
            Rejection::PathSeparator => "File/folder names cannot contain path separators"@,
            Rejection::ReservedName => "Filename is reserved on Windows"@,
            Rejection::PathEmpty => "Path is empty"@,
            Rejection::PathTooLong { .. } => "Path is too long"@,
            Rejection::IsDirectory => "Input path must be a file, not a directory"@,
            Rejection::Unreadable { cause } => cause@,
            Rejection::NotDirectory => "Not a directory"@,
            Rejection::NotWritable => "Would be unable to write to destination directory"@,
        }
    }

    /// The reason in words, for a person to read. Where the file could not be
    /// opened it is the system's own message, unchanged.
    pub fn reason(&self) -> (text: String)
        ensures
            text@ == self.reason_text(),
    {
        match self {
            Rejection::NulByte => "File/folder names cannot contain NUL bytes".to_owned(),
            Rejection::NameTooLong { .. } => "File/folder name is too long".to_owned(),
            Rejection::NameEmpty => "File/folder name is empty".to_owned(),
            Rejection::NotText => "File/folder names containing non-UTF8 characters aren't portable".to_owned(),
            Rejection::TrailingSpaceOrPeriod => "Windows forbids path components ending with spaces/periods".to_owned(),
            Rejection::ForbiddenCharacter => "Path component contains invalid characters".to_owned(),
            Rejection::PathSeparator => "File/folder names cannot contain path separators".to_owned(),
            Rejection::ReservedName => "Filename is reserved on Windows".to_owned(),
            Rejection::PathEmpty => "Path is empty".to_owned(),
            Rejection::PathTooLong { .. } => "Path is too long".to_owned(),
            Rejection::IsDirectory => "Input path must be a file, not a directory".to_owned(),
            Rejection::Unreadable { cause } => cause.clone(),
            Rejection::NotDirectory => "Not a directory".to_owned(),
            Rejection::NotWritable => "Would be unable to write to destination directory".to_owned(),
        }
    }
}

} // verus!
