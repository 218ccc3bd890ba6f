//! The classes of bytes that the file name rules tell apart.

use vstd::prelude::*;

verus! {

/// The byte that ends a string on every C interface.
pub const NUL: u8 = 0x00;

/// The first and the last of the low control characters after NUL.
pub const FIRST_CONTROL: u8 = 0x01;

pub const LAST_CONTROL: u8 = 0x1f;

/// The control character DEL.
pub const DELETE: u8 = 0x7f;

/// The space character.
pub const SPACE: u8 = 0x20;

/// `.`, which parts a file name from its extension.
pub const PERIOD: u8 = 0x2e;

/// `"`
pub const QUOTE: u8 = 0x22;

/// `*`
pub const ASTERISK: u8 = 0x2a;

/// `<`
pub const LESS_THAN: u8 = 0x3c;

/// `>`
pub const GREATER_THAN: u8 = 0x3e;

/// `?`
pub const QUESTION_MARK: u8 = 0x3f;

/// `|`
pub const PIPE: u8 = 0x7c;

/// `/`, the path separator of POSIX.
pub const SLASH: u8 = 0x2f;

/// `\`, the path separator of DOS and Windows.
pub const BACKSLASH: u8 = 0x5c;

/// `:`, the drive separator of DOS and the path separator of classic Mac OS.
pub const COLON: u8 = 0x3a;

/// Control characters other than NUL: `0x01` to `0x1f`, and `0x7f`.
pub open spec fn control_byte(b: u8) -> bool {
    (FIRST_CONTROL <= b <= LAST_CONTROL) || b == DELETE
}

/// The punctuation that FAT and NTFS keep for themselves: `" * < > ? |`.
pub open spec fn reserved_punctuation(b: u8) -> bool {
    b == QUOTE || b == ASTERISK || b == LESS_THAN || b == GREATER_THAN || b == QUESTION_MARK || b
        == PIPE
}

/// A byte that no FAT or NTFS file name may hold.
pub open spec fn forbidden_byte(b: u8) -> bool {
    control_byte(b) || reserved_punctuation(b)
}

/// A byte that parts path components on some platform: `/`, `\` or `:`.
pub open spec fn separator_byte(b: u8) -> bool {
    b == SLASH || b == BACKSLASH || b == COLON
}

/// Whether `b` is a control character other than NUL, or one of
/// `" * < > ? |`.
pub fn is_forbidden_byte(b: u8) -> (forbidden: bool)
    ensures
        forbidden == forbidden_byte(b),
{
    (FIRST_CONTROL <= b && b <= LAST_CONTROL) || b == DELETE || b == QUOTE || b == ASTERISK || b
        == LESS_THAN || b == GREATER_THAN || b == QUESTION_MARK || b == PIPE
}

/// Whether `b` is one of `/`, `\` or `:`.
pub fn is_separator_byte(b: u8) -> (separator: bool)
    ensures
        separator == separator_byte(b),
{
    b == SLASH || b == BACKSLASH || b == COLON
}

} // verus!
