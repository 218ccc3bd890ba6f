//! The rules for one path component: a file or folder name without
//! separators.
//!
//! The rules are tried in a fixed order and the first one that the name
//! breaks is the one reported.

use crate::charset::{
    forbidden_byte, is_forbidden_byte, is_separator_byte, separator_byte, NUL, PERIOD, SPACE,
};
use crate::reserved::{is_reserved_name, reserved_names};
use crate::text::{
    ends_in_space_or_period, ends_with_space_or_period, lemma_ends_in_space_or_period, text_of,
    uppercase, uppercase_of,
};
use crate::verdict::{Rejection, Verdict, MAX_NAME_LEN};
use vstd::prelude::*;
use vstd::string::StringSliceAdditionalSpecFns;
use vstd::utf8::*;

verus! {

/// A name that holds a NUL byte.
pub open spec fn holds_nul(name: Seq<u8>) -> bool {
    exists|i: int| 0 <= i < name.len() && name[i] == NUL
}

/// A name that holds a control character or one of `" * < > ? |`.
pub open spec fn holds_forbidden_byte(name: Seq<u8>) -> bool {
    exists|i: int| 0 <= i < name.len() && forbidden_byte(#[trigger] name[i])
}

/// A name that holds one of `/`, `\` or `:`.
pub open spec fn holds_separator(name: Seq<u8>) -> bool {
    exists|i: int| 0 <= i < name.len() && separator_byte(#[trigger] name[i])
}

/// The name without its extension: what stands before the last period. A
/// name without a period, or with none but a leading one, is its own stem.
pub open spec fn file_stem(name: Seq<u8>) -> Seq<u8> {
    match name.index_of_last(PERIOD) {
        Some(dot) if dot > 0 => name.take(dot),
        _ => name,
    }
}

/// A name whose stem, put in upper case, is a reserved device name.
pub open spec fn stem_is_reserved(name: Seq<u8>) -> bool {
    reserved_names().contains(uppercase_of(decode_utf8(file_stem(name))))
}

/// The verdict on a file or folder name: the first rule it breaks, in this
/// order, or acceptance.
pub open spec fn filename_verdict(name: Seq<u8>) -> Verdict {
    if holds_nul(name) {
        Err(Rejection::NulByte)
    } else if name.len() > MAX_NAME_LEN {
        Err(Rejection::NameTooLong { len: name.len() as usize })
    } else if name.len() == 0 {
        Err(Rejection::NameEmpty)
    } else if !valid_utf8(name) {
        Err(Rejection::NotText)
    } else if ends_in_space_or_period(decode_utf8(name)) {
        Err(Rejection::TrailingSpaceOrPeriod)
    } else if holds_forbidden_byte(name) {
        Err(Rejection::ForbiddenCharacter)
    } else if holds_separator(name) {
        Err(Rejection::PathSeparator)
    } else if stem_is_reserved(name) {
        Err(Rejection::ReservedName)
    } else {
        Ok(())
    }
}

/// A name that every rule lets pass: between one byte and
/// [`MAX_NAME_LEN`] bytes of well-formed text, with no control character
/// (NUL among them), none of `" * < > ? |`, no `/`, `\` or `:`, not ending
/// in a space or a period, and with a stem that is no reserved device name.
pub open spec fn portable_name(name: Seq<u8>) -> bool {
    &&& 1 <= name.len() <= MAX_NAME_LEN
    &&& valid_utf8(name)
    &&& forall|i: int|
        0 <= i < name.len() ==> {
            &&& #[trigger] name[i] != NUL
            &&& !forbidden_byte(name[i])
            &&& !separator_byte(name[i])
        }
    &&& name.last() != SPACE
    &&& name.last() != PERIOD
    &&& !stem_is_reserved(name)
}

/// The names that are accepted are the portable names, and no others.
pub proof fn lemma_accepted_iff_portable(name: Seq<u8>)
    ensures
        filename_verdict(name) is Ok <==> portable_name(name),
{
    if valid_utf8(name) {
        lemma_ends_in_space_or_period(name);
    }
}

/// Whether `name` holds a NUL byte.
pub fn contains_nul(name: &[u8]) -> (found: bool)
    ensures
        found == holds_nul(name@),
{
    let mut i: usize = 0;
    while i < name.len()
        invariant
            i <= name.len(),
            forall|j: int| 0 <= j < i ==> name@[j] != NUL,
        decreases name.len() - i,
    {
        if name[i] == NUL {
            return true;
        }
        i += 1;
    }
    false
}

/// Whether `name` holds a control character or one of `" * < > ? |`.
pub fn contains_forbidden_byte(name: &[u8]) -> (found: bool)
    ensures
        found == holds_forbidden_byte(name@),
{
    let mut i: usize = 0;
    while i < name.len()
        invariant
            i <= name.len(),
            forall|j: int| 0 <= j < i ==> !forbidden_byte(#[trigger] name@[j]),
        decreases name.len() - i,
    {
        if is_forbidden_byte(name[i]) {
            return true;
        }
        i += 1;
    }
    false
}

/// Whether `name` holds one of `/`, `\` or `:`.
pub fn contains_separator(name: &[u8]) -> (found: bool)
    ensures
        found == holds_separator(name@),
{
    let mut i: usize = 0;
    while i < name.len()
        invariant
            i <= name.len(),
            forall|j: int| 0 <= j < i ==> !separator_byte(#[trigger] name@[j]),
        decreases name.len() - i,
    {
        if is_separator_byte(name[i]) {
            return true;
        }
        i += 1;
    }
    false
}

/// An index that holds `b` and has no `b` after it is the last index of `b`.
proof fn lemma_index_of_last(s: Seq<u8>, b: u8, at: int)
    requires
        0 <= at < s.len(),
        s[at] == b,
        forall|j: int| at < j < s.len() ==> s[j] != b,
    ensures
        s.index_of_last(b) == Some(at),
{
    s.index_of_last_ensures(b);
}

/// The stem of `name`, as text.
pub fn stem_of(name: &str) -> (stem: &str)
    ensures
        stem.spec_bytes() == file_stem(name.spec_bytes()),
        stem@ == decode_utf8(file_stem(name.spec_bytes())),
{
    let bytes = name.as_bytes();
    let mut i: usize = bytes.len();
    while i > 0 && bytes[i - 1] != PERIOD
        invariant
            i <= bytes.len(),
            forall|j: int| i <= j < bytes.len() ==> bytes@[j] != PERIOD,
        decreases i,
    {
        i -= 1;
    }
    proof {
        encode_utf8_decode_utf8(name@);
    }
    if i <= 1 {
        proof {
            if i == 1 {
                lemma_index_of_last(bytes@, PERIOD, 0);
            } else {
                bytes@.index_of_last_ensures(PERIOD);
            }
        }
        return name;
    }
    let dot: usize = i - 1;
    proof {
        lemma_index_of_last(bytes@, PERIOD, dot as int);
        encode_utf8_valid_utf8(name@);
        is_char_boundary_iff_not_is_continuation_byte(bytes@, dot as int);
    }
    let (stem, _) = name.split_at(dot);
    proof {
        assert(stem.spec_bytes() == bytes@.take(dot as int));
        encode_utf8_decode_utf8(stem@);
    }
    stem
}

/// Whether the stem of `name`, put in upper case, is a reserved device name.
pub fn has_reserved_stem(name: &str) -> (reserved: bool)
    ensures
        reserved == stem_is_reserved(name.spec_bytes()),
{
    let upper = uppercase(stem_of(name));
    is_reserved_name(upper.as_str())
}

/// Decides whether `name` can be the name of a file or folder on every major
/// file system, and says which rule it breaks first where it cannot.
pub fn filename_valid_portable(name: &[u8]) -> (verdict: Verdict)
    ensures
        verdict == filename_verdict(name@),
{
    if contains_nul(name) {
        return Err(Rejection::NulByte);
    }
    let len = name.len();
    if len > MAX_NAME_LEN {
        return Err(Rejection::NameTooLong { len });
    }
    if len == 0 {
        return Err(Rejection::NameEmpty);
    }
    let text = match text_of(name) {
        Some(text) => text,
        None => {
            return Err(Rejection::NotText);
        },
    };
    proof {
        encode_utf8_decode_utf8(text@);
    }
    if ends_with_space_or_period(text) {
        return Err(Rejection::TrailingSpaceOrPeriod);
    }
    if contains_forbidden_byte(name) {
        return Err(Rejection::ForbiddenCharacter);
    }
    if contains_separator(name) {
        return Err(Rejection::PathSeparator);
    }
    if has_reserved_stem(text) {
        return Err(Rejection::ReservedName);
    }
    Ok(())
}

} // verus!
