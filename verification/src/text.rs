//! Text held in bytes: decoding, comparison and upper case.

use crate::charset::{PERIOD, SPACE};
use vstd::prelude::*;
use vstd::string::StringSliceAdditionalSpecFns;
use vstd::utf8::*;

verus! {

/// The upper-case form of a text, as `str::to_uppercase` gives it: every
/// character replaced by its Unicode upper-case mapping.
pub uninterp spec fn uppercase_of(text: Seq<char>) -> Seq<char>;

/// Reads bytes as text with `core::str::from_utf8`.
///
/// Trusted, not proved: the call gives a string slice exactly when the bytes
/// are well-formed UTF-8, and the slice then holds those same bytes.
#[verifier::external_body]
pub(crate) fn text_of(bytes: &[u8]) -> (text: Option<&str>)
    ensures
        text is Some <==> valid_utf8(bytes@),
        text matches Some(t) ==> t.spec_bytes() == bytes@,
{
    match core::str::from_utf8(bytes) {
        Ok(text) => Some(text),
        Err(_) => None,
    }
}

/// Puts a text in upper case with `str::to_uppercase`.
///
/// Trusted, not proved: the result is a function of the text alone, and
/// [`uppercase_of`] is the name given to it.
#[verifier::external_body]
pub(crate) fn uppercase(text: &str) -> (upper: String)
    ensures
        upper@ == uppercase_of(text@),
{
    text.to_uppercase()
}

/// Two texts with the same UTF-8 encoding are the same text.
pub proof fn lemma_encoding_is_injective(a: Seq<char>, b: Seq<char>)
    requires
        encode_utf8(a) == encode_utf8(b),
    ensures
        a == b,
{
    encode_utf8_decode_utf8(a);
    encode_utf8_decode_utf8(b);
}

/// Whether two string slices hold the same characters.
pub fn same_text(a: &str, b: &str) -> (same: bool)
    ensures
        same == (a@ == b@),
{
    let x = a.as_bytes();
    let y = b.as_bytes();
    if x.len() != y.len() {
        return false;
    }
    let mut i: usize = 0;
    while i < x.len()
        invariant
            i <= x.len(),
            x.len() == y.len(),
            x@ == encode_utf8(a@),
            y@ == encode_utf8(b@),
            forall|j: int| 0 <= j < i ==> x@[j] == y@[j],
        decreases x.len() - i,
    {
        if x[i] != y[i] {
            return false;
        }
        i += 1;
    }
    proof {
        assert(x@ =~= y@);
        lemma_encoding_is_injective(a@, b@);
    }
    true
}

/// The last byte of the encoding of one character: the character itself
/// where it is ASCII, and a byte of `0x80` or more where it is not.
proof fn lemma_last_byte_of_scalar(c: char)
    ensures
        encode_scalar(c as u32).len() > 0,
        (c as u32) < 0x80 ==> encode_scalar(c as u32).last() == c as u32,
        (c as u32) >= 0x80 ==> encode_scalar(c as u32).last() >= 0x80,
{
    let v = c as u32;
    char_is_scalar(c);
    if has_width_1_encoding(v) {
        assert((v & 0x7F) as u8 == v) by (bit_vector)
            requires
                v <= 0x7F,
        ;
    } else {
        assert((0x80 | (v & 0x3F) as u8) >= 0x80) by (bit_vector);
    }
}

/// The last byte of an encoded text tells whether its last character is
/// ASCII, and which one: the two are equal then, and otherwise the byte is
/// `0x80` or more.
pub proof fn lemma_last_byte_of_text(text: Seq<char>)
    requires
        text.len() > 0,
    ensures
        encode_utf8(text).len() > 0,
        (text.last() as u32) < 0x80 ==> encode_utf8(text).last() == text.last() as u32,
        (text.last() as u32) >= 0x80 ==> encode_utf8(text).last() >= 0x80,
    decreases text.len(),
{
    let head = encode_scalar(text[0] as u32);
    let rest = text.drop_first();
    lemma_last_byte_of_scalar(text[0]);
    if rest.len() == 0 {
        assert(encode_utf8(rest) =~= Seq::<u8>::empty());
        assert(encode_utf8(text) =~= head);
    } else {
        lemma_last_byte_of_text(rest);
        assert(encode_utf8(text).last() == encode_utf8(rest).last());
        assert(rest.last() == text.last());
    }
}

/// A text that ends in a space or a period, which the Windows shell strips
/// or refuses.
pub open spec fn ends_in_space_or_period(text: Seq<char>) -> bool {
    text.len() > 0 && (text.last() == ' ' || text.last() == '.')
}

/// Well-formed bytes end in a space or a period as text exactly when their
/// last byte is that of a space or a period.
pub proof fn lemma_ends_in_space_or_period(bytes: Seq<u8>)
    requires
        valid_utf8(bytes),
    ensures
        ends_in_space_or_period(decode_utf8(bytes)) <==> bytes.len() > 0 && (bytes.last() == SPACE
            || bytes.last() == PERIOD),
{
    let text = decode_utf8(bytes);
    decode_utf8_encode_utf8(bytes);
    if text.len() == 0 {
        assert(encode_utf8(text) =~= Seq::<u8>::empty());
    } else {
        lemma_last_byte_of_text(text);
        let c = text.last();
        assert(' ' as u32 == 0x20 && '.' as u32 == 0x2e);
        assert(c as u32 == 0x20 ==> c == ' ') by {
            char_u32_cast(c, c as u32);
        }
        assert(c as u32 == 0x2e ==> c == '.') by {
            char_u32_cast(c, c as u32);
        }
    }
}

/// Whether the last character of `text` is a space or a period.
pub fn ends_with_space_or_period(text: &str) -> (ends: bool)
    ensures
        ends == ends_in_space_or_period(text@),
{
    let bytes = text.as_bytes();
    let len = bytes.len();
    proof {
        encode_utf8_valid_utf8(text@);
        encode_utf8_decode_utf8(text@);
        lemma_ends_in_space_or_period(bytes@);
    }
    if len == 0 {
        return false;
    }
    let last = bytes[len - 1];
    last == SPACE || last == PERIOD
}

} // verus!
