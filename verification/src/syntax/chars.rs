//! Character classes and UTF-8 widths.

use vstd::prelude::*;
use vstd::utf8::*;

verus! {

/// Whether `c` is alphabetic in the sense of `char::is_alphabetic`.
pub uninterp spec fn is_alphabetic(c: char) -> bool;

/// Whether `c` is white space in the sense of `char::is_whitespace`.
pub uninterp spec fn is_whitespace(c: char) -> bool;

/// Calls `char::is_alphabetic`; the result is the Unicode `Alphabetic`
/// property of `c`, which this crate only names.
#[verifier::external_body]
pub(crate) fn char_is_alphabetic(c: char) -> (b: bool)
    ensures
        b == is_alphabetic(c),
{
    c.is_alphabetic()
}

/// Calls `char::is_whitespace`; the result is the Unicode `White_Space`
/// property of `c`, which this crate only names.
#[verifier::external_body]
pub(crate) fn char_is_whitespace(c: char) -> (b: bool)
    ensures
        b == is_whitespace(c),
{
    c.is_whitespace()
}

/// Calls `String::push`, which appends `c` to the end of `text`.
#[verifier::external_body]
pub(crate) fn push_char(text: &mut String, c: char)
    ensures
        final(text)@ == old(text)@.push(c),
{
    text.push(c)
}

/// A letter starts an identifier: an alphabetic character or an underscore.
pub open spec fn is_letter(c: char) -> bool {
    is_alphabetic(c) || c == '_'
}

/// A digit is one of the ten decimal digits.
pub open spec fn is_digit(c: char) -> bool {
    '0' <= c <= '9'
}

/// The number of bytes in the UTF-8 encoding of `c`.
pub open spec fn utf8_width(c: char) -> nat {
    encode_scalar(c as u32).len()
}

/// The number of bytes in the UTF-8 encoding of `text`.
pub open spec fn byte_len(text: Seq<char>) -> nat {
    encode_utf8(text).len()
}

/// The byte offset at which the character with index `index` starts.
pub open spec fn byte_offset(text: Seq<char>, index: int) -> nat {
    byte_len(text.take(index))
}

/// Every character takes between one and four bytes.
pub proof fn lemma_utf8_width_bounds(c: char)
    ensures
        1 <= utf8_width(c) <= 4,
        (c as u32) < 0x80 ==> utf8_width(c) == 1,
{
}

/// The encoding of a concatenation is the concatenation of the encodings.
pub proof fn lemma_encode_concat(a: Seq<char>, b: Seq<char>)
    ensures
        encode_utf8(a + b) == encode_utf8(a) + encode_utf8(b),
    decreases a.len(),
{
    if a.len() == 0 {
        assert(a + b =~= b);
        assert(encode_utf8(a) + encode_utf8(b) =~= encode_utf8(b));
    } else {
        lemma_encode_concat(a.drop_first(), b);
        assert((a + b).drop_first() =~= a.drop_first() + b);
        assert(encode_utf8(a + b) =~= encode_utf8(a) + encode_utf8(b));
    }
}

/// Byte offsets grow by the width of each character passed.
pub proof fn lemma_byte_offset_step(text: Seq<char>, index: int)
    requires
        0 <= index < text.len(),
    ensures
        byte_offset(text, index + 1) == byte_offset(text, index) + utf8_width(text[index]),
        byte_offset(text, index + 1) <= byte_len(text),
{
    let head = text.take(index);
    let one = seq![text[index]];
    assert(text.take(index + 1) =~= head + one);
    lemma_encode_concat(head, one);
    assert(one.drop_first() =~= Seq::<char>::empty());
    assert(encode_utf8(one) =~= encode_scalar(text[index] as u32)) by {
        reveal_with_fuel(encode_utf8, 2);
    }
    let tail = text.skip(index + 1);
    assert(text =~= text.take(index + 1) + tail);
    lemma_encode_concat(text.take(index + 1), tail);
}

/// Byte offsets are monotone in the character index.
pub proof fn lemma_byte_offset_monotone(text: Seq<char>, from: int, to: int)
    requires
        0 <= from <= to <= text.len(),
    ensures
        byte_offset(text, from) + (to - from) <= byte_offset(text, to),
        byte_offset(text, to) <= byte_len(text),
    decreases to - from,
{
    if from < to {
        lemma_byte_offset_monotone(text, from, to - 1);
        lemma_byte_offset_step(text, to - 1);
        lemma_utf8_width_bounds(text[to - 1]);
    } else {
        let tail = text.skip(to);
        assert(text =~= text.take(to) + tail);
        lemma_encode_concat(text.take(to), tail);
    }
}

/// Computes the number of bytes in the UTF-8 encoding of `c`.
pub fn char_width(c: char) -> (n: usize)
    ensures
        n == utf8_width(c),
{
    let code: u32 = c as u32;
    if code < 0x80 {
        1
    } else if code < 0x800 {
        2
    } else if code < 0x10000 {
        3
    } else {
        4
    }
}

} // verus!
