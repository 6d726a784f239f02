//! Editing a text at a byte position.
use vstd::prelude::*;
use vstd::utf8::*;

verus! {

/// `String::insert` puts a character in front of the byte at `idx`.
///
/// It panics where `idx` is no character boundary of the text, which also covers a position
/// behind its end.
pub assume_specification[ String::insert ](s: &mut String, idx: usize, ch: char)
    requires
        is_char_boundary(encode_utf8(old(s)@), idx as int),
    ensures
        encode_utf8(final(s)@) == encode_utf8(old(s)@).subrange(0, idx as int) + encode_scalar(
            ch as u32,
        ) + encode_utf8(old(s)@).subrange(idx as int, encode_utf8(old(s)@).len() as int),
;

/// `String::remove` takes the character that begins at the byte at `idx` out of the text and
/// returns it.
///
/// It panics where no character begins there.
pub assume_specification[ String::remove ](s: &mut String, idx: usize) -> (ch: char)
    requires
        is_char_boundary(encode_utf8(old(s)@), idx as int),
        idx < encode_utf8(old(s)@).len(),
    ensures
        encode_utf8(old(s)@) == encode_utf8(old(s)@).subrange(0, idx as int) + encode_scalar(
            ch as u32,
        ) + encode_utf8(old(s)@).subrange(
            idx + encode_scalar(ch as u32).len(),
            encode_utf8(old(s)@).len() as int,
        ),
        encode_utf8(final(s)@) == encode_utf8(old(s)@).subrange(0, idx as int) + encode_utf8(
            old(s)@,
        ).subrange(
            idx + encode_scalar(ch as u32).len(),
            encode_utf8(old(s)@).len() as int,
        ),
;

/// The length of a text in bytes.
pub fn byte_len(text: &str) -> (len: usize)
    ensures
        len == encode_utf8(text@).len(),
{
    text.as_bytes().len()
}

/// A character whose encoding starts at `index` and that ends where the next boundary is, one
/// byte further, is encoded in that one byte.
pub proof fn lemma_width_between_boundaries(bytes: Seq<u8>, index: int, ch: char)
    requires
        valid_utf8(bytes),
        is_char_boundary(bytes, index),
        is_char_boundary(bytes, index + 1),
        0 <= index < bytes.len(),
        index + encode_scalar(ch as u32).len() <= bytes.len(),
        bytes.subrange(index, index + encode_scalar(ch as u32).len()) == encode_scalar(ch as u32),
    ensures
        encode_scalar(ch as u32).len() == 1,
{
    char_is_scalar(ch);
    if encode_scalar(ch as u32).len() > 1 {
        let code = encode_scalar(ch as u32);
        let scalar = ch as u32;
        assert(bytes[index + 1] == bytes.subrange(index, index + code.len())[1]);
        assert(bytes[index + 1] == code[1]);
        assert(is_continuation_byte(last_continuation_byte(scalar))) by (bit_vector);
        assert(is_continuation_byte(second_last_continuation_byte(scalar))) by (bit_vector);
        assert(is_continuation_byte(third_last_continuation_byte(scalar))) by (bit_vector);
        is_char_boundary_iff_not_is_continuation_byte(bytes, index + 1);
    }
}

} // verus!
