//! What the encodings promise, stated on bytes and characters.
use crate::url::{encoded, encoded_byte, encoded_bytes, hex_of};
use vstd::prelude::*;
use vstd::utf8::encode_utf8;

verus! {

/// The value of a hexadecimal digit below ten, or of a letter from ten on.
pub open spec fn is_digit(c: char, n: int, ten: char) -> bool {
    if n < 10 {
        c as int == '0' as int + n
    } else {
        c as int == ten as int + (n - 10)
    }
}

/// Letters, digits, `-`, `.`, `_` and `~` stand for themselves in a URL; every other byte is a percent
/// sign and two upper-case hexadecimal digits.
pub proof fn bytes_are_encoded(byte: u8)
    ensures
        ({
            let c = byte as char;
            if 'A' as int <= byte <= 'Z' as int || 'a' as int <= byte <= 'z' as int || '0' as int
                <= byte <= '9' as int || c == '-' || c == '.' || c == '_' || c == '~' {
                encoded_byte(byte) == seq![c]
            } else {
                &&& encoded_byte(byte).len() == 3
                &&& encoded_byte(byte)[0] == '%'
                &&& is_digit(encoded_byte(byte)[1], byte as int / 16, 'A')
                &&& is_digit(encoded_byte(byte)[2], byte as int % 16, 'A')
            }
        }),
{
}

/// A text is encoded byte by byte of its UTF-8 form, in order.
pub proof fn texts_are_encoded_by_bytes(value: Seq<char>, a: Seq<u8>, byte: u8)
    ensures
        encoded(value) == encoded_bytes(encode_utf8(value)),
        encoded_bytes(seq![]).len() == 0,
        encoded_bytes(a.push(byte)) == encoded_bytes(a) + encoded_byte(byte),
{
    assert(a.push(byte).drop_last() =~= a);
}

/// Bytes are written as two lower-case hexadecimal digits each, in order.
pub proof fn bytes_are_written_in_hexadecimal(bytes: Seq<u8>, byte: u8)
    ensures
        hex_of(seq![]).len() == 0,
        hex_of(bytes.push(byte)).len() == hex_of(bytes).len() + 2,
        hex_of(bytes.push(byte)).take(hex_of(bytes).len() as int) == hex_of(bytes),
        is_digit(hex_of(bytes.push(byte))[hex_of(bytes).len() as int], byte as int / 16, 'a'),
        is_digit(hex_of(bytes.push(byte))[hex_of(bytes).len() as int + 1], byte as int % 16, 'a'),
{
    assert(bytes.push(byte).drop_last() =~= bytes);
    assert(hex_of(bytes.push(byte)).take(hex_of(bytes).len() as int) =~= hex_of(bytes));
}

} // verus!
