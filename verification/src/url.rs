//! Bytes in hexadecimal and texts in URLs.
use crate::text;
use crate::text::{joined, texts};
use vstd::prelude::*;
use vstd::utf8::{decode_utf8, encode_utf8};

verus! {

/// The hexadecimal digit with the given value; letters start at `ten`.
pub open spec fn hex_digit(n: int, ten: char) -> char {
    if n < 10 {
        (n + 48) as char
    } else {
        (n - 10 + ten as int) as char
    }
}

/// The two hexadecimal digits of a byte.
pub open spec fn hex_byte(byte: u8, ten: char) -> Seq<char> {
    seq![hex_digit(byte as int / 16, ten), hex_digit(byte as int % 16, ten)]
}

/// The lower-case hexadecimal digits of bytes.
pub open spec fn hex_of(bytes: Seq<u8>) -> Seq<char>
    decreases bytes.len(),
{
    if bytes.len() == 0 {
        seq![]
    } else {
        hex_of(bytes.drop_last()) + hex_byte(bytes.last(), 'a')
    }
}

/// Whether a byte is one of the characters that stand for themselves in a URL.
pub open spec fn unreserved(byte: u8) -> bool {
    ||| 65 <= byte <= 90
    ||| 97 <= byte <= 122
    ||| 48 <= byte <= 57
    ||| byte == 45
    ||| byte == 46
    ||| byte == 95
    ||| byte == 126
}

/// What stands for a byte in a URL.
pub open spec fn encoded_byte(byte: u8) -> Seq<char> {
    if unreserved(byte) {
        seq![byte as char]
    } else {
        seq!['%'] + hex_byte(byte, 'A')
    }
}

/// What stands for bytes in a URL.
pub open spec fn encoded_bytes(bytes: Seq<u8>) -> Seq<char>
    decreases bytes.len(),
{
    if bytes.len() == 0 {
        seq![]
    } else {
        encoded_bytes(bytes.drop_last()) + encoded_byte(bytes.last())
    }
}

/// What stands for a text in a URL: its UTF-8 bytes, percent-encoded.
pub open spec fn encoded(value: Seq<char>) -> Seq<char> {
    encoded_bytes(encode_utf8(value))
}

/// What stands for each text of a list in a URL.
pub open spec fn encoded_each(levels: Seq<Seq<char>>) -> Seq<Seq<char>> {
    Seq::new(levels.len(), |i: int| encoded(levels[i]))
}

/// What stands for a namespace in a URL.
pub open spec fn encoded_namespace(levels: Seq<Seq<char>>, separator: Seq<char>) -> Seq<char> {
    joined(encoded_each(levels), separator)
}

/// Appends the two hexadecimal digits of a byte.
fn push_hex(out: &mut String, byte: u8, ten: char)
    requires
        ten == 'a' || ten == 'A',
    ensures
        final(out)@ == old(out)@ + hex_byte(byte, ten),
{
    push_digit(out, byte / 16, ten);
    push_digit(out, byte % 16, ten);
    assert(out@ =~= old(out)@ + hex_byte(byte, ten));
}

/// Appends a hexadecimal digit.
fn push_digit(out: &mut String, n: u8, ten: char)
    requires
        ten == 'a' || ten == 'A',
        n < 16,
    ensures
        final(out)@ == old(out)@.push(hex_digit(n as int, ten)),
{
    if n < 10 {
        out.push((n + 48) as char);
    } else {
        out.push((n - 10 + ten as u8) as char);
    }
}

/// The lower-case hexadecimal digits of bytes.
pub fn hex_encode(bytes: &[u8]) -> (out: String)
    ensures
        out@ == hex_of(bytes@),
{
    let mut out = String::new();
    let mut i: usize = 0;
    assert(bytes@.take(0) =~= seq![]);
    while i < bytes.len()
        invariant
            i <= bytes.len(),
            out@ == hex_of(bytes@.take(i as int)),
        decreases bytes.len() - i,
    {
        assert(bytes@.take(i + 1).drop_last() =~= bytes@.take(i as int));
        push_hex(&mut out, bytes[i], 'a');
        i += 1;
    }
    assert(bytes@.take(i as int) =~= bytes@);
    out
}

/// What stands for a text in a URL.
pub fn encode_component(value: &str) -> (out: String)
    ensures
        out@ == encoded(value@),
{
    let bytes = value.as_bytes();
    let mut out = String::new();
    let mut i: usize = 0;
    assert(bytes@.take(0) =~= seq![]);
    while i < bytes.len()
        invariant
            i <= bytes.len(),
            out@ == encoded_bytes(bytes@.take(i as int)),
        decreases bytes.len() - i,
    {
        let byte = bytes[i];
        let ghost before = out@;
        assert(bytes@.take(i + 1).drop_last() =~= bytes@.take(i as int));
        if (65 <= byte && byte <= 90) || (97 <= byte && byte <= 122) || (48 <= byte && byte <= 57)
            || byte == 45 || byte == 46 || byte == 95 || byte == 126 {
            out.push(byte as char);
            assert(out@ =~= before + encoded_byte(byte));
        } else {
            out.push('%');
            push_hex(&mut out, byte, 'A');
            assert(out@ =~= before + encoded_byte(byte));
        }
        i += 1;
    }
    assert(bytes@.take(i as int) =~= bytes@);
    out
}

/// What stands for a namespace in a URL.
pub fn encode_namespace(levels: &[String], separator: &str) -> (out: String)
    ensures
        out@ == encoded_namespace(texts(levels@), separator@),
{
    let mut list: Vec<String> = Vec::new();
    let mut i: usize = 0;
    while i < levels.len()
        invariant
            i <= levels.len(),
            list.len() == i,
            forall|k: int| 0 <= k < i ==> (#[trigger] list@[k])@ == encoded(levels@[k]@),
        decreases levels.len() - i,
    {
        list.push(encode_component(levels[i].as_str()));
        i += 1;
    }
    assert(texts(list@) =~= encoded_each(texts(levels@)));
    text::join(&list, separator)
}

/// The value of a hexadecimal digit.
pub open spec fn hex_value(c: char) -> Option<int> {
    if '0' <= c && c <= '9' {
        Some(c as int - 48)
    } else if 'a' <= c && c <= 'f' {
        Some(c as int - 97 + 10)
    } else if 'A' <= c && c <= 'F' {
        Some(c as int - 65 + 10)
    } else {
        None
    }
}

/// The bytes that hexadecimal digits stand for, two digits a byte.
pub open spec fn hex_decoded(s: Seq<char>) -> Option<Seq<u8>>
    decreases s.len(),
{
    if s.len() == 0 {
        Some(seq![])
    } else if s.len() == 1 {
        None
    } else {
        let n = s.len() as int;
        match (hex_decoded(s.take(n - 2)), hex_value(s[n - 2]), hex_value(s[n - 1])) {
            (Some(front), Some(high), Some(low)) => Some(front.push((high * 16 + low) as u8)),
            _ => None,
        }
    }
}

/// The bytes that a part of a URL stands for.
pub open spec fn percent_decoded(s: Seq<char>) -> Option<Seq<u8>>
    decreases s.len(),
{
    if s.len() == 0 {
        Some(seq![])
    } else if s[0] == '%' {
        if s.len() < 3 {
            None
        } else {
            match (hex_value(s[1]), hex_value(s[2]), percent_decoded(s.skip(3))) {
                (Some(high), Some(low), Some(rest)) => Some(
                    seq![(high * 16 + low) as u8] + rest,
                ),
                _ => None,
            }
        }
    } else {
        match percent_decoded(s.skip(1)) {
            Some(rest) => Some(seq![s[0] as u8] + rest),
            None => None,
        }
    }
}

/// The bytes of a namespace: those of its levels with a unit separator between each two.
pub open spec fn namespace_bytes(levels: Seq<Seq<char>>) -> Seq<u8>
    decreases levels.len(),
{
    if levels.len() == 0 {
        seq![]
    } else if levels.len() == 1 {
        encode_utf8(levels[0])
    } else {
        namespace_bytes(levels.drop_last()) + seq![0x1fu8] + encode_utf8(levels.last())
    }
}

proof fn lemma_hex_byte(byte: u8, ten: char)
    requires
        ten == 'a' || ten == 'A',
    ensures
        hex_value(hex_byte(byte, ten)[0]) == Some(byte as int / 16),
        hex_value(hex_byte(byte, ten)[1]) == Some(byte as int % 16),
        (byte as int / 16) * 16 + byte as int % 16 == byte,
{
}

proof fn lemma_decode_byte(byte: u8, rest: Seq<char>)
    requires
        percent_decoded(rest) is Some,
    ensures
        percent_decoded(encoded_byte(byte) + rest) == Some(
            seq![byte] + percent_decoded(rest)->0,
        ),
{
    let s = encoded_byte(byte) + rest;
    if unreserved(byte) {
        assert(s.skip(1) =~= rest);
        assert(s[0] == byte as char);
    } else {
        lemma_hex_byte(byte, 'A');
        assert(s[0] == '%');
        assert(s[1] == hex_byte(byte, 'A')[0]);
        assert(s[2] == hex_byte(byte, 'A')[1]);
        assert(s.skip(3) =~= rest);
    }
}

proof fn lemma_decode_bytes(bytes: Seq<u8>, rest: Seq<char>)
    requires
        percent_decoded(rest) is Some,
    ensures
        percent_decoded(encoded_bytes(bytes) + rest) == Some(bytes + percent_decoded(rest)->0),
    decreases bytes.len(),
{
    if bytes.len() == 0 {
        assert(encoded_bytes(bytes) + rest =~= rest);
        assert(bytes + percent_decoded(rest)->0 =~= percent_decoded(rest)->0);
    } else {
        let front = bytes.drop_last();
        let next = encoded_byte(bytes.last()) + rest;
        lemma_decode_byte(bytes.last(), rest);
        lemma_decode_bytes(front, next);
        assert(encoded_bytes(bytes) + rest =~= encoded_bytes(front) + next);
        assert(front + (seq![bytes.last()] + percent_decoded(rest)->0) =~= bytes
            + percent_decoded(rest)->0);
    }
}

/// An encoded text is read back as the bytes of the text.
pub proof fn encoding_is_read_back(value: Seq<char>)
    ensures
        percent_decoded(encoded(value)) == Some(encode_utf8(value)),
{
    lemma_decode_bytes(encode_utf8(value), seq![]);
    assert(encoded(value) + seq![] =~= encoded(value));
    assert(encode_utf8(value) + seq![] =~= encode_utf8(value));
}

/// Different texts are encoded differently.
pub proof fn encoding_is_injective(a: Seq<char>, b: Seq<char>)
    requires
        encoded(a) == encoded(b),
    ensures
        a == b,
{
    encoding_is_read_back(a);
    encoding_is_read_back(b);
    vstd::utf8::encode_utf8_decode_utf8(a);
    vstd::utf8::encode_utf8_decode_utf8(b);
    assert(decode_utf8(encode_utf8(a)) == decode_utf8(encode_utf8(b)));
}

proof fn lemma_encoded_alphabet(bytes: Seq<u8>)
    ensures
        forall|i: int|
            0 <= i < encoded_bytes(bytes).len() ==> url_safe(#[trigger] encoded_bytes(bytes)[i]),
    decreases bytes.len(),
{
    if bytes.len() > 0 {
        let front = encoded_bytes(bytes.drop_last());
        let last = encoded_byte(bytes.last());
        lemma_encoded_alphabet(bytes.drop_last());
        assert forall|i: int| 0 <= i < last.len() implies url_safe(#[trigger] last[i]) by {
            if !unreserved(bytes.last()) && i > 0 {
                assert(last[i] == hex_byte(bytes.last(), 'A')[i - 1]);
            }
        }
        assert forall|i: int| 0 <= i < encoded_bytes(bytes).len() implies url_safe(
            #[trigger] encoded_bytes(bytes)[i],
        ) by {
            if i < front.len() {
                assert(encoded_bytes(bytes)[i] == front[i]);
            } else {
                assert(encoded_bytes(bytes)[i] == last[i - front.len()]);
            }
        }
    }
}

/// Whether a character stands for itself in a URL or begins an encoded byte.
pub open spec fn url_safe(c: char) -> bool {
    c == '%' || (c as int) < 128 && unreserved(c as u8)
}

/// An encoded text holds only characters that a URL takes for nothing else.
pub proof fn encoding_is_url_safe(value: Seq<char>)
    ensures
        forall|i: int| 0 <= i < encoded(value).len() ==> url_safe(#[trigger] encoded(value)[i]),
{
    lemma_encoded_alphabet(encode_utf8(value));
}

proof fn lemma_decode_namespace(levels: Seq<Seq<char>>, rest: Seq<char>)
    requires
        percent_decoded(rest) is Some,
    ensures
        percent_decoded(encoded_namespace(levels, "%1F"@) + rest) == Some(
            namespace_bytes(levels) + percent_decoded(rest)->0,
        ),
    decreases levels.len(),
{
    let separator = "%1F"@;
    reveal_strlit("%1F");
    if levels.len() == 0 {
        assert(encoded_namespace(levels, separator) + rest =~= rest);
        assert(namespace_bytes(levels) + percent_decoded(rest)->0 =~= percent_decoded(rest)->0);
    } else if levels.len() == 1 {
        lemma_decode_bytes(encode_utf8(levels[0]), rest);
        assert(encoded_namespace(levels, separator) == encoded(levels[0]));
    } else {
        let front = levels.drop_last();
        let last = encoded(levels.last()) + rest;
        lemma_decode_bytes(encode_utf8(levels.last()), rest);
        assert(separator =~= encoded_byte(0x1fu8)) by {
            lemma_hex_byte(0x1fu8, 'A');
        }
        lemma_decode_byte(0x1fu8, last);
        lemma_decode_namespace(front, separator + last);
        assert(encoded_each(levels).drop_last() =~= encoded_each(front));
        assert(encoded_namespace(levels, separator) + rest =~= encoded_namespace(front, separator)
            + (separator + last));
        assert(namespace_bytes(front) + (seq![0x1fu8] + (encode_utf8(levels.last())
            + percent_decoded(rest)->0)) =~= namespace_bytes(levels) + percent_decoded(rest)->0);
    }
}

/// A namespace encoded with the default separator is read back as the bytes of its levels with a
/// unit separator between each two.
pub proof fn namespace_is_read_back(levels: Seq<Seq<char>>)
    ensures
        percent_decoded(encoded_namespace(levels, "%1F"@)) == Some(namespace_bytes(levels)),
{
    lemma_decode_namespace(levels, seq![]);
    assert(encoded_namespace(levels, "%1F"@) + seq![] =~= encoded_namespace(levels, "%1F"@));
    assert(namespace_bytes(levels) + seq![] =~= namespace_bytes(levels));
}

/// The hexadecimal digits of bytes are read back as the bytes.
pub proof fn hex_is_read_back(bytes: Seq<u8>)
    ensures
        hex_decoded(hex_of(bytes)) == Some(bytes),
        hex_of(bytes).len() == 2 * bytes.len(),
    decreases bytes.len(),
{
    if bytes.len() > 0 {
        let front = bytes.drop_last();
        let s = hex_of(bytes);
        let n = s.len() as int;
        hex_is_read_back(front);
        lemma_hex_byte(bytes.last(), 'a');
        assert(s.take(n - 2) =~= hex_of(front));
        assert(s[n - 2] == hex_byte(bytes.last(), 'a')[0]);
        assert(s[n - 1] == hex_byte(bytes.last(), 'a')[1]);
        assert(front.push(bytes.last()) =~= bytes);
    } else {
        assert(bytes =~= seq![]);
    }
}

} // verus!
