//! Bytes as texts that have one character for each byte.
use vstd::prelude::*;
use crate::text::{characters, utf8_text};

verus! {

/// The text that has one character for each byte.
pub open spec fn byte_text(bytes: Seq<u8>) -> Seq<char> {
    bytes.map_values(|b: u8| b as char)
}

/// The bytes that such a text stands for.
pub open spec fn bytes_of(text: Seq<char>) -> Seq<u8> {
    text.map_values(|c: char| c as u8)
}

/// One more character is encoded after those before it.
proof fn lemma_encode_push(s: Seq<char>, c: char)
    ensures
        vstd::utf8::encode_utf8(s.push(c)) == vstd::utf8::encode_utf8(s)
            + vstd::utf8::encode_scalar(c as u32),
    decreases s.len(),
{
    if s.len() == 0 {
        assert(s.push(c).drop_first() == Seq::<char>::empty());
        assert(s.push(c)[0] == c);
        assert(vstd::utf8::encode_utf8(Seq::<char>::empty()) == Seq::<u8>::empty());
    } else {
        lemma_encode_push(s.drop_first(), c);
        assert(s.push(c).drop_first() == s.drop_first().push(c));
    }
}

/// How the characters below 256 are encoded.
proof fn lemma_low_scalar(b: u8)
    ensures
        b < 128 ==> vstd::utf8::encode_scalar((b as char) as u32) == seq![b],
        b >= 128 ==> vstd::utf8::encode_scalar((b as char) as u32) == seq![
            0xC0u8 | (b >> 6u8),
            0x80u8 | (b & 0x3Fu8),
        ],
{
    let u = (b as char) as u32;
    assert(u == b as u32);
    if b < 128 {
        assert(((b as u32) & 0x7Fu32) as u8 == b) by (bit_vector)
            requires
                b < 128u8,
        ;
    }
    assert(0xC0u8 | ((((b as u32) >> 6u32) & 0x1Fu32) as u8) == 0xC0u8 | (b >> 6u8))
        by (bit_vector);
    assert(0x80u8 | (((b as u32) & 0x3Fu32) as u8) == 0x80u8 | (b & 0x3Fu8)) by (bit_vector);
}

/// The text that has one character for each byte.
pub(crate) fn text_of_bytes(bytes: &Vec<u8>) -> (text: String)
    ensures
        text@ == byte_text(bytes@),
{
    let ghost chars = byte_text(bytes@);
    let mut encoded: Vec<u8> = Vec::new();
    let mut i: usize = 0;
    assert(chars.take(0) == Seq::<char>::empty());
    while i < bytes.len()
        invariant
            i <= bytes.len(),
            chars == byte_text(bytes@),
            encoded@ == vstd::utf8::encode_utf8(chars.take(i as int)),
        decreases bytes.len() - i,
    {
        let b = bytes[i];
        proof {
            assert(chars.take(i + 1) == chars.take(i as int).push(b as char));
            lemma_encode_push(chars.take(i as int), b as char);
            lemma_low_scalar(b);
        }
        if b < 128 {
            encoded.push(b);
        } else {
            encoded.push(0xC0 | (b >> 6));
            encoded.push(0x80 | (b & 0x3F));
        }
        assert(encoded@ == vstd::utf8::encode_utf8(chars.take(i + 1)));
        i = i + 1;
    }
    proof {
        assert(chars.take(chars.len() as int) == chars);
        vstd::utf8::encode_utf8_valid_utf8(chars);
        vstd::utf8::encode_utf8_decode_utf8(chars);
    }
    match utf8_text(encoded) {
        Some(text) => text,
        None => String::new(),
    }
}

/// The bytes that a text stands for that has one character for each.
pub(crate) fn low_bytes(text: &str) -> (bytes: Vec<u8>)
    ensures
        bytes@ == bytes_of(text@),
{
    let chars = characters(text);
    let mut bytes: Vec<u8> = Vec::new();
    let mut i: usize = 0;
    while i < chars.len()
        invariant
            i <= chars.len(),
            chars@ == text@,
            bytes@ == bytes_of(text@).take(i as int),
        decreases chars.len() - i,
    {
        bytes.push(
            #[verifier::truncate]
            (chars[i] as u8),
        );
        i = i + 1;
    }
    bytes
}

/// The bytes come back from their text.
pub proof fn bytes_come_back(bytes: Seq<u8>)
    ensures
        bytes_of(byte_text(bytes)) == bytes,
        byte_text(bytes).len() == bytes.len(),
        forall|i: int|
            0 <= i < bytes.len() ==> (#[trigger] byte_text(bytes)[i]) as int == bytes[i] as int,
{
}

} // verus!
