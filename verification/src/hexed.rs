//! Bytes written as hexadecimal text.

use vstd::prelude::*;
use vstd::string::*;
use vstd::utf8::*;

verus! {

/// Whether a byte is a hexadecimal digit, in either letter case.
pub open spec fn is_hex_digit(byte: u8) -> bool {
    48 <= byte <= 57 || 65 <= byte <= 70 || 97 <= byte <= 102
}

/// The value of a hexadecimal digit.
pub open spec fn hex_value(byte: u8) -> int {
    if 48 <= byte <= 57 {
        byte - 48
    } else if 65 <= byte <= 70 {
        byte - 55
    } else {
        byte - 87
    }
}

/// Whether some bytes are hexadecimal text: digits only, and an even number of them.
pub open spec fn is_hex(text: Seq<u8>) -> bool {
    text.len() % 2 == 0 && forall|i: int| 0 <= i < text.len() ==> is_hex_digit(#[trigger] text[i])
}

/// The bytes hexadecimal text spells, two digits to a byte, the high one first.
pub open spec fn hex_bytes(text: Seq<u8>) -> Seq<u8> {
    Seq::new(
        text.len() / 2,
        |i: int| (16 * hex_value(text[2 * i]) + hex_value(text[2 * i + 1])) as u8,
    )
}

/// A hexadecimal digit, in small letters.
pub open spec fn hex_letter(d: int) -> char {
    (if d < 10 {
        48 + d
    } else {
        87 + d
    }) as u8 as char
}

/// Some bytes as hexadecimal text in small letters.
pub open spec fn hex_text(bytes: Seq<u8>) -> Seq<char> {
    Seq::new(
        bytes.len() * 2,
        |i: int|
            hex_letter(
                if i % 2 == 0 {
                    bytes[i / 2] as int / 16
                } else {
                    bytes[i / 2] as int % 16
                },
            ),
    )
}

/// `hex::decode`: the bytes a text spells, where it is hexadecimal digits only, in either letter
/// case, and an even number of them; an error otherwise, which is not looked into.
#[verifier::external_body]
pub(crate) fn hex_decode(text: &str) -> (bytes: Option<Vec<u8>>)
    ensures
        match bytes {
            Some(bytes) => is_hex(encode_utf8(text@)) && bytes@ == hex_bytes(encode_utf8(text@)),
            None => !is_hex(encode_utf8(text@)),
        },
{
    hex::decode(text).ok()
}

/// `hex::encode`: two small hexadecimal digits for each byte, the high one first.
#[verifier::external_body]
pub(crate) fn hex_encode(bytes: &[u8]) -> (text: String)
    requires
        bytes@.len() * 2 <= isize::MAX,
    ensures
        text@ == hex_text(bytes@),
{
    hex::encode(bytes)
}

/// A hex digit means the same in either case, and nothing else is one.
pub proof fn law_hex_ignores_case(byte: u8)
    ensures
        48 <= byte <= 57 ==> is_hex_digit(byte) && hex_value(byte) == byte - 48,
        65 <= byte <= 70 ==> is_hex_digit(byte) && is_hex_digit((byte + 32) as u8) && hex_value(byte)
            == hex_value((byte + 32) as u8) && hex_value(byte) == byte - 65 + 10,
        is_hex_digit(byte) ==> 0 <= hex_value(byte) < 16,
        is_hex_digit(byte) <==> 48 <= byte <= 57 || 65 <= byte <= 70 || 97 <= byte <= 102,
{
}

/// What is written as hexadecimal text reads back as it was.
pub proof fn law_hex_round_trips(bytes: Seq<u8>)
    ensures
        is_hex(encode_utf8(hex_text(bytes))),
        hex_bytes(encode_utf8(hex_text(bytes))) == bytes,
{
    let text = hex_text(bytes);
    assert(is_ascii_chars(text)) by {
        assert forall|i: int| 0 <= i < text.len() implies 0 <= (#[trigger] text[i]) as nat <= 127 by {
            assert(0 <= bytes[i / 2] as int / 16 < 16);
            assert(0 <= bytes[i / 2] as int % 16 < 16);
        }
    }
    is_ascii_chars_encode_utf8(text);
    let encoded = encode_utf8(text);
    assert(encoded.len() == text.len());
    assert forall|i: int| 0 <= i < encoded.len() implies is_hex_digit(#[trigger] encoded[i]) by {
        assert(encoded[i] == text[i] as u8);
        assert(0 <= bytes[i / 2] as int / 16 < 16);
        assert(0 <= bytes[i / 2] as int % 16 < 16);
    }
    assert(hex_bytes(encoded) =~= bytes) by {
        assert forall|i: int| 0 <= i < bytes.len() implies hex_bytes(encoded)[i] == bytes[i] by {
            let b = bytes[i] as int;
            assert(encoded[2 * i] == text[2 * i] as u8);
            assert(encoded[2 * i + 1] == text[2 * i + 1] as u8);
            assert((2 * i) / 2 == i && (2 * i) % 2 == 0);
            assert((2 * i + 1) / 2 == i && (2 * i + 1) % 2 == 1);
            assert(0 <= b / 16 < 16 && 0 <= b % 16 < 16 && 16 * (b / 16) + b % 16 == b);
        }
    }
}

} // verus!
