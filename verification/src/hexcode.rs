//! Hexadecimal text, written and read by the `hex` crate.

use vstd::prelude::*;
use vstd::utf8::{
    encode_utf8, encode_utf8_decode_utf8, is_ascii_chars, is_ascii_chars_encode_utf8,
};

verus! {

/// The lower-case hexadecimal digit for a number below 16.
pub open spec fn hex_digit(n: u8) -> char
    recommends
        n < 16,
{
    if n < 10 {
        ((0x30 + n) as u8) as char
    } else {
        ((0x57 + n) as u8) as char
    }
}

/// The number that the ASCII code `b` stands for as a hexadecimal digit, in
/// either case; `None` where it is no such digit.
pub open spec fn nibble(b: u8) -> Option<u8> {
    if 0x30 <= b <= 0x39 {
        Some((b - 0x30) as u8)
    } else if 0x61 <= b <= 0x66 {
        Some((b - 0x61 + 10) as u8)
    } else if 0x41 <= b <= 0x46 {
        Some((b - 0x41 + 10) as u8)
    } else {
        None
    }
}

/// The hexadecimal text of `data`: two lower-case digits for each byte, the
/// high half first.
pub open spec fn hex_text(data: Seq<u8>) -> Seq<char> {
    Seq::new(
        2 * data.len(),
        |i: int|
            if i % 2 == 0 {
                hex_digit(data[i / 2] / 16)
            } else {
                hex_digit(data[i / 2] % 16)
            },
    )
}

/// Holds where `text` is an even number of ASCII codes of hexadecimal digits.
pub open spec fn is_hex_text(text: Seq<u8>) -> bool {
    &&& text.len() % 2 == 0
    &&& forall|i: int| 0 <= i < text.len() ==> (#[trigger] nibble(text[i])) is Some
}

/// The bytes that the hexadecimal text `text` spells, one for each two digits.
pub open spec fn hex_decoded(text: Seq<u8>) -> Seq<u8>
    recommends
        is_hex_text(text),
{
    Seq::new(
        text.len() / 2,
        |i: int| (16 * nibble(text[2 * i]).unwrap() + nibble(text[2 * i + 1]).unwrap()) as u8,
    )
}

/// The ASCII codes of a sequence of characters.
pub open spec fn ascii_codes(chars: Seq<char>) -> Seq<u8> {
    Seq::new(chars.len(), |i: int| chars[i] as u8)
}

/// Holds where `chars` is an even number of hexadecimal digits.
pub open spec fn is_hex_chars(chars: Seq<char>) -> bool {
    is_ascii_chars(chars) && is_hex_text(ascii_codes(chars))
}

#[verifier::external_type_specification]
#[verifier::external_body]
pub struct ExFromHexError(hex::FromHexError);

/// Calls `hex::encode`.
///
/// Trusted: the result holds, for each byte of `data` in order, the lower-case
/// digit of its high four bits and then that of its low four bits.
#[verifier::external_body]
pub(crate) fn hex_encode(data: &[u8]) -> (text: String)
    ensures
        text@ == hex_text(data@),
{
    hex::encode(data)
}

/// Calls `hex::decode`.
///
/// Trusted: the call succeeds exactly where `text` has an even length and
/// holds only digits `0-9`, `a-f` and `A-F`, and then each two digits give one
/// byte, the first digit its high four bits.
#[verifier::external_body]
pub(crate) fn hex_decode(text: &[u8]) -> (r: Result<Vec<u8>, hex::FromHexError>)
    ensures
        r is Ok <==> is_hex_text(text@),
        r matches Ok(data) ==> data@ == hex_decoded(text@),
{
    hex::decode(text)
}

/// A digit's code stands for the number that the digit was written for.
pub proof fn lemma_nibble_of_digit(n: u8)
    requires
        n < 16,
    ensures
        hex_digit(n) <= '\u{7f}',
        nibble(hex_digit(n) as u8) == Some(n),
{
}

/// Hexadecimal text is made of hexadecimal digits and spells the bytes that
/// it was written for.
pub proof fn lemma_hex_round_trip(data: Seq<u8>)
    ensures
        hex_text(data).len() == 2 * data.len(),
        is_hex_chars(hex_text(data)),
        hex_decoded(ascii_codes(hex_text(data))) == data,
{
    let text = hex_text(data);
    let codes = ascii_codes(text);
    assert forall|i: int| 0 <= i < text.len() implies '\0' <= #[trigger] text[i] <= '\u{7f}'
        && nibble(text[i] as u8) is Some by {
        lemma_nibble_of_digit(data[i / 2] / 16);
        lemma_nibble_of_digit(data[i / 2] % 16);
    }
    assert forall|i: int| 0 <= i < codes.len() implies (#[trigger] nibble(codes[i])) is Some by {
        assert(codes[i] == text[i] as u8);
    }
    let back = hex_decoded(codes);
    assert forall|i: int| 0 <= i < data.len() implies back[i] == data[i] by {
        lemma_nibble_of_digit(data[i] / 16);
        lemma_nibble_of_digit(data[i] % 16);
        assert(codes[2 * i] == text[2 * i] as u8);
        assert(codes[2 * i + 1] == text[2 * i + 1] as u8);
        assert(text[2 * i] == hex_digit(data[i] / 16));
        assert(text[2 * i + 1] == hex_digit(data[i] % 16));
    }
    assert(back =~= data);
}

/// Text whose UTF-8 encoding holds only ASCII codes is made of ASCII
/// characters, one for each code.
pub proof fn lemma_ascii_encoding(chars: Seq<char>)
    requires
        forall|i: int| 0 <= i < encode_utf8(chars).len() ==> encode_utf8(chars)[i] < 0x80,
    ensures
        is_ascii_chars(chars),
        ascii_codes(chars) == encode_utf8(chars),
{
    let bytes = encode_utf8(chars);
    let plain = Seq::new(bytes.len(), |i: int| bytes[i] as char);
    assert(is_ascii_chars(plain));
    is_ascii_chars_encode_utf8(plain);
    assert(encode_utf8(plain) =~= bytes);
    encode_utf8_decode_utf8(plain);
    encode_utf8_decode_utf8(chars);
    assert(plain == chars);
    assert(ascii_codes(chars) =~= bytes);
}

/// The UTF-8 encoding of ASCII characters is their codes.
pub proof fn lemma_ascii_codes(chars: Seq<char>)
    requires
        is_ascii_chars(chars),
    ensures
        encode_utf8(chars) == ascii_codes(chars),
{
    is_ascii_chars_encode_utf8(chars);
    assert(encode_utf8(chars) =~= ascii_codes(chars));
}

} // verus!
