//! Text encodings of byte strings: hexadecimal, Base64, Base32 and UTF-8.

use vstd::prelude::*;
use vstd::string::StringSliceAdditionalSpecFns;
use vstd::utf8::{decode_utf8, encode_utf8, is_ascii_chars, is_ascii_chars_encode_utf8, valid_utf8};

use base64::Engine;

verus! {

/// The lower-case hexadecimal digit of a value below 16.
pub open spec fn hex_digit(value: int) -> char {
    if value < 10 {
        (0x30 + value) as char
    } else {
        (0x61 + value - 10) as char
    }
}

/// The value of a hexadecimal digit, in either case; `None` for any other byte.
pub open spec fn hex_value(digit: u8) -> Option<int> {
    if 0x30 <= digit <= 0x39 {
        Some(digit - 0x30)
    } else if 0x61 <= digit <= 0x66 {
        Some(digit - 0x61 + 10)
    } else if 0x41 <= digit <= 0x46 {
        Some(digit - 0x41 + 10)
    } else {
        None
    }
}

/// Hexadecimal text of a byte string: two lower-case digits per byte, the high
/// half first.
pub open spec fn hex_text(bytes: Seq<u8>) -> Seq<char> {
    Seq::new(
        2 * bytes.len(),
        |i: int|
            if i % 2 == 0 {
                hex_digit(bytes[i / 2] as int / 16)
            } else {
                hex_digit(bytes[i / 2] as int % 16)
            },
    )
}

/// Whether every byte of a text is a hexadecimal digit and their number is even.
pub open spec fn is_hex(text: Seq<u8>) -> bool {
    &&& text.len() % 2 == 0
    &&& forall|i: int| 0 <= i < text.len() ==> (#[trigger] hex_value(text[i])) is Some
}

/// The bytes that a hexadecimal text stands for, where it is one.
pub open spec fn hex_bytes(text: Seq<u8>) -> Option<Seq<u8>> {
    if is_hex(text) {
        Some(
            Seq::new(
                text.len() / 2,
                |i: int| (hex_value(text[2 * i])->0 * 16 + hex_value(text[2 * i + 1])->0) as u8,
            ),
        )
    } else {
        None
    }
}

/// Hexadecimal text is ASCII, so its UTF-8 bytes are its characters.
pub proof fn lemma_hex_text_ascii(bytes: Seq<u8>)
    ensures
        is_ascii_chars(hex_text(bytes)),
        encode_utf8(hex_text(bytes)).len() == 2 * bytes.len(),
        forall|i: int|
            0 <= i < 2 * bytes.len() ==> #[trigger] encode_utf8(hex_text(bytes))[i] == hex_text(
                bytes,
            )[i] as u8,
{
    let text = hex_text(bytes);
    assert forall|i: int| 0 <= i < text.len() implies '\0' <= #[trigger] text[i] <= '\u{7f}' by {
        let b = bytes[i / 2] as int;
        assert(0 <= b / 16 < 16 && 0 <= b % 16 < 16);
    }
    is_ascii_chars_encode_utf8(text);
}

/// Decoding the hexadecimal text of a byte string gives the byte string back.
pub proof fn lemma_hex_round_trip(bytes: Seq<u8>)
    ensures
        hex_bytes(encode_utf8(hex_text(bytes))) == Some(bytes),
{
    let text = hex_text(bytes);
    let raw = encode_utf8(text);
    lemma_hex_text_ascii(bytes);
    assert forall|i: int| 0 <= i < raw.len() implies {
        &&& i % 2 == 0 ==> hex_value(raw[i]) == Some(bytes[i / 2] as int / 16)
        &&& i % 2 != 0 ==> hex_value(raw[i]) == Some(bytes[i / 2] as int % 16)
    } by {
        let b = bytes[i / 2] as int;
        assert(0 <= b / 16 < 16 && 0 <= b % 16 < 16);
        assert(raw[i] == text[i] as u8);
    }
    assert(is_hex(raw));
    let decoded = hex_bytes(raw)->0;
    assert forall|k: int| 0 <= k < bytes.len() implies decoded[k] == bytes[k] by {
        let b = bytes[k] as int;
        assert((2 * k) % 2 == 0 && (2 * k) / 2 == k);
        assert((2 * k + 1) % 2 != 0 && (2 * k + 1) / 2 == k);
        assert(hex_value(raw[2 * k]) == Some(b / 16));
        assert(hex_value(raw[2 * k + 1]) == Some(b % 16));
        assert((b / 16) * 16 + b % 16 == b);
    }
    assert(decoded =~= bytes);
}

/// Two byte strings with the same hexadecimal text are the same.
pub proof fn lemma_hex_text_injective(a: Seq<u8>, b: Seq<u8>)
    requires
        hex_text(a) == hex_text(b),
    ensures
        a == b,
{
    lemma_hex_round_trip(a);
    lemma_hex_round_trip(b);
}

/// `hex::FromHexError`: why a text is not hexadecimal. Opaque here.
#[verifier::external_type_specification]
#[verifier::external_body]
pub struct ExFromHexError(hex::FromHexError);

/// Calls `hex::encode`. Trusted: the text holds, for each byte in turn, its
/// high and its low half as digits of `0123456789abcdef`. `requires` leaves
/// out the inputs whose text no allocation can hold.
#[verifier::external_body]
pub(crate) fn hex_encode(bytes: &[u8]) -> (text: String)
    requires
        2 * bytes@.len() <= isize::MAX,
    ensures
        text@ == hex_text(bytes@),
{
    hex::encode(bytes)
}

/// Calls `hex::decode` on the bytes of a text. Trusted: it succeeds exactly on
/// an even number of digits out of `0-9`, `a-f` and `A-F`, and then each pair
/// of digits gives one byte, the high half first.
#[verifier::external_body]
pub(crate) fn hex_decode(text: &str) -> (res: Result<Vec<u8>, hex::FromHexError>)
    ensures
        match res {
            Ok(bytes) => hex_bytes(text.spec_bytes()) == Some(bytes@),
            Err(_) => hex_bytes(text.spec_bytes()) is None,
        },
{
    hex::decode(text)
}

/// The standard, padded Base64 text of a byte string.
pub uninterp spec fn base64_text(bytes: Seq<u8>) -> Seq<char>;

/// The bytes that a text stands for in standard, padded Base64; `None` where
/// the text is not such an encoding.
pub uninterp spec fn base64_bytes(text: Seq<char>) -> Option<Seq<u8>>;

/// The length of the Base64 text of `len` bytes: four characters for every
/// three bytes begun.
pub open spec fn base64_length(len: nat) -> nat {
    4 * ((len + 2) / 3)
}

/// Whether the Base64 text of `len` bytes can be held on this machine.
pub open spec fn base64_encodable(len: nat) -> bool {
    base64_length(len) <= isize::MAX
}

/// `base64::DecodeError`: why a text is not Base64. Opaque here.
#[verifier::external_type_specification]
#[verifier::external_body]
pub struct ExBase64DecodeError(base64::DecodeError);

/// Calls `encode` of `base64::engine::general_purpose::STANDARD`. Trusted: the
/// result is the Base64 text of the bytes, of four characters for every three
/// bytes begun, and decodes to them. The call panics where the length of that
/// text overflows, which `requires` leaves out.
#[verifier::external_body]
pub(crate) fn base64_encode(bytes: &[u8]) -> (text: String)
    requires
        base64_encodable(bytes@.len()),
    ensures
        text@ == base64_text(bytes@),
        text@.len() == base64_length(bytes@.len()),
        base64_bytes(text@) == Some(bytes@),
{
    base64::engine::general_purpose::STANDARD.encode(bytes)
}

/// Calls `decode` of `base64::engine::general_purpose::STANDARD`. Trusted: the
/// result is the decoding of the text, an error where there is none.
#[verifier::external_body]
pub(crate) fn base64_decode(text: &str) -> (res: Result<Vec<u8>, base64::DecodeError>)
    ensures
        match res {
            Ok(bytes) => base64_bytes(text@) == Some(bytes@),
            Err(_) => base64_bytes(text@) is None,
        },
{
    base64::engine::general_purpose::STANDARD.decode(text)
}

/// Whether a byte is a symbol of the Base32 alphabet: `A` to `Z` and `2` to `7`.
pub open spec fn is_base32_symbol(byte: u8) -> bool {
    (0x41 <= byte <= 0x5a) || (0x32 <= byte <= 0x37)
}

/// Whether every byte of a text is a symbol of the Base32 alphabet.
pub open spec fn is_base32_text(text: Seq<u8>) -> bool {
    forall|i: int| 0 <= i < text.len() ==> is_base32_symbol(#[trigger] text[i])
}

/// The bytes that a text stands for in Base32 without padding; `None` where
/// the text is not such an encoding.
pub uninterp spec fn base32_bytes(text: Seq<u8>) -> Option<Seq<u8>>;

/// `data_encoding::DecodeError`: why a text is not Base32. Opaque here.
#[verifier::external_type_specification]
#[verifier::external_body]
pub struct ExBase32DecodeError(data_encoding::DecodeError);

/// Calls `decode` of `data_encoding::BASE32_NOPAD`. Trusted: the result is
/// the decoding of the text, an error where there is none; and only a text
/// made of symbols of the alphabet decodes. The call may panic on a text
/// longer than an eighth of the address space, which `requires` leaves out.
#[verifier::external_body]
pub(crate) fn base32_decode(text: &[u8]) -> (res: Result<Vec<u8>, data_encoding::DecodeError>)
    requires
        text@.len() <= usize::MAX / 8,
    ensures
        match res {
            Ok(bytes) => base32_bytes(text@) == Some(bytes@),
            Err(_) => base32_bytes(text@) is None,
        },
        res is Ok ==> is_base32_text(text@),
{
    data_encoding::BASE32_NOPAD.decode(text)
}

/// `std::string::FromUtf8Error`: bytes that are not UTF-8. Opaque here.
#[verifier::external_type_specification]
#[verifier::external_body]
pub struct ExFromUtf8Error(std::string::FromUtf8Error);

/// `String::from_utf8` accepts exactly the byte strings that are valid UTF-8,
/// and the text then holds the characters that they encode.
pub assume_specification[ String::from_utf8 ](bytes: Vec<u8>) -> (res: Result<
    String,
    std::string::FromUtf8Error,
>)
    ensures
        match res {
            Ok(text) => valid_utf8(bytes@) && text@ == decode_utf8(bytes@),
            Err(_) => !valid_utf8(bytes@),
        },
;

} // verus!
