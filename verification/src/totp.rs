//! Time-based one-time passwords: the counter-based algorithm over the number
//! of periods elapsed since the Unix epoch.

use vstd::prelude::*;
use vstd::string::StringExecFns;
use vstd::utf8::{char_is_scalar, encode_scalar, encode_utf8};

use std::time::SystemTime;

use crate::account::OtpHashAlgorithm;
use crate::clock::since_unix_epoch;
use crate::encoding::{base32_bytes, base32_decode, is_base32_symbol, is_base32_text};
use crate::error::{text_result, CryptoError};
use crate::mac::{compute_hmac, counter_bytes, hmac_tag};

verus! {

/// The fewest digits of a code.
pub const MIN_DIGITS: u32 = 6;

/// The most digits of a code.
pub const MAX_DIGITS: u32 = 8;

/// Whether a byte is ASCII white space: a space, or one of the controls from
/// tab to carriage return.
pub open spec fn is_ascii_space(byte: u8) -> bool {
    byte == 0x20 || (0x09 <= byte <= 0x0d)
}

/// A byte with an ASCII lower-case letter turned to upper case.
pub open spec fn ascii_upper(byte: u8) -> u8 {
    if 0x61 <= byte <= 0x7a {
        (byte - 0x20) as u8
    } else {
        byte
    }
}

/// A secret as it is decoded: without white space and in upper case.
pub open spec fn normalized_secret(text: Seq<u8>) -> Seq<u8> {
    text.filter(|byte: u8| !is_ascii_space(byte)).map_values(|byte: u8| ascii_upper(byte))
}

/// The longest normalized secret that is decoded, in bytes.
pub open spec fn longest_secret() -> nat {
    (usize::MAX / 8) as nat
}

/// The key that a Base32 secret stands for.
///
/// The secret is normalized; it must then consist of symbols of the Base32
/// alphabet and be the unpadded Base32 encoding of the key. `None` where it
/// is not, or where it is longer than `longest_secret()`.
pub open spec fn secret_key(secret: Seq<char>) -> Option<Seq<u8>> {
    let text = normalized_secret(encode_utf8(secret));
    if text.len() <= longest_secret() && is_base32_text(text) {
        base32_bytes(text)
    } else {
        None
    }
}

/// Ten to the power of `exponent`.
pub open spec fn pow10(exponent: nat) -> nat
    decreases exponent,
{
    if exponent == 0 {
        1
    } else {
        10 * pow10((exponent - 1) as nat)
    }
}

/// The 31-bit number that dynamic truncation reads out of a tag: the low
/// four bits of the last byte give an offset, and the four bytes from there
/// are read most significant first, without the top bit.
pub open spec fn truncated(tag: Seq<u8>) -> nat {
    let offset = tag.last() as int % 16;
    ((tag[offset] as int % 0x80) * 0x100_0000 + tag[offset + 1] as int * 0x1_0000 + tag[offset
        + 2] as int * 0x100 + tag[offset + 3] as int) as nat
}

/// The decimal digit of a value below ten.
pub open spec fn digit_char(value: int) -> char {
    (0x30 + value) as char
}

/// The last `width` decimal digits of a value, the most significant first,
/// with zeros where the value has fewer.
pub open spec fn decimal_text(value: nat, width: nat) -> Seq<char> {
    Seq::new(width, |i: int| digit_char((value / pow10((width - 1 - i) as nat)) as int % 10))
}

/// Whether a text consists of decimal digits.
pub open spec fn is_decimal(text: Seq<char>) -> bool {
    forall|i: int| 0 <= i < text.len() ==> '0' <= #[trigger] text[i] <= '9'
}

/// The number behind a code: the truncated HMAC of the counter, reduced to
/// `digits` decimal digits.
pub open spec fn otp_value(key: Seq<u8>, algo: OtpHashAlgorithm, digits: u32, counter: u64) -> nat {
    truncated(hmac_tag(algo, key, counter_bytes(counter))) % pow10(digits as nat)
}

/// Why a request for a code is refused, if it is: a digit count outside of
/// six to eight or a period of zero is `InvalidParameter`; after that, a
/// secret that does not decode is `InvalidData`.
pub open spec fn totp_rejection(secret: Seq<char>, digits: u32, period: u64) -> Option<
    CryptoError,
> {
    if !(MIN_DIGITS <= digits <= MAX_DIGITS) || period == 0 {
        Some(CryptoError::InvalidParameter)
    } else if secret_key(secret) is None {
        Some(CryptoError::InvalidData)
    } else {
        None
    }
}

/// The code of a secret at a time, in seconds since the epoch: the number of
/// whole periods elapsed is the counter, and the code is its value in
/// exactly `digits` decimal digits.
pub open spec fn totp_at(
    secret: Seq<char>,
    algo: OtpHashAlgorithm,
    digits: u32,
    period: u64,
    timestamp: u64,
) -> Result<Seq<char>, CryptoError> {
    match totp_rejection(secret, digits, period) {
        Some(e) => Err(e),
        None => Ok(
            decimal_text(
                otp_value(secret_key(secret)->0, algo, digits, (timestamp / period) as u64),
                digits as nat,
            ),
        ),
    }
}

proof fn lemma_normalized_push(text: Seq<u8>, byte: u8)
    ensures
        normalized_secret(text.push(byte)) == if is_ascii_space(byte) {
            normalized_secret(text)
        } else {
            normalized_secret(text).push(ascii_upper(byte))
        },
{
    reveal(Seq::filter);
    assert(text.push(byte).drop_last() =~= text);
    let kept = |byte: u8| !is_ascii_space(byte);
    assert(text.push(byte).filter(kept) == if kept(byte) {
        text.filter(kept).push(byte)
    } else {
        text.filter(kept)
    });
    if !is_ascii_space(byte) {
        assert(normalized_secret(text.push(byte)) =~= normalized_secret(text).push(
            ascii_upper(byte),
        ));
    }
}

/// Normalizes a secret: drops ASCII white space and turns ASCII letters to
/// upper case. Every other byte stays as it is.
pub fn normalize_secret(secret: &str) -> (text: Vec<u8>)
    ensures
        text@ == normalized_secret(encode_utf8(secret@)),
{
    let raw = secret.as_bytes();
    let mut text: Vec<u8> = Vec::new();
    let mut i: usize = 0;
    assert(raw@.subrange(0, 0) =~= Seq::<u8>::empty());
    proof {
        reveal(Seq::filter);
    }
    while i < raw.len()
        invariant
            i <= raw.len(),
            text@ == normalized_secret(raw@.subrange(0, i as int)),
        decreases raw.len() - i,
    {
        let byte = raw[i];
        proof {
            lemma_normalized_push(raw@.subrange(0, i as int), byte);
            assert(raw@.subrange(0, i as int).push(byte) =~= raw@.subrange(0, i + 1));
        }
        if !(byte == 0x20 || (0x09 <= byte && byte <= 0x0d)) {
            let upper: u8 = if 0x61 <= byte && byte <= 0x7a {
                byte - 0x20
            } else {
                byte
            };
            text.push(upper);
        }
        i = i + 1;
    }
    assert(raw@.subrange(0, raw@.len() as int) =~= raw@);
    text
}

/// Decodes a Base32 secret into the key it stands for.
pub fn decode_secret(secret: &str) -> (res: Result<Vec<u8>, CryptoError>)
    ensures
        match res {
            Ok(key) => secret_key(secret@) == Some(key@),
            Err(e) => e == CryptoError::InvalidData && secret_key(secret@) is None,
        },
{
    let text = normalize_secret(secret);
    if text.len() > usize::MAX / 8 {
        return Err(CryptoError::InvalidData);
    }
    match base32_decode(text.as_slice()) {
        Ok(key) => Ok(key),
        Err(_) => Err(CryptoError::InvalidData),
    }
}

/// Reads the 31-bit number out of a tag by dynamic truncation.
pub fn dynamic_truncation(tag: &[u8]) -> (value: u32)
    requires
        tag@.len() > 0,
        tag@.last() as int % 16 + 4 <= tag@.len(),
    ensures
        value == truncated(tag@),
        value < 0x8000_0000,
{
    let last = tag[tag.len() - 1];
    let offset = (last & 0xf) as usize;
    assert(last & 0xf == last % 16) by (bit_vector);
    let b0 = tag[offset];
    let b1 = tag[offset + 1];
    let b2 = tag[offset + 2];
    let b3 = tag[offset + 3];
    let w0 = b0 as u32;
    let w1 = b1 as u32;
    let w2 = b2 as u32;
    let w3 = b3 as u32;
    assert(((w0 & 0x7f) << 24 | (w1 & 0xff) << 16 | (w2 & 0xff) << 8 | (w3 & 0xff)) == (w0 % 0x80)
        * 0x100_0000 + w1 * 0x1_0000 + w2 * 0x100 + w3) by (bit_vector)
        requires
            w0 < 0x100,
            w1 < 0x100,
            w2 < 0x100,
            w3 < 0x100,
    ;
    (w0 & 0x7f) << 24 | (w1 & 0xff) << 16 | (w2 & 0xff) << 8 | (w3 & 0xff)
}

/// Ten to the power of `exponent`, for an exponent that a `u32` can hold.
pub fn power_of_ten(exponent: u32) -> (power: u32)
    requires
        exponent <= 9,
    ensures
        power == pow10(exponent as nat),
{
    let mut power: u32 = 1;
    let mut i: u32 = 0;
    while i < exponent
        invariant
            i <= exponent <= 9,
            power == pow10(i as nat),
        decreases exponent - i,
    {
        proof {
            lemma_pow10_monotonic((i + 1) as nat, 9);
            assert(pow10(9) == 1_000_000_000) by {
                reveal_with_fuel(pow10, 10);
            }
        }
        power = power * 10;
        i = i + 1;
    }
    power
}

proof fn lemma_pow10_monotonic(a: nat, b: nat)
    requires
        a <= b,
    ensures
        pow10(a) <= pow10(b),
        pow10(a) > 0,
    decreases b,
{
    if a < b {
        lemma_pow10_monotonic(a, (b - 1) as nat);
    } else if a > 0 {
        lemma_pow10_monotonic((a - 1) as nat, (b - 1) as nat);
    }
}

/// The text of one decimal digit.
fn digit_text(value: u32) -> (text: &'static str)
    requires
        value < 10,
    ensures
        text@ == seq![digit_char(value as int)],
{
    proof {
        reveal_strlit("0");
        reveal_strlit("1");
        reveal_strlit("2");
        reveal_strlit("3");
        reveal_strlit("4");
        reveal_strlit("5");
        reveal_strlit("6");
        reveal_strlit("7");
        reveal_strlit("8");
        reveal_strlit("9");
    }
    let text = match value {
        0 => "0",
        1 => "1",
        2 => "2",
        3 => "3",
        4 => "4",
        5 => "5",
        6 => "6",
        7 => "7",
        8 => "8",
        _ => "9",
    };
    assert(text@ =~= seq![digit_char(value as int)]);
    text
}

/// Decimal text has exactly `width` characters, each of them a digit.
pub proof fn lemma_decimal_text_digits(value: nat, width: nat)
    ensures
        decimal_text(value, width).len() == width,
        is_decimal(decimal_text(value, width)),
{
    let text = decimal_text(value, width);
    assert forall|i: int| 0 <= i < text.len() implies '0' <= #[trigger] text[i] <= '9' by {
        let digit = (value / pow10((width - 1 - i) as nat)) as int % 10;
        assert(0 <= digit < 10);
    }
}

/// Writes the last `digits` decimal digits of a value, with zeros in front
/// where the value has fewer.
pub fn format_code(value: u32, digits: u32) -> (text: String)
    requires
        1 <= digits <= 9,
    ensures
        text@ == decimal_text(value as nat, digits as nat),
        text@.len() == digits,
        is_decimal(text@),
{
    proof {
        lemma_decimal_text_digits(value as nat, digits as nat);
    }
    let mut text = String::new();
    let mut divisor = power_of_ten(digits - 1);
    let mut i: u32 = 0;
    while i < digits
        invariant
            i <= digits <= 9,
            i < digits ==> divisor == pow10((digits - 1 - i) as nat),
            text@ == decimal_text(value as nat, digits as nat).subrange(0, i as int),
        decreases digits - i,
    {
        proof {
            lemma_pow10_monotonic(0, (digits - 1 - i) as nat);
        }
        let digit = (value / divisor) % 10;
        text.append(digit_text(digit));
        assert(text@ =~= decimal_text(value as nat, digits as nat).subrange(0, i + 1));
        i = i + 1;
        if i < digits {
            assert(pow10((digits - i) as nat) == 10 * pow10((digits - 1 - i) as nat));
            divisor = divisor / 10;
        }
    }
    assert(text@ =~= decimal_text(value as nat, digits as nat));
    text
}

/// The code that a tag gives: the number read out of it by dynamic
/// truncation, reduced to `digits` decimal digits and written in exactly
/// that many.
pub fn code_from_tag(tag: &[u8], digits: u32) -> (code: String)
    requires
        MIN_DIGITS <= digits <= MAX_DIGITS,
        tag@.len() > 0,
        tag@.last() as int % 16 + 4 <= tag@.len(),
    ensures
        code@ == decimal_text(truncated(tag@) % pow10(digits as nat), digits as nat),
        code@.len() == digits,
        is_decimal(code@),
{
    let modulus = power_of_ten(digits);
    proof {
        lemma_pow10_monotonic(0, digits as nat);
    }
    let value = dynamic_truncation(tag) % modulus;
    format_code(value, digits)
}

/// The code of a key for a counter.
pub fn hotp(key: &[u8], algo: OtpHashAlgorithm, digits: u32, counter: u64) -> (code: String)
    requires
        MIN_DIGITS <= digits <= MAX_DIGITS,
    ensures
        code@ == decimal_text(otp_value(key@, algo, digits, counter), digits as nat),
        code@.len() == digits,
        is_decimal(code@),
{
    let tag = compute_hmac(algo, key, counter);
    code_from_tag(tag.as_slice(), digits)
}

/// Checks the parameters of a request and decodes its secret, in that order.
pub fn totp_key(secret: &str, digits: u32, period: u64) -> (res: Result<Vec<u8>, CryptoError>)
    ensures
        match res {
            Ok(key) => totp_rejection(secret@, digits, period) is None && secret_key(secret@)
                == Some(key@),
            Err(e) => totp_rejection(secret@, digits, period) == Some(e),
        },
{
    if !(MIN_DIGITS <= digits && digits <= MAX_DIGITS) {
        return Err(CryptoError::InvalidParameter);
    }
    if period == 0 {
        return Err(CryptoError::InvalidParameter);
    }
    decode_secret(secret)
}

/// The code of a secret at a given time, in seconds since the Unix epoch.
pub fn generate_totp_at(
    secret: &str,
    algo: OtpHashAlgorithm,
    digits: u32,
    period: u64,
    timestamp: u64,
) -> (res: Result<String, CryptoError>)
    ensures
        text_result(res) == totp_at(secret@, algo, digits, period, timestamp),
        res matches Ok(code) ==> code@.len() == digits && is_decimal(code@),
{
    let key = match totp_key(secret, digits, period) {
        Ok(key) => key,
        Err(e) => {
            return Err(e);
        },
    };
    let counter = timestamp / period;
    Ok(hotp(key.as_slice(), algo, digits, counter))
}

/// The code of a secret now.
///
/// The parameters are checked and the secret is decoded first; only then
/// is the clock read, once. A clock before the epoch is `TotpFailed`.
/// Otherwise the result is the code at some time.
pub fn generate_totp(secret: String, algo: OtpHashAlgorithm, digits: u32, period: u64) -> (res:
    Result<String, CryptoError>)
    ensures
        match totp_rejection(secret@, digits, period) {
            Some(e) => res == Err::<String, CryptoError>(e),
            None => res == Err::<String, CryptoError>(CryptoError::TotpFailed) || exists|
                timestamp: u64,
            |
                text_result(res) == #[trigger] totp_at(secret@, algo, digits, period, timestamp),
        },
        res matches Ok(code) ==> code@.len() == digits && is_decimal(code@),
{
    let key = match totp_key(secret.as_str(), digits, period) {
        Ok(key) => key,
        Err(e) => {
            return Err(e);
        },
    };
    let now = SystemTime::now();
    let timestamp = match since_unix_epoch(&now) {
        Ok(elapsed) => elapsed.as_secs(),
        Err(_) => {
            return Err(CryptoError::TotpFailed);
        },
    };
    let counter = timestamp / period;
    let code = hotp(key.as_slice(), algo, digits, counter);
    assert(text_result(Ok::<String, CryptoError>(code)) == totp_at(
        secret@,
        algo,
        digits,
        period,
        timestamp,
    ));
    Ok(code)
}

/// Two times in the same period give the same result.
pub proof fn lemma_same_period_same_code(
    secret: Seq<char>,
    algo: OtpHashAlgorithm,
    digits: u32,
    period: u64,
    first: u64,
    second: u64,
)
    requires
        first / period == second / period,
    ensures
        totp_at(secret, algo, digits, period, first) == totp_at(
            secret,
            algo,
            digits,
            period,
            second,
        ),
{
}

/// Whether a character may stand in a secret: ASCII white space, which is
/// dropped, or a symbol of the Base32 alphabet in either case.
pub open spec fn is_secret_char(c: char) -> bool {
    c as u32 <= 0x7f && (is_ascii_space(c as u8) || is_base32_symbol(ascii_upper(c as u8)))
}

/// The first byte of the UTF-8 encoding of a character: the character itself
/// where it is ASCII, and a byte from `0xC0` on where it is not.
proof fn lemma_leading_byte(c: char)
    ensures
        encode_scalar(c as u32).len() >= 1,
        c as u32 <= 0x7f ==> encode_scalar(c as u32)[0] == c as u8,
        c as u32 > 0x7f ==> encode_scalar(c as u32)[0] >= 0xc0,
{
    let v = c as u32;
    char_is_scalar(c);
    assert(v <= 0x7f ==> (v & 0x7f) as u8 == v as u8) by (bit_vector);
    assert((0xc0u8 | ((v >> 6) & 0x1f) as u8) >= 0xc0) by (bit_vector);
    assert((0xe0u8 | ((v >> 12) & 0x0f) as u8) >= 0xc0) by (bit_vector);
    assert((0xf0u8 | ((v >> 18) & 0x7) as u8) >= 0xc0) by (bit_vector);
}

/// Where the UTF-8 text of a secret holds the first byte of one of its
/// characters.
proof fn lemma_leading_byte_position(secret: Seq<char>, at: int) -> (k: int)
    requires
        0 <= at < secret.len(),
    ensures
        0 <= k < encode_utf8(secret).len(),
        encode_utf8(secret)[k] == encode_scalar(secret[at] as u32)[0],
    decreases at,
{
    lemma_leading_byte(secret[0]);
    if at == 0 {
        0
    } else {
        let rest = lemma_leading_byte_position(secret.drop_first(), at - 1);
        encode_scalar(secret[0] as u32).len() + rest
    }
}

/// A secret with a character that is neither white space nor, in either
/// case, a symbol of the Base32 alphabet is refused: with `InvalidData` where
/// the parameters are in range.
pub proof fn lemma_foreign_character_rejected(
    secret: Seq<char>,
    digits: u32,
    period: u64,
    at: int,
)
    requires
        0 <= at < secret.len(),
        !is_secret_char(secret[at]),
    ensures
        secret_key(secret) is None,
        totp_rejection(secret, digits, period) is Some,
        MIN_DIGITS <= digits <= MAX_DIGITS && period != 0 ==> totp_rejection(
            secret,
            digits,
            period,
        ) == Some(CryptoError::InvalidData),
{
    let k = lemma_leading_byte_position(secret, at);
    lemma_leading_byte(secret[at]);
    lemma_foreign_byte_rejected(secret, digits, period, k);
}

/// The same for the bytes of the UTF-8 text of a secret: one byte that is
/// neither white space nor, in either case, a symbol of the alphabet, and the
/// secret is refused.
pub proof fn lemma_foreign_byte_rejected(secret: Seq<char>, digits: u32, period: u64, at: int)
    requires
        0 <= at < encode_utf8(secret).len(),
        !is_ascii_space(encode_utf8(secret)[at]),
        !is_base32_symbol(ascii_upper(encode_utf8(secret)[at])),
    ensures
        secret_key(secret) is None,
        totp_rejection(secret, digits, period) is Some,
        MIN_DIGITS <= digits <= MAX_DIGITS && period != 0 ==> totp_rejection(
            secret,
            digits,
            period,
        ) == Some(CryptoError::InvalidData),
{
    let raw = encode_utf8(secret);
    let kept = |byte: u8| !is_ascii_space(byte);
    raw.lemma_filter_contains(kept, at);
    let filtered = raw.filter(kept);
    let k = choose|k: int| 0 <= k < filtered.len() && filtered[k] == raw[at];
    let text = normalized_secret(raw);
    assert(text[k] == ascii_upper(raw[at]));
    assert(!is_base32_symbol(text[k]));
}

} // verus!
