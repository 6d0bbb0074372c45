//! Payload decoding and wall-clock helpers.

use vstd::prelude::*;
use vstd::utf8::*;
use vstd::string::*;
use vstd::slice::*;
use std::time::{Duration, SystemTime, UNIX_EPOCH};

verus! {

/// Why a hex payload was rejected.
#[derive(Clone, Copy, Debug, PartialEq, Eq, Structural)]
pub enum DecodeError {
    /// The digits do not pair up.
    OddLength,
    /// A character that is not one of `0-9`, `a-f`, `A-F`.
    InvalidHexDigit,
    /// The decoded bytes are not UTF-8.
    InvalidUtf8,
    /// The decoded text holds a character outside `' '..='~'`.
    NonPrintable,
}

/// The reason, in words.
pub open spec fn decode_error_text(e: DecodeError) -> Seq<char> {
    match e {
        DecodeError::OddLength => "datakey decoding failed: odd number of hex digits"@,
        DecodeError::InvalidHexDigit => "datakey decoding failed: invalid hex digit"@,
        DecodeError::InvalidUtf8 => "datakey decoding failed: invalid UTF-8 sequence"@,
        DecodeError::NonPrintable => "datakey decoding failed: contains non-printable characters"@,
    }
}

impl DecodeError {
    /// The reason, in words.
    pub fn message(&self) -> (r: String)
        ensures
            r@ == decode_error_text(*self),
    {
        match self {
            DecodeError::OddLength => {
                "datakey decoding failed: odd number of hex digits".to_owned()
            },
            DecodeError::InvalidHexDigit => {
                "datakey decoding failed: invalid hex digit".to_owned()
            },
            DecodeError::InvalidUtf8 => {
                "datakey decoding failed: invalid UTF-8 sequence".to_owned()
            },
            DecodeError::NonPrintable => {
                "datakey decoding failed: contains non-printable characters".to_owned()
            },
        }
    }
}

pub open spec fn is_hex_digit(b: u8) -> bool {
    (0x30 <= b <= 0x39) || (0x41 <= b <= 0x46) || (0x61 <= b <= 0x66)
}

pub open spec fn hex_value(b: u8) -> int {
    if b <= 0x39 {
        b - 0x30
    } else if b <= 0x46 {
        b - 0x41 + 10
    } else {
        b - 0x61 + 10
    }
}

/// The input without a leading `0x`.
pub open spec fn strip_hex_prefix(raw: Seq<u8>) -> Seq<u8> {
    if raw.len() >= 2 && raw[0] == 0x30 && raw[1] == 0x78 {
        raw.subrange(2, raw.len() as int)
    } else {
        raw
    }
}

/// The bytes that an even run of hex digits spells, two digits per byte.
pub open spec fn hex_bytes(digits: Seq<u8>) -> Seq<u8> {
    Seq::new(
        digits.len() / 2,
        |i: int| (hex_value(digits[2 * i]) * 16 + hex_value(digits[2 * i + 1])) as u8,
    )
}

pub open spec fn is_printable(b: u8) -> bool {
    0x20 <= b <= 0x7e
}

pub open spec fn all_hex(digits: Seq<u8>) -> bool {
    forall|i: int| 0 <= i < digits.len() ==> is_hex_digit(#[trigger] digits[i])
}

pub open spec fn all_printable(bytes: Seq<u8>) -> bool {
    forall|i: int| 0 <= i < bytes.len() ==> is_printable(#[trigger] bytes[i])
}

/// Bytes below 128 read as text, one character per byte.
pub open spec fn ascii_text(bytes: Seq<u8>) -> Seq<char> {
    Seq::new(bytes.len(), |i: int| bytes[i] as char)
}

/// What decoding a payload yields, as a function of the payload's bytes.
pub open spec fn datakey_of(raw: Seq<u8>) -> Result<Seq<char>, DecodeError> {
    let digits = strip_hex_prefix(raw);
    if digits.len() % 2 != 0 {
        Err(DecodeError::OddLength)
    } else if !all_hex(digits) {
        Err(DecodeError::InvalidHexDigit)
    } else if !valid_utf8(hex_bytes(digits)) {
        Err(DecodeError::InvalidUtf8)
    } else if !all_printable(hex_bytes(digits)) {
        Err(DecodeError::NonPrintable)
    } else {
        Ok(ascii_text(hex_bytes(digits)))
    }
}

/// `String::from_utf8`: the text that the bytes encode, when they are UTF-8,
/// and nothing otherwise.
#[verifier::external_body]
pub(crate) fn string_from_utf8(bytes: Vec<u8>) -> (r: Option<String>)
    ensures
        r is Some <==> valid_utf8(bytes@),
        r matches Some(s) ==> s@ == decode_utf8(bytes@),
{
    String::from_utf8(bytes).ok()
}

fn hex_digit(b: u8) -> (r: Option<u8>)
    ensures
        r is Some <==> is_hex_digit(b),
        r matches Some(v) ==> v == hex_value(b),
{
    if 0x30 <= b && b <= 0x39 {
        Some(b - 0x30)
    } else if 0x41 <= b && b <= 0x46 {
        Some(b - 0x41 + 10)
    } else if 0x61 <= b && b <= 0x66 {
        Some(b - 0x61 + 10)
    } else {
        None
    }
}

/// Decodes the digits of `src` from `start` on, two per byte.
fn decode_hex_pairs(src: &[u8], start: usize) -> (r: Option<Vec<u8>>)
    requires
        start <= src@.len(),
        (src@.len() - start) % 2 == 0,
    ensures
        r is Some <==> all_hex(src@.subrange(start as int, src@.len() as int)),
        r matches Some(v) ==> v@ == hex_bytes(src@.subrange(start as int, src@.len() as int)),
{
    let ghost digits = src@.subrange(start as int, src@.len() as int);
    let mut out: Vec<u8> = Vec::new();
    let mut i: usize = start;
    while i < src.len()
        invariant
            start <= i <= src@.len(),
            (i - start) % 2 == 0,
            (src@.len() - start) % 2 == 0,
            digits == src@.subrange(start as int, src@.len() as int),
            out@.len() == (i - start) / 2,
            forall|k: int| 0 <= k < i - start ==> is_hex_digit(#[trigger] digits[k]),
            forall|k: int| 0 <= k < out@.len() ==> out@[k] == hex_bytes(digits)[k],
        decreases src@.len() - i,
    {
        let hi = hex_digit(src[i]);
        let lo = hex_digit(src[i + 1]);
        assert(digits[i - start] == src@[i as int]);
        assert(digits[i - start + 1] == src@[i + 1]);
        match (hi, lo) {
            (Some(h), Some(l)) => {
                let ghost k = (i - start) / 2;
                assert(2 * k == i - start);
                out.push(h * 16 + l);
                assert(out@[k] == hex_bytes(digits)[k]);
            },
            _ => {
                return None;
            },
        }
        i = i + 2;
    }
    assert(out@ =~= hex_bytes(digits));
    Some(out)
}

fn bytes_printable(bytes: &Vec<u8>) -> (r: bool)
    ensures
        r == all_printable(bytes@),
{
    let mut i: usize = 0;
    while i < bytes.len()
        invariant
            i <= bytes@.len(),
            forall|k: int| 0 <= k < i ==> is_printable(#[trigger] bytes@[k]),
        decreases bytes@.len() - i,
    {
        if bytes[i] < 0x20 || bytes[i] > 0x7e {
            return false;
        }
        i = i + 1;
    }
    true
}

/// Decodes a hex payload, with or without a leading `0x`, into printable
/// ASCII text.
pub fn decode_datakey(hex_string: &str) -> (r: Result<String, DecodeError>)
    ensures
        match r {
            Ok(s) => datakey_of(hex_string.spec_bytes()) == Ok::<Seq<char>, DecodeError>(s@),
            Err(e) => datakey_of(hex_string.spec_bytes()) == Err::<Seq<char>, DecodeError>(e),
        },
{
    let raw = hex_string.as_bytes();
    let start: usize = if raw.len() >= 2 && raw[0] == 0x30 && raw[1] == 0x78 {
        2
    } else {
        0
    };
    let ghost digits = strip_hex_prefix(raw@);
    assert(digits =~= raw@.subrange(start as int, raw@.len() as int));
    if (raw.len() - start) % 2 != 0 {
        return Err(DecodeError::OddLength);
    }
    let bytes = match decode_hex_pairs(raw, start) {
        Some(b) => b,
        None => {
            return Err(DecodeError::InvalidHexDigit);
        },
    };
    let printable = bytes_printable(&bytes);
    let ghost decoded = bytes@;
    match string_from_utf8(bytes) {
        None => Err(DecodeError::InvalidUtf8),
        Some(text) => {
            if printable {
                proof {
                    lemma_ascii_bytes_decode(decoded);
                }
                Ok(text)
            } else {
                Err(DecodeError::NonPrintable)
            }
        },
    }
}

/// A point on the system clock: `std::time::SystemTime`.
#[verifier::external_type_specification]
#[verifier::external_body]
pub struct ExSystemTime(SystemTime);

/// `SystemTime::now`: the clock's reading, of which nothing is known ahead of
/// the call.
#[verifier::external_body]
fn system_now() -> SystemTime {
    SystemTime::now()
}

/// `SystemTime::duration_since` against the Unix epoch: the time elapsed
/// since then, or nothing when the clock stands before it.
#[verifier::external_body]
fn since_epoch(at: &SystemTime) -> Option<Duration> {
    at.duration_since(UNIX_EPOCH).ok()
}

/// `Duration::as_secs`: the whole seconds of a duration.
#[verifier::external_body]
fn whole_secs(d: &Duration) -> u64 {
    d.as_secs()
}

/// `Duration::as_millis`: the whole milliseconds of a duration.
#[verifier::external_body]
fn whole_millis(d: &Duration) -> u128 {
    d.as_millis()
}

/// The timestamp that a reading of the clock stands for. A clock that stands
/// before the Unix epoch gives no reading, and no timestamp: the caller has
/// to fail on it.
pub fn timestamp_secs(elapsed: Option<u64>) -> (r: u64)
    requires
        elapsed is Some,
    ensures
        elapsed == Some(r),
{
    elapsed.unwrap()
}

/// The timestamp in milliseconds that a reading of the clock stands for,
/// where there is a reading.
pub fn timestamp_ms(elapsed: Option<u128>) -> (r: u128)
    requires
        elapsed is Some,
    ensures
        elapsed == Some(r),
{
    elapsed.unwrap()
}

/// The clock's reading in whole seconds since the Unix epoch; `None` on a
/// clock that stands before it.
pub fn make_timestamp_secs() -> Option<u64> {
    let now = system_now();
    match since_epoch(&now) {
        Some(d) => Some(whole_secs(&d)),
        None => None,
    }
}

/// The clock's reading in whole milliseconds since the Unix epoch; `None` on
/// a clock that stands before it.
pub fn make_timestamp_ms() -> Option<u128> {
    let now = system_now();
    match since_epoch(&now) {
        Some(d) => Some(whole_millis(&d)),
        None => None,
    }
}

/// The lower-case hex digit for a value below 16.
pub open spec fn hex_digit_of(v: int) -> u8 {
    if v < 10 {
        (0x30 + v) as u8
    } else {
        (0x61 + v - 10) as u8
    }
}

/// `0x` and then two lower-case hex digits for each byte.
pub open spec fn hex_digits(bytes: Seq<u8>) -> Seq<u8> {
    Seq::new(
        2 + 2 * bytes.len(),
        |i: int|
            if i == 0 {
                0x30u8
            } else if i == 1 {
                0x78u8
            } else if i % 2 == 0 {
                hex_digit_of(bytes[(i - 2) / 2] as int / 16)
            } else {
                hex_digit_of(bytes[(i - 2) / 2] as int % 16)
            },
    )
}

/// A byte string as hex text with a leading `0x`.
pub open spec fn hex_text(bytes: Seq<u8>) -> Seq<char> {
    ascii_text(hex_digits(bytes))
}

fn hex_digit_for(v: u8) -> (r: u8)
    requires
        v < 16,
    ensures
        r == hex_digit_of(v as int),
        r < 128,
{
    if v < 10 {
        0x30 + v
    } else {
        0x61 + (v - 10)
    }
}

/// Writes `bytes` as hex text with a leading `0x`.
pub fn encode_hex(bytes: &[u8]) -> (r: String)
    ensures
        r@ == hex_text(bytes@),
{
    let mut out: Vec<u8> = Vec::new();
    out.push(0x30);
    out.push(0x78);
    let mut i: usize = 0;
    while i < bytes.len()
        invariant
            i <= bytes@.len(),
            out@.len() == 2 + 2 * i,
            forall|k: int| 0 <= k < out@.len() ==> out@[k] == hex_digits(bytes@)[k],
            forall|k: int| 0 <= k < out@.len() ==> out@[k] < 128,
        decreases bytes@.len() - i,
    {
        let b = bytes[i];
        out.push(hex_digit_for(b / 16));
        out.push(hex_digit_for(b % 16));
        i = i + 1;
    }
    assert(out@ =~= hex_digits(bytes@));
    proof {
        lemma_ascii_bytes_decode(out@);
    }
    string_from_utf8(out).unwrap()
}

/// A value below 16 is read back from its hex digit.
proof fn lemma_digit_round_trip(v: int)
    requires
        0 <= v < 16,
    ensures
        is_hex_digit(hex_digit_of(v)),
        hex_value(hex_digit_of(v)) == v,
        hex_digit_of(v) < 128,
{
}

/// Hex text is read back as the bytes that it was written from: decoding
/// the hex text of a byte string fails where the bytes are not UTF-8 or do
/// not all print, and gives their text otherwise.
pub proof fn lemma_hex_round_trip(bytes: Seq<u8>)
    ensures
        encode_utf8(hex_text(bytes)) == hex_digits(bytes),
        strip_hex_prefix(hex_digits(bytes)).len() == 2 * bytes.len(),
        all_hex(strip_hex_prefix(hex_digits(bytes))),
        hex_bytes(strip_hex_prefix(hex_digits(bytes))) == bytes,
        datakey_of(encode_utf8(hex_text(bytes))) == if !valid_utf8(bytes) {
            Err::<Seq<char>, DecodeError>(DecodeError::InvalidUtf8)
        } else if !all_printable(bytes) {
            Err::<Seq<char>, DecodeError>(DecodeError::NonPrintable)
        } else {
            Ok::<Seq<char>, DecodeError>(ascii_text(bytes))
        },
{
    let raw = hex_digits(bytes);
    assert forall|i: int| 0 <= i < raw.len() implies #[trigger] raw[i] < 128 by {
        if i >= 2 {
            let b = bytes[(i - 2) / 2] as int;
            lemma_digit_round_trip(b / 16);
            lemma_digit_round_trip(b % 16);
        }
    }
    let chars = ascii_text(raw);
    assert(is_ascii_chars(chars));
    is_ascii_chars_encode_utf8(chars);
    assert(encode_utf8(chars) =~= raw);
    let digits = strip_hex_prefix(raw);
    assert(digits =~= raw.subrange(2, raw.len() as int));
    assert forall|i: int| 0 <= i < digits.len() implies is_hex_digit(#[trigger] digits[i]) by {
        let b = bytes[i / 2] as int;
        assert(digits[i] == raw[i + 2]);
        lemma_digit_round_trip(b / 16);
        lemma_digit_round_trip(b % 16);
    }
    assert forall|k: int| 0 <= k < bytes.len() implies #[trigger] hex_bytes(digits)[k]
        == bytes[k] by {
        let b = bytes[k] as int;
        assert(digits[2 * k] == raw[2 * k + 2]);
        assert(digits[2 * k + 1] == raw[2 * k + 3]);
        lemma_digit_round_trip(b / 16);
        lemma_digit_round_trip(b % 16);
    }
    assert(hex_bytes(digits) =~= bytes);
}

/// Text made of bytes below 128 is UTF-8, and decodes byte by byte.
pub proof fn lemma_ascii_bytes_decode(bytes: Seq<u8>)
    requires
        forall|i: int| 0 <= i < bytes.len() ==> bytes[i] < 128,
    ensures
        valid_utf8(bytes),
        decode_utf8(bytes) == ascii_text(bytes),
{
    let chars = ascii_text(bytes);
    assert(is_ascii_chars(chars));
    is_ascii_chars_encode_utf8(chars);
    assert(encode_utf8(chars) =~= bytes);
    encode_utf8_valid_utf8(chars);
    encode_utf8_decode_utf8(chars);
}

} // verus!
