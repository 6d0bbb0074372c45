use hpn_indexer::helpers::{decode_datakey, encode_hex, DecodeError};

#[test]
fn decodes_prefixed_hex() {
    assert_eq!(decode_datakey("0x68656c6c6f"), Ok("hello".to_string()));
}

#[test]
fn decodes_bare_hex() {
    assert_eq!(decode_datakey("68656c6c6f"), Ok("hello".to_string()));
}

#[test]
fn decodes_upper_case_digits() {
    assert_eq!(decode_datakey("0x4A4b7E"), Ok("JK~".to_string()));
}

#[test]
fn decodes_nothing_to_empty_text() {
    assert_eq!(decode_datakey(""), Ok(String::new()));
    assert_eq!(decode_datakey("0x"), Ok(String::new()));
}

#[test]
fn rejects_odd_number_of_digits() {
    assert_eq!(decode_datakey("0x686"), Err(DecodeError::OddLength));
    assert_eq!(decode_datakey("6"), Err(DecodeError::OddLength));
}

#[test]
fn rejects_what_is_no_hex_digit() {
    assert_eq!(decode_datakey("0x6g"), Err(DecodeError::InvalidHexDigit));
    assert_eq!(decode_datakey("zz"), Err(DecodeError::InvalidHexDigit));
    assert_eq!(decode_datakey("+f"), Err(DecodeError::InvalidHexDigit));
    assert_eq!(decode_datakey("0X41"), Err(DecodeError::InvalidHexDigit));
}

#[test]
fn rejects_text_outside_ascii_without_panic() {
    assert_eq!(decode_datakey("a\u{e9}1"), Err(DecodeError::InvalidHexDigit));
    assert_eq!(decode_datakey("\u{e9}a"), Err(DecodeError::OddLength));
}

#[test]
fn rejects_bytes_that_are_not_utf8() {
    assert_eq!(decode_datakey("0xff"), Err(DecodeError::InvalidUtf8));
    assert_eq!(decode_datakey("c328"), Err(DecodeError::InvalidUtf8));
}

#[test]
fn rejects_non_printable_text() {
    assert_eq!(decode_datakey("0x0a"), Err(DecodeError::NonPrintable));
    assert_eq!(decode_datakey("0x7f"), Err(DecodeError::NonPrintable));
    assert_eq!(decode_datakey("0x41c3a9"), Err(DecodeError::NonPrintable));
}

#[test]
fn accepts_the_ends_of_the_printable_range() {
    assert_eq!(decode_datakey("0x207e"), Ok(" ~".to_string()));
    assert_eq!(decode_datakey("0x1f"), Err(DecodeError::NonPrintable));
}

#[test]
fn encodes_bytes_as_prefixed_lower_case_hex() {
    assert_eq!(encode_hex(&[]), "0x");
    assert_eq!(encode_hex(&[0x00, 0x0f, 0xa0, 0xff]), "0x000fa0ff");
}

#[test]
fn decoding_undoes_encoding_of_printable_text() {
    let text = "a weather service";
    assert_eq!(decode_datakey(&encode_hex(text.as_bytes())), Ok(text.to_string()));
}
