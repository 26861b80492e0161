use corto::base62::{decode, decode_bytes, encode, DecodeError};

#[test]
fn encode_zero_and_negative_give_digit_zero() {
    assert_eq!(encode(0), "h");
    assert_eq!(encode(-5), "h");
}

#[test]
fn encode_known_values() {
    assert_eq!(encode(1), "N");
    assert_eq!(encode(61), "T");
    assert_eq!(encode(62), "Nh");
    assert_eq!(encode(12345), "Ye6");
    assert_eq!(encode(i64::MAX), "iT1xbhFDx36");
}

#[test]
fn decode_known_values() {
    assert_eq!(decode("N"), Ok(1));
    assert_eq!(decode("Nh"), Ok(62));
    assert_eq!(decode("Ye6"), Ok(12345));
    assert_eq!(decode("iT1xbhFDx36"), Ok(i64::MAX));
}

#[test]
fn decode_rejects_surrounding_whitespace() {
    assert_eq!(decode(" N"), Err("invalid base62 character:  ".to_string()));
    assert_eq!(decode("N "), Err("invalid base62 character:  ".to_string()));
    assert_eq!(decode("N\n"), Err("invalid base62 character: \n".to_string()));
    assert_eq!(decode("   "), Err("invalid base62 character:  ".to_string()));
}

#[test]
fn round_trip_over_many_values() {
    let mut n: i64 = 0;
    while n < 200_000 {
        assert_eq!(decode(&encode(n)), Ok(n));
        n += 7;
    }
    for n in [i64::MAX, i64::MAX - 1, 62 * 62 * 62, 3_521_614_606_208] {
        assert_eq!(decode(&encode(n)), Ok(n));
    }
}

#[test]
fn decode_rejects_empty_input() {
    assert_eq!(decode(""), Err("base62 input is empty".to_string()));
    assert_eq!(decode_bytes(b""), Err(DecodeError::Empty));
}

#[test]
fn decode_rejects_foreign_character() {
    assert_eq!(decode("Ye!6"), Err("invalid base62 character: !".to_string()));
    assert_eq!(decode_bytes(b"N-h"), Err(DecodeError::InvalidCharacter(b'-')));
    assert_eq!(decode_bytes(b"-"), Err(DecodeError::InvalidCharacter(b'-')));
}

#[test]
fn decode_rejects_overflow() {
    assert_eq!(decode("iT1xbhFDx37"), Err("base62 value overflow".to_string()));
    assert_eq!(decode_bytes(b"TTTTTTTTTTT"), Err(DecodeError::Overflow));
}

#[test]
fn decode_errors_are_distinct() {
    let empty = decode("").unwrap_err();
    let invalid = decode("?").unwrap_err();
    let overflow = decode("TTTTTTTTTTT").unwrap_err();
    assert_ne!(empty, invalid);
    assert_ne!(invalid, overflow);
    assert_ne!(empty, overflow);
}

#[test]
fn overflow_before_foreign_character_is_reported_first() {
    assert_eq!(decode_bytes(b"TTTTTTTTTTT!"), Err(DecodeError::Overflow));
}

#[test]
fn decode_error_messages() {
    assert_eq!(DecodeError::Empty.message(), "base62 input is empty");
    assert_eq!(DecodeError::Overflow.message(), "base62 value overflow");
    assert_eq!(DecodeError::InvalidCharacter(b'#').message(), "invalid base62 character: #");
}
