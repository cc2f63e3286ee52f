use bytes_parser::{BytesParser, BytesParserError, ParsingEndian};

// Round trips: encoding a value into its fixed byte width and decoding it
// again yields the value back, for both byte orders.

#[test]
fn round_trip_unsigned_scalars() {
    let cases_u16: &[u16] = &[0, 1, 0x1234, u16::MAX];
    for &v in cases_u16 {
        let be = v.to_be_bytes();
        let mut p = BytesParser::from(&be[..]);
        assert_eq!(p.parse_u16().unwrap(), v);
        let le = v.to_le_bytes();
        let mut p = BytesParser::from(&le[..]);
        p.set_endian(ParsingEndian::LE);
        assert_eq!(p.parse_u16().unwrap(), v);
    }

    let cases_u32: &[u32] = &[0, 0xDEADBEEF, u32::MAX];
    for &v in cases_u32 {
        let be = v.to_be_bytes();
        let mut p = BytesParser::from(&be[..]);
        assert_eq!(p.parse_u32().unwrap(), v);
        let le = v.to_le_bytes();
        let mut p = BytesParser::from(&le[..]);
        p.set_endian(ParsingEndian::LE);
        assert_eq!(p.parse_u32().unwrap(), v);
    }

    let cases_u64: &[u64] = &[0, 0x0123456789ABCDEF, u64::MAX];
    for &v in cases_u64 {
        let be = v.to_be_bytes();
        let mut p = BytesParser::from(&be[..]);
        assert_eq!(p.parse_u64().unwrap(), v);
        let le = v.to_le_bytes();
        let mut p = BytesParser::from(&le[..]);
        p.set_endian(ParsingEndian::LE);
        assert_eq!(p.parse_u64().unwrap(), v);
    }

    let cases_u128: &[u128] = &[0, 1 << 127, u128::MAX];
    for &v in cases_u128 {
        let be = v.to_be_bytes();
        let mut p = BytesParser::from(&be[..]);
        assert_eq!(p.parse_u128().unwrap(), v);
        let le = v.to_le_bytes();
        let mut p = BytesParser::from(&le[..]);
        p.set_endian(ParsingEndian::LE);
        assert_eq!(p.parse_u128().unwrap(), v);
    }

    let cases_u8: &[u8] = &[0, 0x7F, 0x80, u8::MAX];
    for &v in cases_u8 {
        let be = v.to_be_bytes();
        let mut p = BytesParser::from(&be[..]);
        assert_eq!(p.parse_u8().unwrap(), v);
    }
}

#[test]
fn round_trip_signed_scalars() {
    let cases_i8: &[i8] = &[i8::MIN, -1, 0, 1, i8::MAX];
    for &v in cases_i8 {
        let be = v.to_be_bytes();
        let mut p = BytesParser::from(&be[..]);
        assert_eq!(p.parse_i8().unwrap(), v);
    }

    let cases_i16: &[i16] = &[i16::MIN, -1, 0, 0x1234, i16::MAX];
    for &v in cases_i16 {
        let be = v.to_be_bytes();
        let mut p = BytesParser::from(&be[..]);
        assert_eq!(p.parse_i16().unwrap(), v);
        let le = v.to_le_bytes();
        let mut p = BytesParser::from(&le[..]);
        p.set_endian(ParsingEndian::LE);
        assert_eq!(p.parse_i16().unwrap(), v);
    }

    let cases_i32: &[i32] = &[i32::MIN, -1, 0, i32::MAX];
    for &v in cases_i32 {
        let be = v.to_be_bytes();
        let mut p = BytesParser::from(&be[..]);
        assert_eq!(p.parse_i32().unwrap(), v);
        let le = v.to_le_bytes();
        let mut p = BytesParser::from(&le[..]);
        p.set_endian(ParsingEndian::LE);
        assert_eq!(p.parse_i32().unwrap(), v);
    }

    let cases_i64: &[i64] = &[i64::MIN, -1, 0, i64::MAX];
    for &v in cases_i64 {
        let be = v.to_be_bytes();
        let mut p = BytesParser::from(&be[..]);
        assert_eq!(p.parse_i64().unwrap(), v);
        let le = v.to_le_bytes();
        let mut p = BytesParser::from(&le[..]);
        p.set_endian(ParsingEndian::LE);
        assert_eq!(p.parse_i64().unwrap(), v);
    }

    let cases_i128: &[i128] = &[i128::MIN, -1, 0, i128::MAX];
    for &v in cases_i128 {
        let be = v.to_be_bytes();
        let mut p = BytesParser::from(&be[..]);
        assert_eq!(p.parse_i128().unwrap(), v);
        let le = v.to_le_bytes();
        let mut p = BytesParser::from(&le[..]);
        p.set_endian(ParsingEndian::LE);
        assert_eq!(p.parse_i128().unwrap(), v);
    }
}

#[test]
fn round_trip_float_bit_patterns() {
    // floating point is reconstructed from its bit pattern outside the
    // library; the round trip must be bitwise, including non-finite values
    let cases_f32: &[f32] = &[0.0, -0.0, 1.5, f32::MIN, f32::NAN, f32::INFINITY];
    for &v in cases_f32 {
        let be = v.to_be_bytes();
        let mut p = BytesParser::from(&be[..]);
        assert_eq!(p.parse_u32().unwrap(), v.to_bits());
        let le = v.to_le_bytes();
        let mut p = BytesParser::from(&le[..]);
        p.set_endian(ParsingEndian::LE);
        assert_eq!(p.parse_u32().unwrap(), v.to_bits());
    }

    let cases_f64: &[f64] = &[0.0, -0.0, -2.5, f64::MAX, f64::NAN, f64::NEG_INFINITY];
    for &v in cases_f64 {
        let be = v.to_be_bytes();
        let mut p = BytesParser::from(&be[..]);
        assert_eq!(p.parse_u64().unwrap(), v.to_bits());
        let le = v.to_le_bytes();
        let mut p = BytesParser::from(&le[..]);
        p.set_endian(ParsingEndian::LE);
        assert_eq!(p.parse_u64().unwrap(), v.to_bits());
    }
}

// Scenario: empty buffer. Every scalar decode fails with
// NotEnoughBytesForTypeError naming the requested type, and nothing moves.

#[test]
fn empty_buffer_rejects_every_scalar() {
    let input: &[u8] = &[];
    let mut p = BytesParser::from(input);

    assert_eq!(p.length(), 0);
    assert_eq!(p.is_empty(), true);
    assert_eq!(p.parseable(), 0);

    assert_eq!(
        p.parse_u8(),
        Err(BytesParserError::NotEnoughBytesForTypeError("u8".to_string()))
    );
    assert_eq!(
        p.parse_u16(),
        Err(BytesParserError::NotEnoughBytesForTypeError("u16".to_string()))
    );
    assert_eq!(
        p.parse_u32(),
        Err(BytesParserError::NotEnoughBytesForTypeError("u32".to_string()))
    );
    assert_eq!(
        p.parse_u64(),
        Err(BytesParserError::NotEnoughBytesForTypeError("u64".to_string()))
    );
    assert_eq!(
        p.parse_u128(),
        Err(BytesParserError::NotEnoughBytesForTypeError("u128".to_string()))
    );
    assert_eq!(
        p.parse_i8(),
        Err(BytesParserError::NotEnoughBytesForTypeError("i8".to_string()))
    );
    assert_eq!(
        p.parse_i16(),
        Err(BytesParserError::NotEnoughBytesForTypeError("i16".to_string()))
    );
    assert_eq!(
        p.parse_i32(),
        Err(BytesParserError::NotEnoughBytesForTypeError("i32".to_string()))
    );
    assert_eq!(
        p.parse_i64(),
        Err(BytesParserError::NotEnoughBytesForTypeError("i64".to_string()))
    );
    assert_eq!(
        p.parse_i128(),
        Err(BytesParserError::NotEnoughBytesForTypeError("i128".to_string()))
    );
    assert_eq!(
        p.parse_char_u32(),
        Err(BytesParserError::NotEnoughBytesForTypeError("u32".to_string()))
    );

    assert_eq!(p.position(), 0);
    assert_eq!(p.is_at_start(), true);
    assert_eq!(p.is_at_end(), true);
}

// Scenario: a buffer of exactly one byte. Moving the cursor to a target equal
// to the length fails, even though parsing the final scalar lands the cursor
// exactly there.

#[test]
fn one_byte_buffer_boundary() {
    let input: &[u8] = &[0xAB];
    let mut p = BytesParser::from(input);

    assert_eq!(
        p.move_forward(&1),
        Err(BytesParserError::CursorOutOfBoundError(1, 1, 0))
    );
    assert_eq!(p.position(), 0);

    assert_eq!(
        p.move_at(&1),
        Err(BytesParserError::CursorOutOfBoundError(1, 1, 0))
    );
    assert_eq!(p.position(), 0);

    assert_eq!(
        p.move_backward(&1),
        Err(BytesParserError::CursorOutOfBoundError(-1, 1, 0))
    );
    assert_eq!(p.position(), 0);

    // the decode that lands the cursor exactly at the length succeeds
    assert_eq!(p.parse_u8().unwrap(), 0xAB);
    assert_eq!(p.position(), 1);
    assert_eq!(p.is_at_end(), true);
    assert_eq!(p.parseable(), 0);
}

#[test]
fn move_to_length_always_fails() {
    let input: &[u8] = &[1, 2, 3, 4];
    let mut p = BytesParser::from(input);

    assert_eq!(
        p.move_at(&4),
        Err(BytesParserError::CursorOutOfBoundError(4, 4, 0))
    );
    assert_eq!(p.move_at(&3), Ok(()));
    assert_eq!(
        p.move_forward(&1),
        Err(BytesParserError::CursorOutOfBoundError(4, 4, 3))
    );
    assert_eq!(p.position(), 3);

    // yet the final scalar parse may land the cursor exactly at the length
    assert_eq!(p.parse_u8().unwrap(), 4);
    assert_eq!(p.is_at_end(), true);
}

// Failure non-mutation: failing decodes leave the position untouched.

#[test]
fn failed_decodes_do_not_move_the_cursor() {
    let input: &[u8] = &[0x01, 0x02, 0x03];
    let mut p = BytesParser::from(input);

    assert_eq!(p.parse_u8().unwrap(), 0x01);
    let before = p.position();

    // not enough bytes for a type
    assert_eq!(
        p.parse_u32(),
        Err(BytesParserError::NotEnoughBytesForTypeError("u32".to_string()))
    );
    assert_eq!(p.position(), before);

    // not enough bytes for a string
    assert_eq!(
        p.parse_str_utf8(5),
        Err(BytesParserError::NotEnoughBytesForStringError(5))
    );
    assert_eq!(p.position(), before);
}

// Scenario: bytes that are not valid UTF-8 of the requested size.

#[test]
fn invalid_utf8_fails_without_moving_the_cursor() {
    // 0xC3 starts a two-byte sequence, 0x28 is not a continuation byte
    let input: &[u8] = &[0xC3, 0x28, 0xFF];
    let mut p = BytesParser::from(input);

    let r = p.parse_str_utf8(3);
    assert!(matches!(r, Err(BytesParserError::StringParseError(_))));
    assert_eq!(p.position(), 0);

    // the same bytes still parse fine as scalars afterwards
    assert_eq!(p.parse_u8().unwrap(), 0xC3);
}

#[test]
fn parse_empty_string_succeeds() {
    let input: &[u8] = &[];
    let mut p = BytesParser::from(input);
    assert_eq!(p.parse_str_utf8(0).unwrap(), "");
    assert_eq!(p.position(), 0);
}

// The one asymmetry of the error taxonomy: a character decode that finds an
// invalid code point has still consumed the four bytes of the scalar.

#[test]
fn invalid_code_point_consumes_four_bytes() {
    // 0xD800 is a surrogate, not a valid Unicode scalar value
    let input: &[u8] = &[0x00, 0x00, 0xD8, 0x00, 0xFF];
    let mut p = BytesParser::from(input);

    assert_eq!(
        p.parse_char_u32(),
        Err(BytesParserError::InvalidU32ForCharError)
    );
    assert_eq!(p.position(), 4);

    // beyond the maximum code point is invalid as well
    let input: &[u8] = &[0x00, 0x11, 0x00, 0x00];
    let mut p = BytesParser::from(input);
    assert_eq!(
        p.parse_char_u32(),
        Err(BytesParserError::InvalidU32ForCharError)
    );
    assert_eq!(p.position(), 4);
}

#[test]
fn ascii_char_round_trip() {
    let input: &[u8] = &[0x00, 0x00, 0x00, 0x41];
    let mut p = BytesParser::from(input);
    assert_eq!(p.parse_char_u32().unwrap(), 'A');
    assert_eq!(p.is_at_end(), true);
}

// Endianness is a pure configuration get/set with a big-endian default.

#[test]
fn endian_defaults_to_big_and_can_be_set() {
    assert_eq!(ParsingEndian::default(), ParsingEndian::BE);

    let input: &[u8] = &[0x12, 0x34, 0x34, 0x12];
    let mut p = BytesParser::from(input);
    assert_eq!(p.endian(), ParsingEndian::BE);
    assert_eq!(p.parse_u16().unwrap(), 0x1234);

    p.set_endian(ParsingEndian::LE);
    assert_eq!(p.endian(), ParsingEndian::LE);
    assert_eq!(p.parse_u16().unwrap(), 0x1234);
}

#[test]
fn reset_rewinds_to_the_start() {
    let input: &[u8] = &[0x0A, 0x0B];
    let mut p = BytesParser::from(input);
    assert_eq!(p.parse_u16().unwrap(), 0x0A0B);
    assert_eq!(p.is_at_end(), true);
    p.reset();
    assert_eq!(p.is_at_start(), true);
    assert_eq!(p.parseable(), 2);
    assert_eq!(p.parse_u16().unwrap(), 0x0A0B);
}

// The invariant: the position never exceeds the length, and parseable() is
// always length() minus position().

#[test]
fn parseable_is_length_minus_position() {
    let input: &[u8] = &[1, 2, 3, 4, 5, 6, 7, 8];
    let mut p = BytesParser::from(input);

    assert_eq!(p.parseable(), p.length() - p.position());
    p.parse_u16().unwrap();
    assert_eq!(p.parseable(), p.length() - p.position());
    p.move_forward(&3).unwrap();
    assert_eq!(p.parseable(), p.length() - p.position());
    p.move_backward(&2).unwrap();
    assert_eq!(p.parseable(), p.length() - p.position());
    p.parse_u32().unwrap();
    assert_eq!(p.parseable(), p.length() - p.position());
    assert!(p.position() <= p.length());
}

// Scenario: a length-prefixed string, parsed the way a bespoke protocol
// would.

#[test]
fn length_prefixed_string() {
    let input: &[u8] = &[
        0x00, 0x13, 0x46, 0x6F, 0x72, 0x7A, 0x61, 0x20, 0x4E, 0x61, 0x70, 0x6F, 0x6C, 0x69, 0x20,
        0x53, 0x65, 0x6D, 0x70, 0x72, 0x65,
    ];
    let mut p = BytesParser::from(input);

    let len = p.parse_u16().unwrap();
    assert_eq!(len, 19);
    let s = p.parse_str_utf8(len as usize).unwrap();
    assert_eq!(s, "Forza Napoli Sempre");
    assert_eq!(p.is_at_end(), true);
}

#[test]
fn multibyte_utf8_string() {
    // "🦀!" is five bytes of UTF-8 for two characters
    let input: &[u8] = &[0xF0, 0x9F, 0xA6, 0x80, 0x21];
    let mut p = BytesParser::from(input);
    let s = p.parse_str_utf8(5).unwrap();
    assert_eq!(s, "🦀!");
    assert_eq!(s.chars().count(), 2);
    assert_eq!(p.is_at_end(), true);
}
