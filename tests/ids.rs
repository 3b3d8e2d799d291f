use spangen::ids::{IdParseError, SpanId, TraceId};

#[test]
fn span_id_hex_is_lowercase_two_digits_per_byte() {
    let id = SpanId::from_bytes([0x00, 0x01, 0x0a, 0x7f, 0x80, 0xab, 0xcd, 0xff]);
    assert_eq!(id.to_hex(), "00010a7f80abcdff");
}

#[test]
fn trace_id_hex_is_lowercase_two_digits_per_byte() {
    let id = TraceId::from_bytes([
        0xde, 0xad, 0xbe, 0xef, 0, 1, 2, 3, 4, 5, 6, 7, 8, 9, 0x10, 0xfe,
    ]);
    assert_eq!(id.to_hex(), "deadbeef0001020304050607080910fe");
}

#[test]
fn span_id_round_trips_through_hex() {
    for _ in 0..100 {
        let id = SpanId::generate();
        let text = id.to_hex();
        assert_eq!(text.len(), 16);
        assert_eq!(SpanId::parse(&text), Ok(id));
    }
}

#[test]
fn trace_id_round_trips_through_hex() {
    for _ in 0..100 {
        let id = TraceId::generate();
        let text = id.to_hex();
        assert_eq!(text.len(), 32);
        assert_eq!(TraceId::parse(&text), Ok(id));
    }
}

#[test]
fn parse_accepts_uppercase_digits() {
    let id = SpanId::parse("00010A7F80ABCDFF").unwrap();
    assert_eq!(id.to_bytes(), [0x00, 0x01, 0x0a, 0x7f, 0x80, 0xab, 0xcd, 0xff]);
}

#[test]
fn parse_rejects_odd_length() {
    assert_eq!(SpanId::parse("abc"), Err(IdParseError::OddLength));
    assert_eq!(TraceId::parse("0"), Err(IdParseError::OddLength));
}

#[test]
fn parse_rejects_wrong_length() {
    assert_eq!(SpanId::parse(""), Err(IdParseError::InvalidStringLength));
    assert_eq!(SpanId::parse("00010a7f80abcdff00"), Err(IdParseError::InvalidStringLength));
    assert_eq!(TraceId::parse("00010a7f80abcdff"), Err(IdParseError::InvalidStringLength));
}

#[test]
fn parse_rejects_non_hex_characters() {
    assert_eq!(
        SpanId::parse("00010a7f80abcdfg"),
        Err(IdParseError::InvalidHexCharacter { c: 'g', index: 15 })
    );
    assert!(TraceId::parse("zz010a7f80abcdff00010a7f80abcdff").is_err());
}

#[test]
fn ids_compare_by_bytes() {
    let a = SpanId::from_bytes([1, 2, 3, 4, 5, 6, 7, 8]);
    let b = SpanId::from_bytes([1, 2, 3, 4, 5, 6, 7, 8]);
    let c = SpanId::from_bytes([1, 2, 3, 4, 5, 6, 7, 9]);
    assert_eq!(a, b);
    assert_ne!(a, c);
}
