use wirecodec::instant::Instant;
use wirecodec::jsontime::{UnixMicroString, UnixMilliString, UnixNanoString, UnixString};
use wirecodec::wire::{DecodeError, WireScalar};

fn text(s: &str) -> WireScalar {
    WireScalar::Text(s.to_string())
}

#[test]
fn second_round_trip_aligned() {
    let instant = Instant::from_nanos(1_700_000_000_000_000_000);
    let encoded = UnixString(instant).serialize();
    assert_eq!(encoded, text("1700000000"));
    let decoded = UnixString::deserialize(&encoded).unwrap();
    assert_eq!(decoded.0, instant);
}

#[test]
fn milli_round_trip_aligned() {
    let instant = Instant::from_nanos(1_700_000_000_123_000_000);
    let encoded = UnixMilliString(instant).serialize();
    assert_eq!(encoded, text("1700000000123"));
    let decoded = UnixMilliString::deserialize(&encoded).unwrap();
    assert_eq!(decoded.0, instant);
}

#[test]
fn micro_round_trip_aligned() {
    let instant = Instant::from_nanos(1_700_000_000_123_456_000);
    let encoded = UnixMicroString(instant).serialize();
    assert_eq!(encoded, text("1700000000123456"));
    let decoded = UnixMicroString::deserialize(&encoded).unwrap();
    assert_eq!(decoded.0, instant);
}

#[test]
fn nano_round_trip_exact() {
    let instant = Instant::from_nanos(1_700_000_000_123_456_789);
    let encoded = UnixNanoString(instant).serialize();
    assert_eq!(encoded, text("1700000000123456789"));
    let decoded = UnixNanoString::deserialize(&encoded).unwrap();
    assert_eq!(decoded.0, instant);
}

#[test]
fn cross_resolution_strings_differ() {
    let instant = Instant::from_nanos(1_700_000_000_000_000_000);
    assert_eq!(UnixString(instant).serialize(), text("1700000000"));
    assert_eq!(UnixMilliString(instant).serialize(), text("1700000000000"));
    assert_eq!(UnixMicroString(instant).serialize(), text("1700000000000000"));
    assert_eq!(UnixNanoString(instant).serialize(), text("1700000000000000000"));
}

#[test]
fn misaligned_instant_floors_toward_negative_infinity() {
    let instant = Instant::from_nanos(1_700_000_000_500_000_000);
    assert_eq!(UnixString(instant).serialize(), text("1700000000"));

    let before_epoch = Instant::from_nanos(-1_500_000_000);
    assert_eq!(UnixString(before_epoch).serialize(), text("-2"));
    assert_eq!(UnixMilliString(before_epoch).serialize(), text("-1500"));
}

#[test]
fn negative_instant_round_trips() {
    let instant = Instant::from_nanos(-1_000_000_000);
    let encoded = UnixString(instant).serialize();
    assert_eq!(encoded, text("-1"));
    let decoded = UnixString::deserialize(&encoded).unwrap();
    assert_eq!(decoded.0.nanos(), -1_000_000_000);
}

#[test]
fn boolean_token_is_type_mismatch() {
    let err = UnixString::deserialize(&WireScalar::Boolean(true)).unwrap_err();
    assert_eq!(err, DecodeError::TypeMismatch);
    let err = UnixNanoString::deserialize(&WireScalar::Boolean(false)).unwrap_err();
    assert_eq!(err, DecodeError::TypeMismatch);
}

#[test]
fn number_and_null_tokens_are_type_mismatch() {
    let err = UnixMilliString::deserialize(&WireScalar::Number(1700000000000)).unwrap_err();
    assert_eq!(err, DecodeError::TypeMismatch);
    let err = UnixMicroString::deserialize(&WireScalar::Null).unwrap_err();
    assert_eq!(err, DecodeError::TypeMismatch);
}

#[test]
fn malformed_string_is_parse_failure_at_every_resolution() {
    let decoders: [fn(&WireScalar) -> Result<Instant, DecodeError>; 4] = [
        |w| UnixString::deserialize(w).map(|v| v.0),
        |w| UnixMilliString::deserialize(w).map(|v| v.0),
        |w| UnixMicroString::deserialize(w).map(|v| v.0),
        |w| UnixNanoString::deserialize(w).map(|v| v.0),
    ];
    for decode in decoders {
        let err = decode(&text("not_a_number")).unwrap_err();
        match err {
            DecodeError::ParseFailure { raw, cause } => {
                assert_eq!(raw, "not_a_number");
                assert!(!cause.is_empty());
            }
            other => panic!("expected a parse failure, got {:?}", other),
        }
    }
}

#[test]
fn empty_and_sign_only_strings_are_parse_failures() {
    assert!(matches!(
        UnixString::deserialize(&text("")),
        Err(DecodeError::ParseFailure { .. })
    ));
    assert!(matches!(
        UnixString::deserialize(&text("-")),
        Err(DecodeError::ParseFailure { .. })
    ));
    assert!(matches!(
        UnixString::deserialize(&text("+")),
        Err(DecodeError::ParseFailure { .. })
    ));
    assert!(matches!(
        UnixString::deserialize(&text("12 34")),
        Err(DecodeError::ParseFailure { .. })
    ));
    assert!(matches!(
        UnixString::deserialize(&text("1.5")),
        Err(DecodeError::ParseFailure { .. })
    ));
}

#[test]
fn plus_sign_and_leading_zeros_follow_the_parser() {
    let decoded = UnixString::deserialize(&text("+42")).unwrap();
    assert_eq!(decoded.0.nanos(), 42_000_000_000);
    let decoded = UnixString::deserialize(&text("007")).unwrap();
    assert_eq!(decoded.0.nanos(), 7_000_000_000);
}

#[test]
fn out_of_range_is_reported_not_clamped() {
    // One nanosecond unit past the instant domain.
    let err = UnixNanoString::deserialize(&text("9223372036854775808")).unwrap_err();
    assert_eq!(err, DecodeError::OutOfRange);
    let err = UnixNanoString::deserialize(&text("-9223372036854775809")).unwrap_err();
    assert_eq!(err, DecodeError::OutOfRange);

    // A second count whose nanosecond count overflows.
    let err = UnixString::deserialize(&text("9223372037")).unwrap_err();
    assert_eq!(err, DecodeError::OutOfRange);

    // A literal too wide even for 128-bit intermediates is still a range
    // error, not a parse failure.
    let wide = "9".repeat(50);
    let err = UnixString::deserialize(&text(&wide)).unwrap_err();
    assert_eq!(err, DecodeError::OutOfRange);
}

#[test]
fn extreme_in_range_instants_round_trip_at_nano() {
    for nanos in [i64::MIN, i64::MAX, 0, 1, -1] {
        let encoded = UnixNanoString(Instant::from_nanos(nanos)).serialize();
        let decoded = UnixNanoString::deserialize(&encoded).unwrap();
        assert_eq!(decoded.0.nanos(), nanos);
    }
    assert_eq!(
        UnixNanoString(Instant::from_nanos(i64::MIN)).serialize(),
        text("-9223372036854775808")
    );
}

#[test]
fn boundary_unit_counts_decode_at_every_scale() {
    // The largest second count whose nanosecond count still fits.
    let decoded = UnixString::deserialize(&text("9223372036")).unwrap();
    assert_eq!(decoded.0.nanos(), 9_223_372_036_000_000_000);
    let decoded = UnixString::deserialize(&text("-9223372036")).unwrap();
    assert_eq!(decoded.0.nanos(), -9_223_372_036_000_000_000);
    let err = UnixString::deserialize(&text("-9223372037")).unwrap_err();
    assert_eq!(err, DecodeError::OutOfRange);
}
