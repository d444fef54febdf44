use wirecodec::browser::BrowserType;
use wirecodec::enumstrings::{
    deserialize_from_str, deserialize_from_string_parse, serialize_to_string, CanonicalText,
};
use wirecodec::wire::{DecodeError, WireScalar};

fn text(s: &str) -> WireScalar {
    WireScalar::Text(s.to_string())
}

#[test]
fn browser_encodes_to_its_canonical_name() {
    assert_eq!(serialize_to_string(&BrowserType::Chrome), text("chrome"));
    assert_eq!(serialize_to_string(&BrowserType::Firefox), text("firefox"));
}

#[test]
fn browser_round_trips_through_the_bridge() {
    for value in [BrowserType::Chrome, BrowserType::Firefox] {
        let encoded = serialize_to_string(&value);
        let decoded: BrowserType = deserialize_from_str(&encoded).unwrap();
        assert_eq!(decoded, value);
    }
}

#[test]
fn browser_names_are_case_sensitive_and_untrimmed() {
    for bad in ["Chrome", "CHROME", " chrome", "chrome ", "safari", ""] {
        let err = deserialize_from_str::<BrowserType>(&text(bad)).unwrap_err();
        match err {
            DecodeError::InvalidValue { raw, cause } => {
                assert_eq!(raw, bad);
                assert!(!cause.is_empty());
            }
            other => panic!("expected an invalid value, got {:?}", other),
        }
    }
}

#[test]
fn bridge_rejects_non_string_tokens() {
    for token in [
        WireScalar::Boolean(true),
        WireScalar::Number(7),
        WireScalar::Null,
    ] {
        let err = deserialize_from_str::<BrowserType>(&token).unwrap_err();
        assert_eq!(err, DecodeError::TypeMismatch);
    }
}

#[test]
fn browser_canonical_text_methods() {
    assert_eq!(BrowserType::Chrome.to_text(), "chrome");
    assert_eq!(BrowserType::Firefox.to_text(), "firefox");
    assert_eq!(BrowserType::from_text("chrome").unwrap(), BrowserType::Chrome);
    assert_eq!(BrowserType::from_text("firefox").unwrap(), BrowserType::Firefox);
    assert!(BrowserType::from_text("edge").is_err());
}

#[test]
fn flexible_decoder_agrees_across_representations() {
    let from_string: i64 = deserialize_from_string_parse(&text("42")).unwrap();
    let from_number: i64 = deserialize_from_string_parse(&WireScalar::Number(42)).unwrap();
    assert_eq!(from_string, 42);
    assert_eq!(from_number, 42);

    let from_string: u64 = deserialize_from_string_parse(&text("42")).unwrap();
    let from_number: u64 = deserialize_from_string_parse(&WireScalar::Number(42)).unwrap();
    assert_eq!(from_string, 42);
    assert_eq!(from_number, 42);
}

#[test]
fn flexible_decoder_handles_signs_and_bounds() {
    let v: i64 = deserialize_from_string_parse(&text("-42")).unwrap();
    assert_eq!(v, -42);
    let v: i64 = deserialize_from_string_parse(&text("+42")).unwrap();
    assert_eq!(v, 42);

    let v: i64 = deserialize_from_string_parse(&text("9223372036854775807")).unwrap();
    assert_eq!(v, i64::MAX);
    let v: u64 = deserialize_from_string_parse(&text("18446744073709551615")).unwrap();
    assert_eq!(v, u64::MAX);
}

#[test]
fn flexible_decoder_rejects_unparsable_strings() {
    let err = deserialize_from_string_parse::<i64>(&text("forty-two")).unwrap_err();
    match err {
        DecodeError::ParseFailure { raw, cause } => {
            assert_eq!(raw, "forty-two");
            assert!(!cause.is_empty());
        }
        other => panic!("expected a parse failure, got {:?}", other),
    }

    // A well-formed literal outside the target's range follows the parser's
    // own rejection, with no added leniency.
    let err = deserialize_from_string_parse::<i64>(&text("9223372036854775808")).unwrap_err();
    assert!(matches!(err, DecodeError::ParseFailure { .. }));
    let err = deserialize_from_string_parse::<u64>(&text("-1")).unwrap_err();
    assert!(matches!(err, DecodeError::ParseFailure { .. }));

    // The unsigned parser rejects a minus sign outright, even on a zero,
    // while the signed parser accepts it.
    let err = deserialize_from_string_parse::<u64>(&text("-0")).unwrap_err();
    assert!(matches!(err, DecodeError::ParseFailure { .. }));
    let v: i64 = deserialize_from_string_parse(&text("-0")).unwrap();
    assert_eq!(v, 0);
}

#[test]
fn flexible_decoder_rejects_out_of_domain_numbers() {
    let err = deserialize_from_string_parse::<u64>(&WireScalar::Number(-1)).unwrap_err();
    assert_eq!(err, DecodeError::OutOfRange);
    let err =
        deserialize_from_string_parse::<i64>(&WireScalar::Number(i128::MAX)).unwrap_err();
    assert_eq!(err, DecodeError::OutOfRange);
}

#[test]
fn flexible_decoder_rejects_other_tokens() {
    let err = deserialize_from_string_parse::<i64>(&WireScalar::Boolean(true)).unwrap_err();
    assert_eq!(err, DecodeError::TypeMismatch);
    let err = deserialize_from_string_parse::<u64>(&WireScalar::Null).unwrap_err();
    assert_eq!(err, DecodeError::TypeMismatch);
}
