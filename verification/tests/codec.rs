use firestore_db_and_auth::json::JsonValue;
use firestore_db_and_auth::numfmt::{i64_to_dec, parse_i64_dec, parse_u64_dec, u64_to_dec};
use firestore_db_and_auth::value::{decode_field, decode_fields, encode_field, encode_fields,
    FieldValue};

fn tag(key: &str, v: JsonValue) -> JsonValue {
    JsonValue::Object(vec![(key.to_string(), v)])
}

#[test]
fn decimal_rendering_exact() {
    assert_eq!(u64_to_dec(0).as_str(), "0");
    assert_eq!(u64_to_dec(14).as_str(), "14");
    assert_eq!(u64_to_dec(18446744073709551615).as_str(), "18446744073709551615");
    assert_eq!(i64_to_dec(-1).as_str(), "-1");
    assert_eq!(i64_to_dec(i64::MIN).as_str(), "-9223372036854775808");
    assert_eq!(i64_to_dec(i64::MAX).as_str(), "9223372036854775807");
}

#[test]
fn decimal_parsing_exact() {
    assert_eq!(parse_u64_dec("0"), Some(0));
    assert_eq!(parse_u64_dec("18446744073709551615"), Some(u64::MAX));
    assert_eq!(parse_u64_dec("18446744073709551616"), None);
    assert_eq!(parse_u64_dec(""), None);
    assert_eq!(parse_u64_dec("12a"), None);
    assert_eq!(parse_i64_dec("-9223372036854775808"), Some(i64::MIN));
    assert_eq!(parse_i64_dec("-9223372036854775809"), None);
    assert_eq!(parse_i64_dec("9223372036854775807"), Some(i64::MAX));
    assert_eq!(parse_i64_dec("9223372036854775808"), None);
    assert_eq!(parse_i64_dec("-"), None);
}

#[test]
fn scalar_values_round_trip() {
    let samples = vec![
        FieldValue::Null,
        FieldValue::Boolean(true),
        FieldValue::Boolean(false),
        FieldValue::Integer(14),
        FieldValue::Integer(-3),
        FieldValue::Integer(i64::MIN),
        FieldValue::Integer(i64::MAX),
        FieldValue::DoubleBits(13.37f64.to_bits()),
        FieldValue::Timestamp("2020-05-01T12:00:00.000000000Z".to_string()),
        FieldValue::Str("abcd".to_string()),
        FieldValue::Bytes("aGVsbG8=".to_string()),
        FieldValue::Reference("projects/p/databases/(default)/documents/tests/x".to_string()),
        FieldValue::GeoPoint(1.5f64.to_bits(), (-2.25f64).to_bits()),
    ];
    for v in samples {
        let encoded = encode_field(&v);
        let decoded = decode_field(&encoded).expect("decoding an encoded value");
        assert_eq!(decoded, v);
    }
}

#[test]
fn nested_maps_and_arrays_round_trip() {
    let inner_map = FieldValue::Mapping(vec![
        ("a".to_string(), FieldValue::Integer(12)),
        ("b".to_string(), FieldValue::Str("123".to_string())),
    ]);
    let v = FieldValue::Mapping(vec![
        ("a_string".to_string(), FieldValue::Str("abcd".to_string())),
        ("an_int".to_string(), FieldValue::Integer(14)),
        (
            "a_map".to_string(),
            FieldValue::Mapping(vec![("a".to_string(), inner_map)]),
        ),
        (
            "a_list".to_string(),
            FieldValue::Array(vec![
                FieldValue::Integer(1),
                FieldValue::Array(vec![FieldValue::Null]),
            ]),
        ),
    ]);
    let encoded = encode_field(&v);
    let decoded = decode_field(&encoded).expect("decoding an encoded value");
    assert_eq!(decoded, v);
}

#[test]
fn integer_encodes_as_decimal_string() {
    let encoded = encode_field(&FieldValue::Integer(14));
    assert_eq!(encoded, tag("integerValue", JsonValue::Str("14".to_string())));
    let encoded = encode_field(&FieldValue::Integer(-7));
    assert_eq!(encoded, tag("integerValue", JsonValue::Str("-7".to_string())));
}

#[test]
fn wire_shape_has_exactly_one_tag_key() {
    assert_eq!(encode_field(&FieldValue::Null), tag("nullValue", JsonValue::Null));
    assert_eq!(
        encode_field(&FieldValue::Boolean(true)),
        tag("booleanValue", JsonValue::Bool(true))
    );
    let bits = 2.5f64.to_bits();
    assert_eq!(
        encode_field(&FieldValue::DoubleBits(bits)),
        tag("doubleValue", JsonValue::DoubleBits(bits))
    );
    assert_eq!(
        encode_field(&FieldValue::Str("abc".to_string())),
        tag("stringValue", JsonValue::Str("abc".to_string()))
    );
}

#[test]
fn decode_rejects_malformed_trees() {
    assert_eq!(decode_field(&JsonValue::Null), None);
    assert_eq!(decode_field(&JsonValue::Object(vec![])), None);
    assert_eq!(
        decode_field(&tag("integerValue", JsonValue::Str("not a number".to_string()))),
        None
    );
    assert_eq!(decode_field(&tag("unknownValue", JsonValue::Null)), None);
    let two_keys = JsonValue::Object(vec![
        ("nullValue".to_string(), JsonValue::Null),
        ("booleanValue".to_string(), JsonValue::Bool(true)),
    ]);
    assert_eq!(decode_field(&two_keys), None);
}

#[test]
fn field_set_round_trip() {
    let fields = vec![
        ("a_string".to_string(), FieldValue::Str("abcd".to_string())),
        ("an_int".to_string(), FieldValue::Integer(16)),
    ];
    let encoded = encode_fields(&fields);
    let decoded = decode_fields(&encoded).expect("decoding an encoded field set");
    assert_eq!(decoded, fields);
}
