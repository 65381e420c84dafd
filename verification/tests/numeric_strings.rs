use scale_transcode::{EncodeError, PrimitiveKind, Registry, TypeDef, Value};

fn encode_prim(kind: PrimitiveKind, value: Value) -> Result<Vec<u8>, EncodeError> {
    let mut reg = Registry::new();
    let id = reg.register(TypeDef::Primitive(kind));
    let mut out: Vec<u8> = Vec::new();
    reg.encode_value_to(id, &value, &mut out).map(|_| out)
}

#[test]
fn u64_separated_string_matches_integer() {
    let from_str = encode_prim(PrimitiveKind::U64, Value::Str("1_000_000".to_string()));
    let from_int = encode_prim(PrimitiveKind::U64, Value::Int(1_000_000));
    assert_eq!(from_str, from_int);
    assert_eq!(from_str, Ok(vec![0x40, 0x42, 0x0f, 0, 0, 0, 0, 0]));
}

#[test]
fn u64_comma_separators_are_stripped_too() {
    let from_str = encode_prim(PrimitiveKind::U64, Value::Str("1,234".to_string()));
    assert_eq!(from_str, Ok(vec![0xd2, 0x04, 0, 0, 0, 0, 0, 0]));
}

#[test]
fn u64_mixed_separators_anywhere() {
    let from_str = encode_prim(PrimitiveKind::U64, Value::Str("_4,2__".to_string()));
    let from_int = encode_prim(PrimitiveKind::U64, Value::Int(42));
    assert_eq!(from_str, from_int);
}

#[test]
fn u128_separated_string_matches_integer() {
    let from_str = encode_prim(
        PrimitiveKind::U128,
        Value::Str("340_282_366_920_938_463_463".to_string()),
    );
    let from_int = encode_prim(PrimitiveKind::U128, Value::Int(340_282_366_920_938_463_463));
    assert_eq!(from_str, from_int);
}

#[test]
fn u64_plain_digit_string() {
    assert_eq!(
        encode_prim(PrimitiveKind::U64, Value::Str("18446744073709551615".to_string())),
        Ok(vec![0xff; 8])
    );
}

#[test]
fn u64_string_overflow_is_numeric_parse() {
    assert_eq!(
        encode_prim(PrimitiveKind::U64, Value::Str("18446744073709551616".to_string())),
        Err(EncodeError::NumericParse)
    );
}

#[test]
fn u128_string_overflow_is_numeric_parse() {
    assert_eq!(
        encode_prim(
            PrimitiveKind::U128,
            Value::Str("340282366920938463463374607431768211456".to_string()),
        ),
        Err(EncodeError::NumericParse)
    );
}

#[test]
fn non_digit_string_is_numeric_parse() {
    assert_eq!(
        encode_prim(PrimitiveKind::U64, Value::Str("12a".to_string())),
        Err(EncodeError::NumericParse)
    );
    assert_eq!(
        encode_prim(PrimitiveKind::U64, Value::Str("-1".to_string())),
        Err(EncodeError::NumericParse)
    );
    assert_eq!(
        encode_prim(PrimitiveKind::U128, Value::Str("1.5".to_string())),
        Err(EncodeError::NumericParse)
    );
}

#[test]
fn empty_or_separator_only_string_is_numeric_parse() {
    assert_eq!(
        encode_prim(PrimitiveKind::U64, Value::Str(String::new())),
        Err(EncodeError::NumericParse)
    );
    assert_eq!(
        encode_prim(PrimitiveKind::U64, Value::Str("__,".to_string())),
        Err(EncodeError::NumericParse)
    );
}

#[test]
fn helper_functions_expose_verified_behaviour() {
    assert_eq!(scale_transcode::without_hex_prefix("0xab"), "ab");
    assert_eq!(scale_transcode::without_hex_prefix("ab"), "ab");
    assert_eq!(scale_transcode::strip_separator_chars("1_2,3"), vec!['1', '2', '3']);
    assert_eq!(scale_transcode::parse_decimal(&vec!['4', '2']), Ok(42u128));
    assert_eq!(
        scale_transcode::parse_decimal(&vec!['4', 'x']),
        Err(EncodeError::NumericParse)
    );
}

#[test]
fn u128_from_string_digits() {
    assert_eq!(
        encode_prim(PrimitiveKind::U128, Value::Str("256".to_string())),
        Ok(vec![0, 1, 0, 0, 0, 0, 0, 0, 0, 0, 0, 0, 0, 0, 0, 0])
    );
}
