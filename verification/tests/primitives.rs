use scale_transcode::{EncodeError, PrimitiveKind, Registry, TypeDef, Value};

fn encode_prim(kind: PrimitiveKind, value: Value) -> Result<Vec<u8>, EncodeError> {
    let mut reg = Registry::new();
    let id = reg.register(TypeDef::Primitive(kind));
    let mut out: Vec<u8> = Vec::new();
    reg.encode_value_to(id, &value, &mut out).map(|_| out)
}

#[test]
fn bool_true_is_one_byte() {
    assert_eq!(encode_prim(PrimitiveKind::Bool, Value::Bool(true)), Ok(vec![1u8]));
}

#[test]
fn bool_false_is_zero_byte() {
    assert_eq!(encode_prim(PrimitiveKind::Bool, Value::Bool(false)), Ok(vec![0u8]));
}

#[test]
fn u8_little_endian_one_byte() {
    assert_eq!(encode_prim(PrimitiveKind::U8, Value::Int(7)), Ok(vec![0x07]));
    assert_eq!(encode_prim(PrimitiveKind::U8, Value::Int(255)), Ok(vec![0xff]));
}

#[test]
fn u16_little_endian_two_bytes() {
    assert_eq!(encode_prim(PrimitiveKind::U16, Value::Int(0x1234)), Ok(vec![0x34, 0x12]));
}

#[test]
fn u32_little_endian_four_bytes() {
    assert_eq!(
        encode_prim(PrimitiveKind::U32, Value::Int(0xdead_beef)),
        Ok(vec![0xef, 0xbe, 0xad, 0xde])
    );
}

#[test]
fn u64_little_endian_eight_bytes() {
    assert_eq!(
        encode_prim(PrimitiveKind::U64, Value::Int(1_000_000)),
        Ok(vec![0x40, 0x42, 0x0f, 0, 0, 0, 0, 0])
    );
}

#[test]
fn u128_little_endian_sixteen_bytes() {
    assert_eq!(
        encode_prim(PrimitiveKind::U128, Value::Int(1)),
        Ok(vec![1, 0, 0, 0, 0, 0, 0, 0, 0, 0, 0, 0, 0, 0, 0, 0])
    );
}

#[test]
fn out_of_range_u8_is_numeric_conversion() {
    assert_eq!(encode_prim(PrimitiveKind::U8, Value::Int(256)), Err(EncodeError::NumericConversion));
    assert_eq!(encode_prim(PrimitiveKind::U8, Value::Int(-1)), Err(EncodeError::NumericConversion));
}

#[test]
fn out_of_range_u16_u32_u64_is_numeric_conversion() {
    assert_eq!(
        encode_prim(PrimitiveKind::U16, Value::Int(65536)),
        Err(EncodeError::NumericConversion)
    );
    assert_eq!(
        encode_prim(PrimitiveKind::U32, Value::Int(0x1_0000_0000)),
        Err(EncodeError::NumericConversion)
    );
    assert_eq!(
        encode_prim(PrimitiveKind::U64, Value::Int(-5)),
        Err(EncodeError::NumericConversion)
    );
    assert_eq!(
        encode_prim(PrimitiveKind::U128, Value::Int(-5)),
        Err(EncodeError::NumericConversion)
    );
}

#[test]
fn str_is_compact_length_prefixed_utf8() {
    assert_eq!(
        encode_prim(PrimitiveKind::Str, Value::Str("hello".to_string())),
        Ok(vec![0x14, b'h', b'e', b'l', b'l', b'o'])
    );
}

#[test]
fn empty_str_is_single_zero_byte() {
    assert_eq!(encode_prim(PrimitiveKind::Str, Value::Str(String::new())), Ok(vec![0x00]));
}

#[test]
fn long_str_uses_two_byte_compact_prefix() {
    let s = "a".repeat(100);
    let mut expected = vec![0x91, 0x01];
    expected.extend(std::iter::repeat(b'a').take(100));
    assert_eq!(encode_prim(PrimitiveKind::Str, Value::Str(s)), Ok(expected));
}

#[test]
fn multibyte_str_counts_utf8_bytes() {
    // U+00E9 is two UTF-8 bytes, so the compact prefix says 2.
    assert_eq!(
        encode_prim(PrimitiveKind::Str, Value::Str("\u{e9}".to_string())),
        Ok(vec![0x08, 0xc3, 0xa9])
    );
}

#[test]
fn char_kind_is_unsupported() {
    assert_eq!(
        encode_prim(PrimitiveKind::Char, Value::Str("a".to_string())),
        Err(EncodeError::UnsupportedType)
    );
}

#[test]
fn signed_kinds_are_unsupported() {
    assert_eq!(encode_prim(PrimitiveKind::I8, Value::Int(1)), Err(EncodeError::UnsupportedType));
    assert_eq!(encode_prim(PrimitiveKind::I32, Value::Int(1)), Err(EncodeError::UnsupportedType));
    assert_eq!(encode_prim(PrimitiveKind::I128, Value::Int(1)), Err(EncodeError::UnsupportedType));
}

#[test]
fn wrong_shape_is_type_mismatch() {
    assert_eq!(
        encode_prim(PrimitiveKind::Bool, Value::Int(1)),
        Err(EncodeError::TypeMismatch)
    );
    assert_eq!(
        encode_prim(PrimitiveKind::U8, Value::Str("7".to_string())),
        Err(EncodeError::TypeMismatch)
    );
    assert_eq!(
        encode_prim(PrimitiveKind::Str, Value::Int(7)),
        Err(EncodeError::TypeMismatch)
    );
    assert_eq!(
        encode_prim(PrimitiveKind::U64, Value::Bool(true)),
        Err(EncodeError::TypeMismatch)
    );
}

#[test]
fn scratch_buffer_encode_returns_bytes_only_on_success() {
    let mut reg = Registry::new();
    let id = reg.register(TypeDef::Primitive(PrimitiveKind::U16));
    assert_eq!(reg.encode_value(id, &Value::Int(0x0102)), Ok(vec![0x02, 0x01]));
    assert_eq!(reg.encode_value(id, &Value::Bool(true)), Err(EncodeError::TypeMismatch));
}

#[test]
fn unknown_type_id_fails() {
    let reg = Registry::new();
    let mut out: Vec<u8> = Vec::new();
    assert_eq!(reg.encode_value_to(0, &Value::Int(1), &mut out), Err(EncodeError::UnknownType));
    assert!(out.is_empty());
}

#[test]
fn other_type_definition_is_unsupported() {
    let mut reg = Registry::new();
    let id = reg.register(TypeDef::Other);
    let mut out: Vec<u8> = Vec::new();
    assert_eq!(reg.encode_value_to(id, &Value::Int(1), &mut out), Err(EncodeError::UnsupportedType));
    assert!(out.is_empty());
}
