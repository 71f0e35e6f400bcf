use bson_raw::element::ElementType;
use bson_raw::error::Error;
use bson_raw::raw::Serializer;
use bson_raw::value::Value;

fn field(name: &str, value: Value) -> Value {
    Value::Struct { name: "Doc".to_string(), fields: vec![(name.to_string(), value)] }
}

fn encode(value: &Value, u2i: bool) -> Result<Vec<u8>, Error> {
    let mut serializer = Serializer::with_unsigned_conversion(u2i);
    value.serialize(&mut serializer)?;
    Ok(serializer.into_vec())
}

/// A document with the one element `x`, of the given tag and payload.
fn doc_x(tag: u8, payload: &[u8]) -> Vec<u8> {
    let mut out = vec![(payload.len() + 8) as u8, 0, 0, 0, tag, b'x', 0];
    out.extend_from_slice(payload);
    out.push(0);
    out
}

#[test]
fn bare_integer_at_top_level_is_refused() {
    let mut serializer = Serializer::new();
    let res = Value::I32(5).serialize(&mut serializer);
    assert_eq!(res, Err(Error::NonDocumentAtTopLevel(ElementType::Int32)));
    assert!(serializer.into_vec().is_empty());
}

#[test]
fn every_bare_scalar_at_top_level_is_refused_with_its_type() {
    let cases = vec![
        (Value::Bool(true), ElementType::Boolean),
        (Value::I8(1), ElementType::Int32),
        (Value::I64(1), ElementType::Int64),
        (Value::Double(0), ElementType::Double),
        (Value::Char('a'), ElementType::String),
        (Value::Str("a".to_string()), ElementType::String),
        (Value::Bytes(vec![1]), ElementType::Binary),
        (Value::Absent, ElementType::Null),
        (Value::Unit, ElementType::Null),
        (Value::Sequence(vec![]), ElementType::Array),
        (Value::Tuple(vec![]), ElementType::Array),
        (Value::Present(Box::new(Value::I32(1))), ElementType::Int32),
    ];
    for (value, t) in cases {
        assert_eq!(encode(&value, true), Err(Error::NonDocumentAtTopLevel(t)));
    }
}

#[test]
fn marker_struct_at_top_level_is_refused_with_its_scalar_type() {
    let oid = Value::Struct {
        name: "$oid".to_string(),
        fields: vec![("$oid".to_string(), Value::Str("507f1f77bcf86cd799439011".to_string()))],
    };
    assert_eq!(encode(&oid, false), Err(Error::NonDocumentAtTopLevel(ElementType::ObjectId)));
}

#[test]
fn empty_document_is_five_bytes() {
    assert_eq!(encode(&Value::Mapping(vec![]), false), Ok(vec![5, 0, 0, 0, 0]));
}

#[test]
fn boolean_is_one_byte() {
    assert_eq!(encode(&field("x", Value::Bool(true)), false), Ok(doc_x(0x08, &[1])));
    assert_eq!(encode(&field("x", Value::Bool(false)), false), Ok(doc_x(0x08, &[0])));
}

#[test]
fn small_signed_integers_widen_to_int32() {
    assert_eq!(encode(&field("x", Value::I8(-1)), false), Ok(doc_x(0x10, &[0xff, 0xff, 0xff, 0xff])));
    assert_eq!(encode(&field("x", Value::I16(-2)), false), Ok(doc_x(0x10, &[0xfe, 0xff, 0xff, 0xff])));
    assert_eq!(encode(&field("x", Value::I16(258)), false), Ok(doc_x(0x10, &[2, 1, 0, 0])));
}

#[test]
fn int32_is_little_endian() {
    assert_eq!(
        encode(&field("x", Value::I32(0x0102_0304)), false),
        Ok(doc_x(0x10, &[4, 3, 2, 1]))
    );
    assert_eq!(
        encode(&field("x", Value::I32(i32::MIN)), false),
        Ok(doc_x(0x10, &[0, 0, 0, 0x80]))
    );
    assert_eq!(
        encode(&field("x", Value::I32(i32::MAX)), false),
        Ok(doc_x(0x10, &[0xff, 0xff, 0xff, 0x7f]))
    );
}

#[test]
fn int64_is_little_endian() {
    assert_eq!(
        encode(&field("x", Value::I64(0x0102_0304_0506_0708)), false),
        Ok(doc_x(0x12, &[8, 7, 6, 5, 4, 3, 2, 1]))
    );
    assert_eq!(
        encode(&field("x", Value::I64(-2)), false),
        Ok(doc_x(0x12, &[0xfe, 0xff, 0xff, 0xff, 0xff, 0xff, 0xff, 0xff]))
    );
    assert_eq!(
        encode(&field("x", Value::I64(i64::MIN)), false),
        Ok(doc_x(0x12, &[0, 0, 0, 0, 0, 0, 0, 0x80]))
    );
}

#[test]
fn u16_300_with_conversion_is_int32() {
    assert_eq!(encode(&field("x", Value::U16(300)), true), Ok(doc_x(0x10, &[0x2c, 0x01, 0, 0])));
}

#[test]
fn u16_300_without_conversion_is_refused_with_the_value() {
    assert_eq!(
        encode(&field("x", Value::U16(300)), false),
        Err(Error::UnsupportedUnsignedInteger(300))
    );
}

#[test]
fn unsigned_integers_with_conversion_widen() {
    assert_eq!(encode(&field("x", Value::U8(255)), true), Ok(doc_x(0x10, &[255, 0, 0, 0])));
    assert_eq!(
        encode(&field("x", Value::U32(u32::MAX)), true),
        Ok(doc_x(0x12, &[255, 255, 255, 255, 0, 0, 0, 0]))
    );
    assert_eq!(
        encode(&field("x", Value::U64(i64::MAX as u64)), true),
        Ok(doc_x(0x12, &[255, 255, 255, 255, 255, 255, 255, 0x7f]))
    );
}

#[test]
fn unsigned_integers_without_conversion_are_refused() {
    assert_eq!(encode(&field("x", Value::U8(7)), false), Err(Error::UnsupportedUnsignedInteger(7)));
    assert_eq!(
        encode(&field("x", Value::U32(70000)), false),
        Err(Error::UnsupportedUnsignedInteger(70000))
    );
    assert_eq!(
        encode(&field("x", Value::U64(u64::MAX)), false),
        Err(Error::UnsupportedUnsignedInteger(u64::MAX))
    );
}

#[test]
fn u64_two_to_the_63_with_conversion_exceeds_the_range() {
    let value: u64 = 1 << 63;
    assert_eq!(
        encode(&field("x", Value::U64(value)), true),
        Err(Error::UnsignedIntegerExceededRange(value))
    );
}

#[test]
fn unsigned_refusal_comes_before_the_top_level_check() {
    assert_eq!(encode(&Value::U8(1), false), Err(Error::UnsupportedUnsignedInteger(1)));
    assert_eq!(encode(&Value::U8(1), true), Err(Error::NonDocumentAtTopLevel(ElementType::Int32)));
    assert_eq!(
        encode(&Value::U64(u64::MAX), true),
        Err(Error::UnsignedIntegerExceededRange(u64::MAX))
    );
}

#[test]
fn double_travels_as_its_bit_pattern() {
    let bits = 1.5f64.to_bits();
    assert_eq!(
        encode(&field("x", Value::Double(bits)), false),
        Ok(doc_x(0x01, &[0, 0, 0, 0, 0, 0, 0xf8, 0x3f]))
    );
    let widened = (0.25f32 as f64).to_bits();
    assert_eq!(
        encode(&field("x", Value::Double(widened)), false),
        Ok(doc_x(0x01, &[0, 0, 0, 0, 0, 0, 0xd0, 0x3f]))
    );
}

#[test]
fn string_has_length_and_terminator() {
    assert_eq!(
        encode(&field("x", Value::Str("hi".to_string())), false),
        Ok(doc_x(0x02, &[3, 0, 0, 0, b'h', b'i', 0]))
    );
    assert_eq!(
        encode(&field("x", Value::Str(String::new())), false),
        Ok(doc_x(0x02, &[1, 0, 0, 0, 0]))
    );
}

#[test]
fn string_length_counts_utf8_bytes() {
    assert_eq!(
        encode(&field("x", Value::Str("é€".to_string())), false),
        Ok(doc_x(0x02, &[6, 0, 0, 0, 0xc3, 0xa9, 0xe2, 0x82, 0xac, 0]))
    );
}

#[test]
fn character_is_a_string_of_one_character() {
    assert_eq!(
        encode(&field("x", Value::Char('a')), false),
        Ok(doc_x(0x02, &[2, 0, 0, 0, b'a', 0]))
    );
    assert_eq!(
        encode(&field("x", Value::Char('é')), false),
        Ok(doc_x(0x02, &[3, 0, 0, 0, 0xc3, 0xa9, 0]))
    );
}

#[test]
fn string_value_may_hold_a_zero_byte() {
    assert_eq!(
        encode(&field("x", Value::Str("a\0b".to_string())), false),
        Ok(doc_x(0x02, &[4, 0, 0, 0, b'a', 0, b'b', 0]))
    );
}

#[test]
fn bytes_are_generic_binary() {
    assert_eq!(
        encode(&field("x", Value::Bytes(vec![9, 8, 7])), false),
        Ok(doc_x(0x05, &[3, 0, 0, 0, 0, 9, 8, 7]))
    );
    assert_eq!(
        encode(&field("x", Value::Bytes(vec![])), false),
        Ok(doc_x(0x05, &[0, 0, 0, 0, 0]))
    );
}

#[test]
fn absent_unit_and_unit_struct_are_null() {
    assert_eq!(encode(&field("x", Value::Absent), false), Ok(doc_x(0x0a, &[])));
    assert_eq!(encode(&field("x", Value::Unit), false), Ok(doc_x(0x0a, &[])));
    assert_eq!(
        encode(&field("x", Value::UnitStruct { name: "Marker".to_string() }), false),
        Ok(doc_x(0x0a, &[]))
    );
}

#[test]
fn present_is_the_inner_value() {
    assert_eq!(
        encode(&field("x", Value::Present(Box::new(Value::I32(7)))), false),
        encode(&field("x", Value::I32(7)), false)
    );
    assert_eq!(
        encode(&field("x", Value::Present(Box::new(Value::Present(Box::new(Value::Absent))))), false),
        Ok(doc_x(0x0a, &[]))
    );
}

#[test]
fn newtype_struct_is_the_inner_value() {
    let wrapped = Value::NewtypeStruct { name: "Meters".to_string(), value: Box::new(Value::I64(3)) };
    assert_eq!(encode(&field("x", wrapped), false), Ok(doc_x(0x12, &[3, 0, 0, 0, 0, 0, 0, 0])));
}

#[test]
fn unit_variant_is_its_name() {
    let value = Value::UnitVariant {
        name: "Color".to_string(),
        variant_index: 2,
        variant: "Red".to_string(),
    };
    assert_eq!(
        encode(&field("x", value), false),
        Ok(doc_x(0x02, &[4, 0, 0, 0, b'R', b'e', b'd', 0]))
    );
}

#[test]
fn key_with_zero_byte_is_refused() {
    assert_eq!(
        encode(&field("a\0b", Value::I32(1)), false),
        Err(Error::InvalidCString("a\0b".to_string()))
    );
}

#[test]
fn key_is_checked_before_the_value() {
    assert_eq!(
        encode(&field("a\0", Value::U8(1)), false),
        Err(Error::InvalidCString("a\0".to_string()))
    );
}

#[test]
fn first_refusal_in_order_wins() {
    let value = Value::Struct {
        name: "Doc".to_string(),
        fields: vec![
            ("a".to_string(), Value::I32(1)),
            ("b".to_string(), Value::U8(2)),
            ("c\0".to_string(), Value::I32(3)),
        ],
    };
    assert_eq!(encode(&value, false), Err(Error::UnsupportedUnsignedInteger(2)));
}
