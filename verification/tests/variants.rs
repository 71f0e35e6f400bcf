use bson_raw::error::Error;
use bson_raw::raw::Serializer;
use bson_raw::value::Value;
use bson_raw::variant_serializer::{VariantInnerType, VariantSerializer};

fn encode(value: &Value, u2i: bool) -> Result<Vec<u8>, Error> {
    let mut serializer = Serializer::with_unsigned_conversion(u2i);
    value.serialize(&mut serializer)?;
    Ok(serializer.into_vec())
}

#[test]
fn tuple_variant_bar_1_2() {
    let value = Value::TupleVariant {
        name: "Foo".to_string(),
        variant_index: 0,
        variant: "Bar".to_string(),
        items: vec![Value::I32(1), Value::I32(2)],
    };
    assert_eq!(
        encode(&value, false),
        Ok(vec![
            0x1d, 0, 0, 0, //
            0x04, b'B', b'a', b'r', 0, //
            0x13, 0, 0, 0, //
            0x10, b'0', 0, 1, 0, 0, 0, //
            0x10, b'1', 0, 2, 0, 0, 0, //
            0, //
            0,
        ])
    );
}

#[test]
fn struct_variant_bar_a_1() {
    let value = Value::StructVariant {
        name: "Foo".to_string(),
        variant_index: 0,
        variant: "Bar".to_string(),
        fields: vec![("a".to_string(), Value::I32(1))],
    };
    assert_eq!(
        encode(&value, false),
        Ok(vec![
            0x16, 0, 0, 0, //
            0x03, b'B', b'a', b'r', 0, //
            0x0c, 0, 0, 0, //
            0x10, b'a', 0, 1, 0, 0, 0, //
            0, //
            0,
        ])
    );
}

#[test]
fn variant_inside_a_document_is_tagged_as_a_document() {
    let value = Value::Mapping(vec![(
        "v".to_string(),
        Value::TupleVariant {
            name: "Foo".to_string(),
            variant_index: 0,
            variant: "B".to_string(),
            items: vec![],
        },
    )]);
    assert_eq!(
        encode(&value, false),
        Ok(vec![
            0x15, 0, 0, 0, //
            0x03, b'v', 0, //
            0x0d, 0, 0, 0, 0x04, b'B', 0, 5, 0, 0, 0, 0, 0, //
            0,
        ])
    );
}

#[test]
fn variant_name_with_zero_byte_is_refused_before_any_field() {
    let value = Value::TupleVariant {
        name: "Foo".to_string(),
        variant_index: 0,
        variant: "B\0".to_string(),
        items: vec![Value::U8(1)],
    };
    assert_eq!(encode(&value, false), Err(Error::InvalidCString("B\0".to_string())));
}

#[test]
fn refusal_of_a_field_surfaces_unchanged() {
    let value = Value::StructVariant {
        name: "Foo".to_string(),
        variant_index: 0,
        variant: "B".to_string(),
        fields: vec![("a".to_string(), Value::I32(1)), ("b".to_string(), Value::U16(300))],
    };
    assert_eq!(encode(&value, false), Err(Error::UnsupportedUnsignedInteger(300)));
}

#[test]
fn start_writes_the_head_and_end_both_patches_both_lengths() {
    let mut serializer = Serializer::new();
    let v = VariantSerializer::start(&mut serializer, "Bar", VariantInnerType::Tuple).unwrap();
    assert_eq!(v.doc_start, 0);
    assert_eq!(v.inner_start, 9);
    assert_eq!(v.num_elements_serialized, 0);
    assert_eq!(v.root_serializer.bytes, vec![0, 0, 0, 0, 0x04, b'B', b'a', b'r', 0, 0, 0, 0, 0]);
    v.end_both().unwrap();
    assert_eq!(
        serializer.into_vec(),
        vec![0x0f, 0, 0, 0, 0x04, b'B', b'a', b'r', 0, 5, 0, 0, 0, 0, 0]
    );
}

#[test]
fn start_for_named_fields_tags_the_inner_body_as_a_document() {
    let mut serializer = Serializer::new();
    let v = VariantSerializer::start(&mut serializer, "B", VariantInnerType::Struct).unwrap();
    assert_eq!(v.root_serializer.bytes[4], 0x03);
    assert_eq!(v.inner_start, 7);
}

#[test]
fn start_refuses_a_name_with_zero_byte() {
    let mut serializer = Serializer::new();
    let res = VariantSerializer::start(&mut serializer, "B\0r", VariantInnerType::Tuple);
    assert!(matches!(res, Err(Error::InvalidCString(ref s)) if s == "B\0r"));
}

#[test]
fn fields_by_position_count_up_from_zero() {
    let mut serializer = Serializer::new();
    let mut v = serializer.serialize_tuple_variant("Foo", 0, "Bar", 2).unwrap();
    v.serialize_tuple_field(&Value::I32(1)).unwrap();
    assert_eq!(v.num_elements_serialized, 1);
    v.serialize_tuple_field(&Value::I32(2)).unwrap();
    assert_eq!(v.num_elements_serialized, 2);
    v.end().unwrap();
    assert_eq!(
        serializer.into_vec(),
        vec![
            0x1d, 0, 0, 0, 0x04, b'B', b'a', b'r', 0, 0x13, 0, 0, 0, 0x10, b'0', 0, 1, 0, 0, 0, 0x10,
            b'1', 0, 2, 0, 0, 0, 0, 0,
        ]
    );
}

#[test]
fn fields_by_name_keep_their_names_and_order() {
    let mut serializer = Serializer::new();
    let mut v = serializer.serialize_struct_variant("Foo", 0, "Bar", 2).unwrap();
    v.serialize_field("z", &Value::Bool(true)).unwrap();
    v.serialize_field("a", &Value::Absent).unwrap();
    v.end().unwrap();
    assert_eq!(
        serializer.into_vec(),
        vec![
            0x16, 0, 0, 0, 0x03, b'B', b'a', b'r', 0, //
            0x0c, 0, 0, 0, 0x08, b'z', 0, 1, 0x0a, b'a', 0, 0, //
            0,
        ]
    );
}

#[test]
fn serialize_element_reserves_the_slot_and_the_value_fills_it() {
    let mut serializer = Serializer::new();
    let mut v = VariantSerializer::start(&mut serializer, "V", VariantInnerType::Struct).unwrap();
    v.serialize_element("k", &Value::I64(-1)).unwrap();
    let bytes = v.root_serializer.bytes.clone();
    assert_eq!(v.root_serializer.type_index, Some(11));
    assert_eq!(&bytes[11..], &[0x12, b'k', 0, 255, 255, 255, 255, 255, 255, 255, 255]);
}

#[test]
fn refused_field_leaves_the_counter_and_what_was_written() {
    let mut serializer = Serializer::new();
    let mut v = serializer.serialize_tuple_variant("Foo", 0, "Bar", 2).unwrap();
    v.serialize_tuple_field(&Value::I32(1)).unwrap();
    let before = v.root_serializer.bytes.clone();
    assert_eq!(
        v.serialize_tuple_field(&Value::U16(300)),
        Err(Error::UnsupportedUnsignedInteger(300))
    );
    assert_eq!(v.num_elements_serialized, 1);
    assert_eq!(&v.root_serializer.bytes[..before.len()], &before[..]);
    assert_eq!(&v.root_serializer.bytes[before.len()..], &[0, b'1', 0]);

    let before = v.root_serializer.bytes.clone();
    assert_eq!(
        v.serialize_element("k\0", &Value::I32(1)),
        Err(Error::InvalidCString("k\0".to_string()))
    );
    assert_eq!(v.num_elements_serialized, 1);
    assert_eq!(&v.root_serializer.bytes[..before.len()], &before[..]);

    let before = v.root_serializer.bytes.clone();
    let nested = Value::Mapping(vec![("a".to_string(), Value::Absent), ("b".to_string(), Value::U8(1))]);
    assert_eq!(v.serialize_field("n", &nested), Err(Error::UnsupportedUnsignedInteger(1)));
    assert_eq!(v.num_elements_serialized, 1);
    assert_eq!(&v.root_serializer.bytes[..before.len()], &before[..]);
}

#[test]
fn refused_name_leaves_the_head_that_was_written_before_it() {
    let mut serializer = Serializer::new();
    serializer.bytes.extend_from_slice(&[7, 7]);
    let res = VariantSerializer::start(&mut serializer, "B\0", VariantInnerType::Tuple);
    assert!(res.is_err());
    assert_eq!(serializer.bytes, vec![7, 7, 0, 0, 0, 0, 0x04]);
    assert_eq!(serializer.type_index, None);
}

#[test]
fn refused_value_keeps_the_buffer_but_for_the_filled_slot() {
    let mut serializer = Serializer::new();
    serializer.bytes.extend_from_slice(&[7, 7]);
    serializer.reserve_element_type();
    serializer.bytes.extend_from_slice(&[b'k', 0]);
    let value = Value::TupleVariant {
        name: "Foo".to_string(),
        variant_index: 0,
        variant: "Bar".to_string(),
        items: vec![Value::I32(1), Value::U8(2)],
    };
    assert_eq!(value.serialize(&mut serializer), Err(Error::UnsupportedUnsignedInteger(2)));
    // the slot was filled before the refusal; everything else that stood there stays
    assert_eq!(&serializer.bytes[..5], &[7, 7, 0x03, b'k', 0]);
}
