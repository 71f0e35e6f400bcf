use bson_raw::document_serializer::DocumentSerializer;
use bson_raw::element::ElementType;
use bson_raw::error::Error;
use bson_raw::raw::{Serializer, StructSerializer};
use bson_raw::scalar::ValueType;
use bson_raw::value::Value;
use bson_raw::value_serializer::ValueSerializer;

#[test]
fn new_encoder_is_empty_and_refuses_unsigned() {
    let serializer = Serializer::new();
    assert_eq!(serializer.type_index, None);
    assert!(!serializer.u2i);
    assert!(serializer.into_vec().is_empty());
    assert!(Serializer::with_unsigned_conversion(true).u2i);
    assert!(!Serializer::with_unsigned_conversion(false).u2i);
}

#[test]
fn reserve_writes_a_zero_and_remembers_where() {
    let mut serializer = Serializer::new();
    serializer.bytes.extend_from_slice(&[9, 9, 9]);
    serializer.reserve_element_type();
    assert_eq!(serializer.type_index, Some(3));
    assert_eq!(serializer.bytes, vec![9, 9, 9, 0]);
}

#[test]
fn update_fills_the_reserved_slot_and_nothing_else() {
    let mut serializer = Serializer::new();
    serializer.bytes.extend_from_slice(&[9, 9, 9]);
    serializer.reserve_element_type();
    serializer.bytes.extend_from_slice(&[b'k', 0]);
    assert_eq!(serializer.update_element_type(ElementType::Int64), Ok(()));
    assert_eq!(serializer.bytes, vec![9, 9, 9, 0x12, b'k', 0]);
    assert_eq!(serializer.type_index, Some(3));
}

#[test]
fn update_at_top_level_passes_a_document_without_writing() {
    let mut serializer = Serializer::new();
    assert_eq!(serializer.update_element_type(ElementType::EmbeddedDocument), Ok(()));
    assert!(serializer.bytes.is_empty());
}

#[test]
fn update_at_top_level_refuses_every_other_type() {
    for t in [
        ElementType::Double,
        ElementType::String,
        ElementType::Array,
        ElementType::Binary,
        ElementType::ObjectId,
        ElementType::Null,
        ElementType::Int32,
        ElementType::MinKey,
    ] {
        let mut serializer = Serializer::new();
        assert_eq!(serializer.update_element_type(t), Err(Error::NonDocumentAtTopLevel(t)));
        assert!(serializer.bytes.is_empty());
    }
}

#[test]
fn replace_i32_overwrites_four_bytes_in_place() {
    let mut serializer = Serializer::new();
    serializer.bytes.extend_from_slice(&[1, 2, 3, 4, 5, 6, 7]);
    serializer.replace_i32(2, 0x0a0b_0c0d);
    assert_eq!(serializer.bytes, vec![1, 2, 0x0d, 0x0c, 0x0b, 0x0a, 7]);
    serializer.replace_i32(0, -2);
    assert_eq!(serializer.bytes, vec![0xfe, 0xff, 0xff, 0xff, 0x0b, 0x0a, 7]);
    serializer.replace_i32(3, 0);
    assert_eq!(serializer.bytes, vec![0xfe, 0xff, 0xff, 0, 0, 0, 0]);
}

#[test]
fn entry_points_fill_the_slot_and_append() {
    let mut serializer = Serializer::new();
    serializer.bytes.push(7);
    serializer.reserve_element_type();
    assert_eq!(serializer.serialize_i16(-3), Ok(()));
    assert_eq!(serializer.bytes, vec![7, 0x10, 0xfd, 0xff, 0xff, 0xff]);

    serializer.reserve_element_type();
    assert_eq!(serializer.serialize_str("ab"), Ok(()));
    assert_eq!(&serializer.bytes[6..], &[0x02, 3, 0, 0, 0, b'a', b'b', 0]);

    serializer.reserve_element_type();
    assert_eq!(serializer.serialize_unit_variant("E", 3, "V"), Ok(()));
    assert_eq!(&serializer.bytes[14..], &[0x02, 2, 0, 0, 0, b'V', 0]);

    serializer.reserve_element_type();
    assert_eq!(serializer.serialize_unit_struct("U"), Ok(()));
    assert_eq!(&serializer.bytes[21..], &[0x0a]);

    serializer.reserve_element_type();
    assert_eq!(serializer.serialize_f64(2.0f64.to_bits()), Ok(()));
    assert_eq!(&serializer.bytes[22..], &[0x01, 0, 0, 0, 0, 0, 0, 0, 0x40]);
}

#[test]
fn unsigned_entry_points_leave_the_buffer_when_they_refuse() {
    let mut serializer = Serializer::new();
    serializer.bytes.push(7);
    serializer.reserve_element_type();
    assert_eq!(serializer.serialize_u16(300), Err(Error::UnsupportedUnsignedInteger(300)));
    assert_eq!(serializer.serialize_u8(3), Err(Error::UnsupportedUnsignedInteger(3)));
    assert_eq!(serializer.serialize_u32(3), Err(Error::UnsupportedUnsignedInteger(3)));
    assert_eq!(serializer.serialize_u64(3), Err(Error::UnsupportedUnsignedInteger(3)));
    assert_eq!(serializer.bytes, vec![7, 0]);

    let mut converting = Serializer::with_unsigned_conversion(true);
    converting.bytes.push(7);
    converting.reserve_element_type();
    assert_eq!(
        converting.serialize_u64(1 << 63),
        Err(Error::UnsignedIntegerExceededRange(1 << 63))
    );
    assert_eq!(converting.bytes, vec![7, 0]);
    assert_eq!(converting.serialize_u16(300), Ok(()));
    assert_eq!(converting.bytes, vec![7, 0x10, 0x2c, 1, 0, 0]);
}

#[test]
fn document_body_opens_takes_entries_and_closes() {
    let mut serializer = Serializer::new();
    let mut d = DocumentSerializer::start(&mut serializer).unwrap();
    assert_eq!(d.start, 0);
    assert_eq!(d.num_keys_serialized, 0);
    assert_eq!(d.root_serializer.bytes, vec![0, 0, 0, 0]);
    d.serialize_doc_key("k").unwrap();
    assert_eq!(d.num_keys_serialized, 1);
    assert_eq!(d.root_serializer.type_index, Some(4));
    assert_eq!(d.root_serializer.bytes, vec![0, 0, 0, 0, 0, b'k', 0]);
    d.root_serializer.serialize_bool(true).unwrap();
    d.serialize_entry("n", &Value::Absent).unwrap();
    assert_eq!(d.num_keys_serialized, 2);
    d.end_doc().unwrap();
    assert_eq!(
        serializer.into_vec(),
        vec![0x0c, 0, 0, 0, 0x08, b'k', 0, 1, 0x0a, b'n', 0, 0]
    );
}

#[test]
fn document_body_keys_array_elements_by_position() {
    let mut serializer = Serializer::new();
    serializer.bytes.push(0xaa);
    serializer.reserve_element_type();
    let mut d = serializer.serialize_seq(None).unwrap();
    assert_eq!(d.start, 2);
    d.serialize_element(&Value::Bool(true)).unwrap();
    d.serialize_element(&Value::Bool(false)).unwrap();
    d.end_doc().unwrap();
    assert_eq!(
        serializer.into_vec(),
        vec![0xaa, 0x04, 0x0d, 0, 0, 0, 0x08, b'0', 0, 1, 0x08, b'1', 0, 0, 0]
    );
}

#[test]
fn document_body_refuses_a_key_with_zero_byte() {
    let mut serializer = Serializer::new();
    let mut d = serializer.serialize_map(None).unwrap();
    assert_eq!(d.serialize_doc_key("a\0"), Err(Error::InvalidCString("a\0".to_string())));
}

#[test]
fn opening_an_array_at_top_level_is_refused() {
    let mut serializer = Serializer::new();
    assert!(matches!(
        serializer.serialize_seq(Some(1)),
        Err(Error::NonDocumentAtTopLevel(ElementType::Array))
    ));
    assert!(matches!(
        serializer.serialize_tuple(1),
        Err(Error::NonDocumentAtTopLevel(ElementType::Array))
    ));
    assert!(matches!(
        serializer.serialize_tuple_struct("T", 1),
        Err(Error::NonDocumentAtTopLevel(ElementType::Array))
    ));
    assert!(serializer.bytes.is_empty());
}

#[test]
fn struct_under_a_plain_name_chooses_the_document() {
    let mut serializer = Serializer::new();
    let mut s = serializer.serialize_struct("Point", 1).unwrap();
    assert!(matches!(s, StructSerializer::Document(_)));
    s.serialize_field("x", &Value::I32(1)).unwrap();
    s.end().unwrap();
    assert_eq!(serializer.into_vec(), vec![0x0c, 0, 0, 0, 0x10, b'x', 0, 1, 0, 0, 0, 0]);
}

#[test]
fn struct_under_a_reserved_name_chooses_the_scalar() {
    let mut serializer = Serializer::new();
    serializer.reserve_element_type();
    serializer.bytes.extend_from_slice(&[b'k', 0]);
    serializer.reserve_element_type();
    serializer.bytes.extend_from_slice(&[b'j', 0]);
    let mut s = serializer.serialize_struct("$symbol", 1).unwrap();
    assert!(matches!(s, StructSerializer::Value(_)));
    s.serialize_field("$symbol", &Value::Str("s".to_string())).unwrap();
    s.end().unwrap();
    assert_eq!(serializer.into_vec(), vec![0, b'k', 0, 0x0e, b'j', 0, 2, 0, 0, 0, b's', 0]);
}

#[test]
fn struct_dispatcher_surfaces_the_scalar_encoders_refusals() {
    let mut serializer = Serializer::new();
    serializer.bytes.push(1);
    serializer.reserve_element_type();
    let mut s = serializer.serialize_struct("$oid", 1).unwrap();
    assert_eq!(
        s.serialize_field("$oid", &Value::Str("xyz".to_string())),
        Err(Error::UnexpectedScalarField("$oid".to_string()))
    );
    assert_eq!(s.end(), Err(Error::MissingScalarField));
}

#[test]
fn scalar_encoder_counts_its_fields() {
    let mut serializer = Serializer::new();
    serializer.bytes.push(1);
    let mut v = ValueSerializer::new(&mut serializer, ValueType::JavaScriptCodeWithScope);
    assert_eq!(v.start, 1);
    assert_eq!(v.fields_serialized, 0);
    v.serialize_field("$code", &Value::Str("c".to_string())).unwrap();
    assert_eq!(v.fields_serialized, 1);
    assert_eq!(
        v.serialize_field("$code", &Value::Str("c".to_string())),
        Err(Error::UnexpectedScalarField("$code".to_string()))
    );
    v.serialize_field("$scope", &Value::Mapping(vec![])).unwrap();
    assert_eq!(v.fields_serialized, 2);
    v.end().unwrap();
    assert_eq!(
        serializer.into_vec(),
        vec![1, 0x0f, 0, 0, 0, 2, 0, 0, 0, b'c', 0, 5, 0, 0, 0, 0]
    );
}

#[test]
fn newtype_variant_entry_point_writes_one_entry() {
    let mut serializer = Serializer::new();
    serializer
        .serialize_newtype_variant("E", 0, "V", &Value::Str("s".to_string()))
        .unwrap();
    assert_eq!(
        serializer.into_vec(),
        vec![0x0e, 0, 0, 0, 0x02, b'V', 0, 2, 0, 0, 0, b's', 0, 0]
    );
}

#[test]
fn some_and_newtype_struct_entry_points_pass_the_value_through() {
    let mut serializer = Serializer::new();
    serializer.bytes.push(1);
    serializer.reserve_element_type();
    serializer.serialize_some(&Value::Bool(true)).unwrap();
    serializer.reserve_element_type();
    serializer.serialize_newtype_struct("N", &Value::Bool(false)).unwrap();
    serializer.reserve_element_type();
    serializer.serialize_none().unwrap();
    serializer.reserve_element_type();
    serializer.serialize_unit().unwrap();
    serializer.reserve_element_type();
    serializer.serialize_char('z').unwrap();
    serializer.reserve_element_type();
    serializer.serialize_bytes(&[5]).unwrap();
    serializer.reserve_element_type();
    serializer.serialize_i8(-1).unwrap();
    serializer.reserve_element_type();
    serializer.serialize_i64(1).unwrap();
    serializer.reserve_element_type();
    serializer.serialize_i32(1).unwrap();
    assert_eq!(
        serializer.into_vec(),
        vec![
            1, 0x08, 1, 0x08, 0, 0x0a, 0x0a, //
            0x02, 2, 0, 0, 0, b'z', 0, //
            0x05, 1, 0, 0, 0, 0, 5, //
            0x10, 255, 255, 255, 255, //
            0x12, 1, 0, 0, 0, 0, 0, 0, 0, //
            0x10, 1, 0, 0, 0,
        ]
    );
}

#[test]
fn slot_reserved_at_the_very_start_is_filled_like_any_other() {
    let mut serializer = Serializer::new();
    serializer.reserve_element_type();
    assert_eq!(serializer.type_index, Some(0));
    assert_eq!(serializer.bytes, vec![0]);
    assert_eq!(serializer.update_element_type(ElementType::Int32), Ok(()));
    assert_eq!(serializer.bytes, vec![0x10]);

    let mut serializer = Serializer::new();
    serializer.reserve_element_type();
    assert_eq!(serializer.serialize_i32(1), Ok(()));
    assert_eq!(serializer.bytes, vec![0x10, 1, 0, 0, 0]);

    let mut serializer = Serializer::new();
    serializer.reserve_element_type();
    let d = serializer.serialize_seq(None).unwrap();
    d.end_doc().unwrap();
    assert_eq!(serializer.into_vec(), vec![0x04, 5, 0, 0, 0, 0]);

    let mut serializer = Serializer::new();
    serializer.reserve_element_type();
    assert_eq!(Value::Bool(true).serialize(&mut serializer), Ok(()));
    assert_eq!(serializer.into_vec(), vec![0x08, 1]);
}

#[test]
fn only_without_a_pending_slot_is_a_non_document_refused() {
    let mut serializer = Serializer::new();
    assert_eq!(
        serializer.serialize_i32(1),
        Err(Error::NonDocumentAtTopLevel(ElementType::Int32))
    );
    assert_eq!(serializer.type_index, None);
    assert!(serializer.bytes.is_empty());
}

#[test]
fn refused_value_leaves_the_document_body_with_its_key_and_what_came_before() {
    let mut serializer = Serializer::new();
    let mut d = serializer.serialize_map(None).unwrap();
    d.serialize_entry("a", &Value::I32(1)).unwrap();
    let before = d.root_serializer.bytes.clone();
    assert_eq!(
        d.serialize_entry("b", &Value::U16(300)),
        Err(Error::UnsupportedUnsignedInteger(300))
    );
    // the key was written, the value was not
    assert_eq!(d.num_keys_serialized, 2);
    assert_eq!(&d.root_serializer.bytes[..before.len()], &before[..]);
    assert_eq!(&d.root_serializer.bytes[before.len()..], &[0, b'b', 0]);

    let before = d.root_serializer.bytes.clone();
    assert_eq!(
        d.serialize_entry("c\0", &Value::I32(1)),
        Err(Error::InvalidCString("c\0".to_string()))
    );
    // the key was refused: only the slot was reserved
    assert_eq!(d.num_keys_serialized, 2);
    assert_eq!(&d.root_serializer.bytes[..before.len()], &before[..]);
    assert_eq!(&d.root_serializer.bytes[before.len()..], &[0]);
}

#[test]
fn refused_element_of_an_array_keeps_what_came_before() {
    let mut serializer = Serializer::new();
    serializer.reserve_element_type();
    let mut d = serializer.serialize_seq(None).unwrap();
    d.serialize_element(&Value::I32(1)).unwrap();
    let before = d.root_serializer.bytes.clone();
    let nested = Value::Sequence(vec![Value::Absent, Value::U8(1)]);
    assert_eq!(d.serialize_element(&nested), Err(Error::UnsupportedUnsignedInteger(1)));
    assert_eq!(d.num_keys_serialized, 2);
    assert_eq!(&d.root_serializer.bytes[..before.len()], &before[..]);
    assert!(d.root_serializer.bytes.len() > before.len());
}

#[test]
fn refused_field_leaves_the_scalar_encoder_where_it_was() {
    let mut serializer = Serializer::new();
    serializer.bytes.extend_from_slice(&[1, 2]);
    let mut v = ValueSerializer::new(&mut serializer, ValueType::RegularExpression);
    let bad = Value::Struct {
        name: "Body".to_string(),
        fields: vec![
            ("pattern".to_string(), Value::Str("ab".to_string())),
            ("options".to_string(), Value::Str("i\0".to_string())),
        ],
    };
    assert_eq!(
        v.serialize_field("$regularExpression", &bad),
        Err(Error::InvalidCString("\0i".to_string()))
    );
    assert_eq!(v.fields_serialized, 0);
    assert_eq!(v.root_serializer.bytes, vec![1, 2, b'a', b'b', 0]);
    assert_eq!(v.end(), Err(Error::MissingScalarField));
    assert_eq!(serializer.into_vec(), vec![1, 2, b'a', b'b', 0]);
}

#[test]
fn refused_field_leaves_the_struct_dispatcher_where_it_was() {
    let mut serializer = Serializer::new();
    serializer.bytes.push(9);
    serializer.reserve_element_type();
    let mut s = serializer.serialize_struct("$code", 1).unwrap();
    assert_eq!(
        s.serialize_field("$code", &Value::I32(1)),
        Err(Error::UnexpectedScalarField("$code".to_string()))
    );
    match &s {
        StructSerializer::Value(v) => {
            assert_eq!(v.fields_serialized, 0);
            assert_eq!(v.root_serializer.bytes, vec![9, 0x0d]);
        }
        StructSerializer::Document(_) => panic!("a reserved name chooses the scalar"),
    }
}
