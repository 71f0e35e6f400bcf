use bson_raw::error::Error;
use bson_raw::element::ElementType;
use bson_raw::raw::Serializer;
use bson_raw::serialize::to_vec;
use bson_raw::value::Value;

fn encode(value: &Value, u2i: bool) -> Result<Vec<u8>, Error> {
    let mut serializer = Serializer::with_unsigned_conversion(u2i);
    value.serialize(&mut serializer)?;
    Ok(serializer.into_vec())
}

fn named(name: &str, fields: Vec<(&str, Value)>) -> Value {
    Value::Struct {
        name: name.to_string(),
        fields: fields.into_iter().map(|(k, v)| (k.to_string(), v)).collect(),
    }
}

#[test]
fn struct_is_a_document_of_its_fields_in_order() {
    let value = named("Point", vec![("b", Value::I32(2)), ("a", Value::I32(1))]);
    assert_eq!(
        encode(&value, false),
        Ok(vec![
            0x13, 0, 0, 0, //
            0x10, b'b', 0, 2, 0, 0, 0, //
            0x10, b'a', 0, 1, 0, 0, 0, //
            0,
        ])
    );
}

#[test]
fn map_is_a_document_of_its_entries_in_order() {
    let value = Value::Mapping(vec![
        ("k1".to_string(), Value::Bool(true)),
        ("k0".to_string(), Value::Absent),
    ]);
    assert_eq!(
        encode(&value, false),
        Ok(vec![
            0x0e, 0, 0, 0, //
            0x08, b'k', b'1', 0, 1, //
            0x0a, b'k', b'0', 0, //
            0,
        ])
    );
}

#[test]
fn sequence_has_decimal_keys_in_order() {
    let value = named(
        "Doc",
        vec![("s", Value::Sequence(vec![Value::I32(7), Value::Bool(false), Value::Absent]))],
    );
    assert_eq!(
        encode(&value, false),
        Ok(vec![
            0x1b, 0, 0, 0, //
            0x04, b's', 0, //
            0x13, 0, 0, 0, //
            0x10, b'0', 0, 7, 0, 0, 0, //
            0x08, b'1', 0, 0, //
            0x0a, b'2', 0, //
            0, //
            0,
        ])
    );
}

#[test]
fn tuple_and_tuple_struct_are_arrays_like_a_sequence() {
    let items = || vec![Value::I32(1), Value::Str("a".to_string())];
    let seq = encode(&named("Doc", vec![("s", Value::Sequence(items()))]), false);
    let tuple = encode(&named("Doc", vec![("s", Value::Tuple(items()))]), false);
    let tuple_struct = encode(
        &named(
            "Doc",
            vec![("s", Value::TupleStruct { name: "Pair".to_string(), items: items() })],
        ),
        false,
    );
    assert!(seq.is_ok());
    assert_eq!(seq, tuple);
    assert_eq!(seq, tuple_struct);
}

#[test]
fn empty_sequence_is_an_empty_array() {
    let value = named("Doc", vec![("s", Value::Sequence(vec![]))]);
    assert_eq!(
        encode(&value, false),
        Ok(vec![0x0d, 0, 0, 0, 0x04, b's', 0, 5, 0, 0, 0, 0, 0])
    );
}

#[test]
fn sequence_keys_go_past_nine_without_leading_zeros() {
    let items: Vec<Value> = (0..12).map(Value::I32).collect();
    let bytes = encode(&named("Doc", vec![("s", Value::Sequence(items))]), false).unwrap();
    // behind the head of the document, the tag and key of the array, and its length
    let mut at = 4 + 3 + 4;
    for i in 0..12 {
        let key = format!("{}", i);
        assert_eq!(bytes[at], 0x10);
        assert_eq!(&bytes[at + 1..at + 1 + key.len()], key.as_bytes());
        assert_eq!(bytes[at + 1 + key.len()], 0);
        let value_at = at + 2 + key.len();
        assert_eq!(&bytes[value_at..value_at + 4], &(i as i32).to_le_bytes());
        at = value_at + 4;
    }
    assert_eq!(&bytes[at..], &[0, 0]);
}

#[test]
fn nested_documents_close_inside_out() {
    let value = named("Outer", vec![("in", named("Inner", vec![("a", Value::I32(1))]))]);
    assert_eq!(
        encode(&value, false),
        Ok(vec![
            0x15, 0, 0, 0, //
            0x03, b'i', b'n', 0, //
            0x0c, 0, 0, 0, 0x10, b'a', 0, 1, 0, 0, 0, 0, //
            0,
        ])
    );
}

#[test]
fn newtype_variant_is_a_document_with_one_entry() {
    let value = Value::NewtypeVariant {
        name: "Shape".to_string(),
        variant_index: 0,
        variant: "Circle".to_string(),
        value: Box::new(Value::I32(3)),
    };
    assert_eq!(
        encode(&value, false),
        Ok(vec![
            0x11, 0, 0, 0, //
            0x10, b'C', b'i', b'r', b'c', b'l', b'e', 0, 3, 0, 0, 0, //
            0,
        ])
    );
}

#[test]
fn newtype_variant_holds_the_full_encoding_of_its_value() {
    let value = Value::NewtypeVariant {
        name: "E".to_string(),
        variant_index: 1,
        variant: "V".to_string(),
        value: Box::new(Value::Sequence(vec![Value::Bool(true)])),
    };
    assert_eq!(
        encode(&value, false),
        Ok(vec![
            0x11, 0, 0, 0, //
            0x04, b'V', 0, //
            0x09, 0, 0, 0, 0x08, b'0', 0, 1, 0, //
            0,
        ])
    );
}

#[test]
fn newtype_variant_name_with_zero_byte_is_refused() {
    let value = Value::NewtypeVariant {
        name: "E".to_string(),
        variant_index: 1,
        variant: "V\0".to_string(),
        value: Box::new(Value::I32(1)),
    };
    assert_eq!(encode(&value, false), Err(Error::InvalidCString("V\0".to_string())));
}

#[test]
fn refusal_inside_a_sequence_surfaces_unchanged() {
    let value = named(
        "Doc",
        vec![("s", Value::Sequence(vec![Value::I32(1), Value::U64(9), Value::U8(1)]))],
    );
    assert_eq!(encode(&value, false), Err(Error::UnsupportedUnsignedInteger(9)));
}

#[test]
fn same_value_encodes_to_the_same_bytes() {
    let build = || {
        named(
            "Doc",
            vec![
                ("a", Value::Sequence(vec![Value::I32(1), Value::Str("x".to_string())])),
                ("b", Value::Mapping(vec![("k".to_string(), Value::Double(7))])),
                (
                    "c",
                    Value::TupleVariant {
                        name: "E".to_string(),
                        variant_index: 0,
                        variant: "V".to_string(),
                        items: vec![Value::Absent],
                    },
                ),
            ],
        )
    };
    let first = encode(&build(), true).unwrap();
    let second = encode(&build(), true).unwrap();
    assert_eq!(first, second);
    // and one value written twice
    let value = build();
    assert_eq!(encode(&value, true).unwrap(), first);
    assert_eq!(encode(&value, true).unwrap(), first);
}

/// Walks a document or array at `start`, checks that its length points exactly past
/// its terminator, and does the same for every document and array in it. Gives the
/// index behind the document.
fn check_lengths(bytes: &[u8], start: usize) -> usize {
    let len = i32::from_le_bytes([bytes[start], bytes[start + 1], bytes[start + 2], bytes[start + 3]])
        as usize;
    let end = start + len;
    assert!(end <= bytes.len());
    assert_eq!(bytes[end - 1], 0);
    let mut at = start + 4;
    while bytes[at] != 0 {
        let tag = bytes[at];
        at += 1;
        while bytes[at] != 0 {
            at += 1;
        }
        at += 1;
        at = match tag {
            0x01 | 0x12 => at + 8,
            0x02 => {
                let n = i32::from_le_bytes([bytes[at], bytes[at + 1], bytes[at + 2], bytes[at + 3]])
                    as usize;
                assert_eq!(bytes[at + 4 + n - 1], 0);
                at + 4 + n
            }
            0x03 | 0x04 => check_lengths(bytes, at),
            0x05 => {
                let n = i32::from_le_bytes([bytes[at], bytes[at + 1], bytes[at + 2], bytes[at + 3]])
                    as usize;
                at + 5 + n
            }
            0x08 => at + 1,
            0x0a => at,
            0x10 => at + 4,
            other => panic!("tag {} is not expected here", other),
        };
    }
    assert_eq!(at + 1, end);
    end
}

#[test]
fn every_length_points_exactly_past_its_terminator() {
    let value = named(
        "Doc",
        vec![
            ("a", Value::Sequence(vec![Value::I32(1), Value::Sequence(vec![Value::Absent])])),
            ("b", Value::Mapping(vec![("k".to_string(), Value::Str("text".to_string()))])),
            (
                "c",
                Value::TupleVariant {
                    name: "E".to_string(),
                    variant_index: 0,
                    variant: "Bar".to_string(),
                    items: vec![Value::I64(1), Value::Bytes(vec![1, 2, 3])],
                },
            ),
            (
                "d",
                Value::StructVariant {
                    name: "E".to_string(),
                    variant_index: 1,
                    variant: "Baz".to_string(),
                    fields: vec![("x".to_string(), Value::Bool(true))],
                },
            ),
            (
                "e",
                Value::NewtypeVariant {
                    name: "E".to_string(),
                    variant_index: 2,
                    variant: "Qux".to_string(),
                    value: Box::new(Value::Double(0)),
                },
            ),
        ],
    );
    let bytes = encode(&value, false).unwrap();
    assert_eq!(check_lengths(&bytes, 0), bytes.len());
}

#[test]
fn to_vec_gives_the_root_document_or_the_refusal() {
    let value = named("Doc", vec![("a", Value::U8(1))]);
    assert_eq!(to_vec(&value, true), Ok(vec![0x0c, 0, 0, 0, 0x10, b'a', 0, 1, 0, 0, 0, 0]));
    assert_eq!(to_vec(&value, false), Err(Error::UnsupportedUnsignedInteger(1)));
    assert_eq!(
        to_vec(&Value::I32(5), false),
        Err(Error::NonDocumentAtTopLevel(ElementType::Int32))
    );
    assert_eq!(to_vec(&value, true), encode(&value, true));
}

#[test]
fn root_output_starts_with_its_own_length_and_ends_in_zero() {
    let value = named(
        "Doc",
        vec![("a", Value::Str("some text".to_string())), ("b", Value::Sequence(vec![Value::Unit]))],
    );
    let bytes = to_vec(&value, false).unwrap();
    let len = i32::from_le_bytes([bytes[0], bytes[1], bytes[2], bytes[3]]);
    assert_eq!(len as usize, bytes.len());
    assert_eq!(bytes[bytes.len() - 1], 0);
}

#[test]
fn no_tag_is_left_as_a_placeholder() {
    let value = named(
        "Doc",
        vec![
            ("a", Value::Absent),
            ("b", Value::Sequence(vec![Value::Unit, Value::Bool(false)])),
        ],
    );
    let bytes = to_vec(&value, false).unwrap();
    // the tags stand at 4 (a), 7 (b), 14 (0) and 17 (1)
    assert_eq!(bytes[4], 0x0a);
    assert_eq!(bytes[7], 0x04);
    assert_eq!(bytes[14], 0x0a);
    assert_eq!(bytes[17], 0x08);
}
