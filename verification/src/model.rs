//! What the encoder writes, stated as functions from values to bytes.
//!
//! A value has an element type, which goes into the tag slot in front of its key, and a
//! payload, which follows the key. Neither depends on where in the buffer the value is
//! written. Where a value cannot be written, the functions give the first refusal that
//! a depth-first walk from left to right meets.

use vstd::prelude::*;
use vstd::utf8::encode_utf8;
use crate::element::ElementType;
use crate::error::ErrorView;
use crate::scalar::{marker_kind, ValueType};
use crate::text::{decimal, hex24_bytes, is_hex24, parse_i64, sorted};
use crate::value::ValueView;
use crate::wire::{binary_bytes, bool_byte, cstring_bytes, le_bytes32, le_bytes64, string_bytes};

verus! {

/// A document or an array: the length of the whole, the elements, and a terminating
/// zero. The length counts its own four bytes and the terminator. No limit is put on
/// it: of a length that does not fit 32 bits, the low 32 bits are written.
pub open spec fn document_bytes(elements: Seq<u8>) -> Seq<u8> {
    le_bytes32(elements.len() as int + 5) + elements + seq![0u8]
}

/// One element: the tag of its type, the key as a null-terminated string, and the
/// payload.
pub open spec fn element_bytes(t: ElementType, key: Seq<char>, payload: Seq<u8>) -> Seq<u8> {
    seq![t.tag()] + cstring_bytes(encode_utf8(key)) + payload
}

/// The element type that a value announces, or the refusal of an unsigned integer.
///
/// Signed integers of 8 and 16 bits widen to `Int32`. With `u2i` set, unsigned ones of
/// 8 and 16 bits widen to `Int32` and those of 32 bits to `Int64`, and one of 64 bits
/// is `Int64` if it fits the signed range. An optional value that is present and a
/// newtype struct have the type of what they hold.
#[verifier::opaque]
pub open spec fn element_type(v: ValueView, u2i: bool) -> Result<ElementType, ErrorView>
    decreases v,
{
    match v {
        ValueView::Bool(_) => Ok(ElementType::Boolean),
        ValueView::I8(_) | ValueView::I16(_) | ValueView::I32(_) => Ok(ElementType::Int32),
        ValueView::I64(_) => Ok(ElementType::Int64),
        ValueView::U8(n) => if u2i {
            Ok(ElementType::Int32)
        } else {
            Err(ErrorView::UnsupportedUnsignedInteger(n as u64))
        },
        ValueView::U16(n) => if u2i {
            Ok(ElementType::Int32)
        } else {
            Err(ErrorView::UnsupportedUnsignedInteger(n as u64))
        },
        ValueView::U32(n) => if u2i {
            Ok(ElementType::Int64)
        } else {
            Err(ErrorView::UnsupportedUnsignedInteger(n as u64))
        },
        ValueView::U64(n) => if !u2i {
            Err(ErrorView::UnsupportedUnsignedInteger(n))
        } else if n > i64::MAX {
            Err(ErrorView::UnsignedIntegerExceededRange(n))
        } else {
            Ok(ElementType::Int64)
        },
        ValueView::Double(_) => Ok(ElementType::Double),
        ValueView::Char(_) | ValueView::Str(_) | ValueView::UnitVariant { .. } => Ok(
            ElementType::String,
        ),
        ValueView::Bytes(_) => Ok(ElementType::Binary),
        ValueView::Absent | ValueView::Unit | ValueView::UnitStruct { .. } => Ok(ElementType::Null),
        ValueView::Present(inner) => element_type(*inner, u2i),
        ValueView::NewtypeStruct { value, .. } => element_type(*value, u2i),
        ValueView::Sequence(_) | ValueView::Tuple(_) | ValueView::TupleStruct { .. } => Ok(
            ElementType::Array,
        ),
        ValueView::NewtypeVariant { .. }
        | ValueView::TupleVariant { .. }
        | ValueView::StructVariant { .. }
        | ValueView::Mapping(_) => Ok(ElementType::EmbeddedDocument),
        ValueView::Struct { name, .. } => match marker_kind(name) {
            Some(kind) => Ok(kind.element_type_spec()),
            None => Ok(ElementType::EmbeddedDocument),
        },
    }
}

/// The bytes that follow the key of a value.
#[verifier::opaque]
pub open spec fn payload(v: ValueView, u2i: bool) -> Result<Seq<u8>, ErrorView>
    decreases v, 0nat,
{
    match v {
        ValueView::Bool(b) => Ok(seq![bool_byte(b)]),
        ValueView::I8(n) => Ok(le_bytes32(n as int)),
        ValueView::I16(n) => Ok(le_bytes32(n as int)),
        ValueView::I32(n) => Ok(le_bytes32(n as int)),
        ValueView::I64(n) => Ok(le_bytes64(n as int)),
        ValueView::U8(n) => match element_type(v, u2i) {
            Ok(_) => Ok(le_bytes32(n as int)),
            Err(e) => Err(e),
        },
        ValueView::U16(n) => match element_type(v, u2i) {
            Ok(_) => Ok(le_bytes32(n as int)),
            Err(e) => Err(e),
        },
        ValueView::U32(n) => match element_type(v, u2i) {
            Ok(_) => Ok(le_bytes64(n as int)),
            Err(e) => Err(e),
        },
        ValueView::U64(n) => match element_type(v, u2i) {
            Ok(_) => Ok(le_bytes64(n as int)),
            Err(e) => Err(e),
        },
        ValueView::Double(bits) => Ok(le_bytes64(bits as int)),
        ValueView::Char(c) => Ok(string_bytes(encode_utf8(seq![c]))),
        ValueView::Str(s) => Ok(string_bytes(encode_utf8(s))),
        ValueView::UnitVariant { variant, .. } => Ok(string_bytes(encode_utf8(variant))),
        ValueView::Bytes(b) => Ok(binary_bytes(b, 0u8)),
        ValueView::Absent | ValueView::Unit | ValueView::UnitStruct { .. } => Ok(Seq::empty()),
        ValueView::Present(inner) => payload(*inner, u2i),
        ValueView::NewtypeStruct { value, .. } => payload(*value, u2i),
        ValueView::NewtypeVariant { variant, value, .. } => match element(variant, *value, u2i) {
            Ok(e) => Ok(document_bytes(e)),
            Err(e) => Err(e),
        },
        ValueView::Sequence(items) => indexed_document(items, u2i),
        ValueView::Tuple(items) => indexed_document(items, u2i),
        ValueView::TupleStruct { items, .. } => indexed_document(items, u2i),
        ValueView::TupleVariant { variant, items, .. } => variant_bytes(
            ElementType::Array,
            variant,
            indexed_elements(items, items.len(), u2i),
        ),
        ValueView::Mapping(entries) => named_document(entries, u2i),
        ValueView::Struct { name, fields } => match marker_kind(name) {
            Some(kind) => scalar_payload(kind, fields, u2i),
            None => named_document(fields, u2i),
        },
        ValueView::StructVariant { variant, fields, .. } => variant_bytes(
            ElementType::EmbeddedDocument,
            variant,
            named_elements(fields, fields.len(), u2i),
        ),
    }
}

/// A value as an element under `key`. A key with a zero byte is refused before the
/// value is looked at.
pub open spec fn element(key: Seq<char>, v: ValueView, u2i: bool) -> Result<Seq<u8>, ErrorView>
    decreases v, 1nat,
{
    if encode_utf8(key).contains(0u8) {
        Err(ErrorView::InvalidCString(key))
    } else {
        match element_type(v, u2i) {
            Err(e) => Err(e),
            Ok(t) => match payload(v, u2i) {
                Err(e) => Err(e),
                Ok(p) => Ok(element_bytes(t, key, p)),
            },
        }
    }
}

/// The first `n` items as elements, each keyed by its position in decimal.
pub open spec fn indexed_elements(items: Seq<ValueView>, n: nat, u2i: bool) -> Result<
    Seq<u8>,
    ErrorView,
>
    decreases items, n,
{
    if n == 0 || n > items.len() {
        Ok(Seq::empty())
    } else {
        match indexed_elements(items, (n - 1) as nat, u2i) {
            Err(e) => Err(e),
            Ok(before) => match element(decimal((n - 1) as nat), items[n - 1], u2i) {
                Err(e) => Err(e),
                Ok(e) => Ok(before + e),
            },
        }
    }
}

/// The first `n` entries as elements, each under its own key, in the order given.
pub open spec fn named_elements(entries: Seq<(Seq<char>, ValueView)>, n: nat, u2i: bool) -> Result<
    Seq<u8>,
    ErrorView,
>
    decreases entries, n,
{
    if n == 0 || n > entries.len() {
        Ok(Seq::empty())
    } else {
        match named_elements(entries, (n - 1) as nat, u2i) {
            Err(e) => Err(e),
            Ok(before) => match element(entries[n - 1].0, entries[n - 1].1, u2i) {
                Err(e) => Err(e),
                Ok(e) => Ok(before + e),
            },
        }
    }
}

/// An array of the items.
pub open spec fn indexed_document(items: Seq<ValueView>, u2i: bool) -> Result<Seq<u8>, ErrorView>
    decreases items, items.len() + 1,
{
    match indexed_elements(items, items.len(), u2i) {
        Err(e) => Err(e),
        Ok(body) => Ok(document_bytes(body)),
    }
}

/// A document of the entries.
pub open spec fn named_document(entries: Seq<(Seq<char>, ValueView)>, u2i: bool) -> Result<
    Seq<u8>,
    ErrorView,
>
    decreases entries, entries.len() + 1,
{
    match named_elements(entries, entries.len(), u2i) {
        Err(e) => Err(e),
        Ok(body) => Ok(document_bytes(body)),
    }
}

/// The wrapper of an enum variant with fields: a document whose one element is keyed
/// by the variant's name and holds the fields as an inner array or document. A name
/// with a zero byte is refused before any field is looked at.
pub open spec fn variant_bytes(
    inner: ElementType,
    variant: Seq<char>,
    fields: Result<Seq<u8>, ErrorView>,
) -> Result<Seq<u8>, ErrorView> {
    if encode_utf8(variant).contains(0u8) {
        Err(ErrorView::InvalidCString(variant))
    } else {
        match fields {
            Err(e) => Err(e),
            Ok(body) => Ok(document_bytes(element_bytes(inner, variant, document_bytes(body)))),
        }
    }
}

/// What the root encoder makes of a value: its element type and payload, or the first
/// refusal. At the top level, where no tag slot is pending, only a document passes.
pub open spec fn encoding(v: ValueView, u2i: bool, top_level: bool) -> Result<
    (ElementType, Seq<u8>),
    ErrorView,
> {
    match element_type(v, u2i) {
        Err(e) => Err(e),
        Ok(t) => if top_level && t != ElementType::EmbeddedDocument {
            Err(ErrorView::NonDocumentAtTopLevel(t))
        } else {
            match payload(v, u2i) {
                Err(e) => Err(e),
                Ok(p) => Ok((t, p)),
            }
        },
    }
}

/// The text that a value holds, if it is a string.
pub open spec fn text_of(v: ValueView) -> Option<Seq<char>> {
    match v {
        ValueView::Str(s) => Some(s),
        _ => None,
    }
}

/// The fields of a value, if it is a struct.
pub open spec fn fields_of(v: ValueView) -> Option<Seq<(Seq<char>, ValueView)>> {
    match v {
        ValueView::Struct { fields, .. } => Some(fields),
        _ => None,
    }
}

/// The twelve bytes of an object identifier, from a string of 24 hexadecimal digits.
pub open spec fn object_id_payload(v: ValueView) -> Option<Seq<u8>> {
    match text_of(v) {
        Some(s) => if is_hex24(encode_utf8(s)) {
            Some(hex24_bytes(encode_utf8(s)))
        } else {
            None
        },
        None => None,
    }
}

/// The payload of a date: milliseconds as a 64-bit integer, from a struct whose one
/// field `$numberLong` holds them in decimal.
pub open spec fn date_time_payload(v: ValueView) -> Option<Seq<u8>> {
    match fields_of(v) {
        Some(fields) => if fields.len() == 1 && fields[0].0 == "$numberLong"@ {
            match text_of(fields[0].1) {
                Some(s) => match parse_i64(encode_utf8(s)) {
                    Some(millis) => Some(le_bytes64(millis as int)),
                    None => None,
                },
                None => None,
            }
        } else {
            None
        },
        None => None,
    }
}

/// The payload of a binary value, from a struct with the fields `bytes`, a byte
/// string, and `subType`, an unsigned 8-bit integer. Under the old binary subtype the
/// data carry a second length.
pub open spec fn binary_payload(v: ValueView) -> Option<Seq<u8>> {
    match fields_of(v) {
        Some(fields) => if fields.len() == 2 && fields[0].0 == "bytes"@ && fields[1].0
            == "subType"@ {
            match (fields[0].1, fields[1].1) {
                (ValueView::Bytes(data), ValueView::U8(subtype)) => if subtype == 2 {
                    Some(
                        le_bytes32(data.len() as int + 4) + seq![subtype] + le_bytes32(
                            data.len() as int,
                        ) + data,
                    )
                } else {
                    Some(binary_bytes(data, subtype))
                },
                _ => None,
            }
        } else {
            None
        },
        None => None,
    }
}

/// The payload of a timestamp, from a struct with the fields `t`, the seconds, and
/// `i`, the increment, both unsigned 32-bit integers: the increment goes first.
pub open spec fn timestamp_payload(v: ValueView) -> Option<Seq<u8>> {
    match fields_of(v) {
        Some(fields) => if fields.len() == 2 && fields[0].0 == "t"@ && fields[1].0 == "i"@ {
            match (fields[0].1, fields[1].1) {
                (ValueView::U32(time), ValueView::U32(increment)) => Some(
                    le_bytes32(increment as int) + le_bytes32(time as int),
                ),
                _ => None,
            }
        } else {
            None
        },
        None => None,
    }
}

/// The pattern and the options of a regular expression, from a struct with the string
/// fields `pattern` and `options`. The options come out in ascending order.
pub open spec fn regex_parts(v: ValueView) -> Option<(Seq<char>, Seq<char>)> {
    match fields_of(v) {
        Some(fields) => if fields.len() == 2 && fields[0].0 == "pattern"@ && fields[1].0
            == "options"@ {
            match (text_of(fields[0].1), text_of(fields[1].1)) {
                (Some(pattern), Some(options)) => Some((pattern, sorted(options))),
                _ => None,
            }
        } else {
            None
        },
        None => None,
    }
}

/// The payload of a database pointer, from a struct with the fields `$ref`, a string,
/// and `$id`, a struct whose one field `$oid` holds 24 hexadecimal digits.
pub open spec fn db_pointer_payload(v: ValueView) -> Option<Seq<u8>> {
    match fields_of(v) {
        Some(fields) => if fields.len() == 2 && fields[0].0 == "$ref"@ && fields[1].0 == "$id"@ {
            match (text_of(fields[0].1), fields_of(fields[1].1)) {
                (Some(namespace), Some(id)) => if id.len() == 1 && id[0].0 == "$oid"@ {
                    match object_id_payload(id[0].1) {
                        Some(oid) => Some(string_bytes(encode_utf8(namespace)) + oid),
                        None => None,
                    }
                } else {
                    None
                },
                _ => None,
            }
        } else {
            None
        },
        None => None,
    }
}

/// How many fields a struct that stands for a scalar of this kind has.
pub open spec fn scalar_field_count(kind: ValueType) -> nat {
    match kind {
        ValueType::JavaScriptCodeWithScope => 2,
        _ => 1,
    }
}

/// The name of the field at `index` of a struct that stands for a scalar of this kind.
pub open spec fn scalar_field_name(kind: ValueType, index: nat) -> Seq<char> {
    match kind {
        ValueType::JavaScriptCodeWithScope => if index == 0 {
            "$code"@
        } else {
            "$scope"@
        },
        ValueType::Decimal128 => "$numberDecimalBytes"@,
        _ => kind.marker_spec(),
    }
}

/// What the field at `index` of a struct that stands for a scalar adds to the buffer.
///
/// A field under another name than the kind expects at that place, or with a value of
/// another shape, is refused by its name. Code with scope starts with four bytes that
/// are a placeholder for its length.
#[verifier::opaque]
pub open spec fn scalar_field(
    kind: ValueType,
    index: nat,
    key: Seq<char>,
    v: ValueView,
    u2i: bool,
) -> Result<Seq<u8>, ErrorView>
    decreases v, 1nat,
{
    let refused = Err::<Seq<u8>, ErrorView>(ErrorView::UnexpectedScalarField(key));
    let plain = |found: Option<Seq<u8>>|
        match found {
            Some(bytes) => Ok::<Seq<u8>, ErrorView>(bytes),
            None => refused,
        };
    if index >= scalar_field_count(kind) || key != scalar_field_name(kind, index) {
        refused
    } else {
        match kind {
            ValueType::ObjectId => plain(object_id_payload(v)),
            ValueType::DateTime => plain(date_time_payload(v)),
            ValueType::Binary => plain(binary_payload(v)),
            ValueType::Timestamp => plain(timestamp_payload(v)),
            ValueType::DbPointer => plain(db_pointer_payload(v)),
            ValueType::MinKey | ValueType::MaxKey | ValueType::Undefined => Ok(Seq::empty()),
            ValueType::JavaScriptCode | ValueType::Symbol => match text_of(v) {
                Some(s) => Ok(string_bytes(encode_utf8(s))),
                None => refused,
            },
            ValueType::Decimal128 => match v {
                ValueView::Bytes(b) => Ok(b),
                _ => refused,
            },
            ValueType::RegularExpression => match regex_parts(v) {
                Some((pattern, options)) => if encode_utf8(pattern).contains(0u8) {
                    Err(ErrorView::InvalidCString(pattern))
                } else if encode_utf8(options).contains(0u8) {
                    Err(ErrorView::InvalidCString(options))
                } else {
                    Ok(cstring_bytes(encode_utf8(pattern)) + cstring_bytes(encode_utf8(options)))
                },
                None => refused,
            },
            ValueType::JavaScriptCodeWithScope => if index == 0 {
                match text_of(v) {
                    Some(s) => Ok(le_bytes32(0) + string_bytes(encode_utf8(s))),
                    None => refused,
                }
            } else {
                match v {
                    ValueView::Mapping(entries) => named_document(entries, u2i),
                    _ => refused,
                }
            },
        }
    }
}

/// What the first `n` fields of a struct that stands for a scalar add to the buffer.
pub open spec fn scalar_fields(
    kind: ValueType,
    fields: Seq<(Seq<char>, ValueView)>,
    n: nat,
    u2i: bool,
) -> Result<Seq<u8>, ErrorView>
    decreases fields, n,
{
    if n == 0 || n > fields.len() {
        Ok(Seq::empty())
    } else {
        match scalar_fields(kind, fields, (n - 1) as nat, u2i) {
            Err(e) => Err(e),
            Ok(before) => match scalar_field(
                kind,
                (n - 1) as nat,
                fields[n - 1].0,
                fields[n - 1].1,
                u2i,
            ) {
                Err(e) => Err(e),
                Ok(bytes) => Ok(before + bytes),
            },
        }
    }
}

/// What closing a scalar encoder leaves of the bytes that its `count` fields added. A
/// scalar that lacks a field is refused. Code with scope gets its length, which counts
/// the four bytes of the length itself.
pub open spec fn scalar_closed(kind: ValueType, count: nat, written: Seq<u8>) -> Result<
    Seq<u8>,
    ErrorView,
> {
    if count != scalar_field_count(kind) {
        Err(ErrorView::MissingScalarField)
    } else if kind == ValueType::JavaScriptCodeWithScope && written.len() >= 4 {
        Ok(le_bytes32(written.len() as int) + written.subrange(4, written.len() as int))
    } else {
        Ok(written)
    }
}

/// The payload of a struct that stands for a scalar.
pub open spec fn scalar_payload(
    kind: ValueType,
    fields: Seq<(Seq<char>, ValueView)>,
    u2i: bool,
) -> Result<Seq<u8>, ErrorView>
    decreases fields, fields.len() + 1,
{
    match scalar_fields(kind, fields, fields.len(), u2i) {
        Err(e) => Err(e),
        Ok(written) => scalar_closed(kind, fields.len(), written),
    }
}

/// Once an item is refused, the refusal stands however many more items are taken.
pub proof fn lemma_indexed_elements_stop(items: Seq<ValueView>, i: nat, n: nat, u2i: bool)
    requires
        i <= n <= items.len(),
        indexed_elements(items, i, u2i) is Err,
    ensures
        indexed_elements(items, n, u2i) == indexed_elements(items, i, u2i),
    decreases n,
{
    if n > i {
        lemma_indexed_elements_stop(items, i, (n - 1) as nat, u2i);
    }
}

/// Once an entry is refused, the refusal stands however many more entries are taken.
pub proof fn lemma_named_elements_stop(
    entries: Seq<(Seq<char>, ValueView)>,
    i: nat,
    n: nat,
    u2i: bool,
)
    requires
        i <= n <= entries.len(),
        named_elements(entries, i, u2i) is Err,
    ensures
        named_elements(entries, n, u2i) == named_elements(entries, i, u2i),
    decreases n,
{
    if n > i {
        lemma_named_elements_stop(entries, i, (n - 1) as nat, u2i);
    }
}

/// Once a field of a scalar is refused, the refusal stands however many more fields
/// are taken.
pub proof fn lemma_scalar_fields_stop(
    kind: ValueType,
    fields: Seq<(Seq<char>, ValueView)>,
    i: nat,
    n: nat,
    u2i: bool,
)
    requires
        i <= n <= fields.len(),
        scalar_fields(kind, fields, i, u2i) is Err,
    ensures
        scalar_fields(kind, fields, n, u2i) == scalar_fields(kind, fields, i, u2i),
    decreases n,
{
    if n > i {
        lemma_scalar_fields_stop(kind, fields, i, (n - 1) as nat, u2i);
    }
}

/// A payload, or its refusal, under an element type: at the top level any type but a
/// document is refused before the payload is looked at.
pub open spec fn at_level(t: ElementType, p: Result<Seq<u8>, ErrorView>, top_level: bool) -> Result<
    (ElementType, Seq<u8>),
    ErrorView,
> {
    if top_level && t != ElementType::EmbeddedDocument {
        Err(ErrorView::NonDocumentAtTopLevel(t))
    } else {
        match p {
            Err(e) => Err(e),
            Ok(bytes) => Ok((t, bytes)),
        }
    }
}

/// An unsigned integer under the element type it widens to, or its refusal.
pub open spec fn unsigned_at_level(
    n: u64,
    wide: bool,
    u2i: bool,
    top_level: bool,
) -> Result<(ElementType, Seq<u8>), ErrorView> {
    if !u2i {
        Err(ErrorView::UnsupportedUnsignedInteger(n))
    } else if n > i64::MAX {
        Err(ErrorView::UnsignedIntegerExceededRange(n))
    } else if wide {
        at_level(ElementType::Int64, Ok(le_bytes64(n as int)), top_level)
    } else {
        at_level(ElementType::Int32, Ok(le_bytes32(n as int)), top_level)
    }
}

/// What the root encoder makes of a value, kind by kind.
pub proof fn lemma_encoding_by_kind(v: ValueView, u2i: bool, top: bool)
    ensures
        encoding(v, u2i, top) == match v {
            ValueView::Bool(b) => at_level(ElementType::Boolean, Ok(seq![bool_byte(b)]), top),
            ValueView::I8(n) => at_level(ElementType::Int32, Ok(le_bytes32(n as int)), top),
            ValueView::I16(n) => at_level(ElementType::Int32, Ok(le_bytes32(n as int)), top),
            ValueView::I32(n) => at_level(ElementType::Int32, Ok(le_bytes32(n as int)), top),
            ValueView::I64(n) => at_level(ElementType::Int64, Ok(le_bytes64(n as int)), top),
            ValueView::U8(n) => unsigned_at_level(n as u64, false, u2i, top),
            ValueView::U16(n) => unsigned_at_level(n as u64, false, u2i, top),
            ValueView::U32(n) => unsigned_at_level(n as u64, true, u2i, top),
            ValueView::U64(n) => unsigned_at_level(n, true, u2i, top),
            ValueView::Double(bits) => at_level(
                ElementType::Double,
                Ok(le_bytes64(bits as int)),
                top,
            ),
            ValueView::Char(c) => at_level(
                ElementType::String,
                Ok(string_bytes(encode_utf8(seq![c]))),
                top,
            ),
            ValueView::Str(s) => at_level(ElementType::String, Ok(string_bytes(encode_utf8(s))), top),
            ValueView::UnitVariant { variant, .. } => at_level(
                ElementType::String,
                Ok(string_bytes(encode_utf8(variant))),
                top,
            ),
            ValueView::Bytes(b) => at_level(ElementType::Binary, Ok(binary_bytes(b, 0u8)), top),
            ValueView::Absent | ValueView::Unit | ValueView::UnitStruct { .. } => at_level(
                ElementType::Null,
                Ok(Seq::empty()),
                top,
            ),
            ValueView::Present(inner) => encoding(*inner, u2i, top),
            ValueView::NewtypeStruct { value, .. } => encoding(*value, u2i, top),
            ValueView::NewtypeVariant { variant, value, .. } => at_level(
                ElementType::EmbeddedDocument,
                match element(variant, *value, u2i) {
                    Ok(e) => Ok(document_bytes(e)),
                    Err(e) => Err(e),
                },
                top,
            ),
            ValueView::Sequence(items) => at_level(
                ElementType::Array,
                indexed_document(items, u2i),
                top,
            ),
            ValueView::Tuple(items) => at_level(ElementType::Array, indexed_document(items, u2i), top),
            ValueView::TupleStruct { items, .. } => at_level(
                ElementType::Array,
                indexed_document(items, u2i),
                top,
            ),
            ValueView::TupleVariant { variant, items, .. } => at_level(
                ElementType::EmbeddedDocument,
                variant_bytes(ElementType::Array, variant, indexed_elements(items, items.len(), u2i)),
                top,
            ),
            ValueView::Mapping(entries) => at_level(
                ElementType::EmbeddedDocument,
                named_document(entries, u2i),
                top,
            ),
            ValueView::Struct { name, fields } => match marker_kind(name) {
                Some(kind) => at_level(
                    kind.element_type_spec(),
                    scalar_payload(kind, fields, u2i),
                    top,
                ),
                None => at_level(ElementType::EmbeddedDocument, named_document(fields, u2i), top),
            },
            ValueView::StructVariant { variant, fields, .. } => at_level(
                ElementType::EmbeddedDocument,
                variant_bytes(
                    ElementType::EmbeddedDocument,
                    variant,
                    named_elements(fields, fields.len(), u2i),
                ),
                top,
            ),
        },
{
    reveal(payload);
    reveal(element_type);
}

} // verus!
