//! The encoder of the scalars that BSON has beyond the core kinds. Such a scalar
//! arrives as a struct under a reserved name, and its fields hold what the payload is
//! made of.

use vstd::prelude::*;
use vstd::utf8::encode_utf8;
use crate::error::{Error, ErrorView};
use crate::document_serializer::{lemma_closed_is_document, DocumentSerializer};
use crate::model::{
    binary_payload, date_time_payload, db_pointer_payload, fields_of, object_id_payload,
    regex_parts, scalar_closed, scalar_field, scalar_field_count, scalar_field_name, text_of,
    timestamp_payload,
};
use crate::fill::fill_entries;
use crate::raw::Serializer;
use crate::scalar::ValueType;
use crate::text::{parse_decimal_i64, parse_hex24, sorted_string, str_eq};
use crate::value::{lemma_named_contents_at, named_contents, Value};
use crate::wire::{
    begins_with, cstring_bytes, le_bytes32, lemma_begins_with_chain, lemma_begins_with_front,
    length_i32, string_bytes, write_binary, write_cstring, write_i32, write_i64, write_length,
    write_string,
};
use vstd::string::StringExecFns;

verus! {

/// Gives the text that a value holds, if it is a string.
fn value_text(value: &Value) -> (r: Option<&str>)
    ensures
        r is Some <==> text_of(value@) is Some,
        r is Some ==> r->Some_0@ == text_of(value@)->0,
{
    proof {
        reveal(crate::value::content);
    }
    match value {
        Value::Str(s) => Some(s.as_str()),
        _ => None,
    }
}

/// Gives the fields of a value, if it is a struct.
fn value_fields(value: &Value) -> (r: Option<&Vec<(String, Value)>>)
    ensures
        r is Some <==> fields_of(value@) is Some,
        r is Some ==> named_contents(r->Some_0@) == fields_of(value@)->0,
{
    proof {
        reveal(crate::value::content);
    }
    match value {
        Value::Struct { name: _, fields } => Some(fields),
        _ => None,
    }
}

/// Gives how many fields a struct that stands for a scalar of this kind has.
fn field_count(kind: ValueType) -> (n: usize)
    ensures
        n == scalar_field_count(kind),
{
    match kind {
        ValueType::JavaScriptCodeWithScope => 2,
        _ => 1,
    }
}

/// Gives the name of the field at `index` of a struct that stands for a scalar of
/// this kind.
fn field_name(kind: ValueType, index: usize) -> (name: &'static str)
    ensures
        name@ == scalar_field_name(kind, index as nat),
{
    match kind {
        ValueType::JavaScriptCodeWithScope => if index == 0 {
            "$code"
        } else {
            "$scope"
        },
        ValueType::Decimal128 => "$numberDecimalBytes",
        _ => kind.marker(),
    }
}

/// Computes the payload of an object identifier.
fn object_id_bytes(value: &Value) -> (r: Option<Vec<u8>>)
    ensures
        r is Some <==> object_id_payload(value@) is Some,
        r is Some ==> r->Some_0@ == object_id_payload(value@)->0,
{
    match value_text(value) {
        Some(s) => parse_hex24(s.as_bytes()),
        None => None,
    }
}

/// Computes the payload of a date.
fn date_time_bytes(value: &Value) -> (r: Option<Vec<u8>>)
    ensures
        r is Some <==> date_time_payload(value@) is Some,
        r is Some ==> r->Some_0@ == date_time_payload(value@)->0,
{
    let fields = match value_fields(value) {
        Some(fields) => fields,
        None => { return None; },
    };
    proof {
        if fields@.len() > 0 {
            lemma_named_contents_at(fields@, 0);
        }
    }
    if fields.len() != 1 || !str_eq(fields[0].0.as_str(), "$numberLong") {
        return None;
    }
    let text = match value_text(&fields[0].1) {
        Some(text) => text,
        None => { return None; },
    };
    match parse_decimal_i64(text.as_bytes()) {
        Some(millis) => {
            let mut out: Vec<u8> = Vec::new();
            write_i64(&mut out, millis);
            assert(out@ =~= crate::wire::le_bytes64(millis as int));
            Some(out)
        },
        None => None,
    }
}

/// Computes the payload of a binary value.
fn binary_bytes_of(value: &Value) -> (r: Option<Vec<u8>>)
    ensures
        r is Some <==> binary_payload(value@) is Some,
        r is Some ==> r->Some_0@ == binary_payload(value@)->0,
{
    let fields = match value_fields(value) {
        Some(fields) => fields,
        None => { return None; },
    };
    proof {
        if fields@.len() > 1 {
            lemma_named_contents_at(fields@, 0);
            lemma_named_contents_at(fields@, 1);
        }
    }
    if fields.len() != 2 || !str_eq(fields[0].0.as_str(), "bytes") || !str_eq(
        fields[1].0.as_str(),
        "subType",
    ) {
        return None;
    }
    proof {
        reveal(crate::value::content);
    }
    match (&fields[0].1, &fields[1].1) {
        (Value::Bytes(data), Value::U8(subtype)) => {
            let mut out: Vec<u8> = Vec::new();
            if *subtype == 2 {
                let len: usize = data.len();
                write_length(&mut out, len.wrapping_add(4));
                out.push(*subtype);
                write_length(&mut out, len);
                out.extend_from_slice(data.as_slice());
                proof {
                    if len + 4 > usize::MAX {
                        crate::wire::lemma_le_bytes32_wraps(
                            len.wrapping_add(4) as int,
                            (usize::MAX as int + 1) / 0x1_0000_0000,
                        );
                    }
                    assert(out@ =~= binary_payload(value@)->0);
                }
            } else {
                write_binary(&mut out, data.as_slice(), *subtype);
                assert(out@ =~= binary_payload(value@)->0);
            }
            Some(out)
        },
        _ => None,
    }
}

/// Computes the payload of a timestamp.
fn timestamp_bytes(value: &Value) -> (r: Option<Vec<u8>>)
    ensures
        r is Some <==> timestamp_payload(value@) is Some,
        r is Some ==> r->Some_0@ == timestamp_payload(value@)->0,
{
    let fields = match value_fields(value) {
        Some(fields) => fields,
        None => { return None; },
    };
    proof {
        if fields@.len() > 1 {
            lemma_named_contents_at(fields@, 0);
            lemma_named_contents_at(fields@, 1);
        }
    }
    if fields.len() != 2 || !str_eq(fields[0].0.as_str(), "t") || !str_eq(fields[1].0.as_str(), "i") {
        return None;
    }
    proof {
        reveal(crate::value::content);
    }
    match (&fields[0].1, &fields[1].1) {
        (Value::U32(time), Value::U32(increment)) => {
            let mut out: Vec<u8> = Vec::new();
            write_length(&mut out, *increment as usize);
            write_length(&mut out, *time as usize);
            assert(out@ =~= timestamp_payload(value@)->0);
            Some(out)
        },
        _ => None,
    }
}

/// Computes the payload of a database pointer.
fn db_pointer_bytes(value: &Value) -> (r: Option<Vec<u8>>)
    ensures
        r is Some <==> db_pointer_payload(value@) is Some,
        r is Some ==> r->Some_0@ == db_pointer_payload(value@)->0,
{
    let fields = match value_fields(value) {
        Some(fields) => fields,
        None => { return None; },
    };
    proof {
        if fields@.len() > 1 {
            lemma_named_contents_at(fields@, 0);
            lemma_named_contents_at(fields@, 1);
        }
    }
    if fields.len() != 2 || !str_eq(fields[0].0.as_str(), "$ref") || !str_eq(
        fields[1].0.as_str(),
        "$id",
    ) {
        return None;
    }
    let namespace = match value_text(&fields[0].1) {
        Some(text) => text,
        None => { return None; },
    };
    let id = match value_fields(&fields[1].1) {
        Some(id) => id,
        None => { return None; },
    };
    proof {
        if id@.len() > 0 {
            lemma_named_contents_at(id@, 0);
        }
    }
    if id.len() != 1 || !str_eq(id[0].0.as_str(), "$oid") {
        return None;
    }
    match object_id_bytes(&id[0].1) {
        Some(oid) => {
            let mut out: Vec<u8> = Vec::new();
            write_string(&mut out, namespace);
            out.extend_from_slice(oid.as_slice());
            assert(out@ =~= db_pointer_payload(value@)->0);
            Some(out)
        },
        None => None,
    }
}

/// Gives the pattern and the options of a regular expression, the options in
/// ascending order.
fn regex_strings(value: &Value) -> (r: Option<(&str, String)>)
    ensures
        match (r, regex_parts(value@)) {
            (Some(found), Some(parts)) => found.0@ == parts.0 && found.1@ == parts.1,
            (None, None) => true,
            _ => false,
        },
{
    let fields = match value_fields(value) {
        Some(fields) => fields,
        None => { return None; },
    };
    proof {
        if fields@.len() > 1 {
            lemma_named_contents_at(fields@, 0);
            lemma_named_contents_at(fields@, 1);
        }
    }
    if fields.len() != 2 || !str_eq(fields[0].0.as_str(), "pattern") || !str_eq(
        fields[1].0.as_str(),
        "options",
    ) {
        return None;
    }
    match (value_text(&fields[0].1), value_text(&fields[1].1)) {
        (Some(pattern), Some(options)) => Some((pattern, sorted_string(options))),
        _ => None,
    }
}

/// The encoder of one scalar. It is made when a struct under a reserved name begins,
/// takes the fields of that struct, and writes the payload of the scalar into the root
/// encoder's buffer.
pub struct ValueSerializer<'a> {
    pub root_serializer: &'a mut Serializer,
    /// The kind of scalar.
    pub value_type: ValueType,
    /// How many fields have been taken.
    pub fields_serialized: usize,
    /// The index in the buffer at which the payload begins.
    pub start: usize,
}

impl<'a> ValueSerializer<'a> {
    /// The payload lies within the buffer, and code with scope has room for its
    /// length once its first field is in.
    pub open spec fn wf(&self) -> bool {
        &&& self.root_serializer.wf()
        &&& self.start <= self.root_serializer.bytes@.len()
        &&& self.fields_serialized <= scalar_field_count(self.value_type)
        &&& (self.value_type == ValueType::JavaScriptCodeWithScope && self.fields_serialized >= 1
            ==> self.start + 4 <= self.root_serializer.bytes@.len())
    }

    /// What has been written of the payload.
    pub open spec fn written(&self) -> Seq<u8> {
        self.root_serializer.bytes@.skip(self.start as int)
    }

    /// An encoder for a scalar of the given kind, whose payload begins at the end of
    /// the buffer.
    pub fn new(rs: &'a mut Serializer, value_type: ValueType) -> (v: ValueSerializer<'a>)
        requires
            old(rs).wf(),
        ensures
            v.wf(),
            v.value_type == value_type,
            v.fields_serialized == 0,
            v.start == old(rs).bytes@.len(),
            *v.root_serializer == *old(rs),
            *final(rs) == *final(v.root_serializer),
    {
        let start: usize = rs.bytes.len();
        ValueSerializer { root_serializer: rs, value_type, fields_serialized: 0, start }
    }

    /// Appends a payload that was found, or refuses the field by its name where none
    /// was.
    fn append(&mut self, key: &str, found: Option<Vec<u8>>) -> (res: Result<(), Error>)
        requires
            old(self).wf(),
        ensures
            final(self).wf(),
            final(self).start == old(self).start,
            final(self).value_type == old(self).value_type,
            final(self).fields_serialized == old(self).fields_serialized,
            final(self).root_serializer.u2i == old(self).root_serializer.u2i,
            *final(final(self).root_serializer) == *final(old(self).root_serializer),
            found is None ==> res is Err && res->Err_0@ == ErrorView::UnexpectedScalarField(key@)
                && final(self).root_serializer.bytes@ == old(self).root_serializer.bytes@,
            found is Some ==> res is Ok
                && final(self).root_serializer.bytes@ == old(self).root_serializer.bytes@
                + found->Some_0@
                && final(self).root_serializer.type_index == old(self).root_serializer.type_index,
    {
        match found {
            Some(bytes) => {
                self.root_serializer.bytes.extend_from_slice(bytes.as_slice());
                Ok(())
            },
            None => Err(Error::UnexpectedScalarField(String::from_str(key))),
        }
    }

    /// Takes the next field of the struct and writes what it adds to the payload. A
    /// field that the kind does not expect at this place, by its name or by the shape
    /// of its value, is refused.
    pub fn serialize_field(&mut self, key: &str, value: &Value) -> (res: Result<(), Error>)
        requires
            old(self).wf(),
        ensures
            final(self).root_serializer.wf(),
            final(self).start == old(self).start,
            final(self).value_type == old(self).value_type,
            final(self).root_serializer.u2i == old(self).root_serializer.u2i,
            *final(final(self).root_serializer) == *final(old(self).root_serializer),
            match scalar_field(
                old(self).value_type,
                old(self).fields_serialized as nat,
                key@,
                value@,
                old(self).root_serializer.u2i,
            ) {
                Err(e) => res is Err && res->Err_0@ == e && final(self).fields_serialized == old(
                    self).fields_serialized && begins_with(
                    final(self).root_serializer.bytes@,
                    old(self).root_serializer.bytes@,
                ),
                Ok(bytes) => res is Ok && final(self).wf() && final(self).root_serializer.bytes@
                    == old(self).root_serializer.bytes@ + bytes && final(self).fields_serialized
                    == old(self).fields_serialized + 1 && Serializer::slot_kept_or_new(
                    old(self).root_serializer,
                    final(self).root_serializer,
                ),
            },
        decreases value, 1nat,
    {
        proof {
            reveal(scalar_field);
            reveal(crate::value::content);
        }
        let ghost before = self.root_serializer.bytes@;
        proof {
            lemma_begins_with_front(before, Seq::empty());
        }
        let kind = self.value_type;
        let index: usize = self.fields_serialized;
        if index >= field_count(kind) || !str_eq(key, field_name(kind, index)) {
            return Err(Error::UnexpectedScalarField(String::from_str(key)));
        }
        match kind {
            ValueType::ObjectId => self.append(key, object_id_bytes(value))?,
            ValueType::DateTime => self.append(key, date_time_bytes(value))?,
            ValueType::Binary => self.append(key, binary_bytes_of(value))?,
            ValueType::Timestamp => self.append(key, timestamp_bytes(value))?,
            ValueType::DbPointer => self.append(key, db_pointer_bytes(value))?,
            ValueType::MinKey | ValueType::MaxKey | ValueType::Undefined => {
                assert(before + Seq::<u8>::empty() =~= before);
            },
            ValueType::JavaScriptCode | ValueType::Symbol => match value_text(value) {
                Some(s) => write_string(&mut self.root_serializer.bytes, s),
                None => {
                    return Err(Error::UnexpectedScalarField(String::from_str(key)));
                },
            },
            ValueType::Decimal128 => match value {
                Value::Bytes(b) => self.root_serializer.bytes.extend_from_slice(b.as_slice()),
                _ => {
                    return Err(Error::UnexpectedScalarField(String::from_str(key)));
                },
            },
            ValueType::RegularExpression => match regex_strings(value) {
                Some((pattern, options)) => {
                    proof {
                        lemma_begins_with_front(before, cstring_bytes(encode_utf8(pattern@)));
                    }
                    write_cstring(&mut self.root_serializer.bytes, pattern)?;
                    write_cstring(&mut self.root_serializer.bytes, options.as_str())?;
                    assert(self.root_serializer.bytes@ =~= before + (cstring_bytes(
                        encode_utf8(pattern@),
                    ) + cstring_bytes(encode_utf8(options@))));
                },
                None => {
                    return Err(Error::UnexpectedScalarField(String::from_str(key)));
                },
            },
            ValueType::JavaScriptCodeWithScope => if index == 0 {
                match value_text(value) {
                    Some(s) => {
                        write_i32(&mut self.root_serializer.bytes, 0);
                        write_string(&mut self.root_serializer.bytes, s);
                        assert(self.root_serializer.bytes@ =~= before + (le_bytes32(0)
                            + string_bytes(encode_utf8(s@))));
                    },
                    None => {
                        return Err(Error::UnexpectedScalarField(String::from_str(key)));
                    },
                }
            } else {
                match value {
                    Value::Mapping(entries) => {
                        let d = DocumentSerializer::start(self.root_serializer)?;
                        match fill_entries(d, entries) {
                            Ok(()) => {},
                            Err(e) => {
                                proof {
                                    lemma_begins_with_front(before, le_bytes32(0));
                                    lemma_begins_with_chain(
                                        self.root_serializer.bytes@,
                                        before + le_bytes32(0),
                                        before,
                                    );
                                }
                                return Err(e);
                            },
                        }
                        proof {
                            let body = crate::model::named_elements(
                                named_contents(entries@),
                                entries@.len(),
                                self.root_serializer.u2i,
                            )->Ok_0;
                            lemma_closed_is_document(before, body);
                        }
                    },
                    _ => {
                        return Err(Error::UnexpectedScalarField(String::from_str(key)));
                    },
                }
            },
        }
        self.fields_serialized += 1;
        Ok(())
    }

    /// Closes the scalar. One that lacks a field is refused. Code with scope gets its
    /// length, the distance from the start of the payload to the end of the buffer,
    /// where four bytes were reserved for it; every other payload is complete as it
    /// stands.
    pub fn end(self) -> (res: Result<(), Error>)
        requires
            self.wf(),
        ensures
            final(self.root_serializer).wf(),
            final(self.root_serializer).u2i == old(self.root_serializer).u2i,
            match scalar_closed(self.value_type, self.fields_serialized as nat, self.written()) {
                Err(e) => res is Err && res->Err_0@ == e && *final(self.root_serializer) == *old(
                    self.root_serializer),
                Ok(payload) => res is Ok
                    && final(self.root_serializer).bytes@ == old(self.root_serializer).bytes@.take(
                    self.start as int,
                ) + payload
                    && final(self.root_serializer).type_index == old(self.root_serializer).type_index,
            },
    {
        if self.fields_serialized != field_count(self.value_type) {
            return Err(Error::MissingScalarField);
        }
        let ghost before = self.root_serializer.bytes@;
        match self.value_type {
            ValueType::JavaScriptCodeWithScope => {
                let length: i32 = length_i32(self.root_serializer.bytes.len() - self.start);
                self.root_serializer.replace_i32(self.start, length);
                assert(self.root_serializer.bytes@ =~= before.take(self.start as int) + (le_bytes32(
                    before.skip(self.start as int).len() as int,
                ) + before.skip(self.start as int).subrange(
                    4,
                    before.skip(self.start as int).len() as int,
                )));
            },
            _ => {
                assert(before =~= before.take(self.start as int) + before.skip(self.start as int));
            },
        }
        Ok(())
    }
}

} // verus!
