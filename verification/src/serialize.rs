//! The walk over a value: each node calls the entry point of the root encoder for its
//! kind, and hands its parts to the encoder that the entry point returns.

use vstd::prelude::*;
use vstd::utf8::encode_utf8;
use crate::document_serializer::{closed, lemma_closed_is_document};
use crate::element::ElementType;
use crate::error::Error;
use crate::fill::{fill_elements, fill_entries, fill_fields, fill_struct_variant, fill_tuple_variant};
use crate::model::{
    at_level, indexed_document, indexed_elements, named_document, named_elements, scalar_payload,
    variant_bytes,
};
use crate::raw::Serializer;
use crate::scalar::marker_kind;
use crate::value::{contents, named_contents, Value};
use crate::variant_serializer::lemma_closed_is_variant;
use crate::wire::{le_bytes32, lemma_begins_with_front};

verus! {

/// Walks a sequence: opens an array, hands it the items, and closes it.
fn walk_sequence(serializer: &mut Serializer, items: &Vec<Value>) -> (res: Result<(), Error>)
    requires
        old(serializer).wf(),
    ensures
        Serializer::took_as(
            old(serializer),
            final(serializer),
            res,
            at_level(
                ElementType::Array,
                indexed_document(contents(items@), old(serializer).u2i),
                old(serializer).type_index is None,
            ),
        ),
    decreases items, 1nat,
{
    proof {
        Serializer::lemma_kept_as_it_was(old(serializer));
    }
    let d = serializer.serialize_seq(Some(items.len()))?;
    let res = fill_elements(d, items);
    proof {
        lemma_array(old(serializer), contents(items@));
        if res is Err {
            Serializer::lemma_kept(old(serializer), serializer, ElementType::Array, le_bytes32(0));
        }
    }
    res
}

/// Walks a tuple: opens an array, hands it the items, and closes it.
fn walk_tuple(serializer: &mut Serializer, items: &Vec<Value>) -> (res: Result<(), Error>)
    requires
        old(serializer).wf(),
    ensures
        Serializer::took_as(
            old(serializer),
            final(serializer),
            res,
            at_level(
                ElementType::Array,
                indexed_document(contents(items@), old(serializer).u2i),
                old(serializer).type_index is None,
            ),
        ),
    decreases items, 1nat,
{
    proof {
        Serializer::lemma_kept_as_it_was(old(serializer));
    }
    let d = serializer.serialize_tuple(items.len())?;
    let res = fill_elements(d, items);
    proof {
        lemma_array(old(serializer), contents(items@));
        if res is Err {
            Serializer::lemma_kept(old(serializer), serializer, ElementType::Array, le_bytes32(0));
        }
    }
    res
}

/// Walks a struct whose fields go by position: opens an array, hands it the items,
/// and closes it.
fn walk_tuple_struct(serializer: &mut Serializer, name: &str, items: &Vec<Value>) -> (res: Result<
    (),
    Error,
>)
    requires
        old(serializer).wf(),
    ensures
        Serializer::took_as(
            old(serializer),
            final(serializer),
            res,
            at_level(
                ElementType::Array,
                indexed_document(contents(items@), old(serializer).u2i),
                old(serializer).type_index is None,
            ),
        ),
    decreases items, 1nat,
{
    proof {
        Serializer::lemma_kept_as_it_was(old(serializer));
    }
    let d = serializer.serialize_tuple_struct(name, items.len())?;
    let res = fill_elements(d, items);
    proof {
        lemma_array(old(serializer), contents(items@));
        if res is Err {
            Serializer::lemma_kept(old(serializer), serializer, ElementType::Array, le_bytes32(0));
        }
    }
    res
}

/// Walks an enum variant whose fields go by position: opens the wrapper, hands it the
/// items, and closes it.
fn walk_tuple_variant(
    serializer: &mut Serializer,
    name: &str,
    variant_index: u32,
    variant: &str,
    items: &Vec<Value>,
) -> (res: Result<(), Error>)
    requires
        old(serializer).wf(),
    ensures
        Serializer::took_as(
            old(serializer),
            final(serializer),
            res,
            at_level(
                ElementType::EmbeddedDocument,
                variant_bytes(
                    ElementType::Array,
                    variant@,
                    indexed_elements(contents(items@), items@.len(), old(serializer).u2i),
                ),
                old(serializer).type_index is None,
            ),
        ),
    decreases items, 1nat,
{
    let v = match serializer.serialize_tuple_variant(name, variant_index, variant, items.len()) {
        Ok(v) => v,
        Err(e) => {
            proof {
                let head = le_bytes32(0) + seq![ElementType::Array.tag()];
                let all = old(serializer).patched(ElementType::EmbeddedDocument) + head;
                assert(serializer.bytes@ =~= all);
                lemma_begins_with_front(all, Seq::empty());
                Serializer::lemma_kept(
                    old(serializer),
                    serializer,
                    ElementType::EmbeddedDocument,
                    head,
                );
            }
            return Err(e);
        },
    };
    let res = fill_tuple_variant(v, items);
    proof {
        lemma_variant(
            old(serializer),
            ElementType::Array,
            variant@,
            indexed_elements(contents(items@), items@.len(), old(serializer).u2i),
        );
        if res is Err {
            Serializer::lemma_kept(
                old(serializer),
                serializer,
                ElementType::EmbeddedDocument,
                crate::variant_serializer::variant_head(ElementType::Array, variant@),
            );
        }
    }
    res
}

/// Walks a map: opens a document, hands it the entries, and closes it.
fn walk_map(serializer: &mut Serializer, entries: &Vec<(String, Value)>) -> (res: Result<(), Error>)
    requires
        old(serializer).wf(),
    ensures
        Serializer::took_as(
            old(serializer),
            final(serializer),
            res,
            at_level(
                ElementType::EmbeddedDocument,
                named_document(named_contents(entries@), old(serializer).u2i),
                old(serializer).type_index is None,
            ),
        ),
    decreases entries, 1nat,
{
    let d = serializer.serialize_map(Some(entries.len()))?;
    let res = fill_entries(d, entries);
    proof {
        lemma_document(old(serializer), ElementType::EmbeddedDocument, named_contents(entries@));
        if res is Err {
            Serializer::lemma_kept(
                old(serializer),
                serializer,
                ElementType::EmbeddedDocument,
                le_bytes32(0),
            );
        }
    }
    res
}

/// Walks a struct: begins it under its name, hands its fields to the encoder that the
/// name chose, and closes it.
fn walk_struct(serializer: &mut Serializer, name: &str, fields: &Vec<(String, Value)>) -> (res:
    Result<(), Error>)
    requires
        old(serializer).wf(),
    ensures
        Serializer::took_as(
            old(serializer),
            final(serializer),
            res,
            match marker_kind(name@) {
                Some(kind) => at_level(
                    kind.element_type_spec(),
                    scalar_payload(kind, named_contents(fields@), old(serializer).u2i),
                    old(serializer).type_index is None,
                ),
                None => at_level(
                    ElementType::EmbeddedDocument,
                    named_document(named_contents(fields@), old(serializer).u2i),
                    old(serializer).type_index is None,
                ),
            },
        ),
    decreases fields, 1nat,
{
    proof {
        Serializer::lemma_kept_as_it_was(old(serializer));
    }
    let s = serializer.serialize_struct(name, fields.len())?;
    let res = fill_fields(s, fields);
    proof {
        if marker_kind(name@) is None {
            lemma_document(old(serializer), ElementType::EmbeddedDocument, named_contents(fields@));
            if res is Err {
                Serializer::lemma_kept(
                    old(serializer),
                    serializer,
                    ElementType::EmbeddedDocument,
                    le_bytes32(0),
                );
            }
        } else if res is Err {
            let t = marker_kind(name@)->0.element_type_spec();
            assert(old(serializer).patched(t) + Seq::<u8>::empty() =~= old(serializer).patched(t));
            Serializer::lemma_kept(old(serializer), serializer, t, Seq::empty());
        }
    }
    res
}

/// Walks an enum variant whose fields go by name: opens the wrapper, hands it the
/// fields, and closes it.
fn walk_struct_variant(
    serializer: &mut Serializer,
    name: &str,
    variant_index: u32,
    variant: &str,
    fields: &Vec<(String, Value)>,
) -> (res: Result<(), Error>)
    requires
        old(serializer).wf(),
    ensures
        Serializer::took_as(
            old(serializer),
            final(serializer),
            res,
            at_level(
                ElementType::EmbeddedDocument,
                variant_bytes(
                    ElementType::EmbeddedDocument,
                    variant@,
                    named_elements(named_contents(fields@), fields@.len(), old(serializer).u2i),
                ),
                old(serializer).type_index is None,
            ),
        ),
    decreases fields, 1nat,
{
    let v = match serializer.serialize_struct_variant(name, variant_index, variant, fields.len()) {
        Ok(v) => v,
        Err(e) => {
            proof {
                let head = le_bytes32(0) + seq![ElementType::EmbeddedDocument.tag()];
                let all = old(serializer).patched(ElementType::EmbeddedDocument) + head;
                assert(serializer.bytes@ =~= all);
                lemma_begins_with_front(all, Seq::empty());
                Serializer::lemma_kept(
                    old(serializer),
                    serializer,
                    ElementType::EmbeddedDocument,
                    head,
                );
            }
            return Err(e);
        },
    };
    let res = fill_struct_variant(v, fields);
    proof {
        lemma_variant(
            old(serializer),
            ElementType::EmbeddedDocument,
            variant@,
            named_elements(named_contents(fields@), fields@.len(), old(serializer).u2i),
        );
        if res is Err {
            Serializer::lemma_kept(
                old(serializer),
                serializer,
                ElementType::EmbeddedDocument,
                crate::variant_serializer::variant_head(ElementType::EmbeddedDocument, variant@),
            );
        }
    }
    res
}

impl Value {
    /// Writes this value through the root encoder: its element type goes into the
    /// pending slot, and its payload to the end of the buffer. At the top level, where
    /// no slot is pending, only a document passes.
    pub fn serialize(&self, serializer: &mut Serializer) -> (res: Result<(), Error>)
        requires
            old(serializer).wf(),
        ensures
            Serializer::took(old(serializer), final(serializer), res, self@),
        decreases self, 0nat,
    {
        proof {
            reveal(crate::value::content);
            Serializer::lemma_kept_as_it_was(old(serializer));
            crate::model::lemma_encoding_by_kind(self@, serializer.u2i, serializer.type_index is None);
        }
        match self {
            Value::Bool(v) => serializer.serialize_bool(*v),
            Value::I8(v) => serializer.serialize_i8(*v),
            Value::I16(v) => serializer.serialize_i16(*v),
            Value::I32(v) => serializer.serialize_i32(*v),
            Value::I64(v) => serializer.serialize_i64(*v),
            Value::U8(v) => serializer.serialize_u8(*v),
            Value::U16(v) => serializer.serialize_u16(*v),
            Value::U32(v) => serializer.serialize_u32(*v),
            Value::U64(v) => serializer.serialize_u64(*v),
            Value::Double(bits) => serializer.serialize_f64(*bits),
            Value::Char(c) => serializer.serialize_char(*c),
            Value::Str(s) => serializer.serialize_str(s.as_str()),
            Value::Bytes(b) => serializer.serialize_bytes(b.as_slice()),
            Value::Absent => serializer.serialize_none(),
            Value::Present(inner) => serializer.serialize_some(inner),
            Value::Unit => serializer.serialize_unit(),
            Value::UnitStruct { name } => serializer.serialize_unit_struct(name.as_str()),
            Value::UnitVariant { name, variant_index, variant } => serializer.serialize_unit_variant(
                name.as_str(),
                *variant_index,
                variant.as_str(),
            ),
            Value::NewtypeStruct { name, value } => serializer.serialize_newtype_struct(
                name.as_str(),
                value,
            ),
            Value::NewtypeVariant {
                name,
                variant_index,
                variant,
                value,
            } => serializer.serialize_newtype_variant(
                name.as_str(),
                *variant_index,
                variant.as_str(),
                value,
            ),
            Value::Sequence(items) => walk_sequence(serializer, items),
            Value::Tuple(items) => walk_tuple(serializer, items),
            Value::TupleStruct { name, items } => walk_tuple_struct(serializer, name.as_str(), items),
            Value::TupleVariant { name, variant_index, variant, items } => walk_tuple_variant(
                serializer,
                name.as_str(),
                *variant_index,
                variant.as_str(),
                items,
            ),
            Value::Mapping(entries) => walk_map(serializer, entries),
            Value::Struct { name, fields } => walk_struct(serializer, name.as_str(), fields),
            Value::StructVariant { name, variant_index, variant, fields } => walk_struct_variant(
                serializer,
                name.as_str(),
                *variant_index,
                variant.as_str(),
                fields,
            ),
        }
    }
}

/// Encodes a value as a whole document: the bytes of the root document, which has no
/// tag and no key in front. A value that is not a document is refused, and so is one
/// with a part that cannot be written; no bytes are handed out then.
pub fn to_vec(value: &Value, u2i: bool) -> (res: Result<Vec<u8>, Error>)
    ensures
        match crate::model::encoding(value@, u2i, true) {
            Err(e) => res is Err && res->Err_0@ == e,
            Ok((t, p)) => res is Ok && res->Ok_0@ == p && t == ElementType::EmbeddedDocument,
        },
{
    let mut serializer = Serializer::with_unsigned_conversion(u2i);
    value.serialize(&mut serializer)?;
    proof {
        let (t, p) = crate::model::encoding(value@, u2i, true)->Ok_0;
        assert(Seq::<u8>::empty() + p =~= p);
    }
    Ok(serializer.into_vec())
}

/// An array that was opened after the slot was filled and closed after its elements
/// were written stands behind the patched buffer as one array.
proof fn lemma_array(before: &Serializer, items: Seq<crate::value::ValueView>)
    requires
        before.wf(),
    ensures
        indexed_elements(items, items.len(), before.u2i) is Ok ==> closed(
            before.patched(ElementType::Array) + crate::wire::le_bytes32(0) + indexed_elements(
                items,
                items.len(),
                before.u2i,
            )->Ok_0,
            before.bytes@.len() as int,
        ) == before.patched(ElementType::Array) + crate::model::document_bytes(
            indexed_elements(items, items.len(), before.u2i)->Ok_0,
        ),
{
    if indexed_elements(items, items.len(), before.u2i) is Ok {
        assert(before.patched(ElementType::Array).len() == before.bytes@.len());
        lemma_closed_is_document(
            before.patched(ElementType::Array),
            indexed_elements(items, items.len(), before.u2i)->Ok_0,
        );
    }
}

/// The same for a document of named entries.
proof fn lemma_document(
    before: &Serializer,
    t: ElementType,
    entries: Seq<(Seq<char>, crate::value::ValueView)>,
)
    requires
        before.wf(),
    ensures
        named_elements(entries, entries.len(), before.u2i) is Ok ==> closed(
            before.patched(t) + crate::wire::le_bytes32(0) + named_elements(
                entries,
                entries.len(),
                before.u2i,
            )->Ok_0,
            before.bytes@.len() as int,
        ) == before.patched(t) + crate::model::document_bytes(
            named_elements(entries, entries.len(), before.u2i)->Ok_0,
        ),
{
    if named_elements(entries, entries.len(), before.u2i) is Ok {
        assert(before.patched(t).len() == before.bytes@.len());
        lemma_closed_is_document(
            before.patched(t),
            named_elements(entries, entries.len(), before.u2i)->Ok_0,
        );
    }
}

/// The same for the wrapper of an enum variant.
proof fn lemma_variant(
    before: &Serializer,
    inner: ElementType,
    variant: Seq<char>,
    fields: Result<Seq<u8>, crate::error::ErrorView>,
)
    requires
        before.wf(),
    ensures
        fields is Ok ==> closed(
            closed(
                before.patched(ElementType::EmbeddedDocument)
                    + crate::variant_serializer::variant_head(inner, variant) + fields->Ok_0,
                before.bytes@.len() as int + 6 + encode_utf8(variant).len(),
            ),
            before.bytes@.len() as int,
        ) == before.patched(ElementType::EmbeddedDocument) + crate::model::document_bytes(
            crate::model::element_bytes(inner, variant, crate::model::document_bytes(fields->Ok_0)),
        ),
{
    if fields is Ok {
        assert(before.patched(ElementType::EmbeddedDocument).len() == before.bytes@.len());
        lemma_closed_is_variant(
            before.patched(ElementType::EmbeddedDocument),
            inner,
            variant,
            fields->Ok_0,
        );
    }
}

} // verus!
