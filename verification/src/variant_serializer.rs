//! The encoder of enum variants that carry fields, by position or by name. Such a
//! variant becomes a document with one element, keyed by the variant's name, which
//! holds the fields as an array or as a document.

use vstd::prelude::*;
use vstd::utf8::encode_utf8;
use crate::document_serializer::{closed, lemma_closed_is_document, lemma_closed_length};
use crate::element::ElementType;
use crate::error::{Error, ErrorView};
use crate::model::{document_bytes, element, element_bytes};
use crate::text::{decimal, decimal_string};
use crate::value::Value;
use crate::raw::Serializer;
use crate::wire::{
    begins_with, cstring_bytes, le_bytes32, lemma_begins_with_front, length_i32, read_i32,
    write_cstring, write_i32,
};

verus! {

/// Whether the fields of a variant go by position or by name.
#[derive(Clone, Copy, Debug, PartialEq, Eq, Structural)]
pub enum VariantInnerType {
    Tuple,
    Struct,
}

impl VariantInnerType {
    /// The element type of the inner body: an array for fields by position, a document
    /// for fields by name.
    pub open spec fn element_type(self) -> ElementType {
        match self {
            VariantInnerType::Tuple => ElementType::Array,
            VariantInnerType::Struct => ElementType::EmbeddedDocument,
        }
    }
}

/// The encoder of one enum variant with fields.
pub struct VariantSerializer<'a> {
    pub root_serializer: &'a mut Serializer,
    /// The index in the buffer at which the wrapping document begins.
    pub doc_start: usize,
    /// The index in the buffer at which the inner document or array begins.
    pub inner_start: usize,
    /// How many fields have been written into the inner body.
    pub num_elements_serialized: usize,
}

/// What opening a variant appends: the placeholder for the wrapper's length, the tag
/// of the inner body, the variant's name, and the placeholder for the inner length.
pub open spec fn variant_head(inner: ElementType, variant: Seq<char>) -> Seq<u8> {
    le_bytes32(0) + seq![inner.tag()] + cstring_bytes(encode_utf8(variant)) + le_bytes32(0)
}

/// Closing first the inner body and then the wrapper of a variant that was opened
/// behind `base` leaves `base` and behind it the wrapper document around the inner
/// document of the fields.
pub proof fn lemma_closed_is_variant(
    base: Seq<u8>,
    inner: ElementType,
    variant: Seq<char>,
    fields: Seq<u8>,
)
    ensures
        closed(
            closed(
                base + variant_head(inner, variant) + fields,
                base.len() as int + 6 + encode_utf8(variant).len(),
            ),
            base.len() as int,
        ) == base + document_bytes(element_bytes(inner, variant, document_bytes(fields))),
{
    let name = cstring_bytes(encode_utf8(variant));
    let front = base + le_bytes32(0) + seq![inner.tag()] + name;
    assert(base + variant_head(inner, variant) + fields =~= front + le_bytes32(0) + fields);
    lemma_closed_is_document(front, fields);
    let element = element_bytes(inner, variant, document_bytes(fields));
    assert(front + document_bytes(fields) =~= base + le_bytes32(0) + element);
    lemma_closed_is_document(base, element);
}

impl<'a> VariantSerializer<'a> {
    /// Both bodies lie within the buffer, the inner one behind the head of the
    /// wrapper, and every field took its room.
    pub open spec fn wf(&self) -> bool {
        &&& self.root_serializer.wf()
        &&& self.doc_start + 6 <= self.inner_start
        &&& self.inner_start + 4 + self.num_elements_serialized
            <= self.root_serializer.bytes@.len()
    }

    /// Opens the wrapping document and, in it, the inner body under the variant's
    /// name. A name with a zero byte is refused.
    pub fn start(rs: &'a mut Serializer, variant: &str, inner_type: VariantInnerType) -> (res:
        Result<VariantSerializer<'a>, Error>)
        requires
            old(rs).wf(),
        ensures
            encode_utf8(variant@).contains(0u8) ==> res is Err
                && res->Err_0@ == ErrorView::InvalidCString(variant@)
                && final(rs).wf()
                && final(rs).u2i == old(rs).u2i
                && final(rs).type_index == old(rs).type_index
                && final(rs).bytes@ == old(rs).bytes@ + le_bytes32(0) + seq![
                    inner_type.element_type().tag(),
                ],
            !encode_utf8(variant@).contains(0u8) ==> res is Ok
                && res->Ok_0.wf()
                && res->Ok_0.doc_start == old(rs).bytes@.len()
                && res->Ok_0.inner_start == old(rs).bytes@.len() + 6 + encode_utf8(variant@).len()
                && res->Ok_0.num_elements_serialized == 0
                && res->Ok_0.root_serializer.bytes@ == old(rs).bytes@ + variant_head(
                    inner_type.element_type(),
                    variant@,
                )
                && res->Ok_0.root_serializer.type_index == old(rs).type_index
                && res->Ok_0.root_serializer.u2i == old(rs).u2i
                && *final(rs) == *final(res->Ok_0.root_serializer),
    {
        let doc_start: usize = rs.bytes.len();
        write_i32(&mut rs.bytes, 0);
        let inner = match inner_type {
            VariantInnerType::Struct => ElementType::EmbeddedDocument,
            VariantInnerType::Tuple => ElementType::Array,
        };
        rs.bytes.push(inner.to_byte());
        write_cstring(&mut rs.bytes, variant)?;
        let inner_start: usize = rs.bytes.len();
        write_i32(&mut rs.bytes, 0);
        assert(rs.bytes@ =~= old(rs).bytes@ + variant_head(inner_type.element_type(), variant@));
        Ok(VariantSerializer { root_serializer: rs, num_elements_serialized: 0, doc_start, inner_start })
    }

    /// Writes one field into the inner body under the key `k`: the slot for the type,
    /// the key, and the value, which fills the slot.
    pub fn serialize_element(&mut self, k: &str, v: &Value) -> (res: Result<(), Error>)
        requires
            old(self).wf(),
        ensures
            final(self).root_serializer.wf(),
            final(self).doc_start == old(self).doc_start,
            final(self).inner_start == old(self).inner_start,
            final(self).root_serializer.u2i == old(self).root_serializer.u2i,
            *final(final(self).root_serializer) == *final(old(self).root_serializer),
            match element(k@, v@, old(self).root_serializer.u2i) {
                Err(e) => res is Err && res->Err_0@ == e && begins_with(
                    final(self).root_serializer.bytes@,
                    old(self).root_serializer.bytes@,
                ) && final(self).num_elements_serialized == old(self).num_elements_serialized,
                Ok(bytes) => res is Ok && final(self).wf() && final(self).root_serializer.bytes@
                    == old(self).root_serializer.bytes@ + bytes
                    && final(self).num_elements_serialized == old(self).num_elements_serialized
                    + 1 && (final(self).root_serializer.type_index matches Some(at) && at >= old(
                    self).root_serializer.bytes@.len()),
            },
        decreases v, 1nat,
    {
        let ghost before = self.root_serializer.bytes@;
        proof {
            lemma_begins_with_front(before, seq![0u8]);
            assert(before + seq![0u8] =~= before.push(0u8));
        }
        self.root_serializer.reserve_element_type();
        write_cstring(&mut self.root_serializer.bytes, k)?;
        let ghost keyed = *self.root_serializer;
        assert(keyed.bytes@ =~= before + seq![0u8] + cstring_bytes(encode_utf8(k@)));
        match v.serialize(self.root_serializer) {
            Ok(()) => {},
            Err(e) => {
                proof {
                    Serializer::lemma_kept_front(&keyed, self.root_serializer, before.len() as int);
                    assert(keyed.bytes@.subrange(0, before.len() as int) =~= before);
                }
                return Err(e);
            },
        }
        proof {
            let (t, p) = crate::model::encoding(v@, keyed.u2i, false)->Ok_0;
            assert(keyed.patched(t) + p =~= before + element_bytes(t, k@, p));
        }
        // every field took at least two bytes of the buffer, so the count stays below
        // the buffer's length
        let len: usize = self.root_serializer.bytes.len();
        assert(self.num_elements_serialized < len);
        self.num_elements_serialized += 1;
        Ok(())
    }

    /// Writes the next field of a variant whose fields go by position: the key is the
    /// position of the field, in decimal.
    pub fn serialize_tuple_field(&mut self, value: &Value) -> (res: Result<(), Error>)
        requires
            old(self).wf(),
        ensures
            final(self).root_serializer.wf(),
            final(self).doc_start == old(self).doc_start,
            final(self).inner_start == old(self).inner_start,
            final(self).root_serializer.u2i == old(self).root_serializer.u2i,
            *final(final(self).root_serializer) == *final(old(self).root_serializer),
            match element(
                decimal(old(self).num_elements_serialized as nat),
                value@,
                old(self).root_serializer.u2i,
            ) {
                Err(e) => res is Err && res->Err_0@ == e && begins_with(
                    final(self).root_serializer.bytes@,
                    old(self).root_serializer.bytes@,
                ) && final(self).num_elements_serialized == old(self).num_elements_serialized,
                Ok(bytes) => res is Ok && final(self).wf() && final(self).root_serializer.bytes@
                    == old(self).root_serializer.bytes@ + bytes
                    && final(self).num_elements_serialized == old(self).num_elements_serialized
                    + 1 && (final(self).root_serializer.type_index matches Some(at) && at >= old(
                    self).root_serializer.bytes@.len()),
            },
        decreases value, 2nat,
    {
        let key = decimal_string(self.num_elements_serialized);
        self.serialize_element(key.as_str(), value)
    }

    /// Writes the next field of a variant whose fields go by name.
    pub fn serialize_field(&mut self, key: &str, value: &Value) -> (res: Result<(), Error>)
        requires
            old(self).wf(),
        ensures
            final(self).root_serializer.wf(),
            final(self).doc_start == old(self).doc_start,
            final(self).inner_start == old(self).inner_start,
            final(self).root_serializer.u2i == old(self).root_serializer.u2i,
            *final(final(self).root_serializer) == *final(old(self).root_serializer),
            match element(key@, value@, old(self).root_serializer.u2i) {
                Err(e) => res is Err && res->Err_0@ == e && begins_with(
                    final(self).root_serializer.bytes@,
                    old(self).root_serializer.bytes@,
                ) && final(self).num_elements_serialized == old(self).num_elements_serialized,
                Ok(bytes) => res is Ok && final(self).wf() && final(self).root_serializer.bytes@
                    == old(self).root_serializer.bytes@ + bytes
                    && final(self).num_elements_serialized == old(self).num_elements_serialized
                    + 1 && (final(self).root_serializer.type_index matches Some(at) && at >= old(
                    self).root_serializer.bytes@.len()),
            },
        decreases value, 2nat,
    {
        self.serialize_element(key, value)
    }

    /// Closes the variant, as `end_both` does.
    pub fn end(self) -> (res: Result<(), Error>)
        requires
            self.wf(),
        ensures
            res is Ok,
            final(self.root_serializer).wf(),
            final(self.root_serializer).bytes@ == closed(
                closed(old(self.root_serializer).bytes@, self.inner_start as int),
                self.doc_start as int,
            ),
            final(self.root_serializer).type_index == old(self.root_serializer).type_index,
            final(self.root_serializer).u2i == old(self.root_serializer).u2i,
    {
        self.end_both()
    }

    /// Closes the inner body and then the wrapper: each gets its terminator, and its
    /// length is put where four bytes were reserved for it. Each length is the
    /// distance from the start of its body to the end of the buffer at the moment the
    /// body closes.
    pub fn end_both(self) -> (res: Result<(), Error>)
        requires
            self.wf(),
        ensures
            res is Ok,
            final(self.root_serializer).wf(),
            final(self.root_serializer).bytes@ == closed(
                closed(old(self.root_serializer).bytes@, self.inner_start as int),
                self.doc_start as int,
            ),
            final(self.root_serializer).bytes@.len() == old(self.root_serializer).bytes@.len() + 2,
            final(self.root_serializer).type_index == old(self.root_serializer).type_index,
            final(self.root_serializer).u2i == old(self.root_serializer).u2i,
            final(self.root_serializer).bytes@.len() - self.doc_start <= i32::MAX ==> read_i32(
                final(self.root_serializer).bytes@,
                self.inner_start as int,
            ) == final(self.root_serializer).bytes@.len() - 1 - self.inner_start && read_i32(
                final(self.root_serializer).bytes@,
                self.doc_start as int,
            ) == final(self.root_serializer).bytes@.len() - self.doc_start,
    {
        let ghost open = self.root_serializer.bytes@;
        // the terminator of the inner body
        self.root_serializer.bytes.push(0);
        let arr_length: i32 = length_i32(self.root_serializer.bytes.len() - self.inner_start);
        self.root_serializer.replace_i32(self.inner_start, arr_length);
        let ghost inner_closed = self.root_serializer.bytes@;
        assert(inner_closed =~= closed(open, self.inner_start as int));

        // the terminator of the document
        self.root_serializer.bytes.push(0);
        let doc_length: i32 = length_i32(self.root_serializer.bytes.len() - self.doc_start);
        self.root_serializer.replace_i32(self.doc_start, doc_length);
        proof {
            let done = self.root_serializer.bytes@;
            assert(done =~= closed(inner_closed, self.doc_start as int));
            if done.len() - self.doc_start <= i32::MAX {
                lemma_closed_length(open, self.inner_start as int);
                lemma_closed_length(inner_closed, self.doc_start as int);
                assert(forall|k: int|
                    self.inner_start <= k < self.inner_start + 4 ==> done[k] == inner_closed[k]);
            }
        }
        Ok(())
    }
}

} // verus!
