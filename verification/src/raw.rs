//! The root encoder: one entry point for each kind of value, the slot for the element
//! type that is filled in after the key, and the encoders for structs and for enum
//! variants with fields.

use vstd::prelude::*;
use vstd::utf8::encode_utf8;
use crate::element::ElementType;
use crate::error::{Error, ErrorView};
use crate::document_serializer::{keys_taken, lemma_closed_is_document, DocumentSerializer};
use crate::model::{document_bytes, element, encoding, scalar_field};
use crate::scalar::{marker_kind, ValueType};
use crate::value::{Value, ValueView};
use crate::value_serializer::ValueSerializer;
use crate::variant_serializer::{variant_head, VariantInnerType, VariantSerializer};
use crate::wire::{
    begins_with, binary_bytes, bool_byte, le_bytes32, le_bytes64, string_bytes, write_binary,
    write_i32, write_i64, write_string, write_u64,
};

verus! {

/// The encoder of values into BSON bytes.
pub struct Serializer {
    /// What has been written.
    pub bytes: Vec<u8>,
    /// The index in `bytes` of the slot that waits for the element type of the value
    /// that comes next, once one has been reserved. The wire format puts the type in
    /// front of the key, but the type is known only when the value arrives, after the
    /// key. `None` while no slot has been reserved, which is the case at the top level
    /// only.
    pub type_index: Option<usize>,
    /// Whether unsigned integers are converted to signed ones.
    pub u2i: bool,
}

impl Serializer {
    /// The slot, if there is one, lies within the buffer.
    pub open spec fn wf(&self) -> bool {
        match self.type_index {
            Some(at) => at < self.bytes@.len(),
            None => true,
        }
    }

    /// The buffer with the pending slot filled with the tag of `t`. At the top level no
    /// slot is pending and the buffer is as it is.
    pub open spec fn patched(&self, t: ElementType) -> Seq<u8> {
        match self.type_index {
            Some(at) => self.bytes@.update(at as int, t.tag()),
            None => self.bytes@,
        }
    }

    /// Whether a value of type `t` may come next: anything into a pending slot, only a
    /// document at the top level.
    pub open spec fn admits(&self, t: ElementType) -> bool {
        self.type_index is Some || t == ElementType::EmbeddedDocument
    }

    /// `self` is `before` after a value of type `t` with the given payload was written:
    /// the slot is filled, the payload appended, and nothing else has changed.
    pub open spec fn wrote(&self, before: &Serializer, t: ElementType, payload: Seq<u8>) -> bool {
        &&& self.bytes@ == before.patched(t) + payload
        &&& self.type_index == before.type_index
        &&& self.u2i == before.u2i
    }

    /// What holds of an entry point that writes a value of type `t` with the given
    /// payload, from `before` to `after` with the result `res`: where the type is
    /// admitted the value is written, and where it is not, the type is refused and
    /// nothing has changed.
    pub open spec fn entry(
        before: &Serializer,
        after: &Serializer,
        res: Result<(), Error>,
        t: ElementType,
        payload: Seq<u8>,
    ) -> bool {
        &&& after.wf()
        &&& before.admits(t) ==> res is Ok && after.wrote(before, t, payload)
        &&& !before.admits(t) ==> res is Err && res->Err_0@ == ErrorView::NonDocumentAtTopLevel(t)
            && *after == *before
    }

    /// What holds of an entry point that opens a document or an array of type `t`:
    /// where the type is admitted, the slot is filled and the body opened at the end
    /// of the buffer; where it is not, the type is refused and nothing has changed.
    pub open spec fn opened(
        before: &Serializer,
        after: &Serializer,
        res: Result<DocumentSerializer<'_>, Error>,
        t: ElementType,
    ) -> bool {
        &&& before.admits(t) ==> res is Ok && res->Ok_0.wf() && res->Ok_0.start
            == before.bytes@.len() && res->Ok_0.num_keys_serialized == 0
            && res->Ok_0.root_serializer.bytes@ == before.patched(t) + le_bytes32(0)
            && res->Ok_0.root_serializer.type_index == before.type_index
            && res->Ok_0.root_serializer.u2i == before.u2i
        &&& !before.admits(t) ==> res is Err && res->Err_0@ == ErrorView::NonDocumentAtTopLevel(t)
            && *after == *before
    }

    /// What holds of an entry point that opens the wrapper of an enum variant whose
    /// inner body has the type `inner`: the slot is filled as for a document, and the
    /// head of the variant is written at the end of the buffer. A name with a zero
    /// byte is refused.
    pub open spec fn opened_variant(
        before: &Serializer,
        after: &Serializer,
        res: Result<VariantSerializer<'_>, Error>,
        variant: Seq<char>,
        inner: ElementType,
    ) -> bool {
        &&& encode_utf8(variant).contains(0u8) ==> res is Err && res->Err_0@
            == ErrorView::InvalidCString(variant) && after.wf() && after.u2i == before.u2i
            && after.type_index == before.type_index && after.bytes@ == before.patched(
            ElementType::EmbeddedDocument,
        ) + le_bytes32(0) + seq![inner.tag()]
        &&& !encode_utf8(variant).contains(0u8) ==> res is Ok && res->Ok_0.wf()
            && res->Ok_0.doc_start == before.bytes@.len() && res->Ok_0.inner_start
            == before.bytes@.len() + 6 + encode_utf8(variant).len()
            && res->Ok_0.num_elements_serialized == 0 && res->Ok_0.root_serializer.bytes@
            == before.patched(ElementType::EmbeddedDocument) + variant_head(inner, variant)
            && res->Ok_0.root_serializer.type_index == before.type_index
            && res->Ok_0.root_serializer.u2i == before.u2i
    }

    /// The element type of a struct with the given name: that of the scalar which the
    /// name announces, or a document.
    pub open spec fn struct_type(name: Seq<char>) -> ElementType {
        match marker_kind(name) {
            Some(kind) => kind.element_type_spec(),
            None => ElementType::EmbeddedDocument,
        }
    }

    /// What holds of the entry point that begins a struct with the given name: where
    /// the element type of the struct is admitted, the slot is filled and the strategy
    /// chosen by the name; where it is not, the type is refused and nothing has
    /// changed.
    pub open spec fn opened_struct(
        before: &Serializer,
        after: &Serializer,
        res: Result<StructSerializer<'_>, Error>,
        name: Seq<char>,
    ) -> bool {
        let t = Serializer::struct_type(name);
        &&& !before.admits(t) ==> res is Err && res->Err_0@ == ErrorView::NonDocumentAtTopLevel(t)
            && *after == *before
        &&& before.admits(t) ==> res is Ok && res->Ok_0.wf() && res->Ok_0.root().type_index
            == before.type_index && res->Ok_0.root().u2i == before.u2i && match marker_kind(name) {
            Some(kind) => res->Ok_0 is Value && res->Ok_0->Value_0.value_type == kind
                && res->Ok_0->Value_0.fields_serialized == 0 && res->Ok_0->Value_0.start
                == before.bytes@.len() && res->Ok_0.root().bytes@ == before.patched(t),
            None => res->Ok_0 is Document && res->Ok_0->Document_0.start == before.bytes@.len()
                && res->Ok_0->Document_0.num_keys_serialized == 0 && res->Ok_0.root().bytes@
                == before.patched(t) + le_bytes32(0),
        }
    }

    /// The slot `now` is the slot `then`, or one that was reserved since, behind the
    /// `len` bytes that had been written then.
    pub open spec fn slot_from(then: Option<usize>, len: nat, now: Option<usize>) -> bool {
        now == then || (now matches Some(at) && len <= at)
    }

    /// The slot of `after` is that of `before`, or one that was reserved since, behind
    /// what `before` had written.
    pub open spec fn slot_kept_or_new(before: &Serializer, after: &Serializer) -> bool {
        Serializer::slot_from(before.type_index, before.bytes@.len(), after.type_index)
    }

    /// `bytes` with the byte at `slot` set to zero, if the slot lies in them.
    pub open spec fn blank(bytes: Seq<u8>, slot: Option<usize>) -> Seq<u8> {
        match slot {
            Some(at) => if at < bytes.len() {
                bytes.update(at as int, 0u8)
            } else {
                bytes
            },
            None => bytes,
        }
    }

    /// What `before` had written is still the beginning of what `after` holds, byte
    /// for byte, but for the slot that was pending, which may have been filled. This
    /// is what is left of the buffer when a value is refused half way: nothing is
    /// rolled back.
    pub open spec fn kept(before: &Serializer, after: &Serializer) -> bool {
        &&& before.bytes@.len() <= after.bytes@.len()
        &&& Serializer::blank(
            after.bytes@.subrange(0, before.bytes@.len() as int),
            before.type_index,
        ) == Serializer::blank(before.bytes@, before.type_index)
    }

    /// A buffer that begins with what was written before, with the slot filled or
    /// not, has kept it.
    pub proof fn lemma_kept(before: &Serializer, after: &Serializer, t: ElementType, more: Seq<u8>)
        requires
            before.wf(),
            begins_with(after.bytes@, before.patched(t) + more) || begins_with(
                after.bytes@,
                before.bytes@ + more,
            ),
        ensures
            Serializer::kept(before, after),
    {
        let n = before.bytes@.len() as int;
        let head = after.bytes@.subrange(0, n);
        if begins_with(after.bytes@, before.patched(t) + more) {
            let whole = before.patched(t) + more;
            assert(head =~= after.bytes@.subrange(0, whole.len() as int).subrange(0, n));
            assert(whole.subrange(0, n) =~= before.patched(t));
        } else {
            let whole = before.bytes@ + more;
            assert(head =~= after.bytes@.subrange(0, whole.len() as int).subrange(0, n));
            assert(whole.subrange(0, n) =~= before.bytes@);
        }
        assert(Serializer::blank(head, before.type_index) =~= Serializer::blank(
            before.bytes@,
            before.type_index,
        ));
    }

    /// A buffer that has not changed has kept what was written.
    pub proof fn lemma_kept_as_it_was(before: &Serializer)
        ensures
            Serializer::kept(before, before),
    {
        assert(before.bytes@.subrange(0, before.bytes@.len() as int) =~= before.bytes@);
    }

    /// Where what was written has been kept, everything in front of the pending slot
    /// is still the beginning of the buffer.
    pub proof fn lemma_kept_front(before: &Serializer, after: &Serializer, n: int)
        requires
            Serializer::kept(before, after),
            0 <= n <= before.bytes@.len(),
            before.type_index matches Some(at) ==> n <= at,
        ensures
            begins_with(after.bytes@, before.bytes@.subrange(0, n)),
    {
        let len = before.bytes@.len() as int;
        let a = Serializer::blank(after.bytes@.subrange(0, len), before.type_index);
        let b = Serializer::blank(before.bytes@, before.type_index);
        assert forall|i: int| 0 <= i < n implies after.bytes@[i] == before.bytes@[i] by {
            assert(a[i] == b[i]);
        }
        assert(after.bytes@.subrange(0, n) =~= before.bytes@.subrange(0, n));
    }

    /// What holds of an entry point that was to write a value of the given element
    /// type and payload, or to meet the given refusal, from `before` to `after` with
    /// the result `res`.
    pub open spec fn took_as(
        before: &Serializer,
        after: &Serializer,
        res: Result<(), Error>,
        outcome: Result<(ElementType, Seq<u8>), ErrorView>,
    ) -> bool {
        &&& after.wf()
        &&& after.u2i == before.u2i
        &&& match outcome {
            Err(e) => res is Err && res->Err_0@ == e && Serializer::kept(before, after),
            Ok((t, p)) => res is Ok && after.bytes@ == before.patched(t) + p
                && Serializer::slot_kept_or_new(before, after),
        }
    }

    /// What holds of an entry point that takes a whole value, from `before` to `after`
    /// with the result `res`: the value is written as the model says, or refused with
    /// the first refusal that the model gives.
    pub open spec fn took(
        before: &Serializer,
        after: &Serializer,
        res: Result<(), Error>,
        v: ValueView,
    ) -> bool {
        Serializer::took_as(before, after, res, encoding(v, before.u2i, before.type_index is None))
    }

    /// What holds of an entry point that refuses an unsigned integer: nothing has
    /// changed.
    pub open spec fn refusal(
        before: &Serializer,
        after: &Serializer,
        res: Result<(), Error>,
        e: ErrorView,
    ) -> bool {
        res is Err && res->Err_0@ == e && *after == *before
    }

    /// An encoder with an empty buffer that refuses unsigned integers.
    pub fn new() -> (s: Serializer)
        ensures
            s.bytes@ == Seq::<u8>::empty(),
            s.type_index is None,
            !s.u2i,
            s.wf(),
    {
        Serializer { bytes: Vec::new(), type_index: None, u2i: false }
    }

    /// An encoder with an empty buffer that converts unsigned integers to signed ones
    /// if `u2i` is set, and refuses them if not.
    pub fn with_unsigned_conversion(u2i: bool) -> (s: Serializer)
        ensures
            s.bytes@ == Seq::<u8>::empty(),
            s.type_index is None,
            s.u2i == u2i,
            s.wf(),
    {
        Serializer { bytes: Vec::new(), type_index: None, u2i }
    }

    /// Gives up the encoder for the bytes it has written.
    pub fn into_vec(self) -> (bytes: Vec<u8>)
        ensures
            bytes@ == self.bytes@,
    {
        self.bytes
    }

    /// Reserves a slot for an element type at the end of the buffer, to be filled by
    /// `update_element_type` once the value that follows the key is known. The slot
    /// holds zero until then.
    pub fn reserve_element_type(&mut self)
        ensures
            final(self).type_index matches Some(at) && at == old(self).bytes@.len(),
            final(self).bytes@ == old(self).bytes@.push(0u8),
            final(self).u2i == old(self).u2i,
            final(self).wf(),
    {
        self.type_index = Some(self.bytes.len());
        self.bytes.push(0);
    }

    /// Fills the pending slot with the tag of `t`, wherever in the buffer the slot
    /// lies. Where no slot is pending, at the top level, a document passes without a
    /// byte being written, and any other type is refused.
    pub fn update_element_type(&mut self, t: ElementType) -> (res: Result<(), Error>)
        requires
            old(self).wf(),
        ensures
            final(self).wf(),
            old(self).admits(t) ==> res is Ok && final(self).wrote(old(self), t, Seq::empty()),
            !old(self).admits(t) ==> res is Err && res->Err_0@ == ErrorView::NonDocumentAtTopLevel(t)
                && *final(self) == *old(self),
    {
        match self.type_index {
            Some(at) => {
                self.bytes[at] = t.to_byte();
                assert(self.bytes@ =~= old(self).patched(t) + Seq::<u8>::empty());
                Ok(())
            },
            None => {
                if t == ElementType::EmbeddedDocument {
                    Ok(())
                } else {
                    Err(Error::NonDocumentAtTopLevel(t))
                }
            },
        }
    }

    /// Overwrites the four bytes from `at` on with `with` in little-endian order. The
    /// length of the buffer stays.
    pub fn replace_i32(&mut self, at: usize, with: i32)
        requires
            at + 4 <= old(self).bytes@.len(),
        ensures
            final(self).bytes@ == old(self).bytes@.subrange(0, at as int) + le_bytes32(with as int)
                + old(self).bytes@.subrange(at + 4, old(self).bytes@.len() as int),
            final(self).bytes@.len() == old(self).bytes@.len(),
            final(self).type_index == old(self).type_index,
            final(self).u2i == old(self).u2i,
    {
        let len: usize = self.bytes.len();
        let mut le: Vec<u8> = Vec::new();
        write_i32(&mut le, with);
        assert(le@ =~= le_bytes32(with as int));
        self.bytes[at] = le[0];
        self.bytes[at + 1] = le[1];
        self.bytes[at + 2] = le[2];
        self.bytes[at + 3] = le[3];
        assert(self.bytes@ =~= old(self).bytes@.subrange(0, at as int) + le_bytes32(with as int)
            + old(self).bytes@.subrange(at + 4, len as int));
    }

    /// Writes a boolean: one byte, 1 for true and 0 for false.
    pub fn serialize_bool(&mut self, v: bool) -> (res: Result<(), Error>)
        requires
            old(self).wf(),
        ensures
            Serializer::entry(
                old(self),
                final(self),
                res,
                ElementType::Boolean,
                seq![bool_byte(v)],
            ),
    {
        self.update_element_type(ElementType::Boolean)?;
        self.bytes.push(if v { 1 } else { 0 });
        assert(self.bytes@ =~= old(self).patched(ElementType::Boolean) + seq![bool_byte(v)]);
        Ok(())
    }

    /// Writes a signed 8-bit integer, widened to 32 bits.
    pub fn serialize_i8(&mut self, v: i8) -> (res: Result<(), Error>)
        requires
            old(self).wf(),
        ensures
            Serializer::entry(old(self), final(self), res, ElementType::Int32, le_bytes32(v as int)),
    {
        self.serialize_i32(v as i32)
    }

    /// Writes a signed 16-bit integer, widened to 32 bits.
    pub fn serialize_i16(&mut self, v: i16) -> (res: Result<(), Error>)
        requires
            old(self).wf(),
        ensures
            Serializer::entry(old(self), final(self), res, ElementType::Int32, le_bytes32(v as int)),
    {
        self.serialize_i32(v as i32)
    }

    /// Writes a signed 32-bit integer.
    pub fn serialize_i32(&mut self, v: i32) -> (res: Result<(), Error>)
        requires
            old(self).wf(),
        ensures
            Serializer::entry(old(self), final(self), res, ElementType::Int32, le_bytes32(v as int)),
    {
        self.update_element_type(ElementType::Int32)?;
        write_i32(&mut self.bytes, v);
        Ok(())
    }

    /// Writes a signed 64-bit integer.
    pub fn serialize_i64(&mut self, v: i64) -> (res: Result<(), Error>)
        requires
            old(self).wf(),
        ensures
            Serializer::entry(old(self), final(self), res, ElementType::Int64, le_bytes64(v as int)),
    {
        self.update_element_type(ElementType::Int64)?;
        write_i64(&mut self.bytes, v);
        Ok(())
    }

    /// Writes an unsigned 8-bit integer as a signed 32-bit one, or refuses it where
    /// unsigned integers are not converted.
    pub fn serialize_u8(&mut self, v: u8) -> (res: Result<(), Error>)
        requires
            old(self).wf(),
        ensures
            final(self).wf(),
            old(self).u2i ==> Serializer::entry(
                old(self),
                final(self),
                res,
                ElementType::Int32,
                le_bytes32(v as int),
            ),
            !old(self).u2i ==> Serializer::refusal(
                old(self),
                final(self),
                res,
                ErrorView::UnsupportedUnsignedInteger(v as u64),
            ),
    {
        if self.u2i {
            self.serialize_i32(v as i32)
        } else {
            Err(Error::UnsupportedUnsignedInteger(v as u64))
        }
    }

    /// Writes an unsigned 16-bit integer as a signed 32-bit one, or refuses it where
    /// unsigned integers are not converted.
    pub fn serialize_u16(&mut self, v: u16) -> (res: Result<(), Error>)
        requires
            old(self).wf(),
        ensures
            final(self).wf(),
            old(self).u2i ==> Serializer::entry(
                old(self),
                final(self),
                res,
                ElementType::Int32,
                le_bytes32(v as int),
            ),
            !old(self).u2i ==> Serializer::refusal(
                old(self),
                final(self),
                res,
                ErrorView::UnsupportedUnsignedInteger(v as u64),
            ),
    {
        if self.u2i {
            self.serialize_i32(v as i32)
        } else {
            Err(Error::UnsupportedUnsignedInteger(v as u64))
        }
    }

    /// Writes an unsigned 32-bit integer as a signed 64-bit one, or refuses it where
    /// unsigned integers are not converted.
    pub fn serialize_u32(&mut self, v: u32) -> (res: Result<(), Error>)
        requires
            old(self).wf(),
        ensures
            final(self).wf(),
            old(self).u2i ==> Serializer::entry(
                old(self),
                final(self),
                res,
                ElementType::Int64,
                le_bytes64(v as int),
            ),
            !old(self).u2i ==> Serializer::refusal(
                old(self),
                final(self),
                res,
                ErrorView::UnsupportedUnsignedInteger(v as u64),
            ),
    {
        if self.u2i {
            self.serialize_i64(v as i64)
        } else {
            Err(Error::UnsupportedUnsignedInteger(v as u64))
        }
    }

    /// Writes an unsigned 64-bit integer as a signed one if it fits the signed range.
    /// Refuses it where unsigned integers are not converted, and where it does not
    /// fit: nothing is cut off or wrapped.
    pub fn serialize_u64(&mut self, v: u64) -> (res: Result<(), Error>)
        requires
            old(self).wf(),
        ensures
            final(self).wf(),
            old(self).u2i && v <= i64::MAX ==> Serializer::entry(
                old(self),
                final(self),
                res,
                ElementType::Int64,
                le_bytes64(v as int),
            ),
            old(self).u2i && v > i64::MAX ==> Serializer::refusal(
                old(self),
                final(self),
                res,
                ErrorView::UnsignedIntegerExceededRange(v),
            ),
            !old(self).u2i ==> Serializer::refusal(
                old(self),
                final(self),
                res,
                ErrorView::UnsupportedUnsignedInteger(v),
            ),
    {
        if self.u2i {
            if v <= 0x7fff_ffff_ffff_ffff {
                self.serialize_i64(v as i64)
            } else {
                Err(Error::UnsignedIntegerExceededRange(v))
            }
        } else {
            Err(Error::UnsupportedUnsignedInteger(v))
        }
    }

    /// Writes a double, given as its IEEE 754 bit pattern.
    pub fn serialize_f64(&mut self, bits: u64) -> (res: Result<(), Error>)
        requires
            old(self).wf(),
        ensures
            Serializer::entry(
                old(self),
                final(self),
                res,
                ElementType::Double,
                le_bytes64(bits as int),
            ),
    {
        self.update_element_type(ElementType::Double)?;
        write_u64(&mut self.bytes, bits);
        Ok(())
    }

    /// Writes a character as a string of that one character.
    pub fn serialize_char(&mut self, v: char) -> (res: Result<(), Error>)
        requires
            old(self).wf(),
        ensures
            Serializer::entry(
                old(self),
                final(self),
                res,
                ElementType::String,
                string_bytes(encode_utf8(seq![v])),
            ),
    {
        let mut s = String::new();
        s.push(v);
        assert(s@ =~= seq![v]);
        self.serialize_str(s.as_str())
    }

    /// Writes a string.
    pub fn serialize_str(&mut self, v: &str) -> (res: Result<(), Error>)
        requires
            old(self).wf(),
        ensures
            Serializer::entry(
                old(self),
                final(self),
                res,
                ElementType::String,
                string_bytes(encode_utf8(v@)),
            ),
    {
        self.update_element_type(ElementType::String)?;
        write_string(&mut self.bytes, v);
        Ok(())
    }

    /// Writes a byte string as a binary value of the generic subtype.
    pub fn serialize_bytes(&mut self, v: &[u8]) -> (res: Result<(), Error>)
        requires
            old(self).wf(),
        ensures
            Serializer::entry(
                old(self),
                final(self),
                res,
                ElementType::Binary,
                binary_bytes(v@, 0u8),
            ),
    {
        self.update_element_type(ElementType::Binary)?;
        write_binary(&mut self.bytes, v, 0);
        Ok(())
    }

    /// Writes an optional value that is absent: a null, which has no payload.
    pub fn serialize_none(&mut self) -> (res: Result<(), Error>)
        requires
            old(self).wf(),
        ensures
            Serializer::entry(old(self), final(self), res, ElementType::Null, Seq::empty()),
    {
        self.update_element_type(ElementType::Null)?;
        Ok(())
    }

    /// Writes the unit value: a null.
    pub fn serialize_unit(&mut self) -> (res: Result<(), Error>)
        requires
            old(self).wf(),
        ensures
            Serializer::entry(old(self), final(self), res, ElementType::Null, Seq::empty()),
    {
        self.serialize_none()
    }

    /// Writes a struct without fields: a null, whatever its name.
    pub fn serialize_unit_struct(&mut self, _name: &str) -> (res: Result<(), Error>)
        requires
            old(self).wf(),
        ensures
            Serializer::entry(old(self), final(self), res, ElementType::Null, Seq::empty()),
    {
        self.serialize_unit()
    }

    /// Writes an enum variant without fields: its name as a string.
    pub fn serialize_unit_variant(
        &mut self,
        _name: &str,
        _variant_index: u32,
        variant: &str,
    ) -> (res: Result<(), Error>)
        requires
            old(self).wf(),
        ensures
            Serializer::entry(
                old(self),
                final(self),
                res,
                ElementType::String,
                string_bytes(encode_utf8(variant@)),
            ),
    {
        self.serialize_str(variant)
    }

    /// Writes an optional value that is present: the value itself.
    pub fn serialize_some(&mut self, value: &Value) -> (res: Result<(), Error>)
        requires
            old(self).wf(),
        ensures
            Serializer::took(old(self), final(self), res, value@),
        decreases value, 1nat,
    {
        value.serialize(self)
    }

    /// Writes a struct that wraps one value: the value itself, whatever the name.
    pub fn serialize_newtype_struct(&mut self, _name: &str, value: &Value) -> (res: Result<
        (),
        Error,
    >)
        requires
            old(self).wf(),
        ensures
            Serializer::took(old(self), final(self), res, value@),
        decreases value, 1nat,
    {
        value.serialize(self)
    }

    /// Writes an enum variant that holds one value: a document with exactly one
    /// element, keyed by the variant's name, which holds the value.
    pub fn serialize_newtype_variant(
        &mut self,
        _name: &str,
        _variant_index: u32,
        variant: &str,
        value: &Value,
    ) -> (res: Result<(), Error>)
        requires
            old(self).wf(),
        ensures
            final(self).wf(),
            final(self).u2i == old(self).u2i,
            match element(variant@, value@, old(self).u2i) {
                Err(e) => res is Err && res->Err_0@ == e && Serializer::kept(old(self), final(self)),
                Ok(bytes) => res is Ok && final(self).bytes@ == old(self).patched(
                    ElementType::EmbeddedDocument,
                ) + document_bytes(bytes) && (final(self).type_index matches Some(at) && at >= old(
                    self).bytes@.len()),
            },
        decreases value, 2nat,
    {
        self.update_element_type(ElementType::EmbeddedDocument)?;
        let ghost base = self.bytes@;
        let mut d = DocumentSerializer::start(&mut *self)?;
        match d.serialize_entry(variant, value) {
            Ok(()) => {},
            Err(e) => {
                proof {
                    Serializer::lemma_kept(
                        old(self),
                        self,
                        ElementType::EmbeddedDocument,
                        le_bytes32(0),
                    );
                }
                return Err(e);
            },
        }
        d.end_doc()?;
        proof {
            lemma_closed_is_document(base, element(variant@, value@, self.u2i)->Ok_0);
        }
        Ok(())
    }

    /// Opens an array for a sequence.
    pub fn serialize_seq(&mut self, _len: Option<usize>) -> (res: Result<
        DocumentSerializer<'_>,
        Error,
    >)
        requires
            old(self).wf(),
        ensures
            Serializer::opened(old(self), final(self), res, ElementType::Array),
            res is Ok ==> *final(self) == *final(res->Ok_0.root_serializer),
    {
        self.update_element_type(ElementType::Array)?;
        DocumentSerializer::start(&mut *self)
    }

    /// Opens an array for a tuple.
    pub fn serialize_tuple(&mut self, len: usize) -> (res: Result<DocumentSerializer<'_>, Error>)
        requires
            old(self).wf(),
        ensures
            Serializer::opened(old(self), final(self), res, ElementType::Array),
            res is Ok ==> *final(self) == *final(res->Ok_0.root_serializer),
    {
        self.serialize_seq(Some(len))
    }

    /// Opens an array for a struct whose fields go by position.
    pub fn serialize_tuple_struct(&mut self, _name: &str, len: usize) -> (res: Result<
        DocumentSerializer<'_>,
        Error,
    >)
        requires
            old(self).wf(),
        ensures
            Serializer::opened(old(self), final(self), res, ElementType::Array),
            res is Ok ==> *final(self) == *final(res->Ok_0.root_serializer),
    {
        self.serialize_seq(Some(len))
    }

    /// Opens a document for a map.
    pub fn serialize_map(&mut self, _len: Option<usize>) -> (res: Result<
        DocumentSerializer<'_>,
        Error,
    >)
        requires
            old(self).wf(),
        ensures
            Serializer::opened(old(self), final(self), res, ElementType::EmbeddedDocument),
            res is Ok ==> *final(self) == *final(res->Ok_0.root_serializer),
    {
        self.update_element_type(ElementType::EmbeddedDocument)?;
        DocumentSerializer::start(&mut *self)
    }

    /// Opens the wrapper of an enum variant whose fields go by position.
    pub fn serialize_tuple_variant(
        &mut self,
        _name: &str,
        _variant_index: u32,
        variant: &str,
        _len: usize,
    ) -> (res: Result<VariantSerializer<'_>, Error>)
        requires
            old(self).wf(),
        ensures
            Serializer::opened_variant(old(self), final(self), res, variant@, ElementType::Array),
            res is Ok ==> *final(self) == *final(res->Ok_0.root_serializer),
    {
        self.update_element_type(ElementType::EmbeddedDocument)?;
        VariantSerializer::start(&mut *self, variant, VariantInnerType::Tuple)
    }

    /// Opens the wrapper of an enum variant whose fields go by name.
    pub fn serialize_struct_variant(
        &mut self,
        _name: &str,
        _variant_index: u32,
        variant: &str,
        _len: usize,
    ) -> (res: Result<VariantSerializer<'_>, Error>)
        requires
            old(self).wf(),
        ensures
            Serializer::opened_variant(
                old(self),
                final(self),
                res,
                variant@,
                ElementType::EmbeddedDocument,
            ),
            res is Ok ==> *final(self) == *final(res->Ok_0.root_serializer),
    {
        self.update_element_type(ElementType::EmbeddedDocument)?;
        VariantSerializer::start(&mut *self, variant, VariantInnerType::Struct)
    }

    /// Begins a struct. Under one of the reserved names the struct stands for a
    /// scalar: it gets the element type of that scalar, and its fields go to the
    /// encoder of scalars. Under any other name it is a document of its fields.
    pub fn serialize_struct(&mut self, name: &str, _len: usize) -> (res: Result<
        StructSerializer<'_>,
        Error,
    >)
        requires
            old(self).wf(),
        ensures
            Serializer::opened_struct(old(self), final(self), res, name@),
            res is Ok && res->Ok_0 is Value ==> *final(self) == *final(
                res->Ok_0->Value_0.root_serializer),
            res is Ok && res->Ok_0 is Document ==> *final(self) == *final(
                res->Ok_0->Document_0.root_serializer),
    {
        let value_type = ValueType::from_marker(name);
        let t = match value_type {
            Some(kind) => kind.element_type(),
            None => ElementType::EmbeddedDocument,
        };
        self.update_element_type(t)?;
        match value_type {
            Some(kind) => Ok(StructSerializer::Value(ValueSerializer::new(self, kind))),
            None => Ok(StructSerializer::Document(DocumentSerializer::start(self)?)),
        }
    }
}

/// The encoder of a struct: one of two strategies, chosen once when the struct begins.
pub enum StructSerializer<'a> {
    /// The struct stands for a scalar.
    Value(ValueSerializer<'a>),
    /// The struct is a document of its fields.
    Document(DocumentSerializer<'a>),
}

impl<'a> StructSerializer<'a> {
    /// The chosen encoder is well formed.
    pub open spec fn wf(&self) -> bool {
        match self {
            StructSerializer::Value(v) => v.wf(),
            StructSerializer::Document(d) => d.wf(),
        }
    }

    /// The root encoder as it stands.
    pub open spec fn root(&self) -> Serializer {
        match self {
            StructSerializer::Value(v) => *v.root_serializer,
            StructSerializer::Document(d) => *d.root_serializer,
        }
    }

    /// What a field adds: to a document an element, to a scalar what the kind makes
    /// of the field at this place.
    pub open spec fn field(&self, key: Seq<char>, v: ValueView) -> Result<Seq<u8>, ErrorView> {
        match self {
            StructSerializer::Value(s) => scalar_field(
                s.value_type,
                s.fields_serialized as nat,
                key,
                v,
                s.root_serializer.u2i,
            ),
            StructSerializer::Document(d) => element(key, v, d.root_serializer.u2i),
        }
    }

    /// `self` is `before` after the field under `key` was refused: the same strategy at
    /// the same place in the buffer, and the count of what was taken as the chosen
    /// encoder leaves it. A scalar has taken nothing; a document has taken the key,
    /// unless it was the key that was refused.
    pub open spec fn held(&self, before: &StructSerializer<'a>, key: Seq<char>) -> bool {
        match (*before, *self) {
            (StructSerializer::Value(b), StructSerializer::Value(a)) => a.start == b.start
                && a.value_type == b.value_type && a.fields_serialized == b.fields_serialized,
            (StructSerializer::Document(b), StructSerializer::Document(a)) => a.start == b.start
                && a.num_keys_serialized == b.num_keys_serialized + keys_taken(key),
            _ => false,
        }
    }

    /// `self` is `before` one field later: the same strategy at the same place in the
    /// buffer, with one field more.
    pub open spec fn follows(&self, before: &StructSerializer<'a>) -> bool {
        match (*before, *self) {
            (StructSerializer::Value(b), StructSerializer::Value(a)) => a.start == b.start
                && a.value_type == b.value_type && a.fields_serialized == b.fields_serialized + 1,
            (StructSerializer::Document(b), StructSerializer::Document(a)) => a.start == b.start
                && a.num_keys_serialized == b.num_keys_serialized + 1,
            _ => false,
        }
    }

    /// Hands a field to the chosen encoder.
    pub fn serialize_field(&mut self, key: &str, value: &Value) -> (res: Result<(), Error>)
        requires
            old(self).wf(),
        ensures
            final(self).root().wf(),
            final(self).root().u2i == old(self).root().u2i,
            (*old(self)) is Value ==> (*final(self)) is Value && *final(
                (*final(self))->Value_0.root_serializer) == *final(
                (*old(self))->Value_0.root_serializer),
            (*old(self)) is Document ==> (*final(self)) is Document && *final(
                (*final(self))->Document_0.root_serializer) == *final(
                (*old(self))->Document_0.root_serializer),
            match old(self).field(key@, value@) {
                Err(e) => res is Err && res->Err_0@ == e && final(self).held(old(self), key@)
                    && begins_with(final(self).root().bytes@, old(self).root().bytes@),
                Ok(bytes) => res is Ok && final(self).wf() && final(self).follows(old(self))
                    && final(self).root().bytes@ == old(self).root().bytes@ + bytes
                    && Serializer::slot_kept_or_new(&old(self).root(), &final(self).root()),
            },
        decreases value, 2nat,
    {
        match self {
            StructSerializer::Value(v) => v.serialize_field(key, value),
            StructSerializer::Document(d) => d.serialize_entry(key, value),
        }
    }

    /// Closes the chosen encoder.
    pub fn end(self) -> (res: Result<(), Error>)
        requires
            self.wf(),
        ensures
            self is Document ==> ({
                let after = *final(self->Document_0.root_serializer);
                &&& res is Ok
                &&& after.wf()
                &&& after.u2i == self.root().u2i
                &&& after.type_index == self.root().type_index
                &&& after.bytes@ == crate::document_serializer::closed(
                    self.root().bytes@,
                    self->Document_0.start as int,
                )
            }),
            self is Value ==> ({
                let after = *final(self->Value_0.root_serializer);
                &&& after.wf()
                &&& after.u2i == self.root().u2i
                &&& match crate::model::scalar_closed(
                    self->Value_0.value_type,
                    self->Value_0.fields_serialized as nat,
                    self->Value_0.written(),
                ) {
                    Err(e) => res is Err && res->Err_0@ == e && after == self.root(),
                    Ok(payload) => res is Ok && after.type_index == self.root().type_index
                        && after.bytes@ == self.root().bytes@.take(self->Value_0.start as int)
                        + payload,
                }
            }),
    {
        match self {
            StructSerializer::Document(d) => d.end_doc(),
            StructSerializer::Value(v) => v.end(),
        }
    }
}

} // verus!
