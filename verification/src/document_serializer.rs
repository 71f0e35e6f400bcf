//! The encoder of the body of a document or an array.

use vstd::prelude::*;
use vstd::utf8::encode_utf8;
use crate::error::{Error, ErrorView};
use crate::model::{document_bytes, element};
use crate::text::{decimal, decimal_string};
use crate::value::Value;
use crate::raw::Serializer;
use crate::wire::{
    begins_with, cstring_bytes, le_bytes32, lemma_begins_with_chain, lemma_begins_with_front,
    length_i32, read_i32, write_cstring, write_i32,
};

verus! {

/// The encoder of one document or array. It is made when the body opens and writes
/// into the root encoder's buffer.
pub struct DocumentSerializer<'a> {
    pub root_serializer: &'a mut Serializer,
    /// How many keys have been written.
    pub num_keys_serialized: usize,
    /// The index in the buffer at which this document begins, which is where its length
    /// stands.
    pub start: usize,
}

/// How many keys the attempt to write `key` adds to the count: one, or none where
/// the key itself is refused.
pub open spec fn keys_taken(key: Seq<char>) -> int {
    if encode_utf8(key).contains(0u8) {
        0
    } else {
        1
    }
}

/// A buffer that ends in an open body, closed: the terminator appended and the four
/// bytes at the start of the body replaced by the length of the whole.
pub open spec fn closed(open: Seq<u8>, start: int) -> Seq<u8> {
    open.subrange(0, start) + le_bytes32(open.len() + 1 - start) + open.subrange(
        start + 4,
        open.len() as int,
    ) + seq![0u8]
}

/// Closing a body that was opened behind `base` and has the given elements leaves
/// `base` and behind it the document of those elements.
pub proof fn lemma_closed_is_document(base: Seq<u8>, elements: Seq<u8>)
    ensures
        closed(base + le_bytes32(0) + elements, base.len() as int) == base + document_bytes(
            elements,
        ),
{
    let open = base + le_bytes32(0) + elements;
    assert(open.subrange(0, base.len() as int) =~= base);
    assert(open.subrange(base.len() as int + 4, open.len() as int) =~= elements);
    assert(closed(open, base.len() as int) =~= base + document_bytes(elements));
}

/// In a closed body the length that was patched in reads back as the distance from the
/// start of the body to the end of the buffer, as long as that fits 32 bits.
pub proof fn lemma_closed_length(open: Seq<u8>, start: int)
    requires
        0 <= start,
        start + 4 <= open.len(),
        open.len() + 1 - start <= i32::MAX,
    ensures
        closed(open, start).len() == open.len() + 1,
        read_i32(closed(open, start), start) == closed(open, start).len() - start,
{
    let done = closed(open, start);
    let len = le_bytes32(open.len() + 1 - start);
    assert(done[start] == len[0]);
    assert(done[start + 1] == len[1]);
    assert(done[start + 2] == len[2]);
    assert(done[start + 3] == len[3]);
}

impl<'a> DocumentSerializer<'a> {
    /// The body lies within the buffer, behind its own length, and every key took its
    /// room.
    pub open spec fn wf(&self) -> bool {
        &&& self.root_serializer.wf()
        &&& self.start + 4 + self.num_keys_serialized <= self.root_serializer.bytes@.len()
    }

    /// Opens a body at the end of the buffer: four bytes are reserved for its length.
    pub fn start(rs: &'a mut Serializer) -> (res: Result<DocumentSerializer<'a>, Error>)
        requires
            old(rs).wf(),
        ensures
            res is Ok,
            res->Ok_0.wf(),
            res->Ok_0.start == old(rs).bytes@.len(),
            res->Ok_0.num_keys_serialized == 0,
            res->Ok_0.root_serializer.bytes@ == old(rs).bytes@ + le_bytes32(0),
            res->Ok_0.root_serializer.type_index == old(rs).type_index,
            res->Ok_0.root_serializer.u2i == old(rs).u2i,
            *final(rs) == *final(res->Ok_0.root_serializer),
    {
        let start: usize = rs.bytes.len();
        write_i32(&mut rs.bytes, 0);
        Ok(DocumentSerializer { root_serializer: rs, num_keys_serialized: 0, start })
    }

    /// Starts an element: reserves the slot for its type and writes its key. A key
    /// with a zero byte is refused.
    pub fn serialize_doc_key(&mut self, key: &str) -> (res: Result<(), Error>)
        requires
            old(self).wf(),
        ensures
            final(self).wf(),
            final(self).start == old(self).start,
            final(self).root_serializer.u2i == old(self).root_serializer.u2i,
            *final(final(self).root_serializer) == *final(old(self).root_serializer),
            encode_utf8(key@).contains(0u8) ==> res is Err && res->Err_0@
                == ErrorView::InvalidCString(key@)
                && final(self).root_serializer.bytes@ == old(self).root_serializer.bytes@.push(0u8)
                && final(self).num_keys_serialized == old(self).num_keys_serialized,
            !encode_utf8(key@).contains(0u8) ==> res is Ok
                && final(self).root_serializer.bytes@ == old(self).root_serializer.bytes@ + seq![0u8]
                + cstring_bytes(encode_utf8(key@))
                && (final(self).root_serializer.type_index matches Some(at) && at == old(
                self).root_serializer.bytes@.len())
                && final(self).num_keys_serialized == old(self).num_keys_serialized + 1,
    {
        let ghost before = self.root_serializer.bytes@;
        self.root_serializer.reserve_element_type();
        write_cstring(&mut self.root_serializer.bytes, key)?;
        // every key took at least two bytes of the buffer, so the count stays below
        // the buffer's length
        let len: usize = self.root_serializer.bytes.len();
        assert(self.num_keys_serialized < len);
        self.num_keys_serialized += 1;
        assert(self.root_serializer.bytes@ =~= before + seq![0u8] + cstring_bytes(encode_utf8(key@)));
        Ok(())
    }

    /// Writes one element under the given key: the slot for the type, the key, and the
    /// value, which fills the slot.
    pub fn serialize_entry(&mut self, key: &str, value: &Value) -> (res: Result<(), Error>)
        requires
            old(self).wf(),
        ensures
            final(self).root_serializer.wf(),
            final(self).start == old(self).start,
            final(self).root_serializer.u2i == old(self).root_serializer.u2i,
            *final(final(self).root_serializer) == *final(old(self).root_serializer),
            match element(key@, value@, old(self).root_serializer.u2i) {
                Err(e) => res is Err && res->Err_0@ == e && begins_with(
                    final(self).root_serializer.bytes@,
                    old(self).root_serializer.bytes@,
                ) && final(self).num_keys_serialized == old(self).num_keys_serialized + keys_taken(
                    key@,
                ),
                Ok(bytes) => res is Ok && final(self).wf() && final(self).root_serializer.bytes@
                    == old(self).root_serializer.bytes@ + bytes
                    && final(self).num_keys_serialized == old(self).num_keys_serialized + 1
                    && (final(self).root_serializer.type_index matches Some(at) && at >= old(
                    self).root_serializer.bytes@.len()),
            },
        decreases value, 1nat,
    {
        let ghost before = self.root_serializer.bytes@;
        proof {
            lemma_begins_with_front(before, seq![0u8]);
            assert(before + seq![0u8] =~= before.push(0u8));
        }
        self.serialize_doc_key(key)?;
        let ghost keyed = *self.root_serializer;
        match value.serialize(self.root_serializer) {
            Ok(()) => {},
            Err(e) => {
                proof {
                    Serializer::lemma_kept_front(&keyed, self.root_serializer, before.len() as int);
                    assert(keyed.bytes@.subrange(0, before.len() as int) =~= before);
                }
                return Err(e);
            },
        }
        proof {
            let (t, p) = crate::model::encoding(value@, keyed.u2i, false)->Ok_0;
            assert(keyed.patched(t) + p =~= before + crate::model::element_bytes(t, key@, p));
        }
        Ok(())
    }

    /// Writes one element of an array: the key is the position of the element, in
    /// decimal.
    pub fn serialize_element(&mut self, value: &Value) -> (res: Result<(), Error>)
        requires
            old(self).wf(),
        ensures
            final(self).root_serializer.wf(),
            final(self).start == old(self).start,
            final(self).root_serializer.u2i == old(self).root_serializer.u2i,
            *final(final(self).root_serializer) == *final(old(self).root_serializer),
            match element(
                decimal(old(self).num_keys_serialized as nat),
                value@,
                old(self).root_serializer.u2i,
            ) {
                Err(e) => res is Err && res->Err_0@ == e && begins_with(
                    final(self).root_serializer.bytes@,
                    old(self).root_serializer.bytes@,
                ) && final(self).num_keys_serialized == old(self).num_keys_serialized + 1,
                Ok(bytes) => res is Ok && final(self).wf() && final(self).root_serializer.bytes@
                    == old(self).root_serializer.bytes@ + bytes
                    && final(self).num_keys_serialized == old(self).num_keys_serialized + 1
                    && (final(self).root_serializer.type_index matches Some(at) && at >= old(
                    self).root_serializer.bytes@.len()),
            },
        decreases value, 2nat,
    {
        proof {
            crate::text::lemma_decimal_is_plain(self.num_keys_serialized as nat);
        }
        let key = decimal_string(self.num_keys_serialized);
        self.serialize_entry(key.as_str(), value)
    }

    /// Closes the body: appends the terminator and puts the length of the whole, which
    /// is the distance from the start of the body to the end of the buffer, where four
    /// bytes were reserved for it.
    pub fn end_doc(self) -> (res: Result<(), Error>)
        requires
            self.wf(),
        ensures
            res is Ok,
            final(self.root_serializer).wf(),
            final(self.root_serializer).bytes@ == closed(
                old(self.root_serializer).bytes@,
                self.start as int,
            ),
            final(self.root_serializer).type_index == old(self.root_serializer).type_index,
            final(self.root_serializer).u2i == old(self.root_serializer).u2i,
            final(self.root_serializer).bytes@.len() - self.start <= i32::MAX ==> read_i32(
                final(self.root_serializer).bytes@,
                self.start as int,
            ) == final(self.root_serializer).bytes@.len() - self.start,
    {
        let ghost open = self.root_serializer.bytes@;
        self.root_serializer.bytes.push(0);
        let length: i32 = length_i32(self.root_serializer.bytes.len() - self.start);
        self.root_serializer.replace_i32(self.start, length);
        proof {
            assert(self.root_serializer.bytes@ =~= closed(open, self.start as int));
            if open.len() + 1 - self.start <= i32::MAX {
                lemma_closed_length(open, self.start as int);
            }
        }
        Ok(())
    }
}

} // verus!
