//! The loops that hand the parts of a compound value, in their order, to the encoder
//! that its entry point returned, and close it.

use vstd::prelude::*;
use crate::document_serializer::{closed, DocumentSerializer};
use crate::error::Error;
use crate::model::{
    indexed_elements, lemma_indexed_elements_stop, lemma_named_elements_stop,
    lemma_scalar_fields_stop, named_elements, scalar_fields, scalar_payload,
};
use crate::raw::{Serializer, StructSerializer};
use crate::value::{contents, named_contents, Value};
use crate::variant_serializer::VariantSerializer;
use crate::wire::{begins_with, lemma_begins_with_chain, lemma_begins_with_front};

verus! {

/// Writes the items into an open array, each under its position, and closes the
/// array.
#[verifier::loop_isolation(false)]
pub fn fill_elements(mut d: DocumentSerializer<'_>, items: &Vec<Value>) -> (res: Result<(), Error>)
    requires
        d.wf(),
        d.num_keys_serialized == 0,
    ensures
        final(d.root_serializer).wf(),
        final(d.root_serializer).u2i == old(d.root_serializer).u2i,
        match indexed_elements(contents(items@), items@.len(), old(d.root_serializer).u2i) {
            Err(e) => res is Err && res->Err_0@ == e && begins_with(
                final(d.root_serializer).bytes@,
                old(d.root_serializer).bytes@,
            ),
            Ok(body) => res is Ok && final(d.root_serializer).bytes@ == closed(
                old(d.root_serializer).bytes@ + body,
                d.start as int,
            ) && Serializer::slot_kept_or_new(old(d.root_serializer), final(d.root_serializer)),
        },
    decreases items, 0nat,
{
    let ghost open = d.root_serializer.bytes@;
    let ghost slot = d.root_serializer.type_index;
    let ghost u2i = d.root_serializer.u2i;
    let ghost start = d.start;
    let ghost target = *final(d.root_serializer);
    let ghost all = contents(items@);
    assert(open + Seq::<u8>::empty() =~= open);
    let mut i: usize = 0;
    while i < items.len()
        invariant
            0 <= i <= items@.len(),
            all == contents(items@),
            d.wf(),
            d.num_keys_serialized == i,
            d.start == start,
            d.root_serializer.u2i == u2i,
            *final(d.root_serializer) == target,
            Serializer::slot_from(slot, open.len(), d.root_serializer.type_index),
            indexed_elements(all, i as nat, u2i) is Ok,
            d.root_serializer.bytes@ == open + indexed_elements(all, i as nat, u2i)->Ok_0,
        decreases items@.len() - i,
    {
        let ghost before = indexed_elements(all, i as nat, u2i)->Ok_0;
        assert(all[i as int] == items@[i as int]@);
        match d.serialize_element(&items[i]) {
            Ok(()) => {},
            Err(e) => {
                proof {
                    lemma_indexed_elements_stop(all, (i + 1) as nat, items@.len(), u2i);
                    lemma_begins_with_front(open, before);
                    lemma_begins_with_chain(d.root_serializer.bytes@, open + before, open);
                }
                return Err(e);
            },
        }
        proof {
            let added = crate::model::element(crate::text::decimal(i as nat), all[i as int], u2i)->Ok_0;
            assert(open + before + added =~= open + (before + added));
        }
        i += 1;
    }
    d.end_doc()
}

/// Writes the entries into an open document, each under its key, and closes the
/// document.
#[verifier::loop_isolation(false)]
pub fn fill_entries(mut d: DocumentSerializer<'_>, entries: &Vec<(String, Value)>) -> (res: Result<
    (),
    Error,
>)
    requires
        d.wf(),
    ensures
        final(d.root_serializer).wf(),
        final(d.root_serializer).u2i == old(d.root_serializer).u2i,
        match named_elements(
            named_contents(entries@),
            entries@.len(),
            old(d.root_serializer).u2i,
        ) {
            Err(e) => res is Err && res->Err_0@ == e && begins_with(
                final(d.root_serializer).bytes@,
                old(d.root_serializer).bytes@,
            ),
            Ok(body) => res is Ok && final(d.root_serializer).bytes@ == closed(
                old(d.root_serializer).bytes@ + body,
                d.start as int,
            ) && Serializer::slot_kept_or_new(old(d.root_serializer), final(d.root_serializer)),
        },
    decreases entries, 0nat,
{
    let ghost open = d.root_serializer.bytes@;
    let ghost slot = d.root_serializer.type_index;
    let ghost u2i = d.root_serializer.u2i;
    let ghost start = d.start;
    let ghost target = *final(d.root_serializer);
    let ghost all = named_contents(entries@);
    assert(open + Seq::<u8>::empty() =~= open);
    let mut i: usize = 0;
    while i < entries.len()
        invariant
            0 <= i <= entries@.len(),
            all == named_contents(entries@),
            d.wf(),
            d.start == start,
            d.root_serializer.u2i == u2i,
            *final(d.root_serializer) == target,
            Serializer::slot_from(slot, open.len(), d.root_serializer.type_index),
            named_elements(all, i as nat, u2i) is Ok,
            d.root_serializer.bytes@ == open + named_elements(all, i as nat, u2i)->Ok_0,
        decreases entries@.len() - i,
    {
        let ghost before = named_elements(all, i as nat, u2i)->Ok_0;
        assert(all[i as int] == (entries@[i as int].0@, entries@[i as int].1@));
        match d.serialize_entry(entries[i].0.as_str(), &entries[i].1) {
            Ok(()) => {},
            Err(e) => {
                proof {
                    lemma_named_elements_stop(all, (i + 1) as nat, entries@.len(), u2i);
                    lemma_begins_with_front(open, before);
                    lemma_begins_with_chain(d.root_serializer.bytes@, open + before, open);
                }
                return Err(e);
            },
        }
        proof {
            let added = crate::model::element(all[i as int].0, all[i as int].1, u2i)->Ok_0;
            assert(open + before + added =~= open + (before + added));
        }
        i += 1;
    }
    d.end_doc()
}

/// Writes the fields of an enum variant by position and closes the variant.
#[verifier::loop_isolation(false)]
pub fn fill_tuple_variant(mut v: VariantSerializer<'_>, items: &Vec<Value>) -> (res: Result<
    (),
    Error,
>)
    requires
        v.wf(),
        v.num_elements_serialized == 0,
    ensures
        final(v.root_serializer).wf(),
        final(v.root_serializer).u2i == old(v.root_serializer).u2i,
        match indexed_elements(contents(items@), items@.len(), old(v.root_serializer).u2i) {
            Err(e) => res is Err && res->Err_0@ == e && begins_with(
                final(v.root_serializer).bytes@,
                old(v.root_serializer).bytes@,
            ),
            Ok(body) => res is Ok && final(v.root_serializer).bytes@ == closed(
                closed(old(v.root_serializer).bytes@ + body, v.inner_start as int),
                v.doc_start as int,
            ) && Serializer::slot_kept_or_new(old(v.root_serializer), final(v.root_serializer)),
        },
    decreases items, 0nat,
{
    let ghost open = v.root_serializer.bytes@;
    let ghost slot = v.root_serializer.type_index;
    let ghost u2i = v.root_serializer.u2i;
    let ghost doc_start = v.doc_start;
    let ghost inner_start = v.inner_start;
    let ghost target = *final(v.root_serializer);
    let ghost all = contents(items@);
    assert(open + Seq::<u8>::empty() =~= open);
    let mut i: usize = 0;
    while i < items.len()
        invariant
            0 <= i <= items@.len(),
            all == contents(items@),
            v.wf(),
            v.num_elements_serialized == i,
            v.doc_start == doc_start,
            v.inner_start == inner_start,
            v.root_serializer.u2i == u2i,
            *final(v.root_serializer) == target,
            Serializer::slot_from(slot, open.len(), v.root_serializer.type_index),
            indexed_elements(all, i as nat, u2i) is Ok,
            v.root_serializer.bytes@ == open + indexed_elements(all, i as nat, u2i)->Ok_0,
        decreases items@.len() - i,
    {
        let ghost before = indexed_elements(all, i as nat, u2i)->Ok_0;
        assert(all[i as int] == items@[i as int]@);
        match v.serialize_tuple_field(&items[i]) {
            Ok(()) => {},
            Err(e) => {
                proof {
                    lemma_indexed_elements_stop(all, (i + 1) as nat, items@.len(), u2i);
                    lemma_begins_with_front(open, before);
                    lemma_begins_with_chain(v.root_serializer.bytes@, open + before, open);
                }
                return Err(e);
            },
        }
        proof {
            let added = crate::model::element(crate::text::decimal(i as nat), all[i as int], u2i)->Ok_0;
            assert(open + before + added =~= open + (before + added));
        }
        i += 1;
    }
    v.end()
}

/// Writes the fields of an enum variant by name and closes the variant.
#[verifier::loop_isolation(false)]
pub fn fill_struct_variant(mut v: VariantSerializer<'_>, fields: &Vec<(String, Value)>) -> (res:
    Result<(), Error>)
    requires
        v.wf(),
    ensures
        final(v.root_serializer).wf(),
        final(v.root_serializer).u2i == old(v.root_serializer).u2i,
        match named_elements(named_contents(fields@), fields@.len(), old(v.root_serializer).u2i) {
            Err(e) => res is Err && res->Err_0@ == e && begins_with(
                final(v.root_serializer).bytes@,
                old(v.root_serializer).bytes@,
            ),
            Ok(body) => res is Ok && final(v.root_serializer).bytes@ == closed(
                closed(old(v.root_serializer).bytes@ + body, v.inner_start as int),
                v.doc_start as int,
            ) && Serializer::slot_kept_or_new(old(v.root_serializer), final(v.root_serializer)),
        },
    decreases fields, 0nat,
{
    let ghost open = v.root_serializer.bytes@;
    let ghost slot = v.root_serializer.type_index;
    let ghost u2i = v.root_serializer.u2i;
    let ghost doc_start = v.doc_start;
    let ghost inner_start = v.inner_start;
    let ghost target = *final(v.root_serializer);
    let ghost all = named_contents(fields@);
    assert(open + Seq::<u8>::empty() =~= open);
    let mut i: usize = 0;
    while i < fields.len()
        invariant
            0 <= i <= fields@.len(),
            all == named_contents(fields@),
            v.wf(),
            v.doc_start == doc_start,
            v.inner_start == inner_start,
            v.root_serializer.u2i == u2i,
            *final(v.root_serializer) == target,
            Serializer::slot_from(slot, open.len(), v.root_serializer.type_index),
            named_elements(all, i as nat, u2i) is Ok,
            v.root_serializer.bytes@ == open + named_elements(all, i as nat, u2i)->Ok_0,
        decreases fields@.len() - i,
    {
        let ghost before = named_elements(all, i as nat, u2i)->Ok_0;
        assert(all[i as int] == (fields@[i as int].0@, fields@[i as int].1@));
        match v.serialize_field(fields[i].0.as_str(), &fields[i].1) {
            Ok(()) => {},
            Err(e) => {
                proof {
                    lemma_named_elements_stop(all, (i + 1) as nat, fields@.len(), u2i);
                    lemma_begins_with_front(open, before);
                    lemma_begins_with_chain(v.root_serializer.bytes@, open + before, open);
                }
                return Err(e);
            },
        }
        proof {
            let added = crate::model::element(all[i as int].0, all[i as int].1, u2i)->Ok_0;
            assert(open + before + added =~= open + (before + added));
        }
        i += 1;
    }
    v.end()
}

/// Hands the fields of a struct to its encoder, in their order, and closes it.
#[verifier::loop_isolation(false)]
pub fn fill_fields(mut s: StructSerializer<'_>, fields: &Vec<(String, Value)>) -> (res: Result<
    (),
    Error,
>)
    requires
        s.wf(),
        s is Value ==> s->Value_0.fields_serialized == 0 && s->Value_0.start
            == s.root().bytes@.len(),
    ensures
        s is Document ==> ({
            let after = *final(s->Document_0.root_serializer);
            &&& after.wf()
            &&& after.u2i == s.root().u2i
            &&& match named_elements(named_contents(fields@), fields@.len(), s.root().u2i) {
                Err(e) => res is Err && res->Err_0@ == e && begins_with(after.bytes@, s.root().bytes@),
                Ok(body) => res is Ok && Serializer::slot_kept_or_new(&s.root(), &after)
                    && after.bytes@ == closed(s.root().bytes@ + body, s->Document_0.start as int),
            }
        }),
        s is Value ==> ({
            let after = *final(s->Value_0.root_serializer);
            &&& after.wf()
            &&& after.u2i == s.root().u2i
            &&& match scalar_payload(s->Value_0.value_type, named_contents(fields@), s.root().u2i) {
                Err(e) => res is Err && res->Err_0@ == e && begins_with(after.bytes@, s.root().bytes@),
                Ok(payload) => res is Ok && Serializer::slot_kept_or_new(&s.root(), &after)
                    && after.bytes@ == s.root().bytes@ + payload,
            }
        }),
    decreases fields, 0nat,
{
    let ghost open = s.root().bytes@;
    let ghost slot = s.root().type_index;
    let ghost u2i = s.root().u2i;
    let ghost scalar = s is Value;
    let ghost kind = s->Value_0.value_type;
    let ghost start: int = if scalar {
        s->Value_0.start as int
    } else {
        s->Document_0.start as int
    };
    let ghost target = if scalar {
        *final(s->Value_0.root_serializer)
    } else {
        *final(s->Document_0.root_serializer)
    };
    let ghost all = named_contents(fields@);
    assert(open + Seq::<u8>::empty() =~= open);
    let mut i: usize = 0;
    while i < fields.len()
        invariant
            0 <= i <= fields@.len(),
            all == named_contents(fields@),
            s.wf(),
            s.root().u2i == u2i,
            Serializer::slot_from(slot, open.len(), s.root().type_index),
            scalar == (s is Value),
            !scalar == (s is Document),
            scalar ==> s->Value_0.value_type == kind && s->Value_0.start == start
                && s->Value_0.fields_serialized == i && *final(s->Value_0.root_serializer)
                == target && scalar_fields(kind, all, i as nat, u2i) is Ok && s.root().bytes@
                == open + scalar_fields(kind, all, i as nat, u2i)->Ok_0,
            !scalar ==> s->Document_0.start == start && *final(s->Document_0.root_serializer)
                == target && named_elements(all, i as nat, u2i) is Ok && s.root().bytes@ == open
                + named_elements(all, i as nat, u2i)->Ok_0,
        decreases fields@.len() - i,
    {
        let ghost taken = s.root().bytes@;
        assert(all[i as int] == (fields@[i as int].0@, fields@[i as int].1@));
        match s.serialize_field(fields[i].0.as_str(), &fields[i].1) {
            Ok(()) => {},
            Err(e) => {
                proof {
                    if scalar {
                        lemma_scalar_fields_stop(kind, all, (i + 1) as nat, fields@.len(), u2i);
                    } else {
                        lemma_named_elements_stop(all, (i + 1) as nat, fields@.len(), u2i);
                    }
                    lemma_begins_with_front(open, taken.skip(open.len() as int));
                    assert(open + taken.skip(open.len() as int) =~= taken);
                    lemma_begins_with_chain(s.root().bytes@, taken, open);
                }
                return Err(e);
            },
        }
        proof {
            if scalar {
                let before = scalar_fields(kind, all, i as nat, u2i)->Ok_0;
                let added = crate::model::scalar_field(
                    kind,
                    i as nat,
                    all[i as int].0,
                    all[i as int].1,
                    u2i,
                )->Ok_0;
                assert(open + before + added =~= open + (before + added));
            } else {
                let before = named_elements(all, i as nat, u2i)->Ok_0;
                let added = crate::model::element(all[i as int].0, all[i as int].1, u2i)->Ok_0;
                assert(open + before + added =~= open + (before + added));
            }
        }
        i += 1;
    }
    proof {
        if scalar {
            let written = scalar_fields(kind, all, fields@.len(), u2i)->Ok_0;
            assert((open + written).skip(start) =~= written);
            assert((open + written).take(start) =~= open);
            lemma_begins_with_front(open, written);
        }
    }
    s.end()
}

} // verus!
