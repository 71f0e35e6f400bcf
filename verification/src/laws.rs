//! Laws of the encoding that relate several of its parts.

use vstd::prelude::*;
use vstd::utf8::encode_utf8;
use crate::element::ElementType;
use crate::error::Error;
use crate::model::{
    document_bytes, element, element_bytes, element_type, encoding, indexed_elements,
    named_elements, payload,
};
use crate::raw::Serializer;
use crate::text::decimal;
use crate::value::{Value, ValueView};
use crate::wire::{le_bytes32, read_i32};

verus! {

/// The length at the head of a document is the length of the whole document, from the
/// first byte of the length itself to the terminator, which is the last byte.
pub proof fn lemma_document_length(elements: Seq<u8>)
    requires
        elements.len() + 5 <= i32::MAX,
    ensures
        document_bytes(elements).len() == elements.len() + 5,
        read_i32(document_bytes(elements), 0) == document_bytes(elements).len(),
        document_bytes(elements).last() == 0u8,
{
    let doc = document_bytes(elements);
    let len = le_bytes32(elements.len() as int + 5);
    assert(doc[0] == len[0] && doc[1] == len[1] && doc[2] == len[2] && doc[3] == len[3]);
    crate::wire::lemma_read_i32_of_le_bytes32(elements.len() as int + 5);
    assert(read_i32(len, 0) == read_i32(doc, 0));
}

/// In the wrapper of an enum variant both lengths are right: the outer one is the
/// length of the whole wrapper, and the inner one, which stands behind the tag and the
/// variant's name, is the length of the inner body, which ends one byte before the
/// wrapper does.
pub proof fn lemma_variant_lengths(inner: ElementType, variant: Seq<char>, fields: Seq<u8>)
    requires
        fields.len() + encode_utf8(variant).len() + 16 <= i32::MAX,
    ensures
        ({
            let wrapper = document_bytes(element_bytes(inner, variant, document_bytes(fields)));
            let inner_start = 6 + encode_utf8(variant).len() as int;
            &&& read_i32(wrapper, 0) == wrapper.len()
            &&& read_i32(wrapper, inner_start) == wrapper.len() - 1 - inner_start
            &&& wrapper[4] == inner.tag()
        }),
{
    let body = document_bytes(fields);
    let e = element_bytes(inner, variant, body);
    let wrapper = document_bytes(e);
    let inner_start = 6 + encode_utf8(variant).len() as int;
    lemma_document_length(fields);
    lemma_document_length(e);
    assert(forall|k: int| 0 <= k < body.len() ==> wrapper[inner_start + k] == body[k]);
    assert(read_i32(wrapper, inner_start) == read_i32(body, 0));
}

/// An element begins with the tag of its type, which is never the zero that a slot
/// holds while it waits: no slot is left unfilled in what has been written.
pub proof fn lemma_element_tag_is_filled(t: ElementType, key: Seq<char>, payload: Seq<u8>)
    ensures
        element_bytes(t, key, payload)[0] == t.tag(),
        element_bytes(t, key, payload)[0] != 0u8,
{
    crate::element::lemma_tags_distinct(t, t);
}

/// What the first `i` items of a sequence give stays in front when more items follow.
pub proof fn lemma_indexed_elements_extend(items: Seq<ValueView>, i: nat, n: nat, u2i: bool)
    requires
        i <= n <= items.len(),
        indexed_elements(items, n, u2i) is Ok,
    ensures
        indexed_elements(items, i, u2i) is Ok,
        indexed_elements(items, i, u2i)->Ok_0.len() <= indexed_elements(items, n, u2i)->Ok_0.len(),
        indexed_elements(items, n, u2i)->Ok_0.subrange(
            0,
            indexed_elements(items, i, u2i)->Ok_0.len() as int,
        ) == indexed_elements(items, i, u2i)->Ok_0,
    decreases n,
{
    if i < n {
        lemma_indexed_elements_extend(items, i, (n - 1) as nat, u2i);
        let shorter = indexed_elements(items, (n - 1) as nat, u2i)->Ok_0;
        let whole = indexed_elements(items, n, u2i)->Ok_0;
        let first = indexed_elements(items, i, u2i)->Ok_0;
        assert(whole.subrange(0, first.len() as int) =~= shorter.subrange(0, first.len() as int));
    } else {
        let whole = indexed_elements(items, n, u2i)->Ok_0;
        assert(whole.subrange(0, whole.len() as int) =~= whole);
    }
}

/// In the body of an array the items stand in their order, and the item at position
/// `i` stands there as an element with the key `i` in decimal, the type of the item
/// and the payload of the item.
pub proof fn lemma_sequence_keeps_order(items: Seq<ValueView>, i: int, u2i: bool)
    requires
        0 <= i < items.len(),
        indexed_elements(items, items.len(), u2i) is Ok,
    ensures
        indexed_elements(items, i as nat, u2i) is Ok,
        element_type(items[i], u2i) is Ok,
        payload(items[i], u2i) is Ok,
        ({
            let body = indexed_elements(items, items.len(), u2i)->Ok_0;
            let at = indexed_elements(items, i as nat, u2i)->Ok_0.len() as int;
            let it = element_bytes(
                element_type(items[i], u2i)->Ok_0,
                decimal(i as nat),
                payload(items[i], u2i)->Ok_0,
            );
            at + it.len() <= body.len() && body.subrange(at, at + it.len()) == it
        }),
{
    lemma_indexed_elements_extend(items, (i + 1) as nat, items.len(), u2i);
    lemma_indexed_elements_extend(items, i as nat, (i + 1) as nat, u2i);
    let body = indexed_elements(items, items.len(), u2i)->Ok_0;
    let before = indexed_elements(items, i as nat, u2i)->Ok_0;
    let with = indexed_elements(items, (i + 1) as nat, u2i)->Ok_0;
    assert(indexed_elements(items, (i + 1) as nat, u2i) is Ok);
    assert(element(decimal(i as nat), items[i], u2i) is Ok);
    assert(element_type(items[i], u2i) is Ok);
    assert(payload(items[i], u2i) is Ok);
    let it = element(decimal(i as nat), items[i], u2i)->Ok_0;
    assert(with == before + it);
    assert(body.subrange(before.len() as int, before.len() as int + it.len()) =~= body.subrange(
        0,
        with.len() as int,
    ).subrange(before.len() as int, with.len() as int));
    assert(with.subrange(before.len() as int, with.len() as int) =~= it);
}

/// What the first `i` entries of a document give stays in front when more entries
/// follow.
pub proof fn lemma_named_elements_extend(
    entries: Seq<(Seq<char>, ValueView)>,
    i: nat,
    n: nat,
    u2i: bool,
)
    requires
        i <= n <= entries.len(),
        named_elements(entries, n, u2i) is Ok,
    ensures
        named_elements(entries, i, u2i) is Ok,
        named_elements(entries, i, u2i)->Ok_0.len() <= named_elements(entries, n, u2i)->Ok_0.len(),
        named_elements(entries, n, u2i)->Ok_0.subrange(
            0,
            named_elements(entries, i, u2i)->Ok_0.len() as int,
        ) == named_elements(entries, i, u2i)->Ok_0,
    decreases n,
{
    if i < n {
        lemma_named_elements_extend(entries, i, (n - 1) as nat, u2i);
        let shorter = named_elements(entries, (n - 1) as nat, u2i)->Ok_0;
        let whole = named_elements(entries, n, u2i)->Ok_0;
        let first = named_elements(entries, i, u2i)->Ok_0;
        assert(whole.subrange(0, first.len() as int) =~= shorter.subrange(0, first.len() as int));
    } else {
        let whole = named_elements(entries, n, u2i)->Ok_0;
        assert(whole.subrange(0, whole.len() as int) =~= whole);
    }
}

/// In the body of a document the entries stand in the order in which they were given,
/// each under its own key with the type and the payload of its value.
pub proof fn lemma_document_keeps_order(entries: Seq<(Seq<char>, ValueView)>, i: int, u2i: bool)
    requires
        0 <= i < entries.len(),
        named_elements(entries, entries.len(), u2i) is Ok,
    ensures
        named_elements(entries, i as nat, u2i) is Ok,
        element_type(entries[i].1, u2i) is Ok,
        payload(entries[i].1, u2i) is Ok,
        ({
            let body = named_elements(entries, entries.len(), u2i)->Ok_0;
            let at = named_elements(entries, i as nat, u2i)->Ok_0.len() as int;
            let it = element_bytes(
                element_type(entries[i].1, u2i)->Ok_0,
                entries[i].0,
                payload(entries[i].1, u2i)->Ok_0,
            );
            at + it.len() <= body.len() && body.subrange(at, at + it.len()) == it
        }),
{
    lemma_named_elements_extend(entries, (i + 1) as nat, entries.len(), u2i);
    lemma_named_elements_extend(entries, i as nat, (i + 1) as nat, u2i);
    let body = named_elements(entries, entries.len(), u2i)->Ok_0;
    let before = named_elements(entries, i as nat, u2i)->Ok_0;
    let with = named_elements(entries, (i + 1) as nat, u2i)->Ok_0;
    assert(named_elements(entries, (i + 1) as nat, u2i) is Ok);
    assert(element(entries[i].0, entries[i].1, u2i) is Ok);
    assert(element_type(entries[i].1, u2i) is Ok);
    assert(payload(entries[i].1, u2i) is Ok);
    let it = element(entries[i].0, entries[i].1, u2i)->Ok_0;
    assert(with == before + it);
    assert(body.subrange(before.len() as int, before.len() as int + it.len()) =~= body.subrange(
        0,
        with.len() as int,
    ).subrange(before.len() as int, with.len() as int));
    assert(with.subrange(before.len() as int, with.len() as int) =~= it);
}

/// A number in decimal has at least one digit, and at least two from ten on.
pub proof fn lemma_decimal_len(n: nat)
    ensures
        decimal(n).len() >= 1,
        n >= 10 ==> decimal(n).len() >= 2,
    decreases n,
{
    if n >= 10 {
        lemma_decimal_len(n / 10);
    }
}

/// Two positions never share a key: different numbers are different in decimal.
pub proof fn lemma_decimal_distinct(a: nat, b: nat)
    ensures
        decimal(a) == decimal(b) ==> a == b,
    decreases a,
{
    if decimal(a) == decimal(b) {
        lemma_decimal_len(a);
        lemma_decimal_len(b);
        if a >= 10 && b >= 10 {
            let da = decimal(a / 10);
            let db = decimal(b / 10);
            assert(decimal(a).last() == crate::text::digit(a % 10));
            assert(decimal(b).last() == crate::text::digit(b % 10));
            assert(decimal(a).drop_last() =~= da);
            assert(decimal(b).drop_last() =~= db);
            lemma_decimal_distinct(a / 10, b / 10);
        } else if a < 10 && b < 10 {
            assert(decimal(a)[0] == crate::text::digit(a));
            assert(decimal(b)[0] == crate::text::digit(b));
        } else {
            assert(decimal(a).len() == 1 || decimal(b).len() == 1);
        }
    }
}

/// What is written for a value at the top level is one document: it ends in its
/// terminator, and the length at its head is the length of the whole output.
pub proof fn lemma_root_is_document(v: ValueView, u2i: bool)
    requires
        encoding(v, u2i, true) is Ok,
    ensures
        ({
            let out = encoding(v, u2i, true)->Ok_0.1;
            &&& encoding(v, u2i, true)->Ok_0.0 == ElementType::EmbeddedDocument
            &&& out.len() >= 5
            &&& out.last() == 0u8
            &&& out.len() <= i32::MAX ==> read_i32(out, 0) == out.len()
        }),
    decreases v,
{
    crate::model::lemma_encoding_by_kind(v, u2i, true);
    let out = encoding(v, u2i, true)->Ok_0.1;
    match v {
        ValueView::Present(inner) => {
            lemma_root_is_document(*inner, u2i);
        },
        ValueView::NewtypeStruct { value, .. } => {
            lemma_root_is_document(*value, u2i);
        },
        ValueView::NewtypeVariant { variant, value, .. } => {
            lemma_document_shape(element(variant, *value, u2i)->Ok_0);
        },
        ValueView::TupleVariant { variant, items, .. } => {
            lemma_document_shape(
                element_bytes(
                    ElementType::Array,
                    variant,
                    document_bytes(indexed_elements(items, items.len(), u2i)->Ok_0),
                ),
            );
        },
        ValueView::StructVariant { variant, fields, .. } => {
            lemma_document_shape(
                element_bytes(
                    ElementType::EmbeddedDocument,
                    variant,
                    document_bytes(named_elements(fields, fields.len(), u2i)->Ok_0),
                ),
            );
        },
        ValueView::Mapping(entries) => {
            lemma_document_shape(named_elements(entries, entries.len(), u2i)->Ok_0);
        },
        ValueView::Struct { name, fields } => {
            crate::scalar::lemma_scalars_are_no_documents();
            lemma_document_shape(named_elements(fields, fields.len(), u2i)->Ok_0);
        },
        _ => {},
    }
}

/// A document has at least five bytes and ends in its terminator, and the length at
/// its head is its own length where that fits 32 bits.
pub proof fn lemma_document_shape(elements: Seq<u8>)
    ensures
        document_bytes(elements).len() == elements.len() + 5,
        document_bytes(elements).last() == 0u8,
        document_bytes(elements).len() <= i32::MAX ==> read_i32(document_bytes(elements), 0)
            == document_bytes(elements).len(),
{
    if elements.len() + 5 <= i32::MAX {
        lemma_document_length(elements);
    }
}

/// Encoding is a function of the content: two values with the same content, handed to
/// encoders in the same state, are both written or both refused, with the same bytes
/// or the same refusal.
pub proof fn lemma_encoding_deterministic(
    a: Value,
    b: Value,
    before_a: &Serializer,
    before_b: &Serializer,
    after_a: &Serializer,
    after_b: &Serializer,
    res_a: Result<(), Error>,
    res_b: Result<(), Error>,
)
    requires
        a@ == b@,
        before_a.bytes@ == before_b.bytes@,
        before_a.type_index == before_b.type_index,
        before_a.u2i == before_b.u2i,
        Serializer::took(before_a, after_a, res_a, a@),
        Serializer::took(before_b, after_b, res_b, b@),
    ensures
        res_a is Ok <==> res_b is Ok,
        res_a is Ok ==> after_a.bytes@ == after_b.bytes@,
        res_a is Err ==> res_a->Err_0@ == res_b->Err_0@,
{
}

} // verus!
