//! The values that the encoder takes: a tree in which every node is one of the kinds
//! of the data model that the encoder has an entry point for.

use vstd::prelude::*;

verus! {

/// A structured value.
///
/// Names of types and indices of variants travel with the value although the wire
/// format has no place for most of them.
#[derive(Debug, PartialEq)]
pub enum Value {
    Bool(bool),
    I8(i8),
    I16(i16),
    I32(i32),
    I64(i64),
    U8(u8),
    U16(u16),
    U32(u32),
    U64(u64),
    /// A double, held as its IEEE 754 bit pattern.
    Double(u64),
    Char(char),
    Str(String),
    Bytes(Vec<u8>),
    /// An optional value that is absent.
    Absent,
    /// An optional value that is present.
    Present(Box<Value>),
    Unit,
    UnitStruct { name: String },
    UnitVariant { name: String, variant_index: u32, variant: String },
    NewtypeStruct { name: String, value: Box<Value> },
    NewtypeVariant { name: String, variant_index: u32, variant: String, value: Box<Value> },
    Sequence(Vec<Value>),
    Tuple(Vec<Value>),
    TupleStruct { name: String, items: Vec<Value> },
    TupleVariant { name: String, variant_index: u32, variant: String, items: Vec<Value> },
    /// A map. Its keys are strings, since a document has no other keys.
    Mapping(Vec<(String, Value)>),
    Struct { name: String, fields: Vec<(String, Value)> },
    StructVariant { name: String, variant_index: u32, variant: String, fields: Vec<(String, Value)> },
}

/// The mathematical content of a [`Value`].
pub enum ValueView {
    Bool(bool),
    I8(i8),
    I16(i16),
    I32(i32),
    I64(i64),
    U8(u8),
    U16(u16),
    U32(u32),
    U64(u64),
    Double(u64),
    Char(char),
    Str(Seq<char>),
    Bytes(Seq<u8>),
    Absent,
    Present(Box<ValueView>),
    Unit,
    UnitStruct { name: Seq<char> },
    UnitVariant { name: Seq<char>, variant_index: u32, variant: Seq<char> },
    NewtypeStruct { name: Seq<char>, value: Box<ValueView> },
    NewtypeVariant { name: Seq<char>, variant_index: u32, variant: Seq<char>, value: Box<ValueView> },
    Sequence(Seq<ValueView>),
    Tuple(Seq<ValueView>),
    TupleStruct { name: Seq<char>, items: Seq<ValueView> },
    TupleVariant { name: Seq<char>, variant_index: u32, variant: Seq<char>, items: Seq<ValueView> },
    Mapping(Seq<(Seq<char>, ValueView)>),
    Struct { name: Seq<char>, fields: Seq<(Seq<char>, ValueView)> },
    StructVariant {
        name: Seq<char>,
        variant_index: u32,
        variant: Seq<char>,
        fields: Seq<(Seq<char>, ValueView)>,
    },
}

/// The contents of a list of values, item by item.
pub open spec fn contents(items: Seq<Value>) -> Seq<ValueView>
    decreases items, 1nat,
{
    Seq::new(
        items.len(),
        |i: int|
            if 0 <= i < items.len() {
                content(items[i])
            } else {
                ValueView::Unit
            },
    )
}

/// The contents of a list of named values, entry by entry.
pub open spec fn named_contents(entries: Seq<(String, Value)>) -> Seq<(Seq<char>, ValueView)>
    decreases entries, 1nat,
{
    Seq::new(
        entries.len(),
        |i: int|
            if 0 <= i < entries.len() {
                (entries[i].0@, content(entries[i].1))
            } else {
                (Seq::empty(), ValueView::Unit)
            },
    )
}

/// The content of a value.
#[verifier::opaque]
pub open spec fn content(v: Value) -> ValueView
    decreases v, 0nat,
{
    match v {
        Value::Bool(b) => ValueView::Bool(b),
        Value::I8(n) => ValueView::I8(n),
        Value::I16(n) => ValueView::I16(n),
        Value::I32(n) => ValueView::I32(n),
        Value::I64(n) => ValueView::I64(n),
        Value::U8(n) => ValueView::U8(n),
        Value::U16(n) => ValueView::U16(n),
        Value::U32(n) => ValueView::U32(n),
        Value::U64(n) => ValueView::U64(n),
        Value::Double(bits) => ValueView::Double(bits),
        Value::Char(c) => ValueView::Char(c),
        Value::Str(s) => ValueView::Str(s@),
        Value::Bytes(b) => ValueView::Bytes(b@),
        Value::Absent => ValueView::Absent,
        Value::Present(inner) => ValueView::Present(Box::new(content(*inner))),
        Value::Unit => ValueView::Unit,
        Value::UnitStruct { name } => ValueView::UnitStruct { name: name@ },
        Value::UnitVariant { name, variant_index, variant } => ValueView::UnitVariant {
            name: name@,
            variant_index,
            variant: variant@,
        },
        Value::NewtypeStruct { name, value } => ValueView::NewtypeStruct {
            name: name@,
            value: Box::new(content(*value)),
        },
        Value::NewtypeVariant { name, variant_index, variant, value } => ValueView::NewtypeVariant {
            name: name@,
            variant_index,
            variant: variant@,
            value: Box::new(content(*value)),
        },
        Value::Sequence(items) => ValueView::Sequence(contents(items@)),
        Value::Tuple(items) => ValueView::Tuple(contents(items@)),
        Value::TupleStruct { name, items } => ValueView::TupleStruct {
            name: name@,
            items: contents(items@),
        },
        Value::TupleVariant { name, variant_index, variant, items } => ValueView::TupleVariant {
            name: name@,
            variant_index,
            variant: variant@,
            items: contents(items@),
        },
        Value::Mapping(entries) => ValueView::Mapping(named_contents(entries@)),
        Value::Struct { name, fields } => ValueView::Struct {
            name: name@,
            fields: named_contents(fields@),
        },
        Value::StructVariant { name, variant_index, variant, fields } => ValueView::StructVariant {
            name: name@,
            variant_index,
            variant: variant@,
            fields: named_contents(fields@),
        },
    }
}

/// The content of a list of named values holds, at each place, the name and the
/// content of the entry there.
pub proof fn lemma_named_contents_at(entries: Seq<(String, Value)>, i: int)
    requires
        0 <= i < entries.len(),
    ensures
        named_contents(entries).len() == entries.len(),
        named_contents(entries)[i] == (entries[i].0@, entries[i].1@),
{
    reveal_with_fuel(content, 2);
}

impl View for Value {
    type V = ValueView;

    open spec fn view(&self) -> ValueView {
        content(*self)
    }
}

} // verus!
