//! The one-byte tags that BSON puts in front of an element's key.

use vstd::prelude::*;

verus! {

/// The element types of the BSON wire format.
#[derive(Clone, Copy, Debug, PartialEq, Eq, Structural)]
pub enum ElementType {
    Double,
    String,
    EmbeddedDocument,
    Array,
    Binary,
    Undefined,
    ObjectId,
    Boolean,
    DateTime,
    Null,
    RegularExpression,
    DbPointer,
    JavaScriptCode,
    Symbol,
    JavaScriptCodeWithScope,
    Int32,
    Timestamp,
    Int64,
    Decimal128,
    MaxKey,
    MinKey,
}

impl ElementType {
    /// The tag byte that stands for this element type on the wire.
    pub open spec fn tag(self) -> u8 {
        match self {
            ElementType::Double => 0x01,
            ElementType::String => 0x02,
            ElementType::EmbeddedDocument => 0x03,
            ElementType::Array => 0x04,
            ElementType::Binary => 0x05,
            ElementType::Undefined => 0x06,
            ElementType::ObjectId => 0x07,
            ElementType::Boolean => 0x08,
            ElementType::DateTime => 0x09,
            ElementType::Null => 0x0A,
            ElementType::RegularExpression => 0x0B,
            ElementType::DbPointer => 0x0C,
            ElementType::JavaScriptCode => 0x0D,
            ElementType::Symbol => 0x0E,
            ElementType::JavaScriptCodeWithScope => 0x0F,
            ElementType::Int32 => 0x10,
            ElementType::Timestamp => 0x11,
            ElementType::Int64 => 0x12,
            ElementType::Decimal128 => 0x13,
            ElementType::MaxKey => 0x7F,
            ElementType::MinKey => 0xFF,
        }
    }

    /// Computes the tag byte of this element type.
    pub fn to_byte(self) -> (b: u8)
        ensures
            b == self.tag(),
    {
        match self {
            ElementType::Double => 0x01,
            ElementType::String => 0x02,
            ElementType::EmbeddedDocument => 0x03,
            ElementType::Array => 0x04,
            ElementType::Binary => 0x05,
            ElementType::Undefined => 0x06,
            ElementType::ObjectId => 0x07,
            ElementType::Boolean => 0x08,
            ElementType::DateTime => 0x09,
            ElementType::Null => 0x0A,
            ElementType::RegularExpression => 0x0B,
            ElementType::DbPointer => 0x0C,
            ElementType::JavaScriptCode => 0x0D,
            ElementType::Symbol => 0x0E,
            ElementType::JavaScriptCodeWithScope => 0x0F,
            ElementType::Int32 => 0x10,
            ElementType::Timestamp => 0x11,
            ElementType::Int64 => 0x12,
            ElementType::Decimal128 => 0x13,
            ElementType::MaxKey => 0x7F,
            ElementType::MinKey => 0xFF,
        }
    }
}

/// No tag is zero, so a reserved slot that still holds its placeholder can be told from
/// a patched one, and two element types never share a tag.
pub proof fn lemma_tags_distinct(a: ElementType, b: ElementType)
    ensures
        a.tag() != 0,
        a.tag() == b.tag() <==> a == b,
{
}

} // verus!
