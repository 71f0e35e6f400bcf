//! The scalars that BSON has beyond the core kinds, and the reserved struct names that
//! announce them.

use vstd::prelude::*;
use crate::element::ElementType;
use crate::text::str_eq;

verus! {

/// The kind of scalar that a struct under a reserved name stands for.
#[derive(Clone, Copy, Debug, PartialEq, Eq, Structural)]
pub enum ValueType {
    DateTime,
    Binary,
    ObjectId,
    Symbol,
    RegularExpression,
    Timestamp,
    DbPointer,
    JavaScriptCode,
    JavaScriptCodeWithScope,
    MinKey,
    MaxKey,
    Decimal128,
    Undefined,
}

impl ValueType {
    /// The element type under which a scalar of this kind is written.
    pub open spec fn element_type_spec(self) -> ElementType {
        match self {
            ValueType::DateTime => ElementType::DateTime,
            ValueType::Binary => ElementType::Binary,
            ValueType::ObjectId => ElementType::ObjectId,
            ValueType::Symbol => ElementType::Symbol,
            ValueType::RegularExpression => ElementType::RegularExpression,
            ValueType::Timestamp => ElementType::Timestamp,
            ValueType::DbPointer => ElementType::DbPointer,
            ValueType::JavaScriptCode => ElementType::JavaScriptCode,
            ValueType::JavaScriptCodeWithScope => ElementType::JavaScriptCodeWithScope,
            ValueType::MinKey => ElementType::MinKey,
            ValueType::MaxKey => ElementType::MaxKey,
            ValueType::Decimal128 => ElementType::Decimal128,
            ValueType::Undefined => ElementType::Undefined,
        }
    }

    /// Gives the element type under which a scalar of this kind is written.
    pub fn element_type(self) -> (t: ElementType)
        ensures
            t == self.element_type_spec(),
    {
        match self {
            ValueType::DateTime => ElementType::DateTime,
            ValueType::Binary => ElementType::Binary,
            ValueType::ObjectId => ElementType::ObjectId,
            ValueType::Symbol => ElementType::Symbol,
            ValueType::RegularExpression => ElementType::RegularExpression,
            ValueType::Timestamp => ElementType::Timestamp,
            ValueType::DbPointer => ElementType::DbPointer,
            ValueType::JavaScriptCode => ElementType::JavaScriptCode,
            ValueType::JavaScriptCodeWithScope => ElementType::JavaScriptCodeWithScope,
            ValueType::MinKey => ElementType::MinKey,
            ValueType::MaxKey => ElementType::MaxKey,
            ValueType::Decimal128 => ElementType::Decimal128,
            ValueType::Undefined => ElementType::Undefined,
        }
    }

    /// The reserved struct name that announces a scalar of this kind.
    pub open spec fn marker_spec(self) -> Seq<char> {
        match self {
            ValueType::ObjectId => "$oid"@,
            ValueType::DateTime => "$date"@,
            ValueType::Binary => "$binary"@,
            ValueType::Timestamp => "$timestamp"@,
            ValueType::MinKey => "$minKey"@,
            ValueType::MaxKey => "$maxKey"@,
            ValueType::JavaScriptCode => "$code"@,
            ValueType::JavaScriptCodeWithScope => "$codeWithScope"@,
            ValueType::Symbol => "$symbol"@,
            ValueType::Undefined => "$undefined"@,
            ValueType::RegularExpression => "$regularExpression"@,
            ValueType::DbPointer => "$dbPointer"@,
            ValueType::Decimal128 => "$numberDecimal"@,
        }
    }

    /// Gives the reserved struct name that announces a scalar of this kind.
    pub fn marker(self) -> (name: &'static str)
        ensures
            name@ == self.marker_spec(),
    {
        match self {
            ValueType::ObjectId => "$oid",
            ValueType::DateTime => "$date",
            ValueType::Binary => "$binary",
            ValueType::Timestamp => "$timestamp",
            ValueType::MinKey => "$minKey",
            ValueType::MaxKey => "$maxKey",
            ValueType::JavaScriptCode => "$code",
            ValueType::JavaScriptCodeWithScope => "$codeWithScope",
            ValueType::Symbol => "$symbol",
            ValueType::Undefined => "$undefined",
            ValueType::RegularExpression => "$regularExpression",
            ValueType::DbPointer => "$dbPointer",
            ValueType::Decimal128 => "$numberDecimal",
        }
    }

    /// Finds the kind of scalar that the struct name `name` announces, if it is a
    /// reserved one. The match is exact and sensitive to case.
    pub fn from_marker(name: &str) -> (kind: Option<ValueType>)
        ensures
            kind == marker_kind(name@),
    {
        if str_eq(name, "$oid") {
            Some(ValueType::ObjectId)
        } else if str_eq(name, "$date") {
            Some(ValueType::DateTime)
        } else if str_eq(name, "$binary") {
            Some(ValueType::Binary)
        } else if str_eq(name, "$timestamp") {
            Some(ValueType::Timestamp)
        } else if str_eq(name, "$minKey") {
            Some(ValueType::MinKey)
        } else if str_eq(name, "$maxKey") {
            Some(ValueType::MaxKey)
        } else if str_eq(name, "$code") {
            Some(ValueType::JavaScriptCode)
        } else if str_eq(name, "$codeWithScope") {
            Some(ValueType::JavaScriptCodeWithScope)
        } else if str_eq(name, "$symbol") {
            Some(ValueType::Symbol)
        } else if str_eq(name, "$undefined") {
            Some(ValueType::Undefined)
        } else if str_eq(name, "$regularExpression") {
            Some(ValueType::RegularExpression)
        } else if str_eq(name, "$dbPointer") {
            Some(ValueType::DbPointer)
        } else if str_eq(name, "$numberDecimal") {
            Some(ValueType::Decimal128)
        } else {
            None
        }
    }
}

/// The kind of scalar that a struct name announces: the one table from reserved names
/// to kinds. Every other name announces none.
pub open spec fn marker_kind(name: Seq<char>) -> Option<ValueType> {
    if name == "$oid"@ {
        Some(ValueType::ObjectId)
    } else if name == "$date"@ {
        Some(ValueType::DateTime)
    } else if name == "$binary"@ {
        Some(ValueType::Binary)
    } else if name == "$timestamp"@ {
        Some(ValueType::Timestamp)
    } else if name == "$minKey"@ {
        Some(ValueType::MinKey)
    } else if name == "$maxKey"@ {
        Some(ValueType::MaxKey)
    } else if name == "$code"@ {
        Some(ValueType::JavaScriptCode)
    } else if name == "$codeWithScope"@ {
        Some(ValueType::JavaScriptCodeWithScope)
    } else if name == "$symbol"@ {
        Some(ValueType::Symbol)
    } else if name == "$undefined"@ {
        Some(ValueType::Undefined)
    } else if name == "$regularExpression"@ {
        Some(ValueType::RegularExpression)
    } else if name == "$dbPointer"@ {
        Some(ValueType::DbPointer)
    } else if name == "$numberDecimal"@ {
        Some(ValueType::Decimal128)
    } else {
        None
    }
}

/// No scalar is written under the element type of a document.
pub proof fn lemma_scalars_are_no_documents()
    ensures
        forall|kind: ValueType| #[trigger]
            kind.element_type_spec() != ElementType::EmbeddedDocument,
{
}

/// A name announces a kind of scalar exactly when it is that kind's reserved name: the
/// thirteen reserved names are distinct.
pub proof fn lemma_marker_kind_inverts_marker(name: Seq<char>, kind: ValueType)
    ensures
        marker_kind(name) == Some(kind) <==> name == kind.marker_spec(),
{
    reveal_strlit("$oid");
    reveal_strlit("$date");
    reveal_strlit("$binary");
    reveal_strlit("$timestamp");
    reveal_strlit("$minKey");
    reveal_strlit("$maxKey");
    reveal_strlit("$code");
    reveal_strlit("$codeWithScope");
    reveal_strlit("$symbol");
    reveal_strlit("$undefined");
    reveal_strlit("$regularExpression");
    reveal_strlit("$dbPointer");
    reveal_strlit("$numberDecimal");
    assert("$oid"@.len() == 4 && "$date"@.len() == 5 && "$code"@.len() == 5);
    assert("$binary"@.len() == 7 && "$minKey"@.len() == 7 && "$maxKey"@.len() == 7);
    assert("$symbol"@.len() == 7 && "$timestamp"@.len() == 10 && "$dbPointer"@.len() == 10);
    assert("$undefined"@.len() == 10 && "$codeWithScope"@.len() == 14);
    assert("$numberDecimal"@.len() == 14 && "$regularExpression"@.len() == 18);
    assert("$oid"@[1] == 'o');
    assert("$date"@[1] == 'd');
    assert("$code"@[1] == 'c');
    assert("$minKey"@[2] == 'i');
    assert("$maxKey"@[2] == 'a');
    assert("$binary"@[1] == 'b');
    assert("$symbol"@[1] == 's');
    assert("$timestamp"@[1] == 't');
    assert("$dbPointer"@[1] == 'd');
    assert("$undefined"@[1] == 'u');
    assert("$codeWithScope"@[1] == 'c');
    assert("$numberDecimal"@[1] == 'n');
}

} // verus!
