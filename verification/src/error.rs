//! Why an encode operation stops.

use vstd::prelude::*;
use crate::element::ElementType;

verus! {

/// The failures of the encoder. Each carries the value or classification that caused
/// it; none carries a formatted message.
#[derive(Clone, Debug, PartialEq, Eq)]
pub enum Error {
    /// A value that is not a document was presented where no element type slot was
    /// pending, that is at the top level. Holds the element type of that value.
    NonDocumentAtTopLevel(ElementType),
    /// An unsigned integer was presented while the conversion of unsigned to signed
    /// integers was switched off. Holds the value.
    UnsupportedUnsignedInteger(u64),
    /// An unsigned integer does not fit the signed 64-bit range. Holds the value.
    UnsignedIntegerExceededRange(u64),
    /// A key or another null-terminated string holds a zero byte. Holds the string.
    InvalidCString(String),
    /// A field was handed to a scalar encoder that expects another name, another shape
    /// of value, or no further field. Holds the field's name.
    UnexpectedScalarField(String),
    /// A scalar encoder was closed before it had all of its fields.
    MissingScalarField,
}

/// The mathematical content of an [`Error`].
pub enum ErrorView {
    NonDocumentAtTopLevel(ElementType),
    UnsupportedUnsignedInteger(u64),
    UnsignedIntegerExceededRange(u64),
    InvalidCString(Seq<char>),
    UnexpectedScalarField(Seq<char>),
    MissingScalarField,
}

impl View for Error {
    type V = ErrorView;

    open spec fn view(&self) -> ErrorView {
        match self {
            Error::NonDocumentAtTopLevel(t) => ErrorView::NonDocumentAtTopLevel(*t),
            Error::UnsupportedUnsignedInteger(v) => ErrorView::UnsupportedUnsignedInteger(*v),
            Error::UnsignedIntegerExceededRange(v) => ErrorView::UnsignedIntegerExceededRange(*v),
            Error::InvalidCString(s) => ErrorView::InvalidCString(s@),
            Error::UnexpectedScalarField(s) => ErrorView::UnexpectedScalarField(s@),
            Error::MissingScalarField => ErrorView::MissingScalarField,
        }
    }
}

} // verus!
