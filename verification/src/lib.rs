//! An encoder from structured values to the BSON wire format, with its behaviour
//! stated in contracts and proved.
//!
//! A [`value::Value`] is a tree of the kinds of a generic data model. The walk in
//! [`serialize`] hands it, node by node, to the root encoder in [`raw`], which writes
//! into one growing buffer. The wire format puts the type of an element in front of its
//! key and the length of a document in front of its body, while the walk learns the
//! type only after the key and the length only at the end; so the encoder reserves a
//! place for each and fills it in later. [`model`] says, as functions from values to
//! bytes, what comes out, and [`laws`] holds what follows from it.

pub mod document_serializer;
pub mod element;
pub mod error;
pub mod fill;
pub mod laws;
pub mod model;
pub mod raw;
pub mod scalar;
pub mod serialize;
pub mod text;
pub mod value;
pub mod value_serializer;
pub mod variant_serializer;
pub mod wire;
