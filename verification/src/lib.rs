//! Decoder for a marshalled compiled-bytecode container format.
//!
//! A flat byte stream is turned into a typed, recursively structured value
//! tree, including nested code-unit records.  Decoding is strictly
//! left-to-right over a mutable byte buffer; structurally equal strings and
//! tuples are interned per decode session so that repeated content collapses
//! to one shared allocation.

pub mod deser;
pub mod error;
pub mod laws;
pub mod model;
pub mod tag;
pub mod value;

pub use deser::Deserializer;
pub use error::DeserializeError;
pub use error::DeserializeResult;
pub use error::Kind;
pub use tag::DataTypePrefix;
pub use value::CodeObj;
pub use value::ValueObj;
