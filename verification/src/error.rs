//! Error taxonomy of the decode/encode pipeline. Every stage fails fast: an
//! error aborts the operation and propagates unchanged to the caller.

use vstd::prelude::*;

verus! {

/// A terminal failure of the pipeline.
#[derive(Debug, Clone)]
pub enum BpError {
    /// Malformed envelope: invalid base64, invalid compressed stream, or
    /// invalid text encoding.
    FormatError(String),
    /// JSON is well-formed but violates the typed schema: missing required
    /// field, wrong type, unrecognized enum value, or invalid map key.
    SchemaError(String),
    /// JSON is schema-valid at the object level but is neither a blueprint
    /// nor a blueprint book.
    DataError(String),
}

impl BpError {
    /// The human-readable message carried by the error.
    pub fn message(&self) -> (r: &String)
        ensures
            r@ == match *self {
                BpError::FormatError(m) => m@,
                BpError::SchemaError(m) => m@,
                BpError::DataError(m) => m@,
            },
    {
        match self {
            BpError::FormatError(m) => m,
            BpError::SchemaError(m) => m,
            BpError::DataError(m) => m,
        }
    }
}

} // verus!
