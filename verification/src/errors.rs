//! The closed set of failures that executing a four-letter-word command can
//! produce. Every kind is fatal to the single invocation that raised it:
//! nothing is retried, and there is no partial result.

use vstd::prelude::*;

verus! {

/// Errors returned by executing a four-letter-word command.
#[derive(Debug, Clone, PartialEq, Eq)]
#[non_exhaustive]
pub enum ZK4LWError {
    /// An integer-valued field held text that is not an in-range decimal
    /// integer; carries the field's key and the offending text.
    ParseIntError(String, String),
    /// A floating-point-valued field held text that is not a well-formed
    /// literal; carries the field's key and the offending text.
    ParseFloatError(String, String),
    /// A composite or enumerated value was ill-formed; carries the raw
    /// value that would not parse.
    ParseStringError(String),
    /// Required fields were still absent after a full decode pass; carries
    /// the key of every missing field, not only the first.
    MissingFieldError(Vec<String>),
    /// The underlying connect, write, or read failed; carries a
    /// description of the failure.
    IoError(String),
    /// The response bytes were not valid text; carries a description.
    Utf8Error(String),
}

} // verus!
