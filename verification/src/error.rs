//! The error taxonomy of the mapping engine.
//!
//! Every error carries the context a caller needs to diagnose a mismatch
//! between a schema and what a source actually sent: the field path, the
//! offending literal, or the envelope key that was expected.

use vstd::prelude::*;

verus! {

/// Why an operation failed.
#[derive(Debug, Clone, PartialEq, Eq)]
pub enum Error {
    /// The source's schema lacks the requested capability.
    UnsupportedOperation,
    /// The response body is not a JSON document at all.
    InvalidResponse,
    /// The response does not match the expected array or
    /// object-with-named-key shape.
    MalformedEnvelope { expected_key: Option<String> },
    /// The response encodes an application-level error message in place
    /// of a record array.
    ServerError { message: String },
    /// A mandatory field path resolved to nothing.
    MissingField { path: String },
    /// A resolved value has the wrong JSON type for its role.
    TypeMismatch { path: String },
    /// A rating string has no entry in the schema's alias table.
    UnknownRatingAlias { value: String },
    /// The request could not be carried out by the transport.
    TransportFailure { message: String },
}

/// Model of `Error` over character sequences.
pub enum ErrorModel {
    UnsupportedOperation,
    InvalidResponse,
    MalformedEnvelope { expected_key: Option<Seq<char>> },
    ServerError { message: Seq<char> },
    MissingField { path: Seq<char> },
    TypeMismatch { path: Seq<char> },
    UnknownRatingAlias { value: Seq<char> },
    TransportFailure { message: Seq<char> },
}

impl View for Error {
    type V = ErrorModel;

    open spec fn view(&self) -> ErrorModel {
        match self {
            Error::UnsupportedOperation => ErrorModel::UnsupportedOperation,
            Error::InvalidResponse => ErrorModel::InvalidResponse,
            Error::MalformedEnvelope { expected_key } => ErrorModel::MalformedEnvelope {
                expected_key: match expected_key {
                    Some(k) => Some(k@),
                    None => None,
                },
            },
            Error::ServerError { message } => ErrorModel::ServerError { message: message@ },
            Error::MissingField { path } => ErrorModel::MissingField { path: path@ },
            Error::TypeMismatch { path } => ErrorModel::TypeMismatch { path: path@ },
            Error::UnknownRatingAlias { value } => ErrorModel::UnknownRatingAlias {
                value: value@,
            },
            Error::TransportFailure { message } => ErrorModel::TransportFailure {
                message: message@,
            },
        }
    }
}

} // verus!
