//! The one error a decode can end with.
use vstd::prelude::*;

verus! {

/// The tagged object whose mapping was being read when a field went wrong.
#[derive(Debug, Clone, Copy, PartialEq, Eq, Structural)]
pub enum Container {
    Specification,
    Version,
    Requirement,
    Dependency,
}

/// What a value in the event stream turned out to be, or was required to be.
#[derive(Debug, Clone, Copy, PartialEq, Eq, Structural)]
pub enum ValueKind {
    Str,
    Int,
    Bool,
    Null,
    Mapping,
    Sequence,
    /// A scalar, sequence or mapping that carries a tag where none is taken.
    Tagged,
    /// Any event that opens no value: an end marker or a framing event.
    Other,
}

/// A failed decode. Exactly one is reported, for the first fault met.
#[derive(Debug, PartialEq, Eq)]
pub enum DecodeError {
    /// The events ran out while more were required.
    UnexpectedEndOfStream,
    /// The events do not frame one document holding one tagged object where
    /// one is required.
    MalformedDocument,
    UnknownField { container: Container, field: String },
    MissingField { container: Container, field: String },
    /// A key that may appear once in its mapping appeared again.
    DuplicateField { container: Container, field: String },
    ScalarCoercionError { expected: ValueKind, got: ValueKind },
    MalformedVersion { text: String },
    UnknownDependencyType { value: String },
    /// The tokenizer stopped with this message before the events were complete.
    UnderlyingParseError { message: String },
}

/// The mathematical value of a [`DecodeError`].
pub enum ErrorModel {
    UnexpectedEndOfStream,
    MalformedDocument,
    UnknownField { container: Container, field: Seq<char> },
    MissingField { container: Container, field: Seq<char> },
    DuplicateField { container: Container, field: Seq<char> },
    ScalarCoercionError { expected: ValueKind, got: ValueKind },
    MalformedVersion { text: Seq<char> },
    UnknownDependencyType { value: Seq<char> },
    UnderlyingParseError { message: Seq<char> },
}

impl View for DecodeError {
    type V = ErrorModel;

    open spec fn view(&self) -> ErrorModel {
        match self {
            DecodeError::UnexpectedEndOfStream => ErrorModel::UnexpectedEndOfStream,
            DecodeError::MalformedDocument => ErrorModel::MalformedDocument,
            DecodeError::UnknownField { container, field } => ErrorModel::UnknownField {
                container: *container,
                field: field@,
            },
            DecodeError::MissingField { container, field } => ErrorModel::MissingField {
                container: *container,
                field: field@,
            },
            DecodeError::DuplicateField { container, field } => ErrorModel::DuplicateField {
                container: *container,
                field: field@,
            },
            DecodeError::ScalarCoercionError { expected, got } => ErrorModel::ScalarCoercionError {
                expected: *expected,
                got: *got,
            },
            DecodeError::MalformedVersion { text } => ErrorModel::MalformedVersion { text: text@ },
            DecodeError::UnknownDependencyType { value } => ErrorModel::UnknownDependencyType {
                value: value@,
            },
            DecodeError::UnderlyingParseError { message } => ErrorModel::UnderlyingParseError {
                message: message@,
            },
        }
    }
}

} // verus!
