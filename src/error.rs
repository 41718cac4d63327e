use vstd::prelude::*;

use crate::graphson::ErrorModel;

verus! {

/// Why a JSON tree does not decode.
#[derive(Debug, PartialEq, Eq)]
pub enum DecodeError {
    /// A node of another kind than the position expects.
    ShapeMismatch,
    /// An envelope whose `@type` is not a known tag.
    UnknownTag(String),
    /// An object with only one of `@type` and `@value`, with other keys
    /// beside them, or with a `@type` that is not a string.
    MalformedEnvelope,
    /// A number outside an envelope.
    UntypedNumber,
    /// An object that is not an envelope, where a value is expected.
    UntypedObject,
    /// An array outside an envelope, where a value is expected.
    UntypedArray,
    /// A well-shaped payload with an invalid content.
    InvalidPayload,
    /// A required field is absent from the payload of `owner`.
    MissingField { field: String, owner: String },
    /// A decoded value of another variant than the position expects.
    Downcast,
}

impl DecodeError {
    pub open spec fn model(&self) -> ErrorModel {
        match self {
            DecodeError::ShapeMismatch => ErrorModel::ShapeMismatch,
            DecodeError::UnknownTag(t) => ErrorModel::UnknownTag(t@),
            DecodeError::MalformedEnvelope => ErrorModel::MalformedEnvelope,
            DecodeError::UntypedNumber => ErrorModel::UntypedNumber,
            DecodeError::UntypedObject => ErrorModel::UntypedObject,
            DecodeError::UntypedArray => ErrorModel::UntypedArray,
            DecodeError::InvalidPayload => ErrorModel::InvalidPayload,
            DecodeError::MissingField { field, owner } => ErrorModel::MissingField(field@, owner@),
            DecodeError::Downcast => ErrorModel::Downcast,
        }
    }
}

} // verus!
