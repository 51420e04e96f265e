//! The errors a submission validation can end in, layered as the checks
//! unwind: structure, format negotiation, then per-field constraints.

use vstd::prelude::*;

use crate::json_schema_validation::ValidationError;

verus! {

/// Why a submission failed validation against a presentation definition.
#[derive(Debug)]
pub enum Error {
    /// The response came in an encoded envelope, which is not supported.
    UnsupportedResponseEncoding,
    /// The embedded presentation token could not be decoded.
    PresentationDecodeFailed,
    /// The submission names a different definition id than the definition's.
    DefinitionIdMismatch,
    /// No descriptor-map entry carries this input descriptor's id.
    MissingDescriptor { id: String },
    /// The entry's asserted claim format is not among the descriptor's
    /// accepted formats.
    FormatMismatch { descriptor_id: String },
    /// A constraint field with a required predicate resolved to no value.
    FieldNotFound { descriptor_id: String },
    /// A resolved claim value failed the field's filter schema.
    FilterFailed { descriptor_id: String, cause: ValidationError },
    /// The descriptor demands limited disclosure, but the presentation
    /// asserts claims beyond those its constraint fields name.
    LimitDisclosureViolation { descriptor_id: String },
}

} // verus!
