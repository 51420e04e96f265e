//! Verifier-side core of a decentralized-identity presentation exchange:
//! a presentation definition states what proofs a verifier requires, and
//! this crate checks a holder's submission against it, field by field.

mod credential_format;
mod error;
mod input_descriptor;
mod json_path;
mod json_schema_validation;
mod json_value;
mod laws;
mod pattern;
mod presentation_definition;
mod presentation_submission;
mod response;

pub use credential_format::{ClaimFormatDesignation, ClaimFormatMap, ClaimFormatPayload};
pub use error::Error;
pub use input_descriptor::{
    spec_descriptor_ok, spec_field_ok, spec_first_resolved_from, spec_format_ok, Constraints,
    ConstraintsField, ConstraintsLimitDisclosure, InputDescriptor, Predicate,
};
pub use json_path::{
    resolve_path, seg_views, spec_parse_path, spec_resolve_path, spec_walk, PathSegment,
    SpecPathSegment,
};
pub use json_schema_validation::{
    spec_array_ok, spec_bounds_ok, spec_integer_ok, spec_is_multiple_of, spec_no_numeric_bounds,
    spec_number_ok, spec_object_ok, spec_required_ok, spec_schema_eq, spec_schema_ok,
    spec_string_ok, SchemaType, SchemaValidator, ValidationError,
};
pub use json_value::JsonValue;
pub use laws::{
    lemma_array_max_length_inclusive, lemma_missing_required_rejected,
    lemma_number_unbounded_accepts, lemma_object_required_only, lemma_string_min_length_strict,
    lemma_validation_idempotent,
};
pub use pattern::{regex_matches, regex_valid};
pub use presentation_definition::{
    spec_response_accepted, spec_submission_ok, PresentationDefinition,
};
pub use presentation_submission::{DescriptorMap, PresentationSubmission};
pub use response::{spec_decoded_presentation, AuthorizationResponse, UnencodedAuthorizationResponse};
