//! The authorization response boundary: the holder's reply, either an
//! encoded (signed-envelope) variant or an unencoded variant carrying the
//! presentation token and the submission; and the decoding of a token into
//! the claims tree, supplied by the ssi-claims crate behind a trusted
//! boundary.

use vstd::prelude::*;

use crate::json_value::JsonValue;
use crate::presentation_submission::PresentationSubmission;

verus! {

/// The unencoded response variant: the serialized presentation token and
/// the holder's submission.
#[derive(Debug)]
pub struct UnencodedAuthorizationResponse {
    pub vp_token: String,
    pub presentation_submission: PresentationSubmission,
}

impl UnencodedAuthorizationResponse {
    /// Creates an unencoded response from a presentation token and a
    /// submission.
    pub fn new(vp_token: String, presentation_submission: PresentationSubmission) -> (r: Self)
        ensures
            r == (UnencodedAuthorizationResponse { vp_token, presentation_submission }),
    {
        Self { vp_token, presentation_submission }
    }

    /// The serialized presentation token.
    pub fn vp_token(&self) -> (r: &String)
        ensures
            r == self.vp_token,
    {
        &self.vp_token
    }

    /// The holder's submission.
    pub fn presentation_submission(&self) -> (r: &PresentationSubmission)
        ensures
            r == self.presentation_submission,
    {
        &self.presentation_submission
    }
}

/// A holder's authorization response: an encoded signed envelope, or the
/// unencoded variant the core consumes.
#[derive(Debug)]
pub enum AuthorizationResponse {
    Jwt(String),
    Unencoded(UnencodedAuthorizationResponse),
}

#[verifier::external_type_specification]
#[verifier::external_body]
pub struct ExSerdeJsonValue(serde_json::Value);

/// The claims tree a presentation token decodes to, or nothing when the
/// token is malformed; a function of the token text alone.
pub uninterp spec fn spec_decoded_presentation(jwt: Seq<char>) -> Option<JsonValue>;

/// Relies on serde_json::Value's variants: turns a parsed JSON tree into
/// the library's value type, one arm per variant, a number read through
/// serde_json::Number::as_i64.
#[verifier::external_body]
fn json_value_of(v: &serde_json::Value) -> JsonValue {
    match v {
        serde_json::Value::Null => JsonValue::Null,
        serde_json::Value::Bool(b) => JsonValue::Bool(*b),
        serde_json::Value::Number(n) => n.as_i64().map_or(JsonValue::OtherNumber, JsonValue::Int),
        serde_json::Value::String(s) => JsonValue::String(s.clone()),
        serde_json::Value::Array(a) => JsonValue::Array(a.iter().map(json_value_of).collect()),
        serde_json::Value::Object(o) => JsonValue::Object(
            o.iter().map(|(k, x)| (k.clone(), json_value_of(x))).collect(),
        ),
    }
}

/// Relies on ssi_claims::jwt::decode_unverified: splits the compact JWS,
/// base64url-decodes its payload and parses the claim set as JSON, without
/// verifying the signature; the result depends on the token text alone.
#[verifier::external_body]
pub(crate) fn decode_presentation(jwt: &String) -> (r: Option<JsonValue>)
    ensures
        r == spec_decoded_presentation(jwt@),
{
    match ssi_claims::jwt::decode_unverified::<serde_json::Value>(jwt) {
        Ok(v) => Some(json_value_of(&v)),
        Err(_) => None,
    }
}

} // verus!
