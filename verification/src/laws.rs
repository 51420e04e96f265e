//! The library-wide laws: what holds of the schema validator's per-type
//! boundary semantics and of response validation as a whole, proved once
//! over all inputs.

use vstd::prelude::*;

use crate::error::Error;
use crate::json_schema_validation::{
    spec_no_numeric_bounds, spec_required_ok, spec_schema_ok, SchemaType, SchemaValidator,
};
use crate::json_value::JsonValue;
use crate::presentation_definition::{spec_response_accepted, PresentationDefinition};
use crate::response::AuthorizationResponse;

verus! {

/// An Object-typed schema rejects any object that lacks one of its
/// required property names, whatever else the schema declares.
pub proof fn lemma_missing_required_rejected(s: SchemaValidator, v: JsonValue, name: String)
    requires
        s.schema_type == SchemaType::Object,
        s.required@.contains(name),
        v is Object,
        !JsonValue::spec_obj_has_key(v->Object_0@, name@),
    ensures
        !spec_schema_ok(s, v),
{
    let i = choose|i: int| 0 <= i < s.required@.len() && s.required@[i] == name;
    assert(!JsonValue::spec_obj_has_key(v->Object_0@, s.required@[i]@));
}

/// An Object-typed schema that declares no child validators accepts
/// exactly the objects that hold every required property name.
pub proof fn lemma_object_required_only(s: SchemaValidator, v: JsonValue)
    requires
        s.schema_type == SchemaType::Object,
        s.properties@.len() == 0,
        v is Object,
    ensures
        spec_schema_ok(s, v) <==> spec_required_ok(s.required@, v->Object_0@),
{
}

/// A String-typed schema with only a lower length bound accepts a string
/// exactly when its character count strictly exceeds the bound: a string
/// of exactly `min_length` characters is rejected.
pub proof fn lemma_string_min_length_strict(s: SchemaValidator, v: JsonValue)
    requires
        s.schema_type == SchemaType::String,
        s.min_length is Some,
        s.max_length is None,
        s.pattern is None,
        v is String,
    ensures
        spec_schema_ok(s, v) <==> v->String_0@.len() > s.min_length->0,
{
}

/// An Array-typed schema with only an upper length bound accepts an array
/// exactly when its element count is at most the bound: the bound is
/// inclusive, in contrast with the strict String length bounds.
pub proof fn lemma_array_max_length_inclusive(s: SchemaValidator, v: JsonValue)
    requires
        s.schema_type == SchemaType::Array,
        s.max_length is Some,
        s.min_length is None,
        s.items is None,
        v is Array,
    ensures
        spec_schema_ok(s, v) <==> v->Array_0@.len() <= s.max_length->0,
{
}

/// A Number-typed schema without numeric bounds accepts every JSON
/// number, whether or not it carries a 64-bit-integer reading.
pub proof fn lemma_number_unbounded_accepts(s: SchemaValidator, v: JsonValue)
    requires
        s.schema_type == SchemaType::Number,
        spec_no_numeric_bounds(s),
        v is Int || v is OtherNumber,
    ensures
        spec_schema_ok(s, v),
{
}

/// Validation is idempotent: whether a response is accepted is a pure
/// function of the definition and the response, so any two validation
/// results for the same inputs agree on acceptance.
pub proof fn lemma_validation_idempotent(
    def: PresentationDefinition,
    resp: AuthorizationResponse,
    r1: Result<(), Error>,
    r2: Result<(), Error>,
)
    requires
        r1 is Ok <==> spec_response_accepted(def, resp),
        r2 is Ok <==> spec_response_accepted(def, resp),
    ensures
        r1 is Ok <==> r2 is Ok,
{
}

} // verus!
