//! A recursive, type-tagged validator for a JSON-Schema-like constraint
//! document against a JSON value: the engine behind a constraint field's
//! filter.
//!
//! Numeric bounds are carried as 64-bit signed integers, and a string's
//! length is measured in characters. The four bounds `minimum`, `maximum`,
//! `exclusive_minimum` and `exclusive_maximum` are all strict, and a string's
//! `min_length`/`max_length` are strict as well, while an array's
//! `min_length`/`max_length` are inclusive: a deliberate per-type asymmetry.

use vstd::arithmetic::div_mod::{
    lemma_fundamental_div_mod, lemma_mod_multiples_vanish, lemma_small_mod,
};
use vstd::prelude::*;
use vstd::string::StrSliceExecFns;

use crate::json_value::JsonValue;
use crate::pattern::{regex_match, regex_matches, regex_valid};

verus! {

/// The declared type of a schema: which family of JSON values it accepts.
#[derive(Debug, Clone, Copy, PartialEq, Eq, Structural)]
pub enum SchemaType {
    String,
    Number,
    Integer,
    Boolean,
    Array,
    Object,
}

/// Why a value failed a schema check; nested failures carry a breadcrumb
/// (array index or property name) toward the offending part.
#[derive(Debug)]
pub enum ValidationError {
    ExpectedString,
    ExpectedNumber,
    ExpectedInteger,
    ExpectedBoolean,
    ExpectedArray,
    ExpectedObject,
    StringTooShort { len: usize, min: usize },
    StringTooLong { len: usize, max: usize },
    /// The schema's pattern is not a valid regular expression.
    InvalidPattern,
    PatternMismatch,
    BelowMinimum { value: i64, bound: i64 },
    AboveMaximum { value: i64, bound: i64 },
    BelowExclusiveMinimum { value: i64, bound: i64 },
    AboveExclusiveMaximum { value: i64, bound: i64 },
    NotMultipleOf { value: i64, bound: i64 },
    /// A numeric bound is declared but the number carries no 64-bit reading.
    UnboundedNumber,
    ArrayTooShort { len: usize, min: usize },
    ArrayTooLong { len: usize, max: usize },
    ItemError { index: usize, cause: Box<ValidationError> },
    MissingRequiredProperty { name: String },
    PropertyError { name: String, cause: Box<ValidationError> },
}

/// A JSON-Schema-like descriptor used to evaluate the value a constraint
/// field's path resolves to, covering the schema keywords that
/// presentation-exchange constraint filters use.
#[derive(Debug)]
pub struct SchemaValidator {
    pub schema_type: SchemaType,
    pub min_length: Option<usize>,
    pub max_length: Option<usize>,
    pub pattern: Option<String>,
    pub minimum: Option<i64>,
    pub maximum: Option<i64>,
    pub exclusive_minimum: Option<i64>,
    pub exclusive_maximum: Option<i64>,
    pub multiple_of: Option<i64>,
    pub required: Vec<String>,
    pub properties: Vec<(String, SchemaValidator)>,
    pub items: Option<Box<SchemaValidator>>,
}

/// When two schema validators count as equal: the same type tag, length
/// bounds, pattern, plain bounds, required names, child validators and item
/// validator. The exclusive bounds and the divisor take no part, a
/// deliberate narrowing of the comparison.
pub open spec fn spec_schema_eq(a: SchemaValidator, b: SchemaValidator) -> bool
    decreases a,
{
    &&& a.schema_type == b.schema_type
    &&& a.min_length == b.min_length
    &&& a.max_length == b.max_length
    &&& match (a.pattern, b.pattern) {
        (Some(x), Some(y)) => x@ == y@,
        (None, None) => true,
        _ => false,
    }
    &&& a.minimum == b.minimum
    &&& a.maximum == b.maximum
    &&& a.required@.len() == b.required@.len()
    &&& (forall|i: int|
        0 <= i < a.required@.len() ==> (#[trigger] a.required@[i])@ == b.required@[i]@)
    &&& a.properties@.len() == b.properties@.len()
    &&& (forall|i: int|
        0 <= i < a.properties@.len() ==> (#[trigger] a.properties@[i]).0@ == b.properties@[i].0@
            && spec_schema_eq(a.properties@[i].1, b.properties@[i].1))
    &&& match (a.items, b.items) {
        (Some(x), Some(y)) => spec_schema_eq(*x, *y),
        (None, None) => true,
        _ => false,
    }
}

/// Whether `n` is a multiple of `m`: divisibility, with a non-positive `m`
/// never satisfied.
pub open spec fn spec_is_multiple_of(n: int, m: int) -> bool {
    m > 0 && n % m == 0
}

/// The strict numeric bounds and divisibility checks shared by the Number
/// and Integer schema types.
pub open spec fn spec_bounds_ok(s: SchemaValidator, n: int) -> bool {
    &&& (s.minimum is Some ==> n > s.minimum->0)
    &&& (s.maximum is Some ==> n < s.maximum->0)
    &&& (s.exclusive_minimum is Some ==> n > s.exclusive_minimum->0)
    &&& (s.exclusive_maximum is Some ==> n < s.exclusive_maximum->0)
    &&& (s.multiple_of is Some ==> spec_is_multiple_of(n, s.multiple_of->0 as int))
}

/// Whether the schema declares no numeric bound at all.
pub open spec fn spec_no_numeric_bounds(s: SchemaValidator) -> bool {
    &&& s.minimum is None
    &&& s.maximum is None
    &&& s.exclusive_minimum is None
    &&& s.exclusive_maximum is None
    &&& s.multiple_of is None
}

/// What a String-typed schema accepts: a string whose character count is
/// strictly within the declared bounds and which matches the declared
/// pattern, the pattern itself being a valid regular expression.
pub open spec fn spec_string_ok(s: SchemaValidator, v: JsonValue) -> bool {
    &&& v is String
    &&& (s.min_length is Some ==> v->String_0@.len() > s.min_length->0)
    &&& (s.max_length is Some ==> v->String_0@.len() < s.max_length->0)
    &&& (s.pattern is Some ==> regex_valid(s.pattern->0@) && regex_matches(
        s.pattern->0@,
        v->String_0@,
    ))
}

/// What a Number-typed schema accepts: any JSON number; one without a
/// 64-bit-integer reading passes only a schema that declares no numeric
/// bound, since no bound can be checked against it.
pub open spec fn spec_number_ok(s: SchemaValidator, v: JsonValue) -> bool {
    match v {
        JsonValue::Int(n) => spec_bounds_ok(s, n as int),
        JsonValue::OtherNumber => spec_no_numeric_bounds(s),
        _ => false,
    }
}

/// What an Integer-typed schema accepts: a number with a 64-bit-integer
/// reading, within the declared bounds.
pub open spec fn spec_integer_ok(s: SchemaValidator, v: JsonValue) -> bool {
    match v {
        JsonValue::Int(n) => spec_bounds_ok(s, n as int),
        _ => false,
    }
}

/// Whether every name in `req` is a key of the object `obj`.
pub open spec fn spec_required_ok(req: Seq<String>, obj: Seq<(String, JsonValue)>) -> bool {
    forall|i: int| 0 <= i < req.len() ==> JsonValue::spec_obj_has_key(obj, (#[trigger] req[i])@)
}

/// What an Array-typed schema accepts: an array whose element count lies
/// within the inclusive bounds and whose every element the item validator
/// accepts, when one is declared.
pub open spec fn spec_array_ok(s: SchemaValidator, v: JsonValue) -> bool
    decreases s, 0int,
{
    &&& v is Array
    &&& (s.min_length is Some ==> v->Array_0@.len() >= s.min_length->0)
    &&& (s.max_length is Some ==> v->Array_0@.len() <= s.max_length->0)
    &&& (s.items is Some ==> forall|i: int|
        0 <= i < v->Array_0@.len() ==> spec_schema_ok(*s.items->0, #[trigger] v->Array_0@[i]))
}

/// What an Object-typed schema accepts: an object holding every required
/// name, each declared child validator accepting the correspondingly named
/// property when that property is present.
pub open spec fn spec_object_ok(s: SchemaValidator, v: JsonValue) -> bool
    decreases s, 0int,
{
    &&& v is Object
    &&& spec_required_ok(s.required@, v->Object_0@)
    &&& (forall|i: int|
        0 <= i < s.properties@.len() ==> match JsonValue::spec_obj_get(
            v->Object_0@,
            (#[trigger] s.properties@[i]).0@,
        ) {
            Some(pv) => spec_schema_ok(s.properties@[i].1, pv),
            None => true,
        })
}

/// What a schema accepts, by its declared type.
pub open spec fn spec_schema_ok(s: SchemaValidator, v: JsonValue) -> bool
    decreases s, 1int,
{
    match s.schema_type {
        SchemaType::String => spec_string_ok(s, v),
        SchemaType::Number => spec_number_ok(s, v),
        SchemaType::Integer => spec_integer_ok(s, v),
        SchemaType::Boolean => v is Bool,
        SchemaType::Array => spec_array_ok(s, v),
        SchemaType::Object => spec_object_ok(s, v),
    }
}

/// Divisibility by a positive modulus is unchanged by negation.
proof fn lemma_mod_zero_negation(a: int, m: int)
    requires
        m > 0,
    ensures
        ((-a) % m == 0) <==> (a % m == 0),
{
    lemma_fundamental_div_mod(a, m);
    lemma_fundamental_div_mod(-a, m);
    if a % m == 0 {
        assert(-a == m * (-(a / m))) by (nonlinear_arith)
            requires
                a == m * (a / m),
        ;
        lemma_mod_multiples_vanish(-(a / m), 0, m);
        lemma_small_mod(0nat, m as nat);
    }
    if (-a) % m == 0 {
        assert(a == m * (-((-a) / m))) by (nonlinear_arith)
            requires
                -a == m * ((-a) / m),
        ;
        lemma_mod_multiples_vanish(-((-a) / m), 0, m);
        lemma_small_mod(0nat, m as nat);
    }
}

/// Compares two schema validators as `spec_schema_eq` counts them equal.
#[verifier::loop_isolation(false)]
fn schema_eq(a: &SchemaValidator, b: &SchemaValidator) -> (r: bool)
    ensures
        r == spec_schema_eq(*a, *b),
    decreases *a,
{
    let type_eq: bool = match (a.schema_type, b.schema_type) {
        (SchemaType::String, SchemaType::String) => true,
        (SchemaType::Number, SchemaType::Number) => true,
        (SchemaType::Integer, SchemaType::Integer) => true,
        (SchemaType::Boolean, SchemaType::Boolean) => true,
        (SchemaType::Array, SchemaType::Array) => true,
        (SchemaType::Object, SchemaType::Object) => true,
        _ => false,
    };
    if !type_eq {
        return false;
    }
    let scalars_eq: bool = {
        &&& match (a.min_length, b.min_length) {
            (Some(x), Some(y)) => x == y,
            (None, None) => true,
            _ => false,
        }
        &&& match (a.max_length, b.max_length) {
            (Some(x), Some(y)) => x == y,
            (None, None) => true,
            _ => false,
        }
        &&& match (&a.pattern, &b.pattern) {
            (Some(x), Some(y)) => x.eq(y),
            (None, None) => true,
            _ => false,
        }
        &&& match (a.minimum, b.minimum) {
            (Some(x), Some(y)) => x == y,
            (None, None) => true,
            _ => false,
        }
        &&& match (a.maximum, b.maximum) {
            (Some(x), Some(y)) => x == y,
            (None, None) => true,
            _ => false,
        }
    };
    if !scalars_eq {
        return false;
    }
    if a.required.len() != b.required.len() {
        return false;
    }
    let mut i: usize = 0;
    while i < a.required.len()
        invariant
            i <= a.required@.len(),
            forall|j: int| 0 <= j < i ==> (#[trigger] a.required@[j])@ == b.required@[j]@,
        decreases a.required@.len() - i,
    {
        if !a.required[i].eq(&b.required[i]) {
            return false;
        }
        i = i + 1;
    }
    if a.properties.len() != b.properties.len() {
        return false;
    }
    let mut p: usize = 0;
    while p < a.properties.len()
        invariant
            p <= a.properties@.len(),
            forall|j: int|
                0 <= j < p ==> (#[trigger] a.properties@[j]).0@ == b.properties@[j].0@
                    && spec_schema_eq(a.properties@[j].1, b.properties@[j].1),
        decreases a.properties@.len() - p,
    {
        if !a.properties[p].0.eq(&b.properties[p].0) {
            return false;
        }
        if !schema_eq(&a.properties[p].1, &b.properties[p].1) {
            return false;
        }
        p = p + 1;
    }
    match (&a.items, &b.items) {
        (Some(x), Some(y)) => schema_eq(x, y),
        (None, None) => true,
        _ => false,
    }
}

impl PartialEq for SchemaValidator {
    /// Whether two schemas are equal as `spec_schema_eq` counts them: the
    /// exclusive bounds and the divisor take no part.
    fn eq(&self, other: &Self) -> (r: bool) {
        schema_eq(self, other)
    }
}

impl Eq for SchemaValidator {

}

impl vstd::std_specs::cmp::PartialEqSpecImpl for SchemaValidator {
    open spec fn obeys_eq_spec() -> bool {
        true
    }

    open spec fn eq_spec(&self, other: &Self) -> bool {
        spec_schema_eq(*self, *other)
    }
}

impl SchemaValidator {
    /// Creates a new schema validator of the given schema type, with no
    /// bounds, no pattern, no required names, no child validators and no
    /// item validator.
    pub fn new(schema_type: SchemaType) -> (r: Self)
        ensures
            r == (SchemaValidator {
                schema_type,
                min_length: None,
                max_length: None,
                pattern: None,
                minimum: None,
                maximum: None,
                exclusive_minimum: None,
                exclusive_maximum: None,
                multiple_of: None,
                required: r.required,
                properties: r.properties,
                items: None,
            }),
            r.required@ =~= Seq::<String>::empty(),
            r.properties@ =~= Seq::<(String, SchemaValidator)>::empty(),
    {
        Self {
            schema_type,
            min_length: None,
            max_length: None,
            pattern: None,
            minimum: None,
            maximum: None,
            exclusive_minimum: None,
            exclusive_maximum: None,
            multiple_of: None,
            required: Vec::new(),
            properties: Vec::new(),
            items: None,
        }
    }

    pub fn set_schema_type(self, schema_type: SchemaType) -> (r: Self)
        ensures
            r == (SchemaValidator { schema_type, ..self }),
    {
        Self { schema_type: schema_type, ..self }
    }

    pub fn set_min_length(self, min_length: usize) -> (r: Self)
        ensures
            r == (SchemaValidator { min_length: Some(min_length), ..self }),
    {
        Self { min_length: Some(min_length), ..self }
    }

    pub fn set_max_length(self, max_length: usize) -> (r: Self)
        ensures
            r == (SchemaValidator { max_length: Some(max_length), ..self }),
    {
        Self { max_length: Some(max_length), ..self }
    }

    pub fn set_pattern(self, pattern: String) -> (r: Self)
        ensures
            r == (SchemaValidator { pattern: Some(pattern), ..self }),
    {
        Self { pattern: Some(pattern), ..self }
    }

    pub fn set_minimum(self, minimum: i64) -> (r: Self)
        ensures
            r == (SchemaValidator { minimum: Some(minimum), ..self }),
    {
        Self { minimum: Some(minimum), ..self }
    }

    pub fn set_maximum(self, maximum: i64) -> (r: Self)
        ensures
            r == (SchemaValidator { maximum: Some(maximum), ..self }),
    {
        Self { maximum: Some(maximum), ..self }
    }

    pub fn set_exclusive_minimum(self, exclusive_minimum: i64) -> (r: Self)
        ensures
            r == (SchemaValidator { exclusive_minimum: Some(exclusive_minimum), ..self }),
    {
        Self { exclusive_minimum: Some(exclusive_minimum), ..self }
    }

    pub fn set_exclusive_maximum(self, exclusive_maximum: i64) -> (r: Self)
        ensures
            r == (SchemaValidator { exclusive_maximum: Some(exclusive_maximum), ..self }),
    {
        Self { exclusive_maximum: Some(exclusive_maximum), ..self }
    }

    pub fn set_multiple_of(self, multiple_of: i64) -> (r: Self)
        ensures
            r == (SchemaValidator { multiple_of: Some(multiple_of), ..self }),
    {
        Self { multiple_of: Some(multiple_of), ..self }
    }

    pub fn add_required(self, required: String) -> (r: Self)
        ensures
            r.required@ == self.required@.push(required),
            r == (SchemaValidator { required: r.required, ..self }),
    {
        let mut s = self;
        s.required.push(required);
        s
    }

    pub fn add_property(self, key: String, value: SchemaValidator) -> (r: Self)
        ensures
            r.properties@ == self.properties@.push((key, value)),
            r == (SchemaValidator { properties: r.properties, ..self }),
    {
        let mut s = self;
        s.properties.push((key, value));
        s
    }

    pub fn set_items(self, items: Box<SchemaValidator>) -> (r: Self)
        ensures
            r == (SchemaValidator { items: Some(items), ..self }),
    {
        Self { items: Some(items), ..self }
    }

    /// Checks `value` against this schema, dispatching on the declared type.
    pub fn validate(&self, value: &JsonValue) -> (r: Result<(), ValidationError>)
        ensures
            r is Ok <==> spec_schema_ok(*self, *value),
            self.schema_type == SchemaType::String && !(*value is String) ==> r == Err::<
                (),
                ValidationError,
            >(ValidationError::ExpectedString),
            self.schema_type == SchemaType::Number && !(*value is Int || *value is OtherNumber)
                ==> r == Err::<(), ValidationError>(ValidationError::ExpectedNumber),
            self.schema_type == SchemaType::Integer && !(*value is Int) ==> r == Err::<
                (),
                ValidationError,
            >(ValidationError::ExpectedInteger),
            self.schema_type == SchemaType::Boolean && !(*value is Bool) ==> r == Err::<
                (),
                ValidationError,
            >(ValidationError::ExpectedBoolean),
            self.schema_type == SchemaType::Array && !(*value is Array) ==> r == Err::<
                (),
                ValidationError,
            >(ValidationError::ExpectedArray),
            self.schema_type == SchemaType::Object && !(*value is Object) ==> r == Err::<
                (),
                ValidationError,
            >(ValidationError::ExpectedObject),
        decreases *self, 1int,
    {
        match self.schema_type {
            SchemaType::String => self.validate_string(value),
            SchemaType::Number => self.validate_number(value),
            SchemaType::Integer => self.validate_integer(value),
            SchemaType::Boolean => self.validate_boolean(value),
            SchemaType::Array => self.validate_array(value),
            SchemaType::Object => self.validate_object(value),
        }
    }

    /// Checks a string: character count strictly above `min_length`,
    /// strictly below `max_length`, and matching the declared pattern.
    pub fn validate_string(&self, value: &JsonValue) -> (r: Result<(), ValidationError>)
        ensures
            r is Ok <==> spec_string_ok(*self, *value),
            !(*value is String) ==> r == Err::<(), ValidationError>(ValidationError::ExpectedString),
    {
        let s: &String = match value {
            JsonValue::String(s) => s,
            _ => { return Err(ValidationError::ExpectedString) },
        };

        let len: usize = s.as_str().unicode_len();

        if let Some(min_length) = self.min_length {
            if len <= min_length {
                return Err(ValidationError::StringTooShort { len, min: min_length });
            }
        }

        if let Some(max_length) = self.max_length {
            if len >= max_length {
                return Err(ValidationError::StringTooLong { len, max: max_length });
            }
        }

        if let Some(pattern) = &self.pattern {
            match regex_match(pattern, s) {
                None => { return Err(ValidationError::InvalidPattern) },
                Some(false) => { return Err(ValidationError::PatternMismatch) },
                Some(true) => {},
            }
        }

        Ok(())
    }

    /// Checks the shared strict numeric bounds against the integer reading
    /// `n` of a number.
    fn check_bounds(&self, n: i64) -> (r: Result<(), ValidationError>)
        ensures
            r is Ok <==> spec_bounds_ok(*self, n as int),
    {
        if let Some(minimum) = self.minimum {
            if n <= minimum {
                return Err(ValidationError::BelowMinimum { value: n, bound: minimum });
            }
        }

        if let Some(maximum) = self.maximum {
            if n >= maximum {
                return Err(ValidationError::AboveMaximum { value: n, bound: maximum });
            }
        }

        if let Some(exclusive_minimum) = self.exclusive_minimum {
            if n <= exclusive_minimum {
                return Err(ValidationError::BelowExclusiveMinimum {
                    value: n,
                    bound: exclusive_minimum,
                });
            }
        }

        if let Some(exclusive_maximum) = self.exclusive_maximum {
            if n >= exclusive_maximum {
                return Err(ValidationError::AboveExclusiveMaximum {
                    value: n,
                    bound: exclusive_maximum,
                });
            }
        }

        if let Some(multiple_of) = self.multiple_of {
            if multiple_of <= 0 {
                return Err(ValidationError::NotMultipleOf { value: n, bound: multiple_of });
            }
            let a: u64 = if n >= 0 {
                n as u64
            } else {
                (-(n as i128)) as u64
            };
            proof {
                if n < 0 {
                    lemma_mod_zero_negation(a as int, multiple_of as int);
                }
            }
            if a % (multiple_of as u64) != 0 {
                return Err(ValidationError::NotMultipleOf { value: n, bound: multiple_of });
            }
        }

        Ok(())
    }

    /// Checks a number: any JSON number is the right type, and one with a
    /// 64-bit-integer reading is held to the strict bounds; one without such
    /// a reading passes only when no numeric bound is declared.
    pub fn validate_number(&self, value: &JsonValue) -> (r: Result<(), ValidationError>)
        ensures
            r is Ok <==> spec_number_ok(*self, *value),
            !(*value is Int || *value is OtherNumber) ==> r == Err::<(), ValidationError>(
                ValidationError::ExpectedNumber,
            ),
    {
        match value {
            JsonValue::Int(n) => self.check_bounds(*n),
            JsonValue::OtherNumber => {
                if self.minimum.is_some() || self.maximum.is_some()
                    || self.exclusive_minimum.is_some() || self.exclusive_maximum.is_some()
                    || self.multiple_of.is_some() {
                    Err(ValidationError::UnboundedNumber)
                } else {
                    Ok(())
                }
            },
            _ => Err(ValidationError::ExpectedNumber),
        }
    }

    /// Checks an integer: the value must carry a 64-bit-integer reading and
    /// meet the strict bounds.
    pub fn validate_integer(&self, value: &JsonValue) -> (r: Result<(), ValidationError>)
        ensures
            r is Ok <==> spec_integer_ok(*self, *value),
            !(*value is Int) ==> r == Err::<(), ValidationError>(ValidationError::ExpectedInteger),
    {
        match value {
            JsonValue::Int(n) => self.check_bounds(*n),
            _ => Err(ValidationError::ExpectedInteger),
        }
    }

    /// Checks a boolean: the value must be a boolean literal.
    pub fn validate_boolean(&self, value: &JsonValue) -> (r: Result<(), ValidationError>)
        ensures
            r is Ok <==> *value is Bool,
            !(*value is Bool) ==> r == Err::<(), ValidationError>(ValidationError::ExpectedBoolean),
    {
        match value {
            JsonValue::Bool(_) => Ok(()),
            _ => Err(ValidationError::ExpectedBoolean),
        }
    }

    /// Checks an array: element count within the inclusive bounds, and every
    /// element accepted by the item validator when one is declared; a failing
    /// element is reported under its index.
    #[verifier::loop_isolation(false)]
    pub fn validate_array(&self, value: &JsonValue) -> (r: Result<(), ValidationError>)
        ensures
            r is Ok <==> spec_array_ok(*self, *value),
            !(*value is Array) ==> r == Err::<(), ValidationError>(ValidationError::ExpectedArray),
            (*value is Array && (self.min_length is Some ==> value->Array_0@.len()
                >= self.min_length->0) && (self.max_length is Some ==> value->Array_0@.len()
                <= self.max_length->0) && !spec_array_ok(*self, *value)) ==> (r matches Err(e)
                && e matches ValidationError::ItemError { index, cause } && self.items is Some
                && index < value->Array_0@.len() && !spec_schema_ok(
                *self.items->0,
                value->Array_0@[index as int],
            ) && (forall|j: int|
                0 <= j < index ==> spec_schema_ok(*self.items->0, #[trigger] value->Array_0@[j]))),
        decreases *self, 0int,
    {
        let arr: &Vec<JsonValue> = match value {
            JsonValue::Array(arr) => arr,
            _ => { return Err(ValidationError::ExpectedArray) },
        };

        if let Some(min_length) = self.min_length {
            if arr.len() < min_length {
                return Err(ValidationError::ArrayTooShort { len: arr.len(), min: min_length });
            }
        }

        if let Some(max_length) = self.max_length {
            if arr.len() > max_length {
                return Err(ValidationError::ArrayTooLong { len: arr.len(), max: max_length });
            }
        }

        if let Some(item_validator) = &self.items {
            let mut index: usize = 0;
            while index < arr.len()
                invariant
                    index <= arr@.len(),
                    self.items is Some,
                    *item_validator == *self.items->0,
                    forall|j: int|
                        0 <= j < index ==> spec_schema_ok(*self.items->0, #[trigger] arr@[j]),
                decreases arr@.len() - index,
            {
                if let Err(cause) = item_validator.validate(&arr[index]) {
                    proof {
                        assert(!spec_schema_ok(*self.items->0, arr@[index as int]));
                    }
                    return Err(ValidationError::ItemError { index, cause: Box::new(cause) });
                }
                index = index + 1;
            }
        }

        Ok(())
    }

    /// Checks an object: every required name present, and every declared
    /// child validator accepted by the correspondingly named property when
    /// that property is present; a failing property is reported under its
    /// name.
    #[verifier::loop_isolation(false)]
    pub fn validate_object(&self, value: &JsonValue) -> (r: Result<(), ValidationError>)
        ensures
            r is Ok <==> spec_object_ok(*self, *value),
            !(*value is Object) ==> r == Err::<(), ValidationError>(ValidationError::ExpectedObject),
            *value is Object && !spec_required_ok(self.required@, value->Object_0@) ==> (r matches Err(
                e,
            ) && e matches ValidationError::MissingRequiredProperty { name } && self.required@.contains(
                name,
            ) && !JsonValue::spec_obj_has_key(value->Object_0@, name@)),
            (*value is Object && spec_required_ok(self.required@, value->Object_0@)
                && !spec_object_ok(*self, *value)) ==> (r matches Err(e)
                && e matches ValidationError::PropertyError { name, cause } && exists|i: int|
                0 <= i < self.properties@.len() && (#[trigger] self.properties@[i]).0@ == name@
                    && match JsonValue::spec_obj_get(value->Object_0@, name@) {
                    Some(pv) => !spec_schema_ok(self.properties@[i].1, pv),
                    None => false,
                }),
        decreases *self, 0int,
    {
        let obj: &Vec<(String, JsonValue)> = match value {
            JsonValue::Object(obj) => obj,
            _ => { return Err(ValidationError::ExpectedObject) },
        };

        let mut i: usize = 0;
        while i < self.required.len()
            invariant
                i <= self.required@.len(),
                forall|j: int|
                    0 <= j < i ==> JsonValue::spec_obj_has_key(obj@, (#[trigger] self.required@[j])@),
            decreases self.required@.len() - i,
        {
            proof {
                JsonValue::lemma_obj_get_has_key(obj@, self.required@[i as int]@);
            }
            if JsonValue::obj_get(obj, &self.required[i]).is_none() {
                proof {
                    assert(!JsonValue::spec_obj_has_key(obj@, self.required@[i as int]@));
                    assert(!spec_required_ok(self.required@, obj@));
                }
                proof {
                    assert(self.required@.contains(self.required@[i as int]));
                }
                return Err(ValidationError::MissingRequiredProperty {
                    name: self.required[i].clone(),
                });
            }
            i = i + 1;
        }

        let mut p: usize = 0;
        while p < self.properties.len()
            invariant
                p <= self.properties@.len(),
                spec_required_ok(self.required@, obj@),
                forall|j: int|
                    0 <= j < p ==> match JsonValue::spec_obj_get(
                        obj@,
                        (#[trigger] self.properties@[j]).0@,
                    ) {
                        Some(pv) => spec_schema_ok(self.properties@[j].1, pv),
                        None => true,
                    },
            decreases self.properties@.len() - p,
        {
            if let Some(prop_value) = JsonValue::obj_get(obj, &self.properties[p].0) {
                if let Err(cause) = self.properties[p].1.validate(prop_value) {
                    proof {
                        let j = p as int;
                        assert(JsonValue::spec_obj_get(obj@, self.properties@[j].0@) == Some(
                            *prop_value,
                        ));
                        assert(!spec_schema_ok(self.properties@[j].1, *prop_value));
                        assert(!spec_object_ok(*self, *value));
                    }
                    return Err(ValidationError::PropertyError {
                        name: self.properties[p].0.clone(),
                        cause: Box::new(cause),
                    });
                }
            }
            p = p + 1;
        }

        Ok(())
    }
}

} // verus!
