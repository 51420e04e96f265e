use oid4vp::{JsonValue, SchemaType, SchemaValidator, ValidationError};

fn s(text: &str) -> JsonValue {
    JsonValue::String(text.to_string())
}

fn obj(members: Vec<(&str, JsonValue)>) -> JsonValue {
    JsonValue::Object(members.into_iter().map(|(k, v)| (k.to_string(), v)).collect())
}

#[test]
fn required_property_missing_fails() {
    let schema = SchemaValidator::new(SchemaType::Object).add_required("a".to_string());
    let empty = obj(vec![]);
    match schema.validate(&empty) {
        Err(ValidationError::MissingRequiredProperty { name }) => assert_eq!(name, "a"),
        other => panic!("expected a missing-required-property error, got {:?}", other),
    }
    let with_a = obj(vec![("a", JsonValue::Int(1))]);
    assert!(schema.validate(&with_a).is_ok());
}

#[test]
fn string_min_length_is_strict() {
    let schema = SchemaValidator::new(SchemaType::String).set_min_length(5);
    assert!(matches!(
        schema.validate(&s("abcde")),
        Err(ValidationError::StringTooShort { len: 5, min: 5 })
    ));
    assert!(schema.validate(&s("abcdef")).is_ok());
}

#[test]
fn string_max_length_is_strict() {
    let schema = SchemaValidator::new(SchemaType::String).set_max_length(5);
    assert!(matches!(
        schema.validate(&s("abcde")),
        Err(ValidationError::StringTooLong { len: 5, max: 5 })
    ));
    assert!(schema.validate(&s("abcd")).is_ok());
}

#[test]
fn array_max_length_is_inclusive() {
    let schema = SchemaValidator::new(SchemaType::Array).set_max_length(3);
    let three = JsonValue::Array(vec![JsonValue::Int(1), JsonValue::Int(2), JsonValue::Int(3)]);
    assert!(schema.validate(&three).is_ok());
    let four = JsonValue::Array(vec![
        JsonValue::Int(1),
        JsonValue::Int(2),
        JsonValue::Int(3),
        JsonValue::Int(4),
    ]);
    assert!(matches!(
        schema.validate(&four),
        Err(ValidationError::ArrayTooLong { len: 4, max: 3 })
    ));
}

#[test]
fn array_min_length_is_inclusive() {
    let schema = SchemaValidator::new(SchemaType::Array).set_min_length(2);
    let two = JsonValue::Array(vec![JsonValue::Null, JsonValue::Null]);
    assert!(schema.validate(&two).is_ok());
    let one = JsonValue::Array(vec![JsonValue::Null]);
    assert!(matches!(
        schema.validate(&one),
        Err(ValidationError::ArrayTooShort { len: 1, min: 2 })
    ));
}

#[test]
fn array_item_failure_carries_index() {
    let schema = SchemaValidator::new(SchemaType::Array)
        .set_items(Box::new(SchemaValidator::new(SchemaType::String)));
    let value = JsonValue::Array(vec![s("ok"), JsonValue::Int(3)]);
    match schema.validate(&value) {
        Err(ValidationError::ItemError { index, cause }) => {
            assert_eq!(index, 1);
            assert!(matches!(*cause, ValidationError::ExpectedString));
        }
        other => panic!("expected an item error, got {:?}", other),
    }
}

#[test]
fn pattern_matches_value() {
    let schema = SchemaValidator::new(SchemaType::String).set_pattern("did:key:.*".to_string());
    assert!(schema.validate(&s("did:key:z6MkhaXgBZDvotDk")).is_ok());
    assert!(matches!(
        schema.validate(&s("did:web:example.org")),
        Err(ValidationError::PatternMismatch)
    ));
}

#[test]
fn invalid_pattern_is_rejected() {
    let schema = SchemaValidator::new(SchemaType::String).set_pattern("[".to_string());
    assert!(matches!(
        schema.validate(&s("anything")),
        Err(ValidationError::InvalidPattern)
    ));
}

#[test]
fn integer_minimum_is_strict() {
    let schema = SchemaValidator::new(SchemaType::Integer).set_minimum(5);
    assert!(matches!(
        schema.validate(&JsonValue::Int(5)),
        Err(ValidationError::BelowMinimum { value: 5, bound: 5 })
    ));
    assert!(schema.validate(&JsonValue::Int(6)).is_ok());
}

#[test]
fn integer_maximum_is_strict() {
    let schema = SchemaValidator::new(SchemaType::Integer).set_maximum(10);
    assert!(matches!(
        schema.validate(&JsonValue::Int(10)),
        Err(ValidationError::AboveMaximum { value: 10, bound: 10 })
    ));
    assert!(schema.validate(&JsonValue::Int(9)).is_ok());
}

#[test]
fn exclusive_bounds_are_strict() {
    let schema = SchemaValidator::new(SchemaType::Integer)
        .set_exclusive_minimum(0)
        .set_exclusive_maximum(100);
    assert!(matches!(
        schema.validate(&JsonValue::Int(0)),
        Err(ValidationError::BelowExclusiveMinimum { value: 0, bound: 0 })
    ));
    assert!(matches!(
        schema.validate(&JsonValue::Int(100)),
        Err(ValidationError::AboveExclusiveMaximum { value: 100, bound: 100 })
    ));
    assert!(schema.validate(&JsonValue::Int(1)).is_ok());
    assert!(schema.validate(&JsonValue::Int(99)).is_ok());
}

#[test]
fn multiple_of_divides() {
    let schema = SchemaValidator::new(SchemaType::Integer).set_multiple_of(3);
    assert!(schema.validate(&JsonValue::Int(9)).is_ok());
    assert!(schema.validate(&JsonValue::Int(0)).is_ok());
    assert!(schema.validate(&JsonValue::Int(-9)).is_ok());
    assert!(matches!(
        schema.validate(&JsonValue::Int(10)),
        Err(ValidationError::NotMultipleOf { value: 10, bound: 3 })
    ));
    assert!(matches!(
        schema.validate(&JsonValue::Int(-10)),
        Err(ValidationError::NotMultipleOf { value: -10, bound: 3 })
    ));
}

#[test]
fn nonpositive_multiple_of_never_satisfied() {
    let schema = SchemaValidator::new(SchemaType::Integer).set_multiple_of(0);
    assert!(matches!(
        schema.validate(&JsonValue::Int(0)),
        Err(ValidationError::NotMultipleOf { value: 0, bound: 0 })
    ));
}

#[test]
fn number_accepts_any_unbounded_number() {
    let schema = SchemaValidator::new(SchemaType::Number);
    assert!(schema.validate(&JsonValue::Int(3)).is_ok());
    assert!(schema.validate(&JsonValue::OtherNumber).is_ok());
    let bounded = SchemaValidator::new(SchemaType::Number).set_minimum(1);
    assert!(matches!(
        bounded.validate(&JsonValue::OtherNumber),
        Err(ValidationError::UnboundedNumber)
    ));
    assert!(bounded.validate(&JsonValue::Int(2)).is_ok());
}

#[test]
fn integer_rejects_number_without_integer_reading() {
    let schema = SchemaValidator::new(SchemaType::Integer);
    assert!(matches!(
        schema.validate(&JsonValue::OtherNumber),
        Err(ValidationError::ExpectedInteger)
    ));
}

#[test]
fn boolean_requires_boolean() {
    let schema = SchemaValidator::new(SchemaType::Boolean);
    assert!(schema.validate(&JsonValue::Bool(true)).is_ok());
    assert!(schema.validate(&JsonValue::Bool(false)).is_ok());
    assert!(matches!(
        schema.validate(&s("true")),
        Err(ValidationError::ExpectedBoolean)
    ));
}

#[test]
fn type_mismatches_are_reported() {
    assert!(matches!(
        SchemaValidator::new(SchemaType::String).validate(&JsonValue::Int(1)),
        Err(ValidationError::ExpectedString)
    ));
    assert!(matches!(
        SchemaValidator::new(SchemaType::Number).validate(&s("1")),
        Err(ValidationError::ExpectedNumber)
    ));
    assert!(matches!(
        SchemaValidator::new(SchemaType::Array).validate(&JsonValue::Null),
        Err(ValidationError::ExpectedArray)
    ));
    assert!(matches!(
        SchemaValidator::new(SchemaType::Object).validate(&JsonValue::Null),
        Err(ValidationError::ExpectedObject)
    ));
}

#[test]
fn property_failure_carries_name() {
    let schema = SchemaValidator::new(SchemaType::Object)
        .add_property("age".to_string(), SchemaValidator::new(SchemaType::Integer));
    let bad = obj(vec![("age", s("old"))]);
    match schema.validate(&bad) {
        Err(ValidationError::PropertyError { name, cause }) => {
            assert_eq!(name, "age");
            assert!(matches!(*cause, ValidationError::ExpectedInteger));
        }
        other => panic!("expected a property error, got {:?}", other),
    }
    let absent = obj(vec![("other", JsonValue::Null)]);
    assert!(schema.validate(&absent).is_ok());
}

#[test]
fn builder_setters_accumulate() {
    let schema = SchemaValidator::new(SchemaType::String)
        .set_schema_type(SchemaType::Integer)
        .set_minimum(1)
        .set_maximum(10)
        .set_multiple_of(2);
    assert!(schema.validate(&JsonValue::Int(4)).is_ok());
    assert!(schema.validate(&JsonValue::Int(3)).is_err());
    assert!(schema.validate(&JsonValue::Int(1)).is_err());
}

#[test]
fn equality_compares_declared_shape() {
    let a = SchemaValidator::new(SchemaType::Object)
        .add_required("a".to_string())
        .add_property("a".to_string(), SchemaValidator::new(SchemaType::Integer).set_minimum(1))
        .set_items(Box::new(SchemaValidator::new(SchemaType::String)));
    let b = SchemaValidator::new(SchemaType::Object)
        .add_required("a".to_string())
        .add_property("a".to_string(), SchemaValidator::new(SchemaType::Integer).set_minimum(1))
        .set_items(Box::new(SchemaValidator::new(SchemaType::String)));
    assert!(a == b);
    let c = SchemaValidator::new(SchemaType::Object)
        .add_required("b".to_string())
        .add_property("a".to_string(), SchemaValidator::new(SchemaType::Integer).set_minimum(1))
        .set_items(Box::new(SchemaValidator::new(SchemaType::String)));
    assert!(a != c);
    let deeper = SchemaValidator::new(SchemaType::Object)
        .add_required("a".to_string())
        .add_property("a".to_string(), SchemaValidator::new(SchemaType::Integer).set_minimum(2))
        .set_items(Box::new(SchemaValidator::new(SchemaType::String)));
    assert!(a != deeper);
}

#[test]
fn equality_ignores_exclusive_bounds_and_divisor() {
    let plain = SchemaValidator::new(SchemaType::Integer).set_minimum(1);
    let adorned = SchemaValidator::new(SchemaType::Integer)
        .set_minimum(1)
        .set_exclusive_minimum(0)
        .set_exclusive_maximum(10)
        .set_multiple_of(2);
    assert!(plain == adorned);
}

#[test]
fn multiple_of_handles_extreme_values() {
    let by_two = SchemaValidator::new(SchemaType::Integer).set_multiple_of(2);
    assert!(by_two.validate(&JsonValue::Int(i64::MIN)).is_ok());
    assert!(by_two.validate(&JsonValue::Int(i64::MIN + 1)).is_err());
    let by_max = SchemaValidator::new(SchemaType::Integer).set_multiple_of(i64::MAX);
    assert!(by_max.validate(&JsonValue::Int(0)).is_ok());
    assert!(by_max.validate(&JsonValue::Int(1)).is_err());
}
