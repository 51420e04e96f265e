use oid4vp::{resolve_path, JsonValue};

fn sample_tree() -> JsonValue {
    JsonValue::Object(vec![
        (
            "vp".to_string(),
            JsonValue::Object(vec![
                (
                    "verifiableCredential".to_string(),
                    JsonValue::Array(vec![
                        JsonValue::Object(vec![(
                            "id".to_string(),
                            JsonValue::String("first".to_string()),
                        )]),
                        JsonValue::Object(vec![(
                            "id".to_string(),
                            JsonValue::String("second".to_string()),
                        )]),
                    ]),
                ),
                ("count".to_string(), JsonValue::Int(2)),
            ]),
        ),
        ("iss".to_string(), JsonValue::String("issuer".to_string())),
    ])
}

fn resolve_str(path: &str, v: &JsonValue) -> Option<String> {
    match resolve_path(&path.to_string(), v) {
        Some(JsonValue::String(s)) => Some(s.clone()),
        _ => None,
    }
}

#[test]
fn root_resolves_to_whole_tree() {
    let tree = sample_tree();
    let root = resolve_path(&"$".to_string(), &tree).expect("root should resolve");
    assert!(matches!(root, JsonValue::Object(_)));
}

#[test]
fn member_and_index_steps_resolve() {
    let tree = sample_tree();
    assert_eq!(resolve_str("$.iss", &tree).as_deref(), Some("issuer"));
    assert_eq!(
        resolve_str("$.vp.verifiableCredential[0].id", &tree).as_deref(),
        Some("first")
    );
    assert_eq!(
        resolve_str("$.vp.verifiableCredential[1].id", &tree).as_deref(),
        Some("second")
    );
}

#[test]
fn unresolvable_steps_yield_nothing() {
    let tree = sample_tree();
    assert!(resolve_path(&"$.absent".to_string(), &tree).is_none());
    assert!(resolve_path(&"$.vp.verifiableCredential[2].id".to_string(), &tree).is_none());
    assert!(resolve_path(&"$.iss.deeper".to_string(), &tree).is_none());
    assert!(resolve_path(&"$.vp.verifiableCredential.id".to_string(), &tree).is_none());
}

#[test]
fn malformed_expressions_yield_nothing() {
    let tree = sample_tree();
    assert!(resolve_path(&"".to_string(), &tree).is_none());
    assert!(resolve_path(&"vp.iss".to_string(), &tree).is_none());
    assert!(resolve_path(&"$.".to_string(), &tree).is_none());
    assert!(resolve_path(&"$[x]".to_string(), &tree).is_none());
    assert!(resolve_path(&"$.vp.verifiableCredential[0".to_string(), &tree).is_none());
    assert!(resolve_path(&"$.vp.verifiableCredential[]".to_string(), &tree).is_none());
}

#[test]
fn duplicate_object_keys_last_binding_wins() {
    let tree = JsonValue::Object(vec![
        ("k".to_string(), JsonValue::String("early".to_string())),
        ("k".to_string(), JsonValue::String("late".to_string())),
    ]);
    assert_eq!(resolve_str("$.k", &tree).as_deref(), Some("late"));
}

#[test]
fn index_runs_are_bounded() {
    let tree = sample_tree();
    // nine digits parse and resolve to nothing in a two-element array
    assert!(resolve_path(&"$.vp.verifiableCredential[999999999].id".to_string(), &tree).is_none());
    // a ten-digit run is refused as malformed
    assert!(resolve_path(&"$.vp.verifiableCredential[1000000000].id".to_string(), &tree).is_none());
    assert!(resolve_path(&"$.vp.verifiableCredential[0000000001].id".to_string(), &tree).is_none());
}
