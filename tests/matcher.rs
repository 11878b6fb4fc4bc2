use guardi::contract::TypeDefinition;
use guardi::matcher::{check_fields, validate_response, JsonKind};
use std::collections::HashMap;

#[test]
fn test_detect_extra_fields() {
    let mut fields = HashMap::new();
    fields.insert("id".to_string(), "!string".to_string());
    fields.insert("email".to_string(), "!string".to_string());
    let expected = TypeDefinition { fields };

    let actual: serde_json::Value = serde_json::from_str(
        r#"{"id": "user_1", "email": "test@test.com", "token": "secret_session_token"}"#,
    )
    .unwrap();

    let result = validate_response(&expected, &actual);

    assert!(!result.is_valid);
    assert!(result.errors.iter().any(|e| e.contains("EXTRA FIELD")));
}

#[test]
fn matching_response_is_valid() {
    let mut fields = HashMap::new();
    fields.insert("id".to_string(), "!int".to_string());
    fields.insert("admin".to_string(), "!bool".to_string());
    let expected = TypeDefinition { fields };
    let actual: serde_json::Value = serde_json::from_str(r#"{"id": 7, "admin": false}"#).unwrap();
    let result = validate_response(&expected, &actual);
    assert!(result.is_valid);
    assert!(result.errors.is_empty());
}

#[test]
fn each_violation_is_reported() {
    let expected = vec![
        ("id".to_string(), "!int".to_string()),
        ("email".to_string(), "!string".to_string()),
        ("age".to_string(), "!float".to_string()),
    ];
    let actual = Some(vec![
        ("id".to_string(), JsonKind::Number { float: true }),
        ("age".to_string(), JsonKind::Number { float: false }),
        ("token".to_string(), JsonKind::Str),
    ]);
    let result = check_fields(&expected, &actual);
    assert!(!result.is_valid);
    assert_eq!(
        result.errors,
        vec![
            "TYPE MISMATCH: id".to_string(),
            "MISSING FIELD: email".to_string(),
            "UNKNOWN TYPE: age".to_string(),
            "EXTRA FIELD: token".to_string(),
        ]
    );
}

#[test]
fn non_object_response_is_invalid() {
    let mut fields = HashMap::new();
    fields.insert("id".to_string(), "!int".to_string());
    let expected = TypeDefinition { fields };
    let actual: serde_json::Value = serde_json::from_str("[1, 2]").unwrap();
    let result = validate_response(&expected, &actual);
    assert!(!result.is_valid);
    assert_eq!(result.errors, vec!["NOT AN OBJECT".to_string()]);
}
