use json2rust::{evolve_rust_types, evolve_rust_types_with_options, EvolutionOptions};

#[test]
fn test_basic_evolution() {
    let existing_rust = r#"
            struct User {
                name: String,
                age: i32,
            }
        "#;

    let json_data = r#"{"name": "John", "age": 30, "email": "john@example.com"}"#;

    let result = evolve_rust_types(existing_rust, json_data, "User", false);
    assert!(result.is_ok());

    let evolved_code = result.unwrap();
    assert!(evolved_code.contains("struct User"));
    assert!(evolved_code.contains("email"));
}

#[test]
fn test_empty_existing_code() {
    let json_data = r#"{"name": "John", "age": 30}"#;

    let result = evolve_rust_types("", json_data, "User", false);
    assert!(result.is_ok());

    let evolved_code = result.unwrap();
    assert!(evolved_code.contains("struct User"));
    assert!(evolved_code.contains("name"));
    assert!(evolved_code.contains("age"));
}

#[test]
fn test_invalid_json() {
    let existing_rust = "struct User { name: String }";
    let invalid_json = r#"{"name": "John", "age":}"#;

    let result = evolve_rust_types(existing_rust, invalid_json, "User", false);
    assert!(result.is_err());
}

#[test]
fn test_with_options() {
    let options = EvolutionOptions { verbose: false, preserve_original_types: true };

    let result = evolve_rust_types_with_options(
        "struct User { name: String }",
        r#"{"name": "John", "email": "john@example.com"}"#,
        "User",
        options,
    );

    assert!(result.is_ok());
}
