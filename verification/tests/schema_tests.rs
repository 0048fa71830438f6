use json2rust::analyzer::analyze_json;
use json2rust::codegen::{ensure_unique_name, extend_existing_struct, generate_rust_structs};
use json2rust::existing::{calculate_struct_similarity, parse_existing_structs};
use json2rust::preserve::generate_code;
use json2rust::types::{
    ExistingStruct, JsonSchema, JsonType, MergeStrategy, RustEnum, RustField, RustStruct,
};

fn get<'a>(fields: &'a [(String, JsonType)], key: &str) -> Option<&'a JsonType> {
    fields.iter().find(|f| f.0 == key).map(|f| &f.1)
}

fn get_text<'a>(fields: &'a [(String, String)], key: &str) -> Option<&'a String> {
    fields.iter().find(|f| f.0 == key).map(|f| &f.1)
}

#[test]
fn test_analyze_simple_object() {
    let json = r#"{"name": "John", "age": 30, "active": true}"#;
    let schema = analyze_json(json, "Person").unwrap();

    assert_eq!(schema.name, "Person");
    if let JsonType::Object(fields) = schema.json_type {
        assert_eq!(fields.len(), 3);
        assert!(matches!(get(&fields, "name"), Some(JsonType::String)));
        assert!(matches!(get(&fields, "age"), Some(JsonType::Number)));
        assert!(matches!(get(&fields, "active"), Some(JsonType::Boolean)));
    } else {
        panic!("Expected object type");
    }
}

#[test]
fn test_analyze_array() {
    let json = r#"[{"id": 1}, {"id": 2}]"#;
    let schema = analyze_json(json, "Items").unwrap();

    assert_eq!(schema.name, "Items");
    if let JsonType::Array(elem_type) = schema.json_type {
        if let JsonType::Object(fields) = *elem_type {
            assert!(matches!(get(&fields, "id"), Some(JsonType::Number)));
        } else {
            panic!("Expected object element type");
        }
    } else {
        panic!("Expected array type");
    }
}

#[test]
fn test_generate_simple_struct() {
    let mut fields = Vec::new();
    fields.push(("name".to_string(), JsonType::String));
    fields.push(("age".to_string(), JsonType::Number));

    let schema = JsonSchema {
        name: "Person".to_string(),
        json_type: JsonType::Object(fields),
        optional: false,
    };

    let structs = generate_rust_structs(&schema, &vec![]).unwrap();
    assert_eq!(structs.len(), 1);
    assert_eq!(structs[0].name, "Person");
    assert_eq!(structs[0].fields.len(), 2);
}

#[test]
fn test_generate_code() {
    let rust_struct = RustStruct {
        name: "Person".to_string(),
        fields: vec![
            RustField {
                name: "name".to_string(),
                field_type: "String".to_string(),
                is_optional: false,
                serde_rename: None,
            },
            RustField {
                name: "age".to_string(),
                field_type: "f64".to_string(),
                is_optional: false,
                serde_rename: None,
            },
        ],
        derives: vec!["Debug".to_string(), "Serialize".to_string(), "Deserialize".to_string()],
        is_optional: false,
    };

    let code = generate_code(&vec![rust_struct]).unwrap();
    assert!(code.contains("pub struct Person"));
    assert!(code.contains("pub name: String"));
    assert!(code.contains("pub age: f64"));
}

#[test]
fn test_ensure_unique_name() {
    let mut generated_names = Vec::new();

    assert_eq!(ensure_unique_name("Person", &mut generated_names), "Person");
    assert_eq!(ensure_unique_name("Person", &mut generated_names), "Person2");
    assert_eq!(ensure_unique_name("Person", &mut generated_names), "Person3");
}

#[test]
fn test_parse_simple_struct() {
    let code = r#"
            struct Person {
                name: String,
                age: i32,
            }
        "#;

    let structs = parse_existing_structs(code).unwrap();
    assert_eq!(structs.len(), 1);
    assert_eq!(structs[0].name, "Person");
    assert_eq!(get_text(&structs[0].fields, "name"), Some(&"String".to_string()));
    assert_eq!(get_text(&structs[0].fields, "age"), Some(&"i32".to_string()));
}

#[test]
fn test_calculate_struct_similarity() {
    let existing = ExistingStruct {
        name: "Person".to_string(),
        fields: vec![
            ("name".to_string(), "String".to_string()),
            ("age".to_string(), "i32".to_string()),
        ],
    };

    let new_fields = vec![
        RustField {
            name: "name".to_string(),
            field_type: "String".to_string(),
            is_optional: false,
            serde_rename: None,
        },
        RustField {
            name: "age".to_string(),
            field_type: "i32".to_string(),
            is_optional: false,
            serde_rename: None,
        },
    ];

    let similarity = calculate_struct_similarity(&existing, &new_fields);
    assert!(similarity > 700);
    assert_eq!(similarity, 750);
}

#[test]
fn test_extend_struct_with_new_fields() {
    let existing_code = r#"
            struct User {
                name: String,
                age: i32,
            }
        "#;

    let json = r#"{"name": "John", "age": 30, "email": "john@example.com"}"#;

    let existing_structs = parse_existing_structs(existing_code).unwrap();
    let schema = analyze_json(json, "User").unwrap();
    let rust_structs = generate_rust_structs(&schema, &existing_structs).unwrap();

    assert_eq!(rust_structs.len(), 1);
    let user_struct = &rust_structs[0];
    assert_eq!(user_struct.name, "User");
    assert_eq!(user_struct.fields.len(), 3);

    let name_field = user_struct.fields.iter().find(|f| f.name == "name").unwrap();
    assert_eq!(name_field.field_type, "String");

    let age_field = user_struct.fields.iter().find(|f| f.name == "age").unwrap();
    assert_eq!(age_field.field_type, "i32");

    let email_field = user_struct.fields.iter().find(|f| f.name == "email").unwrap();
    assert_eq!(email_field.field_type, "String");
}

#[test]
fn test_extend_struct_with_missing_fields() {
    let existing_code = r#"
            struct User {
                name: String,
                age: i32,
                email: String,
            }
        "#;

    let json = r#"{"name": "John", "age": 30}"#;

    let existing_structs = parse_existing_structs(existing_code).unwrap();
    let schema = analyze_json(json, "User").unwrap();
    let rust_structs = generate_rust_structs(&schema, &existing_structs).unwrap();

    assert_eq!(rust_structs.len(), 1);
    let user_struct = &rust_structs[0];
    assert_eq!(user_struct.name, "User");
    assert_eq!(user_struct.fields.len(), 3);

    let email_field = user_struct.fields.iter().find(|f| f.name == "email").unwrap();
    assert_eq!(email_field.field_type, "Option<String>");
    assert!(email_field.is_optional);
}

#[test]
fn test_numeric_type_preservation() {
    let existing_code = r#"
            struct Stats {
                count: u32,
                average: f32,
                total: i64,
            }
        "#;

    let json = r#"{"count": 10, "average": 5.5, "total": 1000}"#;

    let existing_structs = parse_existing_structs(existing_code).unwrap();
    let schema = analyze_json(json, "Stats").unwrap();
    let rust_structs = generate_rust_structs(&schema, &existing_structs).unwrap();

    assert_eq!(rust_structs.len(), 1);
    let stats_struct = &rust_structs[0];

    let count_field = stats_struct.fields.iter().find(|f| f.name == "count").unwrap();
    assert_eq!(count_field.field_type, "u32");

    let average_field = stats_struct.fields.iter().find(|f| f.name == "average").unwrap();
    assert_eq!(average_field.field_type, "f32");

    let total_field = stats_struct.fields.iter().find(|f| f.name == "total").unwrap();
    assert_eq!(total_field.field_type, "i64");
}

#[test]
fn test_option_type_handling() {
    let existing_code = r#"
            struct Profile {
                name: String,
                bio: Option<String>,
                age: Option<i32>,
            }
        "#;

    let json = r#"{"name": "Alice", "bio": "Developer", "location": "NYC"}"#;

    let existing_structs = parse_existing_structs(existing_code).unwrap();
    let schema = analyze_json(json, "Profile").unwrap();
    let rust_structs = generate_rust_structs(&schema, &existing_structs).unwrap();

    assert_eq!(rust_structs.len(), 1);
    let profile_struct = &rust_structs[0];

    let bio_field = profile_struct.fields.iter().find(|f| f.name == "bio").unwrap();
    assert_eq!(bio_field.field_type, "Option<String>");

    let age_field = profile_struct.fields.iter().find(|f| f.name == "age").unwrap();
    assert_eq!(age_field.field_type, "Option<i32>");

    let location_field = profile_struct.fields.iter().find(|f| f.name == "location").unwrap();
    assert_eq!(location_field.field_type, "String");
}

#[test]
fn test_low_similarity_creates_new_struct() {
    let existing_code = r#"
            struct User {
                name: String,
                age: i32,
            }
        "#;

    let json = r#"{"product_id": 123, "price": 29.99, "category": "electronics"}"#;

    let existing_structs = parse_existing_structs(existing_code).unwrap();
    let schema = analyze_json(json, "Product").unwrap();
    let rust_structs = generate_rust_structs(&schema, &existing_structs).unwrap();

    assert_eq!(rust_structs.len(), 1);
    let product_struct = &rust_structs[0];
    assert_eq!(product_struct.name, "Product");
    assert_eq!(product_struct.fields.len(), 3);
}

#[test]
fn test_array_with_existing_item_struct() {
    let existing_code = r#"
            struct Item {
                id: u32,
                name: String,
            }
        "#;

    let json = r#"[{"id": 1, "name": "Apple", "price": 1.99}, {"id": 2, "name": "Banana", "price": 0.59}]"#;

    let existing_structs = parse_existing_structs(existing_code).unwrap();
    let schema = analyze_json(json, "Items").unwrap();
    let rust_structs = generate_rust_structs(&schema, &existing_structs).unwrap();

    assert_eq!(rust_structs.len(), 2);

    let item_struct = rust_structs.iter().find(|s| s.name == "Item").unwrap();
    assert_eq!(item_struct.fields.len(), 3);

    let id_field = item_struct.fields.iter().find(|f| f.name == "id").unwrap();
    assert_eq!(id_field.field_type, "u32");

    let name_field = item_struct.fields.iter().find(|f| f.name == "name").unwrap();
    assert_eq!(name_field.field_type, "String");

    let price_field = item_struct.fields.iter().find(|f| f.name == "price").unwrap();
    assert_eq!(price_field.field_type, "f64");
}

#[test]
fn hybrid_strategy_makes_a_union_for_more_than_three_fields() {
    let existing = ExistingStruct {
        name: "User".to_string(),
        fields: vec![
            ("name".to_string(), "String".to_string()),
            ("age".to_string(), "i32".to_string()),
            ("city".to_string(), "String".to_string()),
        ],
    };
    let plain = |n: &str| RustField {
        name: n.to_string(),
        field_type: "String".to_string(),
        is_optional: false,
        serde_rename: None,
    };
    let mut enums: Vec<RustEnum> = Vec::new();
    let three = extend_existing_struct(
        &existing,
        vec![plain("name"), plain("email")],
        &mut enums,
        &MergeStrategy::Hybrid,
    );
    assert!(enums.is_empty());
    let types: Vec<(&str, &str)> =
        three.fields.iter().map(|f| (f.name.as_str(), f.field_type.as_str())).collect();
    assert_eq!(
        types,
        vec![
            ("name", "String"),
            ("age", "Option<i32>"),
            ("city", "Option<String>"),
            ("email", "String")
        ]
    );
    let four = extend_existing_struct(
        &existing,
        vec![plain("name"), plain("email"), plain("phone")],
        &mut enums,
        &MergeStrategy::Hybrid,
    );
    assert_eq!(four.fields.len(), 2);
    assert_eq!(four.fields[1].name, "schema_variant");
    assert_eq!(four.fields[1].field_type, "UserVariant");
    assert_eq!(enums.len(), 1);
    assert_eq!(enums[0].name, "UserVariant");
    assert_eq!(enums[0].variants.len(), 2);
    assert_eq!(enums[0].variants[0].name, "EmailVariant");
    assert_eq!(enums[0].variants[0].fields[0].field_type, "Option<String>");
    assert_eq!(enums[0].variants[1].name, "AgeVariant");
    let again = extend_existing_struct(
        &existing,
        vec![plain("name"), plain("fax")],
        &mut enums,
        &MergeStrategy::Enum,
    );
    assert_eq!(again.fields.len(), 2);
    assert_eq!(enums.len(), 1);
}
