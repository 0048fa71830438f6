use json2rust::convert::{
    convert_json_to_rust, convert_json_to_rust_internal, get_error_message, validate_json,
};
use json2rust::error::EvolutionError;
use json2rust::analyzer::analyze_json;
use json2rust::codegen::{
    extract_fields_from_schema, generate_rust_types_with_strategy, get_singular_name,
};
use json2rust::existing::parse_existing_structs;
use json2rust::evolve_rust_types;
use json2rust::parser::{RustParser, TypeInfo, TypeKind};
use json2rust::preserve::{
    find_struct_end, find_struct_start, generate_code_with_preservation,
    generate_code_with_types,
};
use json2rust::surgery::{CodeSurgeon, TypeReplacement};
use json2rust::types::{Json2RustError, JsonSchema, JsonType, MergeStrategy, RustField, RustStruct};

const SOURCE: &str = "use serde::Serialize;\n\n/// A user.\n#[derive(Debug)]\npub struct User {\n    pub name: String,\n    pub nick: Option<String>,\n}\n\n#[serde(untagged)]\nenum Pet {\n    Cat { lives: u8 },\n    Fish,\n}\n";

fn info(name: &str, span: Option<(usize, usize)>) -> TypeInfo {
    TypeInfo { name: name.to_string(), kind: TypeKind::Struct { fields: vec![] }, span }
}

#[test]
fn declarations_are_read_with_their_places() {
    let mut parser = RustParser::new();
    let types = parser.parse_types(SOURCE).unwrap();
    assert_eq!(types.len(), 2);
    assert_eq!(types[0].name, "User");
    match &types[0].kind {
        TypeKind::Struct { fields } => {
            assert_eq!(fields.len(), 2);
            assert_eq!(fields[0].name, "name");
            assert_eq!(fields[0].field_type, "String");
            assert!(!fields[0].is_optional);
            assert_eq!(fields[1].field_type, "Option < String >");
            assert!(fields[1].is_optional);
        }
        _ => panic!("a record was expected"),
    }
    match &types[1].kind {
        TypeKind::Enum { info } => {
            assert!(info.is_untagged);
            assert_eq!(info.variants.len(), 2);
            assert_eq!(info.variants[0].fields.as_ref().unwrap()[0].name, "lives");
            assert!(info.variants[1].fields.is_none());
        }
        _ => panic!("a union was expected"),
    }
    let start = SOURCE.find("/// A user.").unwrap() - 1;
    let end = SOURCE.find("}\n\n").unwrap() + 2;
    assert_eq!(types[0].span, Some((start, end)));
    assert_eq!(parser.find_type_span("User", true), Some((start, end)));
    assert_eq!(parser.find_type_span("Nothing", true), None);
    let pet = SOURCE.find("#[serde(untagged)]").unwrap() - 1;
    assert_eq!(parser.find_type_span("Pet", false), Some((pet, SOURCE.len())));
}

#[test]
fn blank_source_declares_nothing() {
    let mut parser = RustParser::new();
    assert!(parser.find_type_span("User", true).is_none());
    assert!(parser.parse_types("  \n").unwrap().is_empty());
    assert!(matches!(
        parser.parse_types("struct {"),
        Err(EvolutionError::InvalidSource { .. })
    ));
}

#[test]
fn errors_say_what_failed() {
    match evolve_rust_types("", "{", "User", false) {
        Err(e) => {
            assert!(matches!(e, EvolutionError::InvalidJson { .. }));
            assert!(e.message().starts_with("JSON parsing error: "));
        }
        Ok(_) => panic!("an error was expected"),
    }
    match evolve_rust_types("struct User {", "{}", "User", false) {
        Err(e) => {
            assert!(matches!(e, EvolutionError::InvalidSource { .. }));
            assert!(e.message().starts_with("Rust parsing error: "));
        }
        Ok(_) => panic!("an error was expected"),
    }
    assert_eq!(
        EvolutionError::OverlappingDefinitions.message(),
        "Overlapping type definitions detected"
    );
    assert_eq!(Json2RustError::Io("gone".to_string()).message(), "IO error: gone");
    assert!(matches!(analyze_json("[1,", "X"), Err(Json2RustError::JsonParsing(_))));
    assert!(matches!(parse_existing_structs("fn ("), Err(Json2RustError::RustParsing(_))));
    let schema = JsonSchema { name: "X".to_string(), json_type: JsonType::Number, optional: false };
    assert_eq!(
        extract_fields_from_schema(&schema),
        Err(Json2RustError::CodeGeneration("Schema is not an object".to_string()))
    );
    assert!(matches!(find_struct_start("enum A {}", "A"), Err(Json2RustError::CodeGeneration(_))));
    assert!(matches!(find_struct_end("struct A {", 0), Err(Json2RustError::CodeGeneration(_))));
}

#[test]
fn evolved_source_keeps_the_other_declarations() {
    let json = r#"{"name": "John", "nick": "J", "email": "john@example.com"}"#;
    let evolved = evolve_rust_types(SOURCE, json, "User", false).unwrap();
    assert!(evolved.starts_with(
        "#[derive(Debug, Clone, serde::Serialize, serde::Deserialize)]\n\
         pub struct UserExtra {\n    pub nick: String,\n    pub email: Option<String>,\n}\n\n"
    ));
    assert!(evolved.contains(
        "pub struct User {\n    pub name: String,\n    #[serde(flatten)]\n    \
         pub extra: Option<UserExtra>,\n}\n"
    ));
    assert!(evolved.ends_with("\n#[serde(untagged)]\nenum Pet {\n    Cat { lives: u8 },\n    Fish,\n}\n\n"));
    assert_eq!(evolved.matches("struct User {").count(), 1);
}

#[test]
fn one_declaration_is_replaced_in_its_whole_stretch() {
    let surgeon = CodeSurgeon::new(SOURCE.to_string());
    assert_eq!(surgeon.original_source(), SOURCE);
    let start = SOURCE.find("pub struct User").unwrap();
    let end = SOURCE.find("}\n\n").unwrap() + 1;
    let replaced = surgeon.replace_type_definition(&info("User", Some((start, end))), "struct U;\n");
    assert_eq!(
        replaced.unwrap(),
        "use serde::Serialize;\nstruct U;\n\n#[serde(untagged)]\nenum Pet {\n    Cat { lives: u8 },\n    Fish,\n}\n"
    );
    assert_eq!(
        surgeon.replace_type_definition(&info("New", None), "struct N;").unwrap(),
        format!("{}\n\nstruct N;", SOURCE)
    );
    assert_eq!(
        surgeon.replace_type_definition(&info("User", Some((5, SOURCE.len() + 1))), ""),
        Err(EvolutionError::SpanOutOfRange)
    );
    assert_eq!(
        surgeon.replace_type_definition(&info("User", Some((7, 5))), ""),
        Err(EvolutionError::SpanOutOfRange)
    );
}

#[test]
fn several_declarations_are_replaced_in_one_pass() {
    let surgeon = CodeSurgeon::new("struct A {}\nfn f() {}\nstruct B {}\nfn g() {}\n".to_string());
    let a = TypeReplacement { type_info: info("A", Some((0, 11))), new_code: "struct A1;\n".to_string() };
    let b = TypeReplacement { type_info: info("B", Some((22, 33))), new_code: "struct B1;\n".to_string() };
    let lost = TypeReplacement { type_info: info("C", None), new_code: "struct C;".to_string() };
    assert_eq!(
        surgeon.replace_multiple_type_definitions(vec![b.clone(), lost, a.clone()]).unwrap(),
        "struct A1;\nfn f() {}\nstruct B1;\nfn g() {}\n"
    );
    assert_eq!(
        surgeon.replace_multiple_type_definitions(vec![]).unwrap(),
        surgeon.original_source()
    );
    let over = TypeReplacement { type_info: info("O", Some((5, 25))), new_code: String::new() };
    assert_eq!(
        surgeon.replace_multiple_type_definitions(vec![a.clone(), over]),
        Err(EvolutionError::OverlappingDefinitions)
    );
    let out = TypeReplacement { type_info: info("O", Some((40, 400))), new_code: String::new() };
    assert_eq!(
        surgeon.replace_multiple_type_definitions(vec![a, out]),
        Err(EvolutionError::SpanOutOfRange)
    );
}

fn plain(name: &str, ty: &str) -> RustField {
    RustField {
        name: name.to_string(),
        field_type: ty.to_string(),
        is_optional: false,
        serde_rename: None,
    }
}

#[test]
fn generated_types_are_written_out() {
    let schema = analyze_json(r#"{"userName": "a", "tags": ["x"], "gone": null}"#, "Login").unwrap();
    let types = generate_rust_types_with_strategy(&schema, &vec![], &MergeStrategy::Optional).unwrap();
    assert_eq!(
        generate_code_with_types(&types).unwrap(),
        "use serde::{Deserialize, Serialize};\n\n\
         #[derive(Debug, Clone, Serialize, Deserialize)]\n\
         pub struct Login {\n    \
         #[serde(skip_serializing_if = \"Option::is_none\")]\n    \
         pub gone: Option<serde_json::Value>,\n    \
         pub tags: Vec<String>,\n    \
         #[serde(rename = \"userName\")]\n    \
         pub user_name: String,\n}\n\n"
    );
    assert_eq!(get_singular_name("Categories"), "Category");
    assert_eq!(get_singular_name("Users"), "User");
    assert_eq!(get_singular_name("Glass"), "GlassItem");
    assert_eq!(get_singular_name("Data"), "DataItem");
}

#[test]
fn declared_record_is_extended_in_its_place() {
    let original = "// kept\nstruct User {\n    name: String,\n    age: i32,\n}\n\nfn keep() {}\n";
    let new_user = RustStruct {
        name: "User".to_string(),
        fields: vec![plain("name", "String"), plain("email", "String")],
        derives: vec![],
        is_optional: false,
    };
    let added = RustStruct {
        name: "Extra".to_string(),
        fields: vec![plain("x", "u8")],
        derives: vec!["Debug".to_string()],
        is_optional: false,
    };
    let code = generate_code_with_preservation(&vec![new_user, added], Some(original)).unwrap();
    assert_eq!(
        code,
        "#[derive(Debug, Clone, Serialize, Deserialize)]\n\
         pub struct User {\n    pub name: String,\n    \
         #[serde(skip_serializing_if = \"Option::is_none\")]\n    pub age: Option<i32>,\n    \
         pub email: String,\n}\n\n\nfn keep() {}\n\n\
         #[derive(Debug)]\npub struct Extra {\n    pub x: u8,\n}\n"
    );
}

#[test]
fn conversion_runs_in_one_step() {
    assert!(validate_json("[1, 2]"));
    assert!(!validate_json("[1, 2"));
    let existing = "struct User {\n    name: String,\n    age: i32,\n    email: String,\n    city: String,\n    zip: String,\n}\n";
    let by_union = convert_json_to_rust_internal(
        r#"{"name": "a", "a": 1, "b": 2, "c": 3, "d": 4}"#,
        existing,
        "User",
        "enum",
    )
    .unwrap();
    assert!(by_union.contains("pub schema_variant: UserVariant,"));
    assert!(by_union.contains("#[serde(untagged)]\npub enum UserVariant {\n    AVariant {"));
    assert!(by_union.contains("    AgeVariant {"));
    let by_optional = convert_json_to_rust(r#"{"name": "a", "age": 1}"#, existing, "User", "other");
    assert!(by_optional.contains("pub email: Option<String>,"));
    assert_eq!(get_error_message(r#"{"name": "a"}"#, existing, "User", "hybrid"), "");
    assert!(convert_json_to_rust("{", "", "User", "optional").starts_with("Error: JSON parsing error: "));
    assert!(get_error_message("{}", "struct {", "User", "optional").starts_with("Rust parsing error: "));
}

#[test]
fn failed_conversion_is_told_by_its_kind() {
    let existing = "struct User {\n    name: String,\n}\n";
    let json = r#"{"name": "a", "age": 1}"#;
    assert_eq!(get_error_message(json, existing, "User", "optional"), "");
    assert_eq!(get_error_message(json, "", "User", "optional"), "");

    let refused_json = get_error_message("{\"name\": ", existing, "User", "optional");
    assert!(refused_json.starts_with("JSON parsing error: "));
    assert!(refused_json.len() > "JSON parsing error: ".len());

    // The JSON text is looked at before the source text.
    let both_refused = get_error_message("[1, 2", "struct {", "User", "optional");
    assert!(both_refused.starts_with("JSON parsing error: "));

    let refused_source = get_error_message(json, "struct User {", "User", "optional");
    assert!(refused_source.starts_with("Rust parsing error: "));

    // Two spaces behind the keyword: the parser reads the record, the search
    // for its declaration in the text finds none.
    let unplaced = "struct  User {\n    name: String,\n}\n";
    assert_eq!(
        get_error_message(json, unplaced, "User", "optional"),
        "Code generation error: Could not find struct User in source"
    );
    assert_eq!(
        convert_json_to_rust(json, unplaced, "User", "optional"),
        "Error: Code generation error: Could not find struct User in source"
    );
    match convert_json_to_rust_internal(json, unplaced, "User", "optional") {
        Err(Json2RustError::CodeGeneration(m)) => {
            assert_eq!(m, "Could not find struct User in source")
        },
        _ => panic!("a declaration that cannot be placed is an error of code generation"),
    }
    match convert_json_to_rust_internal("{", existing, "User", "optional") {
        Err(Json2RustError::JsonParsing(_)) => {},
        _ => panic!("a refused JSON text is an error of the JSON parser"),
    }
    match convert_json_to_rust_internal(json, "fn (", "User", "optional") {
        Err(Json2RustError::RustParsing(_)) => {},
        _ => panic!("a refused source text is an error of the parser of source text"),
    }
}
