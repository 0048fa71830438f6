use json2rust::analyzer::{to_pascal_case, to_snake_case};
use json2rust::existing::are_types_compatible;
use json2rust::types::MergeStrategy;

#[test]
fn test_to_pascal_case() {
    assert_eq!(to_pascal_case("first_name"), "FirstName");
    assert_eq!(to_pascal_case("user-id"), "UserId");
    assert_eq!(to_pascal_case("API_KEY"), "ApiKey");
}

#[test]
fn test_to_snake_case() {
    assert_eq!(to_snake_case("FirstName"), "first_name");
    assert_eq!(to_snake_case("UserId"), "user_id");
    assert_eq!(to_snake_case("APIKey"), "apikey");
}

#[test]
fn test_are_types_compatible() {
    assert!(are_types_compatible("String", "String"));
    assert!(are_types_compatible("Option<String>", "String"));
    assert!(are_types_compatible("String", "Option<String>"));
    assert!(are_types_compatible("String", "i64"));
    assert!(!are_types_compatible("bool", "String"));
}

#[test]
fn strategies_are_named_by_words() {
    assert_eq!(MergeStrategy::from("optional"), MergeStrategy::Optional);
    assert_eq!(MergeStrategy::from("enum"), MergeStrategy::Enum);
    assert_eq!(MergeStrategy::from("hybrid"), MergeStrategy::Hybrid);
    assert_eq!(MergeStrategy::from("anything"), MergeStrategy::Optional);
    assert_eq!(MergeStrategy::from_name("hybrid"), MergeStrategy::Hybrid);
}
