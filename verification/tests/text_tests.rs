use json2rust::analyzer::{to_pascal_case, to_snake_case};
use json2rust::cluster::numbered_name;
use json2rust::existing::{extract_option_inner, get_compatible_type};
use json2rust::fields::{sort_by_name, text_before_or_same};
use json2rust::foldback::derive_field_name;
use json2rust::shape::ShapeField;
use json2rust::text::{
    contains, ends_with, is_blank, replace, same_text, starts_with, strip_suffix_repeated, trimmed,
};
use json2rust::typetext::{
    collapse_optional, is_optional, make_optional, normalize_type, types_loosely_compatible,
    types_strictly_compatible, unwrap_option,
};

#[test]
fn texts_are_searched_and_cut() {
    assert!(starts_with("Option<u8>", "Option<"));
    assert!(!starts_with("Opt", "Option<"));
    assert!(ends_with("names", "s"));
    assert!(!ends_with("s", "ss"));
    assert!(contains("pub struct User {", "struct User"));
    assert!(!contains("pub struct User {", "enum User"));
    assert!(contains("abc", ""));
    assert!(same_text("héllo", "héllo"));
    assert!(!same_text("hello", "hellp"));
    assert_eq!(trimmed("  \t a b \r\n"), "a b");
    assert_eq!(trimmed("\u{3000}x\u{a0}"), "x");
    assert!(is_blank(" \n\t"));
    assert!(!is_blank(" . "));
}

#[test]
fn replacing_reads_from_the_left() {
    assert_eq!(replace("aaa", "aa", "b"), "ba");
    assert_eq!(replace("a < b > c", " < ", "<"), "a<b > c");
    assert_eq!(replace("abc", "", "x"), "abc");
    assert_eq!(replace("abc", "abcd", "x"), "abc");
    assert_eq!(strip_suffix_repeated("UserVariantVariant", "Variant"), "User");
    assert_eq!(strip_suffix_repeated("Variant", "Variant"), "");
    assert_eq!(strip_suffix_repeated("User", "Variant"), "User");
}

#[test]
fn numbers_are_written_in_base_ten() {
    assert_eq!(numbered_name("Variant", 0), "Variant0");
    assert_eq!(numbered_name("Variant", 7), "Variant7");
    assert_eq!(numbered_name("Variant", 10), "Variant10");
    assert_eq!(numbered_name("V", 1234567890), "V1234567890");
}

#[test]
fn names_change_their_case() {
    assert_eq!(to_pascal_case(""), "");
    assert_eq!(to_pascal_case("a__b"), "AB");
    assert_eq!(to_pascal_case("hello world"), "HelloWorld");
    assert_eq!(to_pascal_case("straße_ß"), "StraßeSS");
    assert_eq!(to_snake_case("a"), "a");
    assert_eq!(to_snake_case("aB"), "a_b");
    assert_eq!(to_snake_case("a1B"), "a1b");
    assert_eq!(to_snake_case("already_snake"), "already_snake");
    assert_eq!(derive_field_name("UserVariant"), "user");
    assert_eq!(derive_field_name("Contact"), "contact_type");
    assert_eq!(derive_field_name("VARIANTS"), "variants");
}

#[test]
fn optional_wrapper_is_added_once() {
    assert!(is_optional("Option<u8>"));
    assert!(is_optional("Option < u8 >"));
    assert!(!is_optional("Vec<Option<u8>>"));
    assert_eq!(make_optional("u8"), "Option<u8>");
    assert_eq!(make_optional("Option<u8>"), "Option<u8>");
    assert_eq!(make_optional(&make_optional("Vec<Option<u8>>")), "Option<Vec<Option<u8>>>");
    assert_eq!(unwrap_option("Option<u8>"), "u8");
    assert_eq!(unwrap_option("Option < Vec < u8 > >"), "Vec < u8 >");
    assert_eq!(unwrap_option("Option<u8"), "Option<u8");
    assert_eq!(unwrap_option("u8"), "u8");
    assert_eq!(extract_option_inner("Option<i32>"), "i32");
}

#[test]
fn doubled_optional_wrapper_collapses() {
    assert_eq!(collapse_optional("Option<Option<String>>"), "Option<String>");
    assert_eq!(collapse_optional("Option < Option < String > >"), "Option < String >");
    assert_eq!(collapse_optional("Option<String>"), "Option<String>");
    assert_eq!(collapse_optional("String"), "String");
    let once = format!("Option<{}>", "u8");
    let twice = format!("Option<{}>", once);
    assert_eq!(collapse_optional(&twice), once);
}

#[test]
fn types_are_compared_in_two_ways() {
    assert_eq!(normalize_type("Option < Vec < u8 > >"), "Option<Vec<u8>>");
    assert!(types_strictly_compatible("Option < String >", "Option<String>"));
    assert!(types_strictly_compatible("String", "Option<String>"));
    assert!(types_strictly_compatible("Option<Option<u8>>", "u8"));
    assert!(!types_strictly_compatible("String", "i64"));
    assert!(!types_strictly_compatible("Option<u8>", "Option<u16>"));
    assert!(types_loosely_compatible("String", "i64"));
    assert!(types_loosely_compatible("f64", "String"));
    assert!(types_loosely_compatible("u8", "f64"));
    assert!(types_loosely_compatible("Option<i64>", "f64"));
    assert!(!types_loosely_compatible("bool", "f64"));
    assert!(!types_loosely_compatible("String", "i32"));
    assert_eq!(get_compatible_type("i32", "f64"), "i32");
    assert_eq!(get_compatible_type("Option<i32>", "f64"), "Option<i32>");
    assert_eq!(get_compatible_type("String", "Option<String>"), "Option<String>");
    assert_eq!(get_compatible_type("String", "bool"), "bool");
}

#[test]
fn fields_are_ordered_by_name() {
    let f = |n: &str, t: &str| ShapeField {
        name: n.to_string(),
        field_type: t.to_string(),
        is_required: true,
    };
    let sorted = sort_by_name(&vec![f("b", "1"), f("a", "2"), f("b", "3"), f("", "4"), f("ab", "5")]);
    let order: Vec<(&str, &str)> =
        sorted.iter().map(|x| (x.name.as_str(), x.field_type.as_str())).collect();
    assert_eq!(order, vec![("", "4"), ("a", "2"), ("ab", "5"), ("b", "1"), ("b", "3")]);
    assert!(text_before_or_same("a", "ab"));
    assert!(!text_before_or_same("ab", "a"));
    assert!(text_before_or_same("Z", "a"));
    assert!(text_before_or_same("x", "x"));
}
