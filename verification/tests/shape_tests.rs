use json2rust::cluster::{can_merge_shapes, count_field_differences, optimize_variants};
use json2rust::common::{find_common, remove_common};
use json2rust::evolution::ApiEvolution;
use json2rust::foldback::check_enum_compatibility;
use json2rust::generator::EvolutionResult;
use json2rust::json::{JsonNumber, JsonValue};
use json2rust::optimizer::{ShapeOptimizer, ShapeVariant, TraceEvent};
use json2rust::parser::{EnumInfo, FieldInfo, TypeInfo, TypeKind, VariantInfo};
use json2rust::shape::{Shape, ShapeExpander, ShapeField, ShapeMetadata};

fn field(name: &str, ty: &str) -> ShapeField {
    ShapeField { name: name.to_string(), field_type: ty.to_string(), is_required: true }
}

fn shape(fields: Vec<ShapeField>) -> Shape {
    Shape { fields, metadata: ShapeMetadata::new() }
}

fn declared(name: &str, ty: &str, optional: bool) -> FieldInfo {
    FieldInfo { name: name.to_string(), field_type: ty.to_string(), is_optional: optional }
}

fn record(name: &str, fields: Vec<FieldInfo>) -> TypeInfo {
    TypeInfo { name: name.to_string(), kind: TypeKind::Struct { fields }, span: None }
}

fn union(name: &str, variants: Vec<VariantInfo>, untagged: bool) -> TypeInfo {
    TypeInfo {
        name: name.to_string(),
        kind: TypeKind::Enum { info: EnumInfo { variants, is_untagged: untagged } },
        span: None,
    }
}

fn variant(name: &str, fields: Option<Vec<FieldInfo>>) -> VariantInfo {
    VariantInfo { name: name.to_string(), fields }
}

fn names(fields: &[ShapeField]) -> Vec<&str> {
    fields.iter().map(|f| f.name.as_str()).collect()
}

fn text(s: &str) -> JsonValue {
    JsonValue::String(s.to_string())
}

fn integer() -> JsonValue {
    JsonValue::Number(JsonNumber { is_i64: true, is_u64: true })
}

fn object(entries: Vec<(&str, JsonValue)>) -> JsonValue {
    JsonValue::Object(entries.into_iter().map(|e| (e.0.to_string(), e.1)).collect())
}

#[test]
fn single_shape_gives_simple_record() {
    let shapes = vec![shape(vec![field("name", "String"), field("age", "Number")])];
    let optimizer = ShapeOptimizer::new(false);
    match optimizer.optimize_shapes(&shapes, "Target") {
        EvolutionResult::SimpleStruct { name, fields } => {
            assert_eq!(name, "Target");
            assert_eq!(fields, vec![field("name", "String"), field("age", "Number")]);
        }
        _ => panic!("a record was expected"),
    }
}

#[test]
fn no_shape_gives_empty_record() {
    let optimizer = ShapeOptimizer::new(false);
    match optimizer.optimize_shapes(&vec![], "Empty") {
        EvolutionResult::SimpleStruct { name, fields } => {
            assert_eq!(name, "Empty");
            assert!(fields.is_empty());
        }
        _ => panic!("a record was expected"),
    }
}

#[test]
fn optional_fields_expand_into_every_subset() {
    let expander = ShapeExpander::new();
    let fields = vec![
        declared("id", "u32", false),
        declared("nick", "Option < String >", true),
        declared("bio", "Option<String>", true),
    ];
    let shapes = expander.expand_struct_shapes(&fields);
    assert_eq!(shapes.len(), 4);
    assert_eq!(names(&shapes[0].fields), vec!["id"]);
    assert_eq!(names(&shapes[1].fields), vec!["id", "nick"]);
    assert_eq!(names(&shapes[2].fields), vec!["id", "bio"]);
    assert_eq!(names(&shapes[3].fields), vec!["id", "nick", "bio"]);
    assert_eq!(shapes[3].fields[1], field("nick", "String"));
    assert_eq!(shapes[3].fields[2], field("bio", "String"));
    for i in 0..shapes.len() {
        for j in (i + 1)..shapes.len() {
            assert_ne!(shapes[i], shapes[j]);
        }
    }
}

#[test]
fn record_without_optional_fields_has_one_shape() {
    let expander = ShapeExpander::new();
    let shapes = expander.expand_struct_shapes(&vec![declared("a", "u8", false)]);
    assert_eq!(shapes, vec![shape(vec![field("a", "u8")])]);
}

#[test]
fn tagged_union_gets_a_discriminator() {
    let expander = ShapeExpander::new();
    let info = union(
        "Event",
        vec![
            variant("Click", Some(vec![declared("x", "i32", false)])),
            variant("Close", None),
        ],
        false,
    );
    let shapes = expander.expand_type(&info, false);
    assert_eq!(shapes.len(), 2);
    assert_eq!(shapes[0].fields, vec![field("tag", "\"Click\""), field("x", "i32")]);
    assert_eq!(shapes[1].fields, vec![field("tag", "\"Close\"")]);
}

#[test]
fn untagged_union_skips_unit_variants() {
    let expander = ShapeExpander::new();
    let info = union(
        "Contact",
        vec![
            variant("Mail", Some(vec![declared("email", "String", false)])),
            variant("Nothing", None),
        ],
        true,
    );
    let shapes = expander.expand_type(&info, false);
    assert_eq!(shapes, vec![shape(vec![field("email", "String")])]);
}

#[test]
fn untagged_union_field_is_inlined() {
    let contact = union(
        "Contact",
        vec![
            variant("Mail", Some(vec![declared("email", "String", false)])),
            variant("Phone", Some(vec![declared("phone", "String", false)])),
        ],
        true,
    );
    let mut expander = ShapeExpander::new();
    expander.set_known_types(vec![contact]);
    let shapes = expander.expand_struct_shapes(&vec![
        declared("id", "u32", false),
        declared("contact", "Contact", false),
    ]);
    assert_eq!(shapes.len(), 2);
    assert_eq!(shapes[0].fields, vec![field("id", "u32"), field("email", "String")]);
    assert_eq!(shapes[1].fields, vec![field("id", "u32"), field("phone", "String")]);
    assert_eq!(
        shapes[0].metadata,
        ShapeMetadata::with_enum_field("contact".to_string(), "Contact".to_string())
    );
}

#[test]
fn union_that_names_itself_is_not_inlined_without_end() {
    let node = union(
        "Node",
        vec![variant("Inner", Some(vec![declared("next", "Node", false)]))],
        true,
    );
    let mut expander = ShapeExpander::new();
    expander.set_known_types(vec![node]);
    let shapes = expander.expand_struct_shapes(&vec![declared("root", "Node", false)]);
    assert_eq!(shapes.len(), 1);
    assert_eq!(shapes[0].fields, vec![field("next", "Node")]);
}

#[test]
fn common_fields_prefer_the_more_specific_type() {
    let shapes = vec![
        shape(vec![field("age", "i64"), field("name", "String"), field("rate", "f64")]),
        shape(vec![field("name", "String"), field("age", "i32"), field("rate", "i64")]),
    ];
    let common = find_common(&shapes);
    assert_eq!(common, vec![field("age", "i32"), field("name", "String"), field("rate", "i64")]);
    let rest = remove_common(&shapes, &common);
    assert!(rest[0].fields.is_empty());
    assert!(rest[1].fields.is_empty());
}

#[test]
fn a_required_field_beats_an_optional_one() {
    let mut optional = field("note", "Text");
    optional.is_required = false;
    let shapes = vec![shape(vec![optional]), shape(vec![field("note", "Note")])];
    assert_eq!(find_common(&shapes), vec![field("note", "Note")]);
}

#[test]
fn extracting_common_fields_twice_changes_nothing() {
    let shapes = vec![
        shape(vec![field("a", "u8"), field("b", "u8"), field("c", "u8")]),
        shape(vec![field("c", "u8"), field("a", "u8")]),
    ];
    let common = find_common(&shapes);
    assert_eq!(names(&common), vec!["a", "c"]);
    let again = find_common(&vec![shape(common.clone())]);
    assert_eq!(again, common);
}

#[test]
fn shapes_that_differ_by_one_name_are_merged() {
    let a = shape(vec![field("x", "u8")]);
    let b = shape(vec![field("x", "u8"), field("y", "u8")]);
    assert_eq!(count_field_differences(&a, &b), 1);
    assert!(can_merge_shapes(&a, &b));
    let variants = optimize_variants(&vec![a, b]);
    assert_eq!(variants.len(), 1);
    assert_eq!(variants[0].name, "MergedVariant1");
    assert_eq!(variants[0].fields, vec![field("x", "u8"), field("y", "Option<u8>")]);
}

#[test]
fn shapes_that_differ_by_two_names_stay_apart() {
    let a = shape(vec![field("x", "u8"), field("z", "u8")]);
    let b = shape(vec![field("x", "u8"), field("y", "u8")]);
    assert_eq!(count_field_differences(&a, &b), 2);
    assert!(!can_merge_shapes(&a, &b));
    let variants = optimize_variants(&vec![a, b]);
    assert_eq!(variants.len(), 2);
    assert_eq!(variants[0].name, "Variant1");
    assert_eq!(variants[1].name, "Variant2");
}

#[test]
fn every_field_name_is_kept_by_the_decision() {
    let shapes = vec![
        shape(vec![field("id", "u8"), field("a", "u8")]),
        shape(vec![field("id", "u8"), field("b", "u8"), field("c", "u8")]),
        shape(vec![field("id", "u8"), field("d", "u8"), field("e", "u8"), field("f", "u8")]),
    ];
    let optimizer = ShapeOptimizer::new(false);
    match optimizer.optimize_shapes(&shapes, "All") {
        EvolutionResult::ComplexEnum { common_fields, variants, .. } => {
            let mut seen: Vec<String> = common_fields.iter().map(|f| f.name.clone()).collect();
            for v in &variants {
                seen.extend(v.fields.iter().map(|f| f.name.clone()));
            }
            for name in ["id", "a", "b", "c", "d", "e", "f"] {
                assert!(seen.iter().any(|n| n == name), "{} is missing", name);
            }
        }
        _ => panic!("a union was expected"),
    }
}

#[test]
fn two_unrelated_variants_give_an_untagged_union() {
    let shapes = vec![
        shape(vec![field("nxame", "String")]),
        shape(vec![field("active", "Bool"), field("email", "String"), field("name", "String")]),
    ];
    let optimizer = ShapeOptimizer::new(false);
    let result = optimizer.optimize_shapes(&shapes, "User");
    let code = result.generate_rust_code();
    match result {
        EvolutionResult::ComplexEnum { name, common_fields, variants } => {
            assert_eq!(name, "User");
            assert!(common_fields.is_empty());
            assert_eq!(variants.len(), 2);
            assert_eq!(variants[0].fields, vec![field("nxame", "String")]);
            assert_eq!(names(&variants[1].fields), vec!["active", "email", "name"]);
        }
        _ => panic!("a union was expected"),
    }
    assert_eq!(
        code,
        "#[derive(Debug, Clone, serde::Serialize, serde::Deserialize)]\n\
         #[serde(untagged)]\n\
         pub enum User {\n    Variant1 {\n        nxame: String,\n    },\n    Variant2 {\n        \
         active: Bool,\n        email: String,\n        name: String,\n    },\n}\n"
    );
}

#[test]
fn one_optional_payload_becomes_a_side_record() {
    let result = EvolutionResult::complex_enum(
        "User",
        vec![field("id", "u32")],
        vec![
            ShapeVariant { name: "Variant1".to_string(), fields: vec![] },
            ShapeVariant { name: "Variant2".to_string(), fields: vec![field("email", "String")] },
        ],
    );
    assert_eq!(
        result.generate_rust_code(),
        "#[derive(Debug, Clone, serde::Serialize, serde::Deserialize)]\n\
         pub struct UserExtra {\n    pub email: String,\n}\n\n\
         #[derive(Debug, Clone, serde::Serialize, serde::Deserialize)]\n\
         pub struct User {\n    pub id: u32,\n    #[serde(flatten)]\n    \
         pub extra: Option<UserExtra>,\n}\n"
    );
}

#[test]
fn a_field_that_is_not_required_is_declared_optional() {
    let mut note = field("note", "String");
    note.is_required = false;
    let mut kept = field("kept", "Option < u8 >");
    kept.is_required = false;
    let result = EvolutionResult::simple_struct("Memo", vec![note, kept]);
    assert_eq!(
        result.generate_rust_code(),
        "#[derive(Debug, Clone, serde::Serialize, serde::Deserialize)]\n\
         pub struct Memo {\n    pub note: Option<String>,\n    pub kept: Option < u8 >,\n}\n"
    );
}

#[test]
fn new_field_of_a_sample_joins_the_record() {
    let user = record("User", vec![declared("name", "String", false), declared("age", "i32", false)]);
    let evolution = ApiEvolution::new(vec![user], false);
    let sample = object(vec![("age", integer()), ("email", text("j")), ("name", text("John"))]);
    match evolution.evolve_with_json(&sample, "User") {
        EvolutionResult::SimpleStruct { name, fields } => {
            assert_eq!(name, "User");
            assert_eq!(
                fields,
                vec![field("age", "i32"), field("name", "String"), field("email", "Option<String>")]
            );
        }
        _ => panic!("a record was expected"),
    }
}

#[test]
fn field_that_a_sample_lacks_becomes_optional() {
    let user = record(
        "User",
        vec![
            declared("name", "String", false),
            declared("age", "i32", false),
            declared("email", "String", false),
        ],
    );
    let evolution = ApiEvolution::new(vec![user], false);
    let sample = object(vec![("age", integer()), ("name", text("John"))]);
    match evolution.evolve_with_json(&sample, "User") {
        EvolutionResult::SimpleStruct { fields, .. } => {
            assert_eq!(
                fields,
                vec![field("age", "i32"), field("name", "String"), field("email", "Option<String>")]
            );
        }
        _ => panic!("a record was expected"),
    }
}

fn contact_union() -> TypeInfo {
    union(
        "ContactVariant",
        vec![
            variant("Mail", Some(vec![declared("email", "String", false)])),
            variant("Phone", Some(vec![declared("phone", "String", false)])),
        ],
        true,
    )
}

#[test]
fn sample_that_fits_an_existing_union_folds_back() {
    let user = record(
        "User",
        vec![declared("age", "i32", false), declared("contact", "ContactVariant", false)],
    );
    let evolution = ApiEvolution::new(vec![user, contact_union()], false);
    let sample = object(vec![("age", integer()), ("email", text("j@x.com"))]);
    match evolution.evolve_with_json(&sample, "User") {
        EvolutionResult::SimpleStruct { name, fields } => {
            assert_eq!(name, "User");
            assert_eq!(fields, vec![field("age", "i32"), field("contact", "ContactVariant")]);
        }
        _ => panic!("a record was expected"),
    }
}

#[test]
fn variant_that_fits_no_declared_variant_extends_the_union() {
    let shapes = vec![
        shape(vec![field("id", "u32"), field("email", "String")]),
        shape(vec![field("id", "u32"), field("fax", "String"), field("city", "String")]),
    ];
    let optimizer = ShapeOptimizer::with_known_types(false, vec![contact_union()]);
    match optimizer.optimize_shapes(&shapes, "User") {
        EvolutionResult::StructWithExtendedEnum {
            struct_name,
            struct_fields,
            enum_name,
            new_enum_variants,
        } => {
            assert_eq!(struct_name, "User");
            assert_eq!(struct_fields, vec![field("id", "u32"), field("contact", "ContactVariant")]);
            assert_eq!(enum_name, "ContactVariant");
            assert_eq!(new_enum_variants.len(), 1);
            assert_eq!(new_enum_variants[0].name, "NewVariant2");
            assert_eq!(
                new_enum_variants[0].fields,
                vec![field("city", "String"), field("fax", "String")]
            );
        }
        _ => panic!("a record beside an extended union was expected"),
    }
}

#[test]
fn variants_that_share_a_field_fold_back_beside_the_others() {
    let shapes = vec![
        shape(vec![field("id", "String"), field("email", "String")]),
        shape(vec![field("id", "String"), field("phone", "String")]),
        shape(vec![field("other", "bool"), field("more", "bool"), field("rest", "bool")]),
    ];
    let optimizer = ShapeOptimizer::with_known_types(false, vec![contact_union()]);
    match optimizer.optimize_shapes(&shapes, "Entry") {
        EvolutionResult::ComplexEnum { name, common_fields, variants } => {
            assert_eq!(name, "Entry");
            assert!(common_fields.is_empty());
            assert_eq!(variants.len(), 2);
            assert_eq!(variants[0].name, "ContactPattern");
            assert_eq!(
                variants[0].fields,
                vec![field("id", "String"), field("contact", "ContactVariant")]
            );
            assert_eq!(variants[1].name, "Variant3");
            assert_eq!(names(&variants[1].fields), vec!["other", "more", "rest"]);
        }
        _ => panic!("a union was expected"),
    }
}

#[test]
fn tagged_union_is_no_target_of_a_fold_back() {
    let tagged = union(
        "ContactVariant",
        vec![variant("Mail", Some(vec![declared("email", "String", false)]))],
        false,
    );
    let shapes = vec![
        shape(vec![field("id", "u32"), field("email", "String")]),
        shape(vec![field("id", "u32"), field("a", "u8"), field("b", "u8")]),
    ];
    let optimizer = ShapeOptimizer::with_known_types(false, vec![tagged]);
    assert!(matches!(
        optimizer.optimize_shapes(&shapes, "User"),
        EvolutionResult::ComplexEnum { .. }
    ));
}

#[test]
fn scores_follow_their_formulas() {
    let evolution = ApiEvolution::new(vec![], false);
    let sample = shape(vec![field("name", "String"), field("age", "i64"), field("zip", "bool")]);
    let fields = vec![
        declared("name", "String", false),
        declared("age", "String", false),
        declared("zip", "u8", false),
    ];
    // two points for each of three names, three more for each of two compatible types
    assert_eq!(evolution.calculate_struct_compatibility(&fields, &sample), 12);
    // ten for each of two names, five more for each compatible type, and the bonus
    // round(10 * 2 / 3) = 7
    let v = variant("V", Some(fields.clone()));
    let two = shape(vec![field("name", "String"), field("age", "bool"), field("x", "u8")]);
    assert_eq!(evolution.calculate_variant_compatibility(&two, &v), 10 + 5 + 10 + 7);
    // a unit variant scores nothing
    assert_eq!(evolution.calculate_variant_compatibility(&two, &variant("U", None)), 0);
    // more unmatched fields than the variant has fields: two off for each, down to zero
    let one = variant("One", Some(vec![declared("name", "bool", false)]));
    let wide = shape(vec![field("name", "String"), field("a", "u8"), field("b", "u8")]);
    assert_eq!(evolution.calculate_variant_compatibility(&wide, &one), 10 + 10 - 4);
    let all_new: Vec<ShapeField> = (0..12).map(|i| field(&format!("f{}", i), "u8")).collect();
    let mut wider = vec![field("name", "String")];
    wider.extend(all_new);
    assert_eq!(evolution.calculate_variant_compatibility(&shape(wider), &one), 0);
}

#[test]
fn best_match_is_the_first_of_the_highest_score() {
    let a = record("A", vec![declared("x", "u8", false)]);
    let b = record("B", vec![declared("x", "u8", false), declared("y", "u8", false)]);
    let c = record("C", vec![declared("y", "u8", false), declared("x", "u8", false)]);
    let evolution = ApiEvolution::new(vec![a, b, c], false);
    let sample = shape(vec![field("x", "u8"), field("y", "u8")]);
    assert_eq!(evolution.find_best_matching_type(&sample).unwrap().name, "B");
    let none = shape(vec![field("z", "u8")]);
    assert!(evolution.find_best_matching_type(&none).is_none());
}

#[test]
fn sample_without_a_declaration_gives_its_own_record() {
    let evolution = ApiEvolution::new(vec![], false);
    let sample = object(vec![
        ("flag", JsonValue::Bool(true)),
        ("list", JsonValue::Array(vec![integer()])),
        ("none", JsonValue::Null),
        ("big", JsonValue::Number(JsonNumber { is_i64: false, is_u64: true })),
        ("real", JsonValue::Number(JsonNumber { is_i64: false, is_u64: false })),
        ("empty", JsonValue::Array(vec![])),
        ("inner", JsonValue::Object(vec![])),
    ]);
    match evolution.evolve_with_json(&sample, "Sample") {
        EvolutionResult::SimpleStruct { fields, .. } => {
            assert_eq!(
                fields,
                vec![
                    field("flag", "bool"),
                    field("list", "Vec<i64>"),
                    field("none", "Option<()>"),
                    field("big", "u64"),
                    field("real", "f64"),
                    field("empty", "Vec<serde_json::Value>"),
                    field("inner", "serde_json::Map<String, serde_json::Value>"),
                ]
            );
        }
        _ => panic!("a record was expected"),
    }
    match evolution.evolve_with_json(&text("plain"), "Wrapped") {
        EvolutionResult::SimpleStruct { fields, .. } => {
            assert_eq!(fields, vec![field("value", "String")]);
        }
        _ => panic!("a record was expected"),
    }
}

#[test]
fn union_target_is_scored_against_the_sample() {
    let shape_union = union(
        "Figure",
        vec![
            variant("Circle", Some(vec![declared("radius", "f64", false)])),
            variant(
                "Rect",
                Some(vec![declared("width", "f64", false), declared("height", "f64", false)]),
            ),
        ],
        true,
    );
    let evolution = ApiEvolution::new(vec![shape_union.clone()], false);
    let sample = shape(vec![field("width", "f64"), field("color", "String")]);
    let variants = match &shape_union.kind {
        TypeKind::Enum { info } => info.variants.clone(),
        _ => unreachable!(),
    };
    let shapes = evolution.evolve_with_enum_variants(&sample, &variants);
    assert_eq!(shapes.len(), 1);
    assert_eq!(names(&shapes[0].fields), vec!["width", "color", "height"]);
    assert_eq!(shapes[0].fields[2].field_type, "Option<f64>");
    assert!(!shapes[0].fields[2].is_required);
}

#[test]
fn decisions_stand_for_declarations() {
    let mut maybe = field("note", "String");
    maybe.is_required = false;
    let record = EvolutionResult::simple_struct("Memo", vec![field("id", "u8"), maybe]);
    let decls = record.declarations();
    assert_eq!(decls.len(), 1);
    assert_eq!(decls[0].name, "Memo");
    match &decls[0].kind {
        TypeKind::Struct { fields } => {
            assert_eq!(fields.len(), 2);
            assert_eq!(fields[1].name, "note");
            assert_eq!(fields[1].field_type, "Option<String>");
            assert!(fields[1].is_optional);
            assert!(!fields[0].is_optional);
        }
        _ => panic!("a record was expected"),
    }
    let union = EvolutionResult::complex_enum(
        "Shape",
        vec![field("id", "u8")],
        vec![
            ShapeVariant { name: "A".to_string(), fields: vec![field("a", "u8")] },
            ShapeVariant { name: "B".to_string(), fields: vec![field("b", "u8")] },
        ],
    );
    let decls = union.declarations();
    assert_eq!(decls.len(), 2);
    assert_eq!(decls[0].name, "ShapeBase");
    match &decls[1].kind {
        TypeKind::Enum { info } => {
            assert!(info.is_untagged);
            let names: Vec<Vec<&str>> = info
                .variants
                .iter()
                .map(|v| v.fields.as_ref().unwrap().iter().map(|f| f.name.as_str()).collect())
                .collect();
            assert_eq!(names, vec![vec!["base", "a"], vec!["base", "b"]]);
            assert_eq!(info.variants[0].fields.as_ref().unwrap()[0].field_type, "ShapeBase");
        }
        _ => panic!("a union was expected"),
    }
    let payload = EvolutionResult::complex_enum(
        "User",
        vec![field("id", "u32")],
        vec![
            ShapeVariant { name: "V1".to_string(), fields: vec![field("email", "String")] },
            ShapeVariant { name: "V2".to_string(), fields: vec![] },
        ],
    );
    let decls = payload.declarations();
    assert_eq!(decls.iter().map(|d| d.name.as_str()).collect::<Vec<_>>(), vec!["UserExtra", "User"]);
    match &decls[1].kind {
        TypeKind::Struct { fields } => {
            assert_eq!(fields[1].name, "extra");
            assert_eq!(fields[1].field_type, "Option<UserExtra>");
        }
        _ => panic!("a record was expected"),
    }
    let extended = EvolutionResult::struct_with_extended_enum(
        "User",
        vec![field("id", "u32")],
        "Kind",
        vec![ShapeVariant { name: "New".to_string(), fields: vec![field("n", "u8")] }],
    );
    assert_eq!(extended.declarations().len(), 1);
    assert_eq!(extended.generate_rust_code(), EvolutionResult::simple_struct("User", vec![field("id", "u32")]).generate_rust_code());
}

#[test]
fn pattern_fold_back_keeps_what_does_not_fit() {
    // nine variants share `id`; seven of them fit the union, which is enough to
    // fold them back, and the tenth variant stays as it is
    let mut variants = vec![union(
        "KindVariant",
        (0..7)
            .map(|i| variant(&format!("K{}", i), Some(vec![declared(&format!("f{}", i), "u8", false)])))
            .collect(),
        true,
    )];
    let mut shapes: Vec<Shape> = (0..7)
        .map(|i| shape(vec![field("id", "u8"), field(&format!("f{}", i), "u8")]))
        .collect();
    shapes.push(shape(vec![field("id", "u8"), field("g1", "u8"), field("h1", "u8"), field("i1", "u8")]));
    shapes.push(shape(vec![field("id", "u8"), field("g2", "u8"), field("h2", "u8"), field("i2", "u8")]));
    shapes.push(shape(vec![field("id", "u8"), field("g3", "u8"), field("h3", "u8"), field("i3", "u8")]));
    shapes.push(shape(vec![field("x", "u8"), field("y", "u8"), field("z", "u8")]));
    let optimizer = ShapeOptimizer::with_known_types(false, variants.drain(..).collect());
    match optimizer.optimize_shapes(&shapes, "Entry") {
        EvolutionResult::ComplexEnum { common_fields, variants, .. } => {
            assert!(common_fields.is_empty());
            assert_eq!(variants.len(), 2);
            assert_eq!(variants[0].name, "KindPattern");
            assert_eq!(variants[0].fields, vec![field("id", "u8"), field("kind", "KindVariant")]);
            assert_eq!(names(&variants[1].fields), vec!["x", "y", "z"]);
        }
        _ => panic!("a union was expected"),
    }
}

#[test]
fn folded_union_beside_other_variants_has_no_common_fields() {
    let shapes = vec![
        shape(vec![field("k", "u8"), field("id", "String"), field("email", "String")]),
        shape(vec![field("k", "u8"), field("id", "String"), field("phone", "String")]),
        shape(vec![field("k", "u8"), field("a", "bool"), field("b", "bool"), field("c", "bool")]),
    ];
    let optimizer = ShapeOptimizer::with_known_types(false, vec![contact_union()]);
    match optimizer.optimize_shapes(&shapes, "Entry") {
        EvolutionResult::ComplexEnum { common_fields, variants, .. } => {
            assert!(common_fields.is_empty());
            assert_eq!(variants.len(), 2);
            assert_eq!(names(&variants[0].fields), vec!["id", "contact"]);
            assert_eq!(names(&variants[1].fields), vec!["a", "b", "c"]);
        }
        _ => panic!("a union was expected"),
    }
}

#[test]
fn direct_fold_back_without_common_fields_needs_four_in_five() {
    let info = EnumInfo {
        variants: (0..5)
            .map(|i| variant(&format!("K{}", i), Some(vec![declared(&format!("f{}", i), "u8", false)])))
            .collect(),
        is_untagged: true,
    };
    let fitting = |n: usize| -> Vec<ShapeVariant> {
        (0..5)
            .map(|i| ShapeVariant {
                name: format!("V{}", i),
                fields: vec![if i < n { field(&format!("f{}", i), "u8") } else { field("zz", "u8") }],
            })
            .collect()
    };
    let four = check_enum_compatibility(&vec![], &fitting(4), "KindVariant", &info, "T", &vec![]);
    match four {
        Some(EvolutionResult::SimpleStruct { name, fields }) => {
            assert_eq!(name, "T");
            assert_eq!(fields, vec![field("variant", "KindVariant")]);
        }
        _ => panic!("a record was expected"),
    }
    assert!(check_enum_compatibility(&vec![], &fitting(3), "KindVariant", &info, "T", &vec![]).is_none());
    let other = check_enum_compatibility(&vec![], &fitting(5), "Kinds", &info, "T", &vec![]);
    match other {
        Some(EvolutionResult::SimpleStruct { fields, .. }) => {
            assert_eq!(fields, vec![field("kinds_type", "Kinds")]);
        }
        _ => panic!("a record was expected"),
    }
}

#[test]
fn a_trace_tells_what_was_found_and_changes_nothing() {
    let shapes = vec![
        shape(vec![field("id", "u8"), field("a", "u8")]),
        shape(vec![field("id", "u8"), field("b", "u8"), field("c", "u8")]),
        shape(vec![field("id", "u8"), field("b", "u8")]),
    ];
    let quiet = ShapeOptimizer::new(false);
    let loud = ShapeOptimizer::new(true);
    let mut sink = vec![TraceEvent::Started { shapes: 0 }];
    let traced = loud.optimize_shapes_traced(&shapes, "T", &mut sink);
    assert_eq!(
        sink,
        vec![
            TraceEvent::Started { shapes: 0 },
            TraceEvent::Started { shapes: 3 },
            TraceEvent::CommonFields { count: 1 },
            TraceEvent::Clustered { variants: 2 },
            TraceEvent::Decided { folded_back: false },
        ]
    );
    let mut unused = Vec::new();
    let plain = quiet.optimize_shapes_traced(&shapes, "T", &mut unused);
    assert!(unused.is_empty());
    assert_eq!(traced.generate_rust_code(), plain.generate_rust_code());
    assert_eq!(plain.generate_rust_code(), quiet.optimize_shapes(&shapes, "T").generate_rust_code());
    let mut short = Vec::new();
    loud.optimize_shapes_traced(&shapes[..1].to_vec(), "T", &mut short);
    assert_eq!(
        short,
        vec![TraceEvent::Started { shapes: 1 }, TraceEvent::Decided { folded_back: false }]
    );
}
