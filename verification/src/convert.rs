//! From a JSON text and a source text to the source text with its records
//! extended, in one step.

use vstd::prelude::*;
use vstd::string::*;
use crate::analyzer::{analyze_json, root_type};
use crate::codegen::{gen_root, generate_rust_types_with_strategy};
use crate::existing::{existing_structs_of, parse_existing_structs};
use crate::json::{parsed_json, read_json};
use crate::preserve::{
    generate_code_with_types_and_preservation_and_schema, preserved_source, Failure,
};
use crate::syntax::parsed_items;
use crate::text::{concat2, is_blank, is_prefix, trim};
use crate::types::{
    ExistingModel, ExistingStruct, Json2RustError, MergeStrategy,
};

verus! {

/// The strategy that a word names; any unknown word names `Optional`.
pub open spec fn strategy_named(s: Seq<char>) -> MergeStrategy {
    if s == "enum"@ {
        MergeStrategy::Enum
    } else if s == "hybrid"@ {
        MergeStrategy::Hybrid
    } else {
        MergeStrategy::Optional
    }
}

/// The records that a source text declares; none for a blank text; `None`
/// where the parser refuses the text.
pub open spec fn declared_structs(code: Seq<char>) -> Option<Seq<ExistingModel>> {
    if trim(code).len() == 0 {
        Some(Seq::empty())
    } else {
        match parsed_items(code) {
            Some(items) => Some(existing_structs_of(items, items.len())),
            None => None,
        }
    }
}

/// Why a conversion fails: the JSON text is not well formed, the source
/// text is not well formed, or a declaration cannot be placed in the source
/// text; the last with its message.
pub enum Refusal {
    Json,
    Source,
    Placement(Seq<char>),
}

/// What a conversion comes to. The schema of the JSON text gives records
/// under the name `name`, and the source text is kept with the records
/// replaced that these extend. The JSON text is looked at first, then the
/// source text, then the places of the declarations in it.
pub open spec fn conversion(
    json: Seq<char>,
    code: Seq<char>,
    name: Seq<char>,
    strategy: Seq<char>,
) -> Result<Seq<char>, Refusal> {
    match parsed_json(json) {
        None => Err(Refusal::Json),
        Some(v) => match declared_structs(code) {
            None => Err(Refusal::Source),
            Some(existing) => {
                let t = root_type(json, v);
                let st = gen_root(name, false, t, existing, strategy_named(strategy));
                match preserved_source(
                    code,
                    st.structs,
                    strategy_named(strategy),
                    Some((name, t)),
                ) {
                    Ok(text) => Ok(text),
                    Err(Failure::Parse) => Err(Refusal::Source),
                    Err(Failure::Generation(m)) => Err(Refusal::Placement(m)),
                }
            },
        },
    }
}

/// The source text with its records extended by a JSON text; `None` where
/// the conversion fails.
pub open spec fn converted(
    json: Seq<char>,
    code: Seq<char>,
    name: Seq<char>,
    strategy: Seq<char>,
) -> Option<Seq<char>> {
    match conversion(json, code, name, strategy) {
        Ok(text) => Some(text),
        Err(_) => None,
    }
}

/// The source text with its records extended by a JSON text; where the
/// conversion fails, the error of the kind of the failure: of the JSON
/// parser, of the parser of source text, or of code generation with the
/// message of the declaration that could not be placed.
pub fn convert_json_to_rust_internal(
    json_input: &str,
    existing_rust_code: &str,
    struct_name: &str,
    strategy: &str,
) -> (r: Result<String, Json2RustError>)
    ensures
        match r {
            Ok(text) => conversion(json_input@, existing_rust_code@, struct_name@, strategy@)
                == Ok::<Seq<char>, Refusal>(text@),
            Err(e) => match conversion(json_input@, existing_rust_code@, struct_name@, strategy@) {
                Ok(_) => false,
                Err(Refusal::Json) => e is JsonParsing,
                Err(Refusal::Source) => e is RustParsing,
                Err(Refusal::Placement(m)) => e matches Json2RustError::CodeGeneration(t) && t@
                    == m,
            },
        },
{
    let schema = match analyze_json(json_input, struct_name) {
        Ok(s) => s,
        Err(e) => {
            return Err(e);
        },
    };
    let existing: Vec<ExistingStruct> = if is_blank(existing_rust_code) {
        let none: Vec<ExistingStruct> = Vec::new();
        assert(none.deep_view() =~= Seq::<ExistingModel>::empty());
        none
    } else {
        match parse_existing_structs(existing_rust_code) {
            Ok(s) => s,
            Err(e) => {
                return Err(e);
            },
        }
    };
    let merge_strategy = MergeStrategy::from_name(strategy);
    let types = match generate_rust_types_with_strategy(&schema, &existing, &merge_strategy) {
        Ok(t) => t,
        Err(e) => {
            return Err(e);
        },
    };
    generate_code_with_types_and_preservation_and_schema(
        &types,
        Some(existing_rust_code),
        &merge_strategy,
        Some(&schema),
    )
}

/// The source text with its records extended by a JSON text; where that
/// fails, the error as a line of text behind `Error: `.
pub fn convert_json_to_rust(
    json_input: &str,
    existing_rust_code: &str,
    struct_name: &str,
    merge_strategy: &str,
) -> (r: String)
    ensures
        converted(json_input@, existing_rust_code@, struct_name@, merge_strategy@) matches Some(
            text,
        ) ==> r@ == text,
        converted(json_input@, existing_rust_code@, struct_name@, merge_strategy@) is None
            ==> is_prefix_error(r@),
{
    match convert_json_to_rust_internal(
        json_input,
        existing_rust_code,
        struct_name,
        merge_strategy,
    ) {
        Ok(text) => text,
        Err(e) => {
            let m = e.message();
            let r = concat2("Error: ", m.as_str());
            assert(r@.subrange(0, "Error: "@.len() as int) =~= "Error: "@);
            r
        },
    }
}

/// The text begins with `Error: `.
pub open spec fn is_prefix_error(r: Seq<char>) -> bool {
    crate::text::is_prefix("Error: "@, r)
}

/// Whether a text is well-formed JSON.
pub fn validate_json(json_input: &str) -> (r: bool)
    ensures
        r == (parsed_json(json_input@) is Some),
{
    match read_json(json_input) {
        Ok(_) => true,
        Err(_) => false,
    }
}

/// The message that a failure of a conversion is told by: the words for
/// the kind of the error, and behind them what the error says. Where a
/// parser refuses a text, what it says is the parser's own.
pub open spec fn tells(refusal: Refusal, message: Seq<char>) -> bool {
    match refusal {
        Refusal::Json => is_prefix("JSON parsing error: "@, message),
        Refusal::Source => is_prefix("Rust parsing error: "@, message),
        Refusal::Placement(m) => message == "Code generation error: "@ + m,
    }
}

/// The message of the error of a conversion; the empty text where the
/// conversion succeeds.
pub fn get_error_message(
    json_input: &str,
    existing_rust_code: &str,
    struct_name: &str,
    merge_strategy: &str,
) -> (r: String)
    ensures
        match conversion(json_input@, existing_rust_code@, struct_name@, merge_strategy@) {
            Ok(_) => r@ == Seq::<char>::empty(),
            Err(refusal) => tells(refusal, r@),
        },
{
    match convert_json_to_rust_internal(
        json_input,
        existing_rust_code,
        struct_name,
        merge_strategy,
    ) {
        Ok(_) => String::new(),
        Err(e) => {
            let r = e.message();
            proof {
                let json = "JSON parsing error: "@;
                let source = "Rust parsing error: "@;
                if e is JsonParsing {
                    assert(r@.subrange(0, json.len() as int) =~= json);
                }
                if e is RustParsing {
                    assert(r@.subrange(0, source.len() as int) =~= source);
                }
            }
            r
        },
    }
}

} // verus!
