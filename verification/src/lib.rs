//! Inference and evolution of Rust type declarations from JSON samples.
//!
//! A declaration is expanded into the shapes it can take; the shapes of the
//! existing declaration and of a new sample are reduced to their common
//! fields and to variants of what remains; the result is a record, a union,
//! or a record that refers to a union that is already declared.
//!
//! The evolution of declarations: `shape` expands, `common` and `cluster`
//! reduce, `foldback` looks for a declared union, `optimizer` decides,
//! `evolution` gathers the shapes for one sample, `generator` turns the
//! decision into declarations and text, `parser` and `surgery` read and
//! change source text. The schema path: `analyzer` reads a JSON text,
//! `codegen` makes records from its schema and extends declared ones,
//! `preserve` writes them out, `convert` does all of it in one step. What
//! holds of these in general is proved in the modules named `*_laws`.

pub mod analyzer;
pub mod cluster;
pub mod codegen;
pub mod cluster_laws;
pub mod common;
pub mod convert;
pub mod common_laws;
pub mod coverage_laws;
pub mod difference_laws;
pub mod error;
pub mod evolution;
pub mod existing;
pub mod expansion_laws;
pub mod fields;
pub mod foldback;
pub mod foldback_laws;
pub mod generator;
pub mod json;
pub mod optimizer;
pub mod order_laws;
pub mod parser;
pub mod pattern_laws;
pub mod round_trip_laws;
pub mod preserve;
pub mod shape;
pub mod spans;
pub mod surgery;
pub mod syntax;
pub mod text;
pub mod types;
pub mod typetext;
pub mod views;

use vstd::prelude::*;
use vstd::string::*;
use crate::error::EvolutionError;
use crate::evolution::{evolve, ApiEvolution};
use crate::generator::result_text;
use crate::json::{json_error_text, json_model, parsed_json, read_json, JsonModel, JsonValue};
use crate::parser::{source_types, RustParser, TypeDecl, TypeInfo};
use crate::text::{concat2, contains, contains_text, same_text, sub_string, to_chars};
use crate::views::replicate_all;

verus! {

/// What controls an evolution.
#[derive(Debug, Clone)]
pub struct EvolutionOptions {
    /// Whether trace output is asked for.
    pub verbose: bool,
    /// Whether declarations that were not evolved are kept.
    pub preserve_original_types: bool,
}

impl Default for EvolutionOptions {
    fn default() -> (r: Self)
        ensures
            !r.verbose,
            r.preserve_original_types,
    {
        EvolutionOptions { verbose: false, preserve_original_types: true }
    }
}

/// The declaration `d` is kept beside the evolved text: it is not the
/// target, and the evolved text declares no record or union of its name.
pub open spec fn is_kept(evolved: Seq<char>, target: Seq<char>, d: TypeDecl) -> bool {
    !contains_text(evolved, "struct "@ + d.name) && !contains_text(evolved, "enum "@ + d.name)
        && d.name != target
}

/// The text of the declaration `d` in the source text, if its place is
/// known and lies in the text.
pub open spec fn declared_text(code: Seq<char>, d: TypeDecl) -> Option<Seq<char>> {
    match d.span {
        Some((a, b)) => if a < code.len() && a <= b <= code.len() {
            Some(code.subrange(a as int, b as int))
        } else {
            None
        },
        None => None,
    }
}

/// The text of the first `n` declarations of the table that are kept, each
/// once and followed by a line feed.
pub open spec fn kept_text(
    code: Seq<char>,
    evolved: Seq<char>,
    target: Seq<char>,
    table: Seq<TypeDecl>,
    n: nat,
) -> Seq<char>
    decreases n,
{
    if n == 0 || n > table.len() {
        Seq::empty()
    } else {
        let prev = kept_text(code, evolved, target, table, (n - 1) as nat);
        let d = table[n - 1];
        if is_kept(evolved, target, d) {
            match declared_text(code, d) {
                Some(text) => if contains_text(prev, text) {
                    prev
                } else {
                    prev + text + "\n"@
                },
                None => prev,
            }
        } else {
            prev
        }
    }
}

/// The evolved source text: the text of the decision for the sample, then,
/// behind a line feed, the declarations of the source that were not evolved.
pub open spec fn evolution_text(
    code: Seq<char>,
    table: Seq<TypeDecl>,
    sample: JsonModel,
    target: Seq<char>,
) -> Seq<char> {
    let evolved = result_text(evolve(table, sample, target));
    let kept = kept_text(code, evolved, target, table, table.len());
    if kept.len() > 0 {
        evolved + "\n"@ + kept
    } else {
        evolved
    }
}

/// The evolved source text for a JSON text and a source text: an error for
/// a JSON text that is not well formed, then for a source text that is
/// neither blank nor well formed.
pub open spec fn evolved_source(code: Seq<char>, json: Seq<char>, target: Seq<char>) -> Option<
    Seq<char>,
> {
    match (parsed_json(json), source_types(code)) {
        (Some(sample), Some(table)) => Some(evolution_text(code, table, sample, target)),
        _ => None,
    }
}

/// The declarations of the table that are kept, as text.
fn collect_kept(code: &str, evolved: &str, target: &str, table: &Vec<TypeInfo>) -> (r: String)
    ensures
        r@ == kept_text(code@, evolved@, target@, table.deep_view(), table.len() as nat),
{
    let chars = to_chars(code);
    let mut kept = String::new();
    let mut i: usize = 0;
    while i < table.len()
        invariant
            i <= table.len(),
            chars@ == code@,
            kept@ == kept_text(code@, evolved@, target@, table.deep_view(), i as nat),
        decreases table.len() - i,
    {
        let d = &table[i];
        let as_struct = concat2("struct ", d.name.as_str());
        let as_enum = concat2("enum ", d.name.as_str());
        if !contains(evolved, as_struct.as_str()) && !contains(evolved, as_enum.as_str())
            && !same_text(d.name.as_str(), target) {
            match d.span {
                Some((a, b)) => {
                    if a < chars.len() && a <= b && b <= chars.len() {
                        let text = sub_string(&chars, a, b);
                        if !contains(kept.as_str(), text.as_str()) {
                            kept.append(text.as_str());
                            kept.append("\n");
                        }
                    }
                },
                None => {},
            }
        }
        i += 1;
    }
    kept
}

/// The evolved source text for a sample that is read and a table that is
/// parsed.
pub fn evolve_parsed(
    existing_rust_code: &str,
    table: Vec<TypeInfo>,
    sample: &JsonValue,
    target_name: &str,
    verbose: bool,
) -> (r: String)
    ensures
        r@ == evolution_text(
            existing_rust_code@,
            table.deep_view(),
            json_model(*sample),
            target_name@,
        ),
{
    let known = replicate_all(&table);
    let evolution = ApiEvolution::new(table, verbose);
    let result = evolution.evolve_with_json(sample, target_name);
    let mut evolved = result.generate_rust_code();
    let kept = collect_kept(existing_rust_code, evolved.as_str(), target_name, &known);
    if kept.as_str().unicode_len() > 0 {
        evolved.append("\n");
        evolved.append(kept.as_str());
    }
    evolved
}

/// Evolves the declarations of a source text with a JSON sample: the
/// declaration named `target_name` is evolved, or made if the source text
/// has none of that name, and the other declarations are kept.
pub fn evolve_rust_types(
    existing_rust_code: &str,
    json_data: &str,
    target_name: &str,
    verbose: bool,
) -> (r: Result<String, EvolutionError>)
    ensures
        match r {
            Ok(text) => evolved_source(existing_rust_code@, json_data@, target_name@) == Some(
                text@,
            ),
            Err(e) => evolved_source(existing_rust_code@, json_data@, target_name@) is None && (
            if parsed_json(json_data@) is None {
                e is InvalidJson
            } else {
                e is InvalidSource
            }),
        },
{
    let sample = match read_json(json_data) {
        Ok(v) => v,
        Err(e) => {
            return Err(EvolutionError::InvalidJson { message: json_error_text(&e) });
        },
    };
    let mut parser = RustParser::new();
    let table = match parser.parse_types(existing_rust_code) {
        Ok(t) => t,
        Err(e) => {
            return Err(e);
        },
    };
    Ok(evolve_parsed(existing_rust_code, table, &sample, target_name, verbose))
}

/// Evolves the declarations of a source text with a JSON sample, under the
/// options given.
pub fn evolve_rust_types_with_options(
    existing_rust_code: &str,
    json_data: &str,
    target_name: &str,
    options: EvolutionOptions,
) -> (r: Result<String, EvolutionError>)
    ensures
        match r {
            Ok(text) => evolved_source(existing_rust_code@, json_data@, target_name@) == Some(
                text@,
            ),
            Err(e) => evolved_source(existing_rust_code@, json_data@, target_name@) is None && (
            if parsed_json(json_data@) is None {
                e is InvalidJson
            } else {
                e is InvalidSource
            }),
        },
{
    evolve_rust_types(existing_rust_code, json_data, target_name, options.verbose)
}

} // verus!
