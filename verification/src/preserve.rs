//! The text of generated records and unions, and a source text in which the
//! declarations that were extended are replaced and the rest is kept.

use vstd::prelude::*;
use vstd::string::*;
use crate::codegen::{
    enum_index, extend_existing_struct, extended, extract_fields_from_schema, find_enum,
    plain_fields_of, standard_derives, default_derives, GeneratedTypes,
};
use crate::existing::{existing_from_item, existing_of, short_type_text, type_to_string};
use crate::spans::{
    close_of, find_line_start, line_start,
    trimmed_starts_with,
};
use crate::surgery::{sort_edits, sorted_edits};
use crate::syntax::{parsed_items, read_items, syn_error_text, SynField, SynFields, SynItem, SynVariant};
use crate::text::{
    concat2, concat3, find_in, find_text, is_prefix, lemma_trim_bounds, same_text,
    starts_with, sub_string, to_chars, trim, trim_range,
};
use crate::typetext::{is_optional, make_optional, optional_form};
use crate::types::{
    json_type_model, Json2RustError, JsonSchema, JsonTypeModel, MergeStrategy, RustEnum,
    RustEnumModel, RustEnumVariant, RustField, RustFieldModel, RustStruct, RustStructModel,
    RustVariantModel,
};
use crate::views::{lemma_push_view, replicate_all, Replicate};

verus! {

/// The first `n` texts, joined by `sep`.
pub open spec fn joined(parts: Seq<Seq<char>>, sep: Seq<char>, n: nat) -> Seq<char>
    decreases n,
{
    if n == 0 || n > parts.len() {
        Seq::empty()
    } else if n == 1 {
        parts[0]
    } else {
        joined(parts, sep, (n - 1) as nat) + sep + parts[n - 1]
    }
}

/// The line of derives above a declaration.
pub open spec fn derive_text(derives: Seq<Seq<char>>) -> Seq<char> {
    "#[derive("@ + joined(derives, ", "@, derives.len()) + ")]\n"@
}

/// The type that a field is declared with: made optional, if the field is.
pub open spec fn declared_type(f: RustFieldModel) -> Seq<char> {
    if f.optional {
        optional_form(f.ty)
    } else {
        f.ty
    }
}

/// The attributes above a field: its name in the JSON text, if it is
/// renamed, and that it is left out when absent, if it is optional.
pub open spec fn field_attributes(indent: Seq<char>, f: RustFieldModel) -> Seq<char> {
    (match f.rename {
        Some(r) => indent + "#[serde(rename = \""@ + r + "\")]\n"@,
        None => Seq::empty(),
    }) + (if f.optional {
        indent + "#[serde(skip_serializing_if = \"Option::is_none\")]\n"@
    } else {
        Seq::empty()
    })
}

/// The lines that declare a field.
pub open spec fn rust_field_text(indent: Seq<char>, vis: Seq<char>, f: RustFieldModel) -> Seq<char> {
    field_attributes(indent, f) + indent + vis + f.name + ": "@ + declared_type(f) + ",\n"@
}

/// The lines that declare the first `n` fields.
pub open spec fn rust_fields_text(
    indent: Seq<char>,
    vis: Seq<char>,
    fields: Seq<RustFieldModel>,
    n: nat,
) -> Seq<char>
    decreases n,
{
    if n == 0 || n > fields.len() {
        Seq::empty()
    } else {
        rust_fields_text(indent, vis, fields, (n - 1) as nat) + rust_field_text(
            indent,
            vis,
            fields[n - 1],
        )
    }
}

/// The text of a record.
pub open spec fn struct_code(s: RustStructModel) -> Seq<char> {
    derive_text(s.derives) + "pub struct "@ + s.name + " {\n"@ + rust_fields_text(
        "    "@,
        "pub "@,
        s.fields,
        s.fields.len(),
    ) + "}\n"@
}

/// The text of a variant.
pub open spec fn variant_code(v: RustVariantModel) -> Seq<char> {
    if v.fields.len() == 0 {
        "    "@ + v.name + ",\n"@
    } else {
        "    "@ + v.name + " {\n"@ + rust_fields_text(
            "        "@,
            Seq::empty(),
            v.fields,
            v.fields.len(),
        ) + "    },\n"@
    }
}

/// The text of the first `n` variants.
pub open spec fn variants_code(variants: Seq<RustVariantModel>, n: nat) -> Seq<char>
    decreases n,
{
    if n == 0 || n > variants.len() {
        Seq::empty()
    } else {
        variants_code(variants, (n - 1) as nat) + variant_code(variants[n - 1])
    }
}

/// The text of an untagged union.
pub open spec fn enum_code(e: RustEnumModel) -> Seq<char> {
    derive_text(e.derives) + "#[serde(untagged)]\n"@ + "pub enum "@ + e.name + " {\n"@
        + variants_code(e.variants, e.variants.len()) + "}\n"@
}

/// The text of the first `n` unions, each followed by a line feed.
pub open spec fn enums_code(enums: Seq<RustEnumModel>, n: nat) -> Seq<char>
    decreases n,
{
    if n == 0 || n > enums.len() {
        Seq::empty()
    } else {
        enums_code(enums, (n - 1) as nat) + enum_code(enums[n - 1]) + "\n"@
    }
}

/// The text of the first `n` records, each followed by a line feed.
pub open spec fn structs_code(structs: Seq<RustStructModel>, n: nat) -> Seq<char>
    decreases n,
{
    if n == 0 || n > structs.len() {
        Seq::empty()
    } else {
        structs_code(structs, (n - 1) as nat) + struct_code(structs[n - 1]) + "\n"@
    }
}

/// The text of generated types: the import of serde, the unions, the records.
pub open spec fn types_code(structs: Seq<RustStructModel>, enums: Seq<RustEnumModel>) -> Seq<char> {
    "use serde::{Deserialize, Serialize};\n\n"@ + enums_code(enums, enums.len()) + structs_code(
        structs,
        structs.len(),
    )
}

fn push_derives(out: &mut String, derives: &Vec<String>)
    ensures
        final(out)@ == old(out)@ + derive_text(derives.deep_view()),
{
    out.append("#[derive(");
    let ghost open = out@;
    let mut i: usize = 0;
    assert(out@ =~= open + joined(derives.deep_view(), ", "@, 0));
    while i < derives.len()
        invariant
            i <= derives.len(),
            out@ == open + joined(derives.deep_view(), ", "@, i as nat),
        decreases derives.len() - i,
    {
        if i > 0 {
            out.append(", ");
        }
        out.append(derives[i].as_str());
        assert(out@ =~= open + joined(derives.deep_view(), ", "@, (i + 1) as nat));
        i += 1;
    }
    out.append(")]\n");
    assert(out@ =~= old(out)@ + derive_text(derives.deep_view()));
}

fn push_field_attributes(out: &mut String, indent: &str, f: &RustField)
    ensures
        final(out)@ == old(out)@ + field_attributes(indent@, f.deep_view()),
{
    match &f.serde_rename {
        Some(r) => {
            out.append(indent);
            out.append("#[serde(rename = \"");
            out.append(r.as_str());
            out.append("\")]\n");
        },
        None => {},
    }
    if f.is_optional {
        out.append(indent);
        out.append("#[serde(skip_serializing_if = \"Option::is_none\")]\n");
    }
    assert(out@ =~= old(out)@ + field_attributes(indent@, f.deep_view()));
}

fn push_rust_field(out: &mut String, indent: &str, vis: &str, f: &RustField)
    ensures
        final(out)@ == old(out)@ + rust_field_text(indent@, vis@, f.deep_view()),
{
    push_field_attributes(out, indent, f);
    out.append(indent);
    out.append(vis);
    out.append(f.name.as_str());
    out.append(": ");
    if f.is_optional {
        let ty = make_optional(f.field_type.as_str());
        out.append(ty.as_str());
    } else {
        out.append(f.field_type.as_str());
    }
    out.append(",\n");
    assert(out@ =~= old(out)@ + rust_field_text(indent@, vis@, f.deep_view()));
}

fn push_rust_fields(out: &mut String, indent: &str, vis: &str, fields: &Vec<RustField>)
    ensures
        final(out)@ == old(out)@ + rust_fields_text(
            indent@,
            vis@,
            fields.deep_view(),
            fields.len() as nat,
        ),
{
    let mut i: usize = 0;
    assert(out@ =~= old(out)@ + rust_fields_text(indent@, vis@, fields.deep_view(), 0));
    while i < fields.len()
        invariant
            i <= fields.len(),
            out@ == old(out)@ + rust_fields_text(indent@, vis@, fields.deep_view(), i as nat),
        decreases fields.len() - i,
    {
        push_rust_field(out, indent, vis, &fields[i]);
        assert(out@ =~= old(out)@ + rust_fields_text(
            indent@,
            vis@,
            fields.deep_view(),
            (i + 1) as nat,
        ));
        i += 1;
    }
}

fn push_struct_code(out: &mut String, s: &RustStruct)
    ensures
        final(out)@ == old(out)@ + struct_code(s.deep_view()),
{
    push_derives(out, &s.derives);
    out.append("pub struct ");
    out.append(s.name.as_str());
    out.append(" {\n");
    push_rust_fields(out, "    ", "pub ", &s.fields);
    out.append("}\n");
    assert(out@ =~= old(out)@ + struct_code(s.deep_view()));
}

fn push_variant_code(out: &mut String, v: &RustEnumVariant)
    ensures
        final(out)@ == old(out)@ + variant_code(v.deep_view()),
{
    out.append("    ");
    out.append(v.name.as_str());
    if v.fields.len() == 0 {
        out.append(",\n");
    } else {
        out.append(" {\n");
        push_rust_fields(out, "        ", "", &v.fields);
        out.append("    },\n");
    }
    assert(out@ =~= old(out)@ + variant_code(v.deep_view())) by {
        assert(""@ =~= Seq::<char>::empty()) by {
            reveal_strlit("");
        }
    }
}

fn push_enum_code(out: &mut String, e: &RustEnum)
    ensures
        final(out)@ == old(out)@ + enum_code(e.deep_view()),
{
    push_derives(out, &e.derives);
    out.append("#[serde(untagged)]\n");
    out.append("pub enum ");
    out.append(e.name.as_str());
    out.append(" {\n");
    let ghost open = out@;
    let mut i: usize = 0;
    assert(out@ =~= open + variants_code(e.variants.deep_view(), 0));
    while i < e.variants.len()
        invariant
            i <= e.variants.len(),
            out@ == open + variants_code(e.variants.deep_view(), i as nat),
        decreases e.variants.len() - i,
    {
        push_variant_code(out, &e.variants[i]);
        assert(out@ =~= open + variants_code(e.variants.deep_view(), (i + 1) as nat));
        i += 1;
    }
    out.append("}\n");
    assert(out@ =~= old(out)@ + enum_code(e.deep_view()));
}

/// The text of a record.
pub fn generate_struct_code(rust_struct: &RustStruct) -> (r: Result<String, Json2RustError>)
    ensures
        r matches Ok(text) && text@ == struct_code(rust_struct.deep_view()),
{
    let mut out = String::new();
    push_struct_code(&mut out, rust_struct);
    assert(out@ =~= struct_code(rust_struct.deep_view()));
    Ok(out)
}

/// The text of an untagged union.
pub fn generate_enum_code(rust_enum: &RustEnum) -> (r: Result<String, Json2RustError>)
    ensures
        r matches Ok(text) && text@ == enum_code(rust_enum.deep_view()),
{
    let mut out = String::new();
    push_enum_code(&mut out, rust_enum);
    assert(out@ =~= enum_code(rust_enum.deep_view()));
    Ok(out)
}

/// The text of generated types.
pub fn generate_code_with_types(types: &GeneratedTypes) -> (r: Result<String, Json2RustError>)
    ensures
        r matches Ok(text) && text@ == types_code(
            types.structs.deep_view(),
            types.enums.deep_view(),
        ),
{
    let mut out = String::from_str("use serde::{Deserialize, Serialize};\n\n");
    let ghost head = out@;
    let mut i: usize = 0;
    assert(out@ =~= head + enums_code(types.enums.deep_view(), 0));
    while i < types.enums.len()
        invariant
            i <= types.enums.len(),
            out@ == head + enums_code(types.enums.deep_view(), i as nat),
        decreases types.enums.len() - i,
    {
        push_enum_code(&mut out, &types.enums[i]);
        out.append("\n");
        assert(out@ =~= head + enums_code(types.enums.deep_view(), (i + 1) as nat));
        i += 1;
    }
    let ghost middle = out@;
    let mut j: usize = 0;
    assert(out@ =~= middle + structs_code(types.structs.deep_view(), 0));
    while j < types.structs.len()
        invariant
            j <= types.structs.len(),
            out@ == middle + structs_code(types.structs.deep_view(), j as nat),
        decreases types.structs.len() - j,
    {
        push_struct_code(&mut out, &types.structs[j]);
        out.append("\n");
        assert(out@ =~= middle + structs_code(types.structs.deep_view(), (j + 1) as nat));
        j += 1;
    }
    assert(out@ =~= types_code(types.structs.deep_view(), types.enums.deep_view()));
    Ok(out)
}

/// The text of generated records.
pub fn generate_code(structs: &Vec<RustStruct>) -> (r: Result<String, Json2RustError>)
    ensures
        r matches Ok(text) && text@ == types_code(
            structs.deep_view(),
            Seq::<RustEnumModel>::empty(),
        ),
{
    let none: Vec<RustEnum> = Vec::new();
    assert(none.deep_view() =~= Seq::<RustEnumModel>::empty());
    let types = GeneratedTypes { structs: replicate_all(structs), enums: none };
    generate_code_with_types(&types)
}

} // verus!

verus! {

/// Why a source text could not be kept: the parser refused it, or a
/// declaration could not be placed in it; the latter with its message.
pub enum Failure {
    Parse,
    Generation(Seq<char>),
}

/// The failure that an error stands for.
pub open spec fn failure_of(e: Json2RustError) -> Failure {
    match e {
        Json2RustError::CodeGeneration(m) => Failure::Generation(m@),
        _ => Failure::Parse,
    }
}

/// A line that belongs to the declaration below it: a line of derives, a
/// line that begins with `pub`, a comment, or a blank line; for a union
/// also a `serde` attribute.
pub open spec fn is_header_line(line: Seq<char>, with_serde: bool) -> bool {
    let t = trim(line);
    t.len() == 0 || is_prefix("#[derive("@, t) || is_prefix("pub "@, t) || is_prefix("//"@, t) || (
    with_serde && is_prefix("#[serde("@, t))
}

/// The start of the first of the lines above the line that starts at `ls`
/// that belong to the declaration on it; `ls` if there is none.
pub open spec fn header_start(s: Seq<char>, ls: int, with_serde: bool) -> int
    decreases ls,
{
    if ls <= 0 || ls > s.len() {
        0
    } else {
        let above = line_start(s, ls - 1);
        if 0 <= above < ls && is_header_line(s.subrange(above, ls - 1), with_serde) {
            header_start(s, above, with_serde)
        } else {
            ls
        }
    }
}

/// Where the declaration of `name` begins in a source text: at the start
/// of the first line that holds `keyword` followed by the name, or of the
/// first of the lines above that belong to it.
pub open spec fn declaration_start(
    s: Seq<char>,
    keyword: Seq<char>,
    name: Seq<char>,
    with_serde: bool,
) -> Option<int> {
    match find_text(s, keyword + name, 0) {
        Some(p) => Some(header_start(s, line_start(s, p), with_serde)),
        None => None,
    }
}

/// The last of the first `n` records that is named `name`.
pub open spec fn last_struct_named(structs: Seq<RustStructModel>, name: Seq<char>, n: nat) -> Option<
    RustStructModel,
>
    decreases n,
{
    if n == 0 || n > structs.len() {
        None
    } else if structs[n - 1].name == name {
        Some(structs[n - 1])
    } else {
        last_struct_named(structs, name, (n - 1) as nat)
    }
}

/// The fields of a variant among the first `n` parsed fields: each named
/// field under the text of its type, optional if that text begins with the
/// optional wrapper.
pub open spec fn variant_fields_of(fields: Seq<SynField>, n: nat) -> Seq<RustFieldModel>
    decreases n,
{
    if n == 0 || n > fields.len() {
        Seq::empty()
    } else {
        let prev = variant_fields_of(fields, (n - 1) as nat);
        match fields[n - 1].name {
            Some(name) => prev.push(
                RustFieldModel {
                    name: name@,
                    ty: short_type_text(fields[n - 1].ty),
                    optional: is_prefix("Option<"@, short_type_text(fields[n - 1].ty)),
                    rename: None,
                },
            ),
            None => prev,
        }
    }
}

/// The variant that a parsed variant declares.
pub open spec fn variant_of(v: SynVariant) -> RustVariantModel {
    RustVariantModel {
        name: v.name@,
        fields: match v.fields {
            SynFields::Named(fs) => variant_fields_of(fs@, fs@.len()),
            _ => Seq::empty(),
        },
    }
}

/// The union that a parsed item declares, with the standard derives.
pub open spec fn enum_of(name: Seq<char>, variants: Seq<SynVariant>) -> RustEnumModel {
    RustEnumModel {
        name: name,
        variants: Seq::new(variants.len(), |i: int| variant_of(variants[i])),
        derives: standard_derives(),
    }
}

/// The unions that the first `n` items of a file declare.
pub open spec fn original_enums(items: Seq<SynItem>, n: nat) -> Seq<RustEnumModel>
    decreases n,
{
    if n == 0 || n > items.len() {
        Seq::empty()
    } else {
        let prev = original_enums(items, (n - 1) as nat);
        match items[n - 1] {
            SynItem::Enum { name, variants, .. } => prev.push(enum_of(name@, variants@)),
            _ => prev,
        }
    }
}

/// Among the first `n` variants of two unions, two at one place differ in
/// name or in the number of their fields.
pub open spec fn variants_differ(a: Seq<RustVariantModel>, b: Seq<RustVariantModel>, n: nat) -> bool
    decreases n,
{
    if n == 0 || n > a.len() || n > b.len() {
        false
    } else {
        variants_differ(a, b, (n - 1) as nat) || a[n - 1].name != b[n - 1].name || a[n
            - 1].fields.len() != b[n - 1].fields.len()
    }
}

/// A union differs from what it was: in the number of its variants, or in
/// the name or the number of fields of a variant.
pub open spec fn was_modified(original: RustEnumModel, modified: RustEnumModel) -> bool {
    original.variants.len() != modified.variants.len() || variants_differ(
        original.variants,
        modified.variants,
        original.variants.len(),
    )
}

/// The fields by which a declared record is extended: those of the schema,
/// read off without descending, if the schema is given and has the name of
/// the record; else those of the new record.
pub open spec fn fields_to_use(
    name: Seq<char>,
    new_struct: RustStructModel,
    schema: Option<(Seq<char>, JsonTypeModel)>,
) -> Result<Seq<RustFieldModel>, Failure> {
    match schema {
        Some((schema_name, t)) => if schema_name == name {
            match t {
                JsonTypeModel::Object(entries) => Ok(plain_fields_of(entries)),
                _ => Err(Failure::Generation("Schema is not an object"@)),
            }
        } else {
            Ok(new_struct.fields)
        },
        None => Ok(new_struct.fields),
    }
}

/// The stretch of a declaration in a source text, or why it has none.
pub open spec fn declaration_span(
    s: Seq<char>,
    keyword: Seq<char>,
    kind: Seq<char>,
    name: Seq<char>,
    with_serde: bool,
) -> Result<(usize, usize), Failure> {
    match declaration_start(s, keyword, name, with_serde) {
        None => Err(Failure::Generation("Could not find "@ + kind + " "@ + name + " in source"@)),
        Some(start) => match close_of(s, start, 0, false) {
            None => Err(Failure::Generation("Could not find end of "@ + kind)),
            Some(end) => Ok((start as usize, end as usize)),
        },
    }
}

/// The replacements of the records among the first `n` items, and the
/// unions after them: every declared record for which a new record of its
/// name was generated is extended and replaced.
pub open spec fn struct_pass(
    items: Seq<SynItem>,
    n: nat,
    code: Seq<char>,
    new_structs: Seq<RustStructModel>,
    strategy: MergeStrategy,
    schema: Option<(Seq<char>, JsonTypeModel)>,
    enums: Seq<RustEnumModel>,
) -> Result<(Seq<(usize, usize, Seq<char>)>, Seq<RustEnumModel>), Failure>
    decreases n,
{
    if n == 0 || n > items.len() {
        Ok((Seq::empty(), enums))
    } else {
        match struct_pass(items, (n - 1) as nat, code, new_structs, strategy, schema, enums) {
            Err(e) => Err(e),
            Ok(prev) => match items[n - 1] {
                SynItem::Struct { name, fields } => match last_struct_named(
                    new_structs,
                    name@,
                    new_structs.len(),
                ) {
                    None => Ok(prev),
                    Some(new_struct) => match fields_to_use(name@, new_struct, schema) {
                        Err(e) => Err(e),
                        Ok(used) => {
                            let ext = extended(
                                existing_of(name@, fields, false),
                                used,
                                prev.1,
                                strategy,
                            );
                            match declaration_span(code, "struct "@, "struct"@, name@, false) {
                                Err(e) => Err(e),
                                Ok(span) => Ok(
                                    (prev.0.push((span.0, span.1, struct_code(ext.0))), ext.1),
                                ),
                            }
                        },
                    },
                },
                _ => Ok(prev),
            },
        }
    }
}

/// The replacements of the unions among the first `n` items: every
/// declared union that differs from what it was is replaced.
pub open spec fn enum_pass(
    items: Seq<SynItem>,
    n: nat,
    code: Seq<char>,
    enums: Seq<RustEnumModel>,
) -> Result<Seq<(usize, usize, Seq<char>)>, Failure>
    decreases n,
{
    if n == 0 || n > items.len() {
        Ok(Seq::empty())
    } else {
        match enum_pass(items, (n - 1) as nat, code, enums) {
            Err(e) => Err(e),
            Ok(prev) => match items[n - 1] {
                SynItem::Enum { name, variants, .. } => match enum_index(enums, name@, 0) {
                    None => Ok(prev),
                    Some(k) => if was_modified(enum_of(name@, variants@), enums[k]) {
                        match declaration_span(code, "enum "@, "enum"@, name@, true) {
                            Err(e) => Err(e),
                            Ok(span) => Ok(prev.push((span.0, span.1, enum_code(enums[k])))),
                        }
                    } else {
                        Ok(prev)
                    },
                },
                _ => Ok(prev),
            },
        }
    }
}

/// The text built from the first `n` replacements, and the position in the
/// source text up to which it is built; an error where a replacement begins
/// before the one in front of it ends.
pub open spec fn plain_splice(s: Seq<char>, sorted: Seq<(usize, usize, Seq<char>)>, n: nat) -> Result<
    (Seq<char>, int),
    Failure,
>
    decreases n,
{
    if n == 0 || n > sorted.len() {
        Ok((Seq::empty(), 0int))
    } else {
        match plain_splice(s, sorted, (n - 1) as nat) {
            Err(e) => Err(e),
            Ok((text, last)) => {
                let edit = sorted[n - 1];
                if last <= edit.0 <= edit.1 <= s.len() {
                    Ok((text + s.subrange(last, edit.0 as int) + edit.2, edit.1 as int))
                } else {
                    Err(Failure::Generation("Overlapping definitions in source"@))
                }
            },
        }
    }
}

/// One of the first `n` items declares a record named `name`.
pub open spec fn struct_declared(items: Seq<SynItem>, name: Seq<char>, n: nat) -> bool
    decreases n,
{
    if n == 0 || n > items.len() {
        false
    } else {
        struct_declared(items, name, (n - 1) as nat) || match items[n - 1] {
            SynItem::Struct { name: declared, .. } => declared@ == name,
            _ => false,
        }
    }
}

/// The text of those of the first `n` new records that the source text does
/// not declare, each behind a line feed.
pub open spec fn appended_structs(items: Seq<SynItem>, new_structs: Seq<RustStructModel>, n: nat) -> Seq<
    char,
>
    decreases n,
{
    if n == 0 || n > new_structs.len() {
        Seq::empty()
    } else {
        let prev = appended_structs(items, new_structs, (n - 1) as nat);
        if struct_declared(items, new_structs[n - 1].name, items.len()) {
            prev
        } else {
            prev + "\n"@ + struct_code(new_structs[n - 1])
        }
    }
}

/// The text of those of the first `n` unions that the source text does not
/// declare, each behind a line feed.
pub open spec fn appended_enums(originals: Seq<RustEnumModel>, enums: Seq<RustEnumModel>, n: nat) -> Seq<
    char,
>
    decreases n,
{
    if n == 0 || n > enums.len() {
        Seq::empty()
    } else {
        let prev = appended_enums(originals, enums, (n - 1) as nat);
        if enum_index(originals, enums[n - 1].name, 0) is Some {
            prev
        } else {
            prev + "\n"@ + enum_code(enums[n - 1])
        }
    }
}

/// The source text with the declarations replaced that were extended,
/// everything else kept, and the new declarations at its end.
pub open spec fn preserved(
    items: Seq<SynItem>,
    code: Seq<char>,
    new_structs: Seq<RustStructModel>,
    strategy: MergeStrategy,
    schema: Option<(Seq<char>, JsonTypeModel)>,
) -> Result<Seq<char>, Failure> {
    let originals = original_enums(items, items.len());
    match struct_pass(items, items.len(), code, new_structs, strategy, schema, originals) {
        Err(e) => Err(e),
        Ok(structs) => match enum_pass(items, items.len(), code, structs.1) {
            Err(e) => Err(e),
            Ok(enums) => {
                let first = sorted_edits(structs.0, structs.0.len());
                let second = sorted_edits(enums, enums.len());
                let all = sorted_edits(first + second, (first + second).len());
                match plain_splice(code, all, all.len()) {
                    Err(e) => Err(e),
                    Ok((text, last)) => Ok(
                        text + code.subrange(last, code.len() as int) + appended_structs(
                            items,
                            new_structs,
                            new_structs.len(),
                        ) + appended_enums(originals, structs.1, structs.1.len()),
                    ),
                }
            },
        },
    }
}

/// The source text with the declarations replaced that were extended, for
/// a source text that the parser accepts.
pub open spec fn preserved_source(
    code: Seq<char>,
    new_structs: Seq<RustStructModel>,
    strategy: MergeStrategy,
    schema: Option<(Seq<char>, JsonTypeModel)>,
) -> Result<Seq<char>, Failure> {
    match parsed_items(code) {
        Some(items) => preserved(items, code, new_structs, strategy, schema),
        None => Err(Failure::Parse),
    }
}

} // verus!

verus! {

/// Whether the line `v[a..b]` belongs to the declaration below it.
fn is_header(v: &Vec<char>, a: usize, b: usize, with_serde: bool) -> (r: bool)
    requires
        a <= b <= v.len(),
    ensures
        r == is_header_line(v@.subrange(a as int, b as int), with_serde),
{
    let (x, y) = trim_range(v, a, b);
    proof {
        let line = v@.subrange(a as int, b as int);
        lemma_trim_bounds(line);
        assert(trim(line) =~= v@.subrange(x as int, y as int));
    }
    x == y || trimmed_starts_with(v, a, b, "#[derive(") || trimmed_starts_with(v, a, b, "pub ")
        || trimmed_starts_with(v, a, b, "//") || (with_serde && trimmed_starts_with(
        v,
        a,
        b,
        "#[serde(",
    ))
}

/// The start of the first of the lines that belong to the declaration on
/// the line that starts at `ls`.
fn find_header_start(v: &Vec<char>, ls: usize, with_serde: bool) -> (r: usize)
    requires
        ls <= v.len(),
    ensures
        r == header_start(v@, ls as int, with_serde),
        r <= ls,
{
    let mut cur: usize = ls;
    while cur > 0
        invariant
            cur <= ls <= v.len(),
            header_start(v@, ls as int, with_serde) == header_start(v@, cur as int, with_serde),
        decreases cur,
    {
        let above = find_line_start(v, cur - 1);
        if !is_header(v, above, cur - 1, with_serde) {
            return cur;
        }
        cur = above;
    }
    0
}

/// The stretch of a declaration in a source text.
fn span_of_declaration(v: &Vec<char>, keyword: &str, kind: &str, name: &str, with_serde: bool) -> (r:
    Result<(usize, usize), Json2RustError>)
    ensures
        match r {
            Ok(span) => declaration_span(v@, keyword@, kind@, name@, with_serde) == Ok::<
                (usize, usize),
                Failure,
            >(span) && span.0 <= span.1 <= v.len(),
            Err(e) => declaration_span(v@, keyword@, kind@, name@, with_serde) == Err::<
                (usize, usize),
                Failure,
            >(failure_of(e)) && e is CodeGeneration,
        },
{
    let pattern = concat2(keyword, name);
    let start = match find_in(v, pattern.as_str(), 0) {
        Some(p) => {
            let ls = find_line_start(v, p);
            find_header_start(v, ls, with_serde)
        },
        None => {
            let mut m = String::from_str("Could not find ");
            m.append(kind);
            m.append(" ");
            m.append(name);
            m.append(" in source");
            assert(m@ =~= "Could not find "@ + kind@ + " "@ + name@ + " in source"@);
            return Err(Json2RustError::CodeGeneration(m));
        },
    };
    match find_block_end(v, start) {
        Some(end) => Ok((start, end)),
        None => Err(Json2RustError::CodeGeneration(concat2("Could not find end of ", kind))),
    }
}

/// The position behind the brace that closes the first block opened at or
/// after `start`.
fn find_block_end(v: &Vec<char>, start: usize) -> (r: Option<usize>)
    requires
        start <= v.len(),
    ensures
        match r {
            Some(e) => close_of(v@, start as int, 0, false) == Some(e as int) && start < e
                <= v.len(),
            None => close_of(v@, start as int, 0, false) is None,
        },
{
    let mut count: i128 = 0;
    let mut opened = false;
    let mut i: usize = start;
    while i < v.len()
        invariant
            start <= i <= v.len(),
            -(i - start) <= count <= i - start,
            close_of(v@, start as int, 0, false) == close_of(v@, i as int, count as int, opened),
        decreases v.len() - i,
    {
        if v[i] == '{' {
            count += 1;
            opened = true;
        } else if v[i] == '}' {
            if opened && count == 1 {
                return Some(i + 1);
            }
            count -= 1;
        }
        i += 1;
    }
    None
}

/// Where the declaration of the record `struct_name` begins in a source text.
pub fn find_struct_start(source: &str, struct_name: &str) -> (r: Result<usize, Json2RustError>)
    ensures
        match r {
            Ok(p) => declaration_start(source@, "struct "@, struct_name@, false) == Some(p as int),
            Err(e) => declaration_start(source@, "struct "@, struct_name@, false) is None && e
                is CodeGeneration,
        },
{
    let v = to_chars(source);
    let pattern = concat2("struct ", struct_name);
    match find_in(&v, pattern.as_str(), 0) {
        Some(p) => {
            let ls = find_line_start(&v, p);
            Ok(find_header_start(&v, ls, false))
        },
        None => Err(
            Json2RustError::CodeGeneration(
                concat3("Could not find struct ", struct_name, " in source"),
            ),
        ),
    }
}

/// Where the declaration of the union `enum_name` begins in a source text.
pub fn find_enum_start(source: &str, enum_name: &str) -> (r: Result<usize, Json2RustError>)
    ensures
        match r {
            Ok(p) => declaration_start(source@, "enum "@, enum_name@, true) == Some(p as int),
            Err(e) => declaration_start(source@, "enum "@, enum_name@, true) is None && e
                is CodeGeneration,
        },
{
    let v = to_chars(source);
    let pattern = concat2("enum ", enum_name);
    match find_in(&v, pattern.as_str(), 0) {
        Some(p) => {
            let ls = find_line_start(&v, p);
            Ok(find_header_start(&v, ls, true))
        },
        None => Err(
            Json2RustError::CodeGeneration(concat3("Could not find enum ", enum_name, " in source")),
        ),
    }
}

/// Where the block ends that begins at or after `start`.
pub fn find_struct_end(source: &str, start: usize) -> (r: Result<usize, Json2RustError>)
    ensures
        match r {
            Ok(e) => start <= source@.len() && close_of(source@, start as int, 0, false) == Some(
                e as int,
            ),
            Err(e) => (start > source@.len() || close_of(source@, start as int, 0, false) is None)
                && e is CodeGeneration,
        },
{
    let v = to_chars(source);
    if start > v.len() {
        return Err(Json2RustError::CodeGeneration(String::from_str("Could not find end of struct")));
    }
    match find_block_end(&v, start) {
        Some(e) => Ok(e),
        None => Err(Json2RustError::CodeGeneration(String::from_str("Could not find end of struct"))),
    }
}

/// Where the block ends that begins at or after `start`.
pub fn find_enum_end(source: &str, start: usize) -> (r: Result<usize, Json2RustError>)
    ensures
        match r {
            Ok(e) => start <= source@.len() && close_of(source@, start as int, 0, false) == Some(
                e as int,
            ),
            Err(e) => (start > source@.len() || close_of(source@, start as int, 0, false) is None)
                && e is CodeGeneration,
        },
{
    let v = to_chars(source);
    if start > v.len() {
        return Err(Json2RustError::CodeGeneration(String::from_str("Could not find end of enum")));
    }
    match find_block_end(&v, start) {
        Some(e) => Ok(e),
        None => Err(Json2RustError::CodeGeneration(String::from_str("Could not find end of enum"))),
    }
}

/// The record that a parsed item declares, with each type by its last segment.
pub fn parse_struct_from_item(name: &str, fields: &SynFields) -> (r: crate::types::ExistingStruct)
    ensures
        r.deep_view() == existing_of(name@, *fields, false),
{
    existing_from_item(name, fields, false)
}

/// The derives of a parsed union: the standard derives.
pub fn extract_derives() -> (r: Vec<String>)
    ensures
        r.deep_view() == standard_derives(),
{
    default_derives()
}

/// The fields of a variant.
fn variant_fields_from(fields: &Vec<SynField>) -> (r: Vec<RustField>)
    ensures
        r.deep_view() == variant_fields_of(fields@, fields.len() as nat),
{
    let mut r: Vec<RustField> = Vec::new();
    assert(r.deep_view() =~= Seq::<RustFieldModel>::empty());
    let mut i: usize = 0;
    while i < fields.len()
        invariant
            i <= fields.len(),
            r.deep_view() == variant_fields_of(fields@, i as nat),
        decreases fields.len() - i,
    {
        match &fields[i].name {
            Some(n) => {
                let ty = type_to_string(&fields[i].ty);
                let f = RustField {
                    name: n.clone(),
                    is_optional: starts_with(ty.as_str(), "Option<"),
                    field_type: ty,
                    serde_rename: None,
                };
                let ghost before = r;
                let ghost added = f;
                r.push(f);
                proof {
                    lemma_push_view(before, r, added);
                }
            },
            None => {},
        }
        i += 1;
    }
    r
}

/// The union that a parsed item declares.
pub fn parse_enum_from_item(name: &str, variants: &Vec<SynVariant>) -> (r: RustEnum)
    ensures
        r.deep_view() == enum_of(name@, variants@),
{
    let mut vs: Vec<RustEnumVariant> = Vec::new();
    let mut i: usize = 0;
    while i < variants.len()
        invariant
            i <= variants.len(),
            vs@.len() == i,
            forall|j: int| 0 <= j < i ==> vs@[j].deep_view() == variant_of(variants@[j]),
        decreases variants.len() - i,
    {
        let fields = match &variants[i].fields {
            SynFields::Named(fs) => variant_fields_from(fs),
            _ => {
                let none: Vec<RustField> = Vec::new();
                assert(none.deep_view() =~= Seq::<RustFieldModel>::empty());
                none
            },
        };
        vs.push(RustEnumVariant { name: variants[i].name.clone(), fields });
        i += 1;
    }
    assert(vs.deep_view() =~= Seq::new(variants@.len(), |i: int| variant_of(variants@[i])));
    RustEnum { name: String::from_str(name), variants: vs, derives: extract_derives() }
}

/// Whether a union differs from what it was.
pub fn enum_was_modified(original: &RustEnum, modified: &RustEnum) -> (r: bool)
    ensures
        r == was_modified(original.deep_view(), modified.deep_view()),
{
    if original.variants.len() != modified.variants.len() {
        return true;
    }
    let mut i: usize = 0;
    while i < original.variants.len()
        invariant
            i <= original.variants.len(),
            original.variants.len() == modified.variants.len(),
            !variants_differ(
                original.variants.deep_view(),
                modified.variants.deep_view(),
                i as nat,
            ),
        decreases original.variants.len() - i,
    {
        if !same_text(original.variants[i].name.as_str(), modified.variants[i].name.as_str())
            || original.variants[i].fields.len() != modified.variants[i].fields.len() {
            proof {
                lemma_differ_grows(
                    original.variants.deep_view(),
                    modified.variants.deep_view(),
                    (i + 1) as nat,
                    original.variants.len() as nat,
                );
            }
            return true;
        }
        i += 1;
    }
    false
}

pub proof fn lemma_differ_grows(a: Seq<RustVariantModel>, b: Seq<RustVariantModel>, k: nat, n: nat)
    requires
        k <= n <= a.len(),
        n <= b.len(),
        variants_differ(a, b, k),
    ensures
        variants_differ(a, b, n),
    decreases n,
{
    if k < n {
        lemma_differ_grows(a, b, k, (n - 1) as nat);
    }
}

/// Whether one of the items declares a record named `name`.
pub fn struct_exists_in_original(items: &Vec<SynItem>, name: &str) -> (r: bool)
    ensures
        r == struct_declared(items@, name@, items.len() as nat),
{
    let mut i: usize = 0;
    while i < items.len()
        invariant
            i <= items.len(),
            !struct_declared(items@, name@, i as nat),
        decreases items.len() - i,
    {
        let found = match &items[i] {
            SynItem::Struct { name: declared, .. } => same_text(declared.as_str(), name),
            _ => false,
        };
        if found {
            proof {
                lemma_declared_grows(items@, name@, (i + 1) as nat, items.len() as nat);
            }
            return true;
        }
        i += 1;
    }
    false
}

pub proof fn lemma_declared_grows(items: Seq<SynItem>, name: Seq<char>, k: nat, n: nat)
    requires
        k <= n <= items.len(),
        struct_declared(items, name, k),
    ensures
        struct_declared(items, name, n),
    decreases n,
{
    if k < n {
        lemma_declared_grows(items, name, k, (n - 1) as nat);
    }
}

/// The last record named `name`.
fn find_last_struct(structs: &Vec<RustStruct>, name: &str) -> (r: Option<usize>)
    ensures
        match r {
            Some(i) => i < structs.len() && last_struct_named(
                structs.deep_view(),
                name@,
                structs.len() as nat,
            ) == Some(structs@[i as int].deep_view()),
            None => last_struct_named(structs.deep_view(), name@, structs.len() as nat) is None,
        },
{
    let mut i: usize = structs.len();
    while i > 0
        invariant
            i <= structs.len(),
            last_struct_named(structs.deep_view(), name@, structs.len() as nat)
                == last_struct_named(structs.deep_view(), name@, i as nat),
        decreases i,
    {
        if same_text(structs[i - 1].name.as_str(), name) {
            return Some(i - 1);
        }
        i -= 1;
    }
    None
}

/// The name and the type of a schema, as mathematical values.
pub open spec fn schema_model(schema: Option<&JsonSchema>) -> Option<(Seq<char>, JsonTypeModel)> {
    match schema {
        Some(s) => Some((s.name@, json_type_model(s.json_type))),
        None => None,
    }
}

/// The unions that the items of a file declare.
fn enums_of_items(items: &Vec<SynItem>) -> (r: Vec<RustEnum>)
    ensures
        r.deep_view() == original_enums(items@, items.len() as nat),
{
    let mut r: Vec<RustEnum> = Vec::new();
    assert(r.deep_view() =~= Seq::<RustEnumModel>::empty());
    let mut i: usize = 0;
    while i < items.len()
        invariant
            i <= items.len(),
            r.deep_view() == original_enums(items@, i as nat),
        decreases items.len() - i,
    {
        match &items[i] {
            SynItem::Enum { name, variants, .. } => {
                let e = parse_enum_from_item(name.as_str(), variants);
                let ghost before = r;
                let ghost added = e;
                r.push(e);
                proof {
                    lemma_push_view(before, r, added);
                }
            },
            _ => {},
        }
        i += 1;
    }
    r
}

/// The replacements of the declared records, with the unions extended on
/// the way.
fn replace_structs(
    items: &Vec<SynItem>,
    v: &Vec<char>,
    new_structs: &Vec<RustStruct>,
    merge_strategy: &MergeStrategy,
    schema: Option<&JsonSchema>,
    enums: &mut Vec<RustEnum>,
) -> (r: Result<Vec<(usize, usize, String)>, Json2RustError>)
    ensures
        match r {
            Ok(edits) => struct_pass(
                items@,
                items.len() as nat,
                v@,
                new_structs.deep_view(),
                *merge_strategy,
                schema_model(schema),
                old(enums).deep_view(),
            ) == Ok::<(Seq<(usize, usize, Seq<char>)>, Seq<RustEnumModel>), Failure>(
                (edits.deep_view(), final(enums).deep_view()),
            ),
            Err(e) => struct_pass(
                items@,
                items.len() as nat,
                v@,
                new_structs.deep_view(),
                *merge_strategy,
                schema_model(schema),
                old(enums).deep_view(),
            ) == Err::<(Seq<(usize, usize, Seq<char>)>, Seq<RustEnumModel>), Failure>(
                failure_of(e),
            ) && e is CodeGeneration,
        },
{
    let ghost start = enums.deep_view();
    let mut edits: Vec<(usize, usize, String)> = Vec::new();
    assert(edits.deep_view() =~= Seq::<(usize, usize, Seq<char>)>::empty());
    let mut i: usize = 0;
    while i < items.len()
        invariant
            i <= items.len(),
            start == old(enums).deep_view(),
            struct_pass(
                items@,
                i as nat,
                v@,
                new_structs.deep_view(),
                *merge_strategy,
                schema_model(schema),
                start,
            ) == Ok::<(Seq<(usize, usize, Seq<char>)>, Seq<RustEnumModel>), Failure>(
                (edits.deep_view(), enums.deep_view()),
            ),
        decreases items.len() - i,
    {
        match &items[i] {
            SynItem::Struct { name, fields } => {
                match find_last_struct(new_structs, name.as_str()) {
                    Some(k) => {
                        let from_schema = match schema {
                            Some(s) => same_text(s.name.as_str(), name.as_str()),
                            None => false,
                        };
                        let used = if from_schema {
                            match extract_fields_from_schema(schema.unwrap()) {
                                Ok(f) => f,
                                Err(e) => {
                                    proof {
                                        lemma_struct_pass_error(
                                            items@,
                                            (i + 1) as nat,
                                            items.len() as nat,
                                            v@,
                                            new_structs.deep_view(),
                                            *merge_strategy,
                                            schema_model(schema),
                                            start,
                                        );
                                    }
                                    return Err(e);
                                },
                            }
                        } else {
                            replicate_all(&new_structs[k].fields)
                        };
                        let existing = parse_struct_from_item(name.as_str(), fields);
                        let extended_struct = extend_existing_struct(
                            &existing,
                            used,
                            enums,
                            merge_strategy,
                        );
                        let span = match span_of_declaration(
                            v,
                            "struct ",
                            "struct",
                            name.as_str(),
                            false,
                        ) {
                            Ok(s) => s,
                            Err(e) => {
                                proof {
                                    lemma_struct_pass_error(
                                        items@,
                                        (i + 1) as nat,
                                        items.len() as nat,
                                        v@,
                                        new_structs.deep_view(),
                                        *merge_strategy,
                                        schema_model(schema),
                                        start,
                                    );
                                }
                                return Err(e);
                            },
                        };
                        let mut text = String::new();
                        push_struct_code(&mut text, &extended_struct);
                        assert(text@ =~= struct_code(extended_struct.deep_view()));
                        let e = (span.0, span.1, text);
                        let ghost before = edits;
                        let ghost added = e;
                        edits.push(e);
                        proof {
                            lemma_push_view(before, edits, added);
                        }
                    },
                    None => {},
                }
            },
            _ => {},
        }
        i += 1;
    }
    Ok(edits)
}

/// An error among the first `k` items is the error of the first `n >= k`.
pub proof fn lemma_struct_pass_error(
    items: Seq<SynItem>,
    k: nat,
    n: nat,
    code: Seq<char>,
    new_structs: Seq<RustStructModel>,
    strategy: MergeStrategy,
    schema: Option<(Seq<char>, JsonTypeModel)>,
    enums: Seq<RustEnumModel>,
)
    requires
        k <= n <= items.len(),
        struct_pass(items, k, code, new_structs, strategy, schema, enums) is Err,
    ensures
        struct_pass(items, n, code, new_structs, strategy, schema, enums) == struct_pass(
            items,
            k,
            code,
            new_structs,
            strategy,
            schema,
            enums,
        ),
    decreases n,
{
    if k < n {
        lemma_struct_pass_error(items, k, (n - 1) as nat, code, new_structs, strategy, schema, enums);
    }
}

/// The replacements of the declared unions that differ from what they were.
fn replace_enums(items: &Vec<SynItem>, v: &Vec<char>, enums: &Vec<RustEnum>) -> (r: Result<
    Vec<(usize, usize, String)>,
    Json2RustError,
>)
    ensures
        match r {
            Ok(edits) => enum_pass(items@, items.len() as nat, v@, enums.deep_view()) == Ok::<
                Seq<(usize, usize, Seq<char>)>,
                Failure,
            >(edits.deep_view()),
            Err(e) => enum_pass(items@, items.len() as nat, v@, enums.deep_view()) == Err::<
                Seq<(usize, usize, Seq<char>)>,
                Failure,
            >(failure_of(e)) && e is CodeGeneration,
        },
{
    let mut edits: Vec<(usize, usize, String)> = Vec::new();
    assert(edits.deep_view() =~= Seq::<(usize, usize, Seq<char>)>::empty());
    let mut i: usize = 0;
    while i < items.len()
        invariant
            i <= items.len(),
            enum_pass(items@, i as nat, v@, enums.deep_view()) == Ok::<
                Seq<(usize, usize, Seq<char>)>,
                Failure,
            >(edits.deep_view()),
        decreases items.len() - i,
    {
        match &items[i] {
            SynItem::Enum { name, variants, .. } => {
                match find_enum(enums, name.as_str()) {
                    Some(k) => {
                        let original = parse_enum_from_item(name.as_str(), variants);
                        if enum_was_modified(&original, &enums[k]) {
                            let span = match span_of_declaration(
                                v,
                                "enum ",
                                "enum",
                                name.as_str(),
                                true,
                            ) {
                                Ok(s) => s,
                                Err(e) => {
                                    proof {
                                        lemma_enum_pass_error(
                                            items@,
                                            (i + 1) as nat,
                                            items.len() as nat,
                                            v@,
                                            enums.deep_view(),
                                        );
                                    }
                                    return Err(e);
                                },
                            };
                            let mut text = String::new();
                            push_enum_code(&mut text, &enums[k]);
                            assert(text@ =~= enum_code(enums@[k as int].deep_view()));
                            let e = (span.0, span.1, text);
                            let ghost before = edits;
                            let ghost added = e;
                            edits.push(e);
                            proof {
                                lemma_push_view(before, edits, added);
                            }
                        }
                    },
                    None => {},
                }
            },
            _ => {},
        }
        i += 1;
    }
    Ok(edits)
}

/// An error among the first `k` items is the error of the first `n >= k`.
pub proof fn lemma_enum_pass_error(
    items: Seq<SynItem>,
    k: nat,
    n: nat,
    code: Seq<char>,
    enums: Seq<RustEnumModel>,
)
    requires
        k <= n <= items.len(),
        enum_pass(items, k, code, enums) is Err,
    ensures
        enum_pass(items, n, code, enums) == enum_pass(items, k, code, enums),
    decreases n,
{
    if k < n {
        lemma_enum_pass_error(items, k, (n - 1) as nat, code, enums);
    }
}

/// An error among the first `k` replacements is the error of the first `n >= k`.
pub proof fn lemma_plain_splice_error(
    s: Seq<char>,
    sorted: Seq<(usize, usize, Seq<char>)>,
    k: nat,
    n: nat,
)
    requires
        k <= n <= sorted.len(),
        plain_splice(s, sorted, k) is Err,
    ensures
        plain_splice(s, sorted, n) == plain_splice(s, sorted, k),
    decreases n,
{
    if k < n {
        lemma_plain_splice_error(s, sorted, k, (n - 1) as nat);
    }
}

/// The text built from the replacements, in order, and the position in the
/// source text up to which it is built.
fn splice_plain(v: &Vec<char>, sorted: &Vec<(usize, usize, String)>) -> (r: Result<
    (String, usize),
    Json2RustError,
>)
    ensures
        match r {
            Ok(done) => plain_splice(v@, sorted.deep_view(), sorted.len() as nat) == Ok::<
                (Seq<char>, int),
                Failure,
            >((done.0@, done.1 as int)) && done.1 <= v.len(),
            Err(e) => plain_splice(v@, sorted.deep_view(), sorted.len() as nat) == Err::<
                (Seq<char>, int),
                Failure,
            >(failure_of(e)) && e is CodeGeneration,
        },
{
    let mut out = String::new();
    let mut last: usize = 0;
    let mut i: usize = 0;
    while i < sorted.len()
        invariant
            i <= sorted.len(),
            last <= v.len(),
            plain_splice(v@, sorted.deep_view(), i as nat) == Ok::<(Seq<char>, int), Failure>(
                (out@, last as int),
            ),
        decreases sorted.len() - i,
    {
        let a = sorted[i].0;
        let b = sorted[i].1;
        if !(last <= a && a <= b && b <= v.len()) {
            proof {
                lemma_plain_splice_error(v@, sorted.deep_view(), (i + 1) as nat, sorted.len() as nat);
            }
            return Err(
                Json2RustError::CodeGeneration(String::from_str("Overlapping definitions in source")),
            );
        }
        let between = sub_string(v, last, a);
        out.append(between.as_str());
        out.append(sorted[i].2.as_str());
        last = b;
        i += 1;
    }
    Ok((out, last))
}

/// The source text with the declarations replaced that were extended, for
/// the items that the parser found in it. With a schema of the name of a
/// declared record, that record is extended by the fields of the schema.
pub fn preserve_items(
    items: &Vec<SynItem>,
    original_code: &str,
    new_structs: &Vec<RustStruct>,
    merge_strategy: &MergeStrategy,
    schema: Option<&JsonSchema>,
) -> (r: Result<String, Json2RustError>)
    ensures
        match r {
            Ok(text) => preserved(
                items@,
                original_code@,
                new_structs.deep_view(),
                *merge_strategy,
                schema_model(schema),
            ) == Ok::<Seq<char>, Failure>(text@),
            Err(e) => preserved(
                items@,
                original_code@,
                new_structs.deep_view(),
                *merge_strategy,
                schema_model(schema),
            ) == Err::<Seq<char>, Failure>(failure_of(e)) && e is CodeGeneration,
        },
{
    let v = to_chars(original_code);
    let originals = enums_of_items(items);
    let mut temp = replicate_all(&originals);
    let struct_edits = match replace_structs(
        items,
        &v,
        new_structs,
        merge_strategy,
        schema,
        &mut temp,
    ) {
        Ok(e) => e,
        Err(e) => {
            return Err(e);
        },
    };
    let enum_edits = match replace_enums(items, &v, &temp) {
        Ok(e) => e,
        Err(e) => {
            return Err(e);
        },
    };
    let mut all = sort_edits(struct_edits);
    let mut second = sort_edits(enum_edits);
    let ghost a = all.deep_view();
    let ghost b = second.deep_view();
    all.append(&mut second);
    assert(all.deep_view() =~= a + b);
    let sorted = sort_edits(all);
    let (mut out, last) = match splice_plain(&v, &sorted) {
        Ok(done) => done,
        Err(e) => {
            return Err(e);
        },
    };
    let tail = sub_string(&v, last, v.len());
    out.append(tail.as_str());
    let ghost body = out@;
    let mut i: usize = 0;
    assert(out@ =~= body + appended_structs(items@, new_structs.deep_view(), 0));
    while i < new_structs.len()
        invariant
            i <= new_structs.len(),
            out@ == body + appended_structs(items@, new_structs.deep_view(), i as nat),
        decreases new_structs.len() - i,
    {
        if !struct_exists_in_original(items, new_structs[i].name.as_str()) {
            out.append("\n");
            push_struct_code(&mut out, &new_structs[i]);
        }
        assert(out@ =~= body + appended_structs(items@, new_structs.deep_view(), (i + 1) as nat));
        i += 1;
    }
    let ghost with_structs = out@;
    let mut j: usize = 0;
    assert(out@ =~= with_structs + appended_enums(originals.deep_view(), temp.deep_view(), 0));
    while j < temp.len()
        invariant
            j <= temp.len(),
            out@ == with_structs + appended_enums(
                originals.deep_view(),
                temp.deep_view(),
                j as nat,
            ),
        decreases temp.len() - j,
    {
        if find_enum(&originals, temp[j].name.as_str()).is_none() {
            out.append("\n");
            push_enum_code(&mut out, &temp[j]);
        }
        assert(out@ =~= with_structs + appended_enums(
            originals.deep_view(),
            temp.deep_view(),
            (j + 1) as nat,
        ));
        j += 1;
    }
    assert(out@ =~= body + appended_structs(
        items@,
        new_structs.deep_view(),
        new_structs.len() as nat,
    ) + appended_enums(originals.deep_view(), temp.deep_view(), temp.len() as nat));
    Ok(out)
}

/// The source text with the declarations replaced that were extended; the
/// text is parsed first.
pub fn generate_code_preserving_original_with_schema(
    new_structs: &Vec<RustStruct>,
    original_code: &str,
    merge_strategy: &MergeStrategy,
    schema: Option<&JsonSchema>,
) -> (r: Result<String, Json2RustError>)
    ensures
        match r {
            Ok(text) => preserved_source(
                original_code@,
                new_structs.deep_view(),
                *merge_strategy,
                schema_model(schema),
            ) == Ok::<Seq<char>, Failure>(text@),
            Err(e) => preserved_source(
                original_code@,
                new_structs.deep_view(),
                *merge_strategy,
                schema_model(schema),
            ) == Err::<Seq<char>, Failure>(
                if parsed_items(original_code@) is None {
                    Failure::Parse
                } else {
                    failure_of(e)
                },
            ) && (parsed_items(original_code@) is None ==> e is RustParsing) && (parsed_items(
                original_code@,
            ) is Some ==> e is CodeGeneration),
        },
{
    match read_items(original_code) {
        Ok(items) => preserve_items(&items, original_code, new_structs, merge_strategy, schema),
        Err(e) => {
            let text = syn_error_text(&e);
            Err(
                Json2RustError::RustParsing(
                    concat2("Failed to parse original code: ", text.as_str()),
                ),
            )
        },
    }
}

/// The source text with the declarations replaced that were extended.
pub fn generate_code_preserving_original(
    new_structs: &Vec<RustStruct>,
    original_code: &str,
    merge_strategy: &MergeStrategy,
) -> (r: Result<String, Json2RustError>)
    ensures
        match r {
            Ok(text) => preserved_source(
                original_code@,
                new_structs.deep_view(),
                *merge_strategy,
                None,
            ) == Ok::<Seq<char>, Failure>(text@),
            Err(e) => preserved_source(
                original_code@,
                new_structs.deep_view(),
                *merge_strategy,
                None,
            ) == Err::<Seq<char>, Failure>(
                if parsed_items(original_code@) is None {
                    Failure::Parse
                } else {
                    failure_of(e)
                },
            ) && (parsed_items(original_code@) is None ==> e is RustParsing),
        },
{
    generate_code_preserving_original_with_schema(new_structs, original_code, merge_strategy, None)
}

/// What the text of generated types is to be: the generated text alone,
/// or, with a source text, that text with its declarations extended.
pub open spec fn generated_code(
    structs: Seq<RustStructModel>,
    enums: Seq<RustEnumModel>,
    original: Option<Seq<char>>,
    strategy: MergeStrategy,
    schema: Option<(Seq<char>, JsonTypeModel)>,
) -> Result<Seq<char>, Failure> {
    match original {
        Some(code) => preserved_source(code, structs, strategy, schema),
        None => Ok(types_code(structs, enums)),
    }
}

/// The view of an optional text.
pub open spec fn text_model(original: Option<&str>) -> Option<Seq<char>> {
    match original {
        Some(s) => Some(s@),
        None => None,
    }
}

/// The text of generated types; with a source text, that text with its
/// declarations extended, under a schema if one is given.
pub fn generate_code_with_types_and_preservation_and_schema(
    types: &GeneratedTypes,
    original_code: Option<&str>,
    merge_strategy: &MergeStrategy,
    schema: Option<&JsonSchema>,
) -> (r: Result<String, Json2RustError>)
    ensures
        match r {
            Ok(text) => generated_code(
                types.structs.deep_view(),
                types.enums.deep_view(),
                text_model(original_code),
                *merge_strategy,
                schema_model(schema),
            ) == Ok::<Seq<char>, Failure>(text@),
            Err(e) => text_model(original_code) matches Some(code) && generated_code(
                types.structs.deep_view(),
                types.enums.deep_view(),
                text_model(original_code),
                *merge_strategy,
                schema_model(schema),
            ) == Err::<Seq<char>, Failure>(
                if parsed_items(code) is None {
                    Failure::Parse
                } else {
                    failure_of(e)
                },
            ) && (parsed_items(code) is None ==> e is RustParsing) && (parsed_items(code) is Some
                ==> e is CodeGeneration),
        },
{
    match original_code {
        Some(original) => generate_code_preserving_original_with_schema(
            &types.structs,
            original,
            merge_strategy,
            schema,
        ),
        None => generate_code_with_types(types),
    }
}

/// The text of generated types; with a source text, that text with its
/// declarations extended.
pub fn generate_code_with_types_and_preservation(
    types: &GeneratedTypes,
    original_code: Option<&str>,
    merge_strategy: &MergeStrategy,
) -> (r: Result<String, Json2RustError>)
    ensures
        match r {
            Ok(text) => generated_code(
                types.structs.deep_view(),
                types.enums.deep_view(),
                text_model(original_code),
                *merge_strategy,
                None,
            ) == Ok::<Seq<char>, Failure>(text@),
            Err(e) => generated_code(
                types.structs.deep_view(),
                types.enums.deep_view(),
                text_model(original_code),
                *merge_strategy,
                None,
            ) is Err,
        },
{
    generate_code_with_types_and_preservation_and_schema(types, original_code, merge_strategy, None)
}

/// The text of generated records; with a source text, that text with its
/// declarations extended under the strategy given.
pub fn generate_code_with_preservation_and_strategy(
    structs: &Vec<RustStruct>,
    original_code: Option<&str>,
    merge_strategy: &MergeStrategy,
) -> (r: Result<String, Json2RustError>)
    ensures
        match r {
            Ok(text) => generated_code(
                structs.deep_view(),
                Seq::<RustEnumModel>::empty(),
                text_model(original_code),
                *merge_strategy,
                None,
            ) == Ok::<Seq<char>, Failure>(text@),
            Err(e) => generated_code(
                structs.deep_view(),
                Seq::<RustEnumModel>::empty(),
                text_model(original_code),
                *merge_strategy,
                None,
            ) is Err,
        },
{
    let none: Vec<RustEnum> = Vec::new();
    assert(none.deep_view() =~= Seq::<RustEnumModel>::empty());
    let types = GeneratedTypes { structs: replicate_all(structs), enums: none };
    generate_code_with_types_and_preservation(&types, original_code, merge_strategy)
}

/// The text of generated records; with a source text, that text with its
/// declarations extended by optional fields.
pub fn generate_code_with_preservation(structs: &Vec<RustStruct>, original_code: Option<&str>) -> (r:
    Result<String, Json2RustError>)
    ensures
        match r {
            Ok(text) => generated_code(
                structs.deep_view(),
                Seq::<RustEnumModel>::empty(),
                text_model(original_code),
                MergeStrategy::Optional,
                None,
            ) == Ok::<Seq<char>, Failure>(text@),
            Err(e) => generated_code(
                structs.deep_view(),
                Seq::<RustEnumModel>::empty(),
                text_model(original_code),
                MergeStrategy::Optional,
                None,
            ) is Err,
        },
{
    generate_code_with_preservation_and_strategy(structs, original_code, &MergeStrategy::Optional)
}

} // verus!
