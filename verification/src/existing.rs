//! The records that a source text declares, as the schema path reads them,
//! and how far a record resembles a list of new fields.

use vstd::prelude::*;
use vstd::string::*;
use crate::syntax::{
    parsed_items, read_items, syn_error_text, SynArgument, SynArguments, SynField, SynFields,
    SynItem, SynSegment, SynType,
};
use crate::text::{concat2, same_text};
use crate::typetext::{
    is_numeric_text, is_numeric_type, is_optional, is_optional_text, loosely_compatible,
    types_loosely_compatible, unwrap_option, unwrapped,
};
use crate::types::{ExistingModel, ExistingStruct, Json2RustError, RustField, RustFieldModel};

verus! {

/// The share of similarity, in fifths, from which a record is taken for the
/// record that new fields extend: three fifths.
pub const SIMILARITY_FIFTHS: u128 = 3;

/// The greatest number of fields for which similarity is computed.
pub const SIMILARITY_LIMIT: u128 = 0x1_0000_0000;

/// Whether two types are compatible: equal up to spacing, one the optional
/// wrapper of the other, or a pair of the cross table.
pub fn are_types_compatible(existing_type: &str, new_type: &str) -> (r: bool)
    ensures
        r == loosely_compatible(existing_type@, new_type@),
{
    types_loosely_compatible(existing_type, new_type)
}

/// What the optional wrapper of a type holds; the type itself, if it has none.
pub fn extract_option_inner(option_type: &str) -> (r: String)
    ensures
        r@ == unwrapped(option_type@),
{
    unwrap_option(option_type)
}

/// The type that a field keeps when an old and a new type meet: the old
/// type, if the two are equal, if it is a number type and the new one is
/// `f64`, or if it is the optional wrapper of such a type; the new type, if
/// it is the optional wrapper of the old one; else the new type.
pub open spec fn kept_type(existing: Seq<char>, new: Seq<char>) -> Seq<char> {
    if existing == new {
        existing
    } else if is_numeric_text(existing) && new == "f64"@ {
        existing
    } else if is_optional_text(existing) && !is_optional_text(new) && (unwrapped(existing) == new
        || (is_numeric_text(unwrapped(existing)) && new == "f64"@)) {
        existing
    } else {
        new
    }
}

/// The type that a field keeps when an old and a new type meet.
pub fn get_compatible_type(existing_type: &str, new_type: &str) -> (r: String)
    ensures
        r@ == kept_type(existing_type@, new_type@),
{
    if same_text(existing_type, new_type) {
        return String::from_str(existing_type);
    }
    if is_numeric_type(existing_type) && same_text(new_type, "f64") {
        return String::from_str(existing_type);
    }
    if is_optional(existing_type) && !is_optional(new_type) {
        let inner = unwrap_option(existing_type);
        if same_text(inner.as_str(), new_type) || (is_numeric_type(inner.as_str()) && same_text(
            new_type,
            "f64",
        )) {
            return String::from_str(existing_type);
        }
    }
    String::from_str(new_type)
}

/// The place of the first pair, at or after `from`, under the key `key`.
pub open spec fn pair_index(fields: Seq<(Seq<char>, Seq<char>)>, key: Seq<char>, from: int) -> Option<
    int,
>
    decreases fields.len() - from,
{
    if from < 0 || from >= fields.len() {
        None
    } else if fields[from].0 == key {
        Some(from)
    } else {
        pair_index(fields, key, from + 1)
    }
}

/// The place of the first field, at or after `from`, named `name`.
pub open spec fn rust_field_index(fields: Seq<RustFieldModel>, name: Seq<char>, from: int) -> Option<
    int,
>
    decreases fields.len() - from,
{
    if from < 0 || from >= fields.len() {
        None
    } else if fields[from].name == name {
        Some(from)
    } else {
        rust_field_index(fields, name, from + 1)
    }
}

/// The type of the last of the first `n` fields that is named `name`.
pub open spec fn last_type(fields: Seq<RustFieldModel>, name: Seq<char>, n: nat) -> Option<
    Seq<char>,
>
    decreases n,
{
    if n == 0 || n > fields.len() {
        None
    } else if fields[n - 1].name == name {
        Some(fields[n - 1].ty)
    } else {
        last_type(fields, name, (n - 1) as nat)
    }
}

/// Among the first `n` new fields: how many names there are, how many of
/// them the record has, and for how many of these the types are compatible.
/// Of several fields of one name the last counts.
pub open spec fn similarity_counts(
    existing: Seq<(Seq<char>, Seq<char>)>,
    new: Seq<RustFieldModel>,
    n: nat,
) -> (nat, nat, nat)
    decreases n,
{
    if n == 0 || n > new.len() {
        (0, 0, 0)
    } else {
        let prev = similarity_counts(existing, new, (n - 1) as nat);
        let f = new[n - 1];
        if rust_field_index(new, f.name, 0) != Some(n - 1) {
            prev
        } else {
            match pair_index(existing, f.name, 0) {
                None => ((prev.0 + 1) as nat, prev.1, prev.2),
                Some(i) => {
                    let ty = match last_type(new, f.name, new.len()) {
                        Some(t) => t,
                        None => f.ty,
                    };
                    if loosely_compatible(existing[i].1, ty) {
                        ((prev.0 + 1) as nat, (prev.1 + 1) as nat, (prev.2 + 1) as nat)
                    } else {
                        ((prev.0 + 1) as nat, (prev.1 + 1) as nat, prev.2)
                    }
                },
            }
        }
    }
}

/// Whether a record resembles the new fields enough to be extended by
/// them. The similarity is the mean of two shares: the common names among
/// all the names of both, and the compatible types among the common names.
/// Two empty lists are similar; lists without a common name are not.
pub open spec fn similar_enough(existing: ExistingModel, new: Seq<RustFieldModel>) -> bool {
    let c = similarity_counts(existing.fields, new, new.len());
    let total = existing.fields.len() + c.0;
    if total == 0 {
        true
    } else if c.1 == 0 || total > SIMILARITY_LIMIT {
        false
    } else {
        5 * (c.1 * c.1 + c.2 * total) >= 2 * SIMILARITY_FIFTHS * c.1 * total
    }
}

/// The place of the first pair under the key `key`.
pub fn find_pair(fields: &Vec<(String, String)>, key: &str) -> (r: Option<usize>)
    ensures
        match r {
            Some(i) => pair_index(fields.deep_view(), key@, 0) == Some(i as int) && i
                < fields.len(),
            None => pair_index(fields.deep_view(), key@, 0) is None,
        },
{
    let mut i: usize = 0;
    while i < fields.len()
        invariant
            i <= fields.len(),
            pair_index(fields.deep_view(), key@, 0) == pair_index(
                fields.deep_view(),
                key@,
                i as int,
            ),
        decreases fields.len() - i,
    {
        if same_text(fields[i].0.as_str(), key) {
            return Some(i);
        }
        i += 1;
    }
    None
}

/// The place of the first field named `name`.
pub fn find_rust_field(fields: &Vec<RustField>, name: &str) -> (r: Option<usize>)
    ensures
        match r {
            Some(i) => rust_field_index(fields.deep_view(), name@, 0) == Some(i as int) && i
                < fields.len(),
            None => rust_field_index(fields.deep_view(), name@, 0) is None,
        },
{
    let mut i: usize = 0;
    while i < fields.len()
        invariant
            i <= fields.len(),
            rust_field_index(fields.deep_view(), name@, 0) == rust_field_index(
                fields.deep_view(),
                name@,
                i as int,
            ),
        decreases fields.len() - i,
    {
        if same_text(fields[i].name.as_str(), name) {
            return Some(i);
        }
        i += 1;
    }
    None
}

/// The place of the last field named `name`.
fn find_last_rust_field(fields: &Vec<RustField>, name: &str) -> (r: Option<usize>)
    ensures
        match r {
            Some(i) => i < fields.len() && last_type(
                fields.deep_view(),
                name@,
                fields.len() as nat,
            ) == Some(fields@[i as int].field_type@),
            None => last_type(fields.deep_view(), name@, fields.len() as nat) is None,
        },
{
    let mut i: usize = fields.len();
    while i > 0
        invariant
            i <= fields.len(),
            last_type(fields.deep_view(), name@, fields.len() as nat) == last_type(
                fields.deep_view(),
                name@,
                i as nat,
            ),
        decreases i,
    {
        if same_text(fields[i - 1].name.as_str(), name) {
            return Some(i - 1);
        }
        i -= 1;
    }
    None
}

/// Whether a record resembles the new fields enough to be extended by them.
pub fn is_similar_enough(existing: &ExistingStruct, new_fields: &Vec<RustField>) -> (r: bool)
    ensures
        r == similar_enough(existing.deep_view(), new_fields.deep_view()),
{
    let (names, common, compatible) = similarity_parts(existing, new_fields);
    let total: u128 = existing.fields.len() as u128 + names as u128;
    if total == 0 {
        return true;
    }
    if common == 0 || total > SIMILARITY_LIMIT {
        return false;
    }
    let c: u128 = common as u128;
    let k: u128 = compatible as u128;
    assert(c <= total && k <= total);
    assert(c * c <= 0x1_0000_0000 * 0x1_0000_0000) by (nonlinear_arith)
        requires
            c <= 0x1_0000_0000,
    ;
    assert(k * total <= 0x1_0000_0000 * 0x1_0000_0000) by (nonlinear_arith)
        requires
            k <= 0x1_0000_0000,
            total <= 0x1_0000_0000,
    ;
    assert(c * total <= 0x1_0000_0000 * 0x1_0000_0000) by (nonlinear_arith)
        requires
            c <= 0x1_0000_0000,
            total <= 0x1_0000_0000,
    ;
    let left: u128 = 5 * (c * c + k * total);
    let right: u128 = 2 * SIMILARITY_FIFTHS * (c * total);
    assert(2 * SIMILARITY_FIFTHS * c * total == 2 * SIMILARITY_FIFTHS * (c * total))
        by (nonlinear_arith);
    left >= right
}

/// The place of the first record, at or after `from`, that resembles the
/// new fields enough.
pub open spec fn first_similar(existing: Seq<ExistingModel>, new: Seq<RustFieldModel>, from: int) -> Option<
    int,
>
    decreases existing.len() - from,
{
    if from < 0 || from >= existing.len() {
        None
    } else if similar_enough(existing[from], new) {
        Some(from)
    } else {
        first_similar(existing, new, from + 1)
    }
}

/// The first of the records that resembles the new fields enough.
pub fn find_compatible_struct(new_fields: &Vec<RustField>, existing_structs: &Vec<ExistingStruct>) -> (r:
    Option<usize>)
    ensures
        match r {
            Some(i) => i < existing_structs.len() && first_similar(
                existing_structs.deep_view(),
                new_fields.deep_view(),
                0,
            ) == Some(i as int),
            None => first_similar(existing_structs.deep_view(), new_fields.deep_view(), 0) is None,
        },
{
    let mut i: usize = 0;
    while i < existing_structs.len()
        invariant
            i <= existing_structs.len(),
            first_similar(existing_structs.deep_view(), new_fields.deep_view(), 0) == first_similar(
                existing_structs.deep_view(),
                new_fields.deep_view(),
                i as int,
            ),
        decreases existing_structs.len() - i,
    {
        if is_similar_enough(&existing_structs[i], new_fields) {
            return Some(i);
        }
        i += 1;
    }
    None
}

} // verus!

verus! {

/// The text of a type with all its path: the segments of a path, joined by
/// `::`, each with its type arguments in angle brackets; `&` in front of the
/// target of a reference; `Unknown` for any other type.
pub open spec fn full_type_text(t: SynType) -> Seq<char>
    decreases t, 0nat,
{
    match t {
        SynType::Path { segments, .. } => path_text(segments@, segments@.len()),
        SynType::Reference { inner, .. } => "&"@ + full_type_text(*inner),
        SynType::Other { .. } => "Unknown"@,
    }
}

/// The first `n` segments of a path, joined by `::`.
pub open spec fn path_text(segments: Seq<SynSegment>, n: nat) -> Seq<char>
    decreases segments, n,
{
    if n == 0 || n > segments.len() {
        Seq::empty()
    } else if n == 1 {
        segment_text(segments[0])
    } else {
        path_text(segments, (n - 1) as nat) + "::"@ + segment_text(segments[n - 1])
    }
}

/// A segment of a path with its type arguments.
pub open spec fn segment_text(s: SynSegment) -> Seq<char>
    decreases s, 0nat,
{
    match s.arguments {
        SynArguments::AngleBracketed(args) => {
            let a = arguments_text(args@, args@.len(), true);
            if a.1 > 0 {
                s.ident@ + "<"@ + a.0 + ">"@
            } else {
                s.ident@
            }
        },
        _ => s.ident@,
    }
}

/// The type arguments among the first `n` arguments, joined by `, `, and
/// their number. Each is written with all its path if `full` is set, else by
/// its last segment.
pub open spec fn arguments_text(args: Seq<SynArgument>, n: nat, full: bool) -> (Seq<char>, nat)
    decreases args, n,
{
    if n == 0 || n > args.len() {
        (Seq::empty(), 0)
    } else {
        let prev = arguments_text(args, (n - 1) as nat, full);
        match args[n - 1] {
            SynArgument::Type(t) => {
                let text = if full {
                    full_type_text(t)
                } else {
                    short_type_text(t)
                };
                if prev.1 == 0 {
                    (text, 1)
                } else {
                    (prev.0 + ", "@ + text, prev.1 + 1)
                }
            },
            SynArgument::Other => prev,
        }
    }
}

/// The text of a type by the last segment of its path, with its type
/// arguments in angle brackets; `Unknown` for a type that is no path.
pub open spec fn short_type_text(t: SynType) -> Seq<char>
    decreases t, 0nat,
{
    match t {
        SynType::Path { segments, .. } => if segments@.len() == 0 {
            "Unknown"@
        } else {
            short_segment_text(segments@[segments@.len() - 1])
        },
        _ => "Unknown"@,
    }
}

/// The last segment of a path with its type arguments.
pub open spec fn short_segment_text(s: SynSegment) -> Seq<char>
    decreases s, 0nat,
{
    match s.arguments {
        SynArguments::AngleBracketed(args) => {
            let a = arguments_text(args@, args@.len(), false);
            if a.1 > 0 {
                s.ident@ + "<"@ + a.0 + ">"@
            } else {
                s.ident@
            }
        },
        _ => s.ident@,
    }
}

/// The pairs with the text `value` under the key `key`, in the place of the
/// pair of that key if there is one.
pub open spec fn with_pair(
    fields: Seq<(Seq<char>, Seq<char>)>,
    key: Seq<char>,
    value: Seq<char>,
) -> Seq<(Seq<char>, Seq<char>)> {
    match pair_index(fields, key, 0) {
        Some(i) => fields.update(i, (key, value)),
        None => fields.push((key, value)),
    }
}

/// The fields of a record among the first `n` parsed fields, each under its
/// name with its type as text; fields without a name are left out.
pub open spec fn record_pairs(fields: Seq<SynField>, n: nat, full: bool) -> Seq<
    (Seq<char>, Seq<char>),
>
    decreases n,
{
    if n == 0 || n > fields.len() {
        Seq::empty()
    } else {
        let prev = record_pairs(fields, (n - 1) as nat, full);
        match fields[n - 1].name {
            Some(name) => with_pair(
                prev,
                name@,
                if full {
                    full_type_text(fields[n - 1].ty)
                } else {
                    short_type_text(fields[n - 1].ty)
                },
            ),
            None => prev,
        }
    }
}

/// The record that a parsed item declares, as the schema path reads it.
pub open spec fn existing_of(name: Seq<char>, fields: SynFields, full: bool) -> ExistingModel {
    ExistingModel {
        name: name,
        fields: match fields {
            SynFields::Named(fs) => record_pairs(fs@, fs@.len(), full),
            _ => Seq::empty(),
        },
    }
}

/// The records that the first `n` items of a file declare.
pub open spec fn existing_structs_of(items: Seq<SynItem>, n: nat) -> Seq<ExistingModel>
    decreases n,
{
    if n == 0 || n > items.len() {
        Seq::empty()
    } else {
        let prev = existing_structs_of(items, (n - 1) as nat);
        match items[n - 1] {
            SynItem::Struct { name, fields } => prev.push(existing_of(name@, fields, true)),
            _ => prev,
        }
    }
}

/// Appends the type arguments of a segment, joined by `, `, and counts them.
#[verifier::loop_isolation(false)]
fn arguments_to_string(args: &Vec<SynArgument>, full: bool) -> (r: (String, usize))
    ensures
        (r.0@, r.1 as nat) == arguments_text(args@, args@.len(), full),
    decreases args, 1nat,
{
    let mut out = String::new();
    let mut count: usize = 0;
    let mut i: usize = 0;
    while i < args.len()
        invariant
            i <= args.len(),
            count <= i,
            (out@, count as nat) == arguments_text(args@, i as nat, full),
        decreases args.len() - i,
    {
        match &args[i] {
            SynArgument::Type(t) => {
                let text = if full {
                    extract_type_string(t)
                } else {
                    type_to_string(t)
                };
                if count == 0 {
                    out = text;
                } else {
                    out.append(", ");
                    out.append(text.as_str());
                }
                count += 1;
            },
            SynArgument::Other => {},
        }
        i += 1;
    }
    (out, count)
}

/// A segment of a path with its type arguments.
fn segment_to_string(s: &SynSegment, full: bool) -> (r: String)
    ensures
        r@ == if full {
            segment_text(*s)
        } else {
            short_segment_text(*s)
        },
    decreases s, 0nat,
{
    match &s.arguments {
        SynArguments::AngleBracketed(args) => {
            let (text, count) = arguments_to_string(args, full);
            if count > 0 {
                let mut out = s.ident.clone();
                out.append("<");
                out.append(text.as_str());
                out.append(">");
                out
            } else {
                s.ident.clone()
            }
        },
        _ => s.ident.clone(),
    }
}

/// The text of a type with all its path.
#[verifier::loop_isolation(false)]
pub fn extract_type_string(ty: &SynType) -> (r: String)
    ensures
        r@ == full_type_text(*ty),
    decreases ty, 0nat,
{
    match ty {
        SynType::Path { segments, .. } => {
            let mut out = String::new();
            let mut i: usize = 0;
            while i < segments.len()
                invariant
                    i <= segments.len(),
                    out@ == path_text(segments@, i as nat),
                decreases segments.len() - i,
            {
                let text = segment_to_string(&segments[i], true);
                if i > 0 {
                    out.append("::");
                    out.append(text.as_str());
                } else {
                    out = text;
                }
                i += 1;
            }
            out
        },
        SynType::Reference { inner, .. } => {
            let text = extract_type_string(inner);
            concat2("&", text.as_str())
        },
        SynType::Other { .. } => String::from_str("Unknown"),
    }
}

/// The text of a type by the last segment of its path.
pub fn type_to_string(ty: &SynType) -> (r: String)
    ensures
        r@ == short_type_text(*ty),
    decreases ty, 0nat,
{
    match ty {
        SynType::Path { segments, .. } => {
            if segments.len() == 0 {
                String::from_str("Unknown")
            } else {
                segment_to_string(&segments[segments.len() - 1], false)
            }
        },
        _ => String::from_str("Unknown"),
    }
}

/// Puts a pair under its key, in the place of the pair of that key if
/// there is one.
pub fn put_pair(fields: &mut Vec<(String, String)>, key: String, value: String)
    ensures
        final(fields).deep_view() == with_pair(old(fields).deep_view(), key@, value@),
{
    let ghost before = fields.deep_view();
    match find_pair(fields, key.as_str()) {
        Some(i) => {
            fields.set(i, (key, value));
            assert(fields.deep_view() =~= before.update(i as int, (key@, value@)));
        },
        None => {
            fields.push((key, value));
            assert(fields.deep_view() =~= before.push((key@, value@)));
        },
    }
}

/// The record that a parsed item declares, as the schema path reads it.
pub fn existing_from_item(name: &str, fields: &SynFields, full: bool) -> (r: ExistingStruct)
    ensures
        r.deep_view() == existing_of(name@, *fields, full),
{
    let mut pairs: Vec<(String, String)> = Vec::new();
    assert(pairs.deep_view() =~= Seq::<(Seq<char>, Seq<char>)>::empty());
    match fields {
        SynFields::Named(fs) => {
            let mut i: usize = 0;
            while i < fs.len()
                invariant
                    i <= fs.len(),
                    pairs.deep_view() == record_pairs(fs@, i as nat, full),
                decreases fs.len() - i,
            {
                match &fs[i].name {
                    Some(n) => {
                        let text = if full {
                            extract_type_string(&fs[i].ty)
                        } else {
                            type_to_string(&fs[i].ty)
                        };
                        put_pair(&mut pairs, n.clone(), text);
                    },
                    None => {},
                }
                i += 1;
            }
        },
        _ => {},
    }
    ExistingStruct { name: String::from_str(name), fields: pairs }
}

/// The records that the items of a file declare.
pub fn structs_of_items(items: &Vec<SynItem>) -> (r: Vec<ExistingStruct>)
    ensures
        r.deep_view() == existing_structs_of(items@, items.len() as nat),
{
    let mut r: Vec<ExistingStruct> = Vec::new();
    assert(r.deep_view() =~= Seq::<ExistingModel>::empty());
    let mut i: usize = 0;
    while i < items.len()
        invariant
            i <= items.len(),
            r.deep_view() == existing_structs_of(items@, i as nat),
        decreases items.len() - i,
    {
        match &items[i] {
            SynItem::Struct { name, fields } => {
                let e = existing_from_item(name.as_str(), fields, true);
                let ghost before = r;
                let ghost added = e;
                r.push(e);
                proof {
                    crate::views::lemma_push_view(before, r, added);
                }
            },
            _ => {},
        }
        i += 1;
    }
    r
}

/// The records that a source text declares; an error for a text that the
/// parser refuses.
pub fn parse_existing_structs(rust_code: &str) -> (r: Result<Vec<ExistingStruct>, Json2RustError>)
    ensures
        match r {
            Ok(structs) => parsed_items(rust_code@) matches Some(items) && structs.deep_view()
                == existing_structs_of(items, items.len()),
            Err(e) => parsed_items(rust_code@) is None && e is RustParsing,
        },
{
    match read_items(rust_code) {
        Ok(items) => Ok(structs_of_items(&items)),
        Err(e) => {
            let text = syn_error_text(&e);
            Err(Json2RustError::RustParsing(concat2("Failed to parse Rust code: ", text.as_str())))
        },
    }
}

} // verus!

verus! {

/// The similarity of a record and new fields, in thousandths, rounded down:
/// the mean of the share of common names among all the names of both and
/// of the share of compatible types among the common names. Two empty lists
/// have the similarity one; lists without a common name, or with more
/// fields than similarity is computed for, have the similarity zero.
pub open spec fn similarity_permille(existing: ExistingModel, new: Seq<RustFieldModel>) -> nat {
    let c = similarity_counts(existing.fields, new, new.len());
    let total = existing.fields.len() + c.0;
    if total == 0 {
        1000
    } else if c.1 == 0 || total > SIMILARITY_LIMIT {
        0
    } else {
        ((1000 * (c.1 * c.1 + c.2 * total)) / (2 * c.1 * total)) as nat
    }
}

/// The counts that the similarity of a record and new fields is made of:
/// the names among the new fields, the names that the record has too, and
/// those of them whose types are compatible.
pub fn similarity_parts(existing: &ExistingStruct, new_fields: &Vec<RustField>) -> (r: (
    usize,
    usize,
    usize,
))
    ensures
        (r.0 as nat, r.1 as nat, r.2 as nat) == similarity_counts(
            existing.deep_view().fields,
            new_fields.deep_view(),
            new_fields.len() as nat,
        ),
        r.2 <= r.1 <= r.0 <= new_fields.len(),
{
    let mut names: usize = 0;
    let mut common: usize = 0;
    let mut compatible: usize = 0;
    let mut i: usize = 0;
    while i < new_fields.len()
        invariant
            i <= new_fields.len(),
            compatible <= common <= names <= i,
            (names as nat, common as nat, compatible as nat) == similarity_counts(
                existing.deep_view().fields,
                new_fields.deep_view(),
                i as nat,
            ),
        decreases new_fields.len() - i,
    {
        let f = &new_fields[i];
        let is_first = match find_rust_field(new_fields, f.name.as_str()) {
            Some(k) => k == i,
            None => false,
        };
        if is_first {
            names += 1;
            match find_pair(&existing.fields, f.name.as_str()) {
                Some(k) => {
                    common += 1;
                    let ty = match find_last_rust_field(new_fields, f.name.as_str()) {
                        Some(l) => new_fields[l].field_type.as_str(),
                        None => f.field_type.as_str(),
                    };
                    if types_loosely_compatible(existing.fields[k].1.as_str(), ty) {
                        compatible += 1;
                    }
                },
                None => {},
            }
        }
        i += 1;
    }
    (names, common, compatible)
}

/// The similarity of a record and new fields, in thousandths.
pub fn calculate_struct_similarity(existing: &ExistingStruct, new_fields: &Vec<RustField>) -> (r:
    u128)
    ensures
        r == similarity_permille(existing.deep_view(), new_fields.deep_view()),
{
    let (names, common, compatible) = similarity_parts(existing, new_fields);
    let total: u128 = existing.fields.len() as u128 + names as u128;
    if total == 0 {
        return 1000;
    }
    if common == 0 || total > SIMILARITY_LIMIT {
        return 0;
    }
    let c: u128 = common as u128;
    let k: u128 = compatible as u128;
    assert(c * c <= 0x1_0000_0000 * 0x1_0000_0000) by (nonlinear_arith)
        requires
            c <= 0x1_0000_0000,
    ;
    assert(k * total <= 0x1_0000_0000 * 0x1_0000_0000) by (nonlinear_arith)
        requires
            k <= 0x1_0000_0000,
            total <= 0x1_0000_0000,
    ;
    assert(1 <= c * total <= 0x1_0000_0000 * 0x1_0000_0000) by (nonlinear_arith)
        requires
            1 <= c <= 0x1_0000_0000,
            1 <= total <= 0x1_0000_0000,
    ;
    assert(2 * c * total == 2 * (c * total)) by (nonlinear_arith);
    (1000 * (c * c + k * total)) / (2 * (c * total))
}

/// The record that a parsed item declares, with each type in full.
pub fn parse_struct_item(name: &str, fields: &SynFields) -> (r: ExistingStruct)
    ensures
        r.deep_view() == existing_of(name@, *fields, true),
{
    existing_from_item(name, fields, true)
}

} // verus!
