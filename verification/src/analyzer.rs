//! From a JSON text to its schema, and the two spellings of names.

use vstd::prelude::*;
use vstd::string::*;
use crate::json::{json_error_text, json_model, parsed_json, read_json, JsonModel, JsonValue};
use crate::text::{
    is_prefix, lowercase_of, push_char, same_text, starts_with, sub_string, to_chars,
    to_lowercase, trim, trimmed,
};
use crate::types::{
    copy_json_type, json_type_model, Json2RustError, JsonSchema, JsonType, JsonTypeModel,
};

verus! {

/// The upper-case form of a character, as `char::to_uppercase` gives it.
pub uninterp spec fn uppercase_of_char(c: char) -> Seq<char>;

/// The lower-case form of a character, as `char::to_lowercase` gives it.
pub uninterp spec fn lowercase_of_char(c: char) -> Seq<char>;

/// Whether a character is an upper-case letter, as `char::is_uppercase` says.
pub uninterp spec fn is_upper(c: char) -> bool;

/// Whether a character is a lower-case letter, as `char::is_lowercase` says.
pub uninterp spec fn is_lower(c: char) -> bool;

/// The upper-case form of a character (`char::to_uppercase`), which follows
/// the case tables of Unicode and may be several characters long.
#[verifier::external_body]
fn upper_of(c: char) -> (r: String)
    ensures
        r@ == uppercase_of_char(c),
{
    c.to_uppercase().to_string()
}

/// The lower-case form of a character (`char::to_lowercase`), which follows
/// the case tables of Unicode and may be several characters long.
#[verifier::external_body]
fn lower_of(c: char) -> (r: String)
    ensures
        r@ == lowercase_of_char(c),
{
    c.to_lowercase().to_string()
}

/// Whether a character is an upper-case letter (`char::is_uppercase`).
#[verifier::external_body]
fn upper_case(c: char) -> (r: bool)
    ensures
        r == is_upper(c),
{
    c.is_uppercase()
}

/// Whether a character is a lower-case letter (`char::is_lowercase`).
#[verifier::external_body]
fn lower_case(c: char) -> (r: bool)
    ensures
        r == is_lower(c),
{
    c.is_lowercase()
}

/// The characters that part the words of a name.
pub open spec fn is_separator(c: char) -> bool {
    c == '_' || c == '-' || c == ' '
}

/// A word in Pascal case: its first character in upper case, the rest in
/// lower case.
pub open spec fn pascal_word(w: Seq<char>) -> Seq<char> {
    if w.len() == 0 {
        Seq::empty()
    } else {
        uppercase_of_char(w[0]) + lowercase_of(w.subrange(1, w.len() as int))
    }
}

/// The Pascal case of the words of `s` from the word that begins at
/// `start`, read up to position `i`.
pub open spec fn pascal_from(s: Seq<char>, start: int, i: int) -> Seq<char>
    decreases s.len() - i,
{
    if i < 0 || start < 0 || start > i || i >= s.len() {
        if 0 <= start <= s.len() {
            pascal_word(s.subrange(start, s.len() as int))
        } else {
            Seq::empty()
        }
    } else if is_separator(s[i]) {
        pascal_word(s.subrange(start, i)) + pascal_from(s, i + 1, i + 1)
    } else {
        pascal_from(s, start, i + 1)
    }
}

/// A name in Pascal case: the words between `_`, `-` and blanks, each in
/// Pascal case, one behind the other.
pub open spec fn pascal_case(s: Seq<char>) -> Seq<char> {
    pascal_from(s, 0, 0)
}

/// The first character of a text, as a text; nothing for the empty text.
pub open spec fn first_of(t: Seq<char>) -> Seq<char> {
    if t.len() == 0 {
        t
    } else {
        seq![t[0]]
    }
}

/// The snake case of `s` from position `i` on; `after_lower` says whether
/// the character before is a lower-case letter.
pub open spec fn snake_from(s: Seq<char>, i: int, after_lower: bool) -> Seq<char>
    decreases s.len() - i,
{
    if i < 0 || i >= s.len() {
        Seq::empty()
    } else if is_upper(s[i]) {
        (if i > 0 && after_lower {
            seq!['_']
        } else {
            Seq::empty()
        }) + first_of(lowercase_of_char(s[i])) + snake_from(s, i + 1, false)
    } else {
        seq![s[i]] + snake_from(s, i + 1, is_lower(s[i]))
    }
}

/// A name in snake case: every upper-case letter by the first character of
/// its lower-case form, with `_` in front of it where it follows a
/// lower-case letter.
pub open spec fn snake_case(s: Seq<char>) -> Seq<char> {
    snake_from(s, 0, false)
}

/// Appends a word in Pascal case.
fn push_pascal_word(out: &mut String, v: &Vec<char>, a: usize, b: usize)
    requires
        a <= b <= v.len(),
    ensures
        final(out)@ == old(out)@ + pascal_word(v@.subrange(a as int, b as int)),
{
    if a < b {
        let first = upper_of(v[a]);
        let rest = sub_string(v, a + 1, b);
        let lower = to_lowercase(rest.as_str());
        out.append(first.as_str());
        out.append(lower.as_str());
        proof {
            let w = v@.subrange(a as int, b as int);
            assert(w.subrange(1, w.len() as int) =~= v@.subrange(a + 1, b as int));
            assert(out@ =~= old(out)@ + pascal_word(w));
        }
    } else {
        assert(out@ =~= old(out)@ + pascal_word(v@.subrange(a as int, b as int)));
    }
}

/// A name in Pascal case.
pub fn to_pascal_case(s: &str) -> (r: String)
    ensures
        r@ == pascal_case(s@),
{
    let v = to_chars(s);
    let mut out = String::new();
    let mut start: usize = 0;
    let mut i: usize = 0;
    assert(out@ + pascal_from(v@, 0, 0) =~= pascal_case(s@));
    while i < v.len()
        invariant
            start <= i <= v.len(),
            v@ == s@,
            out@ + pascal_from(v@, start as int, i as int) == pascal_case(s@),
        decreases v.len() - i,
    {
        if v[i] == '_' || v[i] == '-' || v[i] == ' ' {
            let ghost before = out@;
            push_pascal_word(&mut out, &v, start, i);
            assert(before + (pascal_word(v@.subrange(start as int, i as int)) + pascal_from(
                v@,
                i + 1,
                i + 1,
            )) =~= out@ + pascal_from(v@, i + 1, i + 1));
            start = i + 1;
        }
        i += 1;
    }
    push_pascal_word(&mut out, &v, start, v.len());
    out
}

/// A name in snake case.
pub fn to_snake_case(s: &str) -> (r: String)
    ensures
        r@ == snake_case(s@),
{
    let v = to_chars(s);
    let mut out = String::new();
    let mut after_lower = false;
    let mut i: usize = 0;
    assert(out@ + snake_from(v@, 0, false) =~= snake_case(s@));
    while i < v.len()
        invariant
            i <= v.len(),
            v@ == s@,
            out@ + snake_from(v@, i as int, after_lower) == snake_case(s@),
        decreases v.len() - i,
    {
        let ghost before = out@;
        let ghost rest_before = snake_from(v@, i as int, after_lower);
        if upper_case(v[i]) {
            if i > 0 && after_lower {
                push_char(&mut out, '_');
            }
            let lower = lower_of(v[i]);
            if lower.as_str().unicode_len() > 0 {
                push_char(&mut out, lower.as_str().get_char(0));
            }
            assert(before + rest_before =~= out@ + snake_from(v@, i + 1, false));
            after_lower = false;
        } else {
            push_char(&mut out, v[i]);
            after_lower = lower_case(v[i]);
            assert(before + rest_before =~= out@ + snake_from(v@, i + 1, after_lower));
        }
        i += 1;
    }
    assert(out@ + snake_from(v@, v.len() as int, after_lower) =~= out@);
    out
}

/// The place of the first entry, at or after `from`, under the key `key`.
pub open spec fn entry_index(
    fields: Seq<(Seq<char>, JsonTypeModel)>,
    key: Seq<char>,
    from: int,
) -> Option<int>
    decreases fields.len() - from,
{
    if from < 0 || from >= fields.len() {
        None
    } else if fields[from].0 == key {
        Some(from)
    } else {
        entry_index(fields, key, from + 1)
    }
}

/// The types of two samples merged into one: `Null` gives way to the
/// other; equal primitives stay; arrays merge their elements; objects merge
/// field by field, the fields of the first in front; anything else is a
/// string.
pub open spec fn merged_type(a: JsonTypeModel, b: JsonTypeModel) -> JsonTypeModel
    decreases b, 0nat,
{
    match (a, b) {
        (JsonTypeModel::Null, other) => other,
        (other, JsonTypeModel::Null) => other,
        (JsonTypeModel::String, JsonTypeModel::String) => JsonTypeModel::String,
        (JsonTypeModel::Number, JsonTypeModel::Number) => JsonTypeModel::Number,
        (JsonTypeModel::Boolean, JsonTypeModel::Boolean) => JsonTypeModel::Boolean,
        (JsonTypeModel::Array(x), JsonTypeModel::Array(y)) => JsonTypeModel::Array(
            Box::new(merged_type(*x, *y)),
        ),
        (JsonTypeModel::Object(f1), JsonTypeModel::Object(f2)) => JsonTypeModel::Object(
            merged_entries(f1, f2, f2.len()),
        ),
        _ => JsonTypeModel::String,
    }
}

/// The entries `acc` merged with the first `n` entries of `more`.
pub open spec fn merged_entries(
    acc: Seq<(Seq<char>, JsonTypeModel)>,
    more: Seq<(Seq<char>, JsonTypeModel)>,
    n: nat,
) -> Seq<(Seq<char>, JsonTypeModel)>
    decreases more, n,
{
    if n == 0 || n > more.len() {
        acc
    } else {
        let prev = merged_entries(acc, more, (n - 1) as nat);
        let e = more[n - 1];
        match entry_index(prev, e.0, 0) {
            Some(i) => prev.update(i, (e.0, merged_type(prev[i].1, e.1))),
            None => prev.push(e),
        }
    }
}

/// The entries with the type `t` under the key `key`, in the place of the
/// entry of that key if there is one.
pub open spec fn with_entry(
    fields: Seq<(Seq<char>, JsonTypeModel)>,
    key: Seq<char>,
    t: JsonTypeModel,
) -> Seq<(Seq<char>, JsonTypeModel)> {
    match entry_index(fields, key, 0) {
        Some(i) => fields.update(i, (key, t)),
        None => fields.push((key, t)),
    }
}

/// The merged type of the first `n` items of an array.
pub open spec fn items_type(items: Seq<JsonModel>, n: nat) -> Option<JsonTypeModel>
    decreases items, n,
{
    if n == 0 || n > items.len() {
        None
    } else {
        let t = type_of(items[n - 1]);
        match items_type(items, (n - 1) as nat) {
            None => Some(t),
            Some(e) => Some(merged_type(e, t)),
        }
    }
}

/// The fields that the first `n` entries of an object give.
pub open spec fn entries_type(entries: Seq<(Seq<char>, JsonModel)>, n: nat) -> Seq<
    (Seq<char>, JsonTypeModel),
>
    decreases entries, n,
{
    if n == 0 || n > entries.len() {
        Seq::empty()
    } else {
        with_entry(
            entries_type(entries, (n - 1) as nat),
            entries[n - 1].0,
            type_of(entries[n - 1].1),
        )
    }
}

/// What a JSON value is made of. An array has the merged type of its
/// items, an empty array the item type `Null`.
pub open spec fn type_of(v: JsonModel) -> JsonTypeModel
    decreases v, 0nat,
{
    match v {
        JsonModel::Null => JsonTypeModel::Null,
        JsonModel::Bool(_) => JsonTypeModel::Boolean,
        JsonModel::Number(_) => JsonTypeModel::Number,
        JsonModel::String(_) => JsonTypeModel::String,
        JsonModel::Array(items) => match items_type(items, items.len()) {
            Some(t) => JsonTypeModel::Array(Box::new(t)),
            None => JsonTypeModel::Array(Box::new(JsonTypeModel::Null)),
        },
        JsonModel::Object(entries) => JsonTypeModel::Object(entries_type(entries, entries.len())),
    }
}

/// What a JSON text is made of, read as the value `v`. A text that begins
/// with a bracket and holds an empty array is an array of empty objects.
pub open spec fn root_type(text: Seq<char>, v: JsonModel) -> JsonTypeModel {
    if is_prefix("["@, trim(text)) && v == JsonModel::Array(Seq::empty()) {
        JsonTypeModel::Array(Box::new(JsonTypeModel::Object(Seq::empty())))
    } else {
        type_of(v)
    }
}

/// The place of the first entry under the key `key`.
pub fn find_entry(fields: &Vec<(String, JsonType)>, key: &str) -> (r: Option<usize>)
    ensures
        match r {
            Some(i) => entry_index(json_entries(fields@), key@, 0) == Some(i as int) && i
                < fields.len(),
            None => entry_index(json_entries(fields@), key@, 0) is None,
        },
{
    let mut i: usize = 0;
    while i < fields.len()
        invariant
            i <= fields.len(),
            entry_index(json_entries(fields@), key@, 0) == entry_index(
                json_entries(fields@),
                key@,
                i as int,
            ),
        decreases fields.len() - i,
    {
        if same_text(fields[i].0.as_str(), key) {
            return Some(i);
        }
        i += 1;
    }
    None
}

/// The mathematical value of the fields of an object.
pub open spec fn json_entries(fields: Seq<(String, JsonType)>) -> Seq<(Seq<char>, JsonTypeModel)> {
    Seq::new(fields.len(), |i: int| (fields[i].0@, json_type_model(fields[i].1)))
}

/// The types of two samples merged into one.
#[verifier::loop_isolation(false)]
pub fn merge_types(type1: &JsonType, type2: &JsonType) -> (r: JsonType)
    ensures
        json_type_model(r) == merged_type(json_type_model(*type1), json_type_model(*type2)),
    decreases type2,
{
    match (type1, type2) {
        (JsonType::Null, other) => copy_json_type(other),
        (other, JsonType::Null) => copy_json_type(other),
        (JsonType::String, JsonType::String) => JsonType::String,
        (JsonType::Number, JsonType::Number) => JsonType::Number,
        (JsonType::Boolean, JsonType::Boolean) => JsonType::Boolean,
        (JsonType::Array(x), JsonType::Array(y)) => JsonType::Array(Box::new(merge_types(x, y))),
        (JsonType::Object(f1), JsonType::Object(f2)) => {
            let ghost m1 = json_entries(f1@);
            let ghost m2 = json_entries(f2@);
            assert(json_type_model(*type1)->Object_0 =~= m1);
            assert(json_type_model(*type2)->Object_0 =~= m2);
            let mut merged: Vec<(String, JsonType)> = Vec::new();
            let mut c: usize = 0;
            while c < f1.len()
                invariant
                    c <= f1.len(),
                    merged@.len() == c,
                    forall|j: int|
                        0 <= j < c ==> (#[trigger] merged@[j]).0@ == f1@[j].0@ && json_type_model(
                            merged@[j].1,
                        ) == json_type_model(f1@[j].1),
                decreases f1.len() - c,
            {
                merged.push((f1[c].0.clone(), copy_json_type(&f1[c].1)));
                c += 1;
            }
            assert(json_entries(merged@) =~= merged_entries(m1, m2, 0));
            let mut i: usize = 0;
            while i < f2.len()
                invariant
                    i <= f2.len(),
                    m2 == json_entries(f2@),
                    json_entries(merged@) == merged_entries(m1, m2, i as nat),
                decreases f2.len() - i,
            {
                let key = f2[i].0.clone();
                let ghost before = json_entries(merged@);
                match find_entry(&merged, key.as_str()) {
                    Some(k) => {
                        let t = merge_types(&merged[k].1, &f2[i].1);
                        merged.set(k, (key, t));
                        assert(json_entries(merged@) =~= before.update(
                            k as int,
                            (m2[i as int].0, merged_type(before[k as int].1, m2[i as int].1)),
                        ));
                    },
                    None => {
                        merged.push((key, copy_json_type(&f2[i].1)));
                        assert(json_entries(merged@) =~= before.push(m2[i as int]));
                    },
                }
                i += 1;
            }
            let r = JsonType::Object(merged);
            assert(json_type_model(r)->Object_0 =~= json_entries(merged@));
            r
        },
        _ => JsonType::String,
    }
}

/// What a JSON value is made of.
#[verifier::loop_isolation(false)]
pub fn json_type_of(v: &JsonValue) -> (r: JsonType)
    ensures
        json_type_model(r) == type_of(json_model(*v)),
    decreases v,
{
    match v {
        JsonValue::Null => JsonType::Null,
        JsonValue::Bool(_) => JsonType::Boolean,
        JsonValue::Number(_) => JsonType::Number,
        JsonValue::String(_) => JsonType::String,
        JsonValue::Array(items) => {
            let ghost model = json_model(*v)->Array_0;
            let mut element: Option<JsonType> = None;
            let mut i: usize = 0;
            while i < items.len()
                invariant
                    i <= items.len(),
                    model == json_model(*v)->Array_0,
                    match element {
                        Some(e) => items_type(model, i as nat) == Some(json_type_model(e)),
                        None => items_type(model, i as nat) is None,
                    },
                decreases items.len() - i,
            {
                let t = json_type_of(&items[i]);
                assert(model[i as int] == json_model(items@[i as int]));
                element = Some(
                    match element {
                        None => t,
                        Some(e) => merge_types(&e, &t),
                    },
                );
                i += 1;
            }
            assert(model.len() == items@.len());
            proof {
                reveal_with_fuel(json_type_model, 2);
            }
            let r = match element {
                Some(e) => JsonType::Array(Box::new(e)),
                None => JsonType::Array(Box::new(JsonType::Null)),
            };
            r
        },
        JsonValue::Object(entries) => {
            let ghost model = json_model(*v)->Object_0;
            let mut fields: Vec<(String, JsonType)> = Vec::new();
            let mut i: usize = 0;
            assert(json_entries(fields@) =~= entries_type(model, 0));
            while i < entries.len()
                invariant
                    i <= entries.len(),
                    model == json_model(*v)->Object_0,
                    json_entries(fields@) == entries_type(model, i as nat),
                decreases entries.len() - i,
            {
                let t = json_type_of(&entries[i].1);
                assert(model[i as int] == (entries@[i as int].0@, json_model(entries@[i as int].1)));
                let key = entries[i].0.clone();
                let ghost before = json_entries(fields@);
                let ghost tm = json_type_model(t);
                match find_entry(&fields, key.as_str()) {
                    Some(k) => {
                        fields.set(k, (key, t));
                        assert(json_entries(fields@) =~= before.update(k as int, (model[i as int].0, tm)));
                    },
                    None => {
                        fields.push((key, t));
                        assert(json_entries(fields@) =~= before.push((model[i as int].0, tm)));
                    },
                }
                i += 1;
            }
            assert(model.len() == entries@.len());
            let r = JsonType::Object(fields);
            assert(json_type_model(r)->Object_0 =~= json_entries(fields@));
            r
        },
    }
}

/// The schema of a JSON value that was read from the text `json_str`.
pub fn analyze_value(json_str: &str, value: &JsonValue, root_name: &str) -> (r: JsonSchema)
    ensures
        r.name@ == root_name@,
        !r.optional,
        json_type_model(r.json_type) == root_type(json_str@, json_model(*value)),
{
    let text = trimmed(json_str);
    let empty_array = match value {
        JsonValue::Array(items) => items.len() == 0,
        _ => false,
    };
    proof {
        if value is Array {
            assert(json_model(*value)->Array_0 =~= Seq::<JsonModel>::empty()
                <==> value->Array_0@.len() == 0);
        }
    }
    let json_type = if starts_with(text.as_str(), "[") && empty_array {
        let none: Vec<(String, JsonType)> = Vec::new();
        let t = JsonType::Array(Box::new(JsonType::Object(none)));
        assert(json_type_model(JsonType::Object(none))->Object_0 =~= Seq::<
            (Seq<char>, JsonTypeModel),
        >::empty());
        t
    } else {
        json_type_of(value)
    };
    JsonSchema { name: String::from_str(root_name), json_type, optional: false }
}

/// The schema of a JSON text, under the name `root_name`; an error for a
/// text that is not well formed.
pub fn analyze_json(json_str: &str, root_name: &str) -> (r: Result<JsonSchema, Json2RustError>)
    ensures
        match r {
            Ok(schema) => parsed_json(json_str@) matches Some(v) && schema.name@ == root_name@
                && !schema.optional && json_type_model(schema.json_type) == root_type(
                json_str@,
                v,
            ),
            Err(e) => parsed_json(json_str@) is None && e is JsonParsing,
        },
{
    match read_json(json_str) {
        Ok(value) => Ok(analyze_value(json_str, &value, root_name)),
        Err(e) => Err(Json2RustError::JsonParsing(json_error_text(&e))),
    }
}

/// Two schemas merged into one, under the name of the first.
pub fn merge_schemas(schema1: JsonSchema, schema2: JsonSchema) -> (r: JsonSchema)
    ensures
        r.name@ == schema1.name@,
        r.optional == (schema1.optional || schema2.optional),
        json_type_model(r.json_type) == merged_type(
            json_type_model(schema1.json_type),
            json_type_model(schema2.json_type),
        ),
{
    JsonSchema {
        name: schema1.name,
        json_type: merge_types(&schema1.json_type, &schema2.json_type),
        optional: schema1.optional || schema2.optional,
    }
}

} // verus!
