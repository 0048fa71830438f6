//! From a schema to records and unions, and the extension of a record that
//! a source text already declares.

use vstd::prelude::*;
use vstd::string::*;
use crate::analyzer::{pascal_case, snake_case, to_pascal_case, to_snake_case};
use crate::cluster::numbered_name;
use crate::existing::{
    find_compatible_struct, find_pair, find_rust_field, first_similar, get_compatible_type,
    kept_type, pair_index, rust_field_index,
};
use crate::text::{
    concat2, concat3, decimal, ends_with, is_suffix, same_text, sub_string, to_chars,
};
use crate::typetext::{is_optional, is_optional_text, make_optional, optional_form};
use crate::types::{
    json_type_model, ExistingModel, ExistingStruct, Json2RustError, JsonSchema, JsonType,
    JsonTypeModel, MergeStrategy, RustEnum, RustEnumModel, RustEnumVariant, RustField,
    RustFieldModel, RustStruct, RustStructModel, RustVariantModel,
};
use crate::views::{lemma_push_view, replicate_all, replicate_option, Replicate};

verus! {

/// From how many fields that differ on the hybrid strategy makes a union.
pub const HYBRID_LIMIT: usize = 3;

/// The records and the unions that were generated.
#[derive(Debug, Clone)]
pub struct GeneratedTypes {
    pub structs: Vec<RustStruct>,
    pub enums: Vec<RustEnum>,
}

/// The derives of every generated declaration.
pub open spec fn standard_derives() -> Seq<Seq<char>> {
    seq!["Debug"@, "Clone"@, "Serialize"@, "Deserialize"@]
}

/// The derives of every generated declaration.
pub fn default_derives() -> (r: Vec<String>)
    ensures
        r.deep_view() == standard_derives(),
{
    let mut r: Vec<String> = Vec::new();
    r.push(String::from_str("Debug"));
    r.push(String::from_str("Clone"));
    r.push(String::from_str("Serialize"));
    r.push(String::from_str("Deserialize"));
    assert(r.deep_view() =~= standard_derives());
    r
}

/// The place of the first counter, at or after `from`, under the name `base`.
pub open spec fn counter_index(names: Seq<(Seq<char>, usize)>, base: Seq<char>, from: int) -> Option<
    int,
>
    decreases names.len() - from,
{
    if from < 0 || from >= names.len() {
        None
    } else if names[from].0 == base {
        Some(from)
    } else {
        counter_index(names, base, from + 1)
    }
}

/// A counter raised by one, as far as the machine counts.
pub open spec fn raised(c: usize) -> usize {
    if c < usize::MAX {
        (c + 1) as usize
    } else {
        c
    }
}

/// The name under which `base` is used once more, and the counters after
/// that: `base` itself the first time, then `base` followed by the number of
/// the use.
pub open spec fn unique_name(base: Seq<char>, names: Seq<(Seq<char>, usize)>) -> (
    Seq<char>,
    Seq<(Seq<char>, usize)>,
) {
    match counter_index(names, base, 0) {
        Some(i) => {
            let c = raised(names[i].1);
            (
                if c == 1 {
                    base
                } else {
                    base + decimal(c as nat)
                },
                names.update(i, (base, c)),
            )
        },
        None => (base, names.push((base, 1usize))),
    }
}

/// The name under which `base_name` is used once more.
pub fn ensure_unique_name(base_name: &str, generated_names: &mut Vec<(String, usize)>) -> (r: String)
    ensures
        r@ == unique_name(base_name@, old(generated_names).deep_view()).0,
        final(generated_names).deep_view() == unique_name(
            base_name@,
            old(generated_names).deep_view(),
        ).1,
{
    let ghost before = generated_names.deep_view();
    let mut i: usize = 0;
    while i < generated_names.len()
        invariant
            i <= generated_names.len(),
            generated_names.deep_view() == before,
            before == old(generated_names).deep_view(),
            counter_index(before, base_name@, 0) == counter_index(before, base_name@, i as int),
        decreases generated_names.len() - i,
    {
        if same_text(generated_names[i].0.as_str(), base_name) {
            let old_count = generated_names[i].1;
            let c: usize = if old_count < usize::MAX {
                old_count + 1
            } else {
                old_count
            };
            generated_names.set(i, (String::from_str(base_name), c));
            assert(generated_names.deep_view() =~= before.update(i as int, (base_name@, c)));
            return if c == 1 {
                String::from_str(base_name)
            } else {
                numbered_name(base_name, c)
            };
        }
        i += 1;
    }
    generated_names.push((String::from_str(base_name), 1));
    assert(generated_names.deep_view() =~= before.push((base_name@, 1usize)));
    String::from_str(base_name)
}

/// The name of one item of a list that is named in the plural: `ies`
/// becomes `y`, a single final `s` is dropped, and any other name is
/// followed by `Item`.
pub open spec fn singular_name(plural: Seq<char>) -> Seq<char> {
    if is_suffix("ies"@, plural) {
        plural.subrange(0, plural.len() - 3) + "y"@
    } else if is_suffix("s"@, plural) && !is_suffix("ss"@, plural) {
        plural.subrange(0, plural.len() - 1)
    } else {
        plural + "Item"@
    }
}

/// The name of one item of a list that is named in the plural.
pub fn get_singular_name(plural_name: &str) -> (r: String)
    ensures
        r@ == singular_name(plural_name@),
{
    let v = to_chars(plural_name);
    proof {
        reveal_strlit("ies");
        reveal_strlit("s");
    }
    if ends_with(plural_name, "ies") {
        let stem = sub_string(&v, 0, v.len() - 3);
        concat2(stem.as_str(), "y")
    } else if ends_with(plural_name, "s") && !ends_with(plural_name, "ss") {
        sub_string(&v, 0, v.len() - 1)
    } else {
        concat2(plural_name, "Item")
    }
}

/// A field made optional: its type wrapped, unless it is optional already.
pub open spec fn optional_field(f: RustFieldModel) -> RustFieldModel {
    if is_optional_text(f.ty) {
        f
    } else {
        RustFieldModel { name: f.name, ty: optional_form(f.ty), optional: true, rename: f.rename }
    }
}

/// Every field made optional.
pub open spec fn optional_fields(fields: Seq<RustFieldModel>) -> Seq<RustFieldModel> {
    Seq::new(fields.len(), |i: int| optional_field(fields[i]))
}

/// A field made optional.
pub fn make_field_optional(f: &RustField) -> (r: RustField)
    ensures
        r.deep_view() == optional_field(f.deep_view()),
{
    if is_optional(f.field_type.as_str()) {
        f.replicate()
    } else {
        RustField {
            name: f.name.clone(),
            field_type: make_optional(f.field_type.as_str()),
            is_optional: true,
            serde_rename: replicate_option(&f.serde_rename),
        }
    }
}

/// Every field made optional.
pub fn make_fields_optional(fields: &Vec<RustField>) -> (r: Vec<RustField>)
    ensures
        r.deep_view() == optional_fields(fields.deep_view()),
{
    let mut r: Vec<RustField> = Vec::new();
    let mut i: usize = 0;
    while i < fields.len()
        invariant
            i <= fields.len(),
            r@.len() == i,
            forall|j: int| 0 <= j < i ==> r@[j].deep_view() == optional_field(fields@[j].deep_view()),
        decreases fields.len() - i,
    {
        r.push(make_field_optional(&fields[i]));
        i += 1;
    }
    assert(r.deep_view() =~= optional_fields(fields.deep_view()));
    r
}

/// The place of the field with the shortest name among the first `n`
/// fields; of several, the first.
pub open spec fn shortest_name(fields: Seq<RustFieldModel>, n: nat) -> Option<int>
    decreases n,
{
    if n == 0 || n > fields.len() {
        None
    } else {
        match shortest_name(fields, (n - 1) as nat) {
            None => Some(n - 1),
            Some(i) => if fields[n - 1].name.len() < fields[i].name.len() {
                Some(n - 1)
            } else {
                Some(i)
            },
        }
    }
}

/// The name of the variant that holds the fields: the shortest of their
/// names in Pascal case, followed by `Variant`.
pub open spec fn variant_name(fields: Seq<RustFieldModel>) -> Seq<char> {
    match shortest_name(fields, fields.len()) {
        Some(i) => pascal_case(fields[i].name) + "Variant"@,
        None => pascal_case("Variant"@) + "Variant"@,
    }
}

/// The name of the variant that holds the fields.
pub fn generate_variant_name(fields: &Vec<RustField>) -> (r: String)
    ensures
        r@ == variant_name(fields.deep_view()),
{
    let mut best: Option<usize> = None;
    let mut best_len: usize = 0;
    let mut i: usize = 0;
    while i < fields.len()
        invariant
            i <= fields.len(),
            match best {
                Some(k) => k < i && shortest_name(fields.deep_view(), i as nat) == Some(k as int)
                    && best_len == fields@[k as int].name@.len(),
                None => shortest_name(fields.deep_view(), i as nat) is None,
            },
        decreases fields.len() - i,
    {
        let n = fields[i].name.as_str().unicode_len();
        match best {
            None => {
                best = Some(i);
                best_len = n;
            },
            Some(_) => {
                if n < best_len {
                    best = Some(i);
                    best_len = n;
                }
            },
        }
        i += 1;
    }
    let stem = match best {
        Some(k) => to_pascal_case(fields[k].name.as_str()),
        None => to_pascal_case("Variant"),
    };
    concat2(stem.as_str(), "Variant")
}

/// The last of the first `n` fields that is named `name`.
pub open spec fn last_named(fields: Seq<RustFieldModel>, name: Seq<char>, n: nat) -> Option<
    RustFieldModel,
>
    decreases n,
{
    if n == 0 || n > fields.len() {
        None
    } else if fields[n - 1].name == name {
        Some(fields[n - 1])
    } else {
        last_named(fields, name, (n - 1) as nat)
    }
}

/// One of the first `n` variants holds a field named `name`.
pub open spec fn variants_hold(variants: Seq<RustVariantModel>, name: Seq<char>, n: nat) -> bool
    decreases n,
{
    if n == 0 || n > variants.len() {
        false
    } else {
        variants_hold(variants, name, (n - 1) as nat) || rust_field_index(
            variants[n - 1].fields,
            name,
            0,
        ) is Some
    }
}

/// One of the first `n` unions holds a field named `name` in a variant.
pub open spec fn enums_hold(enums: Seq<RustEnumModel>, name: Seq<char>, n: nat) -> bool
    decreases n,
{
    if n == 0 || n > enums.len() {
        false
    } else {
        enums_hold(enums, name, (n - 1) as nat) || variants_hold(
            enums[n - 1].variants,
            name,
            enums[n - 1].variants.len(),
        )
    }
}

/// The fields of a record and of new fields, parted: those that both have,
/// those that only the record has, and those that are new.
pub struct ClassModel {
    pub common: Seq<RustFieldModel>,
    pub old_only: Seq<RustFieldModel>,
    pub new_only: Seq<RustFieldModel>,
}

/// The fields of a record and of new fields, parted.
#[derive(Debug)]
pub struct FieldClassification {
    pub common_fields: Vec<RustField>,
    pub old_only_fields: Vec<RustField>,
    pub new_only_fields: Vec<RustField>,
}

impl DeepView for FieldClassification {
    type V = ClassModel;

    open spec fn deep_view(&self) -> ClassModel {
        ClassModel {
            common: self.common_fields.deep_view(),
            old_only: self.old_only_fields.deep_view(),
            new_only: self.new_only_fields.deep_view(),
        }
    }
}

/// The name of the field that holds the union of a record's variants.
pub open spec fn variant_field_name() -> Seq<char> {
    "schema_variant"@
}

/// The common field that an old field and the new field of its name give:
/// under the type that is kept, optional if one of the two is.
pub open spec fn common_field(old: (Seq<char>, Seq<char>), new: RustFieldModel) -> RustFieldModel {
    RustFieldModel {
        name: old.0,
        ty: kept_type(old.1, new.ty),
        optional: new.optional || is_optional_text(old.1),
        rename: new.rename,
    }
}

/// The field that an old field gives where no new field has its name.
pub open spec fn old_field(old: (Seq<char>, Seq<char>)) -> RustFieldModel {
    RustFieldModel { name: old.0, ty: old.1, optional: is_optional_text(old.1), rename: None }
}

/// The common fields and the old fields among the first `n` fields of the
/// record; the field that holds the union of variants is left out.
pub open spec fn old_parts(
    existing: Seq<(Seq<char>, Seq<char>)>,
    new: Seq<RustFieldModel>,
    n: nat,
) -> (Seq<RustFieldModel>, Seq<RustFieldModel>)
    decreases n,
{
    if n == 0 || n > existing.len() {
        (Seq::empty(), Seq::empty())
    } else {
        let prev = old_parts(existing, new, (n - 1) as nat);
        let e = existing[n - 1];
        if e.0 == variant_field_name() {
            prev
        } else {
            match last_named(new, e.0, new.len()) {
                Some(f) => (prev.0.push(common_field(e, f)), prev.1),
                None => (prev.0, prev.1.push(old_field(e))),
            }
        }
    }
}

/// Those of the first `n` new fields that neither the record nor a variant
/// of a union holds; the field that holds the union of variants is left out.
pub open spec fn new_parts(
    existing: Seq<(Seq<char>, Seq<char>)>,
    new: Seq<RustFieldModel>,
    enums: Seq<RustEnumModel>,
    n: nat,
) -> Seq<RustFieldModel>
    decreases n,
{
    if n == 0 || n > new.len() {
        Seq::empty()
    } else {
        let prev = new_parts(existing, new, enums, (n - 1) as nat);
        let f = new[n - 1];
        if f.name == variant_field_name() || pair_index(existing, f.name, 0) is Some || enums_hold(
            enums,
            f.name,
            enums.len(),
        ) {
            prev
        } else {
            prev.push(f)
        }
    }
}

/// The fields of a record and of new fields, parted.
pub open spec fn classified(
    existing: ExistingModel,
    new: Seq<RustFieldModel>,
    enums: Seq<RustEnumModel>,
) -> ClassModel {
    let old = old_parts(existing.fields, new, existing.fields.len());
    ClassModel {
        common: old.0,
        old_only: old.1,
        new_only: new_parts(existing.fields, new, enums, new.len()),
    }
}

/// The last field named `name`.
fn find_last_named(fields: &Vec<RustField>, name: &str) -> (r: Option<usize>)
    ensures
        match r {
            Some(i) => i < fields.len() && last_named(fields.deep_view(), name@, fields.len() as nat)
                == Some(fields@[i as int].deep_view()),
            None => last_named(fields.deep_view(), name@, fields.len() as nat) is None,
        },
{
    let mut i: usize = fields.len();
    while i > 0
        invariant
            i <= fields.len(),
            last_named(fields.deep_view(), name@, fields.len() as nat) == last_named(
                fields.deep_view(),
                name@,
                i as nat,
            ),
        decreases i,
    {
        if same_text(fields[i - 1].name.as_str(), name) {
            return Some(i - 1);
        }
        i -= 1;
    }
    None
}

/// Whether one of the variants holds a field named `name`.
fn variants_have(variants: &Vec<RustEnumVariant>, name: &str) -> (r: bool)
    ensures
        r == variants_hold(variants.deep_view(), name@, variants.len() as nat),
{
    let mut i: usize = 0;
    while i < variants.len()
        invariant
            i <= variants.len(),
            !variants_hold(variants.deep_view(), name@, i as nat),
        decreases variants.len() - i,
    {
        if find_rust_field(&variants[i].fields, name).is_some() {
            proof {
                lemma_variants_hold_grows(
                    variants.deep_view(),
                    name@,
                    (i + 1) as nat,
                    variants.len() as nat,
                );
            }
            return true;
        }
        i += 1;
    }
    false
}

pub proof fn lemma_variants_hold_grows(variants: Seq<RustVariantModel>, name: Seq<char>, k: nat, n: nat)
    requires
        k <= n <= variants.len(),
        variants_hold(variants, name, k),
    ensures
        variants_hold(variants, name, n),
    decreases n,
{
    if k < n {
        lemma_variants_hold_grows(variants, name, k, (n - 1) as nat);
    }
}

/// Whether one of the unions holds a field named `name` in a variant.
fn enums_have(enums: &Vec<RustEnum>, name: &str) -> (r: bool)
    ensures
        r == enums_hold(enums.deep_view(), name@, enums.len() as nat),
{
    let mut i: usize = 0;
    while i < enums.len()
        invariant
            i <= enums.len(),
            !enums_hold(enums.deep_view(), name@, i as nat),
        decreases enums.len() - i,
    {
        if variants_have(&enums[i].variants, name) {
            proof {
                lemma_enums_hold_grows(enums.deep_view(), name@, (i + 1) as nat, enums.len() as nat);
            }
            return true;
        }
        i += 1;
    }
    false
}

pub proof fn lemma_enums_hold_grows(enums: Seq<RustEnumModel>, name: Seq<char>, k: nat, n: nat)
    requires
        k <= n <= enums.len(),
        enums_hold(enums, name, k),
    ensures
        enums_hold(enums, name, n),
    decreases n,
{
    if k < n {
        lemma_enums_hold_grows(enums, name, k, (n - 1) as nat);
    }
}

/// The fields of a record and of new fields, parted, with regard to the
/// fields that the variants of the unions hold already.
pub fn classify_fields_for_extension_with_enums(
    existing: &ExistingStruct,
    new_fields: &Vec<RustField>,
    existing_enums: &Vec<RustEnum>,
) -> (r: FieldClassification)
    ensures
        r.deep_view() == classified(
            existing.deep_view(),
            new_fields.deep_view(),
            existing_enums.deep_view(),
        ),
{
    let mut common: Vec<RustField> = Vec::new();
    let mut old_only: Vec<RustField> = Vec::new();
    let mut new_only: Vec<RustField> = Vec::new();
    assert(common.deep_view() =~= Seq::<RustFieldModel>::empty());
    assert(old_only.deep_view() =~= Seq::<RustFieldModel>::empty());
    assert(new_only.deep_view() =~= Seq::<RustFieldModel>::empty());
    let mut i: usize = 0;
    while i < existing.fields.len()
        invariant
            i <= existing.fields.len(),
            (common.deep_view(), old_only.deep_view()) == old_parts(
                existing.deep_view().fields,
                new_fields.deep_view(),
                i as nat,
            ),
        decreases existing.fields.len() - i,
    {
        let name = existing.fields[i].0.as_str();
        let ty = existing.fields[i].1.as_str();
        if !same_text(name, "schema_variant") {
            match find_last_named(new_fields, name) {
                Some(k) => {
                    let f = &new_fields[k];
                    let nf = RustField {
                        name: String::from_str(name),
                        field_type: get_compatible_type(ty, f.field_type.as_str()),
                        is_optional: f.is_optional || is_optional(ty),
                        serde_rename: replicate_option(&f.serde_rename),
                    };
                    let ghost before = common;
                    let ghost added = nf;
                    common.push(nf);
                    proof {
                        lemma_push_view(before, common, added);
                    }
                },
                None => {
                    let nf = RustField {
                        name: String::from_str(name),
                        field_type: String::from_str(ty),
                        is_optional: is_optional(ty),
                        serde_rename: None,
                    };
                    let ghost before = old_only;
                    let ghost added = nf;
                    old_only.push(nf);
                    proof {
                        lemma_push_view(before, old_only, added);
                    }
                },
            }
        }
        i += 1;
    }
    let mut j: usize = 0;
    while j < new_fields.len()
        invariant
            j <= new_fields.len(),
            new_only.deep_view() == new_parts(
                existing.deep_view().fields,
                new_fields.deep_view(),
                existing_enums.deep_view(),
                j as nat,
            ),
        decreases new_fields.len() - j,
    {
        let f = &new_fields[j];
        let name = f.name.as_str();
        if !same_text(name, "schema_variant") && find_pair(&existing.fields, name).is_none()
            && !enums_have(existing_enums, name) {
            let nf = f.replicate();
            let ghost before = new_only;
            let ghost added = nf;
            new_only.push(nf);
            proof {
                lemma_push_view(before, new_only, added);
            }
        }
        j += 1;
    }
    FieldClassification {
        common_fields: common,
        old_only_fields: old_only,
        new_only_fields: new_only,
    }
}

/// The fields of a record and of new fields, parted.
pub fn classify_fields_for_extension(existing: &ExistingStruct, new_fields: &Vec<RustField>) -> (r:
    FieldClassification)
    ensures
        r.deep_view() == classified(
            existing.deep_view(),
            new_fields.deep_view(),
            Seq::<RustEnumModel>::empty(),
        ),
{
    let none: Vec<RustEnum> = Vec::new();
    assert(none.deep_view() =~= Seq::<RustEnumModel>::empty());
    classify_fields_for_extension_with_enums(existing, new_fields, &none)
}

} // verus!

verus! {

/// A record of the standard derives.
pub open spec fn struct_of(name: Seq<char>, fields: Seq<RustFieldModel>) -> RustStructModel {
    RustStructModel { name: name, fields: fields, derives: standard_derives(), optional: false }
}

/// The record extended with optional fields: the common fields, then the
/// fields that only the record has, made optional, then the new fields as
/// they are.
pub open spec fn extended_optional(existing: ExistingModel, c: ClassModel) -> RustStructModel {
    struct_of(existing.name, c.common + optional_fields(c.old_only) + c.new_only)
}

/// The field that holds the union of a record's variants.
pub open spec fn holder_field(union_name: Seq<char>) -> RustFieldModel {
    RustFieldModel { name: variant_field_name(), ty: union_name, optional: false, rename: None }
}

/// The place of the first union, at or after `from`, named `name`.
pub open spec fn enum_index(enums: Seq<RustEnumModel>, name: Seq<char>, from: int) -> Option<int>
    decreases enums.len() - from,
{
    if from < 0 || from >= enums.len() {
        None
    } else if enums[from].name == name {
        Some(from)
    } else {
        enum_index(enums, name, from + 1)
    }
}

/// The variant that holds the fields given, each made optional; none for
/// no fields.
pub open spec fn variant_for(fields: Seq<RustFieldModel>) -> Seq<RustVariantModel> {
    if fields.len() > 0 {
        seq![RustVariantModel { name: variant_name(fields), fields: optional_fields(fields) }]
    } else {
        Seq::empty()
    }
}

/// The union of the variants of a record: the variant of the new fields
/// first, then the variant of the old fields.
pub open spec fn variant_union(
    struct_name: Seq<char>,
    old: Seq<RustFieldModel>,
    new: Seq<RustFieldModel>,
) -> RustEnumModel {
    RustEnumModel {
        name: struct_name + "Variant"@,
        variants: variant_for(new) + variant_for(old),
        derives: standard_derives(),
    }
}

/// The unions with the union of the variants of a record, unless a union of
/// that name is among them already.
pub open spec fn with_variant_union(
    struct_name: Seq<char>,
    old: Seq<RustFieldModel>,
    new: Seq<RustFieldModel>,
    enums: Seq<RustEnumModel>,
) -> Seq<RustEnumModel> {
    if enum_index(enums, struct_name + "Variant"@, 0) is Some {
        enums
    } else {
        enums.push(variant_union(struct_name, old, new))
    }
}

/// Of the first `n` fields, those that do not hold the union of variants,
/// each made optional.
pub open spec fn payload_fields(fields: Seq<RustFieldModel>, n: nat) -> Seq<RustFieldModel>
    decreases n,
{
    if n == 0 || n > fields.len() {
        Seq::empty()
    } else {
        let prev = payload_fields(fields, (n - 1) as nat);
        if fields[n - 1].name == variant_field_name() {
            prev
        } else {
            prev.push(optional_field(fields[n - 1]))
        }
    }
}

/// Every name among the first `n` fields of `a` is the name of a field of `b`.
pub open spec fn names_within(a: Seq<RustFieldModel>, b: Seq<RustFieldModel>, n: nat) -> bool
    decreases n,
{
    if n == 0 || n > a.len() {
        true
    } else {
        names_within(a, b, (n - 1) as nat) && rust_field_index(b, a[n - 1].name, 0) is Some
    }
}

/// Two lists of fields hold the same names.
pub open spec fn same_names(a: Seq<RustFieldModel>, b: Seq<RustFieldModel>) -> bool {
    names_within(a, b, a.len()) && names_within(b, a, b.len())
}

/// One of the first `n` variants holds the same names as `fields`, or is
/// named `name`.
pub open spec fn variant_known(
    variants: Seq<RustVariantModel>,
    fields: Seq<RustFieldModel>,
    name: Seq<char>,
    n: nat,
) -> bool
    decreases n,
{
    if n == 0 || n > variants.len() {
        false
    } else {
        variant_known(variants, fields, name, (n - 1) as nat) || same_names(
            fields,
            variants[n - 1].fields,
        ) || variants[n - 1].name == name
    }
}

/// A union extended by the variant of the fields that differ, unless it has
/// a variant of the same field names, or of the same name, already.
pub open spec fn extended_union(
    old: Seq<RustFieldModel>,
    new: Seq<RustFieldModel>,
    e: RustEnumModel,
) -> RustEnumModel {
    let fields = payload_fields(old, old.len()) + payload_fields(new, new.len());
    if fields.len() == 0 || variant_known(e.variants, fields, variant_name(fields), e.variants.len()) {
        e
    } else {
        RustEnumModel {
            name: e.name,
            variants: e.variants.push(
                RustVariantModel { name: variant_name(fields), fields: fields },
            ),
            derives: e.derives,
        }
    }
}

/// The record with a union for the fields that differ, and the unions after
/// that. If the record holds a union of variants already and that union is
/// known, the union is extended; else a union of the variants of the record
/// is made, if any fields differ.
pub open spec fn extended_with_union(
    existing: ExistingModel,
    new: Seq<RustFieldModel>,
    enums: Seq<RustEnumModel>,
) -> (RustStructModel, Seq<RustEnumModel>) {
    let c = classified(existing, new, enums);
    let known = match pair_index(existing.fields, variant_field_name(), 0) {
        Some(i) => match enum_index(enums, existing.fields[i].1, 0) {
            Some(k) => Some((existing.fields[i].1, k)),
            None => None,
        },
        None => None,
    };
    match known {
        Some((ty, k)) => (
            struct_of(existing.name, c.common.push(holder_field(ty))),
            enums.update(k, extended_union(c.old_only, c.new_only, enums[k])),
        ),
        None => if c.old_only.len() > 0 || c.new_only.len() > 0 {
            (
                struct_of(existing.name, c.common.push(holder_field(existing.name + "Variant"@))),
                with_variant_union(existing.name, c.old_only, c.new_only, enums),
            )
        } else {
            (struct_of(existing.name, c.common), enums)
        },
    }
}

/// The record extended by the hybrid strategy: with a union where more
/// than three fields differ, else with optional fields.
pub open spec fn extended_hybrid(
    existing: ExistingModel,
    c: ClassModel,
    enums: Seq<RustEnumModel>,
) -> (RustStructModel, Seq<RustEnumModel>) {
    if c.old_only.len() + c.new_only.len() > HYBRID_LIMIT {
        (
            struct_of(existing.name, c.common.push(holder_field(existing.name + "Variant"@))),
            with_variant_union(existing.name, c.old_only, c.new_only, enums),
        )
    } else {
        (extended_optional(existing, c), enums)
    }
}

/// The record extended by new fields, under the strategy given, and the
/// unions after that.
pub open spec fn extended(
    existing: ExistingModel,
    new: Seq<RustFieldModel>,
    enums: Seq<RustEnumModel>,
    strategy: MergeStrategy,
) -> (RustStructModel, Seq<RustEnumModel>) {
    match strategy {
        MergeStrategy::Optional => (
            extended_optional(existing, classified(existing, new, Seq::empty())),
            enums,
        ),
        MergeStrategy::Enum => extended_with_union(existing, new, enums),
        MergeStrategy::Hybrid => extended_hybrid(
            existing,
            classified(existing, new, Seq::empty()),
            enums,
        ),
    }
}

/// A record of the standard derives.
fn make_struct(name: &str, fields: Vec<RustField>) -> (r: RustStruct)
    ensures
        r.deep_view() == struct_of(name@, fields.deep_view()),
{
    RustStruct {
        name: String::from_str(name),
        fields,
        derives: default_derives(),
        is_optional: false,
    }
}

/// The record extended with optional fields.
pub fn extend_with_optional_fields(existing: &ExistingStruct, classification: FieldClassification) -> (r:
    RustStruct)
    ensures
        r.deep_view() == extended_optional(existing.deep_view(), classification.deep_view()),
{
    let mut fields = classification.common_fields;
    let mut old = make_fields_optional(&classification.old_only_fields);
    let mut new = classification.new_only_fields;
    let ghost a = fields.deep_view();
    let ghost b = old.deep_view();
    let ghost c = new.deep_view();
    fields.append(&mut old);
    assert(fields.deep_view() =~= a + b);
    fields.append(&mut new);
    assert(fields.deep_view() =~= a + b + c);
    make_struct(existing.name.as_str(), fields)
}

/// The field that holds the union named `union_name`.
fn make_holder(union_name: &str) -> (r: RustField)
    ensures
        r.deep_view() == holder_field(union_name@),
{
    RustField {
        name: String::from_str("schema_variant"),
        field_type: String::from_str(union_name),
        is_optional: false,
        serde_rename: None,
    }
}

/// The place of the first union named `name`.
pub fn find_enum(enums: &Vec<RustEnum>, name: &str) -> (r: Option<usize>)
    ensures
        match r {
            Some(i) => enum_index(enums.deep_view(), name@, 0) == Some(i as int) && i < enums.len(),
            None => enum_index(enums.deep_view(), name@, 0) is None,
        },
{
    let mut i: usize = 0;
    while i < enums.len()
        invariant
            i <= enums.len(),
            enum_index(enums.deep_view(), name@, 0) == enum_index(
                enums.deep_view(),
                name@,
                i as int,
            ),
        decreases enums.len() - i,
    {
        if same_text(enums[i].name.as_str(), name) {
            return Some(i);
        }
        i += 1;
    }
    None
}

/// Adds the variant that holds the fields given, if there are any.
fn push_variant_for(variants: &mut Vec<RustEnumVariant>, fields: &Vec<RustField>)
    ensures
        final(variants).deep_view() == old(variants).deep_view() + variant_for(fields.deep_view()),
{
    let ghost before = *variants;
    if fields.len() > 0 {
        let v = RustEnumVariant {
            name: generate_variant_name(fields),
            fields: make_fields_optional(fields),
        };
        let ghost added = v;
        variants.push(v);
        proof {
            lemma_push_view(before, *variants, added);
            assert(before.deep_view().push(added.deep_view()) =~= before.deep_view() + variant_for(
                fields.deep_view(),
            ));
        }
    } else {
        assert(variants.deep_view() =~= before.deep_view() + variant_for(fields.deep_view()));
    }
}

/// Makes the union of the variants of a record, unless a union of its name
/// is known already, and gives the field that holds it.
pub fn create_schema_variant_enum(
    struct_name: &str,
    old_fields: &Vec<RustField>,
    new_fields: &Vec<RustField>,
    enums: &mut Vec<RustEnum>,
) -> (r: RustField)
    ensures
        r.deep_view() == holder_field(struct_name@ + "Variant"@),
        final(enums).deep_view() == with_variant_union(
            struct_name@,
            old_fields.deep_view(),
            new_fields.deep_view(),
            old(enums).deep_view(),
        ),
{
    let enum_name = concat2(struct_name, "Variant");
    if find_enum(enums, enum_name.as_str()).is_some() {
        return make_holder(enum_name.as_str());
    }
    let mut variants: Vec<RustEnumVariant> = Vec::new();
    assert(variants.deep_view() =~= Seq::<RustVariantModel>::empty());
    push_variant_for(&mut variants, new_fields);
    push_variant_for(&mut variants, old_fields);
    assert(variants.deep_view() =~= variant_for(new_fields.deep_view()) + variant_for(
        old_fields.deep_view(),
    ));
    let e = RustEnum { name: enum_name.clone(), variants, derives: default_derives() };
    let ghost before = *enums;
    let ghost added = e;
    enums.push(e);
    proof {
        lemma_push_view(before, *enums, added);
    }
    make_holder(enum_name.as_str())
}

/// The fields that do not hold the union of variants, each made optional.
fn payload_of(fields: &Vec<RustField>) -> (r: Vec<RustField>)
    ensures
        r.deep_view() == payload_fields(fields.deep_view(), fields.len() as nat),
{
    let mut r: Vec<RustField> = Vec::new();
    assert(r.deep_view() =~= Seq::<RustFieldModel>::empty());
    let mut i: usize = 0;
    while i < fields.len()
        invariant
            i <= fields.len(),
            r.deep_view() == payload_fields(fields.deep_view(), i as nat),
        decreases fields.len() - i,
    {
        if !same_text(fields[i].name.as_str(), "schema_variant") {
            let nf = make_field_optional(&fields[i]);
            let ghost before = r;
            let ghost added = nf;
            r.push(nf);
            proof {
                lemma_push_view(before, r, added);
            }
        }
        i += 1;
    }
    r
}

/// Whether every name among the fields of `a` is the name of a field of `b`.
fn all_names_within(a: &Vec<RustField>, b: &Vec<RustField>) -> (r: bool)
    ensures
        r == names_within(a.deep_view(), b.deep_view(), a.len() as nat),
{
    let mut i: usize = 0;
    while i < a.len()
        invariant
            i <= a.len(),
            names_within(a.deep_view(), b.deep_view(), i as nat),
        decreases a.len() - i,
    {
        if find_rust_field(b, a[i].name.as_str()).is_none() {
            proof {
                lemma_names_within_prefix(a.deep_view(), b.deep_view(), (i + 1) as nat, a.len() as nat);
            }
            return false;
        }
        i += 1;
    }
    true
}

pub proof fn lemma_names_within_prefix(a: Seq<RustFieldModel>, b: Seq<RustFieldModel>, k: nat, n: nat)
    requires
        k <= n <= a.len(),
    ensures
        names_within(a, b, n) ==> names_within(a, b, k),
    decreases n,
{
    if k < n {
        lemma_names_within_prefix(a, b, k, (n - 1) as nat);
    }
}

/// Whether one of the variants holds the same names as `fields`, or is
/// named `name`.
fn is_variant_known(variants: &Vec<RustEnumVariant>, fields: &Vec<RustField>, name: &str) -> (r: bool)
    ensures
        r == variant_known(variants.deep_view(), fields.deep_view(), name@, variants.len() as nat),
{
    let mut i: usize = 0;
    while i < variants.len()
        invariant
            i <= variants.len(),
            !variant_known(variants.deep_view(), fields.deep_view(), name@, i as nat),
        decreases variants.len() - i,
    {
        let same = all_names_within(fields, &variants[i].fields) && all_names_within(
            &variants[i].fields,
            fields,
        );
        if same || same_text(variants[i].name.as_str(), name) {
            proof {
                lemma_variant_known_grows(
                    variants.deep_view(),
                    fields.deep_view(),
                    name@,
                    (i + 1) as nat,
                    variants.len() as nat,
                );
            }
            return true;
        }
        i += 1;
    }
    false
}

pub proof fn lemma_variant_known_grows(
    variants: Seq<RustVariantModel>,
    fields: Seq<RustFieldModel>,
    name: Seq<char>,
    k: nat,
    n: nat,
)
    requires
        k <= n <= variants.len(),
        variant_known(variants, fields, name, k),
    ensures
        variant_known(variants, fields, name, n),
    decreases n,
{
    if k < n {
        lemma_variant_known_grows(variants, fields, name, k, (n - 1) as nat);
    }
}

/// A union extended by the variant of the fields that differ.
pub fn create_extended_enum(
    old_fields: &Vec<RustField>,
    new_fields: &Vec<RustField>,
    existing_enum: &RustEnum,
) -> (r: RustEnum)
    ensures
        r.deep_view() == extended_union(
            old_fields.deep_view(),
            new_fields.deep_view(),
            existing_enum.deep_view(),
        ),
{
    let mut fields = payload_of(old_fields);
    let mut more = payload_of(new_fields);
    let ghost a = fields.deep_view();
    let ghost b = more.deep_view();
    fields.append(&mut more);
    assert(fields.deep_view() =~= a + b);
    let mut variants = replicate_all(&existing_enum.variants);
    if fields.len() > 0 {
        let name = generate_variant_name(&fields);
        if !is_variant_known(&existing_enum.variants, &fields, name.as_str()) {
            let v = RustEnumVariant { name, fields };
            let ghost before = variants;
            let ghost added = v;
            variants.push(v);
            proof {
                lemma_push_view(before, variants, added);
            }
        }
    }
    RustEnum {
        name: existing_enum.name.clone(),
        variants,
        derives: replicate_all(&existing_enum.derives),
    }
}

/// The record with a union for the fields that differ.
pub fn extend_with_enum_fields(
    existing: &ExistingStruct,
    new_fields: Vec<RustField>,
    enums: &mut Vec<RustEnum>,
) -> (r: RustStruct)
    ensures
        (r.deep_view(), final(enums).deep_view()) == extended_with_union(
            existing.deep_view(),
            new_fields.deep_view(),
            old(enums).deep_view(),
        ),
{
    let classification = classify_fields_for_extension_with_enums(existing, &new_fields, enums);
    let mut fields = classification.common_fields;
    let known = match find_pair(&existing.fields, "schema_variant") {
        Some(i) => match find_enum(enums, existing.fields[i].1.as_str()) {
            Some(k) => Some((i, k)),
            None => None,
        },
        None => None,
    };
    match known {
        Some((i, k)) => {
            let e = create_extended_enum(
                &classification.old_only_fields,
                &classification.new_only_fields,
                &enums[k],
            );
            let ghost before = enums.deep_view();
            let ghost model = e.deep_view();
            enums.set(k, e);
            assert(enums.deep_view() =~= before.update(k as int, model));
            let h = make_holder(existing.fields[i].1.as_str());
            let ghost fb = fields;
            let ghost added = h;
            fields.push(h);
            proof {
                lemma_push_view(fb, fields, added);
            }
        },
        None => {
            if classification.old_only_fields.len() > 0 || classification.new_only_fields.len() > 0 {
                let h = create_schema_variant_enum(
                    existing.name.as_str(),
                    &classification.old_only_fields,
                    &classification.new_only_fields,
                    enums,
                );
                let ghost fb = fields;
                let ghost added = h;
                fields.push(h);
                proof {
                    lemma_push_view(fb, fields, added);
                }
            }
        },
    }
    make_struct(existing.name.as_str(), fields)
}

/// The record extended by the hybrid strategy.
pub fn extend_with_hybrid_fields(
    existing: &ExistingStruct,
    classification: FieldClassification,
    enums: &mut Vec<RustEnum>,
) -> (r: RustStruct)
    ensures
        (r.deep_view(), final(enums).deep_view()) == extended_hybrid(
            existing.deep_view(),
            classification.deep_view(),
            old(enums).deep_view(),
        ),
{
    let differing: u128 = classification.old_only_fields.len() as u128
        + classification.new_only_fields.len() as u128;
    if differing > HYBRID_LIMIT as u128 {
        let h = create_schema_variant_enum(
            existing.name.as_str(),
            &classification.old_only_fields,
            &classification.new_only_fields,
            enums,
        );
        let mut fields = classification.common_fields;
        let ghost fb = fields;
        let ghost added = h;
        fields.push(h);
        proof {
            lemma_push_view(fb, fields, added);
        }
        make_struct(existing.name.as_str(), fields)
    } else {
        extend_with_optional_fields(existing, classification)
    }
}

/// The record extended by new fields, under the strategy given.
pub fn extend_existing_struct(
    existing: &ExistingStruct,
    new_fields: Vec<RustField>,
    enums: &mut Vec<RustEnum>,
    merge_strategy: &MergeStrategy,
) -> (r: RustStruct)
    ensures
        (r.deep_view(), final(enums).deep_view()) == extended(
            existing.deep_view(),
            new_fields.deep_view(),
            old(enums).deep_view(),
            *merge_strategy,
        ),
{
    match merge_strategy {
        MergeStrategy::Optional => {
            let classification = classify_fields_for_extension(existing, &new_fields);
            extend_with_optional_fields(existing, classification)
        },
        MergeStrategy::Enum => extend_with_enum_fields(existing, new_fields, enums),
        MergeStrategy::Hybrid => {
            let classification = classify_fields_for_extension(existing, &new_fields);
            extend_with_hybrid_fields(existing, classification, enums)
        },
    }
}

} // verus!

verus! {

/// What has been generated so far: records, unions, and how often each
/// name was used.
pub struct GenState {
    pub structs: Seq<RustStructModel>,
    pub enums: Seq<RustEnumModel>,
    pub names: Seq<(Seq<char>, usize)>,
}

/// The field that an entry of an object gives, under the type given: named
/// in snake case, optional for `Null`, and renamed to its key where the key
/// is not in snake case.
pub open spec fn entry_field(key: Seq<char>, t: JsonTypeModel, ty: Seq<char>) -> RustFieldModel {
    RustFieldModel {
        name: snake_case(key),
        ty: ty,
        optional: t is Null,
        rename: if snake_case(key) != key {
            Some(key)
        } else {
            None
        },
    }
}

/// The type that stands for a JSON type under the name `name`, and what is
/// generated on the way. An object gives a record: the first known record
/// that resembles its fields enough, extended by them, else a new record
/// under a name that is not used yet. An array gives a list of what its
/// items give under the name followed by `Item`.
pub open spec fn gen_type(
    name: Seq<char>,
    optional: bool,
    t: JsonTypeModel,
    existing: Seq<ExistingModel>,
    st: GenState,
    strategy: MergeStrategy,
) -> (Seq<char>, GenState)
    decreases t, 0nat,
{
    match t {
        JsonTypeModel::Object(fields) => {
            let named = unique_name(name, st.names);
            let inner = gen_fields(
                fields,
                fields.len(),
                existing,
                GenState { structs: st.structs, enums: st.enums, names: named.1 },
                strategy,
            );
            let made = match first_similar(existing, inner.0, 0) {
                Some(i) => extended(existing[i], inner.0, inner.1.enums, strategy),
                None => (
                    RustStructModel {
                        name: named.0,
                        fields: inner.0,
                        derives: standard_derives(),
                        optional: optional,
                    },
                    inner.1.enums,
                ),
            };
            (
                named.0,
                GenState {
                    structs: inner.1.structs.push(made.0),
                    enums: made.1,
                    names: inner.1.names,
                },
            )
        },
        JsonTypeModel::Array(element) => {
            let inner = gen_type(name + "Item"@, false, *element, existing, st, strategy);
            ("Vec<"@ + inner.0 + ">"@, inner.1)
        },
        JsonTypeModel::String => ("String"@, st),
        JsonTypeModel::Number => ("f64"@, st),
        JsonTypeModel::Boolean => ("bool"@, st),
        JsonTypeModel::Null => ("Option<serde_json::Value>"@, st),
    }
}

/// The fields that the first `n` entries of an object give, and what is
/// generated on the way.
pub open spec fn gen_fields(
    fields: Seq<(Seq<char>, JsonTypeModel)>,
    n: nat,
    existing: Seq<ExistingModel>,
    st: GenState,
    strategy: MergeStrategy,
) -> (Seq<RustFieldModel>, GenState)
    decreases fields, n,
{
    if n == 0 || n > fields.len() {
        (Seq::empty(), st)
    } else {
        let prev = gen_fields(fields, (n - 1) as nat, existing, st, strategy);
        let e = fields[n - 1];
        let inner = gen_type(pascal_case(e.0), false, e.1, existing, prev.1, strategy);
        (prev.0.push(entry_field(e.0, e.1, inner.0)), inner.1)
    }
}

/// The records and unions of a schema. For an array at the root, the items
/// go under the singular of the name, and a record of the name holds the
/// list of them as its field `items`.
pub open spec fn gen_root(
    name: Seq<char>,
    optional: bool,
    t: JsonTypeModel,
    existing: Seq<ExistingModel>,
    strategy: MergeStrategy,
) -> GenState {
    let start = GenState { structs: Seq::empty(), enums: Seq::empty(), names: Seq::empty() };
    match t {
        JsonTypeModel::Array(element) => {
            let inner = gen_type(singular_name(name), false, *element, existing, start, strategy);
            GenState {
                structs: inner.1.structs.push(
                    struct_of(
                        name,
                        seq![
                            RustFieldModel {
                                name: "items"@,
                                ty: "Vec<"@ + inner.0 + ">"@,
                                optional: false,
                                rename: None,
                            },
                        ],
                    ),
                ),
                enums: inner.1.enums,
                names: inner.1.names,
            }
        },
        _ => gen_type(name, optional, t, existing, start, strategy).1,
    }
}

/// The type of a field that is read off a schema without descending.
pub open spec fn plain_type_name(t: JsonTypeModel) -> Seq<char> {
    match t {
        JsonTypeModel::String => "String"@,
        JsonTypeModel::Number => "f64"@,
        JsonTypeModel::Boolean => "bool"@,
        JsonTypeModel::Null => "Option<serde_json::Value>"@,
        JsonTypeModel::Array(_) => "Vec<serde_json::Value>"@,
        JsonTypeModel::Object(_) => "serde_json::Value"@,
    }
}

/// The fields of an object, read off without descending.
pub open spec fn plain_fields_of(entries: Seq<(Seq<char>, JsonTypeModel)>) -> Seq<RustFieldModel> {
    Seq::new(
        entries.len(),
        |i: int| entry_field(entries[i].0, entries[i].1, plain_type_name(entries[i].1)),
    )
}

/// The field that an entry of an object gives, under the type given.
fn make_entry_field(key: &str, t: &JsonType, ty: String) -> (r: RustField)
    ensures
        r.deep_view() == entry_field(key@, json_type_model(*t), ty@),
{
    let name = to_snake_case(key);
    let serde_rename = if same_text(name.as_str(), key) {
        None
    } else {
        Some(String::from_str(key))
    };
    let is_optional = match t {
        JsonType::Null => true,
        _ => false,
    };
    RustField { name, field_type: ty, is_optional, serde_rename }
}

/// The type that stands for a JSON type under the name `name`; records and
/// unions are added to those generated so far.
#[verifier::loop_isolation(false)]
pub fn generate_type(
    name: &str,
    optional: bool,
    json_type: &JsonType,
    existing_structs: &Vec<ExistingStruct>,
    structs: &mut Vec<RustStruct>,
    enums: &mut Vec<RustEnum>,
    generated_names: &mut Vec<(String, usize)>,
    merge_strategy: &MergeStrategy,
) -> (r: String)
    ensures
        (
            r@,
            GenState {
                structs: final(structs).deep_view(),
                enums: final(enums).deep_view(),
                names: final(generated_names).deep_view(),
            },
        ) == gen_type(
            name@,
            optional,
            json_type_model(*json_type),
            existing_structs.deep_view(),
            GenState {
                structs: old(structs).deep_view(),
                enums: old(enums).deep_view(),
                names: old(generated_names).deep_view(),
            },
            *merge_strategy,
        ),
    decreases json_type,
{
    match json_type {
        JsonType::Object(fields) => {
            let ghost model = json_type_model(*json_type)->Object_0;
            let ghost start = GenState {
                structs: structs.deep_view(),
                enums: enums.deep_view(),
                names: generated_names.deep_view(),
            };
            let struct_name = ensure_unique_name(name, generated_names);
            let ghost named = GenState {
                structs: start.structs,
                enums: start.enums,
                names: generated_names.deep_view(),
            };
            let mut rust_fields: Vec<RustField> = Vec::new();
            assert(rust_fields.deep_view() =~= Seq::<RustFieldModel>::empty());
            let mut i: usize = 0;
            while i < fields.len()
                invariant
                    i <= fields.len(),
                    model == json_type_model(*json_type)->Object_0,
                    model.len() == fields.len(),
                    (
                        rust_fields.deep_view(),
                        GenState {
                            structs: structs.deep_view(),
                            enums: enums.deep_view(),
                            names: generated_names.deep_view(),
                        },
                    ) == gen_fields(
                        model,
                        i as nat,
                        existing_structs.deep_view(),
                        named,
                        *merge_strategy,
                    ),
                decreases fields.len() - i,
            {
                let key = fields[i].0.as_str();
                assert(model[i as int] == (fields@[i as int].0@, json_type_model(fields@[i as int].1)));
                let field_name = to_pascal_case(key);
                let ty = generate_type(
                    field_name.as_str(),
                    false,
                    &fields[i].1,
                    existing_structs,
                    structs,
                    enums,
                    generated_names,
                    merge_strategy,
                );
                let f = make_entry_field(key, &fields[i].1, ty);
                let ghost before = rust_fields;
                let ghost added = f;
                rust_fields.push(f);
                proof {
                    lemma_push_view(before, rust_fields, added);
                }
                i += 1;
            }
            let rust_struct = match find_compatible_struct(&rust_fields, existing_structs) {
                Some(k) => extend_existing_struct(
                    &existing_structs[k],
                    rust_fields,
                    enums,
                    merge_strategy,
                ),
                None => RustStruct {
                    name: struct_name.clone(),
                    fields: rust_fields,
                    derives: default_derives(),
                    is_optional: optional,
                },
            };
            let ghost before = *structs;
            let ghost added = rust_struct;
            structs.push(rust_struct);
            proof {
                lemma_push_view(before, *structs, added);
            }
            struct_name
        },
        JsonType::Array(element) => {
            let item_name = concat2(name, "Item");
            let inner = generate_type(
                item_name.as_str(),
                false,
                element,
                existing_structs,
                structs,
                enums,
                generated_names,
                merge_strategy,
            );
            concat3("Vec<", inner.as_str(), ">")
        },
        JsonType::String => String::from_str("String"),
        JsonType::Number => String::from_str("f64"),
        JsonType::Boolean => String::from_str("bool"),
        JsonType::Null => String::from_str("Option<serde_json::Value>"),
    }
}

/// The type that stands for a schema; records and unions are added to
/// those generated so far.
pub fn generate_struct_from_schema(
    schema: &JsonSchema,
    existing_structs: &Vec<ExistingStruct>,
    structs: &mut Vec<RustStruct>,
    enums: &mut Vec<RustEnum>,
    generated_names: &mut Vec<(String, usize)>,
    merge_strategy: &MergeStrategy,
) -> (r: Result<String, Json2RustError>)
    ensures
        r matches Ok(name) && (
            name@,
            GenState {
                structs: final(structs).deep_view(),
                enums: final(enums).deep_view(),
                names: final(generated_names).deep_view(),
            },
        ) == gen_type(
            schema.name@,
            schema.optional,
            json_type_model(schema.json_type),
            existing_structs.deep_view(),
            GenState {
                structs: old(structs).deep_view(),
                enums: old(enums).deep_view(),
                names: old(generated_names).deep_view(),
            },
            *merge_strategy,
        ),
{
    Ok(
        generate_type(
            schema.name.as_str(),
            schema.optional,
            &schema.json_type,
            existing_structs,
            structs,
            enums,
            generated_names,
            merge_strategy,
        ),
    )
}

/// The records and unions of a schema, under the strategy given.
pub fn generate_rust_types_with_strategy(
    schema: &JsonSchema,
    existing_structs: &Vec<ExistingStruct>,
    merge_strategy: &MergeStrategy,
) -> (r: Result<GeneratedTypes, Json2RustError>)
    ensures
        r matches Ok(types) && types.structs.deep_view() == gen_root(
            schema.name@,
            schema.optional,
            json_type_model(schema.json_type),
            existing_structs.deep_view(),
            *merge_strategy,
        ).structs && types.enums.deep_view() == gen_root(
            schema.name@,
            schema.optional,
            json_type_model(schema.json_type),
            existing_structs.deep_view(),
            *merge_strategy,
        ).enums,
{
    let mut structs: Vec<RustStruct> = Vec::new();
    let mut enums: Vec<RustEnum> = Vec::new();
    let mut names: Vec<(String, usize)> = Vec::new();
    assert(structs.deep_view() =~= Seq::<RustStructModel>::empty());
    assert(enums.deep_view() =~= Seq::<RustEnumModel>::empty());
    assert(names.deep_view() =~= Seq::<(Seq<char>, usize)>::empty());
    match &schema.json_type {
        JsonType::Array(element) => {
            let element_name = get_singular_name(schema.name.as_str());
            let inner = generate_type(
                element_name.as_str(),
                false,
                element,
                existing_structs,
                &mut structs,
                &mut enums,
                &mut names,
                merge_strategy,
            );
            let mut fields: Vec<RustField> = Vec::new();
            fields.push(
                RustField {
                    name: String::from_str("items"),
                    field_type: concat3("Vec<", inner.as_str(), ">"),
                    is_optional: false,
                    serde_rename: None,
                },
            );
            assert(fields.deep_view() =~= seq![
                RustFieldModel {
                    name: "items"@,
                    ty: "Vec<"@ + inner@ + ">"@,
                    optional: false,
                    rename: None,
                },
            ]);
            let root = make_struct(schema.name.as_str(), fields);
            let ghost before = structs;
            let ghost added = root;
            structs.push(root);
            proof {
                lemma_push_view(before, structs, added);
            }
        },
        _ => {
            let _ = generate_type(
                schema.name.as_str(),
                schema.optional,
                &schema.json_type,
                existing_structs,
                &mut structs,
                &mut enums,
                &mut names,
                merge_strategy,
            );
        },
    }
    Ok(GeneratedTypes { structs, enums })
}

/// The records of a schema, under the strategy given.
pub fn generate_rust_structs_with_strategy(
    schema: &JsonSchema,
    existing_structs: &Vec<ExistingStruct>,
    merge_strategy: &MergeStrategy,
) -> (r: Result<Vec<RustStruct>, Json2RustError>)
    ensures
        r matches Ok(structs) && structs.deep_view() == gen_root(
            schema.name@,
            schema.optional,
            json_type_model(schema.json_type),
            existing_structs.deep_view(),
            *merge_strategy,
        ).structs,
{
    match generate_rust_types_with_strategy(schema, existing_structs, merge_strategy) {
        Ok(types) => Ok(types.structs),
        Err(e) => Err(e),
    }
}

/// The records of a schema, with fields that differ made optional.
pub fn generate_rust_structs(schema: &JsonSchema, existing_structs: &Vec<ExistingStruct>) -> (r:
    Result<Vec<RustStruct>, Json2RustError>)
    ensures
        r matches Ok(structs) && structs.deep_view() == gen_root(
            schema.name@,
            schema.optional,
            json_type_model(schema.json_type),
            existing_structs.deep_view(),
            MergeStrategy::Optional,
        ).structs,
{
    generate_rust_structs_with_strategy(schema, existing_structs, &MergeStrategy::Optional)
}

/// The fields of a schema that is an object, read off without descending;
/// an error for any other schema.
pub fn extract_fields_from_schema(schema: &JsonSchema) -> (r: Result<Vec<RustField>, Json2RustError>)
    ensures
        match r {
            Ok(fields) => json_type_model(schema.json_type) matches JsonTypeModel::Object(entries)
                && fields.deep_view() == plain_fields_of(entries),
            Err(e) => !(json_type_model(schema.json_type) is Object) && e
                == Json2RustError::CodeGeneration(e->CodeGeneration_0) && e->CodeGeneration_0@
                == "Schema is not an object"@,
        },
{
    match &schema.json_type {
        JsonType::Object(fields) => {
            let ghost model = json_type_model(schema.json_type)->Object_0;
            let mut r: Vec<RustField> = Vec::new();
            let mut i: usize = 0;
            while i < fields.len()
                invariant
                    i <= fields.len(),
                    schema.json_type == JsonType::Object(*fields),
                    model == json_type_model(schema.json_type)->Object_0,
                    r@.len() == i,
                    forall|j: int|
                        0 <= j < i ==> r@[j].deep_view() == entry_field(
                            model[j].0,
                            model[j].1,
                            plain_type_name(model[j].1),
                        ),
                decreases fields.len() - i,
            {
                let t = &fields[i].1;
                let ty = match t {
                    JsonType::String => String::from_str("String"),
                    JsonType::Number => String::from_str("f64"),
                    JsonType::Boolean => String::from_str("bool"),
                    JsonType::Null => String::from_str("Option<serde_json::Value>"),
                    JsonType::Array(_) => String::from_str("Vec<serde_json::Value>"),
                    JsonType::Object(_) => String::from_str("serde_json::Value"),
                };
                assert(model[i as int] == (fields@[i as int].0@, json_type_model(fields@[i as int].1)));
                r.push(make_entry_field(fields[i].0.as_str(), t, ty));
                i += 1;
            }
            assert(r.deep_view() =~= plain_fields_of(model));
            Ok(r)
        },
        _ => Err(Json2RustError::CodeGeneration(String::from_str("Schema is not an object"))),
    }
}

} // verus!
