//! Fold-back: representing the variants that remain by an untagged union
//! that is already declared, instead of a new one.
//!
//! A variant matches a declared variant if their fields, ordered by name,
//! agree place by place in name, are strictly compatible in type, and the
//! variant does not leave optional what the declaration requires.

use vstd::prelude::*;
use vstd::string::*;
use crate::fields::{
    by_name, collect_fields, collect_into, contains_name, field_named, has_field, index_of_name,
    sort_by_name,
};
use crate::generator::{EvolutionResult, ResultModel};
use crate::optimizer::{ShapeVariant, VariantModel};
use crate::parser::{
    FieldDecl, KindDecl, TypeDecl, TypeInfo, TypeKind, UnionDecl, VariantDecl, VariantInfo,
};
use crate::cluster::numbered_name;
use crate::shape::{declared_fields, plain_fields, FieldModel, Shape, ShapeField, ShapeModel};
use crate::text::{
    concat2, contains, contains_text, decimal, lowercase_of, same_text, strip_suffix_all,
    strip_suffix_repeated, to_lowercase,
};
use crate::typetext::{strictly_compatible, types_strictly_compatible};
use crate::views::{lemma_push_view, replicate_all, Replicate};

verus! {

/// Of a hundred variants that share a field, how many must match a declared
/// union for the pattern fold-back.
pub const PATTERN_FOLD_PERCENT: u128 = 70;

/// Of a hundred variants, how many must match a declared union for the
/// direct fold-back without common fields.
pub const DIRECT_FOLD_PERCENT: u128 = 80;

/// A field fills the place of a declared field.
pub open spec fn slot_fits(have: FieldModel, want: FieldModel) -> bool {
    have.name == want.name && strictly_compatible(have.ty, want.ty) && (want.required
        ==> have.required)
}

/// The first `n` places of two lists of fields fit.
pub open spec fn patterns_match(p: Seq<FieldModel>, q: Seq<FieldModel>, n: nat) -> bool
    decreases n,
{
    if n == 0 {
        true
    } else {
        n <= p.len() && n <= q.len() && patterns_match(p, q, (n - 1) as nat) && slot_fits(
            p[n - 1],
            q[n - 1],
        )
    }
}

/// Two lists of fields, each in name order, are compatible.
pub open spec fn patterns_compatible(p: Seq<FieldModel>, q: Seq<FieldModel>) -> bool {
    p.len() == q.len() && patterns_match(p, q, p.len())
}

/// The fields of a declared variant, in name order.
pub open spec fn declared_pattern(fields: Seq<FieldDecl>) -> Seq<FieldModel> {
    by_name(plain_fields(fields))
}

/// The list `p`, in name order, is compatible with one of the first `n`
/// declared variants. Unit variants match nothing.
pub open spec fn matches_union(p: Seq<FieldModel>, variants: Seq<VariantDecl>, n: nat) -> bool
    decreases n,
{
    if n == 0 || n > variants.len() {
        false
    } else {
        matches_union(p, variants, (n - 1) as nat) || match variants[n - 1].fields {
            Some(fs) => patterns_compatible(p, declared_pattern(fs)),
            None => false,
        }
    }
}

/// The fields `p` match some variant of the union.
pub open spec fn pattern_matches(p: Seq<FieldModel>, variants: Seq<VariantDecl>) -> bool {
    matches_union(by_name(p), variants, variants.len())
}

/// How many of the first `n` lists of fields match some variant of the union.
pub open spec fn matched_count(
    patterns: Seq<Seq<FieldModel>>,
    variants: Seq<VariantDecl>,
    n: nat,
) -> nat
    decreases n,
{
    if n == 0 || n > patterns.len() {
        0
    } else {
        matched_count(patterns, variants, (n - 1) as nat) + if pattern_matches(
            patterns[n - 1],
            variants,
        ) {
            1nat
        } else {
            0nat
        }
    }
}

/// Those of the first `n` fields that are not named `name`.
pub open spec fn fields_except(fields: Seq<FieldModel>, name: Seq<char>, n: nat) -> Seq<FieldModel>
    decreases n,
{
    if n == 0 || n > fields.len() {
        Seq::empty()
    } else {
        let prev = fields_except(fields, name, (n - 1) as nat);
        if fields[n - 1].name == name {
            prev
        } else {
            prev.push(fields[n - 1])
        }
    }
}

/// How many of the first `n` variants hold a field named `name`.
pub open spec fn holder_count(variants: Seq<VariantModel>, name: Seq<char>, n: nat) -> nat
    decreases n,
{
    if n == 0 || n > variants.len() {
        0
    } else {
        holder_count(variants, name, (n - 1) as nat) + if has_field(variants[n - 1].fields, name) {
            1nat
        } else {
            0nat
        }
    }
}

/// Of the first `n` variants that hold a field named `name`, the other fields.
pub open spec fn remaining_patterns(variants: Seq<VariantModel>, name: Seq<char>, n: nat) -> Seq<
    Seq<FieldModel>,
>
    decreases n,
{
    if n == 0 || n > variants.len() {
        Seq::empty()
    } else {
        let prev = remaining_patterns(variants, name, (n - 1) as nat);
        let fields = variants[n - 1].fields;
        if has_field(fields, name) {
            prev.push(fields_except(fields, name, fields.len()))
        } else {
            prev
        }
    }
}

/// The field named `name` as the first of the first `n` variants that holds
/// one has it.
pub open spec fn shared_field(variants: Seq<VariantModel>, name: Seq<char>, n: nat) -> Option<
    FieldModel,
>
    decreases n,
{
    if n == 0 || n > variants.len() {
        None
    } else {
        match shared_field(variants, name, (n - 1) as nat) {
            Some(f) => Some(f),
            None => field_named(variants[n - 1].fields, name),
        }
    }
}

/// Those of the first `n` variants that hold no field named `name`.
pub open spec fn non_holders(variants: Seq<VariantModel>, name: Seq<char>, n: nat) -> Seq<
    VariantModel,
>
    decreases n,
{
    if n == 0 || n > variants.len() {
        Seq::empty()
    } else {
        let prev = non_holders(variants, name, (n - 1) as nat);
        if has_field(variants[n - 1].fields, name) {
            prev
        } else {
            prev.push(variants[n - 1])
        }
    }
}

/// Enough of the lists of fields match the union for the pattern fold-back.
pub open spec fn fits_union(patterns: Seq<Seq<FieldModel>>, variants: Seq<VariantDecl>) -> bool {
    patterns.len() > 0 && 100 * matched_count(patterns, variants, patterns.len())
        >= PATTERN_FOLD_PERCENT * patterns.len()
}

/// The place of the first declaration, at or after `from`, that is an
/// untagged union which the lists of fields fit.
pub open spec fn fitting_union(
    known: Seq<TypeDecl>,
    patterns: Seq<Seq<FieldModel>>,
    from: int,
) -> Option<int>
    decreases known.len() - from,
{
    if from < 0 || from >= known.len() {
        None
    } else {
        let here = match known[from].kind {
            KindDecl::Union { info } => info.untagged && fits_union(patterns, info.variants),
            KindDecl::Record { .. } => false,
        };
        if here {
            Some(from)
        } else {
            fitting_union(known, patterns, from + 1)
        }
    }
}

/// The name of a field that holds a union, made from the name of the union.
pub open spec fn derived_name(union_name: Seq<char>) -> Seq<char> {
    if contains_text(lowercase_of(union_name), "variant"@) {
        lowercase_of(strip_suffix_all(union_name, "Variant"@))
    } else {
        lowercase_of(union_name) + "_type"@
    }
}

/// The name of the field that held the union `union_name`, as the first
/// shape, at or after `from`, that came from that union records it.
pub open spec fn recovered_name(shapes: Seq<ShapeModel>, union_name: Seq<char>, from: int) -> Option<
    Seq<char>,
>
    decreases shapes.len() - from,
{
    if from < 0 || from >= shapes.len() {
        None
    } else if shapes[from].meta.source == Some(union_name) {
        shapes[from].meta.field_name
    } else {
        recovered_name(shapes, union_name, from + 1)
    }
}

/// The field that holds the union `union_name`: named as the shapes record
/// it, else by a name made from the name of the union.
pub open spec fn union_field(shapes: Seq<ShapeModel>, union_name: Seq<char>) -> FieldModel {
    FieldModel {
        name: match recovered_name(shapes, union_name, 0) {
            Some(n) => n,
            None => derived_name(union_name),
        },
        ty: union_name,
        required: true,
    }
}

/// The fold-back of the variants that share the field named `name`, if
/// there is one. If every variant shares the field, the decision is a
/// record of the common fields, the shared field and a field that holds the
/// union; otherwise a union of one folded variant and the other variants as
/// they are.
pub open spec fn fold_with_field(
    known: Seq<TypeDecl>,
    common: Seq<FieldModel>,
    variants: Seq<VariantModel>,
    name: Seq<char>,
    base_name: Seq<char>,
    shapes: Seq<ShapeModel>,
) -> Option<ResultModel> {
    match shared_field(variants, name, variants.len()) {
        None => None,
        Some(shared) => match fitting_union(
            known,
            remaining_patterns(variants, name, variants.len()),
            0,
        ) {
            None => None,
            Some(u) => {
                let union_name = known[u].name;
                let holder = union_field(shapes, union_name);
                let others = non_holders(variants, name, variants.len());
                if others.len() > 0 {
                    Some(
                        ResultModel::Union {
                            name: base_name,
                            common: Seq::empty(),
                            variants: seq![
                                VariantModel {
                                    name: strip_suffix_all(union_name, "Variant"@) + "Pattern"@,
                                    fields: seq![shared, holder],
                                },
                            ] + others,
                        },
                    )
                } else {
                    Some(ResultModel::Record { name: base_name, fields: common + seq![shared, holder] })
                }
            },
        },
    }
}

/// The fields of the first `n` variants, each name once, as first met.
pub open spec fn variant_fields(variants: Seq<VariantModel>, n: nat) -> Seq<FieldModel>
    decreases n,
{
    if n == 0 || n > variants.len() {
        Seq::empty()
    } else {
        collect_into(
            variant_fields(variants, (n - 1) as nat),
            variants[n - 1].fields,
            variants[n - 1].fields.len(),
        )
    }
}

/// The first fold-back among the first `k` names that at least `threshold`
/// variants share.
pub open spec fn try_names(
    known: Seq<TypeDecl>,
    common: Seq<FieldModel>,
    variants: Seq<VariantModel>,
    names: Seq<FieldModel>,
    threshold: nat,
    k: nat,
    base_name: Seq<char>,
    shapes: Seq<ShapeModel>,
) -> Option<ResultModel>
    decreases k,
{
    if k == 0 || k > names.len() {
        None
    } else {
        match try_names(known, common, variants, names, threshold, (k - 1) as nat, base_name, shapes) {
            Some(r) => Some(r),
            None => if holder_count(variants, names[k - 1].name, variants.len()) >= threshold {
                fold_with_field(known, common, variants, names[k - 1].name, base_name, shapes)
            } else {
                None
            },
        }
    }
}

/// The first fold-back for the thresholds from the number of variants down
/// to `t`.
pub open spec fn try_thresholds(
    known: Seq<TypeDecl>,
    common: Seq<FieldModel>,
    variants: Seq<VariantModel>,
    names: Seq<FieldModel>,
    t: nat,
    base_name: Seq<char>,
    shapes: Seq<ShapeModel>,
) -> Option<ResultModel>
    decreases variants.len() + 1 - t,
{
    if t > variants.len() {
        None
    } else {
        match try_thresholds(known, common, variants, names, t + 1, base_name, shapes) {
            Some(r) => Some(r),
            None => try_names(known, common, variants, names, t, names.len(), base_name, shapes),
        }
    }
}

/// The pattern fold-back: for falling thresholds, from the number of
/// variants down to one, the first field name that so many variants share
/// and whose other fields fit a known untagged union.
pub open spec fn pattern_fold_back(
    known: Seq<TypeDecl>,
    common: Seq<FieldModel>,
    variants: Seq<VariantModel>,
    base_name: Seq<char>,
    shapes: Seq<ShapeModel>,
) -> Option<ResultModel> {
    try_thresholds(
        known,
        common,
        variants,
        variant_fields(variants, variants.len()),
        1,
        base_name,
        shapes,
    )
}

/// The fields of each variant.
pub open spec fn variant_patterns(variants: Seq<VariantModel>) -> Seq<Seq<FieldModel>> {
    Seq::new(variants.len(), |i: int| variants[i].fields)
}

/// Of the first `n` variants, those that match no variant of the union, each
/// as a new variant with its fields in name order, numbered after its place.
pub open spec fn unmatched_variants(
    variants: Seq<VariantModel>,
    declared: Seq<VariantDecl>,
    n: nat,
) -> Seq<VariantModel>
    decreases n,
{
    if n == 0 || n > variants.len() {
        Seq::empty()
    } else {
        let prev = unmatched_variants(variants, declared, (n - 1) as nat);
        if pattern_matches(variants[n - 1].fields, declared) {
            prev
        } else {
            prev.push(
                VariantModel {
                    name: "NewVariant"@ + decimal(n),
                    fields: by_name(variants[n - 1].fields),
                },
            )
        }
    }
}

/// The name of the field that holds a union where nothing else is known of it.
pub open spec fn bare_union_field_name(union_name: Seq<char>) -> Seq<char> {
    if contains_text(lowercase_of(union_name), "variant"@) {
        "variant"@
    } else {
        lowercase_of(union_name) + "_type"@
    }
}

/// The fold-back of the variants to one declared union. With common fields
/// and at least one matching variant, the decision is a record of the common
/// fields and a field that holds the union, together with the variants that
/// the union must gain, if some did not match. Without common fields, a
/// record of the one field that holds the union, if enough variants match.
pub open spec fn union_fold(
    common: Seq<FieldModel>,
    variants: Seq<VariantModel>,
    union_name: Seq<char>,
    info: UnionDecl,
    base_name: Seq<char>,
    shapes: Seq<ShapeModel>,
) -> Option<ResultModel> {
    if !info.untagged {
        None
    } else {
        let matched = matched_count(variant_patterns(variants), info.variants, variants.len());
        if common.len() > 0 && matched > 0 {
            let fields = common.push(union_field(shapes, union_name));
            let extra = unmatched_variants(variants, info.variants, variants.len());
            if extra.len() > 0 {
                Some(
                    ResultModel::ExtendedUnion {
                        record_name: base_name,
                        record_fields: fields,
                        union_name: union_name,
                        new_variants: extra,
                    },
                )
            } else {
                Some(ResultModel::Record { name: base_name, fields: fields })
            }
        } else if common.len() == 0 && 100 * matched >= DIRECT_FOLD_PERCENT * variants.len() {
            Some(
                ResultModel::Record {
                    name: base_name,
                    fields: seq![
                        FieldModel {
                            name: bare_union_field_name(union_name),
                            ty: union_name,
                            required: true,
                        },
                    ],
                },
            )
        } else {
            None
        }
    }
}

/// The direct fold-back: the fold-back to the first declared union, at or
/// after `from`, that allows one.
pub open spec fn direct_fold_back(
    known: Seq<TypeDecl>,
    common: Seq<FieldModel>,
    variants: Seq<VariantModel>,
    base_name: Seq<char>,
    shapes: Seq<ShapeModel>,
    from: int,
) -> Option<ResultModel>
    decreases known.len() - from,
{
    if from < 0 || from >= known.len() {
        None
    } else {
        let here = match known[from].kind {
            KindDecl::Union { info } => union_fold(
                common,
                variants,
                known[from].name,
                info,
                base_name,
                shapes,
            ),
            KindDecl::Record { .. } => None,
        };
        match here {
            Some(r) => Some(r),
            None => direct_fold_back(known, common, variants, base_name, shapes, from + 1),
        }
    }
}

/// The fold-back, if there is one: the pattern fold-back first; then, with
/// common fields and variants both present, the direct fold-back.
pub open spec fn fold_back(
    known: Seq<TypeDecl>,
    common: Seq<FieldModel>,
    variants: Seq<VariantModel>,
    base_name: Seq<char>,
    shapes: Seq<ShapeModel>,
) -> Option<ResultModel> {
    match pattern_fold_back(known, common, variants, base_name, shapes) {
        Some(r) => Some(r),
        None => if common.len() > 0 && variants.len() > 0 {
            direct_fold_back(known, common, variants, base_name, shapes, 0)
        } else {
            None
        },
    }
}

/// Whether two lists of fields, each in name order, are compatible.
pub fn patterns_fit(p: &Vec<ShapeField>, q: &Vec<ShapeField>) -> (r: bool)
    ensures
        r == patterns_compatible(p.deep_view(), q.deep_view()),
{
    if p.len() != q.len() {
        return false;
    }
    let mut i: usize = 0;
    while i < p.len()
        invariant
            i <= p.len(),
            p.len() == q.len(),
            patterns_match(p.deep_view(), q.deep_view(), i as nat),
        decreases p.len() - i,
    {
        let fits = same_text(p[i].name.as_str(), q[i].name.as_str()) && types_strictly_compatible(
            p[i].field_type.as_str(),
            q[i].field_type.as_str(),
        ) && (!q[i].is_required || p[i].is_required);
        if !fits {
            proof {
                lemma_match_prefix(p.deep_view(), q.deep_view(), (i + 1) as nat, p.len() as nat);
            }
            return false;
        }
        i += 1;
    }
    true
}

/// Places that fit up to `n` fit up to any `k <= n`.
pub proof fn lemma_match_prefix(p: Seq<FieldModel>, q: Seq<FieldModel>, k: nat, n: nat)
    requires
        k <= n,
    ensures
        patterns_match(p, q, n) ==> patterns_match(p, q, k),
    decreases n,
{
    if k < n {
        lemma_match_prefix(p, q, k, (n - 1) as nat);
    }
}

/// Whether the list `p`, in name order, is compatible with a declared variant.
pub fn matches_any_variant(p: &Vec<ShapeField>, declared: &Vec<VariantInfo>) -> (r: bool)
    ensures
        r == matches_union(p.deep_view(), declared.deep_view(), declared.len() as nat),
{
    let mut i: usize = 0;
    while i < declared.len()
        invariant
            i <= declared.len(),
            !matches_union(p.deep_view(), declared.deep_view(), i as nat),
        decreases declared.len() - i,
    {
        match &declared[i].fields {
            Some(fs) => {
                let q = sort_by_name(&declared_fields(fs));
                if patterns_fit(p, &q) {
                    proof {
                        lemma_matches_grows(
                            p.deep_view(),
                            declared.deep_view(),
                            (i + 1) as nat,
                            declared.len() as nat,
                        );
                    }
                    return true;
                }
            },
            None => {},
        }
        i += 1;
    }
    false
}

/// A match among the first `k` variants is a match among the first `n >= k`.
pub proof fn lemma_matches_grows(p: Seq<FieldModel>, declared: Seq<VariantDecl>, k: nat, n: nat)
    requires
        k <= n <= declared.len(),
        matches_union(p, declared, k),
    ensures
        matches_union(p, declared, n),
    decreases n,
{
    if k < n {
        lemma_matches_grows(p, declared, k, (n - 1) as nat);
    }
}

/// How many of the lists of fields match some variant of the union.
pub fn count_matched(patterns: &Vec<Vec<ShapeField>>, declared: &Vec<VariantInfo>) -> (r: usize)
    ensures
        r == matched_count(patterns.deep_view(), declared.deep_view(), patterns.len() as nat),
        r <= patterns.len(),
{
    let mut r: usize = 0;
    let mut i: usize = 0;
    while i < patterns.len()
        invariant
            i <= patterns.len(),
            r <= i,
            r == matched_count(patterns.deep_view(), declared.deep_view(), i as nat),
        decreases patterns.len() - i,
    {
        let sorted = sort_by_name(&patterns[i]);
        if matches_any_variant(&sorted, declared) {
            r += 1;
        }
        i += 1;
    }
    r
}

/// The fields that are not named `name`.
pub fn fields_other_than(fields: &Vec<ShapeField>, name: &str) -> (r: Vec<ShapeField>)
    ensures
        r.deep_view() == fields_except(fields.deep_view(), name@, fields.len() as nat),
{
    let mut r: Vec<ShapeField> = Vec::new();
    assert(r.deep_view() =~= Seq::<FieldModel>::empty());
    let mut i: usize = 0;
    while i < fields.len()
        invariant
            i <= fields.len(),
            r.deep_view() == fields_except(fields.deep_view(), name@, i as nat),
        decreases fields.len() - i,
    {
        if !same_text(fields[i].name.as_str(), name) {
            let nf = fields[i].replicate();
            let ghost before = r;
            let ghost added = nf;
            r.push(nf);
            proof {
                lemma_push_view(before, r, added);
            }
        }
        i += 1;
    }
    r
}

/// The variants that hold a field named `name`, split from the others: the
/// shared field, the other fields of each holder, and the variants that do
/// not hold the field.
pub fn split_by_field(variants: &Vec<ShapeVariant>, name: &str) -> (r: (
    Option<ShapeField>,
    Vec<Vec<ShapeField>>,
    Vec<ShapeVariant>,
))
    ensures
        r.0.deep_view() == shared_field(variants.deep_view(), name@, variants.len() as nat),
        r.1.deep_view() == remaining_patterns(variants.deep_view(), name@, variants.len() as nat),
        r.2.deep_view() == non_holders(variants.deep_view(), name@, variants.len() as nat),
{
    let mut shared: Option<ShapeField> = None;
    let mut rest: Vec<Vec<ShapeField>> = Vec::new();
    let mut others: Vec<ShapeVariant> = Vec::new();
    assert(rest.deep_view() =~= Seq::<Seq<FieldModel>>::empty());
    assert(others.deep_view() =~= Seq::<VariantModel>::empty());
    let mut i: usize = 0;
    while i < variants.len()
        invariant
            i <= variants.len(),
            shared.deep_view() == shared_field(variants.deep_view(), name@, i as nat),
            rest.deep_view() == remaining_patterns(variants.deep_view(), name@, i as nat),
            others.deep_view() == non_holders(variants.deep_view(), name@, i as nat),
        decreases variants.len() - i,
    {
        match index_of_name(&variants[i].fields, name) {
            Some(k) => {
                if shared.is_none() {
                    shared = Some(variants[i].fields[k].replicate());
                }
                let p = fields_other_than(&variants[i].fields, name);
                let ghost before = rest;
                let ghost added = p;
                rest.push(p);
                proof {
                    lemma_push_view(before, rest, added);
                }
            },
            None => {
                let v = variants[i].replicate();
                let ghost before = others;
                let ghost added = v;
                others.push(v);
                proof {
                    lemma_push_view(before, others, added);
                }
            },
        }
        i += 1;
    }
    (shared, rest, others)
}

/// The place of the first known untagged union that the lists of fields fit.
pub fn find_fitting_union(known: &Vec<TypeInfo>, patterns: &Vec<Vec<ShapeField>>) -> (r: Option<
    usize,
>)
    ensures
        match r {
            Some(u) => fitting_union(known.deep_view(), patterns.deep_view(), 0) == Some(u as int)
                && u < known.len(),
            None => fitting_union(known.deep_view(), patterns.deep_view(), 0) is None,
        },
{
    let mut i: usize = 0;
    while i < known.len()
        invariant
            i <= known.len(),
            fitting_union(known.deep_view(), patterns.deep_view(), 0) == fitting_union(
                known.deep_view(),
                patterns.deep_view(),
                i as int,
            ),
        decreases known.len() - i,
    {
        match &known[i].kind {
            TypeKind::Enum { info } => {
                if info.is_untagged && patterns.len() > 0 {
                    let matched = count_matched(patterns, &info.variants);
                    if 100 * (matched as u128) >= PATTERN_FOLD_PERCENT * (patterns.len() as u128) {
                        return Some(i);
                    }
                }
            },
            TypeKind::Struct { .. } => {},
        }
        i += 1;
    }
    None
}

/// The name of a field that holds a union, made from the name of the union.
pub fn derive_field_name(union_name: &str) -> (r: String)
    ensures
        r@ == derived_name(union_name@),
{
    let lower = to_lowercase(union_name);
    if contains(lower.as_str(), "variant") {
        let stem = strip_suffix_repeated(union_name, "Variant");
        to_lowercase(stem.as_str())
    } else {
        concat2(lower.as_str(), "_type")
    }
}

/// The name of the field that held the union, as the shapes record it.
pub fn recover_field_name(shapes: &Vec<Shape>, union_name: &str) -> (r: Option<String>)
    ensures
        r.deep_view() == recovered_name(shapes.deep_view(), union_name@, 0),
{
    let mut i: usize = 0;
    while i < shapes.len()
        invariant
            i <= shapes.len(),
            recovered_name(shapes.deep_view(), union_name@, 0) == recovered_name(
                shapes.deep_view(),
                union_name@,
                i as int,
            ),
        decreases shapes.len() - i,
    {
        let from_union = match &shapes[i].metadata.source_enum_type {
            Some(s) => same_text(s.as_str(), union_name),
            None => false,
        };
        if from_union {
            return match &shapes[i].metadata.original_enum_field_name {
                Some(n) => Some(n.clone()),
                None => None,
            };
        }
        i += 1;
    }
    None
}

/// The field that holds the union `union_name`.
pub fn make_union_field(shapes: &Vec<Shape>, union_name: &str) -> (r: ShapeField)
    ensures
        r.deep_view() == union_field(shapes.deep_view(), union_name@),
{
    let name = match recover_field_name(shapes, union_name) {
        Some(n) => n,
        None => derive_field_name(union_name),
    };
    ShapeField { name, field_type: String::from_str(union_name), is_required: true }
}

/// The fold-back of the variants that share the field named `name`.
pub fn try_fold_back_with_common_field(
    known: &Vec<TypeInfo>,
    common: &Vec<ShapeField>,
    variants: &Vec<ShapeVariant>,
    name: &str,
    base_name: &str,
    shapes: &Vec<Shape>,
) -> (r: Option<EvolutionResult>)
    ensures
        r.deep_view() == fold_with_field(
            known.deep_view(),
            common.deep_view(),
            variants.deep_view(),
            name@,
            base_name@,
            shapes.deep_view(),
        ),
{
    let (shared, rest, mut others) = split_by_field(variants, name);
    let shared = match shared {
        Some(f) => f,
        None => {
            return None;
        },
    };
    let u = match find_fitting_union(known, &rest) {
        Some(u) => u,
        None => {
            return None;
        },
    };
    let union_name = known[u].name.as_str();
    let holder = make_union_field(shapes, union_name);
    let ghost shared_model = shared.deep_view();
    let ghost holder_model = holder.deep_view();
    let mut pair: Vec<ShapeField> = Vec::new();
    pair.push(shared);
    pair.push(holder);
    assert(pair.deep_view() =~= seq![shared_model, holder_model]);
    if others.len() > 0 {
        let stem = strip_suffix_repeated(union_name, "Variant");
        let folded = ShapeVariant { name: concat2(stem.as_str(), "Pattern"), fields: pair };
        let mut all: Vec<ShapeVariant> = Vec::new();
        let ghost folded_model = folded.deep_view();
        all.push(folded);
        let ghost a = all.deep_view();
        let ghost b = others.deep_view();
        assert(a =~= seq![folded_model]);
        all.append(&mut others);
        assert(all.deep_view() =~= a + b);
        let none: Vec<ShapeField> = Vec::new();
        assert(none.deep_view() =~= Seq::<FieldModel>::empty());
        Some(EvolutionResult::complex_enum(base_name, none, all))
    } else {
        let mut fields = replicate_all(common);
        let ghost a = fields.deep_view();
        let ghost b = pair.deep_view();
        fields.append(&mut pair);
        assert(fields.deep_view() =~= a + b);
        Some(EvolutionResult::simple_struct(base_name, fields))
    }
}

/// How many variants hold a field named `name`.
pub fn count_holders(variants: &Vec<ShapeVariant>, name: &str) -> (r: usize)
    ensures
        r == holder_count(variants.deep_view(), name@, variants.len() as nat),
{
    let mut r: usize = 0;
    let mut i: usize = 0;
    while i < variants.len()
        invariant
            i <= variants.len(),
            r <= i,
            r == holder_count(variants.deep_view(), name@, i as nat),
        decreases variants.len() - i,
    {
        if contains_name(&variants[i].fields, name) {
            r += 1;
        }
        i += 1;
    }
    r
}

/// The fields of the variants, each name once, as first met.
pub fn collect_variant_fields(variants: &Vec<ShapeVariant>) -> (r: Vec<ShapeField>)
    ensures
        r.deep_view() == variant_fields(variants.deep_view(), variants.len() as nat),
{
    let mut r: Vec<ShapeField> = Vec::new();
    assert(r.deep_view() =~= Seq::<FieldModel>::empty());
    let mut i: usize = 0;
    while i < variants.len()
        invariant
            i <= variants.len(),
            r.deep_view() == variant_fields(variants.deep_view(), i as nat),
        decreases variants.len() - i,
    {
        collect_fields(&mut r, &variants[i].fields);
        i += 1;
    }
    r
}

/// The pattern fold-back.
pub fn try_pattern_fold_back(
    known: &Vec<TypeInfo>,
    common: &Vec<ShapeField>,
    variants: &Vec<ShapeVariant>,
    base_name: &str,
    shapes: &Vec<Shape>,
) -> (r: Option<EvolutionResult>)
    ensures
        r.deep_view() == pattern_fold_back(
            known.deep_view(),
            common.deep_view(),
            variants.deep_view(),
            base_name@,
            shapes.deep_view(),
        ),
{
    let names = collect_variant_fields(variants);
    let mut t: usize = variants.len();
    while t >= 1
        invariant
            t <= variants.len(),
            names.deep_view() == variant_fields(variants.deep_view(), variants.len() as nat),
            try_thresholds(
                known.deep_view(),
                common.deep_view(),
                variants.deep_view(),
                names.deep_view(),
                (t + 1) as nat,
                base_name@,
                shapes.deep_view(),
            ) is None,
        decreases t,
    {
        let mut k: usize = 0;
        while k < names.len()
            invariant
                k <= names.len(),
                1 <= t <= variants.len(),
                names.deep_view() == variant_fields(variants.deep_view(), variants.len() as nat),
                try_thresholds(
                    known.deep_view(),
                    common.deep_view(),
                    variants.deep_view(),
                    names.deep_view(),
                    (t + 1) as nat,
                    base_name@,
                    shapes.deep_view(),
                ) is None,
                try_names(
                    known.deep_view(),
                    common.deep_view(),
                    variants.deep_view(),
                    names.deep_view(),
                    t as nat,
                    k as nat,
                    base_name@,
                    shapes.deep_view(),
                ) is None,
            decreases names.len() - k,
        {
            let name = names[k].name.as_str();
            if count_holders(variants, name) >= t {
                let found = try_fold_back_with_common_field(
                    known,
                    common,
                    variants,
                    name,
                    base_name,
                    shapes,
                );
                if found.is_some() {
                    proof {
                        assert(names.deep_view()[k as int].name == name@);
                        assert(try_names(
                            known.deep_view(),
                            common.deep_view(),
                            variants.deep_view(),
                            names.deep_view(),
                            t as nat,
                            (k + 1) as nat,
                            base_name@,
                            shapes.deep_view(),
                        ) == found.deep_view());
                        lemma_first_name_wins(
                            known.deep_view(),
                            common.deep_view(),
                            variants.deep_view(),
                            names.deep_view(),
                            t as nat,
                            (k + 1) as nat,
                            names.len() as nat,
                            base_name@,
                            shapes.deep_view(),
                        );
                        assert(try_thresholds(
                            known.deep_view(),
                            common.deep_view(),
                            variants.deep_view(),
                            names.deep_view(),
                            t as nat,
                            base_name@,
                            shapes.deep_view(),
                        ) == found.deep_view());
                        lemma_first_threshold_wins(
                            known.deep_view(),
                            common.deep_view(),
                            variants.deep_view(),
                            names.deep_view(),
                            t as nat,
                            1,
                            base_name@,
                            shapes.deep_view(),
                        );
                    }
                    return found;
                }
            }
            k += 1;
        }
        t -= 1;
    }
    None
}

/// A fold-back found among the first `k` names is the one found among the
/// first `n >= k`.
pub proof fn lemma_first_name_wins(
    known: Seq<TypeDecl>,
    common: Seq<FieldModel>,
    variants: Seq<VariantModel>,
    names: Seq<FieldModel>,
    threshold: nat,
    k: nat,
    n: nat,
    base_name: Seq<char>,
    shapes: Seq<ShapeModel>,
)
    requires
        k <= n <= names.len(),
        try_names(known, common, variants, names, threshold, k, base_name, shapes) is Some,
    ensures
        try_names(known, common, variants, names, threshold, n, base_name, shapes) == try_names(
            known,
            common,
            variants,
            names,
            threshold,
            k,
            base_name,
            shapes,
        ),
    decreases n,
{
    if k < n {
        lemma_first_name_wins(
            known,
            common,
            variants,
            names,
            threshold,
            k,
            (n - 1) as nat,
            base_name,
            shapes,
        );
    }
}

/// A fold-back found for the thresholds down to `t` is the one found for the
/// thresholds down to any `s <= t`.
pub proof fn lemma_first_threshold_wins(
    known: Seq<TypeDecl>,
    common: Seq<FieldModel>,
    variants: Seq<VariantModel>,
    names: Seq<FieldModel>,
    t: nat,
    s: nat,
    base_name: Seq<char>,
    shapes: Seq<ShapeModel>,
)
    requires
        s <= t <= variants.len(),
        try_thresholds(known, common, variants, names, t, base_name, shapes) is Some,
    ensures
        try_thresholds(known, common, variants, names, s, base_name, shapes) == try_thresholds(
            known,
            common,
            variants,
            names,
            t,
            base_name,
            shapes,
        ),
    decreases t - s,
{
    if s < t {
        lemma_first_threshold_wins(known, common, variants, names, t, s + 1, base_name, shapes);
    }
}

/// The fields of each variant.
pub fn patterns_of(variants: &Vec<ShapeVariant>) -> (r: Vec<Vec<ShapeField>>)
    ensures
        r.deep_view() == variant_patterns(variants.deep_view()),
{
    let mut r: Vec<Vec<ShapeField>> = Vec::new();
    let mut i: usize = 0;
    while i < variants.len()
        invariant
            i <= variants.len(),
            r@.len() == i,
            forall|j: int| 0 <= j < i ==> r@[j].deep_view() == variants@[j].fields.deep_view(),
        decreases variants.len() - i,
    {
        r.push(replicate_all(&variants[i].fields));
        i += 1;
    }
    assert(r.deep_view() =~= variant_patterns(variants.deep_view()));
    r
}

/// The variants that match no variant of the union, as new variants.
pub fn new_variants_for(variants: &Vec<ShapeVariant>, declared: &Vec<VariantInfo>) -> (r: Vec<
    ShapeVariant,
>)
    ensures
        r.deep_view() == unmatched_variants(
            variants.deep_view(),
            declared.deep_view(),
            variants.len() as nat,
        ),
{
    let mut r: Vec<ShapeVariant> = Vec::new();
    assert(r.deep_view() =~= Seq::<VariantModel>::empty());
    let mut i: usize = 0;
    while i < variants.len()
        invariant
            i <= variants.len(),
            r.deep_view() == unmatched_variants(
                variants.deep_view(),
                declared.deep_view(),
                i as nat,
            ),
        decreases variants.len() - i,
    {
        let sorted = sort_by_name(&variants[i].fields);
        if !matches_any_variant(&sorted, declared) {
            let v = ShapeVariant { name: numbered_name("NewVariant", i + 1), fields: sorted };
            let ghost before = r;
            let ghost added = v;
            r.push(v);
            proof {
                lemma_push_view(before, r, added);
            }
        }
        i += 1;
    }
    r
}

/// The fold-back of the variants to one declared union.
pub fn check_enum_compatibility(
    common: &Vec<ShapeField>,
    variants: &Vec<ShapeVariant>,
    union_name: &str,
    info: &crate::parser::EnumInfo,
    base_name: &str,
    shapes: &Vec<Shape>,
) -> (r: Option<EvolutionResult>)
    ensures
        r.deep_view() == union_fold(
            common.deep_view(),
            variants.deep_view(),
            union_name@,
            info.deep_view(),
            base_name@,
            shapes.deep_view(),
        ),
{
    if !info.is_untagged {
        return None;
    }
    let patterns = patterns_of(variants);
    let matched = count_matched(&patterns, &info.variants);
    if common.len() > 0 && matched > 0 {
        let mut fields = replicate_all(common);
        let holder = make_union_field(shapes, union_name);
        let ghost before = fields;
        let ghost added = holder;
        fields.push(holder);
        proof {
            lemma_push_view(before, fields, added);
        }
        let extra = new_variants_for(variants, &info.variants);
        if extra.len() > 0 {
            Some(EvolutionResult::struct_with_extended_enum(base_name, fields, union_name, extra))
        } else {
            Some(EvolutionResult::simple_struct(base_name, fields))
        }
    } else if common.len() == 0 && 100 * (matched as u128) >= DIRECT_FOLD_PERCENT * (
    variants.len() as u128) {
        let lower = to_lowercase(union_name);
        let name = if contains(lower.as_str(), "variant") {
            String::from_str("variant")
        } else {
            concat2(lower.as_str(), "_type")
        };
        let mut fields: Vec<ShapeField> = Vec::new();
        fields.push(ShapeField { name, field_type: String::from_str(union_name), is_required: true });
        assert(fields.deep_view() =~= seq![
            FieldModel { name: bare_union_field_name(union_name@), ty: union_name@, required: true },
        ]);
        Some(EvolutionResult::simple_struct(base_name, fields))
    } else {
        None
    }
}

/// The direct fold-back.
pub fn try_enum_fold_back(
    known: &Vec<TypeInfo>,
    common: &Vec<ShapeField>,
    variants: &Vec<ShapeVariant>,
    base_name: &str,
    shapes: &Vec<Shape>,
) -> (r: Option<EvolutionResult>)
    ensures
        r.deep_view() == direct_fold_back(
            known.deep_view(),
            common.deep_view(),
            variants.deep_view(),
            base_name@,
            shapes.deep_view(),
            0,
        ),
{
    let mut i: usize = 0;
    while i < known.len()
        invariant
            i <= known.len(),
            direct_fold_back(
                known.deep_view(),
                common.deep_view(),
                variants.deep_view(),
                base_name@,
                shapes.deep_view(),
                0,
            ) == direct_fold_back(
                known.deep_view(),
                common.deep_view(),
                variants.deep_view(),
                base_name@,
                shapes.deep_view(),
                i as int,
            ),
        decreases known.len() - i,
    {
        match &known[i].kind {
            TypeKind::Enum { info } => {
                let found = check_enum_compatibility(
                    common,
                    variants,
                    known[i].name.as_str(),
                    info,
                    base_name,
                    shapes,
                );
                if found.is_some() {
                    return found;
                }
            },
            TypeKind::Struct { .. } => {},
        }
        i += 1;
    }
    None
}

/// The fold-back, if there is one.
pub fn analyze_fold_back(
    known: &Vec<TypeInfo>,
    common: &Vec<ShapeField>,
    variants: &Vec<ShapeVariant>,
    base_name: &str,
    shapes: &Vec<Shape>,
) -> (r: Option<EvolutionResult>)
    ensures
        r.deep_view() == fold_back(
            known.deep_view(),
            common.deep_view(),
            variants.deep_view(),
            base_name@,
            shapes.deep_view(),
        ),
{
    let found = try_pattern_fold_back(known, common, variants, base_name, shapes);
    if found.is_some() {
        return found;
    }
    if common.len() > 0 && variants.len() > 0 {
        try_enum_fold_back(known, common, variants, base_name, shapes)
    } else {
        None
    }
}

} // verus!
