//! Coverage where the variants that share a field are folded back to a
//! declared union: nothing is lost where every folded variant matches the
//! union and no common field is left beside an unfolded variant.

use vstd::prelude::*;
use crate::cluster::cluster_variants;
use crate::common::{common_fields, residuals};
use crate::common_laws::lemma_index_push;
use crate::coverage_laws::{
    in_variants, lemma_common_or_variant, lemma_has_field_concat, lemma_in_variants_at,
};
use crate::fields::{has_field, lemma_name_index, name_index};
use crate::foldback::{
    fields_except, fitting_union, fold_with_field, holder_count, non_holders, pattern_fold_back,
    pattern_matches, remaining_patterns, shared_field, try_names, try_thresholds, union_field,
    variant_fields,
};
use crate::foldback_laws::{
    covered, lemma_in_variants_witness, lemma_matched_is_declared, names_distinct, refers_to,
    union_declares,
};
use crate::generator::ResultModel;
use crate::optimizer::{optimize, VariantModel};
use crate::parser::{lookup_type, KindDecl, TypeDecl, VariantDecl};
use crate::shape::{FieldModel, ShapeModel};
use crate::text::strip_suffix_all;

verus! {

/// The first of the first `k` names that at least `threshold` variants
/// share and by which the variants can be folded back.
pub open spec fn winning_name_among(
    known: Seq<TypeDecl>,
    common: Seq<FieldModel>,
    variants: Seq<VariantModel>,
    names: Seq<FieldModel>,
    threshold: nat,
    k: nat,
    base_name: Seq<char>,
    shapes: Seq<ShapeModel>,
) -> Option<Seq<char>>
    decreases k,
{
    if k == 0 || k > names.len() {
        None
    } else {
        match winning_name_among(
            known,
            common,
            variants,
            names,
            threshold,
            (k - 1) as nat,
            base_name,
            shapes,
        ) {
            Some(n) => Some(n),
            None => if holder_count(variants, names[k - 1].name, variants.len()) >= threshold
                && fold_with_field(known, common, variants, names[k - 1].name, base_name, shapes)
                is Some {
                Some(names[k - 1].name)
            } else {
                None
            },
        }
    }
}

/// The name by which the variants are folded back, for the thresholds from
/// the number of variants down to `t`.
pub open spec fn winning_name_from(
    known: Seq<TypeDecl>,
    common: Seq<FieldModel>,
    variants: Seq<VariantModel>,
    names: Seq<FieldModel>,
    t: nat,
    base_name: Seq<char>,
    shapes: Seq<ShapeModel>,
) -> Option<Seq<char>>
    decreases variants.len() + 1 - t,
{
    if t > variants.len() {
        None
    } else {
        match winning_name_from(known, common, variants, names, t + 1, base_name, shapes) {
            Some(n) => Some(n),
            None => winning_name_among(
                known,
                common,
                variants,
                names,
                t,
                names.len(),
                base_name,
                shapes,
            ),
        }
    }
}

/// The field name by which the pattern fold-back folds the variants.
pub open spec fn folding_name(
    known: Seq<TypeDecl>,
    common: Seq<FieldModel>,
    variants: Seq<VariantModel>,
    base_name: Seq<char>,
    shapes: Seq<ShapeModel>,
) -> Option<Seq<char>> {
    winning_name_from(
        known,
        common,
        variants,
        variant_fields(variants, variants.len()),
        1,
        base_name,
        shapes,
    )
}

/// Each of the first `n` lists of fields matches some variant of the union.
pub open spec fn every_pattern_matches(
    patterns: Seq<Seq<FieldModel>>,
    declared: Seq<VariantDecl>,
    n: nat,
) -> bool
    decreases n,
{
    if n == 0 || n > patterns.len() {
        true
    } else {
        every_pattern_matches(patterns, declared, (n - 1) as nat) && pattern_matches(
            patterns[n - 1],
            declared,
        )
    }
}

/// Folding the variants back by the field `name` loses nothing: every
/// variant that shares the field matches the union, and where some variant
/// does not share the field, there are no common fields.
pub open spec fn folds_without_loss(
    known: Seq<TypeDecl>,
    common: Seq<FieldModel>,
    variants: Seq<VariantModel>,
    name: Seq<char>,
) -> bool {
    let patterns = remaining_patterns(variants, name, variants.len());
    match fitting_union(known, patterns, 0) {
        Some(u) => match known[u].kind {
            KindDecl::Union { info } => every_pattern_matches(
                patterns,
                info.variants,
                patterns.len(),
            ) && (non_holders(variants, name, variants.len()).len() > 0 ==> common.len() == 0),
            KindDecl::Record { .. } => false,
        },
        None => false,
    }
}

/// One of the first `n` variants has a field of a union that holds a field
/// named `x`.
pub open spec fn variants_refer(
    known: Seq<TypeDecl>,
    variants: Seq<VariantModel>,
    x: Seq<char>,
    n: nat,
) -> bool
    decreases n,
{
    n > 0 && n <= variants.len() && (variants_refer(known, variants, x, (n - 1) as nat)
        || refers_to(known, variants[n - 1].fields, x, variants[n - 1].fields.len()))
}

/// The decision covers the field name `x`, also by a field of one of its
/// variants that is of a known union.
pub open spec fn covered_by_variants(known: Seq<TypeDecl>, r: ResultModel, x: Seq<char>) -> bool {
    covered(known, r, x) || match r {
        ResultModel::Union { variants, .. } => variants_refer(known, variants, x, variants.len()),
        _ => false,
    }
}

proof fn lemma_names_win(
    known: Seq<TypeDecl>,
    common: Seq<FieldModel>,
    variants: Seq<VariantModel>,
    names: Seq<FieldModel>,
    threshold: nat,
    k: nat,
    base_name: Seq<char>,
    shapes: Seq<ShapeModel>,
)
    requires
        k <= names.len(),
    ensures
        try_names(known, common, variants, names, threshold, k, base_name, shapes)
            == match winning_name_among(
            known,
            common,
            variants,
            names,
            threshold,
            k,
            base_name,
            shapes,
        ) {
            Some(n) => fold_with_field(known, common, variants, n, base_name, shapes),
            None => None,
        },
        winning_name_among(known, common, variants, names, threshold, k, base_name, shapes)
            matches Some(n) ==> fold_with_field(known, common, variants, n, base_name, shapes)
            is Some,
    decreases k,
{
    if k > 0 {
        lemma_names_win(known, common, variants, names, threshold, (k - 1) as nat, base_name, shapes);
    }
}

proof fn lemma_thresholds_win(
    known: Seq<TypeDecl>,
    common: Seq<FieldModel>,
    variants: Seq<VariantModel>,
    names: Seq<FieldModel>,
    t: nat,
    base_name: Seq<char>,
    shapes: Seq<ShapeModel>,
)
    ensures
        try_thresholds(known, common, variants, names, t, base_name, shapes)
            == match winning_name_from(known, common, variants, names, t, base_name, shapes) {
            Some(n) => fold_with_field(known, common, variants, n, base_name, shapes),
            None => None,
        },
        winning_name_from(known, common, variants, names, t, base_name, shapes) matches Some(n)
            ==> fold_with_field(known, common, variants, n, base_name, shapes) is Some,
    decreases variants.len() + 1 - t,
{
    if t <= variants.len() {
        lemma_thresholds_win(known, common, variants, names, t + 1, base_name, shapes);
        lemma_names_win(known, common, variants, names, t, names.len(), base_name, shapes);
    }
}

proof fn lemma_shared_name(variants: Seq<VariantModel>, name: Seq<char>, n: nat)
    requires
        n <= variants.len(),
    ensures
        shared_field(variants, name, n) matches Some(f) ==> f.name == name,
    decreases n,
{
    if n > 0 {
        lemma_shared_name(variants, name, (n - 1) as nat);
        lemma_name_index(variants[n - 1].fields, name, 0);
    }
}

proof fn lemma_except_keeps(fields: Seq<FieldModel>, name: Seq<char>, x: Seq<char>, n: nat)
    requires
        n <= fields.len(),
        x != name,
        match name_index(fields, x, 0) {
            Some(i) => i < n,
            None => false,
        },
    ensures
        has_field(fields_except(fields, name, n), x),
    decreases n,
{
    lemma_name_index(fields, x, 0);
    let prev = fields_except(fields, name, (n - 1) as nat);
    let i = name_index(fields, x, 0).unwrap();
    if i < n - 1 {
        lemma_except_keeps(fields, name, x, (n - 1) as nat);
        lemma_index_push(prev, fields[n - 1], x, 0);
    } else {
        lemma_index_push(prev, fields[n - 1], x, 0);
    }
}

proof fn lemma_remaining_at(variants: Seq<VariantModel>, name: Seq<char>, n: nat, j: int) -> (q: int)
    requires
        0 <= j < n <= variants.len(),
        has_field(variants[j].fields, name),
    ensures
        0 <= q < remaining_patterns(variants, name, n).len(),
        remaining_patterns(variants, name, n)[q] == fields_except(
            variants[j].fields,
            name,
            variants[j].fields.len(),
        ),
    decreases n,
{
    if j < n - 1 {
        let q = lemma_remaining_at(variants, name, (n - 1) as nat, j);
        q
    } else {
        remaining_patterns(variants, name, n).len() - 1
    }
}

proof fn lemma_every_at(patterns: Seq<Seq<FieldModel>>, declared: Seq<VariantDecl>, n: nat, q: int)
    requires
        0 <= q < n <= patterns.len(),
        every_pattern_matches(patterns, declared, n),
    ensures
        pattern_matches(patterns[q], declared),
    decreases n,
{
    if q < n - 1 {
        lemma_every_at(patterns, declared, (n - 1) as nat, q);
    }
}

proof fn lemma_non_holder_kept(
    variants: Seq<VariantModel>,
    name: Seq<char>,
    n: nat,
    j: int,
    x: Seq<char>,
)
    requires
        0 <= j < n <= variants.len(),
        !has_field(variants[j].fields, name),
        has_field(variants[j].fields, x),
    ensures
        in_variants(
            non_holders(variants, name, n),
            x,
            non_holders(variants, name, n).len(),
        ),
    decreases n,
{
    let cur = non_holders(variants, name, n);
    let prev = non_holders(variants, name, (n - 1) as nat);
    if j < n - 1 {
        lemma_non_holder_kept(variants, name, (n - 1) as nat, j, x);
        lemma_in_variants_grow(prev, cur, x);
    } else {
        lemma_in_variants_at(cur, x, cur.len() - 1, cur.len());
    }
}

proof fn lemma_in_variants_grow(prev: Seq<VariantModel>, cur: Seq<VariantModel>, x: Seq<char>)
    requires
        in_variants(prev, x, prev.len()),
        prev.len() <= cur.len(),
        forall|k: int| 0 <= k < prev.len() ==> cur[k] == prev[k],
    ensures
        in_variants(cur, x, cur.len()),
{
    let k = lemma_in_variants_witness(prev, x, prev.len());
    assert(cur[k] == prev[k]);
    lemma_in_variants_at(cur, x, k, cur.len());
}

proof fn lemma_shifted(head: VariantModel, others: Seq<VariantModel>, x: Seq<char>)
    requires
        in_variants(others, x, others.len()),
    ensures
        in_variants(seq![head] + others, x, (others.len() + 1) as nat),
{
    let k = lemma_in_variants_witness(others, x, others.len());
    let all = seq![head] + others;
    assert(all[k + 1] == others[k]);
    lemma_in_variants_at(all, x, k + 1, all.len());
}

proof fn lemma_has_field_last(fields: Seq<FieldModel>, a: FieldModel, b: FieldModel, x: Seq<char>)
    requires
        has_field(fields, x) || a.name == x,
    ensures
        has_field(fields + seq![a, b], x),
{
    lemma_has_field_concat(fields, seq![a, b], x);
    if a.name == x {
        lemma_name_index(seq![a, b], x, 0);
    }
}

proof fn lemma_refers_grows(known: Seq<TypeDecl>, fields: Seq<FieldModel>, x: Seq<char>, k: int, n: nat)
    requires
        0 <= k < n <= fields.len(),
        union_declares(known, fields[k].ty, x),
    ensures
        refers_to(known, fields, x, n),
    decreases n,
{
    if k < n - 1 {
        lemma_refers_grows(known, fields, x, k, (n - 1) as nat);
    }
}

/// Coverage, with the pattern fold-back. Where the variants are folded back
/// by a field that they share, every field name of every shape given to the
/// optimizer is covered by its decision, if the fold-back loses nothing: it
/// stands in the decision, or in a variant of the declared union that a
/// field of the decision is of.
pub proof fn law_coverage_with_pattern_fold_back(
    known: Seq<TypeDecl>,
    shapes: Seq<ShapeModel>,
    name: Seq<char>,
    i: int,
    x: Seq<char>,
)
    requires
        shapes.len() <= usize::MAX,
        shapes.len() >= 2,
        0 <= i < shapes.len(),
        has_field(shapes[i].fields, x),
        names_distinct(known),
        folding_name(
            known,
            common_fields(shapes),
            cluster_variants(residuals(shapes, common_fields(shapes))),
            name,
            shapes,
        ) matches Some(n) && folds_without_loss(
            known,
            common_fields(shapes),
            cluster_variants(residuals(shapes, common_fields(shapes))),
            n,
        ),
    ensures
        covered_by_variants(known, optimize(known, shapes, name), x),
{
    let common = common_fields(shapes);
    let variants = cluster_variants(residuals(shapes, common));
    let names = variant_fields(variants, variants.len());
    lemma_thresholds_win(known, common, variants, names, 1, name, shapes);
    let n = folding_name(known, common, variants, name, shapes).unwrap();
    let r = fold_with_field(known, common, variants, n, name, shapes).unwrap();
    assert(pattern_fold_back(known, common, variants, name, shapes) == Some(r));
    assert(optimize(known, shapes, name) == r);
    let shared = shared_field(variants, n, variants.len()).unwrap();
    lemma_shared_name(variants, n, variants.len());
    let patterns = remaining_patterns(variants, n, variants.len());
    let u = fitting_union(known, patterns, 0).unwrap();
    lemma_fitting_bounds(known, patterns, 0);
    let info = known[u].kind->info;
    let holder = union_field(shapes, known[u].name);
    let others = non_holders(variants, n, variants.len());
    let pair = seq![shared, holder];
    let folded = VariantModel {
        name: strip_suffix_all(known[u].name, "Variant"@) + "Pattern"@,
        fields: pair,
    };
    lemma_common_or_variant(shapes, i, x);
    if has_field(common, x) {
        lemma_name_index(common, x, 0);
        lemma_has_field_last(common, shared, holder, x);
    } else {
        let j = lemma_in_variants_witness(variants, x, variants.len());
        if !has_field(variants[j].fields, n) {
            lemma_non_holder_kept(variants, n, variants.len(), j, x);
            lemma_shifted(folded, others, x);
        } else if x == n {
            if others.len() > 0 {
                lemma_name_index(pair, x, 0);
                lemma_in_variants_at(seq![folded] + others, x, 0, (others.len() + 1) as nat);
            } else {
                lemma_has_field_last(common, shared, holder, x);
            }
        } else {
            let q = lemma_remaining_at(variants, n, variants.len(), j);
            lemma_every_at(patterns, info.variants, patterns.len(), q);
            lemma_name_index(variants[j].fields, x, 0);
            lemma_except_keeps(variants[j].fields, n, x, variants[j].fields.len());
            lemma_matched_is_declared(patterns[q], info.variants, x);
            assert(lookup_type(known, known[u].name) == Some(known[u]));
            assert(union_declares(known, holder.ty, x));
            if others.len() > 0 {
                lemma_refers_grows(known, pair, x, 1, 2);
                let all = seq![folded] + others;
                assert(all[0] == folded);
                lemma_variants_refer_at(known, all, x, 0, all.len());
            } else {
                let fields = common + pair;
                assert(fields[fields.len() - 1] == holder);
                lemma_refers_grows(known, fields, x, fields.len() - 1, fields.len());
            }
        }
    }
}

proof fn lemma_variants_refer_at(
    known: Seq<TypeDecl>,
    variants: Seq<VariantModel>,
    x: Seq<char>,
    k: int,
    n: nat,
)
    requires
        0 <= k < n <= variants.len(),
        refers_to(known, variants[k].fields, x, variants[k].fields.len()),
    ensures
        variants_refer(known, variants, x, n),
    decreases n,
{
    if k < n - 1 {
        lemma_variants_refer_at(known, variants, x, k, (n - 1) as nat);
    }
}

proof fn lemma_fitting_bounds(known: Seq<TypeDecl>, patterns: Seq<Seq<FieldModel>>, from: int)
    requires
        0 <= from,
    ensures
        fitting_union(known, patterns, from) matches Some(u) ==> from <= u < known.len()
            && known[u].kind is Union,
    decreases known.len() - from,
{
    if from < known.len() {
        lemma_fitting_bounds(known, patterns, from + 1);
    }
}

} // verus!
