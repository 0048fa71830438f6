//! Coverage where the variants are folded back to one declared union: what
//! the decision does not hold itself, the union holds that it refers to.

use vstd::prelude::*;
use crate::cluster::cluster_variants;
use crate::common::{common_fields, residuals};
use crate::common_laws::lemma_index_push;
use crate::coverage_laws::{
    in_variants, law_coverage, lemma_common_or_variant, lemma_has_field_concat,
    lemma_in_variants_at, result_holds,
};
use crate::evolution::decl_index;
use crate::fields::{
    by_name, has_field, insert_position, lemma_insert_position_bound, lemma_name_index,
    lemma_sorted_len, name_index, sorted_by_name,
};
use crate::foldback::{
    declared_pattern, direct_fold_back, fold_back, matches_union,
    pattern_fold_back, pattern_matches, patterns_compatible, patterns_match, slot_fits,
    union_field, union_fold, unmatched_variants, };
use crate::generator::ResultModel;
use crate::optimizer::{optimize, VariantModel};
use crate::parser::{lookup_type, FieldDecl, KindDecl, TypeDecl, VariantDecl};
use crate::shape::{plain_fields, FieldModel, ShapeModel};

verus! {

/// One of the first `n` declared variants holds a field named `x`.
pub open spec fn declared_holds(variants: Seq<VariantDecl>, x: Seq<char>, n: nat) -> bool
    decreases n,
{
    n > 0 && n <= variants.len() && (declared_holds(variants, x, (n - 1) as nat)
        || match variants[n - 1].fields {
        Some(fs) => decl_index(fs, x, 0) is Some,
        None => false,
    })
}

/// The table holds a union under the name `ty`, and one of its variants
/// holds a field named `x`.
pub open spec fn union_declares(known: Seq<TypeDecl>, ty: Seq<char>, x: Seq<char>) -> bool {
    match lookup_type(known, ty) {
        Some(d) => match d.kind {
            KindDecl::Union { info } => declared_holds(info.variants, x, info.variants.len()),
            KindDecl::Record { .. } => false,
        },
        None => false,
    }
}

/// One of the first `n` fields is of a union that holds a field named `x`.
pub open spec fn refers_to(known: Seq<TypeDecl>, fields: Seq<FieldModel>, x: Seq<char>, n: nat) -> bool
    decreases n,
{
    n > 0 && n <= fields.len() && (refers_to(known, fields, x, (n - 1) as nat) || union_declares(
        known,
        fields[n - 1].ty,
        x,
    ))
}

/// The decision covers the field name `x`: it holds a field of that name,
/// or a field of its record is of a known union that holds one.
pub open spec fn covered(known: Seq<TypeDecl>, r: ResultModel, x: Seq<char>) -> bool {
    result_holds(r, x) || match r {
        ResultModel::Record { fields, .. } => refers_to(known, fields, x, fields.len()),
        ResultModel::ExtendedUnion { record_fields, .. } => refers_to(
            known,
            record_fields,
            x,
            record_fields.len(),
        ),
        ResultModel::Union { .. } => false,
    }
}

/// Every declaration of the table is the one that the table holds under
/// its name.
pub open spec fn names_distinct(known: Seq<TypeDecl>) -> bool {
    forall|k: int| 0 <= k < known.len() ==> lookup_type(known, (#[trigger] known[k]).name) == Some(
        known[k],
    )
}

proof fn lemma_has_field_at(fields: Seq<FieldModel>, i: int, x: Seq<char>)
    requires
        0 <= i < fields.len(),
        fields[i].name == x,
    ensures
        has_field(fields, x),
{
    lemma_name_index(fields, x, 0);
}

proof fn lemma_has_field_insert(s: Seq<FieldModel>, p: int, f: FieldModel, x: Seq<char>)
    requires
        0 <= p <= s.len(),
    ensures
        has_field(s.insert(p, f), x) <==> (has_field(s, x) || f.name == x),
{
    let front = s.take(p);
    let back = s.skip(p);
    assert(s =~= front + back);
    assert(s.insert(p, f) =~= (front + seq![f]) + back);
    lemma_has_field_concat(front, back, x);
    lemma_has_field_concat(front + seq![f], back, x);
    lemma_has_field_concat(front, seq![f], x);
    lemma_name_index(seq![f], x, 0);
    if f.name == x {
        lemma_has_field_at(seq![f], 0, x);
    }
}

proof fn lemma_sorted_keeps(fields: Seq<FieldModel>, n: nat, x: Seq<char>)
    requires
        n <= fields.len(),
    ensures
        has_field(sorted_by_name(fields, n), x) <==> has_field(fields.take(n as int), x),
    decreases n,
{
    if n == 0 {
        lemma_name_index(fields.take(0), x, 0);
        lemma_name_index(sorted_by_name(fields, 0), x, 0);
    } else {
        lemma_sorted_keeps(fields, (n - 1) as nat, x);
        let prev = sorted_by_name(fields, (n - 1) as nat);
        lemma_sorted_len(fields, (n - 1) as nat);
        lemma_insert_position_bound(prev, fields[n - 1].name, prev.len());
        let p = insert_position(prev, fields[n - 1].name, prev.len()) as int;
        lemma_has_field_insert(prev, p, fields[n - 1], x);
        assert(fields.take(n as int) =~= fields.take(n - 1).push(fields[n - 1]));
        lemma_index_push(fields.take(n - 1), fields[n - 1], x, 0);
    }
}

/// Ordering fields by name neither adds nor loses a name.
pub proof fn lemma_by_name_keeps(fields: Seq<FieldModel>, x: Seq<char>)
    ensures
        has_field(by_name(fields), x) <==> has_field(fields, x),
{
    lemma_sorted_keeps(fields, fields.len(), x);
    assert(fields.take(fields.len() as int) =~= fields);
}

proof fn lemma_match_slot(p: Seq<FieldModel>, q: Seq<FieldModel>, n: nat, i: int)
    requires
        0 <= i < n,
        patterns_match(p, q, n),
    ensures
        i < p.len(),
        i < q.len(),
        slot_fits(p[i], q[i]),
    decreases n,
{
    if i < n - 1 {
        lemma_match_slot(p, q, (n - 1) as nat, i);
    }
}

proof fn lemma_compatible_names(p: Seq<FieldModel>, q: Seq<FieldModel>, x: Seq<char>)
    requires
        patterns_compatible(p, q),
        has_field(p, x),
    ensures
        has_field(q, x),
{
    lemma_name_index(p, x, 0);
    let i = name_index(p, x, 0).unwrap();
    lemma_match_slot(p, q, p.len(), i);
    lemma_has_field_at(q, i, x);
}

proof fn lemma_plain_index(fields: Seq<FieldDecl>, x: Seq<char>, from: int)
    requires
        0 <= from,
    ensures
        name_index(plain_fields(fields), x, from) == decl_index(fields, x, from),
    decreases fields.len() - from,
{
    if from < fields.len() {
        assert(plain_fields(fields)[from].name == fields[from].name);
        lemma_plain_index(fields, x, from + 1);
    }
}

proof fn lemma_matches_union_holds(p: Seq<FieldModel>, declared: Seq<VariantDecl>, n: nat, x: Seq<char>)
    requires
        n <= declared.len(),
        matches_union(p, declared, n),
        has_field(p, x),
    ensures
        declared_holds(declared, x, n),
    decreases n,
{
    if n > 0 {
        if matches_union(p, declared, (n - 1) as nat) {
            lemma_matches_union_holds(p, declared, (n - 1) as nat, x);
        } else {
            let fs = declared[n - 1].fields.unwrap();
            lemma_compatible_names(p, declared_pattern(fs), x);
            lemma_by_name_keeps(plain_fields(fs), x);
            lemma_plain_index(fs, x, 0);
        }
    }
}

/// A variant that matches a declared variant has no field name that the
/// union does not hold.
pub proof fn lemma_matched_is_declared(fields: Seq<FieldModel>, declared: Seq<VariantDecl>, x: Seq<char>)
    requires
        pattern_matches(fields, declared),
        has_field(fields, x),
    ensures
        declared_holds(declared, x, declared.len()),
{
    lemma_by_name_keeps(fields, x);
    lemma_matches_union_holds(by_name(fields), declared, declared.len(), x);
}

pub proof fn lemma_in_variants_witness(variants: Seq<VariantModel>, x: Seq<char>, n: nat) -> (j: int)
    requires
        in_variants(variants, x, n),
    ensures
        0 <= j < n <= variants.len(),
        has_field(variants[j].fields, x),
    decreases n,
{
    if in_variants(variants, x, (n - 1) as nat) {
        lemma_in_variants_witness(variants, x, (n - 1) as nat)
    } else {
        n - 1
    }
}

proof fn lemma_unmatched_holds(
    variants: Seq<VariantModel>,
    declared: Seq<VariantDecl>,
    n: nat,
    j: int,
    x: Seq<char>,
)
    requires
        0 <= j < n <= variants.len(),
        !pattern_matches(variants[j].fields, declared),
        has_field(variants[j].fields, x),
    ensures
        in_variants(
            unmatched_variants(variants, declared, n),
            x,
            unmatched_variants(variants, declared, n).len(),
        ),
    decreases n,
{
    let cur = unmatched_variants(variants, declared, n);
    let prev = unmatched_variants(variants, declared, (n - 1) as nat);
    if j < n - 1 {
        lemma_unmatched_holds(variants, declared, (n - 1) as nat, j, x);
        if cur != prev {
            let k = lemma_in_variants_witness(prev, x, prev.len());
            assert(cur[k] == prev[k]);
            lemma_in_variants_at(cur, x, k, cur.len());
        }
    } else {
        lemma_by_name_keeps(variants[j].fields, x);
        assert(cur[cur.len() - 1].fields == by_name(variants[j].fields));
        lemma_in_variants_at(cur, x, cur.len() - 1, cur.len());
    }
}

proof fn lemma_direct_source(
    known: Seq<TypeDecl>,
    common: Seq<FieldModel>,
    variants: Seq<VariantModel>,
    name: Seq<char>,
    shapes: Seq<ShapeModel>,
    from: int,
) -> (k: int)
    requires
        0 <= from,
        direct_fold_back(known, common, variants, name, shapes, from) is Some,
    ensures
        from <= k < known.len(),
        known[k].kind is Union,
        union_fold(common, variants, known[k].name, known[k].kind->info, name, shapes)
            == direct_fold_back(known, common, variants, name, shapes, from),
    decreases known.len() - from,
{
    let here = match known[from].kind {
        KindDecl::Union { info } => union_fold(common, variants, known[from].name, info, name, shapes),
        KindDecl::Record { .. } => None,
    };
    if here is Some {
        from
    } else {
        lemma_direct_source(known, common, variants, name, shapes, from + 1)
    }
}

proof fn lemma_refers_last(known: Seq<TypeDecl>, fields: Seq<FieldModel>, f: FieldModel, x: Seq<char>)
    requires
        union_declares(known, f.ty, x),
    ensures
        refers_to(known, fields.push(f), x, (fields.len() + 1) as nat),
{
    assert(fields.push(f)[fields.len() as int] == f);
}

/// Coverage, with the direct fold-back. Every field name of every shape
/// given to the optimizer is covered by its decision: it stands in the
/// decision, or in a variant of the declared union that a field of the
/// decision is of. This holds wherever the pattern fold-back does not apply,
/// for a table in which no two declarations have the same name.
pub proof fn law_coverage_with_direct_fold_back(
    known: Seq<TypeDecl>,
    shapes: Seq<ShapeModel>,
    name: Seq<char>,
    i: int,
    x: Seq<char>,
)
    requires
        shapes.len() <= usize::MAX,
        0 <= i < shapes.len(),
        has_field(shapes[i].fields, x),
        names_distinct(known),
        shapes.len() >= 2 ==> pattern_fold_back(
            known,
            common_fields(shapes),
            cluster_variants(residuals(shapes, common_fields(shapes))),
            name,
            shapes,
        ) is None,
    ensures
        covered(known, optimize(known, shapes, name), x),
{
    if shapes.len() >= 2 {
        let common = common_fields(shapes);
        let variants = cluster_variants(residuals(shapes, common));
        if fold_back(known, common, variants, name, shapes) is None {
            law_coverage(known, shapes, name, i, x);
        } else {
            let r = direct_fold_back(known, common, variants, name, shapes, 0).unwrap();
            let k = lemma_direct_source(known, common, variants, name, shapes, 0);
            let info = known[k].kind->info;
            let holder = union_field(shapes, known[k].name);
            let fields = common.push(holder);
            let extra = unmatched_variants(variants, info.variants, variants.len());
            assert(r == optimize(known, shapes, name));
            lemma_common_or_variant(shapes, i, x);
            if has_field(common, x) {
                lemma_index_push(common, holder, x, 0);
            } else {
                let j = lemma_in_variants_witness(variants, x, variants.len());
                if pattern_matches(variants[j].fields, info.variants) {
                    lemma_matched_is_declared(variants[j].fields, info.variants, x);
                    assert(lookup_type(known, known[k].name) == Some(known[k]));
                    lemma_refers_last(known, common, holder, x);
                } else {
                    lemma_unmatched_holds(variants, info.variants, variants.len(), j, x);
                }
            }
        }
    } else {
        law_coverage(known, shapes, name, i, x);
    }
}

} // verus!
