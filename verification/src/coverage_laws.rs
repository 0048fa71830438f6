//! Coverage: what the optimizer decides holds every field name of every shape
//! it was given, wherever it does not fold the variants back to a known union.

use vstd::prelude::*;
use crate::cluster::{
    cluster_from, cluster_variants, collapse_all, gather, group_of, merged_variant, optional_rest,
};
use crate::common::{common_fields, residual, residuals, without_names};
use crate::common_laws::{lemma_index_push, named_among};
use crate::fields::{all_fields, collect_into, has_field, lemma_name_index, name_index};
use crate::foldback::fold_back;
use crate::generator::ResultModel;
use crate::optimizer::{generic_decision, optimize, VariantModel};
use crate::parser::TypeDecl;
use crate::shape::{FieldModel, ShapeModel};

verus! {

/// One of the first `n` variants holds a field named `x`.
pub open spec fn in_variants(variants: Seq<VariantModel>, x: Seq<char>, n: nat) -> bool
    decreases n,
{
    n > 0 && n <= variants.len() && (in_variants(variants, x, (n - 1) as nat) || has_field(
        variants[n - 1].fields,
        x,
    ))
}

/// The decision holds a field named `x`: among the fields of the record,
/// among the common fields, or in one of the variants.
pub open spec fn result_holds(r: ResultModel, x: Seq<char>) -> bool {
    match r {
        ResultModel::Record { fields, .. } => has_field(fields, x),
        ResultModel::Union { common, variants, .. } => has_field(common, x) || in_variants(
            variants,
            x,
            variants.len(),
        ),
        ResultModel::ExtendedUnion { record_fields, new_variants, .. } => has_field(
            record_fields,
            x,
        ) || in_variants(new_variants, x, new_variants.len()),
    }
}

pub proof fn lemma_in_variants_at(variants: Seq<VariantModel>, x: Seq<char>, k: int, n: nat)
    requires
        0 <= k < n <= variants.len(),
        has_field(variants[k].fields, x),
    ensures
        in_variants(variants, x, n),
    decreases n,
{
    if k < n - 1 {
        lemma_in_variants_at(variants, x, k, (n - 1) as nat);
    }
}

proof fn lemma_in_variants_push(variants: Seq<VariantModel>, v: VariantModel, x: Seq<char>, n: nat)
    requires
        n <= variants.len(),
        in_variants(variants, x, n),
    ensures
        in_variants(variants.push(v), x, n),
        in_variants(variants.push(v), x, (variants.len() + 1) as nat),
    decreases variants.len() + 1 - n,
{
    lemma_in_variants_keep(variants, v, x, n);
    lemma_in_variants_more(variants.push(v), x, n, (variants.len() + 1) as nat);
}

proof fn lemma_in_variants_keep(variants: Seq<VariantModel>, v: VariantModel, x: Seq<char>, n: nat)
    requires
        n <= variants.len(),
        in_variants(variants, x, n),
    ensures
        in_variants(variants.push(v), x, n),
    decreases n,
{
    if n > 0 {
        assert(variants.push(v)[n - 1] == variants[n - 1]);
        if in_variants(variants, x, (n - 1) as nat) {
            lemma_in_variants_keep(variants, v, x, (n - 1) as nat);
        }
    }
}

proof fn lemma_in_variants_more(variants: Seq<VariantModel>, x: Seq<char>, k: nat, n: nat)
    requires
        k <= n <= variants.len(),
        in_variants(variants, x, k),
    ensures
        in_variants(variants, x, n),
    decreases n,
{
    if k < n {
        lemma_in_variants_more(variants, x, k, (n - 1) as nat);
    }
}

/// A field stands in a list put together from two exactly if it stands in
/// one of the two.
pub proof fn lemma_has_field_concat(a: Seq<FieldModel>, b: Seq<FieldModel>, x: Seq<char>)
    ensures
        has_field(a + b, x) <==> (has_field(a, x) || has_field(b, x)),
    decreases b.len(),
{
    if b.len() == 0 {
        assert(a + b =~= a);
        assert(name_index(b, x, 0) is None);
    } else {
        let front = b.drop_last();
        lemma_has_field_concat(a, front, x);
        assert(a + b =~= (a + front).push(b.last()));
        assert(b =~= front.push(b.last()));
        lemma_index_push(a + front, b.last(), x, 0);
        lemma_index_push(front, b.last(), x, 0);
    }
}

proof fn lemma_collapse_keeps(fields: Seq<FieldModel>, x: Seq<char>, from: int)
    requires
        0 <= from,
    ensures
        name_index(collapse_all(fields), x, from) == name_index(fields, x, from),
    decreases fields.len() - from,
{
    if from < fields.len() {
        assert(collapse_all(fields)[from].name == fields[from].name);
        lemma_collapse_keeps(fields, x, from + 1);
    }
}

proof fn lemma_without_keeps(fields: Seq<FieldModel>, names: Seq<FieldModel>, x: Seq<char>, n: nat)
    requires
        n <= fields.len(),
        named_among(fields, x, n),
        !has_field(names, x),
    ensures
        has_field(without_names(fields, names, n), x),
    decreases n,
{
    lemma_name_index(fields, x, 0);
    let prev = without_names(fields, names, (n - 1) as nat);
    if named_among(fields, x, (n - 1) as nat) {
        lemma_without_keeps(fields, names, x, (n - 1) as nat);
        lemma_index_push(prev, fields[n - 1], x, 0);
    } else {
        assert(fields[n - 1].name == x);
        lemma_index_push(prev, fields[n - 1], x, 0);
    }
}

proof fn lemma_rest_keeps(all: Seq<FieldModel>, common: Seq<FieldModel>, x: Seq<char>, n: nat)
    requires
        n <= all.len(),
        named_among(all, x, n),
        !has_field(common, x),
    ensures
        has_field(optional_rest(all, common, n), x),
    decreases n,
{
    lemma_name_index(all, x, 0);
    let prev = optional_rest(all, common, (n - 1) as nat);
    let f = all[n - 1];
    let made = FieldModel {
        name: f.name,
        ty: crate::typetext::optional_form(f.ty),
        required: f.required,
    };
    if named_among(all, x, (n - 1) as nat) {
        lemma_rest_keeps(all, common, x, (n - 1) as nat);
        lemma_index_push(prev, made, x, 0);
    } else {
        assert(f.name == x);
        lemma_index_push(prev, made, x, 0);
    }
}

proof fn lemma_collect_keeps(acc: Seq<FieldModel>, fields: Seq<FieldModel>, x: Seq<char>, m: nat)
    requires
        m <= fields.len(),
        has_field(acc, x) || named_among(fields, x, m),
    ensures
        has_field(collect_into(acc, fields, m), x),
    decreases m,
{
    lemma_name_index(fields, x, 0);
    if m > 0 {
        let prev = collect_into(acc, fields, (m - 1) as nat);
        if has_field(acc, x) || named_among(fields, x, (m - 1) as nat) {
            lemma_collect_keeps(acc, fields, x, (m - 1) as nat);
            lemma_index_push(prev, fields[m - 1], x, 0);
        } else {
            assert(fields[m - 1].name == x);
            lemma_index_push(prev, fields[m - 1], x, 0);
        }
    }
}

proof fn lemma_all_fields_holds(shapes: Seq<ShapeModel>, k: int, x: Seq<char>, n: nat)
    requires
        0 <= k < n <= shapes.len(),
        has_field(shapes[k].fields, x),
    ensures
        has_field(all_fields(shapes, n), x),
    decreases n,
{
    let fields = shapes[n - 1].fields;
    if k < n - 1 {
        lemma_all_fields_holds(shapes, k, x, (n - 1) as nat);
        lemma_collect_keeps(all_fields(shapes, (n - 1) as nat), fields, x, fields.len());
    } else {
        lemma_name_index(fields, x, 0);
        lemma_collect_keeps(all_fields(shapes, (n - 1) as nat), fields, x, fields.len());
    }
}

/// The variant of a cluster holds every field name of every member.
pub proof fn lemma_variant_holds(
    shapes: Seq<ShapeModel>,
    members: Seq<usize>,
    p: int,
    x: Seq<char>,
)
    requires
        0 <= p < members.len(),
        forall|q: int| 0 <= q < members.len() ==> (#[trigger] members[q]) < shapes.len(),
        has_field(shapes[members[p] as int].fields, x),
    ensures
        has_field(merged_variant(shapes, members).fields, x),
{
    if members.len() != 1 {
        let group = group_of(shapes, members);
        let common = common_fields(group);
        let all = all_fields(group, group.len());
        lemma_all_fields_holds(group, p, x, group.len());
        lemma_name_index(all, x, 0);
        let rest = optional_rest(all, common, all.len());
        if !has_field(common, x) {
            lemma_rest_keeps(all, common, x, all.len());
        }
        lemma_has_field_concat(common, rest, x);
        lemma_collapse_keeps(common + rest, x, 0);
    }
}

proof fn lemma_gather_marks(shapes: Seq<ShapeModel>, base: int, taken: Seq<bool>, j: int)
    requires
        shapes.len() <= usize::MAX,
        0 <= base < shapes.len(),
        taken.len() == shapes.len(),
        base + 1 <= j <= shapes.len(),
    ensures
        gather(shapes, base, taken, j).1.len() == taken.len(),
        forall|q: int|
            0 <= q < gather(shapes, base, taken, j).0.len() ==> (#[trigger] gather(
                shapes,
                base,
                taken,
                j,
            ).0[q]) < shapes.len(),
        forall|k: int|
            0 <= k < shapes.len() && #[trigger] gather(shapes, base, taken, j).1[k] ==> (taken[k]
                || exists|q: int|
                0 <= q < gather(shapes, base, taken, j).0.len() && gather(
                    shapes,
                    base,
                    taken,
                    j,
                ).0[q] == k),
        forall|k: int| 0 <= k < shapes.len() && taken[k] ==> #[trigger] gather(shapes, base, taken, j).1[k],
        gather(shapes, base, taken, j).1[base],
    decreases j,
{
    let g = gather(shapes, base, taken, j);
    if j > base + 1 {
        lemma_gather_marks(shapes, base, taken, j - 1);
        let prev = gather(shapes, base, taken, j - 1);
        assert forall|k: int| 0 <= k < shapes.len() && #[trigger] g.1[k] implies (taken[k]
            || exists|q: int| 0 <= q < g.0.len() && g.0[q] == k) by {
            if !taken[k] {
                if prev.1[k] {
                    let q = choose|q: int| 0 <= q < prev.0.len() && prev.0[q] == k;
                    assert(g.0[q] == k);
                } else {
                    assert(k == j - 1);
                    assert(g.0[prev.0.len() as int] == k);
                }
            }
        }
    } else {
        assert forall|k: int| 0 <= k < shapes.len() && #[trigger] g.1[k] implies (taken[k]
            || exists|q: int| 0 <= q < g.0.len() && g.0[q] == k) by {
            if !taken[k] {
                assert(k == base);
                assert(g.0[0] == k);
            }
        }
    }
}

proof fn lemma_cluster_marks(shapes: Seq<ShapeModel>, i: nat)
    requires
        shapes.len() <= usize::MAX,
        i <= shapes.len(),
    ensures
        cluster_from(shapes, i).1.len() == shapes.len(),
        forall|k: int| 0 <= k < i ==> #[trigger] cluster_from(shapes, i).1[k],
    decreases i,
{
    if i > 0 {
        lemma_cluster_marks(shapes, (i - 1) as nat);
        let prev = cluster_from(shapes, (i - 1) as nat);
        if !prev.1[i - 1] {
            lemma_gather_marks(shapes, i - 1, prev.1, shapes.len() as int);
        }
    }
}

proof fn lemma_cluster_covers(shapes: Seq<ShapeModel>, i: nat, k: int, x: Seq<char>)
    requires
        shapes.len() <= usize::MAX,
        i <= shapes.len(),
        0 <= k < shapes.len(),
        cluster_from(shapes, i).1.len() == shapes.len(),
        cluster_from(shapes, i).1[k],
        has_field(shapes[k].fields, x),
    ensures
        in_variants(cluster_from(shapes, i).0, x, cluster_from(shapes, i).0.len()),
    decreases i,
{
    if i > 0 {
        lemma_cluster_marks(shapes, (i - 1) as nat);
        let prev = cluster_from(shapes, (i - 1) as nat);
        if prev.1[i - 1] {
            lemma_cluster_covers(shapes, (i - 1) as nat, k, x);
        } else {
            let g = gather(shapes, i - 1, prev.1, shapes.len() as int);
            let v = merged_variant(shapes, g.0);
            lemma_gather_marks(shapes, i - 1, prev.1, shapes.len() as int);
            if prev.1[k] {
                lemma_cluster_covers(shapes, (i - 1) as nat, k, x);
                lemma_in_variants_push(prev.0, v, x, prev.0.len());
            } else {
                let q = choose|q: int| 0 <= q < g.0.len() && g.0[q] == k;
                lemma_variant_holds(shapes, g.0, q, x);
                lemma_in_variants_at(prev.0.push(v), x, prev.0.len() as int, (prev.0.len() + 1) as nat);
            }
        }
    }
}

/// The generic decision holds every field name of the common fields and of
/// the variants.
pub proof fn lemma_decision_covers(
    name: Seq<char>,
    common: Seq<FieldModel>,
    variants: Seq<VariantModel>,
    x: Seq<char>,
)
    requires
        has_field(common, x) || in_variants(variants, x, variants.len()),
    ensures
        result_holds(generic_decision(name, common, variants), x),
{
    if variants.len() == 1 {
        assert(in_variants(variants, x, 1) ==> has_field(variants[0].fields, x)) by {
            assert(!in_variants(variants, x, 0));
        }
        lemma_has_field_concat(common, variants[0].fields, x);
        lemma_collapse_keeps(common + variants[0].fields, x, 0);
    }
}

/// Every field name of a shape is the name of a common field of the set, or
/// stands in one of the variants that the rest of the shapes is clustered
/// into.
pub proof fn lemma_common_or_variant(shapes: Seq<ShapeModel>, i: int, x: Seq<char>)
    requires
        shapes.len() <= usize::MAX,
        0 <= i < shapes.len(),
        has_field(shapes[i].fields, x),
    ensures
        has_field(common_fields(shapes), x) || in_variants(
            cluster_variants(residuals(shapes, common_fields(shapes))),
            x,
            cluster_variants(residuals(shapes, common_fields(shapes))).len(),
        ),
{
    let common = common_fields(shapes);
    let rest = residuals(shapes, common);
    if !has_field(common, x) {
        lemma_name_index(shapes[i].fields, x, 0);
        lemma_without_keeps(shapes[i].fields, common, x, shapes[i].fields.len());
        assert(rest[i] == residual(shapes[i], common));
        lemma_cluster_marks(rest, rest.len());
        lemma_cluster_covers(rest, rest.len(), i, x);
    }
}

/// Coverage. Every field name of every shape given to the optimizer stands
/// in its decision, as a common field, as a field of the record, or in one
/// of the variants, wherever the decision is not a fold-back to a known union.
pub proof fn law_coverage(
    known: Seq<TypeDecl>,
    shapes: Seq<ShapeModel>,
    name: Seq<char>,
    i: int,
    x: Seq<char>,
)
    requires
        shapes.len() <= usize::MAX,
        0 <= i < shapes.len(),
        has_field(shapes[i].fields, x),
        shapes.len() >= 2 ==> fold_back(
            known,
            common_fields(shapes),
            cluster_variants(residuals(shapes, common_fields(shapes))),
            name,
            shapes,
        ) is None,
    ensures
        result_holds(optimize(known, shapes, name), x),
{
    if shapes.len() >= 2 {
        let common = common_fields(shapes);
        let rest = residuals(shapes, common);
        let variants = cluster_variants(rest);
        if !has_field(common, x) {
            lemma_name_index(shapes[i].fields, x, 0);
            lemma_without_keeps(shapes[i].fields, common, x, shapes[i].fields.len());
            assert(rest[i] == residual(shapes[i], common));
            lemma_cluster_marks(rest, rest.len());
            lemma_cluster_covers(rest, rest.len(), i, x);
        }
        lemma_decision_covers(name, common, variants, x);
    }
}

} // verus!
