//! Greedy clustering of residual shapes into variants.
//!
//! Shapes are taken in the order given. A shape that no earlier cluster took
//! becomes the base of a new cluster, which takes every later free shape that
//! differs from the base by at most one field name. A cluster of several
//! shapes is merged into one variant.

use vstd::prelude::*;
use vstd::string::*;
use crate::common::{common_fields, find_common};
use crate::fields::{
    all_fields, collect_all_fields, contains_name, has_field, index_of_name, is_first_of_name,
    };
use crate::optimizer::{ShapeVariant, VariantModel};
use crate::shape::{FieldModel, Shape, ShapeField, ShapeModel};
use crate::text::{decimal, push_decimal};
use crate::typetext::{collapse_optional, collapsed, make_optional, optional_form};
use crate::views::{lemma_push_view, replicate_all, Replicate};

verus! {

/// The greatest number of field names by which two shapes of one cluster may differ.
pub const MERGE_THRESHOLD: u128 = 1;

/// How many names stand among the first `n` fields of `a` and nowhere in `b`.
pub open spec fn missing_count(a: Seq<FieldModel>, b: Seq<FieldModel>, n: nat) -> nat
    decreases n,
{
    if n == 0 || n > a.len() {
        0
    } else {
        missing_count(a, b, (n - 1) as nat) + if is_first_of_name(a, n - 1) && !has_field(
            b,
            a[n - 1].name,
        ) {
            1nat
        } else {
            0nat
        }
    }
}

/// The number of field names that one of two shapes has and the other lacks.
pub open spec fn name_difference(a: ShapeModel, b: ShapeModel) -> nat {
    missing_count(a.fields, b.fields, a.fields.len()) + missing_count(
        b.fields,
        a.fields,
        b.fields.len(),
    )
}

/// Two shapes may share a cluster.
pub open spec fn can_merge(a: ShapeModel, b: ShapeModel) -> bool {
    name_difference(a, b) <= MERGE_THRESHOLD
}

/// The cluster of the base `base` after the shapes before place `j` were
/// looked at: its members, and the marks of the shapes that are taken.
pub open spec fn gather(shapes: Seq<ShapeModel>, base: int, taken: Seq<bool>, j: int) -> (
    Seq<usize>,
    Seq<bool>,
)
    decreases j,
{
    if base < 0 || j <= base + 1 {
        (seq![base as usize], taken.update(base, true))
    } else {
        let prev = gather(shapes, base, taken, j - 1);
        let k = j - 1;
        if k < shapes.len() && k < prev.1.len() && !prev.1[k] && can_merge(shapes[base], shapes[k]) {
            (prev.0.push(k as usize), prev.1.update(k, true))
        } else {
            prev
        }
    }
}

/// The shapes of a cluster.
pub open spec fn group_of(shapes: Seq<ShapeModel>, members: Seq<usize>) -> Seq<ShapeModel> {
    Seq::new(members.len(), |k: int| shapes[members[k] as int])
}

/// Of the first `n` fields of `all`, those that are not common, made optional.
pub open spec fn optional_rest(all: Seq<FieldModel>, common: Seq<FieldModel>, n: nat) -> Seq<
    FieldModel,
>
    decreases n,
{
    if n == 0 || n > all.len() {
        Seq::empty()
    } else {
        let prev = optional_rest(all, common, (n - 1) as nat);
        let f = all[n - 1];
        if has_field(common, f.name) {
            prev
        } else {
            prev.push(FieldModel { name: f.name, ty: optional_form(f.ty), required: f.required })
        }
    }
}

/// Every field with a doubled optional wrapper reduced to a single one.
pub open spec fn collapse_all(fields: Seq<FieldModel>) -> Seq<FieldModel> {
    Seq::new(
        fields.len(),
        |i: int|
            FieldModel {
                name: fields[i].name,
                ty: collapsed(fields[i].ty),
                required: fields[i].required,
            },
    )
}

/// The fields of the variant that a cluster of several shapes merges into:
/// the fields common to the cluster as they are, then every other field of
/// the cluster, made optional.
pub open spec fn merged_fields(group: Seq<ShapeModel>) -> Seq<FieldModel> {
    let common = common_fields(group);
    let all = all_fields(group, group.len());
    collapse_all(common + optional_rest(all, common, all.len()))
}

/// The variant of a cluster. A cluster of one shape keeps the fields of
/// that shape. The variant is numbered after the place of its base.
pub open spec fn merged_variant(shapes: Seq<ShapeModel>, members: Seq<usize>) -> VariantModel {
    if members.len() == 1 {
        VariantModel {
            name: "Variant"@ + decimal((members[0] + 1) as nat),
            fields: shapes[members[0] as int].fields,
        }
    } else {
        VariantModel {
            name: "MergedVariant"@ + decimal((members[0] + 1) as nat),
            fields: merged_fields(group_of(shapes, members)),
        }
    }
}

/// The variants and the marks after the first `i` shapes were handled.
pub open spec fn cluster_from(shapes: Seq<ShapeModel>, i: nat) -> (Seq<VariantModel>, Seq<bool>)
    decreases i,
{
    if i == 0 || i > shapes.len() {
        (Seq::empty(), Seq::new(shapes.len(), |k: int| false))
    } else {
        let prev = cluster_from(shapes, (i - 1) as nat);
        if i - 1 < prev.1.len() && prev.1[i - 1] {
            prev
        } else {
            let g = gather(shapes, i - 1, prev.1, shapes.len() as int);
            (prev.0.push(merged_variant(shapes, g.0)), g.1)
        }
    }
}

/// The variants that a list of shapes is clustered into.
pub open spec fn cluster_variants(shapes: Seq<ShapeModel>) -> Seq<VariantModel> {
    cluster_from(shapes, shapes.len()).0
}

/// How many names stand among the fields of `a` and nowhere in `b`.
fn count_missing(a: &Vec<ShapeField>, b: &Vec<ShapeField>) -> (r: usize)
    ensures
        r == missing_count(a.deep_view(), b.deep_view(), a.len() as nat),
{
    let mut r: usize = 0;
    let mut i: usize = 0;
    while i < a.len()
        invariant
            i <= a.len(),
            r <= i,
            r == missing_count(a.deep_view(), b.deep_view(), i as nat),
        decreases a.len() - i,
    {
        let name = a[i].name.as_str();
        let is_first = match index_of_name(a, name) {
            Some(k) => k == i,
            None => false,
        };
        if is_first && !contains_name(b, name) {
            r += 1;
        }
        i += 1;
    }
    r
}

/// The number of field names that one of two shapes has and the other lacks.
pub fn count_field_differences(a: &Shape, b: &Shape) -> (r: u128)
    ensures
        r == name_difference(a.deep_view(), b.deep_view()),
{
    let x = count_missing(&a.fields, &b.fields);
    let y = count_missing(&b.fields, &a.fields);
    x as u128 + y as u128
}

/// Whether two shapes may share a cluster.
pub fn can_merge_shapes(a: &Shape, b: &Shape) -> (r: bool)
    ensures
        r == can_merge(a.deep_view(), b.deep_view()),
{
    count_field_differences(a, b) <= MERGE_THRESHOLD
}

/// Every field with a doubled optional wrapper reduced to a single one.
pub fn clean_field_types(fields: Vec<ShapeField>) -> (r: Vec<ShapeField>)
    ensures
        r.deep_view() == collapse_all(fields.deep_view()),
{
    let mut r: Vec<ShapeField> = Vec::new();
    let mut i: usize = 0;
    while i < fields.len()
        invariant
            i <= fields.len(),
            r@.len() == i,
            forall|j: int|
                0 <= j < i ==> r@[j].deep_view() == (FieldModel {
                    name: fields@[j].name@,
                    ty: collapsed(fields@[j].field_type@),
                    required: fields@[j].is_required,
                }),
        decreases fields.len() - i,
    {
        r.push(
            ShapeField {
                name: fields[i].name.clone(),
                field_type: collapse_optional(fields[i].field_type.as_str()),
                is_required: fields[i].is_required,
            },
        );
        i += 1;
    }
    assert(r.deep_view() =~= collapse_all(fields.deep_view()));
    r
}

/// A name followed by a number.
pub fn numbered_name(prefix: &str, n: usize) -> (r: String)
    ensures
        r@ == prefix@ + decimal(n as nat),
{
    let mut r = String::from_str(prefix);
    push_decimal(&mut r, n);
    r
}

/// The shapes at the places that `members` lists.
fn shapes_at(shapes: &Vec<Shape>, members: &Vec<usize>) -> (r: Vec<Shape>)
    requires
        forall|k: int| 0 <= k < members.len() ==> members@[k] < shapes.len(),
    ensures
        r.deep_view() == group_of(shapes.deep_view(), members@),
{
    let mut r: Vec<Shape> = Vec::new();
    let mut k: usize = 0;
    while k < members.len()
        invariant
            k <= members.len(),
            forall|k: int| 0 <= k < members.len() ==> members@[k] < shapes.len(),
            r@.len() == k,
            forall|j: int| 0 <= j < k ==> r@[j].deep_view() == shapes@[members@[j] as int].deep_view(),
        decreases members.len() - k,
    {
        r.push(shapes[members[k]].replicate());
        k += 1;
    }
    assert(r.deep_view() =~= group_of(shapes.deep_view(), members@));
    r
}

/// The fields of the variant that several shapes merge into.
fn merge_group(group: &Vec<Shape>) -> (r: Vec<ShapeField>)
    ensures
        r.deep_view() == merged_fields(group.deep_view()),
{
    let common = find_common(group);
    let all = collect_all_fields(group);
    let mut merged = replicate_all(&common);
    let mut i: usize = 0;
    assert(merged.deep_view() =~= common.deep_view() + optional_rest(
        all.deep_view(),
        common.deep_view(),
        0,
    ));
    while i < all.len()
        invariant
            i <= all.len(),
            merged.deep_view() == common.deep_view() + optional_rest(
                all.deep_view(),
                common.deep_view(),
                i as nat,
            ),
        decreases all.len() - i,
    {
        if !contains_name(&common, all[i].name.as_str()) {
            let nf = ShapeField {
                name: all[i].name.clone(),
                field_type: make_optional(all[i].field_type.as_str()),
                is_required: all[i].is_required,
            };
            let ghost before = merged;
            let ghost added = nf;
            merged.push(nf);
            proof {
                lemma_push_view(before, merged, added);
                assert((common.deep_view() + optional_rest(
                    all.deep_view(),
                    common.deep_view(),
                    i as nat,
                )).push(added.deep_view()) =~= common.deep_view() + optional_rest(
                    all.deep_view(),
                    common.deep_view(),
                    (i + 1) as nat,
                ));
            }
        }
        i += 1;
    }
    clean_field_types(merged)
}

/// The variant of the cluster whose members are listed, the base first.
pub fn create_merged_variant(members: &Vec<usize>, shapes: &Vec<Shape>) -> (r: ShapeVariant)
    requires
        members.len() >= 1,
        forall|k: int| 0 <= k < members.len() ==> members@[k] < shapes.len(),
    ensures
        r.deep_view() == merged_variant(shapes.deep_view(), members@),
{
    let base = members[0];
    if members.len() == 1 {
        return ShapeVariant {
            name: numbered_name("Variant", base + 1),
            fields: replicate_all(&shapes[base].fields),
        };
    }
    let group = shapes_at(shapes, members);
    ShapeVariant { name: numbered_name("MergedVariant", base + 1), fields: merge_group(&group) }
}

/// The variants that a list of shapes is clustered into.
pub fn optimize_variants(shapes: &Vec<Shape>) -> (r: Vec<ShapeVariant>)
    ensures
        r.deep_view() == cluster_variants(shapes.deep_view()),
{
    let n = shapes.len();
    let mut taken: Vec<bool> = Vec::new();
    let mut t: usize = 0;
    while t < n
        invariant
            t <= n,
            taken@.len() == t,
            forall|k: int| 0 <= k < t ==> !taken@[k],
        decreases n - t,
    {
        taken.push(false);
        t += 1;
    }
    let mut variants: Vec<ShapeVariant> = Vec::new();
    let ghost model = shapes.deep_view();
    assert(taken@ =~= Seq::new(model.len(), |k: int| false));
    assert(variants.deep_view() =~= Seq::<VariantModel>::empty());
    let mut i: usize = 0;
    while i < n
        invariant
            i <= n,
            n == shapes.len(),
            model == shapes.deep_view(),
            taken@.len() == n,
            (variants.deep_view(), taken@) == cluster_from(model, i as nat),
        decreases n - i,
    {
        if !taken[i] {
            let ghost before_taken = taken@;
            let mut members: Vec<usize> = Vec::new();
            members.push(i);
            taken.set(i, true);
            let mut j: usize = i + 1;
            assert(members@ =~= seq![i]);
            while j < n
                invariant
                    i < j <= n,
                    n == shapes.len(),
                    model == shapes.deep_view(),
                    taken@.len() == n,
                    before_taken.len() == n,
                    members@.len() >= 1,
                    forall|k: int| 0 <= k < members@.len() ==> members@[k] < n,
                    (members@, taken@) == gather(model, i as int, before_taken, j as int),
                decreases n - j,
            {
                if !taken[j] && can_merge_shapes(&shapes[i], &shapes[j]) {
                    members.push(j);
                    taken.set(j, true);
                }
                j += 1;
            }
            let v = create_merged_variant(&members, shapes);
            let ghost before = variants;
            let ghost added = v;
            variants.push(v);
            proof {
                lemma_push_view(before, variants, added);
            }
        }
        i += 1;
    }
    variants
}

} // verus!
