//! What holds of the expansion of a record whose fields name no known
//! untagged union: one shape for every subset of its optional fields.

use vstd::prelude::*;
use vstd::arithmetic::power2::{lemma2_to64, lemma_pow2_unfold, pow2};
use crate::parser::{untagged_union, FieldDecl, TypeDecl};
use crate::shape::{
    append_to_all, base_shapes, effective_type, empty_meta, expand_all_optionals, expand_fields,
    optional_count, optional_variants, plain_field, plain_fields, selected, subsets, FieldModel, ShapeModel,
};

verus! {

/// Some field of `fields` is named `name`.
pub open spec fn has_name(fields: Seq<FieldModel>, name: Seq<char>) -> bool {
    exists|i: int| 0 <= i < fields.len() && (#[trigger] fields[i]).name == name
}

/// No two fields of `fields` have the same name.
pub open spec fn distinct_names(fields: Seq<FieldModel>) -> bool {
    forall|i: int, j: int|
        0 <= i < j < fields.len() ==> (#[trigger] fields[i]).name != (#[trigger] fields[j]).name
}

/// The one shape that a record takes before its optional fields are expanded.
pub open spec fn record_shape(fields: Seq<FieldDecl>) -> ShapeModel {
    ShapeModel { fields: plain_fields(fields), meta: empty_meta() }
}

/// The field at place `t` is in the selection: required, or marked by `mask`.
pub open spec fn chosen(fields: Seq<FieldModel>, mask: Seq<bool>, t: int) -> bool {
    fields[t].required || (optional_count(fields, t as nat) < mask.len() && mask[optional_count(
        fields,
        t as nat,
    ) as int])
}

pub proof fn lemma_subsets_rows(k: nat)
    ensures
        subsets(k).len() == pow2(k),
        forall|i: int| 0 <= i < subsets(k).len() ==> (#[trigger] subsets(k)[i]).len() == k,
        forall|i: int, j: int|
            0 <= i < j < subsets(k).len() ==> #[trigger] subsets(k)[i] != #[trigger] subsets(k)[j],
    decreases k,
{
    if k == 0 {
        lemma2_to64();
    } else {
        let p = subsets((k - 1) as nat);
        lemma_subsets_rows((k - 1) as nat);
        lemma_pow2_unfold(k);
        let s = subsets(k);
        assert forall|i: int, j: int| 0 <= i < j < s.len() implies #[trigger] s[i] != #[trigger] s[j] by {
            let a = if i < p.len() { i } else { i - p.len() };
            let b = if j < p.len() { j } else { j - p.len() };
            if s[i] == s[j] {
                assert(s[i].last() == s[j].last());
                assert(s[i].drop_last() =~= p[a]);
                assert(s[j].drop_last() =~= p[b]);
                assert(p[a] == p[b]);
                assert(a != b);
                if a < b {
                    assert(p[a] != p[b]);
                } else {
                    assert(p[b] != p[a]);
                }
            }
        }
    }
}

proof fn lemma_selected_prefix(fields: Seq<FieldModel>, mask: Seq<bool>, n: nat)
    requires
        0 < n <= fields.len(),
    ensures
        selected(fields, mask, (n - 1) as nat).len() <= selected(fields, mask, n).len(),
        forall|w: int|
            0 <= w < selected(fields, mask, (n - 1) as nat).len() ==> selected(fields, mask, n)[w]
                == selected(fields, mask, (n - 1) as nat)[w],
        chosen(fields, mask, n - 1) ==> selected(fields, mask, n).len() == selected(
            fields,
            mask,
            (n - 1) as nat,
        ).len() + 1 && selected(fields, mask, n).last().name == fields[n - 1].name,
        !chosen(fields, mask, n - 1) ==> selected(fields, mask, n) == selected(
            fields,
            mask,
            (n - 1) as nat,
        ),
{
}

pub proof fn lemma_selected_has(fields: Seq<FieldModel>, mask: Seq<bool>, n: nat, t: int)
    requires
        0 <= t < n <= fields.len(),
        chosen(fields, mask, t),
    ensures
        has_name(selected(fields, mask, n), fields[t].name),
    decreases n,
{
    let cur = selected(fields, mask, n);
    let prev = selected(fields, mask, (n - 1) as nat);
    lemma_selected_prefix(fields, mask, n);
    if t == n - 1 {
        assert(cur[cur.len() - 1].name == fields[t].name);
    } else {
        lemma_selected_has(fields, mask, (n - 1) as nat, t);
        let w = choose|w: int| 0 <= w < prev.len() && (#[trigger] prev[w]).name == fields[t].name;
        assert(cur[w].name == fields[t].name);
    }
}

proof fn lemma_selected_from(fields: Seq<FieldModel>, mask: Seq<bool>, n: nat, name: Seq<char>)
    requires
        n <= fields.len(),
        has_name(selected(fields, mask, n), name),
    ensures
        exists|t: int| 0 <= t < n && (#[trigger] fields[t]).name == name && chosen(fields, mask, t),
    decreases n,
{
    if n > 0 {
        let cur = selected(fields, mask, n);
        let prev = selected(fields, mask, (n - 1) as nat);
        lemma_selected_prefix(fields, mask, n);
        let w = choose|w: int| 0 <= w < cur.len() && (#[trigger] cur[w]).name == name;
        if w < prev.len() {
            assert(prev[w].name == name);
            lemma_selected_from(fields, mask, (n - 1) as nat, name);
        } else {
            assert(fields[n - 1].name == name && chosen(fields, mask, n - 1));
        }
    }
}

proof fn lemma_optional_at(fields: Seq<FieldModel>, n: nat, p: nat)
    requires
        n <= fields.len(),
        p < optional_count(fields, n),
    ensures
        exists|t: int|
            0 <= t < n && !(#[trigger] fields[t]).required && optional_count(fields, t as nat) == p,
    decreases n,
{
    if n > 0 {
        if p < optional_count(fields, (n - 1) as nat) {
            lemma_optional_at(fields, (n - 1) as nat, p);
        } else {
            assert(!fields[n - 1].required && optional_count(fields, (n - 1) as nat) == p);
        }
    }
}

/// With distinct field names, two rows of marks that select the same fields
/// are the same row.
proof fn lemma_selected_injective(fields: Seq<FieldModel>, m1: Seq<bool>, m2: Seq<bool>)
    requires
        distinct_names(fields),
        m1.len() == optional_count(fields, fields.len()),
        m2.len() == m1.len(),
        selected(fields, m1, fields.len()) == selected(fields, m2, fields.len()),
    ensures
        m1 == m2,
{
    let n = fields.len();
    assert forall|p: int| 0 <= p < m1.len() implies m1[p] == m2[p] by {
        lemma_optional_at(fields, n, p as nat);
        let t = choose|t: int|
            0 <= t < n && !(#[trigger] fields[t]).required && optional_count(fields, t as nat) == p;
        if m1[p] {
            lemma_selected_has(fields, m1, n, t);
            lemma_selected_from(fields, m2, n, fields[t].name);
            let u = choose|u: int|
                0 <= u < n && (#[trigger] fields[u]).name == fields[t].name && chosen(fields, m2, u);
            assert(u == t) by {
                if u < t {
                    assert(fields[u].name != fields[t].name);
                } else if t < u {
                    assert(fields[t].name != fields[u].name);
                }
            }
        }
        if m2[p] {
            lemma_selected_has(fields, m2, n, t);
            lemma_selected_from(fields, m1, n, fields[t].name);
            let u = choose|u: int|
                0 <= u < n && (#[trigger] fields[u]).name == fields[t].name && chosen(fields, m1, u);
            assert(u == t) by {
                if u < t {
                    assert(fields[u].name != fields[t].name);
                } else if t < u {
                    assert(fields[t].name != fields[u].name);
                }
            }
        }
    }
    assert(m1 =~= m2);
}

proof fn lemma_plain_bases(known: Seq<TypeDecl>, fields: Seq<FieldDecl>, n: nat, depth: nat)
    requires
        n <= fields.len(),
        forall|i: int|
            0 <= i < fields.len() ==> untagged_union(known, effective_type(#[trigger] fields[i]))
                is None,
    ensures
        base_shapes(known, fields, n, depth) == seq![
            ShapeModel { fields: plain_fields(fields).take(n as int), meta: empty_meta() },
        ],
    decreases n,
{
    if n == 0 {
        assert(plain_fields(fields).take(0) =~= Seq::<FieldModel>::empty());
    } else {
        lemma_plain_bases(known, fields, (n - 1) as nat, depth);
        let prev = base_shapes(known, fields, (n - 1) as nat, depth);
        let f = fields[n - 1];
        assert(untagged_union(known, effective_type(f)) is None);
        assert(plain_fields(fields).take(n - 1).push(plain_field(f)) =~= plain_fields(fields).take(
            n as int,
        ));
        assert(append_to_all(prev, plain_field(f)) =~= seq![
            ShapeModel { fields: plain_fields(fields).take(n as int), meta: empty_meta() },
        ]);
    }
}

/// Optional expansion count. A record none of whose fields names a known
/// untagged union expands into one shape for every subset of its optional
/// fields: with `k` optional fields, exactly `2^k` shapes, the shape at place
/// `i` holding the required fields and the optional fields that the `i`-th
/// subset marks. If the fields have distinct names, no two of these shapes
/// are equal.
pub proof fn law_optional_expansion_count(known: Seq<TypeDecl>, fields: Seq<FieldDecl>, depth: nat)
    requires
        forall|i: int|
            0 <= i < fields.len() ==> untagged_union(known, effective_type(#[trigger] fields[i]))
                is None,
    ensures
        expand_fields(known, fields, depth) == optional_variants(record_shape(fields)),
        expand_fields(known, fields, depth).len() == pow2(
            optional_count(plain_fields(fields), fields.len()),
        ),
        distinct_names(plain_fields(fields)) ==> forall|i: int, j: int|
            0 <= i < j < expand_fields(known, fields, depth).len() ==> #[trigger] expand_fields(
                known,
                fields,
                depth,
            )[i] != #[trigger] expand_fields(known, fields, depth)[j],
{
    let pf = plain_fields(fields);
    let k = optional_count(pf, fields.len());
    lemma_plain_bases(known, fields, fields.len(), depth);
    assert(pf.take(fields.len() as int) =~= pf);
    let bases = base_shapes(known, fields, fields.len(), depth);
    assert(bases[0] == record_shape(fields));
    assert(expand_all_optionals(bases, 0) =~= Seq::<ShapeModel>::empty());
    assert(expand_all_optionals(bases, 1) =~= optional_variants(record_shape(fields)));
    lemma_subsets_rows(k);
    let shapes = expand_fields(known, fields, depth);
    if distinct_names(pf) {
        assert forall|i: int, j: int| 0 <= i < j < shapes.len() implies #[trigger] shapes[i]
            != #[trigger] shapes[j] by {
            if shapes[i] == shapes[j] {
                assert(shapes[i].fields == selected(pf, subsets(k)[i], pf.len()));
                assert(shapes[j].fields == selected(pf, subsets(k)[j], pf.len()));
                lemma_selected_injective(pf, subsets(k)[i], subsets(k)[j]);
            }
        }
    }
}

} // verus!
