//! The round trip of a record: what the optimizer decides, declared and
//! expanded again, keeps every required field as a common field.

use vstd::prelude::*;
use vstd::arithmetic::power2::{lemma_pow2_pos};
use crate::common::{common_fields, in_every};
use crate::common_laws::law_common_iff_in_every;
use crate::expansion_laws::{
    chosen, has_name, law_optional_expansion_count, lemma_selected_has, lemma_subsets_rows,
};
use crate::fields::{has_field, lemma_name_index};
use crate::generator::{decl_field, decl_fields};
use crate::parser::{untagged_union, TypeDecl};
use crate::shape::{
    effective_type, expand_fields, optional_count, plain_fields, selected, subsets, FieldModel,
    ShapeModel,
};

verus! {

proof fn lemma_named_is_held(fields: Seq<FieldModel>, x: Seq<char>)
    requires
        has_name(fields, x),
    ensures
        has_field(fields, x),
{
    lemma_name_index(fields, x, 0);
}

proof fn lemma_in_every_all(shapes: Seq<ShapeModel>, x: Seq<char>, n: nat)
    requires
        n <= shapes.len(),
        forall|j: int| 0 <= j < n ==> has_field((#[trigger] shapes[j]).fields, x),
    ensures
        in_every(shapes, x, n),
    decreases n,
{
    if n > 0 {
        lemma_in_every_all(shapes, x, (n - 1) as nat);
    }
}

/// Round trip of a record. The fields of a decided record, declared and
/// expanded again into shapes, have every required field among the common
/// fields of these shapes: running the extraction on what was emitted loses
/// no common field. This holds for fields none of which is of a known
/// untagged union.
pub proof fn law_record_round_trip(
    known: Seq<TypeDecl>,
    fields: Seq<FieldModel>,
    depth: nat,
    i: int,
)
    requires
        0 <= i < fields.len(),
        fields[i].required,
        forall|k: int|
            0 <= k < fields.len() ==> untagged_union(
                known,
                effective_type(decl_field(#[trigger] fields[k])),
            ) is None,
    ensures
        has_field(
            common_fields(expand_fields(known, decl_fields(fields), depth)),
            fields[i].name,
        ),
{
    let decls = decl_fields(fields);
    let x = fields[i].name;
    assert forall|k: int| 0 <= k < decls.len() implies untagged_union(
        known,
        effective_type(#[trigger] decls[k]),
    ) is None by {
        assert(decls[k] == decl_field(fields[k]));
    }
    law_optional_expansion_count(known, decls, depth);
    let shapes = expand_fields(known, decls, depth);
    let pf = plain_fields(decls);
    let count = optional_count(pf, pf.len());
    lemma_pow2_pos(count);
    lemma_subsets_rows(count);
    assert(pf[i].name == x && pf[i].required);
    assert forall|j: int| 0 <= j < shapes.len() implies has_field(
        (#[trigger] shapes[j]).fields,
        x,
    ) by {
        let mask = subsets(count)[j];
        assert(shapes[j].fields == selected(pf, mask, pf.len()));
        assert(chosen(pf, mask, i));
        lemma_selected_has(pf, mask, pf.len(), i);
        lemma_named_is_held(shapes[j].fields, x);
    }
    lemma_in_every_all(shapes, x, shapes.len());
    law_common_iff_in_every(shapes, x);
}

} // verus!
