//! The number of field names in which two shapes differ is the size of the
//! symmetric difference of their sets of names.

use vstd::prelude::*;
use crate::cluster::{missing_count, name_difference};
use crate::common_laws::named_among;
use crate::fields::{has_field, is_first_of_name, lemma_name_index};
use crate::shape::{FieldModel, ShapeModel};

verus! {

/// The names that stand among the first `n` fields of `a` and nowhere in `b`.
pub open spec fn names_only_among(a: Seq<FieldModel>, b: Seq<FieldModel>, n: nat) -> Set<Seq<char>> {
    Set::new(|x: Seq<char>| named_among(a, x, n) && !has_field(b, x))
}

/// The names that stand in `a` and not in `b`.
pub open spec fn names_only_in(a: Seq<FieldModel>, b: Seq<FieldModel>) -> Set<Seq<char>> {
    Set::new(|x: Seq<char>| has_field(a, x) && !has_field(b, x))
}

proof fn lemma_missing_count(a: Seq<FieldModel>, b: Seq<FieldModel>, n: nat)
    requires
        n <= a.len(),
    ensures
        names_only_among(a, b, n).finite(),
        names_only_among(a, b, n).len() == missing_count(a, b, n),
    decreases n,
{
    let cur = names_only_among(a, b, n);
    if n == 0 {
        assert forall|x: Seq<char>| !cur.contains(x) by {
            lemma_name_index(a, x, 0);
        }
        assert(cur =~= Set::<Seq<char>>::empty());
    } else {
        lemma_missing_count(a, b, (n - 1) as nat);
        let prev = names_only_among(a, b, (n - 1) as nat);
        let name = a[n - 1].name;
        lemma_name_index(a, name, 0);
        if is_first_of_name(a, n - 1) && !has_field(b, name) {
            assert forall|x: Seq<char>| cur.contains(x) <==> prev.insert(name).contains(x) by {
                lemma_name_index(a, x, 0);
            }
            assert(cur =~= prev.insert(name));
            assert(!prev.contains(name));
        } else {
            assert forall|x: Seq<char>| cur.contains(x) <==> prev.contains(x) by {
                lemma_name_index(a, x, 0);
            }
            assert(cur =~= prev);
        }
    }
}

/// The difference of two shapes in field names. The number by which the
/// clustering goes is the number of names that exactly one of the two shapes
/// has: the size of the symmetric difference of their sets of names.
pub proof fn law_name_difference(a: ShapeModel, b: ShapeModel)
    ensures
        names_only_in(a.fields, b.fields).finite(),
        names_only_in(b.fields, a.fields).finite(),
        name_difference(a, b) == names_only_in(a.fields, b.fields).len() + names_only_in(
            b.fields,
            a.fields,
        ).len(),
        name_difference(a, b) == name_difference(b, a),
{
    lemma_missing_count(a.fields, b.fields, a.fields.len());
    lemma_missing_count(b.fields, a.fields, b.fields.len());
    assert forall|x: Seq<char>|
        names_only_in(a.fields, b.fields).contains(x) <==> names_only_among(
            a.fields,
            b.fields,
            a.fields.len(),
        ).contains(x) by {
        lemma_name_index(a.fields, x, 0);
    }
    assert(names_only_in(a.fields, b.fields) =~= names_only_among(
        a.fields,
        b.fields,
        a.fields.len(),
    ));
    assert forall|x: Seq<char>|
        names_only_in(b.fields, a.fields).contains(x) <==> names_only_among(
            b.fields,
            a.fields,
            b.fields.len(),
        ).contains(x) by {
        lemma_name_index(b.fields, x, 0);
    }
    assert(names_only_in(b.fields, a.fields) =~= names_only_among(
        b.fields,
        a.fields,
        b.fields.len(),
    ));
}

} // verus!
