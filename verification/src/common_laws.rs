//! What holds of the extraction of common fields.

use vstd::prelude::*;
use crate::common::{best_field, common_fields, common_of, in_every, lemma_in_every_prefix};
use crate::fields::{has_field, is_first_of_name, lemma_name_index, name_index};
use crate::generator::ResultModel;
use crate::optimizer::optimize;
use crate::parser::TypeDecl;
use crate::shape::{FieldModel, MetaModel, ShapeModel};

verus! {

/// The name `x` is the name of one of the first `m` fields.
pub open spec fn named_among(fields: Seq<FieldModel>, x: Seq<char>, m: nat) -> bool {
    match name_index(fields, x, 0) {
        Some(i) => i < m,
        None => false,
    }
}

/// What a pushed field does to the search for a name.
pub proof fn lemma_index_push(s: Seq<FieldModel>, f: FieldModel, x: Seq<char>, from: int)
    requires
        0 <= from <= s.len(),
    ensures
        name_index(s.push(f), x, from) == match name_index(s, x, from) {
            Some(i) => Some(i),
            None => if f.name == x {
                Some(s.len() as int)
            } else {
                None
            },
        },
    decreases s.len() - from,
{
    if from < s.len() {
        assert(s.push(f)[from] == s[from]);
        if s[from].name != x {
            lemma_index_push(s, f, x, from + 1);
        }
    } else {
        assert(s.push(f)[from] == f);
        assert(name_index(s.push(f), x, from + 1) is None);
        assert(name_index(s, x, from) is None);
    }
}

/// The best version of a field that every shape holds exists and has its name.
pub proof fn lemma_best_exists(shapes: Seq<ShapeModel>, x: Seq<char>, n: nat)
    requires
        n <= shapes.len(),
    ensures
        best_field(shapes, x, n) matches Some(b) ==> b.name == x,
        n >= 1 && in_every(shapes, x, n) ==> best_field(shapes, x, n) is Some,
    decreases n,
{
    if n > 0 {
        lemma_best_exists(shapes, x, (n - 1) as nat);
        lemma_name_index(shapes[n - 1].fields, x, 0);
    }
}

/// The common fields among the first `m` fields of the first shape have
/// distinct names, and are named exactly by the names among those fields
/// that every shape holds.
pub proof fn lemma_common_of(shapes: Seq<ShapeModel>, m: nat)
    requires
        shapes.len() > 0,
        m <= shapes[0].fields.len(),
    ensures
        forall|i: int|
            0 <= i < common_of(shapes, m).len() ==> #[trigger] is_first_of_name(
                common_of(shapes, m),
                i,
            ),
        forall|x: Seq<char>| #[trigger]
            has_field(common_of(shapes, m), x) <==> (named_among(shapes[0].fields, x, m)
                && in_every(shapes, x, shapes.len())),
    decreases m,
{
    let cur = common_of(shapes, m);
    let fields0 = shapes[0].fields;
    if m > 0 {
        lemma_common_of(shapes, (m - 1) as nat);
        let prev = common_of(shapes, (m - 1) as nat);
        let name = fields0[m - 1].name;
        lemma_best_exists(shapes, name, shapes.len());
        lemma_name_index(fields0, name, 0);
        let pushed = is_first_of_name(fields0, m - 1) && in_every(shapes, name, shapes.len());
        if pushed {
            let b = best_field(shapes, name, shapes.len()).unwrap();
            assert(cur == prev.push(b));
            assert(has_field(prev, name) <==> (named_among(fields0, name, (m - 1) as nat)
                && in_every(shapes, name, shapes.len())));
            assert(!has_field(prev, name));
            assert forall|x: Seq<char>| #[trigger]
                has_field(cur, x) <==> (named_among(fields0, x, m) && in_every(
                    shapes,
                    x,
                    shapes.len(),
                )) by {
                lemma_index_push(prev, b, x, 0);
                lemma_name_index(fields0, x, 0);
                assert(has_field(prev, x) <==> (named_among(fields0, x, (m - 1) as nat)
                    && in_every(shapes, x, shapes.len())));
            }
            assert forall|i: int| 0 <= i < cur.len() implies #[trigger] is_first_of_name(cur, i) by {
                lemma_index_push(prev, b, cur[i].name, 0);
                if i < prev.len() {
                    assert(is_first_of_name(prev, i));
                    assert(cur[i] == prev[i]);
                }
            }
        } else {
            assert(cur == prev);
            assert forall|x: Seq<char>| #[trigger]
                has_field(cur, x) <==> (named_among(fields0, x, m) && in_every(
                    shapes,
                    x,
                    shapes.len(),
                )) by {
                lemma_name_index(fields0, x, 0);
                assert(has_field(prev, x) <==> (named_among(fields0, x, (m - 1) as nat)
                    && in_every(shapes, x, shapes.len())));
                if name_index(fields0, x, 0) == Some(m - 1) {
                    assert(x == name);
                }
            }
        }
    } else {
        assert forall|x: Seq<char>| #[trigger]
            has_field(cur, x) <==> (named_among(fields0, x, m) && in_every(
                shapes,
                x,
                shapes.len(),
            )) by {
            lemma_name_index(fields0, x, 0);
        }
    }
}

/// A field is common exactly if its name stands in every shape: the common
/// fields of a set of shapes name each such name once, and no other name.
pub proof fn law_common_iff_in_every(shapes: Seq<ShapeModel>, x: Seq<char>)
    ensures
        has_field(common_fields(shapes), x) <==> (shapes.len() > 0 && in_every(
            shapes,
            x,
            shapes.len(),
        )),
        forall|i: int|
            0 <= i < common_fields(shapes).len() ==> #[trigger] is_first_of_name(
                common_fields(shapes),
                i,
            ),
{
    if shapes.len() > 0 {
        let fields0 = shapes[0].fields;
        lemma_common_of(shapes, fields0.len());
        lemma_name_index(fields0, x, 0);
        assert(has_field(common_fields(shapes), x) <==> (named_among(fields0, x, fields0.len())
            && in_every(shapes, x, shapes.len())));
        if in_every(shapes, x, shapes.len()) {
            lemma_in_every_prefix(shapes, x, 1, shapes.len());
            assert(in_every(shapes, x, 0));
            assert(has_field(fields0, x));
        }
    }
}

proof fn lemma_common_of_one(c: Seq<FieldModel>, meta: MetaModel, m: nat)
    requires
        m <= c.len(),
        forall|i: int| 0 <= i < c.len() ==> #[trigger] is_first_of_name(c, i),
    ensures
        common_of(seq![ShapeModel { fields: c, meta: meta }], m) == c.take(m as int),
    decreases m,
{
    let one = seq![ShapeModel { fields: c, meta: meta }];
    if m > 0 {
        lemma_common_of_one(c, meta, (m - 1) as nat);
        let name = c[m - 1].name;
        assert(is_first_of_name(c, m - 1));
        assert(in_every(one, name, 0));
        assert(in_every(one, name, 1));
        assert(best_field(one, name, 0) is None);
        assert(best_field(one, name, 1) == Some(c[m - 1]));
        assert(c.take(m - 1).push(c[m - 1]) =~= c.take(m as int));
    } else {
        assert(c.take(0) =~= Seq::<FieldModel>::empty());
    }
}

/// Idempotence of common-field extraction. The common fields of a set of
/// shapes, taken as the one shape of a record, are their own common fields:
/// extracting again loses none of them and changes none, and the optimizer
/// run on that one shape decides for the record of exactly these fields.
pub proof fn law_common_extraction_idempotent(
    known: Seq<TypeDecl>,
    shapes: Seq<ShapeModel>,
    meta: MetaModel,
    name: Seq<char>,
)
    ensures
        common_fields(seq![ShapeModel { fields: common_fields(shapes), meta: meta }])
            == common_fields(shapes),
        optimize(known, seq![ShapeModel { fields: common_fields(shapes), meta: meta }], name)
            == (ResultModel::Record { name: name, fields: common_fields(shapes) }),
{
    let c = common_fields(shapes);
    if shapes.len() > 0 {
        lemma_common_of(shapes, shapes[0].fields.len());
    }
    lemma_common_of_one(c, meta, c.len());
    assert(c.take(c.len() as int) =~= c);
}

} // verus!
