//! The fields that every shape of a set holds, and what is left of each
//! shape without them.

use vstd::prelude::*;
use vstd::string::*;
use crate::fields::{
    better_field, choose_better_field, contains_name, has_field, field_named, index_of_name,
    is_first_of_name, };
use crate::shape::{FieldModel, Shape, ShapeField, ShapeModel};
use crate::views::{lemma_push_view, Replicate};

verus! {

/// Each of the first `n` shapes holds a field named `name`.
pub open spec fn in_every(shapes: Seq<ShapeModel>, name: Seq<char>, n: nat) -> bool
    decreases n,
{
    if n == 0 || n > shapes.len() {
        true
    } else {
        in_every(shapes, name, (n - 1) as nat) && has_field(shapes[n - 1].fields, name)
    }
}

/// The best version of the field named `name` among the first `n` shapes:
/// of each shape its first field of that name counts, and of two versions the
/// better one is kept.
pub open spec fn best_field(shapes: Seq<ShapeModel>, name: Seq<char>, n: nat) -> Option<
    FieldModel,
>
    decreases n,
{
    if n == 0 || n > shapes.len() {
        None
    } else {
        let prev = best_field(shapes, name, (n - 1) as nat);
        match field_named(shapes[n - 1].fields, name) {
            Some(f) => match prev {
                Some(e) => Some(better_field(e, f)),
                None => Some(f),
            },
            None => prev,
        }
    }
}

/// The common fields among the first `m` fields of the first shape: a field
/// is common if its name stands in every shape; it is listed once, in its
/// best version.
pub open spec fn common_of(shapes: Seq<ShapeModel>, m: nat) -> Seq<FieldModel>
    decreases m,
{
    if shapes.len() == 0 || m == 0 || m > shapes[0].fields.len() {
        Seq::empty()
    } else {
        let prev = common_of(shapes, (m - 1) as nat);
        let name = shapes[0].fields[m - 1].name;
        if is_first_of_name(shapes[0].fields, m - 1) && in_every(shapes, name, shapes.len()) {
            match best_field(shapes, name, shapes.len()) {
                Some(b) => prev.push(b),
                None => prev,
            }
        } else {
            prev
        }
    }
}

/// The common fields of a set of shapes, in the order of the first shape.
pub open spec fn common_fields(shapes: Seq<ShapeModel>) -> Seq<FieldModel> {
    if shapes.len() == 0 {
        Seq::empty()
    } else {
        common_of(shapes, shapes[0].fields.len())
    }
}

/// The last version of the field named `name` among the first `n` shapes.
pub open spec fn last_field(shapes: Seq<ShapeModel>, name: Seq<char>, n: nat) -> Option<
    FieldModel,
>
    decreases n,
{
    if n == 0 || n > shapes.len() {
        None
    } else {
        match field_named(shapes[n - 1].fields, name) {
            Some(f) => Some(f),
            None => last_field(shapes, name, (n - 1) as nat),
        }
    }
}

/// The common fields among the first `m` fields of the first shape, each
/// required and with the type that the last shape gives it.
pub open spec fn common_latest_of(shapes: Seq<ShapeModel>, m: nat) -> Seq<FieldModel>
    decreases m,
{
    if shapes.len() == 0 || m == 0 || m > shapes[0].fields.len() {
        Seq::empty()
    } else {
        let prev = common_latest_of(shapes, (m - 1) as nat);
        let name = shapes[0].fields[m - 1].name;
        if is_first_of_name(shapes[0].fields, m - 1) && in_every(shapes, name, shapes.len()) {
            match last_field(shapes, name, shapes.len()) {
                Some(b) => prev.push(FieldModel { name: b.name, ty: b.ty, required: true }),
                None => prev,
            }
        } else {
            prev
        }
    }
}

/// The common fields of a set of shapes, each required and with the type that
/// the last shape gives it.
pub open spec fn common_latest(shapes: Seq<ShapeModel>) -> Seq<FieldModel> {
    if shapes.len() == 0 {
        Seq::empty()
    } else {
        common_latest_of(shapes, shapes[0].fields.len())
    }
}

/// Those of the first `n` fields whose name is not the name of a field of `names`.
pub open spec fn without_names(fields: Seq<FieldModel>, names: Seq<FieldModel>, n: nat) -> Seq<
    FieldModel,
>
    decreases n,
{
    if n == 0 || n > fields.len() {
        Seq::empty()
    } else {
        let prev = without_names(fields, names, (n - 1) as nat);
        if has_field(names, fields[n - 1].name) {
            prev
        } else {
            prev.push(fields[n - 1])
        }
    }
}

/// A shape without the fields that are common.
pub open spec fn residual(shape: ShapeModel, common: Seq<FieldModel>) -> ShapeModel {
    ShapeModel {
        fields: without_names(shape.fields, common, shape.fields.len()),
        meta: shape.meta,
    }
}

/// Every shape without the fields that are common.
pub open spec fn residuals(shapes: Seq<ShapeModel>, common: Seq<FieldModel>) -> Seq<ShapeModel> {
    Seq::new(shapes.len(), |i: int| residual(shapes[i], common))
}

/// Whether every shape holds a field named `name`.
pub fn name_in_every(shapes: &Vec<Shape>, name: &str) -> (r: bool)
    ensures
        r == in_every(shapes.deep_view(), name@, shapes.len() as nat),
{
    let mut i: usize = 0;
    while i < shapes.len()
        invariant
            i <= shapes.len(),
            in_every(shapes.deep_view(), name@, i as nat),
        decreases shapes.len() - i,
    {
        if !contains_name(&shapes[i].fields, name) {
            proof {
                if in_every(shapes.deep_view(), name@, shapes.len() as nat) {
                    lemma_in_every_prefix(
                        shapes.deep_view(),
                        name@,
                        (i + 1) as nat,
                        shapes.len() as nat,
                    );
                }
            }
            return false;
        }
        i += 1;
    }
    true
}

/// What holds of the first `n` shapes holds of the first `k <= n`.
pub proof fn lemma_in_every_prefix(shapes: Seq<ShapeModel>, name: Seq<char>, k: nat, n: nat)
    requires
        k <= n <= shapes.len(),
        in_every(shapes, name, n),
    ensures
        in_every(shapes, name, k),
    decreases n,
{
    if k < n {
        lemma_in_every_prefix(shapes, name, k, (n - 1) as nat);
    }
}

/// The best version of the field named `name` among the shapes.
pub fn best_of(shapes: &Vec<Shape>, name: &str) -> (r: Option<ShapeField>)
    ensures
        r.deep_view() == best_field(shapes.deep_view(), name@, shapes.len() as nat),
{
    let mut best: Option<ShapeField> = None;
    let mut i: usize = 0;
    while i < shapes.len()
        invariant
            i <= shapes.len(),
            best.deep_view() == best_field(shapes.deep_view(), name@, i as nat),
        decreases shapes.len() - i,
    {
        match index_of_name(&shapes[i].fields, name) {
            Some(k) => {
                let f = &shapes[i].fields[k];
                best = match best {
                    Some(e) => Some(choose_better_field(&e, f)),
                    None => Some(f.replicate()),
                };
            },
            None => {},
        }
        i += 1;
    }
    best
}

/// The last version of the field named `name` among the shapes.
pub fn last_of(shapes: &Vec<Shape>, name: &str) -> (r: Option<ShapeField>)
    ensures
        r.deep_view() == last_field(shapes.deep_view(), name@, shapes.len() as nat),
{
    let mut i: usize = shapes.len();
    while i > 0
        invariant
            i <= shapes.len(),
            last_field(shapes.deep_view(), name@, shapes.len() as nat) == last_field(
                shapes.deep_view(),
                name@,
                i as nat,
            ),
        decreases i,
    {
        match index_of_name(&shapes[i - 1].fields, name) {
            Some(k) => {
                return Some(shapes[i - 1].fields[k].replicate());
            },
            None => {},
        }
        i -= 1;
    }
    None
}

/// The common fields of a set of shapes, each in its best version.
pub fn find_common(shapes: &Vec<Shape>) -> (r: Vec<ShapeField>)
    ensures
        r.deep_view() == common_fields(shapes.deep_view()),
{
    let mut r: Vec<ShapeField> = Vec::new();
    assert(r.deep_view() =~= Seq::<FieldModel>::empty());
    if shapes.len() == 0 {
        return r;
    }
    let first = &shapes[0].fields;
    let mut m: usize = 0;
    while m < first.len()
        invariant
            m <= first.len(),
            shapes.len() > 0,
            first == &shapes@[0].fields,
            r.deep_view() == common_of(shapes.deep_view(), m as nat),
        decreases first.len() - m,
    {
        let name = first[m].name.as_str();
        let is_first = match index_of_name(first, name) {
            Some(k) => k == m,
            None => false,
        };
        if is_first && name_in_every(shapes, name) {
            match best_of(shapes, name) {
                Some(b) => {
                    let ghost before = r;
                    let ghost added = b;
                    r.push(b);
                    proof {
                        lemma_push_view(before, r, added);
                    }
                },
                None => {},
            }
        }
        m += 1;
    }
    r
}

/// The common fields of a set of shapes, each required and with the type
/// that the last shape gives it.
pub fn find_common_latest(shapes: &Vec<Shape>) -> (r: Vec<ShapeField>)
    ensures
        r.deep_view() == common_latest(shapes.deep_view()),
{
    let mut r: Vec<ShapeField> = Vec::new();
    assert(r.deep_view() =~= Seq::<FieldModel>::empty());
    if shapes.len() == 0 {
        return r;
    }
    let first = &shapes[0].fields;
    let mut m: usize = 0;
    while m < first.len()
        invariant
            m <= first.len(),
            shapes.len() > 0,
            first == &shapes@[0].fields,
            r.deep_view() == common_latest_of(shapes.deep_view(), m as nat),
        decreases first.len() - m,
    {
        let name = first[m].name.as_str();
        let is_first = match index_of_name(first, name) {
            Some(k) => k == m,
            None => false,
        };
        if is_first && name_in_every(shapes, name) {
            match last_of(shapes, name) {
                Some(b) => {
                    let nf = ShapeField { name: b.name, field_type: b.field_type, is_required: true };
                    let ghost before = r;
                    let ghost added = nf;
                    r.push(nf);
                    proof {
                        lemma_push_view(before, r, added);
                    }
                },
                None => {},
            }
        }
        m += 1;
    }
    r
}

/// The fields whose name is not the name of a field of `names`.
pub fn fields_without(fields: &Vec<ShapeField>, names: &Vec<ShapeField>) -> (r: Vec<ShapeField>)
    ensures
        r.deep_view() == without_names(fields.deep_view(), names.deep_view(), fields.len() as nat),
{
    let mut r: Vec<ShapeField> = Vec::new();
    assert(r.deep_view() =~= Seq::<FieldModel>::empty());
    let mut i: usize = 0;
    while i < fields.len()
        invariant
            i <= fields.len(),
            r.deep_view() == without_names(fields.deep_view(), names.deep_view(), i as nat),
        decreases fields.len() - i,
    {
        if !contains_name(names, fields[i].name.as_str()) {
            let nf = fields[i].replicate();
            let ghost before = r;
            let ghost added = nf;
            r.push(nf);
            proof {
                lemma_push_view(before, r, added);
            }
        }
        i += 1;
    }
    r
}

/// Every shape without the fields that are common.
pub fn remove_common(shapes: &Vec<Shape>, common: &Vec<ShapeField>) -> (r: Vec<Shape>)
    ensures
        r.deep_view() == residuals(shapes.deep_view(), common.deep_view()),
{
    let mut r: Vec<Shape> = Vec::new();
    let mut i: usize = 0;
    while i < shapes.len()
        invariant
            i <= shapes.len(),
            r@.len() == i,
            forall|j: int|
                0 <= j < i ==> r@[j].deep_view() == residual(
                    shapes@[j].deep_view(),
                    common.deep_view(),
                ),
        decreases shapes.len() - i,
    {
        let fields = fields_without(&shapes[i].fields, common);
        r.push(Shape { fields, metadata: shapes[i].metadata.replicate() });
        i += 1;
    }
    assert(r.deep_view() =~= residuals(shapes.deep_view(), common.deep_view()));
    r
}

} // verus!
