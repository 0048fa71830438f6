//! Lists of fields: finding a field by its name, choosing between two
//! versions of one field, collecting the fields of several shapes, and
//! ordering fields by name.

use vstd::prelude::*;
use vstd::string::*;
use crate::shape::{FieldModel, Shape, ShapeField, ShapeModel};
use crate::text::{same_text, to_chars};
use crate::typetext::{integer_rank, rank_of};
use crate::views::{lemma_push_view, Replicate};

verus! {

/// The place of the first field, at or after `from`, that is named `name`.
pub open spec fn name_index(fields: Seq<FieldModel>, name: Seq<char>, from: int) -> Option<int>
    decreases fields.len() - from,
{
    if from < 0 || from >= fields.len() {
        None
    } else if fields[from].name == name {
        Some(from)
    } else {
        name_index(fields, name, from + 1)
    }
}

/// Some field is named `name`.
pub open spec fn has_field(fields: Seq<FieldModel>, name: Seq<char>) -> bool {
    name_index(fields, name, 0) is Some
}

/// The first field that is named `name`.
pub open spec fn field_named(fields: Seq<FieldModel>, name: Seq<char>) -> Option<FieldModel> {
    match name_index(fields, name, 0) {
        Some(i) => Some(fields[i]),
        None => None,
    }
}

/// The field at place `i` is the first of its name.
pub open spec fn is_first_of_name(fields: Seq<FieldModel>, i: int) -> bool {
    name_index(fields, fields[i].name, 0) == Some(i)
}

/// What `name_index` finds is the first field of that name at or after
/// `from`; it finds nothing only if there is none.
pub proof fn lemma_name_index(fields: Seq<FieldModel>, name: Seq<char>, from: int)
    requires
        0 <= from,
    ensures
        match name_index(fields, name, from) {
            Some(i) => from <= i < fields.len() && fields[i].name == name && forall|j: int|
                from <= j < i ==> (#[trigger] fields[j]).name != name,
            None => forall|j: int| from <= j < fields.len() ==> (#[trigger] fields[j]).name != name,
        },
    decreases fields.len() - from,
{
    if from < fields.len() && fields[from].name != name {
        lemma_name_index(fields, name, from + 1);
    }
}

/// Whether the second of two versions of a field is the better one. A
/// narrower integer type beats a wider one of the same signedness; an integer
/// type beats `f64`; otherwise a required field beats one that is not.
pub open spec fn prefers_second(a: FieldModel, b: FieldModel) -> bool {
    if a.ty == b.ty {
        false
    } else {
        match (integer_rank(a.ty), integer_rank(b.ty)) {
            (Some(x), Some(y)) => if x.0 == y.0 {
                y.1 < x.1
            } else {
                !a.required && b.required
            },
            (Some(_), None) => if b.ty == "f64"@ {
                false
            } else {
                !a.required && b.required
            },
            (None, Some(_)) => if a.ty == "f64"@ {
                true
            } else {
                !a.required && b.required
            },
            (None, None) => !a.required && b.required,
        }
    }
}

/// The better of two versions of a field; the first, where neither is better.
pub open spec fn better_field(a: FieldModel, b: FieldModel) -> FieldModel {
    if prefers_second(a, b) {
        b
    } else {
        a
    }
}

/// `acc` with those of the first `m` fields whose name it does not hold yet.
pub open spec fn collect_into(acc: Seq<FieldModel>, fields: Seq<FieldModel>, m: nat) -> Seq<
    FieldModel,
>
    decreases m,
{
    if m == 0 || m > fields.len() {
        acc
    } else {
        let prev = collect_into(acc, fields, (m - 1) as nat);
        if has_field(prev, fields[m - 1].name) {
            prev
        } else {
            prev.push(fields[m - 1])
        }
    }
}

/// The fields of the first `n` shapes, each name once, as first met.
pub open spec fn all_fields(shapes: Seq<ShapeModel>, n: nat) -> Seq<FieldModel>
    decreases n,
{
    if n == 0 || n > shapes.len() {
        Seq::empty()
    } else {
        collect_into(
            all_fields(shapes, (n - 1) as nat),
            shapes[n - 1].fields,
            shapes[n - 1].fields.len(),
        )
    }
}

/// `a` comes before `b`, or is `b`, in the order of texts: character by
/// character from position `i`, a shorter text before its extensions.
pub open spec fn text_le(a: Seq<char>, b: Seq<char>, i: int) -> bool
    decreases a.len() - i,
{
    if i < 0 || i >= a.len() {
        true
    } else if i >= b.len() {
        false
    } else if a[i] != b[i] {
        (a[i] as u32) < (b[i] as u32)
    } else {
        text_le(a, b, i + 1)
    }
}

/// Where a field named `name` goes into the first `n` fields of a list in
/// order: behind the last field whose name does not come after `name`.
pub open spec fn insert_position(sorted: Seq<FieldModel>, name: Seq<char>, n: nat) -> nat
    decreases n,
{
    if n == 0 || n > sorted.len() || text_le(sorted[n - 1].name, name, 0) {
        n
    } else {
        insert_position(sorted, name, (n - 1) as nat)
    }
}

/// The first `n` fields ordered by name; fields of one name keep their order.
pub open spec fn sorted_by_name(fields: Seq<FieldModel>, n: nat) -> Seq<FieldModel>
    decreases n,
{
    if n == 0 || n > fields.len() {
        Seq::empty()
    } else {
        let prev = sorted_by_name(fields, (n - 1) as nat);
        prev.insert(insert_position(prev, fields[n - 1].name, prev.len()) as int, fields[n - 1])
    }
}

/// The fields ordered by name.
pub open spec fn by_name(fields: Seq<FieldModel>) -> Seq<FieldModel> {
    sorted_by_name(fields, fields.len())
}

pub proof fn lemma_insert_position_bound(sorted: Seq<FieldModel>, name: Seq<char>, n: nat)
    requires
        n <= sorted.len(),
    ensures
        insert_position(sorted, name, n) <= n,
    decreases n,
{
    if n > 0 && !text_le(sorted[n - 1].name, name, 0) {
        lemma_insert_position_bound(sorted, name, (n - 1) as nat);
    }
}

pub proof fn lemma_sorted_len(fields: Seq<FieldModel>, n: nat)
    requires
        n <= fields.len(),
    ensures
        sorted_by_name(fields, n).len() == n,
    decreases n,
{
    if n > 0 {
        lemma_sorted_len(fields, (n - 1) as nat);
        let prev = sorted_by_name(fields, (n - 1) as nat);
        lemma_insert_position_bound(prev, fields[n - 1].name, prev.len());
    }
}

/// The place of the first field named `name`.
pub fn index_of_name(fields: &Vec<ShapeField>, name: &str) -> (r: Option<usize>)
    ensures
        match r {
            Some(i) => name_index(fields.deep_view(), name@, 0) == Some(i as int) && i
                < fields.len(),
            None => name_index(fields.deep_view(), name@, 0) is None,
        },
{
    let mut i: usize = 0;
    while i < fields.len()
        invariant
            i <= fields.len(),
            name_index(fields.deep_view(), name@, 0) == name_index(
                fields.deep_view(),
                name@,
                i as int,
            ),
        decreases fields.len() - i,
    {
        if same_text(fields[i].name.as_str(), name) {
            return Some(i);
        }
        i += 1;
    }
    None
}

/// Whether some field is named `name`.
pub fn contains_name(fields: &Vec<ShapeField>, name: &str) -> (r: bool)
    ensures
        r == has_field(fields.deep_view(), name@),
{
    index_of_name(fields, name).is_some()
}

/// The better of two versions of a field.
pub fn choose_better_field(a: &ShapeField, b: &ShapeField) -> (r: ShapeField)
    ensures
        r.deep_view() == better_field(a.deep_view(), b.deep_view()),
{
    if same_text(a.field_type.as_str(), b.field_type.as_str()) {
        return a.replicate();
    }
    let by_need = !a.is_required && b.is_required;
    let second = match (rank_of(a.field_type.as_str()), rank_of(b.field_type.as_str())) {
        (Some(x), Some(y)) => if x.0 == y.0 {
            y.1 < x.1
        } else {
            by_need
        },
        (Some(_), None) => if same_text(b.field_type.as_str(), "f64") {
            false
        } else {
            by_need
        },
        (None, Some(_)) => if same_text(a.field_type.as_str(), "f64") {
            true
        } else {
            by_need
        },
        (None, None) => by_need,
    };
    if second {
        b.replicate()
    } else {
        a.replicate()
    }
}

/// Adds to `acc` the fields of `fields` whose name it does not hold yet.
pub fn collect_fields(acc: &mut Vec<ShapeField>, fields: &Vec<ShapeField>)
    ensures
        final(acc).deep_view() == collect_into(
            old(acc).deep_view(),
            fields.deep_view(),
            fields.len() as nat,
        ),
{
    let mut i: usize = 0;
    while i < fields.len()
        invariant
            i <= fields.len(),
            acc.deep_view() == collect_into(old(acc).deep_view(), fields.deep_view(), i as nat),
        decreases fields.len() - i,
    {
        if !contains_name(acc, fields[i].name.as_str()) {
            let nf = fields[i].replicate();
            let ghost before = *acc;
            let ghost added = nf;
            acc.push(nf);
            proof {
                lemma_push_view(before, *acc, added);
            }
        }
        i += 1;
    }
}

/// The fields of all the shapes, each name once, as first met.
pub fn collect_all_fields(shapes: &Vec<Shape>) -> (r: Vec<ShapeField>)
    ensures
        r.deep_view() == all_fields(shapes.deep_view(), shapes.len() as nat),
{
    let mut r: Vec<ShapeField> = Vec::new();
    assert(r.deep_view() =~= Seq::<FieldModel>::empty());
    let mut i: usize = 0;
    while i < shapes.len()
        invariant
            i <= shapes.len(),
            r.deep_view() == all_fields(shapes.deep_view(), i as nat),
        decreases shapes.len() - i,
    {
        collect_fields(&mut r, &shapes[i].fields);
        i += 1;
    }
    r
}

/// Whether `a` comes before `b`, or is `b`, in the order of texts.
pub fn text_before_or_same(a: &str, b: &str) -> (r: bool)
    ensures
        r == text_le(a@, b@, 0),
{
    let x = to_chars(a);
    let y = to_chars(b);
    let mut i: usize = 0;
    while i < x.len()
        invariant
            i <= x.len(),
            x@ == a@,
            y@ == b@,
            text_le(a@, b@, 0) == text_le(a@, b@, i as int),
        decreases x.len() - i,
    {
        if i >= y.len() {
            return false;
        }
        if x[i] != y[i] {
            return (x[i] as u32) < (y[i] as u32);
        }
        i += 1;
    }
    true
}

/// The fields ordered by name; fields of one name keep their order.
pub fn sort_by_name(fields: &Vec<ShapeField>) -> (r: Vec<ShapeField>)
    ensures
        r.deep_view() == by_name(fields.deep_view()),
{
    let mut r: Vec<ShapeField> = Vec::new();
    assert(r.deep_view() =~= Seq::<FieldModel>::empty());
    let mut i: usize = 0;
    while i < fields.len()
        invariant
            i <= fields.len(),
            r.len() == i,
            r.deep_view() == sorted_by_name(fields.deep_view(), i as nat),
        decreases fields.len() - i,
    {
        let mut p: usize = r.len();
        while p > 0 && !text_before_or_same(r[p - 1].name.as_str(), fields[i].name.as_str())
            invariant
                p <= r.len(),
                i < fields.len(),
                insert_position(r.deep_view(), fields@[i as int].name@, r.len() as nat)
                    == insert_position(r.deep_view(), fields@[i as int].name@, p as nat),
            decreases p,
        {
            p -= 1;
        }
        let nf = fields[i].replicate();
        let ghost before = r.deep_view();
        let ghost added = nf.deep_view();
        r.insert(p, nf);
        assert(r.deep_view() =~= before.insert(p as int, added));
        i += 1;
    }
    r
}

} // verus!
