//! The orchestrator: from one JSON sample and the name of a type to a
//! decision.
//!
//! The sample gives one shape. The declaration of that name, or else the
//! known declaration that resembles the sample most, gives further shapes.
//! The optimizer decides on all of them together.

use vstd::prelude::*;
use vstd::string::*;
use crate::fields::{contains_name, has_field};
use crate::generator::{EvolutionResult, ResultModel};
use crate::json::{json_model, JsonModel, JsonValue};
use crate::optimizer::{optimize, ShapeOptimizer};
use crate::parser::{
    find_known, lookup_type, FieldDecl, FieldInfo, KindDecl, TypeDecl, TypeInfo, TypeKind,
    VariantDecl, VariantInfo,
};
use crate::shape::{
    append_shapes, empty_meta, expand_decl, expand_fields, FieldModel, Shape, ShapeExpander,
    ShapeField, ShapeMetadata, ShapeModel,
};
use crate::text::{concat3, same_text};
use crate::typetext::{
    loosely_compatible, make_optional, optional_form, types_loosely_compatible,
};
use crate::views::{lemma_push_view, replicate_all, Replicate};

verus! {

/// The type that a JSON value suggests.
pub open spec fn inferred_type(v: JsonModel) -> Seq<char>
    decreases v,
{
    match v {
        JsonModel::Null => "Option<()>"@,
        JsonModel::Bool(_) => "bool"@,
        JsonModel::Number(n) => if n.is_i64 {
            "i64"@
        } else if n.is_u64 {
            "u64"@
        } else {
            "f64"@
        },
        JsonModel::String(_) => "String"@,
        JsonModel::Array(items) => if items.len() == 0 {
            "Vec<serde_json::Value>"@
        } else {
            "Vec<"@ + inferred_type(items[0]) + ">"@
        },
        JsonModel::Object(_) => "serde_json::Map<String, serde_json::Value>"@,
    }
}

/// The fields that the entries of a JSON object give: one required field
/// for each key, of the type that its value suggests.
pub open spec fn sample_fields(entries: Seq<(Seq<char>, JsonModel)>) -> Seq<FieldModel> {
    Seq::new(
        entries.len(),
        |i: int|
            FieldModel { name: entries[i].0, ty: inferred_type(entries[i].1), required: true },
    )
}

/// The shape of a JSON sample: the fields of an object, or the one field
/// `value` for any other value.
pub open spec fn sample_shape(v: JsonModel) -> ShapeModel {
    match v {
        JsonModel::Object(entries) => ShapeModel {
            fields: sample_fields(entries),
            meta: empty_meta(),
        },
        _ => ShapeModel {
            fields: seq![FieldModel { name: "value"@, ty: inferred_type(v), required: true }],
            meta: empty_meta(),
        },
    }
}

/// The place of the first declared field, at or after `from`, named `name`.
pub open spec fn decl_index(fields: Seq<FieldDecl>, name: Seq<char>, from: int) -> Option<int>
    decreases fields.len() - from,
{
    if from < 0 || from >= fields.len() {
        None
    } else if fields[from].name == name {
        Some(from)
    } else {
        decl_index(fields, name, from + 1)
    }
}

/// The points that one field of the sample earns against a record: two for
/// a field of its name, three more if the types are loosely compatible.
pub open spec fn record_points(fields: Seq<FieldDecl>, f: FieldModel) -> nat {
    match decl_index(fields, f.name, 0) {
        Some(i) => if loosely_compatible(fields[i].ty, f.ty) {
            5
        } else {
            2
        },
        None => 0,
    }
}

/// The score of a record against the first `n` fields of the sample.
pub open spec fn record_score(fields: Seq<FieldDecl>, target: Seq<FieldModel>, n: nat) -> nat
    decreases n,
{
    if n == 0 || n > target.len() {
        0
    } else {
        record_score(fields, target, (n - 1) as nat) + record_points(fields, target[n - 1])
    }
}

/// The score of a declaration against the sample; a union scores one.
pub open spec fn compatibility_score(decl: TypeDecl, target: ShapeModel) -> nat {
    match decl.kind {
        KindDecl::Record { fields } => record_score(fields, target.fields, target.fields.len()),
        KindDecl::Union { .. } => 1,
    }
}

/// The best of the first `n` declarations and its score: the first whose
/// score is above zero and above the score of every declaration before it.
pub open spec fn best_so_far(known: Seq<TypeDecl>, target: ShapeModel, n: nat) -> (
    Option<int>,
    nat,
)
    decreases n,
{
    if n == 0 || n > known.len() {
        (None, 0)
    } else {
        let prev = best_so_far(known, target, (n - 1) as nat);
        let s = compatibility_score(known[n - 1], target);
        if s > prev.1 {
            (Some(n - 1), s)
        } else {
            prev
        }
    }
}

/// The points that one field of the sample earns against a variant: ten for
/// a field of its name, five more if the types are loosely compatible.
pub open spec fn variant_points(fields: Seq<FieldDecl>, f: FieldModel) -> nat {
    match decl_index(fields, f.name, 0) {
        Some(i) => if loosely_compatible(f.ty, fields[i].ty) {
            15
        } else {
            10
        },
        None => 0,
    }
}

/// How many of the first `n` fields of the sample the variant names.
pub open spec fn matched_fields(fields: Seq<FieldDecl>, sample: Seq<FieldModel>, n: nat) -> nat
    decreases n,
{
    if n == 0 || n > sample.len() {
        0
    } else {
        matched_fields(fields, sample, (n - 1) as nat) + if decl_index(
            fields,
            sample[n - 1].name,
            0,
        ) is Some {
            1nat
        } else {
            0nat
        }
    }
}

/// The points of the first `n` fields of the sample against the variant.
pub open spec fn match_points(fields: Seq<FieldDecl>, sample: Seq<FieldModel>, n: nat) -> nat
    decreases n,
{
    if n == 0 || n > sample.len() {
        0
    } else {
        match_points(fields, sample, (n - 1) as nat) + variant_points(fields, sample[n - 1])
    }
}

/// The bonus for coverage: ten times the share of the variant's fields that
/// the sample names, rounded to the nearest whole number, halves upward.
pub open spec fn coverage_bonus(matched: nat, total: nat) -> nat {
    let t = if total == 0 {
        1nat
    } else {
        total
    };
    ((20 * matched + t) / (2 * t)) as nat
}

/// The score of a variant against the sample. A unit variant scores zero.
/// Where the sample has more fields that the variant does not name than the
/// variant has fields, two points are taken off for each of them, down to zero.
pub open spec fn variant_score(sample: ShapeModel, v: VariantDecl) -> nat {
    match v.fields {
        None => 0,
        Some(fields) => {
            let n = sample.fields.len();
            let matched = matched_fields(fields, sample.fields, n);
            let base = match_points(fields, sample.fields, n) + coverage_bonus(
                matched,
                fields.len(),
            );
            let unmatched = (n - matched) as nat;
            if unmatched > fields.len() {
                if base >= 2 * unmatched {
                    (base - 2 * unmatched) as nat
                } else {
                    0
                }
            } else {
                base
            }
        },
    }
}

/// The scores of the variants, in their order.
pub open spec fn variant_scores(sample: ShapeModel, variants: Seq<VariantDecl>) -> Seq<nat> {
    Seq::new(variants.len(), |i: int| variant_score(sample, variants[i]))
}

/// Where the place `k` goes into `order`: behind the last place whose score
/// is not below the score of `k`.
pub open spec fn rank_position(scores: Seq<nat>, order: Seq<usize>, k: int, p: nat) -> nat
    decreases p,
{
    if p == 0 || p > order.len() || scores[order[p - 1] as int] >= scores[k] {
        p
    } else {
        rank_position(scores, order, k, (p - 1) as nat)
    }
}

/// The first `n` places ordered by falling score; places of one score keep
/// their order.
pub open spec fn ranked(scores: Seq<nat>, n: nat) -> Seq<usize>
    decreases n,
{
    if n == 0 || n > scores.len() {
        Seq::empty()
    } else {
        let prev = ranked(scores, (n - 1) as nat);
        prev.insert(rank_position(scores, prev, n - 1, prev.len()) as int, (n - 1) as usize)
    }
}

/// `acc` with those of the first `m` fields whose name it does not hold
/// yet, each made optional and not required.
pub open spec fn merge_fields(acc: Seq<FieldModel>, fields: Seq<FieldModel>, m: nat) -> Seq<
    FieldModel,
>
    decreases m,
{
    if m == 0 || m > fields.len() {
        acc
    } else {
        let prev = merge_fields(acc, fields, (m - 1) as nat);
        let f = fields[m - 1];
        if has_field(prev, f.name) {
            prev
        } else {
            prev.push(FieldModel { name: f.name, ty: optional_form(f.ty), required: false })
        }
    }
}

/// The sample merged with one shape of a variant: the fields of the sample
/// as they are, then the fields that only the variant has, made optional.
pub open spec fn merge_shape(sample: ShapeModel, variant: ShapeModel) -> ShapeModel {
    ShapeModel {
        fields: merge_fields(sample.fields, variant.fields, variant.fields.len()),
        meta: empty_meta(),
    }
}

/// The sample merged with each shape.
pub open spec fn merged_all(sample: ShapeModel, shapes: Seq<ShapeModel>) -> Seq<ShapeModel> {
    Seq::new(shapes.len(), |i: int| merge_shape(sample, shapes[i]))
}

/// The shapes of the variants at the places `1..p` of the order whose score
/// is above zero and at least half the top score.
pub open spec fn runner_up_shapes(
    known: Seq<TypeDecl>,
    variants: Seq<VariantDecl>,
    scores: Seq<nat>,
    order: Seq<usize>,
    top: nat,
    p: nat,
) -> Seq<ShapeModel>
    decreases p,
{
    if p <= 1 || p > order.len() {
        Seq::empty()
    } else {
        let prev = runner_up_shapes(known, variants, scores, order, top, (p - 1) as nat);
        let v = order[p - 1] as int;
        if scores[v] > 0 && 2 * scores[v] >= top {
            match variants[v].fields {
                Some(fs) => prev + expand_fields(known, fs, known.len()),
                None => prev,
            }
        } else {
            prev
        }
    }
}

/// The shapes that a union gives for a sample. The variant with the top
/// score is merged with the sample, shape by shape; if no variant scores
/// above zero, or the top variant is a unit variant, the sample stands for
/// it. The shapes of every other variant that scores at least half the top
/// score follow.
pub open spec fn evolved_shapes(
    known: Seq<TypeDecl>,
    sample: ShapeModel,
    variants: Seq<VariantDecl>,
) -> Seq<ShapeModel> {
    let scores = variant_scores(sample, variants);
    let order = ranked(scores, scores.len());
    if order.len() == 0 {
        Seq::empty()
    } else {
        let best = order[0] as int;
        let top = scores[best];
        let head = if top > 0 {
            match variants[best].fields {
                Some(fs) => merged_all(sample, expand_fields(known, fs, known.len())),
                None => seq![sample],
            }
        } else {
            seq![sample]
        };
        head + runner_up_shapes(known, variants, scores, order, top, order.len())
    }
}

/// The shapes that a declaration gives for a sample.
pub open spec fn shapes_for(known: Seq<TypeDecl>, decl: TypeDecl, sample: ShapeModel) -> Seq<
    ShapeModel,
> {
    match decl.kind {
        KindDecl::Record { .. } => expand_decl(known, decl),
        KindDecl::Union { info } => evolved_shapes(known, sample, info.variants),
    }
}

/// All the shapes that the optimizer is given: the sample, then the shapes
/// of the declaration named `target`, or else of the best match.
pub open spec fn gathered_shapes(known: Seq<TypeDecl>, sample: ShapeModel, target: Seq<char>) -> Seq<
    ShapeModel,
> {
    seq![sample] + match lookup_type(known, target) {
        Some(d) => shapes_for(known, d, sample),
        None => match best_so_far(known, sample, known.len()).0 {
            Some(k) => shapes_for(known, known[k], sample),
            None => Seq::empty(),
        },
    }
}

/// The decision for a JSON sample under the name `target`.
pub open spec fn evolve(known: Seq<TypeDecl>, sample: JsonModel, target: Seq<char>) -> ResultModel {
    optimize(known, gathered_shapes(known, sample_shape(sample), target), target)
}

/// The type that a JSON value suggests.
pub fn infer_json_type(v: &JsonValue) -> (r: String)
    ensures
        r@ == inferred_type(json_model(*v)),
    decreases v,
{
    match v {
        JsonValue::Null => String::from_str("Option<()>"),
        JsonValue::Bool(_) => String::from_str("bool"),
        JsonValue::Number(n) => {
            if n.is_i64 {
                String::from_str("i64")
            } else if n.is_u64 {
                String::from_str("u64")
            } else {
                String::from_str("f64")
            }
        },
        JsonValue::String(_) => String::from_str("String"),
        JsonValue::Array(items) => {
            if items.len() == 0 {
                String::from_str("Vec<serde_json::Value>")
            } else {
                let inner = infer_json_type(&items[0]);
                concat3("Vec<", inner.as_str(), ">")
            }
        },
        JsonValue::Object(_) => String::from_str("serde_json::Map<String, serde_json::Value>"),
    }
}

/// The shape of a JSON sample.
pub fn json_shape(v: &JsonValue) -> (r: Shape)
    ensures
        r.deep_view() == sample_shape(json_model(*v)),
{
    let mut fields: Vec<ShapeField> = Vec::new();
    match v {
        JsonValue::Object(entries) => {
            let ghost model = json_model(*v)->Object_0;
            let mut i: usize = 0;
            while i < entries.len()
                invariant
                    i <= entries.len(),
                    *v == JsonValue::Object(*entries),
                    model == json_model(*v)->Object_0,
                    fields@.len() == i,
                    forall|j: int|
                        0 <= j < i ==> fields@[j].deep_view() == (FieldModel {
                            name: model[j].0,
                            ty: inferred_type(model[j].1),
                            required: true,
                        }),
                decreases entries.len() - i,
            {
                fields.push(
                    ShapeField {
                        name: entries[i].0.clone(),
                        field_type: infer_json_type(&entries[i].1),
                        is_required: true,
                    },
                );
                i += 1;
            }
            assert(fields.deep_view() =~= sample_fields(model));
        },
        _ => {
            fields.push(
                ShapeField {
                    name: String::from_str("value"),
                    field_type: infer_json_type(v),
                    is_required: true,
                },
            );
            assert(fields.deep_view() =~= seq![
                FieldModel {
                    name: "value"@,
                    ty: inferred_type(json_model(*v)),
                    required: true,
                },
            ]);
        },
    }
    Shape { fields, metadata: ShapeMetadata::new() }
}

/// The place of the first declared field named `name`.
pub fn find_declared(fields: &Vec<FieldInfo>, name: &str) -> (r: Option<usize>)
    ensures
        match r {
            Some(i) => decl_index(fields.deep_view(), name@, 0) == Some(i as int) && i
                < fields.len(),
            None => decl_index(fields.deep_view(), name@, 0) is None,
        },
{
    let mut i: usize = 0;
    while i < fields.len()
        invariant
            i <= fields.len(),
            decl_index(fields.deep_view(), name@, 0) == decl_index(
                fields.deep_view(),
                name@,
                i as int,
            ),
        decreases fields.len() - i,
    {
        if same_text(fields[i].name.as_str(), name) {
            return Some(i);
        }
        i += 1;
    }
    None
}

/// The score of a record against a sample.
pub fn struct_compatibility(fields: &Vec<FieldInfo>, target: &Shape) -> (r: u128)
    ensures
        r == record_score(fields.deep_view(), target.deep_view().fields, target.fields.len() as nat),
{
    let mut score: u128 = 0;
    let mut i: usize = 0;
    while i < target.fields.len()
        invariant
            i <= target.fields.len(),
            score <= 5 * i,
            score == record_score(fields.deep_view(), target.deep_view().fields, i as nat),
        decreases target.fields.len() - i,
    {
        let t = &target.fields[i];
        match find_declared(fields, t.name.as_str()) {
            Some(k) => {
                score += 2;
                if types_loosely_compatible(fields[k].field_type.as_str(), t.field_type.as_str()) {
                    score += 3;
                }
            },
            None => {},
        }
        i += 1;
    }
    score
}

/// The score of a declaration against a sample.
pub fn compatibility(decl: &TypeInfo, target: &Shape) -> (r: u128)
    ensures
        r == compatibility_score(decl.deep_view(), target.deep_view()),
{
    match &decl.kind {
        TypeKind::Struct { fields } => struct_compatibility(fields, target),
        TypeKind::Enum { .. } => 1,
    }
}

/// The place of the known declaration that resembles the sample most.
pub fn best_matching(known: &Vec<TypeInfo>, target: &Shape) -> (r: Option<usize>)
    ensures
        match r {
            Some(k) => best_so_far(known.deep_view(), target.deep_view(), known.len() as nat).0
                == Some(k as int) && k < known.len(),
            None => best_so_far(known.deep_view(), target.deep_view(), known.len() as nat).0
                is None,
        },
{
    let mut best: Option<usize> = None;
    let mut best_score: u128 = 0;
    let mut i: usize = 0;
    while i < known.len()
        invariant
            i <= known.len(),
            best_score == best_so_far(known.deep_view(), target.deep_view(), i as nat).1,
            match best {
                Some(k) => best_so_far(known.deep_view(), target.deep_view(), i as nat).0 == Some(
                    k as int,
                ) && k < i,
                None => best_so_far(known.deep_view(), target.deep_view(), i as nat).0 is None,
            },
        decreases known.len() - i,
    {
        let score = compatibility(&known[i], target);
        if score > best_score {
            best_score = score;
            best = Some(i);
        }
        i += 1;
    }
    best
}

/// The score of a variant against a sample.
pub fn variant_compatibility(sample: &Shape, variant: &VariantInfo) -> (r: u128)
    ensures
        r == variant_score(sample.deep_view(), variant.deep_view()),
{
    let fields = match &variant.fields {
        Some(fs) => fs,
        None => {
            return 0;
        },
    };
    let n = sample.fields.len();
    let mut points: u128 = 0;
    let mut matched: usize = 0;
    let mut i: usize = 0;
    while i < n
        invariant
            i <= n,
            n == sample.fields.len(),
            matched <= i,
            points <= 15 * i,
            matched == matched_fields(fields.deep_view(), sample.deep_view().fields, i as nat),
            points == match_points(fields.deep_view(), sample.deep_view().fields, i as nat),
        decreases n - i,
    {
        let f = &sample.fields[i];
        match find_declared(fields, f.name.as_str()) {
            Some(k) => {
                points += 10;
                matched += 1;
                if types_loosely_compatible(f.field_type.as_str(), fields[k].field_type.as_str()) {
                    points += 5;
                }
            },
            None => {},
        }
        i += 1;
    }
    let total: u128 = if fields.len() == 0 {
        1
    } else {
        fields.len() as u128
    };
    let bonus: u128 = (20 * (matched as u128) + total) / (2 * total);
    assert(bonus <= 20 * matched + total) by (nonlinear_arith)
        requires
            total >= 1,
            bonus == (20 * (matched as u128) + total) / (2 * total),
    ;
    let base: u128 = points + bonus;
    let unmatched: usize = n - matched;
    if unmatched > fields.len() {
        let penalty: u128 = 2 * (unmatched as u128);
        if base >= penalty {
            base - penalty
        } else {
            0
        }
    } else {
        base
    }
}

/// The places of the scores ordered by falling score.
fn rank(scores: &Vec<u128>, Ghost(model): Ghost<Seq<nat>>) -> (r: Vec<usize>)
    requires
        model.len() == scores.len(),
        forall|i: int| 0 <= i < scores.len() ==> scores@[i] == model[i],
    ensures
        r@ == ranked(model, model.len()),
        r.len() == scores.len(),
        forall|p: int| 0 <= p < r.len() ==> r@[p] < scores.len(),
{
    let mut order: Vec<usize> = Vec::new();
    let mut i: usize = 0;
    while i < scores.len()
        invariant
            i <= scores.len(),
            model.len() == scores.len(),
            forall|i: int| 0 <= i < scores.len() ==> scores@[i] == model[i],
            order.len() == i,
            forall|p: int| 0 <= p < order.len() ==> order@[p] < i,
            order@ == ranked(model, i as nat),
        decreases scores.len() - i,
    {
        let mut p: usize = order.len();
        while p > 0 && scores[order[p - 1]] < scores[i]
            invariant
                p <= order.len(),
                i < scores.len(),
                model.len() == scores.len(),
                forall|i: int| 0 <= i < scores.len() ==> scores@[i] == model[i],
                forall|p: int| 0 <= p < order.len() ==> order@[p] < i,
                rank_position(model, order@, i as int, order.len() as nat) == rank_position(
                    model,
                    order@,
                    i as int,
                    p as nat,
                ),
            decreases p,
        {
            p -= 1;
        }
        order.insert(p, i);
        i += 1;
    }
    order
}

/// The sample merged with one shape of a variant.
pub fn merge_with_sample(sample: &Shape, variant: &Shape) -> (r: Shape)
    ensures
        r.deep_view() == merge_shape(sample.deep_view(), variant.deep_view()),
{
    let mut fields = replicate_all(&sample.fields);
    let mut i: usize = 0;
    while i < variant.fields.len()
        invariant
            i <= variant.fields.len(),
            fields.deep_view() == merge_fields(
                sample.deep_view().fields,
                variant.deep_view().fields,
                i as nat,
            ),
        decreases variant.fields.len() - i,
    {
        let f = &variant.fields[i];
        if !contains_name(&fields, f.name.as_str()) {
            let nf = ShapeField {
                name: f.name.clone(),
                field_type: make_optional(f.field_type.as_str()),
                is_required: false,
            };
            let ghost before = fields;
            let ghost added = nf;
            fields.push(nf);
            proof {
                lemma_push_view(before, fields, added);
            }
        }
        i += 1;
    }
    Shape { fields, metadata: ShapeMetadata::new() }
}

/// Evolves a table of declarations with JSON samples.
pub struct ApiEvolution {
    existing_types: Vec<TypeInfo>,
    shape_expander: ShapeExpander,
    optimizer: ShapeOptimizer,
    verbose: bool,
}

impl ApiEvolution {
    /// The expander and the optimizer know the same table.
    #[verifier::type_invariant]
    spec fn consistent(self) -> bool {
        self.shape_expander.known() == self.existing_types.deep_view() && self.optimizer.known()
            == self.existing_types.deep_view()
    }

    /// The table of known declarations.
    pub closed spec fn known(&self) -> Seq<TypeDecl> {
        self.existing_types.deep_view()
    }

    /// An evolution over the declarations given.
    pub fn new(existing_types: Vec<TypeInfo>, verbose: bool) -> (r: Self)
        ensures
            r.known() == existing_types.deep_view(),
    {
        let mut shape_expander = ShapeExpander::with_verbose(verbose);
        shape_expander.set_known_types(replicate_all(&existing_types));
        let mut optimizer = ShapeOptimizer::new(verbose);
        optimizer.set_known_types(replicate_all(&existing_types));
        ApiEvolution { existing_types, shape_expander, optimizer, verbose }
    }

    /// The shape of a JSON sample.
    pub fn analyze_json_shape(&self, value: &JsonValue) -> (r: Shape)
        ensures
            r.deep_view() == sample_shape(json_model(*value)),
    {
        json_shape(value)
    }

    /// The known declaration that resembles the sample most.
    pub fn find_best_matching_type(&self, target: &Shape) -> (r: Option<&TypeInfo>)
        ensures
            r.deep_view() == match best_so_far(
                self.known(),
                target.deep_view(),
                self.known().len(),
            ).0 {
                Some(k) => Some(self.known()[k]),
                None => None,
            },
    {
        match best_matching(&self.existing_types, target) {
            Some(k) => Some(&self.existing_types[k]),
            None => None,
        }
    }

    /// The score of a declaration against a sample.
    pub fn calculate_compatibility_score(&self, decl: &TypeInfo, target: &Shape) -> (r: u128)
        ensures
            r == compatibility_score(decl.deep_view(), target.deep_view()),
    {
        compatibility(decl, target)
    }

    /// The score of a record against a sample.
    pub fn calculate_struct_compatibility(&self, fields: &Vec<FieldInfo>, target: &Shape) -> (r:
        u128)
        ensures
            r == record_score(
                fields.deep_view(),
                target.deep_view().fields,
                target.fields.len() as nat,
            ),
    {
        struct_compatibility(fields, target)
    }

    /// Whether two types are loosely compatible.
    pub fn types_compatible(&self, existing_type: &str, target_type: &str) -> (r: bool)
        ensures
            r == loosely_compatible(existing_type@, target_type@),
    {
        types_loosely_compatible(existing_type, target_type)
    }

    /// The score of a variant against a sample.
    pub fn calculate_variant_compatibility(&self, sample: &Shape, variant: &VariantInfo) -> (r:
        u128)
        ensures
            r == variant_score(sample.deep_view(), variant.deep_view()),
    {
        variant_compatibility(sample, variant)
    }

    /// The sample merged with one shape of a variant.
    pub fn merge_shapes(&self, sample: &Shape, variant: &Shape) -> (r: Shape)
        ensures
            r.deep_view() == merge_shape(sample.deep_view(), variant.deep_view()),
    {
        merge_with_sample(sample, variant)
    }

    /// The shapes that a union gives for a sample.
    pub fn evolve_with_enum_variants(&self, sample: &Shape, variants: &Vec<VariantInfo>) -> (r:
        Vec<Shape>)
        ensures
            r.deep_view() == evolved_shapes(self.known(), sample.deep_view(), variants.deep_view()),
    {
        proof {
            use_type_invariant(self);
        }
        let ghost model = variant_scores(sample.deep_view(), variants.deep_view());
        let mut scores: Vec<u128> = Vec::new();
        let mut i: usize = 0;
        while i < variants.len()
            invariant
                i <= variants.len(),
                scores.len() == i,
                model == variant_scores(sample.deep_view(), variants.deep_view()),
                forall|j: int| 0 <= j < i ==> scores@[j] == model[j],
            decreases variants.len() - i,
        {
            scores.push(variant_compatibility(sample, &variants[i]));
            i += 1;
        }
        let order = rank(&scores, Ghost(model));
        let mut out: Vec<Shape> = Vec::new();
        assert(out.deep_view() =~= Seq::<ShapeModel>::empty());
        if order.len() == 0 {
            return out;
        }
        let best = order[0];
        let top = scores[best];
        let merged_best = if top > 0 {
            match &variants[best].fields {
                Some(fs) => Some(self.shape_expander.expand_struct_shapes(fs)),
                None => None,
            }
        } else {
            None
        };
        match merged_best {
            Some(shapes) => {
                let mut k: usize = 0;
                while k < shapes.len()
                    invariant
                        k <= shapes.len(),
                        out@.len() == k,
                        forall|j: int|
                            0 <= j < k ==> out@[j].deep_view() == merge_shape(
                                sample.deep_view(),
                                shapes@[j].deep_view(),
                            ),
                    decreases shapes.len() - k,
                {
                    out.push(merge_with_sample(sample, &shapes[k]));
                    k += 1;
                }
                assert(out.deep_view() =~= merged_all(sample.deep_view(), shapes.deep_view()));
            },
            None => {
                out.push(sample.replicate());
                assert(out.deep_view() =~= seq![sample.deep_view()]);
            },
        }
        let ghost head = out.deep_view();
        let ghost known = self.known();
        let mut p: usize = 1;
        assert(out.deep_view() =~= head + runner_up_shapes(
            known,
            variants.deep_view(),
            model,
            order@,
            top as nat,
            1,
        ));
        while p < order.len()
            invariant
                1 <= p <= order.len(),
                order.len() == scores.len(),
                scores.len() == variants.len(),
                known == self.known(),
                self.shape_expander.known() == known,
                model.len() == scores.len(),
                forall|j: int| 0 <= j < scores.len() ==> scores@[j] == model[j],
                forall|q: int| 0 <= q < order.len() ==> order@[q] < scores.len(),
                out.deep_view() == head + runner_up_shapes(
                    known,
                    variants.deep_view(),
                    model,
                    order@,
                    top as nat,
                    p as nat,
                ),
            decreases order.len() - p,
        {
            let v = order[p];
            let half_up: u128 = top / 2 + top % 2;
            assert((scores@[v as int] >= half_up) == (2 * model[v as int] >= top));
            if scores[v] > 0 && scores[v] >= half_up {
                match &variants[v].fields {
                    Some(fs) => {
                        let mut more = self.shape_expander.expand_struct_shapes(fs);
                        let ghost piece = more.deep_view();
                        append_shapes(&mut out, &mut more);
                        assert((head + runner_up_shapes(
                            known,
                            variants.deep_view(),
                            model,
                            order@,
                            top as nat,
                            p as nat,
                        )) + piece =~= head + (runner_up_shapes(
                            known,
                            variants.deep_view(),
                            model,
                            order@,
                            top as nat,
                            p as nat,
                        ) + piece));
                    },
                    None => {},
                }
            }
            p += 1;
        }
        out
    }

    /// The shapes that a declaration gives for a sample.
    fn shapes_of(&self, decl: &TypeInfo, sample: &Shape) -> (r: Vec<Shape>)
        ensures
            r.deep_view() == shapes_for(self.known(), decl.deep_view(), sample.deep_view()),
    {
        proof {
            use_type_invariant(self);
        }
        match &decl.kind {
            TypeKind::Struct { .. } => self.shape_expander.expand_type(decl, self.verbose),
            TypeKind::Enum { info } => self.evolve_with_enum_variants(sample, &info.variants),
        }
    }

    /// The decision for a JSON sample under the name `target_name`.
    pub fn evolve_with_json(&self, json_value: &JsonValue, target_name: &str) -> (r: EvolutionResult)
        ensures
            r.deep_view() == evolve(self.known(), json_model(*json_value), target_name@),
    {
        proof {
            use_type_invariant(self);
        }
        let sample = json_shape(json_value);
        let mut more = match find_known(&self.existing_types, target_name) {
            Some(k) => self.shapes_of(&self.existing_types[k], &sample),
            None => match best_matching(&self.existing_types, &sample) {
                Some(k) => self.shapes_of(&self.existing_types[k], &sample),
                None => Vec::new(),
            },
        };
        let ghost sample_model = sample.deep_view();
        let ghost rest = more.deep_view();
        let mut all: Vec<Shape> = Vec::new();
        all.push(sample);
        assert(all.deep_view() =~= seq![sample_model]);
        append_shapes(&mut all, &mut more);
        assert(rest =~= match lookup_type(self.known(), target_name@) {
            Some(d) => shapes_for(self.known(), d, sample_model),
            None => match best_so_far(self.known(), sample_model, self.known().len()).0 {
                Some(k) => shapes_for(self.known(), self.known()[k], sample_model),
                None => Seq::empty(),
            },
        });
        self.optimizer.optimize_shapes(&all, target_name)
    }
}

} // verus!
