//! Shapes, and the expansion of a declaration into the shapes it can take.
//!
//! A shape is one concrete combination of present fields. A record with
//! optional fields takes one shape for every subset of them; a field whose
//! type is a known untagged union is replaced by the fields of each variant.

use vstd::prelude::*;
use vstd::string::*;
use crate::parser::{
    find_known, untagged_union, FieldDecl, FieldInfo, KindDecl, TypeDecl, TypeInfo, TypeKind,
    VariantDecl, VariantInfo,
};
use crate::text::concat3;
use crate::typetext::{unwrap_option, unwrapped};
use crate::views::{lemma_push_view, replicate_all, replicate_option, Replicate};

verus! {

/// One field of a shape.
#[derive(Debug, Clone, PartialEq, Eq, Hash)]
pub struct ShapeField {
    pub name: String,
    pub field_type: String,
    pub is_required: bool,
}

/// The mathematical value of a `ShapeField`.
pub struct FieldModel {
    pub name: Seq<char>,
    pub ty: Seq<char>,
    pub required: bool,
}

/// Where a shape came from: the field that held an inlined union, and the
/// name of that union.
#[derive(Debug, Clone, PartialEq, Eq, Hash)]
pub struct ShapeMetadata {
    pub original_enum_field_name: Option<String>,
    pub source_enum_type: Option<String>,
}

/// The mathematical value of a `ShapeMetadata`.
pub struct MetaModel {
    pub field_name: Option<Seq<char>>,
    pub source: Option<Seq<char>>,
}

/// One concrete combination of present fields.
#[derive(Debug, Clone, PartialEq, Eq, Hash)]
pub struct Shape {
    pub fields: Vec<ShapeField>,
    pub metadata: ShapeMetadata,
}

/// The mathematical value of a `Shape`.
pub struct ShapeModel {
    pub fields: Seq<FieldModel>,
    pub meta: MetaModel,
}

impl DeepView for ShapeField {
    type V = FieldModel;

    open spec fn deep_view(&self) -> FieldModel {
        FieldModel { name: self.name@, ty: self.field_type@, required: self.is_required }
    }
}

impl DeepView for ShapeMetadata {
    type V = MetaModel;

    open spec fn deep_view(&self) -> MetaModel {
        MetaModel {
            field_name: self.original_enum_field_name.deep_view(),
            source: self.source_enum_type.deep_view(),
        }
    }
}

impl DeepView for Shape {
    type V = ShapeModel;

    open spec fn deep_view(&self) -> ShapeModel {
        ShapeModel { fields: self.fields.deep_view(), meta: self.metadata.deep_view() }
    }
}

impl Replicate for ShapeField {
    fn replicate(&self) -> (r: ShapeField) {
        ShapeField {
            name: self.name.clone(),
            field_type: self.field_type.clone(),
            is_required: self.is_required,
        }
    }
}

impl Replicate for ShapeMetadata {
    fn replicate(&self) -> (r: ShapeMetadata) {
        ShapeMetadata {
            original_enum_field_name: replicate_option(&self.original_enum_field_name),
            source_enum_type: replicate_option(&self.source_enum_type),
        }
    }
}

impl Replicate for Shape {
    fn replicate(&self) -> (r: Shape) {
        Shape { fields: replicate_all(&self.fields), metadata: self.metadata.replicate() }
    }
}

/// No provenance.
pub open spec fn empty_meta() -> MetaModel {
    MetaModel { field_name: None, source: None }
}

/// The shape without fields.
pub open spec fn empty_shape() -> ShapeModel {
    ShapeModel { fields: Seq::empty(), meta: empty_meta() }
}

/// The type under which a field is looked up in the table: its type, without
/// the optional wrapper if the field is optional.
pub open spec fn effective_type(f: FieldDecl) -> Seq<char> {
    if f.optional {
        unwrapped(f.ty)
    } else {
        f.ty
    }
}

/// The field of a shape that a declared field gives as it stands.
pub open spec fn plain_field(f: FieldDecl) -> FieldModel {
    FieldModel { name: f.name, ty: f.ty, required: !f.optional }
}

/// The fields of a declaration as fields of a shape, as they stand.
pub open spec fn plain_fields(fields: Seq<FieldDecl>) -> Seq<FieldModel> {
    Seq::new(fields.len(), |i: int| plain_field(fields[i]))
}

/// `s` with `f` as one more field.
pub open spec fn with_field(s: ShapeModel, f: FieldModel) -> ShapeModel {
    ShapeModel { fields: s.fields.push(f), meta: s.meta }
}

/// Every shape with `f` as one more field.
pub open spec fn append_to_all(shapes: Seq<ShapeModel>, f: FieldModel) -> Seq<ShapeModel> {
    Seq::new(shapes.len(), |i: int| with_field(shapes[i], f))
}

/// The fields of an inlined variant: required only if the field that held
/// the union is not optional.
pub open spec fn inlined_fields(fields: Seq<FieldModel>, optional: bool) -> Seq<FieldModel> {
    Seq::new(
        fields.len(),
        |i: int|
            FieldModel {
                name: fields[i].name,
                ty: fields[i].ty,
                required: !optional && fields[i].required,
            },
    )
}

/// `base` with the fields of one variant in place of the field `f`; the
/// provenance names `f` and its union.
pub open spec fn inline_variant(base: ShapeModel, f: FieldDecl, variant: ShapeModel) -> ShapeModel {
    ShapeModel {
        fields: base.fields + inlined_fields(variant.fields, f.optional),
        meta: MetaModel { field_name: Some(f.name), source: Some(effective_type(f)) },
    }
}

/// The branches that one shape takes at a union-typed field: the shape
/// without the field, if the field is optional, then one per variant shape.
pub open spec fn branches_of(base: ShapeModel, f: FieldDecl, inlined: Seq<ShapeModel>) -> Seq<
    ShapeModel,
> {
    (if f.optional {
        seq![base]
    } else {
        Seq::empty()
    }) + Seq::new(inlined.len(), |j: int| inline_variant(base, f, inlined[j]))
}

/// The branches of the first `n` shapes, in order.
pub open spec fn branch_all(
    bases: Seq<ShapeModel>,
    f: FieldDecl,
    inlined: Seq<ShapeModel>,
    n: nat,
) -> Seq<ShapeModel>
    decreases n,
{
    if n == 0 || n > bases.len() {
        Seq::empty()
    } else {
        branch_all(bases, f, inlined, (n - 1) as nat) + branches_of(bases[n - 1], f, inlined)
    }
}

/// How many of the first `n` fields are not required.
pub open spec fn optional_count(fields: Seq<FieldModel>, n: nat) -> nat
    decreases n,
{
    if n == 0 || n > fields.len() {
        0
    } else {
        optional_count(fields, (n - 1) as nat) + if fields[n - 1].required {
            0nat
        } else {
            1nat
        }
    }
}

/// The subsets of `k` things, each as a row of `k` marks: the subset at place
/// `i` holds the thing `p` if bit `p` of `i` is set.
pub open spec fn subsets(k: nat) -> Seq<Seq<bool>>
    decreases k,
{
    if k == 0 {
        seq![Seq::<bool>::empty()]
    } else {
        let p = subsets((k - 1) as nat);
        Seq::new(
            2 * p.len(),
            |i: int|
                if i < p.len() {
                    p[i].push(false)
                } else {
                    p[i - p.len()].push(true)
                },
        )
    }
}

/// An optional field once it is present: required, and without its wrapper.
pub open spec fn present(f: FieldModel) -> FieldModel {
    FieldModel { name: f.name, ty: unwrapped(f.ty), required: true }
}

/// Of the first `n` fields, the required ones and the optional ones that
/// `mask` marks, in order; the optional ones as present.
pub open spec fn selected(fields: Seq<FieldModel>, mask: Seq<bool>, n: nat) -> Seq<FieldModel>
    decreases n,
{
    if n == 0 || n > fields.len() {
        Seq::empty()
    } else {
        let prev = selected(fields, mask, (n - 1) as nat);
        let f = fields[n - 1];
        let pos = optional_count(fields, (n - 1) as nat);
        if f.required {
            prev.push(f)
        } else if pos < mask.len() && mask[pos as int] {
            prev.push(present(f))
        } else {
            prev
        }
    }
}

/// The shapes of one shape with optional fields: one for each subset of them.
pub open spec fn optional_variants(base: ShapeModel) -> Seq<ShapeModel> {
    let n = base.fields.len();
    let masks = subsets(optional_count(base.fields, n));
    Seq::new(
        masks.len(),
        |i: int| ShapeModel { fields: selected(base.fields, masks[i], n), meta: base.meta },
    )
}

/// The shapes of the first `n` shapes, in order.
pub open spec fn expand_all_optionals(bases: Seq<ShapeModel>, n: nat) -> Seq<ShapeModel>
    decreases n,
{
    if n == 0 || n > bases.len() {
        Seq::empty()
    } else {
        expand_all_optionals(bases, (n - 1) as nat) + optional_variants(bases[n - 1])
    }
}

/// The discriminator field of a tagged union's variant.
pub open spec fn tag_field(variant_name: Seq<char>) -> FieldModel {
    FieldModel { name: "tag"@, ty: "\""@ + variant_name + "\""@, required: true }
}

/// The shape of a unit variant of a tagged union.
pub open spec fn tag_shape(variant_name: Seq<char>) -> ShapeModel {
    ShapeModel { fields: seq![tag_field(variant_name)], meta: empty_meta() }
}

/// The shapes of one variant: as they are for an untagged union, each with
/// the discriminator in front for a tagged one.
pub open spec fn tag_all(shapes: Seq<ShapeModel>, variant_name: Seq<char>, untagged: bool) -> Seq<
    ShapeModel,
> {
    if untagged {
        shapes
    } else {
        Seq::new(
            shapes.len(),
            |i: int|
                ShapeModel {
                    fields: seq![tag_field(variant_name)] + shapes[i].fields,
                    meta: shapes[i].meta,
                },
        )
    }
}

/// The shapes that the first `n` fields give before optional fields are
/// expanded. A field whose type is a known untagged union is inlined while
/// `depth` allows it; any other field is appended to every shape.
pub open spec fn base_shapes(
    known: Seq<TypeDecl>,
    fields: Seq<FieldDecl>,
    n: nat,
    depth: nat,
) -> Seq<ShapeModel>
    decreases depth, 1nat, n,
{
    if n == 0 || n > fields.len() {
        seq![empty_shape()]
    } else {
        let prev = base_shapes(known, fields, (n - 1) as nat, depth);
        let f = fields[n - 1];
        match untagged_union(known, effective_type(f)) {
            Some(variants) => if depth > 0 {
                branch_all(
                    prev,
                    f,
                    expand_variants(known, variants, variants.len(), true, (depth - 1) as nat),
                    prev.len(),
                )
            } else {
                append_to_all(prev, plain_field(f))
            },
            None => append_to_all(prev, plain_field(f)),
        }
    }
}

/// The shapes of a list of fields: the base shapes, each expanded into one
/// shape for every subset of its optional fields.
pub open spec fn expand_fields(known: Seq<TypeDecl>, fields: Seq<FieldDecl>, depth: nat) -> Seq<
    ShapeModel,
>
    decreases depth, 2nat, 0nat,
{
    let bases = base_shapes(known, fields, fields.len(), depth);
    expand_all_optionals(bases, bases.len())
}

/// The shapes of the first `n` variants of a union. A unit variant of a
/// tagged union gives the shape that holds the discriminator alone; a unit
/// variant of an untagged union gives none.
pub open spec fn expand_variants(
    known: Seq<TypeDecl>,
    variants: Seq<VariantDecl>,
    n: nat,
    untagged: bool,
    depth: nat,
) -> Seq<ShapeModel>
    decreases depth, 3nat, n,
{
    if n == 0 || n > variants.len() {
        Seq::empty()
    } else {
        let prev = expand_variants(known, variants, (n - 1) as nat, untagged, depth);
        let v = variants[n - 1];
        match v.fields {
            Some(fs) => prev + tag_all(expand_fields(known, fs, depth), v.name, untagged),
            None => if untagged {
                prev
            } else {
                prev.push(tag_shape(v.name))
            },
        }
    }
}

/// The shapes of a declaration. Unions are inlined to a nesting depth of the
/// number of known declarations, which no table without a cycle exceeds.
pub open spec fn expand_decl(known: Seq<TypeDecl>, decl: TypeDecl) -> Seq<ShapeModel> {
    match decl.kind {
        KindDecl::Record { fields } => expand_fields(known, fields, known.len()),
        KindDecl::Union { info } => expand_variants(
            known,
            info.variants,
            info.variants.len(),
            info.untagged,
            known.len(),
        ),
    }
}

impl ShapeMetadata {
    /// No provenance.
    pub fn new() -> (r: Self)
        ensures
            r.deep_view() == empty_meta(),
    {
        ShapeMetadata { original_enum_field_name: None, source_enum_type: None }
    }

    /// The provenance of a shape that came from the union `enum_type` held
    /// by the field `field_name`.
    pub fn with_enum_field(field_name: String, enum_type: String) -> (r: Self)
        ensures
            r.deep_view() == (MetaModel { field_name: Some(field_name@), source: Some(enum_type@) }),
    {
        ShapeMetadata {
            original_enum_field_name: Some(field_name),
            source_enum_type: Some(enum_type),
        }
    }
}

/// The fields of a declaration as fields of a shape, as they stand.
pub fn declared_fields(fields: &Vec<FieldInfo>) -> (r: Vec<ShapeField>)
    ensures
        r.deep_view() == plain_fields(fields.deep_view()),
{
    let mut r: Vec<ShapeField> = Vec::new();
    let mut i: usize = 0;
    while i < fields.len()
        invariant
            i <= fields.len(),
            r@.len() == i,
            forall|j: int| 0 <= j < i ==> r@[j].deep_view() == plain_field(fields@[j].deep_view()),
        decreases fields.len() - i,
    {
        r.push(
            ShapeField {
                name: fields[i].name.clone(),
                field_type: fields[i].field_type.clone(),
                is_required: !fields[i].is_optional,
            },
        );
        i += 1;
    }
    assert(r.deep_view() =~= plain_fields(fields.deep_view()));
    r
}

/// Every shape with the declared field `f` as one more field.
fn append_field_to_all(bases: &Vec<Shape>, f: &FieldInfo) -> (r: Vec<Shape>)
    ensures
        r.deep_view() == append_to_all(bases.deep_view(), plain_field(f.deep_view())),
{
    let mut r: Vec<Shape> = Vec::new();
    let mut i: usize = 0;
    while i < bases.len()
        invariant
            i <= bases.len(),
            r@.len() == i,
            forall|j: int|
                0 <= j < i ==> r@[j].deep_view() == with_field(
                    bases@[j].deep_view(),
                    plain_field(f.deep_view()),
                ),
        decreases bases.len() - i,
    {
        let mut s = bases[i].replicate();
        let nf = ShapeField {
            name: f.name.clone(),
            field_type: f.field_type.clone(),
            is_required: !f.is_optional,
        };
        let ghost before = s.fields;
        let ghost added = nf;
        s.fields.push(nf);
        proof {
            lemma_push_view(before, s.fields, added);
        }
        r.push(s);
        i += 1;
    }
    assert(r.deep_view() =~= append_to_all(bases.deep_view(), plain_field(f.deep_view())));
    r
}

/// `base` with the fields of one variant in place of the field `f`.
fn inline_one(base: &Shape, f: &FieldInfo, ty: &str, variant: &Shape) -> (r: Shape)
    requires
        ty@ == effective_type(f.deep_view()),
    ensures
        r.deep_view() == inline_variant(base.deep_view(), f.deep_view(), variant.deep_view()),
{
    let mut fields = replicate_all(&base.fields);
    let ghost target = inlined_fields(variant.fields.deep_view(), f.is_optional);
    let mut j: usize = 0;
    assert(fields.deep_view() =~= base.fields.deep_view() + target.take(0));
    while j < variant.fields.len()
        invariant
            j <= variant.fields.len(),
            target == inlined_fields(variant.fields.deep_view(), f.is_optional),
            fields.deep_view() == base.fields.deep_view() + target.take(j as int),
        decreases variant.fields.len() - j,
    {
        let vf = &variant.fields[j];
        let nf = ShapeField {
            name: vf.name.clone(),
            field_type: vf.field_type.clone(),
            is_required: !f.is_optional && vf.is_required,
        };
        let ghost before = fields;
        let ghost added = nf;
        fields.push(nf);
        proof {
            lemma_push_view(before, fields, added);
            assert((base.fields.deep_view() + target.take(j as int)).push(target[j as int])
                =~= base.fields.deep_view() + target.take(j + 1));
        }
        j += 1;
    }
    assert(target.take(variant.fields.len() as int) =~= target);
    Shape {
        fields,
        metadata: ShapeMetadata::with_enum_field(f.name.clone(), String::from_str(ty)),
    }
}

/// The branches of every shape at the union-typed field `f`.
fn branch(bases: &Vec<Shape>, f: &FieldInfo, ty: &str, inlined: &Vec<Shape>) -> (r: Vec<Shape>)
    requires
        ty@ == effective_type(f.deep_view()),
    ensures
        r.deep_view() == branch_all(
            bases.deep_view(),
            f.deep_view(),
            inlined.deep_view(),
            bases.len() as nat,
        ),
{
    let mut r: Vec<Shape> = Vec::new();
    let mut i: usize = 0;
    assert(r.deep_view() =~= Seq::<ShapeModel>::empty());
    while i < bases.len()
        invariant
            i <= bases.len(),
            ty@ == effective_type(f.deep_view()),
            r.deep_view() == branch_all(
                bases.deep_view(),
                f.deep_view(),
                inlined.deep_view(),
                i as nat,
            ),
        decreases bases.len() - i,
    {
        let base = &bases[i];
        let ghost done = r.deep_view();
        let ghost head = if f.is_optional {
            seq![base.deep_view()]
        } else {
            Seq::<ShapeModel>::empty()
        };
        if f.is_optional {
            let copy = base.replicate();
            let ghost before = r;
            let ghost added = copy;
            r.push(copy);
            proof {
                lemma_push_view(before, r, added);
            }
        }
        assert(r.deep_view() =~= done + head + Seq::new(
            0,
            |k: int| inline_variant(base.deep_view(), f.deep_view(), inlined.deep_view()[k]),
        ));
        let mut j: usize = 0;
        while j < inlined.len()
            invariant
                j <= inlined.len(),
                i < bases.len(),
                base == &bases@[i as int],
                ty@ == effective_type(f.deep_view()),
                r.deep_view() == done + head + Seq::new(
                    j as nat,
                    |k: int| inline_variant(base.deep_view(), f.deep_view(), inlined.deep_view()[k]),
                ),
            decreases inlined.len() - j,
        {
            let s = inline_one(base, f, ty, &inlined[j]);
            let ghost before = r;
            let ghost added = s;
            r.push(s);
            proof {
                lemma_push_view(before, r, added);
                assert(r.deep_view() =~= done + head + Seq::new(
                    (j + 1) as nat,
                    |k: int|
                        inline_variant(base.deep_view(), f.deep_view(), inlined.deep_view()[k]),
                ));
            }
            j += 1;
        }
        proof {
            assert(done + head + Seq::new(
                inlined.len() as nat,
                |k: int| inline_variant(base.deep_view(), f.deep_view(), inlined.deep_view()[k]),
            ) =~= done + branches_of(base.deep_view(), f.deep_view(), inlined.deep_view()));
        }
        i += 1;
    }
    r
}

/// How many fields are not required.
fn count_optional(fields: &Vec<ShapeField>) -> (k: usize)
    ensures
        k == optional_count(fields.deep_view(), fields.len() as nat),
{
    let mut k: usize = 0;
    let mut i: usize = 0;
    while i < fields.len()
        invariant
            i <= fields.len(),
            k <= i,
            k == optional_count(fields.deep_view(), i as nat),
        decreases fields.len() - i,
    {
        if !fields[i].is_required {
            k += 1;
        }
        i += 1;
    }
    k
}

/// The subsets of `k` things.
fn all_subsets(k: usize) -> (r: Vec<Vec<bool>>)
    ensures
        r.deep_view() == subsets(k as nat),
{
    let mut cur: Vec<Vec<bool>> = Vec::new();
    cur.push(Vec::new());
    assert(cur.deep_view() =~= subsets(0)) by {
        assert(cur@[0].deep_view() =~= Seq::<bool>::empty());
    }
    let mut c: usize = 0;
    while c < k
        invariant
            c <= k,
            cur.deep_view() == subsets(c as nat),
        decreases k - c,
    {
        let mut next: Vec<Vec<bool>> = Vec::new();
        let ghost p = cur.deep_view();
        let mut i: usize = 0;
        while i < cur.len()
            invariant
                i <= cur.len(),
                p == cur.deep_view(),
                next@.len() == i,
                forall|j: int| 0 <= j < i ==> next@[j].deep_view() == p[j].push(false),
            decreases cur.len() - i,
        {
            let mut m = replicate_all(&cur[i]);
            let ghost before = m;
            m.push(false);
            proof {
                lemma_push_view(before, m, false);
            }
            next.push(m);
            i += 1;
        }
        let mut i2: usize = 0;
        while i2 < cur.len()
            invariant
                i2 <= cur.len(),
                p == cur.deep_view(),
                next@.len() == cur.len() + i2,
                forall|j: int| 0 <= j < cur.len() ==> next@[j].deep_view() == p[j].push(false),
                forall|j: int|
                    cur.len() <= j < cur.len() + i2 ==> next@[j].deep_view() == p[j
                        - cur.len()].push(true),
            decreases cur.len() - i2,
        {
            let mut m = replicate_all(&cur[i2]);
            let ghost before = m;
            m.push(true);
            proof {
                lemma_push_view(before, m, true);
            }
            next.push(m);
            i2 += 1;
        }
        assert(next.deep_view() =~= subsets((c + 1) as nat));
        cur = next;
        c += 1;
    }
    cur
}

/// The required fields and the optional fields that `mask` marks.
fn select_fields(fields: &Vec<ShapeField>, mask: &Vec<bool>) -> (r: Vec<ShapeField>)
    ensures
        r.deep_view() == selected(fields.deep_view(), mask.deep_view(), fields.len() as nat),
{
    let mut r: Vec<ShapeField> = Vec::new();
    let mut pos: usize = 0;
    let mut i: usize = 0;
    assert(r.deep_view() =~= Seq::<FieldModel>::empty());
    while i < fields.len()
        invariant
            i <= fields.len(),
            pos <= i,
            pos == optional_count(fields.deep_view(), i as nat),
            r.deep_view() == selected(fields.deep_view(), mask.deep_view(), i as nat),
        decreases fields.len() - i,
    {
        let f = &fields[i];
        if f.is_required {
            let nf = f.replicate();
            let ghost before = r;
            let ghost added = nf;
            r.push(nf);
            proof {
                lemma_push_view(before, r, added);
            }
        } else {
            if pos < mask.len() && mask[pos] {
                let nf = ShapeField {
                    name: f.name.clone(),
                    field_type: unwrap_option(f.field_type.as_str()),
                    is_required: true,
                };
                let ghost before = r;
                let ghost added = nf;
                r.push(nf);
                proof {
                    lemma_push_view(before, r, added);
                }
            }
            pos += 1;
        }
        i += 1;
    }
    r
}

/// The shapes of one shape with optional fields.
fn expand_optionals_of(base: &Shape) -> (r: Vec<Shape>)
    ensures
        r.deep_view() == optional_variants(base.deep_view()),
{
    let k = count_optional(&base.fields);
    let masks = all_subsets(k);
    let mut r: Vec<Shape> = Vec::new();
    let mut i: usize = 0;
    while i < masks.len()
        invariant
            i <= masks.len(),
            masks.deep_view() == subsets(optional_count(base.fields.deep_view(), base.fields.len() as nat)),
            r@.len() == i,
            forall|j: int|
                0 <= j < i ==> r@[j].deep_view() == (ShapeModel {
                    fields: selected(
                        base.fields.deep_view(),
                        masks.deep_view()[j],
                        base.fields.len() as nat,
                    ),
                    meta: base.metadata.deep_view(),
                }),
        decreases masks.len() - i,
    {
        let fields = select_fields(&base.fields, &masks[i]);
        r.push(Shape { fields, metadata: base.metadata.replicate() });
        i += 1;
    }
    assert(r.deep_view() =~= optional_variants(base.deep_view()));
    r
}

/// The shapes of every shape, in order.
fn expand_optionals(bases: &Vec<Shape>) -> (r: Vec<Shape>)
    ensures
        r.deep_view() == expand_all_optionals(bases.deep_view(), bases.len() as nat),
{
    let mut r: Vec<Shape> = Vec::new();
    let mut i: usize = 0;
    assert(r.deep_view() =~= Seq::<ShapeModel>::empty());
    while i < bases.len()
        invariant
            i <= bases.len(),
            r.deep_view() == expand_all_optionals(bases.deep_view(), i as nat),
        decreases bases.len() - i,
    {
        let mut part = expand_optionals_of(&bases[i]);
        append_shapes(&mut r, &mut part);
        i += 1;
    }
    r
}

/// Moves the shapes of `more` to the end of `all`.
pub fn append_shapes(all: &mut Vec<Shape>, more: &mut Vec<Shape>)
    ensures
        final(all).deep_view() == old(all).deep_view() + old(more).deep_view(),
        final(more)@.len() == 0,
{
    let ghost a = all.deep_view();
    let ghost b = more.deep_view();
    all.append(more);
    assert(all.deep_view() =~= a + b);
}

/// The shapes of one variant, with the discriminator in front for a tagged union.
fn tag_shapes(shapes: Vec<Shape>, variant_name: &str, untagged: bool) -> (r: Vec<Shape>)
    ensures
        r.deep_view() == tag_all(shapes.deep_view(), variant_name@, untagged),
{
    if untagged {
        return shapes;
    }
    let mut r: Vec<Shape> = Vec::new();
    let mut i: usize = 0;
    while i < shapes.len()
        invariant
            i <= shapes.len(),
            r@.len() == i,
            forall|j: int|
                0 <= j < i ==> r@[j].deep_view() == (ShapeModel {
                    fields: seq![tag_field(variant_name@)] + shapes@[j].deep_view().fields,
                    meta: shapes@[j].deep_view().meta,
                }),
        decreases shapes.len() - i,
    {
        let mut fields: Vec<ShapeField> = Vec::new();
        fields.push(make_tag_field(variant_name));
        let mut rest = replicate_all(&shapes[i].fields);
        let ghost a = fields.deep_view();
        let ghost b = rest.deep_view();
        fields.append(&mut rest);
        assert(fields.deep_view() =~= a + b);
        assert(a =~= seq![tag_field(variant_name@)]);
        r.push(Shape { fields, metadata: shapes[i].metadata.replicate() });
        i += 1;
    }
    assert(r.deep_view() =~= tag_all(shapes.deep_view(), variant_name@, untagged));
    r
}

/// The discriminator field of a tagged union's variant.
fn make_tag_field(variant_name: &str) -> (r: ShapeField)
    ensures
        r.deep_view() == tag_field(variant_name@),
{
    ShapeField {
        name: String::from_str("tag"),
        field_type: concat3("\"", variant_name, "\""),
        is_required: true,
    }
}

/// Expands declarations into shapes, against a table of known declarations.
/// The trace flag is kept for the caller, who prints what it wants to see:
/// the expander itself writes nothing, and the flag decides nothing.
pub struct ShapeExpander {
    verbose: bool,
    known_types: Vec<TypeInfo>,
}

impl ShapeExpander {
    /// The table of known declarations.
    pub closed spec fn known(&self) -> Seq<TypeDecl> {
        self.known_types.deep_view()
    }

    /// Whether trace output was asked for.
    pub closed spec fn is_verbose(&self) -> bool {
        self.verbose
    }

    /// An expander that knows no declaration.
    pub fn new() -> (r: Self)
        ensures
            r.known() == Seq::<TypeDecl>::empty(),
            !r.is_verbose(),
    {
        let r = ShapeExpander { verbose: false, known_types: Vec::new() };
        assert(r.known_types.deep_view() =~= Seq::<TypeDecl>::empty());
        r
    }

    /// An expander that knows no declaration, with the trace flag as given.
    pub fn with_verbose(verbose: bool) -> (r: Self)
        ensures
            r.known() == Seq::<TypeDecl>::empty(),
            r.is_verbose() == verbose,
    {
        let r = ShapeExpander { verbose, known_types: Vec::new() };
        assert(r.known_types.deep_view() =~= Seq::<TypeDecl>::empty());
        r
    }

    /// Sets the trace flag; the table stays.
    pub fn set_verbose(&mut self, verbose: bool)
        ensures
            final(self).is_verbose() == verbose,
            final(self).known() == old(self).known(),
    {
        self.verbose = verbose;
    }

    /// Replaces the table of known declarations.
    pub fn set_known_types(&mut self, known_types: Vec<TypeInfo>)
        ensures
            final(self).known() == known_types.deep_view(),
            final(self).is_verbose() == old(self).is_verbose(),
    {
        self.known_types = known_types;
    }

    /// The shapes of a declaration.
    pub fn expand_type(&self, type_info: &TypeInfo, verbose: bool) -> (r: Vec<Shape>)
        ensures
            r.deep_view() == expand_decl(self.known(), type_info.deep_view()),
    {
        let depth = self.known_types.len();
        match &type_info.kind {
            TypeKind::Struct { fields } => self.fields_to(fields, depth),
            TypeKind::Enum { info } => self.variants_to(&info.variants, info.is_untagged, depth),
        }
    }

    /// The shapes of a list of fields, as of a record. A record with `k`
    /// optional fields has `2^k` shapes: time and memory grow with that
    /// number, and nothing here limits it.
    pub fn expand_struct_shapes(&self, fields: &Vec<FieldInfo>) -> (r: Vec<Shape>)
        ensures
            r.deep_view() == expand_fields(
                self.known(),
                fields.deep_view(),
                self.known().len(),
            ),
    {
        self.fields_to(fields, self.known_types.len())
    }

    /// The shapes of the variants of a union.
    pub fn expand_enum_shapes(&self, variants: &Vec<VariantInfo>, is_untagged: bool) -> (r: Vec<
        Shape,
    >)
        ensures
            r.deep_view() == expand_variants(
                self.known(),
                variants.deep_view(),
                variants.len() as nat,
                is_untagged,
                self.known().len(),
            ),
    {
        self.variants_to(variants, is_untagged, self.known_types.len())
    }

    /// The common fields of a set of shapes: the fields whose name stands in
    /// every shape, each required and with the type that the last shape
    /// gives it.
    pub fn find_common_fields(&self, shapes: &Vec<Shape>) -> (r: Vec<ShapeField>)
        ensures
            r.deep_view() == crate::common::common_latest(shapes.deep_view()),
    {
        crate::common::find_common_latest(shapes)
    }

    /// Every shape without the fields that are common.
    pub fn remove_common_fields(&self, shapes: &Vec<Shape>, common_fields: &Vec<ShapeField>) -> (r:
        Vec<Shape>)
        ensures
            r.deep_view() == crate::common::residuals(
                shapes.deep_view(),
                common_fields.deep_view(),
            ),
    {
        crate::common::remove_common(shapes, common_fields)
    }

    /// A type without its optional wrapper, if it has one.
    pub fn unwrap_option_type(&self, ty: &str) -> (r: String)
        ensures
            r@ == unwrapped(ty@),
    {
        unwrap_option(ty)
    }

    /// The variants of the known untagged union named `ty`.
    fn untagged_variants(&self, ty: &str) -> (r: Option<&Vec<VariantInfo>>)
        ensures
            r.deep_view() == untagged_union(self.known(), ty@),
    {
        match find_known(&self.known_types, ty) {
            Some(k) => match &self.known_types[k].kind {
                TypeKind::Enum { info } => if info.is_untagged {
                    Some(&info.variants)
                } else {
                    None
                },
                TypeKind::Struct { .. } => None,
            },
            None => None,
        }
    }

    #[verifier::loop_isolation(false)]
    fn bases_to(&self, fields: &Vec<FieldInfo>, depth: usize) -> (r: Vec<Shape>)
        ensures
            r.deep_view() == base_shapes(
                self.known(),
                fields.deep_view(),
                fields.len() as nat,
                depth as nat,
            ),
        decreases depth, 1nat,
    {
        let mut bases: Vec<Shape> = Vec::new();
        bases.push(Shape { fields: Vec::new(), metadata: ShapeMetadata::new() });
        assert(bases.deep_view() =~= seq![empty_shape()]) by {
            assert(bases@[0].fields.deep_view() =~= Seq::<FieldModel>::empty());
        }
        let mut i: usize = 0;
        while i < fields.len()
            invariant
                i <= fields.len(),
                bases.deep_view() == base_shapes(
                    self.known(),
                    fields.deep_view(),
                    i as nat,
                    depth as nat,
                ),
            decreases fields.len() - i,
        {
            let f = &fields[i];
            let ty = if f.is_optional {
                unwrap_option(f.field_type.as_str())
            } else {
                f.field_type.clone()
            };
            let union = if depth > 0 {
                self.untagged_variants(ty.as_str())
            } else {
                None
            };
            match union {
                Some(variants) => {
                    let inlined = self.variants_to(variants, true, depth - 1);
                    bases = branch(&bases, f, ty.as_str(), &inlined);
                },
                None => {
                    bases = append_field_to_all(&bases, f);
                },
            }
            i += 1;
        }
        bases
    }

    fn fields_to(&self, fields: &Vec<FieldInfo>, depth: usize) -> (r: Vec<Shape>)
        ensures
            r.deep_view() == expand_fields(self.known(), fields.deep_view(), depth as nat),
        decreases depth, 2nat,
    {
        let bases = self.bases_to(fields, depth);
        expand_optionals(&bases)
    }

    #[verifier::loop_isolation(false)]
    fn variants_to(&self, variants: &Vec<VariantInfo>, untagged: bool, depth: usize) -> (r: Vec<
        Shape,
    >)
        ensures
            r.deep_view() == expand_variants(
                self.known(),
                variants.deep_view(),
                variants.len() as nat,
                untagged,
                depth as nat,
            ),
        decreases depth, 3nat,
    {
        let mut all: Vec<Shape> = Vec::new();
        assert(all.deep_view() =~= Seq::<ShapeModel>::empty());
        let mut i: usize = 0;
        while i < variants.len()
            invariant
                i <= variants.len(),
                all.deep_view() == expand_variants(
                    self.known(),
                    variants.deep_view(),
                    i as nat,
                    untagged,
                    depth as nat,
                ),
            decreases variants.len() - i,
        {
            let v = &variants[i];
            match &v.fields {
                Some(fs) => {
                    let shapes = self.fields_to(fs, depth);
                    let mut tagged = tag_shapes(shapes, v.name.as_str(), untagged);
                    append_shapes(&mut all, &mut tagged);
                },
                None => {
                    if !untagged {
                        let mut fields: Vec<ShapeField> = Vec::new();
                        fields.push(make_tag_field(v.name.as_str()));
                        assert(fields.deep_view() =~= seq![tag_field(v.name@)]);
                        let s = Shape { fields, metadata: ShapeMetadata::new() };
                        let ghost before = all;
                        let ghost added = s;
                        all.push(s);
                        proof {
                            lemma_push_view(before, all, added);
                        }
                    }
                },
            }
            i += 1;
        }
        all
    }
}

} // verus!
