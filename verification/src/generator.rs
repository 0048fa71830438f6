//! The decision of the optimizer, and the declarations it stands for.

use vstd::prelude::*;
use vstd::string::*;
use crate::optimizer::{ShapeVariant, VariantModel};
use crate::parser::{
    EnumInfo, FieldDecl, FieldInfo, KindDecl, TypeDecl, TypeInfo, TypeKind, UnionDecl,
    VariantDecl, VariantInfo,
};
use crate::views::lemma_push_view;
use crate::shape::{FieldModel, ShapeField};
use crate::text::{concat2, concat3};
use crate::typetext::{make_optional, optional_form};

verus! {

/// What the optimizer decides: a record, a union of variants beside common
/// fields, or a record together with the variants that an existing union
/// must gain.
#[derive(Debug)]
pub enum EvolutionResult {
    SimpleStruct { name: String, fields: Vec<ShapeField> },
    ComplexEnum { name: String, common_fields: Vec<ShapeField>, variants: Vec<ShapeVariant> },
    StructWithExtendedEnum {
        struct_name: String,
        struct_fields: Vec<ShapeField>,
        enum_name: String,
        new_enum_variants: Vec<ShapeVariant>,
    },
}

/// The mathematical value of an `EvolutionResult`.
pub enum ResultModel {
    Record { name: Seq<char>, fields: Seq<FieldModel> },
    Union { name: Seq<char>, common: Seq<FieldModel>, variants: Seq<VariantModel> },
    ExtendedUnion {
        record_name: Seq<char>,
        record_fields: Seq<FieldModel>,
        union_name: Seq<char>,
        new_variants: Seq<VariantModel>,
    },
}

impl DeepView for EvolutionResult {
    type V = ResultModel;

    open spec fn deep_view(&self) -> ResultModel {
        match self {
            EvolutionResult::SimpleStruct { name, fields } => ResultModel::Record {
                name: name@,
                fields: fields.deep_view(),
            },
            EvolutionResult::ComplexEnum { name, common_fields, variants } => ResultModel::Union {
                name: name@,
                common: common_fields.deep_view(),
                variants: variants.deep_view(),
            },
            EvolutionResult::StructWithExtendedEnum {
                struct_name,
                struct_fields,
                enum_name,
                new_enum_variants,
            } => ResultModel::ExtendedUnion {
                record_name: struct_name@,
                record_fields: struct_fields.deep_view(),
                union_name: enum_name@,
                new_variants: new_enum_variants.deep_view(),
            },
        }
    }
}

impl EvolutionResult {
    /// The decision for a record.
    pub fn simple_struct(name: &str, fields: Vec<ShapeField>) -> (r: Self)
        ensures
            r.deep_view() == (ResultModel::Record { name: name@, fields: fields.deep_view() }),
    {
        EvolutionResult::SimpleStruct { name: String::from_str(name), fields }
    }

    /// The decision for a union of variants beside common fields.
    pub fn complex_enum(
        name: &str,
        common_fields: Vec<ShapeField>,
        variants: Vec<ShapeVariant>,
    ) -> (r: Self)
        ensures
            r.deep_view() == (ResultModel::Union {
                name: name@,
                common: common_fields.deep_view(),
                variants: variants.deep_view(),
            }),
    {
        EvolutionResult::ComplexEnum { name: String::from_str(name), common_fields, variants }
    }

    /// The decision for a record whose union-typed field names an existing
    /// union that must gain the variants given.
    pub fn struct_with_extended_enum(
        struct_name: &str,
        struct_fields: Vec<ShapeField>,
        enum_name: &str,
        new_enum_variants: Vec<ShapeVariant>,
    ) -> (r: Self)
        ensures
            r.deep_view() == (ResultModel::ExtendedUnion {
                record_name: struct_name@,
                record_fields: struct_fields.deep_view(),
                union_name: enum_name@,
                new_variants: new_enum_variants.deep_view(),
            }),
    {
        EvolutionResult::StructWithExtendedEnum {
            struct_name: String::from_str(struct_name),
            struct_fields,
            enum_name: String::from_str(enum_name),
            new_enum_variants,
        }
    }
}

} // verus!

verus! {

/// The line of derives that stands above each declaration.
pub open spec fn derive_line() -> Seq<char> {
    "#[derive(Debug, Clone, serde::Serialize, serde::Deserialize)]\n"@
}

/// The type that a field is declared with: its type if it is required, else
/// its type made optional.
pub open spec fn emitted_type(f: FieldModel) -> Seq<char> {
    if f.required {
        f.ty
    } else {
        optional_form(f.ty)
    }
}

/// The line that declares a field, behind `prefix`.
pub open spec fn field_line(prefix: Seq<char>, f: FieldModel) -> Seq<char> {
    prefix + f.name + ": "@ + emitted_type(f) + ",\n"@
}

/// The lines that declare the first `n` fields.
pub open spec fn field_lines(prefix: Seq<char>, fields: Seq<FieldModel>, n: nat) -> Seq<char>
    decreases n,
{
    if n == 0 || n > fields.len() {
        Seq::empty()
    } else {
        field_lines(prefix, fields, (n - 1) as nat) + field_line(prefix, fields[n - 1])
    }
}

/// The lines that open a record declaration.
pub open spec fn record_open(name: Seq<char>) -> Seq<char> {
    derive_line() + "pub struct "@ + name + " {\n"@
}

/// The text of a record declaration.
pub open spec fn struct_text(name: Seq<char>, fields: Seq<FieldModel>) -> Seq<char> {
    record_open(name) + field_lines("    pub "@, fields, fields.len()) + "}\n"@
}

/// The lines by which a variant holds the common fields.
pub open spec fn base_lines(union_name: Seq<char>, with_base: bool) -> Seq<char> {
    if with_base {
        "        #[serde(flatten)]\n"@ + "        base: "@ + union_name + "Base,\n"@
    } else {
        Seq::empty()
    }
}

/// The text of one variant of a union; with common fields, the variant
/// holds them by its field `base`.
pub open spec fn variant_text(union_name: Seq<char>, with_base: bool, v: VariantModel) -> Seq<
    char,
> {
    "    "@ + v.name + " {\n"@ + base_lines(union_name, with_base) + field_lines(
        "        "@,
        v.fields,
        v.fields.len(),
    ) + "    },\n"@
}

/// The text of the first `n` variants.
pub open spec fn variants_text(
    union_name: Seq<char>,
    with_base: bool,
    variants: Seq<VariantModel>,
    n: nat,
) -> Seq<char>
    decreases n,
{
    if n == 0 || n > variants.len() {
        Seq::empty()
    } else {
        variants_text(union_name, with_base, variants, (n - 1) as nat) + variant_text(
            union_name,
            with_base,
            variants[n - 1],
        )
    }
}

/// The variant that carries the one optional payload, where a union is
/// really a record with one: there are common fields and exactly two
/// variants, one of them without fields.
pub open spec fn payload_variant(common: Seq<FieldModel>, variants: Seq<VariantModel>) -> Option<
    int,
> {
    if common.len() > 0 && variants.len() == 2 {
        if variants[0].fields.len() == 0 && variants[1].fields.len() > 0 {
            Some(1int)
        } else if variants[1].fields.len() == 0 && variants[0].fields.len() > 0 {
            Some(0int)
        } else {
            None
        }
    } else {
        None
    }
}

/// The lines that declare the optional payload of a record.
pub open spec fn payload_lines(name: Seq<char>) -> Seq<char> {
    "    #[serde(flatten)]\n"@ + "    pub extra: Option<"@ + name + "Extra>,\n"@
}

/// The text of a record with one optional payload: the payload as a record
/// of its own, named with the suffix `Extra`, then the record with the
/// common fields and the payload as one optional field.
pub open spec fn payload_text(
    name: Seq<char>,
    common: Seq<FieldModel>,
    payload: Seq<FieldModel>,
) -> Seq<char> {
    struct_text(name + "Extra"@, payload) + "\n"@ + record_open(name) + field_lines(
        "    pub "@,
        common,
        common.len(),
    ) + payload_lines(name) + "}\n"@
}

/// The text of the record of the common fields, named with the suffix
/// `Base`; nothing where there are no common fields.
pub open spec fn base_text(name: Seq<char>, common: Seq<FieldModel>) -> Seq<char> {
    if common.len() > 0 {
        struct_text(name + "Base"@, common) + "\n"@
    } else {
        Seq::empty()
    }
}

/// The lines that open the declaration of an untagged union.
pub open spec fn union_open(name: Seq<char>) -> Seq<char> {
    derive_line() + "#[serde(untagged)]\n"@ + "pub enum "@ + name + " {\n"@
}

/// The text of an untagged union beside the record of its common fields.
pub open spec fn plain_union_text(
    name: Seq<char>,
    common: Seq<FieldModel>,
    variants: Seq<VariantModel>,
) -> Seq<char> {
    base_text(name, common) + union_open(name) + variants_text(
        name,
        common.len() > 0,
        variants,
        variants.len(),
    ) + "}\n"@
}

/// The text of a union beside common fields: a record with one optional
/// payload where the union is really that, else an untagged union each of
/// whose variants holds the common fields and its own.
pub open spec fn union_text(
    name: Seq<char>,
    common: Seq<FieldModel>,
    variants: Seq<VariantModel>,
) -> Seq<char> {
    match payload_variant(common, variants) {
        Some(k) => payload_text(name, common, variants[k].fields),
        None => plain_union_text(name, common, variants),
    }
}

/// The text of the declarations that a decision stands for. For a record
/// beside an extended union, the text of the record alone.
pub open spec fn result_text(r: ResultModel) -> Seq<char> {
    match r {
        ResultModel::Record { name, fields } => struct_text(name, fields),
        ResultModel::Union { name, common, variants } => union_text(name, common, variants),
        ResultModel::ExtendedUnion { record_name, record_fields, .. } => struct_text(
            record_name,
            record_fields,
        ),
    }
}

/// Appends the line that declares a field.
fn push_field_line(out: &mut String, prefix: &str, f: &ShapeField)
    ensures
        final(out)@ == old(out)@ + field_line(prefix@, f.deep_view()),
{
    out.append(prefix);
    out.append(f.name.as_str());
    out.append(": ");
    if f.is_required {
        out.append(f.field_type.as_str());
    } else {
        let ty = make_optional(f.field_type.as_str());
        out.append(ty.as_str());
    }
    out.append(",\n");
    assert(out@ =~= old(out)@ + field_line(prefix@, f.deep_view()));
}

/// Appends the lines that declare the fields.
fn push_field_lines(out: &mut String, prefix: &str, fields: &Vec<ShapeField>)
    ensures
        final(out)@ == old(out)@ + field_lines(prefix@, fields.deep_view(), fields.len() as nat),
{
    let mut i: usize = 0;
    assert(out@ =~= old(out)@ + field_lines(prefix@, fields.deep_view(), 0));
    while i < fields.len()
        invariant
            i <= fields.len(),
            out@ == old(out)@ + field_lines(prefix@, fields.deep_view(), i as nat),
        decreases fields.len() - i,
    {
        push_field_line(out, prefix, &fields[i]);
        assert(out@ =~= old(out)@ + field_lines(prefix@, fields.deep_view(), (i + 1) as nat));
        i += 1;
    }
}

/// Appends the lines that open a record declaration.
fn push_record_open(out: &mut String, name: &str)
    ensures
        final(out)@ == old(out)@ + record_open(name@),
{
    out.append("#[derive(Debug, Clone, serde::Serialize, serde::Deserialize)]\n");
    out.append("pub struct ");
    out.append(name);
    out.append(" {\n");
    assert(out@ =~= old(out)@ + record_open(name@));
}

/// Appends the text of a record declaration.
fn push_struct(out: &mut String, name: &str, fields: &Vec<ShapeField>)
    ensures
        final(out)@ == old(out)@ + struct_text(name@, fields.deep_view()),
{
    push_record_open(out, name);
    push_field_lines(out, "    pub ", fields);
    out.append("}\n");
    assert(out@ =~= old(out)@ + struct_text(name@, fields.deep_view()));
}

/// Appends the lines by which a variant holds the common fields.
fn push_base_lines(out: &mut String, union_name: &str, with_base: bool)
    ensures
        final(out)@ == old(out)@ + base_lines(union_name@, with_base),
{
    if with_base {
        out.append("        #[serde(flatten)]\n");
        out.append("        base: ");
        out.append(union_name);
        out.append("Base,\n");
    }
    assert(out@ =~= old(out)@ + base_lines(union_name@, with_base));
}

/// Appends the text of one variant of a union.
fn push_variant(out: &mut String, union_name: &str, with_base: bool, v: &ShapeVariant)
    ensures
        final(out)@ == old(out)@ + variant_text(union_name@, with_base, v.deep_view()),
{
    out.append("    ");
    out.append(v.name.as_str());
    out.append(" {\n");
    push_base_lines(out, union_name, with_base);
    push_field_lines(out, "        ", &v.fields);
    out.append("    },\n");
    assert(out@ =~= old(out)@ + variant_text(union_name@, with_base, v.deep_view()));
}

/// Appends the text of the variants.
fn push_variants(out: &mut String, union_name: &str, with_base: bool, variants: &Vec<ShapeVariant>)
    ensures
        final(out)@ == old(out)@ + variants_text(
            union_name@,
            with_base,
            variants.deep_view(),
            variants.len() as nat,
        ),
{
    let mut i: usize = 0;
    assert(out@ =~= old(out)@ + variants_text(union_name@, with_base, variants.deep_view(), 0));
    while i < variants.len()
        invariant
            i <= variants.len(),
            out@ == old(out)@ + variants_text(
                union_name@,
                with_base,
                variants.deep_view(),
                i as nat,
            ),
        decreases variants.len() - i,
    {
        push_variant(out, union_name, with_base, &variants[i]);
        assert(out@ =~= old(out)@ + variants_text(
            union_name@,
            with_base,
            variants.deep_view(),
            (i + 1) as nat,
        ));
        i += 1;
    }
}

/// Which variant carries the one optional payload.
fn find_payload(common: &Vec<ShapeField>, variants: &Vec<ShapeVariant>) -> (r: Option<usize>)
    ensures
        match r {
            Some(k) => payload_variant(common.deep_view(), variants.deep_view()) == Some(k as int)
                && k < variants.len(),
            None => payload_variant(common.deep_view(), variants.deep_view()) is None,
        },
{
    if common.len() > 0 && variants.len() == 2 {
        if variants[0].fields.len() == 0 && variants[1].fields.len() > 0 {
            Some(1)
        } else if variants[1].fields.len() == 0 && variants[0].fields.len() > 0 {
            Some(0)
        } else {
            None
        }
    } else {
        None
    }
}

/// Appends the lines that declare the optional payload of a record.
fn push_payload_lines(out: &mut String, name: &str)
    ensures
        final(out)@ == old(out)@ + payload_lines(name@),
{
    out.append("    #[serde(flatten)]\n");
    out.append("    pub extra: Option<");
    out.append(name);
    out.append("Extra>,\n");
    assert(out@ =~= old(out)@ + payload_lines(name@));
}

/// Appends the text of a record with one optional payload.
fn push_payload_record(
    out: &mut String,
    name: &str,
    common: &Vec<ShapeField>,
    payload: &Vec<ShapeField>,
)
    ensures
        final(out)@ == old(out)@ + payload_text(name@, common.deep_view(), payload.deep_view()),
{
    let extra = concat2(name, "Extra");
    push_struct(out, extra.as_str(), payload);
    out.append("\n");
    push_record_open(out, name);
    push_field_lines(out, "    pub ", common);
    push_payload_lines(out, name);
    out.append("}\n");
    assert(out@ =~= old(out)@ + payload_text(name@, common.deep_view(), payload.deep_view()));
}

/// Appends the text of the record of the common fields.
fn push_base(out: &mut String, name: &str, common: &Vec<ShapeField>)
    ensures
        final(out)@ == old(out)@ + base_text(name@, common.deep_view()),
{
    if common.len() > 0 {
        let base = concat2(name, "Base");
        push_struct(out, base.as_str(), common);
        out.append("\n");
    }
    assert(out@ =~= old(out)@ + base_text(name@, common.deep_view()));
}

/// Appends the lines that open the declaration of an untagged union.
fn push_union_open(out: &mut String, name: &str)
    ensures
        final(out)@ == old(out)@ + union_open(name@),
{
    out.append("#[derive(Debug, Clone, serde::Serialize, serde::Deserialize)]\n");
    out.append("#[serde(untagged)]\n");
    out.append("pub enum ");
    out.append(name);
    out.append(" {\n");
    assert(out@ =~= old(out)@ + union_open(name@));
}

/// Appends the text of a union beside common fields.
fn push_union(
    out: &mut String,
    name: &str,
    common: &Vec<ShapeField>,
    variants: &Vec<ShapeVariant>,
)
    ensures
        final(out)@ == old(out)@ + union_text(name@, common.deep_view(), variants.deep_view()),
{
    match find_payload(common, variants) {
        Some(k) => {
            push_payload_record(out, name, common, &variants[k].fields);
        },
        None => {
            push_base(out, name, common);
            push_union_open(out, name);
            push_variants(out, name, common.len() > 0, variants);
            out.append("}\n");
            assert(out@ =~= old(out)@ + plain_union_text(
                name@,
                common.deep_view(),
                variants.deep_view(),
            ));
        },
    }
}

impl EvolutionResult {
    /// The text of the declarations that the decision stands for.
    pub fn generate_rust_code(&self) -> (r: String)
        ensures
            r@ == result_text(self.deep_view()),
    {
        match self {
            EvolutionResult::SimpleStruct { name, fields } => self.generate_struct_code(
                name.as_str(),
                fields,
            ),
            EvolutionResult::ComplexEnum {
                name,
                common_fields,
                variants,
            } => self.generate_complex_enum_code(name.as_str(), common_fields, variants),
            EvolutionResult::StructWithExtendedEnum {
                struct_name,
                struct_fields,
                enum_name,
                new_enum_variants,
            } => self.generate_struct_with_extended_enum_code(
                struct_name.as_str(),
                struct_fields,
                enum_name.as_str(),
                new_enum_variants,
            ),
        }
    }

    /// The text of a record declaration.
    pub fn generate_struct_code(&self, name: &str, fields: &Vec<ShapeField>) -> (r: String)
        ensures
            r@ == struct_text(name@, fields.deep_view()),
    {
        let mut out = String::new();
        push_struct(&mut out, name, fields);
        assert(out@ =~= struct_text(name@, fields.deep_view()));
        out
    }

    /// The text of a union beside common fields.
    pub fn generate_complex_enum_code(
        &self,
        name: &str,
        common_fields: &Vec<ShapeField>,
        variants: &Vec<ShapeVariant>,
    ) -> (r: String)
        ensures
            r@ == union_text(name@, common_fields.deep_view(), variants.deep_view()),
    {
        let mut out = String::new();
        push_union(&mut out, name, common_fields, variants);
        assert(out@ =~= union_text(name@, common_fields.deep_view(), variants.deep_view()));
        out
    }

    /// The text of the record of a record beside an extended union; the
    /// variants that the union must gain are for the caller to add to it.
    pub fn generate_struct_with_extended_enum_code(
        &self,
        struct_name: &str,
        struct_fields: &Vec<ShapeField>,
        enum_name: &str,
        new_enum_variants: &Vec<ShapeVariant>,
    ) -> (r: String)
        ensures
            r@ == struct_text(struct_name@, struct_fields.deep_view()),
    {
        self.generate_struct_code(struct_name, struct_fields)
    }
}

} // verus!

verus! {

/// The field of a declaration that a field of a decision gives: under the
/// type that it is declared with, optional unless it is required.
pub open spec fn decl_field(f: FieldModel) -> FieldDecl {
    FieldDecl { name: f.name, ty: emitted_type(f), optional: !f.required }
}

/// The fields of a declaration that the fields of a decision give.
pub open spec fn decl_fields(fields: Seq<FieldModel>) -> Seq<FieldDecl> {
    Seq::new(fields.len(), |i: int| decl_field(fields[i]))
}

/// A record declaration whose place in a source text is not known.
pub open spec fn record_decl(name: Seq<char>, fields: Seq<FieldDecl>) -> TypeDecl {
    TypeDecl { name: name, kind: KindDecl::Record { fields: fields }, span: None }
}

/// The field by which a record holds its optional payload.
pub open spec fn payload_decl_field(name: Seq<char>) -> FieldDecl {
    FieldDecl { name: "extra"@, ty: "Option<"@ + name + "Extra>"@, optional: true }
}

/// The field by which a variant holds the common fields.
pub open spec fn base_decl_field(name: Seq<char>) -> FieldDecl {
    FieldDecl { name: "base"@, ty: name + "Base"@, optional: false }
}

/// The variant of a declared union: with common fields, the variant holds
/// them by its field `base`, in front of its own fields.
pub open spec fn variant_decl_of(union_name: Seq<char>, with_base: bool, v: VariantModel) -> VariantDecl {
    VariantDecl {
        name: v.name,
        fields: Some(
            (if with_base {
                seq![base_decl_field(union_name)]
            } else {
                Seq::empty()
            }) + decl_fields(v.fields),
        ),
    }
}

/// The variants of a declared union.
pub open spec fn variant_decls_of(
    union_name: Seq<char>,
    with_base: bool,
    variants: Seq<VariantModel>,
) -> Seq<VariantDecl> {
    Seq::new(variants.len(), |i: int| variant_decl_of(union_name, with_base, variants[i]))
}

/// The declarations that a union beside common fields stands for: where
/// the union is really a record with one optional payload, the payload as a
/// record named with the suffix `Extra` and the record of the common fields
/// with the payload as one optional field; else the record of the common
/// fields, named with the suffix `Base`, if there are any, and the untagged
/// union.
pub open spec fn union_decls(
    name: Seq<char>,
    common: Seq<FieldModel>,
    variants: Seq<VariantModel>,
) -> Seq<TypeDecl> {
    match payload_variant(common, variants) {
        Some(k) => seq![
            record_decl(name + "Extra"@, decl_fields(variants[k].fields)),
            record_decl(name, decl_fields(common).push(payload_decl_field(name))),
        ],
        None => (if common.len() > 0 {
            seq![record_decl(name + "Base"@, decl_fields(common))]
        } else {
            Seq::empty()
        }).push(
            TypeDecl {
                name: name,
                kind: KindDecl::Union {
                    info: UnionDecl {
                        variants: variant_decls_of(name, common.len() > 0, variants),
                        untagged: true,
                    },
                },
                span: None,
            },
        ),
    }
}

/// The declarations that a decision stands for. For a record beside an
/// extended union, the record alone: the variants that the union must gain
/// are for the caller to add to the declaration it holds.
pub open spec fn result_decls(r: ResultModel) -> Seq<TypeDecl> {
    match r {
        ResultModel::Record { name, fields } => seq![record_decl(name, decl_fields(fields))],
        ResultModel::Union { name, common, variants } => union_decls(name, common, variants),
        ResultModel::ExtendedUnion { record_name, record_fields, .. } => seq![
            record_decl(record_name, decl_fields(record_fields)),
        ],
    }
}

/// The fields of a declaration that the fields of a decision give.
fn declare_fields(fields: &Vec<ShapeField>) -> (r: Vec<FieldInfo>)
    ensures
        r.deep_view() == decl_fields(fields.deep_view()),
{
    let mut r: Vec<FieldInfo> = Vec::new();
    let mut i: usize = 0;
    while i < fields.len()
        invariant
            i <= fields.len(),
            r@.len() == i,
            forall|j: int| 0 <= j < i ==> r@[j].deep_view() == decl_field(fields@[j].deep_view()),
        decreases fields.len() - i,
    {
        let f = &fields[i];
        let ty = if f.is_required {
            f.field_type.clone()
        } else {
            make_optional(f.field_type.as_str())
        };
        r.push(FieldInfo { name: f.name.clone(), field_type: ty, is_optional: !f.is_required });
        i += 1;
    }
    assert(r.deep_view() =~= decl_fields(fields.deep_view()));
    r
}

/// A record declaration whose place in a source text is not known.
fn declare_record(name: String, fields: Vec<FieldInfo>) -> (r: TypeInfo)
    ensures
        r.deep_view() == record_decl(name@, fields.deep_view()),
{
    TypeInfo { name, kind: TypeKind::Struct { fields }, span: None }
}

/// The variants of a declared union.
fn declare_variants(union_name: &str, with_base: bool, variants: &Vec<ShapeVariant>) -> (r: Vec<
    VariantInfo,
>)
    ensures
        r.deep_view() == variant_decls_of(union_name@, with_base, variants.deep_view()),
{
    let mut r: Vec<VariantInfo> = Vec::new();
    let mut i: usize = 0;
    while i < variants.len()
        invariant
            i <= variants.len(),
            r@.len() == i,
            forall|j: int|
                0 <= j < i ==> r@[j].deep_view() == variant_decl_of(
                    union_name@,
                    with_base,
                    variants@[j].deep_view(),
                ),
        decreases variants.len() - i,
    {
        let mut fields: Vec<FieldInfo> = Vec::new();
        assert(fields.deep_view() =~= Seq::<FieldDecl>::empty());
        if with_base {
            fields.push(
                FieldInfo {
                    name: String::from_str("base"),
                    field_type: concat2(union_name, "Base"),
                    is_optional: false,
                },
            );
            assert(fields.deep_view() =~= seq![base_decl_field(union_name@)]);
        }
        let mut own = declare_fields(&variants[i].fields);
        let ghost a = fields.deep_view();
        let ghost b = own.deep_view();
        fields.append(&mut own);
        assert(fields.deep_view() =~= a + b);
        r.push(VariantInfo { name: variants[i].name.clone(), fields: Some(fields) });
        i += 1;
    }
    assert(r.deep_view() =~= variant_decls_of(union_name@, with_base, variants.deep_view()));
    r
}

impl EvolutionResult {
    /// The declarations that the decision stands for.
    pub fn declarations(&self) -> (r: Vec<TypeInfo>)
        ensures
            r.deep_view() == result_decls(self.deep_view()),
    {
        let mut r: Vec<TypeInfo> = Vec::new();
        match self {
            EvolutionResult::SimpleStruct { name, fields } => {
                r.push(declare_record(name.clone(), declare_fields(fields)));
                assert(r.deep_view() =~= result_decls(self.deep_view()));
            },
            EvolutionResult::ComplexEnum { name, common_fields, variants } => {
                match find_payload(common_fields, variants) {
                    Some(k) => {
                        r.push(
                            declare_record(
                                concat2(name.as_str(), "Extra"),
                                declare_fields(&variants[k].fields),
                            ),
                        );
                        let mut fields = declare_fields(common_fields);
                        let extra = FieldInfo {
                            name: String::from_str("extra"),
                            field_type: concat3("Option<", name.as_str(), "Extra>"),
                            is_optional: true,
                        };
                        let ghost before = fields;
                        let ghost added = extra;
                        fields.push(extra);
                        proof {
                            lemma_push_view(before, fields, added);
                        }
                        r.push(declare_record(name.clone(), fields));
                        assert(r.deep_view() =~= result_decls(self.deep_view()));
                    },
                    None => {
                        let with_base = common_fields.len() > 0;
                        if with_base {
                            r.push(
                                declare_record(
                                    concat2(name.as_str(), "Base"),
                                    declare_fields(common_fields),
                                ),
                            );
                        }
                        let info = EnumInfo {
                            variants: declare_variants(name.as_str(), with_base, variants),
                            is_untagged: true,
                        };
                        r.push(
                            TypeInfo { name: name.clone(), kind: TypeKind::Enum { info }, span: None },
                        );
                        assert(r.deep_view() =~= result_decls(self.deep_view()));
                    },
                }
            },
            EvolutionResult::StructWithExtendedEnum { struct_name, struct_fields, .. } => {
                r.push(declare_record(struct_name.clone(), declare_fields(struct_fields)));
                assert(r.deep_view() =~= result_decls(self.deep_view()));
            },
        }
        r
    }
}

} // verus!
