//! The declaration table: what the library knows of the records and unions
//! that a source file declares.

use vstd::prelude::*;
use vstd::string::*;
use crate::error::EvolutionError;
use crate::spans::{definition_end, definition_start, find_definition_end, find_definition_start};
use crate::syntax::{
    parsed_items, read_items, syn_error_text, SynAttribute, SynField, SynFields, SynItem, SynType,
    SynVariant,
};
use crate::text::{
    concat2, concat3, contains, contains_text, find_in, find_text, is_blank, is_prefix, same_text,
    starts_with, to_chars, trim,
};
use crate::views::{lemma_push_view, replicate_all, Replicate};

verus! {

/// One field of a declaration.
#[derive(Debug, Clone)]
pub struct FieldInfo {
    pub name: String,
    pub field_type: String,
    pub is_optional: bool,
}

/// The mathematical value of a `FieldInfo`.
pub struct FieldDecl {
    pub name: Seq<char>,
    pub ty: Seq<char>,
    pub optional: bool,
}

/// One variant of a union; a variant without fields is a unit variant.
#[derive(Debug, Clone)]
pub struct VariantInfo {
    pub name: String,
    pub fields: Option<Vec<FieldInfo>>,
}

/// The mathematical value of a `VariantInfo`.
pub struct VariantDecl {
    pub name: Seq<char>,
    pub fields: Option<Seq<FieldDecl>>,
}

/// The variants of a union, and whether it is untagged.
#[derive(Debug, Clone)]
pub struct EnumInfo {
    pub variants: Vec<VariantInfo>,
    pub is_untagged: bool,
}

/// The mathematical value of an `EnumInfo`.
pub struct UnionDecl {
    pub variants: Seq<VariantDecl>,
    pub untagged: bool,
}

/// A record or a union.
#[derive(Debug, Clone)]
pub enum TypeKind {
    Struct { fields: Vec<FieldInfo> },
    Enum { info: EnumInfo },
}

/// The mathematical value of a `TypeKind`.
pub enum KindDecl {
    Record { fields: Seq<FieldDecl> },
    Union { info: UnionDecl },
}

/// A declaration: its name, what it declares, and where it stands in the
/// source text (positions in characters), if that is known.
#[derive(Debug, Clone)]
pub struct TypeInfo {
    pub name: String,
    pub kind: TypeKind,
    pub span: Option<(usize, usize)>,
}

/// The mathematical value of a `TypeInfo`.
pub struct TypeDecl {
    pub name: Seq<char>,
    pub kind: KindDecl,
    pub span: Option<(usize, usize)>,
}

impl DeepView for FieldInfo {
    type V = FieldDecl;

    open spec fn deep_view(&self) -> FieldDecl {
        FieldDecl { name: self.name@, ty: self.field_type@, optional: self.is_optional }
    }
}

impl DeepView for VariantInfo {
    type V = VariantDecl;

    open spec fn deep_view(&self) -> VariantDecl {
        VariantDecl { name: self.name@, fields: self.fields.deep_view() }
    }
}

impl DeepView for EnumInfo {
    type V = UnionDecl;

    open spec fn deep_view(&self) -> UnionDecl {
        UnionDecl { variants: self.variants.deep_view(), untagged: self.is_untagged }
    }
}

impl DeepView for TypeKind {
    type V = KindDecl;

    open spec fn deep_view(&self) -> KindDecl {
        match self {
            TypeKind::Struct { fields } => KindDecl::Record { fields: fields.deep_view() },
            TypeKind::Enum { info } => KindDecl::Union { info: info.deep_view() },
        }
    }
}

impl DeepView for TypeInfo {
    type V = TypeDecl;

    open spec fn deep_view(&self) -> TypeDecl {
        TypeDecl { name: self.name@, kind: self.kind.deep_view(), span: self.span }
    }
}

impl Replicate for FieldInfo {
    fn replicate(&self) -> (r: FieldInfo) {
        FieldInfo {
            name: self.name.clone(),
            field_type: self.field_type.clone(),
            is_optional: self.is_optional,
        }
    }
}

impl Replicate for VariantInfo {
    fn replicate(&self) -> (r: VariantInfo) {
        let fields = match &self.fields {
            Some(fs) => Some(replicate_all(fs)),
            None => None,
        };
        VariantInfo { name: self.name.clone(), fields }
    }
}

impl Replicate for EnumInfo {
    fn replicate(&self) -> (r: EnumInfo) {
        EnumInfo { variants: replicate_all(&self.variants), is_untagged: self.is_untagged }
    }
}

impl Replicate for TypeKind {
    fn replicate(&self) -> (r: TypeKind) {
        match self {
            TypeKind::Struct { fields } => TypeKind::Struct { fields: replicate_all(fields) },
            TypeKind::Enum { info } => TypeKind::Enum { info: info.replicate() },
        }
    }
}

impl Replicate for TypeInfo {
    fn replicate(&self) -> (r: TypeInfo) {
        TypeInfo { name: self.name.clone(), kind: self.kind.replicate(), span: self.span }
    }
}

/// The first declaration of the table, at or after `from`, that is named `name`.
pub open spec fn find_type(known: Seq<TypeDecl>, name: Seq<char>, from: int) -> Option<int>
    decreases known.len() - from,
{
    if from < 0 || from >= known.len() {
        None
    } else if known[from].name == name {
        Some(from)
    } else {
        find_type(known, name, from + 1)
    }
}

/// The declaration that the table holds under `name`: the first of that name.
pub open spec fn lookup_type(known: Seq<TypeDecl>, name: Seq<char>) -> Option<TypeDecl> {
    match find_type(known, name, 0) {
        Some(i) => Some(known[i]),
        None => None,
    }
}

/// The variants of the untagged union that the table holds under `name`.
pub open spec fn untagged_union(known: Seq<TypeDecl>, name: Seq<char>) -> Option<
    Seq<VariantDecl>,
> {
    match lookup_type(known, name) {
        Some(t) => match t.kind {
            KindDecl::Union { info } => if info.untagged {
                Some(info.variants)
            } else {
                None
            },
            KindDecl::Record { .. } => None,
        },
        None => None,
    }
}

/// The place in the table of the declaration named `name`.
pub fn find_known(known: &Vec<TypeInfo>, name: &str) -> (r: Option<usize>)
    ensures
        match r {
            Some(i) => find_type(known.deep_view(), name@, 0) == Some(i as int) && i < known.len(),
            None => find_type(known.deep_view(), name@, 0) is None,
        },
{
    let mut i: usize = 0;
    while i < known.len()
        invariant
            i <= known.len(),
            find_type(known.deep_view(), name@, 0) == find_type(known.deep_view(), name@, i as int),
        decreases known.len() - i,
    {
        if crate::text::same_text(known[i].name.as_str(), name) {
            return Some(i);
        }
        i += 1;
    }
    None
}

} // verus!

verus! {

/// The text that declares the type `name` with the keyword `keyword`,
/// behind `prefix`.
pub open spec fn declaration_head(prefix: Seq<char>, keyword: Seq<char>, name: Seq<char>) -> Seq<
    char,
> {
    prefix + keyword + " "@ + name
}

/// The stretch of a declaration whose keyword stands at `pos`.
pub open spec fn span_at(s: Seq<char>, pos: int) -> (usize, usize) {
    (definition_start(s, pos) as usize, definition_end(s, pos) as usize)
}

/// Where the declaration of the type `name` stands in a source text: at the
/// first place where its head stands, tried as a public declaration, as a
/// plain one, and as one public in its crate, in this order.
pub open spec fn type_span(source: Option<Seq<char>>, name: Seq<char>, is_struct: bool) -> Option<
    (usize, usize),
> {
    match source {
        None => None,
        Some(s) => {
            let keyword = if is_struct {
                "struct"@
            } else {
                "enum"@
            };
            match find_text(s, declaration_head("pub "@, keyword, name), 0) {
                Some(p) => Some(span_at(s, p)),
                None => match find_text(s, declaration_head(Seq::empty(), keyword, name), 0) {
                    Some(p) => Some(span_at(s, p)),
                    None => match find_text(
                        s,
                        declaration_head("pub(crate) "@, keyword, name),
                        0,
                    ) {
                        Some(p) => Some(span_at(s, p)),
                        None => None,
                    },
                },
            }
        },
    }
}

/// The tokens of a type as text.
pub open spec fn type_text(ty: SynType) -> Seq<char> {
    match ty {
        SynType::Path { text, .. } => text@,
        SynType::Reference { text, .. } => text@,
        SynType::Other { text } => text@,
    }
}

/// What a parsed field declares: a field without a name is called
/// `unnamed`; a field is optional if its type is a path whose tokens begin
/// with the optional wrapper.
pub open spec fn field_decl(f: SynField) -> FieldDecl {
    FieldDecl {
        name: match f.name {
            Some(n) => n@,
            None => "unnamed"@,
        },
        ty: type_text(f.ty),
        optional: f.ty is Path && is_prefix("Option <"@, type_text(f.ty)),
    }
}

/// What parsed fields declare.
pub open spec fn field_decls(fields: Seq<SynField>) -> Seq<FieldDecl> {
    Seq::new(fields.len(), |i: int| field_decl(fields[i]))
}

/// The fields that a record declares; only named fields count.
pub open spec fn record_fields(fields: SynFields) -> Seq<FieldDecl> {
    match fields {
        SynFields::Named(fs) => field_decls(fs@),
        _ => Seq::empty(),
    }
}

/// What a parsed variant declares; a variant without named fields is a unit
/// variant.
pub open spec fn variant_decl(v: SynVariant) -> VariantDecl {
    VariantDecl {
        name: v.name@,
        fields: match v.fields {
            SynFields::Named(fs) => Some(field_decls(fs@)),
            _ => None,
        },
    }
}

/// What parsed variants declare.
pub open spec fn variant_decls(variants: Seq<SynVariant>) -> Seq<VariantDecl> {
    Seq::new(variants.len(), |i: int| variant_decl(variants[i]))
}

/// The attribute marks a union as untagged: it is a `serde` attribute whose
/// list holds the word `untagged`.
pub open spec fn marks_untagged(a: SynAttribute) -> bool {
    a.path@ == "serde"@ && match a.list {
        Some(l) => contains_text(l@, "untagged"@),
        None => false,
    }
}

/// One of the first `n` attributes marks the union as untagged.
pub open spec fn any_untagged(attributes: Seq<SynAttribute>, n: nat) -> bool
    decreases n,
{
    if n == 0 || n > attributes.len() {
        false
    } else {
        any_untagged(attributes, (n - 1) as nat) || marks_untagged(attributes[n - 1])
    }
}

/// What a parsed item declares, if it is a record or a union.
pub open spec fn item_decl(item: SynItem, source: Seq<char>) -> Option<TypeDecl> {
    match item {
        SynItem::Struct { name, fields } => Some(
            TypeDecl {
                name: name@,
                kind: KindDecl::Record { fields: record_fields(fields) },
                span: type_span(Some(source), name@, true),
            },
        ),
        SynItem::Enum { name, attributes, variants } => Some(
            TypeDecl {
                name: name@,
                kind: KindDecl::Union {
                    info: UnionDecl {
                        variants: variant_decls(variants@),
                        untagged: any_untagged(attributes@, attributes@.len()),
                    },
                },
                span: type_span(Some(source), name@, false),
            },
        ),
        SynItem::Other => None,
    }
}

/// A table with one more declaration: in the place of the declaration of
/// the same name, if the table holds one, else at the end.
pub open spec fn with_decl(table: Seq<TypeDecl>, decl: TypeDecl) -> Seq<TypeDecl> {
    match find_type(table, decl.name, 0) {
        Some(i) => table.update(i, decl),
        None => table.push(decl),
    }
}

/// The table that the first `n` items of a file declare.
pub open spec fn declared_types(items: Seq<SynItem>, source: Seq<char>, n: nat) -> Seq<TypeDecl>
    decreases n,
{
    if n == 0 || n > items.len() {
        Seq::empty()
    } else {
        let prev = declared_types(items, source, (n - 1) as nat);
        match item_decl(items[n - 1], source) {
            Some(d) => with_decl(prev, d),
            None => prev,
        }
    }
}

/// The table that a source text declares: empty for a blank text, else what
/// the items declare that the parser finds; `None` where the parser refuses
/// the text.
pub open spec fn source_types(code: Seq<char>) -> Option<Seq<TypeDecl>> {
    if trim(code).len() == 0 {
        Some(Seq::empty())
    } else {
        match parsed_items(code) {
            Some(items) => Some(declared_types(items, code, items.len())),
            None => None,
        }
    }
}

/// Where the declaration of the type `name` stands in a source text.
pub fn span_of_type(source: &Vec<char>, name: &str, is_struct: bool) -> (r: Option<(usize, usize)>)
    ensures
        r == type_span(Some(source@), name@, is_struct),
{
    let keyword = if is_struct {
        "struct"
    } else {
        "enum"
    };
    let plain = concat3(keyword, " ", name);
    let public = concat2("pub ", plain.as_str());
    let in_crate = concat2("pub(crate) ", plain.as_str());
    assert(public@ =~= declaration_head("pub "@, keyword@, name@));
    assert(plain@ =~= declaration_head(Seq::empty(), keyword@, name@));
    assert(in_crate@ =~= declaration_head("pub(crate) "@, keyword@, name@));
    let found = match find_in(source, public.as_str(), 0) {
        Some(p) => Some(p),
        None => match find_in(source, plain.as_str(), 0) {
            Some(p) => Some(p),
            None => find_in(source, in_crate.as_str(), 0),
        },
    };
    match found {
        Some(p) => Some((find_definition_start(source, p), find_definition_end(source, p))),
        None => None,
    }
}

/// What a parsed field declares.
fn field_info_of(f: &SynField) -> (r: FieldInfo)
    ensures
        r.deep_view() == field_decl(*f),
{
    let name = match &f.name {
        Some(n) => n.clone(),
        None => String::from_str("unnamed"),
    };
    let (text, is_path) = match &f.ty {
        SynType::Path { text, .. } => (text.clone(), true),
        SynType::Reference { text, .. } => (text.clone(), false),
        SynType::Other { text } => (text.clone(), false),
    };
    let is_optional = is_path && starts_with(text.as_str(), "Option <");
    FieldInfo { name, field_type: text, is_optional }
}

/// What parsed fields declare.
fn field_infos_of(fields: &Vec<SynField>) -> (r: Vec<FieldInfo>)
    ensures
        r.deep_view() == field_decls(fields@),
{
    let mut r: Vec<FieldInfo> = Vec::new();
    let mut i: usize = 0;
    while i < fields.len()
        invariant
            i <= fields.len(),
            r@.len() == i,
            forall|j: int| 0 <= j < i ==> r@[j].deep_view() == field_decl(fields@[j]),
        decreases fields.len() - i,
    {
        r.push(field_info_of(&fields[i]));
        i += 1;
    }
    assert(r.deep_view() =~= field_decls(fields@));
    r
}

/// What parsed variants declare.
fn variant_infos_of(variants: &Vec<SynVariant>) -> (r: Vec<VariantInfo>)
    ensures
        r.deep_view() == variant_decls(variants@),
{
    let mut r: Vec<VariantInfo> = Vec::new();
    let mut i: usize = 0;
    while i < variants.len()
        invariant
            i <= variants.len(),
            r@.len() == i,
            forall|j: int| 0 <= j < i ==> r@[j].deep_view() == variant_decl(variants@[j]),
        decreases variants.len() - i,
    {
        let fields = match &variants[i].fields {
            SynFields::Named(fs) => Some(field_infos_of(fs)),
            _ => None,
        };
        r.push(VariantInfo { name: variants[i].name.clone(), fields });
        i += 1;
    }
    assert(r.deep_view() =~= variant_decls(variants@));
    r
}

/// Whether one of the attributes marks a union as untagged.
fn has_untagged(attributes: &Vec<SynAttribute>) -> (r: bool)
    ensures
        r == any_untagged(attributes@, attributes.len() as nat),
{
    let mut i: usize = 0;
    while i < attributes.len()
        invariant
            i <= attributes.len(),
            !any_untagged(attributes@, i as nat),
        decreases attributes.len() - i,
    {
        let a = &attributes[i];
        let marks = same_text(a.path.as_str(), "serde") && match &a.list {
            Some(l) => contains(l.as_str(), "untagged"),
            None => false,
        };
        if marks {
            proof {
                lemma_untagged_grows(attributes@, (i + 1) as nat, attributes.len() as nat);
            }
            return true;
        }
        i += 1;
    }
    false
}

/// A mark among the first `k` attributes is a mark among the first `n >= k`.
pub proof fn lemma_untagged_grows(attributes: Seq<SynAttribute>, k: nat, n: nat)
    requires
        k <= n <= attributes.len(),
        any_untagged(attributes, k),
    ensures
        any_untagged(attributes, n),
    decreases n,
{
    if k < n {
        lemma_untagged_grows(attributes, k, (n - 1) as nat);
    }
}

/// Puts a declaration into the table, in the place of the declaration of
/// the same name if there is one.
fn put_decl(table: &mut Vec<TypeInfo>, decl: TypeInfo)
    ensures
        final(table).deep_view() == with_decl(old(table).deep_view(), decl.deep_view()),
{
    let ghost before = *table;
    let ghost added = decl;
    match find_known(table, decl.name.as_str()) {
        Some(i) => {
            table.set(i, decl);
            assert(table.deep_view() =~= before.deep_view().update(i as int, added.deep_view()));
        },
        None => {
            table.push(decl);
            proof {
                lemma_push_view(before, *table, added);
            }
        },
    }
}

/// The table that the items of a file declare.
pub fn types_of_items(items: &Vec<SynItem>, source: &Vec<char>) -> (r: Vec<TypeInfo>)
    ensures
        r.deep_view() == declared_types(items@, source@, items.len() as nat),
{
    let mut table: Vec<TypeInfo> = Vec::new();
    assert(table.deep_view() =~= Seq::<TypeDecl>::empty());
    let mut i: usize = 0;
    while i < items.len()
        invariant
            i <= items.len(),
            table.deep_view() == declared_types(items@, source@, i as nat),
        decreases items.len() - i,
    {
        match &items[i] {
            SynItem::Struct { name, fields } => {
                let fs = match fields {
                    SynFields::Named(fs) => field_infos_of(fs),
                    _ => {
                        let none: Vec<FieldInfo> = Vec::new();
                        assert(none.deep_view() =~= Seq::<FieldDecl>::empty());
                        none
                    },
                };
                let span = span_of_type(source, name.as_str(), true);
                put_decl(
                    &mut table,
                    TypeInfo { name: name.clone(), kind: TypeKind::Struct { fields: fs }, span },
                );
            },
            SynItem::Enum { name, attributes, variants } => {
                let info = EnumInfo {
                    variants: variant_infos_of(variants),
                    is_untagged: has_untagged(attributes),
                };
                let span = span_of_type(source, name.as_str(), false);
                put_decl(
                    &mut table,
                    TypeInfo { name: name.clone(), kind: TypeKind::Enum { info }, span },
                );
            },
            SynItem::Other => {},
        }
        i += 1;
    }
    table
}

/// Reads the declarations of a source text.
pub struct RustParser {
    source_code: Option<String>,
}

impl RustParser {
    /// The source text that was parsed last.
    pub closed spec fn source(&self) -> Option<Seq<char>> {
        match self.source_code {
            Some(s) => Some(s@),
            None => None,
        }
    }

    /// A parser that has read nothing yet.
    pub fn new() -> (r: Self)
        ensures
            r.source() is None,
    {
        RustParser { source_code: None }
    }

    /// The table that a source text declares. A blank text declares
    /// nothing; a text that the parser refuses gives its error.
    pub fn parse_types(&mut self, code: &str) -> (r: Result<Vec<TypeInfo>, EvolutionError>)
        ensures
            final(self).source() == Some(code@),
            match r {
                Ok(types) => source_types(code@) == Some(types.deep_view()),
                Err(e) => source_types(code@) is None && e is InvalidSource,
            },
    {
        self.source_code = Some(String::from_str(code));
        if is_blank(code) {
            let none: Vec<TypeInfo> = Vec::new();
            assert(none.deep_view() =~= Seq::<TypeDecl>::empty());
            return Ok(none);
        }
        match read_items(code) {
            Ok(items) => {
                let chars = to_chars(code);
                Ok(types_of_items(&items, &chars))
            },
            Err(e) => Err(EvolutionError::InvalidSource { message: syn_error_text(&e) }),
        }
    }

    /// Where the declaration of the type `name` stands in the source text
    /// that was parsed last.
    pub fn find_type_span(&self, name: &str, is_struct: bool) -> (r: Option<(usize, usize)>)
        ensures
            r == type_span(self.source(), name@, is_struct),
    {
        match &self.source_code {
            Some(s) => {
                let chars = to_chars(s.as_str());
                span_of_type(&chars, name, is_struct)
            },
            None => None,
        }
    }

    /// Where a declaration begins whose keyword stands at `pos`.
    pub fn find_definition_start(&self, source: &str, pos: usize) -> (r: Option<usize>)
        ensures
            match r {
                Some(p) => pos <= source@.len() && p == definition_start(source@, pos as int),
                None => pos > source@.len(),
            },
    {
        let chars = to_chars(source);
        if pos > chars.len() {
            return None;
        }
        Some(find_definition_start(&chars, pos))
    }

    /// Where a declaration ends whose keyword stands at `pos`.
    pub fn find_definition_end(&self, source: &str, pos: usize) -> (r: Option<usize>)
        ensures
            match r {
                Some(p) => pos <= source@.len() && p == definition_end(source@, pos as int),
                None => pos > source@.len(),
            },
    {
        let chars = to_chars(source);
        if pos > chars.len() {
            return None;
        }
        Some(find_definition_end(&chars, pos))
    }
}

} // verus!
