//! What the library reads of parsed Rust source: the records and unions of
//! a file, their fields, and the shape of each field's type.

use vstd::prelude::*;
use vstd::string::*;

verus! {

/// A type as written in a declaration: its tokens as text, and, for a path
/// or a reference, its parts.
#[derive(Debug)]
pub enum SynType {
    Path { text: String, segments: Vec<SynSegment> },
    Reference { text: String, inner: Box<SynType> },
    Other { text: String },
}

/// One segment of a path: its name and what stands in brackets behind it.
#[derive(Debug)]
pub struct SynSegment {
    pub ident: String,
    pub arguments: SynArguments,
}

/// What stands behind a path segment.
#[derive(Debug)]
pub enum SynArguments {
    Absent,
    AngleBracketed(Vec<SynArgument>),
    Parenthesized,
}

/// One argument in angle brackets: a type, or anything else.
#[derive(Debug)]
pub enum SynArgument {
    Type(SynType),
    Other,
}

/// A field: its name, if it has one, and its type.
#[derive(Debug)]
pub struct SynField {
    pub name: Option<String>,
    pub ty: SynType,
}

/// The fields of a record or of a variant.
#[derive(Debug)]
pub enum SynFields {
    Named(Vec<SynField>),
    Unnamed,
    Unit,
}

/// An attribute: its path as text, and, for an attribute with a list in
/// brackets, the tokens of that list as text.
#[derive(Debug)]
pub struct SynAttribute {
    pub path: String,
    pub list: Option<String>,
}

/// A variant of a union.
#[derive(Debug)]
pub struct SynVariant {
    pub name: String,
    pub fields: SynFields,
}

/// An item of a file: a record, a union, or anything else.
#[derive(Debug)]
pub enum SynItem {
    Struct { name: String, fields: SynFields },
    Enum { name: String, attributes: Vec<SynAttribute>, variants: Vec<SynVariant> },
    Other,
}

/// The error of the parser, `syn::Error`; the library only asks it for its message.
#[verifier::external_type_specification]
#[verifier::external_body]
pub struct ExSynError(syn::Error);

/// A type of the parser, `syn::Type`; the library only copies it.
#[verifier::external_type_specification]
#[verifier::external_body]
pub struct ExSynType(syn::Type);

/// A path segment of the parser, `syn::PathSegment`; the library only copies it.
#[verifier::external_type_specification]
#[verifier::external_body]
pub struct ExSynSegment(syn::PathSegment);

/// A generic argument of the parser, `syn::GenericArgument`; the library only copies it.
#[verifier::external_type_specification]
#[verifier::external_body]
pub struct ExSynArgument(syn::GenericArgument);

/// A field of the parser, `syn::Field`; the library only copies it.
#[verifier::external_type_specification]
#[verifier::external_body]
pub struct ExSynField(syn::Field);

/// The fields of the parser, `syn::Fields`; the library only copies them.
#[verifier::external_type_specification]
#[verifier::external_body]
pub struct ExSynFields(syn::Fields);

/// An attribute of the parser, `syn::Attribute`; the library only copies it.
#[verifier::external_type_specification]
#[verifier::external_body]
pub struct ExSynAttribute(syn::Attribute);

/// A variant of the parser, `syn::Variant`; the library only copies it.
#[verifier::external_type_specification]
#[verifier::external_body]
pub struct ExSynVariant(syn::Variant);

/// An item of the parser, `syn::Item`; the library only copies it.
#[verifier::external_type_specification]
#[verifier::external_body]
pub struct ExSynItem(syn::Item);

/// Copies a `syn::Type`: its tokens as `quote::ToTokens` prints them, and
/// the segments of a path or the target of a reference.
#[verifier::external_body]
fn type_from_syn(ty: &syn::Type) -> SynType {
    let text = quote::ToTokens::to_token_stream(ty).to_string();
    match ty {
        syn::Type::Path(p) => SynType::Path {
            text,
            segments: p.path.segments.iter().map(segment_from_syn).collect(),
        },
        syn::Type::Reference(r) => SynType::Reference {
            text,
            inner: Box::new(type_from_syn(&r.elem)),
        },
        _ => SynType::Other { text },
    }
}

/// Copies a `syn::PathSegment`.
#[verifier::external_body]
fn segment_from_syn(s: &syn::PathSegment) -> SynSegment {
    let arguments = match &s.arguments {
        syn::PathArguments::None => SynArguments::Absent,
        syn::PathArguments::AngleBracketed(a) => SynArguments::AngleBracketed(
            a.args.iter().map(argument_from_syn).collect(),
        ),
        syn::PathArguments::Parenthesized(_) => SynArguments::Parenthesized,
    };
    SynSegment { ident: s.ident.to_string(), arguments }
}

/// Copies a `syn::GenericArgument`.
#[verifier::external_body]
fn argument_from_syn(a: &syn::GenericArgument) -> SynArgument {
    match a {
        syn::GenericArgument::Type(t) => SynArgument::Type(type_from_syn(t)),
        _ => SynArgument::Other,
    }
}

/// Copies a `syn::Field`.
#[verifier::external_body]
fn field_from_syn(f: &syn::Field) -> SynField {
    SynField { name: f.ident.as_ref().map(|i| i.to_string()), ty: type_from_syn(&f.ty) }
}

/// Copies a `syn::Fields`.
#[verifier::external_body]
fn fields_from_syn(f: &syn::Fields) -> SynFields {
    match f {
        syn::Fields::Named(n) => SynFields::Named(n.named.iter().map(field_from_syn).collect()),
        syn::Fields::Unnamed(_) => SynFields::Unnamed,
        syn::Fields::Unit => SynFields::Unit,
    }
}

/// Copies a `syn::Attribute`: its path as text, and the tokens of its list,
/// where `Meta::require_list` finds one.
#[verifier::external_body]
fn attribute_from_syn(a: &syn::Attribute) -> SynAttribute {
    SynAttribute {
        path: quote::ToTokens::to_token_stream(a.path()).to_string(),
        list: a.meta.require_list().ok().map(|l| l.tokens.to_string()),
    }
}

/// Copies a `syn::Variant`.
#[verifier::external_body]
fn variant_from_syn(v: &syn::Variant) -> SynVariant {
    SynVariant { name: v.ident.to_string(), fields: fields_from_syn(&v.fields) }
}

/// Copies a `syn::Item`.
#[verifier::external_body]
fn item_from_syn(item: &syn::Item) -> SynItem {
    match item {
        syn::Item::Struct(s) => SynItem::Struct {
            name: s.ident.to_string(),
            fields: fields_from_syn(&s.fields),
        },
        syn::Item::Enum(e) => SynItem::Enum {
            name: e.ident.to_string(),
            attributes: e.attrs.iter().map(attribute_from_syn).collect(),
            variants: e.variants.iter().map(variant_from_syn).collect(),
        },
        _ => SynItem::Other,
    }
}

/// What `syn::parse_str` makes of a source text as a file: its items, or
/// `None` where it reports an error.
pub uninterp spec fn parsed_items(code: Seq<char>) -> Option<Seq<SynItem>>;

/// Parses a source text with `syn::parse_str::<syn::File>` and copies its
/// items. The contract names what the parser makes of the text: the same
/// text always gives the same items or the same refusal.
#[verifier::external_body]
pub(crate) fn read_items(code: &str) -> (r: Result<Vec<SynItem>, syn::Error>)
    ensures
        match r {
            Ok(items) => parsed_items(code@) == Some(items@),
            Err(_) => parsed_items(code@) is None,
        },
{
    match syn::parse_str::<syn::File>(code) {
        Ok(file) => Ok(file.items.iter().map(item_from_syn).collect()),
        Err(e) => Err(e),
    }
}

/// The message of an error of the parser (its `Display` text).
#[verifier::external_body]
pub(crate) fn syn_error_text(e: &syn::Error) -> String {
    e.to_string()
}

} // verus!
