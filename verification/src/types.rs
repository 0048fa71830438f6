//! The data of the schema path: what a JSON text is made of, and the
//! records and unions that are generated from it.

use vstd::prelude::*;
use vstd::string::*;
use crate::text::same_text;
use crate::views::{replicate_all, replicate_option, Replicate};

verus! {

/// How a record is extended where the old and the new fields differ.
#[derive(Debug, Clone, Copy, PartialEq, Eq)]
pub enum MergeStrategy {
    /// The fields that differ become optional.
    Optional,
    /// The fields that differ go into the variants of a union.
    Enum,
    /// A union for more than three fields that differ, else optional fields.
    Hybrid,
}

impl MergeStrategy {
    /// The strategy that a word names; any unknown word names `Optional`.
    pub fn from_name(s: &str) -> (r: Self)
        ensures
            r == if s@ == "enum"@ {
                MergeStrategy::Enum
            } else if s@ == "hybrid"@ {
                MergeStrategy::Hybrid
            } else {
                MergeStrategy::Optional
            },
    {
        if same_text(s, "enum") {
            MergeStrategy::Enum
        } else if same_text(s, "hybrid") {
            MergeStrategy::Hybrid
        } else {
            MergeStrategy::Optional
        }
    }
}

impl<'a> From<&'a str> for MergeStrategy {
    fn from(s: &'a str) -> (r: Self) {
        MergeStrategy::from_name(s)
    }
}

impl<'a> vstd::std_specs::convert::FromSpecImpl<&'a str> for MergeStrategy {
    open spec fn obeys_from_spec() -> bool {
        true
    }

    open spec fn from_spec(s: &'a str) -> Self {
        if s@ == "enum"@ {
            MergeStrategy::Enum
        } else if s@ == "hybrid"@ {
            MergeStrategy::Hybrid
        } else {
            MergeStrategy::Optional
        }
    }
}

/// A field of a generated record or variant.
#[derive(Debug, Clone, PartialEq)]
pub struct RustField {
    pub name: String,
    pub field_type: String,
    pub is_optional: bool,
    pub serde_rename: Option<String>,
}

/// The mathematical value of a `RustField`.
pub struct RustFieldModel {
    pub name: Seq<char>,
    pub ty: Seq<char>,
    pub optional: bool,
    pub rename: Option<Seq<char>>,
}

/// A generated record.
#[derive(Debug, Clone, PartialEq)]
pub struct RustStruct {
    pub name: String,
    pub fields: Vec<RustField>,
    pub derives: Vec<String>,
    pub is_optional: bool,
}

/// The mathematical value of a `RustStruct`.
pub struct RustStructModel {
    pub name: Seq<char>,
    pub fields: Seq<RustFieldModel>,
    pub derives: Seq<Seq<char>>,
    pub optional: bool,
}

/// A variant of a generated union.
#[derive(Debug, Clone, PartialEq)]
pub struct RustEnumVariant {
    pub name: String,
    pub fields: Vec<RustField>,
}

/// The mathematical value of a `RustEnumVariant`.
pub struct RustVariantModel {
    pub name: Seq<char>,
    pub fields: Seq<RustFieldModel>,
}

/// A generated union.
#[derive(Debug, Clone, PartialEq)]
pub struct RustEnum {
    pub name: String,
    pub variants: Vec<RustEnumVariant>,
    pub derives: Vec<String>,
}

/// The mathematical value of a `RustEnum`.
pub struct RustEnumModel {
    pub name: Seq<char>,
    pub variants: Seq<RustVariantModel>,
    pub derives: Seq<Seq<char>>,
}

/// A generated record or union.
#[derive(Debug, Clone, PartialEq)]
pub enum RustType {
    Struct(RustStruct),
    Enum(RustEnum),
}

/// What a JSON text is made of. The fields of an object are kept in order,
/// each name once.
#[derive(Debug, PartialEq)]
pub enum JsonType {
    String,
    Number,
    Boolean,
    Array(Box<JsonType>),
    Object(Vec<(String, JsonType)>),
    Null,
}

/// The mathematical value of a `JsonType`.
pub enum JsonTypeModel {
    String,
    Number,
    Boolean,
    Array(Box<JsonTypeModel>),
    Object(Seq<(Seq<char>, JsonTypeModel)>),
    Null,
}

/// A named JSON type.
#[derive(Debug, PartialEq)]
pub struct JsonSchema {
    pub name: String,
    pub json_type: JsonType,
    pub optional: bool,
}

/// A record that a source text declares: its name, and the type of each
/// field under the name of the field.
#[derive(Debug, Clone)]
pub struct ExistingStruct {
    pub name: String,
    pub fields: Vec<(String, String)>,
}

/// The mathematical value of an `ExistingStruct`.
pub struct ExistingModel {
    pub name: Seq<char>,
    pub fields: Seq<(Seq<char>, Seq<char>)>,
}

/// The errors of the schema path, each with its message.
#[derive(Debug, Clone, PartialEq, Eq)]
pub enum Json2RustError {
    JsonParsing(String),
    RustParsing(String),
    Io(String),
    CodeGeneration(String),
}

impl Json2RustError {
    /// The error as a line of text.
    pub fn message(&self) -> (r: String)
        ensures
            r@ == match self {
                Json2RustError::JsonParsing(m) => "JSON parsing error: "@ + m@,
                Json2RustError::RustParsing(m) => "Rust parsing error: "@ + m@,
                Json2RustError::Io(m) => "IO error: "@ + m@,
                Json2RustError::CodeGeneration(m) => "Code generation error: "@ + m@,
            },
    {
        match self {
            Json2RustError::JsonParsing(m) => crate::text::concat2(
                "JSON parsing error: ",
                m.as_str(),
            ),
            Json2RustError::RustParsing(m) => crate::text::concat2(
                "Rust parsing error: ",
                m.as_str(),
            ),
            Json2RustError::Io(m) => crate::text::concat2("IO error: ", m.as_str()),
            Json2RustError::CodeGeneration(m) => crate::text::concat2(
                "Code generation error: ",
                m.as_str(),
            ),
        }
    }
}

/// The mathematical value of a JSON type.
pub open spec fn json_type_model(t: JsonType) -> JsonTypeModel
    decreases t,
{
    match t {
        JsonType::String => JsonTypeModel::String,
        JsonType::Number => JsonTypeModel::Number,
        JsonType::Boolean => JsonTypeModel::Boolean,
        JsonType::Null => JsonTypeModel::Null,
        JsonType::Array(inner) => JsonTypeModel::Array(Box::new(json_type_model(*inner))),
        JsonType::Object(fields) => JsonTypeModel::Object(
            Seq::new(
                fields@.len(),
                |i: int|
                    if 0 <= i < fields@.len() {
                        (fields@[i].0@, json_type_model(fields@[i].1))
                    } else {
                        (Seq::empty(), JsonTypeModel::Null)
                    },
            ),
        ),
    }
}

impl DeepView for JsonType {
    type V = JsonTypeModel;

    open spec fn deep_view(&self) -> JsonTypeModel {
        json_type_model(*self)
    }
}

impl DeepView for RustField {
    type V = RustFieldModel;

    open spec fn deep_view(&self) -> RustFieldModel {
        RustFieldModel {
            name: self.name@,
            ty: self.field_type@,
            optional: self.is_optional,
            rename: self.serde_rename.deep_view(),
        }
    }
}

impl DeepView for RustStruct {
    type V = RustStructModel;

    open spec fn deep_view(&self) -> RustStructModel {
        RustStructModel {
            name: self.name@,
            fields: self.fields.deep_view(),
            derives: self.derives.deep_view(),
            optional: self.is_optional,
        }
    }
}

impl DeepView for RustEnumVariant {
    type V = RustVariantModel;

    open spec fn deep_view(&self) -> RustVariantModel {
        RustVariantModel { name: self.name@, fields: self.fields.deep_view() }
    }
}

impl DeepView for RustEnum {
    type V = RustEnumModel;

    open spec fn deep_view(&self) -> RustEnumModel {
        RustEnumModel {
            name: self.name@,
            variants: self.variants.deep_view(),
            derives: self.derives.deep_view(),
        }
    }
}

impl DeepView for ExistingStruct {
    type V = ExistingModel;

    open spec fn deep_view(&self) -> ExistingModel {
        ExistingModel { name: self.name@, fields: self.fields.deep_view() }
    }
}

impl Replicate for RustField {
    fn replicate(&self) -> (r: RustField) {
        RustField {
            name: self.name.clone(),
            field_type: self.field_type.clone(),
            is_optional: self.is_optional,
            serde_rename: replicate_option(&self.serde_rename),
        }
    }
}

impl Replicate for RustStruct {
    fn replicate(&self) -> (r: RustStruct) {
        RustStruct {
            name: self.name.clone(),
            fields: replicate_all(&self.fields),
            derives: replicate_all(&self.derives),
            is_optional: self.is_optional,
        }
    }
}

impl Replicate for RustEnumVariant {
    fn replicate(&self) -> (r: RustEnumVariant) {
        RustEnumVariant { name: self.name.clone(), fields: replicate_all(&self.fields) }
    }
}

impl Replicate for RustEnum {
    fn replicate(&self) -> (r: RustEnum) {
        RustEnum {
            name: self.name.clone(),
            variants: replicate_all(&self.variants),
            derives: replicate_all(&self.derives),
        }
    }
}

/// A copy of a JSON type.
#[verifier::loop_isolation(false)]
pub fn copy_json_type(t: &JsonType) -> (r: JsonType)
    ensures
        json_type_model(r) == json_type_model(*t),
    decreases t,
{
    match t {
        JsonType::String => JsonType::String,
        JsonType::Number => JsonType::Number,
        JsonType::Boolean => JsonType::Boolean,
        JsonType::Null => JsonType::Null,
        JsonType::Array(inner) => JsonType::Array(Box::new(copy_json_type(inner))),
        JsonType::Object(fields) => {
            let mut out: Vec<(String, JsonType)> = Vec::new();
            let mut i: usize = 0;
            while i < fields.len()
                invariant
                    i <= fields.len(),
                    out@.len() == i,
                    forall|j: int|
                        0 <= j < i ==> (#[trigger] out@[j]).0@ == fields@[j].0@ && json_type_model(
                            out@[j].1,
                        ) == json_type_model(fields@[j].1),
                decreases fields.len() - i,
            {
                out.push((fields[i].0.clone(), copy_json_type(&fields[i].1)));
                i += 1;
            }
            let r = JsonType::Object(out);
            assert(json_type_model(r)->Object_0 =~= json_type_model(*t)->Object_0);
            r
        },
    }
}

impl Replicate for JsonType {
    fn replicate(&self) -> (r: JsonType) {
        copy_json_type(self)
    }
}

} // verus!
