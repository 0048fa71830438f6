//! The optimizer: from many shapes to one decision.

use vstd::prelude::*;
use vstd::string::*;
use crate::cluster::{
    can_merge, can_merge_shapes, clean_field_types, cluster_variants, collapse_all,
    count_field_differences, create_merged_variant, merged_variant, name_difference,
    optimize_variants,
};
use crate::common::{common_fields, find_common, remove_common, residuals};
use crate::fields::{all_fields, better_field, choose_better_field, collect_all_fields};
use crate::foldback::{analyze_fold_back, fold_back};
use crate::generator::{EvolutionResult, ResultModel};
use crate::parser::{TypeDecl, TypeInfo};
use crate::shape::{FieldModel, Shape, ShapeField, ShapeModel};
use crate::typetext::{
    normalize_type, normalized, strictly_compatible, types_strictly_compatible,
};
use crate::views::{replicate_all, Replicate};

verus! {

/// One variant of a decision: a name and the fields that are its own.
#[derive(Debug, Clone)]
pub struct ShapeVariant {
    pub name: String,
    pub fields: Vec<ShapeField>,
}

/// The mathematical value of a `ShapeVariant`.
pub struct VariantModel {
    pub name: Seq<char>,
    pub fields: Seq<FieldModel>,
}

/// Common fields and the variants that remain beside them.
#[derive(Debug, Clone)]
pub struct OptimizedShape {
    pub common_fields: Vec<ShapeField>,
    pub variants: Vec<ShapeVariant>,
}

/// The mathematical value of an `OptimizedShape`.
pub struct OptimizedModel {
    pub common: Seq<FieldModel>,
    pub variants: Seq<VariantModel>,
}

impl DeepView for ShapeVariant {
    type V = VariantModel;

    open spec fn deep_view(&self) -> VariantModel {
        VariantModel { name: self.name@, fields: self.fields.deep_view() }
    }
}

impl DeepView for OptimizedShape {
    type V = OptimizedModel;

    open spec fn deep_view(&self) -> OptimizedModel {
        OptimizedModel {
            common: self.common_fields.deep_view(),
            variants: self.variants.deep_view(),
        }
    }
}

impl Replicate for ShapeVariant {
    fn replicate(&self) -> (r: ShapeVariant) {
        ShapeVariant { name: self.name.clone(), fields: replicate_all(&self.fields) }
    }
}

/// The decision where no fold-back applies: a record if at most one variant
/// remains, else a union of the variants beside the common fields.
pub open spec fn generic_decision(
    name: Seq<char>,
    common: Seq<FieldModel>,
    variants: Seq<VariantModel>,
) -> ResultModel {
    if variants.len() == 0 {
        ResultModel::Record { name: name, fields: common }
    } else if common.len() == 0 && variants.len() == 1 {
        ResultModel::Record { name: name, fields: variants[0].fields }
    } else if variants.len() == 1 && variants[0].fields.len() == 0 {
        ResultModel::Record { name: name, fields: common }
    } else if variants.len() == 1 {
        ResultModel::Record { name: name, fields: collapse_all(common + variants[0].fields) }
    } else {
        ResultModel::Union { name: name, common: common, variants: variants }
    }
}

/// The decision for a set of shapes: no shape gives an empty record, one
/// shape a record of its fields. Otherwise the common fields are taken out,
/// what remains is clustered into variants, and the decision is the
/// fold-back to a known union, if there is one, else the generic decision.
pub open spec fn optimize(known: Seq<TypeDecl>, shapes: Seq<ShapeModel>, name: Seq<char>) -> ResultModel {
    if shapes.len() == 0 {
        ResultModel::Record { name: name, fields: Seq::empty() }
    } else if shapes.len() == 1 {
        ResultModel::Record { name: name, fields: shapes[0].fields }
    } else {
        let common = common_fields(shapes);
        let variants = cluster_variants(residuals(shapes, common));
        match fold_back(known, common, variants, name, shapes) {
            Some(r) => r,
            None => generic_decision(name, common, variants),
        }
    }
}

/// Decides how a set of shapes is best declared, against a table of known
/// declarations. With the trace flag set, a run tells an observer what it
/// found; the optimizer itself writes nothing.
pub struct ShapeOptimizer {
    verbose: bool,
    known_types: Vec<TypeInfo>,
}

impl ShapeOptimizer {
    /// The table of known declarations.
    pub closed spec fn known(&self) -> Seq<TypeDecl> {
        self.known_types.deep_view()
    }

    /// Whether trace output was asked for.
    pub closed spec fn is_verbose(&self) -> bool {
        self.verbose
    }

    /// An optimizer that knows no declaration.
    pub fn new(verbose: bool) -> (r: Self)
        ensures
            r.known() == Seq::<TypeDecl>::empty(),
            r.is_verbose() == verbose,
    {
        let r = ShapeOptimizer { verbose, known_types: Vec::new() };
        assert(r.known_types.deep_view() =~= Seq::<TypeDecl>::empty());
        r
    }

    /// An optimizer that knows the declarations given.
    pub fn with_known_types(verbose: bool, known_types: Vec<TypeInfo>) -> (r: Self)
        ensures
            r.known() == known_types.deep_view(),
            r.is_verbose() == verbose,
    {
        ShapeOptimizer { verbose, known_types }
    }

    /// Replaces the table of known declarations.
    pub fn set_known_types(&mut self, known_types: Vec<TypeInfo>)
        ensures
            final(self).known() == known_types.deep_view(),
            final(self).is_verbose() == old(self).is_verbose(),
    {
        self.known_types = known_types;
    }

    /// The decision for a set of shapes, under the name `base_name`.
    pub fn optimize_shapes(&self, shapes: &Vec<Shape>, base_name: &str) -> (r: EvolutionResult)
        ensures
            r.deep_view() == optimize(self.known(), shapes.deep_view(), base_name@),
    {
        if shapes.len() == 0 {
            let none: Vec<ShapeField> = Vec::new();
            assert(none.deep_view() =~= Seq::<FieldModel>::empty());
            return EvolutionResult::simple_struct(base_name, none);
        }
        if shapes.len() == 1 {
            return EvolutionResult::simple_struct(base_name, replicate_all(&shapes[0].fields));
        }
        let common = find_common(shapes);
        let rest = remove_common(shapes, &common);
        let clustered = optimize_variants(&rest);
        let variants = self.apply_recursive_optimization(&clustered);
        match analyze_fold_back(&self.known_types, &common, &variants, base_name, shapes) {
            Some(r) => r,
            None => decide(base_name, common, variants),
        }
    }

    /// The common fields of a set of shapes, each in its best version.
    pub fn find_common_fields(&self, shapes: &Vec<Shape>) -> (r: Vec<ShapeField>)
        ensures
            r.deep_view() == common_fields(shapes.deep_view()),
    {
        find_common(shapes)
    }

    /// Every shape without the fields that are common.
    pub fn remove_common_fields(&self, shapes: &Vec<Shape>, common: &Vec<ShapeField>) -> (r: Vec<
        Shape,
    >)
        ensures
            r.deep_view() == residuals(shapes.deep_view(), common.deep_view()),
    {
        remove_common(shapes, common)
    }

    /// Whether two shapes may share a cluster.
    pub fn can_merge_shapes(&self, a: &Shape, b: &Shape) -> (r: bool)
        ensures
            r == can_merge(a.deep_view(), b.deep_view()),
    {
        can_merge_shapes(a, b)
    }

    /// The number of field names that one of two shapes has and the other lacks.
    pub fn count_field_differences(&self, a: &Shape, b: &Shape) -> (r: u128)
        ensures
            r == name_difference(a.deep_view(), b.deep_view()),
    {
        count_field_differences(a, b)
    }

    /// The variant of the cluster whose members are listed, the base first.
    pub fn create_merged_variant(&self, members: &Vec<usize>, shapes: &Vec<Shape>) -> (r:
        ShapeVariant)
        requires
            members.len() >= 1,
            forall|k: int| 0 <= k < members.len() ==> members@[k] < shapes.len(),
        ensures
            r.deep_view() == merged_variant(shapes.deep_view(), members@),
    {
        create_merged_variant(members, shapes)
    }

    /// The fields of all the shapes, each name once, as first met.
    pub fn collect_all_fields(&self, shapes: &Vec<Shape>) -> (r: Vec<ShapeField>)
        ensures
            r.deep_view() == all_fields(shapes.deep_view(), shapes.len() as nat),
    {
        collect_all_fields(shapes)
    }

    /// The refinement of the variants, which changes nothing.
    pub fn apply_recursive_optimization(&self, variants: &Vec<ShapeVariant>) -> (r: Vec<
        ShapeVariant,
    >)
        ensures
            r.deep_view() == variants.deep_view(),
    {
        replicate_all(variants)
    }

    /// Whether two types are strictly compatible.
    pub fn types_compatible(&self, a: &str, b: &str) -> (r: bool)
        ensures
            r == strictly_compatible(a@, b@),
    {
        types_strictly_compatible(a, b)
    }

    /// A type without the spaces around its angle brackets.
    pub fn clean_type_string(&self, ty: &str) -> (r: String)
        ensures
            r@ == normalized(ty@),
    {
        normalize_type(ty)
    }

    /// The better of two versions of a field.
    pub fn choose_better_field_type(&self, a: &ShapeField, b: &ShapeField) -> (r: ShapeField)
        ensures
            r.deep_view() == better_field(a.deep_view(), b.deep_view()),
    {
        choose_better_field(a, b)
    }
}

/// What an observer is told of one run of the optimizer. The events say
/// what was found; they decide nothing.
#[derive(Debug, Clone, Copy, PartialEq, Eq)]
pub enum TraceEvent {
    /// The run began, with so many shapes.
    Started { shapes: usize },
    /// So many fields are common to all the shapes.
    CommonFields { count: usize },
    /// The rest was clustered into so many variants.
    Clustered { variants: usize },
    /// The decision was made; by a fold-back to a known union, or not.
    Decided { folded_back: bool },
}

/// The events of one run of the optimizer, in order.
pub open spec fn trace_of(known: Seq<TypeDecl>, shapes: Seq<ShapeModel>, name: Seq<char>) -> Seq<
    TraceEvent,
> {
    if shapes.len() < 2 {
        seq![
            TraceEvent::Started { shapes: shapes.len() as usize },
            TraceEvent::Decided { folded_back: false },
        ]
    } else {
        let common = common_fields(shapes);
        let variants = cluster_variants(residuals(shapes, common));
        seq![
            TraceEvent::Started { shapes: shapes.len() as usize },
            TraceEvent::CommonFields { count: common.len() as usize },
            TraceEvent::Clustered { variants: variants.len() as usize },
            TraceEvent::Decided {
                folded_back: fold_back(known, common, variants, name, shapes) is Some,
            },
        ]
    }
}

impl ShapeOptimizer {
    /// The decision for a set of shapes, with the events of the run added to
    /// `sink` if trace output was asked for. The decision is the same with
    /// and without a trace.
    pub fn optimize_shapes_traced(
        &self,
        shapes: &Vec<Shape>,
        base_name: &str,
        sink: &mut Vec<TraceEvent>,
    ) -> (r: EvolutionResult)
        ensures
            r.deep_view() == optimize(self.known(), shapes.deep_view(), base_name@),
            final(sink)@ == if self.is_verbose() {
                old(sink)@ + trace_of(self.known(), shapes.deep_view(), base_name@)
            } else {
                old(sink)@
            },
    {
        let ghost before = sink@;
        if !self.verbose {
            return self.optimize_shapes(shapes, base_name);
        }
        sink.push(TraceEvent::Started { shapes: shapes.len() });
        if shapes.len() < 2 {
            sink.push(TraceEvent::Decided { folded_back: false });
            assert(sink@ =~= before + trace_of(self.known(), shapes.deep_view(), base_name@));
            return self.optimize_shapes(shapes, base_name);
        }
        let common = find_common(shapes);
        sink.push(TraceEvent::CommonFields { count: common.len() });
        let rest = remove_common(shapes, &common);
        let variants = optimize_variants(&rest);
        sink.push(TraceEvent::Clustered { variants: variants.len() });
        let folded = analyze_fold_back(&self.known_types, &common, &variants, base_name, shapes);
        sink.push(TraceEvent::Decided { folded_back: folded.is_some() });
        assert(sink@ =~= before + trace_of(self.known(), shapes.deep_view(), base_name@));
        match folded {
            Some(r) => r,
            None => decide(base_name, common, variants),
        }
    }
}

/// The decision where no fold-back applies.
pub fn decide(name: &str, common: Vec<ShapeField>, variants: Vec<ShapeVariant>) -> (r:
    EvolutionResult)
    ensures
        r.deep_view() == generic_decision(name@, common.deep_view(), variants.deep_view()),
{
    if variants.len() == 0 {
        EvolutionResult::simple_struct(name, common)
    } else if common.len() == 0 && variants.len() == 1 {
        EvolutionResult::simple_struct(name, replicate_all(&variants[0].fields))
    } else if variants.len() == 1 && variants[0].fields.len() == 0 {
        EvolutionResult::simple_struct(name, common)
    } else if variants.len() == 1 {
        let mut all = common;
        let mut more = replicate_all(&variants[0].fields);
        let ghost a = all.deep_view();
        let ghost b = more.deep_view();
        all.append(&mut more);
        assert(all.deep_view() =~= a + b);
        EvolutionResult::simple_struct(name, clean_field_types(all))
    } else {
        EvolutionResult::complex_enum(name, common, variants)
    }
}

} // verus!
