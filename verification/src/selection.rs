//! The per-model `selection` module: a builder method and a projected
//! accessor for every scalar column, and a pair of `include_*` methods and
//! an included-projection accessor for every relation.

use vstd::prelude::*;
use vstd::string::*;

use crate::columns::{FieldFilter, keeps, kept_fields};
use crate::ir::{Field, Model, TypeArity, distinct_names, names_of};
use crate::naming::{snake_case, to_snake_case};
use crate::text::{concat3, owned};

verus! {

/// What a projected accessor does when the payload leaves its key out.
#[derive(Debug, Clone, Copy, PartialEq, Eq, Structural)]
pub enum MissingFieldFallback {
    /// A hard error: the field is `Required`.
    Reject,
    /// Read as `null`, that is `None`: the field is `Optional`.
    Null,
    /// Read as an empty array: the field is a `List`.
    EmptyArray,
}

/// The fallback of a field of `arity`.
pub open spec fn spec_fallback(arity: TypeArity) -> MissingFieldFallback {
    match arity {
        TypeArity::Required => MissingFieldFallback::Reject,
        TypeArity::Optional => MissingFieldFallback::Null,
        TypeArity::List => MissingFieldFallback::EmptyArray,
    }
}

/// A scalar column of the selection: the key it is selected and read by,
/// and what its accessor does when a payload leaves the key out.
#[derive(Debug)]
pub struct SelectedScalar {
    pub name: String,
    pub fallback: MissingFieldFallback,
}

/// A relation of the selection.
#[derive(Debug)]
pub struct IncludePlan {
    /// The include key, the relation field's name.
    pub name: String,
    /// `include_<name>`: includes the relation with all its fields.
    pub include_method: String,
    /// `include_<name>_selected`: includes it with a given selection.
    pub include_selected_method: String,
    /// The module of the target model, whose `IncludeSelection` it takes.
    pub target_module: String,
    /// A list relation, decoded from an array.
    pub to_many: bool,
}

/// The selection module of one model.
#[derive(Debug)]
pub struct SelectionPlan {
    pub model_name: String,
    pub scalars: Vec<SelectedScalar>,
    pub includes: Vec<IncludePlan>,
}

/// `s` is the selection entry of the scalar `field`: a missing key is
/// refused for `Required` arity, read as `None` for `Optional` and as an
/// empty list for `List`.
pub open spec fn plans_scalar(s: SelectedScalar, field: Field) -> bool {
    &&& s.name@ == field.name@
    &&& s.fallback == spec_fallback(field.ty.arity)
}

/// `p` is the include entry of the relation `field`.
pub open spec fn plans_include(p: IncludePlan, field: Field) -> bool {
    &&& p.name@ == field.name@
    &&& p.include_method@ == "include_"@ + field.name@
    &&& p.include_selected_method@ == "include_"@ + field.name@ + "_selected"@
    &&& p.target_module@ == snake_case(field.ty.name@)
    &&& p.to_many == (field.ty.arity == TypeArity::List)
}

/// The selection module of `model`: one scalar entry per scalar column and
/// one include entry per relation, each in declaration order. It is
/// always built.
pub fn plan_selection_module(model: &Model, model_names: &Vec<String>) -> (r: Result<
    SelectionPlan,
    String,
>)
    requires
        distinct_names(model_names@),
    ensures
        r is Ok,
        r matches Ok(p) ==> {
            let models = names_of(model_names@);
            let scalars = kept_fields(model.fields@, models, FieldFilter::Scalar);
            let relations = kept_fields(model.fields@, models, FieldFilter::Relation);
            &&& p.model_name@ == model.name@
            &&& p.scalars@.len() == scalars.len()
            &&& forall|j: int| 0 <= j < scalars.len() ==> plans_scalar(#[trigger] p.scalars@[j], scalars[j])
            &&& p.includes@.len() == relations.len()
            &&& forall|j: int|
                0 <= j < relations.len() ==> plans_include(#[trigger] p.includes@[j], relations[j])
        },
{
    let ghost models = names_of(model_names@);
    let fields = &model.fields;
    let n = fields.len();
    let mut scalars: Vec<SelectedScalar> = Vec::new();
    let mut includes: Vec<IncludePlan> = Vec::new();
    let mut i: usize = 0;
    assert(fields@.take(0) =~= Seq::<Field>::empty());
    while i < n
        invariant
            n == fields@.len(),
            i <= n,
            models == names_of(model_names@),
            scalars@.len() == kept_fields(fields@.take(i as int), models, FieldFilter::Scalar).len(),
            forall|j: int|
                0 <= j < scalars@.len() ==> plans_scalar(
                    #[trigger] scalars@[j],
                    kept_fields(fields@.take(i as int), models, FieldFilter::Scalar)[j],
                ),
            includes@.len() == kept_fields(fields@.take(i as int), models, FieldFilter::Relation).len(),
            forall|j: int|
                0 <= j < includes@.len() ==> plans_include(
                    #[trigger] includes@[j],
                    kept_fields(fields@.take(i as int), models, FieldFilter::Relation)[j],
                ),
        decreases n - i,
    {
        let field = &fields[i];
        assert(fields@.take(i + 1).drop_last() =~= fields@.take(i as int));
        assert(fields@.take(i + 1).last() == *field);
        if keeps(FieldFilter::Scalar, field, model_names) {
            let fallback = match field.ty.arity {
                TypeArity::Required => MissingFieldFallback::Reject,
                TypeArity::Optional => MissingFieldFallback::Null,
                TypeArity::List => MissingFieldFallback::EmptyArray,
            };
            scalars.push(SelectedScalar { name: field.name.clone(), fallback });
        }
        if keeps(FieldFilter::Relation, field, model_names) {
            let name = field.name.as_str();
            let mut include_method = owned("include_");
            include_method.append(name);
            let include_selected_method = concat3("include_", name, "_selected");
            includes.push(
                IncludePlan {
                    name: field.name.clone(),
                    include_method,
                    include_selected_method,
                    target_module: to_snake_case(field.ty.name.as_str()),
                    to_many: field.ty.arity == TypeArity::List,
                },
            );
        }
        i = i + 1;
    }
    assert(fields@.take(n as int) =~= fields@);
    Ok(SelectionPlan { model_name: model.name.clone(), scalars, includes })
}

} // verus!
