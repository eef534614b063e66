//! Which fields of a model are columns and which are relations, and the
//! field lists that the descriptor and the selection builders are made
//! of: a field whose type names a model is a relation, every other field
//! is a scalar column.

use vstd::prelude::*;

use crate::ir::{Attribute, Field, attribute_present, has_attribute, name_listed, names_of};
use crate::naming::{snake_case, to_snake_case};
use crate::text::starts_with_lit;

verus! {

/// Some attribute of `attributes` begins with `prefix`.
pub open spec fn has_attribute_prefix(attributes: Seq<Attribute>, prefix: Seq<char>) -> bool {
    exists|i: int|
        0 <= i < attributes.len() && prefix.len() <= #[trigger] attributes[i].raw@.len()
            && attributes[i].raw@.take(prefix.len() as int) == prefix
}

/// `@default(...)`: a column the server fills on create.
pub open spec fn spec_is_generated_on_create(field: Field) -> bool {
    has_attribute_prefix(field.attributes@, "@default("@)
}

pub fn is_generated_on_create(field: &Field) -> (b: bool)
    ensures
        b == spec_is_generated_on_create(*field),
{
    let n = field.attributes.len();
    let mut i: usize = 0;
    while i < n
        invariant
            n == field.attributes@.len(),
            i <= n,
            forall|j: int|
                0 <= j < i ==> !("@default("@.len() <= #[trigger] field.attributes@[j].raw@.len()
                    && field.attributes@[j].raw@.take("@default("@.len() as int) == "@default("@),
        decreases n - i,
    {
        if starts_with_lit(field.attributes[i].raw.as_str(), "@default(") {
            return true;
        }
        i = i + 1;
    }
    false
}

/// Which fields a list takes.
#[derive(Debug, Clone, Copy, PartialEq, Eq, Structural)]
pub enum FieldFilter {
    /// Every scalar column.
    Scalar,
    /// Scalars a client may select: not `@server_only`.
    AllowedScalar,
    /// `@pii` scalars.
    PiiScalar,
    /// `@sensitive` scalars.
    SensitiveScalar,
    /// Scalars an upsert may overwrite on conflict: not the primary key
    /// (`@id`), not `@version`, `@readonly`, `@server_only`, nor filled on
    /// create (`@default(...)`).
    UpsertScalar,
    /// Relations.
    Relation,
}

/// `field` is taken by `filter`, given the schema's model names.
pub open spec fn kept(filter: FieldFilter, field: Field, models: Seq<Seq<char>>) -> bool {
    let scalar = !models.contains(field.ty.name@);
    let a = field.attributes@;
    match filter {
        FieldFilter::Scalar => scalar,
        FieldFilter::AllowedScalar => scalar && !has_attribute(a, "@server_only"@),
        FieldFilter::PiiScalar => scalar && has_attribute(a, "@pii"@),
        FieldFilter::SensitiveScalar => scalar && has_attribute(a, "@sensitive"@),
        FieldFilter::UpsertScalar => scalar && !has_attribute(a, "@id"@) && !has_attribute(
            a,
            "@version"@,
        ) && !has_attribute(a, "@readonly"@) && !has_attribute(a, "@server_only"@)
            && !spec_is_generated_on_create(field),
        FieldFilter::Relation => !scalar,
    }
}

/// The allow-list withholds exactly the `@server_only` columns: a field is
/// allowed if and only if it is a scalar column without `@server_only`.
/// In particular `@pii` and `@sensitive` never withhold a field, every
/// PII or sensitive column and every upsert column is a column, and no
/// relation is a column.
pub proof fn law_allow_list_withholds_only_server_only(field: Field, models: Seq<Seq<char>>)
    ensures
        kept(FieldFilter::AllowedScalar, field, models) <==> (kept(FieldFilter::Scalar, field, models)
            && !has_attribute(field.attributes@, "@server_only"@)),
        kept(FieldFilter::PiiScalar, field, models) && !has_attribute(field.attributes@, "@server_only"@)
            ==> kept(FieldFilter::AllowedScalar, field, models),
        kept(FieldFilter::SensitiveScalar, field, models) && !has_attribute(
            field.attributes@,
            "@server_only"@,
        ) ==> kept(FieldFilter::AllowedScalar, field, models),
        kept(FieldFilter::PiiScalar, field, models) ==> kept(FieldFilter::Scalar, field, models),
        kept(FieldFilter::SensitiveScalar, field, models) ==> kept(FieldFilter::Scalar, field, models),
        kept(FieldFilter::UpsertScalar, field, models) ==> kept(FieldFilter::AllowedScalar, field, models)
            && !has_attribute(field.attributes@, "@id"@) && !has_attribute(
            field.attributes@,
            "@version"@,
        ) && !has_attribute(field.attributes@, "@readonly"@),
        kept(FieldFilter::Scalar, field, models) != kept(FieldFilter::Relation, field, models),
        kept(FieldFilter::Scalar, field, models) <==> !models.contains(field.ty.name@),
{
}

/// The fields taken by `filter`, in declaration order.
pub open spec fn kept_fields(fields: Seq<Field>, models: Seq<Seq<char>>, filter: FieldFilter) -> Seq<
    Field,
>
    decreases fields.len(),
{
    if fields.len() == 0 {
        Seq::empty()
    } else {
        let rest = kept_fields(fields.drop_last(), models, filter);
        if kept(filter, fields.last(), models) {
            rest.push(fields.last())
        } else {
            rest
        }
    }
}

/// Whether `filter` takes `field`.
pub fn keeps(filter: FieldFilter, field: &Field, model_names: &Vec<String>) -> (b: bool)
    ensures
        b == kept(filter, *field, names_of(model_names@)),
{
    let scalar = !name_listed(model_names, field.ty.name.as_str());
    let a = &field.attributes;
    match filter {
        FieldFilter::Scalar => scalar,
        FieldFilter::AllowedScalar => scalar && !attribute_present(a, "@server_only"),
        FieldFilter::PiiScalar => scalar && attribute_present(a, "@pii"),
        FieldFilter::SensitiveScalar => scalar && attribute_present(a, "@sensitive"),
        FieldFilter::UpsertScalar => scalar && !attribute_present(a, "@id") && !attribute_present(
            a,
            "@version",
        ) && !attribute_present(a, "@readonly") && !attribute_present(a, "@server_only")
            && !is_generated_on_create(field),
        FieldFilter::Relation => !scalar,
    }
}

/// `out` holds the name of each of `fields`, in order: snake_cased when
/// `snake` (a column name), as declared otherwise.
pub open spec fn lists_names(out: Seq<String>, fields: Seq<Field>, snake: bool) -> bool {
    &&& out.len() == fields.len()
    &&& forall|j: int|
        0 <= j < out.len() ==> #[trigger] out[j]@ == (if snake {
            snake_case(fields[j].name@)
        } else {
            fields[j].name@
        })
}

/// The names (or column names, when `snake`) of the fields that `filter`
/// takes, in declaration order.
pub fn names_where(fields: &Vec<Field>, model_names: &Vec<String>, filter: FieldFilter, snake: bool) -> (r:
    Vec<String>)
    ensures
        lists_names(r@, kept_fields(fields@, names_of(model_names@), filter), snake),
{
    let ghost models = names_of(model_names@);
    let mut out: Vec<String> = Vec::new();
    let n = fields.len();
    let mut i: usize = 0;
    assert(fields@.take(0) =~= Seq::<Field>::empty());
    while i < n
        invariant
            n == fields@.len(),
            i <= n,
            models == names_of(model_names@),
            lists_names(out@, kept_fields(fields@.take(i as int), models, filter), snake),
        decreases n - i,
    {
        let field = &fields[i];
        assert(fields@.take(i + 1).drop_last() =~= fields@.take(i as int));
        assert(fields@.take(i + 1).last() == *field);
        if keeps(filter, field, model_names) {
            let name = if snake {
                to_snake_case(field.name.as_str())
            } else {
                field.name.clone()
            };
            out.push(name);
        }
        i = i + 1;
    }
    assert(fields@.take(n as int) =~= fields@);
    out
}

} // verus!
