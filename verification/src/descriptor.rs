//! The `ModelDescriptor` of a model: the static table that the runtime
//! consults at every CRUD and list call (its name and table, columns,
//! primary key, the field/include allow-lists, the policy slots,
//! auth-derived create defaults, version, audit, PII, sensitive,
//! soft-delete and retention settings, and the upsert columns).

use vstd::prelude::*;
use vstd::string::*;

use crate::columns::{FieldFilter, kept, kept_fields, keeps, lists_names, names_where};
use crate::ir::{Attribute, Field, Model, TypeArity, attribute_present, has_attribute, model_names, names_of};
use crate::model::{
    CreateDefaultType, create_default, mismatched_auth_field, spec_auth_type_fits, spec_default_type,
    unknown_auth_field, unsupported_default_type,
};
use crate::naming::{
    descriptor_name, snake_case, spec_descriptor_name, spec_table_name, table_name, to_snake_case,
};
use crate::server::list_model_names;
use crate::text::{owned, parse_u32, parse_u32_text, starts_with_lit, str_is, trim, trimmed};

verus! {

/// The index of the first of `fields` carrying the attribute `raw`.
pub open spec fn first_marked(fields: Seq<Field>, raw: Seq<char>) -> Option<int>
    decreases fields.len(),
{
    if fields.len() == 0 {
        None
    } else if has_attribute(fields[0].attributes@, raw) {
        Some(0)
    } else {
        match first_marked(fields.drop_first(), raw) {
            Some(i) => Some(i + 1),
            None => None,
        }
    }
}

proof fn lemma_first_marked(fields: Seq<Field>, raw: Seq<char>, i: int)
    requires
        0 <= i <= fields.len(),
        forall|j: int| 0 <= j < i ==> !has_attribute(#[trigger] fields[j].attributes@, raw),
    ensures
        first_marked(fields, raw) == match first_marked(fields.skip(i), raw) {
            Some(k) => Some(k + i),
            None => None::<int>,
        },
    decreases i,
{
    if i > 0 {
        lemma_first_marked(fields.drop_first(), raw, i - 1);
        assert(fields.drop_first().skip(i - 1) =~= fields.skip(i));
        assert(!has_attribute(fields[0].attributes@, raw));
        assert forall|j: int| 0 <= j < i - 1 implies !has_attribute(
            #[trigger] fields.drop_first()[j].attributes@,
            raw,
        ) by {
            assert(fields.drop_first()[j] == fields[j + 1]);
        }
    } else {
        assert(fields.skip(0) =~= fields);
    }
}

/// The index of the first of `fields` with the attribute `raw`.
pub fn first_marked_field(fields: &Vec<Field>, raw: &str) -> (r: Option<usize>)
    ensures
        r matches Some(i) ==> i < fields@.len(),
        r matches Some(i) ==> first_marked(fields@, raw@) == Some(i as int),
        r is None ==> first_marked(fields@, raw@) is None,
{
    let n = fields.len();
    let mut i: usize = 0;
    while i < n
        invariant
            n == fields@.len(),
            i <= n,
            forall|j: int| 0 <= j < i ==> !has_attribute(#[trigger] fields@[j].attributes@, raw@),
        decreases n - i,
    {
        if attribute_present(&fields[i].attributes, raw) {
            proof {
                lemma_first_marked(fields@, raw@, i as int);
                assert(fields@.skip(i as int)[0] == fields@[i as int]);
            }
            return Some(i);
        }
        i = i + 1;
    }
    proof {
        lemma_first_marked(fields@, raw@, n as int);
        assert(fields@.skip(n as int) =~= Seq::<Field>::empty());
    }
    None
}

/// The auth field that an attribute `@default(auth().<name>)` binds.
pub open spec fn auth_default_of(raw: Seq<char>) -> Option<Seq<char>> {
    let p = "@default(auth()."@;
    if p.len() < raw.len() && raw.take(p.len() as int) == p && raw.last() == ')' {
        Some(raw.subrange(p.len() as int, raw.len() - 1))
    } else {
        None
    }
}

/// The auth field bound by the first auth-derived default among
/// `attributes`.
pub open spec fn first_auth_default(attributes: Seq<Attribute>) -> Option<Seq<char>>
    decreases attributes.len(),
{
    if attributes.len() == 0 {
        None
    } else {
        match auth_default_of(attributes[0].raw@) {
            Some(name) => Some(name),
            None => first_auth_default(attributes.drop_first()),
        }
    }
}

fn auth_default_text(raw: &str) -> (r: Option<&str>)
    ensures
        r matches Some(t) ==> auth_default_of(raw@) == Some(t@),
        r is None ==> auth_default_of(raw@) is None,
{
    let prefix = "@default(auth().";
    let m = prefix.unicode_len();
    let n = raw.unicode_len();
    if m < n && starts_with_lit(raw, prefix) && raw.get_char(n - 1) == ')' {
        Some(raw.substring_char(m, n - 1))
    } else {
        None
    }
}

/// The auth field that `field`'s auth-derived default binds, if it has one.
pub fn auth_default_field(field: &Field) -> (r: Option<String>)
    ensures
        r matches Some(t) ==> first_auth_default(field.attributes@) == Some(t@),
        r is None ==> first_auth_default(field.attributes@) is None,
{
    let attributes = &field.attributes;
    let n = attributes.len();
    let mut i: usize = 0;
    assert(attributes@.skip(0) =~= attributes@);
    while i < n
        invariant
            n == attributes@.len(),
            i <= n,
            attributes@ == field.attributes@,
            first_auth_default(attributes@) == first_auth_default(attributes@.skip(i as int)),
        decreases n - i,
    {
        assert(attributes@.skip(i as int)[0] == attributes@[i as int]);
        assert(attributes@.skip(i as int).drop_first() =~= attributes@.skip(i + 1));
        match auth_default_text(attributes[i].raw.as_str()) {
            Some(t) => {
                assert(first_auth_default(attributes@.skip(i as int)) == Some(t@));
                return Some(owned(t));
            },
            None => {},
        }
        i = i + 1;
    }
    assert(attributes@.skip(n as int) =~= Seq::<Attribute>::empty());
    None
}

/// The first field of the auth block named `name`.
pub open spec fn auth_lookup(auth: Seq<Field>, name: Seq<char>) -> Option<Field>
    decreases auth.len(),
{
    if auth.len() == 0 {
        None
    } else if auth[0].name@ == name {
        Some(auth[0])
    } else {
        auth_lookup(auth.drop_first(), name)
    }
}

fn find_auth_field<'a>(auth: &'a Vec<Field>, name: &str) -> (r: Option<&'a Field>)
    ensures
        r matches Some(f) ==> auth_lookup(auth@, name@) == Some(*f),
        r is None ==> auth_lookup(auth@, name@) is None,
{
    let n = auth.len();
    let mut i: usize = 0;
    assert(auth@.skip(0) =~= auth@);
    while i < n
        invariant
            n == auth@.len(),
            i <= n,
            auth_lookup(auth@, name@) == auth_lookup(auth@.skip(i as int), name@),
        decreases n - i,
    {
        assert(auth@.skip(i as int)[0] == auth@[i as int]);
        assert(auth@.skip(i as int).drop_first() =~= auth@.skip(i + 1));
        if str_is(auth[i].name.as_str(), name) {
            return Some(&auth[i]);
        }
        i = i + 1;
    }
    assert(auth@.skip(n as int) =~= Seq::<Field>::empty());
    None
}

/// An auth-derived create default of the descriptor: the column it fills,
/// the auth field it reads, the column type and whether it is nullable.
#[derive(Debug)]
pub struct DefaultColumn {
    pub column: String,
    pub auth_field: String,
    pub ty: CreateDefaultType,
    pub nullable: bool,
}

/// A create default as plain values.
pub open spec fn default_view(d: DefaultColumn) -> (Seq<char>, Seq<char>, CreateDefaultType, bool) {
    (d.column@, d.auth_field@, d.ty, d.nullable)
}

pub open spec fn default_views(ds: Seq<DefaultColumn>) -> Seq<(Seq<char>, Seq<char>, CreateDefaultType, bool)> {
    ds.map_values(|d: DefaultColumn| default_view(d))
}

/// The create default of `field` of `model`, reading `auth_name` from the
/// auth block `auth`, or its refusal.
pub open spec fn spec_field_default(model: Seq<char>, field: Field, auth_name: Seq<char>, auth: Seq<Field>) -> Result<
    (Seq<char>, Seq<char>, CreateDefaultType, bool),
    Seq<char>,
> {
    match auth_lookup(auth, auth_name) {
        None => Err(unknown_auth_field(model, field.name@, auth_name)),
        Some(a) => if !spec_auth_type_fits(field.ty.name@, a.ty.name@) {
            Err(mismatched_auth_field(model, field.name@))
        } else {
            match spec_default_type(field.ty.name@) {
                None => Err(unsupported_default_type(model, field.ty.name@)),
                Some(t) => Ok(
                    (snake_case(field.name@), auth_name, t, field.ty.arity == TypeArity::Optional),
                ),
            }
        },
    }
}

/// The create defaults of the scalar `fields` that carry an auth-derived
/// default, in declaration order, or the refusal of the first that cannot
/// have one.
pub open spec fn spec_defaults(model: Seq<char>, fields: Seq<Field>, models: Seq<Seq<char>>, auth: Seq<Field>) -> Result<
    Seq<(Seq<char>, Seq<char>, CreateDefaultType, bool)>,
    Seq<char>,
>
    decreases fields.len(),
{
    if fields.len() == 0 {
        Ok(Seq::empty())
    } else {
        match spec_defaults(model, fields.drop_last(), models, auth) {
            Err(e) => Err(e),
            Ok(v) => {
                let f = fields.last();
                if kept(FieldFilter::Scalar, f, models) && first_auth_default(f.attributes@) is Some {
                    match spec_field_default(model, f, first_auth_default(f.attributes@)->0, auth) {
                        Ok(d) => Ok(v.push(d)),
                        Err(e) => Err(e),
                    }
                } else {
                    Ok(v)
                }
            },
        }
    }
}

/// The create defaults of `model`'s scalar fields.
pub fn create_defaults(model: &Model, model_names: &Vec<String>, auth: &Vec<Field>) -> (r: Result<
    Vec<DefaultColumn>,
    String,
>)
    ensures
        match r {
            Ok(ds) => spec_defaults(model.name@, model.fields@, names_of(model_names@), auth@) == Ok::<
                Seq<(Seq<char>, Seq<char>, CreateDefaultType, bool)>,
                Seq<char>,
            >(default_views(ds@)),
            Err(m) => spec_defaults(model.name@, model.fields@, names_of(model_names@), auth@) == Err::<
                Seq<(Seq<char>, Seq<char>, CreateDefaultType, bool)>,
                Seq<char>,
            >(m@),
        },
{
    let ghost models = names_of(model_names@);
    let fields = &model.fields;
    let n = fields.len();
    let mut out: Vec<DefaultColumn> = Vec::new();
    let mut i: usize = 0;
    assert(fields@.take(0) =~= Seq::<Field>::empty());
    assert(default_views(out@) =~= Seq::empty());
    while i < n
        invariant
            n == fields@.len(),
            i <= n,
            models == names_of(model_names@),
            fields@ == model.fields@,
            spec_defaults(model.name@, fields@.take(i as int), models, auth@) == Ok::<
                Seq<(Seq<char>, Seq<char>, CreateDefaultType, bool)>,
                Seq<char>,
            >(default_views(out@)),
        decreases n - i,
    {
        let field = &fields[i];
        assert(fields@.take(i + 1).drop_last() =~= fields@.take(i as int));
        assert(fields@.take(i + 1).last() == *field);
        if keeps(FieldFilter::Scalar, field, model_names) {
            match auth_default_field(field) {
                Some(auth_name) => {
                    let decl = find_auth_field(auth, auth_name.as_str());
                    match create_default(model.name.as_str(), field, auth_name.as_str(), decl) {
                        Ok(d) => {
                            let ghost before = out@;
                            out.push(
                                DefaultColumn {
                                    column: to_snake_case(field.name.as_str()),
                                    auth_field: d.auth_field,
                                    ty: d.ty,
                                    nullable: d.nullable,
                                },
                            );
                            assert(default_views(out@) =~= default_views(before).push(
                                default_view(out@.last()),
                            ));
                        },
                        Err(m) => {
                            assert(spec_field_default(model.name@, *field, auth_name@, auth@) == Err::<
                                (Seq<char>, Seq<char>, CreateDefaultType, bool),
                                Seq<char>,
                            >(m@));
                            assert(spec_defaults(model.name@, fields@.take(i + 1), models, auth@) == Err::<
                                Seq<(Seq<char>, Seq<char>, CreateDefaultType, bool)>,
                                Seq<char>,
                            >(m@));
                            assert(fields@.take(n as int) =~= fields@);
                            proof {
                                lemma_defaults_stay_refused(
                                    model.name@,
                                    fields@,
                                    models,
                                    auth@,
                                    i + 1,
                                );
                            }
                            return Err(m);
                        },
                    }
                },
                None => {},
            }
        }
        i = i + 1;
    }
    assert(fields@.take(n as int) =~= fields@);
    Ok(out)
}

proof fn lemma_defaults_stay_refused(
    model: Seq<char>,
    fields: Seq<Field>,
    models: Seq<Seq<char>>,
    auth: Seq<Field>,
    i: int,
)
    requires
        0 <= i <= fields.len(),
        spec_defaults(model, fields.take(i), models, auth) is Err,
    ensures
        spec_defaults(model, fields, models, auth) == spec_defaults(model, fields.take(i), models, auth),
    decreases fields.len() - i,
{
    if i < fields.len() {
        assert(fields.take(i + 1).drop_last() =~= fields.take(i));
        lemma_defaults_stay_refused(model, fields, models, auth, i + 1);
    } else {
        assert(fields.take(i) =~= fields);
    }
}

/// The retention that an attribute `@@retain(days: <n>)` sets, when `<n>`
/// (trimmed) parses as a `u32`.
pub open spec fn retain_value(raw: Seq<char>) -> Option<u32> {
    let p = "@@retain(days:"@;
    if p.len() < raw.len() && raw.take(p.len() as int) == p && raw.last() == ')' {
        parse_u32(trimmed(raw.subrange(p.len() as int, raw.len() - 1)))
    } else {
        None
    }
}

/// The retention of the first `@@retain` attribute that sets one.
pub open spec fn first_retention(attributes: Seq<Attribute>) -> Option<u32>
    decreases attributes.len(),
{
    if attributes.len() == 0 {
        None
    } else {
        match retain_value(attributes[0].raw@) {
            Some(n) => Some(n),
            None => first_retention(attributes.drop_first()),
        }
    }
}

fn retain_text(raw: &str) -> (r: Option<u32>)
    ensures
        r == retain_value(raw@),
{
    let prefix = "@@retain(days:";
    let m = prefix.unicode_len();
    let n = raw.unicode_len();
    if m < n && starts_with_lit(raw, prefix) && raw.get_char(n - 1) == ')' {
        parse_u32_text(trim(raw.substring_char(m, n - 1)))
    } else {
        None
    }
}

/// The retention in days that `model`'s attributes set.
pub fn retention_days(model: &Model) -> (r: Option<u32>)
    ensures
        r == first_retention(model.attributes@),
{
    let attributes = &model.attributes;
    let n = attributes.len();
    let mut i: usize = 0;
    assert(attributes@.skip(0) =~= attributes@);
    while i < n
        invariant
            n == attributes@.len(),
            i <= n,
            attributes@ == model.attributes@,
            first_retention(attributes@) == first_retention(attributes@.skip(i as int)),
        decreases n - i,
    {
        assert(attributes@.skip(i as int)[0] == attributes@[i as int]);
        assert(attributes@.skip(i as int).drop_first() =~= attributes@.skip(i + 1));
        let days = retain_text(attributes[i].raw.as_str());
        if days.is_some() {
            assert(first_retention(attributes@.skip(i as int)) == days);
            return days;
        }
        i = i + 1;
    }
    assert(attributes@.skip(n as int) =~= Seq::<Attribute>::empty());
    None
}

/// The operation a policy slot governs.
#[derive(Debug, Clone, Copy, PartialEq, Eq, Structural)]
pub enum PolicyAction {
    List,
    Detail,
    Create,
    Update,
    Delete,
}

/// One of the policy slots of a descriptor: the `@@allow` (or, when
/// `deny`, `@@deny`) rules for `action`, and also those for `read` when
/// `also_read`.
#[derive(Debug, Clone, Copy, PartialEq, Eq, Structural)]
pub struct PolicySlot {
    pub action: PolicyAction,
    pub also_read: bool,
    pub deny: bool,
}

/// The ten policy slots, in the order the descriptor takes them: list
/// (with read) allow and deny, detail (with read) allow and deny, then
/// allow and deny of create, update and delete.
pub open spec fn policy_slots() -> Seq<PolicySlot> {
    seq![
        PolicySlot { action: PolicyAction::List, also_read: true, deny: false },
        PolicySlot { action: PolicyAction::List, also_read: true, deny: true },
        PolicySlot { action: PolicyAction::Detail, also_read: true, deny: false },
        PolicySlot { action: PolicyAction::Detail, also_read: true, deny: true },
        PolicySlot { action: PolicyAction::Create, also_read: false, deny: false },
        PolicySlot { action: PolicyAction::Create, also_read: false, deny: true },
        PolicySlot { action: PolicyAction::Update, also_read: false, deny: false },
        PolicySlot { action: PolicyAction::Update, also_read: false, deny: true },
        PolicySlot { action: PolicyAction::Delete, also_read: false, deny: false },
        PolicySlot { action: PolicyAction::Delete, also_read: false, deny: true },
    ]
}

fn slots() -> (r: Vec<PolicySlot>)
    ensures
        r@ == policy_slots(),
{
    let mut r: Vec<PolicySlot> = Vec::new();
    r.push(PolicySlot { action: PolicyAction::List, also_read: true, deny: false });
    r.push(PolicySlot { action: PolicyAction::List, also_read: true, deny: true });
    r.push(PolicySlot { action: PolicyAction::Detail, also_read: true, deny: false });
    r.push(PolicySlot { action: PolicyAction::Detail, also_read: true, deny: true });
    r.push(PolicySlot { action: PolicyAction::Create, also_read: false, deny: false });
    r.push(PolicySlot { action: PolicyAction::Create, also_read: false, deny: true });
    r.push(PolicySlot { action: PolicyAction::Update, also_read: false, deny: false });
    r.push(PolicySlot { action: PolicyAction::Update, also_read: false, deny: true });
    r.push(PolicySlot { action: PolicyAction::Delete, also_read: false, deny: false });
    r.push(PolicySlot { action: PolicyAction::Delete, also_read: false, deny: true });
    assert(r@ =~= policy_slots());
    r
}

/// The descriptor of one model.
#[derive(Debug)]
pub struct DescriptorPlan {
    pub model_name: String,
    /// The constant's name: `<MODEL_SNAKE>_MODEL`.
    pub descriptor_name: String,
    pub table_name: String,
    /// The columns: each scalar field's name, and beside it its SQL name.
    pub columns: Vec<String>,
    pub column_sql_names: Vec<String>,
    pub primary_key_column: String,
    pub allowed_fields: Vec<String>,
    pub allowed_includes: Vec<String>,
    pub policy_slots: Vec<PolicySlot>,
    pub create_defaults: Vec<DefaultColumn>,
    pub version_column: Option<String>,
    pub audit_enabled: bool,
    pub pii_columns: Vec<String>,
    pub sensitive_columns: Vec<String>,
    pub soft_delete_column: Option<String>,
    pub retention_days: Option<u32>,
    pub upsert_update_columns: Vec<String>,
}

/// The descriptor of `model` among `models`, whose auth block declares
/// `auth` (empty without one). The primary key is the first `@id` field
/// (a validated model has one); the version column is that of the first
/// `@version` field; `@@audit` enables auditing and `@@soft_delete` marks
/// rows deleted through `deleted_at`. The only refusal is that of the
/// first auth-derived default that cannot be bound.
pub fn plan_model_descriptor(model: &Model, models: &Vec<Model>, auth: &Vec<Field>) -> (r: Result<
    DescriptorPlan,
    String,
>)
    requires
        first_marked(model.fields@, "@id"@) is Some,
    ensures
        match r {
            Ok(p) => {
                let names = model_names(models@);
                let fs = model.fields@;
                &&& spec_defaults(model.name@, fs, names, auth@) == Ok::<
                    Seq<(Seq<char>, Seq<char>, CreateDefaultType, bool)>,
                    Seq<char>,
                >(default_views(p.create_defaults@))
                &&& p.model_name@ == model.name@
                &&& p.descriptor_name@ == spec_descriptor_name(model.name@)
                &&& p.table_name@ == spec_table_name(model.name@)
                &&& lists_names(p.columns@, kept_fields(fs, names, FieldFilter::Scalar), false)
                &&& lists_names(p.column_sql_names@, kept_fields(fs, names, FieldFilter::Scalar), true)
                &&& p.primary_key_column@ == snake_case(
                    fs[first_marked(fs, "@id"@)->0].name@,
                )
                &&& lists_names(p.allowed_fields@, kept_fields(fs, names, FieldFilter::AllowedScalar), false)
                &&& lists_names(p.allowed_includes@, kept_fields(fs, names, FieldFilter::Relation), false)
                &&& p.policy_slots@ == policy_slots()
                &&& match first_marked(fs, "@version"@) {
                    Some(i) => p.version_column matches Some(c) && c@ == snake_case(fs[i].name@),
                    None => p.version_column is None,
                }
                &&& p.audit_enabled == has_attribute(model.attributes@, "@@audit"@)
                &&& lists_names(p.pii_columns@, kept_fields(fs, names, FieldFilter::PiiScalar), true)
                &&& lists_names(p.sensitive_columns@, kept_fields(fs, names, FieldFilter::SensitiveScalar), true)
                &&& if has_attribute(model.attributes@, "@@soft_delete"@) {
                    p.soft_delete_column matches Some(c) && c@ == "deleted_at"@
                } else {
                    p.soft_delete_column is None
                }
                &&& p.retention_days == first_retention(model.attributes@)
                &&& lists_names(p.upsert_update_columns@, kept_fields(fs, names, FieldFilter::UpsertScalar), true)
            },
            Err(m) => spec_defaults(model.name@, model.fields@, model_names(models@), auth@)
                == Err::<Seq<(Seq<char>, Seq<char>, CreateDefaultType, bool)>, Seq<char>>(m@),
        },
{
    let names = list_model_names(models);
    let create_defaults = match create_defaults(model, &names, auth) {
        Ok(ds) => ds,
        Err(m) => return Err(m),
    };
    let fields = &model.fields;
    let pk = first_marked_field(fields, "@id").unwrap();
    let version_column = match first_marked_field(fields, "@version") {
        Some(i) => Some(to_snake_case(fields[i].name.as_str())),
        None => None,
    };
    let soft_delete_column = if attribute_present(&model.attributes, "@@soft_delete") {
        Some(owned("deleted_at"))
    } else {
        None
    };
    Ok(
        DescriptorPlan {
            model_name: model.name.clone(),
            descriptor_name: descriptor_name(model.name.as_str()),
            table_name: table_name(model.name.as_str()),
            columns: names_where(fields, &names, FieldFilter::Scalar, false),
            column_sql_names: names_where(fields, &names, FieldFilter::Scalar, true),
            primary_key_column: to_snake_case(fields[pk].name.as_str()),
            allowed_fields: names_where(fields, &names, FieldFilter::AllowedScalar, false),
            allowed_includes: names_where(fields, &names, FieldFilter::Relation, false),
            policy_slots: slots(),
            create_defaults,
            version_column,
            audit_enabled: attribute_present(&model.attributes, "@@audit"),
            pii_columns: names_where(fields, &names, FieldFilter::PiiScalar, true),
            sensitive_columns: names_where(fields, &names, FieldFilter::SensitiveScalar, true),
            soft_delete_column,
            retention_days: retention_days(model),
            upsert_update_columns: names_where(fields, &names, FieldFilter::UpsertScalar, true),
        },
    )
}

} // verus!
