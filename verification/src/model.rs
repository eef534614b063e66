//! Per-model decisions of code generation: which fields a typed `where`
//! filter offers which operators for, which field carries `@version`, and
//! what an auth-derived create default binds.

use vstd::prelude::*;

use crate::ir::{
    Field, Model, TypeArity, attribute_present, distinct_names, has_attribute, name_listed, names_of,
};
use crate::columns::{FieldFilter, keeps, kept_fields};
use crate::naming::{snake_case, to_snake_case};
use crate::text::owned;
use vstd::string::*;
use crate::text::str_is;

verus! {

/// The scalars whose values are known to round-trip through a filter.
pub open spec fn spec_is_filterable_scalar(field: Field) -> bool {
    let n = field.ty.name@;
    n == "String"@ || n == "Cuid"@ || n == "Int"@ || n == "Float"@ || n == "Boolean"@ || n
        == "Uuid"@ || n == "DateTime"@ || n == "Decimal"@
}

/// The filterable scalars are exactly `String`, `Cuid`, `Int`, `Float`,
/// `Boolean`, `Uuid`, `DateTime` and `Decimal`; ordering operators come
/// with every one of them but `Boolean`, and string operators with
/// `String` and `Cuid` only, which are therefore orderable too.
pub proof fn law_filterable_scalar_table(field: Field)
    ensures
        spec_is_filterable_scalar(field) <==> set![
            "String"@,
            "Cuid"@,
            "Int"@,
            "Float"@,
            "Boolean"@,
            "Uuid"@,
            "DateTime"@,
            "Decimal"@,
        ].contains(field.ty.name@),
        (field.ty.name@ == "String"@ || field.ty.name@ == "Cuid"@) ==> spec_is_filterable_scalar(
            field,
        ) && field.ty.name@ != "Boolean"@,
{
    reveal_strlit("String");
    reveal_strlit("Cuid");
    reveal_strlit("Boolean");
    assert("String"@[0] != "Boolean"@[0]);
    assert("Cuid"@[0] != "Boolean"@[0]);
}

/// Types that can be filtered by equality: `Json`, `Bytes`, enums and
/// custom `type`s are excluded.
pub fn is_filterable_scalar(field: &Field) -> (b: bool)
    ensures
        b == spec_is_filterable_scalar(*field),
{
    let n = field.ty.name.as_str();
    str_is(n, "String") || str_is(n, "Cuid") || str_is(n, "Int") || str_is(n, "Float") || str_is(
        n,
        "Boolean",
    ) || str_is(n, "Uuid") || str_is(n, "DateTime") || str_is(n, "Decimal")
}

/// `lt`/`lte`/`gt`/`gte`: every filterable scalar except `Boolean`, at any
/// arity.
pub fn supports_ordering_ops(field: &Field) -> (b: bool)
    ensures
        b == (spec_is_filterable_scalar(*field) && field.ty.name@ != "Boolean"@),
{
    is_filterable_scalar(field) && !str_is(field.ty.name.as_str(), "Boolean")
}

/// `contains`/`startsWith`: `String` and `Cuid` only.
pub fn supports_string_ops(field: &Field) -> (b: bool)
    ensures
        b == (field.ty.name@ == "String"@ || field.ty.name@ == "Cuid"@),
{
    str_is(field.ty.name.as_str(), "String") || str_is(field.ty.name.as_str(), "Cuid")
}

/// The first field of `model` marked `@version`.
pub fn version_field(model: &Model) -> (r: Option<&Field>)
    ensures
        match r {
            Some(f) => exists|i: int|
                0 <= i < model.fields@.len() && model.fields@[i] == *f && has_attribute(
                    f.attributes@,
                    "@version"@,
                ) && forall|j: int|
                    0 <= j < i ==> !has_attribute(
                        #[trigger] model.fields@[j].attributes@,
                        "@version"@,
                    ),
            None => forall|i: int|
                0 <= i < model.fields@.len() ==> !has_attribute(
                    #[trigger] model.fields@[i].attributes@,
                    "@version"@,
                ),
        },
{
    let n = model.fields.len();
    let mut i: usize = 0;
    while i < n
        invariant
            n == model.fields@.len(),
            i <= n,
            forall|j: int|
                0 <= j < i ==> !has_attribute(#[trigger] model.fields@[j].attributes@, "@version"@),
        decreases n - i,
    {
        if attribute_present(&model.fields[i].attributes, "@version") {
            return Some(&model.fields[i]);
        }
        i = i + 1;
    }
    None
}

/// The column type of an auth-derived create default.
#[derive(Debug, Clone, Copy, PartialEq, Eq, Structural)]
pub enum CreateDefaultType {
    String,
    Int,
    Bool,
}

/// What an auth-derived create default binds: the auth field it reads,
/// the column type, and whether the column is nullable.
#[derive(Debug, PartialEq, Eq)]
pub struct CreateDefault {
    pub auth_field: String,
    pub ty: CreateDefaultType,
    pub nullable: bool,
}

/// ``auth-derived default on `<model>.<field>` references unknown auth field `<auth>` ``.
pub open spec fn unknown_auth_field(model: Seq<char>, field: Seq<char>, auth: Seq<char>) -> Seq<char> {
    "auth-derived default on `"@ + model + "."@ + field + "` references unknown auth field `"@ + auth
        + "`"@
}

/// ``auth-derived default on `<model>.<field>` requires matching auth/model field types``.
pub open spec fn mismatched_auth_field(model: Seq<char>, field: Seq<char>) -> Seq<char> {
    "auth-derived default on `"@ + model + "."@ + field
        + "` requires matching auth/model field types"@
}

/// The refusal of a column type that auth-derived defaults do not support.
pub open spec fn unsupported_default_type(model: Seq<char>, ty: Seq<char>) -> Seq<char> {
    "auth-derived defaults currently support only String/Cuid, Int, and Boolean fields; `"@ + model
        + "`."@ + ty + " is unsupported"@
}

/// The column type a field of type `ty` takes as an auth-derived default.
pub open spec fn spec_default_type(ty: Seq<char>) -> Option<CreateDefaultType> {
    if ty == "String"@ || ty == "Cuid"@ {
        Some(CreateDefaultType::String)
    } else if ty == "Int"@ {
        Some(CreateDefaultType::Int)
    } else if ty == "Boolean"@ {
        Some(CreateDefaultType::Bool)
    } else {
        None
    }
}

/// The auth field may fill the model field: the same type, or a `String`
/// filling a `Cuid`.
pub open spec fn spec_auth_type_fits(field_ty: Seq<char>, auth_ty: Seq<char>) -> bool {
    auth_ty == field_ty || (field_ty == "Cuid"@ && auth_ty == "String"@)
}

/// The auth-derived default of `field` of `model_name`, reading the auth
/// field `auth_name`, which the auth block declares as `auth_field` when it
/// declares it at all. Refused, in this order: an auth field that is not
/// declared, one whose type does not fit the column, a column type other
/// than `String`/`Cuid`, `Int` and `Boolean`.
pub fn create_default(
    model_name: &str,
    field: &Field,
    auth_name: &str,
    auth_field: Option<&Field>,
) -> (r: Result<CreateDefault, String>)
    ensures
        match r {
            Ok(d) => {
                &&& auth_field matches Some(a) && spec_auth_type_fits(field.ty.name@, a.ty.name@)
                &&& spec_default_type(field.ty.name@) == Some(d.ty)
                &&& d.auth_field@ == auth_name@
                &&& d.nullable == (field.ty.arity == TypeArity::Optional)
            },
            Err(m) => match auth_field {
                None => m@ == unknown_auth_field(model_name@, field.name@, auth_name@),
                Some(a) => if !spec_auth_type_fits(field.ty.name@, a.ty.name@) {
                    m@ == mismatched_auth_field(model_name@, field.name@)
                } else {
                    spec_default_type(field.ty.name@) is None && m@ == unsupported_default_type(
                        model_name@,
                        field.ty.name@,
                    )
                },
            },
        },
{
    let decl = match auth_field {
        Some(decl) => decl,
        None => {
            let mut m = owned("auth-derived default on `");
            m.append(model_name);
            m.append(".");
            m.append(field.name.as_str());
            m.append("` references unknown auth field `");
            m.append(auth_name);
            m.append("`");
            return Err(m);
        },
    };
    let field_ty = field.ty.name.as_str();
    if !(decl.ty.name == field.ty.name) && !(str_is(field_ty, "Cuid") && str_is(
        decl.ty.name.as_str(),
        "String",
    )) {
        let mut m = owned("auth-derived default on `");
        m.append(model_name);
        m.append(".");
        m.append(field.name.as_str());
        m.append("` requires matching auth/model field types");
        return Err(m);
    }
    let ty = if str_is(field_ty, "String") || str_is(field_ty, "Cuid") {
        CreateDefaultType::String
    } else if str_is(field_ty, "Int") {
        CreateDefaultType::Int
    } else if str_is(field_ty, "Boolean") {
        CreateDefaultType::Bool
    } else {
        let mut m = owned("auth-derived defaults currently support only String/Cuid, Int, and Boolean fields; `");
        m.append(model_name);
        m.append("`.");
        m.append(field_ty);
        m.append(" is unsupported");
        return Err(m);
    };
    Ok(CreateDefault {
        auth_field: owned(auth_name),
        ty,
        nullable: field.ty.arity == TypeArity::Optional,
    })
}

/// The row type a generated model struct is decoded from.
#[derive(Debug, Clone, Copy, PartialEq, Eq, Structural)]
pub enum RowBackend {
    /// `sqlx::postgres::PgRow`.
    Postgres,
    /// `rusqlite::Row`.
    Sqlite,
}

/// How one column of a row becomes a model field.
#[derive(Debug, Clone, Copy, PartialEq, Eq, Structural)]
pub enum RowDecode {
    /// The column read as the field's own type.
    Plain,
    /// Postgres JSON: read as `Json<DbJson>`, so plain JSONB is accepted,
    /// then converted into the public `Json(Value)`.
    JsonViaDbJson,
    /// An enum stored as its variant's text, parsed.
    EnumText,
    /// A list of enums stored as a native text array, each parsed.
    EnumTextArray,
    /// A list of enums stored as a JSON array of variant strings.
    EnumJsonArray,
    /// A SQLite integer, nonzero meaning `true`.
    BoolFromI64,
    /// Text read through `UuidColumn`.
    UuidColumn,
    /// Text read through `DateTimeColumn`.
    DateTimeColumn,
    /// Text read through `DecimalColumn`.
    DecimalColumn,
    /// SQLite text holding a JSON document, parsed.
    JsonText,
}

/// The decoding of one field: how its column is read, and the field's
/// arity (an `Optional` column may be NULL, a `List` one holds many).
#[derive(Debug, Clone, Copy, PartialEq, Eq, Structural)]
pub struct RowField {
    pub decode: RowDecode,
    pub arity: TypeArity,
}

/// Postgres reads a `Json` field through `DbJson`, stores an enum as text
/// and a list of enums as a text array; every other type is read as is.
pub open spec fn spec_pg_decode(field: Field, enums: Seq<Seq<char>>) -> RowDecode {
    if field.ty.name@ == "Json"@ {
        RowDecode::JsonViaDbJson
    } else if !enums.contains(field.ty.name@) {
        RowDecode::Plain
    } else if field.ty.arity == TypeArity::List {
        RowDecode::EnumTextArray
    } else {
        RowDecode::EnumText
    }
}

/// SQLite stores an enum as text and a list of them as a JSON array;
/// single (required or optional) `Boolean`, `Uuid`, `DateTime`,
/// `Decimal` and `Json` values go through their column wrappers; a list
/// of those, and every other type, is read as is.
pub open spec fn spec_sqlite_decode(field: Field, enums: Seq<Seq<char>>) -> RowDecode {
    let n = field.ty.name@;
    if enums.contains(n) {
        if field.ty.arity == TypeArity::List {
            RowDecode::EnumJsonArray
        } else {
            RowDecode::EnumText
        }
    } else if field.ty.arity == TypeArity::List {
        RowDecode::Plain
    } else if n == "Boolean"@ {
        RowDecode::BoolFromI64
    } else if n == "Uuid"@ {
        RowDecode::UuidColumn
    } else if n == "DateTime"@ {
        RowDecode::DateTimeColumn
    } else if n == "Decimal"@ {
        RowDecode::DecimalColumn
    } else if n == "Json"@ {
        RowDecode::JsonText
    } else {
        RowDecode::Plain
    }
}

/// The decoding of `field` from a row of `backend`, given the schema's
/// enum names.
pub open spec fn spec_row_decode(field: Field, enums: Seq<Seq<char>>, backend: RowBackend) -> RowField {
    RowField {
        decode: match backend {
            RowBackend::Postgres => spec_pg_decode(field, enums),
            RowBackend::Sqlite => spec_sqlite_decode(field, enums),
        },
        arity: field.ty.arity,
    }
}

/// An enum column is always read as its variants' text and parsed, on
/// both backends: a single (required or optional) enum value is one text
/// parsed, a list is a Postgres text array or a SQLite JSON array of
/// texts, and an enum is never read as is. (A type named `Json` is the
/// JSON scalar, not an enum.)
pub proof fn law_enums_decode_through_text(field: Field, enums: Seq<Seq<char>>)
    requires
        enums.contains(field.ty.name@),
        field.ty.name@ != "Json"@,
    ensures
        spec_row_decode(field, enums, RowBackend::Postgres).decode != RowDecode::Plain,
        spec_row_decode(field, enums, RowBackend::Sqlite).decode != RowDecode::Plain,
        field.ty.arity != TypeArity::List ==> spec_row_decode(field, enums, RowBackend::Postgres).decode
            == RowDecode::EnumText && spec_row_decode(field, enums, RowBackend::Sqlite).decode
            == RowDecode::EnumText,
        field.ty.arity == TypeArity::List ==> spec_row_decode(field, enums, RowBackend::Postgres).decode
            == RowDecode::EnumTextArray && spec_row_decode(field, enums, RowBackend::Sqlite).decode
            == RowDecode::EnumJsonArray,
{
}

/// A single (required or optional) non-enum value is read on SQLite
/// through the column wrapper of its type: `Boolean` from an integer,
/// `Uuid`, `DateTime` and `Decimal` through their text columns; while on
/// Postgres every non-enum type but `Json` is read as is.
pub proof fn law_scalar_columns(field: Field, enums: Seq<Seq<char>>)
    requires
        !enums.contains(field.ty.name@),
    ensures
        field.ty.name@ != "Json"@ ==> spec_row_decode(field, enums, RowBackend::Postgres).decode
            == RowDecode::Plain,
        field.ty.arity != TypeArity::List ==> {
            let d = spec_row_decode(field, enums, RowBackend::Sqlite).decode;
            &&& field.ty.name@ == "Boolean"@ ==> d == RowDecode::BoolFromI64
            &&& field.ty.name@ == "Uuid"@ ==> d == RowDecode::UuidColumn
            &&& field.ty.name@ == "DateTime"@ ==> d == RowDecode::DateTimeColumn
            &&& field.ty.name@ == "Decimal"@ ==> d == RowDecode::DecimalColumn
        },
        field.ty.arity == TypeArity::List ==> spec_row_decode(field, enums, RowBackend::Sqlite).decode
            == RowDecode::Plain,
{
    reveal_strlit("Boolean");
    reveal_strlit("Uuid");
    reveal_strlit("DateTime");
    reveal_strlit("Decimal");
    assert("Uuid"@[0] != "Boolean"@[0]);
    assert("DateTime"@[0] != "Boolean"@[0]);
    assert("DateTime"@[0] != "Uuid"@[0]);
    assert("Decimal"@[0] != "Boolean"@[0]);
    assert("Decimal"@[0] != "Uuid"@[0]);
    assert("Decimal"@[1] != "DateTime"@[1]);
}

/// On Postgres a `Json` field, of any arity, is read through `DbJson`;
/// on SQLite a single `Json` value is read from text; and on both
/// backends the decoding keeps the field's arity.
pub proof fn law_json_columns(field: Field, enums: Seq<Seq<char>>, backend: RowBackend)
    ensures
        spec_row_decode(field, enums, backend).arity == field.ty.arity,
        field.ty.name@ == "Json"@ ==> spec_row_decode(field, enums, RowBackend::Postgres).decode
            == RowDecode::JsonViaDbJson,
        field.ty.name@ == "Json"@ && !enums.contains(field.ty.name@) && field.ty.arity
            != TypeArity::List ==> spec_row_decode(field, enums, RowBackend::Sqlite).decode
            == RowDecode::JsonText,
{
    reveal_strlit("Json");
    reveal_strlit("Boolean");
    reveal_strlit("Uuid");
    reveal_strlit("DateTime");
    reveal_strlit("Decimal");
    assert("Json"@[0] != "Boolean"@[0]);
    assert("Json"@[0] != "Uuid"@[0]);
    assert("Json"@[0] != "DateTime"@[0]);
    assert("Json"@[0] != "Decimal"@[0]);
}

/// How `field` is read from a row of `backend`.
pub fn row_decode_kind(field: &Field, enum_names: &Vec<String>, backend: RowBackend) -> (k: RowField)
    requires
        distinct_names(enum_names@),
    ensures
        k == spec_row_decode(*field, names_of(enum_names@), backend),
{
    let is_enum = name_listed(enum_names, field.ty.name.as_str());
    let is_list = field.ty.arity == TypeArity::List;
    let n = field.ty.name.as_str();
    let decode = match backend {
        RowBackend::Postgres => if str_is(n, "Json") {
            RowDecode::JsonViaDbJson
        } else if !is_enum {
            RowDecode::Plain
        } else if is_list {
            RowDecode::EnumTextArray
        } else {
            RowDecode::EnumText
        },
        RowBackend::Sqlite => if is_enum {
            if is_list {
                RowDecode::EnumJsonArray
            } else {
                RowDecode::EnumText
            }
        } else if is_list {
            RowDecode::Plain
        } else if str_is(n, "Boolean") {
            RowDecode::BoolFromI64
        } else if str_is(n, "Uuid") {
            RowDecode::UuidColumn
        } else if str_is(n, "DateTime") {
            RowDecode::DateTimeColumn
        } else if str_is(n, "Decimal") {
            RowDecode::DecimalColumn
        } else if str_is(n, "Json") {
            RowDecode::JsonText
        } else {
            RowDecode::Plain
        },
    };
    RowField { decode, arity: field.ty.arity }
}

/// One column of a model's row decoders: the field it fills, which is
/// also the name the full decoder reads; the SQL column name that the
/// partial decoder looks for among the selected columns (a field not
/// selected takes its `Default` there); and how the column is decoded.
#[derive(Debug)]
pub struct RowColumn {
    pub field: String,
    pub selected_as: String,
    pub decode: RowField,
}

/// `c` is the row column of `field`.
pub open spec fn decodes_field(c: RowColumn, field: Field, enums: Seq<Seq<char>>, backend: RowBackend) -> bool {
    &&& c.field@ == field.name@
    &&& c.selected_as@ == snake_case(field.name@)
    &&& c.decode == spec_row_decode(field, enums, backend)
}

/// The columns of `model`'s `FromRow` and partial-row decoders for
/// `backend`: one per scalar field, in declaration order.
pub fn plan_row_decoder(
    model: &Model,
    model_names: &Vec<String>,
    enum_names: &Vec<String>,
    backend: RowBackend,
) -> (r: Vec<RowColumn>)
    requires
        distinct_names(model_names@),
        distinct_names(enum_names@),
    ensures
        r@.len() == kept_fields(model.fields@, names_of(model_names@), FieldFilter::Scalar).len(),
        forall|j: int|
            0 <= j < r@.len() ==> decodes_field(
                #[trigger] r@[j],
                kept_fields(model.fields@, names_of(model_names@), FieldFilter::Scalar)[j],
                names_of(enum_names@),
                backend,
            ),
{
    let ghost models = names_of(model_names@);
    let ghost enums = names_of(enum_names@);
    let fields = &model.fields;
    let n = fields.len();
    let mut out: Vec<RowColumn> = Vec::new();
    let mut i: usize = 0;
    assert(fields@.take(0) =~= Seq::<Field>::empty());
    while i < n
        invariant
            n == fields@.len(),
            i <= n,
            fields@ == model.fields@,
            models == names_of(model_names@),
            enums == names_of(enum_names@),
            distinct_names(enum_names@),
            out@.len() == kept_fields(fields@.take(i as int), models, FieldFilter::Scalar).len(),
            forall|j: int|
                0 <= j < out@.len() ==> decodes_field(
                    #[trigger] out@[j],
                    kept_fields(fields@.take(i as int), models, FieldFilter::Scalar)[j],
                    enums,
                    backend,
                ),
        decreases n - i,
    {
        let field = &fields[i];
        assert(fields@.take(i + 1).drop_last() =~= fields@.take(i as int));
        assert(fields@.take(i + 1).last() == *field);
        if keeps(FieldFilter::Scalar, field, model_names) {
            out.push(
                RowColumn {
                    field: field.name.clone(),
                    selected_as: to_snake_case(field.name.as_str()),
                    decode: row_decode_kind(field, enum_names, backend),
                },
            );
        }
        i = i + 1;
    }
    assert(fields@.take(n as int) =~= fields@);
    out
}

} // verus!
