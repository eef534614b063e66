//! Built-in scalar → JSON Schema. Each row follows what `serde_json` does
//! with the Rust type codegen emits for that scalar. Where serde accepts
//! more on input than it ever emits, the schema describes the emitted
//! form. String formats carry an anchored `pattern` next to `format`,
//! because `format` alone is only an annotation in JSON Schema 2020-12.

use vstd::prelude::*;

use crate::ir::DecimalBackend;
use crate::json::{
    Json, JsonValue, empty_object, jstr, lemma_obj_get_insert_other, lemma_obj_get_insert_same, obj_get,
    obj_insert, put, put_member,
};
use crate::text::str_is;
use vstd::string::*;

verus! {

/// `chrono::DateTime<Utc>`: RFC 3339 with an offset.
pub const DATE_TIME_PATTERN: &'static str = "^[0-9]{4}-[0-9]{2}-[0-9]{2}[Tt][0-9]{2}:[0-9]{2}:[0-9]{2}(\\.[0-9]+)?([Zz]|[+-][0-9]{2}:[0-9]{2})$";

/// `uuid::Uuid`: hyphenated, in either case.
pub const UUID_PATTERN: &'static str = "^[0-9a-fA-F]{8}-[0-9a-fA-F]{4}-[0-9a-fA-F]{4}-[0-9a-fA-F]{4}-[0-9a-fA-F]{12}$";

/// `rust_decimal` with `serde-str`: a string, never in exponent form.
pub const RUST_DECIMAL_PATTERN: &'static str = "^-?[0-9]+(\\.[0-9]+)?$";

/// `bigdecimal` with `serde`: a string, in exponent form once the exponent
/// is large enough.
pub const BIG_DECIMAL_PATTERN: &'static str = "^-?[0-9]+(\\.[0-9]+)?([eE][+-]?[0-9]+)?$";

pub const JSON_REASON: &'static str = "it deserializes from every JSON value (`cratestack_core::Value`'s untagged visitor), so the only schema that matches serde is the permissive `{}` — which tells an agent nothing, and which this generator never emits";

pub const VECTOR_REASON: &'static str = "`Vector(n)` is a `Vec<f32>` whose dimension serde never checks, and it can only be declared behind the `pgvector` feature, which no round-trip suite builds, so no mapping has been verified against its serde output";

pub const SPATIAL_REASON: &'static str = "spatial values are EWKB bytes behind the `postgis` feature, which no round-trip suite builds, so no mapping has been verified against their serde output";

/// What a built-in name maps to.
pub enum ScalarMapping {
    Mapped(Json),
    NoFaithfulMapping(Seq<char>),
    NeedsDecimalBackend,
}

/// What a built-in name maps to; `None` from [`builtin_scalar`] means the
/// name is not a scalar at all.
pub enum Scalar {
    Mapped(JsonValue),
    NoFaithfulMapping(String),
    NeedsDecimalBackend,
}

impl Scalar {
    pub open spec fn mapping(self) -> ScalarMapping {
        match self {
            Scalar::Mapped(v) => ScalarMapping::Mapped(v.json()),
            Scalar::NoFaithfulMapping(r) => ScalarMapping::NoFaithfulMapping(r@),
            Scalar::NeedsDecimalBackend => ScalarMapping::NeedsDecimalBackend,
        }
    }
}

/// `{"type": t}`.
pub open spec fn type_schema(t: Seq<char>) -> Json {
    put_member(empty_object(), "type"@, jstr(t))
}

/// `i64`: `{"type": "integer", "minimum": i64::MIN, "maximum": i64::MAX}`.
pub open spec fn int_schema() -> Json {
    put_member(
        put_member(type_schema("integer"@), "minimum"@, Json::Int(i64::MIN as int)),
        "maximum"@,
        Json::Int(i64::MAX as int),
    )
}

/// `Vec<u8>`: an array of integers from 0 to 255.
pub open spec fn byte_array_schema() -> Json {
    put_member(
        type_schema("array"@),
        "items"@,
        put_member(
            put_member(type_schema("integer"@), "minimum"@, Json::Int(0)),
            "maximum"@,
            Json::Int(255),
        ),
    )
}

/// A string checked by `pattern`.
pub open spec fn pattern_string_schema(pattern: Seq<char>) -> Json {
    put_member(type_schema("string"@), "pattern"@, jstr(pattern))
}

/// A string with a `format` annotation and the `pattern` that enforces it.
pub open spec fn format_string_schema(format: Seq<char>, pattern: Seq<char>) -> Json {
    put_member(
        put_member(type_schema("string"@), "format"@, jstr(format)),
        "pattern"@,
        jstr(pattern),
    )
}

/// The built-in scalar table.
pub open spec fn spec_builtin_scalar(name: Seq<char>, decimal: Option<DecimalBackend>) -> Option<
    ScalarMapping,
> {
    if name == "String"@ || name == "Cuid"@ {
        Some(ScalarMapping::Mapped(type_schema("string"@)))
    } else if name == "Int"@ {
        Some(ScalarMapping::Mapped(int_schema()))
    } else if name == "Float"@ {
        Some(ScalarMapping::Mapped(type_schema("number"@)))
    } else if name == "Boolean"@ {
        Some(ScalarMapping::Mapped(type_schema("boolean"@)))
    } else if name == "DateTime"@ {
        Some(ScalarMapping::Mapped(format_string_schema("date-time"@, DATE_TIME_PATTERN@)))
    } else if name == "Uuid"@ {
        Some(ScalarMapping::Mapped(format_string_schema("uuid"@, UUID_PATTERN@)))
    } else if name == "Bytes"@ {
        Some(ScalarMapping::Mapped(byte_array_schema()))
    } else if name == "Decimal"@ {
        match decimal {
            Some(DecimalBackend::RustDecimal) => Some(
                ScalarMapping::Mapped(pattern_string_schema(RUST_DECIMAL_PATTERN@)),
            ),
            Some(DecimalBackend::BigDecimal) => Some(
                ScalarMapping::Mapped(pattern_string_schema(BIG_DECIMAL_PATTERN@)),
            ),
            None => Some(ScalarMapping::NeedsDecimalBackend),
        }
    } else if name == "Json"@ {
        Some(ScalarMapping::NoFaithfulMapping(JSON_REASON@))
    } else if name == "Vector"@ {
        Some(ScalarMapping::NoFaithfulMapping(VECTOR_REASON@))
    } else if name == "Geography"@ || name == "Geometry"@ {
        Some(ScalarMapping::NoFaithfulMapping(SPATIAL_REASON@))
    } else {
        None
    }
}

/// `{"type": t}`.
pub fn type_only(t: &str) -> (r: JsonValue)
    ensures
        r.json() == type_schema(t@),
{
    put(JsonValue::empty_object(), "type", JsonValue::text(t))
}

/// `i64`, also used by `Page`'s and `PageInput`'s counters.
pub fn int_type() -> (r: JsonValue)
    ensures
        r.json() == int_schema(),
{
    let o = type_only("integer");
    let o = put(o, "minimum", JsonValue::Int(i64::MIN));
    put(o, "maximum", JsonValue::Int(i64::MAX))
}

fn byte_array() -> (r: JsonValue)
    ensures
        r.json() == byte_array_schema(),
{
    let item = type_only("integer");
    let item = put(item, "minimum", JsonValue::Int(0));
    let item = put(item, "maximum", JsonValue::Int(255));
    put(type_only("array"), "items", item)
}

fn decimal_string(pattern: &str) -> (r: JsonValue)
    ensures
        r.json() == pattern_string_schema(pattern@),
{
    put(type_only("string"), "pattern", JsonValue::text(pattern))
}

fn format_string(format: &str, pattern: &str) -> (r: JsonValue)
    ensures
        r.json() == format_string_schema(format@, pattern@),
{
    let o = put(type_only("string"), "format", JsonValue::text(format));
    put(o, "pattern", JsonValue::text(pattern))
}

/// What the built-in scalar `name` maps to, if it is one.
pub fn builtin_scalar(name: &str, decimal: Option<DecimalBackend>) -> (r: Option<Scalar>)
    ensures
        match r {
            Some(s) => spec_builtin_scalar(name@, decimal) == Some(s.mapping()),
            None => spec_builtin_scalar(name@, decimal) is None,
        },
{
    if str_is(name, "String") || str_is(name, "Cuid") {
        Some(Scalar::Mapped(type_only("string")))
    } else if str_is(name, "Int") {
        Some(Scalar::Mapped(int_type()))
    } else if str_is(name, "Float") {
        Some(Scalar::Mapped(type_only("number")))
    } else if str_is(name, "Boolean") {
        Some(Scalar::Mapped(type_only("boolean")))
    } else if str_is(name, "DateTime") {
        Some(Scalar::Mapped(format_string("date-time", DATE_TIME_PATTERN)))
    } else if str_is(name, "Uuid") {
        Some(Scalar::Mapped(format_string("uuid", UUID_PATTERN)))
    } else if str_is(name, "Bytes") {
        Some(Scalar::Mapped(byte_array()))
    } else if str_is(name, "Decimal") {
        match decimal {
            Some(DecimalBackend::RustDecimal) => Some(
                Scalar::Mapped(decimal_string(RUST_DECIMAL_PATTERN)),
            ),
            Some(DecimalBackend::BigDecimal) => Some(
                Scalar::Mapped(decimal_string(BIG_DECIMAL_PATTERN)),
            ),
            None => Some(Scalar::NeedsDecimalBackend),
        }
    } else if str_is(name, "Json") {
        Some(Scalar::NoFaithfulMapping(crate::text::owned(JSON_REASON)))
    } else if str_is(name, "Vector") {
        Some(Scalar::NoFaithfulMapping(crate::text::owned(VECTOR_REASON)))
    } else if str_is(name, "Geography") || str_is(name, "Geometry") {
        Some(Scalar::NoFaithfulMapping(crate::text::owned(SPATIAL_REASON)))
    } else {
        None
    }
}

/// `{"type": t}` written out: an object with the one member `type`.
pub open spec fn only_type(t: Seq<char>) -> Json {
    Json::Object(seq![("type"@, Json::Str(t))])
}

proof fn lemma_scalar_names_differ()
    ensures
        "String"@ != "Cuid"@,
        "Int"@ != "String"@,
        "Int"@ != "Cuid"@,
        "Float"@ != "String"@,
        "Float"@ != "Cuid"@,
        "Float"@ != "Int"@,
        "Boolean"@ != "String"@,
        "Boolean"@ != "Cuid"@,
        "Boolean"@ != "Int"@,
        "Boolean"@ != "Float"@,
{
    reveal_strlit("String");
    reveal_strlit("Cuid");
    reveal_strlit("Int");
    reveal_strlit("Float");
    reveal_strlit("Boolean");
    assert("String"@[0] != "Cuid"@[0]);
    assert("Int"@[0] != "String"@[0]);
    assert("Int"@[0] != "Cuid"@[0]);
    assert("Float"@[0] != "String"@[0]);
    assert("Float"@[0] != "Cuid"@[0]);
    assert("Float"@[0] != "Int"@[0]);
    assert("Boolean"@[0] != "String"@[0]);
    assert("Boolean"@[0] != "Cuid"@[0]);
    assert("Boolean"@[0] != "Int"@[0]);
    assert("Boolean"@[0] != "Float"@[0]);
}

/// Under every decimal backend, each built-in scalar that serde writes as
/// a plain JSON value maps to exactly the JSON type serde emits for it:
/// `String` and `Cuid` to `{"type": "string"}`, `Float` to
/// `{"type": "number"}`, `Boolean` to `{"type": "boolean"}`, and `Int`
/// (an `i64`) to an integer bounded by `i64::MIN` and `i64::MAX`.
pub proof fn law_plain_scalars_follow_serde(decimal: Option<DecimalBackend>)
    ensures
        spec_builtin_scalar("String"@, decimal) == Some(ScalarMapping::Mapped(only_type("string"@))),
        spec_builtin_scalar("Cuid"@, decimal) == Some(ScalarMapping::Mapped(only_type("string"@))),
        spec_builtin_scalar("Float"@, decimal) == Some(ScalarMapping::Mapped(only_type("number"@))),
        spec_builtin_scalar("Boolean"@, decimal) == Some(ScalarMapping::Mapped(only_type("boolean"@))),
        spec_builtin_scalar("Int"@, decimal) matches Some(ScalarMapping::Mapped(Json::Object(entries)))
            && obj_get(entries, "type"@) == Some(Json::Str("integer"@)) && obj_get(
            entries,
            "minimum"@,
        ) == Some(Json::Int(i64::MIN as int)) && obj_get(entries, "maximum"@) == Some(
            Json::Int(i64::MAX as int),
        ),
{
    lemma_scalar_names_differ();
    let e0 = seq![("type"@, Json::Str("integer"@))];
    assert(obj_insert(Seq::empty(), "type"@, Json::Str("integer"@)) == e0);
    let e1 = obj_insert(e0, "minimum"@, Json::Int(i64::MIN as int));
    let e2 = obj_insert(e1, "maximum"@, Json::Int(i64::MAX as int));
    lemma_obj_get_insert_same(e1, "maximum"@, Json::Int(i64::MAX as int));
    lemma_obj_get_insert_same(e0, "minimum"@, Json::Int(i64::MIN as int));
    reveal_strlit("type");
    reveal_strlit("minimum");
    reveal_strlit("maximum");
    assert("minimum"@[1] != "maximum"@[1]);
    assert("type"@[0] != "minimum"@[0]);
    assert("type"@[0] != "maximum"@[0]);
    lemma_obj_get_insert_other(e1, "maximum"@, Json::Int(i64::MAX as int), "minimum"@);
    lemma_obj_get_insert_other(e1, "maximum"@, Json::Int(i64::MAX as int), "type"@);
    lemma_obj_get_insert_other(e0, "minimum"@, Json::Int(i64::MIN as int), "type"@);
    assert(obj_get(e0, "type"@) == Some(Json::Str("integer"@)));
    assert(obj_insert(Seq::empty(), "type"@, Json::Str("string"@)) == seq![("type"@, Json::Str("string"@))]);
    assert(obj_insert(Seq::empty(), "type"@, Json::Str("number"@)) == seq![("type"@, Json::Str("number"@))]);
    assert(obj_insert(Seq::empty(), "type"@, Json::Str("boolean"@)) == seq![("type"@, Json::Str("boolean"@))]);
}

/// The member `key` of `j`, when `j` is an object.
pub open spec fn member_of(j: Json, key: Seq<char>) -> Option<Json> {
    match j {
        Json::Object(entries) => obj_get(entries, key),
        _ => None,
    }
}

proof fn lemma_schema_keys_differ()
    ensures
        "type"@ != "format"@,
        "type"@ != "pattern"@,
        "type"@ != "items"@,
        "format"@ != "pattern"@,
{
    reveal_strlit("type");
    reveal_strlit("format");
    reveal_strlit("pattern");
    reveal_strlit("items");
    assert("type"@[0] != "format"@[0]);
    assert("type"@[0] != "pattern"@[0]);
    assert("type"@[0] != "items"@[0]);
    assert("format"@[0] != "pattern"@[0]);
}

proof fn lemma_string_schemas(format: Seq<char>, pattern: Seq<char>)
    ensures
        member_of(format_string_schema(format, pattern), "type"@) == Some(Json::Str("string"@)),
        member_of(format_string_schema(format, pattern), "format"@) == Some(Json::Str(format)),
        member_of(format_string_schema(format, pattern), "pattern"@) == Some(Json::Str(pattern)),
        member_of(pattern_string_schema(pattern), "type"@) == Some(Json::Str("string"@)),
        member_of(pattern_string_schema(pattern), "pattern"@) == Some(Json::Str(pattern)),
        member_of(byte_array_schema(), "type"@) == Some(Json::Str("array"@)),
{
    lemma_schema_keys_differ();
    let t = seq![("type"@, Json::Str("string"@))];
    assert(obj_insert(Seq::empty(), "type"@, Json::Str("string"@)) == t);
    let f = obj_insert(t, "format"@, Json::Str(format));
    lemma_obj_get_insert_other(t, "format"@, Json::Str(format), "type"@);
    lemma_obj_get_insert_same(t, "format"@, Json::Str(format));
    lemma_obj_get_insert_other(f, "pattern"@, Json::Str(pattern), "type"@);
    lemma_obj_get_insert_other(f, "pattern"@, Json::Str(pattern), "format"@);
    lemma_obj_get_insert_same(f, "pattern"@, Json::Str(pattern));
    lemma_obj_get_insert_other(t, "pattern"@, Json::Str(pattern), "type"@);
    lemma_obj_get_insert_same(t, "pattern"@, Json::Str(pattern));
    let a = seq![("type"@, Json::Str("array"@))];
    assert(obj_insert(Seq::empty(), "type"@, Json::Str("array"@)) == a);
    let items = put_member(
        put_member(type_schema("integer"@), "minimum"@, Json::Int(0)),
        "maximum"@,
        Json::Int(255),
    );
    lemma_obj_get_insert_other(a, "items"@, items, "type"@);
}

proof fn lemma_all_scalar_names_differ()
    ensures
        "DateTime"@ != "String"@ && "DateTime"@ != "Cuid"@ && "DateTime"@ != "Int"@ && "DateTime"@
            != "Float"@ && "DateTime"@ != "Boolean"@,
        "Uuid"@ != "String"@ && "Uuid"@ != "Cuid"@ && "Uuid"@ != "Int"@ && "Uuid"@ != "Float"@
            && "Uuid"@ != "Boolean"@ && "Uuid"@ != "DateTime"@,
        "Bytes"@ != "String"@ && "Bytes"@ != "Cuid"@ && "Bytes"@ != "Int"@ && "Bytes"@ != "Float"@
            && "Bytes"@ != "Boolean"@ && "Bytes"@ != "DateTime"@ && "Bytes"@ != "Uuid"@,
        "Decimal"@ != "String"@ && "Decimal"@ != "Cuid"@ && "Decimal"@ != "Int"@ && "Decimal"@
            != "Float"@ && "Decimal"@ != "Boolean"@ && "Decimal"@ != "DateTime"@ && "Decimal"@
            != "Uuid"@ && "Decimal"@ != "Bytes"@,
        "Json"@ != "String"@ && "Json"@ != "Cuid"@ && "Json"@ != "Int"@ && "Json"@ != "Float"@
            && "Json"@ != "Boolean"@ && "Json"@ != "DateTime"@ && "Json"@ != "Uuid"@ && "Json"@
            != "Bytes"@ && "Json"@ != "Decimal"@,
{
    lemma_scalar_names_differ();
    reveal_strlit("String");
    reveal_strlit("Cuid");
    reveal_strlit("Int");
    reveal_strlit("Float");
    reveal_strlit("Boolean");
    reveal_strlit("DateTime");
    reveal_strlit("Uuid");
    reveal_strlit("Bytes");
    reveal_strlit("Decimal");
    reveal_strlit("Json");
    assert("DateTime"@[0] != "String"@[0] && "DateTime"@[0] != "Cuid"@[0] && "DateTime"@[0]
        != "Int"@[0] && "DateTime"@[0] != "Float"@[0] && "DateTime"@[0] != "Boolean"@[0]);
    assert("Uuid"@[0] != "String"@[0] && "Uuid"@[0] != "Cuid"@[0] && "Uuid"@[0] != "Int"@[0]
        && "Uuid"@[0] != "Float"@[0] && "Uuid"@[0] != "Boolean"@[0] && "Uuid"@[0]
        != "DateTime"@[0]);
    assert("Bytes"@[0] != "String"@[0] && "Bytes"@[0] != "Cuid"@[0] && "Bytes"@[0] != "Int"@[0]
        && "Bytes"@[0] != "Float"@[0] && "Bytes"@[1] != "Boolean"@[1] && "Bytes"@[0]
        != "DateTime"@[0] && "Bytes"@[0] != "Uuid"@[0]);
    assert("Decimal"@[1] != "String"@[1] && "Decimal"@[0] != "Cuid"@[0] && "Decimal"@[0]
        != "Int"@[0] && "Decimal"@[0] != "Float"@[0] && "Decimal"@[0] != "Boolean"@[0]
        && "Decimal"@[1] != "DateTime"@[1] && "Decimal"@[0] != "Uuid"@[0] && "Decimal"@[0]
        != "Bytes"@[0]);
    assert("Json"@[0] != "String"@[0] && "Json"@[0] != "Cuid"@[0] && "Json"@[0] != "Int"@[0]
        && "Json"@[0] != "Float"@[0] && "Json"@[0] != "Boolean"@[0] && "Json"@[0]
        != "DateTime"@[0] && "Json"@[0] != "Uuid"@[0] && "Json"@[0] != "Bytes"@[0] && "Json"@[0]
        != "Decimal"@[0]);
}

/// The names of the built-in scalars.
pub open spec fn scalar_names() -> Set<Seq<char>> {
    set![
        "String"@,
        "Cuid"@,
        "Int"@,
        "Float"@,
        "Boolean"@,
        "DateTime"@,
        "Uuid"@,
        "Bytes"@,
        "Decimal"@,
        "Json"@,
        "Vector"@,
        "Geography"@,
        "Geometry"@,
    ]
}

/// A type name is a built-in scalar exactly when it is one of the table's
/// names, under every decimal backend; any other name is a declaration.
pub proof fn law_builtin_scalar_names(name: Seq<char>, decimal: Option<DecimalBackend>)
    ensures
        spec_builtin_scalar(name, decimal) is Some <==> scalar_names().contains(name),
{
}

/// The built-in scalars that serde writes as strings stay strings:
/// `DateTime` and `Uuid` are strings with the `date-time` and `uuid`
/// formats, `Decimal` is a string under either backend and asks for a
/// backend without one; `Bytes` is an array; and `Json`, which serde
/// takes in any shape, has no faithful schema under any backend.
pub proof fn law_string_scalars_follow_serde(decimal: Option<DecimalBackend>)
    ensures
        spec_builtin_scalar("DateTime"@, decimal) matches Some(ScalarMapping::Mapped(j)) && member_of(
            j,
            "type"@,
        ) == Some(Json::Str("string"@)) && member_of(j, "format"@) == Some(Json::Str("date-time"@)),
        spec_builtin_scalar("Uuid"@, decimal) matches Some(ScalarMapping::Mapped(j)) && member_of(
            j,
            "type"@,
        ) == Some(Json::Str("string"@)) && member_of(j, "format"@) == Some(Json::Str("uuid"@)),
        spec_builtin_scalar("Bytes"@, decimal) matches Some(ScalarMapping::Mapped(j)) && member_of(
            j,
            "type"@,
        ) == Some(Json::Str("array"@)),
        decimal is None ==> spec_builtin_scalar("Decimal"@, decimal) == Some(
            ScalarMapping::NeedsDecimalBackend,
        ),
        decimal is Some ==> (spec_builtin_scalar("Decimal"@, decimal) matches Some(
            ScalarMapping::Mapped(j),
        ) && member_of(j, "type"@) == Some(Json::Str("string"@))),
        spec_builtin_scalar("Json"@, decimal) matches Some(ScalarMapping::NoFaithfulMapping(_)),
{
    lemma_all_scalar_names_differ();
    lemma_string_schemas("date-time"@, DATE_TIME_PATTERN@);
    lemma_string_schemas("uuid"@, UUID_PATTERN@);
    lemma_string_schemas("x"@, RUST_DECIMAL_PATTERN@);
    lemma_string_schemas("x"@, BIG_DECIMAL_PATTERN@);
}

} // verus!
