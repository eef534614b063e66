//! Schema fragments the generator assembles: object shells, `required`
//! rules, docs, and the fixed shapes of `Page<T>` and `PageInput`.

use vstd::prelude::*;
use vstd::string::*;

use crate::ir::{TypeArity, TypeRef};
use crate::json::{Json, JsonValue, empty_object, jstr, put, put_member, str_array, json_entries};
use crate::text::{trim, trimmed};

use super::scalar::{int_schema, int_type, type_only, type_schema};

verus! {

/// serde lets a missing `Option<T>` field default to `None`; every other
/// arity is a hard "missing field" error, and `Page`/`FindMany` are never
/// `Option`.
pub open spec fn spec_is_required(ty: TypeRef) -> bool {
    ty.spec_is_page() || ty.spec_is_find_many() || ty.arity != TypeArity::Optional
}

pub fn is_required(ty: &TypeRef) -> (b: bool)
    ensures
        b == spec_is_required(*ty),
{
    ty.is_page() || ty.is_find_many() || ty.arity != TypeArity::Optional
}

/// `{"type": "object", "properties": ..., "required": [...]}`, with
/// `required` only when some property is. No `additionalProperties`:
/// serde ignores unknown keys, so the schema allows them too.
pub open spec fn object_schema_json(properties: Seq<(Seq<char>, Json)>, required: Seq<Seq<char>>) -> Json {
    let o = put_member(type_schema("object"@), "properties"@, Json::Object(properties));
    if required.len() > 0 {
        put_member(o, "required"@, str_array(required))
    } else {
        o
    }
}

pub fn object_schema(properties: Vec<(String, JsonValue)>, required: &Vec<String>) -> (r: JsonValue)
    ensures
        r.json() == object_schema_json(
            json_entries(properties@),
            required@.map_values(|s: String| s@),
        ),
{
    let o = put(type_only("object"), "properties", JsonValue::Object(properties));
    if required.len() > 0 {
        put(o, "required", crate::json::string_array(required))
    } else {
        o
    }
}

/// The doc lines, each trimmed, joined by newlines.
pub open spec fn docs_text(docs: Seq<String>) -> Seq<char>
    decreases docs.len(),
{
    if docs.len() == 0 {
        Seq::empty()
    } else if docs.len() == 1 {
        trimmed(docs[0]@)
    } else {
        docs_text(docs.drop_last()) + "\n"@ + trimmed(docs.last()@)
    }
}

/// `schema` with a `description` from `///` docs, which agents read: only
/// when the docs hold some text and the schema is an object.
pub open spec fn with_docs_json(schema: Json, docs: Seq<String>) -> Json {
    let text = trimmed(docs_text(docs));
    if text.len() > 0 {
        put_member(schema, "description"@, jstr(text))
    } else {
        schema
    }
}

pub fn with_docs(schema: JsonValue, docs: &Vec<String>) -> (r: JsonValue)
    ensures
        r.json() == with_docs_json(schema.json(), docs@),
{
    let mut text = String::new();
    let n = docs.len();
    let mut i: usize = 0;
    while i < n
        invariant
            n == docs@.len(),
            i <= n,
            text@ == docs_text(docs@.take(i as int)),
        decreases n - i,
    {
        if i > 0 {
            text.append("\n");
        }
        text.append(trim(docs[i].as_str()));
        proof {
            assert(docs@.take(i + 1).drop_last() =~= docs@.take(i as int));
            if i == 0 {
                assert(docs@.take(0) =~= Seq::<String>::empty());
            }
        }
        i = i + 1;
    }
    assert(docs@.take(n as int) =~= docs@);
    let t = trim(text.as_str());
    if t.unicode_len() > 0 {
        put(schema, "description", JsonValue::Str(crate::text::owned(t)))
    } else {
        schema
    }
}

/// `{"anyOf": [schema, {"type": "null"}]}`.
pub open spec fn nullable_json(schema: Json) -> Json {
    put_member(empty_object(), "anyOf"@, Json::Array(seq![schema, type_schema("null"@)]))
}

pub fn nullable(schema: JsonValue) -> (r: JsonValue)
    ensures
        r.json() == nullable_json(schema.json()),
{
    let mut items: Vec<JsonValue> = Vec::new();
    items.push(schema);
    items.push(type_only("null"));
    proof {
        crate::json::lemma_json_items(items@);
        assert(crate::json::json_items(items@) =~= seq![schema.json(), type_schema("null"@)]);
    }
    put(JsonValue::empty_object(), "anyOf", JsonValue::Array(items))
}

/// `{"type": "array", "items": items}`.
pub open spec fn array_json(items: Json) -> Json {
    put_member(type_schema("array"@), "items"@, items)
}

pub fn array_of(items: JsonValue) -> (r: JsonValue)
    ensures
        r.json() == array_json(items.json()),
{
    put(type_only("array"), "items", items)
}

/// `limit`/`offset`, shared by `PageInput` and `PageInfo`: both
/// `Option<i64>` with no serde default.
pub open spec fn counters_json() -> Seq<(Seq<char>, Json)> {
    crate::json::obj_insert(
        crate::json::obj_insert(Seq::empty(), "limit"@, nullable_json(int_schema())),
        "offset"@,
        nullable_json(int_schema()),
    )
}

fn counters() -> (r: Vec<(String, JsonValue)>)
    ensures
        json_entries(r@) == counters_json(),
{
    let mut c: Vec<(String, JsonValue)> = Vec::new();
    proof {
        crate::json::lemma_json_entries(c@);
        assert(json_entries(c@) =~= Seq::<(Seq<char>, Json)>::empty());
    }
    crate::json::object_insert(&mut c, crate::text::owned("limit"), nullable(int_type()));
    crate::json::object_insert(&mut c, crate::text::owned("offset"), nullable(int_type()));
    c
}

/// `PageInput`: both counters, neither required.
pub open spec fn page_input_json() -> Json {
    object_schema_json(counters_json(), Seq::empty())
}

pub fn page_input() -> (r: JsonValue)
    ensures
        r.json() == page_input_json(),
{
    let required: Vec<String> = Vec::new();
    let r = object_schema(counters(), &required);
    assert(required@.map_values(|s: String| s@) =~= Seq::<Seq<char>>::empty());
    r
}

/// `Page<T>` around an already-built item schema: `items` and `pageInfo`
/// required, `totalCount` a nullable integer, `pageInfo` the counters plus
/// two required flags.
pub open spec fn page_json(items: Json) -> Json {
    let page_info = crate::json::obj_insert(
        crate::json::obj_insert(counters_json(), "hasNextPage"@, type_schema("boolean"@)),
        "hasPreviousPage"@,
        type_schema("boolean"@),
    );
    let properties = crate::json::obj_insert(
        crate::json::obj_insert(
            crate::json::obj_insert(Seq::empty(), "items"@, array_json(items)),
            "totalCount"@,
            nullable_json(int_schema()),
        ),
        "pageInfo"@,
        object_schema_json(page_info, seq!["hasNextPage"@, "hasPreviousPage"@]),
    );
    object_schema_json(properties, seq!["items"@, "pageInfo"@])
}

pub fn page(items: JsonValue) -> (r: JsonValue)
    ensures
        r.json() == page_json(items.json()),
{
    let mut page_info = counters();
    crate::json::object_insert(&mut page_info, crate::text::owned("hasNextPage"), type_only("boolean"));
    crate::json::object_insert(
        &mut page_info,
        crate::text::owned("hasPreviousPage"),
        type_only("boolean"),
    );
    let mut info_required: Vec<String> = Vec::new();
    info_required.push(crate::text::owned("hasNextPage"));
    info_required.push(crate::text::owned("hasPreviousPage"));
    assert(info_required@.map_values(|s: String| s@) =~= seq!["hasNextPage"@, "hasPreviousPage"@]);
    let mut properties: Vec<(String, JsonValue)> = Vec::new();
    proof {
        crate::json::lemma_json_entries(properties@);
        assert(json_entries(properties@) =~= Seq::<(Seq<char>, Json)>::empty());
    }
    crate::json::object_insert(&mut properties, crate::text::owned("items"), array_of(items));
    crate::json::object_insert(
        &mut properties,
        crate::text::owned("totalCount"),
        nullable(int_type()),
    );
    crate::json::object_insert(
        &mut properties,
        crate::text::owned("pageInfo"),
        object_schema(page_info, &info_required),
    );
    let mut required: Vec<String> = Vec::new();
    required.push(crate::text::owned("items"));
    required.push(crate::text::owned("pageInfo"));
    assert(required@.map_values(|s: String| s@) =~= seq!["items"@, "pageInfo"@]);
    object_schema(properties, &required)
}

} // verus!
