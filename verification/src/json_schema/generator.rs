//! Walks the `.cstack` IR the way codegen does and emits the schema of
//! what serde sees. Named declarations are emitted once under `$defs` and
//! referenced by `$ref`: a type used twice is not inlined twice, and a
//! self-referencing `type` terminates.
//!
//! The walk is stated twice: as spec functions over the IR (`gen_*`), which
//! thread the `$defs` collected so far through the walk, and as the
//! executable [`Generator`], whose methods are proved to compute them.

use vstd::prelude::*;
use vstd::set_lib::*;

use crate::ir::{
    DecimalBackend, EnumDecl, Field, Schema, TypeArity, TypeRef, enum_names, first_index,
    is_computed_field, is_relation_field, is_server_only_field, lemma_first_index, model_names,
    spec_is_computed_field, spec_is_model_name, spec_is_server_only_field, type_depth, type_names,
};
use crate::json::{
    Json, JsonValue, empty_object, jstr, json_entries, obj_get, obj_insert, obj_keys, put,
    put_member, str_array,
};
use crate::text::{concat3, owned};

use super::error::{JsonSchemaError, SchemaError, within};
use super::parts::{
    array_json, array_of, is_required, nullable, nullable_json, object_schema, object_schema_json,
    page, page_input, page_input_json, page_json, spec_is_required, with_docs, with_docs_json,
};
use super::scalar::{Scalar, ScalarMapping, builtin_scalar, spec_builtin_scalar};

verus! {

/// The `$schema` dialect: JSON Schema 2020-12.
pub const DIALECT: &'static str = "https://json-schema.org/draft/2020-12/schema";

pub const FIND_MANY_REASON: &'static str = "it deserializes into a generated `<Model>FindManyInput`, whose filter and ordering grammar has no JSON Schema mapping yet";

pub const COMPUTED_REASON: &'static str = "it has `@computed` fields, whose values reach the wire only through response composition, which MCP dispatch does not do yet";

/// One step of the walk: what it produced, and the `$defs` after it.
pub struct Step {
    pub result: Result<Json, SchemaError>,
    pub defs: Seq<(Seq<char>, Json)>,
}

/// Every name declared as an `enum`, `type` or `model`.
pub open spec fn decl_names(schema: Schema) -> Set<Seq<char>> {
    enum_names(schema.enums@).to_set() + type_names(schema.types@).to_set() + model_names(
        schema.models@,
    ).to_set()
}

/// How many declared names have no `$defs` entry yet: what the walk uses up.
pub open spec fn undefined(schema: Schema, defs: Seq<(Seq<char>, Json)>) -> nat {
    decl_names(schema).difference(obj_keys(defs)).len()
}

/// `declaration_schema` recurses only into declared names.
pub open spec fn declaration_rank(schema: Schema, name: Seq<char>) -> nat {
    if decl_names(schema).contains(name) {
        7
    } else {
        3
    }
}

/// `{"$ref": "#/$defs/<name>"}`.
pub open spec fn ref_json(name: Seq<char>) -> Json {
    put_member(empty_object(), "$ref"@, jstr("#/$defs/"@ + name))
}

/// `element` wrapped for `arity`: as is, nullable, or as an array.
pub open spec fn arity_json(element: Json, arity: TypeArity) -> Json {
    match arity {
        TypeArity::Required => element,
        TypeArity::Optional => nullable_json(element),
        TypeArity::List => array_json(element),
    }
}

/// `field `<owner>.<name>``.
pub open spec fn field_step(owner: Seq<char>, name: Seq<char>) -> Seq<char> {
    "field `"@ + owner + "."@ + name + "`"@
}

/// An enum: `{"type": "string", "enum": [<variant>, ...]}`.
pub open spec fn enum_json(decl: EnumDecl) -> Json {
    put_member(
        put_member(empty_object(), "type"@, jstr("string"@)),
        "enum"@,
        str_array(decl.variants@.map_values(|v: crate::ir::EnumVariant| v.name@)),
    )
}

/// The index of the first `@computed` field.
pub open spec fn first_computed(fields: Seq<Field>) -> Option<int>
    decreases fields.len(),
{
    if fields.len() == 0 {
        None
    } else if spec_is_computed_field(fields[0]) {
        Some(0)
    } else {
        match first_computed(fields.drop_first()) {
            Some(i) => Some(i + 1),
            None => None,
        }
    }
}

/// A declaration with `@computed` fields has two serde shapes, so no
/// schema is guessed for it.
pub open spec fn computed_error(owner: Seq<char>, fields: Seq<Field>) -> Option<SchemaError> {
    match first_computed(fields) {
        Some(i) => Some(
            SchemaError::NoFaithfulMapping {
                ty_name: owner,
                reason: COMPUTED_REASON@,
                at: seq![field_step(owner, fields[i].name@)],
            },
        ),
        None => None,
    }
}

/// The fields of a model that reach its serde shape: no relations, no
/// `@server_only` fields.
pub open spec fn advertised_fields(schema: Schema, fields: Seq<Field>) -> Seq<Field> {
    fields.filter(
        |f: Field| !spec_is_model_name(schema, f.ty.name@) && !spec_is_server_only_field(f),
    )
}

/// A type reference's schema, arity included. `Page<T>` and `FindMany<T>`
/// ignore arity.
pub open spec fn gen_type_ref(
    schema: Schema,
    decimal: Option<DecimalBackend>,
    defs: Seq<(Seq<char>, Json)>,
    ty: TypeRef,
) -> Step
    decreases undefined(schema, defs), 5nat, 3 * type_depth(ty) + 2,
{
    if ty.spec_is_page() {
        gen_page(schema, decimal, defs, ty)
    } else if ty.spec_is_find_many() {
        Step {
            result: Err(
                SchemaError::NoFaithfulMapping {
                    ty_name: "FindMany"@,
                    reason: FIND_MANY_REASON@,
                    at: Seq::empty(),
                },
            ),
            defs,
        }
    } else {
        let s = gen_element(schema, decimal, defs, ty);
        match s.result {
            Ok(e) => Step { result: Ok(arity_json(e, ty.arity)), defs: s.defs },
            Err(e) => s,
        }
    }
}

/// `Page<T>`'s item, wrapped in the fixed page envelope.
pub open spec fn gen_page(
    schema: Schema,
    decimal: Option<DecimalBackend>,
    defs: Seq<(Seq<char>, Json)>,
    ty: TypeRef,
) -> Step
    decreases undefined(schema, defs), 5nat, 3 * type_depth(ty) + 1,
{
    if ty.generic_args@.len() == 0 {
        Step {
            result: Err(SchemaError::UnknownType { ty_name: "Page"@, at: Seq::empty() }),
            defs,
        }
    } else {
        let s = gen_type_ref(schema, decimal, defs, ty.generic_args@[0]);
        match s.result {
            Ok(items) => Step { result: Ok(page_json(items)), defs: s.defs },
            Err(e) => Step { result: Err(within(e, "`Page` item"@)), defs: s.defs },
        }
    }
}

/// The schema of the named type itself, before arity.
pub open spec fn gen_element(
    schema: Schema,
    decimal: Option<DecimalBackend>,
    defs: Seq<(Seq<char>, Json)>,
    ty: TypeRef,
) -> Step
    decreases undefined(schema, defs), 5nat, 3 * type_depth(ty),
{
    if ty.spec_is_page_input() {
        Step { result: Ok(page_input_json()), defs }
    } else {
        match spec_builtin_scalar(ty.name@, decimal) {
            Some(ScalarMapping::Mapped(s)) => Step { result: Ok(s), defs },
            Some(ScalarMapping::NoFaithfulMapping(reason)) => Step {
                result: Err(
                    SchemaError::NoFaithfulMapping { ty_name: ty.name@, reason, at: Seq::empty() },
                ),
                defs,
            },
            Some(ScalarMapping::NeedsDecimalBackend) => Step {
                result: Err(SchemaError::MissingDecimalBackend { at: Seq::empty() }),
                defs,
            },
            None => gen_declaration(schema, decimal, defs, ty.name@),
        }
    }
}

/// A `$ref` to a named declaration, whose schema goes into `$defs` the
/// first time it is reached. A placeholder is entered first, so a type
/// that refers to itself finds its own entry.
pub open spec fn gen_declaration(
    schema: Schema,
    decimal: Option<DecimalBackend>,
    defs: Seq<(Seq<char>, Json)>,
    name: Seq<char>,
) -> Step
    decreases undefined(schema, defs), 4nat, 0nat,
{
    if obj_get(defs, name) is Some {
        Step { result: Ok(ref_json(name)), defs }
    } else {
        let placed = obj_insert(defs, name, Json::Null);
        proof {
            lemma_undefined_insert(schema, defs, name, Json::Null);
        }
        let s = gen_declaration_schema(schema, decimal, placed, name);
        match s.result {
            Ok(d) => Step { result: Ok(ref_json(name)), defs: obj_insert(s.defs, name, d) },
            Err(e) => s,
        }
    }
}

/// The schema of the declaration named `name`: an enum, a `type`, or a
/// model without its relations and `@server_only` fields.
pub open spec fn gen_declaration_schema(
    schema: Schema,
    decimal: Option<DecimalBackend>,
    defs: Seq<(Seq<char>, Json)>,
    name: Seq<char>,
) -> Step
    decreases undefined(schema, defs), declaration_rank(schema, name), 0nat,
{
    match first_index(enum_names(schema.enums@), name) {
        Some(i) => {
            let decl = schema.enums@[i];
            Step { result: Ok(with_docs_json(enum_json(decl), decl.docs@)), defs }
        },
        None => match first_index(type_names(schema.types@), name) {
            Some(i) => {
                proof {
                    lemma_first_index(type_names(schema.types@), name);
                }
                let decl = schema.types@[i];
                match computed_error(name, decl.fields@) {
                    Some(e) => Step { result: Err(e), defs },
                    None => {
                        let s = gen_object(
                            schema,
                            decimal,
                            defs,
                            name,
                            decl.fields@,
                            0,
                            Seq::empty(),
                            Seq::empty(),
                        );
                        match s.result {
                            Ok(o) => Step { result: Ok(with_docs_json(o, decl.docs@)), defs: s.defs },
                            Err(e) => s,
                        }
                    },
                }
            },
            None => match first_index(model_names(schema.models@), name) {
                Some(i) => {
                    proof {
                        lemma_first_index(model_names(schema.models@), name);
                    }
                    let model = schema.models@[i];
                    match computed_error(name, model.fields@) {
                        Some(e) => Step { result: Err(e), defs },
                        None => {
                            let s = gen_object(
                                schema,
                                decimal,
                                defs,
                                name,
                                advertised_fields(schema, model.fields@),
                                0,
                                Seq::empty(),
                                Seq::empty(),
                            );
                            match s.result {
                                Ok(o) => Step {
                                    result: Ok(with_docs_json(o, model.docs@)),
                                    defs: s.defs,
                                },
                                Err(e) => s,
                            }
                        },
                    }
                },
                None => Step {
                    result: Err(SchemaError::UnknownType { ty_name: name, at: Seq::empty() }),
                    defs,
                },
            },
        },
    }
}

/// The object schema of `fields[i..]`, added to the properties and
/// required names collected from `fields[..i]`. (The last branch is never
/// taken: the walk never drops a `$defs` entry, see
/// [`law_walk_keeps_definitions`].)
pub open spec fn gen_object(
    schema: Schema,
    decimal: Option<DecimalBackend>,
    defs: Seq<(Seq<char>, Json)>,
    owner: Seq<char>,
    fields: Seq<Field>,
    i: int,
    properties: Seq<(Seq<char>, Json)>,
    required: Seq<Seq<char>>,
) -> Step
    decreases undefined(schema, defs), 6nat, (fields.len() - i) as nat,
{
    if i < 0 || i >= fields.len() {
        Step { result: Ok(object_schema_json(properties, required)), defs }
    } else {
        let f = fields[i];
        let s = gen_type_ref(schema, decimal, defs, f.ty);
        match s.result {
            Err(e) => Step { result: Err(within(e, field_step(owner, f.name@))), defs: s.defs },
            Ok(p) => if undefined(schema, s.defs) <= undefined(schema, defs) {
                gen_object(
                    schema,
                    decimal,
                    s.defs,
                    owner,
                    fields,
                    i + 1,
                    obj_insert(properties, f.name@, with_docs_json(p, f.docs@)),
                    if spec_is_required(f.ty) {
                        required.push(f.name@)
                    } else {
                        required
                    },
                )
            } else {
                Step { result: Ok(Json::Null), defs: s.defs }
            },
        }
    }
}

/// Adds the dialect and the collected `$defs` to a root schema.
pub open spec fn finish_json(root: Json, defs: Seq<(Seq<char>, Json)>) -> Json {
    let with_dialect = put_member(root, "$schema"@, jstr(DIALECT@));
    if defs.len() > 0 {
        put_member(with_dialect, "$defs"@, Json::Object(defs))
    } else {
        with_dialect
    }
}

pub proof fn lemma_decl_names_finite(schema: Schema)
    ensures
        decl_names(schema).finite(),
{
    vstd::seq_lib::seq_to_set_is_finite(enum_names(schema.enums@));
    vstd::seq_lib::seq_to_set_is_finite(type_names(schema.types@));
    vstd::seq_lib::seq_to_set_is_finite(model_names(schema.models@));
}

/// Entering a new name uses up one declared name, or none when the name is
/// not declared.
pub proof fn lemma_undefined_insert(
    schema: Schema,
    defs: Seq<(Seq<char>, Json)>,
    name: Seq<char>,
    value: Json,
)
    requires
        obj_get(defs, name) is None,
    ensures
        decl_names(schema).contains(name) ==> undefined(schema, obj_insert(defs, name, value))
            < undefined(schema, defs),
        !decl_names(schema).contains(name) ==> undefined(schema, obj_insert(defs, name, value))
            == undefined(schema, defs),
{
    let decl = decl_names(schema);
    lemma_decl_names_finite(schema);
    crate::json::lemma_obj_keys(defs, name);
    crate::json::lemma_obj_insert_keys(defs, name, value);
    let keys = obj_keys(defs);
    if decl.contains(name) {
        decl.lemma_set_insert_diff_decreases(keys, name);
    } else {
        assert(decl.difference(keys.insert(name)) =~= decl.difference(keys));
    }
}

/// More `$defs` keys, no more undefined names.
pub proof fn lemma_undefined_mono(
    schema: Schema,
    d1: Seq<(Seq<char>, Json)>,
    d2: Seq<(Seq<char>, Json)>,
)
    requires
        obj_keys(d1).subset_of(obj_keys(d2)),
    ensures
        undefined(schema, d2) <= undefined(schema, d1),
{
    let decl = decl_names(schema);
    lemma_decl_names_finite(schema);
    vstd::set_lib::lemma_len_difference(decl, obj_keys(d1));
    lemma_set_subset_finite(decl, decl.difference(obj_keys(d1)));
    lemma_len_subset(decl.difference(obj_keys(d2)), decl.difference(obj_keys(d1)));
}

/// The walk never drops a `$defs` entry: every step leaves at least the
/// keys it was given (so the last branch of [`gen_object`] is never taken).
pub proof fn law_walk_keeps_definitions(
    schema: Schema,
    decimal: Option<DecimalBackend>,
    defs: Seq<(Seq<char>, Json)>,
    ty: TypeRef,
)
    ensures
        obj_keys(defs).subset_of(obj_keys(gen_type_ref(schema, decimal, defs, ty).defs)),
    decreases undefined(schema, defs), 5nat, 3 * type_depth(ty) + 2,
{
    if ty.spec_is_page() {
        lemma_keys_page(schema, decimal, defs, ty);
    } else if !ty.spec_is_find_many() {
        lemma_keys_element(schema, decimal, defs, ty);
    }
}

proof fn lemma_keys_page(
    schema: Schema,
    decimal: Option<DecimalBackend>,
    defs: Seq<(Seq<char>, Json)>,
    ty: TypeRef,
)
    ensures
        obj_keys(defs).subset_of(obj_keys(gen_page(schema, decimal, defs, ty).defs)),
    decreases undefined(schema, defs), 5nat, 3 * type_depth(ty) + 1,
{
    if ty.generic_args@.len() > 0 {
        law_walk_keeps_definitions(schema, decimal, defs, ty.generic_args@[0]);
    }
}

proof fn lemma_keys_element(
    schema: Schema,
    decimal: Option<DecimalBackend>,
    defs: Seq<(Seq<char>, Json)>,
    ty: TypeRef,
)
    ensures
        obj_keys(defs).subset_of(obj_keys(gen_element(schema, decimal, defs, ty).defs)),
    decreases undefined(schema, defs), 5nat, 3 * type_depth(ty),
{
    if !ty.spec_is_page_input() && spec_builtin_scalar(ty.name@, decimal) is None {
        lemma_keys_declaration(schema, decimal, defs, ty.name@);
    }
}

proof fn lemma_keys_declaration(
    schema: Schema,
    decimal: Option<DecimalBackend>,
    defs: Seq<(Seq<char>, Json)>,
    name: Seq<char>,
)
    ensures
        obj_keys(defs).subset_of(obj_keys(gen_declaration(schema, decimal, defs, name).defs)),
    decreases undefined(schema, defs), 4nat, 0nat,
{
    if obj_get(defs, name) is None {
        let placed = obj_insert(defs, name, Json::Null);
        lemma_undefined_insert(schema, defs, name, Json::Null);
        crate::json::lemma_obj_insert_keys(defs, name, Json::Null);
        lemma_keys_declaration_schema(schema, decimal, placed, name);
        let s = gen_declaration_schema(schema, decimal, placed, name);
        if let Ok(d) = s.result {
            crate::json::lemma_obj_insert_keys(s.defs, name, d);
        }
    }
}

proof fn lemma_keys_declaration_schema(
    schema: Schema,
    decimal: Option<DecimalBackend>,
    defs: Seq<(Seq<char>, Json)>,
    name: Seq<char>,
)
    ensures
        obj_keys(defs).subset_of(obj_keys(gen_declaration_schema(schema, decimal, defs, name).defs)),
    decreases undefined(schema, defs), declaration_rank(schema, name), 0nat,
{
    if first_index(enum_names(schema.enums@), name) is None {
        match first_index(type_names(schema.types@), name) {
            Some(i) => {
                lemma_first_index(type_names(schema.types@), name);
                let decl = schema.types@[i];
                if computed_error(name, decl.fields@) is None {
                    lemma_keys_object(schema, decimal, defs, name, decl.fields@, 0, Seq::empty(), Seq::empty());
                }
            },
            None => match first_index(model_names(schema.models@), name) {
                Some(i) => {
                    lemma_first_index(model_names(schema.models@), name);
                    let model = schema.models@[i];
                    if computed_error(name, model.fields@) is None {
                        lemma_keys_object(
                            schema,
                            decimal,
                            defs,
                            name,
                            advertised_fields(schema, model.fields@),
                            0,
                            Seq::empty(),
                            Seq::empty(),
                        );
                    }
                },
                None => {},
            },
        }
    }
}

proof fn lemma_keys_object(
    schema: Schema,
    decimal: Option<DecimalBackend>,
    defs: Seq<(Seq<char>, Json)>,
    owner: Seq<char>,
    fields: Seq<Field>,
    i: int,
    properties: Seq<(Seq<char>, Json)>,
    required: Seq<Seq<char>>,
)
    ensures
        obj_keys(defs).subset_of(
            obj_keys(gen_object(schema, decimal, defs, owner, fields, i, properties, required).defs),
        ),
        gen_object(schema, decimal, defs, owner, fields, i, properties, required).result != Ok::<
            Json,
            SchemaError,
        >(Json::Null),
    decreases undefined(schema, defs), 6nat, (fields.len() - i) as nat,
{
    if 0 <= i < fields.len() {
        let f = fields[i];
        law_walk_keeps_definitions(schema, decimal, defs, f.ty);
        let s = gen_type_ref(schema, decimal, defs, f.ty);
        if let Ok(p) = s.result {
            lemma_undefined_mono(schema, defs, s.defs);
            lemma_keys_object(
                schema,
                decimal,
                s.defs,
                owner,
                fields,
                i + 1,
                obj_insert(properties, f.name@, with_docs_json(p, f.docs@)),
                if spec_is_required(f.ty) {
                    required.push(f.name@)
                } else {
                    required
                },
            );
        }
    } else {
        let o = object_schema_json(properties, required);
        assert(o is Object);
    }
}

/// `defs` holds the placeholder under `key`: a declaration whose schema
/// is still being built.
pub open spec fn is_placeholder(defs: Seq<(Seq<char>, Json)>, key: Seq<char>) -> bool {
    obj_get(defs, key) == Some(Json::Null)
}

/// `after` holds a placeholder only under keys where `before` holds one.
pub open spec fn placeholders_within(before: Seq<(Seq<char>, Json)>, after: Seq<(Seq<char>, Json)>) -> bool {
    forall|k: Seq<char>| #[trigger] is_placeholder(after, k) ==> is_placeholder(before, k)
}

/// A step that succeeds leaves no placeholder of its own behind: every
/// declaration it entered has its schema by the time it returns.
pub proof fn law_success_fills_placeholders(
    schema: Schema,
    decimal: Option<DecimalBackend>,
    defs: Seq<(Seq<char>, Json)>,
    ty: TypeRef,
)
    ensures
        gen_type_ref(schema, decimal, defs, ty).result is Ok ==> placeholders_within(
            defs,
            gen_type_ref(schema, decimal, defs, ty).defs,
        ),
    decreases undefined(schema, defs), 5nat, 3 * type_depth(ty) + 2,
{
    if ty.spec_is_page() {
        lemma_fills_page(schema, decimal, defs, ty);
    } else if !ty.spec_is_find_many() {
        lemma_fills_element(schema, decimal, defs, ty);
    }
}

proof fn lemma_fills_page(
    schema: Schema,
    decimal: Option<DecimalBackend>,
    defs: Seq<(Seq<char>, Json)>,
    ty: TypeRef,
)
    ensures
        gen_page(schema, decimal, defs, ty).result is Ok ==> placeholders_within(
            defs,
            gen_page(schema, decimal, defs, ty).defs,
        ),
    decreases undefined(schema, defs), 5nat, 3 * type_depth(ty) + 1,
{
    if ty.generic_args@.len() > 0 {
        law_success_fills_placeholders(schema, decimal, defs, ty.generic_args@[0]);
    }
}

proof fn lemma_fills_element(
    schema: Schema,
    decimal: Option<DecimalBackend>,
    defs: Seq<(Seq<char>, Json)>,
    ty: TypeRef,
)
    ensures
        gen_element(schema, decimal, defs, ty).result is Ok ==> placeholders_within(
            defs,
            gen_element(schema, decimal, defs, ty).defs,
        ),
    decreases undefined(schema, defs), 5nat, 3 * type_depth(ty),
{
    if !ty.spec_is_page_input() && spec_builtin_scalar(ty.name@, decimal) is None {
        lemma_fills_declaration(schema, decimal, defs, ty.name@);
    }
}

proof fn lemma_fills_declaration(
    schema: Schema,
    decimal: Option<DecimalBackend>,
    defs: Seq<(Seq<char>, Json)>,
    name: Seq<char>,
)
    ensures
        gen_declaration(schema, decimal, defs, name).result is Ok ==> placeholders_within(
            defs,
            gen_declaration(schema, decimal, defs, name).defs,
        ),
    decreases undefined(schema, defs), 4nat, 0nat,
{
    if obj_get(defs, name) is None {
        let placed = obj_insert(defs, name, Json::Null);
        lemma_undefined_insert(schema, defs, name, Json::Null);
        lemma_fills_declaration_schema(schema, decimal, placed, name);
        let s = gen_declaration_schema(schema, decimal, placed, name);
        if let Ok(d) = s.result {
            let done = obj_insert(s.defs, name, d);
            assert forall|k: Seq<char>| #[trigger] is_placeholder(done, k) implies is_placeholder(
                defs,
                k,
            ) by {
                crate::json::lemma_obj_get_insert_same(s.defs, name, d);
                if k == name {
                    assert(obj_get(done, name) == Some(d));
                } else {
                    crate::json::lemma_obj_get_insert_other(s.defs, name, d, k);
                    assert(is_placeholder(s.defs, k));
                    assert(is_placeholder(placed, k));
                    crate::json::lemma_obj_get_insert_other(defs, name, Json::Null, k);
                }
            }
        }
    }
}

proof fn lemma_fills_declaration_schema(
    schema: Schema,
    decimal: Option<DecimalBackend>,
    defs: Seq<(Seq<char>, Json)>,
    name: Seq<char>,
)
    ensures
        gen_declaration_schema(schema, decimal, defs, name).result matches Ok(d) ==> {
            &&& d != Json::Null
            &&& placeholders_within(defs, gen_declaration_schema(schema, decimal, defs, name).defs)
        },
    decreases undefined(schema, defs), declaration_rank(schema, name), 0nat,
{
    match first_index(enum_names(schema.enums@), name) {
        Some(i) => {
            let decl = schema.enums@[i];
            lemma_with_docs_object(enum_json(decl), decl.docs@);
        },
        None => match first_index(type_names(schema.types@), name) {
            Some(i) => {
                lemma_first_index(type_names(schema.types@), name);
                let decl = schema.types@[i];
                if computed_error(name, decl.fields@) is None {
                    lemma_fills_object(schema, decimal, defs, name, decl.fields@, 0, Seq::empty(), Seq::empty());
                    let s = gen_object(schema, decimal, defs, name, decl.fields@, 0, Seq::empty(), Seq::empty());
                    if let Ok(o) = s.result {
                        lemma_with_docs_object(o, decl.docs@);
                    }
                }
            },
            None => match first_index(model_names(schema.models@), name) {
                Some(i) => {
                    lemma_first_index(model_names(schema.models@), name);
                    let model = schema.models@[i];
                    let fields = advertised_fields(schema, model.fields@);
                    if computed_error(name, model.fields@) is None {
                        lemma_fills_object(schema, decimal, defs, name, fields, 0, Seq::empty(), Seq::empty());
                        let s = gen_object(schema, decimal, defs, name, fields, 0, Seq::empty(), Seq::empty());
                        if let Ok(o) = s.result {
                            lemma_with_docs_object(o, model.docs@);
                        }
                    }
                },
                None => {},
            },
        },
    }
}

proof fn lemma_with_docs_object(j: Json, docs: Seq<String>)
    requires
        j is Object,
    ensures
        with_docs_json(j, docs) is Object,
{
}

proof fn lemma_fills_object(
    schema: Schema,
    decimal: Option<DecimalBackend>,
    defs: Seq<(Seq<char>, Json)>,
    owner: Seq<char>,
    fields: Seq<Field>,
    i: int,
    properties: Seq<(Seq<char>, Json)>,
    required: Seq<Seq<char>>,
)
    ensures
        gen_object(schema, decimal, defs, owner, fields, i, properties, required).result is Ok
            ==> placeholders_within(
            defs,
            gen_object(schema, decimal, defs, owner, fields, i, properties, required).defs,
        ),
        gen_object(schema, decimal, defs, owner, fields, i, properties, required).result matches Ok(
            o,
        ) ==> o is Object,
    decreases undefined(schema, defs), 6nat, (fields.len() - i) as nat,
{
    if 0 <= i < fields.len() {
        let f = fields[i];
        law_walk_keeps_definitions(schema, decimal, defs, f.ty);
        law_success_fills_placeholders(schema, decimal, defs, f.ty);
        let s = gen_type_ref(schema, decimal, defs, f.ty);
        if let Ok(p) = s.result {
            lemma_undefined_mono(schema, defs, s.defs);
            let next_props = obj_insert(properties, f.name@, with_docs_json(p, f.docs@));
            let next_req = if spec_is_required(f.ty) {
                required.push(f.name@)
            } else {
                required
            };
            lemma_fills_object(schema, decimal, s.defs, owner, fields, i + 1, next_props, next_req);
        }
    }
}

/// The walk's state: the schema and backend it reads, and the `$defs`
/// collected so far.
pub struct Generator<'a> {
    pub schema: &'a Schema,
    pub decimal: Option<DecimalBackend>,
    pub defs: Vec<(String, JsonValue)>,
}

/// `r`, with `defs` after it, is what `step` says.
pub open spec fn step_is(
    step: Step,
    r: Result<JsonValue, JsonSchemaError>,
    defs: Seq<(Seq<char>, Json)>,
) -> bool {
    &&& step.defs == defs
    &&& match r {
        Ok(v) => step.result == Ok::<Json, SchemaError>(v.json()),
        Err(e) => step.result == Err::<Json, SchemaError>(e@),
    }
}

impl<'a> Generator<'a> {
    /// The `$defs` collected so far.
    pub open spec fn defs_json(&self) -> Seq<(Seq<char>, Json)> {
        json_entries(self.defs@)
    }

    /// Same schema and backend, no `$defs` entry lost, and key order kept.
    pub open spec fn grows_to(&self, next: &Generator<'a>) -> bool {
        &&& next.schema == self.schema
        &&& next.decimal == self.decimal
        &&& obj_keys(self.defs_json()).subset_of(obj_keys(next.defs_json()))
        &&& crate::json::obj_sorted(self.defs_json()) ==> crate::json::obj_sorted(next.defs_json())
    }

    pub fn new(schema: &'a Schema, decimal: Option<DecimalBackend>) -> (g: Self)
        ensures
            g.schema == schema,
            g.decimal == decimal,
            g.defs_json() == Seq::<(Seq<char>, Json)>::empty(),
            crate::json::obj_sorted(g.defs_json()),
    {
        let defs: Vec<(String, JsonValue)> = Vec::new();
        proof {
            crate::json::lemma_json_entries(defs@);
            assert(json_entries(defs@) =~= Seq::<(Seq<char>, Json)>::empty());
        }
        Generator { schema, decimal, defs }
    }

    /// Adds the dialect and the collected `$defs` to a root schema.
    pub fn finish(self, root: JsonValue) -> (r: JsonValue)
        ensures
            r.json() == finish_json(root.json(), self.defs_json()),
    {
        let with_dialect = put(root, "$schema", JsonValue::text(DIALECT));
        let n = self.defs.len();
        proof {
            crate::json::lemma_json_entries(self.defs@);
        }
        if n > 0 {
            put(with_dialect, "$defs", JsonValue::Object(self.defs))
        } else {
            with_dialect
        }
    }

    /// One argument's or field's schema, arity included.
    pub fn type_ref(&mut self, ty: &TypeRef) -> (r: Result<JsonValue, JsonSchemaError>)
        ensures
            old(self).grows_to(final(self)),
            step_is(
                gen_type_ref(*old(self).schema, old(self).decimal, old(self).defs_json(), *ty),
                r,
                final(self).defs_json(),
            ),
        decreases undefined(*old(self).schema, old(self).defs_json()), 5nat, 3 * type_depth(*ty) + 2,
    {
        if ty.is_page() {
            return self.page(ty);
        }
        if ty.is_find_many() {
            return Err(
                JsonSchemaError::NoFaithfulMapping {
                    ty_name: owned("FindMany"),
                    reason: owned(FIND_MANY_REASON),
                    at: no_location(),
                },
            );
        }
        let element = match self.element(ty) {
            Ok(e) => e,
            Err(e) => return Err(e),
        };
        Ok(
            match ty.arity {
                TypeArity::Required => element,
                TypeArity::Optional => nullable(element),
                TypeArity::List => array_of(element),
            },
        )
    }

    fn element(&mut self, ty: &TypeRef) -> (r: Result<JsonValue, JsonSchemaError>)
        ensures
            old(self).grows_to(final(self)),
            step_is(
                gen_element(*old(self).schema, old(self).decimal, old(self).defs_json(), *ty),
                r,
                final(self).defs_json(),
            ),
        decreases undefined(*old(self).schema, old(self).defs_json()), 5nat, 3 * type_depth(*ty),
    {
        if ty.is_page_input() {
            return Ok(page_input());
        }
        match builtin_scalar(ty.name.as_str(), self.decimal) {
            Some(Scalar::Mapped(schema)) => Ok(schema),
            Some(Scalar::NoFaithfulMapping(reason)) => Err(
                JsonSchemaError::NoFaithfulMapping {
                    ty_name: ty.name.clone(),
                    reason,
                    at: no_location(),
                },
            ),
            Some(Scalar::NeedsDecimalBackend) => Err(
                JsonSchemaError::MissingDecimalBackend { at: no_location() },
            ),
            None => self.declaration(ty.name.as_str()),
        }
    }

    fn page(&mut self, ty: &TypeRef) -> (r: Result<JsonValue, JsonSchemaError>)
        ensures
            old(self).grows_to(final(self)),
            step_is(
                gen_page(*old(self).schema, old(self).decimal, old(self).defs_json(), *ty),
                r,
                final(self).defs_json(),
            ),
        decreases undefined(*old(self).schema, old(self).defs_json()), 5nat, 3 * type_depth(*ty) + 1,
    {
        let item = match ty.page_item() {
            Some(item) => item,
            None => {
                return Err(
                    JsonSchemaError::UnknownType { ty_name: owned("Page"), at: no_location() },
                );
            },
        };
        let items = match self.type_ref(item) {
            Ok(items) => items,
            Err(e) => return Err(e.within(owned("`Page` item"))),
        };
        Ok(page(items))
    }

    fn declaration(&mut self, name: &str) -> (r: Result<JsonValue, JsonSchemaError>)
        ensures
            old(self).grows_to(final(self)),
            step_is(
                gen_declaration(*old(self).schema, old(self).decimal, old(self).defs_json(), name@),
                r,
                final(self).defs_json(),
            ),
        decreases undefined(*old(self).schema, old(self).defs_json()), 4nat, 0nat,
    {
        let mut target = owned("#/$defs/");
        target.append(name);
        let reference = put(JsonValue::empty_object(), "$ref", JsonValue::Str(target));
        if crate::json::object_contains(&self.defs, name) {
            return Ok(reference);
        }
        let ghost before = self.defs_json();
        crate::json::object_insert(&mut self.defs, owned(name), JsonValue::Null);
        proof {
            lemma_undefined_insert(*self.schema, before, name@, Json::Null);
            crate::json::lemma_obj_insert_keys(before, name@, Json::Null);
        }
        let schema = match self.declaration_schema(name) {
            Ok(schema) => schema,
            Err(e) => return Err(e),
        };
        let ghost mid = self.defs_json();
        crate::json::object_insert(&mut self.defs, owned(name), schema);
        proof {
            crate::json::lemma_obj_insert_keys(mid, name@, schema.json());
        }
        Ok(reference)
    }

    fn declaration_schema(&mut self, name: &str) -> (r: Result<JsonValue, JsonSchemaError>)
        ensures
            old(self).grows_to(final(self)),
            step_is(
                gen_declaration_schema(
                    *old(self).schema,
                    old(self).decimal,
                    old(self).defs_json(),
                    name@,
                ),
                r,
                final(self).defs_json(),
            ),
        decreases undefined(*old(self).schema, old(self).defs_json()),
            declaration_rank(*old(self).schema, name@), 0nat,
    {
        let schema = self.schema;
        if let Some(i) = crate::ir::find_enum(&schema.enums, name) {
            proof {
                lemma_first_index(enum_names(schema.enums@), name@);
            }
            let decl = &schema.enums[i];
            return Ok(with_docs(enum_schema(decl), &decl.docs));
        }
        if let Some(i) = crate::ir::find_type(&schema.types, name) {
            proof {
                lemma_first_index(type_names(schema.types@), name@);
            }
            let decl = &schema.types[i];
            if let Err(e) = reject_computed(name, &decl.fields) {
                return Err(e);
            }
            let fields = all_fields(&decl.fields);
            let object = match self.object(name, &fields) {
                Ok(object) => object,
                Err(e) => return Err(e),
            };
            return Ok(with_docs(object, &decl.docs));
        }
        if let Some(i) = crate::ir::find_model(&schema.models, name) {
            proof {
                lemma_first_index(model_names(schema.models@), name@);
            }
            let model = &schema.models[i];
            if let Err(e) = reject_computed(name, &model.fields) {
                return Err(e);
            }
            let fields = model_fields(schema, &model.fields);
            let object = match self.object(name, &fields) {
                Ok(object) => object,
                Err(e) => return Err(e),
            };
            return Ok(with_docs(object, &model.docs));
        }
        Err(JsonSchemaError::UnknownType { ty_name: owned(name), at: no_location() })
    }

    fn object(&mut self, owner: &str, fields: &Vec<&Field>) -> (r: Result<JsonValue, JsonSchemaError>)
        requires
            decl_names(*old(self).schema).contains(owner@),
        ensures
            old(self).grows_to(final(self)),
            step_is(
                gen_object(
                    *old(self).schema,
                    old(self).decimal,
                    old(self).defs_json(),
                    owner@,
                    deref_fields(fields@),
                    0,
                    Seq::empty(),
                    Seq::empty(),
                ),
                r,
                final(self).defs_json(),
            ),
        decreases undefined(*old(self).schema, old(self).defs_json()), 6nat, 0nat,
    {
        let ghost fs = deref_fields(fields@);
        let ghost start = self.defs_json();
        let mut properties: Vec<(String, JsonValue)> = Vec::new();
        let mut required: Vec<String> = Vec::new();
        proof {
            crate::json::lemma_json_entries(properties@);
            assert(json_entries(properties@) =~= Seq::<(Seq<char>, Json)>::empty());
            assert(required@.map_values(|s: String| s@) =~= Seq::<Seq<char>>::empty());
        }
        let n = fields.len();
        let mut i: usize = 0;
        while i < n
            invariant
                n == fields@.len(),
                fs == deref_fields(fields@),
                i <= n,
                old(self).grows_to(self),
                undefined(*self.schema, self.defs_json()) <= undefined(*old(self).schema, start),
                start == old(self).defs_json(),
                gen_object(*self.schema, self.decimal, start, owner@, fs, 0, Seq::empty(), Seq::empty())
                    == gen_object(
                    *self.schema,
                    self.decimal,
                    self.defs_json(),
                    owner@,
                    fs,
                    i as int,
                    json_entries(properties@),
                    required@.map_values(|s: String| s@),
                ),
            decreases n - i,
        {
            let field = fields[i];
            let ghost before = self.defs_json();
            let ghost props_before = json_entries(properties@);
            let ghost req_before = required@.map_values(|s: String| s@);
            assert(fs[i as int] == *field);
            let property = match self.type_ref(&field.ty) {
                Ok(p) => p,
                Err(e) => {
                    let step = concat3("field `", owner, ".");
                    let mut step = step;
                    step.append(field.name.as_str());
                    step.append("`");
                    assert(step@ == field_step(owner@, field.name@));
                    return Err(e.within(step));
                },
            };
            proof {
                lemma_undefined_mono(*self.schema, before, self.defs_json());
            }
            let documented = with_docs(property, &field.docs);
            crate::json::object_insert(&mut properties, field.name.clone(), documented);
            if is_required(&field.ty) {
                required.push(field.name.clone());
                assert(required@.map_values(|s: String| s@) =~= req_before.push(field.name@));
            }
            i = i + 1;
        }
        Ok(object_schema(properties, &required))
    }
}

/// The fields that a sequence of references points at.
pub open spec fn deref_fields(fields: Seq<&Field>) -> Seq<Field> {
    fields.map_values(|f: &Field| *f)
}

/// No location yet: the failure is where it was found.
fn no_location() -> (v: Vec<String>)
    ensures
        super::error::strings_view(v@) == Seq::<Seq<char>>::empty(),
{
    let v: Vec<String> = Vec::new();
    assert(super::error::strings_view(v@) =~= Seq::<Seq<char>>::empty());
    v
}

/// An enum's schema: a string that is one of its variant names.
fn enum_schema(decl: &EnumDecl) -> (r: JsonValue)
    ensures
        r.json() == enum_json(*decl),
{
    let mut names: Vec<String> = Vec::new();
    let n = decl.variants.len();
    let mut i: usize = 0;
    while i < n
        invariant
            n == decl.variants@.len(),
            i <= n,
            names@.len() == i,
            forall|j: int| 0 <= j < i ==> #[trigger] names@[j]@ == decl.variants@[j].name@,
        decreases n - i,
    {
        names.push(decl.variants[i].name.clone());
        i = i + 1;
    }
    assert(names@.map_values(|s: String| s@) =~= decl.variants@.map_values(
        |v: crate::ir::EnumVariant| v.name@,
    ));
    let o = put(JsonValue::empty_object(), "type", JsonValue::text("string"));
    put(o, "enum", crate::json::string_array(&names))
}

/// Refuses a declaration that has a `@computed` field, naming the first.
fn reject_computed(owner: &str, fields: &Vec<Field>) -> (r: Result<(), JsonSchemaError>)
    ensures
        match r {
            Ok(()) => computed_error(owner@, fields@) is None,
            Err(e) => computed_error(owner@, fields@) == Some(e@),
        },
{
    let n = fields.len();
    let mut i: usize = 0;
    assert(fields@.skip(0) =~= fields@);
    while i < n
        invariant
            n == fields@.len(),
            i <= n,
            first_computed(fields@) == match first_computed(fields@.skip(i as int)) {
                Some(k) => Some(k + i),
                None => None,
            },
        decreases n - i,
    {
        assert(fields@.skip(i as int).drop_first() =~= fields@.skip(i + 1));
        if is_computed_field(&fields[i]) {
            let mut step = concat3("field `", owner, ".");
            step.append(fields[i].name.as_str());
            step.append("`");
            let mut at: Vec<String> = Vec::new();
            at.push(step);
            let e = JsonSchemaError::NoFaithfulMapping {
                ty_name: owned(owner),
                reason: owned(COMPUTED_REASON),
                at,
            };
            assert(super::error::strings_view(at@) =~= seq![field_step(owner@, fields@[i as int].name@)]);
            return Err(e);
        }
        i = i + 1;
    }
    Ok(())
}

/// Every field of a `type`, by reference.
fn all_fields(fields: &Vec<Field>) -> (r: Vec<&Field>)
    ensures
        deref_fields(r@) == fields@,
{
    let mut out: Vec<&Field> = Vec::new();
    let n = fields.len();
    let mut i: usize = 0;
    while i < n
        invariant
            n == fields@.len(),
            i <= n,
            out@.len() == i,
            deref_fields(out@) == fields@.take(i as int),
        decreases n - i,
    {
        let ghost prev = out@;
        out.push(&fields[i]);
        assert(out@ == prev.push(&fields@[i as int]));
        assert(deref_fields(prev) =~= fields@.take(i as int));
        assert forall|j: int| 0 <= j < i + 1 implies #[trigger] deref_fields(out@)[j]
            == fields@.take(i + 1)[j] by {
            if j < i {
                assert(out@[j] == prev[j]);
            }
        }
        assert(deref_fields(out@) =~= fields@.take(i + 1));
        i = i + 1;
    }
    assert(fields@.take(n as int) =~= fields@);
    out
}

/// The fields of a model that its serde shape has.
fn model_fields<'b>(schema: &Schema, fields: &'b Vec<Field>) -> (r: Vec<&'b Field>)
    ensures
        deref_fields(r@) == advertised_fields(*schema, fields@),
{
    let mut out: Vec<&Field> = Vec::new();
    let n = fields.len();
    let mut i: usize = 0;
    while i < n
        invariant
            n == fields@.len(),
            i <= n,
            deref_fields(out@) == advertised_fields(*schema, fields@.take(i as int)),
        decreases n - i,
    {
        let f = &fields[i];
        let keep = !is_relation_field(schema, f) && !is_server_only_field(f);
        let ghost prev = deref_fields(out@);
        if keep {
            out.push(f);
        }
        proof {
            reveal_with_fuel(Seq::filter, 1);
            assert(fields@.take(i + 1).drop_last() =~= fields@.take(i as int));
            if keep {
                assert(deref_fields(out@) =~= prev.push(*f));
            } else {
                assert(deref_fields(out@) =~= prev);
            }
        }
        i = i + 1;
    }
    assert(fields@.take(n as int) =~= fields@);
    out
}

} // verus!
