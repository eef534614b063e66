//! What the generator promises of every schema it returns, over the spec
//! functions that its executable functions are proved to compute.

use vstd::prelude::*;

use crate::ir::{DecimalBackend, Procedure, ProcedureArg, Schema, TypeArity, TypeRef, type_depth};
use crate::json::{Json, jstr, law_member_after_put, member, obj_keys, put_member, str_array};

use super::error::{SchemaError, error_at, within};
use super::generator::{
    DIALECT, finish_json, gen_element, gen_page, gen_type_ref, is_placeholder,
    law_success_fills_placeholders, placeholders_within, ref_json,
};
use super::parts::{object_schema_json, page_json, spec_is_required, nullable_json, array_json};
use super::scalar::{spec_builtin_scalar, type_schema};
use super::{gen_args, output_is_object, spec_procedure_input_schema, spec_procedure_output_schema};

verus! {

/// An object with at least one member: a schema that asserts something.
pub open spec fn is_assertive(j: Json) -> bool {
    j matches Json::Object(entries) && entries.len() > 0
}

/// The names of the arguments that must be present, in order.
pub open spec fn required_names(args: Seq<ProcedureArg>) -> Seq<Seq<char>>
    decreases args.len(),
{
    if args.len() == 0 {
        Seq::empty()
    } else {
        (if spec_is_required(args[0].ty) {
            seq![args[0].name@]
        } else {
            Seq::empty()
        }) + required_names(args.drop_first())
    }
}

/// The names of all arguments.
pub open spec fn arg_names(args: Seq<ProcedureArg>) -> Set<Seq<char>>
    decreases args.len(),
{
    if args.len() == 0 {
        Set::empty()
    } else {
        arg_names(args.drop_first()).insert(args[0].name@)
    }
}

proof fn lemma_put_assertive(j: Json, key: Seq<char>, value: Json)
    requires
        j is Object,
    ensures
        is_assertive(put_member(j, key, value)),
{
    law_member_after_put(j, key, value, key);
}

proof fn lemma_object_schema_assertive(properties: Seq<(Seq<char>, Json)>, required: Seq<Seq<char>>)
    ensures
        is_assertive(object_schema_json(properties, required)),
{
    lemma_put_assertive(crate::json::empty_object(), "type"@, jstr("object"@));
    lemma_put_assertive(type_schema("object"@), "properties"@, Json::Object(properties));
    let o = put_member(type_schema("object"@), "properties"@, Json::Object(properties));
    lemma_put_assertive(o, "required"@, str_array(required));
}

/// No type reaching procedure I/O is ever given the permissive `{}` (or any
/// non-object) schema: every schema the walk produces is an object with at
/// least one member. A type with no faithful mapping is an error instead.
pub proof fn law_schemas_are_assertive(
    schema: Schema,
    decimal: Option<DecimalBackend>,
    defs: Seq<(Seq<char>, Json)>,
    ty: TypeRef,
)
    ensures
        gen_type_ref(schema, decimal, defs, ty).result matches Ok(j) ==> is_assertive(j),
{
    let empty = crate::json::empty_object();
    if ty.spec_is_page() {
        if gen_page(schema, decimal, defs, ty).result is Ok {
            let s = gen_type_ref(schema, decimal, defs, ty.generic_args@[0]);
            lemma_object_schema_assertive_page(s.result->Ok_0);
        }
    } else if !ty.spec_is_find_many() {
        let s = gen_element(schema, decimal, defs, ty);
        if let Ok(e) = s.result {
            lemma_put_assertive(empty, "anyOf"@, Json::Array(seq![e, type_schema("null"@)]));
            lemma_put_assertive(empty, "type"@, jstr("array"@));
            lemma_put_assertive(type_schema("array"@), "items"@, e);
            lemma_element_assertive(schema, decimal, defs, ty);
        }
    }
}

proof fn lemma_object_schema_assertive_page(items: Json)
    ensures
        is_assertive(page_json(items)),
{
    let info = crate::json::obj_insert(
        crate::json::obj_insert(
            super::parts::counters_json(),
            "hasNextPage"@,
            type_schema("boolean"@),
        ),
        "hasPreviousPage"@,
        type_schema("boolean"@),
    );
    let properties = crate::json::obj_insert(
        crate::json::obj_insert(
            crate::json::obj_insert(Seq::empty(), "items"@, array_json(items)),
            "totalCount"@,
            nullable_json(super::scalar::int_schema()),
        ),
        "pageInfo"@,
        object_schema_json(info, seq!["hasNextPage"@, "hasPreviousPage"@]),
    );
    lemma_object_schema_assertive(properties, seq!["items"@, "pageInfo"@]);
}

proof fn lemma_element_assertive(
    schema: Schema,
    decimal: Option<DecimalBackend>,
    defs: Seq<(Seq<char>, Json)>,
    ty: TypeRef,
)
    ensures
        gen_element(schema, decimal, defs, ty).result matches Ok(j) ==> is_assertive(j),
{
    let empty = crate::json::empty_object();
    lemma_put_assertive(empty, "type"@, jstr("string"@));
    lemma_put_assertive(empty, "type"@, jstr("number"@));
    lemma_put_assertive(empty, "type"@, jstr("boolean"@));
    lemma_put_assertive(empty, "type"@, jstr("integer"@));
    lemma_put_assertive(empty, "type"@, jstr("array"@));
    lemma_put_assertive(type_schema("integer"@), "minimum"@, Json::Int(i64::MIN as int));
    let int_min = put_member(type_schema("integer"@), "minimum"@, Json::Int(i64::MIN as int));
    lemma_put_assertive(int_min, "maximum"@, Json::Int(i64::MAX as int));
    let byte = put_member(
        put_member(type_schema("integer"@), "minimum"@, Json::Int(0)),
        "maximum"@,
        Json::Int(255),
    );
    lemma_put_assertive(type_schema("integer"@), "minimum"@, Json::Int(0));
    lemma_put_assertive(type_schema("array"@), "items"@, byte);
    lemma_put_assertive(type_schema("string"@), "pattern"@, jstr(super::scalar::RUST_DECIMAL_PATTERN@));
    lemma_put_assertive(type_schema("string"@), "pattern"@, jstr(super::scalar::BIG_DECIMAL_PATTERN@));
    lemma_put_assertive(type_schema("string"@), "format"@, jstr("date-time"@));
    lemma_put_assertive(type_schema("string"@), "format"@, jstr("uuid"@));
    let dt = put_member(type_schema("string"@), "format"@, jstr("date-time"@));
    let uu = put_member(type_schema("string"@), "format"@, jstr("uuid"@));
    lemma_put_assertive(dt, "pattern"@, jstr(super::scalar::DATE_TIME_PATTERN@));
    lemma_put_assertive(uu, "pattern"@, jstr(super::scalar::UUID_PATTERN@));
    lemma_object_schema_assertive(super::parts::counters_json(), Seq::empty());
    lemma_put_assertive(empty, "$ref"@, jstr("#/$defs/"@ + ty.name@));
}

proof fn lemma_distinct_keys()
    ensures
        "type"@ != "$schema"@,
        "type"@ != "$defs"@,
        "type"@ != "properties"@,
        "type"@ != "required"@,
        "$schema"@ != "$defs"@,
        "required"@ != "$schema"@,
        "required"@ != "$defs"@,
        "properties"@ != "required"@,
        "properties"@ != "$schema"@,
        "properties"@ != "$defs"@,
{
    reveal_strlit("type");
    reveal_strlit("$schema");
    reveal_strlit("$defs");
    reveal_strlit("properties");
    reveal_strlit("required");
    assert("type"@[0] != "$schema"@[0]);
    assert("type"@[0] != "$defs"@[0]);
    assert("type"@[0] != "properties"@[0]);
    assert("type"@[0] != "required"@[0]);
    assert("$schema"@[1] != "$defs"@[1]);
    assert("required"@[0] != "$schema"@[0]);
    assert("required"@[0] != "$defs"@[0]);
    assert("properties"@[0] != "required"@[0]);
    assert("properties"@[0] != "$schema"@[0]);
    assert("properties"@[0] != "$defs"@[0]);
}

/// `finish_json` adds the dialect and keeps what the root had under every
/// other key but `$defs`.
proof fn lemma_finish_members(root: Json, defs: Seq<(Seq<char>, Json)>, key: Seq<char>)
    requires
        root is Object,
        key != "$schema"@,
        key != "$defs"@,
    ensures
        member(finish_json(root, defs), "$schema"@) == Some(jstr(DIALECT@)),
        member(finish_json(root, defs), key) == member(root, key),
{
    lemma_distinct_keys();
    law_member_after_put(root, "$schema"@, jstr(DIALECT@), key);
    let with_dialect = put_member(root, "$schema"@, jstr(DIALECT@));
    law_member_after_put(with_dialect, "$defs"@, Json::Object(defs), key);
    law_member_after_put(with_dialect, "$defs"@, Json::Object(defs), "$schema"@);
}

/// A procedure gets an output schema exactly when its return type is a
/// JSON object (a `Page<T>`, or a required `type` or `model`), and that
/// schema's root says `"type": "object"` and names the dialect, so a
/// client can see an object root without resolving references.
pub proof fn law_output_schema_shape(
    schema: Schema,
    procedure: Procedure,
    decimal: Option<DecimalBackend>,
)
    ensures
        (spec_procedure_output_schema(schema, procedure, decimal) == Ok::<Option<Json>, SchemaError>(
            None,
        )) <==> !output_is_object(schema, procedure),
        spec_procedure_output_schema(schema, procedure, decimal) matches Ok(Some(j)) ==> {
            &&& member(j, "type"@) == Some(jstr("object"@))
            &&& member(j, "$schema"@) == Some(jstr(DIALECT@))
        },
{
    if output_is_object(schema, procedure) {
        let s = gen_type_ref(schema, decimal, Seq::empty(), procedure.return_type);
        law_schemas_are_assertive(schema, decimal, Seq::empty(), procedure.return_type);
        if let Ok(root) = s.result {
            lemma_distinct_keys();
            law_member_after_put(root, "type"@, jstr("object"@), "type"@);
            let typed = put_member(root, "type"@, jstr("object"@));
            lemma_finish_members(typed, s.defs, "type"@);
        }
    }
}

proof fn lemma_gen_args(
    schema: Schema,
    decimal: Option<DecimalBackend>,
    defs: Seq<(Seq<char>, Json)>,
    procedure: Procedure,
    i: int,
    properties: Seq<(Seq<char>, Json)>,
    required: Seq<Seq<char>>,
)
    requires
        0 <= i <= procedure.args@.len(),
    ensures
        gen_args(schema, decimal, defs, procedure, i, properties, required) matches Ok(
            (p, r, d),
        ) ==> {
            &&& r == required + required_names(procedure.args@.skip(i))
            &&& obj_keys(p) == obj_keys(properties) + arg_names(procedure.args@.skip(i))
        },
    decreases procedure.args@.len() - i,
{
    let args = procedure.args@;
    if i == args.len() {
        assert(args.skip(i).len() == 0);
        assert(required + required_names(args.skip(i)) =~= required);
        assert(obj_keys(properties) + arg_names(args.skip(i)) =~= obj_keys(properties));
    } else {
        let arg = args[i];
        let s = gen_type_ref(schema, decimal, defs, arg.ty);
        if let Ok(p) = s.result {
            let next_props = crate::json::obj_insert(
                properties,
                arg.name@,
                super::parts::with_docs_json(p, arg.docs@),
            );
            let next_req = if spec_is_required(arg.ty) {
                required.push(arg.name@)
            } else {
                required
            };
            lemma_gen_args(schema, decimal, s.defs, procedure, i + 1, next_props, next_req);
            crate::json::lemma_obj_insert_keys(
                properties,
                arg.name@,
                super::parts::with_docs_json(p, arg.docs@),
            );
            assert(args.skip(i).drop_first() =~= args.skip(i + 1));
            assert(args.skip(i)[0] == arg);
            if spec_is_required(arg.ty) {
                assert(next_req + required_names(args.skip(i + 1)) =~= required + required_names(
                    args.skip(i),
                ));
            } else {
                assert(next_req + required_names(args.skip(i + 1)) =~= required + required_names(
                    args.skip(i),
                ));
            }
            assert(obj_keys(next_props) + arg_names(args.skip(i + 1)) =~= obj_keys(properties)
                + arg_names(args.skip(i)));
        }
    }
}

/// A procedure's input schema is an object with the dialect, one property
/// per argument name, and `required` listing exactly the arguments that
/// are not optional, in order, present only when there is one.
pub proof fn law_input_schema_shape(
    schema: Schema,
    procedure: Procedure,
    decimal: Option<DecimalBackend>,
)
    ensures
        spec_procedure_input_schema(schema, procedure, decimal) matches Ok(j) ==> {
            &&& member(j, "type"@) == Some(jstr("object"@))
            &&& member(j, "$schema"@) == Some(jstr(DIALECT@))
            &&& member(j, "properties"@) matches Some(Json::Object(p)) && obj_keys(p) == arg_names(
                procedure.args@,
            )
            &&& member(j, "required"@) == if required_names(procedure.args@).len() > 0 {
                Some(str_array(required_names(procedure.args@)))
            } else {
                None
            }
        },
{
    lemma_gen_args(schema, decimal, Seq::empty(), procedure, 0, Seq::empty(), Seq::empty());
    let args = procedure.args@;
    assert(args.skip(0) =~= args);
    if let Ok((p, r, d)) = gen_args(
        schema,
        decimal,
        Seq::empty(),
        procedure,
        0,
        Seq::empty(),
        Seq::empty(),
    ) {
        lemma_distinct_keys();
        assert(Seq::<Seq<char>>::empty() + required_names(args) =~= required_names(args));
        assert(obj_keys(Seq::<(Seq<char>, Json)>::empty()) + arg_names(args) =~= arg_names(args));
        let empty = crate::json::empty_object();
        law_member_after_put(empty, "type"@, jstr("object"@), "type"@);
        law_member_after_put(empty, "type"@, jstr("object"@), "required"@);
        let t = type_schema("object"@);
        law_member_after_put(t, "properties"@, Json::Object(p), "type"@);
        law_member_after_put(t, "properties"@, Json::Object(p), "required"@);
        let tp = put_member(t, "properties"@, Json::Object(p));
        law_member_after_put(tp, "required"@, str_array(r), "type"@);
        law_member_after_put(tp, "required"@, str_array(r), "properties"@);
        let root = object_schema_json(p, r);
        lemma_finish_members(root, d, "type"@);
        lemma_finish_members(root, d, "properties"@);
        lemma_finish_members(root, d, "required"@);
    }
}

/// The `$defs` that a [`Generator`](super::generator::Generator) collects
/// stay in key order (its methods keep them so), so the finished schema
/// lists each declaration once: a type used twice, or one that refers to
/// itself, has a single entry that every use points at.
pub proof fn law_definitions_listed_once(root: Json, defs: Seq<(Seq<char>, Json)>)
    requires
        root is Object,
        crate::json::obj_sorted(defs),
        defs.len() > 0,
    ensures
        member(finish_json(root, defs), "$defs"@) == Some(Json::Object(defs)),
        forall|i: int, j: int| 0 <= i < j < defs.len() ==> defs[i].0 != defs[j].0,
{
    lemma_distinct_keys();
    let with_dialect = put_member(root, "$schema"@, jstr(DIALECT@));
    law_member_after_put(with_dialect, "$defs"@, Json::Object(defs), "$defs"@);
    assert forall|i: int, j: int| 0 <= i < j < defs.len() implies defs[i].0 != defs[j].0 by {
        crate::text::lemma_key_lt_order(defs[i].0, defs[j].0, defs[j].0);
    }
}

/// No object schema says `additionalProperties`: serde ignores unknown
/// keys, so the schema allows them too.
pub proof fn law_objects_allow_unknown_keys(
    properties: Seq<(Seq<char>, Json)>,
    required: Seq<Seq<char>>,
)
    ensures
        member(object_schema_json(properties, required), "additionalProperties"@) is None,
{
    reveal_strlit("additionalProperties");
    reveal_strlit("type");
    reveal_strlit("properties");
    reveal_strlit("required");
    assert("additionalProperties"@[0] != "type"@[0]);
    assert("additionalProperties"@[0] != "properties"@[0]);
    assert("additionalProperties"@[0] != "required"@[0]);
    let key = "additionalProperties"@;
    let empty = crate::json::empty_object();
    law_member_after_put(empty, "type"@, jstr("object"@), key);
    let t = type_schema("object"@);
    law_member_after_put(t, "properties"@, Json::Object(properties), key);
    let tp = put_member(t, "properties"@, Json::Object(properties));
    law_member_after_put(tp, "required"@, str_array(required), key);
}

/// A name that is not a built-in scalar (nor `PageInput`) is a
/// declaration, and every use of it is a `$ref` to its `$defs` entry,
/// never an inlined copy.
pub proof fn law_declarations_are_referenced(
    schema: Schema,
    decimal: Option<DecimalBackend>,
    defs: Seq<(Seq<char>, Json)>,
    ty: TypeRef,
)
    requires
        spec_builtin_scalar(ty.name@, decimal) is None,
        !ty.spec_is_page_input(),
    ensures
        gen_element(schema, decimal, defs, ty).result matches Ok(j) ==> j == ref_json(ty.name@),
{
}

/// `Page<T>` and `FindMany<T>` ignore their arity: their schema is the
/// same whether they are written required, optional or as a list.
pub proof fn law_page_and_find_many_ignore_arity(
    schema: Schema,
    decimal: Option<DecimalBackend>,
    defs: Seq<(Seq<char>, Json)>,
    ty: TypeRef,
    arity: TypeArity,
)
    requires
        ty.spec_is_page() || ty.spec_is_find_many(),
    ensures
        gen_type_ref(
            schema,
            decimal,
            defs,
            TypeRef { name: ty.name, arity, generic_args: ty.generic_args },
        ) == gen_type_ref(schema, decimal, defs, ty),
{
    let other = TypeRef { name: ty.name, arity, generic_args: ty.generic_args };
    assert(type_depth(other) == type_depth(ty));
}

proof fn lemma_args_fill_placeholders(
    schema: Schema,
    decimal: Option<DecimalBackend>,
    defs: Seq<(Seq<char>, Json)>,
    procedure: Procedure,
    i: int,
    properties: Seq<(Seq<char>, Json)>,
    required: Seq<Seq<char>>,
)
    ensures
        gen_args(schema, decimal, defs, procedure, i, properties, required) matches Ok((p, r, d))
            ==> placeholders_within(defs, d),
    decreases procedure.args@.len() - i,
{
    if 0 <= i < procedure.args@.len() {
        let arg = procedure.args@[i];
        law_success_fills_placeholders(schema, decimal, defs, arg.ty);
        let s = gen_type_ref(schema, decimal, defs, arg.ty);
        if let Ok(p) = s.result {
            lemma_args_fill_placeholders(
                schema,
                decimal,
                s.defs,
                procedure,
                i + 1,
                crate::json::obj_insert(properties, arg.name@, super::parts::with_docs_json(p, arg.docs@)),
                if spec_is_required(arg.ty) {
                    required.push(arg.name@)
                } else {
                    required
                },
            );
        }
    }
}

/// A schema that was produced has every `$defs` entry filled: the
/// placeholder that lets a self-referencing declaration find itself never
/// reaches the output, for the input schema and for the output schema.
pub proof fn law_finished_definitions_are_filled(
    schema: Schema,
    procedure: Procedure,
    decimal: Option<DecimalBackend>,
)
    ensures
        gen_args(schema, decimal, Seq::empty(), procedure, 0, Seq::empty(), Seq::empty()) matches Ok(
            (p, r, d),
        ) ==> forall|k: Seq<char>| !(#[trigger] is_placeholder(d, k)),
        gen_type_ref(schema, decimal, Seq::empty(), procedure.return_type).result is Ok ==> forall|
            k: Seq<char>,
        | !(#[trigger] is_placeholder(gen_type_ref(schema, decimal, Seq::empty(), procedure.return_type).defs, k)),
{
    lemma_args_fill_placeholders(schema, decimal, Seq::empty(), procedure, 0, Seq::empty(), Seq::empty());
    law_success_fills_placeholders(schema, decimal, Seq::empty(), procedure.return_type);
    assert forall|k: Seq<char>| !(#[trigger] is_placeholder(Seq::<(Seq<char>, Json)>::empty(), k)) by {}
}

/// Context is prepended on the way out: after two steps the outer one is
/// first, and what was there before follows.
pub proof fn law_within_orders_outermost_first(e: SchemaError, inner: Seq<char>, outer: Seq<char>)
    ensures
        error_at(within(within(e, inner), outer)) == seq![outer, inner] + error_at(e),
{
    assert(seq![outer] + (seq![inner] + error_at(e)) =~= seq![outer, inner] + error_at(e));
}

} // verus!
