//! `.cstack` IR → JSON Schema 2020-12 for a procedure's arguments (input)
//! and object return type (output).
//!
//! The schema follows serde, never the reverse: each mapping describes
//! what `serde_json` does with the Rust types that codegen emits, and a
//! type whose serde shape no JSON Schema describes faithfully is refused
//! with an error that names it and where it was reached.

pub mod error;
pub mod generator;
pub mod parts;
pub mod scalar;

use vstd::prelude::*;

use crate::ir::{DecimalBackend, Procedure, ProcedureArg, Schema, TypeArity, model_names, type_names};
use crate::json::{Json, JsonValue, json_entries, jstr, obj_insert, put, put_member};
use crate::text::{concat3, owned};

use error::{JsonSchemaError, SchemaError, within};
use generator::{Generator, finish_json, gen_type_ref};
use parts::{is_required, object_schema, object_schema_json, spec_is_required, with_docs, with_docs_json};

verus! {

/// `argument `<name>``.
pub open spec fn argument_step(name: Seq<char>) -> Seq<char> {
    "argument `"@ + name + "`"@
}

/// `procedure `<name>``.
pub open spec fn procedure_step(name: Seq<char>) -> Seq<char> {
    "procedure `"@ + name + "`"@
}

/// What the arguments from `i` on add to the properties, required names
/// and `$defs` collected from those before them, or the first failure.
pub open spec fn gen_args(
    schema: Schema,
    decimal: Option<DecimalBackend>,
    defs: Seq<(Seq<char>, Json)>,
    procedure: Procedure,
    i: int,
    properties: Seq<(Seq<char>, Json)>,
    required: Seq<Seq<char>>,
) -> Result<(Seq<(Seq<char>, Json)>, Seq<Seq<char>>, Seq<(Seq<char>, Json)>), SchemaError>
    decreases procedure.args@.len() - i,
{
    if i < 0 || i >= procedure.args@.len() {
        Ok((properties, required, defs))
    } else {
        let arg = procedure.args@[i];
        let s = gen_type_ref(schema, decimal, defs, arg.ty);
        match s.result {
            Err(e) => Err(within(within(e, argument_step(arg.name@)), procedure_step(procedure.name@))),
            Ok(p) => gen_args(
                schema,
                decimal,
                s.defs,
                procedure,
                i + 1,
                obj_insert(properties, arg.name@, with_docs_json(p, arg.docs@)),
                if spec_is_required(arg.ty) {
                    required.push(arg.name@)
                } else {
                    required
                },
            ),
        }
    }
}

/// The schema of a procedure's arguments: an object with one property per
/// argument, under the argument's own name, required unless optional.
pub open spec fn spec_procedure_input_schema(
    schema: Schema,
    procedure: Procedure,
    decimal: Option<DecimalBackend>,
) -> Result<Json, SchemaError> {
    match gen_args(schema, decimal, Seq::empty(), procedure, 0, Seq::empty(), Seq::empty()) {
        Ok((properties, required, defs)) => Ok(
            finish_json(object_schema_json(properties, required), defs),
        ),
        Err(e) => Err(e),
    }
}

/// The return type is a JSON object: a `Page<T>`, or a required `type` or
/// `model` of the schema.
pub open spec fn output_is_object(schema: Schema, procedure: Procedure) -> bool {
    let ty = procedure.return_type;
    ty.spec_is_page() || ((type_names(schema.types@).contains(ty.name@) || model_names(
        schema.models@,
    ).contains(ty.name@)) && ty.arity == TypeArity::Required)
}

/// The schema of a procedure's output when that is a JSON object, with
/// `type: object` stated at the root; `None` for any other return type.
pub open spec fn spec_procedure_output_schema(
    schema: Schema,
    procedure: Procedure,
    decimal: Option<DecimalBackend>,
) -> Result<Option<Json>, SchemaError> {
    if !output_is_object(schema, procedure) {
        Ok(None)
    } else {
        let s = gen_type_ref(schema, decimal, Seq::empty(), procedure.return_type);
        match s.result {
            Err(e) => Err(within(within(e, "return type"@), procedure_step(procedure.name@))),
            Ok(root) => Ok(Some(finish_json(put_member(root, "type"@, jstr("object"@)), s.defs))),
        }
    }
}

/// The schema of `<procedure>::Args`: one property per argument, under the
/// argument's own name.
///
/// `decimal` is the invocation's `decimal = ...` argument.
pub fn procedure_input_schema(
    schema: &Schema,
    procedure: &Procedure,
    decimal: Option<DecimalBackend>,
) -> (r: Result<JsonValue, JsonSchemaError>)
    ensures
        match r {
            Ok(v) => spec_procedure_input_schema(*schema, *procedure, decimal) == Ok::<
                Json,
                SchemaError,
            >(v.json()),
            Err(e) => spec_procedure_input_schema(*schema, *procedure, decimal) == Err::<
                Json,
                SchemaError,
            >(e@),
        },
{
    let mut generator = Generator::new(schema, decimal);
    let mut properties: Vec<(String, JsonValue)> = Vec::new();
    let mut required: Vec<String> = Vec::new();
    proof {
        crate::json::lemma_json_entries(properties@);
        assert(json_entries(properties@) =~= Seq::<(Seq<char>, Json)>::empty());
        assert(required@.map_values(|s: String| s@) =~= Seq::<Seq<char>>::empty());
    }
    let ghost whole = gen_args(*schema, decimal, Seq::empty(), *procedure, 0, Seq::empty(), Seq::empty());
    let n = procedure.args.len();
    let mut i: usize = 0;
    while i < n
        invariant
            n == procedure.args@.len(),
            i <= n,
            generator.schema == schema,
            generator.decimal == decimal,
            whole == gen_args(*schema, decimal, Seq::empty(), *procedure, 0, Seq::empty(), Seq::empty()),
            whole == gen_args(
                *schema,
                decimal,
                generator.defs_json(),
                *procedure,
                i as int,
                json_entries(properties@),
                required@.map_values(|s: String| s@),
            ),
        decreases n - i,
    {
        let arg: &ProcedureArg = &procedure.args[i];
        let ghost req_before = required@.map_values(|s: String| s@);
        let ghost defs_before = generator.defs_json();
        assert(procedure.args@[i as int] == *arg);
        let property = match generator.type_ref(&arg.ty) {
            Ok(p) => p,
            Err(e) => {
                let e = e.within(concat3("argument `", arg.name.as_str(), "`"));
                let e = e.within(concat3("procedure `", procedure.name.as_str(), "`"));
                return Err(e);
            },
        };
        crate::json::object_insert(&mut properties, arg.name.clone(), with_docs(property, &arg.docs));
        if is_required(&arg.ty) {
            required.push(arg.name.clone());
            assert(required@.map_values(|s: String| s@) =~= req_before.push(arg.name@));
        }
        i = i + 1;
    }
    let root = object_schema(properties, &required);
    Ok(generator.finish(root))
}

/// The schema of `<procedure>::Output` when that is a JSON object (a
/// required `type`, `model` or `Page<T>`); `Ok(None)` for any other return
/// type, since an output schema must have an object root.
pub fn procedure_output_schema(
    schema: &Schema,
    procedure: &Procedure,
    decimal: Option<DecimalBackend>,
) -> (r: Result<Option<JsonValue>, JsonSchemaError>)
    ensures
        match r {
            Ok(Some(v)) => spec_procedure_output_schema(*schema, *procedure, decimal) == Ok::<
                Option<Json>,
                SchemaError,
            >(Some(v.json())),
            Ok(None) => spec_procedure_output_schema(*schema, *procedure, decimal) == Ok::<
                Option<Json>,
                SchemaError,
            >(None),
            Err(e) => spec_procedure_output_schema(*schema, *procedure, decimal) == Err::<
                Option<Json>,
                SchemaError,
            >(e@),
        },
{
    let ty = &procedure.return_type;
    let declared_type = crate::ir::find_type(&schema.types, ty.name.as_str()).is_some();
    let declared_model = crate::ir::find_model(&schema.models, ty.name.as_str()).is_some();
    proof {
        crate::ir::lemma_first_index(type_names(schema.types@), ty.name@);
        crate::ir::lemma_first_index(model_names(schema.models@), ty.name@);
    }
    let is_declared_object = declared_type || declared_model;
    if !(ty.is_page() || (is_declared_object && ty.arity == TypeArity::Required)) {
        return Ok(None);
    }
    let mut generator = Generator::new(schema, decimal);
    let root = match generator.type_ref(ty) {
        Ok(root) => root,
        Err(e) => {
            let e = e.within(owned("return type"));
            return Err(e.within(concat3("procedure `", procedure.name.as_str(), "`")));
        },
    };
    let root = put(root, "type", JsonValue::text("object"));
    Ok(Some(generator.finish(root)))
}

} // verus!
pub mod laws;
