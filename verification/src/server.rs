//! The shape of the generated server module: what the runtime handle and
//! the axum module offer under each `db = ...`, and which declarations the
//! schema walk lists, in which order, for the op descriptors, the route
//! transports and the RPC dispatch arms.

use vstd::prelude::*;

use crate::ir::{
    EnumDecl, Mixin, Model, Procedure, Schema, TransportStyle, TypeDecl, enum_names, model_names,
    names_of, type_names,
};
use crate::query_guard::ServerDb;
use crate::text::owned;

verus! {

/// What the generated `Cratestack` runtime handle is and offers.
#[derive(Debug)]
pub struct RuntimePlan {
    /// `Cratestack::builder` takes a `PgPool`.
    pub builder_takes_pool: bool,
    /// `Cratestack` holds the sqlx runtime and hands out its pool.
    pub uses_sqlx: bool,
    /// `Cratestack` is a zero-field marker type.
    pub zero_field_marker: bool,
    /// `events()` and `views()` are offered, and the `views` module holds
    /// the view accessors.
    pub event_and_view_accessors: bool,
    /// `transaction` and `dispatch_audit_sink` are offered.
    pub transactions: bool,
    /// `queries()` is offered.
    pub queries_accessor: bool,
    /// The model accessors spliced into `Cratestack`, by index, in order.
    pub model_accessors: Vec<usize>,
    /// The bound-model accessors spliced into `BoundCratestack`, in order.
    pub bound_model_accessors: Vec<usize>,
    /// The view accessors spliced into `Views`, in order.
    pub view_accessors: Vec<usize>,
}

/// `0, 1, .., n - 1`.
pub open spec fn indices(n: nat) -> Seq<usize> {
    Seq::new(n, |k: int| k as usize)
}

/// `0, 1, .., n - 1` as a vector.
pub fn index_list(n: usize) -> (r: Vec<usize>)
    ensures
        r@ == indices(n as nat),
{
    let mut out: Vec<usize> = Vec::new();
    let mut i: usize = 0;
    while i < n
        invariant
            i <= n,
            out@ =~= indices(n as nat).take(i as int),
        decreases n - i,
    {
        out.push(i);
        i = i + 1;
    }
    out
}

/// The runtime handle under `db`, given how many model, bound-model, view
/// and query accessors the schema yields. Under `db = Postgres` it is the
/// sqlx-backed delegate hub: every model, bound-model and view accessor is
/// spliced in, in order, `events()` and `views()` always exist, and
/// `queries()` exists exactly when there is a query accessor. Under
/// `db = None` it is a zero-field marker with nothing database-shaped on
/// it and no accessor at all.
pub fn runtime_plan(
    db: ServerDb,
    model_accessors: usize,
    bound_model_accessors: usize,
    view_accessors: usize,
    query_accessors: usize,
) -> (p: RuntimePlan)
    ensures
        p.builder_takes_pool == (db == ServerDb::Postgres),
        p.uses_sqlx == (db == ServerDb::Postgres),
        p.zero_field_marker == (db == ServerDb::NoDatabase),
        p.event_and_view_accessors == (db == ServerDb::Postgres),
        p.transactions == (db == ServerDb::Postgres),
        p.queries_accessor == (db == ServerDb::Postgres && query_accessors > 0),
        p.model_accessors@ == (if db == ServerDb::Postgres {
            indices(model_accessors as nat)
        } else {
            Seq::empty()
        }),
        p.bound_model_accessors@ == (if db == ServerDb::Postgres {
            indices(bound_model_accessors as nat)
        } else {
            Seq::empty()
        }),
        p.view_accessors@ == (if db == ServerDb::Postgres {
            indices(view_accessors as nat)
        } else {
            Seq::empty()
        }),
{
    match db {
        ServerDb::Postgres => RuntimePlan {
            builder_takes_pool: true,
            uses_sqlx: true,
            zero_field_marker: false,
            event_and_view_accessors: true,
            transactions: true,
            queries_accessor: query_accessors > 0,
            model_accessors: index_list(model_accessors),
            bound_model_accessors: index_list(bound_model_accessors),
            view_accessors: index_list(view_accessors),
        },
        ServerDb::NoDatabase => RuntimePlan {
            builder_takes_pool: false,
            uses_sqlx: false,
            zero_field_marker: true,
            event_and_view_accessors: false,
            transactions: false,
            queries_accessor: false,
            model_accessors: Vec::new(),
            bound_model_accessors: Vec::new(),
            view_accessors: Vec::new(),
        },
    }
}

/// What the generated `axum` module holds.
#[derive(Debug)]
pub struct AxumPlan {
    /// `ModelRouterState` is declared.
    pub model_router_state: bool,
    /// `model_router` is declared.
    pub model_router_fn: bool,
    /// `router` is `procedure_router` with the body limit; otherwise it
    /// merges `procedure_router` into `model_router`.
    pub router_fn_aliases_procedure_router: bool,
    /// The fields of `ProcedureRouterState`, in order; `procedure_router`
    /// takes its arguments in the same order, and `router` passes its own
    /// arguments of these names on to it.
    pub procedure_state_fields: Vec<String>,
    /// The fields of `ModelRouterState`, and the arguments of
    /// `model_router`, in order (none without a model router).
    pub model_state_fields: Vec<String>,
    /// The RPC sub-module is emitted.
    pub rpc_module: bool,
}

/// The fields of `ProcedureRouterState`, the same under every `db`.
pub open spec fn procedure_state_fields() -> Seq<Seq<char>> {
    seq!["db"@, "registry"@, "resolvers"@, "codec"@, "auth_provider"@]
}

/// The fields of `ModelRouterState`.
pub open spec fn model_state_fields() -> Seq<Seq<char>> {
    seq!["db"@, "resolvers"@, "codec"@, "auth_provider"@]
}

/// The axum module of a schema served under `db`, over RPC or not: the
/// model router exists only where a database does (a `db = None` schema
/// declares no model), and the RPC module only for `transport rpc`.
pub fn axum_plan(db: ServerDb, is_rpc: bool) -> (p: AxumPlan)
    ensures
        p.model_router_state == (db != ServerDb::NoDatabase),
        p.model_router_fn == (db != ServerDb::NoDatabase),
        p.router_fn_aliases_procedure_router == (db == ServerDb::NoDatabase),
        names_of(p.procedure_state_fields@) == procedure_state_fields(),
        names_of(p.model_state_fields@) == (if db == ServerDb::Postgres {
            model_state_fields()
        } else {
            Seq::empty()
        }),
        p.rpc_module == is_rpc,
{
    let with_db = match db {
        ServerDb::Postgres => true,
        ServerDb::NoDatabase => false,
    };
    let mut fields: Vec<String> = Vec::new();
    fields.push(owned("db"));
    fields.push(owned("registry"));
    fields.push(owned("resolvers"));
    fields.push(owned("codec"));
    fields.push(owned("auth_provider"));
    assert(names_of(fields@) =~= procedure_state_fields());
    let mut model_fields: Vec<String> = Vec::new();
    if with_db {
        model_fields.push(owned("db"));
        model_fields.push(owned("resolvers"));
        model_fields.push(owned("codec"));
        model_fields.push(owned("auth_provider"));
        assert(names_of(model_fields@) =~= model_state_fields());
    } else {
        assert(names_of(model_fields@) =~= Seq::empty());
    }
    AxumPlan {
        model_router_state: with_db,
        model_router_fn: with_db,
        router_fn_aliases_procedure_router: !with_db,
        procedure_state_fields: fields,
        model_state_fields: model_fields,
        rpc_module: is_rpc,
    }
}

/// Whether a declaration is a procedure or a model.
#[derive(Debug, Clone, Copy, PartialEq, Eq, Structural)]
pub enum DeclKind {
    Procedure,
    Model,
}

/// A declaration of the schema: its kind and its index among the
/// declarations of that kind.
#[derive(Debug, Clone, Copy, PartialEq, Eq, Structural)]
pub struct DeclRef {
    pub kind: DeclKind,
    pub index: usize,
}

/// Every procedure in order, then every model in order.
pub open spec fn decl_order(procedures: nat, models: nat) -> Seq<DeclRef> {
    Seq::new(
        procedures + models,
        |k: int|
            if k < procedures {
                DeclRef { kind: DeclKind::Procedure, index: k as usize }
            } else {
                DeclRef { kind: DeclKind::Model, index: (k - procedures) as usize }
            },
    )
}

/// What the schema walk of the server composer decides.
#[derive(Debug)]
pub struct ServerPlan {
    pub transport: TransportStyle,
    /// The schema is served over `transport rpc`.
    pub is_rpc: bool,
    /// Operations require authentication unless they say otherwise: the
    /// schema has an `auth` block.
    pub auth_required_default: bool,
    pub mixin_names: Vec<String>,
    pub model_names: Vec<String>,
    pub type_names: Vec<String>,
    pub enum_names: Vec<String>,
    pub procedure_names: Vec<String>,
    /// The declarations whose op descriptors fill `OPS`.
    pub op_sources: Vec<DeclRef>,
    /// The declarations whose transport entries fill `ROUTE_TRANSPORTS`.
    pub route_sources: Vec<DeclRef>,
    /// The declarations that get an RPC dispatch arm.
    pub rpc_dispatch_sources: Vec<DeclRef>,
}

/// The names of `mixins`, in order.
pub open spec fn mixin_names(mixins: Seq<Mixin>) -> Seq<Seq<char>> {
    mixins.map_values(|m: Mixin| m.name@)
}

/// The names of `procedures`, in order.
pub open spec fn procedure_names(procedures: Seq<Procedure>) -> Seq<Seq<char>> {
    procedures.map_values(|p: Procedure| p.name@)
}

fn list_mixin_names(mixins: &Vec<Mixin>) -> (r: Vec<String>)
    ensures
        names_of(r@) == mixin_names(mixins@),
{
    let mut out: Vec<String> = Vec::new();
    let n = mixins.len();
    let mut i: usize = 0;
    while i < n
        invariant
            n == mixins@.len(),
            i <= n,
            out@.len() == i,
            forall|j: int| 0 <= j < i ==> #[trigger] out@[j]@ == mixins@[j].name@,
        decreases n - i,
    {
        out.push(mixins[i].name.clone());
        i = i + 1;
    }
    assert(names_of(out@) =~= mixin_names(mixins@));
    out
}

pub(crate) fn list_model_names(models: &Vec<Model>) -> (r: Vec<String>)
    ensures
        names_of(r@) == model_names(models@),
{
    let mut out: Vec<String> = Vec::new();
    let n = models.len();
    let mut i: usize = 0;
    while i < n
        invariant
            n == models@.len(),
            i <= n,
            out@.len() == i,
            forall|j: int| 0 <= j < i ==> #[trigger] out@[j]@ == models@[j].name@,
        decreases n - i,
    {
        out.push(models[i].name.clone());
        i = i + 1;
    }
    assert(names_of(out@) =~= model_names(models@));
    out
}

fn list_type_names(types: &Vec<TypeDecl>) -> (r: Vec<String>)
    ensures
        names_of(r@) == type_names(types@),
{
    let mut out: Vec<String> = Vec::new();
    let n = types.len();
    let mut i: usize = 0;
    while i < n
        invariant
            n == types@.len(),
            i <= n,
            out@.len() == i,
            forall|j: int| 0 <= j < i ==> #[trigger] out@[j]@ == types@[j].name@,
        decreases n - i,
    {
        out.push(types[i].name.clone());
        i = i + 1;
    }
    assert(names_of(out@) =~= type_names(types@));
    out
}

fn list_enum_names(enums: &Vec<EnumDecl>) -> (r: Vec<String>)
    ensures
        names_of(r@) == enum_names(enums@),
{
    let mut out: Vec<String> = Vec::new();
    let n = enums.len();
    let mut i: usize = 0;
    while i < n
        invariant
            n == enums@.len(),
            i <= n,
            out@.len() == i,
            forall|j: int| 0 <= j < i ==> #[trigger] out@[j]@ == enums@[j].name@,
        decreases n - i,
    {
        out.push(enums[i].name.clone());
        i = i + 1;
    }
    assert(names_of(out@) =~= enum_names(enums@));
    out
}

fn list_procedure_names(procedures: &Vec<Procedure>) -> (r: Vec<String>)
    ensures
        names_of(r@) == procedure_names(procedures@),
{
    let mut out: Vec<String> = Vec::new();
    let n = procedures.len();
    let mut i: usize = 0;
    while i < n
        invariant
            n == procedures@.len(),
            i <= n,
            out@.len() == i,
            forall|j: int| 0 <= j < i ==> #[trigger] out@[j]@ == procedures@[j].name@,
        decreases n - i,
    {
        out.push(procedures[i].name.clone());
        i = i + 1;
    }
    assert(names_of(out@) =~= procedure_names(procedures@));
    out
}

/// Every procedure, then every model.
fn all_decls(procedures: usize, models: usize) -> (r: Vec<DeclRef>)
    ensures
        r@ == decl_order(procedures as nat, models as nat),
{
    let mut out: Vec<DeclRef> = Vec::new();
    let mut i: usize = 0;
    while i < procedures
        invariant
            i <= procedures,
            out@ =~= decl_order(procedures as nat, models as nat).take(i as int),
        decreases procedures - i,
    {
        out.push(DeclRef { kind: DeclKind::Procedure, index: i });
        i = i + 1;
    }
    let mut j: usize = 0;
    while j < models
        invariant
            j <= models,
            out@ =~= decl_order(procedures as nat, models as nat).take(procedures + j),
        decreases models - j,
    {
        out.push(DeclRef { kind: DeclKind::Model, index: j });
        j = j + 1;
    }
    out
}

/// The declarations whose op descriptors fill `OPS`: all of them, in
/// order, under `transport rpc`; none otherwise.
pub open spec fn spec_op_sources(schema: Schema) -> Seq<DeclRef> {
    if schema.transport == TransportStyle::Rpc {
        decl_order(schema.procedures@.len(), schema.models@.len())
    } else {
        Seq::empty()
    }
}

/// The declarations whose transport entries fill `ROUTE_TRANSPORTS`: all
/// of them, in order, unless the schema is served over `transport rpc`.
pub open spec fn spec_route_sources(schema: Schema) -> Seq<DeclRef> {
    if schema.transport == TransportStyle::Rpc {
        Seq::empty()
    } else {
        decl_order(schema.procedures@.len(), schema.models@.len())
    }
}

/// `OPS` and `ROUTE_TRANSPORTS` are never both non-empty for a schema, and
/// between them they list every procedure and every model.
pub proof fn law_ops_and_routes_exclusive(schema: Schema)
    ensures
        spec_op_sources(schema).len() == 0 || spec_route_sources(schema).len() == 0,
        spec_op_sources(schema) + spec_route_sources(schema) == decl_order(
            schema.procedures@.len(),
            schema.models@.len(),
        ),
{
    let all = decl_order(schema.procedures@.len(), schema.models@.len());
    assert(all + Seq::<DeclRef>::empty() =~= all);
    assert(Seq::<DeclRef>::empty() + all =~= all);
}

/// The schema walk of the server composer: the declared names in order;
/// under `transport rpc` every procedure and then every model gives op
/// descriptors and dispatch arms and nothing fills the route transports;
/// under any other transport the same order fills the route transports
/// and there are no op descriptors and no dispatch arms.
pub fn collect_server_plan(schema: &Schema) -> (p: ServerPlan)
    ensures
        p.transport == schema.transport,
        p.is_rpc == (schema.transport == TransportStyle::Rpc),
        p.auth_required_default == schema.auth.is_some(),
        names_of(p.mixin_names@) == mixin_names(schema.mixins@),
        names_of(p.model_names@) == model_names(schema.models@),
        names_of(p.type_names@) == type_names(schema.types@),
        names_of(p.enum_names@) == enum_names(schema.enums@),
        names_of(p.procedure_names@) == procedure_names(schema.procedures@),
        p.op_sources@ == spec_op_sources(*schema),
        p.route_sources@ == spec_route_sources(*schema),
        p.rpc_dispatch_sources@ == p.op_sources@,
{
    let is_rpc = schema.transport == TransportStyle::Rpc;
    let (op_sources, route_sources, rpc_dispatch_sources) = if is_rpc {
        (
            all_decls(schema.procedures.len(), schema.models.len()),
            Vec::new(),
            all_decls(schema.procedures.len(), schema.models.len()),
        )
    } else {
        (Vec::new(), all_decls(schema.procedures.len(), schema.models.len()), Vec::new())
    };
    ServerPlan {
        transport: schema.transport,
        is_rpc,
        auth_required_default: schema.auth.is_some(),
        mixin_names: list_mixin_names(&schema.mixins),
        model_names: list_model_names(&schema.models),
        type_names: list_type_names(&schema.types),
        enum_names: list_enum_names(&schema.enums),
        procedure_names: list_procedure_names(&schema.procedures),
        op_sources,
        route_sources,
        rpc_dispatch_sources,
    }
}

} // verus!
