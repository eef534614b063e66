use cratestack_macros::descriptor::{plan_model_descriptor, PolicyAction};
use cratestack_macros::ir::{
    Attribute, AuthBlock, Field, Mixin, Model, Procedure, Schema, TransportStyle, TypeArity, TypeRef,
};
use cratestack_macros::model::{
    plan_row_decoder, row_decode_kind, CreateDefaultType, RowBackend, RowDecode, RowField,
};
use cratestack_macros::naming::{descriptor_name, pluralize, table_name, to_snake_case, to_upper};
use cratestack_macros::query_guard::ServerDb;
use cratestack_macros::selection::{plan_selection_module, MissingFieldFallback};
use cratestack_macros::server::{axum_plan, collect_server_plan, runtime_plan, DeclKind, DeclRef};
use cratestack_macros::text::{is_whitespace, parse_u32_text, trim};

fn ty(name: &str, arity: TypeArity) -> TypeRef {
    TypeRef { name: name.to_owned(), arity, generic_args: Vec::new() }
}

fn field(name: &str, ty_name: &str, arity: TypeArity, attributes: &[&str]) -> Field {
    Field {
        name: name.to_owned(),
        docs: Vec::new(),
        ty: ty(ty_name, arity),
        attributes: attributes.iter().map(|raw| Attribute { raw: (*raw).to_owned() }).collect(),
    }
}

fn model(name: &str, fields: Vec<Field>, attributes: &[&str]) -> Model {
    Model {
        name: name.to_owned(),
        docs: Vec::new(),
        fields,
        attributes: attributes.iter().map(|raw| Attribute { raw: (*raw).to_owned() }).collect(),
    }
}

fn names(list: &[&str]) -> Vec<String> {
    list.iter().map(|s| (*s).to_owned()).collect()
}

fn schema(transport: TransportStyle, auth: Option<AuthBlock>) -> Schema {
    Schema {
        mixins: vec![Mixin { name: "Timestamps".to_owned() }],
        models: vec![
            model("Author", vec![field("id", "Int", TypeArity::Required, &["@id"])], &[]),
            model("BlogPost", vec![field("id", "Int", TypeArity::Required, &["@id"])], &[]),
        ],
        types: Vec::new(),
        enums: Vec::new(),
        procedures: vec![Procedure {
            name: "publish".to_owned(),
            args: Vec::new(),
            return_type: ty("Boolean", TypeArity::Required),
        }],
        queries: Vec::new(),
        transport,
        auth,
    }
}

#[test]
fn postgres_runtime_block_still_takes_a_pgpool_builder() {
    let plan = runtime_plan(ServerDb::Postgres, 0, 0, 0, 0);
    assert!(plan.builder_takes_pool);
    assert!(plan.uses_sqlx);
    assert!(!plan.zero_field_marker);
}

#[test]
fn none_runtime_block_builder_takes_no_pool_parameter() {
    assert!(!runtime_plan(ServerDb::NoDatabase, 0, 0, 0, 0).builder_takes_pool);
}

#[test]
fn none_runtime_block_never_mentions_pgpool_or_sqlx() {
    let plan = runtime_plan(ServerDb::NoDatabase, 0, 0, 0, 0);
    assert!(!plan.builder_takes_pool);
    assert!(!plan.uses_sqlx);
    assert!(!plan.transactions);
}

#[test]
fn none_runtime_block_cratestack_type_is_a_zero_field_marker() {
    let plan = runtime_plan(ServerDb::NoDatabase, 0, 0, 0, 0);
    assert!(plan.zero_field_marker);
    assert!(!plan.event_and_view_accessors);
    assert!(plan.model_accessors.is_empty() && !plan.queries_accessor);
}

#[test]
fn postgres_axum_module_keeps_model_router_state_and_fn() {
    let plan = axum_plan(ServerDb::Postgres, false);
    assert!(plan.model_router_state);
    assert!(plan.model_router_fn);
    assert!(!plan.router_fn_aliases_procedure_router);
}

#[test]
fn none_axum_module_never_emits_model_router_state_or_fn() {
    let plan = axum_plan(ServerDb::NoDatabase, false);
    assert!(!plan.model_router_state);
    assert!(!plan.model_router_fn);
}

#[test]
fn none_axum_module_router_fn_aliases_procedure_router_directly() {
    let plan = axum_plan(ServerDb::NoDatabase, false);
    assert!(plan.router_fn_aliases_procedure_router);
    assert_eq!(plan.procedure_state_fields, names(&["db", "registry", "resolvers", "codec", "auth_provider"]));
    assert!(!plan.model_router_fn);
}

#[test]
fn both_variants_keep_the_same_procedure_router_state_field() {
    let expected = names(&["db", "registry", "resolvers", "codec", "auth_provider"]);
    assert_eq!(axum_plan(ServerDb::Postgres, false).procedure_state_fields, expected);
    assert_eq!(axum_plan(ServerDb::NoDatabase, false).procedure_state_fields, expected);
}

#[test]
fn model_router_state_and_rpc_module_follow_db_and_transport() {
    let pg = axum_plan(ServerDb::Postgres, true);
    assert_eq!(pg.model_state_fields, names(&["db", "resolvers", "codec", "auth_provider"]));
    assert!(pg.rpc_module);
    let none = axum_plan(ServerDb::NoDatabase, false);
    assert!(none.model_state_fields.is_empty());
    assert!(!none.rpc_module);
}

#[test]
fn postgres_runtime_splices_accessors_and_queries_only_when_declared() {
    let plan = runtime_plan(ServerDb::Postgres, 2, 2, 1, 0);
    assert_eq!(plan.model_accessors, vec![0, 1]);
    assert_eq!(plan.bound_model_accessors, vec![0, 1]);
    assert_eq!(plan.view_accessors, vec![0]);
    assert!(plan.event_and_view_accessors);
    assert!(!plan.queries_accessor);
    assert!(runtime_plan(ServerDb::Postgres, 0, 0, 0, 3).queries_accessor);
    let none = runtime_plan(ServerDb::NoDatabase, 0, 0, 0, 3);
    assert!(!none.queries_accessor);
    assert!(none.model_accessors.is_empty());
}

#[test]
fn rpc_schemas_fill_ops_and_rest_schemas_fill_routes() {
    let rpc = collect_server_plan(&schema(TransportStyle::Rpc, None));
    let order = vec![
        DeclRef { kind: DeclKind::Procedure, index: 0 },
        DeclRef { kind: DeclKind::Model, index: 0 },
        DeclRef { kind: DeclKind::Model, index: 1 },
    ];
    assert!(rpc.is_rpc);
    assert!(!rpc.auth_required_default);
    assert_eq!(rpc.op_sources, order);
    assert_eq!(rpc.rpc_dispatch_sources, order);
    assert!(rpc.route_sources.is_empty());
    let rest = collect_server_plan(&schema(TransportStyle::Rest, Some(AuthBlock { fields: Vec::new() })));
    assert!(!rest.is_rpc);
    assert!(rest.auth_required_default);
    assert!(rest.op_sources.is_empty() && rest.rpc_dispatch_sources.is_empty());
    assert_eq!(rest.route_sources, order);
    assert_eq!(rest.mixin_names, names(&["Timestamps"]));
    assert_eq!(rest.model_names, names(&["Author", "BlogPost"]));
    assert_eq!(rest.procedure_names, names(&["publish"]));
    assert!(rest.type_names.is_empty() && rest.enum_names.is_empty());
}

#[test]
fn postgres_rows_parse_enums_and_read_the_rest_as_is() {
    let enums = names(&["Status"]);
    let status = field("status", "Status", TypeArity::Optional, &[]);
    let tags = field("tags", "Status", TypeArity::List, &[]);
    let flag = field("active", "Boolean", TypeArity::Required, &[]);
    assert_eq!(
        row_decode_kind(&status, &enums, RowBackend::Postgres),
        RowField { decode: RowDecode::EnumText, arity: TypeArity::Optional }
    );
    for arity in [TypeArity::Required, TypeArity::Optional, TypeArity::List] {
        let json = field("payload", "Json", arity, &[]);
        assert_eq!(
            row_decode_kind(&json, &enums, RowBackend::Postgres),
            RowField { decode: RowDecode::JsonViaDbJson, arity }
        );
    }
    assert_eq!(row_decode_kind(&tags, &enums, RowBackend::Postgres).decode, RowDecode::EnumTextArray);
    assert_eq!(row_decode_kind(&flag, &enums, RowBackend::Postgres).decode, RowDecode::Plain);
}

#[test]
fn sqlite_rows_go_through_column_wrappers() {
    let enums = names(&["Status"]);
    let cases = [
        ("Status", TypeArity::List, RowDecode::EnumJsonArray),
        ("Status", TypeArity::Required, RowDecode::EnumText),
        ("Boolean", TypeArity::Optional, RowDecode::BoolFromI64),
        ("Uuid", TypeArity::Required, RowDecode::UuidColumn),
        ("DateTime", TypeArity::Optional, RowDecode::DateTimeColumn),
        ("Decimal", TypeArity::Required, RowDecode::DecimalColumn),
        ("Json", TypeArity::Optional, RowDecode::JsonText),
        ("Json", TypeArity::List, RowDecode::Plain),
        ("String", TypeArity::Required, RowDecode::Plain),
    ];
    for (name, arity, expected) in cases {
        let f = field("x", name, arity, &[]);
        let got = row_decode_kind(&f, &enums, RowBackend::Sqlite);
        assert_eq!(got.decode, expected, "{name}");
        assert_eq!(got.arity, arity);
    }
}

#[test]
fn selection_lists_scalars_and_includes() {
    let post = model(
        "BlogPost",
        vec![
            field("id", "Int", TypeArity::Required, &["@id"]),
            field("subtitle", "String", TypeArity::Optional, &[]),
            field("author", "Author", TypeArity::Required, &[]),
            field("tags", "String", TypeArity::List, &[]),
            field("comments", "PostComment", TypeArity::List, &[]),
        ],
        &[],
    );
    let plan = plan_selection_module(&post, &names(&["Author", "BlogPost", "PostComment"])).unwrap();
    let scalars: Vec<(&str, MissingFieldFallback)> =
        plan.scalars.iter().map(|s| (s.name.as_str(), s.fallback)).collect();
    assert_eq!(
        scalars,
        vec![
            ("id", MissingFieldFallback::Reject),
            ("subtitle", MissingFieldFallback::Null),
            ("tags", MissingFieldFallback::EmptyArray),
        ]
    );
    assert_eq!(plan.includes.len(), 2);
    assert_eq!(plan.includes[0].include_method, "include_author");
    assert_eq!(plan.includes[0].include_selected_method, "include_author_selected");
    assert_eq!(plan.includes[0].target_module, "author");
    assert!(!plan.includes[0].to_many);
    assert_eq!(plan.includes[1].target_module, "post_comment");
    assert!(plan.includes[1].to_many);
}

#[test]
fn names_are_snake_cased_pluralized_and_uppercased() {
    assert_eq!(to_snake_case("BlogPost"), "blog_post");
    assert_eq!(to_snake_case("createdAt"), "created_at");
    assert_eq!(to_snake_case("id"), "id");
    assert_eq!(pluralize("post"), "posts");
    assert_eq!(pluralize("address"), "addresses");
    assert_eq!(pluralize("category"), "categories");
    assert_eq!(to_upper("blog_post"), "BLOG_POST");
    assert_eq!(descriptor_name("BlogPost"), "BLOG_POST_MODEL");
    assert_eq!(table_name("Category"), "categories");
}

#[test]
fn trim_drops_unicode_whitespace_only() {
    assert_eq!(trim("\u{3000}\t Hello world \u{2029}\n"), "Hello world");
    assert_eq!(trim("Solo"), "Solo");
    assert_eq!(trim(" \u{85} "), "");
    assert!(is_whitespace('\u{a0}') && is_whitespace('\u{200a}'));
    assert!(!is_whitespace('S') && !is_whitespace('\u{200b}'));
}

#[test]
fn u32_parses_like_std() {
    assert_eq!(parse_u32_text("30"), Some(30));
    assert_eq!(parse_u32_text("+7"), Some(7));
    assert_eq!(parse_u32_text("4294967295"), Some(u32::MAX));
    assert_eq!(parse_u32_text("4294967296"), None);
    assert_eq!(parse_u32_text(""), None);
    assert_eq!(parse_u32_text("+"), None);
    assert_eq!(parse_u32_text("-1"), None);
    assert_eq!(parse_u32_text("1 2"), None);
    for s in ["0", "+12", "99999999999", "12a"] {
        assert_eq!(parse_u32_text(s), s.parse::<u32>().ok());
    }
}

fn post_model() -> Model {
    model(
        "BlogPost",
        vec![
            field("postId", "Int", TypeArity::Required, &["@id"]),
            field("title", "String", TypeArity::Required, &[]),
            field("authorEmail", "String", TypeArity::Optional, &["@pii"]),
            field("secretNote", "String", TypeArity::Optional, &["@server_only", "@sensitive"]),
            field("rev", "Int", TypeArity::Required, &["@version"]),
            field("ownerId", "Cuid", TypeArity::Optional, &["@default(auth().id)"]),
            field("slug", "String", TypeArity::Required, &["@readonly"]),
            field("author", "Author", TypeArity::Required, &[]),
        ],
        &["@@audit", "@@retain(days: 30 )"],
    )
}

#[test]
fn descriptor_lists_columns_keys_and_settings() {
    let models = vec![model("Author", Vec::new(), &[]), post_model()];
    let auth = vec![field("id", "String", TypeArity::Required, &[])];
    let plan = plan_model_descriptor(&models[1], &models, &auth).unwrap();
    assert_eq!(plan.descriptor_name, "BLOG_POST_MODEL");
    assert_eq!(plan.table_name, "blog_posts");
    assert_eq!(plan.columns, names(&["postId", "title", "authorEmail", "secretNote", "rev", "ownerId", "slug"]));
    assert_eq!(
        plan.column_sql_names,
        names(&["post_id", "title", "author_email", "secret_note", "rev", "owner_id", "slug"])
    );
    assert_eq!(plan.primary_key_column, "post_id");
    assert_eq!(plan.allowed_fields, names(&["postId", "title", "authorEmail", "rev", "ownerId", "slug"]));
    assert_eq!(plan.allowed_includes, names(&["author"]));
    assert_eq!(plan.pii_columns, names(&["author_email"]));
    assert_eq!(plan.sensitive_columns, names(&["secret_note"]));
    assert_eq!(plan.upsert_update_columns, names(&["title", "author_email"]));
    assert_eq!(plan.version_column.as_deref(), Some("rev"));
    assert!(plan.audit_enabled);
    assert_eq!(plan.soft_delete_column, None);
    assert_eq!(plan.retention_days, Some(30));
    assert_eq!(plan.policy_slots.len(), 10);
    assert_eq!(plan.policy_slots[0].action, PolicyAction::List);
    assert!(plan.policy_slots[0].also_read && !plan.policy_slots[0].deny);
    assert!(plan.policy_slots[9].deny && plan.policy_slots[9].action == PolicyAction::Delete);
    assert_eq!(plan.create_defaults.len(), 1);
    let d = &plan.create_defaults[0];
    assert_eq!((d.column.as_str(), d.auth_field.as_str(), d.ty, d.nullable), ("owner_id", "id", CreateDefaultType::String, true));
}

#[test]
fn descriptor_refuses_an_unknown_auth_field() {
    let models = vec![post_model()];
    let err = plan_model_descriptor(&models[0], &models, &Vec::new()).unwrap_err();
    assert_eq!(err, "auth-derived default on `BlogPost.ownerId` references unknown auth field `id`");
}

#[test]
fn descriptor_soft_delete_and_unparsed_retention() {
    let m = model(
        "Note",
        vec![field("id", "Int", TypeArity::Required, &["@id"])],
        &["@@soft_delete", "@@retain(days: many)"],
    );
    let plan = plan_model_descriptor(&m, &vec![], &Vec::new()).unwrap();
    assert_eq!(plan.soft_delete_column.as_deref(), Some("deleted_at"));
    assert_eq!(plan.retention_days, None);
    assert!(!plan.audit_enabled);
    assert_eq!(plan.version_column, None);
    assert_eq!(plan.table_name, "notes");
}

#[test]
fn row_decoder_lists_scalar_columns_with_their_selected_names() {
    let post = model(
        "BlogPost",
        vec![
            field("postId", "Int", TypeArity::Required, &["@id"]),
            field("author", "Author", TypeArity::Required, &[]),
            field("meta", "Json", TypeArity::Optional, &[]),
            field("status", "Status", TypeArity::List, &[]),
        ],
        &[],
    );
    let plan = plan_row_decoder(&post, &names(&["Author", "BlogPost"]), &names(&["Status"]), RowBackend::Postgres);
    let got: Vec<(&str, &str, RowDecode)> =
        plan.iter().map(|c| (c.field.as_str(), c.selected_as.as_str(), c.decode.decode)).collect();
    assert_eq!(
        got,
        vec![
            ("postId", "post_id", RowDecode::Plain),
            ("meta", "meta", RowDecode::JsonViaDbJson),
            ("status", "status", RowDecode::EnumTextArray),
        ]
    );
    let sqlite = plan_row_decoder(&post, &names(&["Author", "BlogPost"]), &names(&["Status"]), RowBackend::Sqlite);
    assert_eq!(sqlite[1].decode.decode, RowDecode::JsonText);
    assert_eq!(sqlite[2].decode.decode, RowDecode::EnumJsonArray);
}

#[test]
fn ascii_names_pascal_and_upper_case_plainly() {
    assert_eq!(cratestack_macros::naming::to_pascal_case("page_info"), "PageInfo");
    assert_eq!(to_upper("post_comment_2"), "POST_COMMENT_2");
}
