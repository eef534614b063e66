use cratestack_macros::grpc::{
    lock_number, page_info_numbers, page_of_numbers, pk_wire, plan_update_message,
    rpc_list_input_numbers, rpc_list_predicate_numbers, rpc_pk_input, rpc_update_input,
    scalar_wire, string_list_number, PatchKind, PatchShape, ScalarWire, WireConversion, WireType,
};
use cratestack_macros::ir::{Attribute, Field, Model, Query, Schema, TransportStyle, TypeArity, TypeRef};
use cratestack_macros::model::{
    create_default, CreateDefault, CreateDefaultType, is_filterable_scalar, supports_ordering_ops, supports_string_ops, version_field,
};
use cratestack_macros::naming::{method_path, to_pascal_case};
use cratestack_macros::query_guard::{guard_no_queries_without_a_database, query_names, ServerDb};

fn ty(name: &str, arity: TypeArity) -> TypeRef {
    TypeRef { name: name.to_owned(), arity, generic_args: Vec::new() }
}

fn field(name: &str, ty_name: &str, arity: TypeArity) -> Field {
    Field { name: name.to_owned(), docs: Vec::new(), ty: ty(ty_name, arity), attributes: Vec::new() }
}

fn numbers(entries: &[(&str, i32)]) -> Vec<(String, i32)> {
    entries.iter().map(|(k, n)| (k.to_string(), *n)).collect()
}

fn empty_schema() -> Schema {
    Schema {
        mixins: Vec::new(),
        models: Vec::new(),
        types: Vec::new(),
        enums: Vec::new(),
        procedures: Vec::new(),
        queries: Vec::new(),
        transport: TransportStyle::Rest,
        auth: None,
    }
}

#[test]
fn required_field_wraps_in_single_option() {
    let fields = vec![field("name", "String", TypeArity::Required)];
    let plans = plan_update_message("UpdateWidgetInput", &fields, &numbers(&[("name", 1)]), &Vec::new())
        .expect("should render");
    assert_eq!(plans.len(), 1);
    assert_eq!(plans[0].name, "name");
    assert_eq!(plans[0].number, 1);
    assert_eq!(
        plans[0].kind,
        PatchKind::Scalar(ScalarWire { wire: WireType::String, conversion: WireConversion::Identity })
    );
    // Required-arity domain field: presence only, no double wrap.
    assert_eq!(plans[0].shape, PatchShape::Presence);
}

#[test]
fn optional_field_double_wraps_on_decode() {
    let fields = vec![field("email", "String", TypeArity::Optional)];
    let plans = plan_update_message("UpdateWidgetInput", &fields, &numbers(&[("email", 1)]), &Vec::new())
        .expect("should render");
    // Optional-arity domain field: presence wraps nullability.
    assert_eq!(plans[0].shape, PatchShape::PresenceOverNullable);
}

#[test]
fn missing_lock_entry_is_reported_not_panicked() {
    let fields = vec![field("name", "String", TypeArity::Required)];
    let result = plan_update_message("UpdateWidgetInput", &fields, &Vec::new(), &Vec::new());
    assert!(result.is_err());
    assert_eq!(result.unwrap_err(), "no `.pb.lock` entry for `UpdateWidgetInput.name`");
}

#[test]
fn patch_fields_pick_enum_message_and_list_shapes() {
    let fields = vec![
        field("status", "Status", TypeArity::Required),
        field("address", "Address", TypeArity::Optional),
        field("tags", "String", TypeArity::List),
    ];
    let lock = numbers(&[("tags", 7), ("status", 3), ("address", 5), ("spare", 9)]);
    let plans = plan_update_message("UpdateUserInput", &fields, &lock, &vec!["Status".to_owned()]).unwrap();
    assert_eq!(plans.iter().map(|p| p.number).collect::<Vec<_>>(), vec![3, 5, 7]);
    assert_eq!(plans[0].kind, PatchKind::Enum);
    assert_eq!(plans[1].kind, PatchKind::Message);
    assert_eq!(plans[2].shape, PatchShape::Repeated);
}

#[test]
fn finds_the_query_a_db_none_schema_must_not_have() {
    let mut schema = empty_schema();
    schema.queries.push(Query { name: "totals".to_owned() });
    assert_eq!(query_names(&schema), vec!["totals"]);
}

#[test]
fn a_schema_without_queries_has_nothing_to_report() {
    let mut schema = empty_schema();
    schema.models.push(Model {
        name: "Account".to_owned(),
        docs: Vec::new(),
        attributes: Vec::new(),
        fields: vec![Field {
            name: "id".to_owned(),
            docs: Vec::new(),
            ty: ty("Int", TypeArity::Required),
            attributes: vec![Attribute { raw: "@id".to_owned() }],
        }],
    });
    assert!(query_names(&schema).is_empty());
}

#[test]
fn query_guard_refuses_queries_only_without_a_database() {
    let mut schema = empty_schema();
    assert_eq!(guard_no_queries_without_a_database(&schema, ServerDb::NoDatabase), Ok(()));
    schema.queries.push(Query { name: "totals".to_owned() });
    schema.queries.push(Query { name: "recent".to_owned() });
    assert_eq!(guard_no_queries_without_a_database(&schema, ServerDb::Postgres), Ok(()));
    let message = guard_no_queries_without_a_database(&schema, ServerDb::NoDatabase).unwrap_err();
    assert!(message.starts_with("schema declares `query` block(s) (totals, recent) but this macro call says `db = None`"));
    assert!(message.ends_with("See docs/design/declarative-custom-query.md §4."));
}

#[test]
fn pascal_case_drops_underscores_and_capitalizes() {
    assert_eq!(to_pascal_case("created_at"), "CreatedAt");
    assert_eq!(to_pascal_case("email"), "Email");
    assert_eq!(to_pascal_case("__a__b_"), "AB");
    assert_eq!(to_pascal_case("authorId"), "AuthorId");
    assert_eq!(to_pascal_case(""), "");
    assert_eq!(to_pascal_case("ß_x"), "SSX");
}

#[test]
fn method_path_names_package_model_and_verb() {
    assert_eq!(method_path("shop.v1", "Order", "Get"), "/shop.v1.Api/ModelOrderGet");
}

#[test]
fn lock_numbers_are_looked_up_or_reported() {
    let lock = numbers(&[("values", 4)]);
    assert_eq!(string_list_number(&lock), Ok(4));
    assert_eq!(lock_number(&lock, "StringList", "other"), Err("no `.pb.lock` entry for `StringList.other`".to_owned()));
    assert_eq!(rpc_list_predicate_numbers(&numbers(&[("value", 2), ("key", 1)])), Ok(vec![1, 2]));
    assert_eq!(
        page_info_numbers(&numbers(&[("limit", 1), ("offset", 2), ("has_next_page", 3)])),
        Err("no `.pb.lock` entry for `PageInfo.has_previous_page`".to_owned())
    );
    let list = numbers(&[
        ("limit", 1),
        ("offset", 2),
        ("fields", 3),
        ("include", 4),
        ("include_fields", 5),
        ("sort", 6),
        ("where_expr", 7),
        ("or", 8),
        ("filters", 9),
    ]);
    assert_eq!(rpc_list_input_numbers("Post", &list), Ok((1..=9).collect::<Vec<i32>>()));
    assert_eq!(
        page_of_numbers("Post", &numbers(&[("items", 1), ("page_info", 3)])),
        Err("no `.pb.lock` entry for `PageOfPost.total_count`".to_owned())
    );
}

#[test]
fn scalar_wire_table_and_primary_keys() {
    assert_eq!(scalar_wire("Uuid"), Some(ScalarWire { wire: WireType::String, conversion: WireConversion::Uuid }));
    assert_eq!(scalar_wire("Json"), Some(ScalarWire { wire: WireType::Bytes, conversion: WireConversion::Json }));
    assert_eq!(
        scalar_wire("DateTime"),
        Some(ScalarWire { wire: WireType::Timestamp, conversion: WireConversion::DateTime })
    );
    assert_eq!(scalar_wire("Float"), Some(ScalarWire { wire: WireType::Double, conversion: WireConversion::Identity }));
    assert_eq!(scalar_wire("Status"), None);
    let pk = field("id", "Address", TypeArity::Required);
    assert_eq!(pk_wire(&pk), Err("primary key `id` has a non-scalar type; unsupported for gRPC".to_owned()));
    let pk = field("id", "Int", TypeArity::Required);
    let int = ScalarWire { wire: WireType::Int64, conversion: WireConversion::Identity };
    assert_eq!(rpc_pk_input("Post", &pk, &numbers(&[("id", 1)])), Ok((1, int)));
    assert_eq!(rpc_pk_input("Post", &pk, &Vec::new()), Err("no `.pb.lock` entry for `PostRpcPkInput.id`".to_owned()));
    assert_eq!(rpc_update_input("Post", &pk, &numbers(&[("patch", 2), ("id", 1)])), Ok((1, 2, int)));
    assert_eq!(
        rpc_update_input("Post", &pk, &numbers(&[("id", 1)])),
        Err("no `.pb.lock` entry for `PostRpcUpdateInput.patch`".to_owned())
    );
}

#[test]
fn filter_operators_follow_the_field_type() {
    let s = field("title", "String", TypeArity::Optional);
    let b = field("active", "Boolean", TypeArity::Required);
    let j = field("payload", "Json", TypeArity::Required);
    let d = field("at", "DateTime", TypeArity::Required);
    assert!(is_filterable_scalar(&s) && supports_ordering_ops(&s) && supports_string_ops(&s));
    assert!(is_filterable_scalar(&b) && !supports_ordering_ops(&b) && !supports_string_ops(&b));
    assert!(!is_filterable_scalar(&j) && !supports_ordering_ops(&j));
    assert!(supports_ordering_ops(&d) && !supports_string_ops(&d));
}

#[test]
fn version_field_is_the_first_marked_field() {
    let mut v = field("rev", "Int", TypeArity::Required);
    v.attributes.push(Attribute { raw: "@version".to_owned() });
    let mut w = field("rev2", "Int", TypeArity::Required);
    w.attributes.push(Attribute { raw: "@version".to_owned() });
    let model = Model { name: "Doc".to_owned(), docs: Vec::new(), attributes: Vec::new(), fields: vec![field("id", "Int", TypeArity::Required), v, w] };
    assert_eq!(version_field(&model).map(|f| f.name.as_str()), Some("rev"));
    let plain = Model { name: "Doc".to_owned(), docs: Vec::new(), attributes: Vec::new(), fields: vec![field("id", "Int", TypeArity::Required)] };
    assert!(version_field(&plain).is_none());
}

#[test]
fn auth_derived_defaults_bind_matching_fields_only() {
    let owner = field("ownerId", "Cuid", TypeArity::Optional);
    let auth_id = field("id", "String", TypeArity::Required);
    assert_eq!(
        create_default("Post", &owner, "id", Some(&auth_id)),
        Ok(CreateDefault { auth_field: "id".to_owned(), ty: CreateDefaultType::String, nullable: true })
    );
    assert_eq!(
        create_default("Post", &owner, "tenant", None),
        Err("auth-derived default on `Post.ownerId` references unknown auth field `tenant`".to_owned())
    );
    let count = field("count", "Int", TypeArity::Required);
    assert_eq!(
        create_default("Post", &count, "id", Some(&auth_id)),
        Err("auth-derived default on `Post.count` requires matching auth/model field types".to_owned())
    );
    let stamp = field("at", "DateTime", TypeArity::Required);
    let auth_stamp = field("at", "DateTime", TypeArity::Required);
    assert_eq!(
        create_default("Post", &stamp, "at", Some(&auth_stamp)),
        Err("auth-derived defaults currently support only String/Cuid, Int, and Boolean fields; `Post`.DateTime is unsupported".to_owned())
    );
    let auth_int = field("level", "Int", TypeArity::Required);
    assert_eq!(
        create_default("Post", &count, "level", Some(&auth_int)).map(|d| d.ty),
        Ok(CreateDefaultType::Int)
    );
}
