use cratestack_macros::ir::{
    Attribute, DecimalBackend, EnumDecl, EnumVariant, Field, Model, Procedure, ProcedureArg,
    Schema, TransportStyle, TypeArity, TypeDecl, TypeRef,
};
use cratestack_macros::json::{object_insert, JsonValue};
use cratestack_macros::json_schema::error::JsonSchemaError;
use cratestack_macros::json_schema::generator::DIALECT;
use cratestack_macros::json_schema::{procedure_input_schema, procedure_output_schema};

fn ty(name: &str, arity: TypeArity) -> TypeRef {
    TypeRef { name: name.to_owned(), arity, generic_args: Vec::new() }
}

fn generic(name: &str, arg: TypeRef) -> TypeRef {
    TypeRef { name: name.to_owned(), arity: TypeArity::Required, generic_args: vec![arg] }
}

fn field(name: &str, ty: TypeRef) -> Field {
    Field { name: name.to_owned(), docs: Vec::new(), ty, attributes: Vec::new() }
}

fn field_with(name: &str, ty: TypeRef, attributes: &[&str], docs: &[&str]) -> Field {
    Field {
        name: name.to_owned(),
        docs: docs.iter().map(|d| d.to_string()).collect(),
        ty,
        attributes: attributes.iter().map(|a| Attribute { raw: a.to_string() }).collect(),
    }
}

fn arg(name: &str, ty: TypeRef) -> ProcedureArg {
    ProcedureArg { name: name.to_owned(), docs: Vec::new(), ty }
}

fn procedure(name: &str, args: Vec<ProcedureArg>, return_type: TypeRef) -> Procedure {
    Procedure { name: name.to_owned(), args, return_type }
}

fn type_decl(name: &str, fields: Vec<Field>) -> TypeDecl {
    TypeDecl { name: name.to_owned(), docs: Vec::new(), fields }
}

fn schema(models: Vec<Model>, types: Vec<TypeDecl>, enums: Vec<EnumDecl>, procedures: Vec<Procedure>) -> Schema {
    Schema {
        mixins: Vec::new(),
        models,
        types,
        enums,
        procedures,
        queries: Vec::new(),
        transport: TransportStyle::Rest,
        auth: None,
    }
}

/// `enum Status { Active Archived }`, `type Item { /// Shown to agents.
/// label String, note String?, tags String[] }`, `type Tree { label String,
/// children Tree[] }`.
fn decls() -> (Vec<TypeDecl>, Vec<EnumDecl>) {
    let item = type_decl(
        "Item",
        vec![
            field_with("label", ty("String", TypeArity::Required), &[], &[" Shown to agents."]),
            field("note", ty("String", TypeArity::Optional)),
            field("tags", ty("String", TypeArity::List)),
        ],
    );
    let tree = type_decl(
        "Tree",
        vec![field("label", ty("String", TypeArity::Required)), field("children", ty("Tree", TypeArity::List))],
    );
    let status = EnumDecl {
        name: "Status".to_owned(),
        docs: Vec::new(),
        variants: vec![EnumVariant { name: "Active".to_owned() }, EnumVariant { name: "Archived".to_owned() }],
    };
    (vec![item, tree], vec![status])
}

fn with_decls(p: Procedure) -> Schema {
    let (types, enums) = decls();
    schema(Vec::new(), types, enums, vec![p])
}

fn input_error(s: &Schema) -> JsonSchemaError {
    procedure_input_schema(s, &s.procedures[0], Some(DecimalBackend::RustDecimal))
        .expect_err("input schema should be refused")
}

fn refused_type(error: &JsonSchemaError) -> &str {
    match error {
        JsonSchemaError::NoFaithfulMapping { ty_name, .. } => ty_name,
        other => panic!("expected NoFaithfulMapping, got {other:?}"),
    }
}

fn input(s: &Schema) -> JsonValue {
    procedure_input_schema(s, &s.procedures[0], Some(DecimalBackend::RustDecimal)).expect("input schema")
}

fn output(s: &Schema) -> Option<JsonValue> {
    procedure_output_schema(s, &s.procedures[0], None).expect("output schema")
}

fn at<'a>(v: &'a JsonValue, path: &[&str]) -> Option<&'a JsonValue> {
    let mut cur = v;
    for key in path {
        cur = cur.get(key)?;
    }
    Some(cur)
}

fn text(s: &str) -> JsonValue {
    JsonValue::Str(s.to_owned())
}

fn obj(entries: Vec<(&str, JsonValue)>) -> JsonValue {
    let mut out = Vec::new();
    for (k, v) in entries {
        object_insert(&mut out, k.to_owned(), v);
    }
    JsonValue::Object(out)
}

fn strings(items: &[&str]) -> JsonValue {
    JsonValue::Array(items.iter().map(|s| text(s)).collect())
}

#[test]
fn json_argument_is_refused_by_name() {
    let s = schema(
        Vec::new(),
        Vec::new(),
        Vec::new(),
        vec![procedure("stash", vec![arg("payload", ty("Json", TypeArity::Required))], ty("Boolean", TypeArity::Required))],
    );
    let error = input_error(&s);
    assert_eq!(refused_type(&error), "Json");
    let message = error.to_string();
    assert!(message.starts_with("`Json` has no faithful JSON Schema mapping"));
    assert!(message.ends_with("(at procedure `stash` → argument `payload`)"));
}

#[test]
fn json_nested_in_a_type_names_the_path() {
    let holder = type_decl(
        "Holder",
        vec![field("label", ty("String", TypeArity::Required)), field("payload", ty("Json", TypeArity::Optional))],
    );
    let outer = type_decl("Outer", vec![field("holders", ty("Holder", TypeArity::List))]);
    let s = schema(
        Vec::new(),
        vec![holder, outer],
        Vec::new(),
        vec![procedure("put", vec![arg("args", ty("Outer", TypeArity::Required))], ty("Boolean", TypeArity::Required))],
    );
    let error = input_error(&s);
    assert_eq!(refused_type(&error), "Json");
    assert!(error.to_string().ends_with(
        "(at procedure `put` → argument `args` → field `Outer.holders` → field `Holder.payload`)"
    ));
}

#[test]
fn json_return_type_is_refused_when_the_output_is_an_object() {
    let boxed = type_decl("Box", vec![field("data", ty("Json", TypeArity::Required))]);
    let s = schema(Vec::new(), vec![boxed], Vec::new(), vec![procedure("get", Vec::new(), ty("Box", TypeArity::Required))]);
    let error = procedure_output_schema(&s, &s.procedures[0], None).expect_err("output schema should be refused");
    assert_eq!(refused_type(&error), "Json");
    assert!(error.to_string().contains("procedure `get` → return type"));
}

#[test]
fn find_many_argument_is_refused() {
    let post = Model {
        name: "Post".to_owned(),
        docs: Vec::new(),
        attributes: Vec::new(),
        fields: vec![field_with("id", ty("Int", TypeArity::Required), &["@id"], &[])],
    };
    let s = schema(
        vec![post],
        Vec::new(),
        Vec::new(),
        vec![procedure("search", vec![arg("q", generic("FindMany", ty("Post", TypeArity::Required)))], ty("Post", TypeArity::List))],
    );
    let error = input_error(&s);
    assert_eq!(refused_type(&error), "FindMany");
}

#[test]
fn vector_field_is_refused() {
    let probe = type_decl("Probe", vec![field("embedding", ty("Vector", TypeArity::Required))]);
    let s = schema(
        Vec::new(),
        vec![probe],
        Vec::new(),
        vec![procedure("near", vec![arg("args", ty("Probe", TypeArity::Required))], ty("Boolean", TypeArity::Required))],
    );
    let error = input_error(&s);
    assert_eq!(refused_type(&error), "Vector");
}

#[test]
fn spatial_fields_are_refused() {
    for t in ["Geography(Point, 4326)", "Geometry(Point, 4326)"] {
        let expected = &t[..t.find('(').unwrap()];
        let probe = type_decl("Probe", vec![field("area", ty(expected, TypeArity::Required))]);
        let s = schema(
            Vec::new(),
            vec![probe],
            Vec::new(),
            vec![procedure("near", vec![arg("args", ty("Probe", TypeArity::Required))], ty("Boolean", TypeArity::Required))],
        );
        let error = input_error(&s);
        assert_eq!(refused_type(&error), expected);
    }
}

#[test]
fn computed_bearing_output_is_refused() {
    let widget = type_decl(
        "Widget",
        vec![
            field("label", ty("String", TypeArity::Required)),
            field_with("slug", ty("String", TypeArity::Required), &["@computed"], &[]),
        ],
    );
    let shelf = type_decl("Shelf", vec![field("widgets", ty("Widget", TypeArity::List))]);
    let s = schema(
        Vec::new(),
        vec![widget, shelf],
        Vec::new(),
        vec![procedure("get", vec![arg("label", ty("String", TypeArity::Required))], ty("Shelf", TypeArity::Required))],
    );
    let error = procedure_output_schema(&s, &s.procedures[0], None).unwrap_err();
    assert_eq!(refused_type(&error), "Widget");
    assert!(error.to_string().ends_with("field `Shelf.widgets` → field `Widget.slug`)"));
}

#[test]
fn decimal_without_a_backend_is_refused() {
    let s = schema(
        Vec::new(),
        Vec::new(),
        Vec::new(),
        vec![procedure("total", vec![arg("amount", ty("Decimal", TypeArity::Required))], ty("Boolean", TypeArity::Required))],
    );
    let error = procedure_input_schema(&s, &s.procedures[0], None).unwrap_err();
    assert!(matches!(error, JsonSchemaError::MissingDecimalBackend { .. }));
    assert!(error.to_string().contains("`Decimal`"));
}

#[test]
fn only_object_return_types_get_an_output_schema() {
    let cases: Vec<(&str, TypeRef, bool)> = vec![
        ("Item", ty("Item", TypeArity::Required), true),
        ("Page<Item>", generic("Page", ty("Item", TypeArity::Required)), true),
        ("Item?", ty("Item", TypeArity::Optional), false),
        ("Item[]", ty("Item", TypeArity::List), false),
        ("Status", ty("Status", TypeArity::Required), false),
        ("Int", ty("Int", TypeArity::Required), false),
        ("String[]", ty("String", TypeArity::List), false),
    ];
    for (returns, return_type, expected) in cases {
        let s = with_decls(procedure("p", Vec::new(), return_type));
        let schema = output(&s);
        assert_eq!(schema.is_some(), expected, "return type {returns}");
        if let Some(schema) = schema {
            assert_eq!(schema.get("type"), Some(&text("object")), "return type {returns}");
            assert_eq!(schema.get("$schema"), Some(&text(DIALECT)));
        }
    }
}

#[test]
fn arguments_are_required_unless_optional() {
    let s = with_decls(procedure(
        "p",
        vec![
            arg("item", ty("Item", TypeArity::Required)),
            arg("maybe", ty("Item", TypeArity::Optional)),
            arg("many", ty("Status", TypeArity::List)),
            arg("page", ty("PageInput", TypeArity::Optional)),
        ],
        ty("Int", TypeArity::Required),
    ));
    let schema = input(&s);
    assert_eq!(schema.get("$schema"), Some(&text(DIALECT)));
    assert_eq!(schema.get("type"), Some(&text("object")));
    assert_eq!(schema.get("required"), Some(&strings(&["item", "many"])));
    assert_eq!(
        at(&schema, &["properties", "maybe"]),
        Some(&obj(vec![(
            "anyOf",
            JsonValue::Array(vec![obj(vec![("$ref", text("#/$defs/Item"))]), obj(vec![("type", text("null"))])]),
        )]))
    );
    assert_eq!(at(&schema, &["$defs", "Item", "required"]), Some(&strings(&["label", "tags"])));
    assert_eq!(
        at(&schema, &["$defs", "Item", "properties", "label", "description"]),
        Some(&text("Shown to agents."))
    );
    assert_eq!(
        at(&schema, &["$defs", "Status"]),
        Some(&obj(vec![("type", text("string")), ("enum", strings(&["Active", "Archived"]))]))
    );
}

#[test]
fn a_procedure_without_arguments_takes_an_empty_object() {
    let s = with_decls(procedure("p", Vec::new(), ty("Int", TypeArity::Required)));
    let schema = input(&s);
    assert_eq!(schema.get("properties"), Some(&JsonValue::Object(Vec::new())));
    assert!(schema.get("required").is_none());
    assert!(schema.get("$defs").is_none());
}

#[test]
fn a_self_referencing_type_terminates_through_defs() {
    let s = with_decls(procedure("p", vec![arg("tree", ty("Tree", TypeArity::Required))], ty("Int", TypeArity::Required)));
    let schema = input(&s);
    assert_eq!(
        at(&schema, &["$defs", "Tree", "properties", "children"]),
        Some(&obj(vec![("type", text("array")), ("items", obj(vec![("$ref", text("#/$defs/Tree"))]))]))
    );
}

#[test]
fn model_relations_and_server_only_fields_are_not_advertised() {
    let author = Model {
        name: "Author".to_owned(),
        docs: Vec::new(),
        attributes: Vec::new(),
        fields: vec![field_with("id", ty("Int", TypeArity::Required), &["@id"], &[])],
    };
    let post = Model {
        name: "Post".to_owned(),
        docs: Vec::new(),
        attributes: Vec::new(),
        fields: vec![
            field_with("id", ty("Int", TypeArity::Required), &["@id"], &[]),
            field("title", ty("String", TypeArity::Required)),
            field_with("secret", ty("String", TypeArity::Required), &["@server_only"], &[]),
            field("authorId", ty("Int", TypeArity::Required)),
            field_with(
                "author",
                ty("Author", TypeArity::Required),
                &["@relation(fields: [authorId], references: [id])"],
                &[],
            ),
        ],
    };
    let s = schema(vec![author, post], Vec::new(), Vec::new(), vec![procedure("p", Vec::new(), ty("Post", TypeArity::Required))]);
    let schema = procedure_output_schema(&s, &s.procedures[0], None)
        .expect("output schema")
        .expect("model output is an object");
    let post = at(&schema, &["$defs", "Post"]).unwrap();
    let mut names: Vec<&str> = match post.get("properties").unwrap() {
        JsonValue::Object(entries) => entries.iter().map(|(k, _)| k.as_str()).collect(),
        other => panic!("properties should be an object, got {other:?}"),
    };
    names.sort_unstable();
    assert_eq!(names, ["authorId", "id", "title"]);
    assert!(schema.get("$defs").unwrap().get("Author").is_none());
}

#[test]
fn decimal_schema_follows_the_selected_backend() {
    let s = schema(
        Vec::new(),
        Vec::new(),
        Vec::new(),
        vec![procedure("p", vec![arg("amount", ty("Decimal", TypeArity::Required))], ty("Int", TypeArity::Required))],
    );
    let pattern = |backend| {
        let v = procedure_input_schema(&s, &s.procedures[0], Some(backend)).unwrap();
        match at(&v, &["properties", "amount", "pattern"]) {
            Some(JsonValue::Str(p)) => p.clone(),
            other => panic!("pattern should be a string, got {other:?}"),
        }
    };
    let rust = pattern(DecimalBackend::RustDecimal);
    let big = pattern(DecimalBackend::BigDecimal);
    assert_ne!(rust, big, "the backends serialize differently");
    assert!(!rust.contains("eE"));
    assert!(big.contains("[eE]"));
}

fn arg_with_docs(name: &str, ty: TypeRef, docs: &[&str]) -> ProcedureArg {
    ProcedureArg { name: name.to_owned(), docs: docs.iter().map(|d| d.to_string()).collect(), ty }
}

#[test]
fn an_undeclared_name_is_an_unknown_type_with_its_path() {
    let s = schema(
        Vec::new(),
        Vec::new(),
        Vec::new(),
        vec![procedure("p", vec![arg("x", ty("Mystery", TypeArity::Required))], ty("Int", TypeArity::Required))],
    );
    let error = input_error(&s);
    assert_eq!(
        error,
        JsonSchemaError::UnknownType {
            ty_name: "Mystery".to_owned(),
            at: vec!["procedure `p`".to_owned(), "argument `x`".to_owned()],
        }
    );
    assert_eq!(
        error.to_string(),
        "`Mystery` is not a type the JSON Schema generator can resolve (at procedure `p` → argument `x`)"
    );
}

#[test]
fn a_page_without_an_item_is_an_unknown_page() {
    let s = schema(
        Vec::new(),
        Vec::new(),
        Vec::new(),
        vec![procedure("p", vec![arg("x", ty("Page", TypeArity::Required))], ty("Int", TypeArity::Required))],
    );
    let error = input_error(&s);
    assert!(matches!(&error, JsonSchemaError::UnknownType { ty_name, .. } if ty_name == "Page"));
}

#[test]
fn a_page_item_failure_names_the_page_item() {
    let s = schema(
        Vec::new(),
        Vec::new(),
        Vec::new(),
        vec![procedure("p", vec![arg("x", generic("Page", ty("Json", TypeArity::Required)))], ty("Int", TypeArity::Required))],
    );
    let error = input_error(&s);
    assert_eq!(
        error.at(),
        &vec!["procedure `p`".to_owned(), "argument `x`".to_owned(), "`Page` item".to_owned()]
    );
}

#[test]
fn missing_decimal_message_has_no_location_suffix_only_when_unlocated() {
    let error = JsonSchemaError::MissingDecimalBackend { at: Vec::new() };
    assert_eq!(
        error.to_string(),
        "`Decimal` needs a `decimal = RustDecimal | BigDecimal` argument to pick its JSON Schema, because the two backends serialize differently"
    );
    let located = error.within("argument `a`".to_owned()).within("procedure `p`".to_owned());
    assert!(located.to_string().ends_with(" (at procedure `p` → argument `a`)"));
}

#[test]
fn a_page_output_has_the_fixed_envelope() {
    let s = with_decls(procedure("p", Vec::new(), generic("Page", ty("Item", TypeArity::Required))));
    let schema = output(&s).expect("a page is an object");
    assert_eq!(schema.get("required"), Some(&strings(&["items", "pageInfo"])));
    assert_eq!(
        at(&schema, &["properties", "items"]),
        Some(&obj(vec![("type", text("array")), ("items", obj(vec![("$ref", text("#/$defs/Item"))]))]))
    );
    assert_eq!(
        at(&schema, &["properties", "pageInfo", "required"]),
        Some(&strings(&["hasNextPage", "hasPreviousPage"]))
    );
    let int = obj(vec![
        ("type", text("integer")),
        ("minimum", JsonValue::Int(i64::MIN)),
        ("maximum", JsonValue::Int(i64::MAX)),
    ]);
    let nullable_int = obj(vec![("anyOf", JsonValue::Array(vec![int, obj(vec![("type", text("null"))])]))]);
    assert_eq!(at(&schema, &["properties", "totalCount"]), Some(&nullable_int));
    assert_eq!(at(&schema, &["properties", "pageInfo", "properties", "limit"]), Some(&nullable_int));
    assert!(at(&schema, &["$defs", "Item"]).is_some());
}

#[test]
fn scalars_map_to_their_serde_shapes() {
    let s = schema(
        Vec::new(),
        Vec::new(),
        Vec::new(),
        vec![procedure(
            "p",
            vec![
                arg("at", ty("DateTime", TypeArity::Required)),
                arg("id", ty("Uuid", TypeArity::Required)),
                arg("blob", ty("Bytes", TypeArity::Required)),
                arg("n", ty("Int", TypeArity::Required)),
                arg("f", ty("Float", TypeArity::Optional)),
                arg("c", ty("Cuid", TypeArity::List)),
            ],
            ty("Int", TypeArity::Required),
        )],
    );
    let schema = input(&s);
    assert_eq!(
        at(&schema, &["properties", "at"]),
        Some(&obj(vec![
            ("type", text("string")),
            ("format", text("date-time")),
            ("pattern", text(cratestack_macros::json_schema::scalar::DATE_TIME_PATTERN)),
        ]))
    );
    assert_eq!(at(&schema, &["properties", "id", "format"]), Some(&text("uuid")));
    assert_eq!(
        at(&schema, &["properties", "blob"]),
        Some(&obj(vec![
            ("type", text("array")),
            (
                "items",
                obj(vec![("type", text("integer")), ("minimum", JsonValue::Int(0)), ("maximum", JsonValue::Int(255))]),
            ),
        ]))
    );
    assert_eq!(at(&schema, &["properties", "n", "minimum"]), Some(&JsonValue::Int(i64::MIN)));
    assert_eq!(
        at(&schema, &["properties", "f"]),
        Some(&obj(vec![("anyOf", JsonValue::Array(vec![obj(vec![("type", text("number"))]), obj(vec![("type", text("null"))])]))]))
    );
    assert_eq!(
        at(&schema, &["properties", "c"]),
        Some(&obj(vec![("type", text("array")), ("items", obj(vec![("type", text("string"))]))]))
    );
    assert_eq!(schema.get("required"), Some(&strings(&["at", "id", "blob", "n", "c"])));
}

#[test]
fn docs_are_trimmed_joined_and_dropped_when_blank() {
    let (types, enums) = decls();
    let s = schema(
        Vec::new(),
        types,
        enums,
        vec![procedure(
            "p",
            vec![
                arg_with_docs("item", ty("Item", TypeArity::Required), &["  first  ", " second"]),
                arg_with_docs("plain", ty("String", TypeArity::Required), &["   "]),
            ],
            ty("Int", TypeArity::Required),
        )],
    );
    let schema = input(&s);
    // A `$ref` is an object, so it takes the description beside it.
    assert_eq!(at(&schema, &["properties", "item", "description"]), Some(&text("first\nsecond")));
    assert!(at(&schema, &["properties", "plain", "description"]).is_none());
}

#[test]
fn every_schema_asserts_something() {
    let (types, enums) = decls();
    let s = schema(
        Vec::new(),
        types,
        enums,
        vec![procedure(
            "p",
            vec![
                arg("a", ty("Item", TypeArity::List)),
                arg("b", ty("Status", TypeArity::Optional)),
                arg("c", generic("Page", ty("Tree", TypeArity::Required))),
                arg("d", ty("PageInput", TypeArity::Required)),
                arg("e", ty("Boolean", TypeArity::Required)),
            ],
            ty("Int", TypeArity::Required),
        )],
    );
    let schema = input(&s);
    match schema.get("properties") {
        Some(JsonValue::Object(props)) => {
            assert_eq!(props.len(), 5);
            for (name, value) in props {
                match value {
                    JsonValue::Object(entries) => assert!(!entries.is_empty(), "{name} is `{{}}`"),
                    other => panic!("{name} is not an object: {other:?}"),
                }
            }
        }
        other => panic!("properties should be an object, got {other:?}"),
    }
}

#[test]
fn a_declaration_used_twice_is_defined_once() {
    let (types, enums) = decls();
    let s = schema(
        Vec::new(),
        types,
        enums,
        vec![procedure(
            "p",
            vec![arg("a", ty("Item", TypeArity::Required)), arg("b", ty("Item", TypeArity::List)), arg("t", ty("Tree", TypeArity::Required))],
            ty("Int", TypeArity::Required),
        )],
    );
    let schema = input(&s);
    match schema.get("$defs") {
        Some(JsonValue::Object(defs)) => {
            let keys: Vec<&str> = defs.iter().map(|(k, _)| k.as_str()).collect();
            assert_eq!(keys, ["Item", "Tree"]);
        }
        other => panic!("$defs should be an object, got {other:?}"),
    }
}

#[test]
fn object_members_read_back_what_was_put() {
    let o = obj(vec![("b", text("1")), ("a", text("2")), ("b", text("3"))]);
    assert_eq!(o.get("b"), Some(&text("3")));
    assert_eq!(o.get("a"), Some(&text("2")));
    match &o {
        JsonValue::Object(entries) => assert_eq!(entries.iter().map(|(k, _)| k.as_str()).collect::<Vec<_>>(), ["a", "b"]),
        _ => unreachable!(),
    }
}

#[test]
fn a_page_argument_ignores_its_arity() {
    let optional_page = TypeRef {
        name: "Page".to_owned(),
        arity: TypeArity::Optional,
        generic_args: vec![ty("Item", TypeArity::Required)],
    };
    let a = input(&with_decls(procedure("p", vec![arg("x", optional_page)], ty("Int", TypeArity::Required))));
    let b = input(&with_decls(procedure(
        "p",
        vec![arg("x", generic("Page", ty("Item", TypeArity::Required)))],
        ty("Int", TypeArity::Required),
    )));
    assert_eq!(a, b);
    assert_eq!(a.get("required"), Some(&strings(&["x"])));
}

#[test]
fn object_schemas_leave_unknown_keys_allowed() {
    let s = with_decls(procedure("p", vec![arg("item", ty("Item", TypeArity::Required))], ty("Int", TypeArity::Required)));
    let schema = input(&s);
    assert!(schema.get("additionalProperties").is_none());
    assert!(at(&schema, &["$defs", "Item", "additionalProperties"]).is_none());
    assert_eq!(at(&schema, &["$defs", "Item", "type"]), Some(&text("object")));
}

#[test]
fn no_placeholder_reaches_a_finished_schema() {
    let s = with_decls(procedure(
        "p",
        vec![arg("tree", ty("Tree", TypeArity::Required)), arg("status", ty("Status", TypeArity::Optional))],
        generic("Page", ty("Tree", TypeArity::Required)),
    ));
    let inp = input(&s);
    let out = output(&s).expect("a page is an object");
    for schema in [&inp, &out] {
        match schema.get("$defs") {
            Some(JsonValue::Object(defs)) => {
                assert!(!defs.is_empty());
                for (name, value) in defs {
                    assert!(*value != JsonValue::Null, "{name} kept its placeholder");
                }
            }
            other => panic!("$defs should be an object, got {other:?}"),
        }
    }
}
