# cratestack_macros

The decision logic behind cratestack's schema code generation, verified
with Verus: what a `.cstack` schema's procedures look like as JSON Schema
2020-12, and the naming, wire-type, field-number and guard decisions that
the generated Rust is built from.

## Layout

- `src/ir.rs`: the parsed schema (models, types, enums, procedures,
  queries, fields, type references) and the predicates over it.
- `src/text.rs`, `src/json.rs`: strings and JSON values, with objects kept
  sorted by key, one entry per key, as `serde_json::Map` keeps them.
- `src/json_schema.rs` and `src/json_schema/`: the procedure input and
  output schema generator (`procedure_input_schema`,
  `procedure_output_schema`), its error type, the scalar table, the fixed
  fragments (`Page<T>`, `PageInput`), and `laws.rs`, the properties every
  generated schema has.
- `src/naming.rs`: `to_pascal_case`, `to_snake_case`, uppercasing,
  table and descriptor names, gRPC method paths.
- `src/grpc.rs`: `.pb.lock` field numbers, the scalar wire table, and the
  plan of `Update<Model>Input` patch fields.
- `src/model.rs`: typed filter operators, `@version`, auth-derived create
  defaults, and how each column of a Postgres or SQLite row is decoded.
- `src/columns.rs`: scalar columns versus relations, and the field lists
  (allowed, PII, sensitive, upsert) taken from a model.
- `src/selection.rs`: the per-model selection module plan.
- `src/descriptor.rs`: the `ModelDescriptor` plan (columns, keys, policy
  slots, create defaults, audit, soft delete, retention).
- `src/server.rs`: the runtime handle and axum module under each
  `db = ...`, and the server composer's schema walk (names, op
  descriptors, route transports, RPC dispatch).
- `src/query_guard.rs`: the refusal of `query` blocks under `db = None`.
- `app/lib.rs`: the `serde_json` view of the library's JSON values, and
  `quote!` renderers for part of the plans: the query guard error, the
  gRPC mirror messages (`Update<Model>Input`, `StringList`, list
  predicate, page info, list input, `PageOf<Model>`), the full and partial
  row decoders, the model descriptor constant, and the axum router states
  and `router` fn. The selection module, the runtime block, the RPC batch
  block and the other generated modules have plans or no decisions here,
  but no renderer.
- `tests/`: the schema generator's scenarios and the other decisions on
  concrete values.

The three schema macros themselves (`include_server_schema!`,
`include_embedded_schema!`, `include_client_schema!`) are procedural
macros: they need a `proc-macro` crate, which reads the schema file at
expansion time. This crate is a library; the renderers in `app/` are
what such a macro crate would call.
