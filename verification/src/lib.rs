//! Schema-to-artifact generation for `.cstack` schemas: the JSON Schema of
//! procedure inputs and outputs, and the naming, wire-type and guard
//! decisions that code generation is built on.

pub mod text;
pub mod json;
pub mod ir;
pub mod json_schema;
pub mod naming;
pub mod grpc;
pub mod query_guard;
pub mod model;
pub mod server;
pub mod columns;
pub mod selection;
pub mod descriptor;
