//! `db = None` configures no database, so a schema that declares `query`
//! blocks (raw SQL against Postgres) is refused at expansion time, once,
//! with a message that names the blocks and says what to change.

use vstd::prelude::*;
use vstd::string::*;

use crate::ir::{Query, Schema};
use crate::json_schema::error::join;
use crate::text::owned;

verus! {

/// The `db = ...` argument of a server schema invocation: `Postgres`, or
/// `None` (here `NoDatabase`), which configures no database.
#[derive(Debug, Clone, Copy, PartialEq, Eq, Structural)]
pub enum ServerDb {
    Postgres,
    NoDatabase,
}

/// The names of the declared queries, in order.
pub open spec fn spec_query_names(queries: Seq<Query>) -> Seq<Seq<char>> {
    queries.map_values(|q: Query| q.name@)
}

pub const QUERY_GUARD_HEAD: &'static str = "schema declares `query` block(s) (";

pub const QUERY_GUARD_TAIL: &'static str = ") but this macro call says `db = None`, which configures no database — a `query` is raw SQL against Postgres and has nothing to run against. Either remove the query blocks, or switch this call to `db = Postgres` (and the schema's `datasource` to `provider = \"postgresql\"`). See docs/design/declarative-custom-query.md §4.";

/// The refusal for `db = None` with the queries `names`.
pub open spec fn query_guard_message(names: Seq<Seq<char>>) -> Seq<char> {
    QUERY_GUARD_HEAD@ + join(names, ", "@) + QUERY_GUARD_TAIL@
}

/// The names of the schema's `query` blocks.
pub fn query_names(schema: &Schema) -> (r: Vec<String>)
    ensures
        r@.map_values(|s: String| s@) == spec_query_names(schema.queries@),
{
    let mut out: Vec<String> = Vec::new();
    let n = schema.queries.len();
    let mut i: usize = 0;
    while i < n
        invariant
            n == schema.queries@.len(),
            i <= n,
            out@.len() == i,
            forall|j: int| 0 <= j < i ==> #[trigger] out@[j]@ == schema.queries@[j].name@,
        decreases n - i,
    {
        out.push(schema.queries[i].name.clone());
        i = i + 1;
    }
    assert(out@.map_values(|s: String| s@) =~= spec_query_names(schema.queries@));
    out
}

/// `Ok` unless `db` is `None` and the schema declares a query; then the
/// message that names every query.
pub fn guard_no_queries_without_a_database(schema: &Schema, db: ServerDb) -> (r: Result<(), String>)
    ensures
        match r {
            Ok(()) => db != ServerDb::NoDatabase || schema.queries@.len() == 0,
            Err(m) => db == ServerDb::NoDatabase && schema.queries@.len() > 0 && m@ == query_guard_message(
                spec_query_names(schema.queries@),
            ),
        },
{
    if db != ServerDb::NoDatabase {
        return Ok(());
    }
    let names = query_names(schema);
    let n = names.len();
    assert(names@.map_values(|s: String| s@).len() == schema.queries@.len());
    if n == 0 {
        return Ok(());
    }
    let ghost parts = names@.map_values(|s: String| s@);
    let mut message = owned(QUERY_GUARD_HEAD);
    let mut i: usize = 0;
    while i < n
        invariant
            n == names@.len(),
            parts == names@.map_values(|s: String| s@),
            i <= n,
            message@ == QUERY_GUARD_HEAD@ + join(parts.take(i as int), ", "@),
        decreases n - i,
    {
        if i > 0 {
            message.append(", ");
        }
        message.append(names[i].as_str());
        proof {
            assert(parts.take(i + 1).drop_last() =~= parts.take(i as int));
            assert(parts.take(i + 1).last() == names@[i as int]@);
            if i == 0 {
                assert(parts.take(0) =~= Seq::<Seq<char>>::empty());
            }
        }
        i = i + 1;
    }
    message.append(QUERY_GUARD_TAIL);
    assert(parts.take(n as int) =~= parts);
    Err(message)
}

} // verus!
