//! The decisions behind the gRPC mirror messages: which field number the
//! `.pb.lock` gives each field, which wire type a scalar travels as, and
//! how a patch field is shaped. Rendering the prost structs from these is
//! left to the token layer.

use vstd::prelude::*;
use vstd::string::*;

use crate::ir::{Field, TypeArity, distinct_names};
use crate::text::{owned, str_is};

verus! {

/// The number under `field` in a `.pb.lock` message entry (its first
/// entry under that name).
pub open spec fn lock_get(numbers: Seq<(String, i32)>, field: Seq<char>) -> Option<i32>
    decreases numbers.len(),
{
    if numbers.len() == 0 {
        None
    } else if numbers[0].0@ == field {
        Some(numbers[0].1)
    } else {
        lock_get(numbers.drop_first(), field)
    }
}

/// Each field name occurs at most once among the entries of a `.pb.lock`
/// message: the entries form a map.
pub open spec fn distinct_keys(numbers: Seq<(String, i32)>) -> bool {
    forall|i: int, j: int|
        0 <= i < j < numbers.len() ==> #[trigger] numbers[i].0@ != #[trigger] numbers[j].0@
}

/// ``no `.pb.lock` entry for `<message>.<field>` ``.
pub open spec fn missing_entry(message: Seq<char>, field: Seq<char>) -> Seq<char> {
    "no `.pb.lock` entry for `"@ + message + "."@ + field + "`"@
}

/// The field number that the `.pb.lock` entry `numbers` of `message` gives
/// `field`, or the error that names the missing entry.
pub fn lock_number(numbers: &Vec<(String, i32)>, message: &str, field: &str) -> (r: Result<
    i32,
    String,
>)
    requires
        distinct_keys(numbers@),
    ensures
        match r {
            Ok(n) => lock_get(numbers@, field@) == Some(n),
            Err(m) => lock_get(numbers@, field@) is None && m@ == missing_entry(message@, field@),
        },
{
    let n = numbers.len();
    let mut i: usize = 0;
    assert(numbers@.skip(0) =~= numbers@);
    while i < n
        invariant
            n == numbers@.len(),
            i <= n,
            lock_get(numbers@, field@) == lock_get(numbers@.skip(i as int), field@),
        decreases n - i,
    {
        assert(numbers@.skip(i as int)[0] == numbers@[i as int]);
        if str_is(numbers[i].0.as_str(), field) {
            return Ok(numbers[i].1);
        }
        assert(numbers@.skip(i as int).drop_first() =~= numbers@.skip(i + 1));
        i = i + 1;
    }
    let mut m = owned("no `.pb.lock` entry for `");
    m.append(message);
    m.append(".");
    m.append(field);
    m.append("`");
    Err(m)
}

proof fn lemma_lock_get_absent(spare: Seq<(String, i32)>, field: Seq<char>)
    requires
        forall|i: int| 0 <= i < spare.len() ==> #[trigger] spare[i].0@ != field,
    ensures
        lock_get(spare, field) is None,
    decreases spare.len(),
{
    if spare.len() > 0 {
        lemma_lock_get_absent(spare.drop_first(), field);
    }
}

proof fn lemma_lock_get_spare(numbers: Seq<(String, i32)>, spare: Seq<(String, i32)>, field: Seq<char>)
    requires
        forall|i: int| 0 <= i < spare.len() ==> #[trigger] spare[i].0@ != field,
    ensures
        lock_get(numbers + spare, field) == lock_get(numbers, field),
    decreases numbers.len(),
{
    if numbers.len() == 0 {
        assert(numbers + spare =~= spare);
        lemma_lock_get_absent(spare, field);
    } else {
        lemma_lock_get_spare(numbers.drop_first(), spare, field);
        assert((numbers + spare).drop_first() =~= numbers.drop_first() + spare);
        assert((numbers + spare)[0] == numbers[0]);
    }
}

/// A `.pb.lock` entry may number more fields than a message has: spare
/// entries under names that are not among `fields` change no looked-up
/// number and no error.
pub proof fn law_spare_lock_entries_are_ignored(
    numbers: Seq<(String, i32)>,
    spare: Seq<(String, i32)>,
    message: Seq<char>,
    fields: Seq<Seq<char>>,
)
    requires
        forall|i: int| 0 <= i < spare.len() ==> !fields.contains(#[trigger] spare[i].0@),
    ensures
        lock_all(numbers + spare, message, fields) == lock_all(numbers, message, fields),
    decreases fields.len(),
{
    if fields.len() > 0 {
        assert forall|i: int| 0 <= i < spare.len() implies #[trigger] spare[i].0@ != fields[0] by {
            if spare[i].0@ == fields[0] {
                assert(fields.contains(spare[i].0@));
            }
        }
        lemma_lock_get_spare(numbers, spare, fields[0]);
        assert forall|i: int| 0 <= i < spare.len() implies !fields.drop_first().contains(
            #[trigger] spare[i].0@,
        ) by {
            if fields.drop_first().contains(spare[i].0@) {
                let k = choose|k: int|
                    0 <= k < fields.drop_first().len() && fields.drop_first()[k] == spare[i].0@;
                assert(fields[k + 1] == spare[i].0@);
                assert(fields.contains(spare[i].0@));
            }
        }
        law_spare_lock_entries_are_ignored(numbers, spare, message, fields.drop_first());
    }
}

/// The numbers of `fields`, in order, or the error for the first one
/// missing.
pub open spec fn lock_all(numbers: Seq<(String, i32)>, message: Seq<char>, fields: Seq<Seq<char>>) -> Result<
    Seq<i32>,
    Seq<char>,
>
    decreases fields.len(),
{
    if fields.len() == 0 {
        Ok(Seq::empty())
    } else {
        match lock_get(numbers, fields[0]) {
            None => Err(missing_entry(message, fields[0])),
            Some(n) => match lock_all(numbers, message, fields.drop_first()) {
                Ok(rest) => Ok(seq![n] + rest),
                Err(m) => Err(m),
            },
        }
    }
}

/// The values of a slice of names.
pub open spec fn names_view(fields: Seq<&str>) -> Seq<Seq<char>> {
    fields.map_values(|f: &str| f@)
}

/// The numbers of `fields` of `message`, looked up in order; the first
/// missing one is the error.
pub fn lock_numbers(numbers: &Vec<(String, i32)>, message: &str, fields: &[&str]) -> (r: Result<
    Vec<i32>,
    String,
>)
    requires
        distinct_keys(numbers@),
    ensures
        match r {
            Ok(v) => lock_all(numbers@, message@, names_view(fields@)) == Ok::<Seq<i32>, Seq<char>>(v@),
            Err(m) => lock_all(numbers@, message@, names_view(fields@)) == Err::<Seq<i32>, Seq<char>>(m@),
        },
{
    let mut out: Vec<i32> = Vec::new();
    let n = fields.len();
    let mut i: usize = 0;
    let ghost names = names_view(fields@);
    assert(names.skip(0) =~= names);
    while i < n
        invariant
            n == fields@.len(),
            distinct_keys(numbers@),
            names == names_view(fields@),
            i <= n,
            lock_all(numbers@, message@, names) == match lock_all(numbers@, message@, names.skip(i as int)) {
                Ok(rest) => Ok::<Seq<i32>, Seq<char>>(out@ + rest),
                Err(m) => Err(m),
            },
        decreases n - i,
    {
        assert(names.skip(i as int)[0] == fields@[i as int]@);
        assert(names.skip(i as int).drop_first() =~= names.skip(i + 1));
        let number = match lock_number(numbers, message, fields[i]) {
            Ok(number) => number,
            Err(m) => return Err(m),
        };
        let ghost before = out@;
        out.push(number);
        proof {
            match lock_all(numbers@, message@, names.skip(i + 1)) {
                Ok(rest) => {
                    assert(before + (seq![number] + rest) =~= out@ + rest);
                },
                Err(m) => {},
            }
        }
        i = i + 1;
    }
    assert(names.skip(n as int) =~= Seq::<Seq<char>>::empty());
    assert(out@ + Seq::<i32>::empty() =~= out@);
    Ok(out)
}

/// How a scalar's value travels on the prost side.
#[derive(Debug, Clone, Copy, PartialEq, Eq, Structural)]
pub enum WireType {
    /// `String`, `#[prost(string)]`.
    String,
    /// `i64`, `#[prost(int64)]`.
    Int64,
    /// `f64`, `#[prost(double)]`.
    Double,
    /// `bool`, `#[prost(bool)]`.
    Bool,
    /// `Vec<u8>`, `#[prost(bytes = "vec")]`.
    Bytes,
    /// `prost_types::Timestamp`, `#[prost(message)]`.
    Timestamp,
}

/// How a scalar converts between its domain value and its wire value.
#[derive(Debug, Clone, Copy, PartialEq, Eq, Structural)]
pub enum WireConversion {
    /// The same value on both sides.
    Identity,
    /// A `Uuid`: `to_string` out, parsed back in.
    Uuid,
    /// A `Decimal`: `to_string` out, parsed back in.
    Decimal,
    /// A `Json` value: encoded to bytes out, decoded back in.
    Json,
    /// A `DateTime`: seconds and nanos out, rebuilt in.
    DateTime,
}

/// A scalar's wire representation.
#[derive(Debug, Clone, Copy, PartialEq, Eq, Structural)]
pub struct ScalarWire {
    pub wire: WireType,
    pub conversion: WireConversion,
}

/// The scalar wire table.
pub open spec fn spec_scalar_wire(name: Seq<char>) -> Option<ScalarWire> {
    if name == "String"@ || name == "Cuid"@ {
        Some(ScalarWire { wire: WireType::String, conversion: WireConversion::Identity })
    } else if name == "Uuid"@ {
        Some(ScalarWire { wire: WireType::String, conversion: WireConversion::Uuid })
    } else if name == "Decimal"@ {
        Some(ScalarWire { wire: WireType::String, conversion: WireConversion::Decimal })
    } else if name == "Int"@ {
        Some(ScalarWire { wire: WireType::Int64, conversion: WireConversion::Identity })
    } else if name == "Float"@ {
        Some(ScalarWire { wire: WireType::Double, conversion: WireConversion::Identity })
    } else if name == "Boolean"@ {
        Some(ScalarWire { wire: WireType::Bool, conversion: WireConversion::Identity })
    } else if name == "Bytes"@ {
        Some(ScalarWire { wire: WireType::Bytes, conversion: WireConversion::Identity })
    } else if name == "Json"@ {
        Some(ScalarWire { wire: WireType::Bytes, conversion: WireConversion::Json })
    } else if name == "DateTime"@ {
        Some(ScalarWire { wire: WireType::Timestamp, conversion: WireConversion::DateTime })
    } else {
        None
    }
}

proof fn lemma_wire_names_differ()
    ensures
        "String"@ != "Cuid"@,
        "Uuid"@ != "String"@,
        "Uuid"@ != "Cuid"@,
        "Decimal"@ != "String"@,
        "Decimal"@ != "Cuid"@,
        "Decimal"@ != "Uuid"@,
        "Int"@ != "String"@,
        "Int"@ != "Cuid"@,
        "Int"@ != "Uuid"@,
        "Int"@ != "Decimal"@,
        "Float"@ != "String"@,
        "Float"@ != "Cuid"@,
        "Float"@ != "Uuid"@,
        "Float"@ != "Decimal"@,
        "Float"@ != "Int"@,
        "Boolean"@ != "String"@,
        "Boolean"@ != "Cuid"@,
        "Boolean"@ != "Uuid"@,
        "Boolean"@ != "Decimal"@,
        "Boolean"@ != "Int"@,
        "Boolean"@ != "Float"@,
        "Bytes"@ != "String"@,
        "Bytes"@ != "Cuid"@,
        "Bytes"@ != "Uuid"@,
        "Bytes"@ != "Decimal"@,
        "Bytes"@ != "Int"@,
        "Bytes"@ != "Float"@,
        "Bytes"@ != "Boolean"@,
        "Json"@ != "String"@,
        "Json"@ != "Cuid"@,
        "Json"@ != "Uuid"@,
        "Json"@ != "Decimal"@,
        "Json"@ != "Int"@,
        "Json"@ != "Float"@,
        "Json"@ != "Boolean"@,
        "Json"@ != "Bytes"@,
        "DateTime"@ != "String"@,
        "DateTime"@ != "Cuid"@,
        "DateTime"@ != "Uuid"@,
        "DateTime"@ != "Decimal"@,
        "DateTime"@ != "Int"@,
        "DateTime"@ != "Float"@,
        "DateTime"@ != "Boolean"@,
        "DateTime"@ != "Bytes"@,
        "DateTime"@ != "Json"@,
{
    reveal_strlit("String");
    reveal_strlit("Cuid");
    reveal_strlit("Uuid");
    reveal_strlit("Decimal");
    reveal_strlit("Int");
    reveal_strlit("Float");
    reveal_strlit("Boolean");
    reveal_strlit("Bytes");
    reveal_strlit("Json");
    reveal_strlit("DateTime");
    assert("String"@[0] != "Cuid"@[0]);
    assert("Uuid"@[0] != "String"@[0] && "Uuid"@[0] != "Cuid"@[0]);
    assert("Decimal"@[1] != "String"@[1] && "Decimal"@[0] != "Cuid"@[0] && "Decimal"@[0]
        != "Uuid"@[0]);
    assert("Int"@[0] != "String"@[0] && "Int"@[0] != "Cuid"@[0] && "Int"@[0] != "Uuid"@[0]
        && "Int"@[0] != "Decimal"@[0]);
    assert("Float"@[0] != "String"@[0] && "Float"@[0] != "Cuid"@[0] && "Float"@[0] != "Uuid"@[0]
        && "Float"@[0] != "Decimal"@[0] && "Float"@[0] != "Int"@[0]);
    assert("Boolean"@[0] != "String"@[0] && "Boolean"@[0] != "Cuid"@[0] && "Boolean"@[0]
        != "Uuid"@[0] && "Boolean"@[0] != "Decimal"@[0] && "Boolean"@[0] != "Int"@[0]
        && "Boolean"@[0] != "Float"@[0]);
    assert("Bytes"@[0] != "String"@[0] && "Bytes"@[0] != "Cuid"@[0] && "Bytes"@[0] != "Uuid"@[0]
        && "Bytes"@[0] != "Decimal"@[0] && "Bytes"@[0] != "Int"@[0] && "Bytes"@[0] != "Float"@[0]
        && "Bytes"@[1] != "Boolean"@[1]);
    assert("Json"@[0] != "String"@[0] && "Json"@[0] != "Cuid"@[0] && "Json"@[0] != "Uuid"@[0]
        && "Json"@[0] != "Decimal"@[0] && "Json"@[0] != "Int"@[0] && "Json"@[0] != "Float"@[0]
        && "Json"@[0] != "Boolean"@[0] && "Json"@[0] != "Bytes"@[0]);
    assert("DateTime"@[0] != "String"@[0] && "DateTime"@[0] != "Cuid"@[0] && "DateTime"@[0]
        != "Uuid"@[0] && "DateTime"@[1] != "Decimal"@[1] && "DateTime"@[0] != "Int"@[0]
        && "DateTime"@[0] != "Float"@[0] && "DateTime"@[0] != "Boolean"@[0] && "DateTime"@[0]
        != "Bytes"@[0] && "DateTime"@[0] != "Json"@[0]);
}

/// How each scalar travels over gRPC. Types whose domain value is exactly
/// a prost scalar go as is: `String`/`Cuid` as `string`, `Int` as `int64`,
/// `Float` as `double`, `Boolean` as `bool`, `Bytes` as `bytes`. The rest
/// are converted: a `Uuid` or a `Decimal` goes as its string form (neither
/// fits a number losslessly), `Json` as encoded bytes, `DateTime` as a
/// `Timestamp`.
pub proof fn law_scalar_wire_table()
    ensures
        spec_scalar_wire("String"@) == Some(ScalarWire { wire: WireType::String, conversion: WireConversion::Identity }),
        spec_scalar_wire("Cuid"@) == Some(ScalarWire { wire: WireType::String, conversion: WireConversion::Identity }),
        spec_scalar_wire("Uuid"@) == Some(ScalarWire { wire: WireType::String, conversion: WireConversion::Uuid }),
        spec_scalar_wire("Decimal"@) == Some(ScalarWire { wire: WireType::String, conversion: WireConversion::Decimal }),
        spec_scalar_wire("Int"@) == Some(ScalarWire { wire: WireType::Int64, conversion: WireConversion::Identity }),
        spec_scalar_wire("Float"@) == Some(ScalarWire { wire: WireType::Double, conversion: WireConversion::Identity }),
        spec_scalar_wire("Boolean"@) == Some(ScalarWire { wire: WireType::Bool, conversion: WireConversion::Identity }),
        spec_scalar_wire("Bytes"@) == Some(ScalarWire { wire: WireType::Bytes, conversion: WireConversion::Identity }),
        spec_scalar_wire("Json"@) == Some(ScalarWire { wire: WireType::Bytes, conversion: WireConversion::Json }),
        spec_scalar_wire("DateTime"@) == Some(ScalarWire { wire: WireType::Timestamp, conversion: WireConversion::DateTime }),
{
    lemma_wire_names_differ();
}

/// A name has a scalar wire type exactly when it is one of the scalars
/// `String`, `Cuid`, `Uuid`, `Decimal`, `Int`, `Float`, `Boolean`,
/// `Bytes`, `Json` and `DateTime`; any other name is an enum or a message.
pub proof fn law_scalar_wire_names(name: Seq<char>)
    ensures
        spec_scalar_wire(name) is Some <==> set![
            "String"@,
            "Cuid"@,
            "Uuid"@,
            "Decimal"@,
            "Int"@,
            "Float"@,
            "Boolean"@,
            "Bytes"@,
            "Json"@,
            "DateTime"@,
        ].contains(name),
{
}

/// A value that is converted on its way to the wire is never carried as a
/// number or a bool, and a value carried as a string is converted exactly
/// when its domain type is not a string: for every name, an `int64`,
/// `double` or `bool` wire value is the domain value itself, and a
/// `string` wire value is converted unless the name is `String` or `Cuid`.
pub proof fn law_wire_conversions(name: Seq<char>)
    ensures
        spec_scalar_wire(name) matches Some(w) ==> {
            &&& (w.wire == WireType::Int64 || w.wire == WireType::Double || w.wire == WireType::Bool)
                ==> w.conversion == WireConversion::Identity
            &&& w.wire == WireType::String ==> (w.conversion == WireConversion::Identity <==> (name
                == "String"@ || name == "Cuid"@))
        },
{
    lemma_wire_names_differ();
}

/// The wire representation of the scalar `name`; `None` for a name that
/// is an enum or a message reference instead.
pub fn scalar_wire(name: &str) -> (r: Option<ScalarWire>)
    ensures
        r == spec_scalar_wire(name@),
{
    if str_is(name, "String") || str_is(name, "Cuid") {
        Some(ScalarWire { wire: WireType::String, conversion: WireConversion::Identity })
    } else if str_is(name, "Uuid") {
        Some(ScalarWire { wire: WireType::String, conversion: WireConversion::Uuid })
    } else if str_is(name, "Decimal") {
        Some(ScalarWire { wire: WireType::String, conversion: WireConversion::Decimal })
    } else if str_is(name, "Int") {
        Some(ScalarWire { wire: WireType::Int64, conversion: WireConversion::Identity })
    } else if str_is(name, "Float") {
        Some(ScalarWire { wire: WireType::Double, conversion: WireConversion::Identity })
    } else if str_is(name, "Boolean") {
        Some(ScalarWire { wire: WireType::Bool, conversion: WireConversion::Identity })
    } else if str_is(name, "Bytes") {
        Some(ScalarWire { wire: WireType::Bytes, conversion: WireConversion::Identity })
    } else if str_is(name, "Json") {
        Some(ScalarWire { wire: WireType::Bytes, conversion: WireConversion::Json })
    } else if str_is(name, "DateTime") {
        Some(ScalarWire { wire: WireType::Timestamp, conversion: WireConversion::DateTime })
    } else {
        None
    }
}

/// ``primary key `<name>` has a non-scalar type; unsupported for gRPC``.
pub open spec fn non_scalar_pk(name: Seq<char>) -> Seq<char> {
    "primary key `"@ + name + "` has a non-scalar type; unsupported for gRPC"@
}

/// The wire representation of a primary key, which must be a scalar.
pub fn pk_wire(pk: &Field) -> (r: Result<ScalarWire, String>)
    ensures
        match r {
            Ok(w) => spec_scalar_wire(pk.ty.name@) == Some(w),
            Err(m) => spec_scalar_wire(pk.ty.name@) is None && m@ == non_scalar_pk(pk.name@),
        },
{
    match scalar_wire(pk.ty.name.as_str()) {
        Some(w) => Ok(w),
        None => {
            let mut m = owned("primary key `");
            m.append(pk.name.as_str());
            m.append("` has a non-scalar type; unsupported for gRPC");
            Err(m)
        },
    }
}

/// The numbered id field of `<Model>RpcPkInput`, and the wire type of the
/// primary key it carries.
pub open spec fn spec_rpc_pk_input(model: Seq<char>, pk: Field, numbers: Seq<(String, i32)>) -> Result<
    (i32, ScalarWire),
    Seq<char>,
> {
    let message = model + "RpcPkInput"@;
    match lock_get(numbers, "id"@) {
        None => Err(missing_entry(message, "id"@)),
        Some(n) => match spec_scalar_wire(pk.ty.name@) {
            None => Err(non_scalar_pk(pk.name@)),
            Some(w) => Ok((n, w)),
        },
    }
}

pub fn rpc_pk_input(model_name: &str, pk: &Field, numbers: &Vec<(String, i32)>) -> (r: Result<
    (i32, ScalarWire),
    String,
>)
    requires
        distinct_keys(numbers@),
    ensures
        match r {
            Ok(p) => spec_rpc_pk_input(model_name@, *pk, numbers@) == Ok::<(i32, ScalarWire), Seq<char>>(p),
            Err(m) => spec_rpc_pk_input(model_name@, *pk, numbers@) == Err::<(i32, ScalarWire), Seq<char>>(m@),
        },
{
    let mut message_name = owned(model_name);
    message_name.append("RpcPkInput");
    let number = match lock_number(numbers, message_name.as_str(), "id") {
        Ok(n) => n,
        Err(m) => return Err(m),
    };
    let wire = match pk_wire(pk) {
        Ok(w) => w,
        Err(m) => return Err(m),
    };
    Ok((number, wire))
}

/// The numbered `id` and `patch` fields of `<Model>RpcUpdateInput`, and
/// the wire type of the primary key.
pub open spec fn spec_rpc_update_input(model: Seq<char>, pk: Field, numbers: Seq<(String, i32)>) -> Result<
    (i32, i32, ScalarWire),
    Seq<char>,
> {
    let message = model + "RpcUpdateInput"@;
    match lock_get(numbers, "id"@) {
        None => Err(missing_entry(message, "id"@)),
        Some(id) => match lock_get(numbers, "patch"@) {
            None => Err(missing_entry(message, "patch"@)),
            Some(patch) => match spec_scalar_wire(pk.ty.name@) {
                None => Err(non_scalar_pk(pk.name@)),
                Some(w) => Ok((id, patch, w)),
            },
        },
    }
}

pub fn rpc_update_input(model_name: &str, pk: &Field, numbers: &Vec<(String, i32)>) -> (r: Result<
    (i32, i32, ScalarWire),
    String,
>)
    requires
        distinct_keys(numbers@),
    ensures
        match r {
            Ok(p) => spec_rpc_update_input(model_name@, *pk, numbers@) == Ok::<(i32, i32, ScalarWire), Seq<char>>(p),
            Err(m) => spec_rpc_update_input(model_name@, *pk, numbers@) == Err::<(i32, i32, ScalarWire), Seq<char>>(m@),
        },
{
    let mut message_name = owned(model_name);
    message_name.append("RpcUpdateInput");
    let id = match lock_number(numbers, message_name.as_str(), "id") {
        Ok(n) => n,
        Err(m) => return Err(m),
    };
    let patch = match lock_number(numbers, message_name.as_str(), "patch") {
        Ok(n) => n,
        Err(m) => return Err(m),
    };
    let wire = match pk_wire(pk) {
        Ok(w) => w,
        Err(m) => return Err(m),
    };
    Ok((id, patch, wire))
}

/// What a patch field of `Update<Model>Input` carries on the wire.
#[derive(Debug, Clone, Copy, PartialEq, Eq, Structural)]
pub enum PatchKind {
    /// A scalar, by its wire representation.
    Scalar(ScalarWire),
    /// An enum, as `int32`.
    Enum,
    /// A `type` reference, as a boxed message.
    Message,
}

/// How a patch field's presence maps onto the domain struct.
#[derive(Debug, Clone, Copy, PartialEq, Eq, Structural)]
pub enum PatchShape {
    /// `repeated` on the wire; an empty list decodes as "untouched".
    Repeated,
    /// `optional` on the wire, `Option<Option<T>>` in the domain: presence
    /// wraps nullability, and an explicit clear is never produced.
    PresenceOverNullable,
    /// `optional` on the wire, `Option<T>` in the domain: presence only.
    Presence,
}

/// One field of the `Update<Model>Input` mirror.
#[derive(Debug, PartialEq, Eq)]
pub struct PatchFieldPlan {
    pub name: String,
    pub ty_name: String,
    pub number: i32,
    pub kind: PatchKind,
    pub shape: PatchShape,
}

/// The names of `enums`.
pub open spec fn enum_set(enums: Seq<String>) -> Seq<Seq<char>> {
    enums.map_values(|e: String| e@)
}

/// The kind of a patch field of type `ty_name`: a scalar first, then an
/// enum, else a message reference.
pub open spec fn spec_patch_kind(ty_name: Seq<char>, enums: Seq<String>) -> PatchKind {
    match spec_scalar_wire(ty_name) {
        Some(w) => PatchKind::Scalar(w),
        None => if enum_set(enums).contains(ty_name) {
            PatchKind::Enum
        } else {
            PatchKind::Message
        },
    }
}

/// The shape that a field of `arity` takes in a patch.
pub open spec fn spec_patch_shape(arity: TypeArity) -> PatchShape {
    match arity {
        TypeArity::List => PatchShape::Repeated,
        TypeArity::Optional => PatchShape::PresenceOverNullable,
        TypeArity::Required => PatchShape::Presence,
    }
}

/// `plan` is the mirror field of `field`, numbered `number`.
pub open spec fn plans_field(plan: PatchFieldPlan, field: Field, number: i32, enums: Seq<String>) -> bool {
    &&& plan.name@ == field.name@
    &&& plan.ty_name@ == field.ty.name@
    &&& plan.number == number
    &&& plan.kind == spec_patch_kind(field.ty.name@, enums)
    &&& plan.shape == spec_patch_shape(field.ty.arity)
}

/// The field number of each of `fields`, or the error naming the first
/// one that the lock does not number.
pub open spec fn patch_numbers(message: Seq<char>, fields: Seq<Field>, numbers: Seq<(String, i32)>) -> Result<
    Seq<i32>,
    Seq<char>,
> {
    lock_all(numbers, message, fields.map_values(|f: Field| f.name@))
}

fn is_enum_name(enums: &Vec<String>, name: &str) -> (b: bool)
    ensures
        b == enum_set(enums@).contains(name@),
{
    let n = enums.len();
    let mut i: usize = 0;
    while i < n
        invariant
            n == enums@.len(),
            i <= n,
            forall|j: int| 0 <= j < i ==> #[trigger] enums@[j]@ != name@,
        decreases n - i,
    {
        if str_is(enums[i].as_str(), name) {
            assert(enum_set(enums@)[i as int] == name@);
            return true;
        }
        i = i + 1;
    }
    assert(!enum_set(enums@).contains(name@)) by {
        if enum_set(enums@).contains(name@) {
            let k = choose|k: int| 0 <= k < enum_set(enums@).len() && enum_set(enums@)[k] == name@;
            assert(enums@[k]@ == name@);
        }
    }
    false
}

/// The mirror fields of `Update<Model>Input`: one per domain field, in
/// order, each numbered by its `.pb.lock` entry. The lock may hold spare
/// entries; a domain field it does not number is an error, not a panic.
pub fn plan_update_message(
    message_name: &str,
    fields: &Vec<Field>,
    numbers: &Vec<(String, i32)>,
    enum_names: &Vec<String>,
) -> (r: Result<Vec<PatchFieldPlan>, String>)
    requires
        distinct_keys(numbers@),
        distinct_names(enum_names@),
    ensures
        match r {
            Ok(plans) => patch_numbers(message_name@, fields@, numbers@) matches Ok(ns) && plans@.len()
                == fields@.len() && forall|i: int|
                0 <= i < fields@.len() ==> #[trigger] plans_field(
                    plans@[i],
                    fields@[i],
                    ns[i],
                    enum_names@,
                ),
            Err(m) => patch_numbers(message_name@, fields@, numbers@) == Err::<Seq<i32>, Seq<char>>(m@),
        },
{
    let ghost names = fields@.map_values(|f: Field| f.name@);
    let mut plans: Vec<PatchFieldPlan> = Vec::new();
    let ghost mut ns: Seq<i32> = Seq::empty();
    let n = fields.len();
    let mut i: usize = 0;
    assert(names.skip(0) =~= names);
    while i < n
        invariant
            n == fields@.len(),
            distinct_keys(numbers@),
            names == fields@.map_values(|f: Field| f.name@),
            i <= n,
            plans@.len() == i,
            ns.len() == i,
            forall|j: int| 0 <= j < i ==> #[trigger] plans_field(plans@[j], fields@[j], ns[j], enum_names@),
            lock_all(numbers@, message_name@, names) == match lock_all(numbers@, message_name@, names.skip(i as int)) {
                Ok(rest) => Ok::<Seq<i32>, Seq<char>>(ns + rest),
                Err(m) => Err(m),
            },
        decreases n - i,
    {
        let field = &fields[i];
        assert(names.skip(i as int)[0] == field.name@);
        assert(names.skip(i as int).drop_first() =~= names.skip(i + 1));
        let number = match lock_number(numbers, message_name, field.name.as_str()) {
            Ok(number) => number,
            Err(m) => return Err(m),
        };
        let kind = match scalar_wire(field.ty.name.as_str()) {
            Some(w) => PatchKind::Scalar(w),
            None => if is_enum_name(enum_names, field.ty.name.as_str()) {
                PatchKind::Enum
            } else {
                PatchKind::Message
            },
        };
        let shape = match field.ty.arity {
            TypeArity::List => PatchShape::Repeated,
            TypeArity::Optional => PatchShape::PresenceOverNullable,
            TypeArity::Required => PatchShape::Presence,
        };
        let ghost before = ns;
        plans.push(
            PatchFieldPlan {
                name: field.name.clone(),
                ty_name: field.ty.name.clone(),
                number,
                kind,
                shape,
            },
        );
        proof {
            ns = ns.push(number);
            match lock_all(numbers@, message_name@, names.skip(i + 1)) {
                Ok(rest) => {
                    assert(before + (seq![number] + rest) =~= ns + rest);
                },
                Err(m) => {},
            }
            assert forall|j: int| 0 <= j < i + 1 implies #[trigger] plans_field(
                plans@[j],
                fields@[j],
                ns[j],
                enum_names@,
            ) by {
                if j < i {
                    assert(ns[j] == before[j]);
                }
            }
        }
        i = i + 1;
    }
    assert(names.skip(n as int) =~= Seq::<Seq<char>>::empty());
    assert(ns + Seq::<i32>::empty() =~= ns);
    Ok(plans)
}

/// The `values` number of the schema-global `StringList`.
pub fn string_list_number(numbers: &Vec<(String, i32)>) -> (r: Result<i32, String>)
    requires
        distinct_keys(numbers@),
    ensures
        match r {
            Ok(n) => lock_get(numbers@, "values"@) == Some(n),
            Err(m) => lock_get(numbers@, "values"@) is None && m@ == missing_entry(
                "StringList"@,
                "values"@,
            ),
        },
{
    lock_number(numbers, "StringList", "values")
}

/// The `key` and `value` numbers of the schema-global `RpcListPredicate`.
pub fn rpc_list_predicate_numbers(numbers: &Vec<(String, i32)>) -> (r: Result<Vec<i32>, String>)
    requires
        distinct_keys(numbers@),
    ensures
        match r {
            Ok(v) => lock_all(numbers@, "RpcListPredicate"@, seq!["key"@, "value"@]) == Ok::<
                Seq<i32>,
                Seq<char>,
            >(v@),
            Err(m) => lock_all(numbers@, "RpcListPredicate"@, seq!["key"@, "value"@]) == Err::<
                Seq<i32>,
                Seq<char>,
            >(m@),
        },
{
    let fields = ["key", "value"];
    assert(names_view(fields@) =~= seq!["key"@, "value"@]);
    lock_numbers(numbers, "RpcListPredicate", &fields)
}

/// The four field numbers of the schema-global `PageInfo`.
pub open spec fn page_info_fields() -> Seq<Seq<char>> {
    seq!["limit"@, "offset"@, "has_next_page"@, "has_previous_page"@]
}

pub fn page_info_numbers(numbers: &Vec<(String, i32)>) -> (r: Result<Vec<i32>, String>)
    requires
        distinct_keys(numbers@),
    ensures
        match r {
            Ok(v) => lock_all(numbers@, "PageInfo"@, page_info_fields()) == Ok::<Seq<i32>, Seq<char>>(
                v@,
            ),
            Err(m) => lock_all(numbers@, "PageInfo"@, page_info_fields()) == Err::<
                Seq<i32>,
                Seq<char>,
            >(m@),
        },
{
    let fields = ["limit", "offset", "has_next_page", "has_previous_page"];
    assert(names_view(fields@) =~= page_info_fields());
    lock_numbers(numbers, "PageInfo", &fields)
}

/// The nine fields of `<Model>RpcListInput`, which mirror the RPC
/// binding's list input one to one.
pub open spec fn rpc_list_input_fields() -> Seq<Seq<char>> {
    seq![
        "limit"@,
        "offset"@,
        "fields"@,
        "include"@,
        "include_fields"@,
        "sort"@,
        "where_expr"@,
        "or"@,
        "filters"@,
    ]
}

pub fn rpc_list_input_numbers(model_name: &str, numbers: &Vec<(String, i32)>) -> (r: Result<
    Vec<i32>,
    String,
>)
    requires
        distinct_keys(numbers@),
    ensures
        match r {
            Ok(v) => lock_all(numbers@, model_name@ + "RpcListInput"@, rpc_list_input_fields())
                == Ok::<Seq<i32>, Seq<char>>(v@),
            Err(m) => lock_all(numbers@, model_name@ + "RpcListInput"@, rpc_list_input_fields())
                == Err::<Seq<i32>, Seq<char>>(m@),
        },
{
    let mut message_name = owned(model_name);
    message_name.append("RpcListInput");
    let fields = [
        "limit",
        "offset",
        "fields",
        "include",
        "include_fields",
        "sort",
        "where_expr",
        "or",
        "filters",
    ];
    assert(names_view(fields@) =~= rpc_list_input_fields());
    lock_numbers(numbers, message_name.as_str(), &fields)
}

/// The three fields of `PageOf<Model>`.
pub open spec fn page_of_fields() -> Seq<Seq<char>> {
    seq!["items"@, "total_count"@, "page_info"@]
}

pub fn page_of_numbers(model_name: &str, numbers: &Vec<(String, i32)>) -> (r: Result<
    Vec<i32>,
    String,
>)
    requires
        distinct_keys(numbers@),
    ensures
        match r {
            Ok(v) => lock_all(numbers@, "PageOf"@ + model_name@, page_of_fields()) == Ok::<
                Seq<i32>,
                Seq<char>,
            >(v@),
            Err(m) => lock_all(numbers@, "PageOf"@ + model_name@, page_of_fields()) == Err::<
                Seq<i32>,
                Seq<char>,
            >(m@),
        },
{
    let mut message_name = owned("PageOf");
    message_name.append(model_name);
    let fields = ["items", "total_count", "page_info"];
    assert(names_view(fields@) =~= page_of_fields());
    lock_numbers(numbers, message_name.as_str(), &fields)
}

} // verus!
