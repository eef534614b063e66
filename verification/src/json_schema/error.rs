//! Typed failures of the `.cstack` → JSON Schema generator.
//!
//! Every failure names the `.cstack` type that caused it and where that
//! type was reached from, so that it can become an actionable compile
//! error. There is deliberately no variant that degrades to a permissive
//! `{}` schema: a schema that accepts anything tells an agent nothing.

use vstd::prelude::*;

use crate::text::owned;

verus! {

/// The mathematical value of a [`JsonSchemaError`].
pub enum SchemaError {
    NoFaithfulMapping { ty_name: Seq<char>, reason: Seq<char>, at: Seq<Seq<char>> },
    UnknownType { ty_name: Seq<char>, at: Seq<Seq<char>> },
    MissingDecimalBackend { at: Seq<Seq<char>> },
}

#[derive(Debug, PartialEq, Eq)]
pub enum JsonSchemaError {
    /// The type reached procedure I/O, but no JSON Schema describes its
    /// serde wire shape both faithfully and assertively.
    NoFaithfulMapping { ty_name: String, reason: String, at: Vec<String> },
    /// A name that is neither a built-in scalar nor a `type`, `enum` or
    /// `model` of the schema.
    UnknownType { ty_name: String, at: Vec<String> },
    /// A `Decimal` was reached without a `decimal = ...` backend; the two
    /// backends serialize differently, so neither is guessed.
    MissingDecimalBackend { at: Vec<String> },
}

/// The values of a sequence of strings.
pub open spec fn strings_view(v: Seq<String>) -> Seq<Seq<char>> {
    v.map_values(|s: String| s@)
}

impl View for JsonSchemaError {
    type V = SchemaError;

    open spec fn view(&self) -> SchemaError {
        match self {
            JsonSchemaError::NoFaithfulMapping { ty_name, reason, at } => {
                SchemaError::NoFaithfulMapping {
                    ty_name: ty_name@,
                    reason: reason@,
                    at: strings_view(at@),
                }
            },
            JsonSchemaError::UnknownType { ty_name, at } => SchemaError::UnknownType {
                ty_name: ty_name@,
                at: strings_view(at@),
            },
            JsonSchemaError::MissingDecimalBackend { at } => SchemaError::MissingDecimalBackend {
                at: strings_view(at@),
            },
        }
    }
}

/// Where the failure was reached from, outermost step first.
pub open spec fn error_at(e: SchemaError) -> Seq<Seq<char>> {
    match e {
        SchemaError::NoFaithfulMapping { at, .. } => at,
        SchemaError::UnknownType { at, .. } => at,
        SchemaError::MissingDecimalBackend { at } => at,
    }
}

/// `e` with `step` prepended to where it was reached from.
pub open spec fn within(e: SchemaError, step: Seq<char>) -> SchemaError {
    match e {
        SchemaError::NoFaithfulMapping { ty_name, reason, at } => {
            SchemaError::NoFaithfulMapping { ty_name, reason, at: seq![step] + at }
        },
        SchemaError::UnknownType { ty_name, at } => SchemaError::UnknownType {
            ty_name,
            at: seq![step] + at,
        },
        SchemaError::MissingDecimalBackend { at } => SchemaError::MissingDecimalBackend {
            at: seq![step] + at,
        },
    }
}

/// `parts` joined by `sep`.
pub open spec fn join(parts: Seq<Seq<char>>, sep: Seq<char>) -> Seq<char>
    decreases parts.len(),
{
    if parts.len() == 0 {
        Seq::empty()
    } else if parts.len() == 1 {
        parts[0]
    } else {
        join(parts.drop_last(), sep) + sep + parts.last()
    }
}

/// The message before the location suffix.
pub open spec fn error_headline(e: SchemaError) -> Seq<char> {
    match e {
        SchemaError::NoFaithfulMapping { ty_name, reason, .. } => "`"@ + ty_name
            + "` has no faithful JSON Schema mapping: "@ + reason,
        SchemaError::UnknownType { ty_name, .. } => "`"@ + ty_name
            + "` is not a type the JSON Schema generator can resolve"@,
        SchemaError::MissingDecimalBackend { .. } => MISSING_DECIMAL_MESSAGE@,
    }
}

/// The whole message: the headline, then ` (at a → b → c)` when the
/// failure has a location.
pub open spec fn error_message(e: SchemaError) -> Seq<char> {
    if error_at(e).len() == 0 {
        error_headline(e)
    } else {
        error_headline(e) + " (at "@ + join(error_at(e), " → "@) + ")"@
    }
}

pub const MISSING_DECIMAL_MESSAGE: &'static str = "`Decimal` needs a `decimal = RustDecimal | BigDecimal` argument to pick its JSON Schema, because the two backends serialize differently";

impl JsonSchemaError {
    /// Prepends one step of "where was this reached from" context. Called
    /// on the way back up the recursion, so the outermost step ends up
    /// first.
    pub fn within(self, step: String) -> (r: Self)
        ensures
            r@ == within(self@, step@),
    {
        match self {
            JsonSchemaError::NoFaithfulMapping { ty_name, reason, mut at } => {
                let ghost before = at@;
                at.insert(0, step);
                assert(strings_view(at@) =~= seq![step@] + strings_view(before));
                let r = JsonSchemaError::NoFaithfulMapping { ty_name, reason, at };
                assert(r@ == within(self@, step@));
                r
            },
            JsonSchemaError::UnknownType { ty_name, mut at } => {
                let ghost before = at@;
                at.insert(0, step);
                assert(strings_view(at@) =~= seq![step@] + strings_view(before));
                let r = JsonSchemaError::UnknownType { ty_name, at };
                assert(r@ == within(self@, step@));
                r
            },
            JsonSchemaError::MissingDecimalBackend { mut at } => {
                let ghost before = at@;
                at.insert(0, step);
                assert(strings_view(at@) =~= seq![step@] + strings_view(before));
                let r = JsonSchemaError::MissingDecimalBackend { at };
                assert(r@ == within(self@, step@));
                r
            },
        }
    }

    /// Where the failure was reached from.
    pub fn at(&self) -> (r: &Vec<String>)
        ensures
            strings_view(r@) == error_at(self@),
    {
        match self {
            JsonSchemaError::NoFaithfulMapping { at, .. } => at,
            JsonSchemaError::UnknownType { at, .. } => at,
            JsonSchemaError::MissingDecimalBackend { at } => at,
        }
    }

    /// The human-readable message: what failed and where it was reached.
    pub fn to_string(&self) -> (s: String)
        ensures
            s@ == error_message(self@),
    {
        let mut message = match self {
            JsonSchemaError::NoFaithfulMapping { ty_name, reason, .. } => {
                let mut m = owned("`");
                m.append(ty_name.as_str());
                m.append("` has no faithful JSON Schema mapping: ");
                m.append(reason.as_str());
                m
            },
            JsonSchemaError::UnknownType { ty_name, .. } => {
                let mut m = owned("`");
                m.append(ty_name.as_str());
                m.append("` is not a type the JSON Schema generator can resolve");
                m
            },
            JsonSchemaError::MissingDecimalBackend { .. } => owned(MISSING_DECIMAL_MESSAGE),
        };
        let at = self.at();
        let n = at.len();
        if n == 0 {
            return message;
        }
        message.append(" (at ");
        let ghost head = error_headline(self@);
        let ghost parts = strings_view(at@);
        let mut i: usize = 0;
        while i < n
            invariant
                n == at@.len(),
                parts == strings_view(at@),
                parts.len() == n,
                i <= n,
                message@ == head + " (at "@ + join(parts.take(i as int), " → "@),
            decreases n - i,
        {
            if i > 0 {
                message.append(" → ");
            }
            message.append(at[i].as_str());
            proof {
                assert(parts.take(i + 1).drop_last() =~= parts.take(i as int));
                assert(parts.take(i + 1).last() == at@[i as int]@);
                if i == 0 {
                    assert(parts.take(0) =~= Seq::<Seq<char>>::empty());
                }
            }
            i = i + 1;
        }
        message.append(")");
        assert(parts.take(n as int) =~= parts);
        message
    }
}

} // verus!
