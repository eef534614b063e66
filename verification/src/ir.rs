//! The parsed `.cstack` schema that generation reads: declarations,
//! fields, type references and procedures, with the predicates over them
//! that the generators share.

use vstd::prelude::*;

use crate::text::str_is;

verus! {

/// How a field or argument wraps its type: `T`, `T?` or `T[]`.
#[derive(Debug, Clone, Copy, PartialEq, Eq, Structural)]
pub enum TypeArity {
    Required,
    Optional,
    List,
}

/// A reference to a type by name, with its arity and generic arguments
/// (`Page<Item>` has `Item` as its one argument).
#[derive(Debug)]
pub struct TypeRef {
    pub name: String,
    pub arity: TypeArity,
    pub generic_args: Vec<TypeRef>,
}

/// One `@...` attribute, as written.
#[derive(Debug)]
pub struct Attribute {
    pub raw: String,
}

/// A field of a `type` or `model`.
#[derive(Debug)]
pub struct Field {
    pub name: String,
    pub docs: Vec<String>,
    pub ty: TypeRef,
    pub attributes: Vec<Attribute>,
}

/// One variant of an `enum`.
#[derive(Debug)]
pub struct EnumVariant {
    pub name: String,
}

/// An `enum` declaration.
#[derive(Debug)]
pub struct EnumDecl {
    pub name: String,
    pub docs: Vec<String>,
    pub variants: Vec<EnumVariant>,
}

/// A `type` declaration.
#[derive(Debug)]
pub struct TypeDecl {
    pub name: String,
    pub docs: Vec<String>,
    pub fields: Vec<Field>,
}

/// A `model` declaration, with its `@@...` model attributes.
#[derive(Debug)]
pub struct Model {
    pub name: String,
    pub docs: Vec<String>,
    pub fields: Vec<Field>,
    pub attributes: Vec<Attribute>,
}

/// A `mixin` declaration.
#[derive(Debug)]
pub struct Mixin {
    pub name: String,
}

/// The `transport` a schema serves its operations over.
#[derive(Debug, Clone, Copy, PartialEq, Eq, Structural)]
pub enum TransportStyle {
    Rest,
    Rpc,
    Grpc,
}

/// The `auth` block: the fields of the authenticated principal.
#[derive(Debug)]
pub struct AuthBlock {
    pub fields: Vec<Field>,
}

/// One argument of a procedure.
#[derive(Debug)]
pub struct ProcedureArg {
    pub name: String,
    pub docs: Vec<String>,
    pub ty: TypeRef,
}

/// A `procedure` declaration.
#[derive(Debug)]
pub struct Procedure {
    pub name: String,
    pub args: Vec<ProcedureArg>,
    pub return_type: TypeRef,
}

/// A `query` declaration.
#[derive(Debug)]
pub struct Query {
    pub name: String,
}

/// A whole schema.
#[derive(Debug)]
pub struct Schema {
    pub mixins: Vec<Mixin>,
    pub models: Vec<Model>,
    pub types: Vec<TypeDecl>,
    pub enums: Vec<EnumDecl>,
    pub procedures: Vec<Procedure>,
    pub queries: Vec<Query>,
    pub transport: TransportStyle,
    pub auth: Option<AuthBlock>,
}

/// The `decimal = ...` backend of an invocation.
#[derive(Debug, Clone, Copy, PartialEq, Eq, Structural)]
pub enum DecimalBackend {
    RustDecimal,
    BigDecimal,
}

/// Nesting depth through first generic arguments: what `Page<T>` descends.
pub open spec fn type_depth(ty: TypeRef) -> nat
    decreases ty,
{
    if ty.generic_args@.len() == 0 {
        0
    } else {
        1 + type_depth(ty.generic_args@[0])
    }
}

impl TypeRef {
    /// `Page<T>`.
    pub open spec fn spec_is_page(&self) -> bool {
        self.name@ == "Page"@
    }

    /// `FindMany<T>`.
    pub open spec fn spec_is_find_many(&self) -> bool {
        self.name@ == "FindMany"@
    }

    /// `PageInput`.
    pub open spec fn spec_is_page_input(&self) -> bool {
        self.name@ == "PageInput"@
    }

    pub fn is_page(&self) -> (b: bool)
        ensures
            b == self.spec_is_page(),
    {
        str_is(self.name.as_str(), "Page")
    }

    pub fn is_find_many(&self) -> (b: bool)
        ensures
            b == self.spec_is_find_many(),
    {
        str_is(self.name.as_str(), "FindMany")
    }

    pub fn is_page_input(&self) -> (b: bool)
        ensures
            b == self.spec_is_page_input(),
    {
        str_is(self.name.as_str(), "PageInput")
    }

    /// The item type of a `Page<T>`: its first generic argument.
    pub fn page_item(&self) -> (r: Option<&TypeRef>)
        ensures
            r == (if self.generic_args@.len() > 0 {
                Some(&self.generic_args@[0])
            } else {
                None
            }),
    {
        if self.generic_args.len() > 0 {
            Some(&self.generic_args[0])
        } else {
            None
        }
    }
}

/// Some attribute of `attributes` is written exactly `raw`.
pub open spec fn has_attribute(attributes: Seq<Attribute>, raw: Seq<char>) -> bool {
    exists|i: int| 0 <= i < attributes.len() && #[trigger] attributes[i].raw@ == raw
}

/// Whether some attribute is written exactly `raw`.
pub fn attribute_present(attributes: &Vec<Attribute>, raw: &str) -> (b: bool)
    ensures
        b == has_attribute(attributes@, raw@),
{
    let n = attributes.len();
    let mut i: usize = 0;
    while i < n
        invariant
            n == attributes@.len(),
            i <= n,
            forall|j: int| 0 <= j < i ==> #[trigger] attributes@[j].raw@ != raw@,
        decreases n - i,
    {
        if str_is(attributes[i].raw.as_str(), raw) {
            return true;
        }
        i = i + 1;
    }
    false
}

/// `@computed`: a value that reaches the wire only through response
/// composition.
pub open spec fn spec_is_computed_field(field: Field) -> bool {
    has_attribute(field.attributes@, "@computed"@)
}

/// `@server_only`: serde-skipped, never written, never read.
pub open spec fn spec_is_server_only_field(field: Field) -> bool {
    has_attribute(field.attributes@, "@server_only"@)
}

pub fn is_computed_field(field: &Field) -> (b: bool)
    ensures
        b == spec_is_computed_field(*field),
{
    attribute_present(&field.attributes, "@computed")
}

pub fn is_server_only_field(field: &Field) -> (b: bool)
    ensures
        b == spec_is_server_only_field(*field),
{
    attribute_present(&field.attributes, "@server_only")
}

/// The names of `models`, in order.
pub open spec fn model_names(models: Seq<Model>) -> Seq<Seq<char>> {
    models.map_values(|m: Model| m.name@)
}

/// The names of `types`, in order.
pub open spec fn type_names(types: Seq<TypeDecl>) -> Seq<Seq<char>> {
    types.map_values(|t: TypeDecl| t.name@)
}

/// The names of `enums`, in order.
pub open spec fn enum_names(enums: Seq<EnumDecl>) -> Seq<Seq<char>> {
    enums.map_values(|e: EnumDecl| e.name@)
}

/// The index of the first occurrence of `name` in `names`.
pub open spec fn first_index(names: Seq<Seq<char>>, name: Seq<char>) -> Option<int>
    decreases names.len(),
{
    if names.len() == 0 {
        None
    } else if names[0] == name {
        Some(0)
    } else {
        match first_index(names.drop_first(), name) {
            Some(i) => Some(i + 1),
            None => None,
        }
    }
}

pub proof fn lemma_first_index(names: Seq<Seq<char>>, name: Seq<char>)
    ensures
        match first_index(names, name) {
            Some(i) => 0 <= i < names.len() && names[i] == name && forall|j: int|
                0 <= j < i ==> names[j] != name,
            None => forall|j: int| 0 <= j < names.len() ==> names[j] != name,
        },
        first_index(names, name) is Some <==> names.contains(name),
    decreases names.len(),
{
    if names.len() > 0 {
        lemma_first_index(names.drop_first(), name);
        if names[0] != name {
            assert forall|j: int| 1 <= j < names.len() implies names[j] == names.drop_first()[j - 1] by {}
        }
    }
    if first_index(names, name) is None {
        assert(!names.contains(name));
    } else {
        let i = first_index(names, name)->0;
        assert(names[i] == name);
    }
}

/// A `model` of `schema` is named `name`: a field of that type is a relation.
pub open spec fn spec_is_model_name(schema: Schema, name: Seq<char>) -> bool {
    model_names(schema.models@).contains(name)
}

/// The index of the first model named `name`.
pub fn find_model(models: &Vec<Model>, name: &str) -> (r: Option<usize>)
    ensures
        r matches Some(i) ==> first_index(model_names(models@), name@) == Some(i as int),
        r is None ==> first_index(model_names(models@), name@) is None,
{
    let n = models.len();
    let mut i: usize = 0;
    while i < n
        invariant
            n == models@.len(),
            i <= n,
            forall|j: int| 0 <= j < i ==> #[trigger] models@[j].name@ != name@,
        decreases n - i,
    {
        if str_is(models[i].name.as_str(), name) {
            proof {
                lemma_first_index(model_names(models@), name@);
                let f = first_index(model_names(models@), name@);
                if f is None || f->0 != i {
                    assert(model_names(models@)[i as int] == name@);
                }
            }
            return Some(i);
        }
        i = i + 1;
    }
    proof {
        lemma_first_index(model_names(models@), name@);
        if first_index(model_names(models@), name@) is Some {
            let f = first_index(model_names(models@), name@)->0;
            assert(models@[f].name@ == name@);
        }
    }
    None
}

/// The index of the first `type` named `name`.
pub fn find_type(types: &Vec<TypeDecl>, name: &str) -> (r: Option<usize>)
    ensures
        r matches Some(i) ==> first_index(type_names(types@), name@) == Some(i as int),
        r is None ==> first_index(type_names(types@), name@) is None,
{
    let n = types.len();
    let mut i: usize = 0;
    while i < n
        invariant
            n == types@.len(),
            i <= n,
            forall|j: int| 0 <= j < i ==> #[trigger] types@[j].name@ != name@,
        decreases n - i,
    {
        if str_is(types[i].name.as_str(), name) {
            proof {
                lemma_first_index(type_names(types@), name@);
                let f = first_index(type_names(types@), name@);
                if f is None || f->0 != i {
                    assert(type_names(types@)[i as int] == name@);
                }
            }
            return Some(i);
        }
        i = i + 1;
    }
    proof {
        lemma_first_index(type_names(types@), name@);
        if first_index(type_names(types@), name@) is Some {
            let f = first_index(type_names(types@), name@)->0;
            assert(types@[f].name@ == name@);
        }
    }
    None
}

/// The index of the first `enum` named `name`.
pub fn find_enum(enums: &Vec<EnumDecl>, name: &str) -> (r: Option<usize>)
    ensures
        r matches Some(i) ==> first_index(enum_names(enums@), name@) == Some(i as int),
        r is None ==> first_index(enum_names(enums@), name@) is None,
{
    let n = enums.len();
    let mut i: usize = 0;
    while i < n
        invariant
            n == enums@.len(),
            i <= n,
            forall|j: int| 0 <= j < i ==> #[trigger] enums@[j].name@ != name@,
        decreases n - i,
    {
        if str_is(enums[i].name.as_str(), name) {
            proof {
                lemma_first_index(enum_names(enums@), name@);
                let f = first_index(enum_names(enums@), name@);
                if f is None || f->0 != i {
                    assert(enum_names(enums@)[i as int] == name@);
                }
            }
            return Some(i);
        }
        i = i + 1;
    }
    proof {
        lemma_first_index(enum_names(enums@), name@);
        if first_index(enum_names(enums@), name@) is Some {
            let f = first_index(enum_names(enums@), name@)->0;
            assert(enums@[f].name@ == name@);
        }
    }
    None
}

/// A field whose type is a model is a relation, not a column.
pub fn is_relation_field(schema: &Schema, field: &Field) -> (b: bool)
    ensures
        b == spec_is_model_name(*schema, field.ty.name@),
{
    let r = find_model(&schema.models, field.ty.name.as_str());
    proof {
        lemma_first_index(model_names(schema.models@), field.ty.name@);
    }
    r.is_some()
}

/// The values of a list of names.
pub open spec fn names_of(names: Seq<String>) -> Seq<Seq<char>> {
    names.map_values(|n: String| n@)
}

/// No name occurs twice: what a set of names (`BTreeSet<&str>`) guarantees.
pub open spec fn distinct_names(names: Seq<String>) -> bool {
    forall|i: int, j: int| 0 <= i < j < names.len() ==> #[trigger] names[i]@ != #[trigger] names[j]@
}

/// Whether `name` is among `names`.
pub fn name_listed(names: &Vec<String>, name: &str) -> (b: bool)
    ensures
        b == names_of(names@).contains(name@),
{
    let n = names.len();
    let mut i: usize = 0;
    while i < n
        invariant
            n == names@.len(),
            i <= n,
            forall|j: int| 0 <= j < i ==> #[trigger] names@[j]@ != name@,
        decreases n - i,
    {
        if str_is(names[i].as_str(), name) {
            assert(names_of(names@)[i as int] == name@);
            return true;
        }
        i = i + 1;
    }
    assert(!names_of(names@).contains(name@)) by {
        if names_of(names@).contains(name@) {
            let k = choose|k: int| 0 <= k < names_of(names@).len() && names_of(names@)[k] == name@;
            assert(names@[k]@ == name@);
        }
    }
    false
}

} // verus!
