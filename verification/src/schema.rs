//! Schemas of an OpenAPI document and their typing into `TypedSchema`.

use vstd::prelude::*;

use crate::document::{entry_keys, keys_ascending};
use crate::text::{has_prefix, str_eq, strip_prefix};
use crate::types::{opt_string_view, spec_parse_type, Primative, Type};

verus! {

/// A property of an object schema.
#[derive(Debug)]
pub struct Property {
    /// The property's `type`.
    pub typ: String,
    pub format: Option<String>,
}

/// A schema as the document writes it. Its properties are a list of
/// entries, in key order when read from the JSON document (`schema_wf`).
#[derive(Debug)]
pub struct Schema {
    /// The `$ref` path.
    pub reference: Option<String>,
    pub all_of: Option<Vec<Schema>>,
    /// The `type`.
    pub typ: Option<String>,
    pub format: Option<String>,
    /// The names of the required properties.
    pub required: Option<Vec<String>>,
    pub items: Option<Box<Schema>>,
    pub properties: Option<Vec<(String, Property)>>,
}

/// A property of an object model with its type.
#[derive(Debug)]
pub struct Field {
    pub ident: String,
    pub typ: Type,
    pub required: bool,
}

/// The fields of an object model, in property order.
#[derive(Debug)]
pub struct ObjectSchema {
    pub fields: Vec<Field>,
}

/// A schema reduced to what code generation uses.
#[derive(Debug)]
pub enum TypedSchema {
    /// A reference to a component schema, by its name.
    Ref(String),
    /// All of the parts at once.
    Union(Vec<TypedSchema>),
    Primative(Primative),
    Object(ObjectSchema),
    Array(Box<TypedSchema>),
}

/// A `Field` with its name as characters.
pub struct SpecField {
    pub ident: Seq<char>,
    pub typ: Type,
    pub required: bool,
}

/// A `TypedSchema` with its names as characters.
pub enum SpecTypedSchema {
    Ref(Seq<char>),
    Union(Seq<SpecTypedSchema>),
    Primative(Primative),
    Object(Seq<SpecField>),
    Array(Box<SpecTypedSchema>),
}

impl View for Field {
    type V = SpecField;

    open spec fn view(&self) -> SpecField {
        SpecField { ident: self.ident@, typ: self.typ, required: self.required }
    }
}

/// The fields of an object model as `SpecField`s.
pub open spec fn fields_view(fields: Seq<Field>) -> Seq<SpecField> {
    fields.map_values(|f: Field| f@)
}

/// A typed schema as a `SpecTypedSchema`.
pub open spec fn typed_view(t: TypedSchema) -> SpecTypedSchema
    decreases t,
{
    match t {
        TypedSchema::Ref(name) => SpecTypedSchema::Ref(name@),
        TypedSchema::Union(parts) => SpecTypedSchema::Union(typed_views(parts@)),
        TypedSchema::Primative(p) => SpecTypedSchema::Primative(p),
        TypedSchema::Object(object) => SpecTypedSchema::Object(fields_view(object.fields@)),
        TypedSchema::Array(inner) => SpecTypedSchema::Array(Box::new(typed_view(*inner))),
    }
}

/// Each typed schema of `ts` as a `SpecTypedSchema`.
pub open spec fn typed_views(ts: Seq<TypedSchema>) -> Seq<SpecTypedSchema>
    decreases ts,
{
    if ts.len() == 0 {
        Seq::empty()
    } else {
        typed_views(ts.drop_last()).push(typed_view(ts.last()))
    }
}

impl View for TypedSchema {
    type V = SpecTypedSchema;

    open spec fn view(&self) -> SpecTypedSchema {
        typed_view(*self)
    }
}

/// Whether names are each listed once, as the names of a set are.
pub open spec fn names_distinct(names: Seq<String>) -> bool {
    forall|i: int, j: int| 0 <= i < j < names.len() ==> (#[trigger] names[i])@ != (#[trigger] names[j])@
}

/// Whether a schema is as read from the JSON document, at any depth: its
/// properties in strictly ascending key order and its `required` names
/// each listed once.
pub open spec fn schema_wf(s: Schema) -> bool
    decreases s,
{
    &&& match s.properties {
        Some(props) => keys_ascending(entry_keys(props@)),
        None => true,
    }
    &&& match s.required {
        Some(names) => names_distinct(names@),
        None => true,
    }
    &&& match s.all_of {
        Some(parts) => schemas_wf(parts@),
        None => true,
    }
    &&& match s.items {
        Some(inner) => schema_wf(*inner),
        None => true,
    }
}

/// Whether every schema of a list is well formed.
pub open spec fn schemas_wf(parts: Seq<Schema>) -> bool
    decreases parts,
{
    if parts.len() == 0 {
        true
    } else {
        schemas_wf(parts.drop_last()) && schema_wf(parts.last())
    }
}

/// What typing a schema comes to: the run aborts (an `unwrap` fails), the
/// schema is of no supported form, or it has a type.
pub enum Outcome<T> {
    Aborts,
    Unsupported,
    Typed(T),
}

/// The prefix of a `$ref` path that names a component schema.
pub open spec fn ref_prefix() -> Seq<char> {
    "#/components/schemas/"@
}

/// Whether `name` is among `names`.
pub open spec fn names_contain(names: Seq<String>, name: Seq<char>) -> bool {
    exists|i: int| 0 <= i < names.len() && names[i]@ == name
}

/// Whether the property `name` is required by the schema's `required` list.
pub open spec fn is_required(required: Option<Vec<String>>, name: Seq<char>) -> bool {
    match required {
        Some(names) => names_contain(names@, name),
        None => false,
    }
}

/// The fields of an object schema with these properties, or `None` when the
/// type of some property does not parse.
pub open spec fn spec_fields(props: Seq<(String, Property)>, required: Option<Vec<String>>) -> Option<
    Seq<SpecField>,
>
    decreases props.len(),
{
    if props.len() == 0 {
        Some(Seq::empty())
    } else {
        match spec_fields(props.drop_last(), required) {
            None => None,
            Some(fields) => {
                let (name, prop) = props.last();
                match spec_parse_type(prop.typ@, opt_string_view(prop.format)) {
                    Ok(t) => Some(
                        fields.push(
                            SpecField { ident: name@, typ: t, required: is_required(required, name@) },
                        ),
                    ),
                    Err(_) => None,
                }
            },
        }
    }
}

/// How a schema is typed: a `$ref` (which must start with
/// `#/components/schemas/`) becomes a reference to the named component; an
/// `allOf` becomes a union of its typed parts; a `type` (which must parse)
/// becomes a primitive, an object with its properties (each property type
/// must parse) or an array (which must have `items` that type); a schema
/// with none of these is unsupported.
pub open spec fn spec_classify(s: Schema) -> Outcome<SpecTypedSchema>
    decreases s,
{
    match s.reference {
        Some(r) => if has_prefix(r@, ref_prefix()) {
            Outcome::Typed(
                SpecTypedSchema::Ref(r@.subrange(ref_prefix().len() as int, r@.len() as int)),
            )
        } else {
            Outcome::Aborts
        },
        None => match s.all_of {
            Some(parts) => match spec_classify_all(parts@) {
                Outcome::Aborts => Outcome::Aborts,
                Outcome::Unsupported => Outcome::Unsupported,
                Outcome::Typed(ts) => Outcome::Typed(SpecTypedSchema::Union(ts)),
            },
            None => match s.typ {
                None => Outcome::Unsupported,
                Some(t) => match spec_parse_type(t@, opt_string_view(s.format)) {
                    Err(_) => Outcome::Aborts,
                    Ok(Type::Primative(p)) => Outcome::Typed(SpecTypedSchema::Primative(p)),
                    Ok(Type::Object) => match s.properties {
                        None => Outcome::Typed(SpecTypedSchema::Object(Seq::empty())),
                        Some(props) => match spec_fields(props@, s.required) {
                            None => Outcome::Aborts,
                            Some(fields) => Outcome::Typed(SpecTypedSchema::Object(fields)),
                        },
                    },
                    Ok(Type::Array) => match s.items {
                        None => Outcome::Aborts,
                        Some(inner) => match spec_classify(*inner) {
                            Outcome::Typed(t) => Outcome::Typed(SpecTypedSchema::Array(Box::new(t))),
                            _ => Outcome::Aborts,
                        },
                    },
                },
            },
        },
    }
}

/// How the parts of an `allOf` are typed, in order, stopping at the first
/// part that is not typed.
pub open spec fn spec_classify_all(parts: Seq<Schema>) -> Outcome<Seq<SpecTypedSchema>>
    decreases parts,
{
    if parts.len() == 0 {
        Outcome::Typed(Seq::empty())
    } else {
        match spec_classify_all(parts.drop_last()) {
            Outcome::Aborts => Outcome::Aborts,
            Outcome::Unsupported => Outcome::Unsupported,
            Outcome::Typed(ts) => match spec_classify(parts.last()) {
                Outcome::Aborts => Outcome::Aborts,
                Outcome::Unsupported => Outcome::Unsupported,
                Outcome::Typed(t) => Outcome::Typed(ts.push(t)),
            },
        }
    }
}

/// An outcome of typing one schema, taken by the view of its type.
pub open spec fn outcome_view(o: Outcome<TypedSchema>) -> Outcome<SpecTypedSchema> {
    match o {
        Outcome::Aborts => Outcome::Aborts,
        Outcome::Unsupported => Outcome::Unsupported,
        Outcome::Typed(t) => Outcome::Typed(t@),
    }
}

/// An outcome of typing several schemas, taken by the views of their types.
pub open spec fn outcomes_view(o: Outcome<Vec<TypedSchema>>) -> Outcome<Seq<SpecTypedSchema>> {
    match o {
        Outcome::Aborts => Outcome::Aborts,
        Outcome::Unsupported => Outcome::Unsupported,
        Outcome::Typed(ts) => Outcome::Typed(typed_views(ts@)),
    }
}

/// Once a prefix of the parts fails to type, typing all the parts fails the
/// same way.
proof fn lemma_classify_all_prefix(parts: Seq<Schema>, i: int)
    requires
        0 <= i <= parts.len(),
        !(spec_classify_all(parts.take(i)) is Typed),
    ensures
        spec_classify_all(parts) == spec_classify_all(parts.take(i)),
    decreases parts.len(),
{
    if i == parts.len() {
        assert(parts.take(i) =~= parts);
    } else {
        assert(parts.drop_last().take(i) =~= parts.take(i));
        lemma_classify_all_prefix(parts.drop_last(), i);
    }
}

/// Once the properties of a prefix fail to parse, so do all the properties.
proof fn lemma_fields_prefix(props: Seq<(String, Property)>, required: Option<Vec<String>>, i: int)
    requires
        0 <= i <= props.len(),
        spec_fields(props.take(i), required) is None,
    ensures
        spec_fields(props, required) is None,
    decreases props.len(),
{
    if i == props.len() {
        assert(props.take(i) =~= props);
    } else {
        assert(props.drop_last().take(i) =~= props.take(i));
        lemma_fields_prefix(props.drop_last(), required, i);
    }
}

/// Whether the property `name` is in the schema's `required` list.
fn required_contains(required: &Option<Vec<String>>, name: &str) -> (res: bool)
    ensures
        res == is_required(*required, name@),
{
    match required {
        None => false,
        Some(names) => {
            let mut i: usize = 0;
            while i < names.len()
                invariant
                    *required == Some(*names),
                    0 <= i <= names@.len(),
                    forall|j: int| 0 <= j < i ==> names@[j]@ != name@,
                decreases names@.len() - i,
            {
                if str_eq(names[i].as_str(), name) {
                    assert(names@[i as int]@ == name@);
                    assert(names_contain(names@, name@));
                    return true;
                }
                i = i + 1;
            }
            false
        },
    }
}

/// An optional owned string as an optional string slice.
fn opt_as_str(o: &Option<String>) -> (res: Option<&str>)
    ensures
        opt_string_view(*o) == crate::types::opt_str_view(res),
{
    match o {
        Some(s) => Some(s.as_str()),
        None => None,
    }
}

/// The fields of an object schema with these properties, or `None` when the
/// type of some property does not parse.
fn fields_of(props: &Vec<(String, Property)>, required: &Option<Vec<String>>) -> (res: Option<
    Vec<Field>,
>)
    ensures
        match (res, spec_fields(props@, *required)) {
            (Some(fs), Some(s)) => fields_view(fs@) == s,
            (None, None) => true,
            _ => false,
        },
{
    let mut fields: Vec<Field> = Vec::new();
    let mut i: usize = 0;
    while i < props.len()
        invariant
            0 <= i <= props@.len(),
            spec_fields(props@.take(i as int), *required) == Some(fields_view(fields@)),
        decreases props@.len() - i,
    {
        let name = &props[i].0;
        let prop = &props[i].1;
        proof {
            assert(props@.take(i + 1).drop_last() =~= props@.take(i as int));
            assert(props@.take(i + 1).last() == props@[i as int]);
        }
        match Type::parse(prop.typ.as_str(), opt_as_str(&prop.format)) {
            Ok(t) => {
                let req = required_contains(required, name.as_str());
                let ghost before = fields@;
                fields.push(Field { ident: name.clone(), typ: t, required: req });
                assert(fields_view(fields@) =~= fields_view(before).push(fields@.last()@));
            },
            Err(_) => {
                proof {
                    lemma_fields_prefix(props@, *required, i + 1);
                }
                return None;
            },
        }
        i = i + 1;
    }
    assert(props@.take(props@.len() as int) =~= props@);
    Some(fields)
}

/// Types a schema as `spec_classify` says.
pub fn classify(schema: &Schema) -> (res: Outcome<TypedSchema>)
    ensures
        outcome_view(res) == spec_classify(*schema),
    decreases schema,
{
    match &schema.reference {
        Some(r) => match strip_prefix(r.as_str(), "#/components/schemas/") {
            Some(rest) => Outcome::Typed(TypedSchema::Ref(rest)),
            None => Outcome::Aborts,
        },
        None => match &schema.all_of {
            Some(parts) => match classify_all(parts) {
                Outcome::Aborts => Outcome::Aborts,
                Outcome::Unsupported => Outcome::Unsupported,
                Outcome::Typed(ts) => Outcome::Typed(TypedSchema::Union(ts)),
            },
            None => match &schema.typ {
                None => Outcome::Unsupported,
                Some(t) => match Type::parse(t.as_str(), opt_as_str(&schema.format)) {
                    Err(_) => Outcome::Aborts,
                    Ok(Type::Primative(p)) => Outcome::Typed(TypedSchema::Primative(p)),
                    Ok(Type::Object) => match &schema.properties {
                        None => {
                            let fields: Vec<Field> = Vec::new();
                            assert(fields_view(fields@) =~= Seq::<SpecField>::empty());
                            Outcome::Typed(TypedSchema::Object(ObjectSchema { fields }))
                        },
                        Some(props) => match fields_of(props, &schema.required) {
                            None => Outcome::Aborts,
                            Some(fields) => Outcome::Typed(
                                TypedSchema::Object(ObjectSchema { fields }),
                            ),
                        },
                    },
                    Ok(Type::Array) => match &schema.items {
                        None => Outcome::Aborts,
                        Some(inner) => match classify(&**inner) {
                            Outcome::Typed(it) => Outcome::Typed(TypedSchema::Array(Box::new(it))),
                            _ => Outcome::Aborts,
                        },
                    },
                },
            },
        },
    }
}

/// Types the parts of an `allOf` as `spec_classify_all` says.
pub fn classify_all(parts: &Vec<Schema>) -> (res: Outcome<Vec<TypedSchema>>)
    ensures
        outcomes_view(res) == spec_classify_all(parts@),
    decreases parts,
{
    let mut typed: Vec<TypedSchema> = Vec::new();
    let mut i: usize = 0;
    assert(parts@.take(0) =~= Seq::<Schema>::empty());
    while i < parts.len()
        invariant
            0 <= i <= parts@.len(),
            spec_classify_all(parts@.take(i as int)) == Outcome::Typed(typed_views(typed@)),
        decreases parts@.len() - i,
    {
        proof {
            assert(parts@.take(i + 1).drop_last() =~= parts@.take(i as int));
            assert(parts@.take(i + 1).last() == parts@[i as int]);
            assert(decreases_to!(parts => parts@[i as int]));
        }
        match classify(&parts[i]) {
            Outcome::Typed(t) => {
                let ghost before = typed@;
                typed.push(t);
                assert(typed@.drop_last() =~= before);
            },
            Outcome::Aborts => {
                proof {
                    lemma_classify_all_prefix(parts@, i + 1);
                }
                return Outcome::Aborts;
            },
            Outcome::Unsupported => {
                proof {
                    lemma_classify_all_prefix(parts@, i + 1);
                }
                return Outcome::Unsupported;
            },
        }
        i = i + 1;
    }
    assert(parts@.take(parts@.len() as int) =~= parts@);
    Outcome::Typed(typed)
}

impl TypedSchema {
    /// Types a schema: a `$ref` names a component, an `allOf` is a union
    /// of its typed parts, a `type` is a primitive, an object or an array;
    /// any other schema is the error `Unsupported schema definition`.
    pub fn try_from(schema: Schema) -> (res: Result<TypedSchema, &'static str>)
        requires
            !(spec_classify(schema) is Aborts),
        ensures
            match res {
                Ok(t) => spec_classify(schema) == Outcome::Typed(t@),
                Err(e) => spec_classify(schema) is Unsupported && e@
                    == "Unsupported schema definition"@,
            },
    {
        match classify(&schema) {
            Outcome::Typed(t) => Ok(t),
            Outcome::Unsupported => Err("Unsupported schema definition"),
            Outcome::Aborts => {
                proof {
                    assert(false);
                }
                Err("Unsupported schema definition")
            },
        }
    }
}

} // verus!
