//! What each operation does, stated over its inputs and results.

use vstd::prelude::*;

use crate::document::{
    endpoint, entry_keys, first_index, is_first_index, lookup, spec_endpoints, Operation, Path,
};
use crate::client::{
    spec_body, spec_client_method, spec_http_method, spec_return, HttpMethod, SpecClientMethod,
    SpecReturnShape,
};
use crate::laws::law_object_model_fields;
use crate::client::{spec_client_methods, spec_plan, spec_typed_components};
use crate::document::{Server, Spec};
use crate::laws::lemma_models_names;
use crate::models::{spec_gen_components, spec_models};
use crate::text::{ascii_lowercase, last_dot, snake_case_with, spec_to_snake_case};
use crate::types::SpecTypeError;
use crate::models::{
    component_keys, model_fields, resolve_part, spec_model, union_fields, SpecModel, SpecModelField,
};
use crate::schema::{
    spec_classify, spec_classify_all, spec_fields, Outcome, Property, Schema, SpecField,
    SpecTypedSchema,
};
use crate::types::{opt_string_view, spec_parse_type};
use crate::text::last_segment;
use crate::types::{Primative, Type};

verus! {

/// The operation that a path holds under the HTTP method named `m`, read
/// from the path's field of that name.
pub open spec fn operation_for(p: Path, m: Seq<char>) -> Option<Operation> {
    if m == "get"@ {
        p.get
    } else if m == "put"@ {
        p.put
    } else if m == "post"@ {
        p.post
    } else if m == "delete"@ {
        p.delete
    } else if m == "options"@ {
        p.options
    } else if m == "head"@ {
        p.head
    } else if m == "patch"@ {
        p.patch
    } else if m == "trace"@ {
        p.trace
    } else {
        None
    }
}

/// The place of the method named `m` in the order get, put, post, delete,
/// options, head, patch, trace; 8 for any other name.
pub open spec fn method_rank(m: Seq<char>) -> int {
    if m == "get"@ {
        0
    } else if m == "put"@ {
        1
    } else if m == "post"@ {
        2
    } else if m == "delete"@ {
        3
    } else if m == "options"@ {
        4
    } else if m == "head"@ {
        5
    } else if m == "patch"@ {
        6
    } else if m == "trace"@ {
        7
    } else {
        8
    }
}

/// Endpoints that list, in method order, exactly the operations the path
/// holds under the methods of rank below `r`.
pub open spec fn endpoints_inv(p: Path, s: Seq<(Seq<char>, Operation)>, r: int) -> bool {
    &&& forall|i: int|
        0 <= i < s.len() ==> operation_for(p, (#[trigger] s[i]).0) == Some(s[i].1) && method_rank(
            s[i].0,
        ) < r
    &&& forall|i: int, j: int|
        0 <= i < j < s.len() ==> method_rank((#[trigger] s[i]).0) < method_rank((#[trigger] s[j]).0)
    &&& forall|m: Seq<char>|
        method_rank(m) < r && #[trigger] operation_for(p, m) is Some ==> exists|i: int|
            0 <= i < s.len() && (#[trigger] s[i]).0 == m
}

proof fn lemma_append_endpoint(p: Path, s: Seq<(Seq<char>, Operation)>, m: Seq<char>, r: int)
    requires
        endpoints_inv(p, s, r),
        method_rank(m) == r,
        0 <= r < 8,
        forall|m2: Seq<char>| method_rank(m2) == r ==> m2 == m,
    ensures
        endpoints_inv(p, s + endpoint(m, operation_for(p, m)), r + 1),
{
    let t = s + endpoint(m, operation_for(p, m));
    assert forall|i: int| 0 <= i < s.len() implies t[i] == s[i] by {}
    assert forall|m2: Seq<char>|
        method_rank(m2) < r + 1 && #[trigger] operation_for(p, m2) is Some implies exists|i: int|
        0 <= i < t.len() && (#[trigger] t[i]).0 == m2 by {
        if method_rank(m2) < r {
            let i = choose|i: int| 0 <= i < s.len() && (#[trigger] s[i]).0 == m2;
            assert(t[i] == s[i]);
        } else {
            assert(m2 == m);
            assert(t[s.len() as int].0 == m);
        }
    }
}

proof fn lemma_method_names()
    ensures
        method_rank("get"@) == 0,
        method_rank("put"@) == 1,
        method_rank("post"@) == 2,
        method_rank("delete"@) == 3,
        method_rank("options"@) == 4,
        method_rank("head"@) == 5,
        method_rank("patch"@) == 6,
        method_rank("trace"@) == 7,
        forall|m: Seq<char>| method_rank(m) == 0 ==> m == "get"@,
        forall|m: Seq<char>| method_rank(m) == 1 ==> m == "put"@,
        forall|m: Seq<char>| method_rank(m) == 2 ==> m == "post"@,
        forall|m: Seq<char>| method_rank(m) == 3 ==> m == "delete"@,
        forall|m: Seq<char>| method_rank(m) == 4 ==> m == "options"@,
        forall|m: Seq<char>| method_rank(m) == 5 ==> m == "head"@,
        forall|m: Seq<char>| method_rank(m) == 6 ==> m == "patch"@,
        forall|m: Seq<char>| method_rank(m) == 7 ==> m == "trace"@,
{
    reveal_strlit("get");
    reveal_strlit("put");
    reveal_strlit("post");
    reveal_strlit("delete");
    reveal_strlit("options");
    reveal_strlit("head");
    reveal_strlit("patch");
    reveal_strlit("trace");
    assert("get"@[0] == 'g');
    assert("put"@[0] == 'p' && "put"@[1] == 'u');
    assert("post"@[0] == 'p' && "post"@[1] == 'o');
    assert("delete"@[0] == 'd');
    assert("options"@[0] == 'o');
    assert("head"@[0] == 'h');
    assert("patch"@[0] == 'p' && "patch"@[1] == 'a');
    assert("trace"@[0] == 't');
}

/// A path's endpoints are exactly its operations, each under the name of
/// the field that holds it, in method order: every endpoint `(m, o)` has
/// `o` in the field named `m`, and every operation the path holds is listed.
pub proof fn law_endpoints_by_field(p: Path)
    ensures
        forall|i: int|
            0 <= i < spec_endpoints(p).len() ==> operation_for(p, (#[trigger] spec_endpoints(p)[i]).0)
                == Some(spec_endpoints(p)[i].1) && method_rank(spec_endpoints(p)[i].0) < 8,
        forall|i: int, j: int|
            0 <= i < j < spec_endpoints(p).len() ==> method_rank(
                (#[trigger] spec_endpoints(p)[i]).0,
            ) < method_rank((#[trigger] spec_endpoints(p)[j]).0),
        forall|m: Seq<char>|
            method_rank(m) < 8 && #[trigger] operation_for(p, m) is Some ==> exists|i: int|
                0 <= i < spec_endpoints(p).len() && (#[trigger] spec_endpoints(p)[i]).0 == m,
{
    lemma_method_names();
    let s0: Seq<(Seq<char>, Operation)> = Seq::empty();
    assert(endpoints_inv(p, s0, 0));
    lemma_append_endpoint(p, s0, "get"@, 0);
    let s1 = s0 + endpoint("get"@, operation_for(p, "get"@));
    lemma_append_endpoint(p, s1, "put"@, 1);
    let s2 = s1 + endpoint("put"@, operation_for(p, "put"@));
    lemma_append_endpoint(p, s2, "post"@, 2);
    let s3 = s2 + endpoint("post"@, operation_for(p, "post"@));
    lemma_append_endpoint(p, s3, "delete"@, 3);
    let s4 = s3 + endpoint("delete"@, operation_for(p, "delete"@));
    lemma_append_endpoint(p, s4, "options"@, 4);
    let s5 = s4 + endpoint("options"@, operation_for(p, "options"@));
    lemma_append_endpoint(p, s5, "head"@, 5);
    let s6 = s5 + endpoint("head"@, operation_for(p, "head"@));
    lemma_append_endpoint(p, s6, "patch"@, 6);
    let s7 = s6 + endpoint("patch"@, operation_for(p, "patch"@));
    lemma_append_endpoint(p, s7, "trace"@, 7);
    let s8 = s7 + endpoint("trace"@, operation_for(p, "trace"@));
    assert(s1 =~= endpoint("get"@, p.get));
    assert(s8 =~= spec_endpoints(p));
}

/// The primitive of a primitive type (`String` for any other type).
pub open spec fn primitive_of(t: Type) -> Primative {
    match t {
        Type::Primative(p) => p,
        _ => Primative::String,
    }
}

/// The model field that an object field becomes: same name, its primitive
/// type, optional exactly when not required.
pub open spec fn model_field_of(f: SpecField) -> SpecModelField {
    SpecModelField { ident: f.ident, typ: primitive_of(f.typ), optional: !f.required }
}

/// The fields of a schema that is an object; none for any other.
pub open spec fn object_fields(t: Option<SpecTypedSchema>) -> Seq<SpecField> {
    match t {
        Some(SpecTypedSchema::Object(fs)) => fs,
        _ => Seq::empty(),
    }
}

/// Whether a resolved part is an object whose fields are all primitive.
pub open spec fn primitive_object(t: Option<SpecTypedSchema>) -> bool {
    match t {
        Some(SpecTypedSchema::Object(fs)) => forall|j: int| 0 <= j < fs.len() ==> (#[trigger] fs[j]).typ is Primative,
        _ => false,
    }
}

/// A reference resolves to the first component of that name, and to
/// nothing when no component has it; any other part stands for itself.
pub proof fn law_resolve_part(comps: Seq<(Seq<char>, SpecTypedSchema)>, part: SpecTypedSchema)
    ensures
        part matches SpecTypedSchema::Ref(n) ==> match resolve_part(comps, part) {
            Some(t) => exists|i: int|
                0 <= i < comps.len() && comps[i].0 == n && comps[i].1 == t && forall|j: int|
                    0 <= j < i ==> comps[j].0 != n,
            None => forall|i: int| 0 <= i < comps.len() ==> comps[i].0 != n,
        },
        !(part is Ref) ==> resolve_part(comps, part) == Some(part),
{
    if let SpecTypedSchema::Ref(n) = part {
        let keys = component_keys(comps);
        if exists|i: int| is_first_index(keys, n, i) {
            let i = choose|i: int| is_first_index(keys, n, i);
            assert(is_first_index(keys, n, i));
            assert(first_index(keys, n) == i);
            assert forall|j: int| 0 <= j < i implies comps[j].0 != n by {
                assert(keys[j] == comps[j].0);
            }
            assert(keys[i] == comps[i].0);
        } else {
            assert forall|i: int| 0 <= i < comps.len() implies comps[i].0 != n by {
                if comps[i].0 == n {
                    assert(keys[i] == n);
                    lemma_first_occurrence(keys, n, i);
                }
            }
        }
    }
}

/// When a key occurs, it has a first position.
proof fn lemma_first_occurrence(keys: Seq<Seq<char>>, key: Seq<char>, i: int)
    requires
        0 <= i < keys.len(),
        keys[i] == key,
    ensures
        exists|k: int| is_first_index(keys, key, k),
    decreases i,
{
    if exists|j: int| 0 <= j < i && keys[j] == key {
        let j = choose|j: int| 0 <= j < i && keys[j] == key;
        lemma_first_occurrence(keys, key, j);
    } else {
        assert(is_first_index(keys, key, i));
    }
}

/// The model fields of an object's fields are each field's model field,
/// in order; there are some exactly when every field is primitive.
pub proof fn law_model_fields_map(fields: Seq<SpecField>)
    ensures
        model_fields(fields) is Some <==> forall|i: int|
            0 <= i < fields.len() ==> (#[trigger] fields[i]).typ is Primative,
        model_fields(fields) is Some ==> model_fields(fields)->0 == fields.map_values(
            |f: SpecField| model_field_of(f),
        ),
{
    law_object_model_fields(fields);
    if let Some(mf) = model_fields(fields) {
        assert(mf =~= fields.map_values(|f: SpecField| model_field_of(f)));
    }
}

/// A union's model fields are, part after part, the model fields of the
/// object each part resolves to (a reference to its component, any other
/// part itself), each optional exactly when that object does not require
/// it; there are some exactly when every part resolves to an object whose
/// fields are all primitive.
pub proof fn law_union_fields(comps: Seq<(Seq<char>, SpecTypedSchema)>, parts: Seq<SpecTypedSchema>)
    ensures
        union_fields(comps, parts) is Some <==> forall|i: int|
            0 <= i < parts.len() ==> primitive_object(#[trigger] resolve_part(comps, parts[i])),
        union_fields(comps, parts) is Some ==> union_fields(comps, parts)->0 == Seq::new(
            parts.len(),
            |i: int|
                object_fields(resolve_part(comps, parts[i])).map_values(
                    |f: SpecField| model_field_of(f),
                ),
        ).flatten(),
    decreases parts.len(),
{
    let all = Seq::new(
        parts.len(),
        |i: int|
            object_fields(resolve_part(comps, parts[i])).map_values(|f: SpecField| model_field_of(f)),
    );
    all.lemma_flatten_and_flatten_alt_are_equivalent();
    if parts.len() == 0 {
        assert(all.flatten_alt() =~= Seq::<SpecModelField>::empty());
    } else {
        let prefix = parts.drop_last();
        law_union_fields(comps, prefix);
        let pall = Seq::new(
            prefix.len(),
            |i: int|
                object_fields(resolve_part(comps, prefix[i])).map_values(
                    |f: SpecField| model_field_of(f),
                ),
        );
        pall.lemma_flatten_and_flatten_alt_are_equivalent();
        assert(all.drop_last() =~= pall);
        assert forall|i: int| 0 <= i < prefix.len() implies prefix[i] == parts[i] by {}
        let last = resolve_part(comps, parts.last());
        if let Some(SpecTypedSchema::Object(fs)) = last {
            law_model_fields_map(fs);
        }
        if union_fields(comps, prefix) is None {
            let k = choose|k: int|
                0 <= k < prefix.len() && !primitive_object(#[trigger] resolve_part(comps, prefix[k]));
            assert(resolve_part(comps, parts[k]) == resolve_part(comps, prefix[k]));
        }
        if union_fields(comps, parts) is Some {
            assert(all.last() == object_fields(last).map_values(|f: SpecField| model_field_of(f)));
        }
    }
}

/// A component that is neither a union nor an object becomes a model with
/// no fields; every model is named by the last dotted segment of its
/// component's name; an object's model has the object's model fields, a
/// union's the union's.
pub proof fn law_model_of_component(
    comps: Seq<(Seq<char>, SpecTypedSchema)>,
    name: Seq<char>,
    t: SpecTypedSchema,
)
    ensures
        !(t is Union) && !(t is Object) ==> spec_model(comps, name, t) == Some(
            SpecModel { name: last_segment(name), fields: Seq::empty() },
        ),
        spec_model(comps, name, t) matches Some(m) ==> m.name == last_segment(name),
        t matches SpecTypedSchema::Object(fs) ==> spec_model(comps, name, t) == match model_fields(fs) {
            Some(mf) => Some(SpecModel { name: last_segment(name), fields: mf }),
            None => None,
        },
        t matches SpecTypedSchema::Union(parts) ==> spec_model(comps, name, t) == match union_fields(
            comps,
            parts,
        ) {
            Some(mf) => Some(SpecModel { name: last_segment(name), fields: mf }),
            None => None,
        },
{
}

/// A lookup finds the value of the first entry with the key, and nothing
/// when no entry has it.
pub proof fn law_lookup<V>(entries: Seq<(String, V)>, key: Seq<char>)
    ensures
        match lookup(entries, key) {
            Some(v) => exists|i: int|
                0 <= i < entries.len() && entries[i].0@ == key && entries[i].1 == v && forall|j: int|
                    0 <= j < i ==> entries[j].0@ != key,
            None => forall|i: int| 0 <= i < entries.len() ==> entries[i].0@ != key,
        },
{
    let keys = entry_keys(entries);
    if exists|i: int| is_first_index(keys, key, i) {
        let i = choose|i: int| is_first_index(keys, key, i);
        assert(is_first_index(keys, key, i));
        assert(keys[i] == entries[i].0@);
        assert forall|j: int| 0 <= j < i implies entries[j].0@ != key by {
            assert(keys[j] == entries[j].0@);
        }
    } else {
        assert forall|i: int| 0 <= i < entries.len() implies entries[i].0@ != key by {
            if entries[i].0@ == key {
                assert(keys[i] == key);
                lemma_first_occurrence(keys, key, i);
            }
        }
    }
}

/// Whether the parts before `k` all type.
pub open spec fn parts_typed_before(parts: Seq<Schema>, k: int) -> bool {
    forall|i: int| 0 <= i < k ==> spec_classify(#[trigger] parts[i]) is Typed
}

/// The types of parts that all type, in order.
pub open spec fn part_types(parts: Seq<Schema>) -> Seq<SpecTypedSchema> {
    Seq::new(parts.len(), |i: int| spec_classify(parts[i])->Typed_0)
}

/// Whether two outcomes fail the same way.
pub open spec fn same_failure<A, B>(a: Outcome<A>, b: Outcome<B>) -> bool {
    (a is Aborts && b is Aborts) || (a is Unsupported && b is Unsupported)
}

/// Typing the parts of a union: when every part types, the parts' types in
/// order; otherwise what the first part that does not type comes to.
pub proof fn law_classify_all(parts: Seq<Schema>)
    ensures
        parts_typed_before(parts, parts.len() as int) ==> spec_classify_all(parts) == Outcome::Typed(
            part_types(parts),
        ),
        forall|k: int|
            0 <= k < parts.len() && parts_typed_before(parts, k) && !(spec_classify(
                #[trigger] parts[k],
            ) is Typed) ==> same_failure(spec_classify_all(parts), spec_classify(parts[k])),
    decreases parts.len(),
{
    if parts.len() == 0 {
        assert(part_types(parts) =~= Seq::<SpecTypedSchema>::empty());
    } else {
        let prefix = parts.drop_last();
        law_classify_all(prefix);
        assert forall|i: int| 0 <= i < prefix.len() implies prefix[i] == parts[i] by {}
        let n = parts.len() - 1;
        if parts_typed_before(parts, parts.len() as int) {
            assert(parts_typed_before(prefix, prefix.len() as int));
            assert(parts.last() == parts[n]);
            assert(spec_classify(parts[n]) is Typed);
            assert(part_types(parts) =~= part_types(prefix).push(spec_classify(parts[n])->Typed_0));
        }
        assert forall|k: int|
            0 <= k < parts.len() && parts_typed_before(parts, k) && !(spec_classify(
                #[trigger] parts[k],
            ) is Typed) implies same_failure(spec_classify_all(parts), spec_classify(parts[k])) by {
            if k < n {
                assert(parts_typed_before(prefix, k));
                assert(same_failure(spec_classify_all(prefix), spec_classify(prefix[k])));
            } else {
                assert(parts_typed_before(prefix, prefix.len() as int));
            }
        }
    }
}

/// The prefix that names a component in a `$ref`.
pub open spec fn components_prefix() -> Seq<char> {
    "#/components/schemas/"@
}

/// How a schema types. A `$ref` decides, whatever else the schema says: it
/// names the component after `#/components/schemas/`, and aborts when it
/// does not start so. Otherwise an `allOf` decides, whatever the `type`:
/// when every part types, a union of the parts' types in order, or else
/// what the first part that does not type comes to. Otherwise a schema
/// without `type` is unsupported.
pub proof fn law_classify_precedence(s: Schema)
    ensures
        s.reference matches Some(r) ==> spec_classify(s) == if components_prefix().len() <= r@.len()
            && r@.subrange(0, components_prefix().len() as int) == components_prefix() {
            Outcome::Typed(
                SpecTypedSchema::Ref(r@.subrange(components_prefix().len() as int, r@.len() as int)),
            )
        } else {
            Outcome::<SpecTypedSchema>::Aborts
        },
        s.reference is None ==> (s.all_of matches Some(parts) ==> {
            &&& parts_typed_before(parts@, parts@.len() as int) ==> spec_classify(s) == Outcome::Typed(
                SpecTypedSchema::Union(part_types(parts@)),
            )
            &&& forall|k: int|
                0 <= k < parts@.len() && parts_typed_before(parts@, k) && !(spec_classify(
                    #[trigger] parts@[k],
                ) is Typed) ==> spec_classify(s) == spec_classify(parts@[k])
        }),
        s.reference is None && s.all_of is None && s.typ is None ==> spec_classify(s)
            is Unsupported,
{
    if let Some(parts) = s.all_of {
        law_classify_all(parts@);
    }
}

/// Whether a required list names `name`.
pub open spec fn lists_required(required: Option<Vec<String>>, name: Seq<char>) -> bool {
    match required {
        Some(names) => exists|k: int| 0 <= k < names@.len() && names@[k]@ == name,
        None => false,
    }
}

/// Whether every property type parses.
pub open spec fn properties_parse(props: Seq<(String, Property)>) -> bool {
    forall|i: int|
        0 <= i < props.len() ==> spec_parse_type(
            (#[trigger] props[i]).1.typ@,
            opt_string_view(props[i].1.format),
        ) is Ok
}

/// The field that a property becomes: its name, its parsed type, required
/// when the schema lists it.
pub open spec fn field_of(prop: (String, Property), required: Option<Vec<String>>) -> SpecField {
    SpecField {
        ident: prop.0@,
        typ: spec_parse_type(prop.1.typ@, opt_string_view(prop.1.format))->Ok_0,
        required: lists_required(required, prop.0@),
    }
}

proof fn lemma_fields(props: Seq<(String, Property)>, required: Option<Vec<String>>)
    ensures
        spec_fields(props, required) is Some <==> properties_parse(props),
        properties_parse(props) ==> spec_fields(props, required)->0 == props.map_values(
            |p: (String, Property)| field_of(p, required),
        ),
    decreases props.len(),
{
    if props.len() > 0 {
        let prefix = props.drop_last();
        lemma_fields(prefix, required);
        assert forall|i: int| 0 <= i < prefix.len() implies prefix[i] == props[i] by {}
        if !properties_parse(prefix) {
            let k = choose|k: int|
                0 <= k < prefix.len() && !(spec_parse_type(
                    (#[trigger] prefix[k]).1.typ@,
                    opt_string_view(prefix[k].1.format),
                ) is Ok);
            assert(props[k] == prefix[k]);
        }
        if properties_parse(props) {
            assert(properties_parse(prefix));
            assert(spec_fields(props, required)->0 =~= props.map_values(
                |p: (String, Property)| field_of(p, required),
            ));
        }
    }
}

/// How a schema with a `type` (and no `$ref` or `allOf`) types: a type
/// that does not parse aborts; a primitive is itself; an object has one
/// field per property, in order (its name, its parsed type, required when
/// listed), and aborts when a property type does not parse; an array has
/// the type of its items, and aborts without items or when they do not
/// type.
pub proof fn law_classify_type(s: Schema)
    ensures
        (s.reference is None && s.all_of is None) ==> (s.typ matches Some(t) ==> {
            let parsed = spec_parse_type(t@, opt_string_view(s.format));
            &&& parsed is Err ==> spec_classify(s) is Aborts
            &&& parsed matches Ok(Type::Primative(p)) ==> spec_classify(s) == Outcome::Typed(
                SpecTypedSchema::Primative(p),
            )
            &&& parsed matches Ok(Type::Object) ==> spec_classify(s) == match s.properties {
                None => Outcome::Typed(SpecTypedSchema::Object(Seq::empty())),
                Some(props) => if properties_parse(props@) {
                    Outcome::Typed(
                        SpecTypedSchema::Object(
                            props@.map_values(|p: (String, Property)| field_of(p, s.required)),
                        ),
                    )
                } else {
                    Outcome::Aborts
                },
            }
            &&& parsed matches Ok(Type::Array) ==> spec_classify(s) == match s.items {
                None => Outcome::Aborts,
                Some(inner) => match spec_classify(*inner) {
                    Outcome::Typed(it) => Outcome::Typed(SpecTypedSchema::Array(Box::new(it))),
                    _ => Outcome::Aborts,
                },
            }
        }),
{
    if let Some(props) = s.properties {
        lemma_fields(props@, s.required);
        assert forall|p: (String, Property)| #[trigger] field_of(p, s.required) == SpecField {
            ident: p.0@,
            typ: spec_parse_type(p.1.typ@, opt_string_view(p.1.format))->Ok_0,
            required: crate::schema::is_required(s.required, p.0@),
        } by {}
    }
}

/// What a JSON body schema means for a request body: none when the
/// schema does not type as a reference, the component it refers to when it
/// does, and generation aborts exactly when typing it aborts.
pub open spec fn body_follows(schema: Schema, body: Option<Option<Seq<char>>>) -> bool {
    let c = spec_classify(schema);
    &&& body is None <==> c is Aborts
    &&& c is Unsupported ==> body == Some(None::<Seq<char>>)
    &&& c is Typed ==> body == Some(
        if c->Typed_0 is Ref {
            Some(c->Typed_0->Ref_0)
        } else {
            None
        },
    )
}

/// An operation's body model: the component that its `application/json`
/// request body schema refers to, when that schema types as a reference;
/// no body when the operation has no such schema or it types otherwise (an
/// array of references included); generation aborts exactly when typing
/// that schema aborts.
pub proof fn law_body(op: Operation)
    ensures
        match op.request_body {
            None => spec_body(op) == Some(None::<Seq<char>>),
            Some(rb) => match rb.content {
                None => spec_body(op) == Some(None::<Seq<char>>),
                Some(c) => match lookup(c@, "application/json"@) {
                    None => spec_body(op) == Some(None::<Seq<char>>),
                    Some(mt) => body_follows(mt.schema, spec_body(op)),
                },
            },
        },
{
}

/// What a JSON response schema means for a return shape: a model when it
/// types as a reference, a list of that model when it types as an array of
/// a reference, nothing otherwise; generation aborts exactly when typing it
/// aborts.
pub open spec fn return_follows(schema: Schema, ret: Option<SpecReturnShape>) -> bool {
    let c = spec_classify(schema);
    &&& ret is None <==> c is Aborts
    &&& c is Unsupported ==> ret == Some(SpecReturnShape::Unit)
    &&& c is Typed ==> ret == Some(
        if c->Typed_0 is Ref {
            SpecReturnShape::Model(c->Typed_0->Ref_0)
        } else if c->Typed_0 is Array && *(c->Typed_0->Array_0) is Ref {
            SpecReturnShape::Models((*(c->Typed_0->Array_0))->Ref_0)
        } else {
            SpecReturnShape::Unit
        },
    )
}

/// An operation's return shape comes from the `application/json` schema of
/// its `200` response alone; without one it returns nothing.
pub proof fn law_return(op: Operation)
    ensures
        match op.responses {
            None => spec_return(op) == Some(SpecReturnShape::Unit),
            Some(rs) => match lookup(rs@, "200"@) {
                None => spec_return(op) == Some(SpecReturnShape::Unit),
                Some(resp) => match resp.content {
                    None => spec_return(op) == Some(SpecReturnShape::Unit),
                    Some(c) => match lookup(c@, "application/json"@) {
                        None => spec_return(op) == Some(SpecReturnShape::Unit),
                        Some(mt) => return_follows(mt.schema, spec_return(op)),
                    },
                },
            },
        },
{
}

/// Clients can use exactly the methods get, post and delete.
pub proof fn law_http_method(m: Seq<char>)
    ensures
        spec_http_method(m) == Some(HttpMethod::Get) <==> m == "get"@,
        spec_http_method(m) == Some(HttpMethod::Post) <==> m == "post"@,
        spec_http_method(m) == Some(HttpMethod::Delete) <==> m == "delete"@,
        spec_http_method(m) is None <==> (m != "get"@ && m != "post"@ && m != "delete"@),
{
    lemma_method_names();
}

/// The client method of an operation: named by its snake-case operation
/// id, at the given path, with the HTTP method, body and return shape of
/// the operation; generation aborts on it exactly when one of those does.
pub proof fn law_client_method(url: Seq<char>, method: Seq<char>, op: Operation)
    ensures
        spec_client_method(url, method, op) is Some <==> (spec_http_method(method) is Some
            && spec_body(op) is Some && spec_return(op) is Some),
        spec_client_method(url, method, op) matches Some(cm) ==> {
            &&& cm.name == spec_to_snake_case(op.operation_id@)
            &&& cm.url == url
            &&& Some(cm.method) == spec_http_method(method)
            &&& Some(cm.body) == spec_body(op)
            &&& Some(cm.ret) == spec_return(op)
        },
{
}

/// The models of components come one per component, each the model of
/// its component; generation aborts exactly when it aborts on one of them.
pub proof fn law_models(comps: Seq<(Seq<char>, SpecTypedSchema)>, upto: Seq<(Seq<char>, SpecTypedSchema)>)
    ensures
        spec_models(comps, upto) is Some <==> forall|i: int|
            0 <= i < upto.len() ==> #[trigger] spec_model(comps, upto[i].0, upto[i].1) is Some,
        spec_models(comps, upto) matches Some(ms) ==> ms.len() == upto.len() && forall|i: int|
            0 <= i < upto.len() ==> spec_model(comps, upto[i].0, upto[i].1) == Some(#[trigger] ms[i]),
    decreases upto.len(),
{
    lemma_models_names(comps, upto);
    if upto.len() > 0 {
        let prefix = upto.drop_last();
        law_models(comps, prefix);
        assert forall|i: int| 0 <= i < prefix.len() implies prefix[i] == upto[i] by {}
        if spec_models(comps, prefix) is None {
            let k = choose|k: int|
                0 <= k < prefix.len() && !(spec_model(comps, prefix[k].0, prefix[k].1) is Some);
            assert(!(spec_model(comps, upto[k].0, upto[k].1) is Some));
        }
    }
}

/// The generated client: its servers' URLs in order, the client methods of
/// its paths, and the models of its typed component schemas; generation
/// aborts exactly when one of these does.
pub proof fn law_plan(doc: Spec)
    ensures
        spec_plan(doc) is Some <==> (spec_client_methods(doc.paths@) is Some && spec_typed_components(
            doc.components.schemas@,
        ) is Some && spec_gen_components(spec_typed_components(doc.components.schemas@)->0) is Some),
        spec_plan(doc) matches Some(p) ==> {
            &&& p.servers == doc.servers@.map_values(|s: Server| s.url@)
            &&& p.methods == spec_client_methods(doc.paths@)->0
            &&& p.models == spec_gen_components(spec_typed_components(doc.components.schemas@)->0)->0
        },
{
}

/// Snake case is, character after character, the character ASCII-lowercased,
/// preceded by `'_'` when it counts as uppercase and is not the first.
pub proof fn law_snake_case_pieces(chars: Seq<char>, upper: Seq<bool>)
    ensures
        snake_case_with(chars, upper) == Seq::new(
            chars.len(),
            |i: int|
                if i > 0 && upper[i] {
                    seq!['_', ascii_lowercase(chars[i])]
                } else {
                    seq![ascii_lowercase(chars[i])]
                },
        ).flatten(),
    decreases chars.len(),
{
    let all = Seq::new(
        chars.len(),
        |i: int|
            if i > 0 && upper[i] {
                seq!['_', ascii_lowercase(chars[i])]
            } else {
                seq![ascii_lowercase(chars[i])]
            },
    );
    all.lemma_flatten_and_flatten_alt_are_equivalent();
    if chars.len() == 0 {
        assert(all.flatten_alt() =~= Seq::<char>::empty());
    } else {
        let p = chars.drop_last();
        law_snake_case_pieces(p, upper);
        let pall = Seq::new(
            p.len(),
            |i: int|
                if i > 0 && upper[i] {
                    seq!['_', ascii_lowercase(p[i])]
                } else {
                    seq![ascii_lowercase(p[i])]
                },
        );
        pall.lemma_flatten_and_flatten_alt_are_equivalent();
        assert(all.drop_last() =~= pall);
        let n = chars.len() - 1;
        assert(chars.last() == chars[n]);
        if n > 0 && upper[n] {
            assert(all.last() =~= seq!['_'] + seq![ascii_lowercase(chars[n])]);
        } else {
            assert(all.last() =~= Seq::<char>::empty() + seq![ascii_lowercase(chars[n])]);
        }
        assert(snake_case_with(chars, upper) =~= all.flatten_alt());
    }
}

/// ASCII lowercasing maps each of `'A'..='Z'` to the letter 32 code points
/// on (`'a'..='z'`) and leaves every other character as it is.
pub proof fn law_ascii_lowercase(c: char)
    ensures
        'A' <= c && c <= 'Z' ==> ascii_lowercase(c) as u32 == (c as u32) + 32 && 'a' <= ascii_lowercase(
            c,
        ) && ascii_lowercase(c) <= 'z',
        !('A' <= c && c <= 'Z') ==> ascii_lowercase(c) == c,
{
    if 'A' <= c && c <= 'Z' {
        assert(97 <= (c as u32) + 32 <= 122);
    }
}

/// The last segment of a dotted name is the part after its last `'.'`: a
/// suffix of the name without a dot, which is the whole name or follows a
/// dot.
pub proof fn law_last_segment(s: Seq<char>)
    ensures
        ({
            let k = s.len() - crate::text::last_segment(s).len();
            &&& 0 <= k <= s.len()
            &&& crate::text::last_segment(s) == s.subrange(k, s.len() as int)
            &&& forall|i: int| k <= i < s.len() ==> s[i] != '.'
            &&& k == 0 || s[k - 1] == '.'
        }),
{
    lemma_last_dot(s);
}

proof fn lemma_last_dot(s: Seq<char>)
    ensures
        -1 <= last_dot(s) < s.len(),
        last_dot(s) >= 0 ==> s[last_dot(s)] == '.',
        forall|i: int| last_dot(s) < i < s.len() ==> s[i] != '.',
    decreases s.len(),
{
    if s.len() > 0 {
        lemma_last_dot(s.drop_last());
        assert forall|i: int| 0 <= i < s.len() - 1 implies s.drop_last()[i] == s[i] by {}
    }
}

/// The type names that parse.
pub open spec fn known_type(t: Seq<char>) -> bool {
    t == "boolean"@ || t == "integer"@ || t == "number"@ || t == "string"@ || t == "object"@ || t
        == "array"@
}

/// Parsing a type: `boolean`, `object` and `array` whatever the format;
/// `integer` is `int64` by default and knows the formats `int32` and
/// `int64`; `number` is `double` by default and knows `float` and
/// `double`; `string` is plain by default and knows `bytes`, `binary`,
/// `date`, `date-time` and `password`; any other format of these is an
/// invalid format of that type, and any other type an invalid type.
pub proof fn law_parse_type(t: Seq<char>, f: Option<Seq<char>>)
    ensures
        t == "boolean"@ ==> spec_parse_type(t, f) == Ok::<Type, SpecTypeError>(
            Type::Primative(Primative::Bool),
        ),
        t == "object"@ ==> spec_parse_type(t, f) == Ok::<Type, SpecTypeError>(Type::Object),
        t == "array"@ ==> spec_parse_type(t, f) == Ok::<Type, SpecTypeError>(Type::Array),
        t == "integer"@ ==> spec_parse_type(t, f) == match f {
            None => Ok(Type::Primative(Primative::I64)),
            Some(x) => if x == "int32"@ {
                Ok(Type::Primative(Primative::I32))
            } else if x == "int64"@ {
                Ok(Type::Primative(Primative::I64))
            } else {
                Err(SpecTypeError::InvalidFormat { typ: t, format: x })
            },
        },
        t == "number"@ ==> spec_parse_type(t, f) == match f {
            None => Ok(Type::Primative(Primative::F64)),
            Some(x) => if x == "float"@ {
                Ok(Type::Primative(Primative::F32))
            } else if x == "double"@ {
                Ok(Type::Primative(Primative::F64))
            } else {
                Err(SpecTypeError::InvalidFormat { typ: t, format: x })
            },
        },
        t == "string"@ ==> spec_parse_type(t, f) == match f {
            None => Ok(Type::Primative(Primative::String)),
            Some(x) => if x == "bytes"@ {
                Ok(Type::Primative(Primative::Bytes))
            } else if x == "binary"@ {
                Ok(Type::Primative(Primative::Binary))
            } else if x == "date"@ {
                Ok(Type::Primative(Primative::Date))
            } else if x == "date-time"@ {
                Ok(Type::Primative(Primative::DateTime))
            } else if x == "password"@ {
                Ok(Type::Primative(Primative::Password))
            } else {
                Err(SpecTypeError::InvalidFormat { typ: t, format: x })
            },
        },
        !known_type(t) ==> spec_parse_type(t, f) == Err::<Type, SpecTypeError>(
            SpecTypeError::InvalidType(t),
        ),
{
    reveal_strlit("boolean");
    reveal_strlit("integer");
    reveal_strlit("number");
    reveal_strlit("string");
    reveal_strlit("object");
    reveal_strlit("array");
    assert("boolean"@[0] == 'b');
    assert("integer"@[0] == 'i');
    assert("number"@[0] == 'n');
    assert("string"@[0] == 's');
    assert("object"@[0] == 'o');
    assert("array"@[0] == 'a');
}

} // verus!
