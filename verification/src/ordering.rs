//! Order properties: what the generated client keeps of the order of the
//! document's maps, and what it does not depend on.

use vstd::prelude::*;

use crate::client::{
    json_schema, spec_body, spec_client_method, spec_client_methods, spec_path_methods, spec_plan,
    spec_return, spec_typed_components,
};
use crate::document::{
    entry_keys, first_index, key_lt, keys_ascending, lookup, spec_endpoints, MediaType, Operation,
    Path, Response, Server, Spec,
};
use crate::laws::{
    all_endpoints, law_object_model_fields, law_one_method_per_operation, law_typed_components,
    lemma_models_names,
};
use crate::document::document_wf;
use crate::schema::{schema_wf, Outcome, SpecTypedSchema};
use crate::schema::{
    is_required, spec_classify, spec_classify_all, spec_fields, Property, Schema,
};
use crate::types::opt_string_view;

verus! {

/// The fields of an object follow its properties one for one: same names in
/// the same order, each required exactly when the schema lists it. So when
/// the properties come in key order, so do the fields.
pub proof fn law_fields_follow_properties(props: Seq<(String, Property)>, required: Option<Vec<String>>)
    ensures
        spec_fields(props, required) matches Some(fs) ==> {
            &&& fs.len() == props.len()
            &&& forall|i: int|
                0 <= i < props.len() ==> (#[trigger] fs[i]).ident == props[i].0@ && fs[i].required
                    == is_required(required, props[i].0@)
            &&& keys_ascending(entry_keys(props)) ==> forall|i: int, j: int|
                0 <= i < j < fs.len() ==> key_lt(#[trigger] fs[i].ident, #[trigger] fs[j].ident)
        },
    decreases props.len(),
{
    if props.len() > 0 {
        let prefix = props.drop_last();
        law_fields_follow_properties(prefix, required);
        assert forall|i: int| 0 <= i < prefix.len() implies prefix[i] == props[i] by {}
        if let Some(fs) = spec_fields(props, required) {
            let prev = spec_fields(prefix, required)->0;
            assert forall|i: int| 0 <= i < props.len() implies (#[trigger] fs[i]).ident
                == props[i].0@ && fs[i].required == is_required(required, props[i].0@) by {
                if i < prefix.len() {
                    assert(fs[i] == prev[i]);
                }
            }
            if keys_ascending(entry_keys(props)) {
                let keys = entry_keys(props);
                assert forall|i: int, j: int| 0 <= i < j < fs.len() implies key_lt(
                    #[trigger] fs[i].ident,
                    #[trigger] fs[j].ident,
                ) by {
                    assert(keys[i] == props[i].0@);
                    assert(keys[j] == props[j].0@);
                    assert(key_lt(keys[i], keys[j]));
                }
            }
        }
    }
}

/// The position of the path that the `i`-th endpoint of all paths belongs
/// to.
pub open spec fn path_of(paths: Seq<(String, Path)>, i: int) -> int
    decreases paths.len(),
{
    if paths.len() == 0 {
        0
    } else if i < all_endpoints(paths.drop_last()).len() {
        path_of(paths.drop_last(), i)
    } else {
        paths.len() - 1
    }
}

/// Each endpoint belongs to a path with its template, and the paths of the
/// endpoints come in path order.
pub proof fn lemma_path_of(paths: Seq<(String, Path)>)
    ensures
        forall|i: int|
            0 <= i < all_endpoints(paths).len() ==> 0 <= #[trigger] path_of(paths, i) < paths.len()
                && all_endpoints(paths)[i].0 == paths[path_of(paths, i)].0@,
        forall|i: int, j: int|
            0 <= i <= j < all_endpoints(paths).len() ==> #[trigger] path_of(paths, i)
                <= #[trigger] path_of(paths, j),
    decreases paths.len(),
{
    if paths.len() > 0 {
        let prefix = paths.drop_last();
        lemma_path_of(prefix);
        let pe = all_endpoints(prefix);
        let url = paths.last().0@;
        let eps = spec_endpoints(paths.last().1);
        let tail = eps.map_values(|e: (Seq<char>, crate::document::Operation)| (url, e.0, e.1));
        let ae = all_endpoints(paths);
        assert(ae == pe + tail);
        assert forall|i: int| 0 <= i < ae.len() implies 0 <= #[trigger] path_of(paths, i)
            < paths.len() && ae[i].0 == paths[path_of(paths, i)].0@ by {
            if i < pe.len() {
                assert(ae[i] == pe[i]);
                assert(prefix[path_of(prefix, i)] == paths[path_of(prefix, i)]);
            } else {
                assert(ae[i] == tail[i - pe.len()]);
            }
        }
        assert forall|i: int, j: int| 0 <= i <= j < ae.len() implies #[trigger] path_of(paths, i)
            <= #[trigger] path_of(paths, j) by {
            if j < pe.len() {
                assert(path_of(prefix, i) <= path_of(prefix, j));
            } else if i < pe.len() {
                assert(path_of(prefix, i) < prefix.len());
            }
        }
    }
}

/// The client methods follow the paths: when the paths come in key order,
/// the path templates of the methods never go down.
pub proof fn law_methods_follow_paths(paths: Seq<(String, Path)>)
    ensures
        spec_client_methods(paths) matches Some(ms) ==> (keys_ascending(entry_keys(paths))
            ==> forall|i: int, j: int|
            0 <= i < j < ms.len() ==> #[trigger] ms[i].url == #[trigger] ms[j].url || key_lt(
                ms[i].url,
                ms[j].url,
            )),
{
    law_one_method_per_operation(paths);
    lemma_path_of(paths);
    if let Some(ms) = spec_client_methods(paths) {
        if keys_ascending(entry_keys(paths)) {
            let keys = entry_keys(paths);
            let ae = all_endpoints(paths);
            assert forall|i: int, j: int| 0 <= i < j < ms.len() implies #[trigger] ms[i].url
                == #[trigger] ms[j].url || key_lt(ms[i].url, ms[j].url) by {
                let a = path_of(paths, i);
                let b = path_of(paths, j);
                assert(a <= b);
                assert(ms[i].url == ae[i].0);
                assert(ms[j].url == ae[j].0);
                assert(keys[a] == paths[a].0@);
                assert(keys[b] == paths[b].0@);
                if a < b {
                    assert(key_lt(keys[a], keys[b]));
                }
            }
        }
    }
}

/// Whether two property lists say the same: same names, types and formats,
/// in the same order.
pub open spec fn same_properties(a: Option<Vec<(String, Property)>>, b: Option<Vec<(String, Property)>>) -> bool {
    match (a, b) {
        (None, None) => true,
        (Some(x), Some(y)) => x@.len() == y@.len() && forall|i: int|
            0 <= i < x@.len() ==> (#[trigger] x@[i]).0@ == y@[i].0@ && x@[i].1.typ@ == y@[i].1.typ@
                && opt_string_view(x@[i].1.format) == opt_string_view(y@[i].1.format),
        _ => false,
    }
}

/// Whether two `required` lists name the same properties, whatever their
/// order or repetitions.
pub open spec fn same_required(a: Option<Vec<String>>, b: Option<Vec<String>>) -> bool {
    forall|n: Seq<char>| #[trigger] is_required(a, n) == is_required(b, n)
}

/// Whether two schemas are the same but for the order (or repetition) of
/// the names in their `required` lists, at any depth.
pub open spec fn same_up_to_required(a: Schema, b: Schema) -> bool
    decreases a,
{
    &&& opt_string_view(a.reference) == opt_string_view(b.reference)
    &&& opt_string_view(a.typ) == opt_string_view(b.typ)
    &&& opt_string_view(a.format) == opt_string_view(b.format)
    &&& same_required(a.required, b.required)
    &&& same_properties(a.properties, b.properties)
    &&& match (a.all_of, b.all_of) {
        (None, None) => true,
        (Some(x), Some(y)) => all_same_up_to_required(x@, y@),
        _ => false,
    }
    &&& match (a.items, b.items) {
        (None, None) => true,
        (Some(x), Some(y)) => same_up_to_required(*x, *y),
        _ => false,
    }
}

/// Whether two lists of schemas are the same, pairwise, but for the order
/// of their `required` lists.
pub open spec fn all_same_up_to_required(a: Seq<Schema>, b: Seq<Schema>) -> bool
    decreases a,
{
    if a.len() == 0 {
        b.len() == 0
    } else {
        b.len() > 0 && all_same_up_to_required(a.drop_last(), b.drop_last()) && same_up_to_required(
            a.last(),
            b.last(),
        )
    }
}

proof fn lemma_fields_same(
    a: Seq<(String, Property)>,
    b: Seq<(String, Property)>,
    ra: Option<Vec<String>>,
    rb: Option<Vec<String>>,
)
    requires
        a.len() == b.len(),
        forall|i: int|
            0 <= i < a.len() ==> (#[trigger] a[i]).0@ == b[i].0@ && a[i].1.typ@ == b[i].1.typ@
                && opt_string_view(a[i].1.format) == opt_string_view(b[i].1.format),
        same_required(ra, rb),
    ensures
        spec_fields(a, ra) == spec_fields(b, rb),
    decreases a.len(),
{
    if a.len() > 0 {
        let n = a.len() - 1;
        assert(a.drop_last().len() == b.drop_last().len());
        assert forall|i: int| 0 <= i < a.drop_last().len() implies (#[trigger] a.drop_last()[i]).0@
            == b.drop_last()[i].0@ && a.drop_last()[i].1.typ@ == b.drop_last()[i].1.typ@
            && opt_string_view(a.drop_last()[i].1.format) == opt_string_view(
            b.drop_last()[i].1.format,
        ) by {
            assert(a.drop_last()[i] == a[i]);
            assert(b.drop_last()[i] == b[i]);
        }
        lemma_fields_same(a.drop_last(), b.drop_last(), ra, rb);
        assert(a[n].0@ == b[n].0@);
        assert(is_required(ra, a[n].0@) == is_required(rb, a[n].0@));
    }
}

/// Schemas that differ only in the order of their `required` lists type
/// the same.
pub proof fn lemma_classify_same(a: Schema, b: Schema)
    requires
        same_up_to_required(a, b),
    ensures
        spec_classify(a) == spec_classify(b),
    decreases a,
{
    match (a.all_of, b.all_of) {
        (Some(x), Some(y)) => {
            lemma_classify_all_same(x@, y@);
        },
        _ => {},
    }
    match (a.items, b.items) {
        (Some(x), Some(y)) => {
            lemma_classify_same(*x, *y);
        },
        _ => {},
    }
    match (a.properties, b.properties) {
        (Some(x), Some(y)) => {
            lemma_fields_same(x@, y@, a.required, b.required);
        },
        _ => {},
    }
}

/// Lists of schemas that differ only in the order of `required` lists type
/// the same.
pub proof fn lemma_classify_all_same(a: Seq<Schema>, b: Seq<Schema>)
    requires
        all_same_up_to_required(a, b),
    ensures
        spec_classify_all(a) == spec_classify_all(b),
    decreases a,
{
    if a.len() > 0 {
        lemma_classify_all_same(a.drop_last(), b.drop_last());
        lemma_classify_same(a.last(), b.last());
    }
}

/// Whether two content maps are the same but for the order of the
/// `required` lists in their schemas.
pub open spec fn same_media(a: Option<Vec<(String, MediaType)>>, b: Option<Vec<(String, MediaType)>>) -> bool {
    match (a, b) {
        (None, None) => true,
        (Some(x), Some(y)) => x@.len() == y@.len() && entry_keys(x@) == entry_keys(y@) && forall|i: int|
            0 <= i < x@.len() ==> same_up_to_required((#[trigger] x@[i]).1.schema, y@[i].1.schema),
        _ => false,
    }
}

/// Whether two response maps are the same but for the order of `required`
/// lists.
pub open spec fn same_responses(a: Option<Vec<(String, Response)>>, b: Option<Vec<(String, Response)>>) -> bool {
    match (a, b) {
        (None, None) => true,
        (Some(x), Some(y)) => x@.len() == y@.len() && entry_keys(x@) == entry_keys(y@) && forall|i: int|
            0 <= i < x@.len() ==> same_media((#[trigger] x@[i]).1.content, y@[i].1.content),
        _ => false,
    }
}

/// Whether two operations are the same, as generation reads them, but for
/// the order of `required` lists.
pub open spec fn same_operation(a: Operation, b: Operation) -> bool {
    &&& a.operation_id@ == b.operation_id@
    &&& match (a.request_body, b.request_body) {
        (None, None) => true,
        (Some(x), Some(y)) => same_media(x.content, y.content),
        _ => false,
    }
    &&& same_responses(a.responses, b.responses)
}

/// Whether two lists of endpoints are the same but for the order of
/// `required` lists.
pub open spec fn same_endpoints(a: Seq<(Seq<char>, Operation)>, b: Seq<(Seq<char>, Operation)>) -> bool {
    a.len() == b.len() && forall|i: int|
        0 <= i < a.len() ==> (#[trigger] a[i]).0 == b[i].0 && same_operation(a[i].1, b[i].1)
}

/// Whether two lists of paths are the same but for the order of `required`
/// lists.
pub open spec fn same_paths(a: Seq<(String, Path)>, b: Seq<(String, Path)>) -> bool {
    a.len() == b.len() && forall|i: int|
        0 <= i < a.len() ==> (#[trigger] a[i]).0@ == b[i].0@ && same_endpoints(
            spec_endpoints(a[i].1),
            spec_endpoints(b[i].1),
        )
}

/// Whether two lists of component schemas are the same but for the order
/// of `required` lists.
pub open spec fn same_schemas(a: Seq<(String, Schema)>, b: Seq<(String, Schema)>) -> bool {
    a.len() == b.len() && forall|i: int|
        0 <= i < a.len() ==> (#[trigger] a[i]).0@ == b[i].0@ && same_up_to_required(a[i].1, b[i].1)
}

/// Whether two documents are the same, as generation reads them, but for
/// the order (or repetition) of the names in `required` lists.
pub open spec fn same_document_up_to_required(a: Spec, b: Spec) -> bool {
    &&& a.servers@.map_values(|s: Server| s.url@) == b.servers@.map_values(|s: Server| s.url@)
    &&& same_paths(a.paths@, b.paths@)
    &&& same_schemas(a.components.schemas@, b.components.schemas@)
}

proof fn lemma_first_index_range(keys: Seq<Seq<char>>, key: Seq<char>)
    ensures
        -1 <= first_index(keys, key) < keys.len(),
{
    if exists|i: int| crate::document::is_first_index(keys, key, i) {
        let k = choose|i: int| crate::document::is_first_index(keys, key, i);
        assert(crate::document::is_first_index(keys, key, k));
    }
}

proof fn lemma_json_schema_same(a: Option<Vec<(String, MediaType)>>, b: Option<Vec<(String, MediaType)>>)
    requires
        same_media(a, b),
    ensures
        match (json_schema(a), json_schema(b)) {
            (None, None) => true,
            (Some(s), Some(t)) => same_up_to_required(s, t),
            _ => false,
        },
{
    if let (Some(x), Some(y)) = (a, b) {
        lemma_first_index_range(entry_keys(x@), "application/json"@);
        let i = first_index(entry_keys(x@), "application/json"@);
        assert(entry_keys(x@).len() == x@.len());
        if 0 <= i {
            assert(same_up_to_required(x@[i].1.schema, y@[i].1.schema));
        }
    }
}

proof fn lemma_operation_same(a: Operation, b: Operation)
    requires
        same_operation(a, b),
    ensures
        spec_body(a) == spec_body(b),
        spec_return(a) == spec_return(b),
{
    if let (Some(x), Some(y)) = (a.request_body, b.request_body) {
        lemma_json_schema_same(x.content, y.content);
        if let (Some(s), Some(t)) = (json_schema(x.content), json_schema(y.content)) {
            lemma_classify_same(s, t);
        }
    }
    if let (Some(x), Some(y)) = (a.responses, b.responses) {
        lemma_first_index_range(entry_keys(x@), "200"@);
        let i = first_index(entry_keys(x@), "200"@);
        assert(entry_keys(x@).len() == x@.len());
        if 0 <= i {
            assert(same_media(x@[i].1.content, y@[i].1.content));
            assert(lookup(x@, "200"@) == Some(x@[i].1));
            assert(lookup(y@, "200"@) == Some(y@[i].1));
            lemma_json_schema_same(x@[i].1.content, y@[i].1.content);
            if let (Some(s), Some(t)) = (json_schema(x@[i].1.content), json_schema(y@[i].1.content)) {
                lemma_classify_same(s, t);
            }
        }
    }
}

proof fn lemma_path_methods_same(url: Seq<char>, a: Seq<(Seq<char>, Operation)>, b: Seq<(Seq<char>, Operation)>)
    requires
        same_endpoints(a, b),
    ensures
        spec_path_methods(url, a) == spec_path_methods(url, b),
    decreases a.len(),
{
    if a.len() > 0 {
        let n = a.len() - 1;
        assert(same_endpoints(a.drop_last(), b.drop_last())) by {
            assert forall|i: int| 0 <= i < a.drop_last().len() implies (#[trigger] a.drop_last()[i]).0
                == b.drop_last()[i].0 && same_operation(a.drop_last()[i].1, b.drop_last()[i].1) by {
                assert(a.drop_last()[i] == a[i]);
                assert(b.drop_last()[i] == b[i]);
            }
        }
        lemma_path_methods_same(url, a.drop_last(), b.drop_last());
        assert(a[n].0 == b[n].0 && same_operation(a[n].1, b[n].1));
        lemma_operation_same(a[n].1, b[n].1);
        assert(spec_client_method(url, a.last().0, a.last().1) == spec_client_method(
            url,
            b.last().0,
            b.last().1,
        ));
    }
}

proof fn lemma_client_methods_same(a: Seq<(String, Path)>, b: Seq<(String, Path)>)
    requires
        same_paths(a, b),
    ensures
        spec_client_methods(a) == spec_client_methods(b),
    decreases a.len(),
{
    if a.len() > 0 {
        let n = a.len() - 1;
        assert(same_paths(a.drop_last(), b.drop_last())) by {
            assert forall|i: int| 0 <= i < a.drop_last().len() implies (#[trigger] a.drop_last()[i]).0@
                == b.drop_last()[i].0@ && same_endpoints(
                spec_endpoints(a.drop_last()[i].1),
                spec_endpoints(b.drop_last()[i].1),
            ) by {
                assert(a.drop_last()[i] == a[i]);
                assert(b.drop_last()[i] == b[i]);
            }
        }
        lemma_client_methods_same(a.drop_last(), b.drop_last());
        assert(a[n].0@ == b[n].0@);
        lemma_path_methods_same(a[n].0@, spec_endpoints(a[n].1), spec_endpoints(b[n].1));
    }
}

proof fn lemma_typed_components_same(a: Seq<(String, Schema)>, b: Seq<(String, Schema)>)
    requires
        same_schemas(a, b),
    ensures
        spec_typed_components(a) == spec_typed_components(b),
    decreases a.len(),
{
    if a.len() > 0 {
        let n = a.len() - 1;
        assert(same_schemas(a.drop_last(), b.drop_last())) by {
            assert forall|i: int| 0 <= i < a.drop_last().len() implies (#[trigger] a.drop_last()[i]).0@
                == b.drop_last()[i].0@ && same_up_to_required(a.drop_last()[i].1, b.drop_last()[i].1) by {
                assert(a.drop_last()[i] == a[i]);
                assert(b.drop_last()[i] == b[i]);
            }
        }
        lemma_typed_components_same(a.drop_last(), b.drop_last());
        assert(a[n].0@ == b[n].0@);
        lemma_classify_same(a[n].1, b[n].1);
    }
}

/// The generated client does not depend on the order (or repetition) of
/// the names in any schema's `required` list: two documents that differ
/// only there give the same client, or both abort.
pub proof fn law_plan_ignores_required_order(a: Spec, b: Spec)
    requires
        same_document_up_to_required(a, b),
    ensures
        spec_plan(a) == spec_plan(b),
{
    lemma_client_methods_same(a.paths@, b.paths@);
    lemma_typed_components_same(a.components.schemas@, b.components.schemas@);
}

/// The fields of an object schema read from JSON come in strictly
/// ascending name order.
pub proof fn law_object_fields_ascending(s: Schema)
    requires
        schema_wf(s),
    ensures
        spec_classify(s) matches Outcome::Typed(SpecTypedSchema::Object(fs)) ==> forall|i: int, j: int|
            0 <= i < j < fs.len() ==> key_lt(#[trigger] fs[i].ident, #[trigger] fs[j].ident),
{
    if let Some(props) = s.properties {
        law_fields_follow_properties(props@, s.required);
    }
}

/// For a document read from JSON, the generated client follows key order:
/// the path templates of its methods never go down, each model is the
/// model of the component at the same position, and the model of an object
/// component has its fields in strictly ascending name order.
pub proof fn law_plan_follows_key_order(doc: Spec)
    requires
        document_wf(doc),
    ensures
        spec_plan(doc) matches Some(p) ==> {
            &&& forall|i: int, j: int|
                0 <= i < j < p.methods.len() ==> #[trigger] p.methods[i].url
                    == #[trigger] p.methods[j].url || key_lt(p.methods[i].url, p.methods[j].url)
            &&& p.models.len() == doc.components.schemas@.len()
            &&& forall|i: int|
                0 <= i < p.models.len() && spec_classify(doc.components.schemas@[i].1) is Typed
                    && spec_classify(doc.components.schemas@[i].1)->Typed_0 is Object
                    ==> forall|a: int, b: int|
                    0 <= a < b < (#[trigger] p.models[i]).fields.len() ==> key_lt(
                        #[trigger] p.models[i].fields[a].ident,
                        #[trigger] p.models[i].fields[b].ident,
                    )
        },
{
    law_methods_follow_paths(doc.paths@);
    let schemas = doc.components.schemas@;
    law_typed_components(schemas);
    if let Some(p) = spec_plan(doc) {
        let comps = spec_typed_components(schemas)->0;
        lemma_models_names(comps, comps);
        assert forall|i: int|
            0 <= i < p.models.len() && spec_classify(schemas[i].1) is Typed
                && spec_classify(schemas[i].1)->Typed_0 is Object implies forall|a: int, b: int|
            0 <= a < b < (#[trigger] p.models[i]).fields.len() ==> key_lt(
                #[trigger] p.models[i].fields[a].ident,
                #[trigger] p.models[i].fields[b].ident,
            ) by {
            assert(schema_wf(schemas[i].1));
            law_object_fields_ascending(schemas[i].1);
            let fs = spec_classify(schemas[i].1)->Typed_0->Object_0;
            assert(comps[i].1 == SpecTypedSchema::Object(fs));
            law_object_model_fields(fs);
            assert(crate::models::spec_model(comps, comps[i].0, comps[i].1) == Some(p.models[i]));
            let mf = p.models[i].fields;
            assert(crate::models::model_fields(fs) == Some(mf));
            assert forall|a: int, b: int| 0 <= a < b < mf.len() implies key_lt(
                #[trigger] mf[a].ident,
                #[trigger] mf[b].ident,
            ) by {
                assert(mf[a].ident == fs[a].ident);
                assert(mf[b].ident == fs[b].ident);
            }
        }
    }
}

} // verus!
