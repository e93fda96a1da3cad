//! Layout of the client that a document generates: its servers, one method
//! per operation, and the model structs of its components.

use vstd::prelude::*;

use crate::document::{
    endpoints_view, lookup, lookup_entry, spec_endpoints, MediaType, Operation, Path, Server, Spec,
};
use crate::models::{
    components_view, gen_components_checked, models_view, spec_gen_components, Model, SpecModel,
};
use crate::schema::{classify, spec_classify, Outcome, Schema, SpecTypedSchema, TypedSchema};
use crate::text::{spec_to_snake_case, str_eq, to_snake_case};
use crate::types::opt_string_view;

verus! {

/// The HTTP methods that client methods can use.
#[derive(Debug, Clone, Copy, PartialEq, Eq, Structural)]
pub enum HttpMethod {
    Get,
    Post,
    Delete,
}

/// What a client method returns on success.
#[derive(Debug)]
pub enum ReturnShape {
    /// Nothing.
    Unit,
    /// The named model.
    Model(String),
    /// A list of the named model.
    Models(String),
}

/// A method of the generated client, for one operation.
#[derive(Debug)]
pub struct ClientMethod {
    /// The snake-case operation id.
    pub name: String,
    pub method: HttpMethod,
    /// The path template, appended to the base URL.
    pub url: String,
    /// The model that the method sends as its JSON body, if any.
    pub body: Option<String>,
    pub ret: ReturnShape,
}

/// The generated client: its servers, methods and model structs.
#[derive(Debug)]
pub struct ApiPlan {
    pub servers: Vec<String>,
    pub methods: Vec<ClientMethod>,
    pub models: Vec<Model>,
}

/// A `ReturnShape` with its names as characters.
pub enum SpecReturnShape {
    Unit,
    Model(Seq<char>),
    Models(Seq<char>),
}

/// A `ClientMethod` with its texts as characters.
pub struct SpecClientMethod {
    pub name: Seq<char>,
    pub method: HttpMethod,
    pub url: Seq<char>,
    pub body: Option<Seq<char>>,
    pub ret: SpecReturnShape,
}

/// An `ApiPlan` with its texts as characters.
pub struct SpecApiPlan {
    pub servers: Seq<Seq<char>>,
    pub methods: Seq<SpecClientMethod>,
    pub models: Seq<SpecModel>,
}

impl View for ReturnShape {
    type V = SpecReturnShape;

    open spec fn view(&self) -> SpecReturnShape {
        match self {
            ReturnShape::Unit => SpecReturnShape::Unit,
            ReturnShape::Model(m) => SpecReturnShape::Model(m@),
            ReturnShape::Models(m) => SpecReturnShape::Models(m@),
        }
    }
}

impl View for ClientMethod {
    type V = SpecClientMethod;

    open spec fn view(&self) -> SpecClientMethod {
        SpecClientMethod {
            name: self.name@,
            method: self.method,
            url: self.url@,
            body: opt_string_view(self.body),
            ret: self.ret@,
        }
    }
}

/// Client methods as `SpecClientMethod`s.
pub open spec fn methods_view(ms: Seq<ClientMethod>) -> Seq<SpecClientMethod> {
    ms.map_values(|m: ClientMethod| m@)
}

/// Strings as their characters.
pub open spec fn strings_view(ss: Seq<String>) -> Seq<Seq<char>> {
    ss.map_values(|s: String| s@)
}

impl View for ApiPlan {
    type V = SpecApiPlan;

    open spec fn view(&self) -> SpecApiPlan {
        SpecApiPlan {
            servers: strings_view(self.servers@),
            methods: methods_view(self.methods@),
            models: models_view(self.models@),
        }
    }
}

/// The HTTP method named `m`; `None` for a method that clients cannot use
/// (generation aborts there).
pub open spec fn spec_http_method(m: Seq<char>) -> Option<HttpMethod> {
    if m == "get"@ {
        Some(HttpMethod::Get)
    } else if m == "post"@ {
        Some(HttpMethod::Post)
    } else if m == "delete"@ {
        Some(HttpMethod::Delete)
    } else {
        None
    }
}

/// The schema of the `application/json` media type of a content map.
pub open spec fn json_schema(content: Option<Vec<(String, MediaType)>>) -> Option<Schema> {
    match content {
        Some(c) => match lookup(c@, "application/json"@) {
            Some(mt) => Some(mt.schema),
            None => None,
        },
        None => None,
    }
}

/// The body model of an operation: the component that the JSON request
/// body refers to, if it refers to one. `None` when typing the body schema
/// aborts.
pub open spec fn spec_body(op: Operation) -> Option<Option<Seq<char>>> {
    match op.request_body {
        None => Some(None),
        Some(rb) => match json_schema(rb.content) {
            None => Some(None),
            Some(s) => match spec_classify(s) {
                Outcome::Aborts => None,
                Outcome::Typed(SpecTypedSchema::Ref(c)) => Some(Some(c)),
                _ => Some(None),
            },
        },
    }
}

/// What an operation returns: the component that the JSON body of its
/// `200` response refers to, or a list of it when that body is an array of
/// references; nothing otherwise. `None` when typing that schema aborts.
pub open spec fn spec_return(op: Operation) -> Option<SpecReturnShape> {
    match op.responses {
        None => Some(SpecReturnShape::Unit),
        Some(rs) => match lookup(rs@, "200"@) {
            None => Some(SpecReturnShape::Unit),
            Some(resp) => match json_schema(resp.content) {
                None => Some(SpecReturnShape::Unit),
                Some(s) => match spec_classify(s) {
                    Outcome::Aborts => None,
                    Outcome::Typed(SpecTypedSchema::Ref(c)) => Some(SpecReturnShape::Model(c)),
                    Outcome::Typed(SpecTypedSchema::Array(inner)) => match *inner {
                        SpecTypedSchema::Ref(c) => Some(SpecReturnShape::Models(c)),
                        _ => Some(SpecReturnShape::Unit),
                    },
                    _ => Some(SpecReturnShape::Unit),
                },
            },
        },
    }
}

/// The client method of the operation `op`, offered under `method` at
/// `url`; `None` when generation aborts on it.
pub open spec fn spec_client_method(url: Seq<char>, method: Seq<char>, op: Operation) -> Option<
    SpecClientMethod,
> {
    match (spec_http_method(method), spec_body(op), spec_return(op)) {
        (Some(m), Some(body), Some(ret)) => Some(
            SpecClientMethod {
                name: spec_to_snake_case(op.operation_id@),
                method: m,
                url,
                body,
                ret,
            },
        ),
        _ => None,
    }
}

/// The client methods of the endpoints of one path, in order.
pub open spec fn spec_path_methods(url: Seq<char>, eps: Seq<(Seq<char>, Operation)>) -> Option<
    Seq<SpecClientMethod>,
>
    decreases eps.len(),
{
    if eps.len() == 0 {
        Some(Seq::empty())
    } else {
        match spec_path_methods(url, eps.drop_last()) {
            None => None,
            Some(prev) => match spec_client_method(url, eps.last().0, eps.last().1) {
                Some(m) => Some(prev.push(m)),
                None => None,
            },
        }
    }
}

/// The client methods of all paths: for each path in order, those of its
/// endpoints.
pub open spec fn spec_client_methods(paths: Seq<(String, Path)>) -> Option<Seq<SpecClientMethod>>
    decreases paths.len(),
{
    if paths.len() == 0 {
        Some(Seq::empty())
    } else {
        match spec_client_methods(paths.drop_last()) {
            None => None,
            Some(prev) => match spec_path_methods(paths.last().0@, spec_endpoints(paths.last().1)) {
                Some(more) => Some(prev + more),
                None => None,
            },
        }
    }
}

/// The component schemas, each typed; `None` when one of them does not
/// type (generation aborts there).
pub open spec fn spec_typed_components(schemas: Seq<(String, Schema)>) -> Option<
    Seq<(Seq<char>, SpecTypedSchema)>,
>
    decreases schemas.len(),
{
    if schemas.len() == 0 {
        Some(Seq::empty())
    } else {
        match spec_typed_components(schemas.drop_last()) {
            None => None,
            Some(prev) => match spec_classify(schemas.last().1) {
                Outcome::Typed(t) => Some(prev.push((schemas.last().0@, t))),
                _ => None,
            },
        }
    }
}

/// The client that a document generates; `None` when generation aborts.
pub open spec fn spec_plan(doc: Spec) -> Option<SpecApiPlan> {
    match (spec_client_methods(doc.paths@), spec_typed_components(doc.components.schemas@)) {
        (Some(methods), Some(comps)) => match spec_gen_components(comps) {
            Some(models) => Some(
                SpecApiPlan {
                    servers: doc.servers@.map_values(|s: Server| s.url@),
                    methods,
                    models,
                },
            ),
            None => None,
        },
        _ => None,
    }
}

proof fn lemma_path_methods_prefix(url: Seq<char>, eps: Seq<(Seq<char>, Operation)>, i: int)
    requires
        0 <= i <= eps.len(),
        spec_path_methods(url, eps.take(i)) is None,
    ensures
        spec_path_methods(url, eps) is None,
    decreases eps.len(),
{
    if i < eps.len() {
        assert(eps.drop_last().take(i) =~= eps.take(i));
        lemma_path_methods_prefix(url, eps.drop_last(), i);
    } else {
        assert(eps.take(i) =~= eps);
    }
}

proof fn lemma_client_methods_prefix(paths: Seq<(String, Path)>, i: int)
    requires
        0 <= i <= paths.len(),
        spec_client_methods(paths.take(i)) is None,
    ensures
        spec_client_methods(paths) is None,
    decreases paths.len(),
{
    if i < paths.len() {
        assert(paths.drop_last().take(i) =~= paths.take(i));
        lemma_client_methods_prefix(paths.drop_last(), i);
    } else {
        assert(paths.take(i) =~= paths);
    }
}

proof fn lemma_typed_components_prefix(schemas: Seq<(String, Schema)>, i: int)
    requires
        0 <= i <= schemas.len(),
        spec_typed_components(schemas.take(i)) is None,
    ensures
        spec_typed_components(schemas) is None,
    decreases schemas.len(),
{
    if i < schemas.len() {
        assert(schemas.drop_last().take(i) =~= schemas.take(i));
        lemma_typed_components_prefix(schemas.drop_last(), i);
    } else {
        assert(schemas.take(i) =~= schemas);
    }
}

/// The HTTP method named `m`, if clients can use it.
pub fn http_method(m: &str) -> (res: Option<HttpMethod>)
    ensures
        res == spec_http_method(m@),
{
    if str_eq(m, "get") {
        Some(HttpMethod::Get)
    } else if str_eq(m, "post") {
        Some(HttpMethod::Post)
    } else if str_eq(m, "delete") {
        Some(HttpMethod::Delete)
    } else {
        None
    }
}

/// The schema of the `application/json` media type of a content map.
fn json_schema_of(content: &Option<Vec<(String, MediaType)>>) -> (res: Option<&Schema>)
    ensures
        match res {
            Some(s) => json_schema(*content) == Some(*s),
            None => json_schema(*content) is None,
        },
{
    match content {
        Some(c) => match lookup_entry(c, "application/json") {
            Some(mt) => Some(&mt.schema),
            None => None,
        },
        None => None,
    }
}

/// The body model of an operation, or `None` when typing its body schema
/// aborts.
fn body_of(op: &Operation) -> (res: Option<Option<String>>)
    ensures
        match (res, spec_body(*op)) {
            (Some(b), Some(s)) => opt_string_view(b) == s,
            (None, None) => true,
            _ => false,
        },
{
    match &op.request_body {
        None => Some(None),
        Some(rb) => match json_schema_of(&rb.content) {
            None => Some(None),
            Some(s) => match classify(s) {
                Outcome::Aborts => None,
                Outcome::Typed(TypedSchema::Ref(c)) => Some(Some(c)),
                _ => Some(None),
            },
        },
    }
}

/// What an operation returns, or `None` when typing its response schema
/// aborts.
fn return_of(op: &Operation) -> (res: Option<ReturnShape>)
    ensures
        match (res, spec_return(*op)) {
            (Some(r), Some(s)) => r@ == s,
            (None, None) => true,
            _ => false,
        },
{
    match &op.responses {
        None => Some(ReturnShape::Unit),
        Some(rs) => match lookup_entry(rs, "200") {
            None => Some(ReturnShape::Unit),
            Some(resp) => match json_schema_of(&resp.content) {
                None => Some(ReturnShape::Unit),
                Some(s) => match classify(s) {
                    Outcome::Aborts => None,
                    Outcome::Typed(TypedSchema::Ref(c)) => Some(ReturnShape::Model(c)),
                    Outcome::Typed(TypedSchema::Array(inner)) => {
                        let inner = *inner;
                        proof {
                            reveal_with_fuel(crate::schema::typed_view, 2);
                        }
                        match inner {
                            TypedSchema::Ref(c) => Some(ReturnShape::Models(c)),
                            _ => Some(ReturnShape::Unit),
                        }
                    },
                    _ => Some(ReturnShape::Unit),
                },
            },
        },
    }
}

/// The client method of the operation `op`, offered under `method` at
/// `url`, or `None` when generation aborts on it.
fn client_method(url: &String, method: &String, op: &Operation) -> (res: Option<ClientMethod>)
    ensures
        match (res, spec_client_method(url@, method@, *op)) {
            (Some(m), Some(s)) => m@ == s,
            (None, None) => true,
            _ => false,
        },
{
    let m = match http_method(method.as_str()) {
        Some(m) => m,
        None => return None,
    };
    let body = match body_of(op) {
        Some(b) => b,
        None => return None,
    };
    let ret = match return_of(op) {
        Some(r) => r,
        None => return None,
    };
    let name = to_snake_case(op.operation_id.as_str());
    Some(ClientMethod { name, method: m, url: url.clone(), body, ret })
}

/// The client methods of the endpoints of one path, or `None` when
/// generation aborts on one of them.
fn path_methods(url: &String, eps: &Vec<(String, Operation)>) -> (res: Option<Vec<ClientMethod>>)
    ensures
        match (res, spec_path_methods(url@, endpoints_view(eps@))) {
            (Some(ms), Some(s)) => methods_view(ms@) == s,
            (None, None) => true,
            _ => false,
        },
{
    let ghost ev = endpoints_view(eps@);
    let mut out: Vec<ClientMethod> = Vec::new();
    let mut i: usize = 0;
    assert(ev.take(0) =~= Seq::<(Seq<char>, Operation)>::empty());
    while i < eps.len()
        invariant
            ev == endpoints_view(eps@),
            0 <= i <= eps@.len(),
            spec_path_methods(url@, ev.take(i as int)) == Some(methods_view(out@)),
        decreases eps@.len() - i,
    {
        proof {
            assert(ev.take(i + 1).drop_last() =~= ev.take(i as int));
            assert(ev.take(i + 1).last() == (eps@[i as int].0@, eps@[i as int].1));
        }
        match client_method(url, &eps[i].0, &eps[i].1) {
            Some(m) => {
                let ghost before = out@;
                out.push(m);
                assert(methods_view(out@) =~= methods_view(before).push(out@.last()@));
            },
            None => {
                proof {
                    lemma_path_methods_prefix(url@, ev, i + 1);
                }
                return None;
            },
        }
        i = i + 1;
    }
    assert(ev.take(eps@.len() as int) =~= ev);
    Some(out)
}

/// The client methods of all paths, or `None` when generation aborts on
/// one of them.
fn client_methods(paths: Vec<(String, Path)>) -> (res: Option<Vec<ClientMethod>>)
    ensures
        match (res, spec_client_methods(paths@)) {
            (Some(ms), Some(s)) => methods_view(ms@) == s,
            (None, None) => true,
            _ => false,
        },
{
    let ghost all = paths@;
    let n = paths.len();
    let mut rest = paths;
    let mut out: Vec<ClientMethod> = Vec::new();
    let mut i: usize = 0;
    assert(all.take(0) =~= Seq::<(String, Path)>::empty());
    assert(rest@ =~= all.subrange(0, n as int));
    while i < n
        invariant
            all == paths@,
            n == all.len(),
            0 <= i <= n,
            rest@ == all.subrange(i as int, n as int),
            spec_client_methods(all.take(i as int)) == Some(methods_view(out@)),
        decreases n - i,
    {
        let ghost before_rest = rest@;
        let entry = rest.remove(0);
        let ghost g = entry;
        let (url, path) = entry;
        proof {
            assert(g == all[i as int]);
            assert(url == g.0 && path == g.1);
            assert(all.take(i + 1).drop_last() =~= all.take(i as int));
            assert(all.take(i + 1).last() == all[i as int]);
            assert(rest@ =~= all.subrange(i + 1, n as int));
        }
        let eps = path.endpoints();
        match path_methods(&url, &eps) {
            Some(more) => {
                let mut more = more;
                let ghost before = out@;
                let ghost added = more@;
                out.append(&mut more);
                assert(methods_view(out@) =~= methods_view(before) + methods_view(added));
            },
            None => {
                proof {
                    lemma_client_methods_prefix(all, i + 1);
                }
                return None;
            },
        }
        i = i + 1;
    }
    assert(all.take(n as int) =~= all);
    Some(out)
}

/// The component schemas, each typed, or `None` when one of them does not
/// type.
fn typed_components(schemas: &Vec<(String, Schema)>) -> (res: Option<Vec<(String, TypedSchema)>>)
    ensures
        match (res, spec_typed_components(schemas@)) {
            (Some(c), Some(s)) => components_view(c@) == s,
            (None, None) => true,
            _ => false,
        },
{
    let mut out: Vec<(String, TypedSchema)> = Vec::new();
    let mut i: usize = 0;
    assert(schemas@.take(0) =~= Seq::<(String, Schema)>::empty());
    while i < schemas.len()
        invariant
            0 <= i <= schemas@.len(),
            spec_typed_components(schemas@.take(i as int)) == Some(components_view(out@)),
        decreases schemas@.len() - i,
    {
        proof {
            assert(schemas@.take(i + 1).drop_last() =~= schemas@.take(i as int));
            assert(schemas@.take(i + 1).last() == schemas@[i as int]);
        }
        match classify(&schemas[i].1) {
            Outcome::Typed(t) => {
                let ghost before = out@;
                out.push((schemas[i].0.clone(), t));
                assert(components_view(out@) =~= components_view(before).push(
                    (out@.last().0@, out@.last().1@),
                ));
            },
            _ => {
                proof {
                    lemma_typed_components_prefix(schemas@, i + 1);
                }
                return None;
            },
        }
        i = i + 1;
    }
    assert(schemas@.take(schemas@.len() as int) =~= schemas@);
    Some(out)
}

/// The server URLs of the document, in order.
fn server_urls(servers: &Vec<Server>) -> (res: Vec<String>)
    ensures
        strings_view(res@) == servers@.map_values(|s: Server| s.url@),
{
    let mut out: Vec<String> = Vec::new();
    let mut i: usize = 0;
    while i < servers.len()
        invariant
            0 <= i <= servers@.len(),
            out@.len() == i,
            forall|k: int| 0 <= k < i ==> #[trigger] out@[k]@ == servers@[k].url@,
        decreases servers@.len() - i,
    {
        out.push(servers[i].url.clone());
        i = i + 1;
    }
    assert(strings_view(out@) =~= servers@.map_values(|s: Server| s.url@));
    out
}

/// The client that a document generates, or `None` when generation aborts
/// on it: an operation under a method other than get, post or delete, a
/// body or response schema whose typing aborts, a component schema that
/// does not type, or a model that cannot be laid out.
pub fn plan_api_checked(doc: Spec) -> (res: Option<ApiPlan>)
    ensures
        match (res, spec_plan(doc)) {
            (Some(p), Some(s)) => p@ == s,
            (None, None) => true,
            _ => false,
        },
{
    let ghost d = doc;
    let Spec { servers, paths, components, .. } = doc;
    let servers = server_urls(&servers);
    let methods = match client_methods(paths) {
        Some(ms) => ms,
        None => return None,
    };
    let comps = match typed_components(&components.schemas) {
        Some(c) => c,
        None => return None,
    };
    let models = match gen_components_checked(&comps) {
        Some(ms) => ms,
        None => return None,
    };
    Some(ApiPlan { servers, methods, models })
}

/// The client that a document generates: its server URLs in order; for
/// each path in order and each of its operations in method order, a method
/// named by the snake-case operation id, with its HTTP method, path, body
/// model and return shape; and the model struct of each component schema.
pub fn plan_api(doc: Spec) -> (res: ApiPlan)
    requires
        spec_plan(doc) is Some,
    ensures
        res@ == spec_plan(doc)->0,
{
    match plan_api_checked(doc) {
        Some(p) => p,
        None => {
            proof {
                assert(false);
            }
            ApiPlan { servers: Vec::new(), methods: Vec::new(), models: Vec::new() }
        },
    }
}

} // verus!
