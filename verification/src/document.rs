//! The OpenAPI document: servers, paths with their operations, and
//! component schemas. Maps of the document are held as lists of entries;
//! read from the JSON document they come in key order, each key once
//! (`document_wf`).

use vstd::prelude::*;

use crate::schema::{schema_wf, Schema};
use crate::text::str_eq;

verus! {

/// The root of an OpenAPI document.
#[derive(Debug)]
pub struct Spec {
    pub openapi: String,
    pub servers: Vec<Server>,
    /// Each path template with the operations it offers.
    pub paths: Vec<(String, Path)>,
    pub components: Components,
}

#[derive(Debug)]
pub struct Server {
    pub url: String,
}

/// The operations of one path template, by HTTP method.
#[derive(Debug)]
pub struct Path {
    pub sumamry: Option<String>,
    pub description: Option<String>,
    pub get: Option<Operation>,
    pub put: Option<Operation>,
    pub post: Option<Operation>,
    pub delete: Option<Operation>,
    pub options: Option<Operation>,
    pub head: Option<Operation>,
    pub patch: Option<Operation>,
    pub trace: Option<Operation>,
}

#[derive(Debug)]
pub struct Operation {
    pub operation_id: String,
    pub description: Option<String>,
    pub parameters: Option<Vec<Parameter>>,
    pub request_body: Option<RequestBody>,
    /// Responses by status code.
    pub responses: Option<Vec<(String, Response)>>,
}

#[derive(Debug)]
pub struct Parameter {}

#[derive(Debug)]
pub struct RequestBody {
    pub description: Option<String>,
    /// Media types by content type.
    pub content: Option<Vec<(String, MediaType)>>,
}

#[derive(Debug)]
pub struct Response {
    pub description: String,
    /// Media types by content type.
    pub content: Option<Vec<(String, MediaType)>>,
}

#[derive(Debug)]
pub struct MediaType {
    pub schema: Schema,
}

#[derive(Debug)]
pub struct Components {
    /// Schemas by component name.
    pub schemas: Vec<(String, Schema)>,
    pub security_schemes: Option<Vec<(String, SecurityScheme)>>,
}

#[derive(Debug)]
pub struct SecurityScheme {}

/// The kinds of security scheme that OpenAPI defines.
#[derive(Debug, Clone, Copy, PartialEq, Eq, Structural)]
pub enum TypedSecurityScheme {
    ApiKey,
    Http,
    OAuth,
    OpenIdConnect,
}

/// The order of `String` keys in a sorted map: lexicographic by code point
/// (which is also the order of their UTF-8 bytes).
pub open spec fn key_lt(a: Seq<char>, b: Seq<char>) -> bool
    decreases a.len(),
{
    if a.len() == 0 {
        b.len() > 0
    } else if b.len() == 0 {
        false
    } else if (a[0] as u32) < (b[0] as u32) {
        true
    } else if a[0] == b[0] {
        key_lt(a.drop_first(), b.drop_first())
    } else {
        false
    }
}

/// Whether `keys` are strictly ascending, as the keys of a sorted map are.
pub open spec fn keys_ascending(keys: Seq<Seq<char>>) -> bool {
    forall|i: int, j: int| 0 <= i < j < keys.len() ==> key_lt(#[trigger] keys[i], #[trigger] keys[j])
}

/// No key comes before itself.
pub proof fn lemma_key_lt_irreflexive(a: Seq<char>)
    ensures
        !key_lt(a, a),
    decreases a.len(),
{
    if a.len() > 0 {
        lemma_key_lt_irreflexive(a.drop_first());
    }
}

/// Strictly ascending keys hold each key once.
pub proof fn law_ascending_keys_distinct(keys: Seq<Seq<char>>)
    requires
        keys_ascending(keys),
    ensures
        forall|i: int, j: int| 0 <= i < j < keys.len() ==> #[trigger] keys[i] != #[trigger] keys[j],
{
    assert forall|i: int, j: int| 0 <= i < j < keys.len() implies #[trigger] keys[i]
        != #[trigger] keys[j] by {
        lemma_key_lt_irreflexive(keys[i]);
    }
}

/// Whether a content map is as read from the JSON document: content types
/// in strictly ascending order, each schema well formed.
pub open spec fn media_wf(content: Option<Vec<(String, MediaType)>>) -> bool {
    match content {
        Some(c) => keys_ascending(entry_keys(c@)) && forall|i: int|
            0 <= i < c@.len() ==> schema_wf((#[trigger] c@[i]).1.schema),
        None => true,
    }
}

/// Whether an operation is as read from the JSON document: its maps in
/// strictly ascending key order, its schemas well formed.
pub open spec fn operation_wf(op: Operation) -> bool {
    &&& match op.request_body {
        Some(rb) => media_wf(rb.content),
        None => true,
    }
    &&& match op.responses {
        Some(rs) => keys_ascending(entry_keys(rs@)) && forall|i: int|
            0 <= i < rs@.len() ==> media_wf((#[trigger] rs@[i]).1.content),
        None => true,
    }
}

/// Whether a document is as read from JSON: every map of it (paths,
/// responses, content types, properties, component schemas, security
/// schemes) in strictly ascending key order, each `required` list naming
/// each property once.
pub open spec fn document_wf(doc: Spec) -> bool {
    &&& keys_ascending(entry_keys(doc.paths@))
    &&& forall|i: int|
        0 <= i < doc.paths@.len() ==> forall|j: int|
            0 <= j < spec_endpoints((#[trigger] doc.paths@[i]).1).len() ==> operation_wf(
                #[trigger] spec_endpoints(doc.paths@[i].1)[j].1,
            )
    &&& keys_ascending(entry_keys(doc.components.schemas@))
    &&& forall|i: int|
        0 <= i < doc.components.schemas@.len() ==> schema_wf(
            (#[trigger] doc.components.schemas@[i]).1,
        )
    &&& match doc.components.security_schemes {
        Some(ss) => keys_ascending(entry_keys(ss@)),
        None => true,
    }
}

/// Whether `i` is the first position of `key` in `keys`.
pub open spec fn is_first_index(keys: Seq<Seq<char>>, key: Seq<char>, i: int) -> bool {
    &&& 0 <= i < keys.len()
    &&& keys[i] == key
    &&& forall|j: int| 0 <= j < i ==> keys[j] != key
}

/// The first position of `key` in `keys`, or `-1` when it is absent.
pub open spec fn first_index(keys: Seq<Seq<char>>, key: Seq<char>) -> int {
    if exists|i: int| is_first_index(keys, key, i) {
        choose|i: int| is_first_index(keys, key, i)
    } else {
        -1
    }
}

/// The keys of a list of entries, as characters.
pub open spec fn entry_keys<V>(entries: Seq<(String, V)>) -> Seq<Seq<char>> {
    entries.map_values(|e: (String, V)| e.0@)
}

/// The value of the first entry with key `key`, as a map lookup gives it.
pub open spec fn lookup<V>(entries: Seq<(String, V)>, key: Seq<char>) -> Option<V> {
    let i = first_index(entry_keys(entries), key);
    if 0 <= i {
        Some(entries[i].1)
    } else {
        None
    }
}

/// A first position is the one that `first_index` names.
pub proof fn lemma_first_index(keys: Seq<Seq<char>>, key: Seq<char>, i: int)
    requires
        is_first_index(keys, key, i),
    ensures
        first_index(keys, key) == i,
{
    let k = choose|k: int| is_first_index(keys, key, k);
    assert(is_first_index(keys, key, k));
    if k < i {
        assert(keys[k] != key);
    }
    if i < k {
        assert(keys[i] != key);
    }
}

/// The position of the first entry with key `key`.
pub fn find_key<V>(entries: &Vec<(String, V)>, key: &str) -> (res: Option<usize>)
    ensures
        match res {
            Some(i) => i as int == first_index(entry_keys(entries@), key@) && i < entries@.len(),
            None => first_index(entry_keys(entries@), key@) == -1,
        },
{
    let ghost keys = entry_keys(entries@);
    let mut i: usize = 0;
    while i < entries.len()
        invariant
            keys == entry_keys(entries@),
            0 <= i <= entries@.len(),
            forall|j: int| 0 <= j < i ==> keys[j] != key@,
        decreases entries@.len() - i,
    {
        if str_eq(entries[i].0.as_str(), key) {
            proof {
                lemma_first_index(keys, key@, i as int);
            }
            return Some(i);
        }
        i = i + 1;
    }
    assert(!exists|k: int| is_first_index(keys, key@, k));
    None
}

/// The value of the first entry with key `key`.
pub fn lookup_entry<'a, V>(entries: &'a Vec<(String, V)>, key: &str) -> (res: Option<&'a V>)
    ensures
        match res {
            Some(v) => lookup(entries@, key@) == Some(*v),
            None => lookup(entries@, key@) is None,
        },
{
    match find_key(entries, key) {
        Some(i) => Some(&entries[i].1),
        None => None,
    }
}

/// The endpoint that a method contributes: one entry when the path has an
/// operation for it, none otherwise.
pub open spec fn endpoint(method: Seq<char>, op: Option<Operation>) -> Seq<(Seq<char>, Operation)> {
    match op {
        Some(o) => seq![(method, o)],
        None => Seq::empty(),
    }
}

/// The operations of a path with their method names, in the order get,
/// put, post, delete, options, head, patch, trace.
pub open spec fn spec_endpoints(p: Path) -> Seq<(Seq<char>, Operation)> {
    endpoint("get"@, p.get) + endpoint("put"@, p.put) + endpoint("post"@, p.post) + endpoint(
        "delete"@,
        p.delete,
    ) + endpoint("options"@, p.options) + endpoint("head"@, p.head) + endpoint("patch"@, p.patch)
        + endpoint("trace"@, p.trace)
}

/// Endpoints with their method names as characters.
pub open spec fn endpoints_view(eps: Seq<(String, Operation)>) -> Seq<(Seq<char>, Operation)> {
    eps.map_values(|e: (String, Operation)| (e.0@, e.1))
}

fn push_endpoint(out: &mut Vec<(String, Operation)>, method: &str, op: Option<Operation>)
    ensures
        endpoints_view(final(out)@) == endpoints_view(old(out)@) + endpoint(method@, op),
{
    match op {
        Some(o) => {
            out.push((String::from_str(method), o));
            assert(endpoints_view(out@) =~= endpoints_view(old(out)@) + endpoint(method@, op));
        },
        None => {
            assert(endpoints_view(out@) =~= endpoints_view(old(out)@) + endpoint(method@, op));
        },
    }
}

impl Path {
    /// The operations of this path with their method names, in the order
    /// get, put, post, delete, options, head, patch, trace; methods without
    /// an operation are left out.
    pub fn endpoints(self) -> (res: Vec<(String, Operation)>)
        ensures
            endpoints_view(res@) == spec_endpoints(self),
    {
        let ghost p = self;
        let Path { get, put, post, delete, options, head, patch, trace, .. } = self;
        let mut out: Vec<(String, Operation)> = Vec::new();
        assert(endpoints_view(out@) =~= Seq::empty());
        push_endpoint(&mut out, "get", get);
        push_endpoint(&mut out, "put", put);
        push_endpoint(&mut out, "post", post);
        push_endpoint(&mut out, "delete", delete);
        push_endpoint(&mut out, "options", options);
        push_endpoint(&mut out, "head", head);
        push_endpoint(&mut out, "patch", patch);
        push_endpoint(&mut out, "trace", trace);
        assert(endpoints_view(out@) =~= spec_endpoints(p));
        out
    }
}

} // verus!
