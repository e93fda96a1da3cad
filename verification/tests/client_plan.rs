use api_gen_macro::client::{http_method, plan_api, plan_api_checked, HttpMethod, ReturnShape};
use api_gen_macro::document::{
    Components, MediaType, Operation, Path, RequestBody, Response, Server, Spec,
};
use api_gen_macro::schema::{Property, Schema};
use api_gen_macro::types::Primative;

fn empty() -> Schema {
    Schema { reference: None, all_of: None, typ: None, format: None, required: None, items: None, properties: None }
}

fn reference(name: &str) -> Schema {
    Schema { reference: Some(format!("#/components/schemas/{}", name)), ..empty() }
}

fn json(schema: Schema) -> Option<Vec<(String, MediaType)>> {
    Some(vec![("application/json".to_string(), MediaType { schema })])
}

fn ok_response(schema: Schema) -> Option<Vec<(String, Response)>> {
    Some(vec![
        ("200".to_string(), Response { description: "ok".to_string(), content: json(schema) }),
        ("default".to_string(), Response { description: "error".to_string(), content: json(reference("Error")) }),
    ])
}

fn op(id: &str) -> Operation {
    Operation { operation_id: id.to_string(), description: None, parameters: None, request_body: None, responses: None }
}

fn no_ops() -> Path {
    Path {
        sumamry: None, description: None, get: None, put: None, post: None, delete: None,
        options: None, head: None, patch: None, trace: None,
    }
}

fn object(props: Vec<(&str, &str, Option<&str>)>, required: Vec<&str>) -> Schema {
    Schema {
        typ: Some("object".to_string()),
        properties: Some(
            props
                .into_iter()
                .map(|(n, t, f)| (n.to_string(), Property { typ: t.to_string(), format: f.map(|x| x.to_string()) }))
                .collect(),
        ),
        required: Some(required.into_iter().map(|s| s.to_string()).collect()),
        ..empty()
    }
}

fn petstore() -> Spec {
    let find_pets = Operation {
        responses: ok_response(Schema { typ: Some("array".to_string()), items: Some(Box::new(reference("Pet"))), ..empty() }),
        ..op("findPets")
    };
    let add_pet = Operation {
        request_body: Some(RequestBody { description: None, content: json(reference("NewPet")) }),
        responses: ok_response(reference("Pet")),
        ..op("addPet")
    };
    let find_pet = Operation { responses: ok_response(reference("Pet")), ..op("find pet by id") };
    let delete_pet = Operation {
        responses: Some(vec![("204".to_string(), Response { description: "deleted".to_string(), content: None })]),
        ..op("deletePet")
    };
    Spec {
        openapi: "3.0.0".to_string(),
        servers: vec![Server { url: "http://petstore.swagger.io/api".to_string() }],
        paths: vec![
            ("/pets".to_string(), Path { get: Some(find_pets), post: Some(add_pet), ..no_ops() }),
            ("/pets/{id}".to_string(), Path { get: Some(find_pet), delete: Some(delete_pet), ..no_ops() }),
        ],
        components: Components {
            schemas: vec![
                ("Error".to_string(), object(vec![("code", "integer", Some("int32")), ("message", "string", None)], vec!["code", "message"])),
                ("NewPet".to_string(), object(vec![("name", "string", None), ("tag", "string", None)], vec!["name"])),
                (
                    "Pet".to_string(),
                    Schema {
                        all_of: Some(vec![reference("NewPet"), object(vec![("id", "integer", Some("int64"))], vec!["id"])]),
                        ..empty()
                    },
                ),
            ],
            security_schemes: None,
        },
    }
}

#[test]
fn petstore_client_plan() {
    let plan = plan_api(petstore());
    assert_eq!(plan.servers, vec!["http://petstore.swagger.io/api".to_string()]);
    assert_eq!(plan.methods.len(), 4);

    let m = &plan.methods[0];
    assert_eq!(m.name, "find_pets");
    assert_eq!(m.method, HttpMethod::Get);
    assert_eq!(m.url, "/pets");
    assert_eq!(m.body, None);
    assert!(matches!(&m.ret, ReturnShape::Models(n) if n == "Pet"));

    let m = &plan.methods[1];
    assert_eq!(m.name, "add_pet");
    assert_eq!(m.method, HttpMethod::Post);
    assert_eq!(m.body, Some("NewPet".to_string()));
    assert!(matches!(&m.ret, ReturnShape::Model(n) if n == "Pet"));

    let m = &plan.methods[2];
    assert_eq!(m.name, "find pet by id");
    assert_eq!(m.url, "/pets/{id}");
    assert!(matches!(&m.ret, ReturnShape::Model(n) if n == "Pet"));

    let m = &plan.methods[3];
    assert_eq!(m.name, "delete_pet");
    assert_eq!(m.method, HttpMethod::Delete);
    assert!(matches!(&m.ret, ReturnShape::Unit));

    let names: Vec<&str> = plan.models.iter().map(|m| m.name.as_str()).collect();
    assert_eq!(names, vec!["Error", "NewPet", "Pet"]);
    let pet: Vec<(String, Primative, bool)> =
        plan.models[2].fields.iter().map(|f| (f.ident.clone(), f.typ, f.optional)).collect();
    assert_eq!(
        pet,
        vec![
            ("name".to_string(), Primative::String, false),
            ("tag".to_string(), Primative::String, true),
            ("id".to_string(), Primative::I64, false),
        ]
    );
}

#[test]
fn unsupported_methods_abort() {
    assert_eq!(http_method("get"), Some(HttpMethod::Get));
    assert_eq!(http_method("post"), Some(HttpMethod::Post));
    assert_eq!(http_method("delete"), Some(HttpMethod::Delete));
    assert_eq!(http_method("put"), None);
    let mut doc = petstore();
    doc.paths[1].1.put = Some(op("updatePet"));
    assert!(plan_api_checked(doc).is_none());
}

#[test]
fn untyped_component_aborts() {
    let mut doc = petstore();
    doc.components.schemas.push(("Weird".to_string(), empty()));
    assert!(plan_api_checked(doc).is_none());
}

#[test]
fn body_that_is_not_a_reference_is_dropped() {
    let mut doc = petstore();
    doc.paths[0].1.post.as_mut().unwrap().request_body =
        Some(RequestBody { description: None, content: json(Schema { typ: Some("string".to_string()), ..empty() }) });
    let plan = plan_api_checked(doc).unwrap();
    assert_eq!(plan.methods[1].body, None);
}

#[test]
fn body_with_bad_schema_aborts() {
    let mut doc = petstore();
    doc.paths[0].1.post.as_mut().unwrap().request_body =
        Some(RequestBody { description: None, content: json(Schema { reference: Some("#/x/Pet".to_string()), ..empty() }) });
    assert!(plan_api_checked(doc).is_none());
}

#[test]
fn empty_document() {
    let doc = Spec {
        openapi: "3.0.0".to_string(),
        servers: vec![],
        paths: vec![],
        components: Components { schemas: vec![], security_schemes: None },
    };
    let plan = plan_api(doc);
    assert!(plan.servers.is_empty() && plan.methods.is_empty() && plan.models.is_empty());
}

fn reordered(required_first: bool) -> Spec {
    let mut doc = petstore();
    let names = if required_first {
        vec!["code".to_string(), "message".to_string()]
    } else {
        vec!["message".to_string(), "code".to_string(), "message".to_string()]
    };
    doc.components.schemas[0].1.required = Some(names);
    doc
}

#[test]
fn plan_ignores_required_order() {
    let a = plan_api(reordered(true));
    let b = plan_api(reordered(false));
    assert_eq!(format!("{:?}", a), format!("{:?}", b));
}

#[test]
fn methods_follow_path_order() {
    let plan = plan_api(petstore());
    let urls: Vec<&str> = plan.methods.iter().map(|m| m.url.as_str()).collect();
    let mut sorted = urls.clone();
    sorted.sort();
    assert_eq!(urls, sorted);
}
