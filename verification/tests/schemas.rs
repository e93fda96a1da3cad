use api_gen_macro::document::{Operation, Path};
use api_gen_macro::models::{gen_components, gen_components_checked, Model};
use api_gen_macro::schema::{classify, Outcome, Property, Schema, TypedSchema};
use api_gen_macro::types::{Primative, Type};

fn empty() -> Schema {
    Schema {
        reference: None,
        all_of: None,
        typ: None,
        format: None,
        required: None,
        items: None,
        properties: None,
    }
}

fn reference(path: &str) -> Schema {
    Schema { reference: Some(path.to_string()), ..empty() }
}

fn typed(t: &str, format: Option<&str>) -> Schema {
    Schema { typ: Some(t.to_string()), format: format.map(|f| f.to_string()), ..empty() }
}

fn prop(t: &str, format: Option<&str>) -> Property {
    Property { typ: t.to_string(), format: format.map(|f| f.to_string()) }
}

fn object(props: Vec<(&str, Property)>, required: Option<Vec<&str>>) -> Schema {
    Schema {
        typ: Some("object".to_string()),
        properties: Some(props.into_iter().map(|(n, p)| (n.to_string(), p)).collect()),
        required: required.map(|r| r.into_iter().map(|s| s.to_string()).collect()),
        ..empty()
    }
}

#[test]
fn reference_becomes_component_name() {
    match TypedSchema::try_from(reference("#/components/schemas/Pet")) {
        Ok(TypedSchema::Ref(name)) => assert_eq!(name, "Pet"),
        other => panic!("unexpected {:?}", other),
    }
}

#[test]
fn reference_takes_precedence_over_type() {
    let s = Schema { typ: Some("string".to_string()), ..reference("#/components/schemas/X") };
    match TypedSchema::try_from(s) {
        Ok(TypedSchema::Ref(name)) => assert_eq!(name, "X"),
        other => panic!("unexpected {:?}", other),
    }
}

#[test]
fn reference_outside_components_aborts() {
    assert!(matches!(classify(&reference("#/definitions/Pet")), Outcome::Aborts));
}

#[test]
fn primitive_and_array() {
    match TypedSchema::try_from(typed("integer", Some("int32"))) {
        Ok(TypedSchema::Primative(Primative::I32)) => {}
        other => panic!("unexpected {:?}", other),
    }
    let arr = Schema { items: Some(Box::new(reference("#/components/schemas/Pet"))), ..typed("array", None) };
    match TypedSchema::try_from(arr) {
        Ok(TypedSchema::Array(inner)) => match *inner {
            TypedSchema::Ref(name) => assert_eq!(name, "Pet"),
            other => panic!("unexpected {:?}", other),
        },
        other => panic!("unexpected {:?}", other),
    }
}

#[test]
fn array_without_items_or_with_untyped_items_aborts() {
    assert!(matches!(classify(&typed("array", None)), Outcome::Aborts));
    let arr = Schema { items: Some(Box::new(empty())), ..typed("array", None) };
    assert!(matches!(classify(&arr), Outcome::Aborts));
}

#[test]
fn bad_type_aborts() {
    assert!(matches!(classify(&typed("integer", Some("int8"))), Outcome::Aborts));
    assert!(matches!(classify(&typed("tuple", None)), Outcome::Aborts));
    let obj = object(vec![("x", prop("integer", Some("huge")))], None);
    assert!(matches!(classify(&obj), Outcome::Aborts));
}

#[test]
fn object_fields_in_property_order() {
    let obj = object(
        vec![("id", prop("integer", Some("int64"))), ("name", prop("string", None)), ("tag", prop("string", None))],
        Some(vec!["name", "id"]),
    );
    match TypedSchema::try_from(obj) {
        Ok(TypedSchema::Object(o)) => {
            assert_eq!(o.fields.len(), 3);
            assert_eq!(o.fields[0].ident, "id");
            assert_eq!(o.fields[0].typ, Type::Primative(Primative::I64));
            assert!(o.fields[0].required);
            assert_eq!(o.fields[1].ident, "name");
            assert!(o.fields[1].required);
            assert_eq!(o.fields[2].ident, "tag");
            assert!(!o.fields[2].required);
        }
        other => panic!("unexpected {:?}", other),
    }
}

#[test]
fn object_without_properties_has_no_fields() {
    match TypedSchema::try_from(typed("object", None)) {
        Ok(TypedSchema::Object(o)) => assert!(o.fields.is_empty()),
        other => panic!("unexpected {:?}", other),
    }
}

#[test]
fn union_keeps_parts_in_order() {
    let s = Schema {
        all_of: Some(vec![reference("#/components/schemas/A"), typed("boolean", None)]),
        ..empty()
    };
    match TypedSchema::try_from(s) {
        Ok(TypedSchema::Union(parts)) => {
            assert_eq!(parts.len(), 2);
            assert!(matches!(&parts[0], TypedSchema::Ref(n) if n == "A"));
            assert!(matches!(&parts[1], TypedSchema::Primative(Primative::Bool)));
        }
        other => panic!("unexpected {:?}", other),
    }
}

#[test]
fn unsupported_schema_is_an_error() {
    match TypedSchema::try_from(empty()) {
        Err(e) => assert_eq!(e, "Unsupported schema definition"),
        other => panic!("unexpected {:?}", other),
    }
    let s = Schema { all_of: Some(vec![typed("string", None), empty(), typed("array", None)]), ..empty() };
    match TypedSchema::try_from(s) {
        Err(e) => assert_eq!(e, "Unsupported schema definition"),
        other => panic!("unexpected {:?}", other),
    }
}

#[test]
fn union_stops_at_first_unsupported_part() {
    // The array part after the unsupported one would abort, but is never typed.
    let s = Schema { all_of: Some(vec![empty(), typed("array", None)]), ..empty() };
    assert!(matches!(classify(&s), Outcome::Unsupported));
    let s = Schema { all_of: Some(vec![typed("array", None), empty()]), ..empty() };
    assert!(matches!(classify(&s), Outcome::Aborts));
}

fn typed_component(name: &str, s: Schema) -> (String, TypedSchema) {
    (name.to_string(), TypedSchema::try_from(s).unwrap())
}

fn field_summary(m: &Model) -> Vec<(String, Primative, bool)> {
    m.fields.iter().map(|f| (f.ident.clone(), f.typ, f.optional)).collect()
}

#[test]
fn models_of_components() {
    let comps = vec![
        typed_component(
            "NewPet",
            object(vec![("name", prop("string", None)), ("tag", prop("string", None))], Some(vec!["name"])),
        ),
        typed_component(
            "com.example.Pet",
            Schema {
                all_of: Some(vec![
                    reference("#/components/schemas/NewPet"),
                    object(vec![("id", prop("integer", Some("int64")))], Some(vec!["id"])),
                ]),
                ..empty()
            },
        ),
        typed_component("Flag", typed("boolean", None)),
    ];
    let models = gen_components(&comps);
    assert_eq!(models.len(), 3);
    assert_eq!(models[0].name, "NewPet");
    assert_eq!(
        field_summary(&models[0]),
        vec![("name".to_string(), Primative::String, false), ("tag".to_string(), Primative::String, true)]
    );
    assert_eq!(models[1].name, "Pet");
    assert_eq!(
        field_summary(&models[1]),
        vec![
            ("name".to_string(), Primative::String, false),
            ("tag".to_string(), Primative::String, true),
            ("id".to_string(), Primative::I64, false),
        ]
    );
    assert_eq!(models[2].name, "Flag");
    assert!(models[2].fields.is_empty());
}

#[test]
fn models_abort_on_unknown_reference_or_nested_types() {
    let comps = vec![typed_component(
        "Pet",
        Schema { all_of: Some(vec![reference("#/components/schemas/Missing")]), ..empty() },
    )];
    assert!(gen_components_checked(&comps).is_none());
    let comps = vec![typed_component("Box", object(vec![("inner", prop("object", None))], None))];
    assert!(gen_components_checked(&comps).is_none());
    let comps = vec![
        typed_component("A", reference("#/components/schemas/B")),
        typed_component("B", Schema { all_of: Some(vec![reference("#/components/schemas/A")]), ..empty() }),
    ];
    assert!(gen_components_checked(&comps).is_none());
    let comps = vec![typed_component("A", reference("#/components/schemas/B"))];
    let models = gen_components_checked(&comps).unwrap();
    assert_eq!(models.len(), 1);
    assert!(models[0].fields.is_empty());
}

fn op(id: &str) -> Operation {
    Operation { operation_id: id.to_string(), description: None, parameters: None, request_body: None, responses: None }
}

#[test]
fn endpoints_in_method_order() {
    let p = Path {
        sumamry: None,
        description: None,
        get: Some(op("g")),
        put: None,
        post: Some(op("p")),
        delete: Some(op("d")),
        options: None,
        head: Some(op("h")),
        patch: None,
        trace: Some(op("t")),
    };
    let eps = p.endpoints();
    let names: Vec<(String, String)> = eps.iter().map(|(m, o)| (m.clone(), o.operation_id.clone())).collect();
    assert_eq!(
        names,
        vec![
            ("get".to_string(), "g".to_string()),
            ("post".to_string(), "p".to_string()),
            ("delete".to_string(), "d".to_string()),
            ("head".to_string(), "h".to_string()),
            ("trace".to_string(), "t".to_string()),
        ]
    );
    let none = Path {
        sumamry: None, description: None, get: None, put: None, post: None, delete: None,
        options: None, head: None, patch: None, trace: None,
    };
    assert!(none.endpoints().is_empty());
}
