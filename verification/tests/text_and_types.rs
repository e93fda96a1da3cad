use api_gen_macro::text::{last_name_segment, str_eq, strip_prefix, to_snake_case, to_snake_case_with};
use api_gen_macro::types::{Primative, Type, TypeError};

#[test]
fn snake_case_of_camel_case_operation_ids() {
    assert_eq!(to_snake_case("addPet"), "add_pet");
    assert_eq!(to_snake_case("findPetById"), "find_pet_by_id");
    assert_eq!(to_snake_case("deletePet"), "delete_pet");
}

#[test]
fn snake_case_edge_cases() {
    assert_eq!(to_snake_case(""), "");
    assert_eq!(to_snake_case("A"), "a");
    assert_eq!(to_snake_case("Add"), "add");
    assert_eq!(to_snake_case("ABC"), "a_b_c");
    assert_eq!(to_snake_case("already_snake"), "already_snake");
    assert_eq!(to_snake_case("v2Api"), "v2_api");
}

#[test]
fn snake_case_keeps_non_ascii_uppercase_letters() {
    assert_eq!(to_snake_case("aÄb"), "a_Äb");
}

#[test]
fn snake_case_with_given_flags() {
    assert_eq!(to_snake_case_with("aBc", &vec![false, true, false]), "a_bc");
    assert_eq!(to_snake_case_with("abc", &vec![true, false, true]), "ab_c");
    assert_eq!(to_snake_case_with("XY", &vec![false, false]), "xy");
}

#[test]
fn snake_case_length_law_on_values() {
    let s = to_snake_case("getAllPetsNow");
    assert_eq!(s, "get_all_pets_now");
    assert_eq!(s.chars().count(), "getAllPetsNow".chars().count() + 3);
    assert!(!s.chars().any(|c| c.is_ascii_uppercase()));
}

#[test]
fn string_helpers() {
    assert!(str_eq("abc", "abc"));
    assert!(!str_eq("abc", "abd"));
    assert!(!str_eq("abc", "ab"));
    assert_eq!(
        strip_prefix("#/components/schemas/Pet", "#/components/schemas/"),
        Some("Pet".to_string())
    );
    assert_eq!(strip_prefix("#/definitions/Pet", "#/components/schemas/"), None);
    assert_eq!(strip_prefix("ab", "abc"), None);
    assert_eq!(last_name_segment("com.example.Pet"), "Pet");
    assert_eq!(last_name_segment("Pet"), "Pet");
    assert_eq!(last_name_segment("trailing."), "");
}

fn parsed(typ: &str, format: Option<&str>) -> Type {
    Type::parse(typ, format).unwrap()
}

#[test]
fn parse_known_types() {
    assert_eq!(parsed("boolean", None), Type::Primative(Primative::Bool));
    assert_eq!(parsed("integer", None), Type::Primative(Primative::I64));
    assert_eq!(parsed("integer", Some("int32")), Type::Primative(Primative::I32));
    assert_eq!(parsed("integer", Some("int64")), Type::Primative(Primative::I64));
    assert_eq!(parsed("number", None), Type::Primative(Primative::F64));
    assert_eq!(parsed("number", Some("float")), Type::Primative(Primative::F32));
    assert_eq!(parsed("number", Some("double")), Type::Primative(Primative::F64));
    assert_eq!(parsed("string", None), Type::Primative(Primative::String));
    assert_eq!(parsed("string", Some("bytes")), Type::Primative(Primative::Bytes));
    assert_eq!(parsed("string", Some("binary")), Type::Primative(Primative::Binary));
    assert_eq!(parsed("string", Some("date")), Type::Primative(Primative::Date));
    assert_eq!(parsed("string", Some("date-time")), Type::Primative(Primative::DateTime));
    assert_eq!(parsed("string", Some("password")), Type::Primative(Primative::Password));
    assert_eq!(parsed("object", None), Type::Object);
    assert_eq!(parsed("array", Some("ignored")), Type::Array);
    assert_eq!(parsed("boolean", Some("ignored")), Type::Primative(Primative::Bool));
}

#[test]
fn parse_errors() {
    match Type::parse("integer", Some("int8")) {
        Err(TypeError::InvalidFormat { typ, format }) => {
            assert_eq!(typ, "integer");
            assert_eq!(format, "int8");
        }
        other => panic!("unexpected {:?}", other),
    }
    match Type::parse("string", Some("uuid")) {
        Err(e) => assert_eq!(e.message(), "invalid format uuid for string"),
        other => panic!("unexpected {:?}", other),
    }
    match Type::parse("number", Some("decimal")) {
        Err(TypeError::InvalidFormat { .. }) => {}
        other => panic!("unexpected {:?}", other),
    }
    match Type::parse("null", None) {
        Err(TypeError::InvalidType(t)) => assert_eq!(t, "null"),
        other => panic!("unexpected {:?}", other),
    }
    match Type::parse("Integer", None) {
        Err(e) => assert_eq!(e.message(), "invalid type Integer"),
        other => panic!("unexpected {:?}", other),
    }
}

#[test]
fn rust_type_names() {
    assert_eq!(Primative::Bool.rust_type(), "bool");
    assert_eq!(Primative::I32.rust_type(), "i32");
    assert_eq!(Primative::I64.rust_type(), "i64");
    assert_eq!(Primative::F32.rust_type(), "f32");
    assert_eq!(Primative::F64.rust_type(), "f64");
    for p in [
        Primative::String,
        Primative::Bytes,
        Primative::Binary,
        Primative::Date,
        Primative::DateTime,
        Primative::Password,
    ] {
        assert_eq!(p.rust_type(), "String");
    }
}

#[test]
fn snake_case_is_idempotent_on_ascii_names() {
    for name in ["findPets", "addPet", "find_pet_by_id", "HTTPServer", "x"] {
        let once = to_snake_case(name);
        assert_eq!(to_snake_case(&once), once);
    }
}

#[test]
fn snake_case_utf8_length() {
    let s = "aÄbÖ";
    let snake = to_snake_case(s);
    assert_eq!(snake, "a_Äb_Ö");
    assert_eq!(snake.len(), s.len() + 2);
}
