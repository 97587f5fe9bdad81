//! Registry and semantic-compiler tests.

use td_api_rs::comment::class_desc_compile;
use td_api_rs::comment::parse_class_desc;
use td_api_rs::compile::Prim;
use td_api_rs::compile::Type;
use td_api_rs::compile::Types;

fn chars_of(code: &str) -> Vec<char> {
    code.chars().collect()
}

fn td_entry(parent: Option<&str>) -> Type {
    Type::TD {
        meta: td_api_rs::compile::StringHashMap::new(),
        inherits_from: parent.map(String::from),
        children: Vec::new(),
        depends_on: Vec::new(),
    }
}

#[test]
fn base_type() {
    let mut types = Types::new();
    Type::insert(&mut types, String::from("Int32"), Type::Rust(Prim::Int32)).unwrap();
    Type::insert(&mut types, String::from("int32"), td_entry(Some("Int32"))).unwrap();
    Type::insert(&mut types, String::from("int52"), td_entry(Some("int32"))).unwrap();

    assert!(Type::is_rust(&types, "int32").is_some());
    assert!(Type::is_rust(&types, "int42").is_none());
    assert!(Type::is_rust(&types, "int52").is_some());
}

#[test]
fn enum_decl() {
    let code = chars_of(
        r#"//@class AuthenticationCodeType @description Provides information about the method by which an authentication code is delivered to the user"#,
    );
    let parsed = parse_class_desc(&code, 0).expect("class description must parse");
    let mut types = Types::new();
    class_desc_compile(&mut types, parsed.value).unwrap();
    match types.get("AuthenticationCodeType") {
        Some(Type::TD { meta, .. }) => {
            let desc = meta.get("description").expect("description annotation recorded");
            assert_eq!(
                desc.as_str(),
                "Provides information about the method by which an authentication code is delivered to the user"
            );
        },
        _ => panic!("class description must create a compound entry"),
    }
}

#[test]
fn duplicate_name_is_rejected() {
    let mut types = Types::new();
    Type::insert(&mut types, String::from("ok"), td_entry(Some("Ok"))).unwrap();
    let second = Type::insert(&mut types, String::from("ok"), td_entry(Some("Ok")));
    assert!(second.is_err());
    assert!(second.unwrap_err().contains("already been declared"));
}

#[test]
fn transform_registers_primitive() {
    let mut types = Types::new();
    let t = Type::transform_type(&mut types, String::from("Bool"));
    assert_eq!(t, "::std::primitive::bool");
    match types.get("Bool") {
        Some(Type::Rust(p)) => assert!(*p == Prim::Bool),
        _ => panic!("Bool must be registered as a primitive mapping"),
    }
}

#[test]
fn transform_keeps_compound_name() {
    let mut types = Types::new();
    let t = Type::transform_type(&mut types, String::from("AuthenticationCodeType"));
    assert_eq!(t, "AuthenticationCodeType");
    match types.get("AuthenticationCodeType") {
        Some(Type::TD { inherits_from, children, depends_on, .. }) => {
            assert!(inherits_from.is_none());
            assert!(children.is_empty());
            assert!(depends_on.is_empty());
        },
        _ => panic!("an unknown name must be registered as a placeholder"),
    }
}
