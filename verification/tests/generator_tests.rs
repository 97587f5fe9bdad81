//! End-to-end tests of the compiler entry point: whole schemas in,
//! generated text (or a hard error) out.

use td_api_rs::compile::Prim;
use td_api_rs::compile::Registry;
use td_api_rs::compile::Type;
use td_api_rs::compile;
use td_api_rs::program::parse_tl_program;
use td_api_rs::program::tl_program_compile;

fn chars_of(code: &str) -> Vec<char> {
    code.chars().collect()
}

const HEADER: &str = "\nuse serde::Serialize;\nuse serde::Deserialize;\nuse serde::de::DeserializeOwned;\nuse serde_json::*;\n\n\n";

const TRAIT_OPEN: &str = "\npub trait Api {\n\n    #[allow(async_fn_in_trait)]\n    /// Handler to send the `payload` to the [crate::Driver]\n    async fn send<Payload: Serialize, Target: DeserializeOwned>(\n        &self,\n        payload: Payload,\n    ) -> ::std::result::Result<Target, crate::Failure>;\n\n";

#[test]
fn error_record_golden() {
    let input = "int32 = Int32;\nstring ? = String;\n//@description An object of this type can be returned on every function call, in case of an error\n//@code Error code\n//@message Error message\nerror code:int32 message:string = Error;";
    let out = compile(input).expect("schema must compile");
    let object = "#[allow(non_camel_case_types)]\n#[derive(Debug, Clone, PartialEq, Serialize, Deserialize)]\n/// # error\n/// An object of this type can be returned on every function call, in case of an error\npub struct error {\n   /// Error code\n   pub code: ::std::primitive::i32,\n   /// Error message\n   pub message: ::std::string::String,\n}\n\n\n";
    let typedef = "#[allow(non_camel_case_types)]\n#[derive(Debug, Clone, PartialEq, Serialize, Deserialize)]\n#[serde(tag = \"@type\")]\npub enum Error{\n   error(error),\n}\n\n\n";
    let expected = format!("{}{}{}{}{}", HEADER, object, typedef, TRAIT_OPEN, "}\n");
    assert_eq!(out, expected);
}

#[test]
fn alias_only_schema_emits_nothing() {
    // Concrete scenario: `int32 = Int32;` then `int53 = Int53;` resolve
    // to host primitives and are elided from the output.
    let input = "int32 = Int32;\nint53 = Int53;\n";
    let out = compile(input).expect("schema must compile");
    let expected = format!("{}{}{}", HEADER, TRAIT_OPEN, "}\n");
    assert_eq!(out, expected);

    let mut reg = Registry::new();
    let prog = parse_tl_program(&chars_of(input)).expect("schema must parse");
    tl_program_compile(&mut reg, prog).expect("schema must compile");
    assert!(Type::is_rust(&reg.types, "int32").is_some());
    assert!(Type::is_rust(&reg.types, "int53").is_some());
    assert_eq!(Type::is_rust(&reg.types, "int32"), Some(Prim::Int32));
    assert_eq!(Type::is_rust(&reg.types, "int53"), Some(Prim::Int64));
}

#[test]
fn vector_combinator_stays_bare_alias() {
    // Concrete scenario: the built-in sequence combinator has opt-args,
    // so the children-append step is skipped, its field list filters to
    // empty, and no record is registered.
    let input = "vector {t:Type} # [ t ] = Vector t;\n";
    let mut reg = Registry::new();
    let prog = parse_tl_program(&chars_of(input)).expect("schema must parse");
    tl_program_compile(&mut reg, prog).expect("schema must compile");
    assert!(reg.objects.is_empty());
    match reg.types.get("vector") {
        Some(Type::TD { children, .. }) => assert!(children.is_empty()),
        _ => panic!("vector must remain a bare alias placeholder"),
    }
    match reg.types.get("Vector") {
        Some(Type::Rust(p)) => assert!(*p == Prim::Vector),
        _ => panic!("Vector must map to the sequence primitive"),
    }
    let out = compile(input).expect("schema must compile");
    let expected = format!("{}{}{}", HEADER, TRAIT_OPEN, "}\n");
    assert_eq!(out, expected);
}

#[test]
fn fieldless_constructors_become_unit_variants() {
    // Concrete scenario: `ok = Ok;` and a later fieldless constructor
    // with result `Ok` both become children of `Ok`, no record is
    // created, and the union lists them as unit variants.
    let input = "ok = Ok;\nokDone = Ok;\n";
    let mut reg = Registry::new();
    let prog = parse_tl_program(&chars_of(input)).expect("schema must parse");
    tl_program_compile(&mut reg, prog).expect("schema must compile");
    assert!(reg.objects.is_empty());
    let out = compile(input).expect("schema must compile");
    assert!(out.contains("pub enum Ok{\n   ok,\n   okDone,\n}"));
    assert!(!out.contains("pub struct"));
}

#[test]
fn annotated_field_without_null_stays_required() {
    // Concrete scenario: a `@length` annotation whose text does not
    // contain "null" leaves the field required.
    let input = "int32 = Int32;\n//@description A code\n//@length Number of digits in the code, excluding the prefix\nauthenticationCodeTypeMissedCall length:int32 = AuthenticationCodeType;";
    let out = compile(input).expect("schema must compile");
    assert!(out.contains("   /// Number of digits in the code, excluding the prefix\n   pub length: ::std::primitive::i32,\n"));
    assert!(!out.contains("Option<"));
}

#[test]
fn null_annotated_field_becomes_optional() {
    let input = "int32 = Int32;\n//@description A thing\n//@param May be null when absent\nthing param:int32 = Thing;";
    let out = compile(input).expect("schema must compile");
    assert!(out.contains("   pub param: Option<::std::primitive::i32>,\n"));
}

#[test]
fn recursive_field_is_boxed() {
    // Concrete scenario: constructors `alpha` and `beta` both produce
    // `C`, and `alpha` holds a field of type `C`; the cycle
    // alpha -> C -> alpha forces an indirection on that field.
    let input = "alpha child:C = C;\nbeta = C;\n";
    let out = compile(input).expect("schema must compile");
    assert!(out.contains("pub struct alpha {\n   pub child: Box<C>,\n}"));
}

#[test]
fn function_stub_is_emitted() {
    let input = "int32 = Int32;\n---functions---\n//@description Tests something\n//@length How long\ntestSomething length:int32 = Ok;";
    let out = compile(input).expect("schema must compile");
    assert!(out.contains("async fn testSomething(&self, length: ::std::primitive::i32) -> ::std::result::Result<Ok, crate::Failure>"));
    assert!(out.contains("\"@type\": \"testSomething\",\"length\": length"));
    assert!(out.contains("/// # testSomething\n/// Tests something"));
}

#[test]
fn reserved_field_name_is_escaped() {
    let input = "int32 = Int32;\n---functions---\nsetKind type:int32 = Ok;";
    let out = compile(input).expect("schema must compile");
    assert!(out.contains(", r#type: ::std::primitive::i32"));
    assert!(out.contains("\"@type\": \"setKind\",\"type\": r#type"));
}

#[test]
fn generic_function_result_is_resolved() {
    let input = "---functions---\ngetChunks = Vector chunk;";
    let out = compile(input).expect("schema must compile");
    assert!(out.contains("::std::result::Result<::std::vec::Vec<chunk>, crate::Failure>"));
}

#[test]
fn duplicate_declaration_fails() {
    // Declaring the same identifier twice is a hard error, whichever
    // registering form comes second.
    let twice = compile("ok = Ok;\nok = Ok;");
    assert!(twice.unwrap_err().contains("already been declared"));
    let alias_then_builtin = compile("int32 = Int32;\nint32 ? = Int32;");
    assert!(alias_then_builtin.unwrap_err().contains("already been declared"));
    let builtin_then_alias = compile("int32 ? = Int32;\nint32 = Int32;");
    assert!(builtin_then_alias.unwrap_err().contains("already been declared"));
}

#[test]
fn unsupported_constructs_fail() {
    assert!(compile("ns.foo = Ok;").is_err());
    assert!(compile("foo#0123abcd = Ok;").is_err());
    assert!(compile("_ = Ok;").is_err());
    assert!(compile("foo bar:flags.0?Int = Ok;").is_err());
    assert!(compile("foo bar:!Int = Ok;").is_err());
    assert!(compile("foo bar:%Int = Ok;").is_err());
    assert!(compile("Int x;").is_err());
}

#[test]
fn builtin_needs_primitive_base() {
    let r = compile("foo ? = Bar;");
    assert!(r.unwrap_err().contains("is not a base type"));
}

#[test]
fn class_description_not_allowed_for_functions() {
    let r = compile("---functions---\n//@class Thing @description nope\n");
    assert!(r.is_err());
}

#[test]
fn unparsable_input_reports_position() {
    let r = compile("???");
    let msg = r.unwrap_err();
    assert!(msg.starts_with("PARSE ERROR:"));
    assert!(msg.contains("???"));
}

#[test]
fn client() {
    // The native client behind the generated stubs is an external
    // collaborator reached over a C interface; what this library hands a
    // client is the generated interface surface. Even an empty schema
    // yields the interface declaration with its generic send operation.
    let out = compile("").expect("the empty schema must compile");
    assert!(out.contains("pub trait Api {"));
    assert!(out.contains("async fn send<Payload: Serialize, Target: DeserializeOwned>"));
}

#[test]
fn class_description_refines_existing_type() {
    // A class-description block seen after the constructors overwrites
    // the metadata of the abstract type without touching its children.
    let input = "ok = Ok;\nokDone = Ok;\n//@class Ok @description A result marker\n";
    let out = compile(input).expect("schema must compile");
    assert!(out.contains("/// A result marker\npub enum Ok{\n   ok,\n   okDone,\n}"));
}

#[test]
fn builtin_alias_resolves_to_primitive() {
    let input = "double ? = Double;\n";
    let mut reg = Registry::new();
    let prog = parse_tl_program(&chars_of(input)).expect("schema must parse");
    tl_program_compile(&mut reg, prog).expect("schema must compile");
    assert_eq!(Type::is_rust(&reg.types, "double"), Some(Prim::Double));
}

#[test]
fn mixed_schema_end_to_end() {
    let input = "double ? = Double;\nstring ? = String;\n\nint32 = Int32;\nint53 = Int53;\nint64 = Int64;\nbytes = Bytes;\n\nboolFalse = Bool;\nboolTrue = Bool;\n\nvector {t:Type} # [ t ] = Vector t;\n\n\n//@description An object of this type can be returned on every function call, in case of an error\n//@code Error code\n//@message Error message\nerror code:int32 message:string = Error;\n\n\n//@description An object of this type is returned on a successful function call for certain functions\nok = Ok;\n\n\n//@class AuthenticationCodeType @description Provides information about the method by which an authentication code is delivered to the user\n\n//@description A digit-only authentication code is delivered via a private Telegram message, which can be viewed from another active session\n//@length Length of the code\nauthenticationCodeTypeTelegramMessage length:int32 = AuthenticationCodeType;\n---functions---\n//@description Returns the current authorization state\ngetAuthorizationState = AuthorizationState;";
    let out = compile(input).expect("schema must compile");
    // The record for the error object, with resolved primitive fields.
    assert!(out.contains("pub struct error {\n   /// Error code\n   pub code: ::std::primitive::i32,\n   /// Error message\n   pub message: ::std::string::String,\n}"));
    // The record for the annotated constructor.
    assert!(out.contains("pub struct authenticationCodeTypeTelegramMessage {\n   /// Length of the code\n   pub length: ::std::primitive::i32,\n}"));
    // The tagged union of the documented abstract type lists its child
    // with a payload, since the constructor has a field.
    assert!(out.contains("/// Provides information about the method by which an authentication code is delivered to the user\npub enum AuthenticationCodeType{\n   authenticationCodeTypeTelegramMessage(authenticationCodeTypeTelegramMessage),\n}"));
    // The call stub of the function section.
    assert!(out.contains("async fn getAuthorizationState(&self) -> ::std::result::Result<AuthorizationState, crate::Failure>"));
    // The alias-only names are elided.
    assert!(!out.contains("pub struct int32"));
    assert!(!out.contains("pub enum Bool"));
}

#[test]
fn stub_nullability_follows_description_text() {
    // A parameter whose name contains "null" but whose recorded
    // description does not stays required: the description text alone
    // governs nullability, for call stubs as for record members.
    let input = "int32 = Int32;\n---functions---\n//@description d\n//@nullCount How many\nsetStats nullCount:int32 = Ok;";
    let out = compile(input).expect("schema must compile");
    assert!(out.contains(", nullCount: ::std::primitive::i32"));
    assert!(!out.contains("Option<"));
    let input2 = "int32 = Int32;\n---functions---\n//@description d\n//@limit May be null\nsetLimit limit:int32 = Ok;";
    let out2 = compile(input2).expect("schema must compile");
    assert!(out2.contains(", limit: Option<::std::primitive::i32>"));
}

#[test]
fn compile_program_is_exact_on_parsed_programs() {
    // The parsed-program half of the pipeline owes success whenever
    // every declaration compiles.
    let prog = parse_tl_program(&chars_of("ok = Ok;\nokDone = Ok;\n")).expect("schema must parse");
    let out = td_api_rs::compile_program(prog).expect("program must compile");
    assert!(out.contains("pub enum Ok{\n   ok,\n   okDone,\n}"));
    let bad = parse_tl_program(&chars_of("ok = Ok;\nok = Ok;\n")).expect("schema must parse");
    assert!(td_api_rs::compile_program(bad).is_err());
}
