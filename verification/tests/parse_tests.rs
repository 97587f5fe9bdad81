//! Grammar tests: each feeds a schema fragment to the matching grammar
//! rule and checks that it parses.

use td_api_rs::base::parse_digit;
use td_api_rs::base::parse_hex_digit;
use td_api_rs::base::parse_ident_char;
use td_api_rs::base::parse_lc_letter;
use td_api_rs::base::parse_nat_const;
use td_api_rs::base::parse_uc_ident;
use td_api_rs::base::parse_uc_letter;
use td_api_rs::combinator::parse_combinator_decl;
use td_api_rs::comment::parse_class_desc;
use td_api_rs::comment::parse_desc;
use td_api_rs::comment::parse_desc_comment;
use td_api_rs::program::parse_block;
use td_api_rs::program::parse_blocks;
use td_api_rs::program::parse_decl_block;
use td_api_rs::syntax::parse_expr;
use td_api_rs::syntax::parse_subexpr;
use td_api_rs::syntax::parse_term;

fn chars_of(code: &str) -> Vec<char> {
    code.chars().collect()
}

#[test]
fn uc_ident_test() {
    let code = chars_of("Int");
    let r = parse_uc_ident(&code, 0).expect("uc-ident must parse");
    assert_eq!(r.value, "Int");
    assert_eq!(r.next, 3);
}

#[test]
fn term() {
    let code = chars_of("Int");
    assert!(parse_term(&code, 0).is_some());
}

#[test]
fn subexpr_term() {
    let code = chars_of("Int");
    assert!(parse_subexpr(&code, 0).is_some());
}

#[test]
fn subexpr_nat_const_subexpr() {
    // The term alternative wins the ordered choice, consuming the
    // numeric constant alone.
    let code = chars_of("100 + Int");
    assert!(parse_subexpr(&code, 0).is_some());
}

#[test]
fn expr() {
    let code = chars_of("10");
    let r = parse_expr(&code, 0);
    assert_eq!(r.value.len(), 1);
}

#[test]
fn angle_brace() {
    let code = chars_of(r#"vector<textEntity>"#);
    let r = parse_term(&code, 0).expect("generic application must parse");
    assert_eq!(r.next, code.len());
}

#[test]
fn combinator_decl_test() {
    let code = chars_of(
        r#"int32 = Int32;
int53 = Int53;
int64 = Int64;
bytes = Bytes;

boolFalse = Bool;
boolTrue = Bool;
vector {t:Type} # [ t ] = Vector t;
"#,
    );
    let mut at = 0;
    let mut count = 0;
    while let Some(p) = parse_combinator_decl(&code, at) {
        at = p.next;
        count += 1;
    }
    assert_eq!(count, 7);
    assert_eq!(at, code.len());
}

#[test]
fn combinator_vec() {
    let code = chars_of(r#"textEntities entities:vector<textEntity> = TextEntities;"#);
    let r = parse_combinator_decl(&code, 0).expect("combinator declaration must parse");
    assert_eq!(r.next, code.len());
}

#[test]
fn desc() {
    let code = chars_of(
        r#"@description An authentication code is delivered by an immediately canceled call to the specified phone number. The last digits of the phone number that calls are the code that must be entered manually by the user"#,
    );
    assert!(parse_desc(&code, 0).is_some());
}

#[test]
fn comment_line() {
    let code = chars_of(
        r#"//@description An authentication code is delivered by an immediately canceled call to the specified phone number. The last digits of the phone number that calls are the code that must be entered manually by the user
//@phone_number_prefix Prefix of the phone number from which the call will be made
//@length Number of digits in the code, excluding the prefix
authenticationCodeTypeMissedCall phone_number_prefix:string length:int32 = AuthenticationCodeType;"#,
    );
    assert!(parse_desc_comment(&code, 0).is_some());
}

#[test]
fn comment_class() {
    let code = chars_of(
        r#"//@class AuthenticationCodeType @description Provides information about the method by which an authentication code is delivered to the user
"#,
    );
    assert!(parse_class_desc(&code, 0).is_some());
}

#[test]
fn multi_line_comment() {
    let code = chars_of(
        r#"//@description An authentication code is delivered by an immediately canceled call to the specified phone number. The last digits of the phone number that calls are the code that must be entered manually by the user
//ugh
//@phone_number_prefix Prefix of the phone number from which the call will be made
//@length Number of digits in the code, excluding the prefix
authenticationCodeTypeMissedCall phone_number_prefix:string length:int32 = AuthenticationCodeType;"#,
    );
    let first = parse_desc_comment(&code, 0).expect("first comment must parse");
    assert!(parse_desc_comment(&code, first.next).is_some());
}

#[test]
fn desc_decl() {
    let code = chars_of(
        r#"//@description An object of this type can be returned on every function call, in case of an error
//@code Error code; subject to future changes. If the error code is 406, the error message must not be processed in any way and must not be displayed to the user
//@message Error message; subject to future changes
error code:int32 message:string = Error;"#,
    );
    let r = parse_decl_block(&code, 0).expect("declaration block must parse");
    assert_eq!(r.next, code.len());
}

#[test]
fn block_desc_decl() {
    let code = chars_of(
        r#"//@description An object of this type can be returned on every function call, in case of an error
//@code Error code; subject to future changes. If the error code is 406, the error message must not be processed in any way and must not be displayed to the user
//@message Error message; subject to future changes
error code:int32 message:string = Error;"#,
    );
    let r = parse_block(&code, 0).expect("block must parse");
    assert_eq!(r.next, code.len());
}

#[test]
fn block_full() {
    let code = chars_of(
        r#"double ? = Double;
string ? = String;

int32 = Int32;
int53 = Int53;
int64 = Int64;
bytes = Bytes;

boolFalse = Bool;
boolTrue = Bool;

vector {t:Type} # [ t ] = Vector t;


//@description An object of this type can be returned on every function call, in case of an error
//@code Error code; subject to future changes. If the error code is 406, the error message must not be processed in any way and must not be displayed to the user
//@message Error message; subject to future changes
error code:int32 message:string = Error;


//@description An object of this type is returned on a successful function call for certain functions
ok = Ok;


//@class AuthenticationCodeType @description Provides information about the method by which an authentication code is delivered to the user

//@description A digit-only authentication code is delivered via a private Telegram message, which can be viewed from another active session
//@length Length of the code
authenticationCodeTypeTelegramMessage length:int32 = AuthenticationCodeType;"#,
    );
    let r = parse_blocks(&code, 0);
    assert_eq!(r.next, code.len());
    assert_eq!(r.value.len(), 13);
}

#[test]
fn complex_block() {
    let code = chars_of(
        r#"//@description Contains a list of text entities @entities List of text entities
textEntities entities:vector<textEntity> = TextEntities;"#,
    );
    let r = parse_block(&code, 0).expect("block must parse");
    assert_eq!(r.next, code.len());
}

#[test]
fn character_classes() {
    let code = chars_of("aZ9_");
    assert!(parse_lc_letter(&code, 0).is_some());
    assert!(parse_lc_letter(&code, 1).is_none());
    assert!(parse_uc_letter(&code, 1).is_some());
    assert!(parse_digit(&code, 2).is_some());
    assert!(parse_digit(&code, 0).is_none());
    assert!(parse_ident_char(&code, 2).is_some());
    assert!(parse_ident_char(&code, 3).is_some());
    assert!(parse_hex_digit(&code, 2).is_some());
    assert!(parse_hex_digit(&code, 1).is_none());
}

#[test]
fn nat_const_token() {
    let code = chars_of("406 ");
    let r = parse_nat_const(&code, 0).expect("digits must parse");
    assert_eq!(r.value, "406");
    assert_eq!(r.next, 4);
}
