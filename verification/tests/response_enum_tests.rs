use argon::error::GenError;
use argon::response_enum::{response, ResponseEntry, ResponseMacroInput};
use argon::types::{Token, TypeExpr};

fn ident(s: &str) -> Token {
    Token::Ident(String::from(s))
}

fn named_type(name: &str) -> TypeExpr {
    TypeExpr {
        segments: vec![String::from(name)],
        args: Vec::new(),
    }
}

fn status_path(constant: &str) -> Vec<String> {
    vec![String::from("StatusCode"), String::from(constant)]
}

fn entry(constant: &str, ty: &str, description: Option<&str>) -> ResponseEntry {
    ResponseEntry {
        status_path: status_path(constant),
        response_type: named_type(ty),
        description: description.map(String::from),
    }
}

#[test]
fn parse_entries_with_and_without_description() {
    let tokens = vec![
        ident("StatusCode"),
        Token::PathSep,
        ident("OK"),
        Token::Eq,
        ident("User"),
        Token::Comma,
        ident("StatusCode"),
        Token::PathSep,
        ident("UNAUTHORIZED"),
        Token::Eq,
        ident("UnauthorizedError"),
        Token::StrLit(String::from("Authentication required")),
    ];
    let input = ResponseMacroInput::parse(&tokens).expect("a valid declaration");
    assert_eq!(input.entries.len(), 2);
    assert_eq!(input.entries[0].status_path, vec!["StatusCode", "OK"]);
    assert!(input.entries[0].description.is_none());
    assert_eq!(
        input.entries[1].description.as_deref(),
        Some("Authentication required")
    );
}

#[test]
fn parse_accepts_trailing_comma() {
    let tokens = vec![
        ident("StatusCode"),
        Token::PathSep,
        ident("OK"),
        Token::Eq,
        ident("User"),
        Token::Comma,
    ];
    let input = ResponseMacroInput::parse(&tokens).expect("a trailing comma is fine");
    assert_eq!(input.entries.len(), 1);
}

#[test]
fn parse_rejects_missing_equals() {
    let tokens = vec![ident("StatusCode"), Token::PathSep, ident("OK"), ident("User")];
    let err = ResponseMacroInput::parse(&tokens).expect_err("no equals sign");
    assert!(matches!(err, GenError::AttributeParseError));
}

#[test]
fn parse_rejects_missing_comma_between_entries() {
    let tokens = vec![
        ident("StatusCode"),
        Token::PathSep,
        ident("OK"),
        Token::Eq,
        ident("User"),
        ident("StatusCode"),
        Token::PathSep,
        ident("NOT_FOUND"),
        Token::Eq,
        ident("Error"),
    ];
    let err = ResponseMacroInput::parse(&tokens).expect_err("entries need a comma");
    assert!(matches!(err, GenError::AttributeParseError));
}

#[test]
fn empty_declaration_is_a_hard_error() {
    let input = ResponseMacroInput {
        entries: Vec::new(),
    };
    let err = response(&input).expect_err("zero entries");
    assert!(matches!(err, GenError::EmptyDeclarationError));
}

#[test]
fn synthesized_variants_carry_names_statuses_descriptions() {
    let input = ResponseMacroInput {
        entries: vec![
            entry("OK", "User", None),
            entry("NOT_FOUND", "NotFoundError", None),
            entry("UNAUTHORIZED", "UnauthorizedError", Some("Authentication required")),
            entry("INTERNAL_SERVER_ERROR", "InternalError", None),
        ],
    };
    let def = response(&input).expect("a valid declaration");
    assert_eq!(def.name, "Response");
    assert_eq!(def.variants.len(), 4);

    assert_eq!(def.variants[0].name, "Ok");
    assert_eq!(def.variants[0].status, 200);
    assert_eq!(def.variants[0].description, "Ok");
    assert_eq!(def.variants[0].body.segments, vec!["User"]);

    assert_eq!(def.variants[1].name, "NotFound");
    assert_eq!(def.variants[1].status, 404);
    assert_eq!(def.variants[1].description, "Not found");
    assert_eq!(def.variants[1].status_constant, "NOT_FOUND");

    assert_eq!(def.variants[2].name, "Unauthorized");
    assert_eq!(def.variants[2].status, 401);
    assert_eq!(def.variants[2].description, "Authentication required");

    assert_eq!(def.variants[3].name, "InternalServerError");
    assert_eq!(def.variants[3].status, 500);
    assert_eq!(def.variants[3].description, "Internal server error");
}

#[test]
fn unknown_mnemonic_variant_defaults_to_200() {
    let input = ResponseMacroInput {
        entries: vec![entry("TEAPOT", "Teapot", None)],
    };
    let def = response(&input).expect("a valid declaration");
    assert_eq!(def.variants[0].name, "Teapot");
    assert_eq!(def.variants[0].status, 200);
    assert_eq!(def.variants[0].description, "Teapot");
}

#[test]
fn encode_attaches_the_variant_status_to_the_body() {
    let input = ResponseMacroInput {
        entries: vec![entry("OK", "User", None), entry("NOT_FOUND", "Error", None)],
    };
    let def = response(&input).expect("a valid declaration");
    let (status, body) = def.encode(1, String::from("{\"message\":\"missing\"}"));
    assert_eq!(status, 404);
    assert_eq!(body, "{\"message\":\"missing\"}");
}
