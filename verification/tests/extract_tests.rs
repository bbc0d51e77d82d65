use argon::error::GenError;
use argon::extract::{
    extract_route_attr, extract_utoipa_response_attrs, Annotation, ResponseAnnotation,
    UtoipaResponseArgs, Verb,
};
use argon::types::Token;

fn ident(s: &str) -> Token {
    Token::Ident(String::from(s))
}

fn ann(path: &[&str], args: Option<Vec<Token>>) -> Annotation {
    Annotation {
        segments: path.iter().map(|s| String::from(*s)).collect(),
        args,
    }
}

fn route_ann(verb: &str, path: &str) -> Annotation {
    ann(&[verb], Some(vec![Token::StrLit(String::from(path))]))
}

#[test]
fn route_from_short_name() {
    let attrs = vec![route_ann("get", "/users")];
    let (verb, path) = extract_route_attr(&attrs).expect("a route");
    assert_eq!(verb, Verb::Get);
    assert_eq!(path, "/users");
}

#[test]
fn route_from_namespaced_alias() {
    let attrs = vec![ann(
        &["argon_macros", "post"],
        Some(vec![Token::StrLit(String::from("/users"))]),
    )];
    let (verb, path) = extract_route_attr(&attrs).expect("a route");
    assert_eq!(verb, Verb::Post);
    assert_eq!(path, "/users");
}

#[test]
fn route_name_is_matched_after_lowercasing() {
    let attrs = vec![route_ann("DELETE", "/users/{id}")];
    let (verb, _) = extract_route_attr(&attrs).expect("a route");
    assert_eq!(verb, Verb::Delete);
}

#[test]
fn verb_named_annotation_without_string_literal_is_skipped() {
    // A verb-like name whose argument is not a single string literal is
    // silently skipped, not an error.
    let attrs = vec![
        ann(&["get"], Some(vec![ident("not_a_literal")])),
        route_ann("put", "/fallback"),
    ];
    let (verb, path) = extract_route_attr(&attrs).expect("the later route");
    assert_eq!(verb, Verb::Put);
    assert_eq!(path, "/fallback");
}

#[test]
fn first_route_annotation_wins() {
    let attrs = vec![route_ann("get", "/first"), route_ann("post", "/second")];
    let (verb, path) = extract_route_attr(&attrs).expect("a route");
    assert_eq!(verb, Verb::Get);
    assert_eq!(path, "/first");
}

#[test]
fn no_route_annotation_yields_none() {
    let attrs = vec![ann(&["utoipa_response"], Some(vec![ident("User")]))];
    assert!(extract_route_attr(&attrs).is_none());
}

#[test]
fn simple_response_form() {
    let attrs = vec![ann(&["utoipa_response"], Some(vec![ident("User")]))];
    let responses = extract_utoipa_response_attrs(&attrs).expect("valid annotations");
    assert_eq!(responses.len(), 1);
    match &responses[0] {
        ResponseAnnotation::Simple(t) => assert_eq!(t.segments, vec![String::from("User")]),
        other => panic!("expected the shorthand form, got {:?}", other),
    }
}

#[test]
fn explicit_response_form_keeps_given_values() {
    let tokens = vec![
        ident("status"),
        Token::Eq,
        Token::IntLit(201),
        Token::Comma,
        ident("body"),
        Token::Eq,
        ident("User"),
        Token::Comma,
        ident("description"),
        Token::Eq,
        Token::StrLit(String::from("User created")),
    ];
    let attrs = vec![ann(&["utoipa_response"], Some(tokens))];
    let responses = extract_utoipa_response_attrs(&attrs).expect("valid annotations");
    assert_eq!(responses.len(), 1);
    match &responses[0] {
        ResponseAnnotation::Explicit {
            status,
            description,
            body,
        } => {
            assert_eq!(*status, Some(201));
            assert_eq!(description.as_deref(), Some("User created"));
            assert_eq!(body.segments, vec![String::from("User")]);
        }
        other => panic!("expected the explicit form, got {:?}", other),
    }
}

#[test]
fn response_key_makes_composed_form() {
    let tokens = vec![
        ident("response"),
        Token::Eq,
        ident("Envelope"),
        Token::Lt,
        ident("A"),
        Token::Comma,
        ident("B"),
        Token::Gt,
    ];
    let attrs = vec![ann(&["utoipa_response"], Some(tokens))];
    let responses = extract_utoipa_response_attrs(&attrs).expect("valid annotations");
    assert_eq!(responses.len(), 1);
    match &responses[0] {
        ResponseAnnotation::Composed { envelope } => {
            assert_eq!(envelope.segments, vec![String::from("Envelope")]);
            assert_eq!(envelope.args.len(), 2);
        }
        other => panic!("expected the composed form, got {:?}", other),
    }
}

#[test]
fn body_and_response_in_one_annotation_conflict() {
    let tokens = vec![
        ident("body"),
        Token::Eq,
        ident("X"),
        Token::Comma,
        ident("response"),
        Token::Eq,
        ident("Y"),
    ];
    let attrs = vec![ann(&["utoipa_response"], Some(tokens))];
    let err = extract_utoipa_response_attrs(&attrs).expect_err("a conflict");
    assert!(matches!(err, GenError::ConflictingAnnotationError));
}

#[test]
fn body_and_response_as_separate_annotations_are_both_recorded() {
    let attrs = vec![
        ann(
            &["utoipa_response"],
            Some(vec![ident("body"), Token::Eq, ident("X")]),
        ),
        ann(
            &["utoipa_response"],
            Some(vec![ident("response"), Token::Eq, ident("Y")]),
        ),
    ];
    let responses = extract_utoipa_response_attrs(&attrs).expect("two separate annotations");
    assert_eq!(responses.len(), 2);
    assert!(matches!(&responses[0], ResponseAnnotation::Explicit { .. }));
    assert!(matches!(&responses[1], ResponseAnnotation::Composed { .. }));
}

#[test]
fn unknown_key_is_rejected_by_name() {
    let tokens = vec![ident("bodyy"), Token::Eq, ident("X")];
    let attrs = vec![ann(&["utoipa_response"], Some(tokens))];
    let err = extract_utoipa_response_attrs(&attrs).expect_err("an unknown key");
    match err {
        GenError::UnknownArgumentError(key) => assert_eq!(key, "bodyy"),
        other => panic!("expected the unknown-key error, got {:?}", other),
    }
}

#[test]
fn malformed_argument_list_is_a_parse_error() {
    let tokens = vec![ident("status"), Token::Eq, ident("not_a_number")];
    let attrs = vec![ann(&["utoipa_response"], Some(tokens))];
    let err = extract_utoipa_response_attrs(&attrs).expect_err("a parse error");
    assert!(matches!(err, GenError::AttributeParseError));
}

#[test]
fn status_only_annotation_contributes_nothing() {
    let tokens = vec![ident("status"), Token::Eq, Token::IntLit(404)];
    let attrs = vec![ann(&["utoipa_response"], Some(tokens))];
    let responses = extract_utoipa_response_attrs(&attrs).expect("no error");
    assert!(responses.is_empty());
}

#[test]
fn annotation_without_arguments_is_skipped() {
    let attrs = vec![ann(&["utoipa_response"], None)];
    let responses = extract_utoipa_response_attrs(&attrs).expect("no error");
    assert!(responses.is_empty());
}

#[test]
fn other_annotations_are_ignored() {
    let attrs = vec![ann(&["derive"], Some(vec![ident("Debug")]))];
    let responses = extract_utoipa_response_attrs(&attrs).expect("no error");
    assert!(responses.is_empty());
}

#[test]
fn kv_parser_accepts_trailing_comma() {
    let tokens = vec![ident("body"), Token::Eq, ident("X"), Token::Comma];
    let args = UtoipaResponseArgs::parse(&tokens).expect("a trailing comma is fine");
    assert!(args.body.is_some());
    assert!(args.status.is_none());
}

#[test]
fn kv_parser_lets_a_later_key_overwrite() {
    let tokens = vec![
        ident("status"),
        Token::Eq,
        Token::IntLit(200),
        Token::Comma,
        ident("status"),
        Token::Eq,
        Token::IntLit(404),
    ];
    let args = UtoipaResponseArgs::parse(&tokens).expect("duplicate keys are fine");
    assert_eq!(args.status, Some(404));
}
