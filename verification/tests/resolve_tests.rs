use argon::extract::{Annotation, ResponseAnnotation};
use argon::resolve::{
    extract_response_schema_types, resolve_response, resolve_responses, ResponseDoc,
    SchemaRegistry,
};
use argon::types::{render_type, Token, TypeExpr};

fn ident(s: &str) -> Token {
    Token::Ident(String::from(s))
}

fn ty(name: &str) -> TypeExpr {
    TypeExpr {
        segments: vec![String::from(name)],
        args: Vec::new(),
    }
}

fn resp_ann(tokens: Vec<Token>) -> Annotation {
    Annotation {
        segments: vec![String::from("utoipa_response")],
        args: Some(tokens),
    }
}

#[test]
fn shorthand_resolves_to_200_success() {
    let doc = resolve_response(&ResponseAnnotation::Simple(ty("Item")));
    match doc {
        ResponseDoc::Concrete {
            status,
            description,
            body,
        } => {
            assert_eq!(status, 200);
            assert_eq!(description, "Success");
            assert_eq!(body, "Item");
        }
        other => panic!("expected a concrete triple, got {:?}", other),
    }
}

#[test]
fn explicit_resolves_to_its_triple() {
    let doc = resolve_response(&ResponseAnnotation::Explicit {
        status: Some(201),
        description: Some(String::from("User created")),
        body: ty("User"),
    });
    match doc {
        ResponseDoc::Concrete {
            status,
            description,
            body,
        } => {
            assert_eq!(status, 201);
            assert_eq!(description, "User created");
            assert_eq!(body, "User");
        }
        other => panic!("expected a concrete triple, got {:?}", other),
    }
}

#[test]
fn explicit_defaults_fill_missing_status_and_description() {
    let doc = resolve_response(&ResponseAnnotation::Explicit {
        status: None,
        description: None,
        body: ty("User"),
    });
    match doc {
        ResponseDoc::Concrete {
            status,
            description,
            ..
        } => {
            assert_eq!(status, 200);
            assert_eq!(description, "Success");
        }
        other => panic!("expected a concrete triple, got {:?}", other),
    }
}

#[test]
fn composed_is_emitted_as_is() {
    let envelope = TypeExpr {
        segments: vec![String::from("Envelope")],
        args: vec![ty("A"), ty("B")],
    };
    let doc = resolve_response(&ResponseAnnotation::Composed { envelope });
    match doc {
        ResponseDoc::Envelope { reference } => assert_eq!(reference, "Envelope<A, B>"),
        other => panic!("expected an envelope reference, got {:?}", other),
    }
}

#[test]
fn responses_resolve_in_order() {
    let rs = vec![
        ResponseAnnotation::Simple(ty("User")),
        ResponseAnnotation::Explicit {
            status: Some(404),
            description: Some(String::from("Not found")),
            body: ty("Error"),
        },
    ];
    let docs = resolve_responses(&rs);
    assert_eq!(docs.len(), 2);
    assert!(matches!(
        &docs[0],
        ResponseDoc::Concrete { status: 200, .. }
    ));
    assert!(matches!(
        &docs[1],
        ResponseDoc::Concrete { status: 404, .. }
    ));
}

#[test]
fn envelope_contributes_its_arguments_not_itself() {
    let tokens = vec![
        ident("response"),
        Token::Eq,
        ident("Envelope"),
        Token::Lt,
        ident("A"),
        Token::Comma,
        ident("B"),
        Token::Comma,
        ident("C"),
        Token::Comma,
        ident("D"),
        Token::Gt,
    ];
    let attrs = vec![resp_ann(tokens)];
    let types = extract_response_schema_types(&attrs).expect("a valid envelope");
    let names: Vec<String> = types.iter().map(|t| render_type(t)).collect();
    assert_eq!(names, vec!["A", "B", "C", "D"]);
}

#[test]
fn nested_envelope_arguments_unwrap_recursively() {
    let tokens = vec![
        ident("response"),
        Token::Eq,
        ident("Envelope"),
        Token::Lt,
        ident("Page"),
        Token::Lt,
        ident("Item"),
        Token::Gt,
        Token::Comma,
        ident("Error"),
        Token::Gt,
    ];
    let attrs = vec![resp_ann(tokens)];
    let types = extract_response_schema_types(&attrs).expect("a valid envelope");
    let names: Vec<String> = types.iter().map(|t| render_type(t)).collect();
    // The nested argument comes before the generic type that carries it;
    // the outer envelope itself is absent.
    assert_eq!(names, vec!["Item", "Page<Item>", "Error"]);
}

#[test]
fn registry_keeps_first_seen_order_and_deduplicates() {
    let mut reg = SchemaRegistry::new();
    reg.register(String::from("User"));
    reg.register(String::from("Error"));
    reg.register(String::from("User"));
    assert_eq!(reg.schemas, vec!["User", "Error"]);
}

#[test]
fn registering_the_same_set_twice_does_not_double_it() {
    let types = vec![ty("A"), ty("B"), ty("A")];
    let mut reg = SchemaRegistry::new();
    reg.register_types(&types);
    assert_eq!(reg.schemas, vec!["A", "B"]);
    reg.register_types(&types);
    assert_eq!(reg.schemas, vec!["A", "B"]);
}
