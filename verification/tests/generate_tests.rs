use argon::error::GenError;
use argon::extract::{Annotation, Verb};
use argon::generate::{controller, ApiDocument, ControllerDefinition, MethodDefinition};
use argon::resolve::ResponseDoc;
use argon::types::{Token, TypeExpr};

fn ident(s: &str) -> Token {
    Token::Ident(String::from(s))
}

fn named_type(name: &str) -> TypeExpr {
    TypeExpr {
        segments: vec![String::from(name)],
        args: Vec::new(),
    }
}

fn route_ann(verb: &str, path: &str) -> Annotation {
    Annotation {
        segments: vec![String::from(verb)],
        args: Some(vec![Token::StrLit(String::from(path))]),
    }
}

fn resp_ann(tokens: Vec<Token>) -> Annotation {
    Annotation {
        segments: vec![String::from("utoipa_response")],
        args: Some(tokens),
    }
}

fn method(name: &str, annotations: Vec<Annotation>) -> MethodDefinition {
    MethodDefinition {
        name: String::from(name),
        is_async: true,
        has_receiver: false,
        annotations,
    }
}

#[test]
fn end_to_end_single_route() {
    let c = ControllerDefinition {
        self_ty: named_type("ItemsController"),
        methods: vec![method(
            "get_item",
            vec![route_ann("get", "/items/{id}"), resp_ann(vec![ident("Item")])],
        )],
    };
    let g = controller(&c).expect("a valid controller");

    assert_eq!(g.routes.len(), 1);
    assert_eq!(g.routes[0].verb, Verb::Get);
    assert_eq!(g.routes[0].path, "/items/{id}");
    assert_eq!(g.routes[0].handler, "ItemsController::get_item");

    let ApiDocument { paths, schemas } = g.doc;
    assert_eq!(paths.len(), 1);
    assert_eq!(paths[0].identity, "__utoipa_path_get_item");
    assert_eq!(paths[0].verb, Verb::Get);
    assert_eq!(paths[0].path, "items/{id}");
    assert_eq!(paths[0].responses.len(), 1);
    match &paths[0].responses[0] {
        ResponseDoc::Concrete {
            status,
            description,
            body,
        } => {
            assert_eq!(*status, 200);
            assert_eq!(description, "Success");
            assert_eq!(body, "Item");
        }
        other => panic!("expected a concrete triple, got {:?}", other),
    }
    assert_eq!(schemas.expect("one schema was registered"), vec!["Item"]);
}

#[test]
fn one_route_entry_per_annotated_method_in_order() {
    let c = ControllerDefinition {
        self_ty: named_type("Wide"),
        methods: vec![
            method("first", vec![route_ann("get", "/a")]),
            method("plain", vec![]),
            method("second", vec![route_ann("post", "/b")]),
            method("third", vec![route_ann("delete", "/c")]),
        ],
    };
    let g = controller(&c).expect("a valid controller");
    assert_eq!(g.routes.len(), 3);
    assert_eq!(g.routes[0].handler, "Wide::first");
    assert_eq!(g.routes[1].handler, "Wide::second");
    assert_eq!(g.routes[2].handler, "Wide::third");
    assert_eq!(g.doc.paths.len(), 3);
}

#[test]
fn receiver_and_free_methods_register_identically() {
    let mk = |has_receiver: bool| ControllerDefinition {
        self_ty: named_type("C"),
        methods: vec![MethodDefinition {
            name: String::from("m"),
            is_async: false,
            has_receiver,
            annotations: vec![route_ann("get", "/m")],
        }],
    };
    let with = controller(&mk(true)).expect("valid");
    let without = controller(&mk(false)).expect("valid");
    assert_eq!(with.routes[0].handler, without.routes[0].handler);
    assert_eq!(with.routes[0].handler, "C::m");
}

#[test]
fn duplicate_route_annotations_on_one_method_honor_the_first() {
    let c = ControllerDefinition {
        self_ty: named_type("C"),
        methods: vec![method(
            "m",
            vec![route_ann("get", "/first"), route_ann("post", "/second")],
        )],
    };
    let g = controller(&c).expect("a valid controller");
    assert_eq!(g.routes.len(), 1);
    assert_eq!(g.routes[0].verb, Verb::Get);
    assert_eq!(g.routes[0].path, "/first");
}

#[test]
fn structural_error_without_nominal_type() {
    let c = ControllerDefinition {
        self_ty: TypeExpr {
            segments: Vec::new(),
            args: Vec::new(),
        },
        methods: Vec::new(),
    };
    let err = controller(&c).expect_err("not a nominal type");
    assert!(matches!(err, GenError::StructuralError));
}

#[test]
fn an_invalid_annotation_aborts_the_whole_pass() {
    let c = ControllerDefinition {
        self_ty: named_type("C"),
        methods: vec![
            method("fine", vec![route_ann("get", "/a"), resp_ann(vec![ident("A")])]),
            method(
                "broken",
                vec![
                    route_ann("get", "/b"),
                    resp_ann(vec![
                        ident("body"),
                        Token::Eq,
                        ident("X"),
                        Token::Comma,
                        ident("response"),
                        Token::Eq,
                        ident("Y"),
                    ]),
                ],
            ),
        ],
    };
    let err = controller(&c).expect_err("the conflict aborts everything");
    assert!(matches!(err, GenError::ConflictingAnnotationError));
}

#[test]
fn schema_section_is_omitted_when_empty() {
    let c = ControllerDefinition {
        self_ty: named_type("Bare"),
        methods: vec![method("m", vec![route_ann("get", "/m")])],
    };
    let g = controller(&c).expect("a valid controller");
    assert_eq!(g.routes.len(), 1);
    assert!(g.doc.schemas.is_none());
}

#[test]
fn schemas_deduplicate_across_methods_first_seen_order() {
    let c = ControllerDefinition {
        self_ty: named_type("C"),
        methods: vec![
            method(
                "a",
                vec![route_ann("get", "/a"), resp_ann(vec![ident("User")])],
            ),
            method(
                "b",
                vec![
                    route_ann("get", "/b"),
                    resp_ann(vec![ident("Error")]),
                    resp_ann(vec![ident("User")]),
                ],
            ),
        ],
    };
    let g = controller(&c).expect("a valid controller");
    assert_eq!(
        g.doc.schemas.expect("schemas were registered"),
        vec!["User", "Error"]
    );
}

#[test]
fn responses_of_unrouted_methods_are_ignored() {
    let c = ControllerDefinition {
        self_ty: named_type("C"),
        methods: vec![method("plain", vec![resp_ann(vec![ident("User")])])],
    };
    let g = controller(&c).expect("a valid controller");
    assert!(g.routes.is_empty());
    assert!(g.doc.paths.is_empty());
    assert!(g.doc.schemas.is_none());
}

#[test]
fn doc_path_without_leading_slash_is_kept() {
    let c = ControllerDefinition {
        self_ty: named_type("C"),
        methods: vec![method("m", vec![route_ann("get", "relative/{id}")])],
    };
    let g = controller(&c).expect("a valid controller");
    assert_eq!(g.routes[0].path, "relative/{id}");
    assert_eq!(g.doc.paths[0].path, "relative/{id}");
}
