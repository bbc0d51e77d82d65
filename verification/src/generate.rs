//! The generation pass over one controller declaration.
//!
//! From the ordered methods of a nominal type's implementation block it
//! synthesizes, atomically, the two artifacts: the ordered route
//! registration table, and the API documentation object with its
//! deduplicated schema section. Any error aborts the pass; no partial
//! artifact is produced.

use vstd::prelude::*;
use vstd::string::StrSliceExecFns;
use vstd::string::StringExecFns;
use crate::strutil::strs_view;
use crate::types::TypeExpr;
use crate::extract::{
    Annotation, Verb, extract_route_attr, extract_utoipa_response_attrs, spec_extract_route,
    spec_extract_responses, resp_models,
};
use crate::resolve::{
    ResponseDoc, RespDocModel, SchemaRegistry, resp_docs_view, resolve_list, resolve_responses,
    contribs_of_resps, extract_response_schema_types, register_all, renders_of, distinct_names,
    lemma_register_all_distinct,
};
use crate::error::{GenError, ErrModel, err_model};

verus! {

/// One method of a controller declaration, with its raw annotation list in
/// source order.
#[derive(Debug)]
pub struct MethodDefinition {
    pub name: String,
    pub is_async: bool,
    pub has_receiver: bool,
    pub annotations: Vec<Annotation>,
}

/// A controller declaration: the implementation block of a nominal type,
/// with its methods in declaration order.
#[derive(Debug)]
pub struct ControllerDefinition {
    pub self_ty: TypeExpr,
    pub methods: Vec<MethodDefinition>,
}

/// One row of the route registration table.
#[derive(Debug)]
pub struct RouteTableEntry {
    pub verb: Verb,
    pub path: String,
    pub handler: String,
}

/// The mathematical shape of a route table entry.
pub struct RouteEntryModel {
    pub verb: Verb,
    pub path: Seq<char>,
    pub handler: Seq<char>,
}

/// The shape of a route table entry.
pub open spec fn route_entry_model(e: RouteTableEntry) -> RouteEntryModel {
    RouteEntryModel { verb: e.verb, path: e.path@, handler: e.handler@ }
}

impl View for RouteTableEntry {
    type V = RouteEntryModel;

    open spec fn view(&self) -> RouteEntryModel {
        route_entry_model(*self)
    }
}

/// The shapes of a route table.
pub open spec fn routes_view(s: Seq<RouteTableEntry>) -> Seq<RouteEntryModel> {
    Seq::new(s.len(), |i: int| route_entry_model(s[i]))
}

/// One path entry of the documentation artifact: a documentation-only
/// stand-in identity plus the method's resolved responses.
#[derive(Debug)]
pub struct PathEntry {
    pub identity: String,
    pub verb: Verb,
    pub path: String,
    pub responses: Vec<ResponseDoc>,
}

/// The mathematical shape of a path entry.
pub struct PathEntryModel {
    pub identity: Seq<char>,
    pub verb: Verb,
    pub path: Seq<char>,
    pub responses: Seq<RespDocModel>,
}

/// The shape of a path entry.
pub open spec fn path_entry_model(p: PathEntry) -> PathEntryModel {
    PathEntryModel {
        identity: p.identity@,
        verb: p.verb,
        path: p.path@,
        responses: resp_docs_view(p.responses@),
    }
}

impl View for PathEntry {
    type V = PathEntryModel;

    open spec fn view(&self) -> PathEntryModel {
        path_entry_model(*self)
    }
}

/// The shapes of a sequence of path entries.
pub open spec fn paths_view(s: Seq<PathEntry>) -> Seq<PathEntryModel> {
    Seq::new(s.len(), |i: int| path_entry_model(s[i]))
}

/// The assembled API documentation object. The schema section is omitted
/// entirely when no schema was registered.
#[derive(Debug)]
pub struct ApiDocument {
    pub paths: Vec<PathEntry>,
    pub schemas: Option<Vec<String>>,
}

/// The mathematical shape of the documentation object.
pub struct DocModel {
    pub paths: Seq<PathEntryModel>,
    pub schemas: Option<Seq<Seq<char>>>,
}

/// The shape of the documentation object.
pub open spec fn doc_model(d: ApiDocument) -> DocModel {
    DocModel {
        paths: paths_view(d.paths@),
        schemas: match d.schemas {
            None => None,
            Some(v) => Some(strs_view(v@)),
        },
    }
}

impl View for ApiDocument {
    type V = DocModel;

    open spec fn view(&self) -> DocModel {
        doc_model(*self)
    }
}

/// The two artifacts of one generation pass.
#[derive(Debug)]
pub struct Generated {
    pub routes: Vec<RouteTableEntry>,
    pub doc: ApiDocument,
}

/// The mathematical shape of the two artifacts.
pub struct GeneratedModel {
    pub routes: Seq<RouteEntryModel>,
    pub doc: DocModel,
}

/// The shape of the two artifacts.
pub open spec fn generated_model(g: Generated) -> GeneratedModel {
    GeneratedModel { routes: routes_view(g.routes@), doc: doc_model(g.doc) }
}

impl View for Generated {
    type V = GeneratedModel;

    open spec fn view(&self) -> GeneratedModel {
        generated_model(*self)
    }
}

/// The controller's name: the last segment of its nominal type.
pub open spec fn struct_name_of(c: ControllerDefinition) -> Seq<char> {
    c.self_ty.segments@.last()@
}

/// A method's qualified handler reference. A method with an instance
/// receiver and one without are registered identically: at generation time
/// no instance exists, so both are named as functions bound to the type.
pub open spec fn handler_of(c: ControllerDefinition, m: MethodDefinition) -> Seq<char> {
    struct_name_of(c) + "::"@ + m.name@
}

/// A method's documentation-only stand-in identity.
pub open spec fn identity_of(m: MethodDefinition) -> Seq<char> {
    "__utoipa_path_"@ + m.name@
}

/// The path as it appears in the documentation: a leading slash is
/// stripped, since the document nests its paths under the root.
pub open spec fn doc_path_of(p: Seq<char>) -> Seq<char> {
    if p.len() > 0 && p[0] == '/' {
        p.drop_first()
    } else {
        p
    }
}

/// The state threaded through a generation pass.
pub struct GenState {
    pub routes: Seq<RouteEntryModel>,
    pub paths: Seq<PathEntryModel>,
    pub schemas: Seq<Seq<char>>,
}

/// The state before any method has been processed.
pub open spec fn empty_state() -> GenState {
    GenState {
        routes: Seq::<RouteEntryModel>::empty(),
        paths: Seq::<PathEntryModel>::empty(),
        schemas: Seq::<Seq<char>>::empty(),
    }
}

/// Process one method: a method without a route annotation contributes
/// nothing; a route-annotated method appends its route entry, its path
/// entry, and its deduplicated schema contributions.
pub open spec fn spec_step(c: ControllerDefinition, m: MethodDefinition, st: GenState) -> Result<
    GenState,
    ErrModel,
> {
    match spec_extract_route(m.annotations@) {
        None => Ok(st),
        Some((verb, path)) => match spec_extract_responses(m.annotations@) {
            Err(e) => Err(e),
            Ok(rs) => Ok(
                GenState {
                    routes: st.routes.push(
                        RouteEntryModel { verb: verb, path: path, handler: handler_of(c, m) },
                    ),
                    paths: st.paths.push(
                        PathEntryModel {
                            identity: identity_of(m),
                            verb: verb,
                            path: doc_path_of(path),
                            responses: resolve_list(rs),
                        },
                    ),
                    schemas: register_all(st.schemas, renders_of(contribs_of_resps(rs))),
                },
            ),
        },
    }
}

/// Process the methods in declaration order, threading the state; the
/// first error aborts the pass.
pub open spec fn spec_run(
    c: ControllerDefinition,
    ms: Seq<MethodDefinition>,
    st: GenState,
) -> Result<GenState, ErrModel>
    decreases ms.len(),
{
    if ms.len() == 0 {
        Ok(st)
    } else {
        match spec_step(c, ms[0], st) {
            Err(e) => Err(e),
            Ok(st2) => spec_run(c, ms.drop_first(), st2),
        }
    }
}

/// One whole generation pass: a structural error unless the annotated
/// construct names a nominal type, then the fold over the methods; the
/// schema section is present exactly when some schema was registered.
pub open spec fn spec_controller(c: ControllerDefinition) -> Result<GeneratedModel, ErrModel> {
    if c.self_ty.segments@.len() == 0 {
        Err(ErrModel::StructuralError)
    } else {
        match spec_run(c, c.methods@, empty_state()) {
            Err(e) => Err(e),
            Ok(st) => Ok(
                GeneratedModel {
                    routes: st.routes,
                    doc: DocModel {
                        paths: st.paths,
                        schemas: if st.schemas.len() == 0 {
                            None
                        } else {
                            Some(st.schemas)
                        },
                    },
                },
            ),
        }
    }
}

fn strip_leading_slash(p: &str) -> (r: String)
    ensures
        r@ == doc_path_of(p@),
{
    let len = p.unicode_len();
    if len > 0 && p.get_char(0) == '/' {
        let rest = p.substring_char(1, len);
        proof {
            assert(rest@ =~= p@.drop_first());
        }
        String::from_str(rest)
    } else {
        String::from_str(p)
    }
}

/// Run one generation pass over a controller declaration, producing the
/// route registration table and the API documentation object together, or
/// the first error and nothing.
pub fn controller(c: &ControllerDefinition) -> (r: Result<Generated, GenError>)
    ensures
        match r {
            Ok(g) => spec_controller(*c) == Ok::<GeneratedModel, ErrModel>(generated_model(g)),
            Err(e) => spec_controller(*c) == Err::<GeneratedModel, ErrModel>(err_model(e)),
        },
{
    if c.self_ty.segments.len() == 0 {
        return Err(GenError::StructuralError);
    }
    let struct_name = &c.self_ty.segments[c.self_ty.segments.len() - 1];
    proof {
        assert(struct_name@ == struct_name_of(*c));
    }
    let mut routes: Vec<RouteTableEntry> = Vec::new();
    let mut paths: Vec<PathEntry> = Vec::new();
    let mut registry = SchemaRegistry::new();
    let mut i: usize = 0;
    proof {
        assert(c.methods@.skip(0) =~= c.methods@);
        assert(routes_view(routes@) =~= empty_state().routes);
        assert(paths_view(paths@) =~= empty_state().paths);
    }
    while i < c.methods.len()
        invariant
            i <= c.methods@.len(),
            c.self_ty.segments@.len() > 0,
            struct_name@ == struct_name_of(*c),
            spec_run(*c, c.methods@, empty_state()) == spec_run(
                *c,
                c.methods@.skip(i as int),
                GenState {
                    routes: routes_view(routes@),
                    paths: paths_view(paths@),
                    schemas: registry.names(),
                },
            ),
        decreases c.methods@.len() - i,
    {
        let m = &c.methods[i];
        let ghost st_pre = GenState {
            routes: routes_view(routes@),
            paths: paths_view(paths@),
            schemas: registry.names(),
        };
        proof {
            assert(c.methods@.skip(i as int)[0] == c.methods@[i as int]);
            assert(c.methods@.skip(i as int).drop_first() =~= c.methods@.skip(i + 1 as int));
        }
        match extract_route_attr(&m.annotations) {
            None => (),
            Some((verb, path)) => {
                let responses = match extract_utoipa_response_attrs(&m.annotations) {
                    Ok(v) => v,
                    Err(e) => {
                        proof {
                            assert(spec_step(*c, c.methods@[i as int], st_pre) == Err::<
                                GenState,
                                ErrModel,
                            >(err_model(e)));
                            assert(spec_run(*c, c.methods@.skip(i as int), st_pre) == Err::<
                                GenState,
                                ErrModel,
                            >(err_model(e)));
                        }
                        return Err(e);
                    },
                };
                // Route table entry: the method's qualified name, whether
                // or not it takes a receiver.
                let mut handler = struct_name.clone();
                handler.append("::");
                handler.append(m.name.as_str());
                let ghost routes_pre = routes@;
                routes.push(RouteTableEntry { verb, path: path.clone(), handler });
                // Documentation path entry under the stand-in identity.
                let mut identity = String::from_str("__utoipa_path_");
                identity.append(m.name.as_str());
                let doc_path = strip_leading_slash(path.as_str());
                let docs = resolve_responses(&responses);
                let ghost paths_pre = paths@;
                paths.push(PathEntry { identity, verb, path: doc_path, responses: docs });
                // Schema contributions, deduplicated across the document.
                let types = match extract_response_schema_types(&m.annotations) {
                    Ok(v) => v,
                    Err(e) => {
                        proof {
                            assert(false);
                        }
                        return Err(e);
                    },
                };
                registry.register_types(&types);
                proof {
                    let mi = c.methods@[i as int];
                    assert(routes_view(routes@) =~= st_pre.routes.push(
                        RouteEntryModel {
                            verb: verb,
                            path: path@,
                            handler: handler_of(*c, mi),
                        },
                    ));
                    assert(paths_view(paths@) =~= st_pre.paths.push(
                        PathEntryModel {
                            identity: identity_of(mi),
                            verb: verb,
                            path: doc_path_of(path@),
                            responses: resolve_list(resp_models(responses@)),
                        },
                    ));
                    assert(spec_step(*c, mi, st_pre) == Ok::<GenState, ErrModel>(
                        GenState {
                            routes: routes_view(routes@),
                            paths: paths_view(paths@),
                            schemas: registry.names(),
                        },
                    ));
                }
            },
        }
        proof {
            assert(spec_run(*c, c.methods@, empty_state()) == spec_run(
                *c,
                c.methods@.skip(i + 1 as int),
                GenState {
                    routes: routes_view(routes@),
                    paths: paths_view(paths@),
                    schemas: registry.names(),
                },
            ));
        }
        i += 1;
    }
    proof {
        assert(c.methods@.skip(c.methods@.len() as int) =~= Seq::<MethodDefinition>::empty());
    }
    let schemas: Option<Vec<String>> = if registry.schemas.len() == 0 {
        proof {
            assert(registry.names() =~= Seq::<Seq<char>>::empty());
        }
        None
    } else {
        Some(registry.schemas)
    };
    Ok(Generated { routes, doc: ApiDocument { paths, schemas } })
}

/// The route entries that a method sequence yields, in declaration order.
pub open spec fn route_entries_of(c: ControllerDefinition, ms: Seq<MethodDefinition>) -> Seq<
    RouteEntryModel,
>
    decreases ms.len(),
{
    if ms.len() == 0 {
        Seq::<RouteEntryModel>::empty()
    } else {
        let rest = route_entries_of(c, ms.drop_first());
        match spec_extract_route(ms[0].annotations@) {
            Some((verb, path)) => seq![
                RouteEntryModel { verb: verb, path: path, handler: handler_of(c, ms[0]) },
            ] + rest,
            None => rest,
        }
    }
}

/// The number of route-annotated methods in a sequence.
pub open spec fn routed_count(ms: Seq<MethodDefinition>) -> nat
    decreases ms.len(),
{
    if ms.len() == 0 {
        0nat
    } else {
        (if spec_extract_route(ms[0].annotations@) is Some {
            1nat
        } else {
            0nat
        }) + routed_count(ms.drop_first())
    }
}

/// A route entry sequence has one entry per route-annotated method.
pub proof fn lemma_route_entries_count(c: ControllerDefinition, ms: Seq<MethodDefinition>)
    ensures
        route_entries_of(c, ms).len() == routed_count(ms),
    decreases ms.len(),
{
    if ms.len() > 0 {
        lemma_route_entries_count(c, ms.drop_first());
    }
}

proof fn lemma_run_routes(c: ControllerDefinition, ms: Seq<MethodDefinition>, st: GenState)
    ensures
        match spec_run(c, ms, st) {
            Ok(st2) => st2.routes == st.routes + route_entries_of(c, ms),
            Err(_) => true,
        },
    decreases ms.len(),
{
    if ms.len() == 0 {
        assert(st.routes + route_entries_of(c, ms) =~= st.routes);
    } else {
        match spec_step(c, ms[0], st) {
            Err(_) => (),
            Ok(st2) => {
                lemma_run_routes(c, ms.drop_first(), st2);
                match spec_run(c, ms, st) {
                    Err(_) => (),
                    Ok(stf) => {
                        assert(stf.routes =~= st.routes + route_entries_of(c, ms));
                    },
                }
            },
        }
    }
}

proof fn lemma_run_counts(c: ControllerDefinition, ms: Seq<MethodDefinition>, st: GenState)
    ensures
        match spec_run(c, ms, st) {
            Ok(st2) => st2.routes.len() == st.routes.len() + routed_count(ms) && st2.paths.len()
                == st.paths.len() + routed_count(ms),
            Err(_) => true,
        },
    decreases ms.len(),
{
    if ms.len() > 0 {
        match spec_step(c, ms[0], st) {
            Err(_) => (),
            Ok(st2) => {
                lemma_run_counts(c, ms.drop_first(), st2);
            },
        }
    }
}

proof fn lemma_run_distinct(c: ControllerDefinition, ms: Seq<MethodDefinition>, st: GenState)
    requires
        distinct_names(st.schemas),
    ensures
        match spec_run(c, ms, st) {
            Ok(st2) => distinct_names(st2.schemas),
            Err(_) => true,
        },
    decreases ms.len(),
{
    if ms.len() > 0 {
        match spec_step(c, ms[0], st) {
            Err(_) => (),
            Ok(st2) => {
                if spec_extract_route(ms[0].annotations@) is Some {
                    match spec_extract_responses(ms[0].annotations@) {
                        Err(_) => (),
                        Ok(rs) => {
                            lemma_register_all_distinct(
                                st.schemas,
                                renders_of(contribs_of_resps(rs)),
                            );
                        },
                    }
                }
                lemma_run_distinct(c, ms.drop_first(), st2);
            },
        }
    }
}

/// The two artifacts are consistent: the documentation object has exactly
/// one path entry per route table entry.
pub proof fn lemma_artifacts_aligned(c: ControllerDefinition, g: GeneratedModel)
    requires
        spec_controller(c) == Ok::<GeneratedModel, ErrModel>(g),
    ensures
        g.doc.paths.len() == g.routes.len(),
{
    lemma_run_counts(c, c.methods@, empty_state());
}

/// The document's schema section never repeats a reference: a schema is
/// registered once, whatever the annotations were.
pub proof fn lemma_schemas_distinct(c: ControllerDefinition, g: GeneratedModel)
    requires
        spec_controller(c) == Ok::<GeneratedModel, ErrModel>(g),
    ensures
        match g.doc.schemas {
            Some(s) => distinct_names(s),
            None => true,
        },
{
    lemma_run_distinct(c, c.methods@, empty_state());
}

/// For every controller, the synthesized route table has exactly one entry
/// per route-annotated method, in declaration order, each carrying that
/// method's verb, path template and qualified handler name.
pub proof fn lemma_route_table_shape(c: ControllerDefinition, g: GeneratedModel)
    requires
        spec_controller(c) == Ok::<GeneratedModel, ErrModel>(g),
    ensures
        g.routes == route_entries_of(c, c.methods@),
        g.routes.len() == routed_count(c.methods@),
{
    lemma_run_routes(c, c.methods@, empty_state());
    match spec_run(c, c.methods@, empty_state()) {
        Err(_) => (),
        Ok(st) => {
            assert(st.routes =~= empty_state().routes + route_entries_of(c, c.methods@));
            assert(empty_state().routes + route_entries_of(c, c.methods@) =~= route_entries_of(
                c,
                c.methods@,
            ));
        },
    }
    lemma_route_entries_count(c, c.methods@);
}

} // verus!
