//! The attribute extractor: it reads a method's raw annotation list and
//! recognizes route annotations and response annotations.
//!
//! An annotation is recognized by the last segment of its path, so a short
//! name and a namespaced alias resolve to the same logical annotation. A
//! route annotation must carry exactly one string-literal argument; an
//! annotation with a verb-like name and any other argument shape is
//! silently skipped, not an error.

use vstd::prelude::*;
use vstd::slice::slice_subrange;
use vstd::slice::slice_index_get;
use crate::strutil::{str_eq, strs_view, lower_seq, to_lower_string};
use crate::types::{Token, TypeExpr, TypeModel, type_model};
use crate::parse::{spec_parse_type, spec_parse_type_all, parse_type, parse_type_all};
use crate::error::{GenError, ErrModel, err_model};

verus! {

/// An HTTP verb of a route annotation.
#[derive(Clone, Copy, Debug, PartialEq, Eq, Structural)]
pub enum Verb {
    Get,
    Post,
    Put,
    Delete,
    Patch,
}

/// A raw annotation attached to a method: the segments of its path, and
/// its parenthesized argument tokens, if it has any.
#[derive(Debug)]
pub struct Annotation {
    pub segments: Vec<String>,
    pub args: Option<Vec<Token>>,
}

/// The verb named by an annotation name, compared after lower-casing.
pub open spec fn verb_of_name(name: Seq<char>) -> Option<Verb> {
    let lower = lower_seq(name);
    if lower == "get"@ {
        Some(Verb::Get)
    } else if lower == "post"@ {
        Some(Verb::Post)
    } else if lower == "put"@ {
        Some(Verb::Put)
    } else if lower == "delete"@ {
        Some(Verb::Delete)
    } else if lower == "patch"@ {
        Some(Verb::Patch)
    } else {
        None
    }
}

/// The route declared by one annotation: its last path segment must name a
/// verb and its sole argument must be a string literal; any other shape
/// declares no route.
pub open spec fn route_of_annotation(a: Annotation) -> Option<(Verb, Seq<char>)> {
    if a.segments@.len() == 0 {
        None
    } else {
        match verb_of_name(a.segments@.last()@) {
            None => None,
            Some(v) => match a.args {
                None => None,
                Some(ts) => if ts@.len() == 1 && ts@[0] is StrLit {
                    Some((v, ts@[0]->StrLit_0@))
                } else {
                    None
                },
            },
        }
    }
}

/// The route declared by an annotation list: the first annotation that
/// declares a route wins; later route annotations are ignored.
pub open spec fn spec_extract_route(anns: Seq<Annotation>) -> Option<(Verb, Seq<char>)>
    decreases anns.len(),
{
    if anns.len() == 0 {
        None
    } else {
        match route_of_annotation(anns[0]) {
            Some(r) => Some(r),
            None => spec_extract_route(anns.drop_first()),
        }
    }
}

fn verb_of_ident(name: &str) -> (r: Option<Verb>)
    ensures
        r == verb_of_name(name@),
{
    let lower = to_lower_string(name);
    if str_eq(lower.as_str(), "get") {
        Some(Verb::Get)
    } else if str_eq(lower.as_str(), "post") {
        Some(Verb::Post)
    } else if str_eq(lower.as_str(), "put") {
        Some(Verb::Put)
    } else if str_eq(lower.as_str(), "delete") {
        Some(Verb::Delete)
    } else if str_eq(lower.as_str(), "patch") {
        Some(Verb::Patch)
    } else {
        None
    }
}

fn route_of_one(a: &Annotation) -> (r: Option<(Verb, String)>)
    ensures
        match r {
            Some(vp) => route_of_annotation(*a) == Some((vp.0, vp.1@)),
            None => route_of_annotation(*a) is None,
        },
{
    if a.segments.len() == 0 {
        return None;
    }
    let name = &a.segments[a.segments.len() - 1];
    proof {
        assert(strs_view(a.segments@).last() == a.segments@.last()@);
    }
    match verb_of_ident(name.as_str()) {
        None => None,
        Some(v) => {
            match &a.args {
                None => None,
                Some(ts) => {
                    if ts.len() == 1 {
                        match &ts[0] {
                            Token::StrLit(p) => Some((v, p.clone())),
                            _ => None,
                        }
                    } else {
                        None
                    }
                },
            }
        },
    }
}

/// Extract the route declared by a method's annotation list, if any: the
/// verb and the path template of the first route annotation. A verb-named
/// annotation whose argument is not a single string literal is skipped.
pub fn extract_route_attr(attrs: &Vec<Annotation>) -> (r: Option<(Verb, String)>)
    ensures
        match r {
            Some(vp) => spec_extract_route(attrs@) == Some((vp.0, vp.1@)),
            None => spec_extract_route(attrs@) is None,
        },
{
    let mut i: usize = 0;
    proof {
        assert(attrs@.skip(0) =~= attrs@);
    }
    while i < attrs.len()
        invariant
            i <= attrs@.len(),
            spec_extract_route(attrs@) == spec_extract_route(attrs@.skip(i as int)),
        decreases attrs@.len() - i,
    {
        let r = route_of_one(&attrs[i]);
        proof {
            assert(attrs@.skip(i as int)[0] == attrs@[i as int]);
            assert(attrs@.skip(i as int).drop_first() =~= attrs@.skip(i + 1 as int));
        }
        if r.is_some() {
            return r;
        }
        i += 1;
    }
    proof {
        assert(attrs@.skip(attrs@.len() as int) =~= Seq::<Annotation>::empty());
    }
    None
}

/// The first route annotation in declaration order is honored: when every
/// annotation before position `i` declares no route and the one at `i`
/// does, the extracted route is that one — whatever route annotations
/// follow, they are ignored and raise no error.
pub proof fn lemma_first_route_wins(anns: Seq<Annotation>, i: int)
    requires
        0 <= i < anns.len(),
        forall|k: int| 0 <= k < i ==> route_of_annotation(#[trigger] anns[k]) is None,
        route_of_annotation(anns[i]) is Some,
    ensures
        spec_extract_route(anns) == route_of_annotation(anns[i]),
    decreases i,
{
    if i == 0 {
    } else {
        assert(route_of_annotation(anns[0]) is None);
        assert forall|k: int|
            0 <= k < i - 1 implies route_of_annotation(#[trigger] anns.drop_first()[k]) is None by {
            assert(anns.drop_first()[k] == anns[k + 1]);
        }
        assert(anns.drop_first()[i - 1] == anns[i]);
        lemma_first_route_wins(anns.drop_first(), i - 1);
    }
}

/// Parsed key/value arguments of an explicit-form response annotation.
#[derive(Debug)]
pub struct UtoipaResponseArgs {
    pub status: Option<u16>,
    pub body: Option<TypeExpr>,
    pub response: Option<TypeExpr>,
    pub description: Option<String>,
}

/// The mathematical shape of parsed key/value arguments.
pub struct ArgsModel {
    pub status: Option<u16>,
    pub body: Option<TypeModel>,
    pub response: Option<TypeModel>,
    pub description: Option<Seq<char>>,
}

/// The shape of an optional type expression.
pub open spec fn opt_type_model(o: Option<TypeExpr>) -> Option<TypeModel> {
    match o {
        Some(t) => Some(type_model(t)),
        None => None,
    }
}

/// The character sequence of an optional string.
pub open spec fn opt_str_view(o: Option<String>) -> Option<Seq<char>> {
    match o {
        Some(s) => Some(s@),
        None => None,
    }
}

/// The shape of parsed key/value arguments.
pub open spec fn args_model_of(a: UtoipaResponseArgs) -> ArgsModel {
    ArgsModel {
        status: a.status,
        body: opt_type_model(a.body),
        response: opt_type_model(a.response),
        description: opt_str_view(a.description),
    }
}

/// Key/value arguments before any pair has been read.
pub open spec fn empty_args() -> ArgsModel {
    ArgsModel { status: None, body: None, response: None, description: None }
}

/// A failure of the key/value grammar alone.
pub enum KvErr {
    /// A key outside the recognized four.
    Unknown(Seq<char>),
    /// The tokens do not follow the `key = value` comma-separated shape.
    Malformed,
}

/// Parse a comma-separated `key = value` list, one pair per step. A later
/// pair overwrites an earlier value of the same key.
pub open spec fn spec_parse_kv(ts: Seq<Token>, acc: ArgsModel) -> Result<ArgsModel, KvErr>
    decreases ts.len(),
{
    if ts.len() == 0 {
        Ok(acc)
    } else if !(ts[0] is Ident) {
        Err(KvErr::Malformed)
    } else {
        let key = ts[0]->Ident_0@;
        if key == "status"@ {
            if ts.len() >= 3 && ts[1] is Eq && ts[2] is IntLit {
                spec_parse_kv_sep(
                    ts.skip(3),
                    ArgsModel {
                        status: Some(ts[2]->IntLit_0),
                        body: acc.body,
                        response: acc.response,
                        description: acc.description,
                    },
                )
            } else {
                Err(KvErr::Malformed)
            }
        } else if key == "description"@ {
            if ts.len() >= 3 && ts[1] is Eq && ts[2] is StrLit {
                spec_parse_kv_sep(
                    ts.skip(3),
                    ArgsModel {
                        status: acc.status,
                        body: acc.body,
                        response: acc.response,
                        description: Some(ts[2]->StrLit_0@),
                    },
                )
            } else {
                Err(KvErr::Malformed)
            }
        } else if key == "body"@ {
            if ts.len() >= 2 && ts[1] is Eq {
                match spec_parse_type(ts.skip(2)) {
                    None => Err(KvErr::Malformed),
                    Some((t, n)) => {
                        let rest = if n + 2 <= ts.len() {
                            ts.skip((n + 2) as int)
                        } else {
                            Seq::<Token>::empty()
                        };
                        spec_parse_kv_sep(
                            rest,
                            ArgsModel {
                                status: acc.status,
                                body: Some(t),
                                response: acc.response,
                                description: acc.description,
                            },
                        )
                    },
                }
            } else {
                Err(KvErr::Malformed)
            }
        } else if key == "response"@ {
            if ts.len() >= 2 && ts[1] is Eq {
                match spec_parse_type(ts.skip(2)) {
                    None => Err(KvErr::Malformed),
                    Some((t, n)) => {
                        let rest = if n + 2 <= ts.len() {
                            ts.skip((n + 2) as int)
                        } else {
                            Seq::<Token>::empty()
                        };
                        spec_parse_kv_sep(
                            rest,
                            ArgsModel {
                                status: acc.status,
                                body: acc.body,
                                response: Some(t),
                                description: acc.description,
                            },
                        )
                    },
                }
            } else {
                Err(KvErr::Malformed)
            }
        } else {
            Err(KvErr::Unknown(key))
        }
    }
}

/// After a pair: either the list ends, or a comma separates the next pair.
pub open spec fn spec_parse_kv_sep(ts: Seq<Token>, acc: ArgsModel) -> Result<ArgsModel, KvErr>
    decreases ts.len(),
{
    if ts.len() == 0 {
        Ok(acc)
    } else if ts[0] is Comma {
        spec_parse_kv(ts.skip(1), acc)
    } else {
        Err(KvErr::Malformed)
    }
}

/// Parse a whole key/value argument list and validate it: an unrecognized
/// key names itself in the error, a malformed list is an attribute parse
/// error, and carrying both `body` and `response` is a conflict.
pub open spec fn spec_parse_response_args(ts: Seq<Token>) -> Result<ArgsModel, ErrModel> {
    match spec_parse_kv(ts, empty_args()) {
        Err(KvErr::Unknown(k)) => Err(ErrModel::UnknownArgumentError(k)),
        Err(KvErr::Malformed) => Err(ErrModel::AttributeParseError),
        Ok(a) => if a.body is Some && a.response is Some {
            Err(ErrModel::ConflictingAnnotationError)
        } else {
            Ok(a)
        },
    }
}

impl UtoipaResponseArgs {
    /// Parse the argument tokens of an explicit-form response annotation as
    /// comma-separated `key = value` pairs over the keys `status`, `body`,
    /// `response` and `description`; both `body` and `response` in one list
    /// is a conflict.
    #[verifier::rlimit(60)]
    pub fn parse(tokens: &Vec<Token>) -> (r: Result<UtoipaResponseArgs, GenError>)
        ensures
            match r {
                Ok(a) => spec_parse_response_args(tokens@) == Ok::<ArgsModel, ErrModel>(
                    args_model_of(a),
                ),
                Err(e) => spec_parse_response_args(tokens@) == Err::<ArgsModel, ErrModel>(
                    err_model(e),
                ),
            },
    {
        let ts = tokens.as_slice();
        let len = ts.len();
        let mut status: Option<u16> = None;
        let mut body: Option<TypeExpr> = None;
        let mut response: Option<TypeExpr> = None;
        let mut description: Option<String> = None;
        let mut pos: usize = 0;
        proof {
            assert(tokens@.skip(0) =~= tokens@);
        }
        while pos < len
            invariant
                ts@ == tokens@,
                len == tokens@.len(),
                pos <= len,
                spec_parse_kv(tokens@, empty_args()) == spec_parse_kv(
                    tokens@.skip(pos as int),
                    ArgsModel {
                        status: status,
                        body: opt_type_model(body),
                        response: opt_type_model(response),
                        description: opt_str_view(description),
                    },
                ),
            decreases len - pos,
        {
            let ghost suffix = tokens@.skip(pos as int);
            let key = match slice_index_get(ts, pos) {
                Token::Ident(k) => k,
                _ => {
                    return Err(GenError::AttributeParseError);
                },
            };
            if str_eq(key.as_str(), "status") {
                if len - pos > 2 {
                    let eq_ok = matches!(slice_index_get(ts, pos + 1), Token::Eq);
                    if !eq_ok {
                        return Err(GenError::AttributeParseError);
                    }
                    if let Token::IntLit(n) = slice_index_get(ts, pos + 2) {
                        status = Some(*n);
                        pos = pos + 3;
                        proof {
                            assert(suffix.skip(3) =~= tokens@.skip(pos as int));
                        }
                    } else {
                        return Err(GenError::AttributeParseError);
                    }
                } else {
                    return Err(GenError::AttributeParseError);
                }
            } else if str_eq(key.as_str(), "description") {
                if len - pos > 2 {
                    let eq_ok = matches!(slice_index_get(ts, pos + 1), Token::Eq);
                    if !eq_ok {
                        return Err(GenError::AttributeParseError);
                    }
                    if let Token::StrLit(d) = slice_index_get(ts, pos + 2) {
                        description = Some(d.clone());
                        pos = pos + 3;
                        proof {
                            assert(suffix.skip(3) =~= tokens@.skip(pos as int));
                        }
                    } else {
                        return Err(GenError::AttributeParseError);
                    }
                } else {
                    return Err(GenError::AttributeParseError);
                }
            } else if str_eq(key.as_str(), "body") || str_eq(key.as_str(), "response") {
                let is_body = str_eq(key.as_str(), "body");
                if len - pos > 1 {
                    let eq_ok = matches!(slice_index_get(ts, pos + 1), Token::Eq);
                    if !eq_ok {
                        return Err(GenError::AttributeParseError);
                    }
                    let rest = slice_subrange(ts, pos + 2, len);
                    proof {
                        assert(rest@ =~= suffix.skip(2));
                        assert(suffix.skip(2) =~= tokens@.skip(pos + 2 as int));
                    }
                    match parse_type(rest) {
                        None => {
                            return Err(GenError::AttributeParseError);
                        },
                        Some((t, n)) => {
                            if is_body {
                                body = Some(t);
                            } else {
                                response = Some(t);
                            }
                            pos = pos + 2 + n;
                            proof {
                                assert(suffix.skip(2).skip(n as int) =~= tokens@.skip(pos as int));
                                assert(suffix.skip((n + 2) as int) =~= suffix.skip(2).skip(
                                    n as int,
                                ));
                            }
                        },
                    }
                } else {
                    return Err(GenError::AttributeParseError);
                }
            } else {
                return Err(GenError::UnknownArgumentError(key.clone()));
            }
            // A pair was read; the list must end here or continue after a
            // comma.
            if pos < len {
                let comma_ok = matches!(slice_index_get(ts, pos), Token::Comma);
                if !comma_ok {
                    return Err(GenError::AttributeParseError);
                }
                pos = pos + 1;
                proof {
                    assert(tokens@.skip(pos - 1 as int).skip(1) =~= tokens@.skip(pos as int));
                }
            }
        }
        proof {
            assert(tokens@.skip(len as int) =~= Seq::<Token>::empty());
        }
        if body.is_some() && response.is_some() {
            return Err(GenError::ConflictingAnnotationError);
        }
        Ok(UtoipaResponseArgs { status, body, response, description })
    }
}

/// One response annotation in its typed intermediate form.
#[derive(Debug)]
pub enum ResponseAnnotation {
    /// The shorthand bare-type form: implicit status 200, description
    /// `Success`.
    Simple(TypeExpr),
    /// The explicit key/value form with a `body`; `status` and
    /// `description` keep their defaults when absent.
    Explicit { status: Option<u16>, description: Option<String>, body: TypeExpr },
    /// The `response` form: an already-composed envelope type, emitted
    /// as-is for documentation.
    Composed { envelope: TypeExpr },
}

/// The mathematical shape of a response annotation.
pub enum RespModel {
    Simple(TypeModel),
    Explicit { status: Option<u16>, description: Option<Seq<char>>, body: TypeModel },
    Composed(TypeModel),
}

/// The shape of a response annotation.
pub open spec fn resp_model(r: ResponseAnnotation) -> RespModel {
    match r {
        ResponseAnnotation::Simple(t) => RespModel::Simple(type_model(t)),
        ResponseAnnotation::Explicit { status, description, body } => RespModel::Explicit {
            status: status,
            description: opt_str_view(description),
            body: type_model(body),
        },
        ResponseAnnotation::Composed { envelope } => RespModel::Composed(type_model(envelope)),
    }
}

impl View for ResponseAnnotation {
    type V = RespModel;

    open spec fn view(&self) -> RespModel {
        resp_model(*self)
    }
}

/// The shapes of a sequence of response annotations.
pub open spec fn resp_models(rs: Seq<ResponseAnnotation>) -> Seq<RespModel>
    decreases rs,
{
    if rs.len() == 0 {
        Seq::<RespModel>::empty()
    } else {
        seq![resp_model(rs[0])] + resp_models(rs.drop_first())
    }
}

/// The shape sequence of one more response annotation.
pub proof fn lemma_resp_models_push(rs: Seq<ResponseAnnotation>, x: ResponseAnnotation)
    ensures
        resp_models(rs.push(x)) == resp_models(rs).push(resp_model(x)),
    decreases rs.len(),
{
    if rs.len() == 0 {
        assert(rs.push(x).drop_first() =~= Seq::<ResponseAnnotation>::empty());
        assert(resp_models(Seq::<ResponseAnnotation>::empty()) == Seq::<RespModel>::empty());
        assert(resp_models(rs.push(x)) =~= resp_models(rs).push(resp_model(x)));
    } else {
        lemma_resp_models_push(rs.drop_first(), x);
        assert(rs.push(x).drop_first() =~= rs.drop_first().push(x));
        assert(rs.push(x)[0] == rs[0]);
        assert(resp_models(rs.push(x)) =~= resp_models(rs).push(resp_model(x)));
    }
}

/// The shape sequence has one shape per annotation, in order.
pub proof fn lemma_resp_models_index(rs: Seq<ResponseAnnotation>)
    ensures
        resp_models(rs).len() == rs.len(),
        forall|i: int| 0 <= i < rs.len() ==> resp_models(rs)[i] == resp_model(#[trigger] rs[i]),
    decreases rs.len(),
{
    if rs.len() > 0 {
        lemma_resp_models_index(rs.drop_first());
        assert forall|i: int| 0 <= i < rs.len() implies resp_models(rs)[i] == resp_model(
            #[trigger] rs[i],
        ) by {
            if i > 0 {
                assert(rs.drop_first()[i - 1] == rs[i]);
                assert(resp_models(rs.drop_first())[i - 1] == resp_model(rs.drop_first()[i - 1]));
            }
        }
    }
}

/// Classify one response annotation's argument tokens: a whole bare type
/// is the shorthand form; otherwise the tokens must be a key/value list,
/// whose `response` takes precedence over `body`; a list carrying neither
/// contributes no response.
pub open spec fn spec_classify_response(ts: Seq<Token>) -> Result<Option<RespModel>, ErrModel> {
    match spec_parse_type_all(ts) {
        Some(t) => Ok(Some(RespModel::Simple(t))),
        None => match spec_parse_response_args(ts) {
            Err(e) => Err(e),
            Ok(a) => match a.response {
                Some(t) => Ok(Some(RespModel::Composed(t))),
                None => match a.body {
                    Some(b) => Ok(
                        Some(
                            RespModel::Explicit {
                                status: a.status,
                                description: a.description,
                                body: b,
                            },
                        ),
                    ),
                    None => Ok(None),
                },
            },
        },
    }
}

/// Classify one response annotation's argument tokens into its typed
/// intermediate form, or nothing when the tokens carry no response.
pub fn classify_response(tokens: &Vec<Token>) -> (r: Result<Option<ResponseAnnotation>, GenError>)
    ensures
        match r {
            Ok(Some(a)) => spec_classify_response(tokens@) == Ok::<Option<RespModel>, ErrModel>(
                Some(resp_model(a)),
            ),
            Ok(None) => spec_classify_response(tokens@) == Ok::<Option<RespModel>, ErrModel>(None),
            Err(e) => spec_classify_response(tokens@) == Err::<Option<RespModel>, ErrModel>(
                err_model(e),
            ),
        },
{
    if let Some(t) = parse_type_all(tokens) {
        return Ok(Some(ResponseAnnotation::Simple(t)));
    }
    match UtoipaResponseArgs::parse(tokens) {
        Err(e) => Err(e),
        Ok(a) => {
            if let Some(t) = a.response {
                Ok(Some(ResponseAnnotation::Composed { envelope: t }))
            } else if let Some(b) = a.body {
                Ok(
                    Some(
                        ResponseAnnotation::Explicit {
                            status: a.status,
                            description: a.description,
                            body: b,
                        },
                    ),
                )
            } else {
                Ok(None)
            }
        },
    }
}

/// Whether an annotation is a response annotation: its last path segment is
/// `utoipa_response`, under a short name or a namespaced alias.
pub open spec fn is_response_annotation(a: Annotation) -> bool {
    a.segments@.len() > 0 && a.segments@.last()@ == "utoipa_response"@
}

/// The response annotations declared by an annotation list, in source
/// order. A response annotation without parenthesized arguments, or whose
/// key/value list carries neither `body` nor `response`, contributes
/// nothing; an invalid one aborts the extraction.
pub open spec fn spec_extract_responses(anns: Seq<Annotation>) -> Result<Seq<RespModel>, ErrModel>
    decreases anns.len(),
{
    if anns.len() == 0 {
        Ok(Seq::<RespModel>::empty())
    } else {
        let rest_anns = anns.drop_first();
        if is_response_annotation(anns[0]) && anns[0].args is Some {
            match spec_classify_response(anns[0].args->0@) {
                Err(e) => Err(e),
                Ok(None) => spec_extract_responses(rest_anns),
                Ok(Some(r)) => match spec_extract_responses(rest_anns) {
                    Err(e) => Err(e),
                    Ok(rest) => Ok(seq![r] + rest),
                },
            }
        } else {
            spec_extract_responses(rest_anns)
        }
    }
}

/// Using `body` and `response` in two separate annotations on the same
/// method is legal, and both are recorded independently, in order — only
/// both keys inside one annotation conflict.
pub proof fn lemma_separate_annotations_both_recorded(
    a1: Annotation,
    a2: Annotation,
    r1: RespModel,
    r2: RespModel,
)
    requires
        is_response_annotation(a1),
        a1.args is Some,
        spec_classify_response(a1.args->0@) == Ok::<Option<RespModel>, ErrModel>(Some(r1)),
        is_response_annotation(a2),
        a2.args is Some,
        spec_classify_response(a2.args->0@) == Ok::<Option<RespModel>, ErrModel>(Some(r2)),
    ensures
        spec_extract_responses(seq![a1, a2]) == Ok::<Seq<RespModel>, ErrModel>(seq![r1, r2]),
{
    let anns = seq![a1, a2];
    assert(anns.drop_first() =~= seq![a2]);
    assert(seq![a2].drop_first() =~= Seq::<Annotation>::empty());
    assert(spec_extract_responses(Seq::<Annotation>::empty()) == Ok::<Seq<RespModel>, ErrModel>(
        Seq::<RespModel>::empty(),
    ));
    assert(seq![r2] + Seq::<RespModel>::empty() =~= seq![r2]);
    assert(spec_extract_responses(seq![a2]) == Ok::<Seq<RespModel>, ErrModel>(seq![r2]));
    assert(seq![r1] + seq![r2] =~= seq![r1, r2]);
}

/// Extract all response annotations of a method, preserving source order.
pub fn extract_utoipa_response_attrs(attrs: &Vec<Annotation>) -> (r: Result<
    Vec<ResponseAnnotation>,
    GenError,
>)
    ensures
        match r {
            Ok(v) => spec_extract_responses(attrs@) == Ok::<Seq<RespModel>, ErrModel>(
                resp_models(v@),
            ),
            Err(e) => spec_extract_responses(attrs@) == Err::<Seq<RespModel>, ErrModel>(
                err_model(e),
            ),
        },
{
    let mut out: Vec<ResponseAnnotation> = Vec::new();
    let mut i: usize = 0;
    proof {
        assert(attrs@.skip(0) =~= attrs@);
        assert(resp_models(out@) =~= Seq::<RespModel>::empty());
    }
    while i < attrs.len()
        invariant
            i <= attrs@.len(),
            spec_extract_responses(attrs@) == (match spec_extract_responses(
                attrs@.skip(i as int),
            ) {
                Ok(rest) => Ok::<Seq<RespModel>, ErrModel>(resp_models(out@) + rest),
                Err(e) => Err::<Seq<RespModel>, ErrModel>(e),
            }),
        decreases attrs@.len() - i,
    {
        let a = &attrs[i];
        proof {
            assert(attrs@.skip(i as int)[0] == attrs@[i as int]);
            assert(attrs@.skip(i as int).drop_first() =~= attrs@.skip(i + 1 as int));
        }
        let mut is_resp = false;
        if a.segments.len() > 0 {
            let name = &a.segments[a.segments.len() - 1];
            is_resp = str_eq(name.as_str(), "utoipa_response");
            proof {
                assert(a.segments@.last()@ == name@);
            }
        }
        if is_resp {
            match &a.args {
                Some(ts) => {
                    match classify_response(ts) {
                        Err(e) => {
                            return Err(e);
                        },
                        Ok(None) => (),
                        Ok(Some(resp)) => {
                            let ghost pre = out@;
                            let ghost rm = resp_model(resp);
                            out.push(resp);
                            proof {
                                lemma_resp_models_push(pre, out@.last());
                                assert forall|rest: Seq<RespModel>|
                                    resp_models(pre) + (seq![rm] + rest) =~= resp_models(out@)
                                        + rest by {
                                    assert(resp_models(out@) =~= resp_models(pre) + seq![rm]);
                                }
                            }
                        },
                    }
                },
                None => (),
            }
        }
        i += 1;
    }
    proof {
        assert(attrs@.skip(attrs@.len() as int) =~= Seq::<Annotation>::empty());
        assert(spec_extract_responses(Seq::<Annotation>::empty()) == Ok::<
            Seq<RespModel>,
            ErrModel,
        >(Seq::<RespModel>::empty()));
        assert(resp_models(out@) + Seq::<RespModel>::empty() =~= resp_models(out@));
    }
    Ok(out)
}

} // verus!
