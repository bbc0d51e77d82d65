//! The response schema resolver.
//!
//! It turns a method's response annotations into ordered documentation
//! entries, and computes the schema references each annotation contributes
//! to the document's component section. Schema references are deduplicated
//! by their canonical rendered text, keeping first-occurrence order across
//! the whole document.

use vstd::prelude::*;
use vstd::string::StringExecFns;
use crate::strutil::{str_eq, strs_view};
use crate::types::{
    TypeExpr, TypeModel, args_model, type_model, render_model, render_type, clone_type,
    contrib_of, extract_types_from_generic, lemma_args_model_push, lemma_args_model_index,
};
use crate::extract::{
    Annotation, ResponseAnnotation, RespModel, resp_model, resp_models, opt_str_view,
    spec_extract_responses, extract_utoipa_response_attrs, lemma_resp_models_index,
};
use crate::error::{GenError, ErrModel, err_model};

verus! {

/// One resolved response entry of the documentation artifact.
#[derive(Debug)]
pub enum ResponseDoc {
    /// A concrete triple: status code, description, body schema reference.
    Concrete { status: u16, description: String, body: String },
    /// A composed envelope type emitted as-is; its own multi-status
    /// derivation is assumed already defined on that type.
    Envelope { reference: String },
}

/// The mathematical shape of a resolved response entry.
pub enum RespDocModel {
    Concrete { status: u16, description: Seq<char>, body: Seq<char> },
    Envelope { reference: Seq<char> },
}

/// The shape of a resolved response entry.
pub open spec fn resp_doc_model(d: ResponseDoc) -> RespDocModel {
    match d {
        ResponseDoc::Concrete { status, description, body } => RespDocModel::Concrete {
            status: status,
            description: description@,
            body: body@,
        },
        ResponseDoc::Envelope { reference } => RespDocModel::Envelope { reference: reference@ },
    }
}

impl View for ResponseDoc {
    type V = RespDocModel;

    open spec fn view(&self) -> RespDocModel {
        resp_doc_model(*self)
    }
}

/// The shapes of a sequence of resolved response entries.
pub open spec fn resp_docs_view(s: Seq<ResponseDoc>) -> Seq<RespDocModel> {
    Seq::new(s.len(), |i: int| resp_doc_model(s[i]))
}

/// Resolve one response annotation for documentation: the shorthand form
/// gets status 200 and description `Success`; the explicit form keeps its
/// given status and description or those defaults; a composed envelope is
/// emitted as-is under its rendered name.
pub open spec fn resolve_one(r: RespModel) -> RespDocModel {
    match r {
        RespModel::Simple(t) => RespDocModel::Concrete {
            status: 200,
            description: "Success"@,
            body: render_model(t),
        },
        RespModel::Explicit { status, description, body } => RespDocModel::Concrete {
            status: match status {
                Some(s) => s,
                None => 200,
            },
            description: match description {
                Some(d) => d,
                None => "Success"@,
            },
            body: render_model(body),
        },
        RespModel::Composed(t) => RespDocModel::Envelope { reference: render_model(t) },
    }
}

/// Resolve a sequence of response annotations, in order.
pub open spec fn resolve_list(rs: Seq<RespModel>) -> Seq<RespDocModel> {
    Seq::new(rs.len(), |i: int| resolve_one(rs[i]))
}

/// Resolve one response annotation into its documentation entry.
pub fn resolve_response(r: &ResponseAnnotation) -> (d: ResponseDoc)
    ensures
        resp_doc_model(d) == resolve_one(resp_model(*r)),
{
    match r {
        ResponseAnnotation::Simple(t) => ResponseDoc::Concrete {
            status: 200,
            description: String::from_str("Success"),
            body: render_type(t),
        },
        ResponseAnnotation::Explicit { status, description, body } => {
            let st: u16 = match status {
                Some(s) => *s,
                None => 200,
            };
            let desc: String = match description {
                Some(d) => d.clone(),
                None => String::from_str("Success"),
            };
            ResponseDoc::Concrete { status: st, description: desc, body: render_type(body) }
        },
        ResponseAnnotation::Composed { envelope } => ResponseDoc::Envelope {
            reference: render_type(envelope),
        },
    }
}

/// Resolve a method's response annotations, preserving their order.
pub fn resolve_responses(rs: &Vec<ResponseAnnotation>) -> (docs: Vec<ResponseDoc>)
    ensures
        resp_docs_view(docs@) == resolve_list(resp_models(rs@)),
{
    let mut docs: Vec<ResponseDoc> = Vec::new();
    let mut i: usize = 0;
    proof {
        lemma_resp_models_index(rs@);
    }
    while i < rs.len()
        invariant
            i <= rs@.len(),
            docs@.len() == i,
            resp_models(rs@).len() == rs@.len(),
            forall|k: int|
                0 <= k < rs@.len() ==> resp_models(rs@)[k] == resp_model(#[trigger] rs@[k]),
            forall|k: int|
                0 <= k < i ==> resp_doc_model(#[trigger] docs@[k]) == resolve_one(
                    resp_models(rs@)[k],
                ),
        decreases rs@.len() - i,
    {
        let d = resolve_response(&rs[i]);
        docs.push(d);
        i += 1;
    }
    proof {
        assert(resp_docs_view(docs@) =~= resolve_list(resp_models(rs@)));
    }
    docs
}

/// The schema references contributed by one response annotation: the body
/// type of a shorthand or explicit form; for a composed envelope, its
/// recursively unwrapped generic arguments, the envelope itself excluded.
pub open spec fn contribs_of_resp(r: RespModel) -> Seq<TypeModel> {
    match r {
        RespModel::Simple(t) => seq![t],
        RespModel::Explicit { status, description, body } => seq![body],
        RespModel::Composed(t) => contrib_of(t),
    }
}

/// The schema references contributed by a method's response annotations,
/// in order.
pub open spec fn contribs_of_resps(rs: Seq<RespModel>) -> Seq<TypeModel>
    decreases rs.len(),
{
    if rs.len() == 0 {
        Seq::<TypeModel>::empty()
    } else {
        contribs_of_resp(rs[0]) + contribs_of_resps(rs.drop_first())
    }
}

/// Extract the schema types contributed by a method's response
/// annotations, in order and not yet deduplicated.
pub fn extract_response_schema_types(attrs: &Vec<Annotation>) -> (r: Result<Vec<TypeExpr>, GenError>)
    ensures
        match spec_extract_responses(attrs@) {
            Ok(rs) => match r {
                Ok(v) => args_model(v@) == contribs_of_resps(rs),
                Err(_) => false,
            },
            Err(em) => match r {
                Err(e) => err_model(e) == em,
                Ok(_) => false,
            },
        },
{
    let responses = match extract_utoipa_response_attrs(attrs) {
        Ok(v) => v,
        Err(e) => {
            return Err(e);
        },
    };
    let ghost models = resp_models(responses@);
    let mut out: Vec<TypeExpr> = Vec::new();
    let mut j: usize = 0;
    proof {
        lemma_resp_models_index(responses@);
        assert(models.skip(0) =~= models);
        assert(args_model(out@) =~= Seq::<TypeModel>::empty());
        assert(args_model(out@) + contribs_of_resps(models) =~= contribs_of_resps(models));
    }
    while j < responses.len()
        invariant
            j <= responses@.len(),
            models == resp_models(responses@),
            models.len() == responses@.len(),
            forall|k: int|
                0 <= k < models.len() ==> models[k] == resp_model(#[trigger] responses@[k]),
            args_model(out@) + contribs_of_resps(models.skip(j as int)) == contribs_of_resps(
                models,
            ),
        decreases responses@.len() - j,
    {
        let ghost pre = out@;
        proof {
            assert(models.skip(j as int)[0] == models[j as int]);
            assert(models.skip(j as int).drop_first() =~= models.skip(j + 1 as int));
        }
        match &responses[j] {
            ResponseAnnotation::Simple(t) => {
                let copy = clone_type(t);
                out.push(copy);
                proof {
                    lemma_args_model_push(pre, out@.last());
                    assert(args_model(out@) =~= args_model(pre) + contribs_of_resp(
                        models[j as int],
                    ));
                }
            },
            ResponseAnnotation::Explicit { status, description, body } => {
                let copy = clone_type(body);
                out.push(copy);
                proof {
                    lemma_args_model_push(pre, out@.last());
                    assert(args_model(out@) =~= args_model(pre) + contribs_of_resp(
                        models[j as int],
                    ));
                }
            },
            ResponseAnnotation::Composed { envelope } => {
                extract_types_from_generic(envelope, &mut out);
                proof {
                    assert(args_model(out@) == args_model(pre) + contribs_of_resp(
                        models[j as int],
                    ));
                }
            },
        }
        proof {
            assert(args_model(out@) + contribs_of_resps(models.skip(j + 1 as int)) =~= args_model(
                pre,
            ) + contribs_of_resps(models.skip(j as int)));
        }
        j += 1;
    }
    proof {
        assert(models.skip(models.len() as int) =~= Seq::<RespModel>::empty());
        assert(contribs_of_resps(Seq::<RespModel>::empty()) == Seq::<TypeModel>::empty());
        assert(args_model(out@) + Seq::<TypeModel>::empty() =~= args_model(out@));
    }
    Ok(out)
}

/// Whether a name occurs in a sequence of names.
pub open spec fn contains_name(s: Seq<Seq<char>>, x: Seq<char>) -> bool {
    exists|i: int| 0 <= i < s.len() && s[i] == x
}

/// Register one name: already-registered names are kept once, new names
/// are appended.
pub open spec fn register_one(s: Seq<Seq<char>>, x: Seq<char>) -> Seq<Seq<char>> {
    if contains_name(s, x) {
        s
    } else {
        s.push(x)
    }
}

/// Register a sequence of names in order.
pub open spec fn register_all(s: Seq<Seq<char>>, xs: Seq<Seq<char>>) -> Seq<Seq<char>>
    decreases xs.len(),
{
    if xs.len() == 0 {
        s
    } else {
        register_all(register_one(s, xs[0]), xs.drop_first())
    }
}

/// The rendered texts of a sequence of type shapes.
pub open spec fn renders_of(ts: Seq<TypeModel>) -> Seq<Seq<char>> {
    Seq::new(ts.len(), |i: int| render_model(ts[i]))
}

/// No name occurs twice.
pub open spec fn distinct_names(s: Seq<Seq<char>>) -> bool {
    forall|i: int, j: int| 0 <= i < j < s.len() ==> s[i] != s[j]
}

/// Registering keeps the list free of duplicates.
pub proof fn lemma_register_one_distinct(s: Seq<Seq<char>>, x: Seq<char>)
    requires
        distinct_names(s),
    ensures
        distinct_names(register_one(s, x)),
{
    if !contains_name(s, x) {
        let r = s.push(x);
        assert forall|i: int, j: int| 0 <= i < j < r.len() implies r[i] != r[j] by {
            if j == s.len() {
                assert(!(exists|k: int| 0 <= k < s.len() && s[k] == x));
                assert(r[i] == s[i]);
            }
        }
    }
}

/// A registered name stays registered when another is added.
pub proof fn lemma_register_one_keeps(s: Seq<Seq<char>>, x: Seq<char>, y: Seq<char>)
    requires
        contains_name(s, y),
    ensures
        contains_name(register_one(s, x), y),
{
    let i = choose|i: int| 0 <= i < s.len() && s[i] == y;
    if !contains_name(s, x) {
        assert(s.push(x)[i] == y);
    }
}

/// A registered name stays registered when a whole sequence is added.
pub proof fn lemma_register_all_keeps(s: Seq<Seq<char>>, xs: Seq<Seq<char>>, y: Seq<char>)
    requires
        contains_name(s, y),
    ensures
        contains_name(register_all(s, xs), y),
    decreases xs.len(),
{
    if xs.len() > 0 {
        lemma_register_one_keeps(s, xs[0], y);
        lemma_register_all_keeps(register_one(s, xs[0]), xs.drop_first(), y);
    }
}

/// Registering a whole sequence keeps the list free of duplicates.
pub proof fn lemma_register_all_distinct(s: Seq<Seq<char>>, xs: Seq<Seq<char>>)
    requires
        distinct_names(s),
    ensures
        distinct_names(register_all(s, xs)),
    decreases xs.len(),
{
    if xs.len() > 0 {
        lemma_register_one_distinct(s, xs[0]);
        lemma_register_all_distinct(register_one(s, xs[0]), xs.drop_first());
    }
}

/// After a sequence is registered, each of its names is registered.
pub proof fn lemma_register_all_contains(s: Seq<Seq<char>>, xs: Seq<Seq<char>>)
    ensures
        forall|k: int|
            0 <= k < xs.len() ==> contains_name(register_all(s, xs), #[trigger] xs[k]),
    decreases xs.len(),
{
    if xs.len() > 0 {
        let s1 = register_one(s, xs[0]);
        if contains_name(s, xs[0]) {
            lemma_register_one_keeps(s, xs[0], xs[0]);
        } else {
            assert(s1[s.len() as int] == xs[0]);
        }
        lemma_register_all_keeps(s1, xs.drop_first(), xs[0]);
        lemma_register_all_contains(s1, xs.drop_first());
        assert forall|k: int|
            0 <= k < xs.len() implies contains_name(register_all(s, xs), #[trigger] xs[k]) by {
            if k > 0 {
                assert(xs.drop_first()[k - 1] == xs[k]);
            }
        }
    }
}

/// Registering names that are all already registered changes nothing.
pub proof fn lemma_register_contained(s: Seq<Seq<char>>, xs: Seq<Seq<char>>)
    requires
        forall|k: int| 0 <= k < xs.len() ==> contains_name(s, #[trigger] xs[k]),
    ensures
        register_all(s, xs) == s,
    decreases xs.len(),
{
    if xs.len() > 0 {
        assert(contains_name(s, xs[0]));
        assert(register_one(s, xs[0]) == s);
        assert forall|k: int|
            0 <= k < xs.drop_first().len() implies contains_name(
            s,
            #[trigger] xs.drop_first()[k],
        ) by {
            assert(xs.drop_first()[k] == xs[k + 1]);
        }
        lemma_register_contained(s, xs.drop_first());
    }
}

/// Deduplication is idempotent: registering the same contribution sequence
/// a second time leaves the schema list as it was, not doubled.
pub proof fn lemma_register_all_idempotent(s: Seq<Seq<char>>, xs: Seq<Seq<char>>)
    ensures
        register_all(register_all(s, xs), xs) == register_all(s, xs),
{
    lemma_register_all_contains(s, xs);
    lemma_register_contained(register_all(s, xs), xs);
}

/// Registering distinct names none of which is registered yet appends them
/// in order.
pub proof fn lemma_register_all_fresh(s: Seq<Seq<char>>, xs: Seq<Seq<char>>)
    requires
        distinct_names(xs),
        forall|k: int| 0 <= k < xs.len() ==> !contains_name(s, #[trigger] xs[k]),
    ensures
        register_all(s, xs) == s + xs,
    decreases xs.len(),
{
    if xs.len() == 0 {
        assert(s + xs =~= s);
    } else {
        assert(!contains_name(s, xs[0]));
        let s1 = s.push(xs[0]);
        assert(register_one(s, xs[0]) == s1);
        assert forall|k: int|
            0 <= k < xs.drop_first().len() implies !contains_name(
            s1,
            #[trigger] xs.drop_first()[k],
        ) by {
            assert(xs.drop_first()[k] == xs[k + 1]);
            assert(xs[0] != xs[k + 1]);
            if contains_name(s1, xs[k + 1]) {
                let w = choose|w: int| 0 <= w < s1.len() && s1[w] == xs[k + 1];
                if w < s.len() {
                    assert(s[w] == xs[k + 1]);
                }
            }
        }
        assert forall|i: int, j: int|
            0 <= i < j < xs.drop_first().len() implies xs.drop_first()[i]
            != xs.drop_first()[j] by {
            assert(xs.drop_first()[i] == xs[i + 1]);
            assert(xs.drop_first()[j] == xs[j + 1]);
        }
        lemma_register_all_fresh(s1, xs.drop_first());
        assert(s1 + xs.drop_first() =~= s + xs);
    }
}

/// The contributions of an envelope whose generic arguments carry no
/// generic arguments of their own are exactly those arguments, in order.
pub proof fn lemma_envelope_contribs(t: TypeModel)
    requires
        forall|i: int| 0 <= i < t.args.len() ==> #[trigger] t.args[i].args.len() == 0,
    ensures
        contrib_of(t) == t.args,
{
    lemma_leaf_contrib_list(t.args);
}

proof fn lemma_leaf_contrib_list(args: Seq<TypeModel>)
    requires
        forall|i: int| 0 <= i < args.len() ==> #[trigger] args[i].args.len() == 0,
    ensures
        crate::types::contrib_list(args) == args,
    decreases args.len(),
{
    if args.len() > 0 {
        assert(args[0].args.len() == 0);
        assert(args[0].args =~= Seq::<TypeModel>::empty());
        assert(crate::types::contrib_list(Seq::<TypeModel>::empty()) == Seq::<
            TypeModel,
        >::empty());
        assert(contrib_of(args[0]) == Seq::<TypeModel>::empty());
        assert forall|i: int|
            0 <= i < args.drop_first().len() implies #[trigger] args.drop_first()[i].args.len()
            == 0 by {
            assert(args.drop_first()[i] == args[i + 1]);
        }
        lemma_leaf_contrib_list(args.drop_first());
        assert(crate::types::contrib_list(args) =~= args);
    }
}

/// A composed envelope used as `response` contributes exactly the schema
/// set of its generic arguments, each once, in first-seen order; the
/// envelope itself is not contributed.
pub proof fn lemma_envelope_schema_set(t: TypeModel, s: Seq<Seq<char>>)
    requires
        forall|i: int| 0 <= i < t.args.len() ==> #[trigger] t.args[i].args.len() == 0,
        distinct_names(renders_of(t.args)),
        forall|k: int|
            0 <= k < t.args.len() ==> !contains_name(s, #[trigger] renders_of(t.args)[k]),
    ensures
        register_all(s, renders_of(contribs_of_resp(RespModel::Composed(t)))) == s + renders_of(
            t.args,
        ),
{
    lemma_envelope_contribs(t);
    lemma_register_all_fresh(s, renders_of(t.args));
}

/// The document-wide append-only set of schema references: canonical
/// rendered texts, each kept once, in first-occurrence order.
#[derive(Debug)]
pub struct SchemaRegistry {
    pub schemas: Vec<String>,
}

impl SchemaRegistry {
    /// The registered names, in registration order.
    pub open spec fn names(&self) -> Seq<Seq<char>> {
        strs_view(self.schemas@)
    }

    /// An empty registry.
    pub fn new() -> (r: SchemaRegistry)
        ensures
            r.names() == Seq::<Seq<char>>::empty(),
    {
        let r = SchemaRegistry { schemas: Vec::new() };
        proof {
            assert(r.names() =~= Seq::<Seq<char>>::empty());
        }
        r
    }

    /// Whether a name is already registered.
    pub fn contains(&self, name: &str) -> (r: bool)
        ensures
            r == contains_name(self.names(), name@),
    {
        let mut i: usize = 0;
        while i < self.schemas.len()
            invariant
                i <= self.schemas@.len(),
                forall|k: int| 0 <= k < i ==> #[trigger] self.schemas@[k]@ != name@,
            decreases self.schemas@.len() - i,
        {
            if str_eq(self.schemas[i].as_str(), name) {
                proof {
                    assert(self.names()[i as int] == name@);
                }
                return true;
            }
            i += 1;
        }
        false
    }

    /// Register one schema reference.
    pub fn register(&mut self, name: String)
        ensures
            final(self).names() == register_one(old(self).names(), name@),
    {
        if !self.contains(name.as_str()) {
            let ghost pre = self.schemas@;
            self.schemas.push(name);
            proof {
                assert(strs_view(self.schemas@) =~= strs_view(pre).push(self.schemas@.last()@));
            }
        }
    }

    /// Register the rendered text of each type, in order.
    pub fn register_types(&mut self, types: &Vec<TypeExpr>)
        ensures
            final(self).names() == register_all(old(self).names(), renders_of(args_model(types@))),
    {
        let ghost base = old(self).names();
        let ghost renders = renders_of(args_model(types@));
        proof {
            lemma_args_model_index(types@);
            assert(renders.skip(0) =~= renders);
        }
        let mut i: usize = 0;
        while i < types.len()
            invariant
                i <= types@.len(),
                renders == renders_of(args_model(types@)),
                renders.len() == types@.len(),
                forall|k: int|
                    0 <= k < renders.len() ==> renders[k] == render_model(
                        type_model(#[trigger] types@[k]),
                    ),
                register_all(base, renders) == register_all(
                    self.names(),
                    renders.skip(i as int),
                ),
            decreases types@.len() - i,
        {
            let rendered = render_type(&types[i]);
            proof {
                assert(renders.skip(i as int)[0] == renders[i as int]);
                assert(renders.skip(i as int).drop_first() =~= renders.skip(i + 1 as int));
            }
            self.register(rendered);
            i += 1;
        }
        proof {
            assert(renders.skip(renders.len() as int) =~= Seq::<Seq<char>>::empty());
        }
    }
}

} // verus!
