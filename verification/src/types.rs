//! Tokens and type expressions of the restricted annotation grammar.
//!
//! An annotation's argument list is a sequence of tokens. A type expression
//! is a path of identifier segments optionally applied to comma-separated
//! generic arguments (`core::Envelope<A, B>`). Its canonical rendered text
//! is the identity under which a schema reference is deduplicated.

use vstd::prelude::*;
use vstd::string::StringExecFns;
use crate::strutil::strs_view;

verus! {

/// One token of the restricted annotation grammar.
#[derive(Debug)]
pub enum Token {
    /// An identifier.
    Ident(String),
    /// A string literal, with its value.
    StrLit(String),
    /// An unsigned integer literal small enough for an HTTP status code.
    IntLit(u16),
    /// `=`
    Eq,
    /// `,`
    Comma,
    /// `<`
    Lt,
    /// `>`
    Gt,
    /// `::`
    PathSep,
}

/// A type expression: a non-empty path of identifier segments, optionally
/// applied to generic arguments.
#[derive(Debug)]
pub struct TypeExpr {
    pub segments: Vec<String>,
    pub args: Vec<TypeExpr>,
}

/// The mathematical shape of a type expression.
#[verifier::ext_equal]
pub struct TypeModel {
    pub segments: Seq<Seq<char>>,
    pub args: Seq<TypeModel>,
}

/// The shapes of a sequence of type expressions.
pub open spec fn args_model(args: Seq<TypeExpr>) -> Seq<TypeModel>
    decreases args,
{
    if args.len() == 0 {
        Seq::<TypeModel>::empty()
    } else {
        seq![type_model(args[0])] + args_model(args.drop_first())
    }
}

/// The shape of a type expression.
pub open spec fn type_model(t: TypeExpr) -> TypeModel
    decreases t,
{
    TypeModel { segments: strs_view(t.segments@), args: args_model(t.args@) }
}

impl View for TypeExpr {
    type V = TypeModel;

    open spec fn view(&self) -> TypeModel {
        type_model(*self)
    }
}

/// The shape sequence of one more type expression.
pub proof fn lemma_args_model_push(a: Seq<TypeExpr>, x: TypeExpr)
    ensures
        args_model(a.push(x)) == args_model(a).push(type_model(x)),
    decreases a.len(),
{
    if a.len() == 0 {
        assert(a.push(x).drop_first() =~= Seq::<TypeExpr>::empty());
        assert(args_model(Seq::<TypeExpr>::empty()) == Seq::<TypeModel>::empty());
        assert(args_model(a.push(x)) =~= args_model(a).push(type_model(x)));
    } else {
        lemma_args_model_push(a.drop_first(), x);
        assert(a.push(x).drop_first() =~= a.drop_first().push(x));
        assert(a.push(x)[0] == a[0]);
        assert(args_model(a.push(x)) =~= args_model(a).push(type_model(x)));
    }
}

/// Shape sequences distribute over concatenation.
pub proof fn lemma_args_model_concat(a: Seq<TypeExpr>, b: Seq<TypeExpr>)
    ensures
        args_model(a + b) == args_model(a) + args_model(b),
    decreases a.len(),
{
    if a.len() == 0 {
        assert(a + b =~= b);
        assert(args_model(a) + args_model(b) =~= args_model(b));
    } else {
        lemma_args_model_concat(a.drop_first(), b);
        assert((a + b).drop_first() =~= a.drop_first() + b);
        assert((a + b)[0] == a[0]);
        assert(args_model(a + b) =~= args_model(a) + args_model(b));
    }
}

/// The shape sequence has one shape per expression, in order.
pub proof fn lemma_args_model_index(a: Seq<TypeExpr>)
    ensures
        args_model(a).len() == a.len(),
        forall|i: int| 0 <= i < a.len() ==> args_model(a)[i] == type_model(#[trigger] a[i]),
    decreases a.len(),
{
    if a.len() > 0 {
        lemma_args_model_index(a.drop_first());
        assert forall|i: int| 0 <= i < a.len() implies args_model(a)[i] == type_model(
            #[trigger] a[i],
        ) by {
            if i > 0 {
                assert(a.drop_first()[i - 1] == a[i]);
                assert(args_model(a.drop_first())[i - 1] == type_model(a.drop_first()[i - 1]));
            }
        }
    }
}

/// The segments still to be joined, each preceded by `::` except a leading
/// first one.
pub open spec fn join_rest(segs: Seq<Seq<char>>, first: bool) -> Seq<char>
    decreases segs,
{
    if segs.len() == 0 {
        Seq::<char>::empty()
    } else if first {
        segs[0] + join_rest(segs.drop_first(), false)
    } else {
        "::"@ + segs[0] + join_rest(segs.drop_first(), false)
    }
}

/// The generic arguments still to be rendered, each preceded by `, ` except
/// a leading first one.
pub open spec fn render_args_rest(args: Seq<TypeModel>, first: bool) -> Seq<char>
    decreases args, 1int,
{
    if args.len() == 0 {
        Seq::<char>::empty()
    } else if first {
        render_model(args[0]) + render_args_rest(args.drop_first(), false)
    } else {
        ", "@ + render_model(args[0]) + render_args_rest(args.drop_first(), false)
    }
}

/// The canonical rendered text of a type shape: segments joined by `::`,
/// then `<`, the rendered arguments joined by `, `, and `>` when there are
/// generic arguments.
pub open spec fn render_model(t: TypeModel) -> Seq<char>
    decreases t, 0int,
{
    join_rest(t.segments, true) + if t.args.len() == 0 {
        Seq::<char>::empty()
    } else {
        seq!['<'] + render_args_rest(t.args, true) + seq!['>']
    }
}

/// The canonical rendered text of a type expression.
pub open spec fn render_of(t: TypeExpr) -> Seq<char> {
    render_model(type_model(t))
}

/// Render a type expression to its canonical text.
pub fn render_type(t: &TypeExpr) -> (r: String)
    ensures
        r@ == render_of(*t),
    decreases *t,
{
    let mut out = String::new();
    let ghost segs = strs_view(t.segments@);
    proof {
        assert(Seq::<char>::empty() + join_rest(segs, true) =~= join_rest(segs, true));
        assert(segs.skip(0) =~= segs);
    }
    let mut i: usize = 0;
    while i < t.segments.len()
        invariant
            i <= t.segments@.len(),
            segs == strs_view(t.segments@),
            join_rest(segs, true) == out@ + join_rest(segs.skip(i as int), i == 0),
        decreases t.segments@.len() - i,
    {
        let ghost pre = out@;
        if i > 0 {
            out.append("::");
        }
        out.append(t.segments[i].as_str());
        proof {
            assert(segs.skip(i as int).drop_first() =~= segs.skip(i + 1 as int));
            assert(segs.skip(i as int)[0] == t.segments@[i as int]@);
            if i == 0 {
                assert(out@ =~= pre + segs[0]);
                assert(pre + join_rest(segs.skip(0), true) =~= out@ + join_rest(
                    segs.skip(1),
                    false,
                ));
            } else {
                assert(out@ =~= pre + ("::"@ + segs[i as int]));
                assert(pre + join_rest(segs.skip(i as int), false) =~= out@ + join_rest(
                    segs.skip(i + 1 as int),
                    false,
                ));
            }
        }
        i += 1;
    }
    proof {
        assert(segs.skip(segs.len() as int) =~= Seq::<Seq<char>>::empty());
        assert(out@ + join_rest(segs.skip(segs.len() as int), segs.len() == 0) =~= out@);
    }
    if t.args.len() == 0 {
        proof {
            assert(render_model(type_model(*t)) =~= out@);
        }
        return out;
    }
    let ghost amodels = args_model(t.args@);
    proof {
        lemma_args_model_index(t.args@);
    }
    out.push('<');
    let ghost head = out@;
    proof {
        assert(out@ =~= join_rest(segs, true) + seq!['<']);
        assert(amodels.skip(0) =~= amodels);
        assert(head + render_args_rest(amodels, true) =~= out@ + render_args_rest(
            amodels.skip(0),
            true,
        ));
    }
    let mut j: usize = 0;
    while j < t.args.len()
        invariant
            j <= t.args@.len(),
            amodels == args_model(t.args@),
            amodels.len() == t.args@.len(),
            head == join_rest(segs, true) + seq!['<'],
            head + render_args_rest(amodels, true) == out@ + render_args_rest(
                amodels.skip(j as int),
                j == 0,
            ),
            forall|k: int|
                0 <= k < amodels.len() ==> amodels[k] == type_model(#[trigger] t.args@[k]),
        decreases t.args@.len() - j,
    {
        let ghost pre = out@;
        if j > 0 {
            out.append(", ");
        }
        let rendered = render_type(&t.args[j]);
        out.append(rendered.as_str());
        proof {
            assert(amodels.skip(j as int).drop_first() =~= amodels.skip(j + 1 as int));
            assert(amodels.skip(j as int)[0] == amodels[j as int]);
            if j == 0 {
                assert(out@ =~= pre + render_model(amodels[0]));
                assert(pre + render_args_rest(amodels.skip(0), true) =~= out@ + render_args_rest(
                    amodels.skip(1),
                    false,
                ));
            } else {
                assert(out@ =~= pre + (", "@ + render_model(amodels[j as int])));
                assert(pre + render_args_rest(amodels.skip(j as int), false) =~= out@
                    + render_args_rest(amodels.skip(j + 1 as int), false));
            }
        }
        j += 1;
    }
    out.push('>');
    proof {
        assert(amodels.skip(amodels.len() as int) =~= Seq::<TypeModel>::empty());
        assert(render_model(type_model(*t)) =~= out@);
    }
    out
}

/// The schema contributions of a composed type: for each generic argument
/// in order, first the contributions of the argument's own arguments, then
/// the argument itself. The outer type contributes nothing of its own.
pub open spec fn contrib_of(t: TypeModel) -> Seq<TypeModel>
    decreases t, 0int,
{
    contrib_list(t.args)
}

/// The contributions of a list of generic arguments, in order.
pub open spec fn contrib_list(args: Seq<TypeModel>) -> Seq<TypeModel>
    decreases args, 1int,
{
    if args.len() == 0 {
        Seq::<TypeModel>::empty()
    } else {
        contrib_of(args[0]) + seq![args[0]] + contrib_list(args.drop_first())
    }
}

/// Append to `schema_types` the schema contributions of `ty`'s generic
/// arguments: for each argument, recursively its own contributions, then
/// the argument itself; `ty` itself is not appended.
pub fn extract_types_from_generic(ty: &TypeExpr, schema_types: &mut Vec<TypeExpr>)
    ensures
        args_model(final(schema_types)@) == args_model(old(schema_types)@) + contrib_of(
            type_model(*ty),
        ),
    decreases *ty,
{
    let ghost base = old(schema_types)@;
    let ghost amodels = args_model(ty.args@);
    proof {
        lemma_args_model_index(ty.args@);
        assert(amodels.skip(0) =~= amodels);
        assert(args_model(base) + contrib_list(amodels.skip(0)) =~= args_model(base)
            + contrib_list(amodels));
    }
    let mut j: usize = 0;
    while j < ty.args.len()
        invariant
            j <= ty.args@.len(),
            amodels == args_model(ty.args@),
            amodels.len() == ty.args@.len(),
            forall|k: int| 0 <= k < amodels.len() ==> amodels[k] == type_model(#[trigger] ty.args@[k]),
            args_model(schema_types@) + contrib_list(amodels.skip(j as int)) == args_model(base)
                + contrib_list(amodels),
        decreases ty.args@.len() - j,
    {
        let ghost pre = schema_types@;
        extract_types_from_generic(&ty.args[j], schema_types);
        let ghost mid = schema_types@;
        let copy = clone_type(&ty.args[j]);
        schema_types.push(copy);
        proof {
            lemma_args_model_push(mid, copy);
            assert(amodels.skip(j as int).drop_first() =~= amodels.skip(j + 1 as int));
            assert(amodels.skip(j as int)[0] == amodels[j as int]);
            assert(args_model(schema_types@) =~= (args_model(pre) + contrib_of(amodels[j as int]))
                + seq![amodels[j as int]]);
            assert(contrib_list(amodels.skip(j as int)) == contrib_of(amodels[j as int]) + seq![
                amodels[j as int],
            ] + contrib_list(amodels.skip(j + 1 as int)));
            assert(args_model(schema_types@) + contrib_list(amodels.skip(j + 1 as int))
                =~= args_model(pre) + contrib_list(amodels.skip(j as int)));
        }
        j += 1;
    }
    proof {
        assert(amodels.skip(amodels.len() as int) =~= Seq::<TypeModel>::empty());
        assert(contrib_list(Seq::<TypeModel>::empty()) == Seq::<TypeModel>::empty());
        assert(args_model(schema_types@) + Seq::<TypeModel>::empty() =~= args_model(
            schema_types@,
        ));
        assert(args_model(schema_types@) =~= args_model(base) + contrib_of(type_model(*ty)));
    }
}

/// Copy a type expression; the copy has the same shape.
pub fn clone_type(t: &TypeExpr) -> (r: TypeExpr)
    ensures
        type_model(r) == type_model(*t),
    decreases *t,
{
    let mut segments: Vec<String> = Vec::new();
    let mut i: usize = 0;
    while i < t.segments.len()
        invariant
            i <= t.segments@.len(),
            segments@.len() == i,
            forall|k: int| 0 <= k < i ==> #[trigger] segments@[k]@ == t.segments@[k]@,
        decreases t.segments@.len() - i,
    {
        segments.push(t.segments[i].clone());
        i += 1;
    }
    proof {
        assert(strs_view(segments@) =~= strs_view(t.segments@));
    }
    let mut args: Vec<TypeExpr> = Vec::new();
    let mut j: usize = 0;
    while j < t.args.len()
        invariant
            j <= t.args@.len(),
            args_model(args@) == args_model(t.args@).take(j as int),
        decreases t.args@.len() - j,
    {
        let ghost pre_args = args@;
        let copy = clone_type(&t.args[j]);
        args.push(copy);
        proof {
            lemma_args_model_push(pre_args, copy);
            lemma_args_model_index(t.args@);
            assert(t.args@.take(j + 1 as int) =~= t.args@.take(j as int).push(t.args@[j as int]));
            lemma_args_model_push(t.args@.take(j as int), t.args@[j as int]);
        }
        j += 1;
    }
    proof {
        lemma_args_model_index(t.args@);
        assert(args_model(t.args@).take(t.args@.len() as int) =~= args_model(t.args@));
    }
    TypeExpr { segments, args }
}

} // verus!
