//! Recursive-descent parsing of type expressions from annotation tokens.
//!
//! Grammar: a type is a path of identifiers joined by `::`, optionally
//! followed by `<`, one or more comma-separated types, and `>`. Each parse
//! function consumes a prefix of the token sequence and reports how many
//! tokens it consumed.

use vstd::prelude::*;
use vstd::slice::slice_subrange;
use vstd::slice::slice_index_get;
use crate::strutil::strs_view;
use crate::types::{Token, TypeExpr, TypeModel, args_model, type_model, lemma_args_model_concat};

verus! {

/// Parse `(:: Ident)*`: the segments found and the tokens consumed.
pub open spec fn spec_parse_path_more(ts: Seq<Token>) -> (Seq<Seq<char>>, nat)
    decreases ts.len(),
{
    if ts.len() >= 2 && ts[0] is PathSep && ts[1] is Ident {
        let more = spec_parse_path_more(ts.skip(2));
        (seq![ts[1]->Ident_0@] + more.0, (2 + more.1) as nat)
    } else {
        (Seq::<Seq<char>>::empty(), 0nat)
    }
}

/// Parse `Ident (:: Ident)*`: the segments and the tokens consumed, or
/// nothing when the sequence does not begin with an identifier.
pub open spec fn spec_parse_path(ts: Seq<Token>) -> Option<(Seq<Seq<char>>, nat)> {
    if ts.len() > 0 && ts[0] is Ident {
        let more = spec_parse_path_more(ts.skip(1));
        Some((seq![ts[0]->Ident_0@] + more.0, (1 + more.1) as nat))
    } else {
        None
    }
}

/// Parse a whole type: a path, optionally followed by `<`, generic
/// arguments, and `>`.
pub open spec fn spec_parse_type(ts: Seq<Token>) -> Option<(TypeModel, nat)>
    decreases ts.len(), 0int,
{
    match spec_parse_path(ts) {
        None => None,
        Some((segs, n)) => {
            if n < ts.len() && ts[n as int] is Lt {
                match spec_parse_args(ts.skip(n + 1 as int)) {
                    None => None,
                    Some((args, m)) => Some(
                        (TypeModel { segments: segs, args }, (n + 1 + m) as nat),
                    ),
                }
            } else {
                Some((TypeModel { segments: segs, args: Seq::<TypeModel>::empty() }, n))
            }
        },
    }
}

/// Parse `Type (, Type)* >`: the argument shapes and the tokens consumed,
/// the closing `>` included.
pub open spec fn spec_parse_args(ts: Seq<Token>) -> Option<(Seq<TypeModel>, nat)>
    decreases ts.len(), 1int,
{
    match spec_parse_type(ts) {
        None => None,
        Some((t, n)) => {
            if n < ts.len() && ts[n as int] is Comma {
                match spec_parse_args(ts.skip(n + 1 as int)) {
                    None => None,
                    Some((more, m)) => Some((seq![t] + more, (n + 1 + m) as nat)),
                }
            } else if n < ts.len() && ts[n as int] is Gt {
                Some((seq![t], (n + 1) as nat))
            } else {
                None
            }
        },
    }
}

fn parse_path_more(tokens: &[Token]) -> (r: (Vec<String>, usize))
    ensures
        strs_view(r.0@) == spec_parse_path_more(tokens@).0,
        r.1 == spec_parse_path_more(tokens@).1,
        r.1 <= tokens@.len(),
    decreases tokens@.len(),
{
    if tokens.len() >= 2 {
        let sep = matches!(slice_index_get(tokens, 0), Token::PathSep);
        if sep {
            if let Token::Ident(s) = slice_index_get(tokens, 1) {
                let rest = slice_subrange(tokens, 2, tokens.len());
                proof {
                    assert(rest@ =~= tokens@.skip(2));
                }
                let (mut more, n) = parse_path_more(rest);
                let ghost pre = more@;
                more.insert(0, s.clone());
                proof {
                    assert(strs_view(more@) =~= seq![tokens@[1]->Ident_0@] + strs_view(pre));
                }
                return (more, n + 2);
            }
        }
    }
    let empty: Vec<String> = Vec::new();
    proof {
        assert(strs_view(empty@) =~= Seq::<Seq<char>>::empty());
    }
    (empty, 0)
}

/// Parse a path of identifier segments from the front of the tokens.
pub fn parse_path(tokens: &[Token]) -> (r: Option<(Vec<String>, usize)>)
    ensures
        match r {
            Some((segs, n)) => spec_parse_path(tokens@) == Some((strs_view(segs@), n as nat))
                && 1 <= n <= tokens@.len(),
            None => spec_parse_path(tokens@) is None,
        },
{
    if tokens.len() == 0 {
        return None;
    }
    if let Token::Ident(s) = slice_index_get(tokens, 0) {
        let rest = slice_subrange(tokens, 1, tokens.len());
        proof {
            assert(rest@ =~= tokens@.skip(1));
        }
        let (mut more, n) = parse_path_more(rest);
        let ghost pre = more@;
        more.insert(0, s.clone());
        proof {
            assert(strs_view(more@) =~= seq![tokens@[0]->Ident_0@] + strs_view(pre));
        }
        Some((more, n + 1))
    } else {
        None
    }
}

/// Parse a type expression from the front of the tokens: the expression
/// parsed and the number of tokens consumed.
pub fn parse_type(tokens: &[Token]) -> (r: Option<(TypeExpr, usize)>)
    ensures
        match r {
            Some((t, n)) => spec_parse_type(tokens@) == Some((type_model(t), n as nat)) && 1 <= n
                <= tokens@.len(),
            None => spec_parse_type(tokens@) is None,
        },
    decreases tokens@.len(), 0int,
{
    match parse_path(tokens) {
        None => None,
        Some((segs, n)) => {
            if n < tokens.len() && matches!(slice_index_get(tokens, n), Token::Lt) {
                let rest = slice_subrange(tokens, n + 1, tokens.len());
                proof {
                    assert(rest@ =~= tokens@.skip(n + 1));
                }
                match parse_args(rest) {
                    None => None,
                    Some((args, m)) => Some((TypeExpr { segments: segs, args }, n + 1 + m)),
                }
            } else {
                let t = TypeExpr { segments: segs, args: Vec::new() };
                proof {
                    assert(args_model(t.args@) =~= Seq::<TypeModel>::empty());
                }
                Some((t, n))
            }
        },
    }
}

/// Parse `Type (, Type)* >` from the front of the tokens: the argument
/// expressions and the number of tokens consumed, the closing `>` included.
pub fn parse_args(tokens: &[Token]) -> (r: Option<(Vec<TypeExpr>, usize)>)
    ensures
        match r {
            Some((args, m)) => spec_parse_args(tokens@) == Some((args_model(args@), m as nat)) && 1
                <= m <= tokens@.len(),
            None => spec_parse_args(tokens@) is None,
        },
    decreases tokens@.len(), 1int,
{
    match parse_type(tokens) {
        None => None,
        Some((t, n)) => {
            if n < tokens.len() && matches!(slice_index_get(tokens, n), Token::Comma) {
                let rest = slice_subrange(tokens, n + 1, tokens.len());
                proof {
                    assert(rest@ =~= tokens@.skip(n + 1));
                }
                match parse_args(rest) {
                    None => None,
                    Some((more, m)) => {
                        let ghost tm = type_model(t);
                        let ghost pre = more@;
                        let mut args = more;
                        args.insert(0, t);
                        proof {
                            assert(args@ =~= seq![args@[0]] + pre);
                            lemma_args_model_concat(seq![args@[0]], pre);
                            assert(seq![args@[0]].drop_first() =~= Seq::<TypeExpr>::empty());
                            assert(args_model(Seq::<TypeExpr>::empty()) == Seq::<TypeModel>::empty());
                            assert(args@[0] == t);
                            assert(args_model(seq![args@[0]]) =~= seq![tm]);
                            assert(args_model(args@) =~= seq![tm] + args_model(pre));
                        }
                        Some((args, n + 1 + m))
                    },
                }
            } else if n < tokens.len() && matches!(slice_index_get(tokens, n), Token::Gt) {
                let ghost tm = type_model(t);
                let mut args: Vec<TypeExpr> = Vec::new();
                args.push(t);
                proof {
                    assert(args@.drop_first() =~= Seq::<TypeExpr>::empty());
                    assert(args_model(Seq::<TypeExpr>::empty()) == Seq::<TypeModel>::empty());
                    assert(args@[0] == t);
                    assert(args_model(args@) =~= seq![tm]);
                }
                Some((args, n + 1))
            } else {
                None
            }
        },
    }
}

/// The type named by a whole token sequence, when the sequence is exactly
/// one type expression.
pub open spec fn spec_parse_type_all(ts: Seq<Token>) -> Option<TypeModel> {
    match spec_parse_type(ts) {
        None => None,
        Some((t, n)) => if n == ts.len() {
            Some(t)
        } else {
            None
        },
    }
}

/// Parse a whole token sequence as one type expression; any token left
/// over makes the parse fail.
pub fn parse_type_all(tokens: &Vec<Token>) -> (r: Option<TypeExpr>)
    ensures
        match r {
            Some(t) => spec_parse_type_all(tokens@) == Some(type_model(t)),
            None => spec_parse_type_all(tokens@) is None,
        },
{
    match parse_type(tokens.as_slice()) {
        None => None,
        Some((t, n)) => {
            if n == tokens.len() {
                Some(t)
            } else {
                None
            }
        },
    }
}

} // verus!
