//! The response-enum synthesizer.
//!
//! From a literal list of `(status-mnemonic, carried type, optional
//! description)` entries it builds a tagged union: one variant per entry,
//! the variant identifier and default description derived from the
//! mnemonic, the numeric status code taken from the fixed mnemonic table,
//! and an encode rule that attaches the variant's status code to the
//! serialized carried value. A list with no entries is a hard error.

use vstd::prelude::*;
use vstd::slice::slice_subrange;
use vstd::slice::slice_index_get;
use vstd::string::StringExecFns;
use crate::strutil::strs_view;
use crate::types::{Token, TypeExpr, TypeModel, type_model, clone_type};
use crate::parse::{spec_parse_path, spec_parse_type, parse_path, parse_type};
use crate::status::{
    status_constant_of, variant_name_of, description_of, status_number_of,
    extract_status_code_constant, status_code_to_variant_name, status_code_to_description,
    status_code_constant_to_number,
};
use crate::extract::opt_str_view;
use crate::error::{GenError, ErrModel, err_model};

verus! {

/// One entry of the response-enum literal declaration.
#[derive(Debug)]
pub struct ResponseEntry {
    /// The status-code path, written as its segments
    /// (`StatusCode::NOT_FOUND`).
    pub status_path: Vec<String>,
    /// The carried type of this variant.
    pub response_type: TypeExpr,
    /// An explicit description, when one was supplied.
    pub description: Option<String>,
}

/// The mathematical shape of a declaration entry.
pub struct RespEntryModel {
    pub status_path: Seq<Seq<char>>,
    pub response_type: TypeModel,
    pub description: Option<Seq<char>>,
}

/// The shape of a declaration entry.
pub open spec fn resp_entry_model(e: ResponseEntry) -> RespEntryModel {
    RespEntryModel {
        status_path: strs_view(e.status_path@),
        response_type: type_model(e.response_type),
        description: opt_str_view(e.description),
    }
}

impl View for ResponseEntry {
    type V = RespEntryModel;

    open spec fn view(&self) -> RespEntryModel {
        resp_entry_model(*self)
    }
}

/// The shapes of a sequence of declaration entries.
pub open spec fn entries_view(s: Seq<ResponseEntry>) -> Seq<RespEntryModel> {
    Seq::new(s.len(), |i: int| resp_entry_model(s[i]))
}

/// The parsed input of one response-enum declaration.
#[derive(Debug)]
pub struct ResponseMacroInput {
    pub entries: Vec<ResponseEntry>,
}

/// Parse `Path = Type [StrLit] (, ...)*`: one entry per step.
pub open spec fn spec_parse_entries(ts: Seq<Token>, acc: Seq<RespEntryModel>) -> Result<
    Seq<RespEntryModel>,
    ErrModel,
>
    decreases ts.len(),
{
    if ts.len() == 0 {
        Ok(acc)
    } else {
        match spec_parse_path(ts) {
            None => Err(ErrModel::AttributeParseError),
            Some((segs, n)) => {
                if n < ts.len() && ts[n as int] is Eq {
                    match spec_parse_type(ts.skip(n + 1 as int)) {
                        None => Err(ErrModel::AttributeParseError),
                        Some((t, m)) => {
                            let rest = if n + 1 + m <= ts.len() {
                                ts.skip((n + 1 + m) as int)
                            } else {
                                Seq::<Token>::empty()
                            };
                            if rest.len() > 0 && rest[0] is StrLit {
                                spec_parse_entries_sep(
                                    rest.skip(1),
                                    acc.push(
                                        RespEntryModel {
                                            status_path: segs,
                                            response_type: t,
                                            description: Some(rest[0]->StrLit_0@),
                                        },
                                    ),
                                )
                            } else {
                                spec_parse_entries_sep(
                                    rest,
                                    acc.push(
                                        RespEntryModel {
                                            status_path: segs,
                                            response_type: t,
                                            description: None,
                                        },
                                    ),
                                )
                            }
                        },
                    }
                } else {
                    Err(ErrModel::AttributeParseError)
                }
            },
        }
    }
}

/// After an entry: either the list ends, or a comma separates the next.
pub open spec fn spec_parse_entries_sep(ts: Seq<Token>, acc: Seq<RespEntryModel>) -> Result<
    Seq<RespEntryModel>,
    ErrModel,
>
    decreases ts.len(),
{
    if ts.len() == 0 {
        Ok(acc)
    } else if ts[0] is Comma {
        spec_parse_entries(ts.skip(1), acc)
    } else {
        Err(ErrModel::AttributeParseError)
    }
}

impl ResponseMacroInput {
    /// Parse the literal declaration list: comma-separated entries, each a
    /// status-code path, `=`, the carried type, and optionally a string
    /// literal description.
    #[verifier::rlimit(60)]
    pub fn parse(tokens: &Vec<Token>) -> (r: Result<ResponseMacroInput, GenError>)
        ensures
            match r {
                Ok(inp) => spec_parse_entries(tokens@, Seq::<RespEntryModel>::empty()) == Ok::<
                    Seq<RespEntryModel>,
                    ErrModel,
                >(entries_view(inp.entries@)),
                Err(e) => spec_parse_entries(tokens@, Seq::<RespEntryModel>::empty()) == Err::<
                    Seq<RespEntryModel>,
                    ErrModel,
                >(err_model(e)),
            },
    {
        let ts = tokens.as_slice();
        let len = ts.len();
        let mut entries: Vec<ResponseEntry> = Vec::new();
        let mut pos: usize = 0;
        proof {
            assert(tokens@.skip(0) =~= tokens@);
            assert(entries_view(entries@) =~= Seq::<RespEntryModel>::empty());
        }
        while pos < len
            invariant
                ts@ == tokens@,
                len == tokens@.len(),
                pos <= len,
                spec_parse_entries(tokens@, Seq::<RespEntryModel>::empty()) == spec_parse_entries(
                    tokens@.skip(pos as int),
                    entries_view(entries@),
                ),
            decreases len - pos,
        {
            let ghost suffix = tokens@.skip(pos as int);
            let ghost acc_pre = entries_view(entries@);
            let tail = slice_subrange(ts, pos, len);
            proof {
                assert(tail@ =~= suffix);
            }
            let (segs, n) = match parse_path(tail) {
                Some(p) => p,
                None => {
                    return Err(GenError::AttributeParseError);
                },
            };
            if !(n < tail.len() && matches!(slice_index_get(tail, n), Token::Eq)) {
                return Err(GenError::AttributeParseError);
            }
            let after_eq = slice_subrange(tail, n + 1, tail.len());
            proof {
                assert(after_eq@ =~= suffix.skip(n + 1 as int));
            }
            let (ty, m) = match parse_type(after_eq) {
                Some(p) => p,
                None => {
                    return Err(GenError::AttributeParseError);
                },
            };
            let mut consumed = n + 1 + m;
            proof {
                assert(suffix.skip((n + 1 + m) as int) =~= suffix.skip(n + 1 as int).skip(
                    m as int,
                ));
            }
            let ghost rest = suffix.skip((n + 1 + m) as int);
            let mut description: Option<String> = None;
            if consumed < tail.len() {
                if let Token::StrLit(d) = slice_index_get(tail, consumed) {
                    description = Some(d.clone());
                    consumed = consumed + 1;
                    proof {
                        assert(rest[0] == tail@[consumed - 1]);
                        assert(rest.skip(1) =~= suffix.skip(consumed as int));
                    }
                }
            }
            entries.push(ResponseEntry { status_path: segs, response_type: ty, description });
            proof {
                assert(entries_view(entries@) =~= acc_pre.push(entries@.last()@));
            }
            pos = pos + consumed;
            proof {
                assert(tokens@.skip(pos as int) =~= suffix.skip(consumed as int));
            }
            // An entry was read; the list must end here or continue after
            // a comma.
            if pos < len {
                let comma_ok = matches!(slice_index_get(ts, pos), Token::Comma);
                if !comma_ok {
                    return Err(GenError::AttributeParseError);
                }
                pos = pos + 1;
                proof {
                    assert(tokens@.skip(pos - 1 as int).skip(1) =~= tokens@.skip(pos as int));
                }
            }
        }
        proof {
            assert(tokens@.skip(len as int) =~= Seq::<Token>::empty());
        }
        Ok(ResponseMacroInput { entries })
    }
}

/// One variant of the synthesized tagged union.
#[derive(Debug)]
pub struct VariantDef {
    /// The variant identifier derived from the mnemonic.
    pub name: String,
    /// The mnemonic itself, kept for the host status-code constant.
    pub status_constant: String,
    /// The numeric status code from the fixed table.
    pub status: u16,
    /// The explicit description, or the one derived from the mnemonic.
    pub description: String,
    /// The carried type.
    pub body: TypeExpr,
}

/// The mathematical shape of a variant.
pub struct VariantModel {
    pub name: Seq<char>,
    pub status_constant: Seq<char>,
    pub status: u16,
    pub description: Seq<char>,
    pub body: TypeModel,
}

/// The shape of a variant.
pub open spec fn variant_model(v: VariantDef) -> VariantModel {
    VariantModel {
        name: v.name@,
        status_constant: v.status_constant@,
        status: v.status,
        description: v.description@,
        body: type_model(v.body),
    }
}

impl View for VariantDef {
    type V = VariantModel;

    open spec fn view(&self) -> VariantModel {
        variant_model(*self)
    }
}

/// The shapes of a sequence of variants.
pub open spec fn variants_view(s: Seq<VariantDef>) -> Seq<VariantModel> {
    Seq::new(s.len(), |i: int| variant_model(s[i]))
}

/// The variant synthesized from one entry: identifier and status from the
/// mnemonic, the explicit description or the derived one, the carried type
/// unchanged.
pub open spec fn synth_variant(e: RespEntryModel) -> VariantModel {
    let c = status_constant_of(e.status_path);
    VariantModel {
        name: variant_name_of(c),
        status_constant: c,
        status: status_number_of(c),
        description: match e.description {
            Some(d) => d,
            None => description_of(c),
        },
        body: e.response_type,
    }
}

/// The synthesized union: one variant per entry, in order; a declaration
/// with no entries is a hard error.
pub open spec fn spec_response(entries: Seq<RespEntryModel>) -> Result<Seq<VariantModel>, ErrModel> {
    if entries.len() == 0 {
        Err(ErrModel::EmptyDeclarationError)
    } else {
        Ok(Seq::new(entries.len(), |i: int| synth_variant(entries[i])))
    }
}

/// The synthesized tagged union.
#[derive(Debug)]
pub struct ResponseEnumDef {
    /// The union's name.
    pub name: String,
    /// Its variants, in declaration order.
    pub variants: Vec<VariantDef>,
}

/// Synthesize the tagged union from a parsed declaration.
pub fn response(input: &ResponseMacroInput) -> (r: Result<ResponseEnumDef, GenError>)
    ensures
        match r {
            Ok(d) => spec_response(entries_view(input.entries@)) == Ok::<
                Seq<VariantModel>,
                ErrModel,
            >(variants_view(d.variants@)) && d.name@ == "Response"@,
            Err(e) => spec_response(entries_view(input.entries@)) == Err::<
                Seq<VariantModel>,
                ErrModel,
            >(err_model(e)),
        },
{
    if input.entries.len() == 0 {
        return Err(GenError::EmptyDeclarationError);
    }
    let mut variants: Vec<VariantDef> = Vec::new();
    let mut i: usize = 0;
    while i < input.entries.len()
        invariant
            i <= input.entries@.len(),
            variants@.len() == i,
            forall|k: int|
                0 <= k < i ==> variant_model(#[trigger] variants@[k]) == synth_variant(
                    entries_view(input.entries@)[k],
                ),
        decreases input.entries@.len() - i,
    {
        let e = &input.entries[i];
        let constant = extract_status_code_constant(&e.status_path);
        let name = status_code_to_variant_name(constant.as_str());
        let status = status_code_constant_to_number(constant.as_str());
        let description = match &e.description {
            Some(d) => d.clone(),
            None => status_code_to_description(constant.as_str()),
        };
        let body = clone_type(&e.response_type);
        variants.push(
            VariantDef { name, status_constant: constant, status, description, body },
        );
        i += 1;
    }
    proof {
        assert(variants_view(variants@) =~= Seq::new(
            entries_view(input.entries@).len(),
            |i: int| synth_variant(entries_view(input.entries@)[i]),
        ));
    }
    Ok(ResponseEnumDef { name: String::from_str("Response"), variants })
}

impl ResponseEnumDef {
    /// The encode rule at the boundary with the host HTTP layer: an
    /// instance of the union, given as its variant index and the
    /// serialized carried value, becomes that body with the variant's
    /// status code attached.
    pub fn encode(&self, variant: usize, body: String) -> (r: (u16, String))
        requires
            variant < self.variants@.len(),
        ensures
            r.0 == variants_view(self.variants@)[variant as int].status,
            r.1@ == body@,
    {
        (self.variants[variant].status, body)
    }
}

} // verus!
