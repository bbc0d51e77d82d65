//! Status-mnemonic transforms for the response-enum synthesizer.
//!
//! A mnemonic is the upper-snake-case symbolic name of an HTTP status
//! (`NOT_FOUND`). From it the synthesizer derives a variant identifier
//! (`NotFound`), a human-readable description (`"Not found"`), and the
//! numeric status code (`404`); unknown mnemonics default to `200`.

use vstd::prelude::*;
use vstd::string::StrSliceExecFns;
use vstd::string::StringExecFns;
use crate::strutil::{str_eq, strs_view, to_upper_ascii, to_lower_ascii, upper_char, lower_char};

verus! {

/// The variant identifier derived from the suffix of a mnemonic, given
/// whether the first remaining character starts a word: each `_` is dropped
/// and starts a new word, a word's first character is upper-cased, and the
/// rest of a word is lower-cased.
pub open spec fn variant_name_rec(s: Seq<char>, word_start: bool) -> Seq<char>
    decreases s.len(),
{
    if s.len() == 0 {
        Seq::<char>::empty()
    } else if s[0] == '_' {
        variant_name_rec(s.drop_first(), true)
    } else if word_start {
        seq![upper_char(s[0])] + variant_name_rec(s.drop_first(), false)
    } else {
        seq![lower_char(s[0])] + variant_name_rec(s.drop_first(), false)
    }
}

/// The variant identifier derived from a whole mnemonic
/// (`NOT_FOUND` becomes `NotFound`).
pub open spec fn variant_name_of(s: Seq<char>) -> Seq<char> {
    variant_name_rec(s, true)
}

/// The description derived from a mnemonic: each `_` becomes a space, the
/// first character is upper-cased and every later one lower-cased
/// (`NOT_FOUND` becomes `Not found`).
pub open spec fn description_of(s: Seq<char>) -> Seq<char> {
    Seq::new(
        s.len(),
        |i: int|
            if s[i] == '_' {
                ' '
            } else if i == 0 {
                upper_char(s[i])
            } else {
                lower_char(s[i])
            },
    )
}

/// The fixed mnemonic-to-code table; a mnemonic outside the table maps
/// to `200`.
pub open spec fn status_number_of(m: Seq<char>) -> u16 {
    if m == "OK"@ {
        200
    } else if m == "CREATED"@ {
        201
    } else if m == "NO_CONTENT"@ {
        204
    } else if m == "BAD_REQUEST"@ {
        400
    } else if m == "UNAUTHORIZED"@ {
        401
    } else if m == "FORBIDDEN"@ {
        403
    } else if m == "NOT_FOUND"@ {
        404
    } else if m == "METHOD_NOT_ALLOWED"@ {
        405
    } else if m == "CONFLICT"@ {
        409
    } else if m == "UNPROCESSABLE_ENTITY"@ {
        422
    } else if m == "INTERNAL_SERVER_ERROR"@ {
        500
    } else if m == "BAD_GATEWAY"@ {
        502
    } else if m == "SERVICE_UNAVAILABLE"@ {
        503
    } else {
        200
    }
}

proof fn lemma_skip_step(s: Seq<char>, i: int)
    requires
        0 <= i < s.len(),
    ensures
        s.skip(i).drop_first() =~= s.skip(i + 1),
        s.skip(i)[0] == s[i],
        s.skip(i).len() == s.len() - i,
{
}

/// Convert a status mnemonic to the variant identifier of the synthesized
/// union (`"NOT_FOUND"` to `"NotFound"`).
pub fn status_code_to_variant_name(status_code: &str) -> (r: String)
    ensures
        r@ == variant_name_of(status_code@),
{
    let len = status_code.unicode_len();
    let mut out = String::new();
    let mut word_start = true;
    let mut i: usize = 0;
    proof {
        assert(status_code@.skip(0) =~= status_code@);
        assert(Seq::<char>::empty() + variant_name_rec(status_code@, true) =~= variant_name_rec(
            status_code@,
            true,
        ));
    }
    while i < len
        invariant
            len == status_code@.len(),
            i <= len,
            variant_name_of(status_code@) == out@ + variant_name_rec(
                status_code@.skip(i as int),
                word_start,
            ),
        decreases len - i,
    {
        let c = status_code.get_char(i);
        let ghost pre_out = out@;
        let ghost pre_ws = word_start;
        let ghost srem = status_code@.skip(i as int);
        proof {
            lemma_skip_step(status_code@, i as int);
        }
        if c == '_' {
            word_start = true;
        } else if word_start {
            out.push(to_upper_ascii(c));
            word_start = false;
        } else {
            out.push(to_lower_ascii(c));
            word_start = false;
        }
        proof {
            let rest = status_code@.skip(i + 1 as int);
            if c == '_' {
                assert(variant_name_rec(srem, pre_ws) == variant_name_rec(rest, true));
            } else if pre_ws {
                assert(out@ =~= pre_out + seq![upper_char(c)]);
                assert(variant_name_rec(srem, true) == seq![upper_char(c)] + variant_name_rec(
                    rest,
                    false,
                ));
                assert(pre_out + variant_name_rec(srem, true) =~= out@ + variant_name_rec(
                    rest,
                    false,
                ));
            } else {
                assert(out@ =~= pre_out + seq![lower_char(c)]);
                assert(variant_name_rec(srem, false) == seq![lower_char(c)] + variant_name_rec(
                    rest,
                    false,
                ));
                assert(pre_out + variant_name_rec(srem, false) =~= out@ + variant_name_rec(
                    rest,
                    false,
                ));
            }
        }
        i += 1;
    }
    proof {
        assert(status_code@.skip(len as int) =~= Seq::<char>::empty());
        assert(out@ =~= out@ + variant_name_rec(status_code@.skip(len as int), word_start));
    }
    out
}

/// Convert a status mnemonic to the default description
/// (`"NOT_FOUND"` to `"Not found"`).
pub fn status_code_to_description(status_code: &str) -> (r: String)
    ensures
        r@ == description_of(status_code@),
{
    let len = status_code.unicode_len();
    let mut out = String::new();
    let mut i: usize = 0;
    while i < len
        invariant
            len == status_code@.len(),
            i <= len,
            out@ =~= description_of(status_code@).take(i as int),
        decreases len - i,
    {
        let c = status_code.get_char(i);
        if c == '_' {
            out.push(' ');
        } else if i == 0 {
            out.push(to_upper_ascii(c));
        } else {
            out.push(to_lower_ascii(c));
        }
        proof {
            assert(out@ =~= description_of(status_code@).take(i + 1 as int));
        }
        i += 1;
    }
    proof {
        assert(description_of(status_code@).take(len as int) =~= description_of(status_code@));
    }
    out
}

/// Convert a status mnemonic to its numeric HTTP status code; a mnemonic
/// outside the fixed table maps to `200`.
pub fn status_code_constant_to_number(status_code: &str) -> (n: u16)
    ensures
        n == status_number_of(status_code@),
{
    if str_eq(status_code, "OK") {
        200
    } else if str_eq(status_code, "CREATED") {
        201
    } else if str_eq(status_code, "NO_CONTENT") {
        204
    } else if str_eq(status_code, "BAD_REQUEST") {
        400
    } else if str_eq(status_code, "UNAUTHORIZED") {
        401
    } else if str_eq(status_code, "FORBIDDEN") {
        403
    } else if str_eq(status_code, "NOT_FOUND") {
        404
    } else if str_eq(status_code, "METHOD_NOT_ALLOWED") {
        405
    } else if str_eq(status_code, "CONFLICT") {
        409
    } else if str_eq(status_code, "UNPROCESSABLE_ENTITY") {
        422
    } else if str_eq(status_code, "INTERNAL_SERVER_ERROR") {
        500
    } else if str_eq(status_code, "BAD_GATEWAY") {
        502
    } else if str_eq(status_code, "SERVICE_UNAVAILABLE") {
        503
    } else {
        200
    }
}

/// The constant name named by a status-code path: its last segment, or
/// `UNKNOWN` for an empty path (`StatusCode::OK` names `OK`).
pub open spec fn status_constant_of(segments: Seq<Seq<char>>) -> Seq<char> {
    if segments.len() == 0 {
        "UNKNOWN"@
    } else {
        segments.last()
    }
}

/// Extract the constant name from a status-code path, written as its
/// segments (`["StatusCode", "OK"]` yields `"OK"`).
pub fn extract_status_code_constant(segments: &Vec<String>) -> (r: String)
    ensures
        r@ == status_constant_of(strs_view(segments@)),
{
    if segments.len() == 0 {
        String::from_str("UNKNOWN")
    } else {
        let s: &String = &segments[segments.len() - 1];
        proof {
            assert(strs_view(segments@).last() == segments@[segments@.len() - 1]@);
        }
        s.clone()
    }
}

} // verus!
