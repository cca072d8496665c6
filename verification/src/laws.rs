//! Stated properties of the parsing pipeline, proved once and for all inputs:
//! the `proto3` default, the exclusivity of the `repeated` flag, the
//! stripping of `stream` markers, the irrelevance of comment and whitespace
//! placement, and the permissive fallback for overflowing numbers.

use vstd::prelude::*;
use crate::ast::{FieldView, MethodView, ProtoView};
use crate::lex::{TokenView, spec_tokens};
use crate::parser::{
    sp_field,
    sp_proto_toks,
    sp_rpc,
    sp_stream_type,
    spec_parse,
    tv_ident,
    tv_number,
};
use crate::text::{dec_val, tag_of};

verus! {

/// A document parsed from a file whose first token is not `syntax` — in
/// particular, from a file with no `syntax` statement — declares `proto3`.
pub proof fn lemma_default_syntax(s: Seq<char>, p: ProtoView)
    requires
        spec_parse(s) == Some(p),
        spec_tokens(s) matches Some(ts) && (ts.len() == 0 || ts[0] != TokenView::Ident(
            "syntax"@,
        )),
    ensures
        p.syntax == "proto3"@,
{
}

/// A field is `repeated` exactly when the token in front of its type is the
/// literal `repeated`; `optional`, `required` and an absent modifier all
/// leave the flag false.
pub proof fn lemma_repeated_exclusive(t: Seq<TokenView>, i: int, f: FieldView, j: int)
    requires
        sp_field(t, i) == Some((f, j)),
    ensures
        f.repeated <==> (0 <= i < t.len() && t[i] == TokenView::Ident("repeated"@)),
{
}

/// A parenthesized RPC type reference yields the bare type identifier: a
/// leading `stream` marker is consumed and only the identifier after it is
/// kept.
pub proof fn lemma_stream_marker_stripped(t: Seq<TokenView>, i: int, ty: Seq<char>, j: int)
    requires
        sp_stream_type(t, i) == Some((ty, j)),
    ensures
        t[i] == TokenView::Ident("stream"@) ==> tv_ident(t[i + 1]) == Some(ty) && j == i + 2,
        t[i] != TokenView::Ident("stream"@) ==> tv_ident(t[i]) == Some(ty) && j == i + 1,
{
}

/// The two type names of a parsed RPC are exactly what its two parenthesized
/// type references yield, so neither carries a residual `stream` marker.
pub proof fn lemma_rpc_types(t: Seq<TokenView>, i: int, m: MethodView, j: int)
    requires
        sp_rpc(t, i) == Some((m, j)),
    ensures
        sp_stream_type(t, i + 3) matches Some(r1) && r1.0 == m.input_type && (sp_stream_type(
            t,
            r1.1 + 3,
        ) matches Some(r2) && r2.0 == m.output_type),
{
}

/// Two inputs that tokenize to the same token sequence — inputs differing
/// only in whitespace style and comment placement do — parse to the same
/// document, and therefore serialize to the same JSON text.
pub proof fn lemma_token_invariance(s1: Seq<char>, s2: Seq<char>)
    requires
        spec_tokens(s1) == spec_tokens(s2),
    ensures
        spec_parse(s1) == spec_parse(s2),
{
}

/// Whitespace and comments are transparent to tokenization: the token
/// stream is the same from every index that the skip policy crosses, so what
/// stands between two tokens never reaches the parser.
pub proof fn lemma_skip_transparent(s: Seq<char>, i: int)
    requires
        crate::lex::skip_ws(s, i) is Some,
    ensures
        crate::lex::lex_from(s, i) == crate::lex::lex_from(s, crate::lex::skip_ws(s, i).unwrap()),
{
    crate::lex::lemma_skip_ws_idempotent(s, i);
    crate::lex::lemma_skip_ws_bounds(s, i);
}

/// Leading whitespace and comments may be added or removed freely: a prefix
/// that the skip policy consumes whole leaves the token stream — and with it
/// the parse — unchanged.
pub proof fn lemma_leading_trivia(pad: Seq<char>, s: Seq<char>)
    requires
        crate::lex::skip_ws(pad + s, 0) == Some(pad.len() as int),
    ensures
        spec_tokens(pad + s) == spec_tokens(s),
{
    let w = pad + s;
    crate::lex::lemma_skip_ws_idempotent(w, 0);
    crate::lex::lemma_lex_shift(w, pad.len() as int, pad.len() as int);
    assert(w.skip(pad.len() as int) =~= s);
}

/// A digit string whose value fits a 32-bit signed integer denotes that
/// value; one whose value overflows falls back to `0` instead of failing.
pub proof fn lemma_tag_fallback(d: Seq<char>)
    ensures
        dec_val(d) > i32::MAX ==> tag_of(d) == 0,
        0 <= dec_val(d) <= i32::MAX ==> tag_of(d) == dec_val(d),
{
}

/// The tag of a parsed field is the permissive reading of the digit token
/// that ends its statement.
pub proof fn lemma_field_tag(t: Seq<TokenView>, i: int, f: FieldView, j: int)
    requires
        sp_field(t, i) == Some((f, j)),
    ensures
        tv_number(t[j - 2]) matches Some(d) && f.tag == tag_of(d),
{
}

} // verus!
