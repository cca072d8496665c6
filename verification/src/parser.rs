//! The grammar layer: the structural rules of a proto file over the token
//! stream, and the construction of the typed syntax tree.
//!
//! Each `sp_*` function is the specification of one grammar rule: it either
//! yields the entity the rule derives together with the index of the first
//! token after it, or `None` when the tokens do not match the rule.  Parsing
//! is deterministic: a leading `repeated`/`optional`/`required` token is read
//! as a field-rule modifier, never as a type name, and the `stream` marker of
//! an RPC parameter is recognized and then stripped.

use vstd::prelude::*;
use crate::ast::{
    EnumDef,
    EnumDefView,
    EnumValue,
    EnumValueView,
    Field,
    FieldView,
    Message,
    MessageView,
    Method,
    MethodView,
    Proto,
    ProtoView,
    Service,
    ServiceView,
    all_wf_enums,
    all_wf_fields,
    all_wf_methods,
    all_wf_msgs,
    all_wf_services,
    all_wf_strs,
    all_wf_vals,
    enums_view,
    fields_view,
    lemma_msgs_view,
    methods_view,
    msgs_view,
    services_view,
    strings_view,
    vals_view,
    wf_digits,
    wf_dotted,
    wf_ident,
    wf_str,
};
use crate::lex::{
    Token,
    TokenView,
    digit_end,
    ident_end,
    is_sym,
    lemma_digit_end_bounds,
    lemma_ident_end_bounds,
    lemma_skip_ws_bounds,
    lemma_str_end_bounds,
    lex_from,
    skip_ws,
    str_end,
    toks_view,
};
use crate::lex::tokenize;
use crate::text::ParserError;
use crate::text::{
    chars_to_string,
    is_digit,
    is_ident_char,
    is_letter,
    push_char,
    render_u64,
    str_to_chars,
    tag_of,
    tag_value,
};
use vstd::string::StrSliceExecFns;
use vstd::string::StringExecFns;

verus! {

/// The contents of a string-literal lexeme, without the enclosing quotes.
pub open spec fn strip_quotes(s: Seq<char>) -> Seq<char> {
    s.subrange(1, s.len() - 1)
}

/// The identifier a token carries, if it is an identifier token.
pub open spec fn tv_ident(t: TokenView) -> Option<Seq<char>> {
    match t {
        TokenView::Ident(s) => Some(s),
        _ => None,
    }
}

/// The digit string a token carries, if it is a number token.
pub open spec fn tv_number(t: TokenView) -> Option<Seq<char>> {
    match t {
        TokenView::Number(s) => Some(s),
        _ => None,
    }
}

/// The quoted contents a token carries, if it is a string-literal token.
pub open spec fn tv_str(t: TokenView) -> Option<Seq<char>> {
    match t {
        TokenView::StrLit(s) => Some(strip_quotes(s)),
        _ => None,
    }
}

/// A field-rule modifier token: `repeated`, `optional` or `required`.
pub open spec fn is_modifier(t: TokenView) -> bool {
    t == TokenView::Ident("repeated"@) || t == TokenView::Ident("optional"@) || t
        == TokenView::Ident("required"@)
}

/// One identifier, or several joined by dots: a package name or a type
/// reference.  Yields the joined text.
pub open spec fn sp_dotted(t: Seq<TokenView>, i: int) -> Option<(Seq<char>, int)>
    decreases t.len() - i,
{
    if 0 <= i < t.len() {
        match tv_ident(t[i]) {
            Some(s) => {
                if i + 2 < t.len() && t[i + 1] == TokenView::Sym('.') && tv_ident(t[i + 2]) is Some {
                    match sp_dotted(t, i + 2) {
                        Some((rest, j)) => Some((s + seq!['.'] + rest, j)),
                        None => None,
                    }
                } else {
                    Some((s, i + 1))
                }
            },
            None => None,
        }
    } else {
        None
    }
}

pub proof fn lemma_sp_dotted_progress(t: Seq<TokenView>, i: int)
    ensures
        sp_dotted(t, i) matches Some(r) ==> 0 <= i < r.1 <= t.len(),
    decreases t.len() - i,
{
    if 0 <= i < t.len() && tv_ident(t[i]) is Some && i + 2 < t.len() && t[i + 1]
        == TokenView::Sym('.') && tv_ident(t[i + 2]) is Some {
        lemma_sp_dotted_progress(t, i + 2);
    }
}

/// A field without its modifier: type, name, `=`, tag, `;`.
pub open spec fn sp_field_tail(t: Seq<TokenView>, i: int, rep: bool) -> Option<(FieldView, int)> {
    match sp_dotted(t, i) {
        Some((ty, j)) => {
            if j + 3 < t.len() && t[j + 1] == TokenView::Sym('=') && t[j + 3]
                == TokenView::Sym(';') {
                match (tv_ident(t[j]), tv_number(t[j + 2])) {
                    (Some(nm), Some(dg)) => Some(
                        (
                            FieldView { name: nm, type_ref: ty, tag: tag_of(dg), repeated: rep },
                            j + 4,
                        ),
                    ),
                    _ => None,
                }
            } else {
                None
            }
        },
        None => None,
    }
}

/// A message field.  A leading modifier token is committed to by its rule tag:
/// the field is `repeated` exactly when that token is the literal `repeated`.
pub open spec fn sp_field(t: Seq<TokenView>, i: int) -> Option<(FieldView, int)> {
    if 0 <= i < t.len() && is_modifier(t[i]) {
        sp_field_tail(t, i + 1, t[i] == TokenView::Ident("repeated"@))
    } else {
        sp_field_tail(t, i, false)
    }
}

pub proof fn lemma_sp_field_progress(t: Seq<TokenView>, i: int)
    ensures
        sp_field(t, i) matches Some(r) ==> 0 <= i < r.1 <= t.len(),
{
    if 0 <= i < t.len() && is_modifier(t[i]) {
        lemma_sp_dotted_progress(t, i + 1);
    } else {
        lemma_sp_dotted_progress(t, i);
    }
}

/// One enum value: name, `=`, number, `;`.
pub open spec fn sp_enum_value(t: Seq<TokenView>, i: int) -> Option<(EnumValueView, int)> {
    if 0 <= i && i + 3 < t.len() && t[i + 1] == TokenView::Sym('=') && t[i + 3]
        == TokenView::Sym(';') {
        match (tv_ident(t[i]), tv_number(t[i + 2])) {
            (Some(nm), Some(dg)) => Some((EnumValueView { name: nm, number: tag_of(dg) }, i + 4)),
            _ => None,
        }
    } else {
        None
    }
}

pub proof fn lemma_sp_enum_value_progress(t: Seq<TokenView>, i: int)
    ensures
        sp_enum_value(t, i) matches Some(r) ==> 0 <= i < r.1 <= t.len(),
{
}

/// The enum values of an enum body, as many as match.
pub open spec fn sp_enum_values(t: Seq<TokenView>, i: int) -> Option<(Seq<EnumValueView>, int)>
    decreases t.len() - i,
{
    match sp_enum_value(t, i) {
        Some((v, j)) => {
            proof {
                lemma_sp_enum_value_progress(t, i);
            }
            match sp_enum_values(t, j) {
                Some((vs, k)) => Some((seq![v] + vs, k)),
                None => None,
            }
        },
        None => Some((Seq::empty(), i)),
    }
}

pub proof fn lemma_sp_enum_values_progress(t: Seq<TokenView>, i: int)
    ensures
        sp_enum_values(t, i) matches Some(r) ==> i <= r.1 <= t.len() || (i > t.len() && r.1 == i),
    decreases t.len() - i,
{
    if let Some((v, j)) = sp_enum_value(t, i) {
        lemma_sp_enum_value_progress(t, i);
        lemma_sp_enum_values_progress(t, j);
    }
}

/// An enum definition: `enum`, name, `{`, values, `}`.
pub open spec fn sp_enum_def(t: Seq<TokenView>, i: int) -> Option<(EnumDefView, int)> {
    if 0 <= i && i + 2 < t.len() && t[i] == TokenView::Ident("enum"@) && t[i + 2]
        == TokenView::Sym('{') {
        match tv_ident(t[i + 1]) {
            Some(nm) => match sp_enum_values(t, i + 3) {
                Some((vs, j)) => {
                    if j < t.len() && t[j] == TokenView::Sym('}') {
                        Some((EnumDefView { name: nm, values: vs }, j + 1))
                    } else {
                        None
                    }
                },
                None => None,
            },
            None => None,
        }
    } else {
        None
    }
}

pub proof fn lemma_sp_enum_def_progress(t: Seq<TokenView>, i: int)
    ensures
        sp_enum_def(t, i) matches Some(r) ==> 0 <= i < r.1 <= t.len(),
{
    if 0 <= i && i + 2 < t.len() {
        lemma_sp_enum_values_progress(t, i + 3);
    }
}

/// A parenthesized RPC type reference: an optional `stream` marker, committed
/// to when present, followed by the message type; yields the bare type name.
pub open spec fn sp_stream_type(t: Seq<TokenView>, i: int) -> Option<(Seq<char>, int)> {
    if 0 <= i < t.len() && t[i] == TokenView::Ident("stream"@) {
        if i + 1 < t.len() {
            match tv_ident(t[i + 1]) {
                Some(ty) => Some((ty, i + 2)),
                None => None,
            }
        } else {
            None
        }
    } else if 0 <= i < t.len() {
        match tv_ident(t[i]) {
            Some(ty) => Some((ty, i + 1)),
            None => None,
        }
    } else {
        None
    }
}

pub proof fn lemma_sp_stream_type_progress(t: Seq<TokenView>, i: int)
    ensures
        sp_stream_type(t, i) matches Some(r) ==> 0 <= i < r.1 <= t.len(),
{
}

/// An RPC definition: `rpc`, name, parenthesized input, `returns`,
/// parenthesized output, then `;` or an empty `{` `}` body.
pub open spec fn sp_rpc(t: Seq<TokenView>, i: int) -> Option<(MethodView, int)> {
    if 0 <= i && i + 2 < t.len() && t[i] == TokenView::Ident("rpc"@) && t[i + 2]
        == TokenView::Sym('(') {
        match tv_ident(t[i + 1]) {
            Some(nm) => match sp_stream_type(t, i + 3) {
                Some((ity, j)) => {
                    if j + 2 < t.len() && t[j] == TokenView::Sym(')') && t[j + 1]
                        == TokenView::Ident("returns"@) && t[j + 2] == TokenView::Sym('(') {
                        match sp_stream_type(t, j + 3) {
                            Some((oty, k)) => {
                                if k < t.len() && t[k] == TokenView::Sym(')') {
                                    let m = MethodView {
                                        name: nm,
                                        input_type: ity,
                                        output_type: oty,
                                    };
                                    if k + 1 < t.len() && t[k + 1] == TokenView::Sym(';') {
                                        Some((m, k + 2))
                                    } else if k + 2 < t.len() && t[k + 1] == TokenView::Sym('{')
                                        && t[k + 2] == TokenView::Sym('}') {
                                        Some((m, k + 3))
                                    } else {
                                        None
                                    }
                                } else {
                                    None
                                }
                            },
                            None => None,
                        }
                    } else {
                        None
                    }
                },
                None => None,
            },
            None => None,
        }
    } else {
        None
    }
}

pub proof fn lemma_sp_rpc_progress(t: Seq<TokenView>, i: int)
    ensures
        sp_rpc(t, i) matches Some(r) ==> 0 <= i < r.1 <= t.len(),
{
    if 0 <= i && i + 2 < t.len() {
        lemma_sp_stream_type_progress(t, i + 3);
        if let Some((ity, j)) = sp_stream_type(t, i + 3) {
            lemma_sp_stream_type_progress(t, j + 3);
        }
    }
}

/// The RPC definitions of a service body, as many as match.
pub open spec fn sp_rpcs(t: Seq<TokenView>, i: int) -> Option<(Seq<MethodView>, int)>
    decreases t.len() - i,
{
    match sp_rpc(t, i) {
        Some((m, j)) => {
            proof {
                lemma_sp_rpc_progress(t, i);
            }
            match sp_rpcs(t, j) {
                Some((ms, k)) => Some((seq![m] + ms, k)),
                None => None,
            }
        },
        None => Some((Seq::empty(), i)),
    }
}

pub proof fn lemma_sp_rpcs_progress(t: Seq<TokenView>, i: int)
    ensures
        sp_rpcs(t, i) matches Some(r) ==> i <= r.1 <= t.len() || (i > t.len() && r.1 == i),
    decreases t.len() - i,
{
    if let Some((m, j)) = sp_rpc(t, i) {
        lemma_sp_rpc_progress(t, i);
        lemma_sp_rpcs_progress(t, j);
    }
}

/// A service definition: `service`, name, `{`, RPCs, `}`.
pub open spec fn sp_service(t: Seq<TokenView>, i: int) -> Option<(ServiceView, int)> {
    if 0 <= i && i + 2 < t.len() && t[i] == TokenView::Ident("service"@) && t[i + 2]
        == TokenView::Sym('{') {
        match tv_ident(t[i + 1]) {
            Some(nm) => match sp_rpcs(t, i + 3) {
                Some((ms, j)) => {
                    if j < t.len() && t[j] == TokenView::Sym('}') {
                        Some((ServiceView { name: nm, methods: ms }, j + 1))
                    } else {
                        None
                    }
                },
                None => None,
            },
            None => None,
        }
    } else {
        None
    }
}

pub proof fn lemma_sp_service_progress(t: Seq<TokenView>, i: int)
    ensures
        sp_service(t, i) matches Some(r) ==> 0 <= i < r.1 <= t.len(),
{
    if 0 <= i && i + 2 < t.len() {
        lemma_sp_rpcs_progress(t, i + 3);
    }
}

/// A message definition: `message`, name, `{`, elements, `}`.
pub open spec fn sp_message(t: Seq<TokenView>, i: int) -> Option<(MessageView, int)>
    decreases t.len() - i, 0int,
{
    if 0 <= i && i + 2 < t.len() && t[i] == TokenView::Ident("message"@) && t[i + 2]
        == TokenView::Sym('{') {
        match tv_ident(t[i + 1]) {
            Some(nm) => match sp_elements(t, i + 3) {
                Some(((fs, ms, es), j)) => {
                    if j < t.len() && t[j] == TokenView::Sym('}') {
                        Some(
                            (
                                MessageView {
                                    name: nm,
                                    fields: fs,
                                    nested_messages: ms,
                                    nested_enums: es,
                                },
                                j + 1,
                            ),
                        )
                    } else {
                        None
                    }
                },
                None => None,
            },
            None => None,
        }
    } else {
        None
    }
}

/// The body of a message: fields, nested messages, nested enums and no-op `;`
/// statements, in any order, each kept in source order within its kind.
pub open spec fn sp_elements(t: Seq<TokenView>, i: int) -> Option<
    ((Seq<FieldView>, Seq<MessageView>, Seq<EnumDefView>), int),
>
    decreases t.len() - i, 1int,
{
    if 0 <= i < t.len() && t[i] == TokenView::Sym(';') {
        sp_elements(t, i + 1)
    } else if 0 <= i && i + 2 < t.len() && t[i] == TokenView::Ident("message"@) && t[i + 2]
        == TokenView::Sym('{') {
        match sp_message(t, i) {
            Some((m, j)) => {
                if i < j <= t.len() {
                    match sp_elements(t, j) {
                        Some(((fs, ms, es), k)) => Some(((fs, seq![m] + ms, es), k)),
                        None => None,
                    }
                } else {
                    None
                }
            },
            None => None,
        }
    } else if 0 <= i && i + 2 < t.len() && t[i] == TokenView::Ident("enum"@) && t[i + 2]
        == TokenView::Sym('{') {
        match sp_enum_def(t, i) {
            Some((e, j)) => {
                proof {
                    lemma_sp_enum_def_progress(t, i);
                }
                match sp_elements(t, j) {
                    Some(((fs, ms, es), k)) => Some(((fs, ms, seq![e] + es), k)),
                    None => None,
                }
            },
            None => None,
        }
    } else if 0 <= i < t.len() && tv_ident(t[i]) is Some {
        match sp_field(t, i) {
            Some((f, j)) => {
                proof {
                    lemma_sp_field_progress(t, i);
                }
                match sp_elements(t, j) {
                    Some(((fs, ms, es), k)) => Some(((seq![f] + fs, ms, es), k)),
                    None => None,
                }
            },
            None => None,
        }
    } else {
        Some(((Seq::empty(), Seq::empty(), Seq::empty()), i))
    }
}

pub proof fn lemma_sp_message_progress(t: Seq<TokenView>, i: int)
    ensures
        sp_message(t, i) matches Some(r) ==> 0 <= i < r.1 <= t.len(),
    decreases t.len() - i, 0int,
{
    if 0 <= i && i + 2 < t.len() && t[i] == TokenView::Ident("message"@) && t[i + 2]
        == TokenView::Sym('{') {
        lemma_sp_elements_progress(t, i + 3);
    }
}

pub proof fn lemma_sp_elements_progress(t: Seq<TokenView>, i: int)
    ensures
        sp_elements(t, i) matches Some(r) ==> i <= r.1 <= t.len() || (i > t.len() && r.1 == i),
    decreases t.len() - i, 1int,
{
    if 0 <= i < t.len() && t[i] == TokenView::Sym(';') {
        lemma_sp_elements_progress(t, i + 1);
    } else if 0 <= i && i + 2 < t.len() && t[i] == TokenView::Ident("message"@) && t[i + 2]
        == TokenView::Sym('{') {
        lemma_sp_message_progress(t, i);
        if let Some((m, j)) = sp_message(t, i) {
            if i < j <= t.len() {
                lemma_sp_elements_progress(t, j);
            }
        }
    } else if 0 <= i && i + 2 < t.len() && t[i] == TokenView::Ident("enum"@) && t[i + 2]
        == TokenView::Sym('{') {
        lemma_sp_enum_def_progress(t, i);
        if let Some((e, j)) = sp_enum_def(t, i) {
            lemma_sp_elements_progress(t, j);
        }
    } else if 0 <= i < t.len() && tv_ident(t[i]) is Some {
        lemma_sp_field_progress(t, i);
        if let Some((f, j)) = sp_field(t, i) {
            lemma_sp_elements_progress(t, j);
        }
    }
}

/// The import statements at the top of a file, as many as match.
pub open spec fn sp_imports(t: Seq<TokenView>, i: int) -> Option<(Seq<Seq<char>>, int)>
    decreases t.len() - i,
{
    if 0 <= i < t.len() && t[i] == TokenView::Ident("import"@) {
        if i + 2 < t.len() && t[i + 2] == TokenView::Sym(';') {
            match tv_str(t[i + 1]) {
                Some(path) => match sp_imports(t, i + 3) {
                    Some((ps, j)) => Some((seq![path] + ps, j)),
                    None => None,
                },
                None => None,
            }
        } else {
            None
        }
    } else {
        Some((Seq::empty(), i))
    }
}

pub proof fn lemma_sp_imports_progress(t: Seq<TokenView>, i: int)
    ensures
        sp_imports(t, i) matches Some(r) ==> i <= r.1 <= t.len() || (i > t.len() && r.1 == i),
    decreases t.len() - i,
{
    if 0 <= i < t.len() && t[i] == TokenView::Ident("import"@) && i + 2 < t.len() && t[i + 2]
        == TokenView::Sym(';') && tv_str(t[i + 1]) is Some {
        lemma_sp_imports_progress(t, i + 3);
    }
}

/// The top-level message, enum and service definitions, as many as match.
pub open spec fn sp_topdecls(t: Seq<TokenView>, i: int) -> Option<
    ((Seq<MessageView>, Seq<EnumDefView>, Seq<ServiceView>), int),
>
    decreases t.len() - i,
{
    if 0 <= i && i + 2 < t.len() && t[i] == TokenView::Ident("message"@) && t[i + 2]
        == TokenView::Sym('{') {
        match sp_message(t, i) {
            Some((m, j)) => {
                proof {
                    lemma_sp_message_progress(t, i);
                }
                match sp_topdecls(t, j) {
                    Some(((ms, es, ss), k)) => Some(((seq![m] + ms, es, ss), k)),
                    None => None,
                }
            },
            None => None,
        }
    } else if 0 <= i && i + 2 < t.len() && t[i] == TokenView::Ident("enum"@) && t[i + 2]
        == TokenView::Sym('{') {
        match sp_enum_def(t, i) {
            Some((e, j)) => {
                proof {
                    lemma_sp_enum_def_progress(t, i);
                }
                match sp_topdecls(t, j) {
                    Some(((ms, es, ss), k)) => Some(((ms, seq![e] + es, ss), k)),
                    None => None,
                }
            },
            None => None,
        }
    } else if 0 <= i && i + 2 < t.len() && t[i] == TokenView::Ident("service"@) && t[i + 2]
        == TokenView::Sym('{') {
        match sp_service(t, i) {
            Some((s, j)) => {
                proof {
                    lemma_sp_service_progress(t, i);
                }
                match sp_topdecls(t, j) {
                    Some(((ms, es, ss), k)) => Some(((ms, es, seq![s] + ss), k)),
                    None => None,
                }
            },
            None => None,
        }
    } else {
        Some(((Seq::empty(), Seq::empty(), Seq::empty()), i))
    }
}

/// A whole proto file over its tokens: an optional `syntax` statement, an
/// optional `package` statement, imports, then top-level definitions, with
/// nothing after them.  An absent `syntax` statement defaults to `proto3`.
pub open spec fn sp_proto_toks(t: Seq<TokenView>) -> Option<ProtoView> {
    let (syn, i1): (Seq<char>, int) = if t.len() > 0 && t[0] == TokenView::Ident("syntax"@) {
        if t.len() > 3 && t[1] == TokenView::Sym('=') && tv_str(t[2]) is Some && t[3]
            == TokenView::Sym(';') {
            (tv_str(t[2]).unwrap(), 4)
        } else {
            (Seq::empty(), -1)
        }
    } else {
        ("proto3"@, 0)
    };
    if i1 < 0 {
        None
    } else {
        let pkg_step: Option<(Option<Seq<char>>, int)> = if i1 < t.len() && t[i1]
            == TokenView::Ident("package"@) {
            match sp_dotted(t, i1 + 1) {
                Some((d, j)) => {
                    if j < t.len() && t[j] == TokenView::Sym(';') {
                        Some((Some(d), j + 1))
                    } else {
                        None
                    }
                },
                None => None,
            }
        } else {
            Some((None, i1))
        };
        match pkg_step {
            None => None,
            Some((pkg, i2)) => match sp_imports(t, i2) {
                Some((imps, i3)) => match sp_topdecls(t, i3) {
                    Some(((ms, es, ss), i4)) => {
                        if i4 == t.len() {
                            Some(
                                ProtoView {
                                    syntax: syn,
                                    package: pkg,
                                    imports: imps,
                                    messages: ms,
                                    enums: es,
                                    services: ss,
                                },
                            )
                        } else {
                            None
                        }
                    },
                    None => None,
                },
                None => None,
            },
        }
    }
}

/// A whole proto file over its source text.
pub open spec fn spec_parse(s: Seq<char>) -> Option<ProtoView> {
    match crate::lex::spec_tokens(s) {
        Some(ts) => sp_proto_toks(ts),
        None => None,
    }
}

/// A token as the lexer produces it: identifier and number payloads are
/// non-empty and lie in their character classes, string-literal payloads are
/// quoted path-like text, and punctuation is drawn from the symbol set.
pub open spec fn wf_token(t: TokenView) -> bool {
    match t {
        TokenView::Ident(s) => wf_ident(s),
        TokenView::Number(s) => wf_digits(s),
        TokenView::StrLit(s) => s.len() >= 2 && s[0] == '"' && s[s.len() - 1] == '"' && wf_str(
            strip_quotes(s),
        ),
        TokenView::Sym(c) => is_sym(c),
    }
}

/// Every token the lexer yields is well formed.
pub proof fn lemma_lex_from_wf(s: Seq<char>, i: int)
    ensures
        lex_from(s, i) matches Some(ts) ==> forall|k: int|
            0 <= k < ts.len() ==> wf_token(#[trigger] ts[k]),
    decreases s.len() - i,
{
    lemma_skip_ws_bounds(s, i);
    if let Some(j) = skip_ws(s, i) {
        if j >= s.len() || j < 0 {
        } else if is_letter(s[j]) {
            lemma_ident_end_bounds(s, j);
            lemma_ident_end_bounds(s, j + 1);
            let e = ident_end(s, j);
            lemma_lex_from_wf(s, e);
            assert(wf_ident(s.subrange(j, e)));
        } else if is_digit(s[j]) {
            lemma_digit_end_bounds(s, j);
            lemma_digit_end_bounds(s, j + 1);
            let e = digit_end(s, j);
            lemma_lex_from_wf(s, e);
            assert(wf_digits(s.subrange(j, e)));
        } else if s[j] == '"' {
            lemma_str_end_bounds(s, j + 1);
            if let Some(e) = str_end(s, j + 1) {
                lemma_lex_from_wf(s, e + 1);
                let lit = s.subrange(j, e + 1);
                assert(strip_quotes(lit) =~= s.subrange(j + 1, e));
                assert(wf_token(TokenView::StrLit(lit)));
            }
        } else if is_sym(s[j]) {
            lemma_lex_from_wf(s, j + 1);
        }
    }
}

/// Every token of a vector is well formed.
pub(crate) open spec fn wf_tokens(ts: Seq<Token>) -> bool {
    forall|k: int| 0 <= k < ts.len() ==> wf_token((#[trigger] ts[k])@)
}

fn chars_eq_str(v: &Vec<char>, w: &str) -> (r: bool)
    ensures
        r == (v@ == w@),
{
    let n: usize = w.unicode_len();
    if v.len() != n {
        return false;
    }
    let mut i: usize = 0;
    while i < n
        invariant
            0 <= i <= n,
            n == w@.len(),
            n == v@.len(),
            forall|k: int| 0 <= k < i ==> v@[k] == w@[k],
        decreases n - i,
    {
        if v[i] != w.get_char(i) {
            return false;
        }
        i = i + 1;
    }
    proof {
        assert(v@ =~= w@);
    }
    true
}

fn tok_is_kw(t: &Token, w: &str) -> (r: bool)
    ensures
        r == (t@ == TokenView::Ident(w@)),
{
    match t {
        Token::Ident(v) => chars_eq_str(v, w),
        _ => false,
    }
}

fn tok_is_sym(t: &Token, c: char) -> (r: bool)
    ensures
        r == (t@ == TokenView::Sym(c)),
{
    match t {
        Token::Sym(d) => *d == c,
        _ => false,
    }
}

fn tok_is_ident(t: &Token) -> (r: bool)
    ensures
        r == (tv_ident(t@) is Some),
{
    match t {
        Token::Ident(_) => true,
        _ => false,
    }
}

/// Joining an identifier to a dotted tail with a dot keeps the dotted shape.
proof fn lemma_wf_dotted_join(a: Seq<char>, b: Seq<char>)
    requires
        wf_ident(a),
        wf_dotted(b),
    ensures
        wf_dotted(a + seq!['.'] + b),
{
    let s = a + seq!['.'] + b;
    assert forall|k: int| 0 <= k < s.len() implies is_ident_char(#[trigger] s[k]) || s[k]
        == '.' by {
        if k < a.len() {
            assert(s[k] == a[k]);
        } else if k == a.len() {
            assert(s[k] == '.');
        } else {
            assert(s[k] == b[k - a.len() - 1]);
        }
    }
}

fn p_dotted(t: &Vec<Token>, i: usize) -> (r: Option<(String, usize)>)
    requires
        wf_tokens(t@),
        i <= t@.len(),
    ensures
        match r {
            Some((s, j)) => sp_dotted(toks_view(t@), i as int) == Some((s@, j as int)) && i < j
                <= t@.len() && wf_dotted(s@),
            None => sp_dotted(toks_view(t@), i as int) is None,
        },
    decreases t@.len() - i,
{
    let ghost tv = toks_view(t@);
    if i >= t.len() {
        return None;
    }
    match &t[i] {
        Token::Ident(v) => {
            if t.len() > 2 && i < t.len() - 2 && tok_is_sym(&t[i + 1], '.') && tok_is_ident(&t[i + 2]) {
                match p_dotted(t, i + 2) {
                    Some((rest, j)) => {
                        let mut s = chars_to_string(v);
                        s.append(".");
                        s.append(rest.as_str());
                        proof {
                            reveal_strlit(".");
                            assert(wf_token(t@[i as int]@));
                            assert(s@ =~= v@ + seq!['.'] + rest@);
                            lemma_wf_dotted_join(v@, rest@);
                        }
                        Some((s, j))
                    },
                    None => None,
                }
            } else {
                let s = chars_to_string(v);
                proof {
                    assert(wf_token(t@[i as int]@));
                }
                Some((s, i + 1))
            }
        },
        _ => None,
    }
}

fn p_field_tail(t: &Vec<Token>, i: usize, rep: bool) -> (r: Option<(Field, usize)>)
    requires
        wf_tokens(t@),
        i <= t@.len(),
    ensures
        match r {
            Some((f, j)) => sp_field_tail(toks_view(t@), i as int, rep) == Some((f@, j as int))
                && i < j <= t@.len() && f@.wf(),
            None => sp_field_tail(toks_view(t@), i as int, rep) is None,
        },
{
    let ghost tv = toks_view(t@);
    let (ty, j) = match p_dotted(t, i) {
        Some(x) => x,
        None => {
            return None;
        },
    };
    if !(t.len() > 3 && j < t.len() - 3 && tok_is_sym(&t[j + 1], '=') && tok_is_sym(&t[j + 3], ';')) {
        return None;
    }
    let nm = match &t[j] {
        Token::Ident(v) => {
            proof {
                assert(wf_token(t@[j as int]@));
            }
            chars_to_string(v)
        },
        _ => {
            return None;
        },
    };
    let dg = match &t[j + 2] {
        Token::Number(v) => v,
        _ => {
            return None;
        },
    };
    proof {
        assert(wf_token(t@[j + 2]@));
    }
    let tag = tag_value(dg);
    let f = Field { name: nm, type_ref: ty, tag, repeated: rep };
    Some((f, j + 4))
}

/// Parses one field; the result is `repeated` exactly when the leading
/// modifier token is the literal `repeated`.
fn p_field(t: &Vec<Token>, i: usize) -> (r: Option<(Field, usize)>)
    requires
        wf_tokens(t@),
        i <= t@.len(),
    ensures
        match r {
            Some((f, j)) => sp_field(toks_view(t@), i as int) == Some((f@, j as int)) && i < j
                <= t@.len() && f@.wf(),
            None => sp_field(toks_view(t@), i as int) is None,
        },
{
    if i < t.len() && (tok_is_kw(&t[i], "repeated") || tok_is_kw(&t[i], "optional") || tok_is_kw(
        &t[i],
        "required",
    )) {
        p_field_tail(t, i + 1, tok_is_kw(&t[i], "repeated"))
    } else {
        p_field_tail(t, i, false)
    }
}

fn p_enum_value(t: &Vec<Token>, i: usize) -> (r: Option<(EnumValue, usize)>)
    requires
        wf_tokens(t@),
        i <= t@.len(),
    ensures
        match r {
            Some((v, j)) => sp_enum_value(toks_view(t@), i as int) == Some((v@, j as int)) && i < j
                <= t@.len() && v@.wf(),
            None => sp_enum_value(toks_view(t@), i as int) is None,
        },
{
    if !(t.len() > 3 && i < t.len() - 3 && tok_is_sym(&t[i + 1], '=') && tok_is_sym(
        &t[i + 3],
        ';',
    )) {
        return None;
    }
    let nm = match &t[i] {
        Token::Ident(v) => {
            proof {
                assert(wf_token(t@[i as int]@));
            }
            chars_to_string(v)
        },
        _ => {
            return None;
        },
    };
    let dg = match &t[i + 2] {
        Token::Number(v) => v,
        _ => {
            return None;
        },
    };
    proof {
        assert(wf_token(t@[i + 2]@));
    }
    let number = tag_value(dg);
    Some((EnumValue { name: nm, number }, i + 4))
}

fn p_enum_values(t: &Vec<Token>, i: usize) -> (r: (Vec<EnumValue>, usize))
    requires
        wf_tokens(t@),
        i <= t@.len(),
    ensures
        sp_enum_values(toks_view(t@), i as int) == Some((vals_view(r.0@), r.1 as int)),
        i <= r.1 <= t@.len(),
        all_wf_vals(vals_view(r.0@)),
    decreases t@.len() - i,
{
    match p_enum_value(t, i) {
        Some((v, j)) => {
            let (mut vs, k) = p_enum_values(t, j);
            let ghost tail = vs@;
            vs.insert(0, v);
            proof {
                assert(vals_view(vs@) =~= seq![v@] + vals_view(tail));
            }
            (vs, k)
        },
        None => {
            let vs: Vec<EnumValue> = Vec::new();
            proof {
                assert(vals_view(vs@) =~= Seq::<EnumValueView>::empty());
            }
            (vs, i)
        },
    }
}

fn p_enum_def(t: &Vec<Token>, i: usize) -> (r: Option<(EnumDef, usize)>)
    requires
        wf_tokens(t@),
        i <= t@.len(),
    ensures
        match r {
            Some((e, j)) => sp_enum_def(toks_view(t@), i as int) == Some((e@, j as int)) && i < j
                <= t@.len() && e@.wf(),
            None => sp_enum_def(toks_view(t@), i as int) is None,
        },
{
    if !(t.len() > 2 && i < t.len() - 2 && tok_is_kw(&t[i], "enum") && tok_is_sym(&t[i + 2], '{'))
    {
        return None;
    }
    let nm = match &t[i + 1] {
        Token::Ident(v) => {
            proof {
                assert(wf_token(t@[i + 1]@));
            }
            chars_to_string(v)
        },
        _ => {
            return None;
        },
    };
    let (vs, j) = p_enum_values(t, i + 3);
    if j < t.len() && tok_is_sym(&t[j], '}') {
        Some((EnumDef { name: nm, values: vs }, j + 1))
    } else {
        None
    }
}

fn p_stream_type(t: &Vec<Token>, i: usize) -> (r: Option<(String, usize)>)
    requires
        wf_tokens(t@),
        i <= t@.len(),
    ensures
        match r {
            Some((ty, j)) => sp_stream_type(toks_view(t@), i as int) == Some((ty@, j as int)) && i
                < j <= t@.len() && wf_ident(ty@),
            None => sp_stream_type(toks_view(t@), i as int) is None,
        },
{
    if i >= t.len() {
        return None;
    }
    if tok_is_kw(&t[i], "stream") {
        if i + 1 < t.len() {
            match &t[i + 1] {
                Token::Ident(v) => {
                    proof {
                        assert(wf_token(t@[i + 1]@));
                    }
                    Some((chars_to_string(v), i + 2))
                },
                _ => None,
            }
        } else {
            None
        }
    } else {
        match &t[i] {
            Token::Ident(v) => {
                proof {
                    assert(wf_token(t@[i as int]@));
                }
                Some((chars_to_string(v), i + 1))
            },
            _ => None,
        }
    }
}

fn p_rpc(t: &Vec<Token>, i: usize) -> (r: Option<(Method, usize)>)
    requires
        wf_tokens(t@),
        i <= t@.len(),
    ensures
        match r {
            Some((m, j)) => sp_rpc(toks_view(t@), i as int) == Some((m@, j as int)) && i < j
                <= t@.len() && m@.wf(),
            None => sp_rpc(toks_view(t@), i as int) is None,
        },
{
    if !(t.len() > 2 && i < t.len() - 2 && tok_is_kw(&t[i], "rpc") && tok_is_sym(&t[i + 2], '(')) {
        return None;
    }
    let nm = match &t[i + 1] {
        Token::Ident(v) => {
            proof {
                assert(wf_token(t@[i + 1]@));
            }
            chars_to_string(v)
        },
        _ => {
            return None;
        },
    };
    let (ity, j) = match p_stream_type(t, i + 3) {
        Some(x) => x,
        None => {
            return None;
        },
    };
    if !(t.len() > 2 && j < t.len() - 2 && tok_is_sym(&t[j], ')') && tok_is_kw(&t[j + 1], "returns")
        && tok_is_sym(&t[j + 2], '(')) {
        return None;
    }
    let (oty, k) = match p_stream_type(t, j + 3) {
        Some(x) => x,
        None => {
            return None;
        },
    };
    if !(k < t.len() && tok_is_sym(&t[k], ')')) {
        return None;
    }
    let m = Method { name: nm, input_type: ity, output_type: oty };
    if t.len() > 1 && k < t.len() - 1 && tok_is_sym(&t[k + 1], ';') {
        Some((m, k + 2))
    } else if t.len() > 2 && k < t.len() - 2 && tok_is_sym(&t[k + 1], '{') && tok_is_sym(
        &t[k + 2],
        '}',
    ) {
        Some((m, k + 3))
    } else {
        None
    }
}

fn p_rpcs(t: &Vec<Token>, i: usize) -> (r: (Vec<Method>, usize))
    requires
        wf_tokens(t@),
        i <= t@.len(),
    ensures
        sp_rpcs(toks_view(t@), i as int) == Some((methods_view(r.0@), r.1 as int)),
        i <= r.1 <= t@.len(),
        all_wf_methods(methods_view(r.0@)),
    decreases t@.len() - i,
{
    match p_rpc(t, i) {
        Some((m, j)) => {
            let (mut ms, k) = p_rpcs(t, j);
            let ghost tail = ms@;
            ms.insert(0, m);
            proof {
                assert(methods_view(ms@) =~= seq![m@] + methods_view(tail));
            }
            (ms, k)
        },
        None => {
            let ms: Vec<Method> = Vec::new();
            proof {
                assert(methods_view(ms@) =~= Seq::<MethodView>::empty());
            }
            (ms, i)
        },
    }
}

fn p_service(t: &Vec<Token>, i: usize) -> (r: Option<(Service, usize)>)
    requires
        wf_tokens(t@),
        i <= t@.len(),
    ensures
        match r {
            Some((s, j)) => sp_service(toks_view(t@), i as int) == Some((s@, j as int)) && i < j
                <= t@.len() && s@.wf(),
            None => sp_service(toks_view(t@), i as int) is None,
        },
{
    if !(t.len() > 2 && i < t.len() - 2 && tok_is_kw(&t[i], "service") && tok_is_sym(
        &t[i + 2],
        '{',
    )) {
        return None;
    }
    let nm = match &t[i + 1] {
        Token::Ident(v) => {
            proof {
                assert(wf_token(t@[i + 1]@));
            }
            chars_to_string(v)
        },
        _ => {
            return None;
        },
    };
    let (ms, j) = p_rpcs(t, i + 3);
    if j < t.len() && tok_is_sym(&t[j], '}') {
        Some((Service { name: nm, methods: ms }, j + 1))
    } else {
        None
    }
}

fn p_message(t: &Vec<Token>, i: usize) -> (r: Option<(Message, usize)>)
    requires
        wf_tokens(t@),
        i <= t@.len(),
    ensures
        match r {
            Some((m, j)) => sp_message(toks_view(t@), i as int) == Some((m@, j as int)) && i < j
                <= t@.len() && m@.wf(),
            None => sp_message(toks_view(t@), i as int) is None,
        },
    decreases t@.len() - i, 0int,
{
    if !(t.len() > 2 && i < t.len() - 2 && tok_is_kw(&t[i], "message") && tok_is_sym(
        &t[i + 2],
        '{',
    )) {
        return None;
    }
    let nm = match &t[i + 1] {
        Token::Ident(v) => {
            proof {
                assert(wf_token(t@[i + 1]@));
            }
            chars_to_string(v)
        },
        _ => {
            return None;
        },
    };
    let (fs, ms, es, j) = match p_elements(t, i + 3) {
        Some(x) => x,
        None => {
            return None;
        },
    };
    if j < t.len() && tok_is_sym(&t[j], '}') {
        let m = Message { name: nm, fields: fs, nested_messages: ms, nested_enums: es };
        Some((m, j + 1))
    } else {
        None
    }
}

fn p_elements(t: &Vec<Token>, i: usize) -> (r: Option<
    (Vec<Field>, Vec<Message>, Vec<EnumDef>, usize),
>)
    requires
        wf_tokens(t@),
        i <= t@.len(),
    ensures
        match r {
            Some((fs, ms, es, j)) => sp_elements(toks_view(t@), i as int) == Some(
                ((fields_view(fs@), msgs_view(ms@), enums_view(es@)), j as int),
            ) && i <= j <= t@.len() && all_wf_fields(fields_view(fs@)) && all_wf_msgs(
                msgs_view(ms@),
            ) && all_wf_enums(enums_view(es@)),
            None => sp_elements(toks_view(t@), i as int) is None,
        },
    decreases t@.len() - i, 1int,
{
    let ghost tv = toks_view(t@);
    if i < t.len() && tok_is_sym(&t[i], ';') {
        return p_elements(t, i + 1);
    }
    if t.len() > 2 && i < t.len() - 2 && tok_is_kw(&t[i], "message") && tok_is_sym(&t[i + 2], '{')
    {
        return match p_message(t, i) {
            Some((m, j)) => match p_elements(t, j) {
                Some((fs, mut ms, es, k)) => {
                    let ghost tail = ms@;
                    ms.insert(0, m);
                    proof {
                        lemma_msgs_view(ms@);
                        lemma_msgs_view(tail);
                        assert(msgs_view(ms@) =~= seq![m@] + msgs_view(tail));
                    }
                    Some((fs, ms, es, k))
                },
                None => None,
            },
            None => None,
        };
    }
    if t.len() > 2 && i < t.len() - 2 && tok_is_kw(&t[i], "enum") && tok_is_sym(&t[i + 2], '{') {
        return match p_enum_def(t, i) {
            Some((e, j)) => match p_elements(t, j) {
                Some((fs, ms, mut es, k)) => {
                    let ghost tail = es@;
                    es.insert(0, e);
                    proof {
                        assert(enums_view(es@) =~= seq![e@] + enums_view(tail));
                    }
                    Some((fs, ms, es, k))
                },
                None => None,
            },
            None => None,
        };
    }
    if i < t.len() && tok_is_ident(&t[i]) {
        return match p_field(t, i) {
            Some((f, j)) => match p_elements(t, j) {
                Some((mut fs, ms, es, k)) => {
                    let ghost tail = fs@;
                    fs.insert(0, f);
                    proof {
                        assert(fields_view(fs@) =~= seq![f@] + fields_view(tail));
                    }
                    Some((fs, ms, es, k))
                },
                None => None,
            },
            None => None,
        };
    }
    let fs: Vec<Field> = Vec::new();
    let ms: Vec<Message> = Vec::new();
    let es: Vec<EnumDef> = Vec::new();
    proof {
        assert(fields_view(fs@) =~= Seq::<FieldView>::empty());
        assert(msgs_view(ms@) =~= Seq::<MessageView>::empty());
        assert(enums_view(es@) =~= Seq::<EnumDefView>::empty());
    }
    Some((fs, ms, es, i))
}

fn p_imports(t: &Vec<Token>, i: usize) -> (r: Option<(Vec<String>, usize)>)
    requires
        wf_tokens(t@),
        i <= t@.len(),
    ensures
        match r {
            Some((ps, j)) => sp_imports(toks_view(t@), i as int) == Some(
                (strings_view(ps@), j as int),
            ) && i <= j <= t@.len() && all_wf_strs(strings_view(ps@)),
            None => sp_imports(toks_view(t@), i as int) is None,
        },
    decreases t@.len() - i,
{
    if !(i < t.len() && tok_is_kw(&t[i], "import")) {
        let ps: Vec<String> = Vec::new();
        proof {
            assert(strings_view(ps@) =~= Seq::<Seq<char>>::empty());
        }
        return Some((ps, i));
    }
    if !(t.len() > 2 && i < t.len() - 2 && tok_is_sym(&t[i + 2], ';')) {
        return None;
    }
    let path = match &t[i + 1] {
        Token::StrLit(v) => {
            proof {
                assert(wf_token(t@[i + 1]@));
            }
            strlit_contents(v)
        },
        _ => {
            return None;
        },
    };
    match p_imports(t, i + 3) {
        Some((mut ps, j)) => {
            let ghost tail = ps@;
            ps.insert(0, path);
            proof {
                assert(strings_view(ps@) =~= seq![path@] + strings_view(tail));
            }
            Some((ps, j))
        },
        None => None,
    }
}

fn p_topdecls(t: &Vec<Token>, i: usize) -> (r: Option<
    (Vec<Message>, Vec<EnumDef>, Vec<Service>, usize),
>)
    requires
        wf_tokens(t@),
        i <= t@.len(),
    ensures
        match r {
            Some((ms, es, ss, j)) => sp_topdecls(toks_view(t@), i as int) == Some(
                ((msgs_view(ms@), enums_view(es@), services_view(ss@)), j as int),
            ) && i <= j <= t@.len() && all_wf_msgs(msgs_view(ms@)) && all_wf_enums(enums_view(es@))
                && all_wf_services(services_view(ss@)),
            None => sp_topdecls(toks_view(t@), i as int) is None,
        },
    decreases t@.len() - i,
{
    if t.len() > 2 && i < t.len() - 2 && tok_is_kw(&t[i], "message") && tok_is_sym(&t[i + 2], '{')
    {
        return match p_message(t, i) {
            Some((m, j)) => match p_topdecls(t, j) {
                Some((mut ms, es, ss, k)) => {
                    let ghost tail = ms@;
                    ms.insert(0, m);
                    proof {
                        lemma_msgs_view(ms@);
                        lemma_msgs_view(tail);
                        assert(msgs_view(ms@) =~= seq![m@] + msgs_view(tail));
                    }
                    Some((ms, es, ss, k))
                },
                None => None,
            },
            None => None,
        };
    }
    if t.len() > 2 && i < t.len() - 2 && tok_is_kw(&t[i], "enum") && tok_is_sym(&t[i + 2], '{') {
        return match p_enum_def(t, i) {
            Some((e, j)) => match p_topdecls(t, j) {
                Some((ms, mut es, ss, k)) => {
                    let ghost tail = es@;
                    es.insert(0, e);
                    proof {
                        assert(enums_view(es@) =~= seq![e@] + enums_view(tail));
                    }
                    Some((ms, es, ss, k))
                },
                None => None,
            },
            None => None,
        };
    }
    if t.len() > 2 && i < t.len() - 2 && tok_is_kw(&t[i], "service") && tok_is_sym(&t[i + 2], '{')
    {
        return match p_service(t, i) {
            Some((s, j)) => match p_topdecls(t, j) {
                Some((ms, es, mut ss, k)) => {
                    let ghost tail = ss@;
                    ss.insert(0, s);
                    proof {
                        assert(services_view(ss@) =~= seq![s@] + services_view(tail));
                    }
                    Some((ms, es, ss, k))
                },
                None => None,
            },
            None => None,
        };
    }
    let ms: Vec<Message> = Vec::new();
    let es: Vec<EnumDef> = Vec::new();
    let ss: Vec<Service> = Vec::new();
    proof {
        assert(msgs_view(ms@) =~= Seq::<MessageView>::empty());
        assert(enums_view(es@) =~= Seq::<EnumDefView>::empty());
        assert(services_view(ss@) =~= Seq::<ServiceView>::empty());
    }
    Some((ms, es, ss, i))
}

/// Copies the characters between the quotes of a string-literal lexeme.
fn strlit_contents(v: &Vec<char>) -> (s: String)
    requires
        v@.len() >= 2,
    ensures
        s@ == strip_quotes(v@),
{
    let mut s = String::new();
    let mut k: usize = 1;
    while k < v.len() - 1
        invariant
            1 <= k <= v@.len() - 1,
            v@.len() >= 2,
            s@ == v@.subrange(1, k as int),
        decreases v@.len() - 1 - k,
    {
        push_char(&mut s, v[k]);
        proof {
            assert(v@.subrange(1, k as int).push(v@[k as int]) =~= v@.subrange(1, k + 1));
        }
        k = k + 1;
    }
    s
}

fn p_proto_toks(t: &Vec<Token>) -> (r: Option<Proto>)
    requires
        wf_tokens(t@),
    ensures
        match r {
            Some(p) => sp_proto_toks(toks_view(t@)) == Some(p@) && p@.wf(),
            None => sp_proto_toks(toks_view(t@)) is None,
        },
{
    let ghost tv = toks_view(t@);
    let (syntax, i1): (String, usize) = if t.len() > 0 && tok_is_kw(&t[0], "syntax") {
        if t.len() > 3 && tok_is_sym(&t[1], '=') && tok_is_sym(&t[3], ';') {
            match &t[2] {
                Token::StrLit(v) => {
                    proof {
                        assert(wf_token(t@[2]@));
                    }
                    (strlit_contents(v), 4)
                },
                _ => {
                    return None;
                },
            }
        } else {
            return None;
        }
    } else {
        ("proto3".to_owned(), 0)
    };
    proof {
        reveal_strlit("proto3");
        assert(wf_str(syntax@));
    }
    let (package, i2): (Option<String>, usize) = if i1 < t.len() && tok_is_kw(&t[i1], "package") {
        match p_dotted(t, i1 + 1) {
            Some((d, j)) => {
                if j < t.len() && tok_is_sym(&t[j], ';') {
                    (Some(d), j + 1)
                } else {
                    return None;
                }
            },
            None => {
                return None;
            },
        }
    } else {
        (None, i1)
    };
    let (imports, i3) = match p_imports(t, i2) {
        Some(x) => x,
        None => {
            return None;
        },
    };
    let (messages, enums, services, i4) = match p_topdecls(t, i3) {
        Some(x) => x,
        None => {
            return None;
        },
    };
    if i4 != t.len() {
        return None;
    }
    let p = Proto { syntax, package, imports, messages, enums, services };
    Some(p)
}

/// The grammar engine: parses Protocol Buffer source according to the
/// lexical and structural rules of the proto grammar.
pub struct ProtoParser;

impl ProtoParser {
    /// Parses proto source text into its typed syntax tree.  Succeeds exactly
    /// on the texts the grammar derives, and then yields the tree the grammar
    /// specification describes.
    pub fn parse_source(input: &str) -> (r: Result<Proto, ParserError>)
        ensures
            match r {
                Ok(p) => spec_parse(input@) == Some(p@) && p@.wf(),
                Err(e) => spec_parse(input@) is None && e is SyntaxError,
            },
    {
        let chars = str_to_chars(input);
        let toks = match tokenize(&chars) {
            Ok(ts) => ts,
            Err(off) => {
                let mut m = "unexpected input at character offset ".to_owned();
                m.append(render_u64(off as u64).as_str());
                return Err(ParserError::SyntaxError(m));
            },
        };
        proof {
            lemma_lex_from_wf(input@, 0);
            assert forall|k: int| 0 <= k < toks@.len() implies wf_token((#[trigger] toks@[k])@) by {
                assert(toks_view(toks@)[k] == toks@[k]@);
            }
        }
        match p_proto_toks(&toks) {
            Some(p) => Ok(p),
            None => Err(
                ParserError::SyntaxError(
                    "the token sequence does not match the proto grammar".to_owned(),
                ),
            ),
        }
    }
}

} // verus!
