//! Round-trip fidelity: the canonical JSON document of a well-formed tree
//! determines the tree.  Serialization is proved injective, so reading the
//! document back reproduces every declared name, type, tag and nesting
//! relationship exactly once, in source order.
//!
//! The proof works by unique decomposition: every piece of the format is
//! self-delimiting — quoted names hold no quote, numbers end at the first
//! non-digit, objects and lists open and close with fixed punctuation — so
//! equal documents force equal parts, layer by layer.

use vstd::prelude::*;
use crate::ast::{
    EnumDefView,
    MessageView,
    ProtoView,
    EnumValueView,
    ServiceView,
    FieldView,
    MethodView,
    all_wf_enums,
    all_wf_fields,
    all_wf_methods,
    all_wf_msgs,
    all_wf_services,
    all_wf_strs,
    all_wf_vals,
    wf_dotted,
    wf_ident,
    wf_str,
};
use crate::json::{
    json_of_bool,
    json_of_message,
    json_of_messages,
    json_of_package,
    json_of_proto,
    json_of_enum,
    json_of_enums,
    json_of_service,
    json_of_services,
    json_of_field,
    json_of_fields,
    json_of_imports,
    json_of_method,
    json_of_methods,
    json_of_value,
    json_of_values,
    jstr,
};
use crate::text::{dec_str, digit_char, int_str, is_digit, is_ident_char, is_str_char};

verus! {

/// Text free of double quotes, fit to stand between them.
pub open spec fn no_quote(s: Seq<char>) -> bool {
    forall|k: int| 0 <= k < s.len() ==> s[k] != '"'
}

/// Splitting equal concatenations at the same offset gives equal parts.
proof fn lemma_split_eq(a: Seq<char>, b: Seq<char>, c: Seq<char>, d: Seq<char>)
    requires
        a + b == c + d,
        a.len() == c.len(),
    ensures
        a == c,
        b == d,
{
    assert forall|k: int| 0 <= k < a.len() implies a[k] == c[k] by {
        assert(a[k] == (a + b)[k]);
        assert(c[k] == (c + d)[k]);
    }
    assert(a =~= c);
    assert((a + b).len() == a.len() + b.len());
    assert((c + d).len() == c.len() + d.len());
    assert(b.len() == d.len());
    assert forall|k: int| 0 <= k < b.len() implies b[k] == d[k] by {
        assert(b[k] == (a + b)[k + a.len()]);
        assert(d[k] == (c + d)[k + c.len()]);
    }
    assert(b =~= d);
}

/// Equal concatenations with the same head have the same tail.
proof fn lemma_strip_prefix(a: Seq<char>, x: Seq<char>, y: Seq<char>)
    requires
        a + x == a + y,
    ensures
        x == y,
{
    lemma_split_eq(a, x, a, y);
}

/// Identifier characters are not quotes.
proof fn lemma_ident_no_quote(s: Seq<char>)
    requires
        wf_ident(s),
    ensures
        no_quote(s),
{
    assert forall|k: int| 0 <= k < s.len() implies s[k] != '"' by {
        assert(is_ident_char(s[k]));
        assert(!is_ident_char('"'));
    }
}

/// Dotted-name characters are not quotes.
proof fn lemma_dotted_no_quote(s: Seq<char>)
    requires
        wf_dotted(s),
    ensures
        no_quote(s),
{
    assert forall|k: int| 0 <= k < s.len() implies s[k] != '"' by {
        assert(is_ident_char(s[k]) || s[k] == '.');
        assert(!is_ident_char('"'));
    }
}

/// String-literal characters are not quotes.
proof fn lemma_str_no_quote(s: Seq<char>)
    requires
        wf_str(s),
    ensures
        no_quote(s),
{
    assert forall|k: int| 0 <= k < s.len() implies s[k] != '"' by {
        assert(is_str_char(s[k]));
        assert(!is_str_char('"'));
    }
}

/// A quoted run of quote-free text is self-delimiting: equal texts from the
/// opening quote to the first closing quote, equal remainders after it.
proof fn lemma_jstr_prefix(s1: Seq<char>, s2: Seq<char>, r1: Seq<char>, r2: Seq<char>)
    requires
        no_quote(s1),
        no_quote(s2),
        jstr(s1) + r1 == jstr(s2) + r2,
    ensures
        s1 == s2,
        r1 == r2,
{
    reveal_strlit("\"");
    let w = jstr(s1) + r1;
    if s1.len() < s2.len() {
        let k: int = 1 + s1.len() as int;
        assert(w[k] == '"');
        assert(w[k] == (jstr(s2) + r2)[k]);
        assert((jstr(s2) + r2)[k] == s2[k - 1]);
        assert(false);
    }
    if s2.len() < s1.len() {
        let k: int = 1 + s2.len() as int;
        assert(w[k] == s1[k - 1]);
        assert(w[k] == (jstr(s2) + r2)[k]);
        assert((jstr(s2) + r2)[k] == '"');
        assert(false);
    }
    lemma_split_eq(jstr(s1), r1, jstr(s2), r2);
    assert forall|k: int| 0 <= k < s1.len() implies s1[k] == s2[k] by {
        assert(jstr(s1)[k + 1] == s1[k]);
        assert(jstr(s2)[k + 1] == s2[k]);
    }
    assert(s1 =~= s2);
}

/// A decimal rendering is non-empty, all digits, and at least two digits for
/// values of ten and above.
proof fn lemma_dec_str_props(n: int)
    requires
        n >= 0,
    ensures
        dec_str(n).len() >= 1,
        forall|k: int| 0 <= k < dec_str(n).len() ==> is_digit(#[trigger] dec_str(n)[k]),
        n >= 10 ==> dec_str(n).len() >= 2,
        n < 10 ==> dec_str(n).len() == 1,
    decreases n,
{
    if n >= 10 {
        lemma_dec_str_props(n / 10);
    }
}

/// Decimal rendering without leading zeros is injective.
proof fn lemma_dec_str_injective(a: int, b: int)
    requires
        a >= 0,
        b >= 0,
        dec_str(a) == dec_str(b),
    ensures
        a == b,
    decreases a,
{
    lemma_dec_str_props(a);
    lemma_dec_str_props(b);
    if a < 10 && b < 10 {
        assert(dec_str(a)[0] == digit_char(a));
        assert(dec_str(b)[0] == digit_char(b));
    } else if a >= 10 && b >= 10 {
        assert(dec_str(a).last() == digit_char(a % 10));
        assert(dec_str(b).last() == digit_char(b % 10));
        assert(a % 10 == b % 10);
        assert(dec_str(a).drop_last() =~= dec_str(a / 10));
        assert(dec_str(b).drop_last() =~= dec_str(b / 10));
        lemma_dec_str_injective(a / 10, b / 10);
    }
}

/// A decimal rendering followed by a non-digit is self-delimiting.
proof fn lemma_digits_prefix(a: int, b: int, r1: Seq<char>, r2: Seq<char>)
    requires
        a >= 0,
        b >= 0,
        dec_str(a) + r1 == dec_str(b) + r2,
        r1.len() > 0,
        r2.len() > 0,
        !is_digit(r1[0]),
        !is_digit(r2[0]),
    ensures
        a == b,
        r1 == r2,
{
    lemma_dec_str_props(a);
    lemma_dec_str_props(b);
    let la = dec_str(a).len() as int;
    let lb = dec_str(b).len() as int;
    if la < lb {
        assert((dec_str(a) + r1)[la] == r1[0]);
        assert((dec_str(b) + r2)[la] == dec_str(b)[la]);
        assert(false);
    }
    if lb < la {
        assert((dec_str(a) + r1)[lb] == dec_str(a)[lb]);
        assert((dec_str(b) + r2)[lb] == r2[0]);
        assert(false);
    }
    lemma_split_eq(dec_str(a), r1, dec_str(b), r2);
    lemma_dec_str_injective(a, b);
}

/// A JSON boolean is self-delimiting: the two spellings differ at their first
/// character.
proof fn lemma_bool_prefix(b1: bool, b2: bool, r1: Seq<char>, r2: Seq<char>)
    requires
        json_of_bool(b1) + r1 == json_of_bool(b2) + r2,
    ensures
        b1 == b2,
        r1 == r2,
{
    reveal_strlit("true");
    reveal_strlit("false");
    if b1 != b2 {
        assert((json_of_bool(true) + (if b1 { r1 } else { r2 }))[0] == 't');
        assert((json_of_bool(false) + (if b1 { r2 } else { r1 }))[0] == 'f');
        assert(false);
    }
    lemma_strip_prefix(json_of_bool(b1), r1, r2);
}

/// A field object with a remainder, re-associated to the right for
/// stepwise decomposition.
#[verifier::rlimit(90)]
proof fn lemma_json_of_field_unfolded(f: FieldView, r: Seq<char>)
    ensures
        json_of_field(f) + r == "{\"name\":"@ + (jstr(f.name) + (",\"type_name\":"@ + (jstr(f.type_ref) + (",\"tag\":"@ + (int_str(f.tag) + (",\"repeated\":"@ + (json_of_bool(f.repeated) + ("}"@ + (r))))))))),
{
    let x = json_of_field(f) + r;
    assert(x == ((((((((("{\"name\":"@ + jstr(f.name)) + ",\"type_name\":"@) + jstr(f.type_ref)) + ",\"tag\":"@) + int_str(f.tag)) + ",\"repeated\":"@) + json_of_bool(f.repeated)) + "}"@) + r));
    assert(x == (((((((("{\"name\":"@ + jstr(f.name)) + ",\"type_name\":"@) + jstr(f.type_ref)) + ",\"tag\":"@) + int_str(f.tag)) + ",\"repeated\":"@) + json_of_bool(f.repeated)) + "}"@) + (r));
    assert((((((((("{\"name\":"@ + jstr(f.name)) + ",\"type_name\":"@) + jstr(f.type_ref)) + ",\"tag\":"@) + int_str(f.tag)) + ",\"repeated\":"@) + json_of_bool(f.repeated)) + "}"@) + (r) =~= ((((((("{\"name\":"@ + jstr(f.name)) + ",\"type_name\":"@) + jstr(f.type_ref)) + ",\"tag\":"@) + int_str(f.tag)) + ",\"repeated\":"@) + json_of_bool(f.repeated)) + ("}"@ + (r)));
    assert(x == ((((((("{\"name\":"@ + jstr(f.name)) + ",\"type_name\":"@) + jstr(f.type_ref)) + ",\"tag\":"@) + int_str(f.tag)) + ",\"repeated\":"@) + json_of_bool(f.repeated)) + ("}"@ + (r)));
    assert(((((((("{\"name\":"@ + jstr(f.name)) + ",\"type_name\":"@) + jstr(f.type_ref)) + ",\"tag\":"@) + int_str(f.tag)) + ",\"repeated\":"@) + json_of_bool(f.repeated)) + ("}"@ + (r)) =~= (((((("{\"name\":"@ + jstr(f.name)) + ",\"type_name\":"@) + jstr(f.type_ref)) + ",\"tag\":"@) + int_str(f.tag)) + ",\"repeated\":"@) + (json_of_bool(f.repeated) + ("}"@ + (r))));
    assert(x == (((((("{\"name\":"@ + jstr(f.name)) + ",\"type_name\":"@) + jstr(f.type_ref)) + ",\"tag\":"@) + int_str(f.tag)) + ",\"repeated\":"@) + (json_of_bool(f.repeated) + ("}"@ + (r))));
    assert((((((("{\"name\":"@ + jstr(f.name)) + ",\"type_name\":"@) + jstr(f.type_ref)) + ",\"tag\":"@) + int_str(f.tag)) + ",\"repeated\":"@) + (json_of_bool(f.repeated) + ("}"@ + (r))) =~= ((((("{\"name\":"@ + jstr(f.name)) + ",\"type_name\":"@) + jstr(f.type_ref)) + ",\"tag\":"@) + int_str(f.tag)) + (",\"repeated\":"@ + (json_of_bool(f.repeated) + ("}"@ + (r)))));
    assert(x == ((((("{\"name\":"@ + jstr(f.name)) + ",\"type_name\":"@) + jstr(f.type_ref)) + ",\"tag\":"@) + int_str(f.tag)) + (",\"repeated\":"@ + (json_of_bool(f.repeated) + ("}"@ + (r)))));
    assert(((((("{\"name\":"@ + jstr(f.name)) + ",\"type_name\":"@) + jstr(f.type_ref)) + ",\"tag\":"@) + int_str(f.tag)) + (",\"repeated\":"@ + (json_of_bool(f.repeated) + ("}"@ + (r)))) =~= (((("{\"name\":"@ + jstr(f.name)) + ",\"type_name\":"@) + jstr(f.type_ref)) + ",\"tag\":"@) + (int_str(f.tag) + (",\"repeated\":"@ + (json_of_bool(f.repeated) + ("}"@ + (r))))));
    assert(x == (((("{\"name\":"@ + jstr(f.name)) + ",\"type_name\":"@) + jstr(f.type_ref)) + ",\"tag\":"@) + (int_str(f.tag) + (",\"repeated\":"@ + (json_of_bool(f.repeated) + ("}"@ + (r))))));
    assert((((("{\"name\":"@ + jstr(f.name)) + ",\"type_name\":"@) + jstr(f.type_ref)) + ",\"tag\":"@) + (int_str(f.tag) + (",\"repeated\":"@ + (json_of_bool(f.repeated) + ("}"@ + (r))))) =~= ((("{\"name\":"@ + jstr(f.name)) + ",\"type_name\":"@) + jstr(f.type_ref)) + (",\"tag\":"@ + (int_str(f.tag) + (",\"repeated\":"@ + (json_of_bool(f.repeated) + ("}"@ + (r)))))));
    assert(x == ((("{\"name\":"@ + jstr(f.name)) + ",\"type_name\":"@) + jstr(f.type_ref)) + (",\"tag\":"@ + (int_str(f.tag) + (",\"repeated\":"@ + (json_of_bool(f.repeated) + ("}"@ + (r)))))));
    assert(((("{\"name\":"@ + jstr(f.name)) + ",\"type_name\":"@) + jstr(f.type_ref)) + (",\"tag\":"@ + (int_str(f.tag) + (",\"repeated\":"@ + (json_of_bool(f.repeated) + ("}"@ + (r)))))) =~= (("{\"name\":"@ + jstr(f.name)) + ",\"type_name\":"@) + (jstr(f.type_ref) + (",\"tag\":"@ + (int_str(f.tag) + (",\"repeated\":"@ + (json_of_bool(f.repeated) + ("}"@ + (r))))))));
    assert(x == (("{\"name\":"@ + jstr(f.name)) + ",\"type_name\":"@) + (jstr(f.type_ref) + (",\"tag\":"@ + (int_str(f.tag) + (",\"repeated\":"@ + (json_of_bool(f.repeated) + ("}"@ + (r))))))));
    assert((("{\"name\":"@ + jstr(f.name)) + ",\"type_name\":"@) + (jstr(f.type_ref) + (",\"tag\":"@ + (int_str(f.tag) + (",\"repeated\":"@ + (json_of_bool(f.repeated) + ("}"@ + (r))))))) =~= ("{\"name\":"@ + jstr(f.name)) + (",\"type_name\":"@ + (jstr(f.type_ref) + (",\"tag\":"@ + (int_str(f.tag) + (",\"repeated\":"@ + (json_of_bool(f.repeated) + ("}"@ + (r)))))))));
    assert(x == ("{\"name\":"@ + jstr(f.name)) + (",\"type_name\":"@ + (jstr(f.type_ref) + (",\"tag\":"@ + (int_str(f.tag) + (",\"repeated\":"@ + (json_of_bool(f.repeated) + ("}"@ + (r)))))))));
    assert(("{\"name\":"@ + jstr(f.name)) + (",\"type_name\":"@ + (jstr(f.type_ref) + (",\"tag\":"@ + (int_str(f.tag) + (",\"repeated\":"@ + (json_of_bool(f.repeated) + ("}"@ + (r)))))))) =~= "{\"name\":"@ + (jstr(f.name) + (",\"type_name\":"@ + (jstr(f.type_ref) + (",\"tag\":"@ + (int_str(f.tag) + (",\"repeated\":"@ + (json_of_bool(f.repeated) + ("}"@ + (r))))))))));
    assert(x == "{\"name\":"@ + (jstr(f.name) + (",\"type_name\":"@ + (jstr(f.type_ref) + (",\"tag\":"@ + (int_str(f.tag) + (",\"repeated\":"@ + (json_of_bool(f.repeated) + ("}"@ + (r))))))))));
}

/// A method object with a remainder, re-associated to the right for
/// stepwise decomposition.
#[verifier::rlimit(90)]
proof fn lemma_json_of_method_unfolded(m: MethodView, r: Seq<char>)
    ensures
        json_of_method(m) + r == "{\"name\":"@ + (jstr(m.name) + (",\"input_type\":"@ + (jstr(m.input_type) + (",\"output_type\":"@ + (jstr(m.output_type) + ("}"@ + (r))))))),
{
    let x = json_of_method(m) + r;
    assert(x == ((((((("{\"name\":"@ + jstr(m.name)) + ",\"input_type\":"@) + jstr(m.input_type)) + ",\"output_type\":"@) + jstr(m.output_type)) + "}"@) + r));
    assert(x == (((((("{\"name\":"@ + jstr(m.name)) + ",\"input_type\":"@) + jstr(m.input_type)) + ",\"output_type\":"@) + jstr(m.output_type)) + "}"@) + (r));
    assert((((((("{\"name\":"@ + jstr(m.name)) + ",\"input_type\":"@) + jstr(m.input_type)) + ",\"output_type\":"@) + jstr(m.output_type)) + "}"@) + (r) =~= ((((("{\"name\":"@ + jstr(m.name)) + ",\"input_type\":"@) + jstr(m.input_type)) + ",\"output_type\":"@) + jstr(m.output_type)) + ("}"@ + (r)));
    assert(x == ((((("{\"name\":"@ + jstr(m.name)) + ",\"input_type\":"@) + jstr(m.input_type)) + ",\"output_type\":"@) + jstr(m.output_type)) + ("}"@ + (r)));
    assert(((((("{\"name\":"@ + jstr(m.name)) + ",\"input_type\":"@) + jstr(m.input_type)) + ",\"output_type\":"@) + jstr(m.output_type)) + ("}"@ + (r)) =~= (((("{\"name\":"@ + jstr(m.name)) + ",\"input_type\":"@) + jstr(m.input_type)) + ",\"output_type\":"@) + (jstr(m.output_type) + ("}"@ + (r))));
    assert(x == (((("{\"name\":"@ + jstr(m.name)) + ",\"input_type\":"@) + jstr(m.input_type)) + ",\"output_type\":"@) + (jstr(m.output_type) + ("}"@ + (r))));
    assert((((("{\"name\":"@ + jstr(m.name)) + ",\"input_type\":"@) + jstr(m.input_type)) + ",\"output_type\":"@) + (jstr(m.output_type) + ("}"@ + (r))) =~= ((("{\"name\":"@ + jstr(m.name)) + ",\"input_type\":"@) + jstr(m.input_type)) + (",\"output_type\":"@ + (jstr(m.output_type) + ("}"@ + (r)))));
    assert(x == ((("{\"name\":"@ + jstr(m.name)) + ",\"input_type\":"@) + jstr(m.input_type)) + (",\"output_type\":"@ + (jstr(m.output_type) + ("}"@ + (r)))));
    assert(((("{\"name\":"@ + jstr(m.name)) + ",\"input_type\":"@) + jstr(m.input_type)) + (",\"output_type\":"@ + (jstr(m.output_type) + ("}"@ + (r)))) =~= (("{\"name\":"@ + jstr(m.name)) + ",\"input_type\":"@) + (jstr(m.input_type) + (",\"output_type\":"@ + (jstr(m.output_type) + ("}"@ + (r))))));
    assert(x == (("{\"name\":"@ + jstr(m.name)) + ",\"input_type\":"@) + (jstr(m.input_type) + (",\"output_type\":"@ + (jstr(m.output_type) + ("}"@ + (r))))));
    assert((("{\"name\":"@ + jstr(m.name)) + ",\"input_type\":"@) + (jstr(m.input_type) + (",\"output_type\":"@ + (jstr(m.output_type) + ("}"@ + (r))))) =~= ("{\"name\":"@ + jstr(m.name)) + (",\"input_type\":"@ + (jstr(m.input_type) + (",\"output_type\":"@ + (jstr(m.output_type) + ("}"@ + (r)))))));
    assert(x == ("{\"name\":"@ + jstr(m.name)) + (",\"input_type\":"@ + (jstr(m.input_type) + (",\"output_type\":"@ + (jstr(m.output_type) + ("}"@ + (r)))))));
    assert(("{\"name\":"@ + jstr(m.name)) + (",\"input_type\":"@ + (jstr(m.input_type) + (",\"output_type\":"@ + (jstr(m.output_type) + ("}"@ + (r)))))) =~= "{\"name\":"@ + (jstr(m.name) + (",\"input_type\":"@ + (jstr(m.input_type) + (",\"output_type\":"@ + (jstr(m.output_type) + ("}"@ + (r))))))));
    assert(x == "{\"name\":"@ + (jstr(m.name) + (",\"input_type\":"@ + (jstr(m.input_type) + (",\"output_type\":"@ + (jstr(m.output_type) + ("}"@ + (r))))))));
}

/// A field object is self-delimiting and determines the field.
#[verifier::rlimit(90)]
proof fn lemma_field_prefix(f1: FieldView, f2: FieldView, r1: Seq<char>, r2: Seq<char>)
    requires
        f1.wf(),
        f2.wf(),
        json_of_field(f1) + r1 == json_of_field(f2) + r2,
    ensures
        f1 == f2,
        r1 == r2,
{
    let u1 = jstr(f1.name) + (",\"type_name\":"@ + (jstr(f1.type_ref) + (",\"tag\":"@ + (dec_str(
        f1.tag,
    ) + (",\"repeated\":"@ + (json_of_bool(f1.repeated) + ("}"@ + r1)))))));
    let u2 = jstr(f2.name) + (",\"type_name\":"@ + (jstr(f2.type_ref) + (",\"tag\":"@ + (dec_str(
        f2.tag,
    ) + (",\"repeated\":"@ + (json_of_bool(f2.repeated) + ("}"@ + r2)))))));
    lemma_json_of_field_unfolded(f1, r1);
    lemma_json_of_field_unfolded(f2, r2);
    assert("{\"name\":"@ + u1 == "{\"name\":"@ + u2);
    lemma_strip_prefix("{\"name\":"@, u1, u2);
    lemma_ident_no_quote(f1.name);
    lemma_ident_no_quote(f2.name);
    let v1 = ",\"type_name\":"@ + (jstr(f1.type_ref) + (",\"tag\":"@ + (dec_str(f1.tag) + (
    ",\"repeated\":"@ + (json_of_bool(f1.repeated) + ("}"@ + r1))))));
    let v2 = ",\"type_name\":"@ + (jstr(f2.type_ref) + (",\"tag\":"@ + (dec_str(f2.tag) + (
    ",\"repeated\":"@ + (json_of_bool(f2.repeated) + ("}"@ + r2))))));
    lemma_jstr_prefix(f1.name, f2.name, v1, v2);
    let w1 = jstr(f1.type_ref) + (",\"tag\":"@ + (dec_str(f1.tag) + (",\"repeated\":"@ + (
    json_of_bool(f1.repeated) + ("}"@ + r1)))));
    let w2 = jstr(f2.type_ref) + (",\"tag\":"@ + (dec_str(f2.tag) + (",\"repeated\":"@ + (
    json_of_bool(f2.repeated) + ("}"@ + r2)))));
    lemma_strip_prefix(",\"type_name\":"@, w1, w2);
    lemma_dotted_no_quote(f1.type_ref);
    lemma_dotted_no_quote(f2.type_ref);
    let x1 = ",\"tag\":"@ + (dec_str(f1.tag) + (",\"repeated\":"@ + (json_of_bool(f1.repeated) + (
    "}"@ + r1))));
    let x2 = ",\"tag\":"@ + (dec_str(f2.tag) + (",\"repeated\":"@ + (json_of_bool(f2.repeated) + (
    "}"@ + r2))));
    lemma_jstr_prefix(f1.type_ref, f2.type_ref, x1, x2);
    let y1 = dec_str(f1.tag) + (",\"repeated\":"@ + (json_of_bool(f1.repeated) + ("}"@ + r1)));
    let y2 = dec_str(f2.tag) + (",\"repeated\":"@ + (json_of_bool(f2.repeated) + ("}"@ + r2)));
    lemma_strip_prefix(",\"tag\":"@, y1, y2);
    let z1 = ",\"repeated\":"@ + (json_of_bool(f1.repeated) + ("}"@ + r1));
    let z2 = ",\"repeated\":"@ + (json_of_bool(f2.repeated) + ("}"@ + r2));
    reveal_strlit(",\"repeated\":");
    assert(z1[0] == ',');
    assert(z2[0] == ',');
    assert(!is_digit(','));
    lemma_digits_prefix(f1.tag, f2.tag, z1, z2);
    let q1 = json_of_bool(f1.repeated) + ("}"@ + r1);
    let q2 = json_of_bool(f2.repeated) + ("}"@ + r2);
    lemma_strip_prefix(",\"repeated\":"@, q1, q2);
    lemma_bool_prefix(f1.repeated, f2.repeated, "}"@ + r1, "}"@ + r2);
    lemma_strip_prefix("}"@, r1, r2);
    assert(f1 =~= f2);
}

/// A non-empty field list, read from its head.
proof fn lemma_json_of_fields_head(fs: Seq<FieldView>)
    requires
        fs.len() > 0,
    ensures
        json_of_fields(fs) == json_of_field(fs[0]) + (if fs.len() == 1 {
            Seq::<char>::empty()
        } else {
            ","@ + json_of_fields(fs.drop_first())
        }),
    decreases fs.len(),
{
    if fs.len() == 1 {
        assert(json_of_fields(fs) =~= json_of_field(fs[0]) + Seq::<char>::empty());
    } else if fs.len() == 2 {
        assert(fs.drop_last().len() == 1);
        assert(json_of_fields(fs.drop_last()) == json_of_field(fs.drop_last()[0]));
        assert(fs.drop_last()[0] == fs[0]);
        assert(fs.drop_first().len() == 1);
        assert(json_of_fields(fs.drop_first()) == json_of_field(fs.drop_first()[0]));
        assert(fs.drop_first()[0] == fs[1]);
        assert(fs.last() == fs[1]);
        assert(json_of_fields(fs) == json_of_fields(fs.drop_last()) + ","@ + json_of_field(
            fs.last(),
        ));
        assert(json_of_fields(fs) =~= json_of_field(fs[0]) + (","@ + json_of_fields(
            fs.drop_first(),
        )));
    } else {
        let dl = fs.drop_last();
        let df = fs.drop_first();
        lemma_json_of_fields_head(dl);
        assert(dl[0] == fs[0]);
        assert(df.drop_last() =~= dl.drop_first());
        assert(df.last() == fs.last());
        assert(json_of_fields(df) == json_of_fields(df.drop_last()) + ","@ + json_of_field(
            df.last(),
        ));
        assert(json_of_fields(fs) =~= json_of_field(fs[0]) + (","@ + json_of_fields(df)));
    }
}

/// A field list followed by its closing bracket is self-delimiting.
#[verifier::rlimit(90)]
proof fn lemma_fields_list_prefix(
    l1: Seq<FieldView>,
    l2: Seq<FieldView>,
    r1: Seq<char>,
    r2: Seq<char>,
)
    requires
        all_wf_fields(l1),
        all_wf_fields(l2),
        json_of_fields(l1) + r1 == json_of_fields(l2) + r2,
        r1.len() > 0 && r1[0] == ']',
        r2.len() > 0 && r2[0] == ']',
    ensures
        l1 == l2,
        r1 == r2,
    decreases l1.len(),
{
    reveal_strlit("{\"name\":");
    if l1.len() == 0 && l2.len() == 0 {
        assert(json_of_fields(l1) + r1 =~= r1);
        assert(json_of_fields(l2) + r2 =~= r2);
    } else if l1.len() == 0 {
        lemma_json_of_fields_head(l2);
        assert((json_of_fields(l1) + r1)[0] == r1[0]);
        assert((json_of_fields(l2) + r2)[0] == json_of_field(l2[0])[0]);
        assert(json_of_field(l2[0])[0] == '{');
        assert(false);
    } else if l2.len() == 0 {
        lemma_json_of_fields_head(l1);
        assert((json_of_fields(l2) + r2)[0] == r2[0]);
        assert((json_of_fields(l1) + r1)[0] == json_of_field(l1[0])[0]);
        assert(json_of_field(l1[0])[0] == '{');
        assert(false);
    } else {
        lemma_json_of_fields_head(l1);
        lemma_json_of_fields_head(l2);
        let t1 = (if l1.len() == 1 {
            Seq::<char>::empty()
        } else {
            ","@ + json_of_fields(l1.drop_first())
        }) + r1;
        let t2 = (if l2.len() == 1 {
            Seq::<char>::empty()
        } else {
            ","@ + json_of_fields(l2.drop_first())
        }) + r2;
        assert(json_of_fields(l1) + r1 =~= json_of_field(l1[0]) + t1);
        assert(json_of_fields(l2) + r2 =~= json_of_field(l2[0]) + t2);
        assert(l1[0].wf());
        assert(l2[0].wf());
        lemma_field_prefix(l1[0], l2[0], t1, t2);
        reveal_strlit(",");
        if l1.len() == 1 && l2.len() == 1 {
            assert(t1 =~= r1);
            assert(t2 =~= r2);
            assert(l1 =~= l2);
        } else if l1.len() == 1 {
            assert(t1[0] == r1[0]);
            assert(t2[0] == ',');
            assert(false);
        } else if l2.len() == 1 {
            assert(t2[0] == r2[0]);
            assert(t1[0] == ',');
            assert(false);
        } else {
            let q1 = json_of_fields(l1.drop_first()) + r1;
            let q2 = json_of_fields(l2.drop_first()) + r2;
            assert(t1 =~= ","@ + q1);
            assert(t2 =~= ","@ + q2);
            lemma_strip_prefix(","@, q1, q2);
            assert forall|k: int| 0 <= k < l1.drop_first().len() implies (#[trigger] l1.drop_first()[
                k
            ]).wf() by {
                assert(l1.drop_first()[k] == l1[k + 1]);
            }
            assert forall|k: int| 0 <= k < l2.drop_first().len() implies (#[trigger] l2.drop_first()[
                k
            ]).wf() by {
                assert(l2.drop_first()[k] == l2[k + 1]);
            }
            lemma_fields_list_prefix(l1.drop_first(), l2.drop_first(), r1, r2);
            assert(l1.len() == l2.len());
            assert forall|k: int| 0 <= k < l1.len() implies l1[k] == l2[k] by {
                if k > 0 {
                    assert(l1[k] == l1.drop_first()[k - 1]);
                    assert(l2[k] == l2.drop_first()[k - 1]);
                }
            }
            assert(l1 =~= l2);
        }
    }
}

/// A non-empty value list, read from its head.
proof fn lemma_json_of_values_head(fs: Seq<EnumValueView>)
    requires
        fs.len() > 0,
    ensures
        json_of_values(fs) == json_of_value(fs[0]) + (if fs.len() == 1 {
            Seq::<char>::empty()
        } else {
            ","@ + json_of_values(fs.drop_first())
        }),
    decreases fs.len(),
{
    if fs.len() == 1 {
        assert(json_of_values(fs) =~= json_of_value(fs[0]) + Seq::<char>::empty());
    } else if fs.len() == 2 {
        assert(fs.drop_last().len() == 1);
        assert(json_of_values(fs.drop_last()) == json_of_value(fs.drop_last()[0]));
        assert(fs.drop_last()[0] == fs[0]);
        assert(fs.drop_first().len() == 1);
        assert(json_of_values(fs.drop_first()) == json_of_value(fs.drop_first()[0]));
        assert(fs.drop_first()[0] == fs[1]);
        assert(fs.last() == fs[1]);
        assert(json_of_values(fs) == json_of_values(fs.drop_last()) + ","@ + json_of_value(
            fs.last(),
        ));
        assert(json_of_values(fs) =~= json_of_value(fs[0]) + (","@ + json_of_values(
            fs.drop_first(),
        )));
    } else {
        let dl = fs.drop_last();
        let df = fs.drop_first();
        lemma_json_of_values_head(dl);
        assert(dl[0] == fs[0]);
        assert(df.drop_last() =~= dl.drop_first());
        assert(df.last() == fs.last());
        assert(json_of_values(df) == json_of_values(df.drop_last()) + ","@ + json_of_value(
            df.last(),
        ));
        assert(json_of_values(fs) =~= json_of_value(fs[0]) + (","@ + json_of_values(df)));
    }
}

/// A value list followed by its closing bracket is self-delimiting.
#[verifier::rlimit(90)]
proof fn lemma_values_list_prefix(
    l1: Seq<EnumValueView>,
    l2: Seq<EnumValueView>,
    r1: Seq<char>,
    r2: Seq<char>,
)
    requires
        all_wf_vals(l1),
        all_wf_vals(l2),
        json_of_values(l1) + r1 == json_of_values(l2) + r2,
        r1.len() > 0 && r1[0] == ']',
        r2.len() > 0 && r2[0] == ']',
    ensures
        l1 == l2,
        r1 == r2,
    decreases l1.len(),
{
    reveal_strlit("{\"name\":");
    if l1.len() == 0 && l2.len() == 0 {
        assert(json_of_values(l1) + r1 =~= r1);
        assert(json_of_values(l2) + r2 =~= r2);
    } else if l1.len() == 0 {
        lemma_json_of_values_head(l2);
        assert((json_of_values(l1) + r1)[0] == r1[0]);
        assert((json_of_values(l2) + r2)[0] == json_of_value(l2[0])[0]);
        assert(json_of_value(l2[0])[0] == '{');
        assert(false);
    } else if l2.len() == 0 {
        lemma_json_of_values_head(l1);
        assert((json_of_values(l2) + r2)[0] == r2[0]);
        assert((json_of_values(l1) + r1)[0] == json_of_value(l1[0])[0]);
        assert(json_of_value(l1[0])[0] == '{');
        assert(false);
    } else {
        lemma_json_of_values_head(l1);
        lemma_json_of_values_head(l2);
        let t1 = (if l1.len() == 1 {
            Seq::<char>::empty()
        } else {
            ","@ + json_of_values(l1.drop_first())
        }) + r1;
        let t2 = (if l2.len() == 1 {
            Seq::<char>::empty()
        } else {
            ","@ + json_of_values(l2.drop_first())
        }) + r2;
        assert(json_of_values(l1) + r1 =~= json_of_value(l1[0]) + t1);
        assert(json_of_values(l2) + r2 =~= json_of_value(l2[0]) + t2);
        assert(l1[0].wf());
        assert(l2[0].wf());
        lemma_value_prefix(l1[0], l2[0], t1, t2);
        reveal_strlit(",");
        if l1.len() == 1 && l2.len() == 1 {
            assert(t1 =~= r1);
            assert(t2 =~= r2);
            assert(l1 =~= l2);
        } else if l1.len() == 1 {
            assert(t1[0] == r1[0]);
            assert(t2[0] == ',');
            assert(false);
        } else if l2.len() == 1 {
            assert(t2[0] == r2[0]);
            assert(t1[0] == ',');
            assert(false);
        } else {
            let q1 = json_of_values(l1.drop_first()) + r1;
            let q2 = json_of_values(l2.drop_first()) + r2;
            assert(t1 =~= ","@ + q1);
            assert(t2 =~= ","@ + q2);
            lemma_strip_prefix(","@, q1, q2);
            assert forall|k: int| 0 <= k < l1.drop_first().len() implies (#[trigger] l1.drop_first()[
                k
            ]).wf() by {
                assert(l1.drop_first()[k] == l1[k + 1]);
            }
            assert forall|k: int| 0 <= k < l2.drop_first().len() implies (#[trigger] l2.drop_first()[
                k
            ]).wf() by {
                assert(l2.drop_first()[k] == l2[k + 1]);
            }
            lemma_values_list_prefix(l1.drop_first(), l2.drop_first(), r1, r2);
            assert(l1.len() == l2.len());
            assert forall|k: int| 0 <= k < l1.len() implies l1[k] == l2[k] by {
                if k > 0 {
                    assert(l1[k] == l1.drop_first()[k - 1]);
                    assert(l2[k] == l2.drop_first()[k - 1]);
                }
            }
            assert(l1 =~= l2);
        }
    }
}

/// A non-empty method list, read from its head.
proof fn lemma_json_of_methods_head(fs: Seq<MethodView>)
    requires
        fs.len() > 0,
    ensures
        json_of_methods(fs) == json_of_method(fs[0]) + (if fs.len() == 1 {
            Seq::<char>::empty()
        } else {
            ","@ + json_of_methods(fs.drop_first())
        }),
    decreases fs.len(),
{
    if fs.len() == 1 {
        assert(json_of_methods(fs) =~= json_of_method(fs[0]) + Seq::<char>::empty());
    } else if fs.len() == 2 {
        assert(fs.drop_last().len() == 1);
        assert(json_of_methods(fs.drop_last()) == json_of_method(fs.drop_last()[0]));
        assert(fs.drop_last()[0] == fs[0]);
        assert(fs.drop_first().len() == 1);
        assert(json_of_methods(fs.drop_first()) == json_of_method(fs.drop_first()[0]));
        assert(fs.drop_first()[0] == fs[1]);
        assert(fs.last() == fs[1]);
        assert(json_of_methods(fs) == json_of_methods(fs.drop_last()) + ","@ + json_of_method(
            fs.last(),
        ));
        assert(json_of_methods(fs) =~= json_of_method(fs[0]) + (","@ + json_of_methods(
            fs.drop_first(),
        )));
    } else {
        let dl = fs.drop_last();
        let df = fs.drop_first();
        lemma_json_of_methods_head(dl);
        assert(dl[0] == fs[0]);
        assert(df.drop_last() =~= dl.drop_first());
        assert(df.last() == fs.last());
        assert(json_of_methods(df) == json_of_methods(df.drop_last()) + ","@ + json_of_method(
            df.last(),
        ));
        assert(json_of_methods(fs) =~= json_of_method(fs[0]) + (","@ + json_of_methods(df)));
    }
}

/// A method list followed by its closing bracket is self-delimiting.
#[verifier::rlimit(90)]
proof fn lemma_methods_list_prefix(
    l1: Seq<MethodView>,
    l2: Seq<MethodView>,
    r1: Seq<char>,
    r2: Seq<char>,
)
    requires
        all_wf_methods(l1),
        all_wf_methods(l2),
        json_of_methods(l1) + r1 == json_of_methods(l2) + r2,
        r1.len() > 0 && r1[0] == ']',
        r2.len() > 0 && r2[0] == ']',
    ensures
        l1 == l2,
        r1 == r2,
    decreases l1.len(),
{
    reveal_strlit("{\"name\":");
    if l1.len() == 0 && l2.len() == 0 {
        assert(json_of_methods(l1) + r1 =~= r1);
        assert(json_of_methods(l2) + r2 =~= r2);
    } else if l1.len() == 0 {
        lemma_json_of_methods_head(l2);
        assert((json_of_methods(l1) + r1)[0] == r1[0]);
        assert((json_of_methods(l2) + r2)[0] == json_of_method(l2[0])[0]);
        assert(json_of_method(l2[0])[0] == '{');
        assert(false);
    } else if l2.len() == 0 {
        lemma_json_of_methods_head(l1);
        assert((json_of_methods(l2) + r2)[0] == r2[0]);
        assert((json_of_methods(l1) + r1)[0] == json_of_method(l1[0])[0]);
        assert(json_of_method(l1[0])[0] == '{');
        assert(false);
    } else {
        lemma_json_of_methods_head(l1);
        lemma_json_of_methods_head(l2);
        let t1 = (if l1.len() == 1 {
            Seq::<char>::empty()
        } else {
            ","@ + json_of_methods(l1.drop_first())
        }) + r1;
        let t2 = (if l2.len() == 1 {
            Seq::<char>::empty()
        } else {
            ","@ + json_of_methods(l2.drop_first())
        }) + r2;
        assert(json_of_methods(l1) + r1 =~= json_of_method(l1[0]) + t1);
        assert(json_of_methods(l2) + r2 =~= json_of_method(l2[0]) + t2);
        assert(l1[0].wf());
        assert(l2[0].wf());
        lemma_method_prefix(l1[0], l2[0], t1, t2);
        reveal_strlit(",");
        if l1.len() == 1 && l2.len() == 1 {
            assert(t1 =~= r1);
            assert(t2 =~= r2);
            assert(l1 =~= l2);
        } else if l1.len() == 1 {
            assert(t1[0] == r1[0]);
            assert(t2[0] == ',');
            assert(false);
        } else if l2.len() == 1 {
            assert(t2[0] == r2[0]);
            assert(t1[0] == ',');
            assert(false);
        } else {
            let q1 = json_of_methods(l1.drop_first()) + r1;
            let q2 = json_of_methods(l2.drop_first()) + r2;
            assert(t1 =~= ","@ + q1);
            assert(t2 =~= ","@ + q2);
            lemma_strip_prefix(","@, q1, q2);
            assert forall|k: int| 0 <= k < l1.drop_first().len() implies (#[trigger] l1.drop_first()[
                k
            ]).wf() by {
                assert(l1.drop_first()[k] == l1[k + 1]);
            }
            assert forall|k: int| 0 <= k < l2.drop_first().len() implies (#[trigger] l2.drop_first()[
                k
            ]).wf() by {
                assert(l2.drop_first()[k] == l2[k + 1]);
            }
            lemma_methods_list_prefix(l1.drop_first(), l2.drop_first(), r1, r2);
            assert(l1.len() == l2.len());
            assert forall|k: int| 0 <= k < l1.len() implies l1[k] == l2[k] by {
                if k > 0 {
                    assert(l1[k] == l1.drop_first()[k - 1]);
                    assert(l2[k] == l2.drop_first()[k - 1]);
                }
            }
            assert(l1 =~= l2);
        }
    }
}

/// A non-empty import list, read from its head.
proof fn lemma_json_of_imports_head(fs: Seq<Seq<char>>)
    requires
        fs.len() > 0,
    ensures
        json_of_imports(fs) == jstr(fs[0]) + (if fs.len() == 1 {
            Seq::<char>::empty()
        } else {
            ","@ + json_of_imports(fs.drop_first())
        }),
    decreases fs.len(),
{
    if fs.len() == 1 {
        assert(json_of_imports(fs) =~= jstr(fs[0]) + Seq::<char>::empty());
    } else if fs.len() == 2 {
        assert(fs.drop_last().len() == 1);
        assert(json_of_imports(fs.drop_last()) == jstr(fs.drop_last()[0]));
        assert(fs.drop_last()[0] == fs[0]);
        assert(fs.drop_first().len() == 1);
        assert(json_of_imports(fs.drop_first()) == jstr(fs.drop_first()[0]));
        assert(fs.drop_first()[0] == fs[1]);
        assert(fs.last() == fs[1]);
        assert(json_of_imports(fs) == json_of_imports(fs.drop_last()) + ","@ + jstr(
            fs.last(),
        ));
        assert(json_of_imports(fs) =~= jstr(fs[0]) + (","@ + json_of_imports(
            fs.drop_first(),
        )));
    } else {
        let dl = fs.drop_last();
        let df = fs.drop_first();
        lemma_json_of_imports_head(dl);
        assert(dl[0] == fs[0]);
        assert(df.drop_last() =~= dl.drop_first());
        assert(df.last() == fs.last());
        assert(json_of_imports(df) == json_of_imports(df.drop_last()) + ","@ + jstr(
            df.last(),
        ));
        assert(json_of_imports(fs) =~= jstr(fs[0]) + (","@ + json_of_imports(df)));
    }
}

/// An import list followed by its closing bracket is self-delimiting.
#[verifier::rlimit(90)]
proof fn lemma_imports_list_prefix(
    l1: Seq<Seq<char>>,
    l2: Seq<Seq<char>>,
    r1: Seq<char>,
    r2: Seq<char>,
)
    requires
        all_wf_strs(l1),
        all_wf_strs(l2),
        json_of_imports(l1) + r1 == json_of_imports(l2) + r2,
        r1.len() > 0 && r1[0] == ']',
        r2.len() > 0 && r2[0] == ']',
    ensures
        l1 == l2,
        r1 == r2,
    decreases l1.len(),
{
    reveal_strlit("\"");
    if l1.len() == 0 && l2.len() == 0 {
        assert(json_of_imports(l1) + r1 =~= r1);
        assert(json_of_imports(l2) + r2 =~= r2);
    } else if l1.len() == 0 {
        lemma_json_of_imports_head(l2);
        assert((json_of_imports(l1) + r1)[0] == r1[0]);
        assert((json_of_imports(l2) + r2)[0] == jstr(l2[0])[0]);
        assert(jstr(l2[0])[0] == '"');
        assert(false);
    } else if l2.len() == 0 {
        lemma_json_of_imports_head(l1);
        assert((json_of_imports(l2) + r2)[0] == r2[0]);
        assert((json_of_imports(l1) + r1)[0] == jstr(l1[0])[0]);
        assert(jstr(l1[0])[0] == '"');
        assert(false);
    } else {
        lemma_json_of_imports_head(l1);
        lemma_json_of_imports_head(l2);
        let t1 = (if l1.len() == 1 {
            Seq::<char>::empty()
        } else {
            ","@ + json_of_imports(l1.drop_first())
        }) + r1;
        let t2 = (if l2.len() == 1 {
            Seq::<char>::empty()
        } else {
            ","@ + json_of_imports(l2.drop_first())
        }) + r2;
        assert(json_of_imports(l1) + r1 =~= jstr(l1[0]) + t1);
        assert(json_of_imports(l2) + r2 =~= jstr(l2[0]) + t2);
        assert(wf_str(l1[0]));
        assert(wf_str(l2[0]));
        lemma_str_no_quote(l1[0]);
        lemma_str_no_quote(l2[0]);
        lemma_jstr_prefix(l1[0], l2[0], t1, t2);
        reveal_strlit(",");
        if l1.len() == 1 && l2.len() == 1 {
            assert(t1 =~= r1);
            assert(t2 =~= r2);
            assert(l1 =~= l2);
        } else if l1.len() == 1 {
            assert(t1[0] == r1[0]);
            assert(t2[0] == ',');
            assert(false);
        } else if l2.len() == 1 {
            assert(t2[0] == r2[0]);
            assert(t1[0] == ',');
            assert(false);
        } else {
            let q1 = json_of_imports(l1.drop_first()) + r1;
            let q2 = json_of_imports(l2.drop_first()) + r2;
            assert(t1 =~= ","@ + q1);
            assert(t2 =~= ","@ + q2);
            lemma_strip_prefix(","@, q1, q2);
            assert forall|k: int| 0 <= k < l1.drop_first().len() implies wf_str(
                #[trigger] l1.drop_first()[k],
            ) by {
                assert(l1.drop_first()[k] == l1[k + 1]);
            }
            assert forall|k: int| 0 <= k < l2.drop_first().len() implies wf_str(
                #[trigger] l2.drop_first()[k],
            ) by {
                assert(l2.drop_first()[k] == l2[k + 1]);
            }
            lemma_imports_list_prefix(l1.drop_first(), l2.drop_first(), r1, r2);
            assert(l1.len() == l2.len());
            assert forall|k: int| 0 <= k < l1.len() implies l1[k] == l2[k] by {
                if k > 0 {
                    assert(l1[k] == l1.drop_first()[k - 1]);
                    assert(l2[k] == l2.drop_first()[k - 1]);
                }
            }
            assert(l1 =~= l2);
        }
    }
}

/// An enum-value object is self-delimiting and determines the value.
#[verifier::rlimit(90)]
proof fn lemma_value_prefix(v1: EnumValueView, v2: EnumValueView, r1: Seq<char>, r2: Seq<char>)
    requires
        v1.wf(),
        v2.wf(),
        json_of_value(v1) + r1 == json_of_value(v2) + r2,
    ensures
        v1 == v2,
        r1 == r2,
{
    let u1 = jstr(v1.name) + (",\"number\":"@ + (dec_str(v1.number) + ("}"@ + r1)));
    let u2 = jstr(v2.name) + (",\"number\":"@ + (dec_str(v2.number) + ("}"@ + r2)));
    assert(json_of_value(v1) + r1 =~= "{\"name\":"@ + u1);
    assert(json_of_value(v2) + r2 =~= "{\"name\":"@ + u2);
    lemma_strip_prefix("{\"name\":"@, u1, u2);
    lemma_ident_no_quote(v1.name);
    lemma_ident_no_quote(v2.name);
    let w1 = ",\"number\":"@ + (dec_str(v1.number) + ("}"@ + r1));
    let w2 = ",\"number\":"@ + (dec_str(v2.number) + ("}"@ + r2));
    lemma_jstr_prefix(v1.name, v2.name, w1, w2);
    let y1 = dec_str(v1.number) + ("}"@ + r1);
    let y2 = dec_str(v2.number) + ("}"@ + r2);
    lemma_strip_prefix(",\"number\":"@, y1, y2);
    reveal_strlit("}");
    assert(("}"@ + r1)[0] == '}');
    assert(("}"@ + r2)[0] == '}');
    assert(!is_digit('}'));
    lemma_digits_prefix(v1.number, v2.number, "}"@ + r1, "}"@ + r2);
    lemma_strip_prefix("}"@, r1, r2);
    assert(v1 =~= v2);
}

/// A method object is self-delimiting and determines the method.
#[verifier::rlimit(90)]
proof fn lemma_method_prefix(m1: MethodView, m2: MethodView, r1: Seq<char>, r2: Seq<char>)
    requires
        m1.wf(),
        m2.wf(),
        json_of_method(m1) + r1 == json_of_method(m2) + r2,
    ensures
        m1 == m2,
        r1 == r2,
{
    let u1 = jstr(m1.name) + (",\"input_type\":"@ + (jstr(m1.input_type) + (",\"output_type\":"@
        + (jstr(m1.output_type) + ("}"@ + r1)))));
    let u2 = jstr(m2.name) + (",\"input_type\":"@ + (jstr(m2.input_type) + (",\"output_type\":"@
        + (jstr(m2.output_type) + ("}"@ + r2)))));
    lemma_json_of_method_unfolded(m1, r1);
    lemma_json_of_method_unfolded(m2, r2);
    assert("{\"name\":"@ + u1 == "{\"name\":"@ + u2);
    lemma_strip_prefix("{\"name\":"@, u1, u2);
    lemma_ident_no_quote(m1.name);
    lemma_ident_no_quote(m2.name);
    let v1 = ",\"input_type\":"@ + (jstr(m1.input_type) + (",\"output_type\":"@ + (jstr(
        m1.output_type,
    ) + ("}"@ + r1))));
    let v2 = ",\"input_type\":"@ + (jstr(m2.input_type) + (",\"output_type\":"@ + (jstr(
        m2.output_type,
    ) + ("}"@ + r2))));
    lemma_jstr_prefix(m1.name, m2.name, v1, v2);
    let w1 = jstr(m1.input_type) + (",\"output_type\":"@ + (jstr(m1.output_type) + ("}"@ + r1)));
    let w2 = jstr(m2.input_type) + (",\"output_type\":"@ + (jstr(m2.output_type) + ("}"@ + r2)));
    lemma_strip_prefix(",\"input_type\":"@, w1, w2);
    lemma_ident_no_quote(m1.input_type);
    lemma_ident_no_quote(m2.input_type);
    let x1 = ",\"output_type\":"@ + (jstr(m1.output_type) + ("}"@ + r1));
    let x2 = ",\"output_type\":"@ + (jstr(m2.output_type) + ("}"@ + r2));
    lemma_jstr_prefix(m1.input_type, m2.input_type, x1, x2);
    let y1 = jstr(m1.output_type) + ("}"@ + r1);
    let y2 = jstr(m2.output_type) + ("}"@ + r2);
    lemma_strip_prefix(",\"output_type\":"@, y1, y2);
    lemma_ident_no_quote(m1.output_type);
    lemma_ident_no_quote(m2.output_type);
    lemma_jstr_prefix(m1.output_type, m2.output_type, "}"@ + r1, "}"@ + r2);
    lemma_strip_prefix("}"@, r1, r2);
    assert(m1 =~= m2);
}


/// An enum object is self-delimiting and determines the enum.
#[verifier::rlimit(90)]
proof fn lemma_enum_prefix(e1: EnumDefView, e2: EnumDefView, r1: Seq<char>, r2: Seq<char>)
    requires
        e1.wf(),
        e2.wf(),
        json_of_enum(e1) + r1 == json_of_enum(e2) + r2,
    ensures
        e1 == e2,
        r1 == r2,
{
    let u1 = jstr(e1.name) + (",\"values\":["@ + (json_of_values(e1.values) + ("]}"@ + r1)));
    let u2 = jstr(e2.name) + (",\"values\":["@ + (json_of_values(e2.values) + ("]}"@ + r2)));
    assert(json_of_enum(e1) + r1 =~= "{\"name\":"@ + u1);
    assert(json_of_enum(e2) + r2 =~= "{\"name\":"@ + u2);
    lemma_strip_prefix("{\"name\":"@, u1, u2);
    lemma_ident_no_quote(e1.name);
    lemma_ident_no_quote(e2.name);
    let v1 = ",\"values\":["@ + (json_of_values(e1.values) + ("]}"@ + r1));
    let v2 = ",\"values\":["@ + (json_of_values(e2.values) + ("]}"@ + r2));
    lemma_jstr_prefix(e1.name, e2.name, v1, v2);
    let w1 = json_of_values(e1.values) + ("]}"@ + r1);
    let w2 = json_of_values(e2.values) + ("]}"@ + r2);
    lemma_strip_prefix(",\"values\":["@, w1, w2);
    reveal_strlit("]}");
    assert(("]}"@ + r1)[0] == ']');
    assert(("]}"@ + r2)[0] == ']');
    lemma_values_list_prefix(e1.values, e2.values, "]}"@ + r1, "]}"@ + r2);
    lemma_strip_prefix("]}"@, r1, r2);
    assert(e1 =~= e2);
}

/// A service object is self-delimiting and determines the service.
#[verifier::rlimit(90)]
proof fn lemma_service_prefix(s1: ServiceView, s2: ServiceView, r1: Seq<char>, r2: Seq<char>)
    requires
        s1.wf(),
        s2.wf(),
        json_of_service(s1) + r1 == json_of_service(s2) + r2,
    ensures
        s1 == s2,
        r1 == r2,
{
    let u1 = jstr(s1.name) + (",\"methods\":["@ + (json_of_methods(s1.methods) + ("]}"@ + r1)));
    let u2 = jstr(s2.name) + (",\"methods\":["@ + (json_of_methods(s2.methods) + ("]}"@ + r2)));
    assert(json_of_service(s1) + r1 =~= "{\"name\":"@ + u1);
    assert(json_of_service(s2) + r2 =~= "{\"name\":"@ + u2);
    lemma_strip_prefix("{\"name\":"@, u1, u2);
    lemma_ident_no_quote(s1.name);
    lemma_ident_no_quote(s2.name);
    let v1 = ",\"methods\":["@ + (json_of_methods(s1.methods) + ("]}"@ + r1));
    let v2 = ",\"methods\":["@ + (json_of_methods(s2.methods) + ("]}"@ + r2));
    lemma_jstr_prefix(s1.name, s2.name, v1, v2);
    let w1 = json_of_methods(s1.methods) + ("]}"@ + r1);
    let w2 = json_of_methods(s2.methods) + ("]}"@ + r2);
    lemma_strip_prefix(",\"methods\":["@, w1, w2);
    reveal_strlit("]}");
    assert(("]}"@ + r1)[0] == ']');
    assert(("]}"@ + r2)[0] == ']');
    lemma_methods_list_prefix(s1.methods, s2.methods, "]}"@ + r1, "]}"@ + r2);
    lemma_strip_prefix("]}"@, r1, r2);
    assert(s1 =~= s2);
}

/// A non-empty enum list, read from its head.
proof fn lemma_json_of_enums_head(fs: Seq<EnumDefView>)
    requires
        fs.len() > 0,
    ensures
        json_of_enums(fs) == json_of_enum(fs[0]) + (if fs.len() == 1 {
            Seq::<char>::empty()
        } else {
            ","@ + json_of_enums(fs.drop_first())
        }),
    decreases fs.len(),
{
    if fs.len() == 1 {
        assert(json_of_enums(fs) =~= json_of_enum(fs[0]) + Seq::<char>::empty());
    } else if fs.len() == 2 {
        assert(fs.drop_last().len() == 1);
        assert(json_of_enums(fs.drop_last()) == json_of_enum(fs.drop_last()[0]));
        assert(fs.drop_last()[0] == fs[0]);
        assert(fs.drop_first().len() == 1);
        assert(json_of_enums(fs.drop_first()) == json_of_enum(fs.drop_first()[0]));
        assert(fs.drop_first()[0] == fs[1]);
        assert(fs.last() == fs[1]);
        assert(json_of_enums(fs) == json_of_enums(fs.drop_last()) + ","@ + json_of_enum(
            fs.last(),
        ));
        assert(json_of_enums(fs) =~= json_of_enum(fs[0]) + (","@ + json_of_enums(
            fs.drop_first(),
        )));
    } else {
        let dl = fs.drop_last();
        let df = fs.drop_first();
        lemma_json_of_enums_head(dl);
        assert(dl[0] == fs[0]);
        assert(df.drop_last() =~= dl.drop_first());
        assert(df.last() == fs.last());
        assert(json_of_enums(df) == json_of_enums(df.drop_last()) + ","@ + json_of_enum(
            df.last(),
        ));
        assert(json_of_enums(fs) =~= json_of_enum(fs[0]) + (","@ + json_of_enums(df)));
    }
}

/// An enum list followed by its closing bracket is self-delimiting.
#[verifier::rlimit(90)]
proof fn lemma_enums_list_prefix(
    l1: Seq<EnumDefView>,
    l2: Seq<EnumDefView>,
    r1: Seq<char>,
    r2: Seq<char>,
)
    requires
        all_wf_enums(l1),
        all_wf_enums(l2),
        json_of_enums(l1) + r1 == json_of_enums(l2) + r2,
        r1.len() > 0 && r1[0] == ']',
        r2.len() > 0 && r2[0] == ']',
    ensures
        l1 == l2,
        r1 == r2,
    decreases l1.len(),
{
    reveal_strlit("{\"name\":");
    if l1.len() == 0 && l2.len() == 0 {
        assert(json_of_enums(l1) + r1 =~= r1);
        assert(json_of_enums(l2) + r2 =~= r2);
    } else if l1.len() == 0 {
        lemma_json_of_enums_head(l2);
        assert((json_of_enums(l1) + r1)[0] == r1[0]);
        assert((json_of_enums(l2) + r2)[0] == json_of_enum(l2[0])[0]);
        assert(json_of_enum(l2[0])[0] == '{');
        assert(false);
    } else if l2.len() == 0 {
        lemma_json_of_enums_head(l1);
        assert((json_of_enums(l2) + r2)[0] == r2[0]);
        assert((json_of_enums(l1) + r1)[0] == json_of_enum(l1[0])[0]);
        assert(json_of_enum(l1[0])[0] == '{');
        assert(false);
    } else {
        lemma_json_of_enums_head(l1);
        lemma_json_of_enums_head(l2);
        let t1 = (if l1.len() == 1 {
            Seq::<char>::empty()
        } else {
            ","@ + json_of_enums(l1.drop_first())
        }) + r1;
        let t2 = (if l2.len() == 1 {
            Seq::<char>::empty()
        } else {
            ","@ + json_of_enums(l2.drop_first())
        }) + r2;
        assert(json_of_enums(l1) + r1 =~= json_of_enum(l1[0]) + t1);
        assert(json_of_enums(l2) + r2 =~= json_of_enum(l2[0]) + t2);
        assert(l1[0].wf());
        assert(l2[0].wf());
        lemma_enum_prefix(l1[0], l2[0], t1, t2);
        reveal_strlit(",");
        if l1.len() == 1 && l2.len() == 1 {
            assert(t1 =~= r1);
            assert(t2 =~= r2);
            assert(l1 =~= l2);
        } else if l1.len() == 1 {
            assert(t1[0] == r1[0]);
            assert(t2[0] == ',');
            assert(false);
        } else if l2.len() == 1 {
            assert(t2[0] == r2[0]);
            assert(t1[0] == ',');
            assert(false);
        } else {
            let q1 = json_of_enums(l1.drop_first()) + r1;
            let q2 = json_of_enums(l2.drop_first()) + r2;
            assert(t1 =~= ","@ + q1);
            assert(t2 =~= ","@ + q2);
            lemma_strip_prefix(","@, q1, q2);
            assert forall|k: int| 0 <= k < l1.drop_first().len() implies (#[trigger] l1.drop_first()[
                k
            ]).wf() by {
                assert(l1.drop_first()[k] == l1[k + 1]);
            }
            assert forall|k: int| 0 <= k < l2.drop_first().len() implies (#[trigger] l2.drop_first()[
                k
            ]).wf() by {
                assert(l2.drop_first()[k] == l2[k + 1]);
            }
            lemma_enums_list_prefix(l1.drop_first(), l2.drop_first(), r1, r2);
            assert(l1.len() == l2.len());
            assert forall|k: int| 0 <= k < l1.len() implies l1[k] == l2[k] by {
                if k > 0 {
                    assert(l1[k] == l1.drop_first()[k - 1]);
                    assert(l2[k] == l2.drop_first()[k - 1]);
                }
            }
            assert(l1 =~= l2);
        }
    }
}

/// A non-empty service list, read from its head.
proof fn lemma_json_of_services_head(fs: Seq<ServiceView>)
    requires
        fs.len() > 0,
    ensures
        json_of_services(fs) == json_of_service(fs[0]) + (if fs.len() == 1 {
            Seq::<char>::empty()
        } else {
            ","@ + json_of_services(fs.drop_first())
        }),
    decreases fs.len(),
{
    if fs.len() == 1 {
        assert(json_of_services(fs) =~= json_of_service(fs[0]) + Seq::<char>::empty());
    } else if fs.len() == 2 {
        assert(fs.drop_last().len() == 1);
        assert(json_of_services(fs.drop_last()) == json_of_service(fs.drop_last()[0]));
        assert(fs.drop_last()[0] == fs[0]);
        assert(fs.drop_first().len() == 1);
        assert(json_of_services(fs.drop_first()) == json_of_service(fs.drop_first()[0]));
        assert(fs.drop_first()[0] == fs[1]);
        assert(fs.last() == fs[1]);
        assert(json_of_services(fs) == json_of_services(fs.drop_last()) + ","@ + json_of_service(
            fs.last(),
        ));
        assert(json_of_services(fs) =~= json_of_service(fs[0]) + (","@ + json_of_services(
            fs.drop_first(),
        )));
    } else {
        let dl = fs.drop_last();
        let df = fs.drop_first();
        lemma_json_of_services_head(dl);
        assert(dl[0] == fs[0]);
        assert(df.drop_last() =~= dl.drop_first());
        assert(df.last() == fs.last());
        assert(json_of_services(df) == json_of_services(df.drop_last()) + ","@ + json_of_service(
            df.last(),
        ));
        assert(json_of_services(fs) =~= json_of_service(fs[0]) + (","@ + json_of_services(df)));
    }
}

/// A service list followed by its closing bracket is self-delimiting.
#[verifier::rlimit(90)]
proof fn lemma_services_list_prefix(
    l1: Seq<ServiceView>,
    l2: Seq<ServiceView>,
    r1: Seq<char>,
    r2: Seq<char>,
)
    requires
        all_wf_services(l1),
        all_wf_services(l2),
        json_of_services(l1) + r1 == json_of_services(l2) + r2,
        r1.len() > 0 && r1[0] == ']',
        r2.len() > 0 && r2[0] == ']',
    ensures
        l1 == l2,
        r1 == r2,
    decreases l1.len(),
{
    reveal_strlit("{\"name\":");
    if l1.len() == 0 && l2.len() == 0 {
        assert(json_of_services(l1) + r1 =~= r1);
        assert(json_of_services(l2) + r2 =~= r2);
    } else if l1.len() == 0 {
        lemma_json_of_services_head(l2);
        assert((json_of_services(l1) + r1)[0] == r1[0]);
        assert((json_of_services(l2) + r2)[0] == json_of_service(l2[0])[0]);
        assert(json_of_service(l2[0])[0] == '{');
        assert(false);
    } else if l2.len() == 0 {
        lemma_json_of_services_head(l1);
        assert((json_of_services(l2) + r2)[0] == r2[0]);
        assert((json_of_services(l1) + r1)[0] == json_of_service(l1[0])[0]);
        assert(json_of_service(l1[0])[0] == '{');
        assert(false);
    } else {
        lemma_json_of_services_head(l1);
        lemma_json_of_services_head(l2);
        let t1 = (if l1.len() == 1 {
            Seq::<char>::empty()
        } else {
            ","@ + json_of_services(l1.drop_first())
        }) + r1;
        let t2 = (if l2.len() == 1 {
            Seq::<char>::empty()
        } else {
            ","@ + json_of_services(l2.drop_first())
        }) + r2;
        assert(json_of_services(l1) + r1 =~= json_of_service(l1[0]) + t1);
        assert(json_of_services(l2) + r2 =~= json_of_service(l2[0]) + t2);
        assert(l1[0].wf());
        assert(l2[0].wf());
        lemma_service_prefix(l1[0], l2[0], t1, t2);
        reveal_strlit(",");
        if l1.len() == 1 && l2.len() == 1 {
            assert(t1 =~= r1);
            assert(t2 =~= r2);
            assert(l1 =~= l2);
        } else if l1.len() == 1 {
            assert(t1[0] == r1[0]);
            assert(t2[0] == ',');
            assert(false);
        } else if l2.len() == 1 {
            assert(t2[0] == r2[0]);
            assert(t1[0] == ',');
            assert(false);
        } else {
            let q1 = json_of_services(l1.drop_first()) + r1;
            let q2 = json_of_services(l2.drop_first()) + r2;
            assert(t1 =~= ","@ + q1);
            assert(t2 =~= ","@ + q2);
            lemma_strip_prefix(","@, q1, q2);
            assert forall|k: int| 0 <= k < l1.drop_first().len() implies (#[trigger] l1.drop_first()[
                k
            ]).wf() by {
                assert(l1.drop_first()[k] == l1[k + 1]);
            }
            assert forall|k: int| 0 <= k < l2.drop_first().len() implies (#[trigger] l2.drop_first()[
                k
            ]).wf() by {
                assert(l2.drop_first()[k] == l2[k + 1]);
            }
            lemma_services_list_prefix(l1.drop_first(), l2.drop_first(), r1, r2);
            assert(l1.len() == l2.len());
            assert forall|k: int| 0 <= k < l1.len() implies l1[k] == l2[k] by {
                if k > 0 {
                    assert(l1[k] == l1.drop_first()[k - 1]);
                    assert(l2[k] == l2.drop_first()[k - 1]);
                }
            }
            assert(l1 =~= l2);
        }
    }
}


/// A non-empty message list, read from its head.
proof fn lemma_json_of_messages_head(fs: Seq<MessageView>)
    requires
        fs.len() > 0,
    ensures
        json_of_messages(fs) == json_of_message(fs[0]) + (if fs.len() == 1 {
            Seq::<char>::empty()
        } else {
            ","@ + json_of_messages(fs.drop_first())
        }),
    decreases fs.len(),
{
    if fs.len() == 1 {
        assert(json_of_messages(fs) =~= json_of_message(fs[0]) + Seq::<char>::empty());
    } else if fs.len() == 2 {
        assert(fs.drop_last().len() == 1);
        assert(json_of_messages(fs.drop_last()) == json_of_message(fs.drop_last()[0]));
        assert(fs.drop_last()[0] == fs[0]);
        assert(fs.drop_first().len() == 1);
        assert(json_of_messages(fs.drop_first()) == json_of_message(fs.drop_first()[0]));
        assert(fs.drop_first()[0] == fs[1]);
        assert(fs.last() == fs[1]);
        assert(json_of_messages(fs) == json_of_messages(fs.drop_last()) + ","@ + json_of_message(
            fs.last(),
        ));
        assert(json_of_messages(fs) =~= json_of_message(fs[0]) + (","@ + json_of_messages(
            fs.drop_first(),
        )));
    } else {
        let dl = fs.drop_last();
        let df = fs.drop_first();
        lemma_json_of_messages_head(dl);
        assert(dl[0] == fs[0]);
        assert(df.drop_last() =~= dl.drop_first());
        assert(df.last() == fs.last());
        assert(json_of_messages(df) == json_of_messages(df.drop_last()) + ","@ + json_of_message(
            df.last(),
        ));
        assert(json_of_messages(fs) =~= json_of_message(fs[0]) + (","@ + json_of_messages(df)));
    }
}

/// A message object with a remainder, re-associated to the right for
/// stepwise decomposition.
#[verifier::rlimit(90)]
proof fn lemma_json_of_message_unfolded(m: MessageView, r: Seq<char>)
    ensures
        json_of_message(m) + r == "{\"name\":"@ + (jstr(m.name) + (",\"fields\":["@ + (json_of_fields(m.fields) + ("],\"nested_messages\":["@ + (json_of_messages(m.nested_messages) + ("],\"nested_enums\":["@ + (json_of_enums(m.nested_enums) + ("]}"@ + (r))))))))),
{
    let x = json_of_message(m) + r;
    assert(x == ((((((((("{\"name\":"@ + jstr(m.name)) + ",\"fields\":["@) + json_of_fields(m.fields)) + "],\"nested_messages\":["@) + json_of_messages(m.nested_messages)) + "],\"nested_enums\":["@) + json_of_enums(m.nested_enums)) + "]}"@) + r));
    assert(x == (((((((("{\"name\":"@ + jstr(m.name)) + ",\"fields\":["@) + json_of_fields(m.fields)) + "],\"nested_messages\":["@) + json_of_messages(m.nested_messages)) + "],\"nested_enums\":["@) + json_of_enums(m.nested_enums)) + "]}"@) + (r));
    assert((((((((("{\"name\":"@ + jstr(m.name)) + ",\"fields\":["@) + json_of_fields(m.fields)) + "],\"nested_messages\":["@) + json_of_messages(m.nested_messages)) + "],\"nested_enums\":["@) + json_of_enums(m.nested_enums)) + "]}"@) + (r) =~= ((((((("{\"name\":"@ + jstr(m.name)) + ",\"fields\":["@) + json_of_fields(m.fields)) + "],\"nested_messages\":["@) + json_of_messages(m.nested_messages)) + "],\"nested_enums\":["@) + json_of_enums(m.nested_enums)) + ("]}"@ + (r)));
    assert(x == ((((((("{\"name\":"@ + jstr(m.name)) + ",\"fields\":["@) + json_of_fields(m.fields)) + "],\"nested_messages\":["@) + json_of_messages(m.nested_messages)) + "],\"nested_enums\":["@) + json_of_enums(m.nested_enums)) + ("]}"@ + (r)));
    assert(((((((("{\"name\":"@ + jstr(m.name)) + ",\"fields\":["@) + json_of_fields(m.fields)) + "],\"nested_messages\":["@) + json_of_messages(m.nested_messages)) + "],\"nested_enums\":["@) + json_of_enums(m.nested_enums)) + ("]}"@ + (r)) =~= (((((("{\"name\":"@ + jstr(m.name)) + ",\"fields\":["@) + json_of_fields(m.fields)) + "],\"nested_messages\":["@) + json_of_messages(m.nested_messages)) + "],\"nested_enums\":["@) + (json_of_enums(m.nested_enums) + ("]}"@ + (r))));
    assert(x == (((((("{\"name\":"@ + jstr(m.name)) + ",\"fields\":["@) + json_of_fields(m.fields)) + "],\"nested_messages\":["@) + json_of_messages(m.nested_messages)) + "],\"nested_enums\":["@) + (json_of_enums(m.nested_enums) + ("]}"@ + (r))));
    assert((((((("{\"name\":"@ + jstr(m.name)) + ",\"fields\":["@) + json_of_fields(m.fields)) + "],\"nested_messages\":["@) + json_of_messages(m.nested_messages)) + "],\"nested_enums\":["@) + (json_of_enums(m.nested_enums) + ("]}"@ + (r))) =~= ((((("{\"name\":"@ + jstr(m.name)) + ",\"fields\":["@) + json_of_fields(m.fields)) + "],\"nested_messages\":["@) + json_of_messages(m.nested_messages)) + ("],\"nested_enums\":["@ + (json_of_enums(m.nested_enums) + ("]}"@ + (r)))));
    assert(x == ((((("{\"name\":"@ + jstr(m.name)) + ",\"fields\":["@) + json_of_fields(m.fields)) + "],\"nested_messages\":["@) + json_of_messages(m.nested_messages)) + ("],\"nested_enums\":["@ + (json_of_enums(m.nested_enums) + ("]}"@ + (r)))));
    assert(((((("{\"name\":"@ + jstr(m.name)) + ",\"fields\":["@) + json_of_fields(m.fields)) + "],\"nested_messages\":["@) + json_of_messages(m.nested_messages)) + ("],\"nested_enums\":["@ + (json_of_enums(m.nested_enums) + ("]}"@ + (r)))) =~= (((("{\"name\":"@ + jstr(m.name)) + ",\"fields\":["@) + json_of_fields(m.fields)) + "],\"nested_messages\":["@) + (json_of_messages(m.nested_messages) + ("],\"nested_enums\":["@ + (json_of_enums(m.nested_enums) + ("]}"@ + (r))))));
    assert(x == (((("{\"name\":"@ + jstr(m.name)) + ",\"fields\":["@) + json_of_fields(m.fields)) + "],\"nested_messages\":["@) + (json_of_messages(m.nested_messages) + ("],\"nested_enums\":["@ + (json_of_enums(m.nested_enums) + ("]}"@ + (r))))));
    assert((((("{\"name\":"@ + jstr(m.name)) + ",\"fields\":["@) + json_of_fields(m.fields)) + "],\"nested_messages\":["@) + (json_of_messages(m.nested_messages) + ("],\"nested_enums\":["@ + (json_of_enums(m.nested_enums) + ("]}"@ + (r))))) =~= ((("{\"name\":"@ + jstr(m.name)) + ",\"fields\":["@) + json_of_fields(m.fields)) + ("],\"nested_messages\":["@ + (json_of_messages(m.nested_messages) + ("],\"nested_enums\":["@ + (json_of_enums(m.nested_enums) + ("]}"@ + (r)))))));
    assert(x == ((("{\"name\":"@ + jstr(m.name)) + ",\"fields\":["@) + json_of_fields(m.fields)) + ("],\"nested_messages\":["@ + (json_of_messages(m.nested_messages) + ("],\"nested_enums\":["@ + (json_of_enums(m.nested_enums) + ("]}"@ + (r)))))));
    assert(((("{\"name\":"@ + jstr(m.name)) + ",\"fields\":["@) + json_of_fields(m.fields)) + ("],\"nested_messages\":["@ + (json_of_messages(m.nested_messages) + ("],\"nested_enums\":["@ + (json_of_enums(m.nested_enums) + ("]}"@ + (r)))))) =~= (("{\"name\":"@ + jstr(m.name)) + ",\"fields\":["@) + (json_of_fields(m.fields) + ("],\"nested_messages\":["@ + (json_of_messages(m.nested_messages) + ("],\"nested_enums\":["@ + (json_of_enums(m.nested_enums) + ("]}"@ + (r))))))));
    assert(x == (("{\"name\":"@ + jstr(m.name)) + ",\"fields\":["@) + (json_of_fields(m.fields) + ("],\"nested_messages\":["@ + (json_of_messages(m.nested_messages) + ("],\"nested_enums\":["@ + (json_of_enums(m.nested_enums) + ("]}"@ + (r))))))));
    assert((("{\"name\":"@ + jstr(m.name)) + ",\"fields\":["@) + (json_of_fields(m.fields) + ("],\"nested_messages\":["@ + (json_of_messages(m.nested_messages) + ("],\"nested_enums\":["@ + (json_of_enums(m.nested_enums) + ("]}"@ + (r))))))) =~= ("{\"name\":"@ + jstr(m.name)) + (",\"fields\":["@ + (json_of_fields(m.fields) + ("],\"nested_messages\":["@ + (json_of_messages(m.nested_messages) + ("],\"nested_enums\":["@ + (json_of_enums(m.nested_enums) + ("]}"@ + (r)))))))));
    assert(x == ("{\"name\":"@ + jstr(m.name)) + (",\"fields\":["@ + (json_of_fields(m.fields) + ("],\"nested_messages\":["@ + (json_of_messages(m.nested_messages) + ("],\"nested_enums\":["@ + (json_of_enums(m.nested_enums) + ("]}"@ + (r)))))))));
    assert(("{\"name\":"@ + jstr(m.name)) + (",\"fields\":["@ + (json_of_fields(m.fields) + ("],\"nested_messages\":["@ + (json_of_messages(m.nested_messages) + ("],\"nested_enums\":["@ + (json_of_enums(m.nested_enums) + ("]}"@ + (r)))))))) =~= "{\"name\":"@ + (jstr(m.name) + (",\"fields\":["@ + (json_of_fields(m.fields) + ("],\"nested_messages\":["@ + (json_of_messages(m.nested_messages) + ("],\"nested_enums\":["@ + (json_of_enums(m.nested_enums) + ("]}"@ + (r))))))))));
    assert(x == "{\"name\":"@ + (jstr(m.name) + (",\"fields\":["@ + (json_of_fields(m.fields) + ("],\"nested_messages\":["@ + (json_of_messages(m.nested_messages) + ("],\"nested_enums\":["@ + (json_of_enums(m.nested_enums) + ("]}"@ + (r))))))))));
}

/// The front of a message object: the name and the field list, with the
/// rest of the object aligned after them.
#[verifier::rlimit(90)]
proof fn lemma_message_prefix_head(m1: MessageView, m2: MessageView, r1: Seq<char>, r2: Seq<char>)
    requires
        m1.wf(),
        m2.wf(),
        json_of_message(m1) + r1 == json_of_message(m2) + r2,
    ensures
        m1.name == m2.name,
        m1.fields == m2.fields,
        json_of_messages(m1.nested_messages) + ("],\"nested_enums\":["@ + (json_of_enums(
            m1.nested_enums,
        ) + ("]}"@ + r1))) == json_of_messages(m2.nested_messages) + ("],\"nested_enums\":["@
            + (json_of_enums(m2.nested_enums) + ("]}"@ + r2))),
{
    let u1 = jstr(m1.name) + (",\"fields\":["@ + (json_of_fields(m1.fields) + (
    "],\"nested_messages\":["@ + (json_of_messages(m1.nested_messages) + (
    "],\"nested_enums\":["@ + (json_of_enums(m1.nested_enums) + ("]}"@ + r1)))))));
    let u2 = jstr(m2.name) + (",\"fields\":["@ + (json_of_fields(m2.fields) + (
    "],\"nested_messages\":["@ + (json_of_messages(m2.nested_messages) + (
    "],\"nested_enums\":["@ + (json_of_enums(m2.nested_enums) + ("]}"@ + r2)))))));
    lemma_json_of_message_unfolded(m1, r1);
    lemma_json_of_message_unfolded(m2, r2);
    assert("{\"name\":"@ + u1 == "{\"name\":"@ + u2);
    lemma_strip_prefix("{\"name\":"@, u1, u2);
    lemma_ident_no_quote(m1.name);
    lemma_ident_no_quote(m2.name);
    let v1 = ",\"fields\":["@ + (json_of_fields(m1.fields) + ("],\"nested_messages\":["@ + (
    json_of_messages(m1.nested_messages) + ("],\"nested_enums\":["@ + (json_of_enums(
        m1.nested_enums,
    ) + ("]}"@ + r1))))));
    let v2 = ",\"fields\":["@ + (json_of_fields(m2.fields) + ("],\"nested_messages\":["@ + (
    json_of_messages(m2.nested_messages) + ("],\"nested_enums\":["@ + (json_of_enums(
        m2.nested_enums,
    ) + ("]}"@ + r2))))));
    lemma_jstr_prefix(m1.name, m2.name, v1, v2);
    let w1 = json_of_fields(m1.fields) + ("],\"nested_messages\":["@ + (json_of_messages(
        m1.nested_messages,
    ) + ("],\"nested_enums\":["@ + (json_of_enums(m1.nested_enums) + ("]}"@ + r1)))));
    let w2 = json_of_fields(m2.fields) + ("],\"nested_messages\":["@ + (json_of_messages(
        m2.nested_messages,
    ) + ("],\"nested_enums\":["@ + (json_of_enums(m2.nested_enums) + ("]}"@ + r2)))));
    lemma_strip_prefix(",\"fields\":["@, w1, w2);
    reveal_strlit("],\"nested_messages\":[");
    let x1 = "],\"nested_messages\":["@ + (json_of_messages(m1.nested_messages) + (
    "],\"nested_enums\":["@ + (json_of_enums(m1.nested_enums) + ("]}"@ + r1))));
    let x2 = "],\"nested_messages\":["@ + (json_of_messages(m2.nested_messages) + (
    "],\"nested_enums\":["@ + (json_of_enums(m2.nested_enums) + ("]}"@ + r2))));
    assert(x1[0] == ']');
    assert(x2[0] == ']');
    lemma_fields_list_prefix(m1.fields, m2.fields, x1, x2);
    let y1 = json_of_messages(m1.nested_messages) + ("],\"nested_enums\":["@ + (json_of_enums(
        m1.nested_enums,
    ) + ("]}"@ + r1)));
    let y2 = json_of_messages(m2.nested_messages) + ("],\"nested_enums\":["@ + (json_of_enums(
        m2.nested_enums,
    ) + ("]}"@ + r2)));
    lemma_strip_prefix("],\"nested_messages\":["@, y1, y2);
}

/// A message object is self-delimiting and determines the message, nested
/// definitions included.
#[verifier::rlimit(90)]
proof fn lemma_message_prefix(m1: MessageView, m2: MessageView, r1: Seq<char>, r2: Seq<char>)
    requires
        m1.wf(),
        m2.wf(),
        json_of_message(m1) + r1 == json_of_message(m2) + r2,
    ensures
        m1 == m2,
        r1 == r2,
    decreases m1, 1int,
{
    lemma_message_prefix_head(m1, m2, r1, r2);
    reveal_strlit("],\"nested_enums\":[");
    let z1 = "],\"nested_enums\":["@ + (json_of_enums(m1.nested_enums) + ("]}"@ + r1));
    let z2 = "],\"nested_enums\":["@ + (json_of_enums(m2.nested_enums) + ("]}"@ + r2));
    assert(z1[0] == ']');
    assert(z2[0] == ']');
    lemma_messages_list_prefix(m1.nested_messages, m2.nested_messages, z1, z2);
    let q1 = json_of_enums(m1.nested_enums) + ("]}"@ + r1);
    let q2 = json_of_enums(m2.nested_enums) + ("]}"@ + r2);
    lemma_strip_prefix("],\"nested_enums\":["@, q1, q2);
    reveal_strlit("]}");
    assert(("]}"@ + r1)[0] == ']');
    assert(("]}"@ + r2)[0] == ']');
    lemma_enums_list_prefix(m1.nested_enums, m2.nested_enums, "]}"@ + r1, "]}"@ + r2);
    lemma_strip_prefix("]}"@, r1, r2);
    assert(m1 =~= m2);
}

/// A message list followed by its closing bracket is self-delimiting.
#[verifier::rlimit(90)]
proof fn lemma_messages_list_prefix(
    l1: Seq<MessageView>,
    l2: Seq<MessageView>,
    r1: Seq<char>,
    r2: Seq<char>,
)
    requires
        all_wf_msgs(l1),
        all_wf_msgs(l2),
        json_of_messages(l1) + r1 == json_of_messages(l2) + r2,
        r1.len() > 0 && r1[0] == ']',
        r2.len() > 0 && r2[0] == ']',
    ensures
        l1 == l2,
        r1 == r2,
    decreases l1, 0int,
{
    reveal_strlit("{\"name\":");
    if l1.len() == 0 && l2.len() == 0 {
        assert(json_of_messages(l1) + r1 =~= r1);
        assert(json_of_messages(l2) + r2 =~= r2);
    } else if l1.len() == 0 {
        lemma_json_of_messages_head(l2);
        assert((json_of_messages(l1) + r1)[0] == r1[0]);
        assert((json_of_messages(l2) + r2)[0] == json_of_message(l2[0])[0]);
        assert(json_of_message(l2[0])[0] == '{');
        assert(false);
    } else if l2.len() == 0 {
        lemma_json_of_messages_head(l1);
        assert((json_of_messages(l2) + r2)[0] == r2[0]);
        assert((json_of_messages(l1) + r1)[0] == json_of_message(l1[0])[0]);
        assert(json_of_message(l1[0])[0] == '{');
        assert(false);
    } else {
        lemma_json_of_messages_head(l1);
        lemma_json_of_messages_head(l2);
        let t1 = (if l1.len() == 1 {
            Seq::<char>::empty()
        } else {
            ","@ + json_of_messages(l1.drop_first())
        }) + r1;
        let t2 = (if l2.len() == 1 {
            Seq::<char>::empty()
        } else {
            ","@ + json_of_messages(l2.drop_first())
        }) + r2;
        assert(json_of_messages(l1) + r1 =~= json_of_message(l1[0]) + t1);
        assert(json_of_messages(l2) + r2 =~= json_of_message(l2[0]) + t2);
        assert(l1[0].wf());
        assert(l2[0].wf());
        lemma_message_prefix(l1[0], l2[0], t1, t2);
        reveal_strlit(",");
        if l1.len() == 1 && l2.len() == 1 {
            assert(t1 =~= r1);
            assert(t2 =~= r2);
            assert(l1 =~= l2);
        } else if l1.len() == 1 {
            assert(t1[0] == r1[0]);
            assert(t2[0] == ',');
            assert(false);
        } else if l2.len() == 1 {
            assert(t2[0] == r2[0]);
            assert(t1[0] == ',');
            assert(false);
        } else {
            let q1 = json_of_messages(l1.drop_first()) + r1;
            let q2 = json_of_messages(l2.drop_first()) + r2;
            assert(t1 =~= ","@ + q1);
            assert(t2 =~= ","@ + q2);
            lemma_strip_prefix(","@, q1, q2);
            assert forall|k: int| 0 <= k < l1.drop_first().len() implies (#[trigger] l1.drop_first()[
                k
            ]).wf() by {
                assert(l1.drop_first()[k] == l1[k + 1]);
            }
            assert forall|k: int| 0 <= k < l2.drop_first().len() implies (#[trigger] l2.drop_first()[
                k
            ]).wf() by {
                assert(l2.drop_first()[k] == l2[k + 1]);
            }
            lemma_messages_list_prefix(l1.drop_first(), l2.drop_first(), r1, r2);
            assert(l1.len() == l2.len());
            assert forall|k: int| 0 <= k < l1.len() implies l1[k] == l2[k] by {
                if k > 0 {
                    assert(l1[k] == l1.drop_first()[k - 1]);
                    assert(l2[k] == l2.drop_first()[k - 1]);
                }
            }
            assert(l1 =~= l2);
        }
    }
}

/// The document, re-associated to the right for stepwise decomposition.
#[verifier::rlimit(90)]
proof fn lemma_json_of_proto_unfolded(p: ProtoView)
    ensures
        json_of_proto(p) == "{\"syntax\":"@ + (jstr(p.syntax) + (",\"package\":"@ + (json_of_package(p.package) + (",\"imports\":["@ + (json_of_imports(p.imports) + ("],\"messages\":["@ + (json_of_messages(p.messages) + ("],\"enums\":["@ + (json_of_enums(p.enums) + ("],\"services\":["@ + (json_of_services(p.services) + ("]}"@)))))))))))),
{
    let x = json_of_proto(p);
    assert(x == (((((((((((("{\"syntax\":"@ + jstr(p.syntax)) + ",\"package\":"@) + json_of_package(p.package)) + ",\"imports\":["@) + json_of_imports(p.imports)) + "],\"messages\":["@) + json_of_messages(p.messages)) + "],\"enums\":["@) + json_of_enums(p.enums)) + "],\"services\":["@) + json_of_services(p.services)) + "]}"@));
    assert(x == ((((((((((("{\"syntax\":"@ + jstr(p.syntax)) + ",\"package\":"@) + json_of_package(p.package)) + ",\"imports\":["@) + json_of_imports(p.imports)) + "],\"messages\":["@) + json_of_messages(p.messages)) + "],\"enums\":["@) + json_of_enums(p.enums)) + "],\"services\":["@) + json_of_services(p.services)) + ("]}"@));
    assert(((((((((((("{\"syntax\":"@ + jstr(p.syntax)) + ",\"package\":"@) + json_of_package(p.package)) + ",\"imports\":["@) + json_of_imports(p.imports)) + "],\"messages\":["@) + json_of_messages(p.messages)) + "],\"enums\":["@) + json_of_enums(p.enums)) + "],\"services\":["@) + json_of_services(p.services)) + ("]}"@) =~= (((((((((("{\"syntax\":"@ + jstr(p.syntax)) + ",\"package\":"@) + json_of_package(p.package)) + ",\"imports\":["@) + json_of_imports(p.imports)) + "],\"messages\":["@) + json_of_messages(p.messages)) + "],\"enums\":["@) + json_of_enums(p.enums)) + "],\"services\":["@) + (json_of_services(p.services) + ("]}"@)));
    assert(x == (((((((((("{\"syntax\":"@ + jstr(p.syntax)) + ",\"package\":"@) + json_of_package(p.package)) + ",\"imports\":["@) + json_of_imports(p.imports)) + "],\"messages\":["@) + json_of_messages(p.messages)) + "],\"enums\":["@) + json_of_enums(p.enums)) + "],\"services\":["@) + (json_of_services(p.services) + ("]}"@)));
    assert((((((((((("{\"syntax\":"@ + jstr(p.syntax)) + ",\"package\":"@) + json_of_package(p.package)) + ",\"imports\":["@) + json_of_imports(p.imports)) + "],\"messages\":["@) + json_of_messages(p.messages)) + "],\"enums\":["@) + json_of_enums(p.enums)) + "],\"services\":["@) + (json_of_services(p.services) + ("]}"@)) =~= ((((((((("{\"syntax\":"@ + jstr(p.syntax)) + ",\"package\":"@) + json_of_package(p.package)) + ",\"imports\":["@) + json_of_imports(p.imports)) + "],\"messages\":["@) + json_of_messages(p.messages)) + "],\"enums\":["@) + json_of_enums(p.enums)) + ("],\"services\":["@ + (json_of_services(p.services) + ("]}"@))));
    assert(x == ((((((((("{\"syntax\":"@ + jstr(p.syntax)) + ",\"package\":"@) + json_of_package(p.package)) + ",\"imports\":["@) + json_of_imports(p.imports)) + "],\"messages\":["@) + json_of_messages(p.messages)) + "],\"enums\":["@) + json_of_enums(p.enums)) + ("],\"services\":["@ + (json_of_services(p.services) + ("]}"@))));
    assert(((((((((("{\"syntax\":"@ + jstr(p.syntax)) + ",\"package\":"@) + json_of_package(p.package)) + ",\"imports\":["@) + json_of_imports(p.imports)) + "],\"messages\":["@) + json_of_messages(p.messages)) + "],\"enums\":["@) + json_of_enums(p.enums)) + ("],\"services\":["@ + (json_of_services(p.services) + ("]}"@))) =~= (((((((("{\"syntax\":"@ + jstr(p.syntax)) + ",\"package\":"@) + json_of_package(p.package)) + ",\"imports\":["@) + json_of_imports(p.imports)) + "],\"messages\":["@) + json_of_messages(p.messages)) + "],\"enums\":["@) + (json_of_enums(p.enums) + ("],\"services\":["@ + (json_of_services(p.services) + ("]}"@)))));
    assert(x == (((((((("{\"syntax\":"@ + jstr(p.syntax)) + ",\"package\":"@) + json_of_package(p.package)) + ",\"imports\":["@) + json_of_imports(p.imports)) + "],\"messages\":["@) + json_of_messages(p.messages)) + "],\"enums\":["@) + (json_of_enums(p.enums) + ("],\"services\":["@ + (json_of_services(p.services) + ("]}"@)))));
    assert((((((((("{\"syntax\":"@ + jstr(p.syntax)) + ",\"package\":"@) + json_of_package(p.package)) + ",\"imports\":["@) + json_of_imports(p.imports)) + "],\"messages\":["@) + json_of_messages(p.messages)) + "],\"enums\":["@) + (json_of_enums(p.enums) + ("],\"services\":["@ + (json_of_services(p.services) + ("]}"@)))) =~= ((((((("{\"syntax\":"@ + jstr(p.syntax)) + ",\"package\":"@) + json_of_package(p.package)) + ",\"imports\":["@) + json_of_imports(p.imports)) + "],\"messages\":["@) + json_of_messages(p.messages)) + ("],\"enums\":["@ + (json_of_enums(p.enums) + ("],\"services\":["@ + (json_of_services(p.services) + ("]}"@))))));
    assert(x == ((((((("{\"syntax\":"@ + jstr(p.syntax)) + ",\"package\":"@) + json_of_package(p.package)) + ",\"imports\":["@) + json_of_imports(p.imports)) + "],\"messages\":["@) + json_of_messages(p.messages)) + ("],\"enums\":["@ + (json_of_enums(p.enums) + ("],\"services\":["@ + (json_of_services(p.services) + ("]}"@))))));
    assert(((((((("{\"syntax\":"@ + jstr(p.syntax)) + ",\"package\":"@) + json_of_package(p.package)) + ",\"imports\":["@) + json_of_imports(p.imports)) + "],\"messages\":["@) + json_of_messages(p.messages)) + ("],\"enums\":["@ + (json_of_enums(p.enums) + ("],\"services\":["@ + (json_of_services(p.services) + ("]}"@))))) =~= (((((("{\"syntax\":"@ + jstr(p.syntax)) + ",\"package\":"@) + json_of_package(p.package)) + ",\"imports\":["@) + json_of_imports(p.imports)) + "],\"messages\":["@) + (json_of_messages(p.messages) + ("],\"enums\":["@ + (json_of_enums(p.enums) + ("],\"services\":["@ + (json_of_services(p.services) + ("]}"@)))))));
    assert(x == (((((("{\"syntax\":"@ + jstr(p.syntax)) + ",\"package\":"@) + json_of_package(p.package)) + ",\"imports\":["@) + json_of_imports(p.imports)) + "],\"messages\":["@) + (json_of_messages(p.messages) + ("],\"enums\":["@ + (json_of_enums(p.enums) + ("],\"services\":["@ + (json_of_services(p.services) + ("]}"@)))))));
    assert((((((("{\"syntax\":"@ + jstr(p.syntax)) + ",\"package\":"@) + json_of_package(p.package)) + ",\"imports\":["@) + json_of_imports(p.imports)) + "],\"messages\":["@) + (json_of_messages(p.messages) + ("],\"enums\":["@ + (json_of_enums(p.enums) + ("],\"services\":["@ + (json_of_services(p.services) + ("]}"@)))))) =~= ((((("{\"syntax\":"@ + jstr(p.syntax)) + ",\"package\":"@) + json_of_package(p.package)) + ",\"imports\":["@) + json_of_imports(p.imports)) + ("],\"messages\":["@ + (json_of_messages(p.messages) + ("],\"enums\":["@ + (json_of_enums(p.enums) + ("],\"services\":["@ + (json_of_services(p.services) + ("]}"@))))))));
    assert(x == ((((("{\"syntax\":"@ + jstr(p.syntax)) + ",\"package\":"@) + json_of_package(p.package)) + ",\"imports\":["@) + json_of_imports(p.imports)) + ("],\"messages\":["@ + (json_of_messages(p.messages) + ("],\"enums\":["@ + (json_of_enums(p.enums) + ("],\"services\":["@ + (json_of_services(p.services) + ("]}"@))))))));
    assert(((((("{\"syntax\":"@ + jstr(p.syntax)) + ",\"package\":"@) + json_of_package(p.package)) + ",\"imports\":["@) + json_of_imports(p.imports)) + ("],\"messages\":["@ + (json_of_messages(p.messages) + ("],\"enums\":["@ + (json_of_enums(p.enums) + ("],\"services\":["@ + (json_of_services(p.services) + ("]}"@))))))) =~= (((("{\"syntax\":"@ + jstr(p.syntax)) + ",\"package\":"@) + json_of_package(p.package)) + ",\"imports\":["@) + (json_of_imports(p.imports) + ("],\"messages\":["@ + (json_of_messages(p.messages) + ("],\"enums\":["@ + (json_of_enums(p.enums) + ("],\"services\":["@ + (json_of_services(p.services) + ("]}"@)))))))));
    assert(x == (((("{\"syntax\":"@ + jstr(p.syntax)) + ",\"package\":"@) + json_of_package(p.package)) + ",\"imports\":["@) + (json_of_imports(p.imports) + ("],\"messages\":["@ + (json_of_messages(p.messages) + ("],\"enums\":["@ + (json_of_enums(p.enums) + ("],\"services\":["@ + (json_of_services(p.services) + ("]}"@)))))))));
    assert((((("{\"syntax\":"@ + jstr(p.syntax)) + ",\"package\":"@) + json_of_package(p.package)) + ",\"imports\":["@) + (json_of_imports(p.imports) + ("],\"messages\":["@ + (json_of_messages(p.messages) + ("],\"enums\":["@ + (json_of_enums(p.enums) + ("],\"services\":["@ + (json_of_services(p.services) + ("]}"@)))))))) =~= ((("{\"syntax\":"@ + jstr(p.syntax)) + ",\"package\":"@) + json_of_package(p.package)) + (",\"imports\":["@ + (json_of_imports(p.imports) + ("],\"messages\":["@ + (json_of_messages(p.messages) + ("],\"enums\":["@ + (json_of_enums(p.enums) + ("],\"services\":["@ + (json_of_services(p.services) + ("]}"@))))))))));
    assert(x == ((("{\"syntax\":"@ + jstr(p.syntax)) + ",\"package\":"@) + json_of_package(p.package)) + (",\"imports\":["@ + (json_of_imports(p.imports) + ("],\"messages\":["@ + (json_of_messages(p.messages) + ("],\"enums\":["@ + (json_of_enums(p.enums) + ("],\"services\":["@ + (json_of_services(p.services) + ("]}"@))))))))));
    assert(((("{\"syntax\":"@ + jstr(p.syntax)) + ",\"package\":"@) + json_of_package(p.package)) + (",\"imports\":["@ + (json_of_imports(p.imports) + ("],\"messages\":["@ + (json_of_messages(p.messages) + ("],\"enums\":["@ + (json_of_enums(p.enums) + ("],\"services\":["@ + (json_of_services(p.services) + ("]}"@))))))))) =~= (("{\"syntax\":"@ + jstr(p.syntax)) + ",\"package\":"@) + (json_of_package(p.package) + (",\"imports\":["@ + (json_of_imports(p.imports) + ("],\"messages\":["@ + (json_of_messages(p.messages) + ("],\"enums\":["@ + (json_of_enums(p.enums) + ("],\"services\":["@ + (json_of_services(p.services) + ("]}"@)))))))))));
    assert(x == (("{\"syntax\":"@ + jstr(p.syntax)) + ",\"package\":"@) + (json_of_package(p.package) + (",\"imports\":["@ + (json_of_imports(p.imports) + ("],\"messages\":["@ + (json_of_messages(p.messages) + ("],\"enums\":["@ + (json_of_enums(p.enums) + ("],\"services\":["@ + (json_of_services(p.services) + ("]}"@)))))))))));
    assert((("{\"syntax\":"@ + jstr(p.syntax)) + ",\"package\":"@) + (json_of_package(p.package) + (",\"imports\":["@ + (json_of_imports(p.imports) + ("],\"messages\":["@ + (json_of_messages(p.messages) + ("],\"enums\":["@ + (json_of_enums(p.enums) + ("],\"services\":["@ + (json_of_services(p.services) + ("]}"@)))))))))) =~= ("{\"syntax\":"@ + jstr(p.syntax)) + (",\"package\":"@ + (json_of_package(p.package) + (",\"imports\":["@ + (json_of_imports(p.imports) + ("],\"messages\":["@ + (json_of_messages(p.messages) + ("],\"enums\":["@ + (json_of_enums(p.enums) + ("],\"services\":["@ + (json_of_services(p.services) + ("]}"@))))))))))));
    assert(x == ("{\"syntax\":"@ + jstr(p.syntax)) + (",\"package\":"@ + (json_of_package(p.package) + (",\"imports\":["@ + (json_of_imports(p.imports) + ("],\"messages\":["@ + (json_of_messages(p.messages) + ("],\"enums\":["@ + (json_of_enums(p.enums) + ("],\"services\":["@ + (json_of_services(p.services) + ("]}"@))))))))))));
    assert(("{\"syntax\":"@ + jstr(p.syntax)) + (",\"package\":"@ + (json_of_package(p.package) + (",\"imports\":["@ + (json_of_imports(p.imports) + ("],\"messages\":["@ + (json_of_messages(p.messages) + ("],\"enums\":["@ + (json_of_enums(p.enums) + ("],\"services\":["@ + (json_of_services(p.services) + ("]}"@))))))))))) =~= "{\"syntax\":"@ + (jstr(p.syntax) + (",\"package\":"@ + (json_of_package(p.package) + (",\"imports\":["@ + (json_of_imports(p.imports) + ("],\"messages\":["@ + (json_of_messages(p.messages) + ("],\"enums\":["@ + (json_of_enums(p.enums) + ("],\"services\":["@ + (json_of_services(p.services) + ("]}"@)))))))))))));
    assert(x == "{\"syntax\":"@ + (jstr(p.syntax) + (",\"package\":"@ + (json_of_package(p.package) + (",\"imports\":["@ + (json_of_imports(p.imports) + ("],\"messages\":["@ + (json_of_messages(p.messages) + ("],\"enums\":["@ + (json_of_enums(p.enums) + ("],\"services\":["@ + (json_of_services(p.services) + ("]}"@)))))))))))));
}

/// The front of a document: syntax and package, with the rest aligned
/// after them.
#[verifier::rlimit(90)]
proof fn lemma_proto_prefix_head(p1: ProtoView, p2: ProtoView)
    requires
        p1.wf(),
        p2.wf(),
        json_of_proto(p1) == json_of_proto(p2),
    ensures
        p1.syntax == p2.syntax,
        p1.package == p2.package,
        json_of_imports(p1.imports) + ("],\"messages\":["@ + (json_of_messages(p1.messages) + (
        "],\"enums\":["@ + (json_of_enums(p1.enums) + ("],\"services\":["@ + (
        json_of_services(p1.services) + "]}"@)))))) == json_of_imports(p2.imports) + (
        "],\"messages\":["@ + (json_of_messages(p2.messages) + ("],\"enums\":["@ + (
        json_of_enums(p2.enums) + ("],\"services\":["@ + (json_of_services(p2.services)
            + "]}"@)))))),
{
    let u1 = jstr(p1.syntax) + (",\"package\":"@ + (json_of_package(p1.package) + (
    ",\"imports\":["@ + (json_of_imports(p1.imports) + ("],\"messages\":["@ + (
    json_of_messages(p1.messages) + ("],\"enums\":["@ + (json_of_enums(p1.enums) + (
    "],\"services\":["@ + (json_of_services(p1.services) + "]}"@))))))))));
    let u2 = jstr(p2.syntax) + (",\"package\":"@ + (json_of_package(p2.package) + (
    ",\"imports\":["@ + (json_of_imports(p2.imports) + ("],\"messages\":["@ + (
    json_of_messages(p2.messages) + ("],\"enums\":["@ + (json_of_enums(p2.enums) + (
    "],\"services\":["@ + (json_of_services(p2.services) + "]}"@))))))))));
    lemma_json_of_proto_unfolded(p1);
    lemma_json_of_proto_unfolded(p2);
    assert("{\"syntax\":"@ + u1 == "{\"syntax\":"@ + u2);
    lemma_strip_prefix("{\"syntax\":"@, u1, u2);
    lemma_str_no_quote(p1.syntax);
    lemma_str_no_quote(p2.syntax);
    let v1 = ",\"package\":"@ + (json_of_package(p1.package) + (",\"imports\":["@ + (
    json_of_imports(p1.imports) + ("],\"messages\":["@ + (json_of_messages(p1.messages) + (
    "],\"enums\":["@ + (json_of_enums(p1.enums) + ("],\"services\":["@ + (json_of_services(
        p1.services,
    ) + "]}"@)))))))));
    let v2 = ",\"package\":"@ + (json_of_package(p2.package) + (",\"imports\":["@ + (
    json_of_imports(p2.imports) + ("],\"messages\":["@ + (json_of_messages(p2.messages) + (
    "],\"enums\":["@ + (json_of_enums(p2.enums) + ("],\"services\":["@ + (json_of_services(
        p2.services,
    ) + "]}"@)))))))));
    lemma_jstr_prefix(p1.syntax, p2.syntax, v1, v2);
    let w1 = json_of_package(p1.package) + (",\"imports\":["@ + (json_of_imports(p1.imports) + (
    "],\"messages\":["@ + (json_of_messages(p1.messages) + ("],\"enums\":["@ + (json_of_enums(
        p1.enums,
    ) + ("],\"services\":["@ + (json_of_services(p1.services) + "]}"@))))))));
    let w2 = json_of_package(p2.package) + (",\"imports\":["@ + (json_of_imports(p2.imports) + (
    "],\"messages\":["@ + (json_of_messages(p2.messages) + ("],\"enums\":["@ + (json_of_enums(
        p2.enums,
    ) + ("],\"services\":["@ + (json_of_services(p2.services) + "]}"@))))))));
    lemma_strip_prefix(",\"package\":"@, w1, w2);
    reveal_strlit("null");
    reveal_strlit("\"");
    let a1 = ",\"imports\":["@ + (json_of_imports(p1.imports) + ("],\"messages\":["@ + (
    json_of_messages(p1.messages) + ("],\"enums\":["@ + (json_of_enums(p1.enums) + (
    "],\"services\":["@ + (json_of_services(p1.services) + "]}"@)))))));
    let a2 = ",\"imports\":["@ + (json_of_imports(p2.imports) + ("],\"messages\":["@ + (
    json_of_messages(p2.messages) + ("],\"enums\":["@ + (json_of_enums(p2.enums) + (
    "],\"services\":["@ + (json_of_services(p2.services) + "]}"@)))))));
    match (p1.package, p2.package) {
        (Some(a), Some(b)) => {
            lemma_dotted_no_quote(a);
            lemma_dotted_no_quote(b);
            lemma_jstr_prefix(a, b, a1, a2);
        },
        (None, None) => {
            lemma_strip_prefix("null"@, a1, a2);
        },
        (Some(a), None) => {
            assert(w1[0] == '"');
            assert(w2[0] == 'n');
            assert(false);
        },
        (None, Some(b)) => {
            assert(w1[0] == 'n');
            assert(w2[0] == '"');
            assert(false);
        },
    }
    let b1 = json_of_imports(p1.imports) + ("],\"messages\":["@ + (json_of_messages(p1.messages)
        + ("],\"enums\":["@ + (json_of_enums(p1.enums) + ("],\"services\":["@ + (
    json_of_services(p1.services) + "]}"@))))));
    let b2 = json_of_imports(p2.imports) + ("],\"messages\":["@ + (json_of_messages(p2.messages)
        + ("],\"enums\":["@ + (json_of_enums(p2.enums) + ("],\"services\":["@ + (
    json_of_services(p2.services) + "]}"@))))));
    lemma_strip_prefix(",\"imports\":["@, b1, b2);
}

/// Round-trip structural fidelity: the canonical JSON document of a
/// well-formed tree determines the tree, so parsing the document back
/// reproduces every declared name, type, tag and nesting relationship
/// exactly once, in source order.
#[verifier::rlimit(90)]
pub proof fn lemma_round_trip_fidelity(p1: ProtoView, p2: ProtoView)
    requires
        p1.wf(),
        p2.wf(),
        json_of_proto(p1) == json_of_proto(p2),
    ensures
        p1 == p2,
{
    lemma_proto_prefix_head(p1, p2);
    reveal_strlit("],\"messages\":[");
    let c1 = "],\"messages\":["@ + (json_of_messages(p1.messages) + ("],\"enums\":["@ + (
    json_of_enums(p1.enums) + ("],\"services\":["@ + (json_of_services(p1.services) + "]}"@)))));
    let c2 = "],\"messages\":["@ + (json_of_messages(p2.messages) + ("],\"enums\":["@ + (
    json_of_enums(p2.enums) + ("],\"services\":["@ + (json_of_services(p2.services) + "]}"@)))));
    assert(c1[0] == ']');
    assert(c2[0] == ']');
    lemma_imports_list_prefix(p1.imports, p2.imports, c1, c2);
    let d1 = json_of_messages(p1.messages) + ("],\"enums\":["@ + (json_of_enums(p1.enums) + (
    "],\"services\":["@ + (json_of_services(p1.services) + "]}"@))));
    let d2 = json_of_messages(p2.messages) + ("],\"enums\":["@ + (json_of_enums(p2.enums) + (
    "],\"services\":["@ + (json_of_services(p2.services) + "]}"@))));
    lemma_strip_prefix("],\"messages\":["@, d1, d2);
    reveal_strlit("],\"enums\":[");
    let f1 = "],\"enums\":["@ + (json_of_enums(p1.enums) + ("],\"services\":["@ + (
    json_of_services(p1.services) + "]}"@)));
    let f2 = "],\"enums\":["@ + (json_of_enums(p2.enums) + ("],\"services\":["@ + (
    json_of_services(p2.services) + "]}"@)));
    assert(f1[0] == ']');
    assert(f2[0] == ']');
    lemma_messages_list_prefix(p1.messages, p2.messages, f1, f2);
    let g1 = json_of_enums(p1.enums) + ("],\"services\":["@ + (json_of_services(p1.services)
        + "]}"@));
    let g2 = json_of_enums(p2.enums) + ("],\"services\":["@ + (json_of_services(p2.services)
        + "]}"@));
    lemma_strip_prefix("],\"enums\":["@, g1, g2);
    reveal_strlit("],\"services\":[");
    let h1 = "],\"services\":["@ + (json_of_services(p1.services) + "]}"@);
    let h2 = "],\"services\":["@ + (json_of_services(p2.services) + "]}"@);
    assert(h1[0] == ']');
    assert(h2[0] == ']');
    lemma_enums_list_prefix(p1.enums, p2.enums, h1, h2);
    let i1 = json_of_services(p1.services) + "]}"@;
    let i2 = json_of_services(p2.services) + "]}"@;
    lemma_strip_prefix("],\"services\":["@, i1, i2);
    reveal_strlit("]}");
    assert("]}"@[0] == ']');
    lemma_services_list_prefix(p1.services, p2.services, "]}"@, "]}"@);
    assert(p1 =~= p2);
}

} // verus!
