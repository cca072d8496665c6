//! The serializer: the canonical JSON document of a syntax tree.
//!
//! `json_of_proto` is the specification of the output, character by
//! character: a fixed field order, arrays in source order, `null` for an
//! absent package, and no escaping — well-formed trees hold no character that
//! JSON requires escaped.  The executable serializer is proved to emit
//! exactly that text.

use vstd::prelude::*;
use crate::ast::{
    EnumDef,
    EnumDefView,
    EnumValue,
    EnumValueView,
    Field,
    FieldView,
    Message,
    MessageView,
    Method,
    MethodView,
    Proto,
    ProtoView,
    Service,
    ServiceView,
    enums_view,
    fields_view,
    methods_view,
    msgs_view,
    services_view,
    strings_view,
    vals_view,
};
use crate::parser::spec_parse;
use crate::text::{ParserError, int_str, render_tag};
use crate::parser::ProtoParser;
use vstd::string::StringExecFns;

verus! {

/// A JSON string literal: the text between double quotes, unescaped.
pub open spec fn jstr(s: Seq<char>) -> Seq<char> {
    "\""@ + s + "\""@
}

/// A JSON boolean.
pub open spec fn json_of_bool(b: bool) -> Seq<char> {
    if b {
        "true"@
    } else {
        "false"@
    }
}

/// The JSON of a field: name, type, tag, repeated flag, in that order.
pub open spec fn json_of_field(f: FieldView) -> Seq<char> {
    "{\"name\":"@ + jstr(f.name) + ",\"type_name\":"@ + jstr(f.type_ref) + ",\"tag\":"@ + int_str(
        f.tag,
    ) + ",\"repeated\":"@ + json_of_bool(f.repeated) + "}"@
}

/// The JSON of an enum value: name then number.
pub open spec fn json_of_value(v: EnumValueView) -> Seq<char> {
    "{\"name\":"@ + jstr(v.name) + ",\"number\":"@ + int_str(v.number) + "}"@
}

/// The JSON of a method: name, input type, output type.
pub open spec fn json_of_method(m: MethodView) -> Seq<char> {
    "{\"name\":"@ + jstr(m.name) + ",\"input_type\":"@ + jstr(m.input_type) + ",\"output_type\":"@
        + jstr(m.output_type) + "}"@
}

/// A comma-separated list of JSON strings.
pub open spec fn json_of_imports(ss: Seq<Seq<char>>) -> Seq<char>
    decreases ss.len(),
{
    if ss.len() == 0 {
        Seq::empty()
    } else if ss.len() == 1 {
        jstr(ss[0])
    } else {
        json_of_imports(ss.drop_last()) + ","@ + jstr(ss.last())
    }
}

/// A comma-separated list of field objects.
pub open spec fn json_of_fields(fs: Seq<FieldView>) -> Seq<char>
    decreases fs.len(),
{
    if fs.len() == 0 {
        Seq::empty()
    } else if fs.len() == 1 {
        json_of_field(fs[0])
    } else {
        json_of_fields(fs.drop_last()) + ","@ + json_of_field(fs.last())
    }
}

/// A comma-separated list of enum-value objects.
pub open spec fn json_of_values(vs: Seq<EnumValueView>) -> Seq<char>
    decreases vs.len(),
{
    if vs.len() == 0 {
        Seq::empty()
    } else if vs.len() == 1 {
        json_of_value(vs[0])
    } else {
        json_of_values(vs.drop_last()) + ","@ + json_of_value(vs.last())
    }
}

/// The JSON of an enum definition: name then values.
pub open spec fn json_of_enum(e: EnumDefView) -> Seq<char> {
    "{\"name\":"@ + jstr(e.name) + ",\"values\":["@ + json_of_values(e.values) + "]}"@
}

/// A comma-separated list of enum objects.
pub open spec fn json_of_enums(es: Seq<EnumDefView>) -> Seq<char>
    decreases es.len(),
{
    if es.len() == 0 {
        Seq::empty()
    } else if es.len() == 1 {
        json_of_enum(es[0])
    } else {
        json_of_enums(es.drop_last()) + ","@ + json_of_enum(es.last())
    }
}

/// A comma-separated list of method objects.
pub open spec fn json_of_methods(ms: Seq<MethodView>) -> Seq<char>
    decreases ms.len(),
{
    if ms.len() == 0 {
        Seq::empty()
    } else if ms.len() == 1 {
        json_of_method(ms[0])
    } else {
        json_of_methods(ms.drop_last()) + ","@ + json_of_method(ms.last())
    }
}

/// The JSON of a service: name then methods.
pub open spec fn json_of_service(s: ServiceView) -> Seq<char> {
    "{\"name\":"@ + jstr(s.name) + ",\"methods\":["@ + json_of_methods(s.methods) + "]}"@
}

/// A comma-separated list of service objects.
pub open spec fn json_of_services(ss: Seq<ServiceView>) -> Seq<char>
    decreases ss.len(),
{
    if ss.len() == 0 {
        Seq::empty()
    } else if ss.len() == 1 {
        json_of_service(ss[0])
    } else {
        json_of_services(ss.drop_last()) + ","@ + json_of_service(ss.last())
    }
}

/// The JSON of a message: name, fields, nested messages, nested enums.
pub open spec fn json_of_message(m: MessageView) -> Seq<char>
    decreases m,
{
    "{\"name\":"@ + jstr(m.name) + ",\"fields\":["@ + json_of_fields(m.fields)
        + "],\"nested_messages\":["@ + json_of_messages(m.nested_messages)
        + "],\"nested_enums\":["@ + json_of_enums(m.nested_enums) + "]}"@
}

/// A comma-separated list of message objects.
pub open spec fn json_of_messages(ms: Seq<MessageView>) -> Seq<char>
    decreases ms,
{
    if ms.len() == 0 {
        Seq::empty()
    } else if ms.len() == 1 {
        json_of_message(ms[0])
    } else {
        json_of_messages(ms.drop_last()) + ","@ + json_of_message(ms.last())
    }
}

/// The JSON of an absent or present package name.
pub open spec fn json_of_package(p: Option<Seq<char>>) -> Seq<char> {
    match p {
        Some(s) => jstr(s),
        None => "null"@,
    }
}

/// The canonical JSON document of a proto file: `syntax`, `package`,
/// `imports`, `messages`, `enums`, `services`, in that order.
pub open spec fn json_of_proto(p: ProtoView) -> Seq<char> {
    "{\"syntax\":"@ + jstr(p.syntax) + ",\"package\":"@ + json_of_package(p.package)
        + ",\"imports\":["@ + json_of_imports(p.imports) + "],\"messages\":["@ + json_of_messages(
        p.messages,
    ) + "],\"enums\":["@ + json_of_enums(p.enums) + "],\"services\":["@ + json_of_services(
        p.services,
    ) + "]}"@
}

fn wr_jstr(out: &mut String, s: &String)
    ensures
        final(out)@ == old(out)@ + jstr(s@),
{
    out.append("\"");
    out.append(s.as_str());
    out.append("\"");
}

fn wr_field(out: &mut String, f: &Field)
    ensures
        final(out)@ == old(out)@ + json_of_field(f@),
{
    out.append("{\"name\":");
    wr_jstr(out, &f.name);
    out.append(",\"type_name\":");
    wr_jstr(out, &f.type_ref);
    out.append(",\"tag\":");
    let tag = render_tag(f.tag);
    out.append(tag.as_str());
    out.append(",\"repeated\":");
    if f.repeated {
        out.append("true");
    } else {
        out.append("false");
    }
    out.append("}");
}

fn wr_fields(out: &mut String, fs: &Vec<Field>)
    ensures
        final(out)@ == old(out)@ + json_of_fields(fields_view(fs@)),
{
    let ghost fv = fields_view(fs@);
    let ghost base = out@;
    let mut i: usize = 0;
    while i < fs.len()
        invariant
            0 <= i <= fs@.len(),
            fv == fields_view(fs@),
            fv.len() == fs@.len(),
            out@ == base + json_of_fields(fv.take(i as int)),
        decreases fs@.len() - i,
    {
        if i > 0 {
            out.append(",");
        }
        wr_field(out, &fs[i]);
        proof {
            assert(fv.take(i + 1).drop_last() =~= fv.take(i as int));
            assert(fv.take(i + 1).last() == fv[i as int]);
            assert(out@ =~= base + json_of_fields(fv.take(i + 1)));
        }
        i = i + 1;
    }
    proof {
        assert(fv.take(fv.len() as int) =~= fv);
    }
}

fn wr_value(out: &mut String, v: &EnumValue)
    ensures
        final(out)@ == old(out)@ + json_of_value(v@),
{
    out.append("{\"name\":");
    wr_jstr(out, &v.name);
    out.append(",\"number\":");
    let num = render_tag(v.number);
    out.append(num.as_str());
    out.append("}");
}

fn wr_values(out: &mut String, vs: &Vec<EnumValue>)
    ensures
        final(out)@ == old(out)@ + json_of_values(vals_view(vs@)),
{
    let ghost vv = vals_view(vs@);
    let ghost base = out@;
    let mut i: usize = 0;
    while i < vs.len()
        invariant
            0 <= i <= vs@.len(),
            vv == vals_view(vs@),
            vv.len() == vs@.len(),
            out@ == base + json_of_values(vv.take(i as int)),
        decreases vs@.len() - i,
    {
        if i > 0 {
            out.append(",");
        }
        wr_value(out, &vs[i]);
        proof {
            assert(vv.take(i + 1).drop_last() =~= vv.take(i as int));
            assert(vv.take(i + 1).last() == vv[i as int]);
            assert(out@ =~= base + json_of_values(vv.take(i + 1)));
        }
        i = i + 1;
    }
    proof {
        assert(vv.take(vv.len() as int) =~= vv);
    }
}

fn wr_enum(out: &mut String, e: &EnumDef)
    ensures
        final(out)@ == old(out)@ + json_of_enum(e@),
{
    out.append("{\"name\":");
    wr_jstr(out, &e.name);
    out.append(",\"values\":[");
    wr_values(out, &e.values);
    out.append("]}");
}

fn wr_enums(out: &mut String, es: &Vec<EnumDef>)
    ensures
        final(out)@ == old(out)@ + json_of_enums(enums_view(es@)),
{
    let ghost ev = enums_view(es@);
    let ghost base = out@;
    let mut i: usize = 0;
    while i < es.len()
        invariant
            0 <= i <= es@.len(),
            ev == enums_view(es@),
            ev.len() == es@.len(),
            out@ == base + json_of_enums(ev.take(i as int)),
        decreases es@.len() - i,
    {
        if i > 0 {
            out.append(",");
        }
        wr_enum(out, &es[i]);
        proof {
            assert(ev.take(i + 1).drop_last() =~= ev.take(i as int));
            assert(ev.take(i + 1).last() == ev[i as int]);
            assert(out@ =~= base + json_of_enums(ev.take(i + 1)));
        }
        i = i + 1;
    }
    proof {
        assert(ev.take(ev.len() as int) =~= ev);
    }
}

fn wr_method(out: &mut String, m: &Method)
    ensures
        final(out)@ == old(out)@ + json_of_method(m@),
{
    out.append("{\"name\":");
    wr_jstr(out, &m.name);
    out.append(",\"input_type\":");
    wr_jstr(out, &m.input_type);
    out.append(",\"output_type\":");
    wr_jstr(out, &m.output_type);
    out.append("}");
}

fn wr_methods(out: &mut String, ms: &Vec<Method>)
    ensures
        final(out)@ == old(out)@ + json_of_methods(methods_view(ms@)),
{
    let ghost mv = methods_view(ms@);
    let ghost base = out@;
    let mut i: usize = 0;
    while i < ms.len()
        invariant
            0 <= i <= ms@.len(),
            mv == methods_view(ms@),
            mv.len() == ms@.len(),
            out@ == base + json_of_methods(mv.take(i as int)),
        decreases ms@.len() - i,
    {
        if i > 0 {
            out.append(",");
        }
        wr_method(out, &ms[i]);
        proof {
            assert(mv.take(i + 1).drop_last() =~= mv.take(i as int));
            assert(mv.take(i + 1).last() == mv[i as int]);
            assert(out@ =~= base + json_of_methods(mv.take(i + 1)));
        }
        i = i + 1;
    }
    proof {
        assert(mv.take(mv.len() as int) =~= mv);
    }
}

fn wr_service(out: &mut String, s: &Service)
    ensures
        final(out)@ == old(out)@ + json_of_service(s@),
{
    out.append("{\"name\":");
    wr_jstr(out, &s.name);
    out.append(",\"methods\":[");
    wr_methods(out, &s.methods);
    out.append("]}");
}

fn wr_services(out: &mut String, ss: &Vec<Service>)
    ensures
        final(out)@ == old(out)@ + json_of_services(services_view(ss@)),
{
    let ghost sv = services_view(ss@);
    let ghost base = out@;
    let mut i: usize = 0;
    while i < ss.len()
        invariant
            0 <= i <= ss@.len(),
            sv == services_view(ss@),
            sv.len() == ss@.len(),
            out@ == base + json_of_services(sv.take(i as int)),
        decreases ss@.len() - i,
    {
        if i > 0 {
            out.append(",");
        }
        wr_service(out, &ss[i]);
        proof {
            assert(sv.take(i + 1).drop_last() =~= sv.take(i as int));
            assert(sv.take(i + 1).last() == sv[i as int]);
            assert(out@ =~= base + json_of_services(sv.take(i + 1)));
        }
        i = i + 1;
    }
    proof {
        assert(sv.take(sv.len() as int) =~= sv);
    }
}

fn wr_imports(out: &mut String, ss: &Vec<String>)
    ensures
        final(out)@ == old(out)@ + json_of_imports(strings_view(ss@)),
{
    let ghost sv = strings_view(ss@);
    let ghost base = out@;
    let mut i: usize = 0;
    while i < ss.len()
        invariant
            0 <= i <= ss@.len(),
            sv == strings_view(ss@),
            sv.len() == ss@.len(),
            out@ == base + json_of_imports(sv.take(i as int)),
        decreases ss@.len() - i,
    {
        if i > 0 {
            out.append(",");
        }
        wr_jstr(out, &ss[i]);
        proof {
            assert(sv.take(i + 1).drop_last() =~= sv.take(i as int));
            assert(sv.take(i + 1).last() == sv[i as int]);
            assert(out@ =~= base + json_of_imports(sv.take(i + 1)));
        }
        i = i + 1;
    }
    proof {
        assert(sv.take(sv.len() as int) =~= sv);
    }
}

fn wr_message(out: &mut String, m: &Message)
    ensures
        final(out)@ == old(out)@ + json_of_message(m@),
    decreases *m, 1int,
{
    out.append("{\"name\":");
    wr_jstr(out, &m.name);
    out.append(",\"fields\":[");
    wr_fields(out, &m.fields);
    out.append("],\"nested_messages\":[");
    wr_messages(out, &m.nested_messages);
    out.append("],\"nested_enums\":[");
    wr_enums(out, &m.nested_enums);
    out.append("]}");
    proof {
        assert(final(out)@ =~= old(out)@ + json_of_message(m@));
    }
}

fn wr_messages(out: &mut String, ms: &Vec<Message>)
    ensures
        final(out)@ == old(out)@ + json_of_messages(msgs_view(ms@)),
    decreases ms@, 0int,
{
    let ghost mv = msgs_view(ms@);
    let ghost base = out@;
    proof {
        crate::ast::lemma_msgs_view(ms@);
    }
    let mut i: usize = 0;
    while i < ms.len()
        invariant
            0 <= i <= ms@.len(),
            mv == msgs_view(ms@),
            mv.len() == ms@.len(),
            forall|k: int| 0 <= k < ms@.len() ==> mv[k] == crate::ast::msg_view(ms@[k]),
            out@ == base + json_of_messages(mv.take(i as int)),
        decreases ms@.len() - i,
    {
        if i > 0 {
            out.append(",");
        }
        wr_message(out, &ms[i]);
        proof {
            assert(mv.take(i + 1).drop_last() =~= mv.take(i as int));
            assert(mv.take(i + 1).last() == mv[i as int]);
            assert(out@ =~= base + json_of_messages(mv.take(i + 1)));
        }
        i = i + 1;
    }
    proof {
        assert(mv.take(mv.len() as int) =~= mv);
    }
}

impl Proto {
    /// Serializes the tree to its canonical JSON document.
    pub fn to_json(&self) -> (r: String)
        ensures
            r@ == json_of_proto(self@),
    {
        let mut out = String::new();
        out.append("{\"syntax\":");
        wr_jstr(&mut out, &self.syntax);
        out.append(",\"package\":");
        match &self.package {
            Some(p) => {
                wr_jstr(&mut out, p);
            },
            None => {
                out.append("null");
            },
        }
        out.append(",\"imports\":[");
        wr_imports(&mut out, &self.imports);
        out.append("],\"messages\":[");
        wr_messages(&mut out, &self.messages);
        out.append("],\"enums\":[");
        wr_enums(&mut out, &self.enums);
        out.append("],\"services\":[");
        wr_services(&mut out, &self.services);
        out.append("]}");
        proof {
            assert(out@ =~= json_of_proto(self@));
        }
        out
    }

    /// Parses proto source text and serializes the result: the JSON document
    /// of the tree the grammar derives, or a single syntax error when the
    /// text does not match the grammar.
    pub fn parse(input: &str) -> (r: Result<String, ParserError>)
        ensures
            match r {
                Ok(j) => spec_parse(input@) is Some && spec_parse(input@).unwrap().wf() && j@
                    == json_of_proto(spec_parse(input@).unwrap()),
                Err(e) => spec_parse(input@) is None && e is SyntaxError,
            },
    {
        match ProtoParser::parse_source(input) {
            Ok(p) => Ok(p.to_json()),
            Err(e) => Err(e),
        }
    }
}

} // verus!
