//! The typed abstract syntax tree: the entities of a proto file, their
//! mathematical views, and the well-formedness invariant that construction
//! establishes and the serializer relies on.

use vstd::prelude::*;
use crate::text::{is_digit, is_ident_char, is_str_char};

verus! {

/// A field of a message.
pub struct Field {
    /// Name of the field.
    pub name: String,
    /// Type of the field: a primitive-type keyword or a message/enum reference.
    pub type_ref: String,
    /// Numeric tag identifying the field.
    pub tag: i32,
    /// Whether the field's rule modifier was exactly `repeated`.
    pub repeated: bool,
}

/// A single value of an enum definition.
pub struct EnumValue {
    /// Name of the value.
    pub name: String,
    /// Number associated with the value.
    pub number: i32,
}

/// An enumeration definition.
pub struct EnumDef {
    /// Name of the enum type.
    pub name: String,
    /// The values, in source order.
    pub values: Vec<EnumValue>,
}

/// An RPC method of a service.
pub struct Method {
    /// Name of the method.
    pub name: String,
    /// Input message type, with any `stream` marker stripped.
    pub input_type: String,
    /// Output message type, with any `stream` marker stripped.
    pub output_type: String,
}

/// A service definition.
pub struct Service {
    /// Name of the service.
    pub name: String,
    /// The methods, in source order.
    pub methods: Vec<Method>,
}

/// A message definition; messages nest to arbitrary depth.
pub struct Message {
    /// Name of the message type.
    pub name: String,
    /// The fields, in source order.
    pub fields: Vec<Field>,
    /// Messages defined within this message, in source order.
    pub nested_messages: Vec<Message>,
    /// Enums defined within this message, in source order.
    pub nested_enums: Vec<EnumDef>,
}

/// A complete proto file.
pub struct Proto {
    /// The declared syntax version, `"proto3"` when none is declared.
    pub syntax: String,
    /// The package name, when declared.
    pub package: Option<String>,
    /// The imported file paths, in source order.
    pub imports: Vec<String>,
    /// Top-level messages, in source order.
    pub messages: Vec<Message>,
    /// Top-level enums, in source order.
    pub enums: Vec<EnumDef>,
    /// Services, in source order.
    pub services: Vec<Service>,
}

/// The mathematical value of a `Field`.
#[verifier::ext_equal]
pub struct FieldView {
    pub name: Seq<char>,
    pub type_ref: Seq<char>,
    pub tag: int,
    pub repeated: bool,
}

/// The mathematical value of an `EnumValue`.
#[verifier::ext_equal]
pub struct EnumValueView {
    pub name: Seq<char>,
    pub number: int,
}

/// The mathematical value of an `EnumDef`.
#[verifier::ext_equal]
pub struct EnumDefView {
    pub name: Seq<char>,
    pub values: Seq<EnumValueView>,
}

/// The mathematical value of a `Method`.
#[verifier::ext_equal]
pub struct MethodView {
    pub name: Seq<char>,
    pub input_type: Seq<char>,
    pub output_type: Seq<char>,
}

/// The mathematical value of a `Service`.
#[verifier::ext_equal]
pub struct ServiceView {
    pub name: Seq<char>,
    pub methods: Seq<MethodView>,
}

/// The mathematical value of a `Message`.
#[verifier::ext_equal]
pub struct MessageView {
    pub name: Seq<char>,
    pub fields: Seq<FieldView>,
    pub nested_messages: Seq<MessageView>,
    pub nested_enums: Seq<EnumDefView>,
}

/// The mathematical value of a `Proto`.
#[verifier::ext_equal]
pub struct ProtoView {
    pub syntax: Seq<char>,
    pub package: Option<Seq<char>>,
    pub imports: Seq<Seq<char>>,
    pub messages: Seq<MessageView>,
    pub enums: Seq<EnumDefView>,
    pub services: Seq<ServiceView>,
}

impl View for Field {
    type V = FieldView;

    open spec fn view(&self) -> FieldView {
        FieldView {
            name: self.name@,
            type_ref: self.type_ref@,
            tag: self.tag as int,
            repeated: self.repeated,
        }
    }
}

impl View for EnumValue {
    type V = EnumValueView;

    open spec fn view(&self) -> EnumValueView {
        EnumValueView { name: self.name@, number: self.number as int }
    }
}

impl View for EnumDef {
    type V = EnumDefView;

    open spec fn view(&self) -> EnumDefView {
        EnumDefView { name: self.name@, values: vals_view(self.values@) }
    }
}

impl View for Method {
    type V = MethodView;

    open spec fn view(&self) -> MethodView {
        MethodView {
            name: self.name@,
            input_type: self.input_type@,
            output_type: self.output_type@,
        }
    }
}

impl View for Service {
    type V = ServiceView;

    open spec fn view(&self) -> ServiceView {
        ServiceView { name: self.name@, methods: methods_view(self.methods@) }
    }
}

/// The values of a sequence of fields.
pub open spec fn fields_view(fs: Seq<Field>) -> Seq<FieldView> {
    fs.map_values(|f: Field| f@)
}

/// The values of a sequence of enum values.
pub open spec fn vals_view(vs: Seq<EnumValue>) -> Seq<EnumValueView> {
    vs.map_values(|v: EnumValue| v@)
}

/// The values of a sequence of enum definitions.
pub open spec fn enums_view(es: Seq<EnumDef>) -> Seq<EnumDefView> {
    es.map_values(|e: EnumDef| e@)
}

/// The values of a sequence of methods.
pub open spec fn methods_view(ms: Seq<Method>) -> Seq<MethodView> {
    ms.map_values(|m: Method| m@)
}

/// The values of a sequence of services.
pub open spec fn services_view(ss: Seq<Service>) -> Seq<ServiceView> {
    ss.map_values(|s: Service| s@)
}

/// The values of a sequence of strings.
pub open spec fn strings_view(ss: Seq<String>) -> Seq<Seq<char>> {
    ss.map_values(|s: String| s@)
}

/// The values of a sequence of messages.
pub open spec fn msgs_view(ms: Seq<Message>) -> Seq<MessageView>
    decreases ms,
{
    if ms.len() == 0 {
        Seq::empty()
    } else {
        seq![msg_view(ms[0])] + msgs_view(ms.drop_first())
    }
}

/// The mathematical value of a message, recursively.
pub open spec fn msg_view(m: Message) -> MessageView
    decreases m,
{
    MessageView {
        name: m.name@,
        fields: fields_view(m.fields@),
        nested_messages: msgs_view(m.nested_messages@),
        nested_enums: enums_view(m.nested_enums@),
    }
}

/// `msgs_view` maps `msg_view` over the sequence, index by index.
pub proof fn lemma_msgs_view(ms: Seq<Message>)
    ensures
        msgs_view(ms).len() == ms.len(),
        forall|i: int| 0 <= i < ms.len() ==> msgs_view(ms)[i] == msg_view(ms[i]),
    decreases ms.len(),
{
    if ms.len() > 0 {
        lemma_msgs_view(ms.drop_first());
    }
}

impl View for Message {
    type V = MessageView;

    open spec fn view(&self) -> MessageView {
        msg_view(*self)
    }
}

impl View for Proto {
    type V = ProtoView;

    open spec fn view(&self) -> ProtoView {
        ProtoView {
            syntax: self.syntax@,
            package: match self.package {
                Some(p) => Some(p@),
                None => None,
            },
            imports: strings_view(self.imports@),
            messages: msgs_view(self.messages@),
            enums: enums_view(self.enums@),
            services: services_view(self.services@),
        }
    }
}

/// A well-formed identifier: non-empty, all characters identifier characters.
pub open spec fn wf_ident(s: Seq<char>) -> bool {
    s.len() > 0 && forall|k: int| 0 <= k < s.len() ==> is_ident_char(#[trigger] s[k])
}

/// A well-formed plain or dotted name: non-empty, identifier characters and
/// dots only.
pub open spec fn wf_dotted(s: Seq<char>) -> bool {
    s.len() > 0 && forall|k: int| 0 <= k < s.len() ==> is_ident_char(#[trigger] s[k]) || s[k] == '.'
}

/// Well-formed string-literal contents: path-like characters only.
pub open spec fn wf_str(s: Seq<char>) -> bool {
    forall|k: int| 0 <= k < s.len() ==> is_str_char(#[trigger] s[k])
}

/// A well-formed digit string: non-empty, decimal digits only.
pub open spec fn wf_digits(s: Seq<char>) -> bool {
    s.len() > 0 && forall|k: int| 0 <= k < s.len() ==> is_digit(#[trigger] s[k])
}

/// Every field of a sequence is well formed.
pub open spec fn all_wf_fields(fs: Seq<FieldView>) -> bool {
    forall|k: int| 0 <= k < fs.len() ==> (#[trigger] fs[k]).wf()
}

/// Every enum value of a sequence is well formed.
pub open spec fn all_wf_vals(vs: Seq<EnumValueView>) -> bool {
    forall|k: int| 0 <= k < vs.len() ==> (#[trigger] vs[k]).wf()
}

/// Every enum definition of a sequence is well formed.
pub open spec fn all_wf_enums(es: Seq<EnumDefView>) -> bool {
    forall|k: int| 0 <= k < es.len() ==> (#[trigger] es[k]).wf()
}

/// Every method of a sequence is well formed.
pub open spec fn all_wf_methods(ms: Seq<MethodView>) -> bool {
    forall|k: int| 0 <= k < ms.len() ==> (#[trigger] ms[k]).wf()
}

/// Every service of a sequence is well formed.
pub open spec fn all_wf_services(ss: Seq<ServiceView>) -> bool {
    forall|k: int| 0 <= k < ss.len() ==> (#[trigger] ss[k]).wf()
}

/// Every message of a sequence is well formed.
pub open spec fn all_wf_msgs(ms: Seq<MessageView>) -> bool {
    forall|k: int| 0 <= k < ms.len() ==> (#[trigger] ms[k]).wf()
}

/// Every string of a sequence is well-formed literal contents.
pub open spec fn all_wf_strs(ss: Seq<Seq<char>>) -> bool {
    forall|k: int| 0 <= k < ss.len() ==> wf_str(#[trigger] ss[k])
}

impl FieldView {
    /// Names are identifier-shaped, the type is a plain or dotted name, and
    /// the tag is a representable non-negative number.
    pub open spec fn wf(self) -> bool {
        wf_ident(self.name) && wf_dotted(self.type_ref) && 0 <= self.tag <= i32::MAX
    }
}

impl EnumValueView {
    pub open spec fn wf(self) -> bool {
        wf_ident(self.name) && 0 <= self.number <= i32::MAX
    }
}

impl EnumDefView {
    pub open spec fn wf(self) -> bool {
        wf_ident(self.name) && all_wf_vals(self.values)
    }
}

impl MethodView {
    pub open spec fn wf(self) -> bool {
        wf_ident(self.name) && wf_ident(self.input_type) && wf_ident(self.output_type)
    }
}

impl ServiceView {
    pub open spec fn wf(self) -> bool {
        wf_ident(self.name) && all_wf_methods(self.methods)
    }
}

impl MessageView {
    /// Every name in the tree is well formed, recursively.
    pub open spec fn wf(self) -> bool
        decreases self,
    {
        wf_ident(self.name) && all_wf_fields(self.fields) && (forall|k: int|
            0 <= k < self.nested_messages.len() ==> (#[trigger] self.nested_messages[k]).wf())
            && all_wf_enums(self.nested_enums)
    }
}

impl ProtoView {
    /// Every name in the document is well formed.
    pub open spec fn wf(self) -> bool {
        wf_str(self.syntax) && (match self.package {
            Some(p) => wf_dotted(p),
            None => true,
        }) && all_wf_strs(self.imports) && all_wf_msgs(self.messages) && all_wf_enums(self.enums)
            && all_wf_services(self.services)
    }
}

} // verus!
