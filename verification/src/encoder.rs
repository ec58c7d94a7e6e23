//! The outbound encoder: the requests of a client as they stand on the
//! wire. The attributes of a tag are written in a fixed order, so the
//! bytes of a request are a function of the request.

use crate::store::Client;
use crate::text::owned;
use crate::types::{
    elements_view, text_view, Element, ElementView, GetProperties, GetPropertiesView, Kind,
    Parameter, ParameterView, PropertyState, SwitchState, Value, ValueView,
};
use crate::xml::{escape, xml_escaped};
use vstd::prelude::*;
use vstd::string::*;
use vstd::utf8::*;

verus! {

/// The version of the protocol that this client speaks.
pub fn protocol_version() -> (v: &'static str)
    ensures
        v@ == "1.7"@,
{
    "1.7"
}

/// An attribute as it is written: a blank, the key, and the escaped
/// value in double quotes.
pub open spec fn attribute_bytes(key: Seq<char>, value: Seq<char>) -> Seq<u8> {
    encode_utf8(" "@) + encode_utf8(key) + encode_utf8("=\""@) + xml_escaped(encode_utf8(value))
        + encode_utf8("\""@)
}

/// An attribute that may be absent.
pub open spec fn optional_attribute_bytes(key: Seq<char>, value: Option<Seq<char>>) -> Seq<u8> {
    match value {
        Some(v) => attribute_bytes(key, v),
        None => Seq::empty(),
    }
}

/// The query for properties: `version`, then `device` and `name` where
/// the query names them.
pub open spec fn get_properties_bytes(g: GetPropertiesView) -> Seq<u8> {
    encode_utf8("<getProperties"@) + attribute_bytes("version"@, g.version)
        + optional_attribute_bytes("device"@, g.device) + optional_attribute_bytes(
        "name"@,
        g.name,
    ) + encode_utf8("/>"@)
}

/// The name of a kind as it stands in tag names.
pub open spec fn kind_word(kind: Kind) -> Seq<char> {
    match kind {
        Kind::Number => "Number"@,
        Kind::Text => "Text"@,
        Kind::Switch => "Switch"@,
        Kind::Light => "Light"@,
        Kind::Blob => "BLOB"@,
    }
}

pub open spec fn state_word(s: PropertyState) -> Seq<char> {
    match s {
        PropertyState::Idle => "Idle"@,
        PropertyState::Okay => "Ok"@,
        PropertyState::Busy => "Busy"@,
        PropertyState::Alert => "Alert"@,
    }
}

/// The text of a value, escaped.
pub open spec fn value_bytes(v: ValueView) -> Seq<u8> {
    match v {
        ValueView::Number(t) => xml_escaped(encode_utf8(t)),
        ValueView::Text(t) => xml_escaped(encode_utf8(t)),
        ValueView::Switch(SwitchState::On) => encode_utf8("On"@),
        ValueView::Switch(SwitchState::Off) => encode_utf8("Off"@),
        ValueView::Light(s) => encode_utf8(state_word(s)),
        ValueView::Blob(b) => xml_escaped(b),
        ValueView::Absent => Seq::empty(),
    }
}

/// One element of a request: its name and its value, nothing of what
/// only a definition holds.
pub open spec fn one_element_bytes(kind: Kind, e: ElementView) -> Seq<u8> {
    encode_utf8("<one"@) + encode_utf8(kind_word(kind)) + attribute_bytes("name"@, e.name)
        + encode_utf8(">"@) + value_bytes(e.value) + encode_utf8("</one"@) + encode_utf8(
        kind_word(kind),
    ) + encode_utf8(">"@)
}

pub open spec fn elements_bytes(kind: Kind, es: Seq<ElementView>) -> Seq<u8>
    decreases es.len(),
{
    if es.len() == 0 {
        Seq::empty()
    } else {
        elements_bytes(kind, es.drop_last()) + one_element_bytes(kind, es.last())
    }
}

/// The start tag of a request for new values: `device`, then `name`.
pub open spec fn new_vector_head(p: ParameterView) -> Seq<u8> {
    encode_utf8("<new"@) + encode_utf8(kind_word(p.kind)) + encode_utf8("Vector"@)
        + attribute_bytes("device"@, p.device) + attribute_bytes("name"@, p.name) + encode_utf8(
        ">"@,
    )
}

/// The end tag of a request for new values.
pub open spec fn new_vector_tail(kind: Kind) -> Seq<u8> {
    encode_utf8("</new"@) + encode_utf8(kind_word(kind)) + encode_utf8("Vector>"@)
}

/// The request for new values of a property: the start tag, the
/// elements in their order, the end tag.
pub open spec fn new_vector_bytes(p: ParameterView) -> Seq<u8> {
    new_vector_head(p) + elements_bytes(p.kind, p.elements) + new_vector_tail(p.kind)
}

fn push_bytes(out: &mut Vec<u8>, bytes: &[u8])
    ensures
        final(out)@ == old(out)@ + bytes@,
{
    let mut i: usize = 0;
    while i < bytes.len()
        invariant
            i <= bytes@.len(),
            out@ == old(out)@ + bytes@.take(i as int),
        decreases bytes@.len() - i,
    {
        out.push(bytes[i]);
        assert(out@ =~= old(out)@ + bytes@.take(i + 1));
        i += 1;
    }
    assert(bytes@.take(bytes@.len() as int) =~= bytes@);
}

fn push_text(out: &mut Vec<u8>, text: &str)
    ensures
        final(out)@ == old(out)@ + encode_utf8(text@),
{
    push_bytes(out, text.as_bytes());
}

fn push_escaped(out: &mut Vec<u8>, raw: &[u8])
    ensures
        final(out)@ == old(out)@ + xml_escaped(raw@),
{
    let escaped = escape(raw);
    push_bytes(out, escaped.as_slice());
}

fn push_attribute(out: &mut Vec<u8>, key: &str, value: &str)
    ensures
        final(out)@ == old(out)@ + attribute_bytes(key@, value@),
{
    push_text(out, " ");
    push_text(out, key);
    push_text(out, "=\"");
    push_escaped(out, value.as_bytes());
    push_text(out, "\"");
    assert(out@ =~= old(out)@ + attribute_bytes(key@, value@));
}

fn push_optional_attribute(out: &mut Vec<u8>, key: &str, value: &Option<String>)
    ensures
        final(out)@ == old(out)@ + optional_attribute_bytes(key@, text_view(*value)),
{
    match value {
        Some(v) => {
            push_attribute(out, key, v.as_str());
        },
        None => {
            assert(out@ =~= old(out)@ + Seq::<u8>::empty());
        },
    }
}

fn kind_name(kind: Kind) -> (r: &'static str)
    ensures
        r@ == kind_word(kind),
{
    match kind {
        Kind::Number => "Number",
        Kind::Text => "Text",
        Kind::Switch => "Switch",
        Kind::Light => "Light",
        Kind::Blob => "BLOB",
    }
}

fn state_name(s: PropertyState) -> (r: &'static str)
    ensures
        r@ == state_word(s),
{
    match s {
        PropertyState::Idle => "Idle",
        PropertyState::Okay => "Ok",
        PropertyState::Busy => "Busy",
        PropertyState::Alert => "Alert",
    }
}

fn push_value(out: &mut Vec<u8>, value: &Value)
    ensures
        final(out)@ == old(out)@ + value_bytes(value@),
{
    match value {
        Value::Number(t) => push_escaped(out, t.as_str().as_bytes()),
        Value::Text(t) => push_escaped(out, t.as_str().as_bytes()),
        Value::Switch(SwitchState::On) => push_text(out, "On"),
        Value::Switch(SwitchState::Off) => push_text(out, "Off"),
        Value::Light(s) => push_text(out, state_name(*s)),
        Value::Blob(b) => push_escaped(out, b.as_slice()),
        Value::Absent => {
            assert(out@ =~= old(out)@ + Seq::<u8>::empty());
        },
    }
}

fn push_element(out: &mut Vec<u8>, kind: Kind, e: &Element)
    ensures
        final(out)@ == old(out)@ + one_element_bytes(kind, e@),
{
    push_text(out, "<one");
    push_text(out, kind_name(kind));
    push_attribute(out, "name", e.name.as_str());
    push_text(out, ">");
    push_value(out, &e.value);
    push_text(out, "</one");
    push_text(out, kind_name(kind));
    push_text(out, ">");
    assert(out@ =~= old(out)@ + one_element_bytes(kind, e@));
}

/// What can be written to the wire.
pub trait XmlSerialization {
    /// The bytes of the request.
    spec fn wire(&self) -> Seq<u8>;

    /// Appends the request to `out`.
    fn send(&self, out: &mut Vec<u8>)
        ensures
            final(out)@ == old(out)@ + self.wire(),
    ;
}

impl XmlSerialization for GetProperties {
    open spec fn wire(&self) -> Seq<u8> {
        get_properties_bytes(self@)
    }

    fn send(&self, out: &mut Vec<u8>) {
        push_text(out, "<getProperties");
        push_attribute(out, "version", self.version.as_str());
        push_optional_attribute(out, "device", &self.device);
        push_optional_attribute(out, "name", &self.name);
        push_text(out, "/>");
        assert(out@ =~= old(out)@ + get_properties_bytes(self@));
    }
}

fn push_head(out: &mut Vec<u8>, p: &Parameter)
    ensures
        final(out)@ == old(out)@ + new_vector_head(p@),
{
    push_text(out, "<new");
    push_text(out, kind_name(p.kind));
    push_text(out, "Vector");
    push_attribute(out, "device", p.device.as_str());
    push_attribute(out, "name", p.name.as_str());
    push_text(out, ">");
    assert(out@ =~= old(out)@ + new_vector_head(p@));
}

fn push_tail(out: &mut Vec<u8>, kind: Kind)
    ensures
        final(out)@ == old(out)@ + new_vector_tail(kind),
{
    push_text(out, "</new");
    push_text(out, kind_name(kind));
    push_text(out, "Vector>");
    assert(out@ =~= old(out)@ + new_vector_tail(kind));
}

fn push_elements(out: &mut Vec<u8>, kind: Kind, elements: &Vec<Element>)
    ensures
        final(out)@ == old(out)@ + elements_bytes(kind, elements_view(elements@)),
{
    let ghost views = elements_view(elements@);
    let mut i: usize = 0;
    assert(out@ =~= old(out)@ + elements_bytes(kind, views.take(0)));
    while i < elements.len()
        invariant
            i <= elements@.len(),
            views == elements_view(elements@),
            out@ == old(out)@ + elements_bytes(kind, views.take(i as int)),
        decreases elements@.len() - i,
    {
        let ghost before = out@;
        push_element(out, kind, &elements[i]);
        assert(views.take(i + 1).drop_last() =~= views.take(i as int));
        assert(views.take(i + 1).last() == elements@[i as int]@);
        assert(elements_bytes(kind, views.take(i + 1)) == elements_bytes(
            kind,
            views.take(i as int),
        ) + one_element_bytes(kind, elements@[i as int]@));
        assert(out@ =~= old(out)@ + elements_bytes(kind, views.take(i + 1)));
        i += 1;
    }
    assert(views.take(views.len() as int) =~= views);
}

impl XmlSerialization for Parameter {
    open spec fn wire(&self) -> Seq<u8> {
        new_vector_bytes(self@)
    }

    fn send(&self, out: &mut Vec<u8>) {
        push_head(out, self);
        push_elements(out, self.kind, &self.elements);
        push_tail(out, self.kind);
        assert(out@ =~= old(out)@ + new_vector_bytes(self@));
    }
}

impl GetProperties {
    /// The query for all properties of all devices.
    pub fn all() -> (g: GetProperties)
        ensures
            g@ == (GetPropertiesView { version: "1.7"@, device: None, name: None }),
    {
        GetProperties { version: owned(protocol_version()), device: None, name: None }
    }
}

impl Client {
    /// The request that asks the server to define all its devices.
    pub fn query_devices(&self) -> (request: Vec<u8>)
        ensures
            request@ == get_properties_bytes(
                GetPropertiesView { version: "1.7"@, device: None, name: None },
            ),
    {
        let mut out: Vec<u8> = Vec::new();
        GetProperties::all().send(&mut out);
        assert(out@ =~= get_properties_bytes(
            GetPropertiesView { version: "1.7"@, device: None, name: None },
        ));
        out
    }
}

} // verus!
