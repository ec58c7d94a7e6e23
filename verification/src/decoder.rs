//! The command decoder: from the events of the tokenizer to commands.
//!
//! The specification reads a sequence of events from the front and says
//! what is decoded and which events are left. The executable decoder
//! pulls the same events from an `EventSource` one at a time.

use crate::codec::{latin1_decode, latin1_text, utf8_text, Timestamp};
use crate::fields::{tag_fields, yields, Fields, FieldsView, Tag};
use crate::grammar::{property_state, switch_state};
use crate::text::{is_float, is_float_literal, text_is};
use crate::types::{
    AttrName, Command, CommandView, DeError, DelProperty, DelPropertyView, Element, ElementView,
    EventKind, Fault, GetProperties, GetPropertiesView, Kind, Message, MessageView, Parameter,
    ParameterView, PropertyState, SwitchState, Value, ValueView, Verb,
};
use crate::xml::{
    consumed, doctype_at, holds_doctype, pending, unescape, xml_events, xml_unescaped,
    EventSource, XmlEvent, XmlItem,
};
use vstd::prelude::*;
use vstd::slice::*;
use vstd::utf8::*;

verus! {

/// What a decoding step makes of a sequence of events: its result, and
/// the events that it leaves for the next step.
pub struct Decoded<T> {
    pub result: Result<T, Fault>,
    pub rest: Seq<XmlItem>,
}

/// The name of the elements of a vector.
pub open spec fn child_tag(verb: Verb, kind: Kind) -> Seq<char> {
    match (verb, kind) {
        (Verb::Define, Kind::Number) => "defNumber"@,
        (Verb::Define, Kind::Text) => "defText"@,
        (Verb::Define, Kind::Switch) => "defSwitch"@,
        (Verb::Define, Kind::Light) => "defLight"@,
        (Verb::Define, Kind::Blob) => "defBLOB"@,
        (_, Kind::Number) => "oneNumber"@,
        (_, Kind::Text) => "oneText"@,
        (_, Kind::Switch) => "oneSwitch"@,
        (_, Kind::Light) => "oneLight"@,
        (_, Kind::Blob) => "oneBLOB"@,
    }
}

/// The command that a top-level tag opens, if the protocol knows it.
pub open spec fn top_tag(name: Seq<char>) -> Option<Tag> {
    if name == "defNumberVector"@ {
        Some(Tag::Vector(Verb::Define, Kind::Number))
    } else if name == "setNumberVector"@ {
        Some(Tag::Vector(Verb::Update, Kind::Number))
    } else if name == "newNumberVector"@ {
        Some(Tag::Vector(Verb::Request, Kind::Number))
    } else if name == "defTextVector"@ {
        Some(Tag::Vector(Verb::Define, Kind::Text))
    } else if name == "setTextVector"@ {
        Some(Tag::Vector(Verb::Update, Kind::Text))
    } else if name == "newTextVector"@ {
        Some(Tag::Vector(Verb::Request, Kind::Text))
    } else if name == "defSwitchVector"@ {
        Some(Tag::Vector(Verb::Define, Kind::Switch))
    } else if name == "setSwitchVector"@ {
        Some(Tag::Vector(Verb::Update, Kind::Switch))
    } else if name == "newSwitchVector"@ {
        Some(Tag::Vector(Verb::Request, Kind::Switch))
    } else if name == "defLightVector"@ {
        Some(Tag::Vector(Verb::Define, Kind::Light))
    } else if name == "setLightVector"@ {
        Some(Tag::Vector(Verb::Update, Kind::Light))
    } else if name == "newLightVector"@ {
        Some(Tag::Vector(Verb::Request, Kind::Light))
    } else if name == "defBLOBVector"@ {
        Some(Tag::Vector(Verb::Define, Kind::Blob))
    } else if name == "setBLOBVector"@ {
        Some(Tag::Vector(Verb::Update, Kind::Blob))
    } else if name == "newBLOBVector"@ {
        Some(Tag::Vector(Verb::Request, Kind::Blob))
    } else if name == "message"@ {
        Some(Tag::Message)
    } else if name == "delProperty"@ {
        Some(Tag::DelProperty)
    } else if name == "getProperties"@ {
        Some(Tag::GetProperties)
    } else {
        None
    }
}

/// The literal of a number, from the bytes of an element's text: the
/// bytes are read as ISO 8859-1, whatever the encoding of the document,
/// and the text must be a floating-point literal.
pub open spec fn number_literal(bytes: Seq<u8>) -> Result<Seq<char>, Fault> {
    if is_float_literal(latin1_text(bytes)) {
        Ok(latin1_text(bytes))
    } else {
        Err(Fault::ParseFloat(latin1_text(bytes)))
    }
}

/// The value that the text of an element denotes. The text of a number
/// is read as ISO 8859-1, whatever the encoding of the document; a blob
/// that is only defined has no text.
pub open spec fn element_value(kind: Kind, verb: Verb, escaped: Seq<u8>) -> Result<
    ValueView,
    Fault,
> {
    if kind == Kind::Blob && verb == Verb::Define {
        Err(Fault::UnexpectedEvent(EventKind::Text))
    } else {
        match xml_unescaped(escaped) {
            None => Err(Fault::Xml),
            Some(bytes) => match kind {
                Kind::Number => match number_literal(bytes) {
                    Ok(text) => Ok(ValueView::Number(text)),
                    Err(f) => Err(f),
                },
                Kind::Text => if valid_utf8(bytes) {
                    Ok(ValueView::Text(decode_utf8(bytes)))
                } else {
                    Err(Fault::DecodeUtf8)
                },
                Kind::Switch => match switch_state(bytes) {
                    Some(s) => Ok(ValueView::Switch(s)),
                    None => Err(Fault::BadValue(bytes)),
                },
                Kind::Light => match property_state(bytes) {
                    Some(s) => Ok(ValueView::Light(s)),
                    None => Err(Fault::BadValue(bytes)),
                },
                Kind::Blob => Ok(ValueView::Blob(bytes)),
            },
        }
    }
}

/// The value of an element whose end tag has been reached. A text and
/// the payload of a blob may be empty; a number, a switch and a light
/// need their text.
pub open spec fn closing_value(kind: Kind, verb: Verb, value: Option<ValueView>) -> Result<
    ValueView,
    Fault,
> {
    match value {
        Some(v) => Ok(v),
        None => match kind {
            Kind::Text => Ok(ValueView::Text(Seq::empty())),
            Kind::Blob => if verb == Verb::Define {
                Ok(ValueView::Absent)
            } else {
                Ok(ValueView::Blob(Seq::empty()))
            },
            _ => Err(Fault::MissingAttr(AttrName::Value)),
        },
    }
}

/// The inside of an element: texts up to the end tag. Anything else,
/// the end of the document too, is out of place.
pub open spec fn element_body(
    kind: Kind,
    verb: Verb,
    events: Seq<XmlItem>,
    value: Option<ValueView>,
) -> Decoded<ValueView>
    decreases events.len(),
{
    if events.len() == 0 {
        Decoded { result: Err(Fault::UnexpectedEvent(EventKind::Eof)), rest: events }
    } else {
        match events[0] {
            XmlItem::Text { escaped } => match element_value(kind, verb, escaped) {
                Ok(v) => element_body(kind, verb, events.skip(1), Some(v)),
                Err(f) => Decoded { result: Err(f), rest: events.skip(1) },
            },
            XmlItem::End { .. } => Decoded {
                result: closing_value(kind, verb, value),
                rest: events.skip(1),
            },
            XmlItem::Start { .. } => Decoded {
                result: Err(Fault::UnexpectedEvent(EventKind::Start)),
                rest: events.skip(1),
            },
            XmlItem::Other => Decoded {
                result: Err(Fault::UnexpectedEvent(EventKind::Other)),
                rest: events.skip(1),
            },
            XmlItem::Malformed => Decoded { result: Err(Fault::Xml), rest: Seq::empty() },
        }
    }
}

/// The element that the fields of its start tag and its value make.
pub open spec fn element_of(f: FieldsView, value: ValueView) -> ElementView {
    ElementView {
        name: f.name.unwrap(),
        label: f.label,
        format: f.format,
        min: f.min,
        max: f.max,
        step: f.step,
        size: f.size,
        value,
    }
}

/// The name of a start tag, or `None` where it is not UTF-8.
pub open spec fn tag_name(content: Seq<u8>, name_len: int) -> Option<Seq<char>> {
    if valid_utf8(content.take(name_len)) {
        Some(decode_utf8(content.take(name_len)))
    } else {
        None
    }
}

/// One element of a vector, from its start tag (already taken from the
/// events) to its end tag.
pub open spec fn element(
    kind: Kind,
    verb: Verb,
    content: Seq<u8>,
    name_len: int,
    events: Seq<XmlItem>,
) -> Decoded<ElementView> {
    match tag_name(content, name_len) {
        None => Decoded { result: Err(Fault::DecodeUtf8), rest: events },
        Some(name) => if name != child_tag(verb, kind) {
            Decoded { result: Err(Fault::UnexpectedTag(name)), rest: events }
        } else {
            match tag_fields(Tag::Element(verb, kind), content, name_len) {
                Err(f) => Decoded { result: Err(f), rest: events },
                Ok(f) => {
                    let body = element_body(kind, verb, events, None);
                    match body.result {
                        Err(e) => Decoded { result: Err(e), rest: body.rest },
                        Ok(v) => Decoded { result: Ok(element_of(f, v)), rest: body.rest },
                    }
                },
            }
        },
    }
}

pub proof fn lemma_element_body_rest(
    kind: Kind,
    verb: Verb,
    events: Seq<XmlItem>,
    value: Option<ValueView>,
)
    ensures
        element_body(kind, verb, events, value).rest.len() <= events.len(),
        events.len() > 0 ==> element_body(kind, verb, events, value).rest.len() < events.len(),
    decreases events.len(),
{
    if events.len() > 0 {
        match events[0] {
            XmlItem::Text { escaped } => match element_value(kind, verb, escaped) {
                Ok(v) => {
                    lemma_element_body_rest(kind, verb, events.skip(1), Some(v));
                },
                Err(f) => {},
            },
            _ => {},
        }
    }
}

/// Decoding an element takes events away, never adds any.
pub proof fn lemma_element_rest(
    kind: Kind,
    verb: Verb,
    content: Seq<u8>,
    name_len: int,
    events: Seq<XmlItem>,
)
    ensures
        element(kind, verb, content, name_len, events).rest.len() <= events.len(),
{
    lemma_element_body_rest(kind, verb, events, None);
}

/// The elements of a vector, in the order of the document, up to the
/// end tag of the vector. `done` holds the elements decoded before.
pub open spec fn elements(kind: Kind, verb: Verb, events: Seq<XmlItem>, done: Seq<ElementView>) -> Decoded<
    Seq<ElementView>,
>
    decreases events.len(),
{
    if events.len() == 0 {
        Decoded { result: Err(Fault::UnexpectedEvent(EventKind::Eof)), rest: events }
    } else {
        match events[0] {
            XmlItem::Start { content, name_len } => {
                let first = element(kind, verb, content, name_len, events.skip(1));
                match first.result {
                    Err(f) => Decoded { result: Err(f), rest: first.rest },
                    Ok(e) => {
                        proof {
                            lemma_element_rest(kind, verb, content, name_len, events.skip(1));
                        }
                        elements(kind, verb, first.rest, done.push(e))
                    },
                }
            },
            XmlItem::End { .. } => Decoded { result: Ok(done), rest: events.skip(1) },
            XmlItem::Text { .. } => Decoded {
                result: Err(Fault::UnexpectedEvent(EventKind::Text)),
                rest: events.skip(1),
            },
            XmlItem::Other => Decoded {
                result: Err(Fault::UnexpectedEvent(EventKind::Other)),
                rest: events.skip(1),
            },
            XmlItem::Malformed => Decoded { result: Err(Fault::Xml), rest: Seq::empty() },
        }
    }
}

/// The end of a command without elements: its end tag and nothing
/// before it.
pub open spec fn closing(events: Seq<XmlItem>) -> Decoded<()> {
    if events.len() == 0 {
        Decoded { result: Err(Fault::UnexpectedEvent(EventKind::Eof)), rest: events }
    } else {
        match events[0] {
            XmlItem::End { .. } => Decoded { result: Ok(()), rest: events.skip(1) },
            XmlItem::Start { .. } => Decoded {
                result: Err(Fault::UnexpectedEvent(EventKind::Start)),
                rest: events.skip(1),
            },
            XmlItem::Text { .. } => Decoded {
                result: Err(Fault::UnexpectedEvent(EventKind::Text)),
                rest: events.skip(1),
            },
            XmlItem::Other => Decoded {
                result: Err(Fault::UnexpectedEvent(EventKind::Other)),
                rest: events.skip(1),
            },
            XmlItem::Malformed => Decoded { result: Err(Fault::Xml), rest: Seq::empty() },
        }
    }
}

/// The vector that the fields of its start tag and its elements make.
/// An update without a timestamp is stamped with the time of decoding.
pub open spec fn parameter_of(
    verb: Verb,
    kind: Kind,
    f: FieldsView,
    elements: Seq<ElementView>,
    now: Timestamp,
) -> ParameterView {
    ParameterView {
        kind,
        device: f.device.unwrap(),
        name: f.name.unwrap(),
        label: f.label,
        group: f.group,
        state: f.state,
        perm: f.perm,
        rule: f.rule,
        timeout: f.timeout,
        timestamp: if verb == Verb::Update && f.timestamp is None {
            Some(now)
        } else {
            f.timestamp
        },
        elements,
    }
}

pub open spec fn vector_command(verb: Verb, p: ParameterView) -> CommandView {
    match verb {
        Verb::Define => CommandView::DefParameter(p),
        Verb::Update => CommandView::SetParameter(p),
        Verb::Request => CommandView::NewParameter(p),
    }
}

/// The command without elements that the fields of its tag make.
pub open spec fn scalar_command(tag: Tag, f: FieldsView) -> CommandView {
    match tag {
        Tag::DelProperty => CommandView::DelProperty(
            DelPropertyView { device: f.device.unwrap(), name: f.name },
        ),
        Tag::GetProperties => CommandView::GetProperties(
            GetPropertiesView { version: f.version.unwrap(), device: f.device, name: f.name },
        ),
        _ => CommandView::Message(
            MessageView { device: f.device, timestamp: f.timestamp, message: f.message },
        ),
    }
}

/// A property vector, from its start tag (already taken from the
/// events) to its end tag: the fields of the start tag, then the
/// elements in the order of the document.
pub open spec fn vector(
    verb: Verb,
    kind: Kind,
    content: Seq<u8>,
    name_len: int,
    events: Seq<XmlItem>,
    now: Timestamp,
) -> Decoded<ParameterView> {
    match tag_fields(Tag::Vector(verb, kind), content, name_len) {
        Err(f) => Decoded { result: Err(f), rest: events },
        Ok(f) => {
            let body = elements(kind, verb, events, Seq::empty());
            match body.result {
                Err(e) => Decoded { result: Err(e), rest: body.rest },
                Ok(es) => Decoded {
                    result: Ok(parameter_of(verb, kind, f, es, now)),
                    rest: body.rest,
                },
            }
        },
    }
}

/// The command that begins with a start tag (already taken from the
/// events).
pub open spec fn command_from(content: Seq<u8>, name_len: int, events: Seq<XmlItem>, now: Timestamp) -> Decoded<
    CommandView,
> {
    match tag_name(content, name_len) {
        None => Decoded { result: Err(Fault::DecodeUtf8), rest: events },
        Some(name) => match top_tag(name) {
            None => Decoded { result: Err(Fault::UnexpectedTag(name)), rest: events },
            Some(Tag::Vector(verb, kind)) => {
                let v = vector(verb, kind, content, name_len, events, now);
                match v.result {
                    Err(e) => Decoded { result: Err(e), rest: v.rest },
                    Ok(p) => Decoded { result: Ok(vector_command(verb, p)), rest: v.rest },
                }
            },
            Some(tag) => match tag_fields(tag, content, name_len) {
                Err(f) => Decoded { result: Err(f), rest: events },
                Ok(f) => {
                    let end = closing(events);
                    match end.result {
                        Err(e) => Decoded { result: Err(e), rest: end.rest },
                        Ok(_) => Decoded { result: Ok(scalar_command(tag, f)), rest: end.rest },
                    }
                },
            },
        },
    }
}

/// A vector of a given command and kind read on its own: the next
/// event must be its start tag.
pub open spec fn next_vector(verb: Verb, kind: Kind, events: Seq<XmlItem>, now: Timestamp) -> Decoded<
    ParameterView,
> {
    if events.len() == 0 {
        Decoded { result: Err(Fault::UnexpectedEvent(EventKind::Eof)), rest: events }
    } else {
        match events[0] {
            XmlItem::Start { content, name_len } => match tag_name(content, name_len) {
                None => Decoded { result: Err(Fault::DecodeUtf8), rest: events.skip(1) },
                Some(name) => if top_tag(name) == Some(Tag::Vector(verb, kind)) {
                    vector(verb, kind, content, name_len, events.skip(1), now)
                } else {
                    Decoded { result: Err(Fault::UnexpectedTag(name)), rest: events.skip(1) }
                },
            },
            XmlItem::End { .. } => Decoded {
                result: Err(Fault::UnexpectedEvent(EventKind::End)),
                rest: events.skip(1),
            },
            XmlItem::Text { .. } => Decoded {
                result: Err(Fault::UnexpectedEvent(EventKind::Text)),
                rest: events.skip(1),
            },
            XmlItem::Other => Decoded {
                result: Err(Fault::UnexpectedEvent(EventKind::Other)),
                rest: events.skip(1),
            },
            XmlItem::Malformed => Decoded { result: Err(Fault::Xml), rest: Seq::empty() },
        }
    }
}

/// One element read on its own: the next event must be its start tag.
pub open spec fn next_element(kind: Kind, verb: Verb, events: Seq<XmlItem>) -> Decoded<
    ElementView,
> {
    if events.len() == 0 {
        Decoded { result: Err(Fault::UnexpectedEvent(EventKind::Eof)), rest: events }
    } else {
        match events[0] {
            XmlItem::Start { content, name_len } => element(
                kind,
                verb,
                content,
                name_len,
                events.skip(1),
            ),
            XmlItem::End { .. } => Decoded {
                result: Err(Fault::UnexpectedEvent(EventKind::End)),
                rest: events.skip(1),
            },
            XmlItem::Text { .. } => Decoded {
                result: Err(Fault::UnexpectedEvent(EventKind::Text)),
                rest: events.skip(1),
            },
            XmlItem::Other => Decoded {
                result: Err(Fault::UnexpectedEvent(EventKind::Other)),
                rest: events.skip(1),
            },
            XmlItem::Malformed => Decoded { result: Err(Fault::Xml), rest: Seq::empty() },
        }
    }
}

/// One step of the decoder at the top level: the next command, `None`
/// at the end of the document, or the failure; and the events left.
pub open spec fn next_command(events: Seq<XmlItem>, now: Timestamp) -> Decoded<
    Option<CommandView>,
> {
    if events.len() == 0 {
        Decoded { result: Ok(None), rest: events }
    } else {
        match events[0] {
            XmlItem::Start { content, name_len } => {
                let d = command_from(content, name_len, events.skip(1), now);
                match d.result {
                    Ok(c) => Decoded { result: Ok(Some(c)), rest: d.rest },
                    Err(e) => Decoded { result: Err(e), rest: d.rest },
                }
            },
            XmlItem::End { .. } => Decoded {
                result: Err(Fault::UnexpectedEvent(EventKind::End)),
                rest: events.skip(1),
            },
            XmlItem::Text { .. } => Decoded {
                result: Err(Fault::UnexpectedEvent(EventKind::Text)),
                rest: events.skip(1),
            },
            XmlItem::Other => Decoded {
                result: Err(Fault::UnexpectedEvent(EventKind::Other)),
                rest: events.skip(1),
            },
            XmlItem::Malformed => Decoded { result: Err(Fault::Xml), rest: Seq::empty() },
        }
    }
}

pub open spec fn value_view(value: Option<Value>) -> Option<ValueView> {
    match value {
        Some(v) => Some(v@),
        None => None,
    }
}

/// Whether the result `r` of a decoding step and the events that it
/// left in `source` are those of `d`.
pub open spec fn decodes<T: View>(r: Result<T, DeError>, left: Seq<XmlItem>, d: Decoded<T::V>) -> bool {
    yields(r, d.result) && left == d.rest
}

/// Reads the literal of a number from the bytes of an element's text.
pub fn number_text(bytes: &[u8]) -> (r: Result<String, DeError>)
    ensures
        yields(r, number_literal(bytes@)),
{
    match latin1_decode(bytes) {
        Ok(text) => if is_float(text.as_str()) {
            Ok(text)
        } else {
            Err(DeError::ParseFloatError(text))
        },
        Err(e) => Err(DeError::DecodeLatin(e)),
    }
}

fn read_value(kind: Kind, verb: Verb, escaped: &[u8]) -> (r: Result<Value, DeError>)
    ensures
        yields(r, element_value(kind, verb, escaped@)),
{
    if matches!(kind, Kind::Blob) && matches!(verb, Verb::Define) {
        return Err(DeError::UnexpectedEvent(EventKind::Text));
    }
    let bytes = match unescape(escaped) {
        Ok(bytes) => bytes,
        Err(e) => {
            return Err(DeError::XmlError(e));
        },
    };
    match kind {
        Kind::Number => match number_text(bytes.as_slice()) {
            Ok(text) => Ok(Value::Number(text)),
            Err(e) => Err(e),
        },
        Kind::Text => match utf8_text(bytes) {
            Ok(text) => Ok(Value::Text(text)),
            Err(e) => Err(DeError::DecodeUtf8(e)),
        },
        Kind::Switch => match SwitchState::try_from(bytes.as_slice()) {
            Ok(s) => Ok(Value::Switch(s)),
            Err(e) => Err(e),
        },
        Kind::Light => match PropertyState::try_from(bytes.as_slice()) {
            Ok(s) => Ok(Value::Light(s)),
            Err(e) => Err(e),
        },
        Kind::Blob => Ok(Value::Blob(bytes)),
    }
}

fn close_value(kind: Kind, verb: Verb, value: Option<Value>) -> (r: Result<Value, DeError>)
    ensures
        yields(r, closing_value(kind, verb, value_view(value))),
{
    match value {
        Some(v) => Ok(v),
        None => match kind {
            Kind::Text => Ok(Value::Text(String::new())),
            Kind::Blob => if matches!(verb, Verb::Define) {
                Ok(Value::Absent)
            } else {
                Ok(Value::Blob(Vec::new()))
            },
            _ => Err(DeError::MissingAttr(AttrName::Value)),
        },
    }
}

fn read_element_body(source: &mut EventSource, kind: Kind, verb: Verb) -> (r: Result<
    Value,
    DeError,
>)
    ensures
        decodes(r, pending(*final(source)), element_body(kind, verb, pending(*old(source)), None)),
{
    let mut value: Option<Value> = None;
    loop
        invariant
            element_body(kind, verb, pending(*old(source)), None) == element_body(
                kind,
                verb,
                pending(*source),
                value_view(value),
            ),
        decreases pending(*source).len(),
    {
        let ghost before = pending(*source);
        match source.read_event() {
            Err(e) => {
                assert(pending(*source) =~= Seq::empty());
                return Err(DeError::XmlError(e));
            },
            Ok(XmlEvent::Text(escaped)) => match read_value(kind, verb, escaped.as_slice()) {
                Ok(v) => {
                    value = Some(v);
                },
                Err(e) => {
                    return Err(e);
                },
            },
            Ok(XmlEvent::End(_)) => {
                return close_value(kind, verb, value);
            },
            Ok(XmlEvent::Start(_, _)) => {
                return Err(DeError::UnexpectedEvent(EventKind::Start));
            },
            Ok(XmlEvent::Other) => {
                return Err(DeError::UnexpectedEvent(EventKind::Other));
            },
            Ok(XmlEvent::Eof) => {
                assert(pending(*source) =~= before);
                return Err(DeError::UnexpectedEvent(EventKind::Eof));
            },
        }
    }
}

/// The name of a start tag.
fn read_tag_name(content: &[u8], name_len: usize) -> (r: Result<String, DeError>)
    requires
        name_len <= content@.len(),
    ensures
        match tag_name(content@, name_len as int) {
            Some(name) => r matches Ok(s) && s@ == name,
            None => r matches Err(e) && e@ == Fault::DecodeUtf8,
        },
{
    let name = slice_to_vec(slice_subrange(content, 0, name_len));
    assert(name@ =~= content@.take(name_len as int));
    match utf8_text(name) {
        Ok(s) => Ok(s),
        Err(e) => Err(DeError::DecodeUtf8(e)),
    }
}

fn child_tag_name(verb: Verb, kind: Kind) -> (r: &'static str)
    ensures
        r@ == child_tag(verb, kind),
{
    match (verb, kind) {
        (Verb::Define, Kind::Number) => "defNumber",
        (Verb::Define, Kind::Text) => "defText",
        (Verb::Define, Kind::Switch) => "defSwitch",
        (Verb::Define, Kind::Light) => "defLight",
        (Verb::Define, Kind::Blob) => "defBLOB",
        (_, Kind::Number) => "oneNumber",
        (_, Kind::Text) => "oneText",
        (_, Kind::Switch) => "oneSwitch",
        (_, Kind::Light) => "oneLight",
        (_, Kind::Blob) => "oneBLOB",
    }
}

fn make_element(f: Fields, value: Value) -> (e: Element)
    requires
        f.name is Some,
    ensures
        e@ == element_of(f@, value@),
{
    Element {
        name: f.name.unwrap(),
        label: f.label,
        format: f.format,
        min: f.min,
        max: f.max,
        step: f.step,
        size: f.size,
        value,
    }
}

fn read_element(
    source: &mut EventSource,
    kind: Kind,
    verb: Verb,
    content: &[u8],
    name_len: usize,
) -> (r: Result<Element, DeError>)
    requires
        name_len <= content@.len(),
    ensures
        decodes(
            r,
            pending(*final(source)),
            element(kind, verb, content@, name_len as int, pending(*old(source))),
        ),
{
    let name = read_tag_name(content, name_len)?;
    if !text_is(&name, child_tag_name(verb, kind)) {
        return Err(DeError::UnexpectedTag(name));
    }
    let fields = Fields::parse(Tag::Element(verb, kind), content, name_len)?;
    let value = read_element_body(source, kind, verb)?;
    Ok(make_element(fields, value))
}

fn read_elements(source: &mut EventSource, kind: Kind, verb: Verb) -> (r: Result<
    Vec<Element>,
    DeError,
>)
    ensures
        match elements(kind, verb, pending(*old(source)), Seq::empty()).result {
            Ok(v) => r matches Ok(x) && crate::types::elements_view(x@) == v,
            Err(f) => r matches Err(e) && e@ == f,
        },
        pending(*final(source)) == elements(kind, verb, pending(*old(source)), Seq::empty()).rest,
{
    let mut done: Vec<Element> = Vec::new();
    assert(crate::types::elements_view(done@) =~= Seq::empty());
    loop
        invariant
            elements(kind, verb, pending(*old(source)), Seq::empty()) == elements(
                kind,
                verb,
                pending(*source),
                crate::types::elements_view(done@),
            ),
        decreases pending(*source).len(),
    {
        let ghost before = pending(*source);
        let ghost done_before = crate::types::elements_view(done@);
        match source.read_event() {
            Err(e) => {
                assert(pending(*source) =~= Seq::empty());
                return Err(DeError::XmlError(e));
            },
            Ok(XmlEvent::Start(content, name_len)) => {
                proof {
                    lemma_element_rest(kind, verb, content@, name_len as int, before.skip(1));
                }
                match read_element(source, kind, verb, content.as_slice(), name_len) {
                    Ok(e) => {
                        done.push(e);
                        assert(crate::types::elements_view(done@) =~= done_before.push(e@));
                    },
                    Err(e) => {
                        return Err(e);
                    },
                }
            },
            Ok(XmlEvent::End(_)) => {
                return Ok(done);
            },
            Ok(XmlEvent::Text(_)) => {
                return Err(DeError::UnexpectedEvent(EventKind::Text));
            },
            Ok(XmlEvent::Other) => {
                return Err(DeError::UnexpectedEvent(EventKind::Other));
            },
            Ok(XmlEvent::Eof) => {
                assert(pending(*source) =~= before);
                return Err(DeError::UnexpectedEvent(EventKind::Eof));
            },
        }
    }
}

fn read_closing(source: &mut EventSource) -> (r: Result<(), DeError>)
    ensures
        match closing(pending(*old(source))).result {
            Ok(_) => r is Ok,
            Err(f) => r matches Err(e) && e@ == f,
        },
        pending(*final(source)) == closing(pending(*old(source))).rest,
{
    let ghost before = pending(*source);
    match source.read_event() {
        Err(e) => {
            assert(pending(*source) =~= Seq::empty());
            Err(DeError::XmlError(e))
        },
        Ok(XmlEvent::End(_)) => Ok(()),
        Ok(XmlEvent::Start(_, _)) => Err(DeError::UnexpectedEvent(EventKind::Start)),
        Ok(XmlEvent::Text(_)) => Err(DeError::UnexpectedEvent(EventKind::Text)),
        Ok(XmlEvent::Other) => Err(DeError::UnexpectedEvent(EventKind::Other)),
        Ok(XmlEvent::Eof) => {
            assert(pending(*source) =~= before);
            Err(DeError::UnexpectedEvent(EventKind::Eof))
        },
    }
}

impl Tag {
    /// The command that a top-level tag opens, if the protocol knows it.
    pub fn from_name(name: &String) -> (r: Option<Tag>)
        ensures
            r == top_tag(name@),
    {
        if text_is(name, "defNumberVector") {
            Some(Tag::Vector(Verb::Define, Kind::Number))
        } else if text_is(name, "setNumberVector") {
            Some(Tag::Vector(Verb::Update, Kind::Number))
        } else if text_is(name, "newNumberVector") {
            Some(Tag::Vector(Verb::Request, Kind::Number))
        } else if text_is(name, "defTextVector") {
            Some(Tag::Vector(Verb::Define, Kind::Text))
        } else if text_is(name, "setTextVector") {
            Some(Tag::Vector(Verb::Update, Kind::Text))
        } else if text_is(name, "newTextVector") {
            Some(Tag::Vector(Verb::Request, Kind::Text))
        } else if text_is(name, "defSwitchVector") {
            Some(Tag::Vector(Verb::Define, Kind::Switch))
        } else if text_is(name, "setSwitchVector") {
            Some(Tag::Vector(Verb::Update, Kind::Switch))
        } else if text_is(name, "newSwitchVector") {
            Some(Tag::Vector(Verb::Request, Kind::Switch))
        } else if text_is(name, "defLightVector") {
            Some(Tag::Vector(Verb::Define, Kind::Light))
        } else if text_is(name, "setLightVector") {
            Some(Tag::Vector(Verb::Update, Kind::Light))
        } else if text_is(name, "newLightVector") {
            Some(Tag::Vector(Verb::Request, Kind::Light))
        } else if text_is(name, "defBLOBVector") {
            Some(Tag::Vector(Verb::Define, Kind::Blob))
        } else if text_is(name, "setBLOBVector") {
            Some(Tag::Vector(Verb::Update, Kind::Blob))
        } else if text_is(name, "newBLOBVector") {
            Some(Tag::Vector(Verb::Request, Kind::Blob))
        } else if text_is(name, "message") {
            Some(Tag::Message)
        } else if text_is(name, "delProperty") {
            Some(Tag::DelProperty)
        } else if text_is(name, "getProperties") {
            Some(Tag::GetProperties)
        } else {
            None
        }
    }
}

fn make_parameter(verb: Verb, kind: Kind, f: Fields, elements: Vec<Element>, now: Timestamp) -> (p:
    Parameter)
    requires
        f.device is Some,
        f.name is Some,
    ensures
        p@ == parameter_of(verb, kind, f@, crate::types::elements_view(elements@), now),
{
    let timestamp = if matches!(verb, Verb::Update) && f.timestamp.is_none() {
        Some(now)
    } else {
        f.timestamp
    };
    Parameter {
        kind,
        device: f.device.unwrap(),
        name: f.name.unwrap(),
        label: f.label,
        group: f.group,
        state: f.state,
        perm: f.perm,
        rule: f.rule,
        timeout: f.timeout,
        timestamp,
        elements,
    }
}

fn make_scalar(tag: Tag, f: Fields) -> (c: Command)
    requires
        tag is DelProperty ==> f.device is Some,
        tag is GetProperties ==> f.version is Some,
    ensures
        c@ == scalar_command(tag, f@),
{
    match tag {
        Tag::DelProperty => Command::DelProperty(
            DelProperty { device: f.device.unwrap(), name: f.name },
        ),
        Tag::GetProperties => Command::GetProperties(
            GetProperties { version: f.version.unwrap(), device: f.device, name: f.name },
        ),
        _ => Command::Message(
            Message { device: f.device, timestamp: f.timestamp, message: f.message },
        ),
    }
}

fn read_vector(
    source: &mut EventSource,
    verb: Verb,
    kind: Kind,
    content: &[u8],
    name_len: usize,
    now: Timestamp,
) -> (r: Result<Parameter, DeError>)
    requires
        name_len <= content@.len(),
    ensures
        decodes(
            r,
            pending(*final(source)),
            vector(verb, kind, content@, name_len as int, pending(*old(source)), now),
        ),
{
    let fields = Fields::parse(Tag::Vector(verb, kind), content, name_len)?;
    let elements = read_elements(source, kind, verb)?;
    Ok(make_parameter(verb, kind, fields, elements, now))
}

fn read_command_from(source: &mut EventSource, content: &[u8], name_len: usize, now: Timestamp) -> (r:
    Result<Command, DeError>)
    requires
        name_len <= content@.len(),
    ensures
        decodes(
            r,
            pending(*final(source)),
            command_from(content@, name_len as int, pending(*old(source)), now),
        ),
{
    let name = read_tag_name(content, name_len)?;
    let tag = match Tag::from_name(&name) {
        Some(tag) => tag,
        None => {
            return Err(DeError::UnexpectedTag(name));
        },
    };
    match tag {
        Tag::Vector(verb, kind) => {
            let p = read_vector(source, verb, kind, content, name_len, now)?;
            Ok(
                match verb {
                    Verb::Define => Command::DefParameter(p),
                    Verb::Update => Command::SetParameter(p),
                    Verb::Request => Command::NewParameter(p),
                },
            )
        },
        _ => {
            let fields = Fields::parse(tag, content, name_len)?;
            read_closing(source)?;
            Ok(make_scalar(tag, fields))
        },
    }
}

fn same_vector(tag: Option<Tag>, verb: Verb, kind: Kind) -> (r: bool)
    ensures
        r == (tag == Some(Tag::Vector(verb, kind))),
{
    match tag {
        Some(Tag::Vector(v, k)) => {
            let same_verb = match (v, verb) {
                (Verb::Define, Verb::Define) => true,
                (Verb::Update, Verb::Update) => true,
                (Verb::Request, Verb::Request) => true,
                _ => false,
            };
            let same_kind = match (k, kind) {
                (Kind::Number, Kind::Number) => true,
                (Kind::Text, Kind::Text) => true,
                (Kind::Switch, Kind::Switch) => true,
                (Kind::Light, Kind::Light) => true,
                (Kind::Blob, Kind::Blob) => true,
                _ => false,
            };
            same_verb && same_kind
        },
        _ => false,
    }
}

impl Parameter {
    /// The vector parser: reads a property vector of the given command
    /// and kind, which begins with the next event, up to its end tag.
    /// The elements of the vector are those of the document, in the
    /// order of the document.
    pub fn parse(commands: &mut CommandIter, verb: Verb, kind: Kind, now: Timestamp) -> (r: Result<
        Parameter,
        DeError,
    >)
        ensures
            decodes(
                r,
                final(commands).pending(),
                next_vector(verb, kind, old(commands).pending(), now),
            ),
            r matches Ok(p) ==> in_order(
                kind,
                verb,
                old(commands).pending().skip(1),
                Seq::empty(),
                p@.elements,
            ),
    {
        let ghost before = pending(commands.source);
        proof {
            lemma_children_in_order(kind, verb, before.skip(1), Seq::empty());
        }
        match commands.source.read_event() {
            Err(e) => {
                assert(pending(commands.source) =~= Seq::empty());
                Err(DeError::XmlError(e))
            },
            Ok(XmlEvent::Start(content, name_len)) => {
                let name = read_tag_name(content.as_slice(), name_len)?;
                if same_vector(Tag::from_name(&name), verb, kind) {
                    read_vector(&mut commands.source, verb, kind, content.as_slice(), name_len, now)
                } else {
                    Err(DeError::UnexpectedTag(name))
                }
            },
            Ok(XmlEvent::End(_)) => Err(DeError::UnexpectedEvent(EventKind::End)),
            Ok(XmlEvent::Text(_)) => Err(DeError::UnexpectedEvent(EventKind::Text)),
            Ok(XmlEvent::Other) => Err(DeError::UnexpectedEvent(EventKind::Other)),
            Ok(XmlEvent::Eof) => {
                assert(pending(commands.source) =~= before);
                Err(DeError::UnexpectedEvent(EventKind::Eof))
            },
        }
    }
}

/// Whether the bytes `<!D` or `<!d` stand anywhere in a document.
pub fn declares_document_type(xml: &[u8]) -> (r: bool)
    ensures
        r == holds_doctype(xml@),
{
    let n = xml.len();
    let mut i: usize = 0;
    while i < n && n - i > 2
        invariant
            i <= n,
            n == xml@.len(),
            forall|j: int| 0 <= j < i ==> !doctype_at(xml@, j),
        decreases n - i,
    {
        if xml[i] == 0x3c && xml[i + 1] == 0x21 && (xml[i + 2] == 0x44 || xml[i + 2] == 0x64) {
            assert(doctype_at(xml@, i as int));
            return true;
        }
        i += 1;
    }
    false
}

/// A decoder over a document held in memory. Each call of
/// `next_command` takes one command from the front of the document.
pub struct CommandIter<'a> {
    source: EventSource<'a>,
}

pub open spec fn command_view(c: Option<Command>) -> Option<CommandView> {
    match c {
        Some(c) => Some(c@),
        None => None,
    }
}

impl<'a> CommandIter<'a> {
    /// The events that the decoder has yet to read.
    pub closed spec fn pending(&self) -> Seq<XmlItem> {
        pending(self.source)
    }

    /// The number of bytes of the document that the tokenizer has read.
    pub closed spec fn position(&self) -> nat {
        consumed(self.source)
    }

    /// A decoder at the start of `xml`. With `trim_text`, white space
    /// around a text is dropped, and a text of white space alone is no
    /// event; with `expand_empty`, an empty element `<a/>` is read as
    /// `<a></a>`.
    ///
    /// A document type declaration has no place in the protocol: a
    /// document that holds the bytes `<!D` or `<!d` anywhere is refused
    /// as a whole, before any of it is read.
    pub fn new(xml: &'a [u8], trim_text: bool, expand_empty: bool) -> (r: Result<Self, DeError>)
        ensures
            match r {
                Ok(iter) => !holds_doctype(xml@) && iter.pending() == xml_events(
                    xml@,
                    trim_text,
                    expand_empty,
                ) && iter.position() == 0,
                Err(e) => holds_doctype(xml@) && e@ == Fault::UnexpectedEvent(EventKind::DocType),
            },
    {
        if declares_document_type(xml) {
            Err(DeError::UnexpectedEvent(EventKind::DocType))
        } else {
            Ok(CommandIter { source: EventSource::new(xml, trim_text, expand_empty) })
        }
    }

    /// The number of bytes of the document read so far: the position
    /// of the tokenizer, which stands at 0 in a new decoder.
    pub fn buffer_position(&self) -> (r: usize)
        ensures
            r == self.position(),
    {
        self.source.buffer_position()
    }

    /// Decodes one element of a vector of the given kind and command,
    /// standing on its own at the front of the document.
    pub fn next_element(&mut self, kind: Kind, verb: Verb) -> (r: Result<Element, DeError>)
        ensures
            decodes(r, final(self).pending(), next_element(kind, verb, old(self).pending())),
    {
        let ghost before = pending(self.source);
        match self.source.read_event() {
            Err(e) => {
                assert(pending(self.source) =~= Seq::empty());
                Err(DeError::XmlError(e))
            },
            Ok(XmlEvent::Start(content, name_len)) => read_element(
                &mut self.source,
                kind,
                verb,
                content.as_slice(),
                name_len,
            ),
            Ok(XmlEvent::End(_)) => Err(DeError::UnexpectedEvent(EventKind::End)),
            Ok(XmlEvent::Text(_)) => Err(DeError::UnexpectedEvent(EventKind::Text)),
            Ok(XmlEvent::Other) => Err(DeError::UnexpectedEvent(EventKind::Other)),
            Ok(XmlEvent::Eof) => {
                assert(pending(self.source) =~= before);
                Err(DeError::UnexpectedEvent(EventKind::Eof))
            },
        }
    }

    /// Decodes the next command. `Ok(None)` is the end of the document.
    /// `now` is the time of decoding, which an update without a
    /// timestamp is stamped with.
    ///
    /// After a failure the decoder stands behind the event at which it
    /// failed: it does not look for the next command. After a failure
    /// of the tokenizer it stands at the end of the document.
    pub fn next_command(&mut self, now: Timestamp) -> (r: Result<Option<Command>, DeError>)
        ensures
            match next_command(old(self).pending(), now).result {
                Ok(c) => r matches Ok(x) && command_view(x) == c,
                Err(f) => r matches Err(e) && e@ == f,
            },
            final(self).pending() == next_command(old(self).pending(), now).rest,
    {
        let ghost before = pending(self.source);
        match self.source.read_event() {
            Err(e) => {
                assert(pending(self.source) =~= Seq::empty());
                Err(DeError::XmlError(e))
            },
            Ok(XmlEvent::Start(content, name_len)) => {
                match read_command_from(&mut self.source, content.as_slice(), name_len, now) {
                    Ok(c) => Ok(Some(c)),
                    Err(e) => Err(e),
                }
            },
            Ok(XmlEvent::End(_)) => Err(DeError::UnexpectedEvent(EventKind::End)),
            Ok(XmlEvent::Text(_)) => Err(DeError::UnexpectedEvent(EventKind::Text)),
            Ok(XmlEvent::Other) => Err(DeError::UnexpectedEvent(EventKind::Other)),
            Ok(XmlEvent::Eof) => {
                assert(pending(self.source) =~= before);
                Ok(None)
            },
        }
    }
}

/// The end of the document between two commands ends the decoding
/// without a failure.
pub proof fn lemma_end_of_document(now: Timestamp)
    ensures
        next_command(Seq::empty(), now).result == Ok::<Option<CommandView>, Fault>(None),
{
}

/// The end of the document inside a vector is a failure: where an
/// element or the end tag of the vector is due, and inside an element.
pub proof fn lemma_end_inside_vector(
    kind: Kind,
    verb: Verb,
    done: Seq<ElementView>,
    value: Option<ValueView>,
)
    ensures
        elements(kind, verb, Seq::empty(), done).result == Err::<Seq<ElementView>, Fault>(
            Fault::UnexpectedEvent(EventKind::Eof),
        ),
        element_body(kind, verb, Seq::empty(), value).result == Err::<ValueView, Fault>(
            Fault::UnexpectedEvent(EventKind::Eof),
        ),
{
}

/// A document that ends with the start tag of a vector gives that
/// failure, if no other comes before it.
pub proof fn lemma_end_after_vector_start(content: Seq<u8>, name_len: int, now: Timestamp)
    ensures
        next_command(seq![XmlItem::Start { content, name_len }], now).result is Err,
        tag_name(content, name_len) matches Some(name) && top_tag(name) matches Some(tag) && tag
            is Vector && tag_fields(tag, content, name_len) is Ok ==> next_command(
            seq![XmlItem::Start { content, name_len }],
            now,
        ).result == Err::<Option<CommandView>, Fault>(Fault::UnexpectedEvent(EventKind::Eof)),
{
    let events = seq![XmlItem::Start { content, name_len }];
    assert(events.skip(1) =~= Seq::empty());
    assert(events[0] == XmlItem::Start { content, name_len });
}

/// Decoding the elements of a vector takes events away.
pub proof fn lemma_elements_rest(
    kind: Kind,
    verb: Verb,
    events: Seq<XmlItem>,
    done: Seq<ElementView>,
)
    ensures
        elements(kind, verb, events, done).rest.len() <= events.len(),
    decreases events.len(),
{
    if events.len() > 0 {
        match events[0] {
            XmlItem::Start { content, name_len } => {
                let first = element(kind, verb, content, name_len, events.skip(1));
                lemma_element_rest(kind, verb, content, name_len, events.skip(1));
                match first.result {
                    Ok(e) => {
                        lemma_elements_rest(kind, verb, first.rest, done.push(e));
                    },
                    Err(_) => {},
                }
            },
            _ => {},
        }
    }
}

/// Every step of the decoder before the end of the document takes at
/// least one event, whether it succeeds or fails.
pub proof fn lemma_next_command_advances(events: Seq<XmlItem>, now: Timestamp)
    ensures
        events.len() > 0 ==> next_command(events, now).rest.len() < events.len(),
        next_command(events, now).result == Ok::<Option<CommandView>, Fault>(None) <==> events.len()
            == 0,
{
    if events.len() > 0 {
        match events[0] {
            XmlItem::Start { content, name_len } => {
                match tag_name(content, name_len) {
                    Some(name) => match top_tag(name) {
                        Some(Tag::Vector(verb, kind)) => {
                            lemma_elements_rest(kind, verb, events.skip(1), Seq::empty());
                        },
                        _ => {},
                    },
                    None => {},
                }
            },
            _ => {},
        }
    }
}

/// The events that follow the first `n` children of a vector, where
/// `events` follow its start tag: each child begins with a start tag
/// and ends where its decoding ends.
pub open spec fn after_children(kind: Kind, verb: Verb, events: Seq<XmlItem>, n: nat) -> Seq<
    XmlItem,
>
    decreases n,
{
    if n == 0 {
        events
    } else {
        let at = after_children(kind, verb, events, (n - 1) as nat);
        if at.len() > 0 && at[0] is Start {
            element(kind, verb, at[0]->content, at[0]->name_len, at.skip(1)).rest
        } else {
            at
        }
    }
}

/// The decoding of the child of a vector that stands after `n` others,
/// taken by itself.
pub open spec fn child(kind: Kind, verb: Verb, events: Seq<XmlItem>, n: nat) -> Result<
    ElementView,
    Fault,
> {
    next_element(kind, verb, after_children(kind, verb, events, n)).result
}

proof fn lemma_after_children_shift(kind: Kind, verb: Verb, events: Seq<XmlItem>, n: nat)
    ensures
        after_children(kind, verb, events, n + 1) == after_children(
            kind,
            verb,
            after_children(kind, verb, events, 1),
            n,
        ),
    decreases n,
{
    reveal_with_fuel(after_children, 2);
    if n > 0 {
        lemma_after_children_shift(kind, verb, events, (n - 1) as nat);
    }
}

/// The first child of a vector is the element that begins with the
/// first event; the children after it are those of the events that it
/// leaves.
proof fn lemma_first_child(kind: Kind, verb: Verb, events: Seq<XmlItem>, n: nat)
    requires
        events.len() > 0,
        events[0] is Start,
    ensures
        child(kind, verb, events, 0) == element(
            kind,
            verb,
            events[0]->content,
            events[0]->name_len,
            events.skip(1),
        ).result,
        after_children(kind, verb, events, n + 1) == after_children(
            kind,
            verb,
            element(kind, verb, events[0]->content, events[0]->name_len, events.skip(1)).rest,
            n,
        ),
        child(kind, verb, events, n + 1) == child(
            kind,
            verb,
            element(kind, verb, events[0]->content, events[0]->name_len, events.skip(1)).rest,
            n,
        ),
{
    reveal_with_fuel(after_children, 2);
    lemma_after_children_shift(kind, verb, events, n);
}

/// Whether `es` are the elements decoded before, followed by the
/// decodings of the children that stand in `events`, one after another
/// up to the end tag.
pub open spec fn in_order(
    kind: Kind,
    verb: Verb,
    events: Seq<XmlItem>,
    done: Seq<ElementView>,
    es: Seq<ElementView>,
) -> bool {
    let n = (es.len() - done.len()) as nat;
    let end = after_children(kind, verb, events, n);
    &&& done.len() <= es.len()
    &&& es.take(done.len() as int) == done
    &&& forall|i: nat|
        i < n ==> #[trigger] child(kind, verb, events, i) == Ok::<ElementView, Fault>(
            es[done.len() as int + i as int],
        )
    &&& end.len() > 0
    &&& end[0] is End
    &&& elements(kind, verb, events, done).rest == end.skip(1)
}

proof fn lemma_in_order_step(
    kind: Kind,
    verb: Verb,
    events: Seq<XmlItem>,
    rest: Seq<XmlItem>,
    done: Seq<ElementView>,
    e: ElementView,
    es: Seq<ElementView>,
)
    requires
        events.len() > 0,
        events[0] is Start,
        child(kind, verb, events, 0) == Ok::<ElementView, Fault>(e),
        forall|n: nat|
            after_children(kind, verb, events, n + 1) == #[trigger] after_children(
                kind,
                verb,
                rest,
                n,
            ),
        forall|n: nat|
            child(kind, verb, events, n + 1) == #[trigger] child(kind, verb, rest, n),
        in_order(kind, verb, rest, done.push(e), es),
        elements(kind, verb, events, done).rest == elements(kind, verb, rest, done.push(e)).rest,
    ensures
        in_order(kind, verb, events, done, es),
{
    let m = (es.len() - done.len() - 1) as nat;
    assert(es.take(done.len() as int) =~= es.take(done.len() as int + 1).take(done.len() as int));
    assert(done.push(e).take(done.len() as int) =~= done);
    assert(es.take(done.len() as int + 1)[done.len() as int] == e);
    assert(after_children(kind, verb, events, m + 1) == after_children(kind, verb, rest, m));
    assert forall|i: nat| i < m + 1 implies #[trigger] child(kind, verb, events, i) == Ok::<
        ElementView,
        Fault,
    >(es[done.len() as int + i as int]) by {
        if i > 0 {
            let j = (i - 1) as nat;
            assert(child(kind, verb, events, j + 1) == child(kind, verb, rest, j));
            assert(child(kind, verb, rest, j) == Ok::<ElementView, Fault>(
                es[done.push(e).len() as int + j as int],
            ));
        }
    }
}

/// The vector parser keeps count and order: where it succeeds, the
/// elements decoded before stay at the front, every further element of
/// the result is the decoding of the child at its place in the
/// document, and behind the last child stands the end tag, at which
/// the decoding ends.
pub proof fn lemma_children_in_order(
    kind: Kind,
    verb: Verb,
    events: Seq<XmlItem>,
    done: Seq<ElementView>,
)
    ensures
        elements(kind, verb, events, done).result matches Ok(es) ==> in_order(
            kind,
            verb,
            events,
            done,
            es,
        ),
    decreases events.len(),
{
    if events.len() > 0 {
        match events[0] {
            XmlItem::Start { content, name_len } => {
                let first = element(kind, verb, content, name_len, events.skip(1));
                match first.result {
                    Ok(e) => {
                        lemma_element_rest(kind, verb, content, name_len, events.skip(1));
                        lemma_children_in_order(kind, verb, first.rest, done.push(e));
                        match elements(kind, verb, first.rest, done.push(e)).result {
                            Ok(es) => {
                                assert forall|n: nat|
                                    after_children(kind, verb, events, n + 1)
                                        == #[trigger] after_children(
                                        kind,
                                        verb,
                                        first.rest,
                                        n,
                                    ) by {
                                    lemma_first_child(kind, verb, events, n);
                                }
                                assert forall|n: nat|
                                    child(kind, verb, events, n + 1) == #[trigger] child(
                                        kind,
                                        verb,
                                        first.rest,
                                        n,
                                    ) by {
                                    lemma_first_child(kind, verb, events, n);
                                }
                                lemma_first_child(kind, verb, events, 0);
                                lemma_in_order_step(kind, verb, events, first.rest, done, e, es);
                            },
                            Err(_) => {},
                        }
                    },
                    Err(_) => {},
                }
            },
            XmlItem::End { .. } => {
                assert(done.take(done.len() as int) =~= done);
            },
            _ => {},
        }
    }
}

} // verus!
