//! The protocol's data: the controlled vocabularies, property vectors
//! and their elements, the commands, and the mathematical view of each.

use crate::codec::Timestamp;
use vstd::prelude::*;

verus! {

/// The lifecycle state of a property, and the value of a light.
#[derive(Clone, Copy, Debug, PartialEq, Eq, Structural)]
pub enum PropertyState {
    Idle,
    Okay,
    Busy,
    Alert,
}

/// What a client may do with a property.
#[derive(Clone, Copy, Debug, PartialEq, Eq, Structural)]
pub enum PropertyPerm {
    RO,
    WO,
    RW,
}

/// How many switches of a switch property may be on at once.
#[derive(Clone, Copy, Debug, PartialEq, Eq, Structural)]
pub enum SwitchRule {
    OneOfMany,
    AtMostOne,
    AnyOfMany,
}

/// The value of a switch.
#[derive(Clone, Copy, Debug, PartialEq, Eq, Structural)]
pub enum SwitchState {
    On,
    Off,
}

/// The five kinds of property.
#[derive(Clone, Copy, Debug, PartialEq, Eq, Structural)]
pub enum Kind {
    Number,
    Text,
    Switch,
    Light,
    Blob,
}

/// The three commands that carry a property vector: the server defines
/// a property, the server sets its values, the client asks for new ones.
#[derive(Clone, Copy, Debug, PartialEq, Eq, Structural)]
pub enum Verb {
    Define,
    Update,
    Request,
}

/// The attributes that the protocol knows, and `Value` for the text of
/// an element.
#[derive(Clone, Copy, Debug, PartialEq, Eq, Structural)]
pub enum AttrName {
    Device,
    Name,
    Label,
    Group,
    State,
    Perm,
    Rule,
    Timeout,
    Timestamp,
    Message,
    Format,
    Min,
    Max,
    Step,
    Size,
    Version,
    Value,
}

/// The kinds of event that a decoder can meet out of place.
#[derive(Clone, Copy, Debug, PartialEq, Eq, Structural)]
pub enum EventKind {
    Start,
    End,
    Text,
    /// A document type declaration, or what the tokenizer would take
    /// for the start of one.
    DocType,
    Other,
    Eof,
}

/// The value of an element. A number is held as its literal text, which
/// satisfies the grammar of floating-point literals; a blob as the bytes
/// of its encoded payload.
#[derive(Debug, PartialEq)]
pub enum Value {
    Number(String),
    Text(String),
    Switch(SwitchState),
    Light(PropertyState),
    Blob(Vec<u8>),
    Absent,
}

pub enum ValueView {
    Number(Seq<char>),
    Text(Seq<char>),
    Switch(SwitchState),
    Light(PropertyState),
    Blob(Seq<u8>),
    Absent,
}

impl View for Value {
    type V = ValueView;

    open spec fn view(&self) -> ValueView {
        match self {
            Value::Number(s) => ValueView::Number(s@),
            Value::Text(s) => ValueView::Text(s@),
            Value::Switch(s) => ValueView::Switch(*s),
            Value::Light(s) => ValueView::Light(*s),
            Value::Blob(b) => ValueView::Blob(b@),
            Value::Absent => ValueView::Absent,
        }
    }
}

pub open spec fn text_view(o: Option<String>) -> Option<Seq<char>> {
    match o {
        Some(s) => Some(s@),
        None => None,
    }
}

/// One element of a property vector.
#[derive(Debug, PartialEq)]
pub struct Element {
    pub name: String,
    pub label: Option<String>,
    pub format: Option<String>,
    pub min: Option<i32>,
    pub max: Option<i32>,
    pub step: Option<i32>,
    pub size: Option<u64>,
    pub value: Value,
}

pub struct ElementView {
    pub name: Seq<char>,
    pub label: Option<Seq<char>>,
    pub format: Option<Seq<char>>,
    pub min: Option<i32>,
    pub max: Option<i32>,
    pub step: Option<i32>,
    pub size: Option<u64>,
    pub value: ValueView,
}

impl View for Element {
    type V = ElementView;

    open spec fn view(&self) -> ElementView {
        ElementView {
            name: self.name@,
            label: text_view(self.label),
            format: text_view(self.format),
            min: self.min,
            max: self.max,
            step: self.step,
            size: self.size,
            value: self.value@,
        }
    }
}

pub open spec fn elements_view(elements: Seq<Element>) -> Seq<ElementView> {
    elements.map_values(|e: Element| e@)
}

/// A property vector: the header that names and describes a property,
/// and its elements in the order of the document.
#[derive(Debug, PartialEq)]
pub struct Parameter {
    pub kind: Kind,
    pub device: String,
    pub name: String,
    pub label: Option<String>,
    pub group: Option<String>,
    pub state: Option<PropertyState>,
    pub perm: Option<PropertyPerm>,
    pub rule: Option<SwitchRule>,
    pub timeout: Option<u32>,
    pub timestamp: Option<Timestamp>,
    pub elements: Vec<Element>,
}

pub struct ParameterView {
    pub kind: Kind,
    pub device: Seq<char>,
    pub name: Seq<char>,
    pub label: Option<Seq<char>>,
    pub group: Option<Seq<char>>,
    pub state: Option<PropertyState>,
    pub perm: Option<PropertyPerm>,
    pub rule: Option<SwitchRule>,
    pub timeout: Option<u32>,
    pub timestamp: Option<Timestamp>,
    pub elements: Seq<ElementView>,
}

impl View for Parameter {
    type V = ParameterView;

    open spec fn view(&self) -> ParameterView {
        ParameterView {
            kind: self.kind,
            device: self.device@,
            name: self.name@,
            label: text_view(self.label),
            group: text_view(self.group),
            state: self.state,
            perm: self.perm,
            rule: self.rule,
            timeout: self.timeout,
            timestamp: self.timestamp,
            elements: elements_view(self.elements@),
        }
    }
}

/// A message of a device, or of the server where no device is named.
#[derive(Debug, PartialEq)]
pub struct Message {
    pub device: Option<String>,
    pub timestamp: Option<Timestamp>,
    pub message: Option<String>,
}

pub struct MessageView {
    pub device: Option<Seq<char>>,
    pub timestamp: Option<Timestamp>,
    pub message: Option<Seq<char>>,
}

impl View for Message {
    type V = MessageView;

    open spec fn view(&self) -> MessageView {
        MessageView {
            device: text_view(self.device),
            timestamp: self.timestamp,
            message: text_view(self.message),
        }
    }
}

/// The deletion of one property, or of a whole device where no property
/// is named.
#[derive(Debug, PartialEq)]
pub struct DelProperty {
    pub device: String,
    pub name: Option<String>,
}

pub struct DelPropertyView {
    pub device: Seq<char>,
    pub name: Option<Seq<char>>,
}

impl View for DelProperty {
    type V = DelPropertyView;

    open spec fn view(&self) -> DelPropertyView {
        DelPropertyView { device: self.device@, name: text_view(self.name) }
    }
}

/// The query for the properties of all devices, of one device, or for
/// one property.
#[derive(Debug, PartialEq)]
pub struct GetProperties {
    pub version: String,
    pub device: Option<String>,
    pub name: Option<String>,
}

pub struct GetPropertiesView {
    pub version: Seq<char>,
    pub device: Option<Seq<char>>,
    pub name: Option<Seq<char>>,
}

impl View for GetProperties {
    type V = GetPropertiesView;

    open spec fn view(&self) -> GetPropertiesView {
        GetPropertiesView {
            version: self.version@,
            device: text_view(self.device),
            name: text_view(self.name),
        }
    }
}

/// One command of the protocol: one top-level element of the stream.
#[derive(Debug, PartialEq)]
pub enum Command {
    DefParameter(Parameter),
    SetParameter(Parameter),
    NewParameter(Parameter),
    Message(Message),
    DelProperty(DelProperty),
    GetProperties(GetProperties),
}

pub enum CommandView {
    DefParameter(ParameterView),
    SetParameter(ParameterView),
    NewParameter(ParameterView),
    Message(MessageView),
    DelProperty(DelPropertyView),
    GetProperties(GetPropertiesView),
}

impl View for Command {
    type V = CommandView;

    open spec fn view(&self) -> CommandView {
        match self {
            Command::DefParameter(p) => CommandView::DefParameter(p@),
            Command::SetParameter(p) => CommandView::SetParameter(p@),
            Command::NewParameter(p) => CommandView::NewParameter(p@),
            Command::Message(m) => CommandView::Message(m@),
            Command::DelProperty(d) => CommandView::DelProperty(d@),
            Command::GetProperties(g) => CommandView::GetProperties(g@),
        }
    }
}

/// Why a decoding failed.
#[derive(Debug)]
pub enum DeError {
    /// The tokenizer rejected the document.
    XmlError(quick_xml::Error),
    /// A name or a value is not UTF-8.
    DecodeUtf8(std::str::Utf8Error),
    /// The ISO 8859-1 decoder rejected the text of a number. The
    /// encoding gives every byte a character, so the decoder in use
    /// never does.
    DecodeLatin(String),
    /// The text is no integer of the attribute's type.
    ParseIntError(String),
    /// The text is no floating-point literal.
    ParseFloatError(String),
    /// The text is no date and time.
    ParseDateTimeError(chrono::ParseError),
    /// A required attribute, or the text of an element, is missing.
    MissingAttr(AttrName),
    /// The value of an attribute is outside its vocabulary.
    BadAttr(AttrName, Vec<u8>),
    /// The text of an element is outside its vocabulary.
    BadValue(Vec<u8>),
    /// The tag holds an attribute that it does not have in the protocol.
    UnexpectedAttr(String),
    /// An event stands where the protocol has no place for it.
    UnexpectedEvent(EventKind),
    /// The tag is unknown, or stands where another is due.
    UnexpectedTag(String),
}

/// The failure that a `DeError` reports, without what the outside
/// libraries say of it.
pub enum Fault {
    Xml,
    DecodeUtf8,
    DecodeLatin,
    ParseInt(Seq<char>),
    ParseFloat(Seq<char>),
    ParseDateTime,
    MissingAttr(AttrName),
    BadAttr(AttrName, Seq<u8>),
    BadValue(Seq<u8>),
    UnexpectedAttr(Seq<char>),
    UnexpectedEvent(EventKind),
    UnexpectedTag(Seq<char>),
}

impl View for DeError {
    type V = Fault;

    open spec fn view(&self) -> Fault {
        match self {
            DeError::XmlError(_) => Fault::Xml,
            DeError::DecodeUtf8(_) => Fault::DecodeUtf8,
            DeError::DecodeLatin(_) => Fault::DecodeLatin,
            DeError::ParseIntError(s) => Fault::ParseInt(s@),
            DeError::ParseFloatError(s) => Fault::ParseFloat(s@),
            DeError::ParseDateTimeError(_) => Fault::ParseDateTime,
            DeError::MissingAttr(a) => Fault::MissingAttr(*a),
            DeError::BadAttr(a, raw) => Fault::BadAttr(*a, raw@),
            DeError::BadValue(raw) => Fault::BadValue(raw@),
            DeError::UnexpectedAttr(s) => Fault::UnexpectedAttr(s@),
            DeError::UnexpectedEvent(k) => Fault::UnexpectedEvent(*k),
            DeError::UnexpectedTag(s) => Fault::UnexpectedTag(s@),
        }
    }
}

} // verus!
