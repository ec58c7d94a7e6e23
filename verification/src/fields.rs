//! The attributes of a start tag: which of them each tag may and must
//! have, and how the value of each is read.

use crate::codec::{parse_utc, utc_instant, utf8_text, Timestamp};
use crate::grammar::{property_perm, property_state, switch_rule};
use crate::text::{
    ends_in_zone, has_zone_designator, integer_literal, parse_i32, parse_unsigned, text_is,
};
use crate::types::{
    AttrName, DeError, Fault, Kind, PropertyPerm, PropertyState, SwitchRule, Verb,
};
use crate::xml::{read_attributes, unescape, xml_attributes, xml_unescaped, RawAttribute};
use vstd::prelude::*;
use vstd::slice::*;
use vstd::string::*;
use vstd::utf8::*;

verus! {

/// The tags that carry attributes: a property vector, an element of
/// one, and the three commands without elements.
#[derive(Clone, Copy, Debug, PartialEq, Eq, Structural)]
pub enum Tag {
    Vector(Verb, Kind),
    Element(Verb, Kind),
    Message,
    DelProperty,
    GetProperties,
}

/// The attribute that a key names, if any.
pub open spec fn attr_name(key: Seq<char>) -> Option<AttrName> {
    if key == "device"@ {
        Some(AttrName::Device)
    } else if key == "name"@ {
        Some(AttrName::Name)
    } else if key == "label"@ {
        Some(AttrName::Label)
    } else if key == "group"@ {
        Some(AttrName::Group)
    } else if key == "state"@ {
        Some(AttrName::State)
    } else if key == "perm"@ {
        Some(AttrName::Perm)
    } else if key == "rule"@ {
        Some(AttrName::Rule)
    } else if key == "timeout"@ {
        Some(AttrName::Timeout)
    } else if key == "timestamp"@ {
        Some(AttrName::Timestamp)
    } else if key == "message"@ {
        Some(AttrName::Message)
    } else if key == "format"@ {
        Some(AttrName::Format)
    } else if key == "min"@ {
        Some(AttrName::Min)
    } else if key == "max"@ {
        Some(AttrName::Max)
    } else if key == "step"@ {
        Some(AttrName::Step)
    } else if key == "size"@ {
        Some(AttrName::Size)
    } else if key == "version"@ {
        Some(AttrName::Version)
    } else {
        None
    }
}

/// Whether the protocol gives the tag this attribute.
pub open spec fn allowed(tag: Tag, a: AttrName) -> bool {
    match tag {
        Tag::Vector(verb, kind) => match a {
            AttrName::Device | AttrName::Name | AttrName::Timeout | AttrName::Timestamp => true,
            AttrName::State => verb != Verb::Request,
            AttrName::Label | AttrName::Group | AttrName::Perm => verb == Verb::Define,
            AttrName::Rule => verb == Verb::Define && kind == Kind::Switch,
            _ => false,
        },
        Tag::Element(verb, kind) => match a {
            AttrName::Name => true,
            AttrName::Label => verb == Verb::Define,
            AttrName::Min | AttrName::Max | AttrName::Step => verb == Verb::Define && kind
                == Kind::Number,
            AttrName::Format => (verb == Verb::Define && kind == Kind::Number) || (verb
                != Verb::Define && kind == Kind::Blob),
            AttrName::Size => verb != Verb::Define && kind == Kind::Blob,
            _ => false,
        },
        Tag::Message => a == AttrName::Device || a == AttrName::Timestamp || a
            == AttrName::Message,
        Tag::DelProperty => a == AttrName::Device || a == AttrName::Name,
        Tag::GetProperties => a == AttrName::Version || a == AttrName::Device || a
            == AttrName::Name,
    }
}

/// Whether the tag is incomplete without this attribute.
pub open spec fn required(tag: Tag, a: AttrName) -> bool {
    match tag {
        Tag::Vector(verb, kind) => match a {
            AttrName::Device | AttrName::Name => true,
            AttrName::State => verb != Verb::Request,
            AttrName::Perm => verb == Verb::Define && kind != Kind::Light,
            AttrName::Rule => verb == Verb::Define && kind == Kind::Switch,
            _ => false,
        },
        Tag::Element(verb, kind) => match a {
            AttrName::Name => true,
            AttrName::Min | AttrName::Max | AttrName::Step => verb == Verb::Define && kind
                == Kind::Number,
            AttrName::Format => (verb == Verb::Define && kind == Kind::Number) || (verb
                != Verb::Define && kind == Kind::Blob),
            AttrName::Size => verb != Verb::Define && kind == Kind::Blob,
            _ => false,
        },
        Tag::Message => false,
        Tag::DelProperty => a == AttrName::Device,
        Tag::GetProperties => a == AttrName::Version,
    }
}

/// The values of the attributes read so far, each in its own type.
#[derive(Debug)]
pub struct Fields {
    pub device: Option<String>,
    pub name: Option<String>,
    pub label: Option<String>,
    pub group: Option<String>,
    pub state: Option<PropertyState>,
    pub perm: Option<PropertyPerm>,
    pub rule: Option<SwitchRule>,
    pub timeout: Option<u32>,
    pub timestamp: Option<Timestamp>,
    pub message: Option<String>,
    pub format: Option<String>,
    pub min: Option<i32>,
    pub max: Option<i32>,
    pub step: Option<i32>,
    pub size: Option<u64>,
    pub version: Option<String>,
}

pub struct FieldsView {
    pub device: Option<Seq<char>>,
    pub name: Option<Seq<char>>,
    pub label: Option<Seq<char>>,
    pub group: Option<Seq<char>>,
    pub state: Option<PropertyState>,
    pub perm: Option<PropertyPerm>,
    pub rule: Option<SwitchRule>,
    pub timeout: Option<u32>,
    pub timestamp: Option<Timestamp>,
    pub message: Option<Seq<char>>,
    pub format: Option<Seq<char>>,
    pub min: Option<i32>,
    pub max: Option<i32>,
    pub step: Option<i32>,
    pub size: Option<u64>,
    pub version: Option<Seq<char>>,
}

impl View for Fields {
    type V = FieldsView;

    open spec fn view(&self) -> FieldsView {
        FieldsView {
            device: crate::types::text_view(self.device),
            name: crate::types::text_view(self.name),
            label: crate::types::text_view(self.label),
            group: crate::types::text_view(self.group),
            state: self.state,
            perm: self.perm,
            rule: self.rule,
            timeout: self.timeout,
            timestamp: self.timestamp,
            message: crate::types::text_view(self.message),
            format: crate::types::text_view(self.format),
            min: self.min,
            max: self.max,
            step: self.step,
            size: self.size,
            version: crate::types::text_view(self.version),
        }
    }
}

impl FieldsView {
    pub open spec fn empty() -> FieldsView {
        FieldsView {
            device: None,
            name: None,
            label: None,
            group: None,
            state: None,
            perm: None,
            rule: None,
            timeout: None,
            timestamp: None,
            message: None,
            format: None,
            min: None,
            max: None,
            step: None,
            size: None,
            version: None,
        }
    }

    /// Whether the attribute has been read.
    pub open spec fn has(self, a: AttrName) -> bool {
        match a {
            AttrName::Device => self.device is Some,
            AttrName::Name => self.name is Some,
            AttrName::Label => self.label is Some,
            AttrName::Group => self.group is Some,
            AttrName::State => self.state is Some,
            AttrName::Perm => self.perm is Some,
            AttrName::Rule => self.rule is Some,
            AttrName::Timeout => self.timeout is Some,
            AttrName::Timestamp => self.timestamp is Some,
            AttrName::Message => self.message is Some,
            AttrName::Format => self.format is Some,
            AttrName::Min => self.min is Some,
            AttrName::Max => self.max is Some,
            AttrName::Step => self.step is Some,
            AttrName::Size => self.size is Some,
            AttrName::Version => self.version is Some,
            AttrName::Value => false,
        }
    }
}

/// The text of an attribute value: its entities replaced, then read as
/// UTF-8.
pub open spec fn value_text(raw: Seq<u8>) -> Result<Seq<char>, Fault> {
    match xml_unescaped(raw) {
        None => Err(Fault::Xml),
        Some(bytes) => if valid_utf8(bytes) {
            Ok(decode_utf8(bytes))
        } else {
            Err(Fault::DecodeUtf8)
        },
    }
}

/// The integer that an attribute value denotes within `min..=max`.
pub open spec fn value_integer(raw: Seq<u8>, min: int, max: int) -> Result<int, Fault> {
    match value_text(raw) {
        Err(f) => Err(f),
        Ok(text) => match integer_literal(text, min, max) {
            Some(v) => Ok(v),
            None => Err(Fault::ParseInt(text)),
        },
    }
}

/// A date-time text with the designator of UTC at its end, unless it
/// ends in a zone designator already.
pub open spec fn zoned(text: Seq<char>) -> Seq<char> {
    if has_zone_designator(text) {
        text
    } else {
        text + seq!['Z']
    }
}

/// The instant that an attribute value denotes. A text without a zone
/// is read as UTC.
pub open spec fn value_instant(raw: Seq<u8>) -> Result<Timestamp, Fault> {
    match value_text(raw) {
        Err(f) => Err(f),
        Ok(text) => match utc_instant(zoned(text)) {
            Some((secs, nanos)) => Ok(Timestamp { secs: secs as i64, nanos: nanos as u32 }),
            None => Err(Fault::ParseDateTime),
        },
    }
}

/// The member of a vocabulary that an attribute value names.
pub open spec fn value_member<T>(
    a: AttrName,
    raw: Seq<u8>,
    vocabulary: spec_fn(Seq<u8>) -> Option<T>,
) -> Result<T, Fault> {
    match xml_unescaped(raw) {
        None => Err(Fault::Xml),
        Some(bytes) => match vocabulary(bytes) {
            Some(m) => Ok(m),
            None => Err(Fault::BadAttr(a, bytes)),
        },
    }
}

/// The fields after one more attribute, or why its value is rejected.
/// The name of a device must not be empty.
pub open spec fn with_attribute(f: FieldsView, a: AttrName, raw: Seq<u8>) -> Result<
    FieldsView,
    Fault,
> {
    match a {
        AttrName::Device => match value_text(raw) {
            Ok(t) => if t.len() == 0 {
                Err(Fault::BadAttr(AttrName::Device, Seq::empty()))
            } else {
                Ok(FieldsView { device: Some(t), ..f })
            },
            Err(e) => Err(e),
        },
        AttrName::Name => match value_text(raw) {
            Ok(t) => Ok(FieldsView { name: Some(t), ..f }),
            Err(e) => Err(e),
        },
        AttrName::Label => match value_text(raw) {
            Ok(t) => Ok(FieldsView { label: Some(t), ..f }),
            Err(e) => Err(e),
        },
        AttrName::Group => match value_text(raw) {
            Ok(t) => Ok(FieldsView { group: Some(t), ..f }),
            Err(e) => Err(e),
        },
        AttrName::Message => match value_text(raw) {
            Ok(t) => Ok(FieldsView { message: Some(t), ..f }),
            Err(e) => Err(e),
        },
        AttrName::Format => match value_text(raw) {
            Ok(t) => Ok(FieldsView { format: Some(t), ..f }),
            Err(e) => Err(e),
        },
        AttrName::Version => match value_text(raw) {
            Ok(t) => Ok(FieldsView { version: Some(t), ..f }),
            Err(e) => Err(e),
        },
        AttrName::State => match value_member(a, raw, |b: Seq<u8>| property_state(b)) {
            Ok(m) => Ok(FieldsView { state: Some(m), ..f }),
            Err(e) => Err(e),
        },
        AttrName::Perm => match value_member(a, raw, |b: Seq<u8>| property_perm(b)) {
            Ok(m) => Ok(FieldsView { perm: Some(m), ..f }),
            Err(e) => Err(e),
        },
        AttrName::Rule => match value_member(a, raw, |b: Seq<u8>| switch_rule(b)) {
            Ok(m) => Ok(FieldsView { rule: Some(m), ..f }),
            Err(e) => Err(e),
        },
        AttrName::Timeout => match value_integer(raw, 0, u32::MAX as int) {
            Ok(v) => Ok(FieldsView { timeout: Some(v as u32), ..f }),
            Err(e) => Err(e),
        },
        AttrName::Min => match value_integer(raw, i32::MIN as int, i32::MAX as int) {
            Ok(v) => Ok(FieldsView { min: Some(v as i32), ..f }),
            Err(e) => Err(e),
        },
        AttrName::Max => match value_integer(raw, i32::MIN as int, i32::MAX as int) {
            Ok(v) => Ok(FieldsView { max: Some(v as i32), ..f }),
            Err(e) => Err(e),
        },
        AttrName::Step => match value_integer(raw, i32::MIN as int, i32::MAX as int) {
            Ok(v) => Ok(FieldsView { step: Some(v as i32), ..f }),
            Err(e) => Err(e),
        },
        AttrName::Size => match value_integer(raw, 0, u64::MAX as int) {
            Ok(v) => Ok(FieldsView { size: Some(v as u64), ..f }),
            Err(e) => Err(e),
        },
        AttrName::Timestamp => match value_instant(raw) {
            Ok(t) => Ok(FieldsView { timestamp: Some(t), ..f }),
            Err(e) => Err(e),
        },
        AttrName::Value => Ok(f),
    }
}

/// The fields after one more item of the attribute list. An item that
/// the tokenizer rejects fails as XML; a key that the tag does not have
/// fails by its name, whatever its value; then the value is read.
pub open spec fn with_item(tag: Tag, f: FieldsView, item: Option<(Seq<u8>, Seq<u8>)>) -> Result<
    FieldsView,
    Fault,
> {
    match item {
        None => Err(Fault::Xml),
        Some((key, raw)) => if !valid_utf8(key) {
            Err(Fault::DecodeUtf8)
        } else {
            match attr_name(decode_utf8(key)) {
                Some(a) => if allowed(tag, a) {
                    with_attribute(f, a, raw)
                } else {
                    Err(Fault::UnexpectedAttr(decode_utf8(key)))
                },
                None => Err(Fault::UnexpectedAttr(decode_utf8(key))),
            }
        },
    }
}

/// The fields after all items of an attribute list, taken in order, or
/// the failure of the first item that fails.
pub open spec fn with_items(tag: Tag, f: FieldsView, items: Seq<Option<(Seq<u8>, Seq<u8>)>>) -> Result<
    FieldsView,
    Fault,
>
    decreases items.len(),
{
    if items.len() == 0 {
        Ok(f)
    } else {
        match with_item(tag, f, items[0]) {
            Ok(g) => with_items(tag, g, items.skip(1)),
            Err(e) => Err(e),
        }
    }
}

/// The first required attribute that has not been read, in the order
/// in which the protocol lists them.
pub open spec fn first_missing(tag: Tag, f: FieldsView) -> Option<AttrName> {
    if required(tag, AttrName::Device) && !f.has(AttrName::Device) {
        Some(AttrName::Device)
    } else if required(tag, AttrName::Name) && !f.has(AttrName::Name) {
        Some(AttrName::Name)
    } else if required(tag, AttrName::State) && !f.has(AttrName::State) {
        Some(AttrName::State)
    } else if required(tag, AttrName::Perm) && !f.has(AttrName::Perm) {
        Some(AttrName::Perm)
    } else if required(tag, AttrName::Rule) && !f.has(AttrName::Rule) {
        Some(AttrName::Rule)
    } else if required(tag, AttrName::Format) && !f.has(AttrName::Format) {
        Some(AttrName::Format)
    } else if required(tag, AttrName::Min) && !f.has(AttrName::Min) {
        Some(AttrName::Min)
    } else if required(tag, AttrName::Max) && !f.has(AttrName::Max) {
        Some(AttrName::Max)
    } else if required(tag, AttrName::Step) && !f.has(AttrName::Step) {
        Some(AttrName::Step)
    } else if required(tag, AttrName::Size) && !f.has(AttrName::Size) {
        Some(AttrName::Size)
    } else if required(tag, AttrName::Version) && !f.has(AttrName::Version) {
        Some(AttrName::Version)
    } else {
        None
    }
}

/// The fields that the attributes of a start tag give: every attribute
/// read in order, then none of the required ones missing.
pub open spec fn tag_fields(tag: Tag, content: Seq<u8>, name_len: int) -> Result<
    FieldsView,
    Fault,
> {
    match with_items(tag, FieldsView::empty(), xml_attributes(content, name_len)) {
        Err(e) => Err(e),
        Ok(f) => match first_missing(tag, f) {
            Some(a) => Err(Fault::MissingAttr(a)),
            None => Ok(f),
        },
    }
}

/// Whether `r` is the exec form of the result `spec`.
pub open spec fn yields<T: View>(r: Result<T, DeError>, spec: Result<T::V, Fault>) -> bool {
    match spec {
        Ok(v) => r matches Ok(x) && x@ == v,
        Err(f) => r matches Err(e) && e@ == f,
    }
}

impl AttrName {
    /// The attribute that a key names, if any.
    pub fn from_key(key: &String) -> (r: Option<AttrName>)
        ensures
            r == attr_name(key@),
    {
        if text_is(key, "device") {
            Some(AttrName::Device)
        } else if text_is(key, "name") {
            Some(AttrName::Name)
        } else if text_is(key, "label") {
            Some(AttrName::Label)
        } else if text_is(key, "group") {
            Some(AttrName::Group)
        } else if text_is(key, "state") {
            Some(AttrName::State)
        } else if text_is(key, "perm") {
            Some(AttrName::Perm)
        } else if text_is(key, "rule") {
            Some(AttrName::Rule)
        } else if text_is(key, "timeout") {
            Some(AttrName::Timeout)
        } else if text_is(key, "timestamp") {
            Some(AttrName::Timestamp)
        } else if text_is(key, "message") {
            Some(AttrName::Message)
        } else if text_is(key, "format") {
            Some(AttrName::Format)
        } else if text_is(key, "min") {
            Some(AttrName::Min)
        } else if text_is(key, "max") {
            Some(AttrName::Max)
        } else if text_is(key, "step") {
            Some(AttrName::Step)
        } else if text_is(key, "size") {
            Some(AttrName::Size)
        } else if text_is(key, "version") {
            Some(AttrName::Version)
        } else {
            None
        }
    }
}

impl Tag {
    /// Whether the protocol gives the tag this attribute.
    pub fn allows(&self, a: AttrName) -> (r: bool)
        ensures
            r == allowed(*self, a),
    {
        match self {
            Tag::Vector(verb, kind) => match a {
                AttrName::Device | AttrName::Name | AttrName::Timeout | AttrName::Timestamp => true,
                AttrName::State => !matches!(verb, Verb::Request),
                AttrName::Label | AttrName::Group | AttrName::Perm => matches!(verb, Verb::Define),
                AttrName::Rule => matches!(verb, Verb::Define) && matches!(kind, Kind::Switch),
                _ => false,
            },
            Tag::Element(verb, kind) => match a {
                AttrName::Name => true,
                AttrName::Label => matches!(verb, Verb::Define),
                AttrName::Min | AttrName::Max | AttrName::Step => matches!(verb, Verb::Define)
                    && matches!(kind, Kind::Number),
                AttrName::Format => (matches!(verb, Verb::Define) && matches!(kind, Kind::Number))
                    || (!matches!(verb, Verb::Define) && matches!(kind, Kind::Blob)),
                AttrName::Size => !matches!(verb, Verb::Define) && matches!(kind, Kind::Blob),
                _ => false,
            },
            Tag::Message => matches!(a, AttrName::Device | AttrName::Timestamp | AttrName::Message),
            Tag::DelProperty => matches!(a, AttrName::Device | AttrName::Name),
            Tag::GetProperties => matches!(
                a,
                AttrName::Version | AttrName::Device | AttrName::Name
            ),
        }
    }

    /// Whether the tag is incomplete without this attribute.
    pub fn requires_attr(&self, a: AttrName) -> (r: bool)
        ensures
            r == required(*self, a),
    {
        match self {
            Tag::Vector(verb, kind) => match a {
                AttrName::Device | AttrName::Name => true,
                AttrName::State => !matches!(verb, Verb::Request),
                AttrName::Perm => matches!(verb, Verb::Define) && !matches!(kind, Kind::Light),
                AttrName::Rule => matches!(verb, Verb::Define) && matches!(kind, Kind::Switch),
                _ => false,
            },
            Tag::Element(verb, kind) => match a {
                AttrName::Name => true,
                AttrName::Min | AttrName::Max | AttrName::Step => matches!(verb, Verb::Define)
                    && matches!(kind, Kind::Number),
                AttrName::Format => (matches!(verb, Verb::Define) && matches!(kind, Kind::Number))
                    || (!matches!(verb, Verb::Define) && matches!(kind, Kind::Blob)),
                AttrName::Size => !matches!(verb, Verb::Define) && matches!(kind, Kind::Blob),
                _ => false,
            },
            Tag::Message => false,
            Tag::DelProperty => matches!(a, AttrName::Device),
            Tag::GetProperties => matches!(a, AttrName::Version),
        }
    }
}

/// Whether `r` is the exec form of the result `spec`, for a type that
/// is its own view.
pub open spec fn gives<T>(r: Result<T, DeError>, spec: Result<T, Fault>) -> bool {
    match spec {
        Ok(v) => r matches Ok(x) && x == v,
        Err(f) => r matches Err(e) && e@ == f,
    }
}

/// The items of an attribute list as the tokenizer hands them out.
pub open spec fn items_of(list: Seq<Result<RawAttribute, quick_xml::Error>>) -> Seq<
    Option<(Seq<u8>, Seq<u8>)>,
> {
    list.map_values(
        |item: Result<RawAttribute, quick_xml::Error>|
            match item {
                Ok(a) => Some((a.key@, a.value@)),
                Err(_) => None,
            },
    )
}

fn read_text(raw: &[u8]) -> (r: Result<String, DeError>)
    ensures
        yields(r, value_text(raw@)),
{
    match unescape(raw) {
        Err(e) => Err(DeError::XmlError(e)),
        Ok(bytes) => match utf8_text(bytes) {
            Ok(s) => Ok(s),
            Err(e) => Err(DeError::DecodeUtf8(e)),
        },
    }
}

fn read_unsigned(raw: &[u8], max: u64) -> (r: Result<u64, DeError>)
    ensures
        match value_integer(raw@, 0, max as int) {
            Ok(v) => r matches Ok(x) && x == v,
            Err(f) => r matches Err(e) && e@ == f,
        },
{
    match read_text(raw) {
        Err(e) => Err(e),
        Ok(text) => match parse_unsigned(text.as_str(), max) {
            Some(v) => Ok(v),
            None => Err(DeError::ParseIntError(text)),
        },
    }
}

fn read_i32(raw: &[u8]) -> (r: Result<i32, DeError>)
    ensures
        match value_integer(raw@, i32::MIN as int, i32::MAX as int) {
            Ok(v) => r matches Ok(x) && x == v,
            Err(f) => r matches Err(e) && e@ == f,
        },
{
    match read_text(raw) {
        Err(e) => Err(e),
        Ok(text) => match parse_i32(text.as_str()) {
            Some(v) => Ok(v),
            None => Err(DeError::ParseIntError(text)),
        },
    }
}

fn read_instant(raw: &[u8]) -> (r: Result<Timestamp, DeError>)
    ensures
        gives(r, value_instant(raw@)),
{
    match read_text(raw) {
        Err(e) => Err(e),
        Ok(text) => {
            let mut text = text;
            if !ends_in_zone(text.as_str()) {
                proof {
                    reveal_strlit("Z");
                }
                assert("Z"@ =~= seq!['Z']);
                text.append("Z");
            }
            match parse_utc(text.as_str()) {
                Ok(t) => Ok(t),
                Err(e) => Err(DeError::ParseDateTimeError(e)),
            }
        },
    }
}

fn bad_attr<T>(a: AttrName, r: Result<T, DeError>, Ghost(member): Ghost<Option<T>>, Ghost(
    bytes,
): Ghost<Seq<u8>>) -> (out: Result<T, DeError>)
    requires
        crate::grammar::member_or_bad_value(member, bytes, r),
    ensures
        match member {
            Some(m) => out matches Ok(x) && x == m,
            None => out matches Err(e) && e@ == Fault::BadAttr(a, bytes),
        },
{
    match r {
        Ok(m) => Ok(m),
        Err(DeError::BadValue(raw)) => Err(DeError::BadAttr(a, raw)),
        Err(e) => Err(e),
    }
}

fn read_state(raw: &[u8]) -> (r: Result<PropertyState, DeError>)
    ensures
        gives(r, value_member(AttrName::State, raw@, |b: Seq<u8>| property_state(b))),
{
    match unescape(raw) {
        Err(e) => Err(DeError::XmlError(e)),
        Ok(bytes) => bad_attr(
            AttrName::State,
            PropertyState::try_from(bytes.as_slice()),
            Ghost(property_state(bytes@)),
            Ghost(bytes@),
        ),
    }
}

fn read_perm(raw: &[u8]) -> (r: Result<PropertyPerm, DeError>)
    ensures
        gives(r, value_member(AttrName::Perm, raw@, |b: Seq<u8>| property_perm(b))),
{
    match unescape(raw) {
        Err(e) => Err(DeError::XmlError(e)),
        Ok(bytes) => bad_attr(
            AttrName::Perm,
            PropertyPerm::try_from(bytes.as_slice()),
            Ghost(property_perm(bytes@)),
            Ghost(bytes@),
        ),
    }
}

fn read_rule(raw: &[u8]) -> (r: Result<SwitchRule, DeError>)
    ensures
        gives(r, value_member(AttrName::Rule, raw@, |b: Seq<u8>| switch_rule(b))),
{
    match unescape(raw) {
        Err(e) => Err(DeError::XmlError(e)),
        Ok(bytes) => bad_attr(
            AttrName::Rule,
            SwitchRule::try_from(bytes.as_slice()),
            Ghost(switch_rule(bytes@)),
            Ghost(bytes@),
        ),
    }
}

impl Fields {
    /// No attribute read yet.
    pub fn new() -> (f: Fields)
        ensures
            f@ == FieldsView::empty(),
    {
        Fields {
            device: None,
            name: None,
            label: None,
            group: None,
            state: None,
            perm: None,
            rule: None,
            timeout: None,
            timestamp: None,
            message: None,
            format: None,
            min: None,
            max: None,
            step: None,
            size: None,
            version: None,
        }
    }

    /// The fields with the value of one more attribute.
    pub fn with(self, a: AttrName, raw: &[u8]) -> (r: Result<Fields, DeError>)
        ensures
            yields(r, with_attribute(self@, a, raw@)),
    {
        let mut f = self;
        match a {
            AttrName::Device => {
                let device = read_text(raw)?;
                if device.as_str().is_empty() {
                    return Err(DeError::BadAttr(AttrName::Device, Vec::new()));
                }
                f.device = Some(device);
            },
            AttrName::Name => {
                f.name = Some(read_text(raw)?);
            },
            AttrName::Label => {
                f.label = Some(read_text(raw)?);
            },
            AttrName::Group => {
                f.group = Some(read_text(raw)?);
            },
            AttrName::Message => {
                f.message = Some(read_text(raw)?);
            },
            AttrName::Format => {
                f.format = Some(read_text(raw)?);
            },
            AttrName::Version => {
                f.version = Some(read_text(raw)?);
            },
            AttrName::State => {
                f.state = Some(read_state(raw)?);
            },
            AttrName::Perm => {
                f.perm = Some(read_perm(raw)?);
            },
            AttrName::Rule => {
                f.rule = Some(read_rule(raw)?);
            },
            AttrName::Timeout => {
                f.timeout = Some(read_unsigned(raw, 0xffff_ffff)? as u32);
            },
            AttrName::Min => {
                f.min = Some(read_i32(raw)?);
            },
            AttrName::Max => {
                f.max = Some(read_i32(raw)?);
            },
            AttrName::Step => {
                f.step = Some(read_i32(raw)?);
            },
            AttrName::Size => {
                f.size = Some(read_unsigned(raw, 0xffff_ffff_ffff_ffff)?);
            },
            AttrName::Timestamp => {
                f.timestamp = Some(read_instant(raw)?);
            },
            AttrName::Value => {},
        }
        Ok(f)
    }

    /// The first required attribute of `tag` that has not been read.
    pub fn missing(&self, tag: Tag) -> (r: Option<AttrName>)
        ensures
            r == first_missing(tag, self@),
    {
        if tag.requires_attr(AttrName::Device) && self.device.is_none() {
            Some(AttrName::Device)
        } else if tag.requires_attr(AttrName::Name) && self.name.is_none() {
            Some(AttrName::Name)
        } else if tag.requires_attr(AttrName::State) && self.state.is_none() {
            Some(AttrName::State)
        } else if tag.requires_attr(AttrName::Perm) && self.perm.is_none() {
            Some(AttrName::Perm)
        } else if tag.requires_attr(AttrName::Rule) && self.rule.is_none() {
            Some(AttrName::Rule)
        } else if tag.requires_attr(AttrName::Format) && self.format.is_none() {
            Some(AttrName::Format)
        } else if tag.requires_attr(AttrName::Min) && self.min.is_none() {
            Some(AttrName::Min)
        } else if tag.requires_attr(AttrName::Max) && self.max.is_none() {
            Some(AttrName::Max)
        } else if tag.requires_attr(AttrName::Step) && self.step.is_none() {
            Some(AttrName::Step)
        } else if tag.requires_attr(AttrName::Size) && self.size.is_none() {
            Some(AttrName::Size)
        } else if tag.requires_attr(AttrName::Version) && self.version.is_none() {
            Some(AttrName::Version)
        } else {
            None
        }
    }

    /// The fields with one more item of an attribute list.
    pub fn with_item(self, tag: Tag, item: Result<RawAttribute, quick_xml::Error>) -> (r: Result<
        Fields,
        DeError,
    >)
        ensures
            yields(
                r,
                with_item(
                    tag,
                    self@,
                    match item {
                        Ok(a) => Some((a.key@, a.value@)),
                        Err(_) => None,
                    },
                ),
            ),
    {
        match item {
            Err(e) => Err(DeError::XmlError(e)),
            Ok(attribute) => {
                let RawAttribute { key, value } = attribute;
                match utf8_text(key) {
                    Err(e) => Err(DeError::DecodeUtf8(e)),
                    Ok(key) => match AttrName::from_key(&key) {
                        Some(a) => if tag.allows(a) {
                            self.with(a, value.as_slice())
                        } else {
                            Err(DeError::UnexpectedAttr(key))
                        },
                        None => Err(DeError::UnexpectedAttr(key)),
                    },
                }
            },
        }
    }

    /// Reads the attributes of a start tag of the kind `tag`.
    pub fn parse(tag: Tag, content: &[u8], name_len: usize) -> (r: Result<Fields, DeError>)
        requires
            name_len <= content@.len(),
        ensures
            yields(r, tag_fields(tag, content@, name_len as int)),
    {
        let mut list = read_attributes(content, name_len);
        let ghost all = xml_attributes(content@, name_len as int);
        assert(items_of(list@) =~= all);
        let mut fields = Fields::new();
        while list.len() > 0
            invariant
                all == xml_attributes(content@, name_len as int),
                with_items(tag, FieldsView::empty(), all) == with_items(
                    tag,
                    fields@,
                    items_of(list@),
                ),
            decreases list@.len(),
        {
            let ghost before = items_of(list@);
            let item = list.remove(0);
            assert(items_of(list@) =~= before.skip(1));
            assert(before[0] == match item {
                Ok(a) => Some((a.key@, a.value@)),
                Err(_) => None,
            });
            assert(before.len() > 0);
            match fields.with_item(tag, item) {
                Ok(f) => {
                    fields = f;
                },
                Err(e) => {
                    return Err(e);
                },
            }
        }
        match fields.missing(tag) {
            Some(a) => Err(DeError::MissingAttr(a)),
            None => Ok(fields),
        }
    }
}

/// Whether an item of an attribute list is an attribute that the tag
/// does not have.
pub open spec fn unrecognized(tag: Tag, item: Option<(Seq<u8>, Seq<u8>)>) -> bool {
    item matches Some((key, _)) && valid_utf8(key) && match attr_name(decode_utf8(key)) {
        Some(a) => !allowed(tag, a),
        None => true,
    }
}

/// The name of an attribute, as text.
pub open spec fn key_text(item: Option<(Seq<u8>, Seq<u8>)>) -> Seq<char> {
    match item {
        Some((key, _)) => decode_utf8(key),
        None => Seq::empty(),
    }
}

/// An attribute that the tag does not have is never passed over: where
/// the attributes before it are accepted, reading the tag fails with
/// "unexpected attribute" and the name of that attribute.
pub proof fn lemma_unexpected_attribute(
    tag: Tag,
    f: FieldsView,
    items: Seq<Option<(Seq<u8>, Seq<u8>)>>,
    i: int,
)
    requires
        0 <= i < items.len(),
        unrecognized(tag, items[i]),
        with_items(tag, f, items.take(i)) is Ok,
    ensures
        with_items(tag, f, items) == Err::<FieldsView, Fault>(
            Fault::UnexpectedAttr(key_text(items[i])),
        ),
    decreases i,
{
    if i > 0 {
        let head = items.take(i);
        assert(head[0] == items[0]);
        let g = with_item(tag, f, items[0])->Ok_0;
        assert(head.skip(1) =~= items.skip(1).take(i - 1));
        lemma_unexpected_attribute(tag, g, items.skip(1), i - 1);
    }
}

/// The same of a start tag as a whole.
pub proof fn lemma_unexpected_attribute_of_tag(tag: Tag, content: Seq<u8>, name_len: int, i: int)
    requires
        0 <= i < xml_attributes(content, name_len).len(),
        unrecognized(tag, xml_attributes(content, name_len)[i]),
        with_items(tag, FieldsView::empty(), xml_attributes(content, name_len).take(i)) is Ok,
    ensures
        tag_fields(tag, content, name_len) == Err::<FieldsView, Fault>(
            Fault::UnexpectedAttr(key_text(xml_attributes(content, name_len)[i])),
        ),
{
    lemma_unexpected_attribute(tag, FieldsView::empty(), xml_attributes(content, name_len), i);
}

} // verus!
