//! The XML tokenizer. Tokenizing is the work of `quick_xml`; this module
//! gives its events a plain form and states what the decoder relies on.
//! Nothing in this module is proved: each contract describes `quick_xml`.

use quick_xml::events::attributes::Attributes;
use quick_xml::events::Event;
use quick_xml::Reader;
use vstd::prelude::*;

verus! {

#[verifier::external_type_specification]
#[verifier::external_body]
pub struct ExXmlError(quick_xml::Error);

/// One event of the tokenizer, holding its bytes as they stand in the
/// document.
#[derive(Debug)]
pub enum XmlEvent {
    /// A start tag: its content (name and attributes) and the length of
    /// the name at the front of it.
    Start(Vec<u8>, usize),
    /// An end tag, with its name.
    End(Vec<u8>),
    /// Character data, still escaped.
    Text(Vec<u8>),
    /// Anything else that is no element or text (a comment, a
    /// declaration, an unexpanded empty element, ...).
    Other,
    /// The end of the document.
    Eof,
}

/// What the decoder sees of an event. `Malformed` stands for the place
/// where the tokenizer fails.
pub enum XmlItem {
    Start { content: Seq<u8>, name_len: int },
    End { name: Seq<u8> },
    Text { escaped: Seq<u8> },
    Other,
    Malformed,
}

impl XmlEvent {
    /// The item that this event stands for; `Eof` has none and is given
    /// `Other`.
    pub open spec fn item(&self) -> XmlItem {
        match self {
            XmlEvent::Start(content, name_len) => XmlItem::Start {
                content: content@,
                name_len: *name_len as int,
            },
            XmlEvent::End(name) => XmlItem::End { name: name@ },
            XmlEvent::Text(escaped) => XmlItem::Text { escaped: escaped@ },
            XmlEvent::Other => XmlItem::Other,
            XmlEvent::Eof => XmlItem::Other,
        }
    }

    /// The name of a start tag lies within its content.
    pub open spec fn well_formed(&self) -> bool {
        match self {
            XmlEvent::Start(content, name_len) => *name_len <= content@.len(),
            _ => true,
        }
    }
}

/// A tokenizer over a document held in memory.
#[verifier::external_body]
pub struct EventSource<'a> {
    reader: Reader<&'a [u8]>,
}

/// The events that `quick_xml::Reader::read_event` yields for a whole
/// document under the two settings, up to the end of the document. Where
/// the tokenizer fails, the sequence ends in `Malformed`.
pub uninterp spec fn xml_events(xml: Seq<u8>, trim_text: bool, expand_empty: bool) -> Seq<XmlItem>;

/// The events that a tokenizer has yet to yield.
pub uninterp spec fn pending(source: EventSource) -> Seq<XmlItem>;

/// The position of a tokenizer, as `quick_xml::Reader::buffer_position`
/// gives it: the number of bytes of the document that it has read.
pub uninterp spec fn consumed(source: EventSource) -> nat;

/// The attributes that `quick_xml::events::attributes::Attributes` yields
/// for the content of a start tag, each as key and raw value; `None`
/// stands for an attribute that it rejects.
pub uninterp spec fn xml_attributes(content: Seq<u8>, name_len: int) -> Seq<
    Option<(Seq<u8>, Seq<u8>)>,
>;

/// The result of `quick_xml::escape::unescape`: the bytes with each
/// entity replaced, or `None` where an entity is unknown or unfinished.
pub uninterp spec fn xml_unescaped(raw: Seq<u8>) -> Option<Seq<u8>>;

/// How one reading relates the events pending before and after it to
/// its result. At the end of the document the result is `Eof` and
/// nothing changes. Before it, the first pending event is taken: it is
/// the result, or it is the place where the tokenizer fails, and then
/// nothing is pending any more.
pub open spec fn takes_first(
    before: Seq<XmlItem>,
    after: Seq<XmlItem>,
    r: Result<XmlEvent, quick_xml::Error>,
) -> bool {
    match r {
        Ok(event) => if before.len() == 0 {
            event is Eof && after.len() == 0
        } else {
            !(event is Eof) && event.well_formed() && event.item() == before[0] && after
                == before.skip(1)
        },
        Err(_) => before.len() > 0 && before[0] is Malformed && after.len() == 0,
    }
}

/// Whether a list of attributes, as read, is the list `items`.
pub open spec fn lists(
    r: Seq<Result<RawAttribute, quick_xml::Error>>,
    items: Seq<Option<(Seq<u8>, Seq<u8>)>>,
) -> bool {
    r.len() == items.len() && forall|i: int|
        0 <= i < r.len() ==> match #[trigger] r[i] {
            Ok(a) => items[i] == Some((a.key@, a.value@)),
            Err(_) => items[i] is None,
        }
}

/// Whether a document type declaration may begin at position `i`: the
/// bytes there are `<!D` or `<!d`.
pub open spec fn doctype_at(xml: Seq<u8>, i: int) -> bool {
    0 <= i && i + 2 < xml.len() && xml[i] == 0x3c && xml[i + 1] == 0x21 && (xml[i + 2] == 0x44
        || xml[i + 2] == 0x64)
}

/// Whether the bytes `<!D` or `<!d` stand anywhere in a document.
pub open spec fn holds_doctype(xml: Seq<u8>) -> bool {
    exists|i: int| doctype_at(xml, i)
}

impl<'a> EventSource<'a> {
    /// `Reader::from_reader` on a byte slice, with `trim_text` and
    /// `expand_empty_elements` set as given. A reader over a slice reads
    /// nothing but the slice, so what it will yield is fixed by these
    /// three values. A new reader has read nothing.
    ///
    /// In a build with debug assertions the reader stops the program at
    /// a document type declaration without a name. It takes `<!D` or
    /// `<!d` for the start of such a declaration, so documents that hold
    /// these bytes are left out.
    #[verifier::external_body]
    pub(crate) fn new(xml: &'a [u8], trim_text: bool, expand_empty: bool) -> (source: Self)
        requires
            !holds_doctype(xml@),
        ensures
            pending(source) == xml_events(xml@, trim_text, expand_empty),
            consumed(source) == 0,
    {
        let mut reader = Reader::from_reader(xml);
        reader.trim_text(trim_text).expand_empty_elements(expand_empty);
        EventSource { reader }
    }

    /// `Reader::read_event`. It yields the pending events one by one, then
    /// `Eof` for ever. After a failure the reader is exhausted: every
    /// later call yields `Eof`.
    #[verifier::external_body]
    pub(crate) fn read_event(&mut self) -> (r: Result<XmlEvent, quick_xml::Error>)
        ensures
            takes_first(pending(*old(self)), pending(*final(self)), r),
    {
        match self.reader.read_event(&mut Vec::new()) {
            Ok(Event::Start(e)) => Ok(XmlEvent::Start(e.to_vec(), e.name().len())),
            Ok(Event::End(e)) => Ok(XmlEvent::End(e.name().to_vec())),
            Ok(Event::Text(e)) => Ok(XmlEvent::Text(e.escaped().to_vec())),
            Ok(Event::Eof) => Ok(XmlEvent::Eof),
            Ok(_) => Ok(XmlEvent::Other),
            Err(e) => Err(e),
        }
    }

    /// `Reader::buffer_position`: the number of bytes read so far.
    #[verifier::external_body]
    pub(crate) fn buffer_position(&self) -> (position: usize)
        ensures
            position == consumed(*self),
    {
        self.reader.buffer_position()
    }
}

/// One attribute of a start tag: its key and its value, still escaped.
#[derive(Debug)]
pub struct RawAttribute {
    pub key: Vec<u8>,
    pub value: Vec<u8>,
}

/// The items of `Attributes::new(content, name_len)`, in order. The
/// iterator goes on after an attribute that it rejects, so a failure may
/// stand before further items.
#[verifier::external_body]
pub(crate) fn read_attributes(content: &[u8], name_len: usize) -> (r: Vec<
    Result<RawAttribute, quick_xml::Error>,
>)
    requires
        name_len <= content@.len(),
    ensures
        lists(r@, xml_attributes(content@, name_len as int)),
{
    Attributes::new(content, name_len).map(
        |item| match item {
            Ok(a) => Ok(RawAttribute { key: a.key.to_vec(), value: a.value.into_owned() }),
            Err(e) => Err(quick_xml::Error::InvalidAttr(e)),
        },
    ).collect()
}

/// Bytes without `&` are their own result when unescaped.
pub open spec fn keeps_plain(raw: Seq<u8>, r: Result<Vec<u8>, quick_xml::Error>) -> bool {
    !raw.contains(0x26) ==> (r matches Ok(bytes) && bytes@ == raw)
}

/// `quick_xml::escape::unescape`, its failure in the form that
/// `quick_xml` gives it when it unescapes an attribute or a text.
/// Bytes without `&` hold no entity and come back as they are.
#[verifier::external_body]
pub(crate) fn unescape(raw: &[u8]) -> (r: Result<Vec<u8>, quick_xml::Error>)
    ensures
        match r {
            Ok(bytes) => xml_unescaped(raw@) == Some(bytes@),
            Err(_) => xml_unescaped(raw@) is None,
        },
        keeps_plain(raw@, r),
{
    match quick_xml::escape::unescape(raw) {
        Ok(bytes) => Ok(bytes.into_owned()),
        Err(e) => Err(quick_xml::Error::EscapeError(e)),
    }
}

/// What stands for one byte in escaped text: the entity of `<`, `>`,
/// `'`, `&` and `"`, and every other byte itself.
pub open spec fn escape_of(b: u8) -> Seq<u8> {
    if b == 0x3c {
        seq![0x26u8, 0x6c, 0x74, 0x3b]
    } else if b == 0x3e {
        seq![0x26u8, 0x67, 0x74, 0x3b]
    } else if b == 0x27 {
        seq![0x26u8, 0x61, 0x70, 0x6f, 0x73, 0x3b]
    } else if b == 0x26 {
        seq![0x26u8, 0x61, 0x6d, 0x70, 0x3b]
    } else if b == 0x22 {
        seq![0x26u8, 0x71, 0x75, 0x6f, 0x74, 0x3b]
    } else {
        seq![b]
    }
}

/// Text with each byte escaped.
pub open spec fn xml_escaped(raw: Seq<u8>) -> Seq<u8>
    decreases raw.len(),
{
    if raw.len() == 0 {
        Seq::empty()
    } else {
        xml_escaped(raw.drop_last()) + escape_of(raw.last())
    }
}

/// `quick_xml::escape::escape`: it replaces `<`, `>`, `'`, `&` and `"`
/// by `&lt;`, `&gt;`, `&apos;`, `&amp;` and `&quot;`, and keeps the rest.
#[verifier::external_body]
pub(crate) fn escape(raw: &[u8]) -> (r: Vec<u8>)
    ensures
        r@ == xml_escaped(raw@),
{
    quick_xml::escape::escape(raw).into_owned()
}

} // verus!
