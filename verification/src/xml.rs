//! XML documents as sequences of events.

use std::borrow::Cow;

use quick_xml::events::Event;
use quick_xml::Reader;

use vstd::prelude::*;

verus! {

/// An attribute of a tag: its key as written, and its value where the entities in it are known.
#[derive(Debug)]
pub struct XmlAttribute {
    pub key: Vec<u8>,
    pub value: Option<String>,
}

/// A piece of an XML document.
#[derive(Debug)]
pub enum XmlEvent {
    /// An opening or empty tag: its name as written, and its attributes, each where it is well
    /// formed.
    Tag(Vec<u8>, Vec<Option<XmlAttribute>>),
    /// Text, or what is wrong with the entities in it.
    Text(Result<String, String>),
    /// A closing tag.
    End,
    /// A comment, a declaration or the like.
    Other,
    /// What is wrong with the document.
    Failed(String),
    /// The end of the document.
    Eof,
}

/// What an `XmlAttribute` says.
pub struct AttributeModel {
    pub key: Seq<u8>,
    pub value: Option<Seq<char>>,
}

/// What an `XmlEvent` says.
pub enum EventModel {
    Tag(Seq<u8>, Seq<Option<AttributeModel>>),
    Text(Result<Seq<char>, Seq<char>>),
    End,
    Other,
    Failed(Seq<char>),
    Eof,
}

/// The view of an attribute that may be malformed.
pub open spec fn attribute_of(a: Option<XmlAttribute>) -> Option<AttributeModel> {
    match a {
        Some(a) => Some(AttributeModel { key: a.key@, value: crate::text::text_of(a.value) }),
        None => None,
    }
}

/// The views of the attributes of a tag.
pub open spec fn attributes_of(v: Seq<Option<XmlAttribute>>) -> Seq<Option<AttributeModel>> {
    v.map_values(|a: Option<XmlAttribute>| attribute_of(a))
}

impl View for XmlEvent {
    type V = EventModel;

    open spec fn view(&self) -> EventModel {
        match *self {
            XmlEvent::Tag(name, attributes) => EventModel::Tag(
                name@,
                attributes_of(attributes@),
            ),
            XmlEvent::Text(Ok(t)) => EventModel::Text(Ok(t@)),
            XmlEvent::Text(Err(e)) => EventModel::Text(Err(e@)),
            XmlEvent::End => EventModel::End,
            XmlEvent::Other => EventModel::Other,
            XmlEvent::Failed(e) => EventModel::Failed(e@),
            XmlEvent::Eof => EventModel::Eof,
        }
    }
}

/// The views of a list of events.
pub open spec fn events_of(v: Seq<XmlEvent>) -> Seq<EventModel> {
    v.map_values(|e: XmlEvent| e@)
}

/// `quick_xml::Reader`, which hands out the events of a document one by one.
#[verifier::external_type_specification]
#[verifier::external_body]
#[verifier::reject_recursive_types(R)]
pub struct ExReader<R>(Reader<R>);

/// The events that a `quick_xml::Reader` has yet to hand out, without the end of the document.
pub uninterp spec fn unread(reader: Reader<&[u8]>) -> Seq<EventModel>;

/// The events that `quick_xml` finds in a document, text trimmed, without the end of the document.
pub uninterp spec fn document_events(xml: Seq<char>) -> Seq<EventModel>;

/// `Reader::from_str` with `trim_text` set gives a reader that has yet to hand out every event of
/// the document.
#[verifier::external_body]
fn open_document<'a>(xml: &'a str) -> (r: Reader<&'a [u8]>)
    ensures
        unread(r) == document_events(xml@),
{
    let mut reader = Reader::from_str(xml);
    reader.config_mut().trim_text(true);
    reader
}

/// `Reader::read_event_into` hands out the next event of the document, or the end where there is
/// none left; every document has an end. Names and attribute keys come as written, text and
/// attribute values with their entities resolved by `BytesText::unescape` and
/// `Attribute::unescape_value`, and what is wrong comes as the text of the error.
#[verifier::external_body]
fn read_event(reader: &mut Reader<&[u8]>) -> (r: XmlEvent)
    ensures
        (r@ is Eof) == (unread(*old(reader)).len() == 0),
        unread(*old(reader)).len() > 0 ==> {
            &&& r@ == unread(*old(reader))[0]
            &&& unread(*final(reader)) == unread(*old(reader)).drop_first()
        },
{
    match reader.read_event_into(&mut vec![]) {
        Ok(Event::Start(e) | Event::Empty(e)) => XmlEvent::Tag(
            e.name().0.to_vec(),
            e.attributes().map(|a| a.ok().map(|a| XmlAttribute {
                key: a.key.0.to_vec(),
                value: a.unescape_value().ok().map(Cow::into_owned)
            })).collect()),
        Ok(Event::Text(t)) => XmlEvent::Text(
            t.unescape().map(Cow::into_owned).map_err(|e| e.to_string())),
        Ok(Event::End(_)) => XmlEvent::End,
        Ok(Event::Eof) => XmlEvent::Eof,
        Ok(_) => XmlEvent::Other,
        Err(e) => XmlEvent::Failed(e.to_string())
    }
}

/// The events of a document, up to its end.
pub fn read_document(xml: &str) -> (r: Vec<XmlEvent>)
    ensures
        events_of(r@) == document_events(xml@),
{
    let mut reader = open_document(xml);
    let mut out: Vec<XmlEvent> = Vec::new();
    assert(events_of(out@) + unread(reader) =~= unread(reader));
    loop
        invariant
            events_of(out@) + unread(reader) == document_events(xml@),
        decreases unread(reader).len(),
    {
        let ghost rest = unread(reader);
        let event = read_event(&mut reader);
        if let XmlEvent::Eof = event {
            assert(events_of(out@) + rest =~= events_of(out@));
            return out;
        }
        let ghost before = events_of(out@);
        let ghost seen = event@;
        out.push(event);
        assert(events_of(out@) =~= before.push(seen));
        assert(before.push(seen) + rest.drop_first() =~= before + rest);
    }
}

} // verus!
