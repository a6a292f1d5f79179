//! The XML tokenizer, quick-xml, as the Metalink parser sees it.
use quick_xml::events::attributes::Attributes;
use quick_xml::events::{BytesDecl, BytesStart, Event};
use std::borrow::Cow;
use vstd::prelude::*;

verus! {

#[verifier::external_type_specification]
#[verifier::external_body]
#[verifier::reject_recursive_types(R)]
pub struct ExReader<R>(quick_xml::Reader<R>);

/// One XML event.
pub enum XmlEvent {
    Start { name: String, attributes: String },
    End,
    Text(String),
    CData(String),
    Reference(String),
    DocType,
    /// The text of an XML declaration between its brackets.
    Declaration(String),
    Instruction,
    /// A comment of so many bytes.
    Comment(usize),
    Eof,
    Malformed,
}

/// What an XML event holds.
#[verifier::ext_equal]
pub enum XmlEventView {
    Start { name: Seq<char>, attributes: Seq<char> },
    End,
    Text(Seq<char>),
    CData(Seq<char>),
    Reference(Seq<char>),
    DocType,
    Declaration(Seq<char>),
    Instruction,
    /// A comment of so many bytes.
    Comment(usize),
    Eof,
    Malformed,
}

/// The characters of an optional text.
pub open spec fn text_view(text: Option<String>) -> Option<Seq<char>> {
    match text {
        Some(text) => Some(text@),
        None => None,
    }
}

impl View for XmlEvent {
    type V = XmlEventView;

    open spec fn view(&self) -> XmlEventView {
        match self {
            XmlEvent::Start { name, attributes } => XmlEventView::Start { name: name@, attributes: attributes@ },
            XmlEvent::End => XmlEventView::End,
            XmlEvent::Text(text) => XmlEventView::Text(text@),
            XmlEvent::CData(text) => XmlEventView::CData(text@),
            XmlEvent::Reference(name) => XmlEventView::Reference(name@),
            XmlEvent::DocType => XmlEventView::DocType,
            XmlEvent::Declaration(text) => XmlEventView::Declaration(text@),
            XmlEvent::Instruction => XmlEventView::Instruction,
            XmlEvent::Comment(bytes) => XmlEventView::Comment(*bytes),
            XmlEvent::Eof => XmlEventView::Eof,
            XmlEvent::Malformed => XmlEventView::Malformed,
        }
    }
}

/// One attribute of a tag.
pub struct XmlAttribute {
    pub key: String,
    /// The length of the value as it was written.
    pub raw_bytes: usize,
    /// The value with its references resolved, unless one of them is unknown.
    pub value: Option<String>,
}

/// What an attribute holds.
#[verifier::ext_equal]
pub struct XmlAttributeView {
    pub key: Seq<char>,
    pub raw_bytes: usize,
    pub value: Option<Seq<char>>,
}

impl View for XmlAttribute {
    type V = XmlAttributeView;

    open spec fn view(&self) -> XmlAttributeView {
        XmlAttributeView { key: self.key@, raw_bytes: self.raw_bytes, value: text_view(self.value) }
    }
}

/// The events that a reader has still to give: up to the end of the document,
/// or to the first thing that is not XML.
pub uninterp spec fn pending_events(reader: quick_xml::Reader<&[u8]>) -> Seq<XmlEventView>;

/// The events of a document, as `Reader::from_str` and `read_event` give them
/// when an empty element counts as a start and an end.
pub uninterp spec fn document_events(text: Seq<char>) -> Seq<XmlEventView>;

/// The attributes written in a tag behind its name, as `Attributes` gives them
/// without its check for duplicates; `None` stands for one that is not an attribute.
pub uninterp spec fn tag_attributes(raw: Seq<char>) -> Seq<Option<XmlAttributeView>>;

/// A text with its predefined and numeric references resolved, if they can be.
pub uninterp spec fn unescaped(text: Seq<char>) -> Option<Seq<char>>;

/// The version that an XML declaration gives behind its name, and the encoding:
/// `None` where it gives none, `Some(None)` where what it gives is not an
/// attribute.
pub uninterp spec fn declared(text: Seq<char>) -> (Option<Seq<char>>, Option<Option<Seq<char>>>);

/// Opens a document with `quick_xml::Reader::from_str`, with end names checked
/// and empty elements expanded to a start and an end. The events to come are
/// those of the document, and there is at least one.
#[verifier::external_body]
pub(crate) fn open_document<'a>(text: &'a str) -> (r: quick_xml::Reader<&'a [u8]>)
    ensures
        pending_events(r) == document_events(text@),
        pending_events(r).len() > 0,
{
    let mut reader = quick_xml::Reader::from_str(text);
    reader.config_mut().check_end_names = true;
    reader.config_mut().expand_empty_elements = true;
    reader
}

/// Reads one event with `quick_xml::Reader::read_event`: the first of those
/// to come. Unless it ends the document or is not XML, others follow it.
#[verifier::external_body]
pub(crate) fn next_event<'a>(reader: &mut quick_xml::Reader<&'a [u8]>) -> (r: XmlEvent)
    ensures
        pending_events(*old(reader)).len() > 0 ==> r@ == pending_events(*old(reader))[0],
        pending_events(*old(reader)).len() > 0 && !(r is Eof) && !(r is Malformed) ==> {
            &&& pending_events(*final(reader)) == pending_events(*old(reader)).drop_first()
            &&& pending_events(*final(reader)).len() > 0
        },
{
    let Ok(event) = reader.read_event() else { return XmlEvent::Malformed };
    match event {
        Event::Start(tag) | Event::Empty(tag) => XmlEvent::Start {
            name: tag.name().0.to_owned(), attributes: tag.attributes_raw().to_owned() },
        Event::End(_) => XmlEvent::End,
        Event::Text(text) => XmlEvent::Text(text.to_string()),
        Event::CData(text) => XmlEvent::CData(text.to_string()),
        Event::GeneralRef(name) => XmlEvent::Reference(name.to_string()),
        Event::DocType(_) => XmlEvent::DocType,
        Event::Decl(text) => XmlEvent::Declaration(text.to_string()),
        Event::PI(_) => XmlEvent::Instruction,
        Event::Comment(text) => XmlEvent::Comment(text.len()),
        Event::Eof => XmlEvent::Eof,
    }
}

/// Reads one attribute of a tag with `quick_xml::events::attributes::Attributes`,
/// its duplicate check off and its value normalized as in XML 1.0: the one at
/// `index`, if there are so many.
#[verifier::external_body]
pub(crate) fn attribute_at(raw: &str, index: usize) -> (r: Option<Option<XmlAttribute>>)
    ensures
        r is Some <==> index < tag_attributes(raw@).len(),
        r matches Some(found) ==> tag_attributes(raw@)[index as int] == (match found {
            Some(attribute) => Some(attribute@),
            None => None,
        }),
{
    match Attributes::new(raw, 0).with_checks(false).nth(index) {
        None => None,
        Some(Err(_)) => Some(None),
        Some(Ok(found)) => Some(Some(XmlAttribute {
            key: found.key.0.to_owned(),
            raw_bytes: found.value.len(),
            value: found.normalized_value(quick_xml::XmlVersion::Implicit1_0).ok().map(Cow::into_owned),
        })),
    }
}

/// Resolves the references of a text with `quick_xml::escape::unescape`.
#[verifier::external_body]
pub(crate) fn unescape(text: &str) -> (r: Option<String>)
    ensures
        text_view(r) == unescaped(text@),
{
    quick_xml::escape::unescape(text).ok().map(Cow::into_owned)
}

/// Reads what a declaration says behind its name with
/// `quick_xml::events::BytesDecl`, by its `version` and its `encoding`.
#[verifier::external_body]
pub(crate) fn read_declaration(text: &str) -> (r: (Option<String>, Option<Option<String>>))
    ensures
        (
            text_view(r.0),
            match r.1 {
                Some(encoding) => Some(text_view(encoding)),
                None => None,
            },
        ) == declared(text@),
{
    let decl = BytesDecl::from_start(BytesStart::from_content(text, 0));
    let version = decl.version().ok().map(Cow::into_owned);
    (version, decl.encoding().map(|found| found.ok().map(Cow::into_owned)))
}

} // verus!
