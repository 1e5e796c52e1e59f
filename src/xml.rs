//! The XML layer: escaping for output, and the calls into quick-xml's tokeniser that turn a
//! document into a stream of markup events.
use vstd::prelude::*;
use crate::elements::Attribute;
use crate::attributes::XmlTag;
use crate::parser::XmlEvent;
use quick_xml::events::{BytesStart, Event};
use quick_xml::reader::Reader;

verus! {

/// The entity that stands for `c` in escaped text, or `c` itself.
pub open spec fn escape_char(c: char) -> Seq<char> {
    if c == '<' {
        seq!['&', 'l', 't', ';']
    } else if c == '>' {
        seq!['&', 'g', 't', ';']
    } else if c == '&' {
        seq!['&', 'a', 'm', 'p', ';']
    } else if c == '\'' {
        seq!['&', 'a', 'p', 'o', 's', ';']
    } else if c == '"' {
        seq!['&', 'q', 'u', 'o', 't', ';']
    } else {
        seq![c]
    }
}

/// `s` with each markup-significant character replaced by its entity.
pub open spec fn escaped(s: Seq<char>) -> Seq<char>
    decreases s.len(),
{
    if s.len() == 0 {
        Seq::empty()
    } else {
        escaped(s.drop_last()) + escape_char(s.last())
    }
}

/// Relies on `quick_xml::escape::escape`: replaces `<`, `>`, `&`, `'` and `"` by `&lt;`,
/// `&gt;`, `&amp;`, `&apos;` and `&quot;`, and keeps every other character.
#[verifier::external_body]
pub fn escape(s: &str) -> (r: String)
    ensures
        r@ == escaped(s@),
{
    quick_xml::escape::escape(s).into_owned()
}

/// quick-xml's tokeniser, carried as an opaque value.
#[verifier::external_type_specification]
#[verifier::external_body]
#[verifier::reject_recursive_types(R)]
pub struct ExReader<R>(Reader<R>);

/// A start tag as quick-xml reports it, read only through the functions below.
#[verifier::external_type_specification]
#[verifier::external_body]
pub struct ExBytesStart<'a>(BytesStart<'a>);

/// What the tokeniser reports when asked for its next event.
#[derive(Clone, Debug, PartialEq, Eq)]
pub enum XmlToken {
    /// A markup event, with names and entities read.
    Event(XmlEvent),
    /// The end of the document.
    Eof,
    /// Malformed markup, an undefined entity, or a name that is not UTF-8.
    Malformed,
}

/// The document a tokeniser reads.
pub uninterp spec fn reader_source(r: Reader<&[u8]>) -> Seq<char>;

/// How many events a tokeniser has handed out.
pub uninterp spec fn reader_position(r: Reader<&[u8]>) -> nat;

/// The `i`-th report of quick-xml's tokeniser over the document `s`, counting from 0.
pub uninterp spec fn xml_token_at(s: Seq<char>, i: nat) -> XmlToken;

/// Relies on `quick_xml::reader::Reader::from_str`: a tokeniser over the document that has
/// handed out no event yet.
#[verifier::external_body]
pub fn open_reader<'a>(s: &'a str) -> (r: Reader<&'a [u8]>)
    ensures
        reader_source(r) == s@,
        reader_position(r) == 0,
{
    Reader::from_str(s)
}

/// Relies on `Reader::read_event`, `BytesEnd::name`, `BytesText::unescape` of quick-xml: the
/// next report, a function of the document and of the number of reports before.
#[verifier::external_body]
pub fn next_token<'a>(reader: &mut Reader<&'a [u8]>) -> (t: XmlToken)
    ensures
        t == xml_token_at(reader_source(*old(reader)), reader_position(*old(reader))),
        reader_source(*final(reader)) == reader_source(*old(reader)),
        reader_position(*final(reader)) == reader_position(*old(reader)) + 1,
{
    let some = |e: Option<_>| e.map_or(XmlToken::Malformed, XmlToken::Event);
    match reader.read_event() {
        Ok(Event::Start(e)) => some(start_tag(&e).map(XmlEvent::Start)),
        Ok(Event::Empty(e)) => some(start_tag(&e).map(XmlEvent::Empty)),
        Ok(Event::End(e)) => some(String::from_utf8(e.name().0.to_vec()).ok().map(XmlEvent::End)),
        Ok(Event::Text(e)) => some(e.unescape().ok().map(|t| XmlEvent::Text(t.into()))),
        Ok(Event::Eof) => XmlToken::Eof,
        Ok(_) => XmlToken::Event(XmlEvent::Other),
        Err(_) => XmlToken::Malformed,
    }
}

/// Relies on `quick_xml::events::BytesStart::name` and `attributes`: the tag's name and its
/// attributes in document order, values with entities replaced; `None` when the name is not
/// UTF-8 or an attribute is malformed. Part of `next_token`.
#[verifier::external_body]
fn start_tag(e: &BytesStart) -> Option<XmlTag> {
    let mut attributes = Vec::new();
    for a in e.attributes() {
        let a = a.ok()?;
        let name = String::from_utf8(a.key.as_ref().to_vec()).ok()?;
        attributes.push(Attribute { name, value: a.unescape_value().ok()?.into() });
    }
    Some(XmlTag { name: String::from_utf8(e.name().as_ref().to_vec()).ok()?, attributes })
}

} // verus!
