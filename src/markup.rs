//! Markup events as plain values, attribute lookup on them, and the reader
//! that produces them from a byte stream.

use crate::text::{parse_u32, parse_u32_bytes, utf8_of, utf8_text};
use quick_xml::events::Event;
use vstd::prelude::*;

verus! {

/// One `key="value"` pair of a tag, with the value as written (not unescaped).
#[derive(Clone, Debug, PartialEq)]
pub struct Attribute {
    pub key: Vec<u8>,
    pub value: Vec<u8>,
}

/// An opening or self-closing tag: its name and its attributes in order;
/// `None` stands for an attribute that could not be read.
#[derive(Clone, Debug, PartialEq)]
pub struct Tag {
    pub name: Vec<u8>,
    pub attributes: Vec<Option<Attribute>>,
}

/// One event of the markup stream.
#[derive(Clone, Debug, PartialEq)]
pub enum XmlEvent {
    /// An opening tag, `<name ...>`.
    Start(Tag),
    /// A self-closing tag, `<name .../>`.
    Empty(Tag),
    /// A closing tag, `</name>`, with its name.
    End(Vec<u8>),
    /// The end of the input.
    Eof,
    /// Text, comments, declarations and the like.
    Other,
    /// Broken markup, at a byte offset of the input.
    Malformed { offset: u64, message: String },
}

/// Why an attribute could not be had.
#[derive(Clone, Copy, Debug, PartialEq, Eq, Structural)]
pub enum AttrError {
    /// No attribute has that key.
    Missing,
    /// The attribute list is broken before that key, or its value is not UTF-8.
    Malformed,
}

/// The value of the first attribute with key `key`, read in order and
/// stopping at the first attribute that cannot be read.
pub open spec fn attr_bytes(attrs: Seq<Option<Attribute>>, key: Seq<u8>) -> Result<Seq<u8>, AttrError>
    decreases attrs.len(),
{
    if attrs.len() == 0 {
        Err(AttrError::Missing)
    } else {
        match attrs[0] {
            None => Err(AttrError::Malformed),
            Some(a) => if a.key@ == key {
                Ok(a.value@)
            } else {
                attr_bytes(attrs.drop_first(), key)
            },
        }
    }
}

/// The text of the attribute `key` of a tag.
pub open spec fn attr_text(t: Tag, key: Seq<u8>) -> Result<Seq<char>, AttrError> {
    match attr_bytes(t.attributes@, key) {
        Ok(b) => match utf8_of(b) {
            Some(s) => Ok(s),
            None => Err(AttrError::Malformed),
        },
        Err(e) => Err(e),
    }
}

/// The attribute `key` of a tag read as a `u32`, if it is there and well formed.
pub open spec fn attr_u32(t: Tag, key: Seq<u8>) -> Option<u32> {
    match attr_bytes(t.attributes@, key) {
        Ok(b) => parse_u32(b),
        Err(_) => None,
    }
}

/// The raw value of the attribute `key` of a tag.
pub fn find_attr<'a>(tag: &'a Tag, key: &[u8]) -> (r: Result<&'a Vec<u8>, AttrError>)
    ensures
        match r {
            Ok(v) => attr_bytes(tag.attributes@, key@) == Ok::<Seq<u8>, AttrError>(v@),
            Err(e) => attr_bytes(tag.attributes@, key@) == Err::<Seq<u8>, AttrError>(e),
        },
{
    let ghost attrs = tag.attributes@;
    let mut i: usize = 0;
    assert(attrs.skip(0) =~= attrs);
    while i < tag.attributes.len()
        invariant
            attrs == tag.attributes@,
            i <= attrs.len(),
            attr_bytes(attrs, key@) == attr_bytes(attrs.skip(i as int), key@),
        decreases attrs.len() - i,
    {
        assert(attrs.skip(i as int).drop_first() =~= attrs.skip(i + 1));
        assert(attrs.skip(i as int)[0] == attrs[i as int]);
        match &tag.attributes[i] {
            None => {
                return Err(AttrError::Malformed);
            },
            Some(a) => {
                if crate::text::bytes_eq(a.key.as_slice(), key) {
                    return Ok(&a.value);
                }
            },
        }
        i = i + 1;
    }
    assert(attrs.skip(i as int).len() == 0);
    Err(AttrError::Missing)
}

/// The text of the attribute `key` of a tag.
pub fn attr_by_name(tag: &Tag, key: &[u8]) -> (r: Result<String, AttrError>)
    ensures
        match r {
            Ok(s) => attr_text(*tag, key@) == Ok::<Seq<char>, AttrError>(s@),
            Err(e) => attr_text(*tag, key@) == Err::<Seq<char>, AttrError>(e),
        },
{
    match find_attr(tag, key) {
        Ok(v) => match utf8_text(v.as_slice()) {
            Some(s) => Ok(s),
            None => Err(AttrError::Malformed),
        },
        Err(e) => Err(e),
    }
}

/// The attribute `key` of a tag read as a `u32`.
pub fn attr_by_name_u32(tag: &Tag, key: &[u8]) -> (r: Option<u32>)
    ensures
        r == attr_u32(*tag, key@),
{
    match find_attr(tag, key) {
        Ok(v) => parse_u32_bytes(v.as_slice()),
        Err(_) => None,
    }
}

#[verifier::external_type_specification]
#[verifier::external_body]
#[verifier::reject_recursive_types(R)]
pub struct ExReader<R>(quick_xml::Reader<R>);

#[verifier::external_type_specification]
#[verifier::external_body]
pub struct ExBytesStart<'a>(quick_xml::events::BytesStart<'a>);

/// Relies on quick_xml's `BytesStart::name` and `BytesStart::attributes`: the
/// tag's name and its attributes in order, each as written or as an error.
#[verifier::external_body]
fn tag_of(e: &quick_xml::events::BytesStart) -> (r: Tag) {
    let attributes = e.attributes().map(|a| match a {
        Ok(a) => Some(Attribute { key: a.key.as_ref().to_vec(), value: a.value.to_vec() }),
        Err(_) => None,
    }).collect();
    Tag { name: e.name().as_ref().to_vec(), attributes }
}

/// Relies on quick_xml's `Reader::read_event_into`: the next event of the
/// stream, which depends on what the stream holds, so nothing is promised of it.
#[verifier::external_body]
pub fn read_event<B: std::io::BufRead>(reader: &mut quick_xml::Reader<B>, buf: &mut Vec<u8>) -> (r: XmlEvent) {
    match reader.read_event_into(buf) {
        Ok(Event::Start(e)) => XmlEvent::Start(tag_of(&e)),
        Ok(Event::Empty(e)) => XmlEvent::Empty(tag_of(&e)),
        Ok(Event::End(e)) => XmlEvent::End(e.name().as_ref().to_vec()),
        Ok(Event::Eof) => XmlEvent::Eof,
        Ok(_) => XmlEvent::Other,
        Err(e) => XmlEvent::Malformed { offset: reader.buffer_position() as u64, message: e.to_string() },
    }
}

} // verus!
