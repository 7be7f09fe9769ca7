//! What the scanner of documents hands over: scans, attributes and
//! unescaped text.

use crate::error::{Error, ErrorView};
use quick_xml::events::attributes::Attribute;
use quick_xml::events::Event;
use quick_xml::Reader;
use std::io::Cursor;
use vstd::prelude::*;

verus! {

/// `quick_xml::Reader`: a pull parser over a source of bytes.
#[verifier::external_type_specification]
#[verifier::external_body]
#[verifier::reject_recursive_types(R)]
pub struct ExReader<R>(Reader<R>);

/// `std::io::Cursor`: a buffer with a reading position.
#[verifier::external_type_specification]
#[verifier::external_body]
#[verifier::reject_recursive_types(T)]
pub struct ExCursor<T>(Cursor<T>);

/// One attribute of a tag: its key, and its value as it stands in the
/// document, escapes not yet resolved.
#[derive(Debug)]
pub struct Attr {
    pub key: Vec<u8>,
    pub value: Vec<u8>,
}

/// An [`Attr`] with its bytes as sequences.
pub struct AttrView {
    pub key: Seq<u8>,
    pub value: Seq<u8>,
}

impl View for Attr {
    type V = AttrView;

    open spec fn view(&self) -> AttrView {
        AttrView { key: self.key@, value: self.value@ }
    }
}

/// What the scanner found where an attribute should stand: the attribute, or
/// its description of what stands there instead.
pub open spec fn item_view(item: Result<Attr, String>) -> Result<AttrView, Seq<char>> {
    match item {
        Ok(pair) => Ok(pair@),
        Err(fault) => Err(fault@),
    }
}

/// The items of an attribute list, from left to right.
pub open spec fn items_view(items: Seq<Result<Attr, String>>) -> Seq<
    Result<AttrView, Seq<char>>,
> {
    items.map_values(|item: Result<Attr, String>| item_view(item))
}

/// What the scanner gives when it is asked for the next event of a document:
/// an event, as far as a reader of posts looks at it, or its failure.
#[derive(Debug)]
pub enum Scan {
    /// The declaration at the head of a document.
    Decl,
    /// A tag that opens an element.
    Start,
    /// A self-closed tag, with its name and what stands in its attribute
    /// list, from left to right.
    Empty { name: Vec<u8>, attributes: Vec<Result<Attr, String>> },
    /// A tag that closes an element.
    End,
    /// Any other event: text, a comment, the end of the input.
    Other,
    /// The bytes are no markup, with the scanner's description.
    Malformed(String),
}

/// A [`Scan`] with its bytes and text as sequences.
pub enum ScanView {
    Decl,
    Start,
    Empty { name: Seq<u8>, attributes: Seq<Result<AttrView, Seq<char>>> },
    End,
    Other,
    Malformed(Seq<char>),
}

impl View for Scan {
    type V = ScanView;

    open spec fn view(&self) -> ScanView {
        match self {
            Scan::Decl => ScanView::Decl,
            Scan::Start => ScanView::Start,
            Scan::Empty { name, attributes } => ScanView::Empty {
                name: name@,
                attributes: items_view(attributes@),
            },
            Scan::End => ScanView::End,
            Scan::Other => ScanView::Other,
            Scan::Malformed(fault) => ScanView::Malformed(fault@),
        }
    }
}

/// The scans that a reader gives for a document, one for each time it is
/// asked until it reaches the end of the input, or its first failure, which
/// is then the last of them. White space between tags gives no event.
pub uninterp spec fn scans_of(document: Seq<u8>) -> Seq<ScanView>;

/// The scans that a reader has yet to give. Once it has given them all it has
/// reached the end of its input, or has failed, and gives [`ScanView::Other`]
/// from then on.
pub uninterp spec fn pending(reader: Reader<Cursor<Vec<u8>>>) -> Seq<ScanView>;

/// What resolving the escapes of a raw attribute value gives: the text, or
/// the description of what is wrong with the value (bytes that are no UTF-8,
/// an escape that is none).
pub uninterp spec fn unescaped(raw: Seq<u8>) -> Result<Seq<char>, Seq<char>>;

/// What a name looks like as text, with a replacement character where its
/// bytes are no UTF-8.
pub uninterp spec fn lossy_text(bytes: Seq<u8>) -> Seq<char>;

/// The first of the scans, and what a reader gives that has none left.
pub open spec fn front(scans: Seq<ScanView>) -> ScanView {
    if scans.len() > 0 {
        scans[0]
    } else {
        ScanView::Other
    }
}

/// The scans after the first.
pub open spec fn rest(scans: Seq<ScanView>) -> Seq<ScanView> {
    if scans.len() > 0 {
        scans.skip(1)
    } else {
        scans
    }
}

/// The error for a scan that is not what a reader waits for: a failure of
/// the scanner is malformed content with the scanner's description, and
/// anything else is a format error with the complaint.
pub open spec fn refusal(scan: ScanView, complaint: Seq<char>) -> ErrorView {
    match scan {
        ScanView::Malformed(fault) => ErrorView::MalformedXml(fault),
        _ => ErrorView::InvalidXml(complaint),
    }
}

/// The error for a scan that is not what a reader waits for.
pub fn refuse(scan: Scan, complaint: &str) -> (error: Error)
    ensures
        error@ == refusal(scan@, complaint@),
{
    match scan {
        Scan::Malformed(fault) => Error::MalformedXml(fault),
        _ => Error::invalid_xml(complaint),
    }
}

/// The outcome of resolving escapes, with its texts as sequences.
pub open spec fn text_outcome(text: Result<String, String>) -> Result<Seq<char>, Seq<char>> {
    match text {
        Ok(plain) => Ok(plain@),
        Err(fault) => Err(fault@),
    }
}

/// `quick_xml::events::attributes::Attribute::unescape_value` on an attribute
/// with the value `raw`: decodes the value as UTF-8 and resolves its escapes.
/// The result depends on the value alone. A failure comes as its
/// description, from `to_string`.
#[verifier::external_body]
pub(crate) fn unescape_value(raw: &[u8]) -> (text: Result<String, String>)
    ensures
        text_outcome(text) == unescaped(raw@),
{
    match Attribute::from((&[][..], raw)).unescape_value() {
        Ok(plain) => Ok(plain.into_owned()),
        Err(fault) => Err(fault.to_string()),
    }
}

/// `String::from_utf8_lossy`: the bytes as text, invalid sequences replaced.
#[verifier::external_body]
pub(crate) fn from_utf8_lossy(bytes: &[u8]) -> (text: String)
    ensures
        text@ == lossy_text(bytes@),
{
    String::from_utf8_lossy(bytes).into_owned()
}

/// `quick_xml::Reader::from_reader` over a cursor on `document`, then
/// `trim_text(true)`, so that white space between tags gives no event. What
/// the reader will give depends on the document alone.
#[verifier::external_body]
pub(crate) fn open_reader(document: Vec<u8>) -> (reader: Reader<Cursor<Vec<u8>>>)
    ensures
        pending(reader) == scans_of(document@),
{
    let mut reader = Reader::from_reader(Cursor::new(document));
    reader.trim_text(true);
    reader
}

/// `quick_xml::Reader::read_event_into`: the next event of the document, or
/// the scanner's failure, after which the reader is at its end. An empty tag
/// comes with the name from `BytesStart::name` and with the items that
/// `BytesStart::attributes` yields, in their order; a failure, and an item
/// that the scanner could not read, come as their description, from
/// `to_string`. What comes depends on the reader alone, not on what `buf`
/// holds.
#[verifier::external_body]
pub(crate) fn read_event(reader: &mut Reader<Cursor<Vec<u8>>>, buf: &mut Vec<u8>) -> (scan: Scan)
    ensures
        scan@ == front(pending(*old(reader))),
        pending(*final(reader)) == rest(pending(*old(reader))),
{
    match reader.read_event_into(buf) {
        Err(fault) => Scan::Malformed(fault.to_string()),
        Ok(Event::Decl(_)) => Scan::Decl,
        Ok(Event::Start(_)) => Scan::Start,
        Ok(Event::End(_)) => Scan::End,
        Ok(Event::Empty(tag)) => Scan::Empty {
            name: tag.name().0.to_vec(),
            attributes: tag.attributes().map(|item| {
                item.map(|pair| Attr { key: pair.key.0.to_vec(), value: pair.value.to_vec() })
                    .map_err(|fault| fault.to_string())
            }).collect(),
        },
        Ok(_) => Scan::Other,
    }
}

} // verus!
