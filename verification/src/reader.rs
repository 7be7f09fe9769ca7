//! A reader that gives the posts of a document one by one, and the
//! extraction of question titles with it.

use crate::error::{outcome, Error, ErrorView};
use crate::post::{row_of, row_outcome, Post, PostView};
use crate::xml::{
    front, open_reader, pending, read_event, refusal, refuse, rest, scans_of, Scan, ScanView,
};
use quick_xml::Reader;
use std::io::Cursor;
use vstd::prelude::*;

verus! {

/// What the first scan of a document must be: the declaration.
pub open spec fn declared(scan: ScanView) -> Result<(), ErrorView> {
    if scan is Decl {
        Ok(())
    } else {
        Err(refusal(scan, "Expected XML Declaration"@))
    }
}

/// What the second scan of a document must be: the tag that opens the
/// collection of rows.
pub open spec fn opened(scan: ScanView) -> Result<(), ErrorView> {
    if scan is Start {
        Ok(())
    } else {
        Err(refusal(scan, "Expected XML Start Rows"@))
    }
}

/// Whether a document with these scans can be read for posts: its head must
/// be a declaration and then the tag that opens the collection of rows. The
/// second scan counts only where the first is the declaration.
pub open spec fn opening(scans: Seq<ScanView>) -> Result<(), ErrorView> {
    if declared(front(scans)) is Err {
        declared(front(scans))
    } else {
        opened(front(rest(scans)))
    }
}

/// The scans of a document after its head.
pub open spec fn rows(scans: Seq<ScanView>) -> Seq<ScanView> {
    rest(rest(scans))
}

/// Texts as sequences of characters.
pub open spec fn texts(list: Seq<String>) -> Seq<Seq<char>> {
    list.map_values(|text: String| text@)
}

/// The titles after one more post: a question adds its title at the end,
/// another post adds nothing.
pub open spec fn with_title_of(titles: Seq<Seq<char>>, post: PostView) -> Seq<Seq<char>> {
    match post {
        PostView::Question { title, .. } => titles.push(title),
        _ => titles,
    }
}

/// The titles of the questions among the rows that `scans` start with, behind
/// the titles that were found already. The rows end with the tag that closes
/// their collection; a scan that gives no post before that is the error of
/// the whole, and so is the end of the scans.
pub open spec fn titles_of_rows(scans: Seq<ScanView>, found: Seq<Seq<char>>) -> Result<
    Seq<Seq<char>>,
    ErrorView,
>
    decreases scans.len(),
{
    if scans.len() == 0 {
        Err(ErrorView::InvalidXml("Unexpected tag. Expected row."@))
    } else {
        match row_of(scans[0]) {
            Err(error) => Err(error),
            Ok(None) => Ok(found),
            Ok(Some(post)) => titles_of_rows(scans.skip(1), with_title_of(found, post)),
        }
    }
}

/// The titles of the questions in a document with these scans, in the order
/// of the document.
pub open spec fn titles_of(scans: Seq<ScanView>) -> Result<Seq<Seq<char>>, ErrorView> {
    match opening(scans) {
        Err(error) => Err(error),
        Ok(_) => titles_of_rows(rows(scans), Seq::empty()),
    }
}

/// The titles that were extracted, or why not, with texts as sequences.
pub open spec fn titles_outcome(titles: Result<Vec<String>, Error>) -> Result<
    Seq<Seq<char>>,
    ErrorView,
> {
    match titles {
        Ok(list) => Ok(texts(list@)),
        Err(error) => Err(error@),
    }
}

/// Whether a reader was made, and why not where it was not.
pub open spec fn made_or_not(made: Result<PostReader, Error>) -> Result<(), ErrorView> {
    match made {
        Ok(_) => Ok(()),
        Err(error) => Err(error@),
    }
}

/// The declaration, or the error for what came in its place.
pub fn expect_declaration(scan: Scan) -> (found: Result<(), Error>)
    ensures
        outcome(found) == declared(scan@),
{
    match scan {
        Scan::Decl => Ok(()),
        other => Err(refuse(other, "Expected XML Declaration")),
    }
}

/// The tag that opens the collection of rows, or the error for what came in
/// its place.
pub fn expect_start(scan: Scan) -> (found: Result<(), Error>)
    ensures
        outcome(found) == opened(scan@),
{
    match scan {
        Scan::Start => Ok(()),
        other => Err(refuse(other, "Expected XML Start Rows")),
    }
}

/// Adds the title of `post` to `titles` where it is a question.
pub fn keep_title(titles: &mut Vec<String>, post: Post)
    ensures
        texts(final(titles)@) == with_title_of(texts(old(titles)@), post@),
{
    if let Post::Question { title, .. } = post {
        titles.push(title);
        assert(texts(titles@) =~= texts(old(titles)@).push(title@));
    }
}

/// Parses Stack Exchange Post XMLs.
pub struct PostReader {
    /// The same piece of memory takes every event in turn.
    buf: Vec<u8>,
    /// Stands on the first row after construction.
    xml_reader: Reader<Cursor<Vec<u8>>>,
}

impl View for PostReader {
    type V = Seq<ScanView>;

    /// The scans of the document that the reader has not looked at yet.
    closed spec fn view(&self) -> Seq<ScanView> {
        pending(self.xml_reader)
    }
}

impl PostReader {
    /// A reader of the posts in `document`. It reads the head of the
    /// document, a declaration and then the tag that opens the collection of
    /// rows, and fails where the document starts otherwise: no post is given
    /// out before the head was seen. The reader then stands on the first row.
    pub fn new(document: Vec<u8>) -> (made: Result<PostReader, Error>)
        ensures
            made_or_not(made) == opening(scans_of(document@)),
            made matches Ok(reader) ==> reader@ == rows(scans_of(document@)),
    {
        let mut buf = Vec::new();
        let mut xml_reader = open_reader(document);
        // Read declaration: E.g.: <?xml version="1.0" encoding="utf-8"?>
        let scan = Self::extract_event(&mut xml_reader, &mut buf);
        if let Err(error) = expect_declaration(scan) {
            return Err(error);
        }
        // Read start of rows collection; e.g. <posts>
        let scan = Self::extract_event(&mut xml_reader, &mut buf);
        if let Err(error) = expect_start(scan) {
            return Err(error);
        }
        Ok(PostReader { buf, xml_reader })
    }

    /// The next scan of the document, read into the buffer after clearing it.
    fn extract_event(xml_reader: &mut Reader<Cursor<Vec<u8>>>, buf: &mut Vec<u8>) -> (scan: Scan)
        ensures
            scan@ == front(pending(*old(xml_reader))),
            pending(*final(xml_reader)) == rest(pending(*old(xml_reader))),
    {
        buf.clear();
        read_event(xml_reader, buf)
    }

    /// The next post of the document, or `None` where the collection of rows
    /// closes. Anything but a row or the closing tag is an error. The reader
    /// moves on by one scan.
    pub fn next_post(&mut self) -> (row: Result<Option<Post>, Error>)
        ensures
            row_outcome(row) == row_of(front(old(self)@)),
            final(self)@ == rest(old(self)@),
    {
        let scan = Self::extract_event(&mut self.xml_reader, &mut self.buf);
        Post::from_scan(scan)
    }
}

/// The titles of the questions in a document of posts, in the order of the
/// document. The first scan that is not what the reader waits for ends the
/// extraction with its error.
pub fn extract_titles(posts_xml: Vec<u8>) -> (titles: Result<Vec<String>, Error>)
    ensures
        titles_outcome(titles) == titles_of(scans_of(posts_xml@)),
{
    let ghost scans = scans_of(posts_xml@);
    let mut titles = Vec::new();
    let mut reader = match PostReader::new(posts_xml) {
        Ok(reader) => reader,
        Err(error) => { return Err(error); },
    };
    assert(texts(titles@) =~= Seq::<Seq<char>>::empty());
    loop
        invariant
            scans == scans_of(posts_xml@),
            titles_of(scans) == titles_of_rows(reader@, texts(titles@)),
        decreases reader@.len(),
    {
        match reader.next_post() {
            Ok(Some(post)) => keep_title(&mut titles, post),
            Ok(None) => { return Ok(titles); },
            Err(error) => { return Err(error); },
        }
    }
}

/// A document that does not start with the declaration is refused with a
/// format error, whatever follows: no reader is made, so no post is given
/// out, and no title is extracted.
pub proof fn lemma_missing_declaration(scans: Seq<ScanView>)
    requires
        !(front(scans) is Decl),
        !(front(scans) is Malformed),
    ensures
        opening(scans) == Err::<(), ErrorView>(ErrorView::InvalidXml("Expected XML Declaration"@)),
        titles_of(scans) == Err::<Seq<Seq<char>>, ErrorView>(
            ErrorView::InvalidXml("Expected XML Declaration"@),
        ),
{
}

} // verus!
