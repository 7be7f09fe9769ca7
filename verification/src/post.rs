//! Posts, and how the attributes of a row make one.

use crate::error::{outcome, Error, ErrorView};
use crate::number::{from_radix_10_checked, leading_number};
use crate::xml::{
    from_utf8_lossy, item_view, items_view, lossy_text, refusal, refuse, unescape_value, unescaped,
    Attr, AttrView, Scan, ScanView,
};
use vstd::prelude::*;
use vstd::slice::slice_to_vec;

verus! {

/// Name of the elements that hold a post each.
pub const ROW: [u8; 3] = ['r' as u8, 'o' as u8, 'w' as u8];

/// Key of the attribute that holds the number of a post.
pub const KEY_ID: [u8; 2] = ['I' as u8, 'd' as u8];

/// Key of the attribute that says what a post is.
pub const KEY_POST_TYPE_ID: [u8; 10] = [
    'P' as u8,
    'o' as u8,
    's' as u8,
    't' as u8,
    'T' as u8,
    'y' as u8,
    'p' as u8,
    'e' as u8,
    'I' as u8,
    'd' as u8,
];

/// Key of the attribute that holds the number of the question that an answer
/// belongs to.
pub const KEY_PARENT_ID: [u8; 8] = [
    'P' as u8,
    'a' as u8,
    'r' as u8,
    'e' as u8,
    'n' as u8,
    't' as u8,
    'I' as u8,
    'd' as u8,
];

/// Key of the attribute that holds the title of a question.
pub const KEY_TITLE: [u8; 5] = ['T' as u8, 'i' as u8, 't' as u8, 'l' as u8, 'e' as u8];

/// Key of the attribute that holds the text of a post.
pub const KEY_BODY: [u8; 4] = ['B' as u8, 'o' as u8, 'd' as u8, 'y' as u8];

/// The post type of a question.
pub const TYPE_QUESTION: [u8; 1] = ['1' as u8];

/// The post type of an answer.
pub const TYPE_ANSWER: [u8; 1] = ['2' as u8];

/// One record of a dump of posts.
#[derive(Debug)]
pub enum Post {
    Question { id: u64, title: String, body: String },
    Answer { id: u64, parent_id: u64, body: String },
    /// A post that is neither a question nor an answer.
    Other,
}

/// A [`Post`] with its texts as sequences of characters.
pub enum PostView {
    Question { id: u64, title: Seq<char>, body: Seq<char> },
    Answer { id: u64, parent_id: u64, body: Seq<char> },
    Other,
}

impl View for Post {
    type V = PostView;

    open spec fn view(&self) -> PostView {
        match self {
            Post::Question { id, title, body } => PostView::Question {
                id: *id,
                title: title@,
                body: body@,
            },
            Post::Answer { id, parent_id, body } => PostView::Answer {
                id: *id,
                parent_id: *parent_id,
                body: body@,
            },
            Post::Other => PostView::Other,
        }
    }
}

/// What a scan of the attributes of a row has kept: for each key that a post
/// is made of, the value that was seen last. Numbers and the post type are
/// kept raw, title and body with their escapes resolved.
#[derive(Debug)]
pub struct Fields {
    pub id: Option<Vec<u8>>,
    pub parent_id: Option<Vec<u8>>,
    pub post_type_id: Option<Vec<u8>>,
    pub title: Option<String>,
    pub body: Option<String>,
}

/// [`Fields`] with bytes and texts as sequences.
pub struct FieldsView {
    pub id: Option<Seq<u8>>,
    pub parent_id: Option<Seq<u8>>,
    pub post_type_id: Option<Seq<u8>>,
    pub title: Option<Seq<char>>,
    pub body: Option<Seq<char>>,
}

/// Raw bytes that may be missing, as a sequence.
pub open spec fn raw_view(raw: Option<Vec<u8>>) -> Option<Seq<u8>> {
    match raw {
        Some(bytes) => Some(bytes@),
        None => None,
    }
}

/// A text that may be missing, as a sequence.
pub open spec fn text_view(text: Option<String>) -> Option<Seq<char>> {
    match text {
        Some(plain) => Some(plain@),
        None => None,
    }
}

impl View for Fields {
    type V = FieldsView;

    open spec fn view(&self) -> FieldsView {
        FieldsView {
            id: raw_view(self.id),
            parent_id: raw_view(self.parent_id),
            post_type_id: raw_view(self.post_type_id),
            title: text_view(self.title),
            body: text_view(self.body),
        }
    }
}

/// The outcome of asking for a row, with what it holds taken by its view.
pub open spec fn row_outcome(result: Result<Option<Post>, Error>) -> Result<
    Option<PostView>,
    ErrorView,
> {
    match result {
        Ok(Some(post)) => Ok(Some(post@)),
        Ok(None) => Ok(None),
        Err(error) => Err(error@),
    }
}

/// Nothing kept yet.
pub open spec fn no_fields() -> FieldsView {
    FieldsView { id: None, parent_id: None, post_type_id: None, title: None, body: None }
}

/// A text field after its escapes were resolved: the text, or the failure as
/// malformed content.
pub open spec fn resolved(raw: Seq<u8>) -> Result<Seq<char>, ErrorView> {
    match unescaped(raw) {
        Ok(plain) => Ok(plain),
        Err(fault) => Err(ErrorView::MalformedXml(fault)),
    }
}

/// What is kept after one more item of the attribute list. A value under a
/// known key takes the place of an earlier one, an unknown key changes
/// nothing, and an item that the scanner could not read, or a title or body
/// whose escapes cannot be resolved, is malformed content.
pub open spec fn noted(fields: FieldsView, item: Result<AttrView, Seq<char>>) -> Result<
    FieldsView,
    ErrorView,
> {
    match item {
        Err(fault) => Err(ErrorView::MalformedXml(fault)),
        Ok(AttrView { key, value }) => {
            if key == KEY_ID@ {
                Ok(FieldsView { id: Some(value), ..fields })
            } else if key == KEY_POST_TYPE_ID@ {
                Ok(FieldsView { post_type_id: Some(value), ..fields })
            } else if key == KEY_PARENT_ID@ {
                Ok(FieldsView { parent_id: Some(value), ..fields })
            } else if key == KEY_TITLE@ {
                match resolved(value) {
                    Ok(plain) => Ok(FieldsView { title: Some(plain), ..fields }),
                    Err(error) => Err(error),
                }
            } else if key == KEY_BODY@ {
                match resolved(value) {
                    Ok(plain) => Ok(FieldsView { body: Some(plain), ..fields }),
                    Err(error) => Err(error),
                }
            } else {
                Ok(fields)
            }
        },
    }
}

/// What is kept after a whole attribute list, read from left to right; the
/// first item that fails ends the scan.
pub open spec fn scanned(items: Seq<Result<AttrView, Seq<char>>>) -> Result<FieldsView, ErrorView>
    decreases items.len(),
{
    if items.len() == 0 {
        Ok(no_fields())
    } else {
        match scanned(items.drop_last()) {
            Ok(fields) => noted(fields, items.last()),
            Err(error) => Err(error),
        }
    }
}

/// The number of a post from its raw text: the number that the leading
/// digits write, 0 where there is none. A number above `u64::MAX` is
/// malformed content.
pub open spec fn number(raw: Seq<u8>) -> Result<u64, ErrorView> {
    if leading_number(raw) <= u64::MAX {
        Ok(leading_number(raw) as u64)
    } else {
        Err(ErrorView::MalformedXml("Number out of range in Post"@))
    }
}

/// The question that the kept values make.
pub open spec fn question(fields: FieldsView) -> Result<PostView, ErrorView> {
    if fields.id is None {
        Err(ErrorView::InvalidXml("Missing id in Post"@))
    } else if number(fields.id->Some_0) is Err {
        Err(number(fields.id->Some_0)->Err_0)
    } else if fields.title is None {
        Err(ErrorView::InvalidXml("Missing title in Question"@))
    } else if fields.body is None {
        Err(ErrorView::InvalidXml("Missing body in Question"@))
    } else {
        Ok(
            PostView::Question {
                id: number(fields.id->Some_0)->Ok_0,
                title: fields.title->Some_0,
                body: fields.body->Some_0,
            },
        )
    }
}

/// The answer that the kept values make.
pub open spec fn answer(fields: FieldsView) -> Result<PostView, ErrorView> {
    if fields.id is None {
        Err(ErrorView::InvalidXml("Missing id in Post"@))
    } else if number(fields.id->Some_0) is Err {
        Err(number(fields.id->Some_0)->Err_0)
    } else if fields.parent_id is None {
        Err(ErrorView::InvalidXml("Missing parent_id in Answer"@))
    } else if number(fields.parent_id->Some_0) is Err {
        Err(number(fields.parent_id->Some_0)->Err_0)
    } else if fields.body is None {
        Err(ErrorView::InvalidXml("Missing body in Answer"@))
    } else {
        Ok(
            PostView::Answer {
                id: number(fields.id->Some_0)->Ok_0,
                parent_id: number(fields.parent_id->Some_0)->Ok_0,
                body: fields.body->Some_0,
            },
        )
    }
}

/// The post that the kept values make. The post type decides: `1` asks for
/// a question, `2` for an answer, and anything else gives
/// [`PostView::Other`] whatever else was kept. Without a post type there is
/// no post.
pub open spec fn built(fields: FieldsView) -> Result<PostView, ErrorView> {
    if fields.post_type_id is None {
        Err(ErrorView::InvalidXml("Missing post_type_id in Post"@))
    } else if fields.post_type_id->Some_0 == TYPE_QUESTION@ {
        question(fields)
    } else if fields.post_type_id->Some_0 == TYPE_ANSWER@ {
        answer(fields)
    } else {
        Ok(PostView::Other)
    }
}

/// The post that an attribute list makes.
pub open spec fn post_of(items: Seq<Result<AttrView, Seq<char>>>) -> Result<PostView, ErrorView> {
    match scanned(items) {
        Ok(fields) => built(fields),
        Err(error) => Err(error),
    }
}

/// What a scan gives a reader that stands between the rows of a document:
/// a row gives its post, the closing tag gives the end of the posts, a
/// failure of the scanner is an error of its kind, and anything else is a
/// format error.
pub open spec fn row_of(scan: ScanView) -> Result<Option<PostView>, ErrorView> {
    match scan {
        ScanView::Empty { name, attributes } => {
            if name == ROW@ {
                match post_of(attributes) {
                    Ok(post) => Ok(Some(post)),
                    Err(error) => Err(error),
                }
            } else {
                Err(ErrorView::InvalidXml("Unexpected tagname in row: "@ + lossy_text(name)))
            }
        },
        ScanView::End => Ok(None),
        _ => Err(refusal(scan, "Unexpected tag. Expected row."@)),
    }
}

/// Whether two runs of bytes are the same.
pub fn same_bytes(left: &[u8], right: &[u8]) -> (same: bool)
    ensures
        same == (left@ == right@),
{
    if left.len() != right.len() {
        return false;
    }
    let mut i: usize = 0;
    while i < left.len()
        invariant
            i <= left@.len(),
            left@.len() == right@.len(),
            forall|k: int| 0 <= k < i ==> left@[k] == right@[k],
        decreases left@.len() - i,
    {
        if left[i] != right[i] {
            return false;
        }
        i += 1;
    }
    assert(left@ =~= right@);
    true
}

/// A text field with its escapes resolved.
fn resolve(raw: &[u8]) -> (text: Result<String, Error>)
    ensures
        outcome(text) == resolved(raw@),
{
    match unescape_value(raw) {
        Ok(plain) => Ok(plain),
        Err(fault) => Err(Error::MalformedXml(fault)),
    }
}

/// The number of a post from its raw text.
fn parse_number(raw: &[u8]) -> (parsed: Result<u64, Error>)
    ensures
        outcome(parsed) == number(raw@),
{
    match from_radix_10_checked(raw).0 {
        Some(value) => Ok(value),
        None => Err(Error::MalformedXml("Number out of range in Post".to_owned())),
    }
}

impl Fields {
    /// Nothing kept yet.
    pub fn new() -> (fields: Fields)
        ensures
            fields@ == no_fields(),
    {
        Fields { id: None, parent_id: None, post_type_id: None, title: None, body: None }
    }

    /// Keeps what one more item of the attribute list holds.
    pub fn note(self, item: &Result<Attr, String>) -> (kept: Result<Fields, Error>)
        ensures
            outcome(kept) == noted(self@, item_view(*item)),
    {
        let mut fields = self;
        match item {
            Err(fault) => { return Err(Error::MalformedXml(fault.clone())); },
            Ok(Attr { key, value }) => {
                if same_bytes(key.as_slice(), KEY_ID.as_slice()) {
                    fields.id = Some(slice_to_vec(value.as_slice()));
                } else if same_bytes(key.as_slice(), KEY_POST_TYPE_ID.as_slice()) {
                    fields.post_type_id = Some(slice_to_vec(value.as_slice()));
                } else if same_bytes(key.as_slice(), KEY_PARENT_ID.as_slice()) {
                    fields.parent_id = Some(slice_to_vec(value.as_slice()));
                } else if same_bytes(key.as_slice(), KEY_TITLE.as_slice()) {
                    match resolve(value.as_slice()) {
                        Ok(plain) => { fields.title = Some(plain); },
                        Err(error) => { return Err(error); },
                    }
                } else if same_bytes(key.as_slice(), KEY_BODY.as_slice()) {
                    match resolve(value.as_slice()) {
                        Ok(plain) => { fields.body = Some(plain); },
                        Err(error) => { return Err(error); },
                    }
                }
            },
        }
        Ok(fields)
    }
}

impl Post {
    /// The post that the kept values of a row make.
    pub fn from_fields(fields: Fields) -> (post: Result<Post, Error>)
        ensures
            outcome(post) == built(fields@),
    {
        let Fields { id, parent_id, post_type_id, title, body } = fields;
        let post_type_id = match post_type_id {
            Some(raw) => raw,
            None => { return Err(Error::invalid_xml("Missing post_type_id in Post")); },
        };
        if same_bytes(post_type_id.as_slice(), TYPE_QUESTION.as_slice()) {
            let id = match id {
                Some(raw) => raw,
                None => { return Err(Error::invalid_xml("Missing id in Post")); },
            };
            let id = match parse_number(id.as_slice()) {
                Ok(value) => value,
                Err(error) => { return Err(error); },
            };
            let title = match title {
                Some(plain) => plain,
                None => { return Err(Error::invalid_xml("Missing title in Question")); },
            };
            let body = match body {
                Some(plain) => plain,
                None => { return Err(Error::invalid_xml("Missing body in Question")); },
            };
            Ok(Post::Question { id, title, body })
        } else if same_bytes(post_type_id.as_slice(), TYPE_ANSWER.as_slice()) {
            let id = match id {
                Some(raw) => raw,
                None => { return Err(Error::invalid_xml("Missing id in Post")); },
            };
            let id = match parse_number(id.as_slice()) {
                Ok(value) => value,
                Err(error) => { return Err(error); },
            };
            let parent_id = match parent_id {
                Some(raw) => raw,
                None => { return Err(Error::invalid_xml("Missing parent_id in Answer")); },
            };
            let parent_id = match parse_number(parent_id.as_slice()) {
                Ok(value) => value,
                Err(error) => { return Err(error); },
            };
            let body = match body {
                Some(plain) => plain,
                None => { return Err(Error::invalid_xml("Missing body in Answer")); },
            };
            Ok(Post::Answer { id, parent_id, body })
        } else {
            Ok(Post::Other)
        }
    }

    /// The post that the attributes of a row make: scans them once from left
    /// to right, then builds the post from what was kept.
    pub fn from_attributes(attributes: &[Result<Attr, String>]) -> (post: Result<Post, Error>)
        ensures
            outcome(post) == post_of(items_view(attributes@)),
    {
        let ghost items = items_view(attributes@);
        let mut fields = Fields::new();
        let mut i: usize = 0;
        assert(items.take(0) =~= Seq::<Result<AttrView, Seq<char>>>::empty());
        while i < attributes.len()
            invariant
                i <= attributes@.len(),
                items == items_view(attributes@),
                scanned(items.take(i as int)) is Ok,
                scanned(items.take(i as int))->Ok_0 == fields@,
            decreases attributes@.len() - i,
        {
            proof {
                assert(items.take(i as int + 1).drop_last() =~= items.take(i as int));
                assert(items.take(i as int + 1).last() == item_view(attributes@[i as int]));
            }
            match fields.note(&attributes[i]) {
                Ok(kept) => { fields = kept; },
                Err(error) => {
                    proof {
                        lemma_scan_stays_failed(items, i as int + 1);
                    }
                    return Err(error);
                },
            }
            i += 1;
        }
        assert(items.take(i as int) =~= items);
        Post::from_fields(fields)
    }

    /// What a scan gives a reader that stands between the rows of a document.
    pub fn from_scan(scan: Scan) -> (row: Result<Option<Post>, Error>)
        ensures
            row_outcome(row) == row_of(scan@),
    {
        match scan {
            Scan::Empty { name, attributes } => {
                if same_bytes(name.as_slice(), ROW.as_slice()) {
                    match Post::from_attributes(attributes.as_slice()) {
                        Ok(post) => Ok(Some(post)),
                        Err(error) => Err(error),
                    }
                } else {
                    Err(
                        Error::InvalidXml(
                            "Unexpected tagname in row: ".to_owned().concat(
                                from_utf8_lossy(name.as_slice()).as_str(),
                            ),
                        ),
                    )
                }
            },
            Scan::End => Ok(None),
            other => Err(refuse(other, "Unexpected tag. Expected row.")),
        }
    }
}

/// A scan that has failed on the first `upto` items fails in the same way on
/// the whole list.
pub proof fn lemma_scan_stays_failed(items: Seq<Result<AttrView, Seq<char>>>, upto: int)
    requires
        0 <= upto <= items.len(),
        scanned(items.take(upto)) is Err,
    ensures
        scanned(items) == scanned(items.take(upto)),
    decreases items.len() - upto,
{
    if upto < items.len() {
        assert(items.take(upto + 1).drop_last() =~= items.take(upto));
        lemma_scan_stays_failed(items, upto + 1);
    } else {
        assert(items.take(upto) =~= items);
    }
}

/// A row that does not say what its post is gives no post: where its
/// attributes can be read at all, it fails with the format error that names
/// the missing post type.
pub proof fn lemma_missing_post_type(items: Seq<Result<AttrView, Seq<char>>>)
    requires
        forall|i: int|
            0 <= i < items.len() ==> !(#[trigger] items[i] matches Ok(pair) && pair.key
                == KEY_POST_TYPE_ID@),
    ensures
        post_of(items) is Err,
        scanned(items) is Ok ==> post_of(items) == Err::<PostView, ErrorView>(
            ErrorView::InvalidXml("Missing post_type_id in Post"@),
        ),
        scanned(items) matches Ok(fields) ==> fields.post_type_id is None,
    decreases items.len(),
{
    if items.len() > 0 {
        let before = items.drop_last();
        assert forall|i: int| 0 <= i < before.len() implies !(#[trigger] before[i] matches Ok(pair)
            && pair.key == KEY_POST_TYPE_ID@) by {
            assert(before[i] == items[i]);
        }
        lemma_missing_post_type(before);
        assert(items.last() == items[items.len() - 1]);
    }
}

} // verus!
