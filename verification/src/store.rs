//! An ordered collection of embeddings: how it is built from the replies of
//! a provider, and how it is written to bytes and read back.

use crate::embedding::{
    decoded, encoded, lemma_decode_encode, Embedding, EMBEDDING_BYTES, EMBEDDING_SIZE,
};
use crate::error::{Error, ErrorView};
use vstd::prelude::*;

verus! {

/// The stored form of a list of vectors: their stored forms back to back.
pub open spec fn encoded_all(vectors: Seq<Seq<u32>>) -> Seq<u8>
    decreases vectors.len(),
{
    if vectors.len() == 0 {
        Seq::empty()
    } else {
        encoded_all(vectors.drop_last()) + encoded(vectors.last())
    }
}

/// The bytes of record `index` in a stream of stored embeddings.
pub open spec fn record(bytes: Seq<u8>, index: int) -> Seq<u8> {
    bytes.subrange(index * EMBEDDING_BYTES, (index + 1) * EMBEDDING_BYTES)
}

/// The first `count` vectors that a stream of stored embeddings holds.
pub open spec fn decoded_all(bytes: Seq<u8>, count: nat) -> Seq<Seq<u32>> {
    Seq::new(count, |i: int| decoded(record(bytes, i)))
}

/// How many whole records of a stream a reader gets that asks for `wanted`.
pub open spec fn records_read(len: nat, wanted: nat) -> nat {
    if len / (EMBEDDING_BYTES as nat) < wanted {
        len / (EMBEDDING_BYTES as nat)
    } else {
        wanted
    }
}

/// Whether every vector of a list has [`EMBEDDING_SIZE`] components.
pub open spec fn all_sized(vectors: Seq<Seq<u32>>) -> bool {
    forall|i: int| 0 <= i < vectors.len() ==> (#[trigger] vectors[i]).len() == EMBEDDING_SIZE
}

/// The stored form of a list has one record for each vector, and record `index`
/// is the stored form of vector `index`.
pub proof fn lemma_record_of_encoded_all(vectors: Seq<Seq<u32>>, index: int)
    requires
        all_sized(vectors),
        0 <= index < vectors.len(),
    ensures
        encoded_all(vectors).len() == vectors.len() * EMBEDDING_BYTES,
        record(encoded_all(vectors), index) == encoded(vectors[index]),
    decreases vectors.len(),
{
    let front = vectors.drop_last();
    lemma_encoded_all_len(front);
    assert(encoded(vectors.last()).len() == EMBEDDING_BYTES);
    if index == vectors.len() - 1 {
        assert(record(encoded_all(vectors), index) =~= encoded(vectors[index]));
    } else {
        lemma_record_of_encoded_all(front, index);
        assert(record(encoded_all(vectors), index) =~= record(encoded_all(front), index));
    }
}

/// The stored form of `n` vectors takes `n` times [`EMBEDDING_BYTES`] bytes.
pub proof fn lemma_encoded_all_len(vectors: Seq<Seq<u32>>)
    requires
        all_sized(vectors),
    ensures
        encoded_all(vectors).len() == vectors.len() * EMBEDDING_BYTES,
    decreases vectors.len(),
{
    if vectors.len() > 0 {
        lemma_encoded_all_len(vectors.drop_last());
        assert(encoded(vectors.last()).len() == EMBEDDING_BYTES);
    }
}

/// Reading back as many vectors as were written finds enough bytes for
/// them, and gives the list that was written, in its order.
pub proof fn lemma_decode_all_encode_all(vectors: Seq<Seq<u32>>)
    requires
        all_sized(vectors),
    ensures
        encoded_all(vectors).len() == vectors.len() * EMBEDDING_BYTES,
        decoded_all(encoded_all(vectors), vectors.len()) == vectors,
{
    let bytes = encoded_all(vectors);
    lemma_encoded_all_len(vectors);
    assert forall|i: int| 0 <= i < vectors.len() implies decoded_all(bytes, vectors.len())[i]
        == vectors[i] by {
        lemma_record_of_encoded_all(vectors, i);
        lemma_decode_encode(vectors[i]);
    }
    assert(decoded_all(bytes, vectors.len()) =~= vectors);
}

/// What the provider of embeddings answered to the request for one text.
#[derive(Debug)]
pub enum Reply {
    /// The vector for the text, a bit pattern for each component.
    Embedding(Vec<u32>),
    /// The provider takes no more requests for the moment.
    TooManyRequests,
    /// The model is busy for the moment.
    Busy,
    /// Any other failure, with the provider's words.
    Failed(String),
}

/// A [`Reply`] with its vector and text as sequences.
pub enum ReplyView {
    Embedding(Seq<u32>),
    TooManyRequests,
    Busy,
    Failed(Seq<char>),
}

impl View for Reply {
    type V = ReplyView;

    open spec fn view(&self) -> ReplyView {
        match self {
            Reply::Embedding(components) => ReplyView::Embedding(components@),
            Reply::TooManyRequests => ReplyView::TooManyRequests,
            Reply::Busy => ReplyView::Busy,
            Reply::Failed(words) => ReplyView::Failed(words@),
        }
    }
}

/// What to do after a reply was taken.
#[derive(Debug, PartialEq, Eq, Structural, Clone, Copy)]
pub enum Progress {
    /// The embedding of the text is stored: go on with the next text.
    Stored,
    /// The provider was overloaded: send the same request again.
    AskAgain,
}

/// What a reply means for a collection under construction: a vector of the
/// right size is stored at the end, an overloaded provider is asked again
/// without limit, and a vector of another size or any other failure ends the
/// whole batch.
pub open spec fn received(stored: Seq<Seq<u32>>, reply: ReplyView) -> Result<
    (Seq<Seq<u32>>, Progress),
    ErrorView,
> {
    match reply {
        ReplyView::Embedding(components) => if components.len() == EMBEDDING_SIZE {
            Ok((stored.push(components), Progress::Stored))
        } else {
            Err(ErrorView::Embedding("API returned embeddings with wrong dimensions."@))
        },
        ReplyView::TooManyRequests | ReplyView::Busy => Ok((stored, Progress::AskAgain)),
        ReplyView::Failed(words) => Err(ErrorView::Embedding(words)),
    }
}

/// `std::io::Error::from` on `std::io::ErrorKind::UnexpectedEof`: the error
/// that std gives a reader whose input ends too early. Nothing is claimed of
/// what it holds.
#[verifier::external_body]
fn unexpected_eof() -> std::io::Error {
    std::io::Error::from(std::io::ErrorKind::UnexpectedEof)
}

/// Takes one record off the front of `read` into `buf`, where `read` holds
/// one; says whether it did.
fn take_record(read: &mut &[u8], buf: &mut [u8; EMBEDDING_BYTES]) -> (taken: bool)
    ensures
        taken == (old(read)@.len() >= EMBEDDING_BYTES),
        taken ==> final(buf)@ == old(read)@.take(EMBEDDING_BYTES as int) && final(read)@ == old(
            read,
        )@.skip(EMBEDDING_BYTES as int),
        !taken ==> final(read)@ == old(read)@,
{
    if read.len() < EMBEDDING_BYTES {
        return false;
    }
    let mut i: usize = 0;
    while i < EMBEDDING_BYTES
        invariant
            i <= EMBEDDING_BYTES,
            read@.len() >= EMBEDDING_BYTES,
            forall|k: int| 0 <= k < i ==> buf@[k] == read@[k],
        decreases EMBEDDING_BYTES - i,
    {
        buf[i] = read[i];
        i += 1;
    }
    assert(buf@ =~= read@.take(EMBEDDING_BYTES as int));
    let rest = vstd::slice::slice_subrange(*read, EMBEDDING_BYTES, read.len());
    assert(rest@ =~= read@.skip(EMBEDDING_BYTES as int));
    *read = rest;
    true
}

/// An ordered collection of embeddings, addressed by index.
#[derive(Debug, PartialEq, Eq)]
pub struct Embeddings {
    /// All embeddings, in the order in which they were added.
    embeddings: Vec<Embedding>,
}

impl View for Embeddings {
    type V = Seq<Seq<u32>>;

    closed spec fn view(&self) -> Seq<Seq<u32>> {
        self.embeddings@.map_values(|embedding: Embedding| embedding@)
    }
}

impl Embeddings {
    /// Every stored vector has [`EMBEDDING_SIZE`] components.
    pub proof fn lemma_all_sized(&self)
        ensures
            all_sized(self@),
    {
        assert forall|i: int| 0 <= i < self@.len() implies (#[trigger] self@[i]).len()
            == EMBEDDING_SIZE by {
            vstd::array::array_len_matches_n(&self.embeddings@[i].0);
        }
    }

    /// The empty collection.
    pub fn new() -> (embeddings: Embeddings)
        ensures
            embeddings@ == Seq::<Seq<u32>>::empty(),
    {
        let embeddings = Embeddings { embeddings: Vec::new() };
        assert(embeddings@ =~= Seq::<Seq<u32>>::empty());
        embeddings
    }

    /// The collection of the given embeddings, in their order.
    pub fn from_vec(embeddings: Vec<Embedding>) -> (made: Embeddings)
        ensures
            made@ == embeddings@.map_values(|embedding: Embedding| embedding@),
    {
        Embeddings { embeddings }
    }

    /// Number of embeddings.
    pub fn len(&self) -> (len: usize)
        ensures
            len == self@.len(),
    {
        self.embeddings.len()
    }

    /// The embedding at `index`, if there is one.
    pub fn get(&self, index: usize) -> (found: Option<Embedding>)
        ensures
            index < self@.len() ==> found is Some && found->Some_0@ == self@[index as int],
            index >= self@.len() ==> found is None,
    {
        if index < self.embeddings.len() {
            Some(self.embeddings[index])
        } else {
            None
        }
    }

    /// Appends `embedding` as the last of the collection.
    pub fn push(&mut self, embedding: Embedding)
        ensures
            final(self)@ == old(self)@.push(embedding@),
    {
        self.embeddings.push(embedding);
        assert(self@ =~= old(self)@.push(embedding@));
    }

    /// Takes the provider's reply to the request for the next text, and says
    /// how to go on. The collection changes only where a vector is stored.
    pub fn receive(&mut self, reply: Reply) -> (progress: Result<Progress, Error>)
        ensures
            match received(old(self)@, reply@) {
                Ok((stored, step)) => progress == Ok::<Progress, Error>(step) && final(self)@
                    == stored,
                Err(error) => progress is Err && progress->Err_0@ == error && final(self)@ == old(
                    self,
                )@,
            },
    {
        match reply {
            Reply::Embedding(components) => {
                match Embedding::try_from_slice(components.as_slice()) {
                    Ok(embedding) => {
                        self.push(embedding);
                        Ok(Progress::Stored)
                    },
                    Err(error) => Err(error),
                }
            },
            Reply::TooManyRequests | Reply::Busy => Ok(Progress::AskAgain),
            Reply::Failed(words) => Err(Error::Embedding(words)),
        }
    }

    /// Writes all embeddings to the end of `write`, back to back.
    pub fn write(&self, write: &mut Vec<u8>)
        ensures
            final(write)@ == old(write)@ + encoded_all(self@),
    {
        let mut buf = [0u8; EMBEDDING_BYTES];
        let mut i: usize = 0;
        while i < self.embeddings.len()
            invariant
                i <= self.embeddings@.len(),
                write@ == old(write)@ + encoded_all(self@.take(i as int)),
            decreases self.embeddings@.len() - i,
        {
            self.embeddings[i].write_to_bytes(&mut buf);
            write.extend_from_slice(buf.as_slice());
            proof {
                let done = self@.take(i as int + 1);
                assert(done.drop_last() =~= self@.take(i as int));
                assert(done.last() == self.embeddings@[i as int]@);
                assert(write@ =~= old(write)@ + encoded_all(done));
            }
            i += 1;
        }
        assert(self@.take(i as int) =~= self@);
    }

    /// Replaces the collection by `n` embeddings read from the front of
    /// `read`, which is left at the first byte that was not read. Where the
    /// input ends before `n` records, this is an error, and the collection
    /// holds the records that were whole.
    pub fn read_n(&mut self, read: &mut &[u8], n: usize) -> (done: Result<(), std::io::Error>)
        ensures
            done is Ok <==> old(read)@.len() >= n * EMBEDDING_BYTES,
            final(self)@ == decoded_all(old(read)@, records_read(old(read)@.len(), n as nat)),
            final(read)@ == old(read)@.skip(
                records_read(old(read)@.len(), n as nat) * EMBEDDING_BYTES,
            ),
    {
        self.embeddings.clear();
        let ghost input = read@;
        let mut buf = [0u8; EMBEDDING_BYTES];
        let mut i: usize = 0;
        assert(self@ =~= decoded_all(input, 0));
        assert(read@ =~= input.skip(0));
        while i < n
            invariant
                i <= n,
                input == old(read)@,
                i * EMBEDDING_BYTES <= input.len(),
                self@ == decoded_all(input, i as nat),
                read@ == input.skip(i * EMBEDDING_BYTES),
            decreases n - i,
        {
            if !take_record(read, &mut buf) {
                return Err(unexpected_eof());
            }
            let mut embedding = Embedding::new();
            embedding.read_from_bytes(&buf);
            let ghost before = self@;
            self.embeddings.push(embedding);
            proof {
                assert(buf@ =~= record(input, i as int));
                assert(self@ =~= before.push(embedding@));
                assert(self@ =~= decoded_all(input, i as nat + 1));
                assert(read@ =~= input.skip((i + 1) * EMBEDDING_BYTES));
            }
            i += 1;
        }
        Ok(())
    }

    /// The collection of `n` embeddings read from the front of `read`.
    pub fn from_reader_n(read: &mut &[u8], n: usize) -> (made: Result<Embeddings, std::io::Error>)
        ensures
            made is Ok <==> old(read)@.len() >= n * EMBEDDING_BYTES,
            made is Ok ==> made->Ok_0@ == decoded_all(old(read)@, n as nat),
            final(read)@ == old(read)@.skip(
                records_read(old(read)@.len(), n as nat) * EMBEDDING_BYTES,
            ),
    {
        let mut embeddings = Embeddings::new();
        match embeddings.read_n(read, n) {
            Ok(()) => {
                Ok(embeddings)
            }
            Err(cause) => Err(cause),
        }
    }
}

impl Default for Embeddings {
    fn default() -> (embeddings: Embeddings)
        ensures
            embeddings@ == Seq::<Seq<u32>>::empty(),
    {
        Embeddings::new()
    }
}

} // verus!
