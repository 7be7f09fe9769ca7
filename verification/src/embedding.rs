//! An embedding vector and its stored form: four bytes for each component,
//! lowest byte first.

use crate::error::{Error, ErrorView};
use vstd::prelude::*;

verus! {

/// Number of components of an embedding.
pub const EMBEDDING_SIZE: usize = 128;

/// Number of bytes an embedding takes when stored: four for each component.
pub const EMBEDDING_BYTES: usize = 512;

/// Embeddings encode meaning: vectors whose angles tell how similar two
/// prompts are. A component is held as the bit pattern of its IEEE-754
/// binary32 value, so that two embeddings are equal exactly when they agree
/// bit for bit.
#[derive(Debug, PartialEq, Eq, Clone, Copy)]
pub struct Embedding(pub [u32; EMBEDDING_SIZE]);

impl View for Embedding {
    type V = Seq<u32>;

    open spec fn view(&self) -> Seq<u32> {
        self.0@
    }
}

/// The four bytes of a component, lowest first.
pub open spec fn le_bytes(word: u32) -> Seq<u8> {
    seq![
        (word % 0x100) as u8,
        (word / 0x100 % 0x100) as u8,
        (word / 0x1_0000 % 0x100) as u8,
        (word / 0x100_0000) as u8,
    ]
}

/// The component whose bytes, lowest first, are `b0` to `b3`.
pub open spec fn le_word(b0: u8, b1: u8, b2: u8, b3: u8) -> u32 {
    (b0 + 0x100 * b1 + 0x1_0000 * b2 + 0x100_0000 * b3) as u32
}

/// The stored form of a vector: the bytes of its components in order, with
/// nothing before, between or after them.
pub open spec fn encoded(components: Seq<u32>) -> Seq<u8> {
    Seq::new(4 * components.len(), |i: int| le_bytes(components[i / 4])[i % 4])
}

/// The vector that a run of bytes stores: one component for every four bytes.
pub open spec fn decoded(bytes: Seq<u8>) -> Seq<u32> {
    Seq::new(
        bytes.len() / 4,
        |i: int| le_word(bytes[4 * i], bytes[4 * i + 1], bytes[4 * i + 2], bytes[4 * i + 3]),
    )
}

/// Putting the four bytes of a component together gives the component back.
pub proof fn lemma_word_of_its_bytes(word: u32)
    ensures
        le_bytes(word).len() == 4,
        le_word(le_bytes(word)[0], le_bytes(word)[1], le_bytes(word)[2], le_bytes(word)[3])
            == word,
{
}

/// Taking a component apart gives back the four bytes it was made of.
pub proof fn lemma_bytes_of_their_word(b0: u8, b1: u8, b2: u8, b3: u8)
    ensures
        le_bytes(le_word(b0, b1, b2, b3)) == seq![b0, b1, b2, b3],
{
    assert(le_bytes(le_word(b0, b1, b2, b3)) =~= seq![b0, b1, b2, b3]);
}

/// The bytes of a component, lowest first, as shifts and masks give them.
fn bytes_of(word: u32) -> (bytes: [u8; 4])
    ensures
        bytes@ == le_bytes(word),
{
    assert(word & 0xff == word % 0x100 && (word >> 8) & 0xff == word / 0x100 % 0x100 && (word >> 16)
        & 0xff == word / 0x1_0000 % 0x100 && (word >> 24) & 0xff == word / 0x100_0000)
        by (bit_vector);
    let bytes = [
        (word & 0xff) as u8,
        ((word >> 8) & 0xff) as u8,
        ((word >> 16) & 0xff) as u8,
        ((word >> 24) & 0xff) as u8,
    ];
    assert(bytes@ =~= le_bytes(word));
    bytes
}

/// The component whose bytes, lowest first, are `b0` to `b3`, as shifts put
/// them together.
fn word_of(b0: u8, b1: u8, b2: u8, b3: u8) -> (word: u32)
    ensures
        word == le_word(b0, b1, b2, b3),
{
    assert((b0 as u32) | ((b1 as u32) << 8) | ((b2 as u32) << 16) | ((b3 as u32) << 24) == b0
        + 0x100 * b1 + 0x1_0000 * b2 + 0x100_0000 * b3) by (bit_vector);
    (b0 as u32) | ((b1 as u32) << 8) | ((b2 as u32) << 16) | ((b3 as u32) << 24)
}

/// Decoding what encoding produced gives every component back exactly.
pub proof fn lemma_decode_encode(components: Seq<u32>)
    ensures
        encoded(components).len() == 4 * components.len(),
        decoded(encoded(components)) == components,
{
    let bytes = encoded(components);
    assert forall|i: int| 0 <= i < components.len() implies decoded(bytes)[i] == components[i] by {
        lemma_word_of_its_bytes(components[i]);
        assert((4 * i) / 4 == i && (4 * i + 1) / 4 == i && (4 * i + 2) / 4 == i && (4 * i + 3) / 4
            == i);
        assert((4 * i) % 4 == 0 && (4 * i + 1) % 4 == 1 && (4 * i + 2) % 4 == 2 && (4 * i + 3) % 4
            == 3);
    }
    assert(decoded(bytes) =~= components);
}

/// Encoding what decoding produced gives the bytes back, where they are whole
/// components.
pub proof fn lemma_encode_decode(bytes: Seq<u8>)
    requires
        bytes.len() % 4 == 0,
    ensures
        encoded(decoded(bytes)) == bytes,
{
    let components = decoded(bytes);
    assert forall|j: int| 0 <= j < bytes.len() implies encoded(components)[j] == bytes[j] by {
        let i = j / 4;
        lemma_bytes_of_their_word(
            bytes[4 * i],
            bytes[4 * i + 1],
            bytes[4 * i + 2],
            bytes[4 * i + 3],
        );
        assert(j == 4 * i + j % 4 && 0 <= j % 4 < 4);
    }
    assert(encoded(components) =~= bytes);
}

impl Embedding {
    /// The embedding whose components are all zero.
    pub fn new() -> (embedding: Embedding)
        ensures
            embedding@ == Seq::new(EMBEDDING_SIZE as nat, |i: int| 0u32),
    {
        let embedding = Embedding([0u32; EMBEDDING_SIZE]);
        assert(embedding@ =~= Seq::new(EMBEDDING_SIZE as nat, |i: int| 0u32));
        embedding
    }

    /// Constructs an embedding of [`EMBEDDING_SIZE`] components from a slice,
    /// which must have that length.
    pub fn try_from_slice(slice: &[u32]) -> (made: Result<Embedding, Error>)
        ensures
            slice@.len() == EMBEDDING_SIZE ==> made is Ok && made->Ok_0@ == slice@,
            slice@.len() != EMBEDDING_SIZE ==> made is Err && made->Err_0@ == ErrorView::Embedding(
                "API returned embeddings with wrong dimensions."@,
            ),
    {
        if slice.len() != EMBEDDING_SIZE {
            return Err(
                Error::Embedding("API returned embeddings with wrong dimensions.".to_owned()),
            );
        }
        let mut array = [0u32; EMBEDDING_SIZE];
        let mut i: usize = 0;
        while i < EMBEDDING_SIZE
            invariant
                i <= EMBEDDING_SIZE,
                slice@.len() == EMBEDDING_SIZE,
                forall|k: int| 0 <= k < i ==> array@[k] == slice@[k],
            decreases EMBEDDING_SIZE - i,
        {
            array[i] = slice[i];
            i += 1;
        }
        assert(array@ =~= slice@);
        Ok(Embedding(array))
    }

    /// Writes the embedding into a binary buffer.
    pub fn write_to_bytes(&self, buf: &mut [u8; EMBEDDING_BYTES])
        ensures
            final(buf)@ == encoded(self@),
    {
        let mut i: usize = 0;
        while i < EMBEDDING_SIZE
            invariant
                i <= EMBEDDING_SIZE,
                forall|j: int| 0 <= j < 4 * i ==> buf@[j] == encoded(self@)[j],
            decreases EMBEDDING_SIZE - i,
        {
            let bytes = bytes_of(self.0[i]);
            buf[4 * i] = bytes[0];
            buf[4 * i + 1] = bytes[1];
            buf[4 * i + 2] = bytes[2];
            buf[4 * i + 3] = bytes[3];
            proof {
                let at = i as int;
                assert((4 * at) / 4 == at && (4 * at + 1) / 4 == at && (4 * at + 2) / 4 == at && (4
                    * at + 3) / 4 == at);
                assert((4 * at) % 4 == 0 && (4 * at + 1) % 4 == 1 && (4 * at + 2) % 4 == 2 && (4
                    * at + 3) % 4 == 3);
            }
            i += 1;
        }
        assert(buf@ =~= encoded(self@));
    }

    /// Loads the embedding from a binary buffer.
    pub fn read_from_bytes(&mut self, buf: &[u8; EMBEDDING_BYTES])
        ensures
            final(self)@ == decoded(buf@),
    {
        let mut i: usize = 0;
        while i < EMBEDDING_SIZE
            invariant
                i <= EMBEDDING_SIZE,
                forall|k: int| 0 <= k < i ==> self@[k] == decoded(buf@)[k],
            decreases EMBEDDING_SIZE - i,
        {
            self.0[i] = word_of(buf[4 * i], buf[4 * i + 1], buf[4 * i + 2], buf[4 * i + 3]);
            i += 1;
        }
        assert(self@ =~= decoded(buf@));
    }
}

impl Default for Embedding {
    fn default() -> (embedding: Embedding)
        ensures
            embedding@ == Seq::new(EMBEDDING_SIZE as nat, |i: int| 0u32),
    {
        Embedding::new()
    }
}

} // verus!
