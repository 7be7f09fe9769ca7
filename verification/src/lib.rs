//! Semantic search over a dump of forum posts: a reader of question and
//! answer records, a byte codec for embedding vectors, and a nearest-neighbour
//! lookup over a store of them.

pub mod embedding;
pub mod error;
pub mod number;
pub mod post;
pub mod reader;
pub mod search;
pub mod store;
pub mod xml;

pub use embedding::{Embedding, EMBEDDING_BYTES, EMBEDDING_SIZE};
pub use error::Error;
pub use post::{Fields, Post};
pub use reader::{extract_titles, PostReader};
pub use store::{Embeddings, Progress, Reply};
pub use xml::{Attr, Scan};
