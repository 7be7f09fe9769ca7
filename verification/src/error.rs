//! The errors of the library.

use vstd::prelude::*;

verus! {

/// The cause that std reports when bytes cannot be read. Nothing is known of
/// its inside here: it is carried to the caller as it came.
#[verifier::external_type_specification]
#[verifier::external_body]
pub struct ExIoError(std::io::Error);

/// Why an operation of this library failed.
#[derive(Debug)]
pub enum Error {
    /// The bytes of the document could not be read.
    ReadXmlFile(std::io::Error),
    /// The document does not have the expected shape.
    InvalidXml(String),
    /// A part of the document exists but cannot be decoded.
    MalformedXml(String),
    /// The embedding provider failed, or answered with the wrong dimension.
    Embedding(String),
}

/// An [`Error`] with its text as a sequence of characters.
pub enum ErrorView {
    ReadXmlFile,
    InvalidXml(Seq<char>),
    MalformedXml(Seq<char>),
    Embedding(Seq<char>),
}

impl View for Error {
    type V = ErrorView;

    open spec fn view(&self) -> ErrorView {
        match self {
            Error::ReadXmlFile(_) => ErrorView::ReadXmlFile,
            Error::InvalidXml(text) => ErrorView::InvalidXml(text@),
            Error::MalformedXml(text) => ErrorView::MalformedXml(text@),
            Error::Embedding(text) => ErrorView::Embedding(text@),
        }
    }
}

/// The outcome of an operation, with what it holds taken by its view.
pub open spec fn outcome<T: View, E: View>(result: Result<T, E>) -> Result<T::V, E::V> {
    match result {
        Ok(value) => Ok(value@),
        Err(error) => Err(error@),
    }
}

impl ErrorView {
    /// The line a user reads for this error.
    pub open spec fn message(self) -> Seq<char> {
        match self {
            ErrorView::ReadXmlFile => "Io error reading xml file"@,
            ErrorView::InvalidXml(text) => "Invalid xml format: "@ + text,
            ErrorView::MalformedXml(_) => "XML input is malformed"@,
            ErrorView::Embedding(text) => "Error embedding something against the API "@ + text,
        }
    }
}

impl Error {
    /// A format error that says `message`.
    pub fn invalid_xml(message: &str) -> (error: Error)
        ensures
            error@ == ErrorView::InvalidXml(message@),
    {
        Error::InvalidXml(message.to_owned())
    }

    /// The line a user reads for this error.
    pub fn message(&self) -> (line: String)
        ensures
            line@ == self@.message(),
    {
        match self {
            Error::ReadXmlFile(_) => "Io error reading xml file".to_owned(),
            Error::InvalidXml(text) => "Invalid xml format: ".to_owned().concat(text.as_str()),
            Error::MalformedXml(_) => "XML input is malformed".to_owned(),
            Error::Embedding(text) => {
                "Error embedding something against the API ".to_owned().concat(text.as_str())
            },
        }
    }
}

} // verus!
