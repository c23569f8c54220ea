//! Error taxonomy shared by the request and response builders.

use vstd::prelude::*;

verus! {

/// Everything that can go wrong while building a request or a response, or
/// while reading a body as text.
#[derive(Debug, PartialEq, Eq)]
pub enum CabotError {
    /// The URL was parsed, but no host or no port could be taken from it.
    OpaqueUrlError(String),
    /// The URL is not syntactically a URL; holds the parser's own verdict.
    UrlParseError(url::ParseError),
    /// A status line is missing, malformed, not HTTP, or has no numeric code.
    HttpResponseParseError(String),
    /// A body was asked for as text but is not valid UTF-8.
    EncodingError(String),
}

/// Result of every fallible operation of this crate.
pub type CabotResult<T> = Result<T, CabotError>;

/// A [`CabotError`] with its detail as a sequence of characters.
pub enum Failure {
    OpaqueUrlError(Seq<char>),
    UrlParseError(url::ParseError),
    HttpResponseParseError(Seq<char>),
    EncodingError(Seq<char>),
}

impl View for CabotError {
    type V = Failure;

    open spec fn view(&self) -> Failure {
        match self {
            CabotError::OpaqueUrlError(detail) => Failure::OpaqueUrlError(detail@),
            CabotError::UrlParseError(cause) => Failure::UrlParseError(*cause),
            CabotError::HttpResponseParseError(detail) => Failure::HttpResponseParseError(detail@),
            CabotError::EncodingError(detail) => Failure::EncodingError(detail@),
        }
    }
}

/// A result seen through the views of its value and of its error.
pub open spec fn outcome<T: View>(r: CabotResult<T>) -> Result<T::V, Failure> {
    match r {
        Ok(value) => Ok(value@),
        Err(error) => Err(error@),
    }
}

} // verus!
