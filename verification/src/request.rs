//! Requests, and the errors that reading one can end in.

use crate::headers::Headers;
use vstd::prelude::*;
use vstd::utf8::*;

verus! {

/// The methods that are served.
#[derive(Clone, Copy, Debug, PartialEq, Eq, Structural)]
pub enum Verb {
    Get,
    Post,
}

/// Why no request could be read.
#[derive(Clone, Copy, Debug, PartialEq, Eq, Structural)]
pub enum RequestParseError {
    /// The method is neither `GET` nor `POST`.
    InvalidVerb,
    /// The start line could not be read.
    CouldNotReadStartLine,
    /// The start line has fewer than three parts.
    InvalidStructure,
    /// A header line could not be read.
    CouldNotReadHeader,
    /// A header line has no `": "` between a name and a value.
    InvalidHeader,
    /// The value of `Content-Length` is no number that fits a length.
    InvalidContentLength,
    /// The body is shorter than `Content-Length` says, or could not be read.
    CouldNotReadBody,
}

/// A request as it was read from a connection.
#[derive(Debug)]
pub struct Request {
    pub verb: Verb,
    /// The request target, as received: nothing is decoded.
    pub path: String,
    pub version: String,
    pub headers: Headers,
    /// The body, present exactly if the request has a `Content-Length`.
    pub body: Option<Vec<u8>>,
}

/// What a request says: its text by its UTF-8 octets, its headers as a
/// mapping.
pub struct RequestModel {
    pub verb: Verb,
    pub path: Seq<u8>,
    pub version: Seq<u8>,
    pub headers: Map<Seq<u8>, Seq<u8>>,
    pub body: Option<Seq<u8>>,
}

/// The octets of an optional buffer.
pub open spec fn octets_of(buffer: Option<Vec<u8>>) -> Option<Seq<u8>> {
    match buffer {
        Some(b) => Some(b@),
        None => None,
    }
}

impl View for Request {
    type V = RequestModel;

    open spec fn view(&self) -> RequestModel {
        RequestModel {
            verb: self.verb,
            path: encode_utf8(self.path@),
            version: encode_utf8(self.version@),
            headers: self.headers@,
            body: octets_of(self.body),
        }
    }
}

} // verus!
