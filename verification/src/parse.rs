//! Reading a whole message that lies in memory.
//!
//! The input stands for everything that a connection delivers before it
//! ends. Lines are read as a buffered reader reads them: up to and
//! including the next LF, or up to the end of the input; a line that is not
//! well-formed UTF-8 cannot be read.

use crate::bytes::LF;
use crate::bytes::lemma_find_byte_from;
use crate::grammar::{
    body_length, content_length, header_line, line_end, line_text, next_line_end,
    parse_header_line, parse_start_line, start_line, strip_line_ending,
};
use crate::headers::Headers;
use crate::request::{octets_of, Request, RequestModel, RequestParseError};
use crate::text::str_from_utf8;
use vstd::prelude::*;
use vstd::slice::*;
use vstd::string::*;
use vstd::utf8::*;

verus! {

/// The header block that starts at `pos`, written into `headers`, and the
/// position after the blank line that ends it. The end of the input ends the
/// block too.
pub open spec fn headers_from(input: Seq<u8>, pos: int, headers: Map<Seq<u8>, Seq<u8>>) -> Result<
    (Map<Seq<u8>, Seq<u8>>, int),
    RequestParseError,
>
    decreases input.len() - pos,
{
    if pos < 0 || pos >= input.len() {
        Ok((headers, pos))
    } else {
        let end = line_end(input, pos);
        let line = input.subrange(pos, end);
        if !valid_utf8(line) {
            Err(RequestParseError::CouldNotReadHeader)
        } else {
            match header_line(line) {
                Err(e) => Err(e),
                Ok(None) => Ok((headers, end)),
                Ok(Some((name, value))) => {
                    proof {
                        lemma_find_byte_from(input, pos, LF);
                    }
                    headers_from(input, end, headers.insert(name, value))
                },
            }
        }
    }
}

/// The header block that starts at `pos`, and the position after it.
pub open spec fn headers_in(input: Seq<u8>, pos: int) -> Result<
    (Map<Seq<u8>, Seq<u8>>, int),
    RequestParseError,
> {
    headers_from(input, pos, Map::empty())
}

/// The body that `headers` announce, taken from `input` at `pos`: absent
/// without a `Content-Length`, else exactly as many octets as it says.
pub open spec fn body_in(headers: Map<Seq<u8>, Seq<u8>>, input: Seq<u8>, pos: int) -> Result<
    Option<Seq<u8>>,
    RequestParseError,
> {
    match body_length(headers) {
        Err(e) => Err(e),
        Ok(None) => Ok(None),
        Ok(Some(n)) => if 0 <= pos && pos + n <= input.len() {
            Ok(Some(input.subrange(pos, pos + n)))
        } else {
            Err(RequestParseError::CouldNotReadBody)
        },
    }
}

/// The headers and the body that follow a start line which ends at `pos`.
pub open spec fn payload_in(input: Seq<u8>, pos: int) -> Result<
    (Map<Seq<u8>, Seq<u8>>, Option<Seq<u8>>),
    RequestParseError,
> {
    match headers_in(input, pos) {
        Err(e) => Err(e),
        Ok((headers, next)) => match body_in(headers, input, next) {
            Err(e) => Err(e),
            Ok(body) => Ok((headers, body)),
        },
    }
}

/// The request that `input` holds.
pub open spec fn request_in(input: Seq<u8>) -> Result<RequestModel, RequestParseError> {
    let end = line_end(input, 0);
    let line = input.subrange(0, end);
    if !valid_utf8(line) {
        Err(RequestParseError::CouldNotReadStartLine)
    } else {
        match start_line(line) {
            Err(e) => Err(e),
            Ok((verb, path, version)) => match payload_in(input, end) {
                Err(e) => Err(e),
                Ok((headers, body)) => Ok(RequestModel { verb, path, version, headers, body }),
            },
        }
    }
}

/// A message as it was read: a start line that nothing was asked of, the
/// headers and the body.
#[derive(Debug)]
pub struct Message {
    /// The start line, without its line ending.
    pub start_line: String,
    pub headers: Headers,
    pub body: Option<Vec<u8>>,
}

/// What a message says: its text by its UTF-8 octets, its headers as a
/// mapping.
pub struct MessageModel {
    pub start_line: Seq<u8>,
    pub headers: Map<Seq<u8>, Seq<u8>>,
    pub body: Option<Seq<u8>>,
}

impl View for Message {
    type V = MessageModel;

    open spec fn view(&self) -> MessageModel {
        MessageModel {
            start_line: encode_utf8(self.start_line@),
            headers: self.headers@,
            body: octets_of(self.body),
        }
    }
}

/// The message that `input` holds, be it a request or a response.
pub open spec fn message_in(input: Seq<u8>) -> Result<MessageModel, RequestParseError> {
    let end = line_end(input, 0);
    let line = input.subrange(0, end);
    if !valid_utf8(line) {
        Err(RequestParseError::CouldNotReadStartLine)
    } else {
        match payload_in(input, end) {
            Err(e) => Err(e),
            Ok((headers, body)) => Ok(MessageModel { start_line: line_text(line), headers, body }),
        }
    }
}

/// What reading a message returned, as the model of the message.
pub open spec fn message_read(result: Result<Message, RequestParseError>) -> Result<
    MessageModel,
    RequestParseError,
> {
    match result {
        Ok(message) => Ok(message@),
        Err(e) => Err(e),
    }
}

/// What reading headers and body returned, as a mapping and octets.
pub open spec fn payload_read(
    result: Result<(Headers, Option<Vec<u8>>), RequestParseError>,
) -> Result<(Map<Seq<u8>, Seq<u8>>, Option<Seq<u8>>), RequestParseError> {
    match result {
        Ok((headers, body)) => Ok((headers@, octets_of(body))),
        Err(e) => Err(e),
    }
}

/// Whether a request has the body that its headers announce: none without
/// a `Content-Length`, else one of exactly the length that it says.
pub open spec fn well_framed(request: RequestModel) -> bool {
    match body_length(request.headers) {
        Ok(Some(length)) => request.body matches Some(body) && body.len() == length,
        Ok(None) => request.body is None,
        Err(_) => false,
    }
}

/// A request that was read has the body that its headers announce.
pub proof fn lemma_request_well_framed(input: Seq<u8>)
    ensures
        request_in(input) matches Ok(request) ==> well_framed(request),
{
}

/// What reading a header block returned, as a mapping and a position.
pub open spec fn headers_read(result: Result<(Headers, usize), RequestParseError>) -> Result<
    (Map<Seq<u8>, Seq<u8>>, int),
    RequestParseError,
> {
    match result {
        Ok((headers, next)) => Ok((headers@, next as int)),
        Err(e) => Err(e),
    }
}

/// What reading a body returned, as octets.
pub open spec fn body_read(result: Result<Option<Vec<u8>>, RequestParseError>) -> Result<
    Option<Seq<u8>>,
    RequestParseError,
> {
    match result {
        Ok(body) => Ok(octets_of(body)),
        Err(e) => Err(e),
    }
}

/// What reading a request returned, as the model of the request.
pub open spec fn request_read(result: Result<Request, RequestParseError>) -> Result<
    RequestModel,
    RequestParseError,
> {
    match result {
        Ok(request) => Ok(request@),
        Err(e) => Err(e),
    }
}

/// Reads header lines from `pos` on, up to and including the blank line
/// that ends them, and returns the mapping and the position after it. A
/// name that comes twice keeps the value that came last.
pub fn read_headers(input: &[u8], pos: usize) -> (result: Result<(Headers, usize), RequestParseError>)
    ensures
        headers_read(result) == headers_in(input@, pos as int),
        result matches Ok((_, next)) ==> pos <= next && (pos <= input@.len() ==> next
            <= input@.len()),
{
    let n = input.len();
    let mut headers = Headers::new();
    let mut at = pos;
    while at < n
        invariant
            n == input@.len(),
            pos <= at,
            pos <= n ==> at <= n,
            headers_in(input@, pos as int) == headers_from(input@, at as int, headers@),
        decreases n - at,
    {
        let end = next_line_end(input, at);
        let raw = slice_subrange(input, at, end);
        match str_from_utf8(raw) {
            None => {
                return Err(RequestParseError::CouldNotReadHeader);
            },
            Some(line) => match parse_header_line(line) {
                Err(e) => {
                    return Err(e);
                },
                Ok(None) => {
                    return Ok((headers, end));
                },
                Ok(Some((name, value))) => {
                    headers.insert(name, value);
                    at = end;
                },
            },
        }
    }
    Ok((headers, at))
}

/// Reads the body that `headers` announce from `input` at `pos`.
pub fn read_body(headers: &Headers, input: &[u8], pos: usize) -> (result: Result<
    Option<Vec<u8>>,
    RequestParseError,
>)
    ensures
        body_read(result) == body_in(headers@, input@, pos as int),
{
    match content_length(headers) {
        Err(e) => Err(e),
        Ok(None) => Ok(None),
        Ok(Some(n)) => {
            if pos <= input.len() && n <= input.len() - pos {
                Ok(Some(slice_to_vec(slice_subrange(input, pos, pos + n))))
            } else {
                Err(RequestParseError::CouldNotReadBody)
            }
        },
    }
}

/// Reads the header block that starts at `pos` and the body that it
/// announces.
pub fn read_payload(input: &[u8], pos: usize) -> (result: Result<
    (Headers, Option<Vec<u8>>),
    RequestParseError,
>)
    ensures
        payload_read(result) == payload_in(input@, pos as int),
{
    let (headers, next) = match read_headers(input, pos) {
        Err(e) => {
            return Err(e);
        },
        Ok(read) => read,
    };
    let body = match read_body(&headers, input, next) {
        Err(e) => {
            return Err(e);
        },
        Ok(body) => body,
    };
    Ok((headers, body))
}

/// Reads a request: the start line, the header block and, where a
/// `Content-Length` announces one, the body. What follows in `input` is
/// not looked at.
pub fn parse_request(input: &[u8]) -> (result: Result<Request, RequestParseError>)
    ensures
        request_read(result) == request_in(input@),
        result matches Ok(request) ==> well_framed(request@),
{
    let end = next_line_end(input, 0);
    let line = match str_from_utf8(slice_subrange(input, 0, end)) {
        None => {
            return Err(RequestParseError::CouldNotReadStartLine);
        },
        Some(line) => line,
    };
    let (verb, path, version) = match parse_start_line(line) {
        Err(e) => {
            return Err(e);
        },
        Ok(start) => start,
    };
    match read_payload(input, end) {
        Err(e) => Err(e),
        Ok((headers, body)) => Ok(Request { verb, path, version, headers, body }),
    }
}

/// Reads a message of which only the framing is asked: a start line, the
/// header block and, where a `Content-Length` announces one, the body.
pub fn parse_message(input: &[u8]) -> (result: Result<Message, RequestParseError>)
    ensures
        message_read(result) == message_in(input@),
{
    let end = next_line_end(input, 0);
    let line = match str_from_utf8(slice_subrange(input, 0, end)) {
        None => {
            return Err(RequestParseError::CouldNotReadStartLine);
        },
        Some(line) => line,
    };
    match read_payload(input, end) {
        Err(e) => Err(e),
        Ok((headers, body)) => Ok(
            Message { start_line: strip_line_ending(line).to_owned(), headers, body },
        ),
    }
}

} // verus!
