//! The grammar of a message head, line by line.
//!
//! A head is a start line followed by header lines and a blank line. Lines
//! end in CR LF; a bare LF ends a line too. Each function here takes one
//! line as it was read, its line ending included, and says what it holds.

use crate::bytes::{find_byte_from, find_pair_from, index_of_byte, index_of_pair, bytes_eq};
use crate::bytes::{COLON, CR, LF, SP};
use crate::decimal::{parse_decimal_usize, parse_usize};
use crate::headers::Headers;
use crate::request::{RequestParseError, Verb};
use crate::text::substr;
use vstd::prelude::*;
use vstd::string::*;
use vstd::utf8::*;

verus! {

/// Where the line that starts at `pos` ends: directly after its LF, or at
/// the end of `input` if no LF follows.
pub open spec fn line_end(input: Seq<u8>, pos: int) -> int {
    let lf = find_byte_from(input, pos, LF);
    if lf < input.len() {
        lf + 1
    } else {
        input.len() as int
    }
}

/// A line without its line ending: CR LF, or a bare LF.
pub open spec fn line_text(line: Seq<u8>) -> Seq<u8> {
    let n = line.len() as int;
    if n >= 2 && line[n - 2] == CR && line[n - 1] == LF {
        line.subrange(0, n - 2)
    } else if n >= 1 && line[n - 1] == LF {
        line.subrange(0, n - 1)
    } else {
        line
    }
}

/// The first three parts of a start line, which single spaces separate; a
/// part may be empty. `None` if there are fewer than three parts. What
/// follows a third space is not looked at.
pub open spec fn start_tokens(text: Seq<u8>) -> Option<(Seq<u8>, Seq<u8>, Seq<u8>)> {
    let i = find_byte_from(text, 0, SP);
    if i >= text.len() {
        None
    } else {
        let j = find_byte_from(text, i + 1, SP);
        if j >= text.len() {
            None
        } else {
            let k = find_byte_from(text, j + 1, SP);
            Some((text.subrange(0, i), text.subrange(i + 1, j), text.subrange(j + 1, k)))
        }
    }
}

/// The method that a token names: `GET` or `POST`, letter for letter.
pub open spec fn verb_of(token: Seq<u8>) -> Option<Verb> {
    if token == "GET".spec_bytes() {
        Some(Verb::Get)
    } else if token == "POST".spec_bytes() {
        Some(Verb::Post)
    } else {
        None
    }
}

/// How a method is written.
pub open spec fn verb_token(verb: Verb) -> Seq<u8> {
    match verb {
        Verb::Get => "GET".spec_bytes(),
        Verb::Post => "POST".spec_bytes(),
    }
}

/// What the start line of a request holds: the method, the path and the
/// version.
pub open spec fn start_line(line: Seq<u8>) -> Result<(Verb, Seq<u8>, Seq<u8>), RequestParseError> {
    match start_tokens(line_text(line)) {
        None => Err(RequestParseError::InvalidStructure),
        Some((method, path, version)) => match verb_of(method) {
            None => Err(RequestParseError::InvalidVerb),
            Some(verb) => Ok((verb, path, version)),
        },
    }
}

/// What a header line holds: nothing if it is blank, which ends the header
/// block; else the name before the first `": "` and the value after it.
pub open spec fn header_line(line: Seq<u8>) -> Result<Option<(Seq<u8>, Seq<u8>)>, RequestParseError> {
    let text = line_text(line);
    if text.len() == 0 {
        Ok(None)
    } else {
        let i = find_pair_from(text, 0, COLON, SP);
        if i >= text.len() {
            Err(RequestParseError::InvalidHeader)
        } else {
            Ok(Some((text.subrange(0, i), text.subrange(i + 2, text.len() as int))))
        }
    }
}

/// How long the body is that `headers` announce: `None` without a
/// `Content-Length`, else the number that its value denotes.
pub open spec fn body_length(headers: Map<Seq<u8>, Seq<u8>>) -> Result<
    Option<usize>,
    RequestParseError,
> {
    if headers.contains_key("Content-Length".spec_bytes()) {
        match parse_decimal_usize(headers["Content-Length".spec_bytes()]) {
            Some(n) => Ok(Some(n)),
            None => Err(RequestParseError::InvalidContentLength),
        }
    } else {
        Ok(None)
    }
}

/// The octets of three texts.
pub open spec fn octets3(texts: (&str, &str, &str)) -> (Seq<u8>, Seq<u8>, Seq<u8>) {
    (texts.0.spec_bytes(), texts.1.spec_bytes(), texts.2.spec_bytes())
}

/// The octets of a name and a value.
pub open spec fn field_octets(field: (String, String)) -> (Seq<u8>, Seq<u8>) {
    (encode_utf8(field.0@), encode_utf8(field.1@))
}

/// What reading a start line returned, text by its octets.
pub open spec fn start_line_read(result: Result<(Verb, String, String), RequestParseError>) -> Result<
    (Verb, Seq<u8>, Seq<u8>),
    RequestParseError,
> {
    match result {
        Ok((verb, path, version)) => Ok((verb, encode_utf8(path@), encode_utf8(version@))),
        Err(e) => Err(e),
    }
}

/// What reading a header line returned, text by its octets.
pub open spec fn header_line_read(
    result: Result<Option<(String, String)>, RequestParseError>,
) -> Result<Option<(Seq<u8>, Seq<u8>)>, RequestParseError> {
    match result {
        Ok(Some(field)) => Ok(Some(field_octets(field))),
        Ok(None) => Ok(None),
        Err(e) => Err(e),
    }
}

/// Finds the end of the line that starts at `pos`.
pub fn next_line_end(input: &[u8], pos: usize) -> (end: usize)
    ensures
        end == line_end(input@, pos as int),
        end <= input@.len(),
        pos <= input@.len() ==> pos <= end,
        pos < input@.len() ==> pos < end,
{
    let lf = index_of_byte(input, pos, LF);
    if lf < input.len() {
        lf + 1
    } else {
        input.len()
    }
}

/// Takes the line ending off a line.
pub fn strip_line_ending(line: &str) -> (text: &str)
    ensures
        text.spec_bytes() == line_text(line.spec_bytes()),
{
    let bytes = line.as_bytes();
    let n = bytes.len();
    if n >= 2 && bytes[n - 2] == CR && bytes[n - 1] == LF {
        substr(line, 0, n - 2)
    } else if n >= 1 && bytes[n - 1] == LF {
        substr(line, 0, n - 1)
    } else {
        line
    }
}

/// Splits the text of a start line into its first three parts.
pub fn split_start_line(text: &str) -> (tokens: Option<(&str, &str, &str)>)
    ensures
        match tokens {
            Some(t) => start_tokens(text.spec_bytes()) == Some(octets3(t)),
            None => start_tokens(text.spec_bytes()) is None,
        },
{
    let bytes = text.as_bytes();
    let n = bytes.len();
    let i = index_of_byte(bytes, 0, SP);
    if i >= n {
        return None;
    }
    let j = index_of_byte(bytes, i + 1, SP);
    if j >= n {
        return None;
    }
    let k = index_of_byte(bytes, j + 1, SP);
    Some((substr(text, 0, i), substr(text, i + 1, j), substr(text, j + 1, k)))
}

impl Verb {
    /// The method that `token` names.
    pub fn from_token(token: &str) -> (verb: Option<Verb>)
        ensures
            verb == verb_of(token.spec_bytes()),
    {
        let bytes = token.as_bytes();
        if bytes_eq(bytes, "GET".as_bytes()) {
            Some(Verb::Get)
        } else if bytes_eq(bytes, "POST".as_bytes()) {
            Some(Verb::Post)
        } else {
            None
        }
    }
}

/// Reads the start line of a request.
pub fn parse_start_line(line: &str) -> (result: Result<(Verb, String, String), RequestParseError>)
    ensures
        start_line_read(result) == start_line(line.spec_bytes()),
{
    match split_start_line(strip_line_ending(line)) {
        None => Err(RequestParseError::InvalidStructure),
        Some((method, path, version)) => match Verb::from_token(method) {
            None => Err(RequestParseError::InvalidVerb),
            Some(verb) => Ok((verb, path.to_owned(), version.to_owned())),
        },
    }
}

/// Reads one header line.
pub fn parse_header_line(line: &str) -> (result: Result<Option<(String, String)>, RequestParseError>)
    ensures
        header_line_read(result) == header_line(line.spec_bytes()),
{
    let text = strip_line_ending(line);
    let bytes = text.as_bytes();
    let n = bytes.len();
    if n == 0 {
        return Ok(None);
    }
    let i = index_of_pair(bytes, 0, COLON, SP);
    if i >= n {
        return Err(RequestParseError::InvalidHeader);
    }
    let name = substr(text, 0, i);
    let value = substr(text, i + 2, n);
    Ok(Some((name.to_owned(), value.to_owned())))
}

/// Reads from `headers` how long the body is.
pub fn content_length(headers: &Headers) -> (result: Result<Option<usize>, RequestParseError>)
    ensures
        result == body_length(headers@),
{
    match headers.get("Content-Length") {
        Some(value) => match parse_usize(value.as_str().as_bytes()) {
            Some(n) => Ok(Some(n)),
            None => Err(RequestParseError::InvalidContentLength),
        },
        None => Ok(None),
    }
}

} // verus!
