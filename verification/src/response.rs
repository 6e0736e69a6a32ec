//! Responses, and the octets that one is sent as.

use crate::bytes::{COLON, CR, LF, SP};
use crate::decimal::{decimal, push_decimal};
use crate::request::octets_of;
use crate::status::{created, internal_server_error, not_found, ok, StatusCode};
use vstd::prelude::*;
use vstd::string::*;

verus! {

/// What a response carries: a media type and the octets of the body.
#[derive(Debug, PartialEq, Eq)]
pub struct Content {
    pub mime_type: &'static str,
    pub content: Vec<u8>,
}

/// A response: a status and, optionally, content.
#[derive(Debug, PartialEq, Eq)]
pub struct Response {
    pub status_code: StatusCode,
    pub content: Option<Content>,
}

/// What a response with content carries, as octets.
pub struct ContentModel {
    pub mime_type: Seq<u8>,
    pub body: Seq<u8>,
}

/// What a response says: the code, and text by its UTF-8 octets.
pub struct ResponseModel {
    pub code: u16,
    pub reason: Seq<u8>,
    pub content: Option<ContentModel>,
}

impl View for Content {
    type V = ContentModel;

    open spec fn view(&self) -> ContentModel {
        ContentModel { mime_type: self.mime_type.spec_bytes(), body: self.content@ }
    }
}

impl View for Response {
    type V = ResponseModel;

    open spec fn view(&self) -> ResponseModel {
        ResponseModel {
            code: self.status_code.code,
            reason: self.status_code.status.spec_bytes(),
            content: match self.content {
                Some(content) => Some(content@),
                None => None,
            },
        }
    }
}

/// The response with the status `status` and no content.
pub open spec fn empty_model(status: StatusCode) -> ResponseModel {
    ResponseModel { code: status.code, reason: status.status.spec_bytes(), content: None }
}

/// The response with the status `status` whose content is `text`, as
/// `text/plain`.
pub open spec fn text_model(status: StatusCode, text: Seq<u8>) -> ResponseModel {
    ResponseModel {
        code: status.code,
        reason: status.status.spec_bytes(),
        content: Some(ContentModel { mime_type: "text/plain".spec_bytes(), body: text }),
    }
}

/// The response to a request for a file: the file as
/// `application/octet-stream` where it could be read, 404 without content
/// where not.
pub open spec fn file_model(file: Option<Seq<u8>>) -> ResponseModel {
    match file {
        Some(body) => ResponseModel {
            code: ok().code,
            reason: ok().status.spec_bytes(),
            content: Some(
                ContentModel { mime_type: "application/octet-stream".spec_bytes(), body },
            ),
        },
        None => empty_model(not_found()),
    }
}

/// The response to a request to store a file: 201 where it was written,
/// 500 where not, both without content.
pub open spec fn stored_model(written: bool) -> ResponseModel {
    if written {
        empty_model(created())
    } else {
        empty_model(internal_server_error())
    }
}

/// The line ending.
pub open spec fn crlf() -> Seq<u8> {
    seq![CR, LF]
}

/// The status line with its line ending: `HTTP/1.1`, the code in decimal
/// and the reason phrase, a space between each two.
pub open spec fn status_line(code: u16, reason: Seq<u8>) -> Seq<u8> {
    "HTTP/1.1 ".spec_bytes() + decimal(code as nat) + seq![SP] + reason + crlf()
}

/// A header line with its line ending: the name, `": "` and the value.
pub open spec fn header_field(name: Seq<u8>, value: Seq<u8>) -> Seq<u8> {
    name + seq![COLON, SP] + value + crlf()
}

/// What follows the status line: with content, `Content-Type`,
/// `Content-Length` with the number of octets of the body, a blank line and
/// the body as it is; without content, two blank lines and nothing else.
pub open spec fn wire_payload(content: Option<ContentModel>) -> Seq<u8> {
    match content {
        Some(content) => header_field("Content-Type".spec_bytes(), content.mime_type)
            + header_field("Content-Length".spec_bytes(), decimal(content.body.len())) + crlf()
            + content.body,
        None => crlf() + crlf(),
    }
}

/// The octets that a response is sent as.
pub open spec fn wire_form(response: ResponseModel) -> Seq<u8> {
    status_line(response.code, response.reason) + wire_payload(response.content)
}

/// Appends `bytes` to `out`.
pub fn write_bytes(out: &mut Vec<u8>, bytes: &[u8])
    ensures
        final(out)@ == old(out)@ + bytes@,
{
    out.extend_from_slice(bytes);
    assert(final(out)@ =~= old(out)@ + bytes@);
}

/// Appends a line ending to `out`.
pub fn write_newline(out: &mut Vec<u8>)
    ensures
        final(out)@ == old(out)@ + crlf(),
{
    out.push(CR);
    out.push(LF);
    assert(final(out)@ =~= old(out)@ + crlf());
}

/// Appends the header line of `key` and `value` to `out`.
pub fn write_header(out: &mut Vec<u8>, key: &str, value: &[u8])
    ensures
        final(out)@ == old(out)@ + header_field(key.spec_bytes(), value@),
{
    write_bytes(out, key.as_bytes());
    out.push(COLON);
    out.push(SP);
    write_bytes(out, value);
    write_newline(out);
    assert(final(out)@ =~= old(out)@ + header_field(key.spec_bytes(), value@));
}

impl Response {
    /// A response without content.
    pub fn empty_response(status_code: &StatusCode) -> (response: Response)
        ensures
            response.status_code == *status_code,
            response.content is None,
            response@ == empty_model(*status_code),
    {
        Response { status_code: *status_code, content: None }
    }

    /// A response whose content is `text`, as `text/plain`.
    pub fn text_reponse(status_code: &StatusCode, text: &str) -> (response: Response)
        ensures
            response.status_code == *status_code,
            response@ == text_model(*status_code, text.spec_bytes()),
    {
        Response {
            status_code: *status_code,
            content: Some(Content { mime_type: "text/plain", content: text.as_bytes_vec() }),
        }
    }

    /// The response to a request for a file, given what reading the file
    /// returned: the file as `application/octet-stream` if it could be read,
    /// 404 without content if not.
    pub fn file_response(file_content: Option<Vec<u8>>) -> (response: Response)
        ensures
            response@ == file_model(octets_of(file_content)),
    {
        match file_content {
            Some(file) => Response {
                status_code: ok(),
                content: Some(Content { mime_type: "application/octet-stream", content: file }),
            },
            None => Response::empty_response(&not_found()),
        }
    }

    /// The response to a request to store a file, given whether the file
    /// was written: 201 if it was, 500 if not, both without content.
    pub fn stored_response(written: bool) -> (response: Response)
        ensures
            response@ == stored_model(written),
    {
        if written {
            Response::empty_response(&created())
        } else {
            Response::empty_response(&internal_server_error())
        }
    }

    /// The octets to send: the status line, then the headers, a blank line
    /// and the body, or two blank lines where there is no content.
    pub fn serialize(&self) -> (out: Vec<u8>)
        ensures
            out@ == wire_form(self@),
    {
        let mut out: Vec<u8> = Vec::new();
        write_bytes(&mut out, "HTTP/1.1 ".as_bytes());
        push_decimal(&mut out, self.status_code.code as usize);
        out.push(SP);
        write_bytes(&mut out, self.status_code.status.as_bytes());
        write_newline(&mut out);
        assert(out@ =~= status_line(self@.code, self@.reason));
        match &self.content {
            Some(content) => {
                write_header(&mut out, "Content-Type", content.mime_type.as_bytes());
                let mut length: Vec<u8> = Vec::new();
                push_decimal(&mut length, content.content.len());
                write_header(&mut out, "Content-Length", length.as_slice());
                write_newline(&mut out);
                write_bytes(&mut out, content.content.as_slice());
            },
            None => {
                write_newline(&mut out);
                write_newline(&mut out);
            },
        }
        assert(out@ =~= wire_form(self@));
        out
    }
}

} // verus!
