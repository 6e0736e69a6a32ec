//! A connection that is fed from memory reads what `parse_request` reads.
//!
//! `parse_request` takes an input that lies in memory; a connection is told
//! line by line what was read. Here the input in memory is played to a
//! connection as a reader would deliver it, and the two are shown to agree:
//! the connection dispatches the request that `parse_request` returns, and
//! gives up with the error that `parse_request` returns.

use crate::bytes::{lemma_find_byte_from, LF};
use crate::connection::{
    aborted, dispatched, headers_ended, step_model, ConnectionModel, EffectModel, EventModel, Fatal,
};
use crate::grammar::{body_length, header_line, line_end, start_line};
use crate::parse::{body_in, headers_from, request_in};
use crate::request::{RequestModel, RequestParseError};
use vstd::prelude::*;
use vstd::utf8::*;

verus! {

/// What reading a line at `pos` reports: the line up to and including the
/// next LF, or up to the end of the input; nothing if that is not text.
pub open spec fn line_event(input: Seq<u8>, pos: int) -> EventModel {
    let line = input.subrange(pos, line_end(input, pos));
    if valid_utf8(line) {
        EventModel::Line(Some(line))
    } else {
        EventModel::Line(None)
    }
}

/// What reading `length` octets at `pos` reports: the octets, or nothing if
/// the input ends before.
pub open spec fn body_event(input: Seq<u8>, pos: int, length: usize) -> EventModel {
    if pos + length <= input.len() {
        EventModel::Body(Some(input.subrange(pos, pos + length)))
    } else {
        EventModel::Body(None)
    }
}

/// Where a connection that is reading a request from `input` at `pos` gets
/// to, and what it then says to do, once it says something other than to
/// read on.
pub open spec fn played(
    files_root: Option<Seq<u8>>,
    state: ConnectionModel,
    input: Seq<u8>,
    pos: int,
) -> (ConnectionModel, EffectModel)
    decreases input.len() - pos,
{
    let next = step_model(files_root, state, line_event(input, pos));
    let end = line_end(input, pos);
    match next.1 {
        EffectModel::ReadLine => if 0 <= pos < input.len() {
            proof {
                lemma_find_byte_from(input, pos, LF);
            }
            played(files_root, next.0, input, end)
        } else {
            next
        },
        EffectModel::ReadBody(length) => step_model(
            files_root,
            next.0,
            body_event(input, end, length),
        ),
        _ => next,
    }
}

/// What comes of a request that was read, or of the failure to read one.
pub open spec fn outcome(
    files_root: Option<Seq<u8>>,
    result: Result<RequestModel, RequestParseError>,
) -> (ConnectionModel, EffectModel) {
    match result {
        Ok(request) => dispatched(files_root, request),
        Err(e) => aborted(Fatal::Unparsable(e)),
    }
}

/// The request that a connection has read so far, completed by the
/// headers and the body that follow in `input` at `pos`.
pub open spec fn completed(request: RequestModel, input: Seq<u8>, pos: int) -> Result<
    RequestModel,
    RequestParseError,
> {
    match headers_from(input, pos, request.headers) {
        Err(e) => Err(e),
        Ok((headers, next)) => match body_in(headers, input, next) {
            Err(e) => Err(e),
            Ok(body) => Ok(RequestModel { headers, body, ..request }),
        },
    }
}

/// A connection that waits for a header line, played the rest of the
/// input, comes to what the headers and the body in the input make of its
/// request.
pub proof fn lemma_played_headers(
    files_root: Option<Seq<u8>>,
    request: RequestModel,
    input: Seq<u8>,
    pos: int,
)
    requires
        0 <= pos <= input.len(),
        request.body is None,
    ensures
        played(files_root, ConnectionModel::Headers { request }, input, pos) == outcome(
            files_root,
            completed(request, input, pos),
        ),
    decreases input.len() - pos,
{
    let state = ConnectionModel::Headers { request };
    let end = line_end(input, pos);
    let line = input.subrange(pos, end);
    lemma_find_byte_from(input, pos, LF);
    if pos >= input.len() {
        assert(line =~= Seq::<u8>::empty());
        assert(valid_utf8(line));
        assert(header_line(line) == Ok::<Option<(Seq<u8>, Seq<u8>)>, RequestParseError>(None));
        lemma_ended(files_root, request, input, pos);
    } else if !valid_utf8(line) {
    } else {
        match header_line(line) {
            Err(e) => {},
            Ok(None) => {
                lemma_ended(files_root, request, input, end);
            },
            Ok(Some((name, value))) => {
                let more = RequestModel { headers: request.headers.insert(name, value), ..request };
                lemma_played_headers(files_root, more, input, end);
            },
        }
    }
}

/// Once the header block has ended at `pos`, asking for the body that the
/// headers announce and taking it from the input comes to what the body in
/// the input makes of the request.
proof fn lemma_ended(files_root: Option<Seq<u8>>, request: RequestModel, input: Seq<u8>, pos: int)
    requires
        0 <= pos <= input.len(),
        request.body is None,
    ensures
        ({
            let ended = headers_ended(files_root, request);
            let after = match ended.1 {
                EffectModel::ReadBody(length) => step_model(
                    files_root,
                    ended.0,
                    body_event(input, pos, length),
                ),
                _ => ended,
            };
            after == outcome(
                files_root,
                match body_in(request.headers, input, pos) {
                    Err(e) => Err(e),
                    Ok(body) => Ok(RequestModel { body, ..request }),
                },
            )
        }),
        headers_ended(files_root, request).1 !is ReadLine,
{
    match body_length(request.headers) {
        Err(e) => {},
        Ok(Some(length)) => {},
        Ok(None) => {
            assert(RequestModel { body: None, ..request } == request);
        },
    }
}

/// A connection that was just accepted and is played an input comes to
/// dispatching the request that the input holds, or to giving up for the
/// reason for which the input holds none.
pub proof fn lemma_connection_reads_as_parser(files_root: Option<Seq<u8>>, input: Seq<u8>)
    ensures
        step_model(files_root, ConnectionModel::Accepted, EventModel::Accepted) == (
            ConnectionModel::StartLine,
            EffectModel::ReadLine,
        ),
        played(files_root, ConnectionModel::StartLine, input, 0) == outcome(
            files_root,
            request_in(input),
        ),
{
    let end = line_end(input, 0);
    let line = input.subrange(0, end);
    lemma_find_byte_from(input, 0, LF);
    if input.len() == 0 {
        assert(line =~= Seq::<u8>::empty());
        assert(start_line(line) is Err);
    }
    if valid_utf8(line) {
        match start_line(line) {
            Err(e) => {},
            Ok((verb, path, version)) => {
                let request = RequestModel {
                    verb,
                    path,
                    version,
                    headers: Map::empty(),
                    body: None,
                };
                lemma_played_headers(files_root, request, input, end);
            },
        }
    }
}

} // verus!
