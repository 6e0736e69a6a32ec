//! One connection from its acceptance to its end.
//!
//! The library does no input or output. It says what to do next, and is
//! told what came of it: `step` takes the state of a connection and what
//! just happened, and returns the next state and what to do now. Whoever
//! owns the connection does what `step` says until it says to close or to
//! abort.

use crate::grammar::{
    body_length, content_length, header_line, parse_header_line, parse_start_line, start_line,
};
use crate::headers::Headers;
use crate::request::{octets_of, Request, RequestModel, RequestParseError};
use crate::response::{file_model, stored_model, wire_form, Response};
use crate::route::{handle_request, misuse, misuse_of, route, Action, ActionModel, Configuration, Misuse};
use vstd::prelude::*;
use vstd::string::*;
use vstd::utf8::*;

verus! {

/// Where a connection stands.
#[derive(Debug)]
pub enum Connection {
    /// Accepted; nothing has been read.
    Accepted,
    /// Waiting for the start line.
    StartLine,
    /// Waiting for the next header line; `request` holds what was read.
    Headers { request: Request },
    /// Waiting for the `length` octets of the body.
    Body { request: Request, length: usize },
    /// Waiting for the file that the request asked for.
    ReadingFile,
    /// Waiting for the file of the request to be written.
    WritingFile,
    /// Waiting for the response to be sent.
    Responding,
    /// Done, in one way or the other.
    Closed,
}

/// What just happened on a connection.
#[derive(Debug, PartialEq, Eq)]
pub enum Event {
    /// The connection was accepted.
    Accepted,
    /// A line was read, line ending included; an empty line at the end of
    /// the input. `None` if reading failed.
    Line(Option<String>),
    /// The body was read. `None` if reading failed or the input ended
    /// early.
    Body(Option<Vec<u8>>),
    /// The file was read. `None` if it could not be.
    File(Option<Vec<u8>>),
    /// The file was written, or could not be.
    Written(bool),
    /// The response was sent, or could not be.
    Sent(bool),
}

/// Why a connection is given up without a response.
#[derive(Clone, Copy, Debug, PartialEq, Eq, Structural)]
pub enum Fatal {
    /// No request could be read.
    Unparsable(RequestParseError),
    /// The request lacks what its route cannot do without.
    Misused(Misuse),
    /// The response could not be sent.
    NotSent,
    /// Something happened that the connection was not waiting for.
    Unexpected,
}

/// What to do next on a connection.
#[derive(Debug, PartialEq, Eq)]
pub enum Effect {
    /// Read a line, up to and including the next LF, and report it.
    ReadLine,
    /// Read exactly this many octets and report them.
    ReadBody(usize),
    /// Read the file `name` under `root` and report it.
    ReadFile { root: String, name: String },
    /// Write `contents` to the file `name` under `root` and report
    /// whether that worked.
    WriteFile { root: String, name: String, contents: Vec<u8> },
    /// Send these octets and report whether that worked.
    Send(Vec<u8>),
    /// Close the connection: the response was sent.
    Close,
    /// Give the connection up.
    Abort(Fatal),
}

/// The five stages that a connection goes through, in their order.
#[derive(Clone, Copy, Debug, PartialEq, Eq, Structural)]
pub enum Stage {
    Accepted,
    Parsing,
    Dispatching,
    Responding,
    Closed,
}

/// What a state says, text by its UTF-8 octets.
pub enum ConnectionModel {
    Accepted,
    StartLine,
    Headers { request: RequestModel },
    Body { request: RequestModel, length: usize },
    ReadingFile,
    WritingFile,
    Responding,
    Closed,
}

/// What an event says, text by its UTF-8 octets.
pub enum EventModel {
    Accepted,
    Line(Option<Seq<u8>>),
    Body(Option<Seq<u8>>),
    File(Option<Seq<u8>>),
    Written(bool),
    Sent(bool),
}

/// What an effect says, text by its UTF-8 octets.
pub enum EffectModel {
    ReadLine,
    ReadBody(usize),
    ReadFile { root: Seq<u8>, name: Seq<u8> },
    WriteFile { root: Seq<u8>, name: Seq<u8>, contents: Seq<u8> },
    Send(Seq<u8>),
    Close,
    Abort(Fatal),
}

impl View for Connection {
    type V = ConnectionModel;

    open spec fn view(&self) -> ConnectionModel {
        match *self {
            Connection::Accepted => ConnectionModel::Accepted,
            Connection::StartLine => ConnectionModel::StartLine,
            Connection::Headers { request } => ConnectionModel::Headers { request: request@ },
            Connection::Body { request, length } => ConnectionModel::Body {
                request: request@,
                length,
            },
            Connection::ReadingFile => ConnectionModel::ReadingFile,
            Connection::WritingFile => ConnectionModel::WritingFile,
            Connection::Responding => ConnectionModel::Responding,
            Connection::Closed => ConnectionModel::Closed,
        }
    }
}

impl View for Event {
    type V = EventModel;

    open spec fn view(&self) -> EventModel {
        match *self {
            Event::Accepted => EventModel::Accepted,
            Event::Line(Some(line)) => EventModel::Line(Some(encode_utf8(line@))),
            Event::Line(None) => EventModel::Line(None),
            Event::Body(body) => EventModel::Body(octets_of(body)),
            Event::File(file) => EventModel::File(octets_of(file)),
            Event::Written(written) => EventModel::Written(written),
            Event::Sent(sent) => EventModel::Sent(sent),
        }
    }
}

impl View for Effect {
    type V = EffectModel;

    open spec fn view(&self) -> EffectModel {
        match *self {
            Effect::ReadLine => EffectModel::ReadLine,
            Effect::ReadBody(length) => EffectModel::ReadBody(length),
            Effect::ReadFile { root, name } => EffectModel::ReadFile {
                root: encode_utf8(root@),
                name: encode_utf8(name@),
            },
            Effect::WriteFile { root, name, contents } => EffectModel::WriteFile {
                root: encode_utf8(root@),
                name: encode_utf8(name@),
                contents: contents@,
            },
            Effect::Send(octets) => EffectModel::Send(octets@),
            Effect::Close => EffectModel::Close,
            Effect::Abort(fatal) => EffectModel::Abort(fatal),
        }
    }
}

/// The stage that a state belongs to.
pub open spec fn stage_of(state: ConnectionModel) -> Stage {
    match state {
        ConnectionModel::Accepted => Stage::Accepted,
        ConnectionModel::StartLine => Stage::Parsing,
        ConnectionModel::Headers { .. } => Stage::Parsing,
        ConnectionModel::Body { .. } => Stage::Parsing,
        ConnectionModel::ReadingFile => Stage::Dispatching,
        ConnectionModel::WritingFile => Stage::Dispatching,
        ConnectionModel::Responding => Stage::Responding,
        ConnectionModel::Closed => Stage::Closed,
    }
}

/// The place of a stage in the order of the stages.
pub open spec fn stage_rank(stage: Stage) -> int {
    match stage {
        Stage::Accepted => 0,
        Stage::Parsing => 1,
        Stage::Dispatching => 2,
        Stage::Responding => 3,
        Stage::Closed => 4,
    }
}

/// Giving a connection up.
pub open spec fn aborted(fatal: Fatal) -> (ConnectionModel, EffectModel) {
    (ConnectionModel::Closed, EffectModel::Abort(fatal))
}

/// What is done with a request once it is read whole: it is given up if it
/// lacks what its route cannot do without; else its route says whether to
/// respond at once or to read or write a file first.
pub open spec fn dispatched(files_root: Option<Seq<u8>>, request: RequestModel) -> (
    ConnectionModel,
    EffectModel,
) {
    match misuse_of(files_root, request) {
        Some(lack) => aborted(Fatal::Misused(lack)),
        None => match route(files_root, request) {
            ActionModel::Respond(response) => (
                ConnectionModel::Responding,
                EffectModel::Send(wire_form(response)),
            ),
            ActionModel::ReadFile { root, name } => (
                ConnectionModel::ReadingFile,
                EffectModel::ReadFile { root, name },
            ),
            ActionModel::WriteFile { root, name, contents } => (
                ConnectionModel::WritingFile,
                EffectModel::WriteFile { root, name, contents },
            ),
        },
    }
}

/// What is done once the header block has ended: the body is asked for if
/// the headers announce one, else the request is dispatched without one.
pub open spec fn headers_ended(files_root: Option<Seq<u8>>, request: RequestModel) -> (
    ConnectionModel,
    EffectModel,
) {
    match body_length(request.headers) {
        Err(e) => aborted(Fatal::Unparsable(e)),
        Ok(Some(length)) => (
            ConnectionModel::Body { request, length },
            EffectModel::ReadBody(length),
        ),
        Ok(None) => dispatched(files_root, request),
    }
}

/// The next state of a connection and what to do next, given its state and
/// what just happened.
pub open spec fn step_model(files_root: Option<Seq<u8>>, state: ConnectionModel, event: EventModel) -> (
    ConnectionModel,
    EffectModel,
) {
    match (state, event) {
        (ConnectionModel::Accepted, EventModel::Accepted) => (
            ConnectionModel::StartLine,
            EffectModel::ReadLine,
        ),
        (ConnectionModel::StartLine, EventModel::Line(Some(line))) => match start_line(line) {
            Ok((verb, path, version)) => (
                ConnectionModel::Headers {
                    request: RequestModel {
                        verb,
                        path,
                        version,
                        headers: Map::empty(),
                        body: None,
                    },
                },
                EffectModel::ReadLine,
            ),
            Err(e) => aborted(Fatal::Unparsable(e)),
        },
        (ConnectionModel::StartLine, EventModel::Line(None)) => aborted(
            Fatal::Unparsable(RequestParseError::CouldNotReadStartLine),
        ),
        (ConnectionModel::Headers { request }, EventModel::Line(Some(line))) => match header_line(
            line,
        ) {
            Err(e) => aborted(Fatal::Unparsable(e)),
            Ok(Some((name, value))) => (
                ConnectionModel::Headers {
                    request: RequestModel {
                        headers: request.headers.insert(name, value),
                        ..request
                    },
                },
                EffectModel::ReadLine,
            ),
            Ok(None) => headers_ended(files_root, request),
        },
        (ConnectionModel::Headers { .. }, EventModel::Line(None)) => aborted(
            Fatal::Unparsable(RequestParseError::CouldNotReadHeader),
        ),
        (ConnectionModel::Body { request, length }, EventModel::Body(Some(body))) => if body.len()
            == length {
            dispatched(files_root, RequestModel { body: Some(body), ..request })
        } else {
            aborted(Fatal::Unparsable(RequestParseError::CouldNotReadBody))
        },
        (ConnectionModel::Body { .. }, EventModel::Body(None)) => aborted(
            Fatal::Unparsable(RequestParseError::CouldNotReadBody),
        ),
        (ConnectionModel::ReadingFile, EventModel::File(file)) => (
            ConnectionModel::Responding,
            EffectModel::Send(wire_form(file_model(file))),
        ),
        (ConnectionModel::WritingFile, EventModel::Written(written)) => (
            ConnectionModel::Responding,
            EffectModel::Send(wire_form(stored_model(written))),
        ),
        (ConnectionModel::Responding, EventModel::Sent(sent)) => if sent {
            (ConnectionModel::Closed, EffectModel::Close)
        } else {
            aborted(Fatal::NotSent)
        },
        _ => aborted(Fatal::Unexpected),
    }
}

/// Gives a connection up.
fn abort(fatal: Fatal) -> (next: (Connection, Effect))
    ensures
        (next.0@, next.1@) == aborted(fatal),
{
    (Connection::Closed, Effect::Abort(fatal))
}

/// Dispatches a request that is read whole.
fn dispatch(configuration: &Configuration, request: Request) -> (next: (Connection, Effect))
    ensures
        (next.0@, next.1@) == dispatched(configuration@, request@),
{
    match misuse(configuration, &request) {
        Some(lack) => abort(Fatal::Misused(lack)),
        None => match handle_request(configuration, &request) {
            Action::Respond(response) => (Connection::Responding, Effect::Send(response.serialize())),
            Action::ReadFile { root, name } => (
                Connection::ReadingFile,
                Effect::ReadFile { root, name },
            ),
            Action::WriteFile { root, name, contents } => (
                Connection::WritingFile,
                Effect::WriteFile { root, name, contents },
            ),
        },
    }
}

/// Goes on after the blank line that ends the header block.
fn end_headers(configuration: &Configuration, request: Request) -> (next: (Connection, Effect))
    ensures
        (next.0@, next.1@) == headers_ended(configuration@, request@),
{
    match content_length(&request.headers) {
        Err(e) => abort(Fatal::Unparsable(e)),
        Ok(Some(length)) => (Connection::Body { request, length }, Effect::ReadBody(length)),
        Ok(None) => dispatch(configuration, request),
    }
}

impl Connection {
    /// The stage that the connection is in.
    pub fn stage(&self) -> (stage: Stage)
        ensures
            stage == stage_of(self@),
    {
        match self {
            Connection::Accepted => Stage::Accepted,
            Connection::StartLine => Stage::Parsing,
            Connection::Headers { .. } => Stage::Parsing,
            Connection::Body { .. } => Stage::Parsing,
            Connection::ReadingFile => Stage::Dispatching,
            Connection::WritingFile => Stage::Dispatching,
            Connection::Responding => Stage::Responding,
            Connection::Closed => Stage::Closed,
        }
    }

    /// Takes the connection one step on: given what just happened, returns
    /// the next state and what to do next.
    pub fn step(self, configuration: &Configuration, event: Event) -> (next: (Connection, Effect))
        ensures
            (next.0@, next.1@) == step_model(configuration@, self@, event@),
    {
        match self {
            Connection::Accepted => match event {
                Event::Accepted => (Connection::StartLine, Effect::ReadLine),
                _ => abort(Fatal::Unexpected),
            },
            Connection::StartLine => match event {
                Event::Line(Some(line)) => match parse_start_line(line.as_str()) {
                    Ok((verb, path, version)) => (
                        Connection::Headers {
                            request: Request {
                                verb,
                                path,
                                version,
                                headers: Headers::new(),
                                body: None,
                            },
                        },
                        Effect::ReadLine,
                    ),
                    Err(e) => abort(Fatal::Unparsable(e)),
                },
                Event::Line(None) => abort(
                    Fatal::Unparsable(RequestParseError::CouldNotReadStartLine),
                ),
                _ => abort(Fatal::Unexpected),
            },
            Connection::Headers { request } => match event {
                Event::Line(Some(line)) => match parse_header_line(line.as_str()) {
                    Err(e) => abort(Fatal::Unparsable(e)),
                    Ok(Some((name, value))) => {
                        let mut request = request;
                        request.headers.insert(name, value);
                        (Connection::Headers { request }, Effect::ReadLine)
                    },
                    Ok(None) => end_headers(configuration, request),
                },
                Event::Line(None) => abort(Fatal::Unparsable(RequestParseError::CouldNotReadHeader)),
                _ => abort(Fatal::Unexpected),
            },
            Connection::Body { request, length } => match event {
                Event::Body(Some(body)) => {
                    if body.len() == length {
                        let mut request = request;
                        request.body = Some(body);
                        dispatch(configuration, request)
                    } else {
                        abort(Fatal::Unparsable(RequestParseError::CouldNotReadBody))
                    }
                },
                Event::Body(None) => abort(Fatal::Unparsable(RequestParseError::CouldNotReadBody)),
                _ => abort(Fatal::Unexpected),
            },
            Connection::ReadingFile => match event {
                Event::File(file) => (
                    Connection::Responding,
                    Effect::Send(Response::file_response(file).serialize()),
                ),
                _ => abort(Fatal::Unexpected),
            },
            Connection::WritingFile => match event {
                Event::Written(written) => (
                    Connection::Responding,
                    Effect::Send(Response::stored_response(written).serialize()),
                ),
                _ => abort(Fatal::Unexpected),
            },
            Connection::Responding => match event {
                Event::Sent(sent) => if sent {
                    (Connection::Closed, Effect::Close)
                } else {
                    abort(Fatal::NotSent)
                },
                _ => abort(Fatal::Unexpected),
            },
            Connection::Closed => abort(Fatal::Unexpected),
        }
    }
}

/// A step never takes a connection back to an earlier stage, and a step
/// that gives it up closes it.
pub proof fn lemma_step_moves_forward(
    files_root: Option<Seq<u8>>,
    state: ConnectionModel,
    event: EventModel,
)
    ensures
        stage_rank(stage_of(state)) <= stage_rank(stage_of(step_model(files_root, state, event).0)),
        step_model(files_root, state, event).1 is Abort ==> step_model(files_root, state, event).0
            is Closed,
        step_model(files_root, state, event).1 is Close ==> step_model(files_root, state, event).0
            is Closed,
{
}

} // verus!
