//! The routes: what a request is answered with, and what has to be read or
//! written before that.

use crate::bytes::{bytes_eq, find_byte_from, index_of_byte, SLASH};
use crate::request::{Request, RequestModel, Verb};
use crate::response::{empty_model, text_model, Response, ResponseModel};
use crate::status::{not_found, ok};
use crate::text::substr;
use vstd::prelude::*;
use vstd::string::*;
use vstd::utf8::*;

verus! {

/// What is fixed when the server starts.
#[derive(Clone, Debug, PartialEq, Eq)]
pub struct Configuration {
    /// The directory that `/files/<name>` reads from and writes to.
    pub files_root: Option<String>,
}

impl View for Configuration {
    type V = Option<Seq<u8>>;

    open spec fn view(&self) -> Option<Seq<u8>> {
        match self.files_root {
            Some(root) => Some(encode_utf8(root@)),
            None => None,
        }
    }
}

/// The directory that the arguments of the program name: the one after
/// `--directory`, where that is the first argument after the program's name.
pub open spec fn directory_in(args: Seq<String>) -> Option<String> {
    if args.len() >= 3 && args[1]@ == "--directory"@ {
        Some(args[2])
    } else {
        None
    }
}

impl Configuration {
    /// Reads the configuration from the arguments of the program, the
    /// program's name first.
    pub fn from_args(args: &Vec<String>) -> (configuration: Configuration)
        ensures
            configuration.files_root == directory_in(args@),
    {
        let flag = "--directory".to_owned();
        if args.len() >= 3 && args[1] == flag {
            Configuration { files_root: Some(args[2].clone()) }
        } else {
            Configuration { files_root: None }
        }
    }
}

/// What the connection handler has to do with a request.
#[derive(Debug, PartialEq, Eq)]
pub enum Action {
    /// Send this response.
    Respond(Response),
    /// Read the file `name` under `root`, then send
    /// `Response::file_response` of what came of it.
    ReadFile { root: String, name: String },
    /// Write `contents` to the file `name` under `root`, then send
    /// `Response::stored_response` of what came of it.
    WriteFile { root: String, name: String, contents: Vec<u8> },
}

/// What an action says, text by its UTF-8 octets.
pub enum ActionModel {
    Respond(ResponseModel),
    ReadFile { root: Seq<u8>, name: Seq<u8> },
    WriteFile { root: Seq<u8>, name: Seq<u8>, contents: Seq<u8> },
}

impl View for Action {
    type V = ActionModel;

    open spec fn view(&self) -> ActionModel {
        match *self {
            Action::Respond(response) => ActionModel::Respond(response@),
            Action::ReadFile { root, name } => ActionModel::ReadFile {
                root: encode_utf8(root@),
                name: encode_utf8(name@),
            },
            Action::WriteFile { root, name, contents } => ActionModel::WriteFile {
                root: encode_utf8(root@),
                name: encode_utf8(name@),
                contents: contents@,
            },
        }
    }
}

/// What a request lacks that its route cannot do without.
#[derive(Clone, Copy, Debug, PartialEq, Eq, Structural)]
pub enum Misuse {
    /// `/user-agent` was asked for without a `User-Agent` header.
    NoUserAgent,
    /// `/files/<name>` was asked for and no directory is configured.
    NoFilesRoot,
    /// `/files/<name>` was posted to without a body.
    NoBody,
}

/// The part of a path after its leading slash.
pub open spec fn after_slash(path: Seq<u8>) -> Seq<u8> {
    path.subrange(1, path.len() as int)
}

/// Whether `path` is `/user-agent`.
pub open spec fn is_user_agent_route(path: Seq<u8>) -> bool {
    path.len() > 0 && path[0] == SLASH && after_slash(path) == "user-agent".spec_bytes()
}

/// The rest of `path` after `/<first>/`, if `path` has that form: a slash,
/// `first`, which holds no slash, and another slash.
pub open spec fn route_rest(path: Seq<u8>, first: Seq<u8>) -> Option<Seq<u8>> {
    if path.len() > 0 && path[0] == SLASH {
        let rest = after_slash(path);
        let i = find_byte_from(rest, 0, SLASH);
        if i < rest.len() && rest.subrange(0, i) == first {
            Some(rest.subrange(i + 1, rest.len() as int))
        } else {
            None
        }
    } else {
        None
    }
}

/// What `request` lacks that its route cannot do without, if anything.
pub open spec fn misuse_of(files_root: Option<Seq<u8>>, request: RequestModel) -> Option<Misuse> {
    if is_user_agent_route(request.path) {
        if request.headers.contains_key("User-Agent".spec_bytes()) {
            None
        } else {
            Some(Misuse::NoUserAgent)
        }
    } else if route_rest(request.path, "files".spec_bytes()) is Some {
        if files_root is None {
            Some(Misuse::NoFilesRoot)
        } else if request.verb == Verb::Post && request.body is None {
            Some(Misuse::NoBody)
        } else {
            None
        }
    } else {
        None
    }
}

/// The routes, tried in this order on the path:
/// `/` is answered with 200 and no content;
/// `/user-agent` with 200 and the value of `User-Agent` as text;
/// `/echo/<rest>` with 200 and `<rest>` as text, nothing decoded;
/// `/files/<name>` by reading the file on `GET` and writing the body to it
/// on `POST`;
/// everything else, and a path without a leading slash, with 404.
pub open spec fn route(files_root: Option<Seq<u8>>, request: RequestModel) -> ActionModel {
    let path = request.path;
    if path.len() == 0 || path[0] != SLASH {
        ActionModel::Respond(empty_model(not_found()))
    } else if after_slash(path).len() == 0 {
        ActionModel::Respond(empty_model(ok()))
    } else if is_user_agent_route(path) {
        ActionModel::Respond(text_model(ok(), request.headers["User-Agent".spec_bytes()]))
    } else {
        match route_rest(path, "echo".spec_bytes()) {
            Some(text) => ActionModel::Respond(text_model(ok(), text)),
            None => match route_rest(path, "files".spec_bytes()) {
                Some(name) => match request.verb {
                    Verb::Get => ActionModel::ReadFile { root: files_root->0, name },
                    Verb::Post => ActionModel::WriteFile {
                        root: files_root->0,
                        name,
                        contents: request.body->0,
                    },
                },
                None => ActionModel::Respond(empty_model(not_found())),
            },
        }
    }
}

/// Says what `request` lacks that its route cannot do without.
pub fn misuse(configuration: &Configuration, request: &Request) -> (lack: Option<Misuse>)
    ensures
        lack == misuse_of(configuration@, request@),
{
    let path = request.path.as_str();
    let bytes = path.as_bytes();
    let n = bytes.len();
    if n == 0 || bytes[0] != SLASH {
        return None;
    }
    let rest = substr(path, 1, n);
    let rest_bytes = rest.as_bytes();
    if bytes_eq(rest_bytes, "user-agent".as_bytes()) {
        if request.headers.contains("User-Agent") {
            return None;
        } else {
            return Some(Misuse::NoUserAgent);
        }
    }
    let i = index_of_byte(rest_bytes, 0, SLASH);
    if i < rest_bytes.len() && bytes_eq(substr(rest, 0, i).as_bytes(), "files".as_bytes()) {
        if configuration.files_root.is_none() {
            Some(Misuse::NoFilesRoot)
        } else {
            match request.verb {
                Verb::Post => if request.body.is_none() {
                    Some(Misuse::NoBody)
                } else {
                    None
                },
                Verb::Get => None,
            }
        }
    } else {
        None
    }
}

/// Decides what to do with `request`.
pub fn handle_request(configuration: &Configuration, request: &Request) -> (action: Action)
    requires
        misuse_of(configuration@, request@) is None,
    ensures
        action@ == route(configuration@, request@),
{
    let path = request.path.as_str();
    let bytes = path.as_bytes();
    let n = bytes.len();
    if n == 0 || bytes[0] != SLASH {
        return Action::Respond(Response::empty_response(&not_found()));
    }
    let rest = substr(path, 1, n);
    let rest_bytes = rest.as_bytes();
    let m = rest_bytes.len();
    if m == 0 {
        return Action::Respond(Response::empty_response(&ok()));
    }
    if bytes_eq(rest_bytes, "user-agent".as_bytes()) {
        return match request.headers.get("User-Agent") {
            Some(agent) => Action::Respond(Response::text_reponse(&ok(), agent.as_str())),
            None => unreached(),
        };
    }
    let i = index_of_byte(rest_bytes, 0, SLASH);
    if i >= m {
        return Action::Respond(Response::empty_response(&not_found()));
    }
    let first = substr(rest, 0, i);
    let tail = substr(rest, i + 1, m);
    if bytes_eq(first.as_bytes(), "echo".as_bytes()) {
        Action::Respond(Response::text_reponse(&ok(), tail))
    } else if bytes_eq(first.as_bytes(), "files".as_bytes()) {
        let root = match &configuration.files_root {
            Some(root) => root.clone(),
            None => unreached(),
        };
        match request.verb {
            Verb::Get => Action::ReadFile { root, name: tail.to_owned() },
            Verb::Post => match &request.body {
                Some(body) => Action::WriteFile {
                    root,
                    name: tail.to_owned(),
                    contents: body.clone(),
                },
                None => unreached(),
            },
        }
    } else {
        Action::Respond(Response::empty_response(&not_found()))
    }
}

} // verus!
