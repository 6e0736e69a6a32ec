//! The file routes against a store that works.
//!
//! Reading and writing files is not the library's part. What can be said
//! here is what the routes come to over a store in which every write
//! succeeds and a read finds what was written last.

use crate::bytes::{lemma_find_byte_from_is, SLASH};
use crate::request::{RequestModel, Verb};
use crate::response::{empty_model, file_model, stored_model, ResponseModel};
use crate::route::{after_slash, is_user_agent_route, misuse_of, route, route_rest, ActionModel};
use crate::status::created;
use vstd::prelude::*;
use vstd::string::*;
use vstd::utf8::*;

verus! {

/// The files of a store: the contents under each directory and name.
pub type Files = Map<(Seq<u8>, Seq<u8>), Seq<u8>>;

/// What is under a directory and a name, if anything.
pub open spec fn file_at(files: Files, root: Seq<u8>, name: Seq<u8>) -> Option<Seq<u8>> {
    if files.contains_key((root, name)) {
        Some(files[(root, name)])
    } else {
        None
    }
}

/// The response to `request` and the files after it, over a store that
/// works.
pub open spec fn served(files_root: Option<Seq<u8>>, files: Files, request: RequestModel) -> (
    ResponseModel,
    Files,
) {
    match route(files_root, request) {
        ActionModel::Respond(response) => (response, files),
        ActionModel::ReadFile { root, name } => (file_model(file_at(files, root, name)), files),
        ActionModel::WriteFile { root, name, contents } => (
            stored_model(true),
            files.insert((root, name), contents),
        ),
    }
}

/// The path of the file called `name`.
pub open spec fn file_path(name: Seq<u8>) -> Seq<u8> {
    "/files/".spec_bytes() + name
}

/// The path of a file leads to the file routes, with the name of the
/// file.
pub proof fn lemma_file_path_routes(name: Seq<u8>)
    ensures
        route_rest(file_path(name), "files".spec_bytes()) == Some(name),
        route_rest(file_path(name), "echo".spec_bytes()) is None,
        !is_user_agent_route(file_path(name)),
        after_slash(file_path(name)).len() > 0,
        file_path(name).len() > 0,
        file_path(name)[0] == SLASH,
{
    reveal_strlit("/files/");
    reveal_strlit("files");
    reveal_strlit("echo");
    reveal_strlit("user-agent");
    is_ascii_chars_encode_utf8("/files/"@);
    is_ascii_chars_encode_utf8("files"@);
    is_ascii_chars_encode_utf8("echo"@);
    is_ascii_chars_encode_utf8("user-agent"@);
    let path = file_path(name);
    let prefix = "/files/".spec_bytes();
    let rest = after_slash(path);
    assert forall|i: int| 0 <= i < prefix.len() implies path[i] == prefix[i] by {}
    assert forall|j: int| 0 <= j < 5 implies rest[j] != SLASH by {
        assert(rest[j] == prefix[j + 1]);
    }
    assert(rest[5] == prefix[6]);
    lemma_find_byte_from_is(rest, 0, SLASH, 5);
    assert(rest.subrange(0, 5) =~= "files".spec_bytes());
    assert(rest.subrange(6, rest.len() as int) =~= name);
    assert(rest.subrange(0, 5) != "echo".spec_bytes());
    if rest == "user-agent".spec_bytes() {
        assert(rest[0] == "user-agent".spec_bytes()[0]);
    }
}

/// Over a store that works, posting a body to the path of a file is
/// answered with 201 and no content, and a request for that path after it
/// is answered with 200 and that body.
pub proof fn lemma_get_after_post(
    root: Seq<u8>,
    files: Files,
    name: Seq<u8>,
    body: Seq<u8>,
    post: RequestModel,
    get: RequestModel,
)
    requires
        post.verb == Verb::Post,
        post.path == file_path(name),
        post.body == Some(body),
        get.verb == Verb::Get,
        get.path == file_path(name),
    ensures
        misuse_of(Some(root), post) is None,
        misuse_of(Some(root), get) is None,
        served(Some(root), files, post).0 == empty_model(created()),
        served(Some(root), served(Some(root), files, post).1, get).0 == file_model(Some(body)),
        file_model(Some(body)).code == 200,
        file_model(Some(body)).content matches Some(content) && content.body == body,
{
    lemma_file_path_routes(name);
}

/// Over a store that works, posting the same body to the same path twice
/// is answered with 201 both times, leaves the body under that name after
/// the first time and after the second, and the second time changes
/// nothing.
pub proof fn lemma_post_twice(root: Seq<u8>, files: Files, request: RequestModel, name: Seq<u8>)
    requires
        request.verb == Verb::Post,
        request.path == file_path(name),
        request.body is Some,
    ensures
        misuse_of(Some(root), request) is None,
        served(Some(root), files, request).0 == empty_model(created()),
        served(Some(root), served(Some(root), files, request).1, request).0 == empty_model(
            created(),
        ),
        file_at(served(Some(root), files, request).1, root, name) == request.body,
        served(Some(root), served(Some(root), files, request).1, request).1 == served(
            Some(root),
            files,
            request,
        ).1,
{
    lemma_file_path_routes(name);
    let once = served(Some(root), files, request).1;
    let twice = served(Some(root), once, request).1;
    assert(twice =~= once);
}

} // verus!
