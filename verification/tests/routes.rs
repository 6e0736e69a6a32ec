use http_server::headers::Headers;
use http_server::request::{Request, Verb};
use http_server::response::{Content, Response};
use http_server::route::{handle_request, misuse, Action, Configuration, Misuse};
use http_server::status::{not_found, ok};

fn request(verb: Verb, path: &str) -> Request {
    Request {
        verb,
        path: path.to_string(),
        version: "HTTP/1.1".to_string(),
        headers: Headers::new(),
        body: None,
    }
}

fn no_root() -> Configuration {
    Configuration { files_root: None }
}

fn root(directory: &str) -> Configuration {
    Configuration { files_root: Some(directory.to_string()) }
}

fn text(body: &str) -> Action {
    Action::Respond(Response {
        status_code: ok(),
        content: Some(Content { mime_type: "text/plain", content: body.as_bytes().to_vec() }),
    })
}

fn empty_ok() -> Action {
    Action::Respond(Response { status_code: ok(), content: None })
}

fn empty_not_found() -> Action {
    Action::Respond(Response { status_code: not_found(), content: None })
}

#[test]
fn configuration_from_arguments() {
    let args = |list: &[&str]| list.iter().map(|a| a.to_string()).collect::<Vec<String>>();
    assert_eq!(Configuration::from_args(&args(&[])), no_root());
    assert_eq!(Configuration::from_args(&args(&["server"])), no_root());
    assert_eq!(Configuration::from_args(&args(&["server", "--directory"])), no_root());
    assert_eq!(Configuration::from_args(&args(&["server", "--directory", "/tmp/x"])), root("/tmp/x"));
    assert_eq!(
        Configuration::from_args(&args(&["server", "--directory", "/tmp/x", "more"])),
        root("/tmp/x")
    );
    assert_eq!(Configuration::from_args(&args(&["server", "--dir", "/tmp/x"])), no_root());
    assert_eq!(
        Configuration::from_args(&args(&["server", "-v", "--directory", "/tmp/x"])),
        no_root()
    );
    assert_eq!(Configuration::from_args(&args(&["--directory", "/tmp/x"])), no_root());
}

#[test]
fn the_root_path_is_answered_with_ok() {
    assert_eq!(handle_request(&no_root(), &request(Verb::Get, "/")), empty_ok());
    assert_eq!(handle_request(&no_root(), &request(Verb::Post, "/")), empty_ok());
}

#[test]
fn get_echo_hello() {
    let action = handle_request(&no_root(), &request(Verb::Get, "/echo/hello"));
    assert_eq!(action, text("hello"));
    match action {
        Action::Respond(response) => assert_eq!(
            response.serialize(),
            b"HTTP/1.1 200 OK\r\nContent-Type: text/plain\r\nContent-Length: 5\r\n\r\nhello".to_vec()
        ),
        _ => panic!("a response was expected"),
    }
}

#[test]
fn echo_sends_the_rest_of_the_path_as_it_is() {
    assert_eq!(handle_request(&no_root(), &request(Verb::Post, "/echo/hello")), text("hello"));
    assert_eq!(handle_request(&no_root(), &request(Verb::Get, "/echo/")), text(""));
    assert_eq!(handle_request(&no_root(), &request(Verb::Get, "/echo/a/b?c=%20d")), text("a/b?c=%20d"));
    assert_eq!(handle_request(&no_root(), &request(Verb::Get, "/echo//")), text("/"));
    assert_eq!(
        handle_request(&no_root(), &request(Verb::Get, "/echo/gr\u{fc}n")),
        text("gr\u{fc}n")
    );
}

#[test]
fn get_user_agent() {
    let mut get = request(Verb::Get, "/user-agent");
    get.headers.insert("User-Agent".to_string(), "curl/8.0".to_string());
    assert_eq!(misuse(&no_root(), &get), None);
    let action = handle_request(&no_root(), &get);
    assert_eq!(action, text("curl/8.0"));
    match action {
        Action::Respond(response) => assert_eq!(
            response.serialize(),
            b"HTTP/1.1 200 OK\r\nContent-Type: text/plain\r\nContent-Length: 8\r\n\r\ncurl/8.0"
                .to_vec()
        ),
        _ => panic!("a response was expected"),
    }
}

#[test]
fn get_nonexistent() {
    let action = handle_request(&no_root(), &request(Verb::Get, "/nonexistent"));
    assert_eq!(action, empty_not_found());
    match action {
        Action::Respond(response) => {
            assert_eq!(response.serialize(), b"HTTP/1.1 404 Not Found\r\n\r\n\r\n".to_vec())
        },
        _ => panic!("a response was expected"),
    }
}

#[test]
fn what_is_no_route_is_not_found() {
    for path in [
        "",
        "echo/hello",
        "user-agent",
        "/echo",
        "/files",
        "/user-agent/",
        "/user-agent/x",
        "/Echo/x",
        "/echoes/x",
        "/file/x",
        "//echo/x",
        "/a/b",
        "http://localhost/",
    ] {
        assert_eq!(misuse(&root("/tmp"), &request(Verb::Get, path)), None);
        assert_eq!(handle_request(&root("/tmp"), &request(Verb::Get, path)), empty_not_found());
        assert_eq!(handle_request(&no_root(), &request(Verb::Post, path)), empty_not_found());
    }
}

#[test]
fn get_files_asks_for_the_file() {
    assert_eq!(
        handle_request(&root("/srv"), &request(Verb::Get, "/files/missing.txt")),
        Action::ReadFile { root: "/srv".to_string(), name: "missing.txt".to_string() }
    );
    assert_eq!(
        handle_request(&root("/srv"), &request(Verb::Get, "/files/a/b.txt")),
        Action::ReadFile { root: "/srv".to_string(), name: "a/b.txt".to_string() }
    );
    assert_eq!(
        handle_request(&root("/srv"), &request(Verb::Get, "/files/")),
        Action::ReadFile { root: "/srv".to_string(), name: "".to_string() }
    );
}

#[test]
fn get_files_missing() {
    let action = handle_request(&root("/srv/empty"), &request(Verb::Get, "/files/missing.txt"));
    assert_eq!(
        action,
        Action::ReadFile { root: "/srv/empty".to_string(), name: "missing.txt".to_string() }
    );
    let response = Response::file_response(None);
    assert_eq!(response.status_code.code, 404);
    assert_eq!(response.content, None);
    assert_eq!(response.serialize(), b"HTTP/1.1 404 Not Found\r\n\r\n\r\n".to_vec());
}

#[test]
fn post_files_asks_for_the_body_to_be_written() {
    let mut post = request(Verb::Post, "/files/new.txt");
    post.headers.insert("Content-Length".to_string(), "3".to_string());
    post.body = Some(b"abc".to_vec());
    assert_eq!(misuse(&root("/srv"), &post), None);
    assert_eq!(
        handle_request(&root("/srv"), &post),
        Action::WriteFile {
            root: "/srv".to_string(),
            name: "new.txt".to_string(),
            contents: b"abc".to_vec()
        }
    );
}

#[test]
fn what_a_route_cannot_do_without() {
    assert_eq!(
        misuse(&no_root(), &request(Verb::Get, "/user-agent")),
        Some(Misuse::NoUserAgent)
    );
    let mut lower = request(Verb::Get, "/user-agent");
    lower.headers.insert("user-agent".to_string(), "curl/8.0".to_string());
    assert_eq!(misuse(&no_root(), &lower), Some(Misuse::NoUserAgent));
    assert_eq!(misuse(&no_root(), &request(Verb::Get, "/files/x")), Some(Misuse::NoFilesRoot));
    assert_eq!(misuse(&no_root(), &request(Verb::Post, "/files/x")), Some(Misuse::NoFilesRoot));
    assert_eq!(misuse(&root("/srv"), &request(Verb::Post, "/files/x")), Some(Misuse::NoBody));
    assert_eq!(misuse(&root("/srv"), &request(Verb::Get, "/files/x")), None);
    assert_eq!(misuse(&no_root(), &request(Verb::Get, "/echo/x")), None);
    assert_eq!(misuse(&no_root(), &request(Verb::Get, "/")), None);
    assert_eq!(misuse(&no_root(), &request(Verb::Get, "files/x")), None);
    let mut post = request(Verb::Post, "/files/x");
    post.body = Some(vec![]);
    assert_eq!(misuse(&root("/srv"), &post), None);
    assert_eq!(misuse(&no_root(), &post), Some(Misuse::NoFilesRoot));
}
