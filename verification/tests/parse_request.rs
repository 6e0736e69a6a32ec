use http_server::parse::{parse_message, parse_request, read_body, read_headers};
use http_server::headers::Headers;
use http_server::request::{RequestParseError, Verb};

#[test]
fn get_without_headers() {
    let request = parse_request(b"GET /echo/hello HTTP/1.1\r\n\r\n").unwrap();
    assert_eq!(request.verb, Verb::Get);
    assert_eq!(request.path, "/echo/hello");
    assert_eq!(request.version, "HTTP/1.1");
    assert!(request.headers.is_empty());
    assert_eq!(request.headers.len(), 0);
    assert_eq!(request.body, None);
}

#[test]
fn post_without_headers() {
    let request = parse_request(b"POST /files/a?b=c%20d HTTP/1.0\r\n\r\n").unwrap();
    assert_eq!(request.verb, Verb::Post);
    assert_eq!(request.path, "/files/a?b=c%20d");
    assert_eq!(request.version, "HTTP/1.0");
    assert!(request.headers.is_empty());
    assert_eq!(request.body, None);
}

#[test]
fn what_follows_the_blank_line_is_not_read_without_a_length() {
    let request = parse_request(b"GET / HTTP/1.1\r\n\r\nGET /next HTTP/1.1\r\n\r\n").unwrap();
    assert_eq!(request.path, "/");
    assert!(request.headers.is_empty());
    assert_eq!(request.body, None);
}

#[test]
fn headers_are_read_in_order() {
    let request = parse_request(
        b"GET /user-agent HTTP/1.1\r\nHost: localhost:4221\r\nUser-Agent: curl/8.0\r\nAccept: */*\r\n\r\n",
    )
    .unwrap();
    assert_eq!(request.headers.len(), 3);
    assert_eq!(request.headers.get("Host").unwrap(), "localhost:4221");
    assert_eq!(request.headers.get("User-Agent").unwrap(), "curl/8.0");
    assert_eq!(request.headers.get("Accept").unwrap(), "*/*");
    assert_eq!(request.headers.get("Missing"), None);
    assert_eq!(request.body, None);
}

#[test]
fn a_name_that_comes_twice_keeps_the_last_value() {
    let request =
        parse_request(b"GET / HTTP/1.1\r\nX-A: 1\r\nX-B: 2\r\nX-A: 3\r\n\r\n").unwrap();
    assert_eq!(request.headers.len(), 2);
    assert_eq!(request.headers.get("X-A").unwrap(), "3");
    assert_eq!(request.headers.get("X-B").unwrap(), "2");
}

#[test]
fn names_are_told_apart_by_case() {
    let request =
        parse_request(b"GET / HTTP/1.1\r\ncontent-length: 3\r\n\r\nabc").unwrap();
    assert_eq!(request.headers.get("content-length").unwrap(), "3");
    assert_eq!(request.headers.get("Content-Length"), None);
    assert_eq!(request.body, None);
}

#[test]
fn the_value_starts_after_the_first_colon_and_space() {
    let request = parse_request(b"GET / HTTP/1.1\r\nA: b: c\r\nD:e: f\r\n: g\r\n\r\n").unwrap();
    assert_eq!(request.headers.get("A").unwrap(), "b: c");
    assert_eq!(request.headers.get("D:e").unwrap(), "f");
    assert_eq!(request.headers.get("").unwrap(), "g");
}

#[test]
fn only_the_line_ending_is_taken_off_a_line() {
    let request = parse_request(b"GET / HTTP/1.1\r\nA: b \r\nC:  d\r\n\r\n").unwrap();
    assert_eq!(request.headers.get("A").unwrap(), "b ");
    assert_eq!(request.headers.get("C").unwrap(), " d");
}

#[test]
fn a_bare_line_feed_ends_a_line() {
    let request = parse_request(b"GET /x HTTP/1.1\nA: b\n\n").unwrap();
    assert_eq!(request.path, "/x");
    assert_eq!(request.version, "HTTP/1.1");
    assert_eq!(request.headers.get("A").unwrap(), "b");
}

#[test]
fn the_end_of_the_input_ends_the_header_block() {
    let request = parse_request(b"GET /x HTTP/1.1\r\nA: b\r\n").unwrap();
    assert_eq!(request.headers.len(), 1);
    assert_eq!(request.headers.get("A").unwrap(), "b");
    let request = parse_request(b"GET /x HTTP/1.1").unwrap();
    assert_eq!(request.version, "HTTP/1.1");
    assert!(request.headers.is_empty());
}

#[test]
fn parts_after_the_third_are_not_looked_at() {
    let request = parse_request(b"GET /x HTTP/1.1 and more\r\n\r\n").unwrap();
    assert_eq!(request.path, "/x");
    assert_eq!(request.version, "HTTP/1.1");
}

#[test]
fn a_part_may_be_empty() {
    let request = parse_request(b"GET  HTTP/1.1\r\n\r\n").unwrap();
    assert_eq!(request.path, "");
    assert_eq!(request.version, "HTTP/1.1");
}

#[test]
fn the_body_is_as_long_as_content_length_says() {
    let request =
        parse_request(b"POST /files/new.txt HTTP/1.1\r\nContent-Length: 3\r\n\r\nabcdef").unwrap();
    assert_eq!(request.verb, Verb::Post);
    assert_eq!(request.headers.get("Content-Length").unwrap(), "3");
    assert_eq!(request.body, Some(b"abc".to_vec()));
}

#[test]
fn the_body_may_be_empty_and_may_hold_any_octets() {
    let request = parse_request(b"POST /f HTTP/1.1\r\nContent-Length: 0\r\n\r\n").unwrap();
    assert_eq!(request.body, Some(vec![]));
    let request =
        parse_request(b"POST /f HTTP/1.1\r\nContent-Length: 4\r\n\r\n\xff\x00\r\n").unwrap();
    assert_eq!(request.body, Some(vec![0xff, 0x00, 0x0d, 0x0a]));
}

#[test]
fn a_length_may_have_a_plus_sign_and_leading_zeros() {
    let request = parse_request(b"POST /f HTTP/1.1\r\nContent-Length: +002\r\n\r\nabc").unwrap();
    assert_eq!(request.body, Some(b"ab".to_vec()));
}

#[test]
fn unsupported_method() {
    for input in [
        &b"PUT / HTTP/1.1\r\n\r\n"[..],
        b"get / HTTP/1.1\r\n\r\n",
        b"GETS / HTTP/1.1\r\n\r\n",
        b" / HTTP/1.1\r\n\r\n",
        b"HTTP/1.1 200 OK\r\n\r\n",
    ] {
        assert_eq!(parse_request(input).err(), Some(RequestParseError::InvalidVerb));
    }
}

#[test]
fn the_method_is_looked_at_before_the_headers() {
    let result = parse_request(b"PUT / HTTP/1.1\r\nno colon\r\n\r\n");
    assert_eq!(result.err(), Some(RequestParseError::InvalidVerb));
}

#[test]
fn start_line_with_fewer_than_three_parts() {
    for input in [&b""[..], b"\r\n", b"GET\r\n\r\n", b"GET /\r\n\r\n", b"PUT /\r\n\r\n", b"GET /"] {
        assert_eq!(parse_request(input).err(), Some(RequestParseError::InvalidStructure));
    }
}

#[test]
fn start_line_that_is_not_text() {
    let result = parse_request(b"GET /\xff HTTP/1.1\r\n\r\n");
    assert_eq!(result.err(), Some(RequestParseError::CouldNotReadStartLine));
    let result = parse_request(b"\xc3");
    assert_eq!(result.err(), Some(RequestParseError::CouldNotReadStartLine));
}

#[test]
fn text_beyond_ascii_is_kept() {
    let request =
        parse_request("GET /echo/gr\u{fc}\u{df}e HTTP/1.1\r\nX-\u{e9}: \u{20ac}\r\n\r\n".as_bytes())
            .unwrap();
    assert_eq!(request.path, "/echo/gr\u{fc}\u{df}e");
    assert_eq!(request.headers.get("X-\u{e9}").unwrap(), "\u{20ac}");
}

#[test]
fn header_line_that_is_not_text() {
    let result = parse_request(b"GET / HTTP/1.1\r\nA: \xc3\x28\r\n\r\n");
    assert_eq!(result.err(), Some(RequestParseError::CouldNotReadHeader));
}

#[test]
fn header_line_without_colon_and_space() {
    for input in [
        &b"GET / HTTP/1.1\r\nno colon\r\n\r\n"[..],
        b"GET / HTTP/1.1\r\nA:b\r\n\r\n",
        b"GET / HTTP/1.1\r\nA:\r\n\r\n",
        b"GET / HTTP/1.1\r\n \r\n\r\n",
        b"GET / HTTP/1.1\r\nA: b\r\n\r\r\n\r\n",
    ] {
        assert_eq!(parse_request(input).err(), Some(RequestParseError::InvalidHeader));
    }
}

#[test]
fn content_length_that_is_no_number() {
    for value in ["", "abc", "-1", "3 ", " 3", "1.5", "+", "0x10", "99999999999999999999999999"] {
        let input = format!("POST /f HTTP/1.1\r\nContent-Length: {}\r\n\r\nabc", value);
        assert_eq!(
            parse_request(input.as_bytes()).err(),
            Some(RequestParseError::InvalidContentLength)
        );
    }
}

#[test]
fn body_shorter_than_content_length() {
    let result = parse_request(b"POST /f HTTP/1.1\r\nContent-Length: 4\r\n\r\nabc");
    assert_eq!(result.err(), Some(RequestParseError::CouldNotReadBody));
    let result = parse_request(b"POST /f HTTP/1.1\r\nContent-Length: 1\r\n\r\n");
    assert_eq!(result.err(), Some(RequestParseError::CouldNotReadBody));
}

#[test]
fn read_headers_returns_the_position_after_the_blank_line() {
    let input = b"A: 1\r\nB: 2\r\n\r\nrest";
    let (headers, next) = read_headers(input, 0).unwrap();
    assert_eq!(headers.len(), 2);
    assert_eq!(headers.get("A").unwrap(), "1");
    assert_eq!(headers.get("B").unwrap(), "2");
    assert_eq!(next, 14);
    assert_eq!(&input[next..], b"rest");
}

#[test]
fn read_headers_starts_where_it_is_told() {
    let input = b"GET / HTTP/1.1\r\nA: 1\r\n\r\n";
    let (headers, next) = read_headers(input, 16).unwrap();
    assert_eq!(headers.len(), 1);
    assert_eq!(headers.get("A").unwrap(), "1");
    assert_eq!(next, input.len());
    let (headers, next) = read_headers(input, input.len()).unwrap();
    assert!(headers.is_empty());
    assert_eq!(next, input.len());
    let (headers, next) = read_headers(input, 1000).unwrap();
    assert!(headers.is_empty());
    assert_eq!(next, 1000);
}

#[test]
fn read_headers_fails_as_parsing_does() {
    assert_eq!(read_headers(b"A 1\r\n\r\n", 0).err(), Some(RequestParseError::InvalidHeader));
    assert_eq!(
        read_headers(b"A: \x80\r\n\r\n", 0).err(),
        Some(RequestParseError::CouldNotReadHeader)
    );
}

#[test]
fn read_body_takes_what_the_headers_announce() {
    let mut headers = Headers::new();
    assert_eq!(read_body(&headers, b"abcdef", 2), Ok(None));
    headers.insert("Content-Length".to_string(), "3".to_string());
    assert_eq!(read_body(&headers, b"abcdef", 2), Ok(Some(b"cde".to_vec())));
    assert_eq!(read_body(&headers, b"abcdef", 3), Ok(Some(b"def".to_vec())));
    assert_eq!(read_body(&headers, b"abcdef", 4), Err(RequestParseError::CouldNotReadBody));
    assert_eq!(read_body(&headers, b"abcdef", 7), Err(RequestParseError::CouldNotReadBody));
    headers.insert("Content-Length".to_string(), "three".to_string());
    assert_eq!(read_body(&headers, b"abcdef", 0), Err(RequestParseError::InvalidContentLength));
}

#[test]
fn a_message_is_read_whatever_its_start_line_says() {
    let message = parse_message(b"HTTP/1.1 404 Not Found\r\n\r\n\r\n").unwrap();
    assert_eq!(message.start_line, "HTTP/1.1 404 Not Found");
    assert!(message.headers.is_empty());
    assert_eq!(message.body, None);
    let message = parse_message(b"anything\r\nContent-Length: 2\r\n\r\nabc").unwrap();
    assert_eq!(message.start_line, "anything");
    assert_eq!(message.body, Some(b"ab".to_vec()));
    assert_eq!(
        parse_message(b"\xff\r\n\r\n").err(),
        Some(RequestParseError::CouldNotReadStartLine)
    );
    assert_eq!(parse_message(b"x\r\ny\r\n\r\n").err(), Some(RequestParseError::InvalidHeader));
}
