use http_server::grammar::{
    content_length, next_line_end, parse_header_line, parse_start_line, split_start_line,
    strip_line_ending,
};
use http_server::headers::Headers;
use http_server::request::{RequestParseError, Verb};
use http_server::text::substr;

#[test]
fn a_line_ends_after_its_line_feed() {
    let input = b"one\r\ntwo\nthree";
    assert_eq!(next_line_end(input, 0), 5);
    assert_eq!(next_line_end(input, 3), 5);
    assert_eq!(next_line_end(input, 4), 5);
    assert_eq!(next_line_end(input, 5), 9);
    assert_eq!(next_line_end(input, 9), 14);
    assert_eq!(next_line_end(input, 14), 14);
    assert_eq!(next_line_end(input, 99), 14);
    assert_eq!(next_line_end(b"", 0), 0);
    assert_eq!(next_line_end(b"\n", 0), 1);
}

#[test]
fn one_line_ending_is_taken_off() {
    assert_eq!(strip_line_ending("abc\r\n"), "abc");
    assert_eq!(strip_line_ending("abc\n"), "abc");
    assert_eq!(strip_line_ending("abc"), "abc");
    assert_eq!(strip_line_ending("abc\r"), "abc\r");
    assert_eq!(strip_line_ending("abc\r\r\n"), "abc\r");
    assert_eq!(strip_line_ending("abc \t\r\n"), "abc \t");
    assert_eq!(strip_line_ending("abc\n\r"), "abc\n\r");
    assert_eq!(strip_line_ending("\r\n"), "");
    assert_eq!(strip_line_ending("\n"), "");
    assert_eq!(strip_line_ending("\r"), "\r");
    assert_eq!(strip_line_ending(""), "");
    assert_eq!(strip_line_ending("\u{e9}\r\n"), "\u{e9}");
}

#[test]
fn a_start_line_is_split_at_single_spaces() {
    assert_eq!(split_start_line("GET / HTTP/1.1"), Some(("GET", "/", "HTTP/1.1")));
    assert_eq!(split_start_line("a b c d e"), Some(("a", "b", "c")));
    assert_eq!(split_start_line("a  c"), Some(("a", "", "c")));
    assert_eq!(split_start_line("  "), Some(("", "", "")));
    assert_eq!(split_start_line("a b "), Some(("a", "b", "")));
    assert_eq!(split_start_line(" b c"), Some(("", "b", "c")));
    assert_eq!(split_start_line("\u{e9} \u{20ac} \u{fc}"), Some(("\u{e9}", "\u{20ac}", "\u{fc}")));
    assert_eq!(split_start_line("a b"), None);
    assert_eq!(split_start_line("a"), None);
    assert_eq!(split_start_line(" "), None);
    assert_eq!(split_start_line(""), None);
    assert_eq!(split_start_line("a\tb\tc"), None);
}

#[test]
fn the_methods_are_get_and_post() {
    assert_eq!(Verb::from_token("GET"), Some(Verb::Get));
    assert_eq!(Verb::from_token("POST"), Some(Verb::Post));
    for token in ["", "get", "Post", "GE", "GETT", "PUT", "HEAD", "POST ", " GET"] {
        assert_eq!(Verb::from_token(token), None);
    }
}

#[test]
fn a_start_line_is_read() {
    assert_eq!(
        parse_start_line("POST /files/x HTTP/1.1\r\n"),
        Ok((Verb::Post, "/files/x".to_string(), "HTTP/1.1".to_string()))
    );
    assert_eq!(
        parse_start_line("GET / HTTP/1.1"),
        Ok((Verb::Get, "/".to_string(), "HTTP/1.1".to_string()))
    );
    assert_eq!(parse_start_line("GET /\r\n"), Err(RequestParseError::InvalidStructure));
    assert_eq!(parse_start_line("PATCH /\r\n"), Err(RequestParseError::InvalidStructure));
    assert_eq!(parse_start_line("PATCH / HTTP/1.1\r\n"), Err(RequestParseError::InvalidVerb));
    assert_eq!(parse_start_line(""), Err(RequestParseError::InvalidStructure));
}

#[test]
fn a_header_line_is_read() {
    assert_eq!(
        parse_header_line("Host: localhost:4221\r\n"),
        Ok(Some(("Host".to_string(), "localhost:4221".to_string())))
    );
    assert_eq!(parse_header_line("A: \r\n"), Ok(Some(("A".to_string(), "".to_string()))));
    assert_eq!(parse_header_line(": \r\n"), Ok(Some(("".to_string(), "".to_string()))));
    assert_eq!(parse_header_line("A: b"), Ok(Some(("A".to_string(), "b".to_string()))));
    assert_eq!(parse_header_line("A : b: c\n"), Ok(Some(("A ".to_string(), "b: c".to_string()))));
    assert_eq!(parse_header_line("\r\n"), Ok(None));
    assert_eq!(parse_header_line("\n"), Ok(None));
    assert_eq!(parse_header_line(""), Ok(None));
    assert_eq!(parse_header_line("A:b\r\n"), Err(RequestParseError::InvalidHeader));
    assert_eq!(parse_header_line("A\r\n"), Err(RequestParseError::InvalidHeader));
    assert_eq!(parse_header_line(":\r\n"), Err(RequestParseError::InvalidHeader));
    assert_eq!(parse_header_line("\r\r\n"), Err(RequestParseError::InvalidHeader));
    assert_eq!(parse_header_line("  \r\n"), Err(RequestParseError::InvalidHeader));
}

#[test]
fn the_length_of_the_body_is_read_from_the_headers() {
    let mut headers = Headers::new();
    assert_eq!(content_length(&headers), Ok(None));
    headers.insert("content-length".to_string(), "1".to_string());
    assert_eq!(content_length(&headers), Ok(None));
    headers.insert("Content-Length".to_string(), "12".to_string());
    assert_eq!(content_length(&headers), Ok(Some(12)));
    headers.insert("Content-Length".to_string(), "0".to_string());
    assert_eq!(content_length(&headers), Ok(Some(0)));
    headers.insert("Content-Length".to_string(), "-1".to_string());
    assert_eq!(content_length(&headers), Err(RequestParseError::InvalidContentLength));
    headers.insert("Content-Length".to_string(), "".to_string());
    assert_eq!(content_length(&headers), Err(RequestParseError::InvalidContentLength));
}

#[test]
fn a_part_of_a_text_is_cut_out() {
    assert_eq!(substr("hello world", 0, 5), "hello");
    assert_eq!(substr("hello world", 6, 11), "world");
    assert_eq!(substr("hello world", 5, 6), " ");
    assert_eq!(substr("hello world", 3, 3), "");
    assert_eq!(substr("hello world", 0, 11), "hello world");
    assert_eq!(substr("\u{e9} \u{e9}", 0, 2), "\u{e9}");
    assert_eq!(substr("\u{e9} \u{e9}", 3, 5), "\u{e9}");
}
