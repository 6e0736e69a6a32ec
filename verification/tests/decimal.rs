use http_server::bytes::{bytes_eq, index_of_byte, index_of_pair};
use http_server::decimal::{parse_usize, push_decimal};

#[test]
fn numerals_are_read() {
    assert_eq!(parse_usize(b"0"), Some(0));
    assert_eq!(parse_usize(b"7"), Some(7));
    assert_eq!(parse_usize(b"42"), Some(42));
    assert_eq!(parse_usize(b"007"), Some(7));
    assert_eq!(parse_usize(b"+15"), Some(15));
    assert_eq!(parse_usize(b"1234567890"), Some(1234567890));
    assert_eq!(parse_usize(usize::MAX.to_string().as_bytes()), Some(usize::MAX));
}

#[test]
fn what_is_no_numeral_is_not_read() {
    for input in
        [&b""[..], b"+", b"-", b"-0", b"++1", b"1+", b" 1", b"1 ", b"1_000", b"12a", b"a12", b"/", b":"]
    {
        assert_eq!(parse_usize(input), None);
    }
}

#[test]
fn a_numeral_that_does_not_fit_is_not_read() {
    let mut too_large = usize::MAX.to_string().into_bytes();
    too_large.push(b'0');
    assert_eq!(parse_usize(&too_large), None);
    let mut next = usize::MAX.to_string().into_bytes();
    let last = next.len() - 1;
    next[last] += 1;
    assert_eq!(parse_usize(&next), None);
    assert_eq!(parse_usize(b"99999999999999999999999999999999999999x"), None);
}

#[test]
fn numerals_are_written() {
    for (n, expected) in [
        (0usize, &b"0"[..]),
        (5, b"5"),
        (9, b"9"),
        (10, b"10"),
        (200, b"200"),
        (404, b"404"),
        (65535, b"65535"),
        (1234567890, b"1234567890"),
    ] {
        let mut out = b"n=".to_vec();
        push_decimal(&mut out, n);
        assert_eq!(&out[..2], b"n=");
        assert_eq!(&out[2..], expected);
    }
}

#[test]
fn what_is_written_is_read_back() {
    for n in [0usize, 1, 9, 10, 99, 100, 12345, usize::MAX - 1, usize::MAX] {
        let mut out = Vec::new();
        push_decimal(&mut out, n);
        assert_eq!(out, n.to_string().into_bytes());
        assert_eq!(parse_usize(&out), Some(n));
    }
}

#[test]
fn the_first_octet_is_found() {
    assert_eq!(index_of_byte(b"a b c", 0, b' '), 1);
    assert_eq!(index_of_byte(b"a b c", 1, b' '), 1);
    assert_eq!(index_of_byte(b"a b c", 2, b' '), 3);
    assert_eq!(index_of_byte(b"a b c", 4, b' '), 5);
    assert_eq!(index_of_byte(b"a b c", 5, b' '), 5);
    assert_eq!(index_of_byte(b"a b c", 9, b' '), 5);
    assert_eq!(index_of_byte(b"", 0, b' '), 0);
}

#[test]
fn the_first_pair_is_found() {
    assert_eq!(index_of_pair(b"a: b: c", 0, b':', b' '), 1);
    assert_eq!(index_of_pair(b"a: b: c", 2, b':', b' '), 4);
    assert_eq!(index_of_pair(b"a: b: c", 5, b':', b' '), 7);
    assert_eq!(index_of_pair(b"a:b :c:", 0, b':', b' '), 7);
    assert_eq!(index_of_pair(b": ", 0, b':', b' '), 0);
    assert_eq!(index_of_pair(b":", 0, b':', b' '), 1);
    assert_eq!(index_of_pair(b"", 3, b':', b' '), 0);
}

#[test]
fn octets_are_compared() {
    assert!(bytes_eq(b"", b""));
    assert!(bytes_eq(b"GET", b"GET"));
    assert!(!bytes_eq(b"GET", b"GEt"));
    assert!(!bytes_eq(b"GET", b"GE"));
    assert!(!bytes_eq(b"GE", b"GET"));
}
