//! What is written is what is read.
//!
//! A request line, a block of header lines or a whole response, written
//! out as octets and read again, gives back what was written. The
//! statements hold of the functions of `parse` and `response` through the
//! specifications that their contracts are stated in.

use crate::bytes::{free_of, lemma_find_byte_from_is, lemma_find_pair_from_is, pair_at, pair_free};
use crate::bytes::{COLON, CR, LF, SP};
use crate::decimal::{
    decimal, is_digit, lemma_decimal_is_numeral, lemma_parse_decimal_of_decimal, parse_decimal,
};
use crate::grammar::{
    header_line, line_end, line_text, start_line, start_tokens, verb_of, verb_token,
};
use crate::parse::{headers_from, headers_in, message_in, request_in, MessageModel};
use crate::request::{RequestModel, RequestParseError, Verb};
use crate::response::{crlf, empty_model, header_field, status_line, text_model, wire_form};
use crate::status::StatusCode;
use crate::text::{all_ascii, lemma_ascii_is_valid};
use vstd::prelude::*;
use vstd::string::*;
use vstd::utf8::*;

verus! {

/// A line that holds no LF and ends in CR LF is found whole, and taking
/// its line ending off leaves the text.
pub proof fn lemma_line_at(input: Seq<u8>, pos: int, text: Seq<u8>)
    requires
        0 <= pos,
        pos + text.len() + 2 <= input.len(),
        input.subrange(pos, pos + text.len()) == text,
        input[pos + text.len()] == CR,
        input[pos + text.len() + 1] == LF,
        free_of(text, LF),
    ensures
        line_end(input, pos) == pos + text.len() + 2,
        input.subrange(pos, pos + text.len() + 2) == text + crlf(),
        line_text(text + crlf()) == text,
{
    let lf = pos + text.len() + 1;
    assert forall|j: int| pos <= j < lf implies input[j] != LF by {
        if j < pos + text.len() {
            assert(input[j] == input.subrange(pos, pos + text.len())[j - pos]);
            assert(text[j - pos] != LF);
        }
    }
    lemma_find_byte_from_is(input, pos, LF, lf);
    assert(input.subrange(pos, pos + text.len() + 2) =~= text + crlf()) by {
        assert forall|j: int| 0 <= j < text.len() + 2 implies input.subrange(
            pos,
            pos + text.len() + 2,
        )[j] == (text + crlf())[j] by {
            if j < text.len() {
                assert(input[pos + j] == input.subrange(pos, pos + text.len())[j]);
            }
        }
    }
    let line = text + crlf();
    assert(line.subrange(0, line.len() - 2) =~= text);
}

/// Three parts that hold no space, written with single spaces between
/// them, are the three parts of the line.
pub proof fn lemma_start_tokens(first: Seq<u8>, second: Seq<u8>, third: Seq<u8>)
    requires
        free_of(first, SP),
        free_of(second, SP),
        free_of(third, SP),
    ensures
        start_tokens(first + seq![SP] + second + seq![SP] + third) == Some((first, second, third)),
{
    let text = first + seq![SP] + second + seq![SP] + third;
    let i = first.len() as int;
    let j = i + 1 + second.len();
    let k = text.len() as int;
    assert forall|x: int| 0 <= x < i implies text[x] != SP by {
        assert(text[x] == first[x]);
    }
    lemma_find_byte_from_is(text, 0, SP, i);
    assert forall|x: int| i + 1 <= x < j implies text[x] != SP by {
        assert(text[x] == second[x - i - 1]);
    }
    lemma_find_byte_from_is(text, i + 1, SP, j);
    assert forall|x: int| j + 1 <= x < k implies text[x] != SP by {
        assert(text[x] == third[x - j - 1]);
    }
    lemma_find_byte_from_is(text, j + 1, SP, k);
    assert(text.subrange(0, i) =~= first);
    assert(text.subrange(i + 1, j) =~= second);
    assert(text.subrange(j + 1, k) =~= third);
}

/// A name that holds no `": "`, written with `": "`, a value and a line
/// ending after it, is read as that name and that value.
pub proof fn lemma_header_line(name: Seq<u8>, value: Seq<u8>)
    requires
        pair_free(name, COLON, SP),
    ensures
        header_line(header_field(name, value)) == Ok::<
            Option<(Seq<u8>, Seq<u8>)>,
            RequestParseError,
        >(Some((name, value))),
{
    let text = name + seq![COLON, SP] + value;
    let line = header_field(name, value);
    assert(line =~= text + crlf());
    assert(line.subrange(0, line.len() - 2) =~= text);
    assert(line_text(line) == text);
    let i = name.len() as int;
    assert(pair_at(text, i, COLON, SP));
    assert forall|j: int| 0 <= j < i implies !pair_at(text, j, COLON, SP) by {
        if j + 1 < i {
            assert(!pair_at(name, j, COLON, SP));
            assert(text[j] == name[j]);
            assert(text[j + 1] == name[j + 1]);
        }
    }
    lemma_find_pair_from_is(text, 0, COLON, SP, i);
    assert(text.subrange(0, i) =~= name);
    assert(text.subrange(i + 2, text.len() as int) =~= value);
}

/// Whether a name and a value can stand in a header line: both are text,
/// neither holds an LF, and the name holds no `": "`.
pub open spec fn field_ok(field: (Seq<u8>, Seq<u8>)) -> bool {
    &&& valid_utf8(field.0)
    &&& valid_utf8(field.1)
    &&& free_of(field.0, LF)
    &&& free_of(field.1, LF)
    &&& pair_free(field.0, COLON, SP)
}

/// Whether each of `fields` can stand in a header line.
pub open spec fn fields_ok(fields: Seq<(Seq<u8>, Seq<u8>)>) -> bool {
    forall|i: int| 0 <= i < fields.len() ==> field_ok(#[trigger] fields[i])
}

/// The header lines of `fields`, one after the other.
pub open spec fn header_block(fields: Seq<(Seq<u8>, Seq<u8>)>) -> Seq<u8>
    decreases fields.len(),
{
    if fields.len() == 0 {
        Seq::empty()
    } else {
        header_field(fields[0].0, fields[0].1) + header_block(fields.drop_first())
    }
}

/// The mapping after `fields` were written into `headers` one after the
/// other.
pub open spec fn written(headers: Map<Seq<u8>, Seq<u8>>, fields: Seq<(Seq<u8>, Seq<u8>)>) -> Map<
    Seq<u8>,
    Seq<u8>,
>
    decreases fields.len(),
{
    if fields.len() == 0 {
        headers
    } else {
        written(headers.insert(fields[0].0, fields[0].1), fields.drop_first())
    }
}

/// A line ending is text, and so is `": "`.
proof fn lemma_separators_valid()
    ensures
        valid_utf8(crlf()),
        valid_utf8(seq![COLON, SP]),
        valid_utf8(seq![SP]),
{
    assert(all_ascii(crlf()));
    lemma_ascii_is_valid(crlf());
    assert(all_ascii(seq![COLON, SP]));
    lemma_ascii_is_valid(seq![COLON, SP]);
    assert(all_ascii(seq![SP]));
    lemma_ascii_is_valid(seq![SP]);
}

/// The header line of a name and a value that are text is text.
proof fn lemma_header_field_valid(name: Seq<u8>, value: Seq<u8>)
    requires
        valid_utf8(name),
        valid_utf8(value),
    ensures
        valid_utf8(header_field(name, value)),
{
    lemma_separators_valid();
    valid_utf8_concat(name, seq![COLON, SP]);
    valid_utf8_concat(name + seq![COLON, SP], value);
    valid_utf8_concat(name + seq![COLON, SP] + value, crlf());
}

/// Reading a block of header lines that a blank line ends, wherever it
/// stands in the input, writes the fields of the block, in their order, into
/// the mapping, and stops directly after the blank line.
pub proof fn lemma_headers_from_block(
    before: Seq<u8>,
    fields: Seq<(Seq<u8>, Seq<u8>)>,
    after: Seq<u8>,
    headers: Map<Seq<u8>, Seq<u8>>,
)
    requires
        fields_ok(fields),
    ensures
        headers_from(
            before + header_block(fields) + crlf() + after,
            before.len() as int,
            headers,
        ) == Ok::<(Map<Seq<u8>, Seq<u8>>, int), RequestParseError>(
            (written(headers, fields), (before.len() + header_block(fields).len() + 2) as int),
        ),
    decreases fields.len(),
{
    let input = before + header_block(fields) + crlf() + after;
    let pos = before.len() as int;
    lemma_separators_valid();
    if fields.len() == 0 {
        let text = Seq::<u8>::empty();
        assert(input.subrange(pos, pos) =~= text);
        lemma_line_at(input, pos, text);
        assert(text + crlf() =~= crlf());
        assert(line_text(crlf()) == text);
    } else {
        let name = fields[0].0;
        let value = fields[0].1;
        let rest = fields.drop_first();
        let text = name + seq![COLON, SP] + value;
        let line = header_field(name, value);
        assert(field_ok(fields[0]));
        assert(line =~= text + crlf());
        assert(input.subrange(pos, pos + text.len()) =~= text);
        assert(free_of(text, LF)) by {
            assert forall|i: int| 0 <= i < text.len() implies #[trigger] text[i] != LF by {
                if i < name.len() {
                    assert(text[i] == name[i]);
                } else if i >= name.len() + 2 {
                    assert(text[i] == value[i - name.len() - 2]);
                }
            }
        }
        lemma_line_at(input, pos, text);
        lemma_header_field_valid(name, value);
        lemma_header_line(name, value);
        assert(fields_ok(rest)) by {
            assert forall|i: int| 0 <= i < rest.len() implies field_ok(#[trigger] rest[i]) by {
                assert(rest[i] == fields[i + 1]);
            }
        }
        lemma_headers_from_block(before + line, rest, after, headers.insert(name, value));
        assert(input =~= before + line + header_block(rest) + crlf() + after);
    }
}

/// The names in the mapping after `fields` were written are those that
/// were there before and those of `fields`.
pub proof fn lemma_written_names(
    headers: Map<Seq<u8>, Seq<u8>>,
    fields: Seq<(Seq<u8>, Seq<u8>)>,
    name: Seq<u8>,
)
    ensures
        written(headers, fields).contains_key(name) <==> headers.contains_key(name) || exists|
            i: int,
        |
            0 <= i < fields.len() && (#[trigger] fields[i]).0 == name,
    decreases fields.len(),
{
    if fields.len() > 0 {
        let rest = fields.drop_first();
        let next = headers.insert(fields[0].0, fields[0].1);
        lemma_written_names(next, rest, name);
        if written(headers, fields).contains_key(name) && !headers.contains_key(name) {
            if next.contains_key(name) {
                assert(fields[0].0 == name);
            } else {
                let i = choose|i: int| 0 <= i < rest.len() && (#[trigger] rest[i]).0 == name;
                assert(fields[i + 1].0 == name);
            }
        }
        if exists|i: int| 0 <= i < fields.len() && (#[trigger] fields[i]).0 == name {
            let i = choose|i: int| 0 <= i < fields.len() && (#[trigger] fields[i]).0 == name;
            if i > 0 {
                assert(rest[i - 1].0 == name);
            }
        }
    }
}

/// A name that no field is written under keeps the value it had.
proof fn lemma_written_keeps(
    headers: Map<Seq<u8>, Seq<u8>>,
    fields: Seq<(Seq<u8>, Seq<u8>)>,
    name: Seq<u8>,
)
    requires
        headers.contains_key(name),
        forall|i: int| 0 <= i < fields.len() ==> (#[trigger] fields[i]).0 != name,
    ensures
        written(headers, fields).contains_key(name),
        written(headers, fields)[name] == headers[name],
    decreases fields.len(),
{
    if fields.len() > 0 {
        let rest = fields.drop_first();
        assert(fields[0].0 != name);
        assert forall|i: int| 0 <= i < rest.len() implies (#[trigger] rest[i]).0 != name by {
            assert(rest[i] == fields[i + 1]);
        }
        lemma_written_keeps(headers.insert(fields[0].0, fields[0].1), rest, name);
    }
}

/// After `fields` were written, a name has the value of the last field
/// that was written under it.
pub proof fn lemma_written_last_wins(
    headers: Map<Seq<u8>, Seq<u8>>,
    fields: Seq<(Seq<u8>, Seq<u8>)>,
    i: int,
)
    requires
        0 <= i < fields.len(),
        forall|j: int| i < j < fields.len() ==> (#[trigger] fields[j]).0 != fields[i].0,
    ensures
        written(headers, fields).contains_key(fields[i].0),
        written(headers, fields)[fields[i].0] == fields[i].1,
    decreases fields.len(),
{
    let rest = fields.drop_first();
    let next = headers.insert(fields[0].0, fields[0].1);
    if i == 0 {
        assert forall|j: int| 0 <= j < rest.len() implies (#[trigger] rest[j]).0 != fields[0].0 by {
            assert(rest[j] == fields[j + 1]);
        }
        lemma_written_keeps(next, rest, fields[0].0);
    } else {
        assert(rest[i - 1] == fields[i]);
        assert forall|j: int| i - 1 < j < rest.len() implies (#[trigger] rest[j]).0 != rest[i
            - 1].0 by {
            assert(rest[j] == fields[j + 1]);
        }
        lemma_written_last_wins(next, rest, i - 1);
    }
}

/// Reading a block of well-formed header lines that a blank line ends
/// succeeds. The mapping that it gives holds each name of the block, and no
/// other, and under each name the value of the last line with that name.
pub proof fn lemma_header_block_read(fields: Seq<(Seq<u8>, Seq<u8>)>)
    requires
        fields_ok(fields),
    ensures
        headers_in(header_block(fields) + crlf(), 0) == Ok::<
            (Map<Seq<u8>, Seq<u8>>, int),
            RequestParseError,
        >((written(Map::empty(), fields), (header_block(fields).len() + 2) as int)),
        forall|name: Seq<u8>|
            written(Map::empty(), fields).contains_key(name) <==> exists|i: int|
                0 <= i < fields.len() && (#[trigger] fields[i]).0 == name,
        forall|i: int|
            0 <= i < fields.len() && (forall|j: int|
                i < j < fields.len() ==> (#[trigger] fields[j]).0 != fields[i].0) ==> written(
                Map::empty(),
                fields,
            )[(#[trigger] fields[i]).0] == fields[i].1,
{
    let empty = Seq::<u8>::empty();
    lemma_headers_from_block(empty, fields, empty, Map::empty());
    assert(empty + header_block(fields) + crlf() + empty =~= header_block(fields) + crlf());
    assert forall|name: Seq<u8>|
        written(Map::empty(), fields).contains_key(name) <==> exists|i: int|
            0 <= i < fields.len() && (#[trigger] fields[i]).0 == name by {
        lemma_written_names(Map::empty(), fields, name);
    }
    assert forall|i: int|
        0 <= i < fields.len() && (forall|j: int|
            i < j < fields.len() ==> (#[trigger] fields[j]).0 != fields[i].0) implies written(
        Map::empty(),
        fields,
    )[(#[trigger] fields[i]).0] == fields[i].1 by {
        lemma_written_last_wins(Map::empty(), fields, i);
    }
}

/// The octets of the names of the methods.
proof fn lemma_verb_tokens()
    ensures
        "GET".spec_bytes() == seq![71u8, 69u8, 84u8],
        "POST".spec_bytes() == seq![80u8, 79u8, 83u8, 84u8],
{
    reveal_strlit("GET");
    reveal_strlit("POST");
    is_ascii_chars_encode_utf8("GET"@);
    is_ascii_chars_encode_utf8("POST"@);
    assert("GET".spec_bytes() =~= seq![71u8, 69u8, 84u8]);
    assert("POST".spec_bytes() =~= seq![80u8, 79u8, 83u8, 84u8]);
}

/// Whether `token` can stand as a part of a start line: it is text and
/// holds neither a space nor an LF.
pub open spec fn token_ok(token: Seq<u8>) -> bool {
    &&& valid_utf8(token)
    &&& free_of(token, SP)
    &&& free_of(token, LF)
}

/// The start line of a request with its line ending: the method, the path
/// and the version, a space between each two.
pub open spec fn request_line(verb: Verb, path: Seq<u8>, version: Seq<u8>) -> Seq<u8> {
    verb_token(verb) + seq![SP] + path + seq![SP] + version + crlf()
}

/// A start line made of a method, a path and a version, with a blank line
/// after it, is read as the request with that method, that path and that
/// version, without headers and without a body, whatever follows the blank
/// line.
pub proof fn lemma_request_line_read(verb: Verb, path: Seq<u8>, version: Seq<u8>, after: Seq<u8>)
    requires
        token_ok(path),
        token_ok(version),
    ensures
        request_in(request_line(verb, path, version) + crlf() + after) == Ok::<
            RequestModel,
            RequestParseError,
        >(RequestModel { verb, path, version, headers: Map::empty(), body: None }),
{
    let method = verb_token(verb);
    let text = method + seq![SP] + path + seq![SP] + version;
    let line = request_line(verb, path, version);
    let input = line + crlf() + after;
    lemma_verb_tokens();
    lemma_separators_valid();
    assert(line =~= text + crlf());
    assert(input.subrange(0, text.len() as int) =~= text);
    assert(free_of(text, LF)) by {
        assert forall|i: int| 0 <= i < text.len() implies #[trigger] text[i] != LF by {
            if i < method.len() {
                assert(text[i] == method[i]);
            } else if method.len() < i < method.len() + 1 + path.len() {
                assert(text[i] == path[i - method.len() - 1]);
            } else if i > method.len() + 1 + path.len() {
                assert(text[i] == version[i - method.len() - path.len() - 2]);
            }
        }
    }
    lemma_line_at(input, 0, text);
    assert(valid_utf8(line)) by {
        assert(all_ascii(method));
        lemma_ascii_is_valid(method);
        valid_utf8_concat(method, seq![SP]);
        valid_utf8_concat(method + seq![SP], path);
        valid_utf8_concat(method + seq![SP] + path, seq![SP]);
        valid_utf8_concat(method + seq![SP] + path + seq![SP], version);
        valid_utf8_concat(text, crlf());
    }
    assert(free_of(method, SP));
    lemma_start_tokens(method, path, version);
    assert(verb_of(method) == Some(verb));
    assert(start_line(line) == Ok::<(Verb, Seq<u8>, Seq<u8>), RequestParseError>(
        (verb, path, version),
    ));
    let none = Seq::<(Seq<u8>, Seq<u8>)>::empty();
    assert(fields_ok(none));
    lemma_headers_from_block(line, none, after, Map::empty());
    assert(line + header_block(none) + crlf() + after =~= input);
    assert(!Map::<Seq<u8>, Seq<u8>>::empty().contains_key("Content-Length".spec_bytes()));
}

/// The octets of what a response is written with.
proof fn lemma_response_literals()
    ensures
        free_of("HTTP/1.1 ".spec_bytes(), LF),
        free_of("Content-Type".spec_bytes(), LF),
        free_of("Content-Length".spec_bytes(), LF),
        free_of("text/plain".spec_bytes(), LF),
        pair_free("Content-Type".spec_bytes(), COLON, SP),
        pair_free("Content-Length".spec_bytes(), COLON, SP),
        "Content-Type".spec_bytes() != "Content-Length".spec_bytes(),
{
    reveal_strlit("HTTP/1.1 ");
    reveal_strlit("Content-Type");
    reveal_strlit("Content-Length");
    reveal_strlit("text/plain");
    is_ascii_chars_encode_utf8("HTTP/1.1 "@);
    is_ascii_chars_encode_utf8("Content-Type"@);
    is_ascii_chars_encode_utf8("Content-Length"@);
    is_ascii_chars_encode_utf8("text/plain"@);
    let name = "Content-Type".spec_bytes();
    assert forall|i: int| !pair_at(name, i, COLON, SP) by {
        if 0 <= i < name.len() {
            assert(name[i] == "Content-Type"@[i] as u8);
        }
    }
    let name = "Content-Length".spec_bytes();
    assert forall|i: int| !pair_at(name, i, COLON, SP) by {
        if 0 <= i < name.len() {
            assert(name[i] == "Content-Length"@[i] as u8);
        }
    }
}

/// A decimal numeral is text without an LF.
proof fn lemma_decimal_is_text(n: nat)
    ensures
        valid_utf8(decimal(n)),
        free_of(decimal(n), LF),
{
    lemma_decimal_is_numeral(n);
    let s = decimal(n);
    assert forall|i: int| 0 <= i < s.len() implies #[trigger] s[i] < 0x80 && s[i] != LF by {
        assert(is_digit(s[i]));
    }
    lemma_ascii_is_valid(s);
}

/// The headers that a response with content is written with.
pub open spec fn content_headers(mime_type: Seq<u8>, length: nat) -> Map<Seq<u8>, Seq<u8>> {
    Map::<Seq<u8>, Seq<u8>>::empty().insert("Content-Type".spec_bytes(), mime_type).insert(
        "Content-Length".spec_bytes(),
        decimal(length),
    )
}

/// A response with text, written out and read again as a message, gives
/// the status line that was written, a `Content-Type` of `text/plain`, a
/// `Content-Length` that is the number of octets of the text, and the text
/// itself as the body.
pub proof fn lemma_text_response_read_back(status: StatusCode, text: Seq<u8>)
    requires
        free_of(status.status.spec_bytes(), LF),
        text.len() <= usize::MAX,
    ensures
        message_in(wire_form(text_model(status, text))) == Ok::<MessageModel, RequestParseError>(
            MessageModel {
                start_line: "HTTP/1.1 ".spec_bytes() + decimal(status.code as nat) + seq![SP]
                    + status.status.spec_bytes(),
                headers: content_headers("text/plain".spec_bytes(), text.len()),
                body: Some(text),
            },
        ),
        parse_decimal(content_headers("text/plain".spec_bytes(), text.len())["Content-Length".spec_bytes()])
            == Some(text.len()),
{
    let reason = status.status.spec_bytes();
    let code = decimal(status.code as nat);
    let length = decimal(text.len());
    let mime = "text/plain".spec_bytes();
    let first = "HTTP/1.1 ".spec_bytes() + code + seq![SP] + reason;
    let head = status_line(status.code, reason);
    let input = wire_form(text_model(status, text));
    let fields = seq![("Content-Type".spec_bytes(), mime), ("Content-Length".spec_bytes(), length)];
    lemma_response_literals();
    lemma_separators_valid();
    lemma_decimal_is_text(status.code as nat);
    lemma_decimal_is_text(text.len());
    lemma_parse_decimal_of_decimal(text.len());
    encode_utf8_valid_utf8(status.status@);
    encode_utf8_valid_utf8("HTTP/1.1 "@);
    encode_utf8_valid_utf8("Content-Type"@);
    encode_utf8_valid_utf8("Content-Length"@);
    encode_utf8_valid_utf8("text/plain"@);

    assert(head =~= first + crlf());
    assert(header_block(fields) =~= header_field("Content-Type".spec_bytes(), mime) + header_field(
        "Content-Length".spec_bytes(),
        length,
    )) by {
        let rest = fields.drop_first();
        assert(rest.drop_first() =~= Seq::<(Seq<u8>, Seq<u8>)>::empty());
        assert(header_block(rest.drop_first()) =~= Seq::<u8>::empty());
        assert(header_block(rest) =~= header_field("Content-Length".spec_bytes(), length));
    }
    assert(written(Map::empty(), fields) == content_headers(mime, text.len())) by {
        let rest = fields.drop_first();
        assert(rest.drop_first() =~= Seq::<(Seq<u8>, Seq<u8>)>::empty());
        let one = Map::<Seq<u8>, Seq<u8>>::empty().insert("Content-Type".spec_bytes(), mime);
        assert(written(one.insert("Content-Length".spec_bytes(), length), rest.drop_first())
            == one.insert("Content-Length".spec_bytes(), length));
        assert(written(one, rest) == one.insert("Content-Length".spec_bytes(), length));
    }
    assert(input =~= head + header_block(fields) + crlf() + text);

    assert(input.subrange(0, first.len() as int) =~= first);
    assert(free_of(first, LF)) by {
        let prefix = "HTTP/1.1 ".spec_bytes();
        assert forall|i: int| 0 <= i < first.len() implies #[trigger] first[i] != LF by {
            if i < prefix.len() {
                assert(first[i] == prefix[i]);
            } else if i < prefix.len() + code.len() {
                assert(first[i] == code[i - prefix.len()]);
            } else if i > prefix.len() + code.len() {
                assert(first[i] == reason[i - prefix.len() - code.len() - 1]);
            }
        }
    }
    lemma_line_at(input, 0, first);
    assert(valid_utf8(head)) by {
        let prefix = "HTTP/1.1 ".spec_bytes();
        valid_utf8_concat(prefix, code);
        valid_utf8_concat(prefix + code, seq![SP]);
        valid_utf8_concat(prefix + code + seq![SP], reason);
        valid_utf8_concat(first, crlf());
    }
    assert(fields_ok(fields));
    lemma_headers_from_block(head, fields, text, Map::empty());
    let next = (head.len() + header_block(fields).len() + 2) as int;
    assert(input.subrange(next, next + text.len()) =~= text);
}

/// A response without content, written out and read again as a message,
/// gives the status line that was written, no headers and no body.
pub proof fn lemma_empty_response_read_back(status: StatusCode)
    requires
        free_of(status.status.spec_bytes(), LF),
    ensures
        message_in(wire_form(empty_model(status))) == Ok::<MessageModel, RequestParseError>(
            MessageModel {
                start_line: "HTTP/1.1 ".spec_bytes() + decimal(status.code as nat) + seq![SP]
                    + status.status.spec_bytes(),
                headers: Map::empty(),
                body: None,
            },
        ),
{
    let reason = status.status.spec_bytes();
    let code = decimal(status.code as nat);
    let prefix = "HTTP/1.1 ".spec_bytes();
    let first = prefix + code + seq![SP] + reason;
    let head = status_line(status.code, reason);
    let input = wire_form(empty_model(status));
    lemma_response_literals();
    lemma_separators_valid();
    lemma_decimal_is_text(status.code as nat);
    encode_utf8_valid_utf8(status.status@);
    encode_utf8_valid_utf8("HTTP/1.1 "@);
    assert(head =~= first + crlf());
    assert(input =~= head + crlf() + crlf());
    assert(input.subrange(0, first.len() as int) =~= first);
    assert(free_of(first, LF)) by {
        assert forall|i: int| 0 <= i < first.len() implies #[trigger] first[i] != LF by {
            if i < prefix.len() {
                assert(first[i] == prefix[i]);
            } else if i < prefix.len() + code.len() {
                assert(first[i] == code[i - prefix.len()]);
            } else if i > prefix.len() + code.len() {
                assert(first[i] == reason[i - prefix.len() - code.len() - 1]);
            }
        }
    }
    lemma_line_at(input, 0, first);
    assert(valid_utf8(head)) by {
        valid_utf8_concat(prefix, code);
        valid_utf8_concat(prefix + code, seq![SP]);
        valid_utf8_concat(prefix + code + seq![SP], reason);
        valid_utf8_concat(first, crlf());
    }
    let none = Seq::<(Seq<u8>, Seq<u8>)>::empty();
    assert(fields_ok(none));
    lemma_headers_from_block(head, none, crlf(), Map::empty());
    assert(head + header_block(none) + crlf() + crlf() =~= input);
    assert(!Map::<Seq<u8>, Seq<u8>>::empty().contains_key("Content-Length".spec_bytes()));
}

} // verus!
