//! Text and its octets.
//!
//! The library holds text in `String`s and describes it by its UTF-8 octets,
//! the form in which it travels on the wire. Cutting a text at an ASCII octet
//! never splits a character, which is what lets the grammar work on octets.

use vstd::prelude::*;
use vstd::string::*;
use vstd::utf8::*;

verus! {

/// Reads octets as text, with `core::str::from_utf8`.
///
/// Not proved, but taken from the documentation of that function: it
/// succeeds exactly on well-formed UTF-8, and the text it returns consists of
/// the very octets it was given.
#[verifier::external_body]
pub(crate) fn str_from_utf8(bytes: &[u8]) -> (result: Option<&str>)
    ensures
        result is Some <==> valid_utf8(bytes@),
        result matches Some(s) ==> s.spec_bytes() == bytes@,
{
    core::str::from_utf8(bytes).ok()
}

/// In well-formed UTF-8 an ASCII octet is a character of its own: a
/// character starts at it and another one (or the end) directly after it.
pub proof fn lemma_ascii_is_char(bytes: Seq<u8>, index: int)
    requires
        valid_utf8(bytes),
        0 <= index < bytes.len(),
        bytes[index] < 0x80,
    ensures
        is_char_boundary(bytes, index),
        is_char_boundary(bytes, index + 1),
{
    is_char_boundary_iff_not_is_continuation_byte(bytes, index);
    valid_utf8_split(bytes, index);
    let tail = bytes.subrange(index, bytes.len() as int);
    reveal_with_fuel(valid_utf8, 2);
    assert(valid_first_scalar(tail));
    assert(length_of_first_scalar(tail) == 1);
    let rest = pop_first_scalar(tail);
    assert(rest =~= bytes.subrange(index + 1, bytes.len() as int));
    if index + 1 < bytes.len() {
        assert(valid_first_scalar(rest));
        is_char_boundary_iff_not_is_continuation_byte(bytes, index + 1);
        assert(rest[0] == bytes[index + 1]);
    } else {
        is_char_boundary_start_end_of_seq(bytes);
    }
}

/// Whether every octet of `bytes` is ASCII.
pub open spec fn all_ascii(bytes: Seq<u8>) -> bool {
    forall|i: int| 0 <= i < bytes.len() ==> #[trigger] bytes[i] < 0x80
}

/// ASCII is well-formed UTF-8.
pub proof fn lemma_ascii_is_valid(bytes: Seq<u8>)
    requires
        all_ascii(bytes),
    ensures
        valid_utf8(bytes),
{
    assert(bytes.subrange(0, 0) =~= Seq::<u8>::empty());
    assert(partial_valid_utf8(bytes, 0));
    assert forall|i: int| 0 <= 0 <= i < bytes.len() <= bytes.len() implies #[trigger] is_leading_byte_width_1(
        bytes[i],
    ) by {
        assert(bytes[i] < 0x80);
    }
    partial_valid_utf8_extend_ascii_block(bytes, 0, bytes.len() as int);
    assert(bytes.subrange(0, bytes.len() as int) =~= bytes);
}

/// Whether a text with the octets `bytes` may be cut at `index`: at its
/// start, at its end, at an ASCII octet or directly after one.
pub open spec fn cut_point(bytes: Seq<u8>, index: int) -> bool {
    &&& 0 <= index <= bytes.len()
    &&& {
        ||| index == 0
        ||| index == bytes.len()
        ||| bytes[index] < 0x80
        ||| bytes[index - 1] < 0x80
    }
}

/// A cut point of well-formed UTF-8 lies between two characters.
pub proof fn lemma_cut_point_is_boundary(bytes: Seq<u8>, index: int)
    requires
        valid_utf8(bytes),
        cut_point(bytes, index),
    ensures
        is_char_boundary(bytes, index),
{
    if index == 0 || index == bytes.len() {
        is_char_boundary_start_end_of_seq(bytes);
    } else if bytes[index] < 0x80 {
        lemma_ascii_is_char(bytes, index);
    } else {
        lemma_ascii_is_char(bytes, index - 1);
    }
}

/// The part of `s` between the octet offsets `from` and `to`.
pub fn substr<'a>(s: &'a str, from: usize, to: usize) -> (part: &'a str)
    requires
        from <= to,
        cut_point(s.spec_bytes(), from as int),
        cut_point(s.spec_bytes(), to as int),
    ensures
        part.spec_bytes() == s.spec_bytes().subrange(from as int, to as int),
{
    let ghost bytes = s.spec_bytes();
    proof {
        encode_utf8_valid_utf8(s@);
        lemma_cut_point_is_boundary(bytes, to as int);
    }
    let (head, _) = s.split_at(to);
    proof {
        encode_utf8_valid_utf8(head@);
        if from == to {
            is_char_boundary_start_end_of_seq(head.spec_bytes());
        } else {
            lemma_cut_point_is_boundary(bytes, from as int);
            is_char_boundary_iff_not_is_continuation_byte(bytes, from as int);
            is_char_boundary_iff_not_is_continuation_byte(head.spec_bytes(), from as int);
        }
    }
    let (_, part) = head.split_at(from);
    assert(part.spec_bytes() =~= bytes.subrange(from as int, to as int));
    part
}

/// Two texts with the same octets are the same text: a contract that
/// fixes the octets of a text fixes the text.
pub proof fn lemma_same_octets_same_text(a: Seq<char>, b: Seq<char>)
    requires
        encode_utf8(a) == encode_utf8(b),
    ensures
        a == b,
{
    encode_utf8_decode_utf8(a);
    encode_utf8_decode_utf8(b);
}

} // verus!
