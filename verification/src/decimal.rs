//! Decimal numerals: how a length or a status code is written on the wire,
//! and how a `Content-Length` value is read back.

use crate::bytes::{NINE, PLUS, ZERO};
use vstd::prelude::*;

verus! {

/// Whether `b` is one of the digits `0` to `9`.
pub open spec fn is_digit(b: u8) -> bool {
    ZERO <= b <= NINE
}

/// Whether every octet of `s` is a digit.
pub open spec fn all_digits(s: Seq<u8>) -> bool {
    forall|i: int| 0 <= i < s.len() ==> is_digit(#[trigger] s[i])
}

/// The number that the digit string `s` denotes in base ten; 0 for the empty
/// string.
pub open spec fn digits_value(s: Seq<u8>) -> nat
    decreases s.len(),
{
    if s.len() == 0 {
        0
    } else {
        digits_value(s.drop_last()) * 10 + (s.last() - ZERO) as nat
    }
}

/// The decimal numeral of `n`, without sign or leading zeros.
pub open spec fn decimal(n: nat) -> Seq<u8>
    decreases n,
{
    if n < 10 {
        seq![(ZERO + n) as u8]
    } else {
        decimal(n / 10).push((ZERO + n % 10) as u8)
    }
}

/// Where the digits of a numeral start: after one leading plus sign, if
/// there is one.
pub open spec fn digits_start(s: Seq<u8>) -> int {
    if s.len() > 0 && s[0] == PLUS {
        1
    } else {
        0
    }
}

/// The number that `s` denotes, if `s` is a numeral: an optional plus sign
/// followed by one or more digits and nothing else.
pub open spec fn parse_decimal(s: Seq<u8>) -> Option<nat> {
    let digits = s.subrange(digits_start(s), s.len() as int);
    if digits.len() > 0 && all_digits(digits) {
        Some(digits_value(digits))
    } else {
        None
    }
}

/// The number that `s` denotes, if `s` is a numeral and the number fits a
/// `usize`.
pub open spec fn parse_decimal_usize(s: Seq<u8>) -> Option<usize> {
    match parse_decimal(s) {
        Some(v) => if v <= usize::MAX {
            Some(v as usize)
        } else {
            None
        },
        None => None,
    }
}

/// A numeral made by `decimal` is a non-empty string of digits that denotes
/// the number it was made from.
pub proof fn lemma_decimal_is_numeral(n: nat)
    ensures
        decimal(n).len() > 0,
        all_digits(decimal(n)),
        digits_value(decimal(n)) == n,
    decreases n,
{
    if n < 10 {
        let s = decimal(n);
        assert(s.drop_last() =~= Seq::<u8>::empty());
        assert(digits_value(s.drop_last()) == 0);
    } else {
        lemma_decimal_is_numeral(n / 10);
        let s = decimal(n);
        assert(s.drop_last() =~= decimal(n / 10));
    }
}

/// Reading a numeral made by `decimal` gives the number back.
pub proof fn lemma_parse_decimal_of_decimal(n: nat)
    ensures
        parse_decimal(decimal(n)) == Some(n),
{
    lemma_decimal_is_numeral(n);
    let s = decimal(n);
    assert(is_digit(s[0]));
    assert(s.subrange(0, s.len() as int) =~= s);
}

/// Reads a numeral into a `usize`.
pub fn parse_usize(s: &[u8]) -> (result: Option<usize>)
    ensures
        result == parse_decimal_usize(s@),
{
    let n = s.len();
    let start: usize = if n > 0 && s[0] == PLUS {
        1
    } else {
        0
    };
    if start == n {
        return None;
    }
    let ghost digits = s@.subrange(start as int, n as int);
    let mut acc: usize = 0;
    let mut overflow = false;
    let mut i: usize = start;
    while i < n
        invariant
            start <= i <= n,
            n == s@.len(),
            start == digits_start(s@),
            digits == s@.subrange(start as int, n as int),
            all_digits(digits.subrange(0, i - start)),
            !overflow ==> acc == digits_value(digits.subrange(0, i - start)),
            overflow ==> digits_value(digits.subrange(0, i - start)) > usize::MAX,
        decreases n - i,
    {
        let b = s[i];
        if b < ZERO || b > NINE {
            assert(!is_digit(digits[i - start]));
            return None;
        }
        let ghost shorter = digits.subrange(0, i - start);
        let ghost longer = digits.subrange(0, i + 1 - start);
        assert(longer.drop_last() =~= shorter);
        assert(longer.last() == b);
        assert forall|j: int| 0 <= j < longer.len() implies is_digit(#[trigger] longer[j]) by {
            if j < shorter.len() {
                assert(longer[j] == shorter[j]);
            }
        }
        let d: usize = (b - ZERO) as usize;
        if !overflow {
            match acc.checked_mul(10) {
                Some(m) => match m.checked_add(d) {
                    Some(v) => {
                        acc = v;
                    },
                    None => {
                        overflow = true;
                    },
                },
                None => {
                    overflow = true;
                },
            }
        }
        i += 1;
    }
    proof {
        assert(digits.subrange(0, n - start) =~= digits);
    }
    if overflow {
        None
    } else {
        Some(acc)
    }
}

/// Appends the decimal numeral of `n` to `out`.
pub fn push_decimal(out: &mut Vec<u8>, n: usize)
    ensures
        final(out)@ == old(out)@ + decimal(n as nat),
    decreases n,
{
    if n < 10 {
        out.push(ZERO + n as u8);
        assert(final(out)@ =~= old(out)@ + decimal(n as nat));
    } else {
        push_decimal(out, n / 10);
        out.push(ZERO + (n % 10) as u8);
        assert(final(out)@ =~= old(out)@ + decimal(n as nat));
    }
}

} // verus!
