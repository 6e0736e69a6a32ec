//! Searching, comparing and numbering octet sequences.
//!
//! Everything here speaks of plain `Seq<u8>` values; the rest of the library
//! models text by its UTF-8 octets and builds on these definitions.

use vstd::prelude::*;

verus! {

/// Line feed.
pub const LF: u8 = 10;

/// Carriage return.
pub const CR: u8 = 13;

/// Space.
pub const SP: u8 = 32;

/// Plus sign.
pub const PLUS: u8 = 43;

/// Slash.
pub const SLASH: u8 = 47;

/// The digit zero.
pub const ZERO: u8 = 48;

/// The digit nine.
pub const NINE: u8 = 57;

/// Colon.
pub const COLON: u8 = 58;

/// Whether `b` occurs nowhere in `s`.
pub open spec fn free_of(s: Seq<u8>, b: u8) -> bool {
    forall|i: int| 0 <= i < s.len() ==> #[trigger] s[i] != b
}

/// Whether `a` is nowhere in `s` directly followed by `b`.
pub open spec fn pair_free(s: Seq<u8>, a: u8, b: u8) -> bool {
    forall|i: int| !pair_at(s, i, a, b)
}

/// The index of the first occurrence of `b` in `s` at or after `from`, or
/// `s.len()` if there is none.
pub open spec fn find_byte_from(s: Seq<u8>, from: int, b: u8) -> int
    decreases s.len() - from,
{
    if from < 0 || from >= s.len() {
        s.len() as int
    } else if s[from] == b {
        from
    } else {
        find_byte_from(s, from + 1, b)
    }
}

/// Whether `a` stands at index `i` of `s` and `b` directly after it.
pub open spec fn pair_at(s: Seq<u8>, i: int, a: u8, b: u8) -> bool {
    0 <= i && i + 1 < s.len() && s[i] == a && s[i + 1] == b
}

/// The index of the first place at or after `from` where `a` is directly
/// followed by `b`, or `s.len()` if there is none.
pub open spec fn find_pair_from(s: Seq<u8>, from: int, a: u8, b: u8) -> int
    decreases s.len() - from,
{
    if from < 0 || from + 1 >= s.len() {
        s.len() as int
    } else if pair_at(s, from, a, b) {
        from
    } else {
        find_pair_from(s, from + 1, a, b)
    }
}

/// `find_byte_from` returns the least index at or after `from` that holds `b`.
pub proof fn lemma_find_byte_from(s: Seq<u8>, from: int, b: u8)
    requires
        0 <= from <= s.len(),
    ensures
        from <= find_byte_from(s, from, b) <= s.len(),
        find_byte_from(s, from, b) < s.len() ==> s[find_byte_from(s, from, b)] == b,
        forall|j: int| from <= j < find_byte_from(s, from, b) ==> s[j] != b,
    decreases s.len() - from,
{
    if from < s.len() && s[from] != b {
        lemma_find_byte_from(s, from + 1, b);
    }
}

/// An index that holds `b`, with no `b` between `from` and it, is what
/// `find_byte_from` returns; so is `s.len()` when no `b` follows `from`.
pub proof fn lemma_find_byte_from_is(s: Seq<u8>, from: int, b: u8, i: int)
    requires
        0 <= from <= i <= s.len(),
        i < s.len() ==> s[i] == b,
        forall|j: int| from <= j < i ==> s[j] != b,
    ensures
        find_byte_from(s, from, b) == i,
    decreases i - from,
{
    if from < i {
        lemma_find_byte_from_is(s, from + 1, b, i);
    }
}

/// `find_pair_from` returns the least index at or after `from` where the pair
/// stands.
pub proof fn lemma_find_pair_from(s: Seq<u8>, from: int, a: u8, b: u8)
    requires
        0 <= from <= s.len(),
    ensures
        from <= find_pair_from(s, from, a, b) <= s.len(),
        find_pair_from(s, from, a, b) < s.len() ==> pair_at(
            s,
            find_pair_from(s, from, a, b),
            a,
            b,
        ),
        forall|j: int| from <= j < find_pair_from(s, from, a, b) ==> !pair_at(s, j, a, b),
    decreases s.len() - from,
{
    if from + 1 < s.len() && !pair_at(s, from, a, b) {
        lemma_find_pair_from(s, from + 1, a, b);
    }
}

/// An index where the pair stands, with no pair between `from` and it, is
/// what `find_pair_from` returns; so is `s.len()` when no pair follows `from`.
pub proof fn lemma_find_pair_from_is(s: Seq<u8>, from: int, a: u8, b: u8, i: int)
    requires
        0 <= from <= i <= s.len(),
        i < s.len() ==> pair_at(s, i, a, b),
        forall|j: int| from <= j < i ==> !pair_at(s, j, a, b),
    ensures
        find_pair_from(s, from, a, b) == i,
    decreases i - from,
{
    if from < i {
        lemma_find_pair_from_is(s, from + 1, a, b, i);
    }
}

/// Finds the first `b` in `s` at or after `from`.
pub fn index_of_byte(s: &[u8], from: usize, b: u8) -> (i: usize)
    ensures
        i == find_byte_from(s@, from as int, b),
        i <= s@.len(),
        from <= s@.len() ==> from <= i,
        i < s@.len() ==> s@[i as int] == b,
{
    let n = s.len();
    if from >= n {
        return n;
    }
    let mut i: usize = from;
    while i < n && s[i] != b
        invariant
            from <= i <= n,
            n == s@.len(),
            forall|j: int| from <= j < i ==> s@[j] != b,
        decreases n - i,
    {
        i += 1;
    }
    proof {
        lemma_find_byte_from_is(s@, from as int, b, i as int);
    }
    i
}

/// Finds the first place in `s` at or after `from` where `a` is directly
/// followed by `b`.
pub fn index_of_pair(s: &[u8], from: usize, a: u8, b: u8) -> (i: usize)
    ensures
        i == find_pair_from(s@, from as int, a, b),
        i <= s@.len(),
        from <= s@.len() ==> from <= i,
        i < s@.len() ==> pair_at(s@, i as int, a, b),
{
    let n = s.len();
    if from >= n {
        return n;
    }
    let mut i: usize = from;
    while i + 1 < n
        invariant
            from <= i < n,
            n == s@.len(),
            forall|j: int| from <= j < i ==> !pair_at(s@, j, a, b),
        decreases n - i,
    {
        if s[i] == a && s[i + 1] == b {
            proof {
                lemma_find_pair_from_is(s@, from as int, a, b, i as int);
            }
            return i;
        }
        i += 1;
    }
    proof {
        lemma_find_pair_from_is(s@, from as int, a, b, n as int);
    }
    n
}

/// Whether two octet sequences are the same.
pub fn bytes_eq(a: &[u8], b: &[u8]) -> (same: bool)
    ensures
        same <==> a@ == b@,
{
    if a.len() != b.len() {
        return false;
    }
    let n = a.len();
    let mut i: usize = 0;
    while i < n
        invariant
            i <= n,
            n == a@.len(),
            n == b@.len(),
            forall|j: int| 0 <= j < i ==> a@[j] == b@[j],
        decreases n - i,
    {
        if a[i] != b[i] {
            return false;
        }
        i += 1;
    }
    assert(a@ =~= b@);
    true
}

} // verus!
