//! Cutting text at single-byte separators.
//!
//! Contracts speak of a string as its sequence of characters. The executable
//! code scans the UTF-8 bytes instead, which is sound for a separator below
//! `0x80`: such a byte never occurs inside the encoding of another character.

use vstd::prelude::*;
use vstd::string::*;
use vstd::utf8::*;

verus! {

/// The index of the first occurrence of `c` in `s`, or `s.len()` where there is none.
pub open spec fn first_at(s: Seq<char>, c: char) -> int
    decreases s.len(),
{
    if s.len() == 0 {
        0
    } else if s[0] == c {
        0
    } else {
        1 + first_at(s.drop_first(), c)
    }
}

/// What stands in `s` before the first `c`: all of `s` where there is none.
pub open spec fn before(s: Seq<char>, c: char) -> Seq<char> {
    s.subrange(0, first_at(s, c))
}

/// What stands in `s` behind the first `c`, if there is one.
pub open spec fn after(s: Seq<char>, c: char) -> Option<Seq<char>> {
    let k = first_at(s, c);
    if 0 <= k < s.len() {
        Some(s.subrange(k + 1, s.len() as int))
    } else {
        None
    }
}

/// The pieces of `s` between occurrences of `c`. There is always at least one
/// piece, and a trailing `c` is followed by an empty piece.
pub open spec fn split(s: Seq<char>, c: char) -> Seq<Seq<char>>
    decreases s.len(),
{
    let k = first_at(s, c);
    if 0 <= k < s.len() {
        seq![s.subrange(0, k)] + split(s.subrange(k + 1, s.len() as int), c)
    } else {
        seq![s]
    }
}

/// The lower-case form of an ASCII capital letter; any other character itself.
pub open spec fn lower(c: char) -> char {
    if 'A' <= c <= 'Z' {
        ((c as u8 + 32) as u8) as char
    } else {
        c
    }
}

/// `a` and `b` are equal but for the case of their ASCII letters.
pub open spec fn same_ignoring_case(a: Seq<char>, b: Seq<char>) -> bool {
    &&& a.len() == b.len()
    &&& forall|i: int| 0 <= i < a.len() ==> lower(#[trigger] a[i]) == lower(b[i])
}

/// `first_at` is an index of `s` or its length, nothing before it is `c`, and
/// where it is an index, `c` stands there.
pub proof fn lemma_first_at(s: Seq<char>, c: char)
    ensures
        0 <= first_at(s, c) <= s.len(),
        forall|j: int| 0 <= j < first_at(s, c) ==> s[j] != c,
        first_at(s, c) < s.len() ==> s[first_at(s, c)] == c,
    decreases s.len(),
{
    if s.len() > 0 && s[0] != c {
        let t = s.drop_first();
        lemma_first_at(t, c);
        assert forall|j: int| 0 <= j < first_at(s, c) implies s[j] != c by {
            if j > 0 {
                assert(s[j] == t[j - 1]);
            }
        }
    }
}

/// Only one position is what `first_at` describes.
pub proof fn lemma_first_at_is(s: Seq<char>, c: char, k: int)
    requires
        0 <= k <= s.len(),
        forall|j: int| 0 <= j < k ==> s[j] != c,
        k < s.len() ==> s[k] == c,
    ensures
        first_at(s, c) == k,
{
    lemma_first_at(s, c);
}

/// An encoding has at least as many bytes as the text has characters.
pub proof fn lemma_encoding_not_shorter(s: Seq<char>)
    ensures
        s.len() <= encode_utf8(s).len(),
    decreases s.len(),
{
    if s.len() > 0 {
        lemma_encoding_not_shorter(s.drop_first());
    }
}

/// A character below `0x80` that occurs in `s` occurs as a byte in the
/// encoding of `s`.
proof fn lemma_char_occurs_as_byte(s: Seq<char>, c: char, j: int)
    requires
        0 <= j < s.len(),
        s[j] == c,
        c <= '\u{7f}',
    ensures
        exists|i: int| 0 <= i < encode_utf8(s).len() && encode_utf8(s)[i] == c as u8,
    decreases j,
{
    let head = encode_scalar(s[0] as u32);
    let tail = encode_utf8(s.drop_first());
    assert(encode_utf8(s) == head + tail);
    if j == 0 {
        let v = c as u32;
        assert(v as u8 == leading_byte_width_1(v)) by (bit_vector)
            requires
                v <= 0x7f,
        ;
        assert(encode_utf8(s)[0] == c as u8);
    } else {
        lemma_char_occurs_as_byte(s.drop_first(), c, j - 1);
        let i = choose|i: int| 0 <= i < tail.len() && tail[i] == c as u8;
        assert(encode_utf8(s)[head.len() + i] == tail[i]);
    }
}

/// Where no byte of the encoding of `s` is the code of `c`, `c` does not
/// occur in `s`.
proof fn lemma_byte_absent(s: Seq<char>, c: char)
    requires
        c <= '\u{7f}',
        forall|i: int| 0 <= i < encode_utf8(s).len() ==> encode_utf8(s)[i] != c as u8,
    ensures
        forall|j: int| 0 <= j < s.len() ==> s[j] != c,
{
    assert forall|j: int| 0 <= j < s.len() implies s[j] != c by {
        if s[j] == c {
            lemma_char_occurs_as_byte(s, c, j);
        }
    }
}

/// The encoding of a single character below `0x80` is the one byte of its code.
proof fn lemma_encode_single(c: char)
    requires
        c <= '\u{7f}',
    ensures
        encode_utf8(seq![c]) == seq![c as u8],
{
    let v = c as u32;
    assert(v as u8 == leading_byte_width_1(v)) by (bit_vector)
        requires
            v <= 0x7f,
    ;
    reveal_with_fuel(encode_utf8, 2);
    assert(seq![c].drop_first() =~= Seq::<char>::empty());
    assert(encode_utf8(seq![c]) =~= seq![c as u8]);
}

/// Cuts `s` at the first occurrence of the separator: what stands before it,
/// and what stands behind it if the separator occurs at all.
pub(crate) fn cut<'a>(s: &'a str, sep: char) -> (parts: (&'a str, Option<&'a str>))
    requires
        sep <= '\u{7f}',
    ensures
        parts.0@ == before(s@, sep),
        match parts.1 {
            Some(rest) => after(s@, sep) == Some(rest@),
            None => after(s@, sep) is None,
        },
{
    let bytes = s.as_bytes();
    let b = sep as u8;
    let mut k: usize = 0;
    while k < bytes.len() && bytes[k] != b
        invariant
            k <= bytes.len(),
            forall|i: int| 0 <= i < k ==> bytes@[i] != b,
        decreases bytes.len() - k,
    {
        k += 1;
    }
    proof {
        encode_utf8_valid_utf8(s@);
        encode_utf8_decode_utf8(s@);
    }
    if k == bytes.len() {
        proof {
            lemma_byte_absent(s@, sep);
            lemma_first_at_is(s@, sep, s@.len() as int);
            assert(s@.subrange(0, s@.len() as int) =~= s@);
        }
        (s, None)
    } else {
        proof {
            is_char_boundary_iff_not_is_continuation_byte(bytes@, k as int);
        }
        let (head, tail) = s.split_at(k);
        proof {
            encode_utf8_valid_utf8(tail@);
            reveal_with_fuel(is_char_boundary, 2);
            assert(tail.spec_bytes()[0] == b);
            assert(is_char_boundary(tail.spec_bytes(), 1));
        }
        let (mid, rest) = tail.split_at(1);
        proof {
            encode_utf8_decode_utf8(head@);
            encode_utf8_decode_utf8(tail@);
            encode_utf8_decode_utf8(mid@);
            encode_utf8_decode_utf8(rest@);
            decode_utf8_split(bytes@, k as int);
            decode_utf8_split(tail.spec_bytes(), 1);
            assert(s@ =~= head@ + tail@);
            assert(tail@ =~= mid@ + rest@);
            lemma_encode_single(sep);
            encode_utf8_decode_utf8(seq![sep]);
            assert(mid.spec_bytes() =~= seq![b]);
            assert(mid@ == seq![sep]);
            lemma_byte_absent(head@, sep);
            let n = head@.len() as int;
            assert(s@[n] == sep);
            assert forall|j: int| 0 <= j < n implies s@[j] != sep by {
                assert(s@[j] == head@[j]);
            }
            lemma_first_at_is(s@, sep, n);
            assert(s@.subrange(0, n) =~= head@);
            assert(s@.subrange(n + 1, s@.len() as int) =~= rest@);
        }
        (head, Some(rest))
    }
}

/// Tells whether `s` begins with the character `c`.
pub(crate) fn starts_with(s: &str, c: char) -> (r: bool)
    requires
        c <= '\u{7f}',
    ensures
        r == (s@.len() > 0 && s@[0] == c),
{
    let bytes = s.as_bytes();
    proof {
        lemma_encoding_not_shorter(s@);
    }
    if bytes.len() == 0 {
        return false;
    }
    proof {
        let first = bytes@[0];
        let v = c as u32;
        encode_utf8_first_scalar(s@);
        char_u32_cast(s@[0], s@[0] as u32);
        assert(v as u8 == leading_byte_width_1(v)) by (bit_vector)
            requires
                v <= 0x7f,
        ;
        assert(first < 0x80 ==> (first & 0x7f) as u32 == first as u32) by (bit_vector);
    }
    bytes[0] == c as u8
}

/// Tells whether two strings hold the same characters.
pub fn equals(a: &str, b: &str) -> (r: bool)
    ensures
        r == (a@ == b@),
{
    let left = a.as_bytes();
    let right = b.as_bytes();
    proof {
        encode_utf8_decode_utf8(a@);
        encode_utf8_decode_utf8(b@);
    }
    if left.len() != right.len() {
        return false;
    }
    let mut i: usize = 0;
    while i < left.len()
        invariant
            i <= left.len(),
            left@ == encode_utf8(a@),
            right@ == encode_utf8(b@),
            left@.len() == right@.len(),
            forall|j: int| 0 <= j < i ==> left@[j] == right@[j],
        decreases left.len() - i,
    {
        if left[i] != right[i] {
            return false;
        }
        i += 1;
    }
    assert(left@ =~= right@);
    true
}

fn lower_byte(b: u8) -> (r: u8)
    requires
        b < 0x80,
    ensures
        r == lower(b as char) as u8,
        r < 0x80,
{
    if 65 <= b && b <= 90 {
        b + 32
    } else {
        b
    }
}

/// Compares `value` with a token of ASCII characters, ignoring the case of
/// ASCII letters.
pub(crate) fn equals_ignoring_case(value: &str, token: &str) -> (r: bool)
    requires
        is_ascii_chars(token@),
    ensures
        r == same_ignoring_case(value@, token@),
{
    let wanted = token.as_bytes();
    proof {
        is_ascii_chars_encode_utf8(token@);
    }
    if !value.is_ascii() {
        proof {
            if value@.len() == token@.len() {
                let i = choose|i: int|
                    0 <= i < value@.len() && !('\0' <= #[trigger] value@[i] <= '\u{7f}');
                assert(lower(value@[i]) != lower(token@[i]));
            }
        }
        return false;
    }
    let given = value.as_bytes();
    proof {
        is_ascii_chars_encode_utf8(value@);
    }
    if given.len() != wanted.len() {
        return false;
    }
    let mut i: usize = 0;
    while i < given.len()
        invariant
            i <= given.len(),
            given@.len() == value@.len(),
            wanted@.len() == token@.len(),
            given@.len() == wanted@.len(),
            is_ascii_chars(value@),
            is_ascii_chars(token@),
            forall|j: int| 0 <= j < value@.len() ==> value@[j] as u8 == given@[j],
            forall|j: int| 0 <= j < token@.len() ==> token@[j] as u8 == wanted@[j],
            forall|j: int| 0 <= j < i ==> lower(#[trigger] value@[j]) == lower(token@[j]),
        decreases given.len() - i,
    {
        let ghost a = value@[i as int];
        let ghost b = token@[i as int];
        assert(a as u8 as char == a && b as u8 as char == b);
        if lower_byte(given[i]) != lower_byte(wanted[i]) {
            assert(lower(a) != lower(b));
            return false;
        }
        assert(lower(a) as u8 as char == lower(a) && lower(b) as u8 as char == lower(b));
        i += 1;
    }
    true
}

} // verus!
