//! Percent-encoding of query components and paths.
//!
//! A query component (a parameter name or value) is encoded by taking the
//! UTF-8 bytes of the string and rendering each byte as itself (unreserved
//! bytes), as `+` (the space byte), or as `%XX` with upper-case hex digits.
//! A path keeps `/` and the unreserved bytes and percent-encodes the rest.
//! The decoding direction is specified as well, so that round-trip facts can
//! be stated and proved about built URLs.

use vstd::prelude::*;
use vstd::utf8::encode_utf8;

verus! {

/// Bytes that query and path encoding pass through unchanged:
/// ASCII digits, letters, and `*`, `-`, `.`, `_`.
pub open spec fn is_unreserved_byte(b: u8) -> bool {
    (0x30 <= b <= 0x39) || (0x41 <= b <= 0x5a) || (0x61 <= b <= 0x7a) || b == 0x2a || b == 0x2d
        || b == 0x2e || b == 0x5f
}

/// Upper-case hex digit for a nibble.
pub open spec fn hex_digit(n: u8) -> char
    recommends
        n < 16,
{
    if n == 0 {
        '0'
    } else if n == 1 {
        '1'
    } else if n == 2 {
        '2'
    } else if n == 3 {
        '3'
    } else if n == 4 {
        '4'
    } else if n == 5 {
        '5'
    } else if n == 6 {
        '6'
    } else if n == 7 {
        '7'
    } else if n == 8 {
        '8'
    } else if n == 9 {
        '9'
    } else if n == 10 {
        'A'
    } else if n == 11 {
        'B'
    } else if n == 12 {
        'C'
    } else if n == 13 {
        'D'
    } else if n == 14 {
        'E'
    } else {
        'F'
    }
}

/// Query encoding of a single byte: space becomes `+`, unreserved bytes stay,
/// everything else becomes `%XX`.
pub open spec fn pct_byte(b: u8) -> Seq<char> {
    if b == 0x20 {
        seq!['+']
    } else if is_unreserved_byte(b) {
        seq![b as char]
    } else {
        seq!['%', hex_digit(b / 16), hex_digit(b % 16)]
    }
}

/// Query encoding of a byte sequence.
pub open spec fn pct_bytes(bs: Seq<u8>) -> Seq<char>
    decreases bs.len(),
{
    if bs.len() == 0 {
        Seq::empty()
    } else {
        pct_byte(bs[0]) + pct_bytes(bs.drop_first())
    }
}

/// Query encoding of a string: its UTF-8 bytes, percent-encoded.
pub open spec fn encoded_component(s: Seq<char>) -> Seq<char> {
    pct_bytes(encode_utf8(s))
}

/// Path encoding of a single byte: `/` and unreserved bytes stay, everything
/// else (the space byte included) becomes `%XX`.
pub open spec fn pct_path_byte(b: u8) -> Seq<char> {
    if b == 0x2f || is_unreserved_byte(b) {
        seq![b as char]
    } else {
        seq!['%', hex_digit(b / 16), hex_digit(b % 16)]
    }
}

/// Path encoding of a byte sequence.
pub open spec fn pct_path_bytes(bs: Seq<u8>) -> Seq<char>
    decreases bs.len(),
{
    if bs.len() == 0 {
        Seq::empty()
    } else {
        pct_path_byte(bs[0]) + pct_path_bytes(bs.drop_first())
    }
}

/// Path encoding of a string: its UTF-8 bytes, percent-encoded with `/` kept.
pub open spec fn encoded_path(s: Seq<char>) -> Seq<char> {
    pct_path_bytes(encode_utf8(s))
}

pub proof fn lemma_pct_bytes_concat(a: Seq<u8>, b: Seq<u8>)
    ensures
        pct_bytes(a + b) == pct_bytes(a) + pct_bytes(b),
    decreases a.len(),
{
    if a.len() == 0 {
        assert(a + b =~= b);
        assert(pct_bytes(a) + pct_bytes(b) =~= pct_bytes(b));
    } else {
        lemma_pct_bytes_concat(a.drop_first(), b);
        assert((a + b).drop_first() =~= a.drop_first() + b);
        assert(pct_byte(a[0]) + (pct_bytes(a.drop_first()) + pct_bytes(b)) =~= (pct_byte(a[0])
            + pct_bytes(a.drop_first())) + pct_bytes(b));
    }
}

pub proof fn lemma_pct_path_bytes_concat(a: Seq<u8>, b: Seq<u8>)
    ensures
        pct_path_bytes(a + b) == pct_path_bytes(a) + pct_path_bytes(b),
    decreases a.len(),
{
    if a.len() == 0 {
        assert(a + b =~= b);
        assert(pct_path_bytes(a) + pct_path_bytes(b) =~= pct_path_bytes(b));
    } else {
        lemma_pct_path_bytes_concat(a.drop_first(), b);
        assert((a + b).drop_first() =~= a.drop_first() + b);
        assert(pct_path_byte(a[0]) + (pct_path_bytes(a.drop_first()) + pct_path_bytes(b)) =~= (
        pct_path_byte(a[0]) + pct_path_bytes(a.drop_first())) + pct_path_bytes(b));
    }
}

/// Relies on `String::push` from std: appends exactly one character.
#[verifier::external_body]
pub(crate) fn push_char(s: &mut String, c: char)
    ensures
        final(s)@ == old(s)@.push(c),
{
    s.push(c);
}

fn unreserved(b: u8) -> (r: bool)
    ensures
        r == is_unreserved_byte(b),
{
    (0x30 <= b && b <= 0x39) || (0x41 <= b && b <= 0x5a) || (0x61 <= b && b <= 0x7a) || b == 0x2a
        || b == 0x2d || b == 0x2e || b == 0x5f
}

fn hex_upper(n: u8) -> (c: char)
    requires
        n < 16,
    ensures
        c == hex_digit(n),
{
    match n {
        0 => '0',
        1 => '1',
        2 => '2',
        3 => '3',
        4 => '4',
        5 => '5',
        6 => '6',
        7 => '7',
        8 => '8',
        9 => '9',
        10 => 'A',
        11 => 'B',
        12 => 'C',
        13 => 'D',
        14 => 'E',
        _ => 'F',
    }
}

proof fn lemma_pct_bytes_snoc(bs: Seq<u8>, i: int)
    requires
        0 <= i < bs.len(),
    ensures
        pct_bytes(bs.subrange(0, i + 1)) == pct_bytes(bs.subrange(0, i)) + pct_byte(bs[i]),
{
    assert(bs.subrange(0, i + 1) =~= bs.subrange(0, i) + seq![bs[i]]);
    lemma_pct_bytes_concat(bs.subrange(0, i), seq![bs[i]]);
    let s1 = seq![bs[i]];
    assert(s1.drop_first() =~= Seq::<u8>::empty());
    assert(pct_bytes(s1) == pct_byte(s1[0]) + pct_bytes(s1.drop_first()));
    assert(pct_bytes(s1) =~= pct_byte(bs[i]));
}

proof fn lemma_pct_path_bytes_snoc(bs: Seq<u8>, i: int)
    requires
        0 <= i < bs.len(),
    ensures
        pct_path_bytes(bs.subrange(0, i + 1)) == pct_path_bytes(bs.subrange(0, i)) + pct_path_byte(
            bs[i],
        ),
{
    assert(bs.subrange(0, i + 1) =~= bs.subrange(0, i) + seq![bs[i]]);
    lemma_pct_path_bytes_concat(bs.subrange(0, i), seq![bs[i]]);
    let s1 = seq![bs[i]];
    assert(s1.drop_first() =~= Seq::<u8>::empty());
    assert(pct_path_bytes(s1) == pct_path_byte(s1[0]) + pct_path_bytes(s1.drop_first()));
    assert(pct_path_bytes(s1) =~= pct_path_byte(bs[i]));
}

/// Percent-encode a string for use as a query-parameter name or value.
pub fn encode_component(s: &str) -> (r: String)
    ensures
        r@ == encoded_component(s@),
{
    let bytes = s.as_bytes();
    let mut out = String::new();
    let mut i: usize = 0;
    while i < bytes.len()
        invariant
            i <= bytes@.len(),
            bytes@ == encode_utf8(s@),
            out@ == pct_bytes(bytes@.subrange(0, i as int)),
        decreases bytes@.len() - i,
    {
        let b = bytes[i];
        if b == 0x20 {
            push_char(&mut out, '+');
        } else if unreserved(b) {
            push_char(&mut out, b as char);
        } else {
            push_char(&mut out, '%');
            push_char(&mut out, hex_upper(b / 16));
            push_char(&mut out, hex_upper(b % 16));
        }
        proof {
            lemma_pct_bytes_snoc(bytes@, i as int);
            assert(out@ =~= pct_bytes(bytes@.subrange(0, i as int)) + pct_byte(b));
        }
        i = i + 1;
    }
    proof {
        assert(bytes@.subrange(0, bytes@.len() as int) =~= bytes@);
    }
    out
}

/// Percent-encode a string for use as a URL path, keeping `/` separators.
pub fn encode_path(s: &str) -> (r: String)
    ensures
        r@ == encoded_path(s@),
{
    let bytes = s.as_bytes();
    let mut out = String::new();
    let mut i: usize = 0;
    while i < bytes.len()
        invariant
            i <= bytes@.len(),
            bytes@ == encode_utf8(s@),
            out@ == pct_path_bytes(bytes@.subrange(0, i as int)),
        decreases bytes@.len() - i,
    {
        let b = bytes[i];
        if b == 0x2f || unreserved(b) {
            push_char(&mut out, b as char);
        } else {
            push_char(&mut out, '%');
            push_char(&mut out, hex_upper(b / 16));
            push_char(&mut out, hex_upper(b % 16));
        }
        proof {
            lemma_pct_path_bytes_snoc(bytes@, i as int);
            assert(out@ =~= pct_path_bytes(bytes@.subrange(0, i as int)) + pct_path_byte(b));
        }
        i = i + 1;
    }
    proof {
        assert(bytes@.subrange(0, bytes@.len() as int) =~= bytes@);
    }
    out
}

} // verus!
