//! The decoded view of a built URL.
//!
//! This module specifies the inverse of the percent-encoding the URL builder
//! applies, splits a query string into its `name=value` pieces, and proves
//! what a built URL decodes back to: the credential pair first, then exactly
//! the parameter-bag pairs, with every name and value restored character for
//! character.

use vstd::prelude::*;
use vstd::utf8::{decode_utf8, encode_utf8, valid_utf8};

use crate::encoding::{encoded_component, encoded_path, hex_digit, is_unreserved_byte, pct_byte,
    pct_bytes, pct_path_byte, pct_path_bytes};
use crate::{pairs_suffix, query_string, url_path, url_spec};

verus! {

/// The value of a hex digit, either case.
pub open spec fn hex_val(c: char) -> Option<u8> {
    if '0' <= c && c <= '9' {
        Some((c as u32 - 0x30) as u8)
    } else if 'A' <= c && c <= 'F' {
        Some((c as u32 - 0x41 + 10) as u8)
    } else if 'a' <= c && c <= 'f' {
        Some((c as u32 - 0x61 + 10) as u8)
    } else {
        None
    }
}

/// Percent-decoding of a query component, back to bytes: `+` is the space
/// byte, `%XX` is the byte the digits spell, and any other ASCII character
/// is its own byte. Anything else is malformed.
pub open spec fn pct_decode(t: Seq<char>) -> Option<Seq<u8>>
    decreases t.len(),
{
    if t.len() == 0 {
        Some(Seq::empty())
    } else if t[0] == '%' {
        if t.len() >= 3 && hex_val(t[1]) is Some && hex_val(t[2]) is Some {
            match pct_decode(t.skip(3)) {
                Some(rest) => Some(
                    seq![
                        ((match hex_val(t[1]) {
                            Some(h) => h,
                            None => 0,
                        }) * 16 + (match hex_val(t[2]) {
                            Some(l) => l,
                            None => 0,
                        })) as u8,
                    ] + rest,
                ),
                None => None,
            }
        } else {
            None
        }
    } else if t[0] == '+' {
        match pct_decode(t.drop_first()) {
            Some(rest) => Some(seq![0x20u8] + rest),
            None => None,
        }
    } else if (t[0] as u32) < 0x80 {
        match pct_decode(t.drop_first()) {
            Some(rest) => Some(seq![t[0] as u8] + rest),
            None => None,
        }
    } else {
        None
    }
}

/// Full decoding of a query component: percent-decoding to bytes, then
/// UTF-8 back to characters.
pub open spec fn decoded_component(t: Seq<char>) -> Option<Seq<char>> {
    match pct_decode(t) {
        Some(bs) => if valid_utf8(bs) {
            Some(decode_utf8(bs))
        } else {
            None
        },
        None => None,
    }
}

proof fn lemma_hex_val_of_digit(n: u8)
    requires
        n < 16,
    ensures
        hex_val(hex_digit(n)) == Some(n),
{
}

/// Decoding peels the encoding of one byte off the front.
proof fn lemma_pct_decode_prepend(b: u8, t: Seq<char>)
    ensures
        pct_decode(pct_byte(b) + t) == match pct_decode(t) {
            Some(rest) => Some(seq![b] + rest),
            None => None::<Seq<u8>>,
        },
{
    let e = pct_byte(b) + t;
    if b == 0x20 {
        assert(e[0] == '+');
        assert(e.drop_first() =~= t);
    } else if is_unreserved_byte(b) {
        assert(e[0] == b as char);
        assert(e[0] != '%' && e[0] != '+');
        assert((e[0] as u32) < 0x80);
        assert(e[0] as u8 == b);
        assert(e.drop_first() =~= t);
    } else {
        assert(e[0] == '%');
        assert(e.len() >= 3);
        assert(e[1] == hex_digit(b / 16) && e[2] == hex_digit(b % 16));
        lemma_hex_val_of_digit(b / 16);
        lemma_hex_val_of_digit(b % 16);
        assert(e.skip(3) =~= t);
        assert((b / 16) * 16 + (b % 16) == b);
    }
}

/// Percent-decoding inverts percent-encoding on every byte sequence.
pub proof fn lemma_pct_decode_encode(bs: Seq<u8>)
    ensures
        pct_decode(pct_bytes(bs)) == Some(bs),
    decreases bs.len(),
{
    if bs.len() == 0 {
        assert(pct_bytes(bs) =~= Seq::<char>::empty());
    } else {
        lemma_pct_decode_encode(bs.drop_first());
        lemma_pct_decode_prepend(bs[0], pct_bytes(bs.drop_first()));
        assert(seq![bs[0]] + bs.drop_first() =~= bs);
    }
}

/// Decoding inverts encoding on every string: the round trip through the
/// query encoding restores the characters exactly.
pub proof fn lemma_component_round_trip(s: Seq<char>)
    ensures
        decoded_component(encoded_component(s)) == Some(s),
{
    broadcast use vstd::utf8::encode_utf8_valid_utf8, vstd::utf8::encode_utf8_decode_utf8;

    lemma_pct_decode_encode(encode_utf8(s));
}

/// Index of the first occurrence of a character, or the length when absent.
pub open spec fn sep_index(q: Seq<char>, sep: char) -> int
    decreases q.len(),
{
    if q.len() == 0 {
        0
    } else if q[0] == sep {
        0
    } else {
        1 + sep_index(q.drop_first(), sep)
    }
}

/// The pieces between occurrences of a separator.
pub open spec fn split_on(q: Seq<char>, sep: char) -> Seq<Seq<char>>
    decreases q.len(),
{
    let i = sep_index(q, sep);
    if 0 <= i < q.len() {
        seq![q.take(i)] + split_on(q.skip(i + 1), sep)
    } else {
        seq![q]
    }
}

/// Everything after the first `?`.
pub open spec fn after_query_mark(u: Seq<char>) -> Seq<char>
    decreases u.len(),
{
    if u.len() == 0 {
        Seq::empty()
    } else if u[0] == '?' {
        u.drop_first()
    } else {
        after_query_mark(u.drop_first())
    }
}

/// One query piece as its name and value: split at the first `=`, the value
/// empty when there is none.
pub open spec fn piece_pair(p: Seq<char>) -> (Seq<char>, Seq<char>) {
    let i = sep_index(p, '=');
    if 0 <= i < p.len() {
        (p.take(i), p.skip(i + 1))
    } else {
        (p, Seq::empty())
    }
}

/// The decoded pairs of a query string: each `&`-separated piece split at
/// its first `=`, name and value percent-decoded.
pub open spec fn decoded_query_pairs(q: Seq<char>) -> Seq<(Option<Seq<char>>, Option<Seq<char>>)> {
    split_on(q, '&').map_values(
        |p: Seq<char>| (decoded_component(piece_pair(p).0), decoded_component(piece_pair(p).1)),
    )
}

/// Free of the characters that delimit query pieces.
pub open spec fn piece_safe(t: Seq<char>) -> bool {
    forall|i: int| 0 <= i < t.len() ==> t[i] != '&' && t[i] != '=' && t[i] != '?'
}

/// Free of the character that starts the query string.
pub open spec fn no_question_mark(t: Seq<char>) -> bool {
    forall|i: int| 0 <= i < t.len() ==> t[i] != '?'
}

/// Query encoding never emits a delimiter character.
pub proof fn lemma_pct_bytes_safe(bs: Seq<u8>)
    ensures
        piece_safe(pct_bytes(bs)),
    decreases bs.len(),
{
    if bs.len() > 0 {
        lemma_pct_bytes_safe(bs.drop_first());
        assert(piece_safe(pct_byte(bs[0])));
        assert forall|i: int| 0 <= i < pct_bytes(bs).len() implies pct_bytes(bs)[i] != '&'
            && pct_bytes(bs)[i] != '=' && pct_bytes(bs)[i] != '?' by {
            if i < pct_byte(bs[0]).len() {
                assert(pct_bytes(bs)[i] == pct_byte(bs[0])[i]);
            } else {
                assert(pct_bytes(bs)[i] == pct_bytes(bs.drop_first())[i - pct_byte(bs[0]).len()]);
            }
        }
    }
}

/// Path encoding never emits a question mark.
pub proof fn lemma_pct_path_bytes_no_question(bs: Seq<u8>)
    ensures
        no_question_mark(pct_path_bytes(bs)),
    decreases bs.len(),
{
    if bs.len() > 0 {
        lemma_pct_path_bytes_no_question(bs.drop_first());
        assert(no_question_mark(pct_path_byte(bs[0])));
        assert forall|i: int| 0 <= i < pct_path_bytes(bs).len() implies pct_path_bytes(bs)[i]
            != '?' by {
            if i < pct_path_byte(bs[0]).len() {
                assert(pct_path_bytes(bs)[i] == pct_path_byte(bs[0])[i]);
            } else {
                assert(pct_path_bytes(bs)[i] == pct_path_bytes(bs.drop_first())[i - pct_path_byte(
                    bs[0],
                ).len()]);
            }
        }
    }
}

proof fn lemma_sep_index_absent(q: Seq<char>, sep: char)
    requires
        forall|i: int| 0 <= i < q.len() ==> q[i] != sep,
    ensures
        sep_index(q, sep) == q.len(),
    decreases q.len(),
{
    if q.len() > 0 {
        lemma_sep_index_absent(q.drop_first(), sep);
    }
}

proof fn lemma_sep_index_concat(a: Seq<char>, b: Seq<char>, sep: char)
    requires
        forall|i: int| 0 <= i < a.len() ==> a[i] != sep,
    ensures
        sep_index(a + seq![sep] + b, sep) == a.len(),
    decreases a.len(),
{
    let q = a + seq![sep] + b;
    if a.len() == 0 {
        assert(q[0] == sep);
    } else {
        lemma_sep_index_concat(a.drop_first(), b, sep);
        assert(q[0] == a[0]);
        assert(q.drop_first() =~= a.drop_first() + seq![sep] + b);
    }
}

proof fn lemma_split_single(q: Seq<char>, sep: char)
    requires
        forall|i: int| 0 <= i < q.len() ==> q[i] != sep,
    ensures
        split_on(q, sep) == seq![q],
{
    lemma_sep_index_absent(q, sep);
}

proof fn lemma_split_concat(a: Seq<char>, b: Seq<char>, sep: char)
    requires
        forall|i: int| 0 <= i < a.len() ==> a[i] != sep,
    ensures
        split_on(a + seq![sep] + b, sep) == seq![a] + split_on(b, sep),
{
    let q = a + seq![sep] + b;
    lemma_sep_index_concat(a, b, sep);
    assert(q.take(a.len() as int) =~= a);
    assert(q.skip(a.len() as int + 1) =~= b);
    assert(split_on(q, sep) =~= seq![a] + split_on(b, sep));
}

proof fn lemma_after_query_mark_concat(a: Seq<char>, q: Seq<char>)
    requires
        no_question_mark(a),
    ensures
        after_query_mark(a + seq!['?'] + q) == q,
    decreases a.len(),
{
    let u = a + seq!['?'] + q;
    if a.len() == 0 {
        assert(u[0] == '?');
        assert(u.drop_first() =~= q);
    } else {
        lemma_after_query_mark_concat(a.drop_first(), q);
        assert(u[0] == a[0]);
        assert(u.drop_first() =~= a.drop_first() + seq!['?'] + q);
    }
}

/// The `name=value` text of one encoded pair.
pub open spec fn encoded_pair_piece(p: (Seq<char>, Seq<char>)) -> Seq<char> {
    encoded_component(p.0) + seq!['='] + encoded_component(p.1)
}

proof fn lemma_split_pairs(head: Seq<char>, prs: Seq<(Seq<char>, Seq<char>)>)
    requires
        forall|i: int| 0 <= i < head.len() ==> head[i] != '&',
    ensures
        split_on(head + pairs_suffix(prs), '&') == seq![head] + prs.map_values(
            |p: (Seq<char>, Seq<char>)| encoded_pair_piece(p),
        ),
    decreases prs.len(),
{
    if prs.len() == 0 {
        assert(head + pairs_suffix(prs) =~= head);
        lemma_split_single(head, '&');
        assert(seq![head] + prs.map_values(|p: (Seq<char>, Seq<char>)| encoded_pair_piece(p))
            =~= seq![head]);
    } else {
        let piece = encoded_pair_piece(prs[0]);
        assert(piece_safe(encoded_component(prs[0].0))) by {
            lemma_pct_bytes_safe(encode_utf8(prs[0].0));
        }
        assert(piece_safe(encoded_component(prs[0].1))) by {
            lemma_pct_bytes_safe(encode_utf8(prs[0].1));
        }
        assert(forall|i: int| 0 <= i < piece.len() ==> piece[i] != '&');
        lemma_split_pairs(piece, prs.drop_first());
        assert(head + pairs_suffix(prs) =~= head + seq!['&'] + (piece + pairs_suffix(
            prs.drop_first(),
        )));
        lemma_split_concat(head, piece + pairs_suffix(prs.drop_first()), '&');
        assert(seq![head] + (seq![piece] + prs.drop_first().map_values(
            |p: (Seq<char>, Seq<char>)| encoded_pair_piece(p),
        )) =~= seq![head] + prs.map_values(|p: (Seq<char>, Seq<char>)| encoded_pair_piece(p)));
    }
}

proof fn lemma_piece_pair_of_pair(p: (Seq<char>, Seq<char>))
    ensures
        piece_pair(encoded_pair_piece(p)) == (encoded_component(p.0), encoded_component(p.1)),
{
    assert(piece_safe(encoded_component(p.0))) by {
        lemma_pct_bytes_safe(encode_utf8(p.0));
    }
    lemma_sep_index_concat(encoded_component(p.0), encoded_component(p.1), '=');
    let piece = encoded_pair_piece(p);
    assert(piece.take(encoded_component(p.0).len() as int) =~= encoded_component(p.0));
    assert(piece.skip(encoded_component(p.0).len() as int + 1) =~= encoded_component(p.1));
}

proof fn lemma_piece_pair_key(api_key: Seq<char>)
    ensures
        piece_pair(seq!['k', 'e', 'y', '='] + encoded_component(api_key)) == (
            seq!['k', 'e', 'y'],
            encoded_component(api_key),
        ),
{
    let name = seq!['k', 'e', 'y'];
    lemma_sep_index_concat(name, encoded_component(api_key), '=');
    let piece = seq!['k', 'e', 'y', '='] + encoded_component(api_key);
    assert(piece =~= name + seq!['='] + encoded_component(api_key));
    assert(sep_index(piece, '=') == 3);
    assert(piece.take(3) =~= name);
    assert(piece.skip(4) =~= encoded_component(api_key));
}

proof fn lemma_key_name_decodes()
    ensures
        decoded_component(seq!['k', 'e', 'y']) == Some(seq!['k', 'e', 'y']),
{
    let name = seq!['k', 'e', 'y'];
    assert(vstd::utf8::is_ascii_chars(name));
    vstd::utf8::is_ascii_chars_encode_utf8(name);
    let bytes = encode_utf8(name);
    assert(bytes =~= seq![0x6bu8, 0x65u8, 0x79u8]);
    assert(pct_byte(0x6bu8) =~= seq!['k']);
    assert(pct_byte(0x65u8) =~= seq!['e']);
    assert(pct_byte(0x79u8) =~= seq!['y']);
    assert(pct_bytes(bytes) =~= name) by {
        assert(bytes.drop_first() =~= seq![0x65u8, 0x79u8]);
        assert(bytes.drop_first().drop_first() =~= seq![0x79u8]);
        assert(bytes.drop_first().drop_first().drop_first() =~= Seq::<u8>::empty());
        let s1 = seq![0x79u8];
        assert(s1.drop_first() =~= Seq::<u8>::empty());
        assert(pct_bytes(s1) == pct_byte(s1[0]) + pct_bytes(s1.drop_first()));
        assert(pct_bytes(s1) =~= seq!['y']);
        let s2 = seq![0x65u8, 0x79u8];
        assert(s2.drop_first() =~= s1);
        assert(pct_bytes(s2) == pct_byte(s2[0]) + pct_bytes(s2.drop_first()));
        assert(pct_bytes(s2) =~= seq!['e', 'y']);
    }
    assert(encoded_component(name) == name);
    lemma_component_round_trip(name);
}

/// What the query string of a built URL decodes to: the credential pair
/// first, then exactly the bag's pairs, all restored character for
/// character.
pub proof fn lemma_query_pairs_decoded(api_key: Seq<char>, prs: Seq<(Seq<char>, Seq<char>)>)
    ensures
        decoded_query_pairs(query_string(api_key, prs)) == seq![
            (Some(seq!['k', 'e', 'y']), Some(api_key)),
        ] + prs.map_values(|p: (Seq<char>, Seq<char>)| (Some(p.0), Some(p.1))),
{
    let head = seq!['k', 'e', 'y', '='] + encoded_component(api_key);
    assert(piece_safe(encoded_component(api_key))) by {
        lemma_pct_bytes_safe(encode_utf8(api_key));
    }
    assert(forall|i: int| 0 <= i < head.len() ==> head[i] != '&');
    assert(query_string(api_key, prs) =~= head + pairs_suffix(prs));
    lemma_split_pairs(head, prs);
    let pieces = seq![head] + prs.map_values(|p: (Seq<char>, Seq<char>)| encoded_pair_piece(p));
    assert(split_on(query_string(api_key, prs), '&') == pieces);
    let lhs = decoded_query_pairs(query_string(api_key, prs));
    let rhs = seq![(Some(seq!['k', 'e', 'y']), Some(api_key))] + prs.map_values(
        |p: (Seq<char>, Seq<char>)| (Some(p.0), Some(p.1)),
    );
    assert forall|j: int| 0 <= j < lhs.len() implies lhs[j] == rhs[j] by {
        if j == 0 {
            lemma_piece_pair_key(api_key);
            lemma_key_name_decodes();
            lemma_component_round_trip(api_key);
        } else {
            assert(pieces[j] == encoded_pair_piece(prs[j - 1]));
            lemma_piece_pair_of_pair(prs[j - 1]);
            lemma_component_round_trip(prs[j - 1].0);
            lemma_component_round_trip(prs[j - 1].1);
        }
    }
    assert(lhs =~= rhs);
}

/// The query string of a built URL is everything after its first `?`: the
/// base host carries none, and the encoded path cannot produce one.
pub proof fn lemma_url_query(
    base: Seq<char>,
    path: Seq<char>,
    api_key: Seq<char>,
    prs: Seq<(Seq<char>, Seq<char>)>,
)
    requires
        no_question_mark(base),
    ensures
        after_query_mark(url_spec(base, path, api_key, prs)) == query_string(api_key, prs),
{
    let a = base + url_path(path);
    assert(no_question_mark(encoded_path(path))) by {
        lemma_pct_path_bytes_no_question(encode_utf8(path));
    }
    assert(no_question_mark(url_path(path)));
    assert(no_question_mark(a));
    assert(url_spec(base, path, api_key, prs) =~= a + seq!['?'] + query_string(api_key, prs));
    lemma_after_query_mark_concat(a, query_string(api_key, prs));
}

/// Law: every pair set in the parameter bag appears in the built URL's
/// decoded query string as exactly that name and value — the round trip
/// through percent-encoding loses nothing.
pub proof fn lemma_set_parameter_in_url(
    base: Seq<char>,
    path: Seq<char>,
    api_key: Seq<char>,
    prs: Seq<(Seq<char>, Seq<char>)>,
    name: Seq<char>,
    value: Seq<char>,
)
    requires
        no_question_mark(base),
        prs.contains((name, value)),
    ensures
        decoded_query_pairs(after_query_mark(url_spec(base, path, api_key, prs))).contains(
            (Some(name), Some(value)),
        ),
{
    lemma_url_query(base, path, api_key, prs);
    lemma_query_pairs_decoded(api_key, prs);
    let i = choose|i: int| 0 <= i < prs.len() && prs[i] == (name, value);
    let decoded = decoded_query_pairs(after_query_mark(url_spec(base, path, api_key, prs)));
    assert(decoded[i + 1] == (Some(name), Some(value)));
}

/// Law: under the bag's unique names, a written pair is the only decoded
/// pair of the built URL under its name: the pair appears, and every
/// decoded pair carrying the name is exactly it. The credential's own name
/// is aside: the credential pair always rides under `key`.
pub proof fn lemma_parameter_exactly_once_in_url(
    base: Seq<char>,
    path: Seq<char>,
    api_key: Seq<char>,
    prs: Seq<(Seq<char>, Seq<char>)>,
    name: Seq<char>,
    value: Seq<char>,
)
    requires
        no_question_mark(base),
        crate::keys_unique(prs),
        prs.contains((name, value)),
        name != seq!['k', 'e', 'y'],
    ensures
        decoded_query_pairs(after_query_mark(url_spec(base, path, api_key, prs))).contains(
            (Some(name), Some(value)),
        ),
        forall|j: int|
            0 <= j < decoded_query_pairs(after_query_mark(url_spec(base, path, api_key, prs))).len()
                && (#[trigger] decoded_query_pairs(
                after_query_mark(url_spec(base, path, api_key, prs)),
            )[j]).0 == Some(name) ==> decoded_query_pairs(
                after_query_mark(url_spec(base, path, api_key, prs)),
            )[j] == (Some(name), Some(value)),
{
    lemma_url_query(base, path, api_key, prs);
    lemma_query_pairs_decoded(api_key, prs);
    let decoded = decoded_query_pairs(after_query_mark(url_spec(base, path, api_key, prs)));
    let i = choose|i: int| 0 <= i < prs.len() && prs[i] == (name, value);
    assert(decoded[i + 1] == (Some(name), Some(value)));
    assert forall|j: int|
        0 <= j < decoded.len() && (#[trigger] decoded[j]).0 == Some(name) implies decoded[j] == (
        Some(name),
        Some(value),
    ) by {
        if j == 0 {
            assert(decoded[0].0 == Some(seq!['k', 'e', 'y']));
        } else {
            assert(decoded[j] == (Some(prs[j - 1].0), Some(prs[j - 1].1)));
            assert(prs[j - 1].0 == name);
            if j - 1 != i {
                assert(prs[j - 1].0 != prs[i].0);
            }
        }
    }
}

/// Law: a name never written into the parameter bag — an optional argument
/// that was absent — appears in no pair of the built URL's decoded query
/// string.
pub proof fn lemma_absent_parameter_not_in_url(
    base: Seq<char>,
    path: Seq<char>,
    api_key: Seq<char>,
    prs: Seq<(Seq<char>, Seq<char>)>,
    name: Seq<char>,
)
    requires
        no_question_mark(base),
        forall|i: int| 0 <= i < prs.len() ==> (#[trigger] prs[i]).0 != name,
        name != seq!['k', 'e', 'y'],
    ensures
        forall|j: int|
            0 <= j < decoded_query_pairs(after_query_mark(url_spec(base, path, api_key, prs))).len()
                ==> (#[trigger] decoded_query_pairs(
                after_query_mark(url_spec(base, path, api_key, prs)),
            )[j]).0 != Some(name),
{
    lemma_url_query(base, path, api_key, prs);
    lemma_query_pairs_decoded(api_key, prs);
    let decoded = decoded_query_pairs(after_query_mark(url_spec(base, path, api_key, prs)));
    assert forall|j: int| 0 <= j < decoded.len() implies (#[trigger] decoded[j]).0 != Some(name) by {
        if j > 0 {
            assert(decoded[j] == (Some(prs[j - 1].0), Some(prs[j - 1].1)));
        }
    }
}

/// Law: the credential is always the first decoded pair of a built URL,
/// under the name `key`, whatever other parameters are set.
pub proof fn lemma_api_key_in_url(
    base: Seq<char>,
    path: Seq<char>,
    api_key: Seq<char>,
    prs: Seq<(Seq<char>, Seq<char>)>,
)
    requires
        no_question_mark(base),
    ensures
        decoded_query_pairs(after_query_mark(url_spec(base, path, api_key, prs))).len() == 1
            + prs.len(),
        decoded_query_pairs(after_query_mark(url_spec(base, path, api_key, prs)))[0] == (
            Some(seq!['k', 'e', 'y']),
            Some(api_key),
        ),
{
    lemma_url_query(base, path, api_key, prs);
    lemma_query_pairs_decoded(api_key, prs);
}

} // verus!
